//! A runtime-checked borrow cell: many readers XOR one writer, checked at
//! run time instead of at compile time.

use vstd::prelude::*;

use crate::cell::Cell;

verus! {

/// The borrow-state tag of a [`RefCell`]: at any instant exactly one variant
/// describes how many views of the wrapped value are outstanding.
///
/// A well-formed state (see [`state_wf`]) never holds `Shared(0)`: the last
/// shared release transitions to `Unshared` instead.
#[derive(Copy, Clone, Debug, PartialEq, Eq, Structural)]
pub enum RefState {
    /// No outstanding guards.
    Unshared,
    /// `n >= 1` outstanding shared (read-only) guards.
    Shared(usize),
    /// Exactly one outstanding exclusive (read-write) guard.
    Exclusive,
}

/// A well-formed borrow state: a `Shared` count is at least one.
pub open spec fn state_wf(s: RefState) -> bool {
    s matches RefState::Shared(n) ==> n >= 1
}

/// How many shared guards are outstanding in state `s`.
pub open spec fn shared_guards(s: RefState) -> nat {
    match s {
        RefState::Unshared => 0,
        RefState::Shared(n) => n as nat,
        RefState::Exclusive => 0,
    }
}

/// How many exclusive guards are outstanding in state `s`.
pub open spec fn exclusive_guards(s: RefState) -> nat {
    match s {
        RefState::Unshared => 0,
        RefState::Shared(_) => 0,
        RefState::Exclusive => 1,
    }
}

/// Whether a shared borrow is granted in state `s`: refused only while an
/// exclusive guard is outstanding.
pub open spec fn borrow_allowed(s: RefState) -> bool {
    !(s is Exclusive)
}

/// Whether an exclusive borrow is granted in state `s`: only with no
/// outstanding guard of either kind.
pub open spec fn borrow_mut_allowed(s: RefState) -> bool {
    s is Unshared
}

/// Whether one more shared guard can be counted in state `s` without the
/// count outgrowing its machine representation.
pub open spec fn shared_count_has_room(s: RefState) -> bool {
    s matches RefState::Shared(n) ==> n < usize::MAX
}

/// The state after a shared-borrow attempt: a granted borrow increments the
/// shared count (from zero when `Unshared`); a refused one changes nothing.
pub open spec fn after_borrow(s: RefState) -> RefState {
    match s {
        RefState::Unshared => RefState::Shared(1),
        RefState::Shared(n) => RefState::Shared((n + 1) as usize),
        RefState::Exclusive => RefState::Exclusive,
    }
}

/// The state after an exclusive-borrow attempt: granted only from
/// `Unshared`; a refused one changes nothing.
pub open spec fn after_borrow_mut(s: RefState) -> RefState {
    match s {
        RefState::Unshared => RefState::Exclusive,
        _ => s,
    }
}

/// The state after releasing one shared guard: the count decrements, and the
/// last release returns the cell to `Unshared`. On any other state (never
/// reached under the protocol) the state is left unchanged.
pub open spec fn after_release(s: RefState) -> RefState {
    match s {
        RefState::Shared(n) => if n == 1 {
            RefState::Unshared
        } else {
            RefState::Shared((n - 1) as usize)
        },
        _ => s,
    }
}

/// The state after releasing the exclusive guard: back to `Unshared`. On any
/// other state (never reached under the protocol) the state is left
/// unchanged.
pub open spec fn after_release_mut(s: RefState) -> RefState {
    match s {
        RefState::Exclusive => RefState::Unshared,
        _ => s,
    }
}

/// Owns a value and a [`RefState`] tag (held in a [`Cell`], since the tag is
/// copyable), and grants shared or exclusive views of the value only as the
/// tag allows. A refused request returns `None`: failing to borrow is an
/// expected, recoverable outcome, not an error.
///
/// Single-threaded use only: the tag is mutated without any atomicity.
pub struct RefCell<T> {
    value: T,
    state: Cell<RefState>,
}

/// A scoped handle for one granted shared borrow of a [`RefCell`].
///
/// The guard carries no state of its own: all bookkeeping lives in the
/// cell's tag. It must be handed back to the cell it came from, through
/// [`RefCell::release`], and must not outlive that cell — a contract the
/// design relies on but does not itself enforce.
pub struct Ref {
    marker: (),
}

/// A scoped handle for the one granted exclusive borrow of a [`RefCell`].
///
/// Like [`Ref`], it carries no state of its own and must be handed back to
/// the cell it came from, through [`RefCell::release_mut`].
pub struct RefMut {
    marker: (),
}

impl<T> RefCell<T> {
    /// The wrapped value.
    pub closed spec fn spec_value(&self) -> T {
        self.value
    }

    /// The borrow-state tag.
    pub closed spec fn spec_state(&self) -> RefState {
        self.state@
    }

    /// Every cell starts well formed and stays so under the borrow/release
    /// protocol.
    pub open spec fn wf(&self) -> bool {
        state_wf(self.spec_state())
    }

    /// Wraps `value`; no guard is outstanding yet.
    pub fn new(value: T) -> (cell: Self)
        ensures
            cell.spec_value() == value,
            cell.spec_state() == RefState::Unshared,
            cell.wf(),
    {
        RefCell { value, state: Cell::new(RefState::Unshared) }
    }

    /// Reads the current borrow-state tag.
    pub fn state(&self) -> (s: RefState)
        ensures
            s == self.spec_state(),
    {
        self.state.get()
    }

    /// Requests a shared (read-only) view. Granted exactly when no exclusive
    /// guard is outstanding; a grant increments the shared count and a
    /// refusal leaves the cell untouched. The wrapped value never changes.
    pub fn borrow(&mut self) -> (guard: Option<Ref>)
        requires
            shared_count_has_room(old(self).spec_state()),
        ensures
            guard is Some <==> borrow_allowed(old(self).spec_state()),
            final(self).spec_state() == after_borrow(old(self).spec_state()),
            final(self).spec_value() == old(self).spec_value(),
            final(self).wf(),
    {
        match self.state.get() {
            RefState::Unshared => {
                self.state.set(RefState::Shared(1));
                Some(Ref { marker: () })
            },
            RefState::Shared(n) => {
                self.state.set(RefState::Shared(n + 1));
                Some(Ref { marker: () })
            },
            RefState::Exclusive => None,
        }
    }

    /// Requests an exclusive (read-write) view. Granted exactly when no
    /// guard of either kind is outstanding; a refusal leaves the cell
    /// untouched. The wrapped value never changes.
    pub fn borrow_mut(&mut self) -> (guard: Option<RefMut>)
        ensures
            guard is Some <==> borrow_mut_allowed(old(self).spec_state()),
            final(self).spec_state() == after_borrow_mut(old(self).spec_state()),
            final(self).spec_value() == old(self).spec_value(),
            old(self).wf() ==> final(self).wf(),
    {
        if let RefState::Unshared = self.state.get() {
            self.state.set(RefState::Exclusive);
            return Some(RefMut { marker: () });
        }
        None
    }

    /// Hands one shared guard back. Releasing while the tag records no
    /// shared borrow would mean the tracking invariant was corrupted from
    /// outside the protocol; that state is excluded rather than repaired.
    pub fn release(&mut self, guard: Ref)
        requires
            shared_guards(old(self).spec_state()) >= 1,
        ensures
            final(self).spec_state() == after_release(old(self).spec_state()),
            final(self).spec_value() == old(self).spec_value(),
            final(self).wf(),
    {
        let _ = guard;
        match self.state.get() {
            RefState::Shared(n) => {
                if n == 1 {
                    self.state.set(RefState::Unshared);
                } else {
                    self.state.set(RefState::Shared(n - 1));
                }
            },
            _ => unreached(),
        }
    }

    /// Hands the exclusive guard back; the cell returns to `Unshared`.
    /// Releasing while the tag reads anything but `Exclusive` would mean the
    /// tracking invariant was corrupted; that state is excluded.
    pub fn release_mut(&mut self, guard: RefMut)
        requires
            old(self).spec_state() is Exclusive,
        ensures
            final(self).spec_state() == after_release_mut(old(self).spec_state()),
            final(self).spec_state() == RefState::Unshared,
            final(self).spec_value() == old(self).spec_value(),
            final(self).wf(),
    {
        let _ = guard;
        match self.state.get() {
            RefState::Exclusive => {
                self.state.set(RefState::Unshared);
            },
            _ => unreached(),
        }
    }

    /// Read access through a shared guard: exactly the wrapped value.
    pub fn read(&self, guard: &Ref) -> (value: &T)
        requires
            self.spec_state() is Shared,
        ensures
            value == self.spec_value(),
    {
        let _ = guard;
        &self.value
    }

    /// Read access through the exclusive guard: exactly the wrapped value.
    pub fn read_mut(&self, guard: &RefMut) -> (value: &T)
        requires
            self.spec_state() is Exclusive,
        ensures
            value == self.spec_value(),
    {
        let _ = guard;
        &self.value
    }

    /// Write access through the exclusive guard: overwrites the wrapped
    /// value; the borrow-state tag is untouched.
    pub fn write(&mut self, guard: &RefMut, value: T)
        requires
            old(self).spec_state() is Exclusive,
        ensures
            final(self).spec_value() == value,
            final(self).spec_state() == old(self).spec_state(),
    {
        let _ = guard;
        self.value = value;
    }
}

} // verus!

