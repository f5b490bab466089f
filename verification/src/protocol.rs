//! The borrow protocol as a transition system, and its laws.
//!
//! A [`RefCell`](crate::refcell::RefCell) evolves only through four
//! operations: the two borrow requests and the two releases. This module
//! models an arbitrary run of that protocol as a sequence of [`Op`] values,
//! folded over the state by [`run`], and proves the laws of the state
//! machine: every reachable state is well formed, the guard count read off
//! the operations themselves always matches the state tag, an outstanding
//! exclusive guard excludes every other guard, shared guards are counted
//! exactly, and a cell whose guards are all released recovers fully.

use vstd::prelude::*;

use crate::refcell::RefState;
use crate::refcell::after_borrow;
use crate::refcell::after_borrow_mut;
use crate::refcell::after_release;
use crate::refcell::after_release_mut;
use crate::refcell::borrow_allowed;
use crate::refcell::borrow_mut_allowed;
use crate::refcell::exclusive_guards;
use crate::refcell::shared_count_has_room;
use crate::refcell::shared_guards;
use crate::refcell::state_wf;

verus! {

/// One operation of the borrow protocol.
pub enum Op {
    /// A shared-borrow request (`RefCell::borrow`); may be refused.
    Borrow,
    /// An exclusive-borrow request (`RefCell::borrow_mut`); may be refused.
    BorrowMut,
    /// Handing back one shared guard (`RefCell::release`).
    Release,
    /// Handing back the exclusive guard (`RefCell::release_mut`).
    ReleaseMut,
}

/// Whether `op` may be performed in state `s`. Borrow requests may always be
/// attempted (a refusal is a normal outcome), as long as one more shared
/// guard could still be counted; a release needs an outstanding guard of its
/// kind, since a guard is the only token that grants the call.
pub open spec fn op_enabled(s: RefState, op: Op) -> bool {
    match op {
        Op::Borrow => shared_count_has_room(s),
        Op::BorrowMut => true,
        Op::Release => shared_guards(s) >= 1,
        Op::ReleaseMut => exclusive_guards(s) >= 1,
    }
}

/// The state after performing `op` in state `s`; a refused borrow leaves the
/// state unchanged.
pub open spec fn step(s: RefState, op: Op) -> RefState {
    match op {
        Op::Borrow => after_borrow(s),
        Op::BorrowMut => after_borrow_mut(s),
        Op::Release => after_release(s),
        Op::ReleaseMut => after_release_mut(s),
    }
}

/// Whether the whole sequence `ops` can be performed from state `s`: each
/// operation is enabled in the state the previous ones produced.
pub open spec fn trace_ok(s: RefState, ops: Seq<Op>) -> bool
    decreases ops.len(),
{
    ops.len() == 0 || (op_enabled(s, ops[0]) && trace_ok(step(s, ops[0]), ops.subrange(1, ops.len() as int)))
}

/// The state after performing all of `ops` from state `s`.
pub open spec fn run(s: RefState, ops: Seq<Op>) -> RefState
    decreases ops.len(),
{
    if ops.len() == 0 {
        s
    } else {
        run(step(s, ops[0]), ops.subrange(1, ops.len() as int))
    }
}

/// The net number of shared guards `ops` leaves outstanding when performed
/// from state `s`: each granted shared borrow hands one out, each shared
/// release takes one back.
pub open spec fn net_shared(s: RefState, ops: Seq<Op>) -> int
    decreases ops.len(),
{
    if ops.len() == 0 {
        0
    } else {
        let d: int = match ops[0] {
            Op::Borrow => if borrow_allowed(s) { 1 } else { 0 },
            Op::Release => -1,
            _ => 0,
        };
        d + net_shared(step(s, ops[0]), ops.subrange(1, ops.len() as int))
    }
}

/// The net number of exclusive guards `ops` leaves outstanding when
/// performed from state `s`.
pub open spec fn net_exclusive(s: RefState, ops: Seq<Op>) -> int
    decreases ops.len(),
{
    if ops.len() == 0 {
        0
    } else {
        let d: int = match ops[0] {
            Op::BorrowMut => if borrow_mut_allowed(s) { 1 } else { 0 },
            Op::ReleaseMut => -1,
            _ => 0,
        };
        d + net_exclusive(step(s, ops[0]), ops.subrange(1, ops.len() as int))
    }
}

/// `n` copies of the same operation.
pub open spec fn repeat_op(op: Op, n: nat) -> Seq<Op> {
    Seq::new(n, |i: int| op)
}

/// Each enabled protocol step preserves well-formedness of the state.
pub proof fn lemma_step_preserves_wf(s: RefState, op: Op)
    requires
        state_wf(s),
        op_enabled(s, op),
    ensures
        state_wf(step(s, op)),
{
}

/// Guard accounting: along any performable trace, the guard counts recorded
/// in the state tag move in lockstep with the guards the operations
/// themselves hand out and take back. Every reached state is well formed.
pub proof fn lemma_guard_accounting(s: RefState, ops: Seq<Op>)
    requires
        state_wf(s),
        trace_ok(s, ops),
    ensures
        state_wf(run(s, ops)),
        shared_guards(run(s, ops)) == shared_guards(s) + net_shared(s, ops),
        exclusive_guards(run(s, ops)) == exclusive_guards(s) + net_exclusive(s, ops),
    decreases ops.len(),
{
    if ops.len() > 0 {
        lemma_step_preserves_wf(s, ops[0]);
        lemma_guard_accounting(step(s, ops[0]), ops.subrange(1, ops.len() as int));
    }
}

/// Running a concatenation runs the two halves in order, and a
/// concatenation is performable exactly when the first half is and the
/// second half is from where the first half ends.
pub proof fn lemma_run_append(s: RefState, a: Seq<Op>, b: Seq<Op>)
    ensures
        run(s, a + b) == run(run(s, a), b),
        trace_ok(s, a + b) <==> trace_ok(s, a) && trace_ok(run(s, a), b),
    decreases a.len(),
{
    if a.len() == 0 {
        assert(a + b =~= b);
    } else {
        assert((a + b)[0] == a[0]);
        assert((a + b).subrange(1, (a + b).len() as int) =~= a.subrange(1, a.len() as int) + b);
        lemma_run_append(step(s, a[0]), a.subrange(1, a.len() as int), b);
    }
}

/// Every prefix of a performable trace is performable.
pub proof fn lemma_trace_ok_prefix(s: RefState, ops: Seq<Op>, i: int)
    requires
        trace_ok(s, ops),
        0 <= i <= ops.len(),
    ensures
        trace_ok(s, ops.subrange(0, i)),
{
    assert(ops =~= ops.subrange(0, i) + ops.subrange(i, ops.len() as int));
    lemma_run_append(s, ops.subrange(0, i), ops.subrange(i, ops.len() as int));
}

/// Mutual exclusion: at no instant of any run of the protocol from a fresh
/// cell does an outstanding exclusive guard coexist with a shared guard or
/// with a second exclusive guard. The instant is any prefix of the trace,
/// and the outstanding guards are counted from the operations themselves.
pub proof fn lemma_mutual_exclusion(ops: Seq<Op>, i: int)
    requires
        trace_ok(RefState::Unshared, ops),
        0 <= i <= ops.len(),
    ensures
        net_exclusive(RefState::Unshared, ops.subrange(0, i)) >= 1 ==> {
            &&& net_shared(RefState::Unshared, ops.subrange(0, i)) == 0
            &&& net_exclusive(RefState::Unshared, ops.subrange(0, i)) == 1
        },
{
    lemma_trace_ok_prefix(RefState::Unshared, ops, i);
    lemma_guard_accounting(RefState::Unshared, ops.subrange(0, i));
}

/// From any state that can still count one more shared guard, `k` more
/// shared-borrow requests are all granted, and they raise the shared count
/// by exactly `k`.
pub proof fn lemma_repeated_borrows(s: RefState, k: nat)
    requires
        state_wf(s),
        borrow_allowed(s),
        shared_guards(s) + k <= usize::MAX,
    ensures
        trace_ok(s, repeat_op(Op::Borrow, k)),
        run(s, repeat_op(Op::Borrow, k)) == if shared_guards(s) + k == 0 {
            RefState::Unshared
        } else {
            RefState::Shared((shared_guards(s) + k) as usize)
        },
    decreases k,
{
    if k == 0 {
        assert(repeat_op(Op::Borrow, 0) =~= Seq::<Op>::empty());
    } else {
        let rest = repeat_op(Op::Borrow, k)
            .subrange(1, repeat_op(Op::Borrow, k).len() as int);
        assert(rest =~= repeat_op(Op::Borrow, (k - 1) as nat));
        lemma_repeated_borrows(step(s, Op::Borrow), (k - 1) as nat);
    }
}

/// From a state with `n` outstanding shared guards, releasing `j <= n` of
/// them is performable and leaves `n - j` outstanding; releasing the last
/// one returns the cell to `Unshared`.
pub proof fn lemma_repeated_releases(s: RefState, j: nat)
    requires
        state_wf(s),
        !(s is Exclusive),
        j <= shared_guards(s),
    ensures
        trace_ok(s, repeat_op(Op::Release, j)),
        run(s, repeat_op(Op::Release, j)) == if j == shared_guards(s) {
            RefState::Unshared
        } else {
            RefState::Shared((shared_guards(s) - j) as usize)
        },
    decreases j,
{
    if j == 0 {
        assert(repeat_op(Op::Release, 0) =~= Seq::<Op>::empty());
    } else {
        let rest = repeat_op(Op::Release, j)
            .subrange(1, repeat_op(Op::Release, j).len() as int);
        assert(rest =~= repeat_op(Op::Release, (j - 1) as nat));
        lemma_repeated_releases(step(s, Op::Release), (j - 1) as nat);
    }
}

/// Shared counting: after `k` granted shared borrows of a fresh cell with no
/// intervening releases the state is `Shared(k)`; after then releasing
/// `j <= k` of the guards it is `Shared(k - j)`, or `Unshared` when `j == k`.
pub proof fn lemma_shared_counting(k: nat, j: nat)
    requires
        1 <= k <= usize::MAX,
        j <= k,
    ensures
        trace_ok(RefState::Unshared, repeat_op(Op::Borrow, k)),
        run(RefState::Unshared, repeat_op(Op::Borrow, k)) == RefState::Shared(k as usize),
        trace_ok(RefState::Unshared, repeat_op(Op::Borrow, k) + repeat_op(Op::Release, j)),
        run(RefState::Unshared, repeat_op(Op::Borrow, k) + repeat_op(Op::Release, j)) == if j == k {
            RefState::Unshared
        } else {
            RefState::Shared((k - j) as usize)
        },
{
    lemma_repeated_borrows(RefState::Unshared, k);
    lemma_repeated_releases(RefState::Shared(k as usize), j);
    lemma_run_append(RefState::Unshared, repeat_op(Op::Borrow, k), repeat_op(Op::Release, j));
}

/// The releases that hand back every guard outstanding in state `s`.
pub open spec fn release_all(s: RefState) -> Seq<Op> {
    repeat_op(Op::Release, shared_guards(s)) + repeat_op(Op::ReleaseMut, exclusive_guards(s))
}

/// Recovery: from any well-formed state, releasing every outstanding guard
/// is performable and returns the cell to `Unshared`, where a shared borrow
/// and an exclusive borrow are both granted again.
pub proof fn lemma_recovery(s: RefState)
    requires
        state_wf(s),
    ensures
        trace_ok(s, release_all(s)),
        run(s, release_all(s)) == RefState::Unshared,
        borrow_allowed(RefState::Unshared),
        borrow_mut_allowed(RefState::Unshared),
{
    let shared = repeat_op(Op::Release, shared_guards(s));
    let exclusive = repeat_op(Op::ReleaseMut, exclusive_guards(s));
    lemma_run_append(s, shared, exclusive);
    match s {
        RefState::Unshared => {
            assert(shared =~= Seq::<Op>::empty());
            assert(exclusive =~= Seq::<Op>::empty());
            assert(run(s, shared) == s);
        },
        RefState::Shared(_) => {
            lemma_repeated_releases(s, shared_guards(s));
            assert(exclusive =~= Seq::<Op>::empty());
            assert(trace_ok(RefState::Unshared, exclusive));
        },
        RefState::Exclusive => {
            assert(shared =~= Seq::<Op>::empty());
            assert(run(s, shared) == s);
            let rest = exclusive.subrange(1, exclusive.len() as int);
            assert(rest =~= Seq::<Op>::empty());
            assert(trace_ok(RefState::Unshared, rest));
            assert(run(RefState::Unshared, rest) == RefState::Unshared);
        },
    }
}

/// Refusal: while an exclusive guard is outstanding, both kinds of borrow
/// request are refused; while any shared guard is outstanding, an exclusive
/// request is refused.
pub proof fn lemma_refusal(s: RefState)
    ensures
        exclusive_guards(s) >= 1 ==> !borrow_allowed(s) && !borrow_mut_allowed(s),
        shared_guards(s) >= 1 ==> !borrow_mut_allowed(s),
{
}

} // verus!
