//! A single-threaded, runtime-checked borrowing primitive.
//!
//! The crate provides two pieces, in dependency order:
//!
//! - [`cell::Cell`]: a single-value cell for copyable payloads, whose reads
//!   hand out independent copies and never a live reference into storage.
//! - [`refcell::RefCell`]: a container enforcing, at run time, the aliasing
//!   discipline a compile-time borrow checker enforces: any number of
//!   concurrent read-only views XOR exactly one read-write view. A request
//!   that would violate the rule is refused by returning `None` rather than
//!   failing to compile.
//!
//! [`protocol`] states and proves the laws of the borrow state machine:
//! well-formedness of every reachable state, mutual exclusion of guards,
//! shared-guard counting, and recovery once every guard is released.

pub mod cell;
pub mod protocol;
pub mod refcell;
