//! Double buffering with one writer and many readers.
//!
//! Two buffers of one type sit side by side. A selector bit names the side the
//! writer may change; readers look at the other side. A swap flips the selector
//! and is complete once every reader that looked at the old side has left. How
//! readers are tracked is the business of a [`traits::Strategy`].
//!
//! The library describes this protocol as a state machine on owned values: every
//! operation of a writer or a reader is one step on the shared [`base::Inner`],
//! and what a step may assume and must establish is written in its contract.
//! A step never waits. Where a writer would have to wait for readers, the step
//! hands back the swap that is left to finish, and the caller tries again once
//! readers have had their turn.

pub mod athin;
pub mod base;
pub mod deferred;
pub mod imp_alloc;
pub mod op;
pub mod op_bag;
pub mod op_list;
pub mod raw;
pub mod smallvec;
pub mod strategy;
pub mod thin;
pub mod traits;

pub use imp_alloc::UpgradeError;
