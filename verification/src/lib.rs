//! A session-scoped line relay: text lines flow from producers to every
//! subscriber of a named session over two broadcast topics (raw "pipe"
//! lines and structured chat messages), fed by an incremental file tailer.

pub mod bytes;
pub mod chat;
pub mod registry;
pub mod session;
pub mod tail;
pub mod topic;

use vstd::prelude::*;

verus! {

/// Bound on pending items buffered per subscriber on each topic; a
/// subscriber further behind than this loses the oldest unread items.
pub const TOPIC_CAPACITY: usize = 100;

} // verus!
