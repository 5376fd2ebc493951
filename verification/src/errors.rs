//! The failure reasons an operation can report.

use vstd::prelude::*;

verus! {

/// Why an operation was rejected. Every failure aborts the whole operation
/// and leaves every record unchanged.
#[derive(Clone, Copy, Debug, PartialEq, Eq, Structural)]
pub enum ErrorCode {
    /// The vote came before the poll's `start_time`.
    PollNotStarted,
    /// The vote came after the poll's `end_time`.
    PollEnded,
    /// The caller is not the poll's authority.
    Unauthorized,
    /// The poll already holds the maximum number of candidates.
    CapacityExceeded,
    /// The candidate's stored poll back-reference names another poll.
    InvalidCandidateForPoll,
    /// The target address already holds a record.
    AllocationError,
}

} // verus!
