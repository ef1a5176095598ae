//! The feed's failure taxonomy as a closed sum, so each class keeps its
//! own recovery policy: connection failures are retried with backoff,
//! protocol failures drop a single frame, sync failures re-arm one book,
//! fetch failures fail one symbol's initialization, transport failures
//! reconnect, and only an exhausted reconnect budget is fatal.

use vstd::prelude::*;

verus! {

/// One class of failure, with its recovery policy decided by the caller.
#[derive(Clone, Copy, Debug, PartialEq, Eq, Structural)]
pub enum FeedError {
    /// The connection could not be established.
    Connection,
    /// A frame or field was malformed.
    Protocol,
    /// A sequence-continuity check failed on a synced book.
    Sync,
    /// A snapshot request failed.
    Fetch,
    /// The stream closed or failed mid-read.
    Transport,
    /// The reconnect budget is exhausted; the session is over.
    Fatal,
}

/// The label each error class prints under.
pub open spec fn error_label(e: FeedError) -> Seq<char> {
    match e {
        FeedError::Connection => "connection error"@,
        FeedError::Protocol => "protocol error"@,
        FeedError::Sync => "synchronization error"@,
        FeedError::Fetch => "snapshot fetch error"@,
        FeedError::Transport => "transport error"@,
        FeedError::Fatal => "max reconnect attempts reached"@,
    }
}

impl FeedError {
    /// A short human-readable label for the error class.
    pub fn label(&self) -> (r: &'static str)
        ensures
            r@ == error_label(*self),
    {
        match self {
            FeedError::Connection => "connection error",
            FeedError::Protocol => "protocol error",
            FeedError::Sync => "synchronization error",
            FeedError::Fetch => "snapshot fetch error",
            FeedError::Transport => "transport error",
            FeedError::Fatal => "max reconnect attempts reached",
        }
    }
}

} // verus!
