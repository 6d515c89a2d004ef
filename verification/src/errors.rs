//! The error taxonomy of the synchronization engine.

use vstd::prelude::*;

verus! {

/// An error raised while synchronizing one source.
///
/// `Http` covers transfer failures: network errors and non-2xx responses that
/// are not rate-limit signals. `Database` covers persistence failures.
/// `RateLimited` carries the number of seconds to wait before retrying, so
/// callers can log actionable detail instead of an opaque transfer error.
#[derive(Debug)]
pub enum SyncError {
    Http(String),
    Database(String),
    RateLimited(u64),
    Other(String),
}

impl Clone for SyncError {
    fn clone(&self) -> (r: Self)
        ensures
            r == *self,
    {
        match self {
            SyncError::Http(m) => SyncError::Http(m.clone()),
            SyncError::Database(m) => SyncError::Database(m.clone()),
            SyncError::RateLimited(w) => SyncError::RateLimited(*w),
            SyncError::Other(m) => SyncError::Other(m.clone()),
        }
    }
}

impl SyncError {
    /// Whether this error is a rate-limit signal.
    pub fn is_rate_limited(&self) -> (r: bool)
        ensures
            r == (self is RateLimited),
    {
        match self {
            SyncError::RateLimited(_) => true,
            _ => false,
        }
    }
}

} // verus!
