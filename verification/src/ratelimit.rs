//! The shared rate-limit and transfer-failure policy: classifying a response
//! status and its rate-limit headers into the error taxonomy.

use vstd::prelude::*;
use vstd::string::StringExecFns;

use crate::errors::SyncError;
use crate::text::{parse_u64, spec_dec_digits, spec_parse_u64, u64_to_string};

verus! {

/// The view of an optional borrowed string.
pub open spec fn opt_str_view(h: Option<&str>) -> Option<Seq<char>> {
    match h {
        Some(s) => Some(s@),
        None => None,
    }
}

/// The remaining wait, in seconds, until an absolute reset time: floored at 0.
pub open spec fn spec_retry_wait(reset: int, now: int) -> int {
    if reset > now {
        reset - now
    } else {
        0
    }
}

/// The message text carried by a generic transfer error for a status code.
pub open spec fn http_status_message(status: nat) -> Seq<char> {
    "HTTP status "@ + spec_dec_digits(status)
}

fn build_status_message(status: u16) -> (m: String)
    ensures
        m@ == http_status_message(status as nat),
{
    let mut m = String::from_str("HTTP status ");
    m.append(u64_to_string(status as u64).as_str());
    m
}

/// The rate-limit signal of a GitHub-style response: the absolute reset epoch
/// second, present exactly when the status is 403 and the reset header parses.
pub open spec fn github_rate_limit_signal(status: int, reset_header: Option<Seq<char>>) -> Option<
    u64,
> {
    if status == 403 {
        match reset_header {
            Some(h) => spec_parse_u64(h),
            None => None,
        }
    } else {
        None
    }
}

/// Classifies a GitHub-style response: a 403 carrying a parsable absolute
/// rate-limit-reset header surfaces as `RateLimited` with the remaining wait
/// computed against the given current epoch second; any other non-2xx status
/// in the 400-599 range surfaces as a generic transfer error; anything else
/// is accepted.
pub fn classify_github_response(status: u16, reset_header: Option<&str>, now_epoch: u64) -> (r:
    Result<(), SyncError>)
    ensures
        ({
            let signal = github_rate_limit_signal(status as int, opt_str_view(reset_header));
            match signal {
                Some(reset) => r matches Err(SyncError::RateLimited(w)) && w as int
                    == spec_retry_wait(reset as int, now_epoch as int),
                None => if 400 <= status <= 599 {
                    r matches Err(SyncError::Http(m)) && m@ == http_status_message(status as nat)
                } else {
                    r is Ok
                },
            }
        }),
{
    if status == 403 {
        if let Some(h) = reset_header {
            if let Some(reset) = parse_u64(h) {
                let wait: u64 = if reset > now_epoch {
                    reset - now_epoch
                } else {
                    0
                };
                return Err(SyncError::RateLimited(wait));
            }
        }
    }
    if 400 <= status && status <= 599 {
        return Err(SyncError::Http(build_status_message(status)));
    }
    Ok(())
}

/// The wait carried by a GitLab-style rate-limit response: the relative
/// retry-after header when it parses, and 60 seconds otherwise.
pub open spec fn gitlab_retry_after(retry_header: Option<Seq<char>>) -> u64 {
    match retry_header {
        Some(h) => match spec_parse_u64(h) {
            Some(v) => v,
            None => 60u64,
        },
        None => 60u64,
    }
}

/// Classifies a GitLab-style response: a 429 surfaces as `RateLimited` with
/// the relative retry-after header (60 seconds when absent or unparsable);
/// any other status in the 400-599 range surfaces as a generic transfer
/// error; anything else is accepted.
pub fn classify_gitlab_response(status: u16, retry_header: Option<&str>) -> (r: Result<
    (),
    SyncError,
>)
    ensures
        ({
            if status == 429 {
                r matches Err(SyncError::RateLimited(w)) && w == gitlab_retry_after(
                    opt_str_view(retry_header),
                )
            } else if 400 <= status <= 599 {
                r matches Err(SyncError::Http(m)) && m@ == http_status_message(status as nat)
            } else {
                r is Ok
            }
        }),
{
    if status == 429 {
        let wait: u64 = match retry_header {
            Some(h) => match parse_u64(h) {
                Some(v) => v,
                None => 60,
            },
            None => 60,
        };
        return Err(SyncError::RateLimited(wait));
    }
    if 400 <= status && status <= 599 {
        return Err(SyncError::Http(build_status_message(status)));
    }
    Ok(())
}

} // verus!
