//! Query parameters of the server-sent event stream.
use crate::api::error::{HttpError, SignalError, SignalErrorKind};
use crate::text::{byte_len, byte_len_exceeds, copy_str, parse_unsigned, parse_unsigned_str};
use vstd::prelude::*;

verus! {

/// Maximum byte length of the `device_id` query parameter.
pub const MAX_EVENT_DEVICE_ID_BYTES: usize = 128;

/// Maximum byte length of the `event_type` query parameter.
pub const MAX_EVENT_TYPE_BYTES: usize = 256;

/// Maximum byte length of the `cursor` query parameter: a `u64` needs at
/// most 20 digits, so anything far longer is malformed.
pub const MAX_EVENT_CURSOR_BYTES: usize = 32;

/// Query parameters for the event stream.
#[derive(Clone, Debug, Default)]
pub struct EventQuery {
    /// Resume after this cursor.
    pub cursor: Option<String>,
    /// Filter by device identifier.
    pub device_id: Option<String>,
    /// Filter by event type name.
    pub event_type: Option<String>,
}

/// The error is an invalid-argument business error with the message.
pub open spec fn is_invalid_argument(e: HttpError, message: Seq<char>) -> bool {
    e matches HttpError::Signal(s) && s.kind == SignalErrorKind::InvalidArgument && s.message@
        == message && s.field_violations@.len() == 0
}

fn invalid_argument(message: &str) -> (e: HttpError)
    ensures
        is_invalid_argument(e, message@),
{
    HttpError::Signal(SignalError::new(SignalErrorKind::InvalidArgument, copy_str(message)))
}

/// Why the query is refused, if it is.
pub open spec fn query_error(q: EventQuery) -> Option<Seq<char>> {
    if q.device_id matches Some(d) && byte_len(d@) > MAX_EVENT_DEVICE_ID_BYTES {
        Some("device_id query parameter exceeds maximum length"@)
    } else if q.event_type matches Some(t) && byte_len(t@) > MAX_EVENT_TYPE_BYTES {
        Some("event_type query parameter exceeds maximum length"@)
    } else {
        None
    }
}

impl EventQuery {
    /// Validates query parameter lengths.
    pub fn validate(&self) -> (r: Result<(), HttpError>)
        ensures
            r is Ok <==> query_error(*self) is None,
            r matches Err(e) ==> query_error(*self) matches Some(m) && is_invalid_argument(e, m),
    {
        if let Some(device_id) = &self.device_id {
            if byte_len_exceeds(device_id.as_str(), MAX_EVENT_DEVICE_ID_BYTES) {
                return Err(invalid_argument("device_id query parameter exceeds maximum length"));
            }
        }
        if let Some(event_type) = &self.event_type {
            if byte_len_exceeds(event_type.as_str(), MAX_EVENT_TYPE_BYTES) {
                return Err(invalid_argument("event_type query parameter exceeds maximum length"));
            }
        }
        Ok(())
    }
}

/// The cursor the stream starts after: the latest one when none (or an
/// empty one) is given, else the given decimal cursor.
pub open spec fn start_cursor(cursor: Option<Seq<char>>, latest: u64) -> Result<u64, Seq<char>> {
    match cursor {
        Some(s) if s.len() > 0 => if byte_len(s) > MAX_EVENT_CURSOR_BYTES {
            Err("cursor too long"@)
        } else {
            match parse_unsigned(s, u64::MAX as nat) {
                Some(n) => Ok(n as u64),
                None => Err("cursor must be a non-negative integer"@),
            }
        },
        _ => Ok(latest),
    }
}

/// Resolves the cursor the stream starts after.
pub fn resolve_start_cursor(cursor: Option<String>, latest: u64) -> (r: Result<u64, HttpError>)
    ensures
        match start_cursor(
            match cursor {
                Some(s) => Some(s@),
                None => None,
            },
            latest,
        ) {
            Ok(n) => r == Ok::<u64, HttpError>(n),
            Err(m) => r matches Err(e) && is_invalid_argument(e, m),
        },
{
    match cursor {
        Some(s) => {
            if s.as_str().is_empty() {
                return Ok(latest);
            }
            if byte_len_exceeds(s.as_str(), MAX_EVENT_CURSOR_BYTES) {
                return Err(invalid_argument("cursor too long"));
            }
            match parse_unsigned_str(s.as_str(), u64::MAX) {
                Some(n) => Ok(n),
                None => Err(invalid_argument("cursor must be a non-negative integer")),
            }
        },
        None => Ok(latest),
    }
}

/// Where a stream that has delivered up to `last` resumes when the cache
/// announces `cursor`: a cursor below `last` means the cursor space wrapped,
/// so delivery restarts from the beginning of the cache.
pub fn resume_after(cursor: u64, last: u64) -> (r: u64)
    ensures
        r == if cursor != 0 && cursor < last {
            0
        } else {
            last
        },
{
    if cursor == 0 || cursor == last {
        last
    } else if cursor < last {
        0
    } else {
        last
    }
}

} // verus!
