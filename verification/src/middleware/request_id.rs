//! Request identifiers: every request carries one, its own or a fresh one,
//! and the response carries it back.

use crate::ids::{hyphenated, random_id, uuid_text};
use vstd::prelude::*;
use vstd::string::*;

verus! {

/// The header that carries the identifier of a request.
pub const REQUEST_ID_HEADER: &'static str = "X-Request-ID";

/// The layer that gives every request an identifier.
#[derive(Clone, Copy, Debug)]
pub struct RequestIdLayer {}

/// Whether `id` is what a request with this header value is known by: the
/// value itself where the request has one, and else the text of a UUID.
pub open spec fn identifies(header: Option<Seq<char>>, id: Seq<char>) -> bool {
    match header {
        Some(h) => id == h,
        None => exists|bits: u128| id == #[trigger] uuid_text(bits),
    }
}

impl RequestIdLayer {
    pub fn new() -> RequestIdLayer {
        RequestIdLayer {  }
    }

    /// The identifier of a request: the readable value of its header, or a
    /// fresh UUID where it has none.
    pub fn request_id(header: Option<String>) -> (r: String)
        ensures
            identifies(crate::models::option_text(header), r@),
    {
        match header {
            Some(h) => h,
            None => {
                let bits = random_id();
                let fresh = hyphenated(bits);
                assert(fresh@ == uuid_text(bits));
                fresh
            },
        }
    }
}

impl Default for RequestIdLayer {
    fn default() -> RequestIdLayer {
        RequestIdLayer::new()
    }
}

/// The maker of the tracing span of a request.
#[derive(Clone, Copy, Debug)]
pub struct RequestIdMakeSpan {}

impl RequestIdMakeSpan {
    /// The identifier under which a request is traced: the one it carries,
    /// or "unknown".
    pub fn span_request_id(found: Option<String>) -> (r: String)
        ensures
            r@ == (match found {
                Some(id) => id@,
                None => "unknown"@,
            }),
    {
        match found {
            Some(id) => id,
            None => String::from_str("unknown"),
        }
    }
}

} // verus!
