//! The error object that every failed request answers with.

use std::collections::HashMap;
use vstd::prelude::*;
use vstd::string::*;

verus! {

/// A failure as the caller sees it: a stable code, a message, and for
/// failures of several fields the messages of each.
#[derive(Debug)]
pub struct ErrorResponse {
    pub error: String,
    pub message: String,
    pub field_errors: Option<HashMap<String, Vec<String>>>,
}

impl ErrorResponse {
    /// A failure with a code and a message, without field errors.
    pub fn new(error: &str, message: &str) -> (r: ErrorResponse)
        ensures
            r.error@ == error@,
            r.message@ == message@,
            r.field_errors is None,
    {
        ErrorResponse {
            error: String::from_str(error),
            message: String::from_str(message),
            field_errors: None,
        }
    }

    /// A failure with a code, a message and the messages of each field.
    pub fn with_field_errors(
        error: &str,
        message: &str,
        field_errors: HashMap<String, Vec<String>>,
    ) -> (r: ErrorResponse)
        ensures
            r.error@ == error@,
            r.message@ == message@,
            r.field_errors == Some(field_errors),
    {
        ErrorResponse {
            error: String::from_str(error),
            message: String::from_str(message),
            field_errors: Some(field_errors),
        }
    }

    /// Whether this failure has the given code and message and no field
    /// errors.
    pub open spec fn reads(&self, error: Seq<char>, message: Seq<char>) -> bool {
        &&& self.error@ == error
        &&& self.message@ == message
        &&& self.field_errors is None
    }
}

} // verus!
