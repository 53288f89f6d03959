//! Status codes.

use http::StatusCode;
use vstd::prelude::*;

verus! {

/// The numbers that are status codes.
pub open spec fn is_status_code(code: u16) -> bool {
    100 <= code <= 999
}

/// `http::StatusCode::from_u16`, and `StatusCode::as_u16` on what it
/// accepts. The crate accepts the numbers from 100 to 999 and no others.
#[verifier::external_body]
pub(crate) fn parse_status(code: u16) -> (status: Option<u16>)
    ensures
        status == if is_status_code(code) {
            Some(code)
        } else {
            None
        },
{
    match StatusCode::from_u16(code) {
        Ok(status) => Some(status.as_u16()),
        Err(_) => None,
    }
}

/// A status code that has been accepted.
#[derive(Debug, Clone, Copy, PartialEq, Eq)]
pub struct Status {
    code: u16,
}

impl Status {
    #[verifier::type_invariant]
    pub(crate) open spec fn well_formed(self) -> bool {
        is_status_code(self@)
    }

    /// The number of the status code.
    pub closed spec fn view(&self) -> u16 {
        self.code
    }

    /// Holds a number to the range of status codes.
    pub fn from_u16(code: u16) -> (status: Option<Status>)
        ensures
            match status {
                Some(s) => is_status_code(code) && s@ == code,
                None => !is_status_code(code),
            },
    {
        match parse_status(code) {
            Some(code) => Some(Status { code }),
            None => None,
        }
    }

    /// The number of the status code: one from 100 to 999.
    pub fn as_u16(&self) -> (code: u16)
        ensures
            code == self@,
            is_status_code(code),
    {
        proof {
            use_type_invariant(self);
        }
        self.code
    }
}

} // verus!
