//! Status codes of HTTP.
use vstd::prelude::*;

verus! {

/// A status code of HTTP: three digits, the first not zero.
#[derive(Clone, Copy, Debug, PartialEq, Eq, Structural)]
pub struct HttpStatus {
    code: u16,
}

/// The text that `reqwest::StatusCode` shows for a code.
pub uninterp spec fn status_text(code: int) -> Seq<char>;

/// Calls `reqwest::StatusCode::from_u16` and, on the result, `to_string`.
///
/// Codes from 100 to 999 are the ones that `from_u16` takes. The contract names the text; it
/// says of it only that it is made from the code alone.
#[verifier::external_body]
fn shown_status(code: u16) -> (text: String)
    requires
        100 <= code <= 999,
    ensures
        text@ == status_text(code as int),
{
    reqwest::StatusCode::from_u16(code).unwrap().to_string()
}

impl HttpStatus {
    #[verifier::type_invariant]
    spec fn well_formed(self) -> bool {
        100 <= self.code <= 999
    }

    /// The number of the status.
    pub closed spec fn number(self) -> int {
        self.code as int
    }

    /// The status with the given number, if there is one.
    pub fn from_code(code: u16) -> (status: Option<HttpStatus>)
        ensures
            match status {
                Some(s) => s.number() == code && 100 <= code <= 999,
                None => code < 100 || code > 999,
            },
    {
        if 100 <= code && code <= 999 {
            Some(HttpStatus { code })
        } else {
            None
        }
    }

    /// The number of the status.
    pub fn code(self) -> (code: u16)
        ensures
            code == self.number(),
    {
        self.code
    }

    /// Whether the request succeeded.
    pub fn is_success(self) -> (success: bool)
        ensures
            success == (200 <= self.number() <= 299),
    {
        200 <= self.code && self.code <= 299
    }

    /// The number and what it means.
    pub fn text(self) -> (text: String)
        ensures
            text@ == status_text(self.number()),
    {
        proof {
            use_type_invariant(&self);
        }
        shown_status(self.code)
    }
}

impl DeepView for HttpStatus {
    type V = HttpStatus;

    open spec fn deep_view(&self) -> HttpStatus {
        *self
    }
}

} // verus!
