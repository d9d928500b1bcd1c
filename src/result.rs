use vstd::prelude::*;
use vstd::string::StringExecFns;

verus! {

/// Body of an error response.
#[derive(Debug)]
pub struct ErrorBody {
    pub message: String,
}

/// An error response: a status code and a message.
#[derive(Debug)]
pub struct HTTPError {
    pub code: u16,
    pub inner: ErrorBody,
}

impl HTTPError {
    pub fn new(code: u16, message: &str) -> (r: HTTPError)
        ensures
            r.code == code,
            r.inner.message@ == message@,
    {
        HTTPError { code, inner: ErrorBody { message: String::from_str(message) } }
    }

    pub fn message(&self) -> (r: &str)
        ensures
            r@ == self.inner.message@,
    {
        self.inner.message.as_str()
    }
}

} // verus!
