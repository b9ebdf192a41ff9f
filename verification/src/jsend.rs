use vstd::prelude::*;

verus! {

/// The JSend status of a REST response.
#[derive(Debug, Clone, Copy, PartialEq, Eq, Structural)]
pub enum Status {
    Success,
    Fail,
    Error,
}

/// The HTTP status code a JSend status maps to.
pub open spec fn status_code_spec(s: Status) -> u16 {
    match s {
        Status::Success => 200,
        Status::Fail => 400,
        Status::Error => 500,
    }
}

impl Status {
    /// success maps to 200, fail to 400, error to 500.
    pub fn http_code(&self) -> (r: u16)
        ensures
            r == status_code_spec(*self),
    {
        match self {
            Status::Success => 200,
            Status::Fail => 400,
            Status::Error => 500,
        }
    }

    pub fn is_success(&self) -> (r: bool)
        ensures
            r == (*self == Status::Success),
    {
        *self == Status::Success
    }

    pub fn is_fail(&self) -> (r: bool)
        ensures
            r == (*self == Status::Fail),
    {
        *self == Status::Fail
    }

    pub fn is_error(&self) -> (r: bool)
        ensures
            r == (*self == Status::Error),
    {
        *self == Status::Error
    }
}

} // verus!
