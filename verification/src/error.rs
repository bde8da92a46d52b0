//! The categories of failure that the platform reports to its clients.

use vstd::prelude::*;

verus! {

/// How a failure is reported: the HTTP-level category of an error.
#[derive(Clone, Copy, Debug, PartialEq, Eq, Structural)]
pub enum ErrorKind {
    BadRequest,
    NotFound,
    Authorization,
    Forbidden,
    Conflict,
    Internal,
    ServiceUnavailable,
    Validation,
    ExternalService,
}

} // verus!
