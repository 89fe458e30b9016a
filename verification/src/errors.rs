use vstd::prelude::*;
use vstd::string::*;

verus! {

/// Why a request was not served.
#[derive(Debug, Clone, Copy, PartialEq, Eq, Structural)]
pub enum ApiError {
    /// No row has the id that was asked for.
    NotFound,
    /// The input is malformed.
    Validation,
    /// The entity store refused a write: a row refers to one that is missing.
    Storage,
    /// An image was fetched but could not be decoded or stored.
    ImageProcessing,
    /// The system clock could not be read as seconds since the Unix epoch.
    Clock,
    /// A figure that was asked for is not defined: an average over no rows,
    /// or a sum beyond the range of its type.
    Undefined,
}

/// What a request is answered with: a value, or the reason why there is
/// none.
pub type ApiResult<T> = Result<T, ApiError>;

/// The HTTP status under which `error` is reported: a missing row and a
/// malformed input are the client's, everything else is internal.
pub open spec fn status_of(error: ApiError) -> u16 {
    match error {
        ApiError::NotFound => 404,
        ApiError::Validation => 400,
        ApiError::Storage => 500,
        ApiError::ImageProcessing => 500,
        ApiError::Clock => 500,
        ApiError::Undefined => 500,
    }
}

impl ApiError {
    /// The HTTP status under which this error is reported.
    pub fn status_code(&self) -> (code: u16)
        ensures
            code == status_of(*self),
    {
        match self {
            ApiError::NotFound => 404,
            ApiError::Validation => 400,
            ApiError::Storage => 500,
            ApiError::ImageProcessing => 500,
            ApiError::Clock => 500,
            ApiError::Undefined => 500,
        }
    }

    /// Whether the error is reported as an internal one.
    pub fn is_internal(&self) -> (internal: bool)
        ensures
            internal == (status_of(*self) == 500),
    {
        self.status_code() == 500
    }
}

} // verus!
