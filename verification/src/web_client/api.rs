//! What all requests to the web client share.
use vstd::prelude::*;
use vstd::string::*;

verus! {

/// The answer to a request that is refused.
#[derive(Debug)]
pub struct ApiError {
    /// The HTTP status.
    pub status: u16,
    pub message: String,
}

/// A refusal, by what it says.
pub struct ErrorView {
    pub status: u16,
    pub message: Seq<char>,
}

impl View for ApiError {
    type V = ErrorView;

    open spec fn view(&self) -> ErrorView {
        ErrorView { status: self.status, message: self.message@ }
    }
}

pub const BAD_REQUEST: u16 = 400;

pub const NOT_FOUND: u16 = 404;

pub const CONFLICT: u16 = 409;

pub const PAYLOAD_TOO_LARGE: u16 = 413;

pub const INTERNAL_ERROR: u16 = 500;

pub const SERVICE_UNAVAILABLE: u16 = 503;

/// The refusal with a given status and message.
pub open spec fn refusal(status: u16, message: Seq<char>) -> ErrorView {
    ErrorView { status, message }
}

/// Refuses a request.
pub fn api_error(status: u16, message: &str) -> (r: ApiError)
    ensures
        r@ == refusal(status, message@),
{
    ApiError { status, message: message.to_owned() }
}

/// Whether a request is refused in a given way, or not at all.
pub open spec fn refused_as<T>(r: Result<T, ApiError>, e: ErrorView) -> bool {
    r matches Err(x) && x@ == e
}

/// How many rows are listed: as many as are asked for, but not more than `most`, and `usual` of
/// them where nothing is asked for.
pub open spec fn listed(asked: Option<u32>, usual: u32, most: u32) -> u32 {
    let n = match asked {
        Some(x) => x,
        None => usual,
    };
    if n <= most {
        n
    } else {
        most
    }
}

/// How many rows are listed.
pub fn page_size(asked: Option<u32>, usual: u32, most: u32) -> (r: u32)
    ensures
        r == listed(asked, usual, most),
{
    let n: u32 = match asked {
        Some(x) => x,
        None => usual,
    };
    if n <= most {
        n
    } else {
        most
    }
}

} // verus!
