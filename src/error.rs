use vstd::prelude::*;

verus! {

/// Errors reported by the library.
#[derive(Clone, Debug, PartialEq, Eq, Hash, PartialOrd, Ord)]
pub enum AppError {
    InternalError(String),
    AuthFailed,
    ConnectionError(String),
    ApiError(String),
    CodeParseError(),
    NoInput,
    /// A frame was complete but its payload was not valid UTF-8.
    MalformedPayload,
}

} // verus!
