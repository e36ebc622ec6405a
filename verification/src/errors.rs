//! Error kinds surfaced by the weather client and the report renderer.
//! Neither component recovers or retries: every failure is returned to the
//! immediate caller as a typed result.

use vstd::prelude::*;

verus! {

/// Failure of a fetch: the network or a non-success status
/// (`Transport`), a response body that does not match the model
/// (`Decode`), or a missing API key (`Configuration`).
#[derive(Debug, Clone, Copy, PartialEq, Eq, Structural)]
pub enum FetchError {
    Transport,
    Decode,
    Configuration,
}

/// Failure of a render: a message key the catalog does not hold
/// (`UnknownKey`), a placeholder with no matching parameter
/// (`MissingParam`), or a line whose visible text would not fit the
/// box interior (`Overflow`).
#[derive(Debug, Clone, Copy, PartialEq, Eq, Structural)]
pub enum RenderError {
    UnknownKey,
    MissingParam,
    Overflow,
}

impl FetchError {
    /// A short description, for callers that print the error.
    pub fn describe(&self) -> (r: &'static str)
        ensures
            *self is Transport ==> r@ == "network or status failure"@,
            *self is Decode ==> r@ == "response body did not match the weather model"@,
            *self is Configuration ==> r@ == "missing API key"@,
    {
        match self {
            FetchError::Transport => "network or status failure",
            FetchError::Decode => "response body did not match the weather model",
            FetchError::Configuration => "missing API key",
        }
    }
}

impl RenderError {
    /// A short description, for callers that print the error.
    pub fn describe(&self) -> (r: &'static str)
        ensures
            *self is UnknownKey ==> r@ == "unknown message key"@,
            *self is MissingParam ==> r@ == "missing interpolation parameter"@,
            *self is Overflow ==> r@ == "line too wide for the report box"@,
    {
        match self {
            RenderError::UnknownKey => "unknown message key",
            RenderError::MissingParam => "missing interpolation parameter",
            RenderError::Overflow => "line too wide for the report box",
        }
    }
}

} // verus!
