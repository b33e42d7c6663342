//! Error types raised by the library.
//!
//! Validation failures are reported through [`Error::InputError`], which names
//! the offending parameter; shape violations found during buffer conversion
//! are reported through [`Error::DimensionError`].

use vstd::prelude::*;

verus! {

/// An error that occurred in the raw-image decoding pipeline that feeds this
/// library. The core never raises it; it exists so that callers can funnel
/// pipeline failures through the library's error type.
#[derive(Debug)]
pub struct RawPipelineError(pub String);

impl RawPipelineError {
    /// The human-readable description carried by this error.
    pub fn message(&self) -> (r: &String)
        ensures
            r@ == self.0@,
    {
        &self.0
    }
}

impl From<String> for RawPipelineError {
    fn from(value: String) -> (r: Self) {
        RawPipelineError(value)
    }
}

impl vstd::std_specs::convert::FromSpecImpl<String> for RawPipelineError {
    open spec fn obeys_from_spec() -> bool {
        true
    }

    open spec fn from_spec(value: String) -> Self {
        RawPipelineError(value)
    }
}

/// An error that cannot be categorised as any other error type.
#[derive(Debug)]
pub struct UnknownError(pub String);

impl UnknownError {
    /// The human-readable description carried by this error.
    pub fn message(&self) -> (r: &String)
        ensures
            r@ == self.0@,
    {
        &self.0
    }
}

impl From<String> for UnknownError {
    fn from(value: String) -> (r: Self) {
        UnknownError(value)
    }
}

impl vstd::std_specs::convert::FromSpecImpl<String> for UnknownError {
    open spec fn obeys_from_spec() -> bool {
        true
    }

    open spec fn from_spec(value: String) -> Self {
        UnknownError(value)
    }
}

/// Error that can be returned by the methods of this library.
#[derive(Debug)]
pub enum Error {
    /// A raw-image pipeline failure, passed through from the decoding layer.
    RawPipeline(RawPipelineError),
    /// Caller-supplied data violates a precondition. `parameter_name` names
    /// the offending parameter and `message` explains the violation.
    InputError { parameter_name: String, message: String },
    /// A buffer's shape violates an internal invariant (its channel count is
    /// neither 1 nor 3); this indicates a programming error in a collaborator.
    DimensionError { message: String },
    /// An error that cannot be categorised as any other error type.
    UnknownError(UnknownError),
}

/// Holds when `e` is a validation error naming the parameter `param`.
pub open spec fn is_input_error(e: Error, param: Seq<char>) -> bool {
    e matches Error::InputError { parameter_name, .. } && parameter_name@ == param
}

/// Holds when `e` is a validation error naming the parameter `param` and
/// carrying exactly the message `msg`.
pub open spec fn is_input_error_msg(e: Error, param: Seq<char>, msg: Seq<char>) -> bool {
    e matches Error::InputError { parameter_name, message }
        && parameter_name@ == param && message@ == msg
}

impl Error {
    /// Build a validation error for the parameter `parameter_name`.
    pub fn input_error(parameter_name: &str, message: &str) -> (e: Error)
        ensures
            is_input_error_msg(e, parameter_name@, message@),
    {
        Error::InputError {
            parameter_name: parameter_name.to_owned(),
            message: message.to_owned(),
        }
    }

    /// Build a shape-invariant error carrying `message`.
    pub fn dimension_error(message: &str) -> (e: Error)
        ensures
            e matches Error::DimensionError { message: m } && m@ == message@,
    {
        Error::DimensionError { message: message.to_owned() }
    }

    /// The parameter named by a validation error, or an empty string for the
    /// other variants.
    pub fn parameter(&self) -> (r: &str)
        ensures
            (self matches Error::InputError { parameter_name, .. }
                ==> r@ == parameter_name@),
            !(self is InputError) ==> r@ == ""@,
    {
        match self {
            Error::InputError { parameter_name, .. } => parameter_name.as_str(),
            _ => "",
        }
    }
}

} // verus!
