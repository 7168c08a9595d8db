//! The error taxonomy and its mapping onto RPC fault classes.
//!
//! Every failure the service can surface is an `AppError`; the handler maps
//! each variant to a `Fault`, the wire-neutral form of an RPC fault: a fault
//! class plus the original message, preserved verbatim (the configuration
//! variant alone gains a fixed prefix). The hosting program translates a
//! `Fault` one-for-one into its transport's status type.

use vstd::prelude::*;

verus! {

/// The error taxonomy of the service.
#[derive(Clone, Debug)]
pub enum AppError {
    /// A provider-level precondition failed.
    Provider(String),
    /// A required credential or setting is missing or malformed.
    Config(String),
    /// The upstream weather call failed: transport error, undecodable body,
    /// or a missing required field.
    WeatherApi(String),
    /// The request itself is invalid, e.g. an unknown provider name.
    Invalidreqwest(String),
    /// A requested resource does not exist.
    NotFound(String),
}

pub type AppResult<T> = Result<T, AppError>;

/// The RPC fault classes the taxonomy maps onto.
#[derive(Clone, Copy, Debug, PartialEq, Eq, Structural)]
pub enum FaultKind {
    FailedPrecondition,
    Internal,
    Unavailable,
    InvalidArgument,
    NotFound,
}

/// A wire-neutral RPC fault: a class and a human-readable description.
#[derive(Clone, Debug)]
pub struct Fault {
    pub kind: FaultKind,
    pub message: String,
}

/// The fault class each error variant maps to.
pub open spec fn fault_kind_of(e: AppError) -> FaultKind {
    match e {
        AppError::Provider(_) => FaultKind::FailedPrecondition,
        AppError::Config(_) => FaultKind::Internal,
        AppError::WeatherApi(_) => FaultKind::Unavailable,
        AppError::Invalidreqwest(_) => FaultKind::InvalidArgument,
        AppError::NotFound(_) => FaultKind::NotFound,
    }
}

/// The fault description: the original message verbatim, except that a
/// configuration error is prefixed to make its startup origin plain.
pub open spec fn fault_message_of(e: AppError) -> Seq<char> {
    match e {
        AppError::Provider(m) => m@,
        AppError::Config(m) => "Configuration error: "@ + m@,
        AppError::WeatherApi(m) => m@,
        AppError::Invalidreqwest(m) => m@,
        AppError::NotFound(m) => m@,
    }
}

/// Maps an error to the fault the caller sees, preserving the message.
pub fn to_fault(e: AppError) -> (f: Fault)
    ensures
        f.kind == fault_kind_of(e),
        f.message@ == fault_message_of(e),
{
    match e {
        AppError::Provider(m) => Fault { kind: FaultKind::FailedPrecondition, message: m },
        AppError::Config(m) => Fault {
            kind: FaultKind::Internal,
            message: String::from_str("Configuration error: ").concat(m.as_str()),
        },
        AppError::WeatherApi(m) => Fault { kind: FaultKind::Unavailable, message: m },
        AppError::Invalidreqwest(m) => Fault { kind: FaultKind::InvalidArgument, message: m },
        AppError::NotFound(m) => Fault { kind: FaultKind::NotFound, message: m },
    }
}

} // verus!
