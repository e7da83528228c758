//! The status with which a call to the remote cache ends.

use vstd::prelude::*;

verus! {

/// The codes with which a call can end.
#[derive(Clone, Copy, Debug, PartialEq, Eq, Hash, Structural)]
pub enum StatusCode {
    Success,
    Cancelled,
    Unknown,
    InvalidArgument,
    DeadlineExceeded,
    NotFound,
    AlreadyExists,
    PermissionDenied,
    ResourceExhausted,
    FailedPrecondition,
    Aborted,
    OutOfRange,
    Unimplemented,
    Internal,
    Unavailable,
    DataLoss,
    Unauthenticated,
}

/// The code that the transport writes as the number `n`. A number that it does not know
/// stands for `Unknown`.
pub open spec fn code_of(n: int) -> StatusCode {
    if n == 0 {
        StatusCode::Success
    } else if n == 1 {
        StatusCode::Cancelled
    } else if n == 3 {
        StatusCode::InvalidArgument
    } else if n == 4 {
        StatusCode::DeadlineExceeded
    } else if n == 5 {
        StatusCode::NotFound
    } else if n == 6 {
        StatusCode::AlreadyExists
    } else if n == 7 {
        StatusCode::PermissionDenied
    } else if n == 8 {
        StatusCode::ResourceExhausted
    } else if n == 9 {
        StatusCode::FailedPrecondition
    } else if n == 10 {
        StatusCode::Aborted
    } else if n == 11 {
        StatusCode::OutOfRange
    } else if n == 12 {
        StatusCode::Unimplemented
    } else if n == 13 {
        StatusCode::Internal
    } else if n == 14 {
        StatusCode::Unavailable
    } else if n == 15 {
        StatusCode::DataLoss
    } else if n == 16 {
        StatusCode::Unauthenticated
    } else {
        StatusCode::Unknown
    }
}

impl StatusCode {
    /// The code that the transport writes as the number `n`.
    pub fn from_number(n: i32) -> (code: StatusCode)
        ensures
            code == code_of(n as int),
    {
        match n {
            0 => StatusCode::Success,
            1 => StatusCode::Cancelled,
            3 => StatusCode::InvalidArgument,
            4 => StatusCode::DeadlineExceeded,
            5 => StatusCode::NotFound,
            6 => StatusCode::AlreadyExists,
            7 => StatusCode::PermissionDenied,
            8 => StatusCode::ResourceExhausted,
            9 => StatusCode::FailedPrecondition,
            10 => StatusCode::Aborted,
            11 => StatusCode::OutOfRange,
            12 => StatusCode::Unimplemented,
            13 => StatusCode::Internal,
            14 => StatusCode::Unavailable,
            15 => StatusCode::DataLoss,
            16 => StatusCode::Unauthenticated,
            _ => StatusCode::Unknown,
        }
    }
}

/// How a call ended, where it did not return what was asked for: its code and what the
/// server said.
#[derive(Clone, Debug, PartialEq, Eq)]
pub struct RpcStatus {
    pub code: StatusCode,
    pub message: String,
}

impl RpcStatus {
    /// Whether the status says that the cache holds no entry.
    pub fn is_not_found(&self) -> (r: bool)
        ensures
            r == (self.code == StatusCode::NotFound),
    {
        match self.code {
            StatusCode::NotFound => true,
            _ => false,
        }
    }
}

#[verifier::external_type_specification]
#[verifier::external_body]
pub struct ExStatus(tonic::Status);

/// Calls `tonic::Status::code` and casts the code to the number that `tonic::Code`
/// declares for it. Nothing is claimed of the number.
#[verifier::external_body]
fn code_number(status: &tonic::Status) -> i32 {
    status.code() as i32
}

/// Calls `tonic::Status::message` and copies the text it returns. Nothing is claimed of
/// the text.
#[verifier::external_body]
fn message_text(status: &tonic::Status) -> String {
    status.message().to_owned()
}

/// The status of the transport as a plain value: its code and its message.
pub(crate) fn rpc_status(status: &tonic::Status) -> RpcStatus {
    let n: i32 = code_number(status);
    RpcStatus { code: StatusCode::from_number(n), message: message_text(status) }
}

} // verus!
