//! Errors of the connection, of its teardown and of commands.
use vstd::prelude::*;

use crate::response::{ParseDecimalError, ParseFieldError, ParseIntError, ParseStrError};

verus! {

#[verifier::external_type_specification]
#[verifier::external_body]
pub struct ExUtf8Error(std::str::Utf8Error);

/// A failure status of the vcos layer.
#[derive(Debug, Clone, Copy, PartialEq, Eq, Structural)]
pub enum VcosError {
    /// Resource temporarily unavailable.
    Again,
    /// No such file or directory.
    NoEntry,
    /// No space left on device.
    NoSpace,
    /// Invalid argument.
    Invalid,
    /// Permission denied.
    Access,
    /// Cannot allocate memory.
    NoMemory,
    /// Function not implemented.
    NoSys,
    /// File exists.
    Exist,
    /// No such device or address.
    NxIo,
    /// Interrupted system call.
    Interrupt,
}

/// A status code of the vcos layer: `0` for success, `1` to `10` for the failures of
/// [`VcosError`] in the order in which they are declared.
#[allow(non_camel_case_types)]
#[derive(Debug, Clone, Copy, PartialEq, Eq, Structural)]
pub struct VCOS_STATUS_T(pub u32);

/// The failure that vcos status `code` stands for; none for success.
pub open spec fn vcos_error_of(code: u32) -> Option<VcosError> {
    if code == 1 {
        Some(VcosError::Again)
    } else if code == 2 {
        Some(VcosError::NoEntry)
    } else if code == 3 {
        Some(VcosError::NoSpace)
    } else if code == 4 {
        Some(VcosError::Invalid)
    } else if code == 5 {
        Some(VcosError::Access)
    } else if code == 6 {
        Some(VcosError::NoMemory)
    } else if code == 7 {
        Some(VcosError::NoSys)
    } else if code == 8 {
        Some(VcosError::Exist)
    } else if code == 9 {
        Some(VcosError::NxIo)
    } else if code == 10 {
        Some(VcosError::Interrupt)
    } else {
        None
    }
}

impl VCOS_STATUS_T {
    /// Success, or the failure that the status stands for.
    pub fn to_result(self) -> (r: Result<(), VcosError>)
        requires
            self.0 <= 10,
        ensures
            match vcos_error_of(self.0) {
                None => r is Ok,
                Some(e) => r == Err::<(), VcosError>(e),
            },
    {
        let error = match self.0 {
            0 => return Ok(()),
            1 => VcosError::Again,
            2 => VcosError::NoEntry,
            3 => VcosError::NoSpace,
            4 => VcosError::Invalid,
            5 => VcosError::Access,
            6 => VcosError::NoMemory,
            7 => VcosError::NoSys,
            8 => VcosError::Exist,
            9 => VcosError::NxIo,
            _ => VcosError::Interrupt,
        };
        Err(error)
    }
}

/// Why a connection could not be opened.
#[derive(Debug, Clone, Copy, PartialEq, Eq, Structural)]
pub enum GencmdInitError {
    /// The vcos layer failed to initialize.
    VcosInit(VcosError),
    /// The vchi layer failed to initialize or gave no instance handle.
    VchiInit,
    /// The vchi connection could not be made.
    VchiConnect,
    /// Another connection is live in this process.
    AlreadyInitialized,
}

/// Why a connection could not be closed.
#[derive(Debug, Clone, Copy, PartialEq, Eq, Structural)]
pub enum GencmdDeinitError {
    /// The vchi connection could not be broken.
    VchiDisconnect,
}

/// An error that the service reported in answer to a command.
#[derive(Debug, Clone, Copy, PartialEq, Eq, Structural)]
pub enum GencmdErrorResponse {
    /// The command is not known to the service (code 1).
    CommandNotRegistered,
    /// The command's arguments are not valid (code 2).
    InvalidArguments,
}

impl GencmdErrorResponse {
    /// The numeric code under which the service reports this error.
    pub fn code(&self) -> (r: i32)
        ensures
            r == match self {
                GencmdErrorResponse::CommandNotRegistered => 1i32,
                GencmdErrorResponse::InvalidArguments => 2i32,
            },
    {
        match self {
            GencmdErrorResponse::CommandNotRegistered => 1,
            GencmdErrorResponse::InvalidArguments => 2,
        }
    }
}

/// Why a response does not have the format that its command expects.
#[derive(Debug, Clone, Copy, PartialEq, Eq)]
pub enum ResponseFormatError {
    /// An integer field could not be read.
    Int(ParseFieldError<ParseIntError>),
    /// A quoted string field could not be read.
    Str(ParseFieldError<ParseStrError>),
    /// A decimal field could not be read.
    Decimal(ParseFieldError<ParseDecimalError>),
    /// An error response carries a code that is not known.
    InvalidCode(i32),
}

/// Why a command failed.
#[derive(Debug)]
pub enum GencmdCmdError {
    /// The command does not fit in one request frame.
    CommandTooLong,
    /// The command could not be sent.
    Send,
    /// The response could not be read.
    Read,
    /// The response is not valid UTF-8.
    Utf8(std::str::Utf8Error),
    /// The service answered with an error.
    ErrorResponse(GencmdErrorResponse),
    /// The response does not have the expected format.
    InvalidResponseFormat(ResponseFormatError),
}

impl GencmdCmdError {
    /// The error for a response whose format is not the expected one.
    pub fn from_invalid_format(error: ResponseFormatError) -> (r: Self)
        ensures
            r == GencmdCmdError::InvalidResponseFormat(error),
    {
        GencmdCmdError::InvalidResponseFormat(error)
    }
}

} // verus!
