//! A client for the VideoCore general command (gencmd) service.
//!
//! The service speaks a textual protocol: one NUL-terminated command goes out, one
//! NUL-terminated line of `key=value` fields comes back. This crate holds the verified core of
//! a client for it:
//!
//! - [`global`]: the connection, of which at most one is live per [`global::Host`], and whose
//!   requests and responses strictly alternate;
//! - [`gencmd`]: one command round trip, and the classification of a response as a success or
//!   an error that the service reported;
//! - [`response`]: the parser of `key=value` fields, with typed values;
//! - [`commands`]: the commands that the crate knows, with the models of their responses;
//! - [`transport`]: the calls through which the crate reaches the service, and [`mock`], a
//!   transport that answers with fixed responses.
pub mod commands;
pub mod error;
pub mod gencmd;
pub mod global;
pub mod mock;
pub mod response;
pub mod transport;
pub mod unique;

pub use crate::commands::{
    CmdCommands, CmdGetThrottled, CmdMeasureClockArm, CmdMeasureTemp, CpuThrottled, ThrottleStatus,
};
pub use crate::error::{
    GencmdCmdError, GencmdDeinitError, GencmdErrorResponse, GencmdInitError, ResponseFormatError,
    VcosError, VCOS_STATUS_T,
};
pub use crate::gencmd::{classify_response, Command, Gencmd};
pub use crate::global::{retry_after, GlobalInstance, Host};
pub use crate::mock::MockTransport;
pub use crate::response::{
    parse_field, parse_field_simple, DecimalStr, IntFromStrRadix, IntRadix, ParseDecimalError,
    ParseFieldError, ParseFieldType, ParseIntError, ParseStrError,
};
pub use crate::transport::{Transport, GENCMDSERVICE_MSGFIFO_SIZE, GENCMD_MAX_LENGTH};
pub use crate::unique::GencmdUnique;
