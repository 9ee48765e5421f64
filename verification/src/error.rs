//! Error codes and the error object of the wire protocol.

use vstd::prelude::*;
use vstd::string::*;

use crate::text::{cat4, dec_i64, decimal_int};

verus! {

/// JSON-RPC standard codes plus tetherd-specific extensions.
#[derive(Debug, Clone, Copy, PartialEq, Eq, Structural)]
pub enum ErrorCode {
    ParseError,
    InvalidRequest,
    MethodNotFound,
    InvalidParams,
    InternalError,
    Timeout,
    SessionNotAttached,
    ModeViolation,
    LockContention,
    DeviceDisconnected,
    BufferOverflow,
    UnsupportedSerialOp,
    InvalidSerialSetting,
    DeviceNotFound,
    UnsupportedProtocol,
    NotInitialized,
    SessionNotFound,
    ModeConflict,
    Unauthorized,
    AmbiguousDevice,
    Cancelled,
}

impl ErrorCode {
    /// The number sent on the wire.
    pub open spec fn number(self) -> int {
        match self {
            ErrorCode::ParseError => -32700,
            ErrorCode::InvalidRequest => -32600,
            ErrorCode::MethodNotFound => -32601,
            ErrorCode::InvalidParams => -32602,
            ErrorCode::InternalError => -32603,
            ErrorCode::Timeout => -32001,
            ErrorCode::SessionNotAttached => -32002,
            ErrorCode::ModeViolation => -32003,
            ErrorCode::LockContention => -32004,
            ErrorCode::DeviceDisconnected => -32005,
            ErrorCode::BufferOverflow => -32006,
            ErrorCode::UnsupportedSerialOp => -32007,
            ErrorCode::InvalidSerialSetting => -32008,
            ErrorCode::DeviceNotFound => -32009,
            ErrorCode::UnsupportedProtocol => -32010,
            ErrorCode::NotInitialized => -32011,
            ErrorCode::SessionNotFound => -32012,
            ErrorCode::ModeConflict => -32013,
            ErrorCode::Unauthorized => -32014,
            ErrorCode::AmbiguousDevice => -32015,
            ErrorCode::Cancelled => -32800,
        }
    }

    /// The message sent when nothing more precise is known.
    pub open spec fn text(self) -> Seq<char> {
        match self {
            ErrorCode::ParseError => "parse error"@,
            ErrorCode::InvalidRequest => "invalid request"@,
            ErrorCode::MethodNotFound => "method not found"@,
            ErrorCode::InvalidParams => "invalid params"@,
            ErrorCode::InternalError => "internal error"@,
            ErrorCode::Timeout => "timeout"@,
            ErrorCode::SessionNotAttached => "session not attached"@,
            ErrorCode::ModeViolation => "mode violation"@,
            ErrorCode::LockContention => "lock contention"@,
            ErrorCode::DeviceDisconnected => "device disconnected"@,
            ErrorCode::BufferOverflow => "buffer overflow"@,
            ErrorCode::UnsupportedSerialOp => "unsupported serial operation"@,
            ErrorCode::InvalidSerialSetting => "invalid serial setting"@,
            ErrorCode::DeviceNotFound => "device not found"@,
            ErrorCode::UnsupportedProtocol => "unsupported protocol"@,
            ErrorCode::NotInitialized => "not initialized"@,
            ErrorCode::SessionNotFound => "session not found"@,
            ErrorCode::ModeConflict => "mode conflict"@,
            ErrorCode::Unauthorized => "unauthorized"@,
            ErrorCode::AmbiguousDevice => "ambiguous device"@,
            ErrorCode::Cancelled => "cancelled"@,
        }
    }

    pub fn as_i32(self) -> (n: i32)
        ensures
            n == self.number(),
    {
        match self {
            ErrorCode::ParseError => -32700,
            ErrorCode::InvalidRequest => -32600,
            ErrorCode::MethodNotFound => -32601,
            ErrorCode::InvalidParams => -32602,
            ErrorCode::InternalError => -32603,
            ErrorCode::Timeout => -32001,
            ErrorCode::SessionNotAttached => -32002,
            ErrorCode::ModeViolation => -32003,
            ErrorCode::LockContention => -32004,
            ErrorCode::DeviceDisconnected => -32005,
            ErrorCode::BufferOverflow => -32006,
            ErrorCode::UnsupportedSerialOp => -32007,
            ErrorCode::InvalidSerialSetting => -32008,
            ErrorCode::DeviceNotFound => -32009,
            ErrorCode::UnsupportedProtocol => -32010,
            ErrorCode::NotInitialized => -32011,
            ErrorCode::SessionNotFound => -32012,
            ErrorCode::ModeConflict => -32013,
            ErrorCode::Unauthorized => -32014,
            ErrorCode::AmbiguousDevice => -32015,
            ErrorCode::Cancelled => -32800,
        }
    }

    pub fn message(self) -> (s: &'static str)
        ensures
            s@ == self.text(),
    {
        match self {
            ErrorCode::ParseError => "parse error",
            ErrorCode::InvalidRequest => "invalid request",
            ErrorCode::MethodNotFound => "method not found",
            ErrorCode::InvalidParams => "invalid params",
            ErrorCode::InternalError => "internal error",
            ErrorCode::Timeout => "timeout",
            ErrorCode::SessionNotAttached => "session not attached",
            ErrorCode::ModeViolation => "mode violation",
            ErrorCode::LockContention => "lock contention",
            ErrorCode::DeviceDisconnected => "device disconnected",
            ErrorCode::BufferOverflow => "buffer overflow",
            ErrorCode::UnsupportedSerialOp => "unsupported serial operation",
            ErrorCode::InvalidSerialSetting => "invalid serial setting",
            ErrorCode::DeviceNotFound => "device not found",
            ErrorCode::UnsupportedProtocol => "unsupported protocol",
            ErrorCode::NotInitialized => "not initialized",
            ErrorCode::SessionNotFound => "session not found",
            ErrorCode::ModeConflict => "mode conflict",
            ErrorCode::Unauthorized => "unauthorized",
            ErrorCode::AmbiguousDevice => "ambiguous device",
            ErrorCode::Cancelled => "cancelled",
        }
    }
}

/// A number on the wire names at most one error.
pub proof fn law_error_numbers_distinct(a: ErrorCode, b: ErrorCode)
    ensures
        a.number() == b.number() ==> a == b,
{
}

/// What a timed-out `expect` had received: the bytes (base64) and the range of
/// sequence numbers that they were read from.
#[derive(Debug, Clone)]
pub struct TimeoutData {
    pub buffered: String,
    pub buffered_seq_range: [u64; 2],
}

/// The `error` object of a response.
#[derive(Debug, Clone)]
pub struct ProtocolError {
    pub code: i32,
    pub message: String,
    pub data: Option<TimeoutData>,
}

impl ProtocolError {
    /// This is `code` with its standard message and no data.
    pub open spec fn is_plain(&self, code: ErrorCode) -> bool {
        self.code == code.number() && self.message@ == code.text() && self.data is None
    }

    /// This is `code` with the given message and no data.
    pub open spec fn says(&self, code: ErrorCode, message: Seq<char>) -> bool {
        self.code == code.number() && self.message@ == message && self.data is None
    }

    pub fn new(code: ErrorCode) -> (e: Self)
        ensures
            e.is_plain(code),
    {
        ProtocolError { code: code.as_i32(), message: code.message().to_owned(), data: None }
    }

    pub fn with_data(self, data: TimeoutData) -> (e: Self)
        ensures
            e == (ProtocolError { data: Some(data), ..self }),
    {
        ProtocolError { code: self.code, message: self.message, data: Some(data) }
    }

    pub fn with_message(self, msg: &str) -> (e: Self)
        ensures
            e.code == self.code,
            e.message@ == msg@,
            e.data == self.data,
    {
        ProtocolError { code: self.code, message: msg.to_owned(), data: self.data }
    }

    /// `<message> (<code>)`.
    pub fn to_text(&self) -> (s: String)
        ensures
            s@ == self.message@ + " ("@ + decimal_int(self.code as int) + ")"@,
    {
        let n = dec_i64(self.code as i64);
        cat4(self.message.as_str(), " (", n.as_str(), ")")
    }
}

/// The error `code` with a message of its own.
pub fn err_with(code: ErrorCode, msg: &str) -> (e: ProtocolError)
    ensures
        e.says(code, msg@),
{
    ProtocolError::new(code).with_message(msg)
}

/// Without a better message an error says its name in words; a better message
/// and data take their places and leave the number alone.
pub proof fn law_error_messages(
    code: ErrorCode,
    s: &'static str,
    e: ProtocolError,
    msg: &str,
    told: ProtocolError,
)
    requires
        call_ensures(ErrorCode::message, (code,), s),
        call_ensures(ProtocolError::new, (code,), e),
        call_ensures(err_with, (code, msg), told),
    ensures
        e.message@ == s@ && told.message@ == msg@,
        e.code == told.code && e.data is None && told.data is None,
        code == ErrorCode::Timeout ==> s@ == "timeout"@,
        code == ErrorCode::SessionNotAttached ==> s@ == "session not attached"@,
        code == ErrorCode::ModeViolation ==> s@ == "mode violation"@,
        code == ErrorCode::LockContention ==> s@ == "lock contention"@,
        code == ErrorCode::DeviceDisconnected ==> s@ == "device disconnected"@,
        code == ErrorCode::BufferOverflow ==> s@ == "buffer overflow"@,
        code == ErrorCode::InvalidSerialSetting ==> s@ == "invalid serial setting"@,
        code == ErrorCode::DeviceNotFound ==> s@ == "device not found"@,
        code == ErrorCode::UnsupportedProtocol ==> s@ == "unsupported protocol"@,
        code == ErrorCode::NotInitialized ==> s@ == "not initialized"@,
        code == ErrorCode::SessionNotFound ==> s@ == "session not found"@,
        code == ErrorCode::ModeConflict ==> s@ == "mode conflict"@,
        code == ErrorCode::Unauthorized ==> s@ == "unauthorized"@,
        code == ErrorCode::AmbiguousDevice ==> s@ == "ambiguous device"@,
        code == ErrorCode::Cancelled ==> s@ == "cancelled"@,
        code == ErrorCode::InvalidParams ==> s@ == "invalid params"@,
        code == ErrorCode::MethodNotFound ==> s@ == "method not found"@,
        code == ErrorCode::InternalError ==> s@ == "internal error"@,
        code == ErrorCode::InvalidRequest ==> s@ == "invalid request"@,
        code == ErrorCode::ParseError ==> s@ == "parse error"@,
{
}

} // verus!
