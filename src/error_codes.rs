//! Status codes of responses, and the kinds of failure a request can meet.

use vstd::prelude::*;
use crate::text::{decimal, decimal_string, integer_value, is_integer_text, parse_i32};

verus! {

/// The error text of the string-based interface.
pub type RobotError = String;

/// The success text of the string-based interface.
pub type RobotOK = String;

/// The status codes that have a name.
#[derive(Debug, PartialEq, Eq, Structural, Copy, Clone)]
pub enum ResponseCodes {
    Success,
    Warning,
    RobotPowerNotEnabled,
}

/// The status code that `c` stands for.
pub open spec fn code_number(c: ResponseCodes) -> int {
    match c {
        ResponseCodes::Success => 0,
        ResponseCodes::Warning => 1,
        ResponseCodes::RobotPowerNotEnabled => -1046,
    }
}

/// The description that goes with `c`.
pub open spec fn code_description(c: ResponseCodes) -> Seq<char> {
    match c {
        ResponseCodes::Success => "Operation completed successfully without an error."@,
        ResponseCodes::Warning => "Operation completed with a warning."@,
        ResponseCodes::RobotPowerNotEnabled => "An error occurred during the operation."@,
    }
}

/// The text that describes `c`: `PFError <code>: <description>`.
pub open spec fn code_message(c: ResponseCodes) -> Seq<char> {
    "PFError "@ + decimal(code_number(c)) + ": "@ + code_description(c)
}

/// The error text for a status field that is not an integer.
pub open spec fn unreadable_code_message(code: Seq<char>) -> Seq<char> {
    "PFError: not a status code: "@ + code
}

impl ResponseCodes {
    /// Classifies a status field in the string-based interface: the named
    /// success and warning codes give their description as `Ok`, the
    /// power-not-enabled code gives its description as `Err`, any other
    /// integer, of any size, gives back the field itself as `Err`.
    pub fn check_code(code: String) -> (r: Result<RobotOK, RobotError>)
        ensures
            match integer_value(code@) {
                Some(v) => if v == 0 {
                    r is Ok && r->Ok_0@ == code_message(ResponseCodes::Success)
                } else if v == 1 {
                    r is Ok && r->Ok_0@ == code_message(ResponseCodes::Warning)
                } else if v == -1046 {
                    r is Err && r->Err_0@ == code_message(ResponseCodes::RobotPowerNotEnabled)
                } else {
                    r == Err::<RobotOK, RobotError>(code)
                },
                None => r is Err && r->Err_0@ == unreadable_code_message(code@),
            },
    {
        match parse_i32(code.as_str()) {
            Some(0) => Ok(ResponseCodes::Success.to_string()),
            Some(1) => Ok(ResponseCodes::Warning.to_string()),
            Some(-1046) => Err(ResponseCodes::RobotPowerNotEnabled.to_string()),
            _ => {
                if is_integer_text(code.as_str()) {
                    Err(code)
                } else {
                    proof {
                        reveal_strlit("PFError: not a status code: ");
                    }
                    Err(String::from_str("PFError: not a status code: ").concat(code.as_str()))
                }
            },
        }
    }

    /// The status code as a 32-bit integer.
    pub fn value(&self) -> (r: i32)
        ensures
            r == code_number(*self),
    {
        match self {
            ResponseCodes::Success => 0,
            ResponseCodes::Warning => 1,
            ResponseCodes::RobotPowerNotEnabled => -1046,
        }
    }

    /// The text that describes this code: `PFError <code>: <description>`.
    pub fn to_string(&self) -> (r: String)
        ensures
            r@ == code_message(*self),
    {
        let description = match self {
            ResponseCodes::Success => "Operation completed successfully without an error.",
            ResponseCodes::Warning => "Operation completed with a warning.",
            ResponseCodes::RobotPowerNotEnabled => "An error occurred during the operation.",
        };
        let code = decimal_string(self.value());
        String::from_str("PFError ").concat(code.as_str()).concat(": ").concat(description)
    }
}

/// The kinds of failure that a request can meet, short of an error status
/// from the controller.
#[derive(Debug, PartialEq, Eq, Structural, Copy, Clone)]
pub enum TcsError {
    /// The connection could not be established.
    Connection,
    /// Writing or reading failed on an established connection; the connection is given up.
    Io,
    /// No complete response arrived within the read timeout.
    Timeout,
    /// The response did not form a status line.
    Protocol,
    /// The request needs a connection and there is none.
    NotConnected,
}

/// The text that describes `e`.
pub open spec fn error_text(e: TcsError) -> Seq<char> {
    match e {
        TcsError::Connection => "Could not connect to a TCS"@,
        TcsError::Io => "Connection to the TCS failed"@,
        TcsError::Timeout => "Timed out waiting for a response"@,
        TcsError::Protocol => "Malformed response from the TCS"@,
        TcsError::NotConnected => "Not connected to a TCS"@,
    }
}

impl TcsError {
    /// The text that describes this error.
    pub fn to_string(&self) -> (r: String)
        ensures
            r@ == error_text(*self),
    {
        let text = match self {
            TcsError::Connection => "Could not connect to a TCS",
            TcsError::Io => "Connection to the TCS failed",
            TcsError::Timeout => "Timed out waiting for a response",
            TcsError::Protocol => "Malformed response from the TCS",
            TcsError::NotConnected => "Not connected to a TCS",
        };
        String::from_str(text)
    }
}

} // verus!
