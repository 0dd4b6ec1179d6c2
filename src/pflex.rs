//! Pieces of the robot-level interface that are decided without the network:
//! the rail, and what the fields of some replies mean.

use vstd::prelude::*;
use crate::error_codes::TcsError;
use crate::text::{i32_value, parse_i32};

verus! {

/// Represents the rail on the robot: whether it exists.
#[derive(Debug)]
pub struct Rail {
    exists: bool,
}

impl View for Rail {
    type V = bool;

    closed spec fn view(&self) -> bool {
        self.exists
    }
}

impl Rail {
    /// A rail that exists or not.
    pub fn new(exists: bool) -> (r: Rail)
        ensures
            r@ == exists,
    {
        Rail { exists }
    }

    /// Whether the rail exists.
    pub fn is_present(&self) -> (r: bool)
        ensures
            r == self@,
    {
        self.exists
    }
}

/// Whether the robot is attached, from the fields of the reply to `attach`
/// without arguments: the first field is `0` when it is not. A reply without
/// fields is a protocol error.
pub fn attached_from_reply(payload: &Vec<String>) -> (r: Result<bool, TcsError>)
    ensures
        payload@.len() == 0 ==> r == Err::<bool, TcsError>(TcsError::Protocol),
        payload@.len() > 0 ==> r == Ok::<bool, TcsError>(payload@[0]@ != seq!['0']),
{
    if payload.len() == 0 {
        return Err(TcsError::Protocol);
    }
    let first = payload[0].as_str();
    let n = first.unicode_len();
    if n == 1 && first.get_char(0) == '0' {
        assert(first@ =~= seq!['0']);
        Ok(false)
    } else {
        Ok(true)
    }
}

/// The system speed, from the fields of the reply to `mspeed` without
/// arguments: the first field, read as an integer. A reply without fields, or
/// whose first field is not an `i32`, is a protocol error.
pub fn speed_from_reply(payload: &Vec<String>) -> (r: Result<i32, TcsError>)
    ensures
        payload@.len() == 0 ==> r == Err::<i32, TcsError>(TcsError::Protocol),
        payload@.len() > 0 ==> match i32_value(payload@[0]@) {
            Some(v) => r == Ok::<i32, TcsError>(v),
            None => r == Err::<i32, TcsError>(TcsError::Protocol),
        },
{
    if payload.len() == 0 {
        return Err(TcsError::Protocol);
    }
    match parse_i32(payload[0].as_str()) {
        Some(v) => Ok(v),
        None => Err(TcsError::Protocol),
    }
}

} // verus!
