//! Parameter identifiers used when reading or writing controller parameters.

use vstd::prelude::*;
use crate::text::{decimal, decimal_string};

verus! {

/// Parameter IDs that are required when getting or setting parameters on the robot.
#[derive(Debug, Clone, PartialEq, Eq, Structural, Copy)]
pub enum ParamIDs {
    HomingStatus,
    LastError,
}

/// The number that identifies `p` on the controller.
pub open spec fn param_number(p: ParamIDs) -> int {
    match p {
        ParamIDs::HomingStatus => 2800,
        ParamIDs::LastError => 320,
    }
}

impl ParamIDs {
    /// The value of the parameter ID as a 32-bit integer.
    pub fn value(&self) -> (r: i32)
        ensures
            r == param_number(*self),
    {
        match self {
            ParamIDs::HomingStatus => 2800,
            ParamIDs::LastError => 320,
        }
    }

    /// The value of the parameter ID as decimal text.
    pub fn to_string(&self) -> (r: String)
        ensures
            r@ == decimal(param_number(*self)),
    {
        decimal_string(self.value())
    }
}

} // verus!
