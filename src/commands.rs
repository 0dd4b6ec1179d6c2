//! The command verbs of the protocol.

use vstd::prelude::*;

verus! {

/// Commands enumerator for the robot API.
#[derive(Debug, PartialEq, Eq, Structural, Clone, Copy)]
pub enum TCSCommand {
    Mode,
    Exit,
    Power,
    Select,
    Attach,
    Home,
    Halt,
    Loc,
    LocXyz,
    Profile,
    Move,
    MoveToCart,
    MoveToJoints,
    MotionState,
    MoveOneAxis,
    MoveRail,
    GetParam,
    GetLocJoints,
    GetLocCart,
    FreeMode,
    NoOp,
    SystemSpeed,
    Payload,
    WaitForEOM,
}

/// The verb that stands for `c` on the wire.
pub open spec fn command_word(c: TCSCommand) -> Seq<char> {
    match c {
        TCSCommand::Mode => "mode"@,
        TCSCommand::Exit => "exit"@,
        TCSCommand::Power => "hp"@,
        TCSCommand::Select => "selectRobot"@,
        TCSCommand::Attach => "attach"@,
        TCSCommand::Home => "home"@,
        TCSCommand::Halt => "halt"@,
        TCSCommand::Loc => "loc"@,
        TCSCommand::LocXyz => "locXYZ"@,
        TCSCommand::Profile => "profile"@,
        TCSCommand::Move => "move"@,
        TCSCommand::MoveToCart => "movec"@,
        TCSCommand::MoveToJoints => "movej"@,
        TCSCommand::MotionState => "state"@,
        TCSCommand::MoveOneAxis => "moveoneaxis"@,
        TCSCommand::MoveRail => "moveRail"@,
        TCSCommand::GetParam => "pd"@,
        TCSCommand::GetLocJoints => "wherej"@,
        TCSCommand::GetLocCart => "wherec"@,
        TCSCommand::FreeMode => "freemode"@,
        TCSCommand::NoOp => "nop"@,
        TCSCommand::SystemSpeed => "mspeed"@,
        TCSCommand::Payload => "payload"@,
        TCSCommand::WaitForEOM => "waitForEOM"@,
    }
}

impl TCSCommand {
    /// The verb that stands for this command on the wire.
    pub fn as_str(&self) -> (r: &'static str)
        ensures
            r@ == command_word(*self),
    {
        match self {
            TCSCommand::Mode => "mode",
            TCSCommand::Exit => "exit",
            TCSCommand::Power => "hp",
            TCSCommand::Select => "selectRobot",
            TCSCommand::Attach => "attach",
            TCSCommand::Home => "home",
            TCSCommand::Halt => "halt",
            TCSCommand::Loc => "loc",
            TCSCommand::LocXyz => "locXYZ",
            TCSCommand::Profile => "profile",
            TCSCommand::Move => "move",
            TCSCommand::MoveToCart => "movec",
            TCSCommand::MoveToJoints => "movej",
            TCSCommand::MotionState => "state",
            TCSCommand::MoveOneAxis => "moveoneaxis",
            TCSCommand::MoveRail => "moveRail",
            TCSCommand::GetParam => "pd",
            TCSCommand::GetLocJoints => "wherej",
            TCSCommand::GetLocCart => "wherec",
            TCSCommand::FreeMode => "freemode",
            TCSCommand::NoOp => "nop",
            TCSCommand::SystemSpeed => "mspeed",
            TCSCommand::Payload => "payload",
            TCSCommand::WaitForEOM => "waitForEOM",
        }
    }

    /// The verb that stands for this command on the wire, as an owned string.
    pub fn to_string(&self) -> (r: String)
        ensures
            r@ == command_word(*self),
    {
        String::from_str(self.as_str())
    }
}

} // verus!
