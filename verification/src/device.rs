//! The data model of the desk: its reported state, its connectivity status,
//! and the commands that can be sent to it.

use vstd::prelude::*;

verus! {

/// The kinds of motion command the desk accepts. Each is sent together with
/// one unsigned payload whose unit depends on the kind: a duration in
/// milliseconds, a relative travel in millimeters, an absolute target height
/// in millimeters, or the integer encoding of a target position.
#[derive(Clone, Copy, Debug, PartialEq, Eq, Structural)]
pub enum SvenCommand {
    UpDuration,
    DownDuration,
    UpRelative,
    DownRelative,
    AbsoluteHeight,
    Position,
}

/// A command together with its payload. The payload's unit is determined by
/// the command kind alone and is not validated at this layer.
#[derive(Clone, Copy, Debug, PartialEq, Eq, Structural)]
pub struct DeskCommand {
    pub command: SvenCommand,
    pub value: u32,
}

/// The coarse position the desk reports alongside its height.
#[derive(Clone, Copy, Debug, PartialEq, Eq, Structural)]
pub enum SvenPosition {
    Bottom,
    Top,
    Armrest,
    AboveArmrest,
    Standing,
    Custom,
}

/// The last state the desk reported: a height in millimeters and a coarse
/// position. A height of 0 is the sentinel for "never observed", not a real
/// reading.
#[derive(Clone, Copy, Debug, PartialEq, Eq, Structural)]
pub struct SvenState {
    pub height_mm: u32,
    pub position: SvenPosition,
}

impl SvenState {
    /// The baseline before any state message has arrived: height unknown,
    /// position unknown (reported as Custom).
    pub fn initial() -> (r: SvenState)
        ensures
            r == (SvenState { height_mm: 0, position: SvenPosition::Custom }),
    {
        SvenState { height_mm: 0, position: SvenPosition::Custom }
    }
}

/// The human-readable label of a command kind.
pub open spec fn spec_label(c: SvenCommand) -> Seq<char> {
    match c {
        SvenCommand::UpDuration => "Up Duration"@,
        SvenCommand::DownDuration => "Down Duration"@,
        SvenCommand::UpRelative => "Up Relative"@,
        SvenCommand::DownRelative => "Down Relative"@,
        SvenCommand::AbsoluteHeight => "Absolute Height"@,
        SvenCommand::Position => "Position"@,
    }
}

impl SvenCommand {
    /// The label used when a command is logged.
    pub fn label(&self) -> (r: &'static str)
        ensures
            r@ == spec_label(*self),
    {
        match self {
            SvenCommand::UpDuration => "Up Duration",
            SvenCommand::DownDuration => "Down Duration",
            SvenCommand::UpRelative => "Up Relative",
            SvenCommand::DownRelative => "Down Relative",
            SvenCommand::AbsoluteHeight => "Absolute Height",
            SvenCommand::Position => "Position",
        }
    }
}

/// The integer encoding under which a position rides in a `Position`
/// command's payload.
pub open spec fn spec_position_code(p: SvenPosition) -> u32 {
    match p {
        SvenPosition::Bottom => 0,
        SvenPosition::Top => 1,
        SvenPosition::Armrest => 2,
        SvenPosition::AboveArmrest => 3,
        SvenPosition::Standing => 4,
        SvenPosition::Custom => 5,
    }
}

impl SvenPosition {
    /// The integer encoding of this position, for a `Position` command.
    pub fn code(&self) -> (r: u32)
        ensures
            r == spec_position_code(*self),
    {
        match self {
            SvenPosition::Bottom => 0,
            SvenPosition::Top => 1,
            SvenPosition::Armrest => 2,
            SvenPosition::AboveArmrest => 3,
            SvenPosition::Standing => 4,
            SvenPosition::Custom => 5,
        }
    }

    /// The position a payload's integer encoding stands for, if any.
    pub fn from_code(code: u32) -> (r: Option<SvenPosition>)
        ensures
            r matches Some(p) ==> spec_position_code(p) == code,
            r is Some <==> code < 6,
    {
        match code {
            0 => Some(SvenPosition::Bottom),
            1 => Some(SvenPosition::Top),
            2 => Some(SvenPosition::Armrest),
            3 => Some(SvenPosition::AboveArmrest),
            4 => Some(SvenPosition::Standing),
            5 => Some(SvenPosition::Custom),
            _ => None,
        }
    }
}

} // verus!
