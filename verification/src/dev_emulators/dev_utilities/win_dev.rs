use vstd::prelude::*;
use crate::compiler::valid_cmd::ValidCMD;

verus! {

/// The first byte of a request to a screen device.
#[derive(Clone, Copy, Debug, PartialEq, Eq, Structural)]
pub enum WinDevStartAction {
    /// num pad left
    DecCoordX,
    /// num pad up
    DecCoordY,
    /// num pad right
    IncCoordX,
    /// num pad down
    IncCoordY,
    RedrawWin,
    GetWinValue,
    SetWinValue,
}

/// The byte of each screen request.
pub open spec fn spec_win_action_byte(a: WinDevStartAction) -> u8 {
    match a {
        WinDevStartAction::DecCoordX => 4,
        WinDevStartAction::DecCoordY => 8,
        WinDevStartAction::IncCoordX => 6,
        WinDevStartAction::IncCoordY => 2,
        WinDevStartAction::RedrawWin => 13,
        WinDevStartAction::GetWinValue => 14,
        WinDevStartAction::SetWinValue => 15,
    }
}

/// Whether a command is one of the screen commands.
pub open spec fn is_win_cmd(cmd: ValidCMD) -> bool {
    cmd == ValidCMD::DecCoordX || cmd == ValidCMD::DecCoordY || cmd == ValidCMD::IncCoordX
        || cmd == ValidCMD::IncCoordY || cmd == ValidCMD::RedrawWin || cmd == ValidCMD::SetWinValue
}

impl WinDevStartAction {
    /// The byte of this request.
    pub fn to_byte(&self) -> (b: u8)
        ensures
            b == spec_win_action_byte(*self),
    {
        match self {
            Self::DecCoordX => 4,
            Self::DecCoordY => 8,
            Self::IncCoordX => 6,
            Self::IncCoordY => 2,
            Self::RedrawWin => 13,
            Self::GetWinValue => 14,
            Self::SetWinValue => 15,
        }
    }

    /// The request that carries out a screen command.
    pub fn from_valid_cmd(cmd: &ValidCMD) -> (r: Self)
        requires
            is_win_cmd(*cmd),
        ensures
            *cmd == ValidCMD::DecCoordX ==> r == Self::DecCoordX,
            *cmd == ValidCMD::DecCoordY ==> r == Self::DecCoordY,
            *cmd == ValidCMD::IncCoordX ==> r == Self::IncCoordX,
            *cmd == ValidCMD::IncCoordY ==> r == Self::IncCoordY,
            *cmd == ValidCMD::RedrawWin ==> r == Self::RedrawWin,
            *cmd == ValidCMD::SetWinValue ==> r == Self::SetWinValue,
    {
        match cmd {
            ValidCMD::DecCoordX => Self::DecCoordX,
            ValidCMD::DecCoordY => Self::DecCoordY,
            ValidCMD::IncCoordX => Self::IncCoordX,
            ValidCMD::IncCoordY => Self::IncCoordY,
            ValidCMD::RedrawWin => Self::RedrawWin,
            _ => Self::SetWinValue,
        }
    }

    /// Whether the request takes one more byte: only setting a screen cell.
    pub fn need_additional_input(&self) -> (r: bool)
        ensures
            r == (*self == Self::SetWinValue),
    {
        match self {
            Self::SetWinValue => true,
            _ => false,
        }
    }
}

}
