use vstd::prelude::*;
use crate::compiler::valid_cmd::ValidCMD;

verus! {

/// The first byte of a request to a cell-memory device.
#[derive(Clone, Copy, Debug, PartialEq, Eq, Structural)]
pub enum CellMemDevStartAction {
    GetCellValue,
    SetCellValue,
    PrevCell,
    NextCell,
    CreateCell,
    DeleteCell,
}

/// The byte of each cell-memory request.
pub open spec fn spec_cell_action_byte(a: CellMemDevStartAction) -> u8 {
    match a {
        CellMemDevStartAction::GetCellValue => 0x01,
        CellMemDevStartAction::SetCellValue => 0x02,
        CellMemDevStartAction::PrevCell => 0x03,
        CellMemDevStartAction::NextCell => 0x04,
        CellMemDevStartAction::CreateCell => 0x05,
        CellMemDevStartAction::DeleteCell => 0x06,
    }
}

/// Whether a command is one of the cell-memory commands.
pub open spec fn is_cell_mem_cmd(cmd: ValidCMD) -> bool {
    cmd == ValidCMD::NextCell || cmd == ValidCMD::PrevCell
        || cmd == ValidCMD::CreateCell || cmd == ValidCMD::DeleteCell
}

impl CellMemDevStartAction {
    /// The byte of this request.
    pub fn to_byte(&self) -> (b: u8)
        ensures
            b == spec_cell_action_byte(*self),
    {
        match self {
            Self::GetCellValue => 0x01,
            Self::SetCellValue => 0x02,
            Self::PrevCell => 0x03,
            Self::NextCell => 0x04,
            Self::CreateCell => 0x05,
            Self::DeleteCell => 0x06,
        }
    }

    /// The request that carries out a cell-memory command.
    pub fn from_valid_cmd(cmd: &ValidCMD) -> (r: Self)
        requires
            is_cell_mem_cmd(*cmd),
        ensures
            *cmd == ValidCMD::NextCell ==> r == Self::NextCell,
            *cmd == ValidCMD::PrevCell ==> r == Self::PrevCell,
            *cmd == ValidCMD::CreateCell ==> r == Self::CreateCell,
            *cmd == ValidCMD::DeleteCell ==> r == Self::DeleteCell,
    {
        match cmd {
            ValidCMD::NextCell => Self::NextCell,
            ValidCMD::PrevCell => Self::PrevCell,
            ValidCMD::CreateCell => Self::CreateCell,
            _ => Self::DeleteCell,
        }
    }
}

/// The first byte of a request to a command-memory device.
#[derive(Clone, Copy, Debug, PartialEq, Eq, Structural)]
pub enum CmdMemDevStartAction {
    JumpBackward,
    JumpForward,
}

/// The byte of each command-memory request.
pub open spec fn spec_cmd_action_byte(a: CmdMemDevStartAction) -> u8 {
    match a {
        CmdMemDevStartAction::JumpBackward => 0x01,
        CmdMemDevStartAction::JumpForward => 0x02,
    }
}

impl CmdMemDevStartAction {
    /// The request whose byte is `byte`, if any.
    pub open spec fn try_from_byte_spec(byte: u8) -> Option<Self> {
        if byte == 0x02 {
            Some(CmdMemDevStartAction::JumpForward)
        } else if byte == 0x01 {
            Some(CmdMemDevStartAction::JumpBackward)
        } else {
            None
        }
    }

    /// The byte of this request.
    pub fn to_byte(&self) -> (b: u8)
        ensures
            b == spec_cmd_action_byte(*self),
    {
        match self {
            Self::JumpBackward => 0x01,
            Self::JumpForward => 0x02,
        }
    }

    /// The request whose byte is `byte`, if any.
    pub fn try_from_byte(byte: u8) -> (r: Option<Self>)
        ensures
            r == Self::try_from_byte_spec(byte),
            r matches Some(a) ==> spec_cmd_action_byte(a) == byte,
            r is None <==> (byte != 0x01 && byte != 0x02),
    {
        if byte == 0x02 {
            Some(CmdMemDevStartAction::JumpForward)
        } else if byte == 0x01 {
            Some(CmdMemDevStartAction::JumpBackward)
        } else {
            None
        }
    }
}

}
