use vstd::prelude::*;

verus! {

/// The commands of the language, one character each.
#[derive(Clone, Copy, Debug, PartialEq, Eq, Structural)]
pub enum ValidCMD {
    /// `>`: move to the next cell
    NextCell,
    /// `<`: move to the previous cell
    PrevCell,
    /// `+`: add one to the current cell
    IncValue,
    /// `-`: subtract one from the current cell
    DecValue,
    /// `.`: print the current cell
    PrintValue,
    /// `,`: read into the current cell
    ReadValue,
    /// `[`: start of a loop that runs while the current cell is not zero
    StartWhileNZ,
    /// `]`: end of such a loop
    EndWhileNZ,
    /// `c`: create a cell after the current one
    CreateCell,
    /// `d`: delete the current cell
    DeleteCell,
    /// `z`: the current cell becomes 1 if it is not zero, else 0
    TestZeroCell,
    /// `0`: the current cell becomes 0
    ZeroedCell,
    /// `*`: shift the current cell left by one bit
    LeftShift,
    /// `/`: shift the current cell right by one bit
    RightShift,
    /// `&`: keep only the lowest bit of the current cell
    And,
    /// `^`: keep only the highest bit of the current cell
    Bnd,
    /// `$`: copy the current cell into the next one
    Clone,
    /// `4`: screen x minus one
    DecCoordX,
    /// `8`: screen y minus one
    DecCoordY,
    /// `6`: screen x plus one
    IncCoordX,
    /// `2`: screen y plus one
    IncCoordY,
    /// `5`: write the current cell into the current screen cell
    SetWinValue,
    /// `@`: redraw the screen
    RedrawWin,
    /// `s`: select the port given by the current cell
    SetCurPort,
    /// `r`: read from the port into the current cell
    ReadFromPort,
    /// `w`: write the current cell into the port
    WriteIntoPort,
    /// `t`: the current cell becomes 1 if the port can be read, else 0
    TestPort,
}

/// The character of a command.
pub open spec fn spec_cmd_char(cmd: ValidCMD) -> char {
    match cmd {
            ValidCMD::NextCell => '>',
            ValidCMD::PrevCell => '<',
            ValidCMD::IncValue => '+',
            ValidCMD::DecValue => '-',
            ValidCMD::PrintValue => '.',
            ValidCMD::ReadValue => ',',
            ValidCMD::StartWhileNZ => '[',
            ValidCMD::EndWhileNZ => ']',
            ValidCMD::CreateCell => 'c',
            ValidCMD::DeleteCell => 'd',
            ValidCMD::TestZeroCell => 'z',
            ValidCMD::ZeroedCell => '0',
            ValidCMD::LeftShift => '*',
            ValidCMD::RightShift => '/',
            ValidCMD::And => '&',
            ValidCMD::Bnd => '^',
            ValidCMD::Clone => '$',
            ValidCMD::DecCoordX => '4',
            ValidCMD::DecCoordY => '8',
            ValidCMD::IncCoordX => '6',
            ValidCMD::IncCoordY => '2',
            ValidCMD::SetWinValue => '5',
            ValidCMD::RedrawWin => '@',
            ValidCMD::SetCurPort => 's',
            ValidCMD::ReadFromPort => 'r',
            ValidCMD::WriteIntoPort => 'w',
            ValidCMD::TestPort => 't',
    }
}

/// The command of a character, if it has one.
pub open spec fn spec_parse_cmd(c: char) -> Option<ValidCMD> {
    match c {
        '>' => Some(ValidCMD::NextCell),
        '<' => Some(ValidCMD::PrevCell),
        '+' => Some(ValidCMD::IncValue),
        '-' => Some(ValidCMD::DecValue),
        '.' => Some(ValidCMD::PrintValue),
        ',' => Some(ValidCMD::ReadValue),
        '[' => Some(ValidCMD::StartWhileNZ),
        ']' => Some(ValidCMD::EndWhileNZ),
        'c' => Some(ValidCMD::CreateCell),
        'd' => Some(ValidCMD::DeleteCell),
        'z' => Some(ValidCMD::TestZeroCell),
        '0' => Some(ValidCMD::ZeroedCell),
        '*' => Some(ValidCMD::LeftShift),
        '/' => Some(ValidCMD::RightShift),
        '&' => Some(ValidCMD::And),
        '^' => Some(ValidCMD::Bnd),
        '$' => Some(ValidCMD::Clone),
        '4' => Some(ValidCMD::DecCoordX),
        '8' => Some(ValidCMD::DecCoordY),
        '6' => Some(ValidCMD::IncCoordX),
        '2' => Some(ValidCMD::IncCoordY),
        '5' => Some(ValidCMD::SetWinValue),
        '@' => Some(ValidCMD::RedrawWin),
        's' => Some(ValidCMD::SetCurPort),
        'r' => Some(ValidCMD::ReadFromPort),
        'w' => Some(ValidCMD::WriteIntoPort),
        't' => Some(ValidCMD::TestPort),
        _ => None,
    }
}

impl ValidCMD {
    pub fn std_to_char(self) -> (c: char)
        ensures
            c == spec_cmd_char(self),
    {
        Self::std_cmd_to_char(self)
    }

    pub fn std_cmd_to_char(cmd: Self) -> (c: char)
        ensures
            c == spec_cmd_char(cmd),
    {
        match cmd {
            Self::NextCell => '>',
            Self::PrevCell => '<',
            Self::IncValue => '+',
            Self::DecValue => '-',
            Self::PrintValue => '.',
            Self::ReadValue => ',',
            Self::StartWhileNZ => '[',
            Self::EndWhileNZ => ']',
            Self::CreateCell => 'c',
            Self::DeleteCell => 'd',
            Self::TestZeroCell => 'z',
            Self::ZeroedCell => '0',
            Self::LeftShift => '*',
            Self::RightShift => '/',
            Self::And => '&',
            Self::Bnd => '^',
            Self::Clone => '$',
            Self::DecCoordX => '4',
            Self::DecCoordY => '8',
            Self::IncCoordX => '6',
            Self::IncCoordY => '2',
            Self::SetWinValue => '5',
            Self::RedrawWin => '@',
            Self::SetCurPort => 's',
            Self::ReadFromPort => 'r',
            Self::WriteIntoPort => 'w',
            Self::TestPort => 't',
        }
    }

    pub fn std_parse_char(c: char) -> (r: Option<Self>)
        ensures
            r == spec_parse_cmd(c),
    {
        match c {
            '>' => Some(Self::NextCell),
            '<' => Some(Self::PrevCell),
            '+' => Some(Self::IncValue),
            '-' => Some(Self::DecValue),
            '.' => Some(Self::PrintValue),
            ',' => Some(Self::ReadValue),
            '[' => Some(Self::StartWhileNZ),
            ']' => Some(Self::EndWhileNZ),
            'c' => Some(Self::CreateCell),
            'd' => Some(Self::DeleteCell),
            'z' => Some(Self::TestZeroCell),
            '0' => Some(Self::ZeroedCell),
            '*' => Some(Self::LeftShift),
            '/' => Some(Self::RightShift),
            '&' => Some(Self::And),
            '^' => Some(Self::Bnd),
            '$' => Some(Self::Clone),
            '4' => Some(Self::DecCoordX),
            '8' => Some(Self::DecCoordY),
            '6' => Some(Self::IncCoordX),
            '2' => Some(Self::IncCoordY),
            '5' => Some(Self::SetWinValue),
            '@' => Some(Self::RedrawWin),
            's' => Some(Self::SetCurPort),
            'r' => Some(Self::ReadFromPort),
            'w' => Some(Self::WriteIntoPort),
            't' => Some(Self::TestPort),
            _ => None,
        }
    }

    pub fn is_start_while(&self) -> (r: bool)
        ensures
            r == (*self == ValidCMD::StartWhileNZ),
    {
        if let Self::StartWhileNZ = self { true } else { false }
    }

    pub fn is_end_while(&self) -> (r: bool)
        ensures
            r == (*self == ValidCMD::EndWhileNZ),
    {
        if let Self::EndWhileNZ = self { true } else { false }
    }
}

/// Parsing the character of a command gives the command back.
pub proof fn lemma_parse_of_char(cmd: ValidCMD)
    ensures
        spec_parse_cmd(spec_cmd_char(cmd)) == Some(cmd),
{
}

/// A character that parses to a command is that command's character.
pub proof fn lemma_char_of_parse(c: char)
    ensures
        spec_parse_cmd(c) matches Some(cmd) ==> spec_cmd_char(cmd) == c,
{
}

}
