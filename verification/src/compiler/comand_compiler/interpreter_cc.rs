use vstd::prelude::*;
use crate::compiler::valid_cmd::{ValidCMD, spec_parse_cmd};
use crate::compiler::compiler_pos::CompilerPos;
use crate::compiler::compiler_error::CompilerErrorType;
use super::cmd_compiler::CmdCompiler;
use super::port_name_handler::PortNameHandler;
use super::program_concat::{ProgramConcat, default_program_concat};

verus! {

/// Compiles to the commands themselves, for an interpreter: checks that
/// each character is a command and that loops close.
pub struct InterpreterCmdCompiler {
    program: Vec<ValidCMD>,
    open_while: Vec<CompilerPos>,
    /// the command characters taken so far
    fed: Ghost<Seq<char>>,
}

impl InterpreterCmdCompiler {
    pub closed spec fn spec_program(&self) -> Seq<ValidCMD> { self.program@ }
    pub closed spec fn spec_open_while(&self) -> Seq<CompilerPos> { self.open_while@ }

    pub fn new() -> (r: Self)
        ensures
            r.spec_program() == Seq::<ValidCMD>::empty(),
            r.spec_open_while() == Seq::<CompilerPos>::empty(),
    {
        Self { program: Vec::new(), open_while: Vec::new(), fed: Ghost(Seq::empty()) }
    }
}

impl CmdCompiler<ValidCMD> for InterpreterCmdCompiler {
    /// A command character, other than a loop end with no loop open.
    open spec fn spec_takes(&self, cmd: char, pos: CompilerPos) -> bool {
        match spec_parse_cmd(cmd) {
            None => false,
            Some(c) => !(c == ValidCMD::EndWhileNZ && self.spec_open_while().len() == 0),
        }
    }

    closed spec fn spec_fed(&self) -> Seq<char> { self.fed@ }

    /// A command is added; a loop start notes its place, a loop end closes
    /// the last open one (with none open, an error). A character that is no
    /// command is an error.
    fn cmd_compile(&mut self, cmd: char, pos: CompilerPos) -> (r: Option<CompilerErrorType>)
        ensures
            match spec_parse_cmd(cmd) {
                None => r == Some(CompilerErrorType::UnknownCmd(cmd)) && *final(self) == *old(self),
                Some(c) => {
                    if c == ValidCMD::EndWhileNZ && old(self).spec_open_while().len() == 0 {
                        r == Some(CompilerErrorType::ClosedWhileWithoutOpen)
                    } else {
                        &&& r is None
                        &&& final(self).spec_program() == old(self).spec_program().push(c)
                        &&& final(self).spec_open_while() == if c == ValidCMD::StartWhileNZ {
                                old(self).spec_open_while().push(pos)
                            } else if c == ValidCMD::EndWhileNZ {
                                old(self).spec_open_while().drop_last()
                            } else {
                                old(self).spec_open_while()
                            }
                    }
                }
            },
    {
        match ValidCMD::std_parse_char(cmd) {
            Some(c) => {
                if c.is_start_while() { self.open_while.push(pos) }
                if c.is_end_while() {
                    if self.open_while.pop().is_none() {
                        return Some(CompilerErrorType::ClosedWhileWithoutOpen)
                    }
                }
                self.program.push(c);
                self.fed = Ghost(self.fed@.push(cmd));
                None
            }
            None => Some(CompilerErrorType::UnknownCmd(cmd)),
        }
    }

    /// The commands, when every loop is closed; else the places of the
    /// open ones.
    fn get_program(self) -> (r: Result<Vec<ValidCMD>, CompilerErrorType>)
        ensures
            self.spec_open_while().len() == 0 ==> (r matches Ok(p) && p@ == self.spec_program()),
            self.spec_open_while().len() != 0 ==> (r matches Err(CompilerErrorType::NotClosedWhile(v)) && v@ == self.spec_open_while()),
    {
        if self.open_while.len() == 0 { Ok(self.program) }
        else { Err(CompilerErrorType::NotClosedWhile(self.open_while)) }
    }
}

impl PortNameHandler for InterpreterCmdCompiler {
    /// Never: it has no ports to set.
    fn need_port_name_handle(&self) -> (r: bool)
        ensures !r,
    {
        false
    }

    fn port_name_handle(&mut self, port_names: &Vec<(String, usize)>) -> (r: Option<CompilerErrorType>)
        ensures r is None, *final(self) == *old(self),
    {
        None
    }
}

impl ProgramConcat<ValidCMD> for InterpreterCmdCompiler {
    fn program_concat(p1: Vec<ValidCMD>, p2: Vec<ValidCMD>) -> (r: Vec<ValidCMD>)
        ensures r@ == p1@ + p2@,
    {
        default_program_concat(p1, p2)
    }
}

}
