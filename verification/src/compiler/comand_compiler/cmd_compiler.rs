use vstd::prelude::*;
use crate::compiler::compiler_pos::CompilerPos;
use crate::compiler::compiler_error::CompilerErrorType;

verus! {

/// Turns commands, one character at a time, into a program of `T`. Its
/// users implement it (a command may span several characters, as with
/// `"xyz"`).
pub trait CmdCompiler<T> {
    /// Whether the compiler, in this state, takes the command character
    /// `cmd` at `pos`.
    spec fn spec_takes(&self, cmd: char, pos: CompilerPos) -> bool;

    /// The command characters taken so far, in order.
    spec fn spec_fed(&self) -> Seq<char>;

    /// Take one command character at `pos`; `Some` error when it cannot.
    /// A character taken is added to those taken before.
    fn cmd_compile(&mut self, cmd: char, pos: CompilerPos) -> (r: Option<CompilerErrorType>)
        ensures
            r is None <==> old(self).spec_takes(cmd, pos),
            r is None ==> final(self).spec_fed() == old(self).spec_fed().push(cmd);

    /// The program, or why there is none.
    fn get_program(self) -> Result<Vec<T>, CompilerErrorType>;
}

}
