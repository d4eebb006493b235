use vstd::prelude::*;
use crate::compiler::compiler_pos::CompilerPos;

verus! {

/// The port register number that names none (one past the last).
pub const INVALID_PR: usize = 5;

/// A loop start not closed yet: where it is in the text, and where its
/// reserved jump bytes start in the program.
#[derive(Clone, Copy)]
pub struct SdmCcOpenWhile {
    pub compiler_pos: CompilerPos,
    pub cmd_pos: usize,
}

impl SdmCcOpenWhile {
    pub fn new(compiler_pos: CompilerPos, cmd_pos: usize) -> (r: Self)
        ensures
            r.compiler_pos == compiler_pos,
            r.cmd_pos == cmd_pos,
    {
        Self { compiler_pos, cmd_pos }
    }
}

/// The state of the standard command compiler: the open loops, the port
/// register selected now (`INVALID_PR` when unknown), whether the current
/// cell's value is in the register, and the machine's limits.
pub struct SdmCcMainInfo {
    pub open_while: Vec<SdmCcOpenWhile>,
    pub cur_port_reg: usize,
    pub cem_cur_cell_in_reg: bool,
    pub max_port_amount: usize,
    pub max_jump_size: usize,
}

impl Default for SdmCcMainInfo {
    /// No open loop, no register selected, no cell value held, and a
    /// machine without ports or jumps.
    fn default() -> (r: Self)
        ensures
            r.open_while@.len() == 0,
            r.cur_port_reg == INVALID_PR,
            !r.cem_cur_cell_in_reg,
            r.max_port_amount == 0,
            r.max_jump_size == 0,
    {
        Self::new(0, 0)
    }
}

impl SdmCcMainInfo {
    pub fn new(max_port_amount: usize, max_jump_size: usize) -> (r: Self)
        ensures
            r.open_while@.len() == 0,
            r.cur_port_reg == INVALID_PR,
            !r.cem_cur_cell_in_reg,
            r.max_port_amount == max_port_amount,
            r.max_jump_size == max_jump_size,
    {
        Self {
            open_while: Vec::new(),
            cur_port_reg: INVALID_PR,
            cem_cur_cell_in_reg: false,
            max_port_amount,
            max_jump_size,
        }
    }

    pub fn open_while_amount(&self) -> (r: usize)
        ensures r == self.open_while@.len(),
    {
        self.open_while.len()
    }

    pub fn set_cur_pr_invalid(&mut self)
        ensures
            final(self).cur_port_reg == INVALID_PR,
            final(self).open_while == old(self).open_while,
            final(self).cem_cur_cell_in_reg == old(self).cem_cur_cell_in_reg,
            final(self).max_port_amount == old(self).max_port_amount,
            final(self).max_jump_size == old(self).max_jump_size,
    {
        self.cur_port_reg = INVALID_PR;
    }

    pub fn set_cur_pr(&mut self, cur_port_reg: usize)
        ensures
            final(self).cur_port_reg == cur_port_reg,
            final(self).open_while == old(self).open_while,
            final(self).cem_cur_cell_in_reg == old(self).cem_cur_cell_in_reg,
            final(self).max_port_amount == old(self).max_port_amount,
            final(self).max_jump_size == old(self).max_jump_size,
    {
        self.cur_port_reg = cur_port_reg;
    }

    pub fn get_cur_pr(&self) -> (r: usize)
        ensures r == self.cur_port_reg,
    {
        self.cur_port_reg
    }

    pub fn get_max_jump_size(&self) -> (r: usize)
        ensures r == self.max_jump_size,
    {
        self.max_jump_size
    }

    pub fn get_max_port_amount(&self) -> (r: usize)
        ensures r == self.max_port_amount,
    {
        self.max_port_amount
    }

    /// Whether two states belong to one compilation: the same machine.
    pub fn can_be_the_same_compilation(a: &Self, b: &Self) -> (r: bool)
        ensures
            r == (a.max_jump_size == b.max_jump_size && a.max_port_amount == b.max_port_amount),
    {
        a.max_jump_size == b.max_jump_size && a.max_port_amount == b.max_port_amount
    }
}

}
