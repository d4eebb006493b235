use vstd::prelude::*;
use crate::general::se_fn::{std_se_encoding, se_encode};
use crate::compiler::compiler_pos::CompilerPos;
use crate::compiler::compiler_error::CompilerErrorType;
use crate::compiler::code_gen::code_gen::{spec_set_cell_cmds, set_cell_bits, pow2, lemma_set_cell_bits_len, spec_init_se_cmds,
    spec_move_to_next_after_left_zero, spec_move_to_prev_before_right_zero, spec_zero_while_not_zero};
use crate::compiler::valid_cmd::{ValidCMD, spec_parse_cmd};
use crate::dev_emulators::dev_utilities::mem_dev::{
    CellMemDevStartAction, CmdMemDevStartAction, spec_cell_action_byte, spec_cmd_action_byte,
};
use crate::dev_emulators::dev_utilities::win_dev::{WinDevStartAction, spec_win_action_byte};
use super::to_u8_seq::ToU8Seq;
use super::sdm_cc_main_info::{SdmCcMainInfo, SdmCcOpenWhile, INVALID_PR};
use super::std_cc_additional_info::{StdCcAditionalInfo, PrPrepared, spec_pr_index, spec_pr_from_name, PREPARED_PRS};
use super::cmd_compiler::CmdCompiler;
use super::port_name_handler::PortNameHandler;
use crate::vm::hardware_info::HardwareInfo;

verus! {

// ---------------------------------------------------------------------
// [+] commands of the machine

/// The machine's commands that take no register value: their first byte
/// (and `CUR`'s port register).
pub enum StdCmdNames {
    Pass,
    Test,
    Cur(usize),
    SetPort,
    Read,
    Write,
}

pub open spec fn spec_std_cmd_bytes(c: StdCmdNames) -> Seq<u8> {
    match c {
        StdCmdNames::Pass => seq![0u8],
        StdCmdNames::Test => seq![1u8],
        StdCmdNames::Cur(pr) => seq![2u8] + se_encode(pr as nat),
        StdCmdNames::SetPort => seq![3u8],
        StdCmdNames::Read => seq![4u8],
        StdCmdNames::Write => seq![5u8],
    }
}

impl StdCmdNames {
    /// The command that starts with `byte` (for `CUR`, with a made-up port
    /// register: only the kind of command is meant).
    pub fn is_start_byte(byte: u8) -> (r: Option<Self>)
        ensures
            byte == 0 <==> r matches Some(Self::Pass),
            byte == 1 <==> r matches Some(Self::Test),
            byte == 2 <==> r matches Some(Self::Cur(_)),
            byte == 3 <==> r matches Some(Self::SetPort),
            byte == 4 <==> r matches Some(Self::Read),
            byte == 5 <==> r matches Some(Self::Write),
            byte > 5 <==> r is None,
    {
        match byte {
            0x00 => Some(Self::Pass),
            0x01 => Some(Self::Test),
            0x02 => Some(Self::Cur(0xBAD_C0DE)),
            0x03 => Some(Self::SetPort),
            0x04 => Some(Self::Read),
            0x05 => Some(Self::Write),
            _ => None,
        }
    }
}

impl ToU8Seq for StdCmdNames {
    fn to_u8_seq(&self) -> (r: Vec<u8>)
        ensures
            r@ == spec_std_cmd_bytes(*self),
    {
        let mut r: Vec<u8> = Vec::new();
        match self {
            Self::Pass => { r.push(0x00); }
            Self::Test => { r.push(0x01); }
            Self::Cur(se) => {
                r.push(0x02);
                let mut e = std_se_encoding(*se);
                r.append(&mut e);
            }
            Self::SetPort => { r.push(0x03); }
            Self::Read => { r.push(0x04); }
            Self::Write => { r.push(0x05); }
        }
        r
    }
}

/// The machine's commands on its register.
#[derive(Clone, Copy, Debug, PartialEq, Eq, Structural)]
pub enum RegCmdNames {
    Zero,
    TestZero,
    Inc,
    Dec,
    LeftShift,
    RightShift,
    And,
    Bnd,
}

pub open spec fn spec_reg_byte(c: RegCmdNames) -> u8 {
    match c {
        RegCmdNames::Zero => 0x06,
        RegCmdNames::TestZero => 0x07,
        RegCmdNames::Inc => 0x08,
        RegCmdNames::Dec => 0x09,
        RegCmdNames::LeftShift => 0x0A,
        RegCmdNames::RightShift => 0x0B,
        RegCmdNames::And => 0x0C,
        RegCmdNames::Bnd => 0x0D,
    }
}

/// The register command that carries out a command of the language.
pub open spec fn spec_reg_of_cmd(cmd: ValidCMD) -> Option<RegCmdNames> {
    match cmd {
        ValidCMD::ZeroedCell => Some(RegCmdNames::Zero),
        ValidCMD::IncValue => Some(RegCmdNames::Inc),
        ValidCMD::DecValue => Some(RegCmdNames::Dec),
        ValidCMD::LeftShift => Some(RegCmdNames::LeftShift),
        ValidCMD::RightShift => Some(RegCmdNames::RightShift),
        ValidCMD::And => Some(RegCmdNames::And),
        ValidCMD::Bnd => Some(RegCmdNames::Bnd),
        ValidCMD::TestZeroCell => Some(RegCmdNames::TestZero),
        _ => None,
    }
}

impl RegCmdNames {
    pub fn to_byte(&self) -> (b: u8)
        ensures
            b == spec_reg_byte(*self),
    {
        match self {
            Self::Zero => 0x06,
            Self::TestZero => 0x07,
            Self::Inc => 0x08,
            Self::Dec => 0x09,
            Self::LeftShift => 0x0A,
            Self::RightShift => 0x0B,
            Self::And => 0x0C,
            Self::Bnd => 0x0D,
        }
    }

    pub fn try_from_byte(byte: u8) -> (r: Option<Self>)
        ensures
            match r {
                Some(c) => spec_reg_byte(c) == byte,
                None => byte < 6 || byte > 13,
            },
    {
        match byte {
            0x06 => Some(Self::Zero),
            0x07 => Some(Self::TestZero),
            0x08 => Some(Self::Inc),
            0x09 => Some(Self::Dec),
            0x0A => Some(Self::LeftShift),
            0x0B => Some(Self::RightShift),
            0x0C => Some(Self::And),
            0x0D => Some(Self::Bnd),
            _ => None,
        }
    }

    pub fn try_from_valid_cmd(valid_cmd: ValidCMD) -> (r: Option<Self>)
        ensures
            r == spec_reg_of_cmd(valid_cmd),
    {
        match valid_cmd {
            ValidCMD::ZeroedCell => Some(Self::Zero),
            ValidCMD::IncValue => Some(Self::Inc),
            ValidCMD::DecValue => Some(Self::Dec),
            ValidCMD::LeftShift => Some(Self::LeftShift),
            ValidCMD::RightShift => Some(Self::RightShift),
            ValidCMD::And => Some(Self::And),
            ValidCMD::Bnd => Some(Self::Bnd),
            ValidCMD::TestZeroCell => Some(Self::TestZero),
            _ => None,
        }
    }
}

impl ToU8Seq for RegCmdNames {
    fn to_u8_seq(&self) -> (r: Vec<u8>)
        ensures
            r@ == seq![spec_reg_byte(*self)],
    {
        let mut r: Vec<u8> = Vec::new();
        r.push(self.to_byte());
        r
    }
}

// [-] commands of the machine
// ---------------------------------------------------------------------

// ---------------------------------------------------------------------
// [+] what each command compiles to

/// Port registers: the user's, the cell memory's, the command memory's,
/// the console's and the screen's.
pub const USER_PR: usize = 0;
pub const MEM_CELL_PR: usize = 1;
pub const MEM_CMD_PR: usize = 2;
pub const CONSOLE_PR: usize = 3;
pub const WIN_PR: usize = 4;
pub const MAX_PR: usize = 5;
/// Ports that the standard devices need.
pub const MIN_PORT_AMOUNT: usize = 4;

/// The state of the compiler as the contracts see it: the program so far,
/// the port register selected (`INVALID_PR` when unknown), whether the
/// current cell's value is in the register, and the open loops.
pub struct CcView {
    pub program: Seq<u8>,
    pub cur_pr: usize,
    pub cem_in_reg: bool,
    pub open_while: Seq<SdmCcOpenWhile>,
}

/// Bytes kept free at a loop start for its jump: enough for the longest
/// jump the machine takes.
pub open spec fn jpa(mj: usize) -> nat {
    se_encode(mj as nat).len()
}

pub open spec fn zeros(n: nat) -> Seq<u8> {
    Seq::new(n, |i: int| 0u8)
}

pub open spec fn reg_cmd_byte(c: char) -> u8 {
    if c == '+' { spec_reg_byte(RegCmdNames::Inc) } else { spec_reg_byte(RegCmdNames::LeftShift) }
}

/// Writing the constant `x` from the register: clear it, build `x` with
/// `+` and `*` (see `spec_set_cell_cmds`), write.
pub open spec fn const_write_bytes(x: u8) -> Seq<u8> {
    seq![spec_reg_byte(RegCmdNames::Zero)]
        + spec_set_cell_cmds(x, false).map_values(|c: char| reg_cmd_byte(c))
        + spec_std_cmd_bytes(StdCmdNames::Write)
}

pub open spec fn v_push(v: CcView, b: Seq<u8>) -> CcView {
    CcView { program: v.program + b, cur_pr: v.cur_pr, cem_in_reg: v.cem_in_reg, open_while: v.open_while }
}

pub open spec fn v_set_pr(v: CcView, pr: usize) -> CcView {
    if pr == v.cur_pr {
        v
    } else {
        CcView { program: v.program + spec_std_cmd_bytes(StdCmdNames::Cur(pr)), cur_pr: pr, cem_in_reg: v.cem_in_reg, open_while: v.open_while }
    }
}

pub open spec fn v_const_write(v: CcView, x: u8) -> CcView {
    v_push(v, const_write_bytes(x))
}

pub open spec fn v_reg(v: CcView, b: bool) -> CcView {
    CcView { program: v.program, cur_pr: v.cur_pr, cem_in_reg: b, open_while: v.open_while }
}

/// Get the current cell into the register, unless it is there.
pub open spec fn v_load(v: CcView) -> CcView {
    if v.cem_in_reg {
        v
    } else {
        v_reg(v_push(v_const_write(v_set_pr(v, MEM_CELL_PR), spec_cell_action_byte(CellMemDevStartAction::GetCellValue)),
            spec_std_cmd_bytes(StdCmdNames::Read)), true)
    }
}

/// Put the register back into the current cell, if it holds it.
pub open spec fn v_unload(v: CcView) -> CcView {
    if !v.cem_in_reg {
        v
    } else {
        v_push(v_const_write(v_set_pr(v, MEM_CELL_PR), spec_cell_action_byte(CellMemDevStartAction::SetCellValue)),
            spec_std_cmd_bytes(StdCmdNames::Write))
    }
}

pub open spec fn cell_req(cmd: ValidCMD) -> CellMemDevStartAction {
    match cmd {
        ValidCMD::NextCell => CellMemDevStartAction::NextCell,
        ValidCMD::PrevCell => CellMemDevStartAction::PrevCell,
        ValidCMD::CreateCell => CellMemDevStartAction::CreateCell,
        _ => CellMemDevStartAction::DeleteCell,
    }
}

pub open spec fn win_req(cmd: ValidCMD) -> WinDevStartAction {
    match cmd {
        ValidCMD::DecCoordX => WinDevStartAction::DecCoordX,
        ValidCMD::DecCoordY => WinDevStartAction::DecCoordY,
        ValidCMD::IncCoordX => WinDevStartAction::IncCoordX,
        ValidCMD::IncCoordY => WinDevStartAction::IncCoordY,
        ValidCMD::RedrawWin => WinDevStartAction::RedrawWin,
        _ => WinDevStartAction::SetWinValue,
    }
}

/// A command on the cell memory (`>`, `<`, `c`, `d`): the value goes back
/// first; a new cell is zero in the register.
pub open spec fn v_cell_cmd(v: CcView, cmd: ValidCMD) -> CcView {
    let v1 = v_const_write(v_set_pr(v_unload(v), MEM_CELL_PR), spec_cell_action_byte(cell_req(cmd)));
    if cmd == ValidCMD::CreateCell {
        v_reg(v_push(v1, seq![spec_reg_byte(RegCmdNames::Zero)]), true)
    } else {
        v_reg(v1, false)
    }
}

/// Bytes `b` written over `p` from `at`.
pub open spec fn patch(p: Seq<u8>, at: int, b: Seq<u8>) -> Seq<u8> {
    Seq::new(p.len(), |k: int| if at <= k < at + b.len() { b[k - at] } else { p[k] })
}

/// Programs from this length on are refused (a machine limit).
pub open spec fn program_limit() -> nat {
    (usize::MAX / 4) as nat
}

pub open spec fn too_big_jump() -> Seq<char> {
    "too big jump"@
}

pub open spec fn too_long_program() -> Seq<char> {
    "program too long"@
}

/// The bytes before a loop's jump: the cell's value goes back, the
/// command memory is asked for `action`, the value comes to the register
/// and is written to the command memory.
pub open spec fn jump_prefix(v: CcView, action: CmdMemDevStartAction) -> CcView {
    v_push(v_set_pr(v_load(v_const_write(v_set_pr(v_unload(v), MEM_CMD_PR), spec_cmd_action_byte(action))), MEM_CMD_PR),
        spec_std_cmd_bytes(StdCmdNames::Write))
}

/// `[`: the jump prefix, the loop noted as open at the end of it, and `j`
/// empty bytes kept for the forward jump.
pub open spec fn start_while_step(v: CcView, pos: CompilerPos, j: nat) -> CcView {
    let v1 = jump_prefix(v, CmdMemDevStartAction::JumpForward);
    let v2 = CcView { program: v1.program, cur_pr: v1.cur_pr, cem_in_reg: v1.cem_in_reg,
        open_while: v1.open_while.push(SdmCcOpenWhile { compiler_pos: pos, cmd_pos: v1.program.len() as usize }) };
    v_push(v2, zeros(j))
}

/// `]` with a loop open: the jump prefix, the backward jump to the loop's
/// kept bytes, then the forward jump written over them.
pub open spec fn end_while_step(v: CcView, mj: usize, j: nat) -> (CcView, Option<CcErr>) {
    let v1 = jump_prefix(v, CmdMemDevStartAction::JumpBackward);
    let prev = v1.open_while.last();
    let back = (v1.program.len() - prev.cmd_pos + j) as nat;
    let v2 = CcView { program: v1.program + se_encode(back), cur_pr: v1.cur_pr, cem_in_reg: v1.cem_in_reg,
        open_while: v1.open_while.drop_last() };
    let fwd = back + se_encode(back).len();
    if fwd > mj {
        (v2, Some(CcErr::TooBigJump))
    } else {
        (CcView { program: patch(v2.program, prev.cmd_pos as int, se_encode(fwd)), cur_pr: v2.cur_pr,
            cem_in_reg: v2.cem_in_reg, open_while: v2.open_while }, None)
    }
}

/// What compiling one command at `pos` does, on a machine whose jumps go
/// up to `mj` with `j` bytes kept for each: the state after it and the
/// error, if any (for a loop end whose jump is too long, the state after
/// writing its jump back; the loop start is then left unpatched).
#[verifier::opaque]
pub open spec fn cmd_step(v: CcView, cmd: ValidCMD, pos: CompilerPos, mj: usize, j: nat) -> (CcView, Option<CcErr>) {
    if v.program.len() >= program_limit() {
        (v, Some(CcErr::ProgramTooLong))
    } else {
        match spec_reg_of_cmd(cmd) {
            Some(rc) => (v_push(v_load(v), seq![spec_reg_byte(rc)]), None),
            None => match cmd {
                ValidCMD::NextCell | ValidCMD::PrevCell | ValidCMD::CreateCell | ValidCMD::DeleteCell =>
                    (v_cell_cmd(v, cmd), None),
                ValidCMD::DecCoordX | ValidCMD::DecCoordY | ValidCMD::IncCoordX | ValidCMD::IncCoordY | ValidCMD::RedrawWin =>
                    (v_const_write(v_set_pr(v, WIN_PR), spec_win_action_byte(win_req(cmd))), None),
                ValidCMD::SetWinValue =>
                    (v_push(v_load(v_const_write(v_set_pr(v, WIN_PR), spec_win_action_byte(WinDevStartAction::SetWinValue))),
                        spec_std_cmd_bytes(StdCmdNames::Write)), None),
                ValidCMD::PrintValue =>
                    (v_push(v_set_pr(v_load(v), CONSOLE_PR), spec_std_cmd_bytes(StdCmdNames::Write)), None),
                ValidCMD::ReadValue =>
                    (v_reg(v_push(v_set_pr(v, CONSOLE_PR), spec_std_cmd_bytes(StdCmdNames::Read)), true), None),
                ValidCMD::TestPort =>
                    (v_reg(v_push(v_set_pr(v, USER_PR), spec_std_cmd_bytes(StdCmdNames::Test)), true), None),
                ValidCMD::ReadFromPort =>
                    (v_reg(v_push(v_set_pr(v, USER_PR), spec_std_cmd_bytes(StdCmdNames::Read)), true), None),
                ValidCMD::WriteIntoPort =>
                    (v_push(v_set_pr(v_load(v), USER_PR), spec_std_cmd_bytes(StdCmdNames::Write)), None),
                ValidCMD::SetCurPort =>
                    (v_push(v_set_pr(v_unload(v), USER_PR), spec_std_cmd_bytes(StdCmdNames::SetPort)), None),
                ValidCMD::StartWhileNZ => (start_while_step(v, pos, j), None),
                ValidCMD::EndWhileNZ => {
                    if v.open_while.len() == 0 {
                        (v, Some(CcErr::ClosedWhileWithoutOpen))
                    } else {
                        end_while_step(v, mj, j)
                    }
                },
                ValidCMD::Clone => (v_cell_cmd(v_load(v_unload(v)), ValidCMD::NextCell), None),
                _ => (v, None),
            },
        }
    }
}

/// One character: its command at `pos`, or an unknown command.
pub open spec fn char_step(v: CcView, c: char, pos: CompilerPos, mj: usize, j: nat) -> (CcView, Option<CcErr>) {
    match spec_parse_cmd(c) {
        None => (v, Some(CcErr::UnknownCmd(c))),
        Some(cmd) => cmd_step(v, cmd, pos, mj, j),
    }
}

/// Characters one by one (all at the first position of a file), to the
/// first that does not compile.
#[verifier::opaque]
pub open spec fn compile_chars(v: CcView, cs: Seq<char>, mj: usize, j: nat) -> (CcView, Option<CcErr>)
    decreases cs.len(),
{
    if cs.len() == 0 {
        (v, None)
    } else {
        let r = compile_chars(v, cs.drop_last(), mj, j);
        if r.1 is Some { r } else { char_step(r.0, cs.last(), CompilerPos::new_spec(), mj, j) }
    }
}

/// The state with nothing known: no program, no port register, no value
/// in the register, no open loop.
pub open spec fn cleared_view() -> CcView {
    CcView { program: Seq::empty(), cur_pr: INVALID_PR, cem_in_reg: false, open_while: Seq::empty() }
}

/// The length of the code for `cs` from the cleared state, where it
/// compiles (and, with `closed`, leaves no loop open).
#[verifier::opaque]
pub open spec fn reserved_len(cs: Seq<char>, closed: bool, mj: usize, j: nat) -> Option<nat> {
    let r = compile_chars(cleared_view(), cs, mj, j);
    if r.1 is Some || (closed && r.0.open_while.len() > 0) { None } else { Some(r.0.program.len()) }
}

pub open spec fn add_opt(a: Option<nat>, b: Option<nat>) -> Option<nat> {
    match (a, b) { (Some(x), Some(y)) => Some(x + y), _ => None }
}

pub open spec fn mul_opt(a: nat, b: Option<nat>) -> Option<nat> {
    match b { Some(y) => Some(a * y), None => None }
}

/// The room that writing the space-efficient form of a number up to `max_x`
/// into fresh cells can take: clear, then the longest setting code for
/// each byte, and a shift between bytes.
pub open spec fn se_gen_len(max_x: usize, mj: usize, j: nat) -> Option<nat> {
    let se_len = se_encode(max_x as nat).len();
    add_opt(add_opt(reserved_len(seq!['0'], false, mj, j),
        mul_opt(se_len, reserved_len(spec_set_cell_cmds(0xFF, true), true, mj, j))),
        mul_opt((se_len - 1) as nat, reserved_len(seq!['>'], false, mj, j)))
}

/// The room kept at the start of the program for setting up one port
/// register: a shift, the port number into cells, back to its start, `CUR`
/// and `SET`, to its end, and clearing the cells.
pub open spec fn pr_reserve_len(mj: usize, mp: usize, j: nat) -> Option<nat> {
    add_opt(add_opt(add_opt(add_opt(add_opt(
        reserved_len(seq!['>'], false, mj, j),
        se_gen_len((mp - 1) as usize, mj, j)),
        reserved_len(spec_move_to_next_after_left_zero(), true, mj, j)),
        Some(spec_std_cmd_bytes(StdCmdNames::Cur(MAX_PR)).len() + spec_std_cmd_bytes(StdCmdNames::SetPort).len())),
        reserved_len(spec_move_to_prev_before_right_zero(), true, mj, j)),
        reserved_len(spec_zero_while_not_zero(), true, mj, j))
}

/// Where the standard command compiler can be made for a machine: it has
/// ports for the standard devices, and the room for setting up a port
/// register can be counted and fits.
pub open spec fn std_cc_can_init(max_port_amount: usize, max_jump_size: usize) -> bool {
    &&& max_port_amount >= MIN_PORT_AMOUNT
    &&& pr_reserve_len(max_jump_size, max_port_amount, jpa(max_jump_size)) matches Some(n)
        && 2 * n + 3 < usize::MAX / 4
}

/// The program that the compiler starts with: room for setting up the
/// console's and the screen's port registers, then `CUR[0] SET`.
pub open spec fn initial_program(n: nat) -> Seq<u8> {
    zeros(2 * n) + spec_std_cmd_bytes(StdCmdNames::Cur(0)) + spec_std_cmd_bytes(StdCmdNames::SetPort)
}

/// The port register that a set-up device uses.
pub open spec fn pr_reg(pr: PrPrepared) -> usize {
    match pr {
        PrPrepared::Console => CONSOLE_PR,
        PrPrepared::Win => WIN_PR,
        PrPrepared::MemCell => MEM_CELL_PR,
        PrPrepared::MemCmd => MEM_CMD_PR,
    }
}

/// The code that sets a port register to `port`: write the port number's
/// space-efficient form into fresh cells and go back to its start, ...
pub open spec fn cgen_first(port: usize) -> Seq<char> {
    seq!['>'] + spec_init_se_cmds(se_encode(port as nat), false) + spec_move_to_next_after_left_zero()
}

/// ... then, after `CUR` and `SET`, go to its end and clear the cells.
pub open spec fn cgen_second() -> Seq<char> {
    spec_move_to_prev_before_right_zero() + spec_zero_while_not_zero()
}

/// The bytes that set up port register `pr` to `port`, where both parts
/// compile (the second from the state that the first leaves).
pub open spec fn cgen_bytes(pr: PrPrepared, port: usize, mj: usize, j: nat) -> Option<Seq<u8>> {
    let r1 = compile_chars(cleared_view(), cgen_first(port), mj, j);
    if r1.1 is Some {
        None
    } else {
        let r2 = compile_chars(r1.0, cgen_second(), mj, j);
        if r2.1 is Some {
            None
        } else {
            Some(r1.0.program + spec_std_cmd_bytes(StdCmdNames::Cur(pr_reg(pr))) + spec_std_cmd_bytes(StdCmdNames::SetPort)
                + r2.0.program.skip(r1.0.program.len() as int))
        }
    }
}

/// The start of the room of a set-up port register.
pub open spec fn pr_room(x: PrPrepared, sz: usize) -> int {
    spec_pr_index(x) * sz
}

/// The program after setting up port register `x` to `port` in its room of
/// `sz` bytes (the memories' need nothing); `None` where its code does not
/// compile or does not fit.
#[verifier::opaque]
pub open spec fn cgen_port_effect(p: Seq<u8>, x: PrPrepared, port: usize, sz: usize, mj: usize, j: nat) -> Option<Seq<u8>> {
    if x == PrPrepared::MemCell || x == PrPrepared::MemCmd {
        Some(p)
    } else {
        match cgen_bytes(x, port, mj, j) {
            None => None,
            Some(b) => if b.len() > sz { None } else { Some(patch(p, pr_room(x, sz), b + zeros((sz - b.len()) as nat))) },
        }
    }
}

/// Taking one port name: a known device's port register is set up in the
/// program (its port must exist), others are left; `true` for an error.
pub open spec fn port_step(p: Seq<u8>, prep: Seq<bool>, name: Seq<char>, port: usize, sz: usize, mp: usize, mj: usize, j: nat)
    -> (Seq<u8>, Seq<bool>, bool)
{
    match spec_pr_from_name(name) {
        None => (p, prep, false),
        Some(x) => {
            if port >= mp {
                (p, prep, true)
            } else {
                match cgen_port_effect(p, x, port, sz, mj, j) {
                    None => (p, prep, true),
                    Some(p2) => (p2, prep.update(spec_pr_index(x) as int, true), false),
                }
            }
        }
    }
}

/// The port names in order, to the first error.
pub open spec fn port_run(p: Seq<u8>, prep: Seq<bool>, names: Seq<(String, usize)>, sz: usize, mp: usize, mj: usize, j: nat)
    -> (Seq<u8>, Seq<bool>, bool)
    decreases names.len(),
{
    if names.len() == 0 {
        (p, prep, false)
    } else {
        let r = port_run(p, prep, names.drop_last(), sz, mp, mj, j);
        if r.2 { r } else { port_step(r.0, r.1, names.last().0@, names.last().1, sz, mp, mj, j) }
    }
}

/// Why a command does not compile.
pub enum CcErr {
    UnknownCmd(char),
    ClosedWhileWithoutOpen,
    TooBigJump,
    ProgramTooLong,
}

/// The error that the compiler gives for each reason.
pub open spec fn err_matches(e: CompilerErrorType, k: CcErr) -> bool {
    match k {
        CcErr::UnknownCmd(c) => e == CompilerErrorType::UnknownCmd(c),
        CcErr::ClosedWhileWithoutOpen => e is ClosedWhileWithoutOpen,
        CcErr::TooBigJump => e matches CompilerErrorType::Other(s) && s@ == too_big_jump(),
        CcErr::ProgramTooLong => e matches CompilerErrorType::Other(s) && s@ == too_long_program(),
    }
}

// [-] what each command compiles to
// ---------------------------------------------------------------------


// ---------------------------------------------------------------------
// [+] lemmas on the generated bytes

/// The code that sets a constant is made of `+` and `*` only, and is short.
proof fn lemma_set_cell_chars(x: u8)
    ensures
        forall|i: int| 0 <= i < spec_set_cell_cmds(x, false).len() ==>
            #[trigger] spec_set_cell_cmds(x, false)[i] == '+' || spec_set_cell_cmds(x, false)[i] == '*',
        spec_set_cell_cmds(x, false).len() <= 256,
{
    let s = spec_set_cell_cmds(x, false);
    if x > 0 {
        assert(pow2(8) == 256) by { reveal_with_fuel(pow2, 9); }
        lemma_set_cell_bits_len(x as nat, 8);
        assert(s == seq!['+'] + set_cell_bits(x as nat));
        assert forall|i: int| 0 <= i < s.len() implies #[trigger] s[i] == '+' || s[i] == '*' by {
            if i >= 1 { assert(s[i] == set_cell_bits(x as nat)[i - 1]); }
        }
    } else {
        assert(s =~= Seq::<char>::empty());
    }
}

proof fn lemma_small_se(pr: usize)
    requires
        pr < 128,
    ensures
        se_encode(pr as nat) == seq![pr as u8],
{
}

/// Law: `,` reads from the console. Compiling it selects port register 3
/// (`CUR[3]`, the bytes `0x02 0x03`) unless that register is selected
/// already, then reads (`0x04`); register 3 stays selected and the
/// register holds the value read.
pub proof fn lemma_read_from_console(v: CcView, pos: CompilerPos, mj: usize, j: nat)
    requires
        v.program.len() < program_limit(),
    ensures
        char_step(v, ',', pos, mj, j).1 is None,
        char_step(v, ',', pos, mj, j).0.program
            == v.program + (if v.cur_pr == 3 { Seq::<u8>::empty() } else { seq![0x02u8, 0x03u8] }) + seq![0x04u8],
        char_step(v, ',', pos, mj, j).0.cur_pr == 3,
        char_step(v, ',', pos, mj, j).0.cem_in_reg,
        char_step(v, ',', pos, mj, j).0.open_while == v.open_while,
{
    reveal(cmd_step);
    lemma_small_se(3);
    if v.cur_pr == 3 {
        assert(v.program + Seq::<u8>::empty() =~= v.program);
    }
}

/// Law: each command that talks to a port ends on the port register it
/// belongs to and with its own command byte: `.` writes (`0x05`) to the
/// console's register 3; `r` reads (`0x04`), `t` tests (`0x01`), `w`
/// writes (`0x05`) and `s` sets the port (`0x03`) on the user's register 0.
pub proof fn lemma_port_commands(v: CcView, pos: CompilerPos, mj: usize, j: nat)
    requires
        v.program.len() < program_limit(),
    ensures
        char_step(v, '.', pos, mj, j).1 is None && char_step(v, '.', pos, mj, j).0.cur_pr == 3
            && char_step(v, '.', pos, mj, j).0.program.last() == 0x05u8,
        char_step(v, 'r', pos, mj, j).1 is None && char_step(v, 'r', pos, mj, j).0.cur_pr == 0
            && char_step(v, 'r', pos, mj, j).0.program.last() == 0x04u8,
        char_step(v, 't', pos, mj, j).1 is None && char_step(v, 't', pos, mj, j).0.cur_pr == 0
            && char_step(v, 't', pos, mj, j).0.program.last() == 0x01u8,
        char_step(v, 'w', pos, mj, j).1 is None && char_step(v, 'w', pos, mj, j).0.cur_pr == 0
            && char_step(v, 'w', pos, mj, j).0.program.last() == 0x05u8,
        char_step(v, 's', pos, mj, j).1 is None && char_step(v, 's', pos, mj, j).0.cur_pr == 0
            && char_step(v, 's', pos, mj, j).0.program.last() == 0x03u8,
{
    reveal(cmd_step);
}

/// How far each step can lengthen the program.
proof fn lemma_step_lens(v: CcView, pr: usize, x: u8)
    requires
        pr < MAX_PR,
    ensures
        v_set_pr(v, pr).program.len() <= v.program.len() + 2,
        v_const_write(v, x).program.len() <= v.program.len() + 258,
        v_load(v).program.len() <= v.program.len() + 261,
        v_unload(v).program.len() <= v.program.len() + 261,
{
    lemma_set_cell_chars(x);
    lemma_set_cell_chars(spec_cell_action_byte(CellMemDevStartAction::GetCellValue));
    lemma_set_cell_chars(spec_cell_action_byte(CellMemDevStartAction::SetCellValue));
    lemma_small_se(pr);
    lemma_small_se(MEM_CELL_PR);
}

// [-] lemmas on the generated bytes
// ---------------------------------------------------------------------

// ---------------------------------------------------------------------
// [+] the standard command compiler

/// Every open loop starts within the program.
pub open spec fn cc_wf(v: CcView) -> bool {
    forall|i: int| 0 <= i < v.open_while.len() ==> #[trigger] v.open_while[i].cmd_pos <= v.program.len()
}

/// Compiles the language into the standard machine's bytes, with direct
/// access to the cell memory through the register: the program starts with
/// room for setting up the console's and the screen's port registers,
/// which is filled once the port names are known.
pub struct StdCmdCompiler {
    program: Vec<u8>,
    main_info: SdmCcMainInfo,
    inner_info: StdCcAditionalInfo,
    /// the command characters taken so far
    fed: Ghost<Seq<char>>,
}

impl StdCmdCompiler {
    pub closed spec fn cc_view(&self) -> CcView {
        CcView {
            program: self.program@,
            cur_pr: self.main_info.cur_port_reg,
            cem_in_reg: self.main_info.cem_cur_cell_in_reg,
            open_while: self.main_info.open_while@,
        }
    }

    pub closed spec fn spec_max_jump(&self) -> usize { self.main_info.max_jump_size }
    pub closed spec fn spec_max_port(&self) -> usize { self.main_info.max_port_amount }
    /// Bytes kept for a jump.
    pub closed spec fn spec_jpa(&self) -> nat {
        if self.inner_info.spec_jump_pass_amount() != 0 {
            self.inner_info.spec_jump_pass_amount() as nat
        } else {
            jpa(self.main_info.max_jump_size)
        }
    }
    pub closed spec fn spec_reserve_sz(&self) -> usize { self.inner_info.spec_reserve_sz() }
    pub closed spec fn spec_prepared(&self) -> Seq<bool> { self.inner_info.spec_prepared() }

    /// What stays through the compilation of commands.
    pub open spec fn same_cfg(&self, other: &Self) -> bool {
        &&& self.spec_max_jump() == other.spec_max_jump()
        &&& self.spec_max_port() == other.spec_max_port()
        &&& self.spec_jpa() == other.spec_jpa()
        &&& self.spec_reserve_sz() == other.spec_reserve_sz()
        &&& self.spec_prepared() == other.spec_prepared()
    }

    pub open spec fn wf(&self) -> bool {
        cc_wf(self.cc_view()) && self.spec_jpa() <= 10
    }

    fn ctb_push(&mut self, b: Vec<u8>)
        ensures
            final(self).cc_view() == v_push(old(self).cc_view(), b@),
            final(self).same_cfg(old(self)),
    {
        let mut b = b;
        self.program.append(&mut b);
    }

    fn ctb_std(&mut self, c: StdCmdNames)
        ensures
            final(self).cc_view() == v_push(old(self).cc_view(), spec_std_cmd_bytes(c)),
            final(self).same_cfg(old(self)),
    {
        let b = c.to_u8_seq();
        self.ctb_push(b);
    }

    fn ctb_reg(&mut self, c: RegCmdNames)
        ensures
            final(self).cc_view() == v_push(old(self).cc_view(), seq![spec_reg_byte(c)]),
            final(self).same_cfg(old(self)),
    {
        let b = c.to_u8_seq();
        self.ctb_push(b);
    }

    /// Write the constant `x` from the register.
    fn ctb_const_write(&mut self, x: u8)
        ensures
            final(self).cc_view() == v_const_write(old(self).cc_view(), x),
            final(self).same_cfg(old(self)),
    {
        proof { lemma_set_cell_chars(x); }
        self.ctb_reg(RegCmdNames::Zero);
        let cmds = crate::compiler::code_gen::code_gen::cgen_set_cell_value(x, false);
        let cs = crate::general::text::str_to_chars(cmds.as_str());
        let ghost p0 = self.program@;
        let ghost ms = spec_set_cell_cmds(x, false).map_values(|c: char| reg_cmd_byte(c));
        let mut i: usize = 0;
        while i < cs.len()
            invariant
                i <= cs@.len(),
                cs@ == spec_set_cell_cmds(x, false),
                ms == spec_set_cell_cmds(x, false).map_values(|c: char| reg_cmd_byte(c)),
                self.program@ == p0 + ms.take(i as int),
                self.main_info.cur_port_reg == old(self).main_info.cur_port_reg,
                self.main_info.cem_cur_cell_in_reg == old(self).main_info.cem_cur_cell_in_reg,
                self.main_info.open_while@ == old(self).main_info.open_while@,
                self.same_cfg(old(self)),
                forall|k: int| 0 <= k < cs@.len() ==> #[trigger] cs@[k] == '+' || cs@[k] == '*',
            decreases cs@.len() - i,
        {
            if cs[i] == '+' {
                self.ctb_reg(RegCmdNames::Inc);
            } else {
                self.ctb_reg(RegCmdNames::LeftShift);
            }
            assert(ms.take(i as int + 1) =~= ms.take(i as int).push(ms[i as int]));
            i = i + 1;
        }
        assert(ms.take(cs@.len() as int) =~= ms);
        self.ctb_std(StdCmdNames::Write);
        assert(self.program@ =~= old(self).program@ + const_write_bytes(x));
    }

    /// Select port register `new_pr`, unless it is selected.
    fn ctb_set_cur_pr(&mut self, new_pr: usize)
        requires
            new_pr < MAX_PR,
        ensures
            final(self).cc_view() == v_set_pr(old(self).cc_view(), new_pr),
            final(self).same_cfg(old(self)),
    {
        if new_pr == self.main_info.get_cur_pr() { return }
        self.ctb_std(StdCmdNames::Cur(new_pr));
        self.main_info.set_cur_pr(new_pr);
    }

    fn set_cem_cur_cell_in_reg(&mut self, new_value: bool)
        ensures
            final(self).cc_view() == v_reg(old(self).cc_view(), new_value),
            final(self).same_cfg(old(self)),
    {
        self.main_info.cem_cur_cell_in_reg = new_value;
    }

    /// Get the current cell into the register, unless it is there.
    fn ctb_load_cur_cem(&mut self)
        ensures
            final(self).cc_view() == v_load(old(self).cc_view()),
            final(self).same_cfg(old(self)),
    {
        if self.main_info.cem_cur_cell_in_reg { return }
        self.ctb_set_cur_pr(MEM_CELL_PR);
        self.ctb_const_write(CellMemDevStartAction::GetCellValue.to_byte());
        self.ctb_std(StdCmdNames::Read);
        self.set_cem_cur_cell_in_reg(true);
    }

    /// Put the register back into the current cell, if it holds it.
    fn ctb_unload_cur_cem(&mut self)
        ensures
            final(self).cc_view() == v_unload(old(self).cc_view()),
            final(self).same_cfg(old(self)),
    {
        if !self.main_info.cem_cur_cell_in_reg { return }
        self.ctb_set_cur_pr(MEM_CELL_PR);
        self.ctb_const_write(CellMemDevStartAction::SetCellValue.to_byte());
        self.ctb_std(StdCmdNames::Write);
    }

    /// Bytes kept for a jump: the set amount, else enough for the longest
    /// jump.
    fn get_jump_pass_amount(&self) -> (r: usize)
        ensures
            r == self.spec_jpa(),
    {
        let pass_amount = self.inner_info.get_jump_pass_amount();
        if pass_amount != 0 {
            pass_amount
        } else {
            std_se_encoding(self.main_info.get_max_jump_size()).len()
        }
    }

    fn cell_cmd(&mut self, valid_cmd: ValidCMD)
        requires
            valid_cmd == ValidCMD::NextCell || valid_cmd == ValidCMD::PrevCell
                || valid_cmd == ValidCMD::CreateCell || valid_cmd == ValidCMD::DeleteCell,
        ensures
            final(self).cc_view() == v_cell_cmd(old(self).cc_view(), valid_cmd),
            final(self).same_cfg(old(self)),
    {
        self.ctb_unload_cur_cem();
        self.ctb_set_cur_pr(MEM_CELL_PR);
        let req = CellMemDevStartAction::from_valid_cmd(&valid_cmd);
        self.ctb_const_write(req.to_byte());
        match valid_cmd {
            ValidCMD::CreateCell => {
                self.ctb_reg(RegCmdNames::Zero);
                self.set_cem_cur_cell_in_reg(true);
            }
            _ => {
                self.set_cem_cur_cell_in_reg(false);
            }
        }
    }

    /// `n` empty commands.
    fn push_passes(&mut self, n: usize)
        ensures
            final(self).cc_view() == v_push(old(self).cc_view(), zeros(n as nat)),
            final(self).same_cfg(old(self)),
    {
        let mut k: usize = 0;
        while k < n
            invariant
                k <= n,
                self.cc_view() == v_push(old(self).cc_view(), zeros(k as nat)),
                self.same_cfg(old(self)),
            decreases n - k,
        {
            self.ctb_std(StdCmdNames::Pass);
            k = k + 1;
            assert(self.cc_view().program =~= old(self).cc_view().program + zeros(k as nat));
        }
    }

    /// The bytes before a loop's jump.
    fn jump_prefix_exec(&mut self, action: CmdMemDevStartAction)
        ensures
            final(self).cc_view() == jump_prefix(old(self).cc_view(), action),
            final(self).same_cfg(old(self)),
            final(self).cc_view().program.len() <= old(self).cc_view().program.len() + 800,
    {
        let ghost v = self.cc_view();
        proof { lemma_step_lens(v, MEM_CELL_PR, 0); }
        self.ctb_unload_cur_cem();
        let ghost va = self.cc_view();
        self.ctb_set_cur_pr(MEM_CMD_PR);
        let ghost vb = self.cc_view();
        self.ctb_const_write(action.to_byte());
        let ghost vc = self.cc_view();
        self.ctb_load_cur_cem();
        let ghost vd = self.cc_view();
        self.ctb_set_cur_pr(MEM_CMD_PR);
        self.ctb_std(StdCmdNames::Write);
        proof {
            lemma_step_lens(va, MEM_CMD_PR, spec_cmd_action_byte(action));
            lemma_step_lens(vb, MEM_CMD_PR, spec_cmd_action_byte(action));
            lemma_step_lens(vc, MEM_CMD_PR, 0);
            lemma_step_lens(vd, MEM_CMD_PR, 0);
        }
    }

    /// `[`: ask the command memory to jump forward past the loop when the
    /// current cell is zero, and keep room for the jump.
    fn start_while(&mut self, pos: CompilerPos)
        requires
            old(self).wf(),
        ensures
            final(self).wf(),
            final(self).same_cfg(old(self)),
            final(self).cc_view() == start_while_step(old(self).cc_view(), pos, old(self).spec_jpa()),
    {
        self.jump_prefix_exec(CmdMemDevStartAction::JumpForward);
        let cmd_pos = self.program.len();
        self.main_info.open_while.push(SdmCcOpenWhile::new(pos, cmd_pos));
        let n = self.get_jump_pass_amount();
        self.push_passes(n);
    }

    /// `]`: ask the command memory to jump back to the loop start when the
    /// current cell is not zero, and fill in the start's forward jump.
    fn end_while(&mut self) -> (r: Option<CompilerErrorType>)
        requires
            old(self).wf(),
            old(self).cc_view().program.len() < usize::MAX / 4,
            old(self).cc_view().open_while.len() > 0,
        ensures
            final(self).wf(),
            final(self).same_cfg(old(self)),
            final(self).cc_view() == end_while_step(old(self).cc_view(), old(self).spec_max_jump(), old(self).spec_jpa()).0,
            match end_while_step(old(self).cc_view(), old(self).spec_max_jump(), old(self).spec_jpa()).1 {
                None => r is None,
                Some(k) => r matches Some(e) && err_matches(e, k),
            },
    {
        let ghost v = self.cc_view();
        self.jump_prefix_exec(CmdMemDevStartAction::JumpBackward);
        let ghost v1 = self.cc_view();
        let cmd_pos = self.program.len();
        assert(cmd_pos < usize::MAX / 4 + 1000);
        let ghost prev_spec = v1.open_while.last();
        assert(v1.open_while == v.open_while);
        assert(prev_spec.cmd_pos <= v.program.len());
        let prev = match self.main_info.open_while.pop() {
            Some(p) => p,
            None => { return None }
        };
        assert(prev == prev_spec);
        let j = self.get_jump_pass_amount();
        let back = cmd_pos - prev.cmd_pos + j;
        let e = std_se_encoding(back);
        let elen = e.len();
        self.ctb_push(e);
        let fwd = back + elen;
        if fwd > self.main_info.get_max_jump_size() {
            let mut t = String::new();
            crate::general::text::string_push_str(&mut t, "too big jump");
            return Some(CompilerErrorType::Other(t));
        }
        let f = std_se_encoding(fwd);
        let ghost p2 = self.program@;
        let at = prev.cmd_pos;
        let mut ind: usize = 0;
        while ind < f.len()
            invariant
                ind <= f@.len(),
                f@.len() <= 10,
                at <= p2.len(),
                p2.len() < usize::MAX / 2,
                self.program@ == patch(p2, at as int, f@.take(ind as int)),
                self.main_info.open_while@ == v1.open_while.drop_last(),
                self.main_info.cur_port_reg == v1.cur_pr,
                self.main_info.cem_cur_cell_in_reg == v1.cem_in_reg,
                self.same_cfg(old(self)),
            decreases f@.len() - ind,
        {
            let idx = at + ind;
            if idx < self.program.len() {
                self.program.set(idx, f[ind]);
            }
            ind = ind + 1;
            assert(self.program@ =~= patch(p2, at as int, f@.take(ind as int)));
        }
        assert(f@.take(f@.len() as int) =~= f@);
        None
    }

    /// Compile one command at `pos`; see `cmd_step`.
    fn cmd_compile_inner(&mut self, valid_cmd: ValidCMD, pos: CompilerPos) -> (r: Option<CompilerErrorType>)
        requires
            old(self).wf(),
        ensures
            final(self).wf(),
            final(self).same_cfg(old(self)),
            final(self).cc_view() == cmd_step(old(self).cc_view(), valid_cmd, pos, old(self).spec_max_jump(), old(self).spec_jpa()).0,
            match cmd_step(old(self).cc_view(), valid_cmd, pos, old(self).spec_max_jump(), old(self).spec_jpa()).1 {
                None => r is None,
                Some(k) => r matches Some(e) && err_matches(e, k),
            },
    {
        proof { reveal(cmd_step); }
        let ghost v0 = self.cc_view();
        if self.program.len() >= usize::MAX / 4 {
            let mut t = String::new();
            crate::general::text::string_push_str(&mut t, "program too long");
            return Some(CompilerErrorType::Other(t));
        }
        match RegCmdNames::try_from_valid_cmd(valid_cmd) {
            Some(reg_cmd) => {
                self.ctb_load_cur_cem();
                self.ctb_reg(reg_cmd);
                return None
            }
            None => {}
        }
        match valid_cmd {
            ValidCMD::NextCell | ValidCMD::PrevCell | ValidCMD::CreateCell | ValidCMD::DeleteCell => {
                self.cell_cmd(valid_cmd);
            }
            ValidCMD::DecCoordX | ValidCMD::DecCoordY | ValidCMD::IncCoordX | ValidCMD::IncCoordY | ValidCMD::RedrawWin => {
                self.ctb_set_cur_pr(WIN_PR);
                self.ctb_const_write(WinDevStartAction::from_valid_cmd(&valid_cmd).to_byte());
            }
            ValidCMD::SetWinValue => {
                self.ctb_set_cur_pr(WIN_PR);
                self.ctb_const_write(WinDevStartAction::from_valid_cmd(&valid_cmd).to_byte());
                self.ctb_load_cur_cem();
                self.ctb_std(StdCmdNames::Write);
            }
            ValidCMD::PrintValue => {
                self.ctb_load_cur_cem();
                self.ctb_set_cur_pr(CONSOLE_PR);
                self.ctb_std(StdCmdNames::Write);
            }
            ValidCMD::ReadValue => {
                self.ctb_set_cur_pr(CONSOLE_PR);
                self.ctb_std(StdCmdNames::Read);
                self.set_cem_cur_cell_in_reg(true);
            }
            ValidCMD::TestPort => {
                self.ctb_set_cur_pr(USER_PR);
                self.ctb_std(StdCmdNames::Test);
                self.set_cem_cur_cell_in_reg(true);
            }
            ValidCMD::ReadFromPort => {
                self.ctb_set_cur_pr(USER_PR);
                self.ctb_std(StdCmdNames::Read);
                self.set_cem_cur_cell_in_reg(true);
            }
            ValidCMD::WriteIntoPort => {
                self.ctb_load_cur_cem();
                self.ctb_set_cur_pr(USER_PR);
                self.ctb_std(StdCmdNames::Write);
            }
            ValidCMD::SetCurPort => {
                self.ctb_unload_cur_cem();
                self.ctb_set_cur_pr(USER_PR);
                self.ctb_std(StdCmdNames::SetPort);
            }
            ValidCMD::StartWhileNZ => {
                self.start_while(pos);
            }
            ValidCMD::EndWhileNZ => {
                if self.main_info.open_while.len() == 0 { return Some(CompilerErrorType::ClosedWhileWithoutOpen) }
                return self.end_while();
            }
            ValidCMD::Clone => {
                self.ctb_unload_cur_cem();
                self.ctb_load_cur_cem();
                self.cell_cmd(ValidCMD::NextCell);
            }
            _ => {}
        }
        None
    }
}

impl StdCmdCompiler {
    /// One character at `pos`, from a well-formed state.
    fn compile_one_char(&mut self, c: char, pos: CompilerPos) -> (r: Option<CompilerErrorType>)
        requires
            old(self).wf(),
        ensures
            final(self).wf(),
            final(self).same_cfg(old(self)),
            final(self).cc_view() == char_step(old(self).cc_view(), c, pos, old(self).spec_max_jump(), old(self).spec_jpa()).0,
            match char_step(old(self).cc_view(), c, pos, old(self).spec_max_jump(), old(self).spec_jpa()).1 {
                None => r is None,
                Some(k) => r matches Some(e) && err_matches(e, k),
            },
    {
        match ValidCMD::std_parse_char(c) {
            None => Some(CompilerErrorType::UnknownCmd(c)),
            Some(valid_cmd) => self.cmd_compile_inner(valid_cmd, pos),
        }
    }

    /// The characters `cs` one by one, to the first that does not compile.
    fn compile_chars_exec(&mut self, cs: &Vec<char>) -> (r: Option<CompilerErrorType>)
        requires
            old(self).wf(),
        ensures
            final(self).wf(),
            final(self).same_cfg(old(self)),
            final(self).cc_view() == compile_chars(old(self).cc_view(), cs@, old(self).spec_max_jump(), old(self).spec_jpa()).0,
            match compile_chars(old(self).cc_view(), cs@, old(self).spec_max_jump(), old(self).spec_jpa()).1 {
                None => r is None,
                Some(k) => r matches Some(e) && err_matches(e, k),
            },
    {
        proof { reveal(compile_chars); }
        let ghost v0 = self.cc_view();
        let mut i: usize = 0;
        while i < cs.len()
            invariant
                i <= cs@.len(),
                self.wf(),
                self.same_cfg(old(self)),
                v0 == old(self).cc_view(),
                compile_chars(v0, cs@.take(i as int), old(self).spec_max_jump(), old(self).spec_jpa()) == (self.cc_view(), None::<CcErr>),
            decreases cs@.len() - i,
        {
            proof { reveal(compile_chars); }
            assert(cs@.take(i as int + 1).drop_last() =~= cs@.take(i as int));
            assert(cs@.take(i as int + 1).last() == cs@[i as int]);
            let r = self.compile_one_char(cs[i], CompilerPos::new());
            if r.is_some() {
                proof {
                    assert(compile_chars(v0, cs@.take(i as int + 1), old(self).spec_max_jump(), old(self).spec_jpa()).1 is Some);
                    lemma_compile_chars_stops(v0, cs@, i as int + 1, old(self).spec_max_jump(), old(self).spec_jpa());
                }
                return r;
            }
            i = i + 1;
        }
        assert(cs@.take(cs@.len() as int) =~= cs@);
        None
    }

    /// Whether the state is well formed (it always is, from `new`).
    fn check_wf(&self) -> (r: bool)
        ensures
            r == self.wf(),
    {
        if self.get_jump_pass_amount() > 10 { return false }
        let mut i: usize = 0;
        while i < self.main_info.open_while.len()
            invariant
                i <= self.main_info.open_while@.len(),
                forall|k: int| 0 <= k < i ==> #[trigger] self.main_info.open_while@[k].cmd_pos <= self.program@.len(),
            decreases self.main_info.open_while@.len() - i,
        {
            if self.main_info.open_while[i].cmd_pos > self.program.len() {
                assert(self.cc_view().open_while[i as int].cmd_pos > self.cc_view().program.len());
                return false
            }
            i = i + 1;
        }
        true
    }

    /// A compiler for the same machine in the cleared state, with no
    /// program.
    fn cleared_twin(&self) -> (r: Self)
        ensures
            r.cc_view() == cleared_view(),
            r.spec_max_jump() == self.spec_max_jump(),
            r.spec_max_port() == self.spec_max_port(),
            r.spec_jpa() == self.spec_jpa(),
            r.wf() <==> self.spec_jpa() <= 10,
    {
        let mut inner_info = StdCcAditionalInfo::new();
        let j = self.get_jump_pass_amount();
        inner_info.set_jump_pass_amount(j);
        let r = Self {
            program: Vec::new(),
            main_info: SdmCcMainInfo::new(self.main_info.max_port_amount, self.main_info.max_jump_size),
            inner_info,
            fed: Ghost(Seq::empty()),
        };
        proof {
            let e = se_encode(self.main_info.max_jump_size as nat);
            assert(e.len() >= 1) by { reveal_with_fuel(se_encode, 1); }
        }
        assert(r.program@ =~= Seq::<u8>::empty());
        assert(r.main_info.open_while@ =~= Seq::<SdmCcOpenWhile>::empty());
        assert(r.cc_view() == cleared_view());
        r
    }

    /// The length of the code for `cs` from the cleared state, where it
    /// compiles (and, with `closed`, leaves no loop open).
    fn reserve_len(&self, cs: &Vec<char>, closed: bool) -> (r: Option<usize>)
        requires
            self.spec_jpa() <= 10,
        ensures
            r matches Some(n) ==> reserved_len(cs@, closed, self.spec_max_jump(), self.spec_jpa()) == Some(n as nat),
            r is None ==> reserved_len(cs@, closed, self.spec_max_jump(), self.spec_jpa()) is None,
    {
        proof { reveal(reserved_len); }
        let mut twin = self.cleared_twin();
        let e = twin.compile_chars_exec(cs);
        if e.is_some() { return None }
        if closed && twin.main_info.open_while.len() > 0 { return None }
        Some(twin.program.len())
    }
}

proof fn lemma_compile_chars_stops(v: CcView, cs: Seq<char>, i: int, mj: usize, j: nat)
    requires
        0 <= i <= cs.len(),
        compile_chars(v, cs.take(i), mj, j).1 is Some,
    ensures
        compile_chars(v, cs, mj, j) == compile_chars(v, cs.take(i), mj, j),
    decreases cs.len() - i,
{
    reveal(compile_chars);
    if i < cs.len() {
        assert(cs.take(i + 1).drop_last() =~= cs.take(i));
        lemma_compile_chars_stops(v, cs, i + 1, mj, j);
    } else {
        assert(cs.take(i) =~= cs);
    }
}

impl StdCmdCompiler {
    fn one_char(c: char) -> (r: Vec<char>)
        ensures r@ == seq![c],
    {
        let mut r: Vec<char> = Vec::new();
        r.push(c);
        r
    }

    /// The room for writing the space-efficient form of a number up to
    /// `max_x` into fresh cells; `None` where it cannot be counted.
    fn reserve_prog_space_cem_se_gen(&self, max_x: usize) -> (r: Option<usize>)
        requires
            self.spec_jpa() <= 10,
        ensures
            r matches Some(n) ==> se_gen_len(max_x, self.spec_max_jump(), self.spec_jpa()) == Some(n as nat),
            r is None ==> (se_gen_len(max_x, self.spec_max_jump(), self.spec_jpa()) matches Some(n) ==> n > usize::MAX),
    {
        let nullify_len = self.reserve_len(&Self::one_char(ValidCMD::ZeroedCell.std_to_char()), false);
        let se_byte_len = std_se_encoding(max_x).len();
        let set_max = crate::compiler::code_gen::code_gen::cgen_set_cell_max_cmds();
        let one_byte_set_len = self.reserve_len(&crate::general::text::str_to_chars(set_max.as_str()), true);
        let cell_shift_len = self.reserve_len(&Self::one_char(ValidCMD::NextCell.std_to_char()), false);
        match (nullify_len, one_byte_set_len, cell_shift_len) {
            (Some(a), Some(b), Some(c)) => {
                let m1 = se_byte_len.checked_mul(b);
                let m2 = (se_byte_len - 1).checked_mul(c);
                match (m1, m2) {
                    (Some(x), Some(y)) => {
                        match a.checked_add(x) {
                            Some(z) => z.checked_add(y),
                            None => {
                                assert(a + x + y > usize::MAX);
                                None
                            }
                        }
                    }
                    _ => {
                        proof {
                            if m1 is None {
                                assert(se_byte_len * b > usize::MAX);
                                assert(a + se_byte_len * b + (se_byte_len - 1) * c >= se_byte_len * b) by (nonlinear_arith)
                                    requires a >= 0, c >= 0, se_byte_len >= 1;
                            } else {
                                assert((se_byte_len - 1) * c > usize::MAX);
                                assert(a + se_byte_len * b + (se_byte_len - 1) * c >= (se_byte_len - 1) * c) by (nonlinear_arith)
                                    requires a >= 0, b >= 0, se_byte_len >= 1;
                            }
                        }
                        None
                    }
                }
            }
            _ => None,
        }
    }

    /// The room kept for setting up one port register; `None` where it
    /// cannot be counted.
    fn reserve_one_pr_init(&self) -> (r: Option<usize>)
        requires
            self.spec_jpa() <= 10,
            self.spec_max_port() >= 1,
        ensures
            r matches Some(n) ==> pr_reserve_len(self.spec_max_jump(), self.spec_max_port(), self.spec_jpa()) == Some(n as nat),
            r is None ==> (pr_reserve_len(self.spec_max_jump(), self.spec_max_port(), self.spec_jpa()) matches Some(n) ==> n > usize::MAX),
    {
        let first_sh = self.reserve_len(&Self::one_char(ValidCMD::NextCell.std_to_char()), false);
        let se_gen = self.reserve_prog_space_cem_se_gen(self.main_info.get_max_port_amount() - 1);
        let to_start_s = crate::compiler::code_gen::code_gen::cgen_move_to_next_after_left_zero();
        let to_start = self.reserve_len(&crate::general::text::str_to_chars(to_start_s.as_str()), true);
        let cur_and_set = StdCmdNames::Cur(MAX_PR).to_u8_seq().len() + StdCmdNames::SetPort.to_u8_seq().len();
        let to_end_s = crate::compiler::code_gen::code_gen::cgen_move_to_prev_before_right_zero();
        let to_end = self.reserve_len(&crate::general::text::str_to_chars(to_end_s.as_str()), true);
        let clear_s = crate::compiler::code_gen::code_gen::cgen_zero_while_not_zero();
        let clear = self.reserve_len(&crate::general::text::str_to_chars(clear_s.as_str()), true);
        match (first_sh, se_gen, to_start, to_end, clear) {
            (Some(a), Some(b), Some(c), Some(d), Some(e)) => {
                let t1 = match a.checked_add(b) { Some(t) => t, None => { return None } };
                let t2 = match t1.checked_add(c) { Some(t) => t, None => { return None } };
                let t3 = match t2.checked_add(cur_and_set) { Some(t) => t, None => { return None } };
                let t4 = match t3.checked_add(d) { Some(t) => t, None => { return None } };
                t4.checked_add(e)
            }
            _ => None,
        }
    }

    /// The compiler for a machine with `hardware_info`'s limits, where it
    /// can be made (see `std_cc_can_init`): its program starts with room
    /// for setting up the console's and the screen's port registers, then
    /// selects the user's port.
    pub fn new(hardware_info: &HardwareInfo) -> (r: Self)
        requires
            std_cc_can_init(hardware_info.max_port_amount, hardware_info.max_jump_size),
        ensures
            r.wf(),
            r.cc_view() == (CcView {
                program: initial_program(r.spec_reserve_sz() as nat),
                cur_pr: USER_PR,
                cem_in_reg: false,
                open_while: Seq::empty(),
            }),
            r.spec_reserve_sz() as nat == pr_reserve_len(hardware_info.max_jump_size, hardware_info.max_port_amount,
                jpa(hardware_info.max_jump_size))->0,
            r.spec_max_jump() == hardware_info.max_jump_size,
            r.spec_max_port() == hardware_info.max_port_amount,
            r.spec_jpa() == jpa(hardware_info.max_jump_size),
            r.spec_prepared() == seq![false, false, true, true],
    {
        match Self::try_new(hardware_info) {
            Some(r) => r,
            None => {
                assert(false);
                Self::try_new(hardware_info).unwrap()
            }
        }
    }

    /// The compiler for a machine with `hardware_info`'s limits; `None`
    /// exactly where it cannot be made.
    pub fn try_new(hardware_info: &HardwareInfo) -> (r: Option<Self>)
        ensures
            r is Some <==> std_cc_can_init(hardware_info.max_port_amount, hardware_info.max_jump_size),
            r matches Some(c) ==> {
                &&& c.wf()
                &&& c.cc_view() == (CcView {
                    program: initial_program(c.spec_reserve_sz() as nat),
                    cur_pr: USER_PR,
                    cem_in_reg: false,
                    open_while: Seq::empty(),
                })
                &&& c.spec_reserve_sz() as nat == pr_reserve_len(hardware_info.max_jump_size, hardware_info.max_port_amount,
                    jpa(hardware_info.max_jump_size))->0
                &&& c.spec_max_jump() == hardware_info.max_jump_size
                &&& c.spec_max_port() == hardware_info.max_port_amount
                &&& c.spec_jpa() == jpa(hardware_info.max_jump_size)
                &&& c.spec_prepared() == seq![false, false, true, true]
            },
    {
        if hardware_info.max_port_amount < MIN_PORT_AMOUNT { return None }
        let mut ret = Self {
            program: Vec::new(),
            main_info: SdmCcMainInfo::new(hardware_info.max_port_amount, hardware_info.max_jump_size),
            inner_info: StdCcAditionalInfo::new(),
            fed: Ghost(Seq::empty()),
        };
        let j = ret.get_jump_pass_amount();
        proof {
            crate::general::se_fn::lemma_se_encode_len_bound(hardware_info.max_jump_size);
        }
        ret.inner_info.set_jump_pass_amount(j);
        let n = match ret.reserve_one_pr_init() { Some(n) => n, None => { return None } };
        if n >= (usize::MAX / 4 - 3) / 2 { return None }
        ret.inner_info.set_pr_reserve_sz(n);
        ret.program = ret.program_init();
        Some(ret)
    }

    /// The program's start: room for two port registers' set-up, then
    /// `CUR[0] SET`; the state becomes: user's port selected, nothing in
    /// the register, no open loop.
    fn program_init(&mut self) -> (r: Vec<u8>)
        requires
            2 * old(self).spec_reserve_sz() + 3 < usize::MAX / 4,
        ensures
            r@ == initial_program(old(self).spec_reserve_sz() as nat),
            final(self).cc_view() == (CcView { program: Seq::empty(), cur_pr: USER_PR, cem_in_reg: false, open_while: Seq::empty() }),
            final(self).same_cfg(old(self)),
    {
        self.program.clear();
        self.main_info.open_while.clear();
        let mut ret = self.reserve_initial_program_space();
        let mut c = StdCmdNames::Cur(0).to_u8_seq();
        ret.append(&mut c);
        let mut st = StdCmdNames::SetPort.to_u8_seq();
        ret.append(&mut st);
        self.cancel_pseudo(Some(0));
        assert(self.program@ =~= Seq::<u8>::empty());
        assert(self.main_info.open_while@ =~= Seq::<SdmCcOpenWhile>::empty());
        ret
    }

    /// Room for the set-up of the console's and the screen's port
    /// registers (the memories' are set by the machine, the user's needs
    /// none).
    fn reserve_initial_program_space(&self) -> (r: Vec<u8>)
        requires
            2 * self.spec_reserve_sz() < usize::MAX,
        ensures
            r@ == zeros(2 * self.spec_reserve_sz() as nat),
    {
        let one_pr_sz = self.inner_info.get_pr_reserve_sz();
        let total = one_pr_sz * 2;
        let mut initial_pass: Vec<u8> = Vec::new();
        let mut k: usize = 0;
        while k < total
            invariant
                k <= total,
                total == 2 * self.spec_reserve_sz(),
                initial_pass@ == zeros(k as nat),
            decreases total - k,
        {
            initial_pass.push(0x00);
            k = k + 1;
            assert(initial_pass@ =~= zeros(k as nat));
        }
        initial_pass
    }

    /// Forget what the compiler knew: port register `cur_port_reg` (or
    /// unknown), nothing in the register. There must be no program and no
    /// open loop.
    fn cancel_pseudo(&mut self, cur_port_reg: Option<usize>)
        requires
            old(self).cc_view().program.len() == 0,
            old(self).cc_view().open_while.len() == 0,
        ensures
            final(self).cc_view() == (CcView {
                program: old(self).cc_view().program,
                cur_pr: match cur_port_reg { Some(p) => p, None => INVALID_PR },
                cem_in_reg: false,
                open_while: old(self).cc_view().open_while,
            }),
            final(self).same_cfg(old(self)),
    {
        match cur_port_reg {
            Some(p) => self.main_info.set_cur_pr(p),
            None => self.main_info.set_cur_pr_invalid(),
        }
        self.main_info.cem_cur_cell_in_reg = false;
    }
}

impl StdCmdCompiler {
    fn other_error(text: &str) -> (r: CompilerErrorType)
        ensures r matches CompilerErrorType::Other(s) && s@ == text@,
    {
        let mut t = String::new();
        crate::general::text::string_push_str(&mut t, text);
        CompilerErrorType::Other(t)
    }

    /// Set up port register `pr` to `port_num` in its room at the start of
    /// the program; see `cgen_port_effect` (an error where that is `None`).
    fn cgen_set_port(&mut self, pr: &PrPrepared, port_num: usize) -> (r: Option<CompilerErrorType>)
        requires
            old(self).wf(),
        ensures
            final(self).wf(),
            final(self).same_cfg(old(self)),
            match cgen_port_effect(old(self).cc_view().program, *pr, port_num, old(self).spec_reserve_sz(),
                old(self).spec_max_jump(), old(self).spec_jpa()) {
                None => r is Some && *final(self) == *old(self),
                Some(p2) => r is None && final(self).cc_view() == (CcView { program: p2, cur_pr: old(self).cc_view().cur_pr,
                    cem_in_reg: old(self).cc_view().cem_in_reg, open_while: old(self).cc_view().open_while }),
            },
    {
        proof { reveal(cgen_port_effect); }
        if *pr == PrPrepared::MemCell || *pr == PrPrepared::MemCmd { return None }
        let ghost mj = self.spec_max_jump();
        let ghost j = self.spec_jpa();
        let mut twin = self.cleared_twin();
        let mut cg = String::new();
        crate::general::text::string_push(&mut cg, ValidCMD::NextCell.std_to_char());
        proof { crate::general::se_fn::lemma_se_encode_len_bound(port_num); }
        crate::compiler::code_gen::code_gen::add_cgen_init_se_cem(&mut cg, std_se_encoding(port_num), false);
        crate::compiler::code_gen::code_gen::add_cgen_move_to_next_after_left_zero(&mut cg);
        let cs1 = crate::general::text::str_to_chars(cg.as_str());
        assert(cs1@ =~= cgen_first(port_num));
        if twin.compile_chars_exec(&cs1).is_some() {
            return Some(Self::other_error("cant compile auto gen code"));
        }
        let ghost v1 = twin.cc_view();
        let len1 = twin.program.len();
        let mut bytes: Vec<u8> = Vec::new();
        let mut k: usize = 0;
        while k < len1
            invariant
                k <= len1,
                len1 == v1.program.len(),
                twin.program@ == v1.program,
                bytes@ == v1.program.take(k as int),
            decreases len1 - k,
        {
            bytes.push(twin.program[k]);
            k = k + 1;
            assert(bytes@ =~= v1.program.take(k as int));
        }
        assert(v1.program.take(len1 as int) =~= v1.program);
        let mut cg2 = String::new();
        crate::compiler::code_gen::code_gen::add_cgen_move_to_prev_before_right_zero(&mut cg2);
        crate::compiler::code_gen::code_gen::add_cgen_zero_while_not_zero(&mut cg2);
        let cs2 = crate::general::text::str_to_chars(cg2.as_str());
        assert(cs2@ =~= cgen_second());
        if twin.compile_chars_exec(&cs2).is_some() {
            return Some(Self::other_error("cant compile auto gen code"));
        }
        proof { lemma_compile_chars_grows(v1, cs2@, mj, j); }
        let cur = match pr {
            PrPrepared::Console => CONSOLE_PR,
            PrPrepared::Win => WIN_PR,
            PrPrepared::MemCell => MEM_CELL_PR,
            PrPrepared::MemCmd => MEM_CMD_PR,
        };
        let mut c = StdCmdNames::Cur(cur).to_u8_seq();
        bytes.append(&mut c);
        let mut st = StdCmdNames::SetPort.to_u8_seq();
        bytes.append(&mut st);
        let ghost mid = bytes@;
        let mut k: usize = len1;
        while k < twin.program.len()
            invariant
                len1 <= k <= twin.program@.len(),
                bytes@ == mid + twin.program@.subrange(len1 as int, k as int),
            decreases twin.program@.len() - k,
        {
            bytes.push(twin.program[k]);
            k = k + 1;
            assert(bytes@ =~= mid + twin.program@.subrange(len1 as int, k as int));
        }
        proof {
            assert(twin.program@.subrange(len1 as int, twin.program@.len() as int) =~= twin.program@.skip(len1 as int));
        }
        let sz = self.inner_info.get_pr_reserve_sz();
        if bytes.len() > sz {
            return Some(Self::other_error("[ALGO ERROR]: wrong reserved size counted"));
        }
        let idx = pr.to_index();
        assert(idx <= 1);
        let ghost p0 = self.program@;
        let ghost fill = bytes@ + zeros((sz - bytes@.len()) as nat);
        let mut k: usize = 0;
        while k < sz
            invariant
                k <= sz,
                idx <= 1,
                sz == self.spec_reserve_sz(),
                fill == bytes@ + zeros((sz - bytes@.len()) as nat),
                bytes@.len() <= sz,
                self.program@ == patch(p0, idx * sz, fill.take(k as int)),
                self.main_info == old(self).main_info,
                self.same_cfg(old(self)),
            decreases sz - k,
        {
            let b: u8 = if k < bytes.len() { bytes[k] } else { 0 };
            assert(b == fill[k as int]);
            let len = self.program.len();
            if idx * sz < len && k < len - idx * sz {
                self.program.set(idx * sz + k, b);
            }
            k = k + 1;
            assert(self.program@ =~= patch(p0, idx * sz, fill.take(k as int)));
        }
        assert(fill.take(sz as int) =~= fill);
        assert(self.program@.len() == old(self).program@.len());
        assert(self.cc_view().open_while == old(self).cc_view().open_while);
        None
    }
}

impl CmdCompiler<u8> for StdCmdCompiler {
    /// A well-formed state whose step on the character gives no error.
    open spec fn spec_takes(&self, cmd: char, pos: CompilerPos) -> bool {
        self.wf() && char_step(self.cc_view(), cmd, pos, self.spec_max_jump(), self.spec_jpa()).1 is None
    }

    closed spec fn spec_fed(&self) -> Seq<char> { self.fed@ }

    /// Compile the command of character `cmd` at `pos` (see `char_step`);
    /// a state that is not well formed (none is, from `new`) gives an
    /// error and is left.
    fn cmd_compile(&mut self, cmd: char, pos: CompilerPos) -> (r: Option<CompilerErrorType>)
        ensures
            final(self).same_cfg(old(self)),
            old(self).wf() ==> final(self).wf()
                && final(self).cc_view() == char_step(old(self).cc_view(), cmd, pos, old(self).spec_max_jump(), old(self).spec_jpa()).0
                && match char_step(old(self).cc_view(), cmd, pos, old(self).spec_max_jump(), old(self).spec_jpa()).1 {
                    None => r is None,
                    Some(k) => r matches Some(e) && err_matches(e, k),
                },
            !old(self).wf() ==> r is Some && final(self).cc_view() == old(self).cc_view(),
            r is None ==> final(self).spec_fed() == old(self).spec_fed().push(cmd),
    {
        if !self.check_wf() { return Some(Self::other_error("broken compiler state")) }
        let ghost f = self.fed@;
        let r = self.compile_one_char(cmd, pos);
        self.fed = Ghost(if r is None { f.push(cmd) } else { f });
        r
    }

    /// The program: the register's value goes back to its cell first; an
    /// error with the places of the loops left open, if any.
    fn get_program(self) -> (r: Result<Vec<u8>, CompilerErrorType>)
        ensures
            ({
                let v2 = v_unload(self.cc_view());
                if v2.open_while.len() > 0 {
                    r matches Err(CompilerErrorType::NotClosedWhile(ps)) && ps@ == v2.open_while.map_values(|w: SdmCcOpenWhile| w.compiler_pos)
                } else {
                    r matches Ok(p) && p@ == v2.program
                }
            }),
    {
        let mut me = self;
        me.ctb_unload_cur_cem();
        if me.main_info.open_while.len() > 0 {
            let mut ps: Vec<CompilerPos> = Vec::new();
            let mut i: usize = 0;
            while i < me.main_info.open_while.len()
                invariant
                    i <= me.main_info.open_while@.len(),
                    ps@ == me.main_info.open_while@.take(i as int).map_values(|w: SdmCcOpenWhile| w.compiler_pos),
                decreases me.main_info.open_while@.len() - i,
            {
                ps.push(me.main_info.open_while[i].compiler_pos);
                i = i + 1;
                assert(ps@ =~= me.main_info.open_while@.take(i as int).map_values(|w: SdmCcOpenWhile| w.compiler_pos));
            }
            assert(me.main_info.open_while@.take(i as int) =~= me.main_info.open_while@);
            Err(CompilerErrorType::NotClosedWhile(ps))
        } else {
            Ok(me.program)
        }
    }
}

impl StdCmdCompiler {
    /// Take one port name; see `port_step`.
    fn handle_one_port(&mut self, name: &String, port_num: usize) -> (r: Option<CompilerErrorType>)
        requires
            old(self).wf(),
        ensures
            final(self).wf(),
            final(self).spec_max_jump() == old(self).spec_max_jump(),
            final(self).spec_max_port() == old(self).spec_max_port(),
            final(self).spec_jpa() == old(self).spec_jpa(),
            final(self).spec_reserve_sz() == old(self).spec_reserve_sz(),
            final(self).cc_view().cur_pr == old(self).cc_view().cur_pr,
            final(self).cc_view().cem_in_reg == old(self).cc_view().cem_in_reg,
            final(self).cc_view().open_while == old(self).cc_view().open_while,
            ({
                let st = port_step(old(self).cc_view().program, old(self).spec_prepared(), name@, port_num,
                    old(self).spec_reserve_sz(), old(self).spec_max_port(), old(self).spec_max_jump(), old(self).spec_jpa());
                &&& r is Some <==> st.2
                &&& !st.2 ==> final(self).cc_view().program == st.0 && final(self).spec_prepared() == st.1
                &&& st.2 ==> final(self).cc_view().program == old(self).cc_view().program
                    && final(self).spec_prepared() == old(self).spec_prepared()
                    && st.0 == old(self).cc_view().program && st.1 == old(self).spec_prepared()
            }),
    {
        match PrPrepared::from_name(name.as_str()) {
            Some(x) => {
                if port_num >= self.main_info.get_max_port_amount() {
                    return Some(Self::other_error("too big port num"));
                }
                match self.cgen_set_port(&x, port_num) {
                    Some(e) => { return Some(e); }
                    None => {}
                }
                self.inner_info.set_prepared(x);
                None
            }
            None => None,
        }
    }
}

impl PortNameHandler for StdCmdCompiler {
    /// Whether a port register is still to be set up.
    fn need_port_name_handle(&self) -> (r: bool)
        ensures
            r == !(forall|i: int| 0 <= i < PREPARED_PRS ==> #[trigger] self.spec_prepared()[i]),
    {
        let b = self.inner_info.is_all_prepared();
        assert(self.spec_prepared() == self.inner_info.spec_prepared());
        !b
    }

    /// Set up the port registers of the known devices among the port names
    /// (see `port_run`); an error for a port that does not exist, and for
    /// a state that is not well formed (none is, from `new`).
    fn port_name_handle(&mut self, port_names: &Vec<(String, usize)>) -> (r: Option<CompilerErrorType>)
        ensures
            old(self).wf() ==> ({
                let run = port_run(old(self).cc_view().program, old(self).spec_prepared(), port_names@,
                    old(self).spec_reserve_sz(), old(self).spec_max_port(), old(self).spec_max_jump(), old(self).spec_jpa());
                &&& r is Some <==> run.2
                &&& final(self).cc_view().program == run.0
                &&& final(self).spec_prepared() == run.1
                &&& final(self).cc_view().cur_pr == old(self).cc_view().cur_pr
                &&& final(self).cc_view().cem_in_reg == old(self).cc_view().cem_in_reg
                &&& final(self).cc_view().open_while == old(self).cc_view().open_while
            }),
            !old(self).wf() ==> r is Some,
    {
        if !self.check_wf() { return Some(Self::other_error("broken compiler state")) }
        let ghost v0 = self.cc_view();
        let mut i: usize = 0;
        while i < port_names.len()
            invariant
                i <= port_names@.len(),
                self.wf(),
                self.spec_max_jump() == old(self).spec_max_jump(),
                self.spec_max_port() == old(self).spec_max_port(),
                self.spec_jpa() == old(self).spec_jpa(),
                self.spec_reserve_sz() == old(self).spec_reserve_sz(),
                self.cc_view().cur_pr == v0.cur_pr,
                self.cc_view().cem_in_reg == v0.cem_in_reg,
                self.cc_view().open_while == v0.open_while,
                v0 == old(self).cc_view(),
                port_run(v0.program, old(self).spec_prepared(), port_names@.take(i as int), old(self).spec_reserve_sz(),
                    old(self).spec_max_port(), old(self).spec_max_jump(), old(self).spec_jpa())
                    == (self.cc_view().program, self.spec_prepared(), false),
            decreases port_names@.len() - i,
        {
            assert(port_names@.take(i as int + 1).drop_last() =~= port_names@.take(i as int));
            assert(port_names@.take(i as int + 1).last() == port_names@[i as int]);
            let port_num = port_names[i].1;
            let r = self.handle_one_port(&port_names[i].0, port_num);
            if r.is_some() {
                proof { lemma_port_run_stops(v0.program, old(self).spec_prepared(), port_names@, i as int + 1,
                    old(self).spec_reserve_sz(), old(self).spec_max_port(), old(self).spec_max_jump(), old(self).spec_jpa()); }
                return r;
            }
            i = i + 1;
        }
        assert(port_names@.take(port_names@.len() as int) =~= port_names@);
        None
    }
}

proof fn lemma_step_grows(v: CcView, c: char, pos: CompilerPos, mj: usize, j: nat)
    ensures
        char_step(v, c, pos, mj, j).0.program.len() >= v.program.len(),
{
    reveal(cmd_step);
}

proof fn lemma_compile_chars_grows(v: CcView, cs: Seq<char>, mj: usize, j: nat)
    ensures
        compile_chars(v, cs, mj, j).0.program.len() >= v.program.len(),
    decreases cs.len(),
{
    reveal(compile_chars);
    if cs.len() > 0 {
        lemma_compile_chars_grows(v, cs.drop_last(), mj, j);
        let r = compile_chars(v, cs.drop_last(), mj, j);
        lemma_step_grows(r.0, cs.last(), CompilerPos::new_spec(), mj, j);
    }
}

proof fn lemma_port_run_stops(p: Seq<u8>, prep: Seq<bool>, names: Seq<(String, usize)>, i: int, sz: usize, mp: usize, mj: usize, j: nat)
    requires
        0 <= i <= names.len(),
        port_run(p, prep, names.take(i), sz, mp, mj, j).2,
    ensures
        port_run(p, prep, names, sz, mp, mj, j) == port_run(p, prep, names.take(i), sz, mp, mj, j),
    decreases names.len() - i,
{
    if i < names.len() {
        assert(names.take(i + 1).drop_last() =~= names.take(i));
        lemma_port_run_stops(p, prep, names, i + 1, sz, mp, mj, j);
    } else {
        assert(names.take(i) =~= names);
    }
}

// [-] the standard command compiler
// ---------------------------------------------------------------------

// ---------------------------------------------------------------------
// [+] laws

proof fn lemma_jump_prefix(v: CcView, a: CmdMemDevStartAction)
    ensures
        jump_prefix(v, a).program.len() <= v.program.len() + 800,
        jump_prefix(v, a).open_while == v.open_while,
        jump_prefix(v, a).program.take(v.program.len() as int) == v.program,
{
    let va = v_unload(v);
    let vb = v_set_pr(va, MEM_CMD_PR);
    let vc = v_const_write(vb, spec_cmd_action_byte(a));
    let vd = v_load(vc);
    let ve = v_set_pr(vd, MEM_CMD_PR);
    lemma_step_lens(v, MEM_CELL_PR, 0);
    lemma_step_lens(va, MEM_CMD_PR, spec_cmd_action_byte(a));
    lemma_step_lens(vb, MEM_CMD_PR, spec_cmd_action_byte(a));
    lemma_step_lens(vc, MEM_CMD_PR, 0);
    lemma_step_lens(vd, MEM_CMD_PR, 0);
    assert(jump_prefix(v, a).program.take(v.program.len() as int) =~= v.program);
}

/// A loop start opens one loop and leaves the program before it as it
/// was; a loop end right after it closes that loop again, so the open
/// loops are as before; the end fails only where its jump is too long.
pub proof fn law_loop_start_then_end(v: CcView, pos: CompilerPos, mj: usize, j: nat)
    requires
        v.program.len() + 2000 < program_limit(),
        j <= 10,
    ensures
        ({
            let s1 = cmd_step(v, ValidCMD::StartWhileNZ, pos, mj, j);
            let s2 = cmd_step(s1.0, ValidCMD::EndWhileNZ, pos, mj, j);
            &&& s1.1 is None
            &&& s1.0.open_while == v.open_while.push(SdmCcOpenWhile { compiler_pos: pos, cmd_pos: s1.0.open_while.last().cmd_pos })
            &&& s1.0.program.take(v.program.len() as int) == v.program
            &&& s2.0.open_while == v.open_while
            &&& (s2.1 is None || s2.1 == Some(CcErr::TooBigJump))
        }),
{
    reveal(cmd_step);
    lemma_jump_prefix(v, CmdMemDevStartAction::JumpForward);
    let v1 = jump_prefix(v, CmdMemDevStartAction::JumpForward);
    let s1 = cmd_step(v, ValidCMD::StartWhileNZ, pos, mj, j);
    assert(s1.0 == start_while_step(v, pos, j));
    assert(s1.0.program.len() == v1.program.len() + j);
    assert(s1.0.program.take(v.program.len() as int) =~= v.program) by {
        assert(s1.0.program == v1.program + zeros(j));
        assert forall|k: int| 0 <= k < v.program.len() implies s1.0.program[k] == v.program[k] by {
            assert(v1.program.take(v.program.len() as int)[k] == v1.program[k]);
        }
    }
    assert(s1.0.open_while =~= v.open_while.push(SdmCcOpenWhile { compiler_pos: pos, cmd_pos: s1.0.open_while.last().cmd_pos }));
    lemma_jump_prefix(s1.0, CmdMemDevStartAction::JumpBackward);
    let w1 = jump_prefix(s1.0, CmdMemDevStartAction::JumpBackward);
    assert(w1.open_while.drop_last() =~= v.open_while);
}

// [-] laws
// ---------------------------------------------------------------------

}
