use vstd::prelude::*;
use crate::dev_emulators::std_dev::StdDevName;
use crate::dev_emulators::dev_utilities::win_dev::{WinDevStartAction, spec_win_action_byte};
use crate::dev_emulators::dev_utilities::mem_dev::{
    CellMemDevStartAction, CmdMemDevStartAction, spec_cell_action_byte, spec_cmd_action_byte,
};
use crate::general::se_fn::{std_se_decoding, se_decode, se_decode_in_range, first_small, lemma_first_small_props, se_limit, se_max_len};
use crate::general::text::{spec_decimal, usize_to_string, string_push_str, string_push};
use crate::compiler::code_gen::code_gen::{spec_set_cell_cmds, eval_cell, set_cell_bits, pow2, lemma_set_cell_bits_len, lemma_set_cell_value_result};

verus! {

// ---------------------------------------------------------------------
// [+] devices by port

/// The device on port `pr`, by the last entry with that port.
pub open spec fn pr_dev(devs: Seq<(StdDevName, usize)>, pr: usize) -> Option<StdDevName>
    decreases devs.len(),
{
    if devs.len() == 0 {
        None
    } else if devs.last().1 == pr {
        Some(devs.last().0)
    } else {
        pr_dev(devs.drop_last(), pr)
    }
}

pub open spec fn has_dev(devs: Seq<(StdDevName, usize)>, d: StdDevName) -> bool {
    exists|i: int| 0 <= i < devs.len() && (#[trigger] devs[i]).0 == d
}

pub open spec fn has_port(devs: Seq<(StdDevName, usize)>, p: usize) -> bool {
    exists|i: int| 0 <= i < devs.len() && (#[trigger] devs[i]).1 == p
}

/// No device and no port is in two entries.
pub open spec fn devs_unique(devs: Seq<(StdDevName, usize)>) -> bool {
    forall|i: int, j: int| #![trigger devs[i], devs[j]] 0 <= i < j < devs.len() ==> devs[i].0 != devs[j].0 && devs[i].1 != devs[j].1
}

/// The port of each device that the disassembler names.
pub struct StdDisasmInfo {
    devs: Vec<(StdDevName, usize)>,
}

impl StdDisasmInfo {
    /// The (device, port) entries, in the order they were added.
    pub closed spec fn spec_devs(&self) -> Seq<(StdDevName, usize)> {
        self.devs@
    }

    pub closed spec fn wf(&self) -> bool {
        devs_unique(self.devs@)
    }

    pub fn new() -> (r: Self)
        ensures
            r.wf(),
            r.spec_devs() == Seq::<(StdDevName, usize)>::empty(),
    {
        Self { devs: Vec::new() }
    }

    /// The standard ports: cell memory 1, command memory 2, console 3,
    /// window 4. None of these devices or ports may be in use yet.
    pub fn std_init(&mut self)
        requires
            old(self).wf(),
            !has_dev(old(self).spec_devs(), StdDevName::CellMem),
            !has_dev(old(self).spec_devs(), StdDevName::CmdMem),
            !has_dev(old(self).spec_devs(), StdDevName::Console),
            !has_dev(old(self).spec_devs(), StdDevName::Win),
            !has_port(old(self).spec_devs(), 1),
            !has_port(old(self).spec_devs(), 2),
            !has_port(old(self).spec_devs(), 3),
            !has_port(old(self).spec_devs(), 4),
        ensures
            final(self).wf(),
            final(self).spec_devs() == old(self).spec_devs()
                + seq![(StdDevName::CellMem, 1usize), (StdDevName::CmdMem, 2usize), (StdDevName::Console, 3usize), (StdDevName::Win, 4usize)],
    {
        let ghost d0 = self.spec_devs();
        self.add_dev_to_pr(StdDevName::CellMem, 0x01);
        let ghost d1 = self.spec_devs();
        assert(!has_dev(d1, StdDevName::CmdMem)) by { if has_dev(d1, StdDevName::CmdMem) { let i = choose|i: int| 0 <= i < d1.len() && (#[trigger] d1[i]).0 == StdDevName::CmdMem; assert(d0[i].0 == StdDevName::CmdMem); } }
        assert(!has_port(d1, 2)) by { if has_port(d1, 2) { let i = choose|i: int| 0 <= i < d1.len() && (#[trigger] d1[i]).1 == 2; assert(d0[i].1 == 2); } }
        self.add_dev_to_pr(StdDevName::CmdMem, 0x02);
        let ghost d2 = self.spec_devs();
        assert(!has_dev(d2, StdDevName::Console)) by { if has_dev(d2, StdDevName::Console) { let i = choose|i: int| 0 <= i < d2.len() && (#[trigger] d2[i]).0 == StdDevName::Console; assert(d0[i].0 == StdDevName::Console); } }
        assert(!has_port(d2, 3)) by { if has_port(d2, 3) { let i = choose|i: int| 0 <= i < d2.len() && (#[trigger] d2[i]).1 == 3; assert(d0[i].1 == 3); } }
        self.add_dev_to_pr(StdDevName::Console, 0x03);
        let ghost d3 = self.spec_devs();
        assert(!has_dev(d3, StdDevName::Win)) by { if has_dev(d3, StdDevName::Win) { let i = choose|i: int| 0 <= i < d3.len() && (#[trigger] d3[i]).0 == StdDevName::Win; assert(d0[i].0 == StdDevName::Win); } }
        assert(!has_port(d3, 4)) by { if has_port(d3, 4) { let i = choose|i: int| 0 <= i < d3.len() && (#[trigger] d3[i]).1 == 4; assert(d0[i].1 == 4); } }
        self.add_dev_to_pr(StdDevName::Win, 0x04);
        assert(self.spec_devs() =~= d0
            + seq![(StdDevName::CellMem, 1usize), (StdDevName::CmdMem, 2usize), (StdDevName::Console, 3usize), (StdDevName::Win, 4usize)]);
    }

    /// The entries (device, port).
    pub fn get_dev_to_pr(&self) -> (r: &Vec<(StdDevName, usize)>)
        ensures
            r@ == self.spec_devs(),
    {
        &self.devs
    }

    /// The entries the other way round: (port, device).
    pub fn get_pr_to_dev(&self) -> (r: Vec<(usize, StdDevName)>)
        ensures
            r@.len() == self.spec_devs().len(),
            forall|i: int| 0 <= i < r@.len() ==> #[trigger] r@[i] == (self.spec_devs()[i].1, self.spec_devs()[i].0),
    {
        let mut r: Vec<(usize, StdDevName)> = Vec::new();
        let mut i: usize = 0;
        while i < self.devs.len()
            invariant
                i <= self.devs@.len(),
                r@.len() == i,
                forall|k: int| 0 <= k < i ==> #[trigger] r@[k] == (self.devs@[k].1, self.devs@[k].0),
            decreases self.devs@.len() - i,
        {
            r.push((self.devs[i].1, self.devs[i].0));
            i = i + 1;
        }
        r
    }

    /// Put `dev` on port `port_reg`; neither may be in use yet.
    pub fn add_dev_to_pr(&mut self, dev: StdDevName, port_reg: usize)
        requires
            old(self).wf(),
            !has_dev(old(self).spec_devs(), dev),
            !has_port(old(self).spec_devs(), port_reg),
        ensures
            final(self).wf(),
            final(self).spec_devs() == old(self).spec_devs().push((dev, port_reg)),
    {
        let ghost d0 = self.devs@;
        self.devs.push((dev, port_reg));
        assert forall|i: int, j: int| 0 <= i < j < self.devs@.len() implies self.devs@[i].0 != self.devs@[j].0
            && self.devs@[i].1 != self.devs@[j].1 by {
            if j == d0.len() {
                assert(self.devs@[i] == d0[i]);
                if d0[i].0 == dev { assert(has_dev(d0, dev)); }
                if d0[i].1 == port_reg { assert(has_port(d0, port_reg)); }
            } else {
                assert(self.devs@[i] == d0[i]);
                assert(self.devs@[j] == d0[j]);
                assert(devs_unique(d0));
                assert(d0[i].0 != d0[j].0 && d0[i].1 != d0[j].1);
            }
        }
    }
}

// [-] devices by port
// ---------------------------------------------------------------------

// ---------------------------------------------------------------------
// [+] text of the disassembly

/// `CONST name = v` and a line break.
pub open spec fn const_line(name: Seq<char>, v: nat) -> Seq<char> {
    "CONST "@ + name + " = "@ + spec_decimal(v) + "\n"@
}

/// The name of a device's port.
pub open spec fn pr_name(d: StdDevName) -> Seq<char> {
    match d {
        StdDevName::Console => "CONSOLE_PR"@,
        StdDevName::Win => "WIN_PR"@,
        StdDevName::CmdMem => "COM_PR"@,
        StdDevName::CellMem => "CEM_PR"@,
    }
}

pub open spec fn win_byte(a: WinDevStartAction) -> nat { spec_win_action_byte(a) as nat }
pub open spec fn cell_byte(a: CellMemDevStartAction) -> nat { spec_cell_action_byte(a) as nat }
pub open spec fn cmd_byte(a: CmdMemDevStartAction) -> nat { spec_cmd_action_byte(a) as nat }

/// The named action `v` of device `d`, if it has a name.
pub open spec fn action_name(d: StdDevName, v: nat) -> Option<Seq<char>> {
    match d {
        StdDevName::Console => None,
        StdDevName::Win => {
            if v == win_byte(WinDevStartAction::DecCoordX) { Some("WIN_DEC_X"@) }
            else if v == win_byte(WinDevStartAction::DecCoordY) { Some("WIN_DEC_Y"@) }
            else if v == win_byte(WinDevStartAction::IncCoordX) { Some("WIN_INC_X"@) }
            else if v == win_byte(WinDevStartAction::IncCoordY) { Some("WIN_INC_Y"@) }
            else if v == win_byte(WinDevStartAction::RedrawWin) { Some("WIN_REDRAW"@) }
            else if v == win_byte(WinDevStartAction::SetWinValue) { Some("WIN_SET_VAL"@) }
            else { None }
        },
        StdDevName::CmdMem => {
            if v == cmd_byte(CmdMemDevStartAction::JumpForward) { Some("COM_JMP_F"@) }
            else if v == cmd_byte(CmdMemDevStartAction::JumpBackward) { Some("COM_JMP_B"@) }
            else { None }
        },
        StdDevName::CellMem => {
            if v == cell_byte(CellMemDevStartAction::GetCellValue) { Some("CEM_GET_VAL"@) }
            else if v == cell_byte(CellMemDevStartAction::SetCellValue) { Some("CEM_SET_VAL"@) }
            else if v == cell_byte(CellMemDevStartAction::PrevCell) { Some("CEM_PREV"@) }
            else if v == cell_byte(CellMemDevStartAction::NextCell) { Some("CEM_NEXT"@) }
            else if v == cell_byte(CellMemDevStartAction::CreateCell) { Some("CEM_CR"@) }
            else if v == cell_byte(CellMemDevStartAction::DeleteCell) { Some("CEM_DEL"@) }
            else { None }
        },
    }
}

/// The constants of one device on port `pr`: its port, then its named
/// actions.
pub open spec fn dev_header(d: StdDevName, pr: nat) -> Seq<char> {
    const_line(pr_name(d), pr) + match d {
        StdDevName::Console => Seq::<char>::empty(),
        StdDevName::Win =>
            const_line("WIN_DEC_X"@, win_byte(WinDevStartAction::DecCoordX))
            + const_line("WIN_DEC_Y"@, win_byte(WinDevStartAction::DecCoordY))
            + const_line("WIN_INC_X"@, win_byte(WinDevStartAction::IncCoordX))
            + const_line("WIN_INC_Y"@, win_byte(WinDevStartAction::IncCoordY))
            + const_line("WIN_REDRAW"@, win_byte(WinDevStartAction::RedrawWin))
            + const_line("WIN_SET_VAL"@, win_byte(WinDevStartAction::SetWinValue)),
        StdDevName::CmdMem =>
            const_line("COM_JMP_F"@, cmd_byte(CmdMemDevStartAction::JumpForward))
            + const_line("COM_JMP_B"@, cmd_byte(CmdMemDevStartAction::JumpBackward)),
        StdDevName::CellMem =>
            const_line("CEM_GET_VAL"@, cell_byte(CellMemDevStartAction::GetCellValue))
            + const_line("CEM_SET_VAL"@, cell_byte(CellMemDevStartAction::SetCellValue))
            + const_line("CEM_PREV"@, cell_byte(CellMemDevStartAction::PrevCell))
            + const_line("CEM_NEXT"@, cell_byte(CellMemDevStartAction::NextCell))
            + const_line("CEM_CR"@, cell_byte(CellMemDevStartAction::CreateCell))
            + const_line("CEM_DEL"@, cell_byte(CellMemDevStartAction::DeleteCell)),
    }
}

/// The constants of all devices, in the order of the entries.
pub open spec fn disasm_header(devs: Seq<(StdDevName, usize)>) -> Seq<char>
    decreases devs.len(),
{
    if devs.len() == 0 {
        Seq::empty()
    } else {
        disasm_header(devs.drop_last()) + dev_header(devs.last().0, devs.last().1 as nat)
    }
}

/// What the disassembler remembers between commands: whether it is inside
/// a `SWAP ... SWAP` pair, the value built there, whether a command in the
/// pair changed that value, whether no pair was closed yet, and the device
/// of the last `CUR`.
#[derive(Clone, Copy)]
pub struct DisasmState {
    pub swap: bool,
    pub swap_value: u8,
    pub it_is_swap_act: bool,
    pub first_swap: bool,
    pub cur_dev: Option<StdDevName>,
}

pub open spec fn init_state() -> DisasmState {
    DisasmState { swap: false, swap_value: 0, it_is_swap_act: false, first_swap: true, cur_dev: None }
}

/// The name of the value written by a `SWAP ... SWAP` pair.
pub open spec fn cwr_name(cur: Option<StdDevName>, v: u8) -> Seq<char> {
    match cur {
        Some(d) => match action_name(d, v as nat) {
            Some(n) => n,
            None => spec_decimal(v as nat),
        },
        None => spec_decimal(v as nat),
    }
}

pub open spec fn swap_note(first: bool) -> Seq<char> {
    if first {
        "     {*1}: if compiled by std compiler => this is CWR cmd ([C]onst [WR]ite)"@
    } else {
        "      (check {*1})"@
    }
}

pub open spec fn with_value(st: DisasmState, v: u8) -> DisasmState {
    if st.swap {
        DisasmState { swap: st.swap, swap_value: v, it_is_swap_act: true, first_swap: st.first_swap, cur_dev: st.cur_dev }
    } else {
        st
    }
}

pub open spec fn shl1(v: u8) -> u8 {
    if v >= 128 { ((v - 128) * 2) as u8 } else { (v * 2) as u8 }
}

pub open spec fn inc1(v: u8) -> u8 {
    if v == 255 { 0 } else { (v + 1) as u8 }
}

/// The text of one command other than `CUR`, and the state after it.
pub open spec fn cmd_step(cmd: u8, st: DisasmState) -> (Seq<char>, DisasmState) {
    if cmd == 0 { ("PASS"@, st) }
    else if cmd == 1 { ("TEST"@, st) }
    else if cmd == 3 { ("SET"@, st) }
    else if cmd == 4 { ("READ"@, st) }
    else if cmd == 5 { ("WR"@, st) }
    else if cmd == 6 {
        let sw = !st.swap;
        if sw {
            ("SWAP "@, DisasmState { swap: true, swap_value: st.swap_value, it_is_swap_act: true, first_swap: st.first_swap, cur_dev: st.cur_dev })
        } else {
            ("SWAP "@ + " ;; CWR["@ + cwr_name(st.cur_dev, st.swap_value) + "]"@ + swap_note(st.first_swap),
                DisasmState { swap: false, swap_value: st.swap_value, it_is_swap_act: st.it_is_swap_act, first_swap: false, cur_dev: st.cur_dev })
        }
    }
    else if cmd == 7 { ("TZ"@, st) }
    else if cmd == 8 { ("INC"@, with_value(st, inc1(st.swap_value))) }
    else if cmd == 9 { ("DEC"@, st) }
    else if cmd == 10 { ("LSH"@, with_value(st, shl1(st.swap_value))) }
    else if cmd == 11 { ("RSH"@, st) }
    else if cmd == 12 { ("AND"@, st) }
    else if cmd == 13 { ("BND"@, st) }
    else if cmd == 14 { ("ZER"@, with_value(st, 0)) }
    else { ("!["@ + spec_decimal(cmd as nat) + "]"@, st) }
}

/// The text of `CUR` to port `pr`, and the state after it.
pub open spec fn cur_step(pr: usize, st: DisasmState, devs: Seq<(StdDevName, usize)>) -> (Seq<char>, DisasmState) {
    match pr_dev(devs, pr) {
        Some(d) => ("CUR["@ + pr_name(d) + "]\n"@,
            DisasmState { swap: st.swap, swap_value: st.swap_value, it_is_swap_act: st.it_is_swap_act, first_swap: st.first_swap, cur_dev: Some(d) }),
        None => ("CUR["@ + spec_decimal(pr as nat) + "]\n"@,
            DisasmState { swap: st.swap, swap_value: st.swap_value, it_is_swap_act: st.it_is_swap_act, first_swap: st.first_swap, cur_dev: None }),
    }
}

/// What ends each command: inside a pair that nothing changed, the pair
/// is given up with a note; then a space inside a pair, else a line break.
pub open spec fn finish_tail(st: DisasmState) -> Seq<char> {
    if st.swap && !st.it_is_swap_act {
        " ;; ! sorry, maybe they shouldn't be on the same line "@.push('\n')
    } else {
        seq![if st.swap { ' ' } else { '\n' }]
    }
}

/// The state once a command is ended.
pub open spec fn finish_state(st: DisasmState) -> DisasmState {
    if st.swap && !st.it_is_swap_act {
        DisasmState { swap: false, swap_value: st.swap_value, it_is_swap_act: st.it_is_swap_act, first_swap: st.first_swap, cur_dev: st.cur_dev }
    } else {
        st
    }
}

pub open spec fn finish(t: (Seq<char>, DisasmState)) -> (Seq<char>, DisasmState) {
    (t.0 + finish_tail(t.1), finish_state(t.1))
}

/// `t` before a result of the rest.
pub open spec fn prefix_with(t: Seq<char>, r: Option<Result<Seq<char>, Seq<char>>>) -> Option<Result<Seq<char>, Seq<char>>> {
    match r {
        None => None,
        Some(Err(e)) => Some(Err(e)),
        Some(Ok(u)) => Some(Ok(t + u)),
    }
}

/// The disassembly of the commands `bs` from state `st`: `None` where a
/// `CUR` number is too long for the decoder; an error where the program
/// ends inside a `CUR` number or the number cannot be decoded.
pub open spec fn disasm_body(bs: Seq<u8>, st: DisasmState, devs: Seq<(StdDevName, usize)>) -> Option<Result<Seq<char>, Seq<char>>>
    decreases bs.len(),
{
    if bs.len() == 0 {
        Some(Ok(Seq::empty()))
    } else if bs[0] == 2 {
        let rest = bs.drop_first();
        let k: int = first_small(rest) as int;
        if k >= rest.len() {
            Some(Err("program ended on CUR"@))
        } else {
            let se = rest.take(k + 1);
            if !se_decode_in_range(se) {
                None
            } else {
                match se_decode(se) {
                    None => Some(Err("bad se seq in CUR"@)),
                    Some(pr) => {
                        let t = finish(cur_step(pr, st, devs));
                        prefix_with(t.0, disasm_body(rest.skip(k + 1), t.1, devs))
                    },
                }
            }
        }
    } else {
        let t = finish(cmd_step(bs[0], st));
        prefix_with(t.0, disasm_body(bs.drop_first(), t.1, devs))
    }
}

// [-] text of the disassembly
// ---------------------------------------------------------------------

// ---------------------------------------------------------------------
// [+] disassembler

fn push_const_line(out: &mut String, name: &str, v: usize)
    ensures
        final(out)@ == old(out)@ + const_line(name@, v as nat),
{
    string_push_str(out, "CONST ");
    string_push_str(out, name);
    string_push_str(out, " = ");
    let n = usize_to_string(v);
    string_push_str(out, n.as_str());
    string_push_str(out, "\n");
    assert(out@ =~= old(out)@ + const_line(name@, v as nat));
}

#[verifier::rlimit(40)]
fn push_dev_header(out: &mut String, d: StdDevName, pr: usize)
    ensures
        final(out)@ == old(out)@ + dev_header(d, pr as nat),
{
    match d {
        StdDevName::Console => {
            push_const_line(out, "CONSOLE_PR", pr);
            assert(out@ =~= old(out)@ + dev_header(d, pr as nat));
        }
        StdDevName::Win => {
            push_const_line(out, "WIN_PR", pr);
            let ghost a = out@;
            push_const_line(out, "WIN_DEC_X", WinDevStartAction::DecCoordX.to_byte() as usize);
            push_const_line(out, "WIN_DEC_Y", WinDevStartAction::DecCoordY.to_byte() as usize);
            push_const_line(out, "WIN_INC_X", WinDevStartAction::IncCoordX.to_byte() as usize);
            push_const_line(out, "WIN_INC_Y", WinDevStartAction::IncCoordY.to_byte() as usize);
            push_const_line(out, "WIN_REDRAW", WinDevStartAction::RedrawWin.to_byte() as usize);
            push_const_line(out, "WIN_SET_VAL", WinDevStartAction::SetWinValue.to_byte() as usize);
            assert(out@ =~= old(out)@ + dev_header(d, pr as nat));
        }
        StdDevName::CmdMem => {
            push_const_line(out, "COM_PR", pr);
            push_const_line(out, "COM_JMP_F", CmdMemDevStartAction::JumpForward.to_byte() as usize);
            push_const_line(out, "COM_JMP_B", CmdMemDevStartAction::JumpBackward.to_byte() as usize);
            assert(out@ =~= old(out)@ + dev_header(d, pr as nat));
        }
        StdDevName::CellMem => {
            push_const_line(out, "CEM_PR", pr);
            push_const_line(out, "CEM_GET_VAL", CellMemDevStartAction::GetCellValue.to_byte() as usize);
            push_const_line(out, "CEM_SET_VAL", CellMemDevStartAction::SetCellValue.to_byte() as usize);
            push_const_line(out, "CEM_PREV", CellMemDevStartAction::PrevCell.to_byte() as usize);
            push_const_line(out, "CEM_NEXT", CellMemDevStartAction::NextCell.to_byte() as usize);
            push_const_line(out, "CEM_CR", CellMemDevStartAction::CreateCell.to_byte() as usize);
            push_const_line(out, "CEM_DEL", CellMemDevStartAction::DeleteCell.to_byte() as usize);
            assert(out@ =~= old(out)@ + dev_header(d, pr as nat));
        }
    }
}

fn pr_dev_exec(devs: &Vec<(StdDevName, usize)>, pr: usize) -> (r: Option<StdDevName>)
    ensures
        r == pr_dev(devs@, pr),
{
    let mut found: Option<StdDevName> = None;
    let mut i: usize = 0;
    while i < devs.len()
        invariant
            i <= devs@.len(),
            found == pr_dev(devs@.take(i as int), pr),
        decreases devs@.len() - i,
    {
        assert(devs@.take(i as int + 1).drop_last() =~= devs@.take(i as int));
        if devs[i].1 == pr { found = Some(devs[i].0); }
        i = i + 1;
    }
    assert(devs@.take(devs@.len() as int) =~= devs@);
    found
}

fn action_name_exec(d: StdDevName, v: u8) -> (r: Option<&'static str>)
    ensures
        match action_name(d, v as nat) {
            Some(n) => r matches Some(x) && x@ == n,
            None => r is None,
        },
{
    match d {
        StdDevName::Console => None,
        StdDevName::Win => {
            if v == WinDevStartAction::DecCoordX.to_byte() { Some("WIN_DEC_X") }
            else if v == WinDevStartAction::DecCoordY.to_byte() { Some("WIN_DEC_Y") }
            else if v == WinDevStartAction::IncCoordX.to_byte() { Some("WIN_INC_X") }
            else if v == WinDevStartAction::IncCoordY.to_byte() { Some("WIN_INC_Y") }
            else if v == WinDevStartAction::RedrawWin.to_byte() { Some("WIN_REDRAW") }
            else if v == WinDevStartAction::SetWinValue.to_byte() { Some("WIN_SET_VAL") }
            else { None }
        }
        StdDevName::CmdMem => {
            if v == CmdMemDevStartAction::JumpForward.to_byte() { Some("COM_JMP_F") }
            else if v == CmdMemDevStartAction::JumpBackward.to_byte() { Some("COM_JMP_B") }
            else { None }
        }
        StdDevName::CellMem => {
            if v == CellMemDevStartAction::GetCellValue.to_byte() { Some("CEM_GET_VAL") }
            else if v == CellMemDevStartAction::SetCellValue.to_byte() { Some("CEM_SET_VAL") }
            else if v == CellMemDevStartAction::PrevCell.to_byte() { Some("CEM_PREV") }
            else if v == CellMemDevStartAction::NextCell.to_byte() { Some("CEM_NEXT") }
            else if v == CellMemDevStartAction::CreateCell.to_byte() { Some("CEM_CR") }
            else if v == CellMemDevStartAction::DeleteCell.to_byte() { Some("CEM_DEL") }
            else { None }
        }
    }
}

fn push_cwr_name(out: &mut String, cur: Option<StdDevName>, v: u8)
    ensures
        final(out)@ == old(out)@ + cwr_name(cur, v),
{
    let named = match cur {
        Some(d) => action_name_exec(d, v),
        None => None,
    };
    match named {
        Some(n) => { string_push_str(out, n); }
        None => {
            let t = usize_to_string(v as usize);
            string_push_str(out, t.as_str());
        }
    }
}

fn pr_name_exec(d: StdDevName) -> (r: &'static str)
    ensures
        r@ == pr_name(d),
{
    match d {
        StdDevName::Console => "CONSOLE_PR",
        StdDevName::Win => "WIN_PR",
        StdDevName::CmdMem => "COM_PR",
        StdDevName::CellMem => "CEM_PR",
    }
}

fn with_value_exec(st: DisasmState, v: u8) -> (r: DisasmState)
    ensures
        r == with_value(st, v),
{
    if st.swap {
        DisasmState { swap: st.swap, swap_value: v, it_is_swap_act: true, first_swap: st.first_swap, cur_dev: st.cur_dev }
    } else {
        st
    }
}

/// The text of a command other than `CUR` (before its end).
fn cmd_text_exec(cmd: u8, st: DisasmState, out: &mut String) -> (r: DisasmState)
    requires
        cmd != 2,
    ensures
        final(out)@ == old(out)@ + cmd_step(cmd, st).0,
        r == cmd_step(cmd, st).1,
{
    if cmd == 0 { string_push_str(out, "PASS"); st }
    else if cmd == 1 { string_push_str(out, "TEST"); st }
    else if cmd == 3 { string_push_str(out, "SET"); st }
    else if cmd == 4 { string_push_str(out, "READ"); st }
    else if cmd == 5 { string_push_str(out, "WR"); st }
    else if cmd == 6 {
        string_push_str(out, "SWAP ");
        if !st.swap {
            DisasmState { swap: true, swap_value: st.swap_value, it_is_swap_act: true, first_swap: st.first_swap, cur_dev: st.cur_dev }
        } else {
            let ghost a = out@;
            string_push_str(out, " ;; CWR[");
            push_cwr_name(out, st.cur_dev, st.swap_value);
            string_push_str(out, "]");
            if st.first_swap {
                string_push_str(out, "     {*1}: if compiled by std compiler => this is CWR cmd ([C]onst [WR]ite)");
            } else {
                string_push_str(out, "      (check {*1})");
            }
            assert(out@ =~= old(out)@ + cmd_step(cmd, st).0);
            DisasmState { swap: false, swap_value: st.swap_value, it_is_swap_act: st.it_is_swap_act, first_swap: false, cur_dev: st.cur_dev }
        }
    }
    else if cmd == 7 { string_push_str(out, "TZ"); st }
    else if cmd == 8 {
        string_push_str(out, "INC");
        let v: u8 = if st.swap_value == 255 { 0 } else { st.swap_value + 1 };
        with_value_exec(st, v)
    }
    else if cmd == 9 { string_push_str(out, "DEC"); st }
    else if cmd == 10 {
        string_push_str(out, "LSH");
        let v: u8 = if st.swap_value >= 128 { (st.swap_value - 128) * 2 } else { st.swap_value * 2 };
        with_value_exec(st, v)
    }
    else if cmd == 11 { string_push_str(out, "RSH"); st }
    else if cmd == 12 { string_push_str(out, "AND"); st }
    else if cmd == 13 { string_push_str(out, "BND"); st }
    else if cmd == 14 { string_push_str(out, "ZER"); with_value_exec(st, 0) }
    else {
        string_push_str(out, "![");
        let t = usize_to_string(cmd as usize);
        string_push_str(out, t.as_str());
        string_push_str(out, "]");
        assert(out@ =~= old(out)@ + cmd_step(cmd, st).0);
        st
    }
}

/// The end of a command.
fn finish_exec(st: DisasmState, out: &mut String) -> (r: DisasmState)
    ensures
        final(out)@ == old(out)@ + finish_tail(st),
        r == finish_state(st),
{
    let mut st2 = st;
    if st.swap && !st.it_is_swap_act {
        st2 = DisasmState { swap: false, swap_value: st.swap_value, it_is_swap_act: st.it_is_swap_act, first_swap: st.first_swap, cur_dev: st.cur_dev };
        string_push_str(out, " ;; ! sorry, maybe they shouldn't be on the same line ");
    }
    string_push(out, if st2.swap { ' ' } else { '\n' });
    assert(out@ =~= old(out)@ + finish_tail(st));
    st2
}

proof fn lemma_prefix_with(a: Seq<char>, b: Seq<char>, x: Option<Result<Seq<char>, Seq<char>>>)
    ensures
        prefix_with(a, prefix_with(b, x)) == prefix_with(a + b, x),
{
    match x {
        Some(Ok(u)) => { assert(a + (b + u) =~= (a + b) + u); }
        _ => {}
    }
}

/// The first byte below `MIN_BIG_BYTE` in `s` is at `m` (or there is
/// none and `m` is the length).
proof fn lemma_first_small_at(s: Seq<u8>, m: int)
    requires
        0 <= m <= s.len(),
        forall|q: int| 0 <= q < m ==> s[q] >= 128,
        m < s.len() ==> s[m] < 128,
    ensures
        first_small(s) == m,
{
    lemma_first_small_props(s);
    let f = first_small(s) as int;
    if f < m { assert(s[f] >= 128); }
    if f > m { assert(s[m] >= 128); }
}

/// A readable text of a program of the standard command compiler: first
/// the constants of the devices in `disasm_info`, then one command a line
/// (a `SWAP ... SWAP` pair that builds a value on one line, with that
/// value). A program that ends inside a `CUR` number, or whose number
/// cannot be decoded, gives an error.
pub fn std_disasm(program: &[u8], disasm_info: &StdDisasmInfo) -> (r: Result<String, String>)
    requires
        disasm_body(program@, init_state(), disasm_info.spec_devs()) is Some,
    ensures
        match disasm_body(program@, init_state(), disasm_info.spec_devs()) {
            Some(Ok(t)) => r matches Ok(s) && s@ == disasm_header(disasm_info.spec_devs()) + t,
            Some(Err(e)) => r matches Err(s) && s@ == e,
            None => true,
        },
{
    let devs = disasm_info.get_dev_to_pr();
    let mut ret = String::new();
    let mut i: usize = 0;
    while i < devs.len()
        invariant
            i <= devs@.len(),
            ret@ == disasm_header(devs@.take(i as int)),
        decreases devs@.len() - i,
    {
        assert(devs@.take(i as int + 1).drop_last() =~= devs@.take(i as int));
        push_dev_header(&mut ret, devs[i].0, devs[i].1);
        i = i + 1;
    }
    assert(devs@.take(devs@.len() as int) =~= devs@);

    let ghost total = disasm_body(program@, init_state(), devs@);
    let mut body = String::new();
    let mut st = DisasmState { swap: false, swap_value: 0, it_is_swap_act: false, first_swap: true, cur_dev: None };
    assert(program@.skip(0) =~= program@);
    assert(body@ =~= Seq::<char>::empty());
    assert(total == prefix_with(body@, total)) by {
        match total { Some(Ok(u)) => { assert(body@ + u =~= u); } _ => {} }
    }
    let mut i: usize = 0;
    while i < program.len()
        invariant
            i <= program@.len(),
            total is Some,
            total == disasm_body(program@, init_state(), disasm_info.spec_devs()),
            devs@ == disasm_info.spec_devs(),
            total == prefix_with(body@, disasm_body(program@.skip(i as int), st, devs@)),
        decreases program@.len() - i,
    {
        let ghost s = program@.skip(i as int);
        let cmd = program[i];
        assert(s[0] == cmd);
        if cmd == 2 {
            let ghost rest = s.drop_first();
            let mut j: usize = i + 1;
            while j < program.len() && program[j] >= 128
                invariant
                    i + 1 <= j <= program@.len(),
                    forall|q: int| i + 1 <= q < j ==> program@[q] >= 128,
                decreases program@.len() - j,
            {
                j = j + 1;
            }
            assert(rest =~= program@.skip(i as int + 1));
            proof {
                lemma_first_small_at(rest, j - (i + 1));
            }
            if j >= program.len() {
                let mut e = String::new();
                string_push_str(&mut e, "program ended on CUR");
                return Err(e);
            }
            let mut se: Vec<u8> = Vec::new();
            let mut q: usize = i + 1;
            while q <= j
                invariant
                    i + 1 <= q <= j + 1,
                    j < program@.len(),
                    se@ == program@.subrange(i + 1, q as int),
                decreases j + 1 - q,
            {
                se.push(program[q]);
                q = q + 1;
                assert(se@ =~= program@.subrange(i + 1, q as int));
            }
            assert(se@ =~= rest.take(j - i));
            let pr = match std_se_decoding(se.as_slice()) {
                Some(pr) => pr,
                None => {
                    let mut e = String::new();
                    string_push_str(&mut e, "bad se seq in CUR");
                    return Err(e);
                }
            };
            let ghost before = body@;
            let ghost st0 = st;
            string_push_str(&mut body, "CUR[");
            match pr_dev_exec(devs, pr) {
                Some(d) => {
                    string_push_str(&mut body, pr_name_exec(d));
                    st = DisasmState { swap: st.swap, swap_value: st.swap_value, it_is_swap_act: st.it_is_swap_act, first_swap: st.first_swap, cur_dev: Some(d) };
                }
                None => {
                    let t = usize_to_string(pr);
                    string_push_str(&mut body, t.as_str());
                    st = DisasmState { swap: st.swap, swap_value: st.swap_value, it_is_swap_act: st.it_is_swap_act, first_swap: st.first_swap, cur_dev: None };
                }
            }
            string_push_str(&mut body, "]\n");
            assert(body@ =~= before + cur_step(pr, st0, devs@).0);
            assert(st == cur_step(pr, st0, devs@).1);
            let ghost mid = body@;
            st = finish_exec(st, &mut body);
            proof {
                let t = finish(cur_step(pr, st0, devs@));
                let k = j - (i + 1);
                assert(body@ =~= before + t.0);
                assert(rest.skip(k + 1) =~= program@.skip(j as int + 1));
                assert(disasm_body(s, st0, devs@) == prefix_with(t.0, disasm_body(rest.skip(k + 1), t.1, devs@)));
                lemma_prefix_with(before, t.0, disasm_body(rest.skip(k + 1), t.1, devs@));
            }
            i = j + 1;
        } else {
            let ghost before = body@;
            let ghost st0 = st;
            let st1 = cmd_text_exec(cmd, st, &mut body);
            st = finish_exec(st1, &mut body);
            proof {
                let t = finish(cmd_step(cmd, st0));
                assert(body@ =~= before + t.0);
                assert(s.drop_first() =~= program@.skip(i as int + 1));
                lemma_prefix_with(before, t.0, disasm_body(s.drop_first(), t.1, devs@));
            }
            i = i + 1;
        }
    }
    proof {
        assert(program@.skip(i as int) =~= Seq::<u8>::empty());
    }
    string_push_str(&mut ret, body.as_str());
    Ok(ret)
}

// [-] disassembler
// ---------------------------------------------------------------------

/// Whether every `CUR` number of `bs` that the disassembler decodes is
/// short enough for the decoder (it stops at the first that ends the
/// program or cannot be decoded).
pub open spec fn cur_in_range(bs: Seq<u8>) -> bool
    decreases bs.len(),
{
    if bs.len() == 0 {
        true
    } else if bs[0] == 2 {
        let rest = bs.drop_first();
        let k: int = first_small(rest) as int;
        if k >= rest.len() {
            true
        } else {
            se_decode_in_range(rest.take(k + 1))
                && (se_decode(rest.take(k + 1)) is None || cur_in_range(rest.skip(k + 1)))
        }
    } else {
        cur_in_range(bs.drop_first())
    }
}

proof fn lemma_body_some(bs: Seq<u8>, st: DisasmState, devs: Seq<(StdDevName, usize)>)
    ensures
        (disasm_body(bs, st, devs) is Some) == cur_in_range(bs),
    decreases bs.len(),
{
    if bs.len() > 0 {
        if bs[0] == 2 {
            let rest = bs.drop_first();
            let k: int = first_small(rest) as int;
            lemma_first_small_props(rest);
            if k < rest.len() && se_decode_in_range(rest.take(k + 1)) {
                match se_decode(rest.take(k + 1)) {
                    Some(pr) => {
                        let t = finish(cur_step(pr, st, devs));
                        lemma_body_some(rest.skip(k + 1), t.1, devs);
                    }
                    None => {}
                }
            }
        } else {
            let t = finish(cmd_step(bs[0], st));
            lemma_body_some(bs.drop_first(), t.1, devs);
        }
    }
}

/// Whether `std_disasm` can run on `program`: its `CUR` numbers are short
/// enough for the decoder.
pub fn std_disasm_can_run(program: &[u8], disasm_info: &StdDisasmInfo) -> (r: bool)
    ensures
        r == (disasm_body(program@, init_state(), disasm_info.spec_devs()) is Some),
{
    proof { lemma_body_some(program@, init_state(), disasm_info.spec_devs()); }
    assert(program@.skip(0) =~= program@);
    let mut i: usize = 0;
    while i < program.len()
        invariant
            i <= program@.len(),
            (disasm_body(program@, init_state(), disasm_info.spec_devs()) is Some)
                == cur_in_range(program@),
            cur_in_range(program@) == cur_in_range(program@.skip(i as int)),
        decreases program@.len() - i,
    {
        let ghost s = program@.skip(i as int);
        assert(s[0] == program@[i as int]);
        if program[i] == 2 {
            let ghost rest = s.drop_first();
            let mut j: usize = i + 1;
            while j < program.len() && program[j] >= 128
                invariant
                    i + 1 <= j <= program@.len(),
                    forall|q: int| i + 1 <= q < j ==> program@[q] >= 128,
                decreases program@.len() - j,
            {
                j = j + 1;
            }
            assert(rest =~= program@.skip(i as int + 1));
            proof { lemma_first_small_at(rest, j - (i + 1)); }
            if j >= program.len() {
                assert(cur_in_range(s));
                return true;
            }
            let n = j - i;
            let ghost se = rest.take(j - i);
            proof {
                lemma_first_small_props(se);
                assert forall|q: int| 0 <= q < j - i - 1 implies se[q] >= 128 by {
                    assert(se[q] == program@[i + 1 + q]);
                }
                assert(se[j - i - 1] == program@[j as int]);
                lemma_first_small_at(se, j - i - 1);
            }
            if n > se_max_len() {
                assert(!se_decode_in_range(se));
                assert(!cur_in_range(s));
                return false;
            }
            assert(se_decode_in_range(se));
            assert(se_decode(se) is Some);
            assert(rest.skip(j - i) =~= program@.skip(j as int + 1));
            i = j + 1;
        } else {
            assert(s.drop_first() =~= program@.skip(i as int + 1));
            i = i + 1;
        }
    }
    assert(program@.skip(i as int) =~= Seq::<u8>::empty());
    true
}

/// A program of commands without `CUR` always disassembles.
pub proof fn law_disasm_without_cur(bs: Seq<u8>, st: DisasmState,
    devs: Seq<(StdDevName, usize)>)
    requires
        forall|i: int| 0 <= i < bs.len() ==> bs[i] != 2,
    ensures
        disasm_body(bs, st, devs) matches Some(Ok(_)),
    decreases bs.len(),
{
    if bs.len() > 0 {
        let t = finish(cmd_step(bs[0], st));
        assert forall|i: int| 0 <= i < bs.drop_first().len() implies bs.drop_first()[i] != 2 by {
            assert(bs.drop_first()[i] == bs[i + 1]);
        }
        law_disasm_without_cur(bs.drop_first(), t.1, devs);
    }
}



// ---------------------------------------------------------------------
// [+] the constant tracked inside a SWAP pair

/// The state after the commands `cmds` (none of them `CUR`), one by one.
pub open spec fn run_steps(cmds: Seq<u8>, st: DisasmState) -> DisasmState
    decreases cmds.len(),
{
    if cmds.len() == 0 { st } else { cmd_step(cmds.last(), run_steps(cmds.drop_last(), st)).1 }
}

/// The register commands that build a constant: `INC` (`0x08`) for `+`,
/// `LSH` (`0x0A`) for `*`.
pub open spec fn reg_code(cs: Seq<char>) -> Seq<u8> {
    cs.map_values(|c: char| if c == '+' { 8u8 } else { 10u8 })
}

/// Law: inside a SWAP pair, `ZER` clears the tracked constant, `INC` adds
/// one and `LSH` doubles it (both modulo 256); the pair stays open.
pub proof fn lemma_swap_value_steps(st: DisasmState)
    requires
        st.swap,
    ensures
        cmd_step(14, st).1.swap_value == 0,
        cmd_step(8, st).1.swap_value as int == (st.swap_value as int + 1) % 256,
        cmd_step(10, st).1.swap_value as int == (st.swap_value as int * 2) % 256,
        cmd_step(14, st).1.swap && cmd_step(8, st).1.swap && cmd_step(10, st).1.swap,
        cmd_step(14, st).1.cur_dev == st.cur_dev && cmd_step(8, st).1.cur_dev == st.cur_dev
            && cmd_step(10, st).1.cur_dev == st.cur_dev,
        cmd_step(14, st).1.first_swap == st.first_swap && cmd_step(8, st).1.first_swap == st.first_swap
            && cmd_step(10, st).1.first_swap == st.first_swap,
{
}

proof fn lemma_run_reg_code(cs: Seq<char>, st: DisasmState)
    requires
        st.swap,
        forall|i: int| 0 <= i < cs.len() ==> cs[i] == '+' || cs[i] == '*',
    ensures
        run_steps(reg_code(cs), st).swap,
        run_steps(reg_code(cs), st).cur_dev == st.cur_dev,
        run_steps(reg_code(cs), st).first_swap == st.first_swap,
        run_steps(reg_code(cs), st).swap_value as nat == eval_cell(cs, st.swap_value as nat),
    decreases cs.len(),
{
    if cs.len() > 0 {
        let d = cs.drop_last();
        lemma_run_reg_code(d, st);
        assert(reg_code(cs).drop_last() =~= reg_code(d));
        let prev = run_steps(reg_code(d), st);
        lemma_swap_value_steps(prev);
        assert(cs[cs.len() - 1] == '+' || cs[cs.len() - 1] == '*');
    }
}

/// Law: a SWAP pair that clears the register and builds the byte `x` with
/// the cell-setting code (`SWAP ZER <code for x> SWAP`) is labelled with
/// the write of `x` to the device of the last `CUR`.
pub proof fn lemma_swap_pair_label(x: u8, st: DisasmState)
    requires
        !st.swap,
    ensures
        ({
            let inner = run_steps(seq![6u8, 14u8] + reg_code(spec_set_cell_cmds(x, false)), st);
            &&& inner.swap
            &&& inner.swap_value == x
            &&& cmd_step(6, inner).0 == "SWAP "@ + " ;; CWR["@ + cwr_name(st.cur_dev, x) + "]"@ + swap_note(st.first_swap)
        }),
{
    let cs = spec_set_cell_cmds(x, false);
    let head = seq![6u8, 14u8];
    let all = head + reg_code(cs);
    assert(seq![6u8].drop_last() =~= Seq::<u8>::empty());
    assert(head.drop_last() =~= seq![6u8]);
    let s1 = cmd_step(6, st).1;
    assert(seq![6u8].last() == 6u8);
    assert(run_steps(Seq::<u8>::empty(), st) == st);
    assert(run_steps(seq![6u8], st) == s1);
    assert(head.last() == 14u8);
    let s2 = cmd_step(14, s1).1;
    assert(run_steps(head, st) == s2);
    assert(s2.swap && s2.swap_value == 0 && s2.cur_dev == st.cur_dev && s2.first_swap == st.first_swap);
    lemma_run_concat(head, reg_code(cs), st);
    if x > 0 {
        assert(pow2(8) == 256) by { reveal_with_fuel(pow2, 9); }
        lemma_set_cell_bits_len(x as nat, 8);
        assert(cs == seq!['+'] + set_cell_bits(x as nat));
        assert forall|i: int| 0 <= i < cs.len() implies cs[i] == '+' || cs[i] == '*' by {
            if i >= 1 { assert(cs[i] == set_cell_bits(x as nat)[i - 1]); }
        }
    } else {
        assert(cs =~= Seq::<char>::empty());
    }
    lemma_run_reg_code(cs, s2);
    lemma_set_cell_value_result(x, 0);
}

proof fn lemma_run_concat(a: Seq<u8>, b: Seq<u8>, st: DisasmState)
    ensures
        run_steps(a + b, st) == run_steps(b, run_steps(a, st)),
    decreases b.len(),
{
    if b.len() == 0 {
        assert(a + b =~= a);
    } else {
        assert((a + b).drop_last() =~= a + b.drop_last());
        lemma_run_concat(a, b.drop_last(), st);
    }
}

// [-] the constant tracked inside a SWAP pair
// ---------------------------------------------------------------------

}
