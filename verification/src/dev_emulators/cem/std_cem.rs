use vstd::prelude::*;
use crate::dev_emulators::dev::Dev;
use crate::dev_emulators::dev_utilities::mem_dev::{CellMemDevStartAction, spec_cell_action_byte};
use crate::general::text::{push_chars, chars_to_string};
use super::cem_inner::{CemInner, print_cells_text, print_tail};

verus! {

/// The byte read when nothing can be read.
pub const DEFAULT: u8 = 0x00;

/// The sequential cell memory as a device on a port.
pub struct DevStdCem {
    cem_inner: CemInner,
    infinity: bool,
    error: bool,
    /// only `None`, or `Some` of `GetCellValue` or `SetCellValue`
    start_byte_seq: Option<CellMemDevStartAction>,
}

impl DevStdCem {
    pub closed spec fn inner(&self) -> CemInner { self.cem_inner }
    pub closed spec fn spec_infinity(&self) -> bool { self.infinity }
    pub closed spec fn spec_own_error(&self) -> bool { self.error }
    pub closed spec fn spec_pending(&self) -> Option<CellMemDevStartAction> { self.start_byte_seq }

    /// The device error: its own, or that of the memory.
    pub open spec fn spec_have_error(&self) -> bool {
        self.spec_own_error() || self.inner().spec_error()
    }

    /// Whether a byte `x` starts the request `action` now.
    pub open spec fn spec_starts(&self, x: u8, action: CellMemDevStartAction) -> bool {
        self.spec_pending() is None && x == spec_cell_action_byte(action)
    }

    /// What taking `byte` does when there is no error before.
    pub open spec fn after_write(self, new: Self, byte: u8) -> bool {
        if self.spec_starts(byte, CellMemDevStartAction::GetCellValue) {
            new.spec_pending() == Some(CellMemDevStartAction::GetCellValue)
            && new.inner() == self.inner() && new.spec_own_error() == self.spec_own_error()
        } else if self.spec_starts(byte, CellMemDevStartAction::SetCellValue) {
            new.spec_pending() == Some(CellMemDevStartAction::SetCellValue)
            && new.inner() == self.inner() && new.spec_own_error() == self.spec_own_error()
        } else if self.spec_pending() == Some(CellMemDevStartAction::SetCellValue) {
            &&& new.spec_pending() is None
            &&& new.spec_own_error() == self.spec_own_error()
            &&& self.inner().wf() ==> {
                &&& new.inner().wf()
                &&& new.inner().spec_cur_value() == byte
                &&& new.inner().spec_error() == self.inner().spec_error()
            }
        } else if self.spec_starts(byte, CellMemDevStartAction::PrevCell) {
            &&& new.spec_pending() == self.spec_pending()
            &&& !new.spec_own_error()
            &&& self.inner().wf() ==> {
                &&& new.inner().spec_addi() == self.inner().spec_addi()
                &&& new.inner().spec_main() == self.inner().spec_main()
                    || new.inner().spec_main() == self.inner().spec_main().drop_last()
            }
            &&& self.inner().wf() && !self.inner().spec_error() && !self.inner().spec_on_am()
                && self.inner().spec_reg_con_amount() == 1 && self.inner().spec_mm_pos() == 0
                ==> self.inner().refused(new.inner())
        } else if self.spec_starts(byte, CellMemDevStartAction::NextCell) {
            &&& new.spec_pending() == self.spec_pending()
            &&& !new.spec_own_error()
            &&& self.inner().wf() ==> {
                &&& new.inner().spec_addi() == self.inner().spec_addi()
                &&& new.inner().spec_main() == self.inner().spec_main()
                    || new.inner().spec_main() == self.inner().spec_main().push(0)
            }
            &&& self.inner().wf() && !self.inner().spec_error() && self.inner().spec_on_the_end()
                && self.inner().spec_mm_pos() == self.inner().spec_mm_size() - 1
                ==> self.inner().refused(new.inner())
            &&& self.inner().wf() && !self.inner().spec_error() && self.inner().spec_on_the_end()
                && self.inner().spec_mm_pos() + 1 < self.inner().spec_mm_size()
                && self.inner().spec_main().len() == self.inner().spec_mm_pos() + 1
                && self.inner().spec_order().len() + 3 < usize::MAX / 2
                ==> !new.inner().spec_error() && new.inner().spec_main() == self.inner().spec_main().push(0)
                    && new.inner().spec_mm_pos() == self.inner().spec_mm_pos() + 1
        } else if self.spec_starts(byte, CellMemDevStartAction::CreateCell) {
            &&& new.spec_pending() == self.spec_pending()
            &&& !new.spec_own_error()
            &&& self.inner().wf() && !new.inner().spec_error() ==>
                new.inner().spec_addi() == self.inner().spec_addi().push(0)
            &&& self.inner().wf() && !self.inner().spec_error() && (!self.inner().spec_can_create()
                || (self.inner().spec_am_pos() is None && self.inner().spec_am_size() == 0)
                || (self.inner().spec_am_pos() matches Some(p) && p == self.inner().spec_am_size() - 1))
                ==> self.inner().refused(new.inner())
        } else if self.spec_starts(byte, CellMemDevStartAction::DeleteCell) {
            &&& new.spec_pending() == self.spec_pending()
            &&& !new.spec_own_error()
            &&& self.inner().wf() && !new.inner().spec_error() ==>
                new.inner().spec_addi().len() + 1 == self.inner().spec_addi().len()
            &&& self.inner().wf() && !self.inner().spec_error()
                && (!self.inner().spec_on_am() || !self.inner().spec_can_create()) ==>
                self.inner().refused(new.inner())
        } else {
            new.spec_own_error() && new.inner() == self.inner()
        }
    }

    pub fn new(mm_size: usize, am_size: usize) -> (ret: Self)
        ensures
            ret.inner().wf(),
            ret.inner().spec_error() == (mm_size == 0),
            ret.inner().spec_main() == seq![0u8],
            ret.inner().spec_addi() == Seq::<u8>::empty(),
            ret.inner().spec_mm_size() == mm_size,
            ret.inner().spec_am_size() == am_size,
            !ret.spec_infinity(),
            !ret.spec_own_error(),
            ret.spec_pending() is None,
    {
        Self {
            cem_inner: CemInner::new(mm_size, am_size),
            infinity: false,
            error: false,
            start_byte_seq: None,
        }
    }

    /// The three memories as text: `OM: `, `\nMM: `, `\nAM: `, each followed
    /// by its memory's text.
    pub fn memory_print(&self) -> (s: String)
        ensures
            s@ == seq!['O', 'M', ':', ' ']
                + (seq!['|'] + print_cells_text(self.inner().spec_order(), 0, true) + print_tail(true))
                + seq!['\n', 'M', 'M', ':', ' ']
                + (seq!['|'] + print_cells_text(self.inner().spec_main(), 0, false) + print_tail(false))
                + seq!['\n', 'A', 'M', ':', ' ']
                + (seq!['|'] + print_cells_text(self.inner().spec_addi(), 0, false) + print_tail(false)),
    {
        let mut v: Vec<char> = Vec::new();
        push_chars(&mut v, &['O', 'M', ':', ' ']);
        let om = self.cem_inner.print_om(0);
        push_str(&mut v, om.as_str());
        push_chars(&mut v, &['\n', 'M', 'M', ':', ' ']);
        let mm = self.cem_inner.print_mm(0);
        push_str(&mut v, mm.as_str());
        push_chars(&mut v, &['\n', 'A', 'M', ':', ' ']);
        let am = self.cem_inner.print_am(0);
        push_str(&mut v, am.as_str());
        chars_to_string(&v)
    }

    fn write_byte_cond(&self, x: u8, action: CellMemDevStartAction) -> (r: bool)
        ensures
            r == self.spec_starts(x, action),
    {
        if self.start_byte_seq.is_none() { x == action.to_byte() } else { false }
    }
}

/// Append the characters of `s`.
pub fn push_str(v: &mut Vec<char>, s: &str)
    ensures
        final(v)@ == old(v)@ + s@,
{
    let c = crate::general::text::str_to_chars(s);
    push_chars(v, c.as_slice());
}

impl Dev for DevStdCem {
    /// The current cell, after a `GetCellValue` request. Reading after an
    /// error makes the wait endless; reading without the request is an error.
    fn read_byte(&mut self) -> (b: u8)
        ensures
            old(self).spec_infinity() ==> b == DEFAULT && *final(self) == *old(self),
            !old(self).spec_infinity() && old(self).spec_have_error() ==>
                b == DEFAULT && final(self).spec_infinity() && final(self).inner() == old(self).inner(),
            !old(self).spec_infinity() && !old(self).spec_have_error()
                && old(self).spec_pending() != Some(CellMemDevStartAction::GetCellValue) ==>
                b == DEFAULT && final(self).spec_own_error() && final(self).inner() == old(self).inner(),
            !old(self).spec_infinity() && !old(self).spec_have_error() && old(self).inner().wf()
                && old(self).spec_pending() == Some(CellMemDevStartAction::GetCellValue) ==>
                b == old(self).inner().spec_cur_value() && *final(self) == *old(self),
    {
        if self.in_infinity_state() { return DEFAULT }
        if self.have_error() { self.infinity = true; return DEFAULT }
        if !self.test_can_read_byte() { self.error = true; return DEFAULT }

        self.cem_inner.ensure_wf();
        let value = self.cem_inner.get_value();
        match value {
            Some(x) => x,
            None => DEFAULT,
        }
    }

    /// Take a request byte, or the value byte of a `SetCellValue` request.
    /// A byte that fits no request is an error.
    fn write_byte(&mut self, byte: u8)
        ensures
            old(self).spec_infinity() || old(self).spec_have_error() ==> *final(self) == *old(self),
            final(self).spec_infinity() == old(self).spec_infinity(),
            !old(self).spec_infinity() && !old(self).spec_have_error() ==>
                old(self).after_write(*final(self), byte),
    {
        if self.in_infinity_state() || self.have_error() { return }

        if self.write_byte_cond(byte, CellMemDevStartAction::GetCellValue) {
            self.start_byte_seq = Some(CellMemDevStartAction::GetCellValue);
        } else if self.write_byte_cond(byte, CellMemDevStartAction::SetCellValue) {
            self.start_byte_seq = Some(CellMemDevStartAction::SetCellValue);
        } else if self.start_byte_seq == Some(CellMemDevStartAction::SetCellValue) {
            self.cem_inner.ensure_wf();
            self.cem_inner.set_value(byte);
            self.start_byte_seq = None;
        } else if self.write_byte_cond(byte, CellMemDevStartAction::PrevCell) {
            self.cem_inner.ensure_wf();
            self.cem_inner.prev_cell();
        } else if self.write_byte_cond(byte, CellMemDevStartAction::NextCell) {
            self.cem_inner.ensure_wf();
            self.cem_inner.next_cell();
        } else if self.write_byte_cond(byte, CellMemDevStartAction::CreateCell) {
            self.cem_inner.ensure_wf();
            self.cem_inner.create_cell();
        } else if self.write_byte_cond(byte, CellMemDevStartAction::DeleteCell) {
            self.cem_inner.ensure_wf();
            self.cem_inner.delete_cell();
        } else {
            self.error = true;
        }
    }

    fn test_can_read_byte(&self) -> (r: bool)
        ensures
            r == (!self.spec_have_error() && !self.spec_infinity()
                && self.spec_pending() == Some(CellMemDevStartAction::GetCellValue)),
    {
        if self.have_error() || self.in_infinity_state() { return false }
        self.start_byte_seq == Some(CellMemDevStartAction::GetCellValue)
    }

    fn have_error(&self) -> (r: bool)
        ensures
            r == self.spec_have_error(),
    {
        self.error || self.cem_inner.error()
    }

    fn in_infinity_state(&self) -> (r: bool)
        ensures
            r == self.spec_infinity(),
    {
        self.infinity
    }
}

/// What a read gives back of a write: after `SetCellValue`, a byte, and
/// `GetCellValue`, a read hands out that byte.
pub proof fn law_cem_read_after_set(d0: DevStdCem, d1: DevStdCem, d2: DevStdCem, d3: DevStdCem, v: u8)
    requires
        !d0.spec_infinity(),
        !d0.spec_have_error(),
        d0.inner().wf(),
        d0.spec_pending() is None,
        d0.after_write(d1, spec_cell_action_byte(CellMemDevStartAction::SetCellValue)),
        d1.after_write(d2, v),
        d2.after_write(d3, spec_cell_action_byte(CellMemDevStartAction::GetCellValue)),
    ensures
        d3.spec_pending() == Some(CellMemDevStartAction::GetCellValue),
        !d3.spec_have_error(),
        d3.inner().wf(),
        d3.inner().spec_cur_value() == v,
{
}

}
