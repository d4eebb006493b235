use vstd::prelude::*;
use crate::general::text::{push_chars, push_hex2, hex_digit, chars_to_string, spec_hex2, spec_hex_digit};

verus! {

// main, additional & order memory can stay on the same memory device,
// just in different places:
//               |   main   | additional | order |
//
// The order memory holds, in each byte,
// ```
// |     1 bit      |        3 bit        |     1 bit      |        3 bit        |
// |overflow-mm-flag|consecutive-mm-amount|overflow-am-flag|consecutive-am-amount|
// ```
// An overflow flag is 1 when the run of consecutive cells did not fit in its
// 3 bits and continues in the next byte; the whole run is the sum of the
// amounts while the flag is 1, plus the next amount.
//
// Reads of the order memory beyond the part in use give 0x00 and writes there
// extend it, as they would on the real device. The emulator checks its own
// bookkeeping: where a step would leave it inconsistent, it enters the error
// state, as on an invalid operation.

pub const MM_OF_SHIFT: u8 = 7;
pub const AM_OF_SHIFT: u8 = 3;
pub const MM_AMOUNT_SHIFT: u8 = 4;
pub const AM_AMOUNT_SHIFT: u8 = 0;

pub const AMOUNT_MAX: u8 = 7;
pub const MM_AMOUNT_MASK: u8 = 0x70;
pub const AM_AMOUNT_MASK: u8 = 0x07;

#[derive(PartialEq, Eq, Clone, Copy, Structural)]
pub enum OrdMemType {
    Addi,
    Main,
}

/// Sequential-access memory device: a tape of cells kept in a main and an
/// additional memory, with an order memory saying how they interleave.
pub struct CemInner {
    main_mem: Vec<u8>,
    mm_size: usize,
    mm_pos: usize,

    additional_mem: Vec<u8>,
    am_size: usize,
    am_pos: Option<usize>,
    am_last_clear_pos: Option<usize>,
    trig_am_can_create: bool,

    order_mem: Vec<u8>,
    om_size: usize,
    om_mm_end_pos: usize,
    om_mm_pos: usize,
    om_am_end_pos: usize,
    om_am_pos: usize,
    trig_cur_am: bool,

    reg_con_amount: u8,

    error: bool,
}

/// Byte of order memory at `pos` (0x00 beyond the part in use).
pub open spec fn om_at(om: Seq<u8>, pos: int) -> u8 {
    if 0 <= pos < om.len() { om[pos] } else { 0 }
}

/// Run amount of the given kind in an order-memory byte.
pub open spec fn amount_of(b: u8, t: OrdMemType) -> u8 {
    if t == OrdMemType::Addi { b & 7 } else { (b >> 4) & 7 }
}

/// An order-memory byte with the continuation flag of a memory set.
pub open spec fn with_flag(b: u8, t: OrdMemType) -> u8 {
    if t == OrdMemType::Addi { b | (1u8 << AM_OF_SHIFT) } else { b | (1u8 << MM_OF_SHIFT) }
}

/// An order-memory byte with the continuation flag of a memory cleared.
pub open spec fn without_flag(b: u8, t: OrdMemType) -> u8 {
    if t == OrdMemType::Addi { b & !(1u8 << AM_OF_SHIFT) } else { b & !(1u8 << MM_OF_SHIFT) }
}

/// An order-memory byte with the run amount of a memory replaced.
pub open spec fn with_amount(b: u8, amount: u8, t: OrdMemType) -> u8 {
    if t == OrdMemType::Addi {
        (b & !AM_AMOUNT_MASK) | (amount << AM_AMOUNT_SHIFT)
    } else {
        (b & !MM_AMOUNT_MASK) | (amount << MM_AMOUNT_SHIFT)
    }
}

/// What the byte edits do to the fields they touch and leave.
pub proof fn lemma_om_bits(b: u8, amount: u8)
    requires
        amount <= 7,
    ensures
        flag_of(with_flag(b, OrdMemType::Main), OrdMemType::Main) == 1,
        flag_of(with_flag(b, OrdMemType::Addi), OrdMemType::Addi) == 1,
        flag_of(without_flag(b, OrdMemType::Main), OrdMemType::Main) == 0,
        flag_of(without_flag(b, OrdMemType::Addi), OrdMemType::Addi) == 0,
        amount_of(with_amount(b, amount, OrdMemType::Main), OrdMemType::Main) == amount,
        amount_of(with_amount(b, amount, OrdMemType::Addi), OrdMemType::Addi) == amount,
        flag_of(with_amount(b, amount, OrdMemType::Main), OrdMemType::Main) == flag_of(b, OrdMemType::Main),
        flag_of(with_amount(b, amount, OrdMemType::Addi), OrdMemType::Addi) == flag_of(b, OrdMemType::Addi),
        amount_of(with_flag(b, OrdMemType::Main), OrdMemType::Main) == amount_of(b, OrdMemType::Main),
        amount_of(with_flag(b, OrdMemType::Addi), OrdMemType::Addi) == amount_of(b, OrdMemType::Addi),
        amount_of(without_flag(b, OrdMemType::Main), OrdMemType::Main) == amount_of(b, OrdMemType::Main),
        amount_of(without_flag(b, OrdMemType::Addi), OrdMemType::Addi) == amount_of(b, OrdMemType::Addi),
{
    assert(((b | (1u8 << 7u8)) >> 7u8) & 1 == 1) by (bit_vector);
    assert(((b | (1u8 << 3u8)) >> 3u8) & 1 == 1) by (bit_vector);
    assert(((b & !(1u8 << 7u8)) >> 7u8) & 1 == 0) by (bit_vector);
    assert(((b & !(1u8 << 3u8)) >> 3u8) & 1 == 0) by (bit_vector);
    assert((((b & !0x70u8) | (amount << 4u8)) >> 4u8) & 7 == amount) by (bit_vector) requires amount <= 7u8;
    assert(((b & !0x07u8) | (amount << 0u8)) & 7 == amount) by (bit_vector) requires amount <= 7u8;
    assert((((b & !0x70u8) | (amount << 4u8)) >> 7u8) & 1 == (b >> 7u8) & 1) by (bit_vector) requires amount <= 7u8;
    assert((((b & !0x07u8) | (amount << 0u8)) >> 3u8) & 1 == (b >> 3u8) & 1) by (bit_vector) requires amount <= 7u8;
    assert(((b | (1u8 << 7u8)) >> 4u8) & 7 == (b >> 4u8) & 7) by (bit_vector);
    assert((b | (1u8 << 3u8)) & 7 == b & 7) by (bit_vector);
    assert(((b & !(1u8 << 7u8)) >> 4u8) & 7 == (b >> 4u8) & 7) by (bit_vector);
    assert((b & !(1u8 << 3u8)) & 7 == b & 7) by (bit_vector);
}

/// What the edits that join two runs of the main memory do to a byte.
pub proof fn lemma_glue_bits(b: u8, k: u8)
    requires
        k <= 7,
    ensures
        amount_of(b | (1u8 << 7u8) | (7u8 << 4u8), OrdMemType::Main) == 7,
        flag_of(b | (1u8 << 7u8) | (7u8 << 4u8), OrdMemType::Main) == 1,
        amount_of((b | (1u8 << 7u8) | (7u8 << 4u8)) & !(1u8 << 7u8), OrdMemType::Main) == 7,
        flag_of((b | (1u8 << 7u8) | (7u8 << 4u8)) & !(1u8 << 7u8), OrdMemType::Main) == 0,
        amount_of(b & !0x70u8, OrdMemType::Main) == 0,
        amount_of(((b & !(1u8 << 7u8)) & !0x70u8) | (k << 4u8), OrdMemType::Main) == k,
        flag_of(((b & !(1u8 << 7u8)) & !0x70u8) | (k << 4u8), OrdMemType::Main) == 0,
        amount_of((b & !0x70u8) | (7u8 << 4u8) | (1u8 << 7u8), OrdMemType::Main) == 7,
        flag_of((b & !0x70u8) | (7u8 << 4u8) | (1u8 << 7u8), OrdMemType::Main) == 1,
{
    assert(((b | (1u8 << 7u8) | (7u8 << 4u8)) >> 4u8) & 7 == 7) by (bit_vector);
    assert(((b | (1u8 << 7u8) | (7u8 << 4u8)) >> 7u8) & 1 == 1) by (bit_vector);
    assert((((b | (1u8 << 7u8) | (7u8 << 4u8)) & !(1u8 << 7u8)) >> 4u8) & 7 == 7) by (bit_vector);
    assert((((b | (1u8 << 7u8) | (7u8 << 4u8)) & !(1u8 << 7u8)) >> 7u8) & 1 == 0) by (bit_vector);
    assert(((b & !0x70u8) >> 4u8) & 7 == 0) by (bit_vector);
    assert(((((b & !(1u8 << 7u8)) & !0x70u8) | (k << 4u8)) >> 4u8) & 7 == k) by (bit_vector) requires k <= 7u8;
    assert(((((b & !(1u8 << 7u8)) & !0x70u8) | (k << 4u8)) >> 7u8) & 1 == 0) by (bit_vector) requires k <= 7u8;
    assert((((b & !0x70u8) | (7u8 << 4u8) | (1u8 << 7u8)) >> 4u8) & 7 == 7) by (bit_vector);
    assert((((b & !0x70u8) | (7u8 << 4u8) | (1u8 << 7u8)) >> 7u8) & 1 == 1) by (bit_vector);
}

/// The continuation flag of an order-memory byte for a memory.
pub open spec fn flag_of(b: u8, t: OrdMemType) -> u8 {
    if t == OrdMemType::Addi { (b >> 3u8) & 1 } else { (b >> 7u8) & 1 }
}

/// Order-memory byte with the given flags and amounts.
pub open spec fn spec_om_cell(mm_of: bool, mm_amount: u8, am_of: bool, am_amount: u8) -> u8 {
    (if mm_of { 128u8 } else { 0u8 }) | (if am_of { 8u8 } else { 0u8 }) | (mm_amount << 4u8) | (am_amount << 0u8)
}

/// `T` for a set flag, `F` otherwise.
pub open spec fn flag_char(set: bool) -> char {
    if set { 'T' } else { 'F' }
}

/// Text of one order-memory byte: main flag and amount, additional flag and
/// amount, then `|`.
pub open spec fn om_cell_text(b: u8) -> Seq<char> {
    seq![
        flag_char((b >> 7u8) & 1 == 1), spec_hex_digit(((b >> 4u8) & 7) as nat),
        flag_char((b >> 3u8) & 1 == 1), spec_hex_digit((b & 7) as nat), '|'
    ]
}

/// Line break after the cell at `ind`, when one is asked for each `n` cells.
pub open spec fn line_break(ind: int, n: nat) -> Seq<char> {
    if n > 0 && ind != 0 && ind % (n as int) == 0 { seq!['\n', '|'] } else { seq![] }
}

/// Text of the cells of a memory, order-memory style or hexadecimal.
pub open spec fn print_cells_text(mem: Seq<u8>, n: nat, as_order: bool) -> Seq<char>
    decreases mem.len(),
{
    if mem.len() == 0 {
        seq![]
    } else {
        print_cells_text(mem.drop_last(), n, as_order)
            + (if as_order { om_cell_text(mem.last()) } else { spec_hex2(mem.last()) + seq!['|'] })
            + line_break(mem.len() - 1, n)
    }
}

/// What follows the cells: the empty cell after the memory, and `...`.
pub open spec fn print_tail(as_order: bool) -> Seq<char> {
    if as_order { seq!['F', '0', 'F', '0', '|', '.', '.', '.'] } else { seq!['0', '0', '|', '.', '.', '.'] }
}

/// Append the text of one order-memory byte.
fn push_om_cell(v: &mut Vec<char>, b: u8)
    ensures
        final(v)@ == old(v)@ + om_cell_text(b),
{
    let mm_of = (b >> 7u8) & 1;
    let mm_am = (b >> 4u8) & 7;
    let am_of = (b >> 3u8) & 1;
    let am_am = b & 7;
    assert(mm_am < 8 && am_am < 8) by (bit_vector) requires mm_am == (b >> 4u8) & 7u8, am_am == b & 7u8;
    v.push(if mm_of == 1 { 'T' } else { 'F' });
    v.push(hex_digit(mm_am));
    v.push(if am_of == 1 { 'T' } else { 'F' });
    v.push(hex_digit(am_am));
    v.push('|');
    assert(v@ =~= old(v)@ + om_cell_text(b));
}

impl CemInner {
    // ---------------------------------------------------------------------
    // [+] abstract state

    pub closed spec fn spec_error(&self) -> bool { self.error }
    pub closed spec fn spec_on_am(&self) -> bool { self.trig_cur_am }
    pub closed spec fn spec_main(&self) -> Seq<u8> { self.main_mem@ }
    pub closed spec fn spec_addi(&self) -> Seq<u8> { self.additional_mem@ }
    pub closed spec fn spec_order(&self) -> Seq<u8> { self.order_mem@ }
    pub closed spec fn spec_mm_size(&self) -> usize { self.mm_size }
    pub closed spec fn spec_am_size(&self) -> usize { self.am_size }
    pub closed spec fn spec_mm_pos(&self) -> usize { self.mm_pos }
    pub closed spec fn spec_am_pos(&self) -> Option<usize> { self.am_pos }
    pub closed spec fn spec_reg_con_amount(&self) -> u8 { self.reg_con_amount }
    pub closed spec fn spec_can_create(&self) -> bool { self.trig_am_can_create }

    /// `new` is `self` refused: the error state set, the memories, the
    /// order memory and the cursor as they were.
    pub open spec fn refused(self, new: Self) -> bool {
        &&& new.spec_error()
        &&& new.spec_main() == self.spec_main()
        &&& new.spec_addi() == self.spec_addi()
        &&& new.spec_order() == self.spec_order()
        &&& new.spec_on_am() == self.spec_on_am()
        &&& new.spec_mm_pos() == self.spec_mm_pos()
        &&& new.spec_am_pos() == self.spec_am_pos()
    }

    /// A step on: the cursor lands on the next cell of the memory it is on
    /// now; the other memory's position stays.
    pub open spec fn stepped_on(self, new: Self) -> bool {
        if new.spec_on_am() {
            new.spec_am_index() == self.spec_am_index() + 1 && new.spec_mm_pos() == self.spec_mm_pos()
        } else {
            new.spec_mm_pos() == self.spec_mm_pos() + 1 && new.spec_am_pos() == self.spec_am_pos()
        }
    }

    /// A step back: the cursor leaves the cell it was on for the one before
    /// it in that memory; the other memory's position stays.
    pub open spec fn stepped_back(self, new: Self) -> bool {
        if self.spec_on_am() {
            new.spec_am_index() == self.spec_am_index() - 1 && new.spec_mm_pos() == self.spec_mm_pos()
        } else {
            new.spec_mm_pos() == self.spec_mm_pos() - 1 && new.spec_am_pos() == self.spec_am_pos()
        }
    }

    /// Index of the current (or last visited) additional cell; -1 before
    /// the first.
    pub closed spec fn spec_am_index(&self) -> int {
        match self.am_pos { Some(p) => p as int, None => -1 }
    }
    pub closed spec fn spec_last_clear(&self) -> Option<usize> { self.am_last_clear_pos }
    pub closed spec fn spec_om_am_pos(&self) -> usize { self.om_am_pos }
    pub closed spec fn spec_om_am_end_pos(&self) -> usize { self.om_am_end_pos }
    pub closed spec fn spec_om_mm_pos(&self) -> usize { self.om_mm_pos }
    pub closed spec fn spec_om_mm_end_pos(&self) -> usize { self.om_mm_end_pos }

    /// The current cell is the last of the tape: its run ends here, and
    /// no run of either memory follows (or that memory is full).
    pub closed spec fn spec_on_the_end(&self) -> bool {
        let om = self.order_mem@;
        let am_can_be_end = match self.am_pos {
            None => self.am_size == 0 || amount_of(om_at(om, 0), OrdMemType::Addi) == 0,
            Some(p) => p == self.am_size - 1 || om.len() == self.om_am_pos + 1
                || amount_of(om_at(om, self.om_am_pos + 1), OrdMemType::Addi) == 0,
        };
        let mm_can_be_end = self.mm_pos == self.mm_size - 1 || om.len() == self.om_mm_pos + 1
            || amount_of(om_at(om, self.om_mm_pos + 1), OrdMemType::Main) == 0;
        am_can_be_end && mm_can_be_end && self.cur_amount() == self.reg_con_amount
    }

    /// Index, in main or additional memory, of the current cell.
    pub open spec fn spec_cur_index(&self) -> int {
        if self.spec_on_am() { self.spec_am_index() } else { self.spec_mm_pos() as int }
    }

    /// Value of the current cell.
    pub open spec fn spec_cur_value(&self) -> u8 {
        if self.spec_on_am() {
            self.spec_addi()[self.spec_cur_index()]
        } else {
            self.spec_main()[self.spec_cur_index()]
        }
    }

    /// Whether the current run goes on in the next order-memory byte (its
    /// continuation flag is set).
    pub closed spec fn spec_run_continues(&self) -> bool {
        if self.trig_cur_am {
            flag_of(om_at(self.order_mem@, self.om_am_pos as int), OrdMemType::Addi) == 1
        } else {
            flag_of(om_at(self.order_mem@, self.om_mm_pos as int), OrdMemType::Main) == 1
        }
    }

    /// Whether the run before the current one (in the same memory) goes on
    /// into it: the previous order-memory byte's continuation flag.
    pub closed spec fn spec_prev_run_continues(&self) -> bool {
        if self.trig_cur_am {
            self.om_am_pos > 0 && flag_of(om_at(self.order_mem@, self.om_am_pos - 1), OrdMemType::Addi) == 1
        } else {
            self.om_mm_pos > 0 && flag_of(om_at(self.order_mem@, self.om_mm_pos - 1), OrdMemType::Main) == 1
        }
    }

    /// Length of the current run (as far as one order-memory byte holds it).
    pub closed spec fn spec_run_len(&self) -> u8 {
        self.cur_amount()
    }

    spec fn cur_amount(&self) -> u8 {
        if self.trig_cur_am {
            amount_of(om_at(self.order_mem@, self.om_am_pos as int), OrdMemType::Addi)
        } else {
            amount_of(om_at(self.order_mem@, self.om_mm_pos as int), OrdMemType::Main)
        }
    }

    /// The bookkeeping that every step keeps: positions inside the memories
    /// and the run counter inside its run.
    pub closed spec fn consistent(&self) -> bool {
        &&& 1 <= self.main_mem.len() <= self.mm_size
        &&& self.mm_pos < self.main_mem.len()
        &&& 1 <= self.order_mem.len()
        &&& self.om_mm_pos < self.order_mem.len()
        &&& self.om_am_pos < self.order_mem.len()
        &&& self.om_mm_end_pos < self.order_mem.len()
        &&& self.om_am_end_pos < self.order_mem.len()
        &&& self.trig_cur_am ==> self.am_pos is Some
        &&& (self.am_pos matches Some(p) ==> p < self.additional_mem.len() && 1 <= self.am_size)
        &&& (self.am_last_clear_pos matches Some(p) ==> p < usize::MAX)
        &&& self.am_pos is None ==> self.om_am_pos == 0
        &&& self.order_mem.len() < usize::MAX / 2
        &&& 1 <= self.reg_con_amount <= self.cur_amount()
    }

    /// `new` differs from `old` at most in the order memory.
    pub closed spec fn only_order_changed(old: &Self, new: &Self) -> bool {
        &&& new.main_mem == old.main_mem
        &&& new.additional_mem == old.additional_mem
        &&& new.error == old.error
        &&& new.trig_cur_am == old.trig_cur_am
        &&& new.mm_pos == old.mm_pos
        &&& new.am_pos == old.am_pos
        &&& new.om_mm_pos == old.om_mm_pos
        &&& new.om_am_pos == old.om_am_pos
        &&& new.om_mm_end_pos == old.om_mm_end_pos
        &&& new.om_am_end_pos == old.om_am_end_pos
        &&& new.reg_con_amount == old.reg_con_amount
        &&& new.mm_size == old.mm_size
        &&& new.am_size == old.am_size
        &&& new.am_last_clear_pos == old.am_last_clear_pos
        &&& new.trig_am_can_create == old.trig_am_can_create
    }

    /// `new` holds the same cells as `old`, and the same error state.
    pub closed spec fn same_cells(old: &Self, new: &Self) -> bool {
        &&& new.main_mem == old.main_mem
        &&& new.additional_mem == old.additional_mem
        &&& new.error == old.error
        &&& new.mm_size == old.mm_size
        &&& new.am_size == old.am_size
        &&& new.mm_pos == old.mm_pos
        &&& new.am_pos == old.am_pos
    }

    /// Outside the error state the bookkeeping is consistent.
    pub closed spec fn wf(&self) -> bool {
        self.error || self.consistent()
    }

    // [-] abstract state
    // ---------------------------------------------------------------------

    // ---------------------------------------------------------------------
    // [+] order memory access

    fn om_read(&self, pos: usize) -> (b: u8)
        ensures
            b == om_at(self.order_mem@, pos as int),
    {
        if pos < self.order_mem.len() { self.order_mem[pos] } else { 0 }
    }

    fn om_write(&mut self, pos: usize, b: u8)
        requires
            pos < usize::MAX,
        ensures
            final(self).order_mem@.len() == if pos < old(self).order_mem@.len() { old(self).order_mem@.len() as int } else { pos + 1 },
            om_at(final(self).order_mem@, pos as int) == b,
            forall|j: int| j != pos ==> om_at(final(self).order_mem@, j) == om_at(old(self).order_mem@, j),
            Self::only_order_changed(&*old(self), &*final(self)),
    {
        while self.order_mem.len() <= pos
            invariant
                pos < usize::MAX,
                old(self).order_mem@.len() <= self.order_mem@.len(),
                self.order_mem@.len() <= if pos < old(self).order_mem@.len() { old(self).order_mem@.len() as int } else { pos + 1 },
                forall|j: int| 0 <= j < self.order_mem@.len() ==> om_at(self.order_mem@, j) == om_at(old(self).order_mem@, j),
                self.main_mem == old(self).main_mem,
                self.additional_mem == old(self).additional_mem,
                self.error == old(self).error,
                self.trig_cur_am == old(self).trig_cur_am,
                self.mm_pos == old(self).mm_pos,
                self.am_pos == old(self).am_pos,
                self.om_mm_pos == old(self).om_mm_pos,
                self.om_am_pos == old(self).om_am_pos,
                self.om_mm_end_pos == old(self).om_mm_end_pos,
                self.om_am_end_pos == old(self).om_am_end_pos,
                self.reg_con_amount == old(self).reg_con_amount,
                self.mm_size == old(self).mm_size,
                self.am_size == old(self).am_size,
                self.am_last_clear_pos == old(self).am_last_clear_pos,
                self.trig_am_can_create == old(self).trig_am_can_create,
            decreases pos + 1 - self.order_mem@.len(),
        {
            self.order_mem.push(0x00);
        }
        self.order_mem.set(pos, b);
        assert forall|j: int| j != pos implies om_at(self.order_mem@, j) == om_at(old(self).order_mem@, j) by {}
    }

    fn on_of_flag(&mut self, pos: usize, om_type: OrdMemType)
        requires
            pos < usize::MAX,
        ensures
            om_at(final(self).order_mem@, pos as int) == with_flag(om_at(old(self).order_mem@, pos as int), om_type),
            Self::only_order_changed(&*old(self), &*final(self)),
            forall|j: int| j != pos ==> om_at(final(self).order_mem@, j) == om_at(old(self).order_mem@, j),
            old(self).order_mem@.len() <= final(self).order_mem@.len(),
            final(self).order_mem@.len() <= if pos < old(self).order_mem@.len() { old(self).order_mem@.len() as int } else { pos + 1 },
            (pos as int) < final(self).order_mem@.len(),
    {
        let shift = if om_type == OrdMemType::Addi { AM_OF_SHIFT } else { MM_OF_SHIFT };
        let b = self.om_read(pos) | (1u8 << shift);
        self.om_write(pos, b);
    }

    fn off_of_flag(&mut self, pos: usize, om_type: OrdMemType)
        requires
            pos < usize::MAX,
        ensures
            om_at(final(self).order_mem@, pos as int) == without_flag(om_at(old(self).order_mem@, pos as int), om_type),
            Self::only_order_changed(&*old(self), &*final(self)),
            forall|j: int| j != pos ==> om_at(final(self).order_mem@, j) == om_at(old(self).order_mem@, j),
            old(self).order_mem@.len() <= final(self).order_mem@.len(),
            final(self).order_mem@.len() <= if pos < old(self).order_mem@.len() { old(self).order_mem@.len() as int } else { pos + 1 },
            (pos as int) < final(self).order_mem@.len(),
    {
        let shift = if om_type == OrdMemType::Addi { AM_OF_SHIFT } else { MM_OF_SHIFT };
        let b = self.om_read(pos) & !(1u8 << shift);
        self.om_write(pos, b);
    }

    fn get_of_flag(&self, pos: usize, om_type: OrdMemType) -> (r: u8)
        ensures
            r <= 1,
            r == flag_of(om_at(self.order_mem@, pos as int), om_type),
    {
        let shift = if om_type == OrdMemType::Addi { AM_OF_SHIFT } else { MM_OF_SHIFT };
        let b = self.om_read(pos);
        let r = (b >> shift) & 1;
        assert(r <= 1) by (bit_vector) requires r == (b >> shift) & 1u8;
        r
    }

    fn set_amount(&mut self, pos: usize, amount: u8, om_type: OrdMemType)
        requires
            pos < usize::MAX,
        ensures
            om_at(final(self).order_mem@, pos as int) == with_amount(om_at(old(self).order_mem@, pos as int), amount, om_type),
            Self::only_order_changed(&*old(self), &*final(self)),
            forall|j: int| j != pos ==> om_at(final(self).order_mem@, j) == om_at(old(self).order_mem@, j),
            old(self).order_mem@.len() <= final(self).order_mem@.len(),
            final(self).order_mem@.len() <= if pos < old(self).order_mem@.len() { old(self).order_mem@.len() as int } else { pos + 1 },
            (pos as int) < final(self).order_mem@.len(),
    {
        let (shift, mask) = if om_type == OrdMemType::Addi { (AM_AMOUNT_SHIFT, AM_AMOUNT_MASK) } else { (MM_AMOUNT_SHIFT, MM_AMOUNT_MASK) };
        let b = (self.om_read(pos) & !mask) | (amount << shift);
        self.om_write(pos, b);
    }

    fn get_amount(&self, pos: usize, om_type: OrdMemType) -> (r: u8)
        ensures
            r == amount_of(om_at(self.order_mem@, pos as int), om_type),
            r <= 7,
    {
        let b = self.om_read(pos);
        if om_type == OrdMemType::Addi {
            assert(b & 7 <= 7) by (bit_vector);
            b & AMOUNT_MAX
        } else {
            assert((b >> 4) & 7 <= 7) by (bit_vector);
            (b >> MM_AMOUNT_SHIFT) & AMOUNT_MAX
        }
    }

    /// Pop the last order-memory byte when the byte at `pos` became 0x00.
    fn om_pop_if_zero(&mut self, pos: usize)
        ensures
            final(self).order_mem@ == if om_at(old(self).order_mem@, pos as int) == 0 && old(self).order_mem@.len() > 1 {
                old(self).order_mem@.drop_last()
            } else {
                old(self).order_mem@
            },
            Self::only_order_changed(&*old(self), &*final(self)),
            forall|j: int| 0 <= j < final(self).order_mem@.len() ==> om_at(final(self).order_mem@, j) == om_at(old(self).order_mem@, j),
            final(self).order_mem@.len() <= old(self).order_mem@.len(),
            old(self).order_mem@.len() >= 1 ==> final(self).order_mem@.len() >= 1,
            final(self).order_mem@.len() + 1 >= old(self).order_mem@.len(),
    {
        if self.om_read(pos) == 0x00 && self.order_mem.len() > 1 {
            self.order_mem.pop();
        }
    }

    // [-] order memory access
    // ---------------------------------------------------------------------

    /// Check the bookkeeping; enter the error state where it does not hold.
    fn settle(&mut self)
        ensures
            final(self).wf(),
            !old(self).error && old(self).consistent() ==> *final(self) == *old(self),
            old(self).error ==> *final(self) == *old(self),
            final(self).error == (old(self).error || !old(self).consistent()),
            final(self).main_mem == old(self).main_mem,
            final(self).additional_mem == old(self).additional_mem,
            final(self).order_mem == old(self).order_mem,
            final(self).mm_size == old(self).mm_size,
            final(self).am_size == old(self).am_size,
    {
        if self.error { return }
        let ok = 1 <= self.main_mem.len() && self.main_mem.len() <= self.mm_size
            && self.mm_pos < self.main_mem.len()
            && 1 <= self.order_mem.len()
            && self.om_mm_pos < self.order_mem.len()
            && self.om_am_pos < self.order_mem.len()
            && self.om_mm_end_pos < self.order_mem.len()
            && self.om_am_end_pos < self.order_mem.len()
            && (!self.trig_cur_am || self.am_pos.is_some())
            && (match self.am_pos { Some(p) => p < self.additional_mem.len() && 1 <= self.am_size, None => true })
            && (match self.am_last_clear_pos { Some(p) => p < usize::MAX, None => true })
            && (self.am_pos.is_some() || self.om_am_pos == 0)
            && self.order_mem.len() < usize::MAX / 2;
        if !ok { self.error = true; return }
        let amount = if self.trig_cur_am {
            self.get_amount(self.om_am_pos, OrdMemType::Addi)
        } else {
            self.get_amount(self.om_mm_pos, OrdMemType::Main)
        };
        if !(1 <= self.reg_con_amount && self.reg_con_amount <= amount) { self.error = true; }
    }

    fn create_om_cell(mm_of: bool, mm_amount: u8, am_of: bool, am_amount: u8) -> (r: u8)
        requires
            mm_amount < 8,
            am_amount < 8,
        ensures
            r == spec_om_cell(mm_of, mm_amount, am_of, am_amount),
            amount_of(r, OrdMemType::Main) == mm_amount,
            amount_of(r, OrdMemType::Addi) == am_amount,
    {
        let mm_flag: u8 = if mm_of { 128u8 } else { 0u8 };
        let am_flag: u8 = if am_of { 8u8 } else { 0u8 };
        let om_cell: u8 = mm_flag | am_flag | (mm_amount << 4u8) | (am_amount << 0u8);
        assert((om_cell >> 4u8) & 7u8 == mm_amount && om_cell & 7u8 == am_amount) by (bit_vector)
            requires
                mm_amount < 8, am_amount < 8,
                mm_flag == 128u8 || mm_flag == 0u8,
                am_flag == 8u8 || am_flag == 0u8,
                om_cell == mm_flag | am_flag | (mm_amount << 4u8) | (am_amount << 0u8);
        om_cell
    }

    fn om_inc_mm_pos(&mut self)
        requires
            old(self).om_mm_pos < usize::MAX - 1,
        ensures
            final(self).om_mm_pos == old(self).om_mm_pos + 1,
            Self::same_cells(&*old(self), &*final(self)),
            !final(self).trig_cur_am,
            forall|j: int| #[trigger] om_at(final(self).order_mem@, j) == om_at(old(self).order_mem@, j),
            final(self).om_am_end_pos == old(self).om_am_end_pos,
            final(self).reg_con_amount == old(self).reg_con_amount,
            final(self).order_mem@.len() == if old(self).om_mm_pos + 1 > old(self).om_am_end_pos { old(self).order_mem@.len() as int + 1 } else { old(self).order_mem@.len() as int },
            final(self).om_mm_end_pos == if old(self).om_mm_pos + 1 > old(self).om_mm_end_pos { old(self).om_mm_pos + 1 } else { old(self).om_mm_end_pos as int },
            final(self).om_am_pos == old(self).om_am_pos,
            final(self).am_last_clear_pos == old(self).am_last_clear_pos,
            final(self).trig_am_can_create == old(self).trig_am_can_create,
    {
        self.trig_cur_am = false;
        self.om_mm_pos = self.om_mm_pos + 1;
        if self.om_mm_pos > self.om_am_end_pos { self.order_mem.push(0x00); }
        if self.om_mm_pos > self.om_mm_end_pos { self.om_mm_end_pos = self.om_mm_pos; }
    }

    fn om_inc_am_pos(&mut self)
        requires
            old(self).om_am_end_pos < usize::MAX - 1,
        ensures
            final(self).om_am_end_pos == old(self).om_am_end_pos + 1,
            Self::same_cells(&*old(self), &*final(self)),
            forall|j: int| #[trigger] om_at(final(self).order_mem@, j) == om_at(old(self).order_mem@, j),
            final(self).om_mm_pos == old(self).om_mm_pos,
            final(self).reg_con_amount == old(self).reg_con_amount,
            final(self).trig_cur_am == old(self).trig_cur_am,
    {
        self.om_am_end_pos = self.om_am_end_pos + 1;
        if self.om_am_end_pos > self.om_mm_end_pos { self.order_mem.push(0x00); }
    }

    fn om_inc_mm_con(&mut self)
        requires
            old(self).om_mm_pos < usize::MAX - 2,
        ensures
            Self::same_cells(&*old(self), &*final(self)),
            !old(self).trig_cur_am ==> !final(self).trig_cur_am,
            ({
                let a = amount_of(om_at(old(self).order_mem@, old(self).om_mm_pos as int), OrdMemType::Main);
                &&& final(self).om_mm_pos == if a == AMOUNT_MAX { old(self).om_mm_pos + 1 } else { old(self).om_mm_pos as int }
                &&& final(self).reg_con_amount == if a == AMOUNT_MAX { 1 } else { a + 1 }
                &&& amount_of(om_at(final(self).order_mem@, final(self).om_mm_pos as int), OrdMemType::Main) == final(self).reg_con_amount
                &&& a == AMOUNT_MAX ==> flag_of(om_at(final(self).order_mem@, old(self).om_mm_pos as int), OrdMemType::Main) == 1
            }),
            final(self).om_am_pos == old(self).om_am_pos,
            final(self).om_am_end_pos == old(self).om_am_end_pos,
            final(self).am_last_clear_pos == old(self).am_last_clear_pos,
            final(self).trig_am_can_create == old(self).trig_am_can_create,
            old(self).order_mem@.len() <= final(self).order_mem@.len(),
            old(self).om_mm_pos < old(self).order_mem@.len() ==> final(self).order_mem@.len() <= old(self).order_mem@.len() + 2,
            old(self).om_am_end_pos < old(self).order_mem@.len() && old(self).om_mm_pos < old(self).order_mem@.len()
                ==> (final(self).om_mm_pos as int) < final(self).order_mem@.len(),
            old(self).om_am_end_pos < old(self).order_mem@.len() && old(self).om_mm_pos < old(self).order_mem@.len()
                && old(self).om_mm_end_pos < old(self).order_mem@.len()
                ==> (final(self).om_mm_end_pos as int) < final(self).order_mem@.len(),
    {
        let pos = self.om_mm_pos;
        let om_type = OrdMemType::Main;
        let mut x = self.get_amount(pos, om_type);
        if x == AMOUNT_MAX {
            self.on_of_flag(pos, om_type);
            self.om_inc_mm_pos();
            x = 0;
        }
        let x = x + 1;
        let ghost b0 = om_at(self.order_mem@, self.om_mm_pos as int);
        self.set_amount(self.om_mm_pos, x, om_type);
        proof {
            lemma_om_bits(b0, x);
            lemma_om_bits(om_at(old(self).order_mem@, old(self).om_mm_pos as int), x);
        }
        self.reg_con_amount = x;
    }

    fn om_inc_am_con(&mut self)
        requires
            old(self).om_am_end_pos < usize::MAX - 2,
        ensures
            Self::same_cells(&*old(self), &*final(self)),
            final(self).reg_con_amount == old(self).reg_con_amount,
            final(self).om_mm_pos == old(self).om_mm_pos,
            ({
                let a = amount_of(om_at(old(self).order_mem@, old(self).om_am_end_pos as int), OrdMemType::Addi);
                &&& final(self).om_am_end_pos == if a == AMOUNT_MAX { old(self).om_am_end_pos + 1 } else { old(self).om_am_end_pos as int }
                &&& amount_of(om_at(final(self).order_mem@, final(self).om_am_end_pos as int), OrdMemType::Addi)
                    == if a == AMOUNT_MAX { 1 } else { a + 1 }
                &&& a == AMOUNT_MAX ==> flag_of(om_at(final(self).order_mem@, old(self).om_am_end_pos as int), OrdMemType::Addi) == 1
            }),
    {
        let pos = self.om_am_end_pos;
        let om_type = OrdMemType::Addi;
        let mut x = self.get_amount(pos, om_type);
        if x == AMOUNT_MAX {
            self.on_of_flag(pos, om_type);
            self.om_inc_am_pos();
            x = 0;
        }
        let x = x + 1;
        let ghost b0 = om_at(self.order_mem@, self.om_am_end_pos as int);
        self.set_amount(self.om_am_end_pos, x, om_type);
        proof {
            lemma_om_bits(b0, x);
            lemma_om_bits(om_at(old(self).order_mem@, old(self).om_am_end_pos as int), x);
        }
    }

    fn om_mm_transfer(&mut self)
        requires
            !old(self).error,
            old(self).consistent(),
            !old(self).trig_cur_am,
        ensures
            final(self).mm_size == old(self).mm_size,
            final(self).am_size == old(self).am_size,
            final(self).main_mem == old(self).main_mem,
            final(self).additional_mem == old(self).additional_mem,
            final(self).om_mm_pos == old(self).om_mm_pos,
            final(self).reg_con_amount == old(self).reg_con_amount,
            ({
                let om = old(self).order_mem@;
                let fom = final(self).order_mem@;
                let p = old(self).om_mm_pos as int;
                let e0 = old(self).om_mm_end_pos as int;
                let t = amount_of(om_at(om, p), OrdMemType::Main) - old(self).reg_con_amount;
                let ends_here = flag_of(om_at(om, p), OrdMemType::Main) == 0;
                &&& final(self).error == (ends_here != (p == e0))
                &&& !final(self).error && p <= e0 ==> amount_of(om_at(fom, p), OrdMemType::Main) == old(self).reg_con_amount
                    && flag_of(om_at(fom, p), OrdMemType::Main) == 0
                &&& !final(self).error && t == 0 ==> final(self).om_mm_end_pos == e0
                &&& !final(self).error && t != 0 && ends_here ==> final(self).om_mm_end_pos == e0 + 1
                    && amount_of(om_at(fom, e0 + 1), OrdMemType::Main) == t
                &&& !final(self).error && t != 0 && !ends_here ==> {
                    let e = amount_of(om_at(om, e0), OrdMemType::Main);
                    if e + t > AMOUNT_MAX {
                        &&& final(self).om_mm_end_pos == e0 + 1
                        &&& amount_of(om_at(fom, e0), OrdMemType::Main) == AMOUNT_MAX
                        &&& flag_of(om_at(fom, e0), OrdMemType::Main) == 1
                        &&& (e0 + 1 <= old(self).om_am_end_pos || e0 + 1 == om.len())
                            ==> amount_of(om_at(fom, e0 + 1), OrdMemType::Main) == e + t - AMOUNT_MAX
                    } else {
                        final(self).om_mm_end_pos == e0 && amount_of(om_at(fom, e0), OrdMemType::Main) == e + t
                    }
                }
            }),
    {
        let ghost om0 = self.order_mem@;
        let pos = self.om_mm_pos;
        let om_type = OrdMemType::Main;

        let amount = self.get_amount(pos, om_type);
        let transfer = amount - self.reg_con_amount;

        let end_is_other = self.get_of_flag(pos, om_type) == 1;
        if end_is_other && self.om_mm_pos == self.om_mm_end_pos { self.error = true; return }
        if !end_is_other && self.om_mm_pos != self.om_mm_end_pos { self.error = true; return }

        if transfer == 0 {
            self.off_of_flag(pos, om_type);
            proof { lemma_om_bits(om_at(om0, pos as int), 0); }
            return
        }

        self.off_of_flag(pos, om_type);
        let ghost om1 = self.order_mem@;
        self.set_amount(pos, self.reg_con_amount, om_type);
        proof {
            lemma_om_bits(om_at(om0, pos as int), 0);
            lemma_om_bits(om_at(om1, pos as int), self.reg_con_amount);
        }
        let ghost om2 = self.order_mem@;

        if self.om_mm_end_pos >= usize::MAX - 2 { self.error = true; return }
        if end_is_other {
            let pos = self.om_mm_end_pos;
            let end_amount = self.get_amount(pos, om_type);

            let new_val = transfer + end_amount;
            if new_val > AMOUNT_MAX {
                self.on_of_flag(pos, om_type);
                let ghost om3 = self.order_mem@;
                self.set_amount(pos, AMOUNT_MAX, om_type);
                proof {
                    lemma_om_bits(om_at(om2, pos as int), 0);
                    lemma_om_bits(om_at(om3, pos as int), AMOUNT_MAX);
                }
                let new_val = new_val - AMOUNT_MAX;

                if new_val >= AMOUNT_MAX { self.error = true; return }

                self.om_mm_end_pos = self.om_mm_end_pos + 1;
                if self.om_mm_end_pos > self.om_am_end_pos {
                    let ghost om4 = self.order_mem@;
                    self.order_mem.push(Self::create_om_cell(false, new_val, false, 0));
                    assert(om_at(self.order_mem@, old(self).om_mm_pos as int) == om_at(om4, old(self).om_mm_pos as int));
                } else {
                    let pos = self.om_mm_end_pos;
                    let ghost om4 = self.order_mem@;
                    self.set_amount(pos, new_val, om_type);
                    proof { lemma_om_bits(om_at(om4, pos as int), new_val); }
                }
                assert(old(self).om_mm_pos <= old(self).om_mm_end_pos ==> om_at(self.order_mem@, old(self).om_mm_pos as int)
                    == om_at(om2, old(self).om_mm_pos as int));
            } else {
                self.set_amount(pos, new_val, om_type);
                proof { lemma_om_bits(om_at(om2, pos as int), new_val); }
                assert(om_at(self.order_mem@, old(self).om_mm_pos as int) == om_at(om2, old(self).om_mm_pos as int));
            }
        } else {
            let pos = self.om_mm_end_pos;
            if self.get_of_flag(pos, om_type) == 1 { self.error = true; return }

            self.om_mm_end_pos = self.om_mm_end_pos + 1;
            let ghost om5 = self.order_mem@;
            if self.om_mm_end_pos > self.om_am_end_pos { self.order_mem.push(0x00); }
            assert(om_at(self.order_mem@, old(self).om_mm_pos as int) == om_at(om5, old(self).om_mm_pos as int));
            let pos = self.om_mm_end_pos;
            let ghost om4 = self.order_mem@;
            self.set_amount(pos, transfer, om_type);
            proof { lemma_om_bits(om_at(om4, pos as int), transfer); }
            assert(om_at(self.order_mem@, old(self).om_mm_pos as int) == om_at(om2, old(self).om_mm_pos as int));
        }
    }

    fn om_mm_glue(&mut self)
        requires
            old(self).om_mm_pos < usize::MAX,
            old(self).om_mm_end_pos < usize::MAX,
        ensures
            final(self).mm_size == old(self).mm_size,
            final(self).am_size == old(self).am_size,
            final(self).main_mem == old(self).main_mem,
            final(self).additional_mem == old(self).additional_mem,
            final(self).om_mm_pos == old(self).om_mm_pos,
            final(self).reg_con_amount == old(self).reg_con_amount,
            old(self).error ==> final(self).error,
            ({
                let om = old(self).order_mem@;
                let fom = final(self).order_mem@;
                let p = old(self).om_mm_pos as int;
                let e = old(self).om_mm_end_pos as int;
                let c = amount_of(om_at(om, p), OrdMemType::Main);
                let m = amount_of(om_at(om, e), OrdMemType::Main);
                &&& p == e ==> *final(self) == *old(self)
                &&& p != e && (e == 0 || flag_of(om_at(om, p), OrdMemType::Main) == 1) ==> final(self).error
                &&& p != e && e != 0 && flag_of(om_at(om, p), OrdMemType::Main) == 0 ==> {
                    if m > AMOUNT_MAX - c {
                        &&& final(self).error == old(self).error
                        &&& final(self).om_mm_end_pos == e
                        &&& amount_of(om_at(fom, p), OrdMemType::Main) == AMOUNT_MAX
                        &&& flag_of(om_at(fom, p), OrdMemType::Main) == 1
                        &&& amount_of(om_at(fom, e), OrdMemType::Main) == m - (AMOUNT_MAX - c)
                    } else {
                        &&& final(self).om_mm_end_pos == e - 1
                        &&& p < e ==> if p + 1 == e {
                            &&& final(self).error == old(self).error
                            &&& amount_of(om_at(fom, p), OrdMemType::Main) == c + m
                            &&& flag_of(om_at(fom, p), OrdMemType::Main) == 0
                        } else if m == AMOUNT_MAX - c {
                            &&& final(self).error == old(self).error
                            &&& amount_of(om_at(fom, p), OrdMemType::Main) == AMOUNT_MAX
                            &&& flag_of(om_at(fom, p), OrdMemType::Main) == 1
                            &&& flag_of(om_at(fom, e - 1), OrdMemType::Main) == 0
                        } else {
                            &&& final(self).error == (old(self).error || (om_at(om, e - 1) >> 4u8) != 0x0Fu8)
                            &&& !final(self).error ==> {
                                &&& amount_of(om_at(fom, p), OrdMemType::Main) == AMOUNT_MAX
                                &&& flag_of(om_at(fom, p), OrdMemType::Main) == 1
                                &&& amount_of(om_at(fom, e - 1), OrdMemType::Main) == c + m
                                &&& flag_of(om_at(fom, e - 1), OrdMemType::Main) == 0
                            }
                        }
                    }
                }
            }),
    {
        if self.om_mm_pos == self.om_mm_end_pos { return }
        if self.om_mm_end_pos == 0 { self.error = true; return }

        let two_in_a_row = self.om_mm_pos + 1 == self.om_mm_end_pos;

        let cur_byte = self.om_read(self.om_mm_pos);
        let end_byte = self.om_read(self.om_mm_end_pos);

        if (cur_byte >> MM_OF_SHIFT) & 1 == 1 { self.error = true; return }

        let cur_amount = (cur_byte >> MM_AMOUNT_SHIFT) & AMOUNT_MAX;
        let end_can_move = (end_byte >> MM_AMOUNT_SHIFT) & AMOUNT_MAX;
        assert(cur_amount <= 7 && end_can_move <= 7) by (bit_vector)
            requires cur_amount == (cur_byte >> 4u8) & 7u8, end_can_move == (end_byte >> 4u8) & 7u8;
        let max_move = AMOUNT_MAX - cur_amount;
        let ghost p = self.om_mm_pos as int;
        let ghost e_pos = self.om_mm_end_pos as int;

        if end_can_move > max_move {
            self.om_write(self.om_mm_pos, cur_byte | (1u8 << MM_OF_SHIFT) | (AMOUNT_MAX << MM_AMOUNT_SHIFT));
            self.om_write(self.om_mm_end_pos, (end_byte & !MM_AMOUNT_MASK) | ((end_can_move - max_move) << MM_AMOUNT_SHIFT));
            proof {
                lemma_glue_bits(cur_byte, 0);
                lemma_om_bits(end_byte, (end_can_move - max_move) as u8);
            }
            return
        }
        if end_can_move == max_move {
            let mut cur_new = cur_byte | (1u8 << MM_OF_SHIFT) | (AMOUNT_MAX << MM_AMOUNT_SHIFT);
            if two_in_a_row { cur_new = cur_new & !(1u8 << MM_OF_SHIFT); }
            proof { lemma_glue_bits(cur_byte, 0); }
            self.om_write(self.om_mm_pos, cur_new);
            let e = self.om_read(self.om_mm_end_pos) & !MM_AMOUNT_MASK;
            self.om_write(self.om_mm_end_pos, e);
            self.om_pop_if_zero(self.om_mm_end_pos);
            assert(p < e_pos ==> om_at(self.order_mem@, p) == cur_new);
            self.om_mm_end_pos = self.om_mm_end_pos - 1;
            let ghost om1 = self.order_mem@;
            let e = self.om_read(self.om_mm_end_pos) & !(1u8 << MM_OF_SHIFT);
            self.om_write(self.om_mm_end_pos, e);
            proof { lemma_om_bits(om_at(om1, self.om_mm_end_pos as int), 0); }
            return
        }

        // end_can_move < max_move
        let delta = max_move - end_can_move;
        if two_in_a_row {
            self.om_write(self.om_mm_pos, (cur_byte & !MM_AMOUNT_MASK) | ((AMOUNT_MAX - delta) << MM_AMOUNT_SHIFT));
            proof { lemma_om_bits(cur_byte, (AMOUNT_MAX - delta) as u8); }
            let e = self.om_read(self.om_mm_end_pos) & !MM_AMOUNT_MASK;
            self.om_write(self.om_mm_end_pos, e);
            self.om_pop_if_zero(self.om_mm_end_pos);
            self.om_mm_end_pos = self.om_mm_end_pos - 1;
        } else {
            self.om_write(self.om_mm_pos, (cur_byte & !MM_AMOUNT_MASK) | (AMOUNT_MAX << MM_AMOUNT_SHIFT) | (1u8 << MM_OF_SHIFT));
            proof { lemma_glue_bits(cur_byte, 0); }
            let e = self.om_read(self.om_mm_end_pos) & !MM_AMOUNT_MASK;
            self.om_write(self.om_mm_end_pos, e);
            self.om_pop_if_zero(self.om_mm_end_pos);
            self.om_mm_end_pos = self.om_mm_end_pos - 1;
            let ghost om1 = self.order_mem@;
            if (self.om_read(self.om_mm_end_pos) >> MM_AMOUNT_SHIFT) != 0x0F { self.error = true; return }
            let mut e = self.om_read(self.om_mm_end_pos) & !(1u8 << MM_OF_SHIFT);
            e = e & !MM_AMOUNT_MASK;
            e = e | ((AMOUNT_MAX - delta) << MM_AMOUNT_SHIFT);
            proof { lemma_glue_bits(om_at(om1, self.om_mm_end_pos as int), (AMOUNT_MAX - delta) as u8); }
            self.om_write(self.om_mm_end_pos, e);
        }
    }

    /// Check the bookkeeping at run time: a device that holds it, as every
    /// device built by `new` and changed by the steps below does, stays as it is.
    pub fn ensure_wf(&mut self)
        ensures
            final(self).wf(),
            old(self).wf() ==> *final(self) == *old(self),
    {
        self.settle();
    }

    pub fn new(mm_size: usize, am_size: usize) -> (ret: Self)
        ensures
            ret.wf(),
            ret.spec_error() == (mm_size == 0),
            ret.spec_main() == seq![0u8],
            ret.spec_addi() == Seq::<u8>::empty(),
            ret.spec_order() == seq![0x10u8],
            !ret.spec_on_am(),
            ret.spec_cur_index() == 0,
            ret.spec_mm_size() == mm_size,
            ret.spec_am_size() == am_size,
    {
        let mut mm: Vec<u8> = Vec::new();
        mm.push(0x00);
        let am: Vec<u8> = Vec::new();
        let om_size = if mm_size > am_size { mm_size } else { am_size };
        let mut om: Vec<u8> = Vec::new();
        om.push(Self::create_om_cell(false, 1, false, 0));
        assert(spec_om_cell(false, 1, false, 0) == 0x10u8) by (bit_vector);
        let ret = Self {
            main_mem: mm,
            mm_size,
            mm_pos: 0,

            additional_mem: am,
            am_size,
            am_pos: None,
            am_last_clear_pos: None,
            trig_am_can_create: true,

            order_mem: om,
            om_size,
            om_mm_end_pos: 0,
            om_mm_pos: 0,
            om_am_end_pos: 0,
            om_am_pos: 0,
            trig_cur_am: false,

            reg_con_amount: 1,

            error: mm_size == 0,
        };
        ret
    }

    fn cur_con_end(&self) -> (r: bool)
        requires
            self.consistent(),
        ensures
            r == (self.cur_amount() == self.reg_con_amount),
    {
        let con_amount_real =
            if self.trig_cur_am { self.get_amount(self.om_am_pos, OrdMemType::Addi) }
            else { self.get_amount(self.om_mm_pos, OrdMemType::Main) };
        con_amount_real == self.reg_con_amount
    }

    /// Whether the current cell is the last cell of the tape.
    pub fn stay_on_the_end(&self) -> (r: bool)
        requires
            self.wf(),
            !self.spec_error(),
        ensures
            r == self.spec_on_the_end(),
    {
        let am_can_be_end =
            if self.am_pos.is_none() {
                (self.am_size == 0) || (self.get_amount(0, OrdMemType::Addi) == 0)
            } else {
                (self.am_pos.unwrap() == (self.am_size - 1))
                ||
                (self.order_mem.len() == self.om_am_pos + 1)
                ||
                (self.get_amount(self.om_am_pos + 1, OrdMemType::Addi) == 0)
            };

        let mm_can_be_end = (self.mm_pos == (self.mm_size - 1))
            || (self.order_mem.len() == self.om_mm_pos + 1)
            || (self.get_amount(self.om_mm_pos + 1, OrdMemType::Main) == 0);

        let con_end = self.cur_con_end();

        am_can_be_end && mm_can_be_end && con_end
    }

    /// Whether the current cell is the first cell of the tape.
    pub fn stay_on_the_start(&self) -> (r: bool)
        ensures
            r == (!self.spec_on_am() && self.spec_reg_con_amount() == 1 && self.spec_mm_pos() == 0),
    {
        if self.trig_cur_am { false }
        else { self.reg_con_amount == 1 && self.mm_pos == 0 }
    }

    fn cur_con_overflow(&self) -> (r: bool)
        ensures
            r == self.spec_run_continues(),
    {
        if self.trig_cur_am { self.get_of_flag(self.om_am_pos, OrdMemType::Addi) == 1 }
        else { self.get_of_flag(self.om_mm_pos, OrdMemType::Main) == 1 }
    }

    fn cur_con_prev_overflow(&self) -> (r: bool)
        ensures
            r == self.spec_prev_run_continues(),
    {
        if self.trig_cur_am {
            let om_am_pos = self.om_am_pos;
            (om_am_pos > 0) && (self.get_of_flag(om_am_pos - 1, OrdMemType::Addi) == 1)
        } else {
            let om_mm_pos = self.om_mm_pos;
            (om_mm_pos > 0) && (self.get_of_flag(om_mm_pos - 1, OrdMemType::Main) == 1)
        }
    }

    /// Auto pseudo-delete of a trailing zero main cell, when stepping back
    /// from it; only for `prev_cell`. Returns whether it deleted.
    fn try_pseudo_mm_del(&mut self, on_con_end: bool) -> (r: bool)
        requires
            old(self).om_mm_pos < usize::MAX,
        ensures
            final(self).error == old(self).error,
            final(self).mm_size == old(self).mm_size,
            final(self).am_size == old(self).am_size,
            final(self).trig_cur_am == old(self).trig_cur_am,
            final(self).am_pos == old(self).am_pos,
            final(self).mm_pos == old(self).mm_pos,
            final(self).om_mm_pos == old(self).om_mm_pos,
            final(self).reg_con_amount == old(self).reg_con_amount,
            forall|j: int| 0 <= j < old(self).om_mm_pos && j + 1 < old(self).order_mem@.len() ==>
                #[trigger] om_at(final(self).order_mem@, j) == om_at(old(self).order_mem@, j),
            old(self).om_mm_pos < old(self).order_mem@.len() ==> final(self).order_mem@.len() + 1 >= old(self).order_mem@.len(),
            !r ==> *final(self) == *old(self),
            old(self).trig_cur_am ==> !r,
            final(self).additional_mem == old(self).additional_mem,
            final(self).main_mem@ == old(self).main_mem@ || final(self).main_mem@ == old(self).main_mem@.drop_last(),
            r ==> final(self).main_mem@ == old(self).main_mem@.drop_last(),
            !r ==> final(self).main_mem == old(self).main_mem,
            r == (!old(self).error && on_con_end && !old(self).trig_cur_am && old(self).om_mm_pos == old(self).om_mm_end_pos
                && old(self).mm_pos < old(self).main_mem@.len() && old(self).main_mem@[old(self).mm_pos as int] == 0),
            r && old(self).reg_con_amount <= AMOUNT_MAX ==>
                amount_of(om_at(final(self).order_mem@, old(self).om_mm_pos as int), OrdMemType::Main) == old(self).reg_con_amount,
            r && old(self).reg_con_amount == 0 ==> flag_of(om_at(final(self).order_mem@, old(self).om_mm_pos as int), OrdMemType::Main) == 0,
    {
        if self.error { return false }

        if on_con_end && !self.trig_cur_am && (self.om_mm_pos == self.om_mm_end_pos)
            && self.mm_pos < self.main_mem.len() && self.main_mem[self.mm_pos] == 0x00
        {
            self.main_mem.pop();

            if self.reg_con_amount == 0 {
                let ghost b0 = om_at(self.order_mem@, self.om_mm_pos as int);
                self.off_of_flag(self.om_mm_pos, OrdMemType::Main);
                let ghost b1 = om_at(self.order_mem@, self.om_mm_pos as int);
                self.set_amount(self.om_mm_pos, 0, OrdMemType::Main);
                let ghost b2 = om_at(self.order_mem@, self.om_mm_pos as int);
                let ghost before_pop = self.order_mem@;
                self.om_pop_if_zero(self.om_mm_pos);
                proof {
                    lemma_om_bits(b0, 0);
                    lemma_om_bits(b1, 0);
                    assert(amount_of(b2, OrdMemType::Main) == 0 && flag_of(b2, OrdMemType::Main) == 0);
                    assert(amount_of(0u8, OrdMemType::Main) == 0 && flag_of(0u8, OrdMemType::Main) == 0) by (bit_vector);
                    let p = self.om_mm_pos as int;
                    if self.order_mem@ != before_pop && p >= self.order_mem@.len() {
                        assert(om_at(self.order_mem@, p) == 0);
                    } else if self.order_mem@ != before_pop {
                        assert(om_at(self.order_mem@, p) == om_at(before_pop, p));
                    }
                }
            } else {
                let ghost b0 = om_at(self.order_mem@, self.om_mm_pos as int);
                self.set_amount(self.om_mm_pos, self.reg_con_amount, OrdMemType::Main);
                proof {
                    if self.reg_con_amount <= 7 { lemma_om_bits(b0, self.reg_con_amount); }
                }
            }
            return true
        }

        false
    }

    pub fn error(&self) -> (r: bool)
        ensures
            r == self.spec_error(),
    {
        self.error
    }

    /// Move to the next cell; on the last cell a new zero main cell is
    /// appended, unless the main memory is full (then the error state).
    pub fn next_cell(&mut self)
        requires
            old(self).wf(),
        ensures
            final(self).wf(),
            final(self).spec_addi() == old(self).spec_addi(),
            final(self).spec_main() == old(self).spec_main()
                || final(self).spec_main() == old(self).spec_main().push(0),
            !old(self).spec_error() && !final(self).spec_error() ==> old(self).stepped_on(*final(self)),
            !old(self).spec_error() && !final(self).spec_error() && old(self).spec_on_the_end() ==>
                !final(self).spec_on_am() && final(self).spec_main() == old(self).spec_main().push(0),
            !old(self).spec_error() && !final(self).spec_error() && !old(self).spec_on_the_end() ==>
                final(self).spec_main() == old(self).spec_main(),
            !old(self).spec_error() && !final(self).spec_error() && !old(self).spec_on_the_end()
                && old(self).spec_run_len() != old(self).spec_reg_con_amount() ==>
                final(self).spec_on_am() == old(self).spec_on_am()
                && final(self).spec_reg_con_amount() == old(self).spec_reg_con_amount() + 1,
            !old(self).spec_error() && !final(self).spec_error() && !old(self).spec_on_the_end()
                && old(self).spec_run_len() == old(self).spec_reg_con_amount() ==>
                final(self).spec_reg_con_amount() == 1
                && final(self).spec_on_am() == (if old(self).spec_run_continues() { old(self).spec_on_am() } else { !old(self).spec_on_am() }),
            old(self).spec_error() ==> *final(self) == *old(self),
            old(self).spec_error() ==> final(self).spec_error(),
            final(self).spec_mm_size() == old(self).spec_mm_size(),
            final(self).spec_am_size() == old(self).spec_am_size(),
            !old(self).spec_error() && old(self).spec_on_the_end() && old(self).spec_mm_pos() == old(self).spec_mm_size() - 1
                ==> old(self).refused(*final(self)),
            !old(self).spec_error() && old(self).spec_on_the_end() && old(self).spec_mm_pos() + 1 < old(self).spec_mm_size()
                && old(self).spec_main().len() == old(self).spec_mm_pos() + 1
                && old(self).spec_order().len() + 3 < usize::MAX / 2
                ==> !final(self).spec_error() && final(self).spec_main() == old(self).spec_main().push(0)
                    && final(self).spec_mm_pos() == old(self).spec_mm_pos() + 1 && !final(self).spec_on_am()
                    && final(self).spec_am_pos() == old(self).spec_am_pos() && final(self).spec_addi() == old(self).spec_addi(),
            !old(self).spec_error() && !old(self).spec_on_the_end()
                && old(self).spec_reg_con_amount() < old(self).spec_run_len()
                && (if old(self).spec_on_am() { old(self).spec_am_index() + 1 < old(self).spec_addi().len() }
                    else { old(self).spec_mm_pos() + 1 < old(self).spec_main().len() })
                ==> !final(self).spec_error() && final(self).spec_main() == old(self).spec_main()
                    && final(self).spec_addi() == old(self).spec_addi() && final(self).spec_order() == old(self).spec_order()
                    && final(self).spec_on_am() == old(self).spec_on_am()
                    && final(self).spec_reg_con_amount() == old(self).spec_reg_con_amount() + 1
                    && old(self).stepped_on(*final(self)),
    {
        if self.error { return }

        if self.stay_on_the_end() {
            if self.mm_pos == (self.mm_size - 1) { self.error = true; return }
            self.main_mem.push(0x00);
            self.mm_pos = self.mm_pos + 1;

            if self.trig_cur_am { self.om_inc_mm_pos(); }
            self.om_inc_mm_con();
        } else {
            if self.cur_con_end() {
                self.reg_con_amount = 1;
                let overflow = self.cur_con_overflow();
                if !overflow { self.trig_cur_am = !self.trig_cur_am; }
                if self.trig_cur_am {
                    self.am_pos =
                        if let Some(x) = self.am_pos {
                            self.om_am_pos = self.om_am_pos + 1;
                            Some(x + 1)
                        } else {
                            if overflow { self.error = true; return }
                            Some(0)
                        };
                    if self.am_last_clear_pos.is_none() { self.am_last_clear_pos = self.am_pos; }
                } else {
                    self.mm_pos = self.mm_pos + 1;
                    self.om_mm_pos = self.om_mm_pos + 1;
                }
            } else {
                proof {
                    let b = om_at(self.order_mem@, if self.trig_cur_am { self.om_am_pos as int } else { self.om_mm_pos as int });
                    assert((b >> 4u8) & 7u8 <= 7u8) by (bit_vector);
                    assert(b & 7u8 <= 7u8) by (bit_vector);
                }
                if self.reg_con_amount >= AMOUNT_MAX { self.error = true; return }
                self.reg_con_amount = self.reg_con_amount + 1;
                if self.trig_cur_am {
                    self.am_pos =
                        if let Some(x) = self.am_pos { Some(x + 1) }
                        else { self.error = true; return };
                }
                else { self.mm_pos = self.mm_pos + 1; }
            }
            if self.trig_cur_am && self.am_pos == self.am_last_clear_pos { self.trig_am_can_create = true }
            if self.om_am_end_pos < self.om_am_pos { self.om_am_end_pos = self.om_am_pos; }
        }
        assert(!old(self).spec_error() && old(self).spec_on_the_end() && old(self).spec_mm_pos() + 1 < old(self).spec_mm_size()
            && old(self).spec_main().len() == old(self).spec_mm_pos() + 1
            && old(self).spec_order().len() + 3 < usize::MAX / 2 ==> self.consistent());
        assert(!old(self).spec_error() && !old(self).spec_on_the_end()
            && old(self).spec_reg_con_amount() < old(self).spec_run_len()
            && (if old(self).spec_on_am() { old(self).spec_am_index() + 1 < old(self).spec_addi().len() }
                else { old(self).spec_mm_pos() + 1 < old(self).spec_main().len() }) ==> self.consistent());
        self.settle();
    }

    /// Move to the previous cell; on the first cell, the error state.
    pub fn prev_cell(&mut self)
        requires
            old(self).wf(),
        ensures
            final(self).wf(),
            final(self).spec_addi() == old(self).spec_addi(),
            final(self).spec_main() == old(self).spec_main()
                || final(self).spec_main() == old(self).spec_main().drop_last(),
            !old(self).spec_error() && !final(self).spec_error() ==> old(self).stepped_back(*final(self)),
            !old(self).spec_error() && !final(self).spec_error() && old(self).spec_reg_con_amount() > 1 ==>
                final(self).spec_on_am() == old(self).spec_on_am()
                && final(self).spec_reg_con_amount() == old(self).spec_reg_con_amount() - 1,
            !old(self).spec_error() && !final(self).spec_error() && old(self).spec_reg_con_amount() == 1 ==>
                final(self).spec_reg_con_amount() == final(self).spec_run_len()
                && final(self).spec_on_am() == (if old(self).spec_prev_run_continues() { old(self).spec_on_am() } else { !old(self).spec_on_am() }),
            old(self).spec_error() ==> *final(self) == *old(self),
            final(self).spec_mm_size() == old(self).spec_mm_size(),
            final(self).spec_am_size() == old(self).spec_am_size(),
            !old(self).spec_error() && !old(self).spec_on_am() && old(self).spec_reg_con_amount() == 1 && old(self).spec_mm_pos() == 0
                ==> old(self).refused(*final(self)),
            !old(self).spec_error() && !old(self).spec_on_am() && old(self).spec_reg_con_amount() > 1
                && old(self).spec_mm_pos() > 0 && !old(self).spec_on_the_end()
                ==> !final(self).spec_error() && final(self).spec_main() == old(self).spec_main()
                    && final(self).spec_addi() == old(self).spec_addi() && final(self).spec_order() == old(self).spec_order()
                    && final(self).spec_mm_pos() == old(self).spec_mm_pos() - 1 && !final(self).spec_on_am()
                    && final(self).spec_reg_con_amount() == old(self).spec_reg_con_amount() - 1,
            !old(self).spec_error() && old(self).spec_on_am() && old(self).spec_reg_con_amount() > 1
                && old(self).spec_am_index() > 0 && !old(self).spec_on_the_end()
                ==> !final(self).spec_error() && final(self).spec_main() == old(self).spec_main()
                    && final(self).spec_addi() == old(self).spec_addi() && final(self).spec_order() == old(self).spec_order()
                    && final(self).spec_am_index() == old(self).spec_am_index() - 1 && final(self).spec_on_am()
                    && final(self).spec_reg_con_amount() == old(self).spec_reg_con_amount() - 1,
            ({
                let drops = old(self).spec_on_the_end() && !old(self).spec_on_am()
                    && old(self).spec_om_mm_pos() == old(self).spec_om_mm_end_pos() && old(self).spec_cur_value() == 0
                    && !(old(self).spec_reg_con_amount() == 1 && old(self).spec_mm_pos() == 0);
                &&& !old(self).spec_error() && !final(self).spec_error() && drops
                    ==> final(self).spec_main() == old(self).spec_main().drop_last()
                &&& !old(self).spec_error() && !final(self).spec_error() && !drops
                    ==> final(self).spec_main() == old(self).spec_main()
            }),
    {
        if self.error { return }

        let on_con_end = self.cur_con_end();
        let on_the_end = self.stay_on_the_end();

        if self.trig_cur_am && self.am_last_clear_pos.is_some() && self.am_pos == self.am_last_clear_pos {
            self.trig_am_can_create = false
        }

        if self.reg_con_amount == 1 {
            if self.stay_on_the_start() { self.error = true; return }

            self.reg_con_amount = 0;
            let ghost before_del = *self;
            let need_null_mm_of = on_the_end && self.try_pseudo_mm_del(on_con_end);
            proof {
                if !self.trig_cur_am && self.om_mm_pos > 0 {
                    assert(om_at(self.order_mem@, self.om_mm_pos - 1) == om_at(before_del.order_mem@, before_del.om_mm_pos - 1));
                }
                assert(before_del.spec_prev_run_continues() == old(self).spec_prev_run_continues());
                assert(self.trig_cur_am == before_del.trig_cur_am);
                if self.trig_cur_am {
                    assert(*self == before_del);
                }
                assert(self.spec_prev_run_continues() == before_del.spec_prev_run_continues());
            }

            let overflow = self.cur_con_prev_overflow();

            if self.trig_cur_am {
                match self.am_pos {
                    Some(0) => { self.am_pos = None; }
                    Some(x) => {
                        if self.om_am_pos == 0 { self.error = true; return }
                        self.am_pos = Some(x - 1);
                        self.om_am_pos = self.om_am_pos - 1;
                    }
                    None => { self.error = true; return }
                }
            } else {
                if self.mm_pos == 0 || self.om_mm_pos == 0 { self.error = true; return }
                self.mm_pos = self.mm_pos - 1;
                self.om_mm_pos = self.om_mm_pos - 1;
                if need_null_mm_of {
                    self.off_of_flag(self.om_mm_pos, OrdMemType::Main);
                    if self.om_mm_end_pos == 0 { self.error = true; return }
                    self.om_mm_end_pos = self.om_mm_end_pos - 1;
                }
            }

            if !overflow { self.trig_cur_am = !self.trig_cur_am; }

            self.reg_con_amount =
                if self.trig_cur_am { self.get_amount(self.om_am_pos, OrdMemType::Addi) }
                else { self.get_amount(self.om_mm_pos, OrdMemType::Main) };
        } else {
            self.reg_con_amount = self.reg_con_amount - 1;
            if self.trig_cur_am {
                self.am_pos =
                    match self.am_pos {
                        Some(x) if x > 0 => Some(x - 1),
                        _ => { self.error = true; return }
                    };
            } else {
                if on_the_end { self.try_pseudo_mm_del(on_con_end); }
                if self.mm_pos == 0 { self.error = true; return }
                self.mm_pos = self.mm_pos - 1;
            }
        }
        self.settle();
    }

    /// Write the current cell.
    pub fn set_value(&mut self, value: u8)
        requires
            old(self).wf(),
        ensures
            final(self).wf(),
            old(self).spec_error() ==> *final(self) == *old(self),
            !old(self).spec_error() ==> {
                &&& final(self).spec_cur_value() == value
                &&& final(self).spec_cur_index() == old(self).spec_cur_index()
                &&& final(self).spec_on_am() == old(self).spec_on_am()
                &&& !final(self).spec_error()
                &&& final(self).spec_order() == old(self).spec_order()
                &&& final(self).spec_mm_pos() == old(self).spec_mm_pos()
                &&& final(self).spec_am_pos() == old(self).spec_am_pos()
                &&& final(self).spec_reg_con_amount() == old(self).spec_reg_con_amount()
                &&& if old(self).spec_on_am() {
                    final(self).spec_addi() == old(self).spec_addi().update(old(self).spec_cur_index(), value)
                    && final(self).spec_main() == old(self).spec_main()
                } else {
                    final(self).spec_main() == old(self).spec_main().update(old(self).spec_cur_index(), value)
                    && final(self).spec_addi() == old(self).spec_addi()
                }
            },
            final(self).spec_mm_size() == old(self).spec_mm_size(),
            final(self).spec_am_size() == old(self).spec_am_size(),
    {
        if self.error { return }
        if self.trig_cur_am {
            let p = self.am_pos.unwrap();
            self.additional_mem.set(p, value);
            if self.trig_am_can_create {
                if !(self.am_pos == self.am_last_clear_pos) {
                    self.am_last_clear_pos = self.am_pos;
                }
            }
        } else {
            self.main_mem.set(self.mm_pos, value);
        }
    }

    /// The current cell, or `None` in the error state.
    pub fn get_value(&self) -> (r: Option<u8>)
        requires
            self.wf(),
        ensures
            r == if self.spec_error() { None } else { Some(self.spec_cur_value()) },
    {
        if self.error { return None }
        if self.trig_cur_am { Some(self.additional_mem[self.am_pos.unwrap()]) }
        else { Some(self.main_mem[self.mm_pos]) }
    }

    /// Create an additional cell after the current one and move to it.
    pub fn create_cell(&mut self)
        requires
            old(self).wf(),
        ensures
            final(self).wf(),
            !final(self).spec_error() ==> final(self).spec_addi() == old(self).spec_addi().push(0),
            final(self).spec_main() == old(self).spec_main()
                || final(self).spec_main() == old(self).spec_main().push(0),
            old(self).spec_error() ==> *final(self) == *old(self),
            final(self).spec_mm_size() == old(self).spec_mm_size(),
            final(self).spec_am_size() == old(self).spec_am_size(),
            !old(self).spec_error() && (!old(self).spec_can_create()
                || (old(self).spec_am_pos() is None && old(self).spec_am_size() == 0)
                || (old(self).spec_am_pos() matches Some(p) && p == old(self).spec_am_size() - 1))
                ==> old(self).refused(*final(self)),
    {
        if self.error { return }
        if !self.trig_am_can_create { self.error = true; return }
        if (self.am_pos.is_none() && self.am_size == 0)
            || (self.am_pos.is_some() && self.am_pos.unwrap() == (self.am_size - 1))
            { self.error = true; return }

        self.additional_mem.push(0x00);

        let start_on_mm = !self.trig_cur_am;

        let con_amount_save = self.reg_con_amount;
        if start_on_mm {
            self.om_mm_transfer();
            if self.om_am_pos >= usize::MAX / 2 || self.om_am_end_pos >= usize::MAX / 2 { self.error = true; return }
            if self.am_pos.is_some() {
                self.om_am_pos = self.om_am_pos + 1;
                self.om_am_end_pos = self.om_am_end_pos + 1;
                if self.om_am_pos != self.om_am_end_pos { self.error = true; return }
                if self.om_am_pos > self.om_mm_end_pos { self.order_mem.push(0x00); }
                self.set_amount(self.om_am_pos, 1, OrdMemType::Addi);
                self.om_am_pos = self.om_am_pos - 1;
            } else {
                if self.om_am_pos != 0 { self.error = true; return }
                self.set_amount(0, 1, OrdMemType::Addi);
            }
        } else {
            if self.om_am_end_pos >= usize::MAX / 2 { self.error = true; return }
            self.om_inc_am_con();
        }
        self.reg_con_amount = con_amount_save;

        self.settle();
        self.next_cell();
        if start_on_mm { self.am_last_clear_pos = self.am_pos; }
        self.settle();
    }

    /// Delete the current additional cell.
    pub fn delete_cell(&mut self)
        requires
            old(self).wf(),
        ensures
            final(self).wf(),
            !final(self).spec_error() ==> {
                &&& final(self).spec_addi().len() + 1 == old(self).spec_addi().len()
                &&& forall|i: int| 0 <= i < final(self).spec_addi().len() && i != old(self).spec_cur_index()
                    ==> #[trigger] final(self).spec_addi()[i] == old(self).spec_addi()[i]
            },
            old(self).spec_error() ==> *final(self) == *old(self),
            final(self).spec_mm_size() == old(self).spec_mm_size(),
            final(self).spec_am_size() == old(self).spec_am_size(),
            !old(self).spec_error() && (!old(self).spec_on_am() || !old(self).spec_can_create())
                ==> old(self).refused(*final(self)),
            !old(self).spec_error() && !final(self).spec_error() ==> (old(self).spec_last_clear() matches Some(lc) && {
                if lc < old(self).spec_am_index() {
                    final(self).spec_addi() == old(self).spec_addi().drop_last()
                } else {
                    final(self).spec_addi() == old(self).spec_addi().update(old(self).spec_am_index(), 0).drop_last()
                }
            }),
    {
        if self.error { return }
        if !self.trig_cur_am { self.error = true; return }
        if !self.trig_am_can_create { self.error = true; return }

        let om_type = OrdMemType::Addi;

        let am_pos = match self.am_pos { Some(p) => p, None => { self.error = true; return } };
        let last_clear_am_pos = match self.am_last_clear_pos { Some(p) => p, None => { self.error = true; return } };

        if last_clear_am_pos > am_pos { self.error = true; return }

        if last_clear_am_pos < am_pos {
            // a clear created cell after the current one: just pop it
            // (the step back reads only the order memory, so it may come first)
            self.prev_cell();
            if self.error { return }
            if self.additional_mem.pop() != Some(0x00u8) { self.error = true; return }
            if !self.trig_cur_am { self.error = true; return }

            let pos = self.om_am_end_pos;
            if pos >= usize::MAX / 2 { self.error = true; return }
            if self.get_of_flag(pos, om_type) == 1 { self.error = true; return }
            let x = self.get_amount(pos, om_type);
            if x == 0 { self.error = true; return }

            if x == 1 {
                self.set_amount(pos, 0, om_type);
                self.om_pop_if_zero(pos);
                if pos == 0 { self.error = true; return }

                let pos = pos - 1;
                if self.get_amount(pos, om_type) != AMOUNT_MAX { self.error = true; return }
                self.off_of_flag(pos, om_type);

                if self.om_am_pos == self.om_am_end_pos {
                    if self.om_am_pos == 0 { self.error = true; return }
                    self.om_am_pos = self.om_am_pos - 1;
                }
                self.om_am_end_pos = self.om_am_end_pos - 1;
            } else {
                self.set_amount(pos, x - 1, om_type);
            }

            if am_pos == 0 { self.error = true; return }
            self.am_pos = Some(am_pos - 1);
        } else {
            if am_pos < self.additional_mem.len() { self.additional_mem.set(am_pos, 0x00); }
            else { self.error = true; return }
            self.settle();
            self.prev_cell();
            if self.error { return }
            let stay_first = !self.trig_cur_am;

            let mut need_mm_glue = false;

            let pos = self.om_am_end_pos;
            if pos >= usize::MAX / 2 || self.om_mm_pos >= usize::MAX / 2 || self.om_mm_end_pos >= usize::MAX / 2 { self.error = true; return }
            let x = self.get_amount(pos, om_type);
            if x == 1 {
                self.set_amount(pos, 0, om_type);
                self.om_pop_if_zero(pos);
                if pos != 0 {
                    let pos = pos - 1;
                    if self.get_of_flag(pos, om_type) == 0 { need_mm_glue = true; }
                    self.off_of_flag(pos, om_type);

                    self.om_am_end_pos = self.om_am_end_pos - 1;
                    if self.om_am_pos > self.om_am_end_pos { self.om_am_pos = self.om_am_pos - 1; }
                } else {
                    need_mm_glue = true;
                }
            } else {
                if x == 0 { self.error = true; return }
                self.set_amount(pos, x - 1, om_type);
            }

            if need_mm_glue { self.om_mm_glue(); }

            self.additional_mem.pop();
            if stay_first && !need_mm_glue {
                self.settle();
                self.next_cell();
            }

            self.am_last_clear_pos = self.am_pos;
            self.trig_am_can_create = true;
        }
        self.settle();
    }

    // ---------------------------------------------------------------------
    // [+] print

    fn print_cells(mem: &Vec<u8>, new_line_each: usize, as_order: bool) -> (s: String)
        ensures
            s@ == seq!['|'] + print_cells_text(mem@, new_line_each as nat, as_order) + print_tail(as_order),
    {
        let mut v: Vec<char> = Vec::new();
        v.push('|');
        let mut i: usize = 0;
        while i < mem.len()
            invariant
                i <= mem@.len(),
                v@ == seq!['|'] + print_cells_text(mem@.take(i as int), new_line_each as nat, as_order),
            decreases mem@.len() - i,
        {
            let x = mem[i];
            if as_order {
                push_om_cell(&mut v, x);
            } else {
                push_hex2(&mut v, x);
                v.push('|');
            }
            if new_line_each > 0 && i != 0 && i % new_line_each == 0 {
                v.push('\n');
                v.push('|');
            }
            assert(mem@.take(i as int + 1).drop_last() =~= mem@.take(i as int));
            i = i + 1;
            assert(v@ =~= seq!['|'] + print_cells_text(mem@.take(i as int), new_line_each as nat, as_order));
        }
        assert(mem@.take(mem@.len() as int) =~= mem@);
        if as_order { push_chars(&mut v, &['F', '0', 'F', '0', '|', '.', '.', '.']); }
        else { push_chars(&mut v, &['0', '0', '|', '.', '.', '.']); }
        chars_to_string(&v)
    }

    /// Text of the order memory: each byte as overflow flag (`T`/`F`) and
    /// amount, for main then additional cells, between `|`; a line break
    /// after each `new_line_each`-th byte when that is not 0.
    pub fn print_om(&self, new_line_each: usize) -> (s: String)
        ensures
            s@ == seq!['|'] + print_cells_text(self.spec_order(), new_line_each as nat, true) + print_tail(true),
    {
        Self::print_cells(&self.order_mem, new_line_each, true)
    }

    /// Text of the main memory: each byte in two hexadecimal digits.
    pub fn print_mm(&self, new_line_each: usize) -> (s: String)
        ensures
            s@ == seq!['|'] + print_cells_text(self.spec_main(), new_line_each as nat, false) + print_tail(false),
    {
        Self::print_cells(&self.main_mem, new_line_each, false)
    }

    /// Text of the additional memory: each byte in two hexadecimal digits.
    pub fn print_am(&self, new_line_each: usize) -> (s: String)
        ensures
            s@ == seq!['|'] + print_cells_text(self.spec_addi(), new_line_each as nat, false) + print_tail(false),
    {
        Self::print_cells(&self.additional_mem, new_line_each, false)
    }

    // [-] print
    // ---------------------------------------------------------------------

    // ---------------------------------------------------------------------
    // [+] registers

    /// Whether the current cell is an additional one.
    pub fn trig_cur_am(&self) -> (r: bool)
        ensures r == self.spec_on_am(),
    {
        self.trig_cur_am
    }

    /// Whether a cell can be created or deleted here.
    pub fn trig_am_can_create(&self) -> (r: bool)
        ensures r == self.spec_can_create(),
    {
        self.trig_am_can_create
    }

    /// Index of the current (or last visited) additional cell.
    pub fn am_pos(&self) -> (r: Option<usize>)
        ensures r == self.spec_am_pos(),
    {
        self.am_pos
    }

    /// Index of the last additional cell that was written.
    pub fn am_last_clear_pos(&self) -> (r: Option<usize>)
        ensures r == self.spec_last_clear(),
    {
        self.am_last_clear_pos
    }

    /// Order-memory position of the current additional run.
    pub fn om_am_pos(&self) -> (r: usize)
        ensures r == self.spec_om_am_pos(),
    {
        self.om_am_pos
    }

    /// Order-memory position of the last additional run.
    pub fn om_am_end_pos(&self) -> (r: usize)
        ensures r == self.spec_om_am_end_pos(),
    {
        self.om_am_end_pos
    }

    /// Order-memory position of the current main run.
    pub fn om_mm_pos(&self) -> (r: usize)
        ensures r == self.spec_om_mm_pos(),
    {
        self.om_mm_pos
    }

    /// Order-memory position of the last main run.
    pub fn om_mm_end_pos(&self) -> (r: usize)
        ensures r == self.spec_om_mm_end_pos(),
    {
        self.om_mm_end_pos
    }

    /// Place of the current cell in its run, from 1.
    pub fn reg_con_amount(&self) -> (r: u8)
        ensures r == self.spec_reg_con_amount(),
    {
        self.reg_con_amount
    }

    // [-] registers
    // ---------------------------------------------------------------------
}

proof fn reveal_am_index(c: CemInner)
    ensures
        c.spec_am_pos() matches Some(p) ==> c.spec_am_index() == p,
        c.spec_am_pos() is None ==> c.spec_am_index() == -1,
        c.spec_am_index() >= -1,
{
}

/// A step back after a step on puts the positions in both memories back
/// where they were.
pub proof fn law_prev_after_next_positions(c0: CemInner, c1: CemInner, c2: CemInner)
    requires
        c0.stepped_on(c1),
        c1.stepped_back(c2),
    ensures
        c2.spec_mm_pos() == c0.spec_mm_pos(),
        c2.spec_am_pos() == c0.spec_am_pos(),
{
    reveal_am_index(c0);
    reveal_am_index(c2);
}

}
