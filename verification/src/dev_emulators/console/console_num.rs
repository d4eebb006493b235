use vstd::prelude::*;
use crate::compiler::compiler::{is_ascii_ws, is_ascii_ws_exec};
use crate::general::text::{is_dec_digit, push_decimal, spec_decimal, spec_hex_digit};
use super::console_inner::{ConsoleInner, ConsoleRead, ReadStep, default_need_write_state};

verus! {

/// The byte read when nothing can be read.
pub const DEFAULT: u8 = 0x00;

/// The most digits of a byte ("255").
pub const MAX_BYTE_LEN: u32 = 3;

/// A number being read: whether a digit came yet, how many came, and the
/// value of those digits.
#[derive(Clone, Copy, PartialEq, Eq, Structural)]
pub struct NumParse {
    pub was_num: bool,
    pub len: u32,
    pub num: u32,
}

/// No digit yet.
pub open spec fn parse_start() -> NumParse {
    NumParse { was_num: false, len: 0, num: 0 }
}

/// `10` to the power `len`, for `len <= 3`.
pub open spec fn ten_pow(len: u32) -> int {
    if len == 0 { 1 } else if len == 1 { 10 } else if len == 2 { 100 } else { 1000 }
}

/// At most three digits, and a value that they can give.
pub open spec fn parse_wf(p: NumParse) -> bool {
    p.len <= MAX_BYTE_LEN && p.num < ten_pow(p.len)
}

/// What one character does to a number being read: it goes on, or the
/// read ends with a byte (`Some`) or with a failure (`None`).
pub enum NumStep {
    Go(NumParse),
    Done(Option<u8>),
}

/// White space before the number is skipped; white space after it ends
/// it (a value above 255 fails); anything but a digit fails, and so does a
/// fourth digit.
pub open spec fn num_char_step(p: NumParse, c: char) -> NumStep {
    let space = is_ascii_ws(c);
    if !p.was_num && space {
        NumStep::Go(p)
    } else if p.was_num && space {
        if p.num <= 255 { NumStep::Done(Some(p.num as u8)) } else { NumStep::Done(None) }
    } else if !is_dec_digit(c) {
        NumStep::Done(None)
    } else if p.len + 1 > MAX_BYTE_LEN {
        NumStep::Done(None)
    } else {
        NumStep::Go(NumParse {
            was_num: true,
            len: (p.len + 1) as u32,
            num: (p.num * 10 + ((c as int) - ('0' as int))) as u32,
        })
    }
}

/// Reading a number from the characters `s`: how it ends (or the state it
/// waits in when `s` runs out), and how many characters it takes.
#[verifier::opaque]
pub open spec fn num_run(p: NumParse, s: Seq<char>) -> (NumStep, nat)
    decreases s.len(),
{
    if s.len() == 0 {
        (NumStep::Go(p), 0)
    } else {
        match num_char_step(p, s[0]) {
            NumStep::Go(q) => {
                let t = num_run(q, s.drop_first());
                (t.0, t.1 + 1)
            }
            NumStep::Done(o) => (NumStep::Done(o), 1),
        }
    }
}

/// One step of `num_run`.
proof fn lemma_num_run_unfold(p: NumParse, s: Seq<char>)
    ensures
        s.len() == 0 ==> num_run(p, s) == (NumStep::Go(p), 0nat),
        s.len() > 0 ==> num_run(p, s) == (match num_char_step(p, s[0]) {
            NumStep::Go(q) => (num_run(q, s.drop_first()).0, num_run(q, s.drop_first()).1 + 1),
            NumStep::Done(o) => (NumStep::Done(o), 1nat),
        }),
{
    reveal(num_run);
}

proof fn lemma_num_run_len(p: NumParse, s: Seq<char>)
    ensures
        num_run(p, s).1 <= s.len(),
        num_run(p, s).0 is Go ==> num_run(p, s).1 == s.len(),
    decreases s.len(),
{
    lemma_num_run_unfold(p, s);
    if s.len() > 0 {
        match num_char_step(p, s[0]) {
            NumStep::Go(q) => { lemma_num_run_len(q, s.drop_first()); }
            NumStep::Done(_) => {}
        }
    }
}

/// A console of numbers: a byte written is printed in decimal with a
/// space after it (and a line break after every `new_line_freq` of them,
/// unless that is 0); a byte read is a decimal number typed, ended by
/// white space.
pub struct DevConsoleNum {
    /// how often a line break is written
    new_line_freq: usize,
    /// how many were written on this line
    writed_on_cur_line: usize,
    inner: ConsoleInner,
    error: bool,
    infinity: bool,
    /// the number being read, while the read waits for a line
    parse: NumParse,
}

impl DevConsoleNum {
    pub closed spec fn inner(&self) -> ConsoleInner { self.inner }
    pub closed spec fn spec_own_error(&self) -> bool { self.error }
    pub closed spec fn spec_infinity(&self) -> bool { self.infinity }
    pub closed spec fn spec_new_line_freq(&self) -> usize { self.new_line_freq }
    pub closed spec fn spec_writed(&self) -> usize { self.writed_on_cur_line }
    pub closed spec fn spec_parse(&self) -> NumParse { self.parse }

    pub closed spec fn wf(&self) -> bool {
        &&& parse_wf(self.parse)
        &&& self.new_line_freq == 0 ==> self.writed_on_cur_line == 0
        &&& self.new_line_freq != 0 ==> self.writed_on_cur_line < self.new_line_freq
    }

    /// The device error: its own, or that of the console.
    pub open spec fn spec_have_error(&self) -> bool {
        self.spec_own_error() || self.inner().spec_error()
    }

    pub fn new(new_line_freq: usize) -> (r: Self)
        ensures
            r.wf(),
            r.spec_new_line_freq() == new_line_freq,
            r.spec_writed() == 0,
            r.spec_parse() == parse_start(),
            r.inner().spec_pending().len() == 0,
            r.inner().spec_out().len() == 0,
            !r.inner().spec_error(),
            !r.inner().spec_need_write(),
            r.inner().spec_prev() is None,
            !r.spec_own_error(),
            !r.spec_infinity(),
    {
        Self {
            new_line_freq,
            writed_on_cur_line: 0,
            inner: ConsoleInner::new(default_need_write_state()),
            error: false,
            infinity: false,
            parse: NumParse { was_num: false, len: 0, num: 0 },
        }
    }

    /// What a read that got past the checks does with the input `pending`
    /// not yet taken: `new` after `self`, and the step `r`.
    pub open spec fn read_from(self, pending: Seq<char>, new: Self, r: ReadStep) -> bool {
        let t = num_run(self.spec_parse(), pending);
        &&& self.inner().marked_for_read(new.inner())
        &&& !new.spec_infinity()
        &&& new.wf()
        &&& new.spec_new_line_freq() == self.spec_new_line_freq()
        &&& new.spec_writed() == self.spec_writed()
        &&& new.inner().spec_pending() == pending.skip(t.1 as int)
        &&& match t.0 {
            NumStep::Go(q) => r is NeedLine && new.spec_parse() == q
                && new.spec_own_error() == self.spec_own_error(),
            NumStep::Done(Some(b)) => r == ReadStep::Byte(b) && new.spec_parse() == parse_start()
                && new.spec_own_error() == self.spec_own_error(),
            NumStep::Done(None) => r == ReadStep::Byte(DEFAULT) && new.spec_parse() == parse_start()
                && new.spec_own_error(),
        }
    }

    /// Read a byte: the number typed, or a request for a line of input
    /// (the number read so far is kept). Reading after an error makes the
    /// wait endless.
    pub fn read_step(&mut self) -> (r: ReadStep)
        requires
            old(self).wf(),
        ensures
            final(self).wf(),
            old(self).spec_infinity() ==> r == ReadStep::Byte(DEFAULT) && *final(self) == *old(self),
            !old(self).spec_infinity() && old(self).spec_have_error() ==>
                r == ReadStep::Byte(DEFAULT) && final(self).spec_infinity()
                && final(self).inner() == old(self).inner()
                && final(self).spec_own_error() == old(self).spec_own_error(),
            !old(self).spec_infinity() && !old(self).spec_have_error() ==>
                old(self).read_from(old(self).inner().spec_pending(), *final(self), r),
    {
        if self.infinity {
            return ReadStep::Byte(DEFAULT);
        }
        if self.have_error() {
            self.infinity = true;
            return ReadStep::Byte(DEFAULT);
        }
        self.read_go()
    }

    fn char_step_exec(p: NumParse, c: char) -> (r: NumStep)
        requires
            parse_wf(p),
        ensures
            r == num_char_step(p, c),
            r matches NumStep::Go(q) ==> parse_wf(q),
    {
        let space = is_ascii_ws_exec(c);
        if !p.was_num && space {
            NumStep::Go(p)
        } else if p.was_num && space {
            if p.num <= 255 { NumStep::Done(Some(p.num as u8)) } else { NumStep::Done(None) }
        } else if !('0' <= c && c <= '9') {
            NumStep::Done(None)
        } else if p.len + 1 > MAX_BYTE_LEN {
            NumStep::Done(None)
        } else {
            let d: u32 = (c as u32) - ('0' as u32);
            NumStep::Go(NumParse { was_num: true, len: p.len + 1, num: p.num * 10 + d })
        }
    }

    fn read_go(&mut self) -> (r: ReadStep)
        requires
            old(self).wf(),
            !old(self).spec_infinity(),
            !old(self).spec_have_error(),
        ensures
            old(self).read_from(old(self).inner().spec_pending(), *final(self), r),
    {
        let ghost p0 = self.inner.spec_pending();
        let ghost st0 = self.parse;
        let ghost in0 = self.inner;
        let ghost mut taken: int = 0;
        let ghost mut started = false;
        proof { lemma_num_run_len(st0, p0); }
        loop
            invariant
                self.wf(),
                !self.infinity,
                !self.error,
                !old(self).spec_own_error(),
                !self.inner.spec_error(),
                self.new_line_freq == old(self).new_line_freq,
                self.writed_on_cur_line == old(self).writed_on_cur_line,
                p0 == old(self).inner().spec_pending(),
                st0 == old(self).spec_parse(),
                in0 == old(self).inner(),
                0 <= taken <= p0.len(),
                self.inner.spec_pending() == p0.skip(taken),
                num_run(st0, p0).0 == num_run(self.parse, self.inner.spec_pending()).0,
                num_run(st0, p0).1 == num_run(self.parse, self.inner.spec_pending()).1 + taken,
                !started ==> self.inner == in0,
                started ==> in0.marked_for_read(self.inner),
            decreases self.inner.spec_pending().len(),
        {
            let ghost pend = self.inner.spec_pending();
            let ghost before = self.inner;
            let ghost p = self.parse;
            let got = self.inner.read_char();
            proof {
                ConsoleInner::lemma_marked_twice(in0, before, self.inner);
                started = true;
                lemma_num_run_unfold(p, pend);
            }
            match got {
                ConsoleRead::Char(c) => {
                    assert(c == pend[0]);
                    assert(pend.drop_first() =~= p0.skip(taken + 1));
                    match Self::char_step_exec(self.parse, c) {
                        NumStep::Go(q) => {
                            self.parse = q;
                            proof { taken = taken + 1; }
                        }
                        NumStep::Done(Some(b)) => {
                            self.parse = NumParse { was_num: false, len: 0, num: 0 };
                            return ReadStep::Byte(b);
                        }
                        NumStep::Done(None) => {
                            self.parse = NumParse { was_num: false, len: 0, num: 0 };
                            self.error = true;
                            return ReadStep::Byte(DEFAULT);
                        }
                    }
                }
                ConsoleRead::NeedLine => {
                    return ReadStep::NeedLine;
                }
                ConsoleRead::Failed => {
                    self.parse = NumParse { was_num: false, len: 0, num: 0 };
                    self.error = true;
                    return ReadStep::Byte(DEFAULT);
                }
            }
        }
    }

    /// Go on with a read that asked for a line: `Some` line read, or
    /// `None` when reading failed (the console fails, the byte is the
    /// default one).
    pub fn resume_read(&mut self, line: Option<&str>) -> (r: ReadStep)
        requires
            old(self).wf(),
            !old(self).spec_infinity(),
            !old(self).spec_have_error(),
            old(self).inner().spec_pending().len() == 0,
        ensures
            final(self).wf(),
            match line {
                Some(l) => old(self).read_from(l@ + seq!['\n'], *final(self), r),
                None => r == ReadStep::Byte(DEFAULT) && final(self).spec_have_error()
                    && !final(self).spec_infinity() && final(self).spec_parse() == parse_start(),
            },
    {
        match line {
            Some(l) => {
                self.inner.feed_line(l);
                assert(old(self).inner().spec_pending() + l@ + seq!['\n'] =~= l@ + seq!['\n']);
                self.read_go()
            }
            None => {
                self.inner.set_error();
                self.error = true;
                self.parse = NumParse { was_num: false, len: 0, num: 0 };
                ReadStep::Byte(DEFAULT)
            }
        }
    }

    /// The text written for `byte` when `writed` bytes are on the line.
    pub open spec fn written_text(&self, byte: u8) -> Seq<char> {
        spec_decimal(byte as nat) + seq![' ']
            + (if self.spec_new_line_freq() != 0 && self.spec_writed() + 1 == self.spec_new_line_freq() {
                seq!['\n']
            } else {
                Seq::empty()
            })
    }

    /// Write a byte in decimal with a space after it, and a line break
    /// when the line is full. Nothing happens after an error.
    pub fn write_byte(&mut self, byte: u8)
        requires
            old(self).wf(),
        ensures
            final(self).wf(),
            old(self).spec_infinity() || old(self).spec_have_error() ==> *final(self) == *old(self),
            !old(self).spec_infinity() && !old(self).spec_have_error() ==> {
                &&& old(self).inner().wrote(final(self).inner(), old(self).written_text(byte))
                &&& final(self).spec_writed() == (if old(self).spec_new_line_freq() == 0 {
                    0
                } else if old(self).spec_writed() + 1 == old(self).spec_new_line_freq() {
                    0
                } else {
                    (old(self).spec_writed() + 1) as usize
                })
                &&& final(self).spec_new_line_freq() == old(self).spec_new_line_freq()
                &&& final(self).spec_parse() == old(self).spec_parse()
                &&& final(self).spec_own_error() == old(self).spec_own_error()
                &&& final(self).spec_infinity() == old(self).spec_infinity()
            },
    {
        if self.infinity || self.have_error() {
            return;
        }
        let mut v: Vec<char> = Vec::new();
        push_decimal(&mut v, byte as usize);
        v.push(' ');
        if self.new_line_freq != 0 {
            self.writed_on_cur_line = self.writed_on_cur_line + 1;
            if self.writed_on_cur_line == self.new_line_freq {
                v.push('\n');
                self.writed_on_cur_line = 0;
            }
        }
        assert(v@ =~= old(self).written_text(byte));
        self.inner.write_chars(v.as_slice());
    }

    pub fn test_can_read_byte(&self) -> (r: bool)
        ensures
            r == !(self.spec_have_error() || self.spec_infinity()),
    {
        !(self.have_error() || self.in_infinity_state())
    }

    pub fn have_error(&self) -> (r: bool)
        ensures
            r == self.spec_have_error(),
    {
        self.error || self.inner.error()
    }

    pub fn in_infinity_state(&self) -> (r: bool)
        ensures
            r == self.spec_infinity(),
    {
        self.infinity
    }

    /// Hand out the text to print, and forget it.
    pub fn take_output(&mut self) -> (r: String)
        requires
            old(self).wf(),
        ensures
            final(self).wf(),
            r@ == old(self).inner().spec_out(),
            final(self).inner().spec_out().len() == 0,
            final(self).inner().spec_pending() == old(self).inner().spec_pending(),
            final(self).inner().spec_error() == old(self).inner().spec_error(),
            final(self).spec_own_error() == old(self).spec_own_error(),
            final(self).spec_infinity() == old(self).spec_infinity(),
            final(self).spec_parse() == old(self).spec_parse(),
    {
        self.inner.take_output()
    }

    /// Printing failed: the console fails.
    pub fn set_io_error(&mut self)
        requires
            old(self).wf(),
        ensures
            final(self).wf(),
            final(self).spec_have_error(),
            final(self).spec_infinity() == old(self).spec_infinity(),
    {
        self.inner.set_error();
    }
}


// ---------------------------------------------------------------------
// [+] reading the decimal text of a byte

proof fn lemma_num_run_concat(p: NumParse, a: Seq<char>, b: Seq<char>)
    requires
        num_run(p, a).0 is Go,
    ensures
        num_run(p, a + b) == (num_run(num_run(p, a).0->Go_0, b).0, a.len() + num_run(num_run(p, a).0->Go_0, b).1),
    decreases a.len(),
{
    lemma_num_run_unfold(p, a);
    lemma_num_run_unfold(p, a + b);
    if a.len() == 0 {
        assert(a + b =~= b);
    } else {
        assert((a + b)[0] == a[0]);
        assert((a + b).drop_first() =~= a.drop_first() + b);
        match num_char_step(p, a[0]) {
            NumStep::Go(q) => { lemma_num_run_concat(q, a.drop_first(), b); }
            NumStep::Done(_) => {}
        }
    }
}

proof fn lemma_decimal_len(n: nat)
    ensures
        n < 10 ==> spec_decimal(n).len() == 1,
        n < 100 ==> spec_decimal(n).len() <= 2,
        n < 1000 ==> spec_decimal(n).len() <= 3,
        spec_decimal(n).len() >= 1,
    decreases n,
{
    if n >= 10 { lemma_decimal_len(n / 10); }
}

/// The decimal digits of a number below 1000 read as that number.
proof fn lemma_num_run_decimal(n: nat)
    requires
        n < 1000,
    ensures
        num_run(parse_start(), spec_decimal(n)).0
            == NumStep::Go(NumParse { was_num: true, len: spec_decimal(n).len() as u32, num: n as u32 }),
    decreases n,
{
    lemma_decimal_len(n);
    if n < 10 {
        let c = spec_hex_digit(n);
        assert((c as int) - ('0' as int) == n);
        assert(!is_ascii_ws(c) && is_dec_digit(c));
        lemma_num_run_unfold(parse_start(), spec_decimal(n));
        assert(spec_decimal(n).drop_first() =~= Seq::<char>::empty());
        assert(spec_decimal(n)[0] == c);
        let r = NumParse { was_num: true, len: 1, num: n as u32 };
        assert(num_char_step(parse_start(), c) == NumStep::Go(r));
        lemma_num_run_unfold(r, spec_decimal(n).drop_first());
        assert(num_run(r, spec_decimal(n).drop_first()).0 == NumStep::Go(r));
    } else {
        let m = n / 10;
        lemma_num_run_decimal(m);
        lemma_decimal_len(m);
        let c = spec_hex_digit(n % 10);
        assert((c as int) - ('0' as int) == n % 10);
        assert(!is_ascii_ws(c) && is_dec_digit(c));
        let q = NumParse { was_num: true, len: spec_decimal(m).len() as u32, num: m as u32 };
        lemma_num_run_concat(parse_start(), spec_decimal(m), seq![c]);
        assert(spec_decimal(n) == spec_decimal(m) + seq![c]);
        lemma_num_run_unfold(q, seq![c]);
        lemma_num_run_unfold(num_char_step_go(q, c), seq![c].drop_first());
        assert(seq![c].drop_first() =~= Seq::<char>::empty());
        assert(seq![c][0] == c);
        assert(m * 10 + n % 10 == n);
        let r = NumParse { was_num: true, len: (q.len + 1) as u32, num: (q.num * 10 + ((c as int) - ('0' as int))) as u32 };
        assert(num_char_step(q, c) == NumStep::Go(r));
        assert(num_run(q, seq![c]).0 == NumStep::Go(r));
        assert(spec_decimal(n).len() == spec_decimal(m).len() + 1);
        assert(r == NumParse { was_num: true, len: spec_decimal(n).len() as u32, num: n as u32 });
    }
}

/// The state after one digit `c` on `q` (when it goes on).
spec fn num_char_step_go(q: NumParse, c: char) -> NumParse {
    match num_char_step(q, c) { NumStep::Go(r) => r, NumStep::Done(_) => q }
}

/// Law: a line holding the decimal text of a byte `b` (one to three
/// digits), then white space, reads as `b`; the read takes the digits and
/// the white space.
pub proof fn lemma_read_decimal_byte(b: u8, w: char, rest: Seq<char>)
    requires
        is_ascii_ws(w),
    ensures
        num_run(parse_start(), spec_decimal(b as nat) + seq![w] + rest)
            == (NumStep::Done(Some(b)), spec_decimal(b as nat).len() + 1),
{
    let d = spec_decimal(b as nat);
    lemma_num_run_decimal(b as nat);
    let q = NumParse { was_num: true, len: d.len() as u32, num: b as u32 };
    assert(d + seq![w] + rest == d + (seq![w] + rest));
    lemma_num_run_concat(parse_start(), d, seq![w] + rest);
    lemma_num_run_unfold(q, seq![w] + rest);
    assert((seq![w] + rest)[0] == w);
}

// [-] reading the decimal text of a byte
// ---------------------------------------------------------------------

}
