use vstd::prelude::*;
use super::console_inner::{ConsoleInner, ConsoleRead, PrivateConsoleNeedWrite, ReadStep};

verus! {

/// The byte read when nothing can be read.
pub const DEFAULT: u8 = 0x00;

/// The UTF-8 bytes of a character.
pub open spec fn utf8_bytes(c: char) -> Seq<u8> {
    let v = c as u32;
    if v < 0x80 {
        seq![v as u8]
    } else if v < 0x800 {
        seq![(0xC0 | (v >> 6)) as u8, (0x80 | (v & 0x3F)) as u8]
    } else if v < 0x10000 {
        seq![(0xE0 | (v >> 12)) as u8, (0x80 | ((v >> 6) & 0x3F)) as u8, (0x80 | (v & 0x3F)) as u8]
    } else {
        seq![
            (0xF0 | (v >> 18)) as u8,
            (0x80 | ((v >> 12) & 0x3F)) as u8,
            (0x80 | ((v >> 6) & 0x3F)) as u8,
            (0x80 | (v & 0x3F)) as u8,
        ]
    }
}

/// The number that UTF-8 bytes `bs` (one to four) stand for: the low
/// bits of the leading byte above the six low bits of each byte after it.
pub open spec fn utf8_value(bs: Seq<u8>) -> u32 {
    if bs.len() == 1 {
        bs[0] as u32
    } else if bs.len() == 2 {
        (((bs[0] & 0x1F) as u32) << 6u32) | ((bs[1] & 0x3F) as u32)
    } else if bs.len() == 3 {
        (((bs[0] & 0x0F) as u32) << 12u32) | (((bs[1] & 0x3F) as u32) << 6u32) | ((bs[2] & 0x3F) as u32)
    } else {
        (((bs[0] & 0x07) as u32) << 18u32) | (((bs[1] & 0x3F) as u32) << 12u32)
            | (((bs[2] & 0x3F) as u32) << 6u32) | ((bs[3] & 0x3F) as u32)
    }
}

/// The character whose UTF-8 bytes are `bs`, if there is one.
pub open spec fn utf8_char(bs: Seq<u8>) -> Option<char> {
    let v = utf8_value(bs);
    if is_char_value(v) && utf8_bytes(v as char) == bs { Some(v as char) } else { None }
}

/// Whether `v` is the number of a character: at most `0x10FFFF` and not a
/// surrogate.
pub open spec fn is_char_value(v: u32) -> bool {
    v <= 0x10FFFF && !(0xD800 <= v <= 0xDFFF)
}

/// std `char::from_u32`: the character numbered `v`, or `None` when `v`
/// is above `0x10FFFF` or a surrogate (`0xD800` to `0xDFFF`), as std's
/// documentation states.
#[verifier::external_body]
fn char_from_u32(v: u32) -> (r: Option<char>)
    ensures
        r == (if is_char_value(v) { Some(v as char) } else { None::<char> }),
{
    char::from_u32(v)
}

fn utf8_bytes_exec(c: char) -> (r: Vec<u8>)
    ensures
        r@ == utf8_bytes(c),
{
    let v = c as u32;
    let mut r: Vec<u8> = Vec::new();
    if v < 0x80 {
        r.push(v as u8);
    } else if v < 0x800 {
        r.push((0xC0 | (v >> 6)) as u8);
        r.push((0x80 | (v & 0x3F)) as u8);
    } else if v < 0x10000 {
        r.push((0xE0 | (v >> 12)) as u8);
        r.push((0x80 | ((v >> 6) & 0x3F)) as u8);
        r.push((0x80 | (v & 0x3F)) as u8);
    } else {
        r.push((0xF0 | (v >> 18)) as u8);
        r.push((0x80 | ((v >> 12) & 0x3F)) as u8);
        r.push((0x80 | ((v >> 6) & 0x3F)) as u8);
        r.push((0x80 | (v & 0x3F)) as u8);
    }
    assert(r@ =~= utf8_bytes(c));
    r
}

fn utf8_value_exec(bs: &Vec<u8>) -> (r: u32)
    requires
        1 <= bs@.len() <= 4,
    ensures
        r == utf8_value(bs@),
{
    if bs.len() == 1 {
        bs[0] as u32
    } else if bs.len() == 2 {
        (((bs[0] & 0x1F) as u32) << 6u32) | ((bs[1] & 0x3F) as u32)
    } else if bs.len() == 3 {
        (((bs[0] & 0x0F) as u32) << 12u32) | (((bs[1] & 0x3F) as u32) << 6u32) | ((bs[2] & 0x3F) as u32)
    } else {
        (((bs[0] & 0x07) as u32) << 18u32) | (((bs[1] & 0x3F) as u32) << 12u32)
            | (((bs[2] & 0x3F) as u32) << 6u32) | ((bs[3] & 0x3F) as u32)
    }
}

fn bytes_eq(a: &Vec<u8>, b: &Vec<u8>) -> (r: bool)
    ensures
        r == (a@ == b@),
{
    if a.len() != b.len() { return false }
    let mut i: usize = 0;
    while i < a.len()
        invariant
            i <= a@.len(),
            a@.len() == b@.len(),
            forall|k: int| 0 <= k < i ==> a@[k] == b@[k],
        decreases a@.len() - i,
    {
        if a[i] != b[i] { return false }
        i = i + 1;
    }
    assert(a@ =~= b@);
    true
}

/// The character whose UTF-8 bytes are `bs`, if there is one.
fn utf8_char_exec(bs: &Vec<u8>) -> (r: Option<char>)
    requires
        1 <= bs@.len() <= 4,
    ensures
        r == utf8_char(bs@),
{
    let v = utf8_value_exec(bs);
    match char_from_u32(v) {
        Some(c) => {
            let e = utf8_bytes_exec(c);
            if bytes_eq(&e, bs) { Some(c) } else { None }
        }
        None => None,
    }
}

/// A console of UTF-8 characters. A character typed is read as its
/// length in bytes and then its bytes; a character is written as its
/// length (1 to 4) and then its UTF-8 bytes, which give the character
/// printed.
pub struct DevConsoleUtf8 {
    readed_buffer: Vec<u8>,
    writed_buffer: Vec<u8>,
    write_len: usize,
    inner: ConsoleInner,
    error: bool,
    infinity: bool,
}

impl DevConsoleUtf8 {
    pub closed spec fn inner(&self) -> ConsoleInner { self.inner }
    pub closed spec fn spec_own_error(&self) -> bool { self.error }
    pub closed spec fn spec_infinity(&self) -> bool { self.infinity }
    /// The bytes of a character read, not yet handed out.
    pub closed spec fn spec_readed(&self) -> Seq<u8> { self.readed_buffer@ }
    /// The bytes of a character being written.
    pub closed spec fn spec_writed(&self) -> Seq<u8> { self.writed_buffer@ }
    /// How many bytes the character being written has (0: none is).
    pub closed spec fn spec_write_len(&self) -> usize { self.write_len }

    pub closed spec fn wf(&self) -> bool {
        &&& self.write_len <= 4
        &&& self.writed_buffer@.len() <= self.write_len
        &&& !self.error && self.write_len != 0 ==> self.writed_buffer@.len() < self.write_len
    }

    /// The device error: its own, or that of the console.
    pub open spec fn spec_have_error(&self) -> bool {
        self.spec_own_error() || self.inner().spec_error()
    }

    pub fn new(need_write_state: PrivateConsoleNeedWrite) -> (r: Self)
        ensures
            r.wf(),
            r.spec_readed().len() == 0,
            r.spec_writed().len() == 0,
            r.spec_write_len() == 0,
            r.inner().spec_pending().len() == 0,
            r.inner().spec_out().len() == 0,
            !r.inner().spec_error(),
            r.inner().spec_need_write() == need_write_state.need_write_state,
            r.inner().spec_prev() is None,
            !r.spec_own_error(),
            !r.spec_infinity(),
    {
        Self {
            readed_buffer: Vec::new(),
            writed_buffer: Vec::new(),
            write_len: 0,
            inner: ConsoleInner::new(need_write_state),
            error: false,
            infinity: false,
        }
    }

    /// What a read of a new character does with the input `pending` not
    /// yet taken: `new` after `self`, and the step `r`.
    pub open spec fn read_from(self, pending: Seq<char>, new: Self, r: ReadStep) -> bool {
        &&& self.inner().marked_for_read(new.inner())
        &&& !new.spec_infinity()
        &&& new.spec_own_error() == self.spec_own_error()
        &&& new.spec_writed() == self.spec_writed()
        &&& new.spec_write_len() == self.spec_write_len()
        &&& if pending.len() == 0 {
            r is NeedLine && new.inner().spec_pending() == pending
            && new.spec_readed() == self.spec_readed()
        } else {
            &&& new.inner().spec_pending() == pending.drop_first()
            &&& new.spec_readed() == utf8_bytes(pending[0])
            &&& r == ReadStep::Byte(utf8_bytes(pending[0]).len() as u8)
        }
    }

    /// Read a byte: while a character is being written, the wait is
    /// endless; else the next byte of the character read, or the length of
    /// the next character typed (its bytes come next), or a request for a
    /// line of input. Reading after an error makes the wait endless.
    pub fn read_step(&mut self) -> (r: ReadStep)
        requires
            old(self).wf(),
        ensures
            final(self).wf(),
            old(self).spec_infinity() ==> r == ReadStep::Byte(DEFAULT) && *final(self) == *old(self),
            !old(self).spec_infinity() && old(self).spec_have_error() ==>
                r == ReadStep::Byte(DEFAULT) && final(self).spec_infinity()
                && final(self).inner() == old(self).inner()
                && final(self).spec_own_error() == old(self).spec_own_error(),
            !old(self).spec_infinity() && !old(self).spec_have_error() ==> {
                if old(self).spec_write_len() != 0 {
                    r == ReadStep::Byte(DEFAULT) && final(self).spec_infinity()
                    && final(self).inner() == old(self).inner()
                    && final(self).spec_readed() == old(self).spec_readed()
                } else if old(self).spec_readed().len() > 0 {
                    r == ReadStep::Byte(old(self).spec_readed()[0])
                    && final(self).spec_readed() == old(self).spec_readed().drop_first()
                    && final(self).inner() == old(self).inner()
                    && !final(self).spec_infinity()
                    && final(self).spec_own_error() == old(self).spec_own_error()
                } else {
                    old(self).read_from(old(self).inner().spec_pending(), *final(self), r)
                }
            },
    {
        if self.infinity {
            return ReadStep::Byte(DEFAULT);
        }
        if self.have_error() {
            self.infinity = true;
            return ReadStep::Byte(DEFAULT);
        }
        if self.write_len != 0 {
            self.infinity = true;
            return ReadStep::Byte(DEFAULT);
        }
        if self.readed_buffer.len() > 0 {
            let b = self.readed_buffer.remove(0);
            assert(self.readed_buffer@ =~= old(self).readed_buffer@.drop_first());
            return ReadStep::Byte(b);
        }
        self.read_go()
    }

    fn read_go(&mut self) -> (r: ReadStep)
        requires
            old(self).wf(),
            !old(self).spec_infinity(),
            !old(self).spec_have_error(),
            old(self).spec_write_len() == 0,
            old(self).spec_readed().len() == 0,
        ensures
            final(self).wf(),
            old(self).read_from(old(self).inner().spec_pending(), *final(self), r),
    {
        match self.inner.read_char() {
            ConsoleRead::Char(c) => {
                let bytes = utf8_bytes_exec(c);
                let len = bytes.len();
                self.readed_buffer = bytes;
                ReadStep::Byte(len as u8)
            }
            ConsoleRead::NeedLine => ReadStep::NeedLine,
            ConsoleRead::Failed => ReadStep::Byte(DEFAULT),
        }
    }

    /// Go on with a read that asked for a line: `Some` line read, or
    /// `None` when reading failed (the console fails, the byte is the
    /// default one).
    pub fn resume_read(&mut self, line: Option<&str>) -> (r: ReadStep)
        requires
            old(self).wf(),
            !old(self).spec_infinity(),
            !old(self).spec_have_error(),
            old(self).spec_write_len() == 0,
            old(self).spec_readed().len() == 0,
            old(self).inner().spec_pending().len() == 0,
        ensures
            final(self).wf(),
            match line {
                Some(l) => old(self).read_from(l@ + seq!['\n'], *final(self), r),
                None => r == ReadStep::Byte(DEFAULT) && final(self).spec_have_error()
                    && !final(self).spec_infinity(),
            },
    {
        match line {
            Some(l) => {
                self.inner.feed_line(l);
                assert(old(self).inner().spec_pending() + l@ + seq!['\n'] =~= l@ + seq!['\n']);
                self.read_go()
            }
            None => {
                self.inner.set_error();
                ReadStep::Byte(DEFAULT)
            }
        }
    }

    /// Write a byte: the length of a character (1 to 4; else the device
    /// fails), or the next byte of the character; with its last byte the
    /// character is printed (if the bytes give none, the device fails).
    /// Writing while bytes of a character read are left fails. Nothing
    /// happens after an error.
    pub fn write_byte(&mut self, byte: u8)
        requires
            old(self).wf(),
        ensures
            final(self).wf(),
            old(self).spec_infinity() || old(self).spec_have_error() ==> *final(self) == *old(self),
            !old(self).spec_infinity() && !old(self).spec_have_error() ==> {
                &&& !final(self).spec_infinity()
                &&& final(self).spec_readed() == old(self).spec_readed()
                &&& if old(self).spec_readed().len() > 0 {
                    final(self).spec_own_error() && final(self).inner() == old(self).inner()
                    && final(self).spec_writed() == old(self).spec_writed()
                    && final(self).spec_write_len() == old(self).spec_write_len()
                } else if old(self).spec_write_len() == 0 {
                    &&& final(self).inner() == old(self).inner()
                    &&& final(self).spec_writed() == old(self).spec_writed()
                    &&& if byte == 0 || byte > 4 {
                        final(self).spec_own_error() && final(self).spec_write_len() == 0
                    } else {
                        !final(self).spec_own_error() && final(self).spec_write_len() == byte
                    }
                } else {
                    let w = old(self).spec_writed().push(byte);
                    if w.len() < old(self).spec_write_len() {
                        &&& final(self).spec_writed() == w
                        &&& final(self).spec_write_len() == old(self).spec_write_len()
                        &&& final(self).inner() == old(self).inner()
                        &&& !final(self).spec_own_error()
                    } else if utf8_char(w) is Some {
                        &&& old(self).inner().wrote(final(self).inner(), seq![utf8_char(w)->0])
                        &&& final(self).spec_writed().len() == 0
                        &&& final(self).spec_write_len() == 0
                        &&& !final(self).spec_own_error()
                    } else {
                        &&& final(self).spec_own_error()
                        &&& final(self).spec_writed() == w
                        &&& final(self).inner() == old(self).inner()
                    }
                }
            },
    {
        if self.infinity || self.have_error() {
            return;
        }
        if self.readed_buffer.len() > 0 {
            self.error = true;
            return;
        }
        if self.write_len == 0 {
            if byte == 0 || byte > 4 {
                self.error = true;
                return;
            }
            self.write_len = byte as usize;
        } else {
            self.writed_buffer.push(byte);
            if self.writed_buffer.len() == self.write_len {
                match utf8_char_exec(&self.writed_buffer) {
                    Some(c) => {
                        self.inner.write_char(c);
                        self.writed_buffer.clear();
                        self.write_len = 0;
                    }
                    None => {
                        self.error = true;
                    }
                }
            }
        }
    }

    pub fn test_can_read_byte(&self) -> (r: bool)
        ensures
            r == !(self.spec_have_error() || self.spec_infinity()),
    {
        !(self.have_error() || self.in_infinity_state())
    }

    pub fn have_error(&self) -> (r: bool)
        ensures
            r == self.spec_have_error(),
    {
        self.error || self.inner.error()
    }

    pub fn in_infinity_state(&self) -> (r: bool)
        ensures
            r == self.spec_infinity(),
    {
        self.infinity
    }

    /// Hand out the text to print, and forget it.
    pub fn take_output(&mut self) -> (r: String)
        requires
            old(self).wf(),
        ensures
            final(self).wf(),
            r@ == old(self).inner().spec_out(),
            final(self).inner().spec_out().len() == 0,
            final(self).inner().spec_pending() == old(self).inner().spec_pending(),
            final(self).inner().spec_error() == old(self).inner().spec_error(),
            final(self).spec_own_error() == old(self).spec_own_error(),
            final(self).spec_infinity() == old(self).spec_infinity(),
            final(self).spec_readed() == old(self).spec_readed(),
            final(self).spec_write_len() == old(self).spec_write_len(),
    {
        self.inner.take_output()
    }

    /// Printing failed: the console fails.
    pub fn set_io_error(&mut self)
        requires
            old(self).wf(),
        ensures
            final(self).wf(),
            final(self).spec_have_error(),
            final(self).spec_infinity() == old(self).spec_infinity(),
    {
        self.inner.set_error();
    }
}

}
