use vstd::prelude::*;
use crate::compiler::compiler::{is_ascii_graphic, is_ascii_ws, is_ascii_ws_exec};
use super::console_inner::{ConsoleInner, ConsoleRead, PrivateConsoleNeedWrite, ReadStep};

verus! {

/// The byte read when nothing can be read.
pub const DEFAULT: u8 = 0x00;

/// Characters the ASCII console takes and gives: printable ASCII and ASCII
/// white space.
pub open spec fn ascii_ok(c: char) -> bool {
    is_ascii_graphic(c) || is_ascii_ws(c)
}

/// A console of ASCII characters: a byte written is printed as its
/// character, a byte read is the next character typed.
pub struct DevConsoleAscii {
    inner: ConsoleInner,
    error: bool,
    infinity: bool,
}

impl DevConsoleAscii {
    pub closed spec fn inner(&self) -> ConsoleInner { self.inner }
    pub closed spec fn spec_own_error(&self) -> bool { self.error }
    pub closed spec fn spec_infinity(&self) -> bool { self.infinity }

    /// The device error: its own, or that of the console.
    pub open spec fn spec_have_error(&self) -> bool {
        self.spec_own_error() || self.inner().spec_error()
    }

    pub fn new(need_write_state: PrivateConsoleNeedWrite) -> (r: Self)
        ensures
            r.inner().spec_pending().len() == 0,
            r.inner().spec_out().len() == 0,
            !r.inner().spec_error(),
            r.inner().spec_need_write() == need_write_state.need_write_state,
            r.inner().spec_prev() is None,
            !r.spec_own_error(),
            !r.spec_infinity(),
    {
        Self { inner: ConsoleInner::new(need_write_state), error: false, infinity: false }
    }

    pub fn ok_char(c: char) -> (r: bool)
        ensures
            r == ascii_ok(c),
    {
        ('!' <= c && c <= '~') || is_ascii_ws_exec(c)
    }

    pub fn ok_byte(x: u8) -> (r: bool)
        ensures
            r == ascii_ok(x as char),
    {
        Self::ok_char(x as char)
    }

    /// Read a byte: the next character typed if it is one the console
    /// takes (else the device fails), or a request for a line of input.
    /// Reading after an error makes the wait endless.
    pub fn read_step(&mut self) -> (r: ReadStep)
        ensures
            old(self).spec_infinity() ==> r == ReadStep::Byte(DEFAULT) && *final(self) == *old(self),
            !old(self).spec_infinity() && old(self).spec_have_error() ==>
                r == ReadStep::Byte(DEFAULT) && final(self).spec_infinity()
                && final(self).inner() == old(self).inner()
                && final(self).spec_own_error() == old(self).spec_own_error(),
            !old(self).spec_infinity() && !old(self).spec_have_error() ==>
                old(self).read_from(old(self).inner().spec_pending(), *final(self), r),
    {
        if self.in_infinity_state() {
            return ReadStep::Byte(DEFAULT);
        }
        if self.have_error() {
            self.infinity = true;
            return ReadStep::Byte(DEFAULT);
        }
        self.read_go()
    }

    /// What a read that got past the checks does with the input `pending`
    /// not yet taken: `new` after `self`, and the step `r`.
    pub open spec fn read_from(self, pending: Seq<char>, new: Self, r: ReadStep) -> bool {
        &&& self.inner().marked_for_read(new.inner())
        &&& !new.spec_infinity()
        &&& if pending.len() == 0 {
            r is NeedLine && new.inner().spec_pending() == pending
            && new.spec_own_error() == self.spec_own_error()
        } else {
            &&& new.inner().spec_pending() == pending.drop_first()
            &&& if ascii_ok(pending[0]) {
                r == ReadStep::Byte(pending[0] as u8) && new.spec_own_error() == self.spec_own_error()
            } else {
                r == ReadStep::Byte(DEFAULT) && new.spec_own_error()
            }
        }
    }

    fn read_go(&mut self) -> (r: ReadStep)
        requires
            !old(self).spec_infinity(),
            !old(self).spec_have_error(),
        ensures
            old(self).read_from(old(self).inner().spec_pending(), *final(self), r),
    {
        match self.inner.read_char() {
            ConsoleRead::Char(c) => {
                if Self::ok_char(c) {
                    ReadStep::Byte(c as u8)
                } else {
                    self.error = true;
                    ReadStep::Byte(DEFAULT)
                }
            }
            ConsoleRead::NeedLine => ReadStep::NeedLine,
            ConsoleRead::Failed => {
                self.error = true;
                ReadStep::Byte(DEFAULT)
            }
        }
    }

    /// Go on with a read that asked for a line: `Some` line read, or
    /// `None` when reading failed (the console fails, the byte is the
    /// default one).
    pub fn resume_read(&mut self, line: Option<&str>) -> (r: ReadStep)
        requires
            !old(self).spec_infinity(),
            !old(self).spec_have_error(),
            old(self).inner().spec_pending().len() == 0,
        ensures
            match line {
                Some(l) => old(self).read_from(l@ + seq!['\n'], *final(self), r),
                None => r == ReadStep::Byte(DEFAULT) && final(self).spec_have_error()
                    && !final(self).spec_infinity(),
            },
    {
        match line {
            Some(l) => {
                self.inner.feed_line(l);
                assert(old(self).inner().spec_pending() + l@ + seq!['\n'] =~= l@ + seq!['\n']);
                self.read_go()
            }
            None => {
                self.inner.set_error();
                self.error = true;
                ReadStep::Byte(DEFAULT)
            }
        }
    }

    /// Write a byte: its character is printed if the console takes it,
    /// else the device fails. Nothing happens after an error.
    pub fn write_byte(&mut self, byte: u8)
        ensures
            old(self).spec_infinity() || old(self).spec_have_error() ==> *final(self) == *old(self),
            !old(self).spec_infinity() && !old(self).spec_have_error() ==> {
                &&& final(self).spec_infinity() == old(self).spec_infinity()
                &&& if ascii_ok(byte as char) {
                    old(self).inner().wrote(final(self).inner(), seq![byte as char])
                    && final(self).spec_own_error() == old(self).spec_own_error()
                } else {
                    final(self).inner() == old(self).inner() && final(self).spec_own_error()
                }
            },
    {
        if self.in_infinity_state() || self.have_error() {
            return;
        }
        if Self::ok_byte(byte) {
            self.inner.write_char(byte as char);
        } else {
            self.error = true;
        }
    }

    pub fn test_can_read_byte(&self) -> (r: bool)
        ensures
            r == !(self.spec_have_error() || self.spec_infinity()),
    {
        !(self.have_error() || self.in_infinity_state())
    }

    pub fn have_error(&self) -> (r: bool)
        ensures
            r == self.spec_have_error(),
    {
        self.error || self.inner.error()
    }

    pub fn in_infinity_state(&self) -> (r: bool)
        ensures
            r == self.spec_infinity(),
    {
        self.infinity
    }

    /// Hand out the text to print, and forget it.
    pub fn take_output(&mut self) -> (r: String)
        ensures
            r@ == old(self).inner().spec_out(),
            final(self).inner().spec_out().len() == 0,
            final(self).inner().spec_pending() == old(self).inner().spec_pending(),
            final(self).inner().spec_error() == old(self).inner().spec_error(),
            final(self).inner().spec_prev() == old(self).inner().spec_prev(),
            final(self).spec_own_error() == old(self).spec_own_error(),
            final(self).spec_infinity() == old(self).spec_infinity(),
    {
        self.inner.take_output()
    }

    /// Printing failed: the console fails.
    pub fn set_io_error(&mut self)
        ensures
            final(self).spec_have_error(),
            final(self).spec_infinity() == old(self).spec_infinity(),
    {
        self.inner.set_error();
    }
}

}
