use vstd::prelude::*;
use crate::general::text::{chars_to_string, push_chars, str_to_chars};

verus! {

/// Whether a console marks where its input and its output begin.
pub struct PrivateConsoleNeedWrite {
    pub need_write_state: bool,
}

/// By default a console does not mark them.
pub fn default_need_write_state() -> (r: PrivateConsoleNeedWrite)
    ensures
        !r.need_write_state,
{
    PrivateConsoleNeedWrite { need_write_state: false }
}

/// What the console did last.
#[derive(Clone, Copy, PartialEq, Eq, Structural)]
pub enum ConsoleState {
    Read,
    Write,
}

/// What a console gives for one character of input: the character, a
/// request for the next line of input, or nothing after an error.
pub enum ConsoleRead {
    Char(char),
    NeedLine,
    Failed,
}

/// What a console device gives for a read: the byte, or a request for
/// the next line of input (the read goes on once the line is handed in).
#[derive(PartialEq, Eq, Structural)]
pub enum ReadStep {
    Byte(u8),
    NeedLine,
}

/// `[INPUT ]:` and a line break.
pub open spec fn input_mark() -> Seq<char> {
    seq!['[', 'I', 'N', 'P', 'U', 'T', ' ', ']', ':', '\n']
}

/// `[OUTPUT]:` and a line break.
pub open spec fn output_mark() -> Seq<char> {
    seq!['[', 'O', 'U', 'T', 'P', 'U', 'T', ']', ':', '\n']
}

/// What a console that marks its state prints before input: the input
/// mark at its start or after output (then on a line of its own).
pub open spec fn read_mark(need_write: bool, prev: Option<ConsoleState>) -> Seq<char> {
    if !need_write {
        Seq::empty()
    } else {
        match prev {
            None => input_mark(),
            Some(ConsoleState::Write) => seq!['\n'] + input_mark(),
            Some(ConsoleState::Read) => Seq::empty(),
        }
    }
}

/// What a console that marks its state prints before output: the output
/// mark at its start or after input.
pub open spec fn write_mark(need_write: bool, prev: Option<ConsoleState>) -> Seq<char> {
    if !need_write {
        Seq::empty()
    } else {
        match prev {
            Some(ConsoleState::Write) => Seq::empty(),
            _ => output_mark(),
        }
    }
}

/// The text side of a console: the input not yet taken (what is left of
/// the lines read), the text not yet printed, and whether it failed.
pub struct ConsoleInner {
    last_line: Vec<char>,
    out: Vec<char>,
    error: bool,
    need_write_state: bool,
    prev_state: Option<ConsoleState>,
}

impl ConsoleInner {
    pub closed spec fn spec_pending(&self) -> Seq<char> { self.last_line@ }
    pub closed spec fn spec_out(&self) -> Seq<char> { self.out@ }
    pub closed spec fn spec_error(&self) -> bool { self.error }
    pub closed spec fn spec_need_write(&self) -> bool { self.need_write_state }
    pub closed spec fn spec_prev(&self) -> Option<ConsoleState> { self.prev_state }

    /// `new` is `self` after the input mark (if any) was added.
    pub open spec fn marked_for_read(self, new: Self) -> bool {
        &&& new.spec_out() == self.spec_out() + read_mark(self.spec_need_write(), self.spec_prev())
        &&& new.spec_prev() == (if self.spec_need_write() { Some(ConsoleState::Read) } else { self.spec_prev() })
        &&& new.spec_need_write() == self.spec_need_write()
        &&& new.spec_error() == self.spec_error()
    }

    /// `new` is `self` after the characters `text` were written.
    pub open spec fn wrote(self, new: Self, text: Seq<char>) -> bool {
        &&& new.spec_pending() == self.spec_pending()
        &&& new.spec_need_write() == self.spec_need_write()
        &&& new.spec_error() == self.spec_error()
        &&& if self.spec_error() || text.len() == 0 {
            new.spec_out() == self.spec_out() && new.spec_prev() == self.spec_prev()
        } else {
            &&& new.spec_out() == self.spec_out() + write_mark(self.spec_need_write(), self.spec_prev()) + text
            &&& new.spec_prev() == (if self.spec_need_write() { Some(ConsoleState::Write) } else { self.spec_prev() })
        }
    }

    /// Marking twice for input is marking once.
    pub proof fn lemma_marked_twice(a: Self, b: Self, c: Self)
        requires
            b == a || a.marked_for_read(b),
            b.marked_for_read(c),
        ensures
            a.marked_for_read(c),
    {
        if b != a {
            assert(read_mark(b.spec_need_write(), b.spec_prev()) =~= Seq::<char>::empty());
            assert(c.spec_out() =~= a.spec_out() + read_mark(a.spec_need_write(), a.spec_prev()));
        }
    }

    pub fn new(need_write_state: PrivateConsoleNeedWrite) -> (r: Self)
        ensures
            r.spec_pending().len() == 0,
            r.spec_out().len() == 0,
            !r.spec_error(),
            r.spec_need_write() == need_write_state.need_write_state,
            r.spec_prev() is None,
    {
        Self {
            last_line: Vec::new(),
            out: Vec::new(),
            error: false,
            need_write_state: need_write_state.need_write_state,
            prev_state: None,
        }
    }

    pub fn need_write_state(&self) -> (r: bool)
        ensures
            r == self.spec_need_write(),
    {
        self.need_write_state
    }

    pub fn error(&self) -> (r: bool)
        ensures
            r == self.spec_error(),
    {
        self.error
    }

    /// The console failed (reading or printing did not succeed).
    pub fn set_error(&mut self)
        ensures
            final(self).spec_error(),
            final(self).spec_pending() == old(self).spec_pending(),
            final(self).spec_out() == old(self).spec_out(),
            final(self).spec_need_write() == old(self).spec_need_write(),
            final(self).spec_prev() == old(self).spec_prev(),
    {
        self.error = true;
    }

    /// Take the next character of input: after the input mark, the first
    /// character not yet taken, or a request for a line when none is left.
    pub fn read_char(&mut self) -> (r: ConsoleRead)
        ensures
            old(self).spec_error() ==> r is Failed && *final(self) == *old(self),
            !old(self).spec_error() ==> {
                &&& old(self).marked_for_read(*final(self))
                &&& old(self).spec_pending().len() == 0 ==> r is NeedLine
                    && final(self).spec_pending() == old(self).spec_pending()
                &&& old(self).spec_pending().len() > 0 ==> r == ConsoleRead::Char(old(self).spec_pending()[0])
                    && final(self).spec_pending() == old(self).spec_pending().drop_first()
            },
    {
        if self.error {
            return ConsoleRead::Failed;
        }
        if self.need_write_state {
            match self.prev_state {
                None => {
                    push_chars(&mut self.out, &['[', 'I', 'N', 'P', 'U', 'T', ' ', ']', ':', '\n']);
                }
                Some(ConsoleState::Write) => {
                    push_chars(&mut self.out, &['\n', '[', 'I', 'N', 'P', 'U', 'T', ' ', ']', ':', '\n']);
                    assert(self.out@ =~= old(self).out@ + (seq!['\n'] + input_mark()));
                }
                Some(ConsoleState::Read) => {
                    assert(self.out@ =~= old(self).out@ + Seq::<char>::empty());
                }
            }
            self.prev_state = Some(ConsoleState::Read);
        } else {
            assert(self.out@ =~= old(self).out@ + Seq::<char>::empty());
        }
        if self.last_line.len() == 0 {
            return ConsoleRead::NeedLine;
        }
        let c = self.last_line.remove(0);
        assert(self.last_line@ =~= old(self).last_line@.drop_first());
        ConsoleRead::Char(c)
    }

    /// Hand in a line read from the input: its characters, then a line
    /// break, follow what is left.
    pub fn feed_line(&mut self, line: &str)
        ensures
            final(self).spec_pending() == old(self).spec_pending() + line@ + seq!['\n'],
            final(self).spec_out() == old(self).spec_out(),
            final(self).spec_error() == old(self).spec_error(),
            final(self).spec_need_write() == old(self).spec_need_write(),
            final(self).spec_prev() == old(self).spec_prev(),
    {
        let cs = str_to_chars(line);
        push_chars(&mut self.last_line, cs.as_slice());
        self.last_line.push('\n');
    }

    /// Write a character: after the output mark.
    pub fn write_char(&mut self, write: char)
        ensures
            old(self).wrote(*final(self), seq![write]),
    {
        let mut v: Vec<char> = Vec::new();
        v.push(write);
        assert(v@ =~= seq![write]);
        self.write_chars(v.as_slice());
    }

    /// Write characters: after the output mark.
    pub fn write_chars(&mut self, text: &[char])
        ensures
            old(self).wrote(*final(self), text@),
    {
        if self.error || text.len() == 0 {
            return;
        }
        if self.need_write_state {
            match self.prev_state {
                Some(ConsoleState::Write) => {}
                _ => {
                    push_chars(&mut self.out, &['[', 'O', 'U', 'T', 'P', 'U', 'T', ']', ':', '\n']);
                }
            }
            self.prev_state = Some(ConsoleState::Write);
        }
        push_chars(&mut self.out, text);
        assert(self.out@ =~= old(self).out@ + write_mark(self.need_write_state, old(self).prev_state) + text@);
    }

    /// Hand out the text to print, and forget it.
    pub fn take_output(&mut self) -> (r: String)
        ensures
            r@ == old(self).spec_out(),
            final(self).spec_out().len() == 0,
            final(self).spec_pending() == old(self).spec_pending(),
            final(self).spec_error() == old(self).spec_error(),
            final(self).spec_need_write() == old(self).spec_need_write(),
            final(self).spec_prev() == old(self).spec_prev(),
    {
        let r = chars_to_string(&self.out);
        self.out.clear();
        r
    }
}

}
