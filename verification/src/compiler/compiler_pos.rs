use vstd::prelude::*;
use crate::general::text::{push_chars, push_decimal, chars_to_string, spec_decimal, str_to_chars};

verus! {

/// A place in a source file: line (from 1) and character on it (from 0).
#[derive(Clone, Copy, Debug, PartialEq, Eq, Structural)]
pub struct CompilerPos {
    pub line: usize,
    pub symb: usize,
}

/// The character that ends a line.
pub const NEXT_LINE: char = '\n';

impl CompilerPos {
    pub fn new() -> (r: Self)
        ensures
            r.line == 1,
            r.symb == 0,
    {
        Self { line: 1, symb: 0 }
    }

    /// Move past `c`, if there is one.
    pub fn maybe_add_char(&mut self, c: Option<char>)
        requires
            old(self).line < usize::MAX,
            old(self).symb < usize::MAX,
        ensures
            match c {
                None => *final(self) == *old(self),
                Some(c) => *final(self) == old(self).spec_add_char(c),
            },
    {
        match c {
            None => {}
            Some(c) => self.add_char(c),
        }
    }

    /// The place after `c`: a new line after a line end, else the next
    /// character.
    pub open spec fn spec_add_char(self, c: char) -> Self {
        if c == NEXT_LINE {
            CompilerPos { line: (self.line + 1) as usize, symb: 0 }
        } else {
            CompilerPos { line: self.line, symb: (self.symb + 1) as usize }
        }
    }

    pub fn add_char(&mut self, c: char)
        requires
            old(self).line < usize::MAX,
            old(self).symb < usize::MAX,
        ensures
            *final(self) == old(self).spec_add_char(c),
    {
        if c == NEXT_LINE { self.next_line(); } else { self.symb = self.symb + 1; }
    }

    pub fn next_line(&mut self)
        requires
            old(self).line < usize::MAX,
        ensures
            final(self).line == old(self).line + 1,
            final(self).symb == 0,
    {
        self.line = self.line + 1;
        self.symb = 0;
    }

    pub fn next_symb(&mut self)
        requires
            old(self).symb < usize::MAX,
        ensures
            final(self).line == old(self).line,
            final(self).symb == old(self).symb + 1,
    {
        self.symb = self.symb + 1;
    }

    /// `[line: L  symb: S]`.
    pub open spec fn spec_text(self) -> Seq<char> {
        seq!['[', 'l', 'i', 'n', 'e', ':', ' '] + spec_decimal(self.line as nat)
            + seq![' ', ' ', 's', 'y', 'm', 'b', ':', ' '] + spec_decimal(self.symb as nat) + seq![']']
    }

    pub fn to_string(&self) -> (s: String)
        ensures
            s@ == self.spec_text(),
    {
        let mut v: Vec<char> = Vec::new();
        push_chars(&mut v, &['[', 'l', 'i', 'n', 'e', ':', ' ']);
        push_decimal(&mut v, self.line);
        push_chars(&mut v, &[' ', ' ', 's', 'y', 'm', 'b', ':', ' ']);
        push_decimal(&mut v, self.symb);
        v.push(']');
        assert(v@ =~= self.spec_text());
        chars_to_string(&v)
    }
}

/// A place in a named file, or the file alone.
pub struct ExtCompilerPos {
    pub pos: Option<CompilerPos>,
    pub file_name: String,
}

impl ExtCompilerPos {
    /// `<in file: F at position: P>`, or `<in file: F at unknown position>`.
    pub fn to_string(&self) -> (s: String)
        ensures
            s@ == seq!['<', 'i', 'n', ' ', 'f', 'i', 'l', 'e', ':', ' '] + self.file_name@ + match self.pos {
                Some(p) => seq![' ', 'a', 't', ' ', 'p', 'o', 's', 'i', 't', 'i', 'o', 'n', ':', ' '] + p.spec_text() + seq!['>'],
                None => seq![' ', 'a', 't', ' ', 'u', 'n', 'k', 'n', 'o', 'w', 'n', ' ', 'p', 'o', 's', 'i', 't', 'i', 'o', 'n', '>'],
            },
    {
        let mut v: Vec<char> = Vec::new();
        push_chars(&mut v, &['<', 'i', 'n', ' ', 'f', 'i', 'l', 'e', ':', ' ']);
        let f = str_to_chars(self.file_name.as_str());
        push_chars(&mut v, f.as_slice());
        match self.pos {
            Some(p) => {
                push_chars(&mut v, &[' ', 'a', 't', ' ', 'p', 'o', 's', 'i', 't', 'i', 'o', 'n', ':', ' ']);
                let t = p.to_string();
                let tc = str_to_chars(t.as_str());
                push_chars(&mut v, tc.as_slice());
                v.push('>');
            }
            None => {
                push_chars(&mut v, &[' ', 'a', 't', ' ', 'u', 'n', 'k', 'n', 'o', 'w', 'n', ' ', 'p', 'o', 's', 'i', 't', 'i', 'o', 'n', '>']);
            }
        }
        chars_to_string(&v)
    }
}

}
