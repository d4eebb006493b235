use vstd::prelude::*;
use crate::general::iter_with_back::{IterWithAutoBackN, BackView, lemma_back_undoes_next, lemma_next_takes_first_upcoming};
use crate::general::text::{str_to_chars, chars_to_string};
use super::compiler_pos::CompilerPos;
use super::compiler_error::{CompilerError, CompilerErrorType};
use super::compiler_option::{CanCompile, CompilerOption};
use super::compiler_info::CompilerInfo;
use super::compiler_inter_info::CompilerInterInfo;
use super::compiler_warning::CompilerWarning;
use super::dif_part_helper::settings::Setting;
use super::comand_compiler::cmd_compiler::CmdCompiler;
use super::comand_compiler::port_name_handler::PortNameHandler;
use super::mnc_checker::mnc_checker::MacroNameCodeChecker;
use super::dif_part_helper::setting_action::SettingActions;
use super::dif_part_helper::settings::{spec_params, split_colon};
use super::compiler_info::key_get;

verus! {

pub const MACRO_USE_CHAR: char = '%';
pub const SETTINGS_CHAR: char = '\'';
pub const COMMENT_LINE: char = ';';
pub const NEXT_LINE: char = '\n';
pub const DEFAULT_SPACE: char = ' ';
pub const SHARP: char = '#';
pub const SSS_CHAR_LEN: usize = 3;

// ---------------------------------------------------------------------
// [+] character classes

/// std `char::is_ascii_whitespace`: space, tab, line feed, form feed,
/// carriage return.
pub open spec fn is_ascii_ws(c: char) -> bool {
    c == ' ' || c == '\t' || c == '\n' || c == '\x0C' || c == '\r'
}

/// std `char::is_ascii_graphic`: `!` to `~`.
pub open spec fn is_ascii_graphic(c: char) -> bool {
    '!' <= c <= '~'
}

/// std `char::is_whitespace`: the characters with the Unicode property
/// White_Space.
pub open spec fn is_unicode_ws(c: char) -> bool {
    ('\t' <= c <= '\r') || c == ' ' || c == '\u{85}' || c == '\u{A0}' || c == '\u{1680}'
        || ('\u{2000}' <= c <= '\u{200A}') || c == '\u{2028}' || c == '\u{2029}' || c == '\u{202F}'
        || c == '\u{205F}' || c == '\u{3000}'
}

/// The first character of `s` that is not whitespace, if any.
pub open spec fn lead_char(s: Seq<char>) -> Option<char>
    decreases s.len(),
{
    if s.len() == 0 {
        None
    } else if is_unicode_ws(s[0]) {
        lead_char(s.drop_first())
    } else {
        Some(s[0])
    }
}

pub fn is_ascii_ws_exec(c: char) -> (r: bool)
    ensures r == is_ascii_ws(c),
{
    c == ' ' || c == '\t' || c == '\n' || c == '\x0C' || c == '\r'
}

pub fn is_unicode_ws_exec(c: char) -> (r: bool)
    ensures r == is_unicode_ws(c),
{
    ('\t' <= c && c <= '\r') || c == ' ' || c == '\u{85}' || c == '\u{A0}' || c == '\u{1680}'
        || ('\u{2000}' <= c && c <= '\u{200A}') || c == '\u{2028}' || c == '\u{2029}' || c == '\u{202F}'
        || c == '\u{205F}' || c == '\u{3000}'
}

// [-] character classes
// ---------------------------------------------------------------------

// ---------------------------------------------------------------------
// [+] file_minimalize

/// What `file_minimalize` keeps so far, whether it is inside a comment, and
/// whether it met a character it refuses.
pub struct MinState {
    pub kept: Seq<char>,
    pub comment: bool,
    pub err: bool,
}

pub open spec fn min_step(st: MinState, c: char) -> MinState {
    if st.err {
        st
    } else if c == ';' {
        MinState { comment: true, ..st }
    } else if is_ascii_ws(c) {
        if c == '\n' { MinState { comment: false, ..st } } else { st }
    } else if is_ascii_graphic(c) {
        if st.comment { st } else { MinState { kept: st.kept.push(c), ..st } }
    } else {
        if st.comment { st } else { MinState { err: true, ..st } }
    }
}

pub open spec fn min_run(s: Seq<char>) -> MinState
    decreases s.len(),
{
    if s.len() == 0 {
        MinState { kept: seq![], comment: false, err: false }
    } else {
        min_step(min_run(s.drop_last()), s.last())
    }
}

/// The visible characters of a text, without comments (`;` to the end of
/// the line) and without white space; `Err` on a character that is neither
/// white space nor visible ASCII outside a comment.
pub fn file_minimalize(text: &str) -> (r: Result<String, ()>)
    ensures
        min_run(text@).err ==> r is Err,
        !min_run(text@).err ==> (r matches Ok(s) && s@ == min_run(text@).kept),
{
    let v = str_to_chars(text);
    let mut kept: Vec<char> = Vec::new();
    let mut comment = false;
    let mut err = false;
    let mut i: usize = 0;
    assert(v@.take(0) =~= Seq::<char>::empty());
    while i < v.len()
        invariant
            i <= v@.len(),
            v@ == text@,
            min_run(v@.take(i as int)) == (MinState { kept: kept@, comment, err }),
        decreases v@.len() - i,
    {
        let c = v[i];
        assert(v@.take(i as int + 1).drop_last() =~= v@.take(i as int));
        if !err {
            if c == ';' {
                comment = true;
            } else if is_ascii_ws_exec(c) {
                if c == '\n' { comment = false; }
            } else if '!' <= c && c <= '~' {
                if !comment { kept.push(c); }
            } else {
                if !comment { err = true; }
            }
        }
        i = i + 1;
    }
    assert(v@.take(v@.len() as int) =~= v@);
    if err { return Err(()) }
    Ok(chars_to_string(&kept))
}

// [-] file_minimalize
// ---------------------------------------------------------------------

// ---------------------------------------------------------------------
// [+] parser

/// Reads a source text character by character, keeping the position, and
/// can step back one character.
pub struct CompilerParser {
    chars: IterWithAutoBackN<char, 1>,
    pos: CompilerPos,
    prev_pos: CompilerPos,
}

/// How many characters `skip_line` takes: up to and with the first line
/// end, or all.
pub open spec fn line_len(s: Seq<char>) -> nat
    decreases s.len(),
{
    if s.len() == 0 { 0 } else if s[0] == NEXT_LINE { 1 } else { 1 + line_len(s.drop_first()) }
}

/// With no line end among the first `k` characters, the line length is
/// `k + 1` when a line end follows, and `k` at the end of the text.
pub proof fn lemma_line_len_at(s: Seq<char>, k: int)
    requires
        0 <= k <= s.len(),
        forall|j: int| 0 <= j < k ==> s[j] != NEXT_LINE,
    ensures
        k < s.len() && s[k] == NEXT_LINE ==> line_len(s) == k + 1,
        k == s.len() ==> line_len(s) == k,
    decreases k,
{
    if k > 0 {
        lemma_line_len_at(s.drop_first(), k - 1);
    }
}

pub proof fn lemma_line_len(s: Seq<char>)
    ensures
        line_len(s) <= s.len(),
        s.len() > 0 ==> line_len(s) >= 1,
    decreases s.len(),
{
    if s.len() > 0 && s[0] != NEXT_LINE { lemma_line_len(s.drop_first()); }
}

/// What `parse_until_char` reads from `s`: the characters other than white
/// space and comments before the first `until` (the text after it is left),
/// or `None` when the text ends first.
pub open spec fn until_result(s: Seq<char>, until: char, keep_space: bool) -> (Option<Seq<char>>, Seq<char>)
    decreases s.len(),
{
    if s.len() == 0 {
        (None, s)
    } else {
        let c = s[0];
        let rest = s.drop_first();
        if c == COMMENT_LINE {
            proof { lemma_line_len(rest); }
            let after = rest.skip(line_len(rest) as int);
            let (r, left) = until_result(after, until, keep_space);
            (match r { Some(t) => Some(if keep_space { seq![NEXT_LINE] + t } else { t }), None => None }, left)
        } else if c == until {
            (Some(seq![]), rest)
        } else if !keep_space && is_unicode_ws(c) {
            until_result(rest, until, keep_space)
        } else {
            let (r, left) = until_result(rest, until, keep_space);
            (match r { Some(t) => Some(seq![c] + t), None => None }, left)
        }
    }
}

/// What `await_sss_char` does on `s`: `Ok` when the first `n` characters are
/// all `%` (then they are taken), else the character found instead (taken
/// too, with those before it).
pub open spec fn sss_await(s: Seq<char>, n: nat) -> (Result<(), Option<char>>, Seq<char>)
    decreases n,
{
    if n == 0 {
        (Ok(()), s)
    } else if s.len() == 0 {
        (Err(None), s)
    } else if s[0] != MACRO_USE_CHAR {
        (Err(Some(s[0])), s.drop_first())
    } else {
        sss_await(s.drop_first(), (n - 1) as nat)
    }
}

/// What is between `%%%` and `%%%`: names separated by white space or
/// comments.
pub enum ParseNextNameSSS {
    /// the text ended, after a name if there was one
    EOF(Option<String>),
    /// a name, then white space
    WhiteSpace(String),
    /// a `%`, after a name if there was one
    StartOfEndSeq(Option<String>),
}

/// The kind of `ParseNextNameSSS` and its name, as plain values.
pub enum SssView {
    Eof(Option<Seq<char>>),
    Space(Seq<char>),
    End(Option<Seq<char>>),
}

pub open spec fn opt_name(t: Seq<char>) -> Option<Seq<char>> {
    if t.len() == 0 { None } else { Some(t) }
}

/// What `parse_sss_next_name` reads from `s`, having read the name `acc`.
pub open spec fn sss_next(s: Seq<char>, acc: Seq<char>) -> (SssView, Seq<char>)
    decreases s.len(),
{
    if s.len() == 0 {
        (SssView::Eof(opt_name(acc)), s)
    } else {
        let c = s[0];
        let rest = s.drop_first();
        if c == COMMENT_LINE {
            proof { lemma_line_len(rest); }
            let after = rest.skip(line_len(rest) as int);
            if acc.len() > 0 { (SssView::Space(acc), after) } else { sss_next(after, acc) }
        } else if is_unicode_ws(c) {
            if acc.len() > 0 { (SssView::Space(acc), rest) } else { sss_next(rest, acc) }
        } else if c == MACRO_USE_CHAR {
            (SssView::End(opt_name(acc)), rest)
        } else {
            sss_next(rest, acc.push(c))
        }
    }
}

impl ParseNextNameSSS {
    pub open spec fn view(&self) -> SssView {
        match self {
            ParseNextNameSSS::EOF(x) => SssView::Eof(match x { Some(s) => Some(s@), None => None }),
            ParseNextNameSSS::WhiteSpace(s) => SssView::Space(s@),
            ParseNextNameSSS::StartOfEndSeq(x) => SssView::End(match x { Some(s) => Some(s@), None => None }),
        }
    }
}

impl CompilerParser {
    /// How many characters have been read (net of steps back).
    closed spec fn consumed(&self) -> int {
        self.chars.view().pos - self.chars.view().depth
    }

    pub closed spec fn wf(&self) -> bool {
        &&& self.chars.wf()
        &&& self.chars.view().valid()
        &&& self.chars.view().items.len() < usize::MAX - 1
        &&& self.pos.line <= self.consumed() + 1
        &&& self.pos.symb <= self.consumed()
        &&& (self.chars.view().depth == 0 && self.consumed() >= 1) ==>
            self.prev_pos.line <= self.consumed() && self.prev_pos.symb + 1 <= self.consumed()
    }

    /// The characters still to read.
    pub closed spec fn upcoming(&self) -> Seq<char> {
        self.chars.view().upcoming()
    }

    /// Whether it can step back one character now, and what is then to
    /// read.
    pub closed spec fn spec_can_back(&self) -> bool {
        self.chars.view().depth < self.chars.stored() && self.chars.view().depth == 0
    }

    /// Whether it stands at the front: no step back is pending.
    pub closed spec fn spec_at_front(&self) -> bool {
        self.chars.view().depth == 0
    }

    pub closed spec fn upcoming_after_back(&self) -> Seq<char> {
        self.chars.view().after_back().upcoming()
    }

    pub closed spec fn spec_pos(&self) -> CompilerPos {
        self.pos
    }

    pub fn new(chars: Vec<char>) -> (r: Self)
        requires
            chars@.len() < usize::MAX - 1,
        ensures
            r.wf(),
            r.upcoming() == chars@,
            r.spec_pos() == CompilerPos::new_spec(),
            r.spec_at_front(),
    {
        let it = IterWithAutoBackN::<char, 1>::new(chars);
        proof {
            assert(it.view().upcoming() =~= it.view().items);
        }
        Self { chars: it, pos: CompilerPos::new(), prev_pos: CompilerPos::new() }
    }

    /// The next character, if any.
    pub fn next(&mut self) -> (r: Option<char>)
        requires
            old(self).wf(),
        ensures
            final(self).wf(),
            old(self).upcoming().len() == 0 <==> r is None,
            old(self).upcoming().len() > 0 ==> r == Some(old(self).upcoming()[0])
                && final(self).upcoming() == old(self).upcoming().drop_first(),
            r is None ==> final(self).upcoming() == old(self).upcoming(),
            final(self).spec_at_front(),
            r is Some && old(self).spec_at_front() ==> final(self).spec_can_back()
                && final(self).upcoming_after_back() == old(self).upcoming(),
    {
        proof {
            self.chars.lemma_depth_stored();
            lemma_next_takes_first_upcoming(self.chars.view());
            if self.chars.view().after_next().1 is Some { lemma_back_undoes_next(self.chars.view()); }
        }
        let c = self.chars.next();
        let save = self.pos;
        match c {
            Some(ch) => {
                self.pos.add_char(ch);
                self.prev_pos = save;
            }
            None => {}
        }
        c
    }

    /// One character back, to the character just read.
    pub fn back(&mut self)
        requires
            old(self).wf(),
            old(self).spec_can_back(),
        ensures
            final(self).wf(),
            final(self).upcoming() == old(self).upcoming_after_back(),
    {
        self.pos = self.prev_pos;
        self.chars.back();
    }

    pub fn get_pos(&self) -> (r: CompilerPos)
        ensures
            r == self.spec_pos(),
    {
        self.pos
    }

    /// Skip to after the end of the line (or of the text).
    pub fn skip_line(&mut self)
        requires
            old(self).wf(),
        ensures
            final(self).wf(),
            final(self).upcoming() == old(self).upcoming().skip(line_len(old(self).upcoming()) as int),
            final(self).upcoming().len() < old(self).upcoming().len() || old(self).upcoming().len() == 0,
            final(self).spec_at_front(),
    {
        let ghost s0 = self.upcoming();
        let ghost mut k: int = 0;
        assert(s0.skip(0) =~= s0);
        loop
            invariant_except_break
                0 <= k <= s0.len(),
                self.upcoming() == s0.skip(k),
                forall|j: int| 0 <= j < k ==> s0[j] != NEXT_LINE,
            invariant
                self.wf(),
            ensures
                self.wf(),
                self.spec_at_front(),
                self.upcoming() == s0.skip(line_len(s0) as int),
            decreases s0.len() - k,
        {
            match self.next() {
                None => {
                    proof { lemma_line_len_at(s0, k); }
                    break;
                }
                Some(c) => {
                    if c == NEXT_LINE {
                        proof {
                            assert(s0[k] == NEXT_LINE);
                            lemma_line_len_at(s0, k);
                            assert(self.upcoming() =~= s0.skip(k + 1));
                        }
                        break;
                    }
                    proof {
                        assert(s0[k] == c);
                        assert(self.upcoming() =~= s0.skip(k + 1));
                        k = k + 1;
                    }
                }
            }
        }
        proof { lemma_line_len(s0); }
    }
}

/// `r` with `acc` put before the text it read.
pub open spec fn prepend_read(acc: Seq<char>, r: (Option<Seq<char>>, Seq<char>)) -> (Option<Seq<char>>, Seq<char>) {
    (match r.0 { Some(t) => Some(acc + t), None => None }, r.1)
}

impl CompilerParser {
    fn parse_until(&mut self, until_char: char, keep_space: bool) -> (r: Option<String>)
        requires
            old(self).wf(),
        ensures
            final(self).wf(),
            final(self).spec_at_front(),
            until_result(old(self).upcoming(), until_char, keep_space)
                == (match r { Some(s) => Some(s@), None => None::<Seq<char>> }, final(self).upcoming()),
    {
        let ghost s0 = self.upcoming();
        let mut acc: Vec<char> = Vec::new();
        assert(prepend_read(acc@, until_result(s0, until_char, keep_space)) =~= until_result(s0, until_char, keep_space)) by {
            let r = until_result(s0, until_char, keep_space);
            if let Some(t) = r.0 { assert(acc@ + t =~= t); }
        }
        loop
            invariant
                self.wf(),
                s0 == old(self).upcoming(),
                until_result(s0, until_char, keep_space) == prepend_read(acc@, until_result(self.upcoming(), until_char, keep_space)),
            decreases self.upcoming().len(),
        {
            let ghost u = self.upcoming();
            match self.next() {
                None => {
                    proof { assert(until_result(u, until_char, keep_space) == (None::<Seq<char>>, u)); }
                    return None;
                }
                Some(c) => {
                    let ghost rest = u.drop_first();
                    assert(u[0] == c);
                    if c == COMMENT_LINE {
                        let ghost inner = until_result(rest.skip(line_len(rest) as int), until_char, keep_space);
                        proof {
                            assert(until_result(u, until_char, keep_space)
                                == (match inner.0 { Some(t) => Some(if keep_space { seq![NEXT_LINE] + t } else { t }), None => None }, inner.1));
                        }
                        if keep_space {
                            proof {
                                if let Some(t) = inner.0 {
                                    assert(acc@.push(NEXT_LINE) + t =~= acc@ + (seq![NEXT_LINE] + t));
                                }
                            }
                            acc.push(NEXT_LINE);
                        }
                        self.skip_line();
                    } else if c == until_char {
                        proof {
                            assert(until_result(u, until_char, keep_space) == (Some(Seq::<char>::empty()), rest));
                            assert(acc@ + Seq::<char>::empty() =~= acc@);
                        }
                        return Some(chars_to_string(&acc));
                    } else if !keep_space && is_unicode_ws_exec(c) {
                        proof { assert(until_result(u, until_char, keep_space) == until_result(rest, until_char, keep_space)); }
                    } else {
                        proof {
                            let inner = until_result(rest, until_char, keep_space);
                            assert(until_result(u, until_char, keep_space)
                                == (match inner.0 { Some(t) => Some(seq![c] + t), None => None }, inner.1));
                            if let Some(t) = inner.0 {
                                assert(acc@.push(c) + t =~= acc@ + (seq![c] + t));
                            }
                        }
                        acc.push(c);
                    }
                }
            }
        }
    }

    /// Read up to the character `until_char`: the characters before it, without
    /// white space and comments; `None` when the text ends first.
    pub fn parse_until_char(&mut self, until_char: char) -> (r: Option<String>)
        requires
            old(self).wf(),
        ensures
            final(self).wf(),
            final(self).spec_at_front(),
            until_result(old(self).upcoming(), until_char, false)
                == (match r { Some(s) => Some(s@), None => None::<Seq<char>> }, final(self).upcoming()),
    {
        self.parse_until(until_char, false)
    }

    /// Read up to the character `until_char`, keeping white space; a comment
    /// reads as a line end.
    pub fn parse_until_char_with_save_space(&mut self, until_char: char) -> (r: Option<String>)
        requires
            old(self).wf(),
        ensures
            final(self).wf(),
            final(self).spec_at_front(),
            until_result(old(self).upcoming(), until_char, true)
                == (match r { Some(s) => Some(s@), None => None::<Seq<char>> }, final(self).upcoming()),
    {
        self.parse_until(until_char, true)
    }

    /// Read `amount` characters `%`; else the error with the character found
    /// instead (none at the end of the text).
    pub fn await_sss_char(&mut self, amount: usize, file_name: &str) -> (r: Result<(), CompilerError>)
        requires
            old(self).wf(),
        ensures
            final(self).wf(),
            sss_await(old(self).upcoming(), amount as nat).1 == final(self).upcoming(),
            amount > 0 ==> final(self).spec_at_front(),
            amount == 0 ==> *final(self) == *old(self),
            sss_await(old(self).upcoming(), amount as nat).0 is Ok <==> r is Ok,
            r matches Err(e) ==> sss_await(old(self).upcoming(), amount as nat).0 == Err::<(), Option<char>>(e.spec_space_sep_found()),
            r matches Err(e) ==> e.err_stack_pos@.len() == 1 && e.err_stack_pos@[0].file_name@ == file_name@,
    {
        let ghost s0 = self.upcoming();
        let mut i: usize = 0;
        while i < amount
            invariant
                self.wf(),
                i > 0 ==> self.spec_at_front(),
                i == 0 ==> *self == *old(self),
                i <= amount,
                s0 == old(self).upcoming(),
                sss_await(s0, amount as nat) == sss_await(self.upcoming(), (amount - i) as nat),
            decreases amount - i,
        {
            let ghost u = self.upcoming();
            match self.next() {
                Some(MACRO_USE_CHAR) => {
                    proof { assert(sss_await(u, (amount - i) as nat) == sss_await(u.drop_first(), (amount - i - 1) as nat)); }
                }
                x => {
                    proof {
                        if u.len() == 0 {
                            assert(sss_await(u, (amount - i) as nat) == (Err::<(), Option<char>>(None), u));
                        } else {
                            assert(sss_await(u, (amount - i) as nat) == (Err::<(), Option<char>>(Some(u[0])), u.drop_first()));
                        }
                    }
                    let e = CompilerError::new_expect_space_sep(self.get_pos(), crate::general::text::string_of(str_to_chars(file_name).as_slice()), x);
                    return Err(e);
                }
            }
            i = i + 1;
        }
        proof { assert(sss_await(self.upcoming(), 0) == (Ok::<(), Option<char>>(()), self.upcoming())); }
        Ok(())
    }

    /// Read the next name between `%%%` and `%%%`.
    pub fn parse_sss_next_name(&mut self) -> (r: ParseNextNameSSS)
        requires
            old(self).wf(),
        ensures
            final(self).wf(),
            final(self).spec_at_front(),
            sss_next(old(self).upcoming(), seq![]) == (r.view(), final(self).upcoming()),
    {
        let ghost s0 = self.upcoming();
        let mut acc: Vec<char> = Vec::new();
        loop
            invariant
                self.wf(),
                s0 == old(self).upcoming(),
                sss_next(s0, seq![]) == sss_next(self.upcoming(), acc@),
            decreases self.upcoming().len(),
        {
            let ghost u = self.upcoming();
            match self.next() {
                None => {
                    proof { assert(sss_next(u, acc@) == (SssView::Eof(opt_name(acc@)), u)); }
                    if acc.len() > 0 { return ParseNextNameSSS::EOF(Some(chars_to_string(&acc))) }
                    return ParseNextNameSSS::EOF(None);
                }
                Some(c) => {
                    let ghost rest = u.drop_first();
                    assert(u[0] == c);
                    if c == COMMENT_LINE {
                        proof {
                            let after = rest.skip(line_len(rest) as int);
                            assert(sss_next(u, acc@) == if acc@.len() > 0 { (SssView::Space(acc@), after) } else { sss_next(after, acc@) });
                        }
                        self.skip_line();
                        if acc.len() > 0 { return ParseNextNameSSS::WhiteSpace(chars_to_string(&acc)) }
                    } else if is_unicode_ws_exec(c) {
                        proof {
                            assert(sss_next(u, acc@) == if acc@.len() > 0 { (SssView::Space(acc@), rest) } else { sss_next(rest, acc@) });
                        }
                        if acc.len() > 0 { return ParseNextNameSSS::WhiteSpace(chars_to_string(&acc)) }
                    } else if c == MACRO_USE_CHAR {
                        proof { assert(sss_next(u, acc@) == (SssView::End(opt_name(acc@)), rest)); }
                        if acc.len() > 0 { return ParseNextNameSSS::StartOfEndSeq(Some(chars_to_string(&acc))) }
                        return ParseNextNameSSS::StartOfEndSeq(None);
                    } else {
                        proof { assert(sss_next(u, acc@) == sss_next(rest, acc@.push(c))); }
                        acc.push(c);
                    }
                }
            }
        }
    }
}

impl CompilerPos {
    pub open spec fn new_spec() -> Self {
        CompilerPos { line: 1, symb: 0 }
    }
}

// [-] parser
// ---------------------------------------------------------------------


// ---------------------------------------------------------------------
// [+] lengths of what the readers leave

pub proof fn lemma_until_left(s: Seq<char>, until: char, keep_space: bool)
    ensures
        until_result(s, until, keep_space).1.len() <= s.len(),
        s.len() > 0 ==> until_result(s, until, keep_space).1.len() < s.len(),
    decreases s.len(),
{
    if s.len() > 0 {
        let rest = s.drop_first();
        lemma_line_len(rest);
        if s[0] == COMMENT_LINE {
            lemma_until_left(rest.skip(line_len(rest) as int), until, keep_space);
        } else if s[0] != until {
            lemma_until_left(rest, until, keep_space);
        }
    }
}

pub proof fn lemma_sss_left(s: Seq<char>, acc: Seq<char>)
    ensures
        sss_next(s, acc).1.len() <= s.len(),
        s.len() > 0 ==> sss_next(s, acc).1.len() < s.len(),
        s.len() == 0 ==> sss_next(s, acc).0 is Eof,
    decreases s.len(),
{
    if s.len() > 0 {
        let rest = s.drop_first();
        lemma_line_len(rest);
        if s[0] == COMMENT_LINE {
            lemma_sss_left(rest.skip(line_len(rest) as int), acc);
        } else if is_unicode_ws(s[0]) {
            lemma_sss_left(rest, acc);
        } else if s[0] != MACRO_USE_CHAR {
            lemma_sss_left(rest, acc.push(s[0]));
        }
    }
}

pub proof fn lemma_sss_await_left(s: Seq<char>, n: nat)
    ensures
        sss_await(s, n).1.len() <= s.len(),
    decreases n,
{
    if n > 0 && s.len() > 0 && s[0] == MACRO_USE_CHAR {
        lemma_sss_await_left(s.drop_first(), (n - 1) as nat);
    }
}

// [-] lengths of what the readers leave
// ---------------------------------------------------------------------

// ---------------------------------------------------------------------
// [+] PARSER OF "#...#"

/// What reading macro code keeps between characters: whether a macro use
/// (`%name`) is open, whether a `%%%` name is open and a space was just put
/// in it, and the `%` run now and at the last round.
#[derive(Clone, Copy)]
pub struct MacroCodeState {
    pub macro_use: bool,
    pub sss: bool,
    pub sss_space: bool,
    pub in_a_row: usize,
    pub prev_in_a_row: usize,
}

/// Nothing read yet.
pub open spec fn mc_start() -> MacroCodeState {
    MacroCodeState { macro_use: false, sss: false, sss_space: false, in_a_row: 0, prev_in_a_row: 0 }
}

/// The check at the start of each round: a `%` run that did not grow since
/// the last round ends; one `%` outside a `%%%` name opens a macro use, two
/// give a space.
pub open spec fn mc_settle(st: MacroCodeState) -> (MacroCodeState, Seq<char>) {
    if st.in_a_row > 0 && st.in_a_row == st.prev_in_a_row {
        (MacroCodeState {
            macro_use: if !st.sss && st.in_a_row == 1 { true } else { st.macro_use },
            sss: st.sss,
            sss_space: st.sss_space,
            in_a_row: 0,
            prev_in_a_row: 0,
        }, if st.in_a_row == 2 { seq![DEFAULT_SPACE] } else { Seq::empty() })
    } else {
        (MacroCodeState {
            macro_use: st.macro_use,
            sss: st.sss,
            sss_space: st.sss_space,
            in_a_row: st.in_a_row,
            prev_in_a_row: st.in_a_row,
        }, Seq::empty())
    }
}

/// A white space or a comment inside a `%%%` name gives one space.
pub open spec fn mc_space(st: MacroCodeState) -> (MacroCodeState, Seq<char>) {
    if st.sss && !st.sss_space {
        (MacroCodeState { macro_use: st.macro_use, sss: st.sss, sss_space: true, in_a_row: st.in_a_row, prev_in_a_row: st.prev_in_a_row },
            seq![DEFAULT_SPACE])
    } else {
        (st, Seq::empty())
    }
}

/// One character of macro code other than `#` and `;`: a `%` is kept (a
/// space after it closes a macro use, or after the third of a row opens or
/// closes a `%%%` name); white space is dropped (but see `mc_space`); any
/// other character is kept.
pub open spec fn mc_char(st: MacroCodeState, c: char) -> (MacroCodeState, Seq<char>) {
    if c == MACRO_USE_CHAR {
        let a = if st.in_a_row < SSS_CHAR_LEN { st.in_a_row + 1 } else { st.in_a_row as int };
        if st.macro_use {
            (MacroCodeState { macro_use: false, sss: st.sss, sss_space: st.sss_space, in_a_row: 0, prev_in_a_row: st.prev_in_a_row },
                seq![c, DEFAULT_SPACE])
        } else if a == SSS_CHAR_LEN {
            (MacroCodeState { macro_use: st.macro_use, sss: !st.sss, sss_space: true, in_a_row: 0, prev_in_a_row: st.prev_in_a_row },
                seq![c, DEFAULT_SPACE])
        } else {
            (MacroCodeState { macro_use: st.macro_use, sss: st.sss, sss_space: st.sss_space, in_a_row: a as usize, prev_in_a_row: st.prev_in_a_row },
                seq![c])
        }
    } else if is_unicode_ws(c) {
        mc_space(st)
    } else {
        (MacroCodeState { macro_use: st.macro_use, sss: st.sss, sss_space: false, in_a_row: st.in_a_row, prev_in_a_row: st.prev_in_a_row },
            seq![c])
    }
}

/// What `parse_macro_code` reads from `s` in state `st`: the code up to the
/// closing `#` (`None` when the text ends first) and the text left after it.
/// A comment runs to the end of its line.
pub open spec fn macro_code_run(st: MacroCodeState, s: Seq<char>) -> (Option<Seq<char>>, Seq<char>)
    decreases s.len(),
{
    let t = mc_settle(st);
    if s.len() == 0 {
        (None, s)
    } else {
        let c = s[0];
        let rest = s.drop_first();
        if c == COMMENT_LINE {
            proof { lemma_line_len(rest); }
            let u = mc_space(t.0);
            prepend_read(t.1 + u.1, macro_code_run(u.0, rest.skip(line_len(rest) as int)))
        } else if c == SHARP {
            (Some(t.1), rest)
        } else {
            let u = mc_char(t.0, c);
            prepend_read(t.1 + u.1, macro_code_run(u.0, rest))
        }
    }
}

/// Putting `a` before what was read after putting `b` before it is
/// putting `a + b` before it.
pub proof fn lemma_prepend_read(a: Seq<char>, b: Seq<char>, r: (Option<Seq<char>>, Seq<char>))
    ensures
        prepend_read(a, prepend_read(b, r)) == prepend_read(a + b, r),
{
    if let Some(t) = r.0 { assert(a + (b + t) =~= (a + b) + t); }
}

/// The macro-code state of the reader's variables.
pub open spec fn mc_state(macro_use: bool, sss: bool, sss_space: bool, a: usize, prev: usize) -> MacroCodeState {
    MacroCodeState { macro_use, sss, sss_space, in_a_row: a, prev_in_a_row: prev }
}

/// A `#...#` part as plain values.
pub enum SharpView {
    UnexpectedEOF,
    EmptyName,
    BadMacroName(char),
    CantCompileMacro,
    CantCompileSetting,
    FileInclude(Seq<char>, CanCompile),
    Macros(Seq<char>, Seq<char>),
    Temp(Seq<char>),
}

/// The first character of a `#...#` part that is neither white space nor
/// in a comment, and the text after it (a `%` ends the search too).
pub open spec fn sharp_lead(s: Seq<char>) -> Option<(char, Seq<char>)>
    decreases s.len(),
{
    if s.len() == 0 {
        None
    } else {
        let c = s[0];
        let rest = s.drop_first();
        if c == COMMENT_LINE {
            proof { lemma_line_len(rest); }
            sharp_lead(rest.skip(line_len(rest) as int))
        } else if c == MACRO_USE_CHAR || !is_unicode_ws(c) {
            Some((c, rest))
        } else {
            sharp_lead(rest)
        }
    }
}

/// The name read up to `#`, as a part: the end of the text, an empty name,
/// or the name.
pub open spec fn name_view(r: Option<Seq<char>>) -> SharpView {
    match r {
        None => SharpView::UnexpectedEOF,
        Some(t) => if t.len() == 0 { SharpView::EmptyName } else { SharpView::Temp(t) },
    }
}

/// A name part made an include of what may be compiled `cc`.
pub open spec fn include_view(v: SharpView, cc: CanCompile) -> SharpView {
    match v {
        SharpView::Temp(t) => SharpView::FileInclude(t, cc),
        other => other,
    }
}

/// What `parse_sharp` reads from `s` (after the opening `#`) where
/// `can_compile` says what may be compiled, and the text left: `##name#`
/// brings in a file of macros, `##!#name#` one of macros and settings,
/// `##'#name#` one of settings; `#name#code#` defines a macro.
pub open spec fn sharp_run(s: Seq<char>, can_compile: CanCompile) -> (SharpView, Seq<char>) {
    match sharp_lead(s) {
        None => (SharpView::UnexpectedEOF, Seq::empty()),
        Some((c, rest)) => if c == MACRO_USE_CHAR {
            (SharpView::BadMacroName(MACRO_USE_CHAR), rest)
        } else if c == SHARP {
            let (r1, left1) = until_result(rest, SHARP, false);
            let v1 = name_view(r1);
            if !(v1 is Temp) {
                (v1, left1)
            } else if v1->Temp_0 == seq!['!'] {
                if !can_compile.spec_macro() {
                    (SharpView::CantCompileMacro, left1)
                } else if !can_compile.spec_settings() {
                    (SharpView::CantCompileSetting, left1)
                } else {
                    let (r2, left2) = until_result(left1, SHARP, false);
                    (include_view(name_view(r2), CanCompile::MacroAndSettings), left2)
                }
            } else if v1->Temp_0 == seq!['\''] {
                if !can_compile.spec_settings() {
                    (SharpView::CantCompileSetting, left1)
                } else {
                    let (r2, left2) = until_result(left1, SHARP, false);
                    (include_view(name_view(r2), CanCompile::OnlySettings), left2)
                }
            } else if !can_compile.spec_macro() {
                (SharpView::CantCompileMacro, left1)
            } else {
                (SharpView::FileInclude(v1->Temp_0, CanCompile::OnlyMacros), left1)
            }
        } else {
            let (r1, left1) = until_result(seq![c] + rest, SHARP, false);
            let v1 = name_view(r1);
            if !(v1 is Temp) {
                (v1, left1)
            } else if v1->Temp_0.contains(MACRO_USE_CHAR) {
                (SharpView::BadMacroName(MACRO_USE_CHAR), left1)
            } else {
                let (r2, left2) = macro_code_run(mc_start(), left1);
                match r2 {
                    None => (SharpView::UnexpectedEOF, left2),
                    Some(code) => (SharpView::Macros(v1->Temp_0, code), left2),
                }
            }
        }
    }
}

/// What a `#...#` part reads as.
pub enum SharpParse {
    UnexpectedEOF,
    EmptyName,
    BadMacroName(char),
    CantCompileMacro,
    CantCompileSetting,
    FileInclude(String, CanCompile),
    Macros { macro_name: String, macro_cmds: String },
    Temp(String),
}

impl SharpParse {
    /// The part as plain values.
    pub open spec fn view(&self) -> SharpView {
        match self {
            SharpParse::UnexpectedEOF => SharpView::UnexpectedEOF,
            SharpParse::EmptyName => SharpView::EmptyName,
            SharpParse::BadMacroName(c) => SharpView::BadMacroName(*c),
            SharpParse::CantCompileMacro => SharpView::CantCompileMacro,
            SharpParse::CantCompileSetting => SharpView::CantCompileSetting,
            SharpParse::FileInclude(f, cc) => SharpView::FileInclude(f@, *cc),
            SharpParse::Macros { macro_name, macro_cmds } => SharpView::Macros(macro_name@, macro_cmds@),
            SharpParse::Temp(t) => SharpView::Temp(t@),
        }
    }

    pub open spec fn spec_is_error(&self) -> bool {
        *self is BadMacroName || *self is UnexpectedEOF || *self is EmptyName
    }

    pub fn is_error(&self) -> (r: bool)
        ensures r == self.spec_is_error(),
    {
        match self {
            Self::BadMacroName(_) | Self::UnexpectedEOF | Self::EmptyName => true,
            _ => false,
        }
    }

    pub fn is_temp(&self) -> (r: bool)
        ensures r == (*self is Temp),
    {
        match self { Self::Temp(_) => true, _ => false }
    }

    pub fn temp_to_string(self) -> (r: Option<String>)
        ensures
            match self { Self::Temp(x) => r == Some(x), _ => r is None },
    {
        match self { Self::Temp(x) => Some(x), _ => None }
    }

    /// A text read up to `#` becomes a file to bring in, with what it may
    /// hold; errors stay.
    pub fn to_file_include(self, can_compile: CanCompile) -> (r: Self)
        requires
            !(self is Macros),
        ensures
            match self {
                Self::Temp(s) => r == Self::FileInclude(s, can_compile),
                _ => r == self,
            },
    {
        match self {
            Self::Temp(s) => Self::FileInclude(s, can_compile),
            other => other,
        }
    }

    /// Read up to `#`: `UnexpectedEOF` at the end of the text, `EmptyName`
    /// for nothing, else the text (without white space and comments).
    pub fn parse_until_sharp(parser: &mut CompilerParser) -> (r: SharpParse)
        requires
            old(parser).wf(),
        ensures
            final(parser).wf(),
            final(parser).spec_at_front(),
            final(parser).upcoming() == until_result(old(parser).upcoming(), SHARP, false).1,
            match until_result(old(parser).upcoming(), SHARP, false).0 {
                None => r is UnexpectedEOF,
                Some(t) => if t.len() == 0 { r is EmptyName } else { r matches Self::Temp(x) && x@ == t },
            },
    {
        match parser.parse_until_char(SHARP) {
            None => SharpParse::UnexpectedEOF,
            Some(ret_str) => {
                if ret_str.as_str().is_empty() { SharpParse::EmptyName } else { SharpParse::Temp(ret_str) }
            }
        }
    }

    /// Read the code of a macro up to `#`. Comments and white space go;
    /// inside `%%%...%%%` white space reads as one space; a macro call
    /// `%name%` gets a space after its closing `%`; `%%` gets a space after
    /// it.
    pub fn parse_macro_code(parser: &mut CompilerParser) -> (r: SharpParse)
        requires
            old(parser).wf(),
        ensures
            final(parser).wf(),
            final(parser).spec_at_front(),
            final(parser).upcoming().len() <= old(parser).upcoming().len(),
            final(parser).upcoming() == macro_code_run(mc_start(), old(parser).upcoming()).1,
            match macro_code_run(mc_start(), old(parser).upcoming()).0 {
                None => r is UnexpectedEOF,
                Some(t) => r matches Self::Temp(x) && x@ == t,
            },
            r matches Self::Temp(t) ==> !t@.contains(SHARP) && !t@.contains(COMMENT_LINE),
    {
        let mut code_str: Vec<char> = Vec::new();
        let mut now_macro_use = false;
        let mut now_sss = false;
        let mut was_sss_space = false;
        let mut macro_use_chars_in_a_row: usize = 0;
        let mut prev_macro_use_chars_in_a_row: usize = 0;
        let ghost n0 = parser.upcoming().len();
        let ghost u0 = parser.upcoming();
        proof {
            let r = macro_code_run(mc_start(), u0);
            if let Some(t) = r.0 { assert(code_str@ + t =~= t); }
            assert(prepend_read(code_str@, r) =~= r);
        }
        loop
            invariant_except_break
                macro_code_run(mc_start(), u0) == prepend_read(code_str@, macro_code_run(
                    mc_state(now_macro_use, now_sss, was_sss_space, macro_use_chars_in_a_row, prev_macro_use_chars_in_a_row),
                    parser.upcoming())),
            invariant
                parser.wf(),
                parser.upcoming().len() <= n0,
                n0 == old(parser).upcoming().len(),
                u0 == old(parser).upcoming(),
                macro_use_chars_in_a_row <= SSS_CHAR_LEN,
                prev_macro_use_chars_in_a_row <= SSS_CHAR_LEN,
                !code_str@.contains(SHARP),
                !code_str@.contains(COMMENT_LINE),
            ensures
                parser.wf(),
                parser.spec_at_front(),
                parser.upcoming().len() <= n0,
                !code_str@.contains(SHARP),
                !code_str@.contains(COMMENT_LINE),
                macro_code_run(mc_start(), u0) == (Some(code_str@), parser.upcoming()),
            decreases parser.upcoming().len(),
        {
            let ghost st = mc_state(now_macro_use, now_sss, was_sss_space, macro_use_chars_in_a_row, prev_macro_use_chars_in_a_row);
            let ghost acc0 = code_str@;
            if macro_use_chars_in_a_row > 0 && macro_use_chars_in_a_row == prev_macro_use_chars_in_a_row {
                if !now_sss && macro_use_chars_in_a_row == 1 { now_macro_use = true; }
                if macro_use_chars_in_a_row == 2 { push_no_special(&mut code_str, DEFAULT_SPACE); }
                macro_use_chars_in_a_row = 0;
            }
            prev_macro_use_chars_in_a_row = macro_use_chars_in_a_row;
            let ghost t = mc_settle(st);
            assert(mc_state(now_macro_use, now_sss, was_sss_space, macro_use_chars_in_a_row, prev_macro_use_chars_in_a_row) == t.0);
            assert(code_str@ =~= acc0 + t.1);
            let ghost u = parser.upcoming();
            let ghost acc1 = code_str@;

            match parser.next() {
                None => {
                    proof { assert(macro_code_run(st, u) == (None::<Seq<char>>, u)); }
                    return SharpParse::UnexpectedEOF;
                }
                Some(c) => {
                    let ghost rest = u.drop_first();
                    assert(u[0] == c);
                    if c == COMMENT_LINE {
                        let ghost w = mc_space(t.0);
                        if now_sss && !was_sss_space {
                            was_sss_space = true;
                            push_no_special(&mut code_str, DEFAULT_SPACE);
                        }
                        assert(code_str@ =~= acc1 + w.1);
                        assert(mc_state(now_macro_use, now_sss, was_sss_space, macro_use_chars_in_a_row, prev_macro_use_chars_in_a_row) == w.0);
                        proof {
                            lemma_prepend_read(acc0, t.1 + w.1, macro_code_run(w.0, rest.skip(line_len(rest) as int)));
                            assert(acc0 + (t.1 + w.1) =~= code_str@);
                        }
                        parser.skip_line();
                    } else if c == SHARP {
                        proof {
                            assert(macro_code_run(st, u) == (Some(t.1), rest));
                            assert(acc0 + t.1 =~= code_str@);
                        }
                        break;
                    } else {
                        let ghost w = mc_char(t.0, c);
                        if c == MACRO_USE_CHAR {
                            push_no_special(&mut code_str, c);
                            if macro_use_chars_in_a_row < SSS_CHAR_LEN { macro_use_chars_in_a_row = macro_use_chars_in_a_row + 1; }
                            if now_macro_use {
                                push_no_special(&mut code_str, DEFAULT_SPACE);
                                now_macro_use = false;
                                macro_use_chars_in_a_row = 0;
                            } else if macro_use_chars_in_a_row == SSS_CHAR_LEN {
                                push_no_special(&mut code_str, DEFAULT_SPACE);
                                now_sss = !now_sss;
                                was_sss_space = true;
                                macro_use_chars_in_a_row = 0;
                            }
                        } else if is_unicode_ws_exec(c) {
                            if now_sss && !was_sss_space {
                                was_sss_space = true;
                                push_no_special(&mut code_str, DEFAULT_SPACE);
                            }
                        } else {
                            was_sss_space = false;
                            push_no_special(&mut code_str, c);
                        }
                        assert(code_str@ =~= acc1 + w.1);
                        assert(mc_state(now_macro_use, now_sss, was_sss_space, macro_use_chars_in_a_row, prev_macro_use_chars_in_a_row) == w.0);
                        proof {
                            lemma_prepend_read(acc0, t.1 + w.1, macro_code_run(w.0, rest));
                            assert(acc0 + (t.1 + w.1) =~= code_str@);
                        }
                    }
                }
            }
        }
        SharpParse::Temp(chars_to_string(&code_str))
    }

    pub fn parse_sharp(parser: &mut CompilerParser, can_compile: CanCompile) -> (r: SharpParse)
        requires
            old(parser).wf(),
            old(parser).spec_at_front(),
        ensures
            final(parser).wf(),
            final(parser).spec_at_front(),
            final(parser).upcoming().len() <= old(parser).upcoming().len(),
            !(r is Temp),
            r matches Self::FileInclude(_, cc) ==> cc != CanCompile::All,
            r matches Self::FileInclude(_, cc) ==> (cc == CanCompile::OnlyMacros ==> can_compile.spec_macro())
                && (cc == CanCompile::OnlySettings ==> can_compile.spec_settings())
                && (cc == CanCompile::MacroAndSettings ==> can_compile.spec_macro() && can_compile.spec_settings()),
            r is CantCompileMacro ==> !can_compile.spec_macro(),
            r is CantCompileSetting ==> !can_compile.spec_settings(),
            r matches Self::Macros { macro_name, macro_cmds } ==> !macro_name@.contains(MACRO_USE_CHAR) && macro_name@.len() > 0,
            r.view() == sharp_run(old(parser).upcoming(), can_compile).0,
            final(parser).upcoming() == sharp_run(old(parser).upcoming(), can_compile).1,
    {
        let ghost n0 = parser.upcoming().len();
        let ghost u0 = parser.upcoming();
        let c: char;
        loop
            invariant_except_break
                sharp_lead(u0) == sharp_lead(parser.upcoming()),
            invariant
                parser.wf(),
                parser.spec_at_front(),
                parser.upcoming().len() <= n0,
                n0 == old(parser).upcoming().len(),
                u0 == old(parser).upcoming(),
            ensures
                parser.wf(),
                parser.spec_can_back(),
                parser.upcoming_after_back().len() <= n0,
                parser.upcoming().len() < n0,
                parser.upcoming_after_back().len() == parser.upcoming().len() + 1,
                parser.upcoming_after_back().len() > 0 && parser.upcoming_after_back()[0] == c,
                parser.upcoming_after_back() == seq![c] + parser.upcoming(),
                c != MACRO_USE_CHAR,
                sharp_lead(u0) == Some((c, parser.upcoming())),
            decreases parser.upcoming().len(),
        {
            let ghost u = parser.upcoming();
            match parser.next() {
                None => {
                    proof { assert(u =~= Seq::<char>::empty()); }
                    return SharpParse::UnexpectedEOF;
                }
                Some(x) => {
                    assert(u[0] == x);
                    let ghost rest = u.drop_first();
                    if x == COMMENT_LINE {
                        parser.skip_line();
                    } else if x == MACRO_USE_CHAR {
                        return SharpParse::BadMacroName(MACRO_USE_CHAR);
                    } else if is_unicode_ws_exec(x) {
                    } else {
                        c = x;
                        assert(parser.upcoming_after_back() =~= seq![c] + parser.upcoming());
                        break;
                    }
                }
            }
        }

        // bring in a file:
        if c == SHARP {
            proof { lemma_until_left(parser.upcoming(), SHARP, false); }
            let to_sharp = Self::parse_until_sharp(parser);
            if to_sharp.is_error() { return to_sharp }
            let to_sharp = match to_sharp.temp_to_string() { Some(x) => x, None => { return SharpParse::UnexpectedEOF } };
            let tv = str_to_chars(to_sharp.as_str());
            if tv.len() == 1 && tv[0] == '!' {
                assert(tv@ =~= seq!['!']);
                if !can_compile.can_compile_macro() { return SharpParse::CantCompileMacro }
                if !can_compile.can_compile_settings() { return SharpParse::CantCompileSetting }
                proof { lemma_until_left(parser.upcoming(), SHARP, false); }
                let inner = Self::parse_until_sharp(parser);
                return inner.to_file_include(CanCompile::MacroAndSettings);
            }
            if tv.len() == 1 && tv[0] == '\'' {
                assert(tv@ =~= seq!['\'']);
                if !can_compile.can_compile_settings() { return SharpParse::CantCompileSetting }
                proof { lemma_until_left(parser.upcoming(), SHARP, false); }
                let inner = Self::parse_until_sharp(parser);
                return inner.to_file_include(CanCompile::OnlySettings);
            }
            if !can_compile.can_compile_macro() { return SharpParse::CantCompileMacro }
            return SharpParse::FileInclude(to_sharp, CanCompile::OnlyMacros);
        }

        // define a macro:
        parser.back();
        proof { lemma_until_left(parser.upcoming(), SHARP, false); }
        let macro_name = Self::parse_until_sharp(parser);
        if !macro_name.is_temp() { return macro_name }
        let macro_name = match macro_name.temp_to_string() { Some(x) => x, None => { return SharpParse::UnexpectedEOF } };
        let mv = str_to_chars(macro_name.as_str());
        if contains_char(mv.as_slice(), MACRO_USE_CHAR) {
            return SharpParse::BadMacroName(MACRO_USE_CHAR);
        }
        let macro_cmds = Self::parse_macro_code(parser);
        if !macro_cmds.is_temp() { return macro_cmds }
        let macro_cmds = match macro_cmds.temp_to_string() { Some(x) => x, None => { return SharpParse::UnexpectedEOF } };
        SharpParse::Macros { macro_name, macro_cmds }
    }
}

impl CanCompile {
    pub open spec fn spec_macro(self) -> bool { self != CanCompile::OnlySettings }
    pub open spec fn spec_settings(self) -> bool { self != CanCompile::OnlyMacros }
}

/// Append a character that is neither `#` nor `;`.
fn push_no_special(v: &mut Vec<char>, c: char)
    requires
        !old(v)@.contains(SHARP),
        !old(v)@.contains(COMMENT_LINE),
        c != SHARP,
        c != COMMENT_LINE,
    ensures
        final(v)@ == old(v)@.push(c),
        !final(v)@.contains(SHARP),
        !final(v)@.contains(COMMENT_LINE),
{
    v.push(c);
    proof {
        assert forall|x: char| x == SHARP || x == COMMENT_LINE implies !v@.contains(x) by {
            if v@.contains(x) {
                let j = choose|j: int| 0 <= j < v@.len() && v@[j] == x;
                if j < v@.len() - 1 { assert(old(v)@[j] == x); }
            }
        }
    }
}

/// Whether `c` is among the characters.
pub fn contains_char(v: &[char], c: char) -> (r: bool)
    ensures
        r == v@.contains(c),
{
    let mut i: usize = 0;
    while i < v.len()
        invariant
            i <= v@.len(),
            forall|j: int| 0 <= j < i ==> v@[j] != c,
        decreases v@.len() - i,
    {
        if v[i] == c {
            assert(v@[i as int] == c);
            return true;
        }
        i = i + 1;
    }
    false
}

// [-] PARSER OF "#...#"
// ---------------------------------------------------------------------


// ---------------------------------------------------------------------
// [+] files

/// The extension of source files.
pub open spec fn spec_extension() -> Seq<char> {
    seq!['b', 'f', 'c', 'g']
}

/// The last index of `c` in `s`.
pub open spec fn last_index(s: Seq<char>, c: char) -> Option<int>
    decreases s.len(),
{
    if s.len() == 0 {
        None
    } else if s.last() == c {
        Some(s.len() - 1)
    } else {
        last_index(s.drop_last(), c)
    }
}

pub proof fn lemma_last_index(s: Seq<char>, c: char)
    ensures
        last_index(s, c) matches Some(i) ==> 0 <= i < s.len() && s[i] == c
            && forall|j: int| i < j < s.len() ==> s[j] != c,
        last_index(s, c) is None ==> forall|j: int| 0 <= j < s.len() ==> s[j] != c,
    decreases s.len(),
{
    if s.len() > 0 {
        let p = s.drop_last();
        lemma_last_index(p, c);
        assert forall|j: int| 0 <= j < p.len() implies p[j] == s[j] by {}
    }
}

/// The last part of a path, after its last `/`.
pub open spec fn base_name(p: Seq<char>) -> Seq<char> {
    match last_index(p, '/') {
        Some(i) => p.subrange(i + 1, p.len() as int),
        None => p,
    }
}

/// The extension of a path: after the last `.` of its last part, where
/// that `.` is not the part's first character.
pub open spec fn extension_of(p: Seq<char>) -> Option<Seq<char>> {
    let b = base_name(p);
    match last_index(b, '.') {
        Some(i) => if i > 0 { Some(b.subrange(i + 1, b.len() as int)) } else { None },
        None => None,
    }
}

/// The file name with the source extension: kept when it has it, added
/// when it has none, `None` when it has another.
pub open spec fn with_extension(name: Seq<char>) -> Option<Seq<char>> {
    match extension_of(name) {
        Some(e) => if e == spec_extension() { Some(name) } else { None },
        None => Some(name + seq!['.'] + spec_extension()),
    }
}

/// The folder of a path: before its last `/` (empty with none); `None` for
/// the empty path.
pub open spec fn parent_of(p: Seq<char>) -> Option<Seq<char>> {
    if p.len() == 0 {
        None
    } else {
        match last_index(p, '/') {
            Some(i) => Some(p.subrange(0, i)),
            None => Some(seq![]),
        }
    }
}

/// Each leading `../` of `path` takes `dir` one folder up; `None` when a
/// leading `..` is not followed by `/`, or there is no folder above.
pub open spec fn go_up(dir: Seq<char>, path: Seq<char>) -> Option<(Seq<char>, Seq<char>)>
    decreases path.len(),
{
    if path.len() >= 2 && path[0] == '.' && path[1] == '.' {
        if path.len() >= 3 && path[2] == '/' {
            match parent_of(dir) {
                Some(d) => go_up(d, path.subrange(3, path.len() as int)),
                None => None,
            }
        } else {
            None
        }
    } else {
        Some((dir, path))
    }
}

/// `path` in folder `dir`.
pub open spec fn join_path(dir: Seq<char>, path: Seq<char>) -> Seq<char> {
    if dir.len() == 0 { path } else { dir + seq!['/'] + path }
}

/// The path of a file named `name` from a file at `cur` (the first file:
/// none).
pub open spec fn spec_resolve(cur: Option<Seq<char>>, name: Seq<char>) -> Option<Seq<char>> {
    match with_extension(name) {
        None => None,
        Some(np) => match cur {
            None => Some(np),
            Some(cp) => match parent_of(cp) {
                None => None,
                Some(d) => match go_up(d, np) {
                    None => None,
                    Some((d2, p2)) => Some(join_path(d2, p2)),
                },
            },
        },
    }
}

fn last_index_exec(s: &Vec<char>, c: char) -> (r: Option<usize>)
    ensures
        r is None <==> last_index(s@, c) is None,
        r matches Some(i) ==> last_index(s@, c) == Some(i as int) && i < s@.len(),
{
    proof { lemma_last_index(s@, c); }
    let mut i: usize = s.len();
    while i > 0
        invariant
            i <= s@.len(),
            forall|j: int| i <= j < s@.len() ==> s@[j] != c,
        decreases i,
    {
        if s[i - 1] == c {
            proof {
                lemma_last_index(s@, c);
                match last_index(s@, c) {
                    Some(m) => {
                        if m < i - 1 { assert(s@[i - 1] != c); }
                        if m > i - 1 { assert(s@[m] != c); }
                    }
                    None => { assert(s@[i - 1] != c); }
                }
            }
            return Some(i - 1);
        }
        i = i - 1;
    }
    proof {
        lemma_last_index(s@, c);
        if let Some(m) = last_index(s@, c) { assert(s@[m] != c); }
    }
    None
}

fn sub_chars(s: &Vec<char>, a: usize, b: usize) -> (r: Vec<char>)
    requires
        a <= b <= s@.len(),
    ensures
        r@ == s@.subrange(a as int, b as int),
{
    let mut r: Vec<char> = Vec::new();
    let mut i = a;
    while i < b
        invariant
            a <= i <= b,
            b <= s@.len(),
            r@ == s@.subrange(a as int, i as int),
        decreases b - i,
    {
        r.push(s[i]);
        i = i + 1;
        assert(r@ =~= s@.subrange(a as int, i as int));
    }
    r
}

fn parent_exec(p: &Vec<char>) -> (r: Option<Vec<char>>)
    ensures
        match parent_of(p@) { Some(d) => r matches Some(x) && x@ == d, None => r is None },
{
    if p.len() == 0 { return None }
    match last_index_exec(p, '/') {
        Some(i) => {
            proof { lemma_last_index(p@, '/'); }
            Some(sub_chars(p, 0, i))
        }
        None => Some(Vec::new()),
    }
}

/// Where the file named `file_name` lies, seen from the file at `cur_path`.
pub fn resolve_path(cur_path: Option<String>, file_name: &String) -> (r: Option<String>)
    ensures
        match spec_resolve(match cur_path { Some(c) => Some(c@), None => None }, file_name@) {
            Some(p) => r matches Some(x) && x@ == p,
            None => r is None,
        },
{
    let name = str_to_chars(file_name.as_str());
    let base: Vec<char> = match last_index_exec(&name, '/') {
        Some(i) => {
            let n = name.len();
            proof { lemma_last_index(name@, '/'); }
            assert(i < n);
            sub_chars(&name, i + 1, n)
        }
        None => sub_chars(&name, 0, name.len()),
    };
    proof { assert(name@.subrange(0, name@.len() as int) =~= name@); }
    let mut ext: Vec<char> = Vec::new();
    crate::general::text::push_chars(&mut ext, &['b', 'f', 'c', 'g']);
    assert(ext@ =~= spec_extension());
    assert(base@ == base_name(name@));
    let np: Vec<char> = match last_index_exec(&base, '.') {
        Some(i) => {
            if i > 0 {
                proof { lemma_last_index(base@, '.'); }
                let e = sub_chars(&base, i + 1, base.len());
                assert(extension_of(name@) == Some(e@));
                if !crate::general::text::chars_eq(e.as_slice(), ext.as_slice()) { return None }
                sub_chars(&name, 0, name.len())
            } else {
                assert(extension_of(name@) is None);
                let mut v = sub_chars(&name, 0, name.len());
                v.push('.');
                crate::general::text::push_chars(&mut v, ext.as_slice());
                proof { assert(v@ =~= name@ + seq!['.'] + spec_extension()); }
                v
            }
        }
        None => {
            assert(extension_of(name@) is None);
            let mut v = sub_chars(&name, 0, name.len());
            v.push('.');
            crate::general::text::push_chars(&mut v, ext.as_slice());
            proof { assert(v@ =~= name@ + seq!['.'] + spec_extension()); }
            v
        }
    };
    assert(with_extension(file_name@) == Some(np@));
    match cur_path {
        None => Some(chars_to_string(&np)),
        Some(cp) => {
            let cpv = str_to_chars(cp.as_str());
            let mut dir = match parent_exec(&cpv) { Some(d) => d, None => { return None } };
            let mut path = np;
            assert(dir@ == parent_of(cp@)->0);
            loop
                invariant
                    go_up(dir@, path@) == go_up(
                        parent_of(cp@)->0,
                        with_extension(file_name@)->0,
                    ),
                    parent_of(cp@) is Some,
                    with_extension(file_name@) is Some,
                    cur_path matches Some(c) && c@ == cp@,
                ensures
                    go_up(dir@, path@) == go_up(parent_of(cp@)->0, with_extension(file_name@)->0),
                    go_up(dir@, path@) == Some((dir@, path@)),
                    parent_of(cp@) is Some,
                    with_extension(file_name@) is Some,
                decreases path@.len(),
            {
                if path.len() >= 2 && path[0] == '.' && path[1] == '.' {
                    if path.len() >= 3 && path[2] == '/' {
                        match parent_exec(&dir) {
                            Some(d) => {
                                assert(go_up(dir@, path@) == go_up(d@, path@.subrange(3, path@.len() as int)));
                                dir = d;
                                path = sub_chars(&path, 3, path.len());
                            }
                            None => {
                                assert(go_up(dir@, path@) is None);
                                return None
                            }
                        }
                    } else {
                        assert(go_up(dir@, path@) is None);
                        return None;
                    }
                } else {
                    assert(go_up(dir@, path@) == Some((dir@, path@)));
                    break;
                }
            }
            let mut out = dir;
            if out.len() > 0 {
                out.push('/');
                crate::general::text::push_chars(&mut out, path.as_slice());
                Some(chars_to_string(&out))
            } else {
                Some(chars_to_string(&path))
            }
        }
    }
}

/// Where the source files come from. Its users implement it (reading the
/// file system, or memory).
pub trait FileSource {
    /// The text of the file at `path`, if it can be read.
    fn read_to_string(&mut self, path: &String) -> Option<String>;
}

/// Source files held in memory: (path, text).
pub struct MemFiles {
    pub files: Vec<(String, String)>,
}

impl FileSource for MemFiles {
    /// The text of the first file at that path.
    fn read_to_string(&mut self, path: &String) -> (r: Option<String>)
        ensures
            *final(self) == *old(self),
            r matches Some(t) ==> exists|i: int| 0 <= i < old(self).files@.len() && old(self).files@[i].0@ == path@ && old(self).files@[i].1 == t,
            match crate::compiler::compiler_info::key_get(old(self).files@, path@) {
                Some(t) => r matches Some(x) && x@ == t@,
                None => r is None,
            },
    {
        proof { crate::compiler::compiler_info::lemma_key_index(self.files@, path@); }
        let mut i: usize = 0;
        while i < self.files.len()
            invariant
                i <= self.files@.len(),
                forall|j: int| 0 <= j < i ==> (#[trigger] self.files@[j]).0@ != path@,
            decreases self.files@.len() - i,
        {
            if self.files[i].0 == *path {
                let t = self.files[i].1.clone();
                assert(self.files@[i as int].0@ == path@);
                proof {
                    crate::compiler::compiler_info::lemma_key_index(self.files@, path@);
                    let k = crate::compiler::compiler_info::key_index(self.files@, path@);
                    if let Some(m) = k { if m < i { assert(self.files@[m].0@ != path@); } if m > i { assert(self.files@[i as int].0@ != path@); } }
                }
                return Some(t);
            }
            i = i + 1;
        }
        None
    }
}

// [-] files
// ---------------------------------------------------------------------

// ---------------------------------------------------------------------
// [+] compiler

/// How deep files may bring in other files; deeper is an error (a file
/// that brings itself in would never end).
pub const MAX_INCLUDE_DEPTH: usize = 64;

/// The path of the including file, from what it hands over.
pub open spec fn inter_path(i: Option<CompilerInterInfo>) -> Option<Seq<char>> {
    match i {
        Some(x) => match x.path { Some(p) => Some(p@), None => None },
        None => None,
    }
}

/// Whether code started before this file, from what the including file
/// hands over.
pub open spec fn inter_started(i: Option<CompilerInterInfo>) -> bool {
    match i { Some(x) => x.code_started, None => false }
}

/// What holds of every result of compiling `file_name` (from the file
/// that handed over `inter`, with options that may compile what
/// `can_compile` says): a path that cannot be resolved is a file-open error
/// for that name; an error's last place is in this file; a success is
/// well formed, is at the resolved path, and, for a file that may hold no
/// code, has no program and leaves the code state as it found it.
pub open spec fn compile_post<T>(
    file_name: Seq<char>,
    can_compile: CanCompile,
    inter: Option<CompilerInterInfo>,
    r: Result<CompilerInfo<T>, CompilerError>,
) -> bool {
    &&& spec_resolve(inter_path(inter), file_name) is None ==> (r matches Err(e)
        && e.err_type is FileOpenError && e.err_stack_pos@.len() == 1
        && e.err_stack_pos@[0].file_name@ == file_name && e.err_stack_pos@[0].pos is None)
    &&& r matches Err(e) ==> e.err_stack_pos@.len() >= 1 && e.err_stack_pos@.last().file_name@ == file_name
    &&& r matches Ok(info) ==> {
        &&& info.wf()
        &&& spec_resolve(inter_path(inter), file_name) matches Some(p)
            && info.spec_inter_info().path matches Some(q) && q@ == p
        &&& can_compile != CanCompile::All ==> info.spec_program().len() == 0
            && info.spec_inter_info().code_started == inter_started(inter)
    }
}

/// Compile the file `file_name`: resolve its path from the including
/// file's (none for the first file), read it from `files`, and compile its
/// text. `inter_info` is what the including file hands over.
pub fn compile<CC: CmdCompiler<T> + PortNameHandler, T, M: MacroNameCodeChecker, F: FileSource>(
    file_name: String,
    option: CompilerOption<'_, CC, T, M>,
    inter_info: Option<CompilerInterInfo>,
    files: &mut F,
) -> (r: Result<CompilerInfo<T>, CompilerError>)
    requires
        option.can_compile == CanCompile::All ==> option.cmd_compiler is Some,
    ensures
        compile_post(file_name@, option.can_compile, inter_info, r),
{
    compile_depth(file_name, option, inter_info, files, MAX_INCLUDE_DEPTH)
}

fn compile_depth<CC: CmdCompiler<T> + PortNameHandler, T, M: MacroNameCodeChecker, F: FileSource>(
    file_name: String,
    option: CompilerOption<'_, CC, T, M>,
    inter_info: Option<CompilerInterInfo>,
    files: &mut F,
    depth: usize,
) -> (r: Result<CompilerInfo<T>, CompilerError>)
    requires
        option.can_compile == CanCompile::All ==> option.cmd_compiler is Some,
    ensures
        compile_post(file_name@, option.can_compile, inter_info, r),
    decreases depth,
{
    let ghost inter0 = inter_info;
    let mut ret = CompilerInfo::new(inter_info);
    let cur_path = ret.take_path();
    assert(match cur_path { Some(c) => Some(c@), None => None::<Seq<char>> } == inter_path(inter0));
    let path = match resolve_path(cur_path, &file_name) {
        Some(p) => p,
        None => { return Err(CompilerError::new_file_open_err(file_name)) }
    };
    let code = match files.read_to_string(&path) {
        Some(c) => c,
        None => { return Err(CompilerError::new_file_open_err(file_name)) }
    };
    ret.set_path(path);
    let chars = str_to_chars(code.as_str());
    if chars.len() >= usize::MAX - 1 { return Err(CompilerError::new_file_open_err(file_name)) }
    let parser = CompilerParser::new(chars);
    compile_text(file_name, option, ret, parser, files, depth)
}

/// The commands of a setting's text, through the setting rules into `ret`;
/// the warnings of the rule go to `ret` at `pos`.
fn compile_setting<T>(
    actions: &SettingActions,
    setting_string: String,
    pos: CompilerPos,
    file_name: &String,
    ret: &mut CompilerInfo<T>,
) -> (r: Result<(), CompilerError>)
    requires
        old(ret).wf(),
    ensures
        final(ret).wf(),
        final(ret).spec_program() == old(ret).spec_program(),
        final(ret).spec_inter_info() == old(ret).spec_inter_info(),
        r matches Err(e) ==> e.err_stack_pos@.len() == 1 && e.err_stack_pos@[0].file_name == *file_name,
        spec_params(split_colon(setting_string@)) is Err ==> (r matches Err(e) && e.err_type is SettingError),
{
    match Setting::prepare_settings(setting_string.as_str()) {
        Err(error) => Err(CompilerError::new_setting_error(pos, file_name.clone(), error)),
        Ok(setting) => {
            let sa_res = actions.make_setting_action(&setting, ret);
            if !sa_res.is_right_rule() {
                return Err(CompilerError::new_setting_action_error(pos, file_name.clone(), sa_res, setting_string))
            }
            let parent_must_process = sa_res.parent_must_process();
            if parent_must_process { ret.add_setting_for_parent(setting) }
            match sa_res.get_warinings() {
                Some(warnings) => {
                    let mut k: usize = 0;
                    while k < warnings.len()
                        invariant
                            ret.wf(),
                            ret.spec_program() == old(ret).spec_program(),
                            ret.spec_inter_info() == old(ret).spec_inter_info(),
                        decreases warnings@.len() - k,
                    {
                        ret.add_warning(CompilerWarning::SettingWarning {
                            pos, setting: setting_string.clone(), warning: warnings[k].clone(),
                        });
                        k = k + 1;
                    }
                }
                None => {}
            }
            Ok(())
        }
    }
}

/// One command character through the command compiler.
fn cc_compile_one<CC: CmdCompiler<T>, T>(cc: &mut Option<CC>, c: char, pos: CompilerPos, file_name: &String)
    -> (r: Result<(), CompilerError>)
    requires
        *old(cc) is Some,
    ensures
        *final(cc) is Some,
        r matches Err(e) ==> e.err_stack_pos@.len() == 1 && e.err_stack_pos@[0].file_name == *file_name,
        r is Ok <==> old(cc)->0.spec_takes(c, pos),
        r is Ok ==> final(cc)->0.spec_fed() == old(cc)->0.spec_fed().push(c),
        r matches Err(e) ==> e.err_stack_pos@[0].pos == if e.err_type.spec_need_pos() { Some(pos) } else { None::<CompilerPos> },
{
    match cc.as_mut() {
        Some(x) => match x.cmd_compile(c, pos) {
            Some(err) => Err(CompilerError::new(err, pos, file_name.clone())),
            None => Ok(()),
        },
        None => Ok(()),
    }
}

/// Each character of `cmds` through the command compiler, all at `pos`.
fn cc_compile_seq<CC: CmdCompiler<T>, T>(cc: &mut Option<CC>, cmds: &String, pos: CompilerPos, file_name: &String)
    -> (r: Result<(), CompilerError>)
    requires
        *old(cc) is Some,
    ensures
        *final(cc) is Some,
        r matches Err(e) ==> e.err_stack_pos@.len() == 1 && e.err_stack_pos@[0].file_name == *file_name,
        r matches Err(e) ==> e.err_stack_pos@[0].pos == if e.err_type.spec_need_pos() { Some(pos) } else { None::<CompilerPos> },
        cmds@.len() == 0 ==> r is Ok && *final(cc) == *old(cc),
        cmds@.len() > 0 && !old(cc)->0.spec_takes(cmds@[0], pos) ==> r is Err,
        r is Ok ==> final(cc)->0.spec_fed() == old(cc)->0.spec_fed() + cmds@,
{
    let v = str_to_chars(cmds.as_str());
    let mut i: usize = 0;
    while i < v.len()
        invariant
            *cc is Some,
            v@ == cmds@,
            i == 0 ==> *cc == *old(cc),
            i > 0 ==> old(cc)->0.spec_takes(v@[0], pos),
            i <= v@.len(),
            cc->0.spec_fed() == old(cc)->0.spec_fed() + v@.take(i as int),
        decreases v@.len() - i,
    {
        let r = cc_compile_one(cc, v[i], pos, file_name);
        if r.is_err() { return r }
        assert(v@.take(i as int + 1) =~= v@.take(i as int).push(v@[i as int]));
        i = i + 1;
    }
    assert(v@.take(v@.len() as int) =~= v@);
    Ok(())
}

/// Use the macro `name`: its code through the command compiler.
fn use_macro<CC: CmdCompiler<T>, T>(
    cc: &mut Option<CC>,
    ret: &CompilerInfo<T>,
    name: String,
    pos: CompilerPos,
    file_name: &String,
) -> (r: Result<(), CompilerError>)
    requires
        *old(cc) is Some,
    ensures
        *final(cc) is Some,
        r matches Err(e) ==> e.err_stack_pos@.len() == 1 && e.err_stack_pos@[0].file_name == *file_name,
        key_get(ret.spec_macros(), name@) is None ==> (r matches Err(e) && e.err_type == CompilerErrorType::UnknownMacros(name)),
        r is Ok ==> key_get(ret.spec_macros(), name@) is Some
            && final(cc)->0.spec_fed() == old(cc)->0.spec_fed() + key_get(ret.spec_macros(), name@)->0@,
{
    let code = match ret.get_macros_code(name.as_str()) {
        Some(c) => c.clone(),
        None => { return Err(CompilerError::new_unknown_macros(pos, file_name.clone(), name)) }
    };
    cc_compile_seq(cc, &code, pos, file_name)
}

/// The names of a `%%%` list in `s` (the text after its opening `%%%`) up
/// to the `%` that closes it, and what follows that `%`; `None` when the
/// text ends first.
pub open spec fn sss_list(s: Seq<char>) -> Option<(Seq<Seq<char>>, Seq<char>)>
    decreases s.len(),
{
    let (v, rest) = sss_next(s, seq![]);
    match v {
        SssView::Eof(_) => None,
        SssView::End(x) => Some((match x { Some(n) => seq![n], None => Seq::<Seq<char>>::empty() }, rest)),
        SssView::Space(n) => if rest.len() < s.len() {
            match sss_list(rest) {
                Some((ns, r)) => Some((seq![n] + ns, r)),
                None => None,
            }
        } else {
            None
        },
    }
}

/// The codes of the macros `names`, one after another; `None` when one of
/// them is not among `macros`.
pub open spec fn macro_codes(macros: Seq<(String, String)>, names: Seq<Seq<char>>) -> Option<Seq<char>>
    decreases names.len(),
{
    if names.len() == 0 {
        Some(seq![])
    } else {
        match (macro_codes(macros, names.drop_last()), key_get(macros, names.last())) {
            (Some(c), Some(m)) => Some(c + m@),
            _ => None,
        }
    }
}

/// A name as written in a `%%%` list: not empty, with no white space, `%`
/// or `;`.
pub open spec fn list_name(n: Seq<char>) -> bool {
    n.len() > 0 && forall|i: int| 0 <= i < n.len() ==> list_name_char(#[trigger] n[i])
}

pub open spec fn list_name_char(c: char) -> bool {
    !is_unicode_ws(c) && c != MACRO_USE_CHAR && c != COMMENT_LINE
}

/// Names separated by one space.
pub open spec fn spaced(names: Seq<Seq<char>>) -> Seq<char>
    decreases names.len(),
{
    if names.len() == 0 {
        seq![]
    } else if names.len() == 1 {
        names[0]
    } else {
        names[0] + seq![' '] + spaced(names.drop_first())
    }
}

proof fn lemma_sss_next_name(n: Seq<char>, t: Seq<char>, acc: Seq<char>)
    requires
        forall|i: int| 0 <= i < n.len() ==> list_name_char(#[trigger] n[i]),
    ensures
        sss_next(n + t, acc) == sss_next(t, acc + n),
    decreases n.len(),
{
    if n.len() == 0 {
        assert(n + t =~= t);
        assert(acc + n =~= acc);
    } else {
        let c = n[0];
        assert(list_name_char(n[0]));
        assert((n + t)[0] == c);
        assert((n + t).drop_first() =~= n.drop_first() + t);
        let d = n.drop_first();
        assert forall|i: int| 0 <= i < d.len() implies list_name_char(#[trigger] d[i]) by { assert(d[i] == n[i + 1]); }
        lemma_sss_next_name(d, t, acc.push(c));
        assert(acc.push(c) + d =~= acc + n);
    }
}

/// Law: a `%%%` list of names separated by spaces, with or without a space
/// before the closing `%`, lists exactly those names, in order, and leaves
/// what follows that `%`.
pub proof fn lemma_sss_list_spaced(names: Seq<Seq<char>>, trailing: bool, rest: Seq<char>)
    requires
        names.len() >= 1,
        forall|k: int| 0 <= k < names.len() ==> list_name(#[trigger] names[k]),
    ensures
        sss_list(spaced(names) + (if trailing { seq![' '] } else { Seq::<char>::empty() }) + seq!['%'] + rest)
            == Some((names, rest)),
    decreases names.len(),
{
    let sp: Seq<char> = if trailing { seq![' '] } else { Seq::<char>::empty() };
    let tail = sp + seq!['%'] + rest;
    let n0 = names[0];
    assert(list_name(n0));
    let text = spaced(names) + sp + seq!['%'] + rest;
    let pct = seq!['%'] + rest;
    assert(pct[0] == '%');
    assert(pct.drop_first() =~= rest);
    if names.len() == 1 {
        assert(text =~= n0 + tail);
        lemma_sss_next_name(n0, tail, seq![]);
        assert(Seq::<char>::empty() + n0 =~= n0);
        if trailing {
            assert(tail[0] == ' ');
            assert(tail.drop_first() =~= pct);
            assert(sss_next(text, seq![]) == (SssView::Space(n0), pct));
            assert(sss_next(pct, seq![]) == (SssView::End(None::<Seq<char>>), rest));
            assert(sss_list(pct) == Some((Seq::<Seq<char>>::empty(), rest)));
            assert(seq![n0] + Seq::<Seq<char>>::empty() =~= names);
        } else {
            assert(tail =~= pct);
            assert(sss_next(text, seq![]) == (SssView::End(Some(n0)), rest));
            assert(seq![n0] =~= names);
        }
    } else {
        let others = names.drop_first();
        assert forall|k: int| 0 <= k < others.len() implies list_name(#[trigger] others[k]) by { assert(others[k] == names[k + 1]); }
        lemma_sss_list_spaced(others, trailing, rest);
        let after = spaced(others) + sp + seq!['%'] + rest;
        assert(text =~= n0 + (seq![' '] + after));
        lemma_sss_next_name(n0, seq![' '] + after, seq![]);
        assert(Seq::<char>::empty() + n0 =~= n0);
        assert((seq![' '] + after)[0] == ' ');
        assert((seq![' '] + after).drop_first() =~= after);
        assert(sss_next(text, seq![]) == (SssView::Space(n0), after));
        assert(seq![n0] + others =~= names);
    }
}

/// Use, in order, each macro of a `%%%` list whose opening `%%%` is read,
/// up to the `%` that closes it: their codes go through the command
/// compiler one after another.
fn use_macro_list<CC: CmdCompiler<T>, T>(
    cc: &mut Option<CC>,
    ret: &CompilerInfo<T>,
    parser: &mut CompilerParser,
    file_name: &String,
) -> (r: Result<(), CompilerError>)
    requires
        *old(cc) is Some,
        old(parser).wf(),
    ensures
        *final(cc) is Some,
        final(parser).wf(),
        final(parser).spec_at_front(),
        final(parser).upcoming().len() <= old(parser).upcoming().len(),
        r matches Err(e) ==> e.err_stack_pos@.len() == 1 && e.err_stack_pos@[0].file_name == *file_name,
        sss_list(old(parser).upcoming()) is None ==> r is Err,
        (sss_list(old(parser).upcoming()) matches Some((names, _)) && macro_codes(ret.spec_macros(), names) is None) ==> r is Err,
        r is Ok ==> (sss_list(old(parser).upcoming()) matches Some((names, rest))
            && macro_codes(ret.spec_macros(), names) matches Some(code)
            && final(cc)->0.spec_fed() == old(cc)->0.spec_fed() + code
            && final(parser).upcoming() == rest),
{
    let ghost s0 = parser.upcoming();
    let ghost mut done: Seq<Seq<char>> = Seq::empty();
    assert(s0 == parser.upcoming());
    loop
        invariant
            parser.wf(),
            *cc is Some,
            parser.upcoming().len() <= s0.len(),
            s0 == old(parser).upcoming(),
            sss_list(s0) == match sss_list(parser.upcoming()) {
                Some((ns, r)) => Some((done + ns, r)),
                None => None::<(Seq<Seq<char>>, Seq<char>)>,
            },
            macro_codes(ret.spec_macros(), done) matches Some(code) && cc->0.spec_fed() == old(cc)->0.spec_fed() + code,
        decreases parser.upcoming().len(),
    {
        let ghost u = parser.upcoming();
        proof { lemma_sss_left(u, seq![]); }
        match parser.parse_sss_next_name() {
            ParseNextNameSSS::EOF(_) => {
                return Err(CompilerError::new_expect_space_sep(parser.get_pos(), file_name.clone(), None))
            }
            ParseNextNameSSS::WhiteSpace(name) => {
                let ghost n = name@;
                let ghost before_cc = cc->0.spec_fed();
                let r = use_macro(cc, ret, name, parser.get_pos(), file_name);
                match r { Err(e) => { return Err(e) } Ok(()) => {} }
                proof {
                    assert(u.len() > 0);
                    let d2 = done.push(n);
                    assert(d2.drop_last() =~= done);
                    let c0 = macro_codes(ret.spec_macros(), done)->0;
                    assert(macro_codes(ret.spec_macros(), d2) == Some(c0 + key_get(ret.spec_macros(), n)->0@));
                    assert(old(cc)->0.spec_fed() + c0 + key_get(ret.spec_macros(), n)->0@
                        =~= old(cc)->0.spec_fed() + (c0 + key_get(ret.spec_macros(), n)->0@));
                    match sss_list(parser.upcoming()) {
                        Some((ns, rr)) => { assert(done + (seq![n] + ns) =~= d2 + ns); }
                        None => {}
                    }
                    done = d2;
                }
            }
            ParseNextNameSSS::StartOfEndSeq(x) => {
                match x {
                    Some(name) => {
                        let ghost n = name@;
                        let r = use_macro(cc, ret, name, parser.get_pos(), file_name);
                        match r { Err(e) => { return Err(e) } Ok(()) => {} }
                        proof {
                            let d2 = done.push(n);
                            assert(d2.drop_last() =~= done);
                            assert(done + seq![n] =~= d2);
                            let c0 = macro_codes(ret.spec_macros(), done)->0;
                            assert(old(cc)->0.spec_fed() + c0 + key_get(ret.spec_macros(), n)->0@
                                =~= old(cc)->0.spec_fed() + (c0 + key_get(ret.spec_macros(), n)->0@));
                        }
                    }
                    None => {
                        proof { assert(done + Seq::<Seq<char>>::empty() =~= done); }
                    }
                }
                return Ok(())
            }
        }
    }
}

/// Compile the text in `parser` of the file `file_name` into `ret` (which
/// has the file's path and no program yet).
pub fn compile_text<CC: CmdCompiler<T> + PortNameHandler, T, M: MacroNameCodeChecker, F: FileSource>(
    file_name: String,
    option_in: CompilerOption<'_, CC, T, M>,
    start: CompilerInfo<T>,
    parser_in: CompilerParser,
    files: &mut F,
    depth: usize,
) -> (r: Result<CompilerInfo<T>, CompilerError>)
    requires
        option_in.can_compile == CanCompile::All ==> option_in.cmd_compiler is Some,
        start.wf(),
        start.spec_program().len() == 0,
        parser_in.wf(),
        parser_in.spec_at_front(),
    ensures
        r matches Err(e) ==> e.err_stack_pos@.len() >= 1 && e.err_stack_pos@.last().file_name@ == file_name@,
        r matches Ok(info) ==> {
            &&& info.wf()
            &&& info.spec_inter_info().path == start.spec_inter_info().path
            &&& option_in.can_compile != CanCompile::All ==> info.spec_program().len() == 0
                && info.spec_inter_info().code_started == start.spec_inter_info().code_started
        },
        option_in.default_settings@.len() != 0 && option_in.can_compile == CanCompile::OnlyMacros
            ==> (r matches Err(e) && e.err_type is NotAllowedCompileSettings),
        option_in.default_settings@.len() == 0 ==> match lead_char(parser_in.upcoming()) {
            None => option_in.can_compile != CanCompile::All ==> (r matches Ok(info) && {
                &&& info.spec_macros() == start.spec_macros()
                &&& info.spec_devs() == start.spec_devs()
                &&& info.spec_port_names() == start.spec_port_names()
                &&& info.spec_mem_init() == start.spec_mem_init()
                &&& info.spec_inter_info() == start.spec_inter_info()
                &&& info.spec_warnings().spec_warnings() == start.spec_warnings().spec_warnings()
            }),
            Some(c) => {
                &&& c == SETTINGS_CHAR && option_in.can_compile == CanCompile::OnlyMacros
                    ==> (r matches Err(e) && e.err_type is NotAllowedCompileSettings)
                &&& c != SETTINGS_CHAR && c != SHARP && c != COMMENT_LINE && option_in.can_compile != CanCompile::All
                    ==> (r matches Err(e) && e.err_type is NotAllowedCompileCode)
            },
        },
    decreases depth, 0nat,
{
    let ghost text0 = parser_in.upcoming();
    let mut parser = parser_in;
    let mut ret = start;
    let mut option = option_in;
    let mut cc: Option<CC> = None;
    std::mem::swap(&mut cc, &mut option.cmd_compiler);
    let can_compile = option.can_compile;
    let actions = option.setting_action;

    if option.need_processed_default_settings() {
        if !option.can_compile_settings() {
            return Err(CompilerError::new_cant_compile_settings(parser.get_pos(), file_name))
        }
        let settings = option.get_default_settings();
        let mut k: usize = 0;
        while k < settings.len()
            invariant
                ret.wf(),
                ret.spec_program().len() == 0,
                ret.spec_inter_info() == start.spec_inter_info(),
                can_compile != CanCompile::OnlyMacros,
                option_in.can_compile == can_compile,
                option_in.default_settings@.len() != 0,
                parser.upcoming() == text0,
            decreases settings@.len() - k,
        {
            let r = compile_setting(actions, settings[k].clone(), parser.get_pos(), &file_name, &mut ret);
            match r { Err(e) => { return Err(e) } Ok(()) => {} }
            k = k + 1;
        }
    }

    let ghost fresh = option_in.default_settings@.len() == 0;
    loop
        invariant
            parser.wf(),
            parser.spec_at_front(),
            text0 == parser_in.upcoming(),
            fresh ==> option_in.default_settings@.len() == 0 && ret == start
                && lead_char(parser.upcoming()) == lead_char(text0),
            option_in.default_settings@.len() != 0 ==> can_compile != CanCompile::OnlyMacros,
            option_in.default_settings@.len() == 0 && !fresh ==> (lead_char(text0) matches Some(c)
                && !(c == SETTINGS_CHAR && can_compile == CanCompile::OnlyMacros)
                && !(c != SETTINGS_CHAR && c != SHARP && c != COMMENT_LINE && can_compile != CanCompile::All)),
            ret.wf(),
            ret.spec_program().len() == 0,
            ret.spec_inter_info().path == start.spec_inter_info().path,
            option.can_compile == can_compile,
            option_in.can_compile == can_compile,
            can_compile == CanCompile::All ==> cc is Some,
            can_compile != CanCompile::All ==> ret.spec_inter_info().code_started == start.spec_inter_info().code_started,
            option.setting_action == actions,
        decreases parser.upcoming().len(),
    {
        let ghost before = parser.upcoming();
        proof {
            if before.len() > 0 { assert(lead_char(before) == if is_unicode_ws(before[0]) { lead_char(before.drop_first()) } else { Some(before[0]) }); }
            else { assert(lead_char(before) is None); }
        }
        match parser.next() {
            None => {
                if option.can_compile_code() {
                    match cc {
                        Some(mut c) => {
                            if c.need_port_name_handle() {
                                match c.port_name_handle(ret.get_port_names_ref()) {
                                    Some(err) => { return Err(CompilerError::new(err, parser.get_pos(), file_name)) }
                                    None => {}
                                }
                            }
                            match c.get_program() {
                                Err(err) => { return Err(CompilerError::new(err, parser.get_pos(), file_name)) }
                                Ok(p) => { ret.set_program(p); }
                            }
                        }
                        None => {}
                    }
                }
                ret.add_warning_file_name_if_need(file_name);
                return Ok(ret)
            }
            Some(COMMENT_LINE) => {
                proof { fresh = false; }
                parser.skip_line();
            }
            Some(c) if is_unicode_ws_exec(c) => {}
            Some(SHARP) => {
                proof { fresh = false; }
                match SharpParse::parse_sharp(&mut parser, can_compile) {
                    SharpParse::CantCompileMacro => { return Err(CompilerError::new_cant_compile_macros(parser.get_pos(), file_name)) }
                    SharpParse::CantCompileSetting => { return Err(CompilerError::new_cant_compile_settings(parser.get_pos(), file_name)) }
                    SharpParse::EmptyName => { return Err(CompilerError::new_empty_name(parser.get_pos(), file_name)) }
                    SharpParse::UnexpectedEOF => { return Err(CompilerError::new_unexp_eof(parser.get_pos(), file_name)) }
                    SharpParse::BadMacroName(bad_char) => { return Err(CompilerError::new_bad_macro_name(parser.get_pos(), file_name, bad_char)) }
                    SharpParse::Temp(_) => {}
                    SharpParse::FileInclude(included_name, inc_can_compile) => {
                        if depth == 0 {
                            let msg = crate::general::text::string_of(&['i','n','c','l','u','d','e','s',' ','t','o','o',' ','d','e','e','p']);
                            return Err(CompilerError::new(CompilerErrorType::Other(msg), parser.get_pos(), file_name))
                        }
                        let inc_option = option.new_only(inc_can_compile);
                        let inc_inter = Some(ret.get_inter_info().clone_info());
                        let inc_compile = compile_depth(included_name, inc_option, inc_inter, files, depth - 1);
                        let mut included = match inc_compile {
                            Err(mut err) => {
                                err.add_err_pos(parser.get_pos(), file_name);
                                return Err(err)
                            }
                            Ok(x) => x,
                        };
                        match ret.include_file_setting(&mut included, actions, parser.get_pos()) {
                            Some((set_str, error_sar)) => {
                                return Err(CompilerError::new_setting_action_error(parser.get_pos(), file_name, error_sar, set_str))
                            }
                            None => {}
                        }
                        match ret.add_include_file(included, parser.get_pos()) {
                            Some(include_error) => {
                                return Err(CompilerError::new_include_error(parser.get_pos(), file_name, include_error))
                            }
                            None => {}
                        }
                    }
                    SharpParse::Macros { macro_name, macro_cmds } => {
                        if !option.can_compile_macro() {
                            return Err(CompilerError::new_cant_compile_macros(parser.get_pos(), file_name))
                        }
                        match option.mnc_check(macro_name.as_str(), macro_cmds.as_str()) {
                            Some(error) => { return Err(CompilerError::new(error, parser.get_pos(), file_name)) }
                            None => {}
                        }
                        let macro_code = match ret.macro_transform(macro_cmds) {
                            Ok(x) => x,
                            Err(name) => { return Err(CompilerError::new_unknown_macros(parser.get_pos(), file_name, name)) }
                        };
                        if !ret.can_add_macro(macro_name.as_str()) {
                            return Err(CompilerError::new_already_defined(parser.get_pos(), file_name))
                        }
                        ret.add_macro(macro_name, macro_code);
                    }
                }
            }
            Some(SETTINGS_CHAR) => {
                if !option.can_compile_settings() {
                    return Err(CompilerError::new_cant_compile_settings(parser.get_pos(), file_name))
                }
                proof { fresh = false; }
                proof { lemma_until_left(parser.upcoming(), SETTINGS_CHAR, false); }
                let setting_string = match parser.parse_until_char(SETTINGS_CHAR) {
                    Some(s) => s,
                    None => { return Err(CompilerError::new_unexp_eof(parser.get_pos(), file_name)) }
                };
                let r = compile_setting(actions, setting_string, parser.get_pos(), &file_name, &mut ret);
                match r { Err(e) => { return Err(e) } Ok(()) => {} }
            }
            Some(c) => {
                if !option.can_compile_code() {
                    return Err(CompilerError::new_cant_compile_code(parser.get_pos(), file_name))
                }
                proof { fresh = false; }
                match ret.set_code_start(option.mem_init_type) {
                    Some(mem_init_code) => {
                        let r = cc_compile_seq(&mut cc, &mem_init_code, parser.get_pos(), &file_name);
                        match r { Err(e) => { return Err(e) } Ok(()) => {} }
                    }
                    None => {}
                }
                if c == MACRO_USE_CHAR {
                    let ghost after_first = parser.upcoming();
                    match parser.next() {
                        Some(MACRO_USE_CHAR) => {
                            proof { lemma_sss_await_left(parser.upcoming(), 1); }
                            let aw = parser.await_sss_char(1, file_name.as_str());
                            match aw { Err(e) => { return Err(e) } Ok(()) => {} }
                            let r = use_macro_list(&mut cc, &ret, &mut parser, &file_name);
                            match r { Err(e) => { return Err(e) } Ok(()) => {} }
                            proof { lemma_sss_await_left(parser.upcoming(), 2); }
                            let aw = parser.await_sss_char(2, file_name.as_str());
                            match aw { Err(e) => { return Err(e) } Ok(()) => {} }
                        }
                        Some(_) => {
                            parser.back();
                            proof { lemma_until_left(parser.upcoming(), MACRO_USE_CHAR, false); }
                            let name = match parser.parse_until_char(MACRO_USE_CHAR) {
                                Some(n) => n,
                                None => { return Err(CompilerError::new_unexp_eof(parser.get_pos(), file_name)) }
                            };
                            let r = use_macro(&mut cc, &ret, name, parser.get_pos(), &file_name);
                            match r { Err(e) => { return Err(e) } Ok(()) => {} }
                        }
                        None => {
                            return Err(CompilerError::new_unknown_macros(parser.get_pos(), file_name, String::new()))
                        }
                    }
                } else {
                    let r = cc_compile_one(&mut cc, c, parser.get_pos(), &file_name);
                    match r { Err(e) => { return Err(e) } Ok(()) => {} }
                }
            }
        }
    }
}

// [-] compiler
// ---------------------------------------------------------------------

}
