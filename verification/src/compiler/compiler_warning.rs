use vstd::prelude::*;
use super::compiler_pos::CompilerPos;
use crate::vm::port::{Port, PortView};
use crate::general::text::{spec_decimal, str_to_chars, string_push, string_push_str, usize_to_string};

verus! {

pub enum CompilerWarning {
    SettingWarning { pos: CompilerPos, setting: String, warning: String },
    FromOtherFile { pos: CompilerPos, warnings: CompilerWarnings },
    /// only on a merge; in one file the setting's text is known: use `SettingWarning`
    OtherPortUsedInOtherFile { pos: CompilerPos, port_name: String, new_port: usize, old_port: usize },
    /// only on a merge; in one file the setting's text is known: use `SettingWarning`
    OtherDevUsedInOtherFile { pos: CompilerPos, port: Port, new_dev_name: String, old_dev_name: String },
}

/// The warnings of one file.
pub struct CompilerWarnings {
    file_name: Option<String>,
    warnings: Vec<CompilerWarning>,
}

impl CompilerWarnings {
    pub closed spec fn spec_file(&self) -> Option<Seq<char>> {
        match self.file_name { Some(f) => Some(f@), None => None }
    }

    pub closed spec fn spec_len(&self) -> nat {
        self.warnings@.len()
    }

    pub closed spec fn spec_warnings(&self) -> Seq<CompilerWarning> {
        self.warnings@
    }

    pub fn new() -> (r: Self)
        ensures
            r.spec_file() is None,
            r.spec_len() == 0,
    {
        Self { file_name: None, warnings: Vec::new() }
    }

    pub fn is_empty(&self) -> (r: bool)
        ensures
            r == (self.spec_len() == 0),
    {
        self.warnings.len() == 0
    }

    /// Name the file; a file named already keeps its name, which must be
    /// the same.
    pub fn set_file(&mut self, file_name: String)
        requires
            old(self).spec_file() matches Some(f) ==> f == file_name@,
        ensures
            final(self).spec_file() == Some(file_name@),
            final(self).spec_warnings() == old(self).spec_warnings(),
    {
        match &self.file_name {
            Some(_) => {}
            None => { self.file_name = Some(file_name); }
        }
    }

    pub fn add_warning(&mut self, warning: CompilerWarning)
        ensures
            final(self).spec_file() == old(self).spec_file(),
            final(self).spec_warnings() == old(self).spec_warnings().push(warning),
    {
        self.warnings.push(warning);
    }

    pub fn file_name(&self) -> (r: Option<&String>)
        ensures
            match r { Some(f) => self.spec_file() == Some(f@), None => self.spec_file() is None },
    {
        match &self.file_name {
            Some(f) => Some(f),
            None => None,
        }
    }

    pub fn warnings(&self) -> (r: &Vec<CompilerWarning>)
        ensures
            r@ == self.spec_warnings(),
    {
        &self.warnings
    }
}


/// The indentation of a nested report line.
pub open spec fn pad() -> Seq<char> {
    seq![' ', ' ', ' ', ' ']
}

/// `s` with every line after the first indented twice.
pub open spec fn indent(s: Seq<char>) -> Seq<char>
    decreases s.len(),
{
    if s.len() == 0 {
        Seq::empty()
    } else {
        indent(s.drop_last()) + if s.last() == '\n' { seq!['\n'] + pad() + pad() } else { seq![s.last()] }
    }
}

/// The text of a port.
pub open spec fn port_text(p: PortView) -> Seq<char> {
    match p {
        PortView::Name(n) => n,
        PortView::Number(k) => spec_decimal(k as nat),
        PortView::Any => seq!['a', 'n', 'y'],
    }
}

/// The report line of a warning.
pub open spec fn warning_text(w: CompilerWarning) -> Seq<char>
    decreases w, 0int,
{
    match w {
        CompilerWarning::FromOtherFile { pos, warnings } =>
            "at position "@ + pos.spec_text() + "  "@ + warnings_text(warnings),
        CompilerWarning::SettingWarning { pos, setting, warning } =>
            "in setting "@ + pos.spec_text() + " at positon "@ + setting@ + ": "@ + warning@,
        CompilerWarning::OtherDevUsedInOtherFile { pos, port, new_dev_name, old_dev_name } =>
            "other dev used in port "@ + port_text(port.view()) + " at position "@ + pos.spec_text()
                + ":  "@ + old_dev_name@ + " --> "@ + new_dev_name@,
        CompilerWarning::OtherPortUsedInOtherFile { pos, port_name, new_port, old_port } =>
            "other port number used for port-name "@ + port_name@ + " at position "@ + pos.spec_text()
                + ":  "@ + spec_decimal(old_port as nat) + " --> "@ + spec_decimal(new_port as nat),
    }
}

/// The report lines of the first `n` warnings of `ws`.
pub closed spec fn warning_lines(ws: CompilerWarnings, n: int) -> Seq<char>
    decreases ws, n,
{
    if n <= 0 || n > ws.warnings@.len() {
        Seq::empty()
    } else {
        proof { assert(decreases_to!(ws => ws.warnings@[n - 1])); }
        warning_lines(ws, n - 1) + pad() + indent(warning_text(ws.warnings@[n - 1])) + seq!['\n']
    }
}

/// The report of a file's warnings: the file, then a line for each.
pub closed spec fn warnings_text(ws: CompilerWarnings) -> Seq<char>
    decreases ws, ws.spec_len() + 1,
{
    "warning in <"@ + (match ws.file_name { Some(f) => f@, None => "unknown file"@ }) + ">:"@
        + warning_lines(ws, ws.warnings@.len() as int)
}

/// Append `text` with every line after the first indented twice.
fn push_indented(out: &mut String, text: &str)
    ensures
        final(out)@ == old(out)@ + indent(text@),
{
    let cs = str_to_chars(text);
    let mut i: usize = 0;
    assert(cs@.take(0) =~= Seq::<char>::empty());
    while i < cs.len()
        invariant
            i <= cs@.len(),
            out@ == old(out)@ + indent(cs@.take(i as int)),
        decreases cs@.len() - i,
    {
        assert(cs@.take(i as int + 1).drop_last() =~= cs@.take(i as int));
        let c = cs[i];
        let ghost before = out@;
        if c == '\n' {
            string_push(out, '\n');
            string_push_str(out, "        ");
            proof { reveal_strlit("        "); }
            assert(out@ =~= before + (seq!['\n'] + pad() + pad()));
        } else {
            string_push(out, c);
            assert(out@ =~= before + seq![c]);
        }
        i = i + 1;
        assert(out@ =~= old(out)@ + indent(cs@.take(i as int)));
    }
    assert(cs@.take(cs@.len() as int) =~= cs@);
}

impl CompilerWarning {
    /// The report line of the warning.
    pub fn to_string(&self) -> (s: String)
        ensures
            s@ == warning_text(*self),
        decreases *self, 0int,
    {
        let mut s = String::new();
        match self {
            CompilerWarning::FromOtherFile { pos, warnings } => {
                string_push_str(&mut s, "at position ");
                let p = pos.to_string();
                string_push_str(&mut s, p.as_str());
                string_push_str(&mut s, "  ");
                let w = warnings.to_string();
                string_push_str(&mut s, w.as_str());
            }
            CompilerWarning::SettingWarning { pos, setting, warning } => {
                string_push_str(&mut s, "in setting ");
                let p = pos.to_string();
                string_push_str(&mut s, p.as_str());
                string_push_str(&mut s, " at positon ");
                string_push_str(&mut s, setting.as_str());
                string_push_str(&mut s, ": ");
                string_push_str(&mut s, warning.as_str());
            }
            CompilerWarning::OtherDevUsedInOtherFile { pos, port, new_dev_name, old_dev_name } => {
                string_push_str(&mut s, "other dev used in port ");
                let t = port.to_string();
                string_push_str(&mut s, t.as_str());
                string_push_str(&mut s, " at position ");
                let p = pos.to_string();
                string_push_str(&mut s, p.as_str());
                string_push_str(&mut s, ":  ");
                string_push_str(&mut s, old_dev_name.as_str());
                string_push_str(&mut s, " --> ");
                string_push_str(&mut s, new_dev_name.as_str());
            }
            CompilerWarning::OtherPortUsedInOtherFile { pos, port_name, new_port, old_port } => {
                string_push_str(&mut s, "other port number used for port-name ");
                string_push_str(&mut s, port_name.as_str());
                string_push_str(&mut s, " at position ");
                let p = pos.to_string();
                string_push_str(&mut s, p.as_str());
                string_push_str(&mut s, ":  ");
                let a = usize_to_string(*old_port);
                string_push_str(&mut s, a.as_str());
                string_push_str(&mut s, " --> ");
                let b = usize_to_string(*new_port);
                string_push_str(&mut s, b.as_str());
            }
        }
        assert(s@ =~= warning_text(*self));
        s
    }
}

impl CompilerWarnings {
    /// The report: `warning in <FILE>:`, then for each warning an indented
    /// line (its own line breaks indented twice).
    pub fn to_string(&self) -> (s: String)
        ensures
            s@ == warnings_text(*self),
        decreases *self, self.spec_len() + 1,
    {
        let mut s = String::new();
        string_push_str(&mut s, "warning in <");
        match &self.file_name {
            Some(f) => string_push_str(&mut s, f.as_str()),
            None => string_push_str(&mut s, "unknown file"),
        }
        string_push_str(&mut s, ">:");
        let ghost head = s@;
        let mut i: usize = 0;
        while i < self.warnings.len()
            invariant
                i <= self.warnings@.len(),
                s@ == head + warning_lines(*self, i as int),
            decreases self.warnings@.len() - i,
        {
            proof { assert(decreases_to!(*self => self.warnings@[i as int])); }
            let w = self.warnings[i].to_string();
            let ghost before = s@;
            string_push_str(&mut s, "    ");
            proof { reveal_strlit("    "); }
            push_indented(&mut s, w.as_str());
            string_push(&mut s, '\n');
            i = i + 1;
            assert(s@ =~= head + warning_lines(*self, i as int));
        }
        assert(s@ =~= warnings_text(*self));
        s
    }
}

}
