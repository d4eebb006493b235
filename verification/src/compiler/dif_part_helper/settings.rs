use vstd::prelude::*;
use crate::general::text::{str_to_chars, string_of, string_push, string_push_str, chars_to_string};

verus! {

/// A setting `'a[x|y]:b:c[z]'`: its parameters, between `:`.
pub struct Setting {
    pub params: Vec<SettingOneParam>,
}

impl Setting {
    pub fn len(&self) -> (r: usize)
        ensures
            r == self.params@.len(),
    {
        self.params.len()
    }
}

/// One parameter: its name and the additional parameters in `[..|..]`.
pub struct SettingOneParam {
    pub param: String,
    pub additional_params: Vec<String>,
}

/// A parameter that could not be read, and why.
pub struct ErrorSetting {
    pub param: String,
    pub error: ErrorSettingHelper,
}

#[derive(Clone, Copy, Debug, PartialEq, Eq, Structural)]
pub enum ErrorSettingHelper {
    /// `not]hehe[`: `]` before `[`
    ClosedBeforeOpen,
    /// `xx[not][hehe]`: a second `[`
    TwiceAdditional,
    /// `[not|hehe]`: nothing before `[`, or an empty additional parameter
    EmptyParam,
    /// `x[y|z]not-hehe`: a character after `]`
    CharAfterAdditional,
}

/// Where the reader of one parameter stands.
pub struct ParamState {
    pub main: Seq<char>,
    pub additional: Seq<Seq<char>>,
    pub cur: Seq<char>,
    pub open: bool,
    pub closed: bool,
}

pub open spec fn param_start() -> ParamState {
    ParamState { main: seq![], additional: seq![], cur: seq![], open: false, closed: false }
}

/// One character of a parameter.
pub open spec fn param_step(st: ParamState, c: char) -> Result<ParamState, ErrorSettingHelper> {
    if st.closed {
        if c == '[' { Err(ErrorSettingHelper::TwiceAdditional) } else { Err(ErrorSettingHelper::CharAfterAdditional) }
    } else if !st.open {
        if c == '[' {
            if st.main.len() == 0 { Err(ErrorSettingHelper::EmptyParam) } else { Ok(ParamState { open: true, ..st }) }
        } else if c == ']' {
            Err(ErrorSettingHelper::ClosedBeforeOpen)
        } else {
            Ok(ParamState { main: st.main.push(c), ..st })
        }
    } else {
        if c == ']' {
            if st.cur.len() == 0 {
                Err(ErrorSettingHelper::EmptyParam)
            } else {
                Ok(ParamState { additional: st.additional.push(st.cur), cur: seq![], closed: true, ..st })
            }
        } else if c == '[' {
            Err(ErrorSettingHelper::TwiceAdditional)
        } else if c == '|' {
            if st.cur.len() == 0 {
                Err(ErrorSettingHelper::EmptyParam)
            } else {
                Ok(ParamState { additional: st.additional.push(st.cur), cur: seq![], ..st })
            }
        } else {
            Ok(ParamState { cur: st.cur.push(c), ..st })
        }
    }
}

/// The reader after the characters `s`.
pub open spec fn param_run(s: Seq<char>) -> Result<ParamState, ErrorSettingHelper>
    decreases s.len(),
{
    if s.len() == 0 {
        Ok(param_start())
    } else {
        match param_run(s.drop_last()) {
            Ok(st) => param_step(st, s.last()),
            Err(e) => Err(e),
        }
    }
}

/// What one parameter reads as: its name and additional parameters (an
/// additional parameter that no `|` or `]` closes is dropped).
pub open spec fn spec_one_param(s: Seq<char>) -> Result<(Seq<char>, Seq<Seq<char>>), ErrorSettingHelper> {
    match param_run(s) {
        Ok(st) => Ok((st.main, st.additional)),
        Err(e) => Err(e),
    }
}

/// Once a prefix fails, the whole fails with the same error.
pub proof fn lemma_param_run_err(s: Seq<char>, i: int)
    requires
        0 <= i <= s.len(),
        param_run(s.take(i)) is Err,
    ensures
        param_run(s) == param_run(s.take(i)),
    decreases s.len() - i,
{
    if i < s.len() {
        assert(s.take(i + 1).drop_last() =~= s.take(i));
        lemma_param_run_err(s, i + 1);
    } else {
        assert(s.take(i) =~= s);
    }
}

/// The parts of `s` between `:`.
pub open spec fn split_colon(s: Seq<char>) -> Seq<Seq<char>>
    decreases s.len(),
{
    if s.len() == 0 {
        seq![seq![]]
    } else {
        let prev = split_colon(s.drop_last());
        if s.last() == ':' {
            prev.push(seq![])
        } else {
            prev.update(prev.len() - 1, prev.last().push(s.last()))
        }
    }
}

pub proof fn lemma_split_colon_nonempty(s: Seq<char>)
    ensures
        split_colon(s).len() >= 1,
    decreases s.len(),
{
    if s.len() > 0 { lemma_split_colon_nonempty(s.drop_last()); }
}

/// The views of a list of strings.
pub open spec fn strings_view(v: Seq<String>) -> Seq<Seq<char>> {
    Seq::new(v.len(), |i: int| v[i]@)
}

impl SettingOneParam {
    pub open spec fn view_name(&self) -> Seq<char> { self.param@ }
    pub open spec fn view_additional(&self) -> Seq<Seq<char>> { strings_view(self.additional_params@) }

    pub fn new(param: String, additional_params: Vec<String>) -> (r: Self)
        ensures
            r.param == param,
            r.additional_params == additional_params,
    {
        Self { param, additional_params }
    }
}

/// Strings of the given character lists.
fn strings_of(v: &Vec<Vec<char>>) -> (r: Vec<String>)
    ensures
        strings_view(r@) == Seq::new(v@.len(), |i: int| v@[i]@),
{
    let mut r: Vec<String> = Vec::new();
    let mut i: usize = 0;
    while i < v.len()
        invariant
            i <= v@.len(),
            r@.len() == i,
            forall|j: int| 0 <= j < i ==> (#[trigger] r@[j])@ == v@[j]@,
        decreases v@.len() - i,
    {
        r.push(string_of(v[i].as_slice()));
        i = i + 1;
    }
    assert(strings_view(r@) =~= Seq::new(v@.len(), |i: int| v@[i]@));
    r
}

impl Setting {
    /// Read one parameter `name[add|add]`.
    pub fn one_param_prepare(param: &str) -> (r: Result<SettingOneParam, ErrorSettingHelper>)
        ensures
            match spec_one_param(param@) {
                Ok((name, add)) => r matches Ok(p) && p.view_name() == name && p.view_additional() == add,
                Err(e) => r == Err::<SettingOneParam, ErrorSettingHelper>(e),
            },
    {
        let s = str_to_chars(param);
        let mut main_param: Vec<char> = Vec::new();
        let mut additional: Vec<Vec<char>> = Vec::new();
        let mut cur_add_param: Vec<char> = Vec::new();
        let mut already_open = false;
        let mut closed = false;
        let mut i: usize = 0;
        proof {
            assert(s@.take(0) =~= Seq::<char>::empty());
            assert(Seq::new(additional@.len(), |k: int| additional@[k]@) =~= Seq::<Seq<char>>::empty());
        }
        while i < s.len()
            invariant
                i <= s@.len(),
                s@ == param@,
                param_run(s@.take(i as int)) == Ok::<ParamState, ErrorSettingHelper>(ParamState {
                    main: main_param@,
                    additional: Seq::new(additional@.len(), |k: int| additional@[k]@),
                    cur: cur_add_param@,
                    open: already_open,
                    closed,
                }),
            decreases s@.len() - i,
        {
            let c = s[i];
            proof {
                assert(s@.take(i as int + 1).drop_last() =~= s@.take(i as int));
                assert(s@.take(i as int + 1).last() == c);
                if param_run(s@.take(i as int + 1)) is Err {
                    lemma_param_run_err(s@, i as int + 1);
                }
            }
            if closed {
                if c == '[' { return Err(ErrorSettingHelper::TwiceAdditional) }
                return Err(ErrorSettingHelper::CharAfterAdditional)
            }
            if !already_open {
                if c == '[' {
                    if main_param.len() == 0 { return Err(ErrorSettingHelper::EmptyParam) }
                    already_open = true;
                } else if c == ']' {
                    return Err(ErrorSettingHelper::ClosedBeforeOpen)
                } else {
                    main_param.push(c);
                }
            } else {
                if c == ']' {
                    if cur_add_param.len() == 0 { return Err(ErrorSettingHelper::EmptyParam) }
                    let ghost old_add = Seq::new(additional@.len(), |k: int| additional@[k]@);
                    additional.push(cur_add_param);
                    cur_add_param = Vec::new();
                    closed = true;
                    proof {
                        assert(Seq::new(additional@.len(), |k: int| additional@[k]@) =~= old_add.push(additional@.last()@));
                    }
                } else if c == '[' {
                    return Err(ErrorSettingHelper::TwiceAdditional)
                } else if c == '|' {
                    if cur_add_param.len() == 0 { return Err(ErrorSettingHelper::EmptyParam) }
                    let ghost old_add = Seq::new(additional@.len(), |k: int| additional@[k]@);
                    additional.push(cur_add_param);
                    cur_add_param = Vec::new();
                    proof {
                        assert(Seq::new(additional@.len(), |k: int| additional@[k]@) =~= old_add.push(additional@.last()@));
                    }
                } else {
                    cur_add_param.push(c);
                }
            }
            i = i + 1;
        }
        proof { assert(s@.take(s@.len() as int) =~= s@); }
        let name = string_of(main_param.as_slice());
        let add = strings_of(&additional);
        Ok(SettingOneParam::new(name, add))
    }
}


/// What the parameters `parts` read as: all of them, or the first that
/// fails, with its error.
pub open spec fn spec_params(parts: Seq<Seq<char>>) -> Result<Seq<(Seq<char>, Seq<Seq<char>>)>, (Seq<char>, ErrorSettingHelper)>
    decreases parts.len(),
{
    if parts.len() == 0 {
        Ok(seq![])
    } else {
        match spec_params(parts.drop_last()) {
            Err(e) => Err(e),
            Ok(prev) => match spec_one_param(parts.last()) {
                Ok(p) => Ok(prev.push(p)),
                Err(e) => Err((parts.last(), e)),
            },
        }
    }
}

/// The parameters of a setting, as name and additional parameters.
pub open spec fn setting_view(st: &Setting) -> Seq<(Seq<char>, Seq<Seq<char>>)> {
    Seq::new(st.params@.len(), |i: int| (st.params@[i].view_name(), st.params@[i].view_additional()))
}

/// `items` joined by `sep`.
pub open spec fn join(items: Seq<Seq<char>>, sep: char) -> Seq<char>
    decreases items.len(),
{
    if items.len() == 0 {
        seq![]
    } else if items.len() == 1 {
        items[0]
    } else {
        join(items.drop_last(), sep).push(sep) + items.last()
    }
}

/// The text of one parameter: its name, then `[a|b]` if it has additional
/// parameters.
pub open spec fn param_text(p: (Seq<char>, Seq<Seq<char>>)) -> Seq<char> {
    p.0 + (if p.1.len() > 0 { seq!['['] + join(p.1, '|') + seq![']'] } else { seq![] })
}

fn push_joined(out: &mut Vec<char>, items: &Vec<String>, sep: char)
    ensures
        final(out)@ == old(out)@ + join(strings_view(items@), sep),
{
    let mut i: usize = 0;
    while i < items.len()
        invariant
            i <= items@.len(),
            out@ == old(out)@ + join(strings_view(items@.take(i as int)), sep),
        decreases items@.len() - i,
    {
        let ghost before = out@;
        if i > 0 { out.push(sep); }
        let c = str_to_chars(items[i].as_str());
        let mut j: usize = 0;
        let ghost mid = out@;
        while j < c.len()
            invariant
                j <= c@.len(),
                out@ == mid + c@.take(j as int),
            decreases c@.len() - j,
        {
            out.push(c[j]);
            j = j + 1;
            assert(out@ =~= mid + c@.take(j as int));
        }
        assert(c@.take(c@.len() as int) =~= c@);
        proof {
            let t = strings_view(items@.take(i as int + 1));
            assert(t.drop_last() =~= strings_view(items@.take(i as int)));
            assert(t.last() == items@[i as int]@);
            if i == 0 {
                assert(t.len() == 1);
                assert(strings_view(items@.take(0)) =~= Seq::<Seq<char>>::empty());
            }
        }
        i = i + 1;
        assert(out@ =~= old(out)@ + join(strings_view(items@.take(i as int)), sep));
    }
    assert(items@.take(items@.len() as int) =~= items@);
}

/// Split `s` at each `:`.
fn split_parts(s: &Vec<char>) -> (r: Vec<Vec<char>>)
    ensures
        Seq::new(r@.len(), |k: int| r@[k]@) == split_colon(s@),
{
    let mut parts: Vec<Vec<char>> = Vec::new();
    let mut cur: Vec<char> = Vec::new();
    let mut i: usize = 0;
    assert(s@.take(0) =~= Seq::<char>::empty());
    assert(Seq::new(parts@.len(), |k: int| parts@[k]@).push(cur@) =~= split_colon(s@.take(0)));
    while i < s.len()
        invariant
            i <= s@.len(),
            Seq::new(parts@.len(), |k: int| parts@[k]@).push(cur@) == split_colon(s@.take(i as int)),
        decreases s@.len() - i,
    {
        let c = s[i];
        assert(s@.take(i as int + 1).drop_last() =~= s@.take(i as int));
        let ghost prev = split_colon(s@.take(i as int));
        if c == ':' {
            parts.push(cur);
            cur = Vec::new();
            assert(Seq::new(parts@.len(), |k: int| parts@[k]@).push(cur@) =~= prev.push(seq![]));
        } else {
            let ghost old_parts = Seq::new(parts@.len(), |k: int| parts@[k]@);
            cur.push(c);
            assert(Seq::new(parts@.len(), |k: int| parts@[k]@).push(cur@) =~= prev.update(prev.len() - 1, prev.last().push(c)));
        }
        i = i + 1;
    }
    assert(s@.take(s@.len() as int) =~= s@);
    let ghost before = Seq::new(parts@.len(), |k: int| parts@[k]@);
    parts.push(cur);
    assert(Seq::new(parts@.len(), |k: int| parts@[k]@) =~= before.push(parts@.last()@));
    parts
}

impl Setting {
    /// Read a setting: its parameters between `:`, each `name[add|add]`;
    /// the first parameter that cannot be read gives the error.
    pub fn prepare_settings(setting: &str) -> (r: Result<Self, ErrorSetting>)
        ensures
            match spec_params(split_colon(setting@)) {
                Ok(ps) => r matches Ok(st) && setting_view(&st) == ps,
                Err((part, e)) => r matches Err(err) && err.param@ == part && err.error == e,
            },
    {
        let s = str_to_chars(setting);
        let parts = split_parts(&s);
        let ghost pv = Seq::new(parts@.len(), |k: int| parts@[k]@);
        let mut setting_params: Vec<SettingOneParam> = Vec::new();
        let mut i: usize = 0;
        assert(pv.take(0) =~= Seq::<Seq<char>>::empty());
        assert(Seq::new(setting_params@.len(), |j: int| (setting_params@[j].view_name(), setting_params@[j].view_additional()))
            =~= Seq::<(Seq<char>, Seq<Seq<char>>)>::empty());
        while i < parts.len()
            invariant
                i <= parts@.len(),
                pv == Seq::new(parts@.len(), |k: int| parts@[k]@),
                pv == split_colon(setting@),
                spec_params(pv.take(i as int)) == Ok::<Seq<(Seq<char>, Seq<Seq<char>>)>, (Seq<char>, ErrorSettingHelper)>(
                    Seq::new(setting_params@.len(), |j: int| (setting_params@[j].view_name(), setting_params@[j].view_additional()))),
            decreases parts@.len() - i,
        {
            assert(pv.take(i as int + 1).drop_last() =~= pv.take(i as int));
            assert(pv.take(i as int + 1).last() == parts@[i as int]@);
            let part_str = string_of(parts[i].as_slice());
            match Self::one_param_prepare(part_str.as_str()) {
                Ok(one_param) => {
                    let ghost before = Seq::new(setting_params@.len(), |j: int| (setting_params@[j].view_name(), setting_params@[j].view_additional()));
                    setting_params.push(one_param);
                    assert(Seq::new(setting_params@.len(), |j: int| (setting_params@[j].view_name(), setting_params@[j].view_additional()))
                        =~= before.push((setting_params@.last().view_name(), setting_params@.last().view_additional())));
                }
                Err(error) => {
                    proof { lemma_params_err(pv, i as int + 1); }
                    return Err(ErrorSetting { param: part_str, error });
                }
            }
            i = i + 1;
        }
        assert(pv.take(pv.len() as int) =~= pv);
        let st = Self { params: setting_params };
        assert(setting_view(&st) =~= Seq::new(st.params@.len(), |j: int| (st.params@[j].view_name(), st.params@[j].view_additional())));
        Ok(st)
    }

    /// The setting's text: `'`, the parameters between `:`, each as
    /// `name[a|b]` (without brackets when it has no additional parameter),
    /// and `'`.
    pub fn to_string(&self) -> (s: String)
        ensures
            s@ == seq!['\''] + join(Seq::new(self.params@.len(), |i: int| param_text(setting_view(self)[i])), ':') + seq!['\''],
    {
        let ghost texts = Seq::new(self.params@.len(), |i: int| param_text(setting_view(self)[i]));
        let mut out: Vec<char> = Vec::new();
        out.push('\'');
        let mut i: usize = 0;
        assert(texts.take(0) =~= Seq::<Seq<char>>::empty());
        while i < self.params.len()
            invariant
                i <= self.params@.len(),
                texts == Seq::new(self.params@.len(), |i: int| param_text(setting_view(self)[i])),
                out@ == seq!['\''] + join(texts.take(i as int), ':'),
            decreases self.params@.len() - i,
        {
            if i > 0 { out.push(':'); }
            let ghost mid = out@;
            let p = &self.params[i];
            let name = str_to_chars(p.param.as_str());
            crate::general::text::push_chars(&mut out, name.as_slice());
            if p.additional_params.len() != 0 {
                out.push('[');
                push_joined(&mut out, &p.additional_params, '|');
                out.push(']');
            }
            proof {
                assert(out@ =~= mid + param_text(setting_view(self)[i as int]));
                let t = texts.take(i as int + 1);
                assert(t.drop_last() =~= texts.take(i as int));
                if i == 0 { assert(texts.take(0) =~= Seq::<Seq<char>>::empty()); }
            }
            i = i + 1;
            assert(out@ =~= seq!['\''] + join(texts.take(i as int), ':'));
        }
        assert(texts.take(texts.len() as int) =~= texts);
        out.push('\'');
        chars_to_string(&out)
    }
}

proof fn lemma_params_err(parts: Seq<Seq<char>>, i: int)
    requires
        0 <= i <= parts.len(),
        spec_params(parts.take(i)) is Err,
    ensures
        spec_params(parts) == spec_params(parts.take(i)),
    decreases parts.len() - i,
{
    if i < parts.len() {
        assert(parts.take(i + 1).drop_last() =~= parts.take(i));
        lemma_params_err(parts, i + 1);
    } else {
        assert(parts.take(i) =~= parts);
    }
}

impl ErrorSettingHelper {
    /// What went wrong, in words.
    pub fn to_string(&self) -> (s: String)
        ensures
            s@.len() > 0,
    {
        match self {
            Self::ClosedBeforeOpen => string_of(&['a','d','d','i','t','i','o','n','a','l',' ','p','a','r','a','m','e','t','e','r',' ','c','l','o','s','e','d',' ','b','e','f','o','r','e',' ','o','p','e','n']),
            Self::TwiceAdditional => string_of(&['t','w','i','c','e','d',' ','a','d','d','i','t','i','o','n','a','l',' ','p','a','r','a','m','e','t','e','r']),
            Self::EmptyParam => string_of(&['e','m','p','t','y',' ','p','a','r','a','m','e','t','e','r']),
            Self::CharAfterAdditional => string_of(&['c','h','a','r','a','c','t','e','r',' ','a','f','t','e','r',' ','a','d','d','i','t','i','o','n','a','l']),
        }
    }
}

impl ErrorSetting {
    /// `in parameter "<param>": error <what went wrong>`.
    pub fn to_string(&self) -> (s: String)
        ensures
            s@.take(14) == seq!['i','n',' ','p','a','r','a','m','e','t','e','r',' ','"'],
    {
        let mut s = string_of(&['i','n',' ','p','a','r','a','m','e','t','e','r',' ','"']);
        string_push_str(&mut s, self.param.as_str());
        string_push_str(&mut s, "\": error ");
        let e = self.error.to_string();
        string_push_str(&mut s, e.as_str());
        proof {
            assert(s@.take(14) =~= seq!['i','n',' ','p','a','r','a','m','e','t','e','r',' ','"']);
        }
        s
    }
}


// ---------------------------------------------------------------------
// [+] reading back what the printer writes

/// A piece of a setting that reads back as itself: not empty, and none of
/// `:`, `[`, `]`, `|`.
pub open spec fn plain_piece(s: Seq<char>) -> bool {
    s.len() > 0 && forall|i: int| 0 <= i < s.len() ==> plain_char(#[trigger] s[i])
}

/// A character with no meaning to the reader.
pub open spec fn plain_char(c: char) -> bool {
    c != ':' && c != '[' && c != ']' && c != '|'
}

/// Parameters whose names and additional parameters are plain pieces.
pub open spec fn plain_params(ps: Seq<(Seq<char>, Seq<Seq<char>>)>) -> bool {
    forall|i: int| 0 <= i < ps.len() ==> plain_piece(#[trigger] ps[i].0)
        && forall|j: int| 0 <= j < ps[i].1.len() ==> plain_piece(#[trigger] ps[i].1[j])
}

/// The text of parameters as the printer writes it between the quotes.
pub open spec fn params_text(ps: Seq<(Seq<char>, Seq<Seq<char>>)>) -> Seq<char> {
    join(Seq::new(ps.len(), |i: int| param_text(ps[i])), ':')
}

/// The reader of one parameter from the state `st` on, over `t`.
pub open spec fn param_run_from(st: ParamState, t: Seq<char>) -> Result<ParamState, ErrorSettingHelper>
    decreases t.len(),
{
    if t.len() == 0 {
        Ok(st)
    } else {
        match param_run_from(st, t.drop_last()) {
            Ok(x) => param_step(x, t.last()),
            Err(e) => Err(e),
        }
    }
}

proof fn lemma_run_from_concat(st: ParamState, a: Seq<char>, b: Seq<char>)
    ensures
        param_run_from(st, a + b) == match param_run_from(st, a) {
            Ok(x) => param_run_from(x, b),
            Err(e) => Err(e),
        },
    decreases b.len(),
{
    if b.len() == 0 {
        assert(a + b =~= a);
    } else {
        assert((a + b).drop_last() =~= a + b.drop_last());
        assert((a + b).last() == b.last());
        lemma_run_from_concat(st, a, b.drop_last());
    }
}

proof fn lemma_run_is_from(s: Seq<char>)
    ensures
        param_run(s) == param_run_from(param_start(), s),
    decreases s.len(),
{
    if s.len() > 0 { lemma_run_is_from(s.drop_last()); }
}

proof fn lemma_run_name(st: ParamState, t: Seq<char>)
    requires
        !st.open,
        !st.closed,
        forall|i: int| 0 <= i < t.len() ==> plain_char(#[trigger] t[i]),
    ensures
        param_run_from(st, t) == Ok::<ParamState, ErrorSettingHelper>(ParamState { main: st.main + t, ..st }),
    decreases t.len(),
{
    if t.len() == 0 {
        assert(st.main + t =~= st.main);
    } else {
        lemma_run_name(st, t.drop_last());
        assert(plain_char(t[t.len() - 1]));
        assert((st.main + t.drop_last()).push(t.last()) =~= st.main + t);
    }
}

proof fn lemma_run_cur(st: ParamState, t: Seq<char>)
    requires
        st.open,
        !st.closed,
        forall|i: int| 0 <= i < t.len() ==> plain_char(#[trigger] t[i]),
    ensures
        param_run_from(st, t) == Ok::<ParamState, ErrorSettingHelper>(ParamState { cur: st.cur + t, ..st }),
    decreases t.len(),
{
    if t.len() == 0 {
        assert(st.cur + t =~= st.cur);
    } else {
        lemma_run_cur(st, t.drop_last());
        assert(plain_char(t[t.len() - 1]));
        assert((st.cur + t.drop_last()).push(t.last()) =~= st.cur + t);
    }
}

proof fn lemma_run_adds(st: ParamState, adds: Seq<Seq<char>>)
    requires
        st.open,
        !st.closed,
        st.cur.len() == 0,
        adds.len() >= 1,
        forall|j: int| 0 <= j < adds.len() ==> plain_piece(#[trigger] adds[j]),
    ensures
        param_run_from(st, join(adds, '|')) == Ok::<ParamState, ErrorSettingHelper>(
            ParamState { additional: st.additional + adds.drop_last(), cur: adds.last(), ..st }),
    decreases adds.len(),
{
    if adds.len() == 1 {
        assert(plain_piece(adds[0]));
        lemma_run_cur(st, adds[0]);
        assert(st.cur + adds[0] =~= adds[0]);
        assert(st.additional + adds.drop_last() =~= st.additional);
    } else {
        let d = adds.drop_last();
        assert forall|j: int| 0 <= j < d.len() implies plain_piece(#[trigger] d[j]) by { assert(d[j] == adds[j]); }
        lemma_run_adds(st, d);
        let j = join(d, '|');
        let s1 = ParamState { additional: st.additional + d.drop_last(), cur: d.last(), ..st };
        assert(plain_piece(d[d.len() - 1]));
        assert(join(adds, '|') == j.push('|') + adds.last());
        assert(j.push('|') == j + seq!['|']);
        lemma_run_from_concat(st, j.push('|'), adds.last());
        lemma_run_from_concat(st, j, seq!['|']);
        assert(seq!['|'].drop_last() =~= Seq::<char>::empty());
        let s2 = ParamState { additional: st.additional + d.drop_last().push(d.last()), cur: seq![], ..st };
        assert(seq!['|'].last() == '|');
        assert(param_run_from(s1, Seq::<char>::empty()) == Ok::<ParamState, ErrorSettingHelper>(s1));
        assert(s1.cur.len() > 0);
        assert(s1.additional.push(s1.cur) =~= s2.additional);
        assert(param_run_from(s1, seq!['|']) == Ok::<ParamState, ErrorSettingHelper>(s2));
        assert(plain_piece(adds[adds.len() - 1]));
        lemma_run_cur(s2, adds.last());
        assert(s2.cur + adds.last() =~= adds.last());
        assert(d.drop_last().push(d.last()) =~= d);
    }
}

proof fn lemma_one_param_text(p: (Seq<char>, Seq<Seq<char>>))
    requires
        plain_piece(p.0),
        forall|j: int| 0 <= j < p.1.len() ==> plain_piece(#[trigger] p.1[j]),
    ensures
        spec_one_param(param_text(p)) == Ok::<(Seq<char>, Seq<Seq<char>>), ErrorSettingHelper>(p),
{
    let t = param_text(p);
    lemma_run_is_from(t);
    lemma_run_name(param_start(), p.0);
    let s0 = ParamState { main: param_start().main + p.0, ..param_start() };
    assert(param_start().main + p.0 =~= p.0);
    if p.1.len() == 0 {
        assert(t =~= p.0);
        assert(p.1 =~= Seq::<Seq<char>>::empty());
    } else {
        let rest = seq!['['] + join(p.1, '|') + seq![']'];
        assert(t == p.0 + rest);
        lemma_run_from_concat(param_start(), p.0, rest);
        lemma_run_from_concat(s0, seq!['['] + join(p.1, '|'), seq![']']);
        lemma_run_from_concat(s0, seq!['['], join(p.1, '|'));
        assert(seq!['['].drop_last() =~= Seq::<char>::empty());
        assert(seq![']'].drop_last() =~= Seq::<char>::empty());
        let s1 = ParamState { open: true, ..s0 };
        assert(seq!['['].last() == '[');
        assert(param_run_from(s0, Seq::<char>::empty()) == Ok::<ParamState, ErrorSettingHelper>(s0));
        assert(s0.main.len() > 0);
        assert(param_run_from(s0, seq!['[']) == Ok::<ParamState, ErrorSettingHelper>(s1));
        lemma_run_adds(s1, p.1);
        let s2 = ParamState { additional: s1.additional + p.1.drop_last(), cur: p.1.last(), ..s1 };
        assert(plain_piece(p.1[p.1.len() - 1]));
        assert(s1.additional + p.1.drop_last() =~= p.1.drop_last());
        assert(p.1.drop_last().push(p.1.last()) =~= p.1);
        assert(param_run_from(s0, seq!['['] + join(p.1, '|')) == Ok::<ParamState, ErrorSettingHelper>(s2));
        assert(seq![']'].last() == ']');
        assert(param_run_from(s2, Seq::<char>::empty()) == Ok::<ParamState, ErrorSettingHelper>(s2));
        assert(s2.cur.len() > 0);
        let s3 = ParamState { additional: s2.additional.push(s2.cur), cur: seq![], closed: true, ..s2 };
        assert(param_run_from(s2, seq![']']) == Ok::<ParamState, ErrorSettingHelper>(s3));
        assert(param_run_from(s0, rest) == Ok::<ParamState, ErrorSettingHelper>(s3));
        assert(param_run(t) == Ok::<ParamState, ErrorSettingHelper>(s3));
        assert(s3.main == p.0);
        assert(s3.additional =~= p.1);
    }
}

proof fn lemma_split_no_colon(a: Seq<char>, b: Seq<char>)
    requires
        forall|i: int| 0 <= i < b.len() ==> b[i] != ':',
    ensures
        split_colon(a + b) == split_colon(a).update(split_colon(a).len() - 1, split_colon(a).last() + b),
    decreases b.len(),
{
    lemma_split_colon_nonempty(a);
    if b.len() == 0 {
        assert(a + b =~= a);
        assert(split_colon(a).last() + b =~= split_colon(a).last());
        assert(split_colon(a).update(split_colon(a).len() - 1, split_colon(a).last()) =~= split_colon(a));
    } else {
        lemma_split_no_colon(a, b.drop_last());
        assert((a + b).drop_last() =~= a + b.drop_last());
        assert((a + b).last() == b.last());
        assert(b[b.len() - 1] != ':');
        let p = split_colon(a);
        let q = p.update(p.len() - 1, p.last() + b.drop_last());
        assert(q.last() == p.last() + b.drop_last());
        assert((p.last() + b.drop_last()).push(b.last()) =~= p.last() + b);
        assert(q.update(q.len() - 1, q.last().push(b.last())) =~= p.update(p.len() - 1, p.last() + b));
    }
}

proof fn lemma_split_join(texts: Seq<Seq<char>>)
    requires
        texts.len() >= 1,
        forall|k: int, i: int| 0 <= k < texts.len() && 0 <= i < texts[k].len() ==> #[trigger] texts[k][i] != ':',
    ensures
        split_colon(join(texts, ':')) == texts,
    decreases texts.len(),
{
    if texts.len() == 1 {
        lemma_split_no_colon(seq![], texts[0]);
        assert(Seq::<char>::empty() + texts[0] =~= texts[0]);
        assert(split_colon(Seq::<char>::empty()) == seq![Seq::<char>::empty()]);
        assert(Seq::<char>::empty() + texts[0] =~= texts[0]);
        assert(seq![Seq::<char>::empty()].update(0, texts[0]) =~= texts);
    } else {
        let d = texts.drop_last();
        lemma_split_join(d);
        let j = join(d, ':');
        assert(j.push(':').drop_last() =~= j);
        assert(split_colon(j.push(':')) == d.push(seq![]));
        assert forall|i: int| 0 <= i < texts.last().len() implies texts.last()[i] != ':' by {
            assert(texts[texts.len() - 1][i] != ':');
        }
        lemma_split_no_colon(j.push(':'), texts.last());
        assert(Seq::<char>::empty() + texts.last() =~= texts.last());
        assert(d.push(seq![]).update(d.len() as int, texts.last()) =~= texts);
    }
}

proof fn lemma_params_of_texts(ps: Seq<(Seq<char>, Seq<Seq<char>>)>)
    requires
        plain_params(ps),
    ensures
        spec_params(Seq::new(ps.len(), |i: int| param_text(ps[i]))) == Ok::<Seq<(Seq<char>, Seq<Seq<char>>)>, (Seq<char>, ErrorSettingHelper)>(ps),
    decreases ps.len(),
{
    let texts = Seq::new(ps.len(), |i: int| param_text(ps[i]));
    if ps.len() == 0 {
        assert(ps =~= Seq::<(Seq<char>, Seq<Seq<char>>)>::empty());
    } else {
        let d = ps.drop_last();
        assert forall|i: int| 0 <= i < d.len() implies plain_piece(#[trigger] d[i].0)
            && forall|j: int| 0 <= j < d[i].1.len() ==> plain_piece(#[trigger] d[i].1[j]) by {
            assert(d[i] == ps[i]);
        }
        lemma_params_of_texts(d);
        assert(texts.drop_last() =~= Seq::new(d.len(), |i: int| param_text(d[i])));
        let last = ps[ps.len() - 1];
        assert(plain_piece(last.0));
        lemma_one_param_text(last);
        assert(d.push(last) =~= ps);
    }
}

proof fn lemma_param_text_no_colon(p: (Seq<char>, Seq<Seq<char>>))
    requires
        plain_piece(p.0),
        forall|j: int| 0 <= j < p.1.len() ==> plain_piece(#[trigger] p.1[j]),
    ensures
        forall|i: int| 0 <= i < param_text(p).len() ==> #[trigger] param_text(p)[i] != ':',
{
    if p.1.len() > 0 {
        lemma_join_no_colon(p.1);
        let t = param_text(p);
        let r = seq!['['] + join(p.1, '|') + seq![']'];
        assert(t == p.0 + r);
        assert forall|i: int| 0 <= i < t.len() implies #[trigger] t[i] != ':' by {
            if i < p.0.len() {
                assert(plain_char(p.0[i]));
            } else if i > p.0.len() && i < t.len() - 1 {
                assert(t[i] == join(p.1, '|')[i - p.0.len() - 1]);
            }
        }
    } else {
        assert forall|i: int| 0 <= i < param_text(p).len() implies #[trigger] param_text(p)[i] != ':' by {
            assert(param_text(p) =~= p.0);
            assert(plain_char(p.0[i]));
        }
    }
}

proof fn lemma_join_no_colon(adds: Seq<Seq<char>>)
    requires
        forall|j: int| 0 <= j < adds.len() ==> plain_piece(#[trigger] adds[j]),
    ensures
        forall|i: int| 0 <= i < join(adds, '|').len() ==> #[trigger] join(adds, '|')[i] != ':',
    decreases adds.len(),
{
    if adds.len() == 1 {
        assert forall|i: int| 0 <= i < join(adds, '|').len() implies #[trigger] join(adds, '|')[i] != ':' by {
            assert(plain_piece(adds[0]));
            assert(plain_char(adds[0][i]));
        }
    } else if adds.len() > 1 {
        let d = adds.drop_last();
        assert forall|j: int| 0 <= j < d.len() implies plain_piece(#[trigger] d[j]) by { assert(d[j] == adds[j]); }
        lemma_join_no_colon(d);
        let jd = join(d, '|');
        let l = adds[adds.len() - 1];
        assert(plain_piece(l));
        assert(join(adds, '|') == jd.push('|') + l);
        assert forall|i: int| 0 <= i < join(adds, '|').len() implies #[trigger] join(adds, '|')[i] != ':' by {
            if i < jd.len() {
                assert(join(adds, '|')[i] == jd[i]);
            } else if i > jd.len() {
                assert(join(adds, '|')[i] == l[i - jd.len() - 1]);
                assert(plain_char(l[i - jd.len() - 1]));
            }
        }
    }
}

/// Law: printing parameters and reading the text between the quotes back
/// gives the same parameters, wherever names and additional parameters are
/// plain pieces (`Setting::to_string` writes `'`, `params_text` of the
/// setting's view, `'`; `Setting::prepare_settings` reads a text through
/// `spec_params` of its parts between `:`).
pub proof fn lemma_setting_roundtrip(ps: Seq<(Seq<char>, Seq<Seq<char>>)>)
    requires
        ps.len() >= 1,
        plain_params(ps),
    ensures
        spec_params(split_colon(params_text(ps))) == Ok::<Seq<(Seq<char>, Seq<Seq<char>>)>, (Seq<char>, ErrorSettingHelper)>(ps),
{
    let texts = Seq::new(ps.len(), |i: int| param_text(ps[i]));
    assert forall|k: int, i: int| 0 <= k < texts.len() && 0 <= i < texts[k].len() implies #[trigger] texts[k][i] != ':' by {
        assert(plain_piece(ps[k].0));
        lemma_param_text_no_colon(ps[k]);
    }
    lemma_split_join(texts);
    lemma_params_of_texts(ps);
}

// [-] reading back what the printer writes
// ---------------------------------------------------------------------

}
