use vstd::prelude::*;
use crate::general::text::{str_to_chars, parse_usize, spec_parse_usize, string_push_str};
use crate::compiler::compiler::{is_unicode_ws, is_unicode_ws_exec};
use super::dev_name::param_get;

verus! {

/// Why a device could not be made.
pub enum DevCtorErr {
    UnknownName(String),
    BadParamValue { name: String, bad_value: String },
    Other(String),
}

/// What was odd in making a device.
pub enum DevCtorWarn {
    UnusedDevParam(String),
    Other(String),
}

impl DevCtorErr {
    pub fn to_string(&self) -> (s: String)
        ensures
            match self {
                DevCtorErr::UnknownName(n) => s@ == "unknown device name: "@ + n@,
                DevCtorErr::BadParamValue { name, bad_value } => s@ == "bad value of parameter "@ + name@ + ": "@ + bad_value@,
                DevCtorErr::Other(t) => s@ == t@,
            },
    {
        let mut s = String::new();
        match self {
            DevCtorErr::UnknownName(n) => {
                string_push_str(&mut s, "unknown device name: ");
                string_push_str(&mut s, n.as_str());
            }
            DevCtorErr::BadParamValue { name, bad_value } => {
                string_push_str(&mut s, "bad value of parameter ");
                string_push_str(&mut s, name.as_str());
                string_push_str(&mut s, ": ");
                string_push_str(&mut s, bad_value.as_str());
            }
            DevCtorErr::Other(t) => { string_push_str(&mut s, t.as_str()); }
        }
        s
    }
}

impl DevCtorWarn {
    pub fn to_string(&self) -> (s: String)
        ensures
            match self {
                DevCtorWarn::UnusedDevParam(n) => s@ == "unused parameter: "@ + n@,
                DevCtorWarn::Other(t) => s@ == t@,
            },
    {
        let mut s = String::new();
        match self {
            DevCtorWarn::UnusedDevParam(n) => {
                string_push_str(&mut s, "unused parameter: ");
                string_push_str(&mut s, n.as_str());
            }
            DevCtorWarn::Other(t) => { string_push_str(&mut s, t.as_str()); }
        }
        s
    }
}

/// Whether `k` is among the names `used`.
pub open spec fn is_used(used: Seq<String>, k: Seq<char>) -> bool {
    exists|i: int| 0 <= i < used.len() && (#[trigger] used[i])@ == k
}

/// The warnings for the parameters that were not used, in their order.
pub open spec fn unused_warns(ps: Seq<(String, String)>, used: Seq<String>) -> Seq<Seq<char>>
    decreases ps.len(),
{
    if ps.len() == 0 {
        Seq::empty()
    } else {
        unused_warns(ps.drop_last(), used) + (if is_used(used, ps.last().0@) { Seq::empty() } else { seq![ps.last().0@] })
    }
}

/// `s` without the white space at both ends (std `str::trim`).
pub open spec fn spec_trim(s: Seq<char>) -> Seq<char>
    decreases s.len(),
{
    if s.len() > 0 && is_unicode_ws(s[0]) {
        spec_trim(s.drop_first())
    } else if s.len() > 0 && is_unicode_ws(s.last()) {
        spec_trim(s.drop_last())
    } else {
        s
    }
}

/// Whether a console prints its state: `+` yes, `-` no (around them white
/// space); anything else is no value.
pub open spec fn spec_parse_flag(s: Seq<char>) -> Option<bool> {
    if spec_trim(s) == seq!['+'] {
        Some(true)
    } else if spec_trim(s) == seq!['-'] {
        Some(false)
    } else {
        None
    }
}

/// Helps to make a device from its parameters: which were used, and the
/// warnings so far.
pub struct DevCtorHelper<'a> {
    dev_name_params: &'a Vec<(String, String)>,
    used_params: Vec<String>,
    warns: Vec<DevCtorWarn>,
}

impl<'a> DevCtorHelper<'a> {
    pub closed spec fn spec_params(&self) -> Seq<(String, String)> { self.dev_name_params@ }
    /// The names used, each once.
    pub closed spec fn spec_used(&self) -> Seq<String> { self.used_params@ }
    pub closed spec fn spec_warns(&self) -> Seq<DevCtorWarn> { self.warns@ }

    pub fn new(dev_name_params: &'a Vec<(String, String)>) -> (r: Self)
        ensures
            r.spec_params() == dev_name_params@,
            r.spec_used().len() == 0,
            r.spec_warns().len() == 0,
    {
        Self { dev_name_params, used_params: Vec::new(), warns: Vec::new() }
    }

    pub fn add_warn(&mut self, warn: DevCtorWarn)
        ensures
            final(self).spec_warns() == old(self).spec_warns().push(warn),
            final(self).spec_used() == old(self).spec_used(),
            final(self).spec_params() == old(self).spec_params(),
    {
        self.warns.push(warn);
    }

    /// Note that parameter `param_name` is used (once).
    pub fn use_param(&mut self, param_name: &str)
        ensures
            is_used(old(self).spec_used(), param_name@) ==> final(self).spec_used() == old(self).spec_used(),
            !is_used(old(self).spec_used(), param_name@) ==> final(self).spec_used().len() == old(self).spec_used().len() + 1
                && final(self).spec_used().last()@ == param_name@
                && final(self).spec_used().drop_last() == old(self).spec_used(),
            final(self).spec_warns() == old(self).spec_warns(),
            final(self).spec_params() == old(self).spec_params(),
    {
        let mut i: usize = 0;
        while i < self.used_params.len()
            invariant
                i <= self.used_params@.len(),
                forall|k: int| 0 <= k < i ==> (#[trigger] self.used_params@[k])@ != param_name@,
            decreases self.used_params@.len() - i,
        {
            if crate::general::text::str_is(self.used_params[i].as_str(), str_to_chars(param_name).as_slice()) {
                assert(self.used_params@[i as int]@ == param_name@);
                return;
            }
            i = i + 1;
        }
        let mut n = String::new();
        string_push_str(&mut n, param_name);
        self.used_params.push(n);
        assert(self.used_params@.drop_last() =~= old(self).used_params@);
    }

    /// The number in parameter `await_name` (noting it used), or `default`
    /// without one; an error for a value that is no number.
    pub fn dev_ctor_parse(&mut self, await_name: &str, default: usize) -> (r: Result<usize, DevCtorErr>)
        ensures
            final(self).spec_warns() == old(self).spec_warns(),
            final(self).spec_params() == old(self).spec_params(),
            match param_get(old(self).spec_params(), await_name@) {
                None => r == Ok::<usize, DevCtorErr>(default) && final(self).spec_used() == old(self).spec_used(),
                Some(x) => is_used(final(self).spec_used(), await_name@) && match spec_parse_usize(x@) {
                    Some(v) => r == Ok::<usize, DevCtorErr>(v),
                    None => r matches Err(DevCtorErr::BadParamValue { name, bad_value }) && name@ == await_name@ && bad_value == x,
                },
            },
    {
        match self.find_param(await_name) {
            Some(x) => {
                self.use_param(await_name);
                proof {
                    if !is_used(old(self).spec_used(), await_name@) {
                        assert(self.spec_used()[self.spec_used().len() - 1]@ == await_name@);
                    }
                }
                match parse_usize(str_to_chars(x.as_str()).as_slice()) {
                    Some(v) => Ok(v),
                    None => {
                        let mut name = String::new();
                        string_push_str(&mut name, await_name);
                        Err(DevCtorErr::BadParamValue { name, bad_value: x })
                    }
                }
            }
            None => Ok(default),
        }
    }

    /// Whether the console prints its state, from parameter `await_name`
    /// (noting it used) or `default` without one; see `spec_parse_flag`.
    pub fn dev_ctor_parse_flag(&mut self, await_name: &str, default: bool) -> (r: Result<bool, DevCtorErr>)
        ensures
            final(self).spec_warns() == old(self).spec_warns(),
            final(self).spec_params() == old(self).spec_params(),
            match param_get(old(self).spec_params(), await_name@) {
                None => r == Ok::<bool, DevCtorErr>(default) && final(self).spec_used() == old(self).spec_used(),
                Some(x) => is_used(final(self).spec_used(), await_name@) && match spec_parse_flag(x@) {
                    Some(v) => r == Ok::<bool, DevCtorErr>(v),
                    None => r matches Err(DevCtorErr::BadParamValue { name, bad_value }) && name@ == await_name@ && bad_value == x,
                },
            },
    {
        match self.find_param(await_name) {
            Some(x) => {
                self.use_param(await_name);
                proof {
                    if !is_used(old(self).spec_used(), await_name@) {
                        assert(self.spec_used()[self.spec_used().len() - 1]@ == await_name@);
                    }
                }
                let cs = str_to_chars(x.as_str());
                match parse_flag(&cs) {
                    Some(v) => Ok(v),
                    None => {
                        let mut name = String::new();
                        string_push_str(&mut name, await_name);
                        Err(DevCtorErr::BadParamValue { name, bad_value: x })
                    }
                }
            }
            None => Ok(default),
        }
    }

    fn find_param(&self, name: &str) -> (r: Option<String>)
        ensures
            r == param_get(self.spec_params(), name@),
    {
        let ps = self.dev_name_params;
        assert(ps@.skip(0) =~= ps@);
        let mut i: usize = 0;
        while i < ps.len()
            invariant
                i <= ps@.len(),
                ps@ == self.spec_params(),
                param_get(ps@, name@) == param_get(ps@.skip(i as int), name@),
            decreases ps@.len() - i,
        {
            let ghost rest = ps@.skip(i as int);
            assert(rest.drop_first() =~= ps@.skip(i as int + 1));
            assert(rest[0] == ps@[i as int]);
            if crate::general::text::str_is(ps[i].0.as_str(), str_to_chars(name).as_slice()) {
                return Some(ps[i].1.clone());
            }
            i = i + 1;
        }
        None
    }

    /// A warning for each parameter that was not used, when fewer were
    /// used than there are.
    pub fn add_unused_warn(&mut self)
        ensures
            final(self).spec_params() == old(self).spec_params(),
            final(self).spec_used() == old(self).spec_used(),
            old(self).spec_params().len() > old(self).spec_used().len() ==>
                final(self).spec_warns().len() == old(self).spec_warns().len() + unused_warns(old(self).spec_params(), old(self).spec_used()).len()
                && final(self).spec_warns().take(old(self).spec_warns().len() as int) == old(self).spec_warns()
                && forall|i: int| 0 <= i < unused_warns(old(self).spec_params(), old(self).spec_used()).len() ==>
                    ((#[trigger] final(self).spec_warns()[old(self).spec_warns().len() + i]) matches DevCtorWarn::UnusedDevParam(n)
                    && n@ == unused_warns(old(self).spec_params(), old(self).spec_used())[i]),
            old(self).spec_params().len() <= old(self).spec_used().len() ==> final(self).spec_warns() == old(self).spec_warns(),
    {
        if self.dev_name_params.len() <= self.used_params.len() { return }
        let ps = self.dev_name_params;
        let ghost w0 = self.warns@;
        let mut i: usize = 0;
        while i < ps.len()
            invariant
                i <= ps@.len(),
                ps@ == old(self).spec_params(),
                self.used_params@ == old(self).used_params@,
                self.dev_name_params == old(self).dev_name_params,
                w0 == old(self).warns@,
                self.warns@.len() == w0.len() + unused_warns(ps@.take(i as int), self.used_params@).len(),
                self.warns@.take(w0.len() as int) == w0,
                forall|k: int| 0 <= k < unused_warns(ps@.take(i as int), self.used_params@).len() ==>
                    ((#[trigger] self.warns@[w0.len() + k]) matches DevCtorWarn::UnusedDevParam(n)
                    && n@ == unused_warns(ps@.take(i as int), self.used_params@)[k]),
            decreases ps@.len() - i,
        {
            assert(ps@.take(i as int + 1).drop_last() =~= ps@.take(i as int));
            let used = self.is_used_exec(ps[i].0.as_str());
            if !used {
                self.warns.push(DevCtorWarn::UnusedDevParam(ps[i].0.clone()));
            }
            i = i + 1;
            assert(self.warns@.take(w0.len() as int) =~= w0);
        }
        assert(ps@.take(ps@.len() as int) =~= ps@);
    }

    fn is_used_exec(&self, name: &str) -> (r: bool)
        ensures
            r == is_used(self.spec_used(), name@),
    {
        let mut i: usize = 0;
        while i < self.used_params.len()
            invariant
                i <= self.used_params@.len(),
                forall|k: int| 0 <= k < i ==> (#[trigger] self.used_params@[k])@ != name@,
            decreases self.used_params@.len() - i,
        {
            if crate::general::text::str_is(self.used_params[i].as_str(), str_to_chars(name).as_slice()) {
                assert(self.used_params@[i as int]@ == name@);
                return true;
            }
            i = i + 1;
        }
        false
    }

    pub fn take_warn(self) -> (r: Vec<DevCtorWarn>)
        ensures
            r@ == self.spec_warns(),
    {
        self.warns
    }
}

/// `+` or `-`, around them white space.
fn parse_flag(cs: &Vec<char>) -> (r: Option<bool>)
    ensures
        r == spec_parse_flag(cs@),
{
    let mut a: usize = 0;
    let mut b: usize = cs.len();
    assert(cs@.subrange(0, cs@.len() as int) =~= cs@);
    while a < b && (is_unicode_ws_exec(cs[a]) || is_unicode_ws_exec(cs[b - 1]))
        invariant
            a <= b <= cs@.len(),
            spec_trim(cs@) == spec_trim(cs@.subrange(a as int, b as int)),
        decreases b - a,
    {
        let ghost s = cs@.subrange(a as int, b as int);
        if is_unicode_ws_exec(cs[a]) {
            assert(s.drop_first() =~= cs@.subrange(a as int + 1, b as int));
            a = a + 1;
        } else {
            assert(s.drop_last() =~= cs@.subrange(a as int, b as int - 1));
            b = b - 1;
        }
    }
    let ghost t = cs@.subrange(a as int, b as int);
    assert(spec_trim(t) == t);
    if b - a == 1 && cs[a] == '+' {
        assert(t =~= seq!['+']);
        Some(true)
    } else if b - a == 1 && cs[a] == '-' {
        assert(t =~= seq!['-']);
        Some(false)
    } else {
        assert(t != seq!['+'] && t != seq!['-']) by {
            if t.len() == 1 { assert(t[0] == cs@[a as int]); }
        }
        None
    }
}

}
