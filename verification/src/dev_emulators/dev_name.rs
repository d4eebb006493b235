use vstd::prelude::*;
use crate::general::text::string_push_str;

verus! {

/// The value of the first parameter named `k`.
pub open spec fn param_get(ps: Seq<(String, String)>, k: Seq<char>) -> Option<String>
    decreases ps.len(),
{
    if ps.len() == 0 {
        None
    } else if ps[0].0@ == k {
        Some(ps[0].1)
    } else {
        param_get(ps.drop_first(), k)
    }
}

/// No parameter name occurs twice.
pub open spec fn names_unique(ps: Seq<(String, String)>) -> bool {
    forall|i: int, j: int| 0 <= i < j < ps.len() ==> ps[i].0@ != ps[j].0@
}

/// A device's name and its parameters (name, value), each name once.
pub struct DevName {
    name: String,
    params: Vec<(String, String)>,
}

proof fn lemma_param_get_none(ps: Seq<(String, String)>, k: Seq<char>)
    ensures
        param_get(ps, k) is None <==> forall|i: int| 0 <= i < ps.len() ==> ps[i].0@ != k,
        param_get(ps, k) matches Some(v) ==> exists|i: int| 0 <= i < ps.len() && ps[i].0@ == k && ps[i].1 == v,
    decreases ps.len(),
{
    if ps.len() > 0 {
        lemma_param_get_none(ps.drop_first(), k);
        if param_get(ps, k) is None {
            assert forall|i: int| 0 <= i < ps.len() implies ps[i].0@ != k by {
                if i > 0 { assert(ps[i] == ps.drop_first()[i - 1]); }
            }
        } else if ps[0].0@ != k {
            let v = param_get(ps, k)->0;
            let i = choose|i: int| 0 <= i < ps.len() - 1 && ps.drop_first()[i].0@ == k && ps.drop_first()[i].1 == v;
            assert(ps[i + 1] == ps.drop_first()[i]);
        }
        if forall|i: int| 0 <= i < ps.len() ==> ps[i].0@ != k {
            assert(ps[0].0@ != k);
            assert forall|i: int| 0 <= i < ps.len() - 1 implies ps.drop_first()[i].0@ != k by {
                assert(ps.drop_first()[i] == ps[i + 1]);
            }
        }
    }
}

proof fn lemma_param_get_at(ps: Seq<(String, String)>, i: int)
    requires
        names_unique(ps),
        0 <= i < ps.len(),
    ensures
        param_get(ps, ps[i].0@) == Some(ps[i].1),
    decreases ps.len(),
{
    if i > 0 {
        assert(ps[0].0@ != ps[i].0@);
        assert(ps.drop_first()[i - 1] == ps[i]);
        assert(names_unique(ps.drop_first())) by {
            assert forall|a: int, b: int| 0 <= a < b < ps.drop_first().len() implies ps.drop_first()[a].0@ != ps.drop_first()[b].0@ by {
                assert(ps.drop_first()[a] == ps[a + 1]);
                assert(ps.drop_first()[b] == ps[b + 1]);
            }
        }
        lemma_param_get_at(ps.drop_first(), i - 1);
    }
}

impl DevName {
    pub closed spec fn spec_name(&self) -> Seq<char> { self.name@ }
    pub closed spec fn spec_params(&self) -> Seq<(String, String)> { self.params@ }

    pub closed spec fn wf(&self) -> bool { names_unique(self.params@) }

    /// A device with no parameters.
    pub fn new(dev_name: String) -> (r: Self)
        ensures
            r.wf(),
            r.spec_name() == dev_name@,
            r.spec_params().len() == 0,
    {
        Self { name: dev_name, params: Vec::new() }
    }

    /// Set parameter `param_name`; its previous value, if it had one (the
    /// parameter keeps its place then; a new one goes last).
    pub fn add_param(&mut self, param_name: String, param_value: String) -> (r: Option<String>)
        requires
            old(self).wf(),
        ensures
            final(self).wf(),
            final(self).spec_name() == old(self).spec_name(),
            r == param_get(old(self).spec_params(), param_name@),
            param_get(final(self).spec_params(), param_name@) == Some(param_value),
            forall|k: Seq<char>| k != param_name@ ==> param_get(final(self).spec_params(), k) == param_get(old(self).spec_params(), k),
    {
        let ghost ps0 = self.params@;
        proof { lemma_param_get_none(ps0, param_name@); }
        let mut i: usize = 0;
        while i < self.params.len()
            invariant
                i <= self.params@.len(),
                self.params@ == ps0,
                ps0 == old(self).params@,
                self.name == old(self).name,
                names_unique(ps0),
                forall|k: int| 0 <= k < i ==> ps0[k].0@ != param_name@,
            decreases self.params@.len() - i,
        {
            if self.params[i].0 == param_name {
                assert(ps0[i as int].0@ == param_name@);
                proof { lemma_param_get_at(ps0, i as int); }
                let old_v = self.params[i].1.clone();
                let name = self.params[i].0.clone();
                self.params.set(i, (name, param_value));
                proof {
                    let ps1 = self.params@;
                    assert(ps1 == ps0.update(i as int, (ps0[i as int].0, param_value)));
                    assert(names_unique(ps1)) by {
                        assert forall|a: int, b: int| 0 <= a < b < ps1.len() implies ps1[a].0@ != ps1[b].0@ by {
                            assert(ps1[a].0 == ps0[a].0);
                            assert(ps1[b].0 == ps0[b].0);
                        }
                    }
                    lemma_param_get_at(ps1, i as int);
                    assert(old_v == ps0[i as int].1);
                    assert(param_get(ps0, param_name@) == Some(ps0[i as int].1));
                    assert forall|k: Seq<char>| k != param_name@ implies param_get(ps1, k) == param_get(ps0, k) by {
                        lemma_param_get_none(ps0, k);
                        lemma_param_get_none(ps1, k);
                        if param_get(ps0, k) is Some {
                            let j = choose|j: int| 0 <= j < ps0.len() && ps0[j].0@ == k && ps0[j].1 == param_get(ps0, k)->0;
                            assert(j != i);
                            assert(ps1[j] == ps0[j]);
                            lemma_param_get_at(ps0, j);
                            lemma_param_get_at(ps1, j);
                        } else {
                            assert forall|q: int| 0 <= q < ps1.len() implies ps1[q].0@ != k by {
                                assert(ps1[q].0 == ps0[q].0);
                            }
                        }
                    }
                }
                return Some(old_v);
            }
            i = i + 1;
        }
        let ghost pn = param_name@;
        self.params.push((param_name, param_value));
        proof {
            let ps1 = self.params@;
            assert forall|a: int, b: int| 0 <= a < b < ps1.len() implies ps1[a].0@ != ps1[b].0@ by {
                if b == ps0.len() { assert(ps1[a] == ps0[a]); } else { assert(ps1[a] == ps0[a]); assert(ps1[b] == ps0[b]); }
            }
            lemma_param_get_at(ps1, ps0.len() as int);
            assert forall|k: Seq<char>| k != pn implies param_get(ps1, k) == param_get(ps0, k) by {
                lemma_param_get_none(ps0, k);
                lemma_param_get_none(ps1, k);
                if param_get(ps0, k) is Some {
                    let j = choose|j: int| 0 <= j < ps0.len() && ps0[j].0@ == k && ps0[j].1 == param_get(ps0, k)->0;
                    lemma_param_get_at(ps0, j);
                    assert(ps1[j] == ps0[j]);
                    lemma_param_get_at(ps1, j);
                } else {
                    assert forall|i: int| 0 <= i < ps1.len() implies ps1[i].0@ != k by {
                        if i < ps0.len() { assert(ps1[i] == ps0[i]); }
                    }
                }
            }
        }
        None
    }

    pub fn get_name(&self) -> (r: &str)
        ensures
            r@ == self.spec_name(),
    {
        self.name.as_str()
    }

    /// The value of parameter `param_name`, if it has one.
    pub fn get_param(&self, param_name: &str) -> (r: Option<&String>)
        ensures
            match param_get(self.spec_params(), param_name@) {
                Some(v) => r matches Some(x) && *x == v,
                None => r is None,
            },
    {
        assert(self.params@.skip(0) =~= self.params@);
        let mut i: usize = 0;
        while i < self.params.len()
            invariant
                i <= self.params@.len(),
                param_get(self.params@, param_name@) == param_get(self.params@.skip(i as int), param_name@),
            decreases self.params@.len() - i,
        {
            let ghost rest = self.params@.skip(i as int);
            assert(rest.drop_first() =~= self.params@.skip(i as int + 1));
            assert(rest[0] == self.params@[i as int]);
            if crate::general::text::str_is(self.params[i].0.as_str(), crate::general::text::str_to_chars(param_name).as_slice()) {
                return Some(&self.params[i].1);
            }
            i = i + 1;
        }
        None
    }

    /// All parameters (name, value).
    pub fn get_params(&self) -> (r: &Vec<(String, String)>)
        ensures
            r@ == self.spec_params(),
    {
        &self.params
    }

    /// The name, and `< |param = value| ... >` with the parameters (none
    /// without parameters).
    pub fn to_string(&self) -> (s: String)
        ensures
            s@ == self.spec_name() + (if self.spec_params().len() > 0 {
                seq!['<'] + params_text(self.spec_params()) + seq!['>']
            } else {
                Seq::<char>::empty()
            }),
    {
        let mut ret = self.name.clone();
        if self.params.len() > 0 {
            crate::general::text::string_push(&mut ret, '<');
            let ghost r0 = ret@;
            let mut i: usize = 0;
            while i < self.params.len()
                invariant
                    i <= self.params@.len(),
                    ret@ == r0 + params_text(self.params@.take(i as int)),
                decreases self.params@.len() - i,
            {
                assert(self.params@.take(i as int + 1).drop_last() =~= self.params@.take(i as int));
                string_push_str(&mut ret, " |");
                string_push_str(&mut ret, self.params[i].0.as_str());
                string_push_str(&mut ret, " = ");
                string_push_str(&mut ret, self.params[i].1.as_str());
                string_push_str(&mut ret, "| ");
                i = i + 1;
                assert(ret@ =~= r0 + params_text(self.params@.take(i as int)));
            }
            assert(self.params@.take(self.params@.len() as int) =~= self.params@);
            crate::general::text::string_push(&mut ret, '>');
        }
        ret
    }
}

/// ` |name = value| ` for each parameter.
pub open spec fn params_text(ps: Seq<(String, String)>) -> Seq<char>
    decreases ps.len(),
{
    if ps.len() == 0 {
        Seq::empty()
    } else {
        params_text(ps.drop_last()) + " |"@ + ps.last().0@ + " = "@ + ps.last().1@ + "| "@
    }
}

}
