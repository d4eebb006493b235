use vstd::prelude::*;
use super::mnc_checker::{MacroNameCodeChecker, ChekerErrorMNC};

verus! {

/// Named macro-name rules; a macro must pass them all.
pub struct HolderChekerMNC<C: MacroNameCodeChecker> {
    checkers: Vec<(String, C)>,
}

impl<C: MacroNameCodeChecker> HolderChekerMNC<C> {
    /// The names of the rules, in the order they were added.
    pub closed spec fn names(&self) -> Seq<Seq<char>> {
        Seq::new(self.checkers@.len(), |i: int| self.checkers@[i].0@)
    }

    /// Whether the macro passes the rule at `i`.
    pub closed spec fn fits_at(&self, i: int, name: Seq<char>, code: Seq<char>) -> bool {
        self.checkers@[i].1.spec_fits(name, code)
    }

    /// The number of rules.
    pub closed spec fn len(&self) -> nat {
        self.checkers@.len()
    }

    pub fn new() -> (r: Self)
        ensures
            r.names() == Seq::<Seq<char>>::empty(),
    {
        Self { checkers: Vec::new() }
    }

    /// Add a rule under a name that no rule has yet.
    pub fn add_checker(&mut self, name: String, checker: C)
        requires
            !old(self).names().contains(name@),
        ensures
            final(self).names() == old(self).names().push(name@),
    {
        let ghost before = self.names();
        self.checkers.push((name, checker));
        assert(self.names() =~= before.push(name@));
    }

    /// The first rule (in the order they were added) that the macro does
    /// not pass, with its error; `None` when it passes them all. The code
    /// must not be expanded yet.
    pub fn check_all(&self, macro_name: &str, macro_code: &str) -> (r: Option<(String, ChekerErrorMNC)>)
        ensures
            r matches Some((n, _)) ==> self.names().contains(n@),
            self.names().len() == 0 ==> r is None,
            self.names().len() == self.len(),
            r is None <==> forall|i: int| 0 <= i < self.len() ==> self.fits_at(i, macro_name@, macro_code@),
            r matches Some((n, _)) ==> exists|i: int| 0 <= i < self.len() && self.names()[i] == n@
                && !self.fits_at(i, macro_name@, macro_code@)
                && forall|j: int| 0 <= j < i ==> self.fits_at(j, macro_name@, macro_code@),
    {
        let mut i: usize = 0;
        while i < self.checkers.len()
            invariant
                i <= self.checkers@.len(),
                forall|j: int| 0 <= j < i ==> self.fits_at(j, macro_name@, macro_code@),
            decreases self.checkers@.len() - i,
        {
            match self.checkers[i].1.check(macro_name, macro_code) {
                Some(error) => {
                    let n = self.checkers[i].0.clone();
                    assert(self.names()[i as int] == n@);
                    assert(!self.fits_at(i as int, macro_name@, macro_code@));
                    return Some((n, error));
                }
                None => {}
            }
            i = i + 1;
        }
        None
    }
}

}
