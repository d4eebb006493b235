use vstd::prelude::*;

verus! {

/// Why a macro's name does not fit its code.
pub struct ChekerErrorMNC {
    pub error: String,
}

impl ChekerErrorMNC {
    pub fn to_string(&self) -> (s: String)
        ensures
            s@ == self.error@,
    {
        self.error.clone()
    }
}

/// A rule on how a macro's name must fit its code. Its users implement it.
pub trait MacroNameCodeChecker {
    /// Whether the name fits the (not yet expanded) code.
    spec fn spec_fits(&self, name: Seq<char>, code: Seq<char>) -> bool;

    /// `None` when the name fits the (not yet expanded) code, else why not.
    fn check(&self, name: &str, code: &str) -> (r: Option<ChekerErrorMNC>)
        ensures
            r is None <==> self.spec_fits(name@, code@);
}

}
