use vstd::prelude::*;
use boolvec::BoolVec;
use crate::general::text::str_is;

verus! {

// ---------------------------------------------------------------------
// [+] the outside bit vector

#[verifier::external_type_specification]
#[verifier::external_body]
pub struct ExBoolVec(boolvec::BoolVec);

/// The bits that a `BoolVec` holds, first pushed first.
pub uninterp spec fn boolvec_bits(v: BoolVec) -> Seq<bool>;

/// `BoolVec::new`: claimed to hold no bits.
#[verifier::external_body]
fn boolvec_new() -> (r: BoolVec)
    ensures
        boolvec_bits(r) == Seq::<bool>::empty(),
{
    BoolVec::new()
}

/// `BoolVec::push`: claimed to add `value` after the bits it holds. It
/// panics only when its bytes (one per eight bits) overflow what a `Vec`
/// can allocate, which the bound on the bits rules out.
#[verifier::external_body]
fn boolvec_push(v: &mut BoolVec, value: bool)
    requires
        boolvec_bits(*old(v)).len() < isize::MAX,
    ensures
        boolvec_bits(*final(v)) == boolvec_bits(*old(v)).push(value),
{
    v.push(value)
}

/// `BoolVec::set`: claimed to replace bit `nth` and keep the others; it
/// panics only where bit `nth` does not exist, which `requires` rules out.
#[verifier::external_body]
fn boolvec_set(v: &mut BoolVec, nth: usize, value: bool)
    requires
        nth < boolvec_bits(*old(v)).len(),
    ensures
        boolvec_bits(*final(v)) == boolvec_bits(*old(v)).update(nth as int, value),
    no_unwind
{
    v.set(nth, value)
}

/// `BoolVec::get`: claimed to give bit `nth`, or `None` past the end.
#[verifier::external_body]
fn boolvec_get(v: &BoolVec, nth: usize) -> (r: Option<bool>)
    ensures
        r == (if nth < boolvec_bits(*v).len() { Some(boolvec_bits(*v)[nth as int]) } else { None::<bool> }),
{
    v.get(nth)
}

// [-] the outside bit vector
// ---------------------------------------------------------------------

/// Port registers that are set up before the program (all but the user's).
pub const PREPARED_PRS: usize = 4;

/// The devices whose port register the program sets up.
#[derive(Clone, Copy, Debug, PartialEq, Eq, Structural)]
pub enum PrPrepared {
    Console,
    Win,
    MemCell,
    MemCmd,
}

pub open spec fn spec_pr_index(p: PrPrepared) -> usize {
    match p {
        PrPrepared::Console => 0,
        PrPrepared::Win => 1,
        PrPrepared::MemCell => 2,
        PrPrepared::MemCmd => 3,
    }
}

/// The device of a port name: `console`; `win`, `screen` or `display`.
pub open spec fn spec_pr_from_name(name: Seq<char>) -> Option<PrPrepared> {
    if name == seq!['c', 'o', 'n', 's', 'o', 'l', 'e'] {
        Some(PrPrepared::Console)
    } else if name == seq!['w', 'i', 'n'] || name == seq!['s', 'c', 'r', 'e', 'e', 'n']
        || name == seq!['d', 'i', 's', 'p', 'l', 'a', 'y'] {
        Some(PrPrepared::Win)
    } else {
        None
    }
}

impl PrPrepared {
    pub fn to_index(&self) -> (r: usize)
        ensures
            r == spec_pr_index(*self),
    {
        match self {
            PrPrepared::Console => 0,
            PrPrepared::Win => 1,
            PrPrepared::MemCell => 2,
            PrPrepared::MemCmd => 3,
        }
    }

    pub fn from_name(name: &str) -> (r: Option<Self>)
        ensures
            r == spec_pr_from_name(name@),
    {
        if str_is(name, &['c', 'o', 'n', 's', 'o', 'l', 'e']) {
            Some(Self::Console)
        } else if str_is(name, &['w', 'i', 'n']) || str_is(name, &['s', 'c', 'r', 'e', 'e', 'n'])
            || str_is(name, &['d', 'i', 's', 'p', 'l', 'a', 'y']) {
            Some(Self::Win)
        } else {
            None
        }
    }
}

/// What the standard command compiler keeps besides its state: the size
/// reserved at the start of the program for setting up one port register,
/// the size reserved for a jump, and which port registers are set up.
pub struct StdCcAditionalInfo {
    one_pr_reserve_sz: usize,
    jump_pass_amount: usize,
    pr_prepared: BoolVec,
}

impl StdCcAditionalInfo {
    /// A bit for each port register that can be set up.
    #[verifier::type_invariant]
    spec fn inv(&self) -> bool {
        boolvec_bits(self.pr_prepared).len() == PREPARED_PRS
    }

    pub closed spec fn spec_reserve_sz(&self) -> usize { self.one_pr_reserve_sz }
    pub closed spec fn spec_jump_pass_amount(&self) -> usize { self.jump_pass_amount }
    /// Which port registers are set up, by `spec_pr_index`.
    pub closed spec fn spec_prepared(&self) -> Seq<bool> { boolvec_bits(self.pr_prepared) }

    /// Nothing reserved yet; the memories' registers set up (the machine
    /// sets them), the others not.
    pub fn new() -> (r: Self)
        ensures
            r.spec_reserve_sz() == 0,
            r.spec_jump_pass_amount() == 0,
            r.spec_prepared() == seq![false, false, true, true],
    {
        let mut pr_prepared = boolvec_new();
        let mut i: usize = 0;
        while i < PREPARED_PRS
            invariant
                i <= PREPARED_PRS,
                boolvec_bits(pr_prepared) == Seq::new(i as nat, |k: int| false),
            decreases PREPARED_PRS - i,
        {
            boolvec_push(&mut pr_prepared, false);
            i = i + 1;
            assert(boolvec_bits(pr_prepared) =~= Seq::new(i as nat, |k: int| false));
        }
        let mut ret = Self { one_pr_reserve_sz: 0, jump_pass_amount: 0, pr_prepared };
        ret.set_prepared(PrPrepared::MemCell);
        ret.set_prepared(PrPrepared::MemCmd);
        assert(ret.spec_prepared() =~= seq![false, false, true, true]);
        ret
    }

    pub fn set_prepared(&mut self, prepared: PrPrepared)
        ensures
            final(self).spec_prepared().len() == PREPARED_PRS,
            final(self).spec_prepared() == old(self).spec_prepared().update(spec_pr_index(prepared) as int, true),
            final(self).spec_reserve_sz() == old(self).spec_reserve_sz(),
            final(self).spec_jump_pass_amount() == old(self).spec_jump_pass_amount(),
    {
        proof { use_type_invariant(&*self); }
        boolvec_set(&mut self.pr_prepared, prepared.to_index(), true);
    }

    pub fn set_pr_reserve_sz(&mut self, sz: usize)
        ensures
            final(self).spec_reserve_sz() == sz,
            final(self).spec_jump_pass_amount() == old(self).spec_jump_pass_amount(),
            final(self).spec_prepared() == old(self).spec_prepared(),
    {
        proof { use_type_invariant(&*self); }
        self.one_pr_reserve_sz = sz
    }

    pub fn get_pr_reserve_sz(&self) -> (r: usize)
        ensures r == self.spec_reserve_sz(),
    {
        self.one_pr_reserve_sz
    }

    pub fn set_jump_pass_amount(&mut self, jump_pass_amount: usize)
        ensures
            final(self).spec_jump_pass_amount() == jump_pass_amount,
            final(self).spec_reserve_sz() == old(self).spec_reserve_sz(),
            final(self).spec_prepared() == old(self).spec_prepared(),
    {
        proof { use_type_invariant(&*self); }
        self.jump_pass_amount = jump_pass_amount
    }

    pub fn get_jump_pass_amount(&self) -> (r: usize)
        ensures r == self.spec_jump_pass_amount(),
    {
        self.jump_pass_amount
    }

    /// Whether every port register is set up.
    pub fn is_all_prepared(&self) -> (r: bool)
        ensures
            r == (forall|i: int| 0 <= i < PREPARED_PRS ==> #[trigger] self.spec_prepared()[i]),
    {
        proof { use_type_invariant(self); }
        let mut x: usize = 0;
        while x < PREPARED_PRS
            invariant
                x <= PREPARED_PRS,
                self.spec_prepared().len() == PREPARED_PRS,
                forall|i: int| 0 <= i < x ==> #[trigger] self.spec_prepared()[i],
            decreases PREPARED_PRS - x,
        {
            match boolvec_get(&self.pr_prepared, x) {
                Some(b) => { if !b { return false } }
                None => { return false }
            }
            x = x + 1;
        }
        true
    }
}

}
