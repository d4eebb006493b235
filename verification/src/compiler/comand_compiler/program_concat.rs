use vstd::prelude::*;

verus! {

/// Joins two compiled programs. Mostly `default_program_concat` (the first
/// program, then the second); a compiler with jumps to addresses, not by
/// offsets, needs another.
pub trait ProgramConcat<T> {
    fn program_concat(p1: Vec<T>, p2: Vec<T>) -> Vec<T>;
}

/// The first program, then the second.
pub fn default_program_concat<T>(p1: Vec<T>, p2: Vec<T>) -> (r: Vec<T>)
    ensures
        r@ == p1@ + p2@,
{
    let mut p1 = p1;
    let mut p2 = p2;
    p1.append(&mut p2);
    p1
}

}
