use vstd::prelude::*;
use crate::general::text::str_to_chars;

verus! {

pub open spec fn is_lower(c: char) -> bool {
    'a' <= c <= 'z'
}

pub open spec fn is_digit(c: char) -> bool {
    '0' <= c <= '9'
}

/// A right device name: `[a-z][a-z0-9\-]*`.
pub open spec fn spec_right_dev_name(s: Seq<char>) -> bool {
    &&& s.len() > 0
    &&& is_lower(s[0])
    &&& forall|i: int| 0 <= i < s.len() ==> (is_lower(#[trigger] s[i]) || is_digit(s[i]) || s[i] == '-')
}

/// Whether `dev_name` is a right device name: `[a-z][a-z0-9\-]*`.
pub fn right_std_dev_name(dev_name: &str) -> (r: bool)
    ensures
        r == spec_right_dev_name(dev_name@),
{
    let v = str_to_chars(dev_name);
    right_dev_name_chars(&v)
}

/// Whether the characters make a right device name.
pub fn right_dev_name_chars(v: &Vec<char>) -> (r: bool)
    ensures
        r == spec_right_dev_name(v@),
{
    if v.len() == 0 {
        return false;
    }
    let c0 = v[0];
    if !('a' <= c0 && c0 <= 'z') {
        return false;
    }
    let mut i: usize = 0;
    while i < v.len()
        invariant
            i <= v@.len(),
            forall|j: int| 0 <= j < i ==> (is_lower(#[trigger] v@[j]) || is_digit(v@[j]) || v@[j] == '-'),
        decreases v@.len() - i,
    {
        let c = v[i];
        if !(('a' <= c && c <= 'z') || ('0' <= c && c <= '9') || c == '-') {
            return false;
        }
        i = i + 1;
    }
    true
}

}
