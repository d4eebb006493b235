use vstd::prelude::*;
use vstd::std_specs::iter::IteratorSpec;

verus! {

/// Build a `String` from characters (std `FromIterator<char>` for `String`).
/// Claimed: the string holds exactly the given characters, in order.
#[verifier::external_body]
pub fn chars_to_string(v: &Vec<char>) -> (s: String)
    ensures
        s@ == v@,
{
    v.iter().collect::<String>()
}

/// The characters of a string slice, in order.
pub fn str_to_chars(s: &str) -> (v: Vec<char>)
    ensures
        v@ == s@,
{
    broadcast use vstd::string::group_string_axioms;
    let mut v: Vec<char> = Vec::new();
    let chars = s.chars();
    assert(chars.remaining() == s@);
    for c in it: chars
        invariant
            v@ == it.seq().take(it.index() as int),
            it.seq() == s@,
    {
        v.push(c);
        assert(v@ =~= it.seq().take(it.index() as int + 1));
    }
    assert(v@ =~= s@);
    v
}

/// Append all characters of `s` to `v`.
pub fn push_chars(v: &mut Vec<char>, s: &[char])
    ensures
        final(v)@ == old(v)@ + s@,
{
    let mut i: usize = 0;
    while i < s.len()
        invariant
            i <= s@.len(),
            v@ == old(v)@ + s@.take(i as int),
        decreases s@.len() - i,
    {
        v.push(s[i]);
        i = i + 1;
        assert(v@ =~= old(v)@ + s@.take(i as int));
    }
    assert(s@.take(s@.len() as int) =~= s@);
}

/// Upper-case hexadecimal digit of `d < 16`.
pub open spec fn spec_hex_digit(d: nat) -> char {
    if d < 10 { (('0' as nat) + d) as char } else { (('A' as nat) + d - 10) as char }
}

/// Two upper-case hexadecimal digits of a byte.
pub open spec fn spec_hex2(b: u8) -> Seq<char> {
    seq![spec_hex_digit((b / 16) as nat), spec_hex_digit((b % 16) as nat)]
}

pub fn hex_digit(d: u8) -> (c: char)
    requires
        d < 16,
    ensures
        c == spec_hex_digit(d as nat),
{
    if d < 10 { ((48u8 + d) as char) } else { ((65u8 + d - 10) as char) }
}

/// Append the two upper-case hexadecimal digits of `b`.
pub fn push_hex2(v: &mut Vec<char>, b: u8)
    ensures
        final(v)@ == old(v)@ + spec_hex2(b),
{
    v.push(hex_digit(b / 16));
    v.push(hex_digit(b % 16));
    assert(v@ =~= old(v)@ + spec_hex2(b));
}

/// Decimal digits of `n`, most significant first.
pub open spec fn spec_decimal(n: nat) -> Seq<char>
    decreases n,
{
    if n < 10 {
        seq![spec_hex_digit(n)]
    } else {
        spec_decimal(n / 10).push(spec_hex_digit(n % 10))
    }
}

/// Append the decimal digits of `n`.
pub fn push_decimal(v: &mut Vec<char>, n: usize)
    ensures
        final(v)@ == old(v)@ + spec_decimal(n as nat),
    decreases n,
{
    if n < 10 {
        v.push(hex_digit(n as u8));
        assert(v@ =~= old(v)@ + spec_decimal(n as nat));
    } else {
        push_decimal(v, n / 10);
        v.push(hex_digit((n % 10) as u8));
        assert(v@ =~= old(v)@ + spec_decimal(n as nat));
    }
}

/// The decimal text of `n`.
pub fn usize_to_string(n: usize) -> (s: String)
    ensures
        s@ == spec_decimal(n as nat),
{
    let mut v: Vec<char> = Vec::new();
    push_decimal(&mut v, n);
    assert(v@ =~= spec_decimal(n as nat));
    chars_to_string(&v)
}

/// Whether two character sequences are equal.
pub fn chars_eq(a: &[char], b: &[char]) -> (r: bool)
    ensures
        r == (a@ == b@),
{
    if a.len() != b.len() {
        return false;
    }
    let mut i: usize = 0;
    while i < a.len()
        invariant
            a@.len() == b@.len(),
            i <= a@.len(),
            forall|j: int| 0 <= j < i ==> a@[j] == b@[j],
        decreases a@.len() - i,
    {
        if a[i] != b[i] {
            return false;
        }
        i = i + 1;
    }
    assert(a@ =~= b@);
    true
}

/// Append a character to a string (std `String::push`).
/// Claimed: the string gains exactly that character at its end.
#[verifier::external_body]
pub fn string_push(s: &mut String, c: char)
    ensures
        final(s)@ == old(s)@.push(c),
{
    s.push(c)
}

/// Append the characters of `v` to a string.
pub fn string_push_chars(s: &mut String, v: &[char])
    ensures
        final(s)@ == old(s)@ + v@,
{
    let mut i: usize = 0;
    while i < v.len()
        invariant
            i <= v@.len(),
            s@ == old(s)@ + v@.take(i as int),
        decreases v@.len() - i,
    {
        string_push(s, v[i]);
        i = i + 1;
        assert(s@ =~= old(s)@ + v@.take(i as int));
    }
    assert(v@.take(v@.len() as int) =~= v@);
}

/// Append the characters of `t` to a string.
pub fn string_push_str(s: &mut String, t: &str)
    ensures
        final(s)@ == old(s)@ + t@,
{
    let v = str_to_chars(t);
    string_push_chars(s, v.as_slice());
}

/// A string of the given characters.
pub fn string_of(v: &[char]) -> (s: String)
    ensures
        s@ == v@,
{
    let mut s = String::new();
    string_push_chars(&mut s, v);
    s
}

/// Whether a string equals the given characters.
pub fn str_is(s: &str, v: &[char]) -> (r: bool)
    ensures
        r == (s@ == v@),
{
    let c = str_to_chars(s);
    chars_eq(c.as_slice(), v)
}


/// Whether `c` is a decimal digit.
pub open spec fn is_dec_digit(c: char) -> bool {
    '0' <= c <= '9'
}

/// The number that the decimal digits `s` denote.
pub open spec fn digits_value(s: Seq<char>) -> nat
    decreases s.len(),
{
    if s.len() == 0 { 0 } else { 10 * digits_value(s.drop_last()) + ((s.last() as nat) - ('0' as nat)) as nat }
}

/// Whether `s` is one or more decimal digits.
pub open spec fn all_digits(s: Seq<char>) -> bool {
    s.len() > 0 && forall|i: int| 0 <= i < s.len() ==> is_dec_digit(#[trigger] s[i])
}

/// What std's `usize::from_str` gives: an optional `+`, then one or more
/// digits whose value fits.
pub open spec fn spec_parse_usize(s: Seq<char>) -> Option<usize> {
    let body = if s.len() > 0 && s[0] == '+' { s.drop_first() } else { s };
    if all_digits(body) && digits_value(body) <= usize::MAX { Some(digits_value(body) as usize) } else { None }
}

/// What std's `isize::from_str` gives: an optional sign, then one or more
/// digits whose signed value fits.
pub open spec fn spec_parse_isize(s: Seq<char>) -> Option<isize> {
    let neg = s.len() > 0 && s[0] == '-';
    let body = if s.len() > 0 && (s[0] == '+' || s[0] == '-') { s.drop_first() } else { s };
    if !all_digits(body) {
        None
    } else if neg {
        if digits_value(body) <= isize::MAX + 1 { Some((-(digits_value(body) as int)) as isize) } else { None }
    } else {
        if digits_value(body) <= isize::MAX { Some(digits_value(body) as isize) } else { None }
    }
}

/// Read decimal digits; `None` when `s` is not all digits, is empty, or its
/// value exceeds `limit`.
fn parse_digits(s: &[char], start: usize, limit: u128) -> (r: Option<u128>)
    requires
        start <= s@.len(),
        limit <= u64::MAX,
    ensures
        match r {
            Some(v) => all_digits(s@.skip(start as int)) && v == digits_value(s@.skip(start as int)) && v <= limit,
            None => !(all_digits(s@.skip(start as int)) && digits_value(s@.skip(start as int)) <= limit),
        },
{
    if start >= s.len() { return None }
    let ghost body = s@.skip(start as int);
    let mut acc: u128 = 0;
    let mut i: usize = start;
    while i < s.len()
        invariant
            start <= i <= s@.len(),
            body == s@.skip(start as int),
            limit <= u64::MAX,
            acc == digits_value(body.take(i - start)),
            acc <= limit,
            forall|j: int| 0 <= j < i - start ==> is_dec_digit(#[trigger] body[j]),
        decreases s@.len() - i,
    {
        let c = s[i];
        assert(body.take(i - start + 1).drop_last() =~= body.take(i - start));
        assert(body[i - start] == c);
        if !('0' <= c && c <= '9') {
            assert(!is_dec_digit(body[i - start]));
            return None;
        }
        let d = (c as u32 - '0' as u32) as u128;
        let next = acc * 10 + d;
        if next > limit {
            proof { if all_digits(body) { lemma_digits_value_prefix_le(body, i - start + 1); } }
            return None;
        }
        acc = next;
        i = i + 1;
    }
    assert(body.take(s@.len() - start) =~= body);
    Some(acc)
}

proof fn lemma_digits_value_prefix_le(s: Seq<char>, k: int)
    requires
        0 <= k <= s.len(),
        forall|j: int| 0 <= j < s.len() ==> is_dec_digit(#[trigger] s[j]),
    ensures
        digits_value(s.take(k)) <= digits_value(s),
    decreases s.len() - k,
{
    if k < s.len() {
        lemma_digits_value_prefix_le(s, k + 1);
        assert(s.take(k + 1).drop_last() =~= s.take(k));
    } else {
        assert(s.take(k) =~= s);
    }
}

/// std's `usize::from_str` on characters.
pub fn parse_usize(s: &[char]) -> (r: Option<usize>)
    ensures
        r == spec_parse_usize(s@),
{
    let start: usize = if s.len() > 0 && s[0] == '+' { 1 } else { 0 };
    assert(s@.skip(start as int) =~= (if s@.len() > 0 && s@[0] == '+' { s@.drop_first() } else { s@ }));
    match parse_digits(s, start, usize::MAX as u128) {
        Some(v) => Some(v as usize),
        None => None,
    }
}

/// std's `isize::from_str` on characters.
pub fn parse_isize(s: &[char]) -> (r: Option<isize>)
    ensures
        r == spec_parse_isize(s@),
{
    let neg = s.len() > 0 && s[0] == '-';
    let start: usize = if s.len() > 0 && (s[0] == '+' || s[0] == '-') { 1 } else { 0 };
    assert(s@.skip(start as int) =~= (if s@.len() > 0 && (s@[0] == '+' || s@[0] == '-') { s@.drop_first() } else { s@ }));
    if neg {
        match parse_digits(s, start, (isize::MAX as u128) + 1) {
            Some(v) => {
                let r: i128 = -(v as i128);
                Some(r as isize)
            }
            None => None,
        }
    } else {
        match parse_digits(s, start, isize::MAX as u128) {
            Some(v) => Some(v as isize),
            None => None,
        }
    }
}

}
