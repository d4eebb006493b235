use vstd::prelude::*;

verus! {

/// Smallest byte that carries a continuation mark: every byte of an encoding
/// but the last is at least this value.
pub const MIN_BIG_BYTE: u8 = 0x80;
/// Largest byte without a continuation mark.
pub const MAX_SMALL_BYTE: u8 = 0x7F;

/// Number of value bits carried by one byte of the encoding.
pub const SHIFT: usize = 7;

/// The space-efficient (little-endian base-128) encoding of `n`:
/// seven value bits per byte, lowest group first, every byte but the last
/// with its high bit set.
pub open spec fn se_encode(n: nat) -> Seq<u8>
    decreases n,
{
    if n < 128 {
        seq![n as u8]
    } else {
        seq![(128 + n % 128) as u8] + se_encode(n / 128)
    }
}

/// The seven value bits of one byte.
pub open spec fn low7(b: u8) -> nat {
    (b % 128) as nat
}

/// The number that the value bits of `s` denote (first byte lowest).
pub open spec fn se_value(s: Seq<u8>) -> nat
    decreases s.len(),
{
    if s.len() == 0 {
        0
    } else {
        low7(s[0]) + 128 * se_value(s.drop_first())
    }
}

/// Index of the first byte below `MIN_BIG_BYTE` (the length when there is none).
pub open spec fn first_small(s: Seq<u8>) -> nat
    decreases s.len(),
{
    if s.len() == 0 {
        0
    } else if s[0] < 128 {
        0
    } else {
        1 + first_small(s.drop_first())
    }
}

/// `s` is accepted by the decoder: it is not empty, it holds a final byte
/// (one below `MIN_BIG_BYTE`), and only zero bytes follow that final byte.
pub open spec fn se_decodable(s: Seq<u8>) -> bool {
    &&& s.len() > 0
    &&& first_small(s) < s.len()
    &&& forall|j: int| first_small(s) < j < s.len() ==> s[j] == 0
}

/// Index of the first byte that the decoder would shift by at least the
/// width of `usize` (the shift grows by seven per byte).
pub open spec fn se_limit() -> nat {
    if usize::BITS == 32 { 5 } else { 10 }
}

/// What the decoder returns for `s`: the value of its bits, cut to the width
/// of `usize`.
pub open spec fn se_decode(s: Seq<u8>) -> Option<usize> {
    if se_decodable(s) {
        Some((se_value(s) % (usize::MAX as nat + 1)) as usize)
    } else {
        None
    }
}

/// The decoder shifts a byte by at least the width of `usize` exactly when it
/// reaches index `se_limit()` without having rejected the input; this rules
/// that out.
pub open spec fn se_decode_in_range(s: Seq<u8>) -> bool {
    !(s.len() > se_limit() && forall|j: int| first_small(s) < j <= se_limit() ==> s[j] == 0)
}

pub proof fn lemma_first_small_props(s: Seq<u8>)
    ensures
        first_small(s) <= s.len(),
        forall|j: int| 0 <= j < first_small(s) ==> s[j] >= 128,
        first_small(s) < s.len() ==> s[first_small(s) as int] < 128,
    decreases s.len(),
{
    if s.len() > 0 && s[0] >= 128 {
        lemma_first_small_props(s.drop_first());
        assert forall|j: int| 0 <= j < first_small(s) implies s[j] >= 128 by {
            if j > 0 { assert(s[j] == s.drop_first()[j - 1]); }
        }
    }
}

proof fn lemma_first_small_push(s: Seq<u8>, b: u8)
    ensures
        first_small(s) < s.len() ==> first_small(s.push(b)) == first_small(s),
        first_small(s) == s.len() ==> first_small(s.push(b)) == if b < 128 { s.len() } else { s.len() + 1 },
    decreases s.len(),
{
    if s.len() > 0 {
        assert(s.push(b).drop_first() =~= s.drop_first().push(b));
        assert(s.push(b)[0] == s[0]);
        lemma_first_small_push(s.drop_first(), b);
        if s[0] >= 128 {
            assert(first_small(s) == 1 + first_small(s.drop_first()));
            assert(first_small(s.push(b)) == 1 + first_small(s.push(b).drop_first()));
        }
    } else {
        assert(s.push(b).drop_first() =~= Seq::<u8>::empty());
        assert(s.push(b)[0] == b);
        assert(first_small(Seq::<u8>::empty()) == 0);
        assert(first_small(s.push(b)) == if b < 128 { 0 } else { 1 + first_small(s.push(b).drop_first()) });
    }
}

proof fn lemma_value_push(s: Seq<u8>, b: u8)
    ensures
        se_value(s.push(b)) == se_value(s) + low7(b) * pow128(s.len()),
    decreases s.len(),
{
    if s.len() == 0 {
        assert(s.push(b).drop_first() =~= Seq::<u8>::empty());
        assert(pow128(0) == 1);
        assert(s.push(b)[0] == b);
        assert(se_value(s.push(b)) == low7(b) + 128 * se_value(s.push(b).drop_first()));
    } else {
        assert(s.push(b).drop_first() =~= s.drop_first().push(b));
        assert(s.push(b)[0] == s[0]);
        lemma_value_push(s.drop_first(), b);
        assert(pow128(s.len()) == 128 * pow128((s.len() - 1) as nat));
        assert(128 * (low7(b) * pow128((s.len() - 1) as nat)) == low7(b) * pow128(s.len())) by (nonlinear_arith)
            requires pow128(s.len()) == 128 * pow128((s.len() - 1) as nat);
    }
}

/// 128 to the power `k`.
pub open spec fn pow128(k: nat) -> nat
    decreases k,
{
    if k == 0 { 1 } else { 128 * pow128((k - 1) as nat) }
}

proof fn lemma_encode_props(n: nat, k: nat)
    requires
        n < pow128(k),
        k > 0,
    ensures
        se_encode(n).len() <= k,
        se_encode(n).len() >= 1,
        se_value(se_encode(n)) == n,
        first_small(se_encode(n)) == se_encode(n).len() - 1,
    decreases n,
{
    if n < 128 {
        let e = se_encode(n);
        assert(e.drop_first() =~= Seq::<u8>::empty());
        assert(first_small(e) == 0);
        assert(low7(e[0]) == n);
        assert(se_value(e.drop_first()) == 0);
        assert(se_value(e) == low7(e[0]) + 128 * se_value(e.drop_first()));
    } else {
        assert(k > 1) by {
            if k == 1 { assert(pow128(1) == 128 * pow128(0)); }
        }
        assert(n / 128 < pow128((k - 1) as nat)) by {
            assert(pow128(k) == 128 * pow128((k - 1) as nat));
        }
        lemma_encode_props(n / 128, (k - 1) as nat);
        let e = se_encode(n);
        assert(e.drop_first() =~= se_encode(n / 128));
        assert(e[0] == (128 + n % 128) as u8);
        assert(low7(e[0]) == n % 128);
        assert(se_value(e) == low7(e[0]) + 128 * se_value(e.drop_first()));
        assert(e[0] >= 128);
        assert(first_small(e) == 1 + first_small(e.drop_first()));
    }
}

/// Encode `to_se` as described by `se_encode`.
pub fn std_se_encoding(to_se: usize) -> (ret: Vec<u8>)
    ensures
        ret@ == se_encode(to_se as nat),
        1 <= ret@.len() <= se_limit(),
{
    let mut to_se = to_se;
    let ghost orig = to_se as nat;
    let mut ret: Vec<u8> = Vec::new();
    if to_se == 0 {
        ret.push(0x00);
        return ret;
    }
    proof {
        lemma_pow128_bound();
        lemma_encode_props(orig, se_limit());
    }
    while to_se > 0
        invariant
            to_se > 0 ==> ret@ + se_encode(to_se as nat) == se_encode(orig),
            to_se == 0 ==> ret@ == se_encode(orig),
            se_encode(orig).len() <= se_limit(),
        decreases to_se,
    {
        let ghost before = to_se;
        if to_se < (MIN_BIG_BYTE as usize) {
            ret.push(to_se as u8);
            assert(to_se >> 7 == 0) by (bit_vector) requires to_se < 128usize;
            to_se = to_se >> SHIFT;
            assert(se_encode(before as nat) =~= seq![before as u8]);
            assert(ret@ =~= se_encode(orig));
        } else {
            let low = to_se & (MAX_SMALL_BYTE as usize);
            assert(low == to_se % 128) by (bit_vector) requires low == to_se & 127usize;
            assert(MIN_BIG_BYTE | (low as u8) == 128 + low) by (bit_vector) requires low < 128usize;
            ret.push(MIN_BIG_BYTE | (low as u8));
            assert(to_se >> 7 == to_se / 128) by (bit_vector);
            to_se = to_se >> SHIFT;
            assert(se_encode(before as nat) =~= seq![(128 + before % 128) as u8] + se_encode(to_se as nat));
            assert(ret@ + se_encode(to_se as nat) =~= se_encode(orig));
        }
    }
    ret
}

fn se_limit_exec() -> (r: usize)
    ensures r as nat == se_limit(),
{
    if usize::BITS == 32 { 5 } else { 10 }
}

proof fn lemma_pow128_bound()
    ensures
        pow128(se_limit()) > usize::MAX,
        se_limit() <= 10,
{
    reveal_with_fuel(pow128, 11);
}

/// The encoding of a `usize` takes one to `se_limit()` bytes.
pub proof fn lemma_se_encode_len_bound(n: usize)
    ensures
        1 <= se_encode(n as nat).len() <= se_limit(),
        se_limit() <= 10,
        forall|i: int| 0 <= i < se_encode(n as nat).len() - 1 ==> #[trigger] se_encode(n as nat)[i] >= 0x80,
{
    lemma_pow128_bound();
    lemma_encode_props(n as nat, se_limit());
    lemma_first_small_props(se_encode(n as nat));
}

/// Most bytes that the decoder takes for a value of `usize`.
pub fn se_max_len() -> (r: usize)
    ensures
        r == se_limit(),
{
    if usize::BITS == 32 { 5 } else { 10 }
}

/// Decode a space-efficient sequence; see `se_decode` for the result and
/// `se_decode_in_range` for the inputs on which the decoder stays in range.
pub fn std_se_decoding(bytes: &[u8]) -> (ret: Option<usize>)
    requires
        se_decode_in_range(bytes@),
    ensures
        ret == se_decode(bytes@),
{
    let mut acc: u128 = 0;
    let mut cur_sh: usize = 0;
    let mut started = false;
    let mut previous_is_last = false;
    let mut i: usize = 0;
    proof { lemma_first_small_props(bytes@); lemma_pow128_bound(); }
    while i < bytes.len()
        invariant
            i <= bytes@.len(),
            se_decode_in_range(bytes@),
            cur_sh == 7 * i,
            i <= se_limit(),
            started == (i > 0),
            previous_is_last == (first_small(bytes@.take(i as int)) < i),
            forall|j: int| first_small(bytes@.take(i as int)) < j < i ==> bytes@[j] == 0,
            acc == se_value(bytes@.take(i as int)),
            acc < pow128(i as nat),
        decreases bytes@.len() - i,
    {
        let x = bytes[i];
        let ghost pre = bytes@.take(i as int);
        proof {
            assert(bytes@.take(i + 1) =~= pre.push(x));
            lemma_first_small_push(pre, x);
            lemma_value_push(pre, x);
            lemma_first_small_props(pre);
        }
        if previous_is_last && x != 0x00 {
            proof {
                lemma_first_small_props(bytes@);
                first_small_prefix(bytes@, i as nat);
            }
            return None;
        }
        if i == se_limit_exec() {
            proof {
                first_small_prefix(bytes@, i as nat);
                assert forall|j: int| first_small(bytes@) < j <= se_limit() implies bytes@[j] == 0 by {
                    if j < i { assert(bytes@.take(i as int)[j] == bytes@[j]); }
                }
            }
            assert(false);
        }
        let v: u8 = if x < MIN_BIG_BYTE { previous_is_last = true; x } else { x & MAX_SMALL_BYTE };
        assert(v as nat == low7(x)) by {
            if x >= 128 { assert(x & 127u8 == x % 128) by (bit_vector); }
        }
        proof { lemma_pow128_small(i as nat); }
        let p = pow128_exec(i);
        assert(acc + v * p < 128 * p) by (nonlinear_arith)
            requires acc < p, v < 128;
        assert(128 * p <= 128 * 0x8000_0000_0000_0000) by (nonlinear_arith)
            requires p <= 0x8000_0000_0000_0000;
        acc = acc + (v as u128) * p;
        cur_sh = cur_sh + SHIFT;
        started = true;
        i = i + 1;
        proof {
            assert(pow128(i as nat) == 128 * pow128((i - 1) as nat));
        }
    }
    proof {
        assert(bytes@.take(i as int) =~= bytes@);
    }
    if !started { return None }
    if !previous_is_last { return None }
    proof {
        lemma_first_small_props(bytes@);
    }
    let m: u128 = usize::MAX as u128 + 1;
    let r = (acc % m) as usize;
    Some(r)
}

proof fn first_small_prefix(s: Seq<u8>, k: nat)
    requires
        k <= s.len(),
    ensures
        first_small(s.take(k as int)) < k ==> first_small(s) == first_small(s.take(k as int)),
        first_small(s.take(k as int)) >= k ==> first_small(s) >= k,
    decreases k,
{
    if k > 0 {
        let t = s.take(k as int);
        if s[0] >= 128 {
            assert(t.drop_first() =~= s.drop_first().take(k - 1));
            first_small_prefix(s.drop_first(), (k - 1) as nat);
        }
    }
}

proof fn lemma_pow128_small(i: nat)
    requires
        i <= 9,
    ensures
        pow128(i) <= pow128(9),
        pow128(9) == 0x8000_0000_0000_0000,
    decreases 9 - i,
{
    reveal_with_fuel(pow128, 10);
    if i < 9 {
        lemma_pow128_small(i + 1);
        assert(pow128(i + 1) == 128 * pow128(i));
    }
}

fn pow128_exec(i: usize) -> (r: u128)
    requires
        i <= 9,
    ensures
        r == pow128(i as nat),
{
    let mut r: u128 = 1;
    let mut k: usize = 0;
    proof { lemma_pow128_small(i as nat); }
    while k < i
        invariant
            k <= i <= 9,
            r == pow128(k as nat),
            pow128(i as nat) <= pow128(9),
        decreases i - k,
    {
        proof {
            lemma_pow128_small(k as nat + 1);
            assert(pow128(k as nat + 1) == 128 * pow128(k as nat));
        }
        r = r * 128;
        k = k + 1;
    }
    r
}

/// Decoding an encoding gives back the encoded number.
pub proof fn lemma_se_roundtrip(n: usize)
    ensures
        se_decode_in_range(se_encode(n as nat)),
        se_decode(se_encode(n as nat)) == Some(n),
{
    lemma_pow128_bound();
    lemma_encode_props(n as nat, se_limit());
    let e = se_encode(n as nat);
    lemma_first_small_props(e);
    vstd::arithmetic::div_mod::lemma_small_mod(n as nat, usize::MAX as nat + 1);
}

}
