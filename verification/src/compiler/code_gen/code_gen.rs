use vstd::prelude::*;
use crate::general::text::{string_push, chars_to_string};

verus! {

// ---------------------------------------------------------------------
// [+] meaning of the generated code on one cell

/// One command on the value of the current cell: `0` clears it, `+` adds
/// one, `*` doubles it (both modulo 256); other commands leave it.
pub open spec fn cell_step(x: nat, c: char) -> nat {
    if c == '0' { 0 } else if c == '+' { (x + 1) % 256 } else if c == '*' { (2 * x) % 256 } else { x }
}

/// The value of the current cell after `cmds`, from `x`.
pub open spec fn eval_cell(cmds: Seq<char>, x: nat) -> nat
    decreases cmds.len(),
{
    if cmds.len() == 0 { x } else { cell_step(eval_cell(cmds.drop_last(), x), cmds.last()) }
}

pub proof fn lemma_eval_cell_concat(a: Seq<char>, b: Seq<char>, x: nat)
    ensures
        eval_cell(a + b, x) == eval_cell(b, eval_cell(a, x)),
    decreases b.len(),
{
    if b.len() == 0 {
        assert(a + b =~= a);
    } else {
        assert((a + b).drop_last() =~= a + b.drop_last());
        lemma_eval_cell_concat(a, b.drop_last(), x);
    }
}

/// The commands after the first `+` that build `v` (at least 1) from 1:
/// for each bit of `v` below its highest, from the highest down, a `*`,
/// and a `+` where the bit is 1.
pub open spec fn set_cell_bits(v: nat) -> Seq<char>
    decreases v,
{
    if v <= 1 {
        seq![]
    } else {
        set_cell_bits(v / 2) + seq!['*'] + (if v % 2 == 1 { seq!['+'] } else { seq![] })
    }
}

/// The code that `add_cgen_set_cell_value` emits for `value`.
pub open spec fn spec_set_cell_cmds(value: u8, need_nullify: bool) -> Seq<char> {
    (if need_nullify { seq!['0'] } else { seq![] })
        + (if value > 0 { seq!['+'] + set_cell_bits(value as nat) } else { seq![] })
}

proof fn lemma_eval_head(acc: nat, bit: bool)
    requires
        2 * acc + 1 < 256,
    ensures
        eval_cell(seq!['*'] + (if bit { seq!['+'] } else { seq![] }), acc) == 2 * acc + (if bit { 1nat } else { 0nat }),
{
    let head = seq!['*'] + (if bit { seq!['+'] } else { seq![] });
    assert(seq!['*'].drop_last() =~= Seq::<char>::empty());
    assert(eval_cell(Seq::<char>::empty(), acc) == acc);
    assert(seq!['*'].last() == '*');
    assert(eval_cell(seq!['*'], acc) == 2 * acc);
    if bit {
        assert(head.drop_last() =~= seq!['*']);
        assert(head.last() == '+');
    } else {
        assert(head =~= seq!['*']);
    }
}

/// From a zero cell, `+` and then the commands for `v` leave `v`.
proof fn lemma_set_cell_bits_eval(v: nat)
    requires
        1 <= v < 256,
    ensures
        eval_cell(seq!['+'] + set_cell_bits(v), 0) == v,
    decreases v,
{
    assert(seq!['+'].drop_last() =~= Seq::<char>::empty());
    assert(eval_cell(Seq::<char>::empty(), 0) == 0);
    assert(eval_cell(seq!['+'], 0) == 1);
    if v == 1 {
        assert(seq!['+'] + set_cell_bits(v) =~= seq!['+']);
    } else {
        let bit = v % 2 == 1;
        let head = seq!['*'] + (if bit { seq!['+'] } else { seq![] });
        lemma_set_cell_bits_eval(v / 2);
        assert(seq!['+'] + set_cell_bits(v) =~= (seq!['+'] + set_cell_bits(v / 2)) + head);
        lemma_eval_cell_concat(seq!['+'] + set_cell_bits(v / 2), head, 0);
        lemma_eval_head(v / 2, bit);
    }
}

/// Two to the power `k`.
pub open spec fn pow2(k: nat) -> nat
    decreases k,
{
    if k == 0 { 1 } else { 2 * pow2((k - 1) as nat) }
}

/// The commands for a value below `2^k` are at most `2 (k - 1)` long, and
/// are `+` and `*` only.
pub proof fn lemma_set_cell_bits_len(v: nat, k: nat)
    requires
        1 <= v < pow2(k),
    ensures
        k >= 1,
        set_cell_bits(v).len() <= 2 * (k - 1),
        forall|i: int| 0 <= i < set_cell_bits(v).len() ==> #[trigger] set_cell_bits(v)[i] == '+' || set_cell_bits(v)[i] == '*',
    decreases v,
{
    if k == 0 { assert(pow2(0) == 1); }
    if v >= 2 {
        let k1 = (k - 1) as nat;
        assert(pow2(k) == 2 * pow2(k1));
        lemma_set_cell_bits_len(v / 2, k1);
        let head: Seq<char> = seq!['*'] + (if v % 2 == 1 { seq!['+'] } else { seq![] });
        assert(set_cell_bits(v) == set_cell_bits(v / 2) + head);
        assert forall|i: int| 0 <= i < set_cell_bits(v).len() implies #[trigger] set_cell_bits(v)[i] == '+' || set_cell_bits(v)[i] == '*' by {
            if i < set_cell_bits(v / 2).len() { assert(set_cell_bits(v)[i] == set_cell_bits(v / 2)[i]); }
        }
    }
}

/// Law: the code generated to set a cell, with clearing, leaves exactly
/// `value` in the cell, whatever it held; without clearing it does so from
/// a zero cell.
pub proof fn lemma_set_cell_value_result(value: u8, x: nat)
    ensures
        eval_cell(spec_set_cell_cmds(value, true), x) == value,
        eval_cell(spec_set_cell_cmds(value, false), 0) == value,
{
    let body = if value > 0 { seq!['+'] + set_cell_bits(value as nat) } else { seq![] };
    assert(spec_set_cell_cmds(value, true) == seq!['0'] + body);
    assert(spec_set_cell_cmds(value, false) =~= body);
    lemma_eval_cell_concat(seq!['0'], body, x);
    assert(seq!['0'].drop_last() =~= Seq::<char>::empty());
    assert(eval_cell(Seq::<char>::empty(), x) == x);
    assert(seq!['0'].last() == '0');
    assert(eval_cell(seq!['0'], x) == 0);
    if value > 0 {
        lemma_set_cell_bits_eval(value as nat);
    } else {
        assert(eval_cell(Seq::<char>::empty(), 0) == 0);
    }
}

/// Law: no value's cell-setting code is longer than the longest one, that
/// of `0xFF` with clearing.
pub proof fn lemma_set_cell_max_len(value: u8, need_nullify: bool)
    ensures
        spec_set_cell_cmds(value, need_nullify).len() <= spec_set_cell_cmds(0xFF, true).len(),
        spec_set_cell_cmds(0xFF, true).len() == 16,
{
    assert(pow2(8) == 256) by { reveal_with_fuel(pow2, 9); }
    assert(set_cell_bits(255).len() == 14) by { reveal_with_fuel(set_cell_bits, 9); }
    assert(spec_set_cell_cmds(0xFF, true).len() == 1 + (1 + set_cell_bits(255).len()));
    let nn: Seq<char> = if need_nullify { seq!['0'] } else { seq![] };
    if value > 0 {
        lemma_set_cell_bits_len(value as nat, 8);
        assert(spec_set_cell_cmds(value, need_nullify) == nn + (seq!['+'] + set_cell_bits(value as nat)));
    } else {
        assert(spec_set_cell_cmds(value, need_nullify) =~= nn);
    }
}

// [-] meaning of the generated code on one cell
// ---------------------------------------------------------------------

/// The longest code that sets a cell: that for 0xFF, with clearing.
pub fn cgen_set_cell_max_cmds() -> (s: String)
    ensures
        s@ == spec_set_cell_cmds(0xFF, true),
{
    cgen_set_cell_value(0xFF, true)
}

/// Code that leaves `value` in the current cell, clearing it first if
/// asked.
pub fn cgen_set_cell_value(value: u8, need_nullify: bool) -> (s: String)
    ensures
        s@ == spec_set_cell_cmds(value, need_nullify),
{
    let mut ret = String::new();
    add_cgen_set_cell_value(&mut ret, value, need_nullify);
    ret
}

/// Append to `cgen` the code that sets the current cell from `value`.
pub fn add_cgen_set_cell_value(cgen: &mut String, value: u8, need_nullify: bool)
    ensures
        final(cgen)@ == old(cgen)@ + spec_set_cell_cmds(value, need_nullify),
{
    let ghost target = old(cgen)@ + spec_set_cell_cmds(value, need_nullify);
    if need_nullify { string_push(cgen, '0'); }
    if value == 0 {
        assert(cgen@ =~= target);
        return;
    }
    // the highest bit of `value`
    let mut d: u8 = 128;
    while value / d == 0
        invariant
            value > 0,
            d == 1 || d == 2 || d == 4 || d == 8 || d == 16 || d == 32 || d == 64 || d == 128,
            d == 128 || value as int / (d as int * 2) == 0,
        decreases d,
    {
        d = d / 2;
    }
    string_push(cgen, '+');
    proof {
        vstd::arithmetic::div_mod::lemma_div_denominator(value as int, d as int, 2);
        if d == 128 { assert(value as int / 256 == 0); }
    }
    assert(value / d == 1);
    assert(set_cell_bits(1) =~= Seq::<char>::empty());
    while d > 1
        invariant
            d == 1 || d == 2 || d == 4 || d == 8 || d == 16 || d == 32 || d == 64 || d == 128,
            value / d >= 1,
            cgen@ == old(cgen)@ + (if need_nullify { seq!['0'] } else { seq![] }) + seq!['+'] + set_cell_bits((value / d) as nat),
        decreases d,
    {
        let ghost before = cgen@;
        let h = d / 2;
        proof { vstd::arithmetic::div_mod::lemma_div_denominator(value as int, h as int, 2); }
        assert(value / h / 2 == value / d && value / h >= 2);
        string_push(cgen, '*');
        if (value / h) % 2 == 1 { string_push(cgen, '+'); }
        assert(cgen@ =~= old(cgen)@ + (if need_nullify { seq!['0'] } else { seq![] }) + seq!['+'] + set_cell_bits((value / h) as nat));
        d = h;
    }
    assert(cgen@ =~= target);
}

/// `n` copies of `c`.
pub open spec fn repeat_char(c: char, n: nat) -> Seq<char>
    decreases n,
{
    if n == 0 { seq![] } else { repeat_char(c, (n - 1) as nat).push(c) }
}

/// Code that moves the cell pointer by `shift` cells: `>` for each step
/// forward, `<` for each step back.
pub fn cgen_shift_cell_ptr(shift: i32) -> (s: String)
    requires
        shift > i32::MIN,
    ensures
        s@ == if shift >= 0 { repeat_char('>', shift as nat) } else { repeat_char('<', (-shift) as nat) },
{
    let mut ret = String::new();
    let (c, n): (char, u32) = if shift >= 0 { ('>', shift as u32) } else { ('<', (-shift) as u32) };
    let mut i: u32 = 0;
    while i < n
        invariant
            i <= n,
            ret@ == repeat_char(c, i as nat),
        decreases n - i,
    {
        string_push(&mut ret, c);
        i = i + 1;
    }
    ret
}

/// Append the code that creates a cell: `c`.
pub fn add_cgen_cell_create(cgen: &mut String)
    ensures
        final(cgen)@ == old(cgen)@.push('c'),
{
    string_push(cgen, 'c');
}

/// `[0<]`: with the pointer on the last of a run of non-zero cells after a
/// zero cell, clears the run and stops on that zero cell.
pub open spec fn spec_zero_while_not_zero() -> Seq<char> { seq!['[', '0', '<', ']'] }

/// `[<]>`: from inside a run of non-zero cells after a zero cell, moves to
/// the first cell of the run.
pub open spec fn spec_move_to_next_after_left_zero() -> Seq<char> { seq!['[', '<', ']', '>'] }

/// `[>]<`: from inside a run of non-zero cells before a zero cell, moves to
/// the last cell of the run.
pub open spec fn spec_move_to_prev_before_right_zero() -> Seq<char> { seq!['[', '>', ']', '<'] }

fn push4(cgen: &mut String, a: char, b: char, c: char, d: char)
    ensures
        final(cgen)@ == old(cgen)@ + seq![a, b, c, d],
{
    string_push(cgen, a);
    string_push(cgen, b);
    string_push(cgen, c);
    string_push(cgen, d);
    assert(cgen@ =~= old(cgen)@ + seq![a, b, c, d]);
}

/// The code `[0<]`.
pub fn cgen_zero_while_not_zero() -> (s: String)
    ensures
        s@ == spec_zero_while_not_zero(),
{
    let mut ret = String::new();
    add_cgen_zero_while_not_zero(&mut ret);
    assert(ret@ =~= spec_zero_while_not_zero());
    ret
}

pub fn add_cgen_zero_while_not_zero(cgen: &mut String)
    ensures
        final(cgen)@ == old(cgen)@ + spec_zero_while_not_zero(),
{
    push4(cgen, '[', '0', '<', ']');
}

/// The code `[<]>`.
pub fn cgen_move_to_next_after_left_zero() -> (s: String)
    ensures
        s@ == spec_move_to_next_after_left_zero(),
{
    let mut ret = String::new();
    add_cgen_move_to_next_after_left_zero(&mut ret);
    assert(ret@ =~= spec_move_to_next_after_left_zero());
    ret
}

pub fn add_cgen_move_to_next_after_left_zero(cgen: &mut String)
    ensures
        final(cgen)@ == old(cgen)@ + spec_move_to_next_after_left_zero(),
{
    push4(cgen, '[', '<', ']', '>');
}

/// The code `[>]<`.
pub fn cgen_move_to_prev_before_right_zero() -> (s: String)
    ensures
        s@ == spec_move_to_prev_before_right_zero(),
{
    let mut ret = String::new();
    add_cgen_move_to_prev_before_right_zero(&mut ret);
    assert(ret@ =~= spec_move_to_prev_before_right_zero());
    ret
}

pub fn add_cgen_move_to_prev_before_right_zero(cgen: &mut String)
    ensures
        final(cgen)@ == old(cgen)@ + spec_move_to_prev_before_right_zero(),
{
    push4(cgen, '[', '>', ']', '<');
}

/// Code that writes a space-efficient sequence into consecutive cells:
/// each byte's setting code, then `>` after each continuation byte.
pub open spec fn spec_init_se_cmds(se: Seq<u8>, need_nullify: bool) -> Seq<char>
    decreases se.len(),
{
    if se.len() == 0 {
        seq![]
    } else {
        spec_init_se_cmds(se.drop_last(), need_nullify) + spec_set_cell_cmds(se.last(), need_nullify)
            + (if se.last() >= 0x80 { seq!['>'] } else { seq![] })
    }
}

/// Append the code that writes `se` into cells from the current one on.
/// No byte may follow the first byte below 0x80.
pub fn add_cgen_init_se_cem(cgen: &mut String, se: Vec<u8>, need_nullify: bool)
    requires
        forall|i: int| 0 <= i < se@.len() - 1 ==> se@[i] >= 0x80,
    ensures
        final(cgen)@ == old(cgen)@ + spec_init_se_cmds(se@, need_nullify),
{
    let mut i: usize = 0;
    while i < se.len()
        invariant
            i <= se@.len(),
            cgen@ == old(cgen)@ + spec_init_se_cmds(se@.take(i as int), need_nullify),
        decreases se@.len() - i,
    {
        let se_num = se[i];
        add_cgen_set_cell_value(cgen, se_num, need_nullify);
        if se_num >= 0x80 { string_push(cgen, '>'); }
        assert(se@.take(i as int + 1).drop_last() =~= se@.take(i as int));
        i = i + 1;
        assert(cgen@ =~= old(cgen)@ + spec_init_se_cmds(se@.take(i as int), need_nullify));
    }
    assert(se@.take(se@.len() as int) =~= se@);
}

}
