use vstd::prelude::*;
use crate::general::text::string_push_str;
use super::code_gen::code_gen::{spec_set_cell_cmds, add_cgen_set_cell_value, add_cgen_cell_create, cgen_shift_cell_ptr, repeat_char,
    set_cell_bits, pow2, lemma_set_cell_bits_len};

verus! {

/// The bytes to put, at the start, after main-memory cells ("mmc": main
/// memory cell, counted from 0), and where the plain and the screen
/// parameters go.
pub struct MemInit {
    param_pos_just: Option<usize>,
    param_pos_win: Option<usize>,
    /// by cell, in increasing order
    mem_init: Vec<(usize, Vec<u8>)>,
}

/// Whether some entry is for cell `k`.
pub open spec fn has_key(es: Seq<(usize, Vec<u8>)>, k: usize) -> bool {
    exists|i: int| 0 <= i < es.len() && es[i].0 == k
}

/// The bytes of the entry for cell `k` (none when there is no entry).
pub open spec fn bytes_of(es: Seq<(usize, Vec<u8>)>, k: usize) -> Seq<u8> {
    if has_key(es, k) { es[choose|i: int| 0 <= i < es.len() && es[i].0 == k].1@ } else { seq![] }
}

/// Cells in strictly increasing order.
pub open spec fn sorted_keys(es: Seq<(usize, Vec<u8>)>) -> bool {
    forall|i: int, j: int| 0 <= i < j < es.len() ==> es[i].0 < es[j].0
}

proof fn lemma_bytes_of_at(es: Seq<(usize, Vec<u8>)>, i: int)
    requires
        sorted_keys(es),
        0 <= i < es.len(),
    ensures
        has_key(es, es[i].0),
        bytes_of(es, es[i].0) == es[i].1@,
{
    let j = choose|j: int| 0 <= j < es.len() && es[j].0 == es[i].0;
    if j < i { assert(es[j].0 < es[i].0); }
    if j > i { assert(es[i].0 < es[j].0); }
}

// ---------------------------------------------------------------------
// [+] generated code

/// Code that moves the pointer by `d` cells.
pub open spec fn shift_text(d: int) -> Seq<char> {
    if d >= 0 { repeat_char('>', d as nat) } else { repeat_char('<', (-d) as nat) }
}

/// For each byte: create a cell, and set it from the byte.
pub open spec fn cells_text(vals: Seq<u8>) -> Seq<char>
    decreases vals.len(),
{
    if vals.len() == 0 {
        seq![]
    } else {
        cells_text(vals.drop_last()) + seq!['c'] + spec_set_cell_cmds(vals.last(), false)
    }
}

/// The code for the entries `es`, the pointer standing after cell `prev`:
/// for each non-empty entry, move to its cell and create its bytes.
pub open spec fn entries_text(es: Seq<(usize, Vec<u8>)>, prev: int) -> Seq<char>
    decreases es.len(),
{
    if es.len() == 0 {
        seq![]
    } else if es[0].1@.len() == 0 {
        entries_text(es.drop_first(), prev)
    } else {
        shift_text(es[0].0 - prev) + cells_text(es[0].1@) + entries_text(es.drop_first(), es[0].0 as int)
    }
}

/// How far back the pointer must go after `entries_text(es, prev)`.
pub open spec fn entries_back(es: Seq<(usize, Vec<u8>)>, prev: int) -> int
    decreases es.len(),
{
    if es.len() == 0 {
        0
    } else if es[0].1@.len() == 0 {
        entries_back(es.drop_first(), prev)
    } else {
        (es[0].0 - prev) + es[0].1@.len() + entries_back(es.drop_first(), es[0].0 as int)
    }
}

proof fn lemma_entries_back_ge(es: Seq<(usize, Vec<u8>)>, prev: int)
    requires
        forall|i: int| 0 <= i < es.len() ==> prev <= es[i].0,
        sorted_keys(es),
    ensures
        entries_back(es, prev) >= 0,
        forall|i: int| 0 <= i < es.len() && es[i].1@.len() > 0 ==> es[i].0 - prev <= entries_back(es, prev),
    decreases es.len(),
{
    if es.len() > 0 {
        let r = es.drop_first();
        assert(sorted_keys(r));
        if es[0].1@.len() == 0 {
            lemma_entries_back_ge(r, prev);
            assert forall|i: int| 0 <= i < es.len() && es[i].1@.len() > 0 implies es[i].0 - prev <= entries_back(es, prev) by {
                if i > 0 { assert(r[i - 1] == es[i]); }
            }
        } else {
            lemma_entries_back_ge(r, es[0].0 as int);
            assert forall|i: int| 0 <= i < es.len() && es[i].1@.len() > 0 implies es[i].0 - prev <= entries_back(es, prev) by {
                if i > 0 { assert(r[i - 1] == es[i]); }
            }
        }
    }
}

fn push_cells(ret: &mut String, vals: &Vec<u8>)
    ensures
        final(ret)@ == old(ret)@ + cells_text(vals@),
{
    let mut i: usize = 0;
    while i < vals.len()
        invariant
            i <= vals@.len(),
            ret@ == old(ret)@ + cells_text(vals@.take(i as int)),
        decreases vals@.len() - i,
    {
        let ghost before = ret@;
        add_cgen_cell_create(ret);
        add_cgen_set_cell_value(ret, vals[i], false);
        assert(vals@.take(i as int + 1).drop_last() =~= vals@.take(i as int));
        i = i + 1;
        assert(ret@ =~= old(ret)@ + cells_text(vals@.take(i as int)));
    }
    assert(vals@.take(vals@.len() as int) =~= vals@);
}

// [-] generated code
// ---------------------------------------------------------------------

impl MemInit {
    pub closed spec fn wf(&self) -> bool {
        sorted_keys(self.mem_init@)
    }

    pub closed spec fn spec_entries(&self) -> Seq<(usize, Vec<u8>)> {
        self.mem_init@
    }

    pub closed spec fn spec_just_pos(&self) -> Option<usize> { self.param_pos_just }
    pub closed spec fn spec_win_pos(&self) -> Option<usize> { self.param_pos_win }

    /// Whether cell `mmc` has an entry.
    pub closed spec fn spec_has(&self, mmc: usize) -> bool {
        has_key(self.mem_init@, mmc)
    }

    /// The bytes after cell `mmc` (none when it has no entry).
    pub closed spec fn spec_bytes(&self, mmc: usize) -> Seq<u8> {
        bytes_of(self.mem_init@, mmc)
    }

    /// Number of cells with an entry.
    /// The code that builds this initial memory.
    pub open spec fn spec_code_gen(&self) -> Seq<char> {
        entries_text(self.spec_entries(), 0) + shift_text(-entries_back(self.spec_entries(), 0))
    }

    pub closed spec fn spec_len(&self) -> nat {
        self.mem_init@.len()
    }

    pub fn new() -> (r: Self)
        ensures
            r.wf(),
            r.spec_len() == 0,
            forall|k: usize| !r.spec_has(k),
            r.spec_just_pos() is None,
            r.spec_win_pos() is None,
    {
        Self { param_pos_just: None, param_pos_win: None, mem_init: Vec::new() }
    }

    /// Index of the entry of cell `mmc`, if any.
    fn find(&self, mmc: usize) -> (r: Result<usize, usize>)
        requires
            self.wf(),
        ensures
            match r {
                Ok(i) => i < self.mem_init@.len() && self.mem_init@[i as int].0 == mmc,
                Err(i) => i <= self.mem_init@.len()
                    && (forall|j: int| 0 <= j < i ==> self.mem_init@[j].0 < mmc)
                    && (forall|j: int| i <= j < self.mem_init@.len() ==> self.mem_init@[j].0 > mmc),
            },
            r is Err <==> !has_key(self.mem_init@, mmc),
    {
        let mut i: usize = 0;
        while i < self.mem_init.len()
            invariant
                i <= self.mem_init@.len(),
                sorted_keys(self.mem_init@),
                forall|j: int| 0 <= j < i ==> self.mem_init@[j].0 < mmc,
            decreases self.mem_init@.len() - i,
        {
            let k = self.mem_init[i].0;
            if k == mmc { return Ok(i) }
            if k > mmc {
                assert forall|j: int| i <= j < self.mem_init@.len() implies self.mem_init@[j].0 > mmc by {
                    if j > i { assert(self.mem_init@[i as int].0 < self.mem_init@[j].0); }
                }
                return Err(i)
            }
            i = i + 1;
        }
        Err(i)
    }

    pub fn is_empty(&self) -> (r: bool)
        ensures
            r == (self.spec_len() == 0),
    {
        self.mem_init.len() == 0
    }

    /// How many cells have an entry.
    pub fn len(&self) -> (r: usize)
        ensures
            r == self.spec_len(),
    {
        self.mem_init.len()
    }

    /// How many bytes go after cell `mmc`.
    pub fn len_in_mmc(&self, mmc: usize) -> (r: usize)
        requires
            self.wf(),
        ensures
            r == self.spec_bytes(mmc).len(),
    {
        match self.find(mmc) {
            Ok(i) => {
                proof { lemma_bytes_of_at(self.mem_init@, i as int); }
                self.mem_init[i].1.len()
            }
            Err(_) => 0,
        }
    }

    /// The bytes after cell `mmc`, if it has an entry.
    pub fn get_memory(&self, after_mmc: usize) -> (r: Option<&Vec<u8>>)
        requires
            self.wf(),
        ensures
            match r {
                Some(v) => self.spec_has(after_mmc) && v@ == self.spec_bytes(after_mmc),
                None => !self.spec_has(after_mmc),
            },
    {
        match self.find(after_mmc) {
            Ok(i) => {
                proof { lemma_bytes_of_at(self.mem_init@, i as int); }
                Some(&self.mem_init[i].1)
            }
            Err(_) => None,
        }
    }

    /// Make the bytes after cell `mmc` be `bytes`.
    fn set_bytes(&mut self, mmc: usize, bytes: Vec<u8>)
        requires
            old(self).wf(),
        ensures
            final(self).wf(),
            final(self).spec_has(mmc),
            final(self).spec_bytes(mmc) == bytes@,
            forall|k: usize| k != mmc ==> #[trigger] final(self).spec_bytes(k) == old(self).spec_bytes(k),
            forall|k: usize| k != mmc ==> #[trigger] final(self).spec_has(k) == old(self).spec_has(k),
            final(self).spec_len() == old(self).spec_len() + (if old(self).spec_has(mmc) { 0int } else { 1int }),
            final(self).spec_just_pos() == old(self).spec_just_pos(),
            final(self).spec_win_pos() == old(self).spec_win_pos(),
    {
        let ghost old_es = self.mem_init@;
        let ghost bv = bytes@;
        assert(old_es == old(self).mem_init@);
        match self.find(mmc) {
            Ok(i) => {
                self.mem_init.set(i, (mmc, bytes));
                proof {
                    let es = self.mem_init@;
                    assert(sorted_keys(es)) by {
                        assert forall|a: int, b: int| 0 <= a < b < es.len() implies es[a].0 < es[b].0 by {
                            assert(old_es[a].0 < old_es[b].0);
                        }
                    }
                    lemma_bytes_of_at(es, i as int);
                    assert forall|k: usize| k != mmc implies #[trigger] bytes_of(es, k) == bytes_of(old_es, k)
                        && has_key(es, k) == has_key(old_es, k) by {
                        if has_key(es, k) {
                            let j = choose|j: int| 0 <= j < es.len() && es[j].0 == k;
                            assert(old_es[j].0 == k);
                            lemma_bytes_of_at(es, j);
                            lemma_bytes_of_at(old_es, j);
                        } else if has_key(old_es, k) {
                            let j = choose|j: int| 0 <= j < old_es.len() && old_es[j].0 == k;
                            assert(es[j].0 == k);
                        }
                    }
                }
            }
            Err(i) => {
                self.mem_init.insert(i, (mmc, bytes));
                proof {
                    let es = self.mem_init@;
                    assert(sorted_keys(es)) by {
                        assert forall|a: int, b: int| 0 <= a < b < es.len() implies es[a].0 < es[b].0 by {
                            if a < i && b > i { assert(old_es[a].0 < mmc); assert(old_es[b - 1].0 > mmc); }
                            else if a < i && b == i { assert(old_es[a].0 < mmc); }
                            else if a == i { assert(old_es[b - 1].0 > mmc); }
                            else if a < i { assert(old_es[a].0 < old_es[b].0); }
                            else { assert(old_es[a - 1].0 < old_es[b - 1].0); }
                        }
                    }
                    lemma_bytes_of_at(es, i as int);
                    assert forall|k: usize| k != mmc implies #[trigger] bytes_of(es, k) == bytes_of(old_es, k)
                        && has_key(es, k) == has_key(old_es, k) by {
                        if has_key(es, k) {
                            let j = choose|j: int| 0 <= j < es.len() && es[j].0 == k;
                            lemma_bytes_of_at(es, j);
                            if j < i { assert(old_es[j].0 == k); lemma_bytes_of_at(old_es, j); }
                            if j > i { assert(old_es[j - 1].0 == k); lemma_bytes_of_at(old_es, j - 1); }
                        } else if has_key(old_es, k) {
                            let j = choose|j: int| 0 <= j < old_es.len() && old_es[j].0 == k;
                            if j < i { assert(es[j].0 == k); } else { assert(es[j + 1].0 == k); }
                        }
                    }
                }
            }
        }
        proof {
            let es = self.mem_init@;
            assert forall|k: usize| k != mmc implies #[trigger] self.spec_bytes(k) == old(self).spec_bytes(k) by {
                assert(bytes_of(es, k) == bytes_of(old_es, k));
            }
            assert forall|k: usize| k != mmc implies #[trigger] self.spec_has(k) == old(self).spec_has(k) by {
                assert(bytes_of(es, k) == bytes_of(old_es, k));
            }
        }
    }

    /// Put `byte` after all bytes already put after cell `after_mmc`.
    pub fn add_byte(&mut self, after_mmc: usize, byte: u8)
        requires
            old(self).wf(),
        ensures
            final(self).wf(),
            final(self).spec_has(after_mmc),
            final(self).spec_bytes(after_mmc) == old(self).spec_bytes(after_mmc).push(byte),
            forall|k: usize| k != after_mmc ==> #[trigger] final(self).spec_bytes(k) == old(self).spec_bytes(k),
            forall|k: usize| k != after_mmc ==> #[trigger] final(self).spec_has(k) == old(self).spec_has(k),
            final(self).spec_len() == old(self).spec_len() + (if old(self).spec_has(after_mmc) { 0int } else { 1int }),
            final(self).spec_just_pos() == old(self).spec_just_pos(),
            final(self).spec_win_pos() == old(self).spec_win_pos(),
    {
        let mut cur: Vec<u8> = match self.get_memory(after_mmc) {
            Some(v) => clone_bytes(v),
            None => Vec::new(),
        };
        cur.push(byte);
        self.set_bytes(after_mmc, cur);
    }

    /// Put the bytes, in order, after cell `after_mmc`.
    pub fn add_bytes(&mut self, after_mmc: usize, bytes: &[u8])
        requires
            old(self).wf(),
        ensures
            final(self).wf(),
            final(self).spec_bytes(after_mmc) == old(self).spec_bytes(after_mmc) + bytes@,
            forall|k: usize| k != after_mmc ==> #[trigger] final(self).spec_bytes(k) == old(self).spec_bytes(k),
            final(self).spec_just_pos() == old(self).spec_just_pos(),
            final(self).spec_win_pos() == old(self).spec_win_pos(),
    {
        let mut i: usize = 0;
        while i < bytes.len()
            invariant
                i <= bytes@.len(),
                self.wf(),
                self.spec_bytes(after_mmc) == old(self).spec_bytes(after_mmc) + bytes@.take(i as int),
                forall|k: usize| k != after_mmc ==> #[trigger] self.spec_bytes(k) == old(self).spec_bytes(k),
                self.spec_just_pos() == old(self).spec_just_pos(),
                self.spec_win_pos() == old(self).spec_win_pos(),
            decreases bytes@.len() - i,
        {
            self.add_byte(after_mmc, bytes[i]);
            assert(bytes@.take(i as int + 1) =~= bytes@.take(i as int).push(bytes@[i as int]));
            i = i + 1;
        }
        assert(bytes@.take(bytes@.len() as int) =~= bytes@);
    }

    /// Put `byte` among the plain parameters, if their place is set.
    pub fn add_just_param(&mut self, byte: u8) -> (r: bool)
        requires
            old(self).wf(),
        ensures
            final(self).wf(),
            r == old(self).spec_just_pos() is Some,
            match old(self).spec_just_pos() {
                Some(j) => final(self).spec_bytes(j) == old(self).spec_bytes(j).push(byte)
                    && forall|k: usize| k != j ==> #[trigger] final(self).spec_bytes(k) == old(self).spec_bytes(k),
                None => *final(self) == *old(self),
            },
            final(self).spec_just_pos() == old(self).spec_just_pos(),
            final(self).spec_win_pos() == old(self).spec_win_pos(),
    {
        match self.param_pos_just {
            Some(j_pos) => {
                self.add_byte(j_pos, byte);
                true
            }
            None => false,
        }
    }

    pub fn can_add_just_param(&self) -> (r: bool)
        ensures r == self.spec_just_pos() is Some,
    {
        self.param_pos_just.is_some()
    }

    pub fn can_add_win_param(&self) -> (r: bool)
        ensures r == self.spec_win_pos() is Some,
    {
        self.param_pos_win.is_some()
    }

    /// The cell of the screen parameters; it must be set.
    pub fn get_win_pos(&self) -> (r: usize)
        requires
            self.spec_win_pos() is Some,
        ensures
            Some(r) == self.spec_win_pos(),
    {
        self.param_pos_win.unwrap()
    }

    /// Set the cells of the plain and of the screen parameters: only while
    /// nothing is put, and only to two different cells.
    pub fn set_param_pos(&mut self, just_pos: usize, win_pos: usize) -> (r: bool)
        requires
            old(self).wf(),
        ensures
            final(self).wf(),
            r == (old(self).spec_len() == 0 && just_pos != win_pos),
            final(self).spec_entries() == old(self).spec_entries(),
            r ==> final(self).spec_just_pos() == Some(just_pos) && final(self).spec_win_pos() == Some(win_pos),
            !r ==> *final(self) == *old(self),
    {
        if !self.is_empty() { return false }
        if just_pos == win_pos { return false }
        self.param_pos_just = Some(just_pos);
        self.param_pos_win = Some(win_pos);
        true
    }

    /// How many bytes go after the screen cell; its place must be set.
    pub fn len_in_win_mmc(&self) -> (r: usize)
        requires
            self.wf(),
            self.spec_win_pos() is Some,
        ensures
            r == self.spec_bytes(self.spec_win_pos()->0).len(),
    {
        let w_pos = self.param_pos_win.unwrap();
        self.len_in_mmc(w_pos)
    }

    /// Take in another file's initial memory: a cell of `other` that
    /// already has bytes here is an error, given as `Some(cell)` (the cells
    /// of `other` before it are taken in already).
    pub fn merge(&mut self, other: Self) -> (r: Option<usize>)
        requires
            old(self).wf(),
            other.wf(),
        ensures
            final(self).wf(),
            final(self).spec_just_pos() == old(self).spec_just_pos(),
            final(self).spec_win_pos() == old(self).spec_win_pos(),
            r is None <==> (forall|k: usize| other.spec_has(k) ==> old(self).spec_bytes(k).len() == 0),
            r matches Some(k) ==> other.spec_has(k) && old(self).spec_bytes(k).len() != 0,
            r matches Some(k) ==> forall|k2: usize| k2 < k && other.spec_has(k2) ==> old(self).spec_bytes(k2).len() == 0,
            r matches Some(k) ==> forall|k2: usize| #[trigger] final(self).spec_bytes(k2)
                == (if other.spec_has(k2) && k2 < k { other.spec_bytes(k2) } else { old(self).spec_bytes(k2) }),
            r is None ==> forall|k: usize| #[trigger] final(self).spec_bytes(k)
                == (if other.spec_has(k) { other.spec_bytes(k) } else { old(self).spec_bytes(k) }),
    {
        let ghost oes = other.mem_init@;
        let es = other.mem_init;
        let mut i: usize = 0;
        while i < es.len()
            invariant
                i <= es@.len(),
                es@ == oes,
                oes == other.mem_init@,
                sorted_keys(oes),
                self.wf(),
                self.spec_just_pos() == old(self).spec_just_pos(),
                self.spec_win_pos() == old(self).spec_win_pos(),
                forall|j: int| 0 <= j < i ==> old(self).spec_bytes(#[trigger] oes[j].0).len() == 0,
                forall|k: usize| #[trigger] self.spec_bytes(k)
                    == (if has_key(oes.take(i as int), k) { bytes_of(oes, k) } else { old(self).spec_bytes(k) }),
            decreases es@.len() - i,
        {
            let mmc = es[i].0;
            proof {
                lemma_bytes_of_at(oes, i as int);
                assert(!has_key(oes.take(i as int), mmc)) by {
                    let t0 = oes.take(i as int);
                    if has_key(t0, mmc) {
                        let j = choose|j: int| 0 <= j < t0.len() && t0[j].0 == mmc;
                        assert(oes[j].0 < oes[i as int].0);
                    }
                }
            }
            if self.len_in_mmc(mmc) != 0 {
                proof {
                    assert(other.spec_has(mmc));
                    assert(!has_key(oes.take(i as int), mmc));
                    assert(self.spec_bytes(mmc) == old(self).spec_bytes(mmc));
                    assert(old(self).spec_bytes(mmc).len() != 0);
                    assert(!(forall|k: usize| other.spec_has(k) ==> old(self).spec_bytes(k).len() == 0));
                    assert forall|k2: usize| k2 < mmc && other.spec_has(k2) implies old(self).spec_bytes(k2).len() == 0 by {
                        let j = choose|j: int| 0 <= j < oes.len() && oes[j].0 == k2;
                        if j >= i { if j > i { assert(oes[i as int].0 < oes[j].0); } }
                    }
                    assert forall|k2: usize| #[trigger] self.spec_bytes(k2)
                        == (if other.spec_has(k2) && k2 < mmc { other.spec_bytes(k2) } else { old(self).spec_bytes(k2) }) by {
                        let t0 = oes.take(i as int);
                        if has_key(t0, k2) {
                            let j = choose|j: int| 0 <= j < t0.len() && t0[j].0 == k2;
                            assert(oes[j].0 < oes[i as int].0);
                            assert(oes[j].0 == k2);
                        }
                        if other.spec_has(k2) && k2 < mmc {
                            let j = choose|j: int| 0 <= j < oes.len() && oes[j].0 == k2;
                            if j >= i { if j > i { assert(oes[i as int].0 < oes[j].0); } }
                            assert(t0[j].0 == k2);
                        }
                    }
                }
                return Some(mmc);
            }
            let v = clone_bytes(&es[i].1);
            self.set_bytes(mmc, v);
            proof {
                assert forall|k: usize| #[trigger] self.spec_bytes(k)
                    == (if has_key(oes.take(i as int + 1), k) { bytes_of(oes, k) } else { old(self).spec_bytes(k) }) by {
                    if k == mmc {
                        assert(oes.take(i as int + 1)[i as int].0 == k);
                    } else {
                        let t1 = oes.take(i as int + 1);
                        let t0 = oes.take(i as int);
                        if has_key(t1, k) {
                            let j = choose|j: int| 0 <= j < t1.len() && t1[j].0 == k;
                            assert(j != i);
                            assert(t0[j].0 == k);
                        }
                        if has_key(t0, k) {
                            let j = choose|j: int| 0 <= j < t0.len() && t0[j].0 == k;
                            assert(t1[j].0 == k);
                        }
                    }
                }
            }
            i = i + 1;
        }
        proof {
            assert(oes.take(oes.len() as int) =~= oes);
            assert forall|k: usize| other.spec_has(k) implies old(self).spec_bytes(k).len() == 0 by {
                let j = choose|j: int| 0 <= j < oes.len() && oes[j].0 == k;
            }
        }
        None
    }

    /// Whether the code that builds the memory moves the pointer back by no
    /// more than `i32::MAX` cells (the largest shift it can write).
    pub fn code_gen_fits(&self) -> (r: bool)
        requires
            self.wf(),
        ensures
            r == (entries_back(self.spec_entries(), 0) <= i32::MAX),
    {
        let ghost es = self.mem_init@;
        let mut prev: usize = 0;
        let mut total: u128 = 0;
        let mut i: usize = 0;
        proof {
            lemma_entries_back_ge(es, 0);
            assert(es.skip(0) =~= es);
        }
        while i < self.mem_init.len()
            invariant
                i <= es.len(),
                es == self.mem_init@,
                sorted_keys(es),
                forall|j: int| i <= j < es.len() ==> prev <= es[j].0,
                total <= i32::MAX,
                total + entries_back(es.skip(i as int), prev as int) == entries_back(es, 0),
            decreases es.len() - i,
        {
            let ghost rest = es.skip(i as int);
            assert(rest.drop_first() =~= es.skip(i as int + 1));
            assert(rest[0] == es[i as int]);
            proof {
                assert(sorted_keys(rest));
                assert forall|j: int| 0 <= j < rest.len() implies prev <= rest[j].0 by { assert(rest[j] == es[i + j]); }
                lemma_entries_back_ge(rest, prev as int);
            }
            let mmc = self.mem_init[i].0;
            let len = self.mem_init[i].1.len();
            if len != 0 {
                proof {
                    assert forall|j: int| 0 <= j < rest.drop_first().len() implies mmc <= rest.drop_first()[j].0 by {
                        assert(rest.drop_first()[j] == es[i + 1 + j]);
                        assert(es[i as int].0 < es[i + 1 + j].0);
                    }
                    assert(sorted_keys(rest.drop_first()));
                    lemma_entries_back_ge(rest.drop_first(), mmc as int);
                }
                total = total + (mmc - prev) as u128 + len as u128;
                if total > i32::MAX as u128 { return false }
                prev = mmc;
                proof {
                    assert forall|j: int| i + 1 <= j < es.len() implies prev <= es[j].0 by {
                        assert(es[i as int].0 < es[j].0);
                    }
                }
            }
            i = i + 1;
        }
        proof { assert(es.skip(es.len() as int) =~= Seq::<(usize, Vec<u8>)>::empty()); }
        true
    }

    /// The code that builds the initial memory: for each cell with bytes,
    /// in increasing order, move there and, for each byte, create a cell and
    /// set it; then move back to the start.
    pub fn code_gen(&self) -> (s: String)
        requires
            self.wf(),
            entries_back(self.spec_entries(), 0) <= i32::MAX,
        ensures
            s@ == entries_text(self.spec_entries(), 0) + shift_text(-entries_back(self.spec_entries(), 0)),
            s@ == self.spec_code_gen(),
    {
        let mut ret = String::new();
        let mut prev_mmc: usize = 0;
        let mut need_back_shift: usize = 0;
        let ghost es = self.mem_init@;
        let mut i: usize = 0;
        proof {
            lemma_entries_back_ge(es, 0);
            assert(es.skip(0) =~= es);
        }
        while i < self.mem_init.len()
            invariant
                i <= es.len(),
                es == self.mem_init@,
                sorted_keys(es),
                entries_back(es, 0) <= i32::MAX,
                forall|j: int| i <= j < es.len() ==> prev_mmc <= es[j].0,
                ret@ + entries_text(es.skip(i as int), prev_mmc as int) == entries_text(es, 0),
                need_back_shift + entries_back(es.skip(i as int), prev_mmc as int) == entries_back(es, 0),
            decreases es.len() - i,
        {
            let ghost rest = es.skip(i as int);
            assert(rest.drop_first() =~= es.skip(i as int + 1));
            assert(rest[0] == es[i as int]);
            proof {
                assert(sorted_keys(rest));
                assert forall|j: int| 0 <= j < rest.len() implies prev_mmc <= rest[j].0 by { assert(rest[j] == es[i + j]); }
                lemma_entries_back_ge(rest, prev_mmc as int);
            }
            let mmc = self.mem_init[i].0;
            let len = self.mem_init[i].1.len();
            if len != 0 {
                let delta = mmc - prev_mmc;
                proof {
                    assert forall|j: int| 0 <= j < rest.drop_first().len() implies mmc <= rest.drop_first()[j].0 by {
                        assert(rest.drop_first()[j] == es[i + 1 + j]);
                        assert(es[i as int].0 < es[i + 1 + j].0);
                    }
                    assert(sorted_keys(rest.drop_first()));
                    lemma_entries_back_ge(rest.drop_first(), mmc as int);
                }
                need_back_shift = need_back_shift + delta + len;
                let sh = cgen_shift_cell_ptr(delta as i32);
                string_push_str(&mut ret, sh.as_str());
                push_cells(&mut ret, &self.mem_init[i].1);
                prev_mmc = mmc;
                proof {
                    assert forall|j: int| i + 1 <= j < es.len() implies prev_mmc <= es[j].0 by {
                        assert(es[i as int].0 < es[j].0);
                    }
                }
            }
            i = i + 1;
        }
        proof {
            assert(es.skip(es.len() as int) =~= Seq::<(usize, Vec<u8>)>::empty());
        }
        let back = cgen_shift_cell_ptr(-(need_back_shift as i32));
        string_push_str(&mut ret, back.as_str());
        ret
    }
}

fn clone_bytes(v: &Vec<u8>) -> (r: Vec<u8>)
    ensures
        r@ == v@,
{
    let mut r: Vec<u8> = Vec::new();
    let mut i: usize = 0;
    while i < v.len()
        invariant
            i <= v@.len(),
            r@ == v@.take(i as int),
        decreases v@.len() - i,
    {
        r.push(v[i]);
        i = i + 1;
        assert(r@ =~= v@.take(i as int));
    }
    assert(v@.take(v@.len() as int) =~= v@);
    r
}


// ---------------------------------------------------------------------
// [+] the pointer after the code that builds the memory

/// How many times `c` stands in `s`.
pub open spec fn count_char(s: Seq<char>, c: char) -> nat
    decreases s.len(),
{
    if s.len() == 0 { 0 } else { count_char(s.drop_last(), c) + (if s.last() == c { 1nat } else { 0nat }) }
}

proof fn lemma_count_concat(a: Seq<char>, b: Seq<char>, c: char)
    ensures
        count_char(a + b, c) == count_char(a, c) + count_char(b, c),
    decreases b.len(),
{
    if b.len() == 0 {
        assert(a + b =~= a);
    } else {
        assert((a + b).drop_last() =~= a + b.drop_last());
        lemma_count_concat(a, b.drop_last(), c);
    }
}

proof fn lemma_count_none(s: Seq<char>, c: char)
    requires
        forall|i: int| 0 <= i < s.len() ==> s[i] != c,
    ensures
        count_char(s, c) == 0,
    decreases s.len(),
{
    if s.len() > 0 { lemma_count_none(s.drop_last(), c); }
}

proof fn lemma_count_repeat(x: char, n: nat, c: char)
    ensures
        count_char(repeat_char(x, n), c) == if x == c { n } else { 0 },
    decreases n,
{
    if n > 0 {
        lemma_count_repeat(x, (n - 1) as nat, c);
        assert(repeat_char(x, n).drop_last() =~= repeat_char(x, (n - 1) as nat));
    }
}

proof fn lemma_count_set_cell(v: u8, c: char)
    requires
        c != '+' && c != '*',
    ensures
        count_char(spec_set_cell_cmds(v, false), c) == 0,
{
    let s = spec_set_cell_cmds(v, false);
    if v > 0 {
        assert(pow2(8) == 256) by { reveal_with_fuel(pow2, 9); }
        lemma_set_cell_bits_len(v as nat, 8);
        assert(s == seq!['+'] + set_cell_bits(v as nat));
        assert forall|i: int| 0 <= i < s.len() implies s[i] != c by {
            if i >= 1 { assert(s[i] == set_cell_bits(v as nat)[i - 1]); }
        }
    } else {
        assert(s =~= Seq::<char>::empty());
    }
    lemma_count_none(s, c);
}

proof fn lemma_count_cells(vals: Seq<u8>)
    ensures
        count_char(cells_text(vals), 'c') == vals.len(),
        count_char(cells_text(vals), '>') == 0,
        count_char(cells_text(vals), '<') == 0,
    decreases vals.len(),
{
    if vals.len() > 0 {
        let d = vals.drop_last();
        lemma_count_cells(d);
        let t = cells_text(d) + seq!['c'];
        lemma_count_concat(t, spec_set_cell_cmds(vals.last(), false), 'c');
        lemma_count_concat(t, spec_set_cell_cmds(vals.last(), false), '>');
        lemma_count_concat(t, spec_set_cell_cmds(vals.last(), false), '<');
        lemma_count_concat(cells_text(d), seq!['c'], 'c');
        lemma_count_concat(cells_text(d), seq!['c'], '>');
        lemma_count_concat(cells_text(d), seq!['c'], '<');
        assert(seq!['c'].drop_last() =~= Seq::<char>::empty());
        assert(seq!['c'].last() == 'c');
        assert(count_char(Seq::<char>::empty(), 'c') == 0);
        assert(count_char(Seq::<char>::empty(), '>') == 0);
        assert(count_char(Seq::<char>::empty(), '<') == 0);
        assert(count_char(seq!['c'], 'c') == 1);
        assert(count_char(seq!['c'], '>') == 0);
        assert(count_char(seq!['c'], '<') == 0);
        assert(cells_text(vals) == t + spec_set_cell_cmds(vals.last(), false));
        lemma_count_set_cell(vals.last(), 'c');
        lemma_count_set_cell(vals.last(), '>');
        lemma_count_set_cell(vals.last(), '<');
    }
}

proof fn lemma_count_entries(es: Seq<(usize, Vec<u8>)>, prev: int)
    requires
        sorted_keys(es),
        forall|i: int| 0 <= i < es.len() ==> prev <= es[i].0,
    ensures
        count_char(entries_text(es, prev), '>') + count_char(entries_text(es, prev), 'c') == entries_back(es, prev),
        count_char(entries_text(es, prev), '<') == 0,
    decreases es.len(),
{
    if es.len() > 0 {
        let r = es.drop_first();
        assert(sorted_keys(r));
        if es[0].1@.len() == 0 {
            lemma_count_entries(r, prev);
        } else {
            assert forall|i: int| 0 <= i < r.len() implies es[0].0 <= r[i].0 by { assert(es[0].0 < es[i + 1].0); }
            lemma_count_entries(r, es[0].0 as int);
            let sh = shift_text(es[0].0 - prev);
            let ct = cells_text(es[0].1@);
            let rest = entries_text(r, es[0].0 as int);
            lemma_count_repeat('>', (es[0].0 - prev) as nat, '>');
            lemma_count_repeat('>', (es[0].0 - prev) as nat, 'c');
            lemma_count_repeat('>', (es[0].0 - prev) as nat, '<');
            lemma_count_cells(es[0].1@);
            lemma_count_concat(sh + ct, rest, '>');
            lemma_count_concat(sh + ct, rest, 'c');
            lemma_count_concat(sh + ct, rest, '<');
            lemma_count_concat(sh, ct, '>');
            lemma_count_concat(sh, ct, 'c');
            lemma_count_concat(sh, ct, '<');
        }
    }
}

/// Law: the code that builds the initial memory leaves the pointer where
/// it started: the steps forward (`>`) and the cells it creates (`c`, each
/// one a step on) are as many as the steps back (`<`).
pub proof fn lemma_code_gen_returns(m: MemInit)
    requires
        m.wf(),
    ensures
        count_char(m.spec_code_gen(), '>') + count_char(m.spec_code_gen(), 'c') == count_char(m.spec_code_gen(), '<'),
{
    let es = m.spec_entries();
    lemma_count_entries(es, 0);
    lemma_entries_back_ge(es, 0);
    let b = entries_back(es, 0);
    lemma_count_concat(entries_text(es, 0), shift_text(-b), '>');
    lemma_count_concat(entries_text(es, 0), shift_text(-b), 'c');
    lemma_count_concat(entries_text(es, 0), shift_text(-b), '<');
    if b == 0 {
        lemma_count_repeat('>', 0, '>');
        lemma_count_repeat('>', 0, 'c');
        lemma_count_repeat('>', 0, '<');
    } else {
        lemma_count_repeat('<', b as nat, '>');
        lemma_count_repeat('<', b as nat, 'c');
        lemma_count_repeat('<', b as nat, '<');
    }
}

// [-] the pointer after the code that builds the memory
// ---------------------------------------------------------------------

}
