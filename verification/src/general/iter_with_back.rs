use vstd::prelude::*;

verus! {

/// The abstract state of an iterator that can step back: the whole sequence
/// of items that its source yields, how many of them have been taken from the
/// source (`pos`), and how many steps back it currently stands (`depth`).
pub struct BackView<T> {
    pub items: Seq<T>,
    pub pos: nat,
    pub depth: nat,
}

impl<T> BackView<T> {
    /// The items that successive calls of `next` return from this state.
    pub open spec fn upcoming(self) -> Seq<T> {
        self.items.subrange(self.pos - self.depth, self.items.len() as int)
    }

    pub open spec fn valid(self) -> bool {
        &&& self.pos <= self.items.len()
        &&& self.depth <= self.pos
    }

    /// The state after `next`, and what `next` returns.
    pub open spec fn after_next(self) -> (Self, Option<T>) {
        if self.depth > 0 {
            (BackView { depth: (self.depth - 1) as nat, ..self }, Some(self.items[self.pos - self.depth]))
        } else if self.pos < self.items.len() {
            (BackView { pos: self.pos + 1, ..self }, Some(self.items[self.pos as int]))
        } else {
            (self, None)
        }
    }

    /// The state after one step back.
    pub open spec fn after_back(self) -> Self {
        BackView { depth: self.depth + 1, ..self }
    }
}

/// One step back after `next` returned an item restores what the following
/// calls of `next` return.
pub proof fn lemma_back_undoes_next<T>(v: BackView<T>)
    requires
        v.valid(),
        v.after_next().1 is Some,
    ensures
        v.after_next().0.after_back().upcoming() == v.upcoming(),
        v.after_next().0.after_back().valid(),
{
    let w = v.after_next().0.after_back();
    if v.depth > 0 {
        assert(w.upcoming() =~= v.upcoming());
    } else {
        assert(w.upcoming() =~= v.upcoming());
    }
}

/// `next` returns the first upcoming item, and the rest stay upcoming.
pub proof fn lemma_next_takes_first_upcoming<T>(v: BackView<T>)
    requires
        v.valid(),
    ensures
        v.upcoming().len() == 0 <==> v.after_next().1 is None,
        v.upcoming().len() > 0 ==> v.after_next().1 == Some(v.upcoming()[0]),
        v.upcoming().len() > 0 ==> v.after_next().0.upcoming() == v.upcoming().drop_first(),
        v.after_next().0.valid(),
{
    if v.upcoming().len() > 0 {
        assert(v.after_next().0.upcoming() =~= v.upcoming().drop_first());
    }
}

/// Iterators that can step back over what they have returned.
pub trait BackwardMove {
    /// Whether one more step back is allowed.
    spec fn can_back(&self) -> bool;

    /// Step back, so that `next` returns the previous item again.
    fn back(&mut self)
        requires
            old(self).can_back(),
    ;
}

// ━━━━━━━━━━━━━━━━━━━━━━━━━━━━━━━━━━━━━━━━━━━━━━━━━━━━━━━━━━━━━━━━━━━━━━━━━━━━

/// An iterator that never steps back.
pub struct IterPanicOnBack<T> {
    iter: Vec<T>,
    pos: usize,
}

impl<T: Copy> IterPanicOnBack<T> {
    pub closed spec fn items(&self) -> Seq<T> {
        self.iter@
    }

    pub closed spec fn position(&self) -> nat {
        self.pos as nat
    }

    pub closed spec fn wf(&self) -> bool {
        self.pos <= self.iter.len()
    }

    pub fn new(iter: Vec<T>) -> (ret: Self)
        ensures
            ret.wf(),
            ret.items() == iter@,
            ret.position() == 0,
    {
        Self { iter, pos: 0 }
    }

    /// The next item of the source, if any.
    pub fn next(&mut self) -> (ret: Option<T>)
        requires
            old(self).wf(),
        ensures
            final(self).wf(),
            final(self).items() == old(self).items(),
            old(self).position() < old(self).items().len() ==> ret == Some(old(self).items()[old(self).position() as int])
                && final(self).position() == old(self).position() + 1,
            old(self).position() >= old(self).items().len() ==> ret is None
                && final(self).position() == old(self).position(),
    {
        if self.pos < self.iter.len() {
            let x = self.iter[self.pos];
            self.pos = self.pos + 1;
            Some(x)
        } else {
            None
        }
    }
}

impl<T: Copy> BackwardMove for IterPanicOnBack<T> {
    open spec fn can_back(&self) -> bool {
        false
    }

    fn back(&mut self) {
    }
}

// ━━━━━━━━━━━━━━━━━━━━━━━━━━━━━━━━━━━━━━━━━━━━━━━━━━━━━━━━━━━━━━━━━━━━━━━━━━━━

/// An iterator that remembers everything it has returned and can step back
/// over all of it.
pub struct IterWithAutoBack<T> {
    iter: Vec<T>,
    iter_pos: usize,
    back: Vec<T>,
    cur_back_pos: Option<usize>,
}

impl<T: Copy> IterWithAutoBack<T> {
    pub closed spec fn view(&self) -> BackView<T> {
        BackView {
            items: self.iter@,
            pos: self.iter_pos as nat,
            depth: match self.cur_back_pos {
                None => 0,
                Some(i) => (i + 1) as nat,
            },
        }
    }

    pub closed spec fn wf(&self) -> bool {
        &&& self.iter_pos <= self.iter.len()
        &&& self.back@ == self.iter@.take(self.iter_pos as int)
        &&& self.view().depth <= self.iter_pos
    }

    pub fn new(iter: Vec<T>) -> (ret: Self)
        ensures
            ret.wf(),
            ret.view() == (BackView { items: iter@, pos: 0, depth: 0 }),
    {
        let ret = Self { iter, iter_pos: 0, back: Vec::new(), cur_back_pos: None };
        assert(ret.back@ =~= ret.iter@.take(0));
        ret
    }

    /// Step back once; allowed while it stands fewer steps back than it has
    /// returned items.
    pub fn back(&mut self)
        requires
            old(self).wf(),
            old(self).view().depth < old(self).view().pos,
        ensures
            final(self).wf(),
            final(self).view() == old(self).view().after_back(),
    {
        let index = match self.cur_back_pos {
            None => 0,
            Some(index) => index + 1,
        };
        self.cur_back_pos = Some(index);
    }

    /// The next item: a remembered one while it stands back, else the next
    /// item of the source.
    pub fn next(&mut self) -> (ret: Option<T>)
        requires
            old(self).wf(),
        ensures
            final(self).wf(),
            (final(self).view(), ret) == old(self).view().after_next(),
    {
        if let Some(x) = self.cur_back_pos {
            self.cur_back_pos = if x == 0 { None } else { Some(x - 1) };
            Some(self.back[self.back.len() - 1 - x])
        } else if self.iter_pos < self.iter.len() {
            let x = self.iter[self.iter_pos];
            self.iter_pos = self.iter_pos + 1;
            self.back.push(x);
            assert(self.back@ =~= self.iter@.take(self.iter_pos as int));
            Some(x)
        } else {
            None
        }
    }
}

impl<T: Copy> BackwardMove for IterWithAutoBack<T> {
    open spec fn can_back(&self) -> bool {
        self.wf() && self.view().depth < self.view().pos
    }

    fn back(&mut self) {
        IterWithAutoBack::back(self)
    }
}

// ━━━━━━━━━━━━━━━━━━━━━━━━━━━━━━━━━━━━━━━━━━━━━━━━━━━━━━━━━━━━━━━━━━━━━━━━━━━━

/// An iterator that remembers the last `N` items it has returned, in a ring
/// buffer, and can step back over them.
pub struct IterWithAutoBackN<T, const N: usize> {
    iter: Vec<T>,
    iter_pos: usize,

    back: Vec<Option<T>>,
    cur_back_start: usize,
    cur_back_end: usize,

    back_index: usize,
}

impl<T: Copy, const N: usize> IterWithAutoBackN<T, N> {
    pub closed spec fn view(&self) -> BackView<T> {
        BackView { items: self.iter@, pos: self.iter_pos as nat, depth: self.back_index as nat }
    }

    /// How many of the returned items the ring buffer holds.
    pub open spec fn stored(&self) -> nat {
        if self.view().pos < N { self.view().pos } else { N as nat }
    }

    pub closed spec fn wf(&self) -> bool {
        &&& self.iter_pos <= self.iter.len()
        &&& self.back.len() == N
        &&& N > 0 ==> self.cur_back_end == self.iter_pos % N
        &&& N > 0 ==> self.cur_back_start == if self.iter_pos < N { 0 } else { (self.iter_pos + 1) % (N as int) }
        &&& N == 0 ==> self.back_index == 0
        &&& self.back_index <= self.stored()
        &&& forall|k: int| 0 <= k < self.stored() ==>
            #[trigger] self.back@[(self.iter_pos - 1 - k) % (N as int)] == Some(self.iter@[self.iter_pos - 1 - k])
    }

    pub fn new(iter: Vec<T>) -> (ret: Self)
        ensures
            ret.wf(),
            ret.view() == (BackView { items: iter@, pos: 0, depth: 0 }),
    {
        let mut back: Vec<Option<T>> = Vec::new();
        while back.len() < N
            invariant
                back.len() <= N,
            decreases N - back.len(),
        {
            back.push(None);
        }
        proof {
            if N > 0 { vstd::arithmetic::div_mod::lemma_small_mod(0, N as nat); }
        }
        Self {
            back,
            cur_back_start: 0,
            cur_back_end: 0,
            back_index: 0,
            iter,
            iter_pos: 0,
        }
    }

    /// It never stands further back than the ring buffer holds items.
    pub proof fn lemma_depth_stored(&self)
        requires
            self.wf(),
        ensures
            self.view().depth <= self.stored(),
            self.view().valid(),
            self.stored() <= N,
    {
    }

    /// Step back once; allowed while it stands fewer steps back than the
    /// ring buffer holds items.
    pub fn back(&mut self)
        requires
            old(self).wf(),
            old(self).view().depth < old(self).stored(),
        ensures
            final(self).wf(),
            final(self).view() == old(self).view().after_back(),
    {
        self.back_index = self.back_index + 1;
    }

    fn get_back_index(&self) -> (r: usize)
        requires
            self.wf(),
            0 < self.back_index,
        ensures
            N > 0,
            r as int == (self.iter_pos - self.back_index) % (N as int),
    {
        proof { lemma_mod_sub(self.iter_pos as int, self.back_index as int, N as int); }
        if self.back_index <= self.cur_back_end {
            self.cur_back_end - self.back_index
        } else {
            N - (self.back_index - self.cur_back_end)
        }
    }

    /// The next item: a remembered one while it stands back, else the next
    /// item of the source (which the ring buffer then remembers).
    pub fn next(&mut self) -> (ret: Option<T>)
        requires
            old(self).wf(),
        ensures
            final(self).wf(),
            (final(self).view(), ret) == old(self).view().after_next(),
    {
        if self.back_index != 0 {
            let index = self.get_back_index();
            let ghost k = self.back_index - 1;
            assert(self.back@[(self.iter_pos - 1 - k) % (N as int)] == Some(self.iter@[self.iter_pos - 1 - k]));
            self.back_index = self.back_index - 1;
            let ret = self.back[index];
            ret
        } else if self.iter_pos < self.iter.len() {
            let x = self.iter[self.iter_pos];
            let ghost old_self = *self;
            if N != 0 {
                let end = self.cur_back_end;
                self.back.set(end, Some(x));
                if self.cur_back_start == 0 && self.cur_back_end < N - 1 {
                    self.cur_back_end = self.cur_back_end + 1;
                } else {
                    self.cur_back_start = (self.cur_back_start + 1) % N;
                    self.cur_back_end = (self.cur_back_end + 1) % N;
                }
            }
            self.iter_pos = self.iter_pos + 1;
            proof { self.lemma_push_keeps(old_self, x); }
            Some(x)
        } else {
            None
        }
    }

    proof fn lemma_push_keeps(&self, old_self: Self, x: T)
        requires
            old_self.wf(),
            old_self.iter_pos < old_self.iter.len(),
            x == old_self.iter@[old_self.iter_pos as int],
            self.iter == old_self.iter,
            self.iter_pos == old_self.iter_pos + 1,
            self.back_index == 0,
            old_self.back_index == 0,
            N > 0 ==> self.back@ == old_self.back@.update(old_self.cur_back_end as int, Some(x)),
            N > 0 ==> (if old_self.cur_back_start == 0 && old_self.cur_back_end < N - 1 {
                self.cur_back_end == old_self.cur_back_end + 1 && self.cur_back_start == old_self.cur_back_start
            } else {
                self.cur_back_start == (old_self.cur_back_start + 1) % (N as int)
                && self.cur_back_end == (old_self.cur_back_end + 1) % (N as int)
            }),
            N == 0 ==> self.back == old_self.back,
        ensures
            self.wf(),
    {
        if N > 0 {
            let n = N as int;
            let p = old_self.iter_pos as int;
            lemma_mod_succ(p, n);
            lemma_mod_succ(p + 1, n);
            if p < n {
                vstd::arithmetic::div_mod::lemma_small_mod(p as nat, n as nat);
            }
            if p + 1 < n {
                vstd::arithmetic::div_mod::lemma_small_mod((p + 1) as nat, n as nat);
            }
            lemma_mod_upto(p % n + 1, n);
            lemma_mod_upto((p + 1) % n + 1, n);
            lemma_mod_upto(1, n);
            assert(self.cur_back_end == (p + 1) % n);
            assert(self.cur_back_start == if p + 1 < n { 0 } else { (p + 2) % n });
            assert forall|k: int| 0 <= k < self.stored() implies
                #[trigger] self.back@[(self.iter_pos - 1 - k) % n] == Some(self.iter@[self.iter_pos - 1 - k]) by {
                lemma_mod_sub(p, k, n);
                if k > 0 {
                    let j = k - 1;
                    assert(old_self.back@[(p - 1 - j) % n] == Some(old_self.iter@[p - 1 - j]));
                }
            }
        }
    }
}

/// `x % n` for `0 <= x <= n`.
proof fn lemma_mod_upto(x: int, n: int)
    requires
        0 <= x <= n,
        n > 0,
    ensures
        x % n == if x == n { 0 } else { x },
{
    if x == n {
        vstd::arithmetic::div_mod::lemma_mod_self_0(n);
    } else {
        vstd::arithmetic::div_mod::lemma_small_mod(x as nat, n as nat);
    }
}

/// `(p + 1) % n` in terms of `p % n`.
proof fn lemma_mod_succ(p: int, n: int)
    requires
        p >= 0,
        n > 0,
    ensures
        (p + 1) % n == if p % n + 1 == n { 0 } else { p % n + 1 },
        0 <= p % n < n,
{
    let q = p / n;
    let r = p % n;
    vstd::arithmetic::div_mod::lemma_fundamental_div_mod(p, n);
    vstd::arithmetic::div_mod::lemma_mod_bound(p, n);
    if r + 1 == n {
        assert(p + 1 == (q + 1) * n + 0) by (nonlinear_arith)
            requires p == n * q + r, r + 1 == n;
        vstd::arithmetic::div_mod::lemma_fundamental_div_mod_converse(p + 1, n, q + 1, 0);
    } else {
        assert(p + 1 == q * n + (r + 1)) by (nonlinear_arith)
            requires p == n * q + r;
        vstd::arithmetic::div_mod::lemma_fundamental_div_mod_converse(p + 1, n, q, r + 1);
    }
}

/// `(p - k) % n` in terms of `p % n`, for `0 <= k <= n`.
proof fn lemma_mod_sub(p: int, k: int, n: int)
    requires
        p >= 0,
        n > 0,
        0 <= k <= n,
    ensures
        (p - k) % n == if p % n >= k { p % n - k } else { p % n + n - k },
        0 < k < n ==> (p - k) % n != p % n,
        0 <= p % n < n,
{
    let q = p / n;
    let r = p % n;
    vstd::arithmetic::div_mod::lemma_fundamental_div_mod(p, n);
    vstd::arithmetic::div_mod::lemma_mod_bound(p, n);
    if r >= k {
        assert(p - k == q * n + (r - k)) by (nonlinear_arith)
            requires p == n * q + r;
        vstd::arithmetic::div_mod::lemma_fundamental_div_mod_converse(p - k, n, q, r - k);
    } else {
        assert(p - k == (q - 1) * n + (r + n - k)) by (nonlinear_arith)
            requires p == n * q + r;
        vstd::arithmetic::div_mod::lemma_fundamental_div_mod_converse(p - k, n, q - 1, r + n - k);
    }
}

impl<T: Copy, const N: usize> BackwardMove for IterWithAutoBackN<T, N> {
    open spec fn can_back(&self) -> bool {
        self.wf() && self.view().depth < self.stored()
    }

    fn back(&mut self) {
        IterWithAutoBackN::back(self)
    }
}

}
