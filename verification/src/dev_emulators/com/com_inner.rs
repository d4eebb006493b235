use vstd::prelude::*;

verus! {

/// Command memory: a tape of bytes read and written at a moving position,
/// holding at most `mem_size` cells.
pub struct ComInner {
    mem_size: usize,
    mem: Vec<u8>,
    cur_pos: usize,
    error: bool,
}

impl ComInner {
    pub closed spec fn spec_mem_size(&self) -> usize { self.mem_size }
    pub closed spec fn spec_mem(&self) -> Seq<u8> { self.mem@ }
    pub closed spec fn spec_pos(&self) -> usize { self.cur_pos }
    pub closed spec fn spec_error(&self) -> bool { self.error }

    /// Outside the error state the position is on a cell of the tape, and
    /// the tape fits its size.
    pub open spec fn wf(&self) -> bool {
        !self.spec_error() ==> {
            &&& self.spec_pos() < self.spec_mem().len()
            &&& self.spec_mem().len() <= self.spec_mem_size()
        }
    }

    /// Whether the bookkeeping holds (it does for every memory built by
    /// `new` and changed by the steps below).
    pub fn check_wf(&self) -> (r: bool)
        ensures
            r == self.wf(),
    {
        self.error || (self.cur_pos < self.mem.len() && self.mem.len() <= self.mem_size)
    }

    pub fn new(mem_size: usize) -> (ret: Self)
        ensures
            ret.wf(),
            ret.spec_mem_size() == mem_size,
            ret.spec_mem() == seq![0u8],
            ret.spec_pos() == 0,
            ret.spec_error() == (mem_size == 0),
    {
        let mut mem: Vec<u8> = Vec::new();
        mem.push(0x00);
        Self { mem_size, mem, cur_pos: 0, error: mem_size == 0 }
    }

    pub fn error(&self) -> (r: bool)
        ensures
            r == self.spec_error(),
    {
        self.error
    }

    /// The current cell, or `None` in the error state.
    pub fn get_cur_cell(&mut self) -> (r: Option<u8>)
        requires
            old(self).wf(),
        ensures
            *final(self) == *old(self),
            r == if old(self).spec_error() { None } else { Some(old(self).spec_mem()[old(self).spec_pos() as int]) },
    {
        if self.error { return None }
        Some(self.mem[self.cur_pos])
    }

    /// Write the current cell (nothing in the error state).
    pub fn set_cur_cell(&mut self, x: u8)
        requires
            old(self).wf(),
        ensures
            final(self).wf(),
            old(self).spec_error() ==> *final(self) == *old(self),
            !old(self).spec_error() ==> {
                &&& final(self).spec_mem() == old(self).spec_mem().update(old(self).spec_pos() as int, x)
                &&& final(self).spec_pos() == old(self).spec_pos()
                &&& !final(self).spec_error()
                &&& final(self).spec_mem_size() == old(self).spec_mem_size()
            },
    {
        if self.error { return }
        self.mem.set(self.cur_pos, x);
    }

    /// Write the bytes one after the other from the current position on,
    /// moving past each; writing where the tape is full is an error.
    pub fn init(&mut self, bytes: &[u8])
        requires
            old(self).wf(),
        ensures
            final(self).wf(),
            final(self).spec_mem_size() == old(self).spec_mem_size(),
            old(self).spec_error() ==> *final(self) == *old(self),
            !old(self).spec_error() ==> {
                let p = old(self).spec_pos() as int;
                let n = bytes@.len() as int;
                let l = old(self).spec_mem().len() as int;
                &&& final(self).spec_error() == (n > 0 && (if l > p + n { l } else { p + n }) >= old(self).spec_mem_size())
                &&& !final(self).spec_error() ==> {
                    &&& final(self).spec_pos() == p + n
                    &&& final(self).spec_mem().len() == (if l > p + n + 1 { l } else { p + n + 1 })
                    &&& forall|i: int| 0 <= i < n ==> #[trigger] final(self).spec_mem()[p + i] == bytes@[i]
                    &&& forall|j: int| 0 <= j < final(self).spec_mem().len() && !(p <= j < p + n) ==>
                        #[trigger] final(self).spec_mem()[j] == if j < l { old(self).spec_mem()[j] } else { 0u8 }
                }
            },
    {
        let ghost p = self.cur_pos as int;
        let ghost l = self.mem@.len() as int;
        let mut i: usize = 0;
        while i < bytes.len()
            invariant
                self.wf(),
                self.spec_mem_size() == old(self).spec_mem_size(),
                old(self).spec_error() ==> *self == *old(self),
                i <= bytes@.len(),
                !old(self).spec_error() ==> {
                    &&& p == old(self).spec_pos()
                    &&& l == old(self).spec_mem().len()
                    &&& self.spec_error() == (i > 0 && (if l > p + i { l } else { p + i }) >= old(self).spec_mem_size())
                    &&& !self.spec_error() ==> {
                        &&& self.spec_pos() == p + i
                        &&& self.spec_mem().len() == (if l > p + i + 1 { l } else { p + i + 1 })
                        &&& forall|k: int| 0 <= k < i ==> #[trigger] self.spec_mem()[p + k] == bytes@[k]
                        &&& forall|j: int| 0 <= j < self.spec_mem().len() && !(p <= j < p + i) ==>
                            #[trigger] self.spec_mem()[j] == if j < l { old(self).spec_mem()[j] } else { 0u8 }
                    }
                },
            decreases bytes@.len() - i,
        {
            if self.error() || self.mem.len() == self.mem_size { self.error = true; return }
            let ghost before = self.mem@;
            self.set_cur_cell(bytes[i]);
            self.move_forward();
            proof {
                if !old(self).spec_error() && !self.spec_error() {
                    assert forall|j: int| 0 <= j < self.spec_mem().len() && !(p <= j < p + i + 1) implies
                        #[trigger] self.spec_mem()[j] == if j < l { old(self).spec_mem()[j] } else { 0u8 } by {
                        if j < before.len() { assert(self.spec_mem()[j] == before[j]); }
                    }
                    assert forall|k: int| 0 <= k < i + 1 implies #[trigger] self.spec_mem()[p + k] == bytes@[k] by {
                        assert(self.spec_mem()[p + k] == before.update(p + i, bytes@[i as int])[p + k]);
                    }
                }
            }
            i = i + 1;
        }
    }

    /// Put the position on the first cell.
    pub fn move_to_start(&mut self)
        requires
            old(self).wf(),
        ensures
            final(self).wf(),
            old(self).spec_error() ==> *final(self) == *old(self),
            !old(self).spec_error() ==> final(self).spec_pos() == 0 && final(self).spec_mem() == old(self).spec_mem()
                && !final(self).spec_error() && final(self).spec_mem_size() == old(self).spec_mem_size(),
    {
        if self.error { return }
        self.cur_pos = 0;
    }

    /// Replace the tape by `mem` (an empty one by a single zero cell) and put
    /// the position on its first cell; a tape longer than the size is an
    /// error.
    pub fn set_mem(&mut self, mem: Vec<u8>)
        requires
            old(self).wf(),
        ensures
            final(self).wf(),
            old(self).spec_error() ==> *final(self) == *old(self),
            !old(self).spec_error() ==> {
                &&& final(self).spec_error() == (mem@.len() > old(self).spec_mem_size())
                &&& !final(self).spec_error() ==> {
                    &&& final(self).spec_mem() == if mem@.len() == 0 { seq![0u8] } else { mem@ }
                    &&& final(self).spec_pos() == 0
                }
                &&& final(self).spec_mem_size() == old(self).spec_mem_size()
            },
    {
        if self.error { return }
        if mem.len() > self.mem_size { self.error = true; return }
        let mut mem = mem;
        if mem.len() == 0 { mem.push(0x00); }
        self.mem = mem;
        self.cur_pos = 0;
    }

    /// Whether the position holds a cell of the tape (always outside the
    /// error state).
    pub fn stay_on_end(&self) -> (r: bool)
        ensures
            r == (!self.spec_error() && self.spec_pos() < self.spec_mem().len()),
    {
        !self.error && self.cur_pos < self.mem.len()
    }

    /// One cell back; from the first cell, the error state.
    pub fn move_backward(&mut self)
        requires
            old(self).wf(),
        ensures
            final(self).wf(),
            final(self).spec_mem() == old(self).spec_mem(),
            final(self).spec_mem_size() == old(self).spec_mem_size(),
            old(self).spec_error() ==> *final(self) == *old(self),
            !old(self).spec_error() ==> {
                if old(self).spec_pos() == 0 {
                    final(self).spec_error()
                } else {
                    !final(self).spec_error() && final(self).spec_pos() == old(self).spec_pos() - 1
                }
            },
    {
        if self.error { return }
        if self.cur_pos == 0 { self.error = true; return }
        self.cur_pos = self.cur_pos - 1;
    }

    /// One cell on, appending a zero cell at the end of the tape; past the
    /// size, the error state.
    pub fn move_forward(&mut self)
        requires
            old(self).wf(),
        ensures
            final(self).wf(),
            final(self).spec_mem_size() == old(self).spec_mem_size(),
            final(self).spec_mem() == old(self).spec_mem()
                || final(self).spec_mem() == old(self).spec_mem().push(0u8),
            old(self).spec_error() ==> *final(self) == *old(self),
            !old(self).spec_error() ==> {
                if old(self).spec_pos() + 1 == old(self).spec_mem_size() {
                    final(self).spec_error()
                } else {
                    &&& !final(self).spec_error()
                    &&& final(self).spec_pos() == old(self).spec_pos() + 1
                    &&& final(self).spec_mem() == if old(self).spec_pos() + 1 == old(self).spec_mem().len() {
                            old(self).spec_mem().push(0u8)
                        } else {
                            old(self).spec_mem()
                        }
                }
            },
    {
        if self.error { return }
        self.cur_pos = self.cur_pos + 1;
        if self.cur_pos == self.mem_size { self.error = true; return }
        if self.mem.len() == self.cur_pos { self.mem.push(0x00); }
    }

    /// `jmp_len` cells on, filling the tape with zero cells up to the new
    /// position; at or past the size, the error state.
    pub fn jump_forward(&mut self, jmp_len: usize)
        requires
            old(self).wf(),
        ensures
            final(self).wf(),
            final(self).spec_mem_size() == old(self).spec_mem_size(),
            final(self).spec_mem().len() >= old(self).spec_mem().len(),
            forall|i: int| 0 <= i < final(self).spec_mem().len() ==>
                #[trigger] final(self).spec_mem()[i] == if i < old(self).spec_mem().len() { old(self).spec_mem()[i] } else { 0u8 },
            old(self).spec_error() ==> *final(self) == *old(self),
            !old(self).spec_error() ==> {
                if old(self).spec_pos() + jmp_len >= old(self).spec_mem_size() {
                    final(self).spec_error()
                } else {
                    &&& !final(self).spec_error()
                    &&& final(self).spec_pos() == old(self).spec_pos() + jmp_len
                    &&& final(self).spec_mem().len() == if old(self).spec_pos() + jmp_len < old(self).spec_mem().len() {
                            old(self).spec_mem().len() as int
                        } else {
                            old(self).spec_pos() + jmp_len + 1
                        }
                    &&& forall|i: int| 0 <= i < final(self).spec_mem().len() ==>
                        #[trigger] final(self).spec_mem()[i] == if i < old(self).spec_mem().len() { old(self).spec_mem()[i] } else { 0u8 }
                }
            },
    {
        if self.error { return }
        if jmp_len >= self.mem_size - self.cur_pos { self.error = true; return }
        self.cur_pos = self.cur_pos + jmp_len;
        while self.mem.len() <= self.cur_pos
            invariant
                self.cur_pos == old(self).cur_pos + jmp_len,
                self.cur_pos < self.mem_size,
                self.mem_size == old(self).mem_size,
                !self.error,
                old(self).mem@.len() <= self.mem@.len() <= if self.cur_pos < old(self).mem@.len() { old(self).mem@.len() as int } else { self.cur_pos + 1 },
                forall|i: int| 0 <= i < self.mem@.len() ==>
                    #[trigger] self.mem@[i] == if i < old(self).mem@.len() { old(self).mem@[i] } else { 0u8 },
            decreases self.cur_pos + 1 - self.mem@.len(),
        {
            self.mem.push(0x00);
        }
    }

    /// `jmp_len` cells back; before the first cell, the error state.
    pub fn jump_backward(&mut self, jmp_len: usize)
        requires
            old(self).wf(),
        ensures
            final(self).wf(),
            final(self).spec_mem() == old(self).spec_mem(),
            final(self).spec_mem_size() == old(self).spec_mem_size(),
            old(self).spec_error() ==> *final(self) == *old(self),
            !old(self).spec_error() ==> {
                if jmp_len > old(self).spec_pos() {
                    final(self).spec_error()
                } else {
                    !final(self).spec_error() && final(self).spec_pos() == old(self).spec_pos() - jmp_len
                }
            },
    {
        if self.error { return }
        if jmp_len > self.cur_pos { self.error = true; return }
        self.cur_pos = self.cur_pos - jmp_len;
    }
}

}
