use vstd::prelude::*;
use crate::dev_emulators::dev::Dev;
use crate::dev_emulators::dev_utilities::mem_dev::CmdMemDevStartAction;
use crate::general::se_fn::{MIN_BIG_BYTE, std_se_decoding, se_max_len, se_decode, se_limit, se_decode_in_range, first_small, lemma_first_small_props};
use super::com_inner::ComInner;

verus! {

/// The byte read when nothing can be read.
pub const DEFAULT: u8 = 0x00;

/// The jump request in progress, and whether its command byte was read.
pub struct StartedActionInfo {
    pub action_type: Option<CmdMemDevStartAction>,
    pub readed_cmd: bool,
}

impl StartedActionInfo {
    pub fn new() -> (r: Self)
        ensures
            r.action_type is None,
            !r.readed_cmd,
    {
        Self { action_type: None, readed_cmd: false }
    }

    pub fn get_act(&self) -> (r: Option<CmdMemDevStartAction>)
        ensures
            r == self.action_type,
    {
        self.action_type
    }

    /// A read is refused once the command byte was read with no request.
    pub fn can_read(&self) -> (r: bool)
        ensures
            r == !(self.readed_cmd && self.action_type is None),
    {
        !(self.readed_cmd && self.action_type.is_none())
    }

    pub fn set_readed(&mut self)
        requires
            old(self).action_type is Some,
        ensures
            final(self).readed_cmd,
            final(self).action_type == old(self).action_type,
    {
        self.readed_cmd = true;
    }

    pub fn set_act_type(&mut self, act: CmdMemDevStartAction)
        requires
            old(self).action_type is None,
        ensures
            final(self).action_type == Some(act),
            final(self).readed_cmd == old(self).readed_cmd,
    {
        self.action_type = Some(act);
    }

    /// Note a read: with a request in progress, its command byte was read.
    pub fn inform_read(&mut self)
        ensures
            final(self).action_type == old(self).action_type,
            final(self).readed_cmd == (old(self).readed_cmd || old(self).action_type is Some),
    {
        if self.action_type.is_some() { self.set_readed() }
    }

    pub fn readed_cmd(&self) -> (r: bool)
        ensures
            r == self.readed_cmd,
    {
        self.readed_cmd
    }

    pub fn clear(&mut self)
        ensures
            final(self).action_type is None,
            !final(self).readed_cmd,
    {
        self.action_type = None;
        self.readed_cmd = false;
    }
}

/// The cell `i` of the tape `m`; cells past its end read as zero.
pub open spec fn tape_at(m: Seq<u8>, i: int) -> u8 {
    if 0 <= i < m.len() { m[i] } else { 0 }
}

/// The cells from `p` on that the device may read as a jump length.
pub open spec fn len_window(m: Seq<u8>, p: int) -> Seq<u8> {
    Seq::new(se_limit(), |j: int| tape_at(m, p + j))
}

/// Where a jump request `act` on the tested cell `byte` leads, from the
/// position `p` on the tape `m` of `size` cells: the device reads the
/// jump length (`k` bytes, value `n`) after `p`; a forward jump on a zero
/// cell lands `n` cells after `p`, a backward jump on a cell other than
/// zero lands `n` cells before `p`, else the position stays after the
/// length. `None` when the device fails: no length closes within the
/// decoder's limit, the length or the jump reaches the end of the tape, a
/// backward jump goes before the first cell, or a forward length is
/// shorter than its bytes.
pub open spec fn com_jump(m: Seq<u8>, p: int, size: int, act: CmdMemDevStartAction, byte: u8) -> Option<int> {
    let w = len_window(m, p);
    let f = first_small(w) as int;
    if f >= se_limit() {
        None
    } else if p + f + 1 >= size {
        None
    } else {
        let k = f + 1;
        match se_decode(w.take(k)) {
            None => None,
            Some(n) => match act {
                CmdMemDevStartAction::JumpForward => if byte == 0 {
                    if n < k || p + n >= size { None } else { Some(p + n) }
                } else {
                    Some(p + k)
                },
                CmdMemDevStartAction::JumpBackward => if byte != 0 {
                    if n > p { None } else { Some(p - n) }
                } else {
                    Some(p + k)
                },
            },
        }
    }
}

/// The command memory as a device on a port. A jump request is a request
/// byte, a read of the command byte, then a write of the tested cell, on
/// which the device reads the space-efficient jump length that follows and
/// jumps or not.
pub struct DevCom {
    started_action: StartedActionInfo,
    inner: ComInner,
    error: bool,
    infinity: bool,
}

impl DevCom {
    pub closed spec fn inner(&self) -> ComInner { self.inner }
    pub closed spec fn spec_own_error(&self) -> bool { self.error }
    pub closed spec fn spec_infinity(&self) -> bool { self.infinity }
    pub closed spec fn spec_action(&self) -> Option<CmdMemDevStartAction> { self.started_action.action_type }
    pub closed spec fn spec_readed(&self) -> bool { self.started_action.readed_cmd }

    pub open spec fn spec_have_error(&self) -> bool {
        self.spec_own_error() || self.inner().spec_error()
    }

    pub fn new(mem_size: usize) -> (r: Self)
        ensures
            r.inner().wf(),
            r.inner().spec_mem() == seq![0u8],
            r.inner().spec_pos() == 0,
            r.inner().spec_error() == (mem_size == 0),
            r.inner().spec_mem_size() == mem_size,
            !r.spec_own_error(),
            !r.spec_infinity(),
            r.spec_action() is None,
            !r.spec_readed(),
    {
        Self {
            started_action: StartedActionInfo::new(),
            inner: ComInner::new(mem_size),
            error: false,
            infinity: false,
        }
    }

    pub fn move_to_start(&mut self)
        requires
            old(self).inner().wf(),
        ensures
            final(self).inner().wf(),
            old(self).inner().spec_error() ==> final(self).inner() == old(self).inner(),
            !old(self).inner().spec_error() ==> final(self).inner().spec_pos() == 0
                && final(self).inner().spec_mem() == old(self).inner().spec_mem() && !final(self).inner().spec_error(),
    {
        self.inner.move_to_start()
    }

    pub fn set_mem(&mut self, mem: Vec<u8>)
        requires
            old(self).inner().wf(),
        ensures
            final(self).inner().wf(),
            old(self).inner().spec_error() ==> final(self).inner() == old(self).inner(),
            !old(self).inner().spec_error() ==> {
                &&& final(self).inner().spec_error() == (mem@.len() > old(self).inner().spec_mem_size())
                &&& !final(self).inner().spec_error() ==> final(self).inner().spec_pos() == 0
                    && final(self).inner().spec_mem() == if mem@.len() == 0 { seq![0u8] } else { mem@ }
            },
    {
        self.inner.set_mem(mem);
    }

    pub fn init(&mut self, bytes: &[u8])
        requires
            old(self).inner().wf(),
        ensures
            final(self).inner().wf(),
            old(self).inner().spec_error() ==> final(self).inner() == old(self).inner(),
    {
        self.inner.init(bytes);
    }

    /// The current cell, moving past it; in the memory's error state, the
    /// device's error state and the default byte.
    pub fn inner_read_byte(&mut self) -> (b: u8)
        requires
            old(self).inner().wf(),
        ensures
            final(self).inner().wf(),
            final(self).spec_infinity() == old(self).spec_infinity(),
            final(self).spec_action() == old(self).spec_action(),
            final(self).spec_readed() == old(self).spec_readed(),
            old(self).inner().spec_error() ==> b == DEFAULT && final(self).spec_own_error(),
            !old(self).inner().spec_error() ==> b == old(self).inner().spec_mem()[old(self).inner().spec_pos() as int]
                && final(self).spec_own_error() == old(self).spec_own_error(),
            final(self).spec_have_error() == (old(self).spec_have_error()
                || old(self).inner().spec_pos() + 1 == old(self).inner().spec_mem_size()),
            final(self).inner().spec_mem_size() == old(self).inner().spec_mem_size(),
            final(self).inner().spec_mem().len() >= old(self).inner().spec_mem().len(),
            forall|i: int| 0 <= i < final(self).inner().spec_mem().len() ==>
                #[trigger] final(self).inner().spec_mem()[i] == tape_at(old(self).inner().spec_mem(), i),
            !old(self).inner().spec_error() && old(self).inner().spec_pos() + 1 != old(self).inner().spec_mem_size() ==>
                !final(self).inner().spec_error() && final(self).inner().spec_pos() == old(self).inner().spec_pos() + 1,
    {
        match self.inner.get_cur_cell() {
            Some(x) => {
                self.inner.move_forward();
                assert forall|i: int| 0 <= i < self.inner().spec_mem().len() implies
                    #[trigger] self.inner().spec_mem()[i] == tape_at(old(self).inner().spec_mem(), i) by {
                    if i >= old(self).inner().spec_mem().len() {
                        assert(self.inner().spec_mem() == old(self).inner().spec_mem().push(0u8));
                    }
                }
                x
            }
            None => {
                self.error = true;
                DEFAULT
            }
        }
    }

    fn ensure_inner_wf(&mut self)
        ensures
            final(self).inner().wf(),
            final(self).spec_own_error() == (old(self).spec_own_error() || !old(self).inner().wf()),
            final(self).spec_have_error() == (old(self).spec_have_error() || !old(self).inner().wf()),
            final(self).spec_infinity() == old(self).spec_infinity(),
            final(self).spec_action() == old(self).spec_action(),
            final(self).spec_readed() == old(self).spec_readed(),
            old(self).inner().wf() ==> final(self).inner() == old(self).inner(),
    {
        if !self.inner.check_wf() {
            self.error = true;
            self.inner = ComInner::new(0);
        }
    }
}

impl Dev for DevCom {
    /// The next byte of the memory. A read with no request after the command
    /// byte was read is an error; reading after an error makes the wait
    /// endless.
    fn read_byte(&mut self) -> (b: u8)
        ensures
            old(self).spec_action() is Some ==> final(self).spec_readed(),
            final(self).spec_action() == old(self).spec_action(),
            (old(self).spec_infinity() || old(self).spec_have_error()
                || (old(self).spec_readed() && old(self).spec_action() is None)) ==> b == DEFAULT,
            old(self).spec_infinity() ==> final(self).spec_infinity(),
            !old(self).spec_infinity() && !old(self).spec_have_error() && old(self).inner().wf()
                && !(old(self).spec_readed() && old(self).spec_action() is None) ==>
                b == old(self).inner().spec_mem()[old(self).inner().spec_pos() as int],
    {
        if !self.started_action.can_read() { self.error = true; }
        self.started_action.inform_read();

        if self.in_infinity_state() { return DEFAULT }
        if self.have_error() { self.infinity = true; return DEFAULT }
        if !self.test_can_read_byte() { self.error = true; return DEFAULT }

        self.ensure_inner_wf();
        self.inner_read_byte()
    }

    /// A request byte (`JumpBackward`, `JumpForward`), or, after the command
    /// byte of a request was read, the tested cell: the device then reads
    /// the jump length `n` (space-efficient, `k` bytes) and, for a forward
    /// jump on a zero cell, jumps `n - k` cells on; for a backward jump on a
    /// cell other than zero, jumps `n + k` cells on.
    fn write_byte(&mut self, byte: u8)
        ensures
            old(self).spec_infinity() || old(self).spec_have_error() ==> *final(self) == *old(self),
            final(self).spec_infinity() == old(self).spec_infinity(),
            !old(self).spec_infinity() && !old(self).spec_have_error() && old(self).spec_action() is None ==> {
                if byte == 0x01 || byte == 0x02 {
                    &&& final(self).spec_action() == CmdMemDevStartAction::try_from_byte_spec(byte)
                    &&& final(self).inner() == old(self).inner()
                    &&& !final(self).spec_own_error()
                } else {
                    final(self).spec_own_error()
                }
            },
            !old(self).spec_infinity() && !old(self).spec_have_error() && old(self).spec_action() is Some
                && !old(self).spec_readed() ==> final(self).spec_own_error(),
            !old(self).spec_infinity() && !old(self).spec_have_error() && old(self).spec_action() is Some
                && old(self).spec_readed() && !final(self).spec_have_error() ==> final(self).spec_action() is None,
            !old(self).spec_infinity() && !old(self).spec_have_error() && old(self).inner().wf()
                && old(self).spec_action() is Some && old(self).spec_readed() ==> {
                let r = com_jump(old(self).inner().spec_mem(), old(self).inner().spec_pos() as int,
                    old(self).inner().spec_mem_size() as int, old(self).spec_action()->0, byte);
                &&& final(self).spec_have_error() == (r is None)
                &&& r matches Some(t) ==> final(self).inner().spec_pos() == t
                &&& forall|i: int| 0 <= i < final(self).inner().spec_mem().len() ==>
                    #[trigger] final(self).inner().spec_mem()[i] == tape_at(old(self).inner().spec_mem(), i)
            },
    {
        if self.in_infinity_state() || self.have_error() { return }

        match self.started_action.get_act() {
            Some(act) => {
                if !self.started_action.readed_cmd() { self.error = true; return }

                // read the jump length, then jump or not by `byte`
                let ghost m0 = self.inner.spec_mem();
                let ghost p0 = self.inner.spec_pos() as int;
                let ghost size = self.inner.spec_mem_size() as int;
                let ghost w = len_window(m0, p0);
                let ghost in_wf = self.inner.wf();
                let max_len = se_max_len();
                let mut v: Vec<u8> = Vec::new();
                loop
                    invariant_except_break
                        forall|j: int| 0 <= j < v@.len() ==> v@[j] >= MIN_BIG_BYTE,
                    invariant
                        v@.len() <= max_len,
                        max_len == se_limit(),
                        self.spec_infinity() == old(self).spec_infinity(),
                        self.spec_action() == old(self).spec_action(),
                        self.spec_action() == Some(act),
                        self.spec_readed() == old(self).spec_readed(),
                        !self.spec_infinity(),
                        w == len_window(m0, p0),
                        in_wf ==> {
                            &&& self.inner().wf()
                            &&& m0 == old(self).inner().spec_mem()
                            &&& p0 == old(self).inner().spec_pos()
                            &&& size == old(self).inner().spec_mem_size()
                            &&& self.inner().spec_mem_size() == size
                            &&& self.inner().spec_mem().len() >= m0.len()
                            &&& forall|i: int| 0 <= i < self.inner().spec_mem().len() ==>
                                #[trigger] self.inner().spec_mem()[i] == tape_at(m0, i)
                            &&& !self.spec_have_error() ==> {
                                &&& self.inner().spec_pos() == p0 + v@.len()
                                &&& p0 + v@.len() < size
                                &&& v@ == w.take(v@.len() as int)
                            }
                            &&& self.spec_have_error() ==> com_jump(m0, p0, size, act, byte) is None
                        },
                    ensures
                        self.spec_infinity() == old(self).spec_infinity(),
                        self.spec_action() == old(self).spec_action(),
                        self.spec_readed() == old(self).spec_readed(),
                        !self.spec_have_error() ==> {
                            &&& v@.len() >= 1
                            &&& v@.len() <= max_len
                            &&& v@.last() < MIN_BIG_BYTE
                            &&& forall|j: int| 0 <= j < v@.len() - 1 ==> v@[j] >= MIN_BIG_BYTE
                        },
                        in_wf ==> {
                            &&& self.inner().spec_mem_size() == size
                            &&& self.inner().spec_mem().len() >= m0.len()
                            &&& forall|i: int| 0 <= i < self.inner().spec_mem().len() ==>
                                #[trigger] self.inner().spec_mem()[i] == tape_at(m0, i)
                            &&& !self.spec_have_error() ==> {
                                &&& self.inner().spec_pos() == p0 + v@.len()
                                &&& p0 + v@.len() < size
                                &&& v@ == w.take(v@.len() as int)
                            }
                            &&& self.spec_have_error() ==> com_jump(m0, p0, size, act, byte) is None
                        },
                    decreases max_len - v@.len(),
                {
                    if v.len() == max_len {
                        proof {
                            if in_wf && !self.spec_have_error() {
                                lemma_first_small_props(w);
                                assert(w.take(v@.len() as int) =~= w);
                                if first_small(w) < se_limit() {
                                    assert(w[first_small(w) as int] == v@[first_small(w) as int]);
                                }
                            }
                        }
                        self.error = true;
                        break;
                    }
                    let ghost e0 = self.spec_have_error();
                    let ghost j = v@.len() as int;
                    proof {
                        if in_wf && !e0 {
                            assert(self.inner().spec_mem()[p0 + j] == tape_at(m0, p0 + j));
                            assert(w[j] == tape_at(m0, p0 + j));
                        }
                    }
                    self.ensure_inner_wf();
                    let x = self.inner_read_byte();
                    v.push(x);
                    proof {
                        if in_wf && !e0 {
                            assert(x == w[j]);
                            if self.spec_have_error() {
                                lemma_first_small_props(w);
                                let f = first_small(w) as int;
                                if x < MIN_BIG_BYTE {
                                    if f < j { assert(w[f] == v@[f]); }
                                    assert(f <= j);
                                } else {
                                    if f <= j {
                                        if f < j { assert(w[f] == v@[f]); }
                                    }
                                    assert(f > j);
                                }
                            } else {
                                assert(v@ =~= w.take(v@.len() as int));
                            }
                        }
                    }
                    if x < MIN_BIG_BYTE { break; }
                }
                if self.have_error() { return }
                proof { lemma_se_run_in_range(v@); }
                let ghost k = v@.len() as int;
                proof {
                    if in_wf {
                        lemma_first_small_props(w);
                        let f = first_small(w) as int;
                        if f < k - 1 { assert(w[f] == v@[f]); }
                        assert(w[k - 1] == v@[k - 1]);
                        assert(f == k - 1);
                        assert(v@ =~= w.take(k));
                    }
                }
                let jmp_value = match std_se_decoding(v.as_slice()) {
                    Some(x) => x,
                    None => { self.error = true; return }
                };

                let ghost before_jump = self.inner();
                proof {
                    if in_wf {
                        assert(se_decode(w.take(k)) == Some(jmp_value));
                        assert(first_small(w) as int == k - 1);
                        assert(self.inner().spec_pos() == p0 + k);
                    }
                }
                self.ensure_inner_wf();
                match act {
                    CmdMemDevStartAction::JumpForward => {
                        if byte == 0 {
                            if jmp_value < v.len() { self.error = true; return }
                            self.inner.jump_forward(jmp_value - v.len())
                        }
                    }
                    CmdMemDevStartAction::JumpBackward => {
                        if byte != 0 {
                            if jmp_value > usize::MAX - v.len() { self.error = true; return }
                            self.inner.jump_backward(jmp_value + v.len())
                        }
                    }
                }
                self.started_action.clear();
                proof {
                    if in_wf {
                        assert(act == old(self).spec_action()->0);
                        assert forall|i: int| 0 <= i < self.inner().spec_mem().len() implies
                            #[trigger] self.inner().spec_mem()[i] == tape_at(m0, i) by {
                            if i < before_jump.spec_mem().len() {
                                assert(before_jump.spec_mem()[i] == tape_at(m0, i));
                            }
                        }
                    }
                }
            }
            None => {
                match CmdMemDevStartAction::try_from_byte(byte) {
                    Some(a) => self.started_action.set_act_type(a),
                    None => { self.error = true; }
                }
            }
        }
    }

    /// Whether a byte can be read now.
    fn test_can_read_byte(&self) -> (r: bool)
        ensures
            r == (!self.spec_have_error() && !self.spec_infinity() && self.inner().spec_pos() < self.inner().spec_mem().len()),
    {
        if self.have_error() || self.in_infinity_state() { return false }
        self.inner.stay_on_end()
    }

    fn have_error(&self) -> (r: bool)
        ensures
            r == self.spec_have_error(),
    {
        self.error || self.inner.error()
    }

    fn in_infinity_state(&self) -> (r: bool)
        ensures
            r == self.spec_infinity(),
    {
        self.infinity
    }
}

/// A run of continuation bytes closed by a small byte, no longer than the
/// decoder takes, stays in the decoder's range.
proof fn lemma_se_run_in_range(s: Seq<u8>)
    requires
        1 <= s.len() <= se_limit(),
        s.last() < MIN_BIG_BYTE,
        forall|j: int| 0 <= j < s.len() - 1 ==> s[j] >= MIN_BIG_BYTE,
    ensures
        se_decode_in_range(s),
{
}

}
