use vstd::prelude::*;
use crate::compiler::valid_cmd::ValidCMD;

verus! {

/// Positions of a loop start and of the end that closes it (0 while open).
#[derive(Clone, Copy, Debug, PartialEq, Eq, Structural)]
pub struct JmpPosPair {
    pub start: usize,
    pub end: usize,
}

/// Loop starts minus loop ends in `cmds`.
pub open spec fn loop_depth(cmds: Seq<ValidCMD>) -> int
    decreases cmds.len(),
{
    if cmds.len() == 0 {
        0
    } else {
        loop_depth(cmds.drop_last()) + (if cmds.last() == ValidCMD::StartWhileNZ {
            1int
        } else if cmds.last() == ValidCMD::EndWhileNZ {
            -1int
        } else {
            0int
        })
    }
}

/// No loop end comes before the start it would close.
pub open spec fn ends_are_opened(cmds: Seq<ValidCMD>) -> bool {
    forall|i: int| 0 <= i <= cmds.len() ==> loop_depth(#[trigger] cmds.take(i)) >= 0
}

/// Loop starts in `cmds`.
pub open spec fn start_count(cmds: Seq<ValidCMD>) -> nat
    decreases cmds.len(),
{
    if cmds.len() == 0 {
        0
    } else {
        start_count(cmds.drop_last()) + (if cmds.last() == ValidCMD::StartWhileNZ { 1nat } else { 0nat })
    }
}

/// What the pairs say of the loops of `cmds`: one pair per loop start, in
/// order, each on a loop start, and each closed one on a later loop end.
pub open spec fn pairs_fit(cmds: Seq<ValidCMD>, pairs: Seq<JmpPosPair>) -> bool {
    &&& pairs.len() == start_count(cmds)
    &&& forall|k: int| 0 <= k < pairs.len() ==> {
        &&& (#[trigger] pairs[k]).start < cmds.len()
        &&& cmds[pairs[k].start as int] == ValidCMD::StartWhileNZ
        &&& pairs[k].end != 0 ==> pairs[k].start < pairs[k].end < cmds.len() && cmds[pairs[k].end as int] == ValidCMD::EndWhileNZ
    }
    &&& forall|k: int, l: int| 0 <= k < l < pairs.len() ==> pairs[k].start < pairs[l].start
}

/// Runs a program from a command memory.
pub struct ComInterpreter {
    cur_pos: usize,
    mem: Vec<ValidCMD>,
    jmp_pos: Vec<JmpPosPair>,
    error: bool,
}

proof fn lemma_depth_step(cmds: Seq<ValidCMD>, i: int)
    requires
        0 <= i < cmds.len(),
    ensures
        cmds.take(i + 1).drop_last() == cmds.take(i),
        cmds.take(i + 1).last() == cmds[i],
{
    assert(cmds.take(i + 1).drop_last() =~= cmds.take(i));
}

impl ComInterpreter {
    pub closed spec fn spec_mem(&self) -> Seq<ValidCMD> { self.mem@ }
    pub closed spec fn spec_pos(&self) -> usize { self.cur_pos }
    pub closed spec fn spec_error(&self) -> bool { self.error }
    pub closed spec fn spec_jmp_pos(&self) -> Seq<JmpPosPair> { self.jmp_pos@ }

    /// Pair each loop start with the end that closes it; `None` when an end
    /// comes with no open start.
    fn jmp_pos_init(mem: &Vec<ValidCMD>) -> (r: Option<Vec<JmpPosPair>>)
        ensures
            r is Some <==> ends_are_opened(mem@),
            r matches Some(v) ==> pairs_fit(mem@, v@),
    {
        let mut ret: Vec<JmpPosPair> = Vec::new();
        let mut open_pos: Vec<usize> = Vec::new();
        let mut pos: usize = 0;
        while pos < mem.len()
            invariant
                pos <= mem@.len(),
                forall|i: int| 0 <= i <= pos ==> loop_depth(#[trigger] mem@.take(i)) >= 0,
                loop_depth(mem@.take(pos as int)) == open_pos@.len(),
                pairs_fit(mem@.take(pos as int), ret@),
                forall|k: int| 0 <= k < ret@.len() ==> #[trigger] ret@[k].start < pos,
                forall|k: int| 0 <= k < ret@.len() ==> #[trigger] ret@[k].end < pos,
                forall|j: int| 0 <= j < open_pos@.len() ==> #[trigger] open_pos@[j] < ret@.len(),
                ret@.len() <= pos,
            decreases mem@.len() - pos,
        {
            proof { lemma_depth_step(mem@, pos as int); }
            let x = mem[pos];
            match x {
                ValidCMD::StartWhileNZ => {
                    open_pos.push(ret.len());
                    ret.push(JmpPosPair { start: pos, end: 0 });
                }
                ValidCMD::EndWhileNZ => {
                    match open_pos.pop() {
                        Some(ind) => {
                            let p = JmpPosPair { start: ret[ind].start, end: pos };
                            ret.set(ind, p);
                        }
                        None => {
                            assert(loop_depth(mem@.take(pos as int + 1)) < 0);
                            assert(!ends_are_opened(mem@)) by {
                                assert(loop_depth(mem@.take(pos as int + 1)) < 0);
                            }
                            return None;
                        }
                    }
                }
                _ => {}
            }
            pos = pos + 1;
            assert forall|k: int| 0 <= k < ret@.len() implies {
                &&& (#[trigger] ret@[k]).start < mem@.take(pos as int).len()
                &&& mem@.take(pos as int)[ret@[k].start as int] == ValidCMD::StartWhileNZ
                &&& ret@[k].end != 0 ==> ret@[k].start < ret@[k].end < mem@.take(pos as int).len()
                    && mem@.take(pos as int)[ret@[k].end as int] == ValidCMD::EndWhileNZ
            } by {}
        }
        assert(mem@.take(mem@.len() as int) =~= mem@);
        Some(ret)
    }

    /// Load a program; a loop end with no open start is an error.
    pub fn new(mem: Vec<ValidCMD>) -> (ret: Self)
        ensures
            ret.spec_mem() == mem@,
            ret.spec_pos() == 0,
            ret.spec_error() == !ends_are_opened(mem@),
            !ret.spec_error() ==> pairs_fit(mem@, ret.spec_jmp_pos()),
    {
        let jmp_pos = Self::jmp_pos_init(&mem);
        let error = jmp_pos.is_none();
        Self {
            cur_pos: 0,
            mem,
            jmp_pos: match jmp_pos { Some(x) => x, None => Vec::new() },
            error,
        }
    }

    /// The command at the current position; past the end, the error state.
    pub fn get_cmd(&mut self) -> (r: Option<ValidCMD>)
        ensures
            final(self).spec_mem() == old(self).spec_mem(),
            final(self).spec_pos() == old(self).spec_pos(),
            final(self).spec_error() == (old(self).spec_error() || old(self).spec_pos() >= old(self).spec_mem().len()),
            r == if final(self).spec_error() { None } else { Some(old(self).spec_mem()[old(self).spec_pos() as int]) },
    {
        if self.cur_pos >= self.mem.len() { self.error = true }
        if self.error { return None }
        Some(self.mem[self.cur_pos])
    }
}

}
