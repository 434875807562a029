use vstd::prelude::*;

use crate::syscall::state::{
    cwd_views, LinuxKernelSigAction, ProcessCwd, RobustList, RseqState, StateView, SyscallState, ROBUST_LIST_HEAD_SIZE,
    RSEQ_AREA_SIZE, RSEQ_SIGNATURE,
};
use crate::syscall::table::{lookup, store, without, Entry};
use crate::uaccess::{copyin, copyout, spec_copyin, spec_copyout, MemView, UserCopyError, UserMemory};

verus! {

// ---------------------------------------------------------------------------
// Outcomes.

/// What a system call returns to its caller and asks of the scheduler.
#[derive(Copy, Clone, PartialEq, Eq, Structural, Debug)]
pub enum SyscallAction {
    Continue,
    ExitGroup { status: i32 },
}

/// The value a system call returns and what happens to the caller afterwards.
#[derive(Copy, Clone, PartialEq, Eq, Structural, Debug)]
pub struct SyscallOutcome {
    pub value: i64,
    pub action: SyscallAction,
}

/// A successful call returning `v`.
pub open spec fn ok(v: i64) -> SyscallOutcome {
    SyscallOutcome { value: v, action: SyscallAction::Continue }
}

/// A failed call returning the negated error number `e`.
pub open spec fn fail(e: i64) -> SyscallOutcome {
    SyscallOutcome { value: (-e) as i64, action: SyscallAction::Continue }
}

impl SyscallOutcome {
    pub fn success(value: i64) -> (o: Self)
        ensures
            o == ok(value),
    {
        SyscallOutcome { value, action: SyscallAction::Continue }
    }

    pub fn errno(errno: i64) -> (o: Self)
        requires
            errno > i64::MIN,
        ensures
            o == fail(errno),
    {
        SyscallOutcome { value: -errno, action: SyscallAction::Continue }
    }
}

/// The result of a call together with the state and user memory it leaves.
pub struct Step {
    pub out: SyscallOutcome,
    pub state: StateView,
    pub mem: MemView,
}

/// A call that returns `out` and changes nothing.
pub open spec fn stay(s: StateView, m: MemView, out: SyscallOutcome) -> Step {
    Step { out, state: s, mem: m }
}

/// `out`, the current state and memory are the step `st`.
pub open spec fn is_step(out: SyscallOutcome, s: StateView, m: MemView, st: Step) -> bool {
    out == st.out && s == st.state && m == st.mem
}

// ---------------------------------------------------------------------------
// Error numbers.

pub const EPERM: i64 = 1;
pub const ENOENT: i64 = 2;
pub const ESRCH: i64 = 3;
pub const EIO: i64 = 5;
pub const EBADF: i64 = 9;
pub const ECHILD: i64 = 10;
pub const ENOMEM: i64 = 12;
pub const EACCES: i64 = 13;
pub const ENOTDIR: i64 = 20;
pub const EISDIR: i64 = 21;
pub const EINVAL: i64 = 22;
pub const EMFILE: i64 = 24;
pub const ENOTTY: i64 = 25;
pub const EROFS: i64 = 30;
pub const ERANGE: i64 = 34;
pub const ENOSYS: i64 = 38;

// ---------------------------------------------------------------------------
// User memory.

/// The error number a refused user copy is reported with.
pub open spec fn copy_errno(e: UserCopyError) -> i64 {
    if e == UserCopyError::TooLarge {
        34
    } else {
        14
    }
}

/// The `len` user bytes at `ptr`, or the error number of the refused copy.
pub open spec fn spec_get(m: MemView, ptr: u64, len: u64) -> Result<Seq<u8>, i64> {
    match spec_copyin(m, ptr, len) {
        Ok(b) => Ok(b),
        Err(e) => Err(copy_errno(e)),
    }
}

/// The user memory once `data` is written at `ptr`, or the error number of the refused copy.
pub open spec fn spec_put(m: MemView, ptr: u64, data: Seq<u8>) -> Result<MemView, i64> {
    match spec_copyout(m, ptr, data) {
        Ok(n) => Ok(n),
        Err(e) => Err(copy_errno(e)),
    }
}

/// Reads `len` user bytes at `ptr`.
pub fn get_user(mem: &UserMemory, ptr: u64, len: usize) -> (r: Result<Vec<u8>, i64>)
    ensures
        match spec_get(mem@, ptr, len as u64) {
            Ok(b) => r matches Ok(v) && v@ == b,
            Err(e) => r == Err::<Vec<u8>, i64>(e),
        },
{
    let mut bytes = vec![0u8; len];
    match copyin(mem, ptr, bytes.as_mut_slice()) {
        Ok(()) => Ok(bytes),
        Err(e) => Err(e.as_errno()),
    }
}

/// Writes `data` to user memory at `ptr`.
pub fn put_user(mem: &mut UserMemory, data: &[u8], ptr: u64) -> (r: Result<(), i64>)
    ensures
        match spec_put(old(mem)@, ptr, data@) {
            Ok(m) => r is Ok && final(mem)@ == m,
            Err(e) => r == Err::<(), i64>(e) && final(mem)@ == old(mem)@,
        },
{
    match copyout(mem, data, ptr) {
        Ok(()) => Ok(()),
        Err(e) => Err(e.as_errno()),
    }
}

// ---------------------------------------------------------------------------
// Defaults of per-process values.

/// A process starts with the working directory `/`.
pub open spec fn default_cwd() -> Seq<u8> {
    seq![0x2fu8]
}

pub const DEFAULT_PROCESS_UMASK: u32 = 0o022;
pub const UMASK_MODE_MASK: u32 = 0o777;
pub const DEFAULT_PROCESS_BRK: u64 = 0x4000_0000;

/// A process's task name starts as the first 15 bytes of its thread's name, zero padded.
pub open spec fn default_comm_name(thread_name: Seq<u8>) -> Seq<u8> {
    Seq::new(16, |i: int| if i < 15 && i < thread_name.len() { thread_name[i] } else { 0u8 })
}

/// The robust list a process starts with: none, with the size of a list head.
pub open spec fn default_robust_list() -> RobustList {
    RobustList { head: 0, len: ROBUST_LIST_HEAD_SIZE }
}

/// The restartable sequence a process starts with: none registered.
pub open spec fn default_rseq() -> RseqState {
    RseqState { address: 0, length: RSEQ_AREA_SIZE, signature: RSEQ_SIGNATURE, registered: false }
}

/// A signal's disposition before any is set.
pub open spec fn empty_sigaction() -> LinuxKernelSigAction {
    LinuxKernelSigAction { handler: 0, flags: 0, restorer: 0, mask: 0 }
}

pub fn default_comm(thread_name: &[u8]) -> (name: [u8; 16])
    ensures
        name@ == default_comm_name(thread_name@),
{
    let mut name = [0u8; 16];
    let mut i: usize = 0;
    while i < 15 && i < thread_name.len()
        invariant
            i <= 15,
            i <= thread_name@.len(),
            forall|j: int| 0 <= j < i ==> name@[j] == thread_name@[j],
            forall|j: int| i <= j < 16 ==> name@[j] == 0u8,
            name@.len() == 16,
        decreases 15 - i,
    {
        name[i] = thread_name[i];
        i = i + 1;
    }
    assert(name@ =~= default_comm_name(thread_name@));
    name
}

// ---------------------------------------------------------------------------
// Working directories.

/// Index of the first working-directory record of `pid` from `i` on, or the length.
pub open spec fn cwd_find(cs: Seq<(u64, Seq<u8>)>, pid: u64, i: int) -> int
    decreases cs.len() - i,
{
    if i < 0 || i >= cs.len() {
        cs.len() as int
    } else if cs[i].0 == pid {
        i
    } else {
        cwd_find(cs, pid, i + 1)
    }
}

proof fn lemma_cwd_find_bounds(cs: Seq<(u64, Seq<u8>)>, pid: u64, i: int)
    requires
        0 <= i <= cs.len(),
    ensures
        i <= cwd_find(cs, pid, i) <= cs.len(),
        cwd_find(cs, pid, i) < cs.len() ==> cs[cwd_find(cs, pid, i)].0 == pid,
    decreases cs.len() - i,
{
    if i < cs.len() && cs[i].0 != pid {
        lemma_cwd_find_bounds(cs, pid, i + 1);
    }
}

/// The working directory of `pid`, and the records once a missing one is filled in with `/`.
pub open spec fn spec_cwd(cs: Seq<(u64, Seq<u8>)>, pid: u64) -> (Seq<u8>, Seq<(u64, Seq<u8>)>) {
    let k = cwd_find(cs, pid, 0);
    if 0 <= k < cs.len() {
        (cs[k].1, cs)
    } else {
        (default_cwd(), cs.push((pid, default_cwd())))
    }
}

/// The records once the working directory of `pid` is `path`.
pub open spec fn spec_set_cwd(cs: Seq<(u64, Seq<u8>)>, pid: u64, path: Seq<u8>) -> Seq<(u64, Seq<u8>)> {
    let k = cwd_find(cs, pid, 0);
    if 0 <= k < cs.len() {
        cs.update(k, (pid, path))
    } else {
        cs.push((pid, path))
    }
}

/// The records of every process but `pid`.
pub open spec fn cwd_without(cs: Seq<(u64, Seq<u8>)>, pid: u64) -> Seq<(u64, Seq<u8>)>
    decreases cs.len(),
{
    if cs.len() == 0 {
        Seq::empty()
    } else if cs.last().0 == pid {
        cwd_without(cs.drop_last(), pid)
    } else {
        cwd_without(cs.drop_last(), pid).push(cs.last())
    }
}

fn cwd_position(cs: &Vec<ProcessCwd>, pid: u64) -> (k: usize)
    ensures
        k == cwd_find(cwd_views(cs@), pid, 0),
        k <= cs@.len(),
{
    proof {
        lemma_cwd_find_bounds(cwd_views(cs@), pid, 0);
    }
    let mut i: usize = 0;
    while i < cs.len()
        invariant
            i <= cs@.len(),
            cwd_find(cwd_views(cs@), pid, 0) == cwd_find(cwd_views(cs@), pid, i as int),
        decreases cs@.len() - i,
    {
        if cs[i].process_id == pid {
            return i;
        }
        i = i + 1;
    }
    i
}

/// The working directory of `pid`; a process without one gets `/`.
pub fn current_cwd(st: &mut SyscallState, pid: u64) -> (path: Vec<u8>)
    ensures
        path@ == spec_cwd(old(st)@.cwd, pid).0,
        final(st)@ == (StateView { cwd: spec_cwd(old(st)@.cwd, pid).1, ..old(st)@ }),
{
    let k = cwd_position(&st.cwd, pid);
    if k < st.cwd.len() {
        return vstd::slice::slice_to_vec(st.cwd[k].path.as_slice());
    }
    let mut root: Vec<u8> = Vec::new();
    root.push(0x2f);
    let mut kept: Vec<u8> = Vec::new();
    kept.push(0x2f);
    st.cwd.push(ProcessCwd { process_id: pid, path: kept });
    proof {
        assert(cwd_views(st.cwd@) =~= cwd_views(old(st).cwd@).push((pid, default_cwd())));
        assert(root@ =~= default_cwd());
    }
    root
}

/// Makes `path` the working directory of `pid`.
pub fn set_cwd(st: &mut SyscallState, pid: u64, path: Vec<u8>)
    ensures
        final(st)@ == (StateView { cwd: spec_set_cwd(old(st)@.cwd, pid, path@), ..old(st)@ }),
{
    let ghost p = path@;
    let k = cwd_position(&st.cwd, pid);
    if k < st.cwd.len() {
        st.cwd.set(k, ProcessCwd { process_id: pid, path });
        proof {
            assert(cwd_views(st.cwd@) =~= cwd_views(old(st).cwd@).update(k as int, (pid, p)));
        }
    } else {
        st.cwd.push(ProcessCwd { process_id: pid, path });
        proof {
            assert(cwd_views(st.cwd@) =~= cwd_views(old(st).cwd@).push((pid, p)));
        }
    }
}

/// Drops the working directory of `pid`.
pub fn purge_cwd(st: &mut SyscallState, pid: u64)
    ensures
        final(st)@ == (StateView { cwd: cwd_without(old(st)@.cwd, pid), ..old(st)@ }),
{
    let mut old_cwd: Vec<ProcessCwd> = Vec::new();
    std::mem::swap(&mut old_cwd, &mut st.cwd);
    let ghost olds = cwd_views(old_cwd@);
    let mut kept: Vec<ProcessCwd> = Vec::new();
    let mut rest = old_cwd;
    let ghost mut done: int = 0;
    proof {
        assert(cwd_views(rest@) =~= olds.subrange(0, olds.len() as int));
        assert(cwd_views(kept@) =~= cwd_without(olds.take(0), pid)) by {
            assert(olds.take(0) =~= Seq::<(u64, Seq<u8>)>::empty());
        }
    }
    // Records are taken from the front, one at a time.
    while rest.len() > 0
        invariant
            0 <= done <= olds.len(),
            cwd_views(rest@) == olds.subrange(done, olds.len() as int),
            cwd_views(kept@) == cwd_without(olds.take(done), pid),
            st.cwd@.len() == 0,
            olds == cwd_views(old(st).cwd@),
            st.files == old(st).files,
            st.umask == old(st).umask,
            st.clear_tid == old(st).clear_tid,
            st.mappings == old(st).mappings,
            st.brk == old(st).brk,
            st.signal_masks == old(st).signal_masks,
            st.signal_actions == old(st).signal_actions,
            st.groups == old(st).groups,
            st.rlimits == old(st).rlimits,
            st.prctl == old(st).prctl,
            st.robust_lists == old(st).robust_lists,
            st.rseq == old(st).rseq,
            st.arch_bases == old(st).arch_bases,
            st.console == old(st).console,
        decreases rest@.len(),
    {
        let ghost before = rest@;
        proof {
            assert(cwd_views(before).len() == before.len());
            assert(before.len() > 0);
            assert(olds.subrange(done, olds.len() as int).len() == olds.len() - done);
        }
        let entry = rest.remove(0);
        proof {
            assert(cwd_views(before)[0] == (entry.process_id, entry.path@));
            assert(done < olds.len());
            assert(cwd_views(before)[0] == olds.subrange(done, olds.len() as int)[0]);
            assert(olds[done] == (entry.process_id, entry.path@));
            assert(olds.take(done + 1).drop_last() =~= olds.take(done));
            assert(cwd_views(rest@) =~= olds.subrange(done + 1, olds.len() as int)) by {
                assert forall|j: int| 0 <= j < rest@.len() implies cwd_views(rest@)[j] == olds.subrange(
                    done + 1,
                    olds.len() as int,
                )[j] by {
                    assert(rest@[j] == before[j + 1]);
                    assert(cwd_views(before)[j + 1] == olds.subrange(done, olds.len() as int)[j + 1]);
                    assert(cwd_views(before)[j + 1] == olds[done + 1 + j]);
                }
            }
        }
        if entry.process_id != pid {
            let ghost kv = cwd_views(kept@);
            kept.push(entry);
            proof {
                assert(cwd_views(kept@) =~= kv.push(olds[done]));
            }
        }
        proof {
            done = done + 1;
        }
    }
    proof {
        assert(olds.take(olds.len() as int) =~= olds);
    }
    st.cwd = kept;
}

} // verus!
