use vstd::prelude::*;

use crate::le::{push_u32_le, push_u64_le, u32_le_bytes, u64_le_bytes};
use crate::syscall::calls::{names_caller, ok_u64, outcome_u64};
use crate::syscall::process::{
    cwd_without, default_comm, default_comm_name, default_robust_list, default_rseq, fail, get_user, is_step, ok,
    purge_cwd, put_user, spec_get, spec_put, stay, Step, SyscallAction, SyscallOutcome, EINVAL, ERANGE, ESRCH,
};
use crate::syscall::state::{
    file_views, FileView, OpenFile, PrctlState, ProcessMapping, RobustList, RseqState, StateView, SyscallEnv,
    SyscallState, ROBUST_LIST_HEAD_SIZE, RSEQ_AREA_SIZE, RSEQ_SIGNATURE,
};
use crate::syscall::table::{lookup, store, without};
use crate::uaccess::{MemView, UserMemory};

verus! {

// ---------------------------------------------------------------------------
// prctl.

pub const PR_GET_DUMPABLE: i32 = 3;
pub const PR_SET_DUMPABLE: i32 = 4;
pub const PR_SET_NAME: i32 = 15;
pub const PR_GET_NAME: i32 = 16;

/// The 16-byte array that holds `s`.
pub open spec fn name_array(s: Seq<u8>) -> [u8; 16] {
    choose|a: [u8; 16]| a@ == s
}

proof fn lemma_name_array(a: [u8; 16])
    ensures
        name_array(a@) == a,
{
    broadcast use vstd::array::axiom_array_ext_equal;

    let c = name_array(a@);
    assert(c@ == a@);
    assert(c =~= a) by {
        assert forall|i: int| 0 <= i < 16 implies c[i] == a[i] by {
            assert(c@[i] == a@[i]);
        }
    }
}

/// The state a process without a record starts with: its default task name, dumpable.
pub open spec fn default_prctl(env: SyscallEnv) -> PrctlState {
    PrctlState { name: name_array(default_comm_name(env.process.thread_name@)), dumpable: 1 }
}

/// The task name and dumpable flag of `pid`.
pub open spec fn prctl_of(s: StateView, env: SyscallEnv, pid: u64) -> PrctlState {
    match lookup(s.prctl, pid, 0) {
        Some(p) => p,
        None => default_prctl(env),
    }
}

/// The records once the state of `pid` is read: a missing record is filled in with the defaults.
pub open spec fn prctl_read(s: StateView, env: SyscallEnv, pid: u64) -> StateView {
    match lookup(s.prctl, pid, 0) {
        Some(_) => s,
        None => StateView { prctl: store(s.prctl, pid, 0, default_prctl(env)), ..s },
    }
}

/// A task name read from user memory: up to the first zero byte, at most 15 bytes, zero padded.
pub open spec fn comm_name_from(b: Seq<u8>) -> Seq<u8> {
    let end = crate::exec::nul_from(b, 0);
    let n = if end < 15 { end } else { 15 };
    Seq::new(16, |i: int| if i < n { b[i] } else { 0u8 })
}

fn comm_name_from_bytes(b: &[u8]) -> (name: [u8; 16])
    requires
        b@.len() == 16,
    ensures
        name@ == comm_name_from(b@),
        name == name_array(comm_name_from(b@)),
{
    let mut end: usize = 0;
    while end < b.len() && b[end] != 0
        invariant
            end <= b@.len(),
            crate::exec::nul_from(b@, 0) == crate::exec::nul_from(b@, end as int),
        decreases b@.len() - end,
    {
        end = end + 1;
    }
    let n = if end < 15 { end } else { 15 };
    let mut name = [0u8; 16];
    let mut i: usize = 0;
    while i < n
        invariant
            n <= 15,
            i <= n,
            name@.len() == 16,
            b@.len() == 16,
            forall|j: int| 0 <= j < i ==> name@[j] == b@[j],
            forall|j: int| i <= j < 16 ==> name@[j] == 0u8,
        decreases n - i,
    {
        name[i] = b[i];
        i = i + 1;
    }
    assert(name@ =~= comm_name_from(b@));
    proof {
        lemma_name_array(name);
    }
    name
}

fn default_prctl_of(env: &SyscallEnv) -> (p: PrctlState)
    ensures
        p == default_prctl(*env),
{
    let name = default_comm(env.process.thread_name.as_slice());
    proof {
        lemma_name_array(name);
    }
    PrctlState { name, dumpable: 1 }
}

/// `prctl`: sets or reads the caller's dumpable flag (0 or 1) and task name.
pub open spec fn spec_prctl(s: StateView, m: MemView, env: SyscallEnv, a: Seq<u64>) -> Step {
    let pid = env.process.process_id;
    let current = prctl_of(s, env, pid);
    if a[0] > i32::MAX as u64 {
        stay(s, m, fail(EINVAL))
    } else if a[0] as i32 == PR_SET_DUMPABLE {
        if a[1] > i32::MAX as u64 || (a[1] != 0 && a[1] != 1) {
            stay(s, m, fail(EINVAL))
        } else {
            Step {
                out: ok(0),
                state: StateView {
                    prctl: store(s.prctl, pid, 0, PrctlState { name: current.name, dumpable: a[1] as i32 }),
                    ..s
                },
                mem: m,
            }
        }
    } else if a[0] as i32 == PR_GET_DUMPABLE {
        Step { out: ok(current.dumpable as i64), state: prctl_read(s, env, pid), mem: m }
    } else if a[0] as i32 == PR_SET_NAME {
        if a[1] == 0 {
            stay(s, m, fail(EINVAL))
        } else {
            match spec_get(m, a[1], 16) {
                Err(e) => stay(s, m, fail(e)),
                Ok(b) => {
                    let dumpable = match lookup(s.prctl, pid, 0) {
                        Some(p) => p.dumpable,
                        None => 1,
                    };
                    Step {
                        out: ok(0),
                        state: StateView {
                            prctl: store(
                                s.prctl,
                                pid,
                                0,
                                PrctlState { name: name_array(comm_name_from(b)), dumpable },
                            ),
                            ..s
                        },
                        mem: m,
                    }
                },
            }
        }
    } else if a[0] as i32 == PR_GET_NAME {
        if a[1] == 0 {
            stay(s, m, fail(EINVAL))
        } else {
            let s1 = prctl_read(s, env, pid);
            match spec_put(m, a[1], current.name@) {
                Err(e) => stay(s1, m, fail(e)),
                Ok(m1) => Step { out: ok(0), state: s1, mem: m1 },
            }
        }
    } else {
        stay(s, m, fail(EINVAL))
    }
}

pub fn sys_prctl(st: &mut SyscallState, mem: &mut UserMemory, env: &SyscallEnv, args: &[u64; 6]) -> (out: SyscallOutcome)
    ensures
        is_step(out, final(st)@, final(mem)@, spec_prctl(old(st)@, old(mem)@, *env, args@)),
{
    let pid = env.process.process_id;
    if args[0] > i32::MAX as u64 {
        return SyscallOutcome::errno(EINVAL);
    }
    let option = args[0] as i32;
    if option == PR_SET_DUMPABLE {
        if args[1] > i32::MAX as u64 || (args[1] != 0 && args[1] != 1) {
            return SyscallOutcome::errno(EINVAL);
        }
        let name = match st.prctl.get(pid, 0) {
            Some(p) => p.name,
            None => default_prctl_of(env).name,
        };
        st.prctl.set(pid, 0, PrctlState { name, dumpable: args[1] as i32 });
        return SyscallOutcome::success(0);
    }
    if option == PR_GET_DUMPABLE {
        let p = st.prctl.get_or_insert(pid, 0, default_prctl_of(env));
        return SyscallOutcome::success(p.dumpable as i64);
    }
    if option == PR_SET_NAME {
        if args[1] == 0 {
            return SyscallOutcome::errno(EINVAL);
        }
        let b = match get_user(mem, args[1], 16) {
            Err(e) => return SyscallOutcome::errno(e),
            Ok(b) => b,
        };
        let name = comm_name_from_bytes(b.as_slice());
        let dumpable = match st.prctl.get(pid, 0) {
            Some(p) => p.dumpable,
            None => 1,
        };
        st.prctl.set(pid, 0, PrctlState { name, dumpable });
        return SyscallOutcome::success(0);
    }
    if option == PR_GET_NAME {
        if args[1] == 0 {
            return SyscallOutcome::errno(EINVAL);
        }
        let p = st.prctl.get_or_insert(pid, 0, default_prctl_of(env));
        return match put_user(mem, &p.name, args[1]) {
            Err(e) => SyscallOutcome::errno(e),
            Ok(()) => SyscallOutcome::success(0),
        };
    }
    SyscallOutcome::errno(EINVAL)
}

// ---------------------------------------------------------------------------
// Robust futex lists.

/// `set_robust_list`: records the caller's list head when the length is that of a head.
pub open spec fn spec_set_robust_list(s: StateView, m: MemView, env: SyscallEnv, a: Seq<u64>) -> Step {
    if a[1] != ROBUST_LIST_HEAD_SIZE {
        stay(s, m, fail(EINVAL))
    } else {
        Step {
            out: ok(0),
            state: StateView {
                robust_lists: store(s.robust_lists, env.process.process_id, 0, RobustList { head: a[0], len: a[1] }),
                ..s
            },
            mem: m,
        }
    }
}

pub fn sys_set_robust_list(st: &mut SyscallState, mem: &UserMemory, env: &SyscallEnv, args: &[u64; 6]) -> (out: SyscallOutcome)
    ensures
        is_step(out, final(st)@, mem@, spec_set_robust_list(old(st)@, mem@, *env, args@)),
{
    if args[1] != ROBUST_LIST_HEAD_SIZE {
        return SyscallOutcome::errno(EINVAL);
    }
    st.robust_lists.set(env.process.process_id, 0, RobustList { head: args[0], len: args[1] });
    SyscallOutcome::success(0)
}

/// The caller's robust list: the recorded one, or none with the size of a head.
pub open spec fn robust_of(s: StateView, pid: u64) -> RobustList {
    match lookup(s.robust_lists, pid, 0) {
        Some(r) => r,
        None => default_robust_list(),
    }
}

/// `get_robust_list` of the caller: writes its head and length.
pub open spec fn spec_get_robust_list(s: StateView, m: MemView, env: SyscallEnv, a: Seq<u64>) -> Step {
    let caller = env.process.process_id;
    if a[1] == 0 || a[2] == 0 {
        stay(s, m, fail(EINVAL))
    } else {
        match names_caller(a[0] as i64, caller) {
            None => stay(s, m, fail(ERANGE)),
            Some(false) => stay(s, m, fail(ESRCH)),
            Some(true) => {
                let r = robust_of(s, caller);
                let s1 = match lookup(s.robust_lists, caller, 0) {
                    Some(_) => s,
                    None => StateView { robust_lists: store(s.robust_lists, caller, 0, r), ..s },
                };
                match spec_put(m, a[1], u64_le_bytes(r.head)) {
                    Err(e) => stay(s1, m, fail(e)),
                    Ok(m1) => match spec_put(m1, a[2], u64_le_bytes(r.len)) {
                        Err(e) => stay(s1, m1, fail(e)),
                        Ok(m2) => Step { out: ok(0), state: s1, mem: m2 },
                    },
                }
            },
        }
    }
}

pub fn sys_get_robust_list(st: &mut SyscallState, mem: &mut UserMemory, env: &SyscallEnv, args: &[u64; 6]) -> (out: SyscallOutcome)
    ensures
        is_step(out, final(st)@, final(mem)@, spec_get_robust_list(old(st)@, old(mem)@, *env, args@)),
{
    let caller = env.process.process_id;
    if args[1] == 0 || args[2] == 0 {
        return SyscallOutcome::errno(EINVAL);
    }
    if caller > i64::MAX as u64 {
        return SyscallOutcome::errno(ERANGE);
    }
    let pid = args[0] as i64;
    if pid != 0 && pid != caller as i64 {
        return SyscallOutcome::errno(ESRCH);
    }
    let r = st.robust_lists.get_or_insert(caller, 0, RobustList { head: 0, len: ROBUST_LIST_HEAD_SIZE });
    let mut head: Vec<u8> = Vec::new();
    push_u64_le(&mut head, r.head);
    match put_user(mem, head.as_slice(), args[1]) {
        Err(e) => return SyscallOutcome::errno(e),
        Ok(()) => {},
    }
    let mut len: Vec<u8> = Vec::new();
    push_u64_le(&mut len, r.len);
    match put_user(mem, len.as_slice(), args[2]) {
        Err(e) => SyscallOutcome::errno(e),
        Ok(()) => SyscallOutcome::success(0),
    }
}

// ---------------------------------------------------------------------------
// Restartable sequences.

pub const RSEQ_FLAG_UNREGISTER: u32 = 1;

/// `rseq`: registers an area of the right size, or unregisters exactly the registered one.
pub open spec fn spec_rseq(s: StateView, m: MemView, env: SyscallEnv, a: Seq<u64>) -> Step {
    let pid = env.process.process_id;
    if a[1] > u32::MAX as u64 || a[2] > u32::MAX as u64 || a[3] > u32::MAX as u64 {
        stay(s, m, fail(EINVAL))
    } else if a[1] as u32 != RSEQ_AREA_SIZE {
        stay(s, m, fail(EINVAL))
    } else if (a[2] as u32) & !RSEQ_FLAG_UNREGISTER != 0 {
        stay(s, m, fail(EINVAL))
    } else if a[2] as u32 == RSEQ_FLAG_UNREGISTER {
        let current = match lookup(s.rseq, pid, 0) {
            Some(r) => r,
            None => default_rseq(),
        };
        let s1 = match lookup(s.rseq, pid, 0) {
            Some(_) => s,
            None => StateView { rseq: store(s.rseq, pid, 0, default_rseq()), ..s },
        };
        if !current.registered || current.address != a[0] || current.length != a[1] as u32
            || current.signature != a[3] as u32 {
            stay(s1, m, fail(EINVAL))
        } else {
            Step { out: ok(0), state: StateView { rseq: store(s1.rseq, pid, 0, default_rseq()), ..s1 }, mem: m }
        }
    } else if a[0] == 0 {
        stay(s, m, fail(EINVAL))
    } else {
        Step {
            out: ok(0),
            state: StateView {
                rseq: store(
                    s.rseq,
                    pid,
                    0,
                    RseqState { address: a[0], length: a[1] as u32, signature: a[3] as u32, registered: true },
                ),
                ..s
            },
            mem: m,
        }
    }
}

pub fn sys_rseq(st: &mut SyscallState, mem: &UserMemory, env: &SyscallEnv, args: &[u64; 6]) -> (out: SyscallOutcome)
    ensures
        is_step(out, final(st)@, mem@, spec_rseq(old(st)@, mem@, *env, args@)),
{
    let pid = env.process.process_id;
    if args[1] > u32::MAX as u64 || args[2] > u32::MAX as u64 || args[3] > u32::MAX as u64 {
        return SyscallOutcome::errno(EINVAL);
    }
    let length = args[1] as u32;
    let flags = args[2] as u32;
    let signature = args[3] as u32;
    if length != RSEQ_AREA_SIZE {
        return SyscallOutcome::errno(EINVAL);
    }
    if flags & !RSEQ_FLAG_UNREGISTER != 0 {
        return SyscallOutcome::errno(EINVAL);
    }
    let unregistered = RseqState { address: 0, length: RSEQ_AREA_SIZE, signature: RSEQ_SIGNATURE, registered: false };
    if flags == RSEQ_FLAG_UNREGISTER {
        let current = st.rseq.get_or_insert(pid, 0, unregistered);
        if !current.registered || current.address != args[0] || current.length != length || current.signature
            != signature {
            return SyscallOutcome::errno(EINVAL);
        }
        st.rseq.set(pid, 0, unregistered);
        return SyscallOutcome::success(0);
    }
    if args[0] == 0 {
        return SyscallOutcome::errno(EINVAL);
    }
    st.rseq.set(pid, 0, RseqState { address: args[0], length, signature, registered: true });
    SyscallOutcome::success(0)
}

// ---------------------------------------------------------------------------
// set_tid_address.

/// `set_tid_address`: records the address and writes the caller's thread id there unless it is 0.
pub open spec fn spec_set_tid_address(s: StateView, m: MemView, env: SyscallEnv, a: Seq<u64>) -> Step {
    let s1 = StateView { clear_tid: store(s.clear_tid, env.process.process_id, 0, a[0]), ..s };
    let tid = env.process.thread_id;
    if tid > i32::MAX as u64 {
        stay(s1, m, fail(ERANGE))
    } else if a[0] != 0 {
        match spec_put(m, a[0], u32_le_bytes(tid as u32)) {
            Err(e) => stay(s1, m, fail(e)),
            Ok(m1) => Step { out: ok(tid as i64), state: s1, mem: m1 },
        }
    } else {
        stay(s1, m, ok(tid as i64))
    }
}

pub fn sys_set_tid_address(st: &mut SyscallState, mem: &mut UserMemory, env: &SyscallEnv, args: &[u64; 6]) -> (out: SyscallOutcome)
    ensures
        is_step(out, final(st)@, final(mem)@, spec_set_tid_address(old(st)@, old(mem)@, *env, args@)),
{
    st.clear_tid.set(env.process.process_id, 0, args[0]);
    let tid = env.process.thread_id;
    if tid > i32::MAX as u64 {
        return SyscallOutcome::errno(ERANGE);
    }
    if args[0] != 0 {
        let mut b: Vec<u8> = Vec::new();
        push_u32_le(&mut b, tid as u32);
        match put_user(mem, b.as_slice(), args[0]) {
            Err(e) => return SyscallOutcome::errno(e),
            Ok(()) => {},
        }
    }
    SyscallOutcome::success(tid as i64)
}

// ---------------------------------------------------------------------------
// exit_group.

/// The open files of every process but `pid`.
pub open spec fn files_without(fs: Seq<FileView>, pid: u64) -> Seq<FileView>
    decreases fs.len(),
{
    if fs.len() == 0 {
        Seq::empty()
    } else if fs.last().owner_process_id == pid {
        files_without(fs.drop_last(), pid)
    } else {
        files_without(fs.drop_last(), pid).push(fs.last())
    }
}

/// The mappings of every process but `pid`.
pub open spec fn mappings_without(ms: Seq<ProcessMapping>, pid: u64) -> Seq<ProcessMapping>
    decreases ms.len(),
{
    if ms.len() == 0 {
        Seq::empty()
    } else if ms.last().process_id == pid {
        mappings_without(ms.drop_last(), pid)
    } else {
        mappings_without(ms.drop_last(), pid).push(ms.last())
    }
}

/// The state once everything `pid` kept is dropped.
pub open spec fn spec_purge(s: StateView, pid: u64) -> StateView {
    StateView {
        next_fd: s.next_fd,
        files: files_without(s.files, pid),
        cwd: cwd_without(s.cwd, pid),
        umask: without(s.umask, pid),
        clear_tid: without(s.clear_tid, pid),
        mappings: mappings_without(s.mappings, pid),
        brk: without(s.brk, pid),
        signal_masks: without(s.signal_masks, pid),
        signal_actions: without(s.signal_actions, pid),
        groups: without(s.groups, pid),
        rlimits: without(s.rlimits, pid),
        prctl: without(s.prctl, pid),
        robust_lists: without(s.robust_lists, pid),
        rseq: without(s.rseq, pid),
        arch_bases: without(s.arch_bases, pid),
        console: s.console,
    }
}

fn purge_files(st: &mut SyscallState, pid: u64)
    ensures
        final(st)@ == (StateView { files: files_without(old(st)@.files, pid), ..old(st)@ }),
{
    let mut old_files: Vec<OpenFile> = Vec::new();
    std::mem::swap(&mut old_files, &mut st.files.files);
    let ghost olds = file_views(old_files@);
    let mut kept: Vec<OpenFile> = Vec::new();
    let mut rest = old_files;
    let ghost mut done: int = 0;
    proof {
        assert(file_views(rest@) =~= olds.subrange(0, olds.len() as int));
        assert(olds.take(0) =~= Seq::<FileView>::empty());
        assert(file_views(kept@) =~= files_without(olds.take(0), pid));
    }
    while rest.len() > 0
        invariant
            0 <= done <= olds.len(),
            file_views(rest@) == olds.subrange(done, olds.len() as int),
            file_views(kept@) == files_without(olds.take(done), pid),
            st.files.files@.len() == 0,
            st.files.next_fd == old(st).files.next_fd,
            olds == file_views(old(st).files.files@),
            st.cwd == old(st).cwd,
            st.umask == old(st).umask,
            st.clear_tid == old(st).clear_tid,
            st.mappings == old(st).mappings,
            st.brk == old(st).brk,
            st.signal_masks == old(st).signal_masks,
            st.signal_actions == old(st).signal_actions,
            st.groups == old(st).groups,
            st.rlimits == old(st).rlimits,
            st.prctl == old(st).prctl,
            st.robust_lists == old(st).robust_lists,
            st.rseq == old(st).rseq,
            st.arch_bases == old(st).arch_bases,
            st.console == old(st).console,
        decreases rest@.len(),
    {
        let ghost before = rest@;
        proof {
            assert(file_views(before).len() == before.len());
            assert(olds.subrange(done, olds.len() as int).len() == olds.len() - done);
        }
        let f = rest.remove(0);
        proof {
            assert(file_views(before)[0] == f@);
            assert(file_views(before)[0] == olds.subrange(done, olds.len() as int)[0]);
            assert(olds.take(done + 1).drop_last() =~= olds.take(done));
            assert(file_views(rest@) =~= olds.subrange(done + 1, olds.len() as int)) by {
                assert forall|j: int| 0 <= j < rest@.len() implies file_views(rest@)[j] == olds.subrange(
                    done + 1,
                    olds.len() as int,
                )[j] by {
                    assert(rest@[j] == before[j + 1]);
                    assert(file_views(before)[j + 1] == olds.subrange(done, olds.len() as int)[j + 1]);
                }
            }
        }
        if f.owner_process_id != pid {
            let ghost kv = file_views(kept@);
            kept.push(f);
            proof {
                assert(file_views(kept@) =~= kv.push(olds[done]));
            }
        }
        proof {
            done = done + 1;
        }
    }
    proof {
        assert(olds.take(olds.len() as int) =~= olds);
    }
    st.files.files = kept;
}

fn purge_mappings(st: &mut SyscallState, pid: u64)
    ensures
        final(st)@ == (StateView { mappings: mappings_without(old(st)@.mappings, pid), ..old(st)@ }),
{
    let mut kept: Vec<ProcessMapping> = Vec::new();
    let mut i: usize = 0;
    while i < st.mappings.len()
        invariant
            i <= st.mappings@.len(),
            st.mappings@ == old(st).mappings@,
            kept@ == mappings_without(st.mappings@.take(i as int), pid),
        decreases st.mappings@.len() - i,
    {
        let mp = st.mappings[i];
        proof {
            assert(st.mappings@.take(i + 1).drop_last() =~= st.mappings@.take(i as int));
        }
        if mp.process_id != pid {
            kept.push(mp);
        }
        i = i + 1;
    }
    assert(st.mappings@.take(st.mappings@.len() as int) =~= st.mappings@);
    st.mappings = kept;
}

/// `exit_group`: drops everything the caller kept and asks that it exit with the low 32 bits of the status.
pub open spec fn spec_exit_group(s: StateView, m: MemView, env: SyscallEnv, a: Seq<u64>) -> Step {
    Step {
        out: SyscallOutcome { value: 0, action: SyscallAction::ExitGroup { status: a[0] as i32 } },
        state: spec_purge(s, env.process.process_id),
        mem: m,
    }
}

pub fn sys_exit_group(st: &mut SyscallState, mem: &UserMemory, env: &SyscallEnv, args: &[u64; 6]) -> (out: SyscallOutcome)
    ensures
        is_step(out, final(st)@, mem@, spec_exit_group(old(st)@, mem@, *env, args@)),
{
    let pid = env.process.process_id;
    purge_files(st, pid);
    purge_cwd(st, pid);
    st.umask.purge(pid);
    st.clear_tid.purge(pid);
    purge_mappings(st, pid);
    st.brk.purge(pid);
    st.groups.purge(pid);
    st.rlimits.purge(pid);
    st.prctl.purge(pid);
    st.robust_lists.purge(pid);
    st.rseq.purge(pid);
    st.arch_bases.purge(pid);
    st.signal_masks.purge(pid);
    st.signal_actions.purge(pid);
    SyscallOutcome { value: 0, action: SyscallAction::ExitGroup { status: args[0] as i32 } }
}

} // verus!
