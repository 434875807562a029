use vstd::prelude::*;

use crate::le::{get_u64_le, le_u64, push_u32_le, push_u64_le, u32_le_bytes, u64_le_bytes};
use crate::syscall::process::{
    default_comm, default_comm_name, default_robust_list, default_rseq, empty_sigaction, fail, get_user, is_step, ok,
    put_user, spec_get, spec_put, stay, Step, SyscallOutcome, DEFAULT_PROCESS_UMASK, EINVAL, ERANGE, ESRCH, ECHILD,
    EPERM, UMASK_MODE_MASK,
};
use crate::syscall::state::{
    rlimit_bytes, rlimit_from, sigaction_bytes, sigaction_from, GroupIds, LinuxKernelSigAction, LinuxRlimit64,
    PrctlState, RobustList, RseqState, StateView, SyscallEnv, SyscallState, ROBUST_LIST_HEAD_SIZE, RSEQ_AREA_SIZE,
    RSEQ_SIGNATURE,
};
use crate::syscall::table::{lookup, store};
use crate::uaccess::{MemView, UserMemory};

verus! {

// ---------------------------------------------------------------------------
// Identities.

/// `v` as a call's result, or `ERANGE` when it does not fit in an `i64`.
pub open spec fn ok_u64(v: u64) -> SyscallOutcome {
    if v > i64::MAX as u64 {
        fail(ERANGE)
    } else {
        ok(v as i64)
    }
}

pub fn outcome_u64(v: u64) -> (o: SyscallOutcome)
    ensures
        o == ok_u64(v),
{
    if v > i64::MAX as u64 {
        SyscallOutcome::errno(ERANGE)
    } else {
        SyscallOutcome::success(v as i64)
    }
}

/// `pid` names the calling process: 0 or its own id; `None` when its id does not fit an `i64`.
pub open spec fn names_caller(pid: i64, caller: u64) -> Option<bool> {
    if caller > i64::MAX as u64 {
        None
    } else {
        Some(pid == 0 || pid == caller as i64)
    }
}

fn check_caller(pid: i64, caller: u64) -> (r: Result<(), i64>)
    ensures
        match names_caller(pid, caller) {
            None => r == Err::<(), i64>(ERANGE),
            Some(true) => r is Ok,
            Some(false) => r == Err::<(), i64>(ESRCH),
        },
{
    if caller > i64::MAX as u64 {
        return Err(ERANGE);
    }
    if pid != 0 && pid != caller as i64 {
        return Err(ESRCH);
    }
    Ok(())
}

/// The identity calls: process, parent and thread ids, user and group 0.
pub open spec fn spec_identity(env: SyscallEnv, which: u8) -> SyscallOutcome {
    if which == 0 {
        ok_u64(env.process.process_id)
    } else if which == 1 {
        ok_u64(env.process.parent_process_id)
    } else if which == 2 {
        ok_u64(env.process.thread_id)
    } else {
        ok(0)
    }
}

pub fn identity(env: &SyscallEnv, which: u8) -> (o: SyscallOutcome)
    ensures
        o == spec_identity(*env, which),
{
    if which == 0 {
        outcome_u64(env.process.process_id)
    } else if which == 1 {
        outcome_u64(env.process.parent_process_id)
    } else if which == 2 {
        outcome_u64(env.process.thread_id)
    } else {
        SyscallOutcome::success(0)
    }
}

// ---------------------------------------------------------------------------
// umask.

/// `umask`: keeps the mode bits of the new mask and returns the previous one (`022` at first).
pub open spec fn spec_umask(s: StateView, m: MemView, env: SyscallEnv, a: Seq<u64>) -> Step {
    if a[0] > u32::MAX as u64 {
        stay(s, m, fail(EINVAL))
    } else {
        let requested = (a[0] as u32) & UMASK_MODE_MASK;
        let pid = env.process.process_id;
        let previous = match lookup(s.umask, pid, 0) {
            Some(v) => v,
            None => DEFAULT_PROCESS_UMASK,
        };
        Step {
            out: ok(previous as i64),
            state: StateView { umask: store(s.umask, pid, 0, requested & UMASK_MODE_MASK), ..s },
            mem: m,
        }
    }
}

pub fn sys_umask(st: &mut SyscallState, mem: &UserMemory, env: &SyscallEnv, args: &[u64; 6]) -> (out: SyscallOutcome)
    ensures
        is_step(out, final(st)@, mem@, spec_umask(old(st)@, mem@, *env, args@)),
{
    if args[0] > u32::MAX as u64 {
        return SyscallOutcome::errno(EINVAL);
    }
    let requested = (args[0] as u32) & UMASK_MODE_MASK;
    let pid = env.process.process_id;
    let previous = match st.umask.get(pid, 0) {
        Some(v) => v,
        None => DEFAULT_PROCESS_UMASK,
    };
    st.umask.set(pid, 0, requested & UMASK_MODE_MASK);
    SyscallOutcome::success(previous as i64)
}

// ---------------------------------------------------------------------------
// wait4.

/// `wait4`: the caller has no children; with `WNOHANG` it returns 0 for its own scope.
pub open spec fn spec_wait4(s: StateView, m: MemView, env: SyscallEnv, a: Seq<u64>) -> Step {
    let pid = a[0] as i64;
    if a[2] > i32::MAX as u64 {
        stay(s, m, fail(EINVAL))
    } else if (a[2] as i32) & !1i32 != 0 {
        stay(s, m, fail(EINVAL))
    } else if env.process.process_id > i64::MAX as u64 {
        stay(s, m, fail(ERANGE))
    } else if !(pid == -1 || pid == 0 || pid == env.process.process_id as i64) {
        stay(s, m, fail(ECHILD))
    } else if (a[2] as i32) & 1i32 != 0 {
        stay(s, m, ok(0))
    } else {
        stay(s, m, fail(ECHILD))
    }
}

pub fn sys_wait4(st: &SyscallState, mem: &UserMemory, env: &SyscallEnv, args: &[u64; 6]) -> (out: SyscallOutcome)
    ensures
        is_step(out, st@, mem@, spec_wait4(st@, mem@, *env, args@)),
{
    let pid = args[0] as i64;
    if args[2] > i32::MAX as u64 {
        return SyscallOutcome::errno(EINVAL);
    }
    let options = args[2] as i32;
    if options & !1i32 != 0 {
        return SyscallOutcome::errno(EINVAL);
    }
    let caller = env.process.process_id;
    if caller > i64::MAX as u64 {
        return SyscallOutcome::errno(ERANGE);
    }
    if !(pid == -1 || pid == 0 || pid == caller as i64) {
        return SyscallOutcome::errno(ECHILD);
    }
    if options & 1i32 != 0 {
        return SyscallOutcome::success(0);
    }
    SyscallOutcome::errno(ECHILD)
}

// ---------------------------------------------------------------------------
// Process groups and sessions.

/// The group ids of `pid`: recorded ones, or its own id for both.
pub open spec fn group_of(s: StateView, pid: u64) -> GroupIds {
    match lookup(s.groups, pid, 0) {
        Some(g) => g,
        None => GroupIds { process_group_id: pid, session_id: pid },
    }
}

/// The group records once the ids of `pid` are read: a missing record is filled in.
pub open spec fn groups_read(s: StateView, pid: u64) -> StateView {
    match lookup(s.groups, pid, 0) {
        Some(_) => s,
        None => StateView { groups: store(s.groups, pid, 0, group_of(s, pid)), ..s },
    }
}

fn read_group(st: &mut SyscallState, pid: u64) -> (g: GroupIds)
    ensures
        g == group_of(old(st)@, pid),
        final(st)@ == groups_read(old(st)@, pid),
{
    st.groups.get_or_insert(pid, 0, GroupIds { process_group_id: pid, session_id: pid })
}

/// `setpgid`: moves the caller to process group `pgid`, its own id when 0.
pub open spec fn spec_setpgid(s: StateView, m: MemView, env: SyscallEnv, a: Seq<u64>) -> Step {
    let pid = a[0] as i64;
    let pgid = a[1] as i64;
    let caller = env.process.process_id;
    if pgid < 0 {
        stay(s, m, fail(EINVAL))
    } else {
        match names_caller(pid, caller) {
            None => stay(s, m, fail(ERANGE)),
            Some(false) => stay(s, m, fail(ESRCH)),
            Some(true) => {
                let next = if pgid == 0 { caller } else { pgid as u64 };
                let g = GroupIds { process_group_id: next, session_id: group_of(s, caller).session_id };
                Step { out: ok(0), state: StateView { groups: store(s.groups, caller, 0, g), ..s }, mem: m }
            },
        }
    }
}

pub fn sys_setpgid(st: &mut SyscallState, mem: &UserMemory, env: &SyscallEnv, args: &[u64; 6]) -> (out: SyscallOutcome)
    ensures
        is_step(out, final(st)@, mem@, spec_setpgid(old(st)@, mem@, *env, args@)),
{
    let pid = args[0] as i64;
    let pgid = args[1] as i64;
    let caller = env.process.process_id;
    if pgid < 0 {
        return SyscallOutcome::errno(EINVAL);
    }
    match check_caller(pid, caller) {
        Err(e) => return SyscallOutcome::errno(e),
        Ok(()) => {},
    }
    let next = if pgid == 0 { caller } else { pgid as u64 };
    let session_id = match st.groups.get(caller, 0) {
        Some(g) => g.session_id,
        None => caller,
    };
    st.groups.set(caller, 0, GroupIds { process_group_id: next, session_id });
    SyscallOutcome::success(0)
}

/// `getpgid` (`which` 0) and `getsid` (`which` 1) of the caller.
pub open spec fn spec_getgroup(s: StateView, m: MemView, env: SyscallEnv, a: Seq<u64>, which: u8) -> Step {
    let caller = env.process.process_id;
    match names_caller(a[0] as i64, caller) {
        None => stay(s, m, fail(ERANGE)),
        Some(false) => stay(s, m, fail(ESRCH)),
        Some(true) => {
            let g = group_of(s, caller);
            Step {
                out: ok_u64(if which == 0 { g.process_group_id } else { g.session_id }),
                state: groups_read(s, caller),
                mem: m,
            }
        },
    }
}

pub fn sys_getgroup(st: &mut SyscallState, mem: &UserMemory, env: &SyscallEnv, args: &[u64; 6], which: u8) -> (out: SyscallOutcome)
    ensures
        is_step(out, final(st)@, mem@, spec_getgroup(old(st)@, mem@, *env, args@, which)),
{
    let caller = env.process.process_id;
    match check_caller(args[0] as i64, caller) {
        Err(e) => return SyscallOutcome::errno(e),
        Ok(()) => {},
    }
    let g = read_group(st, caller);
    outcome_u64(if which == 0 { g.process_group_id } else { g.session_id })
}

/// `setsid`: the caller leads a new session and group named by its id.
pub open spec fn spec_setsid(s: StateView, m: MemView, env: SyscallEnv) -> Step {
    let caller = env.process.process_id;
    Step {
        out: ok_u64(caller),
        state: StateView {
            groups: store(s.groups, caller, 0, GroupIds { process_group_id: caller, session_id: caller }),
            ..s
        },
        mem: m,
    }
}

pub fn sys_setsid(st: &mut SyscallState, mem: &UserMemory, env: &SyscallEnv) -> (out: SyscallOutcome)
    ensures
        is_step(out, final(st)@, mem@, spec_setsid(old(st)@, mem@, *env)),
{
    let caller = env.process.process_id;
    st.groups.set(caller, 0, GroupIds { process_group_id: caller, session_id: caller });
    outcome_u64(caller)
}

// ---------------------------------------------------------------------------
// Resource limits.

pub const RLIM_INFINITY: u64 = 0xffff_ffff_ffff_ffff;
pub const RLIMIT_STACK: u32 = 3;
pub const RLIMIT_NOFILE: u32 = 7;
pub const MAX_OPEN_FILES: u64 = 64;

/// The limits a process starts with: 8 MiB of stack, 64 open files, no limit on the other
/// known resources; `None` for a resource that is not known.
pub open spec fn spec_default_rlimit(resource: u32) -> Option<LinuxRlimit64> {
    if resource == RLIMIT_STACK {
        Some(LinuxRlimit64 { rlim_cur: 0x80_0000, rlim_max: 0x80_0000 })
    } else if resource == RLIMIT_NOFILE {
        Some(LinuxRlimit64 { rlim_cur: MAX_OPEN_FILES, rlim_max: MAX_OPEN_FILES })
    } else if resource <= 15 {
        Some(LinuxRlimit64 { rlim_cur: RLIM_INFINITY, rlim_max: RLIM_INFINITY })
    } else {
        None
    }
}

pub fn default_rlimit_for_resource(resource: u32) -> (r: Option<LinuxRlimit64>)
    ensures
        r == spec_default_rlimit(resource),
{
    if resource == RLIMIT_STACK {
        Some(LinuxRlimit64 { rlim_cur: 0x80_0000, rlim_max: 0x80_0000 })
    } else if resource == RLIMIT_NOFILE {
        Some(LinuxRlimit64 { rlim_cur: MAX_OPEN_FILES, rlim_max: MAX_OPEN_FILES })
    } else if resource <= 15 {
        Some(LinuxRlimit64 { rlim_cur: RLIM_INFINITY, rlim_max: RLIM_INFINITY })
    } else {
        None
    }
}

/// Whether `limit` may replace the limit of `resource`, and the error when not.
pub open spec fn spec_validate_rlimit(resource: u32, limit: LinuxRlimit64) -> Result<(), i64> {
    if limit.rlim_cur > limit.rlim_max {
        Err(EINVAL)
    } else if spec_default_rlimit(resource) is None {
        Err(EINVAL)
    } else if resource == RLIMIT_NOFILE && (limit.rlim_cur > MAX_OPEN_FILES || limit.rlim_max > MAX_OPEN_FILES) {
        Err(EPERM)
    } else {
        Ok(())
    }
}

pub fn validate_rlimit_update(resource: u32, limit: LinuxRlimit64) -> (r: Result<(), i64>)
    ensures
        r == spec_validate_rlimit(resource, limit),
{
    if limit.rlim_cur > limit.rlim_max {
        return Err(EINVAL);
    }
    if default_rlimit_for_resource(resource).is_none() {
        return Err(EINVAL);
    }
    if resource == RLIMIT_NOFILE && (limit.rlim_cur > MAX_OPEN_FILES || limit.rlim_max > MAX_OPEN_FILES) {
        return Err(EPERM);
    }
    Ok(())
}

/// The caller's limit of a known `resource`, with the records once it is read.
pub open spec fn rlimit_read(s: StateView, pid: u64, resource: u32) -> Option<(LinuxRlimit64, StateView)> {
    match spec_default_rlimit(resource) {
        None => None,
        Some(d) => match lookup(s.rlimits, pid, resource) {
            Some(l) => Some((l, s)),
            None => Some((d, StateView { rlimits: store(s.rlimits, pid, resource, d), ..s })),
        },
    }
}

fn read_rlimit(st: &mut SyscallState, pid: u64, resource: u32) -> (r: Option<LinuxRlimit64>)
    ensures
        match rlimit_read(old(st)@, pid, resource) {
            None => r is None && final(st)@ == old(st)@,
            Some((l, s)) => r == Some(l) && final(st)@ == s,
        },
{
    let d = match default_rlimit_for_resource(resource) {
        None => return None,
        Some(d) => d,
    };
    Some(st.rlimits.get_or_insert(pid, resource, d))
}

fn rlimit_to_bytes(l: LinuxRlimit64) -> (b: Vec<u8>)
    ensures
        b@ == rlimit_bytes(l),
{
    let mut b: Vec<u8> = Vec::new();
    push_u64_le(&mut b, l.rlim_cur);
    push_u64_le(&mut b, l.rlim_max);
    assert(b@ =~= rlimit_bytes(l));
    b
}

fn read_user_rlimit(mem: &UserMemory, ptr: u64) -> (r: Result<LinuxRlimit64, i64>)
    ensures
        match spec_get(mem@, ptr, 16) {
            Ok(b) => r == Ok::<LinuxRlimit64, i64>(rlimit_from(b)),
            Err(e) => r == Err::<LinuxRlimit64, i64>(e),
        },
{
    let b = match get_user(mem, ptr, 16) {
        Ok(b) => b,
        Err(e) => return Err(e),
    };
    Ok(LinuxRlimit64 { rlim_cur: get_u64_le(b.as_slice(), 0), rlim_max: get_u64_le(b.as_slice(), 8) })
}

/// `getrlimit`: writes the caller's limit of a known resource.
pub open spec fn spec_getrlimit(s: StateView, m: MemView, env: SyscallEnv, a: Seq<u64>) -> Step {
    if a[0] > u32::MAX as u64 || a[1] == 0 {
        stay(s, m, fail(EINVAL))
    } else {
        match rlimit_read(s, env.process.process_id, a[0] as u32) {
            None => stay(s, m, fail(EINVAL)),
            Some((l, s1)) => match spec_put(m, a[1], rlimit_bytes(l)) {
                Err(e) => stay(s1, m, fail(e)),
                Ok(m1) => Step { out: ok(0), state: s1, mem: m1 },
            },
        }
    }
}

pub fn sys_getrlimit(st: &mut SyscallState, mem: &mut UserMemory, env: &SyscallEnv, args: &[u64; 6]) -> (out: SyscallOutcome)
    ensures
        is_step(out, final(st)@, final(mem)@, spec_getrlimit(old(st)@, old(mem)@, *env, args@)),
{
    if args[0] > u32::MAX as u64 || args[1] == 0 {
        return SyscallOutcome::errno(EINVAL);
    }
    let l = match read_rlimit(st, env.process.process_id, args[0] as u32) {
        None => return SyscallOutcome::errno(EINVAL),
        Some(l) => l,
    };
    let b = rlimit_to_bytes(l);
    match put_user(mem, b.as_slice(), args[1]) {
        Err(e) => SyscallOutcome::errno(e),
        Ok(()) => SyscallOutcome::success(0),
    }
}

/// `setrlimit`: replaces the caller's limit with one read from user memory, when valid.
pub open spec fn spec_setrlimit(s: StateView, m: MemView, env: SyscallEnv, a: Seq<u64>) -> Step {
    if a[0] > u32::MAX as u64 || a[1] == 0 {
        stay(s, m, fail(EINVAL))
    } else {
        match spec_get(m, a[1], 16) {
            Err(e) => stay(s, m, fail(e)),
            Ok(b) => match spec_validate_rlimit(a[0] as u32, rlimit_from(b)) {
                Err(e) => stay(s, m, fail(e)),
                Ok(()) => Step {
                    out: ok(0),
                    state: StateView {
                        rlimits: store(s.rlimits, env.process.process_id, a[0] as u32, rlimit_from(b)),
                        ..s
                    },
                    mem: m,
                },
            },
        }
    }
}

pub fn sys_setrlimit(st: &mut SyscallState, mem: &UserMemory, env: &SyscallEnv, args: &[u64; 6]) -> (out: SyscallOutcome)
    ensures
        is_step(out, final(st)@, mem@, spec_setrlimit(old(st)@, mem@, *env, args@)),
{
    if args[0] > u32::MAX as u64 || args[1] == 0 {
        return SyscallOutcome::errno(EINVAL);
    }
    let resource = args[0] as u32;
    let l = match read_user_rlimit(mem, args[1]) {
        Err(e) => return SyscallOutcome::errno(e),
        Ok(l) => l,
    };
    match validate_rlimit_update(resource, l) {
        Err(e) => return SyscallOutcome::errno(e),
        Ok(()) => {},
    }
    st.rlimits.set(env.process.process_id, resource, l);
    SyscallOutcome::success(0)
}

/// `prlimit64` on the caller: writes the old limit when asked, then sets a new one when given.
pub open spec fn spec_prlimit64(s: StateView, m: MemView, env: SyscallEnv, a: Seq<u64>) -> Step {
    let caller = env.process.process_id;
    if a[1] > u32::MAX as u64 {
        stay(s, m, fail(EINVAL))
    } else {
        match names_caller(a[0] as i64, caller) {
            None => stay(s, m, fail(ERANGE)),
            Some(false) => stay(s, m, fail(ESRCH)),
            Some(true) => match rlimit_read(s, caller, a[1] as u32) {
                None => stay(s, m, fail(EINVAL)),
                Some((l, s1)) => {
                    let put = if a[3] != 0 { spec_put(m, a[3], rlimit_bytes(l)) } else { Ok(m) };
                    match put {
                        Err(e) => stay(s1, m, fail(e)),
                        Ok(m1) => if a[2] == 0 {
                            Step { out: ok(0), state: s1, mem: m1 }
                        } else {
                            match spec_get(m1, a[2], 16) {
                                Err(e) => stay(s1, m1, fail(e)),
                                Ok(b) => match spec_validate_rlimit(a[1] as u32, rlimit_from(b)) {
                                    Err(e) => stay(s1, m1, fail(e)),
                                    Ok(()) => Step {
                                        out: ok(0),
                                        state: StateView {
                                            rlimits: store(s1.rlimits, caller, a[1] as u32, rlimit_from(b)),
                                            ..s1
                                        },
                                        mem: m1,
                                    },
                                },
                            }
                        },
                    }
                },
            },
        }
    }
}

pub fn sys_prlimit64(st: &mut SyscallState, mem: &mut UserMemory, env: &SyscallEnv, args: &[u64; 6]) -> (out: SyscallOutcome)
    ensures
        is_step(out, final(st)@, final(mem)@, spec_prlimit64(old(st)@, old(mem)@, *env, args@)),
{
    let caller = env.process.process_id;
    if args[1] > u32::MAX as u64 {
        return SyscallOutcome::errno(EINVAL);
    }
    let resource = args[1] as u32;
    match check_caller(args[0] as i64, caller) {
        Err(e) => return SyscallOutcome::errno(e),
        Ok(()) => {},
    }
    let current = match read_rlimit(st, caller, resource) {
        None => return SyscallOutcome::errno(EINVAL),
        Some(l) => l,
    };
    if args[3] != 0 {
        let b = rlimit_to_bytes(current);
        match put_user(mem, b.as_slice(), args[3]) {
            Err(e) => return SyscallOutcome::errno(e),
            Ok(()) => {},
        }
    }
    if args[2] == 0 {
        return SyscallOutcome::success(0);
    }
    let l = match read_user_rlimit(mem, args[2]) {
        Err(e) => return SyscallOutcome::errno(e),
        Ok(l) => l,
    };
    match validate_rlimit_update(resource, l) {
        Err(e) => return SyscallOutcome::errno(e),
        Ok(()) => {},
    }
    st.rlimits.set(caller, resource, l);
    SyscallOutcome::success(0)
}

} // verus!
