use vstd::prelude::*;

use crate::le::{get_u64_le, le_u64, push_u64_le, u64_le_bytes};
use crate::syscall::process::{
    empty_sigaction, fail, get_user, is_step, ok, put_user, spec_get, spec_put, stay, Step, SyscallOutcome, EINVAL,
};
use crate::syscall::state::{
    sigaction_bytes, sigaction_from, LinuxKernelSigAction, StateView, SyscallEnv, SyscallState,
};
use crate::syscall::table::{lookup, store};
use crate::uaccess::{MemView, UserMemory};

verus! {

pub const RT_SIGSET_SIZE: u64 = 8;
pub const SIG_BLOCK: i32 = 0;
pub const SIG_UNBLOCK: i32 = 1;
pub const SIG_SETMASK: i32 = 2;
pub const MAX_SIGNAL_NUMBER: u64 = 64;
pub const SIGKILL: u64 = 9;
pub const SIGSTOP: u64 = 19;

/// The caller's blocked-signal mask: the recorded one, or none blocked.
pub open spec fn mask_of(s: StateView, pid: u64) -> u64 {
    match lookup(s.signal_masks, pid, 0) {
        Some(v) => v,
        None => 0,
    }
}

/// `rt_sigprocmask`: writes the old mask when asked, then blocks, unblocks or replaces
/// with the set read from user memory.
pub open spec fn spec_rt_sigprocmask(s: StateView, m: MemView, env: SyscallEnv, a: Seq<u64>) -> Step {
    let pid = env.process.process_id;
    if a[0] > i32::MAX as u64 {
        stay(s, m, fail(EINVAL))
    } else if a[3] != RT_SIGSET_SIZE {
        stay(s, m, fail(EINVAL))
    } else {
        let current = mask_of(s, pid);
        let s1 = match lookup(s.signal_masks, pid, 0) {
            Some(_) => s,
            None => StateView { signal_masks: store(s.signal_masks, pid, 0, 0u64), ..s },
        };
        let put = if a[2] != 0 { spec_put(m, a[2], u64_le_bytes(current)) } else { Ok(m) };
        match put {
            Err(e) => stay(s1, m, fail(e)),
            Ok(m1) => if a[1] == 0 {
                stay(s1, m1, ok(0))
            } else {
                match spec_get(m1, a[1], 8) {
                    Err(e) => stay(s1, m1, fail(e)),
                    Ok(b) => {
                        let set = le_u64(b, 0) as u64;
                        let how = a[0] as i32;
                        if how == SIG_BLOCK {
                            Step {
                                out: ok(0),
                                state: StateView { signal_masks: store(s1.signal_masks, pid, 0, current | set), ..s1 },
                                mem: m1,
                            }
                        } else if how == SIG_UNBLOCK {
                            Step {
                                out: ok(0),
                                state: StateView { signal_masks: store(s1.signal_masks, pid, 0, current & !set), ..s1 },
                                mem: m1,
                            }
                        } else if how == SIG_SETMASK {
                            Step {
                                out: ok(0),
                                state: StateView { signal_masks: store(s1.signal_masks, pid, 0, set), ..s1 },
                                mem: m1,
                            }
                        } else {
                            stay(s1, m1, fail(EINVAL))
                        }
                    },
                }
            },
        }
    }
}

pub fn sys_rt_sigprocmask(st: &mut SyscallState, mem: &mut UserMemory, env: &SyscallEnv, args: &[u64; 6]) -> (out: SyscallOutcome)
    ensures
        is_step(out, final(st)@, final(mem)@, spec_rt_sigprocmask(old(st)@, old(mem)@, *env, args@)),
{
    let pid = env.process.process_id;
    if args[0] > i32::MAX as u64 {
        return SyscallOutcome::errno(EINVAL);
    }
    let how = args[0] as i32;
    if args[3] != RT_SIGSET_SIZE {
        return SyscallOutcome::errno(EINVAL);
    }
    let current = st.signal_masks.get_or_insert(pid, 0, 0);
    if args[2] != 0 {
        let mut b: Vec<u8> = Vec::new();
        push_u64_le(&mut b, current);
        match put_user(mem, b.as_slice(), args[2]) {
            Err(e) => return SyscallOutcome::errno(e),
            Ok(()) => {},
        }
    }
    if args[1] == 0 {
        return SyscallOutcome::success(0);
    }
    let b = match get_user(mem, args[1], 8) {
        Err(e) => return SyscallOutcome::errno(e),
        Ok(b) => b,
    };
    let set = get_u64_le(b.as_slice(), 0);
    let next = if how == SIG_BLOCK {
        current | set
    } else if how == SIG_UNBLOCK {
        current & !set
    } else if how == SIG_SETMASK {
        set
    } else {
        return SyscallOutcome::errno(EINVAL);
    };
    st.signal_masks.set(pid, 0, next);
    SyscallOutcome::success(0)
}

/// The disposition of signal `signum` for `pid`: the recorded one, or the empty one.
pub open spec fn action_of(s: StateView, pid: u64, signum: u64) -> LinuxKernelSigAction {
    match lookup(s.signal_actions, pid, signum as u32) {
        Some(a) => a,
        None => empty_sigaction(),
    }
}

/// `rt_sigaction`: writes the old disposition when asked, then sets the one read from
/// user memory; `SIGKILL` and `SIGSTOP` keep theirs.
pub open spec fn spec_rt_sigaction(s: StateView, m: MemView, env: SyscallEnv, a: Seq<u64>) -> Step {
    let pid = env.process.process_id;
    let signum = a[0];
    if signum == 0 || signum > MAX_SIGNAL_NUMBER {
        stay(s, m, fail(EINVAL))
    } else if a[3] != RT_SIGSET_SIZE {
        stay(s, m, fail(EINVAL))
    } else {
        let put = if a[2] != 0 { spec_put(m, a[2], sigaction_bytes(action_of(s, pid, signum))) } else { Ok(m) };
        match put {
            Err(e) => stay(s, m, fail(e)),
            Ok(m1) => if a[1] == 0 {
                stay(s, m1, ok(0))
            } else if signum == SIGKILL || signum == SIGSTOP {
                stay(s, m1, fail(EINVAL))
            } else {
                match spec_get(m1, a[1], 32) {
                    Err(e) => stay(s, m1, fail(e)),
                    Ok(b) => Step {
                        out: ok(0),
                        state: StateView {
                            signal_actions: store(s.signal_actions, pid, signum as u32, sigaction_from(b)),
                            ..s
                        },
                        mem: m1,
                    },
                }
            },
        }
    }
}

fn sigaction_to_bytes(act: LinuxKernelSigAction) -> (b: Vec<u8>)
    ensures
        b@ == sigaction_bytes(act),
{
    let mut b: Vec<u8> = Vec::new();
    push_u64_le(&mut b, act.handler);
    push_u64_le(&mut b, act.flags);
    push_u64_le(&mut b, act.restorer);
    push_u64_le(&mut b, act.mask);
    assert(b@ =~= sigaction_bytes(act));
    b
}

fn sigaction_of_bytes(b: &[u8]) -> (act: LinuxKernelSigAction)
    requires
        b@.len() == 32,
    ensures
        act == sigaction_from(b@),
{
    LinuxKernelSigAction {
        handler: get_u64_le(b, 0),
        flags: get_u64_le(b, 8),
        restorer: get_u64_le(b, 16),
        mask: get_u64_le(b, 24),
    }
}

#[verifier::rlimit(30)]
pub fn sys_rt_sigaction(st: &mut SyscallState, mem: &mut UserMemory, env: &SyscallEnv, args: &[u64; 6]) -> (out: SyscallOutcome)
    ensures
        is_step(out, final(st)@, final(mem)@, spec_rt_sigaction(old(st)@, old(mem)@, *env, args@)),
{
    let pid = env.process.process_id;
    let signum = args[0];
    if signum == 0 || signum > MAX_SIGNAL_NUMBER {
        return SyscallOutcome::errno(EINVAL);
    }
    if args[3] != RT_SIGSET_SIZE {
        return SyscallOutcome::errno(EINVAL);
    }
    if args[2] != 0 {
        let current = match st.signal_actions.get(pid, signum as u32) {
            Some(a) => a,
            None => LinuxKernelSigAction { handler: 0, flags: 0, restorer: 0, mask: 0 },
        };
        let b = sigaction_to_bytes(current);
        match put_user(mem, b.as_slice(), args[2]) {
            Err(e) => return SyscallOutcome::errno(e),
            Ok(()) => {},
        }
    }
    if args[1] == 0 {
        return SyscallOutcome::success(0);
    }
    if signum == SIGKILL || signum == SIGSTOP {
        return SyscallOutcome::errno(EINVAL);
    }
    let b = match get_user(mem, args[1], 32) {
        Err(e) => return SyscallOutcome::errno(e),
        Ok(b) => b,
    };
    let act = sigaction_of_bytes(b.as_slice());
    st.signal_actions.set(pid, signum as u32, act);
    SyscallOutcome::success(0)
}

} // verus!
