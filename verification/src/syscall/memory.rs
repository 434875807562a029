use vstd::prelude::*;

use crate::syscall::calls::{ok_u64, outcome_u64};
use crate::syscall::process::{
    fail, is_step, ok, stay, Step, SyscallOutcome, DEFAULT_PROCESS_BRK, EINVAL, ENOMEM, ENOSYS, ERANGE,
};
use crate::syscall::state::{ProcessMapping, StateView, SyscallEnv, SyscallState};
use crate::syscall::table::{lookup, store};
use crate::uaccess::{map_zeroed, spec_map_zeroed, MemView, UserMemory, MAP_PAGE_SIZE};

verus! {

pub const PROT_NONE: u64 = 0;
pub const PROT_READ: u64 = 0x1;
pub const PROT_WRITE: u64 = 0x2;
pub const PROT_EXEC: u64 = 0x4;
pub const PROT_MASK: u64 = 0x7;
pub const MAP_SHARED: u64 = 0x01;
pub const MAP_PRIVATE: u64 = 0x02;
pub const MAP_FIXED: u64 = 0x10;
pub const MAP_ANONYMOUS: u64 = 0x20;

/// The largest size an allocation of page alignment can have.
pub const MAX_LAYOUT_SIZE: u64 = 0x7fff_ffff_ffff_f000;

/// `v` rounded up to a page, `EINVAL` for 0 and `ERANGE` when it overflows.
pub open spec fn spec_align_up_to_page(v: u64) -> Result<u64, i64> {
    if v == 0 {
        Err(EINVAL)
    } else if v + (MAP_PAGE_SIZE - 1) > u64::MAX {
        Err(ERANGE)
    } else {
        Ok(((v + (MAP_PAGE_SIZE - 1)) as u64) & !0xfffu64)
    }
}

pub fn align_up_to_page(v: u64) -> (r: Result<u64, i64>)
    ensures
        r == spec_align_up_to_page(v),
{
    if v == 0 {
        return Err(EINVAL);
    }
    if v > u64::MAX - (MAP_PAGE_SIZE - 1) {
        return Err(ERANGE);
    }
    Ok((v + (MAP_PAGE_SIZE - 1)) & !0xfffu64)
}

/// Protection bits are 0 or a combination of read, write and execute.
pub open spec fn valid_prot(prot: u64) -> bool {
    prot == PROT_NONE || prot & !PROT_MASK == 0
}

/// `mmap`: maps a new zeroed, private or shared, anonymous region of whole pages and
/// records it for the caller; fixed placement and file mappings are refused.
pub open spec fn spec_mmap(s: StateView, m: MemView, env: SyscallEnv, a: Seq<u64>) -> Step {
    let length = a[1];
    let prot = a[2];
    let flags = a[3];
    if length == 0 || !valid_prot(prot) || flags & (MAP_PRIVATE | MAP_SHARED) == 0 || flags & MAP_FIXED != 0 {
        stay(s, m, fail(EINVAL))
    } else if flags & MAP_ANONYMOUS == 0 {
        stay(s, m, fail(ENOSYS))
    } else if a[5] % MAP_PAGE_SIZE != 0 {
        stay(s, m, fail(EINVAL))
    } else {
        match spec_align_up_to_page(length) {
            Err(e) => stay(s, m, fail(e)),
            Ok(len) => if len > MAX_LAYOUT_SIZE {
                stay(s, m, fail(EINVAL))
            } else {
                match spec_map_zeroed(m, len) {
                    None => stay(s, m, fail(ENOMEM)),
                    Some((address, m1)) => if address > i64::MAX as u64 {
                        stay(s, m, fail(ERANGE))
                    } else {
                        Step {
                            out: ok(address as i64),
                            state: StateView {
                                mappings: s.mappings.push(
                                    ProcessMapping {
                                        process_id: env.process.process_id,
                                        base: address,
                                        len,
                                        prot: prot & PROT_MASK,
                                    },
                                ),
                                ..s
                            },
                            mem: m1,
                        }
                    },
                }
            },
        }
    }
}

fn map_address(mem: &UserMemory, len: u64) -> (r: Option<u64>)
    ensures
        match spec_map_zeroed(mem@, len) {
            None => r is None,
            Some((a, _)) => r == Some(a),
        },
{
    let n = mem.bytes.len();
    let pad = (MAP_PAGE_SIZE - (n as u64) % MAP_PAGE_SIZE) % MAP_PAGE_SIZE;
    proof {
        let start = ((n + MAP_PAGE_SIZE - 1) / (MAP_PAGE_SIZE as int)) * MAP_PAGE_SIZE;
        assert(start == n + pad) by (nonlinear_arith)
            requires
                pad == (4096 - n % 4096) % 4096,
                start == ((n + 4096 - 1) / 4096) * 4096,
                n >= 0,
        ;
    }
    if (n as u64) > u64::MAX - pad || (n as u64 + pad) > u64::MAX - len {
        return None;
    }
    let start = n as u64 + pad;
    if start + len > usize::MAX as u64 || mem.base > u64::MAX - (start + len) {
        return None;
    }
    Some(mem.base + start)
}

pub fn sys_mmap(st: &mut SyscallState, mem: &mut UserMemory, env: &SyscallEnv, args: &[u64; 6]) -> (out: SyscallOutcome)
    ensures
        is_step(out, final(st)@, final(mem)@, spec_mmap(old(st)@, old(mem)@, *env, args@)),
{
    let length = args[1];
    let prot = args[2];
    let flags = args[3];
    if length == 0 || !(prot == PROT_NONE || prot & !PROT_MASK == 0) || flags & (MAP_PRIVATE | MAP_SHARED) == 0
        || flags & MAP_FIXED != 0 {
        return SyscallOutcome::errno(EINVAL);
    }
    if flags & MAP_ANONYMOUS == 0 {
        return SyscallOutcome::errno(ENOSYS);
    }
    if args[5] % MAP_PAGE_SIZE != 0 {
        return SyscallOutcome::errno(EINVAL);
    }
    let len = match align_up_to_page(length) {
        Err(e) => return SyscallOutcome::errno(e),
        Ok(len) => len,
    };
    if len > MAX_LAYOUT_SIZE {
        return SyscallOutcome::errno(EINVAL);
    }
    match map_address(mem, len) {
        None => return SyscallOutcome::errno(ENOMEM),
        Some(a) => if a > i64::MAX as u64 {
            return SyscallOutcome::errno(ERANGE);
        },
    }
    let address = match map_zeroed(mem, len) {
        None => return SyscallOutcome::errno(ENOMEM),
        Some(a) => a,
    };
    st.mappings.push(ProcessMapping { process_id: env.process.process_id, base: address, len, prot: prot & PROT_MASK });
    SyscallOutcome::success(address as i64)
}

/// Index of the first mapping of `pid` at `base` of `len` bytes, or the number of mappings.
pub open spec fn find_mapping(ms: Seq<ProcessMapping>, pid: u64, base: u64, len: u64, i: int) -> int
    decreases ms.len() - i,
{
    if i < 0 || i >= ms.len() {
        ms.len() as int
    } else if ms[i].process_id == pid && ms[i].base == base && ms[i].len == len {
        i
    } else {
        find_mapping(ms, pid, base, len, i + 1)
    }
}

proof fn lemma_find_mapping_bounds(ms: Seq<ProcessMapping>, pid: u64, base: u64, len: u64, i: int)
    requires
        0 <= i <= ms.len(),
    ensures
        i <= find_mapping(ms, pid, base, len, i) <= ms.len(),
    decreases ms.len() - i,
{
    if i < ms.len() && !(ms[i].process_id == pid && ms[i].base == base && ms[i].len == len) {
        lemma_find_mapping_bounds(ms, pid, base, len, i + 1);
    }
}

fn mapping_position(ms: &Vec<ProcessMapping>, pid: u64, base: u64, len: u64) -> (k: usize)
    ensures
        k == find_mapping(ms@, pid, base, len, 0),
        k <= ms@.len(),
{
    proof {
        lemma_find_mapping_bounds(ms@, pid, base, len, 0);
    }
    let mut i: usize = 0;
    while i < ms.len()
        invariant
            i <= ms@.len(),
            find_mapping(ms@, pid, base, len, 0) == find_mapping(ms@, pid, base, len, i as int),
        decreases ms@.len() - i,
    {
        let mp = ms[i];
        if mp.process_id == pid && mp.base == base && mp.len == len {
            return i;
        }
        i = i + 1;
    }
    i
}

/// `munmap`: forgets exactly one of the caller's mappings, given by its address and length.
pub open spec fn spec_munmap(s: StateView, m: MemView, env: SyscallEnv, a: Seq<u64>) -> Step {
    if a[1] == 0 {
        stay(s, m, fail(EINVAL))
    } else {
        match spec_align_up_to_page(a[1]) {
            Err(e) => stay(s, m, fail(e)),
            Ok(len) => {
                let k = find_mapping(s.mappings, env.process.process_id, a[0], len, 0);
                if k >= s.mappings.len() {
                    stay(s, m, fail(EINVAL))
                } else {
                    let s1 = StateView { mappings: s.mappings.remove(k), ..s };
                    if s.mappings[k].len > MAX_LAYOUT_SIZE {
                        stay(s1, m, fail(EINVAL))
                    } else {
                        stay(s1, m, ok(0))
                    }
                }
            },
        }
    }
}

pub fn sys_munmap(st: &mut SyscallState, mem: &UserMemory, env: &SyscallEnv, args: &[u64; 6]) -> (out: SyscallOutcome)
    ensures
        is_step(out, final(st)@, mem@, spec_munmap(old(st)@, mem@, *env, args@)),
{
    if args[1] == 0 {
        return SyscallOutcome::errno(EINVAL);
    }
    let len = match align_up_to_page(args[1]) {
        Err(e) => return SyscallOutcome::errno(e),
        Ok(len) => len,
    };
    let k = mapping_position(&st.mappings, env.process.process_id, args[0], len);
    if k >= st.mappings.len() {
        return SyscallOutcome::errno(EINVAL);
    }
    let mapping = st.mappings.remove(k);
    if mapping.len > MAX_LAYOUT_SIZE {
        return SyscallOutcome::errno(EINVAL);
    }
    SyscallOutcome::success(0)
}

/// `mprotect`: changes the protection of exactly one of the caller's mappings.
pub open spec fn spec_mprotect(s: StateView, m: MemView, env: SyscallEnv, a: Seq<u64>) -> Step {
    if a[1] == 0 || !valid_prot(a[2]) {
        stay(s, m, fail(EINVAL))
    } else {
        match spec_align_up_to_page(a[1]) {
            Err(e) => stay(s, m, fail(e)),
            Ok(len) => {
                let k = find_mapping(s.mappings, env.process.process_id, a[0], len, 0);
                if k >= s.mappings.len() {
                    stay(s, m, fail(EINVAL))
                } else {
                    stay(
                        StateView {
                            mappings: s.mappings.update(k, ProcessMapping { prot: a[2] & PROT_MASK, ..s.mappings[k] }),
                            ..s
                        },
                        m,
                        ok(0),
                    )
                }
            },
        }
    }
}

pub fn sys_mprotect(st: &mut SyscallState, mem: &UserMemory, env: &SyscallEnv, args: &[u64; 6]) -> (out: SyscallOutcome)
    ensures
        is_step(out, final(st)@, mem@, spec_mprotect(old(st)@, mem@, *env, args@)),
{
    let prot = args[2];
    if args[1] == 0 || !(prot == PROT_NONE || prot & !PROT_MASK == 0) {
        return SyscallOutcome::errno(EINVAL);
    }
    let len = match align_up_to_page(args[1]) {
        Err(e) => return SyscallOutcome::errno(e),
        Ok(len) => len,
    };
    let k = mapping_position(&st.mappings, env.process.process_id, args[0], len);
    if k >= st.mappings.len() {
        return SyscallOutcome::errno(EINVAL);
    }
    let mp = st.mappings[k];
    st.mappings.set(k, ProcessMapping { prot: prot & PROT_MASK, ..mp });
    SyscallOutcome::success(0)
}

/// The caller's program break: the recorded one, or the default.
pub open spec fn brk_of(s: StateView, pid: u64) -> u64 {
    match lookup(s.brk, pid, 0) {
        Some(b) => b,
        None => DEFAULT_PROCESS_BRK,
    }
}

/// `brk`: reports the break for 0 or a request below the default; otherwise moves it there.
pub open spec fn spec_brk(s: StateView, m: MemView, env: SyscallEnv, a: Seq<u64>) -> Step {
    let pid = env.process.process_id;
    let current = brk_of(s, pid);
    let s1 = match lookup(s.brk, pid, 0) {
        Some(_) => s,
        None => StateView { brk: store(s.brk, pid, 0, DEFAULT_PROCESS_BRK), ..s },
    };
    if a[0] == 0 || a[0] < DEFAULT_PROCESS_BRK {
        stay(s1, m, ok_u64(current))
    } else {
        stay(StateView { brk: store(s1.brk, pid, 0, a[0]), ..s1 }, m, ok_u64(a[0]))
    }
}

pub fn sys_brk(st: &mut SyscallState, mem: &UserMemory, env: &SyscallEnv, args: &[u64; 6]) -> (out: SyscallOutcome)
    ensures
        is_step(out, final(st)@, mem@, spec_brk(old(st)@, mem@, *env, args@)),
{
    let pid = env.process.process_id;
    let current = st.brk.get_or_insert(pid, 0, DEFAULT_PROCESS_BRK);
    let requested = args[0];
    if requested == 0 || requested < DEFAULT_PROCESS_BRK {
        return outcome_u64(current);
    }
    st.brk.set(pid, 0, requested);
    outcome_u64(requested)
}

} // verus!
