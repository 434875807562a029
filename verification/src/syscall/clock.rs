use vstd::prelude::*;
use vstd::string::StringSliceAdditionalSpecFns;

use crate::le::{push_u64_le, u64_le_bytes};
use crate::syscall::calls::{ok_u64, outcome_u64};
use crate::syscall::process::{fail, is_step, ok, put_user, spec_put, stay, Step, SyscallOutcome, EINVAL, ERANGE};
use crate::syscall::state::{
    i64_le_bytes, timespec_bytes, timeval_bytes, LinuxTimespec, LinuxTimeval, StateView, SyscallEnv, SyscallState,
};
use crate::uaccess::{MemView, UserMemory};

verus! {

pub const NANOS_PER_SECOND: u64 = 1_000_000_000;
pub const LINUX_CLOCK_REALTIME: i32 = 0;
pub const LINUX_CLOCK_MONOTONIC: i32 = 1;
pub const MAX_READ_BYTES: u64 = 0x1_0000;

fn push_i64_le(out: &mut Vec<u8>, x: i64)
    ensures
        final(out)@ == old(out)@ + i64_le_bytes(x),
{
    push_u64_le(out, x as u64);
}

fn timespec_to_bytes(t: LinuxTimespec) -> (b: Vec<u8>)
    ensures
        b@ == timespec_bytes(t),
{
    let mut b: Vec<u8> = Vec::new();
    push_i64_le(&mut b, t.tv_sec);
    push_i64_le(&mut b, t.tv_nsec);
    assert(b@ =~= timespec_bytes(t));
    b
}

/// `nanosleep`: returns at once, writing a zero remainder when asked.
pub open spec fn spec_nanosleep(s: StateView, m: MemView, a: Seq<u64>) -> Step {
    if a[0] == 0 {
        stay(s, m, fail(EINVAL))
    } else if a[1] != 0 {
        match spec_put(m, a[1], timespec_bytes(LinuxTimespec { tv_sec: 0, tv_nsec: 0 })) {
            Err(e) => stay(s, m, fail(e)),
            Ok(m1) => stay(s, m1, ok(0)),
        }
    } else {
        stay(s, m, ok(0))
    }
}

pub fn sys_nanosleep(st: &SyscallState, mem: &mut UserMemory, args: &[u64; 6]) -> (out: SyscallOutcome)
    ensures
        is_step(out, st@, final(mem)@, spec_nanosleep(st@, old(mem)@, args@)),
{
    if args[0] == 0 {
        return SyscallOutcome::errno(EINVAL);
    }
    if args[1] != 0 {
        let b = timespec_to_bytes(LinuxTimespec { tv_sec: 0, tv_nsec: 0 });
        match put_user(mem, b.as_slice(), args[1]) {
            Err(e) => return SyscallOutcome::errno(e),
            Ok(()) => {},
        }
    }
    SyscallOutcome::success(0)
}

/// The time since boot as seconds and microseconds.
pub open spec fn uptime_timeval(uptime_ns: u64) -> LinuxTimeval {
    LinuxTimeval {
        tv_sec: (uptime_ns / NANOS_PER_SECOND) as i64,
        tv_usec: ((uptime_ns % NANOS_PER_SECOND) / 1000) as i64,
    }
}

/// The time since boot as seconds and nanoseconds.
pub open spec fn uptime_timespec(uptime_ns: u64) -> LinuxTimespec {
    LinuxTimespec { tv_sec: (uptime_ns / NANOS_PER_SECOND) as i64, tv_nsec: (uptime_ns % NANOS_PER_SECOND) as i64 }
}

/// `gettimeofday`: writes the time since boot.
pub open spec fn spec_gettimeofday(s: StateView, m: MemView, env: SyscallEnv, a: Seq<u64>) -> Step {
    if a[0] == 0 {
        stay(s, m, fail(EINVAL))
    } else {
        match spec_put(m, a[0], timeval_bytes(uptime_timeval(env.process.uptime_ns))) {
            Err(e) => stay(s, m, fail(e)),
            Ok(m1) => stay(s, m1, ok(0)),
        }
    }
}

pub fn sys_gettimeofday(st: &SyscallState, mem: &mut UserMemory, env: &SyscallEnv, args: &[u64; 6]) -> (out: SyscallOutcome)
    ensures
        is_step(out, st@, final(mem)@, spec_gettimeofday(st@, old(mem)@, *env, args@)),
{
    if args[0] == 0 {
        return SyscallOutcome::errno(EINVAL);
    }
    let up = env.process.uptime_ns;
    let tv = LinuxTimeval { tv_sec: (up / NANOS_PER_SECOND) as i64, tv_usec: ((up % NANOS_PER_SECOND) / 1000) as i64 };
    let mut b: Vec<u8> = Vec::new();
    push_i64_le(&mut b, tv.tv_sec);
    push_i64_le(&mut b, tv.tv_usec);
    assert(b@ =~= timeval_bytes(uptime_timeval(up)));
    match put_user(mem, b.as_slice(), args[0]) {
        Err(e) => SyscallOutcome::errno(e),
        Ok(()) => SyscallOutcome::success(0),
    }
}

/// `clock_gettime` of the realtime or monotonic clock: both give the time since boot.
pub open spec fn spec_clock_gettime(s: StateView, m: MemView, env: SyscallEnv, a: Seq<u64>) -> Step {
    let clock = a[0] as i32;
    if clock != LINUX_CLOCK_REALTIME && clock != LINUX_CLOCK_MONOTONIC {
        stay(s, m, fail(EINVAL))
    } else {
        match spec_put(m, a[1], timespec_bytes(uptime_timespec(env.process.uptime_ns))) {
            Err(e) => stay(s, m, fail(e)),
            Ok(m1) => stay(s, m1, ok(0)),
        }
    }
}

pub fn sys_clock_gettime(st: &SyscallState, mem: &mut UserMemory, env: &SyscallEnv, args: &[u64; 6]) -> (out: SyscallOutcome)
    ensures
        is_step(out, st@, final(mem)@, spec_clock_gettime(st@, old(mem)@, *env, args@)),
{
    let clock = args[0] as i32;
    if clock != LINUX_CLOCK_REALTIME && clock != LINUX_CLOCK_MONOTONIC {
        return SyscallOutcome::errno(EINVAL);
    }
    let up = env.process.uptime_ns;
    let b = timespec_to_bytes(
        LinuxTimespec { tv_sec: (up / NANOS_PER_SECOND) as i64, tv_nsec: (up % NANOS_PER_SECOND) as i64 },
    );
    match put_user(mem, b.as_slice(), args[1]) {
        Err(e) => SyscallOutcome::errno(e),
        Ok(()) => SyscallOutcome::success(0),
    }
}

/// `uptime`: the time since boot in nanoseconds.
pub open spec fn spec_uptime(env: SyscallEnv) -> SyscallOutcome {
    ok_u64(env.process.uptime_ns)
}

// ---------------------------------------------------------------------------
// Pseudo-random bytes.

pub const GRND_MASK: u64 = 0x7;

/// `x` rotated left by `r` bits.
pub open spec fn rotl(x: u64, r: u64) -> u64 {
    (x << r) | (x >> (64 - r) as u64)
}

/// The generator's starting state: the time since boot mixed with the caller's ids, never 0.
pub open spec fn prng_seed(uptime_ns: u64, pid: u64, tid: u64) -> u64 {
    let s = uptime_ns ^ rotl(pid, 13) ^ rotl(tid, 29) ^ 0x9e37_79b9_7f4a_7c15u64;
    if s == 0 {
        0xa076_1d64_78bd_642fu64
    } else {
        s
    }
}

/// One xorshift step.
pub open spec fn xorshift(x: u64) -> u64 {
    let a = x ^ (x << 13u64);
    let b = a ^ (a >> 7u64);
    b ^ (b << 17u64)
}

/// The generator's state after `n` steps.
pub open spec fn prng_state(seed: u64, n: nat) -> u64
    decreases n,
{
    if n == 0 {
        seed
    } else {
        xorshift(prng_state(seed, (n - 1) as nat))
    }
}

/// The first `n` pseudo-random bytes: the low byte of each state after a step.
pub open spec fn prng_bytes(seed: u64, n: nat) -> Seq<u8> {
    Seq::new(n, |i: int| (prng_state(seed, (i + 1) as nat) & 0xff) as u8)
}

fn seed_for(env: &SyscallEnv) -> (s: u64)
    ensures
        s == prng_seed(env.process.uptime_ns, env.process.process_id, env.process.thread_id),
{
    let pid = env.process.process_id;
    let tid = env.process.thread_id;
    let s = env.process.uptime_ns ^ ((pid << 13u64) | (pid >> 51u64)) ^ ((tid << 29u64) | (tid >> 35u64))
        ^ 0x9e37_79b9_7f4a_7c15u64;
    if s == 0 {
        0xa076_1d64_78bd_642fu64
    } else {
        s
    }
}

fn fill_pseudo_random_bytes(seed: u64, count: usize) -> (b: Vec<u8>)
    ensures
        b@ == prng_bytes(seed, count as nat),
{
    let mut b: Vec<u8> = Vec::new();
    let mut state = seed;
    let mut i: usize = 0;
    while i < count
        invariant
            i <= count,
            state == prng_state(seed, i as nat),
            b@ == prng_bytes(seed, i as nat),
        decreases count - i,
    {
        let a = state ^ (state << 13u64);
        let c = a ^ (a >> 7u64);
        state = c ^ (c << 17u64);
        b.push((state & 0xff) as u8);
        proof {
            assert(state == prng_state(seed, (i + 1) as nat));
            assert(b@ =~= prng_bytes(seed, (i + 1) as nat));
        }
        i = i + 1;
    }
    b
}

/// `getrandom`: writes `count` pseudo-random bytes, at most 64 KiB.
pub open spec fn spec_getrandom(s: StateView, m: MemView, env: SyscallEnv, a: Seq<u64>) -> Step {
    let count = a[1];
    if a[2] & !GRND_MASK != 0 {
        stay(s, m, fail(EINVAL))
    } else if count > MAX_READ_BYTES {
        stay(s, m, fail(ERANGE))
    } else if count == 0 {
        stay(s, m, ok(0))
    } else {
        let seed = prng_seed(env.process.uptime_ns, env.process.process_id, env.process.thread_id);
        match spec_put(m, a[0], prng_bytes(seed, count as nat)) {
            Err(e) => stay(s, m, fail(e)),
            Ok(m1) => stay(s, m1, ok(count as i64)),
        }
    }
}

pub fn sys_getrandom(st: &SyscallState, mem: &mut UserMemory, env: &SyscallEnv, args: &[u64; 6]) -> (out: SyscallOutcome)
    ensures
        is_step(out, st@, final(mem)@, spec_getrandom(st@, old(mem)@, *env, args@)),
{
    let count = args[1];
    if args[2] & !GRND_MASK != 0 {
        return SyscallOutcome::errno(EINVAL);
    }
    if count > MAX_READ_BYTES {
        return SyscallOutcome::errno(ERANGE);
    }
    if count == 0 {
        return SyscallOutcome::success(0);
    }
    let seed = seed_for(env);
    let b = fill_pseudo_random_bytes(seed, count as usize);
    match put_user(mem, b.as_slice(), args[0]) {
        Err(e) => SyscallOutcome::errno(e),
        Ok(()) => SyscallOutcome::success(count as i64),
    }
}

// ---------------------------------------------------------------------------
// uname.

/// A 65-byte name field: the name's first 64 bytes at most, then zeros.
pub open spec fn uts_field(name: Seq<u8>) -> Seq<u8> {
    let n = if name.len() < 64 { name.len() as int } else { 64 };
    name.take(n) + Seq::new((65 - n) as nat, |i: int| 0u8)
}

/// The six fields of the Linux personality.
pub open spec fn linux_uts() -> Seq<u8> {
    uts_field("Linux".spec_bytes()) + uts_field("hxnu".spec_bytes()) + uts_field("0.1.0-hxnu".spec_bytes()) + uts_field(
        "HXNU micro-hybrid kernel bootstrap".spec_bytes(),
    ) + uts_field("x86_64".spec_bytes()) + uts_field("localdomain".spec_bytes())
}

/// The six fields of the Ghost personality.
pub open spec fn ghost_uts() -> Seq<u8> {
    uts_field("Ghost".spec_bytes()) + uts_field("hxnu".spec_bytes()) + uts_field("0.1.0-ghost".spec_bytes()) + uts_field(
        "HXNU ghost compatibility bootstrap".spec_bytes(),
    ) + uts_field("x86_64".spec_bytes()) + uts_field("legacy".spec_bytes())
}

fn push_uts_field(out: &mut Vec<u8>, name: &str)
    ensures
        final(out)@ == old(out)@ + uts_field(name.spec_bytes()),
{
    let bytes = name.as_bytes();
    let n = if bytes.len() < 64 { bytes.len() } else { 64 };
    crate::bstr::push_all(out, &bytes[0..n]);
    let ghost head = old(out)@ + bytes@.take(n as int);
    assert(out@ =~= head);
    let mut i: usize = n;
    while i < 65
        invariant
            n <= i <= 65,
            out@ == head + Seq::new((i - n) as nat, |j: int| 0u8),
        decreases 65 - i,
    {
        out.push(0);
        assert(out@ =~= head + Seq::new((i + 1 - n) as nat, |j: int| 0u8));
        i = i + 1;
    }
    assert(out@ =~= old(out)@ + uts_field(name.spec_bytes()));
}

/// `uname`: writes the six name fields of the personality.
pub open spec fn spec_uname(s: StateView, m: MemView, a: Seq<u64>, fields: Seq<u8>) -> Step {
    match spec_put(m, a[0], fields) {
        Err(e) => stay(s, m, fail(e)),
        Ok(m1) => stay(s, m1, ok(0)),
    }
}

fn uts_bytes(ghost_personality: bool) -> (b: Vec<u8>)
    ensures
        b@ == if ghost_personality { ghost_uts() } else { linux_uts() },
{
    proof {
        reveal_strlit("Linux");
        reveal_strlit("Ghost");
        reveal_strlit("hxnu");
        reveal_strlit("0.1.0-hxnu");
        reveal_strlit("0.1.0-ghost");
        reveal_strlit("HXNU micro-hybrid kernel bootstrap");
        reveal_strlit("HXNU ghost compatibility bootstrap");
        reveal_strlit("x86_64");
        reveal_strlit("localdomain");
        reveal_strlit("legacy");
    }
    let mut b: Vec<u8> = Vec::new();
    if ghost_personality {
        push_uts_field(&mut b, "Ghost");
        push_uts_field(&mut b, "hxnu");
        push_uts_field(&mut b, "0.1.0-ghost");
        push_uts_field(&mut b, "HXNU ghost compatibility bootstrap");
        push_uts_field(&mut b, "x86_64");
        push_uts_field(&mut b, "legacy");
        assert(b@ =~= ghost_uts());
    } else {
        push_uts_field(&mut b, "Linux");
        push_uts_field(&mut b, "hxnu");
        push_uts_field(&mut b, "0.1.0-hxnu");
        push_uts_field(&mut b, "HXNU micro-hybrid kernel bootstrap");
        push_uts_field(&mut b, "x86_64");
        push_uts_field(&mut b, "localdomain");
        assert(b@ =~= linux_uts());
    }
    b
}

pub fn sys_uname(st: &SyscallState, mem: &mut UserMemory, args: &[u64; 6], ghost_personality: bool) -> (out: SyscallOutcome)
    ensures
        is_step(
            out,
            st@,
            final(mem)@,
            spec_uname(st@, old(mem)@, args@, if ghost_personality { ghost_uts() } else { linux_uts() }),
        ),
{
    let b = uts_bytes(ghost_personality);
    match put_user(mem, b.as_slice(), args[0]) {
        Err(e) => SyscallOutcome::errno(e),
        Ok(()) => SyscallOutcome::success(0),
    }
}

} // verus!
