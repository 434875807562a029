use vstd::prelude::*;
use vstd::string::StringSliceAdditionalSpecFns;

use crate::syscall::calls::spec_identity;
use crate::syscall::dispatch::{
    dispatch, spec_abi_call, spec_call, Call, SyscallAbi, GHOST_SYS_CLOSE, GHOST_SYS_GETTID, GHOST_SYS_OPEN, GHOST_SYS_READ,
    HXNU_NATIVE_ABI_VERSION, HXNU_SYS_ABI_VERSION, HXNU_SYS_CLOSE, HXNU_SYS_OPEN, HXNU_SYS_READ, LINUX_SYS_CLOSE,
    LINUX_SYS_GETPID, LINUX_SYS_OPENAT, LINUX_SYS_READ, LINUX_SYS_WRITE,
};
use crate::syscall::console::MAX_WRITE_BYTES;
use crate::syscall::probe::lemma_put_keeps_shape;
use crate::syscall::process::{put_user, spec_get, SyscallAction, ERANGE};
use crate::syscall::files::{find_file, AT_FDCWD};
use crate::syscall::paths::{lemma_open_at_failure, lemma_open_at_success, spec_open_at};
use crate::syscall::probe::{
    file_found, lemma_close_found, lemma_open_version, version_path_cstr, lemma_read_found, path_staged_at, read_len, scratch_mapped,
    version_is_file,
    version_text,
};
use crate::syscall::state::{FileView, StateView, SyscallEnv, SyscallState};
use crate::uaccess::{MemView, UserMemory};

verus! {

/// The registers saved by the system call trap entry.
#[derive(Copy, Clone)]
pub struct SyscallRegisterFrame {
    pub rax: u64,
    pub rbx: u64,
    pub rcx: u64,
    pub rdx: u64,
    pub rsi: u64,
    pub rdi: u64,
    pub r8: u64,
    pub r9: u64,
    pub r10: u64,
    pub r11: u64,
    pub r12: u64,
    pub r13: u64,
    pub r14: u64,
    pub r15: u64,
}

/// The results of the system calls made through the trap gate at boot.
#[derive(Copy, Clone)]
pub struct SyscallSelfTest {
    pub linux_write_result: i64,
    pub linux_openat_result: i64,
    pub linux_read_result: i64,
    pub linux_close_result: i64,
    pub linux_getpid_result: i64,
    pub ghost_open_result: i64,
    pub ghost_read_result: i64,
    pub ghost_close_result: i64,
    pub ghost_gettid_result: i64,
    pub hxnu_open_result: i64,
    pub hxnu_read_result: i64,
    pub hxnu_close_result: i64,
    pub hxnu_abi_version_result: i64,
}

/// The value of `r12` that selects a personality at the trap gate.
pub open spec fn spec_abi_selector(abi: SyscallAbi) -> u64 {
    match abi {
        SyscallAbi::LinuxBootstrap => 0,
        SyscallAbi::GhostBootstrap => 1,
        SyscallAbi::HxnuNativeBootstrap => 2,
    }
}

/// The personality an `r12` value selects.
pub open spec fn spec_decode_abi(selector: u64) -> Option<SyscallAbi> {
    if selector == 0 {
        Some(SyscallAbi::LinuxBootstrap)
    } else if selector == 1 {
        Some(SyscallAbi::GhostBootstrap)
    } else if selector == 2 {
        Some(SyscallAbi::HxnuNativeBootstrap)
    } else {
        None
    }
}

pub fn syscall_abi_selector(abi: SyscallAbi) -> (selector: u64)
    ensures
        selector == spec_abi_selector(abi),
{
    match abi {
        SyscallAbi::LinuxBootstrap => 0,
        SyscallAbi::GhostBootstrap => 1,
        SyscallAbi::HxnuNativeBootstrap => 2,
    }
}

pub fn decode_syscall_abi(selector: u64) -> (abi: Option<SyscallAbi>)
    ensures
        abi == spec_decode_abi(selector),
{
    match selector {
        0 => Some(SyscallAbi::LinuxBootstrap),
        1 => Some(SyscallAbi::GhostBootstrap),
        2 => Some(SyscallAbi::HxnuNativeBootstrap),
        _ => None,
    }
}

/// The selector of a personality decodes to that personality, and a selector that
/// decodes is the selector of what it decodes to.
pub proof fn lemma_abi_selector_roundtrip(abi: SyscallAbi, selector: u64)
    ensures
        spec_decode_abi(spec_abi_selector(abi)) == Some(abi),
        spec_decode_abi(selector) matches Some(a) ==> spec_abi_selector(a) == selector,
{
}

/// The arguments a trap frame carries, in system call order.
pub open spec fn frame_args(f: SyscallRegisterFrame) -> Seq<u64> {
    seq![f.rdi, f.rsi, f.rdx, f.r10, f.r8, f.r9]
}

/// What the trap gate hands back in `rax` for a frame, and how the call ends.
pub open spec fn frame_reply(
    st: crate::syscall::state::StateView,
    m: crate::uaccess::MemView,
    env: SyscallEnv,
    f: SyscallRegisterFrame,
) -> (u64, SyscallAction, crate::syscall::state::StateView, crate::uaccess::MemView) {
    match spec_decode_abi(f.r12) {
        None => (((-38i64) as u64), SyscallAction::Continue, st, m),
        Some(abi) => {
            let step = spec_call(st, m, env, spec_abi_call(abi, f.rax), frame_args(f));
            ((step.out.value as u64), step.out.action, step.state, step.mem)
        },
    }
}

/// Serves the system call a trap frame describes: `r12` selects the personality,
/// `rax` the call, and the argument registers its arguments. Returns the value for
/// `rax` and how the call ends; an unknown personality fails with `ENOSYS`.
pub fn handle_syscall_frame(st: &mut SyscallState, mem: &mut UserMemory, env: &SyscallEnv, frame: &SyscallRegisterFrame) -> (r: (u64, SyscallAction))
    requires
        env.wf(),
    ensures
        ({
            let reply = frame_reply(old(st)@, old(mem)@, *env, *frame);
            &&& r == (reply.0, reply.1)
            &&& final(st)@ == reply.2
            &&& final(mem)@ == reply.3
        }),
{
    let abi = match decode_syscall_abi(frame.r12) {
        Some(abi) => abi,
        None => return ((-38i64) as u64, SyscallAction::Continue),
    };
    let outcome = dispatch(st, mem, env, abi, frame.rax, [frame.rdi, frame.rsi, frame.rdx, frame.r10, frame.r8, frame.r9]);
    assert([frame.rdi, frame.rsi, frame.rdx, frame.r10, frame.r8, frame.r9]@ =~= frame_args(*frame));
    (outcome.value as u64, outcome.action)
}

/// Makes a system call through the trap gate, as user code would.
fn invoke_syscall(st: &mut SyscallState, mem: &mut UserMemory, env: &SyscallEnv, abi: SyscallAbi, number: u64, args: [u64; 6]) -> (v: i64)
    requires
        env.wf(),
    ensures
        v == spec_call(old(st)@, old(mem)@, *env, spec_abi_call(abi, number), args@).out.value,
        final(st)@ == spec_call(old(st)@, old(mem)@, *env, spec_abi_call(abi, number), args@).state,
        final(mem)@ == spec_call(old(st)@, old(mem)@, *env, spec_abi_call(abi, number), args@).mem,
{
    let frame = SyscallRegisterFrame {
        rax: number,
        rbx: 0,
        rcx: 0,
        rdx: args[2],
        rsi: args[1],
        rdi: args[0],
        r8: args[4],
        r9: args[5],
        r10: args[3],
        r11: 0,
        r12: syscall_abi_selector(abi),
        r13: 0,
        r14: 0,
        r15: 0,
    };
    assert(frame_args(frame) =~= args@);
    let (raw, _action) = handle_syscall_frame(st, mem, env, &frame);
    let ghost x = spec_call(old(st)@, old(mem)@, *env, spec_abi_call(abi, number), args@).out.value;
    assert(raw == x as u64);
    assert(((x as u64) as i64) == x) by (bit_vector);
    raw as i64
}

pub const SELF_TEST_TEXT: u64 = 0;

/// The bytes the self test writes to standard output.
pub open spec fn self_test_text() -> Seq<u8> {
    "HXNU: int 0x80 linux syscall self-test\n".spec_bytes()
}

/// The user memory holds the self test's text at its start.
pub open spec fn self_test_text_mapped(m: MemView) -> bool {
    spec_get(m, m.base, self_test_text().len() as u64) is Ok
}

/// The self test's `write` to standard output through the trap gate.
fn self_test_write(st: &mut SyscallState, mem: &mut UserMemory, env: &SyscallEnv, ptr: u64, len: u64) -> (v: i64)
    requires
        env.wf(),
    ensures
        spec_get(old(mem)@, ptr, len) is Ok ==> v == (if len > MAX_WRITE_BYTES { -ERANGE } else { len as int }),
        final(mem)@ == old(mem)@,
        final(st)@.files == old(st)@.files,
        final(st)@.next_fd == old(st)@.next_fd,
{
    let args: [u64; 6] = [1, ptr, len, 0, 0, 0];
    let ghost s0 = st@;
    let ghost m0 = mem@;
    assert(spec_abi_call(SyscallAbi::LinuxBootstrap, LINUX_SYS_WRITE) == Call::Write);
    let v = invoke_syscall(st, mem, env, SyscallAbi::LinuxBootstrap, LINUX_SYS_WRITE, args);
    assert(spec_call(s0, m0, *env, Call::Write, args@) == crate::syscall::console::spec_write_fd(s0, m0, *env, args@));
    v
}
pub const SELF_TEST_PATH: u64 = 64;
pub const SELF_TEST_BUFFER: u64 = 128;

/// A file of `pid` under `fd` at or after `i` is found.
proof fn lemma_find_present(fs: Seq<FileView>, fd: i32, pid: u64, k: int, i: int)
    requires
        0 <= i <= k < fs.len(),
        fs[k].fd == fd,
        fs[k].owner_process_id == pid,
    ensures
        find_file(fs, fd, pid, i) < fs.len(),
    decreases k - i,
{
    if !(fs[i].fd == fd && fs[i].owner_process_id == pid) {
        lemma_find_present(fs, fd, pid, k, i + 1);
    }
}

/// A call through the trap gate whose number names `c`: the step it takes.
fn invoke_known(st: &mut SyscallState, mem: &mut UserMemory, env: &SyscallEnv, abi: SyscallAbi, number: u64, c: Call, args: [u64; 6]) -> (v: i64)
    requires
        env.wf(),
        spec_abi_call(abi, number) == c,
    ensures
        ({
            let step = spec_call(old(st)@, old(mem)@, *env, c, args@);
            v == step.out.value && final(st)@ == step.state && final(mem)@ == step.mem
        }),
{
    invoke_syscall(st, mem, env, abi, number, args)
}

/// Whether `pid` has a file under descriptor `fd`.
pub open spec fn has_descriptor(s: crate::syscall::state::StateView, pid: u64, fd: u64) -> bool {
    fd <= i32::MAX as u64 && exists|k: int|
        0 <= k < s.files.len() && #[trigger] s.files[k].fd == fd as i32 && s.files[k].owner_process_id == pid
}

fn linux_open_step(st: &mut SyscallState, mem: &mut UserMemory, env: &SyscallEnv, open_nr: u64, path: u64) -> (v: i64)
    requires
        env.wf(),
        spec_abi_call(SyscallAbi::LinuxBootstrap, open_nr) == Call::OpenAt,
    ensures
        ({
            let step = spec_open_at(old(st)@, old(mem)@, *env, -100i64, path, 0);
            v == step.out.value && final(st)@ == step.state && final(mem)@ == step.mem
        }),
{
    let ghost s0 = st@;
    let ghost m0 = mem@;
    let args: [u64; 6] = [(-100i64) as u64, path, 0, 0, 0, 0];
    let v = invoke_known(st, mem, env, SyscallAbi::LinuxBootstrap, open_nr, Call::OpenAt, args);
    assert(((-100i64) as u64) as i64 == -100i64) by (bit_vector);
    assert(spec_call(s0, m0, *env, Call::OpenAt, args@) == spec_open_at(s0, m0, *env, -100i64, path, 0));
    v
}

fn plain_open_step(st: &mut SyscallState, mem: &mut UserMemory, env: &SyscallEnv, abi: SyscallAbi, open_nr: u64, path: u64) -> (v: i64)
    requires
        env.wf(),
        spec_abi_call(abi, open_nr) == Call::Open,
    ensures
        ({
            let step = spec_open_at(old(st)@, old(mem)@, *env, AT_FDCWD, path, 0);
            v == step.out.value && final(st)@ == step.state && final(mem)@ == step.mem
        }),
{
    let ghost s0 = st@;
    let ghost m0 = mem@;
    let args: [u64; 6] = [path, 0, 0, 0, 0, 0];
    let v = invoke_known(st, mem, env, abi, open_nr, Call::Open, args);
    assert(spec_call(s0, m0, *env, Call::Open, args@) == spec_open_at(s0, m0, *env, AT_FDCWD, path, 0));
    v
}

/// Reading changes the position of open files only.
proof fn lemma_read_keeps_descriptors(s: crate::syscall::state::StateView, m: crate::uaccess::MemView, pid: u64, fd: i32, dst: u64, count: u64)
    ensures
        ({
            let after = crate::syscall::reads::spec_read_open(s, m, pid, fd, dst, count).1;
            &&& after.files.len() == s.files.len()
            &&& forall|j: int|
                0 <= j < s.files.len() ==> (#[trigger] after.files[j]).fd == s.files[j].fd && after.files[j].owner_process_id
                    == s.files[j].owner_process_id
        }),
{
    crate::syscall::files::lemma_find_file_bounds(s.files, fd, pid, 0);
}

fn self_test_open(st: &mut SyscallState, mem: &mut UserMemory, env: &SyscallEnv, abi: SyscallAbi, open_nr: u64, path: u64) -> (v: i64)
    requires
        env.wf(),
        spec_abi_call(abi, open_nr) == (if abi == SyscallAbi::LinuxBootstrap { Call::OpenAt } else { Call::Open }),
    ensures
        v >= 0 ==> has_descriptor(final(st)@, env.process.process_id, v as u64),
        ({
            let step = spec_open_at(old(st)@, old(mem)@, *env, AT_FDCWD, path, 0);
            v == step.out.value && final(st)@ == step.state && final(mem)@ == step.mem
        }),
{
    let ghost s0 = st@;
    let ghost m0 = mem@;
    let dirfd: i64 = if abi == SyscallAbi::LinuxBootstrap { -100 } else { AT_FDCWD };
    let v = if abi == SyscallAbi::LinuxBootstrap {
        linux_open_step(st, mem, env, open_nr, path)
    } else {
        plain_open_step(st, mem, env, abi, open_nr, path)
    };
    proof {
        if v >= 0 {
            lemma_open_at_success(s0, m0, *env, dirfd, path, 0);
            assert(st@.files[st@.files.len() - 1].fd == v as i32);
        }
    }
    v
}

fn read_step(st: &mut SyscallState, mem: &mut UserMemory, env: &SyscallEnv, abi: SyscallAbi, read_nr: u64, args: [u64; 6]) -> (v: i64)
    requires
        env.wf(),
        spec_abi_call(abi, read_nr) == Call::Read,
    ensures
        ({
            let step = crate::syscall::reads::spec_read(old(st)@, old(mem)@, *env, args@);
            v == step.out.value && final(st)@ == step.state && final(mem)@ == step.mem
        }),
{
    let ghost s0 = st@;
    let ghost m0 = mem@;
    let v = invoke_known(st, mem, env, abi, read_nr, Call::Read, args);
    assert(spec_call(s0, m0, *env, Call::Read, args@) == crate::syscall::reads::spec_read(s0, m0, *env, args@));
    v
}

fn self_test_read(st: &mut SyscallState, mem: &mut UserMemory, env: &SyscallEnv, abi: SyscallAbi, read_nr: u64, fd: u64, buffer: u64) -> (v: i64)
    requires
        env.wf(),
        spec_abi_call(abi, read_nr) == Call::Read,
    ensures
        has_descriptor(old(st)@, env.process.process_id, fd) ==> has_descriptor(final(st)@, env.process.process_id, fd),
        ({
            let step = crate::syscall::reads::spec_read(old(st)@, old(mem)@, *env, seq![fd, buffer, 48u64, 0u64, 0u64, 0u64]);
            v == step.out.value && final(st)@ == step.state && final(mem)@ == step.mem
        }),
{
    let ghost s0 = st@;
    let ghost m0 = mem@;
    let args: [u64; 6] = [fd, buffer, 48, 0, 0, 0];
    let v = read_step(st, mem, env, abi, read_nr, args);
    assert(args@ =~= seq![fd, buffer, 48u64, 0u64, 0u64, 0u64]);
    proof {
        if has_descriptor(s0, env.process.process_id, fd) {
            let k = choose|k: int|
                0 <= k < s0.files.len() && #[trigger] s0.files[k].fd == fd as i32 && s0.files[k].owner_process_id
                    == env.process.process_id;
            lemma_read_keeps_descriptors(s0, m0, env.process.process_id, fd as i32, buffer, 48);
            assert(st@ == crate::syscall::reads::spec_read_open(s0, m0, env.process.process_id, fd as i32, buffer, 48).1);
            assert(st@.files[k].fd == fd as i32);
        }
    }
    v
}

fn self_test_close(st: &mut SyscallState, mem: &mut UserMemory, env: &SyscallEnv, abi: SyscallAbi, close_nr: u64, fd: u64) -> (v: i64)
    requires
        env.wf(),
        spec_abi_call(abi, close_nr) == Call::Close,
    ensures
        has_descriptor(old(st)@, env.process.process_id, fd) ==> v == 0,
{
    let ghost s0 = st@;
    let ghost m0 = mem@;
    let args: [u64; 6] = [fd, 0, 0, 0, 0, 0];
    let v = invoke_known(st, mem, env, abi, close_nr, Call::Close, args);
    proof {
        assert(spec_call(s0, m0, *env, Call::Close, args@) == crate::syscall::fdcalls::spec_close(s0, m0, *env, args@));
        if has_descriptor(s0, env.process.process_id, fd) {
            let k = choose|k: int|
                0 <= k < s0.files.len() && #[trigger] s0.files[k].fd == fd as i32 && s0.files[k].owner_process_id
                    == env.process.process_id;
            lemma_find_present(s0.files, fd as i32, env.process.process_id, k, 0);
        }
    }
    v
}

/// The self test can start: the scratch area is mapped, and the next descriptor is past
/// standard error and above every descriptor the caller has.
pub open spec fn self_test_start(s: StateView, m: MemView, pid: u64) -> bool {
    &&& scratch_mapped(m)
    &&& 3 <= s.next_fd
    &&& forall|j: int| 0 <= j < s.files.len() && s.files[j].owner_process_id == pid ==> #[trigger] s.files[j].fd < s.next_fd
}

/// The self test can run its file calls: the scratch area is mapped and holds the path,
/// and the next descriptor is past standard error and above every descriptor the
/// caller has.
pub open spec fn self_test_ready(s: StateView, m: MemView, pid: u64) -> bool {
    &&& scratch_mapped(m)
    &&& path_staged_at(m, SELF_TEST_PATH)
    &&& 3 <= s.next_fd
    &&& forall|j: int| 0 <= j < s.files.len() && s.files[j].owner_process_id == pid ==> #[trigger] s.files[j].fd < s.next_fd
}

fn close_step(st: &mut SyscallState, mem: &mut UserMemory, env: &SyscallEnv, abi: SyscallAbi, close_nr: u64, args: [u64; 6]) -> (v: i64)
    requires
        env.wf(),
        spec_abi_call(abi, close_nr) == Call::Close,
    ensures
        ({
            let step = crate::syscall::fdcalls::spec_close(old(st)@, old(mem)@, *env, args@);
            v == step.out.value && final(st)@ == step.state && final(mem)@ == step.mem
        }),
{
    let ghost s0 = st@;
    let ghost m0 = mem@;
    let v = invoke_known(st, mem, env, abi, close_nr, Call::Close, args);
    assert(spec_call(s0, m0, *env, Call::Close, args@) == crate::syscall::fdcalls::spec_close(s0, m0, *env, args@));
    v
}

/// Zeroes the read buffer, reads 48 bytes of `fd` into it and closes `fd`.
#[verifier::rlimit(60)]
fn read_and_close(
    st: &mut SyscallState,
    mem: &mut UserMemory,
    env: &SyscallEnv,
    abi: SyscallAbi,
    read_nr: u64,
    close_nr: u64,
    fd: u64,
) -> (r: (i64, i64))
    requires
        env.wf(),
        spec_abi_call(abi, read_nr) == Call::Read,
        spec_abi_call(abi, close_nr) == Call::Close,
        has_descriptor(old(st)@, env.process.process_id, fd),
    ensures
        r.1 == 0,
        file_found(old(st)@, env.process.process_id, fd as i64) && old(st)@.files.last().offset == 0 && scratch_mapped(
            old(mem)@,
        ) && path_staged_at(old(mem)@, SELF_TEST_PATH) ==> {
            &&& r.0 == read_len(old(st)@.files.last().content, 48)
            &&& final(st)@.files == old(st)@.files.drop_last()
            &&& final(st)@.next_fd == old(st)@.next_fd
            &&& scratch_mapped(final(mem)@)
            &&& path_staged_at(final(mem)@, SELF_TEST_PATH)
        },
{
    let ghost pid = env.process.process_id;
    let ghost s1 = st@;
    let ghost m1 = mem@;
    let buffer = mem.base.wrapping_add(SELF_TEST_BUFFER);
    let zeros: Vec<u8> = vec![0u8; 48];
    proof {
        crate::uaccess::lemma_copyout_bytes(m1, buffer, zeros@);
        lemma_put_keeps_shape(m1, buffer, zeros@);
    }
    let _ = put_user(mem, zeros.as_slice(), buffer);
    let ghost m2 = mem@;
    let read_result = self_test_read(st, mem, env, abi, read_nr, fd, buffer);
    let ghost s3 = st@;
    let ghost m3 = mem@;
    proof {
        if file_found(s1, pid, fd as i64) && s1.files.last().offset == 0 && scratch_mapped(m1) && path_staged_at(
            m1,
            SELF_TEST_PATH,
        ) {
            assert(scratch_mapped(m2));
            lemma_read_found(s1, m2, *env, seq![fd, buffer, 48u64, 0u64, 0u64, 0u64], SELF_TEST_BUFFER);
        }
    }
    let close_args: [u64; 6] = [fd, 0, 0, 0, 0, 0];
    let close_result = close_step(st, mem, env, abi, close_nr, close_args);
    proof {
        let k = choose|k: int|
            0 <= k < s3.files.len() && #[trigger] s3.files[k].fd == fd as i32 && s3.files[k].owner_process_id == pid;
        lemma_find_present(s3.files, fd as i32, pid, k, 0);
        if file_found(s1, pid, fd as i64) && s1.files.last().offset == 0 && scratch_mapped(m1) && path_staged_at(
            m1,
            SELF_TEST_PATH,
        ) {
            lemma_close_found(s3, m3, *env, close_args@);
        }
    }
    (read_result, close_result)
}

/// The results of one open, read and close through the trap gate.
#[verifier::rlimit(60)]
fn open_read_close(
    st: &mut SyscallState,
    mem: &mut UserMemory,
    env: &SyscallEnv,
    abi: SyscallAbi,
    open_nr: u64,
    read_nr: u64,
    close_nr: u64,
) -> (r: (i64, i64, i64))
    requires
        env.wf(),
        spec_abi_call(abi, open_nr) == (if abi == SyscallAbi::LinuxBootstrap { Call::OpenAt } else { Call::Open }),
        spec_abi_call(abi, read_nr) == Call::Read,
        spec_abi_call(abi, close_nr) == Call::Close,
    ensures
        r.0 < 0 ==> r.1 == -9 && r.2 == -9,
        r.0 >= 0 ==> r.2 == 0,
        self_test_ready(old(st)@, old(mem)@, env.process.process_id) && version_is_file(*env) ==> {
            &&& self_test_ready(final(st)@, final(mem)@, env.process.process_id)
            &&& r.0 >= 0 ==> r.1 == read_len(version_text(*env), 48)
        },
{
    let ghost pid = env.process.process_id;
    let ghost s0 = st@;
    let ghost m0 = mem@;
    let path = mem.base.wrapping_add(SELF_TEST_PATH);
    let open_result = self_test_open(st, mem, env, abi, open_nr, path);
    let mut read_result: i64 = -9;
    let mut close_result: i64 = -9;
    if open_result >= 0 {
        let fd = open_result as u64;
        proof {
            if self_test_ready(s0, m0, pid) && version_is_file(*env) {
                lemma_open_version(s0, m0, *env, SELF_TEST_PATH);
                assert(st@.files.drop_last() =~= s0.files);
            }
        }
        let (rr, cr) = read_and_close(st, mem, env, abi, read_nr, close_nr, fd);
        read_result = rr;
        close_result = cr;
    } else {
        proof {
            if self_test_ready(s0, m0, pid) {
                lemma_open_at_failure(s0, m0, *env, AT_FDCWD, path, 0);
            }
        }
    }
    (open_result, read_result, close_result)
}

fn ask_getpid(st: &mut SyscallState, mem: &mut UserMemory, env: &SyscallEnv) -> (v: i64)
    requires
        env.wf(),
    ensures
        v == spec_identity(*env, 0).value,
        final(st)@ == old(st)@,
        final(mem)@ == old(mem)@,
{
    invoke_syscall(st, mem, env, SyscallAbi::LinuxBootstrap, LINUX_SYS_GETPID, [0, 0, 0, 0, 0, 0])
}

fn ask_gettid(st: &mut SyscallState, mem: &mut UserMemory, env: &SyscallEnv) -> (v: i64)
    requires
        env.wf(),
    ensures
        v == spec_identity(*env, 2).value,
        final(st)@ == old(st)@,
        final(mem)@ == old(mem)@,
{
    invoke_syscall(st, mem, env, SyscallAbi::GhostBootstrap, GHOST_SYS_GETTID, [0, 0, 0, 0, 0, 0])
}

fn ask_abi_version(st: &mut SyscallState, mem: &mut UserMemory, env: &SyscallEnv) -> (v: i64)
    requires
        env.wf(),
    ensures
        v == HXNU_NATIVE_ABI_VERSION,
{
    invoke_syscall(st, mem, env, SyscallAbi::HxnuNativeBootstrap, HXNU_SYS_ABI_VERSION, [0, 0, 0, 0, 0, 0])
}

/// Makes a few system calls of each personality through the trap gate, with their
/// text and buffers at the start of the user memory, and reports the results.
pub fn run_syscall_self_test(st: &mut SyscallState, mem: &mut UserMemory, env: &SyscallEnv) -> (t: SyscallSelfTest)
    requires
        env.wf(),
    ensures
        t.linux_getpid_result == spec_identity(*env, 0).value,
        t.ghost_gettid_result == spec_identity(*env, 2).value,
        t.hxnu_abi_version_result == HXNU_NATIVE_ABI_VERSION,
        self_test_text_mapped(old(mem)@) ==> t.linux_write_result == (if self_test_text().len() > MAX_WRITE_BYTES {
            -ERANGE
        } else {
            self_test_text().len() as int
        }),
        t.linux_openat_result < 0 ==> t.linux_read_result == -9 && t.linux_close_result == -9,
        t.ghost_open_result < 0 ==> t.ghost_read_result == -9 && t.ghost_close_result == -9,
        t.hxnu_open_result < 0 ==> t.hxnu_read_result == -9 && t.hxnu_close_result == -9,
        t.linux_openat_result >= 0 ==> t.linux_close_result == 0,
        t.ghost_open_result >= 0 ==> t.ghost_close_result == 0,
        t.hxnu_open_result >= 0 ==> t.hxnu_close_result == 0,
        self_test_start(old(st)@, old(mem)@, env.process.process_id) && version_is_file(*env) ==> {
            &&& t.linux_openat_result >= 0 ==> t.linux_read_result == read_len(version_text(*env), 48)
            &&& t.ghost_open_result >= 0 ==> t.ghost_read_result == read_len(version_text(*env), 48)
            &&& t.hxnu_open_result >= 0 ==> t.hxnu_read_result == read_len(version_text(*env), 48)
        },
{
    let ghost m0 = mem@;
    let text = "HXNU: int 0x80 linux syscall self-test\n";
    let text_len = text.as_bytes().len() as u64;
    let text_ptr = mem.base.wrapping_add(SELF_TEST_TEXT);
    proof {
        lemma_put_keeps_shape(mem@, text_ptr, text.spec_bytes());
    }
    let _ = put_user(mem, text.as_bytes(), text_ptr);
    let path_ptr = mem.base.wrapping_add(SELF_TEST_PATH);
    let path = version_path_cstr();
    proof {
        lemma_put_keeps_shape(mem@, path_ptr, path@);
        crate::uaccess::lemma_copyout_bytes(mem@, path_ptr, path@);
    }
    let _ = put_user(mem, &path, path_ptr);
    proof {
        if self_test_start(old(st)@, m0, env.process.process_id) {
            assert(path_staged_at(mem@, SELF_TEST_PATH));
        }
    }

    let linux = SyscallAbi::LinuxBootstrap;
    let linux_write_result = self_test_write(st, mem, env, text_ptr, text_len);
    let (linux_openat_result, linux_read_result, linux_close_result) = open_read_close(
        st, mem, env, linux, LINUX_SYS_OPENAT, LINUX_SYS_READ, LINUX_SYS_CLOSE,
    );
    let linux_getpid_result = ask_getpid(st, mem, env);

    let ghost_abi = SyscallAbi::GhostBootstrap;
    let (ghost_open_result, ghost_read_result, ghost_close_result) = open_read_close(
        st, mem, env, ghost_abi, GHOST_SYS_OPEN, GHOST_SYS_READ, GHOST_SYS_CLOSE,
    );
    let ghost_gettid_result = ask_gettid(st, mem, env);

    let native = SyscallAbi::HxnuNativeBootstrap;
    let (hxnu_open_result, hxnu_read_result, hxnu_close_result) = open_read_close(
        st, mem, env, native, HXNU_SYS_OPEN, HXNU_SYS_READ, HXNU_SYS_CLOSE,
    );
    let hxnu_abi_version_result = ask_abi_version(st, mem, env);
    SyscallSelfTest {
        linux_write_result,
        linux_openat_result,
        linux_read_result,
        linux_close_result,
        linux_getpid_result,
        ghost_open_result,
        ghost_read_result,
        ghost_close_result,
        ghost_gettid_result,
        hxnu_open_result,
        hxnu_read_result,
        hxnu_close_result,
        hxnu_abi_version_result,
    }
}

} // verus!
