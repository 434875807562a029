use vstd::prelude::*;
use vstd::string::StringSliceAdditionalSpecFns;
use vstd::utf8::valid_utf8;
use crate::vfs::{spec_lookup, VfsNodeKind};

use crate::le::{get_u64_le, push_u32_le, push_u64_le};
use crate::syscall::calls::{spec_identity, RLIMIT_NOFILE};
use crate::syscall::clock::{spec_uptime, LINUX_CLOCK_MONOTONIC};
use crate::syscall::console::{MAX_WRITE_BYTES, STDERR_FD, STDOUT_FD};
use crate::syscall::dispatch::{
    dispatch, spec_abi_call, spec_call, Call, SyscallAbi, GHOST_SYS_ACCESS, GHOST_SYS_BRK, GHOST_SYS_CHDIR, GHOST_SYS_CLOSE, GHOST_SYS_DUP,
    GHOST_SYS_DUP2, GHOST_SYS_DUP3, GHOST_SYS_EXIT_GROUP, GHOST_SYS_FCHDIR, GHOST_SYS_FCNTL, GHOST_SYS_FSTAT,
    GHOST_SYS_GETCWD, GHOST_SYS_GETDENTS, GHOST_SYS_GETEGID, GHOST_SYS_GETEUID, GHOST_SYS_GETGID, GHOST_SYS_GETPGID,
    GHOST_SYS_GETPID, GHOST_SYS_GETPPID, GHOST_SYS_GETRANDOM, GHOST_SYS_GETRLIMIT, GHOST_SYS_GETSID,
    GHOST_SYS_GETTID, GHOST_SYS_GETTIMEOFDAY, GHOST_SYS_GETUID, GHOST_SYS_GET_ROBUST_LIST, GHOST_SYS_IOCTL,
    GHOST_SYS_MMAP, GHOST_SYS_MPROTECT, GHOST_SYS_MUNMAP, GHOST_SYS_NANOSLEEP, GHOST_SYS_OPEN, GHOST_SYS_PRCTL,
    GHOST_SYS_PREAD64, GHOST_SYS_PRLIMIT64, GHOST_SYS_PWRITE64, GHOST_SYS_READ, GHOST_SYS_READLINK, GHOST_SYS_READV,
    GHOST_SYS_RSEQ, GHOST_SYS_RT_SIGACTION, GHOST_SYS_RT_SIGPROCMASK, GHOST_SYS_SEEK, GHOST_SYS_SETPGID,
    GHOST_SYS_SETRLIMIT, GHOST_SYS_SETSID, GHOST_SYS_SET_ROBUST_LIST, GHOST_SYS_SET_TID_ADDRESS, GHOST_SYS_STAT,
    GHOST_SYS_UMASK, GHOST_SYS_UNAME, GHOST_SYS_UPTIME_NSEC, GHOST_SYS_WAIT4, GHOST_SYS_WRITE, GHOST_SYS_WRITEV,
    GHOST_SYS_YIELD, HXNU_NATIVE_ABI_VERSION, HXNU_SYS_ABI_VERSION, HXNU_SYS_ACCESS, HXNU_SYS_BRK, HXNU_SYS_CHDIR,
    HXNU_SYS_CLOSE, HXNU_SYS_DUP, HXNU_SYS_DUP2, HXNU_SYS_DUP3, HXNU_SYS_EXIT_GROUP, HXNU_SYS_FCHDIR,
    HXNU_SYS_FCNTL, HXNU_SYS_FSTAT, HXNU_SYS_GETCWD, HXNU_SYS_GETDENTS, HXNU_SYS_GETEGID, HXNU_SYS_GETEUID,
    HXNU_SYS_GETGID, HXNU_SYS_GETPGID, HXNU_SYS_GETRANDOM, HXNU_SYS_GETRLIMIT, HXNU_SYS_GETSID,
    HXNU_SYS_GETTIMEOFDAY, HXNU_SYS_GETUID, HXNU_SYS_GET_ROBUST_LIST, HXNU_SYS_IOCTL, HXNU_SYS_LOG_WRITE,
    HXNU_SYS_MMAP, HXNU_SYS_MPROTECT, HXNU_SYS_MUNMAP, HXNU_SYS_NANOSLEEP, HXNU_SYS_OPEN, HXNU_SYS_PRCTL,
    HXNU_SYS_PREAD64, HXNU_SYS_PRLIMIT64, HXNU_SYS_PROCESS_PARENT, HXNU_SYS_PROCESS_SELF, HXNU_SYS_PWRITE64,
    HXNU_SYS_READ, HXNU_SYS_READLINK, HXNU_SYS_READV, HXNU_SYS_RSEQ, HXNU_SYS_RT_SIGACTION,
    HXNU_SYS_RT_SIGPROCMASK, HXNU_SYS_SCHED_YIELD, HXNU_SYS_SEEK, HXNU_SYS_SETPGID, HXNU_SYS_SETRLIMIT,
    HXNU_SYS_SETSID, HXNU_SYS_SET_ROBUST_LIST, HXNU_SYS_SET_TID_ADDRESS, HXNU_SYS_STAT, HXNU_SYS_THREAD_SELF,
    HXNU_SYS_UMASK, HXNU_SYS_UPTIME_NSEC, HXNU_SYS_WAIT4, HXNU_SYS_WRITEV, LINUX_SYS_ACCESS, LINUX_SYS_BRK,
    LINUX_SYS_CHDIR, LINUX_SYS_CLOCK_GETTIME, LINUX_SYS_CLOSE, LINUX_SYS_DUP, LINUX_SYS_DUP2, LINUX_SYS_DUP3,
    LINUX_SYS_EXIT_GROUP, LINUX_SYS_FACCESSAT, LINUX_SYS_FACCESSAT2, LINUX_SYS_FCHDIR, LINUX_SYS_FCNTL,
    LINUX_SYS_FSTAT, LINUX_SYS_GETCWD, LINUX_SYS_GETDENTS64, LINUX_SYS_GETEGID, LINUX_SYS_GETEUID, LINUX_SYS_GETGID,
    LINUX_SYS_GETPGID, LINUX_SYS_GETPID, LINUX_SYS_GETPPID, LINUX_SYS_GETRANDOM, LINUX_SYS_GETRLIMIT,
    LINUX_SYS_GETSID, LINUX_SYS_GETTID, LINUX_SYS_GETTIMEOFDAY, LINUX_SYS_GETUID, LINUX_SYS_GET_ROBUST_LIST,
    LINUX_SYS_IOCTL, LINUX_SYS_LSEEK, LINUX_SYS_MMAP, LINUX_SYS_MPROTECT, LINUX_SYS_MUNMAP, LINUX_SYS_NANOSLEEP,
    LINUX_SYS_NEWFSTATAT, LINUX_SYS_OPENAT, LINUX_SYS_PRCTL, LINUX_SYS_PREAD64, LINUX_SYS_PRLIMIT64,
    LINUX_SYS_PWRITE64, LINUX_SYS_READ, LINUX_SYS_READLINKAT, LINUX_SYS_READV, LINUX_SYS_RSEQ,
    LINUX_SYS_RT_SIGACTION, LINUX_SYS_RT_SIGPROCMASK, LINUX_SYS_SCHED_YIELD, LINUX_SYS_SETPGID, LINUX_SYS_SETRLIMIT,
    LINUX_SYS_SETSID, LINUX_SYS_SET_ROBUST_LIST, LINUX_SYS_SET_TID_ADDRESS, LINUX_SYS_UMASK, LINUX_SYS_UNAME,
    LINUX_SYS_WAIT4, LINUX_SYS_WRITE, LINUX_SYS_WRITEV,
};
use crate::syscall::fdcalls::{F_GETFD, F_GETFL, LINUX_TIOCGWINSZ};
use crate::syscall::files::{AT_FDCWD, O_CLOEXEC};
use crate::syscall::memory::{MAP_ANONYMOUS, MAP_PRIVATE, PROT_READ, PROT_WRITE};
use crate::syscall::paths::R_OK;
use crate::syscall::process::{
    UMASK_MODE_MASK,
    get_user, put_user, spec_get, spec_put, SyscallAction, SyscallOutcome, DEFAULT_PROCESS_BRK, DEFAULT_PROCESS_UMASK, EBADF, EINVAL, ERANGE,
};
use crate::syscall::reads::SEEK_SET;
use crate::syscall::signals::{RT_SIGSET_SIZE, SIG_BLOCK};
use crate::syscall::frame::{frame_holds, lemma_call_frame, touches_files};
use crate::syscall::laws::lemma_dumpable_reads_back;
use crate::syscall::paths::{c_string_from, lemma_open_at_success, spec_open_at};
use crate::syscall::files::find_file;
use crate::syscall::state::{FileView, PipeRole, StateView, SyscallEnv, SyscallState, ROBUST_LIST_HEAD_SIZE, RSEQ_AREA_SIZE, RSEQ_SIGNATURE};
use crate::syscall::task::{PR_GET_DUMPABLE, PR_GET_NAME, PR_SET_DUMPABLE, PR_SET_NAME, RSEQ_FLAG_UNREGISTER};
use crate::text::{is_valid_utf8, string_from_bytes_lossy};
use crate::text::text_bytes;
use crate::uaccess::{MemView, UserMemory, MAP_PAGE_SIZE};

verus! {

// ---------------------------------------------------------------------------
// Scratch layout.
//
// A probe keeps its request and reply buffers in user memory, at fixed
// offsets from the start of the address space.

/// Bytes of user memory a probe uses for its buffers.
pub const PROBE_SCRATCH_BYTES: u64 = 2048;

pub const OFF_WRITE: u64 = 0;
pub const OFF_WRITEV_A: u64 = 64;
pub const OFF_WRITEV_B: u64 = 96;
pub const OFF_OPEN_PATH: u64 = 128;
pub const OFF_DIR_PATH: u64 = 144;
pub const OFF_ROOT_PATH: u64 = 152;
pub const OFF_LINK_PATH: u64 = 160;
pub const OFF_COMM: u64 = 176;
pub const OFF_SLEEP: u64 = 192;
pub const OFF_TIMEVAL: u64 = 208;
pub const OFF_RANDOM: u64 = 224;
pub const OFF_SIGSET: u64 = 240;
pub const OFF_OLD_SIGSET: u64 = 248;
pub const OFF_ACTION: u64 = 256;
pub const OFF_OLD_ACTION: u64 = 288;
pub const OFF_NOFILE: u64 = 320;
pub const OFF_PRLIMIT_OLD: u64 = 336;
pub const OFF_COMM_READBACK: u64 = 352;
pub const OFF_ROBUST_HEAD: u64 = 368;
pub const OFF_ROBUST_HEAD_OUT: u64 = 392;
pub const OFF_ROBUST_LEN_OUT: u64 = 400;
pub const OFF_RSEQ: u64 = 416;
pub const OFF_WRITEV_IOV: u64 = 448;
pub const OFF_WINSIZE: u64 = 480;
pub const OFF_STAT: u64 = 488;
pub const OFF_CWD: u64 = 640;
pub const OFF_LINK_BUF: u64 = 768;
pub const OFF_READ_BUF: u64 = 896;
pub const OFF_FSTAT: u64 = 960;
pub const OFF_PREAD_BUF: u64 = 1104;
pub const OFF_READV_A: u64 = 1136;
pub const OFF_READV_B: u64 = 1160;
pub const OFF_READV_IOV: u64 = 1184;
pub const OFF_DIR_BUF: u64 = 1216;
pub const OFF_CLEAR_TID: u64 = 1472;
pub const OFF_TIMESPEC: u64 = 1480;
pub const OFF_UTSNAME: u64 = 1496;

/// Offset of the `machine` field in a `utsname` record.
pub const UTS_MACHINE_OFFSET: u64 = 260;
pub const UTS_FIELD_LEN: usize = 65;
const WNOHANG: u64 = 1;
const GRND_NONBLOCK: u64 = 1;

/// The user address of scratch offset `off`.
fn at(mem: &UserMemory, off: u64) -> (a: u64)
    ensures
        off == 0 ==> a == mem.base,
        mem.base + off <= u64::MAX ==> a == mem.base + off,
{
    mem.base.wrapping_add(off)
}

/// Stores `data` at scratch offset `off`; a store outside the mapped memory is dropped.
fn poke(mem: &mut UserMemory, off: u64, data: &[u8])
    ensures
        final(mem)@.base == old(mem)@.base,
        final(mem)@.bytes.len() == old(mem)@.bytes.len(),
        scratch_mapped(old(mem)@) && off <= SCRATCH_BYTES ==> forall|k: int|
            0 <= k < off && k < old(mem)@.bytes.len() ==> #[trigger] final(mem)@.bytes[k] == old(mem)@.bytes[k],
        scratch_mapped(old(mem)@) && off + data@.len() <= SCRATCH_BYTES ==> {
            &&& forall|k: int| 0 <= k < data@.len() ==> #[trigger] final(mem)@.bytes[off + k] == data@[k]
            &&& forall|k: int|
                0 <= k < old(mem)@.bytes.len() && !(off <= k < off + data@.len()) ==> #[trigger] final(mem)@.bytes[k]
                    == old(mem)@.bytes[k]
        },
{
    let a = at(mem, off);
    let n: usize = data.len();
    proof {
        crate::uaccess::lemma_copyout_bytes(mem@, a, data@);
        lemma_put_keeps_shape(mem@, a, data@);
    }
    let _ = put_user(mem, data, a);
}

/// A store into user memory keeps its base and its size.
pub(crate) proof fn lemma_put_keeps_shape(m: MemView, ptr: u64, data: Seq<u8>)
    requires
        data.len() <= u64::MAX,
    ensures
        spec_put(m, ptr, data) matches Ok(m1) ==> m1.base == m.base && m1.bytes.len() == m.bytes.len(),
{
    if let Ok(m1) = spec_put(m, ptr, data) {
        if data.len() > 0 {
            let o = ptr - m.base;
            assert(o + data.len() <= m.bytes.len());
        }
    }
}

/// The eight bytes at scratch offset `off` as a little-endian number, 0 when unmapped.
fn peek_u64(mem: &UserMemory, off: u64) -> u64 {
    let a = at(mem, off);
    match get_user(mem, a, 8) {
        Ok(b) => get_u64_le(b.as_slice(), 0),
        Err(_) => 0,
    }
}

fn u64_bytes(x: u64) -> (b: Vec<u8>) {
    let mut v: Vec<u8> = Vec::new();
    push_u64_le(&mut v, x);
    v
}

/// The system call number of a call in each personality.
fn nr(abi: SyscallAbi, linux: u64, ghost: u64, hxnu: u64) -> (n: u64)
    ensures
        n == (match abi {
            SyscallAbi::LinuxBootstrap => linux,
            SyscallAbi::GhostBootstrap => ghost,
            SyscallAbi::HxnuNativeBootstrap => hxnu,
        }),
{
    match abi {
        SyscallAbi::LinuxBootstrap => linux,
        SyscallAbi::GhostBootstrap => ghost,
        SyscallAbi::HxnuNativeBootstrap => hxnu,
    }
}

fn call(st: &mut SyscallState, mem: &mut UserMemory, env: &SyscallEnv, abi: SyscallAbi, number: u64, args: [u64; 6]) -> (v: i64)
    requires
        env.wf(),
    ensures
        frame_holds(old(st)@, old(mem)@, spec_abi_call(abi, number), final(st)@, final(mem)@),
{
    let ghost s0 = st@;
    let ghost m0 = mem@;
    let v = dispatch(st, mem, env, abi, number, args).value;
    proof {
        lemma_call_frame(s0, m0, *env, spec_abi_call(abi, number), args@);
    }
    v
}

/// What the phases of a probe keep until the file calls: the open files, the next
/// descriptor and the shape of the user memory.
pub open spec fn files_and_shape_kept(s: StateView, m: MemView, s2: StateView, m2: MemView) -> bool {
    &&& s2.files == s.files
    &&& s2.next_fd == s.next_fd
    &&& m2.base == m.base
    &&& m2.bytes.len() >= m.bytes.len()
}

/// The size of the scratch area at the start of the user memory.
pub const SCRATCH_BYTES: u64 = 2048;

/// The scratch area lies in the user memory, in the lower half of the address space and
/// away from the null page.
pub open spec fn scratch_mapped(m: MemView) -> bool {
    &&& m.base > 0
    &&& m.base + SCRATCH_BYTES <= crate::uaccess::LOW_CANONICAL_MAX
    &&& m.bytes.len() >= SCRATCH_BYTES
}

/// The path a probe opens: `/proc/version`.
pub open spec fn version_path() -> Seq<u8> {
    seq![0x2fu8, 0x70u8, 0x72u8, 0x6fu8, 0x63u8, 0x2fu8, 0x76u8, 0x65u8, 0x72u8, 0x73u8, 0x69u8, 0x6fu8, 0x6eu8]
}

/// The open path as a C string.
pub(crate) fn version_path_cstr() -> (b: [u8; 14])
    ensures
        b@ == version_path().push(0u8),
{
    let b = [0x2fu8, 0x70, 0x72, 0x6f, 0x63, 0x2f, 0x76, 0x65, 0x72, 0x73, 0x69, 0x6f, 0x6e, 0];
    assert(b@ =~= version_path().push(0u8));
    b
}

/// The user memory holds the open path, as a C string, at its scratch offset.
pub open spec fn path_staged(m: MemView) -> bool {
    path_staged_at(m, OFF_OPEN_PATH)
}

/// The user memory holds the open path, as a C string, at scratch offset `off`.
pub open spec fn path_staged_at(m: MemView, off: u64) -> bool {
    &&& m.bytes.len() >= SCRATCH_BYTES
    &&& off + 14 <= SCRATCH_BYTES
    &&& forall|k: int| 0 <= k < 14 ==> #[trigger] m.bytes[off + k] == version_path().push(0u8)[k]
}

/// The text of `/proc/version` as an open of it snapshots it, empty when there is none.
pub open spec fn version_text(env: SyscallEnv) -> Seq<u8> {
    match spec_lookup(env.vfs, env.fs, version_path()) {
        Some((n, r)) => match crate::vfs::spec_read(env.vfs, env.fs, text_bytes(n)) {
            Some(b) => text_bytes(b),
            None => Seq::empty(),
        },
        None => Seq::empty(),
    }
}

/// `/proc/version` names a node that is not a directory.
pub open spec fn version_is_file(env: SyscallEnv) -> bool {
    spec_lookup(env.vfs, env.fs, version_path()) matches Some((n, r)) && r.kind != VfsNodeKind::Directory
}

/// The staged open path reads back as `/proc/version`, when it is valid text.
proof fn lemma_staged_c_string(m: MemView, off: u64, i: int)
    requires
        scratch_mapped(m),
        path_staged_at(m, off),
        0 <= i <= 13,
    ensures
        c_string_from(m, (m.base + off) as u64, i, version_path().take(i)) == (if valid_utf8(version_path()) {
            Ok::<Seq<u8>, i64>(version_path())
        } else {
            Err::<Seq<u8>, i64>(EINVAL)
        }),
    decreases 13 - i,
{
    let ptr = (m.base + off) as u64;
    let b = m.bytes[off + i];
    assert(b == version_path().push(0u8)[i]);
    assert(spec_get(m, (ptr + i) as u64, 1) == Ok::<Seq<u8>, i64>(seq![b])) by {
        assert(m.bytes.subrange(ptr + i - m.base, ptr + i - m.base + 1) =~= seq![b]);
    }
    if i == 13 {
        assert(version_path().take(13) =~= version_path());
    } else {
        assert(version_path().take(i).push(b) =~= version_path().take(i + 1));
        lemma_staged_c_string(m, off, i + 1);
    }
}

/// An open of the staged path that succeeds adds, last, a file under the next
/// descriptor holding the text of `/proc/version`.
pub(crate) proof fn lemma_open_version(s: StateView, m: MemView, env: SyscallEnv, off: u64)
    requires
        scratch_mapped(m),
        path_staged_at(m, off),
        spec_open_at(s, m, env, AT_FDCWD, (m.base + off) as u64, 0).out.value >= 0,
    ensures
        ({
            let o = spec_open_at(s, m, env, AT_FDCWD, (m.base + off) as u64, 0);
            let f = o.state.files.last();
            &&& o.out.value == s.next_fd
            &&& o.mem == m
            &&& o.state.next_fd == s.next_fd + 1
            &&& o.state.files == s.files.push(f)
            &&& f.fd == s.next_fd
            &&& f.owner_process_id == env.process.process_id
            &&& f.offset == 0
            &&& f.pipe == PipeRole::NotPipe
            &&& f.content == version_text(env)
            &&& (f.kind != VfsNodeKind::Directory <==> version_is_file(env))
            &&& o.state.brk == s.brk
        }),
{
    let ptr = (m.base + off) as u64;
    lemma_resolve_version(s, m, env, off);
    lemma_open_at_success(s, m, env, AT_FDCWD, ptr, 0);
}

/// The staged path resolves to itself: it is absolute.
proof fn lemma_resolve_version(s: StateView, m: MemView, env: SyscallEnv, off: u64)
    requires
        scratch_mapped(m),
        path_staged_at(m, off),
    ensures
        crate::syscall::paths::spec_resolve_at(s, m, env, AT_FDCWD, (m.base + off) as u64) == (
            Ok::<Seq<u8>, i64>(version_path()),
            s,
        ),
{
    let vp = version_path();
    assert forall|i: int| 0 <= i < 13 implies #[trigger] vstd::utf8::is_leading_byte_width_1(vp[i]) by {
        let c = vp[i];
        assert(c < 0x80);
        assert(c < 0x80 ==> vstd::utf8::is_leading_byte_width_1(c)) by (bit_vector);
    }
    assert(vp.subrange(0, 0) =~= Seq::<u8>::empty());
    vstd::utf8::partial_valid_utf8_extend_ascii_block(vp, 0, 13);
    assert(vp.subrange(0, 13) =~= vp);
    lemma_staged_c_string(m, off, 0);
    assert(version_path().take(0) =~= Seq::<u8>::empty());
    assert(version_path()[0] == 0x2f);
}

/// Zeroes the scratch area and stores the probe's request data in it.
fn stage_scratch(mem: &mut UserMemory, abi: SyscallAbi)
    ensures
        final(mem)@.base == old(mem)@.base,
        final(mem)@.bytes.len() == old(mem)@.bytes.len(),
        scratch_mapped(old(mem)@) ==> path_staged(final(mem)@),
{
    let zeros: Vec<u8> = vec![0u8; 2048];
    poke(mem, 0, zeros.as_slice());
    poke(mem, OFF_WRITE, write_text(abi).as_bytes());
    poke(mem, OFF_WRITEV_A, writev_head(abi).as_bytes());
    poke(mem, OFF_WRITEV_B, "compatibility smoke\n".as_bytes());
    let path = version_path_cstr();
    poke(mem, OFF_OPEN_PATH, &path);
    let ghost staged = mem@;
    assert(scratch_mapped(old(mem)@) ==> path_staged(staged));
    poke(mem, OFF_DIR_PATH, "/proc\0".as_bytes());
    poke(mem, OFF_ROOT_PATH, "/\0".as_bytes());
    poke(mem, OFF_LINK_PATH, "/proc/self/exe\0".as_bytes());
    poke(mem, OFF_COMM, comm_text(abi).as_bytes());
}

/// The bytes of the text the first call of a probe writes.
pub open spec fn probe_write_bytes(abi: SyscallAbi) -> Seq<u8> {
    match abi {
        SyscallAbi::LinuxBootstrap => "HXNU: linux syscall write() compatibility smoke\n".spec_bytes(),
        SyscallAbi::GhostBootstrap => "HXNU: ghost syscall write() compatibility smoke\n".spec_bytes(),
        SyscallAbi::HxnuNativeBootstrap => "HXNU: native syscall log_write() bootstrap smoke\n".spec_bytes(),
    }
}

/// What the first call of a probe returns when the memory its text lies in is mapped:
/// the number of bytes written.
pub open spec fn expected_write_result(abi: SyscallAbi) -> i64 {
    if probe_write_bytes(abi).len() > MAX_WRITE_BYTES {
        (-ERANGE) as i64
    } else {
        probe_write_bytes(abi).len() as i64
    }
}

/// The scratch bytes the first write of a probe reads lie in mapped user memory.
pub open spec fn write_area_mapped(m: MemView, abi: SyscallAbi) -> bool {
    spec_get(m, m.base, probe_write_bytes(abi).len() as u64) is Ok
}

/// The text written by the first call of a probe.
fn write_text(abi: SyscallAbi) -> (t: &'static str)
    ensures
        t.spec_bytes() == probe_write_bytes(abi),
{
    match abi {
        SyscallAbi::LinuxBootstrap => "HXNU: linux syscall write() compatibility smoke\n",
        SyscallAbi::GhostBootstrap => "HXNU: ghost syscall write() compatibility smoke\n",
        SyscallAbi::HxnuNativeBootstrap => "HXNU: native syscall log_write() bootstrap smoke\n",
    }
}

/// The first `writev` segment of a probe.
fn writev_head(abi: SyscallAbi) -> &'static str {
    match abi {
        SyscallAbi::LinuxBootstrap => "HXNU: linux writev ",
        SyscallAbi::GhostBootstrap => "HXNU: ghost writev ",
        SyscallAbi::HxnuNativeBootstrap => "HXNU: hxnu writev ",
    }
}

/// The task name a probe sets with `prctl`.
fn comm_text(abi: SyscallAbi) -> &'static str {
    match abi {
        SyscallAbi::LinuxBootstrap => "linux-bootstrap\0",
        SyscallAbi::GhostBootstrap => "ghost-bootstrap\0",
        SyscallAbi::HxnuNativeBootstrap => "hxnu-bootstrap\0",
    }
}

const WRITEV_TAIL_LEN: u64 = 20;

/// The console descriptor a probe writes to.
fn console_fd(abi: SyscallAbi) -> (fd: u64)
    ensures
        fd == STDOUT_FD || fd == STDERR_FD,
{
    match abi {
        SyscallAbi::GhostBootstrap => STDERR_FD,
        _ => STDOUT_FD,
    }
}

struct IoPhase {
    write_result: i64,
    open_result: i64,
    mmap_result: i64,
    mprotect_result: i64,
    munmap_result: i64,
    brk_result: i64,
    brk_set_result: i64,
    brk_restore_result: i64,
    nanosleep_result: i64,
    gettimeofday_result: i64,
    gettimeofday_seconds: i64,
    gettimeofday_microseconds: i64,
    getrandom_result: i64,
    getrandom_sample: u64,
}

/// Console write, open, the memory calls and the clock calls of a probe.
fn probe_io(st: &mut SyscallState, mem: &mut UserMemory, env: &SyscallEnv, abi: SyscallAbi) -> (r: IoPhase)
    requires
        env.wf(),
    ensures
        write_area_mapped(old(mem)@, abi) ==> r.write_result == expected_write_result(abi),
        brk_moves_and_returns(r.brk_result, r.brk_set_result, r.brk_restore_result),
        r.brk_result == crate::syscall::calls::ok_u64(crate::syscall::memory::brk_of(old(st)@, env.process.process_id)).value,
        scratch_mapped(old(mem)@) ==> r.nanosleep_result == 0,
        final(mem)@.base == old(mem)@.base,
        final(mem)@.bytes.len() >= old(mem)@.bytes.len(),
        scratch_mapped(old(mem)@) && path_staged(old(mem)@) && r.open_result >= 0 ==> opened_version(
            old(st)@,
            *env,
            r.open_result,
            final(st)@,
        ),
        r.mmap_result < 0 ==> r.mprotect_result == -EINVAL && r.munmap_result == -EINVAL,
{
    let write_ptr = at(mem, OFF_WRITE);
    let write_len = write_text(abi).as_bytes().len() as u64;
    let write_result = write_call(st, mem, env, abi, write_ptr, write_len);
    let path = at(mem, OFF_OPEN_PATH);
    let ghost s_open = st@;
    let ghost m_open = mem@;
    let open_result = open_call(st, mem, env, abi, path);
    proof {
        if scratch_mapped(m_open) && path_staged(m_open) && open_result >= 0 {
            assert(path == (m_open.base + OFF_OPEN_PATH) as u64);
            lemma_open_version(s_open, m_open, *env, OFF_OPEN_PATH);
        }
    }
    let n = nr(abi, LINUX_SYS_MMAP, GHOST_SYS_MMAP, HXNU_SYS_MMAP);
    let mmap_result = call(
        st, mem, env, abi, n,
        [0, MAP_PAGE_SIZE, PROT_READ | PROT_WRITE, MAP_PRIVATE | MAP_ANONYMOUS, u64::MAX, 0],
    );
    let mut mprotect_result: i64 = -EINVAL;
    let mut munmap_result: i64 = -EINVAL;
    if mmap_result >= 0 {
        let address = mmap_result as u64;
        let n = nr(abi, LINUX_SYS_MPROTECT, GHOST_SYS_MPROTECT, HXNU_SYS_MPROTECT);
        mprotect_result = call(st, mem, env, abi, n, [address, MAP_PAGE_SIZE, PROT_READ, 0, 0, 0]);
        let n = nr(abi, LINUX_SYS_MUNMAP, GHOST_SYS_MUNMAP, HXNU_SYS_MUNMAP);
        munmap_result = call(st, mem, env, abi, n, [address, MAP_PAGE_SIZE, 0, 0, 0, 0]);
    }
    let (brk_result, brk_set_result, brk_restore_result) = brk_sequence(st, mem, env, abi);

    let mut request: Vec<u8> = Vec::new();
    push_u64_le(&mut request, 0);
    push_u64_le(&mut request, 500_000);
    poke(mem, OFF_SLEEP, request.as_slice());
    let sleep_ptr = at(mem, OFF_SLEEP);
    let nanosleep_result = nanosleep_call(st, mem, env, abi, sleep_ptr);

    let tv_ptr = at(mem, OFF_TIMEVAL);
    let n = nr(abi, LINUX_SYS_GETTIMEOFDAY, GHOST_SYS_GETTIMEOFDAY, HXNU_SYS_GETTIMEOFDAY);
    let gettimeofday_result = call(st, mem, env, abi, n, [tv_ptr, 0, 0, 0, 0, 0]);
    let gettimeofday_seconds = peek_u64(mem, OFF_TIMEVAL) as i64;
    let gettimeofday_microseconds = peek_u64(mem, OFF_TIMEVAL + 8) as i64;

    let random_ptr = at(mem, OFF_RANDOM);
    let n = nr(abi, LINUX_SYS_GETRANDOM, GHOST_SYS_GETRANDOM, HXNU_SYS_GETRANDOM);
    let getrandom_result = call(st, mem, env, abi, n, [random_ptr, 16, GRND_NONBLOCK, 0, 0, 0]);
    let getrandom_sample = peek_u64(mem, OFF_RANDOM);
    IoPhase {
        write_result,
        open_result,
        mmap_result,
        mprotect_result,
        munmap_result,
        brk_result,
        brk_set_result,
        brk_restore_result,
        nanosleep_result,
        gettimeofday_result,
        gettimeofday_seconds,
        gettimeofday_microseconds,
        getrandom_result,
        getrandom_sample,
    }
}

struct ProcessPhase {
    rt_sigprocmask_result: i64,
    rt_sigaction_result: i64,
    rt_sigmask_snapshot: u64,
    rt_sigold_handler: u64,
    wait4_result: i64,
    setpgid_result: i64,
    getpgid_result: i64,
    setsid_result: i64,
    getsid_result: i64,
    getrlimit_result: i64,
    setrlimit_result: i64,
    prlimit64_result: i64,
    prctl_set_name_result: i64,
    prctl_get_name_result: i64,
    prctl_set_dumpable_result: i64,
    prctl_get_dumpable_result: i64,
    set_robust_list_result: i64,
    get_robust_list_result: i64,
    rseq_register_result: i64,
    rseq_unregister_result: i64,
}

/// A `prctl` call of a probe, in its personality.
fn prctl_call(st: &mut SyscallState, mem: &mut UserMemory, env: &SyscallEnv, abi: SyscallAbi, args: [u64; 6]) -> (v: i64)
    requires
        env.wf(),
    ensures
        ({
            let step = spec_call(old(st)@, old(mem)@, *env, Call::Prctl, args@);
            v == step.out.value && final(st)@ == step.state && final(mem)@ == step.mem
        }),
        frame_holds(old(st)@, old(mem)@, Call::Prctl, final(st)@, final(mem)@),
{
    let n = nr(abi, LINUX_SYS_PRCTL, GHOST_SYS_PRCTL, HXNU_SYS_PRCTL);
    assert(spec_abi_call(abi, n) == Call::Prctl);
    let ghost s0 = st@;
    let ghost m0 = mem@;
    let v = dispatch(st, mem, env, abi, n, args).value;
    proof {
        lemma_call_frame(s0, m0, *env, Call::Prctl, args@);
    }
    v
}

/// The break a probe reads is at least the initial one and a page above it fits: then
/// moving the break up a page answers with the new break and moving it back answers with
/// the first.
pub open spec fn brk_moves_and_returns(first: i64, set: i64, restore: i64) -> bool {
    first >= DEFAULT_PROCESS_BRK && first + MAP_PAGE_SIZE <= i64::MAX ==> set == first + MAP_PAGE_SIZE && restore == first
}

/// `nanosleep` of a probe without a remainder buffer: it returns at once with 0.
#[verifier::rlimit(60)]
fn nanosleep_call(st: &mut SyscallState, mem: &mut UserMemory, env: &SyscallEnv, abi: SyscallAbi, request: u64) -> (v: i64)
    requires
        env.wf(),
    ensures
        request != 0 ==> v == 0,
        final(st)@ == old(st)@,
        final(mem)@.base == old(mem)@.base,
        final(mem)@.bytes.len() == old(mem)@.bytes.len(),
{
    broadcast use crate::uaccess::lemma_copyout_shape;

    let ghost s0 = st@;
    let ghost m0 = mem@;
    let n = nr(abi, LINUX_SYS_NANOSLEEP, GHOST_SYS_NANOSLEEP, HXNU_SYS_NANOSLEEP);
    assert(spec_abi_call(abi, n) == Call::Nanosleep);
    let args: [u64; 6] = [request, 0, 0, 0, 0, 0];
    let v = step_call(st, mem, env, abi, n, Call::Nanosleep, args);
    proof {
        assert(spec_call(s0, m0, *env, Call::Nanosleep, args@) == crate::syscall::clock::spec_nanosleep(s0, m0, args@));
    }
    v
}

/// The open of a probe: `openat` from the working directory, or `open`.
fn open_call(st: &mut SyscallState, mem: &mut UserMemory, env: &SyscallEnv, abi: SyscallAbi, path: u64) -> (v: i64)
    requires
        env.wf(),
    ensures
        ({
            let step = spec_open_at(old(st)@, old(mem)@, *env, AT_FDCWD, path, 0);
            v == step.out.value && final(st)@ == step.state && final(mem)@ == step.mem
        }),
        final(st)@.brk == old(st)@.brk,
        final(mem)@ == old(mem)@,
{
    if abi == SyscallAbi::LinuxBootstrap {
        linux_open_call(st, mem, env, path)
    } else {
        plain_open_call(st, mem, env, abi, path)
    }
}

#[verifier::rlimit(60)]
fn linux_open_call(st: &mut SyscallState, mem: &mut UserMemory, env: &SyscallEnv, path: u64) -> (v: i64)
    requires
        env.wf(),
    ensures
        ({
            let step = spec_open_at(old(st)@, old(mem)@, *env, AT_FDCWD, path, 0);
            v == step.out.value && final(st)@ == step.state && final(mem)@ == step.mem
        }),
        final(st)@.brk == old(st)@.brk,
        final(mem)@ == old(mem)@,
{
    let ghost s0 = st@;
    let ghost m0 = mem@;
    let args: [u64; 6] = [AT_FDCWD as u64, path, 0, 0, 0, 0];
    let v = step_call(st, mem, env, SyscallAbi::LinuxBootstrap, LINUX_SYS_OPENAT, Call::OpenAt, args);
    assert(((AT_FDCWD as u64) as i64) == AT_FDCWD) by (bit_vector);
    assert(spec_call(s0, m0, *env, Call::OpenAt, args@) == spec_open_at(s0, m0, *env, AT_FDCWD, path, 0));
    proof {
        lemma_call_frame(s0, m0, *env, Call::OpenAt, args@);
    }
    v
}

#[verifier::rlimit(60)]
fn plain_open_call(st: &mut SyscallState, mem: &mut UserMemory, env: &SyscallEnv, abi: SyscallAbi, path: u64) -> (v: i64)
    requires
        env.wf(),
        abi != SyscallAbi::LinuxBootstrap,
    ensures
        ({
            let step = spec_open_at(old(st)@, old(mem)@, *env, AT_FDCWD, path, 0);
            v == step.out.value && final(st)@ == step.state && final(mem)@ == step.mem
        }),
        final(st)@.brk == old(st)@.brk,
        final(mem)@ == old(mem)@,
{
    let ghost s0 = st@;
    let ghost m0 = mem@;
    let n = nr(abi, 0, GHOST_SYS_OPEN, HXNU_SYS_OPEN);
    let args: [u64; 6] = [path, 0, 0, 0, 0, 0];
    assert(spec_abi_call(abi, n) == Call::Open);
    let v = step_call(st, mem, env, abi, n, Call::Open, args);
    assert(spec_call(s0, m0, *env, Call::Open, args@) == spec_open_at(s0, m0, *env, AT_FDCWD, path, 0));
    proof {
        lemma_call_frame(s0, m0, *env, Call::Open, args@);
    }
    v
}

/// A probe can run its file calls to the end: the scratch area is mapped, and the next
/// descriptor is past standard error and names none of the caller's files.
pub open spec fn probe_ready(s: StateView, m: MemView, pid: u64) -> bool {
    &&& scratch_mapped(m)
    &&& 3 <= s.next_fd
    &&& forall|j: int| 0 <= j < s.files.len() && s.files[j].owner_process_id == pid ==> #[trigger] s.files[j].fd != s.next_fd
}

/// The caller's file under `fd` is the last open file, the only one of the caller under
/// that descriptor, not a directory, and `fd` is not standard input, output or error.
pub open spec fn file_found(s: StateView, pid: u64, fd: i64) -> bool {
    &&& s.files.len() > 0
    &&& 3 <= fd <= i32::MAX
    &&& s.files.last().fd == fd
    &&& s.files.last().owner_process_id == pid
    &&& s.files.last().kind != VfsNodeKind::Directory
    &&& forall|j: int|
        0 <= j < s.files.len() - 1 && s.files[j].owner_process_id == pid ==> #[trigger] s.files[j].fd != fd
}

/// How many bytes a read of `count` takes from the start of `c`.
pub open spec fn read_len(c: Seq<u8>, count: int) -> int {
    if count < c.len() {
        count
    } else {
        c.len() as int
    }
}

/// The scratch area is mapped in `m` as it was in the memory a probe started from.
pub open spec fn scratch_still_mapped(m0: MemView, m: MemView) -> bool {
    scratch_mapped(m0) && m.base == m0.base && m.bytes.len() >= m0.bytes.len()
}

proof fn lemma_find_last(fs: Seq<FileView>, fd: i32, pid: u64, i: int)
    requires
        0 <= i < fs.len(),
        fs.last().fd == fd,
        fs.last().owner_process_id == pid,
        forall|j: int| 0 <= j < fs.len() - 1 && fs[j].owner_process_id == pid ==> #[trigger] fs[j].fd != fd,
    ensures
        find_file(fs, fd, pid, i) == fs.len() - 1,
    decreases fs.len() - i,
{
    if i < fs.len() - 1 {
        lemma_find_last(fs, fd, pid, i + 1);
    }
}

/// Reading 64 bytes from the start of the found file into the read buffer.
#[verifier::rlimit(60)]
pub(crate) proof fn lemma_read_found(s: StateView, m: MemView, env: SyscallEnv, a: Seq<u64>, off: u64)
    requires
        scratch_mapped(m),
        file_found(s, env.process.process_id, a[0] as i64),
        a[0] <= i32::MAX,
        s.files.last().offset == 0,
        a.len() == 6,
        a[1] == m.base + off,
        0 < a[2] <= 64,
        off + a[2] <= SCRATCH_BYTES,
    ensures
        ({
            let st = crate::syscall::reads::spec_read(s, m, env, a);
            let c = s.files.last().content;
            &&& st.out == crate::syscall::process::ok(read_len(c, a[2] as int) as i64)
            &&& file_found(st.state, env.process.process_id, a[0] as i64)
            &&& st.state.files.last().content == c
            &&& st.state.files.drop_last() == s.files.drop_last()
            &&& st.state.next_fd == s.next_fd
            &&& st.mem.base == m.base
            &&& st.mem.bytes.len() == m.bytes.len()
            &&& forall|k: int| 0 <= k < off ==> #[trigger] st.mem.bytes[k] == m.bytes[k]
        }),
{
    broadcast use crate::uaccess::lemma_copyout_shape;

    let fd = a[0] as i32;
    lemma_find_last(s.files, fd, env.process.process_id, 0);
    let f = s.files.last();
    let n = read_len(f.content, a[2] as int);
    let bytes = crate::syscall::reads::take_at(f, 0, a[2] as int);
    crate::uaccess::lemma_copyout_bytes(m, a[1], bytes);
    assert(bytes.len() == n);
    let st = crate::syscall::reads::spec_read(s, m, env, a);
    assert(st.state.files.len() == s.files.len());
    assert forall|j: int| 0 <= j < st.state.files.len() - 1 implies #[trigger] st.state.files[j] == s.files[j] by {}
    assert(st.state.files.drop_last() =~= s.files.drop_last());
}

/// Reading 32 bytes from position 0 of the found file into the pread buffer.
#[verifier::rlimit(60)]
proof fn lemma_pread_found(s: StateView, m: MemView, env: SyscallEnv, a: Seq<u64>)
    requires
        scratch_mapped(m),
        file_found(s, env.process.process_id, a[0] as i64),
        a[0] <= i32::MAX,
        a.len() == 6,
        a[1] == m.base + OFF_PREAD_BUF,
        a[2] == 32,
        a[3] == 0,
    ensures
        crate::syscall::reads::spec_pread64(s, m, env, a).out == crate::syscall::process::ok(
            read_len(s.files.last().content, 32) as i64,
        ),
{
    let fd = a[0] as i32;
    lemma_find_last(s.files, fd, env.process.process_id, 0);
    let f = s.files.last();
    let bytes = crate::syscall::reads::take_at(f, 0, 32);
    assert(bytes.len() == read_len(f.content, 32));
}

/// Closing the found file drops it and nothing else.
pub(crate) proof fn lemma_close_found(s: StateView, m: MemView, env: SyscallEnv, a: Seq<u64>)
    requires
        file_found(s, env.process.process_id, a[0] as i64),
        a[0] <= i32::MAX,
        a.len() == 6,
    ensures
        ({
            let st = crate::syscall::fdcalls::spec_close(s, m, env, a);
            &&& st.out == crate::syscall::process::ok(0)
            &&& st.state.files == s.files.drop_last()
            &&& st.state.next_fd == s.next_fd
            &&& st.mem == m
        }),
{
    lemma_find_last(s.files, a[0] as i32, env.process.process_id, 0);
    assert(s.files.remove(s.files.len() - 1) =~= s.files.drop_last());
}

#[verifier::rlimit(60)]
fn file_read_call(st: &mut SyscallState, mem: &mut UserMemory, env: &SyscallEnv, abi: SyscallAbi, args: [u64; 6]) -> (v: i64)
    requires
        env.wf(),
    ensures
        ({
            let step = crate::syscall::reads::spec_read(old(st)@, old(mem)@, *env, args@);
            v == step.out.value && final(st)@ == step.state && final(mem)@ == step.mem
        }),
        final(mem)@.base == old(mem)@.base,
        final(mem)@.bytes.len() >= old(mem)@.bytes.len(),
{
    let ghost s0 = st@;
    let ghost m0 = mem@;
    let n = nr(abi, LINUX_SYS_READ, GHOST_SYS_READ, HXNU_SYS_READ);
    assert(spec_abi_call(abi, n) == Call::Read);
    let v = step_call(st, mem, env, abi, n, Call::Read, args);
    assert(spec_call(s0, m0, *env, Call::Read, args@) == crate::syscall::reads::spec_read(s0, m0, *env, args@));
    proof {
        lemma_call_frame(s0, m0, *env, Call::Read, args@);
    }
    v
}

#[verifier::rlimit(60)]
fn file_pread_call(st: &mut SyscallState, mem: &mut UserMemory, env: &SyscallEnv, abi: SyscallAbi, args: [u64; 6]) -> (v: i64)
    requires
        env.wf(),
    ensures
        ({
            let step = crate::syscall::reads::spec_pread64(old(st)@, old(mem)@, *env, args@);
            v == step.out.value && final(st)@ == step.state && final(mem)@ == step.mem
        }),
        final(mem)@.base == old(mem)@.base,
        final(mem)@.bytes.len() >= old(mem)@.bytes.len(),
{
    let ghost s0 = st@;
    let ghost m0 = mem@;
    let n = nr(abi, LINUX_SYS_PREAD64, GHOST_SYS_PREAD64, HXNU_SYS_PREAD64);
    assert(spec_abi_call(abi, n) == Call::Pread64);
    let v = step_call(st, mem, env, abi, n, Call::Pread64, args);
    assert(spec_call(s0, m0, *env, Call::Pread64, args@) == crate::syscall::reads::spec_pread64(s0, m0, *env, args@));
    proof {
        lemma_call_frame(s0, m0, *env, Call::Pread64, args@);
    }
    v
}

#[verifier::rlimit(60)]
fn file_pwrite_call(st: &mut SyscallState, mem: &mut UserMemory, env: &SyscallEnv, abi: SyscallAbi, args: [u64; 6]) -> (v: i64)
    requires
        env.wf(),
    ensures
        3 <= args[0] <= i32::MAX && args[3] == 0 ==> v == -crate::syscall::process::EROFS,
        final(mem)@.base == old(mem)@.base,
        final(mem)@.bytes.len() >= old(mem)@.bytes.len(),
{
    let ghost s0 = st@;
    let ghost m0 = mem@;
    let n = nr(abi, LINUX_SYS_PWRITE64, GHOST_SYS_PWRITE64, HXNU_SYS_PWRITE64);
    assert(spec_abi_call(abi, n) == Call::Pwrite64);
    let v = step_call(st, mem, env, abi, n, Call::Pwrite64, args);
    assert((0u64 as i64) == 0i64) by (bit_vector);
    assert(spec_call(s0, m0, *env, Call::Pwrite64, args@) == crate::syscall::console::spec_pwrite64(s0, m0, args@));
    proof {
        lemma_call_frame(s0, m0, *env, Call::Pwrite64, args@);
    }
    v
}

/// What an open of `/proc/version` that succeeded leaves: one more file, last, under the
/// descriptor it returned, at position 0, holding the version text.
pub open spec fn opened_version(s: StateView, env: SyscallEnv, fd: i64, s2: StateView) -> bool {
    let f = s2.files.last();
    &&& fd == s.next_fd
    &&& s2.next_fd == s.next_fd + 1
    &&& s2.files == s.files.push(f)
    &&& f.fd == s.next_fd
    &&& f.owner_process_id == env.process.process_id
    &&& f.offset == 0
    &&& f.pipe == PipeRole::NotPipe
    &&& f.content == version_text(env)
    &&& (f.kind != VfsNodeKind::Directory <==> version_is_file(env))
}

/// `brk` of a probe: the step the call takes.
fn brk_call(st: &mut SyscallState, mem: &mut UserMemory, env: &SyscallEnv, abi: SyscallAbi, args: [u64; 6]) -> (v: i64)
    requires
        env.wf(),
    ensures
        ({
            let step = crate::syscall::memory::spec_brk(old(st)@, old(mem)@, *env, args@);
            v == step.out.value && final(st)@ == step.state && final(mem)@ == step.mem
        }),
{
    let n = nr(abi, LINUX_SYS_BRK, GHOST_SYS_BRK, HXNU_SYS_BRK);
    assert(spec_abi_call(abi, n) == Call::Brk);
    let ghost s0 = st@;
    let ghost m0 = mem@;
    let v = dispatch(st, mem, env, abi, n, args).value;
    assert(spec_call(s0, m0, *env, Call::Brk, args@) == crate::syscall::memory::spec_brk(s0, m0, *env, args@));
    v
}

/// Reads the break, moves it up a page and back.
fn brk_sequence(st: &mut SyscallState, mem: &mut UserMemory, env: &SyscallEnv, abi: SyscallAbi) -> (r: (i64, i64, i64))
    requires
        env.wf(),
    ensures
        brk_moves_and_returns(r.0, r.1, r.2),
        files_and_shape_kept(old(st)@, old(mem)@, final(st)@, final(mem)@),
        r.0 == crate::syscall::calls::ok_u64(crate::syscall::memory::brk_of(old(st)@, env.process.process_id)).value,
{
    let brk_result = brk_call(st, mem, env, abi, [0, 0, 0, 0, 0, 0]);
    let brk_base: u64 = if brk_result >= 0 { brk_result as u64 } else { DEFAULT_PROCESS_BRK };
    let brk_set_result = brk_call(st, mem, env, abi, [brk_base.saturating_add(MAP_PAGE_SIZE), 0, 0, 0, 0, 0]);
    let brk_restore_result = brk_call(st, mem, env, abi, [brk_base, 0, 0, 0, 0, 0]);
    (brk_result, brk_set_result, brk_restore_result)
}

/// The first write of a probe: to the console descriptor, or the native log write.
fn write_call(st: &mut SyscallState, mem: &mut UserMemory, env: &SyscallEnv, abi: SyscallAbi, ptr: u64, len: u64) -> (v: i64)
    requires
        env.wf(),
    ensures
        spec_get(old(mem)@, ptr, len) is Ok ==> v == (if len > MAX_WRITE_BYTES { -ERANGE } else { len as int }),
        final(st)@.files == old(st)@.files,
        final(st)@.next_fd == old(st)@.next_fd,
        final(st)@.brk == old(st)@.brk,
        final(mem)@ == old(mem)@,
{
    match abi {
        SyscallAbi::HxnuNativeBootstrap => log_write_step(st, mem, env, abi, ptr, len),
        _ => console_write_step(st, mem, env, abi, ptr, len),
    }
}

fn log_write_step(st: &mut SyscallState, mem: &mut UserMemory, env: &SyscallEnv, abi: SyscallAbi, ptr: u64, len: u64) -> (v: i64)
    requires
        env.wf(),
        abi == SyscallAbi::HxnuNativeBootstrap,
    ensures
        v == crate::syscall::console::spec_write_text(old(st)@, old(mem)@, ptr, len).out.value,
        final(st)@ == crate::syscall::console::spec_write_text(old(st)@, old(mem)@, ptr, len).state,
        final(mem)@ == old(mem)@,
{
    let args: [u64; 6] = [ptr, len, 0, 0, 0, 0];
    let ghost s0 = st@;
    let ghost m0 = mem@;
    let v = step_call(st, mem, env, abi, HXNU_SYS_LOG_WRITE, Call::LogWrite, args);
    assert(spec_call(s0, m0, *env, Call::LogWrite, args@) == crate::syscall::console::spec_write_text(s0, m0, ptr, len));
    v
}

fn console_write_step(st: &mut SyscallState, mem: &mut UserMemory, env: &SyscallEnv, abi: SyscallAbi, ptr: u64, len: u64) -> (v: i64)
    requires
        env.wf(),
        abi != SyscallAbi::HxnuNativeBootstrap,
    ensures
        v == crate::syscall::console::spec_write_text(old(st)@, old(mem)@, ptr, len).out.value,
        final(st)@ == crate::syscall::console::spec_write_text(old(st)@, old(mem)@, ptr, len).state,
        final(mem)@ == old(mem)@,
{
    let n = nr(abi, LINUX_SYS_WRITE, GHOST_SYS_WRITE, 0);
    let fd = console_fd(abi);
    let args: [u64; 6] = [fd, ptr, len, 0, 0, 0];
    let ghost s0 = st@;
    let ghost m0 = mem@;
    assert(spec_abi_call(abi, n) == Call::Write);
    let v = step_call(st, mem, env, abi, n, Call::Write, args);
    assert(spec_call(s0, m0, *env, Call::Write, args@) == crate::syscall::console::spec_write_fd(s0, m0, *env, args@));
    v
}

/// A call of a probe: the step it takes, and what that step keeps.
fn exact_call(st: &mut SyscallState, mem: &mut UserMemory, env: &SyscallEnv, abi: SyscallAbi, n: u64, args: [u64; 6]) -> (v: i64)
    requires
        env.wf(),
    ensures
        ({
            let step = spec_call(old(st)@, old(mem)@, *env, spec_abi_call(abi, n), args@);
            v == step.out.value && final(st)@ == step.state && final(mem)@ == step.mem
        }),
        frame_holds(old(st)@, old(mem)@, spec_abi_call(abi, n), final(st)@, final(mem)@),
{
    let ghost s0 = st@;
    let ghost m0 = mem@;
    let v = dispatch(st, mem, env, abi, n, args).value;
    proof {
        lemma_call_frame(s0, m0, *env, spec_abi_call(abi, n), args@);
    }
    v
}

/// A call of a probe whose number names `c`: the step it takes.
fn step_call(st: &mut SyscallState, mem: &mut UserMemory, env: &SyscallEnv, abi: SyscallAbi, n: u64, c: Call, args: [u64; 6]) -> (v: i64)
    requires
        env.wf(),
        spec_abi_call(abi, n) == c,
    ensures
        ({
            let step = spec_call(old(st)@, old(mem)@, *env, c, args@);
            v == step.out.value && final(st)@ == step.state && final(mem)@ == step.mem
        }),
{
    dispatch(st, mem, env, abi, n, args).value
}

/// Sets the file mode mask to `0o077` and puts the previous one back: the second call
/// answers with the mask the first set.
fn umask_set_and_restore(st: &mut SyscallState, mem: &mut UserMemory, env: &SyscallEnv, abi: SyscallAbi) -> (r: (i64, i64))
    requires
        env.wf(),
    ensures
        r.1 == 0o077,
        final(mem)@.base == old(mem)@.base,
        final(mem)@.bytes.len() >= old(mem)@.bytes.len(),
{
    let ghost s0 = st@;
    let set_args: [u64; 6] = [0o077, 0, 0, 0, 0, 0];
    let umask_result = umask_call(st, mem, env, abi, set_args);
    let restore: u64 = if umask_result >= 0 { umask_result as u64 } else { DEFAULT_PROCESS_UMASK as u64 };
    let restore_args: [u64; 6] = [restore, 0, 0, 0, 0, 0];
    let umask_restore_result = umask_call(st, mem, env, abi, restore_args);
    proof {
        let requested = ((0o077u64 as u32) & UMASK_MODE_MASK) & UMASK_MODE_MASK;
        assert(requested == 0o077u32) by (bit_vector)
            requires
                requested == ((0o077u64 as u32) & UMASK_MODE_MASK) & UMASK_MODE_MASK,
        ;
        crate::syscall::table::lemma_lookup_after_store(s0.umask, env.process.process_id, 0, requested);
    }
    (umask_result, umask_restore_result)
}

/// `umask` of a probe: the step the call takes.
fn umask_call(st: &mut SyscallState, mem: &mut UserMemory, env: &SyscallEnv, abi: SyscallAbi, args: [u64; 6]) -> (v: i64)
    requires
        env.wf(),
    ensures
        ({
            let step = crate::syscall::calls::spec_umask(old(st)@, old(mem)@, *env, args@);
            v == step.out.value && final(st)@ == step.state && final(mem)@ == step.mem
        }),
        final(mem)@.base == old(mem)@.base,
        final(mem)@.bytes.len() >= old(mem)@.bytes.len(),
{
    let n = nr(abi, LINUX_SYS_UMASK, GHOST_SYS_UMASK, HXNU_SYS_UMASK);
    assert(spec_abi_call(abi, n) == Call::Umask);
    let ghost s0 = st@;
    let ghost m0 = mem@;
    let v = dispatch(st, mem, env, abi, n, args).value;
    assert(spec_call(s0, m0, *env, Call::Umask, args@) == crate::syscall::calls::spec_umask(s0, m0, *env, args@));
    proof {
        lemma_call_frame(s0, m0, *env, Call::Umask, args@);
    }
    v
}

/// `set_robust_list` of a probe with a head of the right size: it succeeds.
#[verifier::rlimit(60)]
fn set_robust_call(st: &mut SyscallState, mem: &mut UserMemory, env: &SyscallEnv, abi: SyscallAbi, head: u64) -> (v: i64)
    requires
        env.wf(),
    ensures
        v == 0,
        frame_holds(old(st)@, old(mem)@, Call::SetRobustList, final(st)@, final(mem)@),
{
    let n = nr(abi, LINUX_SYS_SET_ROBUST_LIST, GHOST_SYS_SET_ROBUST_LIST, HXNU_SYS_SET_ROBUST_LIST);
    assert(spec_abi_call(abi, n) == Call::SetRobustList);
    let ghost s0 = st@;
    let ghost m0 = mem@;
    let args: [u64; 6] = [head, ROBUST_LIST_HEAD_SIZE, 0, 0, 0, 0];
    let v = step_call(st, mem, env, abi, n, Call::SetRobustList, args);
    assert(spec_call(s0, m0, *env, Call::SetRobustList, args@) == crate::syscall::task::spec_set_robust_list(
        s0,
        m0,
        *env,
        args@,
    ));
    v
}

/// `wait4` of a probe: the step the call takes.
#[verifier::rlimit(60)]
fn wait4_step(st: &mut SyscallState, mem: &mut UserMemory, env: &SyscallEnv, abi: SyscallAbi, args: [u64; 6]) -> (v: i64)
    requires
        env.wf(),
    ensures
        ({
            let step = crate::syscall::calls::spec_wait4(old(st)@, old(mem)@, *env, args@);
            v == step.out.value && final(st)@ == step.state && final(mem)@ == step.mem
        }),
{
    let ghost s0 = st@;
    let ghost m0 = mem@;
    let n = nr(abi, LINUX_SYS_WAIT4, GHOST_SYS_WAIT4, HXNU_SYS_WAIT4);
    assert(spec_abi_call(abi, n) == Call::Wait4);
    let v = step_call(st, mem, env, abi, n, Call::Wait4, args);
    assert(spec_call(s0, m0, *env, Call::Wait4, args@) == crate::syscall::calls::spec_wait4(s0, m0, *env, args@));
    v
}

/// `wait4` of a probe for any child, without waiting: the caller has none, so 0.
#[verifier::rlimit(60)]
fn wait4_call(st: &mut SyscallState, mem: &mut UserMemory, env: &SyscallEnv, abi: SyscallAbi) -> (v: i64)
    requires
        env.wf(),
    ensures
        v == (if env.process.process_id > i64::MAX as u64 { -ERANGE } else { 0 }),
        frame_holds(old(st)@, old(mem)@, Call::Wait4, final(st)@, final(mem)@),
{
    broadcast use crate::uaccess::lemma_copyout_shape;

    assert((u64::MAX as i64) == -1i64) by (bit_vector);
    assert(((1u64 as i32) & !1i32) == 0i32 && ((1u64 as i32) & 1i32) != 0i32) by (bit_vector);
    let args: [u64; 6] = [u64::MAX, 0, WNOHANG, 0, 0, 0];
    wait4_step(st, mem, env, abi, args)
}

/// Marks the process dumpable and asks whether it is: `(0, 1)`.
#[verifier::rlimit(100)]
#[verifier::spinoff_prover]
fn probe_dumpable(st: &mut SyscallState, mem: &mut UserMemory, env: &SyscallEnv, abi: SyscallAbi) -> (r: (i64, i64))
    requires
        env.wf(),
    ensures
        r == (0i64, 1i64),
        files_and_shape_kept(old(st)@, old(mem)@, final(st)@, final(mem)@),
{
    let ghost s0 = st@;
    let ghost m0 = mem@;
    let set_args: [u64; 6] = [PR_SET_DUMPABLE as u64, 1, 0, 0, 0, 0];
    let get_args: [u64; 6] = [PR_GET_DUMPABLE as u64, 0, 0, 0, 0, 0];
    let set = prctl_call(st, mem, env, abi, set_args);
    let get = prctl_call(st, mem, env, abi, get_args);
    proof {
        lemma_dumpable_reads_back(s0, m0, *env, set_args@, get_args@);
    }
    (set, get)
}

/// Signal, wait, session, limit, task-name, robust-list and rseq calls of a probe.
fn probe_process(st: &mut SyscallState, mem: &mut UserMemory, env: &SyscallEnv, abi: SyscallAbi) -> (r: ProcessPhase)
    requires
        env.wf(),
    ensures
        r.prctl_set_dumpable_result == 0,
        r.prctl_get_dumpable_result == 1,
        r.set_robust_list_result == 0,
        r.wait4_result == (if env.process.process_id > i64::MAX as u64 { -ERANGE } else { 0 }),
        files_and_shape_kept(old(st)@, old(mem)@, final(st)@, final(mem)@),
{
    poke(mem, OFF_SIGSET, u64_bytes(1u64 << 1u64).as_slice());
    let set_ptr = at(mem, OFF_SIGSET);
    let old_set_ptr = at(mem, OFF_OLD_SIGSET);
    let n = nr(abi, LINUX_SYS_RT_SIGPROCMASK, GHOST_SYS_RT_SIGPROCMASK, HXNU_SYS_RT_SIGPROCMASK);
    let rt_sigprocmask_result = call(
        st, mem, env, abi, n, [SIG_BLOCK as u64, set_ptr, old_set_ptr, RT_SIGSET_SIZE, 0, 0],
    );
    let mut action: Vec<u8> = Vec::new();
    push_u64_le(&mut action, 0x10);
    push_u64_le(&mut action, 0);
    push_u64_le(&mut action, 0);
    push_u64_le(&mut action, 0);
    poke(mem, OFF_ACTION, action.as_slice());
    let action_ptr = at(mem, OFF_ACTION);
    let old_action_ptr = at(mem, OFF_OLD_ACTION);
    let n = nr(abi, LINUX_SYS_RT_SIGACTION, GHOST_SYS_RT_SIGACTION, HXNU_SYS_RT_SIGACTION);
    let rt_sigaction_result = call(st, mem, env, abi, n, [10, action_ptr, old_action_ptr, RT_SIGSET_SIZE, 0, 0]);
    let rt_sigmask_snapshot = peek_u64(mem, OFF_OLD_SIGSET);
    let rt_sigold_handler = peek_u64(mem, OFF_OLD_ACTION);

    let wait4_result = wait4_call(st, mem, env, abi);
    let n = nr(abi, LINUX_SYS_SETPGID, GHOST_SYS_SETPGID, HXNU_SYS_SETPGID);
    let setpgid_result = call(st, mem, env, abi, n, [0, 0, 0, 0, 0, 0]);
    let n = nr(abi, LINUX_SYS_GETPGID, GHOST_SYS_GETPGID, HXNU_SYS_GETPGID);
    let getpgid_result = call(st, mem, env, abi, n, [0, 0, 0, 0, 0, 0]);
    let n = nr(abi, LINUX_SYS_SETSID, GHOST_SYS_SETSID, HXNU_SYS_SETSID);
    let setsid_result = call(st, mem, env, abi, n, [0, 0, 0, 0, 0, 0]);
    let n = nr(abi, LINUX_SYS_GETSID, GHOST_SYS_GETSID, HXNU_SYS_GETSID);
    let getsid_result = call(st, mem, env, abi, n, [0, 0, 0, 0, 0, 0]);

    let limit_ptr = at(mem, OFF_NOFILE);
    let n = nr(abi, LINUX_SYS_GETRLIMIT, GHOST_SYS_GETRLIMIT, HXNU_SYS_GETRLIMIT);
    let getrlimit_result = call(st, mem, env, abi, n, [RLIMIT_NOFILE as u64, limit_ptr, 0, 0, 0, 0]);
    let n = nr(abi, LINUX_SYS_SETRLIMIT, GHOST_SYS_SETRLIMIT, HXNU_SYS_SETRLIMIT);
    let setrlimit_result = call(st, mem, env, abi, n, [RLIMIT_NOFILE as u64, limit_ptr, 0, 0, 0, 0]);
    let old_limit_ptr = at(mem, OFF_PRLIMIT_OLD);
    let n = nr(abi, LINUX_SYS_PRLIMIT64, GHOST_SYS_PRLIMIT64, HXNU_SYS_PRLIMIT64);
    let prlimit64_result = call(st, mem, env, abi, n, [0, RLIMIT_NOFILE as u64, 0, old_limit_ptr, 0, 0]);

    let n_prctl = nr(abi, LINUX_SYS_PRCTL, GHOST_SYS_PRCTL, HXNU_SYS_PRCTL);
    let comm_ptr = at(mem, OFF_COMM);
    let prctl_set_name_result = call(st, mem, env, abi, n_prctl, [PR_SET_NAME as u64, comm_ptr, 0, 0, 0, 0]);
    let readback_ptr = at(mem, OFF_COMM_READBACK);
    let prctl_get_name_result = call(st, mem, env, abi, n_prctl, [PR_GET_NAME as u64, readback_ptr, 0, 0, 0, 0]);
    let (prctl_set_dumpable_result, prctl_get_dumpable_result) = probe_dumpable(st, mem, env, abi);

    let head_ptr = at(mem, OFF_ROBUST_HEAD);
    let set_robust_list_result = set_robust_call(st, mem, env, abi, head_ptr);
    let head_out = at(mem, OFF_ROBUST_HEAD_OUT);
    let len_out = at(mem, OFF_ROBUST_LEN_OUT);
    let n = nr(abi, LINUX_SYS_GET_ROBUST_LIST, GHOST_SYS_GET_ROBUST_LIST, HXNU_SYS_GET_ROBUST_LIST);
    let get_robust_list_result = call(st, mem, env, abi, n, [0, head_out, len_out, 0, 0, 0]);

    let rseq_ptr = at(mem, OFF_RSEQ);
    let n_rseq = nr(abi, LINUX_SYS_RSEQ, GHOST_SYS_RSEQ, HXNU_SYS_RSEQ);
    let rseq_register_result = call(
        st, mem, env, abi, n_rseq, [rseq_ptr, RSEQ_AREA_SIZE as u64, 0, RSEQ_SIGNATURE as u64, 0, 0],
    );
    let rseq_unregister_result = call(
        st, mem, env, abi, n_rseq,
        [rseq_ptr, RSEQ_AREA_SIZE as u64, RSEQ_FLAG_UNREGISTER as u64, RSEQ_SIGNATURE as u64, 0, 0],
    );
    ProcessPhase {
        rt_sigprocmask_result,
        rt_sigaction_result,
        rt_sigmask_snapshot,
        rt_sigold_handler,
        wait4_result,
        setpgid_result,
        getpgid_result,
        setsid_result,
        getsid_result,
        getrlimit_result,
        setrlimit_result,
        prlimit64_result,
        prctl_set_name_result,
        prctl_get_name_result,
        prctl_set_dumpable_result,
        prctl_get_dumpable_result,
        set_robust_list_result,
        get_robust_list_result,
        rseq_register_result,
        rseq_unregister_result,
    }
}

struct PathPhase {
    writev_result: i64,
    ioctl_result: i64,
    access_result: i64,
    stat_result: i64,
    faccessat_result: i64,
    faccessat2_result: i64,
    readlink_result: i64,
    getcwd_result: i64,
    chdir_result: i64,
}

/// Vectored console write, terminal size and the path calls of a probe.
fn probe_paths(st: &mut SyscallState, mem: &mut UserMemory, env: &SyscallEnv, abi: SyscallAbi) -> (r: PathPhase)
    requires
        env.wf(),
    ensures
        files_and_shape_kept(old(st)@, old(mem)@, final(st)@, final(mem)@),
{
    let mut iov: Vec<u8> = Vec::new();
    push_u64_le(&mut iov, at(mem, OFF_WRITEV_A));
    push_u64_le(&mut iov, writev_head(abi).as_bytes().len() as u64);
    push_u64_le(&mut iov, at(mem, OFF_WRITEV_B));
    push_u64_le(&mut iov, WRITEV_TAIL_LEN);
    poke(mem, OFF_WRITEV_IOV, iov.as_slice());
    let iov_ptr = at(mem, OFF_WRITEV_IOV);
    let fd = console_fd(abi);
    let n = nr(abi, LINUX_SYS_WRITEV, GHOST_SYS_WRITEV, HXNU_SYS_WRITEV);
    let writev_result = call(st, mem, env, abi, n, [fd, iov_ptr, 2, 0, 0, 0]);
    let winsize_ptr = at(mem, OFF_WINSIZE);
    let n = nr(abi, LINUX_SYS_IOCTL, GHOST_SYS_IOCTL, HXNU_SYS_IOCTL);
    let ioctl_result = call(st, mem, env, abi, n, [fd, LINUX_TIOCGWINSZ, winsize_ptr, 0, 0, 0]);

    let path = at(mem, OFF_OPEN_PATH);
    let n = nr(abi, LINUX_SYS_ACCESS, GHOST_SYS_ACCESS, HXNU_SYS_ACCESS);
    let access_result = call(st, mem, env, abi, n, [path, R_OK, 0, 0, 0, 0]);
    let stat_ptr = at(mem, OFF_STAT);
    let cwd_ptr = at(mem, OFF_CWD);
    let dir_path = at(mem, OFF_DIR_PATH);
    let link_path = at(mem, OFF_LINK_PATH);
    let link_buf = at(mem, OFF_LINK_BUF);
    match abi {
        SyscallAbi::LinuxBootstrap => {
            let stat_result = call(
                st, mem, env, abi, LINUX_SYS_NEWFSTATAT, [AT_FDCWD as u64, path, stat_ptr, 0, 0, 0],
            );
            let faccessat_result = call(
                st, mem, env, abi, LINUX_SYS_FACCESSAT, [AT_FDCWD as u64, path, R_OK, 0, 0, 0],
            );
            let faccessat2_result = call(
                st, mem, env, abi, LINUX_SYS_FACCESSAT2, [AT_FDCWD as u64, path, R_OK, 0, 0, 0],
            );
            let getcwd_result = call(st, mem, env, abi, LINUX_SYS_GETCWD, [cwd_ptr, 128, 0, 0, 0, 0]);
            let chdir_result = call(st, mem, env, abi, LINUX_SYS_CHDIR, [dir_path, 0, 0, 0, 0, 0]);
            let readlink_result = call(
                st, mem, env, abi, LINUX_SYS_READLINKAT, [AT_FDCWD as u64, link_path, link_buf, 128, 0, 0],
            );
            PathPhase {
                writev_result,
                ioctl_result,
                access_result,
                stat_result,
                faccessat_result,
                faccessat2_result,
                readlink_result,
                getcwd_result,
                chdir_result,
            }
        },
        _ => {
            let n = nr(abi, 0, GHOST_SYS_STAT, HXNU_SYS_STAT);
            let stat_result = call(st, mem, env, abi, n, [path, stat_ptr, 0, 0, 0, 0]);
            let n = nr(abi, 0, GHOST_SYS_READLINK, HXNU_SYS_READLINK);
            let readlink_result = call(st, mem, env, abi, n, [link_path, link_buf, 128, 0, 0, 0]);
            let n = nr(abi, 0, GHOST_SYS_GETCWD, HXNU_SYS_GETCWD);
            let getcwd_result = call(st, mem, env, abi, n, [cwd_ptr, 128, 0, 0, 0, 0]);
            let n = nr(abi, 0, GHOST_SYS_CHDIR, HXNU_SYS_CHDIR);
            let chdir_result = call(st, mem, env, abi, n, [dir_path, 0, 0, 0, 0, 0]);
            PathPhase {
                writev_result,
                ioctl_result,
                access_result,
                stat_result,
                faccessat_result: 0,
                faccessat2_result: 0,
                readlink_result,
                getcwd_result,
                chdir_result,
            }
        },
    }
}

/// The results a probe reports for the file calls it could not make.
spec fn unopened_file_phase() -> FilePhase {
    let e = (-EBADF) as i64;
    FilePhase {
        read_result: e,
        fstat_result: e,
        pread64_result: e,
        readv_result: e,
        pwrite64_result: e,
        fcntl_getfd_result: e,
        fcntl_getfl_result: e,
        dup_result: e,
        dup2_result: e,
        dup3_result: e,
        seek_result: e,
        close_result: e,
    }
}

struct FilePhase {
    read_result: i64,
    fstat_result: i64,
    pread64_result: i64,
    readv_result: i64,
    pwrite64_result: i64,
    fcntl_getfd_result: i64,
    fcntl_getfl_result: i64,
    dup_result: i64,
    dup2_result: i64,
    dup3_result: i64,
    seek_result: i64,
    close_result: i64,
}

/// The calls of a probe on the descriptor its first open returned.
fn probe_file(st: &mut SyscallState, mem: &mut UserMemory, env: &SyscallEnv, abi: SyscallAbi, open_result: i64) -> (r: FilePhase)
    requires
        env.wf(),
    ensures
        open_result < 0 ==> r == unopened_file_phase(),
        open_result >= 0 && file_found(old(st)@, env.process.process_id, open_result) && old(st)@.files.last().offset == 0
            && scratch_mapped(old(mem)@) ==> {
            let c = old(st)@.files.last().content;
            &&& r.read_result == read_len(c, 64)
            &&& r.pread64_result == read_len(c, 32)
            &&& r.pwrite64_result == -crate::syscall::process::EROFS
        },
        final(mem)@.base == old(mem)@.base,
        final(mem)@.bytes.len() >= old(mem)@.bytes.len(),
{
    let mut r = FilePhase {
        read_result: -EBADF,
        fstat_result: -EBADF,
        pread64_result: -EBADF,
        readv_result: -EBADF,
        pwrite64_result: -EBADF,
        fcntl_getfd_result: -EBADF,
        fcntl_getfl_result: -EBADF,
        dup_result: -EBADF,
        dup2_result: -EBADF,
        dup3_result: -EBADF,
        seek_result: -EBADF,
        close_result: -EBADF,
    };
    if open_result < 0 {
        return r;
    }
    let fd = open_result as u64;
    let n_close = nr(abi, LINUX_SYS_CLOSE, GHOST_SYS_CLOSE, HXNU_SYS_CLOSE);
    let buf = at(mem, OFF_READ_BUF);
    let ghost s0 = st@;
    let ghost m0 = mem@;
    let read_args: [u64; 6] = [fd, buf, 64, 0, 0, 0];
    r.read_result = file_read_call(st, mem, env, abi, read_args);
    proof {
        if file_found(s0, env.process.process_id, open_result) && s0.files.last().offset == 0 && scratch_mapped(m0) {
            lemma_read_found(s0, m0, *env, read_args@, OFF_READ_BUF);
        }
    }
    let ghost s1 = st@;
    let ghost m1 = mem@;
    let stat_ptr = at(mem, OFF_FSTAT);
    let n = nr(abi, LINUX_SYS_FSTAT, GHOST_SYS_FSTAT, HXNU_SYS_FSTAT);
    r.fstat_result = call(st, mem, env, abi, n, [fd, stat_ptr, 0, 0, 0, 0]);
    let ghost s2 = st@;
    let ghost m2 = mem@;
    let pread_buf = at(mem, OFF_PREAD_BUF);
    let pread_args: [u64; 6] = [fd, pread_buf, 32, 0, 0, 0];
    r.pread64_result = file_pread_call(st, mem, env, abi, pread_args);
    proof {
        if file_found(s0, env.process.process_id, open_result) && s0.files.last().offset == 0 && scratch_mapped(m0) {
            assert(s2.files == s1.files);
            assert(scratch_mapped(m2));
            lemma_pread_found(s2, m2, *env, pread_args@);
        }
    }
    let mut iov: Vec<u8> = Vec::new();
    push_u64_le(&mut iov, at(mem, OFF_READV_A));
    push_u64_le(&mut iov, 24);
    push_u64_le(&mut iov, at(mem, OFF_READV_B));
    push_u64_le(&mut iov, 24);
    poke(mem, OFF_READV_IOV, iov.as_slice());
    let iov_ptr = at(mem, OFF_READV_IOV);
    let n = nr(abi, LINUX_SYS_READV, GHOST_SYS_READV, HXNU_SYS_READV);
    r.readv_result = call(st, mem, env, abi, n, [fd, iov_ptr, 2, 0, 0, 0]);
    let text_ptr = at(mem, OFF_WRITEV_A);
    let text_len = writev_head(abi).as_bytes().len() as u64;
    r.pwrite64_result = file_pwrite_call(st, mem, env, abi, [fd, text_ptr, text_len, 0, 0, 0]);
    let n = nr(abi, LINUX_SYS_FCNTL, GHOST_SYS_FCNTL, HXNU_SYS_FCNTL);
    r.fcntl_getfd_result = call(st, mem, env, abi, n, [fd, F_GETFD as u64, 0, 0, 0, 0]);
    r.fcntl_getfl_result = call(st, mem, env, abi, n, [fd, F_GETFL as u64, 0, 0, 0, 0]);
    let n = nr(abi, LINUX_SYS_DUP, GHOST_SYS_DUP, HXNU_SYS_DUP);
    r.dup_result = call(st, mem, env, abi, n, [fd, 0, 0, 0, 0, 0]);
    if r.dup_result >= 0 {
        let _ = call(st, mem, env, abi, n_close, [r.dup_result as u64, 0, 0, 0, 0, 0]);
    }
    let n = nr(abi, LINUX_SYS_DUP2, GHOST_SYS_DUP2, HXNU_SYS_DUP2);
    r.dup2_result = call(st, mem, env, abi, n, [fd, 62, 0, 0, 0, 0]);
    if r.dup2_result >= 0 {
        let _ = call(st, mem, env, abi, n_close, [r.dup2_result as u64, 0, 0, 0, 0, 0]);
    }
    let n = nr(abi, LINUX_SYS_DUP3, GHOST_SYS_DUP3, HXNU_SYS_DUP3);
    r.dup3_result = call(st, mem, env, abi, n, [fd, 63, O_CLOEXEC, 0, 0, 0]);
    if r.dup3_result >= 0 {
        let _ = call(st, mem, env, abi, n_close, [r.dup3_result as u64, 0, 0, 0, 0, 0]);
    }
    let n = nr(abi, LINUX_SYS_LSEEK, GHOST_SYS_SEEK, HXNU_SYS_SEEK);
    r.seek_result = call(st, mem, env, abi, n, [fd, 0, SEEK_SET as u64, 0, 0, 0]);
    r.close_result = call(st, mem, env, abi, n_close, [fd, 0, 0, 0, 0, 0]);
    r
}

/// Opens the directory of a probe, changes to it by descriptor and lists it; then
/// changes back to the root. Returns the results of `fchdir` and of the listing.
fn probe_directory(st: &mut SyscallState, mem: &mut UserMemory, env: &SyscallEnv, abi: SyscallAbi) -> (r: (i64, i64))
    requires
        env.wf(),
    ensures
        final(mem)@.base == old(mem)@.base,
        final(mem)@.bytes.len() >= old(mem)@.bytes.len(),
{
    let dir_path = at(mem, OFF_DIR_PATH);
    let open_dir_result = match abi {
        SyscallAbi::LinuxBootstrap => call(
            st, mem, env, abi, LINUX_SYS_OPENAT, [AT_FDCWD as u64, dir_path, 0, 0, 0, 0],
        ),
        _ => {
            let n = nr(abi, 0, GHOST_SYS_OPEN, HXNU_SYS_OPEN);
            call(st, mem, env, abi, n, [dir_path, 0, 0, 0, 0, 0])
        },
    };
    let mut fchdir_result: i64 = -EBADF;
    let mut getdents_result: i64 = -EBADF;
    if open_dir_result >= 0 {
        let fd = open_dir_result as u64;
        let n = nr(abi, LINUX_SYS_FCHDIR, GHOST_SYS_FCHDIR, HXNU_SYS_FCHDIR);
        fchdir_result = call(st, mem, env, abi, n, [fd, 0, 0, 0, 0, 0]);
        let buf = at(mem, OFF_DIR_BUF);
        let n = nr(abi, LINUX_SYS_GETDENTS64, GHOST_SYS_GETDENTS, HXNU_SYS_GETDENTS);
        getdents_result = call(st, mem, env, abi, n, [fd, buf, 256, 0, 0, 0]);
        let n = nr(abi, LINUX_SYS_CLOSE, GHOST_SYS_CLOSE, HXNU_SYS_CLOSE);
        let _ = call(st, mem, env, abi, n, [fd, 0, 0, 0, 0, 0]);
    }
    let root = at(mem, OFF_ROOT_PATH);
    let n = nr(abi, LINUX_SYS_CHDIR, GHOST_SYS_CHDIR, HXNU_SYS_CHDIR);
    let _ = call(st, mem, env, abi, n, [root, 0, 0, 0, 0, 0]);
    (fchdir_result, getdents_result)
}

struct IdentityPhase {
    process_self_result: i64,
    process_parent_result: i64,
    thread_self_result: i64,
    umask_result: i64,
    umask_restore_result: i64,
    getuid_result: i64,
    getgid_result: i64,
    geteuid_result: i64,
    getegid_result: i64,
    set_tid_address_result: i64,
    clear_tid_snapshot: i64,
    sched_yield_result: i64,
}

/// Identity, file mode mask, credentials, clear-tid address and yield calls of a probe.
#[verifier::rlimit(60)]
#[verifier::spinoff_prover]
fn probe_identity(st: &mut SyscallState, mem: &mut UserMemory, env: &SyscallEnv, abi: SyscallAbi) -> (r: IdentityPhase)
    requires
        env.wf(),
    ensures
        r.process_self_result == spec_identity(*env, 0).value,
        r.process_parent_result == spec_identity(*env, 1).value,
        r.thread_self_result == spec_identity(*env, 2).value,
        r.getuid_result == 0,
        r.getgid_result == 0,
        r.geteuid_result == 0,
        r.getegid_result == 0,
        r.sched_yield_result == 0,
        r.umask_restore_result == 0o077,
        final(mem)@.base == old(mem)@.base,
        final(mem)@.bytes.len() >= old(mem)@.bytes.len(),
{
    let none: [u64; 6] = [0, 0, 0, 0, 0, 0];
    let n = nr(abi, LINUX_SYS_GETPID, GHOST_SYS_GETPID, HXNU_SYS_PROCESS_SELF);
    let process_self_result = exact_call(st, mem, env, abi, n, none);
    let n = nr(abi, LINUX_SYS_GETPPID, GHOST_SYS_GETPPID, HXNU_SYS_PROCESS_PARENT);
    let process_parent_result = exact_call(st, mem, env, abi, n, none);
    let n = nr(abi, LINUX_SYS_GETTID, GHOST_SYS_GETTID, HXNU_SYS_THREAD_SELF);
    let thread_self_result = exact_call(st, mem, env, abi, n, none);
    let (umask_result, umask_restore_result) = umask_set_and_restore(st, mem, env, abi);
    let n = nr(abi, LINUX_SYS_GETUID, GHOST_SYS_GETUID, HXNU_SYS_GETUID);
    let getuid_result = exact_call(st, mem, env, abi, n, none);
    let n = nr(abi, LINUX_SYS_GETGID, GHOST_SYS_GETGID, HXNU_SYS_GETGID);
    let getgid_result = exact_call(st, mem, env, abi, n, none);
    let n = nr(abi, LINUX_SYS_GETEUID, GHOST_SYS_GETEUID, HXNU_SYS_GETEUID);
    let geteuid_result = exact_call(st, mem, env, abi, n, none);
    let n = nr(abi, LINUX_SYS_GETEGID, GHOST_SYS_GETEGID, HXNU_SYS_GETEGID);
    let getegid_result = exact_call(st, mem, env, abi, n, none);
    let slot = at(mem, OFF_CLEAR_TID);
    let n = nr(abi, LINUX_SYS_SET_TID_ADDRESS, GHOST_SYS_SET_TID_ADDRESS, HXNU_SYS_SET_TID_ADDRESS);
    let set_tid_address_result = call(st, mem, env, abi, n, [slot, 0, 0, 0, 0, 0]);
    let clear_tid_snapshot = (peek_u64(mem, OFF_CLEAR_TID) as u32) as i32 as i64;
    let n = nr(abi, LINUX_SYS_SCHED_YIELD, GHOST_SYS_YIELD, HXNU_SYS_SCHED_YIELD);
    let sched_yield_result = exact_call(st, mem, env, abi, n, none);
    IdentityPhase {
        process_self_result,
        process_parent_result,
        thread_self_result,
        umask_result,
        umask_restore_result,
        getuid_result,
        getgid_result,
        geteuid_result,
        getegid_result,
        set_tid_address_result,
        clear_tid_snapshot,
        sched_yield_result,
    }
}

/// Whether an outcome ends the process group, and with which status.
pub open spec fn spec_exit_status(o: SyscallOutcome) -> (bool, i32) {
    match o.action {
        SyscallAction::ExitGroup { status } => (true, status),
        SyscallAction::Continue => (false, 0),
    }
}

fn exit_status(o: SyscallOutcome) -> (r: (bool, i32))
    ensures
        r == spec_exit_status(o),
{
    match o.action {
        SyscallAction::ExitGroup { status } => (true, status),
        SyscallAction::Continue => (false, 0),
    }
}

/// The bytes of a C string field before its first zero byte, at most 16 of them, zero padded.
pub open spec fn machine_prefix(field: Seq<u8>) -> Seq<u8> {
    let end = crate::exec::nul_from(field, 0);
    let n = if end < 16 { end } else { 16 };
    Seq::new(16, |i: int| if i < n { field[i] } else { 0u8 })
}

/// The length of `machine_prefix(field)` before its padding.
pub open spec fn machine_prefix_len(field: Seq<u8>) -> int {
    let end = crate::exec::nul_from(field, 0);
    if end < 16 { end } else { 16 }
}

proof fn lemma_nul_from_at_least(s: Seq<u8>, i: int)
    requires
        0 <= i <= s.len(),
    ensures
        i <= crate::exec::nul_from(s, i) <= s.len(),
    decreases s.len() - i,
{
    if i < s.len() && s[i] != 0 {
        lemma_nul_from_at_least(s, i + 1);
    }
}

fn copy_c_field_prefix(field: &[u8]) -> (r: ([u8; 16], usize))
    ensures
        r.0@ == machine_prefix(field@),
        r.1 == machine_prefix_len(field@),
{
    let mut end: usize = 0;
    while end < field.len() && end < 16 && field[end] != 0
        invariant
            end <= field@.len(),
            end <= 16,
            crate::exec::nul_from(field@, 0) == crate::exec::nul_from(field@, end as int),
        decreases field@.len() - end,
    {
        end = end + 1;
    }
    proof {
        lemma_nul_from_at_least(field@, end as int);
    }
    let mut out = [0u8; 16];
    let mut i: usize = 0;
    while i < end
        invariant
            end <= 16,
            end <= field@.len(),
            i <= end,
            out@.len() == 16,
            forall|j: int| 0 <= j < i ==> out@[j] == field@[j],
            forall|j: int| i <= j < 16 ==> out@[j] == 0u8,
        decreases end - i,
    {
        out[i] = field[i];
        i = i + 1;
    }
    assert(out@ =~= machine_prefix(field@));
    (out, end)
}

/// The machine field of the `utsname` record both personalities report.
pub open spec fn uname_machine_field() -> Seq<u8> {
    crate::syscall::clock::uts_field("x86_64".spec_bytes())
}

/// `uname` of a Linux or Ghost probe into its scratch record, and the machine field read
/// back from it: its bytes before the first zero, at most 16, zero padded, and their count.
fn uname_machine(st: &mut SyscallState, mem: &mut UserMemory, env: &SyscallEnv, abi: SyscallAbi) -> (r: (i64, [u8; 16], usize))
    requires
        env.wf(),
        abi != SyscallAbi::HxnuNativeBootstrap,
    ensures
        r.2 <= 16,
        scratch_mapped(old(mem)@) ==> r.1@ == machine_prefix(uname_machine_field()) && r.2 == machine_prefix_len(
            uname_machine_field(),
        ),
{
    let uts = at(mem, OFF_UTSNAME);
    let n = nr(abi, LINUX_SYS_UNAME, GHOST_SYS_UNAME, 0);
    let args: [u64; 6] = [uts, 0, 0, 0, 0, 0];
    let ghost m0 = mem@;
    let ghost s0 = st@;
    let uname_result = exact_call(st, mem, env, abi, n, args);
    proof {
        let fields = if abi == SyscallAbi::LinuxBootstrap {
            crate::syscall::clock::linux_uts()
        } else {
            crate::syscall::clock::ghost_uts()
        };
        assert(spec_call(s0, m0, *env, spec_abi_call(abi, n), args@) == crate::syscall::clock::spec_uname(s0, m0, args@, fields));
        crate::uaccess::lemma_copyout_bytes(m0, uts, fields);
        crate::uaccess::lemma_copyout_shape(m0, uts, fields);
        if scratch_mapped(m0) {
            assert(fields.subrange(UTS_MACHINE_OFFSET as int, UTS_MACHINE_OFFSET + UTS_FIELD_LEN) =~= uname_machine_field());
            assert(mem@.bytes.subrange(
                (OFF_UTSNAME + UTS_MACHINE_OFFSET) as int,
                (OFF_UTSNAME + UTS_MACHINE_OFFSET + UTS_FIELD_LEN) as int,
            ) =~= uname_machine_field());
        }
    }
    let mut machine_bytes = [0u8; 16];
    let mut machine_len: usize = 0;
    let field_ptr = at(mem, OFF_UTSNAME + UTS_MACHINE_OFFSET);
    if let Ok(field) = get_user(mem, field_ptr, UTS_FIELD_LEN) {
        let (bytes, len) = copy_c_field_prefix(field.as_slice());
        machine_bytes = bytes;
        machine_len = len;
    }
    (uname_result, machine_bytes, machine_len)
}

/// Ends the process group of a probe with `status`.
fn probe_exit(st: &mut SyscallState, mem: &mut UserMemory, env: &SyscallEnv, abi: SyscallAbi, status: u64) -> (r: (bool, i32))
    requires
        env.wf(),
        status <= i32::MAX,
    ensures
        r == (true, status as i32),
{
    let n = nr(abi, LINUX_SYS_EXIT_GROUP, GHOST_SYS_EXIT_GROUP, HXNU_SYS_EXIT_GROUP);
    let exit = dispatch(st, mem, env, abi, n, [status, 0, 0, 0, 0, 0]);
    exit_status(exit)
}

/// Asks a Ghost or native probe's uptime.
fn probe_uptime(st: &mut SyscallState, mem: &mut UserMemory, env: &SyscallEnv, abi: SyscallAbi) -> (v: i64)
    requires
        env.wf(),
        abi != SyscallAbi::LinuxBootstrap,
    ensures
        v == spec_uptime(*env).value,
        final(mem)@.base == old(mem)@.base,
        final(mem)@.bytes.len() >= old(mem)@.bytes.len(),
{
    let n = nr(abi, 0, GHOST_SYS_UPTIME_NSEC, HXNU_SYS_UPTIME_NSEC);
    exact_call(st, mem, env, abi, n, [0, 0, 0, 0, 0, 0])
}

/// Asks the native interface version.
fn probe_abi_version(st: &mut SyscallState, mem: &mut UserMemory, env: &SyscallEnv) -> (v: i64)
    requires
        env.wf(),
    ensures
        v == HXNU_NATIVE_ABI_VERSION,
{
    let abi = SyscallAbi::HxnuNativeBootstrap;
    dispatch(st, mem, env, abi, HXNU_SYS_ABI_VERSION, [0, 0, 0, 0, 0, 0]).value
}

struct ClosingPhase {
    clock_gettime_result: i64,
    clock_seconds: i64,
    clock_nanoseconds: i64,
    uptime_result: i64,
    abi_version_result: i64,
    uname_result: i64,
    exit_group_captured: bool,
    exit_group_status: i32,
    pub machine_bytes: [u8; 16],
    pub machine_len: usize,
}

/// Clock, uptime, version and `uname` calls of a probe, then the exit of its process group.
fn probe_closing(st: &mut SyscallState, mem: &mut UserMemory, env: &SyscallEnv, abi: SyscallAbi, status: u64) -> (r: ClosingPhase)
    requires
        env.wf(),
        status <= i32::MAX,
    ensures
        r.exit_group_captured,
        r.exit_group_status == status as i32,
        abi != SyscallAbi::LinuxBootstrap ==> r.uptime_result == spec_uptime(*env).value,
        abi == SyscallAbi::HxnuNativeBootstrap ==> r.abi_version_result == HXNU_NATIVE_ABI_VERSION,
        r.machine_len <= 16,
        abi != SyscallAbi::HxnuNativeBootstrap && scratch_mapped(old(mem)@) ==> r.machine_bytes@ == machine_prefix(
            uname_machine_field(),
        ) && r.machine_len == machine_prefix_len(uname_machine_field()),
{
    let mut clock_gettime_result: i64 = 0;
    let mut clock_seconds: i64 = 0;
    let mut clock_nanoseconds: i64 = 0;
    let mut uptime_result: i64 = 0;
    let mut abi_version_result: i64 = 0;
    let mut uname_result: i64 = 0;
    let mut machine_bytes = [0u8; 16];
    let mut machine_len: usize = 0;
    if abi == SyscallAbi::LinuxBootstrap {
        let ts = at(mem, OFF_TIMESPEC);
        clock_gettime_result = call(
            st, mem, env, abi, LINUX_SYS_CLOCK_GETTIME, [LINUX_CLOCK_MONOTONIC as u64, ts, 0, 0, 0, 0],
        );
        clock_seconds = peek_u64(mem, OFF_TIMESPEC) as i64;
        clock_nanoseconds = peek_u64(mem, OFF_TIMESPEC + 8) as i64;
    } else {
        uptime_result = probe_uptime(st, mem, env, abi);
    }
    if abi == SyscallAbi::HxnuNativeBootstrap {
        abi_version_result = probe_abi_version(st, mem, env);
    } else {
        let (u, bytes, len) = uname_machine(st, mem, env, abi);
        uname_result = u;
        machine_bytes = bytes;
        machine_len = len;
    }
    let (exit_group_captured, exit_group_status) = probe_exit(st, mem, env, abi, status);
    ClosingPhase {
        clock_gettime_result,
        clock_seconds,
        clock_nanoseconds,
        uptime_result,
        abi_version_result,
        uname_result,
        exit_group_captured,
        exit_group_status,
        machine_bytes,
        machine_len,
    }
}
/// The results of the Linux personality smoke run.
#[derive(Copy, Clone)]
pub struct LinuxBootstrapProbe {
    pub write_result: i64,
    pub openat_result: i64,
    pub mmap_result: i64,
    pub mprotect_result: i64,
    pub munmap_result: i64,
    pub brk_result: i64,
    pub brk_set_result: i64,
    pub brk_restore_result: i64,
    pub nanosleep_result: i64,
    pub gettimeofday_result: i64,
    pub gettimeofday_seconds: i64,
    pub gettimeofday_microseconds: i64,
    pub getrandom_result: i64,
    pub getrandom_sample: u64,
    pub rt_sigaction_result: i64,
    pub rt_sigprocmask_result: i64,
    pub rt_sigmask_snapshot: u64,
    pub rt_sigold_handler: u64,
    pub pread64_result: i64,
    pub pwrite64_result: i64,
    pub readv_result: i64,
    pub writev_result: i64,
    pub wait4_result: i64,
    pub setpgid_result: i64,
    pub getpgid_result: i64,
    pub setsid_result: i64,
    pub getsid_result: i64,
    pub getrlimit_result: i64,
    pub setrlimit_result: i64,
    pub prlimit64_result: i64,
    pub prctl_set_name_result: i64,
    pub prctl_get_name_result: i64,
    pub prctl_set_dumpable_result: i64,
    pub prctl_get_dumpable_result: i64,
    pub set_robust_list_result: i64,
    pub get_robust_list_result: i64,
    pub rseq_register_result: i64,
    pub rseq_unregister_result: i64,
    pub ioctl_result: i64,
    pub access_result: i64,
    pub newfstatat_result: i64,
    pub faccessat_result: i64,
    pub faccessat2_result: i64,
    pub readlinkat_result: i64,
    pub dup_result: i64,
    pub dup2_result: i64,
    pub dup3_result: i64,
    pub fcntl_getfd_result: i64,
    pub fcntl_getfl_result: i64,
    pub getcwd_result: i64,
    pub chdir_result: i64,
    pub fchdir_result: i64,
    pub read_result: i64,
    pub fstat_result: i64,
    pub getdents64_result: i64,
    pub lseek_result: i64,
    pub close_result: i64,
    pub getpid_result: i64,
    pub getppid_result: i64,
    pub gettid_result: i64,
    pub umask_result: i64,
    pub umask_restore_result: i64,
    pub getuid_result: i64,
    pub getgid_result: i64,
    pub geteuid_result: i64,
    pub getegid_result: i64,
    pub set_tid_address_result: i64,
    pub clear_tid_snapshot: i64,
    pub sched_yield_result: i64,
    pub clock_gettime_result: i64,
    pub clock_seconds: i64,
    pub clock_nanoseconds: i64,
    pub uname_result: i64,
    pub exit_group_captured: bool,
    pub exit_group_status: i32,
    pub machine_bytes: [u8; 16],
    pub machine_len: usize,
}

/// The results of the Ghost personality smoke run.
#[derive(Copy, Clone)]
pub struct GhostBootstrapProbe {
    pub write_result: i64,
    pub open_result: i64,
    pub mmap_result: i64,
    pub mprotect_result: i64,
    pub munmap_result: i64,
    pub brk_result: i64,
    pub brk_set_result: i64,
    pub brk_restore_result: i64,
    pub nanosleep_result: i64,
    pub gettimeofday_result: i64,
    pub gettimeofday_seconds: i64,
    pub gettimeofday_microseconds: i64,
    pub getrandom_result: i64,
    pub getrandom_sample: u64,
    pub rt_sigaction_result: i64,
    pub rt_sigprocmask_result: i64,
    pub rt_sigmask_snapshot: u64,
    pub rt_sigold_handler: u64,
    pub pread64_result: i64,
    pub pwrite64_result: i64,
    pub readv_result: i64,
    pub writev_result: i64,
    pub wait4_result: i64,
    pub setpgid_result: i64,
    pub getpgid_result: i64,
    pub setsid_result: i64,
    pub getsid_result: i64,
    pub getrlimit_result: i64,
    pub setrlimit_result: i64,
    pub prlimit64_result: i64,
    pub prctl_set_name_result: i64,
    pub prctl_get_name_result: i64,
    pub prctl_set_dumpable_result: i64,
    pub prctl_get_dumpable_result: i64,
    pub set_robust_list_result: i64,
    pub get_robust_list_result: i64,
    pub rseq_register_result: i64,
    pub rseq_unregister_result: i64,
    pub ioctl_result: i64,
    pub access_result: i64,
    pub stat_result: i64,
    pub readlink_result: i64,
    pub dup_result: i64,
    pub dup2_result: i64,
    pub dup3_result: i64,
    pub fcntl_getfd_result: i64,
    pub fcntl_getfl_result: i64,
    pub getcwd_result: i64,
    pub chdir_result: i64,
    pub fchdir_result: i64,
    pub read_result: i64,
    pub fstat_result: i64,
    pub getdents_result: i64,
    pub seek_result: i64,
    pub close_result: i64,
    pub getpid_result: i64,
    pub getppid_result: i64,
    pub gettid_result: i64,
    pub umask_result: i64,
    pub umask_restore_result: i64,
    pub getuid_result: i64,
    pub getgid_result: i64,
    pub geteuid_result: i64,
    pub getegid_result: i64,
    pub set_tid_address_result: i64,
    pub clear_tid_snapshot: i64,
    pub yield_result: i64,
    pub uptime_result: i64,
    pub uname_result: i64,
    pub exit_group_captured: bool,
    pub exit_group_status: i32,
    pub machine_bytes: [u8; 16],
    pub machine_len: usize,
}

/// The results of the native personality smoke run.
#[derive(Copy, Clone)]
pub struct HxnuBootstrapProbe {
    pub write_result: i64,
    pub open_result: i64,
    pub mmap_result: i64,
    pub mprotect_result: i64,
    pub munmap_result: i64,
    pub brk_result: i64,
    pub brk_set_result: i64,
    pub brk_restore_result: i64,
    pub nanosleep_result: i64,
    pub gettimeofday_result: i64,
    pub gettimeofday_seconds: i64,
    pub gettimeofday_microseconds: i64,
    pub getrandom_result: i64,
    pub getrandom_sample: u64,
    pub rt_sigaction_result: i64,
    pub rt_sigprocmask_result: i64,
    pub rt_sigmask_snapshot: u64,
    pub rt_sigold_handler: u64,
    pub pread64_result: i64,
    pub pwrite64_result: i64,
    pub readv_result: i64,
    pub writev_result: i64,
    pub wait4_result: i64,
    pub setpgid_result: i64,
    pub getpgid_result: i64,
    pub setsid_result: i64,
    pub getsid_result: i64,
    pub getrlimit_result: i64,
    pub setrlimit_result: i64,
    pub prlimit64_result: i64,
    pub prctl_set_name_result: i64,
    pub prctl_get_name_result: i64,
    pub prctl_set_dumpable_result: i64,
    pub prctl_get_dumpable_result: i64,
    pub set_robust_list_result: i64,
    pub get_robust_list_result: i64,
    pub rseq_register_result: i64,
    pub rseq_unregister_result: i64,
    pub ioctl_result: i64,
    pub access_result: i64,
    pub stat_result: i64,
    pub readlink_result: i64,
    pub dup_result: i64,
    pub dup2_result: i64,
    pub dup3_result: i64,
    pub fcntl_getfd_result: i64,
    pub fcntl_getfl_result: i64,
    pub getcwd_result: i64,
    pub chdir_result: i64,
    pub fchdir_result: i64,
    pub read_result: i64,
    pub fstat_result: i64,
    pub getdents_result: i64,
    pub seek_result: i64,
    pub close_result: i64,
    pub process_self_result: i64,
    pub process_parent_result: i64,
    pub thread_self_result: i64,
    pub umask_result: i64,
    pub umask_restore_result: i64,
    pub getuid_result: i64,
    pub getgid_result: i64,
    pub geteuid_result: i64,
    pub getegid_result: i64,
    pub set_tid_address_result: i64,
    pub clear_tid_snapshot: i64,
    pub sched_yield_result: i64,
    pub uptime_result: i64,
    pub abi_version_result: i64,
    pub exit_group_captured: bool,
    pub exit_group_status: i32,
}

/// The machine name `uname` reported: the first `len` bytes of `bytes` as text.
pub open spec fn spec_machine_text(bytes: Seq<u8>, len: int) -> Seq<char> {
    let b = bytes.take(len);
    if len <= 16 && vstd::utf8::valid_utf8(b) {
        vstd::utf8::decode_utf8(b)
    } else {
        "<invalid>"@
    }
}

/// The machine name `uname` reported, or `<invalid>` when it is not UTF-8.
fn machine_text(bytes: &[u8; 16], len: usize) -> (text: String)
    requires
        len <= 16,
    ensures
        text@ == spec_machine_text(bytes@, len as int),
{
    let mut v: Vec<u8> = Vec::new();
    let mut i: usize = 0;
    while i < len
        invariant
            i <= len,
            len <= 16,
            v@ == bytes@.take(i as int),
        decreases len - i,
    {
        v.push(bytes[i]);
        i = i + 1;
        assert(v@ =~= bytes@.take(i as int));
    }
    if is_valid_utf8(v.as_slice()) {
        string_from_bytes_lossy(v.as_slice())
    } else {
        "<invalid>".to_string()
    }
}

impl LinuxBootstrapProbe {
    /// The machine name `uname` reported.
    pub fn machine_str(&self) -> (text: String)
        ensures
            text@ == spec_machine_text(self.machine_bytes@, self.machine_len as int),
    {
        if self.machine_len <= 16 {
            machine_text(&self.machine_bytes, self.machine_len)
        } else {
            "<invalid>".to_string()
        }
    }
}

impl GhostBootstrapProbe {
    /// The machine name `uname` reported.
    pub fn machine_str(&self) -> (text: String)
        ensures
            text@ == spec_machine_text(self.machine_bytes@, self.machine_len as int),
    {
        if self.machine_len <= 16 {
            machine_text(&self.machine_bytes, self.machine_len)
        } else {
            "<invalid>".to_string()
        }
    }
}

/// Runs the Linux personality smoke sequence against the state and user memory and reports each result.
pub fn run_linux_bootstrap_probe(st: &mut SyscallState, mem: &mut UserMemory, env: &SyscallEnv) -> (p: LinuxBootstrapProbe)
    requires
        env.wf(),
    ensures
        p.getpid_result == spec_identity(*env, 0).value,
        p.getppid_result == spec_identity(*env, 1).value,
        p.gettid_result == spec_identity(*env, 2).value,
        p.getuid_result == 0,
        p.getgid_result == 0,
        p.geteuid_result == 0,
        p.getegid_result == 0,
        p.prctl_set_dumpable_result == 0,
        p.prctl_get_dumpable_result == 1,
        p.set_robust_list_result == 0,
        p.wait4_result == (if env.process.process_id > i64::MAX as u64 { -ERANGE } else { 0 }),
        p.sched_yield_result == 0,
        p.mmap_result < 0 ==> p.mprotect_result == -EINVAL && p.munmap_result == -EINVAL,
        p.openat_result < 0 ==> {
            &&& p.read_result == -EBADF
            &&& p.fstat_result == -EBADF
            &&& p.pread64_result == -EBADF
            &&& p.readv_result == -EBADF
            &&& p.pwrite64_result == -EBADF
            &&& p.fcntl_getfd_result == -EBADF
            &&& p.fcntl_getfl_result == -EBADF
            &&& p.dup_result == -EBADF
            &&& p.dup2_result == -EBADF
            &&& p.dup3_result == -EBADF
            &&& p.lseek_result == -EBADF
            &&& p.close_result == -EBADF
        },
        p.exit_group_captured,
        p.exit_group_status == 17,
        scratch_mapped(old(mem)@) ==> p.nanosleep_result == 0,
        p.brk_result == crate::syscall::calls::ok_u64(crate::syscall::memory::brk_of(old(st)@, env.process.process_id)).value,
        crate::syscall::table::lookup(old(st)@.brk, env.process.process_id, 0) is None ==> p.brk_result == DEFAULT_PROCESS_BRK,
        probe_ready(old(st)@, old(mem)@, env.process.process_id) && version_is_file(*env) && p.openat_result >= 0 ==> {
            &&& p.openat_result == old(st)@.next_fd
            &&& p.read_result == read_len(version_text(*env), 64)
            &&& p.pread64_result == read_len(version_text(*env), 32)
            &&& p.pwrite64_result == -crate::syscall::process::EROFS
        },
        brk_moves_and_returns(p.brk_result, p.brk_set_result, p.brk_restore_result),
        p.umask_restore_result == 0o077,
        scratch_mapped(old(mem)@) ==> p.machine_bytes@ == machine_prefix(uname_machine_field()) && p.machine_len
            == machine_prefix_len(uname_machine_field()),
        write_area_mapped(old(mem)@, SyscallAbi::LinuxBootstrap) ==> p.write_result == expected_write_result(SyscallAbi::LinuxBootstrap),
{
    let abi = SyscallAbi::LinuxBootstrap;
    stage_scratch(mem, abi);
    let io = probe_io(st, mem, env, abi);
    let process = probe_process(st, mem, env, abi);
    let paths = probe_paths(st, mem, env, abi);
    let file = probe_file(st, mem, env, abi, io.open_result);
    let dir = probe_directory(st, mem, env, abi);
    let ids = probe_identity(st, mem, env, abi);
    let closing = probe_closing(st, mem, env, abi, 17);
    LinuxBootstrapProbe {
        write_result: io.write_result,
        openat_result: io.open_result,
        mmap_result: io.mmap_result,
        mprotect_result: io.mprotect_result,
        munmap_result: io.munmap_result,
        brk_result: io.brk_result,
        brk_set_result: io.brk_set_result,
        brk_restore_result: io.brk_restore_result,
        nanosleep_result: io.nanosleep_result,
        gettimeofday_result: io.gettimeofday_result,
        gettimeofday_seconds: io.gettimeofday_seconds,
        gettimeofday_microseconds: io.gettimeofday_microseconds,
        getrandom_result: io.getrandom_result,
        getrandom_sample: io.getrandom_sample,
        rt_sigaction_result: process.rt_sigaction_result,
        rt_sigprocmask_result: process.rt_sigprocmask_result,
        rt_sigmask_snapshot: process.rt_sigmask_snapshot,
        rt_sigold_handler: process.rt_sigold_handler,
        pread64_result: file.pread64_result,
        pwrite64_result: file.pwrite64_result,
        readv_result: file.readv_result,
        writev_result: paths.writev_result,
        wait4_result: process.wait4_result,
        setpgid_result: process.setpgid_result,
        getpgid_result: process.getpgid_result,
        setsid_result: process.setsid_result,
        getsid_result: process.getsid_result,
        getrlimit_result: process.getrlimit_result,
        setrlimit_result: process.setrlimit_result,
        prlimit64_result: process.prlimit64_result,
        prctl_set_name_result: process.prctl_set_name_result,
        prctl_get_name_result: process.prctl_get_name_result,
        prctl_set_dumpable_result: process.prctl_set_dumpable_result,
        prctl_get_dumpable_result: process.prctl_get_dumpable_result,
        set_robust_list_result: process.set_robust_list_result,
        get_robust_list_result: process.get_robust_list_result,
        rseq_register_result: process.rseq_register_result,
        rseq_unregister_result: process.rseq_unregister_result,
        ioctl_result: paths.ioctl_result,
        access_result: paths.access_result,
        newfstatat_result: paths.stat_result,
        faccessat_result: paths.faccessat_result,
        faccessat2_result: paths.faccessat2_result,
        readlinkat_result: paths.readlink_result,
        dup_result: file.dup_result,
        dup2_result: file.dup2_result,
        dup3_result: file.dup3_result,
        fcntl_getfd_result: file.fcntl_getfd_result,
        fcntl_getfl_result: file.fcntl_getfl_result,
        getcwd_result: paths.getcwd_result,
        chdir_result: paths.chdir_result,
        fchdir_result: dir.0,
        read_result: file.read_result,
        fstat_result: file.fstat_result,
        getdents64_result: dir.1,
        lseek_result: file.seek_result,
        close_result: file.close_result,
        getpid_result: ids.process_self_result,
        getppid_result: ids.process_parent_result,
        gettid_result: ids.thread_self_result,
        umask_result: ids.umask_result,
        umask_restore_result: ids.umask_restore_result,
        getuid_result: ids.getuid_result,
        getgid_result: ids.getgid_result,
        geteuid_result: ids.geteuid_result,
        getegid_result: ids.getegid_result,
        set_tid_address_result: ids.set_tid_address_result,
        clear_tid_snapshot: ids.clear_tid_snapshot,
        sched_yield_result: ids.sched_yield_result,
        clock_gettime_result: closing.clock_gettime_result,
        clock_seconds: closing.clock_seconds,
        clock_nanoseconds: closing.clock_nanoseconds,
        uname_result: closing.uname_result,
        exit_group_captured: closing.exit_group_captured,
        exit_group_status: closing.exit_group_status,
        machine_bytes: closing.machine_bytes,
        machine_len: closing.machine_len,
    }
}

/// Runs the Ghost personality smoke sequence against the state and user memory and reports each result.
pub fn run_ghost_bootstrap_probe(st: &mut SyscallState, mem: &mut UserMemory, env: &SyscallEnv) -> (p: GhostBootstrapProbe)
    requires
        env.wf(),
    ensures
        p.getpid_result == spec_identity(*env, 0).value,
        p.getppid_result == spec_identity(*env, 1).value,
        p.gettid_result == spec_identity(*env, 2).value,
        p.getuid_result == 0,
        p.getgid_result == 0,
        p.geteuid_result == 0,
        p.getegid_result == 0,
        p.prctl_set_dumpable_result == 0,
        p.prctl_get_dumpable_result == 1,
        p.set_robust_list_result == 0,
        p.wait4_result == (if env.process.process_id > i64::MAX as u64 { -ERANGE } else { 0 }),
        p.yield_result == 0,
        p.mmap_result < 0 ==> p.mprotect_result == -EINVAL && p.munmap_result == -EINVAL,
        p.open_result < 0 ==> {
            &&& p.read_result == -EBADF
            &&& p.fstat_result == -EBADF
            &&& p.pread64_result == -EBADF
            &&& p.readv_result == -EBADF
            &&& p.pwrite64_result == -EBADF
            &&& p.fcntl_getfd_result == -EBADF
            &&& p.fcntl_getfl_result == -EBADF
            &&& p.dup_result == -EBADF
            &&& p.dup2_result == -EBADF
            &&& p.dup3_result == -EBADF
            &&& p.seek_result == -EBADF
            &&& p.close_result == -EBADF
        },
        p.uptime_result == spec_uptime(*env).value,
        p.exit_group_captured,
        p.exit_group_status == 19,
        scratch_mapped(old(mem)@) ==> p.nanosleep_result == 0,
        p.brk_result == crate::syscall::calls::ok_u64(crate::syscall::memory::brk_of(old(st)@, env.process.process_id)).value,
        crate::syscall::table::lookup(old(st)@.brk, env.process.process_id, 0) is None ==> p.brk_result == DEFAULT_PROCESS_BRK,
        probe_ready(old(st)@, old(mem)@, env.process.process_id) && version_is_file(*env) && p.open_result >= 0 ==> {
            &&& p.open_result == old(st)@.next_fd
            &&& p.read_result == read_len(version_text(*env), 64)
            &&& p.pread64_result == read_len(version_text(*env), 32)
            &&& p.pwrite64_result == -crate::syscall::process::EROFS
        },
        brk_moves_and_returns(p.brk_result, p.brk_set_result, p.brk_restore_result),
        p.umask_restore_result == 0o077,
        scratch_mapped(old(mem)@) ==> p.machine_bytes@ == machine_prefix(uname_machine_field()) && p.machine_len
            == machine_prefix_len(uname_machine_field()),
        write_area_mapped(old(mem)@, SyscallAbi::GhostBootstrap) ==> p.write_result == expected_write_result(SyscallAbi::GhostBootstrap),
{
    let abi = SyscallAbi::GhostBootstrap;
    stage_scratch(mem, abi);
    let io = probe_io(st, mem, env, abi);
    let process = probe_process(st, mem, env, abi);
    let paths = probe_paths(st, mem, env, abi);
    let file = probe_file(st, mem, env, abi, io.open_result);
    let dir = probe_directory(st, mem, env, abi);
    let ids = probe_identity(st, mem, env, abi);
    let closing = probe_closing(st, mem, env, abi, 19);
    GhostBootstrapProbe {
        write_result: io.write_result,
        open_result: io.open_result,
        mmap_result: io.mmap_result,
        mprotect_result: io.mprotect_result,
        munmap_result: io.munmap_result,
        brk_result: io.brk_result,
        brk_set_result: io.brk_set_result,
        brk_restore_result: io.brk_restore_result,
        nanosleep_result: io.nanosleep_result,
        gettimeofday_result: io.gettimeofday_result,
        gettimeofday_seconds: io.gettimeofday_seconds,
        gettimeofday_microseconds: io.gettimeofday_microseconds,
        getrandom_result: io.getrandom_result,
        getrandom_sample: io.getrandom_sample,
        rt_sigaction_result: process.rt_sigaction_result,
        rt_sigprocmask_result: process.rt_sigprocmask_result,
        rt_sigmask_snapshot: process.rt_sigmask_snapshot,
        rt_sigold_handler: process.rt_sigold_handler,
        pread64_result: file.pread64_result,
        pwrite64_result: file.pwrite64_result,
        readv_result: file.readv_result,
        writev_result: paths.writev_result,
        wait4_result: process.wait4_result,
        setpgid_result: process.setpgid_result,
        getpgid_result: process.getpgid_result,
        setsid_result: process.setsid_result,
        getsid_result: process.getsid_result,
        getrlimit_result: process.getrlimit_result,
        setrlimit_result: process.setrlimit_result,
        prlimit64_result: process.prlimit64_result,
        prctl_set_name_result: process.prctl_set_name_result,
        prctl_get_name_result: process.prctl_get_name_result,
        prctl_set_dumpable_result: process.prctl_set_dumpable_result,
        prctl_get_dumpable_result: process.prctl_get_dumpable_result,
        set_robust_list_result: process.set_robust_list_result,
        get_robust_list_result: process.get_robust_list_result,
        rseq_register_result: process.rseq_register_result,
        rseq_unregister_result: process.rseq_unregister_result,
        ioctl_result: paths.ioctl_result,
        access_result: paths.access_result,
        stat_result: paths.stat_result,
        readlink_result: paths.readlink_result,
        dup_result: file.dup_result,
        dup2_result: file.dup2_result,
        dup3_result: file.dup3_result,
        fcntl_getfd_result: file.fcntl_getfd_result,
        fcntl_getfl_result: file.fcntl_getfl_result,
        getcwd_result: paths.getcwd_result,
        chdir_result: paths.chdir_result,
        fchdir_result: dir.0,
        read_result: file.read_result,
        fstat_result: file.fstat_result,
        getdents_result: dir.1,
        seek_result: file.seek_result,
        close_result: file.close_result,
        getpid_result: ids.process_self_result,
        getppid_result: ids.process_parent_result,
        gettid_result: ids.thread_self_result,
        umask_result: ids.umask_result,
        umask_restore_result: ids.umask_restore_result,
        getuid_result: ids.getuid_result,
        getgid_result: ids.getgid_result,
        geteuid_result: ids.geteuid_result,
        getegid_result: ids.getegid_result,
        set_tid_address_result: ids.set_tid_address_result,
        clear_tid_snapshot: ids.clear_tid_snapshot,
        yield_result: ids.sched_yield_result,
        uptime_result: closing.uptime_result,
        uname_result: closing.uname_result,
        exit_group_captured: closing.exit_group_captured,
        exit_group_status: closing.exit_group_status,
        machine_bytes: closing.machine_bytes,
        machine_len: closing.machine_len,
    }
}

/// Runs the native personality smoke sequence against the state and user memory and reports each result.
pub fn run_hxnu_bootstrap_probe(st: &mut SyscallState, mem: &mut UserMemory, env: &SyscallEnv) -> (p: HxnuBootstrapProbe)
    requires
        env.wf(),
    ensures
        p.process_self_result == spec_identity(*env, 0).value,
        p.process_parent_result == spec_identity(*env, 1).value,
        p.thread_self_result == spec_identity(*env, 2).value,
        p.getuid_result == 0,
        p.getgid_result == 0,
        p.geteuid_result == 0,
        p.getegid_result == 0,
        p.prctl_set_dumpable_result == 0,
        p.prctl_get_dumpable_result == 1,
        p.set_robust_list_result == 0,
        p.wait4_result == (if env.process.process_id > i64::MAX as u64 { -ERANGE } else { 0 }),
        p.sched_yield_result == 0,
        p.mmap_result < 0 ==> p.mprotect_result == -EINVAL && p.munmap_result == -EINVAL,
        p.open_result < 0 ==> {
            &&& p.read_result == -EBADF
            &&& p.fstat_result == -EBADF
            &&& p.pread64_result == -EBADF
            &&& p.readv_result == -EBADF
            &&& p.pwrite64_result == -EBADF
            &&& p.fcntl_getfd_result == -EBADF
            &&& p.fcntl_getfl_result == -EBADF
            &&& p.dup_result == -EBADF
            &&& p.dup2_result == -EBADF
            &&& p.dup3_result == -EBADF
            &&& p.seek_result == -EBADF
            &&& p.close_result == -EBADF
        },
        p.uptime_result == spec_uptime(*env).value,
        p.abi_version_result == HXNU_NATIVE_ABI_VERSION,
        p.exit_group_captured,
        p.exit_group_status == 23,
        scratch_mapped(old(mem)@) ==> p.nanosleep_result == 0,
        p.brk_result == crate::syscall::calls::ok_u64(crate::syscall::memory::brk_of(old(st)@, env.process.process_id)).value,
        crate::syscall::table::lookup(old(st)@.brk, env.process.process_id, 0) is None ==> p.brk_result == DEFAULT_PROCESS_BRK,
        probe_ready(old(st)@, old(mem)@, env.process.process_id) && version_is_file(*env) && p.open_result >= 0 ==> {
            &&& p.open_result == old(st)@.next_fd
            &&& p.read_result == read_len(version_text(*env), 64)
            &&& p.pread64_result == read_len(version_text(*env), 32)
            &&& p.pwrite64_result == -crate::syscall::process::EROFS
        },
        brk_moves_and_returns(p.brk_result, p.brk_set_result, p.brk_restore_result),
        p.umask_restore_result == 0o077,
        write_area_mapped(old(mem)@, SyscallAbi::HxnuNativeBootstrap) ==> p.write_result == expected_write_result(SyscallAbi::HxnuNativeBootstrap),
{
    let abi = SyscallAbi::HxnuNativeBootstrap;
    stage_scratch(mem, abi);
    let io = probe_io(st, mem, env, abi);
    let process = probe_process(st, mem, env, abi);
    let paths = probe_paths(st, mem, env, abi);
    let file = probe_file(st, mem, env, abi, io.open_result);
    let dir = probe_directory(st, mem, env, abi);
    let ids = probe_identity(st, mem, env, abi);
    let closing = probe_closing(st, mem, env, abi, 23);
    HxnuBootstrapProbe {
        write_result: io.write_result,
        open_result: io.open_result,
        mmap_result: io.mmap_result,
        mprotect_result: io.mprotect_result,
        munmap_result: io.munmap_result,
        brk_result: io.brk_result,
        brk_set_result: io.brk_set_result,
        brk_restore_result: io.brk_restore_result,
        nanosleep_result: io.nanosleep_result,
        gettimeofday_result: io.gettimeofday_result,
        gettimeofday_seconds: io.gettimeofday_seconds,
        gettimeofday_microseconds: io.gettimeofday_microseconds,
        getrandom_result: io.getrandom_result,
        getrandom_sample: io.getrandom_sample,
        rt_sigaction_result: process.rt_sigaction_result,
        rt_sigprocmask_result: process.rt_sigprocmask_result,
        rt_sigmask_snapshot: process.rt_sigmask_snapshot,
        rt_sigold_handler: process.rt_sigold_handler,
        pread64_result: file.pread64_result,
        pwrite64_result: file.pwrite64_result,
        readv_result: file.readv_result,
        writev_result: paths.writev_result,
        wait4_result: process.wait4_result,
        setpgid_result: process.setpgid_result,
        getpgid_result: process.getpgid_result,
        setsid_result: process.setsid_result,
        getsid_result: process.getsid_result,
        getrlimit_result: process.getrlimit_result,
        setrlimit_result: process.setrlimit_result,
        prlimit64_result: process.prlimit64_result,
        prctl_set_name_result: process.prctl_set_name_result,
        prctl_get_name_result: process.prctl_get_name_result,
        prctl_set_dumpable_result: process.prctl_set_dumpable_result,
        prctl_get_dumpable_result: process.prctl_get_dumpable_result,
        set_robust_list_result: process.set_robust_list_result,
        get_robust_list_result: process.get_robust_list_result,
        rseq_register_result: process.rseq_register_result,
        rseq_unregister_result: process.rseq_unregister_result,
        ioctl_result: paths.ioctl_result,
        access_result: paths.access_result,
        stat_result: paths.stat_result,
        readlink_result: paths.readlink_result,
        dup_result: file.dup_result,
        dup2_result: file.dup2_result,
        dup3_result: file.dup3_result,
        fcntl_getfd_result: file.fcntl_getfd_result,
        fcntl_getfl_result: file.fcntl_getfl_result,
        getcwd_result: paths.getcwd_result,
        chdir_result: paths.chdir_result,
        fchdir_result: dir.0,
        read_result: file.read_result,
        fstat_result: file.fstat_result,
        getdents_result: dir.1,
        seek_result: file.seek_result,
        close_result: file.close_result,
        process_self_result: ids.process_self_result,
        process_parent_result: ids.process_parent_result,
        thread_self_result: ids.thread_self_result,
        umask_result: ids.umask_result,
        umask_restore_result: ids.umask_restore_result,
        getuid_result: ids.getuid_result,
        getgid_result: ids.getgid_result,
        geteuid_result: ids.geteuid_result,
        getegid_result: ids.getegid_result,
        set_tid_address_result: ids.set_tid_address_result,
        clear_tid_snapshot: ids.clear_tid_snapshot,
        sched_yield_result: ids.sched_yield_result,
        uptime_result: closing.uptime_result,
        abi_version_result: closing.abi_version_result,
        exit_group_captured: closing.exit_group_captured,
        exit_group_status: closing.exit_group_status,
    }
}

} // verus!
