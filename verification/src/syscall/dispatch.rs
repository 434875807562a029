use vstd::prelude::*;

use crate::syscall::calls::{
    identity, spec_getgroup, spec_getrlimit, spec_identity, spec_prlimit64, spec_setpgid, spec_setrlimit, spec_setsid,
    spec_umask, spec_wait4, sys_getgroup, sys_getrlimit, sys_prlimit64, sys_setpgid, sys_setrlimit, sys_setsid,
    sys_umask, sys_wait4,
};
use crate::syscall::clock::{
    ghost_uts, linux_uts, spec_clock_gettime, spec_getrandom, spec_gettimeofday, spec_nanosleep, spec_uname,
    spec_uptime, sys_clock_gettime, sys_getrandom, sys_gettimeofday, sys_nanosleep, sys_uname,
};
use crate::syscall::calls::outcome_u64;
use crate::syscall::ipc::{
    spec_arch_prctl, spec_futex, spec_pipe2, spec_poll, spec_ppoll, sys_arch_prctl, sys_futex, sys_pipe2, sys_poll, sys_ppoll,
};
use crate::syscall::console::{spec_pwrite64, spec_write_fd, spec_write_text, spec_writev, sys_pwrite64, sys_write, sys_writev, write_text};
use crate::syscall::dirs::{spec_getdents64, spec_lseek, sys_getdents64, sys_lseek};
use crate::syscall::fdcalls::{
    spec_close, spec_dup, spec_dup2, spec_dup3, spec_fcntl, spec_fstat, spec_ioctl, sys_close, sys_dup, sys_dup2,
    sys_dup3, sys_fcntl, sys_fstat, sys_ioctl,
};
use crate::syscall::files::AT_FDCWD;
use crate::syscall::memory::{spec_brk, spec_mmap, spec_mprotect, spec_munmap, sys_brk, sys_mmap, sys_mprotect, sys_munmap};
use crate::syscall::paths::{
    spec_access_at, spec_chdir, spec_fchdir, spec_getcwd, spec_open_at, spec_readlink_at, spec_stat_at, sys_access_at,
    sys_chdir, sys_fchdir, sys_getcwd, sys_open_at, sys_readlink_at, sys_stat_at,
};
use crate::syscall::process::{fail, is_step, ok, stay, Step, SyscallOutcome, ENOSYS};
use crate::syscall::reads::{spec_pread64, spec_read, spec_readv, sys_pread64, sys_read, sys_readv};
use crate::syscall::signals::{spec_rt_sigaction, spec_rt_sigprocmask, sys_rt_sigaction, sys_rt_sigprocmask};
use crate::syscall::state::{StateView, SyscallEnv, SyscallState};
use crate::syscall::task::{
    spec_exit_group, spec_get_robust_list, spec_prctl, spec_rseq, spec_set_robust_list, spec_set_tid_address,
    sys_exit_group, sys_get_robust_list, sys_prctl, sys_rseq, sys_set_robust_list, sys_set_tid_address,
};
use crate::uaccess::{MemView, UserMemory};

verus! {

// ---------------------------------------------------------------------------
// Personalities.

/// The system call conventions the kernel serves.
#[derive(Copy, Clone, PartialEq, Eq, Structural, Debug)]
pub enum SyscallAbi {
    LinuxBootstrap,
    GhostBootstrap,
    HxnuNativeBootstrap,
}

impl SyscallAbi {
    pub fn as_str(self) -> (text: &'static str)
        ensures
            text@ == spec_abi_name(self),
    {
        match self {
            Self::LinuxBootstrap => "linux-x86_64-bootstrap",
            Self::GhostBootstrap => "ghost-bootstrap",
            Self::HxnuNativeBootstrap => "hxnu-native-bootstrap",
        }
    }
}

/// The name each convention is reported with.
pub open spec fn spec_abi_name(abi: SyscallAbi) -> Seq<char> {
    match abi {
        SyscallAbi::LinuxBootstrap => "linux-x86_64-bootstrap"@,
        SyscallAbi::GhostBootstrap => "ghost-bootstrap"@,
        SyscallAbi::HxnuNativeBootstrap => "hxnu-native-bootstrap"@,
    }
}

pub const LINUX_SYS_READ: u64 = 0;
pub const LINUX_SYS_WRITE: u64 = 1;
pub const LINUX_SYS_CLOSE: u64 = 3;
pub const LINUX_SYS_FSTAT: u64 = 5;
pub const LINUX_SYS_LSEEK: u64 = 8;
pub const LINUX_SYS_MMAP: u64 = 9;
pub const LINUX_SYS_MPROTECT: u64 = 10;
pub const LINUX_SYS_MUNMAP: u64 = 11;
pub const LINUX_SYS_BRK: u64 = 12;
pub const LINUX_SYS_RT_SIGACTION: u64 = 13;
pub const LINUX_SYS_RT_SIGPROCMASK: u64 = 14;
pub const LINUX_SYS_IOCTL: u64 = 16;
pub const LINUX_SYS_PREAD64: u64 = 17;
pub const LINUX_SYS_PWRITE64: u64 = 18;
pub const LINUX_SYS_READV: u64 = 19;
pub const LINUX_SYS_WRITEV: u64 = 20;
pub const LINUX_SYS_ACCESS: u64 = 21;
pub const LINUX_SYS_SCHED_YIELD: u64 = 24;
pub const LINUX_SYS_DUP: u64 = 32;
pub const LINUX_SYS_DUP2: u64 = 33;
pub const LINUX_SYS_NANOSLEEP: u64 = 35;
pub const LINUX_SYS_GETPID: u64 = 39;
pub const LINUX_SYS_POLL: u64 = 7;
pub const LINUX_SYS_PIPE: u64 = 22;
pub const LINUX_SYS_ARCH_PRCTL: u64 = 158;
pub const LINUX_SYS_FUTEX: u64 = 202;
pub const LINUX_SYS_PPOLL: u64 = 271;
pub const LINUX_SYS_PIPE2: u64 = 293;
pub const LINUX_SYS_EXIT: u64 = 60;
pub const LINUX_SYS_WAIT4: u64 = 61;
pub const LINUX_SYS_UNAME: u64 = 63;
pub const LINUX_SYS_FCNTL: u64 = 72;
pub const LINUX_SYS_GETCWD: u64 = 79;
pub const LINUX_SYS_CHDIR: u64 = 80;
pub const LINUX_SYS_FCHDIR: u64 = 81;
pub const LINUX_SYS_UMASK: u64 = 95;
pub const LINUX_SYS_GETTIMEOFDAY: u64 = 96;
pub const LINUX_SYS_GETRLIMIT: u64 = 97;
pub const LINUX_SYS_GETUID: u64 = 102;
pub const LINUX_SYS_GETGID: u64 = 104;
pub const LINUX_SYS_GETEUID: u64 = 107;
pub const LINUX_SYS_GETEGID: u64 = 108;
pub const LINUX_SYS_SETPGID: u64 = 109;
pub const LINUX_SYS_GETPPID: u64 = 110;
pub const LINUX_SYS_SETSID: u64 = 112;
pub const LINUX_SYS_GETPGID: u64 = 121;
pub const LINUX_SYS_GETSID: u64 = 124;
pub const LINUX_SYS_PRCTL: u64 = 157;
pub const LINUX_SYS_SETRLIMIT: u64 = 160;
pub const LINUX_SYS_GETTID: u64 = 186;
pub const LINUX_SYS_GETDENTS64: u64 = 217;
pub const LINUX_SYS_SET_TID_ADDRESS: u64 = 218;
pub const LINUX_SYS_CLOCK_GETTIME: u64 = 228;
pub const LINUX_SYS_EXIT_GROUP: u64 = 231;
pub const LINUX_SYS_OPENAT: u64 = 257;
pub const LINUX_SYS_NEWFSTATAT: u64 = 262;
pub const LINUX_SYS_READLINKAT: u64 = 267;
pub const LINUX_SYS_FACCESSAT: u64 = 269;
pub const LINUX_SYS_SET_ROBUST_LIST: u64 = 273;
pub const LINUX_SYS_GET_ROBUST_LIST: u64 = 274;
pub const LINUX_SYS_DUP3: u64 = 292;
pub const LINUX_SYS_PRLIMIT64: u64 = 302;
pub const LINUX_SYS_GETRANDOM: u64 = 318;
pub const LINUX_SYS_RSEQ: u64 = 334;
pub const LINUX_SYS_FACCESSAT2: u64 = 439;

/// A call the personalities share, independent of its number.
#[derive(Copy, Clone, PartialEq, Eq, Structural, Debug)]
pub enum Call {
    Read,
    Write,
    LogWrite,
    Close,
    Fstat,
    Lseek,
    Mmap,
    Mprotect,
    Munmap,
    Brk,
    RtSigaction,
    RtSigprocmask,
    Ioctl,
    Pread64,
    Pwrite64,
    Readv,
    Writev,
    Access,
    Yield,
    Dup,
    Dup2,
    Dup3,
    Nanosleep,
    ProcessId,
    ParentId,
    ThreadId,
    Wait4,
    LinuxUname,
    GhostUname,
    Fcntl,
    Getcwd,
    Chdir,
    Fchdir,
    Umask,
    Gettimeofday,
    Getrlimit,
    Setrlimit,
    Prlimit64,
    UserId,
    GroupId,
    Setpgid,
    Getpgid,
    Setsid,
    Getsid,
    Prctl,
    Getdents,
    SetTidAddress,
    ClockGettime,
    ExitGroup,
    OpenAt,
    Open,
    NewFstatAt,
    Stat,
    ReadlinkAt,
    Readlink,
    AccessAt,
    SetRobustList,
    GetRobustList,
    Getrandom,
    Rseq,
    Uptime,
    AbiVersion,
    Poll,
    Ppoll,
    Pipe,
    Pipe2,
    Futex,
    ArchPrctl,
    Unknown,
}

/// The call a Linux system call number names.
pub open spec fn spec_linux_call(n: u64) -> Call {
    if n == LINUX_SYS_READ { Call::Read }
    else if n == LINUX_SYS_WRITE { Call::Write }
    else if n == LINUX_SYS_CLOSE { Call::Close }
    else if n == LINUX_SYS_DUP { Call::Dup }
    else if n == LINUX_SYS_FSTAT { Call::Fstat }
    else if n == LINUX_SYS_MMAP { Call::Mmap }
    else if n == LINUX_SYS_MPROTECT { Call::Mprotect }
    else if n == LINUX_SYS_MUNMAP { Call::Munmap }
    else if n == LINUX_SYS_BRK { Call::Brk }
    else if n == LINUX_SYS_RT_SIGACTION { Call::RtSigaction }
    else if n == LINUX_SYS_RT_SIGPROCMASK { Call::RtSigprocmask }
    else if n == LINUX_SYS_PREAD64 { Call::Pread64 }
    else if n == LINUX_SYS_PWRITE64 { Call::Pwrite64 }
    else if n == LINUX_SYS_READV { Call::Readv }
    else if n == LINUX_SYS_WRITEV { Call::Writev }
    else if n == LINUX_SYS_NANOSLEEP { Call::Nanosleep }
    else if n == LINUX_SYS_GETDENTS64 { Call::Getdents }
    else if n == LINUX_SYS_IOCTL { Call::Ioctl }
    else if n == LINUX_SYS_LSEEK { Call::Lseek }
    else if n == LINUX_SYS_ACCESS { Call::Access }
    else if n == LINUX_SYS_FCNTL { Call::Fcntl }
    else if n == LINUX_SYS_DUP2 { Call::Dup2 }
    else if n == LINUX_SYS_GETCWD { Call::Getcwd }
    else if n == LINUX_SYS_CHDIR { Call::Chdir }
    else if n == LINUX_SYS_FCHDIR { Call::Fchdir }
    else if n == LINUX_SYS_OPENAT { Call::OpenAt }
    else if n == LINUX_SYS_NEWFSTATAT { Call::NewFstatAt }
    else if n == LINUX_SYS_READLINKAT { Call::ReadlinkAt }
    else if n == LINUX_SYS_FACCESSAT || n == LINUX_SYS_FACCESSAT2 { Call::AccessAt }
    else if n == LINUX_SYS_DUP3 { Call::Dup3 }
    else if n == LINUX_SYS_SCHED_YIELD { Call::Yield }
    else if n == LINUX_SYS_GETPID { Call::ProcessId }
    else if n == LINUX_SYS_WAIT4 { Call::Wait4 }
    else if n == LINUX_SYS_GETPPID { Call::ParentId }
    else if n == LINUX_SYS_GETTID { Call::ThreadId }
    else if n == LINUX_SYS_SETPGID { Call::Setpgid }
    else if n == LINUX_SYS_GETPGID { Call::Getpgid }
    else if n == LINUX_SYS_SETSID { Call::Setsid }
    else if n == LINUX_SYS_GETSID { Call::Getsid }
    else if n == LINUX_SYS_GETRLIMIT { Call::Getrlimit }
    else if n == LINUX_SYS_SETRLIMIT { Call::Setrlimit }
    else if n == LINUX_SYS_PRLIMIT64 { Call::Prlimit64 }
    else if n == LINUX_SYS_PRCTL { Call::Prctl }
    else if n == LINUX_SYS_SET_ROBUST_LIST { Call::SetRobustList }
    else if n == LINUX_SYS_GET_ROBUST_LIST { Call::GetRobustList }
    else if n == LINUX_SYS_RSEQ { Call::Rseq }
    else if n == LINUX_SYS_UMASK { Call::Umask }
    else if n == LINUX_SYS_GETUID || n == LINUX_SYS_GETEUID { Call::UserId }
    else if n == LINUX_SYS_GETGID || n == LINUX_SYS_GETEGID { Call::GroupId }
    else if n == LINUX_SYS_SET_TID_ADDRESS { Call::SetTidAddress }
    else if n == LINUX_SYS_GETTIMEOFDAY { Call::Gettimeofday }
    else if n == LINUX_SYS_CLOCK_GETTIME { Call::ClockGettime }
    else if n == LINUX_SYS_GETRANDOM { Call::Getrandom }
    else if n == LINUX_SYS_UNAME { Call::LinuxUname }
    else if n == LINUX_SYS_EXIT || n == LINUX_SYS_EXIT_GROUP { Call::ExitGroup }
    else if n == LINUX_SYS_POLL { Call::Poll }
    else if n == LINUX_SYS_PPOLL { Call::Ppoll }
    else if n == LINUX_SYS_PIPE { Call::Pipe }
    else if n == LINUX_SYS_PIPE2 { Call::Pipe2 }
    else if n == LINUX_SYS_FUTEX { Call::Futex }
    else if n == LINUX_SYS_ARCH_PRCTL { Call::ArchPrctl }
    else { Call::Unknown }
}

pub fn linux_call(n: u64) -> (c: Call)
    ensures
        c == spec_linux_call(n),
{
    if n == LINUX_SYS_READ { Call::Read }
    else if n == LINUX_SYS_WRITE { Call::Write }
    else if n == LINUX_SYS_CLOSE { Call::Close }
    else if n == LINUX_SYS_DUP { Call::Dup }
    else if n == LINUX_SYS_FSTAT { Call::Fstat }
    else if n == LINUX_SYS_MMAP { Call::Mmap }
    else if n == LINUX_SYS_MPROTECT { Call::Mprotect }
    else if n == LINUX_SYS_MUNMAP { Call::Munmap }
    else if n == LINUX_SYS_BRK { Call::Brk }
    else if n == LINUX_SYS_RT_SIGACTION { Call::RtSigaction }
    else if n == LINUX_SYS_RT_SIGPROCMASK { Call::RtSigprocmask }
    else if n == LINUX_SYS_PREAD64 { Call::Pread64 }
    else if n == LINUX_SYS_PWRITE64 { Call::Pwrite64 }
    else if n == LINUX_SYS_READV { Call::Readv }
    else if n == LINUX_SYS_WRITEV { Call::Writev }
    else if n == LINUX_SYS_NANOSLEEP { Call::Nanosleep }
    else if n == LINUX_SYS_GETDENTS64 { Call::Getdents }
    else if n == LINUX_SYS_IOCTL { Call::Ioctl }
    else if n == LINUX_SYS_LSEEK { Call::Lseek }
    else if n == LINUX_SYS_ACCESS { Call::Access }
    else if n == LINUX_SYS_FCNTL { Call::Fcntl }
    else if n == LINUX_SYS_DUP2 { Call::Dup2 }
    else if n == LINUX_SYS_GETCWD { Call::Getcwd }
    else if n == LINUX_SYS_CHDIR { Call::Chdir }
    else if n == LINUX_SYS_FCHDIR { Call::Fchdir }
    else if n == LINUX_SYS_OPENAT { Call::OpenAt }
    else if n == LINUX_SYS_NEWFSTATAT { Call::NewFstatAt }
    else if n == LINUX_SYS_READLINKAT { Call::ReadlinkAt }
    else if n == LINUX_SYS_FACCESSAT || n == LINUX_SYS_FACCESSAT2 { Call::AccessAt }
    else if n == LINUX_SYS_DUP3 { Call::Dup3 }
    else if n == LINUX_SYS_SCHED_YIELD { Call::Yield }
    else if n == LINUX_SYS_GETPID { Call::ProcessId }
    else if n == LINUX_SYS_WAIT4 { Call::Wait4 }
    else if n == LINUX_SYS_GETPPID { Call::ParentId }
    else if n == LINUX_SYS_GETTID { Call::ThreadId }
    else if n == LINUX_SYS_SETPGID { Call::Setpgid }
    else if n == LINUX_SYS_GETPGID { Call::Getpgid }
    else if n == LINUX_SYS_SETSID { Call::Setsid }
    else if n == LINUX_SYS_GETSID { Call::Getsid }
    else if n == LINUX_SYS_GETRLIMIT { Call::Getrlimit }
    else if n == LINUX_SYS_SETRLIMIT { Call::Setrlimit }
    else if n == LINUX_SYS_PRLIMIT64 { Call::Prlimit64 }
    else if n == LINUX_SYS_PRCTL { Call::Prctl }
    else if n == LINUX_SYS_SET_ROBUST_LIST { Call::SetRobustList }
    else if n == LINUX_SYS_GET_ROBUST_LIST { Call::GetRobustList }
    else if n == LINUX_SYS_RSEQ { Call::Rseq }
    else if n == LINUX_SYS_UMASK { Call::Umask }
    else if n == LINUX_SYS_GETUID || n == LINUX_SYS_GETEUID { Call::UserId }
    else if n == LINUX_SYS_GETGID || n == LINUX_SYS_GETEGID { Call::GroupId }
    else if n == LINUX_SYS_SET_TID_ADDRESS { Call::SetTidAddress }
    else if n == LINUX_SYS_GETTIMEOFDAY { Call::Gettimeofday }
    else if n == LINUX_SYS_CLOCK_GETTIME { Call::ClockGettime }
    else if n == LINUX_SYS_GETRANDOM { Call::Getrandom }
    else if n == LINUX_SYS_UNAME { Call::LinuxUname }
    else if n == LINUX_SYS_EXIT || n == LINUX_SYS_EXIT_GROUP { Call::ExitGroup }
    else if n == LINUX_SYS_POLL { Call::Poll }
    else if n == LINUX_SYS_PPOLL { Call::Ppoll }
    else if n == LINUX_SYS_PIPE { Call::Pipe }
    else if n == LINUX_SYS_PIPE2 { Call::Pipe2 }
    else if n == LINUX_SYS_FUTEX { Call::Futex }
    else if n == LINUX_SYS_ARCH_PRCTL { Call::ArchPrctl }
    else { Call::Unknown }
}

pub const GHOST_SYS_WRITE: u64 = 1;
pub const GHOST_SYS_YIELD: u64 = 2;
pub const GHOST_SYS_GETPID: u64 = 3;
pub const GHOST_SYS_GETTID: u64 = 4;
pub const GHOST_SYS_UPTIME_NSEC: u64 = 5;
pub const GHOST_SYS_UNAME: u64 = 6;
pub const GHOST_SYS_EXIT_GROUP: u64 = 7;
pub const GHOST_SYS_OPEN: u64 = 8;
pub const GHOST_SYS_READ: u64 = 9;
pub const GHOST_SYS_CLOSE: u64 = 10;
pub const GHOST_SYS_SEEK: u64 = 11;
pub const GHOST_SYS_GETPPID: u64 = 12;
pub const GHOST_SYS_FSTAT: u64 = 13;
pub const GHOST_SYS_STAT: u64 = 14;
pub const GHOST_SYS_GETDENTS: u64 = 15;
pub const GHOST_SYS_READLINK: u64 = 16;
pub const GHOST_SYS_ACCESS: u64 = 17;
pub const GHOST_SYS_IOCTL: u64 = 18;
pub const GHOST_SYS_DUP: u64 = 19;
pub const GHOST_SYS_DUP3: u64 = 20;
pub const GHOST_SYS_FCNTL: u64 = 21;
pub const GHOST_SYS_GETCWD: u64 = 22;
pub const GHOST_SYS_CHDIR: u64 = 23;
pub const GHOST_SYS_FCHDIR: u64 = 24;
pub const GHOST_SYS_DUP2: u64 = 25;
pub const GHOST_SYS_UMASK: u64 = 26;
pub const GHOST_SYS_GETUID: u64 = 27;
pub const GHOST_SYS_GETGID: u64 = 28;
pub const GHOST_SYS_GETEUID: u64 = 29;
pub const GHOST_SYS_GETEGID: u64 = 30;
pub const GHOST_SYS_SET_TID_ADDRESS: u64 = 31;
pub const GHOST_SYS_MMAP: u64 = 32;
pub const GHOST_SYS_MPROTECT: u64 = 33;
pub const GHOST_SYS_MUNMAP: u64 = 34;
pub const GHOST_SYS_BRK: u64 = 35;
pub const GHOST_SYS_NANOSLEEP: u64 = 36;
pub const GHOST_SYS_GETTIMEOFDAY: u64 = 37;
pub const GHOST_SYS_GETRANDOM: u64 = 38;
pub const GHOST_SYS_RT_SIGACTION: u64 = 39;
pub const GHOST_SYS_RT_SIGPROCMASK: u64 = 40;
pub const GHOST_SYS_PREAD64: u64 = 41;
pub const GHOST_SYS_PWRITE64: u64 = 42;
pub const GHOST_SYS_READV: u64 = 43;
pub const GHOST_SYS_WRITEV: u64 = 44;
pub const GHOST_SYS_WAIT4: u64 = 45;
pub const GHOST_SYS_SETPGID: u64 = 46;
pub const GHOST_SYS_GETPGID: u64 = 47;
pub const GHOST_SYS_SETSID: u64 = 48;
pub const GHOST_SYS_GETSID: u64 = 49;
pub const GHOST_SYS_GETRLIMIT: u64 = 50;
pub const GHOST_SYS_SETRLIMIT: u64 = 51;
pub const GHOST_SYS_PRLIMIT64: u64 = 52;
pub const GHOST_SYS_PRCTL: u64 = 53;
pub const GHOST_SYS_SET_ROBUST_LIST: u64 = 54;
pub const GHOST_SYS_GET_ROBUST_LIST: u64 = 55;
pub const GHOST_SYS_RSEQ: u64 = 56;

pub const HXNU_SYS_LOG_WRITE: u64 = 0x484e_0001;
pub const HXNU_SYS_THREAD_SELF: u64 = 0x484e_0002;
pub const HXNU_SYS_PROCESS_SELF: u64 = 0x484e_0003;
pub const HXNU_SYS_UPTIME_NSEC: u64 = 0x484e_0004;
pub const HXNU_SYS_SCHED_YIELD: u64 = 0x484e_0005;
pub const HXNU_SYS_ABI_VERSION: u64 = 0x484e_0006;
pub const HXNU_SYS_OPEN: u64 = 0x484e_0007;
pub const HXNU_SYS_READ: u64 = 0x484e_0008;
pub const HXNU_SYS_CLOSE: u64 = 0x484e_0009;
pub const HXNU_SYS_SEEK: u64 = 0x484e_000a;
pub const HXNU_SYS_PROCESS_PARENT: u64 = 0x484e_000b;
pub const HXNU_SYS_FSTAT: u64 = 0x484e_000c;
pub const HXNU_SYS_STAT: u64 = 0x484e_000d;
pub const HXNU_SYS_GETDENTS: u64 = 0x484e_000e;
pub const HXNU_SYS_READLINK: u64 = 0x484e_000f;
pub const HXNU_SYS_ACCESS: u64 = 0x484e_0010;
pub const HXNU_SYS_IOCTL: u64 = 0x484e_0011;
pub const HXNU_SYS_DUP: u64 = 0x484e_0012;
pub const HXNU_SYS_DUP3: u64 = 0x484e_0013;
pub const HXNU_SYS_FCNTL: u64 = 0x484e_0014;
pub const HXNU_SYS_GETCWD: u64 = 0x484e_0015;
pub const HXNU_SYS_CHDIR: u64 = 0x484e_0016;
pub const HXNU_SYS_FCHDIR: u64 = 0x484e_0017;
pub const HXNU_SYS_DUP2: u64 = 0x484e_0018;
pub const HXNU_SYS_UMASK: u64 = 0x484e_0019;
pub const HXNU_SYS_GETUID: u64 = 0x484e_001a;
pub const HXNU_SYS_GETGID: u64 = 0x484e_001b;
pub const HXNU_SYS_GETEUID: u64 = 0x484e_001c;
pub const HXNU_SYS_GETEGID: u64 = 0x484e_001d;
pub const HXNU_SYS_SET_TID_ADDRESS: u64 = 0x484e_001e;
pub const HXNU_SYS_MMAP: u64 = 0x484e_001f;
pub const HXNU_SYS_MPROTECT: u64 = 0x484e_0020;
pub const HXNU_SYS_MUNMAP: u64 = 0x484e_0021;
pub const HXNU_SYS_BRK: u64 = 0x484e_0022;
pub const HXNU_SYS_NANOSLEEP: u64 = 0x484e_0023;
pub const HXNU_SYS_GETTIMEOFDAY: u64 = 0x484e_0024;
pub const HXNU_SYS_GETRANDOM: u64 = 0x484e_0025;
pub const HXNU_SYS_RT_SIGACTION: u64 = 0x484e_0026;
pub const HXNU_SYS_RT_SIGPROCMASK: u64 = 0x484e_0027;
pub const HXNU_SYS_PREAD64: u64 = 0x484e_0028;
pub const HXNU_SYS_PWRITE64: u64 = 0x484e_0029;
pub const HXNU_SYS_READV: u64 = 0x484e_002a;
pub const HXNU_SYS_WRITEV: u64 = 0x484e_002b;
pub const HXNU_SYS_WAIT4: u64 = 0x484e_002c;
pub const HXNU_SYS_SETPGID: u64 = 0x484e_002d;
pub const HXNU_SYS_GETPGID: u64 = 0x484e_002e;
pub const HXNU_SYS_SETSID: u64 = 0x484e_002f;
pub const HXNU_SYS_GETSID: u64 = 0x484e_0030;
pub const HXNU_SYS_GETRLIMIT: u64 = 0x484e_0031;
pub const HXNU_SYS_SETRLIMIT: u64 = 0x484e_0032;
pub const HXNU_SYS_PRLIMIT64: u64 = 0x484e_0033;
pub const HXNU_SYS_PRCTL: u64 = 0x484e_0034;
pub const HXNU_SYS_SET_ROBUST_LIST: u64 = 0x484e_0035;
pub const HXNU_SYS_GET_ROBUST_LIST: u64 = 0x484e_0036;
pub const HXNU_SYS_RSEQ: u64 = 0x484e_0037;
pub const HXNU_SYS_EXIT_GROUP: u64 = 0x484e_00ff;

/// The version the native personality reports.
pub const HXNU_NATIVE_ABI_VERSION: i64 = 0x0001_0000;

/// The call a Ghost system call number names.
pub open spec fn spec_ghost_call(n: u64) -> Call {
    if n == GHOST_SYS_WRITE { Call::Write }
    else if n == GHOST_SYS_OPEN { Call::Open }
    else if n == GHOST_SYS_READ { Call::Read }
    else if n == GHOST_SYS_CLOSE { Call::Close }
    else if n == GHOST_SYS_MMAP { Call::Mmap }
    else if n == GHOST_SYS_MPROTECT { Call::Mprotect }
    else if n == GHOST_SYS_MUNMAP { Call::Munmap }
    else if n == GHOST_SYS_BRK { Call::Brk }
    else if n == GHOST_SYS_RT_SIGACTION { Call::RtSigaction }
    else if n == GHOST_SYS_RT_SIGPROCMASK { Call::RtSigprocmask }
    else if n == GHOST_SYS_PREAD64 { Call::Pread64 }
    else if n == GHOST_SYS_PWRITE64 { Call::Pwrite64 }
    else if n == GHOST_SYS_READV { Call::Readv }
    else if n == GHOST_SYS_WRITEV { Call::Writev }
    else if n == GHOST_SYS_NANOSLEEP { Call::Nanosleep }
    else if n == GHOST_SYS_DUP { Call::Dup }
    else if n == GHOST_SYS_DUP2 { Call::Dup2 }
    else if n == GHOST_SYS_DUP3 { Call::Dup3 }
    else if n == GHOST_SYS_FCNTL { Call::Fcntl }
    else if n == GHOST_SYS_GETCWD { Call::Getcwd }
    else if n == GHOST_SYS_CHDIR { Call::Chdir }
    else if n == GHOST_SYS_FCHDIR { Call::Fchdir }
    else if n == GHOST_SYS_FSTAT { Call::Fstat }
    else if n == GHOST_SYS_GETDENTS { Call::Getdents }
    else if n == GHOST_SYS_IOCTL { Call::Ioctl }
    else if n == GHOST_SYS_STAT { Call::Stat }
    else if n == GHOST_SYS_READLINK { Call::Readlink }
    else if n == GHOST_SYS_ACCESS { Call::Access }
    else if n == GHOST_SYS_SEEK { Call::Lseek }
    else if n == GHOST_SYS_YIELD { Call::Yield }
    else if n == GHOST_SYS_GETPID { Call::ProcessId }
    else if n == GHOST_SYS_WAIT4 { Call::Wait4 }
    else if n == GHOST_SYS_GETPPID { Call::ParentId }
    else if n == GHOST_SYS_GETTID { Call::ThreadId }
    else if n == GHOST_SYS_SETPGID { Call::Setpgid }
    else if n == GHOST_SYS_GETPGID { Call::Getpgid }
    else if n == GHOST_SYS_SETSID { Call::Setsid }
    else if n == GHOST_SYS_GETSID { Call::Getsid }
    else if n == GHOST_SYS_GETRLIMIT { Call::Getrlimit }
    else if n == GHOST_SYS_SETRLIMIT { Call::Setrlimit }
    else if n == GHOST_SYS_PRLIMIT64 { Call::Prlimit64 }
    else if n == GHOST_SYS_PRCTL { Call::Prctl }
    else if n == GHOST_SYS_SET_ROBUST_LIST { Call::SetRobustList }
    else if n == GHOST_SYS_GET_ROBUST_LIST { Call::GetRobustList }
    else if n == GHOST_SYS_RSEQ { Call::Rseq }
    else if n == GHOST_SYS_UMASK { Call::Umask }
    else if n == GHOST_SYS_GETUID || n == GHOST_SYS_GETEUID { Call::UserId }
    else if n == GHOST_SYS_GETGID || n == GHOST_SYS_GETEGID { Call::GroupId }
    else if n == GHOST_SYS_SET_TID_ADDRESS { Call::SetTidAddress }
    else if n == GHOST_SYS_GETTIMEOFDAY { Call::Gettimeofday }
    else if n == GHOST_SYS_GETRANDOM { Call::Getrandom }
    else if n == GHOST_SYS_UPTIME_NSEC { Call::Uptime }
    else if n == GHOST_SYS_UNAME { Call::GhostUname }
    else if n == GHOST_SYS_EXIT_GROUP { Call::ExitGroup }
    else { Call::Unknown }
}

pub fn ghost_call(n: u64) -> (c: Call)
    ensures
        c == spec_ghost_call(n),
{
    if n == GHOST_SYS_WRITE { Call::Write }
    else if n == GHOST_SYS_OPEN { Call::Open }
    else if n == GHOST_SYS_READ { Call::Read }
    else if n == GHOST_SYS_CLOSE { Call::Close }
    else if n == GHOST_SYS_MMAP { Call::Mmap }
    else if n == GHOST_SYS_MPROTECT { Call::Mprotect }
    else if n == GHOST_SYS_MUNMAP { Call::Munmap }
    else if n == GHOST_SYS_BRK { Call::Brk }
    else if n == GHOST_SYS_RT_SIGACTION { Call::RtSigaction }
    else if n == GHOST_SYS_RT_SIGPROCMASK { Call::RtSigprocmask }
    else if n == GHOST_SYS_PREAD64 { Call::Pread64 }
    else if n == GHOST_SYS_PWRITE64 { Call::Pwrite64 }
    else if n == GHOST_SYS_READV { Call::Readv }
    else if n == GHOST_SYS_WRITEV { Call::Writev }
    else if n == GHOST_SYS_NANOSLEEP { Call::Nanosleep }
    else if n == GHOST_SYS_DUP { Call::Dup }
    else if n == GHOST_SYS_DUP2 { Call::Dup2 }
    else if n == GHOST_SYS_DUP3 { Call::Dup3 }
    else if n == GHOST_SYS_FCNTL { Call::Fcntl }
    else if n == GHOST_SYS_GETCWD { Call::Getcwd }
    else if n == GHOST_SYS_CHDIR { Call::Chdir }
    else if n == GHOST_SYS_FCHDIR { Call::Fchdir }
    else if n == GHOST_SYS_FSTAT { Call::Fstat }
    else if n == GHOST_SYS_GETDENTS { Call::Getdents }
    else if n == GHOST_SYS_IOCTL { Call::Ioctl }
    else if n == GHOST_SYS_STAT { Call::Stat }
    else if n == GHOST_SYS_READLINK { Call::Readlink }
    else if n == GHOST_SYS_ACCESS { Call::Access }
    else if n == GHOST_SYS_SEEK { Call::Lseek }
    else if n == GHOST_SYS_YIELD { Call::Yield }
    else if n == GHOST_SYS_GETPID { Call::ProcessId }
    else if n == GHOST_SYS_WAIT4 { Call::Wait4 }
    else if n == GHOST_SYS_GETPPID { Call::ParentId }
    else if n == GHOST_SYS_GETTID { Call::ThreadId }
    else if n == GHOST_SYS_SETPGID { Call::Setpgid }
    else if n == GHOST_SYS_GETPGID { Call::Getpgid }
    else if n == GHOST_SYS_SETSID { Call::Setsid }
    else if n == GHOST_SYS_GETSID { Call::Getsid }
    else if n == GHOST_SYS_GETRLIMIT { Call::Getrlimit }
    else if n == GHOST_SYS_SETRLIMIT { Call::Setrlimit }
    else if n == GHOST_SYS_PRLIMIT64 { Call::Prlimit64 }
    else if n == GHOST_SYS_PRCTL { Call::Prctl }
    else if n == GHOST_SYS_SET_ROBUST_LIST { Call::SetRobustList }
    else if n == GHOST_SYS_GET_ROBUST_LIST { Call::GetRobustList }
    else if n == GHOST_SYS_RSEQ { Call::Rseq }
    else if n == GHOST_SYS_UMASK { Call::Umask }
    else if n == GHOST_SYS_GETUID || n == GHOST_SYS_GETEUID { Call::UserId }
    else if n == GHOST_SYS_GETGID || n == GHOST_SYS_GETEGID { Call::GroupId }
    else if n == GHOST_SYS_SET_TID_ADDRESS { Call::SetTidAddress }
    else if n == GHOST_SYS_GETTIMEOFDAY { Call::Gettimeofday }
    else if n == GHOST_SYS_GETRANDOM { Call::Getrandom }
    else if n == GHOST_SYS_UPTIME_NSEC { Call::Uptime }
    else if n == GHOST_SYS_UNAME { Call::GhostUname }
    else if n == GHOST_SYS_EXIT_GROUP { Call::ExitGroup }
    else { Call::Unknown }
}

/// The call a native system call number names.
pub open spec fn spec_hxnu_call(n: u64) -> Call {
    if n == HXNU_SYS_LOG_WRITE { Call::LogWrite }
    else if n == HXNU_SYS_OPEN { Call::Open }
    else if n == HXNU_SYS_READ { Call::Read }
    else if n == HXNU_SYS_CLOSE { Call::Close }
    else if n == HXNU_SYS_MMAP { Call::Mmap }
    else if n == HXNU_SYS_MPROTECT { Call::Mprotect }
    else if n == HXNU_SYS_MUNMAP { Call::Munmap }
    else if n == HXNU_SYS_BRK { Call::Brk }
    else if n == HXNU_SYS_RT_SIGACTION { Call::RtSigaction }
    else if n == HXNU_SYS_RT_SIGPROCMASK { Call::RtSigprocmask }
    else if n == HXNU_SYS_PREAD64 { Call::Pread64 }
    else if n == HXNU_SYS_PWRITE64 { Call::Pwrite64 }
    else if n == HXNU_SYS_READV { Call::Readv }
    else if n == HXNU_SYS_WRITEV { Call::Writev }
    else if n == HXNU_SYS_NANOSLEEP { Call::Nanosleep }
    else if n == HXNU_SYS_DUP { Call::Dup }
    else if n == HXNU_SYS_DUP2 { Call::Dup2 }
    else if n == HXNU_SYS_DUP3 { Call::Dup3 }
    else if n == HXNU_SYS_FCNTL { Call::Fcntl }
    else if n == HXNU_SYS_GETCWD { Call::Getcwd }
    else if n == HXNU_SYS_CHDIR { Call::Chdir }
    else if n == HXNU_SYS_FCHDIR { Call::Fchdir }
    else if n == HXNU_SYS_FSTAT { Call::Fstat }
    else if n == HXNU_SYS_GETDENTS { Call::Getdents }
    else if n == HXNU_SYS_IOCTL { Call::Ioctl }
    else if n == HXNU_SYS_STAT { Call::Stat }
    else if n == HXNU_SYS_READLINK { Call::Readlink }
    else if n == HXNU_SYS_ACCESS { Call::Access }
    else if n == HXNU_SYS_SEEK { Call::Lseek }
    else if n == HXNU_SYS_THREAD_SELF { Call::ThreadId }
    else if n == HXNU_SYS_PROCESS_SELF { Call::ProcessId }
    else if n == HXNU_SYS_WAIT4 { Call::Wait4 }
    else if n == HXNU_SYS_PROCESS_PARENT { Call::ParentId }
    else if n == HXNU_SYS_SETPGID { Call::Setpgid }
    else if n == HXNU_SYS_GETPGID { Call::Getpgid }
    else if n == HXNU_SYS_SETSID { Call::Setsid }
    else if n == HXNU_SYS_GETSID { Call::Getsid }
    else if n == HXNU_SYS_GETRLIMIT { Call::Getrlimit }
    else if n == HXNU_SYS_SETRLIMIT { Call::Setrlimit }
    else if n == HXNU_SYS_PRLIMIT64 { Call::Prlimit64 }
    else if n == HXNU_SYS_PRCTL { Call::Prctl }
    else if n == HXNU_SYS_SET_ROBUST_LIST { Call::SetRobustList }
    else if n == HXNU_SYS_GET_ROBUST_LIST { Call::GetRobustList }
    else if n == HXNU_SYS_RSEQ { Call::Rseq }
    else if n == HXNU_SYS_UMASK { Call::Umask }
    else if n == HXNU_SYS_GETUID || n == HXNU_SYS_GETEUID { Call::UserId }
    else if n == HXNU_SYS_GETGID || n == HXNU_SYS_GETEGID { Call::GroupId }
    else if n == HXNU_SYS_SET_TID_ADDRESS { Call::SetTidAddress }
    else if n == HXNU_SYS_GETTIMEOFDAY { Call::Gettimeofday }
    else if n == HXNU_SYS_GETRANDOM { Call::Getrandom }
    else if n == HXNU_SYS_UPTIME_NSEC { Call::Uptime }
    else if n == HXNU_SYS_SCHED_YIELD { Call::Yield }
    else if n == HXNU_SYS_ABI_VERSION { Call::AbiVersion }
    else if n == HXNU_SYS_EXIT_GROUP { Call::ExitGroup }
    else { Call::Unknown }
}

pub fn hxnu_call(n: u64) -> (c: Call)
    ensures
        c == spec_hxnu_call(n),
{
    if n == HXNU_SYS_LOG_WRITE { Call::LogWrite }
    else if n == HXNU_SYS_OPEN { Call::Open }
    else if n == HXNU_SYS_READ { Call::Read }
    else if n == HXNU_SYS_CLOSE { Call::Close }
    else if n == HXNU_SYS_MMAP { Call::Mmap }
    else if n == HXNU_SYS_MPROTECT { Call::Mprotect }
    else if n == HXNU_SYS_MUNMAP { Call::Munmap }
    else if n == HXNU_SYS_BRK { Call::Brk }
    else if n == HXNU_SYS_RT_SIGACTION { Call::RtSigaction }
    else if n == HXNU_SYS_RT_SIGPROCMASK { Call::RtSigprocmask }
    else if n == HXNU_SYS_PREAD64 { Call::Pread64 }
    else if n == HXNU_SYS_PWRITE64 { Call::Pwrite64 }
    else if n == HXNU_SYS_READV { Call::Readv }
    else if n == HXNU_SYS_WRITEV { Call::Writev }
    else if n == HXNU_SYS_NANOSLEEP { Call::Nanosleep }
    else if n == HXNU_SYS_DUP { Call::Dup }
    else if n == HXNU_SYS_DUP2 { Call::Dup2 }
    else if n == HXNU_SYS_DUP3 { Call::Dup3 }
    else if n == HXNU_SYS_FCNTL { Call::Fcntl }
    else if n == HXNU_SYS_GETCWD { Call::Getcwd }
    else if n == HXNU_SYS_CHDIR { Call::Chdir }
    else if n == HXNU_SYS_FCHDIR { Call::Fchdir }
    else if n == HXNU_SYS_FSTAT { Call::Fstat }
    else if n == HXNU_SYS_GETDENTS { Call::Getdents }
    else if n == HXNU_SYS_IOCTL { Call::Ioctl }
    else if n == HXNU_SYS_STAT { Call::Stat }
    else if n == HXNU_SYS_READLINK { Call::Readlink }
    else if n == HXNU_SYS_ACCESS { Call::Access }
    else if n == HXNU_SYS_SEEK { Call::Lseek }
    else if n == HXNU_SYS_THREAD_SELF { Call::ThreadId }
    else if n == HXNU_SYS_PROCESS_SELF { Call::ProcessId }
    else if n == HXNU_SYS_WAIT4 { Call::Wait4 }
    else if n == HXNU_SYS_PROCESS_PARENT { Call::ParentId }
    else if n == HXNU_SYS_SETPGID { Call::Setpgid }
    else if n == HXNU_SYS_GETPGID { Call::Getpgid }
    else if n == HXNU_SYS_SETSID { Call::Setsid }
    else if n == HXNU_SYS_GETSID { Call::Getsid }
    else if n == HXNU_SYS_GETRLIMIT { Call::Getrlimit }
    else if n == HXNU_SYS_SETRLIMIT { Call::Setrlimit }
    else if n == HXNU_SYS_PRLIMIT64 { Call::Prlimit64 }
    else if n == HXNU_SYS_PRCTL { Call::Prctl }
    else if n == HXNU_SYS_SET_ROBUST_LIST { Call::SetRobustList }
    else if n == HXNU_SYS_GET_ROBUST_LIST { Call::GetRobustList }
    else if n == HXNU_SYS_RSEQ { Call::Rseq }
    else if n == HXNU_SYS_UMASK { Call::Umask }
    else if n == HXNU_SYS_GETUID || n == HXNU_SYS_GETEUID { Call::UserId }
    else if n == HXNU_SYS_GETGID || n == HXNU_SYS_GETEGID { Call::GroupId }
    else if n == HXNU_SYS_SET_TID_ADDRESS { Call::SetTidAddress }
    else if n == HXNU_SYS_GETTIMEOFDAY { Call::Gettimeofday }
    else if n == HXNU_SYS_GETRANDOM { Call::Getrandom }
    else if n == HXNU_SYS_UPTIME_NSEC { Call::Uptime }
    else if n == HXNU_SYS_SCHED_YIELD { Call::Yield }
    else if n == HXNU_SYS_ABI_VERSION { Call::AbiVersion }
    else if n == HXNU_SYS_EXIT_GROUP { Call::ExitGroup }
    else { Call::Unknown }
}

// ---------------------------------------------------------------------------
// Running a call.

/// What a call does with the state, the user memory and the arguments.
pub open spec fn spec_call(s: StateView, m: MemView, env: SyscallEnv, c: Call, a: Seq<u64>) -> Step {
    match c {
        Call::Read => spec_read(s, m, env, a),
        Call::Write => spec_write_fd(s, m, env, a),
        Call::LogWrite => spec_write_text(s, m, a[0], a[1]),
        Call::Close => spec_close(s, m, env, a),
        Call::Fstat => spec_fstat(s, m, env, a),
        Call::Lseek => spec_lseek(s, m, env, a),
        Call::Mmap => spec_mmap(s, m, env, a),
        Call::Mprotect => spec_mprotect(s, m, env, a),
        Call::Munmap => spec_munmap(s, m, env, a),
        Call::Brk => spec_brk(s, m, env, a),
        Call::RtSigaction => spec_rt_sigaction(s, m, env, a),
        Call::RtSigprocmask => spec_rt_sigprocmask(s, m, env, a),
        Call::Ioctl => spec_ioctl(s, m, env, a),
        Call::Pread64 => spec_pread64(s, m, env, a),
        Call::Pwrite64 => spec_pwrite64(s, m, a),
        Call::Readv => spec_readv(s, m, env, a),
        Call::Writev => spec_writev(s, m, a),
        Call::Access => spec_access_at(s, m, env, AT_FDCWD, a[0], a[1], 0),
        Call::Yield => stay(s, m, ok(0)),
        Call::Dup => spec_dup(s, m, env, a),
        Call::Dup2 => spec_dup2(s, m, env, a),
        Call::Dup3 => spec_dup3(s, m, env, a),
        Call::Nanosleep => spec_nanosleep(s, m, a),
        Call::ProcessId => stay(s, m, spec_identity(env, 0)),
        Call::ParentId => stay(s, m, spec_identity(env, 1)),
        Call::ThreadId => stay(s, m, spec_identity(env, 2)),
        Call::Wait4 => spec_wait4(s, m, env, a),
        Call::LinuxUname => spec_uname(s, m, a, linux_uts()),
        Call::GhostUname => spec_uname(s, m, a, ghost_uts()),
        Call::Fcntl => spec_fcntl(s, m, env, a),
        Call::Getcwd => spec_getcwd(s, m, env, a),
        Call::Chdir => spec_chdir(s, m, env, a),
        Call::Fchdir => spec_fchdir(s, m, env, a),
        Call::Umask => spec_umask(s, m, env, a),
        Call::Gettimeofday => spec_gettimeofday(s, m, env, a),
        Call::Getrlimit => spec_getrlimit(s, m, env, a),
        Call::Setrlimit => spec_setrlimit(s, m, env, a),
        Call::Prlimit64 => spec_prlimit64(s, m, env, a),
        Call::UserId => stay(s, m, ok(0)),
        Call::GroupId => stay(s, m, ok(0)),
        Call::Setpgid => spec_setpgid(s, m, env, a),
        Call::Getpgid => spec_getgroup(s, m, env, a, 0),
        Call::Setsid => spec_setsid(s, m, env),
        Call::Getsid => spec_getgroup(s, m, env, a, 1),
        Call::Prctl => spec_prctl(s, m, env, a),
        Call::Getdents => spec_getdents64(s, m, env, a),
        Call::SetTidAddress => spec_set_tid_address(s, m, env, a),
        Call::ClockGettime => spec_clock_gettime(s, m, env, a),
        Call::ExitGroup => spec_exit_group(s, m, env, a),
        Call::OpenAt => spec_open_at(s, m, env, a[0] as i64, a[1], a[2]),
        Call::Open => spec_open_at(s, m, env, AT_FDCWD, a[0], a[1]),
        Call::NewFstatAt => spec_stat_at(s, m, env, a[0] as i64, a[1], a[2], a[3]),
        Call::Stat => spec_stat_at(s, m, env, AT_FDCWD, a[0], a[1], 0),
        Call::ReadlinkAt => spec_readlink_at(s, m, env, a[0] as i64, a[1], a[2], a[3]),
        Call::Readlink => spec_readlink_at(s, m, env, AT_FDCWD, a[0], a[1], a[2]),
        Call::AccessAt => spec_access_at(s, m, env, a[0] as i64, a[1], a[2], a[3]),
        Call::SetRobustList => spec_set_robust_list(s, m, env, a),
        Call::GetRobustList => spec_get_robust_list(s, m, env, a),
        Call::Getrandom => spec_getrandom(s, m, env, a),
        Call::Rseq => spec_rseq(s, m, env, a),
        Call::Uptime => stay(s, m, spec_uptime(env)),
        Call::AbiVersion => stay(s, m, ok(HXNU_NATIVE_ABI_VERSION)),
        Call::Poll => spec_poll(s, m, env, a[0], a[1]),
        Call::Ppoll => spec_ppoll(s, m, env, a),
        Call::Pipe => spec_pipe2(s, m, env, a[0], 0),
        Call::Pipe2 => spec_pipe2(s, m, env, a[0], a[1]),
        Call::Futex => spec_futex(s, m, a),
        Call::ArchPrctl => spec_arch_prctl(s, m, env, a),
        Call::Unknown => stay(s, m, fail(ENOSYS)),
    }
}

/// Which of the runners below serves a call.
pub open spec fn call_group(c: Call) -> int {
    match c {
        Call::Read => 0,
        Call::Write => 0,
        Call::LogWrite => 0,
        Call::Close => 0,
        Call::Fstat => 0,
        Call::Lseek => 0,
        Call::Ioctl => 0,
        Call::Pread64 => 1,
        Call::Pwrite64 => 1,
        Call::Readv => 1,
        Call::Writev => 1,
        Call::Access => 1,
        Call::Dup => 1,
        Call::Dup2 => 1,
        Call::Dup3 => 2,
        Call::Fcntl => 2,
        Call::Getcwd => 2,
        Call::Chdir => 2,
        Call::Fchdir => 2,
        Call::Getdents => 2,
        Call::OpenAt => 2,
        Call::Open => 3,
        Call::NewFstatAt => 3,
        Call::Stat => 3,
        Call::ReadlinkAt => 3,
        Call::Readlink => 3,
        Call::AccessAt => 3,
        Call::Mmap => 3,
        Call::Mprotect => 4,
        Call::Munmap => 4,
        Call::Brk => 4,
        Call::RtSigaction => 4,
        Call::RtSigprocmask => 4,
        Call::Yield => 4,
        Call::Nanosleep => 4,
        Call::ProcessId => 5,
        Call::ParentId => 5,
        Call::ThreadId => 5,
        Call::Wait4 => 5,
        Call::LinuxUname => 5,
        Call::GhostUname => 5,
        Call::Umask => 5,
        Call::Gettimeofday => 6,
        Call::Getrlimit => 6,
        Call::Setrlimit => 6,
        Call::Prlimit64 => 6,
        Call::UserId => 6,
        Call::GroupId => 6,
        Call::Setpgid => 6,
        Call::Getpgid => 7,
        Call::Setsid => 7,
        Call::Getsid => 7,
        Call::Prctl => 7,
        Call::SetTidAddress => 7,
        Call::ClockGettime => 7,
        Call::ExitGroup => 7,
        Call::SetRobustList => 8,
        Call::GetRobustList => 8,
        Call::Getrandom => 8,
        Call::Rseq => 8,
        Call::Uptime => 8,
        Call::AbiVersion => 8,
        Call::Poll => 9,
        Call::Ppoll => 9,
        Call::Pipe => 9,
        Call::Pipe2 => 9,
        Call::Futex => 9,
        Call::ArchPrctl => 9,
        Call::Unknown => 8,
    }
}

fn run_group_0(st: &mut SyscallState, mem: &mut UserMemory, env: &SyscallEnv, c: Call, args: &[u64; 6]) -> (out: SyscallOutcome)
    requires
        env.wf(),
        call_group(c) == 0,
    ensures
        is_step(out, final(st)@, final(mem)@, spec_call(old(st)@, old(mem)@, *env, c, args@)),
{
    match c {
        Call::Read => sys_read(st, mem, env, args),
        Call::Write => sys_write(st, mem, env, args),
        Call::LogWrite => write_text(st, mem, args[0], args[1]),
        Call::Close => sys_close(st, mem, env, args),
        Call::Fstat => sys_fstat(st, mem, env, args),
        Call::Lseek => sys_lseek(st, mem, env, args),
        Call::Ioctl => sys_ioctl(st, mem, env, args),
        _ => SyscallOutcome::errno(ENOSYS),
    }
}

fn run_group_1(st: &mut SyscallState, mem: &mut UserMemory, env: &SyscallEnv, c: Call, args: &[u64; 6]) -> (out: SyscallOutcome)
    requires
        env.wf(),
        call_group(c) == 1,
    ensures
        is_step(out, final(st)@, final(mem)@, spec_call(old(st)@, old(mem)@, *env, c, args@)),
{
    match c {
        Call::Pread64 => sys_pread64(st, mem, env, args),
        Call::Pwrite64 => sys_pwrite64(st, mem, args),
        Call::Readv => sys_readv(st, mem, env, args),
        Call::Writev => sys_writev(st, mem, args),
        Call::Access => sys_access_at(st, mem, env, AT_FDCWD, args[0], args[1], 0),
        Call::Dup => sys_dup(st, mem, env, args),
        Call::Dup2 => sys_dup2(st, mem, env, args),
        _ => SyscallOutcome::errno(ENOSYS),
    }
}

fn run_group_2(st: &mut SyscallState, mem: &mut UserMemory, env: &SyscallEnv, c: Call, args: &[u64; 6]) -> (out: SyscallOutcome)
    requires
        env.wf(),
        call_group(c) == 2,
    ensures
        is_step(out, final(st)@, final(mem)@, spec_call(old(st)@, old(mem)@, *env, c, args@)),
{
    match c {
        Call::Dup3 => sys_dup3(st, mem, env, args),
        Call::Fcntl => sys_fcntl(st, mem, env, args),
        Call::Getcwd => sys_getcwd(st, mem, env, args),
        Call::Chdir => sys_chdir(st, mem, env, args),
        Call::Fchdir => sys_fchdir(st, mem, env, args),
        Call::Getdents => sys_getdents64(st, mem, env, args),
        Call::OpenAt => sys_open_at(st, mem, env, args[0] as i64, args[1], args[2]),
        _ => SyscallOutcome::errno(ENOSYS),
    }
}

fn run_group_3(st: &mut SyscallState, mem: &mut UserMemory, env: &SyscallEnv, c: Call, args: &[u64; 6]) -> (out: SyscallOutcome)
    requires
        env.wf(),
        call_group(c) == 3,
    ensures
        is_step(out, final(st)@, final(mem)@, spec_call(old(st)@, old(mem)@, *env, c, args@)),
{
    match c {
        Call::Open => sys_open_at(st, mem, env, AT_FDCWD, args[0], args[1]),
        Call::NewFstatAt => sys_stat_at(st, mem, env, args[0] as i64, args[1], args[2], args[3]),
        Call::Stat => sys_stat_at(st, mem, env, AT_FDCWD, args[0], args[1], 0),
        Call::ReadlinkAt => sys_readlink_at(st, mem, env, args[0] as i64, args[1], args[2], args[3]),
        Call::Readlink => sys_readlink_at(st, mem, env, AT_FDCWD, args[0], args[1], args[2]),
        Call::AccessAt => sys_access_at(st, mem, env, args[0] as i64, args[1], args[2], args[3]),
        Call::Mmap => sys_mmap(st, mem, env, args),
        _ => SyscallOutcome::errno(ENOSYS),
    }
}

fn run_group_4(st: &mut SyscallState, mem: &mut UserMemory, env: &SyscallEnv, c: Call, args: &[u64; 6]) -> (out: SyscallOutcome)
    requires
        env.wf(),
        call_group(c) == 4,
    ensures
        is_step(out, final(st)@, final(mem)@, spec_call(old(st)@, old(mem)@, *env, c, args@)),
{
    match c {
        Call::Mprotect => sys_mprotect(st, mem, env, args),
        Call::Munmap => sys_munmap(st, mem, env, args),
        Call::Brk => sys_brk(st, mem, env, args),
        Call::RtSigaction => sys_rt_sigaction(st, mem, env, args),
        Call::RtSigprocmask => sys_rt_sigprocmask(st, mem, env, args),
        Call::Yield => SyscallOutcome::success(0),
        Call::Nanosleep => sys_nanosleep(st, mem, args),
        _ => SyscallOutcome::errno(ENOSYS),
    }
}

fn run_group_5(st: &mut SyscallState, mem: &mut UserMemory, env: &SyscallEnv, c: Call, args: &[u64; 6]) -> (out: SyscallOutcome)
    requires
        env.wf(),
        call_group(c) == 5,
    ensures
        is_step(out, final(st)@, final(mem)@, spec_call(old(st)@, old(mem)@, *env, c, args@)),
{
    match c {
        Call::ProcessId => identity(env, 0),
        Call::ParentId => identity(env, 1),
        Call::ThreadId => identity(env, 2),
        Call::Wait4 => sys_wait4(st, mem, env, args),
        Call::LinuxUname => sys_uname(st, mem, args, false),
        Call::GhostUname => sys_uname(st, mem, args, true),
        Call::Umask => sys_umask(st, mem, env, args),
        _ => SyscallOutcome::errno(ENOSYS),
    }
}

fn run_group_6(st: &mut SyscallState, mem: &mut UserMemory, env: &SyscallEnv, c: Call, args: &[u64; 6]) -> (out: SyscallOutcome)
    requires
        env.wf(),
        call_group(c) == 6,
    ensures
        is_step(out, final(st)@, final(mem)@, spec_call(old(st)@, old(mem)@, *env, c, args@)),
{
    match c {
        Call::Gettimeofday => sys_gettimeofday(st, mem, env, args),
        Call::Getrlimit => sys_getrlimit(st, mem, env, args),
        Call::Setrlimit => sys_setrlimit(st, mem, env, args),
        Call::Prlimit64 => sys_prlimit64(st, mem, env, args),
        Call::UserId => SyscallOutcome::success(0),
        Call::GroupId => SyscallOutcome::success(0),
        Call::Setpgid => sys_setpgid(st, mem, env, args),
        _ => SyscallOutcome::errno(ENOSYS),
    }
}

fn run_group_7(st: &mut SyscallState, mem: &mut UserMemory, env: &SyscallEnv, c: Call, args: &[u64; 6]) -> (out: SyscallOutcome)
    requires
        env.wf(),
        call_group(c) == 7,
    ensures
        is_step(out, final(st)@, final(mem)@, spec_call(old(st)@, old(mem)@, *env, c, args@)),
{
    match c {
        Call::Getpgid => sys_getgroup(st, mem, env, args, 0),
        Call::Setsid => sys_setsid(st, mem, env),
        Call::Getsid => sys_getgroup(st, mem, env, args, 1),
        Call::Prctl => sys_prctl(st, mem, env, args),
        Call::SetTidAddress => sys_set_tid_address(st, mem, env, args),
        Call::ClockGettime => sys_clock_gettime(st, mem, env, args),
        Call::ExitGroup => sys_exit_group(st, mem, env, args),
        _ => SyscallOutcome::errno(ENOSYS),
    }
}

fn run_group_8(st: &mut SyscallState, mem: &mut UserMemory, env: &SyscallEnv, c: Call, args: &[u64; 6]) -> (out: SyscallOutcome)
    requires
        env.wf(),
        call_group(c) == 8,
    ensures
        is_step(out, final(st)@, final(mem)@, spec_call(old(st)@, old(mem)@, *env, c, args@)),
{
    match c {
        Call::SetRobustList => sys_set_robust_list(st, mem, env, args),
        Call::GetRobustList => sys_get_robust_list(st, mem, env, args),
        Call::Getrandom => sys_getrandom(st, mem, env, args),
        Call::Rseq => sys_rseq(st, mem, env, args),
        Call::Uptime => outcome_u64(env.process.uptime_ns),
        Call::AbiVersion => SyscallOutcome::success(HXNU_NATIVE_ABI_VERSION),
        Call::Unknown => SyscallOutcome::errno(ENOSYS),
        _ => SyscallOutcome::errno(ENOSYS),
    }
}

fn run_group_9(st: &mut SyscallState, mem: &mut UserMemory, env: &SyscallEnv, c: Call, args: &[u64; 6]) -> (out: SyscallOutcome)
    requires
        env.wf(),
        call_group(c) == 9,
    ensures
        is_step(out, final(st)@, final(mem)@, spec_call(old(st)@, old(mem)@, *env, c, args@)),
{
    match c {
        Call::Poll => sys_poll(st, mem, env, args[0], args[1]),
        Call::Ppoll => sys_ppoll(st, mem, env, args),
        Call::Pipe => sys_pipe2(st, mem, env, args[0], 0),
        Call::Pipe2 => sys_pipe2(st, mem, env, args[0], args[1]),
        Call::Futex => sys_futex(st, mem, args),
        Call::ArchPrctl => sys_arch_prctl(st, mem, env, args),
        _ => SyscallOutcome::errno(ENOSYS),
    }
}

fn call_group_of(c: Call) -> (g: u8)
    ensures
        g == call_group(c),
{
    match c {
        Call::Read => 0,
        Call::Write => 0,
        Call::LogWrite => 0,
        Call::Close => 0,
        Call::Fstat => 0,
        Call::Lseek => 0,
        Call::Ioctl => 0,
        Call::Pread64 => 1,
        Call::Pwrite64 => 1,
        Call::Readv => 1,
        Call::Writev => 1,
        Call::Access => 1,
        Call::Dup => 1,
        Call::Dup2 => 1,
        Call::Dup3 => 2,
        Call::Fcntl => 2,
        Call::Getcwd => 2,
        Call::Chdir => 2,
        Call::Fchdir => 2,
        Call::Getdents => 2,
        Call::OpenAt => 2,
        Call::Open => 3,
        Call::NewFstatAt => 3,
        Call::Stat => 3,
        Call::ReadlinkAt => 3,
        Call::Readlink => 3,
        Call::AccessAt => 3,
        Call::Mmap => 3,
        Call::Mprotect => 4,
        Call::Munmap => 4,
        Call::Brk => 4,
        Call::RtSigaction => 4,
        Call::RtSigprocmask => 4,
        Call::Yield => 4,
        Call::Nanosleep => 4,
        Call::ProcessId => 5,
        Call::ParentId => 5,
        Call::ThreadId => 5,
        Call::Wait4 => 5,
        Call::LinuxUname => 5,
        Call::GhostUname => 5,
        Call::Umask => 5,
        Call::Gettimeofday => 6,
        Call::Getrlimit => 6,
        Call::Setrlimit => 6,
        Call::Prlimit64 => 6,
        Call::UserId => 6,
        Call::GroupId => 6,
        Call::Setpgid => 6,
        Call::Getpgid => 7,
        Call::Setsid => 7,
        Call::Getsid => 7,
        Call::Prctl => 7,
        Call::SetTidAddress => 7,
        Call::ClockGettime => 7,
        Call::ExitGroup => 7,
        Call::SetRobustList => 8,
        Call::GetRobustList => 8,
        Call::Getrandom => 8,
        Call::Rseq => 8,
        Call::Uptime => 8,
        Call::AbiVersion => 8,
        Call::Poll => 9,
        Call::Ppoll => 9,
        Call::Pipe => 9,
        Call::Pipe2 => 9,
        Call::Futex => 9,
        Call::ArchPrctl => 9,
        Call::Unknown => 8,
    }
}

/// Runs a call against the state and user memory.
pub fn run_call(st: &mut SyscallState, mem: &mut UserMemory, env: &SyscallEnv, c: Call, args: &[u64; 6]) -> (out: SyscallOutcome)
    requires
        env.wf(),
    ensures
        is_step(out, final(st)@, final(mem)@, spec_call(old(st)@, old(mem)@, *env, c, args@)),
{
    let g: u8 = call_group_of(c);
    if g == 0 {
        run_group_0(st, mem, env, c, args)
    } else if g == 1 {
        run_group_1(st, mem, env, c, args)
    } else if g == 2 {
        run_group_2(st, mem, env, c, args)
    } else if g == 3 {
        run_group_3(st, mem, env, c, args)
    } else if g == 4 {
        run_group_4(st, mem, env, c, args)
    } else if g == 5 {
        run_group_5(st, mem, env, c, args)
    } else if g == 6 {
        run_group_6(st, mem, env, c, args)
    } else if g == 7 {
        run_group_7(st, mem, env, c, args)
    } else if g == 8 {
        run_group_8(st, mem, env, c, args)
    } else {
        run_group_9(st, mem, env, c, args)
    }
}

// ---------------------------------------------------------------------------
// Dispatch.

/// The call a number names in a personality.
pub open spec fn spec_abi_call(abi: SyscallAbi, n: u64) -> Call {
    match abi {
        SyscallAbi::LinuxBootstrap => spec_linux_call(n),
        SyscallAbi::GhostBootstrap => spec_ghost_call(n),
        SyscallAbi::HxnuNativeBootstrap => spec_hxnu_call(n),
    }
}

/// Serves Linux system call `number`; unknown numbers fail with `ENOSYS`.
pub fn dispatch_linux_bootstrap(st: &mut SyscallState, mem: &mut UserMemory, env: &SyscallEnv, number: u64, args: [u64; 6]) -> (out: SyscallOutcome)
    requires
        env.wf(),
    ensures
        is_step(out, final(st)@, final(mem)@, spec_call(old(st)@, old(mem)@, *env, spec_linux_call(number), args@)),
{
    run_call(st, mem, env, linux_call(number), &args)
}

/// Serves Ghost system call `number`; unknown numbers fail with `ENOSYS`.
pub fn dispatch_ghost_bootstrap(st: &mut SyscallState, mem: &mut UserMemory, env: &SyscallEnv, number: u64, args: [u64; 6]) -> (out: SyscallOutcome)
    requires
        env.wf(),
    ensures
        is_step(out, final(st)@, final(mem)@, spec_call(old(st)@, old(mem)@, *env, spec_ghost_call(number), args@)),
{
    run_call(st, mem, env, ghost_call(number), &args)
}

/// Serves native system call `number`; unknown numbers fail with `ENOSYS`.
pub fn dispatch_hxnu_bootstrap(st: &mut SyscallState, mem: &mut UserMemory, env: &SyscallEnv, number: u64, args: [u64; 6]) -> (out: SyscallOutcome)
    requires
        env.wf(),
    ensures
        is_step(out, final(st)@, final(mem)@, spec_call(old(st)@, old(mem)@, *env, spec_hxnu_call(number), args@)),
{
    run_call(st, mem, env, hxnu_call(number), &args)
}

/// Serves system call `number` of the personality `abi`.
pub fn dispatch(st: &mut SyscallState, mem: &mut UserMemory, env: &SyscallEnv, abi: SyscallAbi, number: u64, args: [u64; 6]) -> (out: SyscallOutcome)
    requires
        env.wf(),
    ensures
        is_step(out, final(st)@, final(mem)@, spec_call(old(st)@, old(mem)@, *env, spec_abi_call(abi, number), args@)),
{
    match abi {
        SyscallAbi::LinuxBootstrap => dispatch_linux_bootstrap(st, mem, env, number, args),
        SyscallAbi::GhostBootstrap => dispatch_ghost_bootstrap(st, mem, env, number, args),
        SyscallAbi::HxnuNativeBootstrap => dispatch_hxnu_bootstrap(st, mem, env, number, args),
    }
}

} // verus!
