use vstd::prelude::*;

use crate::syscall::dispatch::{spec_call, Call};
use crate::syscall::process::Step;
use crate::syscall::state::{StateView, SyscallEnv};
use crate::uaccess::{lemma_copyout_shape, MemView};

verus! {

/// Calls that may add, drop or change open files or hand out descriptors.
pub open spec fn touches_files(c: Call) -> bool {
    ||| c == Call::Read
    ||| c == Call::Write
    ||| c == Call::Close
    ||| c == Call::Lseek
    ||| c == Call::Readv
    ||| c == Call::Dup
    ||| c == Call::Dup2
    ||| c == Call::Dup3
    ||| c == Call::Fcntl
    ||| c == Call::Getdents
    ||| c == Call::OpenAt
    ||| c == Call::Open
    ||| c == Call::ExitGroup
    ||| c == Call::Pipe
    ||| c == Call::Pipe2
}

/// Calls that may move the break.
pub open spec fn touches_brk(c: Call) -> bool {
    c == Call::Brk || c == Call::ExitGroup
}

/// What a step of call `c` from `s` and `m` keeps: the base of the user memory, and its
/// size, which never shrinks; the open files and the next descriptor unless `c` works on
/// descriptors; the breaks unless `c` sets one.
pub open spec fn call_frame(s: StateView, m: MemView, c: Call, st: Step) -> bool {
    &&& st.mem.base == m.base
    &&& st.mem.bytes.len() >= m.bytes.len()
    &&& !touches_files(c) ==> st.state.files == s.files && st.state.next_fd == s.next_fd
    &&& !touches_brk(c) ==> st.state.brk == s.brk
}

/// `call_frame` over the state and memory a call leaves.
pub open spec fn frame_holds(s: StateView, m: MemView, c: Call, s2: StateView, m2: MemView) -> bool {
    &&& m2.base == m.base
    &&& m2.bytes.len() >= m.bytes.len()
    &&& !touches_files(c) ==> s2.files == s.files && s2.next_fd == s.next_fd
    &&& !touches_brk(c) ==> s2.brk == s.brk
}

proof fn lemma_frame_read(s: StateView, m: MemView, env: SyscallEnv, a: Seq<u64>)
    ensures
        call_frame(s, m, Call::Read, spec_call(s, m, env, Call::Read, a)),
{
    broadcast use lemma_copyout_shape;

}

proof fn lemma_frame_write(s: StateView, m: MemView, env: SyscallEnv, a: Seq<u64>)
    ensures
        call_frame(s, m, Call::Write, spec_call(s, m, env, Call::Write, a)),
{
    broadcast use lemma_copyout_shape;

}

proof fn lemma_frame_log_write(s: StateView, m: MemView, env: SyscallEnv, a: Seq<u64>)
    ensures
        call_frame(s, m, Call::LogWrite, spec_call(s, m, env, Call::LogWrite, a)),
{
    broadcast use lemma_copyout_shape;

}

proof fn lemma_frame_close(s: StateView, m: MemView, env: SyscallEnv, a: Seq<u64>)
    ensures
        call_frame(s, m, Call::Close, spec_call(s, m, env, Call::Close, a)),
{
    broadcast use lemma_copyout_shape;

}

proof fn lemma_frame_fstat(s: StateView, m: MemView, env: SyscallEnv, a: Seq<u64>)
    ensures
        call_frame(s, m, Call::Fstat, spec_call(s, m, env, Call::Fstat, a)),
{
    broadcast use lemma_copyout_shape;

}

proof fn lemma_frame_lseek(s: StateView, m: MemView, env: SyscallEnv, a: Seq<u64>)
    ensures
        call_frame(s, m, Call::Lseek, spec_call(s, m, env, Call::Lseek, a)),
{
    broadcast use lemma_copyout_shape;

}

proof fn lemma_frame_mmap(s: StateView, m: MemView, env: SyscallEnv, a: Seq<u64>)
    ensures
        call_frame(s, m, Call::Mmap, spec_call(s, m, env, Call::Mmap, a)),
{
    broadcast use lemma_copyout_shape;

}

proof fn lemma_frame_mprotect(s: StateView, m: MemView, env: SyscallEnv, a: Seq<u64>)
    ensures
        call_frame(s, m, Call::Mprotect, spec_call(s, m, env, Call::Mprotect, a)),
{
    broadcast use lemma_copyout_shape;

}

proof fn lemma_frame_munmap(s: StateView, m: MemView, env: SyscallEnv, a: Seq<u64>)
    ensures
        call_frame(s, m, Call::Munmap, spec_call(s, m, env, Call::Munmap, a)),
{
    broadcast use lemma_copyout_shape;

}

proof fn lemma_frame_brk(s: StateView, m: MemView, env: SyscallEnv, a: Seq<u64>)
    ensures
        call_frame(s, m, Call::Brk, spec_call(s, m, env, Call::Brk, a)),
{
    broadcast use lemma_copyout_shape;

}

proof fn lemma_frame_rt_sigaction(s: StateView, m: MemView, env: SyscallEnv, a: Seq<u64>)
    ensures
        call_frame(s, m, Call::RtSigaction, spec_call(s, m, env, Call::RtSigaction, a)),
{
    broadcast use lemma_copyout_shape;

}

proof fn lemma_frame_rt_sigprocmask(s: StateView, m: MemView, env: SyscallEnv, a: Seq<u64>)
    ensures
        call_frame(s, m, Call::RtSigprocmask, spec_call(s, m, env, Call::RtSigprocmask, a)),
{
    broadcast use lemma_copyout_shape;

}

proof fn lemma_frame_ioctl(s: StateView, m: MemView, env: SyscallEnv, a: Seq<u64>)
    ensures
        call_frame(s, m, Call::Ioctl, spec_call(s, m, env, Call::Ioctl, a)),
{
    broadcast use lemma_copyout_shape;

}

proof fn lemma_frame_pread64(s: StateView, m: MemView, env: SyscallEnv, a: Seq<u64>)
    ensures
        call_frame(s, m, Call::Pread64, spec_call(s, m, env, Call::Pread64, a)),
{
    broadcast use lemma_copyout_shape;

}

proof fn lemma_frame_pwrite64(s: StateView, m: MemView, env: SyscallEnv, a: Seq<u64>)
    ensures
        call_frame(s, m, Call::Pwrite64, spec_call(s, m, env, Call::Pwrite64, a)),
{
    broadcast use lemma_copyout_shape;

}

proof fn lemma_readv_shape(s: StateView, m: MemView, pid: u64, fd: i32, iov_ptr: u64, count: u64, i: u64, total: u64)
    ensures
        ({
            let r = crate::syscall::reads::readv_from(s, m, pid, fd, iov_ptr, count, i, total);
            r.2.base == m.base && r.2.bytes.len() >= m.bytes.len() && r.1.brk == s.brk
        }),
    decreases count - i,
{
    broadcast use lemma_copyout_shape;

    if i < count && iov_ptr + i * 16 <= u64::MAX {
        if let Ok(rec) = crate::syscall::process::spec_get(m, (iov_ptr + i * 16) as u64, 16) {
            let iov = crate::syscall::state::iovec_from(rec);
            if iov.iov_len == 0 {
                lemma_readv_shape(s, m, pid, fd, iov_ptr, count, (i + 1) as u64, total);
            } else if iov.iov_len <= crate::syscall::clock::MAX_READ_BYTES {
                let r = crate::syscall::reads::spec_read_open(s, m, pid, fd, iov.iov_base, iov.iov_len);
                if let Ok(n) = r.0 {
                    if total + n <= u64::MAX {
                        lemma_readv_shape(r.1, r.2, pid, fd, iov_ptr, count, (i + 1) as u64, (total + n) as u64);
                    }
                }
            }
        }
    }
}

proof fn lemma_frame_readv(s: StateView, m: MemView, env: SyscallEnv, a: Seq<u64>)
    ensures
        call_frame(s, m, Call::Readv, spec_call(s, m, env, Call::Readv, a)),
{
    if let Ok(fd) = crate::syscall::files::spec_parse_fd(a[0]) {
        lemma_readv_shape(s, m, env.process.process_id, fd, a[1], a[2], 0, 0);
    }
}

proof fn lemma_frame_writev(s: StateView, m: MemView, env: SyscallEnv, a: Seq<u64>)
    ensures
        call_frame(s, m, Call::Writev, spec_call(s, m, env, Call::Writev, a)),
{
    broadcast use lemma_copyout_shape;

}

proof fn lemma_frame_access(s: StateView, m: MemView, env: SyscallEnv, a: Seq<u64>)
    ensures
        call_frame(s, m, Call::Access, spec_call(s, m, env, Call::Access, a)),
{
    broadcast use lemma_copyout_shape;

}

proof fn lemma_frame_yield(s: StateView, m: MemView, env: SyscallEnv, a: Seq<u64>)
    ensures
        call_frame(s, m, Call::Yield, spec_call(s, m, env, Call::Yield, a)),
{
    broadcast use lemma_copyout_shape;

}

proof fn lemma_frame_dup(s: StateView, m: MemView, env: SyscallEnv, a: Seq<u64>)
    ensures
        call_frame(s, m, Call::Dup, spec_call(s, m, env, Call::Dup, a)),
{
    broadcast use lemma_copyout_shape;

}

proof fn lemma_frame_dup2(s: StateView, m: MemView, env: SyscallEnv, a: Seq<u64>)
    ensures
        call_frame(s, m, Call::Dup2, spec_call(s, m, env, Call::Dup2, a)),
{
    broadcast use lemma_copyout_shape;

}

proof fn lemma_frame_dup3(s: StateView, m: MemView, env: SyscallEnv, a: Seq<u64>)
    ensures
        call_frame(s, m, Call::Dup3, spec_call(s, m, env, Call::Dup3, a)),
{
    broadcast use lemma_copyout_shape;

}

proof fn lemma_frame_nanosleep(s: StateView, m: MemView, env: SyscallEnv, a: Seq<u64>)
    ensures
        call_frame(s, m, Call::Nanosleep, spec_call(s, m, env, Call::Nanosleep, a)),
{
    broadcast use lemma_copyout_shape;

}

proof fn lemma_frame_process_id(s: StateView, m: MemView, env: SyscallEnv, a: Seq<u64>)
    ensures
        call_frame(s, m, Call::ProcessId, spec_call(s, m, env, Call::ProcessId, a)),
{
    broadcast use lemma_copyout_shape;

}

proof fn lemma_frame_parent_id(s: StateView, m: MemView, env: SyscallEnv, a: Seq<u64>)
    ensures
        call_frame(s, m, Call::ParentId, spec_call(s, m, env, Call::ParentId, a)),
{
    broadcast use lemma_copyout_shape;

}

proof fn lemma_frame_thread_id(s: StateView, m: MemView, env: SyscallEnv, a: Seq<u64>)
    ensures
        call_frame(s, m, Call::ThreadId, spec_call(s, m, env, Call::ThreadId, a)),
{
    broadcast use lemma_copyout_shape;

}

proof fn lemma_frame_wait4(s: StateView, m: MemView, env: SyscallEnv, a: Seq<u64>)
    ensures
        call_frame(s, m, Call::Wait4, spec_call(s, m, env, Call::Wait4, a)),
{
    broadcast use lemma_copyout_shape;

}

proof fn lemma_frame_linux_uname(s: StateView, m: MemView, env: SyscallEnv, a: Seq<u64>)
    ensures
        call_frame(s, m, Call::LinuxUname, spec_call(s, m, env, Call::LinuxUname, a)),
{
    broadcast use lemma_copyout_shape;

}

proof fn lemma_frame_ghost_uname(s: StateView, m: MemView, env: SyscallEnv, a: Seq<u64>)
    ensures
        call_frame(s, m, Call::GhostUname, spec_call(s, m, env, Call::GhostUname, a)),
{
    broadcast use lemma_copyout_shape;

}

proof fn lemma_frame_fcntl(s: StateView, m: MemView, env: SyscallEnv, a: Seq<u64>)
    ensures
        call_frame(s, m, Call::Fcntl, spec_call(s, m, env, Call::Fcntl, a)),
{
    broadcast use lemma_copyout_shape;

}

proof fn lemma_frame_getcwd(s: StateView, m: MemView, env: SyscallEnv, a: Seq<u64>)
    ensures
        call_frame(s, m, Call::Getcwd, spec_call(s, m, env, Call::Getcwd, a)),
{
    broadcast use lemma_copyout_shape;

}

proof fn lemma_frame_chdir(s: StateView, m: MemView, env: SyscallEnv, a: Seq<u64>)
    ensures
        call_frame(s, m, Call::Chdir, spec_call(s, m, env, Call::Chdir, a)),
{
    broadcast use lemma_copyout_shape;

}

proof fn lemma_frame_fchdir(s: StateView, m: MemView, env: SyscallEnv, a: Seq<u64>)
    ensures
        call_frame(s, m, Call::Fchdir, spec_call(s, m, env, Call::Fchdir, a)),
{
    broadcast use lemma_copyout_shape;

}

proof fn lemma_frame_umask(s: StateView, m: MemView, env: SyscallEnv, a: Seq<u64>)
    ensures
        call_frame(s, m, Call::Umask, spec_call(s, m, env, Call::Umask, a)),
{
    broadcast use lemma_copyout_shape;

}

proof fn lemma_frame_gettimeofday(s: StateView, m: MemView, env: SyscallEnv, a: Seq<u64>)
    ensures
        call_frame(s, m, Call::Gettimeofday, spec_call(s, m, env, Call::Gettimeofday, a)),
{
    broadcast use lemma_copyout_shape;

}

proof fn lemma_frame_getrlimit(s: StateView, m: MemView, env: SyscallEnv, a: Seq<u64>)
    ensures
        call_frame(s, m, Call::Getrlimit, spec_call(s, m, env, Call::Getrlimit, a)),
{
    broadcast use lemma_copyout_shape;

}

proof fn lemma_frame_setrlimit(s: StateView, m: MemView, env: SyscallEnv, a: Seq<u64>)
    ensures
        call_frame(s, m, Call::Setrlimit, spec_call(s, m, env, Call::Setrlimit, a)),
{
    broadcast use lemma_copyout_shape;

}

proof fn lemma_frame_prlimit64(s: StateView, m: MemView, env: SyscallEnv, a: Seq<u64>)
    ensures
        call_frame(s, m, Call::Prlimit64, spec_call(s, m, env, Call::Prlimit64, a)),
{
    broadcast use lemma_copyout_shape;

}

proof fn lemma_frame_user_id(s: StateView, m: MemView, env: SyscallEnv, a: Seq<u64>)
    ensures
        call_frame(s, m, Call::UserId, spec_call(s, m, env, Call::UserId, a)),
{
    broadcast use lemma_copyout_shape;

}

proof fn lemma_frame_group_id(s: StateView, m: MemView, env: SyscallEnv, a: Seq<u64>)
    ensures
        call_frame(s, m, Call::GroupId, spec_call(s, m, env, Call::GroupId, a)),
{
    broadcast use lemma_copyout_shape;

}

proof fn lemma_frame_setpgid(s: StateView, m: MemView, env: SyscallEnv, a: Seq<u64>)
    ensures
        call_frame(s, m, Call::Setpgid, spec_call(s, m, env, Call::Setpgid, a)),
{
    broadcast use lemma_copyout_shape;

}

proof fn lemma_frame_getpgid(s: StateView, m: MemView, env: SyscallEnv, a: Seq<u64>)
    ensures
        call_frame(s, m, Call::Getpgid, spec_call(s, m, env, Call::Getpgid, a)),
{
    broadcast use lemma_copyout_shape;

}

proof fn lemma_frame_setsid(s: StateView, m: MemView, env: SyscallEnv, a: Seq<u64>)
    ensures
        call_frame(s, m, Call::Setsid, spec_call(s, m, env, Call::Setsid, a)),
{
    broadcast use lemma_copyout_shape;

}

proof fn lemma_frame_getsid(s: StateView, m: MemView, env: SyscallEnv, a: Seq<u64>)
    ensures
        call_frame(s, m, Call::Getsid, spec_call(s, m, env, Call::Getsid, a)),
{
    broadcast use lemma_copyout_shape;

}

proof fn lemma_frame_prctl(s: StateView, m: MemView, env: SyscallEnv, a: Seq<u64>)
    ensures
        call_frame(s, m, Call::Prctl, spec_call(s, m, env, Call::Prctl, a)),
{
    broadcast use lemma_copyout_shape;

}

proof fn lemma_frame_getdents(s: StateView, m: MemView, env: SyscallEnv, a: Seq<u64>)
    ensures
        call_frame(s, m, Call::Getdents, spec_call(s, m, env, Call::Getdents, a)),
{
    broadcast use lemma_copyout_shape;

}

proof fn lemma_frame_set_tid_address(s: StateView, m: MemView, env: SyscallEnv, a: Seq<u64>)
    ensures
        call_frame(s, m, Call::SetTidAddress, spec_call(s, m, env, Call::SetTidAddress, a)),
{
    broadcast use lemma_copyout_shape;

}

proof fn lemma_frame_clock_gettime(s: StateView, m: MemView, env: SyscallEnv, a: Seq<u64>)
    ensures
        call_frame(s, m, Call::ClockGettime, spec_call(s, m, env, Call::ClockGettime, a)),
{
    broadcast use lemma_copyout_shape;

}

proof fn lemma_frame_exit_group(s: StateView, m: MemView, env: SyscallEnv, a: Seq<u64>)
    ensures
        call_frame(s, m, Call::ExitGroup, spec_call(s, m, env, Call::ExitGroup, a)),
{
    broadcast use lemma_copyout_shape;

}

proof fn lemma_frame_open_at(s: StateView, m: MemView, env: SyscallEnv, a: Seq<u64>)
    ensures
        call_frame(s, m, Call::OpenAt, spec_call(s, m, env, Call::OpenAt, a)),
{
    broadcast use lemma_copyout_shape;

}

proof fn lemma_frame_open(s: StateView, m: MemView, env: SyscallEnv, a: Seq<u64>)
    ensures
        call_frame(s, m, Call::Open, spec_call(s, m, env, Call::Open, a)),
{
    broadcast use lemma_copyout_shape;

}

proof fn lemma_frame_new_fstat_at(s: StateView, m: MemView, env: SyscallEnv, a: Seq<u64>)
    ensures
        call_frame(s, m, Call::NewFstatAt, spec_call(s, m, env, Call::NewFstatAt, a)),
{
    broadcast use lemma_copyout_shape;

}

proof fn lemma_frame_stat(s: StateView, m: MemView, env: SyscallEnv, a: Seq<u64>)
    ensures
        call_frame(s, m, Call::Stat, spec_call(s, m, env, Call::Stat, a)),
{
    broadcast use lemma_copyout_shape;

}

proof fn lemma_frame_readlink_at(s: StateView, m: MemView, env: SyscallEnv, a: Seq<u64>)
    ensures
        call_frame(s, m, Call::ReadlinkAt, spec_call(s, m, env, Call::ReadlinkAt, a)),
{
    broadcast use lemma_copyout_shape;

}

proof fn lemma_frame_readlink(s: StateView, m: MemView, env: SyscallEnv, a: Seq<u64>)
    ensures
        call_frame(s, m, Call::Readlink, spec_call(s, m, env, Call::Readlink, a)),
{
    broadcast use lemma_copyout_shape;

}

proof fn lemma_frame_access_at(s: StateView, m: MemView, env: SyscallEnv, a: Seq<u64>)
    ensures
        call_frame(s, m, Call::AccessAt, spec_call(s, m, env, Call::AccessAt, a)),
{
    broadcast use lemma_copyout_shape;

}

proof fn lemma_frame_set_robust_list(s: StateView, m: MemView, env: SyscallEnv, a: Seq<u64>)
    ensures
        call_frame(s, m, Call::SetRobustList, spec_call(s, m, env, Call::SetRobustList, a)),
{
    broadcast use lemma_copyout_shape;

}

proof fn lemma_frame_get_robust_list(s: StateView, m: MemView, env: SyscallEnv, a: Seq<u64>)
    ensures
        call_frame(s, m, Call::GetRobustList, spec_call(s, m, env, Call::GetRobustList, a)),
{
    broadcast use lemma_copyout_shape;

}

proof fn lemma_frame_getrandom(s: StateView, m: MemView, env: SyscallEnv, a: Seq<u64>)
    ensures
        call_frame(s, m, Call::Getrandom, spec_call(s, m, env, Call::Getrandom, a)),
{
    broadcast use lemma_copyout_shape;

}

proof fn lemma_frame_rseq(s: StateView, m: MemView, env: SyscallEnv, a: Seq<u64>)
    ensures
        call_frame(s, m, Call::Rseq, spec_call(s, m, env, Call::Rseq, a)),
{
    broadcast use lemma_copyout_shape;

}

proof fn lemma_frame_uptime(s: StateView, m: MemView, env: SyscallEnv, a: Seq<u64>)
    ensures
        call_frame(s, m, Call::Uptime, spec_call(s, m, env, Call::Uptime, a)),
{
    broadcast use lemma_copyout_shape;

}

proof fn lemma_frame_abi_version(s: StateView, m: MemView, env: SyscallEnv, a: Seq<u64>)
    ensures
        call_frame(s, m, Call::AbiVersion, spec_call(s, m, env, Call::AbiVersion, a)),
{
    broadcast use lemma_copyout_shape;

}

proof fn lemma_frame_poll(s: StateView, m: MemView, env: SyscallEnv, a: Seq<u64>)
    ensures
        call_frame(s, m, Call::Poll, spec_call(s, m, env, Call::Poll, a)),
{
    broadcast use lemma_copyout_shape;

}

proof fn lemma_frame_ppoll(s: StateView, m: MemView, env: SyscallEnv, a: Seq<u64>)
    ensures
        call_frame(s, m, Call::Ppoll, spec_call(s, m, env, Call::Ppoll, a)),
{
    broadcast use lemma_copyout_shape;

}

proof fn lemma_frame_pipe(s: StateView, m: MemView, env: SyscallEnv, a: Seq<u64>)
    ensures
        call_frame(s, m, Call::Pipe, spec_call(s, m, env, Call::Pipe, a)),
{
    broadcast use lemma_copyout_shape;

}

proof fn lemma_frame_pipe2(s: StateView, m: MemView, env: SyscallEnv, a: Seq<u64>)
    ensures
        call_frame(s, m, Call::Pipe2, spec_call(s, m, env, Call::Pipe2, a)),
{
    broadcast use lemma_copyout_shape;

}

proof fn lemma_frame_futex(s: StateView, m: MemView, env: SyscallEnv, a: Seq<u64>)
    ensures
        call_frame(s, m, Call::Futex, spec_call(s, m, env, Call::Futex, a)),
{
    broadcast use lemma_copyout_shape;

}

proof fn lemma_frame_arch_prctl(s: StateView, m: MemView, env: SyscallEnv, a: Seq<u64>)
    ensures
        call_frame(s, m, Call::ArchPrctl, spec_call(s, m, env, Call::ArchPrctl, a)),
{
    broadcast use lemma_copyout_shape;

}

proof fn lemma_frame_unknown(s: StateView, m: MemView, env: SyscallEnv, a: Seq<u64>)
    ensures
        call_frame(s, m, Call::Unknown, spec_call(s, m, env, Call::Unknown, a)),
{
    broadcast use lemma_copyout_shape;

}

/// Every call keeps its frame.
pub proof fn lemma_call_frame(s: StateView, m: MemView, env: SyscallEnv, c: Call, a: Seq<u64>)
    ensures
        call_frame(s, m, c, spec_call(s, m, env, c, a)),
{
    match c {
        Call::Read => lemma_frame_read(s, m, env, a),
        Call::Write => lemma_frame_write(s, m, env, a),
        Call::LogWrite => lemma_frame_log_write(s, m, env, a),
        Call::Close => lemma_frame_close(s, m, env, a),
        Call::Fstat => lemma_frame_fstat(s, m, env, a),
        Call::Lseek => lemma_frame_lseek(s, m, env, a),
        Call::Mmap => lemma_frame_mmap(s, m, env, a),
        Call::Mprotect => lemma_frame_mprotect(s, m, env, a),
        Call::Munmap => lemma_frame_munmap(s, m, env, a),
        Call::Brk => lemma_frame_brk(s, m, env, a),
        Call::RtSigaction => lemma_frame_rt_sigaction(s, m, env, a),
        Call::RtSigprocmask => lemma_frame_rt_sigprocmask(s, m, env, a),
        Call::Ioctl => lemma_frame_ioctl(s, m, env, a),
        Call::Pread64 => lemma_frame_pread64(s, m, env, a),
        Call::Pwrite64 => lemma_frame_pwrite64(s, m, env, a),
        Call::Readv => lemma_frame_readv(s, m, env, a),
        Call::Writev => lemma_frame_writev(s, m, env, a),
        Call::Access => lemma_frame_access(s, m, env, a),
        Call::Yield => lemma_frame_yield(s, m, env, a),
        Call::Dup => lemma_frame_dup(s, m, env, a),
        Call::Dup2 => lemma_frame_dup2(s, m, env, a),
        Call::Dup3 => lemma_frame_dup3(s, m, env, a),
        Call::Nanosleep => lemma_frame_nanosleep(s, m, env, a),
        Call::ProcessId => lemma_frame_process_id(s, m, env, a),
        Call::ParentId => lemma_frame_parent_id(s, m, env, a),
        Call::ThreadId => lemma_frame_thread_id(s, m, env, a),
        Call::Wait4 => lemma_frame_wait4(s, m, env, a),
        Call::LinuxUname => lemma_frame_linux_uname(s, m, env, a),
        Call::GhostUname => lemma_frame_ghost_uname(s, m, env, a),
        Call::Fcntl => lemma_frame_fcntl(s, m, env, a),
        Call::Getcwd => lemma_frame_getcwd(s, m, env, a),
        Call::Chdir => lemma_frame_chdir(s, m, env, a),
        Call::Fchdir => lemma_frame_fchdir(s, m, env, a),
        Call::Umask => lemma_frame_umask(s, m, env, a),
        Call::Gettimeofday => lemma_frame_gettimeofday(s, m, env, a),
        Call::Getrlimit => lemma_frame_getrlimit(s, m, env, a),
        Call::Setrlimit => lemma_frame_setrlimit(s, m, env, a),
        Call::Prlimit64 => lemma_frame_prlimit64(s, m, env, a),
        Call::UserId => lemma_frame_user_id(s, m, env, a),
        Call::GroupId => lemma_frame_group_id(s, m, env, a),
        Call::Setpgid => lemma_frame_setpgid(s, m, env, a),
        Call::Getpgid => lemma_frame_getpgid(s, m, env, a),
        Call::Setsid => lemma_frame_setsid(s, m, env, a),
        Call::Getsid => lemma_frame_getsid(s, m, env, a),
        Call::Prctl => lemma_frame_prctl(s, m, env, a),
        Call::Getdents => lemma_frame_getdents(s, m, env, a),
        Call::SetTidAddress => lemma_frame_set_tid_address(s, m, env, a),
        Call::ClockGettime => lemma_frame_clock_gettime(s, m, env, a),
        Call::ExitGroup => lemma_frame_exit_group(s, m, env, a),
        Call::OpenAt => lemma_frame_open_at(s, m, env, a),
        Call::Open => lemma_frame_open(s, m, env, a),
        Call::NewFstatAt => lemma_frame_new_fstat_at(s, m, env, a),
        Call::Stat => lemma_frame_stat(s, m, env, a),
        Call::ReadlinkAt => lemma_frame_readlink_at(s, m, env, a),
        Call::Readlink => lemma_frame_readlink(s, m, env, a),
        Call::AccessAt => lemma_frame_access_at(s, m, env, a),
        Call::SetRobustList => lemma_frame_set_robust_list(s, m, env, a),
        Call::GetRobustList => lemma_frame_get_robust_list(s, m, env, a),
        Call::Getrandom => lemma_frame_getrandom(s, m, env, a),
        Call::Rseq => lemma_frame_rseq(s, m, env, a),
        Call::Uptime => lemma_frame_uptime(s, m, env, a),
        Call::AbiVersion => lemma_frame_abi_version(s, m, env, a),
        Call::Poll => lemma_frame_poll(s, m, env, a),
        Call::Ppoll => lemma_frame_ppoll(s, m, env, a),
        Call::Pipe => lemma_frame_pipe(s, m, env, a),
        Call::Pipe2 => lemma_frame_pipe2(s, m, env, a),
        Call::Futex => lemma_frame_futex(s, m, env, a),
        Call::ArchPrctl => lemma_frame_arch_prctl(s, m, env, a),
        Call::Unknown => lemma_frame_unknown(s, m, env, a),
    }
}

} // verus!
