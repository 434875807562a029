use vstd::prelude::*;

use crate::le::get_u64_le;
use crate::syscall::process::{fail, get_user, is_step, ok, spec_get, stay, Step, SyscallOutcome, EBADF, EINVAL, EROFS, ERANGE};
use crate::syscall::files::{file_position, find_file};
use crate::syscall::ipc::{spec_write_pipe, write_pipe};
use crate::syscall::state::{file_views, iovec_from, LinuxIovec, PipeRole, StateView, SyscallEnv, SyscallState};
use crate::uaccess::{MemView, UserMemory};

verus! {

pub const STDOUT_FD: u64 = 1;
pub const STDERR_FD: u64 = 2;
pub const MAX_WRITE_BYTES: u64 = 0x4000;
pub const MAX_IOVEC_COUNT: u64 = 64;

/// The byte shown on the console for `b`: line feed, carriage return, tab and printable
/// ASCII as they are, anything else as `?`.
pub open spec fn console_byte(b: u8) -> u8 {
    if b == 0x0a || b == 0x0d || b == 0x09 || (0x20 <= b && b <= 0x7e) {
        b
    } else {
        0x3f
    }
}

/// The bytes shown on the console for `bytes`.
pub open spec fn sanitized(bytes: Seq<u8>) -> Seq<u8> {
    Seq::new(bytes.len(), |i: int| console_byte(bytes[i]))
}

fn sanitize_for_console(out: &mut Vec<u8>, bytes: &[u8])
    ensures
        final(out)@ == old(out)@ + sanitized(bytes@),
{
    let mut i: usize = 0;
    while i < bytes.len()
        invariant
            i <= bytes@.len(),
            out@ == old(out)@ + sanitized(bytes@.take(i as int)),
        decreases bytes@.len() - i,
    {
        let b = bytes[i];
        let shown = if b == 0x0a || b == 0x0d || b == 0x09 || (0x20 <= b && b <= 0x7e) { b } else { 0x3f };
        out.push(shown);
        assert(out@ =~= old(out)@ + sanitized(bytes@.take(i + 1)));
        i = i + 1;
    }
    assert(bytes@.take(bytes@.len() as int) =~= bytes@);
}

/// Writing `len` user bytes at `ptr` to the console, at most 16 KiB.
pub open spec fn spec_write_text(s: StateView, m: MemView, ptr: u64, len: u64) -> Step {
    if len > MAX_WRITE_BYTES {
        stay(s, m, fail(ERANGE))
    } else if len == 0 {
        stay(s, m, ok(0))
    } else {
        match spec_get(m, ptr, len) {
            Err(e) => stay(s, m, fail(e)),
            Ok(b) => stay(StateView { console: s.console + sanitized(b), ..s }, m, ok(len as i64)),
        }
    }
}

pub fn write_text(st: &mut SyscallState, mem: &UserMemory, ptr: u64, len: u64) -> (out: SyscallOutcome)
    ensures
        is_step(out, final(st)@, mem@, spec_write_text(old(st)@, mem@, ptr, len)),
{
    if len > MAX_WRITE_BYTES {
        return SyscallOutcome::errno(ERANGE);
    }
    if len == 0 {
        return SyscallOutcome::success(0);
    }
    let b = match get_user(mem, ptr, len as usize) {
        Err(e) => return SyscallOutcome::errno(e),
        Ok(b) => b,
    };
    sanitize_for_console(&mut st.console, b.as_slice());
    SyscallOutcome::success(len as i64)
}

/// `write` to a descriptor: standard output and error go to the console, the write end
/// of a pipe to the pipe; any other descriptor fails with `EBADF`.
pub open spec fn spec_write_fd(s: StateView, m: MemView, env: SyscallEnv, a: Seq<u64>) -> Step {
    let pid = env.process.process_id;
    if a[0] == STDOUT_FD || a[0] == STDERR_FD {
        spec_write_text(s, m, a[1], a[2])
    } else if a[0] > i32::MAX as u64 {
        stay(s, m, fail(EBADF))
    } else {
        let k = find_file(s.files, a[0] as i32, pid, 0);
        if k >= s.files.len() {
            stay(s, m, fail(EBADF))
        } else {
            match s.files[k].pipe {
                PipeRole::Writer(id) => spec_write_pipe(s, m, pid, id, a[1], a[2]),
                _ => stay(s, m, fail(EBADF)),
            }
        }
    }
}

pub fn sys_write(st: &mut SyscallState, mem: &UserMemory, env: &SyscallEnv, args: &[u64; 6]) -> (out: SyscallOutcome)
    ensures
        is_step(out, final(st)@, mem@, spec_write_fd(old(st)@, mem@, *env, args@)),
{
    if args[0] == STDOUT_FD || args[0] == STDERR_FD {
        return write_text(st, mem, args[1], args[2]);
    }
    if args[0] > i32::MAX as u64 {
        return SyscallOutcome::errno(EBADF);
    }
    let pid = env.process.process_id;
    let k = file_position(&st.files.files, args[0] as i32, pid);
    if k >= st.files.files.len() {
        return SyscallOutcome::errno(EBADF);
    }
    assert(file_views(st.files.files@)[k as int] == st.files.files@[k as int]@);
    match st.files.files[k].pipe {
        PipeRole::Writer(id) => write_pipe(st, mem, pid, id, args[1], args[2]),
        _ => SyscallOutcome::errno(EBADF),
    }
}

/// `pwrite64`: standard output and error write to the console; files are read-only.
pub open spec fn spec_pwrite64(s: StateView, m: MemView, a: Seq<u64>) -> Step {
    if (a[3] as i64) < 0 {
        stay(s, m, fail(EINVAL))
    } else if a[0] == STDOUT_FD || a[0] == STDERR_FD {
        spec_write_text(s, m, a[1], a[2])
    } else {
        stay(s, m, fail(EROFS))
    }
}

pub fn sys_pwrite64(st: &mut SyscallState, mem: &UserMemory, args: &[u64; 6]) -> (out: SyscallOutcome)
    ensures
        is_step(out, final(st)@, mem@, spec_pwrite64(old(st)@, mem@, args@)),
{
    if (args[3] as i64) < 0 {
        return SyscallOutcome::errno(EINVAL);
    }
    if args[0] == STDOUT_FD || args[0] == STDERR_FD {
        return write_text(st, mem, args[1], args[2]);
    }
    SyscallOutcome::errno(EROFS)
}

/// The rest of a vectored write from buffer `i` on, having written `total` bytes so far
/// and the console holding `console`: the result and the console afterwards.
pub open spec fn writev_from(console: Seq<u8>, m: MemView, iov_ptr: u64, count: u64, i: u64, total: u64) -> (
    SyscallOutcome,
    Seq<u8>,
)
    decreases count - i,
{
    if i >= count {
        (ok(total as i64), console)
    } else if iov_ptr + i * 16 > u64::MAX {
        (fail(ERANGE), console)
    } else {
        match spec_get(m, (iov_ptr + i * 16) as u64, 16) {
            Err(e) => (fail(e), console),
            Ok(rec) => {
                let iov = iovec_from(rec);
                if iov.iov_len == 0 {
                    writev_from(console, m, iov_ptr, count, (i + 1) as u64, total)
                } else if total + iov.iov_len > u64::MAX {
                    (fail(ERANGE), console)
                } else if total + iov.iov_len > MAX_WRITE_BYTES {
                    (fail(ERANGE), console)
                } else {
                    match spec_get(m, iov.iov_base, iov.iov_len) {
                        Err(e) => if total == 0 {
                            (fail(e), console)
                        } else {
                            (ok(total as i64), console)
                        },
                        Ok(b) => writev_from(
                            console + sanitized(b),
                            m,
                            iov_ptr,
                            count,
                            (i + 1) as u64,
                            (total + iov.iov_len) as u64,
                        ),
                    }
                }
            },
        }
    }
}

/// `writev`: writes each buffer in turn to the console, at most 16 KiB in all; a buffer
/// that cannot be read ends the call with what was written, or its error if nothing was.
pub open spec fn spec_writev(s: StateView, m: MemView, a: Seq<u64>) -> Step {
    if a[0] != STDOUT_FD && a[0] != STDERR_FD {
        stay(s, m, fail(EBADF))
    } else if a[2] == 0 {
        stay(s, m, ok(0))
    } else if a[2] > MAX_IOVEC_COUNT {
        stay(s, m, fail(EINVAL))
    } else {
        let r = writev_from(s.console, m, a[1], a[2], 0, 0);
        stay(StateView { console: r.1, ..s }, m, r.0)
    }
}

fn read_iovec(mem: &UserMemory, ptr: u64) -> (r: Result<LinuxIovec, i64>)
    ensures
        match spec_get(mem@, ptr, 16) {
            Ok(b) => r == Ok::<LinuxIovec, i64>(iovec_from(b)),
            Err(e) => r == Err::<LinuxIovec, i64>(e),
        },
{
    let b = match get_user(mem, ptr, 16) {
        Err(e) => return Err(e),
        Ok(b) => b,
    };
    Ok(LinuxIovec { iov_base: get_u64_le(b.as_slice(), 0), iov_len: get_u64_le(b.as_slice(), 8) })
}

#[verifier::rlimit(30)]
pub fn sys_writev(st: &mut SyscallState, mem: &UserMemory, args: &[u64; 6]) -> (out: SyscallOutcome)
    ensures
        is_step(out, final(st)@, mem@, spec_writev(old(st)@, mem@, args@)),
{
    if args[0] != STDOUT_FD && args[0] != STDERR_FD {
        return SyscallOutcome::errno(EBADF);
    }
    let iov_ptr = args[1];
    let count = args[2];
    if count == 0 {
        return SyscallOutcome::success(0);
    }
    if count > MAX_IOVEC_COUNT {
        return SyscallOutcome::errno(EINVAL);
    }
    let ghost s0 = st@;
    let mut total: u64 = 0;
    let mut i: u64 = 0;
    while i < count
        invariant
            i <= count <= MAX_IOVEC_COUNT,
            0 < count,
            iov_ptr == args@[1],
            count == args@[2],
            args@[0] == STDOUT_FD || args@[0] == STDERR_FD,
            total <= MAX_WRITE_BYTES,
            st@ == (StateView { console: st@.console, ..s0 }),
            s0 == old(st)@,
            writev_from(s0.console, mem@, iov_ptr, count, 0, 0) == writev_from(st@.console, mem@, iov_ptr, count, i, total),
        decreases count - i,
    {
        if iov_ptr > u64::MAX - i * 16 {
            assert(writev_from(st@.console, mem@, iov_ptr, count, i, total) == (fail(ERANGE), st@.console));
            return SyscallOutcome::errno(ERANGE);
        }
        let iov = match read_iovec(mem, iov_ptr + i * 16) {
            Err(e) => return SyscallOutcome::errno(e),
            Ok(iov) => iov,
        };
        if iov.iov_len != 0 {
            if iov.iov_len > u64::MAX - total {
                assert(writev_from(st@.console, mem@, iov_ptr, count, i, total) == (fail(ERANGE), st@.console));
                return SyscallOutcome::errno(ERANGE);
            }
            let next_total = total + iov.iov_len;
            if next_total > MAX_WRITE_BYTES {
                return SyscallOutcome::errno(ERANGE);
            }
            let b = match get_user(mem, iov.iov_base, iov.iov_len as usize) {
                Err(e) => {
                    if total == 0 {
                        return SyscallOutcome::errno(e);
                    }
                    return SyscallOutcome::success(total as i64);
                },
                Ok(b) => b,
            };
            sanitize_for_console(&mut st.console, b.as_slice());
            total = next_total;
        }
        i = i + 1;
    }
    SyscallOutcome::success(total as i64)
}

} // verus!
