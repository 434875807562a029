use vstd::prelude::*;

use crate::le::get_u64_le;
use crate::syscall::clock::MAX_READ_BYTES;
use crate::syscall::console::MAX_IOVEC_COUNT;
use crate::syscall::files::{file_position, find_file, parse_fd, set_offset, spec_parse_fd};
use crate::syscall::process::{
    fail, get_user, is_step, ok, put_user, spec_get, spec_put, stay, Step, SyscallOutcome, EBADF, EINVAL, EIO, EISDIR,
    ERANGE,
};
use crate::syscall::state::{file_views, iovec_from, FileView, LinuxIovec, StateView, SyscallEnv, SyscallState};
use crate::uaccess::{MemView, UserMemory};
use crate::vfs::VfsNodeKind;

verus! {

pub const SEEK_SET: i32 = 0;
pub const SEEK_CUR: i32 = 1;
pub const SEEK_END: i32 = 2;

// ---------------------------------------------------------------------------
// Reading open files.

/// The bytes a read of `count` bytes takes from `f` at its position: up to the end of the
/// contents, nothing when the position is at or past the end.
pub open spec fn take_at(f: FileView, start: int, count: int) -> Seq<u8> {
    let len = f.content.len() as int;
    if start >= len {
        Seq::empty()
    } else {
        let n = if count < len - start { count } else { len - start };
        f.content.subrange(start, start + n)
    }
}

/// Reading up to `count` bytes of the caller's open file `fd` into user memory at `dst`,
/// advancing its position: the number of bytes read, the state and the memory afterwards.
pub open spec fn spec_read_open(s: StateView, m: MemView, pid: u64, fd: i32, dst: u64, count: u64) -> (
    Result<i64, i64>,
    StateView,
    MemView,
) {
    let k = find_file(s.files, fd, pid, 0);
    if k >= s.files.len() {
        (Err(EBADF), s, m)
    } else if s.files[k].kind == VfsNodeKind::Directory {
        (Err(EISDIR), s, m)
    } else if count == 0 {
        (Ok(0), s, m)
    } else {
        let f = s.files[k];
        let bytes = take_at(f, f.offset as int, count as int);
        match spec_put(m, dst, bytes) {
            Err(e) => (Err(e), s, m),
            Ok(m1) => (
                Ok(bytes.len() as i64),
                StateView { files: s.files.update(k, FileView { offset: (f.offset + bytes.len()) as usize, ..f }), ..s },
                m1,
            ),
        }
    }
}

fn take_bytes(content: &Vec<u8>, start: usize, count: u64) -> (b: Vec<u8>)
    ensures
        b@ == take_at(FileView { content: content@, ..arbitrary_file() }, start as int, count as int),
{
    let len = content.len();
    if start >= len {
        return Vec::new();
    }
    let n = if (count as u128) < (len - start) as u128 { count as usize } else { len - start };
    vstd::slice::slice_to_vec(&content.as_slice()[start..start + n])
}

/// Any open file; only its contents matter where it is used.
pub open spec fn arbitrary_file() -> FileView {
    FileView {
        fd: 0,
        fd_flags: 0,
        owner_process_id: 0,
        mount: crate::vfs::VfsMountKind::Root,
        kind: VfsNodeKind::File,
        executable: false,
        path: Seq::empty(),
        offset: 0,
        content: Seq::empty(),
        pipe: crate::syscall::state::PipeRole::NotPipe,
    }
}

fn read_open_file(st: &mut SyscallState, mem: &mut UserMemory, pid: u64, fd: i32, dst: u64, count: u64) -> (r: Result<i64, i64>)
    requires
        count <= MAX_READ_BYTES,
    ensures
        (r, final(st)@, final(mem)@) == spec_read_open(old(st)@, old(mem)@, pid, fd, dst, count),
{
    let k = file_position(&st.files.files, fd, pid);
    if k >= st.files.files.len() {
        return Err(EBADF);
    }
    if st.files.files[k].kind == VfsNodeKind::Directory {
        return Err(EISDIR);
    }
    if count == 0 {
        return Ok(0);
    }
    let offset = st.files.files[k].offset;
    let bytes = take_bytes(&st.files.files[k].content, offset, count);
    proof {
        let f = file_views(st.files.files@)[k as int];
        assert(take_at(FileView { content: f.content, ..arbitrary_file() }, offset as int, count as int) == take_at(
            f,
            offset as int,
            count as int,
        ));
    }
    match put_user(mem, bytes.as_slice(), dst) {
        Err(e) => return Err(e),
        Ok(()) => {},
    }
    let n = bytes.len();
    let clen = st.files.files[k].content.len();
    assert(offset >= clen ==> n == 0);
    assert(offset < clen ==> offset + n <= clen);
    set_offset(&mut st.files.files, k, offset + n);
    Ok(n as i64)
}

/// A read result as an outcome.
pub open spec fn read_outcome(r: Result<i64, i64>) -> SyscallOutcome {
    match r {
        Ok(v) => ok(v),
        Err(e) => fail(e),
    }
}

/// `read`: at most 64 KiB of the caller's open file.
pub open spec fn spec_read(s: StateView, m: MemView, env: SyscallEnv, a: Seq<u64>) -> Step {
    match spec_parse_fd(a[0]) {
        Err(e) => stay(s, m, fail(e)),
        Ok(fd) => if a[2] > MAX_READ_BYTES {
            stay(s, m, fail(ERANGE))
        } else {
            let r = spec_read_open(s, m, env.process.process_id, fd, a[1], a[2]);
            Step { out: read_outcome(r.0), state: r.1, mem: r.2 }
        },
    }
}

pub fn sys_read(st: &mut SyscallState, mem: &mut UserMemory, env: &SyscallEnv, args: &[u64; 6]) -> (out: SyscallOutcome)
    ensures
        is_step(out, final(st)@, final(mem)@, spec_read(old(st)@, old(mem)@, *env, args@)),
{
    let fd = match parse_fd(args[0]) {
        Err(e) => return SyscallOutcome::errno(e),
        Ok(fd) => fd,
    };
    if args[2] > MAX_READ_BYTES {
        return SyscallOutcome::errno(ERANGE);
    }
    match read_open_file(st, mem, env.process.process_id, fd, args[1], args[2]) {
        Ok(v) => SyscallOutcome::success(v),
        Err(e) => {
            assert(e == EBADF || e == EISDIR || e == 14 || e == 34);
            SyscallOutcome::errno(e)
        },
    }
}

/// `pread64`: at most 64 KiB of the caller's open file from a given position, which stays where it was.
pub open spec fn spec_pread64(s: StateView, m: MemView, env: SyscallEnv, a: Seq<u64>) -> Step {
    match spec_parse_fd(a[0]) {
        Err(e) => stay(s, m, fail(e)),
        Ok(fd) => if a[2] > MAX_READ_BYTES {
            stay(s, m, fail(ERANGE))
        } else if (a[3] as i64) < 0 {
            stay(s, m, fail(EINVAL))
        } else if a[2] == 0 {
            stay(s, m, ok(0))
        } else {
            let k = find_file(s.files, fd, env.process.process_id, 0);
            if k >= s.files.len() {
                stay(s, m, fail(EBADF))
            } else if s.files[k].kind == VfsNodeKind::Directory {
                stay(s, m, fail(EISDIR))
            } else if a[3] >= s.files[k].content.len() {
                stay(s, m, ok(0))
            } else {
                let bytes = take_at(s.files[k], a[3] as int, a[2] as int);
                match spec_put(m, a[1], bytes) {
                    Err(e) => stay(s, m, fail(e)),
                    Ok(m1) => stay(s, m1, ok(bytes.len() as i64)),
                }
            }
        },
    }
}

pub fn sys_pread64(st: &SyscallState, mem: &mut UserMemory, env: &SyscallEnv, args: &[u64; 6]) -> (out: SyscallOutcome)
    ensures
        is_step(out, st@, final(mem)@, spec_pread64(st@, old(mem)@, *env, args@)),
{
    let fd = match parse_fd(args[0]) {
        Err(e) => return SyscallOutcome::errno(e),
        Ok(fd) => fd,
    };
    if args[2] > MAX_READ_BYTES {
        return SyscallOutcome::errno(ERANGE);
    }
    if (args[3] as i64) < 0 {
        return SyscallOutcome::errno(EINVAL);
    }
    if args[2] == 0 {
        return SyscallOutcome::success(0);
    }
    let k = file_position(&st.files.files, fd, env.process.process_id);
    if k >= st.files.files.len() {
        return SyscallOutcome::errno(EBADF);
    }
    let f = &st.files.files[k];
    if f.kind == VfsNodeKind::Directory {
        return SyscallOutcome::errno(EISDIR);
    }
    if args[3] >= f.content.len() as u64 {
        return SyscallOutcome::success(0);
    }
    let bytes = take_bytes(&f.content, args[3] as usize, args[2]);
    proof {
        let fv = file_views(st.files.files@)[k as int];
        assert(take_at(FileView { content: fv.content, ..arbitrary_file() }, args[3] as int, args[2] as int) == take_at(
            fv,
            args[3] as int,
            args[2] as int,
        ));
    }
    match put_user(mem, bytes.as_slice(), args[1]) {
        Err(e) => SyscallOutcome::errno(e),
        Ok(()) => SyscallOutcome::success(bytes.len() as i64),
    }
}

/// The rest of a vectored read from buffer `i` on, having read `total` bytes: the result,
/// the state and the memory afterwards. A short read ends the call.
pub open spec fn readv_from(s: StateView, m: MemView, pid: u64, fd: i32, iov_ptr: u64, count: u64, i: u64, total: u64) -> (
    SyscallOutcome,
    StateView,
    MemView,
)
    decreases count - i,
{
    if i >= count {
        (ok(total as i64), s, m)
    } else if iov_ptr + i * 16 > u64::MAX {
        (fail(ERANGE), s, m)
    } else {
        match spec_get(m, (iov_ptr + i * 16) as u64, 16) {
            Err(e) => (fail(e), s, m),
            Ok(rec) => {
                let iov = iovec_from(rec);
                if iov.iov_len > MAX_READ_BYTES {
                    (fail(ERANGE), s, m)
                } else if iov.iov_len == 0 {
                    readv_from(s, m, pid, fd, iov_ptr, count, (i + 1) as u64, total)
                } else {
                    let r = spec_read_open(s, m, pid, fd, iov.iov_base, iov.iov_len);
                    match r.0 {
                        Err(e) => if total == 0 {
                            (fail(e), r.1, r.2)
                        } else {
                            (ok(total as i64), r.1, r.2)
                        },
                        Ok(n) => if total + n > u64::MAX {
                            (fail(ERANGE), r.1, r.2)
                        } else if n < iov.iov_len {
                            (ok((total + n) as i64), r.1, r.2)
                        } else {
                            readv_from(r.1, r.2, pid, fd, iov_ptr, count, (i + 1) as u64, (total + n) as u64)
                        },
                    }
                }
            },
        }
    }
}

/// `readv`: reads into each buffer in turn, at most 64 buffers of at most 64 KiB each.
pub open spec fn spec_readv(s: StateView, m: MemView, env: SyscallEnv, a: Seq<u64>) -> Step {
    match spec_parse_fd(a[0]) {
        Err(e) => stay(s, m, fail(e)),
        Ok(fd) => if a[2] == 0 {
            stay(s, m, ok(0))
        } else if a[2] > MAX_IOVEC_COUNT {
            stay(s, m, fail(EINVAL))
        } else {
            let r = readv_from(s, m, env.process.process_id, fd, a[1], a[2], 0, 0);
            Step { out: r.0, state: r.1, mem: r.2 }
        },
    }
}

fn read_iovec(mem: &UserMemory, ptr: u64) -> (r: Result<LinuxIovec, i64>)
    ensures
        match spec_get(mem@, ptr, 16) {
            Ok(b) => r == Ok::<LinuxIovec, i64>(iovec_from(b)),
            Err(e) => r == Err::<LinuxIovec, i64>(e),
        },
{
    let b = match get_user(mem, ptr, 16) {
        Err(e) => return Err(e),
        Ok(b) => b,
    };
    Ok(LinuxIovec { iov_base: get_u64_le(b.as_slice(), 0), iov_len: get_u64_le(b.as_slice(), 8) })
}

proof fn lemma_read_open_bounds(s: StateView, m: MemView, pid: u64, fd: i32, dst: u64, count: u64)
    ensures
        spec_read_open(s, m, pid, fd, dst, count).0 matches Ok(n) ==> 0 <= n <= count,
        spec_read_open(s, m, pid, fd, dst, count).0 matches Err(e) ==> e == EBADF || e == EISDIR || e == 14 || e == 34,
{
}

#[verifier::rlimit(40)]
pub fn sys_readv(st: &mut SyscallState, mem: &mut UserMemory, env: &SyscallEnv, args: &[u64; 6]) -> (out: SyscallOutcome)
    ensures
        is_step(out, final(st)@, final(mem)@, spec_readv(old(st)@, old(mem)@, *env, args@)),
{
    let fd = match parse_fd(args[0]) {
        Err(e) => return SyscallOutcome::errno(e),
        Ok(fd) => fd,
    };
    let iov_ptr = args[1];
    let count = args[2];
    if count == 0 {
        return SyscallOutcome::success(0);
    }
    if count > MAX_IOVEC_COUNT {
        return SyscallOutcome::errno(EINVAL);
    }
    let pid = env.process.process_id;
    let ghost goal = readv_from(old(st)@, old(mem)@, pid, fd, iov_ptr, count, 0, 0);
    let mut total: u64 = 0;
    let mut i: u64 = 0;
    while i < count
        invariant
            i <= count <= MAX_IOVEC_COUNT,
            0 < count,
            iov_ptr == args@[1],
            count == args@[2],
            pid == env.process.process_id,
            spec_parse_fd(args@[0]) == Ok::<i32, i64>(fd),
            total <= i * MAX_READ_BYTES,
            goal == readv_from(old(st)@, old(mem)@, pid, fd, iov_ptr, count, 0, 0),
            goal == readv_from(st@, mem@, pid, fd, iov_ptr, count, i, total),
        decreases count - i,
    {
        if iov_ptr > u64::MAX - i * 16 {
            return SyscallOutcome::errno(ERANGE);
        }
        let iov = match read_iovec(mem, iov_ptr + i * 16) {
            Err(e) => return SyscallOutcome::errno(e),
            Ok(iov) => iov,
        };
        if iov.iov_len > MAX_READ_BYTES {
            return SyscallOutcome::errno(ERANGE);
        }
        if iov.iov_len != 0 {
            proof {
                lemma_read_open_bounds(st@, mem@, pid, fd, iov.iov_base, iov.iov_len);
            }
            match read_open_file(st, mem, pid, fd, iov.iov_base, iov.iov_len) {
                Err(e) => {
                    if total == 0 {
                        return SyscallOutcome::errno(e);
                    }
                    return SyscallOutcome::success(total as i64);
                },
                Ok(n) => {
                    let next = total + n as u64;
                    if (n as u64) < iov.iov_len {
                        return SyscallOutcome::success(next as i64);
                    }
                    total = next;
                },
            }
        }
        i = i + 1;
    }
    SyscallOutcome::success(total as i64)
}

} // verus!
