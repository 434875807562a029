use vstd::prelude::*;
use vstd::string::StringSliceAdditionalSpecFns;

use crate::le::{push_u16_le, u16_le_bytes};
use crate::syscall::calls::MAX_OPEN_FILES;
use crate::syscall::files::{
    copy_open_file, file_position, find_file, has_file, lemma_find_file_bounds, parse_fd, spec_build_stat,
    spec_parse_fd, build_linux_stat, FD_CLOEXEC, O_CLOEXEC, O_DIRECTORY, O_RDONLY,
};
use crate::syscall::process::{
    fail, is_step, ok, put_user, spec_put, stay, Step, SyscallOutcome, EBADF, EINVAL, EMFILE, ENOTTY, ERANGE,
};
use crate::syscall::state::{file_views, winsize_bytes, FileView, LinuxWinsize, OpenFile, StateView, SyscallEnv, SyscallState};
use crate::uaccess::{MemView, UserMemory};
use crate::vfs::VfsNodeKind;

verus! {

pub const F_DUPFD: i32 = 0;
pub const F_GETFD: i32 = 1;
pub const F_SETFD: i32 = 2;
pub const F_GETFL: i32 = 3;
pub const F_SETFL: i32 = 4;
pub const LINUX_TIOCGWINSZ: u64 = 0x5413;

// ---------------------------------------------------------------------------
// close.

/// `close`: forgets the caller's descriptor.
pub open spec fn spec_close(s: StateView, m: MemView, env: SyscallEnv, a: Seq<u64>) -> Step {
    match spec_parse_fd(a[0]) {
        Err(e) => stay(s, m, fail(e)),
        Ok(fd) => {
            let k = find_file(s.files, fd, env.process.process_id, 0);
            if k < s.files.len() {
                stay(StateView { files: s.files.remove(k), ..s }, m, ok(0))
            } else {
                stay(s, m, fail(EBADF))
            }
        },
    }
}

pub fn sys_close(st: &mut SyscallState, mem: &UserMemory, env: &SyscallEnv, args: &[u64; 6]) -> (out: SyscallOutcome)
    ensures
        is_step(out, final(st)@, mem@, spec_close(old(st)@, mem@, *env, args@)),
{
    let fd = match parse_fd(args[0]) {
        Err(e) => return SyscallOutcome::errno(e),
        Ok(fd) => fd,
    };
    let k = file_position(&st.files.files, fd, env.process.process_id);
    if k < st.files.files.len() {
        let _ = st.files.files.remove(k);
        assert(file_views(st.files.files@) =~= file_views(old(st).files.files@).remove(k as int));
        return SyscallOutcome::success(0);
    }
    SyscallOutcome::errno(EBADF)
}

// ---------------------------------------------------------------------------
// Duplication.

/// The lowest descriptor from `c` on that `pid` has not open, if any below `i32::MAX` included.
pub open spec fn first_free_fd(fs: Seq<FileView>, pid: u64, c: i32) -> Option<i32>
    decreases i32::MAX - c,
{
    if !has_file(fs, c, pid) {
        Some(c)
    } else if c == i32::MAX {
        None
    } else {
        first_free_fd(fs, pid, (c + 1) as i32)
    }
}

fn find_available_fd(files: &Vec<OpenFile>, pid: u64, minimum: i32) -> (r: Option<i32>)
    ensures
        r == first_free_fd(file_views(files@), pid, if minimum > 3 { minimum } else { 3 }),
{
    let mut c: i32 = if minimum > 3 { minimum } else { 3 };
    loop
        invariant
            first_free_fd(file_views(files@), pid, if minimum > 3 { minimum } else { 3 }) == first_free_fd(
                file_views(files@),
                pid,
                c,
            ),
        decreases i32::MAX - c,
    {
        if file_position(files, c, pid) >= files.len() {
            return Some(c);
        }
        if c == i32::MAX {
            return None;
        }
        c = c + 1;
    }
}

/// Duplicating the caller's descriptor `src` to exactly `target` (replacing what is open
/// there) or to the lowest free descriptor from `target` on, with descriptor flags
/// `flags & FD_CLOEXEC`; at most 64 files stay open.
pub open spec fn spec_duplicate(fs: Seq<FileView>, pid: u64, src: i32, target: i32, exact: bool, flags: u32) -> (
    Result<i64, i64>,
    Seq<FileView>,
) {
    if !has_file(fs, src, pid) {
        (Err(EBADF), fs)
    } else {
        let dest = if exact {
            Some(target)
        } else {
            first_free_fd(fs, pid, if target > 3 { target } else { 3 })
        };
        match dest {
            None => (Err(EMFILE), fs),
            Some(d) => {
                let ri = if exact { find_file(fs, d, pid, 0) } else { fs.len() as int };
                if fs.len() >= MAX_OPEN_FILES && ri >= fs.len() {
                    (Err(EMFILE), fs)
                } else {
                    let fs1 = if ri < fs.len() { fs.remove(ri) } else { fs };
                    let k = find_file(fs1, src, pid, 0);
                    if k >= fs1.len() {
                        (Err(EBADF), fs1)
                    } else {
                        (Ok(d as i64), fs1.push(FileView { fd: d, fd_flags: flags & FD_CLOEXEC, ..fs1[k] }))
                    }
                }
            },
        }
    }
}

fn duplicate_fd(st: &mut SyscallState, pid: u64, src: i32, target: i32, exact: bool, flags: u32) -> (r: Result<i64, i64>)
    ensures
        r == spec_duplicate(old(st)@.files, pid, src, target, exact, flags).0,
        final(st)@ == (StateView { files: spec_duplicate(old(st)@.files, pid, src, target, exact, flags).1, ..old(st)@ }),
{
    if file_position(&st.files.files, src, pid) >= st.files.files.len() {
        return Err(EBADF);
    }
    let dest = if exact {
        target
    } else {
        match find_available_fd(&st.files.files, pid, target) {
            None => return Err(EMFILE),
            Some(d) => d,
        }
    };
    let ri = if exact { file_position(&st.files.files, dest, pid) } else { st.files.files.len() };
    if st.files.files.len() as u64 >= MAX_OPEN_FILES && ri >= st.files.files.len() {
        return Err(EMFILE);
    }
    if ri < st.files.files.len() {
        let _ = st.files.files.remove(ri);
        assert(file_views(st.files.files@) =~= file_views(old(st).files.files@).remove(ri as int));
    }
    let k = file_position(&st.files.files, src, pid);
    if k >= st.files.files.len() {
        return Err(EBADF);
    }
    let copy = copy_open_file(&st.files.files[k], dest, flags & FD_CLOEXEC);
    let ghost before = file_views(st.files.files@);
    st.files.files.push(copy);
    assert(file_views(st.files.files@) =~= before.push(FileView { fd: dest, fd_flags: flags & FD_CLOEXEC, ..before[k as int] }));
    Ok(dest as i64)
}

/// A result or error number as an outcome.
pub open spec fn result_outcome(r: Result<i64, i64>) -> SyscallOutcome {
    match r {
        Ok(v) => ok(v),
        Err(e) => fail(e),
    }
}

fn to_outcome(r: Result<i64, i64>) -> (o: SyscallOutcome)
    requires
        r matches Err(e) ==> e > i64::MIN,
    ensures
        o == result_outcome(r),
{
    match r {
        Ok(v) => SyscallOutcome::success(v),
        Err(e) => SyscallOutcome::errno(e),
    }
}

/// A duplication as a step.
pub open spec fn dup_step(s: StateView, m: MemView, pid: u64, src: i32, target: i32, exact: bool, flags: u32) -> Step {
    let r = spec_duplicate(s.files, pid, src, target, exact, flags);
    stay(StateView { files: r.1, ..s }, m, result_outcome(r.0))
}

proof fn lemma_duplicate_errors(fs: Seq<FileView>, pid: u64, src: i32, target: i32, exact: bool, flags: u32)
    ensures
        spec_duplicate(fs, pid, src, target, exact, flags).0 matches Err(e) ==> e == EBADF || e == EMFILE,
{
}

/// `dup`: the lowest free descriptor from 3 on.
pub open spec fn spec_dup(s: StateView, m: MemView, env: SyscallEnv, a: Seq<u64>) -> Step {
    match spec_parse_fd(a[0]) {
        Err(e) => stay(s, m, fail(e)),
        Ok(src) => dup_step(s, m, env.process.process_id, src, 3, false, 0),
    }
}

pub fn sys_dup(st: &mut SyscallState, mem: &UserMemory, env: &SyscallEnv, args: &[u64; 6]) -> (out: SyscallOutcome)
    ensures
        is_step(out, final(st)@, mem@, spec_dup(old(st)@, mem@, *env, args@)),
{
    let src = match parse_fd(args[0]) {
        Err(e) => return SyscallOutcome::errno(e),
        Ok(fd) => fd,
    };
    proof {
        lemma_duplicate_errors(old(st)@.files, env.process.process_id, src, 3, false, 0);
    }
    let r = duplicate_fd(st, env.process.process_id, src, 3, false, 0);
    to_outcome(r)
}

/// `dup2`: exactly the target descriptor, which must be 3 or above; a descriptor onto itself is returned as is.
pub open spec fn spec_dup2(s: StateView, m: MemView, env: SyscallEnv, a: Seq<u64>) -> Step {
    match spec_parse_fd(a[0]) {
        Err(e) => stay(s, m, fail(e)),
        Ok(src) => match spec_parse_fd(a[1]) {
            Err(e) => stay(s, m, fail(e)),
            Ok(target) => if target < 3 {
                stay(s, m, fail(EBADF))
            } else if src == target {
                stay(s, m, ok(target as i64))
            } else {
                dup_step(s, m, env.process.process_id, src, target, true, 0)
            },
        },
    }
}

pub fn sys_dup2(st: &mut SyscallState, mem: &UserMemory, env: &SyscallEnv, args: &[u64; 6]) -> (out: SyscallOutcome)
    ensures
        is_step(out, final(st)@, mem@, spec_dup2(old(st)@, mem@, *env, args@)),
{
    let src = match parse_fd(args[0]) {
        Err(e) => return SyscallOutcome::errno(e),
        Ok(fd) => fd,
    };
    let target = match parse_fd(args[1]) {
        Err(e) => return SyscallOutcome::errno(e),
        Ok(fd) => fd,
    };
    if target < 3 {
        return SyscallOutcome::errno(EBADF);
    }
    if src == target {
        return SyscallOutcome::success(target as i64);
    }
    proof {
        lemma_duplicate_errors(old(st)@.files, env.process.process_id, src, target, true, 0);
    }
    let r = duplicate_fd(st, env.process.process_id, src, target, true, 0);
    to_outcome(r)
}

/// `dup3`: like `dup2` with a close-on-exec flag, and a descriptor onto itself refused.
pub open spec fn spec_dup3(s: StateView, m: MemView, env: SyscallEnv, a: Seq<u64>) -> Step {
    match spec_parse_fd(a[0]) {
        Err(e) => stay(s, m, fail(e)),
        Ok(src) => match spec_parse_fd(a[1]) {
            Err(e) => stay(s, m, fail(e)),
            Ok(target) => if src == target {
                stay(s, m, fail(EINVAL))
            } else if target < 3 {
                stay(s, m, fail(EBADF))
            } else if a[2] & !O_CLOEXEC != 0 {
                stay(s, m, fail(EINVAL))
            } else {
                dup_step(
                    s,
                    m,
                    env.process.process_id,
                    src,
                    target,
                    true,
                    if a[2] & O_CLOEXEC != 0 { FD_CLOEXEC } else { 0 },
                )
            },
        },
    }
}

pub fn sys_dup3(st: &mut SyscallState, mem: &UserMemory, env: &SyscallEnv, args: &[u64; 6]) -> (out: SyscallOutcome)
    ensures
        is_step(out, final(st)@, mem@, spec_dup3(old(st)@, mem@, *env, args@)),
{
    let src = match parse_fd(args[0]) {
        Err(e) => return SyscallOutcome::errno(e),
        Ok(fd) => fd,
    };
    let target = match parse_fd(args[1]) {
        Err(e) => return SyscallOutcome::errno(e),
        Ok(fd) => fd,
    };
    if src == target {
        return SyscallOutcome::errno(EINVAL);
    }
    if target < 3 {
        return SyscallOutcome::errno(EBADF);
    }
    if args[2] & !O_CLOEXEC != 0 {
        return SyscallOutcome::errno(EINVAL);
    }
    let flags = if args[2] & O_CLOEXEC != 0 { FD_CLOEXEC } else { 0 };
    proof {
        lemma_duplicate_errors(old(st)@.files, env.process.process_id, src, target, true, flags);
    }
    let r = duplicate_fd(st, env.process.process_id, src, target, true, flags);
    to_outcome(r)
}

// ---------------------------------------------------------------------------
// fcntl.

/// Standard input, output and error: descriptors the console serves without an open file.
pub open spec fn is_std_fd(fd: i32) -> bool {
    fd == 0 || fd == 1 || fd == 2
}

/// `fcntl`: duplication from a minimum descriptor, and the descriptor and status flags.
pub open spec fn spec_fcntl(s: StateView, m: MemView, env: SyscallEnv, a: Seq<u64>) -> Step {
    let pid = env.process.process_id;
    match spec_parse_fd(a[0]) {
        Err(e) => stay(s, m, fail(e)),
        Ok(fd) => if a[1] > i32::MAX as u64 {
            stay(s, m, fail(EINVAL))
        } else {
            let cmd = a[1] as i32;
            let k = find_file(s.files, fd, pid, 0);
            if cmd == F_DUPFD {
                match spec_parse_fd(a[2]) {
                    Err(e) => stay(s, m, fail(e)),
                    Ok(minimum) => dup_step(s, m, pid, fd, if minimum > 3 { minimum } else { 3 }, false, 0),
                }
            } else if cmd == F_GETFD {
                if is_std_fd(fd) {
                    stay(s, m, ok(0))
                } else if k < s.files.len() {
                    stay(s, m, ok(s.files[k].fd_flags as i32 as i64))
                } else {
                    stay(s, m, fail(EBADF))
                }
            } else if cmd == F_SETFD {
                if is_std_fd(fd) {
                    stay(s, m, ok(0))
                } else if k < s.files.len() {
                    stay(
                        StateView {
                            files: s.files.update(
                                k,
                                FileView { fd_flags: ((a[2] as u32) & FD_CLOEXEC) & FD_CLOEXEC, ..s.files[k] },
                            ),
                            ..s
                        },
                        m,
                        ok(0),
                    )
                } else {
                    stay(s, m, fail(EBADF))
                }
            } else if cmd == F_GETFL {
                if is_std_fd(fd) {
                    stay(s, m, ok(O_RDONLY as i64))
                } else if k < s.files.len() {
                    stay(
                        s,
                        m,
                        ok(if s.files[k].kind == VfsNodeKind::Directory { O_DIRECTORY as i64 } else { O_RDONLY as i64 }),
                    )
                } else {
                    stay(s, m, fail(EBADF))
                }
            } else if cmd == F_SETFL {
                stay(s, m, ok(0))
            } else {
                stay(s, m, fail(EINVAL))
            }
        },
    }
}

pub fn sys_fcntl(st: &mut SyscallState, mem: &UserMemory, env: &SyscallEnv, args: &[u64; 6]) -> (out: SyscallOutcome)
    ensures
        is_step(out, final(st)@, mem@, spec_fcntl(old(st)@, mem@, *env, args@)),
{
    let pid = env.process.process_id;
    let fd = match parse_fd(args[0]) {
        Err(e) => return SyscallOutcome::errno(e),
        Ok(fd) => fd,
    };
    if args[1] > i32::MAX as u64 {
        return SyscallOutcome::errno(EINVAL);
    }
    let cmd = args[1] as i32;
    if cmd == F_DUPFD {
        let minimum = match parse_fd(args[2]) {
            Err(e) => return SyscallOutcome::errno(e),
            Ok(v) => if v > 3 { v } else { 3 },
        };
        proof {
            lemma_duplicate_errors(old(st)@.files, pid, fd, minimum, false, 0);
        }
        let r = duplicate_fd(st, pid, fd, minimum, false, 0);
        return to_outcome(r);
    }
    let k = file_position(&st.files.files, fd, pid);
    if cmd == F_GETFD {
        if fd == 0 || fd == 1 || fd == 2 {
            return SyscallOutcome::success(0);
        }
        if k < st.files.files.len() {
            return SyscallOutcome::success(st.files.files[k].fd_flags as i32 as i64);
        }
        return SyscallOutcome::errno(EBADF);
    }
    if cmd == F_SETFD {
        let flags = (args[2] as u32) & FD_CLOEXEC;
        if fd == 0 || fd == 1 || fd == 2 {
            return SyscallOutcome::success(0);
        }
        if k < st.files.files.len() {
            let mut f = st.files.files.remove(k);
            f.fd_flags = flags & FD_CLOEXEC;
            st.files.files.insert(k, f);
            assert(file_views(st.files.files@) =~= file_views(old(st).files.files@).update(
                k as int,
                FileView { fd_flags: flags & FD_CLOEXEC, ..file_views(old(st).files.files@)[k as int] },
            ));
            return SyscallOutcome::success(0);
        }
        return SyscallOutcome::errno(EBADF);
    }
    if cmd == F_GETFL {
        if fd == 0 || fd == 1 || fd == 2 {
            return SyscallOutcome::success(O_RDONLY as i64);
        }
        if k < st.files.files.len() {
            let dir = st.files.files[k].kind == VfsNodeKind::Directory;
            return SyscallOutcome::success(if dir { O_DIRECTORY as i64 } else { O_RDONLY as i64 });
        }
        return SyscallOutcome::errno(EBADF);
    }
    if cmd == F_SETFL {
        return SyscallOutcome::success(0);
    }
    SyscallOutcome::errno(EINVAL)
}

// ---------------------------------------------------------------------------
// fstat.

/// `fstat`: writes the `stat` record of the caller's open file.
pub open spec fn spec_fstat(s: StateView, m: MemView, env: SyscallEnv, a: Seq<u64>) -> Step {
    match spec_parse_fd(a[0]) {
        Err(e) => stay(s, m, fail(e)),
        Ok(fd) => {
            let k = find_file(s.files, fd, env.process.process_id, 0);
            if k >= s.files.len() {
                stay(s, m, fail(EBADF))
            } else {
                let f = s.files[k];
                match spec_build_stat(f.mount, f.kind, f.executable, f.content.len() as u64, f.path, env.process.uptime_ns) {
                    Err(e) => stay(s, m, fail(e)),
                    Ok(b) => match spec_put(m, a[1], b) {
                        Err(e) => stay(s, m, fail(e)),
                        Ok(m1) => stay(s, m1, ok(0)),
                    },
                }
            }
        },
    }
}

pub fn sys_fstat(st: &SyscallState, mem: &mut UserMemory, env: &SyscallEnv, args: &[u64; 6]) -> (out: SyscallOutcome)
    ensures
        is_step(out, st@, final(mem)@, spec_fstat(st@, old(mem)@, *env, args@)),
{
    let fd = match parse_fd(args[0]) {
        Err(e) => return SyscallOutcome::errno(e),
        Ok(fd) => fd,
    };
    let k = file_position(&st.files.files, fd, env.process.process_id);
    if k >= st.files.files.len() {
        return SyscallOutcome::errno(EBADF);
    }
    let f = &st.files.files[k];
    let b = match build_linux_stat(
        f.mount,
        f.kind,
        f.executable,
        f.content.len() as u64,
        f.path.as_slice(),
        env.process.uptime_ns,
    ) {
        Err(e) => return SyscallOutcome::errno(e),
        Ok(b) => b,
    };
    match put_user(mem, b.as_slice(), args[1]) {
        Err(e) => SyscallOutcome::errno(e),
        Ok(()) => SyscallOutcome::success(0),
    }
}

// ---------------------------------------------------------------------------
// ioctl.

/// A console path: `/dev/console` or any under `/dev/tty`.
pub open spec fn is_tty_path(p: Seq<u8>) -> bool {
    p == "/dev/console".spec_bytes() || crate::bstr::has_prefix(p, "/dev/tty".spec_bytes())
}

/// The console's size, when it fits the `winsize` fields.
pub open spec fn spec_winsize(env: SyscallEnv) -> Result<LinuxWinsize, i64> {
    if env.process.tty_rows > u16::MAX as u64 || env.process.tty_columns > u16::MAX as u64 {
        Err(ERANGE)
    } else {
        Ok(
            LinuxWinsize {
                ws_row: env.process.tty_rows as u16,
                ws_col: env.process.tty_columns as u16,
                ws_xpixel: 0,
                ws_ypixel: 0,
            },
        )
    }
}

/// `ioctl`: only the console size request, on a standard descriptor or an open console device.
pub open spec fn spec_ioctl(s: StateView, m: MemView, env: SyscallEnv, a: Seq<u64>) -> Step {
    match spec_parse_fd(a[0]) {
        Err(e) => stay(s, m, fail(e)),
        Ok(fd) => if a[1] != LINUX_TIOCGWINSZ {
            stay(s, m, fail(ENOTTY))
        } else {
            match spec_winsize(env) {
                Err(e) => stay(s, m, fail(e)),
                Ok(w) => {
                    let k = find_file(s.files, fd, env.process.process_id, 0);
                    if !is_std_fd(fd) && k >= s.files.len() {
                        stay(s, m, fail(EBADF))
                    } else if !is_std_fd(fd) && (s.files[k].kind != VfsNodeKind::Device || !is_tty_path(
                        s.files[k].path,
                    )) {
                        stay(s, m, fail(ENOTTY))
                    } else {
                        match spec_put(m, a[2], winsize_bytes(w)) {
                            Err(e) => stay(s, m, fail(e)),
                            Ok(m1) => stay(s, m1, ok(0)),
                        }
                    }
                },
            }
        },
    }
}

fn is_tty_device_path(p: &[u8]) -> (b: bool)
    ensures
        b == is_tty_path(p@),
{
    crate::bstr::bytes_eq(p, "/dev/console".as_bytes()) || crate::bstr::starts_with(p, "/dev/tty".as_bytes())
}

pub fn sys_ioctl(st: &SyscallState, mem: &mut UserMemory, env: &SyscallEnv, args: &[u64; 6]) -> (out: SyscallOutcome)
    ensures
        is_step(out, st@, final(mem)@, spec_ioctl(st@, old(mem)@, *env, args@)),
{
    let fd = match parse_fd(args[0]) {
        Err(e) => return SyscallOutcome::errno(e),
        Ok(fd) => fd,
    };
    if args[1] != LINUX_TIOCGWINSZ {
        return SyscallOutcome::errno(ENOTTY);
    }
    if env.process.tty_rows > u16::MAX as u64 || env.process.tty_columns > u16::MAX as u64 {
        return SyscallOutcome::errno(ERANGE);
    }
    let std = fd == 0 || fd == 1 || fd == 2;
    if !std {
        let k = file_position(&st.files.files, fd, env.process.process_id);
        if k >= st.files.files.len() {
            return SyscallOutcome::errno(EBADF);
        }
        let f = &st.files.files[k];
        if f.kind != VfsNodeKind::Device || !is_tty_device_path(f.path.as_slice()) {
            return SyscallOutcome::errno(ENOTTY);
        }
    }
    let mut b: Vec<u8> = Vec::new();
    push_u16_le(&mut b, env.process.tty_rows as u16);
    push_u16_le(&mut b, env.process.tty_columns as u16);
    push_u16_le(&mut b, 0);
    push_u16_le(&mut b, 0);
    assert(b@ =~= winsize_bytes(spec_winsize(*env)->Ok_0));
    match put_user(mem, b.as_slice(), args[2]) {
        Err(e) => SyscallOutcome::errno(e),
        Ok(()) => SyscallOutcome::success(0),
    }
}

} // verus!
