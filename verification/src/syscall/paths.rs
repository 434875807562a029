use vstd::prelude::*;
use vstd::string::StringSliceAdditionalSpecFns;
use vstd::utf8::valid_utf8;

use crate::syscall::calls::MAX_OPEN_FILES;
use crate::syscall::clock::MAX_READ_BYTES;
use crate::syscall::files::{
    build_linux_stat, file_position, find_file, is_executable_node, parse_fd, spec_build_stat, spec_is_executable_node,
    spec_parse_fd, AT_FDCWD, O_ACCMODE, O_APPEND, O_CREAT, O_RDONLY, O_TRUNC,
};
use crate::syscall::process::{
    current_cwd, fail, get_user, is_step, ok, put_user, set_cwd, spec_cwd, spec_get, spec_put, spec_set_cwd, stay,
    Step, SyscallOutcome, EACCES, EBADF, EINVAL, EIO, EMFILE, ENOENT, ENOTDIR, ERANGE,
};
use crate::syscall::state::{file_views, FileView, OpenFile, PipeRole, StateView, SyscallEnv, SyscallState};
use crate::text::{is_valid_utf8, lossy_bytes, text_bytes};
use crate::uaccess::{MemView, UserMemory};
use crate::vfs::{spec_lookup, spec_read, ResolvedNode, VfsNodeKind};

verus! {

pub const MAX_PATH_BYTES: u64 = 1024;
pub const AT_EACCESS: u64 = 0x200;
pub const F_OK: u64 = 0;
pub const X_OK: u64 = 1;
pub const W_OK: u64 = 2;
pub const R_OK: u64 = 4;

// ---------------------------------------------------------------------------
// Paths in user memory.

/// The zero-terminated UTF-8 string at `ptr`, read from byte `i` on with `acc` read so far:
/// `ERANGE` without a terminator in the first 1024 bytes, `EINVAL` when it is not UTF-8.
pub open spec fn c_string_from(m: MemView, ptr: u64, i: int, acc: Seq<u8>) -> Result<Seq<u8>, i64>
    decreases MAX_PATH_BYTES - i,
{
    if i < 0 || i >= MAX_PATH_BYTES {
        Err(ERANGE)
    } else if ptr + i > u64::MAX {
        Err(ERANGE)
    } else {
        match spec_get(m, (ptr + i) as u64, 1) {
            Err(e) => Err(e),
            Ok(b) => if b[0] == 0 {
                if valid_utf8(acc) {
                    Ok(acc)
                } else {
                    Err(EINVAL)
                }
            } else {
                c_string_from(m, ptr, i + 1, acc.push(b[0]))
            },
        }
    }
}

/// The path string at `ptr`.
pub open spec fn spec_c_string(m: MemView, ptr: u64) -> Result<Seq<u8>, i64> {
    c_string_from(m, ptr, 0, Seq::empty())
}

fn copyin_c_string(mem: &UserMemory, ptr: u64) -> (r: Result<Vec<u8>, i64>)
    ensures
        match spec_c_string(mem@, ptr) {
            Ok(b) => r matches Ok(v) && v@ == b,
            Err(e) => r == Err::<Vec<u8>, i64>(e),
        },
{
    let mut acc: Vec<u8> = Vec::new();
    let mut i: u64 = 0;
    while i < MAX_PATH_BYTES
        invariant
            i <= MAX_PATH_BYTES,
            acc@.len() == i,
            spec_c_string(mem@, ptr) == c_string_from(mem@, ptr, i as int, acc@),
        decreases MAX_PATH_BYTES - i,
    {
        if ptr > u64::MAX - i {
            return Err(ERANGE);
        }
        let b = match get_user(mem, ptr + i, 1) {
            Err(e) => return Err(e),
            Ok(b) => b,
        };
        if b[0] == 0 {
            if !is_valid_utf8(acc.as_slice()) {
                return Err(EINVAL);
            }
            return Ok(acc);
        }
        acc.push(b[0]);
        i = i + 1;
    }
    Err(ERANGE)
}

/// The directory that a relative path is resolved against: the working directory for
/// `AT_FDCWD` (filled in as `/` when missing), or an open directory; with the state afterwards.
pub open spec fn spec_base_path(s: StateView, env: SyscallEnv, dirfd: i64) -> (Result<Seq<u8>, i64>, StateView) {
    let pid = env.process.process_id;
    if dirfd == AT_FDCWD {
        let c = spec_cwd(s.cwd, pid);
        (Ok(c.0), StateView { cwd: c.1, ..s })
    } else if dirfd < i32::MIN || dirfd > i32::MAX {
        (Err(EBADF), s)
    } else {
        let k = find_file(s.files, dirfd as i32, pid, 0);
        if k >= s.files.len() {
            (Err(EBADF), s)
        } else if s.files[k].kind != VfsNodeKind::Directory {
            (Err(ENOTDIR), s)
        } else {
            (Ok(s.files[k].path), s)
        }
    }
}

/// `raw` appended to `base` with a `/` between them unless `base` ends with one.
pub open spec fn join_path(base: Seq<u8>, raw: Seq<u8>) -> Seq<u8> {
    if base.len() > 0 && base.last() == 0x2f {
        base + raw
    } else {
        base + seq![0x2fu8] + raw
    }
}

/// The path at `ptr`, made absolute against `dirfd` when relative; with the state afterwards.
pub open spec fn spec_resolve_at(s: StateView, m: MemView, env: SyscallEnv, dirfd: i64, ptr: u64) -> (
    Result<Seq<u8>, i64>,
    StateView,
) {
    match spec_c_string(m, ptr) {
        Err(e) => (Err(e), s),
        Ok(raw) => if raw.len() == 0 {
            (Err(EINVAL), s)
        } else if raw[0] == 0x2f {
            (Ok(raw), s)
        } else {
            let b = spec_base_path(s, env, dirfd);
            match b.0 {
                Err(e) => (Err(e), b.1),
                Ok(base) => (Ok(join_path(base, raw)), b.1),
            }
        },
    }
}

fn resolve_path_at(st: &mut SyscallState, mem: &UserMemory, env: &SyscallEnv, dirfd: i64, ptr: u64) -> (r: Result<Vec<u8>, i64>)
    ensures
        final(st)@ == spec_resolve_at(old(st)@, mem@, *env, dirfd, ptr).1,
        match spec_resolve_at(old(st)@, mem@, *env, dirfd, ptr).0 {
            Ok(p) => r matches Ok(v) && v@ == p,
            Err(e) => r == Err::<Vec<u8>, i64>(e),
        },
{
    let raw = match copyin_c_string(mem, ptr) {
        Err(e) => return Err(e),
        Ok(raw) => raw,
    };
    if raw.len() == 0 {
        return Err(EINVAL);
    }
    if raw[0] == 0x2f {
        return Ok(raw);
    }
    let pid = env.process.process_id;
    let mut base: Vec<u8> = if dirfd == AT_FDCWD {
        current_cwd(st, pid)
    } else {
        if dirfd < i32::MIN as i64 || dirfd > i32::MAX as i64 {
            return Err(EBADF);
        }
        let k = file_position(&st.files.files, dirfd as i32, pid);
        if k >= st.files.files.len() {
            return Err(EBADF);
        }
        if st.files.files[k].kind != VfsNodeKind::Directory {
            return Err(ENOTDIR);
        }
        vstd::slice::slice_to_vec(st.files.files[k].path.as_slice())
    };
    if !(base.len() > 0 && base[base.len() - 1] == 0x2f) {
        base.push(0x2f);
    }
    crate::bstr::push_all(&mut base, raw.as_slice());
    Ok(base)
}

/// The node a path at `ptr` names: its normalized path and what resolution found, or the error.
pub open spec fn spec_lookup_at(s: StateView, m: MemView, env: SyscallEnv, dirfd: i64, ptr: u64) -> (
    Result<(Seq<u8>, ResolvedNode), i64>,
    StateView,
) {
    let r = spec_resolve_at(s, m, env, dirfd, ptr);
    match r.0 {
        Err(e) => (Err(e), r.1),
        Ok(p) => match spec_lookup(env.vfs, env.fs, p) {
            None => (Err(ENOENT), r.1),
            Some(found) => (Ok(found), r.1),
        },
    }
}

fn lookup_node_at(st: &mut SyscallState, mem: &UserMemory, env: &SyscallEnv, dirfd: i64, ptr: u64) -> (r: Result<(Vec<u8>, ResolvedNode), i64>)
    requires
        env.wf(),
    ensures
        final(st)@ == spec_lookup_at(old(st)@, mem@, *env, dirfd, ptr).1,
        match spec_lookup_at(old(st)@, mem@, *env, dirfd, ptr).0 {
            Ok((n, node)) => r matches Ok((v, x)) && v@ == n && x == node,
            Err(e) => r == Err::<(Vec<u8>, ResolvedNode), i64>(e),
        },
{
    let p = match resolve_path_at(st, mem, env, dirfd, ptr) {
        Err(e) => return Err(e),
        Ok(p) => p,
    };
    match crate::vfs::lookup_bytes(&env.vfs, &env.fs, p.as_slice()) {
        None => Err(ENOENT),
        Some(found) => Ok(found),
    }
}

/// An error number as a step from the state `s`.
pub open spec fn fail_at(s: StateView, m: MemView, e: i64) -> Step {
    stay(s, m, fail(e))
}

proof fn lemma_lookup_at_errors(s: StateView, m: MemView, env: SyscallEnv, dirfd: i64, ptr: u64)
    ensures
        spec_lookup_at(s, m, env, dirfd, ptr).0 matches Err(e) ==> (e == ERANGE || e == EINVAL || e == EBADF || e
            == ENOTDIR || e == ENOENT || e == 14 || e == 34),
{
    lemma_c_string_errors(m, ptr, 0, Seq::empty());
}

proof fn lemma_c_string_errors(m: MemView, ptr: u64, i: int, acc: Seq<u8>)
    ensures
        c_string_from(m, ptr, i, acc) matches Err(e) ==> (e == ERANGE || e == EINVAL || e == 14 || e == 34),
    decreases MAX_PATH_BYTES - i,
{
    if 0 <= i < MAX_PATH_BYTES && ptr + i <= u64::MAX {
        match spec_get(m, (ptr + i) as u64, 1) {
            Err(e) => {},
            Ok(b) => if b[0] != 0 {
                lemma_c_string_errors(m, ptr, i + 1, acc.push(b[0]));
            },
        }
    }
}

// ---------------------------------------------------------------------------
// open.

/// Opening for reading only, without creating, truncating or appending.
pub open spec fn is_read_only_open(flags: u64) -> bool {
    flags & O_ACCMODE == O_RDONLY && flags & (O_CREAT | O_TRUNC | O_APPEND) == 0
}

/// Opening the node at a path: a snapshot of its text under the next descriptor.
pub open spec fn spec_open_at(s: StateView, m: MemView, env: SyscallEnv, dirfd: i64, ptr: u64, flags: u64) -> Step {
    if !is_read_only_open(flags) {
        fail_at(s, m, EINVAL)
    } else {
        let l = spec_lookup_at(s, m, env, dirfd, ptr);
        let s1 = l.1;
        match l.0 {
            Err(e) => fail_at(s1, m, e),
            Ok((n, r)) => {
                let path = text_bytes(n);
                match spec_read(env.vfs, env.fs, path) {
                    None => fail_at(s1, m, EIO),
                    Some(b) => if s1.files.len() >= MAX_OPEN_FILES {
                        fail_at(s1, m, EMFILE)
                    } else if s1.next_fd == i32::MAX {
                        fail_at(s1, m, ERANGE)
                    } else {
                        stay(
                            StateView {
                                next_fd: (s1.next_fd + 1) as i32,
                                files: s1.files.push(
                                    FileView {
                                        fd: s1.next_fd,
                                        fd_flags: 0,
                                        owner_process_id: env.process.process_id,
                                        mount: r.mount,
                                        kind: r.kind,
                                        executable: r.executable,
                                        path,
                                        offset: 0,
                                        content: text_bytes(b),
                                        pipe: PipeRole::NotPipe,
                                    },
                                ),
                                ..s1
                            },
                            m,
                            ok(s1.next_fd as i64),
                        )
                    },
                }
            },
        }
    }
}

/// Resolving a path changes no open file and not the next descriptor.
proof fn lemma_lookup_at_keeps_files(s: StateView, m: MemView, env: SyscallEnv, dirfd: i64, ptr: u64)
    ensures
        spec_lookup_at(s, m, env, dirfd, ptr).1.files == s.files,
        spec_lookup_at(s, m, env, dirfd, ptr).1.next_fd == s.next_fd,
{
}

/// An open that succeeds returns the next descriptor and adds, last, a file under it that
/// belongs to the caller, starts at position 0 and holds the text of the node it names.
pub proof fn lemma_open_at_success(s: StateView, m: MemView, env: SyscallEnv, dirfd: i64, ptr: u64, flags: u64)
    requires
        spec_open_at(s, m, env, dirfd, ptr, flags).out.value >= 0,
    ensures
        ({
            let o = spec_open_at(s, m, env, dirfd, ptr, flags);
            let f = o.state.files.last();
            &&& o.out == ok(s.next_fd as i64)
            &&& 0 <= s.next_fd < i32::MAX
            &&& o.mem == m
            &&& o.state.files == s.files.push(f)
            &&& f.fd == s.next_fd
            &&& f.owner_process_id == env.process.process_id
            &&& f.offset == 0
            &&& spec_read(env.vfs, env.fs, f.path) matches Some(b) && f.content == text_bytes(b)
        }),
{
    lemma_lookup_at_errors(s, m, env, dirfd, ptr);
    lemma_lookup_at_keeps_files(s, m, env, dirfd, ptr);
}

/// An open that fails changes no open file, not the next descriptor and not the memory.
pub proof fn lemma_open_at_failure(s: StateView, m: MemView, env: SyscallEnv, dirfd: i64, ptr: u64, flags: u64)
    requires
        s.next_fd >= 0,
        spec_open_at(s, m, env, dirfd, ptr, flags).out.value < 0,
    ensures
        ({
            let o = spec_open_at(s, m, env, dirfd, ptr, flags);
            o.state.files == s.files && o.state.next_fd == s.next_fd && o.mem == m
        }),
{
    lemma_lookup_at_keeps_files(s, m, env, dirfd, ptr);
}

#[verifier::rlimit(30)]
pub fn sys_open_at(st: &mut SyscallState, mem: &UserMemory, env: &SyscallEnv, dirfd: i64, ptr: u64, flags: u64) -> (out: SyscallOutcome)
    requires
        env.wf(),
    ensures
        is_step(out, final(st)@, mem@, spec_open_at(old(st)@, mem@, *env, dirfd, ptr, flags)),
{
    if !(flags & O_ACCMODE == O_RDONLY && flags & (O_CREAT | O_TRUNC | O_APPEND) == 0) {
        return SyscallOutcome::errno(EINVAL);
    }
    proof {
        lemma_lookup_at_errors(old(st)@, mem@, *env, dirfd, ptr);
    }
    let (n, node) = match lookup_node_at(st, mem, env, dirfd, ptr) {
        Err(e) => return SyscallOutcome::errno(e),
        Ok(found) => found,
    };
    let path = lossy_bytes(n.as_slice());
    let content = match crate::vfs::read_bytes(&env.vfs, &env.fs, path.as_slice()) {
        None => return SyscallOutcome::errno(EIO),
        Some(b) => lossy_bytes(b.as_slice()),
    };
    if st.files.files.len() as u64 >= MAX_OPEN_FILES {
        return SyscallOutcome::errno(EMFILE);
    }
    let fd = st.files.next_fd;
    if fd == i32::MAX {
        return SyscallOutcome::errno(ERANGE);
    }
    st.files.next_fd = fd + 1;
    let ghost before = file_views(st.files.files@);
    st.files.files.push(
        OpenFile {
            fd,
            fd_flags: 0,
            owner_process_id: env.process.process_id,
            mount: node.mount,
            kind: node.kind,
            executable: node.executable,
            path,
            offset: 0,
            content,
            pipe: PipeRole::NotPipe,
        },
    );
    assert(file_views(st.files.files@) =~= before.push(st.files.files@.last()@));
    SyscallOutcome::success(fd as i64)
}

// ---------------------------------------------------------------------------
// stat and access.

/// Writing the `stat` record of the node at a path; flags are not supported.
pub open spec fn spec_stat_at(s: StateView, m: MemView, env: SyscallEnv, dirfd: i64, ptr: u64, stat_ptr: u64, flags: u64) -> Step {
    if flags != 0 {
        fail_at(s, m, EINVAL)
    } else {
        let l = spec_lookup_at(s, m, env, dirfd, ptr);
        match l.0 {
            Err(e) => fail_at(l.1, m, e),
            Ok((n, r)) => match spec_build_stat(r.mount, r.kind, r.executable, r.size as u64, text_bytes(n), env.process.uptime_ns) {
                Err(e) => fail_at(l.1, m, e),
                Ok(b) => match spec_put(m, stat_ptr, b) {
                    Err(e) => fail_at(l.1, m, e),
                    Ok(m1) => stay(l.1, m1, ok(0)),
                },
            },
        }
    }
}

pub fn sys_stat_at(st: &mut SyscallState, mem: &mut UserMemory, env: &SyscallEnv, dirfd: i64, ptr: u64, stat_ptr: u64, flags: u64) -> (out: SyscallOutcome)
    requires
        env.wf(),
    ensures
        is_step(out, final(st)@, final(mem)@, spec_stat_at(old(st)@, old(mem)@, *env, dirfd, ptr, stat_ptr, flags)),
{
    if flags != 0 {
        return SyscallOutcome::errno(EINVAL);
    }
    proof {
        lemma_lookup_at_errors(old(st)@, old(mem)@, *env, dirfd, ptr);
    }
    let (n, node) = match lookup_node_at(st, mem, env, dirfd, ptr) {
        Err(e) => return SyscallOutcome::errno(e),
        Ok(found) => found,
    };
    let path = lossy_bytes(n.as_slice());
    let b = match build_linux_stat(node.mount, node.kind, node.executable, node.size as u64, path.as_slice(), env.process.uptime_ns) {
        Err(e) => return SyscallOutcome::errno(e),
        Ok(b) => b,
    };
    match put_user(mem, b.as_slice(), stat_ptr) {
        Err(e) => SyscallOutcome::errno(e),
        Ok(()) => SyscallOutcome::success(0),
    }
}

/// Checking access to the node at a path: it exists, nothing is writable, and execution
/// needs an executable file or a directory.
pub open spec fn spec_access_at(s: StateView, m: MemView, env: SyscallEnv, dirfd: i64, ptr: u64, mode: u64, flags: u64) -> Step {
    if flags & !AT_EACCESS != 0 || mode & !(R_OK | W_OK | X_OK | F_OK) != 0 {
        fail_at(s, m, EINVAL)
    } else {
        let l = spec_lookup_at(s, m, env, dirfd, ptr);
        match l.0 {
            Err(e) => fail_at(l.1, m, e),
            Ok((n, r)) => if mode == F_OK {
                stay(l.1, m, ok(0))
            } else if mode & W_OK != 0 {
                fail_at(l.1, m, EACCES)
            } else if mode & X_OK != 0 && !spec_is_executable_node(r.kind, r.executable) {
                fail_at(l.1, m, EACCES)
            } else {
                stay(l.1, m, ok(0))
            },
        }
    }
}

pub fn sys_access_at(st: &mut SyscallState, mem: &UserMemory, env: &SyscallEnv, dirfd: i64, ptr: u64, mode: u64, flags: u64) -> (out: SyscallOutcome)
    requires
        env.wf(),
    ensures
        is_step(out, final(st)@, mem@, spec_access_at(old(st)@, mem@, *env, dirfd, ptr, mode, flags)),
{
    if flags & !AT_EACCESS != 0 || mode & !(R_OK | W_OK | X_OK | F_OK) != 0 {
        return SyscallOutcome::errno(EINVAL);
    }
    proof {
        lemma_lookup_at_errors(old(st)@, mem@, *env, dirfd, ptr);
    }
    let (_, node) = match lookup_node_at(st, mem, env, dirfd, ptr) {
        Err(e) => return SyscallOutcome::errno(e),
        Ok(found) => found,
    };
    if mode == F_OK {
        return SyscallOutcome::success(0);
    }
    if mode & W_OK != 0 {
        return SyscallOutcome::errno(EACCES);
    }
    if mode & X_OK != 0 && !is_executable_node(node.kind, node.executable) {
        return SyscallOutcome::errno(EACCES);
    }
    SyscallOutcome::success(0)
}

} // verus!

verus! {

// ---------------------------------------------------------------------------
// readlink.

/// The only link: `/proc/self/exe` leads to `/initrd/init`; any other node is no link.
pub open spec fn spec_readlink_target(env: SyscallEnv, path: Seq<u8>) -> Result<Seq<u8>, i64> {
    if path == "/proc/self/exe".spec_bytes() {
        Ok("/initrd/init".spec_bytes())
    } else if spec_lookup(env.vfs, env.fs, path) is Some {
        Err(EINVAL)
    } else {
        Err(ENOENT)
    }
}

/// Reading a link at a path into at most `count` bytes, without a terminating zero.
pub open spec fn spec_readlink_at(s: StateView, m: MemView, env: SyscallEnv, dirfd: i64, ptr: u64, dst: u64, count: u64) -> Step {
    if count > MAX_READ_BYTES {
        fail_at(s, m, ERANGE)
    } else if count == 0 {
        stay(s, m, ok(0))
    } else {
        let r = spec_resolve_at(s, m, env, dirfd, ptr);
        match r.0 {
            Err(e) => fail_at(r.1, m, e),
            Ok(p) => match spec_readlink_target(env, p) {
                Err(e) => fail_at(r.1, m, e),
                Ok(t) => {
                    let n = if t.len() < count { t.len() as int } else { count as int };
                    match spec_put(m, dst, t.take(n)) {
                        Err(e) => fail_at(r.1, m, e),
                        Ok(m1) => stay(r.1, m1, ok(n as i64)),
                    }
                },
            },
        }
    }
}

pub fn sys_readlink_at(st: &mut SyscallState, mem: &mut UserMemory, env: &SyscallEnv, dirfd: i64, ptr: u64, dst: u64, count: u64) -> (out: SyscallOutcome)
    requires
        env.wf(),
    ensures
        is_step(out, final(st)@, final(mem)@, spec_readlink_at(old(st)@, old(mem)@, *env, dirfd, ptr, dst, count)),
{
    if count > MAX_READ_BYTES {
        return SyscallOutcome::errno(ERANGE);
    }
    if count == 0 {
        return SyscallOutcome::success(0);
    }
    proof {
        lemma_c_string_errors(old(mem)@, ptr, 0, Seq::empty());
    }
    let p = match resolve_path_at(st, mem, env, dirfd, ptr) {
        Err(e) => return SyscallOutcome::errno(e),
        Ok(p) => p,
    };
    let target: &str = if crate::bstr::bytes_eq(p.as_slice(), "/proc/self/exe".as_bytes()) {
        "/initrd/init"
    } else {
        if crate::vfs::lookup_bytes(&env.vfs, &env.fs, p.as_slice()).is_some() {
            return SyscallOutcome::errno(EINVAL);
        }
        return SyscallOutcome::errno(ENOENT);
    };
    let t = target.as_bytes();
    let n = if (t.len() as u64) < count { t.len() } else { count as usize };
    match put_user(mem, &t[0..n], dst) {
        Err(e) => SyscallOutcome::errno(e),
        Ok(()) => SyscallOutcome::success(n as i64),
    }
}

// ---------------------------------------------------------------------------
// Working directory.

/// `getcwd`: writes the working directory with a terminating zero when it fits.
pub open spec fn spec_getcwd(s: StateView, m: MemView, env: SyscallEnv, a: Seq<u64>) -> Step {
    if a[1] == 0 {
        fail_at(s, m, EINVAL)
    } else {
        let c = spec_cwd(s.cwd, env.process.process_id);
        let s1 = StateView { cwd: c.1, ..s };
        let required = c.0.len() + 1;
        if required > a[1] {
            fail_at(s1, m, ERANGE)
        } else {
            match spec_put(m, a[0], c.0.push(0u8)) {
                Err(e) => fail_at(s1, m, e),
                Ok(m1) => if required > i64::MAX {
                    fail_at(s1, m1, ERANGE)
                } else {
                    stay(s1, m1, ok(required as i64))
                },
            }
        }
    }
}

pub fn sys_getcwd(st: &mut SyscallState, mem: &mut UserMemory, env: &SyscallEnv, args: &[u64; 6]) -> (out: SyscallOutcome)
    ensures
        is_step(out, final(st)@, final(mem)@, spec_getcwd(old(st)@, old(mem)@, *env, args@)),
{
    if args[1] == 0 {
        return SyscallOutcome::errno(EINVAL);
    }
    let mut cwd = current_cwd(st, env.process.process_id);
    if cwd.len() as u64 >= args[1] {
        return SyscallOutcome::errno(ERANGE);
    }
    let required: u64 = cwd.len() as u64 + 1;
    cwd.push(0);
    match put_user(mem, cwd.as_slice(), args[0]) {
        Err(e) => SyscallOutcome::errno(e),
        Ok(()) => if required > i64::MAX as u64 {
            SyscallOutcome::errno(ERANGE)
        } else {
            SyscallOutcome::success(required as i64)
        },
    }
}

/// `chdir`: the working directory becomes the directory a path names.
pub open spec fn spec_chdir(s: StateView, m: MemView, env: SyscallEnv, a: Seq<u64>) -> Step {
    let l = spec_lookup_at(s, m, env, AT_FDCWD, a[0]);
    match l.0 {
        Err(e) => fail_at(l.1, m, e),
        Ok((n, r)) => if r.kind != VfsNodeKind::Directory {
            fail_at(l.1, m, ENOTDIR)
        } else {
            stay(
                StateView { cwd: spec_set_cwd(l.1.cwd, env.process.process_id, text_bytes(n)), ..l.1 },
                m,
                ok(0),
            )
        },
    }
}

pub fn sys_chdir(st: &mut SyscallState, mem: &UserMemory, env: &SyscallEnv, args: &[u64; 6]) -> (out: SyscallOutcome)
    requires
        env.wf(),
    ensures
        is_step(out, final(st)@, mem@, spec_chdir(old(st)@, mem@, *env, args@)),
{
    proof {
        lemma_lookup_at_errors(old(st)@, mem@, *env, AT_FDCWD, args@[0]);
    }
    let (n, node) = match lookup_node_at(st, mem, env, AT_FDCWD, args[0]) {
        Err(e) => return SyscallOutcome::errno(e),
        Ok(found) => found,
    };
    if node.kind != VfsNodeKind::Directory {
        return SyscallOutcome::errno(ENOTDIR);
    }
    set_cwd(st, env.process.process_id, lossy_bytes(n.as_slice()));
    SyscallOutcome::success(0)
}

/// `fchdir`: the working directory becomes an open directory.
pub open spec fn spec_fchdir(s: StateView, m: MemView, env: SyscallEnv, a: Seq<u64>) -> Step {
    match spec_parse_fd(a[0]) {
        Err(e) => fail_at(s, m, e),
        Ok(fd) => {
            let k = find_file(s.files, fd, env.process.process_id, 0);
            if k >= s.files.len() {
                fail_at(s, m, EBADF)
            } else if s.files[k].kind != VfsNodeKind::Directory {
                fail_at(s, m, ENOTDIR)
            } else {
                stay(StateView { cwd: spec_set_cwd(s.cwd, env.process.process_id, s.files[k].path), ..s }, m, ok(0))
            }
        },
    }
}

pub fn sys_fchdir(st: &mut SyscallState, mem: &UserMemory, env: &SyscallEnv, args: &[u64; 6]) -> (out: SyscallOutcome)
    ensures
        is_step(out, final(st)@, mem@, spec_fchdir(old(st)@, mem@, *env, args@)),
{
    let fd = match parse_fd(args[0]) {
        Err(e) => return SyscallOutcome::errno(e),
        Ok(fd) => fd,
    };
    let k = file_position(&st.files.files, fd, env.process.process_id);
    if k >= st.files.files.len() {
        return SyscallOutcome::errno(EBADF);
    }
    if st.files.files[k].kind != VfsNodeKind::Directory {
        return SyscallOutcome::errno(ENOTDIR);
    }
    let path = vstd::slice::slice_to_vec(st.files.files[k].path.as_slice());
    set_cwd(st, env.process.process_id, path);
    SyscallOutcome::success(0)
}

} // verus!
