use vstd::prelude::*;
use vstd::utf8::valid_utf8;

use crate::bstr::{trim_bounds, trimmed};
use crate::le::{push_u16_le, push_u64_le, u16_le_bytes, u64_le_bytes};
use crate::syscall::clock::MAX_READ_BYTES;
use crate::syscall::files::{
    dirent_type_from_node, file_position, find_file, hash_path_to_ino, parse_fd, set_offset, spec_dirent_type,
    spec_ino, spec_parse_fd, DT_UNKNOWN,
};
use crate::syscall::process::{fail, is_step, ok, put_user, spec_put, stay, Step, SyscallOutcome, EBADF, EINVAL, EIO, ENOTDIR, ERANGE};
use crate::syscall::reads::{SEEK_CUR, SEEK_END, SEEK_SET};
use crate::syscall::state::{file_views, FileView, StateView, SyscallEnv, SyscallState};
use crate::text::{is_valid_utf8, lossy_bytes, text_bytes};
use crate::uaccess::{MemView, UserMemory};
use crate::vfs::{spec_lookup, FileSystems, Vfs, VfsMountKind, VfsNodeKind};

verus! {

// ---------------------------------------------------------------------------
// Directory listings.

/// `acc` with the trimmed `line` added when it is not empty.
pub open spec fn add_entry(acc: Seq<Seq<u8>>, line: Seq<u8>) -> Seq<Seq<u8>> {
    if trimmed(line).len() == 0 {
        acc
    } else {
        acc.push(trimmed(line))
    }
}

/// The names of a listing from the line starting at `start` on, scanning from `i`.
pub open spec fn entries_from(s: Seq<u8>, start: int, i: int, acc: Seq<Seq<u8>>) -> Seq<Seq<u8>>
    decreases s.len() - i,
{
    if i >= s.len() {
        if start < s.len() {
            add_entry(acc, s.subrange(start, s.len() as int))
        } else {
            acc
        }
    } else if s[i] == 0x0a {
        entries_from(s, i + 1, i + 1, add_entry(acc, s.subrange(start, i)))
    } else {
        entries_from(s, start, i + 1, acc)
    }
}

/// The entry names of a directory's contents: its lines, trimmed, without the empty ones;
/// `None` when the contents are not UTF-8.
pub open spec fn spec_dir_entries(content: Seq<u8>) -> Option<Seq<Seq<u8>>> {
    if valid_utf8(content) {
        Some(entries_from(content, 0, 0, Seq::empty()))
    } else {
        None
    }
}

fn push_entry(acc: &mut Vec<Vec<u8>>, s: &[u8], start: usize, end: usize)
    requires
        start <= end <= s@.len(),
    ensures
        crate::exec::byte_views(final(acc)@) == add_entry(crate::exec::byte_views(old(acc)@), s@.subrange(start as int, end as int)),
{
    let line = &s[start..end];
    let (a, b) = trim_bounds(line);
    assert(line@.subrange(a as int, b as int) == trimmed(line@));
    if a < b {
        let ghost before = crate::exec::byte_views(acc@);
        acc.push(vstd::slice::slice_to_vec(&line[a..b]));
        assert(crate::exec::byte_views(acc@) =~= before.push(trimmed(line@)));
    }
}

/// The entry names of a directory's contents.
pub fn directory_entry_names(content: &[u8]) -> (r: Option<Vec<Vec<u8>>>)
    ensures
        match spec_dir_entries(content@) {
            None => r is None,
            Some(es) => r matches Some(v) && crate::exec::byte_views(v@) == es,
        },
{
    if !is_valid_utf8(content) {
        return None;
    }
    let mut acc: Vec<Vec<u8>> = Vec::new();
    assert(crate::exec::byte_views(acc@) =~= Seq::<Seq<u8>>::empty());
    let mut start: usize = 0;
    let mut i: usize = 0;
    while i < content.len()
        invariant
            start <= i <= content@.len(),
            entries_from(content@, 0, 0, Seq::empty()) == entries_from(
                content@,
                start as int,
                i as int,
                crate::exec::byte_views(acc@),
            ),
        decreases content@.len() - i,
    {
        if content[i] == 0x0a {
            push_entry(&mut acc, content, start, i);
            start = i + 1;
        }
        i = i + 1;
    }
    if start < content.len() {
        push_entry(&mut acc, content, start, content.len());
    }
    Some(acc)
}

// ---------------------------------------------------------------------------
// lseek.

/// `lseek`: moves the caller's position in an open file, counted in bytes for a file and in
/// entries for a directory.
pub open spec fn spec_lseek(s: StateView, m: MemView, env: SyscallEnv, a: Seq<u64>) -> Step {
    match spec_parse_fd(a[0]) {
        Err(e) => stay(s, m, fail(e)),
        Ok(fd) => if a[2] > i32::MAX as u64 {
            stay(s, m, fail(EINVAL))
        } else {
            let k = find_file(s.files, fd, env.process.process_id, 0);
            if k >= s.files.len() {
                stay(s, m, fail(EBADF))
            } else {
                let f = s.files[k];
                let end: Option<int> = if f.kind == VfsNodeKind::Directory {
                    match spec_dir_entries(f.content) {
                        None => None,
                        Some(es) => Some(es.len() as int),
                    }
                } else {
                    Some(f.content.len() as int)
                };
                match end {
                    None => stay(s, m, fail(EIO)),
                    Some(end) => {
                        let whence = a[2] as i32;
                        let base: Option<int> = if whence == SEEK_SET {
                            Some(0)
                        } else if whence == SEEK_CUR {
                            Some(f.offset as int)
                        } else if whence == SEEK_END {
                            Some(end)
                        } else {
                            None
                        };
                        match base {
                            None => stay(s, m, fail(EINVAL)),
                            Some(b) => if b > i64::MAX {
                                stay(s, m, fail(ERANGE))
                            } else if b + (a[1] as i64) > i64::MAX {
                                stay(s, m, fail(ERANGE))
                            } else if b + (a[1] as i64) < 0 {
                                stay(s, m, fail(EINVAL))
                            } else {
                                let next = b + (a[1] as i64);
                                stay(
                                    StateView {
                                        files: s.files.update(k, FileView { offset: next as usize, ..f }),
                                        ..s
                                    },
                                    m,
                                    ok(next as i64),
                                )
                            },
                        }
                    },
                }
            }
        },
    }
}

pub fn sys_lseek(st: &mut SyscallState, mem: &UserMemory, env: &SyscallEnv, args: &[u64; 6]) -> (out: SyscallOutcome)
    ensures
        is_step(out, final(st)@, mem@, spec_lseek(old(st)@, mem@, *env, args@)),
{
    let fd = match parse_fd(args[0]) {
        Err(e) => return SyscallOutcome::errno(e),
        Ok(fd) => fd,
    };
    if args[2] > i32::MAX as u64 {
        return SyscallOutcome::errno(EINVAL);
    }
    let whence = args[2] as i32;
    let offset = args[1] as i64;
    let k = file_position(&st.files.files, fd, env.process.process_id);
    if k >= st.files.files.len() {
        return SyscallOutcome::errno(EBADF);
    }
    let end: usize = if st.files.files[k].kind == VfsNodeKind::Directory {
        match directory_entry_names(st.files.files[k].content.as_slice()) {
            None => return SyscallOutcome::errno(EIO),
            Some(es) => es.len(),
        }
    } else {
        st.files.files[k].content.len()
    };
    let current = st.files.files[k].offset;
    let base: u64 = if whence == SEEK_SET {
        0
    } else if whence == SEEK_CUR {
        current as u64
    } else if whence == SEEK_END {
        end as u64
    } else {
        return SyscallOutcome::errno(EINVAL);
    };
    if base > i64::MAX as u64 {
        return SyscallOutcome::errno(ERANGE);
    }
    let b = base as i64;
    if offset > 0 && b > i64::MAX - offset {
        return SyscallOutcome::errno(ERANGE);
    }
    let next = b + offset;
    if next < 0 {
        return SyscallOutcome::errno(EINVAL);
    }
    set_offset(&mut st.files.files, k, next as usize);
    SyscallOutcome::success(next)
}

// ---------------------------------------------------------------------------
// getdents64.

/// `v` rounded up to a multiple of 8.
pub open spec fn align8(v: int) -> int {
    ((v + 7) / 8) * 8
}

/// The `linux_dirent64` record of one entry: inode, offset of the next entry, record
/// length, type, the name with a terminating zero, then zeros up to the record length.
pub open spec fn dirent_bytes(ino: u64, off: i64, d_type: u8, name: Seq<u8>) -> Seq<u8> {
    let reclen = align8(name.len() + 20int);
    u64_le_bytes(ino) + u64_le_bytes(off as u64) + u16_le_bytes(reclen as u16) + seq![d_type] + name + Seq::new(
        (reclen - 19 - name.len()) as nat,
        |i: int| 0u8,
    )
}

/// The path of entry `name` of the directory at `dir`.
pub open spec fn child_path(dir: Seq<u8>, name: Seq<u8>) -> Seq<u8> {
    if dir == seq![0x2fu8] {
        seq![0x2fu8] + name
    } else if dir.len() > 0 && dir.last() == 0x2f {
        dir + name
    } else {
        dir + seq![0x2fu8] + name
    }
}

/// The inode and type of the entry at `child`: those of the node a lookup finds, or an inode
/// from the directory's mount and an unknown type.
pub open spec fn entry_identity(vfs: Vfs, fs: FileSystems, mount: VfsMountKind, child: Seq<u8>) -> (u64, u8) {
    match spec_lookup(vfs, fs, child) {
        Some((n, r)) => (spec_ino(r.mount, text_bytes(n)), spec_dirent_type(r.kind)),
        None => (spec_ino(mount, child), DT_UNKNOWN),
    }
}

/// The records of the entries from `index` on that fit in `count` bytes after `cursor`
/// bytes, and the index of the first that did not fit.
pub open spec fn dirents_from(
    vfs: Vfs,
    fs: FileSystems,
    f: FileView,
    es: Seq<Seq<u8>>,
    index: int,
    cursor: int,
    count: int,
) -> (Seq<u8>, int)
    decreases es.len() - index,
{
    if index < 0 || index >= es.len() {
        (Seq::empty(), index)
    } else {
        let name = es[index];
        let reclen = align8(name.len() + 20int);
        if reclen > u16::MAX || cursor + reclen > count {
            (Seq::empty(), index)
        } else {
            let id = entry_identity(vfs, fs, f.mount, child_path(f.path, name));
            let rest = dirents_from(vfs, fs, f, es, index + 1, cursor + reclen, count);
            (dirent_bytes(id.0, (index + 1) as i64, id.1, name) + rest.0, rest.1)
        }
    }
}

/// `getdents64`: writes the records of the caller's open directory from its position on
/// that fit in `count` bytes, and moves the position past them.
pub open spec fn spec_getdents64(s: StateView, m: MemView, env: SyscallEnv, a: Seq<u64>) -> Step {
    match spec_parse_fd(a[0]) {
        Err(e) => stay(s, m, fail(e)),
        Ok(fd) => if a[2] > MAX_READ_BYTES {
            stay(s, m, fail(ERANGE))
        } else if a[2] == 0 {
            stay(s, m, ok(0))
        } else {
            let k = find_file(s.files, fd, env.process.process_id, 0);
            if k >= s.files.len() {
                stay(s, m, fail(EBADF))
            } else if s.files[k].kind != VfsNodeKind::Directory {
                stay(s, m, fail(ENOTDIR))
            } else {
                let f = s.files[k];
                match spec_dir_entries(f.content) {
                    None => stay(s, m, fail(EIO)),
                    Some(es) => if f.offset >= es.len() {
                        stay(s, m, ok(0))
                    } else {
                        let r = dirents_from(env.vfs, env.fs, f, es, f.offset as int, 0, a[2] as int);
                        if r.0.len() == 0 {
                            stay(s, m, fail(EINVAL))
                        } else {
                            match spec_put(m, a[1], r.0) {
                                Err(e) => stay(s, m, fail(e)),
                                Ok(m1) => stay(
                                    StateView {
                                        files: s.files.update(k, FileView { offset: r.1 as usize, ..f }),
                                        ..s
                                    },
                                    m1,
                                    ok(r.0.len() as i64),
                                ),
                            }
                        }
                    },
                }
            }
        },
    }
}

} // verus!

verus! {

fn child_path_for_entry(dir: &[u8], name: &[u8]) -> (p: Vec<u8>)
    ensures
        p@ == child_path(dir@, name@),
{
    let mut p = vstd::slice::slice_to_vec(dir);
    if dir.len() == 1 && dir[0] == 0x2f {
        assert(dir@ =~= seq![0x2fu8]);
        crate::bstr::push_all(&mut p, name);
        return p;
    }
    assert(dir@ != seq![0x2fu8]) by {
        if dir@ == seq![0x2fu8] {
            assert(dir@.len() == 1 && dir@[0] == 0x2f);
        }
    }
    if !(dir.len() > 0 && dir[dir.len() - 1] == 0x2f) {
        p.push(0x2f);
    }
    crate::bstr::push_all(&mut p, name);
    p
}

fn entry_identity_of(vfs: &Vfs, fs: &FileSystems, mount: VfsMountKind, child: &[u8]) -> (r: (u64, u8))
    requires
        fs.wf(),
    ensures
        r == entry_identity(*vfs, *fs, mount, child@),
{
    match crate::vfs::lookup_bytes(vfs, fs, child) {
        Some((n, node)) => {
            let text = lossy_bytes(n.as_slice());
            (hash_path_to_ino(node.mount, text.as_slice()), dirent_type_from_node(node.kind))
        },
        None => (hash_path_to_ino(mount, child), DT_UNKNOWN),
    }
}

proof fn lemma_align8(v: int)
    requires
        v >= 0,
    ensures
        v <= align8(v) <= v + 7,
        align8(v) % 8 == 0,
{
    assert(v <= ((v + 7) / 8) * 8 <= v + 7) by (nonlinear_arith)
        requires
            v >= 0,
    ;
    assert((((v + 7) / 8) * 8) % 8 == 0) by (nonlinear_arith);
}

fn push_dirent(out: &mut Vec<u8>, ino: u64, off: i64, d_type: u8, name: &[u8], reclen: usize)
    requires
        reclen == align8(name@.len() + 20int),
        reclen <= u16::MAX,
    ensures
        final(out)@ == old(out)@ + dirent_bytes(ino, off, d_type, name@),
        dirent_bytes(ino, off, d_type, name@).len() == reclen,
{
    proof {
        lemma_align8(name@.len() + 20int);
    }
    push_u64_le(out, ino);
    push_u64_le(out, off as u64);
    push_u16_le(out, reclen as u16);
    out.push(d_type);
    crate::bstr::push_all(out, name);
    let ghost head = old(out)@ + u64_le_bytes(ino) + u64_le_bytes(off as u64) + u16_le_bytes(reclen as u16) + seq![d_type]
        + name@;
    assert(out@ =~= head);
    let pad = reclen - 19 - name.len();
    let mut i: usize = 0;
    while i < pad
        invariant
            i <= pad,
            out@ == head + Seq::new(i as nat, |j: int| 0u8),
        decreases pad - i,
    {
        out.push(0);
        assert(out@ =~= head + Seq::new((i + 1) as nat, |j: int| 0u8));
        i = i + 1;
    }
    assert(out@ =~= old(out)@ + dirent_bytes(ino, off, d_type, name@));
}

#[verifier::rlimit(40)]
pub fn sys_getdents64(st: &mut SyscallState, mem: &mut UserMemory, env: &SyscallEnv, args: &[u64; 6]) -> (out: SyscallOutcome)
    requires
        env.wf(),
    ensures
        is_step(out, final(st)@, final(mem)@, spec_getdents64(old(st)@, old(mem)@, *env, args@)),
{
    let fd = match parse_fd(args[0]) {
        Err(e) => return SyscallOutcome::errno(e),
        Ok(fd) => fd,
    };
    let count = args[2];
    if count > MAX_READ_BYTES {
        return SyscallOutcome::errno(ERANGE);
    }
    if count == 0 {
        return SyscallOutcome::success(0);
    }
    let k = file_position(&st.files.files, fd, env.process.process_id);
    if k >= st.files.files.len() {
        return SyscallOutcome::errno(EBADF);
    }
    if st.files.files[k].kind != VfsNodeKind::Directory {
        return SyscallOutcome::errno(ENOTDIR);
    }
    let ghost f = file_views(st.files.files@)[k as int];
    let es = match directory_entry_names(st.files.files[k].content.as_slice()) {
        None => return SyscallOutcome::errno(EIO),
        Some(es) => es,
    };
    let ghost esv = crate::exec::byte_views(es@);
    let start = st.files.files[k].offset;
    if start >= es.len() {
        return SyscallOutcome::success(0);
    }
    let mut buf: Vec<u8> = Vec::new();
    let mut index: usize = start;
    let ghost goal = dirents_from(env.vfs, env.fs, f, esv, start as int, 0, count as int);
    while index < es.len()
        invariant
            start <= index <= es@.len(),
            esv == crate::exec::byte_views(es@),
            k < st.files.files@.len(),
            f == file_views(st.files.files@)[k as int],
            st@ == old(st)@,
            env.wf(),
            count <= MAX_READ_BYTES,
            buf@.len() <= count,
            goal == dirents_from(env.vfs, env.fs, f, esv, start as int, 0, count as int),
            goal == (
                buf@ + dirents_from(env.vfs, env.fs, f, esv, index as int, buf@.len() as int, count as int).0,
                dirents_from(env.vfs, env.fs, f, esv, index as int, buf@.len() as int, count as int).1,
            ),
        ensures
            goal == (buf@, dirents_from(env.vfs, env.fs, f, esv, index as int, buf@.len() as int, count as int).1),
            dirents_from(env.vfs, env.fs, f, esv, index as int, buf@.len() as int, count as int).1 == index,
            start <= index <= es@.len(),
        decreases es@.len() - index,
    {
        let name = &es[index];
        assert(name@ == esv[index as int]);
        if name.len() > 0xffff {
            proof {
                lemma_align8(name@.len() + 20int);
            }
            break;
        }
        let reclen = (name.len() + 20 + 7) / 8 * 8;
        proof {
            lemma_align8(name@.len() + 20int);
        }
        if reclen > 0xffff || buf.len() + reclen > count as usize {
            break;
        }
        let child = child_path_for_entry(st.files.files[k].path.as_slice(), name.as_slice());
        let (ino, d_type) = entry_identity_of(&env.vfs, &env.fs, st.files.files[k].mount, child.as_slice());
        let ghost before = buf@;
        push_dirent(&mut buf, ino, (index + 1) as i64, d_type, name.as_slice(), reclen);
        proof {
            let rest = dirents_from(env.vfs, env.fs, f, esv, index + 1, before.len() + reclen, count as int);
            assert(dirents_from(env.vfs, env.fs, f, esv, index as int, before.len() as int, count as int) == (
                dirent_bytes(ino, (index + 1) as i64, d_type, name@) + rest.0,
                rest.1,
            ));
            assert(before + (dirent_bytes(ino, (index + 1) as i64, d_type, name@) + rest.0) =~= buf@ + rest.0);
        }
        index = index + 1;
    }
    if buf.len() == 0 {
        return SyscallOutcome::errno(EINVAL);
    }
    match put_user(mem, buf.as_slice(), args[1]) {
        Err(e) => return SyscallOutcome::errno(e),
        Ok(()) => {},
    }
    set_offset(&mut st.files.files, k, index);
    SyscallOutcome::success(buf.len() as i64)
}

} // verus!
