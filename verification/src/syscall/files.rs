use vstd::prelude::*;
use vstd::string::StringSliceAdditionalSpecFns;

use crate::le::{push_u16_le, push_u32_le, push_u64_le, u16_le_bytes, u32_le_bytes, u64_le_bytes};
use crate::syscall::calls::MAX_OPEN_FILES;
use crate::syscall::process::{fail, is_step, ok, put_user, spec_put, stay, Step, SyscallOutcome, EBADF, EMFILE, ERANGE};
use crate::syscall::state::{file_views, i64_le_bytes, FileView, OpenFile, StateView, SyscallState};
use crate::uaccess::{MemView, UserMemory};
use crate::vfs::{VfsMountKind, VfsNodeKind};

verus! {

pub const AT_FDCWD: i64 = -100;
pub const FD_CLOEXEC: u32 = 1;
pub const O_ACCMODE: u64 = 0x3;
pub const O_RDONLY: u64 = 0;
pub const O_DIRECTORY: u64 = 0x10000;
pub const O_CLOEXEC: u64 = 0x80000;
pub const O_CREAT: u64 = 0x40;
pub const O_TRUNC: u64 = 0x200;
pub const O_APPEND: u64 = 0x400;
pub const S_IFREG: u32 = 0o100000;
pub const S_IFDIR: u32 = 0o040000;
pub const S_IFCHR: u32 = 0o020000;
pub const DT_UNKNOWN: u8 = 0;
pub const DT_CHR: u8 = 2;
pub const DT_DIR: u8 = 4;
pub const DT_REG: u8 = 8;

// ---------------------------------------------------------------------------
// Finding open files.

/// A descriptor argument fits in an `i32`; otherwise it is a bad descriptor.
pub open spec fn spec_parse_fd(v: u64) -> Result<i32, i64> {
    if v > i32::MAX as u64 {
        Err(EBADF)
    } else {
        Ok(v as i32)
    }
}

pub fn parse_fd(v: u64) -> (r: Result<i32, i64>)
    ensures
        r == spec_parse_fd(v),
{
    if v > i32::MAX as u64 {
        Err(EBADF)
    } else {
        Ok(v as i32)
    }
}

/// Index of the first open file of `pid` with descriptor `fd` from `i` on, or the number of files.
pub open spec fn find_file(fs: Seq<FileView>, fd: i32, pid: u64, i: int) -> int
    decreases fs.len() - i,
{
    if i < 0 || i >= fs.len() {
        fs.len() as int
    } else if fs[i].fd == fd && fs[i].owner_process_id == pid {
        i
    } else {
        find_file(fs, fd, pid, i + 1)
    }
}

pub proof fn lemma_find_file_bounds(fs: Seq<FileView>, fd: i32, pid: u64, i: int)
    requires
        0 <= i <= fs.len(),
    ensures
        i <= find_file(fs, fd, pid, i) <= fs.len(),
        find_file(fs, fd, pid, i) < fs.len() ==> fs[find_file(fs, fd, pid, i)].fd == fd
            && fs[find_file(fs, fd, pid, i)].owner_process_id == pid,
    decreases fs.len() - i,
{
    if i < fs.len() && !(fs[i].fd == fd && fs[i].owner_process_id == pid) {
        lemma_find_file_bounds(fs, fd, pid, i + 1);
    }
}

/// `pid` has descriptor `fd` open.
pub open spec fn has_file(fs: Seq<FileView>, fd: i32, pid: u64) -> bool {
    find_file(fs, fd, pid, 0) < fs.len()
}

pub fn file_position(files: &Vec<OpenFile>, fd: i32, pid: u64) -> (k: usize)
    ensures
        k == find_file(file_views(files@), fd, pid, 0),
        k <= files@.len(),
{
    proof {
        lemma_find_file_bounds(file_views(files@), fd, pid, 0);
    }
    let mut i: usize = 0;
    while i < files.len()
        invariant
            i <= files@.len(),
            find_file(file_views(files@), fd, pid, 0) == find_file(file_views(files@), fd, pid, i as int),
        decreases files@.len() - i,
    {
        if files[i].fd == fd && files[i].owner_process_id == pid {
            return i;
        }
        i = i + 1;
    }
    i
}

/// Moves the position of open file `k`.
pub fn set_offset(files: &mut Vec<OpenFile>, k: usize, offset: usize)
    requires
        k < old(files)@.len(),
    ensures
        file_views(final(files)@) == file_views(old(files)@).update(
            k as int,
            FileView { offset, ..file_views(old(files)@)[k as int] },
        ),
{
    let mut f = files.remove(k);
    f.offset = offset;
    files.insert(k, f);
    assert(file_views(files@) =~= file_views(old(files)@).update(
        k as int,
        FileView { offset, ..file_views(old(files)@)[k as int] },
    ));
}

/// A copy of an open file under another descriptor and descriptor flags.
pub fn copy_open_file(f: &OpenFile, fd: i32, fd_flags: u32) -> (c: OpenFile)
    ensures
        c@ == (FileView { fd, fd_flags, ..f@ }),
{
    OpenFile {
        fd,
        fd_flags,
        owner_process_id: f.owner_process_id,
        mount: f.mount,
        kind: f.kind,
        executable: f.executable,
        path: vstd::slice::slice_to_vec(f.path.as_slice()),
        offset: f.offset,
        pipe: f.pipe,
        content: vstd::slice::slice_to_vec(f.content.as_slice()),
    }
}

// ---------------------------------------------------------------------------
// Node attributes.

/// The device number of each mount.
pub open spec fn spec_mount_device_id(mount: VfsMountKind) -> u64 {
    match mount {
        VfsMountKind::Root => 1,
        VfsMountKind::Devfs => 2,
        VfsMountKind::Initrd => 3,
        VfsMountKind::Procfs => 4,
    }
}

pub fn mount_device_id(mount: VfsMountKind) -> (d: u64)
    ensures
        d == spec_mount_device_id(mount),
{
    match mount {
        VfsMountKind::Root => 1,
        VfsMountKind::Devfs => 2,
        VfsMountKind::Initrd => 3,
        VfsMountKind::Procfs => 4,
    }
}

/// The file mode of a node: read-only files and directories, executables, character devices.
pub open spec fn spec_mode_from_node(kind: VfsNodeKind, executable: bool) -> u32 {
    match kind {
        VfsNodeKind::Directory => S_IFDIR | 0o555,
        VfsNodeKind::File => if executable {
            S_IFREG | 0o555
        } else {
            S_IFREG | 0o444
        },
        VfsNodeKind::Device => S_IFCHR | 0o666,
    }
}

pub fn mode_from_node(kind: VfsNodeKind, executable: bool) -> (m: u32)
    ensures
        m == spec_mode_from_node(kind, executable),
{
    match kind {
        VfsNodeKind::Directory => S_IFDIR | 0o555,
        VfsNodeKind::File => if executable {
            S_IFREG | 0o555
        } else {
            S_IFREG | 0o444
        },
        VfsNodeKind::Device => S_IFCHR | 0o666,
    }
}

/// Directories can be searched, files run when marked executable, devices never.
pub open spec fn spec_is_executable_node(kind: VfsNodeKind, executable: bool) -> bool {
    match kind {
        VfsNodeKind::Directory => true,
        VfsNodeKind::File => executable,
        VfsNodeKind::Device => false,
    }
}

pub fn is_executable_node(kind: VfsNodeKind, executable: bool) -> (b: bool)
    ensures
        b == spec_is_executable_node(kind, executable),
{
    match kind {
        VfsNodeKind::Directory => true,
        VfsNodeKind::File => executable,
        VfsNodeKind::Device => false,
    }
}

/// The directory-entry type of a node.
pub open spec fn spec_dirent_type(kind: VfsNodeKind) -> u8 {
    match kind {
        VfsNodeKind::Directory => DT_DIR,
        VfsNodeKind::File => DT_REG,
        VfsNodeKind::Device => DT_CHR,
    }
}

pub fn dirent_type_from_node(kind: VfsNodeKind) -> (t: u8)
    ensures
        t == spec_dirent_type(kind),
{
    match kind {
        VfsNodeKind::Directory => DT_DIR,
        VfsNodeKind::File => DT_REG,
        VfsNodeKind::Device => DT_CHR,
    }
}

/// FNV-1a over `bytes`, starting from `h`.
pub open spec fn fnv(h: u64, bytes: Seq<u8>) -> u64
    decreases bytes.len(),
{
    if bytes.len() == 0 {
        h
    } else {
        vstd::wrapping::u64_specs::wrapping_mul(fnv(h, bytes.drop_last()) ^ (bytes.last() as u64), 0x100000001b3)
    }
}

/// The inode number of a path: FNV-1a over the mount's device number and the path, never 0.
pub open spec fn spec_ino(mount: VfsMountKind, path: Seq<u8>) -> u64 {
    let h = fnv(0xcbf29ce484222325u64, u64_le_bytes(spec_mount_device_id(mount)) + path);
    if h == 0 {
        1
    } else {
        h
    }
}

pub fn hash_path_to_ino(mount: VfsMountKind, path: &[u8]) -> (ino: u64)
    ensures
        ino == spec_ino(mount, path@),
{
    let mut bytes: Vec<u8> = Vec::new();
    push_u64_le(&mut bytes, mount_device_id(mount));
    crate::bstr::push_all(&mut bytes, path);
    let mut h: u64 = 0xcbf29ce484222325u64;
    let mut i: usize = 0;
    while i < bytes.len()
        invariant
            i <= bytes@.len(),
            h == fnv(0xcbf29ce484222325u64, bytes@.take(i as int)),
        decreases bytes@.len() - i,
    {
        proof {
            assert(bytes@.take(i + 1).drop_last() =~= bytes@.take(i as int));
        }
        h = (h ^ (bytes[i] as u64)).wrapping_mul(0x100000001b3);
        i = i + 1;
    }
    assert(bytes@.take(bytes@.len() as int) =~= bytes@);
    if h == 0 {
        1
    } else {
        h
    }
}

/// The 144 bytes of a `stat` record for a node of `size` bytes at `path`, with the time since boot.
pub open spec fn stat_bytes(mount: VfsMountKind, kind: VfsNodeKind, executable: bool, size: u64, path: Seq<u8>, uptime_ns: u64) -> Seq<u8> {
    let dev = spec_mount_device_id(mount);
    let secs = (uptime_ns / 1_000_000_000) as i64;
    let nanos = (uptime_ns % 1_000_000_000) as i64;
    u64_le_bytes(dev) + u64_le_bytes(spec_ino(mount, path)) + u64_le_bytes(1) + u32_le_bytes(
        spec_mode_from_node(kind, executable),
    ) + u32_le_bytes(0) + u32_le_bytes(0) + u32_le_bytes(0) + u64_le_bytes(
        if kind == VfsNodeKind::Device { dev } else { 0 },
    ) + i64_le_bytes(size as i64) + i64_le_bytes(4096) + i64_le_bytes(((size + 511) / 512) as i64) + i64_le_bytes(secs)
        + i64_le_bytes(nanos) + i64_le_bytes(secs) + i64_le_bytes(nanos) + i64_le_bytes(secs) + i64_le_bytes(nanos)
        + u64_le_bytes(0) + u64_le_bytes(0) + u64_le_bytes(0)
}

/// The `stat` record of a node, or `ERANGE` when its size does not fit in an `i64`.
pub open spec fn spec_build_stat(mount: VfsMountKind, kind: VfsNodeKind, executable: bool, size: u64, path: Seq<u8>, uptime_ns: u64) -> Result<Seq<u8>, i64> {
    if size > i64::MAX as u64 {
        Err(ERANGE)
    } else {
        Ok(stat_bytes(mount, kind, executable, size, path, uptime_ns))
    }
}

fn push_stat_head(out: &mut Vec<u8>, mount: VfsMountKind, kind: VfsNodeKind, executable: bool, path: &[u8])
    ensures
        final(out)@ == old(out)@ + u64_le_bytes(spec_mount_device_id(mount)) + u64_le_bytes(spec_ino(mount, path@))
            + u64_le_bytes(1) + u32_le_bytes(spec_mode_from_node(kind, executable)) + u32_le_bytes(0) + u32_le_bytes(0)
            + u32_le_bytes(0) + u64_le_bytes(if kind == VfsNodeKind::Device { spec_mount_device_id(mount) } else { 0 }),
{
    let dev = mount_device_id(mount);
    push_u64_le(out, dev);
    push_u64_le(out, hash_path_to_ino(mount, path));
    push_u64_le(out, 1);
    push_u32_le(out, mode_from_node(kind, executable));
    push_u32_le(out, 0);
    push_u32_le(out, 0);
    push_u32_le(out, 0);
    push_u64_le(out, if kind == VfsNodeKind::Device { dev } else { 0 });
}

fn push_stat_times(out: &mut Vec<u8>, uptime_ns: u64)
    ensures
        final(out)@ == old(out)@ + i64_le_bytes((uptime_ns / 1_000_000_000) as i64) + i64_le_bytes(
            (uptime_ns % 1_000_000_000) as i64,
        ) + i64_le_bytes((uptime_ns / 1_000_000_000) as i64) + i64_le_bytes((uptime_ns % 1_000_000_000) as i64)
            + i64_le_bytes((uptime_ns / 1_000_000_000) as i64) + i64_le_bytes((uptime_ns % 1_000_000_000) as i64),
{
    let secs = (uptime_ns / 1_000_000_000) as i64;
    let nanos = (uptime_ns % 1_000_000_000) as i64;
    push_u64_le(out, secs as u64);
    push_u64_le(out, nanos as u64);
    push_u64_le(out, secs as u64);
    push_u64_le(out, nanos as u64);
    push_u64_le(out, secs as u64);
    push_u64_le(out, nanos as u64);
}

pub fn build_linux_stat(mount: VfsMountKind, kind: VfsNodeKind, executable: bool, size: u64, path: &[u8], uptime_ns: u64) -> (r: Result<Vec<u8>, i64>)
    ensures
        match spec_build_stat(mount, kind, executable, size, path@, uptime_ns) {
            Ok(b) => r matches Ok(v) && v@ == b,
            Err(e) => r == Err::<Vec<u8>, i64>(e),
        },
{
    if size > i64::MAX as u64 {
        return Err(ERANGE);
    }
    let mut out: Vec<u8> = Vec::new();
    push_stat_head(&mut out, mount, kind, executable, path);
    let ghost head = out@;
    push_u64_le(&mut out, size);
    push_u64_le(&mut out, 4096);
    push_u64_le(&mut out, (size + 511) / 512);
    let ghost mid = out@;
    push_stat_times(&mut out, uptime_ns);
    let ghost times = out@;
    push_u64_le(&mut out, 0);
    push_u64_le(&mut out, 0);
    push_u64_le(&mut out, 0);
    proof {
        assert((size as i64) as u64 == size);
        assert((4096i64) as u64 == 4096u64);
        assert((((size + 511) / 512) as i64) as u64 == ((size + 511) / 512) as u64);
        assert(out@ =~= stat_bytes(mount, kind, executable, size, path@, uptime_ns));
    }
    Ok(out)
}

} // verus!
