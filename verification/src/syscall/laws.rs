use vstd::prelude::*;

use crate::syscall::dispatch::{spec_abi_call, spec_call, Call, SyscallAbi};
use crate::syscall::process::{fail, ok, stay, DEFAULT_PROCESS_UMASK, EBADF, ENOSYS, UMASK_MODE_MASK};
use crate::syscall::state::{StateView, SyscallEnv};
use crate::syscall::process::{default_rseq, spec_get, spec_put, Step};
use crate::syscall::state::{RobustList, RseqState, ROBUST_LIST_HEAD_SIZE, RSEQ_AREA_SIZE};
use crate::syscall::table::{lemma_lookup_after_purge, lemma_lookup_after_store};
use crate::syscall::task::{comm_name_from, name_array, robust_of, PR_GET_DUMPABLE, PR_GET_NAME, PR_SET_DUMPABLE, PR_SET_NAME, RSEQ_FLAG_UNREGISTER};
use crate::syscall::clock::MAX_READ_BYTES;
use crate::syscall::files::{find_file, lemma_find_file_bounds, spec_parse_fd, AT_FDCWD};
use crate::syscall::paths::{lemma_open_at_success, spec_open_at};
use crate::syscall::reads::{spec_read, spec_read_open, SEEK_CUR, SEEK_END, SEEK_SET};
use crate::syscall::state::FileView;
use crate::text::text_bytes;
use crate::uaccess::MemView;
use crate::vfs::VfsNodeKind;

verus! {

/// A number a personality does not know fails with `ENOSYS` and changes nothing.
pub proof fn lemma_unknown_call_changes_nothing(s: StateView, m: MemView, env: SyscallEnv, abi: SyscallAbi, number: u64, a: Seq<u64>)
    requires
        spec_abi_call(abi, number) == Call::Unknown,
    ensures
        spec_call(s, m, env, spec_abi_call(abi, number), a) == stay(s, m, fail(ENOSYS)),
{
}

/// `umask` answers with the mask the previous `umask` of the same process set.
pub proof fn lemma_umask_reads_back(s: StateView, m: MemView, env: SyscallEnv, a1: Seq<u64>, a2: Seq<u64>)
    requires
        a1.len() == 6,
        a2.len() == 6,
        a1[0] <= u32::MAX,
        a2[0] <= u32::MAX,
    ensures
        ({
            let first = spec_call(s, m, env, Call::Umask, a1);
            let second = spec_call(first.state, first.mem, env, Call::Umask, a2);
            second.out == ok((((a1[0] as u32) & UMASK_MODE_MASK) & UMASK_MODE_MASK) as i64)
        }),
{
    let pid = env.process.process_id;
    let requested = ((a1[0] as u32) & UMASK_MODE_MASK) & UMASK_MODE_MASK;
    lemma_lookup_after_store(s.umask, pid, 0, requested);
}

/// After its process group exits, a process starts again from the default file mode mask.
pub proof fn lemma_exit_group_resets_umask(s: StateView, m: MemView, env: SyscallEnv, a1: Seq<u64>, a2: Seq<u64>)
    requires
        a1.len() == 6,
        a2.len() == 6,
        a2[0] <= u32::MAX,
    ensures
        ({
            let exit = spec_call(s, m, env, Call::ExitGroup, a1);
            let next = spec_call(exit.state, exit.mem, env, Call::Umask, a2);
            next.out == ok(DEFAULT_PROCESS_UMASK as i64)
        }),
{
    lemma_lookup_after_purge(s.umask, env.process.process_id, 0);
}

/// A task name of sixteen bytes has a fixed-size array that holds exactly those bytes.
proof fn lemma_name_array_view(b: Seq<u8>)
    requires
        b.len() == 16,
    ensures
        name_array(b)@ == b,
{
    let a: [u8; 16] = [b[0], b[1], b[2], b[3], b[4], b[5], b[6], b[7], b[8], b[9], b[10], b[11], b[12], b[13], b[14], b[15]];
    assert(a@ =~= b);
}

/// `prctl(PR_GET_DUMPABLE)` answers with what `prctl(PR_SET_DUMPABLE)` set.
pub proof fn lemma_dumpable_reads_back(s: StateView, m: MemView, env: SyscallEnv, a1: Seq<u64>, a2: Seq<u64>)
    requires
        a1.len() == 6,
        a2.len() == 6,
        a1[0] == PR_SET_DUMPABLE as u64,
        a1[1] <= 1,
        a2[0] == PR_GET_DUMPABLE as u64,
    ensures
        ({
            let first = spec_call(s, m, env, Call::Prctl, a1);
            let second = spec_call(first.state, first.mem, env, Call::Prctl, a2);
            first.out == ok(0) && second.out == ok(a1[1] as i64)
        }),
{
    let pid = env.process.process_id;
    let current = crate::syscall::task::prctl_of(s, env, pid);
    lemma_lookup_after_store(s.prctl, pid, 0, crate::syscall::state::PrctlState { name: current.name, dumpable: a1[1] as i32 });
}

/// `prctl(PR_GET_NAME)` writes the name `prctl(PR_SET_NAME)` read: the bytes before the
/// first zero, at most fifteen, zero padded to sixteen.
pub proof fn lemma_task_name_reads_back(s: StateView, m: MemView, env: SyscallEnv, a1: Seq<u64>, a2: Seq<u64>)
    requires
        a1.len() == 6,
        a2.len() == 6,
        a1[0] == PR_SET_NAME as u64,
        a1[1] != 0,
        spec_get(m, a1[1], 16) is Ok,
        a2[0] == PR_GET_NAME as u64,
        a2[1] != 0,
    ensures
        ({
            let first = spec_call(s, m, env, Call::Prctl, a1);
            let second = spec_call(first.state, first.mem, env, Call::Prctl, a2);
            let name = comm_name_from(spec_get(m, a1[1], 16)->Ok_0);
            &&& first.out == ok(0)
            &&& match spec_put(m, a2[1], name) {
                Ok(m2) => second == (Step { out: ok(0), state: first.state, mem: m2 }),
                Err(e) => second.out == crate::syscall::process::fail(e),
            }
        }),
{
    let pid = env.process.process_id;
    let b = spec_get(m, a1[1], 16)->Ok_0;
    let dumpable = match crate::syscall::table::lookup(s.prctl, pid, 0) {
        Some(p) => p.dumpable,
        None => 1,
    };
    let rec = crate::syscall::state::PrctlState { name: name_array(comm_name_from(b)), dumpable };
    lemma_lookup_after_store(s.prctl, pid, 0, rec);
    lemma_name_array_view(comm_name_from(b));
}

/// After `set_robust_list`, the caller's robust list, which `get_robust_list` reports, is
/// the head and length it recorded.
pub proof fn lemma_robust_list_reads_back(s: StateView, m: MemView, env: SyscallEnv, a1: Seq<u64>)
    requires
        a1.len() == 6,
        a1[1] == ROBUST_LIST_HEAD_SIZE,
    ensures
        ({
            let first = spec_call(s, m, env, Call::SetRobustList, a1);
            first.out == ok(0) && robust_of(first.state, env.process.process_id) == (RobustList { head: a1[0], len: a1[1] })
        }),
{
    lemma_lookup_after_store(s.robust_lists, env.process.process_id, 0, RobustList { head: a1[0], len: a1[1] });
}

/// Unregistering the restartable-sequence area just registered, with the same address,
/// size and signature, succeeds and leaves the caller with no area.
pub proof fn lemma_rseq_unregister_undoes_register(s: StateView, m: MemView, env: SyscallEnv, a1: Seq<u64>, a2: Seq<u64>)
    requires
        a1.len() == 6,
        a2.len() == 6,
        a1[0] != 0,
        a1[1] == RSEQ_AREA_SIZE as u64,
        a1[2] == 0,
        a1[3] <= u32::MAX,
        a2[0] == a1[0],
        a2[1] == a1[1],
        a2[2] == RSEQ_FLAG_UNREGISTER as u64,
        a2[3] == a1[3],
    ensures
        ({
            let first = spec_call(s, m, env, Call::Rseq, a1);
            let second = spec_call(first.state, first.mem, env, Call::Rseq, a2);
            &&& first.out == ok(0)
            &&& second.out == ok(0)
            &&& crate::syscall::table::lookup(second.state.rseq, env.process.process_id, 0) == Some(default_rseq())
        }),
{
    let pid = env.process.process_id;
    let reg = RseqState { address: a1[0], length: a1[1] as u32, signature: a1[3] as u32, registered: true };
    lemma_lookup_after_store(s.rseq, pid, 0, reg);
    let first = spec_call(s, m, env, Call::Rseq, a1);
    assert((0u32 & !RSEQ_FLAG_UNREGISTER) == 0u32) by (bit_vector);
    assert((1u32 & !1u32) == 0u32) by (bit_vector);
    lemma_lookup_after_store(first.state.rseq, pid, 0, default_rseq());
}

/// A descriptor that no earlier file of `pid` has finds the file pushed last.
proof fn lemma_find_pushed_file(fs: Seq<FileView>, f: FileView, fd: i32, pid: u64, i: int)
    requires
        0 <= i <= fs.len(),
        f.fd == fd,
        f.owner_process_id == pid,
        forall|j: int| 0 <= j < fs.len() && fs[j].owner_process_id == pid ==> #[trigger] fs[j].fd != fd,
    ensures
        find_file(fs.push(f), fd, pid, i) == fs.len(),
    decreases fs.len() - i,
{
    if i < fs.len() {
        assert(fs.push(f)[i] == fs[i]);
        lemma_find_pushed_file(fs, f, fd, pid, i + 1);
    }
}

/// Reading from a file at position 0 found under `fd` gives its first bytes.
proof fn lemma_read_from_start(s: StateView, m: MemView, pid: u64, fd: i32, dst: u64, count: u64)
    requires
        s.files.len() > 0,
        find_file(s.files, fd, pid, 0) == s.files.len() - 1,
        s.files.last().offset == 0,
        s.files.last().kind != VfsNodeKind::Directory,
    ensures
        ({
            let f = s.files.last();
            let n = if count < f.content.len() { count as int } else { f.content.len() as int };
            let r = spec_read_open(s, m, pid, fd, dst, count);
            &&& count == 0 ==> r.0 == Ok::<i64, i64>(0)
            &&& count > 0 ==> match spec_put(m, dst, f.content.take(n)) {
                Ok(m1) => r.0 == Ok::<i64, i64>(n as i64) && r.2 == m1,
                Err(e) => r.0 == Err::<i64, i64>(e),
            }
        }),
{
    let f = s.files.last();
    let n = if count < f.content.len() { count as int } else { f.content.len() as int };
    if count > 0 && f.content.len() > 0 {
        assert(f.content.subrange(0, n) == f.content.take(n));
    }
    if count > 0 && f.content.len() == 0 {
        assert(f.content.take(0) =~= Seq::<u8>::empty());
    }
}

/// Reading at once from the descriptor an open returned gives the first bytes of the
/// node's text, as many as were asked for up to its length, when the caller has no other
/// file under that descriptor.
pub proof fn lemma_open_then_read_gives_first_bytes(
    s: StateView,
    m: MemView,
    env: SyscallEnv,
    open_call: Call,
    a1: Seq<u64>,
    a2: Seq<u64>,
)
    requires
        open_call == Call::OpenAt || open_call == Call::Open,
        a1.len() == 6,
        a2.len() == 6,
        forall|i: int|
            0 <= i < s.files.len() && s.files[i].owner_process_id == env.process.process_id ==> #[trigger] s.files[i].fd
                != s.next_fd,
        spec_call(s, m, env, open_call, a1).out.value >= 0,
        a2[0] == spec_call(s, m, env, open_call, a1).out.value as u64,
        a2[2] <= MAX_READ_BYTES,
    ensures
        ({
            let opened = spec_call(s, m, env, open_call, a1);
            let f = opened.state.files.last();
            let read = spec_call(opened.state, opened.mem, env, Call::Read, a2);
            let n = if a2[2] < f.content.len() { a2[2] as int } else { f.content.len() as int };
            &&& opened.state.files.len() > 0
            &&& opened.mem == m
            &&& f.offset == 0
            &&& crate::vfs::spec_read(env.vfs, env.fs, f.path) matches Some(b) && f.content == text_bytes(b)
            &&& f.kind != VfsNodeKind::Directory && a2[2] == 0 ==> read.out == ok(0)
            &&& f.kind != VfsNodeKind::Directory && a2[2] > 0 ==> match spec_put(m, a2[1], f.content.take(n)) {
                Ok(m1) => read.out == ok(n as i64) && read.mem == m1,
                Err(e) => read.out == fail(e),
            }
        }),
{
    let pid = env.process.process_id;
    let opened = spec_call(s, m, env, open_call, a1);
    if open_call == Call::OpenAt {
        assert(opened == spec_open_at(s, m, env, a1[0] as i64, a1[1], a1[2]));
        lemma_open_at_success(s, m, env, a1[0] as i64, a1[1], a1[2]);
    } else {
        assert(opened == spec_open_at(s, m, env, AT_FDCWD, a1[0], a1[1]));
        lemma_open_at_success(s, m, env, AT_FDCWD, a1[0], a1[1]);
    }
    let s1 = opened.state;
    let f = s1.files.last();
    let fd = s.next_fd;
    lemma_find_pushed_file(s.files, f, fd, pid, 0);
    assert(spec_parse_fd(a2[0]) == Ok::<i32, i64>(fd));
    let read = spec_call(s1, m, env, Call::Read, a2);
    assert(read == spec_read(s1, m, env, a2));
    if f.kind != VfsNodeKind::Directory {
        lemma_read_from_start(s1, m, pid, fd, a2[1], a2[2]);
    }
}

/// No file before the one `find_file` reports is `pid`'s under `fd`.
proof fn lemma_find_file_is_first(fs: Seq<FileView>, fd: i32, pid: u64, i: int)
    requires
        0 <= i <= fs.len(),
    ensures
        forall|j: int| i <= j < find_file(fs, fd, pid, i) ==> !(#[trigger] fs[j].fd == fd && fs[j].owner_process_id == pid),
    decreases fs.len() - i,
{
    if i < fs.len() && !(fs[i].fd == fd && fs[i].owner_process_id == pid) {
        lemma_find_file_is_first(fs, fd, pid, i + 1);
    }
}

/// With no file of `pid` under `fd` from `i` on, the search reports none.
proof fn lemma_find_file_absent(fs: Seq<FileView>, fd: i32, pid: u64, i: int)
    requires
        0 <= i <= fs.len(),
        forall|j: int| i <= j < fs.len() ==> !(#[trigger] fs[j].fd == fd && fs[j].owner_process_id == pid),
    ensures
        find_file(fs, fd, pid, i) == fs.len(),
    decreases fs.len() - i,
{
    if i < fs.len() {
        lemma_find_file_absent(fs, fd, pid, i + 1);
    }
}

proof fn lemma_close_read_core(s: StateView, m: MemView, env: SyscallEnv, a1: Seq<u64>, a2: Seq<u64>)
    requires
        a1.len() == 6,
        a2.len() == 6,
        forall|i: int, j: int|
            0 <= i < j < s.files.len() && s.files[i].owner_process_id == env.process.process_id
                && s.files[j].owner_process_id == env.process.process_id ==> #[trigger] s.files[i].fd
                != #[trigger] s.files[j].fd,
        crate::syscall::fdcalls::spec_close(s, m, env, a1).out == ok(0),
        a2[0] == a1[0],
        a2[2] <= MAX_READ_BYTES,
    ensures
        ({
            let closed = crate::syscall::fdcalls::spec_close(s, m, env, a1);
            spec_read(closed.state, closed.mem, env, a2).out == fail(EBADF)
        }),
{
    let pid = env.process.process_id;
    let closed = crate::syscall::fdcalls::spec_close(s, m, env, a1);
    let fd = a1[0] as i32;
    assert(spec_parse_fd(a1[0]) == Ok::<i32, i64>(fd));
    let k = find_file(s.files, fd, pid, 0);
    lemma_find_file_bounds(s.files, fd, pid, 0);
    lemma_find_file_is_first(s.files, fd, pid, 0);
    assert(k < s.files.len());
    let rest = s.files.remove(k);
    assert(closed.state.files == rest);
    assert forall|j: int| 0 <= j < rest.len() implies !(#[trigger] rest[j].fd == fd && rest[j].owner_process_id == pid) by {
        if j < k {
            assert(rest[j] == s.files[j]);
        } else {
            assert(rest[j] == s.files[j + 1]);
            if rest[j].fd == fd && rest[j].owner_process_id == pid {
                assert(s.files[k].fd != s.files[j + 1].fd);
            }
        }
    }
    lemma_find_file_absent(rest, fd, pid, 0);
}

/// Once `close` has released a descriptor, reading from it fails with `EBADF`, when the
/// caller had that descriptor once only.
pub proof fn lemma_close_then_read_fails(s: StateView, m: MemView, env: SyscallEnv, a1: Seq<u64>, a2: Seq<u64>)
    requires
        a1.len() == 6,
        a2.len() == 6,
        forall|i: int, j: int|
            0 <= i < j < s.files.len() && s.files[i].owner_process_id == env.process.process_id
                && s.files[j].owner_process_id == env.process.process_id ==> #[trigger] s.files[i].fd
                != #[trigger] s.files[j].fd,
        spec_call(s, m, env, Call::Close, a1).out == ok(0),
        a2[0] == a1[0],
        a2[2] <= MAX_READ_BYTES,
    ensures
        ({
            let closed = spec_call(s, m, env, Call::Close, a1);
            spec_call(closed.state, closed.mem, env, Call::Read, a2).out == fail(EBADF)
        }),
{
    let closed = crate::syscall::fdcalls::spec_close(s, m, env, a1);
    assert(spec_call(s, m, env, Call::Close, a1) == closed);
    lemma_close_read_core(s, m, env, a1, a2);
    assert(spec_call(closed.state, closed.mem, env, Call::Read, a2) == spec_read(closed.state, closed.mem, env, a2));
}

/// No file is left to `pid` once its files are dropped.
proof fn lemma_files_without_owner(fs: Seq<FileView>, pid: u64)
    ensures
        forall|j: int|
            0 <= j < crate::syscall::task::files_without(fs, pid).len() ==> (#[trigger] crate::syscall::task::files_without(
                fs,
                pid,
            )[j]).owner_process_id != pid,
    decreases fs.len(),
{
    if fs.len() > 0 {
        lemma_files_without_owner(fs.drop_last(), pid);
    }
}

/// After its process group exits, no descriptor of the process can be read: every read
/// fails with `EBADF`.
pub proof fn lemma_exit_group_then_read_fails(s: StateView, m: MemView, env: SyscallEnv, a1: Seq<u64>, a2: Seq<u64>)
    requires
        a1.len() == 6,
        a2.len() == 6,
        a2[2] <= MAX_READ_BYTES,
    ensures
        ({
            let exit = spec_call(s, m, env, Call::ExitGroup, a1);
            spec_call(exit.state, exit.mem, env, Call::Read, a2).out == fail(EBADF)
        }),
{
    let pid = env.process.process_id;
    let exit = spec_call(s, m, env, Call::ExitGroup, a1);
    assert(exit.state == crate::syscall::task::spec_purge(s, pid));
    let fs = exit.state.files;
    lemma_files_without_owner(s.files, pid);
    assert(spec_call(exit.state, exit.mem, env, Call::Read, a2) == spec_read(exit.state, exit.mem, env, a2));
    if a2[0] <= i32::MAX as u64 {
        lemma_find_file_absent(fs, a2[0] as i32, pid, 0);
    }
}


/// `lseek` sets the caller's position in a file to the offset counted from the start of the
/// file (`SEEK_SET`), from its current position (`SEEK_CUR`) or from the end of its contents
/// (`SEEK_END`), and answers with that position.
pub proof fn lemma_lseek_moves_from_base(s: StateView, m: MemView, env: SyscallEnv, a: Seq<u64>)
    requires
        a.len() == 6,
        a[0] <= i32::MAX,
        a[1] <= i64::MAX,
        find_file(s.files, a[0] as i32, env.process.process_id, 0) < s.files.len(),
        s.files[find_file(s.files, a[0] as i32, env.process.process_id, 0)].kind != VfsNodeKind::Directory,
        s.files[find_file(s.files, a[0] as i32, env.process.process_id, 0)].offset + a[1] <= i64::MAX,
        s.files[find_file(s.files, a[0] as i32, env.process.process_id, 0)].content.len() + a[1] <= i64::MAX,
    ensures
        ({
            let k = find_file(s.files, a[0] as i32, env.process.process_id, 0);
            let f = s.files[k];
            let r = spec_call(s, m, env, Call::Lseek, a);
            &&& a[2] == SEEK_SET as u64 ==> r.out == ok(a[1] as i64) && r.state.files == s.files.update(
                k,
                FileView { offset: a[1] as usize, ..f },
            )
            &&& a[2] == SEEK_CUR as u64 ==> r.out == ok((f.offset + a[1]) as i64) && r.state.files == s.files.update(
                k,
                FileView { offset: (f.offset + a[1]) as usize, ..f },
            )
            &&& a[2] == SEEK_END as u64 ==> r.out == ok((f.content.len() + a[1]) as i64) && r.state.files
                == s.files.update(k, FileView { offset: (f.content.len() + a[1]) as usize, ..f })
            &&& r.mem == m
        }),
{
    lemma_find_file_bounds(s.files, a[0] as i32, env.process.process_id, 0);
    assert(spec_call(s, m, env, Call::Lseek, a) == crate::syscall::dirs::spec_lseek(s, m, env, a));
}

/// Replacing a file by one under the same descriptor and owner leaves every search as it was.
proof fn lemma_find_file_after_update(fs: Seq<FileView>, k: int, g: FileView, fd: i32, pid: u64, i: int)
    requires
        0 <= k < fs.len(),
        0 <= i <= fs.len(),
        g.fd == fs[k].fd,
        g.owner_process_id == fs[k].owner_process_id,
    ensures
        find_file(fs.update(k, g), fd, pid, i) == find_file(fs, fd, pid, i),
    decreases fs.len() - i,
{
    if i < fs.len() {
        lemma_find_file_after_update(fs, k, g, fd, pid, i + 1);
    }
}

/// A successful read of the caller's file leaves that file where it was found, with its
/// position advanced by the number of bytes read.
proof fn lemma_read_advances(s: StateView, m: MemView, env: SyscallEnv, a: Seq<u64>)
    requires
        a.len() == 6,
        a[0] <= i32::MAX,
        find_file(s.files, a[0] as i32, env.process.process_id, 0) < s.files.len(),
        s.files[find_file(s.files, a[0] as i32, env.process.process_id, 0)].content.len() <= usize::MAX,
        spec_read(s, m, env, a).out.value >= 0,
    ensures
        ({
            let k = find_file(s.files, a[0] as i32, env.process.process_id, 0);
            let f = s.files[k];
            let r = spec_read(s, m, env, a);
            &&& find_file(r.state.files, a[0] as i32, env.process.process_id, 0) == k
            &&& r.state.files.len() == s.files.len()
            &&& r.state.files[k] == FileView { offset: (f.offset + r.out.value) as usize, ..f }
        }),
{
    let pid = env.process.process_id;
    let fd = a[0] as i32;
    let k = find_file(s.files, fd, pid, 0);
    lemma_find_file_bounds(s.files, fd, pid, 0);
    let f = s.files[k];
    let r = spec_read(s, m, env, a);
    if a[2] == 0 || f.kind == VfsNodeKind::Directory {
        assert(s.files.update(k, f) =~= s.files);
    } else {
        let bytes = crate::syscall::reads::take_at(f, f.offset as int, a[2] as int);
        let g = FileView { offset: (f.offset + bytes.len()) as usize, ..f };
        if let Ok(m1) = spec_put(m, a[1], bytes) {
            assert(r.state.files == s.files.update(k, g));
            lemma_find_file_after_update(s.files, k, g, fd, pid, 0);
        }
    }
}

/// A read that takes `n` bytes advances the caller's position by `n`: `lseek(fd, 0,
/// SEEK_CUR)` after it answers with the position the read started from plus `n`.
pub proof fn lemma_read_then_tell(s: StateView, m: MemView, env: SyscallEnv, a1: Seq<u64>, a2: Seq<u64>)
    requires
        a1.len() == 6,
        a2.len() == 6,
        a1[0] <= i32::MAX,
        a2[0] == a1[0],
        a2[1] == 0,
        a2[2] == SEEK_CUR as u64,
        find_file(s.files, a1[0] as i32, env.process.process_id, 0) < s.files.len(),
        s.files[find_file(s.files, a1[0] as i32, env.process.process_id, 0)].content.len() <= i64::MAX,
        s.files[find_file(s.files, a1[0] as i32, env.process.process_id, 0)].content.len() <= usize::MAX,
        s.files[find_file(s.files, a1[0] as i32, env.process.process_id, 0)].offset <= s.files[find_file(
            s.files,
            a1[0] as i32,
            env.process.process_id,
            0,
        )].content.len(),
        spec_call(s, m, env, Call::Read, a1).out.value >= 0,
    ensures
        ({
            let f = s.files[find_file(s.files, a1[0] as i32, env.process.process_id, 0)];
            let r = spec_call(s, m, env, Call::Read, a1);
            spec_call(r.state, r.mem, env, Call::Lseek, a2).out == ok((f.offset + r.out.value) as i64)
        }),
{
    let pid = env.process.process_id;
    let fd = a1[0] as i32;
    let k = find_file(s.files, fd, pid, 0);
    lemma_find_file_bounds(s.files, fd, pid, 0);
    let f = s.files[k];
    let r = spec_call(s, m, env, Call::Read, a1);
    assert(r == spec_read(s, m, env, a1));
    lemma_read_advances(s, m, env, a1);
    let s1 = r.state;
    assert(r.out.value <= f.content.len() - f.offset) by {
        if a1[2] != 0 && f.kind != VfsNodeKind::Directory {
            let bytes = crate::syscall::reads::take_at(f, f.offset as int, a1[2] as int);
            assert(bytes.len() <= f.content.len() - f.offset);
        }
    }
    if f.kind == VfsNodeKind::Directory {
        assert(false);
    }
    lemma_lseek_moves_from_base(s1, r.mem, env, a2);
}


proof fn lemma_find_reader_at(fs: Seq<FileView>, id: i32, pid: u64, k: int, i: int)
    requires
        0 <= i <= k < fs.len(),
        fs[k].pipe == crate::syscall::state::PipeRole::Reader(id),
        fs[k].owner_process_id == pid,
        forall|j: int|
            0 <= j < k ==> !(#[trigger] fs[j].pipe == crate::syscall::state::PipeRole::Reader(id)
                && fs[j].owner_process_id == pid),
    ensures
        crate::syscall::ipc::find_reader(fs, id, pid, i) == k,
    decreases k - i,
{
    if i < k {
        lemma_find_reader_at(fs, id, pid, k, i + 1);
    }
}

/// The pipe step of a write to the write end of pipe `rfd`: the bytes are appended to the
/// read end, found at `kr`.
#[verifier::rlimit(60)]
proof fn lemma_pipe_write_appends(s: StateView, m: MemView, env: SyscallEnv, a1: Seq<u64>, rfd: i32, kr: int)
    requires
        a1.len() == 6,
        3 <= a1[0] <= i32::MAX,
        find_file(s.files, a1[0] as i32, env.process.process_id, 0) < s.files.len(),
        s.files[find_file(s.files, a1[0] as i32, env.process.process_id, 0)].pipe
            == crate::syscall::state::PipeRole::Writer(rfd),
        crate::syscall::ipc::find_reader(s.files, rfd, env.process.process_id, 0) == kr,
        0 <= kr < s.files.len(),
        0 < a1[2] <= crate::syscall::console::MAX_WRITE_BYTES,
        spec_get(m, a1[1], a1[2]) is Ok,
    ensures
        ({
            let w = crate::syscall::console::spec_write_fd(s, m, env, a1);
            let b = spec_get(m, a1[1], a1[2])->Ok_0;
            &&& w.out == ok(a1[2] as i64)
            &&& w.mem == m
            &&& w.state.files == s.files.update(kr, FileView { content: s.files[kr].content + b, ..s.files[kr] })
        }),
{
    let w = crate::syscall::console::spec_write_fd(s, m, env, a1);
    assert(w == crate::syscall::ipc::spec_write_pipe(s, m, env.process.process_id, rfd, a1[1], a1[2]));
}

/// What is written to the write end of a pipe is what a read of its read end gives back:
/// with nothing left unread in the pipe, writing `len` bytes answers `len`, and reading `len`
/// bytes then puts exactly the written bytes at the read's buffer and answers `len`.
#[verifier::rlimit(60)]
pub proof fn lemma_pipe_write_then_read(s: StateView, m: MemView, env: SyscallEnv, a1: Seq<u64>, a2: Seq<u64>)
    requires
        a1.len() == 6,
        a2.len() == 6,
        3 <= a1[0] <= i32::MAX,
        3 <= a2[0] <= i32::MAX,
        find_file(s.files, a1[0] as i32, env.process.process_id, 0) < s.files.len(),
        s.files[find_file(s.files, a1[0] as i32, env.process.process_id, 0)].pipe
            == crate::syscall::state::PipeRole::Writer(a2[0] as i32),
        find_file(s.files, a2[0] as i32, env.process.process_id, 0) < s.files.len(),
        s.files[find_file(s.files, a2[0] as i32, env.process.process_id, 0)].pipe
            == crate::syscall::state::PipeRole::Reader(a2[0] as i32),
        s.files[find_file(s.files, a2[0] as i32, env.process.process_id, 0)].kind != VfsNodeKind::Directory,
        forall|j: int|
            0 <= j < find_file(s.files, a2[0] as i32, env.process.process_id, 0) ==> !(
            #[trigger] s.files[j].pipe == crate::syscall::state::PipeRole::Reader(a2[0] as i32)
                && s.files[j].owner_process_id == env.process.process_id),
        s.files[find_file(s.files, a2[0] as i32, env.process.process_id, 0)].offset
            == s.files[find_file(s.files, a2[0] as i32, env.process.process_id, 0)].content.len(),
        s.files[find_file(s.files, a2[0] as i32, env.process.process_id, 0)].content.len() + MAX_READ_BYTES <= usize::MAX,
        0 < a1[2] <= MAX_READ_BYTES,
        a1[2] <= crate::syscall::console::MAX_WRITE_BYTES,
        a2[2] == a1[2],
        spec_get(m, a1[1], a1[2]) is Ok,
    ensures
        ({
            let w = crate::syscall::console::spec_write_fd(s, m, env, a1);
            let r = spec_read(w.state, w.mem, env, a2);
            &&& w.out == ok(a1[2] as i64)
            &&& match spec_put(m, a2[1], spec_get(m, a1[1], a1[2])->Ok_0) {
                Ok(m1) => r.out == ok(a1[2] as i64) && r.mem == m1,
                Err(e) => r.out == fail(e),
            }
        }),
{
    let pid = env.process.process_id;
    let rfd = a2[0] as i32;
    let kr = find_file(s.files, rfd, pid, 0);
    lemma_find_file_bounds(s.files, rfd, pid, 0);
    lemma_find_reader_at(s.files, rfd, pid, kr, 0);
    lemma_pipe_write_appends(s, m, env, a1, rfd, kr);
    let w = crate::syscall::console::spec_write_fd(s, m, env, a1);
    let b = spec_get(m, a1[1], a1[2])->Ok_0;
    let f = s.files[kr];
    let g = FileView { content: f.content + b, ..f };
    lemma_find_file_after_update(s.files, kr, g, rfd, pid, 0);
    assert(b.len() == a1[2]);
    let bytes = crate::syscall::reads::take_at(g, g.offset as int, a2[2] as int);
    assert(bytes =~= b);
    let w = crate::syscall::console::spec_write_fd(s, m, env, a1);
    assert(w.state.files[kr] == g);
    assert(find_file(w.state.files, rfd, pid, 0) == kr);
    let ro = spec_read_open(w.state, m, pid, rfd, a2[1], a2[2]);
    assert(ro.0 is Ok ==> ro.0 == Ok::<i64, i64>(a2[2] as i64));
}


/// A break the caller moves to is the break it then reads: `brk(x)` for `x` at or above the
/// initial break answers `x`, and a following `brk(0)` answers `x` too. A request below the
/// initial break moves nothing: the query after it answers as the request did. The first
/// query of a process reports the initial break.
pub proof fn lemma_brk_reads_back(s: StateView, m: MemView, env: SyscallEnv, a1: Seq<u64>, a2: Seq<u64>)
    requires
        a1.len() == 6,
        a2.len() == 6,
        a2[0] == 0,
        a1[0] <= i64::MAX,
    ensures
        ({
            let r1 = crate::syscall::memory::spec_brk(s, m, env, a1);
            let r2 = crate::syscall::memory::spec_brk(r1.state, r1.mem, env, a2);
            &&& a1[0] >= crate::syscall::process::DEFAULT_PROCESS_BRK ==> r1.out == ok(a1[0] as i64) && r2.out == ok(
                a1[0] as i64,
            )
            &&& a1[0] < crate::syscall::process::DEFAULT_PROCESS_BRK ==> r2.out == r1.out
            &&& crate::syscall::table::lookup(s.brk, env.process.process_id, 0) is None && a1[0]
                < crate::syscall::process::DEFAULT_PROCESS_BRK ==> r1.out == ok(
                crate::syscall::process::DEFAULT_PROCESS_BRK as i64,
            )
        }),
{
    let pid = env.process.process_id;
    let d = crate::syscall::process::DEFAULT_PROCESS_BRK;
    lemma_lookup_after_store(s.brk, pid, 0, d);
    let s1 = match crate::syscall::table::lookup(s.brk, pid, 0) {
        Some(_) => s,
        None => StateView { brk: crate::syscall::table::store(s.brk, pid, 0, d), ..s },
    };
    lemma_lookup_after_store(s1.brk, pid, 0, a1[0]);
}

} // verus!
