use vstd::prelude::*;

use crate::le::{get_u16_le, get_u32_le, le_u16, le_u32, push_u16_le, u16_le_bytes, u32_le_bytes, u64_le_bytes, write_u32_le, write_u64_le};
use crate::syscall::calls::MAX_OPEN_FILES;
use crate::syscall::console::MAX_WRITE_BYTES;
use crate::syscall::files::{file_position, find_file, FD_CLOEXEC, O_CLOEXEC};
use crate::syscall::process::{fail, get_user, is_step, ok, put_user, spec_get, spec_put, stay, Step, SyscallOutcome, EINVAL, EMFILE, ENOSYS, EPERM, ERANGE};
use crate::syscall::state::{file_views, FileView, OpenFile, PipeRole, StateView, SyscallEnv, SyscallState};
use crate::syscall::table::lookup;
use crate::uaccess::{MemView, UserMemory};
use crate::vfs::{VfsMountKind, VfsNodeKind};

verus! {

pub const EAGAIN: i64 = 11;
pub const EPIPE: i64 = 32;

// ---------------------------------------------------------------------------
// arch_prctl.

pub const ARCH_SET_GS: u64 = 0x1001;
pub const ARCH_SET_FS: u64 = 0x1002;
pub const ARCH_GET_FS: u64 = 0x1003;
pub const ARCH_GET_GS: u64 = 0x1004;
/// The first address above the user half of the address space.
pub const USER_ADDRESS_LIMIT: u64 = 0x0000_8000_0000_0000;

/// The table slot of the base register a code names: 0 for FS, 1 for GS.
pub open spec fn arch_slot(code: u64) -> u32 {
    if code == ARCH_SET_FS || code == ARCH_GET_FS {
        0
    } else {
        1
    }
}

/// The caller's base in `slot`, 0 until one is set.
pub open spec fn arch_base_of(s: StateView, pid: u64, slot: u32) -> u64 {
    match lookup(s.arch_bases, pid, slot) {
        Some(v) => v,
        None => 0,
    }
}

/// `arch_prctl`: sets the FS or GS base to a user address, or writes the current one as
/// a `u64` to user memory; other codes fail with `EINVAL`.
pub open spec fn spec_arch_prctl(s: StateView, m: MemView, env: SyscallEnv, a: Seq<u64>) -> Step {
    let pid = env.process.process_id;
    if a[0] == ARCH_SET_FS || a[0] == ARCH_SET_GS {
        if a[1] >= USER_ADDRESS_LIMIT {
            stay(s, m, fail(EPERM))
        } else {
            Step {
                out: ok(0),
                state: StateView { arch_bases: crate::syscall::table::store(s.arch_bases, pid, arch_slot(a[0]), a[1]), ..s },
                mem: m,
            }
        }
    } else if a[0] == ARCH_GET_FS || a[0] == ARCH_GET_GS {
        match spec_put(m, a[1], u64_le_bytes(arch_base_of(s, pid, arch_slot(a[0])))) {
            Err(e) => stay(s, m, fail(e)),
            Ok(m1) => stay(s, m1, ok(0)),
        }
    } else {
        stay(s, m, fail(EINVAL))
    }
}

pub fn sys_arch_prctl(st: &mut SyscallState, mem: &mut UserMemory, env: &SyscallEnv, args: &[u64; 6]) -> (out: SyscallOutcome)
    ensures
        is_step(out, final(st)@, final(mem)@, spec_arch_prctl(old(st)@, old(mem)@, *env, args@)),
{
    let pid = env.process.process_id;
    let code = args[0];
    let slot: u32 = if code == ARCH_SET_FS || code == ARCH_GET_FS { 0 } else { 1 };
    if code == ARCH_SET_FS || code == ARCH_SET_GS {
        if args[1] >= USER_ADDRESS_LIMIT {
            return SyscallOutcome::errno(EPERM);
        }
        st.arch_bases.set(pid, slot, args[1]);
        SyscallOutcome::success(0)
    } else if code == ARCH_GET_FS || code == ARCH_GET_GS {
        let base = match st.arch_bases.get(pid, slot) {
            Some(v) => v,
            None => 0,
        };
        let bytes = write_u64_le(base);
        match put_user(mem, &bytes, args[1]) {
            Err(e) => SyscallOutcome::errno(e),
            Ok(()) => SyscallOutcome::success(0),
        }
    } else {
        SyscallOutcome::errno(EINVAL)
    }
}

// ---------------------------------------------------------------------------
// futex.

pub const FUTEX_WAIT: u64 = 0;
pub const FUTEX_WAKE: u64 = 1;
/// The bits of a futex operation that name the command.
pub const FUTEX_CMD_MASK: u64 = 0x7f;

/// `futex`, wait and wake on a 4-aligned user word. No other thread shares the caller's
/// memory, so a wait whose word holds the expected value returns at once as woken, a
/// wait on any other value fails with `EAGAIN`, and a wake wakes nobody.
pub open spec fn spec_futex(s: StateView, m: MemView, a: Seq<u64>) -> Step {
    let cmd = a[1] & FUTEX_CMD_MASK;
    if cmd != FUTEX_WAIT && cmd != FUTEX_WAKE {
        stay(s, m, fail(ENOSYS))
    } else if a[0] % 4 != 0 {
        stay(s, m, fail(EINVAL))
    } else if cmd == FUTEX_WAKE {
        stay(s, m, ok(0))
    } else {
        match spec_get(m, a[0], 4) {
            Err(e) => stay(s, m, fail(e)),
            Ok(b) => if le_u32(b, 0) != (a[2] as u32) as int {
                stay(s, m, fail(EAGAIN))
            } else {
                stay(s, m, ok(0))
            },
        }
    }
}

pub fn sys_futex(st: &mut SyscallState, mem: &UserMemory, args: &[u64; 6]) -> (out: SyscallOutcome)
    ensures
        is_step(out, final(st)@, mem@, spec_futex(old(st)@, mem@, args@)),
{
    let cmd = args[1] & FUTEX_CMD_MASK;
    if cmd != FUTEX_WAIT && cmd != FUTEX_WAKE {
        return SyscallOutcome::errno(ENOSYS);
    }
    if args[0] % 4 != 0 {
        return SyscallOutcome::errno(EINVAL);
    }
    if cmd == FUTEX_WAKE {
        return SyscallOutcome::success(0);
    }
    let b = match get_user(mem, args[0], 4) {
        Err(e) => return SyscallOutcome::errno(e),
        Ok(b) => b,
    };
    let word = get_u32_le(b.as_slice(), 0);
    if word != args[2] as u32 {
        SyscallOutcome::errno(EAGAIN)
    } else {
        SyscallOutcome::success(0)
    }
}

// ---------------------------------------------------------------------------
// Pipes.

pub const O_NONBLOCK: u64 = 0x800;

/// The name pipe ends carry.
pub open spec fn pipe_path() -> Seq<u8> {
    seq![0x70u8, 0x69u8, 0x70u8, 0x65u8, 0x3au8]
}

/// One end of a pipe, empty, owned by `pid`.
pub open spec fn pipe_end(fd: i32, role: PipeRole, pid: u64, flags: u64) -> FileView {
    FileView {
        fd,
        fd_flags: if flags & O_CLOEXEC != 0 { FD_CLOEXEC } else { 0 },
        owner_process_id: pid,
        mount: VfsMountKind::Root,
        kind: VfsNodeKind::Device,
        executable: false,
        path: pipe_path(),
        offset: 0,
        content: Seq::empty(),
        pipe: role,
    }
}

/// `pipe2`: a new pipe under the next two descriptors, read end first, both written as
/// `i32` to user memory; only `O_CLOEXEC` and `O_NONBLOCK` are accepted as flags.
pub open spec fn spec_pipe2(s: StateView, m: MemView, env: SyscallEnv, ptr: u64, flags: u64) -> Step {
    let pid = env.process.process_id;
    if flags & !(O_CLOEXEC | O_NONBLOCK) != 0 {
        stay(s, m, fail(EINVAL))
    } else if s.files.len() + 2 > MAX_OPEN_FILES {
        stay(s, m, fail(EMFILE))
    } else if s.next_fd < 0 || s.next_fd >= i32::MAX - 1 {
        stay(s, m, fail(ERANGE))
    } else {
        let r = s.next_fd;
        let w = (s.next_fd + 1) as i32;
        match spec_put(m, ptr, u32_le_bytes(r as u32) + u32_le_bytes(w as u32)) {
            Err(e) => stay(s, m, fail(e)),
            Ok(m1) => Step {
                out: ok(0),
                state: StateView {
                    next_fd: (s.next_fd + 2) as i32,
                    files: s.files.push(pipe_end(r, PipeRole::Reader(r), pid, flags)).push(
                        pipe_end(w, PipeRole::Writer(r), pid, flags),
                    ),
                    ..s
                },
                mem: m1,
            },
        }
    }
}

fn new_pipe_end(fd: i32, role: PipeRole, pid: u64, flags: u64) -> (f: OpenFile)
    ensures
        f@ == pipe_end(fd, role, pid, flags),
{
    let f = OpenFile {
        fd,
        fd_flags: if flags & O_CLOEXEC != 0 { FD_CLOEXEC } else { 0 },
        owner_process_id: pid,
        mount: VfsMountKind::Root,
        kind: VfsNodeKind::Device,
        executable: false,
        path: vec![0x70u8, 0x69u8, 0x70u8, 0x65u8, 0x3au8],
        offset: 0,
        content: Vec::new(),
        pipe: role,
    };
    assert(f.path@ =~= pipe_path());
    assert(f.content@ =~= Seq::<u8>::empty());
    f
}

pub fn sys_pipe2(st: &mut SyscallState, mem: &mut UserMemory, env: &SyscallEnv, ptr: u64, flags: u64) -> (out: SyscallOutcome)
    ensures
        is_step(out, final(st)@, final(mem)@, spec_pipe2(old(st)@, old(mem)@, *env, ptr, flags)),
{
    let pid = env.process.process_id;
    if flags & !(O_CLOEXEC | O_NONBLOCK) != 0 {
        return SyscallOutcome::errno(EINVAL);
    }
    if st.files.files.len() > (MAX_OPEN_FILES - 2) as usize {
        return SyscallOutcome::errno(EMFILE);
    }
    let r = st.files.next_fd;
    if r < 0 || r >= i32::MAX - 1 {
        return SyscallOutcome::errno(ERANGE);
    }
    let w = r + 1;
    let rb = write_u32_le(r as u32);
    let wb = write_u32_le(w as u32);
    let bytes = [rb[0], rb[1], rb[2], rb[3], wb[0], wb[1], wb[2], wb[3]];
    assert(bytes@ =~= u32_le_bytes(r as u32) + u32_le_bytes(w as u32));
    match put_user(mem, &bytes, ptr) {
        Err(e) => return SyscallOutcome::errno(e),
        Ok(()) => {},
    }
    let ghost before = file_views(st.files.files@);
    st.files.next_fd = r + 2;
    st.files.files.push(new_pipe_end(r, PipeRole::Reader(r), pid, flags));
    st.files.files.push(new_pipe_end(w, PipeRole::Writer(r), pid, flags));
    assert(file_views(st.files.files@) =~= before.push(pipe_end(r, PipeRole::Reader(r), pid, flags)).push(
        pipe_end(w, PipeRole::Writer(r), pid, flags),
    ));
    SyscallOutcome::success(0)
}

/// Index of the first read end of pipe `id` owned by `pid` from `i` on, or the number of files.
pub open spec fn find_reader(fs: Seq<FileView>, id: i32, pid: u64, i: int) -> int
    decreases fs.len() - i,
{
    if i < 0 || i >= fs.len() {
        fs.len() as int
    } else if fs[i].pipe == PipeRole::Reader(id) && fs[i].owner_process_id == pid {
        i
    } else {
        find_reader(fs, id, pid, i + 1)
    }
}

proof fn lemma_find_reader_bounds(fs: Seq<FileView>, id: i32, pid: u64, i: int)
    requires
        0 <= i <= fs.len(),
    ensures
        i <= find_reader(fs, id, pid, i) <= fs.len(),
        find_reader(fs, id, pid, i) < fs.len() ==> fs[find_reader(fs, id, pid, i)].pipe == PipeRole::Reader(id)
            && fs[find_reader(fs, id, pid, i)].owner_process_id == pid,
    decreases fs.len() - i,
{
    if i < fs.len() && !(fs[i].pipe == PipeRole::Reader(id) && fs[i].owner_process_id == pid) {
        lemma_find_reader_bounds(fs, id, pid, i + 1);
    }
}

fn reader_position(files: &Vec<OpenFile>, id: i32, pid: u64) -> (k: usize)
    ensures
        k == find_reader(file_views(files@), id, pid, 0),
{
    let ghost fs = file_views(files@);
    let mut i: usize = 0;
    while i < files.len()
        invariant
            i <= files@.len(),
            fs == file_views(files@),
            find_reader(fs, id, pid, 0) == find_reader(fs, id, pid, i as int),
        decreases files.len() - i,
    {
        if files[i].pipe == PipeRole::Reader(id) && files[i].owner_process_id == pid {
            return i;
        }
        i = i + 1;
    }
    i
}

/// Writing `len` user bytes at `ptr` into pipe `id`: they are added to what its read end
/// holds; with no read end the write fails with `EPIPE`.
pub open spec fn spec_write_pipe(s: StateView, m: MemView, pid: u64, id: i32, ptr: u64, len: u64) -> Step {
    let r = find_reader(s.files, id, pid, 0);
    if len > MAX_WRITE_BYTES {
        stay(s, m, fail(ERANGE))
    } else if r >= s.files.len() {
        stay(s, m, fail(EPIPE))
    } else if len == 0 {
        stay(s, m, ok(0))
    } else {
        match spec_get(m, ptr, len) {
            Err(e) => stay(s, m, fail(e)),
            Ok(b) => stay(
                StateView { files: s.files.update(r, FileView { content: s.files[r].content + b, ..s.files[r] }), ..s },
                m,
                ok(len as i64),
            ),
        }
    }
}

fn append_to_file(files: &mut Vec<OpenFile>, k: usize, data: &[u8])
    requires
        k < old(files)@.len(),
    ensures
        file_views(final(files)@) == file_views(old(files)@).update(
            k as int,
            FileView { content: file_views(old(files)@)[k as int].content + data@, ..file_views(old(files)@)[k as int] },
        ),
{
    let ghost olds = file_views(old(files)@);
    let mut f = files.remove(k);
    let ghost f0 = f@;
    assert(f0 == olds[k as int]);
    let ghost rest = files@;
    let mut i: usize = 0;
    while i < data.len()
        invariant
            i <= data@.len(),
            f@ == (FileView { content: f0.content + data@.take(i as int), ..f0 }),
        decreases data.len() - i,
    {
        f.content.push(data[i]);
        assert(f.content@ =~= f0.content + data@.take(i + 1));
        i = i + 1;
    }
    assert(data@.take(data@.len() as int) =~= data@);
    files.insert(k, f);
    assert forall|j: int| 0 <= j < olds.len() && j != k implies #[trigger] file_views(files@)[j] == olds[j] by {
        if j < k {
            assert(files@[j] == old(files)@[j]);
        } else {
            assert(files@[j] == old(files)@[j]);
        }
    }
    assert(file_views(files@) =~= file_views(old(files)@).update(
        k as int,
        FileView { content: file_views(old(files)@)[k as int].content + data@, ..file_views(old(files)@)[k as int] },
    ));
}

pub fn write_pipe(st: &mut SyscallState, mem: &UserMemory, pid: u64, id: i32, ptr: u64, len: u64) -> (out: SyscallOutcome)
    ensures
        is_step(out, final(st)@, mem@, spec_write_pipe(old(st)@, mem@, pid, id, ptr, len)),
{
    let r = reader_position(&st.files.files, id, pid);
    if len > MAX_WRITE_BYTES {
        return SyscallOutcome::errno(ERANGE);
    }
    if r >= st.files.files.len() {
        return SyscallOutcome::errno(EPIPE);
    }
    if len == 0 {
        return SyscallOutcome::success(0);
    }
    let b = match get_user(mem, ptr, len as usize) {
        Err(e) => return SyscallOutcome::errno(e),
        Ok(b) => b,
    };
    append_to_file(&mut st.files.files, r, b.as_slice());
    SyscallOutcome::success(len as i64)
}

// ---------------------------------------------------------------------------
// poll.

pub const POLLIN: u16 = 0x1;
pub const POLLOUT: u16 = 0x4;
pub const POLLNVAL: u16 = 0x20;
pub const MAX_POLL_FDS: u64 = 64;
/// The size of a `pollfd` record: descriptor, requested and returned events.
pub const POLLFD_SIZE: u64 = 8;

/// What descriptor `fd` of `pid` is ready for: standard output and error take writes, a
/// write end takes writes, a read end is readable while it holds unread bytes, another
/// open file is readable; a descriptor the caller does not have is invalid.
pub open spec fn ready_events(s: StateView, pid: u64, fd: i32) -> u16 {
    if fd == 1 || fd == 2 {
        POLLOUT
    } else {
        let k = find_file(s.files, fd, pid, 0);
        if k >= s.files.len() {
            POLLNVAL
        } else {
            match s.files[k].pipe {
                PipeRole::Writer(_) => POLLOUT,
                PipeRole::Reader(_) => if s.files[k].offset < s.files[k].content.len() {
                    POLLIN
                } else {
                    0
                },
                PipeRole::NotPipe => POLLIN,
            }
        }
    }
}

/// The events reported for a record asking `events` of `fd`: none for a negative
/// descriptor, `POLLNVAL` for an invalid one, else those asked for that are ready.
pub open spec fn returned_events(s: StateView, pid: u64, fd: i32, events: u16) -> u16 {
    if fd < 0 {
        0
    } else if ready_events(s, pid, fd) == POLLNVAL {
        POLLNVAL
    } else {
        ready_events(s, pid, fd) & events
    }
}

/// The first `n` records of `b` with their returned events filled in, and how many of
/// them report any event.
pub open spec fn poll_records(s: StateView, pid: u64, b: Seq<u8>, n: nat) -> (Seq<u8>, nat)
    decreases n,
{
    if n == 0 {
        (Seq::empty(), 0)
    } else {
        let prev = poll_records(s, pid, b, (n - 1) as nat);
        let i = (n - 1) * 8;
        let fd = (le_u32(b, i) as u32) as i32;
        let ev = le_u16(b, i + 4) as u16;
        let re = returned_events(s, pid, fd, ev);
        (prev.0 + b.subrange(i, i + 6) + u16_le_bytes(re), if re != 0 { prev.1 + 1 } else { prev.1 })
    }
}

/// `poll` of `nfds` records at `ptr`: the returned events are written back and the call
/// returns how many records report one. Nothing can become ready while the caller
/// waits, so it never waits, whatever the timeout.
pub open spec fn spec_poll(s: StateView, m: MemView, env: SyscallEnv, ptr: u64, nfds: u64) -> Step {
    if nfds > MAX_POLL_FDS {
        stay(s, m, fail(EINVAL))
    } else if nfds == 0 {
        stay(s, m, ok(0))
    } else {
        match spec_get(m, ptr, (nfds * POLLFD_SIZE) as u64) {
            Err(e) => stay(s, m, fail(e)),
            Ok(b) => {
                let r = poll_records(s, env.process.process_id, b, nfds as nat);
                match spec_put(m, ptr, r.0) {
                    Err(e) => stay(s, m, fail(e)),
                    Ok(m1) => stay(s, m1, ok(r.1 as i64)),
                }
            },
        }
    }
}

/// `ppoll`: `poll` with a signal mask, whose size must be that of the kernel's mask when
/// one is given.
pub open spec fn spec_ppoll(s: StateView, m: MemView, env: SyscallEnv, a: Seq<u64>) -> Step {
    if a[3] != 0 && a[4] != 8 {
        stay(s, m, fail(EINVAL))
    } else {
        spec_poll(s, m, env, a[0], a[1])
    }
}

fn ready_events_of(st: &SyscallState, pid: u64, fd: i32) -> (r: u16)
    ensures
        r == ready_events(st@, pid, fd),
{
    if fd == 1 || fd == 2 {
        return POLLOUT;
    }
    let k = file_position(&st.files.files, fd, pid);
    if k >= st.files.files.len() {
        return POLLNVAL;
    }
    let f = &st.files.files[k];
    assert(file_views(st.files.files@)[k as int] == f@);
    match f.pipe {
        PipeRole::Writer(_) => POLLOUT,
        PipeRole::Reader(_) => if f.offset < f.content.len() {
            POLLIN
        } else {
            0
        },
        PipeRole::NotPipe => POLLIN,
    }
}

fn fill_poll_records(st: &SyscallState, pid: u64, b: &Vec<u8>, n: usize) -> (r: (Vec<u8>, u64))
    requires
        n <= MAX_POLL_FDS,
        b@.len() == n * 8,
    ensures
        r.0@ == poll_records(st@, pid, b@, n as nat).0,
        r.1 == poll_records(st@, pid, b@, n as nat).1,
        r.1 <= n,
{
    let mut out: Vec<u8> = Vec::new();
    let mut count: u64 = 0;
    let mut j: usize = 0;
    while j < n
        invariant
            j <= n,
            n <= MAX_POLL_FDS,
            b@.len() == n * 8,
            out@ == poll_records(st@, pid, b@, j as nat).0,
            count == poll_records(st@, pid, b@, j as nat).1,
            count <= j,
        decreases n - j,
    {
        let i = j * 8;
        let fd = get_u32_le(b.as_slice(), i) as i32;
        let ev = get_u16_le(b.as_slice(), i + 4);
        let re: u16 = if fd < 0 {
            0
        } else {
            let ready = ready_events_of(st, pid, fd);
            if ready == POLLNVAL {
                POLLNVAL
            } else {
                ready & ev
            }
        };
        assert(re == returned_events(st@, pid, fd, ev));
        let mut k: usize = i;
        let ghost start = out@;
        while k < i + 6
            invariant
                i == j * 8,
                j < n,
                b@.len() == n * 8,
                i <= k <= i + 6,
                out@ == start + b@.subrange(i as int, k as int),
            decreases i + 6 - k,
        {
            out.push(b[k]);
            assert(out@ =~= start + b@.subrange(i as int, k + 1));
            k = k + 1;
        }
        push_u16_le(&mut out, re);
        if re != 0 {
            count = count + 1;
        }
        j = j + 1;
    }
    (out, count)
}

pub fn sys_poll(st: &mut SyscallState, mem: &mut UserMemory, env: &SyscallEnv, ptr: u64, nfds: u64) -> (out: SyscallOutcome)
    ensures
        is_step(out, final(st)@, final(mem)@, spec_poll(old(st)@, old(mem)@, *env, ptr, nfds)),
{
    if nfds > MAX_POLL_FDS {
        return SyscallOutcome::errno(EINVAL);
    }
    if nfds == 0 {
        return SyscallOutcome::success(0);
    }
    let b = match get_user(mem, ptr, (nfds * POLLFD_SIZE) as usize) {
        Err(e) => return SyscallOutcome::errno(e),
        Ok(b) => b,
    };
    let (records, count) = fill_poll_records(st, env.process.process_id, &b, nfds as usize);
    match put_user(mem, records.as_slice(), ptr) {
        Err(e) => SyscallOutcome::errno(e),
        Ok(()) => SyscallOutcome::success(count as i64),
    }
}

pub fn sys_ppoll(st: &mut SyscallState, mem: &mut UserMemory, env: &SyscallEnv, args: &[u64; 6]) -> (out: SyscallOutcome)
    ensures
        is_step(out, final(st)@, final(mem)@, spec_ppoll(old(st)@, old(mem)@, *env, args@)),
{
    if args[3] != 0 && args[4] != 8 {
        return SyscallOutcome::errno(EINVAL);
    }
    sys_poll(st, mem, env, args[0], args[1])
}

} // verus!
