use vstd::prelude::*;

use crate::le::{le_u64, u16_le_bytes, u32_le_bytes, u64_le_bytes};
use crate::syscall::table::{lookup, store, without, Entry, Table};
use crate::vfs::{FileSystems, VfsMountKind, VfsNodeKind, Vfs};

verus! {

// ---------------------------------------------------------------------------
// Records exchanged with user memory.

/// Seconds and nanoseconds.
#[derive(Copy, Clone, PartialEq, Eq, Structural, Debug)]
pub struct LinuxTimespec {
    pub tv_sec: i64,
    pub tv_nsec: i64,
}

/// A signal's disposition.
#[derive(Copy, Clone, PartialEq, Eq, Structural, Debug)]
pub struct LinuxKernelSigAction {
    pub handler: u64,
    pub flags: u64,
    pub restorer: u64,
    pub mask: u64,
}

/// One buffer of a vectored transfer.
#[derive(Copy, Clone, PartialEq, Eq, Structural, Debug)]
pub struct LinuxIovec {
    pub iov_base: u64,
    pub iov_len: u64,
}

/// Seconds and microseconds.
#[derive(Copy, Clone, PartialEq, Eq, Structural, Debug)]
pub struct LinuxTimeval {
    pub tv_sec: i64,
    pub tv_usec: i64,
}

/// A soft and a hard resource limit.
#[derive(Copy, Clone, PartialEq, Eq, Structural, Debug)]
pub struct LinuxRlimit64 {
    pub rlim_cur: u64,
    pub rlim_max: u64,
}

/// A terminal's size in characters and pixels.
#[derive(Copy, Clone, PartialEq, Eq, Structural, Debug)]
pub struct LinuxWinsize {
    pub ws_row: u16,
    pub ws_col: u16,
    pub ws_xpixel: u16,
    pub ws_ypixel: u16,
}

/// The eight little-endian bytes of an `i64`.
pub open spec fn i64_le_bytes(x: i64) -> Seq<u8> {
    u64_le_bytes(x as u64)
}

/// The 16 bytes of a `timespec`.
pub open spec fn timespec_bytes(t: LinuxTimespec) -> Seq<u8> {
    i64_le_bytes(t.tv_sec) + i64_le_bytes(t.tv_nsec)
}

/// The 16 bytes of a `timeval`.
pub open spec fn timeval_bytes(t: LinuxTimeval) -> Seq<u8> {
    i64_le_bytes(t.tv_sec) + i64_le_bytes(t.tv_usec)
}

/// The 32 bytes of a `sigaction`.
pub open spec fn sigaction_bytes(a: LinuxKernelSigAction) -> Seq<u8> {
    u64_le_bytes(a.handler) + u64_le_bytes(a.flags) + u64_le_bytes(a.restorer) + u64_le_bytes(a.mask)
}

/// The `sigaction` that 32 bytes hold.
pub open spec fn sigaction_from(b: Seq<u8>) -> LinuxKernelSigAction {
    LinuxKernelSigAction {
        handler: le_u64(b, 0) as u64,
        flags: le_u64(b, 8) as u64,
        restorer: le_u64(b, 16) as u64,
        mask: le_u64(b, 24) as u64,
    }
}

/// The 16 bytes of an `rlimit64`.
pub open spec fn rlimit_bytes(l: LinuxRlimit64) -> Seq<u8> {
    u64_le_bytes(l.rlim_cur) + u64_le_bytes(l.rlim_max)
}

/// The `rlimit64` that 16 bytes hold.
pub open spec fn rlimit_from(b: Seq<u8>) -> LinuxRlimit64 {
    LinuxRlimit64 { rlim_cur: le_u64(b, 0) as u64, rlim_max: le_u64(b, 8) as u64 }
}

/// The `iovec` that 16 bytes hold.
pub open spec fn iovec_from(b: Seq<u8>) -> LinuxIovec {
    LinuxIovec { iov_base: le_u64(b, 0) as u64, iov_len: le_u64(b, 8) as u64 }
}

/// The 8 bytes of a `winsize`.
pub open spec fn winsize_bytes(w: LinuxWinsize) -> Seq<u8> {
    u16_le_bytes(w.ws_row) + u16_le_bytes(w.ws_col) + u16_le_bytes(w.ws_xpixel) + u16_le_bytes(w.ws_ypixel)
}

/// Size of a robust-list head: three 64-bit words.
pub const ROBUST_LIST_HEAD_SIZE: u64 = 24;

/// Size of a restartable-sequence area.
pub const RSEQ_AREA_SIZE: u32 = 32;

/// Signature a restartable-sequence area is registered with by default.
pub const RSEQ_SIGNATURE: u32 = 0x5305_3053;

/// Length of a task name, with its terminating zero.
pub const TASK_COMM_LEN: usize = 16;

// ---------------------------------------------------------------------------
// Per-process values.

/// Process group and session of a process.
#[derive(Copy, Clone, PartialEq, Eq, Structural, Debug)]
pub struct GroupIds {
    pub process_group_id: u64,
    pub session_id: u64,
}

/// Task name and dumpable flag of a process.
#[derive(Copy, Clone)]
pub struct PrctlState {
    pub name: [u8; 16],
    pub dumpable: i32,
}

/// A registered robust futex list.
#[derive(Copy, Clone, PartialEq, Eq, Structural, Debug)]
pub struct RobustList {
    pub head: u64,
    pub len: u64,
}

/// A restartable-sequence registration.
#[derive(Copy, Clone, PartialEq, Eq, Structural, Debug)]
pub struct RseqState {
    pub address: u64,
    pub length: u32,
    pub signature: u32,
    pub registered: bool,
}

/// An anonymous mapping of a process.
#[derive(Copy, Clone, PartialEq, Eq, Structural, Debug)]
pub struct ProcessMapping {
    pub process_id: u64,
    pub base: u64,
    pub len: u64,
    pub prot: u64,
}

/// The working directory of a process.
pub struct ProcessCwd {
    pub process_id: u64,
    pub path: Vec<u8>,
}

/// Whether an open file is an end of a pipe, and of which: a pipe is named by the
/// descriptor its read end was first given.
#[derive(Copy, Clone, PartialEq, Eq, Structural, Debug)]
pub enum PipeRole {
    NotPipe,
    Reader(i32),
    Writer(i32),
}

/// A file a process has open: a snapshot of the node's contents and a position in it.
/// The read end of a pipe holds what was written to the pipe.
pub struct OpenFile {
    pub fd: i32,
    pub fd_flags: u32,
    pub owner_process_id: u64,
    pub mount: VfsMountKind,
    pub kind: VfsNodeKind,
    pub executable: bool,
    pub path: Vec<u8>,
    pub offset: usize,
    pub content: Vec<u8>,
    pub pipe: PipeRole,
}

/// What an open file holds.
pub struct FileView {
    pub fd: i32,
    pub fd_flags: u32,
    pub owner_process_id: u64,
    pub mount: VfsMountKind,
    pub kind: VfsNodeKind,
    pub executable: bool,
    pub path: Seq<u8>,
    pub offset: usize,
    pub content: Seq<u8>,
    pub pipe: PipeRole,
}

impl View for OpenFile {
    type V = FileView;

    open spec fn view(&self) -> FileView {
        FileView {
            fd: self.fd,
            fd_flags: self.fd_flags,
            owner_process_id: self.owner_process_id,
            mount: self.mount,
            kind: self.kind,
            executable: self.executable,
            path: self.path@,
            offset: self.offset,
            content: self.content@,
            pipe: self.pipe,
        }
    }
}

/// The open files of all processes and the descriptor the next open takes.
pub struct FdTable {
    pub next_fd: i32,
    pub files: Vec<OpenFile>,
}

/// The values a system call reads from the scheduler, the clock and the console.
pub struct ProcessContext {
    pub process_id: u64,
    pub parent_process_id: u64,
    pub thread_id: u64,
    pub thread_name: Vec<u8>,
    pub uptime_ns: u64,
    pub tty_rows: u64,
    pub tty_columns: u64,
}

/// What system calls run against: the file tree and the calling process.
pub struct SyscallEnv {
    pub vfs: Vfs,
    pub fs: FileSystems,
    pub process: ProcessContext,
}

impl SyscallEnv {
    pub open spec fn wf(&self) -> bool {
        self.fs.wf()
    }
}

/// Everything system calls keep between calls, for all processes, and the text they
/// wrote to the console that has not been taken yet.
pub struct SyscallState {
    pub files: FdTable,
    pub cwd: Vec<ProcessCwd>,
    pub umask: Table<u32>,
    pub clear_tid: Table<u64>,
    pub mappings: Vec<ProcessMapping>,
    pub brk: Table<u64>,
    pub signal_masks: Table<u64>,
    pub signal_actions: Table<LinuxKernelSigAction>,
    pub groups: Table<GroupIds>,
    pub rlimits: Table<LinuxRlimit64>,
    pub prctl: Table<PrctlState>,
    pub robust_lists: Table<RobustList>,
    pub rseq: Table<RseqState>,
    pub arch_bases: Table<u64>,
    pub console: Vec<u8>,
}

/// The contents of the system call state.
pub struct StateView {
    pub next_fd: i32,
    pub files: Seq<FileView>,
    pub cwd: Seq<(u64, Seq<u8>)>,
    pub umask: Seq<Entry<u32>>,
    pub clear_tid: Seq<Entry<u64>>,
    pub mappings: Seq<ProcessMapping>,
    pub brk: Seq<Entry<u64>>,
    pub signal_masks: Seq<Entry<u64>>,
    pub signal_actions: Seq<Entry<LinuxKernelSigAction>>,
    pub groups: Seq<Entry<GroupIds>>,
    pub rlimits: Seq<Entry<LinuxRlimit64>>,
    pub prctl: Seq<Entry<PrctlState>>,
    pub robust_lists: Seq<Entry<RobustList>>,
    pub rseq: Seq<Entry<RseqState>>,
    pub arch_bases: Seq<Entry<u64>>,
    pub console: Seq<u8>,
}

/// The views of the open files.
pub open spec fn file_views(fs: Seq<OpenFile>) -> Seq<FileView> {
    Seq::new(fs.len(), |i: int| fs[i]@)
}

/// The working directories as process and path.
pub open spec fn cwd_views(cs: Seq<ProcessCwd>) -> Seq<(u64, Seq<u8>)> {
    Seq::new(cs.len(), |i: int| (cs[i].process_id, cs[i].path@))
}

impl View for SyscallState {
    type V = StateView;

    open spec fn view(&self) -> StateView {
        StateView {
            next_fd: self.files.next_fd,
            files: file_views(self.files.files@),
            cwd: cwd_views(self.cwd@),
            umask: self.umask.entries@,
            clear_tid: self.clear_tid.entries@,
            mappings: self.mappings@,
            brk: self.brk.entries@,
            signal_masks: self.signal_masks.entries@,
            signal_actions: self.signal_actions.entries@,
            groups: self.groups.entries@,
            rlimits: self.rlimits.entries@,
            prctl: self.prctl.entries@,
            robust_lists: self.robust_lists.entries@,
            rseq: self.rseq.entries@,
            arch_bases: self.arch_bases.entries@,
            console: self.console@,
        }
    }
}

impl SyscallState {
    /// No process has state yet; descriptors start at 3.
    pub fn new() -> (s: Self)
        ensures
            s@.next_fd == 3,
            s@.files.len() == 0,
            s@.cwd.len() == 0,
            s@.umask.len() == 0,
            s@.clear_tid.len() == 0,
            s@.mappings.len() == 0,
            s@.brk.len() == 0,
            s@.signal_masks.len() == 0,
            s@.signal_actions.len() == 0,
            s@.groups.len() == 0,
            s@.rlimits.len() == 0,
            s@.prctl.len() == 0,
            s@.robust_lists.len() == 0,
            s@.rseq.len() == 0,
            s@.arch_bases.len() == 0,
            s@.console.len() == 0,
    {
        let s = SyscallState {
            files: FdTable { next_fd: 3, files: Vec::new() },
            cwd: Vec::new(),
            umask: Table::new(),
            clear_tid: Table::new(),
            mappings: Vec::new(),
            brk: Table::new(),
            signal_masks: Table::new(),
            signal_actions: Table::new(),
            groups: Table::new(),
            rlimits: Table::new(),
            prctl: Table::new(),
            robust_lists: Table::new(),
            rseq: Table::new(),
            arch_bases: Table::new(),
            console: Vec::new(),
        };
        assert(file_views(s.files.files@) =~= Seq::<FileView>::empty());
        assert(cwd_views(s.cwd@) =~= Seq::<(u64, Seq<u8>)>::empty());
        s
    }

    /// Hands out the console text written so far and forgets it.
    pub fn take_console(&mut self) -> (text: Vec<u8>)
        ensures
            text@ == old(self)@.console,
            final(self)@ == (StateView { console: Seq::empty(), ..old(self)@ }),
    {
        let mut text: Vec<u8> = Vec::new();
        std::mem::swap(&mut text, &mut self.console);
        proof {
            assert(self@.console =~= Seq::<u8>::empty());
        }
        text
    }
}

} // verus!
