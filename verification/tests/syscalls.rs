use lib::arch::cpu::probe;
use lib::arch::cpuid::{read_identity, CpuidResult};
use lib::arch::interrupts::{
    decode_syscall_abi, handle_syscall_frame, run_syscall_self_test, syscall_abi_selector, SyscallRegisterFrame,
};
use lib::block::BlockRegistry;
use lib::compress::store::StoreCounters;
use lib::devfs::Devfs;
use lib::fat::FatSummary;
use lib::initrd::Initrd;
use lib::mm::frame::FrameAllocator;
use lib::mm::heap::BumpAllocator;
use lib::mm::pager::PagerState;
use lib::procfs::{Procfs, ProcfsSources};
use lib::sched::Scheduler;
use lib::syscall::dispatch::{
    dispatch, SyscallAbi, GHOST_SYS_OPEN, GHOST_SYS_READ, LINUX_SYS_ARCH_PRCTL, LINUX_SYS_FUTEX, LINUX_SYS_PIPE,
    LINUX_SYS_PIPE2, LINUX_SYS_POLL, LINUX_SYS_PPOLL, HXNU_NATIVE_ABI_VERSION, HXNU_SYS_ABI_VERSION, HXNU_SYS_PROCESS_SELF, LINUX_SYS_CLOSE,
    LINUX_SYS_EXIT_GROUP, LINUX_SYS_GETPID, LINUX_SYS_GET_ROBUST_LIST, LINUX_SYS_PRCTL, LINUX_SYS_SET_ROBUST_LIST, LINUX_SYS_GETUID, LINUX_SYS_MMAP, LINUX_SYS_OPENAT, LINUX_SYS_READ,
    LINUX_SYS_UMASK, LINUX_SYS_UNAME, LINUX_SYS_WRITE,
};
use lib::syscall::probe::{run_ghost_bootstrap_probe, run_hxnu_bootstrap_probe, run_linux_bootstrap_probe};
use lib::syscall::process::SyscallAction;
use lib::syscall::state::{ProcessContext, SyscallEnv, SyscallState};
use lib::syscall::table::Table;
use lib::tty::TtyStats;
use lib::uaccess::UserMemory;
use lib::vfs::{lookup, preview, read, FileSystems, Vfs};

const BASE: u64 = 0x40_0000;

fn cpu_info() -> lib::arch::cpu::CpuInfo {
    let zero = CpuidResult { eax: 0, ebx: 0, ecx: 0, edx: 0 };
    let leaf0 = CpuidResult {
        eax: 0x16,
        ebx: u32::from_le_bytes(*b"Genu"),
        ecx: u32::from_le_bytes(*b"ntel"),
        edx: u32::from_le_bytes(*b"ineI"),
    };
    let identity = read_identity(leaf0, zero, zero, [zero, zero, zero]);
    probe(&identity, zero, zero, zero, 0)
}

fn sources() -> ProcfsSources {
    ProcfsSources {
        uptime_ns: 0,
        frame: FrameAllocator::new().stats(),
        heap: BumpAllocator::new().stats(),
        sched: Scheduler::new().stats(0),
        topology: None,
        init_exec_status: b"armed no\n".to_vec(),
        exec_status: Vec::new(),
        store_initialized: false,
        stored_pages: 0,
        store: StoreCounters {
            store_requests: 0,
            store_successes: 0,
            load_requests: 0,
            load_successes: 0,
            load_misses: 0,
            replacements: 0,
            evictions: 0,
            encode_failures: 0,
            decode_failures: 0,
            total_input_bytes: 0,
            total_encoded_bytes: 0,
        },
        pager_initialized: false,
        pager: PagerState::new().stats(),
        fat_initialized: false,
        fat: FatSummary::offline(),
    }
}

fn env() -> SyscallEnv {
    let mut procfs = Procfs::new();
    lib::procfs::initialize(&mut procfs, &cpu_info()).unwrap();
    let blocks = BlockRegistry::new();
    let tty = TtyStats { console_id: 0, output_count: 1, bytes_written: 0, lines_written: 0 };
    let mut devfs = Devfs::new();
    lib::devfs::initialize(&mut devfs, &blocks, &tty).unwrap();
    let fs = FileSystems { initrd: Initrd::new(), devfs, procfs, blocks, tty, proc_sources: sources() };
    let mut vfs = Vfs::new();
    lib::vfs::initialize(&mut vfs, &fs).unwrap();
    SyscallEnv {
        vfs,
        fs,
        process: ProcessContext {
            process_id: 7,
            parent_process_id: 1,
            thread_id: 9,
            thread_name: b"bootstrap".to_vec(),
            uptime_ns: 5_000_000_123,
            tty_rows: 25,
            tty_columns: 80,
        },
    }
}

fn memory() -> UserMemory {
    UserMemory { base: BASE, bytes: vec![0u8; 4096] }
}

fn put(mem: &mut UserMemory, offset: usize, data: &[u8]) -> u64 {
    mem.bytes[offset..offset + data.len()].copy_from_slice(data);
    BASE + offset as u64
}

#[test]
fn identity_calls_report_the_process() {
    let env = env();
    let mut st = SyscallState::new();
    let mut mem = memory();
    let linux = SyscallAbi::LinuxBootstrap;
    assert_eq!(dispatch(&mut st, &mut mem, &env, linux, LINUX_SYS_GETPID, [0; 6]).value, 7);
    assert_eq!(dispatch(&mut st, &mut mem, &env, linux, LINUX_SYS_GETUID, [0; 6]).value, 0);
    let native = SyscallAbi::HxnuNativeBootstrap;
    assert_eq!(dispatch(&mut st, &mut mem, &env, native, HXNU_SYS_PROCESS_SELF, [0; 6]).value, 7);
    assert_eq!(dispatch(&mut st, &mut mem, &env, native, HXNU_SYS_ABI_VERSION, [0; 6]).value, HXNU_NATIVE_ABI_VERSION);
}

#[test]
fn unknown_call_fails_with_enosys() {
    let env = env();
    let mut st = SyscallState::new();
    let mut mem = memory();
    let out = dispatch(&mut st, &mut mem, &env, SyscallAbi::LinuxBootstrap, 9999, [0; 6]);
    assert_eq!(out.value, -38);
    assert_eq!(out.action, SyscallAction::Continue);
}

#[test]
fn write_goes_to_the_console() {
    let env = env();
    let mut st = SyscallState::new();
    let mut mem = memory();
    let ptr = put(&mut mem, 0, b"hello\n");
    let out = dispatch(&mut st, &mut mem, &env, SyscallAbi::LinuxBootstrap, LINUX_SYS_WRITE, [1, ptr, 6, 0, 0, 0]);
    assert_eq!(out.value, 6);
    assert_eq!(st.take_console(), b"hello\n".to_vec());
    assert_eq!(st.take_console(), Vec::<u8>::new());
    let bad = dispatch(&mut st, &mut mem, &env, SyscallAbi::LinuxBootstrap, LINUX_SYS_WRITE, [1, 0, 6, 0, 0, 0]);
    assert_eq!(bad.value, -14);
}

#[test]
fn open_read_close_proc_version() {
    let env = env();
    let mut st = SyscallState::new();
    let mut mem = memory();
    let linux = SyscallAbi::LinuxBootstrap;
    let path = put(&mut mem, 0, b"/proc/version\0");
    let fd = dispatch(&mut st, &mut mem, &env, linux, LINUX_SYS_OPENAT, [(-100i64) as u64, path, 0, 0, 0, 0]).value;
    assert!(fd >= 3);
    let buf = BASE + 256;
    let n = dispatch(&mut st, &mut mem, &env, linux, LINUX_SYS_READ, [fd as u64, buf, 64, 0, 0, 0]).value;
    assert_eq!(n, 17);
    assert_eq!(&mem.bytes[256..256 + 17], b"HXNU 2605 x86_64\n");
    let again = dispatch(&mut st, &mut mem, &env, linux, LINUX_SYS_READ, [fd as u64, buf, 64, 0, 0, 0]).value;
    assert_eq!(again, 0);
    assert_eq!(dispatch(&mut st, &mut mem, &env, linux, LINUX_SYS_CLOSE, [fd as u64, 0, 0, 0, 0, 0]).value, 0);
    assert_eq!(dispatch(&mut st, &mut mem, &env, linux, LINUX_SYS_READ, [fd as u64, buf, 64, 0, 0, 0]).value, -9);
    let missing = put(&mut mem, 512, b"/proc/missing\0");
    let err = dispatch(&mut st, &mut mem, &env, linux, LINUX_SYS_OPENAT, [(-100i64) as u64, missing, 0, 0, 0, 0]);
    assert_eq!(err.value, -2);
}

#[test]
fn open_then_read_gives_the_first_bytes() {
    let env = env();
    let mut st = SyscallState::new();
    let mut mem = memory();
    let ghost = SyscallAbi::GhostBootstrap;
    let path = put(&mut mem, 0, b"/proc/version\0");
    let fd = dispatch(&mut st, &mut mem, &env, ghost, GHOST_SYS_OPEN, [path, 0, 0, 0, 0, 0]).value;
    assert_eq!(fd, 3);
    let buf = BASE + 256;
    assert_eq!(dispatch(&mut st, &mut mem, &env, ghost, GHOST_SYS_READ, [fd as u64, buf, 4, 0, 0, 0]).value, 4);
    assert_eq!(&mem.bytes[256..260], b"HXNU");
    let second = dispatch(&mut st, &mut mem, &env, ghost, GHOST_SYS_OPEN, [path, 0, 0, 0, 0, 0]).value;
    assert_eq!(second, 4);
    assert_eq!(dispatch(&mut st, &mut mem, &env, ghost, GHOST_SYS_READ, [second as u64, buf, 0, 0, 0, 0]).value, 0);
}

#[test]
fn uname_fills_the_record() {
    let env = env();
    let mut st = SyscallState::new();
    let mut mem = memory();
    let out = dispatch(&mut st, &mut mem, &env, SyscallAbi::LinuxBootstrap, LINUX_SYS_UNAME, [BASE + 1024, 0, 0, 0, 0, 0]);
    assert_eq!(out.value, 0);
    assert_eq!(&mem.bytes[1024..1030], b"Linux\0");
    assert_eq!(&mem.bytes[1024 + 260..1024 + 267], b"x86_64\0");
}

#[test]
fn umask_returns_the_previous_mask() {
    let env = env();
    let mut st = SyscallState::new();
    let mut mem = memory();
    let linux = SyscallAbi::LinuxBootstrap;
    assert_eq!(dispatch(&mut st, &mut mem, &env, linux, LINUX_SYS_UMASK, [0o077, 0, 0, 0, 0, 0]).value, 0o022);
    assert_eq!(dispatch(&mut st, &mut mem, &env, linux, LINUX_SYS_UMASK, [0o022, 0, 0, 0, 0, 0]).value, 0o077);
}

#[test]
fn mmap_maps_zero_pages() {
    let env = env();
    let mut st = SyscallState::new();
    let mut mem = memory();
    let out = dispatch(&mut st, &mut mem, &env, SyscallAbi::LinuxBootstrap, LINUX_SYS_MMAP, [0, 4096, 3, 0x22, u64::MAX, 0]);
    assert_eq!(out.value as u64, BASE + 4096);
    assert_eq!(mem.bytes.len(), 8192);
}

#[test]
fn exit_group_ends_the_process_group() {
    let env = env();
    let mut st = SyscallState::new();
    let mut mem = memory();
    let out = dispatch(&mut st, &mut mem, &env, SyscallAbi::LinuxBootstrap, LINUX_SYS_EXIT_GROUP, [17, 0, 0, 0, 0, 0]);
    assert_eq!(out.value, 0);
    assert_eq!(out.action, SyscallAction::ExitGroup { status: 17 });
}

#[test]
fn linux_probe_reports_results() {
    let env = env();
    let mut st = SyscallState::new();
    let mut mem = UserMemory { base: BASE, bytes: vec![0u8; 4096] };
    let p = run_linux_bootstrap_probe(&mut st, &mut mem, &env);
    assert_eq!(p.write_result, 48);
    assert!(p.openat_result >= 0);
    assert_eq!(p.read_result, 17);
    assert_eq!(p.pread64_result, 17);
    assert_eq!(p.pwrite64_result, -30);
    assert_eq!(p.readv_result, 0);
    assert_eq!(p.lseek_result, 0);
    assert_eq!(p.close_result, 0);
    assert_eq!(p.nanosleep_result, 0);
    assert_eq!(p.brk_result, 0x4000_0000);
    assert_eq!(p.getpid_result, 7);
    assert_eq!(p.getppid_result, 1);
    assert_eq!(p.gettid_result, 9);
    assert_eq!(p.getuid_result, 0);
    assert_eq!(p.sched_yield_result, 0);
    assert_eq!(p.umask_result, 0o022);
    assert_eq!(p.umask_restore_result, 0o077);
    assert_eq!(p.wait4_result, 0);
    assert_eq!(p.prctl_set_dumpable_result, 0);
    assert_eq!(p.prctl_get_dumpable_result, 1);
    assert_eq!(p.set_robust_list_result, 0);
    assert_eq!(p.rseq_register_result, 0);
    assert_eq!(p.rseq_unregister_result, 0);
    assert_eq!(p.uname_result, 0);
    assert_eq!(p.machine_str(), "x86_64");
    assert!(p.exit_group_captured);
    assert_eq!(p.exit_group_status, 17);
    let console = st.take_console();
    assert!(console.starts_with(b"HXNU: linux syscall write() compatibility smoke\n"));
}

#[test]
fn ghost_and_native_probes_report_results() {
    let env = env();
    let mut st = SyscallState::new();
    let mut mem = UserMemory { base: BASE, bytes: vec![0u8; 4096] };
    let g = run_ghost_bootstrap_probe(&mut st, &mut mem, &env);
    assert_eq!(g.uptime_result, 5_000_000_123);
    assert_eq!(g.yield_result, 0);
    assert_eq!(g.machine_str(), "x86_64");
    assert_eq!(g.brk_result, 0x4000_0000);
    assert_eq!(g.brk_set_result, 0x4000_1000);
    assert_eq!(g.brk_restore_result, 0x4000_0000);
    assert_eq!(g.read_result, 17);
    assert_eq!(g.exit_group_status, 19);
    let mut st2 = SyscallState::new();
    let mut mem2 = UserMemory { base: BASE, bytes: vec![0u8; 4096] };
    let h = run_hxnu_bootstrap_probe(&mut st2, &mut mem2, &env);
    assert_eq!(h.abi_version_result, HXNU_NATIVE_ABI_VERSION);
    assert_eq!(h.process_self_result, 7);
    assert_eq!(h.thread_self_result, 9);
    assert_eq!(h.write_result, 49);
    assert_eq!(h.nanosleep_result, 0);
    assert_eq!(h.read_result, 17);
    assert_eq!(h.exit_group_status, 23);
}

#[test]
fn probe_without_memory_reports_defaults() {
    let env = env();
    let mut st = SyscallState::new();
    let mut mem = UserMemory { base: BASE, bytes: Vec::new() };
    let p = run_linux_bootstrap_probe(&mut st, &mut mem, &env);
    assert_eq!(p.write_result, -14);
    assert!(p.openat_result < 0);
    assert_eq!(p.read_result, -9);
    assert_eq!(p.lseek_result, -9);
    assert_eq!(p.getuid_result, 0);
    assert_eq!(p.exit_group_status, 17);
}

#[test]
fn trap_gate_self_test() {
    let env = env();
    let mut st = SyscallState::new();
    let mut mem = memory();
    let t = run_syscall_self_test(&mut st, &mut mem, &env);
    assert_eq!(t.linux_write_result, 39);
    assert!(t.linux_openat_result >= 0);
    assert_eq!(t.linux_read_result, 17);
    assert_eq!(t.linux_close_result, 0);
    assert_eq!(t.linux_getpid_result, 7);
    assert_eq!(t.ghost_read_result, 17);
    assert_eq!(t.ghost_gettid_result, 9);
    assert_eq!(t.hxnu_read_result, 17);
    assert_eq!(t.ghost_close_result, 0);
    assert_eq!(t.hxnu_close_result, 0);
    assert_eq!(t.hxnu_abi_version_result, HXNU_NATIVE_ABI_VERSION);
}

#[test]
fn trap_frame_selector_and_unknown_personality() {
    for abi in [SyscallAbi::LinuxBootstrap, SyscallAbi::GhostBootstrap, SyscallAbi::HxnuNativeBootstrap] {
        assert_eq!(decode_syscall_abi(syscall_abi_selector(abi)), Some(abi));
    }
    assert_eq!(decode_syscall_abi(3), None);
    let env = env();
    let mut st = SyscallState::new();
    let mut mem = memory();
    let frame = SyscallRegisterFrame {
        rax: LINUX_SYS_GETPID,
        rbx: 0,
        rcx: 0,
        rdx: 0,
        rsi: 0,
        rdi: 0,
        r8: 0,
        r9: 0,
        r10: 0,
        r11: 0,
        r12: 7,
        r13: 0,
        r14: 0,
        r15: 0,
    };
    assert_eq!(handle_syscall_frame(&mut st, &mut mem, &env, &frame), ((-38i64) as u64, SyscallAction::Continue));
    let linux = SyscallRegisterFrame { r12: 0, ..frame };
    assert_eq!(handle_syscall_frame(&mut st, &mut mem, &env, &linux), (7, SyscallAction::Continue));
}

#[test]
fn lookup_of_the_reported_path_finds_the_same_node() {
    let env = env();
    let node = lookup(&env.vfs, &env.fs, "/proc//version/").unwrap();
    assert_eq!(node.path, "/proc/version");
    let again = lookup(&env.vfs, &env.fs, &node.path).unwrap();
    assert_eq!(again.path, node.path);
    assert_eq!(again.size, node.size);
    assert_eq!(read(&env.vfs, &env.fs, "/proc/./version").unwrap(), "HXNU 2605 x86_64\n");
    assert!(lookup(&env.vfs, &env.fs, "/nowhere").is_none());
    let dotdot = lookup(&env.vfs, &env.fs, "/proc/../proc/version").unwrap();
    assert_eq!(dotdot.path, "/proc/version");
}

#[test]
fn table_reads_back_what_was_stored() {
    let mut t: Table<u32> = Table::new();
    assert_eq!(t.get(1, 0), None);
    t.set(1, 0, 10);
    t.set(2, 0, 20);
    t.set(1, 0, 11);
    assert_eq!(t.get(1, 0), Some(11));
    assert_eq!(t.get(2, 0), Some(20));
    assert_eq!(t.get_or_insert(3, 1, 30), 30);
    assert_eq!(t.get_or_insert(3, 1, 99), 30);
    t.purge(1);
    assert_eq!(t.get(1, 0), None);
    assert_eq!(t.get(2, 0), Some(20));
}

#[test]
fn prctl_and_robust_list_read_back() {
    let env = env();
    let mut st = SyscallState::new();
    let mut mem = memory();
    let linux = SyscallAbi::LinuxBootstrap;
    assert_eq!(dispatch(&mut st, &mut mem, &env, linux, LINUX_SYS_PRCTL, [3, 0, 0, 0, 0, 0]).value, 1);
    assert_eq!(dispatch(&mut st, &mut mem, &env, linux, LINUX_SYS_PRCTL, [4, 0, 0, 0, 0, 0]).value, 0);
    assert_eq!(dispatch(&mut st, &mut mem, &env, linux, LINUX_SYS_PRCTL, [3, 0, 0, 0, 0, 0]).value, 0);
    assert_eq!(dispatch(&mut st, &mut mem, &env, linux, LINUX_SYS_PRCTL, [4, 2, 0, 0, 0, 0]).value, -22);
    let name = put(&mut mem, 0, b"a-very-long-task-name\0");
    assert_eq!(dispatch(&mut st, &mut mem, &env, linux, LINUX_SYS_PRCTL, [15, name, 0, 0, 0, 0]).value, 0);
    assert_eq!(dispatch(&mut st, &mut mem, &env, linux, LINUX_SYS_PRCTL, [16, BASE + 64, 0, 0, 0, 0]).value, 0);
    assert_eq!(&mem.bytes[64..80], b"a-very-long-tas\0");
    assert_eq!(dispatch(&mut st, &mut mem, &env, linux, LINUX_SYS_SET_ROBUST_LIST, [0x1234, 24, 0, 0, 0, 0]).value, 0);
    assert_eq!(dispatch(&mut st, &mut mem, &env, linux, LINUX_SYS_SET_ROBUST_LIST, [0x1234, 16, 0, 0, 0, 0]).value, -22);
    let out = dispatch(&mut st, &mut mem, &env, linux, LINUX_SYS_GET_ROBUST_LIST, [0, BASE + 128, BASE + 136, 0, 0, 0]);
    assert_eq!(out.value, 0);
    assert_eq!(&mem.bytes[128..136], &0x1234u64.to_le_bytes());
    assert_eq!(&mem.bytes[136..144], &24u64.to_le_bytes());
}

#[test]
fn exit_group_resets_the_file_mode_mask() {
    let env = env();
    let mut st = SyscallState::new();
    let mut mem = memory();
    let linux = SyscallAbi::LinuxBootstrap;
    dispatch(&mut st, &mut mem, &env, linux, LINUX_SYS_UMASK, [0o077, 0, 0, 0, 0, 0]);
    dispatch(&mut st, &mut mem, &env, linux, LINUX_SYS_EXIT_GROUP, [0, 0, 0, 0, 0, 0]);
    assert_eq!(dispatch(&mut st, &mut mem, &env, linux, LINUX_SYS_UMASK, [0, 0, 0, 0, 0, 0]).value, 0o022);
}

fn pollfd(fd: i32, events: u16) -> Vec<u8> {
    let mut v = fd.to_le_bytes().to_vec();
    v.extend_from_slice(&events.to_le_bytes());
    v.extend_from_slice(&[0xff, 0xff]);
    v
}

#[test]
fn pipe_carries_written_bytes_to_its_read_end() {
    let env = env();
    let mut st = SyscallState::new();
    let mut mem = memory();
    let linux = SyscallAbi::LinuxBootstrap;
    let fds = BASE + 64;
    assert_eq!(dispatch(&mut st, &mut mem, &env, linux, LINUX_SYS_PIPE, [fds, 0, 0, 0, 0, 0]).value, 0);
    assert_eq!(&mem.bytes[64..72], &[3, 0, 0, 0, 4, 0, 0, 0]);
    let text = put(&mut mem, 128, b"ping");
    assert_eq!(dispatch(&mut st, &mut mem, &env, linux, LINUX_SYS_WRITE, [4, text, 4, 0, 0, 0]).value, 4);
    let buf = BASE + 256;
    assert_eq!(dispatch(&mut st, &mut mem, &env, linux, LINUX_SYS_READ, [3, buf, 16, 0, 0, 0]).value, 4);
    assert_eq!(&mem.bytes[256..260], b"ping");
    assert_eq!(dispatch(&mut st, &mut mem, &env, linux, LINUX_SYS_READ, [3, buf, 16, 0, 0, 0]).value, 0);
    assert_eq!(dispatch(&mut st, &mut mem, &env, linux, LINUX_SYS_WRITE, [3, text, 4, 0, 0, 0]).value, -9);
    assert_eq!(dispatch(&mut st, &mut mem, &env, linux, LINUX_SYS_CLOSE, [3, 0, 0, 0, 0, 0]).value, 0);
    assert_eq!(dispatch(&mut st, &mut mem, &env, linux, LINUX_SYS_WRITE, [4, text, 4, 0, 0, 0]).value, -32);
    assert_eq!(dispatch(&mut st, &mut mem, &env, linux, LINUX_SYS_PIPE2, [fds, 0x80000, 0, 0, 0, 0]).value, 0);
    assert_eq!(&mem.bytes[64..72], &[5, 0, 0, 0, 6, 0, 0, 0]);
    assert_eq!(dispatch(&mut st, &mut mem, &env, linux, LINUX_SYS_PIPE2, [fds, 1, 0, 0, 0, 0]).value, -22);
}

#[test]
fn poll_reports_ready_descriptors() {
    let env = env();
    let mut st = SyscallState::new();
    let mut mem = memory();
    let linux = SyscallAbi::LinuxBootstrap;
    let fds = BASE + 64;
    assert_eq!(dispatch(&mut st, &mut mem, &env, linux, LINUX_SYS_PIPE, [fds, 0, 0, 0, 0, 0]).value, 0);
    let mut records = pollfd(3, 1);
    records.extend(pollfd(4, 4));
    records.extend(pollfd(1, 5));
    records.extend(pollfd(40, 1));
    records.extend(pollfd(-1, 1));
    let ptr = put(&mut mem, 512, &records);
    assert_eq!(dispatch(&mut st, &mut mem, &env, linux, LINUX_SYS_POLL, [ptr, 5, 0, 0, 0, 0]).value, 3);
    let revents = |mem: &UserMemory, i: usize| u16::from_le_bytes([mem.bytes[512 + 8 * i + 6], mem.bytes[512 + 8 * i + 7]]);
    assert_eq!(revents(&mem, 0), 0);
    assert_eq!(revents(&mem, 1), 4);
    assert_eq!(revents(&mem, 2), 4);
    assert_eq!(revents(&mem, 3), 0x20);
    assert_eq!(revents(&mem, 4), 0);
    let text = put(&mut mem, 128, b"x");
    assert_eq!(dispatch(&mut st, &mut mem, &env, linux, LINUX_SYS_WRITE, [4, text, 1, 0, 0, 0]).value, 1);
    assert_eq!(dispatch(&mut st, &mut mem, &env, linux, LINUX_SYS_PPOLL, [ptr, 1, 0, 0, 0, 0]).value, 1);
    assert_eq!(revents(&mem, 0), 1);
    assert_eq!(dispatch(&mut st, &mut mem, &env, linux, LINUX_SYS_PPOLL, [ptr, 1, 0, ptr, 4, 0]).value, -22);
    assert_eq!(dispatch(&mut st, &mut mem, &env, linux, LINUX_SYS_POLL, [ptr, 65, 0, 0, 0, 0]).value, -22);
}

#[test]
fn futex_and_arch_prctl() {
    let env = env();
    let mut st = SyscallState::new();
    let mut mem = memory();
    let linux = SyscallAbi::LinuxBootstrap;
    let word = put(&mut mem, 64, &7u32.to_le_bytes());
    assert_eq!(dispatch(&mut st, &mut mem, &env, linux, LINUX_SYS_FUTEX, [word, 0x80, 7, 0, 0, 0]).value, 0);
    assert_eq!(dispatch(&mut st, &mut mem, &env, linux, LINUX_SYS_FUTEX, [word, 0, 8, 0, 0, 0]).value, -11);
    assert_eq!(dispatch(&mut st, &mut mem, &env, linux, LINUX_SYS_FUTEX, [word, 1, 1, 0, 0, 0]).value, 0);
    assert_eq!(dispatch(&mut st, &mut mem, &env, linux, LINUX_SYS_FUTEX, [word + 1, 0, 7, 0, 0, 0]).value, -22);
    assert_eq!(dispatch(&mut st, &mut mem, &env, linux, LINUX_SYS_FUTEX, [word, 5, 7, 0, 0, 0]).value, -38);
    let out = BASE + 128;
    assert_eq!(dispatch(&mut st, &mut mem, &env, linux, LINUX_SYS_ARCH_PRCTL, [0x1002, 0x7000_1000, 0, 0, 0, 0]).value, 0);
    assert_eq!(dispatch(&mut st, &mut mem, &env, linux, LINUX_SYS_ARCH_PRCTL, [0x1003, out, 0, 0, 0, 0]).value, 0);
    assert_eq!(&mem.bytes[128..136], &0x7000_1000u64.to_le_bytes());
    assert_eq!(dispatch(&mut st, &mut mem, &env, linux, LINUX_SYS_ARCH_PRCTL, [0x1004, out, 0, 0, 0, 0]).value, 0);
    assert_eq!(&mem.bytes[128..136], &[0u8; 8]);
    assert_eq!(dispatch(&mut st, &mut mem, &env, linux, LINUX_SYS_ARCH_PRCTL, [0x1001, 1 << 47, 0, 0, 0, 0]).value, -1);
    assert_eq!(dispatch(&mut st, &mut mem, &env, linux, LINUX_SYS_ARCH_PRCTL, [0x1005, out, 0, 0, 0, 0]).value, -22);
}

#[test]
fn exit_group_closes_the_process_descriptors() {
    let env = env();
    let mut st = SyscallState::new();
    let mut mem = memory();
    let ghost = SyscallAbi::GhostBootstrap;
    let path = put(&mut mem, 0, b"/proc/version\0");
    let fd = dispatch(&mut st, &mut mem, &env, ghost, GHOST_SYS_OPEN, [path, 0, 0, 0, 0, 0]).value;
    assert!(fd >= 3);
    let out = dispatch(&mut st, &mut mem, &env, ghost, 7, [5, 0, 0, 0, 0, 0]);
    assert_eq!(out.value, 0);
    assert_eq!(out.action, SyscallAction::ExitGroup { status: 5 });
    assert_eq!(dispatch(&mut st, &mut mem, &env, ghost, GHOST_SYS_READ, [fd as u64, BASE + 256, 4, 0, 0, 0]).value, -9);
}

#[test]
fn root_preview_joins_entries_on_one_line() {
    let e = env();
    assert_eq!(preview(&e.vfs, &e.fs, "/", 100), Some("dev proc".to_string()));
    assert_eq!(preview(&e.vfs, &e.fs, "/", 5), Some("dev p...".to_string()));
    assert_eq!(preview(&e.vfs, &e.fs, "relative", 5), None);
}
