use vstd::prelude::*;
use vstd::string::StringSliceAdditionalSpecFns;

use crate::arch::cpu::CpuInfo;
use crate::block::BlockRegistry;
use crate::bstr::{bytes_eq, push_all};
use crate::compress::store::StoreCounters;
use crate::fat::FatSummary;
use crate::fmt::{decimal, line, push_decimal, push_line_bytes, push_line_decimal, push_line_str, push_line_yes_no, push_str, yes_no_bytes};
use crate::mm::frame::FrameAllocatorStats;
use crate::mm::heap::HeapStats;
use crate::mm::pager::PagerStats;
use crate::sched::SchedulerStats;
use crate::text::{lossy_utf8, string_from_bytes_lossy};

verus! {

/// Kind of a node under `/proc`.
#[derive(Copy, Clone, PartialEq, Eq, Structural, Debug)]
pub enum ProcfsNodeKind {
    Directory,
    File,
}

/// Counts describing `/proc`.
#[derive(Copy, Clone, PartialEq, Eq, Structural, Debug)]
pub struct ProcfsSummary {
    pub directory_count: usize,
    pub file_count: usize,
    pub entry_count: usize,
}

/// Why `/proc` could not be mounted.
#[derive(Copy, Clone, PartialEq, Eq, Structural, Debug)]
pub enum ProcfsError {
    AlreadyInitialized,
}

impl ProcfsError {
    pub fn as_str(self) -> (s: &'static str)
        ensures
            s@ == "procfs is already initialized"@,
    {
        match self {
            Self::AlreadyInitialized => "procfs is already initialized",
        }
    }
}

/// The counts of `/proc`: two directories and eleven files.
pub fn summary() -> (s: ProcfsSummary)
    ensures
        s == (ProcfsSummary { directory_count: 2, file_count: 11, entry_count: 13 }),
{
    ProcfsSummary { directory_count: 2, file_count: 11, entry_count: 13 }
}

/// The eleven files of `/proc`, in listing order.
pub open spec fn proc_files() -> Seq<Seq<u8>> {
    seq![
        "/proc/version".spec_bytes(),
        "/proc/uptime".spec_bytes(),
        "/proc/meminfo".spec_bytes(),
        "/proc/cpuinfo".spec_bytes(),
        "/proc/schedstat".spec_bytes(),
        "/proc/topology".spec_bytes(),
        "/proc/initexec".spec_bytes(),
        "/proc/exec".spec_bytes(),
        "/proc/compress".spec_bytes(),
        "/proc/block".spec_bytes(),
        "/proc/fat".spec_bytes(),
    ]
}

/// Position of the first `/proc` file equal to `p`.
pub open spec fn spec_file_index(p: Seq<u8>) -> Option<int> {
    if p == proc_files()[0] {
        Some(0)
    } else if p == proc_files()[1] {
        Some(1)
    } else if p == proc_files()[2] {
        Some(2)
    } else if p == proc_files()[3] {
        Some(3)
    } else if p == proc_files()[4] {
        Some(4)
    } else if p == proc_files()[5] {
        Some(5)
    } else if p == proc_files()[6] {
        Some(6)
    } else if p == proc_files()[7] {
        Some(7)
    } else if p == proc_files()[8] {
        Some(8)
    } else if p == proc_files()[9] {
        Some(9)
    } else if p == proc_files()[10] {
        Some(10)
    } else {
        None
    }
}

fn file_index(p: &[u8]) -> (k: Option<usize>)
    ensures
        match k {
            Some(i) => spec_file_index(p@) == Some(i as int) && i < 11,
            None => spec_file_index(p@) is None,
        },
{
    if bytes_eq(p, "/proc/version".as_bytes()) {
        return Some(0);
    }
    if bytes_eq(p, "/proc/uptime".as_bytes()) {
        return Some(1);
    }
    if bytes_eq(p, "/proc/meminfo".as_bytes()) {
        return Some(2);
    }
    if bytes_eq(p, "/proc/cpuinfo".as_bytes()) {
        return Some(3);
    }
    if bytes_eq(p, "/proc/schedstat".as_bytes()) {
        return Some(4);
    }
    if bytes_eq(p, "/proc/topology".as_bytes()) {
        return Some(5);
    }
    if bytes_eq(p, "/proc/initexec".as_bytes()) {
        return Some(6);
    }
    if bytes_eq(p, "/proc/exec".as_bytes()) {
        return Some(7);
    }
    if bytes_eq(p, "/proc/compress".as_bytes()) {
        return Some(8);
    }
    if bytes_eq(p, "/proc/block".as_bytes()) {
        return Some(9);
    }
    if bytes_eq(p, "/proc/fat".as_bytes()) {
        return Some(10);
    }
    None
}

/// The `/proc` directory itself, with or without the trailing slash.
pub open spec fn is_proc_root(p: Seq<u8>) -> bool {
    p == "/proc".spec_bytes() || p == "/proc/".spec_bytes()
}

/// Kind of the node at `p`, if `/proc` has one there.
pub open spec fn spec_node_kind(p: Seq<u8>) -> Option<ProcfsNodeKind> {
    if is_proc_root(p) {
        Some(ProcfsNodeKind::Directory)
    } else if spec_file_index(p) is Some {
        Some(ProcfsNodeKind::File)
    } else {
        None
    }
}

/// Kind of a node under `/proc`.
pub fn node_kind(path: &str) -> (kind: Option<ProcfsNodeKind>)
    ensures
        kind == spec_node_kind(path.spec_bytes()),
{
    node_kind_bytes(path.as_bytes())
}

/// Kind of the node at the path `p`, given as bytes.
pub fn node_kind_bytes(p: &[u8]) -> (kind: Option<ProcfsNodeKind>)
    ensures
        kind == spec_node_kind(p@),
{
    if bytes_eq(p, "/proc".as_bytes()) || bytes_eq(p, "/proc/".as_bytes()) {
        return Some(ProcfsNodeKind::Directory);
    }
    match file_index(p) {
        Some(_) => Some(ProcfsNodeKind::File),
        None => None,
    }
}

/// The `/proc` listing.
pub open spec fn spec_render_root() -> Seq<u8> {
    "version\nuptime\nmeminfo\ncpuinfo\nschedstat\ntopology\ninitexec\nexec\ncompress\nblock\nfat\n".spec_bytes()
}

fn render_root() -> (text: Vec<u8>)
    ensures
        text@ == spec_render_root(),
{
    let mut text: Vec<u8> = Vec::new();
    push_str(&mut text, "version\nuptime\nmeminfo\ncpuinfo\nschedstat\ntopology\ninitexec\nexec\ncompress\nblock\nfat\n");
    text
}

pub open spec fn spec_render_version() -> Seq<u8> {
    "HXNU 2605 x86_64\n".spec_bytes()
}

fn render_version() -> (text: Vec<u8>)
    ensures
        text@ == spec_render_version(),
{
    let mut text: Vec<u8> = Vec::new();
    push_str(&mut text, "HXNU 2605 x86_64\n");
    text
}

/// `digits` left-padded with zeros to at least `width` bytes.
pub open spec fn zero_pad(digits: Seq<u8>, width: nat) -> Seq<u8> {
    if digits.len() >= width {
        digits
    } else {
        Seq::new((width - digits.len()) as nat, |i: int| 0x30u8) + digits
    }
}

fn push_zero_padded(out: &mut Vec<u8>, value: u64, width: usize)
    ensures
        final(out)@ == old(out)@ + zero_pad(decimal(value as nat), width as nat),
{
    let digits = crate::fmt::decimal_bytes(value);
    let ghost before = out@;
    if digits.len() < width {
        let pad = width - digits.len();
        let mut i: usize = 0;
        while i < pad
            invariant
                i <= pad,
                out@ == before + Seq::new(i as nat, |j: int| 0x30u8),
            decreases pad - i,
        {
            out.push(0x30);
            proof {
                assert(out@ =~= before + Seq::new((i + 1) as nat, |j: int| 0x30u8));
            }
            i = i + 1;
        }
    }
    push_all(out, digits.as_slice());
    proof {
        assert(out@ =~= before + zero_pad(decimal(value as nat), width as nat));
    }
}

/// The uptime line: seconds and nanoseconds, twice.
pub open spec fn spec_render_uptime(uptime_ns: u64) -> Seq<u8> {
    let s = decimal((uptime_ns / 1_000_000_000) as nat);
    let n = zero_pad(decimal((uptime_ns % 1_000_000_000) as nat), 9);
    s + seq![0x2eu8] + n + seq![0x20u8] + s + seq![0x2eu8] + n + seq![0x0au8]
}

/// `/proc/uptime` holds the uptime twice, each time as whole seconds, a dot and exactly nine
/// digits of nanoseconds, the two separated by a space and the line ended by a newline; the
/// seconds and nanoseconds read back as the uptime in nanoseconds.
pub proof fn lemma_uptime_reads_back(uptime_ns: u64)
    ensures
        ({
            let t = spec_render_uptime(uptime_ns);
            let s = decimal((uptime_ns / 1_000_000_000) as nat);
            let n = zero_pad(decimal((uptime_ns % 1_000_000_000) as nat), 9);
            &&& t == s + seq![0x2eu8] + n + seq![0x20u8] + s + seq![0x2eu8] + n + seq![0x0au8]
            &&& s.len() >= 1 && crate::fmt::all_digits(s)
            &&& n.len() == 9 && crate::fmt::all_digits(n)
            &&& crate::fmt::digits_value(s) * 1_000_000_000 + crate::fmt::digits_value(n) == uptime_ns
        }),
{
    let sec = (uptime_ns / 1_000_000_000) as nat;
    let nano = (uptime_ns % 1_000_000_000) as nat;
    crate::fmt::lemma_decimal_reads_back(sec);
    crate::fmt::lemma_decimal_reads_back(nano);
    crate::fmt::lemma_decimal_below_billion(nano);
    let d = decimal(nano);
    let n = zero_pad(d, 9);
    if d.len() < 9 {
        crate::fmt::lemma_leading_zeros((9 - d.len()) as nat, d);
        let z = Seq::new((9 - d.len()) as nat, |i: int| 0x30u8);
        assert forall|i: int| 0 <= i < n.len() implies 0x30 <= #[trigger] n[i] <= 0x39 by {
            if i >= z.len() {
                assert(n[i] == d[i - z.len()]);
            }
        }
    }
    assert(sec * 1_000_000_000 + nano == uptime_ns) by (nonlinear_arith)
        requires
            sec == uptime_ns / 1_000_000_000,
            nano == uptime_ns % 1_000_000_000,
    ;
}

fn render_uptime(uptime_ns: u64) -> (text: Vec<u8>)
    ensures
        text@ == spec_render_uptime(uptime_ns),
{
    let seconds = uptime_ns / 1_000_000_000;
    let nanos = uptime_ns % 1_000_000_000;
    let mut text: Vec<u8> = Vec::new();
    push_decimal(&mut text, seconds);
    text.push(0x2e);
    push_zero_padded(&mut text, nanos, 9);
    text.push(0x20);
    push_decimal(&mut text, seconds);
    text.push(0x2e);
    push_zero_padded(&mut text, nanos, 9);
    text.push(0x0a);
    proof {
        assert(text@ =~= spec_render_uptime(uptime_ns));
    }
    text
}

/// A `label value kB` line.
pub open spec fn kb_line(label: Seq<u8>, bytes: u64) -> Seq<u8> {
    label + decimal((bytes / 1024) as nat) + " kB\n".spec_bytes()
}

fn push_kb_line(out: &mut Vec<u8>, label: &str, bytes: u64)
    ensures
        final(out)@ == old(out)@ + kb_line(label.spec_bytes(), bytes),
{
    push_str(out, label);
    push_decimal(out, bytes / 1024);
    push_str(out, " kB\n");
    assert(final(out)@ =~= old(out)@ + kb_line(label.spec_bytes(), bytes));
}

/// Memory totals of the frame allocator and the heap.
pub open spec fn spec_render_meminfo(frame: FrameAllocatorStats, heap: HeapStats) -> Seq<u8> {
    let allocated = if frame.allocated_frames * 4096 > u64::MAX { u64::MAX as int } else { frame.allocated_frames * 4096 };
    let free = if frame.allocatable_bytes >= allocated { frame.allocatable_bytes - allocated } else { 0 };
    kb_line("MemTotal:       ".spec_bytes(), frame.total_bytes)
        + kb_line("MemAllocatable: ".spec_bytes(), frame.allocatable_bytes)
        + kb_line("MemFree:        ".spec_bytes(), free as u64)
        + line("FrameRegions:   ".spec_bytes(), decimal(frame.usable_regions as nat))
        + line("FrameAllocated: ".spec_bytes(), decimal(frame.allocated_frames as nat))
        + kb_line("HeapTotal:      ".spec_bytes(), heap.size_bytes)
        + kb_line("HeapUsed:       ".spec_bytes(), heap.used_bytes)
        + line("HeapAllocs:     ".spec_bytes(), decimal(heap.allocation_count as nat))
}

/// `/proc/meminfo` opens with the total, the allocatable and the free memory in kB. Free is
/// what stays of the allocatable bytes once the allocated frames, of 4096 bytes each, are
/// taken from it, and 0 when they take it all.
pub proof fn lemma_meminfo_free(frame: FrameAllocatorStats, heap: HeapStats)
    ensures
        ({
            let free: int = if frame.allocatable_bytes >= 4096 * frame.allocated_frames {
                frame.allocatable_bytes - 4096 * frame.allocated_frames
            } else {
                0
            };
            let head = kb_line("MemTotal:       ".spec_bytes(), frame.total_bytes) + kb_line(
                "MemAllocatable: ".spec_bytes(),
                frame.allocatable_bytes,
            ) + kb_line("MemFree:        ".spec_bytes(), free as u64);
            spec_render_meminfo(frame, heap).take(head.len() as int) == head
        }),
{
    let free: int = if frame.allocatable_bytes >= 4096 * frame.allocated_frames {
        frame.allocatable_bytes - 4096 * frame.allocated_frames
    } else {
        0
    };
    let head = kb_line("MemTotal:       ".spec_bytes(), frame.total_bytes) + kb_line(
        "MemAllocatable: ".spec_bytes(),
        frame.allocatable_bytes,
    ) + kb_line("MemFree:        ".spec_bytes(), free as u64);
    let rest = line("FrameRegions:   ".spec_bytes(), decimal(frame.usable_regions as nat))
        + line("FrameAllocated: ".spec_bytes(), decimal(frame.allocated_frames as nat))
        + kb_line("HeapTotal:      ".spec_bytes(), heap.size_bytes)
        + kb_line("HeapUsed:       ".spec_bytes(), heap.used_bytes)
        + line("HeapAllocs:     ".spec_bytes(), decimal(heap.allocation_count as nat));
    assert(spec_render_meminfo(frame, heap) =~= head + rest);
    assert((head + rest).take(head.len() as int) =~= head);
}

fn render_meminfo(frame: &FrameAllocatorStats, heap: &HeapStats) -> (text: Vec<u8>)
    ensures
        text@ == spec_render_meminfo(*frame, *heap),
{
    let allocated = crate::num::saturating_mul_u64(frame.allocated_frames, 4096);
    let free = frame.allocatable_bytes.saturating_sub(allocated);
    let mut text: Vec<u8> = Vec::new();
    push_kb_line(&mut text, "MemTotal:       ", frame.total_bytes);
    push_kb_line(&mut text, "MemAllocatable: ", frame.allocatable_bytes);
    push_kb_line(&mut text, "MemFree:        ", free);
    push_line_decimal(&mut text, "FrameRegions:   ", frame.usable_regions as u64);
    push_line_decimal(&mut text, "FrameAllocated: ", frame.allocated_frames);
    push_kb_line(&mut text, "HeapTotal:      ", heap.size_bytes);
    push_kb_line(&mut text, "HeapUsed:       ", heap.used_bytes);
    push_line_decimal(&mut text, "HeapAllocs:     ", heap.allocation_count as u64);
    proof {
        assert(text@ =~= spec_render_meminfo(*frame, *heap));
    }
    text
}

/// Scheduler counters and the running thread.
pub open spec fn spec_render_schedstat(stats: SchedulerStats) -> Seq<u8> {
    line("threads ".spec_bytes(), decimal(stats.thread_count as nat))
        + line("runqueue ".spec_bytes(), decimal(stats.runqueue_depth as nat))
        + line("current_id ".spec_bytes(), decimal(stats.current_thread_id as nat))
        + line("current_name ".spec_bytes(), stats.current_thread_name.spec_bytes())
        + line("current_role ".spec_bytes(), stats.current_thread_role.spec_bytes())
        + line("current_state ".spec_bytes(), stats.current_thread_state.spec_bytes())
        + line("ticks ".spec_bytes(), decimal(stats.total_ticks as nat))
        + line("switches ".spec_bytes(), decimal(stats.context_switches as nat))
        + line("bootstrap_id ".spec_bytes(), decimal(stats.bootstrap_thread_id as nat))
        + line("idle_id ".spec_bytes(), decimal(stats.idle_thread_id as nat))
}

fn render_schedstat(stats: &SchedulerStats) -> (text: Vec<u8>)
    ensures
        text@ == spec_render_schedstat(*stats),
{
    let mut text: Vec<u8> = Vec::new();
    push_line_decimal(&mut text, "threads ", stats.thread_count as u64);
    push_line_decimal(&mut text, "runqueue ", stats.runqueue_depth as u64);
    push_line_decimal(&mut text, "current_id ", stats.current_thread_id);
    push_line_str(&mut text, "current_name ", stats.current_thread_name);
    push_line_str(&mut text, "current_role ", stats.current_thread_role);
    push_line_str(&mut text, "current_state ", stats.current_thread_state);
    push_line_decimal(&mut text, "ticks ", stats.total_ticks);
    push_line_decimal(&mut text, "switches ", stats.context_switches);
    push_line_decimal(&mut text, "bootstrap_id ", stats.bootstrap_thread_id);
    push_line_decimal(&mut text, "idle_id ", stats.idle_thread_id);
    proof {
        assert(text@ =~= spec_render_schedstat(*stats));
    }
    text
}

/// Counters of the compression store and of the pager.
pub open spec fn spec_render_compress(store_initialized: bool, stored_pages: usize, store: StoreCounters, pager_initialized: bool, pager: PagerStats) -> Seq<u8> {
    line("store_initialized ".spec_bytes(), yes_no_bytes(store_initialized))
        + line("store_capacity_pages ".spec_bytes(), decimal(crate::compress::store::STORE_CAPACITY_PAGES as nat))
        + line("store_stored_pages ".spec_bytes(), decimal(stored_pages as nat))
        + line("store_total_input_bytes ".spec_bytes(), decimal(store.total_input_bytes as nat))
        + line("store_total_encoded_bytes ".spec_bytes(), decimal(store.total_encoded_bytes as nat))
        + line("store_requests ".spec_bytes(), decimal(store.store_requests as nat))
        + line("store_successes ".spec_bytes(), decimal(store.store_successes as nat))
        + line("store_load_requests ".spec_bytes(), decimal(store.load_requests as nat))
        + line("store_load_successes ".spec_bytes(), decimal(store.load_successes as nat))
        + line("store_load_misses ".spec_bytes(), decimal(store.load_misses as nat))
        + line("store_replacements ".spec_bytes(), decimal(store.replacements as nat))
        + line("store_evictions ".spec_bytes(), decimal(store.evictions as nat))
        + line("store_encode_failures ".spec_bytes(), decimal(store.encode_failures as nat))
        + line("store_decode_failures ".spec_bytes(), decimal(store.decode_failures as nat))
        + line("pager_initialized ".spec_bytes(), yes_no_bytes(pager_initialized))
        + line("pager_reclaim_requests ".spec_bytes(), decimal(pager.reclaim_requests as nat))
        + line("pager_reclaim_successes ".spec_bytes(), decimal(pager.reclaim_successes as nat))
        + line("pager_reclaim_failures ".spec_bytes(), decimal(pager.reclaim_failures as nat))
        + line("pager_restore_requests ".spec_bytes(), decimal(pager.restore_requests as nat))
        + line("pager_restore_successes ".spec_bytes(), decimal(pager.restore_successes as nat))
        + line("pager_restore_failures ".spec_bytes(), decimal(pager.restore_failures as nat))
        + line("pager_restore_misses ".spec_bytes(), decimal(pager.restore_misses as nat))
        + line("pager_verify_failures ".spec_bytes(), decimal(pager.verify_failures as nat))
        + line("pager_reclaimed_zero_pages ".spec_bytes(), decimal(pager.reclaimed_zero_pages as nat))
        + line("pager_reclaimed_same_pages ".spec_bytes(), decimal(pager.reclaimed_same_pages as nat))
        + line("pager_reclaimed_sxrc_pages ".spec_bytes(), decimal(pager.reclaimed_sxrc_pages as nat))
        + line("pager_reclaimed_raw_pages ".spec_bytes(), decimal(pager.reclaimed_raw_pages as nat))
        + line("pager_restored_zero_pages ".spec_bytes(), decimal(pager.restored_zero_pages as nat))
        + line("pager_restored_same_pages ".spec_bytes(), decimal(pager.restored_same_pages as nat))
        + line("pager_restored_sxrc_pages ".spec_bytes(), decimal(pager.restored_sxrc_pages as nat))
        + line("pager_restored_raw_pages ".spec_bytes(), decimal(pager.restored_raw_pages as nat))
        + line("pager_smoke_runs ".spec_bytes(), decimal(pager.smoke_runs as nat))
        + line("pager_smoke_successes ".spec_bytes(), decimal(pager.smoke_successes as nat))
}

fn render_compress(store_initialized: bool, stored_pages: usize, store: &StoreCounters, pager_initialized: bool, pager: &PagerStats) -> (text: Vec<u8>)
    ensures
        text@ == spec_render_compress(store_initialized, stored_pages, *store, pager_initialized, *pager),
{
    let mut text: Vec<u8> = Vec::new();
    push_line_yes_no(&mut text, "store_initialized ", store_initialized);
    push_line_decimal(&mut text, "store_capacity_pages ", crate::compress::store::STORE_CAPACITY_PAGES as u64);
    push_line_decimal(&mut text, "store_stored_pages ", stored_pages as u64);
    push_line_decimal(&mut text, "store_total_input_bytes ", store.total_input_bytes);
    push_line_decimal(&mut text, "store_total_encoded_bytes ", store.total_encoded_bytes);
    push_line_decimal(&mut text, "store_requests ", store.store_requests);
    push_line_decimal(&mut text, "store_successes ", store.store_successes);
    push_line_decimal(&mut text, "store_load_requests ", store.load_requests);
    push_line_decimal(&mut text, "store_load_successes ", store.load_successes);
    push_line_decimal(&mut text, "store_load_misses ", store.load_misses);
    push_line_decimal(&mut text, "store_replacements ", store.replacements);
    push_line_decimal(&mut text, "store_evictions ", store.evictions);
    push_line_decimal(&mut text, "store_encode_failures ", store.encode_failures);
    push_line_decimal(&mut text, "store_decode_failures ", store.decode_failures);
    push_line_yes_no(&mut text, "pager_initialized ", pager_initialized);
    push_line_decimal(&mut text, "pager_reclaim_requests ", pager.reclaim_requests);
    push_line_decimal(&mut text, "pager_reclaim_successes ", pager.reclaim_successes);
    push_line_decimal(&mut text, "pager_reclaim_failures ", pager.reclaim_failures);
    push_line_decimal(&mut text, "pager_restore_requests ", pager.restore_requests);
    push_line_decimal(&mut text, "pager_restore_successes ", pager.restore_successes);
    push_line_decimal(&mut text, "pager_restore_failures ", pager.restore_failures);
    push_line_decimal(&mut text, "pager_restore_misses ", pager.restore_misses);
    push_line_decimal(&mut text, "pager_verify_failures ", pager.verify_failures);
    push_line_decimal(&mut text, "pager_reclaimed_zero_pages ", pager.reclaimed_zero_pages);
    push_line_decimal(&mut text, "pager_reclaimed_same_pages ", pager.reclaimed_same_pages);
    push_line_decimal(&mut text, "pager_reclaimed_sxrc_pages ", pager.reclaimed_sxrc_pages);
    push_line_decimal(&mut text, "pager_reclaimed_raw_pages ", pager.reclaimed_raw_pages);
    push_line_decimal(&mut text, "pager_restored_zero_pages ", pager.restored_zero_pages);
    push_line_decimal(&mut text, "pager_restored_same_pages ", pager.restored_same_pages);
    push_line_decimal(&mut text, "pager_restored_sxrc_pages ", pager.restored_sxrc_pages);
    push_line_decimal(&mut text, "pager_restored_raw_pages ", pager.restored_raw_pages);
    push_line_decimal(&mut text, "pager_smoke_runs ", pager.smoke_runs);
    push_line_decimal(&mut text, "pager_smoke_successes ", pager.smoke_successes);
    proof {
        assert(text@ =~= spec_render_compress(store_initialized, stored_pages, *store, pager_initialized, *pager));
    }
    text
}

} // verus!

verus! {

// ---------------------------------------------------------------------------
// `/proc/block` and `/proc/fat`.

/// The first half of the line describing disk number `i`: its number, id, name and kind.
pub open spec fn device_line_head(i: int, d: crate::block::BlockDeviceInfo) -> Seq<u8> {
    "device".spec_bytes() + decimal(i as nat) + " id=".spec_bytes() + decimal(d.id as nat) + " name=".spec_bytes()
        + d.name@ + " kind=".spec_bytes() + d.driver_kind@
}

/// The second half of the line describing a disk: read-only flag and sizes.
pub open spec fn device_line_tail(d: crate::block::BlockDeviceInfo) -> Seq<u8> {
    " ro=".spec_bytes() + yes_no_bytes(d.read_only) + " sectors=".spec_bytes() + decimal(d.sector_count as nat)
        + " sector-bytes=".spec_bytes() + decimal(d.sector_size as nat) + " size=".spec_bytes() + decimal(
        d.size_bytes as nat,
    ) + seq![0x0au8]
}

/// The line naming the driver of disk number `i`.
pub open spec fn device_driver_line(i: int, d: crate::block::BlockDeviceInfo) -> Seq<u8> {
    "device".spec_bytes() + decimal(i as nat) + " driver=".spec_bytes() + d.driver_name@ + seq![0x0au8]
}

/// The two lines describing disk number `i`.
pub open spec fn device_block_lines(i: int, d: crate::block::BlockDeviceInfo) -> Seq<u8> {
    device_line_head(i, d) + device_line_tail(d) + device_driver_line(i, d)
}

/// The start of the line describing partition number `i`: number, id, disk and table.
pub open spec fn partition_line_head(i: int, p: crate::block::PartitionInfo) -> Seq<u8> {
    "partition".spec_bytes() + decimal(i as nat) + " id=".spec_bytes() + decimal(p.id as nat) + " dev=".spec_bytes()
        + decimal(p.device_id as nat) + " table=".spec_bytes() + crate::devfs::table_kind_bytes(p.table_kind)
}

/// The part of a partition line that depends on its table.
pub open spec fn partition_line_table(p: crate::block::PartitionInfo) -> Seq<u8> {
    match p.table_kind {
        crate::block::PartitionTableKind::Mbr => " mbr-index=".spec_bytes() + decimal(p.mbr_index as nat)
            + " type=0x".spec_bytes() + crate::fmt::hex_fixed(p.partition_type as nat, 2) + " bootable=".spec_bytes()
            + yes_no_bytes(p.bootable),
        crate::block::PartitionTableKind::Gpt => " gpt-index=".spec_bytes() + decimal(p.gpt_index as nat)
            + " type-guid=".spec_bytes() + crate::devfs::guid_text(p.gpt_type_guid@, 16) + " part-guid=".spec_bytes()
            + crate::devfs::guid_text(p.gpt_partition_guid@, 16),
    }
}

/// The end of a partition line: where it starts and how long it is.
pub open spec fn partition_line_tail(p: crate::block::PartitionInfo) -> Seq<u8> {
    " lba=".spec_bytes() + decimal(p.start_lba as nat) + " sectors=".spec_bytes() + decimal(p.sector_count as nat)
        + seq![0x0au8]
}

/// The line describing partition number `i`.
pub open spec fn partition_block_line(i: int, p: crate::block::PartitionInfo) -> Seq<u8> {
    partition_line_head(i, p) + partition_line_table(p) + partition_line_tail(p)
}

pub open spec fn devices_block_lines(ds: Seq<crate::block::BlockDeviceInfo>) -> Seq<u8>
    decreases ds.len(),
{
    if ds.len() == 0 {
        Seq::empty()
    } else {
        devices_block_lines(ds.drop_last()) + device_block_lines(ds.len() - 1, ds.last())
    }
}

pub open spec fn partitions_block_lines(ps: Seq<crate::block::PartitionInfo>) -> Seq<u8>
    decreases ps.len(),
{
    if ps.len() == 0 {
        Seq::empty()
    } else {
        partitions_block_lines(ps.drop_last()) + partition_block_line(ps.len() - 1, ps.last())
    }
}

/// The block layer: totals, counters, then one entry per disk and per partition.
pub open spec fn spec_render_block(b: BlockRegistry) -> Seq<u8> {
    line("initialized ".spec_bytes(), yes_no_bytes(b.initialized)) + line(
        "driver_count ".spec_bytes(),
        decimal(b.summary.driver_count as nat),
    ) + line("device_count ".spec_bytes(), decimal(b.devices@.len())) + line(
        "partition_count ".spec_bytes(),
        decimal(b.partitions@.len()),
    ) + line("total_bytes ".spec_bytes(), decimal(b.summary.total_bytes as nat)) + line(
        "mbr_devices ".spec_bytes(),
        decimal(b.summary.mbr_device_count as nat),
    ) + line("gpt_devices ".spec_bytes(), decimal(b.summary.gpt_device_count as nat)) + line(
        "read_requests ".spec_bytes(),
        decimal(b.stats.read_requests as nat),
    ) + line("read_sectors ".spec_bytes(), decimal(b.stats.read_sectors as nat)) + line(
        "read_bytes ".spec_bytes(),
        decimal(b.stats.read_bytes as nat),
    ) + line("read_failures ".spec_bytes(), decimal(b.stats.read_failures as nat)) + devices_block_lines(b.devices@)
        + partitions_block_lines(b.partitions@)
}

fn push_device_head(text: &mut Vec<u8>, index: usize, d: &crate::block::BlockDeviceInfo)
    ensures
        final(text)@ == old(text)@ + device_line_head(index as int, *d),
{
    push_str(text, "device");
    push_decimal(text, index as u64);
    push_str(text, " id=");
    push_decimal(text, d.id as u64);
    push_str(text, " name=");
    push_all(text, d.name.as_slice());
    push_str(text, " kind=");
    push_all(text, d.driver_kind.as_slice());
    assert(final(text)@ =~= old(text)@ + device_line_head(index as int, *d));
}

fn push_device_tail(text: &mut Vec<u8>, d: &crate::block::BlockDeviceInfo)
    ensures
        final(text)@ == old(text)@ + device_line_tail(*d),
{
    push_str(text, " ro=");
    crate::fmt::push_yes_no(text, d.read_only);
    push_str(text, " sectors=");
    push_decimal(text, d.sector_count);
    push_str(text, " sector-bytes=");
    push_decimal(text, d.sector_size);
    push_str(text, " size=");
    push_decimal(text, d.size_bytes);
    text.push(0x0a);
    assert(final(text)@ =~= old(text)@ + device_line_tail(*d));
}

fn push_device_lines(text: &mut Vec<u8>, index: usize, d: &crate::block::BlockDeviceInfo)
    ensures
        final(text)@ == old(text)@ + device_block_lines(index as int, *d),
{
    push_device_head(text, index, d);
    push_device_tail(text, d);
    push_str(text, "device");
    push_decimal(text, index as u64);
    push_str(text, " driver=");
    push_all(text, d.driver_name.as_slice());
    text.push(0x0a);
    assert(final(text)@ =~= old(text)@ + device_block_lines(index as int, *d));
}

fn push_partition_head(text: &mut Vec<u8>, index: usize, p: &crate::block::PartitionInfo)
    ensures
        final(text)@ == old(text)@ + partition_line_head(index as int, *p),
{
    push_str(text, "partition");
    push_decimal(text, index as u64);
    push_str(text, " id=");
    push_decimal(text, p.id as u64);
    push_str(text, " dev=");
    push_decimal(text, p.device_id as u64);
    push_str(text, " table=");
    push_str(text, p.table_kind.as_str());
    assert(final(text)@ =~= old(text)@ + partition_line_head(index as int, *p));
}

fn push_partition_table(text: &mut Vec<u8>, p: &crate::block::PartitionInfo)
    ensures
        final(text)@ == old(text)@ + partition_line_table(*p),
{
    match p.table_kind {
        crate::block::PartitionTableKind::Mbr => {
            push_str(text, " mbr-index=");
            push_decimal(text, p.mbr_index as u64);
            push_str(text, " type=0x");
            crate::fmt::push_hex_byte(text, p.partition_type);
            push_str(text, " bootable=");
            crate::fmt::push_yes_no(text, p.bootable);
        },
        crate::block::PartitionTableKind::Gpt => {
            push_str(text, " gpt-index=");
            push_decimal(text, p.gpt_index as u64);
            push_str(text, " type-guid=");
            crate::devfs::push_guid(text, &p.gpt_type_guid);
            push_str(text, " part-guid=");
            crate::devfs::push_guid(text, &p.gpt_partition_guid);
        },
    }
    assert(final(text)@ =~= old(text)@ + partition_line_table(*p));
}

fn push_partition_line(text: &mut Vec<u8>, index: usize, p: &crate::block::PartitionInfo)
    ensures
        final(text)@ == old(text)@ + partition_block_line(index as int, *p),
{
    push_partition_head(text, index, p);
    push_partition_table(text, p);
    push_str(text, " lba=");
    push_decimal(text, p.start_lba);
    push_str(text, " sectors=");
    push_decimal(text, p.sector_count);
    text.push(0x0a);
    assert(final(text)@ =~= old(text)@ + partition_block_line(index as int, *p));
}

fn render_block(b: &BlockRegistry) -> (text: Vec<u8>)
    ensures
        text@ == spec_render_block(*b),
{
    let mut text: Vec<u8> = Vec::new();
    push_line_yes_no(&mut text, "initialized ", b.initialized);
    push_line_decimal(&mut text, "driver_count ", b.summary.driver_count as u64);
    push_line_decimal(&mut text, "device_count ", b.devices.len() as u64);
    push_line_decimal(&mut text, "partition_count ", b.partitions.len() as u64);
    push_line_decimal(&mut text, "total_bytes ", b.summary.total_bytes);
    push_line_decimal(&mut text, "mbr_devices ", b.summary.mbr_device_count as u64);
    push_line_decimal(&mut text, "gpt_devices ", b.summary.gpt_device_count as u64);
    push_line_decimal(&mut text, "read_requests ", b.stats.read_requests);
    push_line_decimal(&mut text, "read_sectors ", b.stats.read_sectors);
    push_line_decimal(&mut text, "read_bytes ", b.stats.read_bytes);
    push_line_decimal(&mut text, "read_failures ", b.stats.read_failures);
    let ghost head = text@;
    let ghost ds = b.devices@;
    let mut index: usize = 0;
    while index < b.devices.len()
        invariant
            ds == b.devices@,
            index <= ds.len(),
            text@ == head + devices_block_lines(ds.take(index as int)),
        decreases ds.len() - index,
    {
        proof {
            assert(ds.take(index + 1).drop_last() =~= ds.take(index as int));
        }
        push_device_lines(&mut text, index, &b.devices[index]);
        proof {
            assert(text@ =~= head + devices_block_lines(ds.take(index + 1)));
        }
        index = index + 1;
    }
    proof {
        assert(ds.take(ds.len() as int) =~= ds);
    }
    let ghost mid = text@;
    let ghost ps = b.partitions@;
    let mut part_index: usize = 0;
    while part_index < b.partitions.len()
        invariant
            ps == b.partitions@,
            part_index <= ps.len(),
            text@ == mid + partitions_block_lines(ps.take(part_index as int)),
        decreases ps.len() - part_index,
    {
        proof {
            assert(ps.take(part_index + 1).drop_last() =~= ps.take(part_index as int));
        }
        push_partition_line(&mut text, part_index, &b.partitions[part_index]);
        proof {
            assert(text@ =~= mid + partitions_block_lines(ps.take(part_index + 1)));
        }
        part_index = part_index + 1;
    }
    proof {
        assert(ps.take(ps.len() as int) =~= ps);
        assert(text@ =~= spec_render_block(*b));
    }
    text
}

/// An optional 16-bit number as `Some(n)` or `None`.
pub open spec fn debug_option_u16(v: Option<u16>) -> Seq<u8> {
    match v {
        Some(n) => "Some(".spec_bytes() + decimal(n as nat) + ")".spec_bytes(),
        None => "None".spec_bytes(),
    }
}

fn push_debug_option_u16(out: &mut Vec<u8>, v: Option<u16>)
    ensures
        final(out)@ == old(out)@ + debug_option_u16(v),
{
    match v {
        Some(n) => {
            push_str(out, "Some(");
            push_decimal(out, n as u64);
            push_str(out, ")");
        },
        None => push_str(out, "None"),
    }
    assert(final(out)@ =~= old(out)@ + debug_option_u16(v));
}

/// The FAT mount: whether it is up and what it found.
pub open spec fn spec_render_fat(initialized: bool, s: FatSummary) -> Seq<u8> {
    line("initialized ".spec_bytes(), yes_no_bytes(initialized)) + line("mounted ".spec_bytes(), yes_no_bytes(s.mounted))
        + line("partition_id ".spec_bytes(), debug_option_u16(s.partition_id)) + line(
        "device_id ".spec_bytes(),
        debug_option_u16(s.device_id),
    ) + line(
        "partition_table ".spec_bytes(),
        match s.partition_table {
            Some(k) => crate::devfs::table_kind_bytes(k),
            None => "<none>".spec_bytes(),
        },
    ) + line(
        "fat_type ".spec_bytes(),
        match s.fat_type {
            Some(t) => match t {
                crate::fat::FatType::Fat16 => "fat16".spec_bytes(),
                crate::fat::FatType::Fat32 => "fat32".spec_bytes(),
            },
            None => "<none>".spec_bytes(),
        },
    ) + line("root_entry_count ".spec_bytes(), decimal(s.root_entry_count as nat)) + line(
        "directory_count ".spec_bytes(),
        decimal(s.directory_count as nat),
    )
}

#[verifier::rlimit(60)]
fn render_fat(initialized: bool, s: &FatSummary) -> (text: Vec<u8>)
    ensures
        text@ == spec_render_fat(initialized, *s),
{
    let mut text: Vec<u8> = Vec::new();
    push_line_yes_no(&mut text, "initialized ", initialized);
    push_line_yes_no(&mut text, "mounted ", s.mounted);
    push_str(&mut text, "partition_id ");
    push_debug_option_u16(&mut text, s.partition_id);
    text.push(0x0a);
    push_str(&mut text, "device_id ");
    push_debug_option_u16(&mut text, s.device_id);
    text.push(0x0a);
    match s.partition_table {
        Some(k) => push_line_str(&mut text, "partition_table ", k.as_str()),
        None => push_line_str(&mut text, "partition_table ", "<none>"),
    }
    match s.fat_type {
        Some(t) => push_line_str(&mut text, "fat_type ", t.as_str()),
        None => push_line_str(&mut text, "fat_type ", "<none>"),
    }
    push_line_decimal(&mut text, "root_entry_count ", s.root_entry_count as u64);
    push_line_decimal(&mut text, "directory_count ", s.directory_count as u64);
    proof {
        assert(text@ =~= spec_render_fat(initialized, *s));
    }
    text
}

} // verus!

verus! {

// ---------------------------------------------------------------------------
// `/proc/cpuinfo` and `/proc/topology`.

/// The vendor string as bytes: the vendor id when it is UTF-8, else `unknown`.
pub open spec fn vendor_bytes(cpu: CpuInfo) -> Seq<u8> {
    if vstd::utf8::valid_utf8(cpu.vendor_id@) { cpu.vendor_id@ } else { "unknown".spec_bytes() }
}

fn push_vendor(out: &mut Vec<u8>, cpu: &CpuInfo)
    ensures
        final(out)@ == old(out)@ + vendor_bytes(*cpu),
{
    if crate::text::is_valid_utf8(&cpu.vendor_id) {
        push_all(out, &cpu.vendor_id);
    } else {
        push_str(out, "unknown");
    }
}

/// The feature flags of the processor, separated by spaces; `apic` always comes first.
pub open spec fn spec_cpu_flags(cpu: CpuInfo) -> Seq<u8> {
    "apic".spec_bytes() + (if cpu.x2apic_supported { " x2apic".spec_bytes() } else { Seq::empty() }) + (
    if cpu.tsc_deadline_supported {
        " tsc_deadline".spec_bytes()
    } else {
        Seq::empty()
    }) + (if cpu.invariant_tsc_supported { " invariant_tsc".spec_bytes() } else { Seq::empty() }) + (
    if cpu.nx_supported {
        " nx".spec_bytes()
    } else {
        Seq::empty()
    }) + (if cpu.hypervisor_present { " hypervisor".spec_bytes() } else { Seq::empty() })
}

fn cpu_flags(cpu: &CpuInfo) -> (text: Vec<u8>)
    ensures
        text@ == spec_cpu_flags(*cpu),
{
    let mut text: Vec<u8> = Vec::new();
    push_str(&mut text, "apic");
    proof {
        reveal_strlit("apic");
        vstd::utf8::is_ascii_chars_encode_utf8("apic"@);
    }
    assert(text@.len() > 0);
    if cpu.x2apic_supported {
        push_str(&mut text, " x2apic");
    }
    if cpu.tsc_deadline_supported {
        push_str(&mut text, " tsc_deadline");
    }
    if cpu.invariant_tsc_supported {
        push_str(&mut text, " invariant_tsc");
    }
    if cpu.nx_supported {
        push_str(&mut text, " nx");
    }
    if cpu.hypervisor_present {
        push_str(&mut text, " hypervisor");
    }
    assert(text@ =~= spec_cpu_flags(*cpu));
    text
}

/// The `model name` line, when the processor has a brand string.
pub open spec fn model_line(cpu: CpuInfo) -> Seq<u8> {
    match crate::arch::cpu::spec_brand_text(cpu.brand@) {
        Some(b) => line("model name\\t: ".spec_bytes(), b),
        None => Seq::empty(),
    }
}

fn push_model_line(out: &mut Vec<u8>, cpu: &CpuInfo)
    ensures
        final(out)@ == old(out)@ + model_line(*cpu),
{
    match cpu.brand_bytes() {
        Some(b) => push_line_bytes(out, "model name\\t: ", b.as_slice()),
        None => {
            assert(final(out)@ =~= old(out)@ + model_line(*cpu));
        },
    }
}

/// The first lines of the description of a processor: number, vendor, model and APIC id.
pub open spec fn cpu_block_head(cpu: CpuInfo, c: crate::smp::TopologyCpu) -> Seq<u8> {
    line("processor\t: ".spec_bytes(), decimal(c.index as nat)) + line("vendor_id\t: ".spec_bytes(), vendor_bytes(cpu))
        + model_line(cpu) + line("apicid\t\t: ".spec_bytes(), decimal(c.apic_id as nat))
}

/// The last lines of the description of a processor, and the blank line after it.
pub open spec fn cpu_block_tail(cpu: CpuInfo, c: crate::smp::TopologyCpu) -> Seq<u8> {
    line(
        "cpu family\t: ".spec_bytes(),
        match cpu.vendor {
            crate::arch::cpuid::CpuVendor::Intel => "intel".spec_bytes(),
            crate::arch::cpuid::CpuVendor::Amd => "amd".spec_bytes(),
            crate::arch::cpuid::CpuVendor::Unknown => "unknown".spec_bytes(),
        },
    ) + line("topology\t: ".spec_bytes(), if c.x2apic { "x2apic".spec_bytes() } else { "xapic".spec_bytes() })
        + line("bsp\t\t: ".spec_bytes(), yes_no_bytes(c.is_bsp)) + line("online\t\t: ".spec_bytes(), yes_no_bytes(c.online))
        + line("flags\t\t: ".spec_bytes(), spec_cpu_flags(cpu)) + seq![0x0au8]
}

/// The description of one processor of the topology.
pub open spec fn cpu_block(cpu: CpuInfo, c: crate::smp::TopologyCpu) -> Seq<u8> {
    cpu_block_head(cpu, c) + cpu_block_tail(cpu, c)
}

pub open spec fn cpu_blocks(cpu: CpuInfo, cs: Seq<crate::smp::TopologyCpu>) -> Seq<u8>
    decreases cs.len(),
{
    if cs.len() == 0 {
        Seq::empty()
    } else {
        cpu_blocks(cpu, cs.drop_last()) + cpu_block(cpu, cs.last())
    }
}

/// The processors: one block per processor of the topology, or the boot processor alone.
pub open spec fn spec_render_cpuinfo(cpu: CpuInfo, topology: Option<Seq<crate::smp::TopologyCpu>>) -> Seq<u8> {
    match topology {
        Some(cs) => cpu_blocks(cpu, cs),
        None => line("processor\\t: ".spec_bytes(), "0".spec_bytes()) + line("vendor_id\\t: ".spec_bytes(), vendor_bytes(cpu))
            + model_line(cpu) + line("apicid\\t\\t: ".spec_bytes(), decimal(cpu.initial_apic_id as nat)) + line(
            "flags\\t\\t: ".spec_bytes(),
            spec_cpu_flags(cpu),
        ),
    }
}

fn push_cpu_block_head(text: &mut Vec<u8>, cpu: &CpuInfo, c: &crate::smp::TopologyCpu)
    ensures
        final(text)@ == old(text)@ + cpu_block_head(*cpu, *c),
{
    push_line_decimal(text, "processor\t: ", c.index as u64);
    push_str(text, "vendor_id\t: ");
    push_vendor(text, cpu);
    text.push(0x0a);
    push_model_line(text, cpu);
    push_line_decimal(text, "apicid\t\t: ", c.apic_id as u64);
    assert(final(text)@ =~= old(text)@ + cpu_block_head(*cpu, *c));
}

fn push_cpu_block_tail(text: &mut Vec<u8>, cpu: &CpuInfo, c: &crate::smp::TopologyCpu, flags: &[u8])
    requires
        flags@ == spec_cpu_flags(*cpu),
    ensures
        final(text)@ == old(text)@ + cpu_block_tail(*cpu, *c),
{
    push_line_str(text, "cpu family\t: ", cpu.vendor.as_str());
    push_line_str(text, "topology\t: ", c.apic_mode());
    push_line_yes_no(text, "bsp\t\t: ", c.is_bsp);
    push_line_yes_no(text, "online\t\t: ", c.online);
    push_line_bytes(text, "flags\t\t: ", flags);
    text.push(0x0a);
    assert(final(text)@ =~= old(text)@ + cpu_block_tail(*cpu, *c));
}

fn push_cpu_block(text: &mut Vec<u8>, cpu: &CpuInfo, c: &crate::smp::TopologyCpu, flags: &[u8])
    requires
        flags@ == spec_cpu_flags(*cpu),
    ensures
        final(text)@ == old(text)@ + cpu_block(*cpu, *c),
{
    push_cpu_block_head(text, cpu, c);
    push_cpu_block_tail(text, cpu, c, flags);
    assert(final(text)@ =~= old(text)@ + cpu_block(*cpu, *c));
}

pub open spec fn topology_cpus(t: Option<&crate::smp::Topology>) -> Option<Seq<crate::smp::TopologyCpu>> {
    match t {
        Some(x) => Some(x.cpus@),
        None => None,
    }
}

#[verifier::rlimit(40)]
fn render_cpuinfo(cpu: &CpuInfo, topology: Option<&crate::smp::Topology>) -> (text: Vec<u8>)
    ensures
        text@ == spec_render_cpuinfo(*cpu, topology_cpus(topology)),
{
    let flags = cpu_flags(cpu);
    let mut text: Vec<u8> = Vec::new();
    match topology {
        Some(t) => {
            let ghost cs = t.cpus@;
            let mut i: usize = 0;
            while i < t.cpus.len()
                invariant
                    cs == t.cpus@,
                    flags@ == spec_cpu_flags(*cpu),
                    i <= cs.len(),
                    text@ == cpu_blocks(*cpu, cs.take(i as int)),
                decreases cs.len() - i,
            {
                proof {
                    assert(cs.take(i + 1).drop_last() =~= cs.take(i as int));
                }
                push_cpu_block(&mut text, cpu, &t.cpus[i], flags.as_slice());
                i = i + 1;
            }
            proof {
                assert(cs.take(cs.len() as int) =~= cs);
            }
        },
        None => {
            push_line_str(&mut text, "processor\\t: ", "0");
            push_str(&mut text, "vendor_id\\t: ");
            push_vendor(&mut text, cpu);
            text.push(0x0a);
            push_model_line(&mut text, cpu);
            push_line_decimal(&mut text, "apicid\\t\\t: ", cpu.initial_apic_id as u64);
            push_line_bytes(&mut text, "flags\\t\\t: ", flags.as_slice());
            assert(text@ =~= spec_render_cpuinfo(*cpu, topology_cpus(topology)));
        },
    }
    text
}

} // verus!

verus! {

/// The start of the line of one processor in `/proc/topology`: number, ids and mode.
pub open spec fn topology_cpu_head(c: crate::smp::TopologyCpu) -> Seq<u8> {
    "cpu".spec_bytes() + decimal(c.index as nat) + " uid=".spec_bytes() + decimal(c.processor_uid as nat)
        + " apic=".spec_bytes() + decimal(c.apic_id as nat) + " mode=".spec_bytes() + (if c.x2apic {
        "x2apic".spec_bytes()
    } else {
        "xapic".spec_bytes()
    })
}

/// The end of the line of one processor: its flags.
pub open spec fn topology_cpu_tail(c: crate::smp::TopologyCpu) -> Seq<u8> {
    " bsp=".spec_bytes() + yes_no_bytes(c.is_bsp) + " online=".spec_bytes() + yes_no_bytes(c.online) + " enabled=".spec_bytes()
        + yes_no_bytes(c.enabled) + seq![0x0au8]
}

/// The line of one processor in `/proc/topology`.
pub open spec fn topology_cpu_line(c: crate::smp::TopologyCpu) -> Seq<u8> {
    topology_cpu_head(c) + topology_cpu_tail(c)
}

pub open spec fn topology_cpu_lines(cs: Seq<crate::smp::TopologyCpu>) -> Seq<u8>
    decreases cs.len(),
{
    if cs.len() == 0 {
        Seq::empty()
    } else {
        topology_cpu_lines(cs.drop_last()) + topology_cpu_line(cs.last())
    }
}

/// The totals of a topology.
pub open spec fn topology_summary_lines(s: crate::smp::TopologySummary) -> Seq<u8> {
    line("bsp_apic_id ".spec_bytes(), decimal(s.bsp_apic_id as nat)) + line(
        "bsp_index ".spec_bytes(),
        decimal(s.current_cpu_index as nat),
    ) + line("cpus ".spec_bytes(), decimal(s.total_cpus as nat)) + line("enabled ".spec_bytes(), decimal(s.enabled_cpus as nat))
        + line("online ".spec_bytes(), decimal(s.online_cpus as nat)) + line("aps ".spec_bytes(), decimal(s.ap_count as nat))
        + line("bringup_targets ".spec_bytes(), decimal(s.bringup_targets as nat)) + line(
        "x2apic ".spec_bytes(),
        decimal(s.x2apic_cpus as nat),
    )
}

/// The processor topology, or the boot processor alone when it is unknown.
pub open spec fn spec_render_topology(cpu: CpuInfo, topology: Option<(crate::smp::TopologySummary, Seq<crate::smp::TopologyCpu>)>) -> Seq<u8> {
    match topology {
        Some((s, cs)) => topology_summary_lines(s) + topology_cpu_lines(cs),
        None => line("bsp_apic_id ".spec_bytes(), decimal(cpu.initial_apic_id as nat)) + "cpus 1\\nonline 1\\n".spec_bytes(),
    }
}

fn push_topology_cpu_head(text: &mut Vec<u8>, c: &crate::smp::TopologyCpu)
    ensures
        final(text)@ == old(text)@ + topology_cpu_head(*c),
{
    push_str(text, "cpu");
    push_decimal(text, c.index as u64);
    push_str(text, " uid=");
    push_decimal(text, c.processor_uid as u64);
    push_str(text, " apic=");
    push_decimal(text, c.apic_id as u64);
    push_str(text, " mode=");
    push_str(text, c.apic_mode());
    assert(final(text)@ =~= old(text)@ + topology_cpu_head(*c));
}

#[verifier::rlimit(60)]
fn push_topology_cpu_tail(text: &mut Vec<u8>, c: &crate::smp::TopologyCpu)
    ensures
        final(text)@ == old(text)@ + topology_cpu_tail(*c),
{
    push_str(text, " bsp=");
    crate::fmt::push_yes_no(text, c.is_bsp);
    push_str(text, " online=");
    crate::fmt::push_yes_no(text, c.online);
    push_str(text, " enabled=");
    crate::fmt::push_yes_no(text, c.enabled);
    text.push(0x0a);
    assert(final(text)@ =~= old(text)@ + topology_cpu_tail(*c));
}

fn push_topology_cpu_line(text: &mut Vec<u8>, c: &crate::smp::TopologyCpu)
    ensures
        final(text)@ == old(text)@ + topology_cpu_line(*c),
{
    push_topology_cpu_head(text, c);
    push_topology_cpu_tail(text, c);
    assert(final(text)@ =~= old(text)@ + topology_cpu_line(*c));
}

fn push_topology_summary(text: &mut Vec<u8>, s: &crate::smp::TopologySummary)
    ensures
        final(text)@ == old(text)@ + topology_summary_lines(*s),
{
    push_line_decimal(text, "bsp_apic_id ", s.bsp_apic_id as u64);
    push_line_decimal(text, "bsp_index ", s.current_cpu_index as u64);
    push_line_decimal(text, "cpus ", s.total_cpus as u64);
    push_line_decimal(text, "enabled ", s.enabled_cpus as u64);
    push_line_decimal(text, "online ", s.online_cpus as u64);
    push_line_decimal(text, "aps ", s.ap_count as u64);
    push_line_decimal(text, "bringup_targets ", s.bringup_targets as u64);
    push_line_decimal(text, "x2apic ", s.x2apic_cpus as u64);
    assert(final(text)@ =~= old(text)@ + topology_summary_lines(*s));
}

pub open spec fn topology_view(t: Option<&crate::smp::Topology>) -> Option<(crate::smp::TopologySummary, Seq<crate::smp::TopologyCpu>)> {
    match t {
        Some(x) => Some((x.summary, x.cpus@)),
        None => None,
    }
}

fn render_topology(cpu: &CpuInfo, topology: Option<&crate::smp::Topology>) -> (text: Vec<u8>)
    ensures
        text@ == spec_render_topology(*cpu, topology_view(topology)),
{
    let mut text: Vec<u8> = Vec::new();
    match topology {
        Some(t) => {
            push_topology_summary(&mut text, &t.summary);
            let ghost head = text@;
            let ghost cs = t.cpus@;
            let mut i: usize = 0;
            while i < t.cpus.len()
                invariant
                    cs == t.cpus@,
                    i <= cs.len(),
                    text@ == head + topology_cpu_lines(cs.take(i as int)),
                decreases cs.len() - i,
            {
                proof {
                    assert(cs.take(i + 1).drop_last() =~= cs.take(i as int));
                }
                push_topology_cpu_line(&mut text, &t.cpus[i]);
                proof {
                    assert(text@ =~= head + topology_cpu_lines(cs.take(i + 1)));
                }
                i = i + 1;
            }
            proof {
                assert(cs.take(cs.len() as int) =~= cs);
            }
        },
        None => {
            push_line_decimal(&mut text, "bsp_apic_id ", cpu.initial_apic_id as u64);
            push_str(&mut text, "cpus 1\\nonline 1\\n");
            assert(text@ =~= spec_render_topology(*cpu, topology_view(topology)));
        },
    }
    text
}

// ---------------------------------------------------------------------------
// The mount.

/// What `/proc` keeps from its mount: the boot processor.
pub struct ProcfsState {
    pub boot_cpu: CpuInfo,
}

/// The `/proc` mount.
pub struct Procfs {
    pub state: Option<ProcfsState>,
}

impl Procfs {
    pub fn new() -> (p: Self)
        ensures
            p.state is None,
    {
        Procfs { state: None }
    }
}

/// Mounts `/proc` for the boot processor `cpu_info`.
pub fn initialize(procfs: &mut Procfs, cpu_info: &CpuInfo) -> (result: Result<ProcfsSummary, ProcfsError>)
    ensures
        old(procfs).state is Some ==> result == Err::<ProcfsSummary, ProcfsError>(ProcfsError::AlreadyInitialized)
            && final(procfs).state == old(procfs).state,
        old(procfs).state is None ==> result == Ok::<ProcfsSummary, ProcfsError>(
            ProcfsSummary { directory_count: 2, file_count: 11, entry_count: 13 },
        ) && final(procfs).state == Some(ProcfsState { boot_cpu: *cpu_info }),
{
    if procfs.state.is_some() {
        return Err(ProcfsError::AlreadyInitialized);
    }
    procfs.state = Some(ProcfsState { boot_cpu: *cpu_info });
    Ok(summary())
}

/// The kernel state `/proc` reports, read when a file is opened.
pub struct ProcfsSources {
    pub uptime_ns: u64,
    pub frame: FrameAllocatorStats,
    pub heap: HeapStats,
    pub sched: SchedulerStats,
    pub topology: Option<crate::smp::Topology>,
    pub init_exec_status: Vec<u8>,
    pub exec_status: Vec<u8>,
    pub store_initialized: bool,
    pub stored_pages: usize,
    pub store: StoreCounters,
    pub pager_initialized: bool,
    pub pager: PagerStats,
    pub fat_initialized: bool,
    pub fat: FatSummary,
}

pub open spec fn sources_topology(s: ProcfsSources) -> Option<Seq<crate::smp::TopologyCpu>> {
    match s.topology {
        Some(t) => Some(t.cpus@),
        None => None,
    }
}

pub open spec fn sources_topology_view(s: ProcfsSources) -> Option<(crate::smp::TopologySummary, Seq<crate::smp::TopologyCpu>)> {
    match s.topology {
        Some(t) => Some((t.summary, t.cpus@)),
        None => None,
    }
}

/// The bytes of the node at `p` of a mounted `/proc`.
pub open spec fn spec_read_bytes(st: ProcfsState, src: ProcfsSources, blocks: BlockRegistry, p: Seq<u8>) -> Option<Seq<u8>> {
    if is_proc_root(p) {
        Some(spec_render_root())
    } else {
        match spec_file_index(p) {
            None => None,
            Some(i) => Some(
                if i == 0 {
                    spec_render_version()
                } else if i == 1 {
                    spec_render_uptime(src.uptime_ns)
                } else if i == 2 {
                    spec_render_meminfo(src.frame, src.heap)
                } else if i == 3 {
                    spec_render_cpuinfo(st.boot_cpu, sources_topology(src))
                } else if i == 4 {
                    spec_render_schedstat(src.sched)
                } else if i == 5 {
                    spec_render_topology(st.boot_cpu, sources_topology_view(src))
                } else if i == 6 {
                    src.init_exec_status@
                } else if i == 7 {
                    src.exec_status@
                } else if i == 8 {
                    spec_render_compress(src.store_initialized, src.stored_pages, src.store, src.pager_initialized, src.pager)
                } else if i == 9 {
                    spec_render_block(blocks)
                } else {
                    spec_render_fat(src.fat_initialized, src.fat)
                },
            ),
        }
    }
}

/// The bytes of a node under `/proc`, or `None` when `/proc` is not mounted or has no such node.
pub fn render_node(procfs: &Procfs, src: &ProcfsSources, blocks: &BlockRegistry, p: &[u8]) -> (bytes: Option<Vec<u8>>)
    ensures
        match procfs.state {
            None => bytes is None,
            Some(st) => match spec_read_bytes(st, *src, *blocks, p@) {
                None => bytes is None,
                Some(b) => bytes matches Some(v) && v@ == b,
            },
        },
{
    let state = match &procfs.state {
        Some(st) => st,
        None => return None,
    };
    if bytes_eq(p, "/proc".as_bytes()) || bytes_eq(p, "/proc/".as_bytes()) {
        return Some(render_root());
    }
    let i = match file_index(p) {
        Some(i) => i,
        None => return None,
    };
    let topology = match &src.topology {
        Some(t) => Some(t),
        None => None,
    };
    let text = if i == 0 {
        render_version()
    } else if i == 1 {
        render_uptime(src.uptime_ns)
    } else if i == 2 {
        render_meminfo(&src.frame, &src.heap)
    } else if i == 3 {
        render_cpuinfo(&state.boot_cpu, topology)
    } else if i == 4 {
        render_schedstat(&src.sched)
    } else if i == 5 {
        render_topology(&state.boot_cpu, topology)
    } else if i == 6 {
        vstd::slice::slice_to_vec(src.init_exec_status.as_slice())
    } else if i == 7 {
        vstd::slice::slice_to_vec(src.exec_status.as_slice())
    } else if i == 8 {
        render_compress(src.store_initialized, src.stored_pages, &src.store, src.pager_initialized, &src.pager)
    } else if i == 9 {
        render_block(blocks)
    } else {
        render_fat(src.fat_initialized, &src.fat)
    };
    Some(text)
}

/// The text of a node under `/proc`.
pub fn read(procfs: &Procfs, src: &ProcfsSources, blocks: &BlockRegistry, path: &str) -> (text: Option<String>)
    ensures
        match procfs.state {
            None => text is None,
            Some(st) => match spec_read_bytes(st, *src, *blocks, path.spec_bytes()) {
                None => text is None,
                Some(b) => text matches Some(t) && t@ == lossy_utf8(b),
            },
        },
{
    match render_node(procfs, src, blocks, path.as_bytes()) {
        Some(b) => Some(string_from_bytes_lossy(b.as_slice())),
        None => None,
    }
}

} // verus!
