use vstd::prelude::*;
use vstd::string::StringSliceAdditionalSpecFns;

use crate::bstr::push_all;
use crate::fmt::{decimal, hex_digits, hex_fixed, line, push_decimal, push_line_decimal, push_str, yes_no_bytes};
use crate::text::{all_ascii, ascii_chars, lossy_utf8, string_from_bytes_lossy};
use crate::vfs::{
    init_path, load_image_is, materialize_init_image, spec_format_text, spec_load_prep_error_text, ExecutableFormat,
    ExecutableLoadImage, ExecutableLoadPrepError, FileSystems, Vfs, VmMapImageEntry,
};

verus! {

// ---------------------------------------------------------------------------
// Types.

/// A mapping of the armed init image, with its bytes.
pub struct ActivatedSegment {
    pub index: usize,
    pub virtual_start: u64,
    pub virtual_end: u64,
    pub map_start: u64,
    pub map_end: u64,
    pub file_bytes: u64,
    pub memory_bytes: u64,
    pub readable: bool,
    pub writable: bool,
    pub executable: bool,
    pub bytes: Vec<u8>,
}

/// The init image armed for the hand-off to user mode.
pub struct ActivatedInitImage {
    pub path: String,
    pub format: ExecutableFormat,
    pub image_type: u16,
    pub machine: u16,
    pub entry_point: u64,
    pub vm_start: u64,
    pub vm_end: u64,
    pub total_bytes: u64,
    pub zero_fill_bytes: u64,
    pub entry_segment_index: usize,
    pub entry_segment_map_offset: u64,
    pub segments: Vec<ActivatedSegment>,
}

/// The armed image, if any, and the error of the last failed activation.
pub struct InitExecState {
    pub activation: Option<ActivatedInitImage>,
    pub last_error: Option<InitExecActivateError>,
}

impl InitExecState {
    pub fn new() -> (s: Self)
        ensures
            s.activation is None,
            s.last_error is None,
    {
        InitExecState { activation: None, last_error: None }
    }
}

/// What the armed init image looks like.
#[derive(Copy, Clone)]
pub struct InitExecSummary {
    pub armed: bool,
    pub format: ExecutableFormat,
    pub image_type: u16,
    pub machine: u16,
    pub entry_point: u64,
    pub segment_count: usize,
    pub total_bytes: u64,
    pub zero_fill_bytes: u64,
    pub vm_start: u64,
    pub vm_end: u64,
    pub entry_segment_index: usize,
    pub entry_segment_map_offset: u64,
}

/// Why the init image could not be armed.
#[derive(Copy, Clone, PartialEq, Eq, Structural, Debug)]
pub enum InitExecActivateError {
    Load(ExecutableLoadPrepError),
    UnsupportedFormat,
    MissingEntryPoint,
    MissingImageType,
    MissingMachine,
    NoLoadSegments,
    NoExecutableSegments,
    EntryOutsideExecutableSegments,
    InvalidSegmentMap,
}

/// The message each activation error is reported with.
pub open spec fn spec_activate_error_text(e: InitExecActivateError) -> Seq<char> {
    match e {
        InitExecActivateError::Load(error) => spec_load_prep_error_text(error),
        InitExecActivateError::UnsupportedFormat => "init executable format is not ELF"@,
        InitExecActivateError::MissingEntryPoint => "init executable has no entry point"@,
        InitExecActivateError::MissingImageType => "init executable is missing ELF image type"@,
        InitExecActivateError::MissingMachine => "init executable is missing ELF machine id"@,
        InitExecActivateError::NoLoadSegments => "init executable has no loadable segments"@,
        InitExecActivateError::NoExecutableSegments => "init executable has no executable load segment"@,
        InitExecActivateError::EntryOutsideExecutableSegments => "entry point is outside executable segments"@,
        InitExecActivateError::InvalidSegmentMap => "materialized segment map is invalid"@,
    }
}

impl InitExecActivateError {
    pub fn as_str(self) -> (text: &'static str)
        ensures
            text@ == spec_activate_error_text(self),
    {
        match self {
            Self::Load(error) => error.as_str(),
            Self::UnsupportedFormat => "init executable format is not ELF",
            Self::MissingEntryPoint => "init executable has no entry point",
            Self::MissingImageType => "init executable is missing ELF image type",
            Self::MissingMachine => "init executable is missing ELF machine id",
            Self::NoLoadSegments => "init executable has no loadable segments",
            Self::NoExecutableSegments => "init executable has no executable load segment",
            Self::EntryOutsideExecutableSegments => "entry point is outside executable segments",
            Self::InvalidSegmentMap => "materialized segment map is invalid",
        }
    }
}

// ---------------------------------------------------------------------------
// Checking a loaded image.

/// What a walk over the mappings of an image has gathered so far.
pub struct ScanState {
    pub vm_start: u64,
    pub vm_end: u64,
    pub has_executable: bool,
    pub entry_index: Option<usize>,
    pub entry_offset: u64,
}

pub open spec fn scan_start() -> ScanState {
    ScanState { vm_start: u64::MAX, vm_end: 0, has_executable: false, entry_index: None, entry_offset: 0 }
}

/// One mapping of the walk: its length must match its bytes; the mapped range grows to
/// cover it; an executable mapping that holds the entry point records where.
pub open spec fn scan_step(acc: ScanState, seg: VmMapImageEntry, entry: u64) -> Result<ScanState, InitExecActivateError> {
    if seg.map_end < seg.map_start || seg.map_end - seg.map_start != seg.bytes@.len() {
        Err(InitExecActivateError::InvalidSegmentMap)
    } else {
        let vs = if seg.map_start < acc.vm_start { seg.map_start } else { acc.vm_start };
        let ve = if seg.map_end > acc.vm_end { seg.map_end } else { acc.vm_end };
        if seg.executable && seg.virtual_start <= entry && entry < seg.virtual_end {
            if entry < seg.map_start {
                Err(InitExecActivateError::InvalidSegmentMap)
            } else {
                Ok(
                    ScanState {
                        vm_start: vs,
                        vm_end: ve,
                        has_executable: true,
                        entry_index: Some(seg.index),
                        entry_offset: (entry - seg.map_start) as u64,
                    },
                )
            }
        } else {
            Ok(ScanState { vm_start: vs, vm_end: ve, has_executable: acc.has_executable || seg.executable, ..acc })
        }
    }
}

/// The walk over the first `n` mappings.
pub open spec fn scan(segs: Seq<VmMapImageEntry>, entry: u64, n: nat) -> Result<ScanState, InitExecActivateError>
    decreases n,
{
    if n == 0 {
        Ok(scan_start())
    } else {
        match scan(segs, entry, (n - 1) as nat) {
            Err(e) => Err(e),
            Ok(acc) => scan_step(acc, segs[n - 1], entry),
        }
    }
}

proof fn lemma_scan_error_sticks(segs: Seq<VmMapImageEntry>, entry: u64, i: nat, n: nat)
    requires
        i <= n,
        scan(segs, entry, i) is Err,
    ensures
        scan(segs, entry, n) == scan(segs, entry, i),
    decreases n - i,
{
    if i < n {
        lemma_scan_error_sticks(segs, entry, i, (n - 1) as nat);
    }
}

/// Whether an image can be armed, and what the walk over its mappings found.
pub open spec fn spec_activation_check(image: ExecutableLoadImage) -> Result<ScanState, InitExecActivateError> {
    let segs = image.vm_map_images@;
    if image.format != ExecutableFormat::Elf {
        Err(InitExecActivateError::UnsupportedFormat)
    } else if image.entry_point is None {
        Err(InitExecActivateError::MissingEntryPoint)
    } else if image.image_type is None {
        Err(InitExecActivateError::MissingImageType)
    } else if image.machine is None {
        Err(InitExecActivateError::MissingMachine)
    } else if segs.len() == 0 {
        Err(InitExecActivateError::NoLoadSegments)
    } else {
        match scan(segs, image.entry_point->Some_0, segs.len()) {
            Err(e) => Err(e),
            Ok(acc) => if !acc.has_executable {
                Err(InitExecActivateError::NoExecutableSegments)
            } else if acc.entry_index is None {
                Err(InitExecActivateError::EntryOutsideExecutableSegments)
            } else {
                Ok(acc)
            },
        }
    }
}

/// `a` keeps the fields and bytes of the mapping `seg`.
pub open spec fn segment_is(a: ActivatedSegment, seg: VmMapImageEntry) -> bool {
    &&& a.index == seg.index
    &&& a.virtual_start == seg.virtual_start
    &&& a.virtual_end == seg.virtual_end
    &&& a.map_start == seg.map_start
    &&& a.map_end == seg.map_end
    &&& a.file_bytes == seg.file_bytes
    &&& a.memory_bytes == seg.memory_bytes
    &&& a.readable == seg.readable
    &&& a.writable == seg.writable
    &&& a.executable == seg.executable
    &&& a.bytes@ == seg.bytes@
}

/// `a` is the image armed from `image`, with `acc` what the walk over its mappings found.
pub open spec fn activation_is(image: ExecutableLoadImage, acc: ScanState, a: ActivatedInitImage) -> bool {
    &&& a.path@ == image.path@
    &&& a.format == image.format
    &&& Some(a.image_type) == image.image_type
    &&& Some(a.machine) == image.machine
    &&& Some(a.entry_point) == image.entry_point
    &&& a.vm_start == acc.vm_start
    &&& a.vm_end == acc.vm_end
    &&& a.total_bytes == image.vm_map_total_bytes
    &&& a.zero_fill_bytes == image.vm_map_zero_fill_bytes
    &&& Some(a.entry_segment_index) == acc.entry_index
    &&& a.entry_segment_map_offset == acc.entry_offset
    &&& a.segments@.len() == image.vm_map_images@.len()
    &&& forall|i: int| 0 <= i < a.segments@.len() ==> #[trigger] segment_is(a.segments@[i], image.vm_map_images@[i])
}

fn to_activated_segment(segment: VmMapImageEntry) -> (a: ActivatedSegment)
    ensures
        segment_is(a, segment),
{
    ActivatedSegment {
        index: segment.index,
        virtual_start: segment.virtual_start,
        virtual_end: segment.virtual_end,
        map_start: segment.map_start,
        map_end: segment.map_end,
        file_bytes: segment.file_bytes,
        memory_bytes: segment.memory_bytes,
        readable: segment.readable,
        writable: segment.writable,
        executable: segment.executable,
        bytes: segment.bytes,
    }
}

/// One step of the walk over the mappings.
fn scan_one(acc: &ScanState, seg: &VmMapImageEntry, entry: u64) -> (r: Result<ScanState, InitExecActivateError>)
    ensures
        r == scan_step(*acc, *seg, entry),
{
    if seg.map_end < seg.map_start {
        return Err(InitExecActivateError::InvalidSegmentMap);
    }
    let expected_len = seg.map_end - seg.map_start;
    let actual_len = seg.bytes.len() as u64;
    if expected_len != actual_len {
        return Err(InitExecActivateError::InvalidSegmentMap);
    }
    let vm_start = if seg.map_start < acc.vm_start { seg.map_start } else { acc.vm_start };
    let vm_end = if seg.map_end > acc.vm_end { seg.map_end } else { acc.vm_end };
    if seg.executable && entry >= seg.virtual_start && entry < seg.virtual_end {
        if entry < seg.map_start {
            return Err(InitExecActivateError::InvalidSegmentMap);
        }
        Ok(
            ScanState {
                vm_start,
                vm_end,
                has_executable: true,
                entry_index: Some(seg.index),
                entry_offset: entry - seg.map_start,
            },
        )
    } else {
        Ok(
            ScanState {
                vm_start,
                vm_end,
                has_executable: acc.has_executable || seg.executable,
                entry_index: acc.entry_index,
                entry_offset: acc.entry_offset,
            },
        )
    }
}

/// Checks a loaded init image and arms it.
pub fn build_activation(image: ExecutableLoadImage) -> (r: Result<ActivatedInitImage, InitExecActivateError>)
    ensures
        match spec_activation_check(image) {
            Err(e) => r == Err::<ActivatedInitImage, InitExecActivateError>(e),
            Ok(acc) => r matches Ok(a) && activation_is(image, acc, a),
        },
{
    let ghost img = image;
    let ghost segs = image.vm_map_images@;
    if image.format != ExecutableFormat::Elf {
        return Err(InitExecActivateError::UnsupportedFormat);
    }
    let entry_point = match image.entry_point {
        Some(e) => e,
        None => return Err(InitExecActivateError::MissingEntryPoint),
    };
    let image_type = match image.image_type {
        Some(t) => t,
        None => return Err(InitExecActivateError::MissingImageType),
    };
    let machine = match image.machine {
        Some(m) => m,
        None => return Err(InitExecActivateError::MissingMachine),
    };
    if image.vm_map_images.len() == 0 {
        return Err(InitExecActivateError::NoLoadSegments);
    }
    let ExecutableLoadImage { path, format, vm_map_images, vm_map_total_bytes, vm_map_zero_fill_bytes, .. } = image;
    let mut rest = vm_map_images;
    let total = rest.len();
    let mut acc = ScanState { vm_start: u64::MAX, vm_end: 0, has_executable: false, entry_index: None, entry_offset: 0 };
    let mut segments: Vec<ActivatedSegment> = Vec::new();
    let mut i: usize = 0;
    while rest.len() > 0
        invariant
            img == image,
            segs == img.vm_map_images@,
            total == segs.len(),
            i + rest@.len() == total,
            rest@ == segs.subrange(i as int, total as int),
            scan(segs, entry_point, i as nat) == Ok::<ScanState, InitExecActivateError>(acc),
            segments@.len() == i,
            forall|j: int| 0 <= j < i ==> #[trigger] segment_is(segments@[j], segs[j]),
            spec_activation_check(img) == (match scan(segs, entry_point, total as nat) {
                Err(e) => Err(e),
                Ok(acc) => if !acc.has_executable {
                    Err(InitExecActivateError::NoExecutableSegments)
                } else if acc.entry_index is None {
                    Err(InitExecActivateError::EntryOutsideExecutableSegments)
                } else {
                    Ok(acc)
                },
            }),
        decreases rest@.len(),
    {
        let seg = rest.remove(0);
        assert(seg == segs[i as int]);
        let step = scan_one(&acc, &seg, entry_point);
        assert(scan(segs, entry_point, (i + 1) as nat) == step);
        match step {
            Err(e) => {
                proof {
                    lemma_scan_error_sticks(segs, entry_point, (i + 1) as nat, total as nat);
                    assert(scan(segs, entry_point, total as nat) == Err::<ScanState, InitExecActivateError>(e));
                    assert(spec_activation_check(img) == Err::<ScanState, InitExecActivateError>(e));
                }
                return Err(e);
            },
            Ok(next) => {
                acc = next;
            },
        }
        segments.push(to_activated_segment(seg));
        i = i + 1;
        assert(rest@ =~= segs.subrange(i as int, total as int));
    }
    if !acc.has_executable {
        return Err(InitExecActivateError::NoExecutableSegments);
    }
    let entry_segment_index = match acc.entry_index {
        Some(index) => index,
        None => return Err(InitExecActivateError::EntryOutsideExecutableSegments),
    };
    Ok(
        ActivatedInitImage {
            path,
            format,
            image_type,
            machine,
            entry_point,
            vm_start: acc.vm_start,
            vm_end: acc.vm_end,
            total_bytes: vm_map_total_bytes,
            zero_fill_bytes: vm_map_zero_fill_bytes,
            entry_segment_index,
            entry_segment_map_offset: acc.entry_offset,
            segments,
        },
    )
}

// ---------------------------------------------------------------------------
// Summary and activation.

/// The summary of an armed image.
pub open spec fn spec_summary(a: ActivatedInitImage) -> InitExecSummary {
    InitExecSummary {
        armed: true,
        format: a.format,
        image_type: a.image_type,
        machine: a.machine,
        entry_point: a.entry_point,
        segment_count: a.segments@.len() as usize,
        total_bytes: a.total_bytes,
        zero_fill_bytes: a.zero_fill_bytes,
        vm_start: a.vm_start,
        vm_end: a.vm_end,
        entry_segment_index: a.entry_segment_index,
        entry_segment_map_offset: a.entry_segment_map_offset,
    }
}

fn activation_summary(a: &ActivatedInitImage) -> (s: InitExecSummary)
    ensures
        s == spec_summary(*a),
{
    InitExecSummary {
        armed: true,
        format: a.format,
        image_type: a.image_type,
        machine: a.machine,
        entry_point: a.entry_point,
        segment_count: a.segments.len(),
        total_bytes: a.total_bytes,
        zero_fill_bytes: a.zero_fill_bytes,
        vm_start: a.vm_start,
        vm_end: a.vm_end,
        entry_segment_index: a.entry_segment_index,
        entry_segment_map_offset: a.entry_segment_map_offset,
    }
}

/// What arming from the outcome `loaded` of loading the init image leaves: the state
/// `s` and the answer `r`.
pub open spec fn activation_outcome(
    loaded: Result<ExecutableLoadImage, ExecutableLoadPrepError>,
    s: InitExecState,
    r: Result<InitExecSummary, InitExecActivateError>,
) -> bool {
    match loaded {
        Err(e) => {
            &&& r == Err::<InitExecSummary, InitExecActivateError>(InitExecActivateError::Load(e))
            &&& s.activation is None
            &&& s.last_error == Some(InitExecActivateError::Load(e))
        },
        Ok(image) => match spec_activation_check(image) {
            Err(e) => {
                &&& r == Err::<InitExecSummary, InitExecActivateError>(e)
                &&& s.activation is None
                &&& s.last_error == Some(e)
            },
            Ok(acc) => {
                &&& s.activation matches Some(a) && activation_is(image, acc, a) && r == Ok::<
                    InitExecSummary,
                    InitExecActivateError,
                >(spec_summary(a))
                &&& s.last_error is None
            },
        },
    }
}

/// Arms the init image from the outcome of loading it, and records the result.
pub fn activate_loaded(state: &mut InitExecState, loaded: Result<ExecutableLoadImage, ExecutableLoadPrepError>) -> (r:
    Result<InitExecSummary, InitExecActivateError>)
    ensures
        activation_outcome(loaded, *final(state), r),
{
    let result = match loaded {
        Err(e) => Err(InitExecActivateError::Load(e)),
        Ok(image) => build_activation(image),
    };
    match result {
        Ok(activation) => {
            let summary = activation_summary(&activation);
            state.activation = Some(activation);
            state.last_error = None;
            Ok(summary)
        },
        Err(error) => {
            state.activation = None;
            state.last_error = Some(error);
            Err(error)
        },
    }
}

/// Loads `/initrd/init`, arms it for the hand-off to user mode and records the result.
pub fn activate_init_handoff(state: &mut InitExecState, vfs: &Vfs, fs: &FileSystems) -> (r: Result<
    InitExecSummary,
    InitExecActivateError,
>)
    requires
        fs.wf(),
    ensures
        exists|loaded: Result<ExecutableLoadImage, ExecutableLoadPrepError>|
            load_image_is(*vfs, *fs, init_path(), loaded) && #[trigger] activation_outcome(loaded, *final(state), r),
{
    let loaded = materialize_init_image(vfs, fs);
    let ghost g = loaded;
    let r = activate_loaded(state, loaded);
    assert(load_image_is(*vfs, *fs, init_path(), g) && activation_outcome(g, *state, r));
    r
}

// ---------------------------------------------------------------------------
// Status text.

pub open spec fn hex0x(v: nat, width: nat) -> Seq<u8> {
    seq![0x30u8, 0x78u8] + hex_fixed(v, width)
}

pub open spec fn perm_byte(on: bool, c: u8) -> u8 {
    if on { c } else { 0x2du8 }
}

/// The addresses part of the line that describes the first mapping of an armed image.
pub open spec fn segment0_head(g: ActivatedSegment) -> Seq<u8> {
    "segment0 idx=".spec_bytes() + decimal(g.index as nat) + " vaddr=".spec_bytes() + hex0x(g.virtual_start as nat, 16)
        + "..".spec_bytes() + hex0x(g.virtual_end as nat, 16) + " map=".spec_bytes() + hex0x(g.map_start as nat, 16)
        + "..".spec_bytes() + hex0x(g.map_end as nat, 16)
}

/// The sizes and permissions part of that line, with its line feed.
pub open spec fn segment0_tail(g: ActivatedSegment) -> Seq<u8> {
    " file=".spec_bytes() + decimal(g.file_bytes as nat) + " mem=".spec_bytes() + decimal(g.memory_bytes as nat)
        + " perms=".spec_bytes() + seq![
        perm_byte(g.readable, 0x72u8),
        perm_byte(g.writable, 0x77u8),
        perm_byte(g.executable, 0x78u8),
    ] + " bytes=".spec_bytes() + decimal(g.bytes@.len()) + seq![0x0au8]
}

/// The line that describes the first mapping of an armed image.
pub open spec fn segment0_line(g: ActivatedSegment) -> Seq<u8> {
    segment0_head(g) + segment0_tail(g)
}

/// The first lines of the status of an armed image.
pub open spec fn identity_lines(a: ActivatedInitImage) -> Seq<u8> {
    line("armed ".spec_bytes(), yes_no_bytes(true)) + line("path ".spec_bytes(), vstd::utf8::encode_utf8(a.path@))
        + line("format ".spec_bytes(), vstd::utf8::encode_utf8(spec_format_text(a.format))) + line(
        "machine ".spec_bytes(),
        hex0x(a.machine as nat, 4),
    ) + line("image_type ".spec_bytes(), hex0x(a.image_type as nat, 4)) + line(
        "entry_point ".spec_bytes(),
        hex0x(a.entry_point as nat, 16),
    )
}

/// The layout lines of the status of an armed image.
pub open spec fn layout_lines(a: ActivatedInitImage) -> Seq<u8> {
    line("vm_range ".spec_bytes(), hex0x(a.vm_start as nat, 16) + "..".spec_bytes() + hex0x(a.vm_end as nat, 16))
        + line("segments ".spec_bytes(), decimal(a.segments@.len())) + line(
        "bytes ".spec_bytes(),
        decimal(a.total_bytes as nat),
    ) + line("zero_fill ".spec_bytes(), decimal(a.zero_fill_bytes as nat)) + line(
        "entry_segment ".spec_bytes(),
        decimal(a.entry_segment_index as nat),
    ) + line("entry_offset ".spec_bytes(), decimal(a.entry_segment_map_offset as nat)) + (if a.segments@.len() > 0 {
        segment0_line(a.segments@[0])
    } else {
        Seq::empty()
    })
}

/// The status text of the init hand-off, as bytes.
pub open spec fn spec_status_bytes(s: InitExecState) -> Seq<u8> {
    let body = match s.activation {
        Some(a) => identity_lines(a) + layout_lines(a),
        None => line("armed ".spec_bytes(), yes_no_bytes(false)),
    };
    let err = match s.last_error {
        Some(e) => vstd::utf8::encode_utf8(spec_activate_error_text(e)),
        None => "<none>".spec_bytes(),
    };
    body + line("last_error ".spec_bytes(), err)
}

/// After an activation, the status text reports it: an armed image opens with
/// `armed yes` and closes with `last_error <none>`; a refused one reads `armed no`
/// followed by the error, whatever was armed before.
pub proof fn lemma_activation_status(
    loaded: Result<ExecutableLoadImage, ExecutableLoadPrepError>,
    s: InitExecState,
    r: Result<InitExecSummary, InitExecActivateError>,
)
    requires
        activation_outcome(loaded, s, r),
    ensures
        r is Ok ==> {
            let head = line("armed ".spec_bytes(), yes_no_bytes(true));
            let tail = line("last_error ".spec_bytes(), "<none>".spec_bytes());
            let t = spec_status_bytes(s);
            &&& t.len() >= head.len() + tail.len()
            &&& t.take(head.len() as int) == head
            &&& t.skip(t.len() - tail.len()) == tail
        },
        r matches Err(e) ==> spec_status_bytes(s) == line("armed ".spec_bytes(), yes_no_bytes(false)) + line(
            "last_error ".spec_bytes(),
            vstd::utf8::encode_utf8(spec_activate_error_text(e)),
        ),
{
    if r is Ok {
        let a = s.activation->0;
        let head = line("armed ".spec_bytes(), yes_no_bytes(true));
        let tail = line("last_error ".spec_bytes(), "<none>".spec_bytes());
        let rest = line("path ".spec_bytes(), vstd::utf8::encode_utf8(a.path@)) + line(
            "format ".spec_bytes(),
            vstd::utf8::encode_utf8(spec_format_text(a.format)),
        ) + line("machine ".spec_bytes(), hex0x(a.machine as nat, 4)) + line(
            "image_type ".spec_bytes(),
            hex0x(a.image_type as nat, 4),
        ) + line("entry_point ".spec_bytes(), hex0x(a.entry_point as nat, 16));
        let t = spec_status_bytes(s);
        assert(identity_lines(a) =~= head + rest);
        assert(t =~= head + (rest + layout_lines(a)) + tail);
        assert(t.take(head.len() as int) =~= head);
        assert(t.skip(t.len() - tail.len()) =~= tail);
    }
}

fn push_hex0x(out: &mut Vec<u8>, v: u64, width: usize)
    requires
        width <= 16,
    ensures
        final(out)@ == old(out)@ + hex0x(v as nat, width as nat),
{
    out.push(0x30);
    out.push(0x78);
    let digits = hex_digits(v, width);
    push_all(out, digits.as_slice());
    assert(final(out)@ =~= old(out)@ + hex0x(v as nat, width as nat));
}

fn push_line_hex(out: &mut Vec<u8>, label: &str, v: u64, width: usize)
    requires
        width <= 16,
    ensures
        final(out)@ == old(out)@ + line(label.spec_bytes(), hex0x(v as nat, width as nat)),
{
    push_str(out, label);
    push_hex0x(out, v, width);
    out.push(0x0a);
    assert(final(out)@ =~= old(out)@ + line(label.spec_bytes(), hex0x(v as nat, width as nat)));
}

fn push_segment0_head(out: &mut Vec<u8>, g: &ActivatedSegment)
    ensures
        final(out)@ == old(out)@ + segment0_head(*g),
{
    let ghost start = out@;
    push_str(out, "segment0 idx=");
    push_decimal(out, g.index as u64);
    push_str(out, " vaddr=");
    push_hex0x(out, g.virtual_start, 16);
    push_str(out, "..");
    push_hex0x(out, g.virtual_end, 16);
    push_str(out, " map=");
    push_hex0x(out, g.map_start, 16);
    push_str(out, "..");
    push_hex0x(out, g.map_end, 16);
    assert(out@ =~= start + segment0_head(*g));
}

#[verifier::rlimit(40)]
fn push_segment0_tail(out: &mut Vec<u8>, g: &ActivatedSegment)
    ensures
        final(out)@ == old(out)@ + segment0_tail(*g),
{
    let ghost start = out@;
    push_str(out, " file=");
    push_decimal(out, g.file_bytes);
    push_str(out, " mem=");
    push_decimal(out, g.memory_bytes);
    push_str(out, " perms=");
    out.push(if g.readable { 0x72 } else { 0x2d });
    out.push(if g.writable { 0x77 } else { 0x2d });
    out.push(if g.executable { 0x78 } else { 0x2d });
    push_str(out, " bytes=");
    push_decimal(out, g.bytes.len() as u64);
    out.push(0x0a);
    assert(out@ =~= start + segment0_tail(*g));
}

fn push_segment0(out: &mut Vec<u8>, g: &ActivatedSegment)
    ensures
        final(out)@ == old(out)@ + segment0_line(*g),
{
    let ghost start = out@;
    push_segment0_head(out, g);
    push_segment0_tail(out, g);
    assert(out@ =~= start + segment0_line(*g));
}

fn push_identity_lines(out: &mut Vec<u8>, a: &ActivatedInitImage)
    ensures
        final(out)@ == old(out)@ + identity_lines(*a),
{
    let ghost start = out@;
    push_str(out, "armed ");
    push_str(out, "yes");
    out.push(0x0a);
    proof {
        reveal_strlit("yes");
        vstd::string::is_ascii_spec_bytes("yes");
    }
    assert(out@ =~= start + line("armed ".spec_bytes(), yes_no_bytes(true)));
    let ghost s1 = out@;
    push_str(out, "path ");
    push_str(out, a.path.as_str());
    out.push(0x0a);
    assert(out@ =~= s1 + line("path ".spec_bytes(), vstd::utf8::encode_utf8(a.path@)));
    let ghost s2 = out@;
    push_str(out, "format ");
    push_str(out, a.format.as_str());
    out.push(0x0a);
    assert(out@ =~= s2 + line("format ".spec_bytes(), vstd::utf8::encode_utf8(spec_format_text(a.format))));
    push_line_hex(out, "machine ", a.machine as u64, 4);
    push_line_hex(out, "image_type ", a.image_type as u64, 4);
    push_line_hex(out, "entry_point ", a.entry_point, 16);
    assert(out@ =~= start + identity_lines(*a));
}

fn push_layout_lines(out: &mut Vec<u8>, a: &ActivatedInitImage)
    ensures
        final(out)@ == old(out)@ + layout_lines(*a),
{
    let ghost start = out@;
    push_str(out, "vm_range ");
    push_hex0x(out, a.vm_start, 16);
    push_str(out, "..");
    push_hex0x(out, a.vm_end, 16);
    out.push(0x0a);
    assert(out@ =~= start + line(
        "vm_range ".spec_bytes(),
        hex0x(a.vm_start as nat, 16) + "..".spec_bytes() + hex0x(a.vm_end as nat, 16),
    ));
    push_line_decimal(out, "segments ", a.segments.len() as u64);
    push_line_decimal(out, "bytes ", a.total_bytes);
    push_line_decimal(out, "zero_fill ", a.zero_fill_bytes);
    push_line_decimal(out, "entry_segment ", a.entry_segment_index as u64);
    push_line_decimal(out, "entry_offset ", a.entry_segment_map_offset);
    let ghost s6 = out@;
    if a.segments.len() > 0 {
        push_segment0(out, &a.segments[0]);
    }
    assert(out@ =~= start + layout_lines(*a));
}

/// The status text of the init hand-off: the armed image, if any, and the last error.
pub fn render_status(state: &InitExecState) -> (text: String)
    ensures
        text@ == lossy_utf8(spec_status_bytes(*state)),
        all_ascii(spec_status_bytes(*state)) ==> text@ == ascii_chars(spec_status_bytes(*state)),
{
    let mut out: Vec<u8> = Vec::new();
    match &state.activation {
        Some(a) => {
            push_identity_lines(&mut out, a);
            push_layout_lines(&mut out, a);
        },
        None => {
            push_str(&mut out, "armed ");
            push_str(&mut out, "no");
            out.push(0x0a);
            proof {
                reveal_strlit("no");
                vstd::string::is_ascii_spec_bytes("no");
            }
        },
    }
    let ghost body = out@;
    push_str(&mut out, "last_error ");
    match state.last_error {
        Some(e) => push_str(&mut out, e.as_str()),
        None => push_str(&mut out, "<none>"),
    }
    out.push(0x0a);
    assert(out@ =~= spec_status_bytes(*state));
    string_from_bytes_lossy(out.as_slice())
}

} // verus!
