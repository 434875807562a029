use vstd::prelude::*;
use vstd::string::StringSliceAdditionalSpecFns;

use crate::block::BlockRegistry;
use crate::bstr::{bytes_eq, has_prefix, push_all, starts_with};
use crate::devfs::{Devfs, DevfsNodeKind};
use crate::exec::{opt_lossy, opt_text, ImageKind, ParseError};
use crate::fmt::{hex_digits, hex_fixed, push_str};
use crate::initrd::{Initrd, InitrdNodeKind};
use crate::procfs::{Procfs, ProcfsNodeKind, ProcfsSources};
use crate::text::{all_ascii, ascii_chars, lossy_utf8, string_from_bytes_lossy};
use crate::tty::TtyStats;

verus! {

// ---------------------------------------------------------------------------
// Types.

/// The file system a node belongs to.
#[derive(Copy, Clone, PartialEq, Eq, Structural, Debug)]
pub enum VfsMountKind {
    Root,
    Devfs,
    Initrd,
    Procfs,
}

impl VfsMountKind {
    pub fn as_str(self) -> (text: &'static str)
        ensures
            text@ == spec_mount_kind_text(self),
    {
        match self {
            Self::Root => "rootfs",
            Self::Devfs => "devfs",
            Self::Initrd => "initrd",
            Self::Procfs => "procfs",
        }
    }
}

/// The name each mount kind is reported with.
pub open spec fn spec_mount_kind_text(k: VfsMountKind) -> Seq<char> {
    match k {
        VfsMountKind::Root => "rootfs"@,
        VfsMountKind::Devfs => "devfs"@,
        VfsMountKind::Initrd => "initrd"@,
        VfsMountKind::Procfs => "procfs"@,
    }
}

/// What a node is.
#[derive(Copy, Clone, PartialEq, Eq, Structural, Debug)]
pub enum VfsNodeKind {
    Directory,
    File,
    Device,
}

/// A node found by a path lookup.
pub struct VfsNode {
    pub path: String,
    pub mount: VfsMountKind,
    pub kind: VfsNodeKind,
    pub size: usize,
    pub executable: bool,
}

/// Counts of the mounted tree.
#[derive(Copy, Clone, PartialEq, Eq, Structural, Debug)]
pub struct VfsSummary {
    pub mount_count: usize,
    pub root_entry_count: usize,
    pub directory_count: usize,
}

/// Why the tree could not be mounted.
#[derive(Copy, Clone, PartialEq, Eq, Structural, Debug)]
pub enum VfsError {
    AlreadyInitialized,
}

impl VfsError {
    pub fn as_str(self) -> (text: &'static str)
        ensures
            text@ == "vfs is already initialized"@,
    {
        match self {
            Self::AlreadyInitialized => "vfs is already initialized",
        }
    }
}

/// The format of an executable file.
#[derive(Copy, Clone, PartialEq, Eq, Structural, Debug)]
pub enum ExecutableFormat {
    Elf,
    ShebangScript,
    Text,
    Unknown,
}

impl ExecutableFormat {
    pub fn as_str(self) -> (text: &'static str)
        ensures
            text@ == spec_format_text(self),
    {
        match self {
            Self::Elf => "elf",
            Self::ShebangScript => "script-shebang",
            Self::Text => "text",
            Self::Unknown => "unknown",
        }
    }
}

/// The name each executable format is reported with.
pub open spec fn spec_format_text(f: ExecutableFormat) -> Seq<char> {
    match f {
        ExecutableFormat::Elf => "elf"@,
        ExecutableFormat::ShebangScript => "script-shebang"@,
        ExecutableFormat::Text => "text"@,
        ExecutableFormat::Unknown => "unknown"@,
    }
}

/// A file found to hold an executable image.
pub struct ExecutableCandidate {
    pub path: String,
    pub mount: VfsMountKind,
    pub format: ExecutableFormat,
    pub size: usize,
    pub executable: bool,
}

/// Where one loadable segment is to be mapped.
#[derive(Copy, Clone, PartialEq, Eq, Structural, Debug)]
pub struct VmMapPlanEntry {
    pub index: usize,
    pub file_offset: u64,
    pub virtual_start: u64,
    pub virtual_end: u64,
    pub map_start: u64,
    pub map_end: u64,
    pub page_offset: u64,
    pub file_bytes: u64,
    pub memory_bytes: u64,
    pub zero_fill_bytes: u64,
    pub alignment: u64,
    pub readable: bool,
    pub writable: bool,
    pub executable: bool,
}

/// One loadable segment together with the bytes of its mapping.
pub struct VmMapImageEntry {
    pub index: usize,
    pub file_offset: u64,
    pub virtual_start: u64,
    pub virtual_end: u64,
    pub map_start: u64,
    pub map_end: u64,
    pub page_offset: u64,
    pub file_bytes: u64,
    pub memory_bytes: u64,
    pub zero_fill_bytes: u64,
    pub alignment: u64,
    pub readable: bool,
    pub writable: bool,
    pub executable: bool,
    pub bytes: Vec<u8>,
}

/// Why no executable was found at a path.
#[derive(Copy, Clone, PartialEq, Eq, Structural, Debug)]
pub enum ExecutableDiscoveryError {
    VfsUnavailable,
    PathNotFound,
    NotAFile,
    BackendUnavailable,
    ParseFailed(ParseError),
}

impl ExecutableDiscoveryError {
    pub fn as_str(self) -> (text: &'static str)
        ensures
            text@ == spec_discovery_error_text(self),
    {
        match self {
            Self::VfsUnavailable => "vfs is not initialized",
            Self::PathNotFound => "executable path was not found",
            Self::NotAFile => "executable path resolved to a non-file node",
            Self::BackendUnavailable => "backend cannot provide executable bytes",
            Self::ParseFailed(error) => error.as_str(),
        }
    }
}

/// The message each discovery error is reported with.
pub open spec fn spec_discovery_error_text(e: ExecutableDiscoveryError) -> Seq<char> {
    match e {
        ExecutableDiscoveryError::VfsUnavailable => "vfs is not initialized"@,
        ExecutableDiscoveryError::PathNotFound => "executable path was not found"@,
        ExecutableDiscoveryError::NotAFile => "executable path resolved to a non-file node"@,
        ExecutableDiscoveryError::BackendUnavailable => "backend cannot provide executable bytes"@,
        ExecutableDiscoveryError::ParseFailed(error) => crate::exec::spec_parse_error_text(error),
    }
}

/// What preparing an executable for loading found.
pub struct ExecutableLoadPrep {
    pub path: String,
    pub mount: VfsMountKind,
    pub format: ExecutableFormat,
    pub size: usize,
    pub executable: bool,
    pub image_type: Option<u16>,
    pub machine: Option<u16>,
    pub entry_point: Option<u64>,
    pub program_header_count: usize,
    pub load_segment_count: usize,
    pub load_base: Option<u64>,
    pub load_offset: Option<u64>,
    pub load_file_bytes: u64,
    pub load_memory_bytes: u64,
    pub writable_load_segments: usize,
    pub executable_load_segments: usize,
    pub max_alignment: u64,
    pub vm_map_entries: Vec<VmMapPlanEntry>,
    pub vm_map_total_bytes: u64,
    pub vm_map_zero_fill_bytes: u64,
    pub vm_map_start: Option<u64>,
    pub vm_map_end: Option<u64>,
    pub interpreter: Option<String>,
    pub interpreter_source: Option<String>,
    pub interpreter_argument: Option<String>,
    pub interpreter_resolved: bool,
}

/// An executable with the bytes of each of its mappings.
pub struct ExecutableLoadImage {
    pub path: String,
    pub mount: VfsMountKind,
    pub format: ExecutableFormat,
    pub size: usize,
    pub executable: bool,
    pub image_type: Option<u16>,
    pub machine: Option<u16>,
    pub entry_point: Option<u64>,
    pub interpreter: Option<String>,
    pub interpreter_source: Option<String>,
    pub interpreter_argument: Option<String>,
    pub interpreter_resolved: bool,
    pub vm_map_images: Vec<VmMapImageEntry>,
    pub vm_map_total_bytes: u64,
    pub vm_map_zero_fill_bytes: u64,
}

/// Why an executable could not be prepared.
#[derive(Copy, Clone, PartialEq, Eq, Structural, Debug)]
pub enum ExecutableLoadPrepError {
    Discovery(ExecutableDiscoveryError),
    Parse(ParseError),
}

impl ExecutableLoadPrepError {
    pub fn as_str(self) -> (text: &'static str)
        ensures
            text@ == spec_load_prep_error_text(self),
    {
        match self {
            Self::Discovery(error) => error.as_str(),
            Self::Parse(error) => error.as_str(),
        }
    }
}

/// The message each preparation error is reported with.
pub open spec fn spec_load_prep_error_text(e: ExecutableLoadPrepError) -> Seq<char> {
    match e {
        ExecutableLoadPrepError::Discovery(error) => spec_discovery_error_text(error),
        ExecutableLoadPrepError::Parse(error) => crate::exec::spec_parse_error_text(error),
    }
}

/// The format that an image kind is reported as.
pub open spec fn spec_format_of(kind: ImageKind) -> ExecutableFormat {
    match kind {
        ImageKind::Elf64 => ExecutableFormat::Elf,
        ImageKind::ShebangScript => ExecutableFormat::ShebangScript,
        ImageKind::Text => ExecutableFormat::Text,
        ImageKind::Unknown => ExecutableFormat::Unknown,
    }
}

fn executable_format_from_kind(kind: ImageKind) -> (f: ExecutableFormat)
    ensures
        f == spec_format_of(kind),
{
    match kind {
        ImageKind::Elf64 => ExecutableFormat::Elf,
        ImageKind::ShebangScript => ExecutableFormat::ShebangScript,
        ImageKind::Text => ExecutableFormat::Text,
        ImageKind::Unknown => ExecutableFormat::Unknown,
    }
}

// ---------------------------------------------------------------------------
// Number formatting.

/// `0x` and `width` hexadecimal digits of the value, or `<none>`.
pub open spec fn spec_format_hex(value: Option<u64>, width: nat) -> Seq<char> {
    match value {
        Some(v) => ascii_chars(seq![0x30u8, 0x78] + hex_fixed(v as nat, width)),
        None => "<none>"@,
    }
}

proof fn lemma_hex_fixed_ascii(v: nat, width: nat)
    ensures
        forall|i: int| 0 <= i < hex_fixed(v, width).len() ==> hex_fixed(v, width)[i] < 128,
        hex_fixed(v, width).len() == width,
    decreases width,
{
    if width > 0 {
        lemma_hex_fixed_ascii(v / 16, (width - 1) as nat);
    }
}

fn format_hex(value: Option<u64>, width: usize) -> (text: String)
    requires
        width <= 16,
    ensures
        text@ == spec_format_hex(value, width as nat),
{
    match value {
        Some(v) => {
            let mut bytes: Vec<u8> = Vec::new();
            bytes.push(0x30);
            bytes.push(0x78);
            let digits = hex_digits(v, width);
            push_all(&mut bytes, digits.as_slice());
            proof {
                lemma_hex_fixed_ascii(v as nat, width as nat);
                assert(bytes@ =~= seq![0x30u8, 0x78] + hex_fixed(v as nat, width as nat));
            }
            string_from_bytes_lossy(bytes.as_slice())
        },
        None => "<none>".to_owned(),
    }
}

/// `0x` and four hexadecimal digits, or `<none>`.
pub fn format_u16_hex(value: Option<u16>) -> (text: String)
    ensures
        text@ == spec_format_hex(
            match value {
                Some(v) => Some(v as u64),
                None => None,
            },
            4,
        ),
{
    let wide = match value {
        Some(v) => Some(v as u64),
        None => None,
    };
    format_hex(wide, 4)
}

/// `0x` and sixteen hexadecimal digits, or `<none>`.
pub fn format_u64_hex(value: Option<u64>) -> (text: String)
    ensures
        text@ == spec_format_hex(value, 16),
{
    format_hex(value, 16)
}

fn hex_u16(value: u16) -> (digits: Vec<u8>)
    ensures
        digits@ == hex_fixed(value as nat, 4),
{
    hex_digits(value as u64, 4)
}

fn hex_u64(value: u64) -> (digits: Vec<u8>)
    ensures
        digits@ == hex_fixed(value as nat, 16),
{
    hex_digits(value, 16)
}

/// The three permission letters, `-` for each missing one.
pub open spec fn spec_rwx(readable: bool, writable: bool, executable: bool) -> Seq<char> {
    seq![if readable { 'r' } else { '-' }, if writable { 'w' } else { '-' }, if executable { 'x' } else { '-' }]
}

/// The permissions of a mapping as `rwx` letters.
pub fn format_rwx(readable: bool, writable: bool, executable: bool) -> (text: &'static str)
    ensures
        text@ == spec_rwx(readable, writable, executable),
{
    proof {
        reveal_strlit("rwx");
        reveal_strlit("rw-");
        reveal_strlit("r-x");
        reveal_strlit("r--");
        reveal_strlit("-wx");
        reveal_strlit("-w-");
        reveal_strlit("--x");
        reveal_strlit("---");
    }
    match (readable, writable, executable) {
        (true, true, true) => "rwx",
        (true, true, false) => "rw-",
        (true, false, true) => "r-x",
        (true, false, false) => "r--",
        (false, true, true) => "-wx",
        (false, true, false) => "-w-",
        (false, false, true) => "--x",
        (false, false, false) => "---",
    }
}

} // verus!

verus! {

// ---------------------------------------------------------------------------
// Path normalization.

/// "."
pub open spec fn dot() -> Seq<u8> {
    seq![0x2eu8]
}

/// ".."
pub open spec fn dot_dot() -> Seq<u8> {
    seq![0x2eu8, 0x2e]
}

/// "/"
pub open spec fn root_path() -> Seq<u8> {
    seq![0x2fu8]
}

/// The kept segments once `seg` is taken in: empty segments and `.` change nothing,
/// `..` drops the last kept segment and fails when none is left, any other is kept.
pub open spec fn take_segment(kept: Seq<Seq<u8>>, seg: Seq<u8>) -> Option<Seq<Seq<u8>>> {
    if seg.len() == 0 || seg == dot() {
        Some(kept)
    } else if seg == dot_dot() {
        if kept.len() == 0 {
            None
        } else {
            Some(kept.drop_last())
        }
    } else {
        Some(kept.push(seg))
    }
}

/// The segments kept from `p`, split at each `/`, scanning from `i` with the current
/// segment starting at `start`.
pub open spec fn fold_segments(p: Seq<u8>, start: int, i: int, kept: Seq<Seq<u8>>) -> Option<Seq<Seq<u8>>>
    decreases p.len() - i,
{
    if i >= p.len() {
        take_segment(kept, p.subrange(start, p.len() as int))
    } else if p[i] == 0x2f {
        match take_segment(kept, p.subrange(start, i)) {
            None => None,
            Some(k) => fold_segments(p, i + 1, i + 1, k),
        }
    } else {
        fold_segments(p, start, i + 1, kept)
    }
}

/// Each kept segment preceded by a `/`.
pub open spec fn join_segments(kept: Seq<Seq<u8>>) -> Seq<u8>
    decreases kept.len(),
{
    if kept.len() == 0 {
        Seq::empty()
    } else {
        join_segments(kept.drop_last()) + root_path() + kept.last()
    }
}

/// The absolute path `p` with empty segments and `.` removed and each `..` applied;
/// `None` when `p` is not absolute or climbs above the root.
pub open spec fn spec_normalize_path(p: Seq<u8>) -> Option<Seq<u8>> {
    if p.len() == 0 || p[0] != 0x2f {
        None
    } else {
        match fold_segments(p, 0, 0, Seq::empty()) {
            None => None,
            Some(kept) => Some(if kept.len() == 0 { root_path() } else { join_segments(kept) }),
        }
    }
}

/// The segments that ranges of `p` stand for.
pub open spec fn range_segments(p: Seq<u8>, rs: Seq<(usize, usize)>) -> Seq<Seq<u8>> {
    Seq::new(rs.len(), |k: int| p.subrange(rs[k].0 as int, rs[k].1 as int))
}

pub open spec fn ranges_within(p: Seq<u8>, rs: Seq<(usize, usize)>) -> bool {
    forall|k: int| 0 <= k < rs.len() ==> (#[trigger] rs[k]).0 <= rs[k].1 <= p.len()
}

/// Takes the segment `p[start..end]` into the kept ranges; `false` when `..` finds none left.
fn take_segment_range(p: &[u8], kept: &mut Vec<(usize, usize)>, start: usize, end: usize) -> (ok: bool)
    requires
        start <= end <= p@.len(),
        ranges_within(p@, old(kept)@),
    ensures
        ranges_within(p@, final(kept)@),
        match take_segment(range_segments(p@, old(kept)@), p@.subrange(start as int, end as int)) {
            None => !ok,
            Some(k) => ok && range_segments(p@, final(kept)@) == k,
        },
{
    let ghost seg = p@.subrange(start as int, end as int);
    let len = end - start;
    if len == 0 {
        return true;
    }
    if len == 1 && p[start] == 0x2e {
        assert(seg =~= dot());
        return true;
    }
    assert(seg != dot()) by {
        if seg == dot() {
            assert(dot().len() == 1 && dot()[0] == 0x2e);
            assert(seg.len() == 1);
            assert(seg[0] == p@[start as int]);
        }
    }
    if len == 2 && p[start] == 0x2e && p[start + 1] == 0x2e {
        assert(seg =~= dot_dot());
        if kept.len() == 0 {
            return false;
        }
        let _ = kept.pop();
        assert(range_segments(p@, kept@) =~= range_segments(p@, old(kept)@).drop_last());
        return true;
    }
    assert(seg != dot_dot()) by {
        if seg == dot_dot() {
            assert(dot_dot().len() == 2 && dot_dot()[0] == 0x2e && dot_dot()[1] == 0x2e);
            assert(seg.len() == 2);
            assert(seg[0] == p@[start as int] && seg[1] == p@[start + 1]);
        }
    }
    kept.push((start, end));
    assert(range_segments(p@, kept@) =~= range_segments(p@, old(kept)@).push(seg));
    true
}

/// Normalizes an absolute path: `None` when it does not start with `/` or climbs above the root.
fn normalize_path(path: &[u8]) -> (result: Option<Vec<u8>>)
    ensures
        match spec_normalize_path(path@) {
            None => result is None,
            Some(n) => result matches Some(v) && v@ == n,
        },
{
    if path.len() == 0 || path[0] != 0x2f {
        return None;
    }
    let mut kept: Vec<(usize, usize)> = Vec::new();
    let mut start: usize = 0;
    let mut i: usize = 0;
    assert(range_segments(path@, kept@) =~= Seq::<Seq<u8>>::empty());
    while i < path.len()
        invariant
            start <= i <= path@.len(),
            ranges_within(path@, kept@),
            fold_segments(path@, 0, 0, Seq::empty()) == fold_segments(
                path@,
                start as int,
                i as int,
                range_segments(path@, kept@),
            ),
        decreases path@.len() - i,
    {
        if path[i] == 0x2f {
            let ok = take_segment_range(path, &mut kept, start, i);
            if !ok {
                return None;
            }
            start = i + 1;
        }
        i = i + 1;
    }
    let ok = take_segment_range(path, &mut kept, start, path.len());
    if !ok {
        return None;
    }
    let ghost segs = range_segments(path@, kept@);
    let mut out: Vec<u8> = Vec::new();
    if kept.len() == 0 {
        out.push(0x2f);
        assert(out@ =~= root_path());
        return Some(out);
    }
    let mut j: usize = 0;
    assert(segs.take(0) =~= Seq::<Seq<u8>>::empty());
    while j < kept.len()
        invariant
            j <= kept@.len(),
            ranges_within(path@, kept@),
            segs == range_segments(path@, kept@),
            out@ == join_segments(segs.take(j as int)),
        decreases kept@.len() - j,
    {
        let (a, b) = kept[j];
        out.push(0x2f);
        push_all(&mut out, &path[a..b]);
        proof {
            assert(segs.take(j + 1).drop_last() =~= segs.take(j as int));
            assert(segs[j as int] =~= path@.subrange(a as int, b as int));
        }
        j = j + 1;
    }
    assert(segs.take(kept@.len() as int) =~= segs);
    Some(out)
}

} // verus!

verus! {

// ---------------------------------------------------------------------------
// The mounted tree.

/// The file systems mounted under the root, and the state their files report.
pub struct FileSystems {
    pub initrd: Initrd,
    pub devfs: Devfs,
    pub procfs: Procfs,
    pub blocks: BlockRegistry,
    pub tty: TtyStats,
    pub proc_sources: ProcfsSources,
}

impl FileSystems {
    /// The initrd's entries lie inside its archive, and the counts fit in `usize`.
    pub open spec fn wf(&self) -> bool {
        &&& self.initrd.wf()
        &&& self.blocks.partitions@.len() < usize::MAX
        &&& self.initrd.state matches Some(st) ==> st.entries@.len() + 3 <= usize::MAX
    }
}

/// Whether the tree is mounted.
pub struct Vfs {
    pub initialized: bool,
}

impl Vfs {
    /// A tree that is not mounted yet.
    pub fn new() -> (v: Self)
        ensures
            !v.initialized,
    {
        Vfs { initialized: false }
    }
}

/// "/dev"
pub open spec fn dev_root() -> Seq<u8> {
    "/dev".spec_bytes()
}

/// "/initrd"
pub open spec fn initrd_root() -> Seq<u8> {
    "/initrd".spec_bytes()
}

/// "/proc"
pub open spec fn proc_root() -> Seq<u8> {
    "/proc".spec_bytes()
}

/// `p` is the mount point `root` or lies below it.
pub open spec fn under(p: Seq<u8>, root: Seq<u8>) -> bool {
    p == root || has_prefix(p, root + root_path())
}

/// The root listing: one line per mount point.
pub open spec fn spec_render_root(initrd_online: bool) -> Seq<u8> {
    "dev\n".spec_bytes() + (if initrd_online {
        "initrd\n".spec_bytes()
    } else {
        Seq::empty()
    }) + "proc\n".spec_bytes()
}

fn render_root(fs: &FileSystems) -> (text: Vec<u8>)
    ensures
        text@ == spec_render_root(fs.initrd.state is Some),
{
    let mut text: Vec<u8> = Vec::new();
    push_str(&mut text, "dev\n");
    let online = crate::initrd::is_initialized(&fs.initrd);
    if online {
        push_str(&mut text, "initrd\n");
    }
    push_str(&mut text, "proc\n");
    assert(text@ =~= spec_render_root(online));
    text
}

/// The bytes of the node at the normalized path `p` of the file system `mount`.
pub open spec fn spec_backend_bytes(fs: FileSystems, mount: VfsMountKind, p: Seq<u8>) -> Option<Seq<u8>> {
    match mount {
        VfsMountKind::Root => Some(spec_render_root(fs.initrd.state is Some)),
        VfsMountKind::Devfs => match fs.devfs.state {
            None => None,
            Some(st) => crate::devfs::spec_read_bytes(st, fs.blocks, fs.tty, p),
        },
        VfsMountKind::Initrd => match fs.initrd.state {
            None => None,
            Some(st) => crate::initrd::spec_read_bytes(st, p),
        },
        VfsMountKind::Procfs => match fs.procfs.state {
            None => None,
            Some(st) => crate::procfs::spec_read_bytes(st, fs.proc_sources, fs.blocks, p),
        },
    }
}

fn backend_bytes(fs: &FileSystems, mount: VfsMountKind, p: &[u8]) -> (bytes: Option<Vec<u8>>)
    requires
        fs.wf(),
    ensures
        match spec_backend_bytes(*fs, mount, p@) {
            None => bytes is None,
            Some(b) => bytes matches Some(v) && v@ == b,
        },
{
    match mount {
        VfsMountKind::Root => Some(render_root(fs)),
        VfsMountKind::Devfs => crate::devfs::render_node(&fs.devfs, &fs.blocks, &fs.tty, p),
        VfsMountKind::Initrd => crate::initrd::read_node_bytes(&fs.initrd, p),
        VfsMountKind::Procfs => crate::procfs::render_node(&fs.procfs, &fs.proc_sources, &fs.blocks, p),
    }
}

/// The length in bytes of the text that lossy decoding of `b` gives.
pub open spec fn text_len(b: Seq<u8>) -> usize {
    crate::text::text_bytes(b).len() as usize
}

/// The size a node of `mount` reports: the length of its text, or 0 when it has none.
pub open spec fn spec_text_size(fs: FileSystems, mount: VfsMountKind, p: Seq<u8>) -> usize {
    match spec_backend_bytes(fs, mount, p) {
        None => 0,
        Some(b) => text_len(b),
    }
}

fn text_size(fs: &FileSystems, mount: VfsMountKind, p: &[u8]) -> (size: usize)
    requires
        fs.wf(),
    ensures
        size == spec_text_size(*fs, mount, p@),
{
    match backend_bytes(fs, mount, p) {
        None => 0,
        Some(b) => {
            let text = string_from_bytes_lossy(b.as_slice());
            proof {
                if vstd::utf8::valid_utf8(b@) {
                    vstd::utf8::decode_utf8_encode_utf8(b@);
                }
            }
            text.as_str().len()
        },
    }
}

/// What resolution finds at a normalized path, besides the path itself.
#[derive(Copy, Clone, PartialEq, Eq, Structural, Debug)]
pub struct ResolvedNode {
    pub mount: VfsMountKind,
    pub kind: VfsNodeKind,
    pub size: usize,
    pub executable: bool,
}

/// The node at the normalized path `p`, if a mounted file system has one.
pub open spec fn spec_resolve(fs: FileSystems, p: Seq<u8>) -> Option<ResolvedNode> {
    if p == root_path() {
        Some(
            ResolvedNode {
                mount: VfsMountKind::Root,
                kind: VfsNodeKind::Directory,
                size: spec_render_root(fs.initrd.state is Some).len() as usize,
                executable: false,
            },
        )
    } else if under(p, dev_root()) {
        match crate::devfs::spec_node_kind(fs.blocks, p) {
            None => None,
            Some(k) => Some(
                ResolvedNode {
                    mount: VfsMountKind::Devfs,
                    kind: if k == DevfsNodeKind::Directory {
                        VfsNodeKind::Directory
                    } else {
                        VfsNodeKind::Device
                    },
                    size: spec_text_size(fs, VfsMountKind::Devfs, p),
                    executable: false,
                },
            ),
        }
    } else if under(p, initrd_root()) {
        match fs.initrd.state {
            None => None,
            Some(st) => match crate::initrd::spec_node_info(st, p) {
                None => None,
                Some(info) => Some(
                    ResolvedNode {
                        mount: VfsMountKind::Initrd,
                        kind: if info.kind == InitrdNodeKind::Directory {
                            VfsNodeKind::Directory
                        } else {
                            VfsNodeKind::File
                        },
                        size: info.size,
                        executable: info.executable,
                    },
                ),
            },
        }
    } else if under(p, proc_root()) {
        match crate::procfs::spec_node_kind(p) {
            None => None,
            Some(k) => Some(
                ResolvedNode {
                    mount: VfsMountKind::Procfs,
                    kind: if k == ProcfsNodeKind::Directory {
                        VfsNodeKind::Directory
                    } else {
                        VfsNodeKind::File
                    },
                    size: spec_text_size(fs, VfsMountKind::Procfs, p),
                    executable: false,
                },
            ),
        }
    } else {
        None
    }
}

fn is_under(p: &[u8], root: &str) -> (b: bool)
    ensures
        b == under(p@, root.spec_bytes()),
{
    if bytes_eq(p, root.as_bytes()) {
        return true;
    }
    let mut prefix: Vec<u8> = Vec::new();
    push_str(&mut prefix, root);
    prefix.push(0x2f);
    assert(prefix@ =~= root.spec_bytes() + root_path());
    starts_with(p, prefix.as_slice())
}

fn resolve_node(fs: &FileSystems, p: &[u8]) -> (node: Option<ResolvedNode>)
    requires
        fs.wf(),
    ensures
        node == spec_resolve(*fs, p@),
{
    if p.len() == 1 && p[0] == 0x2f {
        assert(p@ =~= root_path());
        let listing = render_root(fs);
        return Some(
            ResolvedNode {
                mount: VfsMountKind::Root,
                kind: VfsNodeKind::Directory,
                size: listing.len(),
                executable: false,
            },
        );
    }
    assert(p@ != root_path()) by {
        if p@ == root_path() {
            assert(p@.len() == 1 && p@[0] == 0x2f);
        }
    }
    if is_under(p, "/dev") {
        return resolve_devfs_node(fs, p);
    }
    if is_under(p, "/initrd") {
        return resolve_initrd_node(fs, p);
    }
    if is_under(p, "/proc") {
        return resolve_procfs_node(fs, p);
    }
    None
}

fn resolve_devfs_node(fs: &FileSystems, p: &[u8]) -> (node: Option<ResolvedNode>)
    requires
        fs.wf(),
    ensures
        node == match crate::devfs::spec_node_kind(fs.blocks, p@) {
            None => None,
            Some(k) => Some(
                ResolvedNode {
                    mount: VfsMountKind::Devfs,
                    kind: if k == DevfsNodeKind::Directory {
                        VfsNodeKind::Directory
                    } else {
                        VfsNodeKind::Device
                    },
                    size: spec_text_size(*fs, VfsMountKind::Devfs, p@),
                    executable: false,
                },
            ),
        },
{
    let kind = match crate::devfs::node_kind_bytes(&fs.blocks, p) {
        None => return None,
        Some(DevfsNodeKind::Directory) => VfsNodeKind::Directory,
        Some(DevfsNodeKind::Device) => VfsNodeKind::Device,
    };
    let size = text_size(fs, VfsMountKind::Devfs, p);
    Some(ResolvedNode { mount: VfsMountKind::Devfs, kind, size, executable: false })
}

fn resolve_procfs_node(fs: &FileSystems, p: &[u8]) -> (node: Option<ResolvedNode>)
    requires
        fs.wf(),
    ensures
        node == match crate::procfs::spec_node_kind(p@) {
            None => None,
            Some(k) => Some(
                ResolvedNode {
                    mount: VfsMountKind::Procfs,
                    kind: if k == ProcfsNodeKind::Directory {
                        VfsNodeKind::Directory
                    } else {
                        VfsNodeKind::File
                    },
                    size: spec_text_size(*fs, VfsMountKind::Procfs, p@),
                    executable: false,
                },
            ),
        },
{
    let kind = match crate::procfs::node_kind_bytes(p) {
        None => return None,
        Some(ProcfsNodeKind::Directory) => VfsNodeKind::Directory,
        Some(ProcfsNodeKind::File) => VfsNodeKind::File,
    };
    let size = text_size(fs, VfsMountKind::Procfs, p);
    Some(ResolvedNode { mount: VfsMountKind::Procfs, kind, size, executable: false })
}

fn resolve_initrd_node(fs: &FileSystems, p: &[u8]) -> (node: Option<ResolvedNode>)
    requires
        fs.wf(),
    ensures
        node == match fs.initrd.state {
            None => None,
            Some(st) => match crate::initrd::spec_node_info(st, p@) {
                None => None,
                Some(info) => Some(
                    ResolvedNode {
                        mount: VfsMountKind::Initrd,
                        kind: if info.kind == InitrdNodeKind::Directory {
                            VfsNodeKind::Directory
                        } else {
                            VfsNodeKind::File
                        },
                        size: info.size,
                        executable: info.executable,
                    },
                ),
            },
        },
{
    let info = match crate::initrd::node_info_bytes(&fs.initrd, p) {
        None => return None,
        Some(info) => info,
    };
    let kind = match info.kind {
        InitrdNodeKind::Directory => VfsNodeKind::Directory,
        InitrdNodeKind::File => VfsNodeKind::File,
    };
    Some(ResolvedNode { mount: VfsMountKind::Initrd, kind, size: info.size, executable: info.executable })
}

} // verus!

verus! {

// ---------------------------------------------------------------------------
// Lookup and reading.

/// The normalized path and the node that a lookup of `path` finds.
pub open spec fn spec_lookup(vfs: Vfs, fs: FileSystems, path: Seq<u8>) -> Option<(Seq<u8>, ResolvedNode)> {
    if !vfs.initialized {
        None
    } else {
        match spec_normalize_path(path) {
            None => None,
            Some(n) => match spec_resolve(fs, n) {
                None => None,
                Some(r) => Some((n, r)),
            },
        }
    }
}

/// `node` reports the normalized path `n` and what resolution found there.
pub open spec fn node_is(node: VfsNode, n: Seq<u8>, r: ResolvedNode) -> bool {
    &&& node.path@ == lossy_utf8(n)
    &&& node.mount == r.mount
    &&& node.kind == r.kind
    &&& node.size == r.size
    &&& node.executable == r.executable
}

/// The normalized path and node that a lookup of `path`, given as bytes, finds.
pub fn lookup_bytes(vfs: &Vfs, fs: &FileSystems, path: &[u8]) -> (found: Option<(Vec<u8>, ResolvedNode)>)
    requires
        fs.wf(),
    ensures
        match spec_lookup(*vfs, *fs, path@) {
            None => found is None,
            Some((n, r)) => found matches Some((v, node)) && v@ == n && node == r,
        },
{
    if !vfs.initialized {
        return None;
    }
    let normalized = match normalize_path(path) {
        None => return None,
        Some(n) => n,
    };
    match resolve_node(fs, normalized.as_slice()) {
        None => None,
        Some(node) => Some((normalized, node)),
    }
}

/// The node at `path`, once `path` is normalized; `None` when the tree is not mounted,
/// the path is not absolute or climbs above the root, or no mounted file system has it.
pub fn lookup(vfs: &Vfs, fs: &FileSystems, path: &str) -> (node: Option<VfsNode>)
    requires
        fs.wf(),
    ensures
        match spec_lookup(*vfs, *fs, path.spec_bytes()) {
            None => node is None,
            Some((n, r)) => node matches Some(v) && node_is(v, n, r),
        },
{
    match lookup_bytes(vfs, fs, path.as_bytes()) {
        None => None,
        Some((n, r)) => Some(
            VfsNode {
                path: string_from_bytes_lossy(n.as_slice()),
                mount: r.mount,
                kind: r.kind,
                size: r.size,
                executable: r.executable,
            },
        ),
    }
}

/// The bytes that reading `path` gives: those of the node that a lookup finds.
pub open spec fn spec_read(vfs: Vfs, fs: FileSystems, path: Seq<u8>) -> Option<Seq<u8>> {
    match spec_lookup(vfs, fs, path) {
        None => None,
        Some((n, r)) => spec_backend_bytes(fs, r.mount, n),
    }
}

/// The bytes of the node that a lookup of `path`, given as bytes, finds.
pub fn read_bytes(vfs: &Vfs, fs: &FileSystems, path: &[u8]) -> (bytes: Option<Vec<u8>>)
    requires
        fs.wf(),
    ensures
        match spec_read(*vfs, *fs, path@) {
            None => bytes is None,
            Some(b) => bytes matches Some(v) && v@ == b,
        },
{
    match lookup_bytes(vfs, fs, path) {
        None => None,
        Some((n, r)) => backend_bytes(fs, r.mount, n.as_slice()),
    }
}

/// The text of the node at `path`, decoded from its bytes with invalid sequences replaced.
pub fn read(vfs: &Vfs, fs: &FileSystems, path: &str) -> (text: Option<String>)
    requires
        fs.wf(),
    ensures
        match spec_read(*vfs, *fs, path.spec_bytes()) {
            None => text is None,
            Some(b) => text matches Some(t) && t@ == lossy_utf8(b) && (all_ascii(b) ==> t@ == ascii_chars(b)),
        },
{
    match read_bytes(vfs, fs, path.as_bytes()) {
        None => None,
        Some(b) => Some(string_from_bytes_lossy(b.as_slice())),
    }
}

} // verus!

verus! {

// ---------------------------------------------------------------------------
// Previews.

/// `acc`, a space when it is not empty, and the trimmed `line`.
pub open spec fn add_word(acc: Seq<u8>, line: Seq<u8>) -> Seq<u8> {
    (if acc.len() > 0 {
        acc.push(0x20)
    } else {
        acc
    }) + crate::bstr::trimmed(line)
}

/// The lines of `s` from the one starting at `start` on, scanning from `i`, each trimmed
/// and appended to `acc` with `add_word`. A final line feed ends the last line; it does not
/// start an empty one.
pub open spec fn join_lines_from(s: Seq<u8>, start: int, i: int, acc: Seq<u8>) -> Seq<u8>
    decreases s.len() - i,
{
    if i >= s.len() {
        if start < s.len() {
            add_word(acc, s.subrange(start, s.len() as int))
        } else {
            acc
        }
    } else if s[i] == 0x0a {
        join_lines_from(s, i + 1, i + 1, add_word(acc, s.subrange(start, i)))
    } else {
        join_lines_from(s, start, i + 1, acc)
    }
}

/// The trimmed lines of `s`, joined by single spaces after the first non-empty one.
pub open spec fn join_lines(s: Seq<u8>) -> Seq<u8> {
    join_lines_from(s, 0, 0, Seq::empty())
}

/// Index of the first line feed of `s` at or after `i`, or the length of `s`.
pub open spec fn line_end_from(s: Seq<u8>, i: int) -> int
    decreases s.len() - i,
{
    if i >= s.len() {
        s.len() as int
    } else if s[i] == 0x0a {
        i
    } else {
        line_end_from(s, i + 1)
    }
}

/// The first line of `s`, or `None` when `s` is empty.
pub open spec fn first_line(s: Seq<u8>) -> Option<Seq<u8>> {
    if s.len() == 0 {
        None
    } else {
        Some(s.subrange(0, line_end_from(s, 0)))
    }
}

/// `s` when it is at most `max_len` bytes long, else its first `max_len` bytes and `...`.
pub open spec fn cut(s: Seq<u8>, max_len: usize) -> Seq<u8> {
    if s.len() <= max_len {
        s
    } else {
        s.take(max_len as int) + seq![0x2eu8, 0x2e, 0x2e]
    }
}

/// The bytes of a preview of `path`: for the root, its entries on one line; for any other
/// node, the first line of its text, trimmed. Either is cut to `max_len` bytes.
pub open spec fn spec_preview(vfs: Vfs, fs: FileSystems, path: Seq<u8>, max_len: usize) -> Option<Seq<u8>> {
    match spec_normalize_path(path) {
        None => None,
        Some(n) => match spec_read(vfs, fs, n) {
            None => None,
            Some(b) => {
                let content = crate::text::text_bytes(b);
                if n == root_path() {
                    Some(cut(join_lines(content), max_len))
                } else {
                    match first_line(content) {
                        None => None,
                        Some(l) => Some(cut(crate::bstr::trimmed(l), max_len)),
                    }
                }
            },
        },
    }
}

fn push_word(acc: &mut Vec<u8>, s: &[u8], start: usize, end: usize)
    requires
        start <= end <= s@.len(),
    ensures
        final(acc)@ == add_word(old(acc)@, s@.subrange(start as int, end as int)),
{
    let line = &s[start..end];
    let (a, b) = crate::bstr::trim_bounds(line);
    if acc.len() > 0 {
        acc.push(0x20);
    }
    push_all(acc, &line[a..b]);
    assert(final(acc)@ =~= add_word(old(acc)@, s@.subrange(start as int, end as int)));
}

fn join_trimmed_lines(s: &[u8]) -> (out: Vec<u8>)
    ensures
        out@ == join_lines(s@),
{
    let mut out: Vec<u8> = Vec::new();
    let mut start: usize = 0;
    let mut i: usize = 0;
    while i < s.len()
        invariant
            start <= i <= s@.len(),
            join_lines(s@) == join_lines_from(s@, start as int, i as int, out@),
        decreases s@.len() - i,
    {
        if s[i] == 0x0a {
            push_word(&mut out, s, start, i);
            start = i + 1;
        }
        i = i + 1;
    }
    if start < s.len() {
        push_word(&mut out, s, start, s.len());
    }
    out
}

fn first_line_end(s: &[u8]) -> (e: usize)
    ensures
        e == line_end_from(s@, 0),
{
    let mut i: usize = 0;
    while i < s.len()
        invariant
            i <= s@.len(),
            line_end_from(s@, 0) == line_end_from(s@, i as int),
        decreases s@.len() - i,
    {
        if s[i] == 0x0a {
            return i;
        }
        i = i + 1;
    }
    i
}

proof fn lemma_line_end_bounds(s: Seq<u8>, i: int)
    requires
        0 <= i <= s.len(),
    ensures
        i <= line_end_from(s, i) <= s.len(),
    decreases s.len() - i,
{
    if i < s.len() && s[i] != 0x0a {
        lemma_line_end_bounds(s, i + 1);
    }
}

fn cut_to(s: &[u8], max_len: usize) -> (out: Vec<u8>)
    ensures
        out@ == cut(s@, max_len),
{
    if s.len() <= max_len {
        return vstd::slice::slice_to_vec(s);
    }
    let mut out = vstd::slice::slice_to_vec(&s[0..max_len]);
    out.push(0x2e);
    out.push(0x2e);
    out.push(0x2e);
    assert(out@ =~= cut(s@, max_len));
    out
}

/// A one-line preview of the node at `path`, at most `max_len` bytes before the `...`
/// that marks a cut; the text is decoded from the preview's bytes with invalid sequences replaced.
pub fn preview(vfs: &Vfs, fs: &FileSystems, path: &str, max_len: usize) -> (text: Option<String>)
    requires
        fs.wf(),
    ensures
        match spec_preview(*vfs, *fs, path.spec_bytes(), max_len) {
            None => text is None,
            Some(b) => text matches Some(t) && t@ == lossy_utf8(b) && (all_ascii(b) ==> t@ == ascii_chars(b))
                && (vstd::utf8::valid_utf8(b) ==> t@ == vstd::utf8::decode_utf8(b)),
        },
{
    let normalized = match normalize_path(path.as_bytes()) {
        None => return None,
        Some(n) => n,
    };
    let bytes = match read_bytes(vfs, fs, normalized.as_slice()) {
        None => return None,
        Some(b) => b,
    };
    let content = string_from_bytes_lossy(bytes.as_slice());
    proof {
        if vstd::utf8::valid_utf8(bytes@) {
            vstd::utf8::decode_utf8_encode_utf8(bytes@);
        }
    }
    let cb = content.as_str().as_bytes();
    let out = if normalized.len() == 1 && normalized[0] == 0x2f {
        assert(normalized@ =~= root_path());
        let joined = join_trimmed_lines(cb);
        cut_to(joined.as_slice(), max_len)
    } else {
        assert(normalized@ != root_path()) by {
            if normalized@ == root_path() {
                assert(normalized@.len() == 1 && normalized@[0] == 0x2f);
            }
        }
        if cb.len() == 0 {
            return None;
        }
        let e = first_line_end(cb);
        proof {
            lemma_line_end_bounds(cb@, 0);
        }
        let line = &cb[0..e];
        let (a, b) = crate::bstr::trim_bounds(line);
        assert(line@.subrange(a as int, b as int) == crate::bstr::trimmed(line@));
        cut_to(&line[a..b], max_len)
    };
    Some(string_from_bytes_lossy(out.as_slice()))
}

// ---------------------------------------------------------------------------
// Mounting.

/// The counts of the tree: none before it is mounted; then the three mount points of the
/// root, the initrd's among them only when it is mounted, and every directory.
pub open spec fn spec_summary(vfs: Vfs, fs: FileSystems) -> VfsSummary {
    if !vfs.initialized {
        VfsSummary { mount_count: 0, root_entry_count: 0, directory_count: 0 }
    } else {
        match fs.initrd.state {
            None => VfsSummary { mount_count: 2, root_entry_count: 2, directory_count: 3 },
            Some(st) => VfsSummary {
                mount_count: 3,
                root_entry_count: 3,
                directory_count: (3 + crate::initrd::spec_summary_of(st).directory_count) as usize,
            },
        }
    }
}

/// Counts of the mounted tree.
pub fn summary(vfs: &Vfs, fs: &FileSystems) -> (s: VfsSummary)
    requires
        fs.wf(),
    ensures
        s == spec_summary(*vfs, *fs),
{
    if !vfs.initialized {
        return VfsSummary { mount_count: 0, root_entry_count: 0, directory_count: 0 };
    }
    let initrd_online = crate::initrd::is_initialized(&fs.initrd);
    let mount_count: usize = if initrd_online { 3 } else { 2 };
    let directory_count: usize = if initrd_online {
        let st = crate::initrd::summary(&fs.initrd);
        proof {
            let es = crate::initrd::entry_views(fs.initrd.state->Some_0.entries@);
            crate::initrd::lemma_count_dirs_bound(es);
        }
        3 + st.directory_count
    } else {
        3
    };
    VfsSummary { mount_count, root_entry_count: mount_count, directory_count }
}

/// Mounts the tree; fails when it is already mounted.
pub fn initialize(vfs: &mut Vfs, fs: &FileSystems) -> (result: Result<VfsSummary, VfsError>)
    requires
        fs.wf(),
    ensures
        old(vfs).initialized ==> result == Err::<VfsSummary, VfsError>(VfsError::AlreadyInitialized)
            && final(vfs).initialized,
        !old(vfs).initialized ==> final(vfs).initialized && result == Ok::<VfsSummary, VfsError>(
            spec_summary(*final(vfs), *fs),
        ),
{
    if vfs.initialized {
        return Err(VfsError::AlreadyInitialized);
    }
    vfs.initialized = true;
    Ok(summary(vfs, fs))
}

} // verus!

verus! {

// ---------------------------------------------------------------------------
// Executable discovery.

/// "/initrd/init"
pub open spec fn init_path() -> Seq<u8> {
    "/initrd/init".spec_bytes()
}

/// The bytes an executable at the normalized path `p` is read from: only the initrd provides them.
pub open spec fn spec_exec_bytes(fs: FileSystems, mount: VfsMountKind, p: Seq<u8>) -> Option<Seq<u8>> {
    match mount {
        VfsMountKind::Initrd => match fs.initrd.state {
            None => None,
            Some(st) => crate::initrd::spec_file_bytes(st, p),
        },
        _ => None,
    }
}

fn read_executable_bytes<'a>(fs: &'a FileSystems, mount: VfsMountKind, path: &[u8]) -> (data: Option<&'a [u8]>)
    requires
        fs.wf(),
    ensures
        match spec_exec_bytes(*fs, mount, path@) {
            None => data is None,
            Some(b) => data matches Some(d) && d@ == b,
        },
{
    match mount {
        VfsMountKind::Initrd => crate::initrd::file_bytes(&fs.initrd, path),
        _ => None,
    }
}

/// The file that discovery finds at `path`: its normalized path, node and image kind.
pub open spec fn spec_discover(vfs: Vfs, fs: FileSystems, path: Seq<u8>) -> Result<
    (Seq<u8>, ResolvedNode, ImageKind),
    ExecutableDiscoveryError,
> {
    if !vfs.initialized {
        Err(ExecutableDiscoveryError::VfsUnavailable)
    } else {
        match spec_lookup(vfs, fs, path) {
            None => Err(ExecutableDiscoveryError::PathNotFound),
            Some((n, r)) => if r.kind != VfsNodeKind::File {
                Err(ExecutableDiscoveryError::NotAFile)
            } else {
                match spec_exec_bytes(fs, r.mount, n) {
                    None => Err(ExecutableDiscoveryError::BackendUnavailable),
                    Some(img) => match crate::exec::spec_inspect_error(img) {
                        Some(e) => Err(ExecutableDiscoveryError::ParseFailed(e)),
                        None => Ok((n, r, crate::exec::spec_image_kind(img))),
                    },
                }
            },
        }
    }
}

/// `c` describes the file at the normalized path `n`, found as `r`, holding an image of kind `kind`.
pub open spec fn candidate_is(c: ExecutableCandidate, n: Seq<u8>, r: ResolvedNode, kind: ImageKind) -> bool {
    &&& c.path@ == lossy_utf8(n)
    &&& c.mount == r.mount
    &&& c.format == spec_format_of(kind)
    &&& c.size == r.size
    &&& c.executable == r.executable
}

fn discover_bytes(vfs: &Vfs, fs: &FileSystems, path: &[u8]) -> (result: Result<
    (Vec<u8>, ResolvedNode, ImageKind),
    ExecutableDiscoveryError,
>)
    requires
        fs.wf(),
    ensures
        match spec_discover(*vfs, *fs, path@) {
            Err(e) => result == Err::<(Vec<u8>, ResolvedNode, ImageKind), ExecutableDiscoveryError>(e),
            Ok((n, r, k)) => result matches Ok((v, node, kind)) && v@ == n && node == r && kind == k,
        },
{
    if !vfs.initialized {
        return Err(ExecutableDiscoveryError::VfsUnavailable);
    }
    let (normalized, node) = match lookup_bytes(vfs, fs, path) {
        None => return Err(ExecutableDiscoveryError::PathNotFound),
        Some(found) => found,
    };
    if node.kind != VfsNodeKind::File {
        return Err(ExecutableDiscoveryError::NotAFile);
    }
    let bytes = match read_executable_bytes(fs, node.mount, normalized.as_slice()) {
        None => return Err(ExecutableDiscoveryError::BackendUnavailable),
        Some(b) => b,
    };
    let kind = match crate::exec::detect_kind(bytes) {
        Err(e) => return Err(ExecutableDiscoveryError::ParseFailed(e)),
        Ok(k) => k,
    };
    Ok((normalized, node, kind))
}

/// Finds the executable file at `path` and the kind of image it holds.
pub fn discover_executable(vfs: &Vfs, fs: &FileSystems, path: &str) -> (result: Result<
    ExecutableCandidate,
    ExecutableDiscoveryError,
>)
    requires
        fs.wf(),
    ensures
        match spec_discover(*vfs, *fs, path.spec_bytes()) {
            Err(e) => result matches Err(x) && x == e,
            Ok((n, r, k)) => result matches Ok(c) && candidate_is(c, n, r, k),
        },
{
    match discover_bytes(vfs, fs, path.as_bytes()) {
        Err(e) => Err(e),
        Ok((n, node, kind)) => Ok(
            ExecutableCandidate {
                path: string_from_bytes_lossy(n.as_slice()),
                mount: node.mount,
                format: executable_format_from_kind(kind),
                size: node.size,
                executable: node.executable,
            },
        ),
    }
}

/// Finds the init program, `/initrd/init`.
pub fn discover_init_executable(vfs: &Vfs, fs: &FileSystems) -> (result: Result<
    ExecutableCandidate,
    ExecutableDiscoveryError,
>)
    requires
        fs.wf(),
    ensures
        match spec_discover(*vfs, *fs, init_path()) {
            Err(e) => result matches Err(x) && x == e,
            Ok((n, r, k)) => result matches Ok(c) && candidate_is(c, n, r, k),
        },
{
    discover_executable(vfs, fs, "/initrd/init")
}

// ---------------------------------------------------------------------------
// Interpreter paths.

/// Where an interpreter path leads: the node it names, or else the node of the same
/// name under `/initrd`, unless the path is the root or already starts with `/initrd`.
pub open spec fn spec_runtime_path(vfs: Vfs, fs: FileSystems, path: Seq<u8>) -> Option<Seq<u8>> {
    match spec_normalize_path(path) {
        None => None,
        Some(n) => match spec_lookup(vfs, fs, n) {
            Some((m, _)) => Some(m),
            None => if n == root_path() || has_prefix(n, initrd_root()) {
                None
            } else {
                match spec_lookup(vfs, fs, initrd_root() + n) {
                    Some((m, _)) => Some(m),
                    None => None,
                }
            },
        },
    }
}

fn resolve_runtime_path(vfs: &Vfs, fs: &FileSystems, path: &[u8]) -> (found: Option<Vec<u8>>)
    requires
        fs.wf(),
    ensures
        match spec_runtime_path(*vfs, *fs, path@) {
            None => found is None,
            Some(m) => found matches Some(v) && v@ == m,
        },
{
    let normalized = match normalize_path(path) {
        None => return None,
        Some(n) => n,
    };
    if let Some((m, _)) = lookup_bytes(vfs, fs, normalized.as_slice()) {
        return Some(m);
    }
    let is_root = normalized.len() == 1 && normalized[0] == 0x2f;
    proof {
        if normalized@ == root_path() {
            assert(normalized@.len() == 1 && normalized@[0] == 0x2f);
        }
        if is_root {
            assert(normalized@ =~= root_path());
        }
    }
    if is_root || starts_with(normalized.as_slice(), "/initrd".as_bytes()) {
        return None;
    }
    let mut initrd_path: Vec<u8> = Vec::new();
    push_str(&mut initrd_path, "/initrd");
    push_all(&mut initrd_path, normalized.as_slice());
    match lookup_bytes(vfs, fs, initrd_path.as_slice()) {
        Some((m, _)) => Some(m),
        None => None,
    }
}

/// Where an optional interpreter, given as text, leads.
pub open spec fn spec_interpreter_source(vfs: Vfs, fs: FileSystems, interpreter: Option<Seq<char>>) -> Option<Seq<u8>> {
    match interpreter {
        None => None,
        Some(t) => spec_runtime_path(vfs, fs, vstd::utf8::encode_utf8(t)),
    }
}

fn interpreter_source(vfs: &Vfs, fs: &FileSystems, interpreter: &Option<String>) -> (source: Option<String>)
    requires
        fs.wf(),
    ensures
        opt_text(source) == opt_lossy(
            spec_interpreter_source(*vfs, *fs, opt_text(*interpreter)),
        ),
        crate::exec::opt_ascii_kept(spec_interpreter_source(*vfs, *fs, opt_text(*interpreter)), opt_text(source)),
{
    match interpreter {
        None => None,
        Some(text) => match resolve_runtime_path(vfs, fs, text.as_str().as_bytes()) {
            None => None,
            Some(p) => Some(string_from_bytes_lossy(p.as_slice())),
        },
    }
}

} // verus!

verus! {

// ---------------------------------------------------------------------------
// Load preparation.

/// Totals over the loadable segments of an image.
#[derive(Copy, Clone, PartialEq, Eq, Structural, Debug)]
pub struct LoadTotals {
    pub load_segment_count: usize,
    pub load_base: Option<u64>,
    pub load_offset: Option<u64>,
    pub load_file_bytes: u64,
    pub load_memory_bytes: u64,
    pub writable_load_segments: usize,
    pub executable_load_segments: usize,
    pub max_alignment: u64,
    pub vm_map_total_bytes: u64,
    pub vm_map_zero_fill_bytes: u64,
    pub vm_map_start: Option<u64>,
    pub vm_map_end: Option<u64>,
}

/// The smaller of an optional running minimum and `v`.
pub open spec fn opt_min(m: Option<u64>, v: u64) -> u64 {
    match m {
        None => v,
        Some(x) => if x <= v { x } else { v },
    }
}

/// The larger of an optional running maximum and `v`.
pub open spec fn opt_max(m: Option<u64>, v: u64) -> u64 {
    match m {
        None => v,
        Some(x) => if x >= v { x } else { v },
    }
}

/// The totals once segment `h` is counted in; byte counts saturate at `u64::MAX`.
pub open spec fn totals_step(t: LoadTotals, h: crate::exec::LoadSegmentPlan) -> LoadTotals {
    LoadTotals {
        load_segment_count: (t.load_segment_count + 1) as usize,
        load_base: Some(opt_min(t.load_base, h.virtual_start)),
        load_offset: Some(opt_min(t.load_offset, h.file_offset)),
        load_file_bytes: t.load_file_bytes.saturating_add(h.file_bytes),
        load_memory_bytes: t.load_memory_bytes.saturating_add(h.memory_bytes),
        writable_load_segments: if h.permissions.write {
            (t.writable_load_segments + 1) as usize
        } else {
            t.writable_load_segments
        },
        executable_load_segments: if h.permissions.execute {
            (t.executable_load_segments + 1) as usize
        } else {
            t.executable_load_segments
        },
        max_alignment: if t.max_alignment >= h.alignment { t.max_alignment } else { h.alignment },
        vm_map_total_bytes: t.vm_map_total_bytes.saturating_add(h.map_end.saturating_sub(h.map_start)),
        vm_map_zero_fill_bytes: t.vm_map_zero_fill_bytes.saturating_add(h.zero_fill_bytes),
        vm_map_start: Some(opt_min(t.vm_map_start, h.map_start)),
        vm_map_end: Some(opt_max(t.vm_map_end, h.map_end)),
    }
}

/// The totals of no segment.
pub open spec fn no_totals() -> LoadTotals {
    LoadTotals {
        load_segment_count: 0,
        load_base: None,
        load_offset: None,
        load_file_bytes: 0,
        load_memory_bytes: 0,
        writable_load_segments: 0,
        executable_load_segments: 0,
        max_alignment: 0,
        vm_map_total_bytes: 0,
        vm_map_zero_fill_bytes: 0,
        vm_map_start: None,
        vm_map_end: None,
    }
}

/// The totals over the segments of `plan`, in order.
pub open spec fn spec_load_totals(plan: Seq<crate::exec::LoadSegmentPlan>) -> LoadTotals
    decreases plan.len(),
{
    if plan.len() == 0 {
        no_totals()
    } else {
        totals_step(spec_load_totals(plan.drop_last()), plan.last())
    }
}

/// The mapping entry that reports segment `h`.
pub open spec fn spec_plan_entry(h: crate::exec::LoadSegmentPlan) -> VmMapPlanEntry {
    VmMapPlanEntry {
        index: h.index,
        file_offset: h.file_offset,
        virtual_start: h.virtual_start,
        virtual_end: h.virtual_end,
        map_start: h.map_start,
        map_end: h.map_end,
        page_offset: h.page_offset,
        file_bytes: h.file_bytes,
        memory_bytes: h.memory_bytes,
        zero_fill_bytes: h.zero_fill_bytes,
        alignment: h.alignment,
        readable: h.permissions.read,
        writable: h.permissions.write,
        executable: h.permissions.execute,
    }
}

/// The mapping entries of `plan`, in order.
pub open spec fn spec_plan_entries(plan: Seq<crate::exec::LoadSegmentPlan>) -> Seq<VmMapPlanEntry> {
    Seq::new(plan.len(), |i: int| spec_plan_entry(plan[i]))
}

fn min_into(m: Option<u64>, v: u64) -> (r: u64)
    ensures
        r == opt_min(m, v),
{
    match m {
        None => v,
        Some(x) => if x <= v { x } else { v },
    }
}

fn max_into(m: Option<u64>, v: u64) -> (r: u64)
    ensures
        r == opt_max(m, v),
{
    match m {
        None => v,
        Some(x) => if x >= v { x } else { v },
    }
}

fn count_segment(t: LoadTotals, h: &crate::exec::LoadSegmentPlan) -> (r: LoadTotals)
    requires
        t.load_segment_count < usize::MAX,
        t.writable_load_segments <= t.load_segment_count,
        t.executable_load_segments <= t.load_segment_count,
    ensures
        r == totals_step(t, *h),
{
    LoadTotals {
        load_segment_count: t.load_segment_count + 1,
        load_base: Some(min_into(t.load_base, h.virtual_start)),
        load_offset: Some(min_into(t.load_offset, h.file_offset)),
        load_file_bytes: t.load_file_bytes.saturating_add(h.file_bytes),
        load_memory_bytes: t.load_memory_bytes.saturating_add(h.memory_bytes),
        writable_load_segments: if h.permissions.write {
            t.writable_load_segments + 1
        } else {
            t.writable_load_segments
        },
        executable_load_segments: if h.permissions.execute {
            t.executable_load_segments + 1
        } else {
            t.executable_load_segments
        },
        max_alignment: if t.max_alignment >= h.alignment { t.max_alignment } else { h.alignment },
        vm_map_total_bytes: t.vm_map_total_bytes.saturating_add(h.map_end.saturating_sub(h.map_start)),
        vm_map_zero_fill_bytes: t.vm_map_zero_fill_bytes.saturating_add(h.zero_fill_bytes),
        vm_map_start: Some(min_into(t.vm_map_start, h.map_start)),
        vm_map_end: Some(max_into(t.vm_map_end, h.map_end)),
    }
}

fn plan_entry(h: &crate::exec::LoadSegmentPlan) -> (e: VmMapPlanEntry)
    ensures
        e == spec_plan_entry(*h),
{
    VmMapPlanEntry {
        index: h.index,
        file_offset: h.file_offset,
        virtual_start: h.virtual_start,
        virtual_end: h.virtual_end,
        map_start: h.map_start,
        map_end: h.map_end,
        page_offset: h.page_offset,
        file_bytes: h.file_bytes,
        memory_bytes: h.memory_bytes,
        zero_fill_bytes: h.zero_fill_bytes,
        alignment: h.alignment,
        readable: h.permissions.read,
        writable: h.permissions.write,
        executable: h.permissions.execute,
    }
}

/// The totals and mapping entries of a load plan.
fn summarize_plan(plan: &Vec<crate::exec::LoadSegmentPlan>) -> (r: (LoadTotals, Vec<VmMapPlanEntry>))
    ensures
        r.0 == spec_load_totals(plan@),
        r.1@ == spec_plan_entries(plan@),
{
    let mut totals = LoadTotals {
        load_segment_count: 0,
        load_base: None,
        load_offset: None,
        load_file_bytes: 0,
        load_memory_bytes: 0,
        writable_load_segments: 0,
        executable_load_segments: 0,
        max_alignment: 0,
        vm_map_total_bytes: 0,
        vm_map_zero_fill_bytes: 0,
        vm_map_start: None,
        vm_map_end: None,
    };
    let mut entries: Vec<VmMapPlanEntry> = Vec::new();
    let mut i: usize = 0;
    while i < plan.len()
        invariant
            i <= plan@.len(),
            totals == spec_load_totals(plan@.take(i as int)),
            totals.load_segment_count == i,
            totals.writable_load_segments <= i,
            totals.executable_load_segments <= i,
            entries@ == spec_plan_entries(plan@.take(i as int)),
        decreases plan@.len() - i,
    {
        let h = &plan[i];
        totals = count_segment(totals, h);
        entries.push(plan_entry(h));
        proof {
            assert(plan@.take(i + 1).drop_last() =~= plan@.take(i as int));
            assert(entries@ =~= spec_plan_entries(plan@.take(i + 1)));
        }
        i = i + 1;
    }
    assert(plan@.take(plan@.len() as int) =~= plan@);
    (totals, entries)
}

/// The part of a preparation that describes the file itself.
pub open spec fn prep_file_is(p: ExecutableLoadPrep, n: Seq<u8>, r: ResolvedNode, kind: ImageKind) -> bool {
    &&& p.path@ == lossy_utf8(n)
    &&& p.mount == r.mount
    &&& p.format == spec_format_of(kind)
    &&& p.size == r.size
    &&& p.executable == r.executable
}

/// The part of a preparation that an image without loadable segments reports.
pub open spec fn prep_without_segments(p: ExecutableLoadPrep) -> bool {
    &&& p.image_type is None
    &&& p.machine is None
    &&& p.entry_point is None
    &&& p.program_header_count == 0
    &&& p.load_segment_count == 0
    &&& p.load_base is None
    &&& p.load_offset is None
    &&& p.load_file_bytes == 0
    &&& p.load_memory_bytes == 0
    &&& p.writable_load_segments == 0
    &&& p.executable_load_segments == 0
    &&& p.max_alignment == 0
    &&& p.vm_map_entries@.len() == 0
    &&& p.vm_map_total_bytes == 0
    &&& p.vm_map_zero_fill_bytes == 0
    &&& p.vm_map_start is None
    &&& p.vm_map_end is None
}

/// The part of a preparation that reports the load plan `plan` of the ELF image `layout`.
pub open spec fn prep_elf_is(p: ExecutableLoadPrep, layout: crate::exec::ElfLayout, plan: Seq<crate::exec::LoadSegmentPlan>) -> bool {
    let t = spec_load_totals(plan);
    &&& p.image_type == Some(layout.image_type)
    &&& p.machine == Some(layout.machine)
    &&& p.entry_point == Some(layout.entry_point)
    &&& p.program_header_count == layout.program_headers.len()
    &&& p.load_segment_count == t.load_segment_count
    &&& p.load_base == t.load_base
    &&& p.load_offset == t.load_offset
    &&& p.load_file_bytes == t.load_file_bytes
    &&& p.load_memory_bytes == t.load_memory_bytes
    &&& p.writable_load_segments == t.writable_load_segments
    &&& p.executable_load_segments == t.executable_load_segments
    &&& p.max_alignment == t.max_alignment
    &&& p.vm_map_entries@ == spec_plan_entries(plan)
    &&& p.vm_map_total_bytes == t.vm_map_total_bytes
    &&& p.vm_map_zero_fill_bytes == t.vm_map_zero_fill_bytes
    &&& p.vm_map_start == t.vm_map_start
    &&& p.vm_map_end == t.vm_map_end
}

/// The interpreter fields of a preparation: the interpreter named, where it leads, and its argument.
pub open spec fn prep_interpreter_is(
    vfs: Vfs,
    fs: FileSystems,
    p: ExecutableLoadPrep,
    interpreter: Option<Seq<char>>,
    argument: Option<Seq<char>>,
) -> bool {
    let source = spec_interpreter_source(vfs, fs, interpreter);
    &&& opt_text(p.interpreter) == interpreter
    &&& opt_text(p.interpreter_source) == opt_lossy(source)
    &&& crate::exec::opt_ascii_kept(source, opt_text(p.interpreter_source))
    &&& opt_text(p.interpreter_argument) == argument
    &&& p.interpreter_resolved == source is Some
}

/// What preparing the executable at `path` for loading yields.
pub open spec fn load_prep_is(vfs: Vfs, fs: FileSystems, path: Seq<u8>, result: Result<ExecutableLoadPrep, ExecutableLoadPrepError>) -> bool {
    match spec_discover(vfs, fs, path) {
        Err(e) => result matches Err(x) && x == ExecutableLoadPrepError::Discovery(e),
        Ok((n, r, kind)) => {
            let img = spec_exec_bytes(fs, r.mount, n)->Some_0;
            match kind {
                ImageKind::Elf64 => {
                    let layout = crate::exec::spec_parse_elf64(img)->Ok_0;
                    match crate::exec::spec_load_plan(layout.program_headers) {
                        Err(e) => result matches Err(x) && x == ExecutableLoadPrepError::Parse(e),
                        Ok(plan) => result matches Ok(p) && prep_file_is(p, n, r, kind) && prep_elf_is(p, layout, plan)
                            && prep_interpreter_is(vfs, fs, p, opt_lossy(layout.interpreter), None),
                    }
                },
                ImageKind::ShebangScript => {
                    let parsed = crate::exec::spec_parse_shebang(img)->Some_0;
                    result matches Ok(p) && prep_file_is(p, n, r, kind) && prep_without_segments(p)
                        && prep_interpreter_is(vfs, fs, p, Some(lossy_utf8(parsed.0)), opt_lossy(parsed.1))
                        && crate::exec::opt_ascii_kept(Some(parsed.0), opt_text(p.interpreter))
                        && crate::exec::opt_ascii_kept(parsed.1, opt_text(p.interpreter_argument))
                },
                _ => result matches Ok(p) && prep_file_is(p, n, r, kind) && prep_without_segments(p)
                    && prep_interpreter_is(vfs, fs, p, None, None),
            }
        },
    }
}

} // verus!

verus! {

/// A preparation of a file without loadable segments.
fn prep_without_plan(
    path: String,
    node: ResolvedNode,
    format: ExecutableFormat,
    interpreter: Option<String>,
    interpreter_source: Option<String>,
    interpreter_argument: Option<String>,
) -> (p: ExecutableLoadPrep)
    ensures
        p.path == path,
        p.mount == node.mount,
        p.format == format,
        p.size == node.size,
        p.executable == node.executable,
        prep_without_segments(p),
        p.interpreter == interpreter,
        p.interpreter_source == interpreter_source,
        p.interpreter_argument == interpreter_argument,
        p.interpreter_resolved == interpreter_source is Some,
{
    let resolved = interpreter_source.is_some();
    ExecutableLoadPrep {
        path,
        mount: node.mount,
        format,
        size: node.size,
        executable: node.executable,
        image_type: None,
        machine: None,
        entry_point: None,
        program_header_count: 0,
        load_segment_count: 0,
        load_base: None,
        load_offset: None,
        load_file_bytes: 0,
        load_memory_bytes: 0,
        writable_load_segments: 0,
        executable_load_segments: 0,
        max_alignment: 0,
        vm_map_entries: Vec::new(),
        vm_map_total_bytes: 0,
        vm_map_zero_fill_bytes: 0,
        vm_map_start: None,
        vm_map_end: None,
        interpreter,
        interpreter_source,
        interpreter_argument,
        interpreter_resolved: resolved,
    }
}

/// Finds the executable at `path` and reports how it would be loaded: for an ELF image,
/// its headers, totals over its loadable segments and their mappings; for a script, its
/// interpreter. An interpreter is looked up as named, then under `/initrd`.
pub fn prepare_executable_load(vfs: &Vfs, fs: &FileSystems, path: &str) -> (result: Result<
    ExecutableLoadPrep,
    ExecutableLoadPrepError,
>)
    requires
        fs.wf(),
    ensures
        load_prep_is(*vfs, *fs, path.spec_bytes(), result),
{
    let (n, node, kind) = match discover_bytes(vfs, fs, path.as_bytes()) {
        Err(e) => return Err(ExecutableLoadPrepError::Discovery(e)),
        Ok(found) => found,
    };
    let bytes = match read_executable_bytes(fs, node.mount, n.as_slice()) {
        None => return Err(ExecutableLoadPrepError::Discovery(ExecutableDiscoveryError::BackendUnavailable)),
        Some(b) => b,
    };
    let image = match crate::exec::inspect(bytes) {
        Err(e) => return Err(ExecutableLoadPrepError::Parse(e)),
        Ok(image) => image,
    };
    let path_text = string_from_bytes_lossy(n.as_slice());
    let format = executable_format_from_kind(kind);
    match image {
        crate::exec::ExecutableImage::Elf64(elf) => {
            let plan = match crate::exec::build_load_plan(&elf) {
                Err(e) => return Err(ExecutableLoadPrepError::Parse(e)),
                Ok(plan) => plan,
            };
            let (totals, entries) = summarize_plan(&plan);
            let source = interpreter_source(vfs, fs, &elf.interpreter);
            let resolved = source.is_some();
            Ok(
                ExecutableLoadPrep {
                    path: path_text,
                    mount: node.mount,
                    format,
                    size: node.size,
                    executable: node.executable,
                    image_type: Some(elf.image_type),
                    machine: Some(elf.machine),
                    entry_point: Some(elf.entry_point),
                    program_header_count: elf.program_headers.len(),
                    load_segment_count: totals.load_segment_count,
                    load_base: totals.load_base,
                    load_offset: totals.load_offset,
                    load_file_bytes: totals.load_file_bytes,
                    load_memory_bytes: totals.load_memory_bytes,
                    writable_load_segments: totals.writable_load_segments,
                    executable_load_segments: totals.executable_load_segments,
                    max_alignment: totals.max_alignment,
                    vm_map_entries: entries,
                    vm_map_total_bytes: totals.vm_map_total_bytes,
                    vm_map_zero_fill_bytes: totals.vm_map_zero_fill_bytes,
                    vm_map_start: totals.vm_map_start,
                    vm_map_end: totals.vm_map_end,
                    interpreter: elf.interpreter,
                    interpreter_source: source,
                    interpreter_argument: None,
                    interpreter_resolved: resolved,
                },
            )
        },
        crate::exec::ExecutableImage::Shebang(script) => {
            let interpreter = Some(script.interpreter);
            let source = interpreter_source(vfs, fs, &interpreter);
            Ok(prep_without_plan(path_text, node, format, interpreter, source, script.argument))
        },
        _ => Ok(prep_without_plan(path_text, node, format, None, None, None)),
    }
}

/// Prepares the init program, `/initrd/init`, for loading.
pub fn prepare_init_load(vfs: &Vfs, fs: &FileSystems) -> (result: Result<ExecutableLoadPrep, ExecutableLoadPrepError>)
    requires
        fs.wf(),
    ensures
        load_prep_is(*vfs, *fs, init_path(), result),
{
    prepare_executable_load(vfs, fs, "/initrd/init")
}

} // verus!

verus! {

// ---------------------------------------------------------------------------
// Load images.

/// The byte lengths of `segs` added up, saturating at `u64::MAX`.
pub open spec fn sum_lengths(segs: Seq<Seq<u8>>) -> u64
    decreases segs.len(),
{
    if segs.len() == 0 {
        0
    } else {
        sum_lengths(segs.drop_last()).saturating_add(segs.last().len() as u64)
    }
}

/// The zero-filled bytes of `plan` added up, saturating at `u64::MAX`.
pub open spec fn sum_zero_fill(plan: Seq<crate::exec::LoadSegmentPlan>) -> u64
    decreases plan.len(),
{
    if plan.len() == 0 {
        0
    } else {
        sum_zero_fill(plan.drop_last()).saturating_add(plan.last().zero_fill_bytes)
    }
}

/// `e` reports segment `h` with the mapped bytes `bytes`.
pub open spec fn image_entry_is(e: VmMapImageEntry, h: crate::exec::LoadSegmentPlan, bytes: Seq<u8>) -> bool {
    &&& e.index == h.index
    &&& e.file_offset == h.file_offset
    &&& e.virtual_start == h.virtual_start
    &&& e.virtual_end == h.virtual_end
    &&& e.map_start == h.map_start
    &&& e.map_end == h.map_end
    &&& e.page_offset == h.page_offset
    &&& e.file_bytes == h.file_bytes
    &&& e.memory_bytes == h.memory_bytes
    &&& e.zero_fill_bytes == h.zero_fill_bytes
    &&& e.alignment == h.alignment
    &&& e.readable == h.permissions.read
    &&& e.writable == h.permissions.write
    &&& e.executable == h.permissions.execute
    &&& e.bytes@ == bytes
}

/// The part of a load image that describes the file itself.
pub open spec fn image_file_is(li: ExecutableLoadImage, n: Seq<u8>, r: ResolvedNode, kind: ImageKind) -> bool {
    &&& li.path@ == lossy_utf8(n)
    &&& li.mount == r.mount
    &&& li.format == spec_format_of(kind)
    &&& li.size == r.size
    &&& li.executable == r.executable
}

/// The part of a load image that an image without loadable segments reports.
pub open spec fn image_without_segments(li: ExecutableLoadImage) -> bool {
    &&& li.image_type is None
    &&& li.machine is None
    &&& li.entry_point is None
    &&& li.vm_map_images@.len() == 0
    &&& li.vm_map_total_bytes == 0
    &&& li.vm_map_zero_fill_bytes == 0
}

/// The part of a load image that reports the segments `plan` of `layout`, mapped as `segs`.
pub open spec fn image_elf_is(
    li: ExecutableLoadImage,
    layout: crate::exec::ElfLayout,
    plan: Seq<crate::exec::LoadSegmentPlan>,
    segs: Seq<Seq<u8>>,
) -> bool {
    &&& li.image_type == Some(layout.image_type)
    &&& li.machine == Some(layout.machine)
    &&& li.entry_point == Some(layout.entry_point)
    &&& li.vm_map_images@.len() == plan.len()
    &&& forall|i: int| 0 <= i < plan.len() ==> image_entry_is(#[trigger] li.vm_map_images@[i], plan[i], segs[i])
    &&& li.vm_map_total_bytes == sum_lengths(segs)
    &&& li.vm_map_zero_fill_bytes == sum_zero_fill(plan)
}

/// The interpreter fields of a load image.
pub open spec fn image_interpreter_is(
    vfs: Vfs,
    fs: FileSystems,
    li: ExecutableLoadImage,
    interpreter: Option<Seq<char>>,
    argument: Option<Seq<char>>,
) -> bool {
    let source = spec_interpreter_source(vfs, fs, interpreter);
    &&& opt_text(li.interpreter) == interpreter
    &&& opt_text(li.interpreter_source) == opt_lossy(source)
    &&& crate::exec::opt_ascii_kept(source, opt_text(li.interpreter_source))
    &&& opt_text(li.interpreter_argument) == argument
    &&& li.interpreter_resolved == source is Some
}

/// What building the load image of the executable at `path` yields.
pub open spec fn load_image_is(vfs: Vfs, fs: FileSystems, path: Seq<u8>, result: Result<ExecutableLoadImage, ExecutableLoadPrepError>) -> bool {
    match spec_discover(vfs, fs, path) {
        Err(e) => result matches Err(x) && x == ExecutableLoadPrepError::Discovery(e),
        Ok((n, r, kind)) => {
            let img = spec_exec_bytes(fs, r.mount, n)->Some_0;
            match kind {
                ImageKind::Elf64 => {
                    let layout = crate::exec::spec_parse_elf64(img)->Ok_0;
                    match crate::exec::spec_load_plan(layout.program_headers) {
                        Err(e) => result matches Err(x) && x == ExecutableLoadPrepError::Parse(e),
                        Ok(plan) => match crate::exec::spec_materialize_prefix(img, plan, plan.len()) {
                            Err(e) => result matches Err(x) && x == ExecutableLoadPrepError::Parse(e),
                            Ok(segs) => result matches Ok(li) && image_file_is(li, n, r, kind) && image_elf_is(
                                li,
                                layout,
                                plan,
                                segs,
                            ) && image_interpreter_is(vfs, fs, li, opt_lossy(layout.interpreter), None),
                        },
                    }
                },
                ImageKind::ShebangScript => {
                    let parsed = crate::exec::spec_parse_shebang(img)->Some_0;
                    result matches Ok(li) && image_file_is(li, n, r, kind) && image_without_segments(li)
                        && image_interpreter_is(vfs, fs, li, Some(lossy_utf8(parsed.0)), opt_lossy(parsed.1))
                        && crate::exec::opt_ascii_kept(Some(parsed.0), opt_text(li.interpreter))
                        && crate::exec::opt_ascii_kept(parsed.1, opt_text(li.interpreter_argument))
                },
                _ => result matches Ok(li) && image_file_is(li, n, r, kind) && image_without_segments(li)
                    && image_interpreter_is(vfs, fs, li, None, None),
            }
        },
    }
}

proof fn lemma_materialize_len(img: Seq<u8>, plan: Seq<crate::exec::LoadSegmentPlan>, n: nat)
    requires
        n <= plan.len(),
        crate::exec::spec_materialize_prefix(img, plan, n) is Ok,
    ensures
        crate::exec::spec_materialize_prefix(img, plan, n)->Ok_0.len() == n,
    decreases n,
{
    if n > 0 {
        lemma_materialize_len(img, plan, (n - 1) as nat);
    }
}

fn image_entry(h: &crate::exec::LoadSegmentPlan, bytes: Vec<u8>) -> (e: VmMapImageEntry)
    ensures
        image_entry_is(e, *h, bytes@),
{
    VmMapImageEntry {
        index: h.index,
        file_offset: h.file_offset,
        virtual_start: h.virtual_start,
        virtual_end: h.virtual_end,
        map_start: h.map_start,
        map_end: h.map_end,
        page_offset: h.page_offset,
        file_bytes: h.file_bytes,
        memory_bytes: h.memory_bytes,
        zero_fill_bytes: h.zero_fill_bytes,
        alignment: h.alignment,
        readable: h.permissions.read,
        writable: h.permissions.write,
        executable: h.permissions.execute,
        bytes,
    }
}

/// Pairs each planned segment with its mapped bytes and adds up the totals.
fn pair_segments(plan: &Vec<crate::exec::LoadSegmentPlan>, segments: Vec<Vec<u8>>) -> (r: (Vec<VmMapImageEntry>, u64, u64))
    requires
        segments@.len() == plan@.len(),
    ensures
        r.0@.len() == plan@.len(),
        forall|i: int| 0 <= i < plan@.len() ==> image_entry_is(#[trigger] r.0@[i], plan@[i], segments@[i]@),
        r.1 == sum_lengths(crate::exec::byte_views(segments@)),
        r.2 == sum_zero_fill(plan@),
{
    let ghost segs = crate::exec::byte_views(segments@);
    let mut rest = segments;
    let mut images: Vec<VmMapImageEntry> = Vec::new();
    let mut total: u64 = 0;
    let mut zero_fill: u64 = 0;
    let mut i: usize = 0;
    while i < plan.len()
        invariant
            i <= plan@.len(),
            segs.len() == plan@.len(),
            segs == crate::exec::byte_views(segments@),
            crate::exec::byte_views(rest@) == segs.subrange(i as int, segs.len() as int),
            images@.len() == i,
            forall|k: int| 0 <= k < i ==> image_entry_is(#[trigger] images@[k], plan@[k], segs[k]),
            total == sum_lengths(segs.take(i as int)),
            zero_fill == sum_zero_fill(plan@.take(i as int)),
        decreases plan@.len() - i,
    {
        proof {
            assert(crate::exec::byte_views(rest@).len() == rest@.len());
            assert(rest@.len() > 0);
        }
        let ghost before = rest@;
        let mapped = rest.remove(0);
        proof {
            assert(crate::exec::byte_views(before)[0] == mapped@);
        }
        let h = &plan[i];
        let mapped_len = mapped.len() as u64;
        proof {
            assert(segs[i as int] == mapped@);
            assert(segs.take(i + 1).drop_last() =~= segs.take(i as int));
            assert(plan@.take(i + 1).drop_last() =~= plan@.take(i as int));
            assert(rest@ == before.remove(0));
            assert forall|k: int| 0 <= k < rest@.len() implies crate::exec::byte_views(rest@)[k] == segs.subrange(
                i + 1,
                segs.len() as int,
            )[k] by {
                assert(rest@[k] == before[k + 1]);
                assert(crate::exec::byte_views(before)[k + 1] == segs[i + 1 + k]);
            }
            assert(crate::exec::byte_views(rest@) =~= segs.subrange(i + 1, segs.len() as int));
        }
        total = total.saturating_add(mapped_len);
        zero_fill = zero_fill.saturating_add(h.zero_fill_bytes);
        images.push(image_entry(h, mapped));
        i = i + 1;
    }
    proof {
        assert(segs.take(plan@.len() as int) =~= segs);
        assert(plan@.take(plan@.len() as int) =~= plan@);
        assert forall|k: int| 0 <= k < plan@.len() implies image_entry_is(#[trigger] images@[k], plan@[k], segments@[k]@) by {
            assert(segs[k] == segments@[k]@);
        }
    }
    (images, total, zero_fill)
}

} // verus!

verus! {

/// A load image of a file without loadable segments.
fn image_without_plan(
    path: String,
    node: ResolvedNode,
    format: ExecutableFormat,
    interpreter: Option<String>,
    interpreter_source: Option<String>,
    interpreter_argument: Option<String>,
) -> (li: ExecutableLoadImage)
    ensures
        li.path == path,
        li.mount == node.mount,
        li.format == format,
        li.size == node.size,
        li.executable == node.executable,
        image_without_segments(li),
        li.interpreter == interpreter,
        li.interpreter_source == interpreter_source,
        li.interpreter_argument == interpreter_argument,
        li.interpreter_resolved == interpreter_source is Some,
{
    let resolved = interpreter_source.is_some();
    ExecutableLoadImage {
        path,
        mount: node.mount,
        format,
        size: node.size,
        executable: node.executable,
        image_type: None,
        machine: None,
        entry_point: None,
        interpreter,
        interpreter_source,
        interpreter_argument,
        interpreter_resolved: resolved,
        vm_map_images: Vec::new(),
        vm_map_total_bytes: 0,
        vm_map_zero_fill_bytes: 0,
    }
}

/// Finds the executable at `path` and builds the bytes of each mapping of its loadable
/// segments: zeros with the segment's file bytes copied in at its page offset.
pub fn materialize_executable_image(vfs: &Vfs, fs: &FileSystems, path: &str) -> (result: Result<
    ExecutableLoadImage,
    ExecutableLoadPrepError,
>)
    requires
        fs.wf(),
    ensures
        load_image_is(*vfs, *fs, path.spec_bytes(), result),
{
    let (n, node, kind) = match discover_bytes(vfs, fs, path.as_bytes()) {
        Err(e) => return Err(ExecutableLoadPrepError::Discovery(e)),
        Ok(found) => found,
    };
    let bytes = match read_executable_bytes(fs, node.mount, n.as_slice()) {
        None => return Err(ExecutableLoadPrepError::Discovery(ExecutableDiscoveryError::BackendUnavailable)),
        Some(b) => b,
    };
    let image = match crate::exec::inspect(bytes) {
        Err(e) => return Err(ExecutableLoadPrepError::Parse(e)),
        Ok(image) => image,
    };
    let path_text = string_from_bytes_lossy(n.as_slice());
    let format = executable_format_from_kind(kind);
    match image {
        crate::exec::ExecutableImage::Elf64(elf) => {
            let plan = match crate::exec::build_load_plan(&elf) {
                Err(e) => return Err(ExecutableLoadPrepError::Parse(e)),
                Ok(plan) => plan,
            };
            let segments = match crate::exec::materialize_load_segments(bytes, plan.as_slice()) {
                Err(e) => return Err(ExecutableLoadPrepError::Parse(e)),
                Ok(segments) => segments,
            };
            proof {
                lemma_materialize_len(bytes@, plan@, plan@.len());
            }
            let (images, total, zero_fill) = pair_segments(&plan, segments);
            let source = interpreter_source(vfs, fs, &elf.interpreter);
            let resolved = source.is_some();
            Ok(
                ExecutableLoadImage {
                    path: path_text,
                    mount: node.mount,
                    format,
                    size: node.size,
                    executable: node.executable,
                    image_type: Some(elf.image_type),
                    machine: Some(elf.machine),
                    entry_point: Some(elf.entry_point),
                    interpreter: elf.interpreter,
                    interpreter_source: source,
                    interpreter_argument: None,
                    interpreter_resolved: resolved,
                    vm_map_images: images,
                    vm_map_total_bytes: total,
                    vm_map_zero_fill_bytes: zero_fill,
                },
            )
        },
        crate::exec::ExecutableImage::Shebang(script) => {
            let interpreter = Some(script.interpreter);
            let source = interpreter_source(vfs, fs, &interpreter);
            Ok(image_without_plan(path_text, node, format, interpreter, source, script.argument))
        },
        _ => Ok(image_without_plan(path_text, node, format, None, None, None)),
    }
}

/// Builds the load image of the init program, `/initrd/init`.
pub fn materialize_init_image(vfs: &Vfs, fs: &FileSystems) -> (result: Result<ExecutableLoadImage, ExecutableLoadPrepError>)
    requires
        fs.wf(),
    ensures
        load_image_is(*vfs, *fs, init_path(), result),
{
    materialize_executable_image(vfs, fs, "/initrd/init")
}

} // verus!

verus! {

// ---------------------------------------------------------------------------
// Laws of normalization.

/// A segment that normalization keeps as it is: not empty, not `.` or `..`, without `/`.
pub open spec fn plain_segment(seg: Seq<u8>) -> bool {
    &&& seg.len() > 0
    &&& seg != dot()
    &&& seg != dot_dot()
    &&& forall|j: int| 0 <= j < seg.len() ==> seg[j] != 0x2f
}

pub open spec fn all_plain(kept: Seq<Seq<u8>>) -> bool {
    forall|k: int| 0 <= k < kept.len() ==> plain_segment(#[trigger] kept[k])
}

proof fn lemma_fold_keeps_plain(p: Seq<u8>, start: int, i: int, kept: Seq<Seq<u8>>)
    requires
        0 <= start <= i <= p.len(),
        forall|j: int| start <= j < i ==> p[j] != 0x2f,
        all_plain(kept),
    ensures
        fold_segments(p, start, i, kept) matches Some(k) ==> all_plain(k),
    decreases p.len() - i,
{
    if i >= p.len() {
        let seg = p.subrange(start, p.len() as int);
        if !(seg.len() == 0 || seg == dot() || seg == dot_dot()) {
            assert(plain_segment(seg));
            assert(all_plain(kept.push(seg))) by {
                assert forall|k: int| 0 <= k < kept.push(seg).len() implies plain_segment(#[trigger] kept.push(seg)[k]) by {
                    if k < kept.len() {
                        assert(kept.push(seg)[k] == kept[k]);
                    }
                }
            }
        }
    } else if p[i] == 0x2f {
        let seg = p.subrange(start, i);
        match take_segment(kept, seg) {
            None => {},
            Some(k2) => {
                if seg.len() == 0 || seg == dot() {
                } else if seg == dot_dot() {
                    assert(all_plain(k2)) by {
                        assert forall|k: int| 0 <= k < k2.len() implies plain_segment(#[trigger] k2[k]) by {
                            assert(k2[k] == kept[k]);
                        }
                    }
                } else {
                    assert(plain_segment(seg));
                    assert(all_plain(k2)) by {
                        assert forall|k: int| 0 <= k < k2.len() implies plain_segment(#[trigger] k2[k]) by {
                            if k < kept.len() {
                                assert(k2[k] == kept[k]);
                            }
                        }
                    }
                }
                lemma_fold_keeps_plain(p, i + 1, i + 1, k2);
            },
        }
    } else {
        lemma_fold_keeps_plain(p, start, i + 1, kept);
    }
}

/// Scanning `p1 + r`, where `r` starts with `/`, agrees with scanning `p1` up to its end.
proof fn lemma_fold_prefix(p1: Seq<u8>, r: Seq<u8>, start: int, i: int, kept: Seq<Seq<u8>>)
    requires
        0 <= start <= i <= p1.len(),
        r.len() > 0,
        r[0] == 0x2f,
    ensures
        fold_segments(p1 + r, start, i, kept) == match fold_segments(p1, start, i, kept) {
            None => None,
            Some(k) => fold_segments(p1 + r, p1.len() + 1int, p1.len() + 1int, k),
        },
    decreases p1.len() - i,
{
    let p2 = p1 + r;
    if i == p1.len() {
        assert(p2[i] == 0x2f);
        assert(p2.subrange(start, i) =~= p1.subrange(start, p1.len() as int));
    } else {
        assert(p2[i] == p1[i]);
        if p1[i] == 0x2f {
            assert(p2.subrange(start, i) =~= p1.subrange(start, i));
            match take_segment(kept, p1.subrange(start, i)) {
                None => {},
                Some(k) => lemma_fold_prefix(p1, r, i + 1, i + 1, k),
            }
        } else {
            lemma_fold_prefix(p1, r, start, i + 1, kept);
        }
    }
}

/// Scanning a final plain segment keeps it.
proof fn lemma_fold_last_segment(p: Seq<u8>, start: int, i: int, kept: Seq<Seq<u8>>)
    requires
        0 <= start <= i <= p.len(),
        plain_segment(p.subrange(start, p.len() as int)),
    ensures
        fold_segments(p, start, i, kept) == Some(kept.push(p.subrange(start, p.len() as int))),
    decreases p.len() - i,
{
    if i < p.len() {
        assert(p[i] == p.subrange(start, p.len() as int)[i - start]);
        lemma_fold_last_segment(p, start, i + 1, kept);
    }
}

proof fn lemma_join_starts_with_slash(kept: Seq<Seq<u8>>)
    requires
        kept.len() > 0,
    ensures
        join_segments(kept).len() > 0,
        join_segments(kept)[0] == 0x2f,
    decreases kept.len(),
{
    let a = join_segments(kept.drop_last());
    assert(join_segments(kept) == a + root_path() + kept.last());
    if kept.len() > 1 {
        lemma_join_starts_with_slash(kept.drop_last());
        assert((a + root_path() + kept.last())[0] == a[0]);
    } else {
        assert(a =~= Seq::<u8>::empty());
        assert((a + root_path() + kept.last())[0] == root_path()[0]);
    }
}

/// Normalizing the joined plain segments gives them back.
proof fn lemma_fold_join(kept: Seq<Seq<u8>>)
    requires
        kept.len() > 0,
        all_plain(kept),
    ensures
        fold_segments(join_segments(kept), 0, 0, Seq::empty()) == Some(kept),
    decreases kept.len(),
{
    let last = kept.last();
    let p1 = join_segments(kept.drop_last());
    let r = root_path() + last;
    let p = join_segments(kept);
    assert(p == p1 + r) by {
        assert(p =~= p1 + root_path() + last);
    }
    assert(plain_segment(last));
    assert(p.subrange(p1.len() + 1int, p.len() as int) =~= last);
    if kept.len() == 1 {
        assert(kept.drop_last() =~= Seq::<Seq<u8>>::empty());
        assert(p1 =~= Seq::<u8>::empty());
        assert(p[0] == 0x2f);
        assert(p.subrange(0, 0) =~= Seq::<u8>::empty());
        lemma_fold_last_segment(p, 1, 1, Seq::empty());
        assert(Seq::<Seq<u8>>::empty().push(last) =~= kept);
    } else {
        assert(all_plain(kept.drop_last())) by {
            assert forall|k: int| 0 <= k < kept.drop_last().len() implies plain_segment(#[trigger] kept.drop_last()[k]) by {
                assert(kept.drop_last()[k] == kept[k]);
            }
        }
        lemma_fold_join(kept.drop_last());
        lemma_fold_prefix(p1, r, 0, 0, Seq::empty());
        lemma_fold_last_segment(p, p1.len() + 1int, p1.len() + 1int, kept.drop_last());
        assert(kept.drop_last().push(last) =~= kept);
    }
}

/// Normalization is idempotent: a normalized path normalizes to itself.
pub proof fn lemma_normalize_idempotent(p: Seq<u8>)
    requires
        spec_normalize_path(p) is Some,
    ensures
        spec_normalize_path(spec_normalize_path(p)->Some_0) == spec_normalize_path(p),
{
    let kept = fold_segments(p, 0, 0, Seq::empty())->Some_0;
    lemma_fold_keeps_plain(p, 0, 0, Seq::empty());
    let n = spec_normalize_path(p)->Some_0;
    if kept.len() == 0 {
        assert(n == root_path());
        assert(n.subrange(0, 0) =~= Seq::<u8>::empty());
        assert(n.subrange(1, 1) =~= Seq::<u8>::empty());
        assert(fold_segments(n, 1, 1, Seq::empty()) == Some(Seq::<Seq<u8>>::empty()));
    } else {
        lemma_join_starts_with_slash(kept);
        lemma_fold_join(kept);
    }
}

/// Looking up the path that a lookup reports finds the same node again.
pub proof fn lemma_lookup_reported_path(vfs: Vfs, fs: FileSystems, path: Seq<u8>)
    requires
        spec_lookup(vfs, fs, path) is Some,
    ensures
        spec_lookup(vfs, fs, spec_lookup(vfs, fs, path)->Some_0.0) == spec_lookup(vfs, fs, path),
        spec_read(vfs, fs, spec_lookup(vfs, fs, path)->Some_0.0) == spec_read(vfs, fs, path),
{
    lemma_normalize_idempotent(path);
}

} // verus!
