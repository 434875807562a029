use vstd::prelude::*;
use vstd::string::StringSliceAdditionalSpecFns;
use vstd::utf8::valid_utf8;

use crate::bstr::{
    bytes_eq, contains_byte, contains_pair, ends_with, has_prefix, has_suffix, holds_byte, holds_pair,
    leading_run_end, push_all, skip_leading, starts_with, trailing_run_start, trim_end_byte, trim_trailing,
};
use crate::limine::{Module, ModuleList};
use crate::text::{is_valid_utf8, lossy_utf8, string_from_bytes_lossy};

verus! {

pub const CPIO_HEADER_LEN: usize = 110;
pub const FILE_TYPE_MASK: u32 = 0o170000;
pub const FILE_TYPE_DIRECTORY: u32 = 0o040000;
pub const MODE_EXECUTABLE_MASK: u32 = 0o111;
pub const DEFAULT_DIRECTORY_MODE: u32 = 0o040755;

/// Whether an archive entry is a directory or a file.
#[derive(Copy, Clone, PartialEq, Eq, Structural, Debug)]
pub enum InitrdEntryKind {
    Directory,
    File,
}

/// Kind of a node under `/initrd`.
#[derive(Copy, Clone, PartialEq, Eq, Structural, Debug)]
pub enum InitrdNodeKind {
    Directory,
    File,
}

/// Metadata of a node under `/initrd`.
#[derive(Copy, Clone, PartialEq, Eq, Structural, Debug)]
pub struct InitrdNodeInfo {
    pub kind: InitrdNodeKind,
    pub size: usize,
    pub executable: bool,
}

/// Counts describing the mounted initrd.
#[derive(Copy, Clone, PartialEq, Eq, Structural, Debug)]
pub struct InitrdSummary {
    pub module_count: usize,
    pub archive_bytes: usize,
    pub directory_count: usize,
    pub file_count: usize,
    pub entry_count: usize,
}

/// Why the initrd could not be mounted or a path could not be used.
#[derive(Copy, Clone, PartialEq, Eq, Structural, Debug)]
pub enum InitrdError {
    AlreadyInitialized,
    ModuleMissing,
    InvalidArchive,
    InvalidEntryName,
    UnsupportedPath,
}

impl InitrdError {
    pub fn as_str(self) -> (text: &'static str)
        ensures
            text@ == spec_initrd_error_text(self),
    {
        match self {
            Self::AlreadyInitialized => "initrd is already initialized",
            Self::ModuleMissing => "initrd module not found",
            Self::InvalidArchive => "initrd archive is malformed or unsupported",
            Self::InvalidEntryName => "initrd entry name is invalid",
            Self::UnsupportedPath => "initrd only supports /initrd paths",
        }
    }
}

pub open spec fn spec_initrd_error_text(e: InitrdError) -> Seq<char> {
    match e {
        InitrdError::AlreadyInitialized => "initrd is already initialized"@,
        InitrdError::ModuleMissing => "initrd module not found"@,
        InitrdError::InvalidArchive => "initrd archive is malformed or unsupported"@,
        InitrdError::InvalidEntryName => "initrd entry name is invalid"@,
        InitrdError::UnsupportedPath => "initrd only supports /initrd paths"@,
    }
}

/// One entry of the unpacked archive: a path under `/initrd` and, for files,
/// the range of the archive holding the file's bytes.
pub struct InitrdEntry {
    pub path: Vec<u8>,
    pub kind: InitrdEntryKind,
    pub mode: u32,
    pub data_start: usize,
    pub data_len: usize,
}

/// An archive entry in mathematical terms.
pub struct EntryView {
    pub path: Seq<u8>,
    pub kind: InitrdEntryKind,
    pub mode: u32,
    pub data_start: int,
    pub data_len: int,
}

impl InitrdEntry {
    pub open spec fn view(&self) -> EntryView {
        EntryView {
            path: self.path@,
            kind: self.kind,
            mode: self.mode,
            data_start: self.data_start as int,
            data_len: self.data_len as int,
        }
    }
}

/// The views of a list of entries.
pub open spec fn entry_views(es: Seq<InitrdEntry>) -> Seq<EntryView> {
    Seq::new(es.len(), |i: int| es[i]@)
}

// ---------------------------------------------------------------------------
// Fixed byte strings.

/// "/initrd"
pub open spec fn initrd_root() -> Seq<u8> {
    seq![0x2f, 0x69, 0x6e, 0x69, 0x74, 0x72, 0x64]
}

/// "/initrd/"
pub open spec fn initrd_root_slash() -> Seq<u8> {
    initrd_root().push(0x2f)
}

/// "070701", the `newc` magic.
pub open spec fn newc_magic() -> Seq<u8> {
    seq![0x30, 0x37, 0x30, 0x37, 0x30, 0x31]
}

/// "070702", the `newc` magic with checksums.
pub open spec fn crc_magic() -> Seq<u8> {
    seq![0x30, 0x37, 0x30, 0x37, 0x30, 0x32]
}

/// "TRAILER!!!", the name of the last archive entry.
pub open spec fn trailer_name() -> Seq<u8> {
    seq![0x54, 0x52, 0x41, 0x49, 0x4c, 0x45, 0x52, 0x21, 0x21, 0x21]
}

/// "./"
pub open spec fn dot_slash() -> Seq<u8> {
    seq![0x2e, 0x2f]
}

/// "initrd", the module string that marks the initrd.
pub open spec fn initrd_label() -> Seq<u8> {
    seq![0x69, 0x6e, 0x69, 0x74, 0x72, 0x64]
}

/// "initrd.cpio", the file name that marks the initrd.
pub open spec fn initrd_file_name() -> Seq<u8> {
    seq![0x69, 0x6e, 0x69, 0x74, 0x72, 0x64, 0x2e, 0x63, 0x70, 0x69, 0x6f]
}

fn initrd_root_bytes() -> (r: Vec<u8>)
    ensures
        r@ == initrd_root(),
{
    let r = vec![0x2fu8, 0x69, 0x6e, 0x69, 0x74, 0x72, 0x64];
    assert(r@ =~= initrd_root());
    r
}

// ---------------------------------------------------------------------------
// Specification of the archive format.

/// Value of an ASCII hexadecimal digit.
pub open spec fn hex_digit(b: u8) -> Option<u32> {
    if 0x30 <= b <= 0x39 {
        Some((b - 0x30) as u32)
    } else if 0x61 <= b <= 0x66 {
        Some((b - 0x61 + 10) as u32)
    } else if 0x41 <= b <= 0x46 {
        Some((b - 0x41 + 10) as u32)
    } else {
        None
    }
}

/// Value of a string of hexadecimal digits, if every byte is one.
pub open spec fn spec_hex(s: Seq<u8>) -> Option<u32>
    decreases s.len(),
{
    if s.len() == 0 {
        Some(0)
    } else {
        match spec_hex(s.drop_last()) {
            None => None,
            Some(v) => match hex_digit(s.last()) {
                None => None,
                Some(d) => Some((v * 16 + d) as u32),
            },
        }
    }
}

/// An upper-case ASCII letter as lower case; any other byte as it is.
pub open spec fn ascii_lower(b: u8) -> u8 {
    if 0x41 <= b <= 0x5a {
        (b + 0x20) as u8
    } else {
        b
    }
}

/// `s` with its upper-case ASCII letters in lower case.
pub open spec fn lower_case(s: Seq<u8>) -> Seq<u8> {
    Seq::new(s.len(), |i: int| ascii_lower(s[i]))
}

/// The value of a hexadecimal field does not depend on the case of its letter digits:
/// a field reads the same, or is refused the same, once its letters are in lower case.
pub proof fn lemma_hex_ignores_case(s: Seq<u8>)
    ensures
        spec_hex(s) == spec_hex(lower_case(s)),
    decreases s.len(),
{
    if s.len() > 0 {
        let l = lower_case(s);
        assert(l.drop_last() =~= lower_case(s.drop_last()));
        assert(l.last() == ascii_lower(s.last()));
        lemma_hex_ignores_case(s.drop_last());
        assert(hex_digit(s.last()) == hex_digit(ascii_lower(s.last())));
    }
}

proof fn lemma_pow16_bounds(n: nat)
    requires
        n <= 8,
    ensures
        1 <= vstd::arithmetic::power::pow(16, n) <= 0x1_0000_0000,
        n < 8 ==> vstd::arithmetic::power::pow(16, n) <= 0x1000_0000,
        n == 8 ==> vstd::arithmetic::power::pow(16, n) == 0x1_0000_0000,
{
    reveal_with_fuel(vstd::arithmetic::power::pow, 9);
    if n == 0 {
    } else if n == 1 {
    } else if n == 2 {
    } else if n == 3 {
    } else if n == 4 {
    } else if n == 5 {
    } else if n == 6 {
    } else if n == 7 {
    } else {
    }
}

/// A field of `w` lower-case hexadecimal digits, as `hex_fixed` writes `v`, reads back as `v`
/// kept to `w` digits; eight digits hold any 32-bit value exactly.
pub proof fn lemma_hex_reads_fixed(v: nat, w: nat)
    requires
        w <= 8,
    ensures
        spec_hex(crate::fmt::hex_fixed(v, w)) == Some(((v as int) % vstd::arithmetic::power::pow(16, w)) as u32),
        w == 8 && v < 0x1_0000_0000 ==> spec_hex(crate::fmt::hex_fixed(v, w)) == Some(v as u32),
    decreases w,
{
    reveal(vstd::arithmetic::power::pow);
    lemma_pow16_bounds(w);
    if w == 0 {
        assert(crate::fmt::hex_fixed(v, w) =~= Seq::<u8>::empty());
    } else {
        let p = vstd::arithmetic::power::pow(16, (w - 1) as nat);
        lemma_pow16_bounds((w - 1) as nat);
        lemma_hex_reads_fixed(v / 16, (w - 1) as nat);
        let x = crate::fmt::hex_fixed(v / 16, (w - 1) as nat);
        let h = crate::fmt::hex_fixed(v, w);
        assert(h.drop_last() =~= x);
        let d = (v % 16) as int;
        assert(h.last() == crate::fmt::hex_digit_byte(d));
        assert(hex_digit(crate::fmt::hex_digit_byte(d)) == Some(d as u32));
        vstd::arithmetic::div_mod::lemma_mod_breakdown(v as int, 16, p);
        let q = ((v / 16) as int) % p;
        assert(0 <= q < p);
        assert(q * 16 == 16 * q) by (nonlinear_arith);
        assert(vstd::arithmetic::power::pow(16, w) == 16 * p);
        assert(q * 16 + d < 0x1_0000_0000) by (nonlinear_arith)
            requires
                0 <= q < p,
                p <= 0x1000_0000,
                0 <= d < 16,
        ;
    }
    if w == 8 && v < 0x1_0000_0000 {
        vstd::arithmetic::div_mod::lemma_small_mod(v, 0x1_0000_0000);
    }
}

/// `v` rounded up to a multiple of four.
pub open spec fn spec_align4(v: int) -> int {
    (v + 3) - (v + 3) % 4
}

/// A directory entry for `path`.
pub open spec fn dir_view(path: Seq<u8>, mode: u32) -> EntryView {
    EntryView { path, kind: InitrdEntryKind::Directory, mode, data_start: 0, data_len: 0 }
}

/// Index of the first directory entry at or after `i` whose path is `path`, or the length.
pub open spec fn find_dir_from(es: Seq<EntryView>, path: Seq<u8>, i: int) -> int
    decreases es.len() - i,
{
    if i < 0 || i >= es.len() {
        es.len() as int
    } else if es[i].kind == InitrdEntryKind::Directory && es[i].path == path {
        i
    } else {
        find_dir_from(es, path, i + 1)
    }
}

/// Records a directory: a known one takes the new mode, an unknown one is appended.
pub open spec fn spec_push_directory(es: Seq<EntryView>, path: Seq<u8>, mode: u32) -> Seq<EntryView> {
    let k = find_dir_from(es, path, 0);
    if k < es.len() {
        es.update(k, EntryView { mode, ..es[k] })
    } else {
        es.push(dir_view(path, mode))
    }
}

/// Records the directory of every `/` at or after index `i` of `path`, in order.
pub open spec fn parents_from(es: Seq<EntryView>, path: Seq<u8>, i: int) -> Seq<EntryView>
    decreases path.len() - i,
{
    if i < 0 || i >= path.len() {
        es
    } else if path[i] == 0x2f {
        parents_from(spec_push_directory(es, path.subrange(0, i), DEFAULT_DIRECTORY_MODE), path, i + 1)
    } else {
        parents_from(es, path, i + 1)
    }
}

/// Records every ancestor directory of `path` below `/initrd`.
pub open spec fn spec_ensure_parents(es: Seq<EntryView>, path: Seq<u8>) -> Seq<EntryView> {
    parents_from(es, path, 8)
}

/// `raw` without its leading and trailing slashes.
pub open spec fn trim_slashes(raw: Seq<u8>) -> Seq<u8> {
    let a = leading_run_end(raw, 0x2f, 0);
    if a >= raw.len() {
        Seq::empty()
    } else {
        raw.subrange(a, trailing_run_start(raw, 0x2f, raw.len() as int))
    }
}

/// The path under `/initrd` an archive member name maps to.
pub open spec fn spec_normalize_archive_path(raw: Seq<u8>) -> Result<Seq<u8>, InitrdError> {
    let t1 = trim_slashes(raw);
    let t2 = if has_prefix(t1, dot_slash()) {
        t1.subrange(2, t1.len() as int)
    } else {
        t1
    };
    if t2.len() == 0 || t2 == seq![0x2eu8] {
        Ok(initrd_root())
    } else if holds_pair(t2, 0x2e) {
        Err(InitrdError::InvalidEntryName)
    } else {
        Ok(initrd_root_slash() + t2)
    }
}

/// The normal form of a path under `/initrd`.
pub open spec fn spec_normalize_vfs_path(path: Seq<u8>) -> Result<Seq<u8>, InitrdError> {
    if path == initrd_root() || path == initrd_root_slash() {
        Ok(initrd_root())
    } else if !has_prefix(path, initrd_root_slash()) {
        Err(InitrdError::UnsupportedPath)
    } else {
        Ok(trim_end_byte(path, 0x2f))
    }
}

/// The entries that parsing the archive from `cursor` on adds to `es`, or the error.
pub open spec fn spec_parse_from(arc: Seq<u8>, cursor: int, es: Seq<EntryView>) -> Result<Seq<EntryView>, InitrdError>
    decreases arc.len() - cursor,
{
    if cursor < 0 || cursor > arc.len() || arc.len() - cursor < CPIO_HEADER_LEN {
        Err(InitrdError::InvalidArchive)
    } else {
        let h = arc.subrange(cursor, cursor + CPIO_HEADER_LEN);
        if !(h.subrange(0, 6) == newc_magic() || h.subrange(0, 6) == crc_magic()) {
            Err(InitrdError::InvalidArchive)
        } else if spec_hex(h.subrange(14, 22)) is None || spec_hex(h.subrange(54, 62)) is None
            || spec_hex(h.subrange(94, 102)) is None {
            Err(InitrdError::InvalidArchive)
        } else {
            let mode = spec_hex(h.subrange(14, 22))->Some_0;
            let file_size = spec_hex(h.subrange(54, 62))->Some_0 as int;
            let name_size = spec_hex(h.subrange(94, 102))->Some_0 as int;
            let c1 = cursor + CPIO_HEADER_LEN;
            if name_size == 0 || name_size > arc.len() - c1 {
                Err(InitrdError::InvalidArchive)
            } else if c1 + name_size + 3 > usize::MAX || spec_align4(c1 + name_size) > arc.len() {
                Err(InitrdError::InvalidArchive)
            } else {
                let name = arc.subrange(c1, c1 + name_size);
                let c2 = spec_align4(c1 + name_size);
                if name.last() != 0 {
                    Err(InitrdError::InvalidArchive)
                } else if !valid_utf8(name.drop_last()) {
                    Err(InitrdError::InvalidEntryName)
                } else if name.drop_last() == trailer_name() {
                    Ok(es)
                } else {
                    match spec_normalize_archive_path(name.drop_last()) {
                        Err(e) => Err(e),
                        Ok(norm) => {
                            let es1 = spec_ensure_parents(es, norm);
                            if file_size > arc.len() - c2 {
                                Err(InitrdError::InvalidArchive)
                            } else if c2 + file_size + 3 > usize::MAX || spec_align4(c2 + file_size) > arc.len() {
                                Err(InitrdError::InvalidArchive)
                            } else {
                                let es2 = if mode & FILE_TYPE_MASK == FILE_TYPE_DIRECTORY {
                                    spec_push_directory(es1, norm, mode)
                                } else {
                                    es1.push(
                                        EntryView {
                                            path: norm,
                                            kind: InitrdEntryKind::File,
                                            mode,
                                            data_start: c2,
                                            data_len: file_size,
                                        },
                                    )
                                };
                                spec_parse_from(arc, spec_align4(c2 + file_size), es2)
                            }
                        },
                    }
                }
            }
        }
    }
}

/// The entries of a `newc` archive, mounted under `/initrd`, or the error.
pub open spec fn spec_parse_newc(arc: Seq<u8>) -> Result<Seq<EntryView>, InitrdError> {
    spec_parse_from(arc, 0, seq![dir_view(initrd_root(), DEFAULT_DIRECTORY_MODE)])
}


/// `p` is `/initrd` or a path below it, with no `..` in it.
pub open spec fn under_initrd(p: Seq<u8>) -> bool {
    &&& p == initrd_root() || has_prefix(p, initrd_root_slash())
    &&& !holds_pair(p, 0x2e)
}

/// Every entry lies at or below `/initrd`, and the data of every file lies in an archive of
/// `arc_len` bytes.
pub open spec fn entries_sound(es: Seq<EntryView>, arc_len: int) -> bool {
    forall|i: int|
        0 <= i < es.len() ==> under_initrd(#[trigger] es[i].path) && (es[i].kind == InitrdEntryKind::File ==> 0
            <= es[i].data_start && es[i].data_start + es[i].data_len <= arc_len)
}

proof fn lemma_push_directory_sound(es: Seq<EntryView>, path: Seq<u8>, mode: u32, n: int)
    requires
        entries_sound(es, n),
        under_initrd(path),
    ensures
        entries_sound(spec_push_directory(es, path, mode), n),
{
    let k = find_dir_from(es, path, 0);
    if k < es.len() {
        lemma_find_dir_bounds(es, path, 0);
        let es2 = spec_push_directory(es, path, mode);
        assert forall|i: int| 0 <= i < es2.len() implies under_initrd(#[trigger] es2[i].path) && (es2[i].kind
            == InitrdEntryKind::File ==> 0 <= es2[i].data_start && es2[i].data_start + es2[i].data_len <= n) by {
            if i != k {
                assert(es2[i] == es[i]);
                assert(under_initrd(es[i].path));
            } else {
                assert(es2[i].path == es[k].path);
            }
        }
    } else {
        let es2 = spec_push_directory(es, path, mode);
        assert forall|i: int| 0 <= i < es2.len() implies under_initrd(#[trigger] es2[i].path) && (es2[i].kind
            == InitrdEntryKind::File ==> 0 <= es2[i].data_start && es2[i].data_start + es2[i].data_len <= n) by {
            if i < es.len() {
                assert(es2[i] == es[i]);
                assert(under_initrd(es[i].path));
            }
        }
    }
}

proof fn lemma_parents_sound(es: Seq<EntryView>, path: Seq<u8>, i: int, n: int)
    requires
        entries_sound(es, n),
        has_prefix(path, initrd_root_slash()),
        !holds_pair(path, 0x2e),
        i >= 8,
    ensures
        entries_sound(parents_from(es, path, i), n),
    decreases path.len() - i,
{
    if i < path.len() {
        if path[i] == 0x2f {
            let p = path.subrange(0, i);
            assert(p.subrange(0, 8) =~= path.subrange(0, 8));
            assert(!holds_pair(p, 0x2e)) by {
                if holds_pair(p, 0x2e) {
                    let j = choose|j: int| 0 <= j && j + 1 < p.len() && #[trigger] p[j] == 0x2e && p[j + 1] == 0x2e;
                    assert(path[j] == 0x2e && path[j + 1] == 0x2e);
                }
            }
            lemma_push_directory_sound(es, p, DEFAULT_DIRECTORY_MODE, n);
            lemma_parents_sound(spec_push_directory(es, p, DEFAULT_DIRECTORY_MODE), path, i + 1, n);
        } else {
            lemma_parents_sound(es, path, i + 1, n);
        }
    }
}

proof fn lemma_normalized_under_initrd(raw: Seq<u8>)
    requires
        spec_normalize_archive_path(raw) is Ok,
    ensures
        under_initrd(spec_normalize_archive_path(raw)->Ok_0),
{
    let r = spec_normalize_archive_path(raw)->Ok_0;
    if r != initrd_root() {
        let t1 = trim_slashes(raw);
        let t2 = if has_prefix(t1, dot_slash()) {
            t1.subrange(2, t1.len() as int)
        } else {
            t1
        };
        assert(r == initrd_root_slash() + t2);
        assert(r.subrange(0, 8) =~= initrd_root_slash());
        assert(!holds_pair(t2, 0x2e));
        assert(!holds_pair(r, 0x2e)) by {
            if holds_pair(r, 0x2e) {
                let j = choose|j: int| 0 <= j && j + 1 < r.len() && #[trigger] r[j] == 0x2e && r[j + 1] == 0x2e;
                if j < 8 {
                    assert(r[j] == initrd_root_slash()[j]);
                } else {
                    assert(t2[j - 8] == 0x2e && t2[j - 7] == 0x2e);
                }
            }
        }
    } else {
        lemma_root_has_no_dots();
    }
}

proof fn lemma_root_has_no_dots()
    ensures
        !holds_pair(initrd_root(), 0x2e),
{
    if holds_pair(initrd_root(), 0x2e) {
        let r = initrd_root();
        let j = choose|j: int| 0 <= j && j + 1 < r.len() && #[trigger] r[j] == 0x2e && r[j + 1] == 0x2e;
        assert(r[j] != 0x2e);
    }
}

proof fn lemma_parse_from_sound(arc: Seq<u8>, cursor: int, es: Seq<EntryView>)
    requires
        entries_sound(es, arc.len() as int),
        spec_parse_from(arc, cursor, es) is Ok,
    ensures
        entries_sound(spec_parse_from(arc, cursor, es)->Ok_0, arc.len() as int),
    decreases arc.len() - cursor,
{
    let n = arc.len() as int;
    let h = arc.subrange(cursor, cursor + CPIO_HEADER_LEN);
    let mode = spec_hex(h.subrange(14, 22))->Some_0;
    let file_size = spec_hex(h.subrange(54, 62))->Some_0 as int;
    let name_size = spec_hex(h.subrange(94, 102))->Some_0 as int;
    let c1 = cursor + CPIO_HEADER_LEN;
    let name = arc.subrange(c1, c1 + name_size);
    let c2 = spec_align4(c1 + name_size);
    if name.drop_last() != trailer_name() {
        let norm = spec_normalize_archive_path(name.drop_last())->Ok_0;
        lemma_normalized_under_initrd(name.drop_last());
        if norm == initrd_root() {
            assert(parents_from(es, norm, 8) == es);
        } else {
            lemma_parents_sound(es, norm, 8, n);
        }
        let es1 = spec_ensure_parents(es, norm);
        let es2 = if mode & FILE_TYPE_MASK == FILE_TYPE_DIRECTORY {
            spec_push_directory(es1, norm, mode)
        } else {
            es1.push(EntryView { path: norm, kind: InitrdEntryKind::File, mode, data_start: c2, data_len: file_size })
        };
        assert(entries_sound(es1, n));
        if mode & FILE_TYPE_MASK == FILE_TYPE_DIRECTORY {
            lemma_push_directory_sound(es1, norm, mode, n);
            assert(entries_sound(es2, n));
        } else {
            assert forall|i: int| 0 <= i < es2.len() implies under_initrd(#[trigger] es2[i].path) && (es2[i].kind
                == InitrdEntryKind::File ==> 0 <= es2[i].data_start && es2[i].data_start + es2[i].data_len <= n) by {
                if i < es1.len() {
                    assert(es2[i] == es1[i]);
                    assert(under_initrd(es1[i].path));
                } else {
                    assert(c2 + file_size <= n);
                }
            }
            assert(entries_sound(es2, n));
        }
        lemma_parse_from_sound(arc, spec_align4(c2 + file_size), es2);
    }
}

/// Every entry a parsed archive yields lies at `/initrd` or below it, with no `..` in its
/// path, and the data of each file lies within the archive.
pub proof fn lemma_parsed_entries_sound(arc: Seq<u8>)
    requires
        spec_parse_newc(arc) is Ok,
    ensures
        forall|i: int|
            0 <= i < spec_parse_newc(arc)->Ok_0.len() ==> {
                let e = #[trigger] spec_parse_newc(arc)->Ok_0[i];
                &&& e.path == initrd_root() || has_prefix(e.path, initrd_root_slash())
                &&& !holds_pair(e.path, 0x2e)
                &&& e.kind == InitrdEntryKind::File ==> 0 <= e.data_start && e.data_start + e.data_len <= arc.len()
            },
{
    let es0 = seq![dir_view(initrd_root(), DEFAULT_DIRECTORY_MODE)];
    lemma_root_has_no_dots();
    assert(entries_sound(es0, arc.len() as int));
    lemma_parse_from_sound(arc, 0, es0);
    let es = spec_parse_newc(arc)->Ok_0;
    assert forall|i: int| 0 <= i < es.len() implies {
        let e = #[trigger] es[i];
        &&& e.path == initrd_root() || has_prefix(e.path, initrd_root_slash())
        &&& !holds_pair(e.path, 0x2e)
        &&& e.kind == InitrdEntryKind::File ==> 0 <= e.data_start && e.data_start + e.data_len <= arc.len()
    } by {
        assert(under_initrd(es[i].path));
    }
}

// ---------------------------------------------------------------------------
// Archive parsing.

/// Upper bound on the value of `n` hexadecimal digits.
pub open spec fn hex_bound(n: int) -> int {
    if n <= 0 {
        1
    } else if n == 1 {
        0x10
    } else if n == 2 {
        0x100
    } else if n == 3 {
        0x1000
    } else if n == 4 {
        0x1_0000
    } else if n == 5 {
        0x10_0000
    } else if n == 6 {
        0x100_0000
    } else if n == 7 {
        0x1000_0000
    } else {
        0x1_0000_0000
    }
}

proof fn lemma_hex_value_bound(s: Seq<u8>)
    requires
        s.len() <= 8,
        spec_hex(s) is Some,
    ensures
        spec_hex(s)->Some_0 < hex_bound(s.len() as int),
    decreases s.len(),
{
    if s.len() > 0 {
        lemma_hex_value_bound(s.drop_last());
    }
}

/// Parses a field of ASCII hexadecimal digits.
fn parse_hex_u32(bytes: &[u8]) -> (result: Result<u32, InitrdError>)
    requires
        bytes@.len() <= 8,
    ensures
        match spec_hex(bytes@) {
            Some(v) => result == Ok::<u32, InitrdError>(v),
            None => result == Err::<u32, InitrdError>(InitrdError::InvalidArchive),
        },
{
    let mut value: u32 = 0;
    let mut i: usize = 0;
    while i < bytes.len()
        invariant
            i <= bytes@.len() <= 8,
            spec_hex(bytes@.subrange(0, i as int)) == Some(value),
            value < hex_bound(i as int),
        decreases bytes.len() - i,
    {
        let byte = bytes[i];
        proof {
            assert(bytes@.subrange(0, i + 1).drop_last() =~= bytes@.subrange(0, i as int));
            assert(bytes@.subrange(0, i + 1).last() == byte);
        }
        let digit: u32 = if 0x30 <= byte && byte <= 0x39 {
            (byte - 0x30) as u32
        } else if 0x61 <= byte && byte <= 0x66 {
            (byte - 0x61 + 10) as u32
        } else if 0x41 <= byte && byte <= 0x46 {
            (byte - 0x41 + 10) as u32
        } else {
            proof {
                lemma_hex_none_persists(bytes@, (i + 1) as nat);
            }
            return Err(InitrdError::InvalidArchive);
        };
        let scaled = match value.checked_mul(16) {
            Some(v) => v,
            None => return Err(InitrdError::InvalidArchive),
        };
        value = scaled + digit;
        i = i + 1;
    }
    proof {
        assert(bytes@.subrange(0, bytes@.len() as int) =~= bytes@);
    }
    Ok(value)
}

proof fn lemma_hex_none_persists(s: Seq<u8>, k: nat)
    requires
        k <= s.len(),
        spec_hex(s.subrange(0, k as int)) is None,
    ensures
        spec_hex(s) is None,
    decreases s.len() - k,
{
    if k < s.len() {
        assert(s.subrange(0, (k + 1) as int).drop_last() =~= s.subrange(0, k as int));
        lemma_hex_none_persists(s, k + 1);
    } else {
        assert(s.subrange(0, k as int) =~= s);
    }
}

proof fn lemma_align4_bits(v: usize)
    requires
        v + 3 <= usize::MAX,
    ensures
        ((v + 3) as usize) & !3usize == spec_align4(v as int),
{
    let w = (v + 3) as usize;
    assert(w & !3usize == w - w % 4) by (bit_vector);
}

/// `value` rounded up to a multiple of four.
fn align4(value: usize) -> (aligned: usize)
    requires
        value + 3 <= usize::MAX,
    ensures
        aligned == spec_align4(value as int),
{
    proof {
        lemma_align4_bits(value);
    }
    (value + 3) & !3usize
}

/// Records a directory: a known one takes the new mode, an unknown one is appended.
fn push_directory(entries: &mut Vec<InitrdEntry>, path: &[u8], mode: u32)
    ensures
        entry_views(final(entries)@) == spec_push_directory(entry_views(old(entries)@), path@, mode),
{
    let ghost es = entry_views(entries@);
    let mut i: usize = 0;
    while i < entries.len()
        invariant
            i <= entries@.len(),
            es == entry_views(entries@),
            es == entry_views(old(entries)@),
            entries@ == old(entries)@,
            find_dir_from(es, path@, 0) == find_dir_from(es, path@, i as int),
        decreases entries.len() - i,
    {
        if entries[i].kind == InitrdEntryKind::Directory && bytes_eq(entries[i].path.as_slice(), path) {
            let updated = InitrdEntry {
                path: vstd::slice::slice_to_vec(path),
                kind: InitrdEntryKind::Directory,
                mode,
                data_start: entries[i].data_start,
                data_len: entries[i].data_len,
            };
            entries.set(i, updated);
            proof {
                assert(entry_views(entries@) =~= spec_push_directory(es, path@, mode));
            }
            return;
        }
        i = i + 1;
    }
    entries.push(
        InitrdEntry {
            path: vstd::slice::slice_to_vec(path),
            kind: InitrdEntryKind::Directory,
            mode,
            data_start: 0,
            data_len: 0,
        },
    );
    proof {
        assert(entry_views(entries@) =~= spec_push_directory(es, path@, mode));
    }
}

/// Records every ancestor directory of `path` below `/initrd`.
fn ensure_parent_directories(entries: &mut Vec<InitrdEntry>, path: &[u8])
    ensures
        entry_views(final(entries)@) == spec_ensure_parents(entry_views(old(entries)@), path@),
{
    let ghost start = entry_views(entries@);
    if path.len() <= 7 {
        return;
    }
    let mut i: usize = 8;
    while i < path.len()
        invariant
            8 <= i <= path@.len(),
            parents_from(start, path@, 8) == parents_from(entry_views(entries@), path@, i as int),
        decreases path.len() - i,
    {
        if path[i] == 0x2f {
            push_directory(entries, &path[0..i], DEFAULT_DIRECTORY_MODE);
        }
        i = i + 1;
    }
}

/// Maps an archive member name to its path under `/initrd`.
fn normalize_archive_path(raw: &[u8]) -> (result: Result<Vec<u8>, InitrdError>)
    ensures
        match spec_normalize_archive_path(raw@) {
            Ok(p) => result matches Ok(v) && v@ == p,
            Err(e) => result matches Err(x) && x == e,
        },
{
    let a = skip_leading(raw, 0x2f, 0);
    let trimmed: &[u8] = if a >= raw.len() {
        &raw[0..0]
    } else {
        let b = trim_trailing(raw, 0x2f, raw.len());
        proof {
            crate::bstr::lemma_trailing_run_start_bounds(raw@, 0x2f, raw@.len() as int);
            crate::bstr::lemma_leading_run_end_stops(raw@, 0x2f, 0);
            assert(raw@[a as int] != 0x2f);
            assert(trailing_run_start(raw@, 0x2f, raw@.len() as int) > a) by {
                lemma_trailing_stops_after(raw@, 0x2f, raw@.len() as int, a as int);
            }
        }
        &raw[a..b]
    };
    proof {
        assert(trimmed@ =~= trim_slashes(raw@));
    }
    let dot_slash_bytes = [0x2eu8, 0x2f];
    let rest: &[u8] = if starts_with(trimmed, &dot_slash_bytes) {
        &trimmed[2..trimmed.len()]
    } else {
        trimmed
    };
    proof {
        assert(dot_slash_bytes@ =~= dot_slash());
    }
    if rest.len() == 0 || (rest.len() == 1 && rest[0] == 0x2e) {
        proof {
            if rest@.len() == 1 {
                assert(rest@ =~= seq![0x2eu8]);
            }
        }
        return Ok(initrd_root_bytes());
    }
    proof {
        assert(rest@ != seq![0x2eu8]);
    }
    if contains_pair(rest, 0x2e) {
        return Err(InitrdError::InvalidEntryName);
    }
    let mut normalized = initrd_root_bytes();
    normalized.push(0x2f);
    push_all(&mut normalized, rest);
    Ok(normalized)
}

proof fn lemma_trailing_stops_after(s: Seq<u8>, b: u8, end: int, a: int)
    requires
        0 <= a < end <= s.len(),
        s[a] != b,
    ensures
        trailing_run_start(s, b, end) > a,
    decreases end,
{
    if s[end - 1] == b {
        lemma_trailing_stops_after(s, b, end - 1, a);
    }
}

/// The normal form of a path under `/initrd`.
fn normalize_vfs_path(path: &[u8]) -> (result: Result<Vec<u8>, InitrdError>)
    ensures
        match spec_normalize_vfs_path(path@) {
            Ok(p) => result matches Ok(v) && v@ == p,
            Err(e) => result matches Err(x) && x == e,
        },
{
    let root = initrd_root_bytes();
    let mut root_slash = initrd_root_bytes();
    root_slash.push(0x2f);
    if bytes_eq(path, root.as_slice()) || bytes_eq(path, root_slash.as_slice()) {
        return Ok(root);
    }
    if !starts_with(path, root_slash.as_slice()) {
        return Err(InitrdError::UnsupportedPath);
    }
    let end = trim_trailing(path, 0x2f, path.len());
    Ok(vstd::slice::slice_to_vec(&path[0..end]))
}

} // verus!

verus! {

/// The entries of a `newc` archive mounted under `/initrd`.
pub fn parse_newc_archive(archive: &[u8]) -> (result: Result<Vec<InitrdEntry>, InitrdError>)
    ensures
        match spec_parse_newc(archive@) {
            Ok(v) => result matches Ok(es) && entry_views(es@) == v,
            Err(e) => result == Err::<Vec<InitrdEntry>, InitrdError>(e),
        },
{
    let mut entries: Vec<InitrdEntry> = Vec::new();
    let root = initrd_root_bytes();
    push_directory(&mut entries, root.as_slice(), DEFAULT_DIRECTORY_MODE);
    proof {
        assert(entry_views(entries@) =~= seq![dir_view(initrd_root(), DEFAULT_DIRECTORY_MODE)]);
    }
    let newc = [0x30u8, 0x37, 0x30, 0x37, 0x30, 0x31];
    let crc = [0x30u8, 0x37, 0x30, 0x37, 0x30, 0x32];
    let trailer = [0x54u8, 0x52, 0x41, 0x49, 0x4c, 0x45, 0x52, 0x21, 0x21, 0x21];
    proof {
        assert(newc@ =~= newc_magic());
        assert(crc@ =~= crc_magic());
        assert(trailer@ =~= trailer_name());
    }
    let mut cursor: usize = 0;
    loop
        invariant
            cursor <= archive@.len(),
            newc@ == newc_magic(),
            crc@ == crc_magic(),
            trailer@ == trailer_name(),
            spec_parse_newc(archive@) == spec_parse_from(archive@, cursor as int, entry_views(entries@)),
        decreases archive@.len() - cursor,
    {
        let ghost es = entry_views(entries@);
        if archive.len() - cursor < CPIO_HEADER_LEN {
            return Err(InitrdError::InvalidArchive);
        }
        let header = &archive[cursor..cursor + CPIO_HEADER_LEN];
        let magic = &header[0..6];
        if !(bytes_eq(magic, &newc) || bytes_eq(magic, &crc)) {
            return Err(InitrdError::InvalidArchive);
        }
        let mode = match parse_hex_u32(&header[14..22]) {
            Ok(v) => v,
            Err(e) => return Err(e),
        };
        let file_size = match parse_hex_u32(&header[54..62]) {
            Ok(v) => v as usize,
            Err(e) => return Err(e),
        };
        let name_size = match parse_hex_u32(&header[94..102]) {
            Ok(v) => v as usize,
            Err(e) => return Err(e),
        };
        let c1 = cursor + CPIO_HEADER_LEN;
        if name_size == 0 || name_size > archive.len() - c1 {
            return Err(InitrdError::InvalidArchive);
        }
        let name_end = c1 + name_size;
        if name_end > usize::MAX - 3 {
            return Err(InitrdError::InvalidArchive);
        }
        let c2 = align4(name_end);
        if c2 > archive.len() {
            return Err(InitrdError::InvalidArchive);
        }
        let name_bytes = &archive[c1..name_end];
        if name_bytes[name_size - 1] != 0 {
            return Err(InitrdError::InvalidArchive);
        }
        let raw_name = &name_bytes[0..name_size - 1];
        proof {
            assert(raw_name@ =~= name_bytes@.drop_last());
        }
        if !is_valid_utf8(raw_name) {
            return Err(InitrdError::InvalidEntryName);
        }
        if bytes_eq(raw_name, &trailer) {
            return Ok(entries);
        }
        let normalized = match normalize_archive_path(raw_name) {
            Ok(p) => p,
            Err(e) => return Err(e),
        };
        ensure_parent_directories(&mut entries, normalized.as_slice());
        if file_size > archive.len() - c2 {
            return Err(InitrdError::InvalidArchive);
        }
        let data_end = c2 + file_size;
        if data_end > usize::MAX - 3 {
            return Err(InitrdError::InvalidArchive);
        }
        let c3 = align4(data_end);
        if c3 > archive.len() {
            return Err(InitrdError::InvalidArchive);
        }
        if mode & FILE_TYPE_MASK == FILE_TYPE_DIRECTORY {
            push_directory(&mut entries, normalized.as_slice(), mode);
        } else {
            let ghost before = entries@;
            entries.push(
                InitrdEntry {
                    path: normalized,
                    kind: InitrdEntryKind::File,
                    mode,
                    data_start: c2,
                    data_len: file_size,
                },
            );
            proof {
                assert(entry_views(entries@) =~= entry_views(before).push(entries@.last()@));
            }
        }
        cursor = c3;
    }
}

} // verus!

verus! {

// ---------------------------------------------------------------------------
// Entry ranges stay inside the archive.

/// Every entry's data range lies inside the first `n` bytes of the archive.
pub open spec fn entries_within(es: Seq<EntryView>, n: int) -> bool {
    forall|i: int| 0 <= i < es.len() ==> 0 <= #[trigger] es[i].data_start && es[i].data_len >= 0
        && es[i].data_start + es[i].data_len <= n
}

proof fn lemma_find_dir_bounds(es: Seq<EntryView>, path: Seq<u8>, i: int)
    requires
        0 <= i,
    ensures
        i <= find_dir_from(es, path, i) <= es.len() || find_dir_from(es, path, i) == es.len(),
        find_dir_from(es, path, i) < es.len() ==> es[find_dir_from(es, path, i)].kind
            == InitrdEntryKind::Directory && es[find_dir_from(es, path, i)].path == path,
    decreases es.len() - i,
{
    if i < es.len() && !(es[i].kind == InitrdEntryKind::Directory && es[i].path == path) {
        lemma_find_dir_bounds(es, path, i + 1);
    }
}

proof fn lemma_push_directory_within(es: Seq<EntryView>, path: Seq<u8>, mode: u32, n: int)
    requires
        entries_within(es, n),
        n >= 0,
    ensures
        entries_within(spec_push_directory(es, path, mode), n),
{
    lemma_find_dir_bounds(es, path, 0);
    let r = spec_push_directory(es, path, mode);
    assert forall|i: int| 0 <= i < r.len() implies 0 <= #[trigger] r[i].data_start && r[i].data_len >= 0
        && r[i].data_start + r[i].data_len <= n by {
        if i < es.len() {
            assert(r[i].data_start == es[i].data_start && r[i].data_len == es[i].data_len);
        }
    }
}

proof fn lemma_parents_within(es: Seq<EntryView>, path: Seq<u8>, i: int, n: int)
    requires
        entries_within(es, n),
        n >= 0,
    ensures
        entries_within(parents_from(es, path, i), n),
    decreases path.len() - i,
{
    if 0 <= i < path.len() {
        if path[i] == 0x2f {
            lemma_push_directory_within(es, path.subrange(0, i), DEFAULT_DIRECTORY_MODE, n);
            lemma_parents_within(spec_push_directory(es, path.subrange(0, i), DEFAULT_DIRECTORY_MODE), path, i + 1, n);
        } else {
            lemma_parents_within(es, path, i + 1, n);
        }
    }
}

proof fn lemma_parse_within(arc: Seq<u8>, cursor: int, es: Seq<EntryView>)
    requires
        entries_within(es, arc.len() as int),
    ensures
        spec_parse_from(arc, cursor, es) matches Ok(r) ==> entries_within(r, arc.len() as int),
    decreases arc.len() - cursor,
{
    let n = arc.len() as int;
    if !(cursor < 0 || cursor > arc.len() || arc.len() - cursor < CPIO_HEADER_LEN) {
        let h = arc.subrange(cursor, cursor + CPIO_HEADER_LEN);
        if (h.subrange(0, 6) == newc_magic() || h.subrange(0, 6) == crc_magic()) && spec_hex(
            h.subrange(14, 22),
        ) is Some && spec_hex(h.subrange(54, 62)) is Some && spec_hex(h.subrange(94, 102)) is Some {
            let mode = spec_hex(h.subrange(14, 22))->Some_0;
            let file_size = spec_hex(h.subrange(54, 62))->Some_0 as int;
            let name_size = spec_hex(h.subrange(94, 102))->Some_0 as int;
            let c1 = cursor + CPIO_HEADER_LEN;
            if !(name_size == 0 || name_size > arc.len() - c1) && !(c1 + name_size + 3 > usize::MAX
                || spec_align4(c1 + name_size) > arc.len()) {
                let name = arc.subrange(c1, c1 + name_size);
                let c2 = spec_align4(c1 + name_size);
                if name.last() == 0 && valid_utf8(name.drop_last()) && name.drop_last() != trailer_name() {
                    if let Ok(norm) = spec_normalize_archive_path(name.drop_last()) {
                        let es1 = spec_ensure_parents(es, norm);
                        lemma_parents_within(es, norm, 8, n);
                        if !(file_size > arc.len() - c2) && !(c2 + file_size + 3 > usize::MAX
                            || spec_align4(c2 + file_size) > arc.len()) {
                            let es2 = if mode & FILE_TYPE_MASK == FILE_TYPE_DIRECTORY {
                                lemma_push_directory_within(es1, norm, mode, n);
                                spec_push_directory(es1, norm, mode)
                            } else {
                                let f = EntryView {
                                    path: norm,
                                    kind: InitrdEntryKind::File,
                                    mode,
                                    data_start: c2,
                                    data_len: file_size,
                                };
                                assert(entries_within(es1.push(f), n)) by {
                                    assert forall|i: int| 0 <= i < es1.push(f).len() implies 0
                                        <= #[trigger] es1.push(f)[i].data_start && es1.push(f)[i].data_len >= 0
                                        && es1.push(f)[i].data_start + es1.push(f)[i].data_len <= n by {
                                        if i < es1.len() {
                                            assert(es1.push(f)[i] == es1[i]);
                                        }
                                    }
                                }
                                es1.push(f)
                            };
                            lemma_parse_within(arc, spec_align4(c2 + file_size), es2);
                        }
                    }
                }
            }
        }
    }
}

} // verus!

verus! {

// ---------------------------------------------------------------------------
// Choosing the boot module.

/// The module is marked as the initrd: its string is `initrd` or its path ends in `initrd.cpio`.
pub open spec fn marks_initrd(m: Module) -> bool {
    (m.string matches Some(s) && s@ == initrd_label()) || (m.path matches Some(p) && has_suffix(
        p@,
        initrd_file_name(),
    ))
}

/// Index of the first marked module at or after `i`, or the number of modules.
pub open spec fn first_marked_from(ms: Seq<Module>, i: int) -> int
    decreases ms.len() - i,
{
    if i < 0 || i >= ms.len() {
        ms.len() as int
    } else if marks_initrd(ms[i]) {
        i
    } else {
        first_marked_from(ms, i + 1)
    }
}

/// The module that holds the initrd: the first marked one, else the first one.
pub open spec fn spec_select_module(ms: Seq<Module>) -> Option<int> {
    if ms.len() == 0 {
        None
    } else if first_marked_from(ms, 0) < ms.len() {
        Some(first_marked_from(ms, 0))
    } else {
        Some(0)
    }
}

proof fn lemma_first_marked_bounds(ms: Seq<Module>, i: int)
    requires
        0 <= i <= ms.len(),
    ensures
        i <= first_marked_from(ms, i) <= ms.len(),
    decreases ms.len() - i,
{
    if i < ms.len() && !marks_initrd(ms[i]) {
        lemma_first_marked_bounds(ms, i + 1);
    }
}

fn module_marks_initrd(m: &Module) -> (b: bool)
    ensures
        b == marks_initrd(*m),
{
    let label = [0x69u8, 0x6e, 0x69, 0x74, 0x72, 0x64];
    let file_name = [0x69u8, 0x6e, 0x69, 0x74, 0x72, 0x64, 0x2e, 0x63, 0x70, 0x69, 0x6f];
    proof {
        assert(label@ =~= initrd_label());
        assert(file_name@ =~= initrd_file_name());
    }
    if let Some(s) = &m.string {
        if bytes_eq(s.as_slice(), &label) {
            return true;
        }
    }
    if let Some(p) = &m.path {
        if ends_with(p.as_slice(), &file_name) {
            return true;
        }
    }
    false
}

/// Index of the module that holds the initrd.
fn select_initrd_module(modules: &ModuleList) -> (index: Option<usize>)
    ensures
        match index {
            Some(i) => spec_select_module(modules.modules@) == Some(i as int) && i < modules.modules@.len(),
            None => spec_select_module(modules.modules@) is None,
        },
{
    let ghost ms = modules.modules@;
    proof {
        lemma_first_marked_bounds(ms, 0);
    }
    if modules.modules.len() == 0 {
        return None;
    }
    let mut i: usize = 0;
    while i < modules.modules.len()
        invariant
            ms == modules.modules@,
            ms.len() > 0,
            i <= ms.len(),
            first_marked_from(ms, 0) == first_marked_from(ms, i as int),
        decreases ms.len() - i,
    {
        if module_marks_initrd(&modules.modules[i]) {
            return Some(i);
        }
        i = i + 1;
    }
    Some(0)
}

// ---------------------------------------------------------------------------
// The mounted initrd.

/// The mounted archive and what was read from its boot module.
pub struct InitrdState {
    pub boot_module_path: Option<Vec<u8>>,
    pub module_label: Option<Vec<u8>>,
    pub module_count: usize,
    pub archive: Vec<u8>,
    pub archive_bytes: usize,
    pub entries: Vec<InitrdEntry>,
}

impl InitrdState {
    /// Every entry's data lies inside the archive.
    pub open spec fn wf(&self) -> bool {
        entries_within(entry_views(self.entries@), self.archive@.len() as int)
    }
}

/// The initrd mount: empty until `initialize` succeeds.
pub struct Initrd {
    pub state: Option<InitrdState>,
}

impl Initrd {
    pub open spec fn wf(&self) -> bool {
        self.state matches Some(s) ==> s.wf()
    }

    /// An initrd that is not mounted yet.
    pub fn new() -> (r: Self)
        ensures
            r.state is None,
            r.wf(),
    {
        Initrd { state: None }
    }
}

/// Number of directory entries in `es`.
pub open spec fn count_dirs(es: Seq<EntryView>) -> nat
    decreases es.len(),
{
    if es.len() == 0 {
        0
    } else {
        count_dirs(es.drop_last()) + if es.last().kind == InitrdEntryKind::Directory { 1nat } else { 0nat }
    }
}

pub proof fn lemma_count_dirs_bound(es: Seq<EntryView>)
    ensures
        count_dirs(es) <= es.len(),
    decreases es.len(),
{
    if es.len() > 0 {
        lemma_count_dirs_bound(es.drop_last());
    }
}

/// The counts that describe a mounted state.
pub open spec fn spec_summary_of(s: InitrdState) -> InitrdSummary {
    let es = entry_views(s.entries@);
    InitrdSummary {
        module_count: s.module_count,
        archive_bytes: s.archive_bytes,
        directory_count: count_dirs(es) as usize,
        file_count: (es.len() - count_dirs(es)) as usize,
        entry_count: es.len() as usize,
    }
}

/// The summary that an unmounted initrd reports.
pub open spec fn empty_summary() -> InitrdSummary {
    InitrdSummary { module_count: 0, archive_bytes: 0, directory_count: 0, file_count: 0, entry_count: 0 }
}

/// Counts of the mounted initrd, or zeros when none is mounted.
pub fn summary(initrd: &Initrd) -> (s: InitrdSummary)
    ensures
        match initrd.state {
            Some(st) => s == spec_summary_of(st),
            None => s == empty_summary(),
        },
{
    let state = match &initrd.state {
        Some(st) => st,
        None => {
            return InitrdSummary {
                module_count: 0,
                archive_bytes: 0,
                directory_count: 0,
                file_count: 0,
                entry_count: 0,
            };
        },
    };
    let ghost es = entry_views(state.entries@);
    let mut directory_count: usize = 0;
    let mut file_count: usize = 0;
    let mut i: usize = 0;
    while i < state.entries.len()
        invariant
            es == entry_views(state.entries@),
            i <= es.len(),
            directory_count == count_dirs(es.take(i as int)),
            file_count == i - count_dirs(es.take(i as int)),
        decreases es.len() - i,
    {
        proof {
            assert(es.take(i + 1).drop_last() =~= es.take(i as int));
            lemma_count_dirs_bound(es.take(i as int));
        }
        match state.entries[i].kind {
            InitrdEntryKind::Directory => directory_count = directory_count + 1,
            InitrdEntryKind::File => file_count = file_count + 1,
        }
        i = i + 1;
    }
    proof {
        assert(es.take(es.len() as int) =~= es);
    }
    InitrdSummary {
        module_count: state.module_count,
        archive_bytes: state.archive_bytes,
        directory_count,
        file_count,
        entry_count: state.entries.len(),
    }
}

/// Mounts the initrd from the boot modules.
///
/// Fails when it is mounted already, when there is no module, or when the chosen
/// module's archive does not parse.
pub fn initialize(initrd: &mut Initrd, modules: Option<&ModuleList>) -> (result: Result<InitrdSummary, InitrdError>)
    requires
        old(initrd).wf(),
    ensures
        final(initrd).wf(),
        old(initrd).state is Some ==> result == Err::<InitrdSummary, InitrdError>(InitrdError::AlreadyInitialized)
            && *final(initrd) == *old(initrd),
        old(initrd).state is None ==> match modules {
            None => result == Err::<InitrdSummary, InitrdError>(InitrdError::ModuleMissing) && final(initrd).state is None,
            Some(ml) => match spec_select_module(ml.modules@) {
                None => result == Err::<InitrdSummary, InitrdError>(InitrdError::ModuleMissing) && final(initrd).state is None,
                Some(k) => match spec_parse_newc(ml.modules@[k].data@) {
                    Err(e) => result == Err::<InitrdSummary, InitrdError>(e) && final(initrd).state is None,
                    Ok(v) => final(initrd).state matches Some(st) && entry_views(st.entries@) == v
                        && st.archive@ == ml.modules@[k].data@
                        && st.archive_bytes == ml.modules@[k].data@.len()
                        && opt_bytes(st.boot_module_path) == opt_bytes(ml.modules@[k].path)
                        && opt_bytes(st.module_label) == opt_bytes(ml.modules@[k].string)
                        && st.module_count == ml.modules@.len()
                        && result == Ok::<InitrdSummary, InitrdError>(spec_summary_of(st)),
                },
            },
        },
{
    if initrd.state.is_some() {
        return Err(InitrdError::AlreadyInitialized);
    }
    let modules = match modules {
        Some(m) => m,
        None => return Err(InitrdError::ModuleMissing),
    };
    if modules.is_empty() {
        return Err(InitrdError::ModuleMissing);
    }
    let index = match select_initrd_module(modules) {
        Some(k) => k,
        None => return Err(InitrdError::ModuleMissing),
    };
    let module = &modules.modules[index];
    let archive = module.bytes();
    let entries = match parse_newc_archive(archive) {
        Ok(es) => es,
        Err(e) => return Err(e),
    };
    proof {
        lemma_parse_within(archive@, 0, seq![dir_view(initrd_root(), DEFAULT_DIRECTORY_MODE)]);
    }
    let state = InitrdState {
        boot_module_path: clone_bytes_option(&module.path),
        module_label: clone_bytes_option(&module.string),
        module_count: modules.len(),
        archive: vstd::slice::slice_to_vec(archive),
        archive_bytes: module.size(),
        entries,
    };
    initrd.state = Some(state);
    Ok(summary(initrd))
}

/// The bytes of an optional byte string.
pub open spec fn opt_bytes(v: Option<Vec<u8>>) -> Option<Seq<u8>> {
    match v {
        Some(b) => Some(b@),
        None => None,
    }
}

/// A copy of an optional byte string.
pub fn clone_bytes_option(v: &Option<Vec<u8>>) -> (r: Option<Vec<u8>>)
    ensures
        opt_bytes(r) == opt_bytes(*v),
{
    match v {
        Some(b) => Some(vstd::slice::slice_to_vec(b.as_slice())),
        None => None,
    }
}

} // verus!

verus! {

/// Whether the initrd is mounted.
pub fn is_initialized(initrd: &Initrd) -> (b: bool)
    ensures
        b == initrd.state is Some,
{
    initrd.state.is_some()
}

/// Path of the boot module the initrd came from.
pub fn boot_module_path(initrd: &Initrd) -> (p: Option<&[u8]>)
    ensures
        match initrd.state {
            Some(st) => match st.boot_module_path {
                Some(v) => p matches Some(x) && x@ == v@,
                None => p is None,
            },
            None => p is None,
        },
{
    match &initrd.state {
        Some(st) => match &st.boot_module_path {
            Some(v) => Some(v.as_slice()),
            None => None,
        },
        None => None,
    }
}

/// Command-line string of the boot module the initrd came from.
pub fn module_label(initrd: &Initrd) -> (l: Option<&[u8]>)
    ensures
        match initrd.state {
            Some(st) => match st.module_label {
                Some(v) => l matches Some(x) && x@ == v@,
                None => l is None,
            },
            None => l is None,
        },
{
    match &initrd.state {
        Some(st) => match &st.module_label {
            Some(v) => Some(v.as_slice()),
            None => None,
        },
        None => None,
    }
}

/// The raw archive of the mounted initrd.
pub fn archive_bytes(initrd: &Initrd) -> (a: Option<&[u8]>)
    ensures
        match initrd.state {
            Some(st) => a matches Some(x) && x@ == st.archive@,
            None => a is None,
        },
{
    match &initrd.state {
        Some(st) => Some(st.archive.as_slice()),
        None => None,
    }
}

/// Index of the first entry at or after `i` whose path is `path`, or the length.
pub open spec fn find_path_from(es: Seq<EntryView>, path: Seq<u8>, i: int) -> int
    decreases es.len() - i,
{
    if i < 0 || i >= es.len() {
        es.len() as int
    } else if es[i].path == path {
        i
    } else {
        find_path_from(es, path, i + 1)
    }
}

proof fn lemma_find_path_bounds(es: Seq<EntryView>, path: Seq<u8>, i: int)
    requires
        0 <= i <= es.len(),
    ensures
        i <= find_path_from(es, path, i) <= es.len(),
        find_path_from(es, path, i) < es.len() ==> es[find_path_from(es, path, i)].path == path,
    decreases es.len() - i,
{
    if i < es.len() && es[i].path != path {
        lemma_find_path_bounds(es, path, i + 1);
    }
}

/// Index of the entry whose path is `path`.
fn find_entry(state: &InitrdState, path: &[u8]) -> (k: Option<usize>)
    ensures
        match k {
            Some(i) => i == find_path_from(entry_views(state.entries@), path@, 0) && i < state.entries@.len(),
            None => find_path_from(entry_views(state.entries@), path@, 0) == state.entries@.len(),
        },
{
    let ghost es = entry_views(state.entries@);
    proof {
        lemma_find_path_bounds(es, path@, 0);
    }
    let mut i: usize = 0;
    while i < state.entries.len()
        invariant
            es == entry_views(state.entries@),
            i <= es.len(),
            find_path_from(es, path@, 0) == find_path_from(es, path@, i as int),
        decreases es.len() - i,
    {
        if bytes_eq(state.entries[i].path.as_slice(), path) {
            return Some(i);
        }
        i = i + 1;
    }
    None
}

/// The listing line an entry contributes to the directory whose path is `dir`:
/// its name followed by a newline when it is a direct child, nothing otherwise.
pub open spec fn listing_line(e: EntryView, dir: Seq<u8>) -> Seq<u8> {
    let prefix = dir.push(0x2f);
    if e.path != dir && has_prefix(e.path, prefix) {
        let rest = e.path.subrange(prefix.len() as int, e.path.len() as int);
        if rest.len() > 0 && !holds_byte(rest, 0x2f) {
            rest.push(0x0a)
        } else {
            Seq::empty()
        }
    } else {
        Seq::empty()
    }
}

/// The listing of directory `dir` over the entries `es`, in entry order.
pub open spec fn listing(es: Seq<EntryView>, dir: Seq<u8>) -> Seq<u8>
    decreases es.len(),
{
    if es.len() == 0 {
        Seq::empty()
    } else {
        listing(es.drop_last(), dir) + listing_line(es.last(), dir)
    }
}

/// The bytes of the listing of directory `dir`.
fn render_directory(state: &InitrdState, dir: &[u8]) -> (text: Vec<u8>)
    ensures
        text@ == listing(entry_views(state.entries@), dir@),
{
    let ghost es = entry_views(state.entries@);
    let mut prefix = vstd::slice::slice_to_vec(dir);
    prefix.push(0x2f);
    let mut text: Vec<u8> = Vec::new();
    let mut i: usize = 0;
    while i < state.entries.len()
        invariant
            es == entry_views(state.entries@),
            prefix@ == dir@.push(0x2f),
            i <= es.len(),
            text@ == listing(es.take(i as int), dir@),
        decreases es.len() - i,
    {
        proof {
            assert(es.take(i + 1).drop_last() =~= es.take(i as int));
        }
        let path = state.entries[i].path.as_slice();
        let ghost line = listing_line(es[i as int], dir@);
        if !bytes_eq(path, dir) && starts_with(path, prefix.as_slice()) {
            let rest = &path[prefix.len()..path.len()];
            if rest.len() > 0 && !contains_byte(rest, 0x2f) {
                push_all(&mut text, rest);
                text.push(0x0a);
            }
        }
        proof {
            assert(text@ =~= listing(es.take(i as int), dir@) + line);
        }
        i = i + 1;
    }
    proof {
        assert(es.take(es.len() as int) =~= es);
    }
    text
}

/// What `read` returns for a path of the mounted initrd, as bytes.
pub open spec fn spec_read_bytes(st: InitrdState, path: Seq<u8>) -> Option<Seq<u8>> {
    let es = entry_views(st.entries@);
    match spec_normalize_vfs_path(path) {
        Err(_) => None,
        Ok(norm) => {
            let k = find_path_from(es, norm, 0);
            if k >= es.len() {
                None
            } else if es[k].kind == InitrdEntryKind::Directory {
                Some(listing(es, norm))
            } else {
                Some(st.archive@.subrange(es[k].data_start, es[k].data_start + es[k].data_len))
            }
        },
    }
}

/// The bytes of a node: a file's contents, or a directory's listing of direct children,
/// one name per line.
pub fn read_node_bytes(initrd: &Initrd, path: &[u8]) -> (bytes: Option<Vec<u8>>)
    requires
        initrd.wf(),
    ensures
        match initrd.state {
            None => bytes is None,
            Some(st) => match spec_read_bytes(st, path@) {
                None => bytes is None,
                Some(b) => bytes matches Some(v) && v@ == b,
            },
        },
{
    let state = match &initrd.state {
        Some(st) => st,
        None => return None,
    };
    let normalized = match normalize_vfs_path(path) {
        Ok(p) => p,
        Err(_) => return None,
    };
    let k = match find_entry(state, normalized.as_slice()) {
        Some(k) => k,
        None => return None,
    };
    let entry = &state.entries[k];
    match entry.kind {
        InitrdEntryKind::Directory => Some(render_directory(state, normalized.as_slice())),
        InitrdEntryKind::File => {
            proof {
                assert(entry_views(state.entries@)[k as int] == entry@);
                assert(entry_views(state.entries@)[k as int].data_start + entry_views(state.entries@)[k as int].data_len
                    <= state.archive@.len());
            }
            let archive = state.archive.as_slice();
            assert(entry.data_start + entry.data_len <= archive.len());
            Some(vstd::slice::slice_to_vec(&archive[entry.data_start..entry.data_start + entry.data_len]))
        },
    }
}

/// The text of a node: a file's bytes decoded as UTF-8 (invalid sequences replaced),
/// or a directory's listing of direct children, one name per line.
pub fn read(initrd: &Initrd, path: &str) -> (text: Option<String>)
    requires
        initrd.wf(),
    ensures
        match initrd.state {
            None => text is None,
            Some(st) => match spec_read_bytes(st, path.spec_bytes()) {
                None => text is None,
                Some(b) => text matches Some(t) && t@ == lossy_utf8(b),
            },
        },
{
    match read_node_bytes(initrd, path.as_bytes()) {
        Some(b) => Some(string_from_bytes_lossy(b.as_slice())),
        None => None,
    }
}

/// What `node_info` reports for a path of the mounted initrd.
pub open spec fn spec_node_info(st: InitrdState, path: Seq<u8>) -> Option<InitrdNodeInfo> {
    let es = entry_views(st.entries@);
    match spec_normalize_vfs_path(path) {
        Err(_) => None,
        Ok(norm) => {
            let k = find_path_from(es, norm, 0);
            if k >= es.len() {
                None
            } else {
                Some(
                    InitrdNodeInfo {
                        kind: if es[k].kind == InitrdEntryKind::Directory {
                            InitrdNodeKind::Directory
                        } else {
                            InitrdNodeKind::File
                        },
                        size: es[k].data_len as usize,
                        executable: es[k].mode & MODE_EXECUTABLE_MASK != 0,
                    },
                )
            }
        },
    }
}

/// Kind, size and executable bit of a node.
pub fn node_info(initrd: &Initrd, path: &str) -> (info: Option<InitrdNodeInfo>)
    ensures
        match initrd.state {
            None => info is None,
            Some(st) => info == spec_node_info(st, path.spec_bytes()),
        },
{
    node_info_bytes(initrd, path.as_bytes())
}

/// Kind, size and executable bit of the node at the path `path`, given as bytes.
pub fn node_info_bytes(initrd: &Initrd, path: &[u8]) -> (info: Option<InitrdNodeInfo>)
    ensures
        match initrd.state {
            None => info is None,
            Some(st) => info == spec_node_info(st, path@),
        },
{
    let state = match &initrd.state {
        Some(st) => st,
        None => return None,
    };
    let normalized = match normalize_vfs_path(path) {
        Ok(p) => p,
        Err(_) => return None,
    };
    let k = match find_entry(state, normalized.as_slice()) {
        Some(k) => k,
        None => return None,
    };
    let entry = &state.entries[k];
    proof {
        assert(entry_views(state.entries@)[k as int] == entry@);
    }
    let kind = match entry.kind {
        InitrdEntryKind::Directory => InitrdNodeKind::Directory,
        InitrdEntryKind::File => InitrdNodeKind::File,
    };
    Some(InitrdNodeInfo { kind, size: entry.data_len, executable: entry.mode & MODE_EXECUTABLE_MASK != 0 })
}

/// What `read_bytes` returns for a path of the mounted initrd.
pub open spec fn spec_file_bytes(st: InitrdState, path: Seq<u8>) -> Option<Seq<u8>> {
    let es = entry_views(st.entries@);
    match spec_normalize_vfs_path(path) {
        Err(_) => None,
        Ok(norm) => {
            let k = find_path_from(es, norm, 0);
            if k >= es.len() || es[k].kind != InitrdEntryKind::File {
                None
            } else {
                Some(st.archive@.subrange(es[k].data_start, es[k].data_start + es[k].data_len))
            }
        },
    }
}

/// The bytes of a file; `None` for a directory or a missing node.
pub fn read_bytes<'a>(initrd: &'a Initrd, path: &str) -> (data: Option<&'a [u8]>)
    requires
        initrd.wf(),
    ensures
        match initrd.state {
            None => data is None,
            Some(st) => match spec_file_bytes(st, path.spec_bytes()) {
                None => data is None,
                Some(b) => data matches Some(d) && d@ == b,
            },
        },
{
    file_bytes(initrd, path.as_bytes())
}

/// The bytes of the file at the path `path`, given as bytes.
pub fn file_bytes<'a>(initrd: &'a Initrd, path: &[u8]) -> (data: Option<&'a [u8]>)
    requires
        initrd.wf(),
    ensures
        match initrd.state {
            None => data is None,
            Some(st) => match spec_file_bytes(st, path@) {
                None => data is None,
                Some(b) => data matches Some(d) && d@ == b,
            },
        },
{
    let state = match &initrd.state {
        Some(st) => st,
        None => return None,
    };
    let normalized = match normalize_vfs_path(path) {
        Ok(p) => p,
        Err(_) => return None,
    };
    let k = match find_entry(state, normalized.as_slice()) {
        Some(k) => k,
        None => return None,
    };
    let entry = &state.entries[k];
    proof {
        assert(entry_views(state.entries@)[k as int] == entry@);
    }
    proof {
        assert(entry_views(state.entries@)[k as int].data_start + entry_views(state.entries@)[k as int].data_len
            <= state.archive@.len());
    }
    if entry.kind != InitrdEntryKind::File {
        return None;
    }
    let archive = state.archive.as_slice();
    assert(entry.data_start + entry.data_len <= archive.len());
    Some(&archive[entry.data_start..entry.data_start + entry.data_len])
}

} // verus!
