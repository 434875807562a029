use vstd::prelude::*;

use crate::le::{le_u16, le_u32, le_u64};
use crate::text::{all_ascii, ascii_chars, lossy_utf8, string_from_bytes_lossy};

verus! {

pub const ELF64_EHDR_SIZE: usize = 64;
pub const ELF64_PHDR_SIZE: usize = 56;
pub const ELF_CLASS_64: u8 = 2;
pub const ELF_DATA_LITTLE: u8 = 1;
pub const ELF_VERSION_CURRENT: u8 = 1;
pub const MAX_PROGRAM_HEADERS: usize = 256;
pub const PAGE_SIZE: u64 = 4096;
pub const PF_EXECUTE: u32 = 0x1;
pub const PF_WRITE: u32 = 0x2;
pub const PF_READ: u32 = 0x4;

/// The broad kind of an executable image.
#[derive(Copy, Clone, PartialEq, Eq, Structural, Debug)]
pub enum ImageKind {
    Elf64,
    ShebangScript,
    Text,
    Unknown,
}

/// The type field of an ELF program header.
#[derive(Copy, Clone, PartialEq, Eq, Structural, Debug)]
pub enum ProgramHeaderType {
    Null,
    Load,
    Dynamic,
    Interpreter,
    Note,
    ProgramHeaderTable,
    ThreadLocalStorage,
    GnuStack,
    GnuRelro,
    Unknown(u32),
}

/// The program header type a raw `p_type` value names.
pub open spec fn spec_header_type(raw: u32) -> ProgramHeaderType {
    if raw == 0 {
        ProgramHeaderType::Null
    } else if raw == 1 {
        ProgramHeaderType::Load
    } else if raw == 2 {
        ProgramHeaderType::Dynamic
    } else if raw == 3 {
        ProgramHeaderType::Interpreter
    } else if raw == 4 {
        ProgramHeaderType::Note
    } else if raw == 6 {
        ProgramHeaderType::ProgramHeaderTable
    } else if raw == 7 {
        ProgramHeaderType::ThreadLocalStorage
    } else if raw == 0x6474_e551 {
        ProgramHeaderType::GnuStack
    } else if raw == 0x6474_e552 {
        ProgramHeaderType::GnuRelro
    } else {
        ProgramHeaderType::Unknown(raw)
    }
}

impl ProgramHeaderType {
    fn from_raw(raw: u32) -> (t: Self)
        ensures
            t == spec_header_type(raw),
    {
        match raw {
            0 => Self::Null,
            1 => Self::Load,
            2 => Self::Dynamic,
            3 => Self::Interpreter,
            4 => Self::Note,
            6 => Self::ProgramHeaderTable,
            7 => Self::ThreadLocalStorage,
            0x6474_e551 => Self::GnuStack,
            0x6474_e552 => Self::GnuRelro,
            other => Self::Unknown(other),
        }
    }
}

/// One ELF64 program header.
#[derive(Copy, Clone, PartialEq, Eq, Structural, Debug)]
pub struct ProgramHeader {
    pub segment_type: ProgramHeaderType,
    pub flags: u32,
    pub offset: u64,
    pub virtual_address: u64,
    pub file_size: u64,
    pub memory_size: u64,
    pub alignment: u64,
}

impl ProgramHeader {
    pub fn is_loadable(self) -> (b: bool)
        ensures
            b == (self.segment_type == ProgramHeaderType::Load),
    {
        self.segment_type == ProgramHeaderType::Load
    }

    pub fn can_read(self) -> (b: bool)
        ensures
            b == (self.flags & PF_READ != 0),
    {
        self.flags & PF_READ != 0
    }

    pub fn can_write(self) -> (b: bool)
        ensures
            b == (self.flags & PF_WRITE != 0),
    {
        self.flags & PF_WRITE != 0
    }

    pub fn can_execute(self) -> (b: bool)
        ensures
            b == (self.flags & PF_EXECUTE != 0),
    {
        self.flags & PF_EXECUTE != 0
    }
}

/// Access rights of a loadable segment.
#[derive(Copy, Clone, PartialEq, Eq, Structural, Debug)]
pub struct SegmentPermissions {
    pub read: bool,
    pub write: bool,
    pub execute: bool,
}

/// The permissions the flags of `h` grant.
pub open spec fn spec_permissions(h: ProgramHeader) -> SegmentPermissions {
    SegmentPermissions {
        read: h.flags & PF_READ != 0,
        write: h.flags & PF_WRITE != 0,
        execute: h.flags & PF_EXECUTE != 0,
    }
}

impl SegmentPermissions {
    fn from_header(header: ProgramHeader) -> (p: Self)
        ensures
            p == spec_permissions(header),
    {
        Self { read: header.can_read(), write: header.can_write(), execute: header.can_execute() }
    }
}

/// Where and how one loadable segment is mapped.
#[derive(Copy, Clone, PartialEq, Eq, Structural, Debug)]
pub struct LoadSegmentPlan {
    pub index: usize,
    pub file_offset: u64,
    pub virtual_start: u64,
    pub virtual_end: u64,
    pub map_start: u64,
    pub map_end: u64,
    pub page_offset: u64,
    pub file_bytes: u64,
    pub memory_bytes: u64,
    pub zero_fill_bytes: u64,
    pub alignment: u64,
    pub permissions: SegmentPermissions,
}

/// A parsed ELF64 image.
pub struct ElfImage {
    pub image_type: u16,
    pub machine: u16,
    pub entry_point: u64,
    pub interpreter: Option<String>,
    pub program_headers: Vec<ProgramHeader>,
}

/// A script that names its interpreter on a `#!` line.
pub struct ShebangImage {
    pub interpreter: String,
    pub argument: Option<String>,
}

/// The result of inspecting an executable image.
pub enum ExecutableImage {
    Elf64(ElfImage),
    Shebang(ShebangImage),
    Text,
    Unknown,
}

/// Why an image could not be parsed.
#[derive(Copy, Clone, PartialEq, Eq, Structural, Debug)]
pub enum ParseError {
    Truncated,
    UnsupportedClass,
    UnsupportedEndianness,
    UnsupportedVersion,
    InvalidHeader,
    TooManyProgramHeaders,
    InvalidProgramHeaderTable,
    ProgramHeaderOutOfBounds,
    SegmentOutOfBounds,
    InvalidSegmentSize,
    SegmentAddressOverflow,
}

impl ParseError {
    pub fn as_str(self) -> (text: &'static str)
        ensures
            text@ == spec_parse_error_text(self),
    {
        match self {
            Self::Truncated => "executable image is truncated",
            Self::UnsupportedClass => "elf class is unsupported",
            Self::UnsupportedEndianness => "elf endianness is unsupported",
            Self::UnsupportedVersion => "elf version is unsupported",
            Self::InvalidHeader => "elf header is invalid",
            Self::TooManyProgramHeaders => "elf has too many program headers",
            Self::InvalidProgramHeaderTable => "elf program header table is invalid",
            Self::ProgramHeaderOutOfBounds => "elf program header extends beyond image bounds",
            Self::SegmentOutOfBounds => "elf segment extends beyond image bounds",
            Self::InvalidSegmentSize => "elf segment file size exceeds memory size",
            Self::SegmentAddressOverflow => "elf segment address arithmetic overflow",
        }
    }
}

/// The message each parse error is reported with.
pub open spec fn spec_parse_error_text(e: ParseError) -> Seq<char> {
    match e {
        ParseError::Truncated => "executable image is truncated"@,
        ParseError::UnsupportedClass => "elf class is unsupported"@,
        ParseError::UnsupportedEndianness => "elf endianness is unsupported"@,
        ParseError::UnsupportedVersion => "elf version is unsupported"@,
        ParseError::InvalidHeader => "elf header is invalid"@,
        ParseError::TooManyProgramHeaders => "elf has too many program headers"@,
        ParseError::InvalidProgramHeaderTable => "elf program header table is invalid"@,
        ParseError::ProgramHeaderOutOfBounds => "elf program header extends beyond image bounds"@,
        ParseError::SegmentOutOfBounds => "elf segment extends beyond image bounds"@,
        ParseError::InvalidSegmentSize => "elf segment file size exceeds memory size"@,
        ParseError::SegmentAddressOverflow => "elf segment address arithmetic overflow"@,
    }
}

// ---------------------------------------------------------------------------
// Specification of ELF64 parsing.

/// The program header stored at byte offset `o` of the image.
pub open spec fn spec_program_header(img: Seq<u8>, o: int) -> ProgramHeader {
    ProgramHeader {
        segment_type: spec_header_type(le_u32(img, o) as u32),
        flags: le_u32(img, o + 4) as u32,
        offset: le_u64(img, o + 8) as u64,
        virtual_address: le_u64(img, o + 16) as u64,
        file_size: le_u64(img, o + 32) as u64,
        memory_size: le_u64(img, o + 40) as u64,
        alignment: le_u64(img, o + 48) as u64,
    }
}

/// The error a program header raises against an image of `img_len` bytes, if any.
pub open spec fn spec_segment_error(img_len: int, h: ProgramHeader) -> Option<ParseError> {
    if h.file_size > h.memory_size {
        Some(ParseError::InvalidSegmentSize)
    } else if h.file_size > 0 && h.offset + h.file_size > img_len {
        Some(ParseError::SegmentOutOfBounds)
    } else if h.memory_size > 0 && h.virtual_address + h.memory_size > u64::MAX {
        Some(ParseError::SegmentAddressOverflow)
    } else {
        None
    }
}

/// The header at table index `i`.
pub open spec fn spec_header_at(img: Seq<u8>, phoff: int, entsize: int, i: int) -> ProgramHeader {
    spec_program_header(img, phoff + i * entsize)
}

/// The first error raised by the first `n` program headers, if any.
pub open spec fn spec_headers_error(img: Seq<u8>, phoff: int, entsize: int, n: nat) -> Option<ParseError>
    decreases n,
{
    if n == 0 {
        None
    } else {
        match spec_headers_error(img, phoff, entsize, (n - 1) as nat) {
            Some(e) => Some(e),
            None => spec_segment_error(img.len() as int, spec_header_at(img, phoff, entsize, n - 1)),
        }
    }
}

/// Reads the program header stored at `entry_offset`.
fn read_program_header(image: &[u8], entry_offset: usize) -> (header: ProgramHeader)
    requires
        entry_offset + ELF64_PHDR_SIZE <= image.len(),
    ensures
        header == spec_program_header(image@, entry_offset as int),
{
    let ghost img = image@;
    proof {
        lemma_le_bounds(img, entry_offset as int);
        lemma_le_bounds(img, entry_offset + 8);
        lemma_le_bounds(img, entry_offset + 16);
        lemma_le_bounds(img, entry_offset + 32);
        lemma_le_bounds(img, entry_offset + 40);
        lemma_le_bounds(img, entry_offset + 48);
    }
    let raw_type = read_u32_le(image, entry_offset).unwrap();
    let flags = read_u32_le(image, entry_offset + 4).unwrap();
    let offset = read_u64_le(image, entry_offset + 8).unwrap();
    let virtual_address = read_u64_le(image, entry_offset + 16).unwrap();
    let file_size = read_u64_le(image, entry_offset + 32).unwrap();
    let memory_size = read_u64_le(image, entry_offset + 40).unwrap();
    let alignment = read_u64_le(image, entry_offset + 48).unwrap();
    ProgramHeader {
        segment_type: ProgramHeaderType::from_raw(raw_type),
        flags,
        offset,
        virtual_address,
        file_size,
        memory_size,
        alignment,
    }
}

/// The error a program header raises against an image of `image_len` bytes, if any.
fn segment_error(header: ProgramHeader, image_len: u64) -> (error: Option<ParseError>)
    ensures
        error == spec_segment_error(image_len as int, header),
{
    if header.file_size > header.memory_size {
        return Some(ParseError::InvalidSegmentSize);
    }
    if header.file_size > 0 {
        let segment_end = match header.offset.checked_add(header.file_size) {
            Some(v) => v,
            None => return Some(ParseError::SegmentOutOfBounds),
        };
        if segment_end > image_len {
            return Some(ParseError::SegmentOutOfBounds);
        }
    }
    if header.memory_size > 0 && header.virtual_address.checked_add(header.memory_size).is_none() {
        return Some(ParseError::SegmentAddressOverflow);
    }
    None
}

/// The interpreter path `header` names, when it is an interpreter segment with a non-empty path.
fn interpreter_candidate(image: &[u8], header: ProgramHeader) -> (interpreter: Option<String>)
    requires
        spec_segment_error(image@.len() as int, header) is None,
    ensures
        opt_text(interpreter) == opt_lossy(spec_interpreter_candidate(image@, header)),
        opt_ascii_kept(spec_interpreter_candidate(image@, header), opt_text(interpreter)),
{
    let _image_len = image.len();
    if header.segment_type == ProgramHeaderType::Interpreter && header.file_size > 0 {
        let segment_start = header.offset as usize;
        let segment_end = (header.offset + header.file_size) as usize;
        let segment = &image[segment_start..segment_end];
        let length = nul_position(segment);
        if length > 0 {
            let path = &segment[0..length];
            proof {
                assert(path@ =~= segment@.subrange(0, nul_from(segment@, 0)));
            }
            return Some(string_from_bytes_lossy(path));
        }
    }
    None
}

/// Index of the first zero byte of `s` at or after `i`, or its length.
pub open spec fn nul_from(s: Seq<u8>, i: int) -> int
    decreases s.len() - i,
{
    if i < 0 || i >= s.len() {
        s.len() as int
    } else if s[i] == 0 {
        i
    } else {
        nul_from(s, i + 1)
    }
}

/// The interpreter path a header contributes: its segment up to the first zero byte, when non-empty.
pub open spec fn spec_interpreter_candidate(img: Seq<u8>, h: ProgramHeader) -> Option<Seq<u8>> {
    if h.segment_type == ProgramHeaderType::Interpreter && h.file_size > 0 {
        let seg = img.subrange(h.offset as int, h.offset + h.file_size);
        let t = seg.subrange(0, nul_from(seg, 0));
        if t.len() > 0 {
            Some(t)
        } else {
            None
        }
    } else {
        None
    }
}

/// The interpreter named by the first of the first `n` headers that names one.
pub open spec fn spec_interpreter(img: Seq<u8>, phoff: int, entsize: int, n: nat) -> Option<Seq<u8>>
    decreases n,
{
    if n == 0 {
        None
    } else {
        match spec_interpreter(img, phoff, entsize, (n - 1) as nat) {
            Some(t) => Some(t),
            None => spec_interpreter_candidate(img, spec_header_at(img, phoff, entsize, n - 1)),
        }
    }
}

/// What parsing an ELF64 image yields, in mathematical terms.
pub struct ElfLayout {
    pub image_type: u16,
    pub machine: u16,
    pub entry_point: u64,
    pub interpreter: Option<Seq<u8>>,
    pub program_headers: Seq<ProgramHeader>,
}

/// The result of parsing `img` as an ELF64 executable.
pub open spec fn spec_parse_elf64(img: Seq<u8>) -> Result<ElfLayout, ParseError> {
    if img.len() < ELF64_EHDR_SIZE {
        Err(ParseError::Truncated)
    } else if img[4] != ELF_CLASS_64 {
        Err(ParseError::UnsupportedClass)
    } else if img[5] != ELF_DATA_LITTLE {
        Err(ParseError::UnsupportedEndianness)
    } else if img[6] != ELF_VERSION_CURRENT {
        Err(ParseError::UnsupportedVersion)
    } else if le_u16(img, 52) != ELF64_EHDR_SIZE {
        Err(ParseError::InvalidHeader)
    } else if le_u32(img, 20) != ELF_VERSION_CURRENT {
        Err(ParseError::UnsupportedVersion)
    } else {
        let phoff = le_u64(img, 32);
        let entsize = le_u16(img, 54);
        let count = le_u16(img, 56);
        if count > MAX_PROGRAM_HEADERS {
            Err(ParseError::TooManyProgramHeaders)
        } else if count > 0 && entsize < ELF64_PHDR_SIZE {
            Err(ParseError::InvalidProgramHeaderTable)
        } else if count > 0 && phoff + entsize * count > u64::MAX {
            Err(ParseError::InvalidProgramHeaderTable)
        } else if count > 0 && phoff + entsize * count > img.len() {
            Err(ParseError::ProgramHeaderOutOfBounds)
        } else {
            match spec_headers_error(img, phoff, entsize, count as nat) {
                Some(e) => Err(e),
                None => Ok(
                    ElfLayout {
                        image_type: le_u16(img, 16) as u16,
                        machine: le_u16(img, 18) as u16,
                        entry_point: le_u64(img, 24) as u64,
                        interpreter: spec_interpreter(img, phoff, entsize, count as nat),
                        program_headers: Seq::new(
                            count as nat,
                            |i: int| spec_header_at(img, phoff, entsize, i),
                        ),
                    },
                ),
            }
        }
    }
}

/// With no error among the first `n` headers, each of them passes the segment checks.
proof fn lemma_no_header_error(img: Seq<u8>, phoff: int, entsize: int, n: nat)
    requires
        spec_headers_error(img, phoff, entsize, n) is None,
    ensures
        forall|i: int| 0 <= i < n ==> spec_segment_error(img.len() as int, #[trigger] spec_header_at(img, phoff, entsize, i)) is None,
    decreases n,
{
    if n > 0 {
        lemma_no_header_error(img, phoff, entsize, (n - 1) as nat);
    }
}

/// Every program header of a parsed image is consistent: its file size does not exceed its
/// memory size, the file bytes it names lie within the image, and its virtual range does not
/// wrap; the header table itself lies within the image and holds at most the allowed count.
pub proof fn lemma_parsed_headers_within(img: Seq<u8>)
    requires
        spec_parse_elf64(img) is Ok,
    ensures
        ({
            let l = spec_parse_elf64(img)->Ok_0;
            &&& img.len() >= ELF64_EHDR_SIZE
            &&& l.program_headers.len() <= MAX_PROGRAM_HEADERS
            &&& l.program_headers.len() > 0 ==> le_u64(img, 32) + le_u16(img, 54) * l.program_headers.len() <= img.len()
            &&& forall|i: int|
                0 <= i < l.program_headers.len() ==> {
                    let h = #[trigger] l.program_headers[i];
                    &&& h.file_size <= h.memory_size
                    &&& h.file_size > 0 ==> h.offset + h.file_size <= img.len()
                    &&& h.memory_size > 0 ==> h.virtual_address + h.memory_size <= u64::MAX
                }
        }),
{
    let phoff = le_u64(img, 32);
    let entsize = le_u16(img, 54);
    let count = le_u16(img, 56);
    lemma_no_header_error(img, phoff, entsize, count as nat);
    let l = spec_parse_elf64(img)->Ok_0;
    assert forall|i: int| 0 <= i < l.program_headers.len() implies {
        let h = #[trigger] l.program_headers[i];
        &&& h.file_size <= h.memory_size
        &&& h.file_size > 0 ==> h.offset + h.file_size <= img.len()
        &&& h.memory_size > 0 ==> h.virtual_address + h.memory_size <= u64::MAX
    } by {
        assert(l.program_headers[i] == spec_header_at(img, phoff, entsize, i));
        assert(spec_segment_error(img.len() as int, spec_header_at(img, phoff, entsize, i)) is None);
    }
}

/// The text of an optional owned string.
pub open spec fn opt_text(s: Option<String>) -> Option<Seq<char>> {
    match s {
        Some(t) => Some(t@),
        None => None,
    }
}

/// The text lossy decoding gives an optional byte string.
pub open spec fn opt_lossy(b: Option<Seq<u8>>) -> Option<Seq<char>> {
    match b {
        Some(t) => Some(lossy_utf8(t)),
        None => None,
    }
}

/// ASCII bytes decode to the characters of the same codes.
pub open spec fn ascii_kept(b: Seq<u8>, t: Seq<char>) -> bool {
    all_ascii(b) ==> t == ascii_chars(b)
}

/// `ascii_kept` for an optional text.
pub open spec fn opt_ascii_kept(b: Option<Seq<u8>>, t: Option<Seq<char>>) -> bool {
    match (b, t) {
        (Some(x), Some(y)) => ascii_kept(x, y),
        _ => true,
    }
}

impl ElfImage {
    /// This image holds exactly what `layout` describes.
    pub open spec fn matches(&self, layout: ElfLayout) -> bool {
        &&& self.image_type == layout.image_type
        &&& self.machine == layout.machine
        &&& self.entry_point == layout.entry_point
        &&& opt_text(self.interpreter) == opt_lossy(layout.interpreter)
        &&& opt_ascii_kept(layout.interpreter, opt_text(self.interpreter))
        &&& self.program_headers@ == layout.program_headers
    }
}

proof fn lemma_entry_in_table(i: int, entsize: int, count: int)
    requires
        0 <= i < count,
        0 <= entsize,
    ensures
        i * entsize + entsize <= entsize * count,
        0 <= i * entsize,
{
    assert(i * entsize + entsize <= entsize * count) by (nonlinear_arith)
        requires
            0 <= i < count,
            0 <= entsize,
    ;
    assert(0 <= i * entsize) by (nonlinear_arith)
        requires
            0 <= i,
            0 <= entsize,
    ;
}

proof fn lemma_le_bounds(s: Seq<u8>, o: int)
    requires
        0 <= o,
        o + 8 <= s.len(),
    ensures
        0 <= le_u16(s, o) < 0x1_0000,
        0 <= le_u32(s, o) < 0x1_0000_0000,
        0 <= le_u64(s, o) <= u64::MAX,
{
}

/// Once a prefix of the table raises an error, every longer prefix raises the same one.
proof fn lemma_headers_error_persists(img: Seq<u8>, phoff: int, entsize: int, k: nat, n: nat)
    requires
        k <= n,
        spec_headers_error(img, phoff, entsize, k) is Some,
    ensures
        spec_headers_error(img, phoff, entsize, n) == spec_headers_error(img, phoff, entsize, k),
    decreases n - k,
{
    if k < n {
        lemma_headers_error_persists(img, phoff, entsize, k, (n - 1) as nat);
    }
}

/// Parses an ELF64 little-endian executable image.
fn parse_elf64(image: &[u8]) -> (result: Result<ElfImage, ParseError>)
    ensures
        match spec_parse_elf64(image@) {
            Ok(layout) => result matches Ok(elf) && elf.matches(layout),
            Err(e) => result matches Err(err) && err == e,
        },
{
    let ghost img = image@;
    if image.len() < ELF64_EHDR_SIZE {
        return Err(ParseError::Truncated);
    }
    if image[4] != ELF_CLASS_64 {
        return Err(ParseError::UnsupportedClass);
    }
    if image[5] != ELF_DATA_LITTLE {
        return Err(ParseError::UnsupportedEndianness);
    }
    if image[6] != ELF_VERSION_CURRENT {
        return Err(ParseError::UnsupportedVersion);
    }
    proof {
        lemma_le_bounds(img, 16);
        lemma_le_bounds(img, 20);
        lemma_le_bounds(img, 24);
        lemma_le_bounds(img, 32);
        lemma_le_bounds(img, 48);
        lemma_le_bounds(img, 52);
        lemma_le_bounds(img, 54);
        lemma_le_bounds(img, 56);
    }
    let header_size = match read_u16_le(image, 52) {
        Ok(v) => v,
        Err(e) => return Err(e),
    };
    if header_size as usize != ELF64_EHDR_SIZE {
        return Err(ParseError::InvalidHeader);
    }
    let image_type = match read_u16_le(image, 16) {
        Ok(v) => v,
        Err(e) => return Err(e),
    };
    let machine = match read_u16_le(image, 18) {
        Ok(v) => v,
        Err(e) => return Err(e),
    };
    let version = match read_u32_le(image, 20) {
        Ok(v) => v,
        Err(e) => return Err(e),
    };
    if version != ELF_VERSION_CURRENT as u32 {
        return Err(ParseError::UnsupportedVersion);
    }
    let entry_point = match read_u64_le(image, 24) {
        Ok(v) => v,
        Err(e) => return Err(e),
    };
    let program_header_offset = match read_u64_le(image, 32) {
        Ok(v) => v,
        Err(e) => return Err(e),
    };
    let program_header_entry_size = match read_u16_le(image, 54) {
        Ok(v) => v as u64,
        Err(e) => return Err(e),
    };
    let program_header_count = match read_u16_le(image, 56) {
        Ok(v) => v as u64,
        Err(e) => return Err(e),
    };
    let ghost phoff = program_header_offset as int;
    let ghost entsize = program_header_entry_size as int;
    let ghost count = program_header_count as int;
    let image_len = image.len() as u64;

    if program_header_count > MAX_PROGRAM_HEADERS as u64 {
        return Err(ParseError::TooManyProgramHeaders);
    }
    if program_header_count > 0 {
        if program_header_entry_size < ELF64_PHDR_SIZE as u64 {
            return Err(ParseError::InvalidProgramHeaderTable);
        }
        let table_size = match program_header_entry_size.checked_mul(program_header_count) {
            Some(v) => v,
            None => return Err(ParseError::InvalidProgramHeaderTable),
        };
        let table_end = match program_header_offset.checked_add(table_size) {
            Some(v) => v,
            None => return Err(ParseError::InvalidProgramHeaderTable),
        };
        if table_end > image_len {
            return Err(ParseError::ProgramHeaderOutOfBounds);
        }
    }

    let mut program_headers: Vec<ProgramHeader> = Vec::with_capacity(program_header_count as usize);
    let mut interpreter: Option<String> = None;
    let mut index: u64 = 0;
    while index < program_header_count
        invariant
            img == image@,
            image_len == img.len(),
            img.len() <= usize::MAX,
            img.len() >= ELF64_EHDR_SIZE,
            img[4] == ELF_CLASS_64,
            img[5] == ELF_DATA_LITTLE,
            img[6] == ELF_VERSION_CURRENT,
            le_u16(img, 52) == ELF64_EHDR_SIZE,
            le_u32(img, 20) == ELF_VERSION_CURRENT,
            phoff == le_u64(img, 32),
            entsize == le_u16(img, 54),
            count == le_u16(img, 56),
            image_type == le_u16(img, 16),
            machine == le_u16(img, 18),
            entry_point == le_u64(img, 24),
            phoff == program_header_offset,
            entsize == program_header_entry_size,
            count == program_header_count,
            count <= MAX_PROGRAM_HEADERS,
            count > 0 ==> entsize >= ELF64_PHDR_SIZE && phoff + entsize * count <= img.len(),
            index <= count,
            spec_headers_error(img, phoff, entsize, index as nat) is None,
            program_headers@ == Seq::new(index as nat, |i: int| spec_header_at(img, phoff, entsize, i)),
            opt_text(interpreter) == opt_lossy(spec_interpreter(img, phoff, entsize, index as nat)),
            opt_ascii_kept(spec_interpreter(img, phoff, entsize, index as nat), opt_text(interpreter)),
        decreases count - index,
    {
        proof {
            lemma_entry_in_table(index as int, entsize, count);
        }
        let step = match index.checked_mul(program_header_entry_size) {
            Some(v) => v,
            None => return Err(ParseError::InvalidProgramHeaderTable),
        };
        let entry_offset64 = match program_header_offset.checked_add(step) {
            Some(v) => v,
            None => return Err(ParseError::InvalidProgramHeaderTable),
        };
        let entry_end = match entry_offset64.checked_add(ELF64_PHDR_SIZE as u64) {
            Some(v) => v,
            None => return Err(ParseError::InvalidProgramHeaderTable),
        };
        if entry_end > image_len {
            return Err(ParseError::ProgramHeaderOutOfBounds);
        }
        let entry_offset = entry_offset64 as usize;
        let header = read_program_header(image, entry_offset);
        proof {
            assert(header == spec_header_at(img, phoff, entsize, index as int));
        }
        match segment_error(header, image_len) {
            Some(e) => {
                proof {
                    assert(spec_headers_error(img, phoff, entsize, (index + 1) as nat) == Some(e));
                    lemma_headers_error_persists(img, phoff, entsize, (index + 1) as nat, count as nat);
                }
                return Err(e);
            },
            None => {},
        }
        if interpreter.is_none() {
            interpreter = interpreter_candidate(image, header);
        }
        program_headers.push(header);
        proof {
            assert(program_headers@ =~= Seq::new(
                (index + 1) as nat,
                |i: int| spec_header_at(img, phoff, entsize, i),
            ));
        }
        index = index + 1;
    }
    proof {
        assert(program_headers@ =~= Seq::new(count as nat, |i: int| spec_header_at(img, phoff, entsize, i)));
    }
    Ok(ElfImage { image_type, machine, entry_point, interpreter, program_headers })
}

/// Index of the first zero byte of `bytes`, or its length.
fn nul_position(bytes: &[u8]) -> (n: usize)
    ensures
        n == nul_from(bytes@, 0),
        n <= bytes@.len(),
{
    let mut i: usize = 0;
    while i < bytes.len()
        invariant
            i <= bytes.len(),
            nul_from(bytes@, 0) == nul_from(bytes@, i as int),
        decreases bytes.len() - i,
    {
        if bytes[i] == 0 {
            assert(nul_from(bytes@, i as int) == i);
            return i;
        }
        i = i + 1;
    }
    i
}

/// Reads a little-endian `u16` at `offset`, or reports a truncated image.
fn read_u16_le(bytes: &[u8], offset: usize) -> (result: Result<u16, ParseError>)
    ensures
        offset + 2 > bytes@.len() ==> result == Err::<u16, ParseError>(ParseError::Truncated),
        offset + 2 <= bytes@.len() ==> result == Ok::<u16, ParseError>(le_u16(bytes@, offset as int) as u16),
{
    let len = bytes.len();
    let end = match offset.checked_add(2) {
        Some(end) => end,
        None => return Err(ParseError::Truncated),
    };
    if end > len {
        return Err(ParseError::Truncated);
    }
    Ok(bytes[offset] as u16 + (bytes[offset + 1] as u16) * 256)
}

/// Reads a little-endian `u32` at `offset`, or reports a truncated image.
fn read_u32_le(bytes: &[u8], offset: usize) -> (result: Result<u32, ParseError>)
    ensures
        offset + 4 > bytes@.len() ==> result == Err::<u32, ParseError>(ParseError::Truncated),
        offset + 4 <= bytes@.len() ==> result == Ok::<u32, ParseError>(le_u32(bytes@, offset as int) as u32),
{
    let len = bytes.len();
    let end = match offset.checked_add(4) {
        Some(end) => end,
        None => return Err(ParseError::Truncated),
    };
    if end > len {
        return Err(ParseError::Truncated);
    }
    let lo = bytes[offset] as u32 + (bytes[offset + 1] as u32) * 256;
    let hi = bytes[offset + 2] as u32 + (bytes[offset + 3] as u32) * 256;
    Ok(lo + hi * 65536)
}

/// Reads a little-endian `u64` at `offset`, or reports a truncated image.
fn read_u64_le(bytes: &[u8], offset: usize) -> (result: Result<u64, ParseError>)
    ensures
        offset + 8 > bytes@.len() ==> result == Err::<u64, ParseError>(ParseError::Truncated),
        offset + 8 <= bytes@.len() ==> result == Ok::<u64, ParseError>(le_u64(bytes@, offset as int) as u64),
{
    let len = bytes.len();
    let end = match offset.checked_add(8) {
        Some(end) => end,
        None => return Err(ParseError::Truncated),
    };
    if end > len {
        return Err(ParseError::Truncated);
    }
    let b0 = bytes[offset] as u64 + (bytes[offset + 1] as u64) * 256;
    let b1 = bytes[offset + 2] as u64 + (bytes[offset + 3] as u64) * 256;
    let b2 = bytes[offset + 4] as u64 + (bytes[offset + 5] as u64) * 256;
    let b3 = bytes[offset + 6] as u64 + (bytes[offset + 7] as u64) * 256;
    let lo = b0 + b1 * 65536;
    let hi = b2 + b3 * 65536;
    Ok(lo + hi * 0x1_0000_0000)
}


// ---------------------------------------------------------------------------
// Image inspection.

/// The ELF identification bytes.
pub open spec fn has_elf_magic(img: Seq<u8>) -> bool {
    img.len() >= 4 && img[0] == 0x7f && img[1] == 0x45 && img[2] == 0x4c && img[3] == 0x46
}

/// Bytes that `u8::is_ascii_whitespace` accepts.
pub open spec fn is_ascii_ws(b: u8) -> bool {
    b == 0x20 || b == 0x09 || b == 0x0a || b == 0x0c || b == 0x0d
}

/// Index of the first newline of `s` at or after `i`, or its length.
pub open spec fn newline_from(s: Seq<u8>, i: int) -> int
    decreases s.len() - i,
{
    if i < 0 || i >= s.len() {
        s.len() as int
    } else if s[i] == 0x0a {
        i
    } else {
        newline_from(s, i + 1)
    }
}

/// Index of the first non-whitespace byte of `s` at or after `i`, or its length.
pub open spec fn skip_ws(s: Seq<u8>, i: int) -> int
    decreases s.len() - i,
{
    if i < 0 || i >= s.len() {
        s.len() as int
    } else if is_ascii_ws(s[i]) {
        skip_ws(s, i + 1)
    } else {
        i
    }
}

/// Index of the first whitespace byte of `s` at or after `i`, or its length.
pub open spec fn token_end(s: Seq<u8>, i: int) -> int
    decreases s.len() - i,
{
    if i < 0 || i >= s.len() {
        s.len() as int
    } else if is_ascii_ws(s[i]) {
        i
    } else {
        token_end(s, i + 1)
    }
}

/// The `#!` line of a script without its two marker bytes, up to the first newline.
pub open spec fn shebang_line(img: Seq<u8>) -> Seq<u8> {
    img.subrange(2, newline_from(img, 0))
}

/// The interpreter and optional argument named on a `#!` line, if the image is such a script.
pub open spec fn spec_parse_shebang(img: Seq<u8>) -> Option<(Seq<u8>, Option<Seq<u8>>)> {
    if !(img.len() >= 2 && img[0] == 0x23 && img[1] == 0x21) {
        None
    } else {
        let line = shebang_line(img);
        let a = skip_ws(line, 0);
        if a >= line.len() {
            None
        } else {
            let b = token_end(line, a);
            let c = skip_ws(line, b);
            let argument = if c >= line.len() {
                None
            } else {
                Some(line.subrange(c, token_end(line, c)))
            };
            Some((line.subrange(a, b), argument))
        }
    }
}

/// Bytes that count as text: newline, carriage return, tab and printable ASCII.
pub open spec fn is_text_byte(b: u8) -> bool {
    b == 0x0a || b == 0x0d || b == 0x09 || (0x20 <= b && b <= 0x7e)
}

/// The image is non-empty text.
pub open spec fn spec_looks_like_text(img: Seq<u8>) -> bool {
    img.len() > 0 && forall|i: int| 0 <= i < img.len() ==> is_text_byte(img[i])
}

/// The error inspecting `img` reports: only ELF images are parsed strictly.
pub open spec fn spec_inspect_error(img: Seq<u8>) -> Option<ParseError> {
    if has_elf_magic(img) {
        match spec_parse_elf64(img) {
            Ok(_) => None,
            Err(e) => Some(e),
        }
    } else {
        None
    }
}

/// The kind of image `img` is, when inspecting it succeeds.
pub open spec fn spec_image_kind(img: Seq<u8>) -> ImageKind {
    if has_elf_magic(img) {
        ImageKind::Elf64
    } else if spec_parse_shebang(img) is Some {
        ImageKind::ShebangScript
    } else if spec_looks_like_text(img) {
        ImageKind::Text
    } else {
        ImageKind::Unknown
    }
}

impl ShebangImage {
    /// This script image names what `parsed` describes.
    pub open spec fn matches(&self, parsed: (Seq<u8>, Option<Seq<u8>>)) -> bool {
        &&& self.interpreter@ == lossy_utf8(parsed.0)
        &&& ascii_kept(parsed.0, self.interpreter@)
        &&& opt_text(self.argument) == opt_lossy(parsed.1)
        &&& opt_ascii_kept(parsed.1, opt_text(self.argument))
    }
}

/// `image` is what inspecting `img` yields.
pub open spec fn inspected_as(img: Seq<u8>, image: ExecutableImage) -> bool {
    match spec_image_kind(img) {
        ImageKind::Elf64 => image matches ExecutableImage::Elf64(elf) && elf.matches(
            spec_parse_elf64(img)->Ok_0,
        ),
        ImageKind::ShebangScript => image matches ExecutableImage::Shebang(script) && script.matches(
            spec_parse_shebang(img)->Some_0,
        ),
        ImageKind::Text => image is Text,
        ImageKind::Unknown => image is Unknown,
    }
}

/// Inspects an executable image: ELF64, `#!` script, plain text, or unknown.
pub fn inspect(image: &[u8]) -> (result: Result<ExecutableImage, ParseError>)
    ensures
        match spec_inspect_error(image@) {
            Some(e) => result matches Err(err) && err == e,
            None => result matches Ok(x) && inspected_as(image@, x),
        },
{
    if image.len() >= 4 && image[0] == 0x7f && image[1] == 0x45 && image[2] == 0x4c && image[3] == 0x46 {
        let elf = match parse_elf64(image) {
            Ok(elf) => elf,
            Err(e) => return Err(e),
        };
        return Ok(ExecutableImage::Elf64(elf));
    }
    if let Some(shebang) = parse_shebang(image) {
        return Ok(ExecutableImage::Shebang(shebang));
    }
    if looks_like_text(image) {
        return Ok(ExecutableImage::Text);
    }
    Ok(ExecutableImage::Unknown)
}

/// Detects which kind of executable image `image` is.
pub fn detect_kind(image: &[u8]) -> (result: Result<ImageKind, ParseError>)
    ensures
        match spec_inspect_error(image@) {
            Some(e) => result == Err::<ImageKind, ParseError>(e),
            None => result == Ok::<ImageKind, ParseError>(spec_image_kind(image@)),
        },
{
    let image = match inspect(image) {
        Ok(image) => image,
        Err(e) => return Err(e),
    };
    Ok(
        match image {
            ExecutableImage::Elf64(_) => ImageKind::Elf64,
            ExecutableImage::Shebang(_) => ImageKind::ShebangScript,
            ExecutableImage::Text => ImageKind::Text,
            ExecutableImage::Unknown => ImageKind::Unknown,
        },
    )
}

/// Parses the `#!interpreter [argument]` line of a script.
fn parse_shebang(image: &[u8]) -> (result: Option<ShebangImage>)
    ensures
        match spec_parse_shebang(image@) {
            Some(parsed) => result matches Some(script) && script.matches(parsed),
            None => result is None,
        },
{
    if !(image.len() >= 2 && image[0] == 0x23 && image[1] == 0x21) {
        return None;
    }
    let line_end = newline_position(image);
    proof {
        lemma_newline_from_bounds(image@, 2);
        assert(newline_from(image@, 0) == newline_from(image@, 1));
        assert(newline_from(image@, 1) == newline_from(image@, 2));
    }
    let line = &image[2..line_end];
    proof {
        assert(line@ =~= shebang_line(image@));
    }
    let start = skip_whitespace(line, 0);
    if start >= line.len() {
        return None;
    }
    let end = token_end_position(line, start);
    let interpreter = string_from_bytes_lossy(&line[start..end]);
    let next = skip_whitespace(line, end);
    let argument = if next >= line.len() {
        None
    } else {
        let next_end = token_end_position(line, next);
        Some(string_from_bytes_lossy(&line[next..next_end]))
    };
    Some(ShebangImage { interpreter, argument })
}

proof fn lemma_newline_from_bounds(s: Seq<u8>, i: int)
    requires
        0 <= i <= s.len(),
    ensures
        i <= newline_from(s, i) <= s.len(),
    decreases s.len() - i,
{
    if i < s.len() && s[i] != 0x0a {
        lemma_newline_from_bounds(s, i + 1);
    }
}

proof fn lemma_skip_ws_bounds(s: Seq<u8>, i: int)
    requires
        0 <= i <= s.len(),
    ensures
        i <= skip_ws(s, i) <= s.len(),
    decreases s.len() - i,
{
    if i < s.len() && is_ascii_ws(s[i]) {
        lemma_skip_ws_bounds(s, i + 1);
    }
}

proof fn lemma_token_end_bounds(s: Seq<u8>, i: int)
    requires
        0 <= i <= s.len(),
    ensures
        i <= token_end(s, i) <= s.len(),
    decreases s.len() - i,
{
    if i < s.len() && !is_ascii_ws(s[i]) {
        lemma_token_end_bounds(s, i + 1);
    }
}

/// Index of the first newline of `bytes`, or its length.
fn newline_position(bytes: &[u8]) -> (n: usize)
    ensures
        n == newline_from(bytes@, 0),
{
    let mut i: usize = 0;
    while i < bytes.len()
        invariant
            i <= bytes.len(),
            newline_from(bytes@, 0) == newline_from(bytes@, i as int),
        decreases bytes.len() - i,
    {
        if bytes[i] == 0x0a {
            return i;
        }
        i = i + 1;
    }
    i
}

/// Index of the first non-whitespace byte of `bytes` at or after `from`.
fn skip_whitespace(bytes: &[u8], from: usize) -> (n: usize)
    requires
        from <= bytes@.len(),
    ensures
        n == skip_ws(bytes@, from as int),
        from <= n <= bytes@.len(),
{
    proof {
        lemma_skip_ws_bounds(bytes@, from as int);
    }
    let mut i = from;
    while i < bytes.len()
        invariant
            from <= i <= bytes.len(),
            skip_ws(bytes@, from as int) == skip_ws(bytes@, i as int),
        decreases bytes.len() - i,
    {
        let b = bytes[i];
        if !(b == 0x20 || b == 0x09 || b == 0x0a || b == 0x0c || b == 0x0d) {
            return i;
        }
        i = i + 1;
    }
    i
}

/// Index of the first whitespace byte of `bytes` at or after `from`.
fn token_end_position(bytes: &[u8], from: usize) -> (n: usize)
    requires
        from <= bytes@.len(),
    ensures
        n == token_end(bytes@, from as int),
        from <= n <= bytes@.len(),
{
    proof {
        lemma_token_end_bounds(bytes@, from as int);
    }
    let mut i = from;
    while i < bytes.len()
        invariant
            from <= i <= bytes.len(),
            token_end(bytes@, from as int) == token_end(bytes@, i as int),
        decreases bytes.len() - i,
    {
        let b = bytes[i];
        if b == 0x20 || b == 0x09 || b == 0x0a || b == 0x0c || b == 0x0d {
            return i;
        }
        i = i + 1;
    }
    i
}

/// Whether the image is non-empty printable text.
fn looks_like_text(image: &[u8]) -> (b: bool)
    ensures
        b == spec_looks_like_text(image@),
{
    if image.len() == 0 {
        return false;
    }
    let mut i: usize = 0;
    while i < image.len()
        invariant
            i <= image.len(),
            forall|j: int| 0 <= j < i ==> is_text_byte(image@[j]),
        decreases image.len() - i,
    {
        let b = image[i];
        if !(b == 0x0a || b == 0x0d || b == 0x09 || (0x20 <= b && b <= 0x7e)) {
            return false;
        }
        i = i + 1;
    }
    true
}


// ---------------------------------------------------------------------------
// Load planning.

/// `v` rounded down to a page boundary.
pub open spec fn page_floor(v: int) -> int {
    v - v % (PAGE_SIZE as int)
}

/// `v` rounded up to a page boundary.
pub open spec fn page_ceil(v: int) -> int {
    page_floor(v + PAGE_SIZE - 1)
}

/// The plan entry for header `h` at table index `index`, or the error it raises.
pub open spec fn spec_plan_entry(index: int, h: ProgramHeader) -> Result<LoadSegmentPlan, ParseError> {
    if h.file_size > h.memory_size {
        Err(ParseError::InvalidSegmentSize)
    } else if h.virtual_address + h.memory_size > u64::MAX {
        Err(ParseError::SegmentAddressOverflow)
    } else if h.virtual_address + h.memory_size + PAGE_SIZE - 1 > u64::MAX {
        Err(ParseError::SegmentAddressOverflow)
    } else {
        let virtual_end = h.virtual_address + h.memory_size;
        let map_start = page_floor(h.virtual_address as int);
        Ok(
            LoadSegmentPlan {
                index: index as usize,
                file_offset: h.offset,
                virtual_start: h.virtual_address,
                virtual_end: virtual_end as u64,
                map_start: map_start as u64,
                map_end: page_ceil(virtual_end) as u64,
                page_offset: (h.virtual_address - map_start) as u64,
                file_bytes: h.file_size,
                memory_bytes: h.memory_size,
                zero_fill_bytes: (h.memory_size - h.file_size) as u64,
                alignment: h.alignment,
                permissions: spec_permissions(h),
            },
        )
    }
}

/// The load plan of the loadable headers among the first `n` of `hs`, or the first error.
pub open spec fn spec_load_plan_prefix(hs: Seq<ProgramHeader>, n: nat) -> Result<Seq<LoadSegmentPlan>, ParseError>
    decreases n,
{
    if n == 0 {
        Ok(Seq::empty())
    } else {
        match spec_load_plan_prefix(hs, (n - 1) as nat) {
            Err(e) => Err(e),
            Ok(plan) => if hs[n - 1].segment_type != ProgramHeaderType::Load {
                Ok(plan)
            } else {
                match spec_plan_entry(n - 1, hs[n - 1]) {
                    Err(e) => Err(e),
                    Ok(entry) => Ok(plan.push(entry)),
                }
            },
        }
    }
}

/// The load plan of an image's loadable headers, in table order.
pub open spec fn spec_load_plan(hs: Seq<ProgramHeader>) -> Result<Seq<LoadSegmentPlan>, ParseError> {
    spec_load_plan_prefix(hs, hs.len())
}

proof fn lemma_load_plan_error_persists(hs: Seq<ProgramHeader>, k: nat, n: nat)
    requires
        k <= n <= hs.len(),
        spec_load_plan_prefix(hs, k) is Err,
    ensures
        spec_load_plan_prefix(hs, n) == spec_load_plan_prefix(hs, k),
    decreases n - k,
{
    if k < n {
        lemma_load_plan_error_persists(hs, k, (n - 1) as nat);
    }
}

proof fn lemma_page_floor_bits(v: u64)
    ensures
        v & !0xfffu64 == page_floor(v as int),
{
    assert(v & !0xfffu64 == v - v % 4096) by (bit_vector);
}

/// `value` rounded down to a multiple of the power-of-two `alignment`.
fn align_down(value: u64, alignment: u64) -> (aligned: u64)
    requires
        alignment >= 1,
    ensures
        aligned == value & !((alignment - 1) as u64),
{
    value & !(alignment - 1)
}

/// `value` rounded up to a multiple of the power-of-two `alignment`, unless that overflows.
fn align_up(value: u64, alignment: u64) -> (aligned: Option<u64>)
    ensures
        alignment == 0 ==> aligned is None,
        alignment >= 1 && value + alignment - 1 > u64::MAX ==> aligned is None,
        alignment >= 1 && value + alignment - 1 <= u64::MAX ==> aligned == Some(
            ((value + alignment - 1) as u64) & !((alignment - 1) as u64),
        ),
{
    let addend = match alignment.checked_sub(1) {
        Some(v) => v,
        None => return None,
    };
    match value.checked_add(addend) {
        Some(rounded) => Some(rounded & !addend),
        None => None,
    }
}

/// The plan entry for one loadable header.
fn plan_entry(index: usize, header: ProgramHeader) -> (result: Result<LoadSegmentPlan, ParseError>)
    ensures
        result == spec_plan_entry(index as int, header),
{
    if header.file_size > header.memory_size {
        return Err(ParseError::InvalidSegmentSize);
    }
    let virtual_end = match header.virtual_address.checked_add(header.memory_size) {
        Some(v) => v,
        None => return Err(ParseError::SegmentAddressOverflow),
    };
    let map_start = align_down(header.virtual_address, PAGE_SIZE);
    let map_end = match align_up(virtual_end, PAGE_SIZE) {
        Some(v) => v,
        None => return Err(ParseError::SegmentAddressOverflow),
    };
    proof {
        lemma_page_floor_bits(header.virtual_address);
        lemma_page_floor_bits((virtual_end + 4095) as u64);
    }
    let page_offset = match header.virtual_address.checked_sub(map_start) {
        Some(v) => v,
        None => return Err(ParseError::SegmentAddressOverflow),
    };
    let zero_fill_bytes = header.memory_size.saturating_sub(header.file_size);
    Ok(LoadSegmentPlan {
        index,
        file_offset: header.offset,
        virtual_start: header.virtual_address,
        virtual_end,
        map_start,
        map_end,
        page_offset,
        file_bytes: header.file_size,
        memory_bytes: header.memory_size,
        zero_fill_bytes,
        alignment: header.alignment,
        permissions: SegmentPermissions::from_header(header),
    })
}

/// Plans where each loadable segment of `image` is mapped.
pub fn build_load_plan(image: &ElfImage) -> (result: Result<Vec<LoadSegmentPlan>, ParseError>)
    ensures
        match spec_load_plan(image.program_headers@) {
            Ok(plan) => result matches Ok(p) && p@ == plan,
            Err(e) => result matches Err(err) && err == e,
        },
{
    let headers = &image.program_headers;
    let ghost hs = headers@;
    let mut plan: Vec<LoadSegmentPlan> = Vec::new();
    let mut index: usize = 0;
    while index < headers.len()
        invariant
            hs == headers@,
            hs == image.program_headers@,
            index <= hs.len(),
            spec_load_plan_prefix(hs, index as nat) == Ok::<Seq<LoadSegmentPlan>, ParseError>(plan@),
        decreases hs.len() - index,
    {
        let header = headers[index];
        if header.is_loadable() {
            match plan_entry(index, header) {
                Ok(entry) => plan.push(entry),
                Err(e) => {
                    proof {
                        assert(spec_load_plan_prefix(hs, (index + 1) as nat) == Err::<Seq<LoadSegmentPlan>, ParseError>(e));
                        lemma_load_plan_error_persists(hs, (index + 1) as nat, hs.len());
                        assert(spec_load_plan(hs) == Err::<Seq<LoadSegmentPlan>, ParseError>(e));
                        assert(hs == image.program_headers@);
                    }
                    return Err(e);
                },
            }
        }
        index = index + 1;
    }
    Ok(plan)
}

/// The mapped bytes of one planned segment: zeros, with the file bytes copied in at the page offset.
pub open spec fn spec_materialize_segment(img: Seq<u8>, seg: LoadSegmentPlan) -> Result<Seq<u8>, ParseError> {
    if seg.map_end < seg.map_start {
        Err(ParseError::SegmentAddressOverflow)
    } else {
        let mapped_len = seg.map_end - seg.map_start;
        let zeros = Seq::new(mapped_len as nat, |i: int| 0u8);
        if mapped_len > usize::MAX {
            Err(ParseError::SegmentAddressOverflow)
        } else if seg.file_bytes == 0 {
            Ok(zeros)
        } else if seg.file_offset + seg.file_bytes > img.len() {
            Err(ParseError::SegmentOutOfBounds)
        } else if seg.page_offset + seg.file_bytes > mapped_len {
            Err(ParseError::SegmentAddressOverflow)
        } else {
            Ok(
                Seq::new(
                    mapped_len as nat,
                    |i: int|
                        if seg.page_offset <= i < seg.page_offset + seg.file_bytes {
                            img[seg.file_offset + (i - seg.page_offset)]
                        } else {
                            0u8
                        },
                ),
            )
        }
    }
}

/// The mapped bytes of the first `n` planned segments, or the first error.
pub open spec fn spec_materialize_prefix(img: Seq<u8>, plan: Seq<LoadSegmentPlan>, n: nat) -> Result<Seq<Seq<u8>>, ParseError>
    decreases n,
{
    if n == 0 {
        Ok(Seq::empty())
    } else {
        match spec_materialize_prefix(img, plan, (n - 1) as nat) {
            Err(e) => Err(e),
            Ok(done) => match spec_materialize_segment(img, plan[n - 1]) {
                Err(e) => Err(e),
                Ok(bytes) => Ok(done.push(bytes)),
            },
        }
    }
}

proof fn lemma_materialize_error_persists(img: Seq<u8>, plan: Seq<LoadSegmentPlan>, k: nat, n: nat)
    requires
        k <= n <= plan.len(),
        spec_materialize_prefix(img, plan, k) is Err,
    ensures
        spec_materialize_prefix(img, plan, n) == spec_materialize_prefix(img, plan, k),
    decreases n - k,
{
    if k < n {
        lemma_materialize_error_persists(img, plan, k, (n - 1) as nat);
    }
}

/// Builds the mapped bytes of one planned segment.
fn materialize_segment(image: &[u8], segment: LoadSegmentPlan) -> (result: Result<Vec<u8>, ParseError>)
    ensures
        match spec_materialize_segment(image@, segment) {
            Ok(bytes) => result matches Ok(v) && v@ == bytes,
            Err(e) => result matches Err(err) && err == e,
        },
{
    let mapped_len_u64 = match segment.map_end.checked_sub(segment.map_start) {
        Some(v) => v,
        None => return Err(ParseError::SegmentAddressOverflow),
    };
    if mapped_len_u64 > usize::MAX as u64 {
        return Err(ParseError::SegmentAddressOverflow);
    }
    let mapped_len = mapped_len_u64 as usize;
    let mut mapped: Vec<u8> = vec![0u8; mapped_len];
    proof {
        assert(mapped@ =~= Seq::new(mapped_len as nat, |i: int| 0u8));
    }
    if segment.file_bytes > 0 {
        let image_len = image.len() as u64;
        let file_end = match segment.file_offset.checked_add(segment.file_bytes) {
            Some(v) => v,
            None => return Err(ParseError::SegmentOutOfBounds),
        };
        if file_end > image_len {
            return Err(ParseError::SegmentOutOfBounds);
        }
        let dst_end = match segment.page_offset.checked_add(segment.file_bytes) {
            Some(v) => v,
            None => return Err(ParseError::SegmentAddressOverflow),
        };
        if dst_end > mapped_len_u64 {
            return Err(ParseError::SegmentAddressOverflow);
        }
        let file_start = segment.file_offset as usize;
        let dst_start = segment.page_offset as usize;
        let file_len = segment.file_bytes as usize;
        let mut k: usize = 0;
        while k < file_len
            invariant
                k <= file_len,
                file_len == segment.file_bytes,
                file_start == segment.file_offset,
                dst_start == segment.page_offset,
                file_start + file_len <= image@.len(),
                image@.len() <= usize::MAX,
                dst_start + file_len <= mapped_len,
                mapped@.len() == mapped_len,
                forall|i: int|
                    0 <= i < mapped_len ==> #[trigger] mapped@[i] == if dst_start <= i < dst_start + k {
                        image@[file_start + (i - dst_start)]
                    } else {
                        0u8
                    },
            decreases file_len - k,
        {
            mapped[dst_start + k] = image[file_start + k];
            k = k + 1;
        }
        proof {
            assert(mapped@ =~= spec_materialize_segment(image@, segment)->Ok_0);
        }
    }
    Ok(mapped)
}

/// The contents of each byte vector.
pub open spec fn byte_views(v: Seq<Vec<u8>>) -> Seq<Seq<u8>> {
    Seq::new(v.len(), |i: int| v[i]@)
}

/// Builds the mapped bytes of every planned segment, in plan order.
pub fn materialize_load_segments(image: &[u8], plan: &[LoadSegmentPlan]) -> (result: Result<Vec<Vec<u8>>, ParseError>)
    ensures
        match spec_materialize_prefix(image@, plan@, plan@.len()) {
            Ok(segments) => result matches Ok(v) && byte_views(v@) == segments,
            Err(e) => result matches Err(err) && err == e,
        },
{
    let mut segments: Vec<Vec<u8>> = Vec::with_capacity(plan.len());
    proof {
        assert(byte_views(segments@) =~= Seq::<Seq<u8>>::empty());
    }
    let mut index: usize = 0;
    while index < plan.len()
        invariant
            index <= plan@.len(),
            spec_materialize_prefix(image@, plan@, index as nat) == Ok::<Seq<Seq<u8>>, ParseError>(
                byte_views(segments@),
            ),
        decreases plan@.len() - index,
    {
        match materialize_segment(image, plan[index]) {
            Ok(mapped) => {
                let ghost before = byte_views(segments@);
                segments.push(mapped);
                proof {
                    assert(byte_views(segments@) =~= before.push(mapped@));
                }
            },
            Err(e) => {
                proof {
                    lemma_materialize_error_persists(image@, plan@, (index + 1) as nat, plan@.len());
                }
                return Err(e);
            },
        }
        index = index + 1;
    }
    Ok(segments)
}

/// The mapping of a segment holds its file bytes, in order, from the place its virtual start
/// falls in the mapping: the byte at virtual address `virtual_start + j` is file byte
/// `file_offset + j` for each of the segment's file bytes. Every other byte of the mapping is zero.
pub proof fn lemma_materialized_segment_bytes(img: Seq<u8>, seg: LoadSegmentPlan)
    requires
        seg.map_start <= seg.virtual_start,
        seg.page_offset == seg.virtual_start - seg.map_start,
        spec_materialize_segment(img, seg) is Ok,
    ensures
        ({
            let bytes = spec_materialize_segment(img, seg)->Ok_0;
            let at = seg.virtual_start - seg.map_start;
            &&& bytes.len() == seg.map_end - seg.map_start
            &&& seg.file_bytes > 0 ==> at + seg.file_bytes <= bytes.len() && seg.file_offset + seg.file_bytes <= img.len()
            &&& forall|j: int| 0 <= j < seg.file_bytes ==> #[trigger] bytes[at + j] == img[seg.file_offset + j]
            &&& forall|i: int| 0 <= i < bytes.len() && !(at <= i < at + seg.file_bytes) ==> #[trigger] bytes[i] == 0u8
        }),
{
    let bytes = spec_materialize_segment(img, seg)->Ok_0;
    let at = seg.virtual_start - seg.map_start;
    assert forall|j: int| 0 <= j < seg.file_bytes implies #[trigger] bytes[at + j] == img[seg.file_offset + j] by {
        assert(seg.page_offset <= at + j < seg.page_offset + seg.file_bytes);
    }
}

/// Every planned segment covers its virtual range with the fewest whole pages, starting at
/// its page offset.
pub proof fn lemma_plan_entries_page_aligned(hs: Seq<ProgramHeader>)
    requires
        spec_load_plan(hs) is Ok,
    ensures
        forall|k: int|
            0 <= k < spec_load_plan(hs)->Ok_0.len() ==> {
                let e = #[trigger] spec_load_plan(hs)->Ok_0[k];
                &&& e.map_start % PAGE_SIZE == 0
                &&& e.map_end % PAGE_SIZE == 0
                &&& e.map_start <= e.virtual_start <= e.virtual_end <= e.map_end
                &&& e.page_offset == e.virtual_start - e.map_start
                &&& e.file_bytes <= e.memory_bytes
                &&& e.zero_fill_bytes == e.memory_bytes - e.file_bytes
                &&& e.virtual_end == e.virtual_start + e.memory_bytes
                &&& e.virtual_start < e.map_start + PAGE_SIZE
                &&& e.map_end < e.virtual_end + PAGE_SIZE
            },
{
    lemma_plan_prefix_page_aligned(hs, hs.len());
}

/// Every planned segment comes from a loadable header of the table, in table order, and keeps
/// its file offset, virtual start and sizes.
pub proof fn lemma_plan_entries_follow_headers(hs: Seq<ProgramHeader>)
    requires
        hs.len() <= usize::MAX,
        spec_load_plan(hs) is Ok,
    ensures
        forall|k: int|
            0 <= k < spec_load_plan(hs)->Ok_0.len() ==> {
                let e = #[trigger] spec_load_plan(hs)->Ok_0[k];
                &&& e.index < hs.len()
                &&& hs[e.index as int].segment_type == ProgramHeaderType::Load
                &&& e.file_offset == hs[e.index as int].offset
                &&& e.virtual_start == hs[e.index as int].virtual_address
                &&& e.file_bytes == hs[e.index as int].file_size
                &&& e.memory_bytes == hs[e.index as int].memory_size
            },
        forall|k: int, l: int|
            0 <= k < l < spec_load_plan(hs)->Ok_0.len() ==> (#[trigger] spec_load_plan(hs)->Ok_0[k]).index
                < (#[trigger] spec_load_plan(hs)->Ok_0[l]).index,
{
    lemma_plan_prefix_follows(hs, hs.len());
}

proof fn lemma_plan_prefix_follows(hs: Seq<ProgramHeader>, n: nat)
    requires
        n <= hs.len() <= usize::MAX,
        spec_load_plan_prefix(hs, n) is Ok,
    ensures
        forall|k: int|
            0 <= k < spec_load_plan_prefix(hs, n)->Ok_0.len() ==> {
                let e = #[trigger] spec_load_plan_prefix(hs, n)->Ok_0[k];
                &&& e.index < n
                &&& hs[e.index as int].segment_type == ProgramHeaderType::Load
                &&& e.file_offset == hs[e.index as int].offset
                &&& e.virtual_start == hs[e.index as int].virtual_address
                &&& e.file_bytes == hs[e.index as int].file_size
                &&& e.memory_bytes == hs[e.index as int].memory_size
            },
        forall|k: int, l: int|
            0 <= k < l < spec_load_plan_prefix(hs, n)->Ok_0.len() ==> (#[trigger] spec_load_plan_prefix(hs, n)->Ok_0[k]).index
                < (#[trigger] spec_load_plan_prefix(hs, n)->Ok_0[l]).index,
    decreases n,
{
    if n > 0 {
        lemma_plan_prefix_follows(hs, (n - 1) as nat);
        let prev = spec_load_plan_prefix(hs, (n - 1) as nat)->Ok_0;
        let cur = spec_load_plan_prefix(hs, n)->Ok_0;
        if hs[n - 1].segment_type == ProgramHeaderType::Load {
            let e = spec_plan_entry(n - 1, hs[n - 1])->Ok_0;
            assert(cur == prev.push(e));
            assert(e.index == n - 1);
            assert forall|k: int| 0 <= k < cur.len() implies {
                let x = #[trigger] cur[k];
                &&& x.index < n
                &&& hs[x.index as int].segment_type == ProgramHeaderType::Load
                &&& x.file_offset == hs[x.index as int].offset
                &&& x.virtual_start == hs[x.index as int].virtual_address
                &&& x.file_bytes == hs[x.index as int].file_size
                &&& x.memory_bytes == hs[x.index as int].memory_size
            } by {
                if k < prev.len() {
                    assert(cur[k] == prev[k]);
                }
            }
            assert forall|k: int, l: int| 0 <= k < l < cur.len() implies (#[trigger] cur[k]).index < (#[trigger] cur[l]).index by {
                assert(cur[k] == prev[k]);
                if l < prev.len() {
                    assert(cur[l] == prev[l]);
                }
            }
        }
    }
}

proof fn lemma_plan_prefix_page_aligned(hs: Seq<ProgramHeader>, n: nat)
    requires
        n <= hs.len(),
        spec_load_plan_prefix(hs, n) is Ok,
    ensures
        forall|k: int|
            0 <= k < spec_load_plan_prefix(hs, n)->Ok_0.len() ==> {
                let e = #[trigger] spec_load_plan_prefix(hs, n)->Ok_0[k];
                &&& e.map_start % PAGE_SIZE == 0
                &&& e.map_end % PAGE_SIZE == 0
                &&& e.map_start <= e.virtual_start <= e.virtual_end <= e.map_end
                &&& e.page_offset == e.virtual_start - e.map_start
                &&& e.file_bytes <= e.memory_bytes
                &&& e.zero_fill_bytes == e.memory_bytes - e.file_bytes
                &&& e.virtual_end == e.virtual_start + e.memory_bytes
                &&& e.virtual_start < e.map_start + PAGE_SIZE
                &&& e.map_end < e.virtual_end + PAGE_SIZE
            },
    decreases n,
{
    if n > 0 {
        lemma_plan_prefix_page_aligned(hs, (n - 1) as nat);
    }
}

} // verus!
