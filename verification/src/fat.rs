use vstd::prelude::*;
use vstd::string::StringSliceAdditionalSpecFns;
use vstd::wrapping::u32_specs;

use crate::block::{BlockRegistry, PartitionTableKind, SECTOR_BYTES, spec_read_sector};
use crate::bstr::{bytes_eq, has_prefix, holds_byte, push_all, starts_with, trim_end_byte, trim_trailing};
use crate::le::{get_u16_le, get_u32_le, le_u16, le_u32};
use crate::text::{lossy_utf8, string_from_bytes_lossy};

verus! {

pub const DIRECTORY_ENTRY_BYTES: usize = 32;
pub const FAT32_EOC_MIN: u32 = 0x0fff_fff8;
pub const FAT32_BAD_CLUSTER: u32 = 0x0fff_fff7;
pub const MAX_FAT32_ROOT_CHAIN_STEPS: usize = 1024;

/// FAT variant.
#[derive(Copy, Clone, PartialEq, Eq, Structural, Debug)]
pub enum FatType {
    Fat16,
    Fat32,
}

impl FatType {
    pub fn as_str(self) -> (s: &'static str)
        ensures
            s@ == spec_fat_type_text(self),
    {
        match self {
            Self::Fat16 => "fat16",
            Self::Fat32 => "fat32",
        }
    }
}

pub open spec fn spec_fat_type_text(t: FatType) -> Seq<char> {
    match t {
        FatType::Fat16 => "fat16"@,
        FatType::Fat32 => "fat32"@,
    }
}

/// Kind of a node under `/fat`.
#[derive(Copy, Clone, PartialEq, Eq, Structural, Debug)]
pub enum FatNodeKind {
    Directory,
    File,
}

/// Kind and size of a node under `/fat`.
#[derive(Copy, Clone, PartialEq, Eq, Structural, Debug)]
pub struct FatNodeInfo {
    pub kind: FatNodeKind,
    pub size: usize,
}

/// What was mounted under `/fat`.
#[derive(Copy, Clone, PartialEq, Eq, Structural, Debug)]
pub struct FatSummary {
    pub mounted: bool,
    pub partition_id: Option<u16>,
    pub device_id: Option<u16>,
    pub partition_table: Option<PartitionTableKind>,
    pub fat_type: Option<FatType>,
    pub root_entry_count: usize,
    pub directory_count: usize,
}

impl FatSummary {
    /// The summary of an unmounted `/fat`.
    pub fn offline() -> (s: Self)
        ensures
            s == spec_offline(),
    {
        FatSummary {
            mounted: false,
            partition_id: None,
            device_id: None,
            partition_table: None,
            fat_type: None,
            root_entry_count: 0,
            directory_count: 0,
        }
    }
}

pub open spec fn spec_offline() -> FatSummary {
    FatSummary {
        mounted: false,
        partition_id: None,
        device_id: None,
        partition_table: None,
        fat_type: None,
        root_entry_count: 0,
        directory_count: 0,
    }
}

/// Why `/fat` could not be mounted.
#[derive(Copy, Clone, PartialEq, Eq, Structural, Debug)]
pub enum FatError {
    AlreadyInitialized,
    BlockUnavailable,
    NoFatPartition,
}

impl FatError {
    pub fn as_str(self) -> (s: &'static str)
        ensures
            self == FatError::AlreadyInitialized ==> s@ == "fat is already initialized"@,
            self == FatError::BlockUnavailable ==> s@ == "block layer is unavailable"@,
            self == FatError::NoFatPartition ==> s@ == "no FAT16/32 partition found"@,
    {
        match self {
            Self::AlreadyInitialized => "fat is already initialized",
            Self::BlockUnavailable => "block layer is unavailable",
            Self::NoFatPartition => "no FAT16/32 partition found",
        }
    }
}

/// The geometry a boot sector describes.
#[derive(Copy, Clone, PartialEq, Eq, Structural, Debug)]
pub struct BpbLayout {
    pub fat_type: FatType,
    pub bytes_per_sector: u16,
    pub sectors_per_cluster: u8,
    pub reserved_sectors: u16,
    pub fat_count: u8,
    pub sectors_per_fat: u32,
    pub root_dir_entries: u16,
    pub root_dir_sectors: u32,
    pub fat_start_lba_offset: u32,
    pub root_dir_start_lba_offset: u32,
    pub first_data_sector_offset: u32,
    pub root_dir_first_cluster: u32,
}

/// The layout of a FAT16 or FAT32 volume from its boot sector `s`, computed with the
/// wrap-around arithmetic of 32-bit sector counts; `None` when the sector does not describe
/// a 512-byte-sector FAT16 or FAT32 volume.
pub open spec fn spec_parse_bpb(s: Seq<u8>) -> Option<BpbLayout> {
    let bps = le_u16(s, 11);
    let spc = s[13];
    let reserved = le_u16(s, 14);
    let fat_count = s[16];
    let rde = le_u16(s, 17);
    let ts16 = le_u16(s, 19);
    let spf16 = le_u16(s, 22);
    let ts32 = le_u32(s, 32);
    let spf32 = le_u32(s, 36);
    let rdfc = le_u32(s, 44);
    let total = if ts16 != 0 { ts16 } else { ts32 };
    let spf = if spf16 != 0 { spf16 } else { spf32 };
    let rds = (rde * 32 + 511) / 512;
    let fat_area = u32_specs::wrapping_mul(fat_count as u32, spf as u32);
    let root_start = u32_specs::wrapping_add(reserved as u32, fat_area);
    let fds = u32_specs::wrapping_add(root_start, rds as u32);
    let clusters = (total - fds) / (spc as int);
    if bps != 512 || spc == 0 || reserved == 0 || fat_count == 0 || total == 0 || spf == 0 {
        None
    } else if fds >= total || clusters < 4085 {
        None
    } else if clusters >= 65525 && rdfc < 2 {
        None
    } else {
        Some(
            BpbLayout {
                fat_type: if clusters < 65525 { FatType::Fat16 } else { FatType::Fat32 },
                bytes_per_sector: bps as u16,
                sectors_per_cluster: spc,
                reserved_sectors: reserved as u16,
                fat_count,
                sectors_per_fat: spf as u32,
                root_dir_entries: rde as u16,
                root_dir_sectors: rds as u32,
                fat_start_lba_offset: reserved as u32,
                root_dir_start_lba_offset: root_start,
                first_data_sector_offset: fds,
                root_dir_first_cluster: rdfc as u32,
            },
        )
    }
}

/// The sector count of the volume a boot sector describes: its 16-bit field, or its 32-bit
/// field when the 16-bit one is zero.
pub open spec fn boot_total_sectors(s: Seq<u8>) -> int {
    if le_u16(s, 19) != 0 {
        le_u16(s, 19)
    } else {
        le_u32(s, 32)
    }
}

/// The type of a volume follows from its count of data clusters: a boot sector that parses
/// describes at least 4085 clusters, and the volume is FAT32 exactly when there are 65525 or
/// more, FAT16 otherwise.
pub proof fn lemma_fat_type_by_clusters(s: Seq<u8>)
    requires
        spec_parse_bpb(s) is Some,
    ensures
        ({
            let l = spec_parse_bpb(s)->Some_0;
            let clusters = (boot_total_sectors(s) - l.first_data_sector_offset) / (l.sectors_per_cluster as int);
            &&& l.sectors_per_cluster > 0
            &&& l.first_data_sector_offset < boot_total_sectors(s)
            &&& clusters >= 4085
            &&& (l.fat_type == FatType::Fat32 <==> clusters >= 65525)
            &&& (l.fat_type == FatType::Fat16 <==> clusters < 65525)
            &&& l.fat_type == FatType::Fat32 ==> l.root_dir_first_cluster >= 2
            &&& l.bytes_per_sector == 512
            &&& l.sectors_per_cluster == s[13]
            &&& l.reserved_sectors == le_u16(s, 14)
            &&& l.fat_count == s[16]
            &&& l.root_dir_entries == le_u16(s, 17)
            &&& l.sectors_per_fat == (if le_u16(s, 22) != 0 { le_u16(s, 22) } else { le_u32(s, 36) })
            &&& l.root_dir_sectors == (l.root_dir_entries * 32 + 511) / 512
            &&& l.root_dir_first_cluster == le_u32(s, 44)
            &&& l.fat_start_lba_offset == l.reserved_sectors
            &&& l.root_dir_start_lba_offset == (l.reserved_sectors + l.fat_count * l.sectors_per_fat) % 0x1_0000_0000
            &&& l.first_data_sector_offset == (l.root_dir_start_lba_offset + l.root_dir_sectors) % 0x1_0000_0000
        }),
{
    let l = spec_parse_bpb(s)->Some_0;
    let r: int = 0x1_0000_0000;
    let fat_area = (l.fat_count * l.sectors_per_fat) % r;
    vstd::arithmetic::div_mod::lemma_add_mod_noop_right(l.reserved_sectors as int, l.fat_count * l.sectors_per_fat, r);
    lemma_wrap_once(l.reserved_sectors + fat_area, r);
    lemma_wrap_once(l.root_dir_start_lba_offset + l.root_dir_sectors, r);
}

/// A sum below twice `r` that wraps once when it reaches `r` is the sum modulo `r`.
proof fn lemma_wrap_once(x: int, r: int)
    requires
        0 <= x < 2 * r,
        r > 0,
    ensures
        (if x >= r { x - r } else { x }) == x % r,
{
    if x >= r {
        vstd::arithmetic::div_mod::lemma_mod_sub_multiples_vanish(x, r);
        vstd::arithmetic::div_mod::lemma_small_mod((x - r) as nat, r as nat);
    } else {
        vstd::arithmetic::div_mod::lemma_small_mod(x as nat, r as nat);
    }
}

/// The layout a boot sector describes.
pub fn parse_bpb(sector: &[u8; SECTOR_BYTES]) -> (layout: Option<BpbLayout>)
    ensures
        layout == spec_parse_bpb(sector@),
{
    let bytes_per_sector = get_u16_le(sector, 11);
    if bytes_per_sector != SECTOR_BYTES as u16 {
        return None;
    }
    let sectors_per_cluster = sector[13];
    if sectors_per_cluster == 0 {
        return None;
    }
    let reserved_sectors = get_u16_le(sector, 14);
    if reserved_sectors == 0 {
        return None;
    }
    let fat_count = sector[16];
    if fat_count == 0 {
        return None;
    }
    let root_dir_entries = get_u16_le(sector, 17);
    let total_sectors_16 = get_u16_le(sector, 19) as u32;
    let sectors_per_fat_16 = get_u16_le(sector, 22) as u32;
    let total_sectors_32 = get_u32_le(sector, 32);
    let sectors_per_fat_32 = get_u32_le(sector, 36);
    let root_dir_first_cluster = get_u32_le(sector, 44);
    let total_sectors = if total_sectors_16 != 0 { total_sectors_16 } else { total_sectors_32 };
    if total_sectors == 0 {
        return None;
    }
    let sectors_per_fat = if sectors_per_fat_16 != 0 { sectors_per_fat_16 } else { sectors_per_fat_32 };
    if sectors_per_fat == 0 {
        return None;
    }
    let root_dir_sectors = ((root_dir_entries as u32) * 32 + ((bytes_per_sector as u32) - 1)) / (bytes_per_sector as u32);
    let fat_area = (fat_count as u32).wrapping_mul(sectors_per_fat);
    let root_start = (reserved_sectors as u32).wrapping_add(fat_area);
    let first_data_sector = root_start.wrapping_add(root_dir_sectors);
    if first_data_sector >= total_sectors {
        return None;
    }
    let data_sectors = total_sectors - first_data_sector;
    let cluster_count = data_sectors / (sectors_per_cluster as u32);
    let fat_type = if cluster_count < 4_085 {
        return None;
    } else if cluster_count < 65_525 {
        FatType::Fat16
    } else {
        FatType::Fat32
    };
    if fat_type == FatType::Fat32 && root_dir_first_cluster < 2 {
        return None;
    }
    Some(
        BpbLayout {
            fat_type,
            bytes_per_sector,
            sectors_per_cluster,
            reserved_sectors,
            fat_count,
            sectors_per_fat,
            root_dir_entries,
            root_dir_sectors,
            fat_start_lba_offset: reserved_sectors as u32,
            root_dir_start_lba_offset: root_start,
            first_data_sector_offset: first_data_sector,
            root_dir_first_cluster,
        },
    )
}

} // verus!

verus! {

// ---------------------------------------------------------------------------
// Directory entries.

/// An entry of the root directory.
pub struct FatRootEntry {
    pub name: Vec<u8>,
    pub kind: FatNodeKind,
    pub size: usize,
}

/// A root directory entry in mathematical terms.
pub struct FatEntryView {
    pub name: Seq<u8>,
    pub kind: FatNodeKind,
    pub size: usize,
}

impl FatRootEntry {
    pub open spec fn view(&self) -> FatEntryView {
        FatEntryView { name: self.name@, kind: self.kind, size: self.size }
    }
}

pub open spec fn entry_views(es: Seq<FatRootEntry>) -> Seq<FatEntryView> {
    Seq::new(es.len(), |i: int| es[i]@)
}

/// Index of the first space or NUL of `b` at or after `i`, or its length.
pub open spec fn component_end(b: Seq<u8>, i: int) -> int
    decreases b.len() - i,
{
    if i < 0 || i >= b.len() {
        b.len() as int
    } else if b[i] == 0x20 || b[i] == 0 {
        i
    } else {
        component_end(b, i + 1)
    }
}

/// One part of a short name: the bytes before the padding, all printable ASCII.
pub open spec fn spec_name_component(b: Seq<u8>) -> Option<Seq<u8>> {
    let e = component_end(b, 0);
    if forall|i: int| 0 <= i < e ==> 0x21 <= #[trigger] b[i] <= 0x7e {
        Some(b.subrange(0, e))
    } else {
        None
    }
}

proof fn lemma_component_end(b: Seq<u8>, i: int)
    requires
        0 <= i <= b.len(),
    ensures
        i <= component_end(b, i) <= b.len(),
        forall|j: int| i <= j < component_end(b, i) ==> #[trigger] b[j] != 0x20 && b[j] != 0,
    decreases b.len() - i,
{
    if i < b.len() && !(b[i] == 0x20 || b[i] == 0) {
        lemma_component_end(b, i + 1);
    }
}

fn parse_name_component(bytes: &[u8]) -> (text: Option<Vec<u8>>)
    ensures
        match spec_name_component(bytes@) {
            Some(t) => text matches Some(v) && v@ == t,
            None => text is None,
        },
{
    proof {
        lemma_component_end(bytes@, 0);
    }
    let mut text: Vec<u8> = Vec::new();
    let mut i: usize = 0;
    while i < bytes.len()
        invariant
            i <= bytes@.len(),
            component_end(bytes@, 0) == component_end(bytes@, i as int),
            text@ == bytes@.subrange(0, i as int),
            forall|j: int| 0 <= j < i ==> 0x21 <= #[trigger] bytes@[j] <= 0x7e,
        ensures
            i == component_end(bytes@, 0),
            text@ == bytes@.subrange(0, i as int),
            forall|j: int| 0 <= j < i ==> 0x21 <= #[trigger] bytes@[j] <= 0x7e,
        decreases bytes@.len() - i,
    {
        let b = bytes[i];
        if b == 0x20 || b == 0 {
            break;
        }
        if !(0x21 <= b && b <= 0x7e) {
            proof {
                assert(!(0x21 <= bytes@[i as int] <= 0x7e));
                lemma_component_end(bytes@, i as int + 1);
                assert(component_end(bytes@, i as int) == component_end(bytes@, i as int + 1));
                assert(component_end(bytes@, 0) > i);
                assert(!(forall|j: int| 0 <= j < component_end(bytes@, 0) ==> 0x21 <= #[trigger] bytes@[j] <= 0x7e));
            }
            return None;
        }
        text.push(b);
        proof {
            assert(text@ =~= bytes@.subrange(0, i + 1));
        }
        i = i + 1;
    }
    Some(text)
}

/// The name an 11-byte short entry name spells: base, and `.ext` when there is an extension.
pub open spec fn spec_short_name(n: Seq<u8>) -> Option<Seq<u8>> {
    if n.len() != 11 {
        None
    } else {
        match spec_name_component(n.subrange(0, 8)) {
            None => None,
            Some(base) => if base.len() == 0 {
                None
            } else {
                match spec_name_component(n.subrange(8, 11)) {
                    None => None,
                    Some(ext) => Some(if ext.len() == 0 { base } else { base + seq![0x2eu8] + ext }),
                }
            },
        }
    }
}

fn parse_short_name(name: &[u8]) -> (full: Option<Vec<u8>>)
    ensures
        match spec_short_name(name@) {
            Some(t) => full matches Some(v) && v@ == t,
            None => full is None,
        },
{
    if name.len() != 11 {
        return None;
    }
    let base = match parse_name_component(&name[0..8]) {
        Some(b) => b,
        None => return None,
    };
    if base.len() == 0 {
        return None;
    }
    let ext = match parse_name_component(&name[8..11]) {
        Some(e) => e,
        None => return None,
    };
    let mut full = base;
    if ext.len() > 0 {
        full.push(0x2e);
        push_all(&mut full, ext.as_slice());
    }
    Some(full)
}

/// The root-directory entry the 32 bytes at slot `k` of a directory sector describe, if listed:
/// deleted entries, long-name parts, volume labels, unprintable names and `.`/`..` are not.
pub open spec fn spec_slot_entry(s: Seq<u8>, k: int) -> Option<FatEntryView> {
    let o = 32 * k;
    let attrs = s[o + 11];
    if s[o] == 0xE5 || attrs == 0x0F || attrs & 0x08 != 0 {
        None
    } else {
        match spec_short_name(s.subrange(o, o + 11)) {
            None => None,
            Some(name) => if name == seq![0x2eu8] || name == seq![0x2eu8, 0x2e] {
                None
            } else {
                Some(
                    FatEntryView {
                        name,
                        kind: if attrs & 0x10 != 0 { FatNodeKind::Directory } else { FatNodeKind::File },
                        size: le_u32(s, o + 28) as usize,
                    },
                )
            },
        }
    }
}

/// The entries listed by the first `k` slots of a directory sector, and whether an end
/// marker (a slot starting with 0) was met among them.
pub open spec fn scan_slots(s: Seq<u8>, k: int) -> (Seq<FatEntryView>, bool)
    decreases k,
{
    if k <= 0 {
        (Seq::empty(), false)
    } else {
        let prev = scan_slots(s, k - 1);
        if prev.1 || s[32 * (k - 1)] == 0 {
            (prev.0, true)
        } else {
            match spec_slot_entry(s, k - 1) {
                Some(e) => (prev.0.push(e), false),
                None => (prev.0, false),
            }
        }
    }
}

/// Appends the entries a directory sector lists; true when the sector holds the end marker.
fn parse_directory_sector(sector: &[u8; SECTOR_BYTES], out: &mut Vec<FatRootEntry>) -> (ended: bool)
    ensures
        entry_views(final(out)@) == entry_views(old(out)@) + scan_slots(sector@, 16).0,
        ended == scan_slots(sector@, 16).1,
{
    let mut k: usize = 0;
    let mut offset: usize = 0;
    while offset + DIRECTORY_ENTRY_BYTES <= SECTOR_BYTES
        invariant
            k <= 16,
            offset == 32 * k,
            sector@.len() == SECTOR_BYTES,
            !scan_slots(sector@, k as int).1,
            entry_views(out@) == entry_views(old(out)@) + scan_slots(sector@, k as int).0,
        decreases SECTOR_BYTES - offset,
    {
        let ghost before = out@;
        let first = sector[offset];
        if first == 0x00 {
            proof {
                lemma_scan_sticks(sector@, k as int + 1);
            }
            return true;
        }
        let attrs = sector[offset + 11];
        if first != 0xE5 && !(attrs == 0x0F || (attrs & 0x08) != 0) {
            if let Some(name) = parse_short_name(&sector.as_slice()[offset..offset + 11]) {
                let dot = [0x2eu8];
                let dotdot = [0x2eu8, 0x2e];
                proof {
                    assert(dot@ =~= seq![0x2eu8]);
                    assert(dotdot@ =~= seq![0x2eu8, 0x2e]);
                }
                if !bytes_eq(name.as_slice(), &dot) && !bytes_eq(name.as_slice(), &dotdot) {
                    let kind = if (attrs & 0x10) != 0 { FatNodeKind::Directory } else { FatNodeKind::File };
                    let size = get_u32_le(sector, offset + 28) as usize;
                    out.push(FatRootEntry { name, kind, size });
                    proof {
                        assert(entry_views(out@) =~= entry_views(before).push(out@.last()@));
                    }
                }
            }
        }
        proof {
            assert(sector@.subrange(32 * k as int, 32 * k + 11) =~= sector@.subrange(offset as int, offset + 11));
            assert(entry_views(out@) =~= entry_views(old(out)@) + scan_slots(sector@, k + 1).0);
        }
        k = k + 1;
        offset = offset + DIRECTORY_ENTRY_BYTES;
    }
    false
}

proof fn lemma_scan_sticks(s: Seq<u8>, k: int)
    requires
        1 <= k <= 16,
        scan_slots(s, k).1,
    ensures
        scan_slots(s, 16) == scan_slots(s, k),
    decreases 16 - k,
{
    if k < 16 {
        lemma_scan_sticks(s, k + 1);
    }
}

} // verus!

verus! {

// ---------------------------------------------------------------------------
// Reading the root directory.

pub open spec fn wadd(a: u64, b: u64) -> u64 {
    vstd::wrapping::u64_specs::wrapping_add(a, b)
}

/// The entries the first `k` root-directory sectors of a FAT16 volume list, and whether the
/// end marker was met; `None` when a sector cannot be read.
pub open spec fn fat16_scan(blocks: BlockRegistry, device_id: u16, start_lba: u64, k: int) -> Option<(Seq<FatEntryView>, bool)>
    decreases k,
{
    if k <= 0 {
        Some((Seq::empty(), false))
    } else {
        match fat16_scan(blocks, device_id, start_lba, k - 1) {
            None => None,
            Some(prev) => if prev.1 {
                Some(prev)
            } else {
                match spec_read_sector(blocks, device_id, wadd(start_lba, (k - 1) as u64)) {
                    Err(_) => None,
                    Ok(sec) => Some((prev.0 + scan_slots(sec, 16).0, scan_slots(sec, 16).1)),
                }
            },
        }
    }
}

/// The root directory of a FAT16 volume.
pub open spec fn spec_fat16_root(blocks: BlockRegistry, p: PartitionView, bpb: BpbLayout) -> Option<Seq<FatEntryView>> {
    match fat16_scan(blocks, p.device_id, wadd(p.start_lba, bpb.root_dir_start_lba_offset as u64), bpb.root_dir_sectors as int) {
        Some(r) => Some(r.0),
        None => None,
    }
}

/// Where a partition lies.
#[derive(Copy, Clone, PartialEq, Eq, Structural, Debug)]
pub struct PartitionView {
    pub id: u16,
    pub device_id: u16,
    pub table_kind: PartitionTableKind,
    pub start_lba: u64,
}

fn read_fat16_root_entries(blocks: &BlockRegistry, p: PartitionView, bpb: &BpbLayout) -> (entries: Option<Vec<FatRootEntry>>)
    ensures
        match spec_fat16_root(*blocks, p, *bpb) {
            Some(es) => entries matches Some(v) && entry_views(v@) == es,
            None => entries is None,
        },
{
    let mut entries: Vec<FatRootEntry> = Vec::new();
    let start_lba = p.start_lba.wrapping_add(bpb.root_dir_start_lba_offset as u64);
    let mut sector = [0u8; SECTOR_BYTES];
    let mut sector_offset: u32 = 0;
    proof {
        assert(entry_views(entries@) =~= Seq::<FatEntryView>::empty());
    }
    while sector_offset < bpb.root_dir_sectors
        invariant
            sector_offset <= bpb.root_dir_sectors,
            start_lba == wadd(p.start_lba, bpb.root_dir_start_lba_offset as u64),
            fat16_scan(*blocks, p.device_id, start_lba, sector_offset as int) == Some((entry_views(entries@), false)),
        decreases bpb.root_dir_sectors - sector_offset,
    {
        match crate::block::read(blocks, p.device_id, start_lba.wrapping_add(sector_offset as u64), &mut sector) {
            Ok(()) => {},
            Err(_) => {
                proof {
                    lemma_fat16_none_sticks(*blocks, p.device_id, start_lba, sector_offset as int + 1, bpb.root_dir_sectors as int);
                }
                return None;
            },
        }
        let ended = parse_directory_sector(&sector, &mut entries);
        if ended {
            proof {
                lemma_fat16_end_sticks(*blocks, p.device_id, start_lba, sector_offset as int + 1, bpb.root_dir_sectors as int);
            }
            return Some(entries);
        }
        sector_offset = sector_offset + 1;
    }
    Some(entries)
}

proof fn lemma_fat16_none_sticks(blocks: BlockRegistry, d: u16, s: u64, k: int, n: int)
    requires
        1 <= k <= n,
        fat16_scan(blocks, d, s, k) is None,
    ensures
        fat16_scan(blocks, d, s, n) is None,
    decreases n - k,
{
    if k < n {
        lemma_fat16_none_sticks(blocks, d, s, k + 1, n);
    }
}

proof fn lemma_fat16_end_sticks(blocks: BlockRegistry, d: u16, s: u64, k: int, n: int)
    requires
        1 <= k <= n,
        fat16_scan(blocks, d, s, k) matches Some(r) && r.1,
    ensures
        fat16_scan(blocks, d, s, n) == fat16_scan(blocks, d, s, k),
    decreases n - k,
{
    if k < n {
        lemma_fat16_end_sticks(blocks, d, s, k + 1, n);
    }
}

/// The next cluster of `cluster` in the first FAT.
pub open spec fn spec_fat32_entry(blocks: BlockRegistry, p: PartitionView, bpb: BpbLayout, cluster: u32) -> Option<u32> {
    let fat_offset = cluster as int * 4;
    let lba = wadd(wadd(p.start_lba, bpb.fat_start_lba_offset as u64), (fat_offset / 512) as u64);
    match spec_read_sector(blocks, p.device_id, lba) {
        Err(_) => None,
        Ok(sec) => Some((le_u32(sec, fat_offset % 512) as u32) & 0x0fff_ffffu32),
    }
}

fn read_fat32_entry(blocks: &BlockRegistry, p: PartitionView, bpb: &BpbLayout, cluster: u32) -> (next: Option<u32>)
    ensures
        next == spec_fat32_entry(*blocks, p, *bpb, cluster),
{
    let fat_offset = (cluster as u64) * 4;
    let fat_sector_lba = p.start_lba.wrapping_add(bpb.fat_start_lba_offset as u64).wrapping_add(fat_offset / 512);
    let fat_sector_offset = (fat_offset % 512) as usize;
    let mut sector = [0u8; SECTOR_BYTES];
    match crate::block::read(blocks, p.device_id, fat_sector_lba, &mut sector) {
        Ok(()) => {},
        Err(_) => return None,
    }
    Some(get_u32_le(&sector, fat_sector_offset) & 0x0fff_ffff)
}

/// The first sector of a data cluster.
pub open spec fn cluster_lba(p: PartitionView, bpb: BpbLayout, cluster: u32) -> u64 {
    wadd(wadd(p.start_lba, bpb.first_data_sector_offset as u64), ((cluster - 2) * bpb.sectors_per_cluster) as u64)
}

/// The entries the first `k` sectors of a cluster list, and whether the end marker was met.
pub open spec fn cluster_scan(blocks: BlockRegistry, device_id: u16, lba: u64, k: int) -> Option<(Seq<FatEntryView>, bool)>
    decreases k,
{
    fat16_scan(blocks, device_id, lba, k)
}

/// The root directory of a FAT32 volume, following at most `steps` clusters from `cluster`
/// after the entries `es` already gathered.
pub open spec fn fat32_walk(blocks: BlockRegistry, p: PartitionView, bpb: BpbLayout, cluster: u32, steps: nat, es: Seq<FatEntryView>) -> Option<Seq<FatEntryView>>
    decreases steps,
{
    if steps == 0 || cluster < 2 {
        Some(es)
    } else {
        match cluster_scan(blocks, p.device_id, cluster_lba(p, bpb, cluster), bpb.sectors_per_cluster as int) {
            None => None,
            Some(r) => if r.1 {
                Some(es + r.0)
            } else {
                match spec_fat32_entry(blocks, p, bpb, cluster) {
                    None => None,
                    Some(next) => if next >= FAT32_EOC_MIN || next == FAT32_BAD_CLUSTER || next == 0 || next == cluster {
                        Some(es + r.0)
                    } else {
                        fat32_walk(blocks, p, bpb, next, (steps - 1) as nat, es + r.0)
                    },
                }
            },
        }
    }
}

/// The root directory of a FAT32 volume.
pub open spec fn spec_fat32_root(blocks: BlockRegistry, p: PartitionView, bpb: BpbLayout) -> Option<Seq<FatEntryView>> {
    fat32_walk(blocks, p, bpb, bpb.root_dir_first_cluster, MAX_FAT32_ROOT_CHAIN_STEPS as nat, Seq::empty())
}

fn read_fat32_root_entries(blocks: &BlockRegistry, p: PartitionView, bpb: &BpbLayout) -> (entries: Option<Vec<FatRootEntry>>)
    ensures
        match spec_fat32_root(*blocks, p, *bpb) {
            Some(es) => entries matches Some(v) && entry_views(v@) == es,
            None => entries is None,
        },
{
    let mut entries: Vec<FatRootEntry> = Vec::new();
    let mut sector = [0u8; SECTOR_BYTES];
    let mut cluster = bpb.root_dir_first_cluster;
    let mut visited: usize = 0;
    proof {
        assert(entry_views(entries@) =~= Seq::<FatEntryView>::empty());
    }
    while visited < MAX_FAT32_ROOT_CHAIN_STEPS
        invariant
            visited <= MAX_FAT32_ROOT_CHAIN_STEPS,
            spec_fat32_root(*blocks, p, *bpb) == fat32_walk(
                *blocks,
                p,
                *bpb,
                cluster,
                (MAX_FAT32_ROOT_CHAIN_STEPS - visited) as nat,
                entry_views(entries@),
            ),
        decreases MAX_FAT32_ROOT_CHAIN_STEPS - visited,
    {
        if cluster < 2 {
            return Some(entries);
        }
        let ghost before = entry_views(entries@);
        let base = p.start_lba.wrapping_add(bpb.first_data_sector_offset as u64);
        let c2 = (cluster - 2) as u64;
        let spc = bpb.sectors_per_cluster as u64;
        assert(c2 * spc <= 0xffff_ffff * 255) by (nonlinear_arith)
            requires
                c2 <= 0xffff_ffff,
                spc <= 255,
        ;
        let lba = base.wrapping_add(c2 * spc);
        let mut sec: u8 = 0;
        proof {
            assert(entry_views(entries@) =~= before + Seq::<FatEntryView>::empty());
        }
        while sec < bpb.sectors_per_cluster
            invariant
                sec <= bpb.sectors_per_cluster,
                visited < MAX_FAT32_ROOT_CHAIN_STEPS,
                spec_fat32_root(*blocks, p, *bpb) == fat32_walk(
                    *blocks,
                    p,
                    *bpb,
                    cluster,
                    (MAX_FAT32_ROOT_CHAIN_STEPS - visited) as nat,
                    before,
                ),
                lba == cluster_lba(p, *bpb, cluster),
                cluster >= 2,
                cluster_scan(*blocks, p.device_id, lba, sec as int) matches Some(r) && !r.1 && entry_views(entries@)
                    == before + r.0,
            decreases bpb.sectors_per_cluster - sec,
        {
            match crate::block::read(blocks, p.device_id, lba.wrapping_add(sec as u64), &mut sector) {
                Ok(()) => {},
                Err(_) => {
                    proof {
                        lemma_fat16_none_sticks(*blocks, p.device_id, lba, sec as int + 1, bpb.sectors_per_cluster as int);
                        let steps = (MAX_FAT32_ROOT_CHAIN_STEPS - visited) as nat;
                        assert(fat32_walk(*blocks, p, *bpb, cluster, steps, before) is None);
                    }
                    return None;
                },
            }
            let ghost mid = entry_views(entries@);
            let ended = parse_directory_sector(&sector, &mut entries);
            if ended {
                proof {
                    lemma_fat16_end_sticks(*blocks, p.device_id, lba, sec as int + 1, bpb.sectors_per_cluster as int);
                    let r = cluster_scan(*blocks, p.device_id, lba, sec as int + 1)->Some_0;
                    assert(entry_views(entries@) =~= before + r.0);
                    let steps = (MAX_FAT32_ROOT_CHAIN_STEPS - visited) as nat;
                    assert(fat32_walk(*blocks, p, *bpb, cluster, steps, before) == Some(before + r.0));
                }
                return Some(entries);
            }
            proof {
                let r = cluster_scan(*blocks, p.device_id, lba, sec as int + 1)->Some_0;
                assert(entry_views(entries@) =~= before + r.0);
            }
            sec = sec + 1;
        }
        let ghost r = cluster_scan(*blocks, p.device_id, lba, bpb.sectors_per_cluster as int)->Some_0;
        let ghost steps = (MAX_FAT32_ROOT_CHAIN_STEPS - visited) as nat;
        let next = match read_fat32_entry(blocks, p, bpb, cluster) {
            Some(n) => n,
            None => {
                proof {
                    assert(fat32_walk(*blocks, p, *bpb, cluster, steps, before) is None);
                }
                return None;
            },
        };
        if next >= FAT32_EOC_MIN || next == FAT32_BAD_CLUSTER || next == 0 || next == cluster {
            proof {
                assert(fat32_walk(*blocks, p, *bpb, cluster, steps, before) == Some(before + r.0));
            }
            return Some(entries);
        }
        proof {
            assert(fat32_walk(*blocks, p, *bpb, cluster, steps, before) == fat32_walk(
                *blocks,
                p,
                *bpb,
                next,
                (steps - 1) as nat,
                before + r.0,
            ));
        }
        cluster = next;
        visited = visited + 1;
    }
    Some(entries)
}

} // verus!

verus! {

// ---------------------------------------------------------------------------
// Mounting.

/// The mounted volume: its summary and root directory.
pub struct FatState {
    pub summary: FatSummary,
    pub root_entries: Vec<FatRootEntry>,
}

/// The `/fat` mount.
pub struct Fat {
    pub state: Option<FatState>,
}

impl Fat {
    pub fn new() -> (f: Self)
        ensures
            f.state is None,
    {
        Fat { state: None }
    }
}

/// Number of directories among `es`.
pub open spec fn count_directories(es: Seq<FatEntryView>) -> nat
    decreases es.len(),
{
    if es.len() == 0 {
        0
    } else {
        count_directories(es.drop_last()) + if es.last().kind == FatNodeKind::Directory { 1nat } else { 0nat }
    }
}

proof fn lemma_count_directories_bound(es: Seq<FatEntryView>)
    ensures
        count_directories(es) <= es.len(),
    decreases es.len(),
{
    if es.len() > 0 {
        lemma_count_directories_bound(es.drop_last());
    }
}

/// The root directory of the volume a boot sector describes.
pub open spec fn spec_root_of(blocks: BlockRegistry, p: PartitionView, bpb: BpbLayout) -> Option<Seq<FatEntryView>> {
    match bpb.fat_type {
        FatType::Fat16 => spec_fat16_root(blocks, p, bpb),
        FatType::Fat32 => spec_fat32_root(blocks, p, bpb),
    }
}

/// What mounting a partition finds: its layout and root directory, when its first sector is a
/// FAT16 or FAT32 boot sector and the root directory can be read.
#[verifier::opaque]
pub open spec fn spec_mount(blocks: BlockRegistry, p: PartitionView) -> Option<(BpbLayout, Seq<FatEntryView>)> {
    match spec_read_sector(blocks, p.device_id, p.start_lba) {
        Err(_) => None,
        Ok(sec) => if sec[510] != 0x55 || sec[511] != 0xAA {
            None
        } else {
            match spec_parse_bpb(sec) {
                None => None,
                Some(bpb) => match spec_root_of(blocks, p, bpb) {
                    None => None,
                    Some(es) => Some((bpb, es)),
                },
            }
        },
    }
}

/// The summary of a mounted partition.
pub open spec fn spec_mounted_summary(p: PartitionView, bpb: BpbLayout, es: Seq<FatEntryView>) -> FatSummary {
    FatSummary {
        mounted: true,
        partition_id: Some(p.id),
        device_id: Some(p.device_id),
        partition_table: Some(p.table_kind),
        fat_type: Some(bpb.fat_type),
        root_entry_count: es.len() as usize,
        directory_count: (if 1 + count_directories(es) > usize::MAX { usize::MAX as int } else { (1
            + count_directories(es)) as int }) as usize,
    }
}

fn try_mount_partition(blocks: &BlockRegistry, p: PartitionView) -> (state: Option<FatState>)
    ensures
        match spec_mount(*blocks, p) {
            None => state is None,
            Some((bpb, es)) => state matches Some(st) && entry_views(st.root_entries@) == es && st.summary
                == spec_mounted_summary(p, bpb, es),
        },
{
    proof {
        reveal(spec_mount);
    }
    let mut bpb_sector = [0u8; SECTOR_BYTES];
    match crate::block::read(blocks, p.device_id, p.start_lba, &mut bpb_sector) {
        Ok(()) => {},
        Err(_) => return None,
    }
    if bpb_sector[510] != 0x55 || bpb_sector[511] != 0xAA {
        return None;
    }
    let bpb = match parse_bpb(&bpb_sector) {
        Some(b) => b,
        None => return None,
    };
    let root_entries = match bpb.fat_type {
        FatType::Fat16 => match read_fat16_root_entries(blocks, p, &bpb) {
            Some(es) => es,
            None => return None,
        },
        FatType::Fat32 => match read_fat32_root_entries(blocks, p, &bpb) {
            Some(es) => es,
            None => return None,
        },
    };
    let ghost es = entry_views(root_entries@);
    let mut directories: usize = 0;
    let mut i: usize = 0;
    while i < root_entries.len()
        invariant
            es == entry_views(root_entries@),
            i <= es.len(),
            directories == count_directories(es.take(i as int)),
        decreases es.len() - i,
    {
        proof {
            assert(es.take(i + 1).drop_last() =~= es.take(i as int));
            lemma_count_directories_bound(es.take(i as int));
        }
        if root_entries[i].kind == FatNodeKind::Directory {
            directories = directories + 1;
        }
        i = i + 1;
    }
    proof {
        assert(es.take(es.len() as int) =~= es);
        lemma_count_directories_bound(es);
    }
    Some(
        FatState {
            summary: FatSummary {
                mounted: true,
                partition_id: Some(p.id),
                device_id: Some(p.device_id),
                partition_table: Some(p.table_kind),
                fat_type: Some(bpb.fat_type),
                root_entry_count: root_entries.len(),
                directory_count: directories.saturating_add(1),
            },
            root_entries,
        },
    )
}

/// Where a registry partition lies.
pub open spec fn view_of(p: crate::block::PartitionInfo) -> PartitionView {
    PartitionView { id: p.id, device_id: p.device_id, table_kind: p.table_kind, start_lba: p.start_lba }
}

/// Index of the first partition at or after `i` that mounts, or the number of partitions.
pub open spec fn first_mountable(blocks: BlockRegistry, i: int) -> int
    decreases blocks.partitions@.len() - i,
{
    if i < 0 || i >= blocks.partitions@.len() {
        blocks.partitions@.len() as int
    } else if spec_mount(blocks, view_of(blocks.partitions@[i])) is Some {
        i
    } else {
        first_mountable(blocks, i + 1)
    }
}

proof fn lemma_first_mountable(blocks: BlockRegistry, i: int)
    requires
        0 <= i <= blocks.partitions@.len(),
    ensures
        i <= first_mountable(blocks, i) <= blocks.partitions@.len(),
    decreases blocks.partitions@.len() - i,
{
    if i < blocks.partitions@.len() && spec_mount(blocks, view_of(blocks.partitions@[i])) is None {
        lemma_first_mountable(blocks, i + 1);
    }
}

/// Mounts the first partition of the registry that holds a FAT16 or FAT32 volume.
pub fn initialize(fat: &mut Fat, blocks: &BlockRegistry) -> (result: Result<FatSummary, FatError>)
    ensures
        old(fat).state is Some ==> result == Err::<FatSummary, FatError>(FatError::AlreadyInitialized)
            && final(fat).state == old(fat).state,
        old(fat).state is None && !blocks.initialized ==> result == Err::<FatSummary, FatError>(FatError::BlockUnavailable)
            && final(fat).state is None,
        old(fat).state is None && blocks.initialized ==> {
            let k = first_mountable(*blocks, 0);
            if k >= blocks.partitions@.len() {
                result == Err::<FatSummary, FatError>(FatError::NoFatPartition) && final(fat).state is None
            } else {
                let m = spec_mount(*blocks, view_of(blocks.partitions@[k]))->Some_0;
                &&& final(fat).state matches Some(st) && entry_views(st.root_entries@) == m.1
                    && st.summary == spec_mounted_summary(view_of(blocks.partitions@[k]), m.0, m.1)
                &&& result == Ok::<FatSummary, FatError>(spec_mounted_summary(view_of(blocks.partitions@[k]), m.0, m.1))
            }
        },
{
    if fat.state.is_some() {
        return Err(FatError::AlreadyInitialized);
    }
    if !blocks.initialized {
        return Err(FatError::BlockUnavailable);
    }
    proof {
        lemma_first_mountable(*blocks, 0);
    }
    let mut index: usize = 0;
    while index < blocks.partitions.len()
        invariant
            index <= blocks.partitions@.len(),
            first_mountable(*blocks, 0) == first_mountable(*blocks, index as int),
            fat.state is None,
            old(fat).state is None,
            blocks.initialized,
        decreases blocks.partitions@.len() - index,
    {
        let part = &blocks.partitions[index];
        let view = PartitionView { id: part.id, device_id: part.device_id, table_kind: part.table_kind, start_lba: part.start_lba };
        if let Some(state) = try_mount_partition(blocks, view) {
            let summary = state.summary;
            fat.state = Some(state);
            return Ok(summary);
        }
        index = index + 1;
    }
    Err(FatError::NoFatPartition)
}

/// Whether `/fat` is mounted.
pub fn is_initialized(fat: &Fat) -> (b: bool)
    ensures
        b == fat.state is Some,
{
    fat.state.is_some()
}

/// What is mounted under `/fat`.
pub fn summary(fat: &Fat) -> (s: FatSummary)
    ensures
        match fat.state {
            Some(st) => s == st.summary,
            None => s == spec_offline(),
        },
{
    match &fat.state {
        Some(st) => st.summary,
        None => FatSummary::offline(),
    }
}

} // verus!

verus! {

// ---------------------------------------------------------------------------
// Paths under `/fat`.

/// "/fat"
pub open spec fn fat_root() -> Seq<u8> {
    seq![0x2fu8, 0x66, 0x61, 0x74]
}

/// "/fat/"
pub open spec fn fat_root_slash() -> Seq<u8> {
    fat_root().push(0x2f)
}

/// The normal form of a path under `/fat`: the root, or the root and one name.
pub open spec fn spec_normalize_fat_path(p: Seq<u8>) -> Option<Seq<u8>> {
    let t = trim_end_byte(p, 0x2f);
    if p == fat_root() || p == fat_root_slash() {
        Some(fat_root())
    } else if !has_prefix(p, fat_root_slash()) || !has_prefix(t, fat_root_slash()) {
        None
    } else {
        let name = t.subrange(5, t.len() as int);
        if name.len() == 0 || holds_byte(name, 0x2f) {
            None
        } else {
            Some(fat_root_slash() + name)
        }
    }
}

fn normalize_fat_path(path: &[u8]) -> (n: Option<Vec<u8>>)
    ensures
        match spec_normalize_fat_path(path@) {
            Some(v) => n matches Some(x) && x@ == v,
            None => n is None,
        },
{
    let root = [0x2fu8, 0x66, 0x61, 0x74];
    let root_slash = [0x2fu8, 0x66, 0x61, 0x74, 0x2f];
    proof {
        assert(root@ =~= fat_root());
        assert(root_slash@ =~= fat_root_slash());
    }
    if bytes_eq(path, &root) || bytes_eq(path, &root_slash) {
        return Some(vstd::slice::slice_to_vec(&root));
    }
    if !starts_with(path, &root_slash) {
        return None;
    }
    let end = trim_trailing(path, 0x2f, path.len());
    let trimmed = &path[0..end];
    if !starts_with(trimmed, &root_slash) {
        return None;
    }
    let name = &trimmed[5..end];
    if name.len() == 0 || crate::bstr::contains_byte(name, 0x2f) {
        return None;
    }
    let mut normalized = vstd::slice::slice_to_vec(&root_slash);
    push_all(&mut normalized, name);
    Some(normalized)
}

/// Index of the first root entry at or after `i` named `name`, or the number of entries.
pub open spec fn find_name_from(es: Seq<FatEntryView>, name: Seq<u8>, i: int) -> int
    decreases es.len() - i,
{
    if i < 0 || i >= es.len() {
        es.len() as int
    } else if es[i].name == name {
        i
    } else {
        find_name_from(es, name, i + 1)
    }
}

proof fn lemma_find_name(es: Seq<FatEntryView>, name: Seq<u8>, i: int)
    requires
        0 <= i <= es.len(),
    ensures
        i <= find_name_from(es, name, i) <= es.len(),
    decreases es.len() - i,
{
    if i < es.len() && es[i].name != name {
        lemma_find_name(es, name, i + 1);
    }
}

fn find_root_entry(state: &FatState, name: &[u8]) -> (k: Option<usize>)
    ensures
        match k {
            Some(i) => i == find_name_from(entry_views(state.root_entries@), name@, 0) && i < state.root_entries@.len(),
            None => find_name_from(entry_views(state.root_entries@), name@, 0) == state.root_entries@.len(),
        },
{
    let ghost es = entry_views(state.root_entries@);
    proof {
        lemma_find_name(es, name@, 0);
    }
    let mut i: usize = 0;
    while i < state.root_entries.len()
        invariant
            es == entry_views(state.root_entries@),
            i <= es.len(),
            find_name_from(es, name@, 0) == find_name_from(es, name@, i as int),
        decreases es.len() - i,
    {
        if bytes_eq(state.root_entries[i].name.as_slice(), name) {
            return Some(i);
        }
        i = i + 1;
    }
    None
}

/// The listing of the root directory: one name per line.
pub open spec fn root_listing(es: Seq<FatEntryView>) -> Seq<u8>
    decreases es.len(),
{
    if es.len() == 0 {
        Seq::empty()
    } else {
        root_listing(es.drop_last()) + es.last().name.push(0x0a)
    }
}

fn render_root_entries(entries: &Vec<FatRootEntry>) -> (text: Vec<u8>)
    ensures
        text@ == root_listing(entry_views(entries@)),
{
    let ghost es = entry_views(entries@);
    let mut text: Vec<u8> = Vec::new();
    let mut i: usize = 0;
    while i < entries.len()
        invariant
            es == entry_views(entries@),
            i <= es.len(),
            text@ == root_listing(es.take(i as int)),
        decreases es.len() - i,
    {
        proof {
            assert(es.take(i + 1).drop_last() =~= es.take(i as int));
        }
        push_all(&mut text, entries[i].name.as_slice());
        text.push(0x0a);
        proof {
            assert(text@ =~= root_listing(es.take(i + 1)));
        }
        i = i + 1;
    }
    proof {
        assert(es.take(es.len() as int) =~= es);
    }
    text
}

/// What `node_info` reports for a path of a mounted volume.
pub open spec fn spec_fat_node_info(st: FatState, p: Seq<u8>) -> Option<FatNodeInfo> {
    let es = entry_views(st.root_entries@);
    match spec_normalize_fat_path(p) {
        None => None,
        Some(n) => if n == fat_root() {
            Some(FatNodeInfo { kind: FatNodeKind::Directory, size: root_listing(es).len() as usize })
        } else {
            let k = find_name_from(es, n.subrange(5, n.len() as int), 0);
            if k >= es.len() {
                None
            } else {
                Some(FatNodeInfo { kind: es[k].kind, size: es[k].size })
            }
        },
    }
}

/// Kind and size of a node under `/fat`.
pub fn node_info(fat: &Fat, path: &str) -> (info: Option<FatNodeInfo>)
    ensures
        match fat.state {
            None => info is None,
            Some(st) => info == spec_fat_node_info(st, path.spec_bytes()),
        },
{
    let state = match &fat.state {
        Some(st) => st,
        None => return None,
    };
    let normalized = match normalize_fat_path(path.as_bytes()) {
        Some(n) => n,
        None => return None,
    };
    let root = [0x2fu8, 0x66, 0x61, 0x74];
    proof {
        assert(root@ =~= fat_root());
    }
    if bytes_eq(normalized.as_slice(), &root) {
        let listing = render_root_entries(&state.root_entries);
        return Some(FatNodeInfo { kind: FatNodeKind::Directory, size: listing.len() });
    }
    proof {
        lemma_normalized_name(path.spec_bytes());
    }
    let name = &normalized.as_slice()[5..normalized.len()];
    match find_root_entry(state, name) {
        Some(k) => {
            proof {
                assert(entry_views(state.root_entries@)[k as int] == state.root_entries@[k as int]@);
            }
            Some(FatNodeInfo { kind: state.root_entries[k].kind, size: state.root_entries[k].size })
        },
        None => None,
    }
}

proof fn lemma_normalized_name(p: Seq<u8>)
    ensures
        spec_normalize_fat_path(p) matches Some(n) ==> n == fat_root() || n.len() >= 5,
{
}

/// Kind of a node under `/fat`.
pub fn node_kind(fat: &Fat, path: &str) -> (kind: Option<FatNodeKind>)
    ensures
        match fat.state {
            None => kind is None,
            Some(st) => match spec_fat_node_info(st, path.spec_bytes()) {
                Some(i) => kind == Some(i.kind),
                None => kind is None,
            },
        },
{
    match node_info(fat, path) {
        Some(i) => Some(i.kind),
        None => None,
    }
}

/// The listing of the root directory, for `/fat` itself; `None` for any other path.
pub fn read(fat: &Fat, path: &str) -> (text: Option<String>)
    ensures
        match fat.state {
            None => text is None,
            Some(st) => if spec_normalize_fat_path(path.spec_bytes()) == Some(fat_root()) {
                text matches Some(t) && t@ == lossy_utf8(root_listing(entry_views(st.root_entries@)))
            } else {
                text is None
            },
        },
{
    let state = match &fat.state {
        Some(st) => st,
        None => return None,
    };
    let normalized = match normalize_fat_path(path.as_bytes()) {
        Some(n) => n,
        None => return None,
    };
    let root = [0x2fu8, 0x66, 0x61, 0x74];
    proof {
        assert(root@ =~= fat_root());
    }
    if bytes_eq(normalized.as_slice(), &root) {
        let listing = render_root_entries(&state.root_entries);
        return Some(string_from_bytes_lossy(listing.as_slice()));
    }
    None
}

} // verus!
