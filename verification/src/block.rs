use vstd::prelude::*;

verus! {

/// Size of one disk sector.
pub const SECTOR_BYTES: usize = 512;

/// The partition table a partition was found in.
#[derive(Copy, Clone, PartialEq, Eq, Structural, Debug)]
pub enum PartitionTableKind {
    Mbr,
    Gpt,
}

impl PartitionTableKind {
    pub fn as_str(self) -> (s: &'static str)
        ensures
            s@ == spec_table_kind_text(self),
    {
        match self {
            Self::Mbr => "mbr",
            Self::Gpt => "gpt",
        }
    }
}

pub open spec fn spec_table_kind_text(k: PartitionTableKind) -> Seq<char> {
    match k {
        PartitionTableKind::Mbr => "mbr"@,
        PartitionTableKind::Gpt => "gpt"@,
    }
}

/// A disk found by a block driver.
pub struct BlockDeviceInfo {
    pub id: u16,
    pub driver_name: Vec<u8>,
    pub driver_kind: Vec<u8>,
    pub name: Vec<u8>,
    pub read_only: bool,
    pub sector_size: u64,
    pub sector_count: u64,
    pub size_bytes: u64,
    /// The disk's contents, sector after sector.
    pub media: Vec<u8>,
}

/// A partition of a disk.
pub struct PartitionInfo {
    pub id: u16,
    pub device_id: u16,
    pub table_kind: PartitionTableKind,
    pub start_lba: u64,
    pub sector_count: u64,
    pub mbr_index: u8,
    pub partition_type: u8,
    pub bootable: bool,
    pub gpt_index: u32,
    pub gpt_type_guid: [u8; 16],
    pub gpt_partition_guid: [u8; 16],
}

/// Totals the block layer reports about its disks.
#[derive(Copy, Clone, PartialEq, Eq, Structural, Debug)]
pub struct BlockSummary {
    pub driver_count: usize,
    pub total_bytes: u64,
    pub mbr_device_count: usize,
    pub gpt_device_count: usize,
}

/// Read counters of the block layer.
#[derive(Copy, Clone, PartialEq, Eq, Structural, Debug)]
pub struct BlockStats {
    pub read_requests: u64,
    pub read_sectors: u64,
    pub read_bytes: u64,
    pub read_failures: u64,
}

/// The disks and partitions known to the kernel.
pub struct BlockRegistry {
    pub initialized: bool,
    pub devices: Vec<BlockDeviceInfo>,
    pub partitions: Vec<PartitionInfo>,
    pub summary: BlockSummary,
    pub stats: BlockStats,
}

impl BlockRegistry {
    /// A registry with no disk, before the block layer starts.
    pub fn new() -> (r: Self)
        ensures
            !r.initialized,
            r.devices@.len() == 0,
            r.partitions@.len() == 0,
    {
        BlockRegistry {
            initialized: false,
            devices: Vec::new(),
            partitions: Vec::new(),
            summary: BlockSummary { driver_count: 0, total_bytes: 0, mbr_device_count: 0, gpt_device_count: 0 },
            stats: BlockStats { read_requests: 0, read_sectors: 0, read_bytes: 0, read_failures: 0 },
        }
    }
}

/// Why a sector could not be read.
#[derive(Copy, Clone, PartialEq, Eq, Structural, Debug)]
pub enum BlockError {
    NotInitialized,
    NoSuchDevice,
    OutOfRange,
}

/// Index of the first disk with id `id` at or after `i`, or the number of disks.
pub open spec fn device_index_from(ds: Seq<BlockDeviceInfo>, id: u16, i: int) -> int
    decreases ds.len() - i,
{
    if i < 0 || i >= ds.len() {
        ds.len() as int
    } else if ds[i].id == id {
        i
    } else {
        device_index_from(ds, id, i + 1)
    }
}

proof fn lemma_device_index(ds: Seq<BlockDeviceInfo>, id: u16, i: int)
    requires
        0 <= i <= ds.len(),
    ensures
        i <= device_index_from(ds, id, i) <= ds.len(),
    decreases ds.len() - i,
{
    if i < ds.len() && ds[i].id != id {
        lemma_device_index(ds, id, i + 1);
    }
}

/// The sector at `lba` of the disk with id `device_id`, if the registry can read it.
pub open spec fn spec_read_sector(blocks: BlockRegistry, device_id: u16, lba: u64) -> Result<Seq<u8>, BlockError> {
    let k = device_index_from(blocks.devices@, device_id, 0);
    if !blocks.initialized {
        Err(BlockError::NotInitialized)
    } else if k >= blocks.devices@.len() {
        Err(BlockError::NoSuchDevice)
    } else {
        let media = blocks.devices@[k].media@;
        if lba * 512 + 512 > media.len() {
            Err(BlockError::OutOfRange)
        } else {
            Ok(media.subrange(lba * 512, lba * 512 + 512))
        }
    }
}

/// Reads one sector of a disk into `out`.
pub fn read(blocks: &BlockRegistry, device_id: u16, lba: u64, out: &mut [u8; SECTOR_BYTES]) -> (result: Result<(), BlockError>)
    ensures
        match spec_read_sector(*blocks, device_id, lba) {
            Ok(s) => result is Ok && final(out)@ == s,
            Err(e) => result == Err::<(), BlockError>(e) && final(out)@ == old(out)@,
        },
{
    if !blocks.initialized {
        return Err(BlockError::NotInitialized);
    }
    proof {
        lemma_device_index(blocks.devices@, device_id, 0);
    }
    let mut k: usize = 0;
    while k < blocks.devices.len()
        invariant
            k <= blocks.devices@.len(),
            device_index_from(blocks.devices@, device_id, 0) == device_index_from(blocks.devices@, device_id, k as int),
        ensures
            k == device_index_from(blocks.devices@, device_id, 0),
        decreases blocks.devices@.len() - k,
    {
        if blocks.devices[k].id == device_id {
            break;
        }
        k = k + 1;
    }
    if k >= blocks.devices.len() {
        return Err(BlockError::NoSuchDevice);
    }
    let media = blocks.devices[k].media.as_slice();
    let len = media.len() as u64;
    if lba >= len / 512 {
        proof {
            assert(lba * 512 + 512 > len) by (nonlinear_arith)
                requires
                    lba >= len / 512,
            ;
        }
        return Err(BlockError::OutOfRange);
    }
    proof {
        assert(lba * 512 + 512 <= len) by (nonlinear_arith)
            requires
                lba < len / 512,
        ;
    }
    let start = (lba * 512) as usize;
    let mlen = media.len();
    let mut i: usize = 0;
    while i < SECTOR_BYTES
        invariant
            mlen == media@.len(),
            i <= SECTOR_BYTES,
            out@.len() == SECTOR_BYTES,
            start + 512 <= media@.len(),
            forall|j: int| 0 <= j < i ==> out@[j] == media@[start + j],
        decreases SECTOR_BYTES - i,
    {
        out[i] = media[start + i];
        i = i + 1;
    }
    assert(out@ =~= media@.subrange(start as int, start + 512));
    Ok(())
}

} // verus!
