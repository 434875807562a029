use vstd::prelude::*;

verus! {

/// The kind of a physical memory region reported by the boot loader.
#[derive(Copy, Clone, PartialEq, Eq, Structural, Debug)]
pub enum MemoryMapEntryType {
    Usable,
    Reserved,
    AcpiReclaimable,
    AcpiNvs,
    BadMemory,
    BootloaderReclaimable,
    ExecutableAndModules,
    Framebuffer,
    Unknown(u64),
}

/// The region type a raw Limine memory-map type value names.
pub open spec fn spec_memory_map_entry_type(raw: u64) -> MemoryMapEntryType {
    if raw == 0 {
        MemoryMapEntryType::Usable
    } else if raw == 1 {
        MemoryMapEntryType::Reserved
    } else if raw == 2 {
        MemoryMapEntryType::AcpiReclaimable
    } else if raw == 3 {
        MemoryMapEntryType::AcpiNvs
    } else if raw == 4 {
        MemoryMapEntryType::BadMemory
    } else if raw == 5 {
        MemoryMapEntryType::BootloaderReclaimable
    } else if raw == 6 {
        MemoryMapEntryType::ExecutableAndModules
    } else if raw == 7 {
        MemoryMapEntryType::Framebuffer
    } else {
        MemoryMapEntryType::Unknown(raw)
    }
}

impl MemoryMapEntryType {
    /// The region type a raw Limine memory-map type value names.
    pub fn from_raw(raw: u64) -> (t: Self)
        ensures
            t == spec_memory_map_entry_type(raw),
    {
        match raw {
            0 => Self::Usable,
            1 => Self::Reserved,
            2 => Self::AcpiReclaimable,
            3 => Self::AcpiNvs,
            4 => Self::BadMemory,
            5 => Self::BootloaderReclaimable,
            6 => Self::ExecutableAndModules,
            7 => Self::Framebuffer,
            other => Self::Unknown(other),
        }
    }
}

/// One region of the physical memory map.
#[derive(Copy, Clone, PartialEq, Eq, Structural, Debug)]
pub struct MemoryMapEntry {
    pub base: u64,
    pub length: u64,
    pub entry_type: MemoryMapEntryType,
}

impl MemoryMapEntry {
    pub fn is_usable(self) -> (b: bool)
        ensures
            b == (self.entry_type == MemoryMapEntryType::Usable),
    {
        self.entry_type == MemoryMapEntryType::Usable
    }
}

/// The physical memory map handed over by the boot loader.
pub struct MemoryMap {
    pub entries: Vec<MemoryMapEntry>,
}

impl MemoryMap {
    pub fn len(&self) -> (n: usize)
        ensures
            n == self.entries@.len(),
    {
        self.entries.len()
    }

    pub fn is_empty(&self) -> (b: bool)
        ensures
            b == (self.entries@.len() == 0),
    {
        self.len() == 0
    }
}

/// A file the boot loader loaded next to the kernel: its path, its command-line string and its bytes.
pub struct Module {
    pub path: Option<Vec<u8>>,
    pub string: Option<Vec<u8>>,
    pub data: Vec<u8>,
}

impl Module {
    pub fn size(&self) -> (n: usize)
        ensures
            n == self.data@.len(),
    {
        self.data.len()
    }

    pub fn bytes(&self) -> (b: &[u8])
        ensures
            b@ == self.data@,
    {
        self.data.as_slice()
    }
}

/// The modules the boot loader loaded.
pub struct ModuleList {
    pub modules: Vec<Module>,
}

impl ModuleList {
    pub fn len(&self) -> (n: usize)
        ensures
            n == self.modules@.len(),
    {
        self.modules.len()
    }

    pub fn is_empty(&self) -> (b: bool)
        ensures
            b == (self.modules@.len() == 0),
    {
        self.len() == 0
    }
}

/// The first framebuffer the boot loader set up.
#[derive(Copy, Clone, PartialEq, Eq, Structural, Debug)]
pub struct Framebuffer {
    pub width: u64,
    pub height: u64,
    pub pitch: u64,
    pub bpp: u16,
    pub memory_model: u8,
    pub red_mask_size: u8,
    pub red_mask_shift: u8,
    pub green_mask_size: u8,
    pub green_mask_shift: u8,
    pub blue_mask_size: u8,
    pub blue_mask_shift: u8,
}

} // verus!
