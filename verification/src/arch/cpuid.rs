use vstd::prelude::*;

use crate::le::{u32_le_bytes, write_u32_le};

verus! {

/// The four registers one `cpuid` leaf returns.
#[derive(Copy, Clone, PartialEq, Eq, Structural, Debug)]
pub struct CpuidResult {
    pub eax: u32,
    pub ebx: u32,
    pub ecx: u32,
    pub edx: u32,
}

/// Who made the processor.
#[derive(Copy, Clone, PartialEq, Eq, Structural, Debug)]
pub enum CpuVendor {
    Intel,
    Amd,
    Unknown,
}

impl CpuVendor {
    pub fn as_str(self) -> (s: &'static str)
        ensures
            s@ == spec_vendor_text(self),
    {
        match self {
            Self::Intel => "intel",
            Self::Amd => "amd",
            Self::Unknown => "unknown",
        }
    }
}

pub open spec fn spec_vendor_text(v: CpuVendor) -> Seq<char> {
    match v {
        CpuVendor::Intel => "intel"@,
        CpuVendor::Amd => "amd"@,
        CpuVendor::Unknown => "unknown"@,
    }
}

/// What `cpuid` says about the processor's identity.
#[derive(Copy, Clone, Debug)]
pub struct CpuIdentity {
    pub vendor: CpuVendor,
    pub vendor_id: [u8; 12],
    pub brand: [u8; 48],
    pub max_basic_leaf: u32,
    pub max_extended_leaf: u32,
    pub hypervisor_present: bool,
}

/// "GenuineIntel"
pub open spec fn vendor_intel() -> Seq<u8> {
    seq![0x47u8, 0x65, 0x6e, 0x75, 0x69, 0x6e, 0x65, 0x49, 0x6e, 0x74, 0x65, 0x6c]
}

/// "AuthenticAMD"
pub open spec fn vendor_amd() -> Seq<u8> {
    seq![0x41u8, 0x75, 0x74, 0x68, 0x65, 0x6e, 0x74, 0x69, 0x63, 0x41, 0x4d, 0x44]
}

/// The vendor string of leaf 0: `ebx`, `edx`, `ecx`, each little-endian.
pub open spec fn spec_vendor_id(leaf0: CpuidResult) -> Seq<u8> {
    u32_le_bytes(leaf0.ebx) + u32_le_bytes(leaf0.edx) + u32_le_bytes(leaf0.ecx)
}

/// The vendor a vendor string names.
pub open spec fn spec_vendor(id: Seq<u8>) -> CpuVendor {
    if id == vendor_intel() {
        CpuVendor::Intel
    } else if id == vendor_amd() {
        CpuVendor::Amd
    } else {
        CpuVendor::Unknown
    }
}

/// The registers of one brand leaf, in `eax`, `ebx`, `ecx`, `edx` order, little-endian.
pub open spec fn leaf_bytes(r: CpuidResult) -> Seq<u8> {
    u32_le_bytes(r.eax) + u32_le_bytes(r.ebx) + u32_le_bytes(r.ecx) + u32_le_bytes(r.edx)
}

/// The brand string: leaves `0x8000_0002..=0x8000_0004` when the processor has them, else zeros.
pub open spec fn spec_brand(max_extended_leaf: u32, brand_leaves: [CpuidResult; 3]) -> Seq<u8> {
    if max_extended_leaf >= 0x8000_0004 {
        leaf_bytes(brand_leaves@[0]) + leaf_bytes(brand_leaves@[1]) + leaf_bytes(brand_leaves@[2])
    } else {
        Seq::new(48, |i: int| 0u8)
    }
}

fn put_u32(out: &mut [u8; 48], offset: usize, value: u32)
    requires
        offset + 4 <= 48,
    ensures
        final(out)@ == old(out)@.subrange(0, offset as int) + u32_le_bytes(value) + old(out)@.subrange(
            offset + 4,
            48,
        ),
{
    let b = write_u32_le(value);
    out[offset] = b[0];
    out[offset + 1] = b[1];
    out[offset + 2] = b[2];
    out[offset + 3] = b[3];
    assert(final(out)@ =~= old(out)@.subrange(0, offset as int) + u32_le_bytes(value) + old(out)@.subrange(
        offset + 4,
        48,
    ));
}

/// The identity of the processor from the raw leaves: leaf 0, leaf `0x8000_0000`, leaf 1 and
/// the three brand leaves.
pub fn read_identity(leaf0: CpuidResult, extended0: CpuidResult, leaf1: CpuidResult, brand_leaves: [CpuidResult; 3]) -> (id: CpuIdentity)
    ensures
        id.vendor_id@ == spec_vendor_id(leaf0),
        id.vendor == spec_vendor(spec_vendor_id(leaf0)),
        id.max_basic_leaf == leaf0.eax,
        id.max_extended_leaf == extended0.eax,
        id.hypervisor_present == (leaf1.ecx & 0x8000_0000 != 0),
        id.brand@ == spec_brand(extended0.eax, brand_leaves),
{
    let ebx = write_u32_le(leaf0.ebx);
    let edx = write_u32_le(leaf0.edx);
    let ecx = write_u32_le(leaf0.ecx);
    let vendor_id = [ebx[0], ebx[1], ebx[2], ebx[3], edx[0], edx[1], edx[2], edx[3], ecx[0], ecx[1], ecx[2], ecx[3]];
    assert(vendor_id@ =~= spec_vendor_id(leaf0));
    let intel = [0x47u8, 0x65, 0x6e, 0x75, 0x69, 0x6e, 0x65, 0x49, 0x6e, 0x74, 0x65, 0x6c];
    let amd = [0x41u8, 0x75, 0x74, 0x68, 0x65, 0x6e, 0x74, 0x69, 0x63, 0x41, 0x4d, 0x44];
    assert(intel@ =~= vendor_intel());
    assert(amd@ =~= vendor_amd());
    let vendor = if crate::bstr::bytes_eq(&vendor_id, &intel) {
        CpuVendor::Intel
    } else if crate::bstr::bytes_eq(&vendor_id, &amd) {
        CpuVendor::Amd
    } else {
        CpuVendor::Unknown
    };
    let max_extended_leaf = extended0.eax;
    let hypervisor_present = (leaf1.ecx & 0x8000_0000) != 0;
    let mut brand = [0u8; 48];
    if max_extended_leaf >= 0x8000_0004 {
        let mut index: usize = 0;
        while index < 3
            invariant
                index <= 3,
                brand@.len() == 48,
                forall|k: int| 0 <= k < index ==> brand@.subrange(16 * k, 16 * k + 16) == #[trigger] leaf_bytes(brand_leaves@[k]),
            decreases 3 - index,
        {
            let leaf = brand_leaves[index];
            let offset = index * 16;
            let ghost before = brand@;
            put_u32(&mut brand, offset, leaf.eax);
            put_u32(&mut brand, offset + 4, leaf.ebx);
            put_u32(&mut brand, offset + 8, leaf.ecx);
            put_u32(&mut brand, offset + 12, leaf.edx);
            proof {
                assert(brand@.subrange(16 * index as int, 16 * index as int + 16) =~= leaf_bytes(leaf));
                assert forall|k: int| 0 <= k < index + 1 implies brand@.subrange(16 * k, 16 * k + 16) == #[trigger] leaf_bytes(
                    brand_leaves@[k],
                ) by {
                    if k < index {
                        assert(brand@.subrange(16 * k, 16 * k + 16) =~= before.subrange(16 * k, 16 * k + 16));
                    }
                }
            }
            index = index + 1;
        }
        proof {
            assert(brand@ =~= brand@.subrange(0, 16) + brand@.subrange(16, 32) + brand@.subrange(32, 48));
        }
    } else {
        assert(brand@ =~= Seq::new(48, |i: int| 0u8));
    }
    CpuIdentity {
        vendor,
        vendor_id,
        brand,
        max_basic_leaf: leaf0.eax,
        max_extended_leaf,
        hypervisor_present,
    }
}

} // verus!
