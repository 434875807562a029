use vstd::prelude::*;

verus! {

/// FNV-1a 32-bit offset basis.
pub const FNV1A32_OFFSET_BASIS: u32 = 0x811c_9dc5;

/// FNV-1a 32-bit prime.
pub const FNV1A32_PRIME: u32 = 0x0100_0193;

/// One FNV-1a step: xor the byte in, then multiply by the prime modulo 2^32.
pub open spec fn fnv1a32_step(hash: u32, byte: u8) -> u32 {
    ((hash ^ (byte as u32)) as int * FNV1A32_PRIME as int % 0x1_0000_0000) as u32
}

/// FNV-1a 32-bit hash of a byte sequence, folding from the left.
pub open spec fn spec_fnv1a32(bytes: Seq<u8>) -> u32
    decreases bytes.len(),
{
    if bytes.len() == 0 {
        FNV1A32_OFFSET_BASIS
    } else {
        fnv1a32_step(spec_fnv1a32(bytes.drop_last()), bytes.last())
    }
}

/// Computes the FNV-1a 32-bit checksum of `bytes`.
pub fn fnv1a32(bytes: &[u8]) -> (hash: u32)
    ensures
        hash == spec_fnv1a32(bytes@),
{
    let mut hash: u32 = FNV1A32_OFFSET_BASIS;
    let mut index: usize = 0;
    while index < bytes.len()
        invariant
            index <= bytes.len(),
            hash == spec_fnv1a32(bytes@.subrange(0, index as int)),
        decreases bytes.len() - index,
    {
        let byte = bytes[index];
        proof {
            let next = bytes@.subrange(0, index + 1);
            assert(next.drop_last() =~= bytes@.subrange(0, index as int));
        }
        hash = (hash ^ (byte as u32)).wrapping_mul(FNV1A32_PRIME);
        index = index + 1;
    }
    proof {
        assert(bytes@.subrange(0, bytes@.len() as int) =~= bytes@);
    }
    hash
}

} // verus!
