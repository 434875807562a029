use vstd::prelude::*;

verus! {

pub const LOW_CANONICAL_MAX: u64 = 0x7fff_ffff_ffff;
pub const HIGH_CANONICAL_MIN: u64 = 0xffff_8000_0000_0000;
pub const MAX_COPY_BYTES: u64 = 0x10_0000;

/// Why a user-memory access was refused.
#[derive(Copy, Clone, PartialEq, Eq, Structural, Debug)]
pub enum UserCopyError {
    NullPointer,
    RangeOverflow,
    NonCanonical,
    TooLarge,
    /// The range is valid but no user memory backs it.
    Unmapped,
}

impl UserCopyError {
    /// The errno a system call reports for the error: `EFAULT`, or `ERANGE` for a too large copy.
    pub fn as_errno(self) -> (e: i64)
        ensures
            e == if self == UserCopyError::TooLarge { 34i64 } else { 14i64 },
    {
        match self {
            Self::NullPointer | Self::RangeOverflow | Self::NonCanonical | Self::Unmapped => 14,
            Self::TooLarge => 34,
        }
    }
}

pub open spec fn spec_canonical(a: u64) -> bool {
    a <= LOW_CANONICAL_MAX || a >= HIGH_CANONICAL_MIN
}

/// Whether `address` lies in the lower or the upper canonical half of the address space.
pub fn is_canonical_address(address: u64) -> (b: bool)
    ensures
        b == spec_canonical(address),
{
    address <= LOW_CANONICAL_MAX || address >= HIGH_CANONICAL_MIN
}

/// Whether a user range of `len` bytes at `start` may be copied, and why not.
pub open spec fn spec_validate(start: u64, len: u64) -> Result<(), UserCopyError> {
    if len > MAX_COPY_BYTES {
        Err(UserCopyError::TooLarge)
    } else if len == 0 {
        Ok(())
    } else if start == 0 {
        Err(UserCopyError::NullPointer)
    } else if start + (len - 1) > u64::MAX {
        Err(UserCopyError::RangeOverflow)
    } else if !spec_canonical(start) || !spec_canonical((start + (len - 1)) as u64) {
        Err(UserCopyError::NonCanonical)
    } else {
        Ok(())
    }
}

/// Checks a user range: at most a mebibyte, not at address 0, not wrapping, canonical at both ends.
pub fn validate_user_range(start: u64, len: u64) -> (r: Result<(), UserCopyError>)
    ensures
        r == spec_validate(start, len),
{
    if len > MAX_COPY_BYTES {
        return Err(UserCopyError::TooLarge);
    }
    if len == 0 {
        return Ok(());
    }
    if start == 0 {
        return Err(UserCopyError::NullPointer);
    }
    let end = match start.checked_add(len - 1) {
        Some(e) => e,
        None => return Err(UserCopyError::RangeOverflow),
    };
    if !is_canonical_address(start) || !is_canonical_address(end) {
        return Err(UserCopyError::NonCanonical);
    }
    Ok(())
}

/// The user address space of a process: the bytes mapped from `base` on.
pub struct UserMemory {
    pub base: u64,
    pub bytes: Vec<u8>,
}

/// The contents of a user address space.
pub struct MemView {
    pub base: u64,
    pub bytes: Seq<u8>,
}

impl View for UserMemory {
    type V = MemView;

    open spec fn view(&self) -> MemView {
        MemView { base: self.base, bytes: self.bytes@ }
    }
}

/// The user bytes at `[ptr, ptr + len)`, if valid and mapped.
pub open spec fn spec_copyin(mem: MemView, ptr: u64, len: u64) -> Result<Seq<u8>, UserCopyError> {
    match spec_validate(ptr, len) {
        Err(e) => Err(e),
        Ok(()) => if len == 0 {
            Ok(Seq::empty())
        } else if ptr < mem.base || ptr - mem.base + len > mem.bytes.len() {
            Err(UserCopyError::Unmapped)
        } else {
            Ok(mem.bytes.subrange(ptr - mem.base, ptr - mem.base + len))
        },
    }
}

/// Copies `destination.len()` user bytes at `user_ptr` into `destination`.
pub fn copyin(mem: &UserMemory, user_ptr: u64, destination: &mut [u8]) -> (r: Result<(), UserCopyError>)
    ensures
        final(destination)@.len() == old(destination)@.len(),
        match spec_copyin(mem@, user_ptr, old(destination)@.len() as u64) {
            Ok(b) => r is Ok && final(destination)@ == b,
            Err(e) => r == Err::<(), UserCopyError>(e) && final(destination)@ == old(destination)@,
        },
{
    let len = destination.len();
    if len as u64 > MAX_COPY_BYTES {
        return Err(UserCopyError::TooLarge);
    }
    match validate_user_range(user_ptr, len as u64) {
        Ok(()) => {},
        Err(e) => return Err(e),
    }
    if len == 0 {
        assert(destination@ =~= Seq::<u8>::empty());
        return Ok(());
    }
    let mlen = mem.bytes.len();
    if user_ptr < mem.base || (user_ptr - mem.base) as u128 + len as u128 > mlen as u128 {
        return Err(UserCopyError::Unmapped);
    }
    let offset = (user_ptr - mem.base) as usize;
    let mut i: usize = 0;
    while i < len
        invariant
            len == destination@.len(),
            mlen == mem.bytes@.len(),
            offset + len <= mlen,
            i <= len,
            forall|j: int| 0 <= j < i ==> destination@[j] == mem.bytes@[offset + j],
        decreases len - i,
    {
        destination[i] = mem.bytes[offset + i];
        i = i + 1;
    }
    assert(destination@ =~= mem.bytes@.subrange(offset as int, offset + len));
    Ok(())
}

/// Where `len` bytes written at `ptr` land, if valid and mapped.
pub open spec fn spec_copyout_target(mem: MemView, ptr: u64, len: u64) -> Result<int, UserCopyError> {
    match spec_validate(ptr, len) {
        Err(e) => Err(e),
        Ok(()) => if len == 0 {
            Ok(0)
        } else if ptr < mem.base || ptr - mem.base + len > mem.bytes.len() {
            Err(UserCopyError::Unmapped)
        } else {
            Ok(ptr - mem.base)
        },
    }
}

/// The address space once `data` is written at `ptr`, if the range is valid and mapped.
pub open spec fn spec_copyout(mem: MemView, ptr: u64, data: Seq<u8>) -> Result<MemView, UserCopyError> {
    if data.len() > MAX_COPY_BYTES {
        Err(UserCopyError::TooLarge)
    } else {
        spec_copyout_in_range(mem, ptr, data)
    }
}

/// The address space once `data`, of a size a copy may have, is written at `ptr`.
pub open spec fn spec_copyout_in_range(mem: MemView, ptr: u64, data: Seq<u8>) -> Result<MemView, UserCopyError> {
    match spec_copyout_target(mem, ptr, data.len() as u64) {
        Err(e) => Err(e),
        Ok(o) => Ok(
            MemView {
                base: mem.base,
                bytes: if data.len() == 0 {
                    mem.bytes
                } else {
                    mem.bytes.subrange(0, o) + data + mem.bytes.subrange(o + data.len(), mem.bytes.len() as int)
                },
            },
        ),
    }
}

/// Copies `source` to user memory at `user_ptr`.
pub fn copyout(mem: &mut UserMemory, source: &[u8], user_ptr: u64) -> (r: Result<(), UserCopyError>)
    ensures
        final(mem).base == old(mem).base,
        match spec_copyout(old(mem)@, user_ptr, source@) {
            Ok(m) => r is Ok && final(mem)@ == m,
            Err(e) => r == Err::<(), UserCopyError>(e) && final(mem)@ == old(mem)@,
        },
{
    let len = source.len();
    if len as u64 > MAX_COPY_BYTES {
        return Err(UserCopyError::TooLarge);
    }
    match validate_user_range(user_ptr, len as u64) {
        Ok(()) => {},
        Err(e) => return Err(e),
    }
    if len == 0 {
        return Ok(());
    }
    let mlen = mem.bytes.len();
    if user_ptr < mem.base || (user_ptr - mem.base) as u128 + len as u128 > mlen as u128 {
        return Err(UserCopyError::Unmapped);
    }
    let offset = (user_ptr - mem.base) as usize;
    let ghost old_bytes = mem.bytes@;
    let mut i: usize = 0;
    while i < len
        invariant
            len == source@.len(),
            mlen == mem.bytes@.len(),
            mlen == old_bytes.len(),
            offset + len <= mlen,
            i <= len,
            mem.base == old(mem).base,
            old_bytes == old(mem).bytes@,
            forall|j: int| 0 <= j < offset ==> mem.bytes@[j] == old_bytes[j],
            forall|j: int| 0 <= j < i ==> mem.bytes@[offset + j] == source@[j],
            forall|j: int| offset + i <= j < mlen ==> mem.bytes@[j] == old_bytes[j],
        decreases len - i,
    {
        mem.bytes.set(offset + i, source[i]);
        i = i + 1;
    }
    assert(mem.bytes@ =~= old_bytes.subrange(0, offset as int) + source@ + old_bytes.subrange(offset + len, mlen as int));
    Ok(())
}

/// The page size of anonymous mappings.
pub const MAP_PAGE_SIZE: u64 = 4096;

/// The address space with `len` zero bytes mapped after its end, rounded up to a page,
/// and the address of the new region; `None` when the addresses would not fit.
pub open spec fn spec_map_zeroed(mem: MemView, len: u64) -> Option<(u64, MemView)> {
    let start = ((mem.bytes.len() + MAP_PAGE_SIZE - 1) / (MAP_PAGE_SIZE as int)) * MAP_PAGE_SIZE;
    if start + len > usize::MAX || mem.base + start + len > u64::MAX {
        None
    } else {
        Some(
            (
                (mem.base + start) as u64,
                MemView { base: mem.base, bytes: mem.bytes + Seq::new((start + len - mem.bytes.len()) as nat, |i: int| 0u8) },
            ),
        )
    }
}

/// Maps `len` zero bytes after the end of the address space, starting at a page boundary
/// relative to its base, and returns their address.
pub fn map_zeroed(mem: &mut UserMemory, len: u64) -> (r: Option<u64>)
    ensures
        match spec_map_zeroed(old(mem)@, len) {
            None => r is None && final(mem)@ == old(mem)@,
            Some((a, m)) => r == Some(a) && final(mem)@ == m,
        },
{
    let n = mem.bytes.len();
    let pad = (MAP_PAGE_SIZE - (n as u64) % MAP_PAGE_SIZE) % MAP_PAGE_SIZE;
    proof {
        let start = ((n + MAP_PAGE_SIZE - 1) / (MAP_PAGE_SIZE as int)) * MAP_PAGE_SIZE;
        assert(start == n + pad) by (nonlinear_arith)
            requires
                pad == (4096 - n % 4096) % 4096,
                start == ((n + 4096 - 1) / 4096) * 4096,
                n >= 0,
        ;
    }
    if (n as u64) > u64::MAX - pad || (n as u64 + pad) > u64::MAX - len {
        return None;
    }
    let start = n as u64 + pad;
    if start + len > usize::MAX as u64 || mem.base > u64::MAX - (start + len) {
        return None;
    }
    let total = (start + len) as usize;
    let ghost old_bytes = mem.bytes@;
    while mem.bytes.len() < total
        invariant
            n <= mem.bytes@.len() <= total,
            mem.base == old(mem).base,
            old_bytes == old(mem).bytes@,
            mem.bytes@.subrange(0, n as int) == old_bytes,
            forall|j: int| n <= j < mem.bytes@.len() ==> mem.bytes@[j] == 0u8,
            old_bytes.len() == n,
        decreases total - mem.bytes@.len(),
    {
        mem.bytes.push(0);
        assert(mem.bytes@.subrange(0, n as int) =~= old_bytes) by {
            assert forall|j: int| 0 <= j < n implies mem.bytes@[j] == old_bytes[j] by {
                assert(mem.bytes@[j] == mem.bytes@.drop_last()[j]);
            }
        }
    }
    assert(mem.bytes@ =~= old_bytes + Seq::new((start + len - n) as nat, |i: int| 0u8));
    Some(mem.base + start)
}

/// A copy out keeps the base and the size of the address space.
pub broadcast proof fn lemma_copyout_shape(mem: MemView, ptr: u64, data: Seq<u8>)
    ensures
        #[trigger] spec_copyout(mem, ptr, data) matches Ok(n) ==> n.base == mem.base && n.bytes.len() == mem.bytes.len(),
{
    if let Ok(n) = spec_copyout(mem, ptr, data) {
        if data.len() > 0 {
            let o = ptr - mem.base;
            assert(o + data.len() <= mem.bytes.len());
        }
    }
}

/// After a copy out, the bytes written read back, and every byte outside them is as it was.
pub proof fn lemma_copyout_bytes(mem: MemView, ptr: u64, data: Seq<u8>)
    ensures
        spec_copyout(mem, ptr, data) matches Ok(n) ==> {
            &&& forall|k: int| 0 <= k < data.len() ==> #[trigger] n.bytes[ptr - mem.base + k] == data[k]
            &&& forall|k: int|
                0 <= k < mem.bytes.len() && !(ptr - mem.base <= k < ptr - mem.base + data.len()) ==> #[trigger] n.bytes[k]
                    == mem.bytes[k]
        },
{
    if let Ok(n) = spec_copyout(mem, ptr, data) {
        if data.len() > 0 {
            let o = ptr - mem.base;
            assert(o + data.len() <= mem.bytes.len());
        }
    }
}

} // verus!
