use vstd::prelude::*;
use vstd::utf8::valid_utf8;

use crate::arch::cpuid::{CpuIdentity, CpuVendor, CpuidResult};
use crate::bstr::{trim_bounds, trim_end_to, trim_start_from, trimmed};
use crate::text::{all_ascii, ascii_chars, is_valid_utf8, lossy_utf8, string_from_bytes_lossy};

verus! {

/// What the kernel knows about the boot processor.
#[derive(Copy, Clone, Debug)]
pub struct CpuInfo {
    pub vendor: CpuVendor,
    pub vendor_id: [u8; 12],
    pub brand: [u8; 48],
    pub max_basic_leaf: u32,
    pub max_extended_leaf: u32,
    pub hypervisor_present: bool,
    pub local_apic_supported: bool,
    pub x2apic_supported: bool,
    pub tsc_deadline_supported: bool,
    pub invariant_tsc_supported: bool,
    pub nx_supported: bool,
    pub initial_apic_id: u32,
    pub apic_base: u64,
    pub apic_global_enabled: bool,
    pub x2apic_enabled: bool,
    pub bootstrap_processor: bool,
}

/// Index one past the last non-zero byte of `s[..n]`, or 0.
pub open spec fn last_nonzero_end(s: Seq<u8>, n: int) -> int
    decreases n,
{
    if n <= 0 || n > s.len() {
        0
    } else if s[n - 1] != 0 {
        n
    } else {
        last_nonzero_end(s, n - 1)
    }
}

/// The brand text: the bytes up to the last non-zero one, when they are UTF-8, trimmed; `None` when empty.
pub open spec fn spec_brand_text(brand: Seq<u8>) -> Option<Seq<u8>> {
    let end = last_nonzero_end(brand, brand.len() as int);
    if end == 0 || !valid_utf8(brand.subrange(0, end)) {
        None
    } else {
        let t = trimmed(brand.subrange(0, end));
        if t.len() == 0 { None } else { Some(t) }
    }
}

proof fn lemma_last_nonzero_bounds(s: Seq<u8>, n: int)
    requires
        0 <= n <= s.len(),
    ensures
        0 <= last_nonzero_end(s, n) <= n,
    decreases n,
{
    if n > 0 && s[n - 1] == 0 {
        lemma_last_nonzero_bounds(s, n - 1);
    }
}

impl CpuInfo {
    /// The vendor string, or `unknown` when it is not UTF-8.
    pub fn vendor_str(&self) -> (s: String)
        ensures
            valid_utf8(self.vendor_id@) ==> s@ == lossy_utf8(self.vendor_id@),
            !valid_utf8(self.vendor_id@) ==> s@ == lossy_utf8(seq![0x75u8, 0x6e, 0x6b, 0x6e, 0x6f, 0x77, 0x6e]),
            valid_utf8(self.vendor_id@) && all_ascii(self.vendor_id@) ==> s@ == ascii_chars(self.vendor_id@),
            !valid_utf8(self.vendor_id@) ==> s@ == ascii_chars(seq![0x75u8, 0x6e, 0x6b, 0x6e, 0x6f, 0x77, 0x6e]),
    {
        if is_valid_utf8(&self.vendor_id) {
            string_from_bytes_lossy(&self.vendor_id)
        } else {
            let unknown = [0x75u8, 0x6e, 0x6b, 0x6e, 0x6f, 0x77, 0x6e];
            assert(unknown@ =~= seq![0x75u8, 0x6e, 0x6b, 0x6e, 0x6f, 0x77, 0x6e]);
            string_from_bytes_lossy(&unknown)
        }
    }

    /// The brand bytes, trimmed, when there are any and they are UTF-8.
    pub fn brand_bytes(&self) -> (b: Option<Vec<u8>>)
        ensures
            match spec_brand_text(self.brand@) {
                Some(t) => b matches Some(v) && v@ == t,
                None => b is None,
            },
    {
        let mut end: usize = 48;
        proof {
            lemma_last_nonzero_bounds(self.brand@, 48);
        }
        while end > 0
            invariant
                end <= 48,
                self.brand@.len() == 48,
                last_nonzero_end(self.brand@, 48) == last_nonzero_end(self.brand@, end as int),
            ensures
                end == last_nonzero_end(self.brand@, 48),
            decreases end,
        {
            if self.brand[end - 1] != 0 {
                break;
            }
            end = end - 1;
        }
        if end == 0 {
            return None;
        }
        let text = &self.brand.as_slice()[0..end];
        if !is_valid_utf8(text) {
            return None;
        }
        let (a, e) = trim_bounds(text);
        if a == e {
            return None;
        }
        Some(vstd::slice::slice_to_vec(&text[a..e]))
    }

    /// The brand string, trimmed, when there is one.
    pub fn brand_str(&self) -> (s: Option<String>)
        ensures
            match spec_brand_text(self.brand@) {
                Some(t) => s matches Some(x) && x@ == lossy_utf8(t) && (all_ascii(t) ==> x@ == ascii_chars(t)),
                None => s is None,
            },
    {
        match self.brand_bytes() {
            Some(b) => Some(string_from_bytes_lossy(b.as_slice())),
            None => None,
        }
    }
}

/// What the boot processor supports, from its identity, the raw `cpuid` leaves 1,
/// `0x8000_0007` and `0x8000_0001`, and the APIC base MSR (0 when there is no local APIC).
pub fn probe(identity: &CpuIdentity, leaf1: CpuidResult, leaf_80000007: CpuidResult, leaf_80000001: CpuidResult, apic_base_msr: u64) -> (info: CpuInfo)
    ensures
        info.vendor == identity.vendor,
        info.vendor_id == identity.vendor_id,
        info.brand == identity.brand,
        info.max_basic_leaf == identity.max_basic_leaf,
        info.max_extended_leaf == identity.max_extended_leaf,
        info.hypervisor_present == identity.hypervisor_present,
        info.local_apic_supported == (leaf1.edx & 0x200 != 0),
        info.x2apic_supported == (leaf1.ecx & 0x20_0000 != 0),
        info.tsc_deadline_supported == (leaf1.ecx & 0x100_0000 != 0),
        info.initial_apic_id == (leaf1.ebx >> 24) & 0xff,
        info.invariant_tsc_supported == (identity.max_extended_leaf >= 0x8000_0007 && leaf_80000007.edx & 0x100 != 0),
        info.nx_supported == (identity.max_extended_leaf >= 0x8000_0001 && leaf_80000001.edx & 0x10_0000 != 0),
        ({
            let msr = if leaf1.edx & 0x200 != 0 { apic_base_msr } else { 0 };
            &&& info.apic_base == msr & 0xffff_f000
            &&& info.apic_global_enabled == (msr & 0x800 != 0)
            &&& info.x2apic_enabled == (msr & 0x400 != 0)
            &&& info.bootstrap_processor == (msr & 0x100 != 0)
        }),
{
    let local_apic_supported = (leaf1.edx & 0x200) != 0;
    let x2apic_supported = (leaf1.ecx & 0x20_0000) != 0;
    let tsc_deadline_supported = (leaf1.ecx & 0x100_0000) != 0;
    let initial_apic_id = (leaf1.ebx >> 24) & 0xff;
    let invariant_tsc_supported = if identity.max_extended_leaf >= 0x8000_0007 {
        (leaf_80000007.edx & 0x100) != 0
    } else {
        false
    };
    let nx_supported = if identity.max_extended_leaf >= 0x8000_0001 {
        (leaf_80000001.edx & 0x10_0000) != 0
    } else {
        false
    };
    let msr = if local_apic_supported { apic_base_msr } else { 0 };
    CpuInfo {
        vendor: identity.vendor,
        vendor_id: identity.vendor_id,
        brand: identity.brand,
        max_basic_leaf: identity.max_basic_leaf,
        max_extended_leaf: identity.max_extended_leaf,
        hypervisor_present: identity.hypervisor_present,
        local_apic_supported,
        x2apic_supported,
        tsc_deadline_supported,
        invariant_tsc_supported,
        nx_supported,
        initial_apic_id,
        apic_base: msr & 0xffff_f000,
        apic_global_enabled: (msr & 0x800) != 0,
        x2apic_enabled: (msr & 0x400) != 0,
        bootstrap_processor: (msr & 0x100) != 0,
    }
}

} // verus!
