use vstd::prelude::*;

use crate::arch::cpuid::CpuidResult;

verus! {

pub const DEFAULT_TSC_HZ: u64 = 1_000_000_000;

/// Seconds and nanoseconds since the clock started.
#[derive(Copy, Clone, PartialEq, Eq, Structural, Debug)]
pub struct BootTimestamp {
    pub seconds: u64,
    pub nanoseconds: u32,
}

/// Where the time-stamp counter's frequency came from.
#[derive(Copy, Clone, PartialEq, Eq, Structural, Debug)]
pub enum ClockSource {
    CpuidLeaf0x15,
    CpuidLeaf0x16,
    TscFallback,
}

impl ClockSource {
    pub fn as_str(self) -> (s: &'static str)
        ensures
            self == ClockSource::CpuidLeaf0x15 ==> s@ == "tsc-cpuid-0x15"@,
            self == ClockSource::CpuidLeaf0x16 ==> s@ == "tsc-cpuid-0x16"@,
            self == ClockSource::TscFallback ==> s@ == "tsc-fallback"@,
    {
        match self {
            Self::CpuidLeaf0x15 => "tsc-cpuid-0x15",
            Self::CpuidLeaf0x16 => "tsc-cpuid-0x16",
            Self::TscFallback => "tsc-fallback",
        }
    }

    /// Whether the frequency is a guess rather than reported by the processor.
    pub fn is_estimated(self) -> (b: bool)
        ensures
            b == (self == ClockSource::TscFallback),
    {
        match self {
            Self::TscFallback => true,
            _ => false,
        }
    }
}

/// The frequency the processor reports: leaf 0x15's crystal ratio when complete, else
/// leaf 0x16's base frequency in MHz.
pub open spec fn spec_detect(max_basic_leaf: u32, leaf15: CpuidResult, leaf16: CpuidResult) -> Option<(u64, ClockSource)> {
    let hz15 = (leaf15.ecx * leaf15.ebx) / (leaf15.eax as int);
    let hz16 = if leaf16.eax * 1_000_000 > u64::MAX { u64::MAX as int } else { leaf16.eax * 1_000_000 };
    if max_basic_leaf >= 0x15 && leaf15.eax != 0 && leaf15.ebx != 0 && leaf15.ecx != 0 && hz15 != 0 {
        Some((hz15 as u64, ClockSource::CpuidLeaf0x15))
    } else if max_basic_leaf >= 0x16 && leaf16.eax != 0 && hz16 != 0 {
        Some((hz16 as u64, ClockSource::CpuidLeaf0x16))
    } else {
        None
    }
}

/// The time-stamp counter frequency from the `cpuid` leaves 0x15 and 0x16.
pub fn detect_tsc_frequency(max_basic_leaf: u32, leaf15: CpuidResult, leaf16: CpuidResult) -> (r: Option<(u64, ClockSource)>)
    ensures
        r == spec_detect(max_basic_leaf, leaf15, leaf16),
{
    if max_basic_leaf >= 0x15 {
        if leaf15.eax != 0 && leaf15.ebx != 0 && leaf15.ecx != 0 {
            assert((leaf15.ecx as u128) * (leaf15.ebx as u128) <= 0xffff_ffff * 0xffff_ffff) by (nonlinear_arith)
                requires
                    leaf15.ecx <= 0xffff_ffff,
                    leaf15.ebx <= 0xffff_ffff,
            ;
            let numerator = (leaf15.ecx as u128) * (leaf15.ebx as u128);
            let denominator = leaf15.eax as u128;
            let hz = (numerator / denominator) as u64;
            if hz != 0 {
                return Some((hz, ClockSource::CpuidLeaf0x15));
            }
        }
    }
    if max_basic_leaf >= 0x16 {
        if leaf16.eax != 0 {
            let hz = crate::num::saturating_mul_u64(leaf16.eax as u64, 1_000_000);
            if hz != 0 {
                return Some((hz, ClockSource::CpuidLeaf0x16));
            }
        }
    }
    None
}

/// The boot clock: the counter value it started at and the counter frequency.
pub struct Clock {
    pub initialized: bool,
    pub start_tsc: u64,
    pub tsc_hz: u64,
    pub source: ClockSource,
}

impl Clock {
    pub fn new() -> (c: Self)
        ensures
            !c.initialized && c.start_tsc == 0 && c.tsc_hz == DEFAULT_TSC_HZ && c.source == ClockSource::TscFallback,
    {
        Clock { initialized: false, start_tsc: 0, tsc_hz: DEFAULT_TSC_HZ, source: ClockSource::TscFallback }
    }
}

/// Starts the clock at counter value `now_tsc`, with the frequency the `cpuid` leaves give.
pub fn initialize(clock: &mut Clock, max_basic_leaf: u32, leaf15: CpuidResult, leaf16: CpuidResult, now_tsc: u64) -> (source: ClockSource)
    ensures
        final(clock).initialized,
        final(clock).start_tsc == now_tsc,
        match spec_detect(max_basic_leaf, leaf15, leaf16) {
            Some((hz, s)) => final(clock).tsc_hz == hz && final(clock).source == s && source == s,
            None => final(clock).tsc_hz == DEFAULT_TSC_HZ && final(clock).source == ClockSource::TscFallback
                && source == ClockSource::TscFallback,
        },
{
    let (tsc_hz, source) = match detect_tsc_frequency(max_basic_leaf, leaf15, leaf16) {
        Some(x) => x,
        None => (DEFAULT_TSC_HZ, ClockSource::TscFallback),
    };
    clock.tsc_hz = tsc_hz;
    clock.source = source;
    clock.start_tsc = now_tsc;
    clock.initialized = true;
    source
}

/// Time since the clock started, when the counter reads `now_tsc`.
pub open spec fn spec_timestamp(clock: Clock, now_tsc: u64) -> BootTimestamp {
    if !clock.initialized {
        BootTimestamp { seconds: 0, nanoseconds: 0 }
    } else {
        let hz = if clock.tsc_hz >= 1 { clock.tsc_hz } else { 1 };
        let elapsed = vstd::wrapping::u64_specs::wrapping_sub(now_tsc, clock.start_tsc);
        BootTimestamp {
            seconds: (elapsed / hz) as u64,
            nanoseconds: ((elapsed % hz) * 1_000_000_000 / (hz as int)) as u32,
        }
    }
}

/// Seconds and nanoseconds since the clock started.
pub fn timestamp(clock: &Clock, now_tsc: u64) -> (t: BootTimestamp)
    ensures
        t == spec_timestamp(*clock, now_tsc),
        t.nanoseconds < 1_000_000_000,
{
    if !clock.initialized {
        return BootTimestamp { seconds: 0, nanoseconds: 0 };
    }
    let tsc_hz = if clock.tsc_hz >= 1 { clock.tsc_hz } else { 1 };
    let elapsed_cycles = now_tsc.wrapping_sub(clock.start_tsc);
    let seconds = elapsed_cycles / tsc_hz;
    let cycle_remainder = elapsed_cycles % tsc_hz;
    assert((cycle_remainder as u128) * 1_000_000_000u128 <= 0xffff_ffff_ffff_ffff * 1_000_000_000) by (nonlinear_arith)
        requires
            cycle_remainder <= 0xffff_ffff_ffff_ffff,
    ;
    let scaled = (cycle_remainder as u128) * 1_000_000_000u128;
    let nanos = scaled / (tsc_hz as u128);
    assert(nanos < 1_000_000_000) by (nonlinear_arith)
        requires
            nanos == scaled / (tsc_hz as u128),
            scaled == cycle_remainder * 1_000_000_000,
            cycle_remainder < tsc_hz,
            tsc_hz >= 1,
    {
        assert(scaled < tsc_hz * 1_000_000_000);
    }
    BootTimestamp { seconds, nanoseconds: nanos as u32 }
}

/// Nanoseconds since the clock started, saturating.
pub fn uptime_nanoseconds(clock: &Clock, now_tsc: u64) -> (ns: u64)
    ensures
        ({
            let t = spec_timestamp(*clock, now_tsc);
            let s = if t.seconds * 1_000_000_000 > u64::MAX { u64::MAX as int } else { t.seconds * 1_000_000_000 };
            ns == if s + t.nanoseconds > u64::MAX { u64::MAX as int } else { s + t.nanoseconds }
        }),
{
    let t = timestamp(clock, now_tsc);
    crate::num::saturating_mul_u64(t.seconds, 1_000_000_000).saturating_add(t.nanoseconds as u64)
}

} // verus!
