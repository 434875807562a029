use vstd::prelude::*;

verus! {

/// One processor the firmware tables list.
#[derive(Copy, Clone, PartialEq, Eq, Structural, Debug)]
pub struct TopologyCpu {
    pub index: u32,
    pub processor_uid: u32,
    pub apic_id: u32,
    pub x2apic: bool,
    pub is_bsp: bool,
    pub online: bool,
    pub enabled: bool,
}

impl TopologyCpu {
    /// The interrupt-controller mode of the processor.
    pub fn apic_mode(&self) -> (s: &'static str)
        ensures
            s@ == (if self.x2apic { "x2apic"@ } else { "xapic"@ }),
    {
        if self.x2apic { "x2apic" } else { "xapic" }
    }
}

/// Totals over the processors.
#[derive(Copy, Clone, PartialEq, Eq, Structural, Debug)]
pub struct TopologySummary {
    pub bsp_apic_id: u32,
    pub current_cpu_index: u32,
    pub total_cpus: usize,
    pub enabled_cpus: usize,
    pub online_cpus: usize,
    pub ap_count: usize,
    pub bringup_targets: usize,
    pub x2apic_cpus: usize,
}

/// The processors of the machine.
pub struct Topology {
    pub cpus: Vec<TopologyCpu>,
    pub summary: TopologySummary,
}

} // verus!
