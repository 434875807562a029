pub mod context;
pub mod cpu;
pub mod cpuid;
pub mod interrupts;
