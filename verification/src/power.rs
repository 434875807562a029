use vstd::prelude::*;

verus! {

/// An ACPI generic address: where a register lives and how wide it is.
#[derive(Copy, Clone, PartialEq, Eq, Structural, Debug)]
pub struct GenericAddress {
    pub address_space: u8,
    pub bit_width: u8,
    pub bit_offset: u8,
    pub access_size: u8,
    pub address: u64,
}

/// The reset register the firmware describes, as reported to the user.
#[derive(Copy, Clone, PartialEq, Eq, Structural, Debug)]
pub struct PowerResetCapability {
    pub supported: bool,
    pub address_space: u8,
    pub address: u64,
    pub value: u8,
}

/// The name of an ACPI address space.
pub open spec fn spec_address_space_text(space: u8) -> Seq<char> {
    if space == 0 {
        "system-memory"@
    } else if space == 1 {
        "system-io"@
    } else if space == 2 {
        "pci-config"@
    } else if space == 3 {
        "embedded-controller"@
    } else if space == 4 {
        "smbus"@
    } else if space == 0x0a {
        "platform-comm"@
    } else if space == 0x7f {
        "functional-fixed"@
    } else {
        "unknown"@
    }
}

impl PowerResetCapability {
    pub fn address_space_str(self) -> (text: &'static str)
        ensures
            text@ == spec_address_space_text(self.address_space),
    {
        match self.address_space {
            0 => "system-memory",
            1 => "system-io",
            2 => "pci-config",
            3 => "embedded-controller",
            4 => "smbus",
            0x0a => "platform-comm",
            0x7f => "functional-fixed",
            _ => "unknown",
        }
    }
}

/// Why a reset through the reset register did not happen.
#[derive(Copy, Clone, PartialEq, Eq, Structural, Debug)]
pub enum ResetError {
    Unsupported,
    UnsupportedAddressSpace,
    MappingFailed,
    NotTriggered,
}

pub open spec fn spec_reset_error_text(e: ResetError) -> Seq<char> {
    match e {
        ResetError::Unsupported => "power reset register is unavailable"@,
        ResetError::UnsupportedAddressSpace => "power reset register address space is unsupported"@,
        ResetError::MappingFailed => "failed to map power reset register"@,
        ResetError::NotTriggered => "power reset register write did not trigger a reset"@,
    }
}

impl ResetError {
    pub fn as_str(self) -> (text: &'static str)
        ensures
            text@ == spec_reset_error_text(self),
    {
        match self {
            Self::Unsupported => "power reset register is unavailable",
            Self::UnsupportedAddressSpace => "power reset register address space is unsupported",
            Self::MappingFailed => "failed to map power reset register",
            Self::NotTriggered => "power reset register write did not trigger a reset",
        }
    }
}

/// What the kernel knows of the firmware's reset register.
pub struct PowerState {
    pub hhdm_offset: u64,
    pub reset_register: Option<GenericAddress>,
    pub reset_value: u8,
    pub reset_supported: bool,
}

impl PowerState {
    pub fn new() -> (s: Self)
        ensures
            s.hhdm_offset == 0,
            s.reset_register is None,
            s.reset_value == 0,
            !s.reset_supported,
    {
        PowerState { hhdm_offset: 0, reset_register: None, reset_value: 0, reset_supported: false }
    }

    /// Records the reset register the firmware describes.
    pub fn configure(&mut self, hhdm_offset: u64, reset_register: Option<GenericAddress>, reset_value: u8, reset_supported: bool)
        ensures
            final(self).hhdm_offset == hhdm_offset,
            final(self).reset_register == reset_register,
            final(self).reset_value == reset_value,
            final(self).reset_supported == reset_supported,
    {
        self.hhdm_offset = hhdm_offset;
        self.reset_register = reset_register;
        self.reset_value = reset_value;
        self.reset_supported = reset_supported;
    }
}

pub open spec fn spec_reset_capability(s: PowerState) -> PowerResetCapability {
    match s.reset_register {
        Some(r) => PowerResetCapability {
            supported: s.reset_supported,
            address_space: r.address_space,
            address: r.address,
            value: s.reset_value,
        },
        None => PowerResetCapability { supported: false, address_space: 0, address: 0, value: 0 },
    }
}

/// The reset register as reported to the user; without one, nothing is supported.
pub fn reset_capability(state: &PowerState) -> (c: PowerResetCapability)
    ensures
        c == spec_reset_capability(*state),
{
    match state.reset_register {
        Some(register) => PowerResetCapability {
            supported: state.reset_supported,
            address_space: register.address_space,
            address: register.address,
            value: state.reset_value,
        },
        None => PowerResetCapability { supported: false, address_space: 0, address: 0, value: 0 },
    }
}

/// How many bytes an access to a register takes: from its access size, else from its bit width.
pub open spec fn spec_register_width(r: GenericAddress) -> usize {
    if r.access_size == 1 {
        1
    } else if r.access_size == 2 {
        2
    } else if r.access_size == 3 {
        4
    } else if r.access_size == 4 {
        8
    } else if r.bit_width <= 8 {
        1
    } else if r.bit_width <= 16 {
        2
    } else if r.bit_width <= 32 {
        4
    } else {
        8
    }
}

pub fn register_width_bytes(register: GenericAddress) -> (w: usize)
    ensures
        w == spec_register_width(register),
{
    match register.access_size {
        1 => 1,
        2 => 2,
        3 => 4,
        4 => 8,
        _ => if register.bit_width <= 8 {
            1
        } else if register.bit_width <= 16 {
            2
        } else if register.bit_width <= 32 {
            4
        } else {
            8
        },
    }
}

/// The write that asks the firmware's reset register for a reset.
#[derive(Copy, Clone, PartialEq, Eq, Structural, Debug)]
pub enum ResetWrite {
    /// Write `value` to the memory-mapped register at physical `address`, `width` bytes wide.
    Memory { hhdm_offset: u64, address: u64, width: usize, value: u8 },
    /// Write `value` to I/O port `port`, `width` bytes wide.
    Port { port: u16, width: usize, value: u8 },
}

pub open spec fn spec_reset_plan(s: PowerState) -> Result<ResetWrite, ResetError> {
    if !s.reset_supported {
        Err(ResetError::Unsupported)
    } else {
        match s.reset_register {
            None => Err(ResetError::Unsupported),
            Some(r) => if r.address_space == 0 {
                Ok(
                    ResetWrite::Memory {
                        hhdm_offset: s.hhdm_offset,
                        address: r.address,
                        width: spec_register_width(r),
                        value: s.reset_value,
                    },
                )
            } else if r.address_space == 1 {
                Ok(ResetWrite::Port { port: r.address as u16, width: spec_register_width(r), value: s.reset_value })
            } else {
                Err(ResetError::UnsupportedAddressSpace)
            },
        }
    }
}

/// Decides the register write a reboot makes: none when the firmware offers no
/// reset register, or one in an address space other than memory or I/O ports.
pub fn reset_plan(state: &PowerState) -> (r: Result<ResetWrite, ResetError>)
    ensures
        r == spec_reset_plan(*state),
{
    if !state.reset_supported {
        return Err(ResetError::Unsupported);
    }
    let register = match state.reset_register {
        Some(r) => r,
        None => return Err(ResetError::Unsupported),
    };
    match register.address_space {
        0 => Ok(
            ResetWrite::Memory {
                hhdm_offset: state.hhdm_offset,
                address: register.address,
                width: register_width_bytes(register),
                value: state.reset_value,
            },
        ),
        1 => Ok(
            ResetWrite::Port {
                port: register.address as u16,
                width: register_width_bytes(register),
                value: state.reset_value,
            },
        ),
        _ => Err(ResetError::UnsupportedAddressSpace),
    }
}

/// The port of the reset control register, which wants its reset bit to go from low to high.
pub const RESET_CONTROL_PORT: u16 = 0xcf9;

/// The two values written to the reset control register, given what it reads now:
/// first with the reset bit set and the other reset bits clear, then with the
/// requested reset bits.
pub fn reset_control_values(current: u8, value: u8) -> (r: (u8, u8))
    ensures
        r.0 == (current & !0x0eu8) | 0x02u8,
        r.1 == (current & !0x0eu8) | ((value & 0x0eu8) | 0x02u8),
{
    let safe_bits = current & !0x0eu8;
    (safe_bits | 0x02, safe_bits | ((value & 0x0e) | 0x02))
}

} // verus!
