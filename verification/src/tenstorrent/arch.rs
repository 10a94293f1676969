//! Tenstorrent chip architectures.
use vstd::prelude::*;

verus! {

/// A Tenstorrent chip architecture.
#[derive(Clone, Copy, Debug, PartialEq, Eq, Structural)]
pub enum Arch {
    Grayskull,
    Wormhole,
    Blackhole,
}

impl Default for Arch {
    fn default() -> (r: Self)
        ensures
            r == Arch::Grayskull,
    {
        Arch::Grayskull
    }
}

impl Arch {
    /// Whether this is a Blackhole chip.
    pub fn is_blackhole(&self) -> (r: bool)
        ensures
            r == (*self == Arch::Blackhole),
    {
        match self {
            Arch::Blackhole => true,
            _ => false,
        }
    }

    /// Whether this is a Wormhole chip.
    pub fn is_wormhole(&self) -> (r: bool)
        ensures
            r == (*self == Arch::Wormhole),
    {
        match self {
            Arch::Wormhole => true,
            _ => false,
        }
    }

    /// Whether this is a Grayskull chip.
    pub fn is_grayskull(&self) -> (r: bool)
        ensures
            r == (*self == Arch::Grayskull),
    {
        match self {
            Arch::Grayskull => true,
            _ => false,
        }
    }
}

/// The architecture of a PCI device id: 0xfaca Grayskull, 0x401e Wormhole,
/// 0xb140 Blackhole.
pub open spec fn arch_of_device_id_spec(device_id: u16) -> Option<Arch> {
    if device_id == 0xfaca {
        Some(Arch::Grayskull)
    } else if device_id == 0x401e {
        Some(Arch::Wormhole)
    } else if device_id == 0xb140 {
        Some(Arch::Blackhole)
    } else {
        None
    }
}

/// The architecture of a Tenstorrent PCI device id, if it is one.
pub fn arch_from_device_id(device_id: u16) -> (r: Option<Arch>)
    ensures
        r == arch_of_device_id_spec(device_id),
{
    if device_id == 0xfaca {
        Some(Arch::Grayskull)
    } else if device_id == 0x401e {
        Some(Arch::Wormhole)
    } else if device_id == 0xb140 {
        Some(Arch::Blackhole)
    } else {
        None
    }
}

} // verus!
