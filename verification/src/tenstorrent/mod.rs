//! Tenstorrent accelerator support: chip architectures, the telemetry block
//! that the ARC firmware publishes, the ARC message protocol, and the kernel
//! driver's data structures.

pub mod arc_msg;
pub mod arc_protocol;
pub mod arch;
pub mod chip;
pub mod detect;
pub mod error;
pub mod device;
pub mod kmdif;
pub mod luwen_ref;
pub mod tlb;
pub mod pci;
