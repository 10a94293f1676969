//! Errors of the Tenstorrent platform layer.
use vstd::prelude::*;

verus! {

/// An error of the Tenstorrent platform layer.
#[derive(Debug)]
pub enum PlatformError {
    /// A failure that fits no other kind.
    Generic(String),
    /// A parameter that names nothing known, such as an unknown register.
    InvalidParameter(String),
    /// The chip answered with an error.
    ChipError(String),
    /// The chip did not answer in time.
    Timeout(String),
    /// The device file or driver failed.
    IoError(String),
}

} // verus!
