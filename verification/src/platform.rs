//! What the output of the vendor tools and system files says about the
//! accelerators present: an NVIDIA GPU listing, a Jetson device tree, a
//! Furiosa device list, a Tenstorrent snapshot, and an Apple Silicon machine.
use vstd::prelude::*;
use crate::text::{chars_of, contains_seq, line_spans, lines_seq, span_contains, trim_seq, trimmed_eq};

verus! {

fn text_contains(text: &str, pattern: &str) -> (r: bool)
    ensures
        r == contains_seq(text@, pattern@),
{
    let v = chars_of(text);
    let p = chars_of(pattern);
    let n = v.len();
    assert(v@.subrange(0, n as int) =~= v@);
    span_contains(&v, 0, n, &p)
}

/// Whether `nvidia-smi -L` lists a GPU: its output names `GPU`.
pub fn listing_has_nvidia_gpu(listing: &str) -> (r: bool)
    ensures
        r == contains_seq(listing@, "GPU"@),
{
    text_contains(listing, "GPU")
}

/// Whether the device tree's `compatible` text names a Tegra board.
pub fn device_tree_is_jetson(compatible: &str) -> (r: bool)
    ensures
        r == contains_seq(compatible@, "tegra"@),
{
    text_contains(compatible, "tegra")
}

/// Whether `furiosactl list` lists a device: it prints more than its
/// header line.
pub fn listing_has_furiosa_devices(listing: &str) -> (r: bool)
    ensures
        r == (lines_seq(listing@).len() > 1),
{
    let v = chars_of(listing);
    let n = v.len();
    assert(v@.subrange(0, n as int) =~= v@);
    let lines = line_spans(&v, 0, n);
    assert(lines@.len() == lines_seq(listing@).len());
    lines.len() > 1
}

/// Whether a `tt-smi` snapshot reports devices: it holds `device_info`.
pub fn snapshot_has_tenstorrent_devices(snapshot: &str) -> (r: bool)
    ensures
        r == contains_seq(snapshot@, "device_info"@),
{
    text_contains(snapshot, "device_info")
}

/// Whether `uname -m` names an Apple Silicon machine: its trimmed output is
/// `arm64`.
pub fn machine_is_arm64(uname_machine: &str) -> (r: bool)
    ensures
        r == (trim_seq(uname_machine@) == "arm64"@),
{
    trimmed_eq(uname_machine, "arm64")
}

} // verus!
