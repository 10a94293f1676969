//! Verified core of a GPU/NPU/CPU monitoring tool: parsers for vendor tool
//! output, hardware register decoding and the small decision procedures that
//! sit between reading a device and showing it.

pub mod system;
pub mod text;
pub mod number;
pub mod hlsmi;
pub mod labels;
pub mod parsing;
pub mod tenstorrent;
pub mod metrics;
pub mod npu_export;
pub mod npu_tenstorrent;
pub mod tenstorrent_reader;
pub mod rebellions;
pub mod tabs;
pub mod remote;
pub mod furiosa;
pub mod mock_apple;
pub mod container;
pub mod cpuinfo;
pub mod cpu_stat;
pub mod cpu_macos;
pub mod platform;
pub mod amd;
