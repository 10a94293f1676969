# all_smi

The verified core of a GPU/NPU/CPU monitoring tool. `src/` is the library,
proved with Verus: the parsers of vendor tool output and system files, the
Prometheus exporter and the reader of its sample lines, the register and
telemetry layouts of Tenstorrent chips, and the decisions between reading a
device and showing it. `app/` is the command-line front end: it reads files,
runs tools and talks to the user, hands what it read to the library, and
prints the results.

## Library modules

- `text`, `number`: string and number scanning with their specifications
  (`trim`, `split`, `lines`, `replace`, `parse` for integers, the text that
  `f64::from_str` accepts, radix formatting).
- `cpuinfo`, `cpu_stat`, `cpu_macos`, `container`: `/proc/cpuinfo`,
  `/proc/stat`, the macOS hardware reports, cgroup CPU limits and cpusets.
- `hlsmi`, `rebellions`, `furiosa`, `amd`, `platform`: vendor tool output,
  the detail map of AMD GPUs, and the detection of accelerators.
- `metrics`, `npu_export`, `npu_tenstorrent`, `parsing`, `labels`: the
  Prometheus text format, the NPU exporters, label maps, and the reading of
  `all_smi_<name>{<labels>} <value>` samples (whose value digits are those of
  the `regex` crate's `\d` class, asked of the crate itself).
- `tenstorrent` and `tenstorrent_reader`: chip detection, the ARC message
  protocol, the telemetry block and its derived values, the kernel driver's
  structures, BAR mapping plans and register access.
- `remote`, `tabs`, `system`, `mock_apple`: host lists and fetch retries,
  tab layout, polling intervals and prompts, and the mock Apple Silicon node.

## Front end

`app/main.rs` takes one of `metrics`, `cpu`, `container`, `mac`, `platform`,
`rebellions`, `gaudi`, `hosts FILE` or `interval N`. Floating-point readings
(fractional temperatures, power, utilization percentages) are converted
there.
