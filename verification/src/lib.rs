//! Verified core of the QuantaOS kernel subsystems: Bluetooth protocol
//! encoding and decoding, the eBPF machine, and cgroup resource controllers.
pub mod wire;
pub mod text;
pub mod bluetooth;
pub mod bpf;
pub mod cgroups;
pub mod ai;
pub mod boot;
pub mod bootloader;
