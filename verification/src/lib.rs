//! Host-side hypervisor security sensor logic: event model, detectors,
//! identity resolution, configuration parsing and action safety checks.
pub mod action_attempt;
pub mod actions;
pub mod admin;
pub mod cli;
pub mod config;
pub mod config_parse;
pub mod detectors;
pub mod dispatch;
pub mod dump_path;
pub mod enrich;
pub mod event;
pub mod hypervisor;
pub mod identity;
pub mod incidents;
pub mod inventory;
pub mod inventory_json;
pub mod metrics;
pub mod libvirt_xml;
pub mod lifecycle;
pub mod linux_bpf;
pub mod linux_detectors;
pub mod linux_hooks;
pub mod linux_integrity;
pub mod linux_vmi;
pub mod linux_x86;
pub mod linux_symbols;
pub mod linux_syscall;
pub mod order;
pub mod prometheus;
pub mod qmp;
pub mod pattern;
pub mod records;
pub mod resolver;
pub mod runtime;
pub mod sha256;
pub mod spool;
pub mod text;
pub mod vmi;
pub mod windows_reports;
