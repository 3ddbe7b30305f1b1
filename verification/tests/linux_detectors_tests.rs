use lib::linux_detectors::{run_linux_detector_checks, LinuxDetectorInputs};
use lib::linux_vmi::{LinuxProfile, LinuxSymbol, LinuxSyscall, LinuxTextRange, SyntheticLinuxVirtualMemory};
use lib::linux_x86::LinuxControlPolicy;

const ABC: &str = "ba7816bf8f01cfea414140de5dae2223b00361a396177a9cb410ff61f20015ad";

fn sym(name: &str, va: u64, size: Option<u64>) -> LinuxSymbol {
    LinuxSymbol { name: name.to_string(), virtual_address: va, size }
}

fn profile() -> LinuxProfile {
    LinuxProfile {
        kernel_release: "6.1.0-test".to_string(),
        symbols: vec![
            sym("sys_call_table", 0x3000, Some(8)),
            sym("entry_SYSCALL_64", 0x1001, Some(1)),
            sym("__x64_sys_read", 0x1000, Some(1)),
        ],
        struct_offsets: vec![],
        syscalls: vec![LinuxSyscall {
            number: 0,
            name: "read".to_string(),
            symbol_name: Some("__x64_sys_read".to_string()),
        }],
    }
}

fn memory() -> SyntheticLinuxVirtualMemory {
    let mut mem = SyntheticLinuxVirtualMemory::new();
    mem.map_range(0x1000, b"abc".to_vec()).unwrap();
    mem.map_range(0x3000, 0x1000u64.to_le_bytes().to_vec()).unwrap();
    mem
}

const CR0_WP: u64 = 1 << 16;
const CR4_SMEP_SMAP: u64 = (1 << 20) | (1 << 21);
const EFER_NXE: u64 = 1 << 11;

#[test]
fn clean_snapshot_passes_every_check() {
    let profile = profile();
    let mem = memory();
    let ranges = vec![LinuxTextRange { owner: "vmlinux".to_string(), start: 0x1000, end: 0x1003 }];
    let kernel = vec![("vmlinux".to_string(), ABC.to_string())];
    let modules: Vec<(String, String)> = vec![];
    let run = run_linux_detector_checks(LinuxDetectorInputs {
        profile: &profile,
        memory: &mem,
        lstar: 0x1001,
        cr0: CR0_WP,
        cr4: CR4_SMEP_SMAP,
        efer: EFER_NXE,
        slide: 0,
        executable_ranges: &ranges,
        kernel_text_baselines: &kernel,
        module_text_baselines: &modules,
        control_policy: LinuxControlPolicy::default(),
    })
    .unwrap();
    assert!(run.ok, "{:?}", run.findings);
    assert_eq!(run.checks.len(), 5);
    assert_eq!(run.checks[0].name, "lstar");
    assert_eq!(run.checks[4].name, "module_text_hash");
    assert!(run.checks.iter().all(|c| c.ok && c.finding_count == 0));
    assert!(run.findings.is_empty());
    assert!(run.syscall_path.ok);
    assert_eq!(run.syscall_path.entry, Some(0x1001));
    assert_eq!(run.syscall_path.table, Some(0x3000));
}

#[test]
fn findings_are_tagged_by_check() {
    let profile = profile();
    let mem = memory();
    let ranges = vec![LinuxTextRange { owner: "vmlinux".to_string(), start: 0x1000, end: 0x1003 }];
    let kernel = vec![("vmlinux".to_string(), "00".to_string())];
    let modules: Vec<(String, String)> = vec![];
    let run = run_linux_detector_checks(LinuxDetectorInputs {
        profile: &profile,
        memory: &mem,
        lstar: 0x1001,
        cr0: 0,
        cr4: CR4_SMEP_SMAP,
        efer: EFER_NXE,
        slide: 0,
        executable_ranges: &ranges,
        kernel_text_baselines: &kernel,
        module_text_baselines: &modules,
        control_policy: LinuxControlPolicy::default(),
    })
    .unwrap();
    assert!(!run.ok);
    let checks: Vec<&str> = run.findings.iter().map(|f| f.check).collect();
    assert_eq!(checks, vec!["control_registers", "kernel_text_hash"]);
    assert_eq!(run.findings[0].detail, "CR0.WP is clear while policy requires write protect");
    assert_eq!(run.checks[2].finding_count, 1);
    assert!(!run.checks[3].ok);
}

#[test]
fn missing_syscall_entries_fail_the_run() {
    let mut profile = profile();
    profile.syscalls.clear();
    let mem = memory();
    let ranges = vec![LinuxTextRange { owner: "vmlinux".to_string(), start: 0x1000, end: 0x1003 }];
    let none: Vec<(String, String)> = vec![];
    let run = run_linux_detector_checks(LinuxDetectorInputs {
        profile: &profile,
        memory: &mem,
        lstar: 0x1001,
        cr0: CR0_WP,
        cr4: CR4_SMEP_SMAP,
        efer: EFER_NXE,
        slide: 0,
        executable_ranges: &ranges,
        kernel_text_baselines: &none,
        module_text_baselines: &none,
        control_policy: LinuxControlPolicy::default(),
    });
    assert!(run.is_err());
}
