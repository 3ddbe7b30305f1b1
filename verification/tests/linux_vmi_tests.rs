use lib::linux_bpf::{inspect_linux_bpf_programs, LinuxBpfWalkLimits};
use lib::linux_hooks::{inspect_linux_ftrace_ops, inspect_linux_kprobes, LinuxHookWalkLimits};
use lib::linux_vmi::{
    address_in_text_ranges, linux_executable_ranges, read_c_string, read_i32, read_u32, read_u64,
    resolve_linux_current_task, walk_linux_modules, walk_linux_tasks, LinuxModule, LinuxProfile,
    LinuxStructOffset, LinuxSymbol, LinuxTextRange, LinuxVirtualMemoryReader, LinuxVmiError,
    LinuxWalkLimits, MemoryReadError, SyntheticLinuxVirtualMemory,
};
use lib::vmi::VmiErrorKind;

fn sym(name: &str, va: u64, size: Option<u64>) -> LinuxSymbol {
    LinuxSymbol { name: name.to_string(), virtual_address: va, size }
}

fn field(st: &str, f: &str, offset: u64, size: Option<u64>) -> LinuxStructOffset {
    LinuxStructOffset { struct_name: st.to_string(), field_name: f.to_string(), offset, size }
}

fn le64(v: u64) -> Vec<u8> {
    v.to_le_bytes().to_vec()
}

fn put(buf: &mut [u8], at: usize, bytes: &[u8]) {
    buf[at..at + bytes.len()].copy_from_slice(bytes);
}

#[test]
fn synthetic_memory_reads_across_ranges_and_refuses_overlap() {
    let mut mem = SyntheticLinuxVirtualMemory::new();
    mem.map_range(0x1000, vec![1, 2, 3, 4]).unwrap();
    mem.map_range(0x1004, vec![5, 6, 7, 8]).unwrap();
    assert_eq!(mem.read_virtual(0x1002, 4).unwrap(), vec![3, 4, 5, 6]);
    assert_eq!(read_u64(&mem, 0x1000).unwrap(), 0x0807060504030201);
    assert_eq!(read_u32(&mem, 0x1004).unwrap(), 0x08070605);
    let err = mem.map_range(0x1003, vec![9]).unwrap_err();
    assert_eq!(err.kind(), VmiErrorKind::InconsistentSnapshot);
    assert!(matches!(mem.map_range(0x2000, vec![]), Err(LinuxVmiError::Malformed { .. })));
    assert!(matches!(mem.map_range(u64::MAX - 1, vec![1, 2]), Err(LinuxVmiError::Malformed { .. })));
    let unmapped = mem.read_virtual(0x1006, 4).unwrap_err();
    assert_eq!(unmapped.kind(), VmiErrorKind::Unmapped);
    assert!(matches!(mem.read_virtual(0x1000, 0), Err(LinuxVmiError::Malformed { .. })));
}

#[test]
fn reads_signed_and_c_strings() {
    let mut mem = SyntheticLinuxVirtualMemory::new();
    let mut bytes = (-2i32).to_le_bytes().to_vec();
    bytes.extend_from_slice(b"init\0junk");
    mem.map_range(0x500, bytes).unwrap();
    assert_eq!(read_i32(&mem, 0x500).unwrap(), -2);
    assert_eq!(read_c_string(&mem, 0x504, 9).unwrap(), "init");
    assert!(matches!(read_c_string(&mem, 0x504, 0), Err(LinuxVmiError::Malformed { .. })));
    assert!(matches!(read_c_string(&mem, 0x504, 4097), Err(LinuxVmiError::Malformed { .. })));
}

fn module_profile() -> LinuxProfile {
    LinuxProfile {
        kernel_release: String::new(),
        syscalls: vec![],
        symbols: vec![sym("modules", 0x1000, None), sym("_stext", 0xffff_0000, Some(0x1000))],
        struct_offsets: vec![
            field("module", "list", 0x8, None),
            field("module", "name", 0x18, Some(16)),
            field("module", "state", 0x28, None),
            field("module", "text_base", 0x30, None),
            field("module", "text_size", 0x38, None),
        ],
    }
}

fn module_at(buf: &mut Vec<u8>, base: usize, next: u64, name: &str, text: u64, size: u64) {
    put(buf, base + 0x8, &le64(next));
    let mut n = name.as_bytes().to_vec();
    n.resize(16, 0);
    put(buf, base + 0x18, &n);
    put(buf, base + 0x28, &1i32.to_le_bytes());
    put(buf, base + 0x30, &le64(text));
    put(buf, base + 0x38, &le64(size));
}

#[test]
fn walks_the_module_list_and_builds_text_ranges() {
    let mut mem = SyntheticLinuxVirtualMemory::new();
    // list head at 0x1000 points to module A's link (0x2008).
    mem.map_range(0x1000, le64(0x2008)).unwrap();
    let mut buf = vec![0u8; 0x100];
    module_at(&mut buf, 0x0, 0x2088, "alpha", 0x9000, 0x100);
    module_at(&mut buf, 0x80, 0x1000, "beta", 0xa000, 0x200);
    mem.map_range(0x2000, buf).unwrap();
    let profile = module_profile();
    let modules = walk_linux_modules(&profile, &mem, 0, LinuxWalkLimits::default()).unwrap();
    assert_eq!(modules.len(), 2);
    assert_eq!(modules[0].name, "alpha");
    assert_eq!(modules[0].address, 0x2000);
    assert_eq!(modules[1].name, "beta");
    assert_eq!(modules[1].text_size, 0x200);

    let ranges = linux_executable_ranges(&profile, &modules, 0x10).unwrap();
    assert_eq!(ranges.len(), 3);
    assert_eq!(ranges[0].owner, "vmlinux");
    assert_eq!(ranges[0].start, 0xffff_0010);
    assert_eq!(ranges[0].end, 0xffff_1010);
    assert_eq!(ranges[2].owner, "beta");
    let hit = address_in_text_ranges(0x9050, &ranges).unwrap();
    assert_eq!(hit.owner, "alpha");
    assert!(address_in_text_ranges(0x9100, &ranges).is_none());

    let limited = walk_linux_modules(&profile, &mem, 0, LinuxWalkLimits { max_tasks: 1, max_modules: 1 });
    assert_eq!(limited.unwrap_err().kind(), VmiErrorKind::InconsistentSnapshot);
}

#[test]
fn executable_ranges_need_kernel_or_modules() {
    let profile = LinuxProfile { kernel_release: String::new(), symbols: vec![], struct_offsets: vec![], syscalls: vec![] };
    let err = linux_executable_ranges(&profile, &[], 0).unwrap_err();
    assert!(matches!(err, LinuxVmiError::MissingProfileField { ref field } if field == "vmlinux text range or module text ranges"));
    let module = LinuxModule { address: 1, name: "m".to_string(), state: 0, text_base: u64::MAX - 1, text_size: 10 };
    let ranges = linux_executable_ranges(&profile, &[module], 0).unwrap();
    assert_eq!(ranges[0].end, u64::MAX);
}

fn task_profile() -> LinuxProfile {
    LinuxProfile {
        kernel_release: String::new(),
        syscalls: vec![],
        symbols: vec![sym("init_task", 0x4000, None), sym("aegishv_current_task_vcpu1", 0x3000, None)],
        struct_offsets: vec![
            field("task_struct", "tasks", 0x10, None),
            field("task_struct", "pid", 0x20, None),
            field("task_struct", "tgid", 0x24, None),
            field("task_struct", "comm", 0x28, Some(16)),
            field("task_struct", "mm", 0x38, None),
        ],
    }
}

fn task_at(buf: &mut Vec<u8>, base: usize, next: u64, pid: i32, comm: &str, mm: u64) {
    put(buf, base + 0x10, &le64(next));
    put(buf, base + 0x20, &pid.to_le_bytes());
    put(buf, base + 0x24, &pid.to_le_bytes());
    let mut c = comm.as_bytes().to_vec();
    c.resize(16, 0);
    put(buf, base + 0x28, &c);
    put(buf, base + 0x38, &le64(mm));
}

#[test]
fn walks_tasks_and_resolves_the_current_task() {
    let mut mem = SyntheticLinuxVirtualMemory::new();
    let mut buf = vec![0u8; 0x100];
    // init_task at 0x4000 links to the task at 0x4080, which links back.
    task_at(&mut buf, 0x0, 0x4090, 0, "swapper", 0);
    task_at(&mut buf, 0x80, 0x4010, 1, "systemd", 0xdead);
    mem.map_range(0x4000, buf).unwrap();
    mem.map_range(0x3000, le64(0x4080)).unwrap();
    let profile = task_profile();
    let tasks = walk_linux_tasks(&profile, &mem, 0, LinuxWalkLimits::default()).unwrap();
    assert_eq!(tasks.len(), 2);
    assert_eq!(tasks[0].comm, "swapper");
    assert_eq!(tasks[1].pid, 1);
    assert_eq!(tasks[1].mm, Some(0xdead));
    assert_eq!(tasks[1].cred, None);
    let current = resolve_linux_current_task(&profile, &mem, 0, 1).unwrap();
    assert_eq!(current.comm, "systemd");
    let unsupported = resolve_linux_current_task(&profile, &mem, 0, 7).unwrap_err();
    assert_eq!(unsupported.kind(), VmiErrorKind::Unsupported);
}

fn hook_ranges() -> Vec<LinuxTextRange> {
    vec![LinuxTextRange { owner: "vmlinux".to_string(), start: 0x8000, end: 0x9000 }]
}

#[test]
fn ftrace_callbacks_outside_text_are_findings() {
    let profile = LinuxProfile {
        kernel_release: String::new(),
        syscalls: vec![],
        symbols: vec![sym("ftrace_ops_list", 0x1000, None)],
        struct_offsets: vec![field("ftrace_ops", "list", 0x0, None), field("ftrace_ops", "func", 0x8, None)],
    };
    let mut mem = SyntheticLinuxVirtualMemory::new();
    mem.map_range(0x1000, le64(0x2000)).unwrap();
    let mut op = le64(0x3000);
    op.extend(le64(0x8100));
    mem.map_range(0x2000, op).unwrap();
    let mut op2 = le64(0x1000);
    op2.extend(le64(0xbad0));
    mem.map_range(0x3000, op2).unwrap();
    let report =
        inspect_linux_ftrace_ops(&profile, &mem, 0, &hook_ranges(), LinuxHookWalkLimits::default()).unwrap();
    assert!(!report.ok);
    assert_eq!(report.operations.len(), 2);
    assert_eq!(report.operations[0].callback_owner.as_deref(), Some("vmlinux"));
    assert_eq!(report.findings.len(), 1);
    assert_eq!(
        report.findings[0],
        "ftrace callback 0xbad0 for ops 0x3000 is outside executable kernel/module ranges"
    );
    let err = inspect_linux_ftrace_ops(&profile, &mem, 0, &[], LinuxHookWalkLimits::default()).unwrap_err();
    assert_eq!(err.kind(), VmiErrorKind::MissingProfile);
}

#[test]
fn kprobes_report_handlers_and_outside_targets() {
    let profile = LinuxProfile {
        kernel_release: String::new(),
        syscalls: vec![],
        symbols: vec![sym("kprobe_table", 0x1000, None)],
        struct_offsets: vec![
            field("kprobe", "hlist", 0x0, None),
            field("kprobe", "addr", 0x10, None),
            field("kprobe", "pre_handler", 0x18, None),
            field("kprobe", "post_handler", 0x20, None),
        ],
    };
    let mut mem = SyntheticLinuxVirtualMemory::new();
    let mut table = le64(0x2000);
    table.extend(le64(0));
    mem.map_range(0x1000, table).unwrap();
    let mut probe = vec![0u8; 0x28];
    put(&mut probe, 0x0, &le64(0));
    put(&mut probe, 0x10, &le64(0x8010));
    put(&mut probe, 0x18, &le64(0x7777));
    put(&mut probe, 0x20, &le64(0));
    mem.map_range(0x2000, probe).unwrap();
    let report =
        inspect_linux_kprobes(&profile, &mem, 0, &hook_ranges(), 2, LinuxHookWalkLimits::default()).unwrap();
    assert_eq!(report.probes.len(), 1);
    assert_eq!(report.probes[0].target_owner.as_deref(), Some("vmlinux"));
    assert_eq!(report.probes[0].handlers.len(), 1);
    assert_eq!(report.probes[0].handlers[0].kind, "pre_handler");
    assert_eq!(
        report.findings,
        vec!["kprobe pre_handler 0x7777 for probe 0x2000 is outside executable kernel/module ranges".to_string()]
    );
    assert!(!report.ok);
    let bad = inspect_linux_kprobes(&profile, &mem, 0, &hook_ranges(), 0, LinuxHookWalkLimits::default());
    assert_eq!(bad.unwrap_err().kind(), VmiErrorKind::Malformed);
}

#[test]
fn bpf_programs_with_jit_images_become_text_ranges() {
    let profile = LinuxProfile {
        kernel_release: String::new(),
        syscalls: vec![],
        symbols: vec![sym("bpf_prog_list", 0x1000, None)],
        struct_offsets: vec![
            field("bpf_prog", "list", 0x0, None),
            field("bpf_prog", "aux", 0x8, None),
            field("bpf_prog", "bpf_func", 0x10, None),
            field("bpf_prog", "jited_len", 0x18, None),
            field("bpf_prog_aux", "id", 0x0, None),
            field("bpf_prog_aux", "name", 0x4, None),
        ],
    };
    let mut mem = SyntheticLinuxVirtualMemory::new();
    mem.map_range(0x1000, le64(0x2000)).unwrap();
    let mut prog = vec![0u8; 0x20];
    put(&mut prog, 0x0, &le64(0x3000));
    put(&mut prog, 0x8, &le64(0x5000));
    put(&mut prog, 0x10, &le64(0x9000));
    put(&mut prog, 0x18, &0x40u32.to_le_bytes());
    mem.map_range(0x2000, prog).unwrap();
    let mut prog2 = vec![0u8; 0x20];
    put(&mut prog2, 0x0, &le64(0x1000));
    put(&mut prog2, 0x10, &le64(0xa000));
    mem.map_range(0x3000, prog2).unwrap();
    let mut aux = vec![0u8; 0x14];
    put(&mut aux, 0x0, &7u32.to_le_bytes());
    put(&mut aux, 0x4, b"filter\0");
    mem.map_range(0x5000, aux).unwrap();
    let inv = inspect_linux_bpf_programs(&profile, &mem, 0, LinuxBpfWalkLimits::default()).unwrap();
    assert_eq!(inv.programs.len(), 2);
    assert_eq!(inv.programs[0].id, Some(7));
    assert_eq!(inv.programs[0].name.as_deref(), Some("filter"));
    assert_eq!(inv.programs[0].jit_end, Some(0x9040));
    assert_eq!(inv.jit_ranges.len(), 1);
    assert_eq!(inv.jit_ranges[0].owner, "bpf:7:filter");
    assert_eq!(inv.jit_ranges[0].start, 0x9000);
    assert_eq!(inv.findings, vec!["BPF program 0x3000 has a JIT entry point but no bounded JIT length".to_string()]);
    let missing = LinuxProfile { kernel_release: String::new(), symbols: vec![], struct_offsets: vec![], syscalls: vec![] };
    let err = inspect_linux_bpf_programs(&missing, &mem, 0, LinuxBpfWalkLimits::default()).unwrap_err();
    assert_eq!(err.kind(), VmiErrorKind::Unsupported);
}

#[test]
fn synthetic_reads_report_unmapped_bytes_by_kind() {
    let mut mem = SyntheticLinuxVirtualMemory::new();
    mem.map_range(0x1000, 0x1122334455667788u64.to_le_bytes().to_vec()).unwrap();
    assert_eq!(read_u64(&mem, 0x1000), Ok(0x1122334455667788));
    assert_eq!(read_u32(&mem, 0x1000), Ok(0x55667788));
    assert_eq!(
        read_u64(&mem, 0x1001),
        Err(LinuxVmiError::Memory(MemoryReadError::Unmapped { gpa: 0x1008, len: 1 }))
    );
}
