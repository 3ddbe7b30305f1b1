use lib::config::Identity;
use lib::event::IdentityConfidence;
use lib::identity::{
    apply_libvirt_discovery, merge_cgroup_identity, parse_arg_value, parse_proc_stat_start_time,
    parse_qemu_name, parse_vcpu_id_from_thread_name, recompute_identity_confidence,
    HostTaskIdentity, IdentityConflictReason, LibvirtDiscoveryError, LibvirtDomain,
    LibvirtDomainDiscovery, LibvirtDomainSource, VmIdentity, IDENTITY_SOURCE_AMBIGUOUS,
    IDENTITY_SOURCE_FALLBACK_PID, IDENTITY_SOURCE_LIBVIRT_XML, IDENTITY_SOURCE_PROC_CMDLINE,
    IDENTITY_SOURCE_START_TIME_VERIFIED,
};
use lib::resolver::{
    cache_entry_matches, parse_cgroup_domain_name, CachedIdentity, LibvirtLifecycleError,
    LibvirtLifecycleKind, VmIdentityResolver,
};

fn domain_with_task_start(task_id: i32, start_time_ticks: Option<u64>) -> LibvirtDomain {
    LibvirtDomain {
        name: "started-vm".to_string(),
        uuid: "77777777-8888-9999-aaaa-bbbbbbbbbbbb".to_string(),
        qmp_socket: Some("/run/libvirt/qemu/started-vm.monitor".to_string()),
        qemu_pids: vec![task_id],
        qemu_tids: Vec::new(),
        vcpu_threads: Vec::new(),
        qemu_task_identities: vec![HostTaskIdentity {
            task_id,
            start_time_ticks,
        }],
        source: LibvirtDomainSource::Xml,
    }
}

#[test]
fn parses_qemu_name_and_uuid() {
    let args = vec![
        "qemu-system-x86_64".to_string(),
        "-name".to_string(),
        "guest=win11,debug-threads=on".to_string(),
        "-uuid".to_string(),
        "11111111-2222-3333-4444-555555555555".to_string(),
    ];
    assert_eq!(parse_qemu_name(&args).as_deref(), Some("win11"));
    assert_eq!(
        parse_arg_value(&args, "-uuid").as_deref(),
        Some("11111111-2222-3333-4444-555555555555")
    );
}

#[test]
fn parses_vcpu_thread_names() {
    assert_eq!(parse_vcpu_id_from_thread_name("CPU 7/KVM"), Some(7));
    assert_eq!(parse_vcpu_id_from_thread_name("vcpu2"), Some(2));
    assert_eq!(parse_vcpu_id_from_thread_name("worker"), None);
}

#[test]
fn decodes_systemd_cgroup_name() {
    let cg = "0::/machine.slice/machine-qemu\\x2d3\\x2dprod.scope";
    assert_eq!(parse_cgroup_domain_name(cg).as_deref(), Some("3-prod"));
}

#[test]
fn parses_proc_starttime() {
    let stat = "123 (qemu system) S 1 2 3 4 5 6 7 8 9 10 11 12 13 14 15 16 17 18 9999 20";
    assert_eq!(parse_proc_stat_start_time(stat), Some(9999));
}

#[test]
fn disabled_identity_resolver_inventory_is_explicitly_disabled() {
    let resolver = VmIdentityResolver::new(
        &Identity {
            enable: false,
            ..Identity::default()
        },
        None,
    );

    let snapshot = resolver.inventory_snapshot();

    assert_eq!(snapshot.status, "disabled");
    assert_eq!(snapshot.source, "disabled");
    assert_eq!(snapshot.vm_count, 0);
    assert!(!snapshot.degraded);
}

#[test]
fn libvirt_lookup_accepts_matching_process_start_time() {
    let discovery =
        LibvirtDomainDiscovery::from_domains(vec![domain_with_task_start(4242, Some(1111))]);

    let domain = discovery
        .lookup_task_with_start_time(4242, Some(1111))
        .unwrap()
        .unwrap();

    assert_eq!(domain.uuid, "77777777-8888-9999-aaaa-bbbbbbbbbbbb");
}

#[test]
fn libvirt_lookup_rejects_pid_reuse_start_time_mismatch() {
    let discovery =
        LibvirtDomainDiscovery::from_domains(vec![domain_with_task_start(4242, Some(1111))]);

    let err = discovery
        .lookup_task_with_start_time(4242, Some(2222))
        .unwrap_err();

    assert!(matches!(err, LibvirtDiscoveryError::PidReuseDetected { .. }));
    assert!(err.message().contains("rejected host task 4242"));
}

#[test]
fn libvirt_lookup_rejects_start_aware_mapping_without_observed_start_time() {
    let discovery =
        LibvirtDomainDiscovery::from_domains(vec![domain_with_task_start(4242, Some(1111))]);

    let err = discovery.lookup_task_with_start_time(4242, None).unwrap_err();

    assert!(matches!(
        err,
        LibvirtDiscoveryError::UnverifiedTaskIdentity { .. }
    ));
    assert!(err.message().contains("cannot verify host task 4242"));
}

#[test]
fn resolver_marks_pid_reuse_detection_ambiguous_for_qmp_safety() {
    let discovery =
        LibvirtDomainDiscovery::from_domains(vec![domain_with_task_start(4242, Some(1111))]);
    let mut ident = VmIdentity {
        host_pid: 4242,
        host_start_time_ticks: Some(2222),
        vm_id: "host-pid:4242:start:2222".to_string(),
        ..VmIdentity::default()
    };

    apply_libvirt_discovery(4242, &mut ident, &discovery);

    assert!(ident.ambiguous);
    assert_eq!(ident.vm_id, "ambiguous:host-task:4242:pid-reuse");
    assert_eq!(ident.qmp_socket, None);
}

#[test]
fn libvirt_qmp_socket_mismatch_marks_identity_ambiguous() {
    let discovery =
        LibvirtDomainDiscovery::from_domains(vec![domain_with_task_start(4242, Some(1111))]);
    let mut ident = VmIdentity {
        host_pid: 4242,
        host_start_time_ticks: Some(1111),
        vm_id: "host-pid:4242:start:1111".to_string(),
        qmp_socket: Some("/run/qemu/other.monitor".to_string()),
        ..VmIdentity::default()
    };

    apply_libvirt_discovery(4242, &mut ident, &discovery);

    assert!(ident.ambiguous);
    assert_eq!(ident.vm_id, "ambiguous:host-task:4242:qmp-socket-mismatch");
    assert_eq!(
        ident.identity_conflict.as_ref().unwrap().reason,
        IdentityConflictReason::QmpSocketMismatch
    );
    assert_eq!(ident.qmp_socket, None);
}

#[test]
fn libvirt_uuid_mismatch_marks_identity_ambiguous() {
    let discovery =
        LibvirtDomainDiscovery::from_domains(vec![domain_with_task_start(4242, Some(1111))]);
    let mut ident = VmIdentity {
        host_pid: 4242,
        host_start_time_ticks: Some(1111),
        vm_id: "libvirt:00000000-1111-2222-3333-444444444444".to_string(),
        libvirt_uuid: Some("00000000-1111-2222-3333-444444444444".to_string()),
        ..VmIdentity::default()
    };

    apply_libvirt_discovery(4242, &mut ident, &discovery);

    assert!(ident.ambiguous);
    assert_eq!(
        ident.vm_id,
        "ambiguous:host-task:4242:libvirt-uuid-mismatch"
    );
    assert_eq!(
        ident.identity_conflict.as_ref().unwrap().reason,
        IdentityConflictReason::LibvirtUuidMismatch
    );
}

#[test]
fn proc_cgroup_name_mismatch_without_uuid_marks_identity_ambiguous() {
    let mut ident = VmIdentity {
        host_pid: 4242,
        host_start_time_ticks: Some(1111),
        vm_id: "name:cmdline-vm".to_string(),
        vm_name: Some("cmdline-vm".to_string()),
        identity_sources: vec![IDENTITY_SOURCE_PROC_CMDLINE.to_string()],
        ..VmIdentity::default()
    };

    merge_cgroup_identity(
        &mut ident,
        4242,
        Some("cgroup-vm".to_string()),
        Some("machine-qemu-cgroup-vm.scope".to_string()),
    );

    assert!(ident.ambiguous);
    assert_eq!(ident.vm_id, "ambiguous:host-task:4242:proc-cgroup-mismatch");
    assert_eq!(
        ident.identity_conflict.as_ref().unwrap().reason,
        IdentityConflictReason::ProcCgroupMismatch
    );
}

#[test]
fn libvirt_name_mismatch_emits_diagnostic_without_ambiguous_identity() {
    let discovery =
        LibvirtDomainDiscovery::from_domains(vec![domain_with_task_start(4242, Some(1111))]);
    let mut ident = VmIdentity {
        host_pid: 4242,
        host_start_time_ticks: Some(1111),
        vm_id: "name:old-name".to_string(),
        vm_name: Some("old-name".to_string()),
        identity_sources: vec![IDENTITY_SOURCE_PROC_CMDLINE.to_string()],
        ..VmIdentity::default()
    };

    apply_libvirt_discovery(4242, &mut ident, &discovery);

    assert!(!ident.ambiguous);
    assert_eq!(ident.vm_id, "libvirt:77777777-8888-9999-aaaa-bbbbbbbbbbbb");
    assert_eq!(
        ident.identity_conflict.as_ref().unwrap().reason,
        IdentityConflictReason::LibvirtNameMismatch
    );
}

#[test]
fn start_time_verified_libvirt_identity_reports_high_confidence() {
    let discovery =
        LibvirtDomainDiscovery::from_domains(vec![domain_with_task_start(4242, Some(1111))]);
    let mut ident = VmIdentity {
        host_pid: 4242,
        host_start_time_ticks: Some(1111),
        vm_id: "host-pid:4242:start:1111".to_string(),
        identity_sources: vec![IDENTITY_SOURCE_FALLBACK_PID.to_string()],
        ..VmIdentity::default()
    };

    apply_libvirt_discovery(4242, &mut ident, &discovery);

    assert_eq!(ident.identity_confidence, IdentityConfidence::High);
    assert!(ident.start_time_verified);
    assert!(ident
        .identity_sources
        .contains(&IDENTITY_SOURCE_LIBVIRT_XML.to_string()));
    assert!(ident
        .identity_sources
        .contains(&IDENTITY_SOURCE_START_TIME_VERIFIED.to_string()));
}

#[test]
fn ambiguous_identity_reports_low_confidence_source() {
    let discovery =
        LibvirtDomainDiscovery::from_domains(vec![domain_with_task_start(4242, Some(1111))]);
    let mut ident = VmIdentity {
        host_pid: 4242,
        host_start_time_ticks: Some(2222),
        vm_id: "host-pid:4242:start:2222".to_string(),
        ..VmIdentity::default()
    };

    apply_libvirt_discovery(4242, &mut ident, &discovery);

    assert_eq!(ident.identity_confidence, IdentityConfidence::Low);
    assert_eq!(
        ident.identity_sources,
        vec![IDENTITY_SOURCE_AMBIGUOUS.to_string()]
    );
    assert!(!ident.start_time_verified);
}

#[test]
fn proc_cmdline_uuid_identity_is_medium_confidence_not_high() {
    let mut ident = VmIdentity {
        host_pid: 4242,
        host_start_time_ticks: Some(1111),
        vm_id: "libvirt:11111111-2222-3333-4444-555555555555".to_string(),
        libvirt_uuid: Some("11111111-2222-3333-4444-555555555555".to_string()),
        identity_sources: vec![IDENTITY_SOURCE_PROC_CMDLINE.to_string()],
        ..VmIdentity::default()
    };

    recompute_identity_confidence(&mut ident);

    assert_eq!(ident.identity_confidence, IdentityConfidence::Medium);
    assert!(!ident.start_time_verified);
}

#[test]
fn identity_cache_requires_matching_observed_start_time() {
    let now: u64 = 1_000_000;
    let cached = CachedIdentity {
        seen_at_ms: now,
        start_time_ticks: Some(100),
        value: VmIdentity {
            host_pid: 4242,
            host_start_time_ticks: Some(100),
            vm_id: "host-pid:4242:start:100".to_string(),
            ..VmIdentity::default()
        },
    };

    assert!(cache_entry_matches(&cached, Some(100), now + 10, 100));
    assert!(!cache_entry_matches(&cached, Some(101), now + 10, 100));
    assert!(!cache_entry_matches(&cached, None, now + 10, 100));
    assert!(!cache_entry_matches(&cached, Some(100), now + 101, 100));
}

#[test]
fn resolver_does_not_cache_unversioned_pid_only_identity() {
    let mut resolver = VmIdentityResolver::new(&Identity::default(), None);

    let host = lib::resolver::fallback_pid_identity(2_147_000_001);
    let _ = resolver.resolve_pid(2_147_000_001, 0, None, Some(host));

    assert_eq!(resolver.cache_len(), 0);
}

#[test]
fn deterministic_replay_resolver_does_not_read_live_host_identity() {
    let mut resolver = VmIdentityResolver::deterministic_replay(&Identity::default());

    let ident = resolver.resolve_pid(4242, 0, None, None);

    assert_eq!(ident.vm_id, "host-pid:4242");
    assert_eq!(ident.host_start_time_ticks, None);
    assert_eq!(
        ident.identity_sources,
        vec![IDENTITY_SOURCE_FALLBACK_PID.to_string()]
    );
}

#[test]
fn unsupported_lifecycle_kind_is_typed() {
    let err = LibvirtLifecycleKind::try_from("crashed")
        .expect_err("unsupported lifecycle kind must be explicit");

    assert!(matches!(err, LibvirtLifecycleError::UnsupportedKind(_)));
    assert!(err.message().contains("crashed"));
}

#[test]
fn inventory_snapshot_marks_duplicate_host_task_domains_degraded() {
    let mut first = domain_with_task_start(4242, None);
    first.name = "first".to_string();
    first.uuid = "11111111-1111-1111-1111-111111111111".to_string();
    let mut second = domain_with_task_start(4242, None);
    second.name = "second".to_string();
    second.uuid = "22222222-2222-2222-2222-222222222222".to_string();
    let discovery = LibvirtDomainDiscovery::from_domains(vec![first, second]);

    let snapshot = discovery.inventory_snapshot();

    assert_eq!(snapshot.status, "degraded");
    assert!(snapshot.degraded);
    assert!(snapshot.vms.iter().all(|vm| vm.ambiguous));
    assert!(snapshot.vms.iter().all(|vm| {
        vm.conflict.as_ref().map(|conflict| conflict.reason.as_str()) == Some("multiple_domains")
    }));
}

#[test]
fn inventory_snapshot_sorts_domains_and_tasks() {
    let mut b = domain_with_task_start(20, Some(5));
    b.uuid = "bbbb".to_string();
    b.qemu_tids = vec![30, 10];
    b.vcpu_threads = vec![
        lib::identity::QemuVcpuThread { tid: 30, vcpu_id: 1 },
        lib::identity::QemuVcpuThread { tid: 10, vcpu_id: 0 },
    ];
    let mut a = domain_with_task_start(7, None);
    a.uuid = "aaaa".to_string();
    a.qmp_socket = None;
    let snapshot = LibvirtDomainDiscovery::from_domains(vec![b, a]).inventory_snapshot();

    assert_eq!(snapshot.status, "ok");
    assert_eq!(snapshot.source, "libvirt_xml");
    assert_eq!(snapshot.freshness, "file_backed_snapshot");
    assert_eq!(snapshot.vm_count, 2);
    assert_eq!(snapshot.vms[0].vm_uuid, "aaaa");
    assert_eq!(snapshot.vms[0].qmp.status, "missing");
    let tasks: Vec<(String, i32)> = snapshot.vms[1]
        .known_host_tasks
        .iter()
        .map(|t| (t.kind.clone(), t.id))
        .collect();
    assert_eq!(
        tasks,
        vec![
            ("tid".to_string(), 10),
            ("pid".to_string(), 20),
            ("tid".to_string(), 30)
        ]
    );
    assert_eq!(snapshot.vms[1].known_host_tasks[1].start_time_ticks, Some(5));
    assert_eq!(snapshot.vms[1].vcpu_mappings[0].host_tid, 10);
    assert_eq!(snapshot.vms[1].identity.confidence, IdentityConfidence::Medium);
}
