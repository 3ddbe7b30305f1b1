use lib::config::Identity;
use lib::event::{Category, Event, EventStamp, IdentityConfidence, Severity};
use lib::identity::{
    IdentityCacheResult, IdentityConflict, IdentityConflictReason, LibvirtDiscoveryError,
    LibvirtDomain, LibvirtDomainDiscovery, QemuVcpuThread, VmIdentity, IDENTITY_SOURCE_AMBIGUOUS,
    IDENTITY_SOURCE_LIBVIRT_LIFECYCLE,
};
use lib::libvirt_xml::parse_libvirt_domain_xml;
use lib::lifecycle::QueuedLibvirtLifecycleSource;
use lib::resolver::{
    finish_host_identity, host_identity, LibvirtLifecycleError, LibvirtLifecycleEvent,
    LibvirtLifecycleKind, VmIdentityResolver,
};

const PROD_LINUX_XML: &str = r#"
<domain type="kvm">
  <name>prod-linux</name>
  <uuid>aaaaaaaa-bbbb-cccc-dddd-eeeeeeeeeeee</uuid>
  <metadata>
    <aegishv:qemu xmlns:aegishv="https://example.invalid/aegishv" pid="5252" tid="5253" qmp_socket="/run/libvirt/qemu/prod-linux.monitor"/>
  </metadata>
</domain>
"#;

const WIN11_XML: &str = r#"
<domain type="kvm">
  <name>win11</name>
  <uuid>11111111-2222-3333-4444-555555555555</uuid>
  <metadata>
    <aegishv:qemu xmlns:aegishv="https://example.invalid/aegishv" pid="4242" qmp_socket="/run/libvirt/qemu/win11.monitor">
      <aegishv:thread tid="4243" vcpu_id="0"/>
      <aegishv:thread tid="4244" vcpu_id="1"/>
    </aegishv:qemu>
  </metadata>
</domain>
"#;

const AMBIGUOUS_A_XML: &str = r#"
<domain type="kvm">
  <name>ambiguous-a</name>
  <uuid>cccccccc-1111-2222-3333-444444444444</uuid>
  <metadata><aegishv:qemu xmlns:aegishv="https://example.invalid/aegishv" pid="6262"/></metadata>
</domain>
"#;

const AMBIGUOUS_B_XML: &str = r#"
<domain type="kvm">
  <name>ambiguous-b</name>
  <uuid>bbbbbbbb-cccc-dddd-eeee-ffffffffffff</uuid>
  <metadata><aegishv:qemu xmlns:aegishv="https://example.invalid/aegishv" pid="6262"/></metadata>
</domain>
"#;

fn discovery() -> LibvirtDomainDiscovery {
    let domains: Vec<LibvirtDomain> = [PROD_LINUX_XML, WIN11_XML, AMBIGUOUS_A_XML, AMBIGUOUS_B_XML]
        .iter()
        .enumerate()
        .map(|(i, xml)| parse_libvirt_domain_xml(&format!("domain-{i}.xml"), xml).unwrap())
        .collect();
    LibvirtDomainDiscovery::from_domains(domains)
}

fn resolver_with_fixtures() -> VmIdentityResolver {
    VmIdentityResolver::new(&Identity::default(), Some(discovery()))
}

/// What the host shows of a task that has no /proc entry.
fn absent_task(pid: i32) -> VmIdentity {
    let mut h = host_identity(pid, None, &None, &None);
    finish_host_identity(&mut h, None);
    h
}

fn resolve(resolver: &mut VmIdentityResolver, pid: i32) -> VmIdentity {
    resolver.resolve_pid(pid, 1_000, None, Some(absent_task(pid)))
}

fn stamp() -> EventStamp {
    EventStamp {
        monotonic_ms: 1,
        sequence: 1,
        event_id: "evt-1".to_string(),
        host_id: None,
        sensor_id: None,
        tenant_id: None,
    }
}

fn exit_event(pid: i32, tid: i32) -> Event {
    let mut ev = Event::base(
        Category::Exit,
        Severity::Info,
        "2026-01-01T00:00:00Z".to_string(),
        "qemu-system-x86".to_string(),
        stamp(),
    );
    ev.host_pid = Some(pid);
    ev.host_tid = Some(tid);
    ev
}

fn enrich(resolver: &mut VmIdentityResolver, ev: &mut Event) -> lib::identity::IdentityEnrichment {
    let task = ev.host_tid.or(ev.host_pid).unwrap();
    resolver.enrich_event(
        ev,
        1_000,
        None,
        Some(absent_task(task)),
        "2026-01-01T00:00:01Z".to_string(),
        stamp(),
    )
}

#[test]
fn malformed_vcpu_thread_metadata_returns_typed_error() {
    let xml = r#"
<domain type="kvm">
  <name>bad-vcpu-map</name>
  <uuid>99999999-aaaa-bbbb-cccc-dddddddddddd</uuid>
  <metadata>
    <aegishv:qemu xmlns:aegishv="https://github.com/Nullbit1/AegisHV" pid="7000">
      <aegishv:thread tid="7001" vcpu_id="0"/>
      <aegishv:thread tid="7001" vcpu_id="1"/>
    </aegishv:qemu>
  </metadata>
</domain>
"#;

    let err = parse_libvirt_domain_xml("inline-conflicting-vcpu.xml", xml).unwrap_err();

    assert!(matches!(err, LibvirtDiscoveryError::MalformedDomain { .. }));
    assert!(err.message().contains("conflicting vCPU metadata"));
}

#[test]
fn domain_xml_reads_name_uuid_tasks_and_socket() {
    let d = parse_libvirt_domain_xml("win11.xml", WIN11_XML).unwrap();
    assert_eq!(d.name, "win11");
    assert_eq!(d.uuid, "11111111-2222-3333-4444-555555555555");
    assert_eq!(d.qemu_pids, vec![4242]);
    assert_eq!(d.qemu_tids, vec![4243, 4244]);
    assert_eq!(
        d.vcpu_threads,
        vec![QemuVcpuThread { tid: 4243, vcpu_id: 0 }, QemuVcpuThread { tid: 4244, vcpu_id: 1 }]
    );
    assert_eq!(d.qmp_socket.as_deref(), Some("/run/libvirt/qemu/win11.monitor"));
    assert_eq!(d.qemu_task_identities.len(), 3);
}

#[test]
fn domain_xml_errors_name_their_cause() {
    let err = parse_libvirt_domain_xml("x.xml", "<domain><name>a</name></domain>").unwrap_err();
    assert_eq!(
        err.message(),
        "parse libvirt domain XML x.xml: missing required <uuid> element in domain XML"
    );
    let err = parse_libvirt_domain_xml("x.xml", "<domain><uuid>u</uuid></domain>").unwrap_err();
    assert!(err.message().contains("missing required <name>"));
    let err = parse_libvirt_domain_xml("x.xml", "<domain><name>a</name><uuid>u</uuid></domain>")
        .unwrap_err();
    assert!(err.message().contains("missing mocked qemu pid or tid attribute"));
    let err = parse_libvirt_domain_xml(
        "x.xml",
        r#"<domain><name>a</name><uuid>u</uuid><q pid="1" pid_start_time_ticks="x"/></domain>"#,
    )
    .unwrap_err();
    assert!(err
        .message()
        .contains("invalid process start_time_ticks attribute pid_start_time_ticks='x'"));
    let d = parse_libvirt_domain_xml(
        "x.xml",
        r#"<domain><name>a &amp; b</name><uuid> u </uuid><q pid="3" start_time_ticks="77"/></domain>"#,
    )
    .unwrap();
    assert_eq!(d.name, "a & b");
    assert_eq!(d.uuid, "u");
    assert_eq!(d.qemu_task_identities[0].start_time_ticks, Some(77));
}

#[test]
fn resolver_enriches_from_optional_libvirt_xml_discovery() {
    let mut resolver = resolver_with_fixtures();

    let ident = resolve(&mut resolver, 5253);

    assert_eq!(ident.vm_id, "libvirt:aaaaaaaa-bbbb-cccc-dddd-eeeeeeeeeeee");
    assert_eq!(ident.vm_name.as_deref(), Some("prod-linux"));
    assert_eq!(
        ident.qmp_socket.as_deref(),
        Some("/run/libvirt/qemu/prod-linux.monitor")
    );
    assert!(!ident.ambiguous);
}

#[test]
fn ambiguous_libvirt_task_marks_identity_ambiguous() {
    let mut resolver = resolver_with_fixtures();

    let ident = resolve(&mut resolver, 6262);

    assert_eq!(ident.vm_id, "ambiguous:host-task:6262");
    assert!(ident.ambiguous);
    assert_eq!(ident.vm_name, None);
    assert_eq!(ident.qmp_socket, None);
}

#[test]
fn resolver_enriches_guest_vcpu_from_known_host_tid_mapping() {
    let mut resolver = resolver_with_fixtures();
    let mut ev = exit_event(4242, 4243);
    ev.host_cpu = Some(7);

    let enrichment = enrich(&mut resolver, &mut ev);

    assert_eq!(
        ev.vm_id.as_deref(),
        Some("libvirt:11111111-2222-3333-4444-555555555555")
    );
    assert_eq!(enrichment.cache_result, Some(IdentityCacheResult::Miss));
    assert_eq!(enrichment.confidence, Some(IdentityConfidence::Medium));
    assert!(!enrichment.ambiguous);
    assert_eq!(enrichment.conflict_reason, None);
    assert_eq!(ev.vcpu_id, Some(0));
    assert_eq!(ev.vcpu, Some(0));
    assert_eq!(ev.host_cpu, Some(7));
    assert!(ev.tags.contains(&"identity:vcpu-map".to_string()));
    assert!(ev.tags.contains(&"identity:proc".to_string()));
    assert!(ev.tags.contains(&"identity:libvirt".to_string()));
    assert_eq!(ev.vm, "win11");
}

#[test]
fn resolver_does_not_overwrite_tracepoint_vcpu_id() {
    let mut resolver = resolver_with_fixtures();
    let mut ev = exit_event(4242, 4243);
    ev.vcpu_id = Some(9);
    ev.vcpu = Some(9);

    enrich(&mut resolver, &mut ev);

    assert_eq!(ev.vcpu_id, Some(9));
    assert_eq!(ev.vcpu, Some(9));
    assert!(!ev.tags.contains(&"identity:vcpu-map".to_string()));
}

#[test]
fn resolver_leaves_vcpu_unknown_when_metadata_is_missing() {
    let mut resolver = resolver_with_fixtures();
    let mut ev = exit_event(5252, 5253);

    enrich(&mut resolver, &mut ev);

    assert_eq!(
        ev.vm_id.as_deref(),
        Some("libvirt:aaaaaaaa-bbbb-cccc-dddd-eeeeeeeeeeee")
    );
    assert_eq!(ev.vcpu_id, None);
    assert_eq!(ev.vcpu, None);
    assert!(!ev.tags.contains(&"identity:vcpu-map".to_string()));
}

#[test]
fn disabled_resolver_leaves_event_unchanged() {
    let cfg = Identity { enable: false, ..Identity::default() };
    let mut resolver = VmIdentityResolver::new(&cfg, Some(discovery()));
    let mut ev = exit_event(5252, 5253);
    let before = ev.clone();
    let enrichment = resolver.enrich_event(&mut ev, 0, None, None, String::new(), stamp());
    assert_eq!(ev, before);
    assert_eq!(enrichment.cache_result, None);
}

#[test]
fn identity_conflict_event_is_bounded_and_cooldown_suppressed() {
    let mut resolver = VmIdentityResolver::new(&Identity::default(), None);
    let ident = VmIdentity {
        host_pid: 4242,
        host_start_time_ticks: Some(2222),
        vm_id: "ambiguous:host-task:4242:pid-reuse".to_string(),
        ambiguous: true,
        identity_sources: vec![IDENTITY_SOURCE_AMBIGUOUS.to_string()],
        identity_conflict: Some(IdentityConflict {
            task_id: 4242,
            reason: IdentityConflictReason::PidReuse,
            ambiguous: true,
        }),
        ..VmIdentity::default()
    };

    let first = resolver
        .identity_conflict_event(&ident, 1_000, "t".to_string(), stamp())
        .unwrap();
    let second = resolver.identity_conflict_event(&ident, 1_500, "t".to_string(), stamp());
    let third = resolver.identity_conflict_event(&ident, 61_000, "t".to_string(), stamp());

    assert_eq!(first.category, Category::Sensor);
    assert_eq!(first.reason.as_deref(), Some("identity_conflict"));
    assert_eq!(first.vm, "host");
    assert_eq!(
        first.tags,
        [
            "identity:conflict".to_string(),
            "identity_conflict:pid_reuse".to_string()
        ]
    );
    let message = first.message.as_deref().unwrap();
    assert_eq!(
        message,
        "identity conflict reason=pid_reuse task_id=4242 outcome=identity_degraded"
    );
    assert!(!message.contains("/run/"));
    assert!(!message.contains("<domain"));
    assert!(!message.contains("qemu-system"));
    assert!(first.identity.as_ref().unwrap().ambiguous);
    assert_eq!(first.host_pid, Some(4242));
    assert!(second.is_none());
    assert!(third.is_some());
}

fn started_event() -> LibvirtLifecycleEvent {
    LibvirtLifecycleEvent {
        kind: LibvirtLifecycleKind::Started,
        uuid: "77777777-8888-9999-aaaa-bbbbbbbbbbbb".to_string(),
        name: Some("started-vm".to_string()),
        qemu_pid: Some(9001),
        qemu_tids: vec![9002],
        vcpu_threads: vec![QemuVcpuThread { tid: 9002, vcpu_id: 3 }],
        qmp_socket: Some("/run/libvirt/qemu/started-vm.monitor".to_string()),
    }
}

#[test]
fn lifecycle_source_start_event_refreshes_discovery_and_emits_sensor_event() {
    let mut resolver = VmIdentityResolver::new(&Identity::default(), None);
    let mut source = QueuedLibvirtLifecycleSource::new(vec![Ok(started_event())]);

    let events = resolver
        .drain_libvirt_lifecycle(&mut source, "t", 1)
        .expect("queued lifecycle source must drain");
    let ident = resolve(&mut resolver, 9002);

    assert_eq!(events.len(), 1);
    assert_eq!(events[0].sequence, 1);
    let event = &events[0];
    assert_eq!(event.category, Category::Sensor);
    assert_eq!(event.reason.as_deref(), Some("libvirt_lifecycle"));
    assert!(event.tags.contains(&"identity:libvirt".to_string()));
    let identity = event.identity.as_ref().unwrap();
    assert_eq!(identity.confidence, IdentityConfidence::Medium);
    assert_eq!(
        identity.sources,
        vec![IDENTITY_SOURCE_LIBVIRT_LIFECYCLE.to_string()]
    );
    assert!(event.message.as_deref().unwrap().contains("kind=started"));
    assert_eq!(ident.vm_id, "libvirt:77777777-8888-9999-aaaa-bbbbbbbbbbbb");
    assert_eq!(ident.vm_name.as_deref(), Some("started-vm"));
    assert_eq!(
        ident.qmp_socket.as_deref(),
        Some("/run/libvirt/qemu/started-vm.monitor")
    );
    assert_eq!(ident.vcpu_id, Some(3));
}

#[test]
fn lifecycle_stop_removes_discovery_and_invalidates_cached_identity() {
    let mut resolver = resolver_with_fixtures();
    let before = resolve(&mut resolver, 5253);

    let event = resolver
        .apply_libvirt_lifecycle_event(
            LibvirtLifecycleEvent {
                kind: LibvirtLifecycleKind::Stopped,
                uuid: "aaaaaaaa-bbbb-cccc-dddd-eeeeeeeeeeee".to_string(),
                name: Some("prod-linux".to_string()),
                qemu_pid: Some(5252),
                qemu_tids: vec![5253],
                vcpu_threads: Vec::new(),
                qmp_socket: None,
            },
            "t".to_string(),
            stamp(),
        )
        .expect("stop lifecycle event must apply");
    let after = resolve(&mut resolver, 5253);

    assert_eq!(before.vm_id, "libvirt:aaaaaaaa-bbbb-cccc-dddd-eeeeeeeeeeee");
    assert!(!after.vm_id.starts_with("libvirt:"));
    let message = event.message.as_deref().unwrap();
    assert!(message.contains("kind=stopped"));
    assert!(message.contains("discovery=removed"));
    assert!(message.contains("cache_invalidated=0"));
}

#[test]
fn lifecycle_update_clears_stale_task_mapping_before_resolution() {
    let mut resolver = resolver_with_fixtures();
    let before = resolve(&mut resolver, 6262);

    resolver
        .apply_libvirt_lifecycle_event(
            LibvirtLifecycleEvent {
                kind: LibvirtLifecycleKind::Started,
                uuid: "bbbbbbbb-cccc-dddd-eeee-ffffffffffff".to_string(),
                name: Some("ambiguous-b".to_string()),
                qemu_pid: Some(6262),
                qemu_tids: Vec::new(),
                vcpu_threads: Vec::new(),
                qmp_socket: Some("/run/libvirt/qemu/ambiguous-b.monitor".to_string()),
            },
            "t".to_string(),
            stamp(),
        )
        .expect("lifecycle update must replace stale task mapping");
    let after = resolve(&mut resolver, 6262);

    assert!(before.ambiguous);
    assert!(!after.ambiguous);
    assert_eq!(after.vm_id, "libvirt:bbbbbbbb-cccc-dddd-eeee-ffffffffffff");
    assert_eq!(after.vm_name.as_deref(), Some("ambiguous-b"));
}

#[test]
fn lifecycle_pause_invalidates_cache_without_removing_discovery() {
    let mut resolver = resolver_with_fixtures();
    let before = resolve(&mut resolver, 5253);

    let event = resolver
        .apply_libvirt_lifecycle_event(
            LibvirtLifecycleEvent {
                kind: LibvirtLifecycleKind::Paused,
                uuid: "aaaaaaaa-bbbb-cccc-dddd-eeeeeeeeeeee".to_string(),
                name: Some("prod-linux".to_string()),
                qemu_pid: None,
                qemu_tids: Vec::new(),
                vcpu_threads: Vec::new(),
                qmp_socket: None,
            },
            "t".to_string(),
            stamp(),
        )
        .expect("pause lifecycle event must apply");
    let after = resolve(&mut resolver, 5253);

    assert_eq!(before.vm_id, "libvirt:aaaaaaaa-bbbb-cccc-dddd-eeeeeeeeeeee");
    assert_eq!(after.vm_id, "libvirt:aaaaaaaa-bbbb-cccc-dddd-eeeeeeeeeeee");
    let message = event.message.as_deref().unwrap();
    assert!(message.contains("kind=paused"));
    assert!(message.contains("discovery=unchanged"));
    assert!(message.contains("cache_invalidated=0"));
}

#[test]
fn lifecycle_update_without_task_mapping_does_not_invent_identity() {
    let mut resolver = VmIdentityResolver::new(&Identity::default(), None);

    let event = resolver
        .apply_libvirt_lifecycle_event(
            LibvirtLifecycleEvent {
                kind: LibvirtLifecycleKind::Migrated,
                uuid: "cccccccc-dddd-eeee-ffff-000000000000".to_string(),
                name: Some("migrated-vm".to_string()),
                qemu_pid: None,
                qemu_tids: Vec::new(),
                vcpu_threads: Vec::new(),
                qmp_socket: None,
            },
            "t".to_string(),
            stamp(),
        )
        .expect("mapping-free lifecycle event must be explicit but non-fatal");
    let ident = resolve(&mut resolver, 9100);

    assert!(!ident.vm_id.starts_with("libvirt:"));
    let message = event.message.as_deref().unwrap();
    assert!(message.contains("kind=migrated"));
    assert!(message.contains("discovery=unchanged"));
    assert!(message.contains("task_count=0"));
}

#[test]
fn lifecycle_event_requires_domain_uuid() {
    let mut resolver = VmIdentityResolver::new(&Identity::default(), None);

    let err = resolver
        .apply_libvirt_lifecycle_event(
            LibvirtLifecycleEvent {
                kind: LibvirtLifecycleKind::Started,
                uuid: " ".to_string(),
                name: Some("missing-uuid".to_string()),
                qemu_pid: Some(1),
                qemu_tids: Vec::new(),
                vcpu_threads: Vec::new(),
                qmp_socket: None,
            },
            "t".to_string(),
            stamp(),
        )
        .expect_err("missing UUID must be rejected");

    assert!(matches!(err, LibvirtLifecycleError::MalformedEvent(_)));
    assert!(err.message().contains("missing domain uuid"));
}

#[test]
fn upsert_takes_tasks_from_other_domains() {
    let mut d = discovery();
    let mut started = parse_libvirt_domain_xml("b.xml", AMBIGUOUS_B_XML).unwrap();
    started.qemu_pids = vec![6262, 5253];
    d.upsert_domain(started.clone());
    assert!(d.domains.iter().any(|x| x == &started));
    assert_eq!(d.domains.iter().filter(|x| x.uuid == started.uuid).count(), 1);
    assert!(d.domains.iter().all(|x| x.name != "ambiguous-a"));
    let prod = d.domains.iter().find(|x| x.name == "prod-linux").unwrap();
    assert_eq!(prod.qemu_pids, vec![5252]);
    assert!(prod.qemu_tids.is_empty());
}

#[test]
fn inventory_snapshot_reports_libvirt_domains_without_socket_paths() {
    let snapshot = discovery().inventory_snapshot();
    let json = snapshot.to_json();
    let win11 = snapshot
        .vms
        .iter()
        .find(|vm| vm.vm_name == "win11")
        .expect("win11 inventory entry");

    assert_eq!(snapshot.status, "degraded");
    assert_eq!(snapshot.source, "libvirt_xml");
    assert_eq!(snapshot.freshness, "file_backed_snapshot");
    assert_eq!(snapshot.vm_count, 4);
    assert!(snapshot.degraded);
    assert_eq!(win11.vm_id, "libvirt:11111111-2222-3333-4444-555555555555");
    assert_eq!(win11.qmp.status, "configured");
    assert!(win11.qmp.present);
    assert_eq!(win11.vcpu_mappings.len(), 2);
    assert_eq!(win11.identity.confidence, IdentityConfidence::Medium);
    assert!(!win11.identity.start_time_verified);
    assert!(!json.contains("/run/"));
    assert!(!json.contains("<domain"));
    assert!(!json.contains("qemu-system"));
    assert!(json.starts_with("{\"status\":\"degraded\",\"source\":\"libvirt_xml\",\"freshness\":\"file_backed_snapshot\",\"vm_count\":4,\"degraded\":true,\"vms\":[{"));
}

#[test]
fn empty_inventory_snapshot_json() {
    let snapshot = lib::identity::VmInventorySnapshot::empty();
    assert_eq!(
        snapshot.to_json(),
        "{\"status\":\"ok\",\"source\":\"none\",\"freshness\":\"none\",\"vm_count\":0,\"degraded\":false,\"vms\":[]}"
    );
}

#[test]
fn lifecycle_source_error_is_typed_and_does_not_drain_as_success() {
    let mut resolver = VmIdentityResolver::new(&Identity::default(), None);
    let mut source = QueuedLibvirtLifecycleSource::new(vec![Err(LibvirtLifecycleError::Source(
        "mock source closed".to_string(),
    ))]);

    let err = resolver
        .drain_libvirt_lifecycle(&mut source, "t", 1)
        .expect_err("source error must stop lifecycle drain");

    assert!(matches!(err, LibvirtLifecycleError::Source(_)));
    assert!(err.message().contains("mock source closed"));
}

#[test]
fn drained_events_are_numbered_in_order() {
    let mut resolver = VmIdentityResolver::new(&Identity::default(), None);
    let mut second = started_event();
    second.kind = LibvirtLifecycleKind::Stopped;
    let mut source = QueuedLibvirtLifecycleSource::new(vec![Ok(started_event()), Ok(second)]);
    let events = resolver.drain_libvirt_lifecycle(&mut source, "now", 7).unwrap();
    assert_eq!(events.iter().map(|e| e.sequence).collect::<Vec<_>>(), vec![7, 8]);
    assert_eq!(events[1].event_id, "evt-8");
    assert!(events.iter().all(|e| e.ts == "now"));
}
