use lib::metrics::{IdentityQmpRefusalReason, Metrics, VmiMetricArchitecture, VmiMetricTranslationMode};
use lib::vmi::VmiErrorKind;

fn encoded(m: &Metrics) -> String {
    m.encode("1.2.3", "12.500000", "0.300000")
}

#[test]
fn fresh_metrics_text_starts_with_build_and_health() {
    let text = encoded(&Metrics::new());
    let head = "# HELP aegishv_build_info Build information.\n\
# TYPE aegishv_build_info gauge\n\
aegishv_build_info{version=\"1.2.3\"} 1\n\
# TYPE aegishv_health_status gauge\n\
aegishv_health_status 1.000000\n\
# TYPE aegishv_readiness_status gauge\n\
aegishv_readiness_status 0.000000\n\
# TYPE aegishv_component_status gauge\n\
aegishv_component_status{component=\"runtime\",state=\"starting\"} 1\n";
    assert!(text.starts_with(head), "{text}");
    assert!(text.contains("# TYPE aegishv_uptime_seconds gauge\naegishv_uptime_seconds 12.500000\n"));
    assert!(text.contains("# TYPE aegishv_queue_utilization gauge\naegishv_queue_utilization 0.300000\n"));
    assert!(text.contains("# TYPE aegishv_lines_ingested_total counter\naegishv_lines_ingested_total 0\n"));
    assert!(text.ends_with("# TYPE aegishv_parse_latency_sum_us counter\naegishv_parse_latency_sum_us 0\n"));
}

#[test]
fn fixed_series_list_every_reason_in_order() {
    let text = encoded(&Metrics::new());
    let parsed = text.find("aegishv_trace_inputs_total{reason=\"parsed\"} 0\n").unwrap();
    let bug = text.find("aegishv_trace_inputs_total{reason=\"parser_bug\"} 0\n").unwrap();
    assert!(parsed < bug);
    assert!(text.contains(
        "aegishv_identity_enrichments_total{confidence=\"high\",ambiguous=\"true\"} 0\n"
    ));
    assert!(text.contains("aegishv_identity_conflicts_total{reason=\"libvirt_name_mismatch\"} 0\n"));
    assert!(text.contains("aegishv_identity_cache_lookups_total{result=\"refusal\"} 0\n"));
    assert!(!text.contains("aegishv_dropped_by_reason_total{"));
}

#[test]
fn refusal_counter_appears_in_text() {
    let mut m = Metrics::new();
    m.inc_identity_qmp_safety_refusal(IdentityQmpRefusalReason::StableIdentityRequired);
    let text = encoded(&m);
    assert!(text.contains(
        "aegishv_identity_qmp_safety_refusals_total{reason=\"stable_identity_required\"} 1"
    ));
    assert!(text.contains("aegishv_identity_qmp_safety_refusals_total{reason=\"low_confidence\"} 0"));
}

#[test]
fn label_values_are_escaped() {
    let mut m = Metrics::new();
    m.inc_dropped("a\"b\\c\nd");
    m.inc_dropped("a\"b\\c\nd");
    let text = encoded(&m);
    assert!(text.contains("aegishv_dropped_by_reason_total{reason=\"a\\\"b\\\\c\\nd\"} 2\n"), "{text}");
}

#[test]
fn integer_gauges_have_six_decimals() {
    let mut m = Metrics::new();
    m.set_queue_depth(3, 10);
    let text = encoded(&m);
    assert!(text.contains("# TYPE aegishv_queue_depth gauge\naegishv_queue_depth 3.000000\n"));
    assert!(text.contains("# TYPE aegishv_queue_capacity gauge\naegishv_queue_capacity 10.000000\n"));
}

#[test]
fn translation_failures_carry_three_labels() {
    let mut m = Metrics::new();
    m.record_vmi_translation_failure(
        VmiMetricArchitecture::X86_64,
        VmiMetricTranslationMode::X86_64La57,
        VmiErrorKind::Unmapped,
    );
    let text = encoded(&m);
    assert!(text.contains(
        "# TYPE aegishv_vmi_translation_failures_total counter\naegishv_vmi_translation_failures_total{architecture=\"x86_64\",mode=\"x86_64-la57\",kind=\"unmapped\"} 1\n"
    ), "{text}");
}
