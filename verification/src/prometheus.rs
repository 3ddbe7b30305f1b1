//! Prometheus text exposition of the sensor metrics.
//!
//! The two floating-point gauges (uptime and queue utilisation) come in as
//! text already formatted with six decimals; every other value is rendered
//! here.
use vstd::prelude::*;
use crate::event::IdentityConfidence;
use crate::identity::{IdentityCacheResult, IdentityConflictReason};
use crate::metrics::{
    is_healthy, is_ready, label1, label2, label3, ComponentStatus, IdentityQmpRefusalReason, LabelCounts, Metrics,
    TraceInputReason,
};
use crate::text::{dec, dec_int, i64_to_dec, push_char, push_str, to_chars, u64_to_dec, views};

verus! {

/// One character of a label value, escaped.
pub open spec fn esc_char(c: char) -> Seq<char> {
    if c == '\\' {
        seq!['\\', '\\']
    } else if c == '"' {
        seq!['\\', '"']
    } else if c == '\n' {
        seq!['\\', 'n']
    } else {
        seq![c]
    }
}

/// A label value with backslash, double quote and newline escaped.
pub open spec fn esc_label(s: Seq<char>) -> Seq<char>
    decreases s.len(),
{
    if s.len() == 0 {
        Seq::empty()
    } else {
        esc_label(s.drop_last()) + esc_char(s.last())
    }
}

/// Escapes a label value.
pub fn escape_label(s: &str) -> (r: String)
    ensures
        r@ == esc_label(s@),
{
    let v = to_chars(s);
    let mut out = String::new();
    let mut i: usize = 0;
    while i < v.len()
        invariant
            i <= v@.len(),
            v@ == s@,
            out@ == esc_label(v@.take(i as int)),
        decreases v@.len() - i,
    {
        let c = v[i];
        proof {
            assert(v@.take(i as int + 1).drop_last() =~= v@.take(i as int));
        }
        if c == '\\' {
            push_char(&mut out, '\\');
            push_char(&mut out, '\\');
        } else if c == '"' {
            push_char(&mut out, '\\');
            push_char(&mut out, '"');
        } else if c == '\n' {
            push_char(&mut out, '\\');
            push_char(&mut out, 'n');
        } else {
            push_char(&mut out, c);
        }
        i = i + 1;
        assert(out@ =~= esc_label(v@.take(i as int)));
    }
    assert(v@.take(v@.len() as int) =~= v@);
    out
}

/// `# TYPE name counter` and the sample.
pub open spec fn counter_after(acc: Seq<char>, name: Seq<char>, v: u64) -> Seq<char> {
    acc + "# TYPE "@ + name + " counter\n"@ + name + " "@ + dec(v as nat) + "\n"@
}

/// `# TYPE name gauge` and the sample, whose value is given as text.
pub open spec fn gauge_after(acc: Seq<char>, name: Seq<char>, value: Seq<char>) -> Seq<char> {
    acc + "# TYPE "@ + name + " gauge\n"@ + name + " "@ + value + "\n"@
}

/// An integer gauge value with six decimals.
pub open spec fn int_gauge_text(x: i64) -> Seq<char> {
    dec_int(x as int) + ".000000"@
}

/// A flag gauge value: one or zero, with six decimals.
pub open spec fn flag_text(b: bool) -> Seq<char> {
    if b {
        "1.000000"@
    } else {
        "0.000000"@
    }
}

/// A sample with one label whose value needs no escaping.
pub open spec fn line1(acc: Seq<char>, metric: Seq<char>, key: Seq<char>, val: Seq<char>, n: u64) -> Seq<char> {
    acc + metric + "{"@ + key + "=\""@ + val + "\"} "@ + dec(n as nat) + "\n"@
}

/// The i-th label value, or nothing when the entry has fewer labels.
pub open spec fn val_at(vals: Seq<Seq<char>>, i: int) -> Seq<char> {
    if 0 <= i < vals.len() {
        vals[i]
    } else {
        Seq::empty()
    }
}

/// One `key="value"` pair, after a comma unless it is the first.
pub open spec fn label_pair(acc: Seq<char>, first: bool, key: Seq<char>, val: Seq<char>) -> Seq<char> {
    acc + (if first {
        Seq::empty()
    } else {
        ","@
    }) + key + "=\""@ + esc_label(val) + "\""@
}

/// The first `n` label pairs of a sample.
pub open spec fn pairs_upto(keys: Seq<Seq<char>>, vals: Seq<Seq<char>>, n: nat) -> Seq<char>
    decreases n,
{
    if n == 0 {
        Seq::empty()
    } else {
        label_pair(pairs_upto(keys, vals, (n - 1) as nat), n == 1, keys[n - 1], val_at(vals, n - 1))
    }
}

/// The sample line of one labelled counter entry.
pub open spec fn series_line(acc: Seq<char>, metric: Seq<char>, keys: Seq<Seq<char>>, e: (Vec<String>, u64)) -> Seq<char> {
    acc + metric + "{"@ + pairs_upto(keys, views(e.0@), keys.len()) + "} "@ + dec(e.1 as nat) + "\n"@
}

/// The sample lines of labelled counter entries, in their stored order.
pub open spec fn series(acc: Seq<char>, metric: Seq<char>, keys: Seq<Seq<char>>, es: Seq<(Vec<String>, u64)>) -> Seq<char>
    decreases es.len(),
{
    if es.len() == 0 {
        acc
    } else {
        series_line(series(acc, metric, keys, es.drop_last()), metric, keys, es.last())
    }
}

fn push_counter(out: &mut String, name: &str, v: u64)
    ensures
        final(out)@ == counter_after(old(out)@, name@, v),
{
    push_str(out, "# TYPE ");
    push_str(out, name);
    push_str(out, " counter\n");
    push_str(out, name);
    push_str(out, " ");
    let d = u64_to_dec(v);
    push_str(out, d.as_str());
    push_str(out, "\n");
}

fn push_gauge(out: &mut String, name: &str, value: &str)
    ensures
        final(out)@ == gauge_after(old(out)@, name@, value@),
{
    push_str(out, "# TYPE ");
    push_str(out, name);
    push_str(out, " gauge\n");
    push_str(out, name);
    push_str(out, " ");
    push_str(out, value);
    push_str(out, "\n");
}

fn push_int_gauge(out: &mut String, name: &str, x: i64)
    ensures
        final(out)@ == gauge_after(old(out)@, name@, int_gauge_text(x)),
{
    let mut t = i64_to_dec(x);
    push_str(&mut t, ".000000");
    push_gauge(out, name, t.as_str());
}

fn push_flag_gauge(out: &mut String, name: &str, b: bool)
    ensures
        final(out)@ == gauge_after(old(out)@, name@, flag_text(b)),
{
    if b {
        push_gauge(out, name, "1.000000");
    } else {
        push_gauge(out, name, "0.000000");
    }
}

fn push_line1(out: &mut String, metric: &str, key: &str, val: &str, n: u64)
    ensures
        final(out)@ == line1(old(out)@, metric@, key@, val@, n),
{
    push_str(out, metric);
    push_str(out, "{");
    push_str(out, key);
    push_str(out, "=\"");
    push_str(out, val);
    push_str(out, "\"} ");
    let d = u64_to_dec(n);
    push_str(out, d.as_str());
    push_str(out, "\n");
}

fn push_label_pair(p: &mut String, first: bool, key: &str, val: &str)
    ensures
        final(p)@ == label_pair(old(p)@, first, key@, val@),
{
    if first {
        assert(old(p)@ + Seq::<char>::empty() =~= old(p)@);
    } else {
        push_str(p, ",");
    }
    push_str(p, key);
    push_str(p, "=\"");
    let e = escape_label(val);
    push_str(p, e.as_str());
    push_str(p, "\"");
}

fn pairs_text(keys: &Vec<String>, labels: &Vec<String>) -> (r: String)
    ensures
        r@ == pairs_upto(views(keys@), views(labels@), keys@.len()),
{
    let mut p = String::new();
    let mut j: usize = 0;
    while j < keys.len()
        invariant
            j <= keys@.len(),
            p@ == pairs_upto(views(keys@), views(labels@), j as nat),
        decreases keys@.len() - j,
    {
        let ghost kv = views(keys@);
        let ghost vv = views(labels@);
        assert(kv[j as int] == keys@[j as int]@);
        if j < labels.len() {
            assert(val_at(vv, j as int) == labels@[j as int]@);
            push_label_pair(&mut p, j == 0, keys[j].as_str(), labels[j].as_str());
        } else {
            proof {
                reveal_strlit("");
                assert(val_at(vv, j as int) =~= ""@);
            }
            push_label_pair(&mut p, j == 0, keys[j].as_str(), "");
        }
        j = j + 1;
    }
    p
}

fn push_series(out: &mut String, metric: &str, keys: &Vec<String>, counts: &LabelCounts)
    ensures
        final(out)@ == series(old(out)@, metric@, views(keys@), counts.entries@),
{
    let es = &counts.entries;
    let mut i: usize = 0;
    while i < es.len()
        invariant
            i <= es@.len(),
            out@ == series(old(out)@, metric@, views(keys@), es@.take(i as int)),
        decreases es@.len() - i,
    {
        proof {
            assert(es@.take(i as int + 1).drop_last() =~= es@.take(i as int));
            assert(es@.take(i as int + 1).last() == es@[i as int]);
            assert(views(keys@).len() == keys@.len());
        }
        let e = &es[i];
        push_str(out, metric);
        push_str(out, "{");
        let p = pairs_text(keys, &e.0);
        push_str(out, p.as_str());
        push_str(out, "} ");
        let d = u64_to_dec(e.1);
        push_str(out, d.as_str());
        push_str(out, "\n");
        i = i + 1;
    }
    assert(es@.take(es@.len() as int) =~= es@);
}


/// The enrichment sample for one confidence and ambiguity.
pub open spec fn enrichment_line(acc: Seq<char>, conf: IdentityConfidence, ambiguous: bool, n: u64) -> Seq<char> {
    acc + "aegishv_identity_enrichments_total{confidence=\""@ + conf.name() + "\",ambiguous=\""@
        + crate::text::bool_text(ambiguous) + "\"} "@ + dec(n as nat) + "\n"@
}

/// The status sample of one component.
pub open spec fn component_line(acc: Seq<char>, name: Seq<char>, st: ComponentStatus) -> Seq<char> {
    acc + "aegishv_component_status{component=\""@ + name + "\",state=\""@ + st.name() + "\"} 1\n"@
}

/// Build information, health, readiness, component states, uptime and ingested lines.
pub open spec fn text_head(m: Metrics, version: Seq<char>, uptime: Seq<char>) -> Seq<char> {
    let c = m.components_of();
    let a = Seq::<char>::empty() + "# HELP aegishv_build_info Build information.\n# TYPE aegishv_build_info gauge\n"@;
    let a = a + "aegishv_build_info{version=\""@ + version + "\"} 1\n"@;
    let a = gauge_after(a, "aegishv_health_status"@, flag_text(is_healthy(c)));
    let a = gauge_after(a, "aegishv_readiness_status"@, flag_text(is_ready(c)));
    let a = a + "# TYPE aegishv_component_status gauge\n"@;
    let a = component_line(a, "runtime"@, c.runtime);
    let a = component_line(a, "collector"@, c.collector);
    let a = component_line(a, "metrics_listener"@, c.metrics_listener);
    let a = component_line(a, "output"@, c.output);
    let a = component_line(a, "policy"@, c.policy);
    let a = component_line(a, "pmu"@, c.pmu);
    let a = component_line(a, "queue"@, c.queue);
    let a = component_line(a, "actions"@, c.actions);
    let a = gauge_after(a, "aegishv_uptime_seconds"@, uptime);
    counter_after(a, "aegishv_lines_ingested_total"@, m.lines_ingested_total)
}

/// Trace inputs by reason, parse outcomes and drops.
pub open spec fn text_trace(acc: Seq<char>, m: Metrics) -> Seq<char> {
    let t = "aegishv_trace_inputs_total"@;
    let a = acc + "# TYPE aegishv_trace_inputs_total counter\n"@;
    let a = line1(a, t, "reason"@, TraceInputReason::Parsed.name(), m.trace_inputs_parsed_total);
    let a = line1(a, t, "reason"@, TraceInputReason::UnrelatedTracepoint.name(), m.trace_inputs_unrelated_tracepoint_total);
    let a = line1(a, t, "reason"@, TraceInputReason::UnsupportedLine.name(), m.trace_inputs_unsupported_line_total);
    let a = line1(a, t, "reason"@, TraceInputReason::MalformedKvmExit.name(), m.trace_inputs_malformed_kvm_exit_total);
    let a = line1(a, t, "reason"@, TraceInputReason::ParserDegraded.name(), m.trace_inputs_parser_degraded_total);
    let a = line1(a, t, "reason"@, TraceInputReason::ParserBug.name(), m.trace_inputs_parser_bug_total);
    let a = counter_after(a, "aegishv_parsed_total"@, m.parsed_total);
    let a = counter_after(a, "aegishv_parse_errors_total"@, m.parse_errors_total);
    let a = counter_after(a, "aegishv_unsupported_total"@, m.unsupported_total);
    let a = counter_after(a, "aegishv_unrelated_tracepoint_total"@, m.unrelated_tracepoint_total);
    let a = counter_after(a, "aegishv_dropped_total"@, m.dropped_total);
    series(a, "aegishv_dropped_by_reason_total"@, seq!["reason"@], m.dropped_by_reason.entries@)
}

/// Collector errors, memory reads and page-table translations.
pub open spec fn text_collector_vmi(acc: Seq<char>, m: Metrics) -> Seq<char> {
    let a = counter_after(acc, "aegishv_collector_eof_total"@, m.collector_eof_total);
    let a = counter_after(a, "aegishv_collector_errors_total"@, m.collector_errors_total);
    let a = counter_after(a, "aegishv_tracefs_read_errors_total"@, m.tracefs_read_errors_total);
    let a = counter_after(a, "aegishv_vmi_memory_read_attempts_total"@, m.vmi_memory_read_attempts_total);
    let a = counter_after(a, "aegishv_vmi_memory_read_successes_total"@, m.vmi_memory_read_successes_total);
    let a = a + "# TYPE aegishv_vmi_memory_read_failures_total counter\n"@;
    let a = series(a, "aegishv_vmi_memory_read_failures_total"@, seq!["kind"@], m.vmi_memory_read_failures_total.entries@);
    let a = a + "# TYPE aegishv_vmi_translation_attempts_total counter\n"@;
    let a = series(a, "aegishv_vmi_translation_attempts_total"@, seq!["architecture"@, "mode"@],
        m.vmi_translation_attempts_total.entries@);
    let a = a + "# TYPE aegishv_vmi_translation_successes_total counter\n"@;
    let a = series(a, "aegishv_vmi_translation_successes_total"@, seq!["architecture"@, "mode"@],
        m.vmi_translation_successes_total.entries@);
    let a = a + "# TYPE aegishv_vmi_translation_failures_total counter\n"@;
    series(a, "aegishv_vmi_translation_failures_total"@, seq!["architecture"@, "mode"@, "kind"@],
        m.vmi_translation_failures_total.entries@)
}

/// Register access, profile lookups, fixtures, W^X and PMU counters.
pub open spec fn text_vmi_wx_pmu(acc: Seq<char>, m: Metrics) -> Seq<char> {
    let a = counter_after(acc, "aegishv_vmi_register_access_attempts_total"@, m.vmi_register_access_attempts_total);
    let a = a + "# TYPE aegishv_vmi_register_access_failures_total counter\n"@;
    let a = series(a, "aegishv_vmi_register_access_failures_total"@, seq!["kind"@],
        m.vmi_register_access_failures_total.entries@);
    let a = counter_after(a, "aegishv_vmi_profile_lookup_attempts_total"@, m.vmi_profile_lookup_attempts_total);
    let a = counter_after(a, "aegishv_vmi_profile_lookup_misses_total"@, m.vmi_profile_lookup_misses_total);
    let a = a + "# TYPE aegishv_vmi_profile_lookup_failures_total counter\n"@;
    let a = series(a, "aegishv_vmi_profile_lookup_failures_total"@, seq!["kind"@],
        m.vmi_profile_lookup_failures_total.entries@);
    let a = counter_after(a, "aegishv_vmi_fixture_load_attempts_total"@, m.vmi_fixture_load_attempts_total);
    let a = a + "# TYPE aegishv_vmi_fixture_load_failures_total counter\n"@;
    let a = series(a, "aegishv_vmi_fixture_load_failures_total"@, seq!["kind"@],
        m.vmi_fixture_load_failures_total.entries@);
    let a = counter_after(a, "aegishv_vmi_unsupported_backend_calls_total"@, m.vmi_unsupported_backend_calls_total);
    let a = counter_after(a, "aegishv_wx_total"@, m.wx_total);
    let a = counter_after(a, "aegishv_wx_prune_total"@, m.wx_prune_total);
    let a = counter_after(a, "aegishv_wx_cooldown_suppressed_total"@, m.wx_cooldown_suppressed_total);
    let a = counter_after(a, "aegishv_pmu_samples_total"@, m.pmu_samples_total);
    counter_after(a, "aegishv_pmu_read_failures_total"@, m.pmu_read_failures_total)
}

/// Queue and page gauges, output failures, events, policy and QMP failures.
pub open spec fn text_queue_output(acc: Seq<char>, m: Metrics, utilization: Seq<char>) -> Seq<char> {
    let a = gauge_after(acc, "aegishv_pmu_targets"@, int_gauge_text(m.pmu_targets));
    let a = gauge_after(a, "aegishv_queue_depth"@, int_gauge_text(m.queue_depth));
    let a = gauge_after(a, "aegishv_queue_capacity"@, int_gauge_text(m.queue_capacity));
    let a = gauge_after(a, "aegishv_queue_utilization"@, utilization);
    let a = gauge_after(a, "aegishv_wx_pages_tracked"@, int_gauge_text(m.wx_pages_tracked));
    let a = counter_after(a, "aegishv_json_write_failures_total"@, m.json_write_failures_total);
    let a = counter_after(a, "aegishv_syslog_write_failures_total"@, m.syslog_write_failures_total);
    let a = counter_after(a, "aegishv_journald_write_failures_total"@, m.journald_write_failures_total);
    let a = counter_after(a, "aegishv_spool_events_total"@, m.spool_events_total);
    let a = counter_after(a, "aegishv_spool_write_failures_total"@, m.spool_write_failures_total);
    let a = counter_after(a, "aegishv_spool_dropped_total"@, m.spool_dropped_total);
    let a = series(a, "aegishv_events_total"@, seq!["category"@, "severity"@], m.events_total.entries@);
    let a = series(a, "aegishv_policy_matches_total"@, seq!["rule"@], m.policy_matches_total.entries@);
    let a = series(a, "aegishv_policy_suppressed_total"@, seq!["rule"@, "reason"@], m.policy_suppressed_total.entries@);
    let a = series(a, "aegishv_policy_actions_total"@, seq!["kind"@, "ok"@], m.policy_actions_total.entries@);
    series(a, "aegishv_qmp_failures_total"@, seq!["kind"@], m.qmp_failures_total.entries@)
}

/// Identity cache lookups, enrichments, conflicts, inventory and QMP refusals.
pub open spec fn text_identity(acc: Seq<char>, m: Metrics) -> Seq<char> {
    let cl = m.identity_cache_lookups_total@;
    let en = m.identity_enrichments_total@;
    let co = m.identity_conflicts_total@;
    let qr = m.identity_qmp_safety_refusals_total@;
    let a = acc + "# TYPE aegishv_identity_cache_lookups_total counter\n"@;
    let a = line1(a, "aegishv_identity_cache_lookups_total"@, "result"@, IdentityCacheResult::Hit.name(), cl[0]);
    let a = line1(a, "aegishv_identity_cache_lookups_total"@, "result"@, IdentityCacheResult::Miss.name(), cl[1]);
    let a = line1(a, "aegishv_identity_cache_lookups_total"@, "result"@, IdentityCacheResult::Refusal.name(), cl[2]);
    let a = a + "# TYPE aegishv_identity_enrichments_total counter\n"@;
    let a = enrichment_line(a, IdentityConfidence::Low, false, en[0]);
    let a = enrichment_line(a, IdentityConfidence::Medium, false, en[1]);
    let a = enrichment_line(a, IdentityConfidence::High, false, en[2]);
    let a = enrichment_line(a, IdentityConfidence::Low, true, en[3]);
    let a = enrichment_line(a, IdentityConfidence::Medium, true, en[4]);
    let a = enrichment_line(a, IdentityConfidence::High, true, en[5]);
    let a = a + "# TYPE aegishv_identity_conflicts_total counter\n"@;
    let a = line1(a, "aegishv_identity_conflicts_total"@, "reason"@, IdentityConflictReason::MultipleDomains.name(), co[0]);
    let a = line1(a, "aegishv_identity_conflicts_total"@, "reason"@, IdentityConflictReason::PidReuse.name(), co[1]);
    let a = line1(a, "aegishv_identity_conflicts_total"@, "reason"@, IdentityConflictReason::StartTimeUnverified.name(), co[2]);
    let a = line1(a, "aegishv_identity_conflicts_total"@, "reason"@, IdentityConflictReason::StaleCache.name(), co[3]);
    let a = line1(a, "aegishv_identity_conflicts_total"@, "reason"@, IdentityConflictReason::ProcCgroupMismatch.name(), co[4]);
    let a = line1(a, "aegishv_identity_conflicts_total"@, "reason"@, IdentityConflictReason::LibvirtUuidMismatch.name(), co[5]);
    let a = line1(a, "aegishv_identity_conflicts_total"@, "reason"@, IdentityConflictReason::QmpSocketMismatch.name(), co[6]);
    let a = line1(a, "aegishv_identity_conflicts_total"@, "reason"@, IdentityConflictReason::LibvirtNameMismatch.name(), co[7]);
    let a = gauge_after(a, "aegishv_identity_inventory_vms"@, int_gauge_text(m.identity_inventory_vms));
    let a = gauge_after(a, "aegishv_identity_inventory_degraded"@, int_gauge_text(m.identity_inventory_degraded));
    let a = a + "# TYPE aegishv_identity_qmp_safety_refusals_total counter\n"@;
    let a = line1(a, "aegishv_identity_qmp_safety_refusals_total"@, "reason"@, IdentityQmpRefusalReason::StableIdentityRequired.name(), qr[0]);
    let a = line1(a, "aegishv_identity_qmp_safety_refusals_total"@, "reason"@, IdentityQmpRefusalReason::AmbiguousIdentity.name(), qr[1]);
    let a = line1(a, "aegishv_identity_qmp_safety_refusals_total"@, "reason"@, IdentityQmpRefusalReason::ConflictingStableMapping.name(), qr[2]);
    let a = line1(a, "aegishv_identity_qmp_safety_refusals_total"@, "reason"@, IdentityQmpRefusalReason::MissingIdentity.name(), qr[3]);
    let a = line1(a, "aegishv_identity_qmp_safety_refusals_total"@, "reason"@, IdentityQmpRefusalReason::LowConfidence.name(), qr[4]);
    let a = line1(a, "aegishv_identity_qmp_safety_refusals_total"@, "reason"@, IdentityQmpRefusalReason::UnverifiedIdentity.name(), qr[5]);
    let a = line1(a, "aegishv_identity_qmp_safety_refusals_total"@, "reason"@, IdentityQmpRefusalReason::PidOnlyIdentity.name(), qr[6]);
    let a = line1(a, "aegishv_identity_qmp_safety_refusals_total"@, "reason"@, IdentityQmpRefusalReason::StaleIdentity.name(), qr[7]);
    line1(a, "aegishv_identity_qmp_safety_refusals_total"@, "reason"@, IdentityQmpRefusalReason::ConflictingIdentity.name(), qr[8])
}

/// Action, QMP and parse latency counters.
pub open spec fn text_latency(acc: Seq<char>, m: Metrics) -> Seq<char> {
    let a = counter_after(acc, "aegishv_action_latency_count"@, m.action_latency_count);
    let a = counter_after(a, "aegishv_action_latency_sum_ms"@, m.action_latency_sum_ms);
    let a = counter_after(a, "aegishv_qmp_latency_count"@, m.qmp_latency_count);
    let a = counter_after(a, "aegishv_qmp_latency_sum_ms"@, m.qmp_latency_sum_ms);
    let a = counter_after(a, "aegishv_parse_latency_count"@, m.parse_latency_count);
    counter_after(a, "aegishv_parse_latency_sum_us"@, m.parse_latency_sum_us)
}

/// The whole exposition text, in the order the sections are written.
pub open spec fn prometheus_text(m: Metrics, version: Seq<char>, uptime: Seq<char>, utilization: Seq<char>) -> Seq<char> {
    let a = text_head(m, version, uptime);
    let a = text_trace(a, m);
    let a = text_collector_vmi(a, m);
    let a = text_vmi_wx_pmu(a, m);
    let a = text_queue_output(a, m, utilization);
    let a = text_identity(a, m);
    text_latency(a, m)
}

fn push_component_line(out: &mut String, name: &str, st: ComponentStatus)
    ensures
        final(out)@ == component_line(old(out)@, name@, st),
{
    push_str(out, "aegishv_component_status{component=\"");
    push_str(out, name);
    push_str(out, "\",state=\"");
    push_str(out, st.as_str());
    push_str(out, "\"} 1\n");
}

fn push_enrichment_line(out: &mut String, conf: IdentityConfidence, ambiguous: bool, n: u64)
    ensures
        final(out)@ == enrichment_line(old(out)@, conf, ambiguous, n),
{
    push_str(out, "aegishv_identity_enrichments_total{confidence=\"");
    push_str(out, conf.as_str());
    push_str(out, "\",ambiguous=\"");
    let b = crate::text::bool_to_text(ambiguous);
    push_str(out, b.as_str());
    push_str(out, "\"} ");
    let d = u64_to_dec(n);
    push_str(out, d.as_str());
    push_str(out, "\n");
}

impl Metrics {
    fn push_head(&self, version: &str, uptime: &str) -> (r: String)
        ensures
            r@ == text_head(*self, version@, uptime@),
    {
        let h = self.health_snapshot();
        let mut out = String::new();
        push_str(&mut out, "# HELP aegishv_build_info Build information.\n# TYPE aegishv_build_info gauge\n");
        push_str(&mut out, "aegishv_build_info{version=\"");
        push_str(&mut out, version);
        push_str(&mut out, "\"} 1\n");
        push_flag_gauge(&mut out, "aegishv_health_status", h.healthy);
        push_flag_gauge(&mut out, "aegishv_readiness_status", h.ready);
        push_str(&mut out, "# TYPE aegishv_component_status gauge\n");
        push_component_line(&mut out, "runtime", self.runtime_status);
        push_component_line(&mut out, "collector", self.collector_status);
        push_component_line(&mut out, "metrics_listener", self.metrics_listener_status);
        push_component_line(&mut out, "output", self.output_status);
        push_component_line(&mut out, "policy", self.policy_status);
        push_component_line(&mut out, "pmu", self.pmu_status);
        push_component_line(&mut out, "queue", self.queue_status);
        push_component_line(&mut out, "actions", self.action_status);
        push_gauge(&mut out, "aegishv_uptime_seconds", uptime);
        push_counter(&mut out, "aegishv_lines_ingested_total", self.lines_ingested_total);
        out
    }

    fn push_trace(&self, out: &mut String)
        ensures
            final(out)@ == text_trace(old(out)@, *self),
    {
        push_str(out, "# TYPE aegishv_trace_inputs_total counter\n");
        push_line1(out, "aegishv_trace_inputs_total", "reason", TraceInputReason::Parsed.as_str(), self.trace_inputs_parsed_total);
        push_line1(out, "aegishv_trace_inputs_total", "reason", TraceInputReason::UnrelatedTracepoint.as_str(), self.trace_inputs_unrelated_tracepoint_total);
        push_line1(out, "aegishv_trace_inputs_total", "reason", TraceInputReason::UnsupportedLine.as_str(), self.trace_inputs_unsupported_line_total);
        push_line1(out, "aegishv_trace_inputs_total", "reason", TraceInputReason::MalformedKvmExit.as_str(), self.trace_inputs_malformed_kvm_exit_total);
        push_line1(out, "aegishv_trace_inputs_total", "reason", TraceInputReason::ParserDegraded.as_str(), self.trace_inputs_parser_degraded_total);
        push_line1(out, "aegishv_trace_inputs_total", "reason", TraceInputReason::ParserBug.as_str(), self.trace_inputs_parser_bug_total);
        push_counter(out, "aegishv_parsed_total", self.parsed_total);
        push_counter(out, "aegishv_parse_errors_total", self.parse_errors_total);
        push_counter(out, "aegishv_unsupported_total", self.unsupported_total);
        push_counter(out, "aegishv_unrelated_tracepoint_total", self.unrelated_tracepoint_total);
        push_counter(out, "aegishv_dropped_total", self.dropped_total);
        push_series(out, "aegishv_dropped_by_reason_total", &label1("reason"), &self.dropped_by_reason);
    }

    fn push_collector_vmi(&self, out: &mut String)
        ensures
            final(out)@ == text_collector_vmi(old(out)@, *self),
    {
        push_counter(out, "aegishv_collector_eof_total", self.collector_eof_total);
        push_counter(out, "aegishv_collector_errors_total", self.collector_errors_total);
        push_counter(out, "aegishv_tracefs_read_errors_total", self.tracefs_read_errors_total);
        push_counter(out, "aegishv_vmi_memory_read_attempts_total", self.vmi_memory_read_attempts_total);
        push_counter(out, "aegishv_vmi_memory_read_successes_total", self.vmi_memory_read_successes_total);
        push_str(out, "# TYPE aegishv_vmi_memory_read_failures_total counter\n");
        push_series(out, "aegishv_vmi_memory_read_failures_total", &label1("kind"), &self.vmi_memory_read_failures_total);
        push_str(out, "# TYPE aegishv_vmi_translation_attempts_total counter\n");
        push_series(out, "aegishv_vmi_translation_attempts_total", &label2("architecture", "mode"), &self.vmi_translation_attempts_total);
        push_str(out, "# TYPE aegishv_vmi_translation_successes_total counter\n");
        push_series(out, "aegishv_vmi_translation_successes_total", &label2("architecture", "mode"), &self.vmi_translation_successes_total);
        push_str(out, "# TYPE aegishv_vmi_translation_failures_total counter\n");
        push_series(out, "aegishv_vmi_translation_failures_total", &label3("architecture", "mode", "kind"), &self.vmi_translation_failures_total);
    }

    fn push_vmi_wx_pmu(&self, out: &mut String)
        ensures
            final(out)@ == text_vmi_wx_pmu(old(out)@, *self),
    {
        push_counter(out, "aegishv_vmi_register_access_attempts_total", self.vmi_register_access_attempts_total);
        push_str(out, "# TYPE aegishv_vmi_register_access_failures_total counter\n");
        push_series(out, "aegishv_vmi_register_access_failures_total", &label1("kind"), &self.vmi_register_access_failures_total);
        push_counter(out, "aegishv_vmi_profile_lookup_attempts_total", self.vmi_profile_lookup_attempts_total);
        push_counter(out, "aegishv_vmi_profile_lookup_misses_total", self.vmi_profile_lookup_misses_total);
        push_str(out, "# TYPE aegishv_vmi_profile_lookup_failures_total counter\n");
        push_series(out, "aegishv_vmi_profile_lookup_failures_total", &label1("kind"), &self.vmi_profile_lookup_failures_total);
        push_counter(out, "aegishv_vmi_fixture_load_attempts_total", self.vmi_fixture_load_attempts_total);
        push_str(out, "# TYPE aegishv_vmi_fixture_load_failures_total counter\n");
        push_series(out, "aegishv_vmi_fixture_load_failures_total", &label1("kind"), &self.vmi_fixture_load_failures_total);
        push_counter(out, "aegishv_vmi_unsupported_backend_calls_total", self.vmi_unsupported_backend_calls_total);
        push_counter(out, "aegishv_wx_total", self.wx_total);
        push_counter(out, "aegishv_wx_prune_total", self.wx_prune_total);
        push_counter(out, "aegishv_wx_cooldown_suppressed_total", self.wx_cooldown_suppressed_total);
        push_counter(out, "aegishv_pmu_samples_total", self.pmu_samples_total);
        push_counter(out, "aegishv_pmu_read_failures_total", self.pmu_read_failures_total);
    }

    fn push_queue_output(&self, out: &mut String, utilization: &str)
        ensures
            final(out)@ == text_queue_output(old(out)@, *self, utilization@),
    {
        push_int_gauge(out, "aegishv_pmu_targets", self.pmu_targets);
        push_int_gauge(out, "aegishv_queue_depth", self.queue_depth);
        push_int_gauge(out, "aegishv_queue_capacity", self.queue_capacity);
        push_gauge(out, "aegishv_queue_utilization", utilization);
        push_int_gauge(out, "aegishv_wx_pages_tracked", self.wx_pages_tracked);
        push_counter(out, "aegishv_json_write_failures_total", self.json_write_failures_total);
        push_counter(out, "aegishv_syslog_write_failures_total", self.syslog_write_failures_total);
        push_counter(out, "aegishv_journald_write_failures_total", self.journald_write_failures_total);
        push_counter(out, "aegishv_spool_events_total", self.spool_events_total);
        push_counter(out, "aegishv_spool_write_failures_total", self.spool_write_failures_total);
        push_counter(out, "aegishv_spool_dropped_total", self.spool_dropped_total);
        push_series(out, "aegishv_events_total", &label2("category", "severity"), &self.events_total);
        push_series(out, "aegishv_policy_matches_total", &label1("rule"), &self.policy_matches_total);
        push_series(out, "aegishv_policy_suppressed_total", &label2("rule", "reason"), &self.policy_suppressed_total);
        push_series(out, "aegishv_policy_actions_total", &label2("kind", "ok"), &self.policy_actions_total);
        push_series(out, "aegishv_qmp_failures_total", &label1("kind"), &self.qmp_failures_total);
    }

    fn push_identity(&self, out: &mut String)
        requires
            self.wf(),
        ensures
            final(out)@ == text_identity(old(out)@, *self),
    {
        push_str(out, "# TYPE aegishv_identity_cache_lookups_total counter\n");
        push_line1(out, "aegishv_identity_cache_lookups_total", "result", IdentityCacheResult::Hit.as_str(), self.identity_cache_lookups_total[0]);
        push_line1(out, "aegishv_identity_cache_lookups_total", "result", IdentityCacheResult::Miss.as_str(), self.identity_cache_lookups_total[1]);
        push_line1(out, "aegishv_identity_cache_lookups_total", "result", IdentityCacheResult::Refusal.as_str(), self.identity_cache_lookups_total[2]);
        push_str(out, "# TYPE aegishv_identity_enrichments_total counter\n");
        push_enrichment_line(out, IdentityConfidence::Low, false, self.identity_enrichments_total[0]);
        push_enrichment_line(out, IdentityConfidence::Medium, false, self.identity_enrichments_total[1]);
        push_enrichment_line(out, IdentityConfidence::High, false, self.identity_enrichments_total[2]);
        push_enrichment_line(out, IdentityConfidence::Low, true, self.identity_enrichments_total[3]);
        push_enrichment_line(out, IdentityConfidence::Medium, true, self.identity_enrichments_total[4]);
        push_enrichment_line(out, IdentityConfidence::High, true, self.identity_enrichments_total[5]);
        push_str(out, "# TYPE aegishv_identity_conflicts_total counter\n");
        push_line1(out, "aegishv_identity_conflicts_total", "reason", IdentityConflictReason::MultipleDomains.as_str(), self.identity_conflicts_total[0]);
        push_line1(out, "aegishv_identity_conflicts_total", "reason", IdentityConflictReason::PidReuse.as_str(), self.identity_conflicts_total[1]);
        push_line1(out, "aegishv_identity_conflicts_total", "reason", IdentityConflictReason::StartTimeUnverified.as_str(), self.identity_conflicts_total[2]);
        push_line1(out, "aegishv_identity_conflicts_total", "reason", IdentityConflictReason::StaleCache.as_str(), self.identity_conflicts_total[3]);
        push_line1(out, "aegishv_identity_conflicts_total", "reason", IdentityConflictReason::ProcCgroupMismatch.as_str(), self.identity_conflicts_total[4]);
        push_line1(out, "aegishv_identity_conflicts_total", "reason", IdentityConflictReason::LibvirtUuidMismatch.as_str(), self.identity_conflicts_total[5]);
        push_line1(out, "aegishv_identity_conflicts_total", "reason", IdentityConflictReason::QmpSocketMismatch.as_str(), self.identity_conflicts_total[6]);
        push_line1(out, "aegishv_identity_conflicts_total", "reason", IdentityConflictReason::LibvirtNameMismatch.as_str(), self.identity_conflicts_total[7]);
        push_int_gauge(out, "aegishv_identity_inventory_vms", self.identity_inventory_vms);
        push_int_gauge(out, "aegishv_identity_inventory_degraded", self.identity_inventory_degraded);
        push_str(out, "# TYPE aegishv_identity_qmp_safety_refusals_total counter\n");
        push_line1(out, "aegishv_identity_qmp_safety_refusals_total", "reason", IdentityQmpRefusalReason::StableIdentityRequired.as_str(), self.identity_qmp_safety_refusals_total[0]);
        push_line1(out, "aegishv_identity_qmp_safety_refusals_total", "reason", IdentityQmpRefusalReason::AmbiguousIdentity.as_str(), self.identity_qmp_safety_refusals_total[1]);
        push_line1(out, "aegishv_identity_qmp_safety_refusals_total", "reason", IdentityQmpRefusalReason::ConflictingStableMapping.as_str(), self.identity_qmp_safety_refusals_total[2]);
        push_line1(out, "aegishv_identity_qmp_safety_refusals_total", "reason", IdentityQmpRefusalReason::MissingIdentity.as_str(), self.identity_qmp_safety_refusals_total[3]);
        push_line1(out, "aegishv_identity_qmp_safety_refusals_total", "reason", IdentityQmpRefusalReason::LowConfidence.as_str(), self.identity_qmp_safety_refusals_total[4]);
        push_line1(out, "aegishv_identity_qmp_safety_refusals_total", "reason", IdentityQmpRefusalReason::UnverifiedIdentity.as_str(), self.identity_qmp_safety_refusals_total[5]);
        push_line1(out, "aegishv_identity_qmp_safety_refusals_total", "reason", IdentityQmpRefusalReason::PidOnlyIdentity.as_str(), self.identity_qmp_safety_refusals_total[6]);
        push_line1(out, "aegishv_identity_qmp_safety_refusals_total", "reason", IdentityQmpRefusalReason::StaleIdentity.as_str(), self.identity_qmp_safety_refusals_total[7]);
        push_line1(out, "aegishv_identity_qmp_safety_refusals_total", "reason", IdentityQmpRefusalReason::ConflictingIdentity.as_str(), self.identity_qmp_safety_refusals_total[8]);
    }

    fn push_latency(&self, out: &mut String)
        ensures
            final(out)@ == text_latency(old(out)@, *self),
    {
        push_counter(out, "aegishv_action_latency_count", self.action_latency_count);
        push_counter(out, "aegishv_action_latency_sum_ms", self.action_latency_sum_ms);
        push_counter(out, "aegishv_qmp_latency_count", self.qmp_latency_count);
        push_counter(out, "aegishv_qmp_latency_sum_ms", self.qmp_latency_sum_ms);
        push_counter(out, "aegishv_parse_latency_count", self.parse_latency_count);
        push_counter(out, "aegishv_parse_latency_sum_us", self.parse_latency_sum_us);
    }

    /// The Prometheus text exposition of the metrics. `uptime` and
    /// `utilization` are the two floating-point gauges, already formatted;
    /// `version` is the build version label.
    pub fn encode(&self, version: &str, uptime: &str, utilization: &str) -> (r: String)
        requires
            self.wf(),
        ensures
            r@ == prometheus_text(*self, version@, uptime@, utilization@),
    {
        let mut out = self.push_head(version, uptime);
        self.push_trace(&mut out);
        self.push_collector_vmi(&mut out);
        self.push_vmi_wx_pmu(&mut out);
        self.push_queue_output(&mut out, utilization);
        self.push_identity(&mut out);
        self.push_latency(&mut out);
        out
    }
}

} // verus!
