//! Decisions of the sensor's main loop: which telemetry loss an emitted event
//! reports, and how the sensor describes its shutdown.
use vstd::prelude::*;
use crate::event::{Event, Severity};
use crate::metrics::Metrics;
use crate::text::{ascii_lower, contains_seq, dec, owned, push_str, to_ascii_lower, u64_to_dec};

verus! {

/// How a sink took an event.
#[derive(Debug, Clone, Copy, PartialEq, Eq, Structural)]
pub enum SinkWriteStatus {
    Written,
    Spooled,
}

/// What has already been reported of dropped telemetry: the drop total at
/// the last report, and the highest sequence number accounted for.
#[derive(Debug, Clone, Copy, PartialEq, Eq, Structural)]
pub struct LossTracker {
    pub last_drop_total: u64,
    pub last_accounted_sequence: Option<u64>,
}

/// `a - b`, or zero below zero.
pub open spec fn sat_sub(a: u64, b: u64) -> u64 {
    if a >= b {
        (a - b) as u64
    } else {
        0
    }
}

/// The sequence numbers missing between the last accounted one and `sequence`.
pub open spec fn gap_before(last: Option<u64>, sequence: u64) -> Option<(u64, u64)> {
    match last {
        None => None,
        Some(l) => if l == u64::MAX {
            None
        } else if sequence > l + 1 {
            Some(((l + 1) as u64, (sequence - 1) as u64))
        } else {
            None
        },
    }
}

/// The reason an event's loss report gives.
pub open spec fn loss_reason(delta: u64) -> Seq<char> {
    if delta > 0 {
        "queue_full_or_output_backpressure"@
    } else {
        "sequence_gap"@
    }
}

/// The larger of the last accounted sequence and `sequence`.
pub open spec fn accounted(last: Option<u64>, sequence: u64) -> Option<u64> {
    match last {
        None => Some(sequence),
        Some(l) => Some(if l >= sequence {
            l
        } else {
            sequence
        }),
    }
}

impl Default for LossTracker {
    fn default() -> (r: Self)
        ensures
            r == (LossTracker { last_drop_total: 0, last_accounted_sequence: None }),
    {
        LossTracker { last_drop_total: 0, last_accounted_sequence: None }
    }
}

impl LossTracker {
    /// Drops since the last report.
    pub fn delta(&self, metrics: &Metrics) -> (r: u64)
        ensures
            r == sat_sub(metrics.dropped_total, self.last_drop_total),
    {
        if metrics.dropped_total >= self.last_drop_total {
            metrics.dropped_total - self.last_drop_total
        } else {
            0
        }
    }

    /// Some drops have not been reported yet.
    pub fn has_unreported(&self, metrics: &Metrics) -> (r: bool)
        ensures
            r == (metrics.dropped_total > self.last_drop_total),
    {
        metrics.dropped_total > self.last_drop_total
    }

    /// The sequence numbers skipped since the last accounted one.
    pub fn sequence_gap_before(&self, sequence: u64) -> (r: Option<(u64, u64)>)
        ensures
            r == gap_before(self.last_accounted_sequence, sequence),
    {
        match self.last_accounted_sequence {
            None => None,
            Some(l) => {
                if l == u64::MAX {
                    None
                } else if sequence > l + 1 {
                    Some((l + 1, sequence - 1))
                } else {
                    None
                }
            },
        }
    }

    /// Accounts for `sequence`: the highest accounted sequence never falls.
    pub fn account_sequence(&mut self, sequence: u64)
        ensures
            final(self).last_drop_total == old(self).last_drop_total,
            final(self).last_accounted_sequence == accounted(old(self).last_accounted_sequence, sequence),
    {
        self.last_accounted_sequence = match self.last_accounted_sequence {
            None => Some(sequence),
            Some(l) => Some(
                if l >= sequence {
                    l
                } else {
                    sequence
                },
            ),
        };
    }

    /// A sequence the loop skipped on purpose counts as accounted.
    pub fn account_intentionally_skipped_sequence(&mut self, sequence: u64)
        ensures
            final(self).last_drop_total == old(self).last_drop_total,
            final(self).last_accounted_sequence == accounted(old(self).last_accounted_sequence, sequence),
    {
        self.account_sequence(sequence);
    }

    /// After a sink took an event: a written event is accounted, a spooled
    /// one is not.
    pub fn finish_emit(&mut self, sequence: u64, status: SinkWriteStatus)
        ensures
            final(self).last_drop_total == old(self).last_drop_total,
            final(self).last_accounted_sequence == (if status == SinkWriteStatus::Written {
                accounted(old(self).last_accounted_sequence, sequence)
            } else {
                old(self).last_accounted_sequence
            }),
    {
        if status == SinkWriteStatus::Written {
            self.account_sequence(sequence);
        }
    }

    /// Adds to `ev` a report of the drops since the last report and of the
    /// sequence numbers missing before it, when there is either; the drop
    /// total then counts as reported.
    pub fn decorate(&mut self, ev: &mut Event, metrics: &Metrics)
        ensures
            ({
                let total = metrics.dropped_total;
                let delta = sat_sub(total, old(self).last_drop_total);
                let gap = gap_before(old(self).last_accounted_sequence, old(ev).sequence);
                &&& final(ev).loss_reported(*old(ev), delta, total, loss_reason(delta), gap)
                &&& final(self).last_accounted_sequence == old(self).last_accounted_sequence
                &&& final(self).last_drop_total == (if delta > 0 || gap is Some {
                    total
                } else {
                    old(self).last_drop_total
                })
            }),
    {
        let total = metrics.dropped_total;
        let delta = self.delta(metrics);
        let gap = self.sequence_gap_before(ev.sequence);
        if delta > 0 || gap.is_some() {
            let reason = if delta > 0 {
                "queue_full_or_output_backpressure"
            } else {
                "sequence_gap"
            };
            ev.with_loss_report(delta, total, reason, gap);
            self.last_drop_total = total;
        }
    }
}

/// After an event is decorated, every drop counted so far is reported:
/// a tracker in the state `decorate` leaves sees no unreported drops for
/// the same total, whether or not the event carried a report.
pub proof fn lemma_decorate_reports_drops_once(before: LossTracker, after: LossTracker, total: u64, sequence: u64)
    requires
        after.last_accounted_sequence == before.last_accounted_sequence,
        after.last_drop_total == (if sat_sub(total, before.last_drop_total) > 0 || gap_before(
            before.last_accounted_sequence,
            sequence,
        ) is Some {
            total
        } else {
            before.last_drop_total
        }),
    ensures
        sat_sub(total, after.last_drop_total) == 0,
        !(total > after.last_drop_total),
{
}

/// Accounting never lowers the highest accounted sequence, and after it no
/// gap is reported before any sequence up to one past it.
pub proof fn lemma_accounting_closes_gaps(last: Option<u64>, s: u64, next: u64)
    requires
        next <= s + 1,
    ensures
        accounted(last, s) matches Some(a) && a >= s && (last matches Some(l) ==> a >= l),
        gap_before(accounted(last, s), next) is None,
{
}

/// Why the sensor stopped.
#[derive(Debug, Clone, PartialEq, Eq)]
pub enum ShutdownReason {
    Clean,
    Signal(String),
    Failure(String),
}

/// The component a failure message points at.
pub open spec fn failure_detail(err: Seq<char>) -> Seq<char> {
    let lower = ascii_lower(err);
    if contains_seq(lower, "collector"@) || contains_seq(lower, "trace"@) {
        "collector pipeline error"@
    } else if contains_seq(lower, "pmu"@) {
        "PMU pipeline error"@
    } else if contains_seq(lower, "jsonl"@) || contains_seq(lower, "output"@) {
        "output pipeline error"@
    } else {
        "fatal pipeline error"@
    }
}

/// Names the failing pipeline from an error message, case-insensitively.
pub fn failure_shutdown_detail(err: &str) -> (r: String)
    ensures
        r@ == failure_detail(err@),
{
    let lower_chars = to_ascii_lower(err);
    let lower = crate::text::string_of(lower_chars.as_slice());
    if crate::text::contains(lower.as_str(), "collector") || crate::text::contains(lower.as_str(), "trace") {
        owned("collector pipeline error")
    } else if crate::text::contains(lower.as_str(), "pmu") {
        owned("PMU pipeline error")
    } else if crate::text::contains(lower.as_str(), "jsonl") || crate::text::contains(lower.as_str(), "output") {
        owned("output pipeline error")
    } else {
        owned("fatal pipeline error")
    }
}

impl ShutdownReason {
    pub open spec fn label_spec(&self) -> Seq<char> {
        match self {
            ShutdownReason::Clean => "clean"@,
            ShutdownReason::Signal(_) => "signal"@,
            ShutdownReason::Failure(_) => "failure"@,
        }
    }

    pub open spec fn detail_spec(&self) -> Seq<char> {
        match self {
            ShutdownReason::Clean => "collector stopped without a fatal pipeline error"@,
            ShutdownReason::Signal(s) => s@,
            ShutdownReason::Failure(e) => failure_detail(e@),
        }
    }

    pub fn label(&self) -> (r: &'static str)
        ensures
            r@ == self.label_spec(),
    {
        match self {
            ShutdownReason::Clean => "clean",
            ShutdownReason::Signal(_) => "signal",
            ShutdownReason::Failure(_) => "failure",
        }
    }

    pub fn detail(&self) -> (r: String)
        ensures
            r@ == self.detail_spec(),
    {
        match self {
            ShutdownReason::Clean => owned("collector stopped without a fatal pipeline error"),
            ShutdownReason::Signal(s) => owned(s.as_str()),
            ShutdownReason::Failure(e) => failure_shutdown_detail(e.as_str()),
        }
    }

    /// High for a failure, informational otherwise.
    pub fn severity(&self) -> (r: Severity)
        ensures
            r == (if self is Failure {
                Severity::High
            } else {
                Severity::Info
            }),
    {
        match self {
            ShutdownReason::Failure(_) => Severity::High,
            _ => Severity::Info,
        }
    }
}

/// The shutdown event's message.
pub open spec fn shutdown_text(reason: ShutdownReason, m: Metrics) -> Seq<char> {
    "shutdown: reason="@ + reason.label_spec() + ", detail="@ + reason.detail_spec() + ", dropped_total="@ + dec(
        m.dropped_total as nat,
    ) + ", json_write_failures_total="@ + dec(m.json_write_failures_total as nat) + ", spool_events_total="@ + dec(
        m.spool_events_total as nat,
    ) + ", spool_write_failures_total="@ + dec(m.spool_write_failures_total as nat) + ", spool_dropped_total="@
        + dec(m.spool_dropped_total as nat)
}

/// The message of the shutdown lifecycle event: the reason, its detail and
/// the loss and output failure totals.
pub fn shutdown_message(reason: &ShutdownReason, metrics: &Metrics) -> (r: String)
    ensures
        r@ == shutdown_text(*reason, *metrics),
{
    let mut out = owned("shutdown: reason=");
    push_str(&mut out, reason.label());
    push_str(&mut out, ", detail=");
    let d = reason.detail();
    push_str(&mut out, d.as_str());
    push_str(&mut out, ", dropped_total=");
    let n = u64_to_dec(metrics.dropped_total);
    push_str(&mut out, n.as_str());
    push_str(&mut out, ", json_write_failures_total=");
    let n = u64_to_dec(metrics.json_write_failures_total);
    push_str(&mut out, n.as_str());
    push_str(&mut out, ", spool_events_total=");
    let n = u64_to_dec(metrics.spool_events_total);
    push_str(&mut out, n.as_str());
    push_str(&mut out, ", spool_write_failures_total=");
    let n = u64_to_dec(metrics.spool_write_failures_total);
    push_str(&mut out, n.as_str());
    push_str(&mut out, ", spool_dropped_total=");
    let n = u64_to_dec(metrics.spool_dropped_total);
    push_str(&mut out, n.as_str());
    out
}

/// A message from the collector thread.
#[derive(Debug, Clone, PartialEq, Eq)]
pub enum ControlMessage {
    ReplayEof,
    CollectorError(String),
}

/// What the loop does on a control message: whether the collector is done,
/// whether to stop, the pipeline error to shut down with, and the sensor
/// event to emit (severity, reason, message).
#[derive(Debug, Clone, PartialEq, Eq)]
pub struct ControlStep {
    pub collector_done: bool,
    pub stop: bool,
    pub pipeline_error: Option<String>,
    pub event: Option<(Severity, &'static str, String)>,
}

/// The end of a replay stops the collector; a collector error also fails
/// the runtime, is reported as a high-severity `collector_error` event and
/// stops the loop with that error.
pub fn on_control_message(metrics: &mut Metrics, msg: ControlMessage) -> (r: ControlStep)
    requires
        old(metrics).wf(),
    ensures
        final(metrics).wf(),
        r.collector_done,
        match msg {
            ControlMessage::ReplayEof => {
                &&& *final(metrics) == (Metrics { collector_status: crate::metrics::ComponentStatus::Stopped, ..*old(metrics) })
                &&& !r.stop
                &&& r.pipeline_error is None
                &&& r.event is None
            },
            ControlMessage::CollectorError(m) => {
                &&& *final(metrics) == (Metrics {
                    collector_status: crate::metrics::ComponentStatus::Failed,
                    runtime_status: crate::metrics::ComponentStatus::Failed,
                    ..*old(metrics)
                })
                &&& r.stop
                &&& r.pipeline_error matches Some(e) && e@ == m@
                &&& r.event matches Some(ev) && ev.0 == Severity::High && ev.1@ == "collector_error"@ && ev.2@ == m@
            },
        },
{
    match msg {
        ControlMessage::ReplayEof => {
            metrics.mark_collector_stopped();
            ControlStep { collector_done: true, stop: false, pipeline_error: None, event: None }
        },
        ControlMessage::CollectorError(m) => {
            metrics.mark_collector_failed();
            metrics.mark_runtime_failed();
            let message = owned(m.as_str());
            ControlStep {
                collector_done: true,
                stop: true,
                pipeline_error: Some(m),
                event: Some((Severity::High, "collector_error", message)),
            }
        },
    }
}

/// An exit event from a VM that policy ignores is not emitted: it counts as
/// unsupported, and its sequence number as intentionally skipped so that no
/// gap is reported for it.
pub fn skip_ignored_exit(metrics: &mut Metrics, loss: &mut LossTracker, sequence: u64)
    requires
        old(metrics).wf(),
    ensures
        final(metrics).wf(),
        *final(metrics) == (Metrics {
            unsupported_total: crate::metrics::wrap_add(old(metrics).unsupported_total, 1),
            ..*old(metrics)
        }),
        final(loss).last_drop_total == old(loss).last_drop_total,
        final(loss).last_accounted_sequence == accounted(old(loss).last_accounted_sequence, sequence),
{
    metrics.inc_unsupported();
    loss.account_intentionally_skipped_sequence(sequence);
}

} // verus!
