//! Sensor metrics: counters, gauges and component health. The state is a
//! plain value; the runtime keeps it behind a lock.
use vstd::prelude::*;
use crate::event::{Category, IdentityConfidence, Severity};
use crate::identity::{IdentityCacheResult, IdentityConflictReason, IdentityEnrichment, VmInventorySnapshot};
use crate::text::{bool_text, bool_to_text, cat3, cat5, contains, contains_seq, dec, dec_int, i64_to_dec, owned, push_str, str_eq, u64_to_dec, views};
use crate::vmi::VmiErrorKind;

verus! {

/// Why a trace input line was counted.
#[derive(Debug, Clone, Copy, PartialEq, Eq, Structural)]
pub enum TraceInputReason {
    Parsed,
    UnrelatedTracepoint,
    UnsupportedLine,
    MalformedKvmExit,
    ParserDegraded,
    ParserBug,
}

impl TraceInputReason {
    pub open spec fn name(self) -> Seq<char> {
        match self {
            TraceInputReason::Parsed => "parsed"@,
            TraceInputReason::UnrelatedTracepoint => "unrelated_tracepoint"@,
            TraceInputReason::UnsupportedLine => "unsupported_line"@,
            TraceInputReason::MalformedKvmExit => "malformed_kvm_exit"@,
            TraceInputReason::ParserDegraded => "parser_degraded"@,
            TraceInputReason::ParserBug => "parser_bug"@,
        }
    }

    pub fn as_str(self) -> (r: &'static str)
        ensures
            r@ == self.name(),
    {
        match self {
            TraceInputReason::Parsed => "parsed",
            TraceInputReason::UnrelatedTracepoint => "unrelated_tracepoint",
            TraceInputReason::UnsupportedLine => "unsupported_line",
            TraceInputReason::MalformedKvmExit => "malformed_kvm_exit",
            TraceInputReason::ParserDegraded => "parser_degraded",
            TraceInputReason::ParserBug => "parser_bug",
        }
    }
}

/// Guest architecture label of VMI metrics.
#[derive(Debug, Clone, Copy, PartialEq, Eq, Structural)]
pub enum VmiMetricArchitecture {
    X86_64,
    Arm64,
}

impl VmiMetricArchitecture {
    pub open spec fn name(self) -> Seq<char> {
        match self {
            VmiMetricArchitecture::X86_64 => "x86_64"@,
            VmiMetricArchitecture::Arm64 => "arm64"@,
        }
    }

    pub fn as_str(self) -> (r: &'static str)
        ensures
            r@ == self.name(),
    {
        match self {
            VmiMetricArchitecture::X86_64 => "x86_64",
            VmiMetricArchitecture::Arm64 => "arm64",
        }
    }
}

/// Page-table translation mode label of VMI metrics.
#[derive(Debug, Clone, Copy, PartialEq, Eq, Structural)]
pub enum VmiMetricTranslationMode {
    X86_64FourLevel,
    X86_64La57,
    Arm64Stage1Size4K,
    Arm64Stage1Size16K,
    Arm64Stage1Size64K,
}

impl VmiMetricTranslationMode {
    pub open spec fn name(self) -> Seq<char> {
        match self {
            VmiMetricTranslationMode::X86_64FourLevel => "x86_64-4level"@,
            VmiMetricTranslationMode::X86_64La57 => "x86_64-la57"@,
            VmiMetricTranslationMode::Arm64Stage1Size4K => "arm64-stage1-4k"@,
            VmiMetricTranslationMode::Arm64Stage1Size16K => "arm64-stage1-16k"@,
            VmiMetricTranslationMode::Arm64Stage1Size64K => "arm64-stage1-64k"@,
        }
    }

    pub fn as_str(self) -> (r: &'static str)
        ensures
            r@ == self.name(),
    {
        match self {
            VmiMetricTranslationMode::X86_64FourLevel => "x86_64-4level",
            VmiMetricTranslationMode::X86_64La57 => "x86_64-la57",
            VmiMetricTranslationMode::Arm64Stage1Size4K => "arm64-stage1-4k",
            VmiMetricTranslationMode::Arm64Stage1Size16K => "arm64-stage1-16k",
            VmiMetricTranslationMode::Arm64Stage1Size64K => "arm64-stage1-64k",
        }
    }
}

/// Why a QMP action was refused for identity safety.
#[derive(Debug, Clone, Copy, PartialEq, Eq, Structural)]
pub enum IdentityQmpRefusalReason {
    StableIdentityRequired,
    AmbiguousIdentity,
    ConflictingStableMapping,
    MissingIdentity,
    LowConfidence,
    UnverifiedIdentity,
    PidOnlyIdentity,
    StaleIdentity,
    ConflictingIdentity,
}

impl IdentityQmpRefusalReason {
    pub open spec fn name(self) -> Seq<char> {
        match self {
            IdentityQmpRefusalReason::StableIdentityRequired => "stable_identity_required"@,
            IdentityQmpRefusalReason::AmbiguousIdentity => "ambiguous_identity"@,
            IdentityQmpRefusalReason::ConflictingStableMapping => "conflicting_stable_mapping"@,
            IdentityQmpRefusalReason::MissingIdentity => "missing_identity"@,
            IdentityQmpRefusalReason::LowConfidence => "low_confidence"@,
            IdentityQmpRefusalReason::UnverifiedIdentity => "unverified_identity"@,
            IdentityQmpRefusalReason::PidOnlyIdentity => "pid_only_identity"@,
            IdentityQmpRefusalReason::StaleIdentity => "stale_identity"@,
            IdentityQmpRefusalReason::ConflictingIdentity => "conflicting_identity"@,
        }
    }

    pub fn as_str(self) -> (r: &'static str)
        ensures
            r@ == self.name(),
    {
        match self {
            IdentityQmpRefusalReason::StableIdentityRequired => "stable_identity_required",
            IdentityQmpRefusalReason::AmbiguousIdentity => "ambiguous_identity",
            IdentityQmpRefusalReason::ConflictingStableMapping => "conflicting_stable_mapping",
            IdentityQmpRefusalReason::MissingIdentity => "missing_identity",
            IdentityQmpRefusalReason::LowConfidence => "low_confidence",
            IdentityQmpRefusalReason::UnverifiedIdentity => "unverified_identity",
            IdentityQmpRefusalReason::PidOnlyIdentity => "pid_only_identity",
            IdentityQmpRefusalReason::StaleIdentity => "stale_identity",
            IdentityQmpRefusalReason::ConflictingIdentity => "conflicting_identity",
        }
    }

    pub open spec fn spec_index(self) -> usize {
        match self {
            IdentityQmpRefusalReason::StableIdentityRequired => 0,
            IdentityQmpRefusalReason::AmbiguousIdentity => 1,
            IdentityQmpRefusalReason::ConflictingStableMapping => 2,
            IdentityQmpRefusalReason::MissingIdentity => 3,
            IdentityQmpRefusalReason::LowConfidence => 4,
            IdentityQmpRefusalReason::UnverifiedIdentity => 5,
            IdentityQmpRefusalReason::PidOnlyIdentity => 6,
            IdentityQmpRefusalReason::StaleIdentity => 7,
            IdentityQmpRefusalReason::ConflictingIdentity => 8,
        }
    }

    pub fn index(self) -> (r: usize)
        ensures
            r == self.spec_index(),
            r < 9,
    {
        match self {
            IdentityQmpRefusalReason::StableIdentityRequired => 0,
            IdentityQmpRefusalReason::AmbiguousIdentity => 1,
            IdentityQmpRefusalReason::ConflictingStableMapping => 2,
            IdentityQmpRefusalReason::MissingIdentity => 3,
            IdentityQmpRefusalReason::LowConfidence => 4,
            IdentityQmpRefusalReason::UnverifiedIdentity => 5,
            IdentityQmpRefusalReason::PidOnlyIdentity => 6,
            IdentityQmpRefusalReason::StaleIdentity => 7,
            IdentityQmpRefusalReason::ConflictingIdentity => 8,
        }
    }
}

/// Health state of one runtime component.
#[derive(Debug, Clone, Copy, PartialEq, Eq, Structural)]
pub enum ComponentStatus {
    Starting,
    Running,
    Nominal,
    Disabled,
    Degraded,
    Failed,
    Stopped,
    Stopping,
}

impl ComponentStatus {
    pub open spec fn name(self) -> Seq<char> {
        match self {
            ComponentStatus::Starting => "starting"@,
            ComponentStatus::Running => "running"@,
            ComponentStatus::Nominal => "ok"@,
            ComponentStatus::Disabled => "disabled"@,
            ComponentStatus::Degraded => "degraded"@,
            ComponentStatus::Failed => "failed"@,
            ComponentStatus::Stopped => "stopped"@,
            ComponentStatus::Stopping => "stopping"@,
        }
    }

    pub fn as_str(self) -> (r: &'static str)
        ensures
            r@ == self.name(),
    {
        match self {
            ComponentStatus::Starting => "starting",
            ComponentStatus::Running => "running",
            ComponentStatus::Nominal => "ok",
            ComponentStatus::Disabled => "disabled",
            ComponentStatus::Degraded => "degraded",
            ComponentStatus::Failed => "failed",
            ComponentStatus::Stopped => "stopped",
            ComponentStatus::Stopping => "stopping",
        }
    }
}


impl ComponentStatus {
    pub open spec fn spec_code(self) -> u8 {
        match self {
            ComponentStatus::Starting => 0,
            ComponentStatus::Running => 1,
            ComponentStatus::Nominal => 2,
            ComponentStatus::Disabled => 3,
            ComponentStatus::Degraded => 4,
            ComponentStatus::Failed => 5,
            ComponentStatus::Stopped => 6,
            ComponentStatus::Stopping => 7,
        }
    }

    /// The status's code.
    pub fn code(self) -> (r: u8)
        ensures
            r == self.spec_code(),
    {
        match self {
            ComponentStatus::Starting => 0,
            ComponentStatus::Running => 1,
            ComponentStatus::Nominal => 2,
            ComponentStatus::Disabled => 3,
            ComponentStatus::Degraded => 4,
            ComponentStatus::Failed => 5,
            ComponentStatus::Stopped => 6,
            ComponentStatus::Stopping => 7,
        }
    }

    /// The status with the given code; unknown codes read as `Starting`.
    pub fn from_u8(value: u8) -> (r: Self)
        ensures
            value <= 7 ==> r.spec_code() == value,
            value > 7 ==> r == ComponentStatus::Starting,
    {
        match value {
            1 => ComponentStatus::Running,
            2 => ComponentStatus::Nominal,
            3 => ComponentStatus::Disabled,
            4 => ComponentStatus::Degraded,
            5 => ComponentStatus::Failed,
            6 => ComponentStatus::Stopped,
            7 => ComponentStatus::Stopping,
            _ => ComponentStatus::Starting,
        }
    }

    /// Running, ok and disabled components do not hold back readiness.
    pub open spec fn spec_ready_ok(self) -> bool {
        self == ComponentStatus::Running || self == ComponentStatus::Nominal || self == ComponentStatus::Disabled
    }

    pub fn is_ready_ok(self) -> (r: bool)
        ensures
            r == self.spec_ready_ok(),
    {
        match self {
            ComponentStatus::Running | ComponentStatus::Nominal | ComponentStatus::Disabled => true,
            _ => false,
        }
    }
}

proof fn lemma_status_code_roundtrip(s: ComponentStatus)
    ensures
        s.spec_code() <= 7,
{
}

#[derive(Debug, Clone, Copy, PartialEq, Eq, Structural)]
pub struct HealthComponents {
    pub runtime: ComponentStatus,
    pub collector: ComponentStatus,
    pub metrics_listener: ComponentStatus,
    pub output: ComponentStatus,
    pub policy: ComponentStatus,
    pub pmu: ComponentStatus,
    pub queue: ComponentStatus,
    pub actions: ComponentStatus,
}

impl HealthComponents {
    /// The statuses in reporting order.
    pub open spec fn statuses(self) -> Seq<ComponentStatus> {
        seq![self.runtime, self.collector, self.metrics_listener, self.output, self.policy, self.pmu, self.queue, self.actions]
    }

    /// The component names in reporting order.
    pub open spec fn names() -> Seq<Seq<char>> {
        seq!["runtime"@, "collector"@, "metrics_listener"@, "output"@, "policy"@, "pmu"@, "queue"@, "actions"@]
    }

    pub fn entries(&self) -> (r: Vec<(&'static str, ComponentStatus)>)
        ensures
            r@.len() == 8,
            forall|i: int| 0 <= i < 8 ==> (#[trigger] r@[i]).0@ == Self::names()[i] && r@[i].1 == self.statuses()[i],
    {
        let mut v: Vec<(&'static str, ComponentStatus)> = Vec::new();
        v.push(("runtime", self.runtime));
        v.push(("collector", self.collector));
        v.push(("metrics_listener", self.metrics_listener));
        v.push(("output", self.output));
        v.push(("policy", self.policy));
        v.push(("pmu", self.pmu));
        v.push(("queue", self.queue));
        v.push(("actions", self.actions));
        v
    }
}

#[derive(Debug, Clone, Copy, PartialEq, Eq)]
pub struct HealthSnapshot {
    pub status: &'static str,
    pub healthy: bool,
    pub ready: bool,
    pub components: HealthComponents,
}

/// Some component has the status.
pub open spec fn any_status(c: HealthComponents, s: ComponentStatus) -> bool {
    exists|i: int| 0 <= i < 8 && c.statuses()[i] == s
}

/// The overall status: failed, stopping, stopped, starting, degraded, or ok.
pub open spec fn overall_status(c: HealthComponents) -> Seq<char> {
    if any_status(c, ComponentStatus::Failed) {
        "failed"@
    } else if c.runtime == ComponentStatus::Stopping {
        "stopping"@
    } else if c.runtime == ComponentStatus::Stopped {
        "stopped"@
    } else if any_status(c, ComponentStatus::Starting) {
        "starting"@
    } else if any_status(c, ComponentStatus::Degraded) {
        "degraded"@
    } else {
        "ok"@
    }
}

/// Healthy: nothing failed and the runtime is not stopping or stopped.
pub open spec fn is_healthy(c: HealthComponents) -> bool {
    !any_status(c, ComponentStatus::Failed) && c.runtime != ComponentStatus::Stopping && c.runtime
        != ComponentStatus::Stopped
}

/// Ready: every required component running or ok, the optional ones not
/// holding it back, and nothing degraded or failed.
pub open spec fn is_ready(c: HealthComponents) -> bool {
    &&& c.runtime == ComponentStatus::Running
    &&& c.collector == ComponentStatus::Running
    &&& c.output == ComponentStatus::Nominal
    &&& c.policy == ComponentStatus::Nominal
    &&& c.queue == ComponentStatus::Nominal
    &&& c.actions == ComponentStatus::Nominal
    &&& c.metrics_listener.spec_ready_ok()
    &&& c.pmu.spec_ready_ok()
    &&& !any_status(c, ComponentStatus::Degraded)
    &&& !any_status(c, ComponentStatus::Failed)
}

/// The health JSON document of a snapshot.
pub open spec fn health_json(status: Seq<char>, healthy: bool, ready: bool, c: HealthComponents) -> Seq<char> {
    "{\"schema_version\":1,\"status\":\""@ + status + "\",\"healthy\":"@ + bool_text(healthy)
        + ",\"ready\":"@ + bool_text(ready) + ",\"components\":{"@ + components_json(c) + "}}\n"@
}

/// `"name":"status"` pairs of the components, comma-separated.
pub open spec fn components_json(c: HealthComponents) -> Seq<char> {
    crate::text::join(
        Seq::new(8, |i: int| "\""@ + HealthComponents::names()[i] + "\":\""@ + c.statuses()[i].name() + "\""@),
        ","@,
    )
}

impl HealthSnapshot {
    pub fn to_json(&self) -> (r: String)
        ensures
            r@ == health_json(self.status@, self.healthy, self.ready, self.components),
    {
        let entries = self.components.entries();
        let mut parts: Vec<String> = Vec::new();
        let mut i: usize = 0;
        while i < 8
            invariant
                i <= 8,
                entries@.len() == 8,
                forall|k: int| 0 <= k < 8 ==> (#[trigger] entries@[k]).0@ == HealthComponents::names()[k] && entries@[k].1 == self.components.statuses()[k],
                views(parts@) == Seq::new(8, |k: int| "\""@ + HealthComponents::names()[k] + "\":\""@ + self.components.statuses()[k].name() + "\""@).take(i as int),
            decreases 8 - i,
        {
            let (name, status) = entries[i];
            let part = cat5("\"", name, "\":\"", status.as_str(), "\"");
            let ghost before = views(parts@);
            parts.push(part);
            proof {
                assert(views(parts@) =~= before.push(part@));
                assert(views(parts@) =~= Seq::new(8, |k: int| "\""@ + HealthComponents::names()[k] + "\":\""@ + self.components.statuses()[k].name() + "\""@).take(i as int + 1));
            }
            i = i + 1;
        }
        proof {
            assert(Seq::new(8, |k: int| "\""@ + HealthComponents::names()[k] + "\":\""@ + self.components.statuses()[k].name() + "\""@).take(8) =~= Seq::new(8, |k: int| "\""@ + HealthComponents::names()[k] + "\":\""@ + self.components.statuses()[k].name() + "\""@));
        }
        let comps = crate::text::join_strings(&parts, ",");
        let mut out = cat3("{\"schema_version\":1,\"status\":\"", self.status, "\",\"healthy\":");
        let h = bool_to_text(self.healthy);
        push_str(&mut out, h.as_str());
        push_str(&mut out, ",\"ready\":");
        let rd = bool_to_text(self.ready);
        push_str(&mut out, rd.as_str());
        push_str(&mut out, ",\"components\":{");
        push_str(&mut out, comps.as_str());
        push_str(&mut out, "}}\n");
        out
    }
}


/// `x + n` modulo 2^64, as an atomic counter adds.
pub open spec fn wrap_add(x: u64, n: u64) -> u64 {
    if x + n > u64::MAX {
        (x + n - 0x1_0000_0000_0000_0000) as u64
    } else {
        (x + n) as u64
    }
}

/// `x + n` modulo 2^64.
pub fn wrapping_add_u64(x: u64, n: u64) -> (r: u64)
    ensures
        r == wrap_add(x, n),
{
    if x > u64::MAX - n {
        n - (u64::MAX - x) - 1
    } else {
        x + n
    }
}

/// Counters keyed by a list of label values.
#[derive(Debug, Clone, PartialEq, Eq)]
pub struct LabelCounts {
    pub entries: Vec<(Vec<String>, u64)>,
}

/// The label texts of an entry.
pub open spec fn entry_key(e: (Vec<String>, u64)) -> Seq<Seq<char>> {
    views(e.0@)
}

/// Position of the entry with the given labels, if any.
pub open spec fn label_index(s: Seq<(Vec<String>, u64)>, k: Seq<Seq<char>>) -> Option<int> {
    if exists|i: int| 0 <= i < s.len() && entry_key(#[trigger] s[i]) == k {
        Some(choose|i: int| 0 <= i < s.len() && entry_key(#[trigger] s[i]) == k)
    } else {
        None
    }
}

/// The count for the given labels (zero when absent).
pub open spec fn count_of(s: Seq<(Vec<String>, u64)>, k: Seq<Seq<char>>) -> u64 {
    match label_index(s, k) {
        Some(i) => s[i].1,
        None => 0,
    }
}

/// No label list occurs twice.
pub open spec fn labels_unique(s: Seq<(Vec<String>, u64)>) -> bool {
    forall|i: int, j: int| 0 <= i < j < s.len() ==> entry_key(#[trigger] s[i]) != entry_key(#[trigger] s[j])
}

fn same_labels(a: &Vec<String>, b: &Vec<String>) -> (r: bool)
    ensures
        r == (views(a@) == views(b@)),
{
    if a.len() != b.len() {
        proof {
            assert(views(a@).len() != views(b@).len());
        }
        return false;
    }
    let mut i: usize = 0;
    while i < a.len()
        invariant
            a@.len() == b@.len(),
            i <= a@.len(),
            forall|k: int| 0 <= k < i ==> (#[trigger] a@[k])@ == b@[k]@,
        decreases a@.len() - i,
    {
        if !str_eq(a[i].as_str(), b[i].as_str()) {
            proof {
                assert(views(a@)[i as int] != views(b@)[i as int]);
            }
            return false;
        }
        i = i + 1;
    }
    proof {
        assert(views(a@) =~= views(b@));
    }
    true
}

impl LabelCounts {
    pub open spec fn wf(&self) -> bool {
        labels_unique(self.entries@)
    }

    pub fn new() -> (r: Self)
        ensures
            r.wf(),
            r.entries@.len() == 0,
    {
        LabelCounts { entries: Vec::new() }
    }

    /// Adds one to the count of `labels`; other counts are unchanged.
    pub fn inc(&mut self, labels: Vec<String>)
        requires
            old(self).wf(),
        ensures
            final(self).wf(),
            count_of(final(self).entries@, views(labels@)) == wrap_add(count_of(old(self).entries@, views(labels@)), 1),
            forall|k: Seq<Seq<char>>| k != views(labels@) ==> count_of(final(self).entries@, k) == count_of(old(self).entries@, k),
            match label_index(old(self).entries@, views(labels@)) {
                Some(i) => final(self).entries@.len() == old(self).entries@.len(),
                None => final(self).entries@.len() == old(self).entries@.len() + 1,
            },
    {
        let n = self.entries.len();
        let mut i: usize = 0;
        while i < n
            invariant
                n == self.entries@.len(),
                self.entries@ == old(self).entries@,
                labels_unique(old(self).entries@),
                i <= n,
                forall|k: int| 0 <= k < i ==> entry_key(#[trigger] self.entries@[k]) != views(labels@),
            decreases n - i,
        {
            if same_labels(&self.entries[i].0, &labels) {
                let ghost old_entries = self.entries@;
                let (keys, count) = self.entries.remove(i);
                let bumped = wrapping_add_u64(count, 1);
                self.entries.insert(i, (keys, bumped));
                proof {
                    let ne = self.entries@;
                    assert(ne == old_entries.update(i as int, ne[i as int]));
                    assert(label_index(old_entries, views(labels@)) == Some(i as int)) by {
                        assert forall|k: int| 0 <= k < old_entries.len() && entry_key(#[trigger] old_entries[k]) == views(labels@) implies k == i by {
                            if k != i {
                                if k < i {
                                } else {
                                    assert(entry_key(old_entries[i as int]) != entry_key(old_entries[k]));
                                }
                            }
                        }
                    }
                    assert forall|a: int, b: int| 0 <= a < b < ne.len() implies entry_key(#[trigger] ne[a]) != entry_key(#[trigger] ne[b]) by {
                        assert(entry_key(ne[a]) == entry_key(old_entries[a]));
                        assert(entry_key(ne[b]) == entry_key(old_entries[b]));
                    }
                    assert(label_index(ne, views(labels@)) == Some(i as int)) by {
                        assert forall|k: int| 0 <= k < ne.len() && entry_key(#[trigger] ne[k]) == views(labels@) implies k == i by {
                            if k != i {
                                assert(entry_key(ne[k]) == entry_key(old_entries[k]));
                            }
                        }
                    }
                    assert forall|k: Seq<Seq<char>>| k != views(labels@) implies count_of(ne, k) == count_of(old_entries, k) by {
                        if label_index(old_entries, k) is Some {
                            let j = label_index(old_entries, k)->0;
                            assert(entry_key(ne[j]) == k);
                        }
                        if label_index(ne, k) is Some {
                            let j = label_index(ne, k)->0;
                            assert(entry_key(old_entries[j]) == k);
                        }
                    }
                }
                return;
            }
            i = i + 1;
        }
        let ghost old_entries = self.entries@;
        let ghost key = views(labels@);
        self.entries.push((labels, 1));
        proof {
            let ne = self.entries@;
            assert(label_index(old_entries, key) is None);
            assert(entry_key(ne[n as int]) == key);
            assert(label_index(ne, key) == Some(n as int)) by {
                assert forall|k: int| 0 <= k < ne.len() && entry_key(#[trigger] ne[k]) == key implies k == n by {
                    if k < n {
                        assert(ne[k] == old_entries[k]);
                    }
                }
            }
            assert forall|a: int, b: int| 0 <= a < b < ne.len() implies entry_key(#[trigger] ne[a]) != entry_key(#[trigger] ne[b]) by {
                if b == n {
                    assert(ne[a] == old_entries[a]);
                } else {
                    assert(ne[a] == old_entries[a] && ne[b] == old_entries[b]);
                }
            }
            assert forall|k: Seq<Seq<char>>| k != key implies count_of(ne, k) == count_of(old_entries, k) by {
                if label_index(old_entries, k) is Some {
                    let j = label_index(old_entries, k)->0;
                    assert(ne[j] == old_entries[j]);
                }
                if label_index(ne, k) is Some {
                    let j = label_index(ne, k)->0;
                    if j < n {
                        assert(ne[j] == old_entries[j]);
                    }
                }
            }
        }
    }
}

/// A one-element label list.
pub fn label1(a: &str) -> (r: Vec<String>)
    ensures
        views(r@) == seq![a@],
{
    let mut v: Vec<String> = Vec::new();
    v.push(owned(a));
    proof {
        assert(views(v@) =~= seq![a@]);
    }
    v
}

/// A two-element label list.
pub fn label2(a: &str, b: &str) -> (r: Vec<String>)
    ensures
        views(r@) == seq![a@, b@],
{
    let mut v: Vec<String> = Vec::new();
    v.push(owned(a));
    v.push(owned(b));
    proof {
        assert(views(v@) =~= seq![a@, b@]);
    }
    v
}

/// A three-element label list.
pub fn label3(a: &str, b: &str, c: &str) -> (r: Vec<String>)
    ensures
        views(r@) == seq![a@, b@, c@],
{
    let mut v: Vec<String> = Vec::new();
    v.push(owned(a));
    v.push(owned(b));
    v.push(owned(c));
    proof {
        assert(views(v@) =~= seq![a@, b@, c@]);
    }
    v
}

#[derive(Debug, Clone)]
pub struct Metrics {
    pub runtime_status: ComponentStatus,
    pub collector_status: ComponentStatus,
    pub metrics_listener_status: ComponentStatus,
    pub output_status: ComponentStatus,
    pub policy_status: ComponentStatus,
    pub pmu_status: ComponentStatus,
    pub queue_status: ComponentStatus,
    pub action_status: ComponentStatus,
    pub lines_ingested_total: u64,
    pub trace_inputs_parsed_total: u64,
    pub trace_inputs_unrelated_tracepoint_total: u64,
    pub trace_inputs_unsupported_line_total: u64,
    pub trace_inputs_malformed_kvm_exit_total: u64,
    pub trace_inputs_parser_degraded_total: u64,
    pub trace_inputs_parser_bug_total: u64,
    pub parsed_total: u64,
    pub parse_errors_total: u64,
    pub unsupported_total: u64,
    pub unrelated_tracepoint_total: u64,
    pub dropped_total: u64,
    pub collector_eof_total: u64,
    pub collector_errors_total: u64,
    pub tracefs_read_errors_total: u64,
    pub wx_total: u64,
    pub wx_prune_total: u64,
    pub wx_cooldown_suppressed_total: u64,
    pub pmu_samples_total: u64,
    pub pmu_read_failures_total: u64,
    pub json_write_failures_total: u64,
    pub syslog_write_failures_total: u64,
    pub journald_write_failures_total: u64,
    pub spool_events_total: u64,
    pub spool_write_failures_total: u64,
    pub spool_dropped_total: u64,
    pub action_latency_sum_ms: u64,
    pub action_latency_count: u64,
    pub qmp_latency_sum_ms: u64,
    pub qmp_latency_count: u64,
    pub parse_latency_sum_us: u64,
    pub parse_latency_count: u64,
    pub vmi_memory_read_attempts_total: u64,
    pub vmi_memory_read_successes_total: u64,
    pub vmi_register_access_attempts_total: u64,
    pub vmi_profile_lookup_attempts_total: u64,
    pub vmi_profile_lookup_misses_total: u64,
    pub vmi_fixture_load_attempts_total: u64,
    pub vmi_unsupported_backend_calls_total: u64,
    pub pmu_targets: i64,
    pub identity_inventory_vms: i64,
    pub identity_inventory_degraded: i64,
    pub queue_depth: i64,
    pub queue_capacity: i64,
    pub wx_pages_tracked: i64,
    pub dropped_by_reason: LabelCounts,
    pub events_total: LabelCounts,
    pub policy_matches_total: LabelCounts,
    pub policy_suppressed_total: LabelCounts,
    pub policy_actions_total: LabelCounts,
    pub qmp_failures_total: LabelCounts,
    pub vmi_memory_read_failures_total: LabelCounts,
    pub vmi_translation_attempts_total: LabelCounts,
    pub vmi_translation_successes_total: LabelCounts,
    pub vmi_translation_failures_total: LabelCounts,
    pub vmi_register_access_failures_total: LabelCounts,
    pub vmi_profile_lookup_failures_total: LabelCounts,
    pub vmi_fixture_load_failures_total: LabelCounts,
    pub identity_cache_lookups_total: Vec<u64>,
    pub identity_enrichments_total: Vec<u64>,
    pub identity_conflicts_total: Vec<u64>,
    pub identity_qmp_safety_refusals_total: Vec<u64>,
}

impl Metrics {
    pub open spec fn wf(&self) -> bool {
        self.dropped_by_reason.wf()
        && self.events_total.wf()
        && self.policy_matches_total.wf()
        && self.policy_suppressed_total.wf()
        && self.policy_actions_total.wf()
        && self.qmp_failures_total.wf()
        && self.vmi_memory_read_failures_total.wf()
        && self.vmi_translation_attempts_total.wf()
        && self.vmi_translation_successes_total.wf()
        && self.vmi_translation_failures_total.wf()
        && self.vmi_register_access_failures_total.wf()
        && self.vmi_profile_lookup_failures_total.wf()
        && self.vmi_fixture_load_failures_total.wf()
        && self.identity_cache_lookups_total@.len() == 3
        && self.identity_enrichments_total@.len() == 6
        && self.identity_conflicts_total@.len() == 8
        && self.identity_qmp_safety_refusals_total@.len() == 9
    }

    /// Fresh metrics: every component starting, every count zero.
    pub fn new() -> (r: Self)
        ensures
            r.wf(),
            r.runtime_status == ComponentStatus::Starting,
            r.collector_status == ComponentStatus::Starting,
            r.metrics_listener_status == ComponentStatus::Starting,
            r.output_status == ComponentStatus::Starting,
            r.policy_status == ComponentStatus::Starting,
            r.pmu_status == ComponentStatus::Starting,
            r.queue_status == ComponentStatus::Starting,
            r.action_status == ComponentStatus::Starting,
            r.lines_ingested_total == 0,
            r.trace_inputs_parsed_total == 0,
            r.trace_inputs_unrelated_tracepoint_total == 0,
            r.trace_inputs_unsupported_line_total == 0,
            r.trace_inputs_malformed_kvm_exit_total == 0,
            r.trace_inputs_parser_degraded_total == 0,
            r.trace_inputs_parser_bug_total == 0,
            r.parsed_total == 0,
            r.parse_errors_total == 0,
            r.unsupported_total == 0,
            r.unrelated_tracepoint_total == 0,
            r.dropped_total == 0,
            r.collector_eof_total == 0,
            r.collector_errors_total == 0,
            r.tracefs_read_errors_total == 0,
            r.wx_total == 0,
            r.wx_prune_total == 0,
            r.wx_cooldown_suppressed_total == 0,
            r.pmu_samples_total == 0,
            r.pmu_read_failures_total == 0,
            r.json_write_failures_total == 0,
            r.syslog_write_failures_total == 0,
            r.journald_write_failures_total == 0,
            r.spool_events_total == 0,
            r.spool_write_failures_total == 0,
            r.spool_dropped_total == 0,
            r.action_latency_sum_ms == 0,
            r.action_latency_count == 0,
            r.qmp_latency_sum_ms == 0,
            r.qmp_latency_count == 0,
            r.parse_latency_sum_us == 0,
            r.parse_latency_count == 0,
            r.vmi_memory_read_attempts_total == 0,
            r.vmi_memory_read_successes_total == 0,
            r.vmi_register_access_attempts_total == 0,
            r.vmi_profile_lookup_attempts_total == 0,
            r.vmi_profile_lookup_misses_total == 0,
            r.vmi_fixture_load_attempts_total == 0,
            r.vmi_unsupported_backend_calls_total == 0,
            r.pmu_targets == 0,
            r.identity_inventory_vms == 0,
            r.identity_inventory_degraded == 0,
            r.queue_depth == 0,
            r.queue_capacity == 0,
            r.wx_pages_tracked == 0,
            r.dropped_by_reason.entries@.len() == 0,
            r.events_total.entries@.len() == 0,
            r.policy_matches_total.entries@.len() == 0,
            r.policy_suppressed_total.entries@.len() == 0,
            r.policy_actions_total.entries@.len() == 0,
            r.qmp_failures_total.entries@.len() == 0,
            r.vmi_memory_read_failures_total.entries@.len() == 0,
            r.vmi_translation_attempts_total.entries@.len() == 0,
            r.vmi_translation_successes_total.entries@.len() == 0,
            r.vmi_translation_failures_total.entries@.len() == 0,
            r.vmi_register_access_failures_total.entries@.len() == 0,
            r.vmi_profile_lookup_failures_total.entries@.len() == 0,
            r.vmi_fixture_load_failures_total.entries@.len() == 0,
            forall|i: int| 0 <= i < 3 ==> r.identity_cache_lookups_total@[i] == 0,
            forall|i: int| 0 <= i < 6 ==> r.identity_enrichments_total@[i] == 0,
            forall|i: int| 0 <= i < 8 ==> r.identity_conflicts_total@[i] == 0,
            forall|i: int| 0 <= i < 9 ==> r.identity_qmp_safety_refusals_total@[i] == 0,
    {
        let mut identity_cache_lookups_total: Vec<u64> = Vec::new();
        let mut k: usize = 0;
        while k < 3
            invariant
                k <= 3,
                identity_cache_lookups_total@.len() == k,
                forall|i: int| 0 <= i < k ==> identity_cache_lookups_total@[i] == 0,
            decreases 3 - k,
        {
            identity_cache_lookups_total.push(0);
            k = k + 1;
        }
        let mut identity_enrichments_total: Vec<u64> = Vec::new();
        let mut k: usize = 0;
        while k < 6
            invariant
                k <= 6,
                identity_enrichments_total@.len() == k,
                forall|i: int| 0 <= i < k ==> identity_enrichments_total@[i] == 0,
            decreases 6 - k,
        {
            identity_enrichments_total.push(0);
            k = k + 1;
        }
        let mut identity_conflicts_total: Vec<u64> = Vec::new();
        let mut k: usize = 0;
        while k < 8
            invariant
                k <= 8,
                identity_conflicts_total@.len() == k,
                forall|i: int| 0 <= i < k ==> identity_conflicts_total@[i] == 0,
            decreases 8 - k,
        {
            identity_conflicts_total.push(0);
            k = k + 1;
        }
        let mut identity_qmp_safety_refusals_total: Vec<u64> = Vec::new();
        let mut k: usize = 0;
        while k < 9
            invariant
                k <= 9,
                identity_qmp_safety_refusals_total@.len() == k,
                forall|i: int| 0 <= i < k ==> identity_qmp_safety_refusals_total@[i] == 0,
            decreases 9 - k,
        {
            identity_qmp_safety_refusals_total.push(0);
            k = k + 1;
        }
        Metrics {
            runtime_status: ComponentStatus::Starting,
            collector_status: ComponentStatus::Starting,
            metrics_listener_status: ComponentStatus::Starting,
            output_status: ComponentStatus::Starting,
            policy_status: ComponentStatus::Starting,
            pmu_status: ComponentStatus::Starting,
            queue_status: ComponentStatus::Starting,
            action_status: ComponentStatus::Starting,
            lines_ingested_total: 0,
            trace_inputs_parsed_total: 0,
            trace_inputs_unrelated_tracepoint_total: 0,
            trace_inputs_unsupported_line_total: 0,
            trace_inputs_malformed_kvm_exit_total: 0,
            trace_inputs_parser_degraded_total: 0,
            trace_inputs_parser_bug_total: 0,
            parsed_total: 0,
            parse_errors_total: 0,
            unsupported_total: 0,
            unrelated_tracepoint_total: 0,
            dropped_total: 0,
            collector_eof_total: 0,
            collector_errors_total: 0,
            tracefs_read_errors_total: 0,
            wx_total: 0,
            wx_prune_total: 0,
            wx_cooldown_suppressed_total: 0,
            pmu_samples_total: 0,
            pmu_read_failures_total: 0,
            json_write_failures_total: 0,
            syslog_write_failures_total: 0,
            journald_write_failures_total: 0,
            spool_events_total: 0,
            spool_write_failures_total: 0,
            spool_dropped_total: 0,
            action_latency_sum_ms: 0,
            action_latency_count: 0,
            qmp_latency_sum_ms: 0,
            qmp_latency_count: 0,
            parse_latency_sum_us: 0,
            parse_latency_count: 0,
            vmi_memory_read_attempts_total: 0,
            vmi_memory_read_successes_total: 0,
            vmi_register_access_attempts_total: 0,
            vmi_profile_lookup_attempts_total: 0,
            vmi_profile_lookup_misses_total: 0,
            vmi_fixture_load_attempts_total: 0,
            vmi_unsupported_backend_calls_total: 0,
            pmu_targets: 0,
            identity_inventory_vms: 0,
            identity_inventory_degraded: 0,
            queue_depth: 0,
            queue_capacity: 0,
            wx_pages_tracked: 0,
            dropped_by_reason: LabelCounts::new(),
            events_total: LabelCounts::new(),
            policy_matches_total: LabelCounts::new(),
            policy_suppressed_total: LabelCounts::new(),
            policy_actions_total: LabelCounts::new(),
            qmp_failures_total: LabelCounts::new(),
            vmi_memory_read_failures_total: LabelCounts::new(),
            vmi_translation_attempts_total: LabelCounts::new(),
            vmi_translation_successes_total: LabelCounts::new(),
            vmi_translation_failures_total: LabelCounts::new(),
            vmi_register_access_failures_total: LabelCounts::new(),
            vmi_profile_lookup_failures_total: LabelCounts::new(),
            vmi_fixture_load_failures_total: LabelCounts::new(),
            identity_cache_lookups_total,
            identity_enrichments_total,
            identity_conflicts_total,
            identity_qmp_safety_refusals_total,
        }
    }

    pub fn inc_ingest_line(&mut self)
        requires
            old(self).wf(),
        ensures
            final(self).wf(),
            *final(self) == (Metrics { lines_ingested_total: wrap_add(old(self).lines_ingested_total, 1), ..*old(self) }),
    {
        self.lines_ingested_total = wrapping_add_u64(self.lines_ingested_total, 1);
    }

    pub fn inc_parse_ok(&mut self)
        requires
            old(self).wf(),
        ensures
            final(self).wf(),
            *final(self) == (Metrics { parsed_total: wrap_add(old(self).parsed_total, 1), ..*old(self) }),
    {
        self.parsed_total = wrapping_add_u64(self.parsed_total, 1);
    }

    pub fn inc_parse_error(&mut self)
        requires
            old(self).wf(),
        ensures
            final(self).wf(),
            *final(self) == (Metrics { parse_errors_total: wrap_add(old(self).parse_errors_total, 1), ..*old(self) }),
    {
        self.parse_errors_total = wrapping_add_u64(self.parse_errors_total, 1);
    }

    pub fn inc_unsupported(&mut self)
        requires
            old(self).wf(),
        ensures
            final(self).wf(),
            *final(self) == (Metrics { unsupported_total: wrap_add(old(self).unsupported_total, 1), ..*old(self) }),
    {
        self.unsupported_total = wrapping_add_u64(self.unsupported_total, 1);
    }

    pub fn inc_unrelated_tracepoint(&mut self)
        requires
            old(self).wf(),
        ensures
            final(self).wf(),
            *final(self) == (Metrics { unrelated_tracepoint_total: wrap_add(old(self).unrelated_tracepoint_total, 1), ..*old(self) }),
    {
        self.unrelated_tracepoint_total = wrapping_add_u64(self.unrelated_tracepoint_total, 1);
    }

    pub fn dropped_total(&self) -> (r: u64)
        ensures
            r == self.dropped_total,
    {
        self.dropped_total
    }

    pub fn json_write_failures_total(&self) -> (r: u64)
        ensures
            r == self.json_write_failures_total,
    {
        self.json_write_failures_total
    }

    pub fn syslog_write_failures_total(&self) -> (r: u64)
        ensures
            r == self.syslog_write_failures_total,
    {
        self.syslog_write_failures_total
    }

    pub fn journald_write_failures_total(&self) -> (r: u64)
        ensures
            r == self.journald_write_failures_total,
    {
        self.journald_write_failures_total
    }

    pub fn spool_events_total(&self) -> (r: u64)
        ensures
            r == self.spool_events_total,
    {
        self.spool_events_total
    }

    pub fn spool_write_failures_total(&self) -> (r: u64)
        ensures
            r == self.spool_write_failures_total,
    {
        self.spool_write_failures_total
    }

    pub fn spool_dropped_total(&self) -> (r: u64)
        ensures
            r == self.spool_dropped_total,
    {
        self.spool_dropped_total
    }

    pub fn inc_collector_eof(&mut self)
        requires
            old(self).wf(),
        ensures
            final(self).wf(),
            *final(self) == (Metrics { collector_eof_total: wrap_add(old(self).collector_eof_total, 1), ..*old(self) }),
    {
        self.collector_eof_total = wrapping_add_u64(self.collector_eof_total, 1);
    }

    pub fn inc_collector_error(&mut self)
        requires
            old(self).wf(),
        ensures
            final(self).wf(),
            *final(self) == (Metrics { collector_errors_total: wrap_add(old(self).collector_errors_total, 1), ..*old(self) }),
    {
        self.collector_errors_total = wrapping_add_u64(self.collector_errors_total, 1);
    }

    pub fn inc_tracefs_read_error(&mut self)
        requires
            old(self).wf(),
        ensures
            final(self).wf(),
            *final(self) == (Metrics { tracefs_read_errors_total: wrap_add(old(self).tracefs_read_errors_total, 1), ..*old(self) }),
    {
        self.tracefs_read_errors_total = wrapping_add_u64(self.tracefs_read_errors_total, 1);
    }

    pub fn record_vmi_memory_read_attempt(&mut self)
        requires
            old(self).wf(),
        ensures
            final(self).wf(),
            *final(self) == (Metrics { vmi_memory_read_attempts_total: wrap_add(old(self).vmi_memory_read_attempts_total, 1), ..*old(self) }),
    {
        self.vmi_memory_read_attempts_total = wrapping_add_u64(self.vmi_memory_read_attempts_total, 1);
    }

    pub fn record_vmi_memory_read_success(&mut self)
        requires
            old(self).wf(),
        ensures
            final(self).wf(),
            *final(self) == (Metrics { vmi_memory_read_successes_total: wrap_add(old(self).vmi_memory_read_successes_total, 1), ..*old(self) }),
    {
        self.vmi_memory_read_successes_total = wrapping_add_u64(self.vmi_memory_read_successes_total, 1);
    }

    pub fn record_vmi_register_access_attempt(&mut self)
        requires
            old(self).wf(),
        ensures
            final(self).wf(),
            *final(self) == (Metrics { vmi_register_access_attempts_total: wrap_add(old(self).vmi_register_access_attempts_total, 1), ..*old(self) }),
    {
        self.vmi_register_access_attempts_total = wrapping_add_u64(self.vmi_register_access_attempts_total, 1);
    }

    pub fn record_vmi_profile_lookup_attempt(&mut self)
        requires
            old(self).wf(),
        ensures
            final(self).wf(),
            *final(self) == (Metrics { vmi_profile_lookup_attempts_total: wrap_add(old(self).vmi_profile_lookup_attempts_total, 1), ..*old(self) }),
    {
        self.vmi_profile_lookup_attempts_total = wrapping_add_u64(self.vmi_profile_lookup_attempts_total, 1);
    }

    pub fn record_vmi_profile_lookup_miss(&mut self)
        requires
            old(self).wf(),
        ensures
            final(self).wf(),
            *final(self) == (Metrics { vmi_profile_lookup_misses_total: wrap_add(old(self).vmi_profile_lookup_misses_total, 1), ..*old(self) }),
    {
        self.vmi_profile_lookup_misses_total = wrapping_add_u64(self.vmi_profile_lookup_misses_total, 1);
    }

    pub fn record_vmi_fixture_load_attempt(&mut self)
        requires
            old(self).wf(),
        ensures
            final(self).wf(),
            *final(self) == (Metrics { vmi_fixture_load_attempts_total: wrap_add(old(self).vmi_fixture_load_attempts_total, 1), ..*old(self) }),
    {
        self.vmi_fixture_load_attempts_total = wrapping_add_u64(self.vmi_fixture_load_attempts_total, 1);
    }

    pub fn record_vmi_unsupported_backend_call(&mut self)
        requires
            old(self).wf(),
        ensures
            final(self).wf(),
            *final(self) == (Metrics { vmi_unsupported_backend_calls_total: wrap_add(old(self).vmi_unsupported_backend_calls_total, 1), ..*old(self) }),
    {
        self.vmi_unsupported_backend_calls_total = wrapping_add_u64(self.vmi_unsupported_backend_calls_total, 1);
    }

    pub fn inc_wx(&mut self)
        requires
            old(self).wf(),
        ensures
            final(self).wf(),
            *final(self) == (Metrics { wx_total: wrap_add(old(self).wx_total, 1), ..*old(self) }),
    {
        self.wx_total = wrapping_add_u64(self.wx_total, 1);
    }

    pub fn inc_wx_prune(&mut self, count: u64)
        requires
            old(self).wf(),
        ensures
            final(self).wf(),
            *final(self) == (Metrics { wx_prune_total: wrap_add(old(self).wx_prune_total, count), ..*old(self) }),
    {
        self.wx_prune_total = wrapping_add_u64(self.wx_prune_total, count);
    }

    pub fn inc_wx_cooldown_suppressed(&mut self, count: u64)
        requires
            old(self).wf(),
        ensures
            final(self).wf(),
            *final(self) == (Metrics { wx_cooldown_suppressed_total: wrap_add(old(self).wx_cooldown_suppressed_total, count), ..*old(self) }),
    {
        self.wx_cooldown_suppressed_total = wrapping_add_u64(self.wx_cooldown_suppressed_total, count);
    }

    pub fn inc_pmu(&mut self)
        requires
            old(self).wf(),
        ensures
            final(self).wf(),
            *final(self) == (Metrics { pmu_samples_total: wrap_add(old(self).pmu_samples_total, 1), ..*old(self) }),
    {
        self.pmu_samples_total = wrapping_add_u64(self.pmu_samples_total, 1);
    }

    pub fn inc_json_write_failure(&mut self)
        requires
            old(self).wf(),
        ensures
            final(self).wf(),
            *final(self) == (Metrics { json_write_failures_total: wrap_add(old(self).json_write_failures_total, 1), ..*old(self) }),
    {
        self.json_write_failures_total = wrapping_add_u64(self.json_write_failures_total, 1);
    }

    pub fn inc_syslog_write_failure(&mut self)
        requires
            old(self).wf(),
        ensures
            final(self).wf(),
            *final(self) == (Metrics { syslog_write_failures_total: wrap_add(old(self).syslog_write_failures_total, 1), ..*old(self) }),
    {
        self.syslog_write_failures_total = wrapping_add_u64(self.syslog_write_failures_total, 1);
    }

    pub fn inc_journald_write_failure(&mut self)
        requires
            old(self).wf(),
        ensures
            final(self).wf(),
            *final(self) == (Metrics { journald_write_failures_total: wrap_add(old(self).journald_write_failures_total, 1), ..*old(self) }),
    {
        self.journald_write_failures_total = wrapping_add_u64(self.journald_write_failures_total, 1);
    }

    pub fn inc_spool_event(&mut self)
        requires
            old(self).wf(),
        ensures
            final(self).wf(),
            *final(self) == (Metrics { spool_events_total: wrap_add(old(self).spool_events_total, 1), ..*old(self) }),
    {
        self.spool_events_total = wrapping_add_u64(self.spool_events_total, 1);
    }

    pub fn inc_spool_write_failure(&mut self)
        requires
            old(self).wf(),
        ensures
            final(self).wf(),
            *final(self) == (Metrics { spool_write_failures_total: wrap_add(old(self).spool_write_failures_total, 1), ..*old(self) }),
    {
        self.spool_write_failures_total = wrapping_add_u64(self.spool_write_failures_total, 1);
    }

    pub fn inc_spool_dropped(&mut self)
        requires
            old(self).wf(),
        ensures
            final(self).wf(),
            *final(self) == (Metrics { spool_dropped_total: wrap_add(old(self).spool_dropped_total, 1), ..*old(self) }),
    {
        self.spool_dropped_total = wrapping_add_u64(self.spool_dropped_total, 1);
    }

    pub fn mark_runtime_running(&mut self)
        requires
            old(self).wf(),
        ensures
            final(self).wf(),
            *final(self) == (Metrics { runtime_status: ComponentStatus::Running, ..*old(self) }),
    {
        self.runtime_status = ComponentStatus::Running;
    }

    pub fn mark_runtime_stopping(&mut self)
        requires
            old(self).wf(),
        ensures
            final(self).wf(),
            *final(self) == (Metrics { runtime_status: ComponentStatus::Stopping, ..*old(self) }),
    {
        self.runtime_status = ComponentStatus::Stopping;
    }

    pub fn mark_runtime_stopped(&mut self)
        requires
            old(self).wf(),
        ensures
            final(self).wf(),
            *final(self) == (Metrics { runtime_status: ComponentStatus::Stopped, ..*old(self) }),
    {
        self.runtime_status = ComponentStatus::Stopped;
    }

    pub fn mark_runtime_failed(&mut self)
        requires
            old(self).wf(),
        ensures
            final(self).wf(),
            *final(self) == (Metrics { runtime_status: ComponentStatus::Failed, ..*old(self) }),
    {
        self.runtime_status = ComponentStatus::Failed;
    }

    pub fn mark_collector_running(&mut self)
        requires
            old(self).wf(),
        ensures
            final(self).wf(),
            *final(self) == (Metrics { collector_status: ComponentStatus::Running, ..*old(self) }),
    {
        self.collector_status = ComponentStatus::Running;
    }

    pub fn mark_collector_stopped(&mut self)
        requires
            old(self).wf(),
        ensures
            final(self).wf(),
            *final(self) == (Metrics { collector_status: ComponentStatus::Stopped, ..*old(self) }),
    {
        self.collector_status = ComponentStatus::Stopped;
    }

    pub fn mark_collector_failed(&mut self)
        requires
            old(self).wf(),
        ensures
            final(self).wf(),
            *final(self) == (Metrics { collector_status: ComponentStatus::Failed, ..*old(self) }),
    {
        self.collector_status = ComponentStatus::Failed;
    }

    pub fn mark_metrics_listener_running(&mut self)
        requires
            old(self).wf(),
        ensures
            final(self).wf(),
            *final(self) == (Metrics { metrics_listener_status: ComponentStatus::Running, ..*old(self) }),
    {
        self.metrics_listener_status = ComponentStatus::Running;
    }

    pub fn mark_metrics_listener_disabled(&mut self)
        requires
            old(self).wf(),
        ensures
            final(self).wf(),
            *final(self) == (Metrics { metrics_listener_status: ComponentStatus::Disabled, ..*old(self) }),
    {
        self.metrics_listener_status = ComponentStatus::Disabled;
    }

    pub fn mark_metrics_listener_degraded(&mut self)
        requires
            old(self).wf(),
        ensures
            final(self).wf(),
            *final(self) == (Metrics { metrics_listener_status: ComponentStatus::Degraded, ..*old(self) }),
    {
        self.metrics_listener_status = ComponentStatus::Degraded;
    }

    pub fn mark_output_ok(&mut self)
        requires
            old(self).wf(),
        ensures
            final(self).wf(),
            *final(self) == (Metrics { output_status: ComponentStatus::Nominal, ..*old(self) }),
    {
        self.output_status = ComponentStatus::Nominal;
    }

    pub fn mark_output_degraded(&mut self)
        requires
            old(self).wf(),
        ensures
            final(self).wf(),
            *final(self) == (Metrics { output_status: ComponentStatus::Degraded, ..*old(self) }),
    {
        self.output_status = ComponentStatus::Degraded;
    }

    pub fn mark_output_failed(&mut self)
        requires
            old(self).wf(),
        ensures
            final(self).wf(),
            *final(self) == (Metrics { output_status: ComponentStatus::Failed, ..*old(self) }),
    {
        self.output_status = ComponentStatus::Failed;
    }

    pub fn mark_policy_ok(&mut self)
        requires
            old(self).wf(),
        ensures
            final(self).wf(),
            *final(self) == (Metrics { policy_status: ComponentStatus::Nominal, ..*old(self) }),
    {
        self.policy_status = ComponentStatus::Nominal;
    }

    pub fn mark_policy_degraded(&mut self)
        requires
            old(self).wf(),
        ensures
            final(self).wf(),
            *final(self) == (Metrics { policy_status: ComponentStatus::Degraded, ..*old(self) }),
    {
        self.policy_status = ComponentStatus::Degraded;
    }

    pub fn mark_policy_failed(&mut self)
        requires
            old(self).wf(),
        ensures
            final(self).wf(),
            *final(self) == (Metrics { policy_status: ComponentStatus::Failed, ..*old(self) }),
    {
        self.policy_status = ComponentStatus::Failed;
    }

    pub fn mark_pmu_running(&mut self)
        requires
            old(self).wf(),
        ensures
            final(self).wf(),
            *final(self) == (Metrics { pmu_status: ComponentStatus::Running, ..*old(self) }),
    {
        self.pmu_status = ComponentStatus::Running;
    }

    pub fn mark_pmu_disabled(&mut self)
        requires
            old(self).wf(),
        ensures
            final(self).wf(),
            *final(self) == (Metrics { pmu_status: ComponentStatus::Disabled, ..*old(self) }),
    {
        self.pmu_status = ComponentStatus::Disabled;
    }

    pub fn mark_pmu_degraded(&mut self)
        requires
            old(self).wf(),
        ensures
            final(self).wf(),
            *final(self) == (Metrics { pmu_status: ComponentStatus::Degraded, ..*old(self) }),
    {
        self.pmu_status = ComponentStatus::Degraded;
    }

    pub fn mark_pmu_failed(&mut self)
        requires
            old(self).wf(),
        ensures
            final(self).wf(),
            *final(self) == (Metrics { pmu_status: ComponentStatus::Failed, ..*old(self) }),
    {
        self.pmu_status = ComponentStatus::Failed;
    }

    pub fn mark_actions_ok(&mut self)
        requires
            old(self).wf(),
        ensures
            final(self).wf(),
            *final(self) == (Metrics { action_status: ComponentStatus::Nominal, ..*old(self) }),
    {
        self.action_status = ComponentStatus::Nominal;
    }

    pub fn mark_actions_degraded(&mut self)
        requires
            old(self).wf(),
        ensures
            final(self).wf(),
            *final(self) == (Metrics { action_status: ComponentStatus::Degraded, ..*old(self) }),
    {
        self.action_status = ComponentStatus::Degraded;
    }

    pub fn mark_actions_failed(&mut self)
        requires
            old(self).wf(),
        ensures
            final(self).wf(),
            *final(self) == (Metrics { action_status: ComponentStatus::Failed, ..*old(self) }),
    {
        self.action_status = ComponentStatus::Failed;
    }

    pub fn mark_unhealthy(&mut self)
        requires
            old(self).wf(),
        ensures
            final(self).wf(),
            *final(self) == (Metrics { runtime_status: ComponentStatus::Failed, ..*old(self) }),
    {
        self.runtime_status = ComponentStatus::Failed;
    }

    pub fn mark_healthy(&mut self)
        requires
            old(self).wf(),
        ensures
            final(self).wf(),
            *final(self) == (Metrics { runtime_status: ComponentStatus::Running, ..*old(self) }),
    {
        self.runtime_status = ComponentStatus::Running;
    }

    pub fn inc_event(&mut self, category: Category, severity: Severity)
        requires
            old(self).wf(),
        ensures
            final(self).wf(),
            *final(self) == (Metrics { events_total: final(self).events_total, ..*old(self) }),
            count_of(final(self).events_total.entries@, seq![category.name(), severity.name()]) == wrap_add(count_of(old(self).events_total.entries@, seq![category.name(), severity.name()]), 1),
            forall|k: Seq<Seq<char>>| k != seq![category.name(), severity.name()] ==> count_of(final(self).events_total.entries@, k) == count_of(old(self).events_total.entries@, k),
    {
        let labels = label2(category.as_str(), severity.as_str());
        self.events_total.inc(labels);
    }

    pub fn record_vmi_memory_read_failure(&mut self, kind: VmiErrorKind)
        requires
            old(self).wf(),
        ensures
            final(self).wf(),
            *final(self) == (Metrics { vmi_memory_read_failures_total: final(self).vmi_memory_read_failures_total, ..*old(self) }),
            count_of(final(self).vmi_memory_read_failures_total.entries@, seq![kind.name()]) == wrap_add(count_of(old(self).vmi_memory_read_failures_total.entries@, seq![kind.name()]), 1),
            forall|k: Seq<Seq<char>>| k != seq![kind.name()] ==> count_of(final(self).vmi_memory_read_failures_total.entries@, k) == count_of(old(self).vmi_memory_read_failures_total.entries@, k),
    {
        let labels = label1(kind.as_str());
        self.vmi_memory_read_failures_total.inc(labels);
    }

    pub fn record_vmi_translation_attempt(&mut self, architecture: VmiMetricArchitecture, mode: VmiMetricTranslationMode)
        requires
            old(self).wf(),
        ensures
            final(self).wf(),
            *final(self) == (Metrics { vmi_translation_attempts_total: final(self).vmi_translation_attempts_total, ..*old(self) }),
            count_of(final(self).vmi_translation_attempts_total.entries@, seq![architecture.name(), mode.name()]) == wrap_add(count_of(old(self).vmi_translation_attempts_total.entries@, seq![architecture.name(), mode.name()]), 1),
            forall|k: Seq<Seq<char>>| k != seq![architecture.name(), mode.name()] ==> count_of(final(self).vmi_translation_attempts_total.entries@, k) == count_of(old(self).vmi_translation_attempts_total.entries@, k),
    {
        let labels = label2(architecture.as_str(), mode.as_str());
        self.vmi_translation_attempts_total.inc(labels);
    }

    pub fn record_vmi_translation_success(&mut self, architecture: VmiMetricArchitecture, mode: VmiMetricTranslationMode)
        requires
            old(self).wf(),
        ensures
            final(self).wf(),
            *final(self) == (Metrics { vmi_translation_successes_total: final(self).vmi_translation_successes_total, ..*old(self) }),
            count_of(final(self).vmi_translation_successes_total.entries@, seq![architecture.name(), mode.name()]) == wrap_add(count_of(old(self).vmi_translation_successes_total.entries@, seq![architecture.name(), mode.name()]), 1),
            forall|k: Seq<Seq<char>>| k != seq![architecture.name(), mode.name()] ==> count_of(final(self).vmi_translation_successes_total.entries@, k) == count_of(old(self).vmi_translation_successes_total.entries@, k),
    {
        let labels = label2(architecture.as_str(), mode.as_str());
        self.vmi_translation_successes_total.inc(labels);
    }

    pub fn record_vmi_translation_failure(&mut self, architecture: VmiMetricArchitecture, mode: VmiMetricTranslationMode, kind: VmiErrorKind)
        requires
            old(self).wf(),
        ensures
            final(self).wf(),
            *final(self) == (Metrics { vmi_translation_failures_total: final(self).vmi_translation_failures_total, ..*old(self) }),
            count_of(final(self).vmi_translation_failures_total.entries@, seq![architecture.name(), mode.name(), kind.name()]) == wrap_add(count_of(old(self).vmi_translation_failures_total.entries@, seq![architecture.name(), mode.name(), kind.name()]), 1),
            forall|k: Seq<Seq<char>>| k != seq![architecture.name(), mode.name(), kind.name()] ==> count_of(final(self).vmi_translation_failures_total.entries@, k) == count_of(old(self).vmi_translation_failures_total.entries@, k),
    {
        let labels = label3(architecture.as_str(), mode.as_str(), kind.as_str());
        self.vmi_translation_failures_total.inc(labels);
    }

    pub fn record_vmi_register_access_failure(&mut self, kind: VmiErrorKind)
        requires
            old(self).wf(),
        ensures
            final(self).wf(),
            *final(self) == (Metrics { vmi_register_access_failures_total: final(self).vmi_register_access_failures_total, ..*old(self) }),
            count_of(final(self).vmi_register_access_failures_total.entries@, seq![kind.name()]) == wrap_add(count_of(old(self).vmi_register_access_failures_total.entries@, seq![kind.name()]), 1),
            forall|k: Seq<Seq<char>>| k != seq![kind.name()] ==> count_of(final(self).vmi_register_access_failures_total.entries@, k) == count_of(old(self).vmi_register_access_failures_total.entries@, k),
    {
        let labels = label1(kind.as_str());
        self.vmi_register_access_failures_total.inc(labels);
    }

    pub fn record_vmi_profile_lookup_failure(&mut self, kind: VmiErrorKind)
        requires
            old(self).wf(),
        ensures
            final(self).wf(),
            *final(self) == (Metrics { vmi_profile_lookup_failures_total: final(self).vmi_profile_lookup_failures_total, ..*old(self) }),
            count_of(final(self).vmi_profile_lookup_failures_total.entries@, seq![kind.name()]) == wrap_add(count_of(old(self).vmi_profile_lookup_failures_total.entries@, seq![kind.name()]), 1),
            forall|k: Seq<Seq<char>>| k != seq![kind.name()] ==> count_of(final(self).vmi_profile_lookup_failures_total.entries@, k) == count_of(old(self).vmi_profile_lookup_failures_total.entries@, k),
    {
        let labels = label1(kind.as_str());
        self.vmi_profile_lookup_failures_total.inc(labels);
    }

    pub fn record_vmi_fixture_load_failure(&mut self, kind: VmiErrorKind)
        requires
            old(self).wf(),
        ensures
            final(self).wf(),
            *final(self) == (Metrics { vmi_fixture_load_failures_total: final(self).vmi_fixture_load_failures_total, ..*old(self) }),
            count_of(final(self).vmi_fixture_load_failures_total.entries@, seq![kind.name()]) == wrap_add(count_of(old(self).vmi_fixture_load_failures_total.entries@, seq![kind.name()]), 1),
            forall|k: Seq<Seq<char>>| k != seq![kind.name()] ==> count_of(final(self).vmi_fixture_load_failures_total.entries@, k) == count_of(old(self).vmi_fixture_load_failures_total.entries@, k),
    {
        let labels = label1(kind.as_str());
        self.vmi_fixture_load_failures_total.inc(labels);
    }

    pub fn inc_policy_match(&mut self, rule: &str)
        requires
            old(self).wf(),
        ensures
            final(self).wf(),
            *final(self) == (Metrics { policy_matches_total: final(self).policy_matches_total, ..*old(self) }),
            count_of(final(self).policy_matches_total.entries@, seq![rule@]) == wrap_add(count_of(old(self).policy_matches_total.entries@, seq![rule@]), 1),
            forall|k: Seq<Seq<char>>| k != seq![rule@] ==> count_of(final(self).policy_matches_total.entries@, k) == count_of(old(self).policy_matches_total.entries@, k),
    {
        let labels = label1(rule);
        self.policy_matches_total.inc(labels);
    }

    pub fn inc_policy_suppressed(&mut self, rule: &str, reason: &str)
        requires
            old(self).wf(),
        ensures
            final(self).wf(),
            *final(self) == (Metrics { policy_suppressed_total: final(self).policy_suppressed_total, ..*old(self) }),
            count_of(final(self).policy_suppressed_total.entries@, seq![rule@, reason@]) == wrap_add(count_of(old(self).policy_suppressed_total.entries@, seq![rule@, reason@]), 1),
            forall|k: Seq<Seq<char>>| k != seq![rule@, reason@] ==> count_of(final(self).policy_suppressed_total.entries@, k) == count_of(old(self).policy_suppressed_total.entries@, k),
    {
        let labels = label2(rule, reason);
        self.policy_suppressed_total.inc(labels);
    }

    pub fn inc_policy_action(&mut self, kind: &str, ok: bool)
        requires
            old(self).wf(),
        ensures
            final(self).wf(),
            *final(self) == (Metrics { policy_actions_total: final(self).policy_actions_total, action_status: final(self).action_status, ..*old(self) }),
            count_of(final(self).policy_actions_total.entries@, seq![kind@, bool_text(ok)]) == wrap_add(count_of(old(self).policy_actions_total.entries@, seq![kind@, bool_text(ok)]), 1),
            forall|k: Seq<Seq<char>>| k != seq![kind@, bool_text(ok)] ==> count_of(final(self).policy_actions_total.entries@, k) == count_of(old(self).policy_actions_total.entries@, k),
            final(self).action_status == (if ok { old(self).action_status } else { ComponentStatus::Degraded }),
    {
        if !ok {
            self.action_status = ComponentStatus::Degraded;
        }
        let okt = bool_to_text(ok);
        let labels = label2(kind, okt.as_str());
        self.policy_actions_total.inc(labels);
    }

    pub fn inc_qmp_failure(&mut self, kind: &str)
        requires
            old(self).wf(),
        ensures
            final(self).wf(),
            *final(self) == (Metrics { qmp_failures_total: final(self).qmp_failures_total, action_status: final(self).action_status, ..*old(self) }),
            count_of(final(self).qmp_failures_total.entries@, seq![kind@]) == wrap_add(count_of(old(self).qmp_failures_total.entries@, seq![kind@]), 1),
            forall|k: Seq<Seq<char>>| k != seq![kind@] ==> count_of(final(self).qmp_failures_total.entries@, k) == count_of(old(self).qmp_failures_total.entries@, k),
            final(self).action_status == ComponentStatus::Degraded,
    {
        self.action_status = ComponentStatus::Degraded;
        let labels = label1(kind);
        self.qmp_failures_total.inc(labels);
    }

    pub fn inc_dropped(&mut self, reason: &str)
        requires
            old(self).wf(),
        ensures
            final(self).wf(),
            *final(self) == (Metrics { dropped_by_reason: final(self).dropped_by_reason, dropped_total: final(self).dropped_total, queue_status: final(self).queue_status, ..*old(self) }),
            count_of(final(self).dropped_by_reason.entries@, seq![reason@]) == wrap_add(count_of(old(self).dropped_by_reason.entries@, seq![reason@]), 1),
            forall|k: Seq<Seq<char>>| k != seq![reason@] ==> count_of(final(self).dropped_by_reason.entries@, k) == count_of(old(self).dropped_by_reason.entries@, k),
            final(self).dropped_total == wrap_add(old(self).dropped_total, 1),
            final(self).queue_status == (if contains_seq(reason@, "queue"@) { ComponentStatus::Degraded } else { old(self).queue_status }),
    {
        self.dropped_total = wrapping_add_u64(self.dropped_total, 1);
        if contains(reason, "queue") {
            self.queue_status = ComponentStatus::Degraded;
        }
        let labels = label1(reason);
        self.dropped_by_reason.inc(labels);
    }

    pub fn inc_trace_input(&mut self, reason: TraceInputReason)
        requires
            old(self).wf(),
        ensures
            final(self).wf(),
            *final(self) == match reason {
                TraceInputReason::Parsed => Metrics { trace_inputs_parsed_total: wrap_add(old(self).trace_inputs_parsed_total, 1), ..*old(self) },
                TraceInputReason::UnrelatedTracepoint => Metrics { trace_inputs_unrelated_tracepoint_total: wrap_add(old(self).trace_inputs_unrelated_tracepoint_total, 1), ..*old(self) },
                TraceInputReason::UnsupportedLine => Metrics { trace_inputs_unsupported_line_total: wrap_add(old(self).trace_inputs_unsupported_line_total, 1), ..*old(self) },
                TraceInputReason::MalformedKvmExit => Metrics { trace_inputs_malformed_kvm_exit_total: wrap_add(old(self).trace_inputs_malformed_kvm_exit_total, 1), ..*old(self) },
                TraceInputReason::ParserDegraded => Metrics { trace_inputs_parser_degraded_total: wrap_add(old(self).trace_inputs_parser_degraded_total, 1), ..*old(self) },
                TraceInputReason::ParserBug => Metrics { trace_inputs_parser_bug_total: wrap_add(old(self).trace_inputs_parser_bug_total, 1), ..*old(self) },
            },
    {
        match reason {
            TraceInputReason::Parsed => {
                self.trace_inputs_parsed_total = wrapping_add_u64(self.trace_inputs_parsed_total, 1);
            },
            TraceInputReason::UnrelatedTracepoint => {
                self.trace_inputs_unrelated_tracepoint_total = wrapping_add_u64(self.trace_inputs_unrelated_tracepoint_total, 1);
            },
            TraceInputReason::UnsupportedLine => {
                self.trace_inputs_unsupported_line_total = wrapping_add_u64(self.trace_inputs_unsupported_line_total, 1);
            },
            TraceInputReason::MalformedKvmExit => {
                self.trace_inputs_malformed_kvm_exit_total = wrapping_add_u64(self.trace_inputs_malformed_kvm_exit_total, 1);
            },
            TraceInputReason::ParserDegraded => {
                self.trace_inputs_parser_degraded_total = wrapping_add_u64(self.trace_inputs_parser_degraded_total, 1);
            },
            TraceInputReason::ParserBug => {
                self.trace_inputs_parser_bug_total = wrapping_add_u64(self.trace_inputs_parser_bug_total, 1);
            },
        }
    }

    /// The trace-input counter for a reason.
    pub fn trace_input_count(&self, reason: TraceInputReason) -> (r: u64)
        ensures
            r == match reason {
                TraceInputReason::Parsed => self.trace_inputs_parsed_total,
                TraceInputReason::UnrelatedTracepoint => self.trace_inputs_unrelated_tracepoint_total,
                TraceInputReason::UnsupportedLine => self.trace_inputs_unsupported_line_total,
                TraceInputReason::MalformedKvmExit => self.trace_inputs_malformed_kvm_exit_total,
                TraceInputReason::ParserDegraded => self.trace_inputs_parser_degraded_total,
                TraceInputReason::ParserBug => self.trace_inputs_parser_bug_total,
            },
    {
        match reason {
            TraceInputReason::Parsed => self.trace_inputs_parsed_total,
            TraceInputReason::UnrelatedTracepoint => self.trace_inputs_unrelated_tracepoint_total,
            TraceInputReason::UnsupportedLine => self.trace_inputs_unsupported_line_total,
            TraceInputReason::MalformedKvmExit => self.trace_inputs_malformed_kvm_exit_total,
            TraceInputReason::ParserDegraded => self.trace_inputs_parser_degraded_total,
            TraceInputReason::ParserBug => self.trace_inputs_parser_bug_total,
        }
    }

    pub fn inc_pmu_read_failure(&mut self)
        requires
            old(self).wf(),
        ensures
            final(self).wf(),
            *final(self) == (Metrics {
                pmu_status: ComponentStatus::Degraded,
                pmu_read_failures_total: wrap_add(old(self).pmu_read_failures_total, 1),
                ..*old(self)
            }),
    {
        self.pmu_status = ComponentStatus::Degraded;
        self.pmu_read_failures_total = wrapping_add_u64(self.pmu_read_failures_total, 1);
    }

    pub fn set_pmu_targets(&mut self, targets: usize)
        requires
            old(self).wf(),
        ensures
            final(self).wf(),
            *final(self) == (Metrics { pmu_targets: usize_gauge(targets), ..*old(self) }),
    {
        self.pmu_targets = usize_to_i64(targets);
    }

    pub fn set_wx_pages_tracked(&mut self, count: usize)
        requires
            old(self).wf(),
        ensures
            final(self).wf(),
            *final(self) == (Metrics { wx_pages_tracked: usize_gauge(count), ..*old(self) }),
    {
        self.wx_pages_tracked = usize_to_i64(count);
    }

    pub fn record_identity_enrichment(&mut self, enrichment: &IdentityEnrichment)
        requires
            old(self).wf(),
        ensures
            final(self).wf(),
            *final(self) == (Metrics {
                identity_cache_lookups_total: final(self).identity_cache_lookups_total,
                identity_enrichments_total: final(self).identity_enrichments_total,
                identity_conflicts_total: final(self).identity_conflicts_total,
                ..*old(self)
            }),
            final(self).identity_cache_lookups_total@ == match enrichment.cache_result {
                Some(c) => old(self).identity_cache_lookups_total@.update(c.spec_index() as int, wrap_add(old(self).identity_cache_lookups_total@[c.spec_index() as int], 1)),
                None => old(self).identity_cache_lookups_total@,
            },
            final(self).identity_enrichments_total@ == match enrichment.confidence {
                Some(c) => old(self).identity_enrichments_total@.update(enrichment_index(c, enrichment.ambiguous) as int, wrap_add(old(self).identity_enrichments_total@[enrichment_index(c, enrichment.ambiguous) as int], 1)),
                None => old(self).identity_enrichments_total@,
            },
            final(self).identity_conflicts_total@ == match enrichment.conflict_reason {
                Some(c) => old(self).identity_conflicts_total@.update(c.spec_index() as int, wrap_add(old(self).identity_conflicts_total@[c.spec_index() as int], 1)),
                None => old(self).identity_conflicts_total@,
            },
    {
        match enrichment.cache_result {
            Some(c) => {
                let i = c.index();
                let v = wrapping_add_u64(self.identity_cache_lookups_total[i], 1);
                self.identity_cache_lookups_total.set(i, v);
            },
            None => {},
        }
        match enrichment.confidence {
            Some(c) => {
                let i = identity_confidence_index(c, enrichment.ambiguous);
                let v = wrapping_add_u64(self.identity_enrichments_total[i], 1);
                self.identity_enrichments_total.set(i, v);
            },
            None => {},
        }
        match enrichment.conflict_reason {
            Some(c) => {
                let i = c.index();
                let v = wrapping_add_u64(self.identity_conflicts_total[i], 1);
                self.identity_conflicts_total.set(i, v);
            },
            None => {},
        }
    }

    pub fn set_identity_inventory(&mut self, snapshot: &VmInventorySnapshot)
        requires
            old(self).wf(),
        ensures
            final(self).wf(),
            *final(self) == (Metrics {
                identity_inventory_vms: usize_gauge(snapshot.vm_count),
                identity_inventory_degraded: if snapshot.degraded { 1 } else { 0 },
                ..*old(self)
            }),
    {
        self.identity_inventory_vms = usize_to_i64(snapshot.vm_count);
        self.identity_inventory_degraded = if snapshot.degraded { 1 } else { 0 };
    }

    pub fn inc_identity_qmp_safety_refusal(&mut self, reason: IdentityQmpRefusalReason)
        requires
            old(self).wf(),
        ensures
            final(self).wf(),
            *final(self) == (Metrics {
                action_status: ComponentStatus::Degraded,
                identity_qmp_safety_refusals_total: final(self).identity_qmp_safety_refusals_total,
                ..*old(self)
            }),
            final(self).identity_qmp_safety_refusals_total@ == old(self).identity_qmp_safety_refusals_total@.update(
                reason.spec_index() as int,
                wrap_add(old(self).identity_qmp_safety_refusals_total@[reason.spec_index() as int], 1),
            ),
    {
        self.action_status = ComponentStatus::Degraded;
        let i = reason.index();
        let v = wrapping_add_u64(self.identity_qmp_safety_refusals_total[i], 1);
        self.identity_qmp_safety_refusals_total.set(i, v);
    }

    /// Records the queue depth (clamped to `0..=capacity`) and marks the queue
    /// degraded when it is full.
    pub fn set_queue_depth(&mut self, depth: i64, capacity: usize)
        requires
            old(self).wf(),
        ensures
            final(self).wf(),
            ({
                let cap = usize_gauge(capacity);
                let d = if depth < 0 { 0 } else if depth > cap { cap } else { depth };
                *final(self) == (Metrics {
                    queue_capacity: cap,
                    queue_depth: d,
                    queue_status: queue_status_for(d, cap),
                    ..*old(self)
                })
            }),
    {
        let cap = usize_to_i64(capacity);
        self.queue_capacity = cap;
        let d = if depth < 0 { 0 } else if depth > cap { cap } else { depth };
        self.queue_depth = d;
        self.queue_status = queue_status(d, cap);
    }

    pub fn record_queue_send_attempt(&mut self, capacity: usize)
        requires
            old(self).wf(),
        ensures
            final(self).wf(),
            ({
                let cap = usize_gauge(capacity);
                let up: int = if old(self).queue_depth == i64::MAX { i64::MAX as int } else { old(self).queue_depth + 1 };
                let d = if up > cap { cap } else { up as i64 };
                *final(self) == (Metrics {
                    queue_capacity: cap,
                    queue_depth: d,
                    queue_status: queue_status_for(d, cap),
                    ..*old(self)
                })
            }),
    {
        let cap = usize_to_i64(capacity);
        self.queue_capacity = cap;
        let up = if self.queue_depth == i64::MAX { i64::MAX } else { self.queue_depth + 1 };
        let d = if up > cap { cap } else { up };
        self.queue_depth = d;
        self.queue_status = queue_status(d, cap);
    }

    pub fn record_queue_receive(&mut self)
        requires
            old(self).wf(),
        ensures
            final(self).wf(),
            ({
                let down: int = if old(self).queue_depth == i64::MIN { i64::MIN as int } else { old(self).queue_depth - 1 };
                let d: i64 = if down < 0 { 0 } else { down as i64 };
                *final(self) == (Metrics {
                    queue_depth: d,
                    queue_status: queue_status_for(d, old(self).queue_capacity),
                    ..*old(self)
                })
            }),
    {
        let down = if self.queue_depth == i64::MIN { i64::MIN } else { self.queue_depth - 1 };
        let d = if down < 0 { 0 } else { down };
        self.queue_depth = d;
        self.queue_status = queue_status(d, self.queue_capacity);
    }

    pub fn record_queue_send_rejected(&mut self)
        requires
            old(self).wf(),
        ensures
            final(self).wf(),
            ({
                let down: int = if old(self).queue_depth == i64::MIN { i64::MIN as int } else { old(self).queue_depth - 1 };
                let d: i64 = if down < 0 { 0 } else { down as i64 };
                *final(self) == (Metrics {
                    queue_depth: d,
                    queue_status: queue_status_for(d, old(self).queue_capacity),
                    ..*old(self)
                })
            }),
    {
        self.record_queue_receive();
    }

    pub fn record_queue_full(&mut self, capacity: usize)
        requires
            old(self).wf(),
        ensures
            final(self).wf(),
            *final(self) == (Metrics {
                queue_capacity: usize_gauge(capacity),
                queue_depth: usize_gauge(capacity),
                queue_status: ComponentStatus::Degraded,
                ..*old(self)
            }),
    {
        let cap = usize_to_i64(capacity);
        self.queue_capacity = cap;
        self.queue_depth = cap;
        self.queue_status = ComponentStatus::Degraded;
    }

    pub fn queue_depth(&self) -> (r: i64)
        ensures
            r == self.queue_depth,
    {
        self.queue_depth
    }

    pub fn queue_capacity(&self) -> (r: i64)
        ensures
            r == self.queue_capacity,
    {
        self.queue_capacity
    }

    /// Adds one latency observation in milliseconds, already rounded.
    pub fn observe_action_latency_ms(&mut self, ms: u64)
        requires
            old(self).wf(),
        ensures
            final(self).wf(),
            *final(self) == (Metrics {
                action_latency_sum_ms: wrap_add(old(self).action_latency_sum_ms, ms),
                action_latency_count: wrap_add(old(self).action_latency_count, 1),
                ..*old(self)
            }),
    {
        self.action_latency_sum_ms = wrapping_add_u64(self.action_latency_sum_ms, ms);
        self.action_latency_count = wrapping_add_u64(self.action_latency_count, 1);
    }

    /// Adds one QMP latency observation in milliseconds, already rounded.
    pub fn observe_qmp_latency_ms(&mut self, ms: u64)
        requires
            old(self).wf(),
        ensures
            final(self).wf(),
            *final(self) == (Metrics {
                qmp_latency_sum_ms: wrap_add(old(self).qmp_latency_sum_ms, ms),
                qmp_latency_count: wrap_add(old(self).qmp_latency_count, 1),
                ..*old(self)
            }),
    {
        self.qmp_latency_sum_ms = wrapping_add_u64(self.qmp_latency_sum_ms, ms);
        self.qmp_latency_count = wrapping_add_u64(self.qmp_latency_count, 1);
    }

    /// Adds one parse latency observation in microseconds, already rounded.
    pub fn observe_parse_latency_us(&mut self, us: u64)
        requires
            old(self).wf(),
        ensures
            final(self).wf(),
            *final(self) == (Metrics {
                parse_latency_sum_us: wrap_add(old(self).parse_latency_sum_us, us),
                parse_latency_count: wrap_add(old(self).parse_latency_count, 1),
                ..*old(self)
            }),
    {
        self.parse_latency_sum_us = wrapping_add_u64(self.parse_latency_sum_us, us);
        self.parse_latency_count = wrapping_add_u64(self.parse_latency_count, 1);
    }

    /// The components' statuses.
    pub open spec fn components_of(&self) -> HealthComponents {
        HealthComponents {
            runtime: self.runtime_status,
            collector: self.collector_status,
            metrics_listener: self.metrics_listener_status,
            output: self.output_status,
            policy: self.policy_status,
            pmu: self.pmu_status,
            queue: self.queue_status,
            actions: self.action_status,
        }
    }

    pub fn health_snapshot(&self) -> (r: HealthSnapshot)
        ensures
            r.components == self.components_of(),
            r.status@ == overall_status(self.components_of()),
            r.healthy == is_healthy(self.components_of()),
            r.ready == is_ready(self.components_of()),
    {
        let c = HealthComponents {
            runtime: self.runtime_status,
            collector: self.collector_status,
            metrics_listener: self.metrics_listener_status,
            output: self.output_status,
            policy: self.policy_status,
            pmu: self.pmu_status,
            queue: self.queue_status,
            actions: self.action_status,
        };
        let failed = has_status(&c, ComponentStatus::Failed);
        let degraded = has_status(&c, ComponentStatus::Degraded);
        let starting = has_status(&c, ComponentStatus::Starting);
        let status = if failed {
            "failed"
        } else if c.runtime == ComponentStatus::Stopping {
            "stopping"
        } else if c.runtime == ComponentStatus::Stopped {
            "stopped"
        } else if starting {
            "starting"
        } else if degraded {
            "degraded"
        } else {
            "ok"
        };
        let healthy = !failed && !(c.runtime == ComponentStatus::Stopping || c.runtime == ComponentStatus::Stopped);
        let ready = c.runtime == ComponentStatus::Running && c.collector == ComponentStatus::Running
            && c.output == ComponentStatus::Nominal && c.policy == ComponentStatus::Nominal && c.queue
            == ComponentStatus::Nominal && c.actions == ComponentStatus::Nominal && c.metrics_listener.is_ready_ok()
            && c.pmu.is_ready_ok() && !degraded && !failed;
        HealthSnapshot { status, healthy, ready, components: c }
    }

    pub fn is_healthy(&self) -> (r: bool)
        ensures
            r == is_healthy(self.components_of()),
    {
        self.health_snapshot().healthy
    }
}

/// Some component of `c` has status `s`.
pub fn has_status(c: &HealthComponents, s: ComponentStatus) -> (r: bool)
    ensures
        r == any_status(*c, s),
{
    let r = c.runtime == s || c.collector == s || c.metrics_listener == s || c.output == s
        || c.policy == s || c.pmu == s || c.queue == s || c.actions == s;
    proof {
        if r {
            if c.runtime == s { assert(c.statuses()[0] == s); }
            else if c.collector == s { assert(c.statuses()[1] == s); }
            else if c.metrics_listener == s { assert(c.statuses()[2] == s); }
            else if c.output == s { assert(c.statuses()[3] == s); }
            else if c.policy == s { assert(c.statuses()[4] == s); }
            else if c.pmu == s { assert(c.statuses()[5] == s); }
            else if c.queue == s { assert(c.statuses()[6] == s); }
            else { assert(c.statuses()[7] == s); }
        }
    }
    r
}

/// A `usize` as an `i64` gauge, saturated at `i64::MAX`.
pub open spec fn usize_gauge(v: usize) -> i64 {
    if v > i64::MAX {
        i64::MAX
    } else {
        v as i64
    }
}

fn usize_to_i64(v: usize) -> (r: i64)
    ensures
        r == usize_gauge(v),
{
    if v as u64 > 0x7fff_ffff_ffff_ffffu64 {
        0x7fff_ffff_ffff_ffffi64
    } else {
        v as i64
    }
}

/// The queue is degraded when full, ok otherwise.
pub open spec fn queue_status_for(depth: i64, capacity: i64) -> ComponentStatus {
    if capacity > 0 && depth >= capacity {
        ComponentStatus::Degraded
    } else {
        ComponentStatus::Nominal
    }
}

fn queue_status(depth: i64, capacity: i64) -> (r: ComponentStatus)
    ensures
        r == queue_status_for(depth, capacity),
{
    if capacity > 0 && depth >= capacity {
        ComponentStatus::Degraded
    } else {
        ComponentStatus::Nominal
    }
}

/// Slot of an enrichment counter: the confidence rank, plus three when ambiguous.
pub open spec fn enrichment_index(confidence: IdentityConfidence, ambiguous: bool) -> usize {
    let base: usize = match confidence {
        IdentityConfidence::Low => 0,
        IdentityConfidence::Medium => 1,
        IdentityConfidence::High => 2,
    };
    if ambiguous {
        (base + 3) as usize
    } else {
        base
    }
}

pub fn identity_confidence_index(confidence: IdentityConfidence, ambiguous: bool) -> (r: usize)
    ensures
        r == enrichment_index(confidence, ambiguous),
        r < 6,
{
    let base: usize = match confidence {
        IdentityConfidence::Low => 0,
        IdentityConfidence::Medium => 1,
        IdentityConfidence::High => 2,
    };
    if ambiguous {
        base + 3
    } else {
        base
    }
}

/// A Prometheus label value with backslash, double quote and newline escaped.
pub open spec fn esc_label_text(s: Seq<char>) -> Seq<char>
    decreases s.len(),
{
    if s.len() == 0 {
        Seq::empty()
    } else {
        let c = s.last();
        esc_label_text(s.drop_last()) + if c == '\\' {
            seq!['\\', '\\']
        } else if c == '"' {
            seq!['\\', '"']
        } else if c == '\n' {
            seq!['\\', 'n']
        } else {
            seq![c]
        }
    }
}

pub fn esc_label(s: &str) -> (r: String)
    ensures
        r@ == esc_label_text(s@),
{
    let v = crate::text::to_chars(s);
    let mut out = String::new();
    let mut i: usize = 0;
    while i < v.len()
        invariant
            v@ == s@,
            i <= v@.len(),
            out@ == esc_label_text(v@.take(i as int)),
        decreases v@.len() - i,
    {
        let c = v[i];
        proof {
            assert(v@.take(i as int + 1).drop_last() =~= v@.take(i as int));
            assert(v@.take(i as int + 1).last() == c);
        }
        let ghost before = out@;
        if c == '\\' {
            crate::text::push_char(&mut out, '\\');
            crate::text::push_char(&mut out, '\\');
            assert(out@ =~= before + seq!['\\', '\\']);
        } else if c == '"' {
            crate::text::push_char(&mut out, '\\');
            crate::text::push_char(&mut out, '"');
            assert(out@ =~= before + seq!['\\', '"']);
        } else if c == '\n' {
            crate::text::push_char(&mut out, '\\');
            crate::text::push_char(&mut out, 'n');
            assert(out@ =~= before + seq!['\\', 'n']);
        } else {
            crate::text::push_char(&mut out, c);
            assert(out@ =~= before + seq![c]);
        }
        i = i + 1;
    }
    assert(v@.take(v@.len() as int) =~= v@);
    out
}

/// The exposition lines of a counter.
pub open spec fn counter_text(name: Seq<char>, value: u64) -> Seq<char> {
    "# TYPE "@ + name + " counter\n"@ + name + " "@ + dec(value as nat) + "\n"@
}

pub fn counter(out: &mut String, name: &str, value: u64)
    ensures
        final(out)@ == old(out)@ + counter_text(name@, value),
{
    push_str(out, "# TYPE ");
    push_str(out, name);
    push_str(out, " counter\n");
    push_str(out, name);
    push_str(out, " ");
    let d = u64_to_dec(value);
    push_str(out, d.as_str());
    push_str(out, "\n");
}

/// The exposition lines of a gauge whose value is already rendered.
pub open spec fn gauge_text(name: Seq<char>, value: Seq<char>) -> Seq<char> {
    "# TYPE "@ + name + " gauge\n"@ + name + " "@ + value + "\n"@
}

pub fn gauge(out: &mut String, name: &str, value: &str)
    ensures
        final(out)@ == old(out)@ + gauge_text(name@, value@),
{
    push_str(out, "# TYPE ");
    push_str(out, name);
    push_str(out, " gauge\n");
    push_str(out, name);
    push_str(out, " ");
    push_str(out, value);
    push_str(out, "\n");
}

/// An integer gauge value in the six-decimal format of the exposition.
pub open spec fn int_gauge_value(v: i64) -> Seq<char> {
    dec_int(v as int) + ".000000"@
}

pub fn int_gauge_text(v: i64) -> (r: String)
    ensures
        r@ == int_gauge_value(v),
{
    let mut s = i64_to_dec(v);
    push_str(&mut s, ".000000");
    s
}

} // verus!
