//! The sensor event record and its JSON encoding.
use vstd::prelude::*;
use crate::text::{
    array_of, bool_text, bool_to_text, dec, dec_int, eq_lit, i64_to_dec, json_array, json_object,
    json_opt_i32, json_opt_i32_spec, json_opt_string, json_opt_string_spec, json_opt_u64,
    json_opt_u64_spec, json_quote, json_str, kv, kv_field, null_json, null_text, object_of, owned,
    quote_all, quoted_all, to_ascii_lower, u128_to_dec, u64_to_dec, views, ascii_lower,
};

verus! {

/// Event severity, ordered from `Info` (lowest) to `Critical` (highest).
#[derive(Debug, Clone, Copy, PartialEq, Eq, Structural)]
pub enum Severity {
    Info,
    Low,
    Medium,
    High,
    Critical,
}

impl Severity {
    /// Position in the severity order.
    pub open spec fn spec_rank(self) -> u8 {
        match self {
            Severity::Info => 0,
            Severity::Low => 1,
            Severity::Medium => 2,
            Severity::High => 3,
            Severity::Critical => 4,
        }
    }

    /// Lowercase label.
    pub open spec fn name(self) -> Seq<char> {
        match self {
            Severity::Info => "info"@,
            Severity::Low => "low"@,
            Severity::Medium => "medium"@,
            Severity::High => "high"@,
            Severity::Critical => "critical"@,
        }
    }

    pub fn as_str(self) -> (r: &'static str)
        ensures
            r@ == self.name(),
    {
        match self {
            Severity::Info => "info",
            Severity::Low => "low",
            Severity::Medium => "medium",
            Severity::High => "high",
            Severity::Critical => "critical",
        }
    }

    pub fn at_least(self, other: Severity) -> (r: bool)
        ensures
            r == (self.spec_rank() >= other.spec_rank()),
    {
        self.rank() >= other.rank()
    }

    pub fn rank(self) -> (r: u8)
        ensures
            r == self.spec_rank(),
    {
        match self {
            Severity::Info => 0,
            Severity::Low => 1,
            Severity::Medium => 2,
            Severity::High => 3,
            Severity::Critical => 4,
        }
    }
}

/// Event category.
#[derive(Debug, Clone, Copy, PartialEq, Eq, Structural)]
pub enum Category {
    Exit,
    Wx,
    Pmu,
    Policy,
    Snapshot,
    Sensor,
}

impl Category {
    pub open spec fn name(self) -> Seq<char> {
        match self {
            Category::Exit => "exit"@,
            Category::Wx => "wx"@,
            Category::Pmu => "pmu"@,
            Category::Policy => "policy"@,
            Category::Snapshot => "snapshot"@,
            Category::Sensor => "sensor"@,
        }
    }

    pub fn as_str(self) -> (r: &'static str)
        ensures
            r@ == self.name(),
    {
        match self {
            Category::Exit => "exit",
            Category::Wx => "wx",
            Category::Pmu => "pmu",
            Category::Policy => "policy",
            Category::Snapshot => "snapshot",
            Category::Sensor => "sensor",
        }
    }
}

#[derive(Debug, Clone, PartialEq, Eq)]
pub struct AddrInfo {
    pub rip: Option<String>,
    pub gva: Option<String>,
    pub gpa: Option<String>,
    pub qual: Option<String>,
}

#[derive(Debug, Clone, Copy, PartialEq, Eq, Structural)]
pub struct ViolationBits {
    pub read: bool,
    pub write: bool,
    pub execute: bool,
}

/// W^X correlation details. `confidence` holds the decimal text of the
/// correlation confidence (a number in `[0, 1]`) exactly as it is emitted.
#[derive(Debug, Clone, PartialEq, Eq)]
pub struct WxInfo {
    pub writer_rip: Option<String>,
    pub executor_rip: Option<String>,
    pub delta_ms: u64,
    pub page_size: Option<u64>,
    pub confidence: String,
}

#[derive(Debug, Clone, PartialEq, Eq)]
pub struct PmuInfo {
    pub pid: i32,
    pub tid: i32,
    pub thread: String,
    pub cycles_delta: Option<u64>,
    pub instr_delta: Option<u64>,
    pub cache_ref_delta: Option<u64>,
    pub cache_miss_delta: Option<u64>,
    pub branch_delta: Option<u64>,
    pub branch_miss_delta: Option<u64>,
    pub sample_ms: u64,
    pub source: String,
    pub grouped: bool,
}

#[derive(Debug, Clone, PartialEq, Eq)]
pub struct TrapInfo {
    pub trap_id: String,
    pub trap_kind: String,
    pub backend: String,
    pub page: String,
    pub permissions_before: Option<ViolationBits>,
    pub permissions_after: Option<ViolationBits>,
    pub decision: String,
    pub invalidation_status: String,
}

#[derive(Debug, Clone, PartialEq, Eq)]
pub struct ActionInfo {
    pub rule: Option<String>,
    pub kind: String,
    pub ok: bool,
    pub status: String,
    pub decision: String,
    pub result: String,
    pub detail: Option<String>,
    pub latency_ms: Option<u64>,
    pub target_vm_id: Option<String>,
    pub attempt: u32,
    pub max_attempts: u32,
    pub retry_count: u32,
    pub timeout_ms: u64,
    pub timed_out: bool,
    pub refused: bool,
    pub failure_class: Option<String>,
}

/// Confidence in a VM identity, ordered `Low < Medium < High`.
#[derive(Debug, Clone, Copy, PartialEq, Eq, Structural)]
pub enum IdentityConfidence {
    Low,
    Medium,
    High,
}

impl IdentityConfidence {
    pub open spec fn name(self) -> Seq<char> {
        match self {
            IdentityConfidence::Low => "low"@,
            IdentityConfidence::Medium => "medium"@,
            IdentityConfidence::High => "high"@,
        }
    }

    pub open spec fn spec_rank(self) -> u8 {
        match self {
            IdentityConfidence::Low => 0,
            IdentityConfidence::Medium => 1,
            IdentityConfidence::High => 2,
        }
    }

    pub fn as_str(self) -> (r: &'static str)
        ensures
            r@ == self.name(),
    {
        match self {
            IdentityConfidence::Low => "low",
            IdentityConfidence::Medium => "medium",
            IdentityConfidence::High => "high",
        }
    }

    /// The higher of the two confidences.
    pub fn max(self, other: Self) -> (r: Self)
        ensures
            r.spec_rank() >= self.spec_rank(),
            r.spec_rank() >= other.spec_rank(),
            r == self || r == other,
            (self.spec_rank() >= other.spec_rank()) ==> r == self,
    {
        if self.rank() >= other.rank() {
            self
        } else {
            other
        }
    }

    /// `self` is at least `required`.
    pub fn meets(self, required: Self) -> (r: bool)
        ensures
            r == (self.spec_rank() >= required.spec_rank()),
    {
        self.rank() >= required.rank()
    }

    pub fn rank(self) -> (r: u8)
        ensures
            r == self.spec_rank(),
    {
        match self {
            IdentityConfidence::Low => 0,
            IdentityConfidence::Medium => 1,
            IdentityConfidence::High => 2,
        }
    }

    /// The default confidence is `Low`.
    pub fn default_low() -> (r: Self)
        ensures
            r == IdentityConfidence::Low,
    {
        IdentityConfidence::Low
    }
}

impl Default for IdentityConfidence {
    fn default() -> (r: Self)
        ensures
            r == IdentityConfidence::Low,
    {
        IdentityConfidence::Low
    }
}

#[derive(Debug, Clone, PartialEq, Eq)]
pub struct IdentityInfo {
    pub sources: Vec<String>,
    pub confidence: IdentityConfidence,
    pub start_time_verified: bool,
    pub ambiguous: bool,
}

#[derive(Debug, Clone, PartialEq, Eq)]
pub struct LossInfo {
    pub dropped_since_last_event: u64,
    pub dropped_total: u64,
    pub reason: String,
    pub range_kind: LossRangeKind,
    pub sequence_gap_start: Option<u64>,
    pub sequence_gap_end: Option<u64>,
}

/// How a loss report describes the lost events.
#[derive(Debug, Clone, Copy, PartialEq, Eq, Structural)]
pub enum LossRangeKind {
    AggregateCounter,
    SequenceGap,
    AggregateCounterAndSequenceGap,
}

impl LossRangeKind {
    pub open spec fn name(self) -> Seq<char> {
        match self {
            LossRangeKind::AggregateCounter => "aggregate_counter"@,
            LossRangeKind::SequenceGap => "sequence_gap"@,
            LossRangeKind::AggregateCounterAndSequenceGap => "aggregate_counter_and_sequence_gap"@,
        }
    }

    pub fn as_str(self) -> (r: &'static str)
        ensures
            r@ == self.name(),
    {
        match self {
            LossRangeKind::AggregateCounter => "aggregate_counter",
            LossRangeKind::SequenceGap => "sequence_gap",
            LossRangeKind::AggregateCounterAndSequenceGap => "aggregate_counter_and_sequence_gap",
        }
    }
}

/// The range kind of a loss report: which of the two loss signals are present.
pub open spec fn loss_range_kind(dropped_since_last_event: u64, has_gap: bool) -> LossRangeKind {
    if dropped_since_last_event > 0 && has_gap {
        LossRangeKind::AggregateCounterAndSequenceGap
    } else if has_gap {
        LossRangeKind::SequenceGap
    } else {
        LossRangeKind::AggregateCounter
    }
}

/// Values that the runtime assigns to every event when it is created: the
/// monotonic clock reading, the next sequence number, the event id and the
/// host/sensor/tenant identifiers.
#[derive(Debug, Clone, PartialEq, Eq)]
pub struct EventStamp {
    pub monotonic_ms: u128,
    pub sequence: u64,
    pub event_id: String,
    pub host_id: Option<String>,
    pub sensor_id: Option<String>,
    pub tenant_id: Option<String>,
}

#[derive(Debug, Clone, PartialEq, Eq)]
pub struct Event {
    pub version: u32,
    pub schema_version: u32,
    pub ts: String,
    pub monotonic_ms: u128,
    pub sequence: u64,
    pub event_id: String,
    pub host_id: Option<String>,
    pub sensor_id: Option<String>,
    pub category: Category,
    pub severity: Severity,
    pub vm: String,
    pub vm_id: Option<String>,
    pub vm_name: Option<String>,
    pub tenant_id: Option<String>,
    pub raw_comm: Option<String>,
    pub host_pid: Option<i32>,
    pub host_tid: Option<i32>,
    pub host_start_time_ticks: Option<u64>,
    pub identity: Option<IdentityInfo>,
    /// Linux trace header CPU, e.g. `[001]`. This is not a guest vCPU id.
    pub host_cpu: Option<i32>,
    /// Guest vCPU id when the tracepoint exposes one. Kept separate from host_cpu.
    pub vcpu_id: Option<i32>,
    /// Backward-compatible alias for `vcpu_id`; never populated from trace header CPU.
    pub vcpu: Option<i32>,
    pub arch: Option<String>,
    pub cr3: Option<String>,
    pub asid: Option<String>,
    pub vmid: Option<String>,
    pub vpid: Option<String>,
    pub privilege_level: Option<String>,
    pub guest_os: Option<String>,
    pub guest_process: Option<String>,
    pub guest_thread: Option<String>,
    pub guest_module: Option<String>,
    pub guest_symbol: Option<String>,
    pub reason: Option<String>,
    pub trap_type: Option<String>,
    pub message: Option<String>,
    pub tags: Vec<String>,
    pub correlation_id: Option<String>,
    pub rule_id: Option<String>,
    pub decision: Option<String>,
    pub action_id: Option<String>,
    pub action_status: Option<String>,
    pub data_loss: bool,
    pub loss: Option<LossInfo>,
    pub addr: Option<AddrInfo>,
    pub violation: Option<ViolationBits>,
    pub page_permissions_before: Option<ViolationBits>,
    pub page_permissions_after: Option<ViolationBits>,
    pub wx: Option<WxInfo>,
    pub trap: Option<TrapInfo>,
    pub pmu: Option<PmuInfo>,
    pub action: Option<ActionInfo>,
}

/// The JSON object of an event, with its members in emission order.
pub open spec fn event_json(e: Event) -> Seq<char> {
    json_object(seq![
        kv("version"@, dec(e.version as nat)),
        kv("schema_version"@, dec(e.schema_version as nat)),
        kv("ts"@, json_quote(e.ts@)),
        kv("monotonic_ms"@, dec(e.monotonic_ms as nat)),
        kv("sequence"@, dec(e.sequence as nat)),
        kv("event_id"@, json_quote(e.event_id@)),
        kv("host_id"@, json_opt_string_spec(e.host_id)),
        kv("sensor_id"@, json_opt_string_spec(e.sensor_id)),
        kv("category"@, json_quote(e.category.name())),
        kv("severity"@, json_quote(e.severity.name())),
        kv("vm"@, json_quote(e.vm@)),
        kv("vm_id"@, json_opt_string_spec(e.vm_id)),
        kv("vm_name"@, json_opt_string_spec(e.vm_name)),
        kv("tenant_id"@, json_opt_string_spec(e.tenant_id)),
        kv("raw_comm"@, json_opt_string_spec(e.raw_comm)),
        kv("host_pid"@, json_opt_i32_spec(e.host_pid)),
        kv("host_tid"@, json_opt_i32_spec(e.host_tid)),
        kv("host_start_time_ticks"@, json_opt_u64_spec(e.host_start_time_ticks)),
        kv("identity"@, identity_json_spec(e.identity)),
        kv("host_cpu"@, json_opt_i32_spec(e.host_cpu)),
        kv("vcpu_id"@, json_opt_i32_spec(e.vcpu_id)),
        kv("vcpu"@, json_opt_i32_spec(e.vcpu)),
        kv("arch"@, json_opt_string_spec(e.arch)),
        kv("cr3"@, json_opt_string_spec(e.cr3)),
        kv("asid"@, json_opt_string_spec(e.asid)),
        kv("vmid"@, json_opt_string_spec(e.vmid)),
        kv("vpid"@, json_opt_string_spec(e.vpid)),
        kv("privilege_level"@, json_opt_string_spec(e.privilege_level)),
        kv("guest_os"@, json_opt_string_spec(e.guest_os)),
        kv("guest_process"@, json_opt_string_spec(e.guest_process)),
        kv("guest_thread"@, json_opt_string_spec(e.guest_thread)),
        kv("guest_module"@, json_opt_string_spec(e.guest_module)),
        kv("guest_symbol"@, json_opt_string_spec(e.guest_symbol)),
        kv("reason"@, json_opt_string_spec(e.reason)),
        kv("trap_type"@, json_opt_string_spec(e.trap_type)),
        kv("message"@, json_opt_string_spec(e.message)),
        kv("tags"@, json_array(quoted_all(e.tags@))),
        kv("correlation_id"@, json_opt_string_spec(e.correlation_id)),
        kv("rule_id"@, json_opt_string_spec(e.rule_id)),
        kv("decision"@, json_opt_string_spec(e.decision)),
        kv("action_id"@, json_opt_string_spec(e.action_id)),
        kv("action_status"@, json_opt_string_spec(e.action_status)),
        kv("data_loss"@, bool_text(e.data_loss)),
        kv("loss"@, loss_json_spec(e.loss)),
        kv("addr"@, addr_json_spec(e.addr)),
        kv("violation"@, bits_json_spec(e.violation)),
        kv("page_permissions_before"@, bits_json_spec(e.page_permissions_before)),
        kv("page_permissions_after"@, bits_json_spec(e.page_permissions_after)),
        kv("wx"@, wx_json_spec(e.wx)),
        kv("trap"@, trap_json_spec(e.trap)),
        kv("pmu"@, pmu_json_spec(e.pmu)),
        kv("action"@, action_json_spec(e.action)),
    ])
}

impl Event {
    /// A fresh event of the given category and severity: schema version 2,
    /// stamped with `stamp`, and with every optional field empty.
    pub fn base(category: Category, severity: Severity, ts: String, vm: String, stamp: EventStamp) -> (e: Self)
        ensures
            e.version == 1,
            e.schema_version == 2,
            e.category == category,
            e.severity == severity,
            e.ts == ts,
            e.vm == vm,
            e.monotonic_ms == stamp.monotonic_ms,
            e.sequence == stamp.sequence,
            e.event_id == stamp.event_id,
            e.host_id == stamp.host_id,
            e.sensor_id == stamp.sensor_id,
            e.tenant_id == stamp.tenant_id,
            e.is_blank(),
    {
        Event {
            version: 1,
            schema_version: 2,
            ts,
            monotonic_ms: stamp.monotonic_ms,
            sequence: stamp.sequence,
            event_id: stamp.event_id,
            host_id: stamp.host_id,
            sensor_id: stamp.sensor_id,
            category,
            severity,
            vm,
            vm_id: None,
            vm_name: None,
            tenant_id: stamp.tenant_id,
            raw_comm: None,
            host_pid: None,
            host_tid: None,
            host_start_time_ticks: None,
            identity: None,
            host_cpu: None,
            vcpu_id: None,
            vcpu: None,
            arch: None,
            cr3: None,
            asid: None,
            vmid: None,
            vpid: None,
            privilege_level: None,
            guest_os: None,
            guest_process: None,
            guest_thread: None,
            guest_module: None,
            guest_symbol: None,
            reason: None,
            trap_type: None,
            message: None,
            tags: Vec::new(),
            correlation_id: None,
            rule_id: None,
            decision: None,
            action_id: None,
            action_status: None,
            data_loss: false,
            loss: None,
            addr: None,
            violation: None,
            page_permissions_before: None,
            page_permissions_after: None,
            wx: None,
            trap: None,
            pmu: None,
            action: None,
        }
    }

    /// Every optional field is empty, there are no tags and no data loss.
    pub open spec fn is_blank(self) -> bool {
        &&& self.vm_id is None
        &&& self.vm_name is None
        &&& self.raw_comm is None
        &&& self.host_pid is None
        &&& self.host_tid is None
        &&& self.host_start_time_ticks is None
        &&& self.identity is None
        &&& self.host_cpu is None
        &&& self.vcpu_id is None
        &&& self.vcpu is None
        &&& self.arch is None
        &&& self.cr3 is None
        &&& self.asid is None
        &&& self.vmid is None
        &&& self.vpid is None
        &&& self.privilege_level is None
        &&& self.guest_os is None
        &&& self.guest_process is None
        &&& self.guest_thread is None
        &&& self.guest_module is None
        &&& self.guest_symbol is None
        &&& self.reason is None
        &&& self.trap_type is None
        &&& self.message is None
        &&& self.tags@.len() == 0
        &&& self.correlation_id is None
        &&& self.rule_id is None
        &&& self.decision is None
        &&& self.action_id is None
        &&& self.action_status is None
        &&& !self.data_loss
        &&& self.loss is None
        &&& self.addr is None
        &&& self.violation is None
        &&& self.page_permissions_before is None
        &&& self.page_permissions_after is None
        &&& self.wx is None
        &&& self.trap is None
        &&& self.pmu is None
        &&& self.action is None
    }

    /// Records an aggregate loss counter on the event (no sequence range).
    pub fn with_loss(&mut self, dropped_since_last_event: u64, dropped_total: u64, reason: &str)
        ensures
            final(self).loss_reported(*old(self), dropped_since_last_event, dropped_total, reason@, None),
    {
        self.with_loss_report(dropped_since_last_event, dropped_total, reason, None);
    }

    /// `self` is `before` with the loss report applied: when anything was
    /// dropped or a sequence gap is known the event is marked as lossy and
    /// carries the report, otherwise it is unchanged.
    pub open spec fn loss_reported(
        self,
        before: Event,
        dropped: u64,
        total: u64,
        reason: Seq<char>,
        gap: Option<(u64, u64)>,
    ) -> bool {
        if dropped > 0 || gap is Some {
            &&& self.data_loss
            &&& self.loss matches Some(l) && l.dropped_since_last_event == dropped
                && l.dropped_total == total && l.reason@ == reason
                && l.range_kind == loss_range_kind(dropped, gap is Some)
                && l.sequence_gap_start == (match gap {
                    Some(g) => Some(g.0),
                    None => None::<u64>,
                }) && l.sequence_gap_end == (match gap {
                    Some(g) => Some(g.1),
                    None => None::<u64>,
                })
            &&& self == (Event { data_loss: true, loss: self.loss, ..before })
        } else {
            self == before
        }
    }

    /// Records a loss report: dropped events since the last emitted event,
    /// the running total, and optionally the exact sequence gap.
    pub fn with_loss_report(
        &mut self,
        dropped_since_last_event: u64,
        dropped_total: u64,
        reason: &str,
        sequence_gap: Option<(u64, u64)>,
    )
        ensures
            final(self).loss_reported(*old(self), dropped_since_last_event, dropped_total, reason@, sequence_gap),
    {
        if dropped_since_last_event > 0 || sequence_gap.is_some() {
            let range_kind = if dropped_since_last_event > 0 && sequence_gap.is_some() {
                LossRangeKind::AggregateCounterAndSequenceGap
            } else if dropped_since_last_event > 0 {
                LossRangeKind::AggregateCounter
            } else {
                LossRangeKind::SequenceGap
            };
            self.data_loss = true;
            self.loss = Some(
                LossInfo {
                    dropped_since_last_event,
                    dropped_total,
                    reason: owned(reason),
                    range_kind,
                    sequence_gap_start: match sequence_gap {
                        Some(g) => Some(g.0),
                        None => None,
                    },
                    sequence_gap_end: match sequence_gap {
                        Some(g) => Some(g.1),
                        None => None,
                    },
                },
            );
        }
    }

    /// The JSON encoding of the event.
    pub fn to_json(&self) -> (r: String)
        ensures
            r@ == event_json(*self),
    {
        let mut parts: Vec<String> = Vec::new();
        parts.push(kv_field("version", u64_to_dec(self.version as u64).as_str()));
        parts.push(kv_field("schema_version", u64_to_dec(self.schema_version as u64).as_str()));
        parts.push(kv_field("ts", json_str(self.ts.as_str()).as_str()));
        parts.push(kv_field("monotonic_ms", u128_to_dec(self.monotonic_ms).as_str()));
        parts.push(kv_field("sequence", u64_to_dec(self.sequence).as_str()));
        parts.push(kv_field("event_id", json_str(self.event_id.as_str()).as_str()));
        parts.push(kv_field("host_id", json_opt_string(&self.host_id).as_str()));
        parts.push(kv_field("sensor_id", json_opt_string(&self.sensor_id).as_str()));
        parts.push(kv_field("category", json_str(self.category.as_str()).as_str()));
        parts.push(kv_field("severity", json_str(self.severity.as_str()).as_str()));
        parts.push(kv_field("vm", json_str(self.vm.as_str()).as_str()));
        parts.push(kv_field("vm_id", json_opt_string(&self.vm_id).as_str()));
        parts.push(kv_field("vm_name", json_opt_string(&self.vm_name).as_str()));
        parts.push(kv_field("tenant_id", json_opt_string(&self.tenant_id).as_str()));
        parts.push(kv_field("raw_comm", json_opt_string(&self.raw_comm).as_str()));
        parts.push(kv_field("host_pid", json_opt_i32(self.host_pid).as_str()));
        parts.push(kv_field("host_tid", json_opt_i32(self.host_tid).as_str()));
        parts.push(kv_field("host_start_time_ticks", json_opt_u64(self.host_start_time_ticks).as_str()));
        parts.push(kv_field("identity", identity_json(&self.identity).as_str()));
        parts.push(kv_field("host_cpu", json_opt_i32(self.host_cpu).as_str()));
        parts.push(kv_field("vcpu_id", json_opt_i32(self.vcpu_id).as_str()));
        parts.push(kv_field("vcpu", json_opt_i32(self.vcpu).as_str()));
        parts.push(kv_field("arch", json_opt_string(&self.arch).as_str()));
        parts.push(kv_field("cr3", json_opt_string(&self.cr3).as_str()));
        parts.push(kv_field("asid", json_opt_string(&self.asid).as_str()));
        parts.push(kv_field("vmid", json_opt_string(&self.vmid).as_str()));
        parts.push(kv_field("vpid", json_opt_string(&self.vpid).as_str()));
        parts.push(kv_field("privilege_level", json_opt_string(&self.privilege_level).as_str()));
        parts.push(kv_field("guest_os", json_opt_string(&self.guest_os).as_str()));
        parts.push(kv_field("guest_process", json_opt_string(&self.guest_process).as_str()));
        parts.push(kv_field("guest_thread", json_opt_string(&self.guest_thread).as_str()));
        parts.push(kv_field("guest_module", json_opt_string(&self.guest_module).as_str()));
        parts.push(kv_field("guest_symbol", json_opt_string(&self.guest_symbol).as_str()));
        parts.push(kv_field("reason", json_opt_string(&self.reason).as_str()));
        parts.push(kv_field("trap_type", json_opt_string(&self.trap_type).as_str()));
        parts.push(kv_field("message", json_opt_string(&self.message).as_str()));
        parts.push(kv_field("tags", array_of(&quote_all(&self.tags)).as_str()));
        parts.push(kv_field("correlation_id", json_opt_string(&self.correlation_id).as_str()));
        parts.push(kv_field("rule_id", json_opt_string(&self.rule_id).as_str()));
        parts.push(kv_field("decision", json_opt_string(&self.decision).as_str()));
        parts.push(kv_field("action_id", json_opt_string(&self.action_id).as_str()));
        parts.push(kv_field("action_status", json_opt_string(&self.action_status).as_str()));
        parts.push(kv_field("data_loss", bool_to_text(self.data_loss).as_str()));
        parts.push(kv_field("loss", loss_json(&self.loss).as_str()));
        parts.push(kv_field("addr", addr_json(&self.addr).as_str()));
        parts.push(kv_field("violation", bits_json(self.violation).as_str()));
        parts.push(kv_field("page_permissions_before", bits_json(self.page_permissions_before).as_str()));
        parts.push(kv_field("page_permissions_after", bits_json(self.page_permissions_after).as_str()));
        parts.push(kv_field("wx", wx_json(&self.wx).as_str()));
        parts.push(kv_field("trap", trap_json(&self.trap).as_str()));
        parts.push(kv_field("pmu", pmu_json(&self.pmu).as_str()));
        parts.push(kv_field("action", action_json(&self.action).as_str()));
        let r = object_of(&parts);
        proof {
            assert(views(parts@) =~= seq![
            kv("version"@, dec(self.version as nat)),
            kv("schema_version"@, dec(self.schema_version as nat)),
            kv("ts"@, json_quote(self.ts@)),
            kv("monotonic_ms"@, dec(self.monotonic_ms as nat)),
            kv("sequence"@, dec(self.sequence as nat)),
            kv("event_id"@, json_quote(self.event_id@)),
            kv("host_id"@, json_opt_string_spec(self.host_id)),
            kv("sensor_id"@, json_opt_string_spec(self.sensor_id)),
            kv("category"@, json_quote(self.category.name())),
            kv("severity"@, json_quote(self.severity.name())),
            kv("vm"@, json_quote(self.vm@)),
            kv("vm_id"@, json_opt_string_spec(self.vm_id)),
            kv("vm_name"@, json_opt_string_spec(self.vm_name)),
            kv("tenant_id"@, json_opt_string_spec(self.tenant_id)),
            kv("raw_comm"@, json_opt_string_spec(self.raw_comm)),
            kv("host_pid"@, json_opt_i32_spec(self.host_pid)),
            kv("host_tid"@, json_opt_i32_spec(self.host_tid)),
            kv("host_start_time_ticks"@, json_opt_u64_spec(self.host_start_time_ticks)),
            kv("identity"@, identity_json_spec(self.identity)),
            kv("host_cpu"@, json_opt_i32_spec(self.host_cpu)),
            kv("vcpu_id"@, json_opt_i32_spec(self.vcpu_id)),
            kv("vcpu"@, json_opt_i32_spec(self.vcpu)),
            kv("arch"@, json_opt_string_spec(self.arch)),
            kv("cr3"@, json_opt_string_spec(self.cr3)),
            kv("asid"@, json_opt_string_spec(self.asid)),
            kv("vmid"@, json_opt_string_spec(self.vmid)),
            kv("vpid"@, json_opt_string_spec(self.vpid)),
            kv("privilege_level"@, json_opt_string_spec(self.privilege_level)),
            kv("guest_os"@, json_opt_string_spec(self.guest_os)),
            kv("guest_process"@, json_opt_string_spec(self.guest_process)),
            kv("guest_thread"@, json_opt_string_spec(self.guest_thread)),
            kv("guest_module"@, json_opt_string_spec(self.guest_module)),
            kv("guest_symbol"@, json_opt_string_spec(self.guest_symbol)),
            kv("reason"@, json_opt_string_spec(self.reason)),
            kv("trap_type"@, json_opt_string_spec(self.trap_type)),
            kv("message"@, json_opt_string_spec(self.message)),
            kv("tags"@, json_array(quoted_all(self.tags@))),
            kv("correlation_id"@, json_opt_string_spec(self.correlation_id)),
            kv("rule_id"@, json_opt_string_spec(self.rule_id)),
            kv("decision"@, json_opt_string_spec(self.decision)),
            kv("action_id"@, json_opt_string_spec(self.action_id)),
            kv("action_status"@, json_opt_string_spec(self.action_status)),
            kv("data_loss"@, bool_text(self.data_loss)),
            kv("loss"@, loss_json_spec(self.loss)),
            kv("addr"@, addr_json_spec(self.addr)),
            kv("violation"@, bits_json_spec(self.violation)),
            kv("page_permissions_before"@, bits_json_spec(self.page_permissions_before)),
            kv("page_permissions_after"@, bits_json_spec(self.page_permissions_after)),
            kv("wx"@, wx_json_spec(self.wx)),
            kv("trap"@, trap_json_spec(self.trap)),
            kv("pmu"@, pmu_json_spec(self.pmu)),
            kv("action"@, action_json_spec(self.action)),
        ]);
        }
        r
    }
}

/// JSON object for an optional [`IdentityInfo`], or `null`.
pub open spec fn identity_json_spec(o: Option<IdentityInfo>) -> Seq<char> {
    match o {
        Some(v) => json_object(seq![
            kv("sources"@, json_array(quoted_all(v.sources@))),
            kv("confidence"@, json_quote(v.confidence.name())),
            kv("start_time_verified"@, bool_text(v.start_time_verified)),
            kv("ambiguous"@, bool_text(v.ambiguous)),
        ]),
        None => null_text(),
    }
}

pub fn identity_json(o: &Option<IdentityInfo>) -> (r: String)
    ensures
        r@ == identity_json_spec(*o),
{
    match o {
        Some(v) => {
            let mut parts: Vec<String> = Vec::new();
            parts.push(kv_field("sources", array_of(&quote_all(&v.sources)).as_str()));
            parts.push(kv_field("confidence", json_str(v.confidence.as_str()).as_str()));
            parts.push(kv_field("start_time_verified", bool_to_text(v.start_time_verified).as_str()));
            parts.push(kv_field("ambiguous", bool_to_text(v.ambiguous).as_str()));
            let r = object_of(&parts);
            proof {
                assert(views(parts@) =~= seq![
            kv("sources"@, json_array(quoted_all(v.sources@))),
            kv("confidence"@, json_quote(v.confidence.name())),
            kv("start_time_verified"@, bool_text(v.start_time_verified)),
            kv("ambiguous"@, bool_text(v.ambiguous)),
        ]);
            }
            r
        },
        None => null_json(),
    }
}

/// JSON object for an optional [`AddrInfo`], or `null`.
pub open spec fn addr_json_spec(o: Option<AddrInfo>) -> Seq<char> {
    match o {
        Some(v) => json_object(seq![
            kv("rip"@, json_opt_string_spec(v.rip)),
            kv("gva"@, json_opt_string_spec(v.gva)),
            kv("gpa"@, json_opt_string_spec(v.gpa)),
            kv("qual"@, json_opt_string_spec(v.qual)),
        ]),
        None => null_text(),
    }
}

pub fn addr_json(o: &Option<AddrInfo>) -> (r: String)
    ensures
        r@ == addr_json_spec(*o),
{
    match o {
        Some(v) => {
            let mut parts: Vec<String> = Vec::new();
            parts.push(kv_field("rip", json_opt_string(&v.rip).as_str()));
            parts.push(kv_field("gva", json_opt_string(&v.gva).as_str()));
            parts.push(kv_field("gpa", json_opt_string(&v.gpa).as_str()));
            parts.push(kv_field("qual", json_opt_string(&v.qual).as_str()));
            let r = object_of(&parts);
            proof {
                assert(views(parts@) =~= seq![
            kv("rip"@, json_opt_string_spec(v.rip)),
            kv("gva"@, json_opt_string_spec(v.gva)),
            kv("gpa"@, json_opt_string_spec(v.gpa)),
            kv("qual"@, json_opt_string_spec(v.qual)),
        ]);
            }
            r
        },
        None => null_json(),
    }
}

/// JSON object for an optional [`ViolationBits`], or `null`.
pub open spec fn bits_json_spec(o: Option<ViolationBits>) -> Seq<char> {
    match o {
        Some(v) => json_object(seq![
            kv("read"@, bool_text(v.read)),
            kv("write"@, bool_text(v.write)),
            kv("exec"@, bool_text(v.execute)),
        ]),
        None => null_text(),
    }
}

pub fn bits_json(o: Option<ViolationBits>) -> (r: String)
    ensures
        r@ == bits_json_spec(o),
{
    match o {
        Some(v) => {
            let mut parts: Vec<String> = Vec::new();
            parts.push(kv_field("read", bool_to_text(v.read).as_str()));
            parts.push(kv_field("write", bool_to_text(v.write).as_str()));
            parts.push(kv_field("exec", bool_to_text(v.execute).as_str()));
            let r = object_of(&parts);
            proof {
                assert(views(parts@) =~= seq![
            kv("read"@, bool_text(v.read)),
            kv("write"@, bool_text(v.write)),
            kv("exec"@, bool_text(v.execute)),
        ]);
            }
            r
        },
        None => null_json(),
    }
}

/// JSON object for an optional [`WxInfo`], or `null`.
pub open spec fn wx_json_spec(o: Option<WxInfo>) -> Seq<char> {
    match o {
        Some(v) => json_object(seq![
            kv("writer_rip"@, json_opt_string_spec(v.writer_rip)),
            kv("executor_rip"@, json_opt_string_spec(v.executor_rip)),
            kv("delta_ms"@, dec(v.delta_ms as nat)),
            kv("page_size"@, json_opt_u64_spec(v.page_size)),
            kv("confidence"@, v.confidence@),
        ]),
        None => null_text(),
    }
}

pub fn wx_json(o: &Option<WxInfo>) -> (r: String)
    ensures
        r@ == wx_json_spec(*o),
{
    match o {
        Some(v) => {
            let mut parts: Vec<String> = Vec::new();
            parts.push(kv_field("writer_rip", json_opt_string(&v.writer_rip).as_str()));
            parts.push(kv_field("executor_rip", json_opt_string(&v.executor_rip).as_str()));
            parts.push(kv_field("delta_ms", u64_to_dec(v.delta_ms).as_str()));
            parts.push(kv_field("page_size", json_opt_u64(v.page_size).as_str()));
            parts.push(kv_field("confidence", owned(v.confidence.as_str()).as_str()));
            let r = object_of(&parts);
            proof {
                assert(views(parts@) =~= seq![
            kv("writer_rip"@, json_opt_string_spec(v.writer_rip)),
            kv("executor_rip"@, json_opt_string_spec(v.executor_rip)),
            kv("delta_ms"@, dec(v.delta_ms as nat)),
            kv("page_size"@, json_opt_u64_spec(v.page_size)),
            kv("confidence"@, v.confidence@),
        ]);
            }
            r
        },
        None => null_json(),
    }
}

/// JSON object for an optional [`TrapInfo`], or `null`.
pub open spec fn trap_json_spec(o: Option<TrapInfo>) -> Seq<char> {
    match o {
        Some(v) => json_object(seq![
            kv("trap_id"@, json_quote(v.trap_id@)),
            kv("trap_kind"@, json_quote(v.trap_kind@)),
            kv("backend"@, json_quote(v.backend@)),
            kv("page"@, json_quote(v.page@)),
            kv("permissions_before"@, bits_json_spec(v.permissions_before)),
            kv("permissions_after"@, bits_json_spec(v.permissions_after)),
            kv("decision"@, json_quote(v.decision@)),
            kv("invalidation_status"@, json_quote(v.invalidation_status@)),
        ]),
        None => null_text(),
    }
}

pub fn trap_json(o: &Option<TrapInfo>) -> (r: String)
    ensures
        r@ == trap_json_spec(*o),
{
    match o {
        Some(v) => {
            let mut parts: Vec<String> = Vec::new();
            parts.push(kv_field("trap_id", json_str(v.trap_id.as_str()).as_str()));
            parts.push(kv_field("trap_kind", json_str(v.trap_kind.as_str()).as_str()));
            parts.push(kv_field("backend", json_str(v.backend.as_str()).as_str()));
            parts.push(kv_field("page", json_str(v.page.as_str()).as_str()));
            parts.push(kv_field("permissions_before", bits_json(v.permissions_before).as_str()));
            parts.push(kv_field("permissions_after", bits_json(v.permissions_after).as_str()));
            parts.push(kv_field("decision", json_str(v.decision.as_str()).as_str()));
            parts.push(kv_field("invalidation_status", json_str(v.invalidation_status.as_str()).as_str()));
            let r = object_of(&parts);
            proof {
                assert(views(parts@) =~= seq![
            kv("trap_id"@, json_quote(v.trap_id@)),
            kv("trap_kind"@, json_quote(v.trap_kind@)),
            kv("backend"@, json_quote(v.backend@)),
            kv("page"@, json_quote(v.page@)),
            kv("permissions_before"@, bits_json_spec(v.permissions_before)),
            kv("permissions_after"@, bits_json_spec(v.permissions_after)),
            kv("decision"@, json_quote(v.decision@)),
            kv("invalidation_status"@, json_quote(v.invalidation_status@)),
        ]);
            }
            r
        },
        None => null_json(),
    }
}

/// JSON object for an optional [`PmuInfo`], or `null`.
pub open spec fn pmu_json_spec(o: Option<PmuInfo>) -> Seq<char> {
    match o {
        Some(v) => json_object(seq![
            kv("pid"@, dec_int(v.pid as int)),
            kv("tid"@, dec_int(v.tid as int)),
            kv("thread"@, json_quote(v.thread@)),
            kv("cycles_delta"@, json_opt_u64_spec(v.cycles_delta)),
            kv("instr_delta"@, json_opt_u64_spec(v.instr_delta)),
            kv("cache_ref_delta"@, json_opt_u64_spec(v.cache_ref_delta)),
            kv("cache_miss_delta"@, json_opt_u64_spec(v.cache_miss_delta)),
            kv("branch_delta"@, json_opt_u64_spec(v.branch_delta)),
            kv("branch_miss_delta"@, json_opt_u64_spec(v.branch_miss_delta)),
            kv("sample_ms"@, dec(v.sample_ms as nat)),
            kv("source"@, json_quote(v.source@)),
            kv("grouped"@, bool_text(v.grouped)),
        ]),
        None => null_text(),
    }
}

pub fn pmu_json(o: &Option<PmuInfo>) -> (r: String)
    ensures
        r@ == pmu_json_spec(*o),
{
    match o {
        Some(v) => {
            let mut parts: Vec<String> = Vec::new();
            parts.push(kv_field("pid", i64_to_dec(v.pid as i64).as_str()));
            parts.push(kv_field("tid", i64_to_dec(v.tid as i64).as_str()));
            parts.push(kv_field("thread", json_str(v.thread.as_str()).as_str()));
            parts.push(kv_field("cycles_delta", json_opt_u64(v.cycles_delta).as_str()));
            parts.push(kv_field("instr_delta", json_opt_u64(v.instr_delta).as_str()));
            parts.push(kv_field("cache_ref_delta", json_opt_u64(v.cache_ref_delta).as_str()));
            parts.push(kv_field("cache_miss_delta", json_opt_u64(v.cache_miss_delta).as_str()));
            parts.push(kv_field("branch_delta", json_opt_u64(v.branch_delta).as_str()));
            parts.push(kv_field("branch_miss_delta", json_opt_u64(v.branch_miss_delta).as_str()));
            parts.push(kv_field("sample_ms", u64_to_dec(v.sample_ms).as_str()));
            parts.push(kv_field("source", json_str(v.source.as_str()).as_str()));
            parts.push(kv_field("grouped", bool_to_text(v.grouped).as_str()));
            let r = object_of(&parts);
            proof {
                assert(views(parts@) =~= seq![
            kv("pid"@, dec_int(v.pid as int)),
            kv("tid"@, dec_int(v.tid as int)),
            kv("thread"@, json_quote(v.thread@)),
            kv("cycles_delta"@, json_opt_u64_spec(v.cycles_delta)),
            kv("instr_delta"@, json_opt_u64_spec(v.instr_delta)),
            kv("cache_ref_delta"@, json_opt_u64_spec(v.cache_ref_delta)),
            kv("cache_miss_delta"@, json_opt_u64_spec(v.cache_miss_delta)),
            kv("branch_delta"@, json_opt_u64_spec(v.branch_delta)),
            kv("branch_miss_delta"@, json_opt_u64_spec(v.branch_miss_delta)),
            kv("sample_ms"@, dec(v.sample_ms as nat)),
            kv("source"@, json_quote(v.source@)),
            kv("grouped"@, bool_text(v.grouped)),
        ]);
            }
            r
        },
        None => null_json(),
    }
}

/// JSON object for an optional [`ActionInfo`], or `null`.
pub open spec fn action_json_spec(o: Option<ActionInfo>) -> Seq<char> {
    match o {
        Some(v) => json_object(seq![
            kv("rule"@, json_opt_string_spec(v.rule)),
            kv("kind"@, json_quote(v.kind@)),
            kv("ok"@, bool_text(v.ok)),
            kv("status"@, json_quote(v.status@)),
            kv("decision"@, json_quote(v.decision@)),
            kv("result"@, json_quote(v.result@)),
            kv("detail"@, json_opt_string_spec(v.detail)),
            kv("latency_ms"@, json_opt_u64_spec(v.latency_ms)),
            kv("target_vm_id"@, json_opt_string_spec(v.target_vm_id)),
            kv("attempt"@, dec(v.attempt as nat)),
            kv("max_attempts"@, dec(v.max_attempts as nat)),
            kv("retry_count"@, dec(v.retry_count as nat)),
            kv("timeout_ms"@, dec(v.timeout_ms as nat)),
            kv("timed_out"@, bool_text(v.timed_out)),
            kv("refused"@, bool_text(v.refused)),
            kv("failure_class"@, json_opt_string_spec(v.failure_class)),
        ]),
        None => null_text(),
    }
}

pub fn action_json(o: &Option<ActionInfo>) -> (r: String)
    ensures
        r@ == action_json_spec(*o),
{
    match o {
        Some(v) => {
            let mut parts: Vec<String> = Vec::new();
            parts.push(kv_field("rule", json_opt_string(&v.rule).as_str()));
            parts.push(kv_field("kind", json_str(v.kind.as_str()).as_str()));
            parts.push(kv_field("ok", bool_to_text(v.ok).as_str()));
            parts.push(kv_field("status", json_str(v.status.as_str()).as_str()));
            parts.push(kv_field("decision", json_str(v.decision.as_str()).as_str()));
            parts.push(kv_field("result", json_str(v.result.as_str()).as_str()));
            parts.push(kv_field("detail", json_opt_string(&v.detail).as_str()));
            parts.push(kv_field("latency_ms", json_opt_u64(v.latency_ms).as_str()));
            parts.push(kv_field("target_vm_id", json_opt_string(&v.target_vm_id).as_str()));
            parts.push(kv_field("attempt", u64_to_dec(v.attempt as u64).as_str()));
            parts.push(kv_field("max_attempts", u64_to_dec(v.max_attempts as u64).as_str()));
            parts.push(kv_field("retry_count", u64_to_dec(v.retry_count as u64).as_str()));
            parts.push(kv_field("timeout_ms", u64_to_dec(v.timeout_ms).as_str()));
            parts.push(kv_field("timed_out", bool_to_text(v.timed_out).as_str()));
            parts.push(kv_field("refused", bool_to_text(v.refused).as_str()));
            parts.push(kv_field("failure_class", json_opt_string(&v.failure_class).as_str()));
            let r = object_of(&parts);
            proof {
                assert(views(parts@) =~= seq![
            kv("rule"@, json_opt_string_spec(v.rule)),
            kv("kind"@, json_quote(v.kind@)),
            kv("ok"@, bool_text(v.ok)),
            kv("status"@, json_quote(v.status@)),
            kv("decision"@, json_quote(v.decision@)),
            kv("result"@, json_quote(v.result@)),
            kv("detail"@, json_opt_string_spec(v.detail)),
            kv("latency_ms"@, json_opt_u64_spec(v.latency_ms)),
            kv("target_vm_id"@, json_opt_string_spec(v.target_vm_id)),
            kv("attempt"@, dec(v.attempt as nat)),
            kv("max_attempts"@, dec(v.max_attempts as nat)),
            kv("retry_count"@, dec(v.retry_count as nat)),
            kv("timeout_ms"@, dec(v.timeout_ms as nat)),
            kv("timed_out"@, bool_text(v.timed_out)),
            kv("refused"@, bool_text(v.refused)),
            kv("failure_class"@, json_opt_string_spec(v.failure_class)),
        ]);
            }
            r
        },
        None => null_json(),
    }
}

/// JSON object for an optional [`LossInfo`], or `null`.
pub open spec fn loss_json_spec(o: Option<LossInfo>) -> Seq<char> {
    match o {
        Some(v) => json_object(seq![
            kv("dropped_since_last_event"@, dec(v.dropped_since_last_event as nat)),
            kv("dropped_total"@, dec(v.dropped_total as nat)),
            kv("reason"@, json_quote(v.reason@)),
            kv("range_kind"@, json_quote(v.range_kind.name())),
            kv("sequence_gap_start"@, json_opt_u64_spec(v.sequence_gap_start)),
            kv("sequence_gap_end"@, json_opt_u64_spec(v.sequence_gap_end)),
        ]),
        None => null_text(),
    }
}

pub fn loss_json(o: &Option<LossInfo>) -> (r: String)
    ensures
        r@ == loss_json_spec(*o),
{
    match o {
        Some(v) => {
            let mut parts: Vec<String> = Vec::new();
            parts.push(kv_field("dropped_since_last_event", u64_to_dec(v.dropped_since_last_event).as_str()));
            parts.push(kv_field("dropped_total", u64_to_dec(v.dropped_total).as_str()));
            parts.push(kv_field("reason", json_str(v.reason.as_str()).as_str()));
            parts.push(kv_field("range_kind", json_str(v.range_kind.as_str()).as_str()));
            parts.push(kv_field("sequence_gap_start", json_opt_u64(v.sequence_gap_start).as_str()));
            parts.push(kv_field("sequence_gap_end", json_opt_u64(v.sequence_gap_end).as_str()));
            let r = object_of(&parts);
            proof {
                assert(views(parts@) =~= seq![
            kv("dropped_since_last_event"@, dec(v.dropped_since_last_event as nat)),
            kv("dropped_total"@, dec(v.dropped_total as nat)),
            kv("reason"@, json_quote(v.reason@)),
            kv("range_kind"@, json_quote(v.range_kind.name())),
            kv("sequence_gap_start"@, json_opt_u64_spec(v.sequence_gap_start)),
            kv("sequence_gap_end"@, json_opt_u64_spec(v.sequence_gap_end)),
        ]);
            }
            r
        },
        None => null_json(),
    }
}

/// `severity_from_str`: case-insensitive parse of a severity label.
pub open spec fn severity_parse(s: Seq<char>) -> Option<Severity> {
    let l = ascii_lower(s);
    if l == "info"@ {
        Some(Severity::Info)
    } else if l == "low"@ {
        Some(Severity::Low)
    } else if l == "medium"@ {
        Some(Severity::Medium)
    } else if l == "high"@ {
        Some(Severity::High)
    } else if l == "critical"@ {
        Some(Severity::Critical)
    } else {
        None
    }
}

/// Case-insensitive parse of a category label.
pub open spec fn category_parse(s: Seq<char>) -> Option<Category> {
    let l = ascii_lower(s);
    if l == "exit"@ {
        Some(Category::Exit)
    } else if l == "wx"@ {
        Some(Category::Wx)
    } else if l == "pmu"@ {
        Some(Category::Pmu)
    } else if l == "policy"@ {
        Some(Category::Policy)
    } else if l == "snapshot"@ {
        Some(Category::Snapshot)
    } else if l == "sensor"@ {
        Some(Category::Sensor)
    } else {
        None
    }
}

pub fn severity_from_str(s: &str) -> (r: Option<Severity>)
    ensures
        r == severity_parse(s@),
{
    let l = to_ascii_lower(s);
    if eq_lit(&l, "info") {
        Some(Severity::Info)
    } else if eq_lit(&l, "low") {
        Some(Severity::Low)
    } else if eq_lit(&l, "medium") {
        Some(Severity::Medium)
    } else if eq_lit(&l, "high") {
        Some(Severity::High)
    } else if eq_lit(&l, "critical") {
        Some(Severity::Critical)
    } else {
        None
    }
}

pub fn category_from_str(s: &str) -> (r: Option<Category>)
    ensures
        r == category_parse(s@),
{
    let l = to_ascii_lower(s);
    if eq_lit(&l, "exit") {
        Some(Category::Exit)
    } else if eq_lit(&l, "wx") {
        Some(Category::Wx)
    } else if eq_lit(&l, "pmu") {
        Some(Category::Pmu)
    } else if eq_lit(&l, "policy") {
        Some(Category::Policy)
    } else if eq_lit(&l, "snapshot") {
        Some(Category::Snapshot)
    } else if eq_lit(&l, "sensor") {
        Some(Category::Sensor)
    } else {
        None
    }
}

/// Parsing the label of a severity gives the severity back, whatever the case
/// the label is written in.
pub proof fn lemma_severity_label_roundtrip(s: Severity)
    ensures
        severity_parse(s.name()) == Some(s),
{
    reveal_strlit("info");
    reveal_strlit("low");
    reveal_strlit("medium");
    reveal_strlit("high");
    reveal_strlit("critical");
    assert("info"@ =~= seq!['i', 'n', 'f', 'o']);
    assert("low"@ =~= seq!['l', 'o', 'w']);
    assert("medium"@ =~= seq!['m', 'e', 'd', 'i', 'u', 'm']);
    assert("high"@ =~= seq!['h', 'i', 'g', 'h']);
    assert("critical"@ =~= seq!['c', 'r', 'i', 't', 'i', 'c', 'a', 'l']);
    assert(ascii_lower(s.name()) =~= s.name());
}

/// Parsing the label of a category gives the category back.
pub proof fn lemma_category_label_roundtrip(c: Category)
    ensures
        category_parse(c.name()) == Some(c),
{
    reveal_strlit("exit");
    reveal_strlit("wx");
    reveal_strlit("pmu");
    reveal_strlit("policy");
    reveal_strlit("snapshot");
    reveal_strlit("sensor");
    assert("exit"@ =~= seq!['e', 'x', 'i', 't']);
    assert("wx"@ =~= seq!['w', 'x']);
    assert("pmu"@ =~= seq!['p', 'm', 'u']);
    assert("policy"@ =~= seq!['p', 'o', 'l', 'i', 'c', 'y']);
    assert("snapshot"@ =~= seq!['s', 'n', 'a', 'p', 's', 'h', 'o', 't']);
    assert("sensor"@ =~= seq!['s', 'e', 'n', 's', 'o', 'r']);
    assert(ascii_lower(c.name()) =~= c.name());
}

/// The severity order is total and transitive.
pub proof fn lemma_severity_order(a: Severity, b: Severity, c: Severity)
    ensures
        a.spec_rank() >= b.spec_rank() || b.spec_rank() >= a.spec_rank(),
        (a.spec_rank() >= b.spec_rank() && b.spec_rank() >= c.spec_rank()) ==> a.spec_rank() >= c.spec_rank(),
        (a.spec_rank() == b.spec_rank()) ==> a == b,
{
}

} // verus!
