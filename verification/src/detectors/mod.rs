//! Guest-integrity detectors: detection records, confidence scoring, and the
//! per-run bookkeeping of the detector scheduler.
use vstd::prelude::*;
use crate::event::{IdentityConfidence, Severity};
use crate::text::{cat3, eq_lit, owned, push_str, to_chars};
use crate::vmi::VmiErrorKind;

pub mod dedupe;
pub mod hidden_module;
pub mod hidden_process;
pub mod jit;
pub mod kernel_text;
pub mod memory;
pub mod pmu_anomaly;
pub mod state;
pub mod state_roundtrip;
pub mod syscall_hooks;
pub mod wx;

verus! {

/// Schema version stamped on every detection record.
pub const DETECTION_SCHEMA_VERSION: u32 = 1;

/// What a detection is about.
#[derive(Debug, Clone, Copy, PartialEq, Eq, PartialOrd, Ord, Hash, Structural)]
pub enum DetectionKind {
    KernelTextTamper,
    SyscallHook,
    HiddenProcess,
    HiddenModule,
    ExecutableAnonymousMemory,
    RwxMapping,
    WxCorrelation,
    PmuAnomaly,
}

impl DetectionKind {
    /// Label used in output.
    pub open spec fn name(self) -> Seq<char> {
        match self {
            DetectionKind::KernelTextTamper => "kernel_text_tamper"@,
            DetectionKind::SyscallHook => "syscall_hook"@,
            DetectionKind::HiddenProcess => "hidden_process"@,
            DetectionKind::HiddenModule => "hidden_module"@,
            DetectionKind::ExecutableAnonymousMemory => "executable_anonymous_memory"@,
            DetectionKind::RwxMapping => "rwx_mapping"@,
            DetectionKind::WxCorrelation => "wx_correlation"@,
            DetectionKind::PmuAnomaly => "pmu_anomaly"@,
        }
    }

    pub fn as_str(self) -> (r: &'static str)
        ensures
            r@ == self.name(),
    {
        match self {
            DetectionKind::KernelTextTamper => "kernel_text_tamper",
            DetectionKind::SyscallHook => "syscall_hook",
            DetectionKind::HiddenProcess => "hidden_process",
            DetectionKind::HiddenModule => "hidden_module",
            DetectionKind::ExecutableAnonymousMemory => "executable_anonymous_memory",
            DetectionKind::RwxMapping => "rwx_mapping",
            DetectionKind::WxCorrelation => "wx_correlation",
            DetectionKind::PmuAnomaly => "pmu_anomaly",
        }
    }

    /// Position in the declaration order (the order `Ord` uses).
    pub open spec fn ordinal(self) -> u8 {
        match self {
            DetectionKind::KernelTextTamper => 0,
            DetectionKind::SyscallHook => 1,
            DetectionKind::HiddenProcess => 2,
            DetectionKind::HiddenModule => 3,
            DetectionKind::ExecutableAnonymousMemory => 4,
            DetectionKind::RwxMapping => 5,
            DetectionKind::WxCorrelation => 6,
            DetectionKind::PmuAnomaly => 7,
        }
    }

    pub fn ordinal_exec(self) -> (r: u8)
        ensures
            r == self.ordinal(),
    {
        match self {
            DetectionKind::KernelTextTamper => 0,
            DetectionKind::SyscallHook => 1,
            DetectionKind::HiddenProcess => 2,
            DetectionKind::HiddenModule => 3,
            DetectionKind::ExecutableAnonymousMemory => 4,
            DetectionKind::RwxMapping => 5,
            DetectionKind::WxCorrelation => 6,
            DetectionKind::PmuAnomaly => 7,
        }
    }
}

/// The variant whose label is exactly `s`.
pub open spec fn detectionkind_of_label(s: Seq<char>) -> Option<DetectionKind> {
    if s == "kernel_text_tamper"@ {
        Some(DetectionKind::KernelTextTamper)
    } else if s == "syscall_hook"@ {
        Some(DetectionKind::SyscallHook)
    } else if s == "hidden_process"@ {
        Some(DetectionKind::HiddenProcess)
    } else if s == "hidden_module"@ {
        Some(DetectionKind::HiddenModule)
    } else if s == "executable_anonymous_memory"@ {
        Some(DetectionKind::ExecutableAnonymousMemory)
    } else if s == "rwx_mapping"@ {
        Some(DetectionKind::RwxMapping)
    } else if s == "wx_correlation"@ {
        Some(DetectionKind::WxCorrelation)
    } else if s == "pmu_anomaly"@ {
        Some(DetectionKind::PmuAnomaly)
    } else {
        None
    }
}

impl DetectionKind {
    /// Parses an exact label.
    pub fn parse(value: &str) -> (r: Option<DetectionKind>)
        ensures
            r == detectionkind_of_label(value@),
    {
        let v = to_chars(value);
        if eq_lit(&v, "kernel_text_tamper") {
            Some(DetectionKind::KernelTextTamper)
        } else if eq_lit(&v, "syscall_hook") {
            Some(DetectionKind::SyscallHook)
        } else if eq_lit(&v, "hidden_process") {
            Some(DetectionKind::HiddenProcess)
        } else if eq_lit(&v, "hidden_module") {
            Some(DetectionKind::HiddenModule)
        } else if eq_lit(&v, "executable_anonymous_memory") {
            Some(DetectionKind::ExecutableAnonymousMemory)
        } else if eq_lit(&v, "rwx_mapping") {
            Some(DetectionKind::RwxMapping)
        } else if eq_lit(&v, "wx_correlation") {
            Some(DetectionKind::WxCorrelation)
        } else if eq_lit(&v, "pmu_anomaly") {
            Some(DetectionKind::PmuAnomaly)
        } else {
            None
        }
    }
}

/// Parsing the label of a variant gives the variant back.
pub proof fn lemma_detectionkind_label_roundtrip(k: DetectionKind)
    ensures
        detectionkind_of_label(k.name()) == Some(k),
{
    reveal_strlit("kernel_text_tamper");
    assert("kernel_text_tamper"@ =~= seq!['k', 'e', 'r', 'n', 'e', 'l', '_', 't', 'e', 'x', 't', '_', 't', 'a', 'm', 'p', 'e', 'r']);
    reveal_strlit("syscall_hook");
    assert("syscall_hook"@ =~= seq!['s', 'y', 's', 'c', 'a', 'l', 'l', '_', 'h', 'o', 'o', 'k']);
    reveal_strlit("hidden_process");
    assert("hidden_process"@ =~= seq!['h', 'i', 'd', 'd', 'e', 'n', '_', 'p', 'r', 'o', 'c', 'e', 's', 's']);
    reveal_strlit("hidden_module");
    assert("hidden_module"@ =~= seq!['h', 'i', 'd', 'd', 'e', 'n', '_', 'm', 'o', 'd', 'u', 'l', 'e']);
    reveal_strlit("executable_anonymous_memory");
    assert("executable_anonymous_memory"@ =~= seq!['e', 'x', 'e', 'c', 'u', 't', 'a', 'b', 'l', 'e', '_', 'a', 'n', 'o', 'n', 'y', 'm', 'o', 'u', 's', '_', 'm', 'e', 'm', 'o', 'r', 'y']);
    reveal_strlit("rwx_mapping");
    assert("rwx_mapping"@ =~= seq!['r', 'w', 'x', '_', 'm', 'a', 'p', 'p', 'i', 'n', 'g']);
    reveal_strlit("wx_correlation");
    assert("wx_correlation"@ =~= seq!['w', 'x', '_', 'c', 'o', 'r', 'r', 'e', 'l', 'a', 't', 'i', 'o', 'n']);
    reveal_strlit("pmu_anomaly");
    assert("pmu_anomaly"@ =~= seq!['p', 'm', 'u', '_', 'a', 'n', 'o', 'm', 'a', 'l', 'y']);
}

/// How trustworthy the data source of a detection is.
#[derive(Debug, Clone, Copy, PartialEq, Eq, Hash, Structural)]
pub enum SourceReliability {
    Unsupported,
    SyntheticFixture,
    Tracefs,
    OfflineSnapshot,
    VerifiedSnapshot,
}

impl SourceReliability {
    /// Label used in output.
    pub open spec fn name(self) -> Seq<char> {
        match self {
            SourceReliability::Unsupported => "unsupported"@,
            SourceReliability::SyntheticFixture => "synthetic_fixture"@,
            SourceReliability::Tracefs => "tracefs"@,
            SourceReliability::OfflineSnapshot => "offline_snapshot"@,
            SourceReliability::VerifiedSnapshot => "verified_snapshot"@,
        }
    }

    pub fn as_str(self) -> (r: &'static str)
        ensures
            r@ == self.name(),
    {
        match self {
            SourceReliability::Unsupported => "unsupported",
            SourceReliability::SyntheticFixture => "synthetic_fixture",
            SourceReliability::Tracefs => "tracefs",
            SourceReliability::OfflineSnapshot => "offline_snapshot",
            SourceReliability::VerifiedSnapshot => "verified_snapshot",
        }
    }

    /// Contribution to the raw confidence score.
    pub open spec fn spec_score(self) -> i32 {
        match self {
            SourceReliability::Unsupported => 0,
            SourceReliability::SyntheticFixture => 15,
            SourceReliability::Tracefs => 45,
            SourceReliability::OfflineSnapshot => 60,
            SourceReliability::VerifiedSnapshot => 80,
        }
    }

    pub fn score(self) -> (r: i32)
        ensures
            r == self.spec_score(),
    {
        match self {
            SourceReliability::Unsupported => 0,
            SourceReliability::SyntheticFixture => 15,
            SourceReliability::Tracefs => 45,
            SourceReliability::OfflineSnapshot => 60,
            SourceReliability::VerifiedSnapshot => 80,
        }
    }
}

/// How precisely a detection is attributed inside the guest.
#[derive(Debug, Clone, Copy, PartialEq, Eq, Hash, Structural)]
pub enum AttributionQuality {
    Unknown,
    HostOnly,
    GuestAddress,
    GuestProcess,
    GuestSymbol,
}

impl AttributionQuality {
    /// Label used in output.
    pub open spec fn name(self) -> Seq<char> {
        match self {
            AttributionQuality::Unknown => "unknown"@,
            AttributionQuality::HostOnly => "host_only"@,
            AttributionQuality::GuestAddress => "guest_address"@,
            AttributionQuality::GuestProcess => "guest_process"@,
            AttributionQuality::GuestSymbol => "guest_symbol"@,
        }
    }

    pub fn as_str(self) -> (r: &'static str)
        ensures
            r@ == self.name(),
    {
        match self {
            AttributionQuality::Unknown => "unknown",
            AttributionQuality::HostOnly => "host_only",
            AttributionQuality::GuestAddress => "guest_address",
            AttributionQuality::GuestProcess => "guest_process",
            AttributionQuality::GuestSymbol => "guest_symbol",
        }
    }

    /// Contribution to the raw confidence score.
    pub open spec fn spec_score(self) -> i32 {
        match self {
            AttributionQuality::Unknown => 0,
            AttributionQuality::HostOnly => 15,
            AttributionQuality::GuestAddress => 35,
            AttributionQuality::GuestProcess => 55,
            AttributionQuality::GuestSymbol => 70,
        }
    }

    pub fn score(self) -> (r: i32)
        ensures
            r == self.spec_score(),
    {
        match self {
            AttributionQuality::Unknown => 0,
            AttributionQuality::HostOnly => 15,
            AttributionQuality::GuestAddress => 35,
            AttributionQuality::GuestProcess => 55,
            AttributionQuality::GuestSymbol => 70,
        }
    }
}

/// How well the guest profile matches the guest build.
#[derive(Debug, Clone, Copy, PartialEq, Eq, Hash, Structural)]
pub enum ProfileConfidence {
    NoProfile,
    Synthetic,
    ExactBuild,
    VerifiedSnapshot,
}

impl ProfileConfidence {
    /// Label used in output.
    pub open spec fn name(self) -> Seq<char> {
        match self {
            ProfileConfidence::NoProfile => "none"@,
            ProfileConfidence::Synthetic => "synthetic"@,
            ProfileConfidence::ExactBuild => "exact_build"@,
            ProfileConfidence::VerifiedSnapshot => "verified_snapshot"@,
        }
    }

    pub fn as_str(self) -> (r: &'static str)
        ensures
            r@ == self.name(),
    {
        match self {
            ProfileConfidence::NoProfile => "none",
            ProfileConfidence::Synthetic => "synthetic",
            ProfileConfidence::ExactBuild => "exact_build",
            ProfileConfidence::VerifiedSnapshot => "verified_snapshot",
        }
    }

    /// Contribution to the raw confidence score.
    pub open spec fn spec_score(self) -> i32 {
        match self {
            ProfileConfidence::NoProfile => 0,
            ProfileConfidence::Synthetic => 20,
            ProfileConfidence::ExactBuild => 55,
            ProfileConfidence::VerifiedSnapshot => 75,
        }
    }

    pub fn score(self) -> (r: i32)
        ensures
            r == self.spec_score(),
    {
        match self {
            ProfileConfidence::NoProfile => 0,
            ProfileConfidence::Synthetic => 20,
            ProfileConfidence::ExactBuild => 55,
            ProfileConfidence::VerifiedSnapshot => 75,
        }
    }
}

/// Coarse confidence band of a detection.
#[derive(Debug, Clone, Copy, PartialEq, Eq, Hash, Structural)]
pub enum ConfidenceLevel {
    Low,
    Medium,
    High,
}

impl ConfidenceLevel {
    /// Label used in output.
    pub open spec fn name(self) -> Seq<char> {
        match self {
            ConfidenceLevel::Low => "low"@,
            ConfidenceLevel::Medium => "medium"@,
            ConfidenceLevel::High => "high"@,
        }
    }

    pub fn as_str(self) -> (r: &'static str)
        ensures
            r@ == self.name(),
    {
        match self {
            ConfidenceLevel::Low => "low",
            ConfidenceLevel::Medium => "medium",
            ConfidenceLevel::High => "high",
        }
    }
}

/// Outcome of one scheduled detector run.
#[derive(Debug, Clone, Copy, PartialEq, Eq, Structural)]
pub enum DetectorRunStatus {
    Disabled,
    Clean,
    Findings,
    Unsupported,
    Degraded,
    OverBudget,
    Failed,
}

impl DetectorRunStatus {
    /// Label used in output.
    pub open spec fn name(self) -> Seq<char> {
        match self {
            DetectorRunStatus::Disabled => "disabled"@,
            DetectorRunStatus::Clean => "clean"@,
            DetectorRunStatus::Findings => "findings"@,
            DetectorRunStatus::Unsupported => "unsupported"@,
            DetectorRunStatus::Degraded => "degraded"@,
            DetectorRunStatus::OverBudget => "over_budget"@,
            DetectorRunStatus::Failed => "failed"@,
        }
    }

    pub fn as_str(&self) -> (r: &'static str)
        ensures
            r@ == self.name(),
    {
        match self {
            DetectorRunStatus::Disabled => "disabled",
            DetectorRunStatus::Clean => "clean",
            DetectorRunStatus::Findings => "findings",
            DetectorRunStatus::Unsupported => "unsupported",
            DetectorRunStatus::Degraded => "degraded",
            DetectorRunStatus::OverBudget => "over_budget",
            DetectorRunStatus::Failed => "failed",
        }
    }
}

#[derive(Debug, Clone, Copy, PartialEq, Eq, Hash, Structural)]
pub struct DetectionConfidence {
    pub score: u8,
    pub level: ConfidenceLevel,
}

#[derive(Debug, Clone, Copy, PartialEq, Eq, Structural)]
pub struct ScoreFactors {
    pub base_severity: Severity,
    pub source: SourceReliability,
    pub attribution: AttributionQuality,
    pub profile: ProfileConfidence,
    pub identity: IdentityConfidence,
    pub data_loss: bool,
    pub policy_match: bool,
}

#[derive(Debug, Clone, Copy, PartialEq, Eq, Structural)]
pub struct DetectionScore {
    pub severity: Severity,
    pub confidence: DetectionConfidence,
}

/// Score bonus for the confidence in the VM identity.
pub open spec fn identity_bonus(c: IdentityConfidence) -> int {
    match c {
        IdentityConfidence::Low => 0,
        IdentityConfidence::Medium => 10,
        IdentityConfidence::High => 20,
    }
}

/// Unclamped confidence score: a base of 10, the source, attribution,
/// profile and identity contributions, 10 more for a policy match and 25 less
/// for data loss.
pub open spec fn raw_score(f: ScoreFactors) -> int {
    10 + f.source.spec_score() + f.attribution.spec_score() + f.profile.spec_score()
        + identity_bonus(f.identity) + (if f.policy_match {
        10int
    } else {
        0int
    }) - (if f.data_loss {
        25int
    } else {
        0int
    })
}

/// The raw score clamped to `0..=100`.
pub open spec fn clamp_score(raw: int) -> u8 {
    if raw < 0 {
        0
    } else if raw > 100 {
        100
    } else {
        raw as u8
    }
}

/// `High` from 75, `Medium` from 40, `Low` below.
pub open spec fn level_of(score: u8) -> ConfidenceLevel {
    if score >= 75 {
        ConfidenceLevel::High
    } else if score >= 40 {
        ConfidenceLevel::Medium
    } else {
        ConfidenceLevel::Low
    }
}

/// With data loss or low confidence the severity drops one step, but never
/// below `Low` (an `Info` stays `Info`).
pub open spec fn adjusted_severity(base: Severity, data_loss: bool, level: ConfidenceLevel) -> Severity {
    if !data_loss && level != ConfidenceLevel::Low {
        base
    } else {
        match base {
            Severity::Critical => Severity::High,
            Severity::High => Severity::Medium,
            Severity::Medium => Severity::Low,
            _ => base,
        }
    }
}

/// The score of a detection with the given factors.
pub open spec fn detection_score(f: ScoreFactors) -> DetectionScore {
    let score = clamp_score(raw_score(f));
    let level = level_of(score);
    DetectionScore {
        severity: adjusted_severity(f.base_severity, f.data_loss, level),
        confidence: DetectionConfidence { score, level },
    }
}

pub fn score_detection(factors: ScoreFactors) -> (r: DetectionScore)
    ensures
        r == detection_score(factors),
{
    let mut raw: i32 = 10 + factors.source.score() + factors.attribution.score()
        + factors.profile.score();
    raw = raw + match factors.identity {
        IdentityConfidence::Low => 0,
        IdentityConfidence::Medium => 10,
        IdentityConfidence::High => 20,
    };
    if factors.policy_match {
        raw = raw + 10;
    }
    if factors.data_loss {
        raw = raw - 25;
    }
    let score: u8 = if raw < 0 {
        0
    } else if raw > 100 {
        100
    } else {
        raw as u8
    };
    let level = if score >= 75 {
        ConfidenceLevel::High
    } else if score >= 40 {
        ConfidenceLevel::Medium
    } else {
        ConfidenceLevel::Low
    };
    let severity = adjust_severity(factors.base_severity, factors.data_loss, level);
    DetectionScore { severity, confidence: DetectionConfidence { score, level } }
}

pub fn adjust_severity(base: Severity, data_loss: bool, confidence: ConfidenceLevel) -> (r: Severity)
    ensures
        r == adjusted_severity(base, data_loss, confidence),
{
    if !data_loss && confidence != ConfidenceLevel::Low {
        return base;
    }
    match base {
        Severity::Critical => Severity::High,
        Severity::High => Severity::Medium,
        Severity::Medium => Severity::Low,
        Severity::Low | Severity::Info => base,
    }
}

/// Data loss never raises the confidence score, the confidence level or the
/// severity of a detection; the adjusted severity never exceeds the base one.
pub proof fn lemma_data_loss_never_raises_score(f: ScoreFactors)
    ensures
        detection_score(ScoreFactors { data_loss: true, ..f }).confidence.score
            <= detection_score(ScoreFactors { data_loss: false, ..f }).confidence.score,
        detection_score(ScoreFactors { data_loss: true, ..f }).severity.spec_rank()
            <= detection_score(ScoreFactors { data_loss: false, ..f }).severity.spec_rank(),
        detection_score(f).severity.spec_rank() <= f.base_severity.spec_rank(),
        detection_score(f).confidence.score <= 100,
{
}

/// How confidence and data loss move a detection's severity: with data
/// loss or low confidence, a severity above `Low` drops exactly one step and
/// `Low` or `Info` stays as it is; otherwise the base severity stands. The
/// same holds of the score of any detection through its confidence level.
pub proof fn lemma_severity_adjustment(base: Severity, data_loss: bool, level: ConfidenceLevel, f: ScoreFactors)
    ensures
        (data_loss || level == ConfidenceLevel::Low) && base.spec_rank() > Severity::Low.spec_rank() ==> adjusted_severity(
            base,
            data_loss,
            level,
        ).spec_rank() + 1 == base.spec_rank(),
        (data_loss || level == ConfidenceLevel::Low) && base.spec_rank() <= Severity::Low.spec_rank() ==> adjusted_severity(
            base,
            data_loss,
            level,
        ) == base,
        !data_loss && level != ConfidenceLevel::Low ==> adjusted_severity(base, data_loss, level) == base,
        detection_score(f).confidence.level == ConfidenceLevel::Low && f.base_severity.spec_rank()
            > Severity::Low.spec_rank() ==> detection_score(f).severity.spec_rank() + 1 == f.base_severity.spec_rank(),
        detection_score(f).confidence.level != ConfidenceLevel::Low && !f.data_loss ==> detection_score(f).severity
            == f.base_severity,
{
}

/// The confidence level of a detection follows its score: high from 75,
/// medium from 40, low below; and more trust in the VM identity or a
/// policy match never lowers the score.
pub proof fn lemma_confidence_follows_score(f: ScoreFactors)
    ensures
        (detection_score(f).confidence.level == ConfidenceLevel::High) == (detection_score(f).confidence.score >= 75),
        (detection_score(f).confidence.level == ConfidenceLevel::Low) == (detection_score(f).confidence.score < 40),
        detection_score(f).confidence.score <= 100,
        detection_score(ScoreFactors { identity: IdentityConfidence::High, ..f }).confidence.score
            >= detection_score(ScoreFactors { identity: IdentityConfidence::Medium, ..f }).confidence.score,
        detection_score(ScoreFactors { identity: IdentityConfidence::Medium, ..f }).confidence.score
            >= detection_score(ScoreFactors { identity: IdentityConfidence::Low, ..f }).confidence.score,
        detection_score(ScoreFactors { policy_match: true, ..f }).confidence.score
            >= detection_score(ScoreFactors { policy_match: false, ..f }).confidence.score,
{
}

#[derive(Debug, Clone, PartialEq, Eq)]
pub struct DetectionSource {
    pub name: String,
    pub reliability: SourceReliability,
    pub profile: ProfileConfidence,
}

impl DetectionSource {
    pub fn new(name: &str, reliability: SourceReliability, profile: ProfileConfidence) -> (r: Self)
        ensures
            r.name@ == name@,
            r.reliability == reliability,
            r.profile == profile,
    {
        DetectionSource { name: owned(name), reliability, profile }
    }

    /// A copy of the source.
    pub fn duplicate(&self) -> (r: Self)
        ensures
            r == *self,
    {
        DetectionSource { name: self.name.clone(), reliability: self.reliability, profile: self.profile }
    }
}

/// A copy of an optional string.
pub fn clone_opt(v: &Option<String>) -> (r: Option<String>)
    ensures
        r == *v,
{
    match v {
        Some(s) => Some(s.clone()),
        None => None,
    }
}

/// A copy of a list of strings.
pub fn clone_strings(v: &Vec<String>) -> (r: Vec<String>)
    ensures
        r@ == v@,
{
    let mut out: Vec<String> = Vec::new();
    let mut i: usize = 0;
    while i < v.len()
        invariant
            i <= v@.len(),
            out@ == v@.take(i as int),
        decreases v@.len() - i,
    {
        out.push(v[i].clone());
        i = i + 1;
        assert(out@ =~= v@.take(i as int));
    }
    assert(v@.take(v@.len() as int) =~= v@);
    out
}

#[derive(Debug, Clone, PartialEq, Eq)]
pub struct DetectionRecord {
    pub schema_version: u32,
    pub detector_id: String,
    pub kind: DetectionKind,
    pub title: String,
    pub detail: String,
    pub vm_id: Option<String>,
    pub entity: Option<String>,
    pub range_start: Option<u64>,
    pub range_end: Option<u64>,
    pub symbol: Option<String>,
    pub source: DetectionSource,
    pub severity: Severity,
    pub confidence: DetectionConfidence,
    pub tags: Vec<String>,
}

impl DetectionRecord {
    /// A record without VM, entity, range, symbol or tags.
    pub fn new(
        detector_id: &str,
        kind: DetectionKind,
        title: &str,
        detail: &str,
        source: DetectionSource,
        score: DetectionScore,
    ) -> (r: Self)
        ensures
            r.schema_version == DETECTION_SCHEMA_VERSION,
            r.detector_id@ == detector_id@,
            r.kind == kind,
            r.title@ == title@,
            r.detail@ == detail@,
            r.vm_id is None,
            r.entity is None,
            r.range_start is None,
            r.range_end is None,
            r.symbol is None,
            r.source == source,
            r.severity == score.severity,
            r.confidence == score.confidence,
            r.tags@.len() == 0,
    {
        DetectionRecord {
            schema_version: DETECTION_SCHEMA_VERSION,
            detector_id: owned(detector_id),
            kind,
            title: owned(title),
            detail: owned(detail),
            vm_id: None,
            entity: None,
            range_start: None,
            range_end: None,
            symbol: None,
            source,
            severity: score.severity,
            confidence: score.confidence,
            tags: Vec::new(),
        }
    }

    pub fn with_vm_id(self, vm_id: &str) -> (r: Self)
        ensures
            r == (DetectionRecord { vm_id: r.vm_id, ..self }),
            r.vm_id matches Some(v) && v@ == vm_id@,
    {
        DetectionRecord { vm_id: Some(owned(vm_id)), ..self }
    }

    pub fn with_entity(self, entity: &str) -> (r: Self)
        ensures
            r == (DetectionRecord { entity: r.entity, ..self }),
            r.entity matches Some(v) && v@ == entity@,
    {
        DetectionRecord { entity: Some(owned(entity)), ..self }
    }

    pub fn with_range(self, start: u64, end: u64) -> (r: Self)
        ensures
            r == (DetectionRecord { range_start: Some(start), range_end: Some(end), ..self }),
    {
        DetectionRecord { range_start: Some(start), range_end: Some(end), ..self }
    }

    pub fn with_symbol(self, symbol: &str) -> (r: Self)
        ensures
            r == (DetectionRecord { symbol: r.symbol, ..self }),
            r.symbol matches Some(v) && v@ == symbol@,
    {
        DetectionRecord { symbol: Some(owned(symbol)), ..self }
    }

    pub fn with_tag(self, tag: &str) -> (r: Self)
        ensures
            r == (DetectionRecord { tags: r.tags, ..self }),
            r.tags@.len() == self.tags@.len() + 1,
            r.tags@.drop_last() == self.tags@,
            r.tags@.last()@ == tag@,
    {
        let mut s = self;
        let t = owned(tag);
        s.tags.push(t);
        proof {
            assert(s.tags@.drop_last() =~= self.tags@);
        }
        s
    }

    /// A copy of the record.
    pub fn duplicate(&self) -> (r: Self)
        ensures
            r == (DetectionRecord { tags: r.tags, ..*self }),
            r.tags@ == self.tags@,
    {
        let tags = clone_strings(&self.tags);
        let r = DetectionRecord {
            schema_version: self.schema_version,
            detector_id: self.detector_id.clone(),
            kind: self.kind,
            title: self.title.clone(),
            detail: self.detail.clone(),
            vm_id: clone_opt(&self.vm_id),
            entity: clone_opt(&self.entity),
            range_start: self.range_start,
            range_end: self.range_end,
            symbol: clone_opt(&self.symbol),
            source: self.source.duplicate(),
            severity: self.severity,
            confidence: self.confidence,
            tags,
        };
        assert(r.tags@ =~= self.tags@);
        r
    }
}

#[derive(Debug, Clone, PartialEq, Eq)]
pub enum DetectorError {
    MalformedInput { detail: String },
    Unsupported { detector: String, detail: String },
    Degraded { detector: String, detail: String },
}

/// An `Unsupported` error for `detector`.
pub fn unsupported_error(detector: &str, detail: &str) -> (r: DetectorError)
    ensures
        r matches DetectorError::Unsupported { detector: d, detail: t } && d@ == detector@ && t@
            == detail@,
{
    DetectorError::Unsupported { detector: owned(detector), detail: owned(detail) }
}

/// A `MalformedInput` error.
pub fn malformed_input(detail: String) -> (r: DetectorError)
    ensures
        r == (DetectorError::MalformedInput { detail }),
{
    DetectorError::MalformedInput { detail }
}

impl DetectorError {
    pub open spec fn message_of(self) -> Seq<char> {
        match self {
            DetectorError::MalformedInput { detail } => "detector input is malformed: "@ + detail@,
            DetectorError::Unsupported { detector, detail } => "detector '"@ + detector@ + "' is unsupported: "@
                + detail@,
            DetectorError::Degraded { detector, detail } => "detector '"@ + detector@ + "' is degraded: "@
                + detail@,
        }
    }

    /// The error's message.
    pub fn message(&self) -> (r: String)
        ensures
            r@ == self.message_of(),
    {
        match self {
            DetectorError::MalformedInput { detail } => {
                let mut m = owned("detector input is malformed: ");
                push_str(&mut m, detail.as_str());
                m
            },
            DetectorError::Unsupported { detector, detail } => {
                let mut m = cat3("detector '", detector.as_str(), "' is unsupported: ");
                push_str(&mut m, detail.as_str());
                m
            },
            DetectorError::Degraded { detector, detail } => {
                let mut m = cat3("detector '", detector.as_str(), "' is degraded: ");
                push_str(&mut m, detail.as_str());
                m
            },
        }
    }

    pub fn kind(&self) -> (r: VmiErrorKind)
        ensures
            r == match self {
                DetectorError::MalformedInput { .. } => VmiErrorKind::Malformed,
                DetectorError::Unsupported { .. } => VmiErrorKind::Unsupported,
                DetectorError::Degraded { .. } => VmiErrorKind::TemporarilyUnavailable,
            },
    {
        match self {
            DetectorError::MalformedInput { .. } => VmiErrorKind::Malformed,
            DetectorError::Unsupported { .. } => VmiErrorKind::Unsupported,
            DetectorError::Degraded { .. } => VmiErrorKind::TemporarilyUnavailable,
        }
    }
}

#[derive(Debug, Clone, PartialEq, Eq)]
pub enum DetectorOutcome {
    Clean,
    Findings(Vec<DetectionRecord>),
    Unsupported { reason: String },
    Degraded { reason: String, findings: Vec<DetectionRecord> },
}

/// The findings an outcome carries.
pub open spec fn outcome_findings(o: DetectorOutcome) -> Seq<DetectionRecord> {
    match o {
        DetectorOutcome::Findings(records) => records@,
        DetectorOutcome::Degraded { findings, .. } => findings@,
        _ => Seq::empty(),
    }
}

impl DetectorOutcome {
    pub fn finding_count(&self) -> (r: usize)
        ensures
            r == outcome_findings(*self).len(),
    {
        match self {
            DetectorOutcome::Clean | DetectorOutcome::Unsupported { .. } => 0,
            DetectorOutcome::Findings(records) => records.len(),
            DetectorOutcome::Degraded { findings, .. } => findings.len(),
        }
    }
}

pub fn collect_findings(outcome: DetectorOutcome) -> (r: Vec<DetectionRecord>)
    ensures
        r@ == outcome_findings(outcome),
{
    match outcome {
        DetectorOutcome::Clean | DetectorOutcome::Unsupported { .. } => Vec::new(),
        DetectorOutcome::Findings(records) => records,
        DetectorOutcome::Degraded { findings, .. } => findings,
    }
}

/// Keys of an attribute list.
pub open spec fn attr_keys(a: Seq<(String, String)>) -> Seq<Seq<char>> {
    a.map_values(|p: (String, String)| p.0@)
}

/// The value stored under `k` (the first entry with that key).
pub open spec fn attr_lookup(a: Seq<(String, String)>, k: Seq<char>) -> Option<Seq<char>>
    decreases a.len(),
{
    if a.len() == 0 {
        None
    } else if a[0].0@ == k {
        Some(a[0].1@)
    } else {
        attr_lookup(a.drop_first(), k)
    }
}

#[derive(Debug, Clone, PartialEq, Eq)]
pub struct DetectorInput {
    pub vm_id: Option<String>,
    pub data_loss: bool,
    /// Key/value attributes; each key occurs once.
    pub attributes: Vec<(String, String)>,
}

pub proof fn lemma_attr_lookup_update(a: Seq<(String, String)>, i: int, v: (String, String), k: Seq<char>)
    requires
        0 <= i < a.len(),
        a[i].0@ == v.0@,
        forall|j: int| 0 <= j < i ==> (#[trigger] a[j]).0@ != v.0@,
    ensures
        attr_lookup(a.update(i, v), k) == if k == v.0@ {
            Some(v.1@)
        } else {
            attr_lookup(a, k)
        },
    decreases i,
{
    if i > 0 {
        assert(a.update(i, v).drop_first() =~= a.drop_first().update(i - 1, v));
        assert(a.update(i, v)[0] == a[0]);
        assert(a[0].0@ != v.0@);
        lemma_attr_lookup_update(a.drop_first(), i - 1, v, k);
        assert forall|j: int| 0 <= j < i - 1 implies (#[trigger] a.drop_first()[j]).0@ != v.0@ by {
            assert(a.drop_first()[j] == a[j + 1]);
        }
    } else {
        assert(a.update(0, v).drop_first() =~= a.drop_first());
        assert(a.update(0, v)[0] == v);
    }
}

pub proof fn lemma_attr_lookup_push(a: Seq<(String, String)>, v: (String, String), k: Seq<char>)
    requires
        forall|j: int| 0 <= j < a.len() ==> (#[trigger] a[j]).0@ != v.0@,
    ensures
        attr_lookup(a.push(v), k) == if k == v.0@ {
            Some(v.1@)
        } else {
            attr_lookup(a, k)
        },
    decreases a.len(),
{
    if a.len() > 0 {
        assert(a.push(v).drop_first() =~= a.drop_first().push(v));
        assert(a.push(v)[0] == a[0]);
        assert forall|j: int| 0 <= j < a.drop_first().len() implies (#[trigger] a.drop_first()[j]).0@ != v.0@ by {
            assert(a.drop_first()[j] == a[j + 1]);
        }
        lemma_attr_lookup_push(a.drop_first(), v, k);
    } else {
        assert(a.push(v).drop_first() =~= Seq::<(String, String)>::empty());
        assert(a.push(v)[0] == v);
        assert(attr_lookup(Seq::<(String, String)>::empty(), k) is None);
        assert(a =~= Seq::<(String, String)>::empty());
    }
}

impl DetectorInput {
    pub fn new(vm_id: Option<String>) -> (r: Self)
        ensures
            r.vm_id == vm_id,
            !r.data_loss,
            r.attributes@.len() == 0,
    {
        DetectorInput { vm_id, data_loss: false, attributes: Vec::new() }
    }

    /// Sets attribute `key` to `value`, replacing an earlier value.
    pub fn with_attribute(self, key: &str, value: &str) -> (r: Self)
        ensures
            r.vm_id == self.vm_id,
            r.data_loss == self.data_loss,
            forall|k: Seq<char>| #[trigger] attr_lookup(r.attributes@, k) == if k == key@ {
                Some(value@)
            } else {
                attr_lookup(self.attributes@, k)
            },
    {
        let mut s = self;
        let entry = (owned(key), owned(value));
        let mut i: usize = 0;
        while i < s.attributes.len()
            invariant
                s.attributes@ == self.attributes@,
                s.vm_id == self.vm_id,
                s.data_loss == self.data_loss,
                i <= s.attributes@.len(),
                entry.0@ == key@,
                entry.1@ == value@,
                forall|j: int| 0 <= j < i ==> (#[trigger] s.attributes@[j]).0@ != key@,
            decreases s.attributes@.len() - i,
        {
            if str_eq_string(&s.attributes[i].0, &entry.0) {
                let ghost a = s.attributes@;
                s.attributes.set(i, entry);
                proof {
                    assert forall|k: Seq<char>| #[trigger] attr_lookup(s.attributes@, k) == if k == key@ {
                        Some(value@)
                    } else {
                        attr_lookup(self.attributes@, k)
                    } by {
                        lemma_attr_lookup_update(a, i as int, entry, k);
                    }
                }
                return s;
            }
            i = i + 1;
        }
        let ghost a = s.attributes@;
        s.attributes.push(entry);
        proof {
            assert forall|k: Seq<char>| #[trigger] attr_lookup(s.attributes@, k) == if k == key@ {
                Some(value@)
            } else {
                attr_lookup(self.attributes@, k)
            } by {
                lemma_attr_lookup_push(a, entry, k);
            }
        }
        s
    }
}

/// Equality of two strings.
pub fn str_eq_string(a: &String, b: &String) -> (r: bool)
    ensures
        r == (a@ == b@),
{
    a.eq(b)
}

/// Limits for one detector run: wall time in nanoseconds and finding count.
#[derive(Debug, Clone, Copy, PartialEq, Eq, Structural)]
pub struct DetectorBudget {
    pub max_runtime_ns: u128,
    pub max_findings: usize,
}

impl DetectorBudget {
    /// A budget; both limits must be non-zero.
    pub fn new(max_runtime_ns: u128, max_findings: usize) -> (r: Result<Self, DetectorError>)
        ensures
            max_runtime_ns == 0 ==> r is Err,
            max_runtime_ns != 0 && max_findings == 0 ==> r is Err,
            r is Err ==> r->Err_0 is MalformedInput,
            max_runtime_ns != 0 && max_findings != 0 ==> r == Ok::<DetectorBudget, DetectorError>(
                DetectorBudget { max_runtime_ns, max_findings },
            ),
    {
        if max_runtime_ns == 0 {
            return Err(
                DetectorError::MalformedInput {
                    detail: owned("detector budget max_runtime must be non-zero"),
                },
            );
        }
        if max_findings == 0 {
            return Err(
                DetectorError::MalformedInput {
                    detail: owned("detector budget max_findings must be non-zero"),
                },
            );
        }
        Ok(DetectorBudget { max_runtime_ns, max_findings })
    }

    /// 50 ms (in nanoseconds) and 128 findings.
    pub fn default_budget() -> (r: Self)
        ensures
            r.max_runtime_ns == 50_000_000,
            r.max_findings == 128,
    {
        DetectorBudget { max_runtime_ns: 50_000_000, max_findings: 128 }
    }
}

#[derive(Debug, Clone, PartialEq, Eq, Structural)]
pub struct DetectorRunConfig {
    pub enabled: bool,
    pub budget: DetectorBudget,
}

impl DetectorRunConfig {
    /// Enabled with the default budget.
    pub fn default_config() -> (r: Self)
        ensures
            r.enabled,
            r.budget.max_runtime_ns == 50_000_000,
            r.budget.max_findings == 128,
    {
        DetectorRunConfig { enabled: true, budget: DetectorBudget::default_budget() }
    }
}

#[derive(Debug, Clone, PartialEq, Eq)]
pub struct DetectorRunSummary {
    pub detector_id: String,
    pub status: DetectorRunStatus,
    pub elapsed_ns: u128,
    pub finding_count: usize,
    pub detail: Option<String>,
}

#[derive(Debug, Clone, Default, PartialEq, Eq)]
pub struct DetectorBudgetMetrics {
    pub over_budget_runs: u64,
    pub truncated_findings: u64,
    pub unsupported_runs: u64,
    pub degraded_runs: u64,
}

#[derive(Debug, Clone, Default, PartialEq, Eq)]
pub struct DetectorSchedulerReport {
    pub detections: Vec<DetectionRecord>,
    pub runs: Vec<DetectorRunSummary>,
    pub budget_metrics: DetectorBudgetMetrics,
}

/// Status of a completed run before budget checks.
pub open spec fn outcome_status(o: DetectorOutcome) -> DetectorRunStatus {
    match o {
        DetectorOutcome::Clean => DetectorRunStatus::Clean,
        DetectorOutcome::Findings(_) => DetectorRunStatus::Findings,
        DetectorOutcome::Unsupported { .. } => DetectorRunStatus::Unsupported,
        DetectorOutcome::Degraded { .. } => DetectorRunStatus::Degraded,
    }
}

/// Detail text of a completed run.
pub open spec fn outcome_detail(o: DetectorOutcome) -> Option<String> {
    match o {
        DetectorOutcome::Unsupported { reason } => Some(reason),
        DetectorOutcome::Degraded { reason, .. } => Some(reason),
        _ => None,
    }
}

/// `n` capped at `u64::MAX`.
pub open spec fn saturating(n: int) -> int {
    if n > u64::MAX {
        u64::MAX as int
    } else {
        n
    }
}

/// The findings of a completed run that fit in the budget.
pub open spec fn kept_findings(o: DetectorOutcome, max_findings: usize) -> Seq<DetectionRecord> {
    let found = outcome_findings(o);
    if found.len() > max_findings {
        found.take(max_findings as int)
    } else {
        found
    }
}

/// `s` is the summary, and `chunk` the kept findings, that `record_run`
/// gives for a run of detector `id` under `c` with outcome `o` taking `t`
/// nanoseconds.
pub open spec fn run_recorded(
    s: DetectorRunSummary,
    chunk: Seq<DetectionRecord>,
    id: Seq<char>,
    c: DetectorRunConfig,
    o: Result<DetectorOutcome, DetectorError>,
    t: u128,
) -> bool {
    &&& s.detector_id@ == id
    &&& s.elapsed_ns == t
    &&& match o {
        Err(e) => {
            &&& s.status == DetectorRunStatus::Failed
            &&& s.finding_count == 0
            &&& s.detail matches Some(d) && d@ == e.message_of()
            &&& chunk.len() == 0
        },
        Ok(x) => {
            let over = t > c.budget.max_runtime_ns || outcome_findings(x).len() > c.budget.max_findings;
            &&& s.status == (if over {
                DetectorRunStatus::OverBudget
            } else {
                outcome_status(x)
            })
            &&& s.finding_count == kept_findings(x, c.budget.max_findings).len()
            &&& s.detail == outcome_detail(x)
            &&& chunk == kept_findings(x, c.budget.max_findings)
        },
    }
}

/// An empty scheduler report.
pub fn empty_report() -> (r: DetectorSchedulerReport)
    ensures
        r.detections@.len() == 0,
        r.runs@.len() == 0,
        r.budget_metrics == (DetectorBudgetMetrics {
            over_budget_runs: 0,
            truncated_findings: 0,
            unsupported_runs: 0,
            degraded_runs: 0,
        }),
{
    DetectorSchedulerReport {
        detections: Vec::new(),
        runs: Vec::new(),
        budget_metrics: DetectorBudgetMetrics {
            over_budget_runs: 0,
            truncated_findings: 0,
            unsupported_runs: 0,
            degraded_runs: 0,
        },
    }
}

/// Records a disabled detector in the report.
pub fn record_disabled_run(report: &mut DetectorSchedulerReport, detector_id: String)
    ensures
        final(report).detections == old(report).detections,
        final(report).budget_metrics == old(report).budget_metrics,
        final(report).runs@ == old(report).runs@.push(
            DetectorRunSummary {
                detector_id,
                status: DetectorRunStatus::Disabled,
                elapsed_ns: 0,
                finding_count: 0,
                detail: None,
            },
        ),
{
    report.runs.push(
        DetectorRunSummary {
            detector_id,
            status: DetectorRunStatus::Disabled,
            elapsed_ns: 0,
            finding_count: 0,
            detail: None,
        },
    );
}

/// Records the result of running one enabled detector: findings beyond the
/// budget are truncated and counted, a run over the time budget or with
/// truncated findings is `OverBudget`, unsupported and degraded runs are
/// counted, and a detector error gives a `Failed` run with no findings.
/// `error_text` is the rendered error message used as the run detail.
pub fn record_run(
    report: &mut DetectorSchedulerReport,
    detector_id: String,
    config: &DetectorRunConfig,
    outcome: Result<DetectorOutcome, DetectorError>,
    error_text: String,
    elapsed_ns: u128,
)
    requires
        old(report).budget_metrics.over_budget_runs < u64::MAX,
        old(report).budget_metrics.unsupported_runs < u64::MAX,
        old(report).budget_metrics.degraded_runs < u64::MAX,
    ensures
        match outcome {
            Err(_) => {
                &&& final(report).detections == old(report).detections
                &&& final(report).budget_metrics == old(report).budget_metrics
                &&& final(report).runs@ == old(report).runs@.push(
                    DetectorRunSummary {
                        detector_id,
                        status: DetectorRunStatus::Failed,
                        elapsed_ns,
                        finding_count: 0,
                        detail: Some(error_text),
                    },
                )
            },
            Ok(o) => {
                let found = outcome_findings(o);
                let kept = if found.len() > config.budget.max_findings {
                    found.take(config.budget.max_findings as int)
                } else {
                    found
                };
                let truncated = found.len() > config.budget.max_findings;
                let over_time = elapsed_ns > config.budget.max_runtime_ns;
                let status = if over_time || truncated {
                    DetectorRunStatus::OverBudget
                } else {
                    outcome_status(o)
                };
                &&& final(report).detections@ == old(report).detections@ + kept
                &&& final(report).runs@ == old(report).runs@.push(
                    DetectorRunSummary {
                        detector_id,
                        status,
                        elapsed_ns,
                        finding_count: kept.len() as usize,
                        detail: outcome_detail(o),
                    },
                )
                &&& final(report).budget_metrics.truncated_findings == saturating(
                    old(report).budget_metrics.truncated_findings + (found.len() - kept.len()),
                )
                &&& final(report).budget_metrics.over_budget_runs
                    == old(report).budget_metrics.over_budget_runs + (if over_time {
                    1int
                } else {
                    0int
                })
                &&& final(report).budget_metrics.unsupported_runs
                    == old(report).budget_metrics.unsupported_runs + (if status
                    == DetectorRunStatus::Unsupported {
                    1int
                } else {
                    0int
                })
                &&& final(report).budget_metrics.degraded_runs
                    == old(report).budget_metrics.degraded_runs + (if status
                    == DetectorRunStatus::Degraded {
                    1int
                } else {
                    0int
                })
            },
        },
{
    match outcome {
        Ok(outcome) => {
            let mut status = match &outcome {
                DetectorOutcome::Clean => DetectorRunStatus::Clean,
                DetectorOutcome::Findings(_) => DetectorRunStatus::Findings,
                DetectorOutcome::Unsupported { .. } => DetectorRunStatus::Unsupported,
                DetectorOutcome::Degraded { .. } => DetectorRunStatus::Degraded,
            };
            let detail = match &outcome {
                DetectorOutcome::Unsupported { reason } => Some(reason.clone()),
                DetectorOutcome::Degraded { reason, .. } => Some(reason.clone()),
                _ => None,
            };
            let ghost o = outcome;
            let mut findings = collect_findings(outcome);
            let found_count = findings.len();
            if findings.len() > config.budget.max_findings {
                findings.truncate(config.budget.max_findings);
                report.budget_metrics.truncated_findings = report.budget_metrics.truncated_findings.saturating_add(
                    (found_count - findings.len()) as u64,
                );
                status = DetectorRunStatus::OverBudget;
            }
            if elapsed_ns > config.budget.max_runtime_ns {
                report.budget_metrics.over_budget_runs = report.budget_metrics.over_budget_runs + 1;
                status = DetectorRunStatus::OverBudget;
            }
            if status == DetectorRunStatus::Unsupported {
                report.budget_metrics.unsupported_runs = report.budget_metrics.unsupported_runs + 1;
            }
            if status == DetectorRunStatus::Degraded {
                report.budget_metrics.degraded_runs = report.budget_metrics.degraded_runs + 1;
            }
            let finding_count = findings.len();
            let ghost kept = findings@;
            report.detections.append(&mut findings);
            report.runs.push(
                DetectorRunSummary { detector_id, status, elapsed_ns, finding_count, detail },
            );
            proof {
                assert(kept.len() == finding_count);
            }
        },
        Err(_) => {
            report.runs.push(
                DetectorRunSummary {
                    detector_id,
                    status: DetectorRunStatus::Failed,
                    elapsed_ns,
                    finding_count: 0,
                    detail: Some(error_text),
                },
            );
        },
    }
}

// ---------------------------------------------------------------------------
// The scheduler
// ---------------------------------------------------------------------------

/// A detector that the scheduler runs.
pub trait Detector {
    fn id(&self) -> &'static str;

    fn run(&self, input: &DetectorInput) -> Result<DetectorOutcome, DetectorError>;
}

#[verifier::external_type_specification]
#[verifier::external_body]
pub struct ExInstant(std::time::Instant);

/// `Instant::now`: a reading of the monotonic clock.
#[verifier::external_body]
fn clock_now() -> std::time::Instant {
    std::time::Instant::now()
}

/// `Instant::elapsed`: the time since `started`.
#[verifier::external_body]
fn elapsed_since(started: &std::time::Instant) -> std::time::Duration {
    started.elapsed()
}

/// `Duration::as_nanos`: the whole duration in nanoseconds.
#[verifier::external_body]
fn duration_nanos(d: &std::time::Duration) -> u128 {
    d.as_nanos()
}

/// Detectors with their ids and run configurations, run in the order
/// added.
pub struct DetectorScheduler<D: Detector> {
    detectors: Vec<D>,
    ids: Vec<String>,
    configs: Vec<DetectorRunConfig>,
}

/// The sequences joined end to end.
pub open spec fn concat_all<T>(ch: Seq<Seq<T>>) -> Seq<T>
    decreases ch.len(),
{
    if ch.len() == 0 {
        Seq::empty()
    } else {
        concat_all(ch.drop_last()) + ch.last()
    }
}

impl<D: Detector> DetectorScheduler<D> {
    #[verifier::type_invariant]
    spec fn inv(self) -> bool {
        &&& self.detectors@.len() == self.configs@.len()
        &&& self.ids@.len() == self.configs@.len()
    }

    pub closed spec fn configs(&self) -> Seq<DetectorRunConfig> {
        self.configs@
    }

    /// The detectors' ids, as each reported when it was added.
    pub closed spec fn ids(&self) -> Seq<Seq<char>> {
        self.ids@.map_values(|s: String| s@)
    }

    pub fn new() -> (r: Self)
        ensures
            r.configs().len() == 0,
            r.ids().len() == 0,
    {
        DetectorScheduler { detectors: Vec::new(), ids: Vec::new(), configs: Vec::new() }
    }

    /// Adds a detector, with the id it reports, after those already added.
    pub fn add_detector(&mut self, detector: D, config: DetectorRunConfig)
        ensures
            final(self).configs() == old(self).configs().push(config),
            final(self).ids().len() == old(self).ids().len() + 1,
            final(self).ids().take(old(self).ids().len() as int) == old(self).ids(),
    {
        proof {
            use_type_invariant(&*self);
        }
        let id = owned(detector.id());
        let mut taken = DetectorScheduler { detectors: Vec::new(), ids: Vec::new(), configs: Vec::new() };
        std::mem::swap(&mut taken, self);
        let DetectorScheduler { mut detectors, mut ids, mut configs } = taken;
        let ghost before = ids@;
        detectors.push(detector);
        ids.push(id);
        configs.push(config);
        assert(ids@.map_values(|s: String| s@).take(before.len() as int) =~= before.map_values(|s: String| s@));
        *self = DetectorScheduler { detectors, ids, configs };
    }

    /// Runs each enabled detector on `input` and records every run: a
    /// disabled detector as `Disabled`; an enabled one through
    /// `record_run`, with its outcome, its time and its budget.
    pub fn run(&self, input: &DetectorInput) -> (report: DetectorSchedulerReport)
        ensures
            report.runs@.len() == self.configs().len(),
            forall|i: int| 0 <= i < self.configs().len() ==> (#[trigger] report.runs@[i]).detector_id@ == self.ids()[i],
            exists|ch: Seq<Seq<DetectionRecord>>| {
                &&& ch.len() == self.configs().len()
                &&& report.detections@ == concat_all(ch)
                &&& forall|i: int| 0 <= i < ch.len() ==> (#[trigger] ch[i]).len() == report.runs@[i].finding_count
                &&& forall|i: int|
                    0 <= i < ch.len() && self.configs()[i].enabled ==> exists|
                        o: Result<DetectorOutcome, DetectorError>,
                        t: u128,
                    | #[trigger] run_recorded(report.runs@[i], ch[i], self.ids()[i], self.configs()[i], o, t)
            },
            forall|i: int|
                0 <= i < self.configs().len() ==> (#[trigger] report.runs@[i].status
                    == DetectorRunStatus::Disabled) == !self.configs()[i].enabled,
            forall|i: int|
                0 <= i < self.configs().len() && !self.configs()[i].enabled ==> {
                    &&& (#[trigger] report.runs@[i]).elapsed_ns == 0
                    &&& report.runs@[i].finding_count == 0
                    &&& report.runs@[i].detail is None
                },
            forall|i: int|
                0 <= i < self.configs().len() && self.configs()[i].enabled ==> (#[trigger] report.runs@[i]).finding_count
                    <= self.configs()[i].budget.max_findings,
            report.budget_metrics.over_budget_runs <= self.configs().len(),
            report.budget_metrics.unsupported_runs <= self.configs().len(),
            report.budget_metrics.degraded_runs <= self.configs().len(),
    {
        proof {
            use_type_invariant(self);
        }
        let mut report = empty_report();
        let n = self.configs.len();
        let mut i: usize = 0;
        let ghost mut ch: Seq<Seq<DetectionRecord>> = Seq::empty();
        let ghost mut outs: Seq<Result<DetectorOutcome, DetectorError>> = Seq::empty();
        let ghost mut ts: Seq<u128> = Seq::empty();
        assert(report.detections@ =~= concat_all(ch));
        while i < n
            invariant
                n == self.configs@.len(),
                n == self.detectors@.len(),
                n == self.ids@.len(),
                i <= n,
                report.runs@.len() == i,
                forall|k: int| 0 <= k < i ==> (#[trigger] report.runs@[k]).detector_id@ == self.ids@[k]@,
                ch.len() == i,
                report.detections@ == concat_all(ch),
                forall|k: int| 0 <= k < i ==> (#[trigger] ch[k]).len() == report.runs@[k].finding_count,
                outs.len() == i,
                ts.len() == i,
                forall|k: int|
                    0 <= k < i && self.configs@[k].enabled ==> #[trigger] run_recorded(
                        report.runs@[k],
                        ch[k],
                        self.ids@[k]@,
                        self.configs@[k],
                        outs[k],
                        ts[k],
                    ),
                forall|k: int|
                    0 <= k < i ==> (#[trigger] report.runs@[k].status == DetectorRunStatus::Disabled)
                        == !self.configs@[k].enabled,
                forall|k: int|
                    0 <= k < i && !self.configs@[k].enabled ==> {
                        &&& (#[trigger] report.runs@[k]).elapsed_ns == 0
                        &&& report.runs@[k].finding_count == 0
                        &&& report.runs@[k].detail is None
                    },
                forall|k: int|
                    0 <= k < i && self.configs@[k].enabled ==> (#[trigger] report.runs@[k]).finding_count
                        <= self.configs@[k].budget.max_findings,
                report.budget_metrics.over_budget_runs <= i,
                report.budget_metrics.unsupported_runs <= i,
                report.budget_metrics.degraded_runs <= i,
            decreases n - i,
        {
            let detector = &self.detectors[i];
            let config = &self.configs[i];
            let id = owned(self.ids[i].as_str());
            let ghost before = report.runs@;
            let ghost dets_before = report.detections@;
            let ghost mut o_now: Result<DetectorOutcome, DetectorError> = vstd::pervasive::arbitrary();
            let ghost mut t_now: u128 = 0;
            if !config.enabled {
                record_disabled_run(&mut report, id);
            } else {
                let started = clock_now();
                let outcome = detector.run(input);
                let elapsed = elapsed_since(&started);
                let elapsed_ns = duration_nanos(&elapsed);
                proof {
                    o_now = outcome;
                    t_now = elapsed_ns;
                }
                let error_text = match &outcome {
                    Err(e) => e.message(),
                    Ok(_) => String::new(),
                };
                record_run(&mut report, id, config, outcome, error_text, elapsed_ns);
            }
            proof {
                assert forall|k: int| 0 <= k < i implies report.runs@[k] == before[k] by {}
                let chunk = report.detections@.subrange(dets_before.len() as int, report.detections@.len() as int);
                assert(report.detections@ =~= dets_before + chunk);
                let old_ch = ch;
                let old_outs = outs;
                let old_ts = ts;
                ch = ch.push(chunk);
                outs = outs.push(o_now);
                ts = ts.push(t_now);
                assert(ch.drop_last() =~= old_ch);
                assert forall|k: int|
                    0 <= k < i + 1 && self.configs@[k].enabled implies #[trigger] run_recorded(
                        report.runs@[k],
                        ch[k],
                        self.ids@[k]@,
                        self.configs@[k],
                        outs[k],
                        ts[k],
                    ) by {
                    if k < i {
                        assert(ch[k] == old_ch[k]);
                        assert(outs[k] == old_outs[k]);
                        assert(ts[k] == old_ts[k]);
                    } else {
                        if o_now is Ok {
                            assert(chunk =~= kept_findings(o_now->Ok_0, config.budget.max_findings));
                        }
                    }
                }
                assert forall|k: int| 0 <= k < i + 1 implies (#[trigger] ch[k]).len() == report.runs@[k].finding_count by {
                    if k < i {
                        assert(ch[k] == old_ch[k]);
                    }
                }
            }
            i = i + 1;
        }
        proof {
            assert forall|k: int| 0 <= k < n implies (#[trigger] report.runs@[k]).detector_id@ == self.ids()[k] by {}
            assert forall|k: int|
                0 <= k < ch.len() && self.configs()[k].enabled implies exists|
                    o: Result<DetectorOutcome, DetectorError>,
                    t: u128,
                | #[trigger] run_recorded(report.runs@[k], ch[k], self.ids()[k], self.configs()[k], o, t) by {
                assert(self.ids()[k] == self.ids@[k]@);
                assert(run_recorded(report.runs@[k], ch[k], self.ids()[k], self.configs()[k], outs[k], ts[k]));
            }
        }
        report
    }
}


} // verus!
