//! Detectors over guest memory mappings: anonymous executable memory outside
//! the JIT allowlist, and mappings that are writable and executable at once.
use vstd::prelude::*;
use crate::detectors::jit::JitAllowlist;
use crate::detectors::{
    detection_score, score_detection, AttributionQuality, DetectionKind, DetectionRecord,
    DetectionScore, DetectionSource, DetectorError, ScoreFactors, DETECTION_SCHEMA_VERSION,
};
use crate::event::{IdentityConfidence, Severity};
use crate::text::{hex, owned, push_str, u64_to_hex};

verus! {

#[derive(Debug, Clone, Copy, PartialEq, Eq, Structural)]
pub enum MemoryRegionKind {
    Anonymous,
    FileBacked,
    Jit,
    Stack,
    Unknown,
}

impl MemoryRegionKind {
    pub open spec fn name(self) -> Seq<char> {
        match self {
            MemoryRegionKind::Anonymous => "anonymous"@,
            MemoryRegionKind::FileBacked => "file_backed"@,
            MemoryRegionKind::Jit => "jit"@,
            MemoryRegionKind::Stack => "stack"@,
            MemoryRegionKind::Unknown => "unknown"@,
        }
    }

    pub fn as_str(self) -> (r: &'static str)
        ensures
            r@ == self.name(),
    {
        match self {
            MemoryRegionKind::Anonymous => "anonymous",
            MemoryRegionKind::FileBacked => "file_backed",
            MemoryRegionKind::Jit => "jit",
            MemoryRegionKind::Stack => "stack",
            MemoryRegionKind::Unknown => "unknown",
        }
    }
}

#[derive(Debug, Clone, PartialEq, Eq)]
pub struct MemoryMapping {
    pub vm_id: Option<String>,
    pub process: Option<String>,
    pub module: Option<String>,
    pub start: u64,
    pub end: u64,
    pub readable: bool,
    pub writable: bool,
    pub executable: bool,
    pub kind: MemoryRegionKind,
    pub source: DetectionSource,
}

/// The mapping covers a non-empty range.
pub open spec fn mapping_valid(m: MemoryMapping) -> bool {
    m.start < m.end
}

/// The message for an empty or inverted mapping range.
pub open spec fn invalid_range_message(m: MemoryMapping) -> Seq<char> {
    "memory mapping range 0x"@ + hex(m.start as nat) + "..0x"@ + hex(m.end as nat)
        + " is empty or inverted"@
}

/// Index of the first invalid mapping, if any.
pub open spec fn first_invalid(s: Seq<MemoryMapping>) -> Option<int>
    decreases s.len(),
{
    if s.len() == 0 {
        None
    } else {
        match first_invalid(s.drop_last()) {
            Some(i) => Some(i),
            None => if !mapping_valid(s.last()) {
                Some(s.len() - 1)
            } else {
                None
            },
        }
    }
}

impl MemoryMapping {
    pub fn validate(&self) -> (r: Result<(), DetectorError>)
        ensures
            r is Ok <==> mapping_valid(*self),
            r matches Err(e) ==> (e matches DetectorError::MalformedInput { detail } && detail@
                == invalid_range_message(*self)),
    {
        if self.end <= self.start {
            let mut detail = owned("memory mapping range 0x");
            let a = u64_to_hex(self.start);
            push_str(&mut detail, a.as_str());
            push_str(&mut detail, "..0x");
            let b = u64_to_hex(self.end);
            push_str(&mut detail, b.as_str());
            push_str(&mut detail, " is empty or inverted");
            return Err(DetectorError::MalformedInput { detail });
        }
        Ok(())
    }
}

/// Two optional strings hold the same text.
pub open spec fn same_opt_text(a: Option<String>, b: Option<String>) -> bool {
    match (a, b) {
        (None, None) => true,
        (Some(x), Some(y)) => x@ == y@,
        _ => false,
    }
}

/// How well a mapping is attributed: to a module, a process, or only an address.
pub open spec fn mapping_attribution(m: MemoryMapping) -> AttributionQuality {
    if m.module is Some {
        AttributionQuality::GuestSymbol
    } else if m.process is Some {
        AttributionQuality::GuestProcess
    } else {
        AttributionQuality::GuestAddress
    }
}

/// The scoring factors of a finding on a mapping.
pub open spec fn mapping_factors(m: MemoryMapping, severity: Severity) -> ScoreFactors {
    ScoreFactors {
        base_severity: severity,
        source: m.source.reliability,
        attribution: mapping_attribution(m),
        profile: m.source.profile,
        identity: IdentityConfidence::Medium,
        data_loss: false,
        policy_match: false,
    }
}

/// `r` is the finding that the given detector reports on mapping `m`.
pub open spec fn is_mapping_record(
    r: DetectionRecord,
    detector_id: Seq<char>,
    kind: DetectionKind,
    title: Seq<char>,
    detail: Seq<char>,
    severity: Severity,
    m: MemoryMapping,
) -> bool {
    let score = detection_score(mapping_factors(m, severity));
    &&& r.schema_version == DETECTION_SCHEMA_VERSION
    &&& r.detector_id@ == detector_id
    &&& r.kind == kind
    &&& r.title@ == title
    &&& r.detail@ == detail
    &&& same_opt_text(r.vm_id, m.vm_id)
    &&& same_opt_text(r.entity, m.process)
    &&& same_opt_text(r.symbol, m.module)
    &&& r.range_start == Some(m.start)
    &&& r.range_end == Some(m.end)
    &&& r.source == m.source
    &&& r.severity == score.severity
    &&& r.confidence == score.confidence
    &&& r.tags@.len() == 1
    &&& r.tags@[0]@ == m.kind.name()
}

/// The mapping is anonymous, executable and not allowed by the JIT allowlist.
pub open spec fn exec_anon_selected(m: MemoryMapping, allowlist: JitAllowlist) -> bool {
    m.executable && m.kind == MemoryRegionKind::Anonymous && !allowlist.allows_spec(m)
}

/// The mapping is readable, writable and executable.
pub open spec fn rwx_selected(m: MemoryMapping) -> bool {
    m.readable && m.writable && m.executable
}

/// The mappings that the anonymous-executable detector reports, in order.
pub open spec fn exec_anon_hits(s: Seq<MemoryMapping>, allowlist: JitAllowlist) -> Seq<MemoryMapping>
    decreases s.len(),
{
    if s.len() == 0 {
        Seq::empty()
    } else if exec_anon_selected(s.last(), allowlist) {
        exec_anon_hits(s.drop_last(), allowlist).push(s.last())
    } else {
        exec_anon_hits(s.drop_last(), allowlist)
    }
}

/// The mappings that the RWX detector reports, in order.
pub open spec fn rwx_hits(s: Seq<MemoryMapping>) -> Seq<MemoryMapping>
    decreases s.len(),
{
    if s.len() == 0 {
        Seq::empty()
    } else if rwx_selected(s.last()) {
        rwx_hits(s.drop_last()).push(s.last())
    } else {
        rwx_hits(s.drop_last())
    }
}

/// Detector id, title and detail of the anonymous-executable detector.
pub open spec fn exec_anon_texts() -> (Seq<char>, Seq<char>, Seq<char>) {
    (
        "exec_anon"@,
        "anonymous executable guest mapping"@,
        "anonymous memory is executable and not covered by the JIT allowlist"@,
    )
}

/// Detector id, title and detail of the RWX detector.
pub open spec fn rwx_texts() -> (Seq<char>, Seq<char>, Seq<char>) {
    (
        "rwx_mapping"@,
        "guest mapping is readable, writable, and executable"@,
        "mapping has R, W, and X permissions at the same time"@,
    )
}

proof fn lemma_first_invalid_step(s: Seq<MemoryMapping>, i: int)
    requires
        0 <= i < s.len(),
        first_invalid(s.take(i)) is None,
    ensures
        first_invalid(s.take(i + 1)) == (if mapping_valid(s[i]) {
            None
        } else {
            Some(i)
        }),
{
    assert(s.take(i + 1).drop_last() =~= s.take(i));
}

proof fn lemma_first_invalid_prefix(s: Seq<MemoryMapping>, i: int)
    requires
        0 <= i <= s.len(),
        first_invalid(s.take(i)) matches Some(k),
    ensures
        first_invalid(s) == first_invalid(s.take(i)),
    decreases s.len() - i,
{
    if i < s.len() {
        assert(s.take(i + 1).drop_last() =~= s.take(i));
        lemma_first_invalid_prefix(s, i + 1);
    } else {
        assert(s.take(i) =~= s);
    }
}

pub fn detect_executable_anonymous_mappings(
    mappings: &[MemoryMapping],
    allowlist: &JitAllowlist,
) -> (r: Result<Vec<DetectionRecord>, DetectorError>)
    ensures
        r is Err <==> first_invalid(mappings@) is Some,
        r matches Err(e) ==> (first_invalid(mappings@) matches Some(i) && e matches DetectorError::MalformedInput { detail }
            && detail@ == invalid_range_message(mappings@[i])),
        r matches Ok(out) ==> out@.len() == exec_anon_hits(mappings@, *allowlist).len() && forall|k: int|
            0 <= k < out@.len() ==> is_mapping_record(
                #[trigger] out@[k],
                exec_anon_texts().0,
                DetectionKind::ExecutableAnonymousMemory,
                exec_anon_texts().1,
                exec_anon_texts().2,
                Severity::Medium,
                exec_anon_hits(mappings@, *allowlist)[k],
            ),
{
    let mut out: Vec<DetectionRecord> = Vec::new();
    let mut i: usize = 0;
    while i < mappings.len()
        invariant
            i <= mappings@.len(),
            first_invalid(mappings@.take(i as int)) is None,
            out@.len() == exec_anon_hits(mappings@.take(i as int), *allowlist).len(),
            forall|k: int|
                0 <= k < out@.len() ==> is_mapping_record(
                    #[trigger] out@[k],
                    exec_anon_texts().0,
                    DetectionKind::ExecutableAnonymousMemory,
                    exec_anon_texts().1,
                    exec_anon_texts().2,
                    Severity::Medium,
                    exec_anon_hits(mappings@.take(i as int), *allowlist)[k],
                ),
        decreases mappings@.len() - i,
    {
        let mapping = &mappings[i];
        proof {
            lemma_first_invalid_step(mappings@, i as int);
            assert(mappings@.take(i as int + 1).drop_last() =~= mappings@.take(i as int));
            assert(mappings@.take(i as int + 1).last() == mappings@[i as int]);
        }
        match mapping.validate() {
            Err(e) => {
                proof {
                    lemma_first_invalid_prefix(mappings@, i as int + 1);
                }
                return Err(e);
            },
            Ok(()) => {},
        }
        let selected = mapping.executable && mapping.kind == MemoryRegionKind::Anonymous
            && !allowlist.allows(mapping);
        if selected {
            let rec = mapping_record(
                "exec_anon",
                DetectionKind::ExecutableAnonymousMemory,
                "anonymous executable guest mapping",
                "anonymous memory is executable and not covered by the JIT allowlist",
                Severity::Medium,
                mapping,
            );
            out.push(rec);
        }
        i = i + 1;
    }
    proof {
        assert(mappings@.take(mappings@.len() as int) =~= mappings@);
    }
    Ok(out)
}

pub fn detect_rwx_mappings(mappings: &[MemoryMapping]) -> (r: Result<
    Vec<DetectionRecord>,
    DetectorError,
>)
    ensures
        r is Err <==> first_invalid(mappings@) is Some,
        r matches Err(e) ==> (first_invalid(mappings@) matches Some(i) && e matches DetectorError::MalformedInput { detail }
            && detail@ == invalid_range_message(mappings@[i])),
        r matches Ok(out) ==> out@.len() == rwx_hits(mappings@).len() && forall|k: int|
            0 <= k < out@.len() ==> is_mapping_record(
                #[trigger] out@[k],
                rwx_texts().0,
                DetectionKind::RwxMapping,
                rwx_texts().1,
                rwx_texts().2,
                Severity::High,
                rwx_hits(mappings@)[k],
            ),
{
    let mut out: Vec<DetectionRecord> = Vec::new();
    let mut i: usize = 0;
    while i < mappings.len()
        invariant
            i <= mappings@.len(),
            first_invalid(mappings@.take(i as int)) is None,
            out@.len() == rwx_hits(mappings@.take(i as int)).len(),
            forall|k: int|
                0 <= k < out@.len() ==> is_mapping_record(
                    #[trigger] out@[k],
                    rwx_texts().0,
                    DetectionKind::RwxMapping,
                    rwx_texts().1,
                    rwx_texts().2,
                    Severity::High,
                    rwx_hits(mappings@.take(i as int))[k],
                ),
        decreases mappings@.len() - i,
    {
        let mapping = &mappings[i];
        proof {
            lemma_first_invalid_step(mappings@, i as int);
            assert(mappings@.take(i as int + 1).drop_last() =~= mappings@.take(i as int));
            assert(mappings@.take(i as int + 1).last() == mappings@[i as int]);
        }
        match mapping.validate() {
            Err(e) => {
                proof {
                    lemma_first_invalid_prefix(mappings@, i as int + 1);
                }
                return Err(e);
            },
            Ok(()) => {},
        }
        if mapping.readable && mapping.writable && mapping.executable {
            let rec = mapping_record(
                "rwx_mapping",
                DetectionKind::RwxMapping,
                "guest mapping is readable, writable, and executable",
                "mapping has R, W, and X permissions at the same time",
                Severity::High,
                mapping,
            );
            out.push(rec);
        }
        i = i + 1;
    }
    proof {
        assert(mappings@.take(mappings@.len() as int) =~= mappings@);
    }
    Ok(out)
}

/// The finding for one mapping.
fn mapping_record(
    detector_id: &str,
    kind: DetectionKind,
    title: &str,
    detail: &str,
    severity: Severity,
    mapping: &MemoryMapping,
) -> (r: DetectionRecord)
    ensures
        is_mapping_record(r, detector_id@, kind, title@, detail@, severity, *mapping),
{
    let attribution = if mapping.module.is_some() {
        AttributionQuality::GuestSymbol
    } else if mapping.process.is_some() {
        AttributionQuality::GuestProcess
    } else {
        AttributionQuality::GuestAddress
    };
    let score: DetectionScore = score_detection(
        ScoreFactors {
            base_severity: severity,
            source: mapping.source.reliability,
            attribution,
            profile: mapping.source.profile,
            identity: IdentityConfidence::Medium,
            data_loss: false,
            policy_match: false,
        },
    );
    let mut record = DetectionRecord::new(
        detector_id,
        kind,
        title,
        detail,
        mapping.source.duplicate(),
        score,
    ).with_range(mapping.start, mapping.end).with_tag(mapping.kind.as_str());
    match &mapping.vm_id {
        Some(vm_id) => {
            record = record.with_vm_id(vm_id.as_str());
        },
        None => {},
    }
    match &mapping.process {
        Some(process) => {
            record = record.with_entity(process.as_str());
        },
        None => {},
    }
    match &mapping.module {
        Some(module) => {
            record = record.with_symbol(module.as_str());
        },
        None => {},
    }
    record
}

} // verus!
