//! Kernel text tampering: findings for text ranges whose hash does not match
//! (or has no) known-good baseline.
use vstd::prelude::*;
use crate::detectors::{
    detection_score, score_detection, unsupported_error, AttributionQuality, DetectionKind,
    DetectionRecord, DetectionScore, DetectionSource, DetectorError, ProfileConfidence,
    ScoreFactors, SourceReliability, DETECTION_SCHEMA_VERSION,
};
use crate::event::{IdentityConfidence, Severity};
use crate::linux_integrity::{LinuxIntegrityReport, LinuxTextHashResult, LinuxTextHashStatus};
use crate::windows_reports::{WindowsIntegrityReport, WindowsTextHashResult, WindowsTextHashStatus};
use crate::text::{owned, push_str};

verus! {

/// Base severity of a text range by hash status.
pub open spec fn status_severity(s: LinuxTextHashStatus) -> Severity {
    match s {
        LinuxTextHashStatus::Mismatch => Severity::High,
        LinuxTextHashStatus::UnknownBaseline => Severity::Medium,
        LinuxTextHashStatus::Match => Severity::Info,
    }
}

/// The scoring factors of a text finding.
pub open spec fn text_factors(base: Severity, source: DetectionSource) -> ScoreFactors {
    ScoreFactors {
        base_severity: base,
        source: source.reliability,
        attribution: AttributionQuality::GuestSymbol,
        profile: source.profile,
        identity: IdentityConfidence::Medium,
        data_loss: false,
        policy_match: false,
    }
}

/// The text results that are not a match, in order.
pub open spec fn drifted(s: Seq<LinuxTextHashResult>) -> Seq<LinuxTextHashResult>
    decreases s.len(),
{
    if s.len() == 0 {
        Seq::empty()
    } else if s.last().status != LinuxTextHashStatus::Match {
        drifted(s.drop_last()).push(s.last())
    } else {
        drifted(s.drop_last())
    }
}

/// `r` is the finding for the drifted Linux text range `t`.
pub open spec fn is_linux_text_record(
    r: DetectionRecord,
    t: LinuxTextHashResult,
    source: DetectionSource,
    vm_id: Option<&str>,
) -> bool {
    let score = detection_score(text_factors(status_severity(t.status), source));
    &&& r.schema_version == DETECTION_SCHEMA_VERSION
    &&& r.detector_id@ == "kernel_text_tamper"@
    &&& r.kind == DetectionKind::KernelTextTamper
    &&& r.title@ == "linux"@ + " kernel text hash drift"@
    &&& r.detail@ == "linux text range '"@ + t.owner@ + "' hash status is "@ + t.status.name()
    &&& r.entity matches Some(e) && e@ == t.owner@
    &&& r.range_start == Some(t.start)
    &&& r.range_end == Some(t.end)
    &&& r.symbol is None
    &&& r.source == source
    &&& r.severity == score.severity
    &&& r.confidence == score.confidence
    &&& r.tags@.len() == 2
    &&& r.tags@[0]@ == "linux"@
    &&& r.tags@[1]@ == "text_hash"@
    &&& match vm_id {
        Some(v) => r.vm_id matches Some(x) && x@ == v@,
        None => r.vm_id is None,
    }
}

pub fn linux_kernel_text_findings(
    report: &LinuxIntegrityReport,
    source: DetectionSource,
    vm_id: Option<&str>,
) -> (r: Result<Vec<DetectionRecord>, DetectorError>)
    ensures
        report.results@.len() == 0 ==> (r matches Err(DetectorError::Unsupported { detector, detail })
            && detector@ == "kernel_text_tamper"@ && detail@
            == "Linux kernel text report has no hash results"@),
        r is Ok <==> report.results@.len() > 0,
        r matches Ok(out) ==> {
            let hits = drifted(report.results@);
            &&& out@.len() == hits.len()
            &&& forall|k: int|
                0 <= k < out@.len() ==> is_linux_text_record(#[trigger] out@[k], hits[k], source, vm_id)
        },
{
    if report.results.len() == 0 {
        return Err(
            unsupported_error("kernel_text_tamper", "Linux kernel text report has no hash results"),
        );
    }
    let results = &report.results;
    let mut out: Vec<DetectionRecord> = Vec::new();
    let mut i: usize = 0;
    while i < results.len()
        invariant
            i <= results@.len(),
            out@.len() == drifted(results@.take(i as int)).len(),
            forall|k: int|
                0 <= k < out@.len() ==> is_linux_text_record(
                    #[trigger] out@[k],
                    drifted(results@.take(i as int))[k],
                    source,
                    vm_id,
                ),
        decreases results@.len() - i,
    {
        let result = &results[i];
        proof {
            assert(results@.take(i as int + 1).drop_last() =~= results@.take(i as int));
            assert(results@.take(i as int + 1).last() == results@[i as int]);
        }
        if result.status != LinuxTextHashStatus::Match {
            let base = match result.status {
                LinuxTextHashStatus::Mismatch => Severity::High,
                LinuxTextHashStatus::UnknownBaseline => Severity::Medium,
                LinuxTextHashStatus::Match => Severity::Info,
            };
            let mut detail = owned("linux text range '");
            push_str(&mut detail, result.owner.as_str());
            push_str(&mut detail, "' hash status is ");
            push_str(&mut detail, result.status.as_str());
            let rec = text_record(
                "linux",
                result.owner.as_str(),
                result.start,
                result.end,
                detail,
                base,
                vm_id,
                source.duplicate(),
            );
            out.push(rec);
        }
        i = i + 1;
    }
    proof {
        assert(results@.take(results@.len() as int) =~= results@);
    }
    Ok(out)
}

/// Base severity of a Windows text range by hash status.
pub open spec fn windows_status_severity(s: WindowsTextHashStatus) -> Severity {
    match s {
        WindowsTextHashStatus::Mismatch => Severity::High,
        WindowsTextHashStatus::UnknownBaseline => Severity::Medium,
        WindowsTextHashStatus::Match => Severity::Info,
    }
}

/// The Windows text results that are not a match, in order.
pub open spec fn windows_drifted(s: Seq<WindowsTextHashResult>) -> Seq<WindowsTextHashResult>
    decreases s.len(),
{
    if s.len() == 0 {
        Seq::empty()
    } else if s.last().status != WindowsTextHashStatus::Match {
        windows_drifted(s.drop_last()).push(s.last())
    } else {
        windows_drifted(s.drop_last())
    }
}

/// `r` is the finding for the drifted Windows text range `t`.
pub open spec fn is_windows_text_record(
    r: DetectionRecord,
    t: WindowsTextHashResult,
    source: DetectionSource,
    vm_id: Option<&str>,
) -> bool {
    let score = detection_score(text_factors(windows_status_severity(t.status), source));
    &&& r.schema_version == DETECTION_SCHEMA_VERSION
    &&& r.detector_id@ == "kernel_text_tamper"@
    &&& r.kind == DetectionKind::KernelTextTamper
    &&& r.title@ == "windows"@ + " kernel text hash drift"@
    &&& r.detail@ == "windows text range '"@ + t.owner@ + "' hash status is "@ + t.status.name()
    &&& r.entity matches Some(e) && e@ == t.owner@
    &&& r.range_start == Some(t.start)
    &&& r.range_end == Some(t.end)
    &&& r.symbol is None
    &&& r.source == source
    &&& r.severity == score.severity
    &&& r.confidence == score.confidence
    &&& r.tags@.len() == 2
    &&& r.tags@[0]@ == "windows"@
    &&& r.tags@[1]@ == "text_hash"@
    &&& match vm_id {
        Some(v) => r.vm_id matches Some(x) && x@ == v@,
        None => r.vm_id is None,
    }
}

pub fn windows_kernel_text_findings(
    report: &WindowsIntegrityReport,
    source: DetectionSource,
    vm_id: Option<&str>,
) -> (r: Result<Vec<DetectionRecord>, DetectorError>)
    ensures
        report.results@.len() == 0 ==> (r matches Err(DetectorError::Unsupported { detector, detail })
            && detector@ == "kernel_text_tamper"@ && detail@
            == "Windows kernel text report has no hash results"@),
        r is Ok <==> report.results@.len() > 0,
        r matches Ok(out) ==> {
            let hits = windows_drifted(report.results@);
            &&& out@.len() == hits.len()
            &&& forall|k: int|
                0 <= k < out@.len() ==> is_windows_text_record(#[trigger] out@[k], hits[k], source, vm_id)
        },
{
    if report.results.len() == 0 {
        return Err(
            unsupported_error("kernel_text_tamper", "Windows kernel text report has no hash results"),
        );
    }
    let results = &report.results;
    let mut out: Vec<DetectionRecord> = Vec::new();
    let mut i: usize = 0;
    while i < results.len()
        invariant
            i <= results@.len(),
            out@.len() == windows_drifted(results@.take(i as int)).len(),
            forall|k: int|
                0 <= k < out@.len() ==> is_windows_text_record(
                    #[trigger] out@[k],
                    windows_drifted(results@.take(i as int))[k],
                    source,
                    vm_id,
                ),
        decreases results@.len() - i,
    {
        let result = &results[i];
        proof {
            assert(results@.take(i as int + 1).drop_last() =~= results@.take(i as int));
            assert(results@.take(i as int + 1).last() == results@[i as int]);
        }
        if result.status != WindowsTextHashStatus::Match {
            let base = match result.status {
                WindowsTextHashStatus::Mismatch => Severity::High,
                WindowsTextHashStatus::UnknownBaseline => Severity::Medium,
                WindowsTextHashStatus::Match => Severity::Info,
            };
            let mut detail = owned("windows text range '");
            push_str(&mut detail, result.owner.as_str());
            push_str(&mut detail, "' hash status is ");
            push_str(&mut detail, result.status.as_str());
            let rec = text_record(
                "windows",
                result.owner.as_str(),
                result.start,
                result.end,
                detail,
                base,
                vm_id,
                source.duplicate(),
            );
            out.push(rec);
        }
        i = i + 1;
    }
    proof {
        assert(results@.take(results@.len() as int) =~= results@);
    }
    Ok(out)
}

/// The finding for one drifted text range of `os`.
fn text_record(
    os: &str,
    owner: &str,
    start: u64,
    end: u64,
    detail: String,
    base_severity: Severity,
    vm_id: Option<&str>,
    source: DetectionSource,
) -> (r: DetectionRecord)
    ensures
        ({
            let score = detection_score(text_factors(base_severity, source));
            &&& r.schema_version == DETECTION_SCHEMA_VERSION
            &&& r.detector_id@ == "kernel_text_tamper"@
            &&& r.kind == DetectionKind::KernelTextTamper
            &&& r.title@ == os@ + " kernel text hash drift"@
            &&& r.detail@ == detail@
            &&& r.entity matches Some(e) && e@ == owner@
            &&& r.range_start == Some(start)
            &&& r.range_end == Some(end)
            &&& r.symbol is None
            &&& r.source == source
            &&& r.severity == score.severity
            &&& r.confidence == score.confidence
            &&& r.tags@.len() == 2
            &&& r.tags@[0]@ == os@
            &&& r.tags@[1]@ == "text_hash"@
            &&& match vm_id {
                Some(v) => r.vm_id matches Some(x) && x@ == v@,
                None => r.vm_id is None,
            }
        }),
{
    let score = text_score(base_severity, &source);
    let mut title = owned(os);
    push_str(&mut title, " kernel text hash drift");
    let mut record = DetectionRecord::new(
        "kernel_text_tamper",
        DetectionKind::KernelTextTamper,
        title.as_str(),
        detail.as_str(),
        source,
        score,
    ).with_entity(owner).with_range(start, end).with_tag(os).with_tag("text_hash");
    match vm_id {
        Some(v) => {
            record = record.with_vm_id(v);
        },
        None => {},
    }
    record
}

fn text_score(base_severity: Severity, source: &DetectionSource) -> (r: DetectionScore)
    ensures
        r == detection_score(text_factors(base_severity, *source)),
{
    score_detection(
        ScoreFactors {
            base_severity,
            source: source.reliability,
            attribution: AttributionQuality::GuestSymbol,
            profile: source.profile,
            identity: IdentityConfidence::Medium,
            data_loss: false,
            policy_match: false,
        },
    )
}

/// A source for findings from an offline snapshot.
pub fn offline_source(name: &str, profile: ProfileConfidence) -> (r: DetectionSource)
    ensures
        r.name@ == name@,
        r.reliability == SourceReliability::OfflineSnapshot,
        r.profile == profile,
{
    DetectionSource::new(name, SourceReliability::OfflineSnapshot, profile)
}

} // verus!
