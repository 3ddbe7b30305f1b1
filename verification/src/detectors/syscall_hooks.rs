//! System call hooks: one finding per distinct drift of the syscall table or
//! of the syscall entry point, in sorted order.
use vstd::prelude::*;
use crate::detectors::{
    detection_score, score_detection, unsupported_error, AttributionQuality, DetectionKind,
    DetectionRecord, DetectionSource, DetectorError, ScoreFactors, DETECTION_SCHEMA_VERSION,
};
use crate::event::{IdentityConfidence, Severity};
use crate::linux_syscall::{LinuxLstarReport, LinuxSyscallTableReport};
use crate::windows_reports::{WindowsLstarReport, WindowsSsdtReport};
use crate::order::{insert_sorted, str_views, strictly_sorted};
use crate::text::{owned, push_str};

verus! {

/// `r` is the syscall-hook finding of `os` with the given detail.
pub open spec fn is_syscall_record(
    r: DetectionRecord,
    os: Seq<char>,
    detail: Seq<char>,
    source: DetectionSource,
    vm_id: Option<&str>,
) -> bool {
    let score = detection_score(
        ScoreFactors {
            base_severity: Severity::High,
            source: source.reliability,
            attribution: AttributionQuality::GuestSymbol,
            profile: source.profile,
            identity: IdentityConfidence::Medium,
            data_loss: false,
            policy_match: false,
        },
    );
    &&& r.schema_version == DETECTION_SCHEMA_VERSION
    &&& r.detector_id@ == "syscall_hook"@
    &&& r.kind == DetectionKind::SyscallHook
    &&& r.title@ == os + " syscall path drift"@
    &&& r.detail@ == detail
    &&& r.entity is None
    &&& r.symbol is None
    &&& r.range_start is None
    &&& r.range_end is None
    &&& r.source == source
    &&& r.severity == score.severity
    &&& r.confidence == score.confidence
    &&& r.tags@.len() == 2
    &&& r.tags@[0]@ == os
    &&& r.tags@[1]@ == "syscall"@
    &&& match vm_id {
        Some(v) => r.vm_id matches Some(x) && x@ == v@,
        None => r.vm_id is None,
    }
}

pub fn linux_syscall_hook_findings(
    table: &LinuxSyscallTableReport,
    lstar: &LinuxLstarReport,
    source: DetectionSource,
    vm_id: Option<&str>,
) -> (r: Result<Vec<DetectionRecord>, DetectorError>)
    ensures
        table.entries@.len() == 0 ==> (r matches Err(DetectorError::Unsupported { detector, detail })
            && detector@ == "syscall_hook"@ && detail@ == "Linux syscall table report has no entries"@),
        r is Ok <==> table.entries@.len() > 0,
        r matches Ok(out) ==> exists|details: Seq<Seq<char>>|
            {
                &&& strictly_sorted(details)
                &&& details.to_set() == str_views(lstar.findings@).to_set() + str_views(
                    table.findings@,
                ).to_set()
                &&& out@.len() == details.len()
                &&& forall|k: int|
                    0 <= k < out@.len() ==> is_syscall_record(
                        #[trigger] out@[k],
                        "linux"@,
                        details[k],
                        source,
                        vm_id,
                    )
            },
{
    if table.entries.len() == 0 {
        return Err(unsupported_error("syscall_hook", "Linux syscall table report has no entries"));
    }
    let mut details: Vec<String> = Vec::new();
    add_all(&mut details, &lstar.findings);
    proof {
        assert(str_views(Seq::<String>::empty()).to_set() =~= Set::empty());
    }
    add_all(&mut details, &table.findings);
    proof {
        assert(str_views(details@).to_set() =~= str_views(lstar.findings@).to_set() + str_views(
            table.findings@,
        ).to_set());
    }
    let mut out: Vec<DetectionRecord> = Vec::new();
    let mut i: usize = 0;
    while i < details.len()
        invariant
            i <= details@.len(),
            out@.len() == i,
            forall|k: int|
                0 <= k < i ==> is_syscall_record(
                    #[trigger] out@[k],
                    "linux"@,
                    str_views(details@)[k],
                    source,
                    vm_id,
                ),
        decreases details@.len() - i,
    {
        let rec = syscall_record("linux", details[i].as_str(), source.duplicate(), vm_id);
        out.push(rec);
        i = i + 1;
    }
    Ok(out)
}

pub fn windows_syscall_hook_findings(
    ssdt: &WindowsSsdtReport,
    lstar: &WindowsLstarReport,
    source: DetectionSource,
    vm_id: Option<&str>,
) -> (r: Result<Vec<DetectionRecord>, DetectorError>)
    ensures
        ssdt.entries@.len() == 0 && ssdt.findings@.len() == 0 ==> (r matches Err(
            DetectorError::Unsupported { detector, detail },
        ) && detector@ == "syscall_hook"@ && detail@ == "Windows SSDT report has no entries or findings"@),
        r is Ok <==> (ssdt.entries@.len() > 0 || ssdt.findings@.len() > 0),
        r matches Ok(out) ==> exists|details: Seq<Seq<char>>|
            {
                &&& strictly_sorted(details)
                &&& details.to_set() == str_views(lstar.findings@).to_set() + str_views(
                    ssdt.findings@,
                ).to_set()
                &&& out@.len() == details.len()
                &&& forall|k: int|
                    0 <= k < out@.len() ==> is_syscall_record(
                        #[trigger] out@[k],
                        "windows"@,
                        details[k],
                        source,
                        vm_id,
                    )
            },
{
    if ssdt.entries.len() == 0 && ssdt.findings.len() == 0 {
        return Err(unsupported_error("syscall_hook", "Windows SSDT report has no entries or findings"));
    }
    let mut details: Vec<String> = Vec::new();
    add_all(&mut details, &lstar.findings);
    proof {
        assert(str_views(Seq::<String>::empty()).to_set() =~= Set::empty());
    }
    add_all(&mut details, &ssdt.findings);
    proof {
        assert(str_views(details@).to_set() =~= str_views(lstar.findings@).to_set() + str_views(
            ssdt.findings@,
        ).to_set());
    }
    let mut out: Vec<DetectionRecord> = Vec::new();
    let mut i: usize = 0;
    while i < details.len()
        invariant
            i <= details@.len(),
            out@.len() == i,
            forall|k: int|
                0 <= k < i ==> is_syscall_record(
                    #[trigger] out@[k],
                    "windows"@,
                    str_views(details@)[k],
                    source,
                    vm_id,
                ),
        decreases details@.len() - i,
    {
        let rec = syscall_record("windows", details[i].as_str(), source.duplicate(), vm_id);
        out.push(rec);
        i = i + 1;
    }
    Ok(out)
}

/// Adds every string of `items` to the sorted set `set`.
fn add_all(set: &mut Vec<String>, items: &Vec<String>)
    requires
        strictly_sorted(str_views(old(set)@)),
    ensures
        strictly_sorted(str_views(final(set)@)),
        str_views(final(set)@).to_set() == str_views(old(set)@).to_set() + str_views(items@).to_set(),
{
    let mut i: usize = 0;
    while i < items.len()
        invariant
            i <= items@.len(),
            strictly_sorted(str_views(set@)),
            str_views(set@).to_set() == str_views(old(set)@).to_set() + str_views(
                items@.take(i as int),
            ).to_set(),
        decreases items@.len() - i,
    {
        let s = items[i].clone();
        insert_sorted(set, s);
        proof {
            assert(str_views(items@.take(i as int + 1)) =~= str_views(items@.take(i as int)).push(
                items@[i as int]@,
            ));
            str_views(items@.take(i as int)).lemma_push_to_set_commute(items@[i as int]@);
            assert(str_views(items@.take(i as int + 1)).to_set() =~= str_views(
                items@.take(i as int),
            ).to_set().insert(items@[i as int]@));
        }
        i = i + 1;
    }
    proof {
        assert(items@.take(items@.len() as int) =~= items@);
    }
}

/// The finding of `os` for one drift.
fn syscall_record(os: &str, detail: &str, source: DetectionSource, vm_id: Option<&str>) -> (r:
    DetectionRecord)
    ensures
        is_syscall_record(r, os@, detail@, source, vm_id),
{
    let score = score_detection(
        ScoreFactors {
            base_severity: Severity::High,
            source: source.reliability,
            attribution: AttributionQuality::GuestSymbol,
            profile: source.profile,
            identity: IdentityConfidence::Medium,
            data_loss: false,
            policy_match: false,
        },
    );
    let mut title = owned(os);
    push_str(&mut title, " syscall path drift");
    let mut record = DetectionRecord::new(
        "syscall_hook",
        DetectionKind::SyscallHook,
        title.as_str(),
        detail,
        source,
        score,
    ).with_tag(os).with_tag("syscall");
    match vm_id {
        Some(v) => {
            record = record.with_vm_id(v);
        },
        None => {},
    }
    record
}

} // verus!
