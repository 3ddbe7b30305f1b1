//! Hidden processes: processes that a memory walk finds but the guest OS
//! does not list.
use vstd::prelude::*;
use crate::detectors::{
    detection_score, score_detection, unsupported_error, AttributionQuality, DetectionKind,
    DetectionRecord, DetectionSource, DetectorError, ScoreFactors, DETECTION_SCHEMA_VERSION,
};
use crate::event::{IdentityConfidence, Severity};
use crate::text::{dec, owned, push_str, str_eq, u64_to_dec};

verus! {

#[derive(Debug, Clone, PartialEq, Eq)]
pub struct ProcessKey {
    pub pid: u64,
    pub image: String,
}

#[derive(Debug, Clone, PartialEq, Eq)]
pub struct ProcessInventory {
    pub source: DetectionSource,
    pub supported: bool,
    pub processes: Vec<ProcessKey>,
}

/// The process (same pid, same image) is in the list.
pub open spec fn process_listed(k: ProcessKey, list: Seq<ProcessKey>) -> bool {
    exists|j: int| 0 <= j < list.len() && (#[trigger] list[j]).image@ == k.image@ && list[j].pid == k.pid
}

/// The processes of `s` that `os` does not list, in order.
pub open spec fn hidden_processes(s: Seq<ProcessKey>, os: Seq<ProcessKey>) -> Seq<ProcessKey>
    decreases s.len(),
{
    if s.len() == 0 {
        Seq::empty()
    } else if !process_listed(s.last(), os) {
        hidden_processes(s.drop_last(), os).push(s.last())
    } else {
        hidden_processes(s.drop_last(), os)
    }
}

/// The detail line of a hidden-process finding.
pub open spec fn hidden_process_detail(k: ProcessKey) -> Seq<char> {
    "pid "@ + dec(k.pid as nat) + " image '"@ + k.image@ + "' is absent from OS process inventory"@
}

/// The entity of a hidden-process finding: `pid:image`.
pub open spec fn process_entity(k: ProcessKey) -> Seq<char> {
    dec(k.pid as nat) + ":"@ + k.image@
}

/// `r` is the finding for hidden process `k`.
pub open spec fn is_hidden_process_record(
    r: DetectionRecord,
    k: ProcessKey,
    source: DetectionSource,
    vm_id: Option<&str>,
) -> bool {
    let score = detection_score(
        ScoreFactors {
            base_severity: Severity::High,
            source: source.reliability,
            attribution: AttributionQuality::GuestProcess,
            profile: source.profile,
            identity: IdentityConfidence::Medium,
            data_loss: false,
            policy_match: false,
        },
    );
    &&& r.schema_version == DETECTION_SCHEMA_VERSION
    &&& r.detector_id@ == "hidden_process"@
    &&& r.kind == DetectionKind::HiddenProcess
    &&& r.title@ == "process present in memory inventory but missing from OS inventory"@
    &&& r.detail@ == hidden_process_detail(k)
    &&& r.entity matches Some(e) && e@ == process_entity(k)
    &&& r.range_start is None
    &&& r.range_end is None
    &&& r.symbol is None
    &&& r.source == source
    &&& r.severity == score.severity
    &&& r.confidence == score.confidence
    &&& r.tags@.len() == 1
    &&& r.tags@[0]@ == "inventory_mismatch"@
    &&& match vm_id {
        Some(v) => r.vm_id matches Some(x) && x@ == v@,
        None => r.vm_id is None,
    }
}

fn process_listed_exec(k: &ProcessKey, list: &Vec<ProcessKey>) -> (r: bool)
    ensures
        r == process_listed(*k, list@),
{
    let mut j: usize = 0;
    while j < list.len()
        invariant
            j <= list@.len(),
            forall|i: int|
                0 <= i < j ==> !((#[trigger] list@[i]).image@ == k.image@ && list@[i].pid == k.pid),
        decreases list@.len() - j,
    {
        if list[j].pid == k.pid && str_eq(list[j].image.as_str(), k.image.as_str()) {
            return true;
        }
        j = j + 1;
    }
    false
}

pub fn detect_hidden_processes(
    memory_inventory: &ProcessInventory,
    os_inventory: &ProcessInventory,
    vm_id: Option<&str>,
) -> (r: Result<Vec<DetectionRecord>, DetectorError>)
    ensures
        !memory_inventory.supported ==> (r matches Err(DetectorError::Unsupported { detector, detail })
            && detector@ == "hidden_process"@ && detail@ == "memory process inventory is unsupported"@),
        memory_inventory.supported && !os_inventory.supported ==> (r matches Err(
            DetectorError::Unsupported { detector, detail },
        ) && detector@ == "hidden_process"@ && detail@ == "OS process inventory is unsupported"@),
        r is Ok <==> memory_inventory.supported && os_inventory.supported,
        r matches Ok(out) ==> {
            let hits = hidden_processes(memory_inventory.processes@, os_inventory.processes@);
            &&& out@.len() == hits.len()
            &&& forall|k: int|
                0 <= k < out@.len() ==> is_hidden_process_record(
                    #[trigger] out@[k],
                    hits[k],
                    memory_inventory.source,
                    vm_id,
                )
        },
{
    if !memory_inventory.supported {
        return Err(unsupported_error("hidden_process", "memory process inventory is unsupported"));
    }
    if !os_inventory.supported {
        return Err(unsupported_error("hidden_process", "OS process inventory is unsupported"));
    }
    let procs = &memory_inventory.processes;
    let mut out: Vec<DetectionRecord> = Vec::new();
    let mut i: usize = 0;
    while i < procs.len()
        invariant
            i <= procs@.len(),
            out@.len() == hidden_processes(procs@.take(i as int), os_inventory.processes@).len(),
            forall|k: int|
                0 <= k < out@.len() ==> is_hidden_process_record(
                    #[trigger] out@[k],
                    hidden_processes(procs@.take(i as int), os_inventory.processes@)[k],
                    memory_inventory.source,
                    vm_id,
                ),
        decreases procs@.len() - i,
    {
        let process = &procs[i];
        proof {
            assert(procs@.take(i as int + 1).drop_last() =~= procs@.take(i as int));
            assert(procs@.take(i as int + 1).last() == procs@[i as int]);
        }
        if !process_listed_exec(process, &os_inventory.processes) {
            let score = score_detection(
                ScoreFactors {
                    base_severity: Severity::High,
                    source: memory_inventory.source.reliability,
                    attribution: AttributionQuality::GuestProcess,
                    profile: memory_inventory.source.profile,
                    identity: IdentityConfidence::Medium,
                    data_loss: false,
                    policy_match: false,
                },
            );
            let pid = u64_to_dec(process.pid);
            let mut detail = owned("pid ");
            push_str(&mut detail, pid.as_str());
            push_str(&mut detail, " image '");
            push_str(&mut detail, process.image.as_str());
            push_str(&mut detail, "' is absent from OS process inventory");
            let mut entity = u64_to_dec(process.pid);
            push_str(&mut entity, ":");
            push_str(&mut entity, process.image.as_str());
            let mut record = DetectionRecord::new(
                "hidden_process",
                DetectionKind::HiddenProcess,
                "process present in memory inventory but missing from OS inventory",
                detail.as_str(),
                memory_inventory.source.duplicate(),
                score,
            ).with_entity(entity.as_str()).with_tag("inventory_mismatch");
            match vm_id {
                Some(v) => {
                    record = record.with_vm_id(v);
                },
                None => {},
            }
            out.push(record);
        }
        i = i + 1;
    }
    proof {
        assert(procs@.take(procs@.len() as int) =~= procs@);
    }
    Ok(out)
}

} // verus!
