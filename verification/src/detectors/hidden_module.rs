//! Hidden kernel modules: modules that a memory walk finds but the guest OS
//! does not list.
use vstd::prelude::*;
use crate::detectors::{
    detection_score, score_detection, unsupported_error, AttributionQuality, DetectionKind,
    DetectionRecord, DetectionSource, DetectorError, ScoreFactors, DETECTION_SCHEMA_VERSION,
};
use crate::event::{IdentityConfidence, Severity};
use crate::text::{hex, owned, push_str, str_eq, u64_to_hex};

verus! {

#[derive(Debug, Clone, PartialEq, Eq)]
pub struct ModuleKey {
    pub name: String,
    pub base: u64,
}

#[derive(Debug, Clone, PartialEq, Eq)]
pub struct ModuleInventory {
    pub source: DetectionSource,
    pub supported: bool,
    pub modules: Vec<ModuleKey>,
}

/// The module (same name, same base) is in the list.
pub open spec fn module_listed(k: ModuleKey, list: Seq<ModuleKey>) -> bool {
    exists|j: int| 0 <= j < list.len() && (#[trigger] list[j]).name@ == k.name@ && list[j].base == k.base
}

/// The modules of `s` that `os` does not list, in order.
pub open spec fn hidden_modules(s: Seq<ModuleKey>, os: Seq<ModuleKey>) -> Seq<ModuleKey>
    decreases s.len(),
{
    if s.len() == 0 {
        Seq::empty()
    } else if !module_listed(s.last(), os) {
        hidden_modules(s.drop_last(), os).push(s.last())
    } else {
        hidden_modules(s.drop_last(), os)
    }
}

/// The detail line of a hidden-module finding.
pub open spec fn hidden_module_detail(k: ModuleKey) -> Seq<char> {
    "module '"@ + k.name@ + "' at 0x"@ + hex(k.base as nat) + " is absent from OS module inventory"@
}

/// `r` is the finding for hidden module `k`.
pub open spec fn is_hidden_module_record(
    r: DetectionRecord,
    k: ModuleKey,
    source: DetectionSource,
    vm_id: Option<&str>,
) -> bool {
    let score = detection_score(
        ScoreFactors {
            base_severity: Severity::High,
            source: source.reliability,
            attribution: AttributionQuality::GuestSymbol,
            profile: source.profile,
            identity: IdentityConfidence::Medium,
            data_loss: false,
            policy_match: false,
        },
    );
    &&& r.schema_version == DETECTION_SCHEMA_VERSION
    &&& r.detector_id@ == "hidden_module"@
    &&& r.kind == DetectionKind::HiddenModule
    &&& r.title@ == "module present in memory inventory but missing from OS inventory"@
    &&& r.detail@ == hidden_module_detail(k)
    &&& r.entity matches Some(e) && e@ == k.name@
    &&& r.range_start == Some(k.base)
    &&& r.range_end == Some(k.base)
    &&& r.symbol is None
    &&& r.source == source
    &&& r.severity == score.severity
    &&& r.confidence == score.confidence
    &&& r.tags@.len() == 1
    &&& r.tags@[0]@ == "inventory_mismatch"@
    &&& match vm_id {
        Some(v) => r.vm_id matches Some(x) && x@ == v@,
        None => r.vm_id is None,
    }
}

fn module_listed_exec(k: &ModuleKey, list: &Vec<ModuleKey>) -> (r: bool)
    ensures
        r == module_listed(*k, list@),
{
    let mut j: usize = 0;
    while j < list.len()
        invariant
            j <= list@.len(),
            forall|i: int|
                0 <= i < j ==> !((#[trigger] list@[i]).name@ == k.name@ && list@[i].base == k.base),
        decreases list@.len() - j,
    {
        if list[j].base == k.base && str_eq(list[j].name.as_str(), k.name.as_str()) {
            return true;
        }
        j = j + 1;
    }
    false
}

pub fn detect_hidden_modules(
    memory_inventory: &ModuleInventory,
    os_inventory: &ModuleInventory,
    vm_id: Option<&str>,
) -> (r: Result<Vec<DetectionRecord>, DetectorError>)
    ensures
        !memory_inventory.supported ==> (r matches Err(DetectorError::Unsupported { detector, detail })
            && detector@ == "hidden_module"@ && detail@ == "memory module inventory is unsupported"@),
        memory_inventory.supported && !os_inventory.supported ==> (r matches Err(
            DetectorError::Unsupported { detector, detail },
        ) && detector@ == "hidden_module"@ && detail@ == "OS module inventory is unsupported"@),
        r is Ok <==> memory_inventory.supported && os_inventory.supported,
        r matches Ok(out) ==> {
            let hits = hidden_modules(memory_inventory.modules@, os_inventory.modules@);
            &&& out@.len() == hits.len()
            &&& forall|k: int|
                0 <= k < out@.len() ==> is_hidden_module_record(
                    #[trigger] out@[k],
                    hits[k],
                    memory_inventory.source,
                    vm_id,
                )
        },
{
    if !memory_inventory.supported {
        return Err(unsupported_error("hidden_module", "memory module inventory is unsupported"));
    }
    if !os_inventory.supported {
        return Err(unsupported_error("hidden_module", "OS module inventory is unsupported"));
    }
    let mods = &memory_inventory.modules;
    let mut out: Vec<DetectionRecord> = Vec::new();
    let mut i: usize = 0;
    while i < mods.len()
        invariant
            i <= mods@.len(),
            out@.len() == hidden_modules(mods@.take(i as int), os_inventory.modules@).len(),
            forall|k: int|
                0 <= k < out@.len() ==> is_hidden_module_record(
                    #[trigger] out@[k],
                    hidden_modules(mods@.take(i as int), os_inventory.modules@)[k],
                    memory_inventory.source,
                    vm_id,
                ),
        decreases mods@.len() - i,
    {
        let module = &mods[i];
        proof {
            assert(mods@.take(i as int + 1).drop_last() =~= mods@.take(i as int));
            assert(mods@.take(i as int + 1).last() == mods@[i as int]);
        }
        if !module_listed_exec(module, &os_inventory.modules) {
            let score = score_detection(
                ScoreFactors {
                    base_severity: Severity::High,
                    source: memory_inventory.source.reliability,
                    attribution: AttributionQuality::GuestSymbol,
                    profile: memory_inventory.source.profile,
                    identity: IdentityConfidence::Medium,
                    data_loss: false,
                    policy_match: false,
                },
            );
            let mut detail = owned("module '");
            push_str(&mut detail, module.name.as_str());
            push_str(&mut detail, "' at 0x");
            let h = u64_to_hex(module.base);
            push_str(&mut detail, h.as_str());
            push_str(&mut detail, " is absent from OS module inventory");
            let mut record = DetectionRecord::new(
                "hidden_module",
                DetectionKind::HiddenModule,
                "module present in memory inventory but missing from OS inventory",
                detail.as_str(),
                memory_inventory.source.duplicate(),
                score,
            ).with_entity(module.name.as_str()).with_range(module.base, module.base).with_tag(
                "inventory_mismatch",
            );
            match vm_id {
                Some(v) => {
                    record = record.with_vm_id(v);
                },
                None => {},
            }
            out.push(record);
        }
        i = i + 1;
    }
    proof {
        assert(mods@.take(mods@.len() as int) =~= mods@);
    }
    Ok(out)
}

} // verus!
