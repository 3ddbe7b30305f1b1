//! Incident correlation: per VM, the aggregated detections that together
//! show W^X correlation, a syscall hook and kernel text tampering.
use vstd::prelude::*;
use crate::detectors::dedupe::AggregatedDetection;
use crate::detectors::DetectionKind;
use crate::event::Severity;
use crate::order::{insert_sorted, str_views, strictly_sorted};
use crate::text::{cat3, dec, owned, push_str, str_eq, u64_to_dec};

verus! {

#[derive(Debug, Clone, Copy, PartialEq, Eq, Structural)]
pub enum IncidentStatus {
    Open,
    Updated,
}

impl IncidentStatus {
    pub open spec fn name(self) -> Seq<char> {
        match self {
            IncidentStatus::Open => "open"@,
            IncidentStatus::Updated => "updated"@,
        }
    }

    pub fn as_str(self) -> (r: &'static str)
        ensures
            r@ == self.name(),
    {
        match self {
            IncidentStatus::Open => "open",
            IncidentStatus::Updated => "updated",
        }
    }
}

#[derive(Debug, Clone, PartialEq, Eq)]
pub struct IncidentRecord {
    pub incident_id: String,
    pub vm_id: String,
    pub status: IncidentStatus,
    pub severity: Severity,
    pub first_seen_ms: u64,
    pub last_seen_ms: u64,
    pub detection_count: u64,
    pub kinds: Vec<DetectionKind>,
    pub summary: String,
}

pub struct IncidentView {
    pub incident_id: Seq<char>,
    pub vm_id: Seq<char>,
    pub status: IncidentStatus,
    pub severity: Severity,
    pub first_seen_ms: u64,
    pub last_seen_ms: u64,
    pub detection_count: int,
    pub kinds: Seq<DetectionKind>,
    pub summary: Seq<char>,
}

impl View for IncidentRecord {
    type V = IncidentView;

    open spec fn view(&self) -> IncidentView {
        IncidentView {
            incident_id: self.incident_id@,
            vm_id: self.vm_id@,
            status: self.status,
            severity: self.severity,
            first_seen_ms: self.first_seen_ms,
            last_seen_ms: self.last_seen_ms,
            detection_count: self.detection_count as int,
            kinds: self.kinds@,
            summary: self.summary@,
        }
    }
}

/// The VM a detection belongs to.
pub open spec fn vm_of(d: AggregatedDetection) -> Option<Seq<char>> {
    match d.key.vm_id {
        Some(v) => Some(v@),
        None => None,
    }
}

/// Whether a detection belongs to VM `v`.
pub open spec fn on_vm(d: AggregatedDetection, v: Seq<char>) -> bool {
    vm_of(d) == Some(v)
}

/// How many of `ds` belong to `v`.
pub open spec fn item_count(ds: Seq<AggregatedDetection>, v: Seq<char>) -> nat
    decreases ds.len(),
{
    if ds.len() == 0 {
        0
    } else {
        item_count(ds.drop_last(), v) + if on_vm(ds.last(), v) {
            1nat
        } else {
            0nat
        }
    }
}

/// The earliest first sighting among the detections of `v`.
pub open spec fn first_min(ds: Seq<AggregatedDetection>, v: Seq<char>) -> Option<u64>
    decreases ds.len(),
{
    if ds.len() == 0 {
        None
    } else {
        let p = first_min(ds.drop_last(), v);
        let d = ds.last();
        if !on_vm(d, v) {
            p
        } else {
            match p {
                Some(x) => Some(if d.first_seen_ms < x {
                    d.first_seen_ms
                } else {
                    x
                }),
                None => Some(d.first_seen_ms),
            }
        }
    }
}

/// The latest last sighting among the detections of `v`.
pub open spec fn last_max(ds: Seq<AggregatedDetection>, v: Seq<char>) -> Option<u64>
    decreases ds.len(),
{
    if ds.len() == 0 {
        None
    } else {
        let p = last_max(ds.drop_last(), v);
        let d = ds.last();
        if !on_vm(d, v) {
            p
        } else {
            match p {
                Some(x) => Some(if d.last_seen_ms > x {
                    d.last_seen_ms
                } else {
                    x
                }),
                None => Some(d.last_seen_ms),
            }
        }
    }
}

/// The total count of the detections of `v`.
pub open spec fn count_sum(ds: Seq<AggregatedDetection>, v: Seq<char>) -> int
    decreases ds.len(),
{
    if ds.len() == 0 {
        0
    } else {
        count_sum(ds.drop_last(), v) + if on_vm(ds.last(), v) {
            ds.last().count as int
        } else {
            0
        }
    }
}

/// The highest severity among the latest records of the detections of `v`.
pub open spec fn severity_max(ds: Seq<AggregatedDetection>, v: Seq<char>) -> Option<Severity>
    decreases ds.len(),
{
    if ds.len() == 0 {
        None
    } else {
        let p = severity_max(ds.drop_last(), v);
        let d = ds.last();
        if !on_vm(d, v) {
            p
        } else {
            match p {
                Some(s) => Some(
                    if d.latest.severity.spec_rank() >= s.spec_rank() {
                        d.latest.severity
                    } else {
                        s
                    },
                ),
                None => Some(d.latest.severity),
            }
        }
    }
}

/// Whether a detection of `v` is of kind `k`.
pub open spec fn has_kind(ds: Seq<AggregatedDetection>, v: Seq<char>, k: DetectionKind) -> bool {
    exists|i: int| 0 <= i < ds.len() && on_vm(#[trigger] ds[i], v) && ds[i].kind == k
}

/// Every kind, in the order of their declaration.
pub open spec fn all_kinds() -> Seq<DetectionKind> {
    seq![
        DetectionKind::KernelTextTamper,
        DetectionKind::SyscallHook,
        DetectionKind::HiddenProcess,
        DetectionKind::HiddenModule,
        DetectionKind::ExecutableAnonymousMemory,
        DetectionKind::RwxMapping,
        DetectionKind::WxCorrelation,
        DetectionKind::PmuAnomaly,
    ]
}

/// The kinds among the first `n` of `all_kinds()` that `v` has, in order.
pub open spec fn kinds_upto(ds: Seq<AggregatedDetection>, v: Seq<char>, n: int) -> Seq<DetectionKind>
    decreases n,
{
    if n <= 0 {
        Seq::empty()
    } else {
        let p = kinds_upto(ds, v, n - 1);
        if has_kind(ds, v, all_kinds()[n - 1]) {
            p.push(all_kinds()[n - 1])
        } else {
            p
        }
    }
}

/// The distinct kinds of the detections of `v`, in declaration order.
pub open spec fn kinds_of(ds: Seq<AggregatedDetection>, v: Seq<char>) -> Seq<DetectionKind> {
    kinds_upto(ds, v, 8)
}

/// W^X correlation, a syscall hook and kernel text tampering together.
pub open spec fn has_core_chain(ds: Seq<AggregatedDetection>, v: Seq<char>) -> bool {
    &&& has_kind(ds, v, DetectionKind::WxCorrelation)
    &&& has_kind(ds, v, DetectionKind::SyscallHook)
    &&& has_kind(ds, v, DetectionKind::KernelTextTamper)
}

/// The incident of VM `v`.
pub open spec fn incident_for(ds: Seq<AggregatedDetection>, v: Seq<char>) -> IncidentView {
    let first = first_min(ds, v)->0;
    let count = count_sum(ds, v);
    let kinds = kinds_of(ds, v);
    IncidentView {
        incident_id: "incident:"@ + v + ":"@ + dec(first as nat) + ":wx-syscall-text"@,
        vm_id: v,
        status: if count > kinds.len() {
            IncidentStatus::Updated
        } else {
            IncidentStatus::Open
        },
        severity: severity_max(ds, v)->0,
        first_seen_ms: first,
        last_seen_ms: last_max(ds, v)->0,
        detection_count: count,
        kinds,
        summary: "VM "@ + v + " has W^X correlation, syscall hook evidence, and kernel text hash drift"@,
    }
}

/// Whether some detection belongs to `v`.
pub open spec fn is_vm(ds: Seq<AggregatedDetection>, v: Seq<char>) -> bool {
    exists|i: int| 0 <= i < ds.len() && on_vm(#[trigger] ds[i], v)
}

/// The detection counts of every VM with the core chain fit in 64 bits.
pub open spec fn counts_fit(ds: Seq<AggregatedDetection>) -> bool {
    forall|v: Seq<char>| is_vm(ds, v) && has_core_chain(ds, v) ==> #[trigger] count_sum(ds, v) <= u64::MAX
}

proof fn lemma_prefix_step(ds: Seq<AggregatedDetection>, i: int)
    requires
        0 <= i < ds.len(),
    ensures
        ds.take(i + 1).drop_last() == ds.take(i),
        ds.take(i + 1).last() == ds[i],
{
    assert(ds.take(i + 1).drop_last() =~= ds.take(i));
}

proof fn lemma_has_kind_step(ds: Seq<AggregatedDetection>, i: int, v: Seq<char>, k: DetectionKind)
    requires
        0 <= i < ds.len(),
    ensures
        has_kind(ds.take(i + 1), v, k) == (has_kind(ds.take(i), v, k) || (on_vm(ds[i], v) && ds[i].kind == k)),
{
    let a = ds.take(i + 1);
    let b = ds.take(i);
    if has_kind(a, v, k) {
        let j = choose|j: int| 0 <= j < a.len() && on_vm(#[trigger] a[j], v) && a[j].kind == k;
        if j < i {
            assert(b[j] == a[j]);
        }
    }
    if has_kind(b, v, k) {
        let j = choose|j: int| 0 <= j < b.len() && on_vm(#[trigger] b[j], v) && b[j].kind == k;
        assert(a[j] == b[j]);
    }
    if on_vm(ds[i], v) && ds[i].kind == k {
        assert(a[i] == ds[i]);
    }
}

proof fn lemma_count_bounded(ds: Seq<AggregatedDetection>, v: Seq<char>)
    ensures
        count_sum(ds, v) >= 0,
        item_count(ds, v) > 0 ==> first_min(ds, v) is Some && last_max(ds, v) is Some && severity_max(ds, v) is Some,
        item_count(ds, v) == 0 ==> first_min(ds, v) is None && last_max(ds, v) is None && severity_max(ds, v) is None
            && count_sum(ds, v) == 0,
        item_count(ds, v) > 0 <==> is_vm(ds, v),
    decreases ds.len(),
{
    if ds.len() > 0 {
        let p = ds.drop_last();
        lemma_count_bounded(p, v);
        if is_vm(ds, v) && !on_vm(ds.last(), v) {
            let j = choose|j: int| 0 <= j < ds.len() && on_vm(#[trigger] ds[j], v);
            assert(j < ds.len() - 1);
            assert(p[j] == ds[j]);
        }
        if is_vm(p, v) {
            let j = choose|j: int| 0 <= j < p.len() && on_vm(#[trigger] p[j], v);
            assert(ds[j] == p[j]);
        }
        if on_vm(ds.last(), v) {
            assert(ds[ds.len() - 1] == ds.last());
        }
    }
}

/// Per VM with the core chain, one incident: the earliest first sighting,
/// the latest last sighting, the summed detection count, the highest
/// severity and the distinct kinds; `Updated` when the count exceeds the
/// number of kinds. Incidents come in ascending order of VM id.
pub fn correlate_incidents(detections: &[AggregatedDetection]) -> (out: Vec<IncidentRecord>)
    requires
        counts_fit(detections@),
    ensures
        strictly_sorted(out@.map_values(|r: IncidentRecord| r.vm_id@)),
        forall|i: int|
            0 <= i < out@.len() ==> is_vm(detections@, (#[trigger] out@[i]).vm_id@) && has_core_chain(
                detections@,
                out@[i].vm_id@,
            ) && out@[i]@ == incident_for(detections@, out@[i].vm_id@),
        forall|v: Seq<char>|
            is_vm(detections@, v) && has_core_chain(detections@, v) ==> exists|i: int|
                0 <= i < out@.len() && (#[trigger] out@[i]).vm_id@ == v,
{
    let ghost ds = detections@;
    // The VM ids, sorted and without repeats.
    let mut vms: Vec<String> = Vec::new();
    let mut i: usize = 0;
    while i < detections.len()
        invariant
            ds == detections@,
            i <= ds.len(),
            strictly_sorted(str_views(vms@)),
            forall|v: Seq<char>| str_views(vms@).contains(v) <==> is_vm(ds.take(i as int), v),
        decreases ds.len() - i,
    {
        let ghost before = str_views(vms@);
        match &detections[i].key.vm_id {
            Some(v) => {
                insert_sorted(&mut vms, owned(v.as_str()));
            },
            None => {},
        }
        proof {
            assert forall|v: Seq<char>| str_views(vms@).contains(v) <==> is_vm(ds.take(i + 1), v) by {
                let a = ds.take(i + 1);
                let b = ds.take(i as int);
                assert(str_views(vms@).contains(v) <==> str_views(vms@).to_set().contains(v));
                assert(before.contains(v) <==> before.to_set().contains(v));
                if is_vm(a, v) {
                    let j = choose|j: int| 0 <= j < a.len() && on_vm(#[trigger] a[j], v);
                    if j < i {
                        assert(b[j] == a[j]);
                    } else {
                        assert(a[j] == ds[i as int]);
                    }
                }
                if is_vm(b, v) {
                    let j = choose|j: int| 0 <= j < b.len() && on_vm(#[trigger] b[j], v);
                    assert(a[j] == b[j]);
                }
                if on_vm(ds[i as int], v) {
                    assert(a[i as int] == ds[i as int]);
                }
            }
        }
        i = i + 1;
    }
    assert(ds.take(ds.len() as int) =~= ds);
    let mut out: Vec<IncidentRecord> = Vec::new();
    let ghost mut idx: Seq<int> = Seq::empty();
    let mut k: usize = 0;
    while k < vms.len()
        invariant
            ds == detections@,
            counts_fit(ds),
            k <= vms@.len(),
            strictly_sorted(str_views(vms@)),
            forall|v: Seq<char>| str_views(vms@).contains(v) <==> is_vm(ds, v),
            idx.len() == out@.len(),
            forall|j: int| 0 <= j < idx.len() ==> 0 <= #[trigger] idx[j] < k && out@[j].vm_id@ == vms@[idx[j]]@,
            forall|j1: int, j2: int| 0 <= j1 < j2 < idx.len() ==> #[trigger] idx[j1] < #[trigger] idx[j2],
            forall|j: int|
                0 <= j < out@.len() ==> has_core_chain(ds, (#[trigger] out@[j]).vm_id@) && out@[j]@ == incident_for(
                    ds,
                    out@[j].vm_id@,
                ),
            forall|t: int|
                0 <= t < k && has_core_chain(ds, #[trigger] vms@[t]@) ==> exists|j: int|
                    0 <= j < idx.len() && #[trigger] idx[j] == t,
        decreases vms@.len() - k,
    {
        let ghost v = vms@[k as int]@;
        assert(str_views(vms@)[k as int] == v);
        assert(is_vm(ds, v));
        match incident_of(detections, vms[k].as_str()) {
            Some(rec) => {
                let ghost before = idx;
                out.push(rec);
                proof {
                    idx = idx.push(k as int);
                    assert forall|t: int| 0 <= t < k + 1 && has_core_chain(ds, #[trigger] vms@[t]@) implies exists|j: int|
                        0 <= j < idx.len() && #[trigger] idx[j] == t by {
                        if t < k {
                            let j = choose|j: int| 0 <= j < before.len() && #[trigger] before[j] == t;
                            assert(idx[j] == before[j]);
                        } else {
                            assert(idx[idx.len() - 1] == t);
                        }
                    }
                }
            },
            None => {},
        }
        k = k + 1;
    }
    proof {
        let names = out@.map_values(|r: IncidentRecord| r.vm_id@);
        assert forall|a: int, b: int| 0 <= a < b < names.len() implies crate::order::seq_lt(#[trigger] names[a], #[trigger] names[b]) by {
            assert(idx[a] < idx[b]);
            assert(str_views(vms@)[idx[a]] == vms@[idx[a]]@);
            assert(str_views(vms@)[idx[b]] == vms@[idx[b]]@);
        }
        assert forall|i: int| 0 <= i < out@.len() implies is_vm(ds, (#[trigger] out@[i]).vm_id@) by {
            assert(str_views(vms@)[idx[i]] == out@[i].vm_id@);
            assert(str_views(vms@).contains(out@[i].vm_id@));
        }
        assert forall|v: Seq<char>| is_vm(ds, v) && has_core_chain(ds, v) implies exists|i: int|
            0 <= i < out@.len() && (#[trigger] out@[i]).vm_id@ == v by {
            assert(str_views(vms@).contains(v));
            let t = choose|t: int| 0 <= t < str_views(vms@).len() && str_views(vms@)[t] == v;
            assert(vms@[t]@ == v);
            let j = choose|j: int| 0 <= j < idx.len() && #[trigger] idx[j] == t;
            assert(out@[j].vm_id@ == v);
        }
    }
    out
}

/// The incident of VM `v`, when it has the core chain.
fn incident_of(detections: &[AggregatedDetection], v: &str) -> (r: Option<IncidentRecord>)
    requires
        is_vm(detections@, v@),
        counts_fit(detections@),
    ensures
        match r {
            Some(rec) => has_core_chain(detections@, v@) && rec@ == incident_for(detections@, v@),
            None => !has_core_chain(detections@, v@),
        },
{
    let ghost ds = detections@;
    let mut present: Vec<bool> = vec![false, false, false, false, false, false, false, false];
    let mut first: u64 = 0;
    let mut last: u64 = 0;
    let mut sum: u64 = 0;
    let mut sev = Severity::Info;
    let mut seen = false;
    let mut i: usize = 0;
    proof {
        lemma_count_bounded(ds, v@);
    }
    while i < detections.len()
        invariant
            ds == detections@,
            i <= ds.len(),
            present@.len() == 8,
            forall|o: int| 0 <= o < 8 ==> #[trigger] present@[o] == has_kind(ds.take(i as int), v@, all_kinds()[o]),
            seen == (item_count(ds.take(i as int), v@) > 0),
            seen ==> first_min(ds.take(i as int), v@) == Some(first),
            seen ==> last_max(ds.take(i as int), v@) == Some(last),
            seen ==> severity_max(ds.take(i as int), v@) == Some(sev),
            count_sum(ds.take(i as int), v@) == sum as int || count_sum(ds.take(i as int), v@) > u64::MAX,
            !seen ==> count_sum(ds.take(i as int), v@) == 0,
        decreases ds.len() - i,
    {
        let d = &detections[i];
        proof {
            lemma_prefix_step(ds, i as int);
            lemma_count_bounded(ds.take(i as int), v@);
        }
        let matches = match &d.key.vm_id {
            Some(x) => str_eq(x.as_str(), v),
            None => false,
        };
        assert(matches == on_vm(ds[i as int], v@));
        if matches {
            let o = d.kind.ordinal_exec() as usize;
            present.set(o, true);
            if !seen {
                first = d.first_seen_ms;
                last = d.last_seen_ms;
                sev = d.latest.severity;
                seen = true;
            } else {
                if d.first_seen_ms < first {
                    first = d.first_seen_ms;
                }
                if d.last_seen_ms > last {
                    last = d.last_seen_ms;
                }
                if d.latest.severity.rank() >= sev.rank() {
                    sev = d.latest.severity;
                }
            }
            sum = sum.saturating_add(d.count);
        }
        proof {
            assert forall|o: int| 0 <= o < 8 implies #[trigger] present@[o] == has_kind(ds.take(i + 1), v@, all_kinds()[o]) by {
                lemma_has_kind_step(ds, i as int, v@, all_kinds()[o]);
                if matches && o == ds[i as int].kind.ordinal() {
                    assert(all_kinds()[o] == ds[i as int].kind);
                }
                if matches && ds[i as int].kind == all_kinds()[o] {
                    assert(o == ds[i as int].kind.ordinal());
                }
            }
        }
        i = i + 1;
    }
    assert(ds.take(ds.len() as int) =~= ds);
    let wx = present[6];
    let hook = present[1];
    let text = present[0];
    assert(all_kinds()[6] == DetectionKind::WxCorrelation);
    assert(all_kinds()[1] == DetectionKind::SyscallHook);
    assert(all_kinds()[0] == DetectionKind::KernelTextTamper);
    if !(wx && hook && text) {
        return None;
    }
    assert(count_sum(ds, v@) <= u64::MAX);
    let mut kinds: Vec<DetectionKind> = Vec::new();
    let all: Vec<DetectionKind> = vec![
        DetectionKind::KernelTextTamper,
        DetectionKind::SyscallHook,
        DetectionKind::HiddenProcess,
        DetectionKind::HiddenModule,
        DetectionKind::ExecutableAnonymousMemory,
        DetectionKind::RwxMapping,
        DetectionKind::WxCorrelation,
        DetectionKind::PmuAnomaly,
    ];
    assert(all@ =~= all_kinds());
    let mut o: usize = 0;
    while o < 8
        invariant
            o <= 8,
            all@ == all_kinds(),
            present@.len() == 8,
            forall|x: int| 0 <= x < 8 ==> #[trigger] present@[x] == has_kind(ds, v@, all_kinds()[x]),
            kinds@ == kinds_upto(ds, v@, o as int),
        decreases 8 - o,
    {
        if present[o] {
            kinds.push(all[o]);
        }
        o = o + 1;
    }
    let f = u64_to_dec(first);
    let mut id = cat3("incident:", v, ":");
    push_str(&mut id, f.as_str());
    push_str(&mut id, ":wx-syscall-text");
    let status = if sum > kinds.len() as u64 {
        IncidentStatus::Updated
    } else {
        IncidentStatus::Open
    };
    let summary = cat3("VM ", v, " has W^X correlation, syscall hook evidence, and kernel text hash drift");
    Some(
        IncidentRecord {
            incident_id: id,
            vm_id: owned(v),
            status,
            severity: sev,
            first_seen_ms: first,
            last_seen_ms: last,
            detection_count: sum,
            kinds,
            summary,
        },
    )
}

} // verus!
