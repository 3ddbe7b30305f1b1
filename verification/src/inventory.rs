//! The libvirt inventory as a snapshot: one entry per domain, with its host
//! tasks, vCPU mappings, QMP presence and how far its identity is trusted.
use vstd::prelude::*;
use crate::event::IdentityConfidence;
use crate::identity::{
    with_source, LibvirtDomainSource, VmInventorySnapshot, VmInventoryVcpuMapping, VmInventoryVm,
    IDENTITY_SOURCE_AMBIGUOUS, IDENTITY_SOURCE_QMP_SOCKET_HINT,
    contains_i32, first_versioned, has_task, HostTaskIdentity, LibvirtDomain, QemuVcpuThread,
    VmInventoryHostTask,
};
use crate::resolver::thread_tids;
use crate::order::{compare_str, lemma_order_antisym, lemma_order_eq, lemma_order_trans, seq_order};
use crate::identity::{domain_has_task, LibvirtDomainDiscovery, VmInventoryConflict, VmInventoryQmp, push_identity_source};
use crate::event::IdentityInfo;
use crate::text::{owned, views};

verus! {

// ---------------------------------------------------------------------------
// Host tasks of a domain
// ---------------------------------------------------------------------------

/// The order of the kinds of host task entries (`pid`, `task`, `tid`).
pub open spec fn kind_rank(k: Seq<char>) -> int {
    if k == "pid"@ {
        0
    } else if k == "task"@ {
        1
    } else {
        2
    }
}

/// An entry of a host task list, as plain values: kind, id, start time.
pub open spec fn task_view(e: VmInventoryHostTask) -> (Seq<char>, i32, Option<u64>) {
    (e.kind@, e.id, e.start_time_ticks)
}

/// The entries of a host task list, as plain values.
pub open spec fn task_views(v: Seq<VmInventoryHostTask>) -> Seq<(Seq<char>, i32, Option<u64>)> {
    v.map_values(|e: VmInventoryHostTask| task_view(e))
}

/// Entry `a` comes before entry `b`: by id, then by kind.
pub open spec fn task_before(a: (Seq<char>, i32, Option<u64>), b: (Seq<char>, i32, Option<u64>)) -> bool {
    a.1 < b.1 || (a.1 == b.1 && kind_rank(a.0) < kind_rank(b.0))
}

/// The entries are in strictly increasing order of id and kind.
pub open spec fn tasks_sorted(s: Seq<(Seq<char>, i32, Option<u64>)>) -> bool {
    forall|a: int, b: int| 0 <= a < b < s.len() ==> task_before(#[trigger] s[a], #[trigger] s[b])
}

/// The list holds an entry of kind `kind` for task `id`.
pub open spec fn has_entry(s: Seq<(Seq<char>, i32, Option<u64>)>, kind: Seq<char>, id: i32) -> bool {
    exists|a: int| 0 <= a < s.len() && (#[trigger] s[a]).0 == kind && s[a].1 == id
}

/// Task `t` runs as a QEMU thread of `d` (a listed tid or vCPU thread).
pub open spec fn runs_tid(d: LibvirtDomain, t: i32) -> bool {
    d.qemu_tids@.contains(t) || thread_tids(d.vcpu_threads@).contains(t)
}

/// Index `k` holds the first identity of its task.
pub open spec fn first_identity_at(ids: Seq<HostTaskIdentity>, k: int) -> bool {
    0 <= k < ids.len() && forall|j: int| 0 <= j < k ==> (#[trigger] ids[j]).task_id != ids[k].task_id
}

/// The identity at `k` is of a task that is neither a pid nor a thread of
/// `d`.
pub open spec fn identity_only(d: LibvirtDomain, k: int) -> bool {
    let t = d.qemu_task_identities@[k].task_id;
    !d.qemu_pids@.contains(t) && !runs_tid(d, t)
}

/// The entry `e` belongs in the host task list of `d`: a pid or a thread
/// with the first recorded start time of its task, or a task known only by
/// its identities with the start time of the first of them.
pub open spec fn expected_task(d: LibvirtDomain, e: (Seq<char>, i32, Option<u64>)) -> bool {
    let ids = d.qemu_task_identities@;
    ||| e.0 == "pid"@ && d.qemu_pids@.contains(e.1) && e.2 == first_versioned(ids, e.1)
    ||| e.0 == "tid"@ && runs_tid(d, e.1) && e.2 == first_versioned(ids, e.1)
    ||| e.0 == "task"@ && exists|k: int| #[trigger] first_identity_at(ids, k) && identity_only(d, k)
        && ids[k].task_id == e.1 && e.2 == ids[k].start_time_ticks
}

/// `s` is the host task list of `d`: every entry belongs, every pid, thread
/// and identity-only task has its entry, and the entries are sorted.
pub open spec fn host_tasks_of(s: Seq<(Seq<char>, i32, Option<u64>)>, d: LibvirtDomain) -> bool {
    &&& forall|a: int| 0 <= a < s.len() ==> expected_task(d, #[trigger] s[a])
    &&& tasks_sorted(s)
    &&& forall|p: i32| #[trigger] d.qemu_pids@.contains(p) ==> has_entry(s, "pid"@, p)
    &&& forall|t: i32| #[trigger] runs_tid(d, t) ==> has_entry(s, "tid"@, t)
    &&& forall|k: int| 0 <= k < d.qemu_task_identities@.len() && #[trigger] identity_only(d, k) ==> has_entry(
        s,
        "task"@,
        d.qemu_task_identities@[k].task_id,
    )
}

/// Every entry is of one of the three kinds.
pub open spec fn kinds_ok(s: Seq<(Seq<char>, i32, Option<u64>)>) -> bool {
    forall|a: int| 0 <= a < s.len() ==> (#[trigger] s[a]).0 == "pid"@ || s[a].0 == "task"@ || s[a].0 == "tid"@
}

/// The rank of a kind name.
fn kind_rank_exec(kind: &str) -> (r: u8)
    ensures
        r == kind_rank(kind@),
{
    proof {
        reveal_strlit("pid");
        reveal_strlit("task");
    }
    if crate::text::str_eq(kind, "pid") {
        0
    } else if crate::text::str_eq(kind, "task") {
        1
    } else {
        2
    }
}

/// Adds an entry to a sorted host task list unless one of that kind and
/// id is there.
fn insert_task(list: &mut Vec<VmInventoryHostTask>, kind: &str, id: i32, start: Option<u64>)
    requires
        tasks_sorted(task_views(old(list)@)),
        kinds_ok(task_views(old(list)@)),
        kind@ == "pid"@ || kind@ == "task"@ || kind@ == "tid"@,
    ensures
        tasks_sorted(task_views(final(list)@)),
        kinds_ok(task_views(final(list)@)),
        has_entry(task_views(final(list)@), kind@, id),
        forall|a: int| 0 <= a < final(list)@.len() ==> task_views(old(list)@).contains(
            #[trigger] task_views(final(list)@)[a],
        ) || task_views(final(list)@)[a] == (kind@, id, start),
        forall|a: int| 0 <= a < old(list)@.len() ==> task_views(final(list)@).contains(
            #[trigger] task_views(old(list)@)[a],
        ),
{
    let ghost tv = task_views(list@);
    let ghost x = (kind@, id, start);
    let rank = kind_rank_exec(kind);
    proof {
        reveal_strlit("pid");
        reveal_strlit("task");
        reveal_strlit("tid");
    }
    let n = list.len();
    let mut i: usize = 0;
    while i < n && (list[i].id < id || (list[i].id == id && kind_rank_exec(list[i].kind.as_str()) < rank))
        invariant
            n == list@.len(),
            tv == task_views(list@),
            x == (kind@, id, start),
            tasks_sorted(tv),
            rank == kind_rank(kind@),
            i <= n,
            forall|a: int| 0 <= a < i ==> task_before(#[trigger] tv[a], x),
        decreases n - i,
    {
        assert(tv[i as int] == task_view(list@[i as int]));
        i = i + 1;
    }
    if i < n {
        assert(tv[i as int] == task_view(list@[i as int]));
        if list[i].id == id && kind_rank_exec(list[i].kind.as_str()) == rank {
            proof {
                assert(tv[i as int].0 == kind@);
                assert(has_entry(tv, kind@, id));
            }
            return;
        }
        assert(task_before(x, tv[i as int]));
    }
    list.insert(i, VmInventoryHostTask { kind: owned(kind), id, start_time_ticks: start });
    proof {
        let nt = task_views(list@);
        assert(nt =~= tv.subrange(0, i as int).push(x) + tv.subrange(i as int, n as int));
        assert(nt[i as int] == x);
        assert forall|a: int, b: int| 0 <= a < b < nt.len() implies task_before(#[trigger] nt[a], #[trigger] nt[b]) by {
            if b < i {
            } else if b == i {
            } else if a < i {
                assert(nt[b] == tv[b - 1]);
                lemma_task_before_trans(nt[a], x, tv[i as int]);
                if b - 1 > i {
                    lemma_task_before_trans(nt[a], tv[i as int], tv[b - 1]);
                }
            } else if a == i {
                assert(nt[b] == tv[b - 1]);
                if b - 1 > i {
                    lemma_task_before_trans(x, tv[i as int], tv[b - 1]);
                }
            } else {
                assert(nt[a] == tv[a - 1]);
                assert(nt[b] == tv[b - 1]);
            }
        }
        assert(has_entry(nt, kind@, id)) by {
            assert(nt[i as int].0 == kind@);
        }
        assert forall|a: int| 0 <= a < nt.len() implies tv.contains(#[trigger] nt[a]) || nt[a] == x by {
            if a < i {
                assert(nt[a] == tv[a]);
            } else if a > i {
                assert(nt[a] == tv[a - 1]);
            }
        }
        assert forall|a: int| 0 <= a < tv.len() implies nt.contains(#[trigger] tv[a]) by {
            if a < i {
                assert(nt[a] == tv[a]);
            } else {
                assert(nt[a + 1] == tv[a]);
            }
        }
        assert forall|a: int| 0 <= a < nt.len() implies (#[trigger] nt[a]).0 == "pid"@ || nt[a].0 == "task"@ || nt[a].0 == "tid"@ by {
            if a < i {
                assert(nt[a] == tv[a]);
            } else if a > i {
                assert(nt[a] == tv[a - 1]);
            }
        }
    }
}

proof fn lemma_task_before_trans(
    a: (Seq<char>, i32, Option<u64>),
    b: (Seq<char>, i32, Option<u64>),
    c: (Seq<char>, i32, Option<u64>),
)
    requires
        task_before(a, b),
        task_before(b, c),
    ensures
        task_before(a, c),
{
}


// ---------------------------------------------------------------------------
// vCPU mappings of a domain
// ---------------------------------------------------------------------------

/// A vCPU mapping as plain values: host tid, vCPU id, start time.
pub open spec fn mapping_view(m: VmInventoryVcpuMapping) -> (i32, i32, Option<u64>) {
    (m.host_tid, m.vcpu_id, m.start_time_ticks)
}

/// The vCPU mappings of a list, as plain values.
pub open spec fn mapping_views(v: Seq<VmInventoryVcpuMapping>) -> Seq<(i32, i32, Option<u64>)> {
    v.map_values(|m: VmInventoryVcpuMapping| mapping_view(m))
}

/// Mapping `a` does not come after mapping `b`: by host tid, then vCPU id.
pub open spec fn mapping_le(a: (i32, i32, Option<u64>), b: (i32, i32, Option<u64>)) -> bool {
    a.0 < b.0 || (a.0 == b.0 && a.1 <= b.1)
}

/// The mapping that a vCPU thread of `d` gives.
pub open spec fn thread_mapping(d: LibvirtDomain, t: QemuVcpuThread) -> (i32, i32, Option<u64>) {
    (t.tid, t.vcpu_id, first_versioned(d.qemu_task_identities@, t.tid))
}

/// `s` is the vCPU mapping list of `d`: one mapping per vCPU thread, in
/// order of host tid and vCPU id.
pub open spec fn vcpu_mappings_of(s: Seq<(i32, i32, Option<u64>)>, d: LibvirtDomain) -> bool {
    &&& forall|a: int, b: int| 0 <= a < b < s.len() ==> mapping_le(#[trigger] s[a], #[trigger] s[b])
    &&& s.to_multiset() == d.vcpu_threads@.map_values(|t: QemuVcpuThread| thread_mapping(d, t)).to_multiset()
}

// ---------------------------------------------------------------------------
// The snapshot
// ---------------------------------------------------------------------------

/// Another domain of `ds` has a task of `ds[i]`.
pub open spec fn shares_task(ds: Seq<LibvirtDomain>, i: int) -> bool {
    exists|j: int, t: i32| 0 <= j < ds.len() && j != i && #[trigger] has_task(ds[i], t) && #[trigger] has_task(ds[j], t)
}

/// The identity sources an inventory entry lists.
pub open spec fn vm_sources(d: LibvirtDomain, dup: bool) -> Seq<Seq<char>> {
    let s1 = seq![d.source.source_name()];
    let s2 = if d.qmp_socket is Some {
        with_source(s1, IDENTITY_SOURCE_QMP_SOCKET_HINT@)
    } else {
        s1
    };
    if dup {
        with_source(s2, IDENTITY_SOURCE_AMBIGUOUS@)
    } else {
        s2
    }
}

/// `vm` is the inventory entry of domain `d`, which shares a task with
/// another domain when `dup`.
pub open spec fn inventory_vm_of(vm: VmInventoryVm, d: LibvirtDomain, dup: bool) -> bool {
    &&& vm.vm_id@ == "libvirt:"@ + d.uuid@
    &&& vm.vm_uuid@ == d.uuid@
    &&& vm.vm_name@ == d.name@
    &&& vm.source@ == d.source.source_name()
    &&& host_tasks_of(task_views(vm.known_host_tasks@), d)
    &&& vcpu_mappings_of(mapping_views(vm.vcpu_mappings@), d)
    &&& vm.qmp.present == d.qmp_socket is Some
    &&& vm.qmp.status@ == (if d.qmp_socket is Some {
        "configured"@
    } else {
        "missing"@
    })
    &&& views(vm.identity.sources@) == vm_sources(d, dup)
    &&& vm.identity.confidence == (if dup {
        IdentityConfidence::Low
    } else {
        IdentityConfidence::Medium
    })
    &&& !vm.identity.start_time_verified
    &&& vm.identity.ambiguous == dup
    &&& vm.ambiguous == dup
    &&& (dup ==> (vm.conflict matches Some(c) && c.reason@ == "multiple_domains"@ && c.ambiguous))
    &&& (!dup ==> vm.conflict is None)
}

/// `p` maps the positions of a list of length `n` one to one onto the
/// indices of `ds`.
pub open spec fn is_arrangement(p: Seq<int>, n: int) -> bool {
    &&& p.len() == n
    &&& forall|k: int| 0 <= k < n ==> 0 <= #[trigger] p[k] < n
    &&& forall|k: int, l: int| 0 <= k < l < n ==> #[trigger] p[k] != #[trigger] p[l]
}

/// The snapshot of the libvirt inventory `ds`: an entry per domain, in
/// order of UUID (domains with the same UUID in their inventory order),
/// degraded when a domain shares a task with another, and its source and
/// freshness after the kinds of domains present.
pub open spec fn inventory_of(ds: Seq<LibvirtDomain>, r: VmInventorySnapshot) -> bool {
    if ds.len() == 0 {
        &&& r.status@ == "ok"@
        &&& r.source@ == "none"@
        &&& r.freshness@ == "none"@
        &&& r.vm_count == 0
        &&& !r.degraded
        &&& r.vms@.len() == 0
    } else {
        let degraded = exists|i: int| 0 <= i < ds.len() && #[trigger] shares_task(ds, i);
        let xml = exists|i: int| 0 <= i < ds.len() && (#[trigger] ds[i]).source == LibvirtDomainSource::Xml;
        let lifecycle = exists|i: int| 0 <= i < ds.len() && (#[trigger] ds[i]).source == LibvirtDomainSource::Lifecycle;
        &&& r.vms@.len() == ds.len()
        &&& r.vm_count == ds.len()
        &&& r.degraded == degraded
        &&& r.status@ == (if degraded {
            "degraded"@
        } else {
            "ok"@
        })
        &&& r.source@ == (if xml && lifecycle {
            "mixed"@
        } else if xml {
            "libvirt_xml"@
        } else {
            "libvirt_lifecycle"@
        })
        &&& r.freshness@ == (if xml && lifecycle {
            "mixed"@
        } else if xml {
            "file_backed_snapshot"@
        } else {
            "mockable_lifecycle_state"@
        })
        &&& exists|p: Seq<int>| {
            &&& #[trigger] is_arrangement(p, ds.len() as int)
            &&& forall|k: int| 0 <= k < ds.len() ==> inventory_vm_of(#[trigger] r.vms@[k], ds[p[k]], shares_task(ds, p[k]))
            &&& forall|k: int, l: int| 0 <= k < l < ds.len() ==> seq_order(#[trigger] r.vms@[k].vm_uuid@, #[trigger] r.vms@[l].vm_uuid@) <= 0
            &&& forall|k: int, l: int| 0 <= k < l < ds.len() && r.vms@[k].vm_uuid@ == r.vms@[l].vm_uuid@ ==> #[trigger] p[k] < #[trigger] p[l]
        }
    }
}


// ---------------------------------------------------------------------------
// Building the snapshot
// ---------------------------------------------------------------------------

/// The start time of the first identity of task `t` that has one.
pub fn first_start_time(ids: &Vec<HostTaskIdentity>, t: i32) -> (r: Option<u64>)
    ensures
        r == first_versioned(ids@, t),
{
    let mut i: usize = 0;
    while i < ids.len()
        invariant
            i <= ids@.len(),
            first_versioned(ids@.take(i as int), t) is None,
        decreases ids@.len() - i,
    {
        assert(ids@.take(i as int + 1).drop_last() =~= ids@.take(i as int));
        if ids[i].task_id == t && ids[i].start_time_ticks.is_some() {
            proof {
                lemma_first_versioned_prefix(ids@, t, i as int + 1);
            }
            return ids[i].start_time_ticks;
        }
        i = i + 1;
    }
    assert(ids@.take(i as int) =~= ids@);
    None
}

proof fn lemma_first_versioned_prefix(s: Seq<HostTaskIdentity>, t: i32, i: int)
    requires
        0 <= i <= s.len(),
        first_versioned(s.take(i), t) is Some,
    ensures
        first_versioned(s, t) == first_versioned(s.take(i), t),
    decreases s.len() - i,
{
    if i < s.len() {
        assert(s.take(i + 1).drop_last() =~= s.take(i));
        lemma_first_versioned_prefix(s, t, i + 1);
    } else {
        assert(s.take(i) =~= s);
    }
}

/// Whether task `t` runs as a QEMU thread of `d`.
fn runs_tid_exec(d: &LibvirtDomain, t: i32) -> (r: bool)
    ensures
        r == runs_tid(*d, t),
{
    if contains_i32(&d.qemu_tids, t) {
        return true;
    }
    let ghost tt = thread_tids(d.vcpu_threads@);
    let mut i: usize = 0;
    while i < d.vcpu_threads.len()
        invariant
            tt == thread_tids(d.vcpu_threads@),
            i <= d.vcpu_threads@.len(),
            forall|k: int| 0 <= k < i ==> tt[k] != t,
        decreases d.vcpu_threads@.len() - i,
    {
        assert(tt[i as int] == d.vcpu_threads@[i as int].tid);
        if d.vcpu_threads[i].tid == t {
            assert(tt.contains(t));
            return true;
        }
        i = i + 1;
    }
    false
}

/// Whether the identity at `k` is the first of its task.
fn first_identity_exec(ids: &Vec<HostTaskIdentity>, k: usize) -> (r: bool)
    requires
        k < ids@.len(),
    ensures
        r == first_identity_at(ids@, k as int),
{
    let t = ids[k].task_id;
    let mut j: usize = 0;
    while j < k
        invariant
            k < ids@.len(),
            t == ids@[k as int].task_id,
            j <= k,
            forall|q: int| 0 <= q < j ==> (#[trigger] ids@[q]).task_id != t,
        decreases k - j,
    {
        if ids[j].task_id == t {
            return false;
        }
        j = j + 1;
    }
    true
}

proof fn lemma_has_entry_kept(
    old_s: Seq<(Seq<char>, i32, Option<u64>)>,
    new_s: Seq<(Seq<char>, i32, Option<u64>)>,
    kind: Seq<char>,
    id: i32,
)
    requires
        forall|a: int| 0 <= a < old_s.len() ==> new_s.contains(#[trigger] old_s[a]),
        has_entry(old_s, kind, id),
    ensures
        has_entry(new_s, kind, id),
{
    let a = choose|a: int| 0 <= a < old_s.len() && (#[trigger] old_s[a]).0 == kind && old_s[a].1 == id;
    assert(new_s.contains(old_s[a]));
    let b = choose|b: int| 0 <= b < new_s.len() && new_s[b] == old_s[a];
    assert(new_s[b].0 == kind && new_s[b].1 == id);
}

/// The known host tasks of domain `d`, sorted by id and kind.
pub fn inventory_host_tasks(d: &LibvirtDomain) -> (r: Vec<VmInventoryHostTask>)
    ensures
        host_tasks_of(task_views(r@), *d),
{
    let ids = &d.qemu_task_identities;
    let mut list: Vec<VmInventoryHostTask> = Vec::new();
    proof {
        reveal_strlit("pid");
        reveal_strlit("task");
        reveal_strlit("tid");
    }
    let mut k: usize = 0;
    while k < d.qemu_pids.len()
        invariant
            ids == &d.qemu_task_identities,
            k <= d.qemu_pids@.len(),
            tasks_sorted(task_views(list@)),
            kinds_ok(task_views(list@)),
            forall|a: int| 0 <= a < list@.len() ==> expected_task(*d, #[trigger] task_views(list@)[a]),
            forall|j: int| 0 <= j < k ==> has_entry(task_views(list@), "pid"@, #[trigger] d.qemu_pids@[j]),
        decreases d.qemu_pids@.len() - k,
    {
        let p = d.qemu_pids[k];
        let ghost before = task_views(list@);
        let st = first_start_time(ids, p);
        assert(d.qemu_pids@.contains(p));
        assert(expected_task(*d, ("pid"@, p, st)));
        insert_task(&mut list, "pid", p, st);
        proof {
            assert forall|j: int| 0 <= j < k + 1 implies has_entry(task_views(list@), "pid"@, #[trigger] d.qemu_pids@[j]) by {
                if j < k {
                    lemma_has_entry_kept(before, task_views(list@), "pid"@, d.qemu_pids@[j]);
                }
            }
        }
        k = k + 1;
    }
    let mut k2: usize = 0;
    while k2 < d.qemu_tids.len()
        invariant
            ids == &d.qemu_task_identities,
            k2 <= d.qemu_tids@.len(),
            tasks_sorted(task_views(list@)),
            kinds_ok(task_views(list@)),
            forall|a: int| 0 <= a < list@.len() ==> expected_task(*d, #[trigger] task_views(list@)[a]),
            forall|j: int| 0 <= j < d.qemu_pids@.len() ==> has_entry(task_views(list@), "pid"@, #[trigger] d.qemu_pids@[j]),
            forall|j: int| 0 <= j < k2 ==> has_entry(task_views(list@), "tid"@, #[trigger] d.qemu_tids@[j]),
        decreases d.qemu_tids@.len() - k2,
    {
        let t = d.qemu_tids[k2];
        let ghost before = task_views(list@);
        let st = first_start_time(ids, t);
        assert(d.qemu_tids@.contains(t));
        assert(expected_task(*d, ("tid"@, t, st)));
        insert_task(&mut list, "tid", t, st);
        proof {
            assert forall|j: int| 0 <= j < d.qemu_pids@.len() implies has_entry(task_views(list@), "pid"@, #[trigger] d.qemu_pids@[j]) by {
                lemma_has_entry_kept(before, task_views(list@), "pid"@, d.qemu_pids@[j]);
            }
            assert forall|j: int| 0 <= j < k2 + 1 implies has_entry(task_views(list@), "tid"@, #[trigger] d.qemu_tids@[j]) by {
                if j < k2 {
                    lemma_has_entry_kept(before, task_views(list@), "tid"@, d.qemu_tids@[j]);
                }
            }
        }
        k2 = k2 + 1;
    }
    let ghost tt = thread_tids(d.vcpu_threads@);
    let mut k3: usize = 0;
    while k3 < d.vcpu_threads.len()
        invariant
            ids == &d.qemu_task_identities,
            tt == thread_tids(d.vcpu_threads@),
            k3 <= d.vcpu_threads@.len(),
            tasks_sorted(task_views(list@)),
            kinds_ok(task_views(list@)),
            forall|a: int| 0 <= a < list@.len() ==> expected_task(*d, #[trigger] task_views(list@)[a]),
            forall|j: int| 0 <= j < d.qemu_pids@.len() ==> has_entry(task_views(list@), "pid"@, #[trigger] d.qemu_pids@[j]),
            forall|j: int| 0 <= j < d.qemu_tids@.len() ==> has_entry(task_views(list@), "tid"@, #[trigger] d.qemu_tids@[j]),
            forall|j: int| 0 <= j < k3 ==> has_entry(task_views(list@), "tid"@, #[trigger] tt[j]),
        decreases d.vcpu_threads@.len() - k3,
    {
        let t = d.vcpu_threads[k3].tid;
        assert(tt[k3 as int] == t);
        let ghost before = task_views(list@);
        let st = first_start_time(ids, t);
        assert(tt.contains(t));
        assert(expected_task(*d, ("tid"@, t, st)));
        insert_task(&mut list, "tid", t, st);
        proof {
            assert forall|j: int| 0 <= j < d.qemu_pids@.len() implies has_entry(task_views(list@), "pid"@, #[trigger] d.qemu_pids@[j]) by {
                lemma_has_entry_kept(before, task_views(list@), "pid"@, d.qemu_pids@[j]);
            }
            assert forall|j: int| 0 <= j < d.qemu_tids@.len() implies has_entry(task_views(list@), "tid"@, #[trigger] d.qemu_tids@[j]) by {
                lemma_has_entry_kept(before, task_views(list@), "tid"@, d.qemu_tids@[j]);
            }
            assert forall|j: int| 0 <= j < k3 + 1 implies has_entry(task_views(list@), "tid"@, #[trigger] tt[j]) by {
                if j < k3 {
                    lemma_has_entry_kept(before, task_views(list@), "tid"@, tt[j]);
                }
            }
        }
        k3 = k3 + 1;
    }
    let mut k4: usize = 0;
    while k4 < ids.len()
        invariant
            ids == &d.qemu_task_identities,
            tt == thread_tids(d.vcpu_threads@),
            k4 <= ids@.len(),
            tasks_sorted(task_views(list@)),
            kinds_ok(task_views(list@)),
            forall|a: int| 0 <= a < list@.len() ==> expected_task(*d, #[trigger] task_views(list@)[a]),
            forall|j: int| 0 <= j < d.qemu_pids@.len() ==> has_entry(task_views(list@), "pid"@, #[trigger] d.qemu_pids@[j]),
            forall|j: int| 0 <= j < d.qemu_tids@.len() ==> has_entry(task_views(list@), "tid"@, #[trigger] d.qemu_tids@[j]),
            forall|j: int| 0 <= j < tt.len() ==> has_entry(task_views(list@), "tid"@, #[trigger] tt[j]),
            forall|j: int| 0 <= j < k4 && #[trigger] identity_only(*d, j) ==> has_entry(task_views(list@), "task"@, ids@[j].task_id),
        decreases ids@.len() - k4,
    {
        let t = ids[k4].task_id;
        let only = !contains_i32(&d.qemu_pids, t) && !runs_tid_exec(d, t);
        let first = first_identity_exec(ids, k4);
        let ghost before = task_views(list@);
        if only && first {
            let st = ids[k4].start_time_ticks;
            assert(first_identity_at(ids@, k4 as int) && identity_only(*d, k4 as int));
            assert(expected_task(*d, ("task"@, t, st)));
            insert_task(&mut list, "task", t, st);
            proof {
                assert forall|j: int| 0 <= j < d.qemu_pids@.len() implies has_entry(task_views(list@), "pid"@, #[trigger] d.qemu_pids@[j]) by {
                    lemma_has_entry_kept(before, task_views(list@), "pid"@, d.qemu_pids@[j]);
                }
                assert forall|j: int| 0 <= j < d.qemu_tids@.len() implies has_entry(task_views(list@), "tid"@, #[trigger] d.qemu_tids@[j]) by {
                    lemma_has_entry_kept(before, task_views(list@), "tid"@, d.qemu_tids@[j]);
                }
                assert forall|j: int| 0 <= j < tt.len() implies has_entry(task_views(list@), "tid"@, #[trigger] tt[j]) by {
                    lemma_has_entry_kept(before, task_views(list@), "tid"@, tt[j]);
                }
                assert forall|j: int| 0 <= j < k4 + 1 && #[trigger] identity_only(*d, j) implies has_entry(task_views(list@), "task"@, ids@[j].task_id) by {
                    if j < k4 {
                        lemma_has_entry_kept(before, task_views(list@), "task"@, ids@[j].task_id);
                    }
                }
            }
        } else {
            proof {
                if only {
                    let q = choose|q: int| 0 <= q < k4 && (#[trigger] ids@[q]).task_id == t;
                    assert(identity_only(*d, q));
                }
            }
        }
        k4 = k4 + 1;
    }
    proof {
        let s = task_views(list@);
        assert forall|p: i32| #[trigger] d.qemu_pids@.contains(p) implies has_entry(s, "pid"@, p) by {
            let j = choose|j: int| 0 <= j < d.qemu_pids@.len() && d.qemu_pids@[j] == p;
        }
        assert forall|t: i32| #[trigger] runs_tid(*d, t) implies has_entry(s, "tid"@, t) by {
            if d.qemu_tids@.contains(t) {
                let j = choose|j: int| 0 <= j < d.qemu_tids@.len() && d.qemu_tids@[j] == t;
            } else {
                let j = choose|j: int| 0 <= j < tt.len() && tt[j] == t;
            }
        }
    }
    list
}


/// The vCPU mappings of domain `d`, sorted by host tid and vCPU id.
pub fn inventory_vcpu_mappings(d: &LibvirtDomain) -> (r: Vec<VmInventoryVcpuMapping>)
    ensures
        vcpu_mappings_of(mapping_views(r@), *d),
{
    broadcast use vstd::seq_lib::to_multiset_insert, vstd::seq_lib::to_multiset_build;

    let ghost src = d.vcpu_threads@.map_values(|t: QemuVcpuThread| thread_mapping(*d, t));
    let mut list: Vec<VmInventoryVcpuMapping> = Vec::new();
    let n = d.vcpu_threads.len();
    let mut k: usize = 0;
    assert(src.take(0) =~= Seq::<(i32, i32, Option<u64>)>::empty());
    assert(mapping_views(list@) =~= Seq::<(i32, i32, Option<u64>)>::empty());
    while k < n
        invariant
            n == d.vcpu_threads@.len(),
            src == d.vcpu_threads@.map_values(|t: QemuVcpuThread| thread_mapping(*d, t)),
            k <= n,
            forall|a: int, b: int| 0 <= a < b < list@.len() ==> mapping_le(#[trigger] mapping_views(list@)[a], #[trigger] mapping_views(list@)[b]),
            mapping_views(list@).to_multiset() == src.take(k as int).to_multiset(),
        decreases n - k,
    {
        let th = d.vcpu_threads[k];
        let m = VmInventoryVcpuMapping {
            host_tid: th.tid,
            vcpu_id: th.vcpu_id,
            start_time_ticks: first_start_time(&d.qemu_task_identities, th.tid),
        };
        let ghost x = mapping_view(m);
        assert(x == src[k as int]);
        let ghost before = mapping_views(list@);
        let len = list.len();
        let mut pos: usize = 0;
        while pos < len && (list[pos].host_tid < m.host_tid || (list[pos].host_tid == m.host_tid && list[pos].vcpu_id <= m.vcpu_id))
            invariant
                len == list@.len(),
                before == mapping_views(list@),
                x == mapping_view(m),
                pos <= len,
                forall|a: int| 0 <= a < pos ==> mapping_le(#[trigger] before[a], x),
            decreases len - pos,
        {
            assert(before[pos as int] == mapping_view(list@[pos as int]));
            pos = pos + 1;
        }
        list.insert(pos, m);
        proof {
            let nv = mapping_views(list@);
            assert(nv =~= before.insert(pos as int, x));
            assert forall|a: int, b: int| 0 <= a < b < nv.len() implies mapping_le(#[trigger] nv[a], #[trigger] nv[b]) by {
                if b < pos {
                } else if b == pos {
                } else if a < pos {
                    assert(nv[b] == before[b - 1]);
                    if pos < len {
                        assert(before[pos as int] == mapping_view(list@[pos as int + 1]));
                        assert(!mapping_le(before[pos as int], x));
                    }
                } else if a == pos {
                    assert(nv[b] == before[b - 1]);
                    assert(!mapping_le(before[pos as int], x) || true);
                    if pos < len {
                        assert(before[pos as int] == mapping_view(list@[pos as int + 1]));
                    }
                } else {
                    assert(nv[a] == before[a - 1]);
                    assert(nv[b] == before[b - 1]);
                }
            }
            assert(src.take(k as int + 1) =~= src.take(k as int).push(x));
            vstd::seq_lib::to_multiset_insert(before, pos as int, x);
            vstd::seq_lib::to_multiset_build(src.take(k as int), x);
            assert(nv.to_multiset() == before.to_multiset().insert(x));
        }
        k = k + 1;
    }
    assert(src.take(n as int) =~= src);
    list
}

/// A domain of `ds` other than `ds[i]` has task `t`.
pub open spec fn in_other_domain(ds: Seq<LibvirtDomain>, i: int, t: i32) -> bool {
    exists|j: int| 0 <= j < ds.len() && j != i && #[trigger] has_task(ds[j], t)
}

/// Whether another domain of `ds` has task `t`.
fn task_in_other_domain(ds: &Vec<LibvirtDomain>, i: usize, t: i32) -> (r: bool)
    ensures
        r == in_other_domain(ds@, i as int, t),
{
    let mut j: usize = 0;
    while j < ds.len()
        invariant
            j <= ds@.len(),
            forall|q: int| 0 <= q < j && q != i ==> !#[trigger] has_task(ds@[q], t),
        decreases ds@.len() - j,
    {
        if j != i && domain_has_task(&ds[j], t) {
            return true;
        }
        j = j + 1;
    }
    false
}

/// Whether another domain of `ds` has a task of `ds[i]`.
pub fn domain_shares_task(ds: &Vec<LibvirtDomain>, i: usize) -> (r: bool)
    requires
        i < ds@.len(),
    ensures
        r == shares_task(ds@, i as int),
{
    let d = &ds[i];
    let mut k: usize = 0;
    while k < d.qemu_pids.len()
        invariant
            d == ds@[i as int],
            k <= d.qemu_pids@.len(),
            forall|q: int| 0 <= q < k ==> !in_other_domain(ds@, i as int, #[trigger] d.qemu_pids@[q]),
        decreases d.qemu_pids@.len() - k,
    {
        let t = d.qemu_pids[k];
        if task_in_other_domain(ds, i, t) {
            proof {
                let j = choose|j: int| 0 <= j < ds@.len() && j != i && #[trigger] has_task(ds@[j], t);
                assert(d.qemu_pids@.contains(t));
                assert(has_task(ds@[i as int], t));
            }
            return true;
        }
        k = k + 1;
    }
    let mut k2: usize = 0;
    while k2 < d.qemu_tids.len()
        invariant
            d == ds@[i as int],
            k2 <= d.qemu_tids@.len(),
            forall|q: int| 0 <= q < k2 ==> !in_other_domain(ds@, i as int, #[trigger] d.qemu_tids@[q]),
        decreases d.qemu_tids@.len() - k2,
    {
        let t = d.qemu_tids[k2];
        if task_in_other_domain(ds, i, t) {
            proof {
                let j = choose|j: int| 0 <= j < ds@.len() && j != i && #[trigger] has_task(ds@[j], t);
                assert(d.qemu_tids@.contains(t));
                assert(has_task(ds@[i as int], t));
            }
            return true;
        }
        k2 = k2 + 1;
    }
    let mut k3: usize = 0;
    while k3 < d.vcpu_threads.len()
        invariant
            d == ds@[i as int],
            k3 <= d.vcpu_threads@.len(),
            forall|q: int| 0 <= q < k3 ==> !in_other_domain(ds@, i as int, (#[trigger] d.vcpu_threads@[q]).tid),
        decreases d.vcpu_threads@.len() - k3,
    {
        let t = d.vcpu_threads[k3].tid;
        if task_in_other_domain(ds, i, t) {
            proof {
                let j = choose|j: int| 0 <= j < ds@.len() && j != i && #[trigger] has_task(ds@[j], t);
                assert(has_task(ds@[i as int], t));
            }
            return true;
        }
        k3 = k3 + 1;
    }
    let mut k4: usize = 0;
    while k4 < d.qemu_task_identities.len()
        invariant
            d == ds@[i as int],
            k4 <= d.qemu_task_identities@.len(),
            forall|q: int| 0 <= q < k4 ==> !in_other_domain(ds@, i as int, (#[trigger] d.qemu_task_identities@[q]).task_id),
        decreases d.qemu_task_identities@.len() - k4,
    {
        let t = d.qemu_task_identities[k4].task_id;
        if task_in_other_domain(ds, i, t) {
            proof {
                let j = choose|j: int| 0 <= j < ds@.len() && j != i && #[trigger] has_task(ds@[j], t);
                assert(has_task(ds@[i as int], t));
            }
            return true;
        }
        k4 = k4 + 1;
    }
    proof {
        assert forall|j: int, t: i32| 0 <= j < ds@.len() && j != i && #[trigger] has_task(ds@[i as int], t) implies !#[trigger] has_task(ds@[j], t) by {
            assert(!in_other_domain(ds@, i as int, t) ==> !has_task(ds@[j], t));
            if d.qemu_pids@.contains(t) {
                let q = choose|q: int| 0 <= q < d.qemu_pids@.len() && d.qemu_pids@[q] == t;
            } else if d.qemu_tids@.contains(t) {
                let q = choose|q: int| 0 <= q < d.qemu_tids@.len() && d.qemu_tids@[q] == t;
            } else if exists|q: int| 0 <= q < d.vcpu_threads@.len() && (#[trigger] d.vcpu_threads@[q]).tid == t {
                let q = choose|q: int| 0 <= q < d.vcpu_threads@.len() && (#[trigger] d.vcpu_threads@[q]).tid == t;
            } else {
                let q = choose|q: int| 0 <= q < d.qemu_task_identities@.len() && (#[trigger] d.qemu_task_identities@[q]).task_id == t;
            }
        }
    }
    false
}

/// The inventory entry of domain `d`, which shares a task with another
/// domain when `dup`.
pub fn inventory_vm(d: &LibvirtDomain, dup: bool) -> (r: VmInventoryVm)
    ensures
        inventory_vm_of(r, *d, dup),
{
    let mut sources: Vec<String> = Vec::new();
    sources.push(owned(d.source.identity_source()));
    assert(views(sources@) =~= seq![d.source.source_name()]);
    if d.qmp_socket.is_some() {
        push_identity_source(&mut sources, crate::identity::IDENTITY_SOURCE_QMP_SOCKET_HINT);
    }
    if dup {
        push_identity_source(&mut sources, crate::identity::IDENTITY_SOURCE_AMBIGUOUS);
    }
    let mut vm_id = owned("libvirt:");
    crate::text::push_str(&mut vm_id, d.uuid.as_str());
    let present = d.qmp_socket.is_some();
    VmInventoryVm {
        vm_id,
        vm_uuid: owned(d.uuid.as_str()),
        vm_name: owned(d.name.as_str()),
        source: owned(d.source.identity_source()),
        known_host_tasks: inventory_host_tasks(d),
        vcpu_mappings: inventory_vcpu_mappings(d),
        qmp: VmInventoryQmp {
            present,
            status: if present {
                owned("configured")
            } else {
                owned("missing")
            },
        },
        identity: IdentityInfo {
            sources,
            confidence: if dup {
                IdentityConfidence::Low
            } else {
                IdentityConfidence::Medium
            },
            start_time_verified: false,
            ambiguous: dup,
        },
        ambiguous: dup,
        conflict: if dup {
            Some(VmInventoryConflict { reason: owned("multiple_domains"), ambiguous: true })
        } else {
            None
        },
    }
}

/// The first `i` domains of `ds` are laid out in `vms` in UUID order,
/// `perm` giving each entry's domain.
pub open spec fn arranged(ds: Seq<LibvirtDomain>, vms: Seq<VmInventoryVm>, perm: Seq<int>, i: int) -> bool {
    &&& vms.len() == i
    &&& perm.len() == i
    &&& forall|k: int| 0 <= k < i ==> 0 <= #[trigger] perm[k] < i
    &&& forall|k: int, l: int| 0 <= k < l < i ==> #[trigger] perm[k] != #[trigger] perm[l]
    &&& forall|k: int| 0 <= k < i ==> inventory_vm_of(#[trigger] vms[k], ds[perm[k]], shares_task(ds, perm[k]))
    &&& forall|k: int, l: int| 0 <= k < l < i ==> seq_order(#[trigger] vms[k].vm_uuid@, #[trigger] vms[l].vm_uuid@) <= 0
    &&& forall|k: int, l: int| 0 <= k < l < i && vms[k].vm_uuid@ == vms[l].vm_uuid@ ==> #[trigger] perm[k] < #[trigger] perm[l]
}

proof fn lemma_insert_vm(ds: Seq<LibvirtDomain>, before: Seq<VmInventoryVm>, old_perm: Seq<int>, i: int, pos: int, vm: VmInventoryVm)
    requires
        0 <= i < ds.len(),
        arranged(ds, before, old_perm, i),
        inventory_vm_of(vm, ds[i], shares_task(ds, i)),
        0 <= pos <= i,
        forall|a: int| 0 <= a < pos ==> seq_order(#[trigger] before[a].vm_uuid@, vm.vm_uuid@) <= 0,
        pos < i ==> seq_order(before[pos].vm_uuid@, vm.vm_uuid@) > 0,
    ensures
        arranged(ds, before.insert(pos, vm), old_perm.insert(pos, i), i + 1),
{
    let vms = before.insert(pos, vm);
    let perm = old_perm.insert(pos, i);
    let uu = vm.vm_uuid@;
    if pos < i {
        lemma_order_antisym(before[pos].vm_uuid@, uu);
    }
    assert forall|k: int, l: int| 0 <= k < l < i + 1 implies seq_order(#[trigger] vms[k].vm_uuid@, #[trigger] vms[l].vm_uuid@) <= 0 by {
        if l < pos {
        } else if l == pos {
        } else if k < pos {
            assert(vms[l] == before[l - 1]);
            if l - 1 > pos {
                lemma_le_lt(vms[k].vm_uuid@, uu, before[pos].vm_uuid@);
                lemma_lt_le(vms[k].vm_uuid@, before[pos].vm_uuid@, before[l - 1].vm_uuid@);
            } else {
                lemma_le_lt(vms[k].vm_uuid@, uu, before[pos].vm_uuid@);
            }
        } else if k == pos {
            assert(vms[l] == before[l - 1]);
            if l - 1 > pos {
                lemma_lt_le(uu, before[pos].vm_uuid@, before[l - 1].vm_uuid@);
            }
        } else {
            assert(vms[k] == before[k - 1]);
            assert(vms[l] == before[l - 1]);
        }
    }
    assert forall|k: int, l: int| 0 <= k < l < i + 1 && vms[k].vm_uuid@ == vms[l].vm_uuid@ implies #[trigger] perm[k] < #[trigger] perm[l] by {
        if l < pos {
        } else if l == pos {
        } else if k < pos {
            assert(perm[l] == old_perm[l - 1]);
        } else if k == pos {
            assert(vms[l] == before[l - 1]);
            lemma_order_eq(uu, before[l - 1].vm_uuid@);
            if l - 1 > pos {
                lemma_lt_le(uu, before[pos].vm_uuid@, before[l - 1].vm_uuid@);
            }
        } else {
            assert(perm[k] == old_perm[k - 1]);
            assert(perm[l] == old_perm[l - 1]);
        }
    }
    assert forall|k: int| 0 <= k < i + 1 implies inventory_vm_of(#[trigger] vms[k], ds[perm[k]], shares_task(ds, perm[k])) by {
        if k > pos {
            assert(vms[k] == before[k - 1]);
            assert(perm[k] == old_perm[k - 1]);
        }
    }
    assert forall|k: int, l: int| 0 <= k < l < i + 1 implies #[trigger] perm[k] != #[trigger] perm[l] by {
        if k < pos && l > pos {
            assert(perm[l] == old_perm[l - 1]);
        } else if k > pos {
            assert(perm[k] == old_perm[k - 1]);
            assert(perm[l] == old_perm[l - 1]);
        } else if k == pos {
            assert(perm[l] == old_perm[l - 1]);
        }
    }
    assert forall|k: int| 0 <= k < i + 1 implies 0 <= #[trigger] perm[k] < i + 1 by {
        if k > pos {
            assert(perm[k] == old_perm[k - 1]);
        }
    }
}

impl LibvirtDomainDiscovery {
    /// The inventory as a snapshot (see `inventory_of`).
    pub fn inventory_snapshot(&self) -> (r: VmInventorySnapshot)
        ensures
            inventory_of(self.domains@, r),
    {
        let ds = &self.domains;
        let n = ds.len();
        if n == 0 {
            return VmInventorySnapshot::empty();
        }
        let mut vms: Vec<VmInventoryVm> = Vec::new();
        let ghost mut perm: Seq<int> = Seq::empty();
        let mut degraded = false;
        let mut xml = false;
        let mut lifecycle = false;
        let mut i: usize = 0;
        while i < n
            invariant
                n == ds@.len(),
                ds == &self.domains,
                i <= n,
                arranged(ds@, vms@, perm, i as int),
                degraded == exists|q: int| 0 <= q < i && #[trigger] shares_task(ds@, q),
                xml == exists|q: int| 0 <= q < i && (#[trigger] ds@[q]).source == LibvirtDomainSource::Xml,
                lifecycle == exists|q: int| 0 <= q < i && (#[trigger] ds@[q]).source == LibvirtDomainSource::Lifecycle,
            decreases n - i,
        {
            let dup = domain_shares_task(ds, i);
            let vm = inventory_vm(&ds[i], dup);
            degraded = degraded || dup;
            match ds[i].source {
                LibvirtDomainSource::Xml => {
                    xml = true;
                },
                LibvirtDomainSource::Lifecycle => {
                    lifecycle = true;
                },
            }
            let len = vms.len();
            let mut pos: usize = 0;
            while pos < len && compare_str(vms[pos].vm_uuid.as_str(), vm.vm_uuid.as_str()) <= 0
                invariant
                    len == vms@.len(),
                    pos <= len,
                    forall|a: int| 0 <= a < pos ==> seq_order(#[trigger] vms@[a].vm_uuid@, vm.vm_uuid@) <= 0,
                decreases len - pos,
            {
                pos = pos + 1;
            }
            let ghost before = vms@;
            proof {
                if pos < len {
                    assert(seq_order(before[pos as int].vm_uuid@, vm.vm_uuid@) > 0);
                }
            }
            vms.insert(pos, vm);
            proof {
                lemma_insert_vm(ds@, before, perm, i as int, pos as int, vms@[pos as int]);
                assert(vms@ =~= before.insert(pos as int, vms@[pos as int]));
                perm = perm.insert(pos as int, i as int);
                if dup {
                    assert(shares_task(ds@, i as int));
                }
            }
            i = i + 1;
        }
        proof {
            assert(is_arrangement(perm, n as int));
            assert(forall|k: int| 0 <= k < n ==> inventory_vm_of(#[trigger] vms@[k], ds@[perm[k]], shares_task(ds@, perm[k])));
        }
        let status = if degraded {
            owned("degraded")
        } else {
            owned("ok")
        };
        let (source, freshness) = if xml && lifecycle {
            (owned("mixed"), owned("mixed"))
        } else if xml {
            (owned("libvirt_xml"), owned("file_backed_snapshot"))
        } else {
            (owned("libvirt_lifecycle"), owned("mockable_lifecycle_state"))
        };
        proof {
            if !xml {
                assert(ds@[0].source == LibvirtDomainSource::Lifecycle);
            }
        }
        VmInventorySnapshot { status, source, freshness, vm_count: n, degraded, vms }
    }
}

proof fn lemma_le_lt(a: Seq<char>, b: Seq<char>, c: Seq<char>)
    requires
        seq_order(a, b) <= 0,
        seq_order(b, c) < 0,
    ensures
        seq_order(a, c) < 0,
{
    lemma_order_eq(a, b);
    if seq_order(a, b) < 0 {
        lemma_order_trans(a, b, c);
    }
}

proof fn lemma_lt_le(a: Seq<char>, b: Seq<char>, c: Seq<char>)
    requires
        seq_order(a, b) < 0,
        seq_order(b, c) <= 0,
    ensures
        seq_order(a, c) < 0,
{
    lemma_order_eq(b, c);
    if seq_order(b, c) < 0 {
        lemma_order_trans(a, b, c);
    }
}

} // verus!
