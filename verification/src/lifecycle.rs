//! Keeping the libvirt inventory current: domains announced by lifecycle
//! events take over their host tasks from the domains that held them.
use vstd::prelude::*;
use crate::identity::{
    contains_i32, has_task, HostTaskIdentity, LibvirtDomain, LibvirtDomainDiscovery,
    LibvirtDomainSource, QemuVcpuThread,
};
use crate::resolver::{
    keys_unique, strictly_increasing, thread_tids, CachedIdentity, LibvirtLifecycleError,
    LibvirtLifecycleEvent, LibvirtLifecycleKind, VmIdentityResolver,
};
use crate::event::{Category, Event, EventStamp, IdentityConfidence, IdentityInfo, Severity};
use crate::identity::IDENTITY_SOURCE_LIBVIRT_LIFECYCLE;
use crate::text::{dec, owned, push_str, trim, trim_owned, u64_to_dec};

verus! {

// ---------------------------------------------------------------------------
// The tasks of a domain
// ---------------------------------------------------------------------------

pub open spec fn identity_tids(ids: Seq<HostTaskIdentity>) -> Seq<i32> {
    ids.map_values(|h: HostTaskIdentity| h.task_id)
}

/// The host tasks a domain lists: its pids, tids, vCPU threads and task
/// identities, in that order.
pub open spec fn task_list(d: LibvirtDomain) -> Seq<i32> {
    d.qemu_pids@ + d.qemu_tids@ + thread_tids(d.vcpu_threads@) + identity_tids(d.qemu_task_identities@)
}

pub proof fn lemma_task_list_has_task(d: LibvirtDomain, t: i32)
    ensures
        task_list(d).contains(t) <==> has_task(d, t),
{
    let a = d.qemu_pids@;
    let b = d.qemu_tids@;
    let c = thread_tids(d.vcpu_threads@);
    let e = identity_tids(d.qemu_task_identities@);
    let l = task_list(d);
    if l.contains(t) {
        let i = choose|i: int| 0 <= i < l.len() && l[i] == t;
        if i < a.len() {
            assert(a[i] == t);
        } else if i < a.len() + b.len() {
            assert(b[i - a.len()] == t);
        } else if i < a.len() + b.len() + c.len() {
            assert(c[i - a.len() - b.len()] == t);
            assert(d.vcpu_threads@[i - a.len() - b.len()].tid == t);
        } else {
            assert(e[i - a.len() - b.len() - c.len()] == t);
            assert(d.qemu_task_identities@[i - a.len() - b.len() - c.len()].task_id == t);
        }
    }
    if has_task(d, t) {
        if a.contains(t) {
            let i = choose|i: int| 0 <= i < a.len() && a[i] == t;
            assert(l[i] == t);
        } else if b.contains(t) {
            let i = choose|i: int| 0 <= i < b.len() && b[i] == t;
            assert(l[a.len() + i] == t);
        } else if exists|i: int| 0 <= i < d.vcpu_threads@.len() && (#[trigger] d.vcpu_threads@[i]).tid == t {
            let i = choose|i: int| 0 <= i < d.vcpu_threads@.len() && (#[trigger] d.vcpu_threads@[i]).tid == t;
            assert(l[a.len() + b.len() + i] == t);
        } else {
            let i = choose|i: int|
                0 <= i < d.qemu_task_identities@.len() && (#[trigger] d.qemu_task_identities@[i]).task_id == t;
            assert(l[a.len() + b.len() + c.len() + i] == t);
        }
    }
}

/// The host tasks a domain lists, in the order of `task_list`.
pub fn domain_task_ids(d: &LibvirtDomain) -> (r: Vec<i32>)
    ensures
        r@ == task_list(*d),
{
    let mut out: Vec<i32> = Vec::new();
    let mut i: usize = 0;
    while i < d.qemu_pids.len()
        invariant
            i <= d.qemu_pids@.len(),
            out@ == d.qemu_pids@.take(i as int),
        decreases d.qemu_pids@.len() - i,
    {
        out.push(d.qemu_pids[i]);
        i = i + 1;
        assert(out@ =~= d.qemu_pids@.take(i as int));
    }
    assert(d.qemu_pids@.take(i as int) =~= d.qemu_pids@);
    let ghost s1 = out@;
    let mut i: usize = 0;
    while i < d.qemu_tids.len()
        invariant
            i <= d.qemu_tids@.len(),
            out@ == s1 + d.qemu_tids@.take(i as int),
        decreases d.qemu_tids@.len() - i,
    {
        out.push(d.qemu_tids[i]);
        i = i + 1;
        assert(out@ =~= s1 + d.qemu_tids@.take(i as int));
    }
    assert(d.qemu_tids@.take(i as int) =~= d.qemu_tids@);
    let ghost s2 = out@;
    let ghost tt = thread_tids(d.vcpu_threads@);
    let mut i: usize = 0;
    while i < d.vcpu_threads.len()
        invariant
            i <= d.vcpu_threads@.len(),
            tt == thread_tids(d.vcpu_threads@),
            out@ == s2 + tt.take(i as int),
        decreases d.vcpu_threads@.len() - i,
    {
        out.push(d.vcpu_threads[i].tid);
        i = i + 1;
        assert(out@ =~= s2 + tt.take(i as int));
    }
    assert(tt.take(i as int) =~= tt);
    let ghost s3 = out@;
    let ghost it = identity_tids(d.qemu_task_identities@);
    let mut i: usize = 0;
    while i < d.qemu_task_identities.len()
        invariant
            i <= d.qemu_task_identities@.len(),
            it == identity_tids(d.qemu_task_identities@),
            out@ == s3 + it.take(i as int),
        decreases d.qemu_task_identities@.len() - i,
    {
        out.push(d.qemu_task_identities[i].task_id);
        i = i + 1;
        assert(out@ =~= s3 + it.take(i as int));
    }
    assert(it.take(i as int) =~= it);
    out
}

// ---------------------------------------------------------------------------
// Taking tasks away from a domain
// ---------------------------------------------------------------------------

pub open spec fn pid_outside(ts: Seq<i32>) -> spec_fn(i32) -> bool {
    |p: i32| !ts.contains(p)
}

pub open spec fn thread_outside(ts: Seq<i32>) -> spec_fn(QemuVcpuThread) -> bool {
    |t: QemuVcpuThread| !ts.contains(t.tid)
}

pub open spec fn identity_outside(ts: Seq<i32>) -> spec_fn(HostTaskIdentity) -> bool {
    |h: HostTaskIdentity| !ts.contains(h.task_id)
}

/// `y` is `x` without the tasks `ts`.
pub open spec fn stripped_from(x: LibvirtDomain, y: LibvirtDomain, ts: Seq<i32>) -> bool {
    &&& y.name == x.name
    &&& y.uuid == x.uuid
    &&& y.qmp_socket == x.qmp_socket
    &&& y.source == x.source
    &&& y.qemu_pids@ == x.qemu_pids@.filter(pid_outside(ts))
    &&& y.qemu_tids@ == x.qemu_tids@.filter(pid_outside(ts))
    &&& y.vcpu_threads@ == x.vcpu_threads@.filter(thread_outside(ts))
    &&& y.qemu_task_identities@ == x.qemu_task_identities@.filter(identity_outside(ts))
}

/// `x` keeps a task outside `ts`.
pub open spec fn keeps_task(x: LibvirtDomain, ts: Seq<i32>) -> bool {
    ||| x.qemu_pids@.filter(pid_outside(ts)).len() > 0
    ||| x.qemu_tids@.filter(pid_outside(ts)).len() > 0
    ||| x.vcpu_threads@.filter(thread_outside(ts)).len() > 0
    ||| x.qemu_task_identities@.filter(identity_outside(ts)).len() > 0
}

/// `k` is `o` after `d` took its tasks: a domain with `d`'s UUID stays as
/// it is, any other loses the tasks of `d` and is dropped when none is
/// left.
pub open spec fn stripped_kept(o: Seq<LibvirtDomain>, d: LibvirtDomain, k: Seq<LibvirtDomain>) -> bool
    decreases o.len(),
{
    if o.len() == 0 {
        k.len() == 0
    } else {
        let x = o.last();
        let ts = task_list(d);
        if x.uuid@ == d.uuid@ {
            k.len() > 0 && k.last() == x && stripped_kept(o.drop_last(), d, k.drop_last())
        } else if keeps_task(x, ts) {
            k.len() > 0 && stripped_from(x, k.last(), ts) && stripped_kept(o.drop_last(), d, k.drop_last())
        } else {
            stripped_kept(o.drop_last(), d, k)
        }
    }
}

/// The index of the first domain with UUID `u`.
pub open spec fn uuid_index(ds: Seq<LibvirtDomain>, u: Seq<char>) -> Option<int>
    decreases ds.len(),
{
    if ds.len() == 0 {
        None
    } else {
        match uuid_index(ds.drop_last(), u) {
            Some(i) => Some(i),
            None => if ds.last().uuid@ == u {
                Some(ds.len() - 1)
            } else {
                None
            },
        }
    }
}

/// `d` in the place of the first domain with its UUID, else at the end.
pub open spec fn placed(k: Seq<LibvirtDomain>, d: LibvirtDomain) -> Seq<LibvirtDomain> {
    match uuid_index(k, d.uuid@) {
        Some(i) => k.update(i, d),
        None => k.push(d),
    }
}

fn filter_ids(v: &Vec<i32>, ts: &Vec<i32>) -> (r: Vec<i32>)
    ensures
        r@ == v@.filter(pid_outside(ts@)),
{
    let mut out: Vec<i32> = Vec::new();
    let mut i: usize = 0;
    while i < v.len()
        invariant
            i <= v@.len(),
            out@ == v@.take(i as int).filter(pid_outside(ts@)),
        decreases v@.len() - i,
    {
        proof {
            assert(v@.take(i + 1).drop_last() =~= v@.take(i as int));
            assert(v@.take(i + 1).last() == v@[i as int]);
            reveal(Seq::filter);
        }
        if !contains_i32(ts, v[i]) {
            out.push(v[i]);
        }
        i = i + 1;
    }
    assert(v@.take(i as int) =~= v@);
    out
}

fn filter_threads(v: &Vec<QemuVcpuThread>, ts: &Vec<i32>) -> (r: Vec<QemuVcpuThread>)
    ensures
        r@ == v@.filter(thread_outside(ts@)),
{
    let mut out: Vec<QemuVcpuThread> = Vec::new();
    let mut i: usize = 0;
    while i < v.len()
        invariant
            i <= v@.len(),
            out@ == v@.take(i as int).filter(thread_outside(ts@)),
        decreases v@.len() - i,
    {
        proof {
            assert(v@.take(i + 1).drop_last() =~= v@.take(i as int));
            assert(v@.take(i + 1).last() == v@[i as int]);
            reveal(Seq::filter);
        }
        if !contains_i32(ts, v[i].tid) {
            out.push(v[i]);
        }
        i = i + 1;
    }
    assert(v@.take(i as int) =~= v@);
    out
}

fn filter_identities(v: &Vec<HostTaskIdentity>, ts: &Vec<i32>) -> (r: Vec<HostTaskIdentity>)
    ensures
        r@ == v@.filter(identity_outside(ts@)),
{
    let mut out: Vec<HostTaskIdentity> = Vec::new();
    let mut i: usize = 0;
    while i < v.len()
        invariant
            i <= v@.len(),
            out@ == v@.take(i as int).filter(identity_outside(ts@)),
        decreases v@.len() - i,
    {
        proof {
            assert(v@.take(i + 1).drop_last() =~= v@.take(i as int));
            assert(v@.take(i + 1).last() == v@[i as int]);
            reveal(Seq::filter);
        }
        if !contains_i32(ts, v[i].task_id) {
            out.push(v[i]);
        }
        i = i + 1;
    }
    assert(v@.take(i as int) =~= v@);
    out
}

/// A domain that `stripped_from` made holds no task of `ts`.
proof fn lemma_stripped_has_no(x: LibvirtDomain, y: LibvirtDomain, ts: Seq<i32>, t: i32)
    requires
        stripped_from(x, y, ts),
        ts.contains(t),
    ensures
        !has_task(y, t),
{
    broadcast use vstd::seq_lib::group_filter_ensures;
    if y.qemu_pids@.contains(t) {
        let i = choose|i: int| 0 <= i < y.qemu_pids@.len() && y.qemu_pids@[i] == t;
        assert(pid_outside(ts)(y.qemu_pids@[i]));
    }
    if y.qemu_tids@.contains(t) {
        let i = choose|i: int| 0 <= i < y.qemu_tids@.len() && y.qemu_tids@[i] == t;
        assert(pid_outside(ts)(y.qemu_tids@[i]));
    }
    if exists|i: int| 0 <= i < y.vcpu_threads@.len() && (#[trigger] y.vcpu_threads@[i]).tid == t {
        let i = choose|i: int| 0 <= i < y.vcpu_threads@.len() && (#[trigger] y.vcpu_threads@[i]).tid == t;
        assert(thread_outside(ts)(y.vcpu_threads@[i]));
    }
    if exists|i: int| 0 <= i < y.qemu_task_identities@.len() && (#[trigger] y.qemu_task_identities@[i]).task_id == t {
        let i = choose|i: int|
            0 <= i < y.qemu_task_identities@.len() && (#[trigger] y.qemu_task_identities@[i]).task_id == t;
        assert(identity_outside(ts)(y.qemu_task_identities@[i]));
    }
}

/// After `d` took its tasks, a domain with another UUID holds none of them.
proof fn lemma_stripped_kept_disjoint(o: Seq<LibvirtDomain>, d: LibvirtDomain, k: Seq<LibvirtDomain>, t: i32)
    requires
        stripped_kept(o, d, k),
        has_task(d, t),
    ensures
        forall|j: int| 0 <= j < k.len() && (#[trigger] k[j]).uuid@ != d.uuid@ ==> !has_task(k[j], t),
    decreases o.len(),
{
    if o.len() > 0 {
        let x = o.last();
        let ts = task_list(d);
        lemma_task_list_has_task(d, t);
        if x.uuid@ == d.uuid@ {
            lemma_stripped_kept_disjoint(o.drop_last(), d, k.drop_last(), t);
            assert forall|j: int| 0 <= j < k.len() && (#[trigger] k[j]).uuid@ != d.uuid@ implies !has_task(k[j], t) by {
                if j < k.len() - 1 {
                    assert(k[j] == k.drop_last()[j]);
                }
            }
        } else if keeps_task(x, ts) {
            lemma_stripped_kept_disjoint(o.drop_last(), d, k.drop_last(), t);
            lemma_stripped_has_no(x, k.last(), ts, t);
            assert forall|j: int| 0 <= j < k.len() && (#[trigger] k[j]).uuid@ != d.uuid@ implies !has_task(k[j], t) by {
                if j < k.len() - 1 {
                    assert(k[j] == k.drop_last()[j]);
                }
            }
        } else {
            lemma_stripped_kept_disjoint(o.drop_last(), d, k, t);
        }
    }
}

proof fn lemma_uuid_index_facts(ds: Seq<LibvirtDomain>, u: Seq<char>)
    ensures
        uuid_index(ds, u) matches Some(i) ==> 0 <= i < ds.len() && ds[i].uuid@ == u,
    decreases ds.len(),
{
    if ds.len() > 0 {
        lemma_uuid_index_facts(ds.drop_last(), u);
    }
}

proof fn lemma_uuid_index_is(ds: Seq<LibvirtDomain>, u: Seq<char>, i: int)
    requires
        0 <= i < ds.len(),
        ds[i].uuid@ == u,
        forall|j: int| 0 <= j < i ==> ds[j].uuid@ != u,
    ensures
        uuid_index(ds, u) == Some(i),
    decreases ds.len(),
{
    if i < ds.len() - 1 {
        assert(ds.drop_last()[i] == ds[i]);
        lemma_uuid_index_is(ds.drop_last(), u, i);
    } else {
        lemma_uuid_index_none(ds.drop_last(), u);
    }
}

proof fn lemma_uuid_index_none(ds: Seq<LibvirtDomain>, u: Seq<char>)
    requires
        forall|j: int| 0 <= j < ds.len() ==> ds[j].uuid@ != u,
    ensures
        uuid_index(ds, u) is None,
    decreases ds.len(),
{
    if ds.len() > 0 {
        assert forall|j: int| 0 <= j < ds.len() - 1 implies ds.drop_last()[j].uuid@ != u by {
            assert(ds.drop_last()[j] == ds[j]);
        }
        lemma_uuid_index_none(ds.drop_last(), u);
    }
}

impl LibvirtDomainDiscovery {
    /// Adds or replaces `domain` (by UUID). Its host tasks are taken away
    /// from every domain with another UUID, and such a domain that is left
    /// without a task is dropped.
    pub fn upsert_domain(&mut self, domain: LibvirtDomain)
        ensures
            exists|k: Seq<LibvirtDomain>|
                stripped_kept(old(self).domains@, domain, k) && final(self).domains@ == #[trigger] placed(k, domain),
            final(self).domains@.contains(domain),
            forall|i: int, t: i32|
                0 <= i < final(self).domains@.len() && final(self).domains@[i].uuid@ != domain.uuid@
                    && #[trigger] has_task(domain, t) ==> !#[trigger] has_task(final(self).domains@[i], t),
    {
        let ts = domain_task_ids(&domain);
        let mut all: Vec<LibvirtDomain> = Vec::new();
        std::mem::swap(&mut all, &mut self.domains);
        let ghost orig = all@;
        let n = all.len();
        let mut kept: Vec<LibvirtDomain> = Vec::new();
        let mut i: usize = 0;
        while i < n
            invariant
                n == orig.len(),
                i <= n,
                ts@ == task_list(domain),
                all@ == orig.subrange(i as int, n as int),
                stripped_kept(orig.take(i as int), domain, kept@),
            decreases n - i,
        {
            let x = all.remove(0);
            proof {
                assert(orig.take(i as int + 1).drop_last() =~= orig.take(i as int));
                assert(orig.take(i as int + 1).last() == x);
                assert(all@ =~= orig.subrange(i as int + 1, n as int));
            }
            if crate::text::str_eq(x.uuid.as_str(), domain.uuid.as_str()) {
                let ghost before = kept@;
                kept.push(x);
                assert(kept@.drop_last() =~= before);
            } else {
                let LibvirtDomain {
                    name,
                    uuid,
                    qmp_socket,
                    qemu_pids,
                    qemu_tids,
                    vcpu_threads,
                    qemu_task_identities,
                    source,
                } = x;
                let y = LibvirtDomain {
                    name,
                    uuid,
                    qmp_socket,
                    qemu_pids: filter_ids(&qemu_pids, &ts),
                    qemu_tids: filter_ids(&qemu_tids, &ts),
                    vcpu_threads: filter_threads(&vcpu_threads, &ts),
                    qemu_task_identities: filter_identities(&qemu_task_identities, &ts),
                    source,
                };
                if y.qemu_pids.len() > 0 || y.qemu_tids.len() > 0 || y.vcpu_threads.len() > 0
                    || y.qemu_task_identities.len() > 0 {
                    let ghost before = kept@;
                    kept.push(y);
                    assert(kept@.drop_last() =~= before);
                }
            }
            i = i + 1;
        }
        assert(orig.take(n as int) =~= orig);
        let ghost k = kept@;
        let m = kept.len();
        let mut j: usize = 0;
        while j < m
            invariant
                m == kept@.len(),
                kept@ == k,
                j <= m,
                forall|q: int| 0 <= q < j ==> kept@[q].uuid@ != domain.uuid@,
            ensures
                j <= m,
                forall|q: int| 0 <= q < j ==> kept@[q].uuid@ != domain.uuid@,
                j < m ==> kept@[j as int].uuid@ == domain.uuid@,
            decreases m - j,
        {
            if crate::text::str_eq(kept[j].uuid.as_str(), domain.uuid.as_str()) {
                break;
            }
            j = j + 1;
        }
        proof {
            assert forall|t: i32| has_task(domain, t) implies forall|q: int|
                0 <= q < k.len() && (#[trigger] k[q]).uuid@ != domain.uuid@ ==> !has_task(k[q], t) by {
                lemma_stripped_kept_disjoint(orig, domain, k, t);
            }
        }
        let ghost placed_at: int = j as int;
        if j < m {
            proof {
                lemma_uuid_index_is(k, domain.uuid@, j as int);
            }
            kept.set(j, domain);
        } else {
            proof {
                lemma_uuid_index_none(k, domain.uuid@);
            }
            kept.push(domain);
        }
        assert(kept@[placed_at] == domain);
        assert(kept@ == placed(k, domain));
        self.domains = kept;
    }
}

fn copy_of<T: Copy>(v: &Vec<T>) -> (r: Vec<T>)
    ensures
        r@ == v@,
{
    let mut out: Vec<T> = Vec::new();
    let mut i: usize = 0;
    while i < v.len()
        invariant
            i <= v@.len(),
            out@ == v@.take(i as int),
        decreases v@.len() - i,
    {
        out.push(v[i]);
        i = i + 1;
        assert(out@ =~= v@.take(i as int));
    }
    assert(v@.take(i as int) =~= v@);
    out
}


/// `r` is what is left of the domains `o` with another UUID than `d`'s
/// once `d` took its tasks: each such domain loses `d`'s tasks and stays,
/// in order, exactly when a task of its own is left.
pub open spec fn others_kept(o: Seq<LibvirtDomain>, d: LibvirtDomain, r: Seq<LibvirtDomain>) -> bool
    decreases o.len(),
{
    if o.len() == 0 {
        r.len() == 0
    } else {
        let x = o.last();
        let ts = task_list(d);
        if x.uuid@ == d.uuid@ {
            others_kept(o.drop_last(), d, r)
        } else if keeps_task(x, ts) {
            r.len() > 0 && stripped_from(x, r.last(), ts) && others_kept(o.drop_last(), d, r.drop_last())
        } else {
            others_kept(o.drop_last(), d, r)
        }
    }
}

/// No two domains share a UUID.
pub open spec fn uuids_distinct(o: Seq<LibvirtDomain>) -> bool {
    forall|i: int, j: int| 0 <= i < j < o.len() ==> (#[trigger] o[i]).uuid@ != (#[trigger] o[j]).uuid@
}

pub open spec fn has_uuid(o: Seq<LibvirtDomain>, u: Seq<char>) -> bool {
    exists|j: int| 0 <= j < o.len() && (#[trigger] o[j]).uuid@ == u
}

proof fn lemma_stripped_kept_split(o: Seq<LibvirtDomain>, d: LibvirtDomain, k: Seq<LibvirtDomain>)
    requires
        uuids_distinct(o),
        stripped_kept(o, d, k),
    ensures
        !has_uuid(o, d.uuid@) ==> others_kept(o, d, k) && forall|i: int| 0 <= i < k.len() ==> (#[trigger] k[i]).uuid@ != d.uuid@,
        has_uuid(o, d.uuid@) ==> exists|p: int| {
            &&& 0 <= p < k.len()
            &&& (#[trigger] k[p]).uuid@ == d.uuid@
            &&& forall|i: int| 0 <= i < k.len() && i != p ==> (#[trigger] k[i]).uuid@ != d.uuid@
            &&& others_kept(o, d, k.remove(p))
        },
    decreases o.len(),
{
    if o.len() > 0 {
        let x = o.last();
        let o1 = o.drop_last();
        let ts = task_list(d);
        assert(uuids_distinct(o1)) by {
            assert forall|i: int, j: int| 0 <= i < j < o1.len() implies (#[trigger] o1[i]).uuid@ != (#[trigger] o1[j]).uuid@ by {
                assert(o1[i] == o[i] && o1[j] == o[j]);
            }
        }
        assert(has_uuid(o, d.uuid@) == (has_uuid(o1, d.uuid@) || x.uuid@ == d.uuid@)) by {
            if has_uuid(o, d.uuid@) {
                let j = choose|j: int| 0 <= j < o.len() && (#[trigger] o[j]).uuid@ == d.uuid@;
                if j < o1.len() {
                    assert(o1[j] == o[j]);
                }
            }
            if has_uuid(o1, d.uuid@) {
                let j = choose|j: int| 0 <= j < o1.len() && (#[trigger] o1[j]).uuid@ == d.uuid@;
                assert(o[j] == o1[j]);
            }
            if x.uuid@ == d.uuid@ {
                assert(o[o.len() - 1] == x);
            }
        }
        if x.uuid@ == d.uuid@ {
            let k1 = k.drop_last();
            assert(!has_uuid(o1, d.uuid@)) by {
                if has_uuid(o1, d.uuid@) {
                    let j = choose|j: int| 0 <= j < o1.len() && (#[trigger] o1[j]).uuid@ == d.uuid@;
                    assert(o[j] == o1[j]);
                    assert(o[o.len() - 1] == x);
                }
            }
            lemma_stripped_kept_split(o1, d, k1);
            let p = k.len() - 1;
            assert(k.remove(p) =~= k1);
            assert forall|i: int| 0 <= i < k.len() && i != p implies (#[trigger] k[i]).uuid@ != d.uuid@ by {
                assert(k[i] == k1[i]);
            }
            assert(k[p] == x);
        } else if keeps_task(x, ts) {
            let k1 = k.drop_last();
            let y = k.last();
            lemma_stripped_kept_split(o1, d, k1);
            assert(y.uuid@ == x.uuid@);
            if has_uuid(o1, d.uuid@) {
                let p = choose|p: int| {
                    &&& 0 <= p < k1.len()
                    &&& (#[trigger] k1[p]).uuid@ == d.uuid@
                    &&& forall|i: int| 0 <= i < k1.len() && i != p ==> (#[trigger] k1[i]).uuid@ != d.uuid@
                    &&& others_kept(o1, d, k1.remove(p))
                };
                assert(k.remove(p) =~= k1.remove(p).push(y));
                assert(k.remove(p).drop_last() =~= k1.remove(p));
                assert(k[p] == k1[p]);
                assert forall|i: int| 0 <= i < k.len() && i != p implies (#[trigger] k[i]).uuid@ != d.uuid@ by {
                    if i < k1.len() {
                        assert(k[i] == k1[i]);
                    }
                }
            } else {
                assert forall|i: int| 0 <= i < k.len() implies (#[trigger] k[i]).uuid@ != d.uuid@ by {
                    if i < k1.len() {
                        assert(k[i] == k1[i]);
                    }
                }
            }
        } else {
            lemma_stripped_kept_split(o1, d, k);
        }
    }
}

/// The upsert law: where no two domains share a UUID, after `domain` is
/// upserted (`stripped_kept` and `placed`, as `upsert_domain` states)
/// exactly one stored domain has its UUID and it is `domain`, and taking it
/// out leaves the old domains of other UUIDs, in their order, each without
/// `domain`'s tasks and dropped exactly when none of its own is left.
pub proof fn lemma_upsert_domain_law(o: Seq<LibvirtDomain>, domain: LibvirtDomain, k: Seq<LibvirtDomain>)
    requires
        uuids_distinct(o),
        stripped_kept(o, domain, k),
    ensures
        exists|p: int| {
            &&& 0 <= p < placed(k, domain).len()
            &&& (#[trigger] placed(k, domain)[p]) == domain
            &&& forall|i: int| 0 <= i < placed(k, domain).len() && i != p ==> (#[trigger] placed(k, domain)[i]).uuid@ != domain.uuid@
            &&& others_kept(o, domain, placed(k, domain).remove(p))
        },
{
    lemma_stripped_kept_split(o, domain, k);
    let f = placed(k, domain);
    if has_uuid(o, domain.uuid@) {
        let p = choose|p: int| {
            &&& 0 <= p < k.len()
            &&& (#[trigger] k[p]).uuid@ == domain.uuid@
            &&& forall|i: int| 0 <= i < k.len() && i != p ==> (#[trigger] k[i]).uuid@ != domain.uuid@
            &&& others_kept(o, domain, k.remove(p))
        };
        lemma_uuid_index_is(k, domain.uuid@, p);
        assert(f == k.update(p, domain));
        assert(f.remove(p) =~= k.remove(p));
        assert(f[p] == domain);
        assert forall|i: int| 0 <= i < f.len() && i != p implies (#[trigger] f[i]).uuid@ != domain.uuid@ by {
            assert(f[i] == k[i]);
        }
    } else {
        lemma_uuid_index_none(k, domain.uuid@);
        let p = k.len() as int;
        assert(f == k.push(domain));
        assert(f.remove(p) =~= k);
        assert(f[p] == domain);
        assert forall|i: int| 0 <= i < f.len() && i != p implies (#[trigger] f[i]).uuid@ != domain.uuid@ by {
            assert(f[i] == k[i]);
        }
    }
}

// ---------------------------------------------------------------------------
// Domains from lifecycle events
// ---------------------------------------------------------------------------

/// The domain that a lifecycle event describes: it needs a non-blank name
/// and UUID (both trimmed) and at least one task; each task becomes a task
/// identity without a start time.
pub open spec fn event_domain(e: LibvirtLifecycleEvent, d: LibvirtDomain) -> bool {
    &&& e.name matches Some(n) && d.name@ == trim(n@)
    &&& d.uuid@ == trim(e.uuid@)
    &&& d.qmp_socket == e.qmp_socket
    &&& d.qemu_pids@ == (match e.qemu_pid {
        Some(p) => seq![p],
        None => Seq::<i32>::empty(),
    })
    &&& d.qemu_tids@ == e.qemu_tids@
    &&& d.vcpu_threads@ == e.vcpu_threads@
    &&& strictly_increasing(identity_tids(d.qemu_task_identities@))
    &&& identity_tids(d.qemu_task_identities@).to_set() == e.named_tasks()
    &&& forall|i: int| 0 <= i < d.qemu_task_identities@.len() ==> (#[trigger] d.qemu_task_identities@[i]).start_time_ticks is None
    &&& d.source == LibvirtDomainSource::Lifecycle
}

/// A strictly increasing sequence has as many items as its set.
pub proof fn lemma_sorted_count(s: Seq<i32>)
    requires
        strictly_increasing(s),
    ensures
        s.to_set().len() == s.len(),
{
    assert(s.no_duplicates()) by {
        assert forall|a: int, c: int| 0 <= a < s.len() && 0 <= c < s.len() && a != c implies s[a] != s[c] by {
            if a < c {
            } else {
            }
        }
    }
    s.unique_seq_to_set();
}

/// The event names a domain: a non-blank name and UUID, and a task.
pub open spec fn forms_domain(e: LibvirtLifecycleEvent) -> bool {
    &&& e.name is Some
    &&& trim(e.name->0@).len() > 0
    &&& trim(e.uuid@).len() > 0
    &&& e.named_tasks().len() > 0
}

impl LibvirtLifecycleEvent {
    /// The domain the event describes, if it names one with a task.
    pub fn to_domain(&self) -> (r: Option<LibvirtDomain>)
        ensures
            match r {
                Some(d) => event_domain(*self, d),
                None => !forms_domain(*self),
            },
            r is Some == forms_domain(*self),
    {
        let name = match &self.name {
            Some(n) => trim_owned(n.as_str()),
            None => return None,
        };
        let uuid = trim_owned(self.uuid.as_str());
        if crate::text::str_is_empty(name.as_str()) || crate::text::str_is_empty(uuid.as_str()) {
            return None;
        }
        let tasks = self.task_ids();
        if tasks.len() == 0 {
            assert(tasks@.to_set() =~= Set::<i32>::empty());
            return None;
        }
        proof {
            lemma_sorted_count(tasks@);
        }
        let qemu_pids = match self.qemu_pid {
            Some(p) => vec![p],
            None => Vec::new(),
        };
        let mut ids: Vec<HostTaskIdentity> = Vec::new();
        let mut i: usize = 0;
        while i < tasks.len()
            invariant
                i <= tasks@.len(),
                ids@.len() == i,
                forall|q: int| 0 <= q < i ==> (#[trigger] ids@[q]).task_id == tasks@[q] && ids@[q].start_time_ticks is None,
            decreases tasks@.len() - i,
        {
            ids.push(HostTaskIdentity { task_id: tasks[i], start_time_ticks: None });
            i = i + 1;
        }
        assert(identity_tids(ids@) =~= tasks@);
        let d = LibvirtDomain {
            name,
            uuid,
            qmp_socket: crate::resolver::clone_opt_string(&self.qmp_socket),
            qemu_pids,
            qemu_tids: copy_of(&self.qemu_tids),
            vcpu_threads: copy_of(&self.vcpu_threads),
            qemu_task_identities: ids,
            source: LibvirtDomainSource::Lifecycle,
        };
        assert(d.qemu_pids@ =~= (match self.qemu_pid {
            Some(p) => seq![p],
            None => Seq::<i32>::empty(),
        }));
        Some(d)
    }
}


// ---------------------------------------------------------------------------
// Applying lifecycle events to the resolver
// ---------------------------------------------------------------------------

/// The cache entry is dropped when a lifecycle event for domain `uuid`
/// with tasks `tasks` arrives: its task is one of them, or its identity is
/// that domain's.
pub open spec fn invalidated_by(e: (i32, CachedIdentity), uuid: Seq<char>, tasks: Set<i32>) -> bool {
    tasks.contains(e.0) || (e.1.value.libvirt_uuid matches Some(u) && u@ == uuid)
}

pub open spec fn kept_entry(uuid: Seq<char>, tasks: Set<i32>) -> spec_fn((i32, CachedIdentity)) -> bool {
    |e: (i32, CachedIdentity)| !invalidated_by(e, uuid, tasks)
}

impl VmIdentityResolver {
    /// Drops the cached identities of domain `uuid` and of the tasks
    /// `tasks`, and returns how many were dropped.
    pub fn invalidate_libvirt_cache(&mut self, uuid: &str, tasks: &Vec<i32>) -> (r: usize)
        requires
            old(self).wf(),
        ensures
            final(self).wf(),
            *final(self) == (VmIdentityResolver { cache: final(self).cache, ..*old(self) }),
            final(self).cache@ == old(self).cache@.filter(kept_entry(uuid@, tasks@.to_set())),
            r == old(self).cache@.len() - final(self).cache@.len(),
    {
        let mut all: Vec<(i32, CachedIdentity)> = Vec::new();
        std::mem::swap(&mut all, &mut self.cache);
        let ghost orig = all@;
        let n = all.len();
        let mut kept: Vec<(i32, CachedIdentity)> = Vec::new();
        let mut i: usize = 0;
        while i < n
            invariant
                n == orig.len(),
                i <= n,
                keys_unique(orig),
                all@ == orig.subrange(i as int, n as int),
                kept@ == orig.take(i as int).filter(kept_entry(uuid@, tasks@.to_set())),
                keys_unique(kept@),
                forall|q: int| 0 <= q < kept@.len() ==> exists|p: int| 0 <= p < i && #[trigger] kept@[q] == orig[p],
                kept@.len() <= i,
            decreases n - i,
        {
            let e = all.remove(0);
            proof {
                assert(orig.take(i as int + 1).drop_last() =~= orig.take(i as int));
                assert(orig.take(i as int + 1).last() == e);
                assert(all@ =~= orig.subrange(i as int + 1, n as int));
                reveal(Seq::filter);
            }
            let by_task = contains_i32(tasks, e.0);
            let by_uuid = match &e.1.value.libvirt_uuid {
                Some(u) => crate::text::str_eq(u.as_str(), uuid),
                None => false,
            };
            if !(by_task || by_uuid) {
                let ghost before = kept@;
                kept.push(e);
                proof {
                    assert forall|a: int, b: int| 0 <= a < b < kept@.len() implies kept@[a].0 != kept@[b].0 by {
                        if b == before.len() {
                            let p = choose|p: int| 0 <= p < i && #[trigger] before[a] == orig[p];
                            assert(kept@[a] == before[a]);
                        } else {
                            assert(kept@[a] == before[a] && kept@[b] == before[b]);
                        }
                    }
                    assert forall|q: int| 0 <= q < kept@.len() implies exists|p: int| 0 <= p < i + 1 && #[trigger] kept@[q] == orig[p] by {
                        if q < before.len() {
                            assert(kept@[q] == before[q]);
                            let p = choose|p: int| 0 <= p < i && #[trigger] before[q] == orig[p];
                            assert(kept@[q] == orig[p]);
                        } else {
                            assert(kept@[q] == orig[i as int]);
                        }
                    }
                }
            } else {
                proof {
                    assert forall|q: int| 0 <= q < kept@.len() implies exists|p: int| 0 <= p < i + 1 && #[trigger] kept@[q] == orig[p] by {
                        let p = choose|p: int| 0 <= p < i && #[trigger] kept@[q] == orig[p];
                    }
                }
            }
            i = i + 1;
        }
        assert(orig.take(n as int) =~= orig);
        let dropped = n - kept.len();
        self.cache = kept;
        dropped
    }
}

/// `e` is a blank event of the given category and severity, stamped with
/// `ts` and `stamp`, for VM `vm`.
pub open spec fn base_event(e: Event, category: Category, severity: Severity, ts: String, vm: Seq<char>, stamp: EventStamp) -> bool {
    &&& e.version == 1
    &&& e.schema_version == 2
    &&& e.category == category
    &&& e.severity == severity
    &&& e.ts == ts
    &&& e.vm@ == vm
    &&& e.monotonic_ms == stamp.monotonic_ms
    &&& e.sequence == stamp.sequence
    &&& e.event_id == stamp.event_id
    &&& e.host_id == stamp.host_id
    &&& e.sensor_id == stamp.sensor_id
    &&& e.tenant_id == stamp.tenant_id
    &&& e.is_blank()
}

/// The message of a lifecycle event's sensor event.
pub open spec fn lifecycle_message(kind: LibvirtLifecycleKind, action: Seq<char>, invalidated: nat, task_count: nat) -> Seq<char> {
    "libvirt lifecycle kind="@ + kind.name() + " discovery="@ + action + " cache_invalidated="@ + dec(invalidated)
        + " task_count="@ + dec(task_count)
        + "; file-backed XML discovery remains compatible and live daemon subscription is not enabled by default"@
}

/// The sensor event that reports a lifecycle event: an informational
/// sensor event for the domain, from the lifecycle source, with what
/// happened to the inventory and the cache.
pub open spec fn lifecycle_event_reported(
    ev: Event,
    event: LibvirtLifecycleEvent,
    invalidated: nat,
    action: Seq<char>,
    ts: String,
    stamp: EventStamp,
) -> bool {
    exists|b: Event| {
        &&& #[trigger] base_event(b, Category::Sensor, Severity::Info, ts, "host"@, stamp)
        &&& (Event {
            reason: ev.reason,
            vm_id: ev.vm_id,
            vm_name: ev.vm_name,
            tags: ev.tags,
            identity: ev.identity,
            message: ev.message,
            ..b
        }) == ev
        &&& crate::identity::opt_text(ev.reason) == Some("libvirt_lifecycle"@)
        &&& crate::identity::opt_text(ev.vm_id) == Some("libvirt:"@ + trim(event.uuid@))
        &&& ev.vm_name == event.name
        &&& ev.tags@.map_values(|t: String| t@) == seq!["identity:libvirt"@, "identity:lifecycle"@]
        &&& ev.identity matches Some(id) && id.sources@.map_values(|t: String| t@) == seq![IDENTITY_SOURCE_LIBVIRT_LIFECYCLE@]
            && id.confidence == IdentityConfidence::Medium && !id.start_time_verified && !id.ambiguous
        &&& crate::identity::opt_text(ev.message) == Some(
            lifecycle_message(event.kind, action, invalidated, event.named_tasks().len()),
        )
    }
}

/// The sensor event reporting a lifecycle event.
pub fn libvirt_lifecycle_sensor_event(
    event: &LibvirtLifecycleEvent,
    invalidated: usize,
    discovery_action: &str,
    ts: String,
    stamp: EventStamp,
) -> (ev: Event)
    ensures
        lifecycle_event_reported(ev, *event, invalidated as nat, discovery_action@, ts, stamp),
{
    let mut ev = Event::base(Category::Sensor, Severity::Info, ts, owned("host"), stamp);
    let ghost b = ev;
    ev.reason = Some(owned("libvirt_lifecycle"));
    let u = trim_owned(event.uuid.as_str());
    ev.vm_id = Some(crate::text::cat3("libvirt:", u.as_str(), ""));
    ev.vm_name = crate::resolver::clone_opt_string(&event.name);
    let mut tags: Vec<String> = Vec::new();
    tags.push(owned("identity:libvirt"));
    tags.push(owned("identity:lifecycle"));
    assert(tags@.map_values(|t: String| t@) =~= seq!["identity:libvirt"@, "identity:lifecycle"@]);
    ev.tags = tags;
    let mut sources: Vec<String> = Vec::new();
    sources.push(owned(IDENTITY_SOURCE_LIBVIRT_LIFECYCLE));
    assert(sources@.map_values(|t: String| t@) =~= seq![IDENTITY_SOURCE_LIBVIRT_LIFECYCLE@]);
    ev.identity = Some(IdentityInfo {
        sources,
        confidence: IdentityConfidence::Medium,
        start_time_verified: false,
        ambiguous: false,
    });
    let tasks = event.task_ids();
    proof {
        lemma_sorted_count(tasks@);
    }
    let mut m = owned("libvirt lifecycle kind=");
    push_str(&mut m, event.kind.as_str());
    push_str(&mut m, " discovery=");
    push_str(&mut m, discovery_action);
    push_str(&mut m, " cache_invalidated=");
    let a = u64_to_dec(invalidated as u64);
    push_str(&mut m, a.as_str());
    push_str(&mut m, " task_count=");
    let c = u64_to_dec(tasks.len() as u64);
    push_str(&mut m, c.as_str());
    push_str(&mut m, "; file-backed XML discovery remains compatible and live daemon subscription is not enabled by default");
    ev.message = Some(m);
    proof {
        reveal_strlit("");
        assert(ev.vm_id->0@ =~= "libvirt:"@ + trim(event.uuid@));
        assert(base_event(b, Category::Sensor, Severity::Info, ts, "host"@, stamp));
        assert(tasks@.len() == event.named_tasks().len());
        assert(ev.message->0@ =~= lifecycle_message(event.kind, discovery_action@, invalidated as nat, event.named_tasks().len()));
    }
    assert(Event {
        reason: ev.reason,
        vm_id: ev.vm_id,
        vm_name: ev.vm_name,
        tags: ev.tags,
        identity: ev.identity,
        message: ev.message,
        ..b
    } == ev);
    ev
}

/// What happens to the inventory on a lifecycle event of the domain with
/// UUID `uuid`: a start, resume or migration of a domain the event fully
/// names upserts it ("updated"); a stop removes the domain ("removed", when
/// there was one); anything else leaves it ("unchanged").
pub open spec fn inventory_after(
    o: Option<LibvirtDomainDiscovery>,
    f: Option<LibvirtDomainDiscovery>,
    event: LibvirtLifecycleEvent,
    uuid: Seq<char>,
    action: Seq<char>,
) -> bool {
    match event.kind {
        LibvirtLifecycleKind::Started | LibvirtLifecycleKind::Resumed | LibvirtLifecycleKind::Migrated => {
            if forms_domain(event) {
                &&& action == "updated"@
                &&& exists|dm: LibvirtDomain| #[trigger] event_domain(event, dm) && match o {
                    None => f matches Some(x) && x.domains@ == seq![dm],
                    Some(od) => f matches Some(x) && exists|k: Seq<LibvirtDomain>|
                        stripped_kept(od.domains@, dm, k) && x.domains@ == #[trigger] placed(k, dm),
                }
            } else {
                action == "unchanged"@ && f == o
            }
        },
        LibvirtLifecycleKind::Stopped => match o {
            None => f is None && action == "unchanged"@,
            Some(od) => f matches Some(x) && x.domains@ == od.domains@.filter(|d: LibvirtDomain| d.uuid@ != uuid)
                && action == (if x.domains@.len() != od.domains@.len() { "removed"@ } else { "unchanged"@ }),
        },
        LibvirtLifecycleKind::Paused => f == o && action == "unchanged"@,
    }
}

impl VmIdentityResolver {
    /// Applies a lifecycle event: the inventory follows it
    /// (`inventory_after`), the cached identities of the domain and of its
    /// tasks are dropped, and the event is reported. An event without a
    /// domain UUID is malformed and changes nothing.
    pub fn apply_libvirt_lifecycle_event(
        &mut self,
        event: LibvirtLifecycleEvent,
        ts: String,
        stamp: EventStamp,
    ) -> (r: Result<Event, LibvirtLifecycleError>)
        requires
            old(self).wf(),
        ensures
            final(self).wf(),
            trim(event.uuid@).len() == 0 ==> (*final(self) == *old(self) && (r matches Err(
                LibvirtLifecycleError::MalformedEvent(d),
            ) && d@ == "missing domain uuid"@)),
            trim(event.uuid@).len() > 0 ==> (r matches Ok(ev) && exists|action: Seq<char>, invalidated: nat| {
                &&& inventory_after(old(self).libvirt, final(self).libvirt, event, trim(event.uuid@), action)
                &&& final(self).cache@ == old(self).cache@.filter(
                    kept_entry(trim(event.uuid@), event.named_tasks()),
                )
                &&& invalidated == old(self).cache@.len() - final(self).cache@.len()
                &&& #[trigger] lifecycle_event_reported(ev, event, invalidated, action, ts, stamp)
                &&& *final(self) == (VmIdentityResolver { cache: final(self).cache, libvirt: final(self).libvirt, ..*old(self) })
            }),
    {
        let uuid = trim_owned(event.uuid.as_str());
        if crate::text::str_is_empty(uuid.as_str()) {
            return Err(LibvirtLifecycleError::MalformedEvent(owned("missing domain uuid")));
        }
        let tasks = event.task_ids();
        let ghost o = self.libvirt;
        let mut action = owned("unchanged");
        match event.kind {
            LibvirtLifecycleKind::Started | LibvirtLifecycleKind::Resumed | LibvirtLifecycleKind::Migrated => {
                match event.to_domain() {
                    Some(domain) => {
                        let ghost dm = domain;
                        let mut current: Option<LibvirtDomainDiscovery> = None;
                        std::mem::swap(&mut current, &mut self.libvirt);
                        match current {
                            Some(mut d) => {
                                d.upsert_domain(domain);
                                self.libvirt = Some(d);
                            },
                            None => {
                                let mut v: Vec<LibvirtDomain> = Vec::new();
                                v.push(domain);
                                assert(v@ =~= seq![dm]);
                                self.libvirt = Some(LibvirtDomainDiscovery::from_domains(v));
                            },
                        }
                        action = owned("updated");
                        assert(event_domain(event, dm));
                    },
                    None => {},
                }
            },
            LibvirtLifecycleKind::Stopped => {
                let mut current: Option<LibvirtDomainDiscovery> = None;
                std::mem::swap(&mut current, &mut self.libvirt);
                match current {
                    Some(mut d) => {
                        if d.remove_domain_uuid(uuid.as_str()) {
                            action = owned("removed");
                        }
                        self.libvirt = Some(d);
                    },
                    None => {},
                }
            },
            LibvirtLifecycleKind::Paused => {},
        }
        let ghost mid = *self;
        let invalidated = self.invalidate_libvirt_cache(uuid.as_str(), &tasks);
        let ev = libvirt_lifecycle_sensor_event(&event, invalidated, action.as_str(), ts, stamp);
        assert(inventory_after(o, self.libvirt, event, trim(event.uuid@), action@));
        Ok(ev)
    }
}

/// A source of libvirt lifecycle events. `pending` bounds how many more
/// events it can still deliver; each delivered event lowers it, so that
/// draining a source ends.
pub trait LibvirtLifecycleSource {
    spec fn pending(&self) -> nat;

    fn next_event(&mut self) -> (r: Result<Option<LibvirtLifecycleEvent>, LibvirtLifecycleError>)
        ensures
            r matches Ok(Some(_)) ==> final(self).pending() < old(self).pending(),
    ;
}

/// Lifecycle results handed over in advance, delivered in order.
pub struct QueuedLibvirtLifecycleSource {
    /// The results still to deliver, last one first.
    rev: Vec<Result<LibvirtLifecycleEvent, LibvirtLifecycleError>>,
}

impl QueuedLibvirtLifecycleSource {
    /// The results still to deliver, in delivery order.
    pub closed spec fn queued(&self) -> Seq<Result<LibvirtLifecycleEvent, LibvirtLifecycleError>> {
        self.rev@.reverse()
    }

    pub fn new(events: Vec<Result<LibvirtLifecycleEvent, LibvirtLifecycleError>>) -> (r: Self)
        ensures
            r.queued() == events@,
    {
        let mut events = events;
        let ghost all = events@;
        let mut rev: Vec<Result<LibvirtLifecycleEvent, LibvirtLifecycleError>> = Vec::new();
        while events.len() > 0
            invariant
                all == events@ + rev@.reverse(),
            decreases events@.len(),
        {
            let ghost before = events@;
            let ghost rev_before = rev@;
            let e = events.pop().unwrap();
            rev.push(e);
            proof {
                assert(rev@.reverse() =~= seq![e] + rev_before.reverse());
                assert(before =~= events@.push(e));
                assert(all =~= events@ + rev@.reverse());
            }
        }
        assert(all =~= rev@.reverse());
        QueuedLibvirtLifecycleSource { rev }
    }
}

impl LibvirtLifecycleSource for QueuedLibvirtLifecycleSource {
    closed spec fn pending(&self) -> nat {
        self.rev@.len()
    }

    /// The first queued result: an event, or the error it holds; nothing
    /// once the queue is empty.
    fn next_event(&mut self) -> (r: Result<Option<LibvirtLifecycleEvent>, LibvirtLifecycleError>)
        ensures
            old(self).queued().len() == 0 ==> r == Ok::<Option<LibvirtLifecycleEvent>, LibvirtLifecycleError>(None)
                && final(self).queued() == old(self).queued(),
            old(self).queued().len() > 0 ==> final(self).queued() == old(self).queued().drop_first() && match old(
                self,
            ).queued()[0] {
                Ok(e) => r == Ok::<Option<LibvirtLifecycleEvent>, LibvirtLifecycleError>(Some(e)),
                Err(err) => r == Err::<Option<LibvirtLifecycleEvent>, LibvirtLifecycleError>(err),
            },
    {
        let ghost before = self.rev@;
        match self.rev.pop() {
            None => Ok(None),
            Some(x) => {
                proof {
                    assert(before =~= self.rev@.push(x));
                    assert(before.reverse() =~= seq![x] + self.rev@.reverse());
                    assert(self.rev@.reverse() =~= before.reverse().drop_first());
                }
                match x {
                    Ok(e) => Ok(Some(e)),
                    Err(err) => Err(err),
                }
            },
        }
    }
}

/// The stamp of the `sequence`-th drained lifecycle event.
pub fn sequence_stamp(sequence: u64) -> (r: EventStamp)
    ensures
        r.monotonic_ms == 0,
        r.sequence == sequence,
        r.event_id@ == "evt-"@ + dec(sequence as nat),
        r.host_id is None,
        r.sensor_id is None,
        r.tenant_id is None,
{
    let mut id = owned("evt-");
    let n = u64_to_dec(sequence);
    push_str(&mut id, n.as_str());
    EventStamp { monotonic_ms: 0, sequence, event_id: id, host_id: None, sensor_id: None, tenant_id: None }
}

/// The sequence number of the `i`-th drained event, counting from `first`
/// and staying at the largest value once it is reached.
pub open spec fn drained_sequence(first: u64, i: int) -> u64 {
    if first + i > u64::MAX {
        u64::MAX
    } else {
        (first + i) as u64
    }
}

impl VmIdentityResolver {
    /// Applies every event of `source`, in order, until it has no more; the
    /// first error of the source or of an event stops the drain and is
    /// returned. The events are stamped at `ts` with sequence numbers from
    /// `first_sequence` on.
    pub fn drain_libvirt_lifecycle<S: LibvirtLifecycleSource>(
        &mut self,
        source: &mut S,
        ts: &str,
        first_sequence: u64,
    ) -> (r: Result<Vec<Event>, LibvirtLifecycleError>)
        requires
            old(self).wf(),
        ensures
            final(self).wf(),
            r matches Ok(evs) ==> evs@.len() <= old(source).pending() && forall|i: int|
                0 <= i < evs@.len() ==> {
                    &&& (#[trigger] evs@[i]).sequence == drained_sequence(first_sequence, i)
                    &&& evs@[i].ts@ == ts@
                    &&& crate::identity::opt_text(evs@[i].reason) == Some("libvirt_lifecycle"@)
                },
    {
        let mut events: Vec<Event> = Vec::new();
        let mut seq = first_sequence;
        loop
            invariant
                self.wf(),
                events@.len() + source.pending() <= old(source).pending(),
                seq == drained_sequence(first_sequence, events@.len() as int),
                forall|i: int|
                    0 <= i < events@.len() ==> {
                        &&& (#[trigger] events@[i]).sequence == drained_sequence(first_sequence, i)
                        &&& events@[i].ts@ == ts@
                        &&& crate::identity::opt_text(events@[i].reason) == Some("libvirt_lifecycle"@)
                    },
            decreases source.pending(),
        {
            let next = source.next_event();
            let event = match next {
                Err(e) => {
                    return Err(e);
                },
                Ok(None) => {
                    return Ok(events);
                },
                Ok(Some(event)) => event,
            };
            let stamp = sequence_stamp(seq);
            let ghost st = stamp;
            let t = owned(ts);
            let ghost tg = t;
            match self.apply_libvirt_lifecycle_event(event, t, stamp) {
                Err(e) => {
                    return Err(e);
                },
                Ok(ev) => {
                    proof {
                        let b = choose|b: Event|
                            #[trigger] base_event(b, Category::Sensor, Severity::Info, tg, "host"@, st) && (Event {
                                reason: ev.reason,
                                vm_id: ev.vm_id,
                                vm_name: ev.vm_name,
                                tags: ev.tags,
                                identity: ev.identity,
                                message: ev.message,
                                ..b
                            }) == ev;
                        assert(ev.sequence == b.sequence);
                        assert(ev.ts == b.ts);
                    }
                    events.push(ev);
                },
            }
            seq = if seq == u64::MAX {
                u64::MAX
            } else {
                seq + 1
            };
        }
    }
}

} // verus!
