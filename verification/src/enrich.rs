//! Attaching a VM identity to an event: the identity fields and tags, the
//! merged identity evidence, and a rate-limited sensor event for identity
//! conflicts.
use vstd::prelude::*;
use crate::event::{Category, Event, EventStamp, IdentityConfidence, IdentityInfo, Severity};
use crate::identity::{
    opt_text, push_identity_source, stable_pid_id, stable_pid_text, with_source, IdentityConflict,
    IdentityConflictReason, IdentityEnrichment, VmIdentity,
};
use crate::lifecycle::base_event;
use crate::resolver::{clone_opt_string, clone_string_vec, resolved, IdentityResolution, VmIdentityResolver};
use crate::text::{dec, dec_int, i64_to_dec, owned, push_str, views};

verus! {

/// How long a conflict of one task and reason is not reported again.
pub const IDENTITY_CONFLICT_COOLDOWN_MS: u64 = 60000;

/// `base` with each of `add` appended, in order, unless already there.
pub open spec fn with_sources(base: Seq<Seq<char>>, add: Seq<Seq<char>>) -> Seq<Seq<char>>
    decreases add.len(),
{
    if add.len() == 0 {
        base
    } else {
        with_source(with_sources(base, add.drop_last()), add.last())
    }
}

fn push_all(out: &mut Vec<String>, add: &Vec<String>)
    ensures
        views(final(out)@) == with_sources(views(old(out)@), views(add@)),
{
    let mut i: usize = 0;
    while i < add.len()
        invariant
            i <= add@.len(),
            views(out@) == with_sources(views(old(out)@), views(add@).take(i as int)),
        decreases add@.len() - i,
    {
        push_identity_source(out, add[i].as_str());
        proof {
            assert(views(add@).take(i + 1).drop_last() =~= views(add@).take(i as int));
            assert(views(add@).take(i + 1).last() == add@[i as int]@);
        }
        i = i + 1;
    }
    assert(views(add@).take(i as int) =~= views(add@));
}

/// The identity evidence of an event after merging `ident` into `o`: the
/// sources joined, verification and ambiguity accumulated, and the higher
/// confidence, or low when ambiguous.
pub open spec fn merged_info(o: Option<IdentityInfo>, ident: VmIdentity, r: IdentityInfo) -> bool {
    let (sources, conf, stv, amb) = match o {
        Some(i) => (views(i.sources@), i.confidence, i.start_time_verified, i.ambiguous),
        None => (Seq::<Seq<char>>::empty(), IdentityConfidence::Low, false, false),
    };
    &&& views(r.sources@) == with_sources(sources, views(ident.identity_sources@))
    &&& r.start_time_verified == (stv || ident.start_time_verified)
    &&& r.ambiguous == (amb || ident.ambiguous)
    &&& r.confidence == (if r.ambiguous {
        IdentityConfidence::Low
    } else if conf.spec_rank() >= ident.identity_confidence.spec_rank() {
        conf
    } else {
        ident.identity_confidence
    })
}

/// Merges the identity evidence of `ident` into the event's.
pub fn merge_event_identity(ev: &mut Event, ident: &VmIdentity)
    ensures
        *final(ev) == (Event { identity: final(ev).identity, ..*old(ev) }),
        final(ev).identity matches Some(r) && merged_info(old(ev).identity, *ident, r),
{
    let mut info = match &ev.identity {
        Some(i) => IdentityInfo {
            sources: clone_string_vec(&i.sources),
            confidence: i.confidence,
            start_time_verified: i.start_time_verified,
            ambiguous: i.ambiguous,
        },
        None => IdentityInfo {
            sources: Vec::new(),
            confidence: IdentityConfidence::Low,
            start_time_verified: false,
            ambiguous: false,
        },
    };
    assert(views(info.sources@) == match ev.identity {
        Some(i) => views(i.sources@),
        None => Seq::<Seq<char>>::empty(),
    });
    push_all(&mut info.sources, &ident.identity_sources);
    info.start_time_verified = info.start_time_verified || ident.start_time_verified;
    info.ambiguous = info.ambiguous || ident.ambiguous;
    info.confidence = if info.ambiguous {
        IdentityConfidence::Low
    } else {
        info.confidence.max(ident.identity_confidence)
    };
    ev.identity = Some(info);
}

// ---------------------------------------------------------------------------
// Identity conflicts
// ---------------------------------------------------------------------------

/// The severity a conflict is reported with.
pub open spec fn conflict_severity(r: IdentityConflictReason) -> Severity {
    if r == IdentityConflictReason::LibvirtNameMismatch || r == IdentityConflictReason::StaleCache {
        Severity::Low
    } else {
        Severity::Medium
    }
}

/// The outcome word of a conflict.
pub open spec fn conflict_outcome(c: IdentityConflict) -> Seq<char> {
    if c.ambiguous {
        "identity_degraded"@
    } else {
        "diagnostic_only"@
    }
}

/// The sensor event that reports conflict `c` of identity `ident`.
pub open spec fn conflict_reported(ev: Event, ident: VmIdentity, c: IdentityConflict, ts: String, stamp: EventStamp) -> bool {
    exists|b: Event| {
        &&& #[trigger] base_event(b, Category::Sensor, conflict_severity(c.reason), ts, "host"@, stamp)
        &&& (Event {
            reason: ev.reason,
            vm_id: ev.vm_id,
            host_pid: ev.host_pid,
            host_tid: ev.host_tid,
            host_start_time_ticks: ev.host_start_time_ticks,
            identity: ev.identity,
            tags: ev.tags,
            message: ev.message,
            ..b
        }) == ev
        &&& opt_text(ev.reason) == Some("identity_conflict"@)
        &&& opt_text(ev.vm_id) == Some(
            if ident.vm_id@.len() == 0 {
                stable_pid_text(c.task_id, ident.host_start_time_ticks)
            } else {
                ident.vm_id@
            },
        )
        &&& if ident.host_pid == c.task_id {
            ev.host_pid == Some(c.task_id) && ev.host_tid is None
        } else {
            ev.host_tid == Some(c.task_id) && ev.host_pid is None
        }
        &&& ev.host_start_time_ticks == ident.host_start_time_ticks
        &&& ev.identity matches Some(i) && views(i.sources@) == views(ident.identity_sources@)
            && i.confidence == ident.identity_confidence && i.start_time_verified == ident.start_time_verified
            && i.ambiguous == (ident.ambiguous || c.ambiguous)
        &&& views(ev.tags@) == seq!["identity:conflict"@, "identity_conflict:"@ + c.reason.name()]
        &&& opt_text(ev.message) == Some(
            "identity conflict reason="@ + c.reason.name() + " task_id="@ + dec_int(c.task_id as int)
                + " outcome="@ + conflict_outcome(c),
        )
    }
}

/// The sensor event reporting an identity conflict.
pub fn identity_conflict_sensor_event(ident: &VmIdentity, conflict: &IdentityConflict, ts: String, stamp: EventStamp) -> (ev: Event)
    ensures
        conflict_reported(ev, *ident, *conflict, ts, stamp),
{
    let mut ev = Event::base(Category::Sensor, conflict.reason.severity(), ts, owned("host"), stamp);
    let ghost b = ev;
    ev.reason = Some(owned("identity_conflict"));
    ev.vm_id = if crate::text::str_is_empty(ident.vm_id.as_str()) {
        Some(stable_pid_id(conflict.task_id, ident.host_start_time_ticks))
    } else {
        Some(owned(ident.vm_id.as_str()))
    };
    if ident.host_pid == conflict.task_id {
        ev.host_pid = Some(conflict.task_id);
    } else {
        ev.host_tid = Some(conflict.task_id);
    }
    ev.host_start_time_ticks = ident.host_start_time_ticks;
    ev.identity = Some(
        IdentityInfo {
            sources: clone_string_vec(&ident.identity_sources),
            confidence: ident.identity_confidence,
            start_time_verified: ident.start_time_verified,
            ambiguous: ident.ambiguous || conflict.ambiguous,
        },
    );
    let mut tags: Vec<String> = Vec::new();
    tags.push(owned("identity:conflict"));
    let mut t2 = owned("identity_conflict:");
    push_str(&mut t2, conflict.reason.as_str());
    tags.push(t2);
    assert(views(tags@) =~= seq!["identity:conflict"@, "identity_conflict:"@ + conflict.reason.name()]);
    ev.tags = tags;
    let outcome = if conflict.ambiguous {
        "identity_degraded"
    } else {
        "diagnostic_only"
    };
    let mut m = owned("identity conflict reason=");
    push_str(&mut m, conflict.reason.as_str());
    push_str(&mut m, " task_id=");
    let t = i64_to_dec(conflict.task_id as i64);
    push_str(&mut m, t.as_str());
    push_str(&mut m, " outcome=");
    push_str(&mut m, outcome);
    ev.message = Some(m);
    assert(base_event(b, Category::Sensor, conflict_severity(conflict.reason), ts, "host"@, stamp));
    ev
}

/// When conflict `(task, reason)` was last reported.
pub open spec fn last_reported(lc: Seq<(i32, IdentityConflictReason, u64)>, task: i32, reason: IdentityConflictReason) -> Option<(int, u64)>
    decreases lc.len(),
{
    if lc.len() == 0 {
        None
    } else {
        match last_reported(lc.drop_last(), task, reason) {
            Some(x) => Some(x),
            None => if lc.last().0 == task && lc.last().1 == reason {
                Some((lc.len() - 1, lc.last().2))
            } else {
                None
            },
        }
    }
}

/// The conflict is still cooling down at `now_ms`.
pub open spec fn cooling(lc: Seq<(i32, IdentityConflictReason, u64)>, c: IdentityConflict, now_ms: u64) -> bool {
    last_reported(lc, c.task_id, c.reason) matches Some(p) && (if now_ms >= p.1 { now_ms - p.1 } else { 0 })
        < IDENTITY_CONFLICT_COOLDOWN_MS
}

/// The reporting times after reporting conflict `c` at `now_ms`.
pub open spec fn reported_at(lc: Seq<(i32, IdentityConflictReason, u64)>, c: IdentityConflict, now_ms: u64) -> Seq<(i32, IdentityConflictReason, u64)> {
    match last_reported(lc, c.task_id, c.reason) {
        Some(p) => lc.update(p.0, (c.task_id, c.reason, now_ms)),
        None => lc.push((c.task_id, c.reason, now_ms)),
    }
}

proof fn lemma_last_reported_facts(lc: Seq<(i32, IdentityConflictReason, u64)>, task: i32, reason: IdentityConflictReason)
    ensures
        last_reported(lc, task, reason) matches Some(p) ==> 0 <= p.0 < lc.len() && lc[p.0] == (task, reason, p.1)
            && forall|j: int| 0 <= j < p.0 ==> !(lc[j].0 == task && lc[j].1 == reason),
        last_reported(lc, task, reason) is None ==> forall|j: int| 0 <= j < lc.len() ==> !(lc[j].0 == task && lc[j].1 == reason),
    decreases lc.len(),
{
    if lc.len() > 0 {
        lemma_last_reported_facts(lc.drop_last(), task, reason);
        assert forall|j: int| 0 <= j < lc.len() - 1 implies lc[j] == lc.drop_last()[j] by {}
    }
}

proof fn lemma_last_reported_is(lc: Seq<(i32, IdentityConflictReason, u64)>, task: i32, reason: IdentityConflictReason, i: int)
    requires
        0 <= i < lc.len(),
        lc[i].0 == task && lc[i].1 == reason,
        forall|j: int| 0 <= j < i ==> !(lc[j].0 == task && lc[j].1 == reason),
    ensures
        last_reported(lc, task, reason) == Some((i, lc[i].2)),
    decreases lc.len(),
{
    if i < lc.len() - 1 {
        assert(lc.drop_last()[i] == lc[i]);
        lemma_last_reported_is(lc.drop_last(), task, reason, i);
    } else {
        lemma_last_reported_facts(lc.drop_last(), task, reason);
        if let Some(p) = last_reported(lc.drop_last(), task, reason) {
            assert(lc.drop_last()[p.0] == lc[p.0]);
        }
    }
}

impl VmIdentityResolver {
    /// The sensor event for the identity's conflict, unless the same task
    /// and reason were reported less than the cooldown ago; reporting
    /// records the time.
    pub fn identity_conflict_event(&mut self, ident: &VmIdentity, now_ms: u64, ts: String, stamp: EventStamp) -> (r: Option<Event>)
        ensures
            match ident.identity_conflict {
                None => r is None && *final(self) == *old(self),
                Some(c) => if cooling(old(self).last_conflicts@, c, now_ms) {
                    r is None && *final(self) == *old(self)
                } else {
                    &&& r matches Some(ev) && conflict_reported(ev, *ident, c, ts, stamp)
                    &&& *final(self) == (VmIdentityResolver { last_conflicts: final(self).last_conflicts, ..*old(self) })
                    &&& final(self).last_conflicts@ == reported_at(old(self).last_conflicts@, c, now_ms)
                },
            },
    {
        let c = match &ident.identity_conflict {
            Some(c) => *c,
            None => return None,
        };
        let mut i: usize = 0;
        while i < self.last_conflicts.len()
            invariant
                i <= self.last_conflicts@.len(),
                *self == *old(self),
                ident.identity_conflict == Some(c),
                forall|j: int| 0 <= j < i ==> !(self.last_conflicts@[j].0 == c.task_id && self.last_conflicts@[j].1 == c.reason),
            decreases self.last_conflicts@.len() - i,
        {
            let (task, reason, at) = self.last_conflicts[i];
            if task == c.task_id && reason == c.reason {
                proof {
                    lemma_last_reported_is(self.last_conflicts@, c.task_id, c.reason, i as int);
                }
                let since = now_ms.saturating_sub(at);
                if since < IDENTITY_CONFLICT_COOLDOWN_MS {
                    return None;
                }
                self.last_conflicts.set(i, (c.task_id, c.reason, now_ms));
                return Some(identity_conflict_sensor_event(ident, &c, ts, stamp));
            }
            i = i + 1;
        }
        proof {
            lemma_last_reported_facts(self.last_conflicts@, c.task_id, c.reason);
            if let Some(p) = last_reported(self.last_conflicts@, c.task_id, c.reason) {
                assert(self.last_conflicts@[p.0].0 == c.task_id);
            }
        }
        self.last_conflicts.push((c.task_id, c.reason, now_ms));
        Some(identity_conflict_sensor_event(ident, &c, ts, stamp))
    }
}

// ---------------------------------------------------------------------------
// Enriching events
// ---------------------------------------------------------------------------

/// `seq![t]` when `b`, else nothing.
pub open spec fn tag_if(b: bool, t: Seq<char>) -> Seq<Seq<char>> {
    if b {
        seq![t]
    } else {
        Seq::empty()
    }
}

/// The vCPU tag: a mapped or ambiguous vCPU, when the event had none.
pub open spec fn vcpu_tags(ident: VmIdentity, vcpu_known: bool) -> Seq<Seq<char>> {
    if vcpu_known {
        Seq::empty()
    } else if ident.vcpu_id is Some {
        seq!["identity:vcpu-map"@]
    } else {
        tag_if(ident.vcpu_ambiguous, "identity:vcpu-ambiguous"@)
    }
}

pub open spec fn conflict_tags(ident: VmIdentity) -> Seq<Seq<char>> {
    match ident.identity_conflict {
        Some(c) => seq!["identity:conflict"@, "identity_conflict:"@ + c.reason.name()],
        None => Seq::empty(),
    }
}

/// The tags that an identity adds to an event, in order; `vcpu_known`
/// says whether the event already had a vCPU.
pub open spec fn identity_tags(ident: VmIdentity, vcpu_known: bool) -> Seq<Seq<char>> {
    vcpu_tags(ident, vcpu_known) + seq!["identity:proc"@] + tag_if(ident.libvirt_uuid is Some, "identity:libvirt"@)
        + tag_if(ident.ambiguous, "identity:ambiguous"@) + conflict_tags(ident) + tag_if(
        ident.qmp_socket is Some,
        "identity:qmp-hint"@,
    )
}

/// The host task an event is about: its thread, else its process.
pub open spec fn event_task(e: Event) -> i32 {
    match e.host_tid {
        Some(t) => t,
        None => e.host_pid->0,
    }
}

/// `f` is event `o` with identity `ident` attached.
pub open spec fn event_enriched(o: Event, f: Event, ident: VmIdentity) -> bool {
    &&& f == (Event {
        host_start_time_ticks: f.host_start_time_ticks,
        vm_id: f.vm_id,
        identity: f.identity,
        vm_name: f.vm_name,
        vm: f.vm,
        vcpu_id: f.vcpu_id,
        vcpu: f.vcpu,
        tags: f.tags,
        ..o
    })
    &&& f.host_start_time_ticks == ident.host_start_time_ticks
    &&& opt_text(f.vm_id) == Some(ident.vm_id@)
    &&& f.identity matches Some(r) && merged_info(o.identity, ident, r)
    &&& match ident.vm_name {
        Some(n) => opt_text(f.vm_name) == Some(n@) && f.vm@ == n@,
        None => f.vm_name == o.vm_name && f.vm == o.vm,
    }
    &&& if o.vcpu_id is None && ident.vcpu_id is Some {
        f.vcpu_id == ident.vcpu_id && f.vcpu == ident.vcpu_id
    } else {
        f.vcpu_id == o.vcpu_id && f.vcpu == o.vcpu
    }
    &&& views(f.tags@) == with_sources(views(o.tags@), identity_tags(ident, o.vcpu_id is Some))
}

fn push_tag(tags: &mut Vec<String>, tag: &str)
    ensures
        views(final(tags)@) == with_source(views(old(tags)@), tag@),
{
    push_identity_source(tags, tag);
}

proof fn lemma_with_sources_push(base: Seq<Seq<char>>, add: Seq<Seq<char>>, x: Seq<char>)
    ensures
        with_sources(base, add.push(x)) == with_source(with_sources(base, add), x),
{
    assert(add.push(x).drop_last() =~= add);
}

proof fn lemma_with_sources_empty(base: Seq<Seq<char>>)
    ensures
        with_sources(base, Seq::<Seq<char>>::empty()) == base,
{
}

fn append_tags(out: &mut Vec<String>, part: Vec<String>)
    ensures
        views(final(out)@) == views(old(out)@) + views(part@),
{
    let ghost base = views(out@);
    let mut i: usize = 0;
    while i < part.len()
        invariant
            i <= part@.len(),
            views(out@) == base + views(part@).take(i as int),
        decreases part@.len() - i,
    {
        let ghost before = out@;
        let x = owned(part[i].as_str());
        out.push(x);
        assert(views(out@) =~= views(before).push(x@));
        assert(views(part@).take(i + 1) =~= views(part@).take(i as int).push(part@[i as int]@));
        i = i + 1;
        assert(views(out@) =~= base + views(part@).take(i as int));
    }
    assert(views(part@).take(i as int) =~= views(part@));
}

fn tag_if_exec(b: bool, t: &str) -> (r: Vec<String>)
    ensures
        views(r@) == tag_if(b, t@),
{
    let mut v: Vec<String> = Vec::new();
    if b {
        v.push(owned(t));
    }
    assert(views(v@) =~= tag_if(b, t@));
    v
}

fn vcpu_tags_exec(ident: &VmIdentity, vcpu_known: bool) -> (r: Vec<String>)
    ensures
        views(r@) == vcpu_tags(*ident, vcpu_known),
{
    if vcpu_known {
        let v: Vec<String> = Vec::new();
        assert(views(v@) =~= Seq::<Seq<char>>::empty());
        v
    } else if ident.vcpu_id.is_some() {
        tag_if_exec(true, "identity:vcpu-map")
    } else {
        tag_if_exec(ident.vcpu_ambiguous, "identity:vcpu-ambiguous")
    }
}

fn conflict_tags_exec(ident: &VmIdentity) -> (r: Vec<String>)
    ensures
        views(r@) == conflict_tags(*ident),
{
    let mut v: Vec<String> = Vec::new();
    if let Some(c) = &ident.identity_conflict {
        v.push(owned("identity:conflict"));
        let mut x = owned("identity_conflict:");
        push_str(&mut x, c.reason.as_str());
        v.push(x);
    }
    assert(views(v@) =~= conflict_tags(*ident));
    v
}

fn identity_tag_list(ident: &VmIdentity, vcpu_known: bool) -> (r: Vec<String>)
    ensures
        views(r@) == identity_tags(*ident, vcpu_known),
{
    let mut t = vcpu_tags_exec(ident, vcpu_known);
    append_tags(&mut t, tag_if_exec(true, "identity:proc"));
    append_tags(&mut t, tag_if_exec(ident.libvirt_uuid.is_some(), "identity:libvirt"));
    append_tags(&mut t, tag_if_exec(ident.ambiguous, "identity:ambiguous"));
    append_tags(&mut t, conflict_tags_exec(ident));
    append_tags(&mut t, tag_if_exec(ident.qmp_socket.is_some(), "identity:qmp-hint"));
    t
}

/// Attaches `ident` to the event (see `event_enriched`).
pub fn attach_identity(ev: &mut Event, ident: &VmIdentity)
    ensures
        event_enriched(*old(ev), *final(ev), *ident),
{
    let vcpu_known = ev.vcpu_id.is_some();
    let tags = identity_tag_list(ident, vcpu_known);
    ev.host_start_time_ticks = ident.host_start_time_ticks;
    ev.vm_id = Some(owned(ident.vm_id.as_str()));
    merge_event_identity(ev, ident);
    if let Some(name) = &ident.vm_name {
        ev.vm_name = Some(owned(name.as_str()));
        ev.vm = owned(name.as_str());
    }
    if !vcpu_known {
        if let Some(v) = ident.vcpu_id {
            ev.vcpu_id = Some(v);
            ev.vcpu = Some(v);
        }
    }
    push_all(&mut ev.tags, &tags);
}

impl VmIdentityResolver {
    /// Resolves the host task of an event (its thread, else its process)
    /// and attaches the identity to it, reporting a conflict at most once
    /// per cooldown. `host` is what the host showed of that task (needed by
    /// a live resolver), `observed_start_time_ticks` its start time. A
    /// disabled resolver, or an event without a host task, leaves the
    /// event as it is.
    pub fn enrich_event(
        &mut self,
        ev: &mut Event,
        now_ms: u64,
        observed_start_time_ticks: Option<u64>,
        host: Option<VmIdentity>,
        ts: String,
        stamp: EventStamp,
    ) -> (r: IdentityEnrichment)
        requires
            old(self).wf(),
            old(self).enable && old(self).live_host_lookup && (old(ev).host_tid is Some || old(ev).host_pid is Some)
                ==> host is Some,
        ensures
            final(self).wf(),
            !old(self).enable || (old(ev).host_tid is None && old(ev).host_pid is None) ==> {
                &&& *final(ev) == *old(ev)
                &&& *final(self) == *old(self)
                &&& r.conflict_event is None && r.cache_result is None && r.confidence is None && !r.ambiguous
                    && r.conflict_reason is None
            },
            old(self).enable && (old(ev).host_tid is Some || old(ev).host_pid is Some) ==> exists|
                mid: VmIdentityResolver,
                res: IdentityResolution,
            | {
                let ident = res.identity;
                &&& #[trigger] resolved(*old(self), mid, event_task(*old(ev)), now_ms, observed_start_time_ticks, host, res)
                &&& event_enriched(*old(ev), *final(ev), ident)
                &&& r.cache_result == Some(res.cache_result)
                &&& r.confidence == Some(ident.identity_confidence)
                &&& r.ambiguous == ident.ambiguous
                &&& r.conflict_reason == (match ident.identity_conflict {
                    Some(c) => Some(c.reason),
                    None => None,
                })
                &&& match ident.identity_conflict {
                    None => r.conflict_event is None && *final(self) == mid,
                    Some(c) => if cooling(mid.last_conflicts@, c, now_ms) {
                        r.conflict_event is None && *final(self) == mid
                    } else {
                        &&& r.conflict_event matches Some(e) && conflict_reported(e, ident, c, ts, stamp)
                        &&& *final(self) == (VmIdentityResolver { last_conflicts: final(self).last_conflicts, ..mid })
                        &&& final(self).last_conflicts@ == reported_at(mid.last_conflicts@, c, now_ms)
                    },
                }
            },
    {
        let ghost old_self = *self;
        let ghost old_ev = *ev;
        if !self.enable {
            return IdentityEnrichment::none();
        }
        let task = match ev.host_tid {
            Some(t) => t,
            None => match ev.host_pid {
                Some(p) => p,
                None => {
                    return IdentityEnrichment::none();
                },
            },
        };
        assert(task == event_task(old_ev));
        let res = self.resolve_pid_with_metrics(task, now_ms, observed_start_time_ticks, host);
        let ghost mid = *self;
        let ghost gres = res;
        assert(resolved(old_self, mid, event_task(old_ev), now_ms, observed_start_time_ticks, host, gres));
        let ident = res.identity;
        attach_identity(ev, &ident);
        let conflict_event = self.identity_conflict_event(&ident, now_ms, ts, stamp);
        let conflict_reason = match &ident.identity_conflict {
            Some(c) => Some(c.reason),
            None => None,
        };
        proof {
            assert(self.wf()) by {
                assert(self.cache == mid.cache);
            }
        }
        IdentityEnrichment {
            conflict_event,
            cache_result: Some(res.cache_result),
            confidence: Some(ident.identity_confidence),
            ambiguous: ident.ambiguous,
            conflict_reason,
        }
    }
}

} // verus!
