//! VM identity resolution for host tasks: parsing of QEMU command lines,
//! cgroups and libvirt domain XML, the libvirt domain inventory, and the
//! rules that decide how far an identity can be trusted.
use vstd::prelude::*;
use crate::event::{Event, IdentityConfidence, IdentityInfo, Severity};
use crate::text::{
    ascii_lower, cat3, dec, dec_int, digits_value, find_from, has_prefix, i64_to_dec, is_blank,
    is_digit, join, join_strings, json_str, occurs_at, owned, parse_signed, parse_unsigned,
    push_str, split_char, split_on, starts_with, str_eq, str_starts_with, string_from, string_of,
    to_ascii_lower, to_chars, trim, trim_owned, u64_to_dec, views, words, words_of,
};

verus! {

pub const IDENTITY_SOURCE_TRACE_COMM: &'static str = "trace_comm";

pub const IDENTITY_SOURCE_PROC_CMDLINE: &'static str = "proc_cmdline";

pub const IDENTITY_SOURCE_PROC_CGROUP: &'static str = "proc_cgroup";

pub const IDENTITY_SOURCE_LIBVIRT_XML: &'static str = "libvirt_xml";

pub const IDENTITY_SOURCE_QMP_SOCKET_HINT: &'static str = "qmp_socket_hint";

pub const IDENTITY_SOURCE_LIBVIRT_LIFECYCLE: &'static str = "libvirt_lifecycle";

pub const IDENTITY_SOURCE_FALLBACK_PID: &'static str = "fallback_pid";

pub const IDENTITY_SOURCE_AMBIGUOUS: &'static str = "ambiguous";

pub const IDENTITY_SOURCE_START_TIME_VERIFIED: &'static str = "start_time_verified";

#[derive(Debug, Clone, PartialEq, Eq)]
pub struct VmIdentity {
    pub host_pid: i32,
    pub host_start_time_ticks: Option<u64>,
    pub vm_id: String,
    pub vm_name: Option<String>,
    pub libvirt_uuid: Option<String>,
    pub cgroup_unit: Option<String>,
    pub qmp_socket: Option<String>,
    pub vcpu_id: Option<i32>,
    pub vcpu_ambiguous: bool,
    pub ambiguous: bool,
    pub identity_sources: Vec<String>,
    pub identity_confidence: IdentityConfidence,
    pub start_time_verified: bool,
    pub identity_conflict: Option<IdentityConflict>,
}

impl Default for VmIdentity {
    fn default() -> (r: Self)
        ensures
            r.host_pid == 0,
            r.host_start_time_ticks is None,
            r.vm_id@.len() == 0,
            r.vm_name is None,
            r.libvirt_uuid is None,
            r.cgroup_unit is None,
            r.qmp_socket is None,
            r.vcpu_id is None,
            !r.vcpu_ambiguous,
            !r.ambiguous,
            r.identity_sources@.len() == 0,
            r.identity_confidence == IdentityConfidence::Low,
            !r.start_time_verified,
            r.identity_conflict is None,
    {
        VmIdentity {
            host_pid: 0,
            host_start_time_ticks: None,
            vm_id: String::new(),
            vm_name: None,
            libvirt_uuid: None,
            cgroup_unit: None,
            qmp_socket: None,
            vcpu_id: None,
            vcpu_ambiguous: false,
            ambiguous: false,
            identity_sources: Vec::new(),
            identity_confidence: IdentityConfidence::Low,
            start_time_verified: false,
            identity_conflict: None,
        }
    }
}

#[derive(Debug, Clone, PartialEq, Eq)]
pub struct LibvirtDomain {
    pub name: String,
    pub uuid: String,
    pub qmp_socket: Option<String>,
    pub qemu_pids: Vec<i32>,
    pub qemu_tids: Vec<i32>,
    pub vcpu_threads: Vec<QemuVcpuThread>,
    pub qemu_task_identities: Vec<HostTaskIdentity>,
    pub source: LibvirtDomainSource,
}

#[derive(Debug, Clone, Copy, PartialEq, Eq, Structural)]
pub enum LibvirtDomainSource {
    Xml,
    Lifecycle,
}

impl LibvirtDomainSource {
    pub open spec fn source_name(self) -> Seq<char> {
        match self {
            LibvirtDomainSource::Xml => IDENTITY_SOURCE_LIBVIRT_XML@,
            LibvirtDomainSource::Lifecycle => IDENTITY_SOURCE_LIBVIRT_LIFECYCLE@,
        }
    }

    /// The identity source that a domain of this origin contributes.
    pub fn identity_source(self) -> (r: &'static str)
        ensures
            r@ == self.source_name(),
    {
        match self {
            LibvirtDomainSource::Xml => IDENTITY_SOURCE_LIBVIRT_XML,
            LibvirtDomainSource::Lifecycle => IDENTITY_SOURCE_LIBVIRT_LIFECYCLE,
        }
    }
}

#[derive(Debug, Clone, Copy, PartialEq, Eq, Structural)]
pub struct HostTaskIdentity {
    pub task_id: i32,
    pub start_time_ticks: Option<u64>,
}

#[derive(Debug, Clone, Copy, PartialEq, Eq, Structural)]
pub struct QemuVcpuThread {
    pub tid: i32,
    pub vcpu_id: i32,
}

#[derive(Debug, Clone)]
pub struct LibvirtDomainDiscovery {
    pub domains: Vec<LibvirtDomain>,
}

#[derive(Debug, Clone, Copy, PartialEq, Eq, Structural)]
pub struct IdentityConflict {
    pub task_id: i32,
    pub reason: IdentityConflictReason,
    pub ambiguous: bool,
}

#[derive(Debug, Clone, Copy, PartialEq, Eq, Hash, Structural)]
pub enum IdentityConflictReason {
    MultipleDomains,
    PidReuse,
    StartTimeUnverified,
    StaleCache,
    ProcCgroupMismatch,
    LibvirtUuidMismatch,
    QmpSocketMismatch,
    LibvirtNameMismatch,
}

#[derive(Debug, Clone, Copy, PartialEq, Eq, Structural)]
pub enum IdentityCacheResult {
    Hit,
    Miss,
    Refusal,
}

impl IdentityConflictReason {
    pub open spec fn spec_index(self) -> usize {
        match self {
            IdentityConflictReason::MultipleDomains => 0,
            IdentityConflictReason::PidReuse => 1,
            IdentityConflictReason::StartTimeUnverified => 2,
            IdentityConflictReason::StaleCache => 3,
            IdentityConflictReason::ProcCgroupMismatch => 4,
            IdentityConflictReason::LibvirtUuidMismatch => 5,
            IdentityConflictReason::QmpSocketMismatch => 6,
            IdentityConflictReason::LibvirtNameMismatch => 7,
        }
    }

    pub fn index(self) -> (r: usize)
        ensures
            r == self.spec_index(),
            r < 8,
    {
        match self {
            IdentityConflictReason::MultipleDomains => 0,
            IdentityConflictReason::PidReuse => 1,
            IdentityConflictReason::StartTimeUnverified => 2,
            IdentityConflictReason::StaleCache => 3,
            IdentityConflictReason::ProcCgroupMismatch => 4,
            IdentityConflictReason::LibvirtUuidMismatch => 5,
            IdentityConflictReason::QmpSocketMismatch => 6,
            IdentityConflictReason::LibvirtNameMismatch => 7,
        }
    }

    pub open spec fn name(self) -> Seq<char> {
        match self {
            IdentityConflictReason::MultipleDomains => "multiple_domains"@,
            IdentityConflictReason::PidReuse => "pid_reuse"@,
            IdentityConflictReason::StartTimeUnverified => "start_time_unverified"@,
            IdentityConflictReason::StaleCache => "stale_cache"@,
            IdentityConflictReason::ProcCgroupMismatch => "proc_cgroup_mismatch"@,
            IdentityConflictReason::LibvirtUuidMismatch => "libvirt_uuid_mismatch"@,
            IdentityConflictReason::QmpSocketMismatch => "qmp_socket_mismatch"@,
            IdentityConflictReason::LibvirtNameMismatch => "libvirt_name_mismatch"@,
        }
    }

    pub fn as_str(self) -> (r: &'static str)
        ensures
            r@ == self.name(),
    {
        match self {
            IdentityConflictReason::MultipleDomains => "multiple_domains",
            IdentityConflictReason::PidReuse => "pid_reuse",
            IdentityConflictReason::StartTimeUnverified => "start_time_unverified",
            IdentityConflictReason::StaleCache => "stale_cache",
            IdentityConflictReason::ProcCgroupMismatch => "proc_cgroup_mismatch",
            IdentityConflictReason::LibvirtUuidMismatch => "libvirt_uuid_mismatch",
            IdentityConflictReason::QmpSocketMismatch => "qmp_socket_mismatch",
            IdentityConflictReason::LibvirtNameMismatch => "libvirt_name_mismatch",
        }
    }

    /// The suffix of the ambiguous VM id for this conflict (none for multiple domains).
    pub open spec fn suffix(self) -> Option<Seq<char>> {
        match self {
            IdentityConflictReason::MultipleDomains => None,
            IdentityConflictReason::PidReuse => Some("pid-reuse"@),
            IdentityConflictReason::StartTimeUnverified => Some("start-time-unverified"@),
            IdentityConflictReason::StaleCache => Some("stale-cache"@),
            IdentityConflictReason::ProcCgroupMismatch => Some("proc-cgroup-mismatch"@),
            IdentityConflictReason::LibvirtUuidMismatch => Some("libvirt-uuid-mismatch"@),
            IdentityConflictReason::QmpSocketMismatch => Some("qmp-socket-mismatch"@),
            IdentityConflictReason::LibvirtNameMismatch => Some("libvirt-name-mismatch"@),
        }
    }

    pub fn vm_id_suffix(self) -> (r: Option<&'static str>)
        ensures
            match r {
                Some(s) => self.suffix() == Some(s@),
                None => self.suffix() is None,
            },
    {
        match self {
            IdentityConflictReason::MultipleDomains => None,
            IdentityConflictReason::PidReuse => Some("pid-reuse"),
            IdentityConflictReason::StartTimeUnverified => Some("start-time-unverified"),
            IdentityConflictReason::StaleCache => Some("stale-cache"),
            IdentityConflictReason::ProcCgroupMismatch => Some("proc-cgroup-mismatch"),
            IdentityConflictReason::LibvirtUuidMismatch => Some("libvirt-uuid-mismatch"),
            IdentityConflictReason::QmpSocketMismatch => Some("qmp-socket-mismatch"),
            IdentityConflictReason::LibvirtNameMismatch => Some("libvirt-name-mismatch"),
        }
    }

    /// Severity of a conflict: low for name mismatches and stale caches.
    pub fn severity(self) -> (r: Severity)
        ensures
            r == (if self == IdentityConflictReason::LibvirtNameMismatch || self
                == IdentityConflictReason::StaleCache {
                Severity::Low
            } else {
                Severity::Medium
            }),
    {
        match self {
            IdentityConflictReason::LibvirtNameMismatch | IdentityConflictReason::StaleCache => Severity::Low,
            _ => Severity::Medium,
        }
    }
}

impl IdentityCacheResult {
    pub open spec fn spec_index(self) -> usize {
        match self {
            IdentityCacheResult::Hit => 0,
            IdentityCacheResult::Miss => 1,
            IdentityCacheResult::Refusal => 2,
        }
    }

    pub fn index(self) -> (r: usize)
        ensures
            r == self.spec_index(),
            r < 3,
    {
        match self {
            IdentityCacheResult::Hit => 0,
            IdentityCacheResult::Miss => 1,
            IdentityCacheResult::Refusal => 2,
        }
    }

    pub open spec fn name(self) -> Seq<char> {
        match self {
            IdentityCacheResult::Hit => "hit"@,
            IdentityCacheResult::Miss => "miss"@,
            IdentityCacheResult::Refusal => "refusal"@,
        }
    }

    pub fn as_str(self) -> (r: &'static str)
        ensures
            r@ == self.name(),
    {
        match self {
            IdentityCacheResult::Hit => "hit",
            IdentityCacheResult::Miss => "miss",
            IdentityCacheResult::Refusal => "refusal",
        }
    }
}

#[derive(Debug, Clone, PartialEq, Eq)]
pub struct VmInventorySnapshot {
    pub status: String,
    pub source: String,
    pub freshness: String,
    pub vm_count: usize,
    pub degraded: bool,
    pub vms: Vec<VmInventoryVm>,
}

#[derive(Debug, Clone, PartialEq, Eq)]
pub struct VmInventoryVm {
    pub vm_id: String,
    pub vm_uuid: String,
    pub vm_name: String,
    pub source: String,
    pub known_host_tasks: Vec<VmInventoryHostTask>,
    pub vcpu_mappings: Vec<VmInventoryVcpuMapping>,
    pub qmp: VmInventoryQmp,
    pub identity: IdentityInfo,
    pub ambiguous: bool,
    pub conflict: Option<VmInventoryConflict>,
}

#[derive(Debug, Clone, PartialEq, Eq)]
pub struct VmInventoryHostTask {
    pub kind: String,
    pub id: i32,
    pub start_time_ticks: Option<u64>,
}

#[derive(Debug, Clone, PartialEq, Eq)]
pub struct VmInventoryVcpuMapping {
    pub host_tid: i32,
    pub vcpu_id: i32,
    pub start_time_ticks: Option<u64>,
}

#[derive(Debug, Clone, PartialEq, Eq)]
pub struct VmInventoryQmp {
    pub present: bool,
    pub status: String,
}

#[derive(Debug, Clone, PartialEq, Eq)]
pub struct VmInventoryConflict {
    pub reason: String,
    pub ambiguous: bool,
}

impl VmInventorySnapshot {
    pub fn empty() -> (r: Self)
        ensures
            r.status@ == "ok"@,
            r.source@ == "none"@,
            r.freshness@ == "none"@,
            r.vm_count == 0,
            !r.degraded,
            r.vms@.len() == 0,
    {
        VmInventorySnapshot {
            status: owned("ok"),
            source: owned("none"),
            freshness: owned("none"),
            vm_count: 0,
            degraded: false,
            vms: Vec::new(),
        }
    }

    pub fn disabled() -> (r: Self)
        ensures
            r.status@ == "disabled"@,
            r.source@ == "disabled"@,
            r.freshness@ == "none"@,
            r.vm_count == 0,
            !r.degraded,
            r.vms@.len() == 0,
    {
        VmInventorySnapshot {
            status: owned("disabled"),
            source: owned("disabled"),
            freshness: owned("none"),
            vm_count: 0,
            degraded: false,
            vms: Vec::new(),
        }
    }

    pub fn degraded_empty() -> (r: Self)
        ensures
            r.status@ == "degraded"@,
            r.source@ == "none"@,
            r.freshness@ == "none"@,
            r.vm_count == 0,
            r.degraded,
            r.vms@.len() == 0,
    {
        VmInventorySnapshot {
            status: owned("degraded"),
            source: owned("none"),
            freshness: owned("none"),
            vm_count: 0,
            degraded: true,
            vms: Vec::new(),
        }
    }
}

pub struct IdentityEnrichment {
    pub conflict_event: Option<Event>,
    pub cache_result: Option<IdentityCacheResult>,
    pub confidence: Option<IdentityConfidence>,
    pub ambiguous: bool,
    pub conflict_reason: Option<IdentityConflictReason>,
}

impl IdentityEnrichment {
    /// An enrichment that found nothing.
    pub fn none() -> (r: Self)
        ensures
            r.conflict_event is None,
            r.cache_result is None,
            r.confidence is None,
            !r.ambiguous,
            r.conflict_reason is None,
    {
        IdentityEnrichment {
            conflict_event: None,
            cache_result: None,
            confidence: None,
            ambiguous: false,
            conflict_reason: None,
        }
    }
}

// ---------------------------------------------------------------------------
// Libvirt discovery errors and task lookup
// ---------------------------------------------------------------------------

#[derive(Debug, Clone, PartialEq, Eq)]
pub enum LibvirtDiscoveryError {
    MissingDirectory(String),
    ReadDirectory { path: String, source: String },
    ReadDomain { path: String, source: String },
    MalformedDomain { path: String, detail: String },
    AmbiguousTask { task_id: i32, domains: Vec<String> },
    PidReuseDetected { task_id: i32, observed_start_time_ticks: Option<u64>, domains: Vec<String> },
    UnverifiedTaskIdentity { task_id: i32, domains: Vec<String> },
}

/// `{:?}` of an optional tick count.
pub open spec fn debug_opt_u64(v: Option<u64>) -> Seq<char> {
    match v {
        Some(x) => "Some("@ + dec(x as nat) + ")"@,
        None => "None"@,
    }
}

/// The message of a discovery error.
pub open spec fn discovery_message(e: LibvirtDiscoveryError) -> Seq<char> {
    match e {
        LibvirtDiscoveryError::MissingDirectory(path) => "libvirt XML discovery directory does not exist or is not a directory: "@
            + path@,
        LibvirtDiscoveryError::ReadDirectory { path, source } => "read libvirt XML discovery directory "@
            + path@ + ": "@ + source@,
        LibvirtDiscoveryError::ReadDomain { path, source } => "read libvirt domain XML "@ + path@
            + ": "@ + source@,
        LibvirtDiscoveryError::MalformedDomain { path, detail } => "parse libvirt domain XML "@
            + path@ + ": "@ + detail@,
        LibvirtDiscoveryError::AmbiguousTask { task_id, domains } => "libvirt XML discovery found multiple domains for host task "@
            + dec_int(task_id as int) + ": "@ + join(views(domains@), ","@),
        LibvirtDiscoveryError::PidReuseDetected { task_id, observed_start_time_ticks, domains } => "libvirt XML discovery rejected host task "@
            + dec_int(task_id as int) + ": observed start_time_ticks "@ + debug_opt_u64(
            observed_start_time_ticks,
        ) + " does not match mapped process identity for "@ + join(views(domains@), ","@),
        LibvirtDiscoveryError::UnverifiedTaskIdentity { task_id, domains } => "libvirt XML discovery cannot verify host task "@
            + dec_int(task_id as int) + " with process start_time_ticks for "@ + join(
            views(domains@),
            ","@,
        ),
    }
}

fn debug_opt_u64_text(v: Option<u64>) -> (r: String)
    ensures
        r@ == debug_opt_u64(v),
{
    match v {
        Some(x) => {
            let d = u64_to_dec(x);
            cat3("Some(", d.as_str(), ")")
        },
        None => owned("None"),
    }
}

impl LibvirtDiscoveryError {
    /// The human-readable message of the error.
    pub fn message(&self) -> (r: String)
        ensures
            r@ == discovery_message(*self),
    {
        match self {
            LibvirtDiscoveryError::MissingDirectory(path) => {
                let mut m = owned("libvirt XML discovery directory does not exist or is not a directory: ");
                push_str(&mut m, path.as_str());
                m
            },
            LibvirtDiscoveryError::ReadDirectory { path, source } => {
                let mut m = cat3("read libvirt XML discovery directory ", path.as_str(), ": ");
                push_str(&mut m, source.as_str());
                m
            },
            LibvirtDiscoveryError::ReadDomain { path, source } => {
                let mut m = cat3("read libvirt domain XML ", path.as_str(), ": ");
                push_str(&mut m, source.as_str());
                m
            },
            LibvirtDiscoveryError::MalformedDomain { path, detail } => {
                let mut m = cat3("parse libvirt domain XML ", path.as_str(), ": ");
                push_str(&mut m, detail.as_str());
                m
            },
            LibvirtDiscoveryError::AmbiguousTask { task_id, domains } => {
                let t = i64_to_dec(*task_id as i64);
                let mut m = cat3("libvirt XML discovery found multiple domains for host task ", t.as_str(), ": ");
                let j = join_strings(domains, ",");
                push_str(&mut m, j.as_str());
                m
            },
            LibvirtDiscoveryError::PidReuseDetected { task_id, observed_start_time_ticks, domains } => {
                let t = i64_to_dec(*task_id as i64);
                let mut m = cat3("libvirt XML discovery rejected host task ", t.as_str(), ": observed start_time_ticks ");
                let o = debug_opt_u64_text(*observed_start_time_ticks);
                push_str(&mut m, o.as_str());
                push_str(&mut m, " does not match mapped process identity for ");
                let j = join_strings(domains, ",");
                push_str(&mut m, j.as_str());
                m
            },
            LibvirtDiscoveryError::UnverifiedTaskIdentity { task_id, domains } => {
                let t = i64_to_dec(*task_id as i64);
                let mut m = cat3("libvirt XML discovery cannot verify host task ", t.as_str(), " with process start_time_ticks for ");
                let j = join_strings(domains, ",");
                push_str(&mut m, j.as_str());
                m
            },
        }
    }
}

/// The domain lists the host task among its QEMU pids, tids, vCPU threads or
/// task identities.
pub open spec fn has_task(d: LibvirtDomain, t: i32) -> bool {
    ||| d.qemu_pids@.contains(t)
    ||| d.qemu_tids@.contains(t)
    ||| exists|i: int| 0 <= i < d.vcpu_threads@.len() && (#[trigger] d.vcpu_threads@[i]).tid == t
    ||| exists|i: int|
        0 <= i < d.qemu_task_identities@.len() && (#[trigger] d.qemu_task_identities@[i]).task_id == t
}

/// The start time of the first identity of task `t` that has one.
pub open spec fn first_versioned(ids: Seq<HostTaskIdentity>, t: i32) -> Option<u64>
    decreases ids.len(),
{
    if ids.len() == 0 {
        None
    } else {
        match first_versioned(ids.drop_last(), t) {
            Some(x) => Some(x),
            None => if ids.last().task_id == t && ids.last().start_time_ticks is Some {
                ids.last().start_time_ticks
            } else {
                None
            },
        }
    }
}

#[derive(Debug, Clone, Copy, PartialEq, Eq, Structural)]
pub enum TaskStartTimeMatch {
    Match,
    PidReuseDetected,
    Unverified,
}

/// How the observed start time of task `t` compares with what the domain
/// records: the first recorded start time decides; without one, the mapping
/// only matches when nothing was observed either.
pub open spec fn start_time_status(d: LibvirtDomain, t: i32, obs: Option<u64>) -> TaskStartTimeMatch {
    match first_versioned(d.qemu_task_identities@, t) {
        Some(expected) => match obs {
            Some(o) => if o == expected {
                TaskStartTimeMatch::Match
            } else {
                TaskStartTimeMatch::PidReuseDetected
            },
            None => TaskStartTimeMatch::Unverified,
        },
        None => if obs is None {
            TaskStartTimeMatch::Match
        } else {
            TaskStartTimeMatch::Unverified
        },
    }
}

pub fn contains_i32(v: &Vec<i32>, x: i32) -> (r: bool)
    ensures
        r == v@.contains(x),
{
    let mut i: usize = 0;
    while i < v.len()
        invariant
            i <= v@.len(),
            forall|k: int| 0 <= k < i ==> v@[k] != x,
        decreases v@.len() - i,
    {
        if v[i] == x {
            return true;
        }
        i = i + 1;
    }
    false
}

pub fn domain_has_task(domain: &LibvirtDomain, task_id: i32) -> (r: bool)
    ensures
        r == has_task(*domain, task_id),
{
    if contains_i32(&domain.qemu_pids, task_id) || contains_i32(&domain.qemu_tids, task_id) {
        return true;
    }
    let mut i: usize = 0;
    while i < domain.vcpu_threads.len()
        invariant
            i <= domain.vcpu_threads@.len(),
            forall|k: int| 0 <= k < i ==> (#[trigger] domain.vcpu_threads@[k]).tid != task_id,
        decreases domain.vcpu_threads@.len() - i,
    {
        if domain.vcpu_threads[i].tid == task_id {
            return true;
        }
        i = i + 1;
    }
    let mut j: usize = 0;
    while j < domain.qemu_task_identities.len()
        invariant
            j <= domain.qemu_task_identities@.len(),
            forall|k: int|
                0 <= k < j ==> (#[trigger] domain.qemu_task_identities@[k]).task_id != task_id,
        decreases domain.qemu_task_identities@.len() - j,
    {
        if domain.qemu_task_identities[j].task_id == task_id {
            return true;
        }
        j = j + 1;
    }
    false
}

pub fn task_start_time_matches(domain: &LibvirtDomain, task_id: i32, observed_start_time_ticks: Option<
    u64,
>) -> (r: TaskStartTimeMatch)
    ensures
        r == start_time_status(*domain, task_id, observed_start_time_ticks),
{
    let ids = &domain.qemu_task_identities;
    let mut i: usize = 0;
    while i < ids.len()
        invariant
            i <= ids@.len(),
            ids@ == domain.qemu_task_identities@,
            first_versioned(ids@.take(i as int), task_id) is None,
        decreases ids@.len() - i,
    {
        proof {
            assert(ids@.take(i as int + 1).drop_last() =~= ids@.take(i as int));
            assert(ids@.take(i as int + 1).last() == ids@[i as int]);
        }
        let id = ids[i];
        if id.task_id == task_id {
            match id.start_time_ticks {
                Some(expected) => {
                    proof {
                        let nxt = ids@.take(i as int + 1);
                        assert(nxt.last().task_id == task_id);
                        assert(nxt.last().start_time_ticks == Some(expected));
                        assert(first_versioned(nxt.drop_last(), task_id) is None);
                        assert(first_versioned(nxt, task_id) == Some(expected));
                        lemma_first_versioned_prefix(ids@, task_id, i as int + 1);
                        assert(first_versioned(domain.qemu_task_identities@, task_id) == Some(expected));
                    }
                    return match observed_start_time_ticks {
                        Some(o) => if o == expected {
                            TaskStartTimeMatch::Match
                        } else {
                            TaskStartTimeMatch::PidReuseDetected
                        },
                        None => TaskStartTimeMatch::Unverified,
                    };
                },
                None => {},
            }
        }
        i = i + 1;
    }
    proof {
        assert(ids@.take(ids@.len() as int) =~= ids@);
    }
    if observed_start_time_ticks.is_none() {
        TaskStartTimeMatch::Match
    } else {
        TaskStartTimeMatch::Unverified
    }
}

proof fn lemma_first_versioned_prefix(s: Seq<HostTaskIdentity>, t: i32, i: int)
    requires
        0 <= i <= s.len(),
        first_versioned(s.take(i), t) is Some,
    ensures
        first_versioned(s, t) == first_versioned(s.take(i), t),
    decreases s.len() - i,
{
    if i < s.len() {
        assert(s.take(i + 1).drop_last() =~= s.take(i));
        lemma_first_versioned_prefix(s, t, i + 1);
    } else {
        assert(s.take(i) =~= s);
    }
}

/// `uuid:name` of a domain, as discovery errors list it.
pub open spec fn domain_label(d: LibvirtDomain) -> Seq<char> {
    d.uuid@ + ":"@ + d.name@
}

/// The domains that hold task `t` with a matching start time, in order.
pub open spec fn matching_domains(ds: Seq<LibvirtDomain>, t: i32, obs: Option<u64>) -> Seq<LibvirtDomain>
    decreases ds.len(),
{
    if ds.len() == 0 {
        Seq::empty()
    } else if has_task(ds.last(), t) && start_time_status(ds.last(), t, obs) == TaskStartTimeMatch::Match {
        matching_domains(ds.drop_last(), t, obs).push(ds.last())
    } else {
        matching_domains(ds.drop_last(), t, obs)
    }
}

/// The domains that hold task `t` but whose start time does not match, in order.
pub open spec fn unsafe_domains(ds: Seq<LibvirtDomain>, t: i32, obs: Option<u64>) -> Seq<LibvirtDomain>
    decreases ds.len(),
{
    if ds.len() == 0 {
        Seq::empty()
    } else if has_task(ds.last(), t) && start_time_status(ds.last(), t, obs) != TaskStartTimeMatch::Match {
        unsafe_domains(ds.drop_last(), t, obs).push(ds.last())
    } else {
        unsafe_domains(ds.drop_last(), t, obs)
    }
}

/// Some domain holding task `t` records a different start time for it.
pub open spec fn pid_reused(ds: Seq<LibvirtDomain>, t: i32, obs: Option<u64>) -> bool {
    exists|i: int|
        0 <= i < ds.len() && has_task(#[trigger] ds[i], t) && start_time_status(ds[i], t, obs)
            == TaskStartTimeMatch::PidReuseDetected
}

/// The labels of a list of domains.
pub open spec fn domain_labels(s: Seq<LibvirtDomain>) -> Seq<Seq<char>> {
    s.map_values(|d: LibvirtDomain| domain_label(d))
}

fn domain_label_text(d: &LibvirtDomain) -> (r: String)
    ensures
        r@ == domain_label(*d),
{
    cat3(d.uuid.as_str(), ":", d.name.as_str())
}

impl LibvirtDomainDiscovery {
    pub fn from_domains(domains: Vec<LibvirtDomain>) -> (r: Self)
        ensures
            r.domains@ == domains@,
    {
        LibvirtDomainDiscovery { domains }
    }

    pub fn lookup_task(&self, task_id: i32) -> (r: Result<Option<&LibvirtDomain>, LibvirtDiscoveryError>)
        ensures
            lookup_result(self.domains@, task_id, None, r),
    {
        self.lookup_task_with_start_time(task_id, None)
    }

    /// The one domain that holds the task with a matching start time; an
    /// error when several do, or when the only candidates disagree on (or
    /// cannot verify) the start time.
    pub fn lookup_task_with_start_time(&self, task_id: i32, observed_start_time_ticks: Option<u64>) -> (r:
        Result<Option<&LibvirtDomain>, LibvirtDiscoveryError>)
        ensures
            lookup_result(self.domains@, task_id, observed_start_time_ticks, r),
    {
        let ds = &self.domains;
        let ghost obs = observed_start_time_ticks;
        let mut match_labels: Vec<String> = Vec::new();
        let mut unsafe_labels: Vec<String> = Vec::new();
        let mut first: usize = 0;
        let mut saw_reuse = false;
        let mut i: usize = 0;
        while i < ds.len()
            invariant
                i <= ds@.len(),
                views(match_labels@) == domain_labels(matching_domains(ds@.take(i as int), task_id, obs)),
                views(unsafe_labels@) == domain_labels(unsafe_domains(ds@.take(i as int), task_id, obs)),
                match_labels@.len() > 0 ==> first < i && ds@[first as int] == matching_domains(
                    ds@.take(i as int),
                    task_id,
                    obs,
                )[0],
                saw_reuse == pid_reused(ds@.take(i as int), task_id, obs),
                obs == observed_start_time_ticks,
            decreases ds@.len() - i,
        {
            let d = &ds[i];
            let ghost pre = ds@.take(i as int);
            proof {
                assert(ds@.take(i as int + 1).drop_last() =~= pre);
                assert(ds@.take(i as int + 1).last() == ds@[i as int]);
            }
            if domain_has_task(d, task_id) {
                let st = task_start_time_matches(d, task_id, observed_start_time_ticks);
                let label = domain_label_text(d);
                if st == TaskStartTimeMatch::Match {
                    if match_labels.len() == 0 {
                        first = i;
                    }
                    proof {
                        let m = matching_domains(pre, task_id, obs);
                        assert(domain_labels(m.push(*d)) =~= domain_labels(m).push(domain_label(*d)));
                        if m.len() > 0 {
                            assert(m.push(*d)[0] == m[0]);
                        }
                    }
                    match_labels.push(label);
                    proof {
                        assert(views(match_labels@) =~= views(match_labels@.drop_last()).push(label@));
                    }
                } else {
                    if st == TaskStartTimeMatch::PidReuseDetected {
                        saw_reuse = true;
                    }
                    proof {
                        let u = unsafe_domains(pre, task_id, obs);
                        assert(domain_labels(u.push(*d)) =~= domain_labels(u).push(domain_label(*d)));
                    }
                    unsafe_labels.push(label);
                    proof {
                        assert(views(unsafe_labels@) =~= views(unsafe_labels@.drop_last()).push(label@));
                    }
                }
            }
            proof {
                let nxt = ds@.take(i as int + 1);
                if pid_reused(nxt, task_id, obs) && !pid_reused(pre, task_id, obs) {
                    let k = choose|k: int| 0 <= k < nxt.len() && has_task(#[trigger] nxt[k], task_id)
                        && start_time_status(nxt[k], task_id, obs) == TaskStartTimeMatch::PidReuseDetected;
                    if k < i {
                        assert(pre[k] == nxt[k]);
                    }
                }
                if pid_reused(pre, task_id, obs) {
                    let k = choose|k: int| 0 <= k < pre.len() && has_task(#[trigger] pre[k], task_id)
                        && start_time_status(pre[k], task_id, obs) == TaskStartTimeMatch::PidReuseDetected;
                    assert(nxt[k] == pre[k]);
                }
            }
            i = i + 1;
        }
        proof {
            assert(ds@.take(ds@.len() as int) =~= ds@);
        }
        if match_labels.len() == 0 {
            if saw_reuse {
                return Err(
                    LibvirtDiscoveryError::PidReuseDetected {
                        task_id,
                        observed_start_time_ticks,
                        domains: unsafe_labels,
                    },
                );
            }
            if unsafe_labels.len() > 0 {
                return Err(LibvirtDiscoveryError::UnverifiedTaskIdentity { task_id, domains: unsafe_labels });
            }
            return Ok(None);
        }
        if match_labels.len() == 1 {
            return Ok(Some(&ds[first]));
        }
        Err(LibvirtDiscoveryError::AmbiguousTask { task_id, domains: match_labels })
    }

    /// Removes the domain with the given UUID; tells whether one was removed.
    pub fn remove_domain_uuid(&mut self, uuid: &str) -> (r: bool)
        ensures
            final(self).domains@ == old(self).domains@.filter(|d: LibvirtDomain| d.uuid@ != uuid@),
            r == (final(self).domains@.len() != old(self).domains@.len()),
    {
        let mut kept: Vec<LibvirtDomain> = Vec::new();
        let mut all: Vec<LibvirtDomain> = Vec::new();
        std::mem::swap(&mut all, &mut self.domains);
        let ghost orig = all@;
        let n = all.len();
        let ghost pred = |d: LibvirtDomain| d.uuid@ != uuid@;
        let mut i: usize = 0;
        while i < n
            invariant
                n == orig.len(),
                i <= n,
                all@ == orig.subrange(i as int, n as int),
                kept@ == orig.take(i as int).filter(pred),
                pred == (|d: LibvirtDomain| d.uuid@ != uuid@),
            decreases n - i,
        {
            let d = all.remove(0);
            proof {
                assert(orig.take(i as int + 1).drop_last() =~= orig.take(i as int));
                assert(orig.take(i as int + 1).last() == d);
                assert(all@ =~= orig.subrange(i as int + 1, n as int));
                reveal(Seq::filter);
            }
            if !crate::text::str_eq(d.uuid.as_str(), uuid) {
                kept.push(d);
            }
            i = i + 1;
        }
        proof {
            assert(orig.take(n as int) =~= orig);
        }
        let removed = kept.len() != n;
        self.domains = kept;
        removed
    }
}

/// What a task lookup returns for the domains `ds`.
pub open spec fn lookup_result(
    ds: Seq<LibvirtDomain>,
    t: i32,
    obs: Option<u64>,
    r: Result<Option<&LibvirtDomain>, LibvirtDiscoveryError>,
) -> bool {
    let m = matching_domains(ds, t, obs);
    let u = unsafe_domains(ds, t, obs);
    if m.len() == 0 {
        if pid_reused(ds, t, obs) {
            r matches Err(LibvirtDiscoveryError::PidReuseDetected { task_id, observed_start_time_ticks, domains })
                && task_id == t && observed_start_time_ticks == obs && views(domains@) == domain_labels(u)
        } else if u.len() > 0 {
            r matches Err(LibvirtDiscoveryError::UnverifiedTaskIdentity { task_id, domains })
                && task_id == t && views(domains@) == domain_labels(u)
        } else {
            r matches Ok(None)
        }
    } else if m.len() == 1 {
        r matches Ok(Some(d)) && *d == m[0]
    } else {
        r matches Err(LibvirtDiscoveryError::AmbiguousTask { task_id, domains }) && task_id == t
            && views(domains@) == domain_labels(m)
    }
}

// ---------------------------------------------------------------------------
// Identity sources, confidence, conflicts
// ---------------------------------------------------------------------------

/// `sources` with `s` appended unless it is already there.
pub open spec fn with_source(sources: Seq<Seq<char>>, s: Seq<char>) -> Seq<Seq<char>> {
    if sources.contains(s) {
        sources
    } else {
        sources.push(s)
    }
}

/// Appends `source` unless it is already listed.
pub fn push_identity_source(sources: &mut Vec<String>, source: &str)
    ensures
        views(final(sources)@) == with_source(views(old(sources)@), source@),
{
    let mut i: usize = 0;
    while i < sources.len()
        invariant
            i <= sources@.len(),
            sources@ == old(sources)@,
            forall|k: int| 0 <= k < i ==> (#[trigger] sources@[k])@ != source@,
        decreases sources@.len() - i,
    {
        if crate::text::str_eq(sources[i].as_str(), source) {
            proof {
                assert(views(sources@)[i as int] == source@);
            }
            return;
        }
        i = i + 1;
    }
    proof {
        assert(!views(sources@).contains(source@)) by {
            if views(sources@).contains(source@) {
                let k = choose|k: int| 0 <= k < views(sources@).len() && views(sources@)[k] == source@;
                assert(sources@[k]@ == source@);
            }
        }
    }
    let ghost before = sources@;
    sources.push(owned(source));
    proof {
        assert(views(sources@) =~= views(before).push(source@));
    }
}

/// The identity lists the source.
pub open spec fn has_source(ident: VmIdentity, s: Seq<char>) -> bool {
    views(ident.identity_sources@).contains(s)
}

/// `ident` lists `source`.
pub fn identity_has_source(ident: &VmIdentity, source: &str) -> (r: bool)
    ensures
        r == has_source(*ident, source@),
{
    let v = &ident.identity_sources;
    let mut i: usize = 0;
    while i < v.len()
        invariant
            i <= v@.len(),
            v@ == ident.identity_sources@,
            forall|k: int| 0 <= k < i ==> (#[trigger] v@[k])@ != source@,
        decreases v@.len() - i,
    {
        if crate::text::str_eq(v[i].as_str(), source) {
            proof {
                assert(views(v@)[i as int] == source@);
            }
            return true;
        }
        i = i + 1;
    }
    proof {
        if views(v@).contains(source@) {
            let k = choose|k: int| 0 <= k < views(v@).len() && views(v@)[k] == source@;
            assert(v@[k]@ == source@);
        }
    }
    false
}

/// How far an identity can be trusted: low when ambiguous; high with a
/// verified start time, a libvirt UUID and a libvirt source; medium with a
/// UUID from libvirt or the QEMU command line; low otherwise.
pub open spec fn confidence_of(ident: VmIdentity) -> IdentityConfidence {
    let libvirt = has_source(ident, IDENTITY_SOURCE_LIBVIRT_XML@) || has_source(
        ident,
        IDENTITY_SOURCE_LIBVIRT_LIFECYCLE@,
    );
    if ident.ambiguous {
        IdentityConfidence::Low
    } else if ident.start_time_verified && ident.libvirt_uuid is Some && libvirt {
        IdentityConfidence::High
    } else if ident.libvirt_uuid is Some && (libvirt || has_source(ident, IDENTITY_SOURCE_PROC_CMDLINE@)) {
        IdentityConfidence::Medium
    } else {
        IdentityConfidence::Low
    }
}

pub fn recompute_identity_confidence(ident: &mut VmIdentity)
    ensures
        *final(ident) == (VmIdentity { identity_confidence: confidence_of(*old(ident)), ..*old(ident) }),
{
    let xml = identity_has_source(ident, IDENTITY_SOURCE_LIBVIRT_XML);
    let lifecycle = identity_has_source(ident, IDENTITY_SOURCE_LIBVIRT_LIFECYCLE);
    let cmdline = identity_has_source(ident, IDENTITY_SOURCE_PROC_CMDLINE);
    let c = if ident.ambiguous {
        IdentityConfidence::Low
    } else if ident.start_time_verified && ident.libvirt_uuid.is_some() && (xml || lifecycle) {
        IdentityConfidence::High
    } else if ident.libvirt_uuid.is_some() && (xml || lifecycle || cmdline) {
        IdentityConfidence::Medium
    } else {
        IdentityConfidence::Low
    };
    ident.identity_confidence = c;
}

/// The VM id of an ambiguous host task.
pub open spec fn ambiguous_vm_id(task_id: i32, reason: IdentityConflictReason) -> Seq<char> {
    match reason.suffix() {
        Some(sfx) => "ambiguous:host-task:"@ + dec_int(task_id as int) + ":"@ + sfx,
        None => "ambiguous:host-task:"@ + dec_int(task_id as int),
    }
}

/// `new` is `old` marked as an ambiguous host task for `reason`: every
/// attribution is dropped, the only source is `ambiguous`, and the confidence
/// is low.
pub open spec fn marked_ambiguous(old: VmIdentity, new: VmIdentity, task_id: i32, reason: IdentityConflictReason) -> bool {
    &&& new == (VmIdentity {
        vm_id: new.vm_id,
        vm_name: None,
        libvirt_uuid: None,
        qmp_socket: None,
        vcpu_id: None,
        vcpu_ambiguous: false,
        ambiguous: true,
        identity_sources: new.identity_sources,
        identity_confidence: IdentityConfidence::Low,
        start_time_verified: false,
        identity_conflict: Some(IdentityConflict { task_id, reason, ambiguous: true }),
        ..old
    })
    &&& new.vm_id@ == ambiguous_vm_id(task_id, reason)
    &&& views(new.identity_sources@) == seq![IDENTITY_SOURCE_AMBIGUOUS@]
}

pub fn mark_ambiguous_host_task(ident: &mut VmIdentity, task_id: i32, reason: IdentityConflictReason)
    ensures
        marked_ambiguous(*old(ident), *final(ident), task_id, reason),
{
    let t = i64_to_dec(task_id as i64);
    let id = match reason.vm_id_suffix() {
        Some(sfx) => {
            let mut m = cat3("ambiguous:host-task:", t.as_str(), ":");
            push_str(&mut m, sfx);
            m
        },
        None => {
            let mut m = owned("ambiguous:host-task:");
            push_str(&mut m, t.as_str());
            m
        },
    };
    let mut sources: Vec<String> = Vec::new();
    sources.push(owned(IDENTITY_SOURCE_AMBIGUOUS));
    proof {
        assert(views(sources@) =~= seq![IDENTITY_SOURCE_AMBIGUOUS@]);
    }
    ident.vm_id = id;
    ident.vm_name = None;
    ident.libvirt_uuid = None;
    ident.qmp_socket = None;
    ident.vcpu_id = None;
    ident.vcpu_ambiguous = false;
    ident.ambiguous = true;
    ident.identity_sources = sources;
    ident.identity_confidence = IdentityConfidence::Low;
    ident.start_time_verified = false;
    ident.identity_conflict = Some(IdentityConflict { task_id, reason, ambiguous: true });
}

/// Records a conflict: an ambiguous one marks the task ambiguous, another
/// one is only noted on the identity.
pub fn record_identity_conflict(ident: &mut VmIdentity, task_id: i32, reason: IdentityConflictReason, ambiguous: bool)
    ensures
        ambiguous ==> marked_ambiguous(*old(ident), *final(ident), task_id, reason),
        !ambiguous ==> *final(ident) == (VmIdentity {
            identity_conflict: Some(IdentityConflict { task_id, reason, ambiguous: false }),
            ..*old(ident)
        }),
{
    if ambiguous {
        mark_ambiguous_host_task(ident, task_id, reason);
    } else {
        ident.identity_conflict = Some(IdentityConflict { task_id, reason, ambiguous: false });
    }
}

/// Two optional strings hold the same text.
pub open spec fn same_text(a: Option<String>, b: Option<String>) -> bool {
    match (a, b) {
        (None, None) => true,
        (Some(x), Some(y)) => x@ == y@,
        _ => false,
    }
}

/// What folding the cgroup's VM name and unit into `o` gives `f`.
pub open spec fn cgroup_merged(
    o: VmIdentity,
    f: VmIdentity,
    task_id: i32,
    cgroup_name: Option<String>,
    cgroup_unit: Option<String>,
) -> bool {
    let with_src = if cgroup_name is Some || cgroup_unit is Some {
        with_source(views(o.identity_sources@), IDENTITY_SOURCE_PROC_CGROUP@)
    } else {
        views(o.identity_sources@)
    };
    &&& f.cgroup_unit == cgroup_unit
    &&& match (cgroup_name, o.vm_name) {
        (Some(cn), Some(e)) => if e@ != cn@ && o.libvirt_uuid is None {
            marked_ambiguous(o, VmIdentity { cgroup_unit: o.cgroup_unit, ..f }, task_id, IdentityConflictReason::ProcCgroupMismatch)
        } else if e@ != cn@ {
            &&& f == (VmIdentity {
                identity_sources: f.identity_sources,
                identity_conflict: Some(IdentityConflict { task_id, reason: IdentityConflictReason::ProcCgroupMismatch, ambiguous: false }),
                cgroup_unit,
                ..o
            })
            &&& views(f.identity_sources@) == with_src
        } else {
            &&& f == (VmIdentity { identity_sources: f.identity_sources, cgroup_unit, ..o })
            &&& views(f.identity_sources@) == with_src
        },
        (Some(cn), None) => {
            &&& f == (VmIdentity { identity_sources: f.identity_sources, vm_name: Some(cn), cgroup_unit, ..o })
            &&& views(f.identity_sources@) == with_src
        },
        (None, _) => {
            &&& f == (VmIdentity { identity_sources: f.identity_sources, cgroup_unit, ..o })
            &&& views(f.identity_sources@) == with_src
        },
    }
}

/// Folds the VM name and unit found in the task's cgroup into the identity.
pub fn merge_cgroup_identity(
    ident: &mut VmIdentity,
    task_id: i32,
    cgroup_name: Option<String>,
    cgroup_unit: Option<String>,
)
    ensures
        cgroup_merged(*old(ident), *final(ident), task_id, cgroup_name, cgroup_unit),
{
    if cgroup_name.is_some() || cgroup_unit.is_some() {
        push_identity_source(&mut ident.identity_sources, IDENTITY_SOURCE_PROC_CGROUP);
    }
    match cgroup_name {
        Some(cn) => {
            let mismatch = match &ident.vm_name {
                Some(e) => !crate::text::str_eq(e.as_str(), cn.as_str()),
                None => false,
            };
            if ident.vm_name.is_none() {
                ident.vm_name = Some(cn);
            } else if mismatch && ident.libvirt_uuid.is_none() {
                mark_ambiguous_host_task(ident, task_id, IdentityConflictReason::ProcCgroupMismatch);
            } else if mismatch {
                record_identity_conflict(ident, task_id, IdentityConflictReason::ProcCgroupMismatch, false);
            }
        },
        None => {},
    }
    ident.cgroup_unit = cgroup_unit;
}

/// The observed start time matches a recorded identity of task `t`.
pub open spec fn start_time_verified_in(d: LibvirtDomain, t: i32, obs: Option<u64>) -> bool {
    match obs {
        Some(o) => exists|i: int|
            0 <= i < d.qemu_task_identities@.len() && (#[trigger] d.qemu_task_identities@[i]).task_id == t
                && d.qemu_task_identities@[i].start_time_ticks == Some(o),
        None => false,
    }
}

pub fn domain_task_start_time_verified(domain: &LibvirtDomain, task_id: i32, observed_start_time_ticks: Option<u64>) -> (r: bool)
    ensures
        r == start_time_verified_in(*domain, task_id, observed_start_time_ticks),
{
    let observed = match observed_start_time_ticks {
        Some(o) => o,
        None => {
            return false;
        },
    };
    let ids = &domain.qemu_task_identities;
    let mut i: usize = 0;
    while i < ids.len()
        invariant
            i <= ids@.len(),
            ids@ == domain.qemu_task_identities@,
            observed_start_time_ticks == Some(observed),
            forall|k: int|
                0 <= k < i ==> !((#[trigger] ids@[k]).task_id == task_id && ids@[k].start_time_ticks == Some(observed)),
        decreases ids@.len() - i,
    {
        let same = match ids[i].start_time_ticks {
            Some(x) => x == observed,
            None => false,
        };
        if ids[i].task_id == task_id && same {
            assert(domain.qemu_task_identities@[i as int].task_id == task_id);
            return true;
        }
        i = i + 1;
    }
    false
}

#[derive(Debug, Clone, Copy, PartialEq, Eq, Structural)]
pub enum VcpuThreadLookup {
    Known(i32),
    Unknown,
    Ambiguous,
}

/// The vCPU of host thread `tid`: unknown without a mapping, ambiguous when
/// mappings disagree.
pub open spec fn vcpu_lookup(s: Seq<QemuVcpuThread>, tid: i32) -> VcpuThreadLookup
    decreases s.len(),
{
    if s.len() == 0 {
        VcpuThreadLookup::Unknown
    } else {
        match vcpu_lookup(s.drop_last(), tid) {
            VcpuThreadLookup::Ambiguous => VcpuThreadLookup::Ambiguous,
            VcpuThreadLookup::Known(v) => if s.last().tid == tid && s.last().vcpu_id != v {
                VcpuThreadLookup::Ambiguous
            } else {
                VcpuThreadLookup::Known(v)
            },
            VcpuThreadLookup::Unknown => if s.last().tid == tid {
                VcpuThreadLookup::Known(s.last().vcpu_id)
            } else {
                VcpuThreadLookup::Unknown
            },
        }
    }
}

proof fn lemma_vcpu_ambiguous_prefix(s: Seq<QemuVcpuThread>, tid: i32, i: int)
    requires
        0 <= i <= s.len(),
        vcpu_lookup(s.take(i), tid) == VcpuThreadLookup::Ambiguous,
    ensures
        vcpu_lookup(s, tid) == VcpuThreadLookup::Ambiguous,
    decreases s.len() - i,
{
    if i < s.len() {
        assert(s.take(i + 1).drop_last() =~= s.take(i));
        lemma_vcpu_ambiguous_prefix(s, tid, i + 1);
    } else {
        assert(s.take(i) =~= s);
    }
}

pub fn lookup_vcpu_thread(domain: &LibvirtDomain, tid: i32) -> (r: VcpuThreadLookup)
    ensures
        r == vcpu_lookup(domain.vcpu_threads@, tid),
{
    let v = &domain.vcpu_threads;
    let mut found: Option<i32> = None;
    let mut i: usize = 0;
    while i < v.len()
        invariant
            i <= v@.len(),
            v@ == domain.vcpu_threads@,
            vcpu_lookup(v@.take(i as int), tid) == match found {
                Some(x) => VcpuThreadLookup::Known(x),
                None => VcpuThreadLookup::Unknown,
            },
        decreases v@.len() - i,
    {
        proof {
            assert(v@.take(i as int + 1).drop_last() =~= v@.take(i as int));
            assert(v@.take(i as int + 1).last() == v@[i as int]);
        }
        let m = v[i];
        if m.tid == tid {
            match found {
                Some(existing) => {
                    if existing != m.vcpu_id {
                        proof {
                            lemma_vcpu_ambiguous_prefix(v@, tid, i as int + 1);
                        }
                        return VcpuThreadLookup::Ambiguous;
                    }
                },
                None => {
                    found = Some(m.vcpu_id);
                },
            }
        }
        i = i + 1;
    }
    proof {
        assert(v@.take(v@.len() as int) =~= v@);
    }
    match found {
        Some(x) => VcpuThreadLookup::Known(x),
        None => VcpuThreadLookup::Unknown,
    }
}

/// `new` is `old` attributed to the libvirt domain `d` for task `t`.
pub open spec fn attributed(old: VmIdentity, new: VmIdentity, t: i32, d: LibvirtDomain) -> bool {
    let obs = old.host_start_time_ticks;
    let verified = start_time_verified_in(d, t, obs);
    let s1 = with_source(views(old.identity_sources@), d.source.source_name());
    let s2 = if d.qmp_socket is Some {
        with_source(s1, IDENTITY_SOURCE_QMP_SOCKET_HINT@)
    } else {
        s1
    };
    let s3 = if verified {
        with_source(s2, IDENTITY_SOURCE_START_TIME_VERIFIED@)
    } else {
        s2
    };
    let name_mismatch = match old.vm_name {
        Some(n) => n@ != d.name@,
        None => false,
    };
    let mid = VmIdentity {
        vm_id: new.vm_id,
        vm_name: new.vm_name,
        libvirt_uuid: new.libvirt_uuid,
        identity_sources: new.identity_sources,
        qmp_socket: new.qmp_socket,
        start_time_verified: old.start_time_verified || verified,
        vcpu_id: new.vcpu_id,
        vcpu_ambiguous: new.vcpu_ambiguous,
        ambiguous: false,
        ..old
    };
    &&& new == (VmIdentity {
        identity_confidence: confidence_of(mid),
        identity_conflict: if name_mismatch {
            Some(IdentityConflict { task_id: t, reason: IdentityConflictReason::LibvirtNameMismatch, ambiguous: false })
        } else {
            old.identity_conflict
        },
        ..mid
    })
    &&& new.vm_id@ == "libvirt:"@ + d.uuid@
    &&& new.vm_name matches Some(n) && n@ == d.name@
    &&& new.libvirt_uuid matches Some(u) && u@ == d.uuid@
    &&& views(new.identity_sources@) == s3
    &&& match d.qmp_socket {
        Some(q) => new.qmp_socket matches Some(x) && x@ == q@,
        None => new.qmp_socket == old.qmp_socket,
    }
    &&& match vcpu_lookup(d.vcpu_threads@, t) {
        VcpuThreadLookup::Known(v) => new.vcpu_id == Some(v) && !new.vcpu_ambiguous,
        VcpuThreadLookup::Unknown => new.vcpu_id == old.vcpu_id && new.vcpu_ambiguous == old.vcpu_ambiguous,
        VcpuThreadLookup::Ambiguous => new.vcpu_id is None && new.vcpu_ambiguous,
    }
}

/// What applying the libvirt inventory `ds` to the identity of task `t` does.
pub open spec fn libvirt_discovery_applied(old: VmIdentity, new: VmIdentity, t: i32, ds: Seq<LibvirtDomain>) -> bool {
    let obs = old.host_start_time_ticks;
    let m = matching_domains(ds, t, obs);
    let u = unsafe_domains(ds, t, obs);
    if m.len() == 0 {
        if pid_reused(ds, t, obs) {
            marked_ambiguous(old, new, t, IdentityConflictReason::PidReuse)
        } else if u.len() > 0 {
            marked_ambiguous(old, new, t, IdentityConflictReason::StartTimeUnverified)
        } else {
            new == old
        }
    } else if m.len() > 1 {
        marked_ambiguous(old, new, t, IdentityConflictReason::MultipleDomains)
    } else {
        let d = m[0];
        if old.libvirt_uuid matches Some(x) && x@ != d.uuid@ {
            marked_ambiguous(old, new, t, IdentityConflictReason::LibvirtUuidMismatch)
        } else if old.qmp_socket matches Some(c) && d.qmp_socket matches Some(q) && c@ != q@ {
            marked_ambiguous(old, new, t, IdentityConflictReason::QmpSocketMismatch)
        } else {
            attributed(old, new, t, d)
        }
    }
}

/// Attributes the identity of task `task_id` from the libvirt inventory, or
/// marks it ambiguous when the inventory disagrees with it or with itself.
pub fn apply_libvirt_discovery(task_id: i32, ident: &mut VmIdentity, discovery: &LibvirtDomainDiscovery)
    ensures
        libvirt_discovery_applied(*old(ident), *final(ident), task_id, discovery.domains@),
{
    let looked = discovery.lookup_task_with_start_time(task_id, ident.host_start_time_ticks);
    match looked {
        Ok(Some(domain)) => {
            let uuid_mismatch = match &ident.libvirt_uuid {
                Some(u) => !crate::text::str_eq(u.as_str(), domain.uuid.as_str()),
                None => false,
            };
            if uuid_mismatch {
                mark_ambiguous_host_task(ident, task_id, IdentityConflictReason::LibvirtUuidMismatch);
                return;
            }
            let socket_mismatch = match (&ident.qmp_socket, &domain.qmp_socket) {
                (Some(c), Some(q)) => !crate::text::str_eq(c.as_str(), q.as_str()),
                _ => false,
            };
            if socket_mismatch {
                mark_ambiguous_host_task(ident, task_id, IdentityConflictReason::QmpSocketMismatch);
                return;
            }
            let name_mismatch = match &ident.vm_name {
                Some(n) => !crate::text::str_eq(n.as_str(), domain.name.as_str()),
                None => false,
            };
            let verified = domain_task_start_time_verified(domain, task_id, ident.host_start_time_ticks);
            ident.vm_id = cat3("libvirt:", domain.uuid.as_str(), "");
            proof {
                reveal_strlit("");
                assert(ident.vm_id@ =~= "libvirt:"@ + domain.uuid@);
            }
            ident.vm_name = Some(domain.name.clone());
            ident.libvirt_uuid = Some(domain.uuid.clone());
            push_identity_source(&mut ident.identity_sources, domain.source.identity_source());
            match &domain.qmp_socket {
                Some(sock) => {
                    ident.qmp_socket = Some(sock.clone());
                    push_identity_source(&mut ident.identity_sources, IDENTITY_SOURCE_QMP_SOCKET_HINT);
                },
                None => {},
            }
            if verified {
                ident.start_time_verified = true;
                push_identity_source(&mut ident.identity_sources, IDENTITY_SOURCE_START_TIME_VERIFIED);
            }
            match lookup_vcpu_thread(domain, task_id) {
                VcpuThreadLookup::Known(v) => {
                    ident.vcpu_id = Some(v);
                    ident.vcpu_ambiguous = false;
                },
                VcpuThreadLookup::Unknown => {},
                VcpuThreadLookup::Ambiguous => {
                    ident.vcpu_id = None;
                    ident.vcpu_ambiguous = true;
                },
            }
            ident.ambiguous = false;
            recompute_identity_confidence(ident);
            if name_mismatch {
                record_identity_conflict(ident, task_id, IdentityConflictReason::LibvirtNameMismatch, false);
            }
        },
        Ok(None) => {},
        Err(LibvirtDiscoveryError::AmbiguousTask { .. }) => {
            mark_ambiguous_host_task(ident, task_id, IdentityConflictReason::MultipleDomains);
        },
        Err(LibvirtDiscoveryError::PidReuseDetected { .. }) => {
            mark_ambiguous_host_task(ident, task_id, IdentityConflictReason::PidReuse);
        },
        Err(LibvirtDiscoveryError::UnverifiedTaskIdentity { .. }) => {
            mark_ambiguous_host_task(ident, task_id, IdentityConflictReason::StartTimeUnverified);
        },
        Err(_) => {},
    }
}

// ---------------------------------------------------------------------------
// Host task metadata parsers
// ---------------------------------------------------------------------------

/// The VM id of a task known only by pid (and start time).
pub open spec fn stable_pid_text(pid: i32, start: Option<u64>) -> Seq<char> {
    match start {
        Some(t) => "host-pid:"@ + dec_int(pid as int) + ":start:"@ + dec(t as nat),
        None => "host-pid:"@ + dec_int(pid as int),
    }
}

pub fn stable_pid_id(pid: i32, start: Option<u64>) -> (r: String)
    ensures
        r@ == stable_pid_text(pid, start),
{
    let p = i64_to_dec(pid as i64);
    match start {
        Some(t) => {
            let mut r = cat3("host-pid:", p.as_str(), ":start:");
            let d = u64_to_dec(t);
            push_str(&mut r, d.as_str());
            r
        },
        None => {
            let mut r = owned("host-pid:");
            push_str(&mut r, p.as_str());
            r
        },
    }
}

/// The value of `flag` in `args[i..]`: the (trimmed, non-empty) argument after
/// the first `flag`, or the first non-blank `flag=value`.
pub open spec fn arg_value_from(args: Seq<Seq<char>>, flag: Seq<char>, i: int) -> Option<Seq<char>>
    decreases args.len() - i,
{
    if i < 0 || i >= args.len() {
        None
    } else if args[i] == flag {
        if i + 1 < args.len() && trim(args[i + 1]).len() > 0 {
            Some(trim(args[i + 1]))
        } else {
            None
        }
    } else if starts_with(args[i], flag + "="@) && trim(args[i].skip(flag.len() + 1int)).len() > 0 {
        Some(trim(args[i].skip(flag.len() + 1int)))
    } else {
        arg_value_from(args, flag, i + 1)
    }
}

/// The text of an optional string.
pub open spec fn opt_text(o: Option<String>) -> Option<Seq<char>> {
    match o {
        Some(x) => Some(x@),
        None => None,
    }
}

pub fn parse_arg_value(args: &[String], flag: &str) -> (r: Option<String>)
    ensures
        opt_text(r) == arg_value_from(views(args@), flag@, 0),
{
    let mut prefix = owned(flag);
    push_str(&mut prefix, "=");
    proof {
        reveal_strlit("=");
    }
    let ghost va = views(args@);
    let mut i: usize = 0;
    while i < args.len()
        invariant
            i <= args@.len(),
            va == views(args@),
            prefix@ == flag@ + "="@,
            arg_value_from(va, flag@, 0) == arg_value_from(va, flag@, i as int),
        decreases args@.len() - i,
    {
        let arg = args[i].as_str();
        assert(va[i as int] == arg@);
        if str_eq(arg, flag) {
            if i + 1 < args.len() {
                let v = trim_owned(args[i + 1].as_str());
                assert(va[i + 1] == args@[i + 1]@);
                if crate::text::str_is_empty(v.as_str()) {
                    return None;
                }
                return Some(v);
            }
            return None;
        }
        if str_starts_with(arg, prefix.as_str()) {
            proof {
                reveal_strlit("=");
            }
            let cs = to_chars(arg);
            let plen = to_chars(prefix.as_str()).len();
            let rest = string_from(&cs, plen, cs.len());
            assert(rest@ =~= arg@.skip(flag@.len() + 1int));
            let v = trim_owned(rest.as_str());
            if !crate::text::str_is_empty(v.as_str()) {
                return Some(v);
            }
        }
        i = i + 1;
    }
    None
}

/// The first `guest=` value (trimmed, non-empty) among comma-separated parts.
pub open spec fn guest_part(parts: Seq<Seq<char>>) -> Option<Seq<char>>
    decreases parts.len(),
{
    if parts.len() == 0 {
        None
    } else {
        match guest_part(parts.drop_last()) {
            Some(v) => Some(v),
            None => if starts_with(parts.last(), "guest="@) && trim(parts.last().skip(6)).len() > 0 {
                Some(trim(parts.last().skip(6)))
            } else {
                None
            },
        }
    }
}

/// The VM name from a `-name` argument: its `guest=` value, else its first
/// comma-separated part, when not blank.
pub open spec fn qemu_name_of(args: Seq<Seq<char>>) -> Option<Seq<char>> {
    match arg_value_from(args, "-name"@, 0) {
        Some(raw) => {
            let parts = split_char(raw, ',');
            match guest_part(parts) {
                Some(v) => Some(v),
                None => if trim(parts[0]).len() > 0 {
                    Some(trim(parts[0]))
                } else {
                    None
                },
            }
        },
        None => None,
    }
}

pub fn parse_qemu_name(args: &[String]) -> (r: Option<String>)
    ensures
        opt_text(r) == qemu_name_of(views(args@)),
{
    let raw = match parse_arg_value(args, "-name") {
        Some(x) => x,
        None => {
            return None;
        },
    };
    let parts = split_on(raw.as_str(), ',');
    proof {
        crate::text::lemma_split_char_nonempty(raw@, ',');
    }
    let mut i: usize = 0;
    while i < parts.len()
        invariant
            i <= parts@.len(),
            views(parts@) == split_char(raw@, ','),
            arg_value_from(views(args@), "-name"@, 0) == Some(raw@),
            guest_part(views(parts@).take(i as int)) is None,
        decreases parts@.len() - i,
    {
        let part = parts[i].as_str();
        proof {
            assert(views(parts@).take(i as int + 1).drop_last() =~= views(parts@).take(i as int));
            assert(views(parts@).take(i as int + 1).last() == part@);
        }
        if str_starts_with(part, "guest=") {
            let cs = to_chars(part);
            proof {
                reveal_strlit("guest=");
            }
            let rest = string_from(&cs, 6, cs.len());
            assert(rest@ =~= part@.skip(6));
            let v = trim_owned(rest.as_str());
            if !crate::text::str_is_empty(v.as_str()) {
                proof {
                    lemma_guest_part_prefix(views(parts@), i as int + 1);
                }
                return Some(v);
            }
        }
        i = i + 1;
    }
    proof {
        assert(views(parts@).take(parts@.len() as int) =~= views(parts@));
    }
    let first = trim_owned(parts[0].as_str());
    if crate::text::str_is_empty(first.as_str()) {
        None
    } else {
        Some(first)
    }
}

proof fn lemma_guest_part_prefix(parts: Seq<Seq<char>>, i: int)
    requires
        0 <= i <= parts.len(),
        guest_part(parts.take(i)) is Some,
    ensures
        guest_part(parts) == guest_part(parts.take(i)),
    decreases parts.len() - i,
{
    if i < parts.len() {
        assert(parts.take(i + 1).drop_last() =~= parts.take(i));
        lemma_guest_part_prefix(parts, i + 1);
    } else {
        assert(parts.take(i) =~= parts);
    }
}

/// Index of the last `c` in `s`.
pub open spec fn last_index(s: Seq<char>, c: char) -> Option<int>
    decreases s.len(),
{
    if s.len() == 0 {
        None
    } else if s.last() == c {
        Some(s.len() - 1)
    } else {
        last_index(s.drop_last(), c)
    }
}

/// The start time (field 22) of a `/proc/<pid>/stat` line: the twentieth
/// whitespace-separated field after the `)` that ends the command name and
/// the character after it.
pub open spec fn stat_start_time(stat: Seq<char>) -> Option<u64> {
    match last_index(stat, ')') {
        Some(p) => if p + 2 > stat.len() || (p + 1 < stat.len() && (stat[p + 1] as u32) >= 0x80) {
            None
        } else {
            let fields = words_of(stat.skip(p + 2));
            if fields.len() > 19 {
                match parse_unsigned(fields[19], u64::MAX as nat) {
                    Some(v) => Some(v as u64),
                    None => None,
                }
            } else {
                None
            }
        },
        None => None,
    }
}

pub fn parse_proc_stat_start_time(stat: &str) -> (r: Option<u64>)
    ensures
        r == stat_start_time(stat@),
{
    let v = to_chars(stat);
    let n = v.len();
    let mut k = n;
    assert(v@.take(n as int) =~= v@);
    while k > 0 && v[k - 1] != ')'
        invariant
            v@ == stat@,
            n == v@.len(),
            k <= n,
            last_index(v@, ')') == last_index(v@.take(k as int), ')'),
        decreases k,
    {
        proof {
            assert(v@.take(k as int).drop_last() =~= v@.take(k as int - 1));
            assert(v@.take(k as int).last() == v@[k as int - 1]);
        }
        k = k - 1;
    }
    if k == 0 {
        assert(v@.take(0) =~= Seq::<char>::empty());
        return None;
    }
    let p = k - 1;
    assert(v@.take(k as int).last() == v@[p as int]);
    assert(last_index(v@, ')') == Some(p as int));
    if p + 1 >= n {
        return None;
    }
    if p + 1 < n && (v[p + 1] as u32) >= 0x80 {
        return None;
    }
    let rest = string_from(&v, p + 2, n);
    assert(rest@ =~= stat@.skip(p + 2));
    let fields = words(rest.as_str());
    if fields.len() <= 19 {
        return None;
    }
    crate::text::parse_u64(fields[19].as_str())
}

/// Index of the first occurrence of `t` in `s`.
pub open spec fn first_occurrence(s: Seq<char>, t: Seq<char>) -> Option<int> {
    if exists|i: int| occurs_at(s, t, i) {
        Some(choose|i: int| occurs_at(s, t, i) && forall|j: int| 0 <= j < i ==> !occurs_at(s, t, j))
    } else {
        None
    }
}

/// The longest prefix of ASCII digits.
pub open spec fn leading_digits(s: Seq<char>) -> Seq<char>
    decreases s.len(),
{
    if s.len() > 0 && is_digit(s[0]) {
        seq![s[0]] + leading_digits(s.drop_first())
    } else {
        Seq::empty()
    }
}

/// `s` without its leading non-digits.
pub open spec fn skip_non_digits(s: Seq<char>) -> Seq<char>
    decreases s.len(),
{
    if s.len() > 0 && !is_digit(s[0]) {
        skip_non_digits(s.drop_first())
    } else {
        s
    }
}

/// A run of digits as an `i32`, if it fits.
pub open spec fn digits_i32(d: Seq<char>) -> Option<i32> {
    match parse_signed(d, i32::MAX as nat) {
        Some(v) => Some(v as i32),
        None => None,
    }
}

/// The vCPU index in a QEMU thread name: the digits right after `vcpu`, else
/// the first digits after `cpu` (ignoring ASCII case).
pub open spec fn vcpu_of_thread_name(name: Seq<char>) -> Option<i32> {
    let l = ascii_lower(name);
    if vcpu_digits_of(l).len() > 0 {
        digits_i32(vcpu_digits_of(l))
    } else if cpu_digits_of(l).len() > 0 {
        digits_i32(cpu_digits_of(l))
    } else {
        None
    }
}

pub(crate) fn find_first(v: &Vec<char>, t: &str) -> (r: Option<usize>)
    ensures
        match r {
            Some(i) => first_occurrence(v@, t@) == Some(i as int) && i + t@.len() <= v@.len(),
            None => first_occurrence(v@, t@) is None,
        },
{
    let tv = to_chars(t);
    let r = find_from(v.as_slice(), v.len(), tv.as_slice(), 0);
    assert(v@.subrange(0, v@.len() as int) =~= v@);
    match r {
        Some(i) => {
            proof {
                let w = choose|k: int| occurs_at(v@, t@, k) && forall|j: int| 0 <= j < k ==> !occurs_at(v@, t@, j);
                assert(occurs_at(v@, t@, i as int));
                if w != i {
                    if w < i {
                    } else {
                        assert(!occurs_at(v@, t@, i as int));
                    }
                }
            }
            Some(i)
        },
        None => {
            proof {
                assert forall|k: int| !occurs_at(v@, t@, k) by {
                    if k < 0 {
                    }
                }
            }
            None
        },
    }
}

fn leading_digits_from(v: &Vec<char>, start: usize) -> (r: usize)
    requires
        start <= v@.len(),
    ensures
        start <= r <= v@.len(),
        v@.subrange(start as int, r as int) == leading_digits(v@.skip(start as int)),
{
    let mut j = start;
    while j < v.len() && '0' <= v[j] && v[j] <= '9'
        invariant
            start <= j <= v@.len(),
            leading_digits(v@.skip(start as int)) == v@.subrange(start as int, j as int) + leading_digits(v@.skip(j as int)),
        decreases v@.len() - j,
    {
        proof {
            assert(v@.skip(j as int).drop_first() =~= v@.skip(j as int + 1));
            assert(v@.subrange(start as int, j as int + 1) =~= v@.subrange(start as int, j as int) + seq![v@[j as int]]);
        }
        j = j + 1;
    }
    proof {
        assert(leading_digits(v@.skip(j as int)) =~= Seq::<char>::empty());
        assert(v@.subrange(start as int, j as int) + Seq::<char>::empty() =~= v@.subrange(start as int, j as int));
    }
    j
}

fn skip_non_digits_from(v: &Vec<char>, start: usize) -> (r: usize)
    requires
        start <= v@.len(),
    ensures
        start <= r <= v@.len(),
        v@.skip(r as int) == skip_non_digits(v@.skip(start as int)),
{
    let mut j = start;
    while j < v.len() && !('0' <= v[j] && v[j] <= '9')
        invariant
            start <= j <= v@.len(),
            skip_non_digits(v@.skip(start as int)) == skip_non_digits(v@.skip(j as int)),
        decreases v@.len() - j,
    {
        proof {
            assert(v@.skip(j as int).drop_first() =~= v@.skip(j as int + 1));
        }
        j = j + 1;
    }
    j
}

/// The digits right after the first `vcpu` of `l`.
pub open spec fn vcpu_digits_of(l: Seq<char>) -> Seq<char> {
    match first_occurrence(l, "vcpu"@) {
        Some(p) => leading_digits(l.skip(p + 4)),
        None => Seq::empty(),
    }
}

/// The first digits after the first `cpu` of `l`.
pub open spec fn cpu_digits_of(l: Seq<char>) -> Seq<char> {
    match first_occurrence(l, "cpu"@) {
        Some(p) => leading_digits(skip_non_digits(l.skip(p + 3))),
        None => Seq::empty(),
    }
}

fn vcpu_digits(l: &Vec<char>) -> (r: String)
    ensures
        r@ == vcpu_digits_of(l@),
{
    let n = l.len();
    match find_first(l, "vcpu") {
        Some(p) => {
            proof {
                reveal_strlit("vcpu");
                assert("vcpu"@.len() == 4);
            }
            let e = leading_digits_from(l, p + 4);
            string_from(l, p + 4, e)
        },
        None => String::new(),
    }
}

fn cpu_digits(l: &Vec<char>) -> (r: String)
    ensures
        r@ == cpu_digits_of(l@),
{
    let n = l.len();
    match find_first(l, "cpu") {
        Some(p) => {
            proof {
                reveal_strlit("cpu");
                assert("cpu"@.len() == 3);
            }
            let s0 = skip_non_digits_from(l, p + 3);
            let e = leading_digits_from(l, s0);
            proof {
                assert(l@.subrange(s0 as int, e as int) == leading_digits(l@.skip(s0 as int)));
            }
            string_from(l, s0, e)
        },
        None => String::new(),
    }
}

pub fn parse_vcpu_id_from_thread_name(name: &str) -> (r: Option<i32>)
    ensures
        r == vcpu_of_thread_name(name@),
{
    let l = to_ascii_lower(name);
    let d = vcpu_digits(&l);
    if !crate::text::str_is_empty(d.as_str()) {
        return crate::text::parse_i32(d.as_str());
    }
    let c = cpu_digits(&l);
    if !crate::text::str_is_empty(c.as_str()) {
        return crate::text::parse_i32(c.as_str());
    }
    None
}

/// The digits read from a name are the whole run of digits: a run of
/// digits followed by anything that does not start with a digit reads as
/// exactly that run.
pub proof fn lemma_leading_digits_whole_run(d: Seq<char>, rest: Seq<char>)
    requires
        crate::text::all_digits(d),
        rest.len() == 0 || !is_digit(rest[0]),
    ensures
        leading_digits(d + rest) == d,
    decreases d.len(),
{
    if d.len() == 0 {
        assert(d + rest =~= rest);
    } else {
        assert((d + rest)[0] == d[0]);
        assert((d + rest).drop_first() =~= d.drop_first() + rest);
        assert(crate::text::all_digits(d.drop_first())) by {
            assert forall|i: int| 0 <= i < d.drop_first().len() implies is_digit(#[trigger] d.drop_first()[i]) by {
                assert(d.drop_first()[i] == d[i + 1]);
            }
        }
        lemma_leading_digits_whole_run(d.drop_first(), rest);
        assert(seq![d[0]] + d.drop_first() =~= d);
    }
}

proof fn lemma_skip_non_digit_prefix(p: Seq<char>, s: Seq<char>)
    requires
        forall|i: int| 0 <= i < p.len() ==> !is_digit(#[trigger] p[i]),
        s.len() > 0 && is_digit(s[0]),
    ensures
        skip_non_digits(p + s) == s,
    decreases p.len(),
{
    if p.len() == 0 {
        assert(p + s =~= s);
    } else {
        assert((p + s)[0] == p[0]);
        assert((p + s).drop_first() =~= p.drop_first() + s);
        assert forall|i: int| 0 <= i < p.drop_first().len() implies !is_digit(#[trigger] p.drop_first()[i]) by {
            assert(p.drop_first()[i] == p[i + 1]);
        }
        lemma_skip_non_digit_prefix(p.drop_first(), s);
    }
}

/// The decimal digits of a non-negative `i32` read back as that number.
proof fn lemma_digits_i32_dec(n: i32)
    requires
        n >= 0,
    ensures
        digits_i32(dec(n as nat)) == Some(n),
{
    crate::text::lemma_dec_digits(n as nat);
}

/// `t` occurs at the start of `t + s`, so that is its first occurrence.
proof fn lemma_first_occurrence_at_start(t: Seq<char>, s: Seq<char>)
    ensures
        first_occurrence(t + s, t) == Some(0int),
{
    let l = t + s;
    assert(l.subrange(0, t.len() as int) =~= t);
    assert(occurs_at(l, t, 0));
    let i = choose|i: int| occurs_at(l, t, i) && forall|j: int| 0 <= j < i ==> !occurs_at(l, t, j);
    if i != 0 {
        assert(!occurs_at(l, t, 0));
    }
}

/// A thread name `vcpu<n>` names vCPU `n`, for every non-negative `n`.
pub proof fn lemma_vcpu_thread_name(n: i32)
    requires
        n >= 0,
    ensures
        vcpu_of_thread_name(seq!['v', 'c', 'p', 'u'] + dec(n as nat)) == Some(n),
{
    let d = dec(n as nat);
    crate::text::lemma_dec_digits(n as nat);
    let name = seq!['v', 'c', 'p', 'u'] + d;
    let l = ascii_lower(name);
    assert(l =~= name) by {
        assert forall|i: int| 0 <= i < name.len() implies #[trigger] crate::text::lower_char(name[i]) == name[i] by {
            if i >= 4 {
                assert(name[i] == d[i - 4]);
                assert(is_digit(d[i - 4]));
            }
        }
    }
    reveal_strlit("vcpu");
    assert("vcpu"@ =~= seq!['v', 'c', 'p', 'u']);
    lemma_first_occurrence_at_start(seq!['v', 'c', 'p', 'u'], d);
    assert(l.skip(4) =~= d + Seq::<char>::empty());
    lemma_leading_digits_whole_run(d, Seq::<char>::empty());
    assert(d + Seq::<char>::empty() =~= d);
    lemma_digits_i32_dec(n);
}

proof fn lemma_lower_cpu_kvm(d: Seq<char>)
    requires
        crate::text::all_digits(d),
    ensures
        ascii_lower(seq!['C', 'P', 'U', ' '] + d + seq!['/', 'K', 'V', 'M']) == seq!['c', 'p', 'u', ' '] + d + seq![
            '/',
            'k',
            'v',
            'm',
        ],
{
    let name = seq!['C', 'P', 'U', ' '] + d + seq!['/', 'K', 'V', 'M'];
    let low = seq!['c', 'p', 'u', ' '] + d + seq!['/', 'k', 'v', 'm'];
    assert forall|i: int| 0 <= i < name.len() implies #[trigger] crate::text::lower_char(name[i]) == low[i] by {
        if 4 <= i < 4 + d.len() {
            assert(name[i] == d[i - 4]);
            assert(low[i] == d[i - 4]);
            assert(is_digit(d[i - 4]));
        }
    }
    assert(ascii_lower(name) =~= low);
}

proof fn lemma_no_vcpu_in_cpu_kvm(d: Seq<char>)
    requires
        crate::text::all_digits(d),
    ensures
        first_occurrence(seq!['c', 'p', 'u', ' '] + d + seq!['/', 'k', 'v', 'm'], "vcpu"@) is None,
{
    let low = seq!['c', 'p', 'u', ' '] + d + seq!['/', 'k', 'v', 'm'];
    reveal_strlit("vcpu");
    assert forall|i: int| !occurs_at(low, "vcpu"@, i) by {
        if occurs_at(low, "vcpu"@, i) {
            assert(low.subrange(i, i + 4)[0] == low[i]);
            assert(low[i] == 'v');
            if 4 <= i < 4 + d.len() {
                assert(low[i] == d[i - 4]);
                assert(is_digit(d[i - 4]));
            }
        }
    }
}

#[verifier::rlimit(100)]
#[verifier::spinoff_prover]
proof fn lemma_cpu_digits_of_cpu_kvm(d: Seq<char>)
    requires
        crate::text::all_digits(d),
        d.len() > 0,
    ensures
        cpu_digits_of(seq!['c', 'p', 'u', ' '] + d + seq!['/', 'k', 'v', 'm']) == d,
{
    let rest = seq!['/', 'k', 'v', 'm'];
    let low = seq!['c', 'p', 'u', ' '] + d + rest;
    reveal_strlit("cpu");
    assert(low =~= seq!['c', 'p', 'u'] + (seq![' '] + d + rest));
    assert("cpu"@ =~= seq!['c', 'p', 'u']);
    lemma_first_occurrence_at_start(seq!['c', 'p', 'u'], seq![' '] + d + rest);
    assert(low.skip(3) =~= seq![' '] + (d + rest));
    assert((d + rest)[0] == d[0]);
    lemma_skip_non_digit_prefix(seq![' '], d + rest);
    lemma_leading_digits_whole_run(d, rest);
}

proof fn lemma_no_vcpu_digits(low: Seq<char>)
    requires
        first_occurrence(low, "vcpu"@) is None,
    ensures
        vcpu_digits_of(low).len() == 0,
{
}

proof fn lemma_vcpu_of_lowered(name: Seq<char>, low: Seq<char>)
    requires
        ascii_lower(name) == low,
        vcpu_digits_of(low).len() == 0,
        cpu_digits_of(low).len() > 0,
    ensures
        vcpu_of_thread_name(name) == digits_i32(cpu_digits_of(low)),
{
}

#[verifier::rlimit(100)]
#[verifier::spinoff_prover]
proof fn lemma_cpu_kvm_digits(d: Seq<char>)
    requires
        crate::text::all_digits(d),
        d.len() > 0,
    ensures
        vcpu_of_thread_name(seq!['C', 'P', 'U', ' '] + d + seq!['/', 'K', 'V', 'M']) == digits_i32(d),
{
    let low = seq!['c', 'p', 'u', ' '] + d + seq!['/', 'k', 'v', 'm'];
    lemma_lower_cpu_kvm(d);
    lemma_no_vcpu_in_cpu_kvm(d);
    lemma_no_vcpu_digits(low);
    lemma_cpu_digits_of_cpu_kvm(d);
    lemma_vcpu_of_lowered(seq!['C', 'P', 'U', ' '] + d + seq!['/', 'K', 'V', 'M'], low);
}

/// A QEMU thread name `CPU <n>/KVM` names vCPU `n`, for every non-negative
/// `n`: all of its digits are read.
pub proof fn lemma_cpu_kvm_thread_name(n: i32)
    requires
        n >= 0,
    ensures
        vcpu_of_thread_name(seq!['C', 'P', 'U', ' '] + dec(n as nat) + seq!['/', 'K', 'V', 'M']) == Some(n),
{
    crate::text::lemma_dec_digits(n as nat);
    lemma_cpu_kvm_digits(dec(n as nat));
    lemma_digits_i32_dec(n);
}

} // verus!
