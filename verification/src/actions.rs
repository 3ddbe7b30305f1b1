//! Response actions: which QMP monitor socket an action may use for a VM,
//! the identity-safety rules that refuse QMP actions on untrusted
//! identities, and the classification of action failures.
use vstd::prelude::*;
use crate::config::{Config, QmpMapping};
use crate::event::{IdentityConfidence, IdentityInfo};
use crate::identity::{
    IDENTITY_SOURCE_AMBIGUOUS, IDENTITY_SOURCE_FALLBACK_PID, IDENTITY_SOURCE_LIBVIRT_LIFECYCLE,
    IDENTITY_SOURCE_LIBVIRT_XML, IDENTITY_SOURCE_PROC_CGROUP, IDENTITY_SOURCE_PROC_CMDLINE,
    IDENTITY_SOURCE_QMP_SOCKET_HINT, IDENTITY_SOURCE_START_TIME_VERIFIED,
};
use crate::metrics::IdentityQmpRefusalReason;
use crate::pattern::{compilable, unsupported_syntax_message, Pattern};
use crate::text::{
    ascii_lower, cat3, cat5, contains, contains_seq, is_blank, owned, push_str, starts_with,
    str_eq, str_starts_with, to_ascii_lower, trim, views,
};

verus! {

/// Why an identity is not safe enough for a QMP action.
#[derive(Debug, Clone, Copy, PartialEq, Eq, Structural)]
pub enum ActionSafetyRefusalReason {
    MissingIdentity,
    LowConfidence,
    AmbiguousIdentity,
    UnverifiedIdentity,
    PidOnlyIdentity,
    StaleIdentity,
    ConflictingIdentity,
}

impl ActionSafetyRefusalReason {
    pub open spec fn name(self) -> Seq<char> {
        match self {
            ActionSafetyRefusalReason::MissingIdentity => "missing_identity"@,
            ActionSafetyRefusalReason::LowConfidence => "low_confidence"@,
            ActionSafetyRefusalReason::AmbiguousIdentity => "ambiguous_identity"@,
            ActionSafetyRefusalReason::UnverifiedIdentity => "unverified_identity"@,
            ActionSafetyRefusalReason::PidOnlyIdentity => "pid_only_identity"@,
            ActionSafetyRefusalReason::StaleIdentity => "stale_identity"@,
            ActionSafetyRefusalReason::ConflictingIdentity => "conflicting_identity"@,
        }
    }

    pub fn as_str(self) -> (r: &'static str)
        ensures
            r@ == self.name(),
    {
        match self {
            ActionSafetyRefusalReason::MissingIdentity => "missing_identity",
            ActionSafetyRefusalReason::LowConfidence => "low_confidence",
            ActionSafetyRefusalReason::AmbiguousIdentity => "ambiguous_identity",
            ActionSafetyRefusalReason::UnverifiedIdentity => "unverified_identity",
            ActionSafetyRefusalReason::PidOnlyIdentity => "pid_only_identity",
            ActionSafetyRefusalReason::StaleIdentity => "stale_identity",
            ActionSafetyRefusalReason::ConflictingIdentity => "conflicting_identity",
        }
    }

    pub open spec fn cause(self) -> Seq<char> {
        match self {
            ActionSafetyRefusalReason::MissingIdentity => "event has no identity metadata"@,
            ActionSafetyRefusalReason::LowConfidence => "identity confidence is below the configured action threshold"@,
            ActionSafetyRefusalReason::AmbiguousIdentity => "identity is ambiguous"@,
            ActionSafetyRefusalReason::UnverifiedIdentity => "identity lacks PID/TID start-time verification"@,
            ActionSafetyRefusalReason::PidOnlyIdentity => "identity is based on PID-only fallback metadata"@,
            ActionSafetyRefusalReason::StaleIdentity => "identity has a stale-cache conflict"@,
            ActionSafetyRefusalReason::ConflictingIdentity => "identity sources conflict"@,
        }
    }

    /// The refusal detail recorded for an action of `kind`.
    pub open spec fn detail_text(self, kind: Seq<char>, required: IdentityConfidence) -> Seq<char> {
        "identity_safety: reason="@ + self.name() + " action="@ + kind + " required_confidence="@ + required.name()
            + "; refused QMP action because "@ + self.cause()
    }

    /// The refusal detail recorded for an action of `kind`.
    pub fn detail(self, kind: &str, required: IdentityConfidence) -> (r: String)
        ensures
            r@ == self.detail_text(kind@, required),
    {
        let cause = match self {
            ActionSafetyRefusalReason::MissingIdentity => "event has no identity metadata",
            ActionSafetyRefusalReason::LowConfidence => "identity confidence is below the configured action threshold",
            ActionSafetyRefusalReason::AmbiguousIdentity => "identity is ambiguous",
            ActionSafetyRefusalReason::UnverifiedIdentity => "identity lacks PID/TID start-time verification",
            ActionSafetyRefusalReason::PidOnlyIdentity => "identity is based on PID-only fallback metadata",
            ActionSafetyRefusalReason::StaleIdentity => "identity has a stale-cache conflict",
            ActionSafetyRefusalReason::ConflictingIdentity => "identity sources conflict",
        };
        let mut r = cat5("identity_safety: reason=", self.as_str(), " action=", kind, " required_confidence=");
        push_str(&mut r, required.as_str());
        push_str(&mut r, "; refused QMP action because ");
        push_str(&mut r, cause);
        r
    }
}

#[derive(Debug, Clone, Copy, PartialEq, Eq, Structural)]
pub enum ActionFailureClass {
    QmpError,
    Timeout,
    Refusal,
    UnsupportedAction,
    UnsafeInput,
    MissingArgument,
}

#[derive(Debug, Clone, PartialEq, Eq)]
pub struct ActionFailure {
    pub class: ActionFailureClass,
    pub detail: String,
}

/// The detail reads like a timeout (ignoring ASCII case).
pub open spec fn timeout_text(detail: Seq<char>) -> bool {
    let l = ascii_lower(detail);
    ||| contains_seq(l, "timed out"@)
    ||| contains_seq(l, "timeout"@)
    ||| contains_seq(l, "would block"@)
    ||| contains_seq(l, "did not respond"@)
    ||| contains_seq(l, "temporarily unavailable"@)
}

pub fn is_timeout_detail(detail: &str) -> (r: bool)
    ensures
        r == timeout_text(detail@),
{
    let lv = to_ascii_lower(detail);
    let l = crate::text::string_of(&lv);
    contains(l.as_str(), "timed out") || contains(l.as_str(), "timeout") || contains(
        l.as_str(),
        "would block",
    ) || contains(l.as_str(), "did not respond") || contains(l.as_str(), "temporarily unavailable")
}

/// The metric reason of an identity-safety refusal detail.
pub open spec fn safety_metric_reason(detail: Seq<char>) -> Option<IdentityQmpRefusalReason> {
    if !starts_with(detail, "identity_safety:"@) {
        None
    } else if contains_seq(detail, "reason=missing_identity"@) {
        Some(IdentityQmpRefusalReason::MissingIdentity)
    } else if contains_seq(detail, "reason=low_confidence"@) {
        Some(IdentityQmpRefusalReason::LowConfidence)
    } else if contains_seq(detail, "reason=ambiguous_identity"@) {
        Some(IdentityQmpRefusalReason::AmbiguousIdentity)
    } else if contains_seq(detail, "reason=unverified_identity"@) {
        Some(IdentityQmpRefusalReason::UnverifiedIdentity)
    } else if contains_seq(detail, "reason=pid_only_identity"@) {
        Some(IdentityQmpRefusalReason::PidOnlyIdentity)
    } else if contains_seq(detail, "reason=stale_identity"@) {
        Some(IdentityQmpRefusalReason::StaleIdentity)
    } else if contains_seq(detail, "reason=conflicting_identity"@) {
        Some(IdentityQmpRefusalReason::ConflictingIdentity)
    } else {
        Some(IdentityQmpRefusalReason::StableIdentityRequired)
    }
}

pub fn identity_safety_metric_reason(detail: &str) -> (r: Option<IdentityQmpRefusalReason>)
    ensures
        r == safety_metric_reason(detail@),
{
    if !str_starts_with(detail, "identity_safety:") {
        None
    } else if contains(detail, "reason=missing_identity") {
        Some(IdentityQmpRefusalReason::MissingIdentity)
    } else if contains(detail, "reason=low_confidence") {
        Some(IdentityQmpRefusalReason::LowConfidence)
    } else if contains(detail, "reason=ambiguous_identity") {
        Some(IdentityQmpRefusalReason::AmbiguousIdentity)
    } else if contains(detail, "reason=unverified_identity") {
        Some(IdentityQmpRefusalReason::UnverifiedIdentity)
    } else if contains(detail, "reason=pid_only_identity") {
        Some(IdentityQmpRefusalReason::PidOnlyIdentity)
    } else if contains(detail, "reason=stale_identity") {
        Some(IdentityQmpRefusalReason::StaleIdentity)
    } else if contains(detail, "reason=conflicting_identity") {
        Some(IdentityQmpRefusalReason::ConflictingIdentity)
    } else {
        Some(IdentityQmpRefusalReason::StableIdentityRequired)
    }
}

/// The failure class of a QMP or transport error detail.
pub open spec fn error_class(detail: Seq<char>) -> ActionFailureClass {
    if timeout_text(detail) {
        ActionFailureClass::Timeout
    } else {
        ActionFailureClass::QmpError
    }
}

impl ActionFailure {
    /// A QMP or transport error; timeouts are recognised by their text.
    pub fn error(detail: String) -> (r: Self)
        ensures
            r.class == error_class(detail@),
            r.detail == detail,
    {
        let class = if is_timeout_detail(detail.as_str()) {
            ActionFailureClass::Timeout
        } else {
            ActionFailureClass::QmpError
        };
        ActionFailure { class, detail }
    }

    pub fn refused(detail: String) -> (r: Self)
        ensures
            r == (ActionFailure { class: ActionFailureClass::Refusal, detail }),
    {
        ActionFailure { class: ActionFailureClass::Refusal, detail }
    }

    pub fn unsupported(detail: String) -> (r: Self)
        ensures
            r == (ActionFailure { class: ActionFailureClass::UnsupportedAction, detail }),
    {
        ActionFailure { class: ActionFailureClass::UnsupportedAction, detail }
    }

    pub fn unsafe_input(detail: String) -> (r: Self)
        ensures
            r == (ActionFailure { class: ActionFailureClass::UnsafeInput, detail }),
    {
        ActionFailure { class: ActionFailureClass::UnsafeInput, detail }
    }

    pub fn missing_argument(detail: String) -> (r: Self)
        ensures
            r == (ActionFailure { class: ActionFailureClass::MissingArgument, detail }),
    {
        ActionFailure { class: ActionFailureClass::MissingArgument, detail }
    }

    pub open spec fn status_name(self) -> Seq<char> {
        match self.class {
            ActionFailureClass::Timeout => "timeout"@,
            ActionFailureClass::Refusal => "refused"@,
            ActionFailureClass::UnsupportedAction => "unsupported"@,
            ActionFailureClass::UnsafeInput | ActionFailureClass::MissingArgument => "refused"@,
            ActionFailureClass::QmpError => "error"@,
        }
    }

    /// The action status reported for the failure.
    pub fn status(&self) -> (r: &'static str)
        ensures
            r@ == self.status_name(),
    {
        match self.class {
            ActionFailureClass::Timeout => "timeout",
            ActionFailureClass::Refusal => "refused",
            ActionFailureClass::UnsupportedAction => "unsupported",
            ActionFailureClass::UnsafeInput | ActionFailureClass::MissingArgument => "refused",
            ActionFailureClass::QmpError => "error",
        }
    }

    pub open spec fn class_name(self) -> Seq<char> {
        match self.class {
            ActionFailureClass::QmpError => "qmp_error"@,
            ActionFailureClass::Timeout => "timeout"@,
            ActionFailureClass::Refusal => "stable_identity_required"@,
            ActionFailureClass::UnsupportedAction => "unsupported_action"@,
            ActionFailureClass::UnsafeInput => "unsafe_input"@,
            ActionFailureClass::MissingArgument => "missing_argument"@,
        }
    }

    /// The failure class label reported for the failure.
    pub fn failure_class(&self) -> (r: &'static str)
        ensures
            r@ == self.class_name(),
    {
        match self.class {
            ActionFailureClass::QmpError => "qmp_error",
            ActionFailureClass::Timeout => "timeout",
            ActionFailureClass::Refusal => "stable_identity_required",
            ActionFailureClass::UnsupportedAction => "unsupported_action",
            ActionFailureClass::UnsafeInput => "unsafe_input",
            ActionFailureClass::MissingArgument => "missing_argument",
        }
    }

    /// QMP errors and timeouts may be retried.
    pub fn is_retryable(&self) -> (r: bool)
        ensures
            r == (self.class == ActionFailureClass::QmpError || self.class == ActionFailureClass::Timeout),
    {
        match self.class {
            ActionFailureClass::QmpError | ActionFailureClass::Timeout => true,
            _ => false,
        }
    }

    /// Refusals, unsafe input and missing arguments refuse the action.
    pub fn is_refused(&self) -> (r: bool)
        ensures
            r == (self.class == ActionFailureClass::Refusal || self.class == ActionFailureClass::UnsafeInput
                || self.class == ActionFailureClass::MissingArgument),
    {
        match self.class {
            ActionFailureClass::Refusal | ActionFailureClass::UnsafeInput | ActionFailureClass::MissingArgument => true,
            _ => false,
        }
    }

    pub fn is_timeout(&self) -> (r: bool)
        ensures
            r == (self.class == ActionFailureClass::Timeout),
    {
        self.class == ActionFailureClass::Timeout
    }

    /// The identity-safety metric reason of a refusal.
    pub fn identity_qmp_refusal_reason(&self, vm_id: Option<&str>) -> (r: Option<IdentityQmpRefusalReason>)
        ensures
            r == (if self.class != ActionFailureClass::Refusal {
                None
            } else if safety_metric_reason(self.detail@) is Some {
                safety_metric_reason(self.detail@)
            } else if vm_id matches Some(id) && starts_with(id@, "ambiguous:"@) {
                Some(IdentityQmpRefusalReason::AmbiguousIdentity)
            } else if contains_seq(self.detail@, "matched multiple actions.qmp sockets"@) || contains_seq(
                self.detail@,
                "different vm_id"@,
            ) {
                Some(IdentityQmpRefusalReason::ConflictingStableMapping)
            } else {
                Some(IdentityQmpRefusalReason::StableIdentityRequired)
            }),
    {
        if self.class != ActionFailureClass::Refusal {
            return None;
        }
        match identity_safety_metric_reason(self.detail.as_str()) {
            Some(reason) => {
                return Some(reason);
            },
            None => {},
        }
        let ambiguous = match vm_id {
            Some(id) => str_starts_with(id, "ambiguous:"),
            None => false,
        };
        if ambiguous {
            return Some(IdentityQmpRefusalReason::AmbiguousIdentity);
        }
        if contains(self.detail.as_str(), "matched multiple actions.qmp sockets") || contains(
            self.detail.as_str(),
            "different vm_id",
        ) {
            return Some(IdentityQmpRefusalReason::ConflictingStableMapping);
        }
        Some(IdentityQmpRefusalReason::StableIdentityRequired)
    }

    pub fn into_detail(self) -> (r: String)
        ensures
            r == self.detail,
    {
        self.detail
    }
}

/// The action kinds that drive QEMU through QMP.
pub open spec fn qmp_backed(kind: Seq<char>) -> bool {
    kind == "pause_vm"@ || kind == "resume_vm"@ || kind == "dump_guest_memory"@ || kind
        == "quarantine_nic"@
}

pub fn qmp_backed_action(kind: &str) -> (r: bool)
    ensures
        r == qmp_backed(kind@),
{
    str_eq(kind, "pause_vm") || str_eq(kind, "resume_vm") || str_eq(kind, "dump_guest_memory")
        || str_eq(kind, "quarantine_nic")
}

/// The identity lists the source.
pub open spec fn identity_lists(identity: IdentityInfo, source: Seq<char>) -> bool {
    views(identity.sources@).contains(source)
}

fn list_contains(list: &Vec<String>, item: &str) -> (r: bool)
    ensures
        r == views(list@).contains(item@),
{
    let mut i: usize = 0;
    while i < list.len()
        invariant
            i <= list@.len(),
            forall|k: int| 0 <= k < i ==> (#[trigger] list@[k])@ != item@,
        decreases list@.len() - i,
    {
        if str_eq(list[i].as_str(), item) {
            proof {
                assert(views(list@)[i as int] == item@);
            }
            return true;
        }
        i = i + 1;
    }
    proof {
        if views(list@).contains(item@) {
            let k = choose|k: int| 0 <= k < views(list@).len() && views(list@)[k] == item@;
            assert(list@[k]@ == item@);
        }
    }
    false
}

pub fn has_identity_source(identity: &IdentityInfo, source: &str) -> (r: bool)
    ensures
        r == identity_lists(*identity, source@),
{
    list_contains(&identity.sources, source)
}

/// The identity rests only on the PID fallback: no command line, cgroup,
/// libvirt, QMP socket or start-time source backs it.
pub open spec fn pid_only(identity: IdentityInfo) -> bool {
    &&& identity_lists(identity, IDENTITY_SOURCE_FALLBACK_PID@)
    &&& !identity_lists(identity, IDENTITY_SOURCE_PROC_CMDLINE@)
    &&& !identity_lists(identity, IDENTITY_SOURCE_PROC_CGROUP@)
    &&& !identity_lists(identity, IDENTITY_SOURCE_LIBVIRT_XML@)
    &&& !identity_lists(identity, IDENTITY_SOURCE_LIBVIRT_LIFECYCLE@)
    &&& !identity_lists(identity, IDENTITY_SOURCE_QMP_SOCKET_HINT@)
    &&& !identity_lists(identity, IDENTITY_SOURCE_START_TIME_VERIFIED@)
}

pub fn is_pid_only_identity(identity: &IdentityInfo) -> (r: bool)
    ensures
        r == pid_only(*identity),
{
    has_identity_source(identity, IDENTITY_SOURCE_FALLBACK_PID) && !(has_identity_source(
        identity,
        IDENTITY_SOURCE_PROC_CMDLINE,
    ) || has_identity_source(identity, IDENTITY_SOURCE_PROC_CGROUP) || has_identity_source(
        identity,
        IDENTITY_SOURCE_LIBVIRT_XML,
    ) || has_identity_source(identity, IDENTITY_SOURCE_LIBVIRT_LIFECYCLE) || has_identity_source(
        identity,
        IDENTITY_SOURCE_QMP_SOCKET_HINT,
    ) || has_identity_source(identity, IDENTITY_SOURCE_START_TIME_VERIFIED))
}

/// The tags hold `identity_conflict:<reason>`.
pub open spec fn has_conflict_tag(tags: Seq<String>, reason: Seq<char>) -> bool {
    views(tags).contains("identity_conflict:"@ + reason)
}

pub fn has_identity_conflict_tag(tags: &Vec<String>, reason: &str) -> (r: bool)
    ensures
        r == has_conflict_tag(tags@, reason@),
{
    let expected = cat3("identity_conflict:", reason, "");
    proof {
        reveal_strlit("");
        assert(expected@ =~= "identity_conflict:"@ + reason@);
    }
    list_contains(tags, expected.as_str())
}

/// Some tag is `identity:conflict` or starts with `identity_conflict:`.
pub open spec fn has_any_conflict_tag(tags: Seq<String>) -> bool {
    exists|i: int|
        0 <= i < tags.len() && ((#[trigger] tags[i])@ == "identity:conflict"@ || starts_with(
            tags[i]@,
            "identity_conflict:"@,
        ))
}

pub fn has_any_identity_conflict_tag(tags: &Vec<String>) -> (r: bool)
    ensures
        r == has_any_conflict_tag(tags@),
{
    let mut i: usize = 0;
    while i < tags.len()
        invariant
            i <= tags@.len(),
            forall|k: int|
                0 <= k < i ==> !((#[trigger] tags@[k])@ == "identity:conflict"@ || starts_with(
                    tags@[k]@,
                    "identity_conflict:"@,
                )),
        decreases tags@.len() - i,
    {
        let t = tags[i].as_str();
        if str_eq(t, "identity:conflict") || str_starts_with(t, "identity_conflict:") {
            return true;
        }
        i = i + 1;
    }
    false
}

/// An action mapping with its patterns compiled.
#[derive(Debug, Clone)]
pub struct CompiledQmpMapping {
    pub vm_id: Option<Pattern>,
    pub vm: Option<Pattern>,
    pub socket: String,
}

/// A pattern that is the compilation of a non-blank source, or none for a blank one.
pub open spec fn compiled_pattern(p: Option<Pattern>, src: Seq<char>) -> bool {
    if trim(src).len() == 0 {
        p is None
    } else {
        p matches Some(q) && q.matches_source(src)
    }
}

/// Why a mapping does not compile, if it does not.
pub open spec fn mapping_compile_error(m: QmpMapping) -> Option<Seq<char>> {
    if trim(m.vm_id@).len() > 0 && !compilable(m.vm_id@) {
        Some("invalid qmp vm_id pattern '"@ + m.vm_id@ + "': "@ + unsupported_syntax_message())
    } else if trim(m.vm@).len() > 0 && !compilable(m.vm@) {
        Some("invalid qmp vm pattern '"@ + m.vm@ + "': "@ + unsupported_syntax_message())
    } else {
        None
    }
}

pub fn compile_qmp_mapping(m: &QmpMapping) -> (r: Result<CompiledQmpMapping, String>)
    ensures
        match r {
            Ok(c) => mapping_compile_error(*m) is None && compiled_pattern(c.vm_id, m.vm_id@)
                && compiled_pattern(c.vm, m.vm@) && c.socket@ == m.socket@,
            Err(e) => mapping_compile_error(*m) == Some(e@),
        },
{
    let vm_id = if is_blank(m.vm_id.as_str()) {
        None
    } else {
        match Pattern::compile(m.vm_id.as_str()) {
            Ok(p) => Some(p),
            Err(e) => {
                let mut msg = cat3("invalid qmp vm_id pattern '", m.vm_id.as_str(), "': ");
                push_str(&mut msg, e.as_str());
                return Err(msg);
            },
        }
    };
    let vm = if is_blank(m.vm.as_str()) {
        None
    } else {
        match Pattern::compile(m.vm.as_str()) {
            Ok(p) => Some(p),
            Err(e) => {
                let mut msg = cat3("invalid qmp vm pattern '", m.vm.as_str(), "': ");
                push_str(&mut msg, e.as_str());
                return Err(msg);
            },
        }
    };
    Ok(CompiledQmpMapping { vm_id, vm, socket: m.socket.clone() })
}

pub struct ActionDispatcher {
    pub qmp: Vec<CompiledQmpMapping>,
    pub require_stable_qmp_match: bool,
    pub min_action_confidence: IdentityConfidence,
    pub timeout_ms: u64,
    pub retries: u32,
    pub dump_root: String,
}

/// The first mapping that does not compile, if any.
pub open spec fn first_mapping_error(s: Seq<QmpMapping>) -> Option<Seq<char>>
    decreases s.len(),
{
    if s.len() == 0 {
        None
    } else {
        match first_mapping_error(s.drop_last()) {
            Some(e) => Some(e),
            None => mapping_compile_error(s.last()),
        }
    }
}

/// The dispatcher was built from the configuration.
pub open spec fn built_from(d: ActionDispatcher, cfg: Config) -> bool {
    &&& d.qmp@.len() == cfg.actions.qmp@.len()
    &&& forall|i: int|
        0 <= i < d.qmp@.len() ==> compiled_pattern((#[trigger] d.qmp@[i]).vm_id, cfg.actions.qmp@[i].vm_id@)
            && compiled_pattern(d.qmp@[i].vm, cfg.actions.qmp@[i].vm@) && d.qmp@[i].socket@
            == cfg.actions.qmp@[i].socket@
    &&& d.require_stable_qmp_match == cfg.identity.require_stable_qmp_match
    &&& d.min_action_confidence == cfg.identity.min_action_confidence
    &&& d.timeout_ms == cfg.actions.timeout_ms
    &&& d.retries == cfg.actions.retries
    &&& d.dump_root@ == cfg.actions.dump_root@
}

/// The refusal of a low confidence threshold for actions.
pub open spec fn low_threshold_message() -> Seq<char> {
    "invalid identity.min_action_confidence: low confidence cannot authorize QMP actions"@
}

/// The first matching pattern of a mapping list, by VM id.
pub open spec fn id_matches(m: CompiledQmpMapping, id: Seq<char>) -> bool {
    m.vm_id matches Some(p) && p.matches(id)
}

/// The first matching pattern of a mapping list, by VM name.
pub open spec fn name_matches(m: CompiledQmpMapping, name: Seq<char>) -> bool {
    m.vm matches Some(p) && p.matches(name)
}

/// The sockets of the mappings whose VM id pattern matches `id`, in order.
pub open spec fn id_sockets(s: Seq<CompiledQmpMapping>, id: Seq<char>) -> Seq<Seq<char>>
    decreases s.len(),
{
    if s.len() == 0 {
        Seq::empty()
    } else if id_matches(s.last(), id) {
        id_sockets(s.drop_last(), id).push(s.last().socket@)
    } else {
        id_sockets(s.drop_last(), id)
    }
}

/// Outcome of a socket search: nothing found, one socket, or a refusal.
pub enum SocketPick {
    NoneFound,
    Found(Seq<char>),
    DifferentId,
    Multiple,
}

/// Name fallback over the mappings: each name match must not carry a
/// stable id pattern that rejects `id`, and all name matches must agree on
/// the socket.
pub open spec fn name_pick(s: Seq<CompiledQmpMapping>, id: Option<Seq<char>>, name: Seq<char>) -> SocketPick
    decreases s.len(),
{
    if s.len() == 0 {
        SocketPick::NoneFound
    } else {
        let prev = name_pick(s.drop_last(), id, name);
        let m = s.last();
        match prev {
            SocketPick::DifferentId => SocketPick::DifferentId,
            SocketPick::Multiple => SocketPick::Multiple,
            _ => if !name_matches(m, name) {
                prev
            } else if id matches Some(i) && m.vm_id matches Some(p) && !p.matches(i) {
                SocketPick::DifferentId
            } else {
                match prev {
                    SocketPick::Found(sock) => if sock != m.socket@ {
                        SocketPick::Multiple
                    } else {
                        prev
                    },
                    _ => SocketPick::Found(m.socket@),
                }
            },
        }
    }
}

/// A refusal with the given detail.
pub open spec fn refusal(e: ActionFailure, detail: Seq<char>) -> bool {
    e.class == ActionFailureClass::Refusal && e.detail@ == detail
}

pub open spec fn multiple_id_message(name: Seq<char>, id: Seq<char>) -> Seq<char> {
    "refused QMP action for vm '"@ + name + "': vm_id '"@ + id
        + "' matched multiple actions.qmp sockets; configure one UUID-authoritative mapping"@
}

pub open spec fn different_id_message(name: Seq<char>) -> Seq<char> {
    "refused QMP action for vm '"@ + name
        + "': VM-name fallback matched an actions.qmp entry for a different vm_id; configure a matching UUID-authoritative mapping"@
}

pub open spec fn multiple_name_message(name: Seq<char>) -> Seq<char> {
    "refused QMP action for vm '"@ + name
        + "': VM-name fallback matched multiple actions.qmp sockets; add a stable vm_id mapping or narrow the name patterns"@
}

pub open spec fn ambiguous_message(name: Seq<char>, id: Seq<char>) -> Seq<char> {
    "refused QMP action for vm '"@ + name + "': VM identity is ambiguous ("@ + id + ")"@
}

pub open spec fn no_id_match_message(name: Seq<char>, id: Seq<char>) -> Seq<char> {
    "identity.require_stable_qmp_match=true refused QMP VM-name fallback: no actions.qmp vm_id pattern matched vm_id '"@
        + id + "' for vm '"@ + name + "'"@
}

pub open spec fn no_stable_id_message(name: Seq<char>) -> Seq<char> {
    "identity.require_stable_qmp_match=true refused QMP VM-name fallback: event for vm '"@ + name
        + "' has no stable vm_id"@
}

pub open spec fn no_socket_message(id: Option<Seq<char>>, name: Seq<char>) -> Seq<char> {
    "no QMP socket mapped for vm_id '"@ + (match id {
        Some(i) => i,
        None => "none"@,
    }) + "' vm '"@ + name + "'"@
}

/// The text of an optional string slice.
pub open spec fn opt_str(o: Option<&str>) -> Option<Seq<char>> {
    match o {
        Some(s) => Some(s@),
        None => None,
    }
}

/// Some socket differs from the first.
pub open spec fn sockets_disagree(ids: Seq<Seq<char>>) -> bool {
    exists|k: int| 0 <= k < ids.len() && #[trigger] ids[k] != ids[0]
}

/// What the socket lookup returns once no stable-id mapping matched.
pub open spec fn fallback_result(d: ActionDispatcher, vm_id: Option<&str>, vm_name: Seq<char>, r: Result<&str, ActionFailure>) -> bool {
    if d.require_stable_qmp_match {
        match vm_id {
            Some(i) => r matches Err(e) && refusal(e, no_id_match_message(vm_name, i@)),
            None => r matches Err(e) && refusal(e, no_stable_id_message(vm_name)),
        }
    } else {
        match name_pick(d.qmp@, opt_str(vm_id), vm_name) {
            SocketPick::DifferentId => r matches Err(e) && refusal(e, different_id_message(vm_name)),
            SocketPick::Multiple => r matches Err(e) && refusal(e, multiple_name_message(vm_name)),
            SocketPick::Found(sock) => r matches Ok(s) && s@ == sock,
            SocketPick::NoneFound => r matches Err(e) && e.detail@ == no_socket_message(opt_str(vm_id), vm_name)
                && e.class == error_class(e.detail@),
        }
    }
}

/// What the socket lookup for a VM returns: refusals for ambiguous ids and
/// conflicting mappings, the stable-id socket when there is one, then the
/// name fallback unless stable matches are required.
pub open spec fn socket_result(d: ActionDispatcher, vm_id: Option<&str>, vm_name: Seq<char>, r: Result<&str, ActionFailure>) -> bool {
    match vm_id {
        Some(i) => {
            let ids = id_sockets(d.qmp@, i@);
            if starts_with(i@, "ambiguous:"@) {
                r matches Err(e) && refusal(e, ambiguous_message(vm_name, i@))
            } else if ids.len() > 0 && sockets_disagree(ids) {
                r matches Err(e) && refusal(e, multiple_id_message(vm_name, i@))
            } else if ids.len() > 0 {
                r matches Ok(s) && s@ == ids[0]
            } else {
                fallback_result(d, vm_id, vm_name, r)
            }
        },
        None => fallback_result(d, vm_id, vm_name, r),
    }
}

/// Why the identity of an event is not safe enough for a QMP action of `kind`.
pub open spec fn safety_refusal(
    min: IdentityConfidence,
    vm_id: Option<&str>,
    kind: Seq<char>,
    identity: Option<IdentityInfo>,
    tags: Seq<String>,
) -> Option<ActionSafetyRefusalReason> {
    if !qmp_backed(kind) {
        None
    } else if vm_id matches Some(i) && starts_with(i@, "ambiguous:"@) {
        None
    } else if has_conflict_tag(tags, "stale_cache"@) {
        Some(ActionSafetyRefusalReason::StaleIdentity)
    } else if has_any_conflict_tag(tags) {
        Some(ActionSafetyRefusalReason::ConflictingIdentity)
    } else {
        match identity {
            None => Some(ActionSafetyRefusalReason::MissingIdentity),
            Some(id) => if id.ambiguous || identity_lists(id, IDENTITY_SOURCE_AMBIGUOUS@) {
                Some(ActionSafetyRefusalReason::AmbiguousIdentity)
            } else if pid_only(id) {
                Some(ActionSafetyRefusalReason::PidOnlyIdentity)
            } else if id.confidence.spec_rank() < min.spec_rank() {
                Some(ActionSafetyRefusalReason::LowConfidence)
            } else if !id.start_time_verified || !identity_lists(id, IDENTITY_SOURCE_START_TIME_VERIFIED@) {
                Some(ActionSafetyRefusalReason::UnverifiedIdentity)
            } else {
                None
            },
        }
    }
}

impl ActionDispatcher {
    pub fn new(cfg: &Config) -> (r: Result<Self, String>)
        ensures
            cfg.identity.min_action_confidence == IdentityConfidence::Low ==> (r matches Err(e) && e@
                == low_threshold_message()),
            cfg.identity.min_action_confidence != IdentityConfidence::Low ==> match r {
                Ok(d) => first_mapping_error(cfg.actions.qmp@) is None && built_from(d, *cfg),
                Err(e) => first_mapping_error(cfg.actions.qmp@) == Some(e@),
            },
    {
        if cfg.identity.min_action_confidence == IdentityConfidence::Low {
            return Err(owned("invalid identity.min_action_confidence: low confidence cannot authorize QMP actions"));
        }
        let ms = &cfg.actions.qmp;
        let mut qmp: Vec<CompiledQmpMapping> = Vec::new();
        let mut i: usize = 0;
        while i < ms.len()
            invariant
                i <= ms@.len(),
                ms@ == cfg.actions.qmp@,
                cfg.identity.min_action_confidence != IdentityConfidence::Low,
                qmp@.len() == i,
                first_mapping_error(ms@.take(i as int)) is None,
                forall|k: int|
                    0 <= k < i ==> compiled_pattern((#[trigger] qmp@[k]).vm_id, ms@[k].vm_id@)
                        && compiled_pattern(qmp@[k].vm, ms@[k].vm@) && qmp@[k].socket@ == ms@[k].socket@,
            decreases ms@.len() - i,
        {
            proof {
                assert(ms@.take(i as int + 1).drop_last() =~= ms@.take(i as int));
                assert(ms@.take(i as int + 1).last() == ms@[i as int]);
            }
            match compile_qmp_mapping(&ms[i]) {
                Ok(c) => {
                    qmp.push(c);
                },
                Err(e) => {
                    proof {
                        lemma_first_mapping_error_prefix(ms@, i as int + 1);
                    }
                    return Err(e);
                },
            }
            i = i + 1;
        }
        proof {
            assert(ms@.take(ms@.len() as int) =~= ms@);
        }
        Ok(
            ActionDispatcher {
                qmp,
                require_stable_qmp_match: cfg.identity.require_stable_qmp_match,
                min_action_confidence: cfg.identity.min_action_confidence,
                timeout_ms: cfg.actions.timeout_ms,
                retries: cfg.actions.retries,
                dump_root: cfg.actions.dump_root.clone(),
            },
        )
    }

    /// The socket of the unique stable-id mapping for `vm_id`, none when no
    /// mapping matches, a refusal when matches disagree.
    pub fn unique_vm_id_socket(&self, vm_id: &str, vm_name: &str) -> (r: Result<Option<&str>, ActionFailure>)
        ensures
            ({
                let ids = id_sockets(self.qmp@, vm_id@);
                if ids.len() == 0 {
                    r matches Ok(None)
                } else if sockets_disagree(ids) {
                    r matches Err(e) && refusal(e, multiple_id_message(vm_name@, vm_id@))
                } else {
                    r matches Ok(Some(s)) && s@ == ids[0]
                }
            }),
    {
        let mut selected: Option<&str> = None;
        let mut i: usize = 0;
        while i < self.qmp.len()
            invariant
                i <= self.qmp@.len(),
                ({
                    let ids = id_sockets(self.qmp@.take(i as int), vm_id@);
                    &&& selected is None <==> ids.len() == 0
                    &&& selected matches Some(s) ==> s@ == ids[0]
                    &&& !sockets_disagree(ids)
                }),
            decreases self.qmp@.len() - i,
        {
            let m = &self.qmp[i];
            proof {
                assert(self.qmp@.take(i as int + 1).drop_last() =~= self.qmp@.take(i as int));
                assert(self.qmp@.take(i as int + 1).last() == self.qmp@[i as int]);
            }
            let hit = match &m.vm_id {
                Some(p) => p.is_match(vm_id),
                None => false,
            };
            if hit {
                let socket = m.socket.as_str();
                match selected {
                    Some(existing) => {
                        if !str_eq(existing, socket) {
                            let mut msg = cat5("refused QMP action for vm '", vm_name, "': vm_id '", vm_id, "' matched multiple actions.qmp sockets; configure one UUID-authoritative mapping");
                            proof {
                                let pre = id_sockets(self.qmp@.take(i as int), vm_id@);
                                let cur = id_sockets(self.qmp@.take(i as int + 1), vm_id@);
                                assert(cur == pre.push(socket@));
                                assert(cur[cur.len() - 1] != cur[0]);
                                lemma_id_conflict_prefix(self.qmp@, vm_id@, i as int + 1);
                            }
                            return Err(ActionFailure::refused(msg));
                        }
                    },
                    None => {
                        selected = Some(socket);
                    },
                }
            }
            i = i + 1;
        }
        proof {
            assert(self.qmp@.take(self.qmp@.len() as int) =~= self.qmp@);
        }
        Ok(selected)
    }

    /// The socket picked by VM-name fallback.
    pub fn unique_vm_name_socket(&self, vm_id: Option<&str>, vm_name: &str) -> (r: Result<Option<&str>, ActionFailure>)
        ensures
            match name_pick(self.qmp@, opt_str(vm_id), vm_name@) {
                SocketPick::NoneFound => r matches Ok(None),
                SocketPick::Found(s) => r matches Ok(Some(x)) && x@ == s,
                SocketPick::DifferentId => r matches Err(e) && refusal(e, different_id_message(vm_name@)),
                SocketPick::Multiple => r matches Err(e) && refusal(e, multiple_name_message(vm_name@)),
            },
    {
        let mut selected: Option<&str> = None;
        let mut i: usize = 0;
        while i < self.qmp.len()
            invariant
                i <= self.qmp@.len(),
                match name_pick(self.qmp@.take(i as int), opt_str(vm_id), vm_name@) {
                    SocketPick::NoneFound => selected is None,
                    SocketPick::Found(s) => selected matches Some(x) && x@ == s,
                    _ => false,
                },
            decreases self.qmp@.len() - i,
        {
            let m = &self.qmp[i];
            proof {
                assert(self.qmp@.take(i as int + 1).drop_last() =~= self.qmp@.take(i as int));
                assert(self.qmp@.take(i as int + 1).last() == self.qmp@[i as int]);
            }
            let hit = match &m.vm {
                Some(p) => p.is_match(vm_name),
                None => false,
            };
            if hit {
                let stable_mismatch = match (vm_id, &m.vm_id) {
                    (Some(id), Some(sp)) => !sp.is_match(id),
                    _ => false,
                };
                if stable_mismatch {
                    let msg = cat3("refused QMP action for vm '", vm_name, "': VM-name fallback matched an actions.qmp entry for a different vm_id; configure a matching UUID-authoritative mapping");
                    proof {
                        lemma_name_pick_stuck(self.qmp@, opt_str(vm_id), vm_name@, i as int + 1);
                    }
                    return Err(ActionFailure::refused(msg));
                }
                let socket = m.socket.as_str();
                match selected {
                    Some(existing) => {
                        if !str_eq(existing, socket) {
                            let msg = cat3("refused QMP action for vm '", vm_name, "': VM-name fallback matched multiple actions.qmp sockets; add a stable vm_id mapping or narrow the name patterns");
                            proof {
                                lemma_name_pick_stuck(self.qmp@, opt_str(vm_id), vm_name@, i as int + 1);
                            }
                            return Err(ActionFailure::refused(msg));
                        }
                    },
                    None => {
                        selected = Some(socket);
                    },
                }
            }
            i = i + 1;
        }
        proof {
            assert(self.qmp@.take(self.qmp@.len() as int) =~= self.qmp@);
        }
        Ok(selected)
    }

    /// The QMP socket an action for the VM may use.
    pub fn qmp_socket_for(&self, vm_id: Option<&str>, vm_name: &str) -> (r: Result<&str, ActionFailure>)
        ensures
            socket_result(*self, vm_id, vm_name@, r),
    {
        match vm_id {
            Some(id) => {
                if str_starts_with(id, "ambiguous:") {
                    let mut msg = cat5("refused QMP action for vm '", vm_name, "': VM identity is ambiguous (", id, ")");
                    return Err(ActionFailure::refused(msg));
                }
                match self.unique_vm_id_socket(id, vm_name) {
                    Err(e) => {
                        return Err(e);
                    },
                    Ok(Some(s)) => {
                        return Ok(s);
                    },
                    Ok(None) => {},
                }
            },
            None => {},
        }
        if self.require_stable_qmp_match {
            let detail = match vm_id {
                Some(id) => cat5("identity.require_stable_qmp_match=true refused QMP VM-name fallback: no actions.qmp vm_id pattern matched vm_id '", id, "' for vm '", vm_name, "'"),
                None => cat3("identity.require_stable_qmp_match=true refused QMP VM-name fallback: event for vm '", vm_name, "' has no stable vm_id"),
            };
            return Err(ActionFailure::refused(detail));
        }
        match self.unique_vm_name_socket(vm_id, vm_name) {
            Err(e) => Err(e),
            Ok(Some(s)) => Ok(s),
            Ok(None) => {
                let shown = match vm_id {
                    Some(id) => id,
                    None => "none",
                };
                let detail = cat5("no QMP socket mapped for vm_id '", shown, "' vm '", vm_name, "'");
                Err(ActionFailure::error(detail))
            },
        }
    }

    /// Why the identity is not safe enough for a QMP action, if it is not.
    pub fn identity_safety_refusal(
        &self,
        vm_id: Option<&str>,
        kind: &str,
        identity: Option<&IdentityInfo>,
        identity_tags: &Vec<String>,
    ) -> (r: Option<ActionSafetyRefusalReason>)
        ensures
            r == safety_refusal(
                self.min_action_confidence,
                vm_id,
                kind@,
                match identity {
                    Some(i) => Some(*i),
                    None => None,
                },
                identity_tags@,
            ),
    {
        if !qmp_backed_action(kind) {
            return None;
        }
        let ambiguous_id = match vm_id {
            Some(id) => str_starts_with(id, "ambiguous:"),
            None => false,
        };
        if ambiguous_id {
            return None;
        }
        if has_identity_conflict_tag(identity_tags, "stale_cache") {
            return Some(ActionSafetyRefusalReason::StaleIdentity);
        }
        if has_any_identity_conflict_tag(identity_tags) {
            return Some(ActionSafetyRefusalReason::ConflictingIdentity);
        }
        let identity = match identity {
            Some(i) => i,
            None => {
                return Some(ActionSafetyRefusalReason::MissingIdentity);
            },
        };
        if identity.ambiguous || has_identity_source(identity, IDENTITY_SOURCE_AMBIGUOUS) {
            return Some(ActionSafetyRefusalReason::AmbiguousIdentity);
        }
        if is_pid_only_identity(identity) {
            return Some(ActionSafetyRefusalReason::PidOnlyIdentity);
        }
        if !identity.confidence.meets(self.min_action_confidence) {
            return Some(ActionSafetyRefusalReason::LowConfidence);
        }
        if !identity.start_time_verified || !has_identity_source(identity, IDENTITY_SOURCE_START_TIME_VERIFIED) {
            return Some(ActionSafetyRefusalReason::UnverifiedIdentity);
        }
        None
    }
}

proof fn lemma_first_mapping_error_prefix(s: Seq<QmpMapping>, i: int)
    requires
        0 <= i <= s.len(),
        first_mapping_error(s.take(i)) is Some,
    ensures
        first_mapping_error(s) == first_mapping_error(s.take(i)),
    decreases s.len() - i,
{
    if i < s.len() {
        assert(s.take(i + 1).drop_last() =~= s.take(i));
        lemma_first_mapping_error_prefix(s, i + 1);
    } else {
        assert(s.take(i) =~= s);
    }
}

proof fn lemma_id_sockets_prefix(s: Seq<CompiledQmpMapping>, id: Seq<char>, i: int, k: int)
    requires
        0 <= i <= s.len(),
        0 <= k < id_sockets(s.take(i), id).len(),
    ensures
        k < id_sockets(s, id).len(),
        id_sockets(s, id)[k] == id_sockets(s.take(i), id)[k],
    decreases s.len() - i,
{
    if i < s.len() {
        assert(s.take(i + 1).drop_last() =~= s.take(i));
        lemma_id_sockets_prefix(s, id, i + 1, k);
    } else {
        assert(s.take(i) =~= s);
    }
}

proof fn lemma_id_conflict_prefix(s: Seq<CompiledQmpMapping>, id: Seq<char>, i: int)
    requires
        0 <= i <= s.len(),
        id_sockets(s.take(i), id).len() > 0,
        sockets_disagree(id_sockets(s.take(i), id)),
    ensures
        sockets_disagree(id_sockets(s, id)),
{
    let k = choose|k: int| 0 <= k < id_sockets(s.take(i), id).len() && #[trigger] id_sockets(s.take(i), id)[k] != id_sockets(s.take(i), id)[0];
    lemma_id_sockets_prefix(s, id, i, k);
    lemma_id_sockets_prefix(s, id, i, 0);
    assert(id_sockets(s, id)[k] != id_sockets(s, id)[0]);
}

proof fn lemma_name_pick_stuck(s: Seq<CompiledQmpMapping>, id: Option<Seq<char>>, name: Seq<char>, i: int)
    requires
        0 <= i <= s.len(),
        name_pick(s.take(i), id, name) is DifferentId || name_pick(s.take(i), id, name) is Multiple,
    ensures
        name_pick(s, id, name) == name_pick(s.take(i), id, name),
    decreases s.len() - i,
{
    if i < s.len() {
        assert(s.take(i + 1).drop_last() =~= s.take(i));
        lemma_name_pick_stuck(s, id, name, i + 1);
    } else {
        assert(s.take(i) =~= s);
    }
}

} // verus!
