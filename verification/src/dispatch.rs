//! Running a policy action: the decisions around the QMP commands (which
//! command an action sends, whether to try again, what the audit event
//! records) and the checks on a dump output path that need no file system.
use vstd::prelude::*;
use crate::actions::{
    safety_refusal, ActionDispatcher, ActionFailure, ActionFailureClass, ActionSafetyRefusalReason,
};
use crate::event::{ActionInfo, Event, IdentityInfo, Severity};
use crate::identity::opt_text;
use crate::metrics::{count_of, wrap_add, ComponentStatus, Metrics};
use crate::metrics::IdentityQmpRefusalReason;
use crate::text::{
    dec, json_escape, owned, push_json_escaped, push_str, split_char, split_on, str_eq, to_chars,
    u64_to_dec, views,
};

verus! {

// ---------------------------------------------------------------------------
// Outcomes
// ---------------------------------------------------------------------------

/// What a successful action did.
#[derive(Debug, Clone, PartialEq, Eq)]
pub struct ActionOutcome {
    pub ok: bool,
    pub status: String,
    pub detail: Option<String>,
    pub target_vm_id: Option<String>,
}

impl ActionOutcome {
    /// The action was accepted; its effect is still to come.
    pub fn accepted(detail: Option<String>, target_vm_id: Option<String>) -> (r: Self)
        ensures
            r.ok,
            r.status@ == "accepted"@,
            r.detail == detail,
            r.target_vm_id == target_vm_id,
    {
        ActionOutcome { ok: true, status: owned("accepted"), detail, target_vm_id }
    }

    /// The action completed.
    pub fn completed(target_vm_id: Option<String>) -> (r: Self)
        ensures
            r.ok,
            r.status@ == "completed"@,
            r.detail is None,
            r.target_vm_id == target_vm_id,
    {
        ActionOutcome { ok: true, status: owned("completed"), detail: None, target_vm_id }
    }
}

/// An action's result with its attempts.
#[derive(Debug)]
pub struct ActionExecution {
    pub outcome: Result<ActionOutcome, ActionFailure>,
    pub attempts: u32,
    pub max_attempts: u32,
    pub retry_count: u32,
}

/// An optional text copied.
fn copy_opt(s: Option<&str>) -> (r: Option<String>)
    ensures
        opt_text(r) == match s {
            Some(x) => Some(x@),
            None => None::<Seq<char>>,
        },
{
    match s {
        Some(x) => Some(owned(x)),
        None => None,
    }
}

/// What an action that is not executed records.
pub fn dry_run_execution(vm_id: Option<&str>) -> (r: ActionExecution)
    ensures
        r.outcome matches Ok(o) && o.ok && o.status@ == "dry_run"@ && opt_text(o.detail) == Some(
            "action not executed"@,
        ) && opt_text(o.target_vm_id) == match vm_id {
            Some(x) => Some(x@),
            None => None::<Seq<char>>,
        },
        r.attempts == 0,
        r.max_attempts == 0,
        r.retry_count == 0,
{
    ActionExecution {
        outcome: Ok(
            ActionOutcome {
                ok: true,
                status: owned("dry_run"),
                detail: Some(owned("action not executed")),
                target_vm_id: copy_opt(vm_id),
            },
        ),
        attempts: 0,
        max_attempts: 0,
        retry_count: 0,
    }
}

/// How an action proceeds before any QMP command.
#[derive(Debug)]
pub enum ActionPlan {
    /// Nothing is executed; this is what is recorded.
    Recorded(ActionExecution),
    /// The action is to be executed.
    Execute,
}

impl ActionDispatcher {
    /// Decides how an action proceeds: recorded as a dry run when not
    /// executed, refused once when the identity is not safe for a
    /// QMP-backed action, executed otherwise.
    pub fn plan_action(
        &self,
        execute: bool,
        vm_id: Option<&str>,
        kind: &str,
        identity: Option<&IdentityInfo>,
        identity_tags: &Vec<String>,
    ) -> (r: ActionPlan)
        ensures
            !execute ==> (r matches ActionPlan::Recorded(x) && x.attempts == 0 && (x.outcome matches Ok(o)
                && o.status@ == "dry_run"@)),
            execute ==> ({
                let refusal = safety_refusal(
                    self.min_action_confidence,
                    vm_id,
                    kind@,
                    match identity {
                        Some(i) => Some(*i),
                        None => None,
                    },
                    identity_tags@,
                );
                match refusal {
                    Some(reason) => r matches ActionPlan::Recorded(x) && x.attempts == 1 && x.max_attempts == 1
                        && x.retry_count == 0 && (x.outcome matches Err(e) && e.class == ActionFailureClass::Refusal
                        && e.detail@ == reason.detail_text(kind@, self.min_action_confidence)),
                    None => r is Execute,
                }
            }),
    {
        if !execute {
            return ActionPlan::Recorded(dry_run_execution(vm_id));
        }
        match self.identity_safety_refusal(vm_id, kind, identity, identity_tags) {
            Some(reason) => ActionPlan::Recorded(
                ActionExecution {
                    outcome: Err(ActionFailure::refused(reason.detail(kind, self.min_action_confidence))),
                    attempts: 1,
                    max_attempts: 1,
                    retry_count: 0,
                },
            ),
            None => ActionPlan::Execute,
        }
    }
}

// ---------------------------------------------------------------------------
// Operations
// ---------------------------------------------------------------------------

/// What an action kind does.
#[derive(Debug, Clone, Copy, PartialEq, Eq, Structural)]
pub enum ActionOperation {
    PauseVm,
    ResumeVm,
    DumpGuestMemory,
    QuarantineNic,
    ManualApproval,
    Noop,
    Unsupported,
}

/// The operation an action kind names.
pub open spec fn operation_of(kind: Seq<char>) -> ActionOperation {
    if kind == "pause_vm"@ {
        ActionOperation::PauseVm
    } else if kind == "resume_vm"@ {
        ActionOperation::ResumeVm
    } else if kind == "dump_guest_memory"@ {
        ActionOperation::DumpGuestMemory
    } else if kind == "quarantine_nic"@ {
        ActionOperation::QuarantineNic
    } else if kind == "manual_approval"@ {
        ActionOperation::ManualApproval
    } else if kind == "noop"@ {
        ActionOperation::Noop
    } else {
        ActionOperation::Unsupported
    }
}

/// Each action kind names its own operation: two kinds with the same
/// supported operation are the same kind.
pub proof fn lemma_action_kinds_distinct(k1: Seq<char>, k2: Seq<char>)
    requires
        operation_of(k1) == operation_of(k2),
        operation_of(k1) != ActionOperation::Unsupported,
    ensures
        k1 == k2,
{
}

/// The supported action kinds and their operations.
pub proof fn lemma_action_kind_operations()
    ensures
        operation_of("pause_vm"@) == ActionOperation::PauseVm,
        operation_of("resume_vm"@) == ActionOperation::ResumeVm,
        operation_of("dump_guest_memory"@) == ActionOperation::DumpGuestMemory,
        operation_of("quarantine_nic"@) == ActionOperation::QuarantineNic,
        operation_of("manual_approval"@) == ActionOperation::ManualApproval,
        operation_of("noop"@) == ActionOperation::Noop,
{
    reveal_strlit("pause_vm");
    reveal_strlit("resume_vm");
    reveal_strlit("dump_guest_memory");
    reveal_strlit("quarantine_nic");
    reveal_strlit("manual_approval");
    reveal_strlit("noop");
    assert("resume_vm"@ != "pause_vm"@) by { assert("resume_vm"@.len() != "pause_vm"@.len()); }
    assert("dump_guest_memory"@ != "pause_vm"@) by { assert("dump_guest_memory"@.len() != "pause_vm"@.len()); }
    assert("dump_guest_memory"@ != "resume_vm"@) by { assert("dump_guest_memory"@.len() != "resume_vm"@.len()); }
    assert("quarantine_nic"@ != "pause_vm"@) by { assert("quarantine_nic"@.len() != "pause_vm"@.len()); }
    assert("quarantine_nic"@ != "resume_vm"@) by { assert("quarantine_nic"@.len() != "resume_vm"@.len()); }
    assert("quarantine_nic"@ != "dump_guest_memory"@) by { assert("quarantine_nic"@.len() != "dump_guest_memory"@.len()); }
    assert("manual_approval"@ != "pause_vm"@) by { assert("manual_approval"@.len() != "pause_vm"@.len()); }
    assert("manual_approval"@ != "resume_vm"@) by { assert("manual_approval"@.len() != "resume_vm"@.len()); }
    assert("manual_approval"@ != "dump_guest_memory"@) by { assert("manual_approval"@.len() != "dump_guest_memory"@.len()); }
    assert("manual_approval"@ != "quarantine_nic"@) by { assert("manual_approval"@.len() != "quarantine_nic"@.len()); }
    assert("noop"@ != "pause_vm"@) by { assert("noop"@.len() != "pause_vm"@.len()); }
    assert("noop"@ != "resume_vm"@) by { assert("noop"@.len() != "resume_vm"@.len()); }
    assert("noop"@ != "dump_guest_memory"@) by { assert("noop"@.len() != "dump_guest_memory"@.len()); }
    assert("noop"@ != "quarantine_nic"@) by { assert("noop"@.len() != "quarantine_nic"@.len()); }
    assert("noop"@ != "manual_approval"@) by { assert("noop"@.len() != "manual_approval"@.len()); }
}

/// The QMP command an action kind sends: `stop` exactly for `pause_vm`,
/// `cont` exactly for `resume_vm`, `dump-guest-memory` exactly for
/// `dump_guest_memory` and `set_link` exactly for `quarantine_nic`.
pub proof fn lemma_action_kind_command(k: Seq<char>, output_path: Seq<char>, nic: Seq<char>, q: QmpRequest)
    requires
        operation_of(k) == ActionOperation::PauseVm || operation_of(k) == ActionOperation::ResumeVm
            || operation_of(k) == ActionOperation::DumpGuestMemory || operation_of(k)
            == ActionOperation::QuarantineNic,
        qmp_request_is(operation_of(k), output_path, nic, Ok(q)),
    ensures
        q.command@ == "stop"@ <==> k == "pause_vm"@,
        q.command@ == "cont"@ <==> k == "resume_vm"@,
        q.command@ == "dump-guest-memory"@ <==> k == "dump_guest_memory"@,
        q.command@ == "set_link"@ <==> k == "quarantine_nic"@,
{
    reveal_strlit("stop");
    reveal_strlit("cont");
    reveal_strlit("dump-guest-memory");
    reveal_strlit("set_link");
    assert("cont"@ != "stop"@) by { assert("cont"@[0] != "stop"@[0]); }
    assert("dump-guest-memory"@ != "stop"@) by { assert("dump-guest-memory"@.len() != "stop"@.len()); }
    assert("dump-guest-memory"@ != "cont"@) by { assert("dump-guest-memory"@.len() != "cont"@.len()); }
    assert("set_link"@ != "stop"@) by { assert("set_link"@.len() != "stop"@.len()); }
    assert("set_link"@ != "cont"@) by { assert("set_link"@.len() != "cont"@.len()); }
    assert("set_link"@ != "dump-guest-memory"@) by { assert("set_link"@.len() != "dump-guest-memory"@.len()); }
    lemma_action_kind_operations();
}

/// The operation an action kind names.
pub fn action_operation(kind: &str) -> (r: ActionOperation)
    ensures
        r == operation_of(kind@),
{
    if str_eq(kind, "pause_vm") {
        ActionOperation::PauseVm
    } else if str_eq(kind, "resume_vm") {
        ActionOperation::ResumeVm
    } else if str_eq(kind, "dump_guest_memory") {
        ActionOperation::DumpGuestMemory
    } else if str_eq(kind, "quarantine_nic") {
        ActionOperation::QuarantineNic
    } else if str_eq(kind, "manual_approval") {
        ActionOperation::ManualApproval
    } else if str_eq(kind, "noop") {
        ActionOperation::Noop
    } else {
        ActionOperation::Unsupported
    }
}

/// The result of an operation that sends no QMP command, or `None` for one
/// that does.
pub fn local_operation_result(op: ActionOperation, kind: &str, vm_id: Option<&str>) -> (r: Option<
    Result<ActionOutcome, ActionFailure>,
>)
    ensures
        op == ActionOperation::ManualApproval ==> (r matches Some(Ok(o)) && o.status@ == "accepted"@
            && opt_text(o.detail) == Some("manual approval required; no QMP command executed"@)),
        op == ActionOperation::Noop ==> (r matches Some(Ok(o)) && o.status@ == "completed"@),
        op == ActionOperation::Unsupported ==> (r matches Some(Err(e)) && e.class
            == ActionFailureClass::UnsupportedAction && e.detail@ == "unknown action kind: "@ + kind@),
        r matches Some(Ok(o)) ==> o.ok && opt_text(o.target_vm_id) == match vm_id {
            Some(x) => Some(x@),
            None => None::<Seq<char>>,
        },
        (op == ActionOperation::PauseVm || op == ActionOperation::ResumeVm || op == ActionOperation::DumpGuestMemory
            || op == ActionOperation::QuarantineNic) <==> r is None,
{
    match op {
        ActionOperation::ManualApproval => Some(
            Ok(
                ActionOutcome::accepted(
                    Some(owned("manual approval required; no QMP command executed")),
                    copy_opt(vm_id),
                ),
            ),
        ),
        ActionOperation::Noop => Some(Ok(ActionOutcome::completed(copy_opt(vm_id)))),
        ActionOperation::Unsupported => {
            let mut d = owned("unknown action kind: ");
            push_str(&mut d, kind);
            Some(Err(ActionFailure::unsupported(d)))
        },
        _ => None,
    }
}

/// A QMP command and its JSON arguments.
#[derive(Debug, Clone, PartialEq, Eq)]
pub struct QmpRequest {
    pub command: String,
    pub arguments: Option<String>,
}

/// The detail of an accepted memory dump.
pub open spec fn dump_accepted_detail() -> Seq<char> {
    "QMP accepted dump-guest-memory; completion must be verified by QMP job/event tracking before using the file as evidence"@
}

/// The QMP request of an operation, or why there is none.
pub open spec fn qmp_request_is(
    op: ActionOperation,
    output_path: Seq<char>,
    nic: Seq<char>,
    r: Result<QmpRequest, ActionFailure>,
) -> bool {
    &&& (op == ActionOperation::PauseVm ==> (r matches Ok(q) && q.command@ == "stop"@ && q.arguments is None))
    &&& (op == ActionOperation::ResumeVm ==> (r matches Ok(q) && q.command@ == "cont"@ && q.arguments is None))
    &&& (op == ActionOperation::DumpGuestMemory ==> (r matches Ok(q) && q.command@ == "dump-guest-memory"@
            && opt_text(q.arguments) == Some(
            "{\"paging\":true,\"protocol\":\""@ + json_escape("file:"@ + output_path) + "\",\"detach\":true}"@,
        )))
    &&& (op == ActionOperation::QuarantineNic ==> (if crate::text::trim(nic).len() == 0 {
            r matches Err(e) && e.class == ActionFailureClass::MissingArgument && e.detail@
                == "quarantine_nic requires action.nic (QMP netdev name)"@
        } else {
            r matches Ok(q) && q.command@ == "set_link"@ && opt_text(q.arguments) == Some(
                "{\"name\":\""@ + json_escape(nic) + "\",\"up\":false}"@,
            )
        }))
}

/// The QMP request of an operation: `stop`, `cont`, a detached paging
/// `dump-guest-memory` to `file:<output>`, or `set_link` down for a NIC
/// (which must be named).
pub fn qmp_request_for(op: ActionOperation, output_path: &str, nic: &str) -> (r: Result<QmpRequest, ActionFailure>)
    requires
        op == ActionOperation::PauseVm || op == ActionOperation::ResumeVm || op == ActionOperation::DumpGuestMemory
            || op == ActionOperation::QuarantineNic,
    ensures
        qmp_request_is(op, output_path@, nic@, r),
{
    match op {
        ActionOperation::PauseVm => Ok(QmpRequest { command: owned("stop"), arguments: None }),
        ActionOperation::ResumeVm => Ok(QmpRequest { command: owned("cont"), arguments: None }),
        ActionOperation::DumpGuestMemory => {
            let mut protocol = owned("file:");
            push_str(&mut protocol, output_path);
            let mut args = owned("{\"paging\":true,\"protocol\":\"");
            push_json_escaped(&mut args, protocol.as_str());
            push_str(&mut args, "\",\"detach\":true}");
            Ok(QmpRequest { command: owned("dump-guest-memory"), arguments: Some(args) })
        },
        _ => {
            if crate::text::is_blank(nic) {
                return Err(ActionFailure::missing_argument(owned("quarantine_nic requires action.nic (QMP netdev name)")));
            }
            let mut args = owned("{\"name\":\"");
            push_json_escaped(&mut args, nic);
            push_str(&mut args, "\",\"up\":false}");
            Ok(QmpRequest { command: owned("set_link"), arguments: Some(args) })
        },
    }
}

// ---------------------------------------------------------------------------
// Retries
// ---------------------------------------------------------------------------

/// The attempts of one action so far.
#[derive(Debug, Clone, Copy, PartialEq, Eq, Structural)]
pub struct RetryTracker {
    pub retries: u32,
    pub attempts: u32,
}

/// What to do after an attempt.
#[derive(Debug)]
pub enum RetryStep {
    /// Wait this long, then try again.
    RetryAfterMs(u64),
    /// The action is over.
    Done(ActionExecution),
}

/// `a + b`, or `u32::MAX` when that overflows.
pub open spec fn sat_add_u32(a: int, b: int) -> int {
    if a + b > u32::MAX {
        u32::MAX as int
    } else {
        a + b
    }
}

impl RetryTracker {
    /// No attempt yet; `retries` more attempts are allowed after the first.
    pub fn new(retries: u32) -> (r: Self)
        ensures
            r.retries == retries,
            r.attempts == 0,
    {
        RetryTracker { retries, attempts: 0 }
    }

    /// Records the result of attempt number `self.attempts` (counting from
    /// zero): a success ends the action; a failure ends it unless it is a
    /// QMP error or timeout and attempts remain, in which case the next one
    /// waits `50 * (attempt + 1)` ms.
    pub fn record(&mut self, result: Result<ActionOutcome, ActionFailure>) -> (r: RetryStep)
        requires
            old(self).attempts <= old(self).retries,
        ensures
            final(self).retries == old(self).retries,
            final(self).attempts == sat_add_u32(old(self).attempts as int, 1),
            match result {
                Ok(o) => r matches RetryStep::Done(x) && x.outcome == Ok::<ActionOutcome, ActionFailure>(o),
                Err(e) => if (e.class == ActionFailureClass::QmpError || e.class == ActionFailureClass::Timeout)
                    && old(self).attempts < old(self).retries {
                    r matches RetryStep::RetryAfterMs(ms) && ms == 50 * (old(self).attempts + 1)
                } else {
                    r matches RetryStep::Done(x) && x.outcome == Err::<ActionOutcome, ActionFailure>(e)
                },
            },
            r matches RetryStep::Done(x) ==> x.attempts == final(self).attempts && x.max_attempts == sat_add_u32(
                old(self).retries as int,
                1,
            ) && x.retry_count == final(self).attempts - 1,
    {
        let attempt = self.attempts;
        self.attempts = self.attempts.saturating_add(1);
        let max_attempts = self.retries.saturating_add(1);
        match result {
            Ok(outcome) => RetryStep::Done(
                ActionExecution {
                    outcome: Ok(outcome),
                    attempts: self.attempts,
                    max_attempts,
                    retry_count: self.attempts - 1,
                },
            ),
            Err(err) => {
                if err.is_retryable() && attempt < self.retries {
                    RetryStep::RetryAfterMs(50 * (attempt as u64 + 1))
                } else {
                    RetryStep::Done(
                        ActionExecution {
                            outcome: Err(err),
                            attempts: self.attempts,
                            max_attempts,
                            retry_count: self.attempts - 1,
                        },
                    )
                }
            },
        }
    }
}

/// An action is tried at most `retries + 1` times: after the last allowed
/// attempt, recording its result always ends the action.
pub proof fn lemma_retries_are_bounded(t: RetryTracker, result: Result<ActionOutcome, ActionFailure>)
    requires
        t.attempts == t.retries,
    ensures
        !(result matches Err(e) && (e.class == ActionFailureClass::QmpError || e.class == ActionFailureClass::Timeout)
            && t.attempts < t.retries),
{
}

// ---------------------------------------------------------------------------
// The audit event of an action
// ---------------------------------------------------------------------------

/// The fields of an action's audit event: decision, status, detail,
/// target, failure class, timeout and refusal flags.
pub open spec fn action_result_fields(
    execute: bool,
    vm_id: Option<Seq<char>>,
    outcome: Result<ActionOutcome, ActionFailure>,
) -> (Seq<char>, bool, Seq<char>, Option<Seq<char>>, Option<Seq<char>>, Option<Seq<char>>, bool, bool) {
    let base_decision = if execute {
        "executed"@
    } else {
        "dry_run"@
    };
    match outcome {
        Ok(o) => (base_decision, o.ok, o.status@, opt_text(o.detail), opt_text(o.target_vm_id), None, false, false),
        Err(e) => {
            let status = e.status_name();
            (
                if status == "refused"@ {
                    "refused"@
                } else {
                    base_decision
                },
                false,
                status,
                Some(e.detail@),
                vm_id,
                Some(e.class_name()),
                e.class == ActionFailureClass::Timeout,
                e.class == ActionFailureClass::Refusal || e.class == ActionFailureClass::UnsafeInput || e.class
                    == ActionFailureClass::MissingArgument,
            )
        },
    }
}

/// The identity-safety refusal reason a failed action is counted under.
pub open spec fn refusal_reason_of(e: ActionFailure, vm_id: Option<Seq<char>>) -> Option<IdentityQmpRefusalReason> {
    if e.class != ActionFailureClass::Refusal {
        None
    } else if crate::actions::safety_metric_reason(e.detail@) is Some {
        crate::actions::safety_metric_reason(e.detail@)
    } else if vm_id matches Some(id) && crate::text::starts_with(id, "ambiguous:"@) {
        Some(IdentityQmpRefusalReason::AmbiguousIdentity)
    } else if crate::text::contains_seq(e.detail@, "matched multiple actions.qmp sockets"@)
        || crate::text::contains_seq(e.detail@, "different vm_id"@) {
        Some(IdentityQmpRefusalReason::ConflictingStableMapping)
    } else {
        Some(IdentityQmpRefusalReason::StableIdentityRequired)
    }
}

/// What counting one action does to the metrics `o`, giving `f`: the
/// action latency, the QMP latency when executed, a QMP failure by kind and
/// any identity-safety refusal when it failed, the action by kind and
/// result, and a degraded action status when it did not succeed; nothing
/// else changes.
pub open spec fn action_counted(
    o: Metrics,
    f: Metrics,
    kind: Seq<char>,
    execute: bool,
    latency_ms: u64,
    vm_id: Option<Seq<char>>,
    outcome: Result<ActionOutcome, ActionFailure>,
) -> bool {
    let ok = action_result_fields(execute, vm_id, outcome).1;
    &&& f == (Metrics {
        action_latency_sum_ms: f.action_latency_sum_ms,
        action_latency_count: f.action_latency_count,
        qmp_latency_sum_ms: f.qmp_latency_sum_ms,
        qmp_latency_count: f.qmp_latency_count,
        qmp_failures_total: f.qmp_failures_total,
        identity_qmp_safety_refusals_total: f.identity_qmp_safety_refusals_total,
        policy_actions_total: f.policy_actions_total,
        action_status: f.action_status,
        ..o
    })
    &&& f.action_latency_sum_ms == wrap_add(o.action_latency_sum_ms, latency_ms)
    &&& f.action_latency_count == wrap_add(o.action_latency_count, 1)
    &&& f.qmp_latency_sum_ms == (if execute { wrap_add(o.qmp_latency_sum_ms, latency_ms) } else { o.qmp_latency_sum_ms })
    &&& f.qmp_latency_count == (if execute { wrap_add(o.qmp_latency_count, 1) } else { o.qmp_latency_count })
    &&& forall|k: Seq<Seq<char>>| #[trigger] count_of(f.qmp_failures_total.entries@, k) == (if outcome is Err && k == seq![kind] {
        wrap_add(count_of(o.qmp_failures_total.entries@, k), 1)
    } else {
        count_of(o.qmp_failures_total.entries@, k)
    })
    &&& f.identity_qmp_safety_refusals_total@ == (match outcome {
        Err(e) => match refusal_reason_of(e, vm_id) {
            Some(r) => o.identity_qmp_safety_refusals_total@.update(
                r.spec_index() as int,
                wrap_add(o.identity_qmp_safety_refusals_total@[r.spec_index() as int], 1),
            ),
            None => o.identity_qmp_safety_refusals_total@,
        },
        Ok(_) => o.identity_qmp_safety_refusals_total@,
    })
    &&& forall|k: Seq<Seq<char>>| #[trigger] count_of(f.policy_actions_total.entries@, k) == (if k == seq![kind, crate::text::bool_text(ok)] {
        wrap_add(count_of(o.policy_actions_total.entries@, k), 1)
    } else {
        count_of(o.policy_actions_total.entries@, k)
    })
    &&& f.action_status == (if ok { o.action_status } else { ComponentStatus::Degraded })
}

/// Counts one action in the metrics (see `action_counted`).
pub fn count_action(
    metrics: &mut Metrics,
    kind: &str,
    execute: bool,
    latency_ms: u64,
    vm_id: Option<&str>,
    outcome: &Result<ActionOutcome, ActionFailure>,
)
    requires
        old(metrics).wf(),
    ensures
        final(metrics).wf(),
        action_counted(
            *old(metrics),
            *final(metrics),
            kind@,
            execute,
            latency_ms,
            match vm_id {
                Some(x) => Some(x@),
                None => None::<Seq<char>>,
            },
            *outcome,
        ),
{
    let ghost vid = match vm_id {
        Some(x) => Some(x@),
        None => None::<Seq<char>>,
    };
    metrics.observe_action_latency_ms(latency_ms);
    if execute {
        metrics.observe_qmp_latency_ms(latency_ms);
    }
    let ok = match outcome {
        Ok(v) => v.ok,
        Err(e) => {
            metrics.inc_qmp_failure(kind);
            let why = e.identity_qmp_refusal_reason(vm_id);
            assert(why == refusal_reason_of(*e, vid));
            if let Some(reason) = why {
                metrics.inc_identity_qmp_safety_refusal(reason);
            }
            false
        },
    };
    assert(ok == action_result_fields(execute, vid, *outcome).1);
    metrics.inc_policy_action(kind, ok);
}

impl ActionDispatcher {
    /// Completes the audit event of an action from its execution, and
    /// counts it: the latency, a QMP failure and any identity-safety
    /// refusal, and the action by kind and result. A failed action is of
    /// high severity.
    pub fn finish_action_event(
        &self,
        base: Event,
        metrics: &mut Metrics,
        rule_id: Option<&str>,
        vm_id: Option<&str>,
        kind: &str,
        execute: bool,
        execution: ActionExecution,
        latency_ms: u64,
    ) -> (ev: Event)
        requires
            old(metrics).wf(),
        ensures
            final(metrics).wf(),
            action_counted(
                *old(metrics),
                *final(metrics),
                kind@,
                execute,
                latency_ms,
                match vm_id {
                    Some(x) => Some(x@),
                    None => None::<Seq<char>>,
                },
                execution.outcome,
            ),
            ({
                let vid = match vm_id {
                    Some(x) => Some(x@),
                    None => None::<Seq<char>>,
                };
                let f = action_result_fields(execute, vid, execution.outcome);
                &&& ev == (Event {
                    vm_id: ev.vm_id,
                    reason: ev.reason,
                    rule_id: ev.rule_id,
                    decision: ev.decision,
                    action_id: ev.action_id,
                    action_status: ev.action_status,
                    action: ev.action,
                    severity: if f.1 {
                        base.severity
                    } else {
                        Severity::High
                    },
                    ..base
                })
                &&& opt_text(ev.vm_id) == vid
                &&& opt_text(ev.reason) == Some("policy_action"@)
                &&& opt_text(ev.rule_id) == match rule_id {
                    Some(x) => Some(x@),
                    None => None::<Seq<char>>,
                }
                &&& opt_text(ev.decision) == Some(f.0)
                &&& opt_text(ev.action_id) == Some("act-"@ + base.event_id@)
                &&& opt_text(ev.action_status) == Some(f.2)
                &&& ev.action matches Some(a) && {
                    &&& opt_text(a.rule) == opt_text(ev.rule_id)
                    &&& a.kind@ == kind@
                    &&& a.ok == f.1
                    &&& a.status@ == f.2
                    &&& a.decision@ == f.0
                    &&& a.result@ == f.2
                    &&& opt_text(a.detail) == f.3
                    &&& a.latency_ms == Some(latency_ms)
                    &&& opt_text(a.target_vm_id) == f.4
                    &&& a.attempt == execution.attempts
                    &&& a.max_attempts == execution.max_attempts
                    &&& a.retry_count == execution.retry_count
                    &&& a.timeout_ms == self.timeout_ms
                    &&& a.timed_out == f.6
                    &&& a.refused == f.7
                    &&& opt_text(a.failure_class) == f.5
                }
            }),
    {
        let mut ev = base;
        ev.vm_id = copy_opt(vm_id);
        ev.reason = Some(owned("policy_action"));
        ev.rule_id = copy_opt(rule_id);
        let mut decision = if execute {
            owned("executed")
        } else {
            owned("dry_run")
        };
        count_action(metrics, kind, execute, latency_ms, vm_id, &execution.outcome);
        let attempts = execution.attempts;
        let max_attempts = execution.max_attempts;
        let retry_count = execution.retry_count;
        let (ok, status, detail, target_vm_id, failure_class, timed_out, refused) = match execution.outcome {
            Ok(v) => (v.ok, v.status, v.detail, v.target_vm_id, None, false, false),
            Err(e) => {
                let status = owned(e.status());
                if str_eq(status.as_str(), "refused") {
                    decision = owned("refused");
                }
                let failure_class = Some(owned(e.failure_class()));
                let timed_out = e.is_timeout();
                let refused = e.is_refused();
                (false, status, Some(e.into_detail()), copy_opt(vm_id), failure_class, timed_out, refused)
            },
        };
        let mut action_id = owned("act-");
        push_str(&mut action_id, ev.event_id.as_str());
        ev.action_id = Some(action_id);
        ev.action_status = Some(status.clone());
        ev.decision = Some(decision.clone());
        ev.action = Some(
            ActionInfo {
                rule: copy_opt(rule_id),
                kind: owned(kind),
                ok,
                status: status.clone(),
                decision,
                result: status,
                detail,
                latency_ms: Some(latency_ms),
                target_vm_id,
                attempt: attempts,
                max_attempts,
                retry_count,
                timeout_ms: self.timeout_ms,
                timed_out,
                refused,
                failure_class,
            },
        );
        if !ok {
            ev.severity = Severity::High;
        }
        ev
    }

    /// The audit event of an action that a rule's cooldown suppressed.
    pub fn suppress_event(&self, base: Event, rule_id: &str, vm_id: Option<&str>, detail: &str) -> (ev: Event)
        ensures
            ev == (Event {
                vm_id: ev.vm_id,
                reason: ev.reason,
                rule_id: ev.rule_id,
                decision: ev.decision,
                message: ev.message,
                ..base
            }),
            opt_text(ev.vm_id) == match vm_id {
                Some(x) => Some(x@),
                None => None::<Seq<char>>,
            },
            opt_text(ev.reason) == Some("policy_suppressed"@),
            opt_text(ev.rule_id) == Some(rule_id@),
            opt_text(ev.decision) == Some("suppressed"@),
            opt_text(ev.message) == Some(detail@),
    {
        let mut ev = base;
        ev.vm_id = copy_opt(vm_id);
        ev.reason = Some(owned("policy_suppressed"));
        ev.rule_id = Some(owned(rule_id));
        ev.decision = Some(owned("suppressed"));
        ev.message = Some(owned(detail));
        ev
    }
}


// ---------------------------------------------------------------------------
// Dump output paths
// ---------------------------------------------------------------------------

/// Why a memory dump output path is refused.
#[derive(Debug, Clone, PartialEq, Eq)]
pub enum DumpPathError {
    MissingOutputPath,
    OutputNotAbsolute,
    OutputContainsParent,
    MissingParent(String),
    ParentNotDirectory(String),
    OutputFinalSymlink(String),
    OutputExists(String),
    DumpRootNotAbsolute(String),
    DumpRootContainsParent(String),
    DumpRootMissing(String),
    DumpRootNotDirectory(String),
    DumpRootSymlink(String),
    SymlinkAncestor { role: String, path: String },
    OutsideDumpRoot { parent: String, root: String },
    UnsafeMode { role: String, path: String },
    Stat { op: String, path: String, source: String },
}

impl DumpPathError {
    pub open spec fn message_spec(&self) -> Seq<char> {
        match self {
            DumpPathError::MissingOutputPath => "dump_guest_memory requires action.output_path"@,
            DumpPathError::OutputNotAbsolute => "dump_guest_memory output_path must be absolute"@,
            DumpPathError::OutputContainsParent => "dump_guest_memory output_path must not contain .. components"@,
            DumpPathError::MissingParent(p) => "dump output parent does not exist: "@ + p@,
            DumpPathError::ParentNotDirectory(p) => "dump output parent must be a directory: "@ + p@,
            DumpPathError::OutputFinalSymlink(p) => "dump output path must not be a symlink: "@ + p@,
            DumpPathError::OutputExists(p) => "dump output path already exists: "@ + p@,
            DumpPathError::DumpRootNotAbsolute(p) => "dump_root must be absolute: "@ + p@,
            DumpPathError::DumpRootContainsParent(p) => "dump_root must not contain .. components: "@ + p@,
            DumpPathError::DumpRootMissing(p) => "dump_root does not exist: "@ + p@,
            DumpPathError::DumpRootNotDirectory(p) => "dump_root must be a directory: "@ + p@,
            DumpPathError::DumpRootSymlink(p) => "dump_root must not be a symlink: "@ + p@,
            DumpPathError::SymlinkAncestor { role, path } => role@ + " must not have a symlink ancestor: "@ + path@,
            DumpPathError::OutsideDumpRoot { parent, root } => "dump output parent "@ + parent@
                + " must stay under dump_root "@ + root@,
            DumpPathError::UnsafeMode { role, path } => role@ + " must not be group/world-writable: "@ + path@,
            DumpPathError::Stat { op, path, source } => op@ + " "@ + path@ + ": "@ + source@,
        }
    }

    /// The error as text.
    pub fn message(&self) -> (r: String)
        ensures
            r@ == self.message_spec(),
    {
        match self {
            DumpPathError::MissingOutputPath => owned("dump_guest_memory requires action.output_path"),
            DumpPathError::OutputNotAbsolute => owned("dump_guest_memory output_path must be absolute"),
            DumpPathError::OutputContainsParent => owned("dump_guest_memory output_path must not contain .. components"),
            DumpPathError::MissingParent(p) => prefixed("dump output parent does not exist: ", p.as_str()),
            DumpPathError::ParentNotDirectory(p) => prefixed("dump output parent must be a directory: ", p.as_str()),
            DumpPathError::OutputFinalSymlink(p) => prefixed("dump output path must not be a symlink: ", p.as_str()),
            DumpPathError::OutputExists(p) => prefixed("dump output path already exists: ", p.as_str()),
            DumpPathError::DumpRootNotAbsolute(p) => prefixed("dump_root must be absolute: ", p.as_str()),
            DumpPathError::DumpRootContainsParent(p) => prefixed("dump_root must not contain .. components: ", p.as_str()),
            DumpPathError::DumpRootMissing(p) => prefixed("dump_root does not exist: ", p.as_str()),
            DumpPathError::DumpRootNotDirectory(p) => prefixed("dump_root must be a directory: ", p.as_str()),
            DumpPathError::DumpRootSymlink(p) => prefixed("dump_root must not be a symlink: ", p.as_str()),
            DumpPathError::SymlinkAncestor { role, path } => {
                let mut r = owned(role.as_str());
                push_str(&mut r, " must not have a symlink ancestor: ");
                push_str(&mut r, path.as_str());
                r
            },
            DumpPathError::OutsideDumpRoot { parent, root } => {
                let mut r = owned("dump output parent ");
                push_str(&mut r, parent.as_str());
                push_str(&mut r, " must stay under dump_root ");
                push_str(&mut r, root.as_str());
                r
            },
            DumpPathError::UnsafeMode { role, path } => {
                let mut r = owned(role.as_str());
                push_str(&mut r, " must not be group/world-writable: ");
                push_str(&mut r, path.as_str());
                r
            },
            DumpPathError::Stat { op, path, source } => {
                let mut r = owned(op.as_str());
                push_str(&mut r, " ");
                push_str(&mut r, path.as_str());
                push_str(&mut r, ": ");
                push_str(&mut r, source.as_str());
                r
            },
        }
    }
}

/// `head` followed by `tail`.
fn prefixed(head: &str, tail: &str) -> (r: String)
    ensures
        r@ == head@ + tail@,
{
    let mut r = owned(head);
    push_str(&mut r, tail);
    r
}

/// The path is absolute.
pub open spec fn is_absolute_path(p: Seq<char>) -> bool {
    p.len() > 0 && p[0] == '/'
}

/// The path has a `..` component.
pub open spec fn has_parent_component(p: Seq<char>) -> bool {
    split_char(p, '/').contains(".."@)
}

/// Whether the path has a `..` component.
pub fn path_has_parent_component(p: &str) -> (r: bool)
    ensures
        r == has_parent_component(p@),
{
    let parts = split_on(p, '/');
    let ghost sv = split_char(p@, '/');
    let mut i: usize = 0;
    while i < parts.len()
        invariant
            views(parts@) == sv,
            sv == split_char(p@, '/'),
            i <= parts@.len(),
            forall|k: int| 0 <= k < i ==> sv[k] != ".."@,
        decreases parts@.len() - i,
    {
        assert(sv[i as int] == parts@[i as int]@);
        if str_eq(parts[i].as_str(), "..") {
            assert(sv.contains(".."@));
            return true;
        }
        i = i + 1;
    }
    false
}

/// The checks on a dump output path and the dump root that need no file
/// system, in order: an output path is given, it is absolute, it has no
/// `..` component; the dump root is absolute and has no `..` component.
pub fn check_dump_path_names(out: &str, dump_root: &str) -> (r: Result<(), DumpPathError>)
    ensures
        out@.len() == 0 ==> r == Err::<(), DumpPathError>(DumpPathError::MissingOutputPath),
        out@.len() > 0 && !is_absolute_path(out@) ==> r == Err::<(), DumpPathError>(DumpPathError::OutputNotAbsolute),
        is_absolute_path(out@) && has_parent_component(out@) ==> r == Err::<(), DumpPathError>(
            DumpPathError::OutputContainsParent,
        ),
        is_absolute_path(out@) && !has_parent_component(out@) && !is_absolute_path(dump_root@) ==> (r matches Err(
            DumpPathError::DumpRootNotAbsolute(p),
        ) && p@ == dump_root@),
        is_absolute_path(out@) && !has_parent_component(out@) && is_absolute_path(dump_root@) && has_parent_component(
            dump_root@,
        ) ==> (r matches Err(DumpPathError::DumpRootContainsParent(p)) && p@ == dump_root@),
        r is Ok <==> (is_absolute_path(out@) && !has_parent_component(out@) && is_absolute_path(dump_root@)
            && !has_parent_component(dump_root@)),
{
    let ov = to_chars(out);
    if ov.len() == 0 {
        return Err(DumpPathError::MissingOutputPath);
    }
    if ov[0] != '/' {
        return Err(DumpPathError::OutputNotAbsolute);
    }
    if path_has_parent_component(out) {
        return Err(DumpPathError::OutputContainsParent);
    }
    let rv = to_chars(dump_root);
    if rv.len() == 0 || rv[0] != '/' {
        return Err(DumpPathError::DumpRootNotAbsolute(owned(dump_root)));
    }
    if path_has_parent_component(dump_root) {
        return Err(DumpPathError::DumpRootContainsParent(owned(dump_root)));
    }
    Ok(())
}

/// The normal components of an absolute path (empty and `.` segments
/// dropped).
pub open spec fn path_components(p: Seq<char>) -> Seq<Seq<char>> {
    split_char(p, '/').filter(|s: Seq<char>| s.len() > 0 && s != "."@)
}

/// `base`'s components are a prefix of `p`'s, as `Path::starts_with`
/// decides for absolute paths.
pub open spec fn path_under(p: Seq<char>, base: Seq<char>) -> bool {
    let a = path_components(p);
    let b = path_components(base);
    b.len() <= a.len() && a.take(b.len() as int) == b
}

/// The normal components of an absolute path.
fn components_exec(p: &str) -> (r: Vec<String>)
    ensures
        views(r@) == path_components(p@),
{
    let parts = split_on(p, '/');
    let ghost sv = split_char(p@, '/');
    let ghost keep = |s: Seq<char>| s.len() > 0 && s != "."@;
    let mut out: Vec<String> = Vec::new();
    let mut i: usize = 0;
    proof {
        reveal(Seq::filter);
        assert(sv.take(0).filter(keep) =~= Seq::<Seq<char>>::empty());
    }
    while i < parts.len()
        invariant
            views(parts@) == sv,
            sv == split_char(p@, '/'),
            keep == (|s: Seq<char>| s.len() > 0 && s != "."@),
            i <= parts@.len(),
            views(out@) == sv.take(i as int).filter(keep),
        decreases parts@.len() - i,
    {
        assert(sv[i as int] == parts@[i as int]@);
        let seg = parts[i].as_str();
        let keep_it = !crate::text::str_is_empty(seg) && !str_eq(seg, ".");
        proof {
            reveal(Seq::filter);
            assert(sv.take(i + 1).drop_last() =~= sv.take(i as int));
            assert(sv.take(i + 1).last() == sv[i as int]);
        }
        if keep_it {
            out.push(owned(seg));
            assert(views(out@) =~= sv.take(i as int).filter(keep).push(sv[i as int]));
        }
        i = i + 1;
    }
    assert(sv.take(i as int) =~= sv);
    out
}

/// Whether the absolute path `p` lies under the absolute path `base`,
/// component by component.
pub fn path_starts_with(p: &str, base: &str) -> (r: bool)
    ensures
        r == path_under(p@, base@),
{
    let a = components_exec(p);
    let b = components_exec(base);
    if b.len() > a.len() {
        return false;
    }
    let mut i: usize = 0;
    while i < b.len()
        invariant
            views(a@) == path_components(p@),
            views(b@) == path_components(base@),
            b@.len() <= a@.len(),
            i <= b@.len(),
            forall|k: int| 0 <= k < i ==> views(a@)[k] == views(b@)[k],
        decreases b@.len() - i,
    {
        if !str_eq(a[i].as_str(), b[i].as_str()) {
            assert(views(a@).take(b@.len() as int)[i as int] != views(b@)[i as int]);
            return false;
        }
        i = i + 1;
    }
    assert(views(a@).take(b@.len() as int) =~= views(b@));
    true
}

} // verus!
