//! One attempt of an action: everything decided before a QMP command is
//! sent — the local actions, the socket choice, the dump path check and the
//! command itself.
use vstd::prelude::*;
use crate::actions::{socket_result, ActionDispatcher, ActionFailure, ActionFailureClass};
use crate::dispatch::{
    action_operation, dump_accepted_detail, local_operation_result, operation_of, qmp_request_for, qmp_request_is,
    ActionOperation, ActionOutcome, QmpRequest,
};
use crate::dump_path::{decide_dump_output_path, dump_refusal, lemma_refusal_message, refusal_message, DumpPathFacts};
use crate::identity::opt_text;
use crate::text::owned;

verus! {

/// What an attempt comes to before any QMP exchange.
#[derive(Debug)]
pub enum AttemptPlan {
    /// The attempt is over with this result.
    Finished(Result<ActionOutcome, ActionFailure>),
    /// Send `request` on `socket`; when QMP returns, the action succeeded
    /// with `success`.
    SendQmp { socket: String, request: QmpRequest, success: ActionOutcome },
}

/// An optional argument's text, empty when absent.
pub open spec fn arg_text(a: Option<&str>) -> Seq<char> {
    match a {
        Some(x) => x@,
        None => Seq::empty(),
    }
}

pub open spec fn vm_id_text(vm_id: Option<&str>) -> Option<Seq<char>> {
    match vm_id {
        Some(x) => Some(x@),
        None => None,
    }
}

/// The outcome of a QMP-backed operation once QMP has returned.
pub open spec fn qmp_success(op: ActionOperation, vm_id: Option<&str>, o: ActionOutcome) -> bool {
    &&& o.ok
    &&& opt_text(o.target_vm_id) == vm_id_text(vm_id)
    &&& if op == ActionOperation::DumpGuestMemory {
        o.status@ == "accepted"@ && opt_text(o.detail) == Some(dump_accepted_detail())
    } else {
        o.status@ == "completed"@ && o.detail is None
    }
}

/// What the plan is once the socket is known: a dump path is checked
/// first, then the command is built.
pub open spec fn plan_after_socket(
    d: ActionDispatcher,
    op: ActionOperation,
    vm_id: Option<&str>,
    socket: Seq<char>,
    output_path: Seq<char>,
    nic: Seq<char>,
    facts: DumpPathFacts,
    r: AttemptPlan,
) -> bool {
    if op == ActionOperation::DumpGuestMemory && dump_refusal(output_path, d.dump_root@, facts) is Some {
        r matches AttemptPlan::Finished(Err(e)) && e.class == ActionFailureClass::UnsafeInput && e.detail@
            == refusal_message(dump_refusal(output_path, d.dump_root@, facts)->Some_0)
    } else {
        exists|q: Result<QmpRequest, ActionFailure>|
            #[trigger] qmp_request_is(op, output_path, nic, q) && match q {
                Err(e) => r == AttemptPlan::Finished(Err(e)),
                Ok(req) => r matches AttemptPlan::SendQmp { socket: s, request, success } && s@ == socket
                    && request == req && qmp_success(op, vm_id, success),
            }
    }
}

impl ActionDispatcher {
    /// Decides one attempt of action `kind` for VM `vm`: manual approval,
    /// no-op and unknown kinds finish at once; a QMP-backed action needs a
    /// socket, a dump needs a safe output path (judged from `dump_facts`)
    /// and a NIC quarantine a NIC name, and then sends its command.
    pub fn prepare_attempt(
        &self,
        vm: &str,
        vm_id: Option<&str>,
        kind: &str,
        output_path: Option<&str>,
        nic: Option<&str>,
        dump_facts: &DumpPathFacts,
    ) -> (r: AttemptPlan)
        ensures
            ({
                let op = operation_of(kind@);
                &&& op == ActionOperation::ManualApproval ==> (r matches AttemptPlan::Finished(Ok(o)) && o.ok
                    && o.status@ == "accepted"@ && opt_text(o.detail) == Some(
                    "manual approval required; no QMP command executed"@,
                ) && opt_text(o.target_vm_id) == vm_id_text(vm_id))
                &&& op == ActionOperation::Noop ==> (r matches AttemptPlan::Finished(Ok(o)) && o.ok && o.status@
                    == "completed"@ && opt_text(o.target_vm_id) == vm_id_text(vm_id))
                &&& op == ActionOperation::Unsupported ==> (r matches AttemptPlan::Finished(Err(e)) && e.class
                    == ActionFailureClass::UnsupportedAction && e.detail@ == "unknown action kind: "@ + kind@)
                &&& (op == ActionOperation::PauseVm || op == ActionOperation::ResumeVm || op
                    == ActionOperation::DumpGuestMemory || op == ActionOperation::QuarantineNic) ==> exists|
                    s: Result<&str, ActionFailure>,
                | #[trigger] socket_result(*self, vm_id, vm@, s) && match s {
                    Err(e) => r == AttemptPlan::Finished(Err(e)),
                    Ok(sock) => plan_after_socket(
                        *self,
                        op,
                        vm_id,
                        sock@,
                        arg_text(output_path),
                        arg_text(nic),
                        *dump_facts,
                        r,
                    ),
                }
            }),
    {
        let op = action_operation(kind);
        match local_operation_result(op, kind, vm_id) {
            Some(res) => {
                return AttemptPlan::Finished(res);
            },
            None => {},
        }
        let s = self.qmp_socket_for(vm_id, vm);
        let ghost sg = s;
        let socket = match s {
            Err(e) => {
                return AttemptPlan::Finished(Err(e));
            },
            Ok(x) => owned(x),
        };
        let out: &str = match output_path {
            Some(p) => p,
            None => "",
        };
        let nic_name: &str = match nic {
            Some(n) => n,
            None => "",
        };
        proof {
            reveal_strlit("");
            assert(arg_text(output_path) == out@);
            assert(arg_text(nic) == nic_name@);
        }
        if op == ActionOperation::DumpGuestMemory {
            match decide_dump_output_path(out, self.dump_root.as_str(), dump_facts) {
                Err(e) => {
                    proof {
                        lemma_refusal_message(e);
                    }
                    let r = AttemptPlan::Finished(Err(ActionFailure::unsafe_input(e.message())));
                    assert(socket_result(*self, vm_id, vm@, sg));
                    return r;
                },
                Ok(()) => {},
            }
        }
        let q = qmp_request_for(op, out, nic_name);
        let ghost qg = q;
        let request = match q {
            Err(e) => {
                let r = AttemptPlan::Finished(Err(e));
                assert(qmp_request_is(op, out@, nic_name@, qg));
                assert(socket_result(*self, vm_id, vm@, sg));
                return r;
            },
            Ok(req) => req,
        };
        let success = if op == ActionOperation::DumpGuestMemory {
            ActionOutcome::accepted(
                Some(owned(
                    "QMP accepted dump-guest-memory; completion must be verified by QMP job/event tracking before using the file as evidence",
                )),
                copy_vm_id(vm_id),
            )
        } else {
            ActionOutcome::completed(copy_vm_id(vm_id))
        };
        let r = AttemptPlan::SendQmp { socket, request, success };
        assert(qmp_request_is(op, out@, nic_name@, qg));
        assert(socket_result(*self, vm_id, vm@, sg));
        r
    }
}

fn copy_vm_id(vm_id: Option<&str>) -> (r: Option<String>)
    ensures
        opt_text(r) == vm_id_text(vm_id),
{
    match vm_id {
        Some(x) => Some(owned(x)),
        None => None,
    }
}

} // verus!
