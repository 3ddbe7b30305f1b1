//! Operator-facing records: pending approvals and decisions, audit log
//! lines, and the evidence kept for a guest memory dump.
use vstd::prelude::*;
use crate::text::{cat3, is_ascii_alnum, json_escape, json_quote, json_str, owned, push_str, to_chars, trim};

verus! {

// ---------------------------------------------------------------------------
// Approvals
// ---------------------------------------------------------------------------

#[derive(Debug, Clone, Copy, PartialEq, Eq, Structural)]
pub enum ApprovalDecision {
    Approved,
    Denied,
}

impl ApprovalDecision {
    pub open spec fn name(self) -> Seq<char> {
        match self {
            ApprovalDecision::Approved => "approved"@,
            ApprovalDecision::Denied => "denied"@,
        }
    }

    pub fn as_str(self) -> (r: &'static str)
        ensures
            r@ == self.name(),
    {
        match self {
            ApprovalDecision::Approved => "approved",
            ApprovalDecision::Denied => "denied",
        }
    }
}

#[derive(Debug, Clone, PartialEq, Eq)]
pub struct PendingAction {
    pub id: String,
    pub rule_id: String,
    pub action_kind: String,
    pub vm_id: String,
}

impl PendingAction {
    /// The pending record: one `key=value` line per field.
    pub fn to_record(&self) -> (r: String)
        ensures
            r@ == "id="@ + self.id@ + "\nrule_id="@ + self.rule_id@ + "\naction_kind="@ + self.action_kind@
                + "\nvm_id="@ + self.vm_id@ + "\n"@,
    {
        let mut out = cat3("id=", self.id.as_str(), "\nrule_id=");
        push_str(&mut out, self.rule_id.as_str());
        push_str(&mut out, "\naction_kind=");
        push_str(&mut out, self.action_kind.as_str());
        push_str(&mut out, "\nvm_id=");
        push_str(&mut out, self.vm_id.as_str());
        push_str(&mut out, "\n");
        out
    }

    /// The pending action as a JSON object.
    pub fn to_json(&self) -> (r: String)
        ensures
            r@ == "{\"id\":"@ + json_quote(self.id@) + ",\"rule_id\":"@ + json_quote(self.rule_id@)
                + ",\"action_kind\":"@ + json_quote(self.action_kind@) + ",\"vm_id\":"@ + json_quote(self.vm_id@)
                + "}"@,
    {
        let mut out = owned("{\"id\":");
        push_str(&mut out, json_str(self.id.as_str()).as_str());
        push_str(&mut out, ",\"rule_id\":");
        push_str(&mut out, json_str(self.rule_id.as_str()).as_str());
        push_str(&mut out, ",\"action_kind\":");
        push_str(&mut out, json_str(self.action_kind.as_str()).as_str());
        push_str(&mut out, ",\"vm_id\":");
        push_str(&mut out, json_str(self.vm_id.as_str()).as_str());
        push_str(&mut out, "}");
        out
    }
}

/// An approval id: letters, digits, `-` and `_`, not empty.
pub open spec fn approval_id_ok(id: Seq<char>) -> bool {
    id.len() > 0 && forall|i: int| 0 <= i < id.len() ==> is_ascii_alnum(#[trigger] id[i]) || id[i] == '-' || id[i] == '_'
}

/// Checks an approval id.
pub fn validate_id(id: &str) -> (r: Result<(), String>)
    ensures
        r is Ok == approval_id_ok(id@),
        r matches Err(e) ==> e@ == "approval id must use letters, digits, '-' or '_'"@,
{
    let v = to_chars(id);
    let mut ok = v.len() > 0;
    let mut i: usize = 0;
    while i < v.len()
        invariant
            v@ == id@,
            i <= v@.len(),
            ok == (v@.len() > 0 && forall|k: int| 0 <= k < i ==> is_ascii_alnum(#[trigger] v@[k]) || v@[k] == '-' || v@[k] == '_'),
        decreases v@.len() - i,
    {
        let c = v[i];
        if !(crate::text::char_is_ascii_alnum(c) || c == '-' || c == '_') {
            ok = false;
        }
        proof {
            if !ok && v@.len() > 0 && !(is_ascii_alnum(c) || c == '-' || c == '_') {
                assert(!(forall|k: int| 0 <= k < i + 1 ==> is_ascii_alnum(#[trigger] v@[k]) || v@[k] == '-' || v@[k] == '_'));
            }
        }
        i = i + 1;
    }
    if ok {
        Ok(())
    } else {
        Err(owned("approval id must use letters, digits, '-' or '_'"))
    }
}

/// The record of a decision on pending approval `id` by `actor`: the id
/// must be valid and the actor not blank.
pub fn decision_record(id: &str, decision: ApprovalDecision, actor: &str) -> (r: Result<String, String>)
    ensures
        !approval_id_ok(id@) ==> (r matches Err(e) && e@ == "approval id must use letters, digits, '-' or '_'"@),
        approval_id_ok(id@) && trim(actor@).len() == 0 ==> (r matches Err(e) && e@ == "approval actor must not be empty"@),
        approval_id_ok(id@) && trim(actor@).len() > 0 ==> (r matches Ok(t) && t@ == "decision="@ + decision.name()
            + "\nactor="@ + actor@ + "\n"@),
{
    validate_id(id)?;
    if crate::text::is_blank(actor) {
        return Err(owned("approval actor must not be empty"));
    }
    let mut out = cat3("decision=", decision.as_str(), "\nactor=");
    push_str(&mut out, actor);
    push_str(&mut out, "\n");
    Ok(out)
}

// ---------------------------------------------------------------------------
// Audit log
// ---------------------------------------------------------------------------

#[derive(Debug, Clone, PartialEq, Eq)]
pub struct AuditRecord {
    pub actor: String,
    pub action: String,
    pub decision: String,
    pub detail: String,
}

impl AuditRecord {
    /// The record as one JSON line.
    pub fn to_json_line(&self) -> (r: String)
        ensures
            r@ == "{\"actor\":"@ + json_quote(self.actor@) + ",\"action\":"@ + json_quote(self.action@)
                + ",\"decision\":"@ + json_quote(self.decision@) + ",\"detail\":"@ + json_quote(self.detail@) + "}\n"@,
    {
        let mut out = owned("{\"actor\":");
        push_str(&mut out, json_str(self.actor.as_str()).as_str());
        push_str(&mut out, ",\"action\":");
        push_str(&mut out, json_str(self.action.as_str()).as_str());
        push_str(&mut out, ",\"decision\":");
        push_str(&mut out, json_str(self.decision.as_str()).as_str());
        push_str(&mut out, ",\"detail\":");
        push_str(&mut out, json_str(self.detail.as_str()).as_str());
        push_str(&mut out, "}\n");
        out
    }
}

/// The audit detail of a denial.
pub fn audit_detail_for_denial(reason: &str) -> (r: String)
    ensures
        r@ == "denied: "@ + json_escape(reason@),
{
    let mut out = owned("denied: ");
    crate::text::push_json_escaped(&mut out, reason);
    out
}

/// An audit log's size limit must be positive.
pub fn check_audit_max_bytes(max_bytes: u64) -> (r: Result<(), String>)
    ensures
        r is Ok == (max_bytes > 0),
        r matches Err(e) ==> e@ == "audit log max_bytes must be greater than zero"@,
{
    if max_bytes == 0 {
        Err(owned("audit log max_bytes must be greater than zero"))
    } else {
        Ok(())
    }
}

/// A line of `line_len` bytes may be appended to a log of `current` bytes
/// limited to `max_bytes`.
pub fn audit_append_fits(current: u64, line_len: u64, max_bytes: u64) -> (r: bool)
    ensures
        r == ((if current + line_len > u64::MAX { u64::MAX as int } else { current + line_len }) <= max_bytes),
{
    current.saturating_add(line_len) <= max_bytes
}

// ---------------------------------------------------------------------------
// Dump evidence
// ---------------------------------------------------------------------------

#[derive(Debug, Clone, Copy, PartialEq, Eq, Structural)]
pub enum DumpEvidenceState {
    Accepted,
    Completed,
    Rejected,
}

#[derive(Debug, Clone, PartialEq, Eq)]
pub struct DumpEvidence {
    pub vm_id: String,
    pub path: String,
    pub state: DumpEvidenceState,
    pub qmp_accepted: bool,
    pub size_bytes: Option<u64>,
    pub digest: Option<String>,
}

impl DumpEvidence {
    /// The evidence of a dump that QMP accepted: nothing measured yet.
    pub fn accepted(vm_id: String, path: String) -> (r: Self)
        ensures
            r == (DumpEvidence { vm_id, path, state: DumpEvidenceState::Accepted, qmp_accepted: true, size_bytes: None, digest: None }),
    {
        DumpEvidence { vm_id, path, state: DumpEvidenceState::Accepted, qmp_accepted: true, size_bytes: None, digest: None }
    }

    /// Whether the dump at `path` may complete this evidence: it was
    /// accepted and the path is the accepted one.
    pub fn check_completion(&self, path: &str) -> (r: Result<(), String>)
        ensures
            self.state != DumpEvidenceState::Accepted ==> (r matches Err(e)
                && e@ == "dump evidence can only complete after QMP accepted the request"@),
            self.state == DumpEvidenceState::Accepted && self.path@ != path@ ==> (r matches Err(e)
                && e@ == "dump evidence completion path does not match accepted path"@),
            self.state == DumpEvidenceState::Accepted && self.path@ == path@ ==> r is Ok,
    {
        if self.state != DumpEvidenceState::Accepted {
            return Err(owned("dump evidence can only complete after QMP accepted the request"));
        }
        if !crate::text::str_eq(self.path.as_str(), path) {
            return Err(owned("dump evidence completion path does not match accepted path"));
        }
        Ok(())
    }

    /// The evidence completed with the dump's measured size and digest.
    pub fn complete(self, path: &str, size_bytes: u64, digest: String) -> (r: Result<Self, String>)
        ensures
            self.state != DumpEvidenceState::Accepted ==> r is Err,
            self.state == DumpEvidenceState::Accepted && self.path@ != path@ ==> r is Err,
            self.state == DumpEvidenceState::Accepted && self.path@ == path@ ==> r == Ok::<DumpEvidence, String>(
                DumpEvidence { state: DumpEvidenceState::Completed, size_bytes: Some(size_bytes), digest: Some(digest), ..self },
            ),
    {
        self.check_completion(path)?;
        Ok(DumpEvidence { state: DumpEvidenceState::Completed, size_bytes: Some(size_bytes), digest: Some(digest), ..self })
    }
}

} // verus!
