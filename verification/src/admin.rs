//! Local administration: health, build information, what the policy
//! enables, and the checks on a policy test request.
use vstd::prelude::*;
use crate::config::{Config, Rule};
use crate::event::{category_from_str, category_parse, severity_from_str, severity_parse};
use crate::text::{bool_text, bool_to_text, dec, json_quote, json_str, owned, push_str, trim, u64_to_dec};

verus! {

/// The build of the sensor: version, target, revision.
#[derive(Debug, Clone, PartialEq, Eq)]
pub struct BuildInfo {
    pub version: &'static str,
    pub target_os: &'static str,
    pub target_arch: &'static str,
    pub git_rev: &'static str,
}

impl BuildInfo {
    /// The build information as a JSON object.
    pub fn to_json(&self) -> (r: String)
        ensures
            r@ == "{\"version\":"@ + json_quote(self.version@) + ",\"target_os\":"@ + json_quote(self.target_os@)
                + ",\"target_arch\":"@ + json_quote(self.target_arch@) + ",\"git_rev\":"@ + json_quote(
                self.git_rev@,
            ) + "}"@,
    {
        let mut out = owned("{\"version\":");
        push_str(&mut out, json_str(self.version).as_str());
        push_str(&mut out, ",\"target_os\":");
        push_str(&mut out, json_str(self.target_os).as_str());
        push_str(&mut out, ",\"target_arch\":");
        push_str(&mut out, json_str(self.target_arch).as_str());
        push_str(&mut out, ",\"git_rev\":");
        push_str(&mut out, json_str(self.git_rev).as_str());
        push_str(&mut out, "}");
        out
    }
}

/// The build information as a JSON object.
pub fn build_info_json(info: &BuildInfo) -> (r: String)
    ensures
        r@ == "{\"version\":"@ + json_quote(info.version@) + ",\"target_os\":"@ + json_quote(info.target_os@)
            + ",\"target_arch\":"@ + json_quote(info.target_arch@) + ",\"git_rev\":"@ + json_quote(info.git_rev@)
            + "}"@,
{
    info.to_json()
}

/// The health of the local command line tool.
#[derive(Debug, Clone, PartialEq, Eq)]
pub struct AdminHealth {
    pub status: &'static str,
    pub runtime: &'static str,
    pub version: &'static str,
}

impl AdminHealth {
    /// The command line tool is up, in the local scope.
    pub fn local(version: &'static str) -> (r: Self)
        ensures
            r.status@ == "ok"@,
            r.runtime@ == "local_cli"@,
            r.version == version,
    {
        AdminHealth { status: "ok", runtime: "local_cli", version }
    }

    /// The health as a JSON object.
    pub fn to_json(&self) -> (r: String)
        ensures
            r@ == "{\"status\":\""@ + self.status@ + "\",\"runtime\":\""@ + self.runtime@ + "\",\"version\":\""@
                + self.version@ + "\"}"@,
    {
        let mut out = owned("{\"status\":\"");
        push_str(&mut out, self.status);
        push_str(&mut out, "\",\"runtime\":\"");
        push_str(&mut out, self.runtime);
        push_str(&mut out, "\",\"version\":\"");
        push_str(&mut out, self.version);
        push_str(&mut out, "\"}");
        out
    }
}

/// What the policy of a configuration enables.
#[derive(Debug, Clone, PartialEq, Eq)]
pub struct PolicyExplain {
    pub version: u32,
    pub enabled_rules: usize,
    pub qmp_mappings: usize,
    pub stable_qmp_required: bool,
}

/// The number of enabled rules in `rules`.
pub open spec fn enabled_count(rules: Seq<Rule>) -> nat
    decreases rules.len(),
{
    if rules.len() == 0 {
        0
    } else {
        enabled_count(rules.drop_last()) + if rules.last().enabled {
            1nat
        } else {
            0nat
        }
    }
}

impl PolicyExplain {
    /// What `cfg` enables.
    pub fn from_config(cfg: &Config) -> (r: Self)
        ensures
            r.version == cfg.version,
            r.enabled_rules == enabled_count(cfg.policy.rules@),
            r.qmp_mappings == cfg.actions.qmp@.len(),
            r.stable_qmp_required == cfg.identity.require_stable_qmp_match,
    {
        let rules = &cfg.policy.rules;
        let mut count: usize = 0;
        let mut i: usize = 0;
        while i < rules.len()
            invariant
                i <= rules@.len(),
                count == enabled_count(rules@.take(i as int)),
                count <= i,
            decreases rules@.len() - i,
        {
            assert(rules@.take(i + 1).drop_last() =~= rules@.take(i as int));
            if rules[i].enabled {
                count = count + 1;
            }
            i = i + 1;
        }
        assert(rules@.take(i as int) =~= rules@);
        PolicyExplain {
            version: cfg.version,
            enabled_rules: count,
            qmp_mappings: cfg.actions.qmp.len(),
            stable_qmp_required: cfg.identity.require_stable_qmp_match,
        }
    }

    /// What the policy enables, as a JSON object.
    pub fn to_json(&self) -> (r: String)
        ensures
            r@ == "{\"version\":"@ + dec(self.version as nat) + ",\"enabled_rules\":"@ + dec(
                self.enabled_rules as nat,
            ) + ",\"qmp_mappings\":"@ + dec(self.qmp_mappings as nat) + ",\"stable_qmp_required\":"@ + bool_text(
                self.stable_qmp_required,
            ) + "}"@,
    {
        let mut out = owned("{\"version\":");
        push_str(&mut out, u64_to_dec(self.version as u64).as_str());
        push_str(&mut out, ",\"enabled_rules\":");
        push_str(&mut out, u64_to_dec(self.enabled_rules as u64).as_str());
        push_str(&mut out, ",\"qmp_mappings\":");
        push_str(&mut out, u64_to_dec(self.qmp_mappings as u64).as_str());
        push_str(&mut out, ",\"stable_qmp_required\":");
        push_str(&mut out, bool_to_text(self.stable_qmp_required).as_str());
        push_str(&mut out, "}");
        out
    }
}

/// A request to test the policy against an event.
#[derive(Debug, Clone, PartialEq, Eq)]
pub struct PolicyTestInput {
    pub category: String,
    pub severity: String,
    pub reason: String,
    pub vm: String,
}

/// Checks a policy test request: a known category, a known severity, and
/// a VM name.
pub fn validate_policy_test_input(input: &PolicyTestInput) -> (r: Result<(), String>)
    ensures
        category_parse(input.category@) is None ==> (r matches Err(e) && e@ == "unknown category '"@
            + input.category@ + "'"@),
        category_parse(input.category@) is Some && severity_parse(input.severity@) is None ==> (r matches Err(e)
            && e@ == "unknown severity '"@ + input.severity@ + "'"@),
        category_parse(input.category@) is Some && severity_parse(input.severity@) is Some && trim(input.vm@).len()
            == 0 ==> (r matches Err(e) && e@ == "policy test requires a VM name"@),
        r is Ok <==> (category_parse(input.category@) is Some && severity_parse(input.severity@) is Some && trim(
            input.vm@,
        ).len() > 0),
{
    if category_from_str(input.category.as_str()).is_none() {
        let mut e = owned("unknown category '");
        push_str(&mut e, input.category.as_str());
        push_str(&mut e, "'");
        return Err(e);
    }
    if severity_from_str(input.severity.as_str()).is_none() {
        let mut e = owned("unknown severity '");
        push_str(&mut e, input.severity.as_str());
        push_str(&mut e, "'");
        return Err(e);
    }
    if crate::text::is_blank(input.vm.as_str()) {
        return Err(owned("policy test requires a VM name"));
    }
    Ok(())
}

} // verus!
