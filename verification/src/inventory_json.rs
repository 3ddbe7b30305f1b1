//! The VM inventory snapshot as JSON.
use vstd::prelude::*;
use crate::event::{identity_json, identity_json_spec};
use crate::identity::{
    VmInventoryConflict, VmInventoryHostTask, VmInventoryQmp, VmInventorySnapshot, VmInventoryVcpuMapping,
    VmInventoryVm,
};
use crate::text::{
    array_of, bool_text, bool_to_text, dec, dec_int, i64_to_dec, json_array, json_object, json_opt_u64,
    json_opt_u64_spec, json_quote, json_str, kv, kv_field, null_json, null_text, object_of, u64_to_dec, views,
};

verus! {

pub open spec fn host_task_json(t: VmInventoryHostTask) -> Seq<char> {
    json_object(seq![
        kv("kind"@, json_quote(t.kind@)),
        kv("id"@, dec_int(t.id as int)),
        kv("start_time_ticks"@, json_opt_u64_spec(t.start_time_ticks)),
    ])
}

pub open spec fn vcpu_mapping_json(m: VmInventoryVcpuMapping) -> Seq<char> {
    json_object(seq![
        kv("host_tid"@, dec_int(m.host_tid as int)),
        kv("vcpu_id"@, dec_int(m.vcpu_id as int)),
        kv("start_time_ticks"@, json_opt_u64_spec(m.start_time_ticks)),
    ])
}

pub open spec fn qmp_json(q: VmInventoryQmp) -> Seq<char> {
    json_object(seq![kv("present"@, bool_text(q.present)), kv("status"@, json_quote(q.status@))])
}

pub open spec fn conflict_json(c: Option<VmInventoryConflict>) -> Seq<char> {
    match c {
        Some(x) => json_object(seq![kv("reason"@, json_quote(x.reason@)), kv("ambiguous"@, bool_text(x.ambiguous))]),
        None => null_text(),
    }
}

pub open spec fn vm_json(vm: VmInventoryVm) -> Seq<char> {
    json_object(seq![
        kv("vm_id"@, json_quote(vm.vm_id@)),
        kv("vm_uuid"@, json_quote(vm.vm_uuid@)),
        kv("vm_name"@, json_quote(vm.vm_name@)),
        kv("source"@, json_quote(vm.source@)),
        kv("known_host_tasks"@, json_array(vm.known_host_tasks@.map_values(|t: VmInventoryHostTask| host_task_json(t)))),
        kv("vcpu_mappings"@, json_array(vm.vcpu_mappings@.map_values(|m: VmInventoryVcpuMapping| vcpu_mapping_json(m)))),
        kv("qmp"@, qmp_json(vm.qmp)),
        kv("identity"@, identity_json_spec(Some(vm.identity))),
        kv("ambiguous"@, bool_text(vm.ambiguous)),
        kv("conflict"@, conflict_json(vm.conflict)),
    ])
}

/// The JSON of an inventory snapshot.
pub open spec fn inventory_json(s: VmInventorySnapshot) -> Seq<char> {
    json_object(seq![
        kv("status"@, json_quote(s.status@)),
        kv("source"@, json_quote(s.source@)),
        kv("freshness"@, json_quote(s.freshness@)),
        kv("vm_count"@, dec(s.vm_count as nat)),
        kv("degraded"@, bool_text(s.degraded)),
        kv("vms"@, json_array(s.vms@.map_values(|v: VmInventoryVm| vm_json(v)))),
    ])
}

fn host_task_text(t: &VmInventoryHostTask) -> (r: String)
    ensures
        r@ == host_task_json(*t),
{
    let mut parts: Vec<String> = Vec::new();
    parts.push(kv_field("kind", json_str(t.kind.as_str()).as_str()));
    parts.push(kv_field("id", i64_to_dec(t.id as i64).as_str()));
    parts.push(kv_field("start_time_ticks", json_opt_u64(t.start_time_ticks).as_str()));
    assert(views(parts@) =~= seq![
        kv("kind"@, json_quote(t.kind@)),
        kv("id"@, dec_int(t.id as int)),
        kv("start_time_ticks"@, json_opt_u64_spec(t.start_time_ticks)),
    ]);
    object_of(&parts)
}

fn vcpu_mapping_text(m: &VmInventoryVcpuMapping) -> (r: String)
    ensures
        r@ == vcpu_mapping_json(*m),
{
    let mut parts: Vec<String> = Vec::new();
    parts.push(kv_field("host_tid", i64_to_dec(m.host_tid as i64).as_str()));
    parts.push(kv_field("vcpu_id", i64_to_dec(m.vcpu_id as i64).as_str()));
    parts.push(kv_field("start_time_ticks", json_opt_u64(m.start_time_ticks).as_str()));
    assert(views(parts@) =~= seq![
        kv("host_tid"@, dec_int(m.host_tid as int)),
        kv("vcpu_id"@, dec_int(m.vcpu_id as int)),
        kv("start_time_ticks"@, json_opt_u64_spec(m.start_time_ticks)),
    ]);
    object_of(&parts)
}

fn qmp_text(q: &VmInventoryQmp) -> (r: String)
    ensures
        r@ == qmp_json(*q),
{
    let mut parts: Vec<String> = Vec::new();
    parts.push(kv_field("present", bool_to_text(q.present).as_str()));
    parts.push(kv_field("status", json_str(q.status.as_str()).as_str()));
    assert(views(parts@) =~= seq![kv("present"@, bool_text(q.present)), kv("status"@, json_quote(q.status@))]);
    object_of(&parts)
}

fn conflict_text(c: &Option<VmInventoryConflict>) -> (r: String)
    ensures
        r@ == conflict_json(*c),
{
    match c {
        Some(x) => {
            let mut parts: Vec<String> = Vec::new();
            parts.push(kv_field("reason", json_str(x.reason.as_str()).as_str()));
            parts.push(kv_field("ambiguous", bool_to_text(x.ambiguous).as_str()));
            assert(views(parts@) =~= seq![kv("reason"@, json_quote(x.reason@)), kv("ambiguous"@, bool_text(x.ambiguous))]);
            object_of(&parts)
        },
        None => null_json(),
    }
}

fn host_tasks_text(v: &Vec<VmInventoryHostTask>) -> (r: String)
    ensures
        r@ == json_array(v@.map_values(|t: VmInventoryHostTask| host_task_json(t))),
{
    let mut parts: Vec<String> = Vec::new();
    let mut i: usize = 0;
    while i < v.len()
        invariant
            i <= v@.len(),
            views(parts@) == v@.take(i as int).map_values(|t: VmInventoryHostTask| host_task_json(t)),
        decreases v@.len() - i,
    {
        let ghost before = views(parts@);
        let t = host_task_text(&v[i]);
        parts.push(t);
        assert(views(parts@) =~= before.push(t@));
        assert(v@.take(i + 1).map_values(|t: VmInventoryHostTask| host_task_json(t)) =~= v@.take(i as int).map_values(
            |t: VmInventoryHostTask| host_task_json(t),
        ).push(host_task_json(v@[i as int])));
        i = i + 1;
    }
    assert(v@.take(i as int) =~= v@);
    array_of(&parts)
}

fn vcpu_mappings_text(v: &Vec<VmInventoryVcpuMapping>) -> (r: String)
    ensures
        r@ == json_array(v@.map_values(|m: VmInventoryVcpuMapping| vcpu_mapping_json(m))),
{
    let mut parts: Vec<String> = Vec::new();
    let mut i: usize = 0;
    while i < v.len()
        invariant
            i <= v@.len(),
            views(parts@) == v@.take(i as int).map_values(|m: VmInventoryVcpuMapping| vcpu_mapping_json(m)),
        decreases v@.len() - i,
    {
        let ghost before = views(parts@);
        let t = vcpu_mapping_text(&v[i]);
        parts.push(t);
        assert(views(parts@) =~= before.push(t@));
        assert(v@.take(i + 1).map_values(|m: VmInventoryVcpuMapping| vcpu_mapping_json(m)) =~= v@.take(i as int).map_values(
            |m: VmInventoryVcpuMapping| vcpu_mapping_json(m),
        ).push(vcpu_mapping_json(v@[i as int])));
        i = i + 1;
    }
    assert(v@.take(i as int) =~= v@);
    array_of(&parts)
}

fn copy_info(i: &crate::event::IdentityInfo) -> (r: crate::event::IdentityInfo)
    ensures
        r.sources@ == i.sources@,
        r.confidence == i.confidence,
        r.start_time_verified == i.start_time_verified,
        r.ambiguous == i.ambiguous,
{
    crate::event::IdentityInfo {
        sources: crate::resolver::clone_string_vec(&i.sources),
        confidence: i.confidence,
        start_time_verified: i.start_time_verified,
        ambiguous: i.ambiguous,
    }
}

fn vm_text(vm: &VmInventoryVm) -> (r: String)
    ensures
        r@ == vm_json(*vm),
{
    let mut parts: Vec<String> = Vec::new();
    parts.push(kv_field("vm_id", json_str(vm.vm_id.as_str()).as_str()));
    parts.push(kv_field("vm_uuid", json_str(vm.vm_uuid.as_str()).as_str()));
    parts.push(kv_field("vm_name", json_str(vm.vm_name.as_str()).as_str()));
    parts.push(kv_field("source", json_str(vm.source.as_str()).as_str()));
    parts.push(kv_field("known_host_tasks", host_tasks_text(&vm.known_host_tasks).as_str()));
    parts.push(kv_field("vcpu_mappings", vcpu_mappings_text(&vm.vcpu_mappings).as_str()));
    parts.push(kv_field("qmp", qmp_text(&vm.qmp).as_str()));
    let id = Some(copy_info(&vm.identity));
    let ij = identity_json(&id);
    assert(ij@ == identity_json_spec(Some(vm.identity)));
    parts.push(kv_field("identity", ij.as_str()));
    parts.push(kv_field("ambiguous", bool_to_text(vm.ambiguous).as_str()));
    parts.push(kv_field("conflict", conflict_text(&vm.conflict).as_str()));
    assert(views(parts@) =~= seq![
        kv("vm_id"@, json_quote(vm.vm_id@)),
        kv("vm_uuid"@, json_quote(vm.vm_uuid@)),
        kv("vm_name"@, json_quote(vm.vm_name@)),
        kv("source"@, json_quote(vm.source@)),
        kv("known_host_tasks"@, json_array(vm.known_host_tasks@.map_values(|t: VmInventoryHostTask| host_task_json(t)))),
        kv("vcpu_mappings"@, json_array(vm.vcpu_mappings@.map_values(|m: VmInventoryVcpuMapping| vcpu_mapping_json(m)))),
        kv("qmp"@, qmp_json(vm.qmp)),
        kv("identity"@, identity_json_spec(Some(vm.identity))),
        kv("ambiguous"@, bool_text(vm.ambiguous)),
        kv("conflict"@, conflict_json(vm.conflict)),
    ]);
    object_of(&parts)
}

impl VmInventorySnapshot {
    /// The snapshot as JSON.
    pub fn to_json(&self) -> (r: String)
        ensures
            r@ == inventory_json(*self),
    {
        let mut vms: Vec<String> = Vec::new();
        let mut i: usize = 0;
        while i < self.vms.len()
            invariant
                i <= self.vms@.len(),
                views(vms@) == self.vms@.take(i as int).map_values(|v: VmInventoryVm| vm_json(v)),
            decreases self.vms@.len() - i,
        {
            let ghost before = views(vms@);
            let t = vm_text(&self.vms[i]);
            vms.push(t);
            assert(views(vms@) =~= before.push(t@));
            assert(self.vms@.take(i + 1).map_values(|v: VmInventoryVm| vm_json(v)) =~= self.vms@.take(i as int).map_values(
                |v: VmInventoryVm| vm_json(v),
            ).push(vm_json(self.vms@[i as int])));
            i = i + 1;
        }
        assert(self.vms@.take(i as int) =~= self.vms@);
        let mut parts: Vec<String> = Vec::new();
        parts.push(kv_field("status", json_str(self.status.as_str()).as_str()));
        parts.push(kv_field("source", json_str(self.source.as_str()).as_str()));
        parts.push(kv_field("freshness", json_str(self.freshness.as_str()).as_str()));
        parts.push(kv_field("vm_count", u64_to_dec(self.vm_count as u64).as_str()));
        parts.push(kv_field("degraded", bool_to_text(self.degraded).as_str()));
        parts.push(kv_field("vms", array_of(&vms).as_str()));
        assert(views(parts@) =~= seq![
            kv("status"@, json_quote(self.status@)),
            kv("source"@, json_quote(self.source@)),
            kv("freshness"@, json_quote(self.freshness@)),
            kv("vm_count"@, dec(self.vm_count as nat)),
            kv("degraded"@, bool_text(self.degraded)),
            kv("vms"@, json_array(self.vms@.map_values(|v: VmInventoryVm| vm_json(v)))),
        ]);
        object_of(&parts)
    }
}

} // verus!
