//! Kernel hook inventories: the registered ftrace operations and the
//! kprobes of the kprobe hash table, each callback checked against the
//! executable text ranges.
use vstd::prelude::*;
use crate::linux_vmi::{
    add_at, add_checked, contains_node, fault_fits, inconsistent, list_walk, offset_of, read_u32,
    read_u64, symbol_of, text_owner, text_owner_of, u32_at, u64_at, Fault, LinuxProfile,
    LinuxTextRange, LinuxVirtualMemoryReader, LinuxVmiError,
};
use crate::text::{cat3, hex, owned, push_str, u64_to_dec, u64_to_hex};
use crate::vmi::VmiErrorKind;

verus! {

#[derive(Debug, Clone, Copy, PartialEq, Eq)]
pub struct LinuxHookWalkLimits {
    pub max_ftrace_ops: usize,
    pub max_kprobes: usize,
    pub max_kprobe_buckets: usize,
}

impl Default for LinuxHookWalkLimits {
    fn default() -> (r: Self)
        ensures
            r.max_ftrace_ops == 4096,
            r.max_kprobes == 8192,
            r.max_kprobe_buckets == 4096,
    {
        LinuxHookWalkLimits { max_ftrace_ops: 4096, max_kprobes: 8192, max_kprobe_buckets: 4096 }
    }
}

#[derive(Debug, Clone, PartialEq, Eq)]
pub struct LinuxFtraceOp {
    pub address: u64,
    pub callback: u64,
    pub callback_owner: Option<String>,
    pub flags: Option<u32>,
}

pub struct LinuxFtraceOpView {
    pub address: u64,
    pub callback: u64,
    pub callback_owner: Option<Seq<char>>,
    pub flags: Option<u32>,
}

impl View for LinuxFtraceOp {
    type V = LinuxFtraceOpView;

    open spec fn view(&self) -> LinuxFtraceOpView {
        LinuxFtraceOpView {
            address: self.address,
            callback: self.callback,
            callback_owner: opt_text(self.callback_owner),
            flags: self.flags,
        }
    }
}

#[derive(Debug, Clone, PartialEq, Eq)]
pub struct LinuxFtraceReport {
    pub ok: bool,
    pub operations: Vec<LinuxFtraceOp>,
    pub findings: Vec<String>,
}

#[derive(Debug, Clone, PartialEq, Eq)]
pub struct LinuxKprobeHandler {
    pub kind: &'static str,
    pub address: u64,
    pub owner: Option<String>,
}

pub struct LinuxKprobeHandlerView {
    pub kind: Seq<char>,
    pub address: u64,
    pub owner: Option<Seq<char>>,
}

impl View for LinuxKprobeHandler {
    type V = LinuxKprobeHandlerView;

    open spec fn view(&self) -> LinuxKprobeHandlerView {
        LinuxKprobeHandlerView { kind: self.kind@, address: self.address, owner: opt_text(self.owner) }
    }
}

#[derive(Debug, Clone, PartialEq, Eq)]
pub struct LinuxKprobe {
    pub address: u64,
    pub target: u64,
    pub target_owner: Option<String>,
    pub handlers: Vec<LinuxKprobeHandler>,
}

pub struct LinuxKprobeView {
    pub address: u64,
    pub target: u64,
    pub target_owner: Option<Seq<char>>,
    pub handlers: Seq<LinuxKprobeHandlerView>,
}

impl View for LinuxKprobe {
    type V = LinuxKprobeView;

    open spec fn view(&self) -> LinuxKprobeView {
        LinuxKprobeView {
            address: self.address,
            target: self.target,
            target_owner: opt_text(self.target_owner),
            handlers: self.handlers@.map_values(|h: LinuxKprobeHandler| h@),
        }
    }
}

#[derive(Debug, Clone, PartialEq, Eq)]
pub struct LinuxKprobeReport {
    pub ok: bool,
    pub probes: Vec<LinuxKprobe>,
    pub findings: Vec<String>,
}

pub open spec fn opt_text(t: Option<String>) -> Option<Seq<char>> {
    match t {
        Some(x) => Some(x@),
        None => None,
    }
}

pub open spec fn texts(v: Seq<String>) -> Seq<Seq<char>> {
    v.map_values(|x: String| x@)
}

/// The sequences of `s` one after another.
pub open spec fn flat<T>(s: Seq<Seq<T>>) -> Seq<T>
    decreases s.len(),
{
    if s.len() == 0 {
        Seq::empty()
    } else {
        flat(s.drop_last()) + s.last()
    }
}

// ---------------------------------------------------------------------------
// ftrace
// ---------------------------------------------------------------------------

/// One ftrace operation and the finding it contributes.
pub struct FtraceStep {
    pub op: LinuxFtraceOpView,
    pub finding: Option<Seq<char>>,
}

/// The ftrace operation whose structure is at `address`: its callback and
/// the range that holds the callback; a callback outside every range is a
/// finding.
pub open spec fn ftrace_op_at(
    m: Map<int, u8>,
    ranges: Seq<LinuxTextRange>,
    func_off: u64,
    flags_off: Option<u64>,
    address: u64,
) -> Result<FtraceStep, Fault> {
    match add_at(address, func_off) {
        Err(f) => Err(f),
        Ok(fa) => match u64_at(m, fa) {
            None => Err(Fault::ReadFailed),
            Some(callback) => {
                let owner = text_owner(ranges, callback);
                let finding = if callback != 0 && owner is None {
                    Some(
                        "ftrace callback 0x"@ + hex(callback as nat) + " for ops 0x"@ + hex(address as nat)
                            + " is outside executable kernel/module ranges"@,
                    )
                } else {
                    None
                };
                let flags: Result<Option<u32>, Fault> = match flags_off {
                    None => Ok(None),
                    Some(o) => match add_at(address, o) {
                        Err(f) => Err(f),
                        Ok(a) => match u32_at(m, a) {
                            None => Err(Fault::ReadFailed),
                            Some(v) => Ok(Some(v)),
                        },
                    },
                };
                match flags {
                    Err(f) => Err(f),
                    Ok(fl) => Ok(
                        FtraceStep {
                            op: LinuxFtraceOpView { address, callback, callback_owner: owner, flags: fl },
                            finding,
                        },
                    ),
                }
            },
        },
    }
}

pub open spec fn ftrace_item(
    m: Map<int, u8>,
    ranges: Seq<LinuxTextRange>,
    func_off: u64,
    flags_off: Option<u64>,
) -> spec_fn(u64) -> Result<FtraceStep, Fault> {
    |a: u64| ftrace_op_at(m, ranges, func_off, flags_off, a)
}

/// The steps of the walk of `ftrace_ops_list`.
pub open spec fn ftrace_steps(
    p: LinuxProfile,
    m: Map<int, u8>,
    slide: u64,
    ranges: Seq<LinuxTextRange>,
    max: nat,
) -> Result<Seq<FtraceStep>, Fault> {
    if ranges.len() == 0 {
        Err(Fault::Of(VmiErrorKind::MissingProfile))
    } else {
        match symbol_of(p, "ftrace_ops_list"@) {
            None => Err(Fault::Of(VmiErrorKind::Unsupported)),
            Some(s) => if s.virtual_address + slide > u64::MAX {
                Err(Fault::Of(VmiErrorKind::InconsistentSnapshot))
            } else {
                let head = (s.virtual_address + slide) as u64;
                match (offset_of(p, "ftrace_ops"@, "list"@), offset_of(p, "ftrace_ops"@, "func"@)) {
                    (Some(off), Some(func_off)) => match u64_at(m, head) {
                        None => Err(Fault::ReadFailed),
                        Some(node) => list_walk(
                            m,
                            head,
                            off,
                            node,
                            max,
                            Seq::empty(),
                            Seq::empty(),
                            ftrace_item(m, ranges, func_off, offset_of(p, "ftrace_ops"@, "flags"@)),
                        ),
                    },
                    _ => Err(Fault::Of(VmiErrorKind::Unsupported)),
                }
            },
        }
    }
}

pub open spec fn somes<T>(s: Seq<Option<T>>) -> Seq<T>
    decreases s.len(),
{
    if s.len() == 0 {
        Seq::empty()
    } else {
        let rest = somes(s.drop_last());
        match s.last() {
            Some(x) => rest.push(x),
            None => rest,
        }
    }
}

fn unsupported(operation: &str, detail: String) -> (e: LinuxVmiError)
    ensures
        e.kind_of() == VmiErrorKind::Unsupported,
{
    LinuxVmiError::Unsupported { operation: owned(operation), detail }
}

/// A symbol plus the slide, for a hook walk.
fn hook_symbol(p: &LinuxProfile, name: &str, slide: u64, operation: &str) -> (r: Result<u64, LinuxVmiError>)
    ensures
        match r {
            Ok(a) => symbol_of(*p, name@) matches Some(s) && s.virtual_address + slide <= u64::MAX && a
                == s.virtual_address + slide,
            Err(e) => match symbol_of(*p, name@) {
                None => e.kind_of() == VmiErrorKind::Unsupported,
                Some(s) => s.virtual_address + slide > u64::MAX && e.kind_of()
                    == VmiErrorKind::InconsistentSnapshot,
            },
        },
{
    match p.symbol(name) {
        None => Err(unsupported(operation, cat3("profile is missing symbol:", name, ""))),
        Some(s) => {
            if s.virtual_address > u64::MAX - slide {
                Err(inconsistent(cat3("symbol '", name, "' plus KASLR slide overflows u64")))
            } else {
                Ok(s.virtual_address + slide)
            }
        },
    }
}

/// A structure offset that a hook walk needs.
fn hook_offset(p: &LinuxProfile, st: &str, field: &str, operation: &str) -> (r: Result<u64, LinuxVmiError>)
    ensures
        match r {
            Ok(o) => offset_of(*p, st@, field@) == Some(o),
            Err(e) => offset_of(*p, st@, field@) is None && e.kind_of() == VmiErrorKind::Unsupported,
        },
{
    match p.offset(st, field) {
        Some(o) => Ok(o),
        None => {
            let mut d = cat3("profile is missing offset ", st, ".");
            push_str(&mut d, field);
            Err(unsupported(operation, d))
        },
    }
}

fn missing_ranges() -> (e: LinuxVmiError)
    ensures
        e.kind_of() == VmiErrorKind::MissingProfile,
{
    LinuxVmiError::MissingProfileField { field: owned("executable text ranges") }
}

/// The findings a report is ok without.
pub open spec fn report_fits(
    ok: bool,
    findings: Seq<String>,
    want: Seq<Seq<char>>,
) -> bool {
    texts(findings) == want && ok == (want.len() == 0)
}

/// Walks the registered ftrace operations and checks each callback
/// against the executable text ranges.
pub fn inspect_linux_ftrace_ops<M: LinuxVirtualMemoryReader>(
    profile: &LinuxProfile,
    memory: &M,
    slide: u64,
    executable_ranges: &[LinuxTextRange],
    limits: LinuxHookWalkLimits,
) -> (r: Result<LinuxFtraceReport, LinuxVmiError>)
    ensures
        match r {
            Ok(rep) => ftrace_steps(*profile, memory.mapped(), slide, executable_ranges@, limits.max_ftrace_ops as nat)
                matches Ok(steps) && rep.operations@.map_values(|x: LinuxFtraceOp| x@) == steps.map_values(
                |s: FtraceStep| s.op,
            ) && report_fits(rep.ok, rep.findings@, somes(steps.map_values(|s: FtraceStep| s.finding))),
            Err(e) => ftrace_steps(*profile, memory.mapped(), slide, executable_ranges@, limits.max_ftrace_ops as nat)
                matches Err(f) && fault_fits(e, f),
        },
{
    let ghost m = memory.mapped();
    if executable_ranges.len() == 0 {
        return Err(missing_ranges());
    }
    let head = hook_symbol(profile, "ftrace_ops_list", slide, "inspect_ftrace_ops")?;
    let off = hook_offset(profile, "ftrace_ops", "list", "inspect_ftrace_ops")?;
    let func_off = hook_offset(profile, "ftrace_ops", "func", "inspect_ftrace_ops")?;
    let flags_off = profile.offset("ftrace_ops", "flags");
    let ghost item = ftrace_item(m, executable_ranges@, func_off, flags_off);
    let max = limits.max_ftrace_ops;
    let mut operations: Vec<LinuxFtraceOp> = Vec::new();
    let mut findings: Vec<String> = Vec::new();
    let mut visited: Vec<u64> = Vec::new();
    let ghost mut steps: Seq<FtraceStep> = Seq::empty();
    let mut node = read_u64(memory, head)?;
    proof {
        assert(operations@.map_values(|x: LinuxFtraceOp| x@) =~= steps.map_values(|s: FtraceStep| s.op));
        assert(steps.map_values(|s: FtraceStep| s.finding) =~= Seq::<Option<Seq<char>>>::empty());
        assert(texts(findings@) =~= Seq::<Seq<char>>::empty());
        assert(visited@ =~= Seq::<u64>::empty());
    }
    while node != head
        invariant
            m == memory.mapped(),
            item == ftrace_item(m, executable_ranges@, func_off, flags_off),
            max == limits.max_ftrace_ops,
            steps.len() == operations@.len(),
            operations@.len() <= max,
            operations@.map_values(|x: LinuxFtraceOp| x@) == steps.map_values(|s: FtraceStep| s.op),
            texts(findings@) == somes(steps.map_values(|s: FtraceStep| s.finding)),
            list_walk(m, head, off, node, max as nat, visited@, steps, item) == ftrace_steps(
                *profile,
                m,
                slide,
                executable_ranges@,
                max as nat,
            ),
        decreases max - operations@.len(),
    {
        if operations.len() >= max {
            let n = u64_to_dec(max as u64);
            return Err(inconsistent(cat3("ftrace_ops list exceeded configured limit ", n.as_str(), "")));
        }
        if contains_node(&visited, node) {
            let h = u64_to_hex(node);
            return Err(inconsistent(cat3("ftrace_ops list looped before returning to head at 0x", h.as_str(), "")));
        }
        if node < off {
            let h = u64_to_hex(node);
            let oh = u64_to_hex(off);
            let mut d = cat3("ftrace_ops node 0x", h.as_str(), " is smaller than list offset 0x");
            push_str(&mut d, oh.as_str());
            return Err(inconsistent(d));
        }
        let address = node - off;
        let fa = add_checked(address, func_off)?;
        let callback = read_u64(memory, fa)?;
        let owner = text_owner_of(callback, executable_ranges);
        let finding = if callback != 0 && owner.is_none() {
            let ch = u64_to_hex(callback);
            let ah = u64_to_hex(address);
            let mut f = cat3("ftrace callback 0x", ch.as_str(), " for ops 0x");
            push_str(&mut f, ah.as_str());
            push_str(&mut f, " is outside executable kernel/module ranges");
            Some(f)
        } else {
            None
        };
        let flags = match flags_off {
            None => None,
            Some(o) => {
                let a = add_checked(address, o)?;
                Some(read_u32(memory, a)?)
            },
        };
        let ghost step = FtraceStep {
            op: LinuxFtraceOpView { address, callback, callback_owner: opt_text(owner), flags },
            finding: opt_text(finding),
        };
        assert(ftrace_op_at(m, executable_ranges@, func_off, flags_off, address) == Ok::<FtraceStep, Fault>(step));
        let ghost old_o = operations@.map_values(|x: LinuxFtraceOp| x@);
        let ghost old_f = texts(findings@);
        operations.push(LinuxFtraceOp { address, callback, callback_owner: owner, flags });
        match finding {
            Some(x) => findings.push(x),
            None => {},
        }
        proof {
            let ns = steps.push(step);
            assert(ns.map_values(|s: FtraceStep| s.op) =~= steps.map_values(|s: FtraceStep| s.op).push(step.op));
            assert(ns.map_values(|s: FtraceStep| s.finding).drop_last() =~= steps.map_values(|s: FtraceStep| s.finding));
            assert(operations@.map_values(|x: LinuxFtraceOp| x@) =~= old_o.push(step.op));
            if step.finding is Some {
                assert(texts(findings@) =~= old_f.push(step.finding->0));
            } else {
                assert(texts(findings@) =~= old_f);
            }
            steps = ns;
        }
        visited.push(node);
        node = read_u64(memory, node)?;
    }
    let ok = findings.len() == 0;
    Ok(LinuxFtraceReport { ok, operations, findings })
}

// ---------------------------------------------------------------------------
// kprobes
// ---------------------------------------------------------------------------

/// The offsets of the `kprobe` fields that the walk reads.
pub struct KprobeOffsets {
    pub hlist: u64,
    pub target: u64,
    pub pre: u64,
    pub post: Option<u64>,
    pub fault: Option<u64>,
}

/// A handler slot of a probe: nothing when it is null; else the handler,
/// and a finding when no range holds it.
pub open spec fn handler_at(
    m: Map<int, u8>,
    ranges: Seq<LinuxTextRange>,
    probe: u64,
    off: u64,
    kind: Seq<char>,
) -> Result<(Option<LinuxKprobeHandlerView>, Option<Seq<char>>), Fault> {
    match add_at(probe, off) {
        Err(f) => Err(f),
        Ok(a) => match u64_at(m, a) {
            None => Err(Fault::ReadFailed),
            Some(address) => if address == 0 {
                Ok((None, None))
            } else {
                let owner = text_owner(ranges, address);
                Ok(
                    (
                        Some(LinuxKprobeHandlerView { kind, address, owner }),
                        if owner is None {
                            Some(
                                "kprobe "@ + kind + " 0x"@ + hex(address as nat) + " for probe 0x"@ + hex(
                                    probe as nat,
                                ) + " is outside executable kernel/module ranges"@,
                            )
                        } else {
                            None
                        },
                    ),
                )
            },
        },
    }
}

/// An optional handler slot.
pub open spec fn opt_handler_at(
    m: Map<int, u8>,
    ranges: Seq<LinuxTextRange>,
    probe: u64,
    off: Option<u64>,
    kind: Seq<char>,
) -> Result<(Option<LinuxKprobeHandlerView>, Option<Seq<char>>), Fault> {
    match off {
        None => Ok((None, None)),
        Some(o) => handler_at(m, ranges, probe, o, kind),
    }
}

/// One probe and the findings it contributes.
pub struct KprobeStep {
    pub probe: LinuxKprobeView,
    pub findings: Seq<Seq<char>>,
}

/// The probe whose structure is at `address`: its target, and its pre-,
/// post- and fault-handlers in that order.
#[verifier::opaque]
pub open spec fn kprobe_at(m: Map<int, u8>, ranges: Seq<LinuxTextRange>, o: KprobeOffsets, address: u64) -> Result<
    KprobeStep,
    Fault,
> {
    match add_at(address, o.target) {
        Err(f) => Err(f),
        Ok(ta) => match u64_at(m, ta) {
            None => Err(Fault::ReadFailed),
            Some(target) => {
                let owner = text_owner(ranges, target);
                let tf: Seq<Option<Seq<char>>> = if target != 0 && owner is None {
                    seq![
                        Some(
                            "kprobe target 0x"@ + hex(target as nat) + " at 0x"@ + hex(address as nat)
                                + " is outside executable kernel/module ranges"@,
                        ),
                    ]
                } else {
                    Seq::empty()
                };
                match handler_at(m, ranges, address, o.pre, "pre_handler"@) {
                    Err(f) => Err(f),
                    Ok(h1) => match opt_handler_at(m, ranges, address, o.post, "post_handler"@) {
                        Err(f) => Err(f),
                        Ok(h2) => match opt_handler_at(m, ranges, address, o.fault, "fault_handler"@) {
                            Err(f) => Err(f),
                            Ok(h3) => Ok(
                                KprobeStep {
                                    probe: LinuxKprobeView {
                                        address,
                                        target,
                                        target_owner: owner,
                                        handlers: somes(seq![h1.0, h2.0, h3.0]),
                                    },
                                    findings: somes(tf + seq![h1.1, h2.1, h3.1]),
                                },
                            ),
                        },
                    },
                }
            },
        },
    }
}

/// The probes of one hash chain from `node` until a null link, after the
/// probes `acc`; refuses more than `max` probes in all, a node seen before
/// (in any chain) and a node below the `hlist` offset.
pub open spec fn kprobe_chain(
    m: Map<int, u8>,
    ranges: Seq<LinuxTextRange>,
    o: KprobeOffsets,
    node: u64,
    max: nat,
    visited: Seq<u64>,
    acc: Seq<KprobeStep>,
) -> Result<(Seq<u64>, Seq<KprobeStep>), Fault>
    decreases max - acc.len(),
{
    if node == 0 {
        Ok((visited, acc))
    } else if acc.len() >= max {
        Err(Fault::Of(VmiErrorKind::InconsistentSnapshot))
    } else if visited.contains(node) {
        Err(Fault::Of(VmiErrorKind::InconsistentSnapshot))
    } else if node < o.hlist {
        Err(Fault::Of(VmiErrorKind::InconsistentSnapshot))
    } else {
        match kprobe_at(m, ranges, o, (node - o.hlist) as u64) {
            Err(f) => Err(f),
            Ok(st) => match u64_at(m, node) {
                None => Err(Fault::ReadFailed),
                Some(next) => kprobe_chain(m, ranges, o, next, max, visited.push(node), acc.push(st)),
            },
        }
    }
}

/// The probes of the hash buckets `b..buckets` of the table at `table`.
pub open spec fn kprobe_buckets(
    m: Map<int, u8>,
    ranges: Seq<LinuxTextRange>,
    o: KprobeOffsets,
    table: u64,
    b: nat,
    buckets: nat,
    max: nat,
    visited: Seq<u64>,
    acc: Seq<KprobeStep>,
) -> Result<Seq<KprobeStep>, Fault>
    decreases buckets - b,
{
    if b >= buckets {
        Ok(acc)
    } else if table + b * 8 > u64::MAX {
        Err(Fault::Of(VmiErrorKind::InconsistentSnapshot))
    } else {
        match u64_at(m, (table + b * 8) as u64) {
            None => Err(Fault::ReadFailed),
            Some(first) => match kprobe_chain(m, ranges, o, first, max, visited, acc) {
                Err(f) => Err(f),
                Ok((v2, a2)) => kprobe_buckets(m, ranges, o, table, b + 1, buckets, max, v2, a2),
            },
        }
    }
}

pub open spec fn kprobe_offsets(p: LinuxProfile) -> Option<KprobeOffsets> {
    match (
        offset_of(p, "kprobe"@, "hlist"@),
        offset_of(p, "kprobe"@, "addr"@),
        offset_of(p, "kprobe"@, "pre_handler"@),
    ) {
        (Some(h), Some(t), Some(pre)) => Some(
            KprobeOffsets {
                hlist: h,
                target: t,
                pre,
                post: offset_of(p, "kprobe"@, "post_handler"@),
                fault: offset_of(p, "kprobe"@, "fault_handler"@),
            },
        ),
        _ => None,
    }
}

/// The probes of the kprobe table's first `buckets` hash chains.
pub open spec fn kprobe_steps(
    p: LinuxProfile,
    m: Map<int, u8>,
    slide: u64,
    ranges: Seq<LinuxTextRange>,
    buckets: nat,
    limits: LinuxHookWalkLimits,
) -> Result<Seq<KprobeStep>, Fault> {
    if ranges.len() == 0 {
        Err(Fault::Of(VmiErrorKind::MissingProfile))
    } else if buckets == 0 || buckets > limits.max_kprobe_buckets {
        Err(Fault::Of(VmiErrorKind::Malformed))
    } else {
        match symbol_of(p, "kprobe_table"@) {
            None => Err(Fault::Of(VmiErrorKind::Unsupported)),
            Some(s) => if s.virtual_address + slide > u64::MAX {
                Err(Fault::Of(VmiErrorKind::InconsistentSnapshot))
            } else {
                match kprobe_offsets(p) {
                    None => Err(Fault::Of(VmiErrorKind::Unsupported)),
                    Some(o) => kprobe_buckets(
                        m,
                        ranges,
                        o,
                        (s.virtual_address + slide) as u64,
                        0,
                        buckets,
                        limits.max_kprobes as nat,
                        Seq::empty(),
                        Seq::empty(),
                    ),
                }
            },
        }
    }
}

pub open spec fn kprobe_findings(steps: Seq<KprobeStep>) -> Seq<Seq<char>> {
    flat(steps.map_values(|s: KprobeStep| s.findings))
}

struct ExecKprobeOffsets {
    hlist: u64,
    target: u64,
    pre: u64,
    post: Option<u64>,
    fault: Option<u64>,
}

spec fn kprobe_offsets_view(o: ExecKprobeOffsets) -> KprobeOffsets {
    KprobeOffsets { hlist: o.hlist, target: o.target, pre: o.pre, post: o.post, fault: o.fault }
}

/// Reads a handler slot.
fn read_handler<M: LinuxVirtualMemoryReader>(
    memory: &M,
    ranges: &[LinuxTextRange],
    probe: u64,
    off: u64,
    kind: &'static str,
) -> (r: Result<(Option<LinuxKprobeHandler>, Option<String>), LinuxVmiError>)
    ensures
        match r {
            Ok((h, f)) => handler_at(memory.mapped(), ranges@, probe, off, kind@) == Ok::<
                (Option<LinuxKprobeHandlerView>, Option<Seq<char>>),
                Fault,
            >((opt_handler_view(h), opt_text(f))),
            Err(e) => handler_at(memory.mapped(), ranges@, probe, off, kind@) matches Err(fl) && fault_fits(
                e,
                fl,
            ),
        },
{
    let a = add_checked(probe, off)?;
    let address = read_u64(memory, a)?;
    if address == 0 {
        return Ok((None, None));
    }
    let owner = text_owner_of(address, ranges);
    let finding = if owner.is_none() {
        let h = u64_to_hex(address);
        let ph = u64_to_hex(probe);
        let mut f = cat3("kprobe ", kind, " 0x");
        push_str(&mut f, h.as_str());
        push_str(&mut f, " for probe 0x");
        push_str(&mut f, ph.as_str());
        push_str(&mut f, " is outside executable kernel/module ranges");
        Some(f)
    } else {
        None
    };
    Ok((Some(LinuxKprobeHandler { kind, address, owner }), finding))
}

pub open spec fn opt_handler_view(h: Option<LinuxKprobeHandler>) -> Option<LinuxKprobeHandlerView> {
    match h {
        Some(x) => Some(x@),
        None => None,
    }
}

fn read_opt_handler<M: LinuxVirtualMemoryReader>(
    memory: &M,
    ranges: &[LinuxTextRange],
    probe: u64,
    off: Option<u64>,
    kind: &'static str,
) -> (r: Result<(Option<LinuxKprobeHandler>, Option<String>), LinuxVmiError>)
    ensures
        match r {
            Ok((h, f)) => opt_handler_at(memory.mapped(), ranges@, probe, off, kind@) == Ok::<
                (Option<LinuxKprobeHandlerView>, Option<Seq<char>>),
                Fault,
            >((opt_handler_view(h), opt_text(f))),
            Err(e) => opt_handler_at(memory.mapped(), ranges@, probe, off, kind@) matches Err(fl) && fault_fits(
                e,
                fl,
            ),
        },
{
    match off {
        None => Ok((None, None)),
        Some(o) => read_handler(memory, ranges, probe, o, kind),
    }
}

fn push_some_handler(handlers: &mut Vec<LinuxKprobeHandler>, h: Option<LinuxKprobeHandler>)
    ensures
        final(handlers)@.map_values(|x: LinuxKprobeHandler| x@) == old(handlers)@.map_values(
            |x: LinuxKprobeHandler| x@,
        ) + match h {
            Some(x) => seq![x@],
            None => Seq::empty(),
        },
{
    let ghost before = handlers@.map_values(|x: LinuxKprobeHandler| x@);
    match h {
        Some(x) => {
            handlers.push(x);
            assert(handlers@.map_values(|x: LinuxKprobeHandler| x@) =~= before + seq![x@]);
        },
        None => {
            assert(handlers@.map_values(|x: LinuxKprobeHandler| x@) =~= before + Seq::<LinuxKprobeHandlerView>::empty());
        },
    }
}

fn push_some_text(out: &mut Vec<String>, f: Option<String>)
    ensures
        texts(final(out)@) == texts(old(out)@) + match f {
            Some(x) => seq![x@],
            None => Seq::<Seq<char>>::empty(),
        },
{
    let ghost before = texts(out@);
    match f {
        Some(x) => {
            out.push(x);
            assert(texts(out@) =~= before + seq![x@]);
        },
        None => {
            assert(texts(out@) =~= before + Seq::<Seq<char>>::empty());
        },
    }
}

proof fn lemma_somes_three<T>(a: Option<T>, b: Option<T>, c: Option<T>)
    ensures
        somes(seq![a, b, c]) == (match a {
            Some(x) => seq![x],
            None => Seq::<T>::empty(),
        }) + (match b {
            Some(x) => seq![x],
            None => Seq::<T>::empty(),
        }) + (match c {
            Some(x) => seq![x],
            None => Seq::<T>::empty(),
        }),
{
    let s = seq![a, b, c];
    assert(s.drop_last() =~= seq![a, b]);
    assert(seq![a, b].drop_last() =~= seq![a]);
    assert(seq![a].drop_last() =~= Seq::<Option<T>>::empty());
    assert(somes(Seq::<Option<T>>::empty()) =~= Seq::<T>::empty());
    assert(somes(seq![a]) =~= (match a {
        Some(x) => seq![x],
        None => Seq::<T>::empty(),
    }));
    assert(somes(seq![a, b]) =~= (match a {
        Some(x) => seq![x],
        None => Seq::<T>::empty(),
    }) + (match b {
        Some(x) => seq![x],
        None => Seq::<T>::empty(),
    }));
    assert(somes(s) =~= (match a {
        Some(x) => seq![x],
        None => Seq::<T>::empty(),
    }) + (match b {
        Some(x) => seq![x],
        None => Seq::<T>::empty(),
    }) + (match c {
        Some(x) => seq![x],
        None => Seq::<T>::empty(),
    }));
}

proof fn lemma_somes_append<T>(s: Seq<Option<T>>, t: Seq<Option<T>>)
    ensures
        somes(s + t) == somes(s) + somes(t),
    decreases t.len(),
{
    if t.len() == 0 {
        assert(s + t =~= s);
        assert(somes(s) + somes(t) =~= somes(s));
    } else {
        assert((s + t).drop_last() =~= s + t.drop_last());
        lemma_somes_append(s, t.drop_last());
        match t.last() {
            Some(x) => {
                assert(somes(s) + somes(t) =~= (somes(s) + somes(t.drop_last())).push(x));
            },
            None => {},
        }
    }
}

/// Reads the probe at `address`.
fn read_kprobe<M: LinuxVirtualMemoryReader>(
    memory: &M,
    ranges: &[LinuxTextRange],
    o: &ExecKprobeOffsets,
    address: u64,
) -> (r: Result<(LinuxKprobe, Vec<String>), LinuxVmiError>)
    ensures
        match r {
            Ok((pr, fs)) => kprobe_at(memory.mapped(), ranges@, kprobe_offsets_view(*o), address) == Ok::<
                KprobeStep,
                Fault,
            >(KprobeStep { probe: pr@, findings: texts(fs@) }),
            Err(e) => kprobe_at(memory.mapped(), ranges@, kprobe_offsets_view(*o), address) matches Err(f)
                && fault_fits(e, f),
        },
{
    reveal(kprobe_at);
    let ta = add_checked(address, o.target)?;
    let target = read_u64(memory, ta)?;
    let target_owner = text_owner_of(target, ranges);
    let mut findings: Vec<String> = Vec::new();
    if target != 0 && target_owner.is_none() {
        let th = u64_to_hex(target);
        let ah = u64_to_hex(address);
        let mut f = cat3("kprobe target 0x", th.as_str(), " at 0x");
        push_str(&mut f, ah.as_str());
        push_str(&mut f, " is outside executable kernel/module ranges");
        findings.push(f);
    }
    let ghost tf = texts(findings@);
    let (h1, f1) = read_handler(memory, ranges, address, o.pre, "pre_handler")?;
    let (h2, f2) = read_opt_handler(memory, ranges, address, o.post, "post_handler")?;
    let (h3, f3) = read_opt_handler(memory, ranges, address, o.fault, "fault_handler")?;
    let ghost (v1, v2, v3) = (opt_handler_view(h1), opt_handler_view(h2), opt_handler_view(h3));
    let ghost (t1, t2, t3) = (opt_text(f1), opt_text(f2), opt_text(f3));
    let mut handlers: Vec<LinuxKprobeHandler> = Vec::new();
    push_some_handler(&mut handlers, h1);
    push_some_handler(&mut handlers, h2);
    push_some_handler(&mut handlers, h3);
    push_some_text(&mut findings, f1);
    push_some_text(&mut findings, f2);
    push_some_text(&mut findings, f3);
    proof {
        lemma_somes_three(v1, v2, v3);
        lemma_somes_three(t1, t2, t3);
        let tfo: Seq<Option<Seq<char>>> = if target != 0 && opt_text(target_owner) is None {
            seq![Some(tf[0])]
        } else {
            Seq::empty()
        };
        if target != 0 && opt_text(target_owner) is None {
            assert(tfo.drop_last() =~= Seq::<Option<Seq<char>>>::empty());
            assert(somes(Seq::<Option<Seq<char>>>::empty()) =~= Seq::<Seq<char>>::empty());
            assert(tf.len() == 1);
            assert(somes(tfo) =~= tf);
        } else {
            assert(tf =~= Seq::<Seq<char>>::empty());
            assert(somes(tfo) =~= tf);
        }
        lemma_somes_append(tfo, seq![t1, t2, t3]);
        assert(handlers@.map_values(|x: LinuxKprobeHandler| x@) =~= somes(seq![v1, v2, v3]));
        assert(texts(findings@) =~= somes(tfo + seq![t1, t2, t3]));
    }
    Ok((LinuxKprobe { address, target, target_owner, handlers }, findings))
}


fn append_texts(out: &mut Vec<String>, more: Vec<String>)
    ensures
        texts(final(out)@) == texts(old(out)@) + texts(more@),
{
    let ghost base = texts(out@);
    let mut i: usize = 0;
    let mut more = more;
    let ghost all = texts(more@);
    while i < more.len()
        invariant
            i <= more@.len(),
            all == texts(more@),
            texts(out@) == base + all.take(i as int),
        decreases more@.len() - i,
    {
        let x = more[i].clone();
        let ghost before = texts(out@);
        out.push(x);
        proof {
            assert(x@ == all[i as int]);
            assert(texts(out@) =~= before.push(x@));
            assert(all.take(i as int + 1) =~= all.take(i as int).push(all[i as int]));
        }
        i = i + 1;
    }
    assert(all.take(all.len() as int) =~= all);
}

fn bucket_count_error(buckets: usize, max: usize) -> (e: LinuxVmiError)
    ensures
        e.kind_of() == VmiErrorKind::Malformed,
{
    let b = u64_to_dec(buckets as u64);
    let mx = u64_to_dec(max as u64);
    let mut d = cat3("kprobe bucket count ", b.as_str(), " must be between 1 and ");
    push_str(&mut d, mx.as_str());
    LinuxVmiError::Malformed { detail: d }
}

/// Walks the first `buckets` hash chains of the kprobe table and checks
/// each probe's target and handlers against the executable text ranges.
#[verifier::rlimit(40)]
pub fn inspect_linux_kprobes<M: LinuxVirtualMemoryReader>(
    profile: &LinuxProfile,
    memory: &M,
    slide: u64,
    executable_ranges: &[LinuxTextRange],
    buckets: usize,
    limits: LinuxHookWalkLimits,
) -> (r: Result<LinuxKprobeReport, LinuxVmiError>)
    requires
        0 < buckets <= limits.max_kprobe_buckets ==> buckets <= 0x2000000000000000,
    ensures
        match r {
            Ok(rep) => kprobe_steps(*profile, memory.mapped(), slide, executable_ranges@, buckets as nat, limits)
                matches Ok(steps) && rep.probes@.map_values(|x: LinuxKprobe| x@) == steps.map_values(
                |s: KprobeStep| s.probe,
            ) && report_fits(rep.ok, rep.findings@, kprobe_findings(steps)),
            Err(e) => kprobe_steps(*profile, memory.mapped(), slide, executable_ranges@, buckets as nat, limits)
                matches Err(f) && fault_fits(e, f),
        },
{
    let ghost m = memory.mapped();
    let ghost ranges = executable_ranges@;
    if executable_ranges.len() == 0 {
        return Err(missing_ranges());
    }
    if buckets == 0 || buckets > limits.max_kprobe_buckets {
        return Err(bucket_count_error(buckets, limits.max_kprobe_buckets));
    }
    let table = hook_symbol(profile, "kprobe_table", slide, "inspect_kprobes")?;
    let hlist = hook_offset(profile, "kprobe", "hlist", "inspect_kprobes")?;
    let target = hook_offset(profile, "kprobe", "addr", "inspect_kprobes")?;
    let pre = hook_offset(profile, "kprobe", "pre_handler", "inspect_kprobes")?;
    let o = ExecKprobeOffsets {
        hlist,
        target,
        pre,
        post: profile.offset("kprobe", "post_handler"),
        fault: profile.offset("kprobe", "fault_handler"),
    };
    let ghost ov = kprobe_offsets_view(o);
    assert(kprobe_offsets(*profile) == Some(ov));
    let ghost want = kprobe_steps(*profile, m, slide, ranges, buckets as nat, limits);
    let max = limits.max_kprobes;
    let mut probes: Vec<LinuxKprobe> = Vec::new();
    let mut findings: Vec<String> = Vec::new();
    let mut visited: Vec<u64> = Vec::new();
    let ghost mut steps: Seq<KprobeStep> = Seq::empty();
    proof {
        assert(probes@.map_values(|x: LinuxKprobe| x@) =~= steps.map_values(|s: KprobeStep| s.probe));
        assert(steps.map_values(|s: KprobeStep| s.findings) =~= Seq::<Seq<Seq<char>>>::empty());
        assert(texts(findings@) =~= Seq::<Seq<char>>::empty());
        assert(visited@ =~= Seq::<u64>::empty());
    }
    let mut b: usize = 0;
    while b < buckets
        invariant
            m == memory.mapped(),
            ranges == executable_ranges@,
            ov == kprobe_offsets_view(o),
            max == limits.max_kprobes,
            b <= buckets,
            buckets <= 0x2000000000000000,
            steps.len() == probes@.len(),
            probes@.len() <= max,
            probes@.map_values(|x: LinuxKprobe| x@) == steps.map_values(|s: KprobeStep| s.probe),
            texts(findings@) == kprobe_findings(steps),
            want == kprobe_steps(*profile, m, slide, ranges, buckets as nat, limits),
            kprobe_buckets(m, ranges, ov, table, b as nat, buckets as nat, max as nat, visited@, steps) == want,
        decreases buckets - b,
    {
        let off = (b as u64) * 8;
        if table > u64::MAX - off {
            return Err(inconsistent(owned("kprobe table bucket address overflowed")));
        }
        let head = table + off;
        let first = read_u64(memory, head)?;
        let ghost vis0 = visited@;
        let ghost steps0 = steps;
        let mut node = first;
        while node != 0
            invariant
                m == memory.mapped(),
                ranges == executable_ranges@,
                ov == kprobe_offsets_view(o),
                max == limits.max_kprobes,
                steps.len() == probes@.len(),
                probes@.len() <= max,
                probes@.map_values(|x: LinuxKprobe| x@) == steps.map_values(|s: KprobeStep| s.probe),
                texts(findings@) == kprobe_findings(steps),
                want == kprobe_steps(*profile, m, slide, ranges, buckets as nat, limits),
                b < buckets,
                table + b * 8 <= u64::MAX,
                u64_at(m, (table + b * 8) as u64) == Some(first),
                kprobe_buckets(m, ranges, ov, table, b as nat, buckets as nat, max as nat, vis0, steps0) == want,
                kprobe_chain(m, ranges, ov, node, max as nat, visited@, steps) == kprobe_chain(
                    m,
                    ranges,
                    ov,
                    first,
                    max as nat,
                    vis0,
                    steps0,
                ),
            decreases max - probes@.len(),
        {
            if probes.len() >= max {
                let n = u64_to_dec(max as u64);
                return Err(inconsistent(cat3("kprobe table exceeded configured limit ", n.as_str(), "")));
            }
            if contains_node(&visited, node) {
                let h = u64_to_hex(node);
                return Err(inconsistent(cat3("kprobe hlist looped at node 0x", h.as_str(), "")));
            }
            if node < o.hlist {
                let h = u64_to_hex(node);
                let oh = u64_to_hex(o.hlist);
                let mut d = cat3("kprobe hlist node 0x", h.as_str(), " is smaller than hlist offset 0x");
                push_str(&mut d, oh.as_str());
                return Err(inconsistent(d));
            }
            let (pr, fs) = read_kprobe(memory, executable_ranges, &o, node - o.hlist)?;
            let ghost st = KprobeStep { probe: pr@, findings: texts(fs@) };
            let ghost old_p = probes@.map_values(|x: LinuxKprobe| x@);
            probes.push(pr);
            append_texts(&mut findings, fs);
            proof {
                let ns = steps.push(st);
                assert(ns.map_values(|s: KprobeStep| s.probe) =~= steps.map_values(|s: KprobeStep| s.probe).push(st.probe));
                assert(ns.map_values(|s: KprobeStep| s.findings).drop_last() =~= steps.map_values(|s: KprobeStep| s.findings));
                assert(probes@.map_values(|x: LinuxKprobe| x@) =~= old_p.push(st.probe));
                steps = ns;
            }
            visited.push(node);
            node = read_u64(memory, node)?;
        }
        b = b + 1;
    }
    let ok = findings.len() == 0;
    Ok(LinuxKprobeReport { ok, probes, findings })
}


} // verus!
