//! The guest's loaded BPF programs, from the kernel's `bpf_prog_list`,
//! with the text ranges of their JIT images.
use vstd::prelude::*;
use crate::linux_vmi::{
    add_at, add_checked, c_string_at, fault_fits, inconsistent, list_walk, offset_of, read_c_string,
    read_u32, read_u64, symbol_of, u32_at, u64_at, Fault, LinuxProfile, LinuxTextRange,
    LinuxVirtualMemoryReader, LinuxVmiError, range_view,
};
use crate::text::{cat3, dec, hex, owned, push_str, u64_to_dec, u64_to_hex};
use crate::vmi::VmiErrorKind;

verus! {

#[derive(Debug, Clone, Copy, PartialEq, Eq)]
pub struct LinuxBpfWalkLimits {
    pub max_programs: usize,
}

impl Default for LinuxBpfWalkLimits {
    fn default() -> (r: Self)
        ensures
            r.max_programs == 4096,
    {
        LinuxBpfWalkLimits { max_programs: 4096 }
    }
}

#[derive(Debug, Clone, PartialEq, Eq)]
pub struct LinuxBpfProgram {
    pub address: u64,
    pub id: Option<u32>,
    pub name: Option<String>,
    pub program_type: Option<u32>,
    pub jit_start: Option<u64>,
    pub jit_end: Option<u64>,
}

pub struct LinuxBpfProgramView {
    pub address: u64,
    pub id: Option<u32>,
    pub name: Option<Seq<char>>,
    pub program_type: Option<u32>,
    pub jit_start: Option<u64>,
    pub jit_end: Option<u64>,
}

impl View for LinuxBpfProgram {
    type V = LinuxBpfProgramView;

    open spec fn view(&self) -> LinuxBpfProgramView {
        LinuxBpfProgramView {
            address: self.address,
            id: self.id,
            name: match self.name {
                Some(n) => Some(n@),
                None => None,
            },
            program_type: self.program_type,
            jit_start: self.jit_start,
            jit_end: self.jit_end,
        }
    }
}

#[derive(Debug, Clone, PartialEq, Eq)]
pub struct LinuxBpfInventory {
    pub programs: Vec<LinuxBpfProgram>,
    pub jit_ranges: Vec<LinuxTextRange>,
    pub findings: Vec<String>,
}

/// The offsets of the `bpf_prog` and `bpf_prog_aux` fields that the walk
/// reads when the profile has them.
pub struct BpfOffsets {
    pub aux: Option<u64>,
    pub prog_type: Option<u64>,
    pub bpf_func: Option<u64>,
    pub jited_len: Option<u64>,
    pub aux_id: Option<u64>,
    pub aux_name: Option<u64>,
}

pub open spec fn bpf_offsets(p: LinuxProfile) -> BpfOffsets {
    BpfOffsets {
        aux: offset_of(p, "bpf_prog"@, "aux"@),
        prog_type: offset_of(p, "bpf_prog"@, "type"@),
        bpf_func: offset_of(p, "bpf_prog"@, "bpf_func"@),
        jited_len: offset_of(p, "bpf_prog"@, "jited_len"@),
        aux_id: offset_of(p, "bpf_prog_aux"@, "id"@),
        aux_name: offset_of(p, "bpf_prog_aux"@, "name"@),
    }
}

/// The `u64` at `base + off` when the field exists.
pub open spec fn opt_u64(m: Map<int, u8>, base: u64, off: Option<u64>) -> Result<Option<u64>, Fault> {
    match off {
        None => Ok(None),
        Some(o) => match add_at(base, o) {
            Err(f) => Err(f),
            Ok(a) => match u64_at(m, a) {
                None => Err(Fault::ReadFailed),
                Some(v) => Ok(Some(v)),
            },
        },
    }
}

/// The `u32` at `base + off` when the field exists.
pub open spec fn opt_u32(m: Map<int, u8>, base: u64, off: Option<u64>) -> Result<Option<u32>, Fault> {
    match off {
        None => Ok(None),
        Some(o) => match add_at(base, o) {
            Err(f) => Err(f),
            Ok(a) => match u32_at(m, a) {
                None => Err(Fault::ReadFailed),
                Some(v) => Ok(Some(v)),
            },
        },
    }
}

pub open spec fn nonzero_u64(v: Option<u64>) -> Option<u64> {
    match v {
        Some(x) => if x != 0 {
            Some(x)
        } else {
            None
        },
        None => None,
    }
}

pub open spec fn nonzero_u32(v: Option<u32>) -> Option<u32> {
    match v {
        Some(x) => if x != 0 {
            Some(x)
        } else {
            None
        },
        None => None,
    }
}

/// The text that names a program's JIT range.
pub open spec fn bpf_owner(id: Option<u32>, name: Option<Seq<char>>, address: u64) -> Seq<char> {
    match (id, name) {
        (Some(i), Some(n)) => "bpf:"@ + dec(i as nat) + ":"@ + n,
        (Some(i), None) => "bpf:"@ + dec(i as nat),
        (None, Some(n)) => "bpf:"@ + n,
        (None, None) => "bpf:0x"@ + hex(address as nat),
    }
}

/// One program of the list: the program, the JIT range it contributes,
/// and the finding it contributes.
pub struct BpfStep {
    pub program: LinuxBpfProgramView,
    pub range: Option<(Seq<char>, int, int)>,
    pub finding: Option<Seq<char>>,
}

/// The program whose `bpf_prog` structure is at `address`.
pub open spec fn bpf_program_at(m: Map<int, u8>, o: BpfOffsets, address: u64) -> Result<BpfStep, Fault> {
    match opt_u64(m, address, o.aux) {
        Err(f) => Err(f),
        Ok(aux_raw) => {
            let aux = nonzero_u64(aux_raw);
            let id_r: Result<Option<u32>, Fault> = match (aux, o.aux_id) {
                (Some(a), Some(io)) => opt_u32(m, a, Some(io)),
                _ => Ok(None),
            };
            match id_r {
                Err(f) => Err(f),
                Ok(id) => {
                    let name_r: Result<Option<Seq<char>>, Fault> = match (aux, o.aux_name) {
                        (Some(a), Some(no)) => match add_at(a, no) {
                            Err(f) => Err(f),
                            Ok(na) => match c_string_at(m, na, 16) {
                                Err(f) => Err(f),
                                Ok(v) => Ok(
                                    if v.len() == 0 {
                                        None
                                    } else {
                                        Some(v)
                                    },
                                ),
                            },
                        },
                        _ => Ok(None),
                    };
                    match name_r {
                        Err(f) => Err(f),
                        Ok(name) => match opt_u32(m, address, o.prog_type) {
                            Err(f) => Err(f),
                            Ok(program_type) => match opt_u64(m, address, o.bpf_func) {
                                Err(f) => Err(f),
                                Ok(func) => match opt_u32(m, address, o.jited_len) {
                                    Err(f) => Err(f),
                                    Ok(jlen) => bpf_jit_step(address, id, name, program_type, nonzero_u64(func), nonzero_u32(jlen)),
                                },
                            },
                        },
                    }
                },
            }
        },
    }
}

/// The JIT end, range and finding of a program.
pub open spec fn bpf_jit_step(
    address: u64,
    id: Option<u32>,
    name: Option<Seq<char>>,
    program_type: Option<u32>,
    jit_start: Option<u64>,
    jited_len: Option<u32>,
) -> Result<BpfStep, Fault> {
    let prog = |end: Option<u64>|
        LinuxBpfProgramView { address, id, name, program_type, jit_start, jit_end: end };
    match (jit_start, jited_len) {
        (Some(s), Some(l)) => if s + l > u64::MAX {
            Err(Fault::Of(VmiErrorKind::InconsistentSnapshot))
        } else {
            Ok(
                BpfStep {
                    program: prog(Some((s + l) as u64)),
                    range: Some((bpf_owner(id, name, address), s as int, s + l)),
                    finding: None,
                },
            )
        },
        (Some(_), None) => Ok(
            BpfStep {
                program: prog(None),
                range: None,
                finding: Some(
                    "BPF program 0x"@ + hex(address as nat)
                        + " has a JIT entry point but no bounded JIT length"@,
                ),
            },
        ),
        (None, Some(_)) => Ok(
            BpfStep {
                program: prog(None),
                range: None,
                finding: Some("BPF program 0x"@ + hex(address as nat) + " has a JIT length but no JIT entry point"@),
            },
        ),
        (None, None) => Ok(BpfStep { program: prog(None), range: None, finding: None }),
    }
}

pub open spec fn bpf_item(m: Map<int, u8>, o: BpfOffsets) -> spec_fn(u64) -> Result<BpfStep, Fault> {
    |a: u64| bpf_program_at(m, o, a)
}

/// The values present in `s`, in order.
pub open spec fn somes<T>(s: Seq<Option<T>>) -> Seq<T>
    decreases s.len(),
{
    if s.len() == 0 {
        Seq::empty()
    } else {
        let rest = somes(s.drop_last());
        match s.last() {
            Some(x) => rest.push(x),
            None => rest,
        }
    }
}

/// The steps of the walk of `bpf_prog_list`.
pub open spec fn bpf_steps(p: LinuxProfile, m: Map<int, u8>, slide: u64, max: nat) -> Result<Seq<BpfStep>, Fault> {
    match symbol_of(p, "bpf_prog_list"@) {
        None => Err(Fault::Of(VmiErrorKind::Unsupported)),
        Some(s) => if s.virtual_address + slide > u64::MAX {
            Err(Fault::Of(VmiErrorKind::InconsistentSnapshot))
        } else {
            let head = (s.virtual_address + slide) as u64;
            match offset_of(p, "bpf_prog"@, "list"@) {
                None => Err(Fault::Of(VmiErrorKind::Unsupported)),
                Some(off) => match u64_at(m, head) {
                    None => Err(Fault::ReadFailed),
                    Some(node) => list_walk(m, head, off, node, max, Seq::empty(), Seq::empty(), bpf_item(m, bpf_offsets(p))),
                },
            }
        },
    }
}

/// Whether an inventory is the one that `steps` describe.
pub open spec fn inventory_fits(inv: LinuxBpfInventory, steps: Seq<BpfStep>) -> bool {
    &&& inv.programs@.map_values(|x: LinuxBpfProgram| x@) == steps.map_values(|s: BpfStep| s.program)
    &&& inv.jit_ranges@.map_values(|x: LinuxTextRange| range_view(x)) == somes(steps.map_values(|s: BpfStep| s.range))
    &&& inv.findings@.map_values(|x: String| x@) == somes(steps.map_values(|s: BpfStep| s.finding))
}

pub open spec fn opt_range_view(r: Option<LinuxTextRange>) -> Option<(Seq<char>, int, int)> {
    match r {
        Some(x) => Some(range_view(x)),
        None => None,
    }
}

pub open spec fn opt_text(t: Option<String>) -> Option<Seq<char>> {
    match t {
        Some(x) => Some(x@),
        None => None,
    }
}

struct ExecOffsets {
    aux: Option<u64>,
    prog_type: Option<u64>,
    bpf_func: Option<u64>,
    jited_len: Option<u64>,
    aux_id: Option<u64>,
    aux_name: Option<u64>,
}

spec fn offsets_view(o: ExecOffsets) -> BpfOffsets {
    BpfOffsets {
        aux: o.aux,
        prog_type: o.prog_type,
        bpf_func: o.bpf_func,
        jited_len: o.jited_len,
        aux_id: o.aux_id,
        aux_name: o.aux_name,
    }
}

fn opt_u64_exec<M: LinuxVirtualMemoryReader>(memory: &M, base: u64, off: Option<u64>) -> (r: Result<
    Option<u64>,
    LinuxVmiError,
>)
    ensures
        match r {
            Ok(v) => opt_u64(memory.mapped(), base, off) == Ok::<Option<u64>, Fault>(v),
            Err(e) => opt_u64(memory.mapped(), base, off) matches Err(f) && fault_fits(e, f),
        },
{
    match off {
        None => Ok(None),
        Some(o) => {
            let a = add_checked(base, o)?;
            Ok(Some(read_u64(memory, a)?))
        },
    }
}

fn opt_u32_exec<M: LinuxVirtualMemoryReader>(memory: &M, base: u64, off: Option<u64>) -> (r: Result<
    Option<u32>,
    LinuxVmiError,
>)
    ensures
        match r {
            Ok(v) => opt_u32(memory.mapped(), base, off) == Ok::<Option<u32>, Fault>(v),
            Err(e) => opt_u32(memory.mapped(), base, off) matches Err(f) && fault_fits(e, f),
        },
{
    match off {
        None => Ok(None),
        Some(o) => {
            let a = add_checked(base, o)?;
            Ok(Some(read_u32(memory, a)?))
        },
    }
}

fn bpf_owner_exec(id: Option<u32>, name: &Option<String>, address: u64) -> (r: String)
    ensures
        r@ == bpf_owner(
            id,
            match name {
                Some(n) => Some(n@),
                None => None,
            },
            address,
        ),
{
    match (id, name) {
        (Some(i), Some(n)) => {
            let d = u64_to_dec(i as u64);
            let mut s = owned("bpf:");
            push_str(&mut s, d.as_str());
            push_str(&mut s, ":");
            push_str(&mut s, n.as_str());
            s
        },
        (Some(i), None) => {
            let d = u64_to_dec(i as u64);
            let mut s = owned("bpf:");
            push_str(&mut s, d.as_str());
            s
        },
        (None, Some(n)) => {
            let mut s = owned("bpf:");
            push_str(&mut s, n.as_str());
            s
        },
        (None, None) => {
            let h = u64_to_hex(address);
            let mut s = owned("bpf:0x");
            push_str(&mut s, h.as_str());
            s
        },
    }
}

/// Reads the program at `address`.
fn read_bpf_program<M: LinuxVirtualMemoryReader>(memory: &M, o: &ExecOffsets, address: u64) -> (r: Result<
    (LinuxBpfProgram, Option<LinuxTextRange>, Option<String>),
    LinuxVmiError,
>)
    ensures
        match r {
            Ok((prog, range, finding)) => bpf_program_at(memory.mapped(), offsets_view(*o), address) == Ok::<
                BpfStep,
                Fault,
            >(
                BpfStep { program: prog@, range: opt_range_view(range), finding: opt_text(finding) },
            ),
            Err(e) => bpf_program_at(memory.mapped(), offsets_view(*o), address) matches Err(f)
                && fault_fits(e, f),
        },
{
    let aux_raw = opt_u64_exec(memory, address, o.aux)?;
    let aux = match aux_raw {
        Some(x) => if x != 0 {
            Some(x)
        } else {
            None
        },
        None => None,
    };
    let id = match (aux, o.aux_id) {
        (Some(a), Some(io)) => opt_u32_exec(memory, a, Some(io))?,
        _ => None,
    };
    let name = match (aux, o.aux_name) {
        (Some(a), Some(no)) => {
            let na = add_checked(a, no)?;
            let v = read_c_string(memory, na, 16)?;
            if crate::text::str_is_empty(v.as_str()) {
                None
            } else {
                Some(v)
            }
        },
        _ => None,
    };
    let program_type = opt_u32_exec(memory, address, o.prog_type)?;
    let func = opt_u64_exec(memory, address, o.bpf_func)?;
    let jlen = opt_u32_exec(memory, address, o.jited_len)?;
    let jit_start = match func {
        Some(x) => if x != 0 {
            Some(x)
        } else {
            None
        },
        None => None,
    };
    let jited_len = match jlen {
        Some(x) => if x != 0 {
            Some(x)
        } else {
            None
        },
        None => None,
    };
    let h = u64_to_hex(address);
    match (jit_start, jited_len) {
        (Some(s), Some(l)) => {
            if s > u64::MAX - l as u64 {
                return Err(
                    inconsistent(cat3("BPF JIT range for program 0x", h.as_str(), " overflows u64")),
                );
            }
            let end = s + l as u64;
            let owner = bpf_owner_exec(id, &name, address);
            let range = LinuxTextRange { owner, start: s, end };
            Ok((LinuxBpfProgram { address, id, name, program_type, jit_start, jit_end: Some(end) }, Some(range), None))
        },
        (Some(_), None) => {
            let f = cat3("BPF program 0x", h.as_str(), " has a JIT entry point but no bounded JIT length");
            Ok((LinuxBpfProgram { address, id, name, program_type, jit_start, jit_end: None }, None, Some(f)))
        },
        (None, Some(_)) => {
            let f = cat3("BPF program 0x", h.as_str(), " has a JIT length but no JIT entry point");
            Ok((LinuxBpfProgram { address, id, name, program_type, jit_start, jit_end: None }, None, Some(f)))
        },
        (None, None) => Ok((LinuxBpfProgram { address, id, name, program_type, jit_start, jit_end: None }, None, None)),
    }
}

fn unsupported(detail: String) -> (e: LinuxVmiError)
    ensures
        e.kind_of() == VmiErrorKind::Unsupported,
{
    LinuxVmiError::Unsupported { operation: owned("inspect_bpf_programs"), detail }
}

/// Walks the guest's BPF program list: every program with its id, name,
/// type and JIT image, the JIT images as executable text ranges, and a
/// finding for each program whose JIT entry point and length disagree.
pub fn inspect_linux_bpf_programs<M: LinuxVirtualMemoryReader>(
    profile: &LinuxProfile,
    memory: &M,
    slide: u64,
    limits: LinuxBpfWalkLimits,
) -> (r: Result<LinuxBpfInventory, LinuxVmiError>)
    ensures
        match r {
            Ok(inv) => bpf_steps(*profile, memory.mapped(), slide, limits.max_programs as nat) matches Ok(steps)
                && inventory_fits(inv, steps),
            Err(e) => bpf_steps(*profile, memory.mapped(), slide, limits.max_programs as nat) matches Err(f)
                && fault_fits(e, f),
        },
{
    let ghost m = memory.mapped();
    let head = match profile.symbol("bpf_prog_list") {
        None => {
            return Err(unsupported(owned("profile is missing symbol:bpf_prog_list")));
        },
        Some(s) => {
            if s.virtual_address > u64::MAX - slide {
                return Err(inconsistent(owned("symbol 'bpf_prog_list' plus KASLR slide overflows u64")));
            }
            s.virtual_address + slide
        },
    };
    let off = match profile.offset("bpf_prog", "list") {
        None => {
            return Err(unsupported(owned("profile is missing offset bpf_prog.list")));
        },
        Some(o) => o,
    };
    let o = ExecOffsets {
        aux: profile.offset("bpf_prog", "aux"),
        prog_type: profile.offset("bpf_prog", "type"),
        bpf_func: profile.offset("bpf_prog", "bpf_func"),
        jited_len: profile.offset("bpf_prog", "jited_len"),
        aux_id: profile.offset("bpf_prog_aux", "id"),
        aux_name: profile.offset("bpf_prog_aux", "name"),
    };
    let ghost item = bpf_item(m, bpf_offsets(*profile));
    assert(offsets_view(o) == bpf_offsets(*profile));
    let max = limits.max_programs;
    let mut programs: Vec<LinuxBpfProgram> = Vec::new();
    let mut jit_ranges: Vec<LinuxTextRange> = Vec::new();
    let mut findings: Vec<String> = Vec::new();
    let mut visited: Vec<u64> = Vec::new();
    let ghost mut steps: Seq<BpfStep> = Seq::empty();
    let mut node = read_u64(memory, head)?;
    proof {
        assert(steps.map_values(|s: BpfStep| s.program) =~= Seq::<crate::linux_bpf::LinuxBpfProgramView>::empty());
        assert(programs@.map_values(|x: LinuxBpfProgram| x@) =~= Seq::<crate::linux_bpf::LinuxBpfProgramView>::empty());
        assert(steps.map_values(|s: BpfStep| s.range) =~= Seq::<Option<(Seq<char>, int, int)>>::empty());
        assert(steps.map_values(|s: BpfStep| s.finding) =~= Seq::<Option<Seq<char>>>::empty());
        assert(jit_ranges@.map_values(|x: LinuxTextRange| range_view(x)) =~= Seq::<(Seq<char>, int, int)>::empty());
        assert(findings@.map_values(|x: String| x@) =~= Seq::<Seq<char>>::empty());
        assert(visited@ =~= Seq::<u64>::empty());
    }
    while node != head
        invariant
            m == memory.mapped(),
            item == bpf_item(m, bpf_offsets(*profile)),
            offsets_view(o) == bpf_offsets(*profile),
            max == limits.max_programs,
            steps.len() == programs@.len(),
            programs@.len() <= max,
            inventory_fits(LinuxBpfInventory { programs, jit_ranges, findings }, steps),
            list_walk(m, head, off, node, max as nat, visited@, steps, item) == bpf_steps(
                *profile,
                m,
                slide,
                max as nat,
            ),
        decreases max - programs@.len(),
    {
        if programs.len() >= max {
            let n = u64_to_dec(max as u64);
            return Err(inconsistent(cat3("BPF program list exceeded configured limit ", n.as_str(), "")));
        }
        if crate::linux_vmi::contains_node(&visited, node) {
            let h = u64_to_hex(node);
            return Err(inconsistent(cat3("BPF program list looped before returning to head at 0x", h.as_str(), "")));
        }
        if node < off {
            let h = u64_to_hex(node);
            let oh = u64_to_hex(off);
            let mut d = cat3("BPF program list node 0x", h.as_str(), " is smaller than list offset 0x");
            push_str(&mut d, oh.as_str());
            return Err(inconsistent(d));
        }
        let (prog, range, finding) = read_bpf_program(memory, &o, node - off)?;
        let ghost step = BpfStep { program: prog@, range: opt_range_view(range), finding: opt_text(finding) };
        let ghost old_p = programs@.map_values(|x: LinuxBpfProgram| x@);
        let ghost old_r = jit_ranges@.map_values(|x: LinuxTextRange| range_view(x));
        let ghost old_f = findings@.map_values(|x: String| x@);
        programs.push(prog);
        match range {
            Some(x) => jit_ranges.push(x),
            None => {},
        }
        match finding {
            Some(x) => findings.push(x),
            None => {},
        }
        proof {
            let ns = steps.push(step);
            assert(ns.map_values(|s: BpfStep| s.program) =~= steps.map_values(|s: BpfStep| s.program).push(step.program));
            assert(ns.map_values(|s: BpfStep| s.range).drop_last() =~= steps.map_values(|s: BpfStep| s.range));
            assert(ns.map_values(|s: BpfStep| s.finding).drop_last() =~= steps.map_values(|s: BpfStep| s.finding));
            assert(programs@.map_values(|x: LinuxBpfProgram| x@) =~= old_p.push(prog@));
            if step.range is Some {
                assert(jit_ranges@.map_values(|x: LinuxTextRange| range_view(x)) =~= old_r.push(step.range->0));
            } else {
                assert(jit_ranges@.map_values(|x: LinuxTextRange| range_view(x)) =~= old_r);
            }
            if step.finding is Some {
                assert(findings@.map_values(|x: String| x@) =~= old_f.push(step.finding->0));
            } else {
                assert(findings@.map_values(|x: String| x@) =~= old_f);
            }
            steps = ns;
        }
        visited.push(node);
        node = read_u64(memory, node)?;
    }
    Ok(LinuxBpfInventory { programs, jit_ranges, findings })
}

} // verus!
