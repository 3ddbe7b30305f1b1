//! x86-64 checks of a Linux guest: the protection bits of the control
//! registers, and the IDT gates and GDT descriptors in guest memory.
use vstd::prelude::*;
use crate::linux_vmi::{
    address_in_text_ranges, fault_fits, read_of, text_range_index, Fault, LinuxTextRange,
    LinuxVirtualMemoryReader, LinuxVmiError,
};
use crate::text::{cat3, dec, hex, owned, push_str, u64_to_dec, u64_to_hex};
use crate::vmi::VmiErrorKind;

verus! {

pub const X86_CR0_WP: u64 = 0x10000;

pub const X86_CR4_SMEP: u64 = 0x100000;

pub const X86_CR4_SMAP: u64 = 0x200000;

pub const X86_EFER_NXE: u64 = 0x800;

/// Which protection bits a guest must have set.
#[derive(Debug, Clone, Copy, PartialEq, Eq)]
pub struct LinuxControlPolicy {
    pub require_cr0_wp: bool,
    pub require_cr4_smep: bool,
    pub require_cr4_smap: bool,
    pub require_efer_nxe: bool,
}

impl Default for LinuxControlPolicy {
    fn default() -> (r: Self)
        ensures
            r == (LinuxControlPolicy {
                require_cr0_wp: true,
                require_cr4_smep: false,
                require_cr4_smap: false,
                require_efer_nxe: true,
            }),
    {
        LinuxControlPolicy {
            require_cr0_wp: true,
            require_cr4_smep: false,
            require_cr4_smap: false,
            require_efer_nxe: true,
        }
    }
}

impl LinuxControlPolicy {
    /// Every protection bit required.
    pub fn strict_x86_64() -> (r: Self)
        ensures
            r == (LinuxControlPolicy {
                require_cr0_wp: true,
                require_cr4_smep: true,
                require_cr4_smap: true,
                require_efer_nxe: true,
            }),
    {
        LinuxControlPolicy {
            require_cr0_wp: true,
            require_cr4_smep: true,
            require_cr4_smap: true,
            require_efer_nxe: true,
        }
    }
}

#[derive(Debug, Clone, PartialEq, Eq)]
pub struct LinuxControlReport {
    pub ok: bool,
    pub findings: Vec<String>,
}

pub open spec fn texts(v: Seq<String>) -> Seq<Seq<char>> {
    v.map_values(|x: String| x@)
}

pub open spec fn opt_text(t: Option<String>) -> Option<Seq<char>> {
    match t {
        Some(x) => Some(x@),
        None => None,
    }
}

pub open spec fn when(c: bool, line: Seq<char>) -> Seq<Seq<char>> {
    if c {
        seq![line]
    } else {
        Seq::empty()
    }
}

/// The findings about the control registers under `policy`, in the order
/// CR0.WP, CR4.SMEP, CR4.SMAP, EFER.NXE.
pub open spec fn control_findings(cr0: u64, cr4: u64, efer: u64, policy: LinuxControlPolicy) -> Seq<Seq<char>> {
    when(policy.require_cr0_wp && cr0 & X86_CR0_WP == 0, "CR0.WP is clear while policy requires write protect"@)
        + when(policy.require_cr4_smep && cr4 & X86_CR4_SMEP == 0, "CR4.SMEP is clear while policy requires SMEP"@)
        + when(policy.require_cr4_smap && cr4 & X86_CR4_SMAP == 0, "CR4.SMAP is clear while policy requires SMAP"@)
        + when(policy.require_efer_nxe && efer & X86_EFER_NXE == 0, "EFER.NXE is clear while policy requires NX"@)
}

fn push_when(out: &mut Vec<String>, c: bool, line: &str)
    ensures
        texts(final(out)@) == texts(old(out)@) + when(c, line@),
{
    let ghost before = texts(out@);
    if c {
        out.push(owned(line));
        assert(texts(out@) =~= before + seq![line@]);
    } else {
        assert(texts(out@) =~= before + Seq::<Seq<char>>::empty());
    }
}

/// Checks CR0.WP, CR4.SMEP, CR4.SMAP and EFER.NXE against `policy`.
pub fn inspect_linux_control_registers(cr0: u64, cr4: u64, efer: u64, policy: LinuxControlPolicy) -> (r:
    LinuxControlReport)
    ensures
        texts(r.findings@) == control_findings(cr0, cr4, efer, policy),
        r.ok == (r.findings@.len() == 0),
{
    let mut findings: Vec<String> = Vec::new();
    assert(texts(findings@) =~= Seq::<Seq<char>>::empty());
    push_when(
        &mut findings,
        policy.require_cr0_wp && cr0 & X86_CR0_WP == 0,
        "CR0.WP is clear while policy requires write protect",
    );
    push_when(
        &mut findings,
        policy.require_cr4_smep && cr4 & X86_CR4_SMEP == 0,
        "CR4.SMEP is clear while policy requires SMEP",
    );
    push_when(
        &mut findings,
        policy.require_cr4_smap && cr4 & X86_CR4_SMAP == 0,
        "CR4.SMAP is clear while policy requires SMAP",
    );
    push_when(
        &mut findings,
        policy.require_efer_nxe && efer & X86_EFER_NXE == 0,
        "EFER.NXE is clear while policy requires NX",
    );
    proof {
        assert(Seq::<Seq<char>>::empty() + when(policy.require_cr0_wp && cr0 & X86_CR0_WP == 0, "CR0.WP is clear while policy requires write protect"@)
            =~= when(policy.require_cr0_wp && cr0 & X86_CR0_WP == 0, "CR0.WP is clear while policy requires write protect"@));
    }
    let ok = findings.len() == 0;
    LinuxControlReport { ok, findings }
}

#[derive(Debug, Clone, PartialEq, Eq)]
pub struct X86IdtGate {
    pub vector: u8,
    pub offset: u64,
    pub selector: u16,
    pub type_attr: u8,
    pub present: bool,
}

#[derive(Debug, Clone, PartialEq, Eq)]
pub struct X86SegmentDescriptor {
    pub selector: u16,
    pub base: u64,
    pub limit: u32,
    pub access: u8,
    pub flags: u8,
    pub present: bool,
    pub executable: bool,
    pub readable_or_writable: bool,
    pub long_mode: bool,
}

#[derive(Debug, Clone, PartialEq, Eq)]
pub struct LinuxDescriptorReport {
    pub ok: bool,
    pub findings: Vec<String>,
    pub idt_gates: Vec<X86IdtGate>,
    pub gdt_descriptors: Vec<X86SegmentDescriptor>,
}

/// The 64-bit IDT gate in 16 descriptor bytes: the handler offset from
/// bytes 0-1, 6-7 and 8-11, the selector from bytes 2-3, the type and
/// attributes from byte 5 (bit 7: present).
pub open spec fn idt_gate_of(vector: u8, b: Seq<u8>) -> X86IdtGate {
    X86IdtGate {
        vector,
        offset: (b[0] + b[1] * 0x100 + b[6] * 0x10000 + b[7] * 0x1000000 + b[8] * 0x100000000 + b[9]
            * 0x10000000000 + b[10] * 0x1000000000000 + b[11] * 0x100000000000000) as u64,
        selector: (b[2] + b[3] * 0x100) as u16,
        type_attr: b[5],
        present: b[5] & 0x80 != 0,
    }
}

/// The segment descriptor in 8 descriptor bytes: the base from bytes 2-4
/// and 7, the 20-bit limit from bytes 0-1 and the low half of byte 6, the
/// access byte 5, and the flags in the high half of byte 6.
pub open spec fn gdt_descriptor_of(selector: u16, b: Seq<u8>) -> X86SegmentDescriptor {
    X86SegmentDescriptor {
        selector,
        base: (b[2] + b[3] * 0x100 + b[4] * 0x10000 + b[7] * 0x1000000) as u64,
        limit: (b[0] + b[1] * 0x100 + (b[6] & 0x0f) * 0x10000) as u32,
        access: b[5],
        flags: b[6] >> 4,
        present: b[5] & 0x80 != 0,
        executable: b[5] & 0x08 != 0,
        readable_or_writable: b[5] & 0x02 != 0,
        long_mode: b[6] & 0x20 != 0,
    }
}

pub fn decode_idt_gate(vector: u8, bytes: [u8; 16]) -> (r: X86IdtGate)
    ensures
        r == idt_gate_of(vector, bytes@),
{
    let b = bytes;
    let offset = b[0] as u64 + b[1] as u64 * 0x100 + b[6] as u64 * 0x10000 + b[7] as u64 * 0x1000000 + b[8] as u64
        * 0x100000000 + b[9] as u64 * 0x10000000000 + b[10] as u64 * 0x1000000000000 + b[11] as u64
        * 0x100000000000000;
    let selector = (b[2] as u32 + b[3] as u32 * 0x100) as u16;
    let type_attr = b[5];
    X86IdtGate { vector, offset, selector, type_attr, present: type_attr & 0x80 != 0 }
}

pub fn decode_gdt_descriptor(selector: u16, bytes: [u8; 8]) -> (r: X86SegmentDescriptor)
    ensures
        r == gdt_descriptor_of(selector, bytes@),
{
    let b = bytes;
    let base = b[2] as u64 + b[3] as u64 * 0x100 + b[4] as u64 * 0x10000 + b[7] as u64 * 0x1000000;
    let b6: u8 = b[6];
    let low: u8 = b6 & 0x0f;
    assert(low <= 0x0f) by (bit_vector)
        requires
            low == b6 & 0x0f,
    ;
    let limit = b[0] as u32 + b[1] as u32 * 0x100 + low as u32 * 0x10000;
    let access = b[5];
    let flags_limit = b[6];
    X86SegmentDescriptor {
        selector,
        base,
        limit,
        access,
        flags: flags_limit >> 4,
        present: access & 0x80 != 0,
        executable: access & 0x08 != 0,
        readable_or_writable: access & 0x02 != 0,
        long_mode: flags_limit & 0x20 != 0,
    }
}

/// The IDT gates of the critical vectors `0..k`, read from the table at
/// `base` whose limit is `limit`; a gate that is not present, or whose
/// handler no executable range holds, is a finding.
pub open spec fn idt_steps(
    m: Map<int, u8>,
    base: u64,
    limit: u16,
    ranges: Seq<LinuxTextRange>,
    vectors: Seq<u8>,
    k: int,
) -> Result<Seq<(X86IdtGate, Option<Seq<char>>)>, Fault>
    decreases k,
{
    if k <= 0 {
        Ok(Seq::empty())
    } else {
        match idt_steps(m, base, limit, ranges, vectors, k - 1) {
            Err(f) => Err(f),
            Ok(prev) => {
                let v = vectors[k - 1];
                let off = v * 16;
                if off + 15 > limit {
                    Err(Fault::Of(VmiErrorKind::InconsistentSnapshot))
                } else if base + off > u64::MAX {
                    Err(Fault::Of(VmiErrorKind::InconsistentSnapshot))
                } else {
                    match read_of(m, (base + off) as u64, 16) {
                        None => Err(Fault::ReadFailed),
                        Some(b) => {
                            let g = idt_gate_of(v, b);
                            let f = if !g.present {
                                Some("IDT vector "@ + dec(v as nat) + " is not present"@)
                            } else if text_range_index(ranges, g.offset, 0) is None {
                                Some(
                                    "IDT vector "@ + dec(v as nat) + " handler 0x"@ + hex(g.offset as nat)
                                        + " is outside executable kernel/module ranges"@,
                                )
                            } else {
                                None
                            };
                            Ok(prev.push((g, f)))
                        },
                    }
                }
            },
        }
    }
}

pub open spec fn somes<T>(s: Seq<Option<T>>) -> Seq<T>
    decreases s.len(),
{
    if s.len() == 0 {
        Seq::empty()
    } else {
        let rest = somes(s.drop_last());
        match s.last() {
            Some(x) => rest.push(x),
            None => rest,
        }
    }
}

fn read_bytes16<M: LinuxVirtualMemoryReader>(memory: &M, address: u64) -> (r: Result<[u8; 16], LinuxVmiError>)
    ensures
        match r {
            Ok(b) => read_of(memory.mapped(), address, 16) == Some(b@),
            Err(_) => read_of(memory.mapped(), address, 16) is None,
        },
{
    let v = memory.read_virtual(address, 16)?;
    let b: [u8; 16] = [v[0], v[1], v[2], v[3], v[4], v[5], v[6], v[7], v[8], v[9], v[10], v[11], v[12], v[13], v[14], v[15]];
    assert(b@ =~= v@);
    Ok(b)
}

fn read_bytes8<M: LinuxVirtualMemoryReader>(memory: &M, address: u64) -> (r: Result<[u8; 8], LinuxVmiError>)
    ensures
        match r {
            Ok(b) => read_of(memory.mapped(), address, 8) == Some(b@),
            Err(_) => read_of(memory.mapped(), address, 8) is None,
        },
{
    let v = memory.read_virtual(address, 8)?;
    let b: [u8; 8] = [v[0], v[1], v[2], v[3], v[4], v[5], v[6], v[7]];
    assert(b@ =~= v@);
    Ok(b)
}

/// Reads the IDT gates of `critical_vectors` from the table at
/// `idtr_base` (limit `idtr_limit`) and checks that each is present and
/// points into executable text.
pub fn inspect_linux_idt<M: LinuxVirtualMemoryReader>(
    memory: &M,
    idtr_base: u64,
    idtr_limit: u16,
    executable_ranges: &[LinuxTextRange],
    critical_vectors: &[u8],
) -> (r: Result<LinuxDescriptorReport, LinuxVmiError>)
    ensures
        match r {
            Ok(rep) => idt_steps(memory.mapped(), idtr_base, idtr_limit, executable_ranges@, critical_vectors@, critical_vectors@.len() as int) matches Ok(steps)
                && rep.idt_gates@ == steps.map_values(|s: (X86IdtGate, Option<Seq<char>>)| s.0)
                && texts(rep.findings@) == somes(steps.map_values(|s: (X86IdtGate, Option<Seq<char>>)| s.1))
                && rep.gdt_descriptors@.len() == 0 && rep.ok == (rep.findings@.len() == 0),
            Err(e) => idt_steps(memory.mapped(), idtr_base, idtr_limit, executable_ranges@, critical_vectors@, critical_vectors@.len() as int) matches Err(f)
                && fault_fits(e, f),
        },
{
    let ghost m = memory.mapped();
    let mut gates: Vec<X86IdtGate> = Vec::new();
    let mut findings: Vec<String> = Vec::new();
    let ghost mut steps: Seq<(X86IdtGate, Option<Seq<char>>)> = Seq::empty();
    proof {
        assert(gates@ =~= steps.map_values(|s: (X86IdtGate, Option<Seq<char>>)| s.0));
        assert(steps.map_values(|s: (X86IdtGate, Option<Seq<char>>)| s.1) =~= Seq::<Option<Seq<char>>>::empty());
        assert(texts(findings@) =~= Seq::<Seq<char>>::empty());
    }
    let mut k: usize = 0;
    while k < critical_vectors.len()
        invariant
            m == memory.mapped(),
            k <= critical_vectors@.len(),
            idt_steps(m, idtr_base, idtr_limit, executable_ranges@, critical_vectors@, k as int) == Ok::<
                Seq<(X86IdtGate, Option<Seq<char>>)>,
                Fault,
            >(steps),
            gates@ == steps.map_values(|s: (X86IdtGate, Option<Seq<char>>)| s.0),
            texts(findings@) == somes(steps.map_values(|s: (X86IdtGate, Option<Seq<char>>)| s.1)),
        decreases critical_vectors@.len() - k,
    {
        let vector = critical_vectors[k];
        let offset = vector as u64 * 16;
        if offset + 15 > idtr_limit as u64 {
            let vs = u64_to_dec(vector as u64);
            let ls = u64_to_dec(idtr_limit as u64);
            let mut d = cat3("IDT vector ", vs.as_str(), " is outside IDTR limit ");
            push_str(&mut d, ls.as_str());
            proof {
                lemma_idt_err(m, idtr_base, idtr_limit, executable_ranges@, critical_vectors@, k as int + 1, critical_vectors@.len() as int);
            }
            return Err(LinuxVmiError::InconsistentSnapshot { detail: d });
        }
        if idtr_base > u64::MAX - offset {
            proof {
                lemma_idt_err(m, idtr_base, idtr_limit, executable_ranges@, critical_vectors@, k as int + 1, critical_vectors@.len() as int);
            }
            return Err(LinuxVmiError::InconsistentSnapshot { detail: owned("IDT descriptor address overflowed") });
        }
        let address = idtr_base + offset;
        let bytes = match read_bytes16(memory, address) {
            Ok(b) => b,
            Err(e) => {
                proof {
                    lemma_idt_err(m, idtr_base, idtr_limit, executable_ranges@, critical_vectors@, k as int + 1, critical_vectors@.len() as int);
                }
                return Err(e);
            },
        };
        let gate = decode_idt_gate(vector, bytes);
        let finding = if !gate.present {
            let vs = u64_to_dec(vector as u64);
            Some(cat3("IDT vector ", vs.as_str(), " is not present"))
        } else if address_in_text_ranges(gate.offset, executable_ranges).is_none() {
            let vs = u64_to_dec(vector as u64);
            let hs = u64_to_hex(gate.offset);
            let mut f = cat3("IDT vector ", vs.as_str(), " handler 0x");
            push_str(&mut f, hs.as_str());
            push_str(&mut f, " is outside executable kernel/module ranges");
            Some(f)
        } else {
            None
        };
        let ghost step = (gate, opt_text(finding));
        let ghost old_f = texts(findings@);
        let ghost old_g = gates@;
        match finding {
            Some(x) => findings.push(x),
            None => {},
        }
        gates.push(gate);
        proof {
            let ns = steps.push(step);
            assert(ns.map_values(|s: (X86IdtGate, Option<Seq<char>>)| s.0) =~= old_g.push(step.0));
            assert(ns.map_values(|s: (X86IdtGate, Option<Seq<char>>)| s.1).drop_last() =~= steps.map_values(
                |s: (X86IdtGate, Option<Seq<char>>)| s.1,
            ));
            if step.1 is Some {
                assert(texts(findings@) =~= old_f.push(step.1->0));
            } else {
                assert(texts(findings@) =~= old_f);
            }
            steps = ns;
        }
        k = k + 1;
    }
    let ok = findings.len() == 0;
    Ok(LinuxDescriptorReport { ok, findings, idt_gates: gates, gdt_descriptors: Vec::new() })
}

proof fn lemma_idt_err(
    m: Map<int, u8>,
    base: u64,
    limit: u16,
    ranges: Seq<LinuxTextRange>,
    vectors: Seq<u8>,
    k: int,
    n: int,
)
    requires
        k <= n,
        idt_steps(m, base, limit, ranges, vectors, k) is Err,
    ensures
        idt_steps(m, base, limit, ranges, vectors, n) == idt_steps(m, base, limit, ranges, vectors, k),
    decreases n - k,
{
    if k < n {
        lemma_idt_err(m, base, limit, ranges, vectors, k, n - 1);
    }
}

/// The GDT descriptors of `selectors` (the null selector skipped), read
/// from the table at `base` whose limit is `limit`; a descriptor that is
/// not present is a finding.
pub open spec fn gdt_steps(
    m: Map<int, u8>,
    base: u64,
    limit: u16,
    selectors: Seq<u16>,
    k: int,
) -> Result<Seq<(X86SegmentDescriptor, Option<Seq<char>>)>, Fault>
    decreases k,
{
    if k <= 0 {
        Ok(Seq::empty())
    } else {
        match gdt_steps(m, base, limit, selectors, k - 1) {
            Err(f) => Err(f),
            Ok(prev) => {
                let s = selectors[k - 1];
                let off = s & 0xfff8u16;
                if off == 0 {
                    Ok(prev)
                } else if off + 7 > limit {
                    Err(Fault::Of(VmiErrorKind::InconsistentSnapshot))
                } else if base + off > u64::MAX {
                    Err(Fault::Of(VmiErrorKind::InconsistentSnapshot))
                } else {
                    match read_of(m, (base + off) as u64, 8) {
                        None => Err(Fault::ReadFailed),
                        Some(b) => {
                            let d = gdt_descriptor_of(s, b);
                            Ok(
                                prev.push(
                                    (
                                        d,
                                        if !d.present {
                                            Some("GDT selector 0x"@ + hex(s as nat) + " is not present"@)
                                        } else {
                                            None
                                        },
                                    ),
                                ),
                            )
                        },
                    }
                }
            },
        }
    }
}

proof fn lemma_gdt_err(m: Map<int, u8>, base: u64, limit: u16, selectors: Seq<u16>, k: int, n: int)
    requires
        k <= n,
        gdt_steps(m, base, limit, selectors, k) is Err,
    ensures
        gdt_steps(m, base, limit, selectors, n) == gdt_steps(m, base, limit, selectors, k),
    decreases n - k,
{
    if k < n {
        lemma_gdt_err(m, base, limit, selectors, k, n - 1);
    }
}

/// Reads the GDT descriptors of `selectors` from the table at
/// `gdtr_base` (limit `gdtr_limit`) and checks that each is present.
pub fn inspect_linux_gdt<M: LinuxVirtualMemoryReader>(
    memory: &M,
    gdtr_base: u64,
    gdtr_limit: u16,
    selectors: &[u16],
) -> (r: Result<LinuxDescriptorReport, LinuxVmiError>)
    ensures
        match r {
            Ok(rep) => gdt_steps(memory.mapped(), gdtr_base, gdtr_limit, selectors@, selectors@.len() as int) matches Ok(steps)
                && rep.gdt_descriptors@ == steps.map_values(|s: (X86SegmentDescriptor, Option<Seq<char>>)| s.0)
                && texts(rep.findings@) == somes(steps.map_values(|s: (X86SegmentDescriptor, Option<Seq<char>>)| s.1))
                && rep.idt_gates@.len() == 0 && rep.ok == (rep.findings@.len() == 0),
            Err(e) => gdt_steps(memory.mapped(), gdtr_base, gdtr_limit, selectors@, selectors@.len() as int) matches Err(f)
                && fault_fits(e, f),
        },
{
    let ghost m = memory.mapped();
    let mut descriptors: Vec<X86SegmentDescriptor> = Vec::new();
    let mut findings: Vec<String> = Vec::new();
    let ghost mut steps: Seq<(X86SegmentDescriptor, Option<Seq<char>>)> = Seq::empty();
    proof {
        assert(descriptors@ =~= steps.map_values(|s: (X86SegmentDescriptor, Option<Seq<char>>)| s.0));
        assert(steps.map_values(|s: (X86SegmentDescriptor, Option<Seq<char>>)| s.1) =~= Seq::<Option<Seq<char>>>::empty());
        assert(texts(findings@) =~= Seq::<Seq<char>>::empty());
    }
    let mut k: usize = 0;
    while k < selectors.len()
        invariant
            m == memory.mapped(),
            k <= selectors@.len(),
            gdt_steps(m, gdtr_base, gdtr_limit, selectors@, k as int) == Ok::<
                Seq<(X86SegmentDescriptor, Option<Seq<char>>)>,
                Fault,
            >(steps),
            descriptors@ == steps.map_values(|s: (X86SegmentDescriptor, Option<Seq<char>>)| s.0),
            texts(findings@) == somes(steps.map_values(|s: (X86SegmentDescriptor, Option<Seq<char>>)| s.1)),
        decreases selectors@.len() - k,
    {
        let selector = selectors[k];
        let off = selector & 0xfff8u16;
        if off == 0 {
            k = k + 1;
            continue;
        }
        if off as u64 + 7 > gdtr_limit as u64 {
            let hs = u64_to_hex(selector as u64);
            let ls = u64_to_dec(gdtr_limit as u64);
            let mut d = cat3("GDT selector 0x", hs.as_str(), " is outside GDTR limit ");
            push_str(&mut d, ls.as_str());
            proof {
                lemma_gdt_err(m, gdtr_base, gdtr_limit, selectors@, k as int + 1, selectors@.len() as int);
            }
            return Err(LinuxVmiError::InconsistentSnapshot { detail: d });
        }
        if gdtr_base > u64::MAX - off as u64 {
            proof {
                lemma_gdt_err(m, gdtr_base, gdtr_limit, selectors@, k as int + 1, selectors@.len() as int);
            }
            return Err(LinuxVmiError::InconsistentSnapshot { detail: owned("GDT descriptor address overflowed") });
        }
        let address = gdtr_base + off as u64;
        let bytes = match read_bytes8(memory, address) {
            Ok(b) => b,
            Err(e) => {
                proof {
                    lemma_gdt_err(m, gdtr_base, gdtr_limit, selectors@, k as int + 1, selectors@.len() as int);
                }
                return Err(e);
            },
        };
        let d = decode_gdt_descriptor(selector, bytes);
        let finding = if !d.present {
            let hs = u64_to_hex(selector as u64);
            Some(cat3("GDT selector 0x", hs.as_str(), " is not present"))
        } else {
            None
        };
        let ghost step = (d, opt_text(finding));
        let ghost old_f = texts(findings@);
        let ghost old_d = descriptors@;
        match finding {
            Some(x) => findings.push(x),
            None => {},
        }
        descriptors.push(d);
        proof {
            let ns = steps.push(step);
            assert(ns.map_values(|s: (X86SegmentDescriptor, Option<Seq<char>>)| s.0) =~= old_d.push(step.0));
            assert(ns.map_values(|s: (X86SegmentDescriptor, Option<Seq<char>>)| s.1).drop_last() =~= steps.map_values(
                |s: (X86SegmentDescriptor, Option<Seq<char>>)| s.1,
            ));
            if step.1 is Some {
                assert(texts(findings@) =~= old_f.push(step.1->0));
            } else {
                assert(texts(findings@) =~= old_f);
            }
            steps = ns;
        }
        k = k + 1;
    }
    let ok = findings.len() == 0;
    Ok(LinuxDescriptorReport { ok, findings, idt_gates: Vec::new(), gdt_descriptors: descriptors })
}

/// Where an x86-64 IDT entry keeps its fields: handler offset bits 0..15
/// in bytes 0-1, bits 16..31 in bytes 6-7 and bits 32..63 in bytes 8-11,
/// each little-endian; the selector in bytes 2-3; type and attributes in
/// byte 5, with bit 7 set for a present entry.
pub proof fn lemma_idt_gate_layout(vector: u8, b: Seq<u8>)
    requires
        b.len() == 16,
    ensures
        ({
            let g = idt_gate_of(vector, b);
            &&& g.vector == vector
            &&& g.offset % 0x10000 == b[0] + b[1] * 0x100
            &&& (g.offset / 0x10000) % 0x10000 == b[6] + b[7] * 0x100
            &&& g.offset / 0x1_0000_0000 == b[8] + b[9] * 0x100 + b[10] * 0x10000 + b[11] * 0x100_0000
            &&& g.selector == b[2] + b[3] * 0x100
            &&& g.type_attr == b[5]
            &&& g.present == (b[5] >= 0x80)
        }),
{
    let lo: int = b[0] + b[1] * 0x100;
    let mid: int = b[6] + b[7] * 0x100;
    let hi: int = b[8] + b[9] * 0x100 + b[10] * 0x10000 + b[11] * 0x100_0000;
    let total: int = lo + mid * 0x10000 + hi * 0x1_0000_0000;
    assert(total == b[0] + b[1] * 0x100 + b[6] * 0x10000 + b[7] * 0x1000000 + b[8] * 0x100000000 + b[9]
        * 0x10000000000 + b[10] * 0x1000000000000 + b[11] * 0x100000000000000);
    assert(0 <= hi < 0x1_0000_0000);
    assert(total < 0x1_0000_0000_0000_0000);
    let g = idt_gate_of(vector, b);
    assert(g.offset == total);
    vstd::arithmetic::div_mod::lemma_fundamental_div_mod_converse(total, 0x10000, mid + hi * 0x10000, lo);
    vstd::arithmetic::div_mod::lemma_fundamental_div_mod_converse(mid + hi * 0x10000, 0x10000, hi, mid);
    vstd::arithmetic::div_mod::lemma_fundamental_div_mod_converse(total, 0x1_0000_0000, hi, lo + mid * 0x10000);
    let t = b[5];
    assert((t & 0x80 != 0) == (t >= 0x80)) by (bit_vector);
}

/// The x86 segment descriptor layout: base bits 0..23 in bytes 2-4 and
/// bits 24..31 in byte 7; limit bits 0..15 in bytes 0-1 and bits 16..19 in
/// the low half of byte 6; the access byte is byte 5 (bit 7 present, bit 3
/// executable, bit 1 readable or writable) and the flags are the high half
/// of byte 6 (bit 5 of byte 6: long mode).
pub proof fn lemma_segment_descriptor_layout(selector: u16, b: Seq<u8>)
    requires
        b.len() == 8,
    ensures
        ({
            let d = gdt_descriptor_of(selector, b);
            &&& d.selector == selector
            &&& d.base % 0x10000 == b[2] + b[3] * 0x100
            &&& (d.base / 0x10000) % 0x100 == b[4]
            &&& d.base / 0x100_0000 == b[7]
            &&& d.limit % 0x10000 == b[0] + b[1] * 0x100
            &&& d.limit / 0x10000 == b[6] % 16
            &&& d.access == b[5]
            &&& d.flags == b[6] / 16
            &&& d.present == (b[5] / 0x80 == 1)
            &&& d.executable == ((b[5] / 8) % 2 == 1)
            &&& d.readable_or_writable == ((b[5] / 2) % 2 == 1)
            &&& d.long_mode == ((b[6] / 0x20) % 2 == 1)
        }),
{
    let b2: int = b[2] + b[3] * 0x100;
    let base: int = b2 + b[4] * 0x10000 + b[7] * 0x100_0000;
    let d = gdt_descriptor_of(selector, b);
    let six = b[6];
    let five = b[5];
    assert(six & 0x0f == six % 16 && six >> 4 == six / 16 && (six & 0x20 != 0) == ((six / 0x20) % 2 == 1))
        by (bit_vector);
    assert((five & 0x80 != 0) == (five / 0x80 == 1) && (five & 0x08 != 0) == ((five / 8) % 2 == 1) && (five
        & 0x02 != 0) == ((five / 2) % 2 == 1)) by (bit_vector);
    assert(d.base == base);
    vstd::arithmetic::div_mod::lemma_fundamental_div_mod_converse(base, 0x10000, b[4] + b[7] * 0x100, b2);
    vstd::arithmetic::div_mod::lemma_fundamental_div_mod_converse(b[4] + b[7] * 0x100, 0x100, b[7] as int, b[4] as int);
    vstd::arithmetic::div_mod::lemma_fundamental_div_mod_converse(base, 0x100_0000, b[7] as int, b2 + b[4] * 0x10000);
    let lim: int = b[0] + b[1] * 0x100 + (six % 16) * 0x10000;
    assert(d.limit == lim);
    vstd::arithmetic::div_mod::lemma_fundamental_div_mod_converse(lim, 0x10000, (six % 16) as int, b[0] + b[1] * 0x100);
}

} // verus!
