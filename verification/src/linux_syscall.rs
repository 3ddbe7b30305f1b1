//! Reports on the Linux system call path: the syscall table and the
//! `MSR_LSTAR` entry point.
use vstd::prelude::*;
use crate::linux_vmi::{
    address_in_text_ranges, fault_fits, read_u64, slid_symbol_of, symbol_of, text_range_index, u64_at,
    Fault, LinuxProfile, LinuxSyscall, LinuxTextRange, LinuxVirtualMemoryReader, LinuxVmiError,
};
use crate::text::{cat3, dec, hex, owned, push_str, u64_to_dec, u64_to_hex};
use crate::vmi::VmiErrorKind;

verus! {

#[derive(Debug, Clone, PartialEq, Eq)]
pub struct LinuxSyscallEntry {
    pub number: u32,
    pub name: String,
    pub expected_symbol: Option<String>,
    pub handler: u64,
    pub owner: Option<String>,
}

pub struct LinuxSyscallEntryView {
    pub number: u32,
    pub name: Seq<char>,
    pub expected_symbol: Option<Seq<char>>,
    pub handler: u64,
    pub owner: Option<Seq<char>>,
}

impl View for LinuxSyscallEntry {
    type V = LinuxSyscallEntryView;

    open spec fn view(&self) -> LinuxSyscallEntryView {
        LinuxSyscallEntryView {
            number: self.number,
            name: self.name@,
            expected_symbol: opt_text(self.expected_symbol),
            handler: self.handler,
            owner: opt_text(self.owner),
        }
    }
}

#[derive(Debug, Clone, PartialEq, Eq)]
pub struct LinuxSyscallTableReport {
    pub ok: bool,
    pub table_address: u64,
    pub entries: Vec<LinuxSyscallEntry>,
    pub findings: Vec<String>,
}

#[derive(Debug, Clone, PartialEq, Eq)]
pub struct LinuxLstarReport {
    pub ok: bool,
    pub lstar: u64,
    pub expected_symbol: String,
    pub findings: Vec<String>,
}

/// Whether the system call path of a guest matched its profile.
#[derive(Debug, Clone, PartialEq, Eq)]
pub struct SyscallPathReport {
    pub ok: bool,
    pub os: String,
    pub entry: Option<u64>,
    pub table: Option<u64>,
    pub findings: Vec<String>,
}

pub open spec fn opt_text(t: Option<String>) -> Option<Seq<char>> {
    match t {
        Some(x) => Some(x@),
        None => None,
    }
}

pub open spec fn texts(v: Seq<String>) -> Seq<Seq<char>> {
    v.map_values(|x: String| x@)
}

/// What a table entry's handler belongs to: `vmlinux`, or `module:<name>`.
pub open spec fn handler_owner(ranges: Seq<LinuxTextRange>, handler: u64) -> Option<Seq<char>> {
    match text_range_index(ranges, handler, 0) {
        None => None,
        Some(i) => if ranges[i].owner@ == "vmlinux"@ {
            Some("vmlinux"@)
        } else {
            Some("module:"@ + ranges[i].owner@)
        },
    }
}

/// One syscall table entry and the finding it contributes.
pub struct SyscallStep {
    pub entry: LinuxSyscallEntryView,
    pub finding: Option<Seq<char>>,
}

/// The entries of the profile's syscalls `k..`.
pub open spec fn syscall_steps(
    m: Map<int, u8>,
    ranges: Seq<LinuxTextRange>,
    table: u64,
    calls: Seq<LinuxSyscall>,
    k: int,
    acc: Seq<SyscallStep>,
) -> Result<Seq<SyscallStep>, Fault>
    decreases calls.len() - k,
{
    if k < 0 || k >= calls.len() {
        Ok(acc)
    } else {
        let c = calls[k];
        if table + c.number * 8 > u64::MAX {
            Err(Fault::Of(VmiErrorKind::InconsistentSnapshot))
        } else {
            match u64_at(m, (table + c.number * 8) as u64) {
                None => Err(Fault::ReadFailed),
                Some(handler) => {
                    let owner = handler_owner(ranges, handler);
                    let step = SyscallStep {
                        entry: LinuxSyscallEntryView {
                            number: c.number,
                            name: c.name@,
                            expected_symbol: opt_text(c.symbol_name),
                            handler,
                            owner,
                        },
                        finding: if owner is None {
                            Some(
                                "syscall "@ + dec(c.number as nat) + " ("@ + c.name@ + ") handler 0x"@ + hex(
                                    handler as nat,
                                ) + " is outside executable kernel/module ranges"@,
                            )
                        } else {
                            None
                        },
                    };
                    syscall_steps(m, ranges, table, calls, k + 1, acc.push(step))
                },
            }
        }
    }
}

/// The syscall table's address and entries.
pub open spec fn syscall_table_of(p: LinuxProfile, m: Map<int, u8>, slide: u64, ranges: Seq<LinuxTextRange>) -> Result<
    (u64, Seq<SyscallStep>),
    Fault,
> {
    if p.syscalls@.len() == 0 || ranges.len() == 0 {
        Err(Fault::Of(VmiErrorKind::MissingProfile))
    } else {
        match slid_symbol_of(p, "sys_call_table"@, slide) {
            Err(f) => Err(f),
            Ok(table) => match syscall_steps(m, ranges, table, p.syscalls@, 0, Seq::empty()) {
                Err(f) => Err(f),
                Ok(steps) => Ok((table, steps)),
            },
        }
    }
}

pub open spec fn somes<T>(s: Seq<Option<T>>) -> Seq<T>
    decreases s.len(),
{
    if s.len() == 0 {
        Seq::empty()
    } else {
        let rest = somes(s.drop_last());
        match s.last() {
            Some(x) => rest.push(x),
            None => rest,
        }
    }
}

fn clone_opt(v: &Option<String>) -> (r: Option<String>)
    ensures
        opt_text(r) == opt_text(*v),
{
    match v {
        Some(s) => Some(owned(s.as_str())),
        None => None,
    }
}

fn missing(field: &str) -> (e: LinuxVmiError)
    ensures
        e.kind_of() == VmiErrorKind::MissingProfile,
{
    LinuxVmiError::MissingProfileField { field: owned(field) }
}

fn slid(p: &LinuxProfile, name: &str, slide: u64) -> (r: Result<u64, LinuxVmiError>)
    ensures
        match r {
            Ok(a) => slid_symbol_of(*p, name@, slide) == Ok::<u64, Fault>(a),
            Err(e) => slid_symbol_of(*p, name@, slide) matches Err(f) && fault_fits(e, f),
        },
{
    match p.symbol(name) {
        None => Err(LinuxVmiError::MissingProfileField { field: cat3("symbol:", name, "") }),
        Some(s) => {
            if s.virtual_address > u64::MAX - slide {
                Err(LinuxVmiError::InconsistentSnapshot { detail: cat3("symbol '", name, "' plus slide overflows u64") })
            } else {
                Ok(s.virtual_address + slide)
            }
        },
    }
}

/// Reads every syscall table entry of the profile and checks that each
/// handler lies in kernel or module text.
/// What inspecting the system call table returns.
pub open spec fn syscall_table_reported(
    profile: LinuxProfile,
    m: Map<int, u8>,
    slide: u64,
    ranges: Seq<LinuxTextRange>,
    r: Result<LinuxSyscallTableReport, LinuxVmiError>,
) -> bool {
    match r {
        Ok(rep) => syscall_table_of(profile, m, slide, ranges) matches Ok((table, steps)) && rep.table_address == table
            && rep.entries@.map_values(|e: LinuxSyscallEntry| e@) == steps.map_values(|s: SyscallStep| s.entry)
            && texts(rep.findings@) == somes(steps.map_values(|s: SyscallStep| s.finding)) && rep.ok == (
        rep.findings@.len() == 0),
        Err(e) => syscall_table_of(profile, m, slide, ranges) matches Err(f) && fault_fits(e, f),
    }
}

pub fn inspect_linux_syscall_table<M: LinuxVirtualMemoryReader>(
    profile: &LinuxProfile,
    memory: &M,
    slide: u64,
    executable_ranges: &[LinuxTextRange],
) -> (r: Result<LinuxSyscallTableReport, LinuxVmiError>)
    ensures
        syscall_table_reported(*profile, memory.mapped(), slide, executable_ranges@, r),
{
    let ghost m = memory.mapped();
    if profile.syscalls.len() == 0 {
        return Err(missing("syscall entries"));
    }
    if executable_ranges.len() == 0 {
        return Err(missing("executable text ranges"));
    }
    let table = slid(profile, "sys_call_table", slide)?;
    let ghost calls = profile.syscalls@;
    let mut entries: Vec<LinuxSyscallEntry> = Vec::new();
    let mut findings: Vec<String> = Vec::new();
    let ghost mut steps: Seq<SyscallStep> = Seq::empty();
    proof {
        assert(entries@.map_values(|e: LinuxSyscallEntry| e@) =~= steps.map_values(|s: SyscallStep| s.entry));
        assert(steps.map_values(|s: SyscallStep| s.finding) =~= Seq::<Option<Seq<char>>>::empty());
        assert(texts(findings@) =~= Seq::<Seq<char>>::empty());
    }
    let mut k: usize = 0;
    while k < profile.syscalls.len()
        invariant
            m == memory.mapped(),
            calls == profile.syscalls@,
            calls.len() > 0,
            executable_ranges@.len() > 0,
            slid_symbol_of(*profile, "sys_call_table"@, slide) == Ok::<u64, Fault>(table),
            k <= calls.len(),
            steps.len() == k,
            entries@.map_values(|e: LinuxSyscallEntry| e@) == steps.map_values(|s: SyscallStep| s.entry),
            texts(findings@) == somes(steps.map_values(|s: SyscallStep| s.finding)),
            syscall_steps(m, executable_ranges@, table, calls, k as int, steps) == syscall_steps(
                m,
                executable_ranges@,
                table,
                calls,
                0,
                Seq::empty(),
            ),
        decreases calls.len() - k,
    {
        let c = &profile.syscalls[k];
        let off = c.number as u64 * 8;
        if table > u64::MAX - off {
            let n = u64_to_dec(c.number as u64);
            return Err(
                LinuxVmiError::InconsistentSnapshot {
                    detail: cat3("sys_call_table entry ", n.as_str(), " address overflowed"),
                },
            );
        }
        let handler = read_u64(memory, table + off)?;
        let owner = match address_in_text_ranges(handler, executable_ranges) {
            None => None,
            Some(range) => {
                if crate::text::str_eq(range.owner.as_str(), "vmlinux") {
                    Some(owned("vmlinux"))
                } else {
                    let mut o = owned("module:");
                    push_str(&mut o, range.owner.as_str());
                    Some(o)
                }
            },
        };
        let finding = if owner.is_none() {
            let n = u64_to_dec(c.number as u64);
            let h = u64_to_hex(handler);
            let mut f = cat3("syscall ", n.as_str(), " (");
            push_str(&mut f, c.name.as_str());
            push_str(&mut f, ") handler 0x");
            push_str(&mut f, h.as_str());
            push_str(&mut f, " is outside executable kernel/module ranges");
            Some(f)
        } else {
            None
        };
        let entry = LinuxSyscallEntry {
            number: c.number,
            name: owned(c.name.as_str()),
            expected_symbol: clone_opt(&c.symbol_name),
            handler,
            owner,
        };
        let ghost step = SyscallStep { entry: entry@, finding: opt_text(finding) };
        proof {
            assert(entry@.owner == handler_owner(executable_ranges@, handler)) by {
                if entry@.owner is Some {
                    reveal_strlit("vmlinux");
                }
            }
        }
        let ghost old_e = entries@.map_values(|e: LinuxSyscallEntry| e@);
        let ghost old_f = texts(findings@);
        entries.push(entry);
        match finding {
            Some(x) => findings.push(x),
            None => {},
        }
        proof {
            let ns = steps.push(step);
            assert(ns.map_values(|s: SyscallStep| s.entry) =~= old_e.push(step.entry));
            assert(entries@.map_values(|e: LinuxSyscallEntry| e@) =~= old_e.push(step.entry));
            assert(ns.map_values(|s: SyscallStep| s.finding).drop_last() =~= steps.map_values(|s: SyscallStep| s.finding));
            if step.finding is Some {
                assert(texts(findings@) =~= old_f.push(step.finding->0));
            } else {
                assert(texts(findings@) =~= old_f);
            }
            steps = ns;
        }
        k = k + 1;
    }
    let ok = findings.len() == 0;
    Ok(LinuxSyscallTableReport { ok, table_address: table, entries, findings })
}

/// The findings about an `MSR_LSTAR` value: outside `entry_SYSCALL_64`'s
/// range (its size, else one byte), and outside every executable range.
pub open spec fn lstar_findings(start: u64, end: int, lstar: u64, ranges: Seq<LinuxTextRange>) -> Seq<Seq<char>> {
    let a: Seq<Seq<char>> = if !(start <= lstar && lstar < end) {
        seq![
            "MSR_LSTAR target 0x"@ + hex(lstar as nat) + " is outside entry_SYSCALL_64 range 0x"@ + hex(
                start as nat,
            ) + "..0x"@ + hex(end as nat),
        ]
    } else {
        Seq::empty()
    };
    let b: Seq<Seq<char>> = if text_range_index(ranges, lstar, 0) is None {
        seq!["MSR_LSTAR target 0x"@ + hex(lstar as nat) + " is outside executable kernel/module ranges"@]
    } else {
        Seq::empty()
    };
    a + b
}

/// The expected range of `entry_SYSCALL_64`: its start with the slide,
/// and its end.
pub open spec fn lstar_range_of(p: LinuxProfile, slide: u64) -> Result<(u64, int), Fault> {
    match symbol_of(p, "entry_SYSCALL_64"@) {
        None => Err(Fault::Of(VmiErrorKind::MissingProfile)),
        Some(s) => if s.virtual_address + slide > u64::MAX {
            Err(Fault::Of(VmiErrorKind::InconsistentSnapshot))
        } else {
            let start = s.virtual_address + slide;
            let size = match s.size {
                Some(z) => z as int,
                None => 1,
            };
            if start + size > u64::MAX {
                Err(Fault::Of(VmiErrorKind::InconsistentSnapshot))
            } else {
                Ok((start as u64, start + size))
            }
        },
    }
}

/// Checks the `MSR_LSTAR` value against `entry_SYSCALL_64` and the
/// executable text ranges.
/// What inspecting the system call entry register returns.
pub open spec fn lstar_reported(
    profile: LinuxProfile,
    lstar: u64,
    slide: u64,
    ranges: Seq<LinuxTextRange>,
    r: Result<LinuxLstarReport, LinuxVmiError>,
) -> bool {
    match r {
        Ok(rep) => lstar_range_of(profile, slide) matches Ok((start, end)) && rep.lstar == lstar
            && rep.expected_symbol@ == "entry_SYSCALL_64"@ && texts(rep.findings@) == lstar_findings(start, end, lstar, ranges)
            && rep.ok == (rep.findings@.len() == 0),
        Err(e) => lstar_range_of(profile, slide) matches Err(f) && fault_fits(e, f),
    }
}

pub fn inspect_linux_lstar(profile: &LinuxProfile, lstar: u64, slide: u64, executable_ranges: &[LinuxTextRange]) -> (r:
    Result<LinuxLstarReport, LinuxVmiError>)
    ensures
        lstar_reported(*profile, lstar, slide, executable_ranges@, r),
{
    let expected = match profile.symbol("entry_SYSCALL_64") {
        None => {
            return Err(missing("symbol:entry_SYSCALL_64"));
        },
        Some(s) => s,
    };
    if expected.virtual_address > u64::MAX - slide {
        return Err(
            LinuxVmiError::InconsistentSnapshot { detail: owned("entry_SYSCALL_64 plus KASLR slide overflows u64") },
        );
    }
    let start = expected.virtual_address + slide;
    let size = match expected.size {
        Some(z) => z,
        None => 1,
    };
    if start > u64::MAX - size {
        return Err(
            LinuxVmiError::InconsistentSnapshot {
                detail: cat3("symbol '", expected.name.as_str(), "' range overflows u64"),
            },
        );
    }
    let end = start + size;
    let mut findings: Vec<String> = Vec::new();
    let lh = u64_to_hex(lstar);
    if !(start <= lstar && lstar < end) {
        let sh = u64_to_hex(start);
        let eh = u64_to_hex(end);
        let mut f = cat3("MSR_LSTAR target 0x", lh.as_str(), " is outside entry_SYSCALL_64 range 0x");
        push_str(&mut f, sh.as_str());
        push_str(&mut f, "..0x");
        push_str(&mut f, eh.as_str());
        findings.push(f);
    }
    let ghost a = texts(findings@);
    if address_in_text_ranges(lstar, executable_ranges).is_none() {
        findings.push(cat3("MSR_LSTAR target 0x", lh.as_str(), " is outside executable kernel/module ranges"));
    }
    proof {
        let want = lstar_findings(start, end as int, lstar, executable_ranges@);
        if text_range_index(executable_ranges@, lstar, 0) is None {
            assert(texts(findings@) =~= a.push(texts(findings@).last()));
        } else {
            assert(texts(findings@) =~= a);
        }
        assert(texts(findings@) =~= want);
    }
    let ok = findings.len() == 0;
    Ok(LinuxLstarReport { ok, lstar, expected_symbol: owned("entry_SYSCALL_64"), findings })
}

fn clone_texts(v: &Vec<String>) -> (r: Vec<String>)
    ensures
        texts(r@) == texts(v@),
{
    let mut out: Vec<String> = Vec::new();
    let mut i: usize = 0;
    while i < v.len()
        invariant
            i <= v@.len(),
            texts(out@) == texts(v@).take(i as int),
        decreases v@.len() - i,
    {
        let x = owned(v[i].as_str());
        let ghost before = texts(out@);
        out.push(x);
        assert(texts(out@) =~= before.push(x@));
        assert(texts(v@).take(i as int + 1) =~= texts(v@).take(i as int).push(texts(v@)[i as int]));
        i = i + 1;
    }
    assert(texts(v@).take(v@.len() as int) =~= texts(v@));
    out
}

/// The findings of a syscall path report: the `MSR_LSTAR` findings, then
/// the table's; when there is none, one line that the path matched.
pub open spec fn path_findings(p: LinuxProfile, table: Seq<String>, lstar: Seq<String>) -> Seq<Seq<char>> {
    let all = texts(lstar) + texts(table);
    if all.len() == 0 {
        seq!["linux syscall path matched profile "@ + p.kernel_release@]
    } else {
        all
    }
}

/// Combines the syscall table and `MSR_LSTAR` reports.
pub fn linux_syscall_path_report(
    profile: &LinuxProfile,
    table: &LinuxSyscallTableReport,
    lstar: &LinuxLstarReport,
) -> (r: SyscallPathReport)
    ensures
        r.ok == (lstar.findings@.len() + table.findings@.len() == 0),
        r.os@ == "linux"@,
        r.entry == Some(lstar.lstar),
        r.table == Some(table.table_address),
        texts(r.findings@) == path_findings(*profile, table.findings@, lstar.findings@),
{
    let mut findings = clone_texts(&lstar.findings);
    let more = clone_texts(&table.findings);
    let ghost a = texts(findings@);
    let mut i: usize = 0;
    while i < more.len()
        invariant
            i <= more@.len(),
            texts(findings@) == a + texts(more@).take(i as int),
        decreases more@.len() - i,
    {
        let x = owned(more[i].as_str());
        let ghost before = texts(findings@);
        findings.push(x);
        assert(texts(findings@) =~= before.push(x@));
        assert(texts(more@).take(i as int + 1) =~= texts(more@).take(i as int).push(texts(more@)[i as int]));
        assert(texts(findings@) =~= a + texts(more@).take(i as int + 1));
        i = i + 1;
    }
    assert(texts(more@).take(more@.len() as int) =~= texts(more@));
    let ok = findings.len() == 0;
    let findings = if ok {
        let mut v: Vec<String> = Vec::new();
        let mut line = owned("linux syscall path matched profile ");
        push_str(&mut line, profile.kernel_release.as_str());
        v.push(line);
        v
    } else {
        findings
    };
    proof {
        if ok {
            assert(texts(findings@) =~= seq![texts(findings@)[0]]);
        }
    }
    SyscallPathReport { ok, os: owned("linux"), entry: Some(lstar.lstar), table: Some(table.table_address), findings }
}

} // verus!
