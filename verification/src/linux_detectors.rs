//! All Linux guest checks in one run: syscall table, LSTAR, control
//! registers and kernel and module text hashes, with their findings tagged
//! by the check that raised them.
use vstd::prelude::*;
use crate::linux_integrity::{
    check_linux_kernel_text_hash, check_linux_module_text_hashes, hashes_checked, LinuxIntegrityReport,
};
use crate::linux_syscall::{
    inspect_linux_lstar, inspect_linux_syscall_table, linux_syscall_path_report, lstar_reported, path_findings,
    syscall_table_reported, texts, LinuxLstarReport, LinuxSyscallTableReport, SyscallPathReport,
};
use crate::linux_vmi::{LinuxProfile, LinuxTextRange, LinuxVirtualMemoryReader, LinuxVmiError};
use crate::linux_x86::{control_findings, inspect_linux_control_registers, LinuxControlPolicy, LinuxControlReport};
use crate::text::owned;

verus! {

/// What one run of the Linux checks reads: the profile, guest memory, the
/// register values it inspects, the KASLR slide, the executable ranges and
/// the text hash baselines.
pub struct LinuxDetectorInputs<'a, M: LinuxVirtualMemoryReader> {
    pub profile: &'a LinuxProfile,
    pub memory: &'a M,
    pub lstar: u64,
    pub cr0: u64,
    pub cr4: u64,
    pub efer: u64,
    pub slide: u64,
    pub executable_ranges: &'a [LinuxTextRange],
    pub kernel_text_baselines: &'a Vec<(String, String)>,
    pub module_text_baselines: &'a Vec<(String, String)>,
    pub control_policy: LinuxControlPolicy,
}

/// One check's outcome and how many findings it raised.
#[derive(Debug, Clone, PartialEq, Eq)]
pub struct LinuxDetectorCheck {
    pub name: &'static str,
    pub ok: bool,
    pub finding_count: usize,
}

/// A finding and the check that raised it.
#[derive(Debug, Clone, PartialEq, Eq)]
pub struct LinuxDetectorFinding {
    pub check: &'static str,
    pub detail: String,
}

#[derive(Debug, Clone, PartialEq, Eq)]
pub struct LinuxDetectorRun {
    pub ok: bool,
    pub checks: Vec<LinuxDetectorCheck>,
    pub findings: Vec<LinuxDetectorFinding>,
    pub syscall_table: LinuxSyscallTableReport,
    pub lstar: LinuxLstarReport,
    pub syscall_path: SyscallPathReport,
    pub controls: LinuxControlReport,
    pub kernel_text: LinuxIntegrityReport,
    pub module_text: LinuxIntegrityReport,
}

pub open spec fn finding_view(f: LinuxDetectorFinding) -> (Seq<char>, Seq<char>) {
    (f.check@, f.detail@)
}

pub open spec fn check_view(c: LinuxDetectorCheck) -> (Seq<char>, bool, usize) {
    (c.name@, c.ok, c.finding_count)
}

/// Findings tagged with the check that raised them.
pub open spec fn tagged(check: Seq<char>, fs: Seq<Seq<char>>) -> Seq<(Seq<char>, Seq<char>)> {
    fs.map_values(|d: Seq<char>| (check, d))
}

/// The kernel's own text ranges.
pub open spec fn kernel_ranges(ranges: Seq<LinuxTextRange>) -> Seq<LinuxTextRange> {
    ranges.filter(|x: LinuxTextRange| x.owner@ == "vmlinux"@)
}

/// The module text ranges.
pub open spec fn module_ranges(ranges: Seq<LinuxTextRange>) -> Seq<LinuxTextRange> {
    ranges.filter(|x: LinuxTextRange| x.owner@ != "vmlinux"@)
}

/// A run's findings: LSTAR, syscall table, control registers, kernel text
/// and module text, each tagged, in that order.
pub open spec fn run_findings(run: LinuxDetectorRun) -> Seq<(Seq<char>, Seq<char>)> {
    tagged("lstar"@, texts(run.lstar.findings@)) + tagged("syscall_table"@, texts(run.syscall_table.findings@))
        + tagged("control_registers"@, texts(run.controls.findings@)) + tagged(
        "kernel_text_hash"@,
        texts(run.kernel_text.findings@),
    ) + tagged("module_text_hash"@, texts(run.module_text.findings@))
}

/// A run's checks, one per report, in the same order.
pub open spec fn run_checks(run: LinuxDetectorRun) -> Seq<(Seq<char>, bool, usize)> {
    seq![
        ("lstar"@, run.lstar.ok, run.lstar.findings@.len() as usize),
        ("syscall_table"@, run.syscall_table.ok, run.syscall_table.findings@.len() as usize),
        ("control_registers"@, run.controls.ok, run.controls.findings@.len() as usize),
        ("kernel_text_hash"@, run.kernel_text.ok, run.kernel_text.findings@.len() as usize),
        ("module_text_hash"@, run.module_text.ok, run.module_text.findings@.len() as usize),
    ]
}

/// Every report of a successful run is what its check gives on the inputs,
/// and the summary is built from them.
pub open spec fn run_reported<M: LinuxVirtualMemoryReader>(
    i: LinuxDetectorInputs<M>,
    run: LinuxDetectorRun,
) -> bool {
    &&& syscall_table_reported(*i.profile, i.memory.mapped(), i.slide, i.executable_ranges@, Ok(run.syscall_table))
    &&& lstar_reported(*i.profile, i.lstar, i.slide, i.executable_ranges@, Ok(run.lstar))
    &&& texts(run.controls.findings@) == control_findings(i.cr0, i.cr4, i.efer, i.control_policy)
    &&& run.controls.ok == (run.controls.findings@.len() == 0)
    &&& hashes_checked(i.memory, kernel_ranges(i.executable_ranges@), i.kernel_text_baselines@, Ok(run.kernel_text))
    &&& hashes_checked(i.memory, module_ranges(i.executable_ranges@), i.module_text_baselines@, Ok(run.module_text))
    &&& run.syscall_path.ok == (run.lstar.findings@.len() + run.syscall_table.findings@.len() == 0)
    &&& run.syscall_path.os@ == "linux"@
    &&& run.syscall_path.entry == Some(run.lstar.lstar)
    &&& run.syscall_path.table == Some(run.syscall_table.table_address)
    &&& texts(run.syscall_path.findings@) == path_findings(
        *i.profile,
        run.syscall_table.findings@,
        run.lstar.findings@,
    )
    &&& run.findings@.map_values(|f: LinuxDetectorFinding| finding_view(f)) == run_findings(run)
    &&& run.checks@.map_values(|c: LinuxDetectorCheck| check_view(c)) == run_checks(run)
    &&& run.ok == (run_findings(run).len() == 0)
}

/// The module text check failed with `e`.
pub open spec fn module_text_failed<M: LinuxVirtualMemoryReader>(i: LinuxDetectorInputs<M>, e: LinuxVmiError) -> bool {
    hashes_checked(i.memory, module_ranges(i.executable_ranges@), i.module_text_baselines@, Err(e))
}

/// The kernel text check failed with `e`, or succeeded and the module text
/// check failed with it.
pub open spec fn text_hashes_failed<M: LinuxVirtualMemoryReader>(i: LinuxDetectorInputs<M>, e: LinuxVmiError) -> bool {
    ||| hashes_checked(i.memory, kernel_ranges(i.executable_ranges@), i.kernel_text_baselines@, Err(e))
    ||| (exists|k: LinuxIntegrityReport| #[trigger]
        hashes_checked(i.memory, kernel_ranges(i.executable_ranges@), i.kernel_text_baselines@, Ok(k)))
        && module_text_failed(i, e)
}

/// The LSTAR check failed with `e`, or succeeded and a text check failed.
pub open spec fn lstar_or_later_failed<M: LinuxVirtualMemoryReader>(i: LinuxDetectorInputs<M>, e: LinuxVmiError) -> bool {
    ||| lstar_reported(*i.profile, i.lstar, i.slide, i.executable_ranges@, Err(e))
    ||| (exists|l: LinuxLstarReport| #[trigger] lstar_reported(*i.profile, i.lstar, i.slide, i.executable_ranges@, Ok(l)))
        && text_hashes_failed(i, e)
}

/// The error of a failed run is the error of the first check that failed;
/// the checks before it succeeded.
pub open spec fn run_failed<M: LinuxVirtualMemoryReader>(i: LinuxDetectorInputs<M>, e: LinuxVmiError) -> bool {
    ||| syscall_table_reported(*i.profile, i.memory.mapped(), i.slide, i.executable_ranges@, Err(e))
    ||| (exists|t: LinuxSyscallTableReport| #[trigger]
        syscall_table_reported(*i.profile, i.memory.mapped(), i.slide, i.executable_ranges@, Ok(t)))
        && lstar_or_later_failed(i, e)
}

fn add_findings(out: &mut Vec<LinuxDetectorFinding>, check: &'static str, fs: &Vec<String>)
    ensures
        final(out)@.map_values(|f: LinuxDetectorFinding| finding_view(f)) == old(out)@.map_values(
            |f: LinuxDetectorFinding| finding_view(f),
        ) + tagged(check@, texts(fs@)),
{
    let ghost start = old(out)@.map_values(|f: LinuxDetectorFinding| finding_view(f));
    let mut i: usize = 0;
    while i < fs.len()
        invariant
            i <= fs@.len(),
            out@.map_values(|f: LinuxDetectorFinding| finding_view(f)) == start + tagged(
                check@,
                texts(fs@),
            ).take(i as int),
        decreases fs@.len() - i,
    {
        let detail = owned(fs[i].as_str());
        let ghost prev = out@;
        let f = LinuxDetectorFinding { check, detail };
        assert(finding_view(f) == tagged(check@, texts(fs@))[i as int]);
        out.push(f);
        assert(out@ == prev.push(f));
        assert(out@.map_values(|f: LinuxDetectorFinding| finding_view(f)) =~= prev.map_values(
            |f: LinuxDetectorFinding| finding_view(f),
        ).push(finding_view(f)));
        i = i + 1;
        assert(out@.map_values(|f: LinuxDetectorFinding| finding_view(f)) =~= start + tagged(
            check@,
            texts(fs@),
        ).take(i as int));
    }
    assert(tagged(check@, texts(fs@)).take(fs@.len() as int) =~= tagged(check@, texts(fs@)));
}

fn detector_check(name: &'static str, ok: bool, finding_count: usize) -> (r: LinuxDetectorCheck)
    ensures
        check_view(r) == (name@, ok, finding_count),
{
    LinuxDetectorCheck { name, ok, finding_count }
}

/// Runs every Linux check on one snapshot. Fails with the error of the
/// first check that cannot run; otherwise reports each check and the
/// findings of all of them, and is ok when none raised a finding.
pub fn run_linux_detector_checks<M: LinuxVirtualMemoryReader>(inputs: LinuxDetectorInputs<M>) -> (r: Result<
    LinuxDetectorRun,
    LinuxVmiError,
>)
    requires
        forall|k: int|
            0 <= k < inputs.executable_ranges@.len() ==> (#[trigger] inputs.executable_ranges@[k]).end
                - inputs.executable_ranges@[k].start < 0x2000_0000_0000_0000,
    ensures
        match r {
            Ok(run) => run_reported(inputs, run),
            Err(e) => run_failed(inputs, e),
        },
{
    let syscall_table = match inspect_linux_syscall_table(
        inputs.profile,
        inputs.memory,
        inputs.slide,
        inputs.executable_ranges,
    ) {
        Ok(t) => t,
        Err(e) => {
            return Err(e);
        },
    };
    let lstar = match inspect_linux_lstar(inputs.profile, inputs.lstar, inputs.slide, inputs.executable_ranges) {
        Ok(l) => l,
        Err(e) => {
            return Err(e);
        },
    };
    let syscall_path = linux_syscall_path_report(inputs.profile, &syscall_table, &lstar);
    let controls = inspect_linux_control_registers(inputs.cr0, inputs.cr4, inputs.efer, inputs.control_policy);
    let kernel_text = match check_linux_kernel_text_hash(
        inputs.memory,
        inputs.executable_ranges,
        inputs.kernel_text_baselines,
    ) {
        Ok(k) => k,
        Err(e) => {
            return Err(e);
        },
    };
    let module_text = match check_linux_module_text_hashes(
        inputs.memory,
        inputs.executable_ranges,
        inputs.module_text_baselines,
    ) {
        Ok(k) => k,
        Err(e) => {
            return Err(e);
        },
    };
    let mut findings: Vec<LinuxDetectorFinding> = Vec::new();
    assert(findings@.map_values(|f: LinuxDetectorFinding| finding_view(f)) =~= Seq::empty());
    add_findings(&mut findings, "lstar", &lstar.findings);
    add_findings(&mut findings, "syscall_table", &syscall_table.findings);
    add_findings(&mut findings, "control_registers", &controls.findings);
    add_findings(&mut findings, "kernel_text_hash", &kernel_text.findings);
    add_findings(&mut findings, "module_text_hash", &module_text.findings);
    let mut checks: Vec<LinuxDetectorCheck> = Vec::new();
    checks.push(detector_check("lstar", lstar.ok, lstar.findings.len()));
    checks.push(detector_check("syscall_table", syscall_table.ok, syscall_table.findings.len()));
    checks.push(detector_check("control_registers", controls.ok, controls.findings.len()));
    checks.push(detector_check("kernel_text_hash", kernel_text.ok, kernel_text.findings.len()));
    checks.push(detector_check("module_text_hash", module_text.ok, module_text.findings.len()));
    let ok = findings.len() == 0;
    let run = LinuxDetectorRun {
        ok,
        checks,
        findings,
        syscall_table,
        lstar,
        syscall_path,
        controls,
        kernel_text,
        module_text,
    };
    proof {
        assert(run.findings@.map_values(|f: LinuxDetectorFinding| finding_view(f)) =~= run_findings(run));
        assert(run.checks@.map_values(|c: LinuxDetectorCheck| check_view(c)) =~= run_checks(run));
    }
    Ok(run)
}

} // verus!
