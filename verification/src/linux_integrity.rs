//! Linux kernel and module text hash checks: the SHA-256 of each text range
//! in guest memory against its known-good baseline.
use vstd::prelude::*;
use crate::linux_vmi::{
    bytes_at, readable, LinuxTextRange, LinuxVirtualMemoryReader, LinuxVmiError,
};
use crate::sha256::{hex_bytes, sha256, sha256_hex};
use crate::text::{ascii_lower, cat3, chars_eq, owned, push_str, to_ascii_lower};

verus! {

#[derive(Debug, Clone, Copy, PartialEq, Eq, Structural)]
pub enum LinuxTextHashStatus {
    Match,
    Mismatch,
    UnknownBaseline,
}

impl LinuxTextHashStatus {
    pub open spec fn name(self) -> Seq<char> {
        match self {
            LinuxTextHashStatus::Match => "match"@,
            LinuxTextHashStatus::Mismatch => "mismatch"@,
            LinuxTextHashStatus::UnknownBaseline => "unknown_baseline"@,
        }
    }

    pub fn as_str(self) -> (r: &'static str)
        ensures
            r@ == self.name(),
    {
        match self {
            LinuxTextHashStatus::Match => "match",
            LinuxTextHashStatus::Mismatch => "mismatch",
            LinuxTextHashStatus::UnknownBaseline => "unknown_baseline",
        }
    }
}

#[derive(Debug, Clone, PartialEq, Eq)]
pub struct LinuxTextHashResult {
    pub owner: String,
    pub start: u64,
    pub end: u64,
    pub sha256: String,
    pub expected_sha256: Option<String>,
    pub status: LinuxTextHashStatus,
}

#[derive(Debug, Clone, PartialEq, Eq)]
pub struct LinuxIntegrityReport {
    pub ok: bool,
    pub results: Vec<LinuxTextHashResult>,
    pub findings: Vec<String>,
}

/// The hex SHA-256 of the `end - start` bytes at `start`.
pub open spec fn range_hash(m: Map<int, u8>, start: u64, end: u64) -> Seq<char> {
    hex_bytes(sha256(bytes_at(m, start, (end - start) as nat)))
}

/// The baseline recorded for `owner`: the first entry with that owner.
pub open spec fn baseline_of(b: Seq<(String, String)>, owner: Seq<char>) -> Option<Seq<char>>
    decreases b.len(),
{
    if b.len() == 0 {
        None
    } else if b[0].0@ == owner {
        Some(b[0].1@)
    } else {
        baseline_of(b.drop_first(), owner)
    }
}

/// The status of a range with hash `h` against baseline `expected`: a
/// match ignores ASCII case.
pub open spec fn status_of(h: Seq<char>, expected: Option<Seq<char>>) -> LinuxTextHashStatus {
    match expected {
        Some(v) => if ascii_lower(v) == ascii_lower(h) {
            LinuxTextHashStatus::Match
        } else {
            LinuxTextHashStatus::Mismatch
        },
        None => LinuxTextHashStatus::UnknownBaseline,
    }
}

/// The result for one range whose bytes are mapped.
pub open spec fn result_for(m: Map<int, u8>, r: LinuxTextRange, b: Seq<(String, String)>, x: LinuxTextHashResult) -> bool {
    let h = range_hash(m, r.start, r.end);
    &&& x.owner@ == r.owner@
    &&& x.start == r.start
    &&& x.end == r.end
    &&& x.sha256@ == h
    &&& (match x.expected_sha256 {
        Some(e) => Some(e@),
        None => None,
    }) == baseline_of(b, r.owner@)
    &&& x.status == status_of(h, baseline_of(b, r.owner@))
}

/// The finding of a range that does not match.
pub open spec fn finding_for(owner: Seq<char>, status: LinuxTextHashStatus) -> Seq<char> {
    "text range '"@ + owner + "' hash status is "@ + status.name()
}

/// The findings of the results, in order: one per range that does not match.
pub open spec fn findings_of(rs: Seq<LinuxTextHashResult>) -> Seq<Seq<char>>
    decreases rs.len(),
{
    if rs.len() == 0 {
        Seq::empty()
    } else {
        let f = findings_of(rs.drop_last());
        if rs.last().status == LinuxTextHashStatus::Match {
            f
        } else {
            f.push(finding_for(rs.last().owner@, rs.last().status))
        }
    }
}

/// The range can be hashed: it is not empty and its bytes are mapped.
pub open spec fn range_ok(m: Map<int, u8>, r: LinuxTextRange) -> bool {
    r.start < r.end && readable(m, r.start, (r.end - r.start) as nat)
}

/// Reads the bytes of `[start, end)` in chunks of at most 4096.
fn read_range<M: LinuxVirtualMemoryReader>(memory: &M, start: u64, end: u64) -> (r: Result<Vec<u8>, LinuxVmiError>)
    requires
        start < end,
    ensures
        match r {
            Ok(b) => readable(memory.mapped(), start, (end - start) as nat) && b@ == bytes_at(
                memory.mapped(),
                start,
                (end - start) as nat,
            ),
            Err(e) => !readable(memory.mapped(), start, (end - start) as nat) && exists|c: u64, l: usize|
                start <= c < end && #[trigger] memory.read_failure(c, l, e),
        },
{
    let ghost m = memory.mapped();
    let mut out: Vec<u8> = Vec::new();
    let mut cursor = start;
    while cursor < end
        invariant
            start <= cursor <= end,
            m == memory.mapped(),
            out@.len() == cursor - start,
            forall|k: int| 0 <= k < out@.len() ==> #[trigger] out@[k] == m[start + k],
            forall|a: int| start <= a < cursor ==> #[trigger] m.dom().contains(a),
        decreases end - cursor,
    {
        let left = end - cursor;
        let chunk: usize = if left < 4096 { left as usize } else { 4096 };
        match memory.read_virtual(cursor, chunk) {
            Ok(bytes) => {
                let ghost before = out@;
                let mut j: usize = 0;
                while j < bytes.len()
                    invariant
                        j <= bytes@.len(),
                        bytes@.len() == chunk,
                        out@.len() == before.len() + j,
                        forall|k: int| 0 <= k < before.len() ==> #[trigger] out@[k] == before[k],
                        forall|k: int| 0 <= k < j ==> #[trigger] out@[before.len() + k] == bytes@[k],
                    decreases bytes@.len() - j,
                {
                    out.push(bytes[j]);
                    j = j + 1;
                }
                proof {
                    assert(bytes@ == bytes_at(m, cursor, chunk as nat));
                    assert forall|k: int| 0 <= k < out@.len() implies #[trigger] out@[k] == m[start + k] by {
                        if k >= before.len() {
                            assert(out@[before.len() + (k - before.len())] == bytes@[k - before.len()]);
                        }
                    }
                    assert forall|a: int| start <= a < cursor + chunk implies #[trigger] m.dom().contains(a) by {
                        if a >= cursor {
                            assert(readable(m, cursor, chunk as nat));
                        }
                    }
                }
                cursor = cursor + chunk as u64;
            },
            Err(e) => {
                proof {
                    if readable(m, start, (end - start) as nat) {
                        assert(readable(m, cursor, chunk as nat));
                    }
                }
                return Err(e);
            },
        }
    }
    assert(out@ =~= bytes_at(m, start, (end - start) as nat));
    Ok(out)
}

fn baseline_lookup(b: &Vec<(String, String)>, owner: &str) -> (r: Option<String>)
    ensures
        match r {
            Some(v) => baseline_of(b@, owner@) == Some(v@),
            None => baseline_of(b@, owner@) is None,
        },
{
    let mut i: usize = 0;
    assert(b@.skip(0) =~= b@);
    while i < b.len()
        invariant
            i <= b@.len(),
            baseline_of(b@.skip(i as int), owner@) == baseline_of(b@, owner@),
        decreases b@.len() - i,
    {
        proof {
            assert(b@.skip(i as int)[0] == b@[i as int]);
            assert(b@.skip(i as int).drop_first() =~= b@.skip(i + 1));
        }
        if crate::text::str_eq(b[i].0.as_str(), owner) {
            return Some(owned(b[i].1.as_str()));
        }
        i = i + 1;
    }
    None
}

/// What a hash check of `ranges` against baselines `b` returns.
pub open spec fn hashes_checked<M: LinuxVirtualMemoryReader>(
    memory: &M,
    ranges: Seq<LinuxTextRange>,
    b: Seq<(String, String)>,
    r: Result<LinuxIntegrityReport, LinuxVmiError>,
) -> bool {
        match r {
            Ok(rep) => {
                &&& forall|i: int| 0 <= i < ranges.len() ==> range_ok(memory.mapped(), #[trigger] ranges[i])
                &&& rep.results@.len() == ranges.len()
                &&& forall|i: int| 0 <= i < ranges.len() ==> result_for(memory.mapped(), ranges[i], b, #[trigger] rep.results@[i])
                &&& views_of(rep.findings@) == findings_of(rep.results@)
                &&& rep.ok == (rep.findings@.len() == 0)
            },
            Err(e) => exists|i: int| {
                &&& 0 <= i < ranges.len()
                &&& forall|j: int| 0 <= j < i ==> range_ok(memory.mapped(), #[trigger] ranges[j])
                &&& if (#[trigger] ranges[i]).end <= ranges[i].start {
                    e matches LinuxVmiError::InconsistentSnapshot { detail } && detail@ == "text range '"@
                        + ranges[i].owner@ + "' is empty or inverted"@
                } else {
                    !readable(memory.mapped(), ranges[i].start, (ranges[i].end - ranges[i].start) as nat)
                        && exists|c: u64, l: usize| ranges[i].start <= c < ranges[i].end && #[trigger] memory.read_failure(c, l, e)
                }
            },
        }
}

/// Hashes each text range and compares it with its baseline. An empty or
/// inverted range, or one that cannot be read, stops the check with its
/// error; ranges before it were fine.
pub fn check_text_hashes<M: LinuxVirtualMemoryReader>(
    memory: &M,
    ranges: &[LinuxTextRange],
    baselines: &Vec<(String, String)>,
) -> (r: Result<LinuxIntegrityReport, LinuxVmiError>)
    requires
        forall|i: int| 0 <= i < ranges@.len() ==> (#[trigger] ranges@[i]).end - ranges@[i].start < 0x2000_0000_0000_0000,
    ensures
        hashes_checked(memory, ranges@, baselines@, r),
{
    let ghost m = memory.mapped();
    let mut results: Vec<LinuxTextHashResult> = Vec::new();
    let mut findings: Vec<String> = Vec::new();
    let mut i: usize = 0;
    while i < ranges.len()
        invariant
            i <= ranges@.len(),
            m == memory.mapped(),
            forall|q: int| 0 <= q < ranges@.len() ==> (#[trigger] ranges@[q]).end - ranges@[q].start < 0x2000_0000_0000_0000,
            forall|j: int| 0 <= j < i ==> range_ok(m, #[trigger] ranges@[j]),
            results@.len() == i,
            forall|j: int| 0 <= j < i ==> result_for(m, ranges@[j], baselines@, #[trigger] results@[j]),
            views_of(findings@) == findings_of(results@),
        decreases ranges@.len() - i,
    {
        let range = &ranges[i];
        if range.end <= range.start {
            return Err(LinuxVmiError::InconsistentSnapshot {
                detail: cat3("text range '", range.owner.as_str(), "' is empty or inverted"),
            });
        }
        let bytes = match read_range(memory, range.start, range.end) {
            Ok(b) => b,
            Err(e) => {
                return Err(e);
            },
        };
        let sha = sha256_hex(bytes.as_slice());
        let expected = baseline_lookup(baselines, range.owner.as_str());
        let status = match &expected {
            Some(v) => {
                let a = to_ascii_lower(v.as_str());
                let b = to_ascii_lower(sha.as_str());
                if chars_eq(a.as_slice(), b.as_slice()) {
                    LinuxTextHashStatus::Match
                } else {
                    LinuxTextHashStatus::Mismatch
                }
            },
            None => LinuxTextHashStatus::UnknownBaseline,
        };
        let ghost before = results@;
        let ghost fbefore = views_of(findings@);
        if status != LinuxTextHashStatus::Match {
            let mut f = cat3("text range '", range.owner.as_str(), "' hash status is ");
            push_str(&mut f, status.as_str());
            findings.push(f);
        }
        let res = LinuxTextHashResult {
            owner: owned(range.owner.as_str()),
            start: range.start,
            end: range.end,
            sha256: sha,
            expected_sha256: expected,
            status,
        };
        results.push(res);
        proof {
            assert(results@.drop_last() =~= before);
            assert(views_of(findings@) =~= findings_of(results@));
            assert forall|j: int| 0 <= j < i + 1 implies result_for(m, ranges@[j], baselines@, #[trigger] results@[j]) by {
                if j < i {
                    assert(results@[j] == before[j]);
                }
            }
        }
        i = i + 1;
    }
    let ok = findings.len() == 0;
    Ok(LinuxIntegrityReport { ok, results, findings })
}

/// Checks the kernel's own text ranges.
pub fn check_linux_kernel_text_hash<M: LinuxVirtualMemoryReader>(
    memory: &M,
    ranges: &[LinuxTextRange],
    baselines: &Vec<(String, String)>,
) -> (r: Result<LinuxIntegrityReport, LinuxVmiError>)
    requires
        forall|i: int| 0 <= i < ranges@.len() ==> (#[trigger] ranges@[i]).end - ranges@[i].start < 0x2000_0000_0000_0000,
    ensures
        hashes_checked(memory, ranges@.filter(|x: LinuxTextRange| x.owner@ == "vmlinux"@), baselines@, r),
{
    let k = kernel_text_ranges(ranges);
    proof {
        broadcast use vstd::seq_lib::group_filter_ensures;
        assert forall|i: int| 0 <= i < k@.len() implies (#[trigger] k@[i]).end - k@[i].start < 0x2000_0000_0000_0000 by {
            assert(k@.contains(k@[i]));
            ranges@.lemma_filter_contains_rev(|x: LinuxTextRange| x.owner@ == "vmlinux"@, k@[i]);
        }
    }
    check_text_hashes(memory, k.as_slice(), baselines)
}

/// Checks the module text ranges.
pub fn check_linux_module_text_hashes<M: LinuxVirtualMemoryReader>(
    memory: &M,
    ranges: &[LinuxTextRange],
    baselines: &Vec<(String, String)>,
) -> (r: Result<LinuxIntegrityReport, LinuxVmiError>)
    requires
        forall|i: int| 0 <= i < ranges@.len() ==> (#[trigger] ranges@[i]).end - ranges@[i].start < 0x2000_0000_0000_0000,
    ensures
        hashes_checked(memory, ranges@.filter(|x: LinuxTextRange| x.owner@ != "vmlinux"@), baselines@, r),
{
    let k = module_text_ranges(ranges);
    proof {
        broadcast use vstd::seq_lib::group_filter_ensures;
        assert forall|i: int| 0 <= i < k@.len() implies (#[trigger] k@[i]).end - k@[i].start < 0x2000_0000_0000_0000 by {
            assert(k@.contains(k@[i]));
            ranges@.lemma_filter_contains_rev(|x: LinuxTextRange| x.owner@ != "vmlinux"@, k@[i]);
        }
    }
    check_text_hashes(memory, k.as_slice(), baselines)
}

pub open spec fn views_of(v: Seq<String>) -> Seq<Seq<char>> {
    v.map_values(|s: String| s@)
}

/// The kernel's own text ranges (owner `vmlinux`).
pub fn kernel_text_ranges(ranges: &[LinuxTextRange]) -> (r: Vec<LinuxTextRange>)
    ensures
        r@ == ranges@.filter(|x: LinuxTextRange| x.owner@ == "vmlinux"@),
{
    let r = select_ranges(ranges, true);
    assert((|x: LinuxTextRange| (x.owner@ == "vmlinux"@) == true) =~= (|x: LinuxTextRange| x.owner@ == "vmlinux"@));
    r
}

/// The module text ranges (every owner but `vmlinux`).
pub fn module_text_ranges(ranges: &[LinuxTextRange]) -> (r: Vec<LinuxTextRange>)
    ensures
        r@ == ranges@.filter(|x: LinuxTextRange| x.owner@ != "vmlinux"@),
{
    let r = select_ranges(ranges, false);
    assert((|x: LinuxTextRange| (x.owner@ == "vmlinux"@) == false) =~= (|x: LinuxTextRange| x.owner@ != "vmlinux"@));
    r
}

fn select_ranges(ranges: &[LinuxTextRange], kernel: bool) -> (r: Vec<LinuxTextRange>)
    ensures
        r@ == ranges@.filter(|x: LinuxTextRange| (x.owner@ == "vmlinux"@) == kernel),
{
    let mut out: Vec<LinuxTextRange> = Vec::new();
    let mut i: usize = 0;
    while i < ranges.len()
        invariant
            i <= ranges@.len(),
            out@ == ranges@.take(i as int).filter(|x: LinuxTextRange| (x.owner@ == "vmlinux"@) == kernel),
        decreases ranges@.len() - i,
    {
        proof {
            assert(ranges@.take(i + 1).drop_last() =~= ranges@.take(i as int));
            assert(ranges@.take(i + 1).last() == ranges@[i as int]);
            reveal(Seq::filter);
        }
        if crate::text::str_eq(ranges[i].owner.as_str(), "vmlinux") == kernel {
            out.push(LinuxTextRange { owner: ranges[i].owner.clone(), start: ranges[i].start, end: ranges[i].end });
        }
        i = i + 1;
    }
    assert(ranges@.take(i as int) =~= ranges@);
    out
}

} // verus!
