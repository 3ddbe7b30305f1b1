//! Reports of the Windows guest checks, as the Windows detectors read them:
//! kernel text hash results, and the SSDT and LSTAR reports of the system
//! call path.
use vstd::prelude::*;

verus! {

#[derive(Debug, Clone, Copy, PartialEq, Eq, Structural)]
pub enum WindowsTextHashStatus {
    Match,
    Mismatch,
    UnknownBaseline,
}

impl WindowsTextHashStatus {
    pub open spec fn name(self) -> Seq<char> {
        match self {
            WindowsTextHashStatus::Match => "match"@,
            WindowsTextHashStatus::Mismatch => "mismatch"@,
            WindowsTextHashStatus::UnknownBaseline => "unknown_baseline"@,
        }
    }

    pub fn as_str(self) -> (r: &'static str)
        ensures
            r@ == self.name(),
    {
        match self {
            WindowsTextHashStatus::Match => "match",
            WindowsTextHashStatus::Mismatch => "mismatch",
            WindowsTextHashStatus::UnknownBaseline => "unknown_baseline",
        }
    }
}

/// The hash check of one Windows text range.
#[derive(Debug, Clone, PartialEq, Eq)]
pub struct WindowsTextHashResult {
    pub owner: String,
    pub start: u64,
    pub end: u64,
    pub sha256: String,
    pub expected_sha256: Option<String>,
    pub status: WindowsTextHashStatus,
}

#[derive(Debug, Clone, PartialEq, Eq)]
pub struct WindowsIntegrityReport {
    pub ok: bool,
    pub results: Vec<WindowsTextHashResult>,
    pub findings: Vec<String>,
}

/// One service table entry: its index, handler and the module holding it.
#[derive(Debug, Clone, PartialEq, Eq)]
pub struct WindowsSsdtEntry {
    pub index: u32,
    pub handler: u64,
    pub owner: Option<String>,
}

#[derive(Debug, Clone, PartialEq, Eq)]
pub struct WindowsSsdtReport {
    pub ok: bool,
    pub table_address: u64,
    pub entries: Vec<WindowsSsdtEntry>,
    pub findings: Vec<String>,
}

#[derive(Debug, Clone, PartialEq, Eq)]
pub struct WindowsLstarReport {
    pub ok: bool,
    pub lstar: u64,
    pub expected_symbol: String,
    pub findings: Vec<String>,
}

} // verus!
