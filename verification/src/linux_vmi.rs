//! Linux guest introspection over a virtual-memory reader: the kernel
//! profile (symbols and structure offsets), little-endian reads, bounded
//! C strings, and the walks of the task and module lists.
//!
//! Guest memory is modelled as the map of the bytes that a reader can read
//! (`LinuxVirtualMemoryReader::mapped`); a read of `len` bytes at `address`
//! succeeds exactly when every byte of it is mapped.
use vstd::prelude::*;
use vstd::utf8::{decode_utf8, valid_utf8};
use crate::spool::utf8_text;
use crate::text::{cat3, dec, owned, push_str, str_eq, u64_to_dec};
use crate::vmi::VmiErrorKind;

verus! {

// ---------------------------------------------------------------------------
// Kernel profile
// ---------------------------------------------------------------------------

/// A kernel symbol of the profile.
#[derive(Debug, Clone, PartialEq, Eq)]
pub struct LinuxSymbol {
    pub name: String,
    pub virtual_address: u64,
    pub size: Option<u64>,
}

/// The offset (and size, where known) of a structure field.
#[derive(Debug, Clone, PartialEq, Eq)]
pub struct LinuxStructOffset {
    pub struct_name: String,
    pub field_name: String,
    pub offset: u64,
    pub size: Option<u64>,
}

/// A system call of the profile's syscall table.
#[derive(Debug, Clone, PartialEq, Eq)]
pub struct LinuxSyscall {
    pub number: u32,
    pub name: String,
    pub symbol_name: Option<String>,
}

/// The symbols, structure layout and syscall table of one guest kernel
/// build. A name that occurs twice is found at its first occurrence; the
/// syscalls are listed by ascending number.
#[derive(Debug, Clone, PartialEq, Eq)]
pub struct LinuxProfile {
    pub kernel_release: String,
    pub symbols: Vec<LinuxSymbol>,
    pub struct_offsets: Vec<LinuxStructOffset>,
    pub syscalls: Vec<LinuxSyscall>,
}

/// The index of the first symbol named `name`, searching from `i`.
pub open spec fn symbol_index_from(syms: Seq<LinuxSymbol>, name: Seq<char>, i: int) -> Option<int>
    decreases syms.len() - i,
{
    if i < 0 || i >= syms.len() {
        None
    } else if syms[i].name@ == name {
        Some(i)
    } else {
        symbol_index_from(syms, name, i + 1)
    }
}

/// The symbol named `name`.
pub open spec fn symbol_of(p: LinuxProfile, name: Seq<char>) -> Option<LinuxSymbol> {
    match symbol_index_from(p.symbols@, name, 0) {
        Some(i) => Some(p.symbols@[i]),
        None => None,
    }
}

/// The index of the first layout entry for `st.field`, searching from `i`.
pub open spec fn field_index_from(
    fields: Seq<LinuxStructOffset>,
    st: Seq<char>,
    field: Seq<char>,
    i: int,
) -> Option<int>
    decreases fields.len() - i,
{
    if i < 0 || i >= fields.len() {
        None
    } else if fields[i].struct_name@ == st && fields[i].field_name@ == field {
        Some(i)
    } else {
        field_index_from(fields, st, field, i + 1)
    }
}

/// The layout entry of `st.field`.
pub open spec fn field_of(p: LinuxProfile, st: Seq<char>, field: Seq<char>) -> Option<LinuxStructOffset> {
    match field_index_from(p.struct_offsets@, st, field, 0) {
        Some(i) => Some(p.struct_offsets@[i]),
        None => None,
    }
}

/// The offset of `st.field`.
pub open spec fn offset_of(p: LinuxProfile, st: Seq<char>, field: Seq<char>) -> Option<u64> {
    match field_of(p, st, field) {
        Some(f) => Some(f.offset),
        None => None,
    }
}

impl LinuxProfile {
    /// The symbol named `name`.
    pub fn symbol(&self, name: &str) -> (r: Option<&LinuxSymbol>)
        ensures
            match r {
                Some(s) => symbol_of(*self, name@) == Some(*s),
                None => symbol_of(*self, name@) is None,
            },
    {
        let mut i: usize = 0;
        while i < self.symbols.len()
            invariant
                i <= self.symbols@.len(),
                symbol_index_from(self.symbols@, name@, i as int) == symbol_index_from(
                    self.symbols@,
                    name@,
                    0,
                ),
            decreases self.symbols@.len() - i,
        {
            if str_eq(self.symbols[i].name.as_str(), name) {
                return Some(&self.symbols[i]);
            }
            i = i + 1;
        }
        None
    }

    /// The layout entry of `st.field`.
    pub fn field(&self, st: &str, field: &str) -> (r: Option<&LinuxStructOffset>)
        ensures
            match r {
                Some(f) => field_of(*self, st@, field@) == Some(*f),
                None => field_of(*self, st@, field@) is None,
            },
    {
        let mut i: usize = 0;
        while i < self.struct_offsets.len()
            invariant
                i <= self.struct_offsets@.len(),
                field_index_from(self.struct_offsets@, st@, field@, i as int) == field_index_from(
                    self.struct_offsets@,
                    st@,
                    field@,
                    0,
                ),
            decreases self.struct_offsets@.len() - i,
        {
            let f = &self.struct_offsets[i];
            if str_eq(f.struct_name.as_str(), st) && str_eq(f.field_name.as_str(), field) {
                return Some(f);
            }
            i = i + 1;
        }
        None
    }

    /// The offset of `st.field`.
    pub fn offset(&self, st: &str, field: &str) -> (r: Option<u64>)
        ensures
            r == offset_of(*self, st@, field@),
    {
        match self.field(st, field) {
            Some(f) => Some(f.offset),
            None => None,
        }
    }
}

// ---------------------------------------------------------------------------
// Errors
// ---------------------------------------------------------------------------

/// A failed guest memory read.
#[derive(Debug, Clone, PartialEq, Eq)]
pub enum MemoryReadError {
    Unmapped { gpa: u64, len: usize },
}

#[derive(Debug, Clone, PartialEq, Eq)]
pub enum LinuxVmiError {
    Unsupported { operation: String, detail: String },
    MissingProfileField { field: String },
    Malformed { detail: String },
    InconsistentSnapshot { detail: String },
    Memory(MemoryReadError),
    Backend { detail: String },
}

impl LinuxVmiError {
    pub open spec fn kind_of(self) -> VmiErrorKind {
        match self {
            LinuxVmiError::Unsupported { .. } => VmiErrorKind::Unsupported,
            LinuxVmiError::MissingProfileField { .. } => VmiErrorKind::MissingProfile,
            LinuxVmiError::Malformed { .. } => VmiErrorKind::Malformed,
            LinuxVmiError::InconsistentSnapshot { .. } => VmiErrorKind::InconsistentSnapshot,
            LinuxVmiError::Memory(_) => VmiErrorKind::Unmapped,
            LinuxVmiError::Backend { .. } => VmiErrorKind::Backend,
        }
    }

    pub fn kind(&self) -> (r: VmiErrorKind)
        ensures
            r == self.kind_of(),
    {
        match self {
            LinuxVmiError::Unsupported { .. } => VmiErrorKind::Unsupported,
            LinuxVmiError::MissingProfileField { .. } => VmiErrorKind::MissingProfile,
            LinuxVmiError::Malformed { .. } => VmiErrorKind::Malformed,
            LinuxVmiError::InconsistentSnapshot { .. } => VmiErrorKind::InconsistentSnapshot,
            LinuxVmiError::Memory(_) => VmiErrorKind::Unmapped,
            LinuxVmiError::Backend { .. } => VmiErrorKind::Backend,
        }
    }

    /// The error's message.
    pub fn message(&self) -> (r: String)
        ensures
            r@ == self.message_of(),
    {
        match self {
            LinuxVmiError::Unsupported { operation, detail } => {
                let mut m = cat3("Linux VMI operation '", operation.as_str(), "' is unsupported: ");
                crate::text::push_str(&mut m, detail.as_str());
                m
            },
            LinuxVmiError::MissingProfileField { field } => cat3(
                "Linux VMI profile is missing required field '",
                field.as_str(),
                "'",
            ),
            LinuxVmiError::Malformed { detail } => cat3("Linux VMI input is malformed: ", detail.as_str(), ""),
            LinuxVmiError::InconsistentSnapshot { detail } => cat3(
                "Linux VMI snapshot is inconsistent: ",
                detail.as_str(),
                "",
            ),
            LinuxVmiError::Memory(MemoryReadError::Unmapped { gpa, len }) => {
                let a = crate::text::u64_to_hex(*gpa);
                let n = u64_to_dec(*len as u64);
                let mut m = cat3("Linux VMI memory read failed: unmapped guest memory at 0x", a.as_str(), " (");
                crate::text::push_str(&mut m, n.as_str());
                crate::text::push_str(&mut m, " bytes)");
                m
            },
            LinuxVmiError::Backend { detail } => cat3("Linux VMI backend error: ", detail.as_str(), ""),
        }
    }

    pub open spec fn message_of(self) -> Seq<char> {
        match self {
            LinuxVmiError::Unsupported { operation, detail } => "Linux VMI operation '"@ + operation@
                + "' is unsupported: "@ + detail@,
            LinuxVmiError::MissingProfileField { field } => "Linux VMI profile is missing required field '"@
                + field@ + "'"@,
            LinuxVmiError::Malformed { detail } => "Linux VMI input is malformed: "@ + detail@ + ""@,
            LinuxVmiError::InconsistentSnapshot { detail } => "Linux VMI snapshot is inconsistent: "@
                + detail@ + ""@,
            LinuxVmiError::Memory(MemoryReadError::Unmapped { gpa, len }) =>
                "Linux VMI memory read failed: unmapped guest memory at 0x"@ + crate::text::hex(
                gpa as nat,
            ) + " ("@ + crate::text::dec(len as nat) + " bytes)"@,
            LinuxVmiError::Backend { detail } => "Linux VMI backend error: "@ + detail@ + ""@,
        }
    }
}

pub fn inconsistent(detail: String) -> (e: LinuxVmiError)
    ensures
        e == (LinuxVmiError::InconsistentSnapshot { detail }),
{
    LinuxVmiError::InconsistentSnapshot { detail }
}

// ---------------------------------------------------------------------------
// Guest memory
// ---------------------------------------------------------------------------

/// Whether `len` bytes at `address` can be read from `m`: a non-empty range
/// that does not run past the end of the address space, every byte mapped.
pub open spec fn readable(m: Map<int, u8>, address: u64, len: nat) -> bool {
    &&& len > 0
    &&& address + len <= u64::MAX
    &&& forall|a: int| address <= a < address + len ==> #[trigger] m.dom().contains(a)
}

/// The `len` bytes at `address`.
pub open spec fn bytes_at(m: Map<int, u8>, address: u64, len: nat) -> Seq<u8> {
    Seq::new(len, |i: int| m[address + i])
}

/// The result of reading `len` bytes at `address`: the bytes, or `None`.
pub open spec fn read_of(m: Map<int, u8>, address: u64, len: nat) -> Option<Seq<u8>> {
    if readable(m, address, len) {
        Some(bytes_at(m, address, len))
    } else {
        None
    }
}

/// A reader of guest virtual memory.
pub trait LinuxVirtualMemoryReader {
    /// The bytes this reader can read, by virtual address.
    spec fn mapped(&self) -> Map<int, u8>;

    /// Whether `e` is what a failed read of `len` bytes at `address` gives.
    spec fn read_failure(&self, address: u64, len: usize, e: LinuxVmiError) -> bool;

    /// Reads `len` bytes at `address`.
    fn read_virtual(&self, address: u64, len: usize) -> (r: Result<Vec<u8>, LinuxVmiError>)
        ensures
            match r {
                Ok(b) => read_of(self.mapped(), address, len as nat) == Some(b@),
                Err(e) => read_of(self.mapped(), address, len as nat) is None && self.read_failure(address, len, e),
            },
    ;
}

/// Little-endian `u32` of the first four bytes.
pub open spec fn le_u32(b: Seq<u8>) -> u32 {
    (b[0] + b[1] * 0x100 + b[2] * 0x10000 + b[3] * 0x1000000) as u32
}

/// Little-endian `u64` of the first eight bytes.
pub open spec fn le_u64(b: Seq<u8>) -> u64 {
    (b[0] + b[1] * 0x100 + b[2] * 0x10000 + b[3] * 0x1000000 + b[4] * 0x100000000 + b[5]
        * 0x10000000000 + b[6] * 0x1000000000000 + b[7] * 0x100000000000000) as u64
}

/// Little-endian two's-complement `i32` of the first four bytes.
pub open spec fn le_i32(b: Seq<u8>) -> i32 {
    let u = le_u32(b);
    if u < 0x80000000 {
        u as i32
    } else {
        (u - 0x100000000) as i32
    }
}

/// The `u64` at `address`, if its bytes are mapped.
pub open spec fn u64_at(m: Map<int, u8>, address: u64) -> Option<u64> {
    match read_of(m, address, 8) {
        Some(b) => Some(le_u64(b)),
        None => None,
    }
}

pub open spec fn u32_at(m: Map<int, u8>, address: u64) -> Option<u32> {
    match read_of(m, address, 4) {
        Some(b) => Some(le_u32(b)),
        None => None,
    }
}

pub open spec fn i32_at(m: Map<int, u8>, address: u64) -> Option<i32> {
    match read_of(m, address, 4) {
        Some(b) => Some(le_i32(b)),
        None => None,
    }
}

/// Reads a little-endian `u64`.
pub fn read_u64<M: LinuxVirtualMemoryReader>(memory: &M, address: u64) -> (r: Result<u64, LinuxVmiError>)
    ensures
        match r {
            Ok(x) => u64_at(memory.mapped(), address) == Some(x),
            Err(e) => u64_at(memory.mapped(), address) is None && memory.read_failure(address, 8, e),
        },
{
    let b = memory.read_virtual(address, 8)?;
    let x = b[0] as u64 + b[1] as u64 * 0x100 + b[2] as u64 * 0x10000 + b[3] as u64 * 0x1000000
        + b[4] as u64 * 0x100000000 + b[5] as u64 * 0x10000000000 + b[6] as u64 * 0x1000000000000
        + b[7] as u64 * 0x100000000000000;
    Ok(x)
}

/// Reads a little-endian `u32`.
pub fn read_u32<M: LinuxVirtualMemoryReader>(memory: &M, address: u64) -> (r: Result<u32, LinuxVmiError>)
    ensures
        match r {
            Ok(x) => u32_at(memory.mapped(), address) == Some(x),
            Err(e) => u32_at(memory.mapped(), address) is None && memory.read_failure(address, 4, e),
        },
{
    let b = memory.read_virtual(address, 4)?;
    let x = b[0] as u32 + b[1] as u32 * 0x100 + b[2] as u32 * 0x10000 + b[3] as u32 * 0x1000000;
    Ok(x)
}

/// Reads a little-endian `i32`.
pub fn read_i32<M: LinuxVirtualMemoryReader>(memory: &M, address: u64) -> (r: Result<i32, LinuxVmiError>)
    ensures
        match r {
            Ok(x) => i32_at(memory.mapped(), address) == Some(x),
            Err(e) => i32_at(memory.mapped(), address) is None && memory.read_failure(address, 4, e),
        },
{
    let u = read_u32(memory, address)?;
    if u < 0x80000000 {
        Ok(u as i32)
    } else {
        Ok((u as i64 - 0x100000000) as i32)
    }
}

// ---------------------------------------------------------------------------
// Synthetic memory for replay and tests
// ---------------------------------------------------------------------------

#[derive(Debug, Clone)]
struct SyntheticVirtualRange {
    start: u64,
    bytes: Vec<u8>,
}

spec fn range_end(r: SyntheticVirtualRange) -> int {
    r.start + r.bytes@.len()
}

spec fn in_range(r: SyntheticVirtualRange, a: int) -> bool {
    r.start <= a < range_end(r)
}

/// Guest memory made of byte ranges, for replay and tests.
#[derive(Debug)]
pub struct SyntheticLinuxVirtualMemory {
    ranges: Vec<SyntheticVirtualRange>,
}

/// Ranges that are non-empty, end inside the address space, and are kept
/// in ascending order without overlap.
spec fn ranges_wf(rs: Seq<SyntheticVirtualRange>) -> bool {
    &&& forall|i: int| 0 <= i < rs.len() ==> (#[trigger] rs[i]).bytes@.len() > 0 && range_end(rs[i]) <= u64::MAX
    &&& forall|i: int, j: int| 0 <= i < j < rs.len() ==> range_end(#[trigger] rs[i]) <= (#[trigger] rs[j]).start
}

spec fn mapped_of(rs: Seq<SyntheticVirtualRange>) -> Map<int, u8> {
    Map::new(
        |a: int| exists|i: int| 0 <= i < rs.len() && in_range(#[trigger] rs[i], a),
        |a: int|
            {
                let i = choose|i: int| 0 <= i < rs.len() && in_range(#[trigger] rs[i], a);
                rs[i].bytes@[a - rs[i].start]
            },
    )
}

/// The bytes `b` placed at `address`.
pub open spec fn block(address: u64, b: Seq<u8>) -> Map<int, u8> {
    Map::new(|a: int| address <= a < address + b.len(), |a: int| b[a - address])
}

/// Whether any of the `len` bytes at `address` is mapped in `m`.
pub open spec fn overlaps(m: Map<int, u8>, address: u64, len: nat) -> bool {
    exists|a: int| address <= a < address + len && #[trigger] m.dom().contains(a)
}

proof fn lemma_unique_range(rs: Seq<SyntheticVirtualRange>, i: int, k: int, a: int)
    requires
        ranges_wf(rs),
        0 <= i < rs.len(),
        0 <= k < rs.len(),
        in_range(rs[i], a),
        in_range(rs[k], a),
    ensures
        i == k,
{
    if i < k {
        assert(range_end(rs[i]) <= rs[k].start);
    } else if k < i {
        assert(range_end(rs[k]) <= rs[i].start);
    }
}

proof fn lemma_mapped_byte(rs: Seq<SyntheticVirtualRange>, k: int, a: int)
    requires
        ranges_wf(rs),
        0 <= k < rs.len(),
        in_range(rs[k], a),
    ensures
        mapped_of(rs).dom().contains(a),
        mapped_of(rs)[a] == rs[k].bytes@[a - rs[k].start],
{
    assert(mapped_of(rs).dom().contains(a));
    let i = choose|i: int| 0 <= i < rs.len() && in_range(#[trigger] rs[i], a);
    lemma_unique_range(rs, i, k, a);
}

proof fn lemma_insert_range(rs: Seq<SyntheticVirtualRange>, p: int, nr: SyntheticVirtualRange)
    requires
        ranges_wf(rs),
        0 <= p <= rs.len(),
        nr.bytes@.len() > 0,
        range_end(nr) <= u64::MAX,
        forall|i: int| 0 <= i < p ==> range_end(#[trigger] rs[i]) <= nr.start,
        p < rs.len() ==> range_end(nr) <= rs[p].start,
    ensures
        ranges_wf(rs.insert(p, nr)),
        mapped_of(rs.insert(p, nr)) == mapped_of(rs).union_prefer_right(block(nr.start, nr.bytes@)),
{
    let ns = rs.insert(p, nr);
    assert forall|i: int, j: int| 0 <= i < j < ns.len() implies range_end(#[trigger] ns[i]) <= (
    #[trigger] ns[j]).start by {
        if j < p {
            assert(ns[i] == rs[i] && ns[j] == rs[j]);
        } else if j == p {
            assert(ns[i] == rs[i]);
        } else if i == p {
            assert(ns[j] == rs[j - 1]);
            if j - 1 > p {
                assert(range_end(rs[p]) <= rs[j - 1].start);
            }
        } else if i < p {
            assert(ns[i] == rs[i] && ns[j] == rs[j - 1]);
        } else {
            assert(ns[i] == rs[i - 1] && ns[j] == rs[j - 1]);
        }
    }
    assert forall|i: int| 0 <= i < ns.len() implies (#[trigger] ns[i]).bytes@.len() > 0 && range_end(
        ns[i],
    ) <= u64::MAX by {
        if i < p {
            assert(ns[i] == rs[i]);
        } else if i > p {
            assert(ns[i] == rs[i - 1]);
        }
    }
    assert(ranges_wf(ns));
    let m = mapped_of(rs);
    let nm = mapped_of(ns);
    let want = m.union_prefer_right(block(nr.start, nr.bytes@));
    assert forall|a: int| #[trigger] nm.dom().contains(a) == want.dom().contains(a) by {
        if nm.dom().contains(a) {
            let i = choose|i: int| 0 <= i < ns.len() && in_range(#[trigger] ns[i], a);
            if i < p {
                assert(ns[i] == rs[i]);
                lemma_mapped_byte(rs, i, a);
            } else if i > p {
                assert(ns[i] == rs[i - 1]);
                lemma_mapped_byte(rs, i - 1, a);
            }
        }
        if m.dom().contains(a) {
            let i = choose|i: int| 0 <= i < rs.len() && in_range(#[trigger] rs[i], a);
            if i < p {
                assert(ns[i] == rs[i]);
                lemma_mapped_byte(ns, i, a);
            } else {
                assert(ns[i + 1] == rs[i]);
                lemma_mapped_byte(ns, i + 1, a);
            }
        }
        if nr.start <= a < range_end(nr) {
            assert(ns[p] == nr);
            lemma_mapped_byte(ns, p, a);
        }
    }
    assert forall|a: int| #[trigger] nm.dom().contains(a) implies nm[a] == want[a] by {
        if nr.start <= a < range_end(nr) {
            assert(ns[p] == nr);
            lemma_mapped_byte(ns, p, a);
        } else {
            let i = choose|i: int| 0 <= i < ns.len() && in_range(#[trigger] ns[i], a);
            if i < p {
                assert(ns[i] == rs[i]);
                lemma_mapped_byte(rs, i, a);
                lemma_mapped_byte(ns, i, a);
            } else {
                assert(i != p);
                assert(ns[i] == rs[i - 1]);
                lemma_mapped_byte(rs, i - 1, a);
                lemma_mapped_byte(ns, i, a);
            }
        }
    }
    assert(nm =~= want);
}

impl SyntheticLinuxVirtualMemory {
    /// Where a new range `[address, end)` goes in the ordered list, or
    /// `None` when it overlaps a range.
    fn insert_position(&self, address: u64, end: u64) -> (r: Option<usize>)
        requires
            address < end,
            ranges_wf(self.ranges@),
        ensures
            match r {
                Some(p) => {
                    &&& p <= self.ranges@.len()
                    &&& forall|i: int| 0 <= i < p ==> range_end(#[trigger] self.ranges@[i]) <= address
                    &&& p < self.ranges@.len() ==> end <= self.ranges@[p as int].start
                },
                None => exists|a: int| address <= a < end && #[trigger] mapped_of(self.ranges@).dom().contains(a),
            },
    {
        let ghost rs = self.ranges@;
        let mut p: usize = 0;
        while p < self.ranges.len()
            invariant
                rs == self.ranges@,
                ranges_wf(rs),
                p <= rs.len(),
                address < end,
                forall|i: int| 0 <= i < p ==> range_end(#[trigger] rs[i]) <= address,
            decreases rs.len() - p,
        {
            let r = &self.ranges[p];
            let r_end = r.start + r.bytes.len() as u64;
            if address < r_end && r.start < end {
                proof {
                    let a = if r.start <= address { address as int } else { r.start as int };
                    lemma_mapped_byte(rs, p as int, a);
                }
                return None;
            }
            if r.start > address {
                return Some(p);
            }
            p = p + 1;
        }
        Some(p)
    }
}


impl SyntheticLinuxVirtualMemory {
    #[verifier::type_invariant]
    spec fn inv(self) -> bool {
        ranges_wf(self.ranges@)
    }

    pub fn new() -> (r: Self)
        ensures
            r.mapped() == Map::<int, u8>::empty(),
    {
        let r = SyntheticLinuxVirtualMemory { ranges: Vec::new() };
        assert(mapped_of(r.ranges@) =~= Map::<int, u8>::empty());
        r
    }

    /// Maps `bytes` at `address`. Refuses an empty range, one that runs
    /// past the end of the address space, and one that overlaps a mapped
    /// byte.
    pub fn map_range(&mut self, address: u64, bytes: Vec<u8>) -> (r: Result<(), LinuxVmiError>)
        ensures
            bytes@.len() == 0 ==> (r matches Err(LinuxVmiError::Malformed { detail }) && detail@
                == "synthetic virtual memory range must not be empty"@),
            bytes@.len() > 0 && address + bytes@.len() > u64::MAX ==> (r matches Err(
                LinuxVmiError::Malformed { detail },
            ) && detail@ == "synthetic virtual memory range overflows u64"@),
            bytes@.len() > 0 && address + bytes@.len() <= u64::MAX && overlaps(
                old(self).mapped(),
                address,
                bytes@.len(),
            ) ==> (r matches Err(LinuxVmiError::InconsistentSnapshot { detail }) && detail@
                == "overlapping synthetic virtual memory range at 0x"@ + crate::text::hex(address as nat)
                + ""@),
            bytes@.len() > 0 && address + bytes@.len() <= u64::MAX && !overlaps(
                old(self).mapped(),
                address,
                bytes@.len(),
            ) ==> r is Ok,
            r is Ok ==> final(self).mapped() == old(self).mapped().union_prefer_right(
                block(address, bytes@),
            ),
            r is Err ==> final(self).mapped() == old(self).mapped(),
    {
        proof {
            use_type_invariant(&*self);
        }
        let len = bytes.len();
        if len == 0 {
            return Err(LinuxVmiError::Malformed { detail: owned("synthetic virtual memory range must not be empty") });
        }
        if address > u64::MAX - len as u64 {
            return Err(LinuxVmiError::Malformed { detail: owned("synthetic virtual memory range overflows u64") });
        }
        let end = address + len as u64;
        let ghost rs = self.ranges@;
        let p = match self.insert_position(address, end) {
            Some(p) => p,
            None => {
                let h = crate::text::u64_to_hex(address);
                return Err(
                    LinuxVmiError::InconsistentSnapshot {
                        detail: cat3("overlapping synthetic virtual memory range at 0x", h.as_str(), ""),
                    },
                );
            },
        };
        let ghost nr = SyntheticVirtualRange { start: address, bytes };
        let mut v: Vec<SyntheticVirtualRange> = Vec::new();
        std::mem::swap(&mut v, &mut self.ranges);
        v.insert(p, SyntheticVirtualRange { start: address, bytes });
        proof {
            lemma_insert_range(rs, p as int, nr);
        }
        self.ranges = v;
        Ok(())
    }
}

impl SyntheticLinuxVirtualMemory {
    /// The index of the range that holds `a`.
    fn range_containing(&self, a: u64) -> (r: Option<usize>)
        ensures
            match r {
                Some(i) => i < self.ranges@.len() && in_range(self.ranges@[i as int], a as int),
                None => forall|k: int| 0 <= k < self.ranges@.len() ==> !in_range(#[trigger] self.ranges@[k], a as int),
            },
    {
        let mut i: usize = 0;
        while i < self.ranges.len()
            invariant
                i <= self.ranges@.len(),
                forall|k: int| 0 <= k < i ==> !in_range(#[trigger] self.ranges@[k], a as int),
            decreases self.ranges@.len() - i,
        {
            let r = &self.ranges[i];
            if r.start <= a && (a - r.start) < r.bytes.len() as u64 {
                return Some(i);
            }
            i = i + 1;
        }
        None
    }
}

/// The first address in `[a, end)` that `m` does not map, or `end`.
pub open spec fn first_gap(m: Map<int, u8>, a: int, end: int) -> int
    decreases end - a,
{
    if a >= end {
        end
    } else if !m.dom().contains(a) {
        a
    } else {
        first_gap(m, a + 1, end)
    }
}

proof fn lemma_first_gap(m: Map<int, u8>, a: int, c: int, end: int)
    requires
        a <= c < end,
        forall|x: int| a <= x < c ==> #[trigger] m.dom().contains(x),
        !m.dom().contains(c),
    ensures
        first_gap(m, a, end) == c,
    decreases c - a,
{
    if a < c {
        lemma_first_gap(m, a + 1, c, end);
    }
}

/// What a failed read of the synthetic memory gives: a malformed-request
/// error for an empty read or one past the end of the address space, else
/// the unmapped error at the first unmapped byte, with the bytes left.
pub open spec fn synthetic_read_failure(m: Map<int, u8>, address: u64, len: usize, e: LinuxVmiError) -> bool {
    if len == 0 {
        e matches LinuxVmiError::Malformed { detail } && detail@ == "virtual memory read length must not be zero"@
    } else if address + len > u64::MAX {
        e matches LinuxVmiError::Malformed { detail } && detail@ == "virtual memory read range overflows u64"@
    } else {
        let gap = first_gap(m, address as int, address + len);
        e == LinuxVmiError::Memory(MemoryReadError::Unmapped { gpa: gap as u64, len: (len - (gap - address)) as usize })
    }
}

impl LinuxVirtualMemoryReader for SyntheticLinuxVirtualMemory {
    closed spec fn mapped(&self) -> Map<int, u8> {
        mapped_of(self.ranges@)
    }

    open spec fn read_failure(&self, address: u64, len: usize, e: LinuxVmiError) -> bool {
        synthetic_read_failure(self.mapped(), address, len, e)
    }

    fn read_virtual(&self, address: u64, len: usize) -> (r: Result<Vec<u8>, LinuxVmiError>) {
        proof {
            use_type_invariant(self);
        }
        let ghost rs = self.ranges@;
        let ghost m = mapped_of(rs);
        if len == 0 {
            return Err(LinuxVmiError::Malformed { detail: owned("virtual memory read length must not be zero") });
        }
        if address > u64::MAX - len as u64 {
            return Err(LinuxVmiError::Malformed { detail: owned("virtual memory read range overflows u64") });
        }
        let end = address + len as u64;
        let mut out: Vec<u8> = Vec::new();
        let mut cursor = address;
        while cursor < end
            invariant
                rs == self.ranges@,
                ranges_wf(rs),
                m == mapped_of(rs),
                address <= cursor <= end,
                end == address + len,
                out@.len() == cursor - address,
                forall|k: int| 0 <= k < out@.len() ==> #[trigger] out@[k] == m[address + k],
                forall|a: int| address <= a < cursor ==> #[trigger] m.dom().contains(a),
            decreases end - cursor,
        {
            let i = match self.range_containing(cursor) {
                Some(i) => i,
                None => {
                    proof {
                        if m.dom().contains(cursor as int) {
                            let w = choose|w: int| 0 <= w < rs.len() && in_range(#[trigger] rs[w], cursor as int);
                            assert(!in_range(self.ranges@[w], cursor as int));
                        }
                    }
                    proof {
                        lemma_first_gap(m, address as int, cursor as int, end as int);
                    }
                    let copied = (cursor - address) as usize;
                    return Err(LinuxVmiError::Memory(MemoryReadError::Unmapped { gpa: cursor, len: len - copied }));
                },
            };
            let r = &self.ranges[i];
            let blen = r.bytes.len();
            assert(cursor - r.start < blen);
            let off = (cursor - r.start) as usize;
            let avail = blen - off;
            let need = (end - cursor) as usize;
            let take = if avail < need { avail } else { need };
            let mut j: usize = 0;
            while j < take
                invariant
                    rs == self.ranges@,
                    ranges_wf(rs),
                    m == mapped_of(rs),
                    i < rs.len(),
                    *r == rs[i as int],
                    blen == r.bytes@.len(),
                    r.start <= cursor,
                    off == cursor - r.start,
                    off + take <= blen,
                    address <= cursor,
                    cursor + take <= end,
                    j <= take,
                    out@.len() == cursor - address + j,
                    forall|k: int| 0 <= k < out@.len() ==> #[trigger] out@[k] == m[address + k],
                    forall|a: int| address <= a < cursor + j ==> #[trigger] m.dom().contains(a),
                decreases take - j,
            {
                proof {
                    lemma_mapped_byte(rs, i as int, cursor + j);
                }
                let ghost before = out@;
                out.push(r.bytes[off + j]);
                proof {
                    assert forall|k: int| 0 <= k < out@.len() implies #[trigger] out@[k] == m[address + k] by {
                        if k < before.len() {
                            assert(out@[k] == before[k]);
                        }
                    }
                }
                j = j + 1;
            }
            cursor = cursor + take as u64;
        }
        proof {
            assert(out@ =~= bytes_at(m, address, len as nat));
        }
        Ok(out)
    }
}


// ---------------------------------------------------------------------------
// Strings and structures in guest memory
// ---------------------------------------------------------------------------

/// Why a read of guest structures failed: an error of a known kind, or a
/// failed memory read (whose kind the reader decides).
pub enum Fault {
    Of(VmiErrorKind),
    ReadFailed,
}

/// Whether `e` is an error that `f` describes.
pub open spec fn fault_fits(e: LinuxVmiError, f: Fault) -> bool {
    match f {
        Fault::Of(k) => e.kind_of() == k,
        Fault::ReadFailed => true,
    }
}

/// The index of the first zero byte at or after `i`, or the length.
pub open spec fn nul_index(b: Seq<u8>, i: int) -> int
    decreases b.len() - i,
{
    if i < 0 || i >= b.len() {
        b.len() as int
    } else if b[i] == 0 {
        i
    } else {
        nul_index(b, i + 1)
    }
}

/// The NUL-terminated UTF-8 string in the `max_len` bytes at `address`.
pub open spec fn c_string_at(m: Map<int, u8>, address: u64, max_len: nat) -> Result<Seq<char>, Fault> {
    if max_len == 0 || max_len > 4096 {
        Err(Fault::Of(VmiErrorKind::Malformed))
    } else {
        match read_of(m, address, max_len) {
            None => Err(Fault::ReadFailed),
            Some(b) => {
                let t = b.take(nul_index(b, 0));
                if valid_utf8(t) {
                    Ok(decode_utf8(t))
                } else {
                    Err(Fault::Of(VmiErrorKind::Malformed))
                }
            },
        }
    }
}

proof fn lemma_nul_index_range(b: Seq<u8>, i: int)
    requires
        0 <= i <= b.len(),
    ensures
        i <= nul_index(b, i) <= b.len(),
    decreases b.len() - i,
{
    if i < b.len() && b[i] != 0 {
        lemma_nul_index_range(b, i + 1);
    }
}

/// Reads a NUL-terminated UTF-8 string of at most `max_len` bytes
/// (1..=4096).
pub fn read_c_string<M: LinuxVirtualMemoryReader>(memory: &M, address: u64, max_len: usize) -> (r: Result<
    String,
    LinuxVmiError,
>)
    ensures
        match r {
            Ok(s) => c_string_at(memory.mapped(), address, max_len as nat) == Ok::<Seq<char>, Fault>(s@),
            Err(e) => c_string_at(memory.mapped(), address, max_len as nat) matches Err(f) && fault_fits(e, f),
        },
{
    if max_len == 0 || max_len > 4096 {
        let n = u64_to_dec(max_len as u64);
        return Err(LinuxVmiError::Malformed { detail: cat3("invalid bounded C string length ", n.as_str(), "") });
    }
    let bytes = memory.read_virtual(address, max_len)?;
    let mut end: usize = 0;
    while end < bytes.len() && bytes[end] != 0
        invariant
            end <= bytes@.len(),
            nul_index(bytes@, end as int) == nul_index(bytes@, 0),
        decreases bytes@.len() - end,
    {
        end = end + 1;
    }
    let mut t: Vec<u8> = Vec::new();
    let mut k: usize = 0;
    while k < end
        invariant
            end <= bytes@.len(),
            k <= end,
            t@ == bytes@.take(k as int),
        decreases end - k,
    {
        t.push(bytes[k]);
        k = k + 1;
        assert(t@ =~= bytes@.take(k as int));
    }
    match utf8_text(t) {
        Some(s) => Ok(s),
        None => {
            let h = crate::text::u64_to_hex(address);
            Err(LinuxVmiError::Malformed { detail: cat3("guest string at 0x", h.as_str(), " is not UTF-8") })
        },
    }
}

/// The size of a field: its recorded size, else `fallback`.
pub open spec fn field_size_of(f: LinuxStructOffset, fallback: nat) -> Result<nat, Fault> {
    match f.size {
        Some(s) => if s <= usize::MAX {
            Ok(s as nat)
        } else {
            Err(Fault::Of(VmiErrorKind::Malformed))
        },
        None => Ok(fallback),
    }
}

/// `base + off` inside the address space.
pub open spec fn add_at(base: u64, off: u64) -> Result<u64, Fault> {
    if base + off <= u64::MAX {
        Ok((base + off) as u64)
    } else {
        Err(Fault::Of(VmiErrorKind::InconsistentSnapshot))
    }
}

/// The `u64` that an optional pointer field holds (`None` without the field).
pub open spec fn pointer_field(
    p: LinuxProfile,
    m: Map<int, u8>,
    base: u64,
    st: Seq<char>,
    field: Seq<char>,
) -> Result<Option<u64>, Fault> {
    match offset_of(p, st, field) {
        None => Ok(None),
        Some(o) => match add_at(base, o) {
            Err(f) => Err(f),
            Ok(a) => match u64_at(m, a) {
                None => Err(Fault::ReadFailed),
                Some(v) => Ok(Some(v)),
            },
        },
    }
}

#[derive(Debug, Clone, PartialEq, Eq)]
pub struct LinuxTask {
    pub address: u64,
    pub pid: i32,
    pub tgid: i32,
    pub comm: String,
    pub mm: Option<u64>,
    pub cred: Option<u64>,
}

pub struct LinuxTaskView {
    pub address: u64,
    pub pid: i32,
    pub tgid: i32,
    pub comm: Seq<char>,
    pub mm: Option<u64>,
    pub cred: Option<u64>,
}

impl View for LinuxTask {
    type V = LinuxTaskView;

    open spec fn view(&self) -> LinuxTaskView {
        LinuxTaskView {
            address: self.address,
            pid: self.pid,
            tgid: self.tgid,
            comm: self.comm@,
            mm: self.mm,
            cred: self.cred,
        }
    }
}

#[derive(Debug, Clone, PartialEq, Eq)]
pub struct LinuxModule {
    pub address: u64,
    pub name: String,
    pub state: i32,
    pub text_base: u64,
    pub text_size: u64,
}

pub struct LinuxModuleView {
    pub address: u64,
    pub name: Seq<char>,
    pub state: i32,
    pub text_base: u64,
    pub text_size: u64,
}

impl View for LinuxModule {
    type V = LinuxModuleView;

    open spec fn view(&self) -> LinuxModuleView {
        LinuxModuleView {
            address: self.address,
            name: self.name@,
            state: self.state,
            text_base: self.text_base,
            text_size: self.text_size,
        }
    }
}

/// The task structure at `address`.
pub open spec fn task_at(p: LinuxProfile, m: Map<int, u8>, address: u64) -> Result<LinuxTaskView, Fault> {
    match offset_of(p, "task_struct"@, "pid"@) {
        None => Err(Fault::Of(VmiErrorKind::MissingProfile)),
        Some(po) => match add_at(address, po) {
            Err(f) => Err(f),
            Ok(pa) => match i32_at(m, pa) {
                None => Err(Fault::ReadFailed),
                Some(pid) => {
                    let to = match offset_of(p, "task_struct"@, "tgid"@) {
                        Some(o) => o,
                        None => po,
                    };
                    match add_at(address, to) {
                        Err(f) => Err(f),
                        Ok(ta) => match i32_at(m, ta) {
                            None => Err(Fault::ReadFailed),
                            Some(tgid) => match field_of(p, "task_struct"@, "comm"@) {
                                None => Err(Fault::Of(VmiErrorKind::MissingProfile)),
                                Some(cf) => match add_at(address, cf.offset) {
                                    Err(f) => Err(f),
                                    Ok(ca) => match field_size_of(cf, 16) {
                                        Err(f) => Err(f),
                                        Ok(sz) => match c_string_at(m, ca, sz) {
                                            Err(f) => Err(f),
                                            Ok(comm) => match pointer_field(p, m, address, "task_struct"@, "mm"@) {
                                                Err(f) => Err(f),
                                                Ok(mm) => match pointer_field(p, m, address, "task_struct"@, "cred"@) {
                                                    Err(f) => Err(f),
                                                    Ok(cred) => Ok(
                                                        LinuxTaskView { address, pid, tgid, comm, mm, cred },
                                                    ),
                                                },
                                            },
                                        },
                                    },
                                },
                            },
                        },
                    }
                },
            },
        },
    }
}

/// The text base of the module at `address`: `text_base`, else `core_base`.
pub open spec fn module_text_base(p: LinuxProfile, m: Map<int, u8>, address: u64) -> Result<u64, Fault> {
    let off = match offset_of(p, "module"@, "text_base"@) {
        Some(o) => Some(o),
        None => offset_of(p, "module"@, "core_base"@),
    };
    match off {
        None => Err(Fault::Of(VmiErrorKind::MissingProfile)),
        Some(o) => match add_at(address, o) {
            Err(f) => Err(f),
            Ok(a) => match u64_at(m, a) {
                None => Err(Fault::ReadFailed),
                Some(v) => Ok(v),
            },
        },
    }
}

/// The module structure at `address`; its text must not be empty.
pub open spec fn module_at(p: LinuxProfile, m: Map<int, u8>, address: u64) -> Result<LinuxModuleView, Fault> {
    match field_of(p, "module"@, "name"@) {
        None => Err(Fault::Of(VmiErrorKind::MissingProfile)),
        Some(nf) => match add_at(address, nf.offset) {
            Err(f) => Err(f),
            Ok(na) => match field_size_of(nf, 56) {
                Err(f) => Err(f),
                Ok(sz) => match c_string_at(m, na, sz) {
                    Err(f) => Err(f),
                    Ok(name) => match offset_of(p, "module"@, "state"@) {
                        None => Err(Fault::Of(VmiErrorKind::MissingProfile)),
                        Some(so) => match add_at(address, so) {
                            Err(f) => Err(f),
                            Ok(sa) => match i32_at(m, sa) {
                                None => Err(Fault::ReadFailed),
                                Some(state) => match module_text_base(p, m, address) {
                                    Err(f) => Err(f),
                                    Ok(text_base) => match offset_of(p, "module"@, "text_size"@) {
                                        None => Err(Fault::Of(VmiErrorKind::MissingProfile)),
                                        Some(zo) => match add_at(address, zo) {
                                            Err(f) => Err(f),
                                            Ok(za) => match u64_at(m, za) {
                                                None => Err(Fault::ReadFailed),
                                                Some(text_size) => if text_size == 0 {
                                                    Err(Fault::Of(VmiErrorKind::InconsistentSnapshot))
                                                } else {
                                                    Ok(
                                                        LinuxModuleView {
                                                            address,
                                                            name,
                                                            state,
                                                            text_base,
                                                            text_size,
                                                        },
                                                    )
                                                },
                                            },
                                        },
                                    },
                                },
                            },
                        },
                    },
                },
            },
        },
    }
}


// ---------------------------------------------------------------------------
// Executable structure reads
// ---------------------------------------------------------------------------

/// `base + off`, refused when it leaves the address space.
pub fn add_checked(base: u64, off: u64) -> (r: Result<u64, LinuxVmiError>)
    ensures
        match r {
            Ok(a) => add_at(base, off) == Ok::<u64, Fault>(a),
            Err(e) => add_at(base, off) matches Err(f) && fault_fits(e, f),
        },
{
    if base > u64::MAX - off {
        Err(inconsistent(owned("guest virtual address overflowed")))
    } else {
        Ok(base + off)
    }
}

/// The layout entry of `st.field`, which the profile must have.
fn required_field<'a>(p: &'a LinuxProfile, st: &str, field: &str) -> (r: Result<&'a LinuxStructOffset, LinuxVmiError>)
    ensures
        match r {
            Ok(f) => field_of(*p, st@, field@) == Some(*f),
            Err(e) => field_of(*p, st@, field@) is None && e.kind_of() == VmiErrorKind::MissingProfile,
        },
{
    match p.field(st, field) {
        Some(f) => Ok(f),
        None => {
            let mut name = cat3(st, ".", field);
            Err(LinuxVmiError::MissingProfileField { field: name })
        },
    }
}

/// The size of a field as a read length.
fn field_size(f: &LinuxStructOffset, fallback: usize) -> (r: Result<usize, LinuxVmiError>)
    ensures
        match r {
            Ok(n) => field_size_of(*f, fallback as nat) == Ok::<nat, Fault>(n as nat),
            Err(e) => field_size_of(*f, fallback as nat) matches Err(fl) && fault_fits(e, fl),
        },
{
    match f.size {
        Some(s) => {
            if s <= usize::MAX as u64 {
                Ok(s as usize)
            } else {
                let mut d = cat3("field '", f.struct_name.as_str(), ".");
                push_str(&mut d, f.field_name.as_str());
                push_str(&mut d, "' size does not fit this target");
                Err(LinuxVmiError::Malformed { detail: d })
            }
        },
        None => Ok(fallback),
    }
}

/// An optional pointer field.
fn optional_pointer<M: LinuxVirtualMemoryReader>(
    p: &LinuxProfile,
    memory: &M,
    base: u64,
    st: &str,
    field: &str,
) -> (r: Result<Option<u64>, LinuxVmiError>)
    ensures
        match r {
            Ok(v) => pointer_field(*p, memory.mapped(), base, st@, field@) == Ok::<Option<u64>, Fault>(v),
            Err(e) => pointer_field(*p, memory.mapped(), base, st@, field@) matches Err(f) && fault_fits(e, f),
        },
{
    match p.offset(st, field) {
        None => Ok(None),
        Some(o) => {
            let a = add_checked(base, o)?;
            let v = read_u64(memory, a)?;
            Ok(Some(v))
        },
    }
}

/// The task structure at `address`.
pub fn read_task<M: LinuxVirtualMemoryReader>(p: &LinuxProfile, memory: &M, address: u64) -> (r: Result<
    LinuxTask,
    LinuxVmiError,
>)
    ensures
        match r {
            Ok(t) => task_at(*p, memory.mapped(), address) == Ok::<LinuxTaskView, Fault>(t@),
            Err(e) => task_at(*p, memory.mapped(), address) matches Err(f) && fault_fits(e, f),
        },
{
    let po = required_field(p, "task_struct", "pid")?.offset;
    let pa = add_checked(address, po)?;
    let pid = read_i32(memory, pa)?;
    let to = match p.offset("task_struct", "tgid") {
        Some(o) => o,
        None => po,
    };
    let ta = add_checked(address, to)?;
    let tgid = read_i32(memory, ta)?;
    let cf = required_field(p, "task_struct", "comm")?;
    let ca = add_checked(address, cf.offset)?;
    let sz = field_size(cf, 16)?;
    let comm = read_c_string(memory, ca, sz)?;
    let mm = optional_pointer(p, memory, address, "task_struct", "mm")?;
    let cred = optional_pointer(p, memory, address, "task_struct", "cred")?;
    Ok(LinuxTask { address, pid, tgid, comm, mm, cred })
}

/// The module structure at `address`.
pub fn read_module<M: LinuxVirtualMemoryReader>(p: &LinuxProfile, memory: &M, address: u64) -> (r: Result<
    LinuxModule,
    LinuxVmiError,
>)
    ensures
        match r {
            Ok(md) => module_at(*p, memory.mapped(), address) == Ok::<LinuxModuleView, Fault>(md@),
            Err(e) => module_at(*p, memory.mapped(), address) matches Err(f) && fault_fits(e, f),
        },
{
    let nf = required_field(p, "module", "name")?;
    let na = add_checked(address, nf.offset)?;
    let sz = field_size(nf, 56)?;
    let name = read_c_string(memory, na, sz)?;
    let so = required_field(p, "module", "state")?.offset;
    let sa = add_checked(address, so)?;
    let state = read_i32(memory, sa)?;
    let bo = match p.offset("module", "text_base") {
        Some(o) => o,
        None => required_field(p, "module", "core_base")?.offset,
    };
    let ba = add_checked(address, bo)?;
    let text_base = read_u64(memory, ba)?;
    let zo = required_field(p, "module", "text_size")?.offset;
    let za = add_checked(address, zo)?;
    let text_size = read_u64(memory, za)?;
    if text_size == 0 {
        return Err(inconsistent(cat3("module '", name.as_str(), "' has an empty executable text range")));
    }
    Ok(LinuxModule { address, name, state, text_base, text_size })
}


// ---------------------------------------------------------------------------
// List walks
// ---------------------------------------------------------------------------

/// Bounds on the kernel lists that a walk follows.
#[derive(Debug, Clone, Copy, PartialEq, Eq)]
pub struct LinuxWalkLimits {
    pub max_tasks: usize,
    pub max_modules: usize,
}

impl Default for LinuxWalkLimits {
    fn default() -> (r: Self)
        ensures
            r.max_tasks == 4096,
            r.max_modules == 1024,
    {
        LinuxWalkLimits { max_tasks: 4096, max_modules: 1024 }
    }
}

/// A walk of a circular kernel list from `node` back to `head`: each node
/// is an embedded list link `off` bytes into its structure, whose first
/// word is the next node. The walk refuses more than `max` items, a node
/// seen before, and a node below `off`.
pub open spec fn list_walk<T>(
    m: Map<int, u8>,
    head: u64,
    off: u64,
    node: u64,
    max: nat,
    visited: Seq<u64>,
    acc: Seq<T>,
    item: spec_fn(u64) -> Result<T, Fault>,
) -> Result<Seq<T>, Fault>
    decreases max - acc.len(),
{
    if node == head {
        Ok(acc)
    } else if acc.len() >= max {
        Err(Fault::Of(VmiErrorKind::InconsistentSnapshot))
    } else if visited.contains(node) {
        Err(Fault::Of(VmiErrorKind::InconsistentSnapshot))
    } else if node < off {
        Err(Fault::Of(VmiErrorKind::InconsistentSnapshot))
    } else {
        match item((node - off) as u64) {
            Err(f) => Err(f),
            Ok(x) => match u64_at(m, node) {
                None => Err(Fault::ReadFailed),
                Some(next) => list_walk(m, head, off, next, max, visited.push(node), acc.push(x), item),
            },
        }
    }
}

pub open spec fn task_item(p: LinuxProfile, m: Map<int, u8>) -> spec_fn(u64) -> Result<LinuxTaskView, Fault> {
    |a: u64| task_at(p, m, a)
}

pub open spec fn module_item(p: LinuxProfile, m: Map<int, u8>) -> spec_fn(u64) -> Result<LinuxModuleView, Fault> {
    |a: u64| module_at(p, m, a)
}

/// The address of a symbol plus the KASLR slide.
pub open spec fn slid_symbol_of(p: LinuxProfile, name: Seq<char>, slide: u64) -> Result<u64, Fault> {
    match symbol_of(p, name) {
        None => Err(Fault::Of(VmiErrorKind::MissingProfile)),
        Some(s) => if s.virtual_address + slide <= u64::MAX {
            Ok((s.virtual_address + slide) as u64)
        } else {
            Err(Fault::Of(VmiErrorKind::InconsistentSnapshot))
        },
    }
}

/// The offset of a field that the walk needs.
pub open spec fn needed_offset(p: LinuxProfile, st: Seq<char>, field: Seq<char>) -> Result<u64, Fault> {
    match offset_of(p, st, field) {
        None => Err(Fault::Of(VmiErrorKind::MissingProfile)),
        Some(o) => Ok(o),
    }
}

/// The kernel's tasks: `init_task`, then the tasks on its `tasks` list.
pub open spec fn tasks_of(p: LinuxProfile, m: Map<int, u8>, slide: u64, max: nat) -> Result<
    Seq<LinuxTaskView>,
    Fault,
> {
    match slid_symbol_of(p, "init_task"@, slide) {
        Err(f) => Err(f),
        Ok(init) => match needed_offset(p, "task_struct"@, "tasks"@) {
            Err(f) => Err(f),
            Ok(toff) => match add_at(init, toff) {
                Err(f) => Err(f),
                Ok(head) => match task_at(p, m, init) {
                    Err(f) => Err(f),
                    Ok(first) => match u64_at(m, head) {
                        None => Err(Fault::ReadFailed),
                        Some(node) => list_walk(m, head, toff, node, max, seq![head], seq![first], task_item(p, m)),
                    },
                },
            },
        },
    }
}

/// The kernel's loaded modules, from the `modules` list.
pub open spec fn modules_of(p: LinuxProfile, m: Map<int, u8>, slide: u64, max: nat) -> Result<
    Seq<LinuxModuleView>,
    Fault,
> {
    match slid_symbol_of(p, "modules"@, slide) {
        Err(f) => Err(f),
        Ok(head) => match needed_offset(p, "module"@, "list"@) {
            Err(f) => Err(f),
            Ok(off) => match u64_at(m, head) {
                None => Err(Fault::ReadFailed),
                Some(node) => list_walk(m, head, off, node, max, Seq::empty(), Seq::empty(), module_item(p, m)),
            },
        },
    }
}

/// The address of a symbol plus the slide.
fn slid_symbol(p: &LinuxProfile, name: &str, slide: u64) -> (r: Result<u64, LinuxVmiError>)
    ensures
        match r {
            Ok(a) => slid_symbol_of(*p, name@, slide) == Ok::<u64, Fault>(a),
            Err(e) => slid_symbol_of(*p, name@, slide) matches Err(f) && fault_fits(e, f),
        },
{
    match p.symbol(name) {
        None => Err(LinuxVmiError::MissingProfileField { field: cat3("symbol:", name, "") }),
        Some(s) => {
            if s.virtual_address > u64::MAX - slide {
                Err(inconsistent(cat3("symbol '", name, "' plus slide overflows u64")))
            } else {
                Ok(s.virtual_address + slide)
            }
        },
    }
}

pub fn contains_node(v: &Vec<u64>, x: u64) -> (r: bool)
    ensures
        r == v@.contains(x),
{
    let mut i: usize = 0;
    while i < v.len()
        invariant
            i <= v@.len(),
            forall|k: int| 0 <= k < i ==> v@[k] != x,
        decreases v@.len() - i,
    {
        if v[i] == x {
            assert(v@[i as int] == x);
            return true;
        }
        i = i + 1;
    }
    false
}

fn limit_error(what: &str, max: usize) -> (e: LinuxVmiError)
    ensures
        e.kind_of() == VmiErrorKind::InconsistentSnapshot,
{
    let n = u64_to_dec(max as u64);
    inconsistent(cat3(what, " exceeded configured limit ", n.as_str()))
}

fn loop_error(what: &str, node: u64) -> (e: LinuxVmiError)
    ensures
        e.kind_of() == VmiErrorKind::InconsistentSnapshot,
{
    let h = crate::text::u64_to_hex(node);
    inconsistent(cat3(what, " looped before returning to head at 0x", h.as_str()))
}

fn below_offset_error(what: &str, node: u64, off: u64) -> (e: LinuxVmiError)
    ensures
        e.kind_of() == VmiErrorKind::InconsistentSnapshot,
{
    let h = crate::text::u64_to_hex(node);
    let o = crate::text::u64_to_hex(off);
    let mut d = cat3(what, " node 0x", h.as_str());
    push_str(&mut d, " is smaller than list offset 0x");
    push_str(&mut d, o.as_str());
    inconsistent(d)
}

/// Walks the task list from `init_task`.
pub fn walk_linux_tasks<M: LinuxVirtualMemoryReader>(
    profile: &LinuxProfile,
    memory: &M,
    slide: u64,
    limits: LinuxWalkLimits,
) -> (r: Result<Vec<LinuxTask>, LinuxVmiError>)
    ensures
        match r {
            Ok(v) => tasks_of(*profile, memory.mapped(), slide, limits.max_tasks as nat) == Ok::<
                Seq<LinuxTaskView>,
                Fault,
            >(v@.map_values(|t: LinuxTask| t@)),
            Err(e) => tasks_of(*profile, memory.mapped(), slide, limits.max_tasks as nat) matches Err(f)
                && fault_fits(e, f),
        },
{
    let ghost m = memory.mapped();
    let ghost item = task_item(*profile, m);
    let init = slid_symbol(profile, "init_task", slide)?;
    let toff = required_field(profile, "task_struct", "tasks")?.offset;
    let head = add_checked(init, toff)?;
    let first = read_task(profile, memory, init)?;
    let mut out: Vec<LinuxTask> = Vec::new();
    out.push(first);
    let mut visited: Vec<u64> = Vec::new();
    visited.push(head);
    let mut node = read_u64(memory, head)?;
    let max = limits.max_tasks;
    proof {
        assert(out@.map_values(|t: LinuxTask| t@) =~= seq![first@]);
        assert(visited@ =~= seq![head]);
    }
    while node != head
        invariant
            m == memory.mapped(),
            item == task_item(*profile, m),
            max == limits.max_tasks,
            out@.len() <= max + 1,
            list_walk(m, head, toff, node, max as nat, visited@, out@.map_values(|t: LinuxTask| t@), item)
                == tasks_of(*profile, m, slide, max as nat),
        decreases max + 1 - out@.len(),
    {
        if out.len() >= max {
            return Err(limit_error("task list", max));
        }
        if contains_node(&visited, node) {
            return Err(loop_error("task list", node));
        }
        if node < toff {
            return Err(below_offset_error("task list", node, toff));
        }
        let t = read_task(profile, memory, node - toff)?;
        let ghost before = out@.map_values(|t: LinuxTask| t@);
        out.push(t);
        assert(out@.map_values(|t: LinuxTask| t@) =~= before.push(t@));
        visited.push(node);
        node = read_u64(memory, node)?;
    }
    Ok(out)
}

/// Walks the module list.
pub fn walk_linux_modules<M: LinuxVirtualMemoryReader>(
    profile: &LinuxProfile,
    memory: &M,
    slide: u64,
    limits: LinuxWalkLimits,
) -> (r: Result<Vec<LinuxModule>, LinuxVmiError>)
    ensures
        match r {
            Ok(v) => modules_of(*profile, memory.mapped(), slide, limits.max_modules as nat) == Ok::<
                Seq<LinuxModuleView>,
                Fault,
            >(v@.map_values(|x: LinuxModule| x@)),
            Err(e) => modules_of(*profile, memory.mapped(), slide, limits.max_modules as nat) matches Err(
                f,
            ) && fault_fits(e, f),
        },
{
    let ghost m = memory.mapped();
    let ghost item = module_item(*profile, m);
    let head = slid_symbol(profile, "modules", slide)?;
    let off = required_field(profile, "module", "list")?.offset;
    let mut out: Vec<LinuxModule> = Vec::new();
    let mut visited: Vec<u64> = Vec::new();
    let mut node = read_u64(memory, head)?;
    let max = limits.max_modules;
    proof {
        assert(out@.map_values(|x: LinuxModule| x@) =~= Seq::<LinuxModuleView>::empty());
        assert(visited@ =~= Seq::<u64>::empty());
    }
    while node != head
        invariant
            m == memory.mapped(),
            item == module_item(*profile, m),
            max == limits.max_modules,
            out@.len() <= max,
            list_walk(m, head, off, node, max as nat, visited@, out@.map_values(|x: LinuxModule| x@), item)
                == modules_of(*profile, m, slide, max as nat),
        decreases max - out@.len(),
    {
        if out.len() >= max {
            return Err(limit_error("module list", max));
        }
        if contains_node(&visited, node) {
            return Err(loop_error("module list", node));
        }
        if node < off {
            return Err(below_offset_error("module list", node, off));
        }
        let md = read_module(profile, memory, node - off)?;
        let ghost before = out@.map_values(|x: LinuxModule| x@);
        out.push(md);
        assert(out@.map_values(|x: LinuxModule| x@) =~= before.push(md@));
        visited.push(node);
        node = read_u64(memory, node)?;
    }
    Ok(out)
}


/// The task that the profile's per-vCPU current-task pointer names: the
/// symbol `aegishv_current_task_vcpu<n>`, else `aegishv_current_task`.
pub open spec fn current_task_of(p: LinuxProfile, m: Map<int, u8>, slide: u64, vcpu: u32) -> Result<
    LinuxTaskView,
    Fault,
> {
    let per_vcpu = "aegishv_current_task_vcpu"@ + dec(vcpu as nat);
    let pointer = if symbol_of(p, per_vcpu) is Some {
        slid_symbol_of(p, per_vcpu, slide)
    } else {
        match slid_symbol_of(p, "aegishv_current_task"@, slide) {
            Ok(a) => Ok(a),
            Err(_) => Err(Fault::Of(VmiErrorKind::Unsupported)),
        }
    };
    match pointer {
        Err(f) => Err(f),
        Ok(a) => match u64_at(m, a) {
            None => Err(Fault::ReadFailed),
            Some(t) => if t == 0 {
                Err(Fault::Of(VmiErrorKind::InconsistentSnapshot))
            } else {
                task_at(p, m, t)
            },
        },
    }
}

/// The task that runs on `vcpu`.
pub fn resolve_linux_current_task<M: LinuxVirtualMemoryReader>(
    profile: &LinuxProfile,
    memory: &M,
    slide: u64,
    vcpu: u32,
) -> (r: Result<LinuxTask, LinuxVmiError>)
    ensures
        match r {
            Ok(t) => current_task_of(*profile, memory.mapped(), slide, vcpu) == Ok::<LinuxTaskView, Fault>(t@),
            Err(e) => current_task_of(*profile, memory.mapped(), slide, vcpu) matches Err(f) && fault_fits(e, f),
        },
{
    let n = u64_to_dec(vcpu as u64);
    let mut name = owned("aegishv_current_task_vcpu");
    push_str(&mut name, n.as_str());
    let pointer = if profile.symbol(name.as_str()).is_some() {
        slid_symbol(profile, name.as_str(), slide)?
    } else {
        match slid_symbol(profile, "aegishv_current_task", slide) {
            Ok(a) => a,
            Err(_) => {
                return Err(
                    LinuxVmiError::Unsupported {
                        operation: owned("resolve_current_task"),
                        detail: cat3("profile has no current-task pointer symbol for vCPU ", n.as_str(), ""),
                    },
                );
            },
        }
    };
    let task = read_u64(memory, pointer)?;
    if task == 0 {
        return Err(inconsistent(cat3("current task pointer for vCPU ", n.as_str(), " is null")));
    }
    read_task(profile, memory, task)
}

// ---------------------------------------------------------------------------
// Executable text ranges
// ---------------------------------------------------------------------------

/// A range `[start, end)` of executable guest text and what owns it.
#[derive(Debug, Clone, PartialEq, Eq)]
pub struct LinuxTextRange {
    pub owner: String,
    pub start: u64,
    pub end: u64,
}

pub open spec fn in_text_range(r: LinuxTextRange, address: u64) -> bool {
    r.start <= address && address < r.end
}

/// The index of the first range from `i` on that holds `address`.
pub open spec fn text_range_index(ranges: Seq<LinuxTextRange>, address: u64, i: int) -> Option<int>
    decreases ranges.len() - i,
{
    if i < 0 || i >= ranges.len() {
        None
    } else if in_text_range(ranges[i], address) {
        Some(i)
    } else {
        text_range_index(ranges, address, i + 1)
    }
}

/// The owner of the first range that holds `address`.
pub open spec fn text_owner(ranges: Seq<LinuxTextRange>, address: u64) -> Option<Seq<char>> {
    match text_range_index(ranges, address, 0) {
        Some(i) => Some(ranges[i].owner@),
        None => None,
    }
}

/// The first range that holds `address`.
pub fn address_in_text_ranges(address: u64, ranges: &[LinuxTextRange]) -> (r: Option<&LinuxTextRange>)
    ensures
        match r {
            Some(x) => text_range_index(ranges@, address, 0) matches Some(i) && *x == ranges@[i],
            None => text_range_index(ranges@, address, 0) is None,
        },
{
    let mut i: usize = 0;
    while i < ranges.len()
        invariant
            i <= ranges@.len(),
            text_range_index(ranges@, address, i as int) == text_range_index(ranges@, address, 0),
        decreases ranges@.len() - i,
    {
        if ranges[i].start <= address && address < ranges[i].end {
            return Some(&ranges[i]);
        }
        i = i + 1;
    }
    None
}

/// The owner of the first range that holds `address`, as an owned string.
pub fn text_owner_of(address: u64, ranges: &[LinuxTextRange]) -> (r: Option<String>)
    ensures
        match r {
            Some(o) => text_owner(ranges@, address) == Some(o@),
            None => text_owner(ranges@, address) is None,
        },
{
    match address_in_text_ranges(address, ranges) {
        Some(x) => Some(owned(x.owner.as_str())),
        None => None,
    }
}

/// The end of the kernel's own text: `_etext`, else `_stext` plus its size.
pub open spec fn vmlinux_text_end(p: LinuxProfile) -> Option<int> {
    match symbol_of(p, "_stext"@) {
        None => None,
        Some(st) => match symbol_of(p, "_etext"@) {
            Some(e) => Some(e.virtual_address as int),
            None => match st.size {
                Some(sz) => Some(st.virtual_address + sz),
                None => None,
            },
        },
    }
}

/// The kernel text range and each module's text range.
pub open spec fn executable_ranges_of(p: LinuxProfile, modules: Seq<LinuxModule>, slide: u64) -> Seq<
    (Seq<char>, int, int),
> {
    let kernel: Seq<(Seq<char>, int, int)> = match vmlinux_text_end(p) {
        Some(end) => seq![("vmlinux"@, symbol_of(p, "_stext"@)->0.virtual_address + slide, end + slide)],
        None => Seq::empty(),
    };
    kernel + modules.map_values(
        |md: LinuxModule|
            (
                md.name@,
                md.text_base as int,
                if md.text_base + md.text_size <= u64::MAX {
                    md.text_base + md.text_size
                } else {
                    u64::MAX as int
                },
            ),
    )
}

pub open spec fn range_view(r: LinuxTextRange) -> (Seq<char>, int, int) {
    (r.owner@, r.start as int, r.end as int)
}

/// The kernel text bounds plus the slide fit in 64 bits.
pub open spec fn kernel_text_fits(p: LinuxProfile, slide: u64) -> bool {
    match vmlinux_text_end(p) {
        Some(end) => {
            &&& symbol_of(p, "_stext"@)->0.virtual_address + slide <= u64::MAX
            &&& end <= u64::MAX
            &&& end + slide <= u64::MAX
        },
        None => true,
    }
}

/// The executable text ranges: the kernel's (from `_stext`) and each
/// module's; an error when there is none.
pub fn linux_executable_ranges(profile: &LinuxProfile, modules: &[LinuxModule], slide: u64) -> (r: Result<
    Vec<LinuxTextRange>,
    LinuxVmiError,
>)
    requires
        kernel_text_fits(*profile, slide),
    ensures
        match r {
            Ok(v) => v@.map_values(|x: LinuxTextRange| range_view(x)) == executable_ranges_of(
                *profile,
                modules@,
                slide,
            ) && v@.len() > 0,
            Err(e) => executable_ranges_of(*profile, modules@, slide).len() == 0 && e
                == LinuxVmiError::MissingProfileField { field: e->field } && e->field@
                == "vmlinux text range or module text ranges"@,
        },
{
    let mut ranges: Vec<LinuxTextRange> = Vec::new();
    match profile.symbol("_stext") {
        Some(st) => {
            let end = match profile.symbol("_etext") {
                Some(e) => Some(e.virtual_address),
                None => match st.size {
                    Some(sz) => Some(st.virtual_address + sz),
                    None => None,
                },
            };
            match end {
                Some(end) => {
                    ranges.push(
                        LinuxTextRange { owner: owned("vmlinux"), start: st.virtual_address + slide, end: end + slide },
                    );
                },
                None => {},
            }
        },
        None => {},
    }
    let ghost kernel = ranges@.map_values(|x: LinuxTextRange| range_view(x));
    let ghost want = executable_ranges_of(*profile, modules@, slide);
    proof {
        assert(want.take(kernel.len() as int) =~= kernel);
    }
    let mut i: usize = 0;
    while i < modules.len()
        invariant
            i <= modules@.len(),
            want == executable_ranges_of(*profile, modules@, slide),
            kernel.len() + modules@.len() == want.len(),
            ranges@.map_values(|x: LinuxTextRange| range_view(x)) == want.take(kernel.len() + i),
        decreases modules@.len() - i,
    {
        let md = &modules[i];
        let end = if md.text_base > u64::MAX - md.text_size {
            u64::MAX
        } else {
            md.text_base + md.text_size
        };
        let ghost before = ranges@.map_values(|x: LinuxTextRange| range_view(x));
        ranges.push(LinuxTextRange { owner: owned(md.name.as_str()), start: md.text_base, end });
        proof {
            let k = kernel.len() + i;
            assert(want[k] == range_view(ranges@[ranges@.len() - 1]));
            assert(want.take(k + 1) =~= want.take(k).push(want[k]));
            assert(ranges@.map_values(|x: LinuxTextRange| range_view(x)) =~= before.push(range_view(ranges@[ranges@.len() - 1])));
        }
        i = i + 1;
    }
    proof {
        assert(want.take(want.len() as int) =~= want);
    }
    if ranges.len() == 0 {
        return Err(LinuxVmiError::MissingProfileField { field: owned("vmlinux text range or module text ranges") });
    }
    Ok(ranges)
}


} // verus!
