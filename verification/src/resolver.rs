//! The identity resolver: libvirt lifecycle events, cgroup parsing, the
//! per-task identity cache, and the decisions that turn what was read from
//! the host into a VM identity for a host task.
use vstd::prelude::*;
use crate::config::Identity;
use crate::identity::{
    apply_libvirt_discovery, libvirt_discovery_applied, IdentityCacheResult, IdentityConflict,
    IdentityConflictReason, LibvirtDomainDiscovery, VmInventorySnapshot,
    cgroup_merged, merge_cgroup_identity, opt_text, parse_arg_value, parse_qemu_name, arg_value_from,
    qemu_name_of, push_identity_source, recompute_identity_confidence, confidence_of, stable_pid_id,
    stable_pid_text, with_source, VmIdentity, IDENTITY_SOURCE_FALLBACK_PID, IDENTITY_SOURCE_PROC_CMDLINE,
    IDENTITY_SOURCE_QMP_SOCKET_HINT,
    find_first, first_occurrence, last_index, HostTaskIdentity, LibvirtDomain, LibvirtDomainSource,
    QemuVcpuThread,
};
use crate::spool::radix16;
use vstd::utf8::encode_utf8;
use crate::text::{
    contains_seq, ends_with, has_suffix, is_hex_digit, hex_value, lines, lines_of, push_char, split_char, split_on, starts_with, views,
    ascii_lower, chars_eq, eq_lit, owned, string_of, to_ascii_lower, to_chars, trim, trim_owned,
};

verus! {

// ---------------------------------------------------------------------------
// Lifecycle events
// ---------------------------------------------------------------------------

/// What happened to a libvirt domain.
#[derive(Debug, Clone, Copy, PartialEq, Eq, Structural)]
pub enum LibvirtLifecycleKind {
    Started,
    Stopped,
    Paused,
    Resumed,
    Migrated,
}

/// The kind a lifecycle event names, once trimmed and lower-cased.
pub open spec fn lifecycle_kind_of(k: Seq<char>) -> Option<LibvirtLifecycleKind> {
    if k == "start"@ || k == "started"@ {
        Some(LibvirtLifecycleKind::Started)
    } else if k == "stop"@ || k == "stopped"@ {
        Some(LibvirtLifecycleKind::Stopped)
    } else if k == "pause"@ || k == "paused"@ {
        Some(LibvirtLifecycleKind::Paused)
    } else if k == "resume"@ || k == "resumed"@ {
        Some(LibvirtLifecycleKind::Resumed)
    } else if k == "migrate"@ || k == "migrated"@ {
        Some(LibvirtLifecycleKind::Migrated)
    } else {
        None
    }
}

impl LibvirtLifecycleKind {
    pub open spec fn name(self) -> Seq<char> {
        match self {
            LibvirtLifecycleKind::Started => "started"@,
            LibvirtLifecycleKind::Stopped => "stopped"@,
            LibvirtLifecycleKind::Paused => "paused"@,
            LibvirtLifecycleKind::Resumed => "resumed"@,
            LibvirtLifecycleKind::Migrated => "migrated"@,
        }
    }

    /// The kind's name.
    pub fn as_str(self) -> (r: &'static str)
        ensures
            r@ == self.name(),
    {
        match self {
            LibvirtLifecycleKind::Started => "started",
            LibvirtLifecycleKind::Stopped => "stopped",
            LibvirtLifecycleKind::Paused => "paused",
            LibvirtLifecycleKind::Resumed => "resumed",
            LibvirtLifecycleKind::Migrated => "migrated",
        }
    }

    /// Reads a kind, ignoring surrounding whitespace and case; an unknown
    /// kind is an `UnsupportedKind` error holding the normalised text.
    pub fn try_from(value: &str) -> (r: Result<Self, LibvirtLifecycleError>)
        ensures
            r matches Ok(k) ==> lifecycle_kind_of(ascii_lower(trim(value@))) == Some(k),
            r matches Err(e) ==> lifecycle_kind_of(ascii_lower(trim(value@))) is None && e
                == LibvirtLifecycleError::UnsupportedKind(e->UnsupportedKind_0) && e->UnsupportedKind_0@
                == ascii_lower(trim(value@)),
    {
        let t = trim_owned(value);
        let k = to_ascii_lower(t.as_str());
        if eq_lit(&k, "start") || eq_lit(&k, "started") {
            Ok(LibvirtLifecycleKind::Started)
        } else if eq_lit(&k, "stop") || eq_lit(&k, "stopped") {
            Ok(LibvirtLifecycleKind::Stopped)
        } else if eq_lit(&k, "pause") || eq_lit(&k, "paused") {
            Ok(LibvirtLifecycleKind::Paused)
        } else if eq_lit(&k, "resume") || eq_lit(&k, "resumed") {
            Ok(LibvirtLifecycleKind::Resumed)
        } else if eq_lit(&k, "migrate") || eq_lit(&k, "migrated") {
            Ok(LibvirtLifecycleKind::Migrated)
        } else {
            Err(LibvirtLifecycleError::UnsupportedKind(string_of(&k)))
        }
    }
}

/// Why a lifecycle event could not be taken.
#[derive(Debug, Clone, PartialEq, Eq)]
pub enum LibvirtLifecycleError {
    UnsupportedKind(String),
    MalformedEvent(String),
    Source(String),
}

impl LibvirtLifecycleError {
    pub open spec fn message_spec(&self) -> Seq<char> {
        match self {
            LibvirtLifecycleError::UnsupportedKind(k) => "unsupported libvirt lifecycle event kind: "@ + k@,
            LibvirtLifecycleError::MalformedEvent(d) => "malformed libvirt lifecycle event: "@ + d@,
            LibvirtLifecycleError::Source(d) => "libvirt lifecycle source error: "@ + d@,
        }
    }

    /// The error as text.
    pub fn message(&self) -> (r: String)
        ensures
            r@ == self.message_spec(),
    {
        let (head, tail) = match self {
            LibvirtLifecycleError::UnsupportedKind(k) => ("unsupported libvirt lifecycle event kind: ", k),
            LibvirtLifecycleError::MalformedEvent(d) => ("malformed libvirt lifecycle event: ", d),
            LibvirtLifecycleError::Source(d) => ("libvirt lifecycle source error: ", d),
        };
        let mut out = owned(head);
        crate::text::push_str(&mut out, tail.as_str());
        out
    }
}

/// A lifecycle event for one libvirt domain.
#[derive(Debug, Clone, PartialEq, Eq)]
pub struct LibvirtLifecycleEvent {
    pub kind: LibvirtLifecycleKind,
    pub uuid: String,
    pub name: Option<String>,
    pub qemu_pid: Option<i32>,
    pub qemu_tids: Vec<i32>,
    pub vcpu_threads: Vec<QemuVcpuThread>,
    pub qmp_socket: Option<String>,
}

/// `s` is in strictly increasing order.
pub open spec fn strictly_increasing(s: Seq<i32>) -> bool {
    forall|i: int, j: int| 0 <= i < j < s.len() ==> s[i] < s[j]
}

/// The tids of `threads`.
pub open spec fn thread_tids(threads: Seq<QemuVcpuThread>) -> Seq<i32> {
    threads.map_values(|t: QemuVcpuThread| t.tid)
}

/// Inserts `x` into the sorted, duplicate-free `v`.
pub fn insert_sorted_i32(v: &mut Vec<i32>, x: i32)
    requires
        strictly_increasing(old(v)@),
    ensures
        strictly_increasing(final(v)@),
        final(v)@.to_set() == old(v)@.to_set().insert(x),
{
    let n = v.len();
    let mut i: usize = 0;
    while i < n && v[i] < x
        invariant
            n == v@.len(),
            i <= n,
            forall|k: int| 0 <= k < i ==> v@[k] < x,
        decreases n - i,
    {
        i = i + 1;
    }
    if i < n && v[i] == x {
        assert(old(v)@.to_set().insert(x) =~= old(v)@.to_set());
        return;
    }
    let ghost before = v@;
    v.insert(i, x);
    assert(v@ =~= before.subrange(0, i as int).push(x) + before.subrange(i as int, n as int));
    assert forall|a: int, b: int| 0 <= a < b < v@.len() implies v@[a] < v@[b] by {
        if b < i {
        } else if a < i && b == i {
        } else if a < i {
            assert(v@[b] == before[b - 1]);
        } else if a == i {
            assert(v@[b] == before[b - 1]);
            assert(before[i as int] > x);
            if b - 1 > i {
                assert(before[i as int] < before[b - 1]);
            }
        } else {
            assert(v@[a] == before[a - 1]);
            assert(v@[b] == before[b - 1]);
        }
    }
    assert forall|y: i32| v@.to_set().contains(y) <==> before.to_set().insert(x).contains(y) by {
        if v@.to_set().contains(y) {
            let k = choose|k: int| 0 <= k < v@.len() && v@[k] == y;
            if k < i {
                assert(before[k] == y);
            } else if k > i {
                assert(before[k - 1] == y);
            }
        }
        if before.to_set().contains(y) {
            let k = choose|k: int| 0 <= k < before.len() && before[k] == y;
            if k < i {
                assert(v@[k] == y);
            } else {
                assert(v@[k + 1] == y);
            }
        }
        if y == x {
            assert(v@[i as int] == x);
        }
    }
    assert(v@.to_set() =~= before.to_set().insert(x));
}

impl LibvirtLifecycleEvent {
    /// Every task the event names: the pid, the tids, the vCPU threads.
    pub open spec fn named_tasks(&self) -> Set<i32> {
        let p = match self.qemu_pid {
            Some(pid) => set![pid],
            None => Set::empty(),
        };
        p + self.qemu_tids@.to_set() + thread_tids(self.vcpu_threads@).to_set()
    }

    /// The tasks the event names, sorted, each once.
    pub fn task_ids(&self) -> (r: Vec<i32>)
        ensures
            strictly_increasing(r@),
            r@.to_set() == self.named_tasks(),
    {
        let mut tasks: Vec<i32> = Vec::new();
        let ghost p = match self.qemu_pid {
            Some(pid) => set![pid],
            None => Set::<i32>::empty(),
        };
        if let Some(pid) = self.qemu_pid {
            insert_sorted_i32(&mut tasks, pid);
        }
        assert(tasks@.to_set() =~= p);
        let mut i: usize = 0;
        while i < self.qemu_tids.len()
            invariant
                i <= self.qemu_tids@.len(),
                strictly_increasing(tasks@),
                tasks@.to_set() == p + self.qemu_tids@.take(i as int).to_set(),
            decreases self.qemu_tids@.len() - i,
        {
            insert_sorted_i32(&mut tasks, self.qemu_tids[i]);
            assert(self.qemu_tids@.take(i + 1) =~= self.qemu_tids@.take(i as int).push(self.qemu_tids@[i as int]));
            proof {
                self.qemu_tids@.take(i as int).lemma_push_to_set_commute(self.qemu_tids@[i as int]);
            }
            assert(tasks@.to_set() =~= p + self.qemu_tids@.take(i + 1).to_set());
            i = i + 1;
        }
        assert(self.qemu_tids@.take(i as int) =~= self.qemu_tids@);
        let ghost q = p + self.qemu_tids@.to_set();
        let ghost tt = thread_tids(self.vcpu_threads@);
        let mut j: usize = 0;
        while j < self.vcpu_threads.len()
            invariant
                j <= self.vcpu_threads@.len(),
                tt == thread_tids(self.vcpu_threads@),
                strictly_increasing(tasks@),
                tasks@.to_set() == q + tt.take(j as int).to_set(),
            decreases self.vcpu_threads@.len() - j,
        {
            let tid = self.vcpu_threads[j].tid;
            insert_sorted_i32(&mut tasks, tid);
            assert(tt.take(j + 1) =~= tt.take(j as int).push(tid));
            proof {
                tt.take(j as int).lemma_push_to_set_commute(tid);
            }
            assert(tasks@.to_set() =~= q + tt.take(j + 1).to_set());
            j = j + 1;
        }
        assert(tt.take(j as int) =~= tt);
        tasks
    }
}


// ---------------------------------------------------------------------------
// cgroup paths
// ---------------------------------------------------------------------------

/// The text after the last `:` of `line`, all of it without one.
pub open spec fn after_last_colon(line: Seq<char>) -> Seq<char> {
    match last_index(line, ':') {
        Some(i) => line.skip(i + 1),
        None => line,
    }
}

/// The piece of `path` between the first `/libvirt/qemu/` and the next one
/// (or the end), when there is a first.
pub open spec fn libvirt_qemu_piece(path: Seq<char>) -> Option<Seq<char>> {
    match first_occurrence(path, "/libvirt/qemu/"@) {
        None => None,
        Some(i) => {
            let rest = path.skip(i + 14);
            match first_occurrence(rest, "/libvirt/qemu/"@) {
                Some(j) => Some(rest.take(j)),
                None => Some(rest),
            }
        },
    }
}

/// `s` without any leading `c`.
pub open spec fn trim_start_char(s: Seq<char>, c: char) -> Seq<char>
    decreases s.len(),
{
    if s.len() > 0 && s[0] == c {
        trim_start_char(s.skip(1), c)
    } else {
        s
    }
}

/// `s` without any trailing `c`.
pub open spec fn trim_end_char(s: Seq<char>, c: char) -> Seq<char>
    decreases s.len(),
{
    if s.len() > 0 && s.last() == c {
        trim_end_char(s.drop_last(), c)
    } else {
        s
    }
}

/// `s` without any number of trailing copies of `t`.
pub open spec fn strip_suffix_all(s: Seq<char>, t: Seq<char>) -> Seq<char>
    decreases s.len(),
{
    if t.len() > 0 && ends_with(s, t) {
        strip_suffix_all(s.take(s.len() - t.len()), t)
    } else {
        s
    }
}

/// `s` without any number of leading copies of `t`.
pub open spec fn strip_prefix_all(s: Seq<char>, t: Seq<char>) -> Seq<char>
    decreases s.len(),
{
    if t.len() > 0 && starts_with(s, t) {
        strip_prefix_all(s.skip(t.len() as int), t)
    } else {
        s
    }
}

/// A path segment that names a QEMU systemd scope.
pub open spec fn is_qemu_scope(p: Seq<char>) -> bool {
    contains_seq(p, "qemu"@) && ends_with(p, ".scope"@)
}

/// The first segment of `segs` that names a QEMU systemd scope.
pub open spec fn first_qemu_scope(segs: Seq<Seq<char>>) -> Option<Seq<char>>
    decreases segs.len(),
{
    if segs.len() == 0 {
        None
    } else if is_qemu_scope(segs[0]) {
        Some(segs[0])
    } else {
        first_qemu_scope(segs.drop_first())
    }
}

/// An ASCII hex digit byte.
pub open spec fn is_hex_byte(b: u8) -> bool {
    is_hex_digit(b as char)
}

/// What `u8::from_str_radix` makes of the two bytes of an escape, when
/// they read as a base-16 number.
pub open spec fn escape_value(b0: u8, b1: u8) -> Option<u8> {
    match radix16(seq![b0 as char, b1 as char]) {
        Some(v) => Some(v as u8),
        None => None,
    }
}

/// systemd's `\xNN` unescaping, byte by byte: an escape becomes the
/// character with that code, any other byte the character with the
/// byte's code.
pub open spec fn systemd_unescape(b: Seq<u8>) -> Seq<char>
    decreases b.len(),
{
    if b.len() == 0 {
        Seq::empty()
    } else if b.len() >= 4 && b[0] == 92 && b[1] == 120 && escape_value(b[2], b[3]) is Some {
        seq![(escape_value(b[2], b[3])->0) as char] + systemd_unescape(b.skip(4))
    } else {
        seq![b[0] as char] + systemd_unescape(b.skip(1))
    }
}

/// A UTF-8 continuation byte.
pub open spec fn is_continuation(b: u8) -> bool {
    128 <= b < 192
}

/// Every escape that unescaping looks at ends on a character boundary
/// (the text of an escape is cut out of the string).
pub open spec fn escapes_cut_cleanly(b: Seq<u8>) -> bool
    decreases b.len(),
{
    if b.len() == 0 {
        true
    } else if b.len() >= 4 && b[0] == 92 && b[1] == 120 {
        &&& (b.len() > 4 ==> !is_continuation(b[4]))
        &&& if escape_value(b[2], b[3]) is Some {
            escapes_cut_cleanly(b.skip(4))
        } else {
            escapes_cut_cleanly(b.skip(1))
        }
    } else {
        escapes_cut_cleanly(b.skip(1))
    }
}

/// The name a QEMU scope unit gives its domain.
pub open spec fn scope_domain_name(unit: Seq<char>) -> Seq<char> {
    strip_prefix_all(
        strip_prefix_all(systemd_unescape(encode_utf8(strip_suffix_all(unit, ".scope"@))), "machine-qemu-"@),
        "qemu-"@,
    )
}

/// What one cgroup line decides: `Some(answer)` ends the search.
pub open spec fn cgroup_line_domain(line: Seq<char>) -> Option<Option<Seq<char>>> {
    let path = after_last_colon(line);
    match libvirt_qemu_piece(path) {
        Some(piece) => {
            let name = trim_end_char(trim_start_char(piece, '/'), '/');
            if name.len() > 0 {
                Some(Some(name))
            } else {
                Some(None)
            }
        },
        None => match first_qemu_scope(split_char(path, '/')) {
            Some(unit) => if scope_domain_name(unit).len() > 0 {
                Some(Some(scope_domain_name(unit)))
            } else {
                None
            },
            None => None,
        },
    }
}

/// The domain name that the first deciding line of a cgroup file gives.
#[verifier::opaque]
pub open spec fn cgroup_domain_name(lines: Seq<Seq<char>>) -> Option<Seq<char>>
    decreases lines.len(),
{
    if lines.len() == 0 {
        None
    } else {
        match cgroup_line_domain(lines[0]) {
            Some(answer) => answer,
            None => cgroup_domain_name(lines.drop_first()),
        }
    }
}

/// The lines that `cgroup_domain_name` reads decode their scopes cleanly.
#[verifier::opaque]
pub open spec fn cgroup_domain_decodable(lines: Seq<Seq<char>>) -> bool
    decreases lines.len(),
{
    if lines.len() == 0 {
        true
    } else {
        let path = after_last_colon(lines[0]);
        if libvirt_qemu_piece(path) is Some {
            true
        } else {
            match first_qemu_scope(split_char(path, '/')) {
                Some(unit) => escapes_cut_cleanly(encode_utf8(strip_suffix_all(unit, ".scope"@))) && (
                scope_domain_name(unit).len() > 0 || cgroup_domain_decodable(lines.drop_first())),
                None => cgroup_domain_decodable(lines.drop_first()),
            }
        }
    }
}

/// An ASCII hex digit byte.
fn is_hex_byte_exec(b: u8) -> (r: bool)
    ensures
        r == is_hex_byte(b),
{
    (48u8 <= b && b <= 57u8) || (97u8 <= b && b <= 102u8) || (65u8 <= b && b <= 70u8)
}

/// The value of a hex digit byte.
fn hex_byte_value(b: u8) -> (r: u8)
    requires
        is_hex_byte(b),
    ensures
        r == hex_value(b as char),
        r < 16,
{
    if b <= 57u8 {
        b - 48
    } else if b >= 97u8 {
        b - 87
    } else {
        b - 55
    }
}

proof fn lemma_escape_value(b0: u8, b1: u8)
    ensures
        escape_value(b0, b1) == (if b0 == 43 && is_hex_byte(b1) {
            Some((hex_value(b1 as char)) as u8)
        } else if is_hex_byte(b0) && is_hex_byte(b1) {
            Some((hex_value(b0 as char) * 16 + hex_value(b1 as char)) as u8)
        } else {
            None
        }),
{
    let c0 = b0 as char;
    let c1 = b1 as char;
    let s = seq![c0, c1];
    let d = crate::spool::strip_plus(s);
    if b0 == 43 {
        assert(c0 == '+');
        assert(d =~= seq![c1]);
        assert(d.drop_last() =~= Seq::<char>::empty());
        assert(crate::text::hex_digits_value(Seq::<char>::empty()) == 0);
        assert(d.last() == c1);
        assert(crate::text::hex_digits_value(d) == hex_value(c1));
        if !is_hex_byte(b1) {
            assert(!is_hex_digit(d[0]));
        }
    } else {
        assert(c0 != '+');
        assert(d == s);
        assert(s.drop_last() =~= seq![c0]);
        assert(seq![c0].drop_last() =~= Seq::<char>::empty());
        assert(crate::text::hex_digits_value(Seq::<char>::empty()) == 0);
        assert(seq![c0].last() == c0);
        assert(crate::text::hex_digits_value(seq![c0]) == hex_value(c0));
        assert(s.last() == c1);
        assert(crate::text::hex_digits_value(s) == hex_value(c0) * 16 + hex_value(c1));
        if !is_hex_byte(b0) {
            assert(!is_hex_digit(d[0]));
        } else if !is_hex_byte(b1) {
            assert(!is_hex_digit(d[1]));
        }
    }
}

proof fn lemma_cgroup_step(lv: Seq<Seq<char>>, i: int)
    requires
        0 <= i < lv.len(),
    ensures
        cgroup_domain_name(lv.skip(i)) == match cgroup_line_domain(lv[i]) {
            Some(answer) => answer,
            None => cgroup_domain_name(lv.skip(i + 1)),
        },
        cgroup_domain_decodable(lv.skip(i)) ==> (libvirt_qemu_piece(after_last_colon(lv[i])) is None ==> match first_qemu_scope(
            split_char(after_last_colon(lv[i]), '/'),
        ) {
            Some(unit) => escapes_cut_cleanly(encode_utf8(strip_suffix_all(unit, ".scope"@))),
            None => true,
        }),
        cgroup_domain_decodable(lv.skip(i)) && cgroup_line_domain(lv[i]) is None ==> cgroup_domain_decodable(lv.skip(i + 1)),
{
    reveal(cgroup_domain_name);
    reveal(cgroup_domain_decodable);
    let t = lv.skip(i);
    assert(t[0] == lv[i]);
    assert(t.drop_first() =~= lv.skip(i + 1));
}

proof fn lemma_cgroup_end(lv: Seq<Seq<char>>)
    ensures
        cgroup_domain_name(lv.skip(lv.len() as int)) is None,
{
    reveal(cgroup_domain_name);
    assert(lv.skip(lv.len() as int) =~= Seq::<Seq<char>>::empty());
}

/// Unescapes a systemd unit name.
pub fn decode_systemd_escape(s: &str) -> (r: String)
    requires
        escapes_cut_cleanly(encode_utf8(s@)),
    ensures
        r@ == systemd_unescape(encode_utf8(s@)),
{
    let b = s.as_bytes();
    let n = b.len();
    let mut out = String::new();
    let mut i: usize = 0;
    assert(b@.skip(0) =~= b@);
    while i < n
        invariant
            n == b@.len(),
            i <= n,
            escapes_cut_cleanly(b@.skip(i as int)),
            systemd_unescape(b@) == out@ + systemd_unescape(b@.skip(i as int)),
        decreases n - i,
    {
        let ghost rest = b@.skip(i as int);
        if b[i] == 92u8 && n - i > 3 && b[i + 1] == 120u8 {
            let b0 = b[i + 2];
            let b1 = b[i + 3];
            let v: Option<u8> = if b0 == 43u8 && is_hex_byte_exec(b1) {
                Some(hex_byte_value(b1))
            } else if is_hex_byte_exec(b0) && is_hex_byte_exec(b1) {
                Some(hex_byte_value(b0) * 16 + hex_byte_value(b1))
            } else {
                None
            };
            proof {
                lemma_escape_value(b0, b1);
            }
            assert(v == escape_value(rest[2], rest[3]));
            if let Some(x) = v {
                push_char(&mut out, x as char);
                assert(rest.skip(4) =~= b@.skip(i + 4));
                i = i + 4;
                continue;
            }
        }
        push_char(&mut out, b[i] as char);
        assert(rest.skip(1) =~= b@.skip(i + 1));
        i = i + 1;
    }
    assert(b@.skip(n as int) =~= Seq::<u8>::empty());
    assert(out@ + Seq::<char>::empty() =~= out@);
    out
}


/// The characters after the last `:` of `line`, all of them without one.
fn after_last_colon_exec(line: &Vec<char>) -> (r: Vec<char>)
    ensures
        r@ == after_last_colon(line@),
{
    let n = line.len();
    let mut i: usize = n;
    assert(line@.take(n as int) =~= line@);
    while i > 0 && line[i - 1] != ':'
        invariant
            n == line@.len(),
            i <= n,
            last_index(line@, ':') == last_index(line@.take(i as int), ':'),
        decreases i,
    {
        assert(line@.take(i as int).drop_last() =~= line@.take(i - 1));
        i = i - 1;
    }
    assert(line@.take(n as int) =~= line@);
    if i == 0 {
        assert(line@.take(0) =~= Seq::<char>::empty());
        line.clone()
    } else {
        assert(line@.take(i as int).last() == ':');
        let v = slice_chars(line, i, n);
        assert(v@ =~= line@.skip(i as int));
        v
    }
}

/// `v[lo..hi]` as a new vector.
fn slice_chars(v: &Vec<char>, lo: usize, hi: usize) -> (r: Vec<char>)
    requires
        lo <= hi <= v@.len(),
    ensures
        r@ == v@.subrange(lo as int, hi as int),
{
    let mut r: Vec<char> = Vec::new();
    let mut i = lo;
    while i < hi
        invariant
            lo <= i <= hi <= v@.len(),
            r@ == v@.subrange(lo as int, i as int),
        decreases hi - i,
    {
        r.push(v[i]);
        i = i + 1;
        assert(r@ =~= v@.subrange(lo as int, i as int));
    }
    r
}

/// `v` without leading or trailing `/`.
fn trim_slashes(v: &Vec<char>) -> (r: Vec<char>)
    ensures
        r@ == trim_end_char(trim_start_char(v@, '/'), '/'),
{
    let n = v.len();
    let mut a: usize = 0;
    assert(v@.skip(0) =~= v@);
    while a < n && v[a] == '/'
        invariant
            a <= n == v@.len(),
            trim_start_char(v@, '/') == trim_start_char(v@.skip(a as int), '/'),
        decreases n - a,
    {
        assert(v@.skip(a as int).skip(1) =~= v@.skip(a + 1));
        a = a + 1;
    }
    let ghost t = v@.skip(a as int);
    assert(trim_start_char(v@, '/') == t) by {
        if a < n {
        } else {
            assert(t.len() == 0);
        }
    }
    let mut b: usize = n;
    while b > a && v[b - 1] == '/'
        invariant
            a <= b <= n == v@.len(),
            t == v@.skip(a as int),
            trim_end_char(t, '/') == trim_end_char(v@.subrange(a as int, b as int), '/'),
        decreases b,
    {
        assert(v@.subrange(a as int, b as int).drop_last() =~= v@.subrange(a as int, b - 1));
        b = b - 1;
    }
    assert(v@.subrange(a as int, n as int) =~= t);
    slice_chars(v, a, b)
}

/// `v` without any number of trailing copies of `t`.
fn strip_suffix_all_exec(v: &Vec<char>, t: &str) -> (r: Vec<char>)
    ensures
        r@ == strip_suffix_all(v@, t@),
{
    let tv = to_chars(t);
    let tn = tv.len();
    let mut end: usize = v.len();
    let mut cur = v.clone();
    assert(cur@ =~= v@.take(end as int));
    while tn > 0 && has_suffix(&cur, &tv)
        invariant
            tv@ == t@,
            tn == tv@.len(),
            end <= v@.len(),
            cur@ == v@.take(end as int),
            strip_suffix_all(v@, t@) == strip_suffix_all(cur@, t@),
        decreases end,
    {
        let ghost old_cur = cur@;
        end = end - tn;
        cur = slice_chars(v, 0, end);
        assert(cur@ =~= v@.take(end as int));
        assert(cur@ =~= old_cur.take(old_cur.len() - tn));
    }
    cur
}

/// `v` without any number of leading copies of `t`.
fn strip_prefix_all_exec(v: &Vec<char>, t: &str) -> (r: Vec<char>)
    ensures
        r@ == strip_prefix_all(v@, t@),
{
    let tv = to_chars(t);
    let tn = tv.len();
    let n = v.len();
    let mut start: usize = 0;
    let mut cur = v.clone();
    assert(cur@ =~= v@.skip(0));
    while tn > 0 && crate::text::has_prefix(&cur, &tv)
        invariant
            tv@ == t@,
            tn == tv@.len(),
            n == v@.len(),
            start <= n,
            cur@ == v@.skip(start as int),
            strip_prefix_all(v@, t@) == strip_prefix_all(cur@, t@),
        decreases n - start,
    {
        start = start + tn;
        let next = slice_chars(v, start, n);
        assert(next@ =~= cur@.skip(tn as int));
        cur = next;
    }
    cur
}

/// The domain name that one cgroup line gives, when it decides.
fn cgroup_line_domain_exec(line: &Vec<char>) -> (r: Option<Option<String>>)
    requires
        libvirt_qemu_piece(after_last_colon(line@)) is None ==> match first_qemu_scope(
            split_char(after_last_colon(line@), '/'),
        ) {
            Some(unit) => escapes_cut_cleanly(encode_utf8(strip_suffix_all(unit, ".scope"@))),
            None => true,
        },
    ensures
        match r {
            Some(Some(x)) => cgroup_line_domain(line@) == Some(Some(x@)),
            Some(None) => cgroup_line_domain(line@) == Some(None::<Seq<char>>),
            None => cgroup_line_domain(line@) is None,
        },
{
    let path = after_last_colon_exec(line);
    let pn = path.len();
    match find_first(&path, "/libvirt/qemu/") {
        Some(i) => {
            proof {
                reveal_strlit("/libvirt/qemu/");
            }
            let rest = slice_chars(&path, i + 14, pn);
            assert(rest@ =~= path@.skip(i + 14));
            let piece = match find_first(&rest, "/libvirt/qemu/") {
                Some(j) => slice_chars(&rest, 0, j),
                None => rest,
            };
            let name = trim_slashes(&piece);
            if name.len() > 0 {
                Some(Some(string_of(&name)))
            } else {
                Some(None)
            }
        },
        None => {
            let segs = split_on(string_of(&path).as_str(), '/');
            let ghost sv = split_char(path@, '/');
            let mut k: usize = 0;
            assert(sv.skip(0) =~= sv);
            while k < segs.len()
                invariant
                    views(segs@) == sv,
                    sv == split_char(path@, '/'),
                    path@ == after_last_colon(line@),
                    libvirt_qemu_piece(path@) is None,
                    match first_qemu_scope(sv) {
                        Some(unit) => escapes_cut_cleanly(encode_utf8(strip_suffix_all(unit, ".scope"@))),
                        None => true,
                    },
                    k <= segs@.len(),
                    first_qemu_scope(sv) == first_qemu_scope(sv.skip(k as int)),
                decreases segs@.len() - k,
            {
                let seg = to_chars(segs[k].as_str());
                assert(sv[k as int] == seg@);
                assert(sv.skip(k as int)[0] == seg@);
                assert(sv.skip(k as int).drop_first() =~= sv.skip(k + 1));
                let scope = to_chars(".scope");
                if crate::text::contains(segs[k].as_str(), "qemu") && has_suffix(&seg, &scope) {
                    let stem = strip_suffix_all_exec(&seg, ".scope");
                    let decoded = decode_systemd_escape(string_of(&stem).as_str());
                    let dv = to_chars(decoded.as_str());
                    let a = strip_prefix_all_exec(&dv, "machine-qemu-");
                    let b = strip_prefix_all_exec(&a, "qemu-");
                    if b.len() > 0 {
                        return Some(Some(string_of(&b)));
                    } else {
                        return None;
                    }
                }
                k = k + 1;
            }
            assert(sv.skip(k as int) =~= Seq::<Seq<char>>::empty());
            None
        },
    }
}

/// The libvirt domain name in the text of a `/proc/<pid>/cgroup` file: the
/// first line whose path holds `/libvirt/qemu/<name>` or a QEMU scope unit
/// decides.
pub fn parse_cgroup_domain_name(cgroup: &str) -> (r: Option<String>)
    requires
        cgroup_domain_decodable(lines_of(cgroup@)),
    ensures
        crate::identity::opt_text(r) == cgroup_domain_name(lines_of(cgroup@)),
{
    let ls = lines(cgroup);
    let ghost lv = lines_of(cgroup@);
    let mut i: usize = 0;
    assert(lv.skip(0) =~= lv);
    while i < ls.len()
        invariant
            views(ls@) == lv,
            lv == lines_of(cgroup@),
            i <= ls@.len(),
            cgroup_domain_decodable(lv.skip(i as int)),
            cgroup_domain_name(lv) == cgroup_domain_name(lv.skip(i as int)),
        decreases ls@.len() - i,
    {
        let line = to_chars(ls[i].as_str());
        assert(lv[i as int] == line@);
        proof {
            lemma_cgroup_step(lv, i as int);
        }
        let res = cgroup_line_domain_exec(&line);
        match res {
            Some(answer) => {
                proof {
                    if answer is Some {
                        assert(cgroup_line_domain(line@) == Some(Some(answer->0@)));
                        assert(cgroup_domain_name(lv.skip(i as int)) == Some(answer->0@));
                    } else {
                        assert(cgroup_line_domain(line@) == Some(None::<Seq<char>>));
                        assert(cgroup_domain_name(lv.skip(i as int)) == None::<Seq<char>>);
                    }
                    assert(crate::identity::opt_text(answer) == cgroup_domain_name(lv));
                }
                return answer;
            },
            None => {},
        }
        i = i + 1;
    }
    proof {
        lemma_cgroup_end(lv);
    }
    None
}


/// A path segment that names a systemd scope or service.
pub open spec fn is_unit_segment(p: Seq<char>) -> bool {
    ends_with(p, ".scope"@) || ends_with(p, ".service"@)
}

/// The first segment of `segs` that names a systemd scope or service.
pub open spec fn first_unit(segs: Seq<Seq<char>>) -> Option<Seq<char>>
    decreases segs.len(),
{
    if segs.len() == 0 {
        None
    } else if is_unit_segment(segs[0]) {
        Some(segs[0])
    } else {
        first_unit(segs.drop_first())
    }
}

/// The unescaped systemd unit of the first cgroup line that names one.
#[verifier::opaque]
pub open spec fn cgroup_unit_of(lines: Seq<Seq<char>>) -> Option<Seq<char>>
    decreases lines.len(),
{
    if lines.len() == 0 {
        None
    } else {
        match first_unit(split_char(after_last_colon(lines[0]), '/')) {
            Some(u) => Some(systemd_unescape(encode_utf8(u))),
            None => cgroup_unit_of(lines.drop_first()),
        }
    }
}

/// The unit that `cgroup_unit_of` unescapes is cut cleanly.
#[verifier::opaque]
pub open spec fn cgroup_unit_decodable(lines: Seq<Seq<char>>) -> bool
    decreases lines.len(),
{
    if lines.len() == 0 {
        true
    } else {
        match first_unit(split_char(after_last_colon(lines[0]), '/')) {
            Some(u) => escapes_cut_cleanly(encode_utf8(u)),
            None => cgroup_unit_decodable(lines.drop_first()),
        }
    }
}

proof fn lemma_unit_step(lv: Seq<Seq<char>>, i: int)
    requires
        0 <= i < lv.len(),
    ensures
        cgroup_unit_of(lv.skip(i)) == match first_unit(split_char(after_last_colon(lv[i]), '/')) {
            Some(u) => Some(systemd_unescape(encode_utf8(u))),
            None => cgroup_unit_of(lv.skip(i + 1)),
        },
        cgroup_unit_decodable(lv.skip(i)) == match first_unit(split_char(after_last_colon(lv[i]), '/')) {
            Some(u) => escapes_cut_cleanly(encode_utf8(u)),
            None => cgroup_unit_decodable(lv.skip(i + 1)),
        },
{
    reveal(cgroup_unit_of);
    reveal(cgroup_unit_decodable);
    let t = lv.skip(i);
    assert(t[0] == lv[i]);
    assert(t.drop_first() =~= lv.skip(i + 1));
}

proof fn lemma_unit_end(lv: Seq<Seq<char>>)
    ensures
        cgroup_unit_of(lv.skip(lv.len() as int)) is None,
{
    reveal(cgroup_unit_of);
    assert(lv.skip(lv.len() as int) =~= Seq::<Seq<char>>::empty());
}

/// The first segment of `path` that names a systemd unit.
fn first_unit_exec(path: &Vec<char>) -> (r: Option<String>)
    ensures
        crate::identity::opt_text(r) == first_unit(split_char(path@, '/')),
{
    let segs = split_on(string_of(path).as_str(), '/');
    let ghost sv = split_char(path@, '/');
    let mut k: usize = 0;
    assert(sv.skip(0) =~= sv);
    let scope = to_chars(".scope");
    let service = to_chars(".service");
    while k < segs.len()
        invariant
            views(segs@) == sv,
            sv == split_char(path@, '/'),
            scope@ == ".scope"@,
            service@ == ".service"@,
            k <= segs@.len(),
            first_unit(sv) == first_unit(sv.skip(k as int)),
        decreases segs@.len() - k,
    {
        let seg = to_chars(segs[k].as_str());
        assert(sv[k as int] == seg@);
        assert(sv.skip(k as int)[0] == seg@);
        assert(sv.skip(k as int).drop_first() =~= sv.skip(k + 1));
        if has_suffix(&seg, &scope) || has_suffix(&seg, &service) {
            return Some(string_of(&seg));
        }
        k = k + 1;
    }
    assert(sv.skip(k as int) =~= Seq::<Seq<char>>::empty());
    None
}

/// The systemd unit (scope or service) named in the text of a
/// `/proc/<pid>/cgroup` file, unescaped.
pub fn parse_cgroup_unit(cgroup: &str) -> (r: Option<String>)
    requires
        cgroup_unit_decodable(lines_of(cgroup@)),
    ensures
        crate::identity::opt_text(r) == cgroup_unit_of(lines_of(cgroup@)),
{
    let ls = lines(cgroup);
    let ghost lv = lines_of(cgroup@);
    let mut i: usize = 0;
    assert(lv.skip(0) =~= lv);
    while i < ls.len()
        invariant
            views(ls@) == lv,
            lv == lines_of(cgroup@),
            i <= ls@.len(),
            cgroup_unit_decodable(lv.skip(i as int)),
            cgroup_unit_of(lv) == cgroup_unit_of(lv.skip(i as int)),
        decreases ls@.len() - i,
    {
        let line = to_chars(ls[i].as_str());
        assert(lv[i as int] == line@);
        proof {
            lemma_unit_step(lv, i as int);
        }
        let path = after_last_colon_exec(&line);
        if let Some(u) = first_unit_exec(&path) {
            return Some(decode_systemd_escape(u.as_str()));
        }
        i = i + 1;
    }
    proof {
        lemma_unit_end(lv);
    }
    None
}


/// Whether every escape that unescaping `s` looks at ends on a character
/// boundary.
pub fn escapes_cut_cleanly_exec(s: &str) -> (r: bool)
    ensures
        r == escapes_cut_cleanly(encode_utf8(s@)),
{
    let b = s.as_bytes();
    let n = b.len();
    let mut i: usize = 0;
    assert(b@.skip(0) =~= b@);
    while i < n
        invariant
            b@ == encode_utf8(s@),
            n == b@.len(),
            i <= n,
            escapes_cut_cleanly(b@) == escapes_cut_cleanly(b@.skip(i as int)),
        decreases n - i,
    {
        let ghost rest = b@.skip(i as int);
        if b[i] == 92u8 && n - i > 3 && b[i + 1] == 120u8 {
            if n - i > 4 && 128u8 <= b[i + 4] && b[i + 4] < 192u8 {
                assert(rest[0] == 92u8 && rest[1] == 120u8 && rest[4] == b[i + 4]);
                assert(is_continuation(rest[4]));
                assert(!escapes_cut_cleanly(rest));
                return false;
            }
            let b0 = b[i + 2];
            let b1 = b[i + 3];
            proof {
                lemma_escape_value(b0, b1);
            }
            if (b0 == 43u8 && is_hex_byte_exec(b1)) || (is_hex_byte_exec(b0) && is_hex_byte_exec(b1)) {
                assert(rest.skip(4) =~= b@.skip(i + 4));
                i = i + 4;
                continue;
            }
        }
        assert(rest.skip(1) =~= b@.skip(i + 1));
        i = i + 1;
    }
    assert(b@.skip(n as int) =~= Seq::<u8>::empty());
    true
}

/// Whether the cgroup text can be read for a domain name and a unit (each
/// escape those reads unescape ends on a character boundary).
pub fn cgroup_text_decodable(cgroup: &str) -> (r: bool)
    ensures
        r == (cgroup_domain_decodable(lines_of(cgroup@)) && cgroup_unit_decodable(lines_of(cgroup@))),
{
    let ls = lines(cgroup);
    let ghost lv = lines_of(cgroup@);
    let mut i: usize = 0;
    let mut domain_done = false;
    let mut unit_done = false;
    assert(lv.skip(0) =~= lv);
    while i < ls.len() && !(domain_done && unit_done)
        invariant
            views(ls@) == lv,
            lv == lines_of(cgroup@),
            i <= ls@.len(),
            domain_done ==> cgroup_domain_decodable(lv),
            !domain_done ==> cgroup_domain_decodable(lv) == cgroup_domain_decodable(lv.skip(i as int)),
            unit_done ==> cgroup_unit_decodable(lv),
            !unit_done ==> cgroup_unit_decodable(lv) == cgroup_unit_decodable(lv.skip(i as int)),
        decreases ls@.len() - i,
    {
        let line = to_chars(ls[i].as_str());
        assert(lv[i as int] == line@);
        proof {
            lemma_cgroup_step_decodable(lv, i as int);
            lemma_unit_step(lv, i as int);
        }
        let path = after_last_colon_exec(&line);
        if !domain_done {
            let pn = path.len();
            match find_first(&path, "/libvirt/qemu/") {
                Some(_) => {
                    domain_done = true;
                },
                None => {
                    match first_qemu_scope_exec(&path) {
                        Some(seg) => {
                            let stem = strip_suffix_all_exec(&seg, ".scope");
                            let st = string_of(&stem);
                            if !escapes_cut_cleanly_exec(st.as_str()) {
                                return false;
                            }
                            let decoded = decode_systemd_escape(st.as_str());
                            let dv = to_chars(decoded.as_str());
                            let a = strip_prefix_all_exec(&dv, "machine-qemu-");
                            let bb = strip_prefix_all_exec(&a, "qemu-");
                            if bb.len() > 0 {
                                domain_done = true;
                            }
                        },
                        None => {},
                    }
                },
            }
        }
        if !unit_done {
            if let Some(u) = first_unit_exec(&path) {
                if !escapes_cut_cleanly_exec(u.as_str()) {
                    return false;
                }
                unit_done = true;
            }
        }
        i = i + 1;
    }
    proof {
        lemma_decodable_end(lv);
    }
    true
}

/// The first segment of `path` that names a QEMU scope.
fn first_qemu_scope_exec(path: &Vec<char>) -> (r: Option<Vec<char>>)
    ensures
        match r {
            Some(v) => first_qemu_scope(split_char(path@, '/')) == Some(v@),
            None => first_qemu_scope(split_char(path@, '/')) is None,
        },
{
    let segs = split_on(string_of(path).as_str(), '/');
    let ghost sv = split_char(path@, '/');
    let mut k: usize = 0;
    assert(sv.skip(0) =~= sv);
    let scope = to_chars(".scope");
    while k < segs.len()
        invariant
            views(segs@) == sv,
            sv == split_char(path@, '/'),
            scope@ == ".scope"@,
            k <= segs@.len(),
            first_qemu_scope(sv) == first_qemu_scope(sv.skip(k as int)),
        decreases segs@.len() - k,
    {
        let seg = to_chars(segs[k].as_str());
        assert(sv[k as int] == seg@);
        assert(sv.skip(k as int)[0] == seg@);
        assert(sv.skip(k as int).drop_first() =~= sv.skip(k + 1));
        if crate::text::contains(segs[k].as_str(), "qemu") && has_suffix(&seg, &scope) {
            return Some(seg);
        }
        k = k + 1;
    }
    assert(sv.skip(k as int) =~= Seq::<Seq<char>>::empty());
    None
}

proof fn lemma_cgroup_step_decodable(lv: Seq<Seq<char>>, i: int)
    requires
        0 <= i < lv.len(),
    ensures
        cgroup_domain_decodable(lv.skip(i)) == {
            let path = after_last_colon(lv[i]);
            if libvirt_qemu_piece(path) is Some {
                true
            } else {
                match first_qemu_scope(split_char(path, '/')) {
                    Some(unit) => escapes_cut_cleanly(encode_utf8(strip_suffix_all(unit, ".scope"@))) && (
                    scope_domain_name(unit).len() > 0 || cgroup_domain_decodable(lv.skip(i + 1))),
                    None => cgroup_domain_decodable(lv.skip(i + 1)),
                }
            }
        },
{
    reveal(cgroup_domain_decodable);
    let t = lv.skip(i);
    assert(t[0] == lv[i]);
    assert(t.drop_first() =~= lv.skip(i + 1));
}

proof fn lemma_decodable_end(lv: Seq<Seq<char>>)
    ensures
        cgroup_domain_decodable(lv.skip(lv.len() as int)),
        cgroup_unit_decodable(lv.skip(lv.len() as int)),
{
    reveal(cgroup_domain_decodable);
    reveal(cgroup_unit_decodable);
    assert(lv.skip(lv.len() as int) =~= Seq::<Seq<char>>::empty());
}


// ---------------------------------------------------------------------------
// QMP sockets named on the QEMU command line
// ---------------------------------------------------------------------------

/// The characters of `s` before the first `c`.
pub open spec fn before_char(s: Seq<char>, c: char) -> Seq<char>
    decreases s.len(),
{
    if s.len() == 0 || s[0] == c {
        Seq::empty()
    } else {
        seq![s[0]] + before_char(s.skip(1), c)
    }
}

/// The absolute socket path of a `-qmp`/`-monitor` value: without a
/// leading `unix:`, up to the first `,`, trimmed, starting with `/`.
pub open spec fn unix_socket_of(v: Seq<char>) -> Option<Seq<char>> {
    let value = if starts_with(v, "unix:"@) {
        v.skip(5)
    } else {
        v
    };
    let path = trim(before_char(value, ','));
    if path.len() > 0 && path[0] == '/' {
        Some(path)
    } else {
        None
    }
}

/// The first QMP or monitor socket named in `args[i..]`.
pub open spec fn monitor_socket_from(args: Seq<Seq<char>>, i: int) -> Option<Seq<char>>
    decreases args.len() - i,
{
    if i < 0 || i >= args.len() {
        None
    } else {
        let a = args[i];
        let found = if a == "-qmp"@ || a == "-monitor"@ {
            if i + 1 < args.len() {
                unix_socket_of(args[i + 1])
            } else {
                None
            }
        } else if starts_with(a, "-qmp="@) {
            unix_socket_of(a.skip(5))
        } else if starts_with(a, "-monitor="@) {
            unix_socket_of(a.skip(9))
        } else {
            None
        };
        if found is Some {
            found
        } else {
            monitor_socket_from(args, i + 1)
        }
    }
}

/// The characters of `v` before the first `c`.
fn before_char_exec(v: &Vec<char>, c: char) -> (r: Vec<char>)
    ensures
        r@ == before_char(v@, c),
{
    let n = v.len();
    let mut i: usize = 0;
    while i < n && v[i] != c
        invariant
            n == v@.len(),
            i <= n,
            forall|k: int| 0 <= k < i ==> v@[k] != c,
        decreases n - i,
    {
        i = i + 1;
    }
    let r = slice_chars(v, 0, i);
    proof {
        lemma_before_char(v@, c, i as int);
    }
    r
}

proof fn lemma_before_char(s: Seq<char>, c: char, i: int)
    requires
        0 <= i <= s.len(),
        forall|k: int| 0 <= k < i ==> s[k] != c,
        i == s.len() || s[i] == c,
    ensures
        before_char(s, c) == s.subrange(0, i),
    decreases s.len(),
{
    if s.len() > 0 && s[0] != c {
        assert forall|k: int| 0 <= k < i - 1 implies s.skip(1)[k] != c by {
            assert(s.skip(1)[k] == s[k + 1]);
        }
        lemma_before_char(s.skip(1), c, i - 1);
        assert(seq![s[0]] + s.skip(1).subrange(0, i - 1) =~= s.subrange(0, i));
    } else {
        assert(s.subrange(0, i) =~= Seq::<char>::empty());
    }
}

/// The socket path of a `-qmp`/`-monitor` value, when it is an absolute
/// unix socket path.
pub fn parse_unix_socket_arg(v: &str) -> (r: Option<String>)
    ensures
        opt_text(r) == unix_socket_of(v@),
{
    let cs = to_chars(v);
    let prefix = to_chars("unix:");
    proof {
        reveal_strlit("unix:");
    }
    let value = if crate::text::has_prefix(&cs, &prefix) {
        slice_chars(&cs, 5, cs.len())
    } else {
        cs
    };
    assert(value@ == (if starts_with(v@, "unix:"@) { v@.skip(5) } else { v@ }));
    let first = before_char_exec(&value, ',');
    let path = trim_owned(string_of(&first).as_str());
    let pv = to_chars(path.as_str());
    if pv.len() > 0 && pv[0] == '/' {
        Some(path)
    } else {
        None
    }
}

/// The first QMP or monitor socket named on a QEMU command line.
pub fn parse_monitor_socket(args: &[String]) -> (r: Option<String>)
    ensures
        opt_text(r) == monitor_socket_from(views(args@), 0),
{
    let ghost a = views(args@);
    let n = args.len();
    let mut i: usize = 0;
    while i < n
        invariant
            n == args@.len(),
            a == views(args@),
            i <= n,
            monitor_socket_from(a, 0) == monitor_socket_from(a, i as int),
        decreases n - i,
    {
        let arg = args[i].as_str();
        assert(a[i as int] == arg@);
        let cs = to_chars(arg);
        let qmp_eq = eq_lit(&cs, "-qmp");
        let mon_eq = eq_lit(&cs, "-monitor");
        let found = if qmp_eq || mon_eq {
            if i + 1 < n {
                assert(a[i + 1] == args@[i + 1]@);
                parse_unix_socket_arg(args[i + 1].as_str())
            } else {
                None
            }
        } else if crate::text::str_starts_with(arg, "-qmp=") {
            proof {
                reveal_strlit("-qmp=");
            }
            let rest = string_of(&slice_chars(&cs, 5, cs.len()));
            assert(rest@ =~= arg@.skip(5));
            parse_unix_socket_arg(rest.as_str())
        } else if crate::text::str_starts_with(arg, "-monitor=") {
            proof {
                reveal_strlit("-monitor=");
            }
            let rest = string_of(&slice_chars(&cs, 9, cs.len()));
            assert(rest@ =~= arg@.skip(9));
            parse_unix_socket_arg(rest.as_str())
        } else {
            None
        };
        if found.is_some() {
            return found;
        }
        i = i + 1;
    }
    None
}

// ---------------------------------------------------------------------------
// Identity from what was read on the host
// ---------------------------------------------------------------------------

/// The VM name on a QEMU command line: the `guest=` part of `-name`, else
/// the whole `-name` value.
pub open spec fn cmdline_vm_name(args: Seq<Seq<char>>) -> Option<Seq<char>> {
    match qemu_name_of(args) {
        Some(n) => Some(n),
        None => arg_value_from(args, "-name"@, 0),
    }
}

/// What reading the command line `args` adds to the bare identity `o`.
pub open spec fn cmdline_applied(o: VmIdentity, f: VmIdentity, args: Seq<Seq<char>>) -> bool {
    let name = cmdline_vm_name(args);
    let uuid = arg_value_from(args, "-uuid"@, 0);
    let qmp = monitor_socket_from(args, 0);
    let s1 = if name is Some || uuid is Some || qmp is Some {
        with_source(views(o.identity_sources@), IDENTITY_SOURCE_PROC_CMDLINE@)
    } else {
        views(o.identity_sources@)
    };
    let s2 = if qmp is Some {
        with_source(s1, IDENTITY_SOURCE_QMP_SOCKET_HINT@)
    } else {
        s1
    };
    &&& f == (VmIdentity {
        vm_name: f.vm_name,
        libvirt_uuid: f.libvirt_uuid,
        qmp_socket: f.qmp_socket,
        identity_sources: f.identity_sources,
        ..o
    })
    &&& opt_text(f.vm_name) == name
    &&& opt_text(f.libvirt_uuid) == uuid
    &&& opt_text(f.qmp_socket) == qmp
    &&& views(f.identity_sources@) == s2
}

/// The VM id that a name or UUID gives an identity that is not ambiguous.
pub open spec fn named_vm_id(o: VmIdentity, f: VmIdentity) -> bool {
    &&& f == (VmIdentity { vm_id: f.vm_id, ..o })
    &&& if o.ambiguous {
        f.vm_id == o.vm_id
    } else {
        match (o.libvirt_uuid, o.vm_name) {
            (Some(u), _) => f.vm_id@ == "libvirt:"@ + u@,
            (None, Some(n)) => f.vm_id@ == "name:"@ + n@,
            (None, None) => f.vm_id == o.vm_id,
        }
    }
}

/// The fields of the bare identity of task `pid` with start time `start`,
/// its sources aside.
pub open spec fn bare_fields(f: VmIdentity, pid: i32, start: Option<u64>) -> bool {
    &&& f.host_pid == pid
    &&& f.host_start_time_ticks == start
    &&& f.vm_id@ == stable_pid_text(pid, start)
    &&& f.vm_name is None
    &&& f.libvirt_uuid is None
    &&& f.cgroup_unit is None
    &&& f.qmp_socket is None
    &&& f.vcpu_id is None
    &&& !f.vcpu_ambiguous
    &&& !f.ambiguous
    &&& f.identity_confidence == crate::event::IdentityConfidence::Low
    &&& !f.start_time_verified
    &&& f.identity_conflict is None
}

/// The bare identity of task `pid` with start time `start`.
pub open spec fn bare_identity(f: VmIdentity, pid: i32, start: Option<u64>) -> bool {
    bare_fields(f, pid, start) && f.identity_sources@.len() == 0
}

/// The bare identity of task `pid` with start time `start`.
pub fn bare_pid_identity(pid: i32, start: Option<u64>) -> (r: VmIdentity)
    ensures
        bare_identity(r, pid, start),
{
    let mut ident = VmIdentity::default();
    ident.host_pid = pid;
    ident.host_start_time_ticks = start;
    ident.vm_id = stable_pid_id(pid, start);
    ident
}

/// The steps from task `pid` to the identity `r`: the bare identity `b`,
/// the command line read into `c`, the cgroup (its name `cn` and unit
/// `cu`) merged into `m`, and the VM id named.
pub open spec fn host_identity_steps(
    pid: i32,
    start: Option<u64>,
    cmdline: Option<Vec<String>>,
    cgroup: Option<String>,
    b: VmIdentity,
    c: VmIdentity,
    m: VmIdentity,
    cn: Option<String>,
    cu: Option<String>,
    r: VmIdentity,
) -> bool {
    &&& bare_identity(b, pid, start)
    &&& match cmdline {
        Some(args) => cmdline_applied(b, c, views(args@)),
        None => c == b,
    }
    &&& match cgroup {
        Some(text) => opt_text(cn) == cgroup_domain_name(lines_of(text@)) && opt_text(cu) == cgroup_unit_of(
            lines_of(text@),
        ) && cgroup_merged(c, m, pid, cn, cu),
        None => m == c,
    }
    &&& named_vm_id(m, r)
}

/// The identity of task `pid` from its command line and cgroup, before any
/// QMP socket is looked for on disk.
pub fn host_identity(pid: i32, start: Option<u64>, cmdline: &Option<Vec<String>>, cgroup: &Option<String>) -> (r: VmIdentity)
    requires
        cgroup matches Some(c) ==> cgroup_domain_decodable(lines_of(c@)) && cgroup_unit_decodable(lines_of(c@)),
    ensures
        exists|b: VmIdentity, c: VmIdentity, m: VmIdentity, cn: Option<String>, cu: Option<String>|
            #[trigger] host_identity_steps(pid, start, *cmdline, *cgroup, b, c, m, cn, cu, r),
{
    let mut ident = bare_pid_identity(pid, start);
    let ghost b = ident;
    if let Some(args) = cmdline {
        let vm_name = match parse_qemu_name(args.as_slice()) {
            Some(n) => Some(n),
            None => parse_arg_value(args.as_slice(), "-name"),
        };
        let libvirt_uuid = parse_arg_value(args.as_slice(), "-uuid");
        let qmp_socket = parse_monitor_socket(args.as_slice());
        if vm_name.is_some() || libvirt_uuid.is_some() || qmp_socket.is_some() {
            push_identity_source(&mut ident.identity_sources, IDENTITY_SOURCE_PROC_CMDLINE);
        }
        ident.vm_name = vm_name;
        ident.libvirt_uuid = libvirt_uuid;
        if qmp_socket.is_some() {
            push_identity_source(&mut ident.identity_sources, IDENTITY_SOURCE_QMP_SOCKET_HINT);
        }
        ident.qmp_socket = qmp_socket;
    }
    let ghost c = ident;
    let ghost mut cn: Option<String> = None;
    let ghost mut cu: Option<String> = None;
    if let Some(text) = cgroup {
        let name = parse_cgroup_domain_name(text.as_str());
        let unit = parse_cgroup_unit(text.as_str());
        proof {
            cn = name;
            cu = unit;
        }
        merge_cgroup_identity(&mut ident, pid, name, unit);
    }
    let ghost m = ident;
    if !ident.ambiguous {
        let next = match (&ident.libvirt_uuid, &ident.vm_name) {
            (Some(u), _) => {
                let mut id = owned("libvirt:");
                crate::text::push_str(&mut id, u.as_str());
                Some(id)
            },
            (None, Some(n)) => {
                let mut id = owned("name:");
                crate::text::push_str(&mut id, n.as_str());
                Some(id)
            },
            (None, None) => None,
        };
        if let Some(id) = next {
            ident.vm_id = id;
        }
    }
    assert(named_vm_id(m, ident));
    assert(host_identity_steps(pid, start, *cmdline, *cgroup, b, c, m, cn, cu, ident));
    ident
}

/// The VM name to look for a QMP socket under, when the identity has a
/// name, no socket, and is not ambiguous.
pub fn qmp_discovery_name(ident: &VmIdentity) -> (r: Option<String>)
    ensures
        opt_text(r) == (if !ident.ambiguous && ident.qmp_socket is None {
            opt_text(ident.vm_name)
        } else {
            None
        }),
{
    if !ident.ambiguous && ident.qmp_socket.is_none() {
        match &ident.vm_name {
            Some(n) => Some(owned(n.as_str())),
            None => None,
        }
    } else {
        None
    }
}

/// `path` joined under `dir`, as `Path::join` renders it.
pub open spec fn path_join(dir: Seq<char>, path: Seq<char>) -> Seq<char> {
    if path.len() > 0 && path[0] == '/' {
        path
    } else if dir.len() == 0 {
        path
    } else if dir.last() == '/' {
        dir + path
    } else {
        dir + "/"@ + path
    }
}

/// `path` joined under `dir`.
pub fn join_path(dir: &str, path: &str) -> (r: String)
    ensures
        r@ == path_join(dir@, path@),
{
    let pv = to_chars(path);
    let dv = to_chars(dir);
    if pv.len() > 0 && pv[0] == '/' {
        owned(path)
    } else if dv.len() == 0 {
        owned(path)
    } else if dv[dv.len() - 1] == '/' {
        let mut r = owned(dir);
        crate::text::push_str(&mut r, path);
        r
    } else {
        crate::text::cat3(dir, "/", path)
    }
}

/// The paths where a QMP socket of the VM `vm_name` may be, in the order
/// they are tried: per directory, `<name>.monitor`, `<name>.qmp`,
/// `<name>/monitor.sock`, `<name>/qmp.sock`.
pub open spec fn qmp_candidates(vm_name: Seq<char>, dirs: Seq<Seq<char>>) -> Seq<Seq<char>>
    decreases dirs.len(),
{
    if dirs.len() == 0 {
        Seq::empty()
    } else {
        let d = dirs[0];
        seq![
            path_join(d, vm_name + ".monitor"@),
            path_join(d, vm_name + ".qmp"@),
            path_join(path_join(d, vm_name), "monitor.sock"@),
            path_join(path_join(d, vm_name), "qmp.sock"@),
        ] + qmp_candidates(vm_name, dirs.drop_first())
    }
}

/// The paths where a QMP socket of `vm_name` may be, in order.
pub fn qmp_socket_candidates(vm_name: &str, dirs: &Vec<String>) -> (r: Vec<String>)
    ensures
        views(r@) == qmp_candidates(vm_name@, views(dirs@)),
{
    let mut out: Vec<String> = Vec::new();
    let n = dirs.len();
    let mut i: usize = n;
    let ghost dv = views(dirs@);
    assert(dv.skip(n as int) =~= Seq::<Seq<char>>::empty());
    let mut tail: Vec<String> = Vec::new();
    while i > 0
        invariant
            n == dirs@.len(),
            dv == views(dirs@),
            i <= n,
            views(tail@) == qmp_candidates(vm_name@, dv.skip(i as int)),
        decreases i,
    {
        i = i - 1;
        let d = dirs[i].as_str();
        let monitor = owned(vm_name);
        let mut a = monitor;
        crate::text::push_str(&mut a, ".monitor");
        let mut q = owned(vm_name);
        crate::text::push_str(&mut q, ".qmp");
        let sub = join_path(d, vm_name);
        let mut group: Vec<String> = Vec::new();
        group.push(join_path(d, a.as_str()));
        group.push(join_path(d, q.as_str()));
        group.push(join_path(sub.as_str(), "monitor.sock"));
        group.push(join_path(sub.as_str(), "qmp.sock"));
        let ghost old_tail = tail@;
        group.append(&mut tail);
        tail = group;
        proof {
            assert(dv.skip(i as int)[0] == dirs@[i as int]@);
            assert(dv.skip(i as int).drop_first() =~= dv.skip(i + 1));
            assert(views(tail@) =~= views(tail@.take(4)) + views(old_tail));
        }
    }
    assert(dv.skip(0) =~= dv);
    tail
}

/// Completes a host identity: a QMP socket found on disk becomes a hint,
/// an identity with no source is a pid fallback, and its confidence is
/// computed.
pub fn finish_host_identity(ident: &mut VmIdentity, discovered_qmp_socket: Option<String>)
    ensures
        ({
            let o = *old(ident);
            let found = discovered_qmp_socket is Some && !o.ambiguous && o.qmp_socket is None && o.vm_name is Some;
            let s1 = if found {
                with_source(views(o.identity_sources@), IDENTITY_SOURCE_QMP_SOCKET_HINT@)
            } else {
                views(o.identity_sources@)
            };
            let s2 = if s1.len() == 0 {
                seq![IDENTITY_SOURCE_FALLBACK_PID@]
            } else {
                s1
            };
            let mid = VmIdentity {
                qmp_socket: if found { discovered_qmp_socket } else { o.qmp_socket },
                identity_sources: final(ident).identity_sources,
                ..o
            };
            &&& *final(ident) == (VmIdentity { identity_confidence: confidence_of(mid), ..mid })
            &&& views(final(ident).identity_sources@) == s2
        }),
{
    let found = discovered_qmp_socket.is_some() && !ident.ambiguous && ident.qmp_socket.is_none()
        && ident.vm_name.is_some();
    if found {
        ident.qmp_socket = discovered_qmp_socket;
        push_identity_source(&mut ident.identity_sources, IDENTITY_SOURCE_QMP_SOCKET_HINT);
    }
    if ident.identity_sources.len() == 0 {
        push_identity_source(&mut ident.identity_sources, IDENTITY_SOURCE_FALLBACK_PID);
        assert(views(ident.identity_sources@) =~= seq![IDENTITY_SOURCE_FALLBACK_PID@]);
    }
    recompute_identity_confidence(ident);
}


// ---------------------------------------------------------------------------
// The identity cache
// ---------------------------------------------------------------------------

/// An identity remembered for a host task.
#[derive(Debug, Clone)]
pub struct CachedIdentity {
    pub seen_at_ms: u64,
    pub start_time_ticks: Option<u64>,
    pub value: VmIdentity,
}

/// A cached identity may be reused: it was recorded with a start time, the
/// task shows that start time now, and it is no older than the ttl.
pub open spec fn entry_matches(c: CachedIdentity, observed: Option<u64>, now_ms: u64, ttl_ms: u64) -> bool {
    &&& c.start_time_ticks is Some
    &&& observed == c.start_time_ticks
    &&& (if now_ms >= c.seen_at_ms {
        now_ms - c.seen_at_ms
    } else {
        0
    }) <= ttl_ms
}

/// Whether `cached` may be reused for a task observed with
/// `observed_start_time_ticks` at `now_ms`.
pub fn cache_entry_matches(
    cached: &CachedIdentity,
    observed_start_time_ticks: Option<u64>,
    now_ms: u64,
    ttl_ms: u64,
) -> (r: bool)
    ensures
        r == entry_matches(*cached, observed_start_time_ticks, now_ms, ttl_ms),
{
    let same = match (cached.start_time_ticks, observed_start_time_ticks) {
        (Some(expected), Some(observed)) => expected == observed,
        _ => false,
    };
    let age = now_ms.saturating_sub(cached.seen_at_ms);
    same && age <= ttl_ms
}

/// The entry for `pid` in a cache with one entry per task.
pub open spec fn cache_get(c: Seq<(i32, CachedIdentity)>, pid: i32) -> Option<CachedIdentity>
    decreases c.len(),
{
    if c.len() == 0 {
        None
    } else if c.last().0 == pid {
        Some(c.last().1)
    } else {
        cache_get(c.drop_last(), pid)
    }
}

/// Each task has at most one entry.
pub open spec fn keys_unique(c: Seq<(i32, CachedIdentity)>) -> bool {
    forall|i: int, j: int| 0 <= i < j < c.len() ==> c[i].0 != c[j].0
}

/// The cache `c` without `pid`'s entry.
pub open spec fn cache_without(c: Seq<(i32, CachedIdentity)>, pid: i32) -> Seq<(i32, CachedIdentity)> {
    c.filter(|e: (i32, CachedIdentity)| e.0 != pid)
}

proof fn lemma_cache_get_index(c: Seq<(i32, CachedIdentity)>, pid: i32, i: int)
    requires
        keys_unique(c),
        0 <= i < c.len(),
        c[i].0 == pid,
    ensures
        cache_get(c, pid) == Some(c[i].1),
    decreases c.len(),
{
    if i < c.len() - 1 {
        assert(c.last().0 != pid);
        lemma_cache_get_index(c.drop_last(), pid, i);
    }
}

proof fn lemma_cache_get_none(c: Seq<(i32, CachedIdentity)>, pid: i32)
    requires
        forall|i: int| 0 <= i < c.len() ==> c[i].0 != pid,
    ensures
        cache_get(c, pid) is None,
    decreases c.len(),
{
    if c.len() > 0 {
        lemma_cache_get_none(c.drop_last(), pid);
    }
}

/// Looks up the cache entry for `pid`.
fn cache_find(c: &Vec<(i32, CachedIdentity)>, pid: i32) -> (r: Option<usize>)
    requires
        keys_unique(c@),
    ensures
        match r {
            Some(i) => i < c@.len() && c@[i as int].0 == pid && cache_get(c@, pid) == Some(c@[i as int].1),
            None => cache_get(c@, pid) is None,
        },
{
    let mut i: usize = 0;
    while i < c.len()
        invariant
            keys_unique(c@),
            i <= c@.len(),
            forall|k: int| 0 <= k < i ==> c@[k].0 != pid,
        decreases c@.len() - i,
    {
        if c[i].0 == pid {
            proof {
                lemma_cache_get_index(c@, pid, i as int);
            }
            return Some(i);
        }
        i = i + 1;
    }
    proof {
        lemma_cache_get_none(c@, pid);
    }
    None
}

/// Whether a stored identity for a task disagrees with the start time the
/// task shows now.
pub open spec fn stale_entry(c: Option<CachedIdentity>, observed: Option<u64>) -> bool {
    c matches Some(e) && e.start_time_ticks is Some && observed is Some && e.start_time_ticks != observed
}

// ---------------------------------------------------------------------------
// The resolver
// ---------------------------------------------------------------------------

/// An identity and how the cache took part in finding it.
#[derive(Debug, Clone)]
pub struct IdentityResolution {
    pub identity: VmIdentity,
    pub cache_result: IdentityCacheResult,
}

/// Resolves host tasks to VM identities, with a cache per task, the
/// libvirt inventory, and a cooldown on conflict reports.
pub struct VmIdentityResolver {
    pub enable: bool,
    pub live_host_lookup: bool,
    pub ttl_ms: u64,
    pub qmp_socket_dirs: Vec<String>,
    pub libvirt: Option<LibvirtDomainDiscovery>,
    pub cache: Vec<(i32, CachedIdentity)>,
    pub last_conflicts: Vec<(i32, IdentityConflictReason, u64)>,
}

/// The identity that stands for task `pid` when nothing is known of it.
pub open spec fn fallback_identity(f: VmIdentity, pid: i32) -> bool {
    &&& bare_fields(f, pid, None)
    &&& views(f.identity_sources@) == seq![IDENTITY_SOURCE_FALLBACK_PID@]
}

/// The identity that stands for task `pid` when nothing is known of it.
pub fn fallback_pid_identity(pid: i32) -> (r: VmIdentity)
    ensures
        fallback_identity(r, pid),
{
    let mut ident = bare_pid_identity(pid, None);
    push_identity_source(&mut ident.identity_sources, IDENTITY_SOURCE_FALLBACK_PID);
    assert(views(ident.identity_sources@) =~= seq![IDENTITY_SOURCE_FALLBACK_PID@]);
    recompute_identity_confidence(&mut ident);
    ident
}

/// The last steps of a resolution: an empty VM id becomes the stable pid
/// id, and a stale cache entry is reported as the conflict when there is
/// no other.
pub open spec fn resolution_finished(
    m: VmIdentity,
    f: VmIdentity,
    pid: i32,
    stale: Option<IdentityConflict>,
) -> bool {
    &&& f == (VmIdentity {
        vm_id: f.vm_id,
        identity_conflict: if m.identity_conflict is None {
            stale
        } else {
            m.identity_conflict
        },
        ..m
    })
    &&& if m.vm_id@.len() == 0 {
        f.vm_id@ == stable_pid_text(pid, m.host_start_time_ticks)
    } else {
        f.vm_id == m.vm_id
    }
}

/// Two identities hold the same values (their source lists element by
/// element).
pub open spec fn same_identity(a: VmIdentity, b: VmIdentity) -> bool {
    a.identity_sources@ == b.identity_sources@ && (VmIdentity { identity_sources: b.identity_sources, ..a }) == b
}

/// A copy of `v`.
pub fn clone_string_vec(v: &Vec<String>) -> (r: Vec<String>)
    ensures
        r@ == v@,
{
    let r = v.clone();
    assert(r@ =~= v@);
    r
}

/// A copy of `s`.
pub fn clone_opt_string(s: &Option<String>) -> (r: Option<String>)
    ensures
        r == *s,
{
    match s {
        Some(x) => Some(x.clone()),
        None => None,
    }
}

/// A copy of `ident`.
pub fn clone_identity(ident: &VmIdentity) -> (r: VmIdentity)
    ensures
        same_identity(r, *ident),
{
    VmIdentity {
        host_pid: ident.host_pid,
        host_start_time_ticks: ident.host_start_time_ticks,
        vm_id: ident.vm_id.clone(),
        vm_name: clone_opt_string(&ident.vm_name),
        libvirt_uuid: clone_opt_string(&ident.libvirt_uuid),
        cgroup_unit: clone_opt_string(&ident.cgroup_unit),
        qmp_socket: clone_opt_string(&ident.qmp_socket),
        vcpu_id: ident.vcpu_id,
        vcpu_ambiguous: ident.vcpu_ambiguous,
        ambiguous: ident.ambiguous,
        identity_sources: clone_string_vec(&ident.identity_sources),
        identity_confidence: ident.identity_confidence,
        start_time_verified: ident.start_time_verified,
        identity_conflict: ident.identity_conflict,
    }
}

impl VmIdentityResolver {
    /// The resolver works with its cache entries one per task.
    pub open spec fn wf(&self) -> bool {
        keys_unique(self.cache@)
    }

    /// A resolver that reads the host, with the libvirt inventory loaded
    /// from the configured directory (when there is one).
    pub fn new(cfg: &Identity, libvirt: Option<LibvirtDomainDiscovery>) -> (r: Self)
        ensures
            r.wf(),
            r.enable == cfg.enable,
            r.live_host_lookup,
            r.ttl_ms == cfg.cache_ms,
            views(r.qmp_socket_dirs@) == views(cfg.qmp_socket_dirs@),
            r.libvirt == libvirt,
            r.cache@.len() == 0,
            r.last_conflicts@.len() == 0,
    {
        VmIdentityResolver {
            enable: cfg.enable,
            live_host_lookup: true,
            ttl_ms: cfg.cache_ms,
            qmp_socket_dirs: crate::detectors::clone_strings(&cfg.qmp_socket_dirs),
            libvirt,
            cache: Vec::new(),
            last_conflicts: Vec::new(),
        }
    }

    /// A resolver for deterministic replay: it reads nothing from the host
    /// and has no libvirt inventory.
    pub fn deterministic_replay(cfg: &Identity) -> (r: Self)
        ensures
            r.wf(),
            r.enable == cfg.enable,
            !r.live_host_lookup,
            r.ttl_ms == cfg.cache_ms,
            views(r.qmp_socket_dirs@) == views(cfg.qmp_socket_dirs@),
            r.libvirt is None,
            r.cache@.len() == 0,
            r.last_conflicts@.len() == 0,
    {
        VmIdentityResolver {
            enable: cfg.enable,
            live_host_lookup: false,
            ttl_ms: cfg.cache_ms,
            qmp_socket_dirs: crate::detectors::clone_strings(&cfg.qmp_socket_dirs),
            libvirt: None,
            cache: Vec::new(),
            last_conflicts: Vec::new(),
        }
    }

    /// Whether a live resolver for `cfg` loads a libvirt inventory: the
    /// configured directory is not blank.
    pub fn wants_libvirt_dir(cfg: &Identity) -> (r: bool)
        ensures
            r == (trim(cfg.libvirt_xml_dir@).len() > 0),
    {
        !crate::text::is_blank(cfg.libvirt_xml_dir.as_str())
    }

    /// Number of tasks with a cached identity.
    pub fn cache_len(&self) -> (r: usize)
        ensures
            r == self.cache@.len(),
    {
        self.cache.len()
    }

    /// Resolves task `pid` at `now_ms`. A live resolver is handed what the
    /// host showed: the task's start time and the identity read from its
    /// command line and cgroup (`host_identity`, `finish_host_identity`).
    /// A matching cache entry is reused; otherwise the identity is built,
    /// attributed from the libvirt inventory, and cached when it has a
    /// start time and is not ambiguous.
    pub fn resolve_pid_with_metrics(
        &mut self,
        pid: i32,
        now_ms: u64,
        observed_start_time_ticks: Option<u64>,
        host: Option<VmIdentity>,
    ) -> (r: IdentityResolution)
        requires
            old(self).wf(),
            old(self).live_host_lookup ==> host is Some,
        ensures
            final(self).wf(),
            resolved(*old(self), *final(self), pid, now_ms, observed_start_time_ticks, host, r),
    {
        let start = if self.live_host_lookup {
            observed_start_time_ticks
        } else {
            None
        };
        let found = cache_find(&self.cache, pid);
        let mut stale: Option<IdentityConflict> = None;
        let mut cache_result = IdentityCacheResult::Miss;
        if let Some(i) = found {
            let cached = &self.cache[i].1;
            if cache_entry_matches(cached, start, now_ms, self.ttl_ms) {
                return IdentityResolution { identity: clone_identity(&cached.value), cache_result: IdentityCacheResult::Hit };
            }
            let differs = match (cached.start_time_ticks, start) {
                (Some(expected), Some(observed)) => expected != observed,
                _ => false,
            };
            if differs {
                cache_result = IdentityCacheResult::Refusal;
                stale = Some(IdentityConflict { task_id: pid, reason: IdentityConflictReason::StaleCache, ambiguous: false });
            }
        }
        let mut ident = if self.live_host_lookup {
            match host {
                Some(h) => h,
                None => fallback_pid_identity(pid),
            }
        } else {
            fallback_pid_identity(pid)
        };
        let ghost b = ident;
        if self.live_host_lookup {
            if let Some(libvirt) = &self.libvirt {
                apply_libvirt_discovery(pid, &mut ident, libvirt);
            }
        }
        let ghost m = ident;
        if crate::text::str_is_empty(ident.vm_id.as_str()) {
            ident.vm_id = stable_pid_id(pid, ident.host_start_time_ticks);
        }
        if ident.identity_conflict.is_none() {
            ident.identity_conflict = stale;
        }
        assert(resolution_steps(*old(self), pid, host, b, m));
        if ident.host_start_time_ticks.is_some() && !ident.ambiguous {
            let entry = CachedIdentity {
                seen_at_ms: now_ms,
                start_time_ticks: ident.host_start_time_ticks,
                value: clone_identity(&ident),
            };
            self.cache_store(pid, found, entry);
        }
        IdentityResolution { identity: ident, cache_result }
    }
}

impl VmIdentityResolver {
    /// Stores `entry` for `pid`, replacing the entry at `found` if any.
    fn cache_store(&mut self, pid: i32, found: Option<usize>, entry: CachedIdentity)
        requires
            old(self).wf(),
            match found {
                Some(i) => i < old(self).cache@.len() && old(self).cache@[i as int].0 == pid,
                None => cache_get(old(self).cache@, pid) is None,
            },
        ensures
            final(self).wf(),
            *final(self) == (VmIdentityResolver { cache: final(self).cache, ..*old(self) }),
            cache_get(final(self).cache@, pid) == Some(entry),
            forall|q: i32| q != pid ==> cache_get(final(self).cache@, q) == cache_get(old(self).cache@, q),
            final(self).cache@.len() == old(self).cache@.len() + (if found is Some { 0int } else { 1int }),
    {
        let ghost before = self.cache@;
        match found {
            Some(i) => {
                self.cache.set(i, (pid, entry));
                proof {
                    assert(keys_unique(self.cache@));
                    lemma_cache_get_index(self.cache@, pid, i as int);
                    assert forall|q: i32| q != pid implies cache_get(self.cache@, q) == cache_get(before, q) by {
                        lemma_cache_get_update(before, i as int, (pid, entry), q);
                    }
                }
            },
            None => {
                self.cache.push((pid, entry));
                proof {
                    assert(self.cache@.drop_last() =~= before);
                    assert forall|a: int, b: int| 0 <= a < b < self.cache@.len() implies self.cache@[a].0 != self.cache@[b].0 by {
                        if b == before.len() {
                            lemma_cache_get_none_index(before, pid, a);
                        }
                    }
                }
            },
        }
    }
}

proof fn lemma_cache_get_none_index(c: Seq<(i32, CachedIdentity)>, pid: i32, i: int)
    requires
        cache_get(c, pid) is None,
        0 <= i < c.len(),
    ensures
        c[i].0 != pid,
    decreases c.len(),
{
    if i < c.len() - 1 {
        lemma_cache_get_none_index(c.drop_last(), pid, i);
    }
}

proof fn lemma_cache_get_update(c: Seq<(i32, CachedIdentity)>, i: int, e: (i32, CachedIdentity), q: i32)
    requires
        0 <= i < c.len(),
        c[i].0 == e.0,
        q != e.0,
    ensures
        cache_get(c.update(i, e), q) == cache_get(c, q),
    decreases c.len(),
{
    if i < c.len() - 1 {
        assert(c.update(i, e).drop_last() =~= c.drop_last().update(i, e));
        lemma_cache_get_update(c.drop_last(), i, e, q);
    } else {
        assert(c.update(i, e).drop_last() =~= c.drop_last());
    }
}

/// What resolving task `pid` at `now_ms` did: `o` is the resolver
/// before, `f` after, `r` the resolution.
pub open spec fn resolved(
    o: VmIdentityResolver,
    f: VmIdentityResolver,
    pid: i32,
    now_ms: u64,
    observed_start_time_ticks: Option<u64>,
    host: Option<VmIdentity>,
    r: IdentityResolution,
) -> bool {
    let start = if o.live_host_lookup { observed_start_time_ticks } else { None };
    let entry = cache_get(o.cache@, pid);
    if entry is Some && entry_matches(entry->0, start, now_ms, o.ttl_ms) {
        &&& same_identity(r.identity, entry->0.value)
        &&& r.cache_result == IdentityCacheResult::Hit
        &&& f == o
    } else {
        let stale = if stale_entry(entry, start) {
            Some(IdentityConflict { task_id: pid, reason: IdentityConflictReason::StaleCache, ambiguous: false })
        } else {
            None
        };
        &&& r.cache_result == (if stale_entry(entry, start) {
            IdentityCacheResult::Refusal
        } else {
            IdentityCacheResult::Miss
        })
        &&& exists|b: VmIdentity, m: VmIdentity| {
            &&& #[trigger] resolution_steps(o, pid, host, b, m)
            &&& resolution_finished(m, r.identity, pid, stale)
        }
        &&& f == (VmIdentityResolver { cache: f.cache, ..o })
        &&& if r.identity.host_start_time_ticks is Some && !r.identity.ambiguous {
            &&& cache_get(f.cache@, pid) matches Some(e) && e.seen_at_ms == now_ms
                && e.start_time_ticks == r.identity.host_start_time_ticks && same_identity(e.value, r.identity)
            &&& forall|q: i32| q != pid ==> cache_get(f.cache@, q) == cache_get(o.cache@, q)
            &&& f.cache@.len() == o.cache@.len() + (if entry is Some { 0int } else { 1int })
        } else {
            f.cache@ == o.cache@
        }
    }
}

/// How a resolution builds its identity before the last steps: `b` is the
/// identity read from the host (or the pid fallback), `m` that identity
/// after the libvirt inventory was applied to it.
pub open spec fn resolution_steps(
    o: VmIdentityResolver,
    pid: i32,
    host: Option<VmIdentity>,
    b: VmIdentity,
    m: VmIdentity,
) -> bool {
    &&& if o.live_host_lookup {
        host == Some(b)
    } else {
        fallback_identity(b, pid)
    }
    &&& if o.live_host_lookup && o.libvirt is Some {
        libvirt_discovery_applied(b, m, pid, o.libvirt->0.domains@)
    } else {
        m == b
    }
}


impl VmIdentityResolver {
    /// The identity of task `pid` (see `resolve_pid_with_metrics`).
    pub fn resolve_pid(
        &mut self,
        pid: i32,
        now_ms: u64,
        observed_start_time_ticks: Option<u64>,
        host: Option<VmIdentity>,
    ) -> (r: VmIdentity)
        requires
            old(self).wf(),
            old(self).live_host_lookup ==> host is Some,
        ensures
            final(self).wf(),
            exists|res: IdentityResolution| #[trigger] resolved(*old(self), *final(self), pid, now_ms, observed_start_time_ticks, host, res)
                && res.identity == r,
    {
        let res = self.resolve_pid_with_metrics(pid, now_ms, observed_start_time_ticks, host);
        assert(resolved(*old(self), *self, pid, now_ms, observed_start_time_ticks, host, res));
        res.identity
    }

    /// The libvirt inventory as a snapshot: disabled when identity is off,
    /// empty without an inventory.
    pub fn inventory_snapshot(&self) -> (r: VmInventorySnapshot)
        ensures
            !self.enable ==> r.status@ == "disabled"@ && r.source@ == "disabled"@ && r.freshness@ == "none"@
                && r.vm_count == 0 && !r.degraded && r.vms@.len() == 0,
            self.enable && self.libvirt is None ==> r.status@ == "ok"@ && r.source@ == "none"@
                && r.freshness@ == "none"@ && r.vm_count == 0 && !r.degraded && r.vms@.len() == 0,
            self.enable && self.libvirt is Some ==> crate::inventory::inventory_of(self.libvirt->0.domains@, r),
    {
        if !self.enable {
            return VmInventorySnapshot::disabled();
        }
        match &self.libvirt {
            Some(d) => d.inventory_snapshot(),
            None => VmInventorySnapshot::empty(),
        }
    }
}

} // verus!
