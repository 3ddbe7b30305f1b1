//! The persisted detector state: deduplication entries and incidents as a
//! line-oriented text format, its rendering and its parsing.
use vstd::prelude::*;
use crate::detectors::dedupe::{AggregatedDetection, DetectionDedupeKey};
use crate::detectors::{clone_opt, detectionkind_of_label, DetectionKind, DetectorError};
use crate::event::{severity_from_str, severity_parse, Severity};
use crate::incidents::{IncidentRecord, IncidentStatus};
use crate::text::{
    cat3, dec, eq_lit, lines, lines_of, owned, parse_u64, parse_unsigned, push_char, push_str,
    split_char, split_on, str_eq, to_chars, trim, trim_owned, u64_to_dec, views,
};

verus! {

pub const DETECTOR_STATE_VERSION: &'static str = "aegishv-detector-state-v1";

#[derive(Debug, Clone, PartialEq, Eq)]
pub struct PersistedDedupeEntry {
    pub key: DetectionDedupeKey,
    pub kind: DetectionKind,
    pub count: u64,
    pub first_seen_ms: u64,
    pub last_seen_ms: u64,
}

#[derive(Debug, Clone, PartialEq, Eq)]
pub struct PersistedIncidentEntry {
    pub incident_id: String,
    pub vm_id: String,
    pub status: IncidentStatus,
    pub severity: Severity,
    pub first_seen_ms: u64,
    pub last_seen_ms: u64,
    pub detection_count: u64,
    pub kinds: Vec<DetectionKind>,
}

#[derive(Debug, Clone, PartialEq, Eq)]
pub struct DetectorState {
    pub dedupe: Vec<PersistedDedupeEntry>,
    pub incidents: Vec<PersistedIncidentEntry>,
}

#[derive(Debug, Clone, PartialEq, Eq)]
pub struct DetectorStateEvent {
    pub severity: Severity,
    pub message: String,
}

#[derive(Debug, Clone, PartialEq, Eq)]
pub struct DetectorStateLoad {
    pub state: DetectorState,
    pub sensor_events: Vec<DetectorStateEvent>,
}

// ---------------------------------------------------------------------------
// Views
// ---------------------------------------------------------------------------

pub struct KeyView {
    pub detector_id: Seq<char>,
    pub vm_id: Option<Seq<char>>,
    pub entity: Option<Seq<char>>,
    pub range_start: Option<u64>,
    pub range_end: Option<u64>,
    pub symbol: Option<Seq<char>>,
}

pub struct DedupeEntryView {
    pub key: KeyView,
    pub kind: DetectionKind,
    pub count: u64,
    pub first_seen_ms: u64,
    pub last_seen_ms: u64,
}

pub struct IncidentEntryView {
    pub incident_id: Seq<char>,
    pub vm_id: Seq<char>,
    pub status: IncidentStatus,
    pub severity: Severity,
    pub first_seen_ms: u64,
    pub last_seen_ms: u64,
    pub detection_count: u64,
    pub kinds: Seq<DetectionKind>,
}

pub struct DetectorStateView {
    pub dedupe: Seq<DedupeEntryView>,
    pub incidents: Seq<IncidentEntryView>,
}

pub open spec fn opt_view(o: Option<String>) -> Option<Seq<char>> {
    match o {
        Some(s) => Some(s@),
        None => None,
    }
}

pub open spec fn key_view(k: DetectionDedupeKey) -> KeyView {
    KeyView {
        detector_id: k.detector_id@,
        vm_id: opt_view(k.vm_id),
        entity: opt_view(k.entity),
        range_start: k.range_start,
        range_end: k.range_end,
        symbol: opt_view(k.symbol),
    }
}

impl View for PersistedDedupeEntry {
    type V = DedupeEntryView;

    open spec fn view(&self) -> DedupeEntryView {
        DedupeEntryView {
            key: key_view(self.key),
            kind: self.kind,
            count: self.count,
            first_seen_ms: self.first_seen_ms,
            last_seen_ms: self.last_seen_ms,
        }
    }
}

impl View for PersistedIncidentEntry {
    type V = IncidentEntryView;

    open spec fn view(&self) -> IncidentEntryView {
        IncidentEntryView {
            incident_id: self.incident_id@,
            vm_id: self.vm_id@,
            status: self.status,
            severity: self.severity,
            first_seen_ms: self.first_seen_ms,
            last_seen_ms: self.last_seen_ms,
            detection_count: self.detection_count,
            kinds: self.kinds@,
        }
    }
}

impl View for DetectorState {
    type V = DetectorStateView;

    open spec fn view(&self) -> DetectorStateView {
        DetectorStateView {
            dedupe: self.dedupe@.map_values(|e: PersistedDedupeEntry| e@),
            incidents: self.incidents@.map_values(|e: PersistedIncidentEntry| e@),
        }
    }
}

impl DetectorState {
    pub fn empty() -> (r: Self)
        ensures
            r@.dedupe.len() == 0,
            r@.incidents.len() == 0,
    {
        DetectorState { dedupe: Vec::new(), incidents: Vec::new() }
    }

    /// The persistent part of the deduplication table and the incidents.
    pub fn from_runtime(dedupe: &[AggregatedDetection], incidents: &[IncidentRecord]) -> (r: Self)
        ensures
            r.dedupe@.len() == dedupe@.len(),
            forall|i: int|
                0 <= i < dedupe@.len() ==> #[trigger] r.dedupe@[i] == (PersistedDedupeEntry {
                    key: dedupe@[i].key,
                    kind: dedupe@[i].kind,
                    count: dedupe@[i].count,
                    first_seen_ms: dedupe@[i].first_seen_ms,
                    last_seen_ms: dedupe@[i].last_seen_ms,
                }),
            r.incidents@.len() == incidents@.len(),
            forall|i: int|
                0 <= i < incidents@.len() ==> (#[trigger] r.incidents@[i])@ == (IncidentEntryView {
                    incident_id: incidents@[i].incident_id@,
                    vm_id: incidents@[i].vm_id@,
                    status: incidents@[i].status,
                    severity: incidents@[i].severity,
                    first_seen_ms: incidents@[i].first_seen_ms,
                    last_seen_ms: incidents@[i].last_seen_ms,
                    detection_count: incidents@[i].detection_count,
                    kinds: incidents@[i].kinds@,
                }),
    {
        let mut d: Vec<PersistedDedupeEntry> = Vec::new();
        let mut i: usize = 0;
        while i < dedupe.len()
            invariant
                i <= dedupe@.len(),
                d@.len() == i,
                forall|k: int|
                    0 <= k < i ==> #[trigger] d@[k] == (PersistedDedupeEntry {
                        key: dedupe@[k].key,
                        kind: dedupe@[k].kind,
                        count: dedupe@[k].count,
                        first_seen_ms: dedupe@[k].first_seen_ms,
                        last_seen_ms: dedupe@[k].last_seen_ms,
                    }),
            decreases dedupe@.len() - i,
        {
            let e = &dedupe[i];
            d.push(
                PersistedDedupeEntry {
                    key: e.key.duplicate(),
                    kind: e.kind,
                    count: e.count,
                    first_seen_ms: e.first_seen_ms,
                    last_seen_ms: e.last_seen_ms,
                },
            );
            i = i + 1;
        }
        let mut n: Vec<PersistedIncidentEntry> = Vec::new();
        let mut j: usize = 0;
        while j < incidents.len()
            invariant
                j <= incidents@.len(),
                n@.len() == j,
                forall|k: int|
                    0 <= k < j ==> (#[trigger] n@[k])@ == (IncidentEntryView {
                        incident_id: incidents@[k].incident_id@,
                        vm_id: incidents@[k].vm_id@,
                        status: incidents@[k].status,
                        severity: incidents@[k].severity,
                        first_seen_ms: incidents@[k].first_seen_ms,
                        last_seen_ms: incidents@[k].last_seen_ms,
                        detection_count: incidents@[k].detection_count,
                        kinds: incidents@[k].kinds@,
                    }),
            decreases incidents@.len() - j,
        {
            let x = &incidents[j];
            let mut kinds: Vec<DetectionKind> = Vec::new();
            let mut t: usize = 0;
            while t < x.kinds.len()
                invariant
                    t <= x.kinds@.len(),
                    kinds@ == x.kinds@.take(t as int),
                decreases x.kinds@.len() - t,
            {
                kinds.push(x.kinds[t]);
                t = t + 1;
                assert(kinds@ =~= x.kinds@.take(t as int));
            }
            assert(x.kinds@.take(x.kinds@.len() as int) =~= x.kinds@);
            n.push(
                PersistedIncidentEntry {
                    incident_id: owned(x.incident_id.as_str()),
                    vm_id: owned(x.vm_id.as_str()),
                    status: x.status,
                    severity: x.severity,
                    first_seen_ms: x.first_seen_ms,
                    last_seen_ms: x.last_seen_ms,
                    detection_count: x.detection_count,
                    kinds,
                },
            );
            j = j + 1;
        }
        DetectorState { dedupe: d, incidents: n }
    }
}

// ---------------------------------------------------------------------------
// Rendering
// ---------------------------------------------------------------------------

/// A field with `|`, line feeds and carriage returns replaced by `_`.
pub open spec fn sanitize(s: Seq<char>) -> Seq<char> {
    s.map_values(|c: char| if c == '|' || c == '\n' || c == '\r' { '_' } else { c })
}

pub open spec fn opt_text(o: Option<Seq<char>>) -> Seq<char> {
    match o {
        Some(s) => s,
        None => "-"@,
    }
}

pub open spec fn opt_num(o: Option<u64>) -> Seq<char> {
    match o {
        Some(n) => dec(n as nat),
        None => "-"@,
    }
}

/// The fields joined with `sep`.
pub open spec fn join_with(fields: Seq<Seq<char>>, sep: char) -> Seq<char>
    decreases fields.len(),
{
    if fields.len() == 0 {
        Seq::empty()
    } else if fields.len() == 1 {
        fields[0]
    } else {
        join_with(fields.drop_last(), sep).push(sep) + fields.last()
    }
}

pub open spec fn dedupe_fields(e: DedupeEntryView) -> Seq<Seq<char>> {
    seq![
        e.key.detector_id,
        opt_text(e.key.vm_id),
        opt_text(e.key.entity),
        opt_num(e.key.range_start),
        opt_num(e.key.range_end),
        opt_text(e.key.symbol),
        e.kind.name(),
        dec(e.count as nat),
        dec(e.first_seen_ms as nat),
        dec(e.last_seen_ms as nat),
    ]
}

pub open spec fn kinds_text(ks: Seq<DetectionKind>) -> Seq<char> {
    join_with(ks.map_values(|k: DetectionKind| k.name()), ',')
}

pub open spec fn incident_fields(e: IncidentEntryView) -> Seq<Seq<char>> {
    seq![
        e.incident_id,
        e.vm_id,
        e.status.name(),
        e.severity.name(),
        dec(e.first_seen_ms as nat),
        dec(e.last_seen_ms as nat),
        dec(e.detection_count as nat),
        kinds_text(e.kinds),
    ]
}

/// A record line: the tag and the sanitized fields, separated by `|`.
pub open spec fn record_line(tag: Seq<char>, fields: Seq<Seq<char>>) -> Seq<char> {
    join_with(seq![tag] + fields.map_values(|f: Seq<char>| sanitize(f)), '|')
}

pub open spec fn dedupe_line(e: DedupeEntryView) -> Seq<char> {
    record_line("dedupe"@, dedupe_fields(e))
}

pub open spec fn incident_line(e: IncidentEntryView) -> Seq<char> {
    record_line("incident"@, incident_fields(e))
}

/// Each line followed by a line feed.
pub open spec fn lines_text(ls: Seq<Seq<char>>) -> Seq<char>
    decreases ls.len(),
{
    if ls.len() == 0 {
        Seq::empty()
    } else {
        lines_text(ls.drop_last()) + ls.last().push('\n')
    }
}

/// The text of a state: the version line, then a line per deduplication
/// entry, then a line per incident.
pub open spec fn render_state(st: DetectorStateView) -> Seq<char> {
    lines_text(
        seq![DETECTOR_STATE_VERSION@] + st.dedupe.map_values(|e: DedupeEntryView| dedupe_line(e))
            + st.incidents.map_values(|e: IncidentEntryView| incident_line(e)),
    )
}

fn sanitized(s: &str) -> (r: String)
    ensures
        r@ == sanitize(s@),
{
    let v = to_chars(s);
    let mut out = String::new();
    let mut i: usize = 0;
    while i < v.len()
        invariant
            v@ == s@,
            i <= v@.len(),
            out@ == sanitize(s@).take(i as int),
        decreases v@.len() - i,
    {
        let c = v[i];
        let d = if c == '|' || c == '\n' || c == '\r' {
            '_'
        } else {
            c
        };
        push_char(&mut out, d);
        i = i + 1;
        assert(out@ =~= sanitize(s@).take(i as int));
    }
    assert(sanitize(s@).take(v@.len() as int) =~= sanitize(s@));
    out
}

/// Appends a record line: the tag, then each field sanitized after a `|`.
fn push_record(out: &mut String, tag: &str, fields: &Vec<String>)
    requires
        fields@.len() > 0,
    ensures
        final(out)@ == old(out)@ + record_line(tag@, views(fields@)) + seq!['\n'],
{
    let ghost base = old(out)@;
    let ghost all = seq![tag@] + views(fields@).map_values(|f: Seq<char>| sanitize(f));
    push_str(out, tag);
    assert(all.take(1) =~= seq![tag@]);
    assert(join_with(all.take(1), '|') == tag@);
    let mut i: usize = 0;
    while i < fields.len()
        invariant
            i <= fields@.len(),
            all == seq![tag@] + views(fields@).map_values(|f: Seq<char>| sanitize(f)),
            out@ == base + join_with(all.take(i as int + 1), '|'),
        decreases fields@.len() - i,
    {
        push_char(out, '|');
        let f = sanitized(fields[i].as_str());
        push_str(out, f.as_str());
        proof {
            let t = all.take(i as int + 2);
            assert(t.drop_last() =~= all.take(i as int + 1));
            assert(t.last() == f@);
        }
        i = i + 1;
    }
    assert(all.take(fields@.len() as int + 1) =~= all);
    push_char(out, '\n');
}

fn opt_field(o: &Option<String>) -> (r: String)
    ensures
        r@ == opt_text(opt_view(*o)),
{
    match o {
        Some(s) => owned(s.as_str()),
        None => owned("-"),
    }
}

fn opt_num_field(o: Option<u64>) -> (r: String)
    ensures
        r@ == opt_num(o),
{
    match o {
        Some(n) => u64_to_dec(n),
        None => owned("-"),
    }
}

fn kinds_field(ks: &Vec<DetectionKind>) -> (r: String)
    ensures
        r@ == kinds_text(ks@),
{
    let ghost names = ks@.map_values(|k: DetectionKind| k.name());
    let mut out = String::new();
    let mut i: usize = 0;
    assert(names.take(0) =~= Seq::<Seq<char>>::empty());
    while i < ks.len()
        invariant
            i <= ks@.len(),
            names == ks@.map_values(|k: DetectionKind| k.name()),
            out@ == join_with(names.take(i as int), ','),
        decreases ks@.len() - i,
    {
        if i > 0 {
            push_char(&mut out, ',');
        }
        push_str(&mut out, ks[i].as_str());
        proof {
            let t = names.take(i as int + 1);
            assert(t.drop_last() =~= names.take(i as int));
            assert(t.last() == ks@[i as int].name());
            if i == 0 {
                assert(t =~= seq![ks@[0].name()]);
                assert(out@ =~= ks@[0].name());
            }
        }
        i = i + 1;
    }
    assert(names.take(ks@.len() as int) =~= names);
    out
}

/// The text of a state.
pub fn render_detector_state(state: &DetectorState) -> (r: String)
    ensures
        r@ == render_state(state@),
{
    let ghost dl = state@.dedupe.map_values(|e: DedupeEntryView| dedupe_line(e));
    let ghost il = state@.incidents.map_values(|e: IncidentEntryView| incident_line(e));
    let ghost ls = seq![DETECTOR_STATE_VERSION@] + dl + il;
    let mut out = owned(DETECTOR_STATE_VERSION);
    push_char(&mut out, '\n');
    proof {
        assert(ls.take(1) =~= seq![DETECTOR_STATE_VERSION@]);
        assert(ls.take(1).drop_last() =~= Seq::<Seq<char>>::empty());
        assert(ls.take(1).last() == DETECTOR_STATE_VERSION@);
        assert(lines_text(Seq::<Seq<char>>::empty()) =~= Seq::<char>::empty());
        assert(lines_text(ls.take(1)) =~= DETECTOR_STATE_VERSION@.push('\n'));
    }
    let mut i: usize = 0;
    while i < state.dedupe.len()
        invariant
            i <= state.dedupe@.len(),
            dl == state@.dedupe.map_values(|e: DedupeEntryView| dedupe_line(e)),
            ls == seq![DETECTOR_STATE_VERSION@] + dl + il,
            out@ == lines_text(ls.take(i as int + 1)),
        decreases state.dedupe@.len() - i,
    {
        let e = &state.dedupe[i];
        let mut fields: Vec<String> = Vec::new();
        fields.push(owned(e.key.detector_id.as_str()));
        fields.push(opt_field(&e.key.vm_id));
        fields.push(opt_field(&e.key.entity));
        fields.push(opt_num_field(e.key.range_start));
        fields.push(opt_num_field(e.key.range_end));
        fields.push(opt_field(&e.key.symbol));
        fields.push(owned(e.kind.as_str()));
        fields.push(u64_to_dec(e.count));
        fields.push(u64_to_dec(e.first_seen_ms));
        fields.push(u64_to_dec(e.last_seen_ms));
        let ghost before = out@;
        push_record(&mut out, "dedupe", &fields);
        proof {
            assert(views(fields@) =~= dedupe_fields(e@));
            let t = ls.take(i as int + 2);
            assert(t.drop_last() =~= ls.take(i as int + 1));
            assert(t.last() == dedupe_line(e@));
            assert(out@ =~= before + dedupe_line(e@).push('\n'));
        }
        i = i + 1;
    }
    let nd = state.dedupe.len();
    let mut j: usize = 0;
    while j < state.incidents.len()
        invariant
            j <= state.incidents@.len(),
            nd == state.dedupe@.len(),
            dl == state@.dedupe.map_values(|e: DedupeEntryView| dedupe_line(e)),
            il == state@.incidents.map_values(|e: IncidentEntryView| incident_line(e)),
            ls == seq![DETECTOR_STATE_VERSION@] + dl + il,
            out@ == lines_text(ls.take(nd + j + 1)),
        decreases state.incidents@.len() - j,
    {
        let e = &state.incidents[j];
        let mut fields: Vec<String> = Vec::new();
        fields.push(owned(e.incident_id.as_str()));
        fields.push(owned(e.vm_id.as_str()));
        fields.push(owned(e.status.as_str()));
        fields.push(owned(e.severity.as_str()));
        fields.push(u64_to_dec(e.first_seen_ms));
        fields.push(u64_to_dec(e.last_seen_ms));
        fields.push(u64_to_dec(e.detection_count));
        fields.push(kinds_field(&e.kinds));
        let ghost before = out@;
        push_record(&mut out, "incident", &fields);
        proof {
            assert(views(fields@) =~= incident_fields(e@));
            let t = ls.take(nd + j + 2);
            assert(t.drop_last() =~= ls.take(nd + j + 1));
            assert(t.last() == incident_line(e@));
            assert(out@ =~= before + incident_line(e@).push('\n'));
        }
        j = j + 1;
    }
    assert(ls.take(ls.len() as int) =~= ls);
    out
}


// ---------------------------------------------------------------------------
// Parsing
// ---------------------------------------------------------------------------

/// `"line <n>: <detail>"`.
pub open spec fn at_line(n: nat, detail: Seq<char>) -> Seq<char> {
    "line "@ + dec(n) + ": "@ + detail
}

/// The non-blank lines, trimmed, with their 1-based numbers.
pub open spec fn numbered(ls: Seq<Seq<char>>) -> Seq<(nat, Seq<char>)>
    decreases ls.len(),
{
    if ls.len() == 0 {
        Seq::empty()
    } else {
        let p = numbered(ls.drop_last());
        let t = trim(ls.last());
        if t.len() == 0 {
            p
        } else {
            p.push((ls.len(), t))
        }
    }
}

/// A text field: not empty, not `-`, without a line feed or `|`.
pub open spec fn text_field(n: nat, name: Seq<char>, v: Seq<char>) -> Result<Seq<char>, Seq<char>> {
    if v.len() == 0 || v == "-"@ || v.contains('\n') || v.contains('|') {
        Err(at_line(n, "field '"@ + name + "' is invalid"@))
    } else {
        Ok(v)
    }
}

pub open spec fn opt_text_field(n: nat, name: Seq<char>, v: Seq<char>) -> Result<Option<Seq<char>>, Seq<char>> {
    if v == "-"@ {
        Ok(None)
    } else {
        match text_field(n, name, v) {
            Ok(x) => Ok(Some(x)),
            Err(e) => Err(e),
        }
    }
}

pub open spec fn num_field(n: nat, name: Seq<char>, v: Seq<char>) -> Result<u64, Seq<char>> {
    match parse_unsigned(v, u64::MAX as nat) {
        Some(x) => Ok(x as u64),
        None => Err(at_line(n, "invalid integer for "@ + name + ": '"@ + v + "'"@)),
    }
}

pub open spec fn opt_num_field_of(n: nat, name: Seq<char>, v: Seq<char>) -> Result<Option<u64>, Seq<char>> {
    if v == "-"@ {
        Ok(None)
    } else {
        match num_field(n, name, v) {
            Ok(x) => Ok(Some(x)),
            Err(e) => Err(e),
        }
    }
}

pub open spec fn kind_field(n: nat, v: Seq<char>) -> Result<DetectionKind, Seq<char>> {
    match detectionkind_of_label(v) {
        Some(k) => Ok(k),
        None => Err(at_line(n, "unsupported detection kind '"@ + v + "'"@)),
    }
}

/// The kinds of the comma-separated labels `ps[..k]`.
pub open spec fn kind_list(n: nat, ps: Seq<Seq<char>>, k: int) -> Result<Seq<DetectionKind>, Seq<char>>
    decreases k,
{
    if k <= 0 {
        Ok(Seq::empty())
    } else {
        match kind_list(n, ps, k - 1) {
            Err(e) => Err(e),
            Ok(l) => match kind_field(n, ps[k - 1]) {
                Err(e) => Err(e),
                Ok(x) => Ok(l.push(x)),
            },
        }
    }
}

pub open spec fn kinds_field_of(n: nat, v: Seq<char>) -> Result<Seq<DetectionKind>, Seq<char>> {
    if trim(v).len() == 0 {
        Err(at_line(n, "incident kinds must not be empty"@))
    } else {
        let ps = split_char(v, ',');
        kind_list(n, ps, ps.len() as int)
    }
}

/// A deduplication record's fields, `p[1..=10]`.
pub open spec fn dedupe_of(n: nat, p: Seq<Seq<char>>) -> Result<DedupeEntryView, Seq<char>> {
    if p.len() != 11 {
        Err(at_line(n, "dedupe record requires 10 fields"@))
    } else {
        match text_field(n, "detector_id"@, p[1]) {
            Err(e) => Err(e),
            Ok(detector_id) => match opt_text_field(n, "vm_id"@, p[2]) {
                Err(e) => Err(e),
                Ok(vm_id) => match opt_text_field(n, "entity"@, p[3]) {
                    Err(e) => Err(e),
                    Ok(entity) => match opt_num_field_of(n, "range_start"@, p[4]) {
                        Err(e) => Err(e),
                        Ok(range_start) => match opt_num_field_of(n, "range_end"@, p[5]) {
                            Err(e) => Err(e),
                            Ok(range_end) => match opt_text_field(n, "symbol"@, p[6]) {
                                Err(e) => Err(e),
                                Ok(symbol) => match kind_field(n, p[7]) {
                                    Err(e) => Err(e),
                                    Ok(kind) => match num_field(n, "count"@, p[8]) {
                                        Err(e) => Err(e),
                                        Ok(count) => match num_field(n, "first_seen_ms"@, p[9]) {
                                            Err(e) => Err(e),
                                            Ok(first_seen_ms) => match num_field(n, "last_seen_ms"@, p[10]) {
                                                Err(e) => Err(e),
                                                Ok(last_seen_ms) => Ok(
                                                    DedupeEntryView {
                                                        key: KeyView {
                                                            detector_id,
                                                            vm_id,
                                                            entity,
                                                            range_start,
                                                            range_end,
                                                            symbol,
                                                        },
                                                        kind,
                                                        count,
                                                        first_seen_ms,
                                                        last_seen_ms,
                                                    },
                                                ),
                                            },
                                        },
                                    },
                                },
                            },
                        },
                    },
                },
            },
        }
    }
}

pub open spec fn status_of_label(v: Seq<char>) -> Option<IncidentStatus> {
    if v == "open"@ {
        Some(IncidentStatus::Open)
    } else if v == "updated"@ {
        Some(IncidentStatus::Updated)
    } else {
        None
    }
}

/// An incident record's fields, `p[1..=8]`.
pub open spec fn incident_of(n: nat, p: Seq<Seq<char>>) -> Result<IncidentEntryView, Seq<char>> {
    if p.len() != 9 {
        Err(at_line(n, "incident record requires 8 fields"@))
    } else {
        match text_field(n, "incident_id"@, p[1]) {
            Err(e) => Err(e),
            Ok(incident_id) => match text_field(n, "vm_id"@, p[2]) {
                Err(e) => Err(e),
                Ok(vm_id) => match status_of_label(p[3]) {
                    None => Err(at_line(n, "unsupported status '"@ + p[3] + "'"@)),
                    Some(status) => match severity_parse(p[4]) {
                        None => Err(at_line(n, "unsupported severity '"@ + p[4] + "'"@)),
                        Some(severity) => match num_field(n, "first_seen_ms"@, p[5]) {
                            Err(e) => Err(e),
                            Ok(first_seen_ms) => match num_field(n, "last_seen_ms"@, p[6]) {
                                Err(e) => Err(e),
                                Ok(last_seen_ms) => match num_field(n, "detection_count"@, p[7]) {
                                    Err(e) => Err(e),
                                    Ok(detection_count) => match kinds_field_of(n, p[8]) {
                                        Err(e) => Err(e),
                                        Ok(kinds) => Ok(
                                            IncidentEntryView {
                                                incident_id,
                                                vm_id,
                                                status,
                                                severity,
                                                first_seen_ms,
                                                last_seen_ms,
                                                detection_count,
                                                kinds,
                                            },
                                        ),
                                    },
                                },
                            },
                        },
                    },
                },
            },
        }
    }
}

/// The state after the record on line `n`, whose text is `line`.
pub open spec fn record_step(st: DetectorStateView, n: nat, line: Seq<char>) -> Result<DetectorStateView, Seq<char>> {
    let parts = split_char(line, '|');
    let tag = parts[0];
    if tag == "dedupe"@ {
        match dedupe_of(n, parts) {
            Ok(e) => Ok(DetectorStateView { dedupe: st.dedupe.push(e), ..st }),
            Err(x) => Err(x),
        }
    } else if tag == "incident"@ {
        match incident_of(n, parts) {
            Ok(e) => Ok(DetectorStateView { incidents: st.incidents.push(e), ..st }),
            Err(x) => Err(x),
        }
    } else {
        Err(at_line(n, "unknown detector state record '"@ + tag + "'"@))
    }
}

/// The state that the numbered lines `1..k` describe.
pub open spec fn records(nl: Seq<(nat, Seq<char>)>, k: int) -> Result<DetectorStateView, Seq<char>>
    decreases k,
{
    if k <= 1 {
        Ok(DetectorStateView { dedupe: Seq::empty(), incidents: Seq::empty() })
    } else {
        match records(nl, k - 1) {
            Err(e) => Err(e),
            Ok(st) => record_step(st, nl[k - 1].0, nl[k - 1].1),
        }
    }
}

/// The state a text describes: a version line, then records.
pub open spec fn parse_state(text: Seq<char>) -> Result<DetectorStateView, Seq<char>> {
    let nl = numbered(lines_of(text));
    if nl.len() == 0 {
        Err("missing detector state header"@)
    } else if nl[0].1 != DETECTOR_STATE_VERSION@ {
        Err(at_line(nl[0].0, "expected "@ + DETECTOR_STATE_VERSION@))
    } else {
        records(nl, nl.len() as int)
    }
}


fn malformed_at(n: usize, detail: String) -> (e: DetectorError)
    ensures
        e matches DetectorError::MalformedInput { detail: d } && d@ == at_line(n as nat, detail@),
{
    let num = u64_to_dec(n as u64);
    let mut m = cat3("line ", num.as_str(), ": ");
    push_str(&mut m, detail.as_str());
    DetectorError::MalformedInput { detail: m }
}

/// Whether `e` is the malformed-input error with message `m`.
pub open spec fn malformed_with(e: DetectorError, m: Seq<char>) -> bool {
    e matches DetectorError::MalformedInput { detail } && detail@ == m
}

fn has_char(v: &str, c: char) -> (r: bool)
    ensures
        r == v@.contains(c),
{
    let x = to_chars(v);
    let mut i: usize = 0;
    while i < x.len()
        invariant
            x@ == v@,
            i <= x@.len(),
            forall|k: int| 0 <= k < i ==> x@[k] != c,
        decreases x@.len() - i,
    {
        if x[i] == c {
            assert(x@[i as int] == c);
            return true;
        }
        i = i + 1;
    }
    false
}

fn text_field_exec(n: usize, name: &str, v: &str) -> (r: Result<String, DetectorError>)
    ensures
        match r {
            Ok(x) => text_field(n as nat, name@, v@) == Ok::<Seq<char>, Seq<char>>(x@),
            Err(e) => text_field(n as nat, name@, v@) matches Err(m) && malformed_with(e, m),
        },
{
    if crate::text::str_is_empty(v) || str_eq(v, "-") || has_char(v, '\n') || has_char(v, '|') {
        Err(malformed_at(n, cat3("field '", name, "' is invalid")))
    } else {
        Ok(owned(v))
    }
}

fn opt_text_field_exec(n: usize, name: &str, v: &str) -> (r: Result<Option<String>, DetectorError>)
    ensures
        match r {
            Ok(x) => opt_text_field(n as nat, name@, v@) == Ok::<Option<Seq<char>>, Seq<char>>(opt_view(x)),
            Err(e) => opt_text_field(n as nat, name@, v@) matches Err(m) && malformed_with(e, m),
        },
{
    if str_eq(v, "-") {
        Ok(None)
    } else {
        match text_field_exec(n, name, v) {
            Ok(x) => Ok(Some(x)),
            Err(e) => Err(e),
        }
    }
}

fn num_field_exec(n: usize, name: &str, v: &str) -> (r: Result<u64, DetectorError>)
    ensures
        match r {
            Ok(x) => num_field(n as nat, name@, v@) == Ok::<u64, Seq<char>>(x),
            Err(e) => num_field(n as nat, name@, v@) matches Err(m) && malformed_with(e, m),
        },
{
    match parse_u64(v) {
        Some(x) => Ok(x),
        None => {
            let mut d = cat3("invalid integer for ", name, ": '");
            push_str(&mut d, v);
            push_str(&mut d, "'");
            Err(malformed_at(n, d))
        },
    }
}

fn opt_num_field_exec(n: usize, name: &str, v: &str) -> (r: Result<Option<u64>, DetectorError>)
    ensures
        match r {
            Ok(x) => opt_num_field_of(n as nat, name@, v@) == Ok::<Option<u64>, Seq<char>>(x),
            Err(e) => opt_num_field_of(n as nat, name@, v@) matches Err(m) && malformed_with(e, m),
        },
{
    if str_eq(v, "-") {
        Ok(None)
    } else {
        match num_field_exec(n, name, v) {
            Ok(x) => Ok(Some(x)),
            Err(e) => Err(e),
        }
    }
}

fn kind_field_exec(n: usize, v: &str) -> (r: Result<DetectionKind, DetectorError>)
    ensures
        match r {
            Ok(x) => kind_field(n as nat, v@) == Ok::<DetectionKind, Seq<char>>(x),
            Err(e) => kind_field(n as nat, v@) matches Err(m) && malformed_with(e, m),
        },
{
    match DetectionKind::parse(v) {
        Some(k) => Ok(k),
        None => Err(malformed_at(n, cat3("unsupported detection kind '", v, "'"))),
    }
}

fn kinds_field_exec(n: usize, v: &str) -> (r: Result<Vec<DetectionKind>, DetectorError>)
    ensures
        match r {
            Ok(x) => kinds_field_of(n as nat, v@) == Ok::<Seq<DetectionKind>, Seq<char>>(x@),
            Err(e) => kinds_field_of(n as nat, v@) matches Err(m) && malformed_with(e, m),
        },
{
    let t = trim_owned(v);
    if crate::text::str_is_empty(t.as_str()) {
        return Err(malformed_at(n, owned("incident kinds must not be empty")));
    }
    let ps = split_on(v, ',');
    let ghost pv = views(ps@);
    let mut out: Vec<DetectionKind> = Vec::new();
    let mut k: usize = 0;
    while k < ps.len()
        invariant
            k <= ps@.len(),
            pv == views(ps@),
            pv == split_char(v@, ','),
            trim(v@).len() > 0,
            kind_list(n as nat, pv, k as int) == Ok::<Seq<DetectionKind>, Seq<char>>(out@),
        decreases ps@.len() - k,
    {
        assert(pv[k as int] == ps@[k as int]@);
        match kind_field_exec(n, ps[k].as_str()) {
            Ok(x) => {
                out.push(x);
            },
            Err(e) => {
                proof {
                    lemma_kind_list_err(n as nat, pv, k as int + 1, pv.len() as int);
                }
                return Err(e);
            },
        }
        k = k + 1;
    }
    Ok(out)
}

proof fn lemma_kind_list_err(n: nat, ps: Seq<Seq<char>>, k: int, m: int)
    requires
        k <= m,
        kind_list(n, ps, k) is Err,
    ensures
        kind_list(n, ps, m) == kind_list(n, ps, k),
    decreases m - k,
{
    if k < m {
        lemma_kind_list_err(n, ps, k, m - 1);
    }
}

fn dedupe_record(n: usize, p: &Vec<String>) -> (r: Result<PersistedDedupeEntry, DetectorError>)
    ensures
        match r {
            Ok(x) => dedupe_of(n as nat, views(p@)) == Ok::<DedupeEntryView, Seq<char>>(x@),
            Err(e) => dedupe_of(n as nat, views(p@)) matches Err(m) && malformed_with(e, m),
        },
{
    let ghost pv = views(p@);
    if p.len() != 11 {
        return Err(malformed_at(n, owned("dedupe record requires 10 fields")));
    }
    assert(forall|i: int| 0 <= i < 11 ==> pv[i] == #[trigger] p@[i]@);
    let detector_id = text_field_exec(n, "detector_id", p[1].as_str())?;
    let vm_id = opt_text_field_exec(n, "vm_id", p[2].as_str())?;
    let entity = opt_text_field_exec(n, "entity", p[3].as_str())?;
    let range_start = opt_num_field_exec(n, "range_start", p[4].as_str())?;
    let range_end = opt_num_field_exec(n, "range_end", p[5].as_str())?;
    let symbol = opt_text_field_exec(n, "symbol", p[6].as_str())?;
    let kind = kind_field_exec(n, p[7].as_str())?;
    let count = num_field_exec(n, "count", p[8].as_str())?;
    let first_seen_ms = num_field_exec(n, "first_seen_ms", p[9].as_str())?;
    let last_seen_ms = num_field_exec(n, "last_seen_ms", p[10].as_str())?;
    Ok(
        PersistedDedupeEntry {
            key: DetectionDedupeKey { detector_id, vm_id, entity, range_start, range_end, symbol },
            kind,
            count,
            first_seen_ms,
            last_seen_ms,
        },
    )
}

fn incident_record(n: usize, p: &Vec<String>) -> (r: Result<PersistedIncidentEntry, DetectorError>)
    ensures
        match r {
            Ok(x) => incident_of(n as nat, views(p@)) == Ok::<IncidentEntryView, Seq<char>>(x@),
            Err(e) => incident_of(n as nat, views(p@)) matches Err(m) && malformed_with(e, m),
        },
{
    let ghost pv = views(p@);
    if p.len() != 9 {
        return Err(malformed_at(n, owned("incident record requires 8 fields")));
    }
    assert(forall|i: int| 0 <= i < 9 ==> pv[i] == #[trigger] p@[i]@);
    let incident_id = text_field_exec(n, "incident_id", p[1].as_str())?;
    let vm_id = text_field_exec(n, "vm_id", p[2].as_str())?;
    let status = if str_eq(p[3].as_str(), "open") {
        IncidentStatus::Open
    } else if str_eq(p[3].as_str(), "updated") {
        IncidentStatus::Updated
    } else {
        return Err(malformed_at(n, cat3("unsupported status '", p[3].as_str(), "'")));
    };
    let severity = match severity_from_str(p[4].as_str()) {
        Some(s) => s,
        None => {
            return Err(malformed_at(n, cat3("unsupported severity '", p[4].as_str(), "'")));
        },
    };
    let first_seen_ms = num_field_exec(n, "first_seen_ms", p[5].as_str())?;
    let last_seen_ms = num_field_exec(n, "last_seen_ms", p[6].as_str())?;
    let detection_count = num_field_exec(n, "detection_count", p[7].as_str())?;
    let kinds = kinds_field_exec(n, p[8].as_str())?;
    Ok(
        PersistedIncidentEntry {
            incident_id,
            vm_id,
            status,
            severity,
            first_seen_ms,
            last_seen_ms,
            detection_count,
            kinds,
        },
    )
}

proof fn lemma_numbered_prefix(ls: Seq<Seq<char>>, j: int)
    requires
        0 <= j <= ls.len(),
    ensures
        numbered(ls.take(j)).len() <= numbered(ls).len(),
        numbered(ls).take(numbered(ls.take(j)).len() as int) == numbered(ls.take(j)),
    decreases ls.len(),
{
    if j == ls.len() {
        assert(ls.take(j) =~= ls);
        assert(numbered(ls).take(numbered(ls).len() as int) =~= numbered(ls));
    } else {
        let p = ls.drop_last();
        assert(ls.take(j) =~= p.take(j));
        lemma_numbered_prefix(p, j);
        let a = numbered(p);
        let b = numbered(p.take(j));
        if trim(ls.last()).len() > 0 {
            assert(numbered(ls) == a.push((ls.len(), trim(ls.last()))));
            assert(a.push((ls.len(), trim(ls.last()))).take(b.len() as int) =~= a.take(b.len() as int));
        }
    }
}

proof fn lemma_records_prefix(a: Seq<(nat, Seq<char>)>, b: Seq<(nat, Seq<char>)>, k: int)
    requires
        0 <= k <= a.len(),
        k <= b.len(),
        a.take(k) == b.take(k),
    ensures
        records(a, k) == records(b, k),
    decreases k,
{
    if k > 1 {
        assert(a.take(k - 1) =~= a.take(k).take(k - 1));
        assert(b.take(k - 1) =~= b.take(k).take(k - 1));
        lemma_records_prefix(a, b, k - 1);
        assert(a[k - 1] == a.take(k)[k - 1]);
        assert(b[k - 1] == b.take(k)[k - 1]);
    }
}

proof fn lemma_records_err(nl: Seq<(nat, Seq<char>)>, k: int, m: int)
    requires
        1 <= k <= m,
        records(nl, k) is Err,
    ensures
        records(nl, m) == records(nl, k),
    decreases m - k,
{
    if k < m {
        lemma_records_err(nl, k, m - 1);
    }
}

proof fn lemma_numbered_step(ls: Seq<Seq<char>>, k: int)
    requires
        0 <= k < ls.len(),
    ensures
        numbered(ls.take(k + 1)) == (if trim(ls[k]).len() == 0 {
            numbered(ls.take(k))
        } else {
            numbered(ls.take(k)).push(((k + 1) as nat, trim(ls[k])))
        }),
        numbered(ls.take(k + 1)).len() <= numbered(ls).len(),
        numbered(ls).take(numbered(ls.take(k + 1)).len() as int) == numbered(ls.take(k + 1)),
{
    assert(ls.take(k + 1).drop_last() =~= ls.take(k));
    assert(ls.take(k + 1).last() == ls[k]);
    lemma_numbered_prefix(ls, k + 1);
}

proof fn lemma_records_push(before: Seq<(nat, Seq<char>)>, x: (nat, Seq<char>))
    requires
        before.len() >= 1,
    ensures
        records(before.push(x), before.len() as int + 1) == (match records(before, before.len() as int) {
            Err(e) => Err(e),
            Ok(st) => record_step(st, x.0, x.1),
        }),
{
    let after = before.push(x);
    assert(after.take(before.len() as int) =~= before.take(before.len() as int));
    lemma_records_prefix(after, before, before.len() as int);
    assert(after[before.len() as int] == x);
}

proof fn lemma_records_final(full: Seq<(nat, Seq<char>)>, after: Seq<(nat, Seq<char>)>)
    requires
        1 <= after.len() <= full.len(),
        full.take(after.len() as int) == after,
        records(after, after.len() as int) is Err,
    ensures
        records(full, full.len() as int) == records(after, after.len() as int),
{
    assert(after.take(after.len() as int) =~= after);
    lemma_records_prefix(full, after, after.len() as int);
    lemma_records_err(full, after.len() as int, full.len() as int);
}

/// Applies the record on line `n` to `state`.
fn apply_record(state: &mut DetectorState, n: usize, line: &str) -> (r: Result<(), DetectorError>)
    ensures
        match r {
            Ok(()) => record_step(old(state)@, n as nat, line@) == Ok::<DetectorStateView, Seq<char>>(final(state)@),
            Err(e) => record_step(old(state)@, n as nat, line@) matches Err(m) && malformed_with(e, m),
        },
{
    let parts = split_on(line, '|');
    proof {
        crate::text::lemma_split_char_nonempty(line@, '|');
    }
    let ghost pv = views(parts@);
    assert(pv[0] == parts@[0]@);
    if str_eq(parts[0].as_str(), "dedupe") {
        let e = dedupe_record(n, &parts)?;
        let ghost old_st = state@;
        state.dedupe.push(e);
        assert(state@.dedupe =~= old_st.dedupe.push(e@));
        assert(state@.incidents =~= old_st.incidents);
        Ok(())
    } else if str_eq(parts[0].as_str(), "incident") {
        let e = incident_record(n, &parts)?;
        let ghost old_st = state@;
        state.incidents.push(e);
        assert(state@.incidents =~= old_st.incidents.push(e@));
        assert(state@.dedupe =~= old_st.dedupe);
        Ok(())
    } else {
        Err(malformed_at(n, cat3("unknown detector state record '", parts[0].as_str(), "'")))
    }
}

/// Parses the text of a detector state: a version line, then one record
/// per non-blank line.
pub fn parse_detector_state(text: &str) -> (r: Result<DetectorState, DetectorError>)
    ensures
        match r {
            Ok(st) => parse_state(text@) == Ok::<DetectorStateView, Seq<char>>(st@),
            Err(e) => parse_state(text@) matches Err(m) && malformed_with(e, m),
        },
{
    let all = lines(text);
    let ghost ls = lines_of(text@);
    let ghost full = numbered(ls);
    let mut state = DetectorState::empty();
    let mut seen = false;
    let mut k: usize = 0;
    proof {
        assert(ls.take(0) =~= Seq::<Seq<char>>::empty());
        assert(state@.dedupe =~= Seq::<DedupeEntryView>::empty());
        assert(state@.incidents =~= Seq::<IncidentEntryView>::empty());
    }
    while k < all.len()
        invariant
            views(all@) == ls,
            ls == lines_of(text@),
            full == numbered(ls),
            k <= ls.len(),
            seen == (numbered(ls.take(k as int)).len() > 0),
            seen ==> numbered(ls.take(k as int))[0].1 == DETECTOR_STATE_VERSION@,
            seen ==> records(numbered(ls.take(k as int)), numbered(ls.take(k as int)).len() as int) == Ok::<
                DetectorStateView,
                Seq<char>,
            >(state@),
            !seen ==> state@ == (DetectorStateView { dedupe: Seq::empty(), incidents: Seq::empty() }),
        decreases ls.len() - k,
    {
        let ghost before = numbered(ls.take(k as int));
        let line = trim_owned(all[k].as_str());
        proof {
            assert(ls[k as int] == all@[k as int]@);
            lemma_numbered_step(ls, k as int);
        }
        let ghost after = numbered(ls.take(k as int + 1));
        if crate::text::str_is_empty(line.as_str()) {
            assert(after == before);
        } else if !seen {
            if !str_eq(line.as_str(), DETECTOR_STATE_VERSION) {
                proof {
                    assert(full[0] == after[0]);
                }
                let mut d = owned("expected ");
                push_str(&mut d, DETECTOR_STATE_VERSION);
                return Err(malformed_at(k + 1, d));
            }
            seen = true;
        } else {
            proof {
                lemma_records_push(before, ((k + 1) as nat, line@));
            }
            match apply_record(&mut state, k + 1, line.as_str()) {
                Ok(()) => {},
                Err(e) => {
                    proof {
                        lemma_records_final(full, after);
                        assert(full[0] == after[0]);
                    }
                    return Err(e);
                },
            }
        }
        k = k + 1;
    }
    proof {
        assert(ls.take(ls.len() as int) =~= ls);
    }
    if !seen {
        return Err(DetectorError::MalformedInput { detail: owned("missing detector state header") });
    }
    Ok(state)
}


/// What reading the state file gave.
#[derive(Debug, Clone, PartialEq, Eq)]
pub enum StateFileRead {
    /// The file's text.
    Text(String),
    /// There is no such file.
    Missing,
    /// The file could not be read; the reason as text.
    Failed(String),
}

pub open spec fn empty_state_view() -> DetectorStateView {
    DetectorStateView { dedupe: Seq::empty(), incidents: Seq::empty() }
}

/// The state to start from, given what reading its file gave: the parsed
/// state, or an empty state with a medium-severity sensor event where the
/// file was unreadable or malformed (none where it is missing).
pub fn load_detector_state(read: StateFileRead) -> (r: DetectorStateLoad)
    ensures
        match read {
            StateFileRead::Text(t) => match parse_state(t@) {
                Ok(st) => r.state@ == st && r.sensor_events@.len() == 0,
                Err(m) => r.state@ == empty_state_view() && r.sensor_events@.len() == 1
                    && r.sensor_events@[0].severity == Severity::Medium
                    && r.sensor_events@[0].message@ == "detector state was ignored: detector input is malformed: "@ + m,
            },
            StateFileRead::Missing => r.state@ == empty_state_view() && r.sensor_events@.len() == 0,
            StateFileRead::Failed(e) => r.state@ == empty_state_view() && r.sensor_events@.len() == 1
                && r.sensor_events@[0].severity == Severity::Medium
                && r.sensor_events@[0].message@ == "detector state could not be read: "@ + e@,
        },
{
    match read {
        StateFileRead::Text(t) => match parse_detector_state(t.as_str()) {
            Ok(state) => DetectorStateLoad { state, sensor_events: Vec::new() },
            Err(err) => {
                let mut message = owned("detector state was ignored: ");
                push_str(&mut message, err.message().as_str());
                proof {
                    reveal_strlit("detector state was ignored: ");
                    reveal_strlit("detector input is malformed: ");
                    reveal_strlit("detector state was ignored: detector input is malformed: ");
                    assert("detector state was ignored: "@ + "detector input is malformed: "@
                        =~= "detector state was ignored: detector input is malformed: "@);
                }
                let state = DetectorState::empty();
                assert(state@.dedupe =~= Seq::<DedupeEntryView>::empty());
                assert(state@.incidents =~= Seq::<IncidentEntryView>::empty());
                DetectorStateLoad {
                    state,
                    sensor_events: vec![DetectorStateEvent { severity: Severity::Medium, message }],
                }
            },
        },
        StateFileRead::Missing => {
            let state = DetectorState::empty();
            assert(state@.dedupe =~= Seq::<DedupeEntryView>::empty());
            assert(state@.incidents =~= Seq::<IncidentEntryView>::empty());
            DetectorStateLoad { state, sensor_events: Vec::new() }
        },
        StateFileRead::Failed(e) => {
            let mut message = owned("detector state could not be read: ");
            push_str(&mut message, e.as_str());
            let state = DetectorState::empty();
            assert(state@.dedupe =~= Seq::<DedupeEntryView>::empty());
            assert(state@.incidents =~= Seq::<IncidentEntryView>::empty());
            DetectorStateLoad {
                state,
                sensor_events: vec![DetectorStateEvent { severity: Severity::Medium, message }],
            }
        },
    }
}

} // verus!
