//! What a rendered detector state reads back as.
use vstd::prelude::*;
use crate::detectors::{detectionkind_of_label, DetectionKind};
use crate::detectors::state::{
    dedupe_fields, dedupe_line, numbered, parse_state, records, render_state,
    DETECTOR_STATE_VERSION, dedupe_of, incident_fields, incident_line, incident_of, join_with,
    kind_field, kind_list, kinds_field_of, kinds_text, lines_text, num_field, opt_num,
    opt_num_field_of, opt_text, opt_text_field, record_line, record_step, sanitize,
    status_of_label, text_field, DedupeEntryView, DetectorStateView, IncidentEntryView,
};
use crate::event::{severity_parse, Severity};
use crate::incidents::IncidentStatus;
use crate::text::{
    all_digits, ascii_lower, dec, digits_value, is_ws, lemma_dec_digits, lines_of, parse_unsigned,
    split_char, strip_cr, trim, trim_end, trim_start,
};

verus! {

/// `s` holds none of the characters that the state format reserves.
pub open spec fn separator_free(s: Seq<char>) -> bool {
    &&& !s.contains('|')
    &&& !s.contains('\n')
    &&& !s.contains('\r')
}

proof fn lemma_sanitize_identity(s: Seq<char>)
    requires
        separator_free(s),
    ensures
        sanitize(s) == s,
{
    assert forall|i: int| 0 <= i < s.len() implies #[trigger] sanitize(s)[i] == s[i] by {
        if s[i] == '|' {
            assert(s.contains('|'));
        }
        if s[i] == '\n' {
            assert(s.contains('\n'));
        }
        if s[i] == '\r' {
            assert(s.contains('\r'));
        }
    }
    assert(sanitize(s) =~= s);
}

proof fn lemma_sanitize_clean(s: Seq<char>)
    ensures
        separator_free(sanitize(s)),
        sanitize(s).len() == s.len(),
{
    let t = sanitize(s);
    if t.contains('|') {
        let i = choose|i: int| 0 <= i < t.len() && t[i] == '|';
        assert(t[i] == (if s[i] == '|' || s[i] == '\n' || s[i] == '\r' { '_' } else { s[i] }));
    }
    if t.contains('\n') {
        let i = choose|i: int| 0 <= i < t.len() && t[i] == '\n';
        assert(t[i] == (if s[i] == '|' || s[i] == '\n' || s[i] == '\r' { '_' } else { s[i] }));
    }
    if t.contains('\r') {
        let i = choose|i: int| 0 <= i < t.len() && t[i] == '\r';
        assert(t[i] == (if s[i] == '|' || s[i] == '\n' || s[i] == '\r' { '_' } else { s[i] }));
    }
}

proof fn lemma_split_push_sep(s: Seq<char>, c: char)
    ensures
        split_char(s.push(c), c) == split_char(s, c).push(Seq::<char>::empty()),
{
    assert(s.push(c).drop_last() =~= s);
}

proof fn lemma_split_append(s: Seq<char>, t: Seq<char>, c: char)
    requires
        !t.contains(c),
    ensures
        split_char(s + t, c) == split_char(s, c).update(
            split_char(s, c).len() - 1,
            split_char(s, c).last() + t,
        ),
        split_char(s + t, c).len() == split_char(s, c).len(),
    decreases t.len(),
{
    crate::text::lemma_split_char_nonempty(s, c);
    let p = split_char(s, c);
    if t.len() == 0 {
        assert(s + t =~= s);
        assert(p.last() + t =~= p.last());
        assert(p.update(p.len() - 1, p.last() + t) =~= p);
    } else {
        let t0 = t.drop_last();
        assert(!t0.contains(c)) by {
            if t0.contains(c) {
                let i = choose|i: int| 0 <= i < t0.len() && t0[i] == c;
                assert(t[i] == c);
            }
        }
        lemma_split_append(s, t0, c);
        assert((s + t).drop_last() =~= s + t0);
        assert((s + t).last() == t.last());
        assert(t.last() != c) by {
            assert(t[t.len() - 1] == t.last());
        }
        let q = split_char(s + t0, c);
        assert(q.last() == p.last() + t0);
        assert(q.last().push(t.last()) =~= p.last() + t);
        assert(q.update(q.len() - 1, q.last().push(t.last())) =~= p.update(p.len() - 1, p.last() + t));
    }
}

/// Splitting the join of separator-free pieces gives the pieces back.
pub proof fn lemma_split_join(fs: Seq<Seq<char>>, c: char)
    requires
        fs.len() >= 1,
        forall|i: int| 0 <= i < fs.len() ==> !(#[trigger] fs[i]).contains(c),
    ensures
        split_char(join_with(fs, c), c) == fs,
    decreases fs.len(),
{
    if fs.len() == 1 {
        assert(join_with(fs, c) == fs[0]);
        lemma_split_append(Seq::<char>::empty(), fs[0], c);
        assert(Seq::<char>::empty() + fs[0] =~= fs[0]);
        assert(split_char(Seq::<char>::empty(), c) =~= seq![Seq::<char>::empty()]);
        assert(Seq::<char>::empty() + fs[0] =~= fs[0]);
        assert(split_char(fs[0], c) =~= fs);
    } else {
        let init = fs.drop_last();
        assert forall|i: int| 0 <= i < init.len() implies !(#[trigger] init[i]).contains(c) by {
            assert(init[i] == fs[i]);
        }
        lemma_split_join(init, c);
        let j = join_with(init, c);
        assert(!fs.last().contains(c)) by {
            assert(fs[fs.len() - 1] == fs.last());
        }
        lemma_split_append(j.push(c), fs.last(), c);
        lemma_split_push_sep(j, c);
        let p = split_char(j.push(c), c);
        assert(p == init.push(Seq::<char>::empty()));
        assert(Seq::<char>::empty() + fs.last() =~= fs.last());
        assert(p.update(p.len() - 1, p.last() + fs.last()) =~= fs);
    }
}

/// A join of pieces without `d`, by a separator other than `d`, holds no `d`.
pub proof fn lemma_join_free(fs: Seq<Seq<char>>, c: char, d: char)
    requires
        c != d,
        forall|i: int| 0 <= i < fs.len() ==> !(#[trigger] fs[i]).contains(d),
    ensures
        !join_with(fs, c).contains(d),
    decreases fs.len(),
{
    if fs.len() == 1 {
        assert(fs[0] == join_with(fs, c));
    } else if fs.len() > 1 {
        let init = fs.drop_last();
        assert forall|i: int| 0 <= i < init.len() implies !(#[trigger] init[i]).contains(d) by {
            assert(init[i] == fs[i]);
        }
        lemma_join_free(init, c, d);
        let j = join_with(init, c);
        let l = fs.last();
        assert(!l.contains(d)) by {
            assert(fs[fs.len() - 1] == l);
        }
        let r = j.push(c) + l;
        if r.contains(d) {
            let i = choose|i: int| 0 <= i < r.len() && r[i] == d;
            if i < j.len() {
                assert(r[i] == j[i]);
                assert(j.contains(d));
            } else if i > j.len() {
                assert(r[i] == l[i - j.len() - 1]);
                assert(l.contains(d));
            }
        }
    }
}

/// The first and last characters of a join.
pub proof fn lemma_join_ends(fs: Seq<Seq<char>>, c: char)
    requires
        fs.len() >= 1,
        fs[0].len() > 0,
        fs.last().len() > 0,
    ensures
        join_with(fs, c).len() > 0,
        join_with(fs, c)[0] == fs[0][0],
        join_with(fs, c).last() == fs.last().last(),
    decreases fs.len(),
{
    if fs.len() > 1 {
        let init = fs.drop_last();
        let j = join_with(init, c);
        let l = fs.last();
        let r = j.push(c) + l;
        assert(r[r.len() - 1] == l[l.len() - 1]);
        if init.len() >= 1 && init.last().len() > 0 {
            lemma_join_ends(init, c);
        } else {
            lemma_join_first(init, c);
        }
        assert(r[0] == j.push(c)[0]);
    }
}

proof fn lemma_join_first(fs: Seq<Seq<char>>, c: char)
    requires
        fs.len() >= 1,
        fs[0].len() > 0,
    ensures
        join_with(fs, c).len() > 0,
        join_with(fs, c)[0] == fs[0][0],
    decreases fs.len(),
{
    if fs.len() > 1 {
        let init = fs.drop_last();
        assert(init[0] == fs[0]);
        lemma_join_first(init, c);
        let j = join_with(init, c);
        let r = j.push(c) + fs.last();
        assert(r[0] == j.push(c)[0]);
    }
}

/// A text with non-blank ends trims to itself.
pub proof fn lemma_trim_identity(s: Seq<char>)
    requires
        s.len() > 0,
        !is_ws(s[0]),
        !is_ws(s.last()),
    ensures
        trim(s) == s,
{
    assert(trim_start(s) == s);
    assert(trim_end(s) == s);
}

proof fn lemma_split_lines_text(ls: Seq<Seq<char>>)
    requires
        forall|i: int| 0 <= i < ls.len() ==> !(#[trigger] ls[i]).contains('\n'),
    ensures
        split_char(lines_text(ls), '\n') == ls.push(Seq::<char>::empty()),
    decreases ls.len(),
{
    if ls.len() == 0 {
        assert(split_char(Seq::<char>::empty(), '\n') =~= seq![Seq::<char>::empty()]);
        assert(ls.push(Seq::<char>::empty()) =~= seq![Seq::<char>::empty()]);
    } else {
        let init = ls.drop_last();
        let l = ls.last();
        assert forall|i: int| 0 <= i < init.len() implies !(#[trigger] init[i]).contains('\n') by {
            assert(init[i] == ls[i]);
        }
        lemma_split_lines_text(init);
        let x = lines_text(init);
        assert(lines_text(ls) == x + l.push('\n'));
        assert(x + l.push('\n') =~= (x + l).push('\n'));
        assert(!l.contains('\n')) by {
            assert(ls[ls.len() - 1] == l);
        }
        lemma_split_push_sep(x + l, '\n');
        lemma_split_append(x, l, '\n');
        let p = split_char(x, '\n');
        assert(Seq::<char>::empty() + l =~= l);
        assert(p.update(p.len() - 1, p.last() + l) =~= ls);
    }
}

/// The lines of a text made of separator-free lines are those lines.
pub proof fn lemma_lines_of_lines_text(ls: Seq<Seq<char>>)
    requires
        forall|i: int| 0 <= i < ls.len() ==> !(#[trigger] ls[i]).contains('\n'),
        forall|i: int| 0 <= i < ls.len() ==> !(#[trigger] ls[i]).contains('\r'),
    ensures
        lines_of(lines_text(ls)) == ls,
{
    lemma_split_lines_text(ls);
    let p = ls.push(Seq::<char>::empty());
    assert(p.drop_last() =~= ls);
    assert forall|i: int| 0 <= i < ls.len() implies strip_cr(#[trigger] ls[i]) == ls[i] by {
        let l = ls[i];
        if l.len() > 0 && l.last() == '\r' {
            assert(l[l.len() - 1] == '\r');
            assert(l.contains('\r'));
        }
    }
    assert(ls.map_values(|l: Seq<char>| strip_cr(l)) =~= ls);
}

/// A text field that reads back as itself: not empty, not `-`, and free of
/// the reserved characters.
pub open spec fn storable_text(s: Seq<char>) -> bool {
    &&& s.len() > 0
    &&& s != "-"@
    &&& separator_free(s)
}

pub open spec fn storable_opt(o: Option<Seq<char>>) -> bool {
    match o {
        Some(s) => storable_text(s),
        None => true,
    }
}

pub open spec fn storable_dedupe(e: DedupeEntryView) -> bool {
    &&& storable_text(e.key.detector_id)
    &&& storable_opt(e.key.vm_id)
    &&& storable_opt(e.key.entity)
    &&& storable_opt(e.key.symbol)
}

pub open spec fn storable_incident(e: IncidentEntryView) -> bool {
    &&& storable_text(e.incident_id)
    &&& storable_text(e.vm_id)
    &&& e.kinds.len() > 0
}

/// A state whose every entry reads back as itself.
pub open spec fn storable_state(st: DetectorStateView) -> bool {
    &&& forall|i: int| 0 <= i < st.dedupe.len() ==> storable_dedupe(#[trigger] st.dedupe[i])
    &&& forall|i: int| 0 <= i < st.incidents.len() ==> storable_incident(#[trigger] st.incidents[i])
}

proof fn lemma_dec_facts(n: nat)
    ensures
        dec(n).len() > 0,
        separator_free(dec(n)),
        !dec(n).contains(','),
        dec(n) != "-"@,
        !is_ws(dec(n)[0]),
        !is_ws(dec(n).last()),
        parse_unsigned(dec(n), u64::MAX as nat) == (if n <= u64::MAX { Some(n) } else { None::<nat> }),
{
    lemma_dec_digits(n);
    let d = dec(n);
    assert forall|c: char| !crate::text::is_digit(c) implies !d.contains(c) by {
        if d.contains(c) {
            let i = choose|i: int| 0 <= i < d.len() && d[i] == c;
            assert(crate::text::is_digit(d[i]));
        }
    }
    assert(!crate::text::is_digit('|') && !crate::text::is_digit('\n') && !crate::text::is_digit('\r'));
    assert(!crate::text::is_digit(','));
    assert(crate::text::is_digit(d[0]));
    assert(crate::text::is_digit(d[d.len() - 1]));
    reveal_strlit("-");
    assert(d[0] != '-');
}

proof fn lemma_kind_label(k: DetectionKind)
    ensures
        detectionkind_of_label(k.name()) == Some(k),
        k.name().len() > 0,
        separator_free(k.name()),
        !k.name().contains(','),
        !is_ws(k.name()[0]),
        !is_ws(k.name().last()),
{
    reveal_strlit("kernel_text_tamper");
    reveal_strlit("syscall_hook");
    reveal_strlit("hidden_process");
    reveal_strlit("hidden_module");
    reveal_strlit("executable_anonymous_memory");
    reveal_strlit("rwx_mapping");
    reveal_strlit("wx_correlation");
    reveal_strlit("pmu_anomaly");
    let n = k.name();
    assert forall|c: char| c == '|' || c == '\n' || c == '\r' || c == ',' implies !n.contains(c) by {
        if n.contains(c) {
            let i = choose|i: int| 0 <= i < n.len() && n[i] == c;
            assert('a' <= n[i] <= 'z' || n[i] == '_');
        }
    }
    assert('a' <= n[0] <= 'z');
    assert('a' <= n[n.len() - 1] <= 'z');
}

proof fn lemma_severity_label(s: Severity)
    ensures
        severity_parse(s.name()) == Some(s),
        separator_free(s.name()),
{
    reveal_strlit("info");
    reveal_strlit("low");
    reveal_strlit("medium");
    reveal_strlit("high");
    reveal_strlit("critical");
    let n = s.name();
    assert(ascii_lower(n) =~= n);
    match s {
        Severity::Info => {},
        Severity::Low => {
            assert(n != "info"@);
        },
        Severity::Medium => {
            assert(n != "info"@ && n != "low"@);
        },
        Severity::High => {
            assert(n[0] != "info"@[0]);
            assert(n != "info"@ && n != "low"@ && n != "medium"@);
        },
        Severity::Critical => {
            assert(n != "info"@ && n != "low"@ && n != "medium"@ && n != "high"@);
        },
    }
    assert forall|c: char| c == '|' || c == '\n' || c == '\r' implies !n.contains(c) by {
        if n.contains(c) {
            let i = choose|i: int| 0 <= i < n.len() && n[i] == c;
            assert('a' <= n[i] <= 'z');
        }
    }
}

proof fn lemma_status_label(s: IncidentStatus)
    ensures
        status_of_label(s.name()) == Some(s),
        separator_free(s.name()),
{
    reveal_strlit("open");
    reveal_strlit("updated");
    let n = s.name();
    if s is Updated {
        assert(n.len() != "open"@.len());
    }
    assert forall|c: char| c == '|' || c == '\n' || c == '\r' implies !n.contains(c) by {
        if n.contains(c) {
            let i = choose|i: int| 0 <= i < n.len() && n[i] == c;
            assert('a' <= n[i] <= 'z');
        }
    }
}

proof fn lemma_opt_text(o: Option<Seq<char>>)
    requires
        storable_opt(o),
    ensures
        separator_free(opt_text(o)),
        forall|n: nat, name: Seq<char>| #[trigger] opt_text_field(n, name, opt_text(o)) == Ok::<Option<Seq<char>>, Seq<char>>(o),
{
    reveal_strlit("-");
    let t = opt_text(o);
    if o is None {
        assert forall|c: char| c == '|' || c == '\n' || c == '\r' implies !t.contains(c) by {
            if t.contains(c) {
                let i = choose|i: int| 0 <= i < t.len() && t[i] == c;
                assert(t[i] == '-');
            }
        }
    }
}

proof fn lemma_opt_num(o: Option<u64>)
    ensures
        separator_free(opt_num(o)),
        forall|n: nat, name: Seq<char>| #[trigger] opt_num_field_of(n, name, opt_num(o)) == Ok::<Option<u64>, Seq<char>>(o),
{
    reveal_strlit("-");
    let t = opt_num(o);
    match o {
        Some(v) => {
            lemma_dec_facts(v as nat);
        },
        None => {
            assert forall|c: char| c == '|' || c == '\n' || c == '\r' implies !t.contains(c) by {
                if t.contains(c) {
                    let i = choose|i: int| 0 <= i < t.len() && t[i] == c;
                    assert(t[i] == '-');
                }
            }
        },
    }
}

proof fn lemma_kind_list(n: nat, ks: Seq<DetectionKind>, k: int)
    requires
        0 <= k <= ks.len(),
    ensures
        kind_list(n, ks.map_values(|x: DetectionKind| x.name()), k) == Ok::<Seq<DetectionKind>, Seq<char>>(ks.take(k)),
    decreases k,
{
    if k > 0 {
        lemma_kind_list(n, ks, k - 1);
        lemma_kind_label(ks[k - 1]);
        assert(ks.take(k) =~= ks.take(k - 1).push(ks[k - 1]));
    } else {
        assert(ks.take(0) =~= Seq::<DetectionKind>::empty());
    }
}

proof fn lemma_kinds_text(n: nat, ks: Seq<DetectionKind>)
    requires
        ks.len() > 0,
    ensures
        separator_free(kinds_text(ks)),
        kinds_text(ks).len() > 0,
        !is_ws(kinds_text(ks).last()),
        kinds_field_of(n, kinds_text(ks)) == Ok::<Seq<DetectionKind>, Seq<char>>(ks),
{
    let names = ks.map_values(|x: DetectionKind| x.name());
    assert forall|i: int| 0 <= i < names.len() implies !(#[trigger] names[i]).contains(',')
        && separator_free(names[i]) && names[i].len() > 0 && !is_ws(names[i][0]) && !is_ws(names[i].last()) by {
        lemma_kind_label(ks[i]);
    }
    lemma_join_free(names, ',', '|');
    lemma_join_free(names, ',', '\n');
    lemma_join_free(names, ',', '\r');
    assert(names.last() == names[names.len() - 1]);
    lemma_join_ends(names, ',');
    let t = kinds_text(ks);
    lemma_trim_identity(t);
    lemma_split_join(names, ',');
    lemma_kind_list(n, ks, ks.len() as int);
    assert(ks.take(ks.len() as int) =~= ks);
}

/// The pieces of a record line are its tag and its fields.
proof fn lemma_record_parts(tag: Seq<char>, fields: Seq<Seq<char>>)
    requires
        separator_free(tag),
        tag.len() > 0,
        !is_ws(tag[0]),
        fields.len() > 0,
        forall|i: int| 0 <= i < fields.len() ==> separator_free(#[trigger] fields[i]),
        fields.last().len() > 0,
        !is_ws(fields.last().last()),
    ensures
        split_char(record_line(tag, fields), '|') == seq![tag] + fields,
        separator_free(record_line(tag, fields)) || true,
        !record_line(tag, fields).contains('\n'),
        !record_line(tag, fields).contains('\r'),
        trim(record_line(tag, fields)) == record_line(tag, fields),
        record_line(tag, fields).len() > 0,
{
    let sf = fields.map_values(|f: Seq<char>| sanitize(f));
    assert forall|i: int| 0 <= i < fields.len() implies #[trigger] sf[i] == fields[i] by {
        lemma_sanitize_identity(fields[i]);
    }
    assert(sf =~= fields);
    let all = seq![tag] + fields;
    assert forall|i: int| 0 <= i < all.len() implies separator_free(#[trigger] all[i]) by {
        if i > 0 {
            assert(all[i] == fields[i - 1]);
        }
    }
    lemma_split_join(all, '|');
    lemma_join_free(all, '|', '\n');
    lemma_join_free(all, '|', '\r');
    assert(all.last() == fields.last());
    lemma_join_ends(all, '|');
    lemma_trim_identity(join_with(all, '|'));
}

/// A deduplication entry's line reads back as the entry.
pub proof fn lemma_dedupe_line(st: DetectorStateView, n: nat, e: DedupeEntryView)
    requires
        storable_dedupe(e),
    ensures
        record_step(st, n, dedupe_line(e)) == Ok::<DetectorStateView, Seq<char>>(
            DetectorStateView { dedupe: st.dedupe.push(e), incidents: st.incidents },
        ),
        !dedupe_line(e).contains('\n'),
        !dedupe_line(e).contains('\r'),
        trim(dedupe_line(e)) == dedupe_line(e),
        dedupe_line(e).len() > 0,
{
    reveal_strlit("dedupe");
    reveal_strlit("-");
    let f = dedupe_fields(e);
    lemma_opt_text(e.key.vm_id);
    lemma_opt_text(e.key.entity);
    lemma_opt_text(e.key.symbol);
    lemma_opt_num(e.key.range_start);
    lemma_opt_num(e.key.range_end);
    lemma_kind_label(e.kind);
    lemma_dec_facts(e.count as nat);
    lemma_dec_facts(e.first_seen_ms as nat);
    lemma_dec_facts(e.last_seen_ms as nat);
    assert forall|i: int| 0 <= i < f.len() implies separator_free(#[trigger] f[i]) by {}
    assert(f.last() == dec(e.last_seen_ms as nat));
    assert forall|c: char| c == '|' || c == '\n' || c == '\r' implies !"dedupe"@.contains(c) by {
        if "dedupe"@.contains(c) {
            let i = choose|i: int| 0 <= i < "dedupe"@.len() && "dedupe"@[i] == c;
        }
    }
    lemma_record_parts("dedupe"@, f);
    let p = seq!["dedupe"@] + f;
    assert(p[0] == "dedupe"@);
    assert(p.len() == 11);
    assert(p[1] == e.key.detector_id);
    assert(p[7] == e.kind.name());
    assert(p[8] == dec(e.count as nat));
    assert(p[9] == dec(e.first_seen_ms as nat));
    assert(p[10] == dec(e.last_seen_ms as nat));
    assert(text_field(n, "detector_id"@, p[1]) == Ok::<Seq<char>, Seq<char>>(e.key.detector_id));
    assert(opt_text_field(n, "vm_id"@, p[2]) == Ok::<Option<Seq<char>>, Seq<char>>(e.key.vm_id));
    assert(opt_text_field(n, "entity"@, p[3]) == Ok::<Option<Seq<char>>, Seq<char>>(e.key.entity));
    assert(opt_num_field_of(n, "range_start"@, p[4]) == Ok::<Option<u64>, Seq<char>>(e.key.range_start));
    assert(opt_num_field_of(n, "range_end"@, p[5]) == Ok::<Option<u64>, Seq<char>>(e.key.range_end));
    assert(opt_text_field(n, "symbol"@, p[6]) == Ok::<Option<Seq<char>>, Seq<char>>(e.key.symbol));
    assert(kind_field(n, p[7]) == Ok::<DetectionKind, Seq<char>>(e.kind));
    assert(num_field(n, "count"@, p[8]) == Ok::<u64, Seq<char>>(e.count));
    assert(num_field(n, "first_seen_ms"@, p[9]) == Ok::<u64, Seq<char>>(e.first_seen_ms));
    assert(num_field(n, "last_seen_ms"@, p[10]) == Ok::<u64, Seq<char>>(e.last_seen_ms));
    assert(dedupe_of(n, p) == Ok::<DedupeEntryView, Seq<char>>(e));
}

/// An incident entry's line reads back as the entry.
pub proof fn lemma_incident_line(st: DetectorStateView, n: nat, e: IncidentEntryView)
    requires
        storable_incident(e),
    ensures
        record_step(st, n, incident_line(e)) == Ok::<DetectorStateView, Seq<char>>(
            DetectorStateView { dedupe: st.dedupe, incidents: st.incidents.push(e) },
        ),
        !incident_line(e).contains('\n'),
        !incident_line(e).contains('\r'),
        trim(incident_line(e)) == incident_line(e),
        incident_line(e).len() > 0,
{
    reveal_strlit("incident");
    reveal_strlit("dedupe");
    let f = incident_fields(e);
    lemma_status_label(e.status);
    lemma_severity_label(e.severity);
    lemma_dec_facts(e.first_seen_ms as nat);
    lemma_dec_facts(e.last_seen_ms as nat);
    lemma_dec_facts(e.detection_count as nat);
    lemma_kinds_text(n, e.kinds);
    assert forall|i: int| 0 <= i < f.len() implies separator_free(#[trigger] f[i]) by {}
    assert(f.last() == kinds_text(e.kinds));
    assert forall|c: char| c == '|' || c == '\n' || c == '\r' implies !"incident"@.contains(c) by {
        if "incident"@.contains(c) {
            let i = choose|i: int| 0 <= i < "incident"@.len() && "incident"@[i] == c;
        }
    }
    lemma_record_parts("incident"@, f);
    let p = seq!["incident"@] + f;
    assert(p[0] == "incident"@);
    assert(p[0] != "dedupe"@);
    assert(p.len() == 9);
    assert(p[1] == e.incident_id);
    assert(p[2] == e.vm_id);
    assert(p[3] == e.status.name());
    assert(p[4] == e.severity.name());
    assert(p[5] == dec(e.first_seen_ms as nat));
    assert(p[6] == dec(e.last_seen_ms as nat));
    assert(p[7] == dec(e.detection_count as nat));
    assert(p[8] == kinds_text(e.kinds));
    assert(num_field(n, "first_seen_ms"@, p[5]) == Ok::<u64, Seq<char>>(e.first_seen_ms));
    assert(num_field(n, "last_seen_ms"@, p[6]) == Ok::<u64, Seq<char>>(e.last_seen_ms));
    assert(num_field(n, "detection_count"@, p[7]) == Ok::<u64, Seq<char>>(e.detection_count));
    assert(incident_of(n, p) == Ok::<IncidentEntryView, Seq<char>>(e));
}

proof fn lemma_numbered_clean(ls: Seq<Seq<char>>)
    requires
        forall|i: int| 0 <= i < ls.len() ==> (#[trigger] ls[i]).len() > 0 && trim(ls[i]) == ls[i],
    ensures
        numbered(ls).len() == ls.len(),
        forall|i: int| 0 <= i < ls.len() ==> #[trigger] numbered(ls)[i] == ((i + 1) as nat, ls[i]),
    decreases ls.len(),
{
    if ls.len() > 0 {
        let init = ls.drop_last();
        assert forall|i: int| 0 <= i < init.len() implies (#[trigger] init[i]).len() > 0 && trim(init[i]) == init[i] by {
            assert(init[i] == ls[i]);
        }
        lemma_numbered_clean(init);
        assert(ls.last() == ls[ls.len() - 1]);
        assert(numbered(ls) == numbered(init).push((ls.len(), ls.last())));
        assert forall|i: int| 0 <= i < ls.len() implies #[trigger] numbered(ls)[i] == ((i + 1) as nat, ls[i]) by {
            if i < init.len() {
                assert(numbered(init)[i] == ((i + 1) as nat, init[i]));
            }
        }
    }
}

/// The state after the first `m` entries: deduplication entries first,
/// then incidents.
pub open spec fn state_prefix(st: DetectorStateView, m: int) -> DetectorStateView {
    if m <= st.dedupe.len() {
        DetectorStateView { dedupe: st.dedupe.take(m), incidents: Seq::empty() }
    } else {
        DetectorStateView { dedupe: st.dedupe, incidents: st.incidents.take(m - st.dedupe.len()) }
    }
}

proof fn lemma_records_rendered(st: DetectorStateView, nl: Seq<(nat, Seq<char>)>, k: int)
    requires
        storable_state(st),
        nl.len() == 1 + st.dedupe.len() + st.incidents.len(),
        forall|i: int| 0 <= i < st.dedupe.len() ==> (#[trigger] nl[1 + i]).1 == dedupe_line(st.dedupe[i]),
        forall|j: int| 0 <= j < st.incidents.len() ==> (#[trigger] nl[1 + st.dedupe.len() + j]).1
            == incident_line(st.incidents[j]),
        1 <= k <= nl.len(),
    ensures
        records(nl, k) == Ok::<DetectorStateView, Seq<char>>(state_prefix(st, k - 1)),
    decreases k,
{
    let nd = st.dedupe.len() as int;
    if k == 1 {
        assert(st.dedupe.take(0) =~= Seq::<DedupeEntryView>::empty());
    } else {
        lemma_records_rendered(st, nl, k - 1);
        let m = k - 2;
        let prev = state_prefix(st, m);
        if m < nd {
            let e = st.dedupe[m];
            assert(nl[1 + m].1 == dedupe_line(e));
            lemma_dedupe_line(prev, nl[k - 1].0, e);
            assert(st.dedupe.take(m + 1) =~= st.dedupe.take(m).push(e));
        } else {
            let j = m - nd;
            let e = st.incidents[j];
            assert(nl[1 + nd + j].1 == incident_line(e));
            lemma_incident_line(prev, nl[k - 1].0, e);
            assert(st.dedupe.take(nd) =~= st.dedupe);
            assert(st.incidents.take(0) =~= Seq::<IncidentEntryView>::empty());
            assert(st.incidents.take(j + 1) =~= st.incidents.take(j).push(e));
        }
    }
}

/// A state whose text fields are storable reads back, from its rendered
/// text, as itself.
pub proof fn lemma_state_round_trip(st: DetectorStateView)
    requires
        storable_state(st),
    ensures
        parse_state(render_state(st)) == Ok::<DetectorStateView, Seq<char>>(st),
{
    let v = DETECTOR_STATE_VERSION@;
    reveal_strlit("aegishv-detector-state-v1");
    assert(v == "aegishv-detector-state-v1"@);
    let dl = st.dedupe.map_values(|e: DedupeEntryView| dedupe_line(e));
    let il = st.incidents.map_values(|e: IncidentEntryView| incident_line(e));
    let ls = seq![v] + dl + il;
    let nd = st.dedupe.len() as int;
    assert(!v.contains('\n') && !v.contains('\r')) by {
        if v.contains('\n') {
            let i = choose|i: int| 0 <= i < v.len() && v[i] == '\n';
        }
        if v.contains('\r') {
            let i = choose|i: int| 0 <= i < v.len() && v[i] == '\r';
        }
    }
    lemma_trim_identity(v);
    assert forall|i: int| 0 <= i < ls.len() implies !(#[trigger] ls[i]).contains('\n')
        && !ls[i].contains('\r') && ls[i].len() > 0 && trim(ls[i]) == ls[i] by {
        if i == 0 {
            assert(ls[0] == v);
        } else if i < 1 + nd {
            assert(ls[i] == dl[i - 1]);
            assert(storable_dedupe(st.dedupe[i - 1]));
            lemma_dedupe_line(st, 0, st.dedupe[i - 1]);
        } else {
            assert(ls[i] == il[i - 1 - nd]);
            assert(storable_incident(st.incidents[i - 1 - nd]));
            lemma_incident_line(st, 0, st.incidents[i - 1 - nd]);
        }
    }
    lemma_lines_of_lines_text(ls);
    lemma_numbered_clean(ls);
    let nl = numbered(ls);
    assert(render_state(st) == lines_text(ls));
    assert(nl[0] == (1nat, v));
    assert forall|i: int| 0 <= i < st.dedupe.len() implies (#[trigger] nl[1 + i]).1 == dedupe_line(st.dedupe[i]) by {
        assert(nl[1 + i] == ((2 + i) as nat, ls[1 + i]));
        assert(ls[1 + i] == dl[i]);
    }
    assert forall|j: int| 0 <= j < st.incidents.len() implies (#[trigger] nl[1 + st.dedupe.len() + j]).1
        == incident_line(st.incidents[j]) by {
        assert(nl[1 + nd + j] == ((2 + nd + j) as nat, ls[1 + nd + j]));
        assert(ls[1 + nd + j] == il[j]);
    }
    lemma_records_rendered(st, nl, nl.len() as int);
    let total = nl.len() as int - 1;
    if st.incidents.len() == 0 {
        assert(st.dedupe.take(nd) =~= st.dedupe);
        assert(st.incidents =~= Seq::<IncidentEntryView>::empty());
    } else {
        assert(st.incidents.take(st.incidents.len() as int) =~= st.incidents);
    }
    assert(state_prefix(st, total) == st);
}

} // verus!
