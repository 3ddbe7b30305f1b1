//! The libvirt domain XML that identity discovery reads: the domain's name
//! and UUID, its QEMU tasks, vCPU threads and QMP socket, taken from tags
//! and attributes by a small scanner.
use vstd::prelude::*;
use crate::identity::{HostTaskIdentity, LibvirtDiscoveryError, LibvirtDomain, LibvirtDomainSource, QemuVcpuThread};
use crate::text::{
    cat3, char_is_ascii_alnum, dec, dec_int, find_from, i64_to_dec, is_ascii_alnum, occurs_at,
    owned, parse_i32, parse_signed, parse_u64, parse_unsigned, push_str, split_char, split_on,
    to_chars, trim, trim_owned, u64_to_dec, views,
};

verus! {

// ---------------------------------------------------------------------------
// Searching and replacing
// ---------------------------------------------------------------------------

/// The first index `>= from` at which `t` occurs in `s` (`str::find` on
/// `s[from..]`, shifted back).
pub open spec fn first_at(s: Seq<char>, t: Seq<char>, from: int) -> Option<int>
    decreases s.len() - from,
{
    if from < 0 || from + t.len() > s.len() {
        None
    } else if t.len() == 0 {
        Some(from)
    } else if occurs_at(s, t, from) {
        Some(from)
    } else {
        first_at(s, t, from + 1)
    }
}

pub proof fn lemma_first_at_bounds(s: Seq<char>, t: Seq<char>, from: int)
    ensures
        first_at(s, t, from) matches Some(p) ==> from <= p && p + t.len() <= s.len() && occurs_at(s, t, p),
    decreases s.len() - from,
{
    if from < 0 || from + t.len() > s.len() {
    } else if t.len() == 0 {
        assert(s.subrange(from, from) =~= t);
    } else if occurs_at(s, t, from) {
    } else {
        lemma_first_at_bounds(s, t, from + 1);
    }
}

proof fn lemma_first_at_found(s: Seq<char>, t: Seq<char>, from: int, i: int)
    requires
        0 <= from <= i,
        occurs_at(s, t, i),
        forall|j: int| from <= j < i ==> !occurs_at(s, t, j),
    ensures
        first_at(s, t, from) == Some(i),
    decreases i - from,
{
    if t.len() == 0 && from < i {
        assert(occurs_at(s, t, from)) by {
            assert(s.subrange(from, from) =~= t);
        }
    }
    if from < i && t.len() > 0 {
        lemma_first_at_found(s, t, from + 1, i);
    }
}

proof fn lemma_first_at_none(s: Seq<char>, t: Seq<char>, from: int)
    requires
        0 <= from,
        forall|j: int| from <= j ==> !occurs_at(s, t, j),
    ensures
        first_at(s, t, from) is None,
    decreases s.len() - from,
{
    if from + t.len() <= s.len() {
        if t.len() == 0 {
            assert(occurs_at(s, t, from)) by {
                assert(s.subrange(from, from) =~= t);
            }
        }
        lemma_first_at_none(s, t, from + 1);
    }
}

/// `first_at` on a character vector.
pub fn find_at(v: &Vec<char>, t: &Vec<char>, from: usize) -> (r: Option<usize>)
    requires
        from <= v@.len(),
    ensures
        match r {
            Some(i) => first_at(v@, t@, from as int) == Some(i as int),
            None => first_at(v@, t@, from as int) is None,
        },
{
    let r = find_from(v.as_slice(), v.len(), t.as_slice(), from);
    assert(v@.subrange(0, v@.len() as int) =~= v@);
    match r {
        Some(i) => {
            proof {
                lemma_first_at_found(v@, t@, from as int, i as int);
            }
            Some(i)
        },
        None => {
            proof {
                lemma_first_at_none(v@, t@, from as int);
            }
            None
        },
    }
}

/// `s.replace(pat, rep)`: every occurrence of `pat`, left to right and
/// without overlap, replaced by `rep`.
pub open spec fn replace_all(s: Seq<char>, pat: Seq<char>, rep: Seq<char>) -> Seq<char>
    decreases s.len(),
{
    if pat.len() == 0 || s.len() < pat.len() {
        s
    } else if s.subrange(0, pat.len() as int) == pat {
        rep + replace_all(s.skip(pat.len() as int), pat, rep)
    } else {
        seq![s[0]] + replace_all(s.drop_first(), pat, rep)
    }
}

fn replace_all_exec(v: &Vec<char>, pat: &str, rep: &str) -> (r: Vec<char>)
    requires
        pat@.len() > 0,
    ensures
        r@ == replace_all(v@, pat@, rep@),
{
    let p = to_chars(pat);
    let q = to_chars(rep);
    let mut out: Vec<char> = Vec::new();
    let mut i: usize = 0;
    assert(v@.skip(0) =~= v@);
    assert(out@ + replace_all(v@, pat@, rep@) =~= replace_all(v@, pat@, rep@));
    while i < v.len()
        invariant
            p@ == pat@,
            q@ == rep@,
            p@.len() > 0,
            i <= v@.len(),
            out@ + replace_all(v@.skip(i as int), pat@, rep@) == replace_all(v@, pat@, rep@),
        decreases v@.len() - i,
    {
        let ghost rest = v@.skip(i as int);
        if p.len() <= v.len() - i && crate::text::range_eq(v.as_slice(), i, i + p.len(), p.as_slice()) {
            proof {
                assert(rest.subrange(0, p@.len() as int) =~= v@.subrange(i as int, i + p@.len()));
                assert(rest.skip(p@.len() as int) =~= v@.skip(i + p@.len()));
            }
            let mut k: usize = 0;
            let ghost base = out@;
            while k < q.len()
                invariant
                    k <= q@.len(),
                    out@ == base + q@.take(k as int),
                decreases q@.len() - k,
            {
                out.push(q[k]);
                k = k + 1;
                assert(out@ =~= base + q@.take(k as int));
            }
            assert(q@.take(q@.len() as int) =~= q@);
            assert(base + q@ + replace_all(v@.skip(i + p@.len()), pat@, rep@) =~= base + (q@
                + replace_all(v@.skip(i + p@.len()), pat@, rep@)));
            i = i + p.len();
        } else {
            proof {
                if p@.len() <= rest.len() {
                    assert(rest.subrange(0, p@.len() as int) =~= v@.subrange(i as int, i + p@.len()));
                }
                assert(rest.drop_first() =~= v@.skip(i + 1));
                assert(rest[0] == v@[i as int]);
            }
            let ghost base = out@;
            out.push(v[i]);
            proof {
                if p@.len() <= rest.len() {
                    assert(out@ + replace_all(v@.skip(i + 1), pat@, rep@) =~= base + (seq![v@[i as int]]
                        + replace_all(v@.skip(i + 1), pat@, rep@)));
                } else {
                    assert(replace_all(rest, pat@, rep@) == rest);
                    assert(replace_all(v@.skip(i + 1), pat@, rep@) == v@.skip(i + 1));
                    assert(out@ + v@.skip(i + 1) =~= base + rest);
                }
            }
            i = i + 1;
        }
    }
    proof {
        assert(v@.skip(v@.len() as int) =~= Seq::<char>::empty());
        assert(out@ + Seq::<char>::empty() =~= out@);
    }
    out
}

/// The five predefined XML entities resolved, `&amp;` last.
pub open spec fn xml_unescaped(v: Seq<char>) -> Seq<char> {
    replace_all(
        replace_all(
            replace_all(replace_all(replace_all(v, "&quot;"@, "\""@), "&apos;"@, "'"@), "&lt;"@, "<"@),
            "&gt;"@,
            ">"@,
        ),
        "&amp;"@,
        "&"@,
    )
}

/// Resolves the five predefined XML entities.
pub fn xml_unescape(v: &Vec<char>) -> (r: Vec<char>)
    ensures
        r@ == xml_unescaped(v@),
{
    proof {
        reveal_strlit("&quot;");
        reveal_strlit("&apos;");
        reveal_strlit("&lt;");
        reveal_strlit("&gt;");
        reveal_strlit("&amp;");
    }
    let a = replace_all_exec(v, "&quot;", "\"");
    let b = replace_all_exec(&a, "&apos;", "'");
    let c = replace_all_exec(&b, "&lt;", "<");
    let d = replace_all_exec(&c, "&gt;", ">");
    replace_all_exec(&d, "&amp;", "&")
}

// ---------------------------------------------------------------------------
// Attributes
// ---------------------------------------------------------------------------

/// A character that can continue an attribute name.
pub open spec fn is_attr_name_char(c: char) -> bool {
    is_ascii_alnum(c) || c == '_' || c == '-' || c == ':'
}

/// The values of `attr="…"` and `attr='…'` from index `from` on, each
/// unescaped: an occurrence of the name counts where it is not the tail
/// of a longer name and is followed by `=` and a quote; the scan stops at
/// an unterminated value.
pub open spec fn attr_values_from(s: Seq<char>, attr: Seq<char>, from: int) -> Seq<Seq<char>>
    decreases s.len() - from,
{
    if attr.len() == 0 || from < 0 || from > s.len() {
        Seq::empty()
    } else {
        match first_at(s, attr, from) {
            None => Seq::empty(),
            Some(p) => {
                proof {
                    lemma_first_at_bounds(s, attr, from);
                }
                let after = p + attr.len();
                let before_ok = p == 0 || !is_attr_name_char(s[p - 1]);
                let after_ok = after < s.len() && s[after] == '=';
                if !before_ok || !after_ok {
                    attr_values_from(s, attr, after)
                } else if after + 1 >= s.len() {
                    Seq::empty()
                } else {
                    let q = s[after + 1];
                    if q != '"' && q != '\'' {
                        attr_values_from(s, attr, after)
                    } else {
                        match first_at(s, seq![q], after + 2) {
                            None => Seq::empty(),
                            Some(e) => {
                                proof {
                                    lemma_first_at_bounds(s, seq![q], after + 2);
                                }
                                seq![xml_unescaped(s.subrange(after + 2, e))] + attr_values_from(s, attr, e + 1)
                            },
                        }
                    }
                }
            },
        }
    }
}

pub open spec fn attr_values(s: Seq<char>, attr: Seq<char>) -> Seq<Seq<char>> {
    attr_values_from(s, attr, 0)
}

/// Every value of attribute `attr` in `s`.
pub fn extract_attrs(s: &Vec<char>, attr: &str) -> (r: Vec<Vec<char>>)
    requires
        attr@.len() > 0,
    ensures
        r@.map_values(|x: Vec<char>| x@) == attr_values(s@, attr@),
{
    let a = to_chars(attr);
    let mut out: Vec<Vec<char>> = Vec::new();
    let mut index: usize = 0;
    while index <= s.len()
        invariant
            a@ == attr@,
            a@.len() > 0,
            index <= s@.len() + 1,
            index <= s@.len() ==> out@.map_values(|x: Vec<char>| x@) + attr_values_from(s@, attr@, index as int)
                == attr_values(s@, attr@),
            index > s@.len() ==> out@.map_values(|x: Vec<char>| x@) == attr_values(s@, attr@),
        decreases s@.len() + 1 - index,
    {
        let ghost before = out@.map_values(|x: Vec<char>| x@);
        proof {
            lemma_first_at_bounds(s@, attr@, index as int);
        }
        match find_at(s, &a, index) {
            None => {
                assert(before + Seq::<Seq<char>>::empty() =~= before);
                return out;
            },
            Some(p) => {
                let after = p + a.len();
                let before_ok = p == 0 || !(char_is_ascii_alnum(s[p - 1]) || s[p - 1] == '_' || s[p - 1] == '-'
                    || s[p - 1] == ':');
                let after_ok = after < s.len() && s[after] == '=';
                if !before_ok || !after_ok {
                    index = after;
                } else if after + 1 >= s.len() {
                    assert(before + Seq::<Seq<char>>::empty() =~= before);
                    return out;
                } else {
                    let q = s[after + 1];
                    if q != '"' && q != '\'' {
                        index = after;
                    } else {
                        let qv = vec![q];
                        assert(qv@ =~= seq![q]);
                        proof {
                            lemma_first_at_bounds(s@, seq![q], after + 2);
                        }
                        match find_at(s, &qv, after + 2) {
                            None => {
                                assert(before + Seq::<Seq<char>>::empty() =~= before);
                                return out;
                            },
                            Some(e) => {
                                let mut raw: Vec<char> = Vec::new();
                                let mut k: usize = after + 2;
                                while k < e
                                    invariant
                                        after + 2 <= k <= e,
                                        e <= s@.len(),
                                        raw@ == s@.subrange(after + 2, k as int),
                                    decreases e - k,
                                {
                                    raw.push(s[k]);
                                    k = k + 1;
                                    assert(raw@ =~= s@.subrange(after + 2, k as int));
                                }
                                let value = xml_unescape(&raw);
                                out.push(value);
                                proof {
                                    assert(out@.map_values(|x: Vec<char>| x@) =~= before.push(
                                        xml_unescaped(s@.subrange(after + 2, e as int)),
                                    ));
                                    assert(before.push(xml_unescaped(s@.subrange(after + 2, e as int)))
                                        + attr_values_from(s@, attr@, e + 1) =~= before + (seq![
                                        xml_unescaped(s@.subrange(after + 2, e as int)),
                                    ] + attr_values_from(s@, attr@, e + 1)));
                                }
                                index = e + 1;
                            },
                        }
                    }
                }
            },
        }
    }
    out
}

/// The first value with a non-blank trim, trimmed.
pub open spec fn first_nonblank(vs: Seq<Seq<char>>) -> Option<Seq<char>>
    decreases vs.len(),
{
    if vs.len() == 0 {
        None
    } else if trim(vs[0]).len() > 0 {
        Some(trim(vs[0]))
    } else {
        first_nonblank(vs.drop_first())
    }
}

/// The first non-blank value of attribute `attr`, trimmed.
pub open spec fn attr_value(s: Seq<char>, attr: Seq<char>) -> Option<Seq<char>> {
    first_nonblank(attr_values(s, attr))
}

pub fn extract_attr(s: &Vec<char>, attr: &str) -> (r: Option<String>)
    requires
        attr@.len() > 0,
    ensures
        match r {
            Some(x) => attr_value(s@, attr@) == Some(x@),
            None => attr_value(s@, attr@) is None,
        },
{
    let vs = extract_attrs(s, attr);
    let ghost all = vs@.map_values(|x: Vec<char>| x@);
    let mut i: usize = 0;
    assert(all.skip(0) =~= all);
    while i < vs.len()
        invariant
            i <= vs@.len(),
            all == vs@.map_values(|x: Vec<char>| x@),
            all == attr_values(s@, attr@),
            first_nonblank(all.skip(i as int)) == first_nonblank(all),
        decreases vs@.len() - i,
    {
        let t = trim_owned(crate::text::string_of(vs[i].as_slice()).as_str());
        proof {
            assert(all.skip(i as int)[0] == vs@[i as int]@);
            assert(all.skip(i as int).drop_first() =~= all.skip(i + 1));
        }
        if !crate::text::str_is_empty(t.as_str()) {
            return Some(t);
        }
        i = i + 1;
    }
    assert(all.skip(i as int) =~= Seq::<Seq<char>>::empty());
    None
}

/// The values of `attr` that parse as `i32`, in order.
pub open spec fn i32_values(vs: Seq<Seq<char>>) -> Seq<i32>
    decreases vs.len(),
{
    if vs.len() == 0 {
        Seq::empty()
    } else {
        let rest = i32_values(vs.drop_last());
        match parse_signed(vs.last(), i32::MAX as nat) {
            Some(x) => rest.push(x as i32),
            None => rest,
        }
    }
}

pub fn extract_i32_attrs(s: &Vec<char>, attr: &str) -> (r: Vec<i32>)
    requires
        attr@.len() > 0,
    ensures
        r@ == i32_values(attr_values(s@, attr@)),
{
    let vs = extract_attrs(s, attr);
    let ghost all = vs@.map_values(|x: Vec<char>| x@);
    let mut out: Vec<i32> = Vec::new();
    let mut i: usize = 0;
    while i < vs.len()
        invariant
            i <= vs@.len(),
            all == vs@.map_values(|x: Vec<char>| x@),
            out@ == i32_values(all.take(i as int)),
        decreases vs@.len() - i,
    {
        let text = crate::text::string_of(vs[i].as_slice());
        proof {
            assert(all.take(i + 1).drop_last() =~= all.take(i as int));
            assert(all.take(i + 1).last() == vs@[i as int]@);
        }
        match parse_i32(text.as_str()) {
            Some(x) => {
                out.push(x);
            },
            None => {},
        }
        i = i + 1;
    }
    assert(all.take(vs@.len() as int) =~= all);
    out
}

// ---------------------------------------------------------------------------
// Element text
// ---------------------------------------------------------------------------

/// The unescaped, trimmed text after the first `<tag>` and before the next
/// `</tag>` (or the next `<tag>`, or the end); none where there is no
/// `<tag>` or the text is blank.
pub open spec fn element_text(s: Seq<char>, tag: Seq<char>) -> Option<Seq<char>> {
    let open = seq!['<'] + tag + seq!['>'];
    let close = seq!['<', '/'] + tag + seq!['>'];
    match first_at(s, open, 0) {
        None => None,
        Some(p) => {
            let rest = s.skip(p + open.len());
            let seg = match first_at(rest, open, 0) {
                Some(q) => rest.take(q),
                None => rest,
            };
            let piece = match first_at(seg, close, 0) {
                Some(q) => seg.take(q),
                None => seg,
            };
            if trim(piece).len() == 0 {
                None
            } else {
                Some(xml_unescaped(trim(piece)))
            }
        },
    }
}

fn take_chars(v: &Vec<char>, lo: usize, hi: usize) -> (r: Vec<char>)
    requires
        lo <= hi <= v@.len(),
    ensures
        r@ == v@.subrange(lo as int, hi as int),
{
    let mut out: Vec<char> = Vec::new();
    let mut k: usize = lo;
    while k < hi
        invariant
            lo <= k <= hi,
            hi <= v@.len(),
            out@ == v@.subrange(lo as int, k as int),
        decreases hi - k,
    {
        out.push(v[k]);
        k = k + 1;
        assert(out@ =~= v@.subrange(lo as int, k as int));
    }
    out
}

pub fn extract_xml_text(s: &Vec<char>, tag: &str) -> (r: Option<String>)
    ensures
        match r {
            Some(x) => element_text(s@, tag@) == Some(x@),
            None => element_text(s@, tag@) is None,
        },
{
    let t = to_chars(tag);
    let mut open: Vec<char> = Vec::new();
    open.push('<');
    let mut close: Vec<char> = Vec::new();
    close.push('<');
    close.push('/');
    let mut k: usize = 0;
    while k < t.len()
        invariant
            k <= t@.len(),
            open@ == seq!['<'] + t@.take(k as int),
            close@ == seq!['<', '/'] + t@.take(k as int),
        decreases t@.len() - k,
    {
        open.push(t[k]);
        close.push(t[k]);
        k = k + 1;
        assert(open@ =~= seq!['<'] + t@.take(k as int));
        assert(close@ =~= seq!['<', '/'] + t@.take(k as int));
    }
    open.push('>');
    close.push('>');
    assert(t@.take(t@.len() as int) =~= tag@);
    assert(open@ =~= seq!['<'] + tag@ + seq!['>']);
    assert(close@ =~= seq!['<', '/'] + tag@ + seq!['>']);
    proof {
        lemma_first_at_bounds(s@, open@, 0);
    }
    let found = find_at(s, &open, 0);
    let p = match found {
        None => return None,
        Some(p) => p,
    };
    assert(first_at(s@, open@, 0) == Some(p as int));
    let ol = open.len();
    let sl = s.len();
    assert(p + ol <= sl);
    let rest = take_chars(s, p + ol, sl);
    assert(rest@ =~= s@.skip(p + open@.len()));
    proof {
        lemma_first_at_bounds(rest@, open@, 0);
    }
    let seg = match find_at(&rest, &open, 0) {
        Some(q) => take_chars(&rest, 0, q),
        None => rest,
    };
    assert(seg@ =~= match first_at(s@.skip(p + open@.len()), open@, 0) {
        Some(q) => s@.skip(p + open@.len()).take(q),
        None => s@.skip(p + open@.len()),
    });
    proof {
        lemma_first_at_bounds(seg@, close@, 0);
    }
    let piece = match find_at(&seg, &close, 0) {
        Some(q) => take_chars(&seg, 0, q),
        None => seg,
    };
    let trimmed = trim_owned(crate::text::string_of(piece.as_slice()).as_str());
    if crate::text::str_is_empty(trimmed.as_str()) {
        return None;
    }
    let tv = to_chars(trimmed.as_str());
    let u = xml_unescape(&tv);
    Some(crate::text::string_of(u.as_slice()))
}

// ---------------------------------------------------------------------------
// Tags: vCPU threads and host tasks
// ---------------------------------------------------------------------------

/// The text of each tag: what follows each `<` up to the next `>`.
pub open spec fn tag_texts(xml: Seq<char>) -> Seq<Seq<char>> {
    split_char(xml, '<').drop_first().map_values(|f: Seq<char>| split_char(f, '>')[0])
}

pub fn tags_of(xml: &str) -> (r: Vec<String>)
    ensures
        views(r@) == tag_texts(xml@),
{
    let frags = split_on(xml, '<');
    let ghost fv = views(frags@);
    let mut out: Vec<String> = Vec::new();
    let mut k: usize = 1;
    proof {
        crate::text::lemma_split_char_nonempty(xml@, '<');
    }
    while k < frags.len()
        invariant
            1 <= k <= frags@.len(),
            fv == views(frags@),
            fv == split_char(xml@, '<'),
            views(out@) == fv.drop_first().map_values(|f: Seq<char>| split_char(f, '>')[0]).take(k - 1),
        decreases frags@.len() - k,
    {
        let parts = split_on(frags[k].as_str(), '>');
        proof {
            crate::text::lemma_split_char_nonempty(frags@[k as int]@, '>');
        }
        let first = owned(parts[0].as_str());
        let ghost before = views(out@);
        out.push(first);
        proof {
            let all = fv.drop_first().map_values(|f: Seq<char>| split_char(f, '>')[0]);
            assert(all[k - 1] == split_char(fv[k as int], '>')[0]);
            assert(views(out@) =~= before.push(first@));
            assert(all.take(k as int) =~= all.take(k - 1).push(all[k - 1]));
        }
        k = k + 1;
    }
    proof {
        let all = fv.drop_first().map_values(|f: Seq<char>| split_char(f, '>')[0]);
        assert(all.take(all.len() as int) =~= all);
    }
    out
}

/// An `i32` attribute of a vCPU thread tag, with the error for a bad value.
pub open spec fn vcpu_attr(tag: Seq<char>, attr: Seq<char>, bad: Seq<char>) -> Result<Option<i32>, Seq<char>> {
    match attr_value(tag, attr) {
        None => Ok(None),
        Some(v) => match parse_signed(v, i32::MAX as nat) {
            Some(x) => Ok(Some(x as i32)),
            None => Err(bad),
        },
    }
}

/// The vCPU thread that a tag describes, if any.
pub open spec fn vcpu_entry(tag: Seq<char>) -> Result<Option<QemuVcpuThread>, Seq<char>> {
    let tid_bad = "invalid vCPU thread tid '"@ + attr_value(tag, "tid"@).unwrap_or(Seq::empty()) + "'"@;
    let vcpu_bad = "invalid vcpu_id '"@ + attr_value(tag, "vcpu_id"@).unwrap_or(Seq::empty()) + "' for QEMU thread"@;
    match vcpu_attr(tag, "tid"@, tid_bad) {
        Err(e) => Err(e),
        Ok(tid) => match vcpu_attr(tag, "vcpu_id"@, vcpu_bad) {
            Err(e) => Err(e),
            Ok(vcpu) => match (tid, vcpu) {
                (Some(t), Some(c)) => if t > 0 && c >= 0 {
                    Ok(Some(QemuVcpuThread { tid: t, vcpu_id: c }))
                } else {
                    Err("vCPU thread metadata requires tid > 0 and vcpu_id >= 0"@)
                },
                (None, Some(_)) => Err("vCPU thread metadata has vcpu_id without tid"@),
                _ => Ok(None),
            },
        },
    }
}

/// The index of the first mapping for thread `tid`.
pub open spec fn tid_index(ms: Seq<QemuVcpuThread>, tid: i32) -> Option<int>
    decreases ms.len(),
{
    if ms.len() == 0 {
        None
    } else {
        match tid_index(ms.drop_last(), tid) {
            Some(i) => Some(i),
            None => if ms.last().tid == tid {
                Some(ms.len() - 1)
            } else {
                None
            },
        }
    }
}

/// Adds a mapping: a repeat is absorbed, a different vCPU for a known
/// thread is an error.
pub open spec fn insert_vcpu(ms: Seq<QemuVcpuThread>, t: QemuVcpuThread) -> Result<Seq<QemuVcpuThread>, Seq<char>> {
    match tid_index(ms, t.tid) {
        Some(i) => if ms[i].vcpu_id == t.vcpu_id {
            Ok(ms)
        } else {
            Err("conflicting vCPU metadata for host tid "@ + dec_int(t.tid as int) + ": "@ + dec_int(
                ms[i].vcpu_id as int,
            ) + " and "@ + dec_int(t.vcpu_id as int))
        },
        None => Ok(ms.push(t)),
    }
}

/// The vCPU mappings of the first `k` tags.
pub open spec fn vcpu_mappings(tags: Seq<Seq<char>>, k: int) -> Result<Seq<QemuVcpuThread>, Seq<char>>
    decreases k,
{
    if k <= 0 {
        Ok(Seq::empty())
    } else {
        match vcpu_mappings(tags, k - 1) {
            Err(e) => Err(e),
            Ok(ms) => match vcpu_entry(tags[k - 1]) {
                Err(e) => Err(e),
                Ok(None) => Ok(ms),
                Ok(Some(t)) => insert_vcpu(ms, t),
            },
        }
    }
}

proof fn lemma_index_spec_facts(ms: Seq<QemuVcpuThread>, tid: i32)
    ensures
        tid_index(ms, tid) matches Some(i) ==> 0 <= i < ms.len() && ms[i].tid == tid && forall|j: int|
            0 <= j < i ==> ms[j].tid != tid,
        tid_index(ms, tid) is None ==> forall|j: int| 0 <= j < ms.len() ==> ms[j].tid != tid,
    decreases ms.len(),
{
    if ms.len() > 0 {
        lemma_index_spec_facts(ms.drop_last(), tid);
        assert forall|j: int| 0 <= j < ms.len() - 1 implies ms[j] == ms.drop_last()[j] by {}
    }
}

proof fn lemma_tid_index_is(ms: Seq<QemuVcpuThread>, tid: i32, i: int)
    requires
        0 <= i < ms.len(),
        ms[i].tid == tid,
        forall|j: int| 0 <= j < i ==> ms[j].tid != tid,
    ensures
        tid_index(ms, tid) == Some(i),
    decreases ms.len(),
{
    if i < ms.len() - 1 {
        assert(ms.drop_last()[i] == ms[i]);
        lemma_tid_index_is(ms.drop_last(), tid, i);
    } else {
        lemma_index_spec_facts(ms.drop_last(), tid);
        if let Some(k) = tid_index(ms.drop_last(), tid) {
            assert(ms[k] == ms.drop_last()[k]);
        }
    }
}

proof fn lemma_tid_index_none(ms: Seq<QemuVcpuThread>, tid: i32)
    requires
        forall|j: int| 0 <= j < ms.len() ==> ms[j].tid != tid,
    ensures
        tid_index(ms, tid) is None,
    decreases ms.len(),
{
    if ms.len() > 0 {
        assert forall|j: int| 0 <= j < ms.len() - 1 implies ms.drop_last()[j].tid != tid by {
            assert(ms.drop_last()[j] == ms[j]);
        }
        lemma_tid_index_none(ms.drop_last(), tid);
    }
}

fn vcpu_attr_exec(tag: &Vec<char>, attr: &str, bad_head: &str, bad_tail: &str) -> (r: Result<Option<i32>, String>)
    requires
        attr@.len() > 0,
    ensures
        match r {
            Ok(x) => vcpu_attr(tag@, attr@, bad_head@ + attr_value(tag@, attr@).unwrap_or(Seq::empty()) + bad_tail@)
                == Ok::<Option<i32>, Seq<char>>(x),
            Err(e) => vcpu_attr(tag@, attr@, bad_head@ + attr_value(tag@, attr@).unwrap_or(Seq::empty()) + bad_tail@)
                == Err::<Option<i32>, Seq<char>>(e@),
        },
{
    match extract_attr(tag, attr) {
        None => Ok(None),
        Some(v) => match parse_i32(v.as_str()) {
            Some(x) => Ok(Some(x)),
            None => Err(cat3(bad_head, v.as_str(), bad_tail)),
        },
    }
}

fn vcpu_entry_exec(tag: &Vec<char>) -> (r: Result<Option<QemuVcpuThread>, String>)
    ensures
        match r {
            Ok(x) => vcpu_entry(tag@) == Ok::<Option<QemuVcpuThread>, Seq<char>>(x),
            Err(e) => vcpu_entry(tag@) == Err::<Option<QemuVcpuThread>, Seq<char>>(e@),
        },
{
    proof {
        reveal_strlit("tid");
        reveal_strlit("vcpu_id");
    }
    let tid = vcpu_attr_exec(tag, "tid", "invalid vCPU thread tid '", "'")?;
    let vcpu = vcpu_attr_exec(tag, "vcpu_id", "invalid vcpu_id '", "' for QEMU thread")?;
    match (tid, vcpu) {
        (Some(t), Some(c)) => {
            if t > 0 && c >= 0 {
                Ok(Some(QemuVcpuThread { tid: t, vcpu_id: c }))
            } else {
                Err(owned("vCPU thread metadata requires tid > 0 and vcpu_id >= 0"))
            }
        },
        (None, Some(_)) => Err(owned("vCPU thread metadata has vcpu_id without tid")),
        _ => Ok(None),
    }
}

fn insert_vcpu_exec(ms: &mut Vec<QemuVcpuThread>, t: QemuVcpuThread) -> (r: Result<(), String>)
    ensures
        match r {
            Ok(()) => insert_vcpu(old(ms)@, t) == Ok::<Seq<QemuVcpuThread>, Seq<char>>(final(ms)@),
            Err(e) => insert_vcpu(old(ms)@, t) == Err::<Seq<QemuVcpuThread>, Seq<char>>(e@),
        },
{
    let mut i: usize = 0;
    while i < ms.len()
        invariant
            i <= ms@.len(),
            ms@ == old(ms)@,
            forall|j: int| 0 <= j < i ==> ms@[j].tid != t.tid,
        decreases ms@.len() - i,
    {
        if ms[i].tid == t.tid {
            proof {
                lemma_tid_index_is(ms@, t.tid, i as int);
            }
            if ms[i].vcpu_id == t.vcpu_id {
                return Ok(());
            }
            let a = i64_to_dec(t.tid as i64);
            let b = i64_to_dec(ms[i].vcpu_id as i64);
            let c = i64_to_dec(t.vcpu_id as i64);
            let mut m = cat3("conflicting vCPU metadata for host tid ", a.as_str(), ": ");
            push_str(&mut m, b.as_str());
            push_str(&mut m, " and ");
            push_str(&mut m, c.as_str());
            return Err(m);
        }
        i = i + 1;
    }
    proof {
        lemma_tid_index_none(ms@, t.tid);
    }
    ms.push(t);
    Ok(())
}

proof fn lemma_vcpu_mappings_err(tags: Seq<Seq<char>>, k: int, m: int)
    requires
        0 <= k <= m,
        vcpu_mappings(tags, k) is Err,
    ensures
        vcpu_mappings(tags, m) == vcpu_mappings(tags, k),
    decreases m - k,
{
    if k < m {
        lemma_vcpu_mappings_err(tags, k, m - 1);
    }
}

/// The vCPU thread mappings that the tags describe.
pub fn extract_vcpu_thread_mappings(tags: &Vec<String>) -> (r: Result<Vec<QemuVcpuThread>, String>)
    ensures
        match r {
            Ok(ms) => vcpu_mappings(views(tags@), tags@.len() as int) == Ok::<Seq<QemuVcpuThread>, Seq<char>>(ms@),
            Err(e) => vcpu_mappings(views(tags@), tags@.len() as int) == Err::<Seq<QemuVcpuThread>, Seq<char>>(e@),
        },
{
    let ghost tv = views(tags@);
    let mut ms: Vec<QemuVcpuThread> = Vec::new();
    let mut k: usize = 0;
    while k < tags.len()
        invariant
            k <= tags@.len(),
            tv == views(tags@),
            vcpu_mappings(tv, k as int) == Ok::<Seq<QemuVcpuThread>, Seq<char>>(ms@),
        decreases tags@.len() - k,
    {
        let tag = to_chars(tags[k].as_str());
        assert(tv[k as int] == tag@);
        match vcpu_entry_exec(&tag) {
            Err(e) => {
                proof {
                    lemma_vcpu_mappings_err(tv, k + 1, tv.len() as int);
                }
                return Err(e);
            },
            Ok(None) => {},
            Ok(Some(t)) => {
                match insert_vcpu_exec(&mut ms, t) {
                    Ok(()) => {},
                    Err(e) => {
                        proof {
                            lemma_vcpu_mappings_err(tv, k + 1, tv.len() as int);
                        }
                        return Err(e);
                    },
                }
            },
        }
        k = k + 1;
    }
    Ok(ms)
}

/// A host task id attribute: positive when present.
pub open spec fn task_id_attr(tag: Seq<char>, attr: Seq<char>) -> Result<Option<i32>, Seq<char>> {
    match attr_value(tag, attr) {
        None => Ok(None),
        Some(v) => match parse_signed(v, i32::MAX as nat) {
            None => Err("invalid host task "@ + attr + " '"@ + v + "'"@),
            Some(x) => if x <= 0 {
                Err("host task "@ + attr + " must be greater than zero"@)
            } else {
                Ok(Some(x as i32))
            },
        },
    }
}

/// A process start-time attribute.
pub open spec fn start_attr(tag: Seq<char>, attr: Seq<char>) -> Result<Option<u64>, Seq<char>> {
    match attr_value(tag, attr) {
        None => Ok(None),
        Some(v) => match parse_unsigned(v, u64::MAX as nat) {
            None => Err("invalid process start_time_ticks attribute "@ + attr + "='"@ + v + "'"@),
            Some(x) => Ok(Some(x as u64)),
        },
    }
}

/// The start time of a task: its own attribute, else the shared one.
pub open spec fn start_for(tag: Seq<char>, own: Seq<char>) -> Result<Option<u64>, Seq<char>> {
    match start_attr(tag, own) {
        Err(e) => Err(e),
        Ok(Some(x)) => Ok(Some(x)),
        Ok(None) => start_attr(tag, "start_time_ticks"@),
    }
}

/// The index of the first identity of task `t`.
pub open spec fn task_index(ids: Seq<HostTaskIdentity>, t: i32) -> Option<int>
    decreases ids.len(),
{
    if ids.len() == 0 {
        None
    } else {
        match task_index(ids.drop_last(), t) {
            Some(i) => Some(i),
            None => if ids.last().task_id == t {
                Some(ids.len() - 1)
            } else {
                None
            },
        }
    }
}

/// Adds a task identity: a known task takes a start time it lacked, and
/// two different start times for one task are an error.
pub open spec fn insert_task(ids: Seq<HostTaskIdentity>, next: HostTaskIdentity) -> Result<Seq<HostTaskIdentity>, Seq<char>> {
    match task_index(ids, next.task_id) {
        Some(i) => match (ids[i].start_time_ticks, next.start_time_ticks) {
            (Some(c), Some(d)) => if c != d {
                Err("conflicting process start_time_ticks for host task "@ + dec_int(next.task_id as int) + ": "@
                    + dec(c as nat) + " and "@ + dec(d as nat))
            } else {
                Ok(ids)
            },
            (None, Some(d)) => Ok(ids.update(i, HostTaskIdentity { task_id: ids[i].task_id, start_time_ticks: Some(d) })),
            _ => Ok(ids),
        },
        None => Ok(ids.push(next)),
    }
}

/// The task of attribute `attr` in a tag, with its start time, added.
pub open spec fn task_step(ids: Seq<HostTaskIdentity>, tag: Seq<char>, attr: Seq<char>, own_start: Seq<char>) -> Result<Seq<HostTaskIdentity>, Seq<char>> {
    match task_id_attr(tag, attr) {
        Err(e) => Err(e),
        Ok(None) => Ok(ids),
        Ok(Some(task_id)) => match start_for(tag, own_start) {
            Err(e) => Err(e),
            Ok(start_time_ticks) => insert_task(ids, HostTaskIdentity { task_id, start_time_ticks }),
        },
    }
}

/// The host task identities of the first `k` tags: each tag's `pid`, then
/// its `tid`.
pub open spec fn task_identities(tags: Seq<Seq<char>>, k: int) -> Result<Seq<HostTaskIdentity>, Seq<char>>
    decreases k,
{
    if k <= 0 {
        Ok(Seq::empty())
    } else {
        match task_identities(tags, k - 1) {
            Err(e) => Err(e),
            Ok(ids) => match task_step(ids, tags[k - 1], "pid"@, "pid_start_time_ticks"@) {
                Err(e) => Err(e),
                Ok(ids2) => task_step(ids2, tags[k - 1], "tid"@, "tid_start_time_ticks"@),
            },
        }
    }
}

proof fn lemma_task_index_facts(ids: Seq<HostTaskIdentity>, t: i32)
    ensures
        task_index(ids, t) matches Some(i) ==> 0 <= i < ids.len() && ids[i].task_id == t,
    decreases ids.len(),
{
    if ids.len() > 0 {
        lemma_task_index_facts(ids.drop_last(), t);
    }
}

proof fn lemma_task_index_is(ids: Seq<HostTaskIdentity>, t: i32, i: int)
    requires
        0 <= i < ids.len(),
        ids[i].task_id == t,
        forall|j: int| 0 <= j < i ==> ids[j].task_id != t,
    ensures
        task_index(ids, t) == Some(i),
    decreases ids.len(),
{
    if i < ids.len() - 1 {
        assert(ids.drop_last()[i] == ids[i]);
        lemma_task_index_is(ids.drop_last(), t, i);
    } else {
        lemma_task_index_none(ids.drop_last(), t);
    }
}

proof fn lemma_task_index_none(ids: Seq<HostTaskIdentity>, t: i32)
    requires
        forall|j: int| 0 <= j < ids.len() ==> ids[j].task_id != t,
    ensures
        task_index(ids, t) is None,
    decreases ids.len(),
{
    if ids.len() > 0 {
        assert forall|j: int| 0 <= j < ids.len() - 1 implies ids.drop_last()[j].task_id != t by {
            assert(ids.drop_last()[j] == ids[j]);
        }
        lemma_task_index_none(ids.drop_last(), t);
    }
}

fn task_id_attr_exec(tag: &Vec<char>, attr: &str) -> (r: Result<Option<i32>, String>)
    requires
        attr@.len() > 0,
    ensures
        match r {
            Ok(x) => task_id_attr(tag@, attr@) == Ok::<Option<i32>, Seq<char>>(x),
            Err(e) => task_id_attr(tag@, attr@) == Err::<Option<i32>, Seq<char>>(e@),
        },
{
    match extract_attr(tag, attr) {
        None => Ok(None),
        Some(v) => match parse_i32(v.as_str()) {
            None => {
                let mut m = cat3("invalid host task ", attr, " '");
                push_str(&mut m, v.as_str());
                push_str(&mut m, "'");
                Err(m)
            },
            Some(x) => {
                if x <= 0 {
                    Err(cat3("host task ", attr, " must be greater than zero"))
                } else {
                    Ok(Some(x))
                }
            },
        },
    }
}

fn start_attr_exec(tag: &Vec<char>, attr: &str) -> (r: Result<Option<u64>, String>)
    requires
        attr@.len() > 0,
    ensures
        match r {
            Ok(x) => start_attr(tag@, attr@) == Ok::<Option<u64>, Seq<char>>(x),
            Err(e) => start_attr(tag@, attr@) == Err::<Option<u64>, Seq<char>>(e@),
        },
{
    match extract_attr(tag, attr) {
        None => Ok(None),
        Some(v) => match parse_u64(v.as_str()) {
            None => {
                let mut m = cat3("invalid process start_time_ticks attribute ", attr, "='");
                push_str(&mut m, v.as_str());
                push_str(&mut m, "'");
                Err(m)
            },
            Some(x) => Ok(Some(x)),
        },
    }
}

fn start_for_exec(tag: &Vec<char>, own: &str) -> (r: Result<Option<u64>, String>)
    requires
        own@.len() > 0,
    ensures
        match r {
            Ok(x) => start_for(tag@, own@) == Ok::<Option<u64>, Seq<char>>(x),
            Err(e) => start_for(tag@, own@) == Err::<Option<u64>, Seq<char>>(e@),
        },
{
    proof {
        reveal_strlit("start_time_ticks");
    }
    match start_attr_exec(tag, own)? {
        Some(x) => Ok(Some(x)),
        None => start_attr_exec(tag, "start_time_ticks"),
    }
}

fn insert_task_exec(ids: &mut Vec<HostTaskIdentity>, next: HostTaskIdentity) -> (r: Result<(), String>)
    ensures
        match r {
            Ok(()) => insert_task(old(ids)@, next) == Ok::<Seq<HostTaskIdentity>, Seq<char>>(final(ids)@),
            Err(e) => insert_task(old(ids)@, next) == Err::<Seq<HostTaskIdentity>, Seq<char>>(e@),
        },
{
    let mut i: usize = 0;
    while i < ids.len()
        invariant
            i <= ids@.len(),
            ids@ == old(ids)@,
            forall|j: int| 0 <= j < i ==> ids@[j].task_id != next.task_id,
        decreases ids@.len() - i,
    {
        if ids[i].task_id == next.task_id {
            proof {
                lemma_task_index_is(ids@, next.task_id, i as int);
            }
            match (ids[i].start_time_ticks, next.start_time_ticks) {
                (Some(c), Some(d)) => {
                    if c != d {
                        let a = i64_to_dec(next.task_id as i64);
                        let b = u64_to_dec(c);
                        let e = u64_to_dec(d);
                        let mut m = cat3("conflicting process start_time_ticks for host task ", a.as_str(), ": ");
                        push_str(&mut m, b.as_str());
                        push_str(&mut m, " and ");
                        push_str(&mut m, e.as_str());
                        return Err(m);
                    }
                    return Ok(());
                },
                (None, Some(d)) => {
                    let id = ids[i].task_id;
                    ids.set(i, HostTaskIdentity { task_id: id, start_time_ticks: Some(d) });
                    return Ok(());
                },
                _ => {
                    return Ok(());
                },
            }
        }
        i = i + 1;
    }
    proof {
        lemma_task_index_none(ids@, next.task_id);
    }
    ids.push(next);
    Ok(())
}

fn task_step_exec(ids: &mut Vec<HostTaskIdentity>, tag: &Vec<char>, attr: &str, own_start: &str) -> (r: Result<(), String>)
    requires
        attr@.len() > 0,
        own_start@.len() > 0,
    ensures
        match r {
            Ok(()) => task_step(old(ids)@, tag@, attr@, own_start@) == Ok::<Seq<HostTaskIdentity>, Seq<char>>(final(ids)@),
            Err(e) => task_step(old(ids)@, tag@, attr@, own_start@) == Err::<Seq<HostTaskIdentity>, Seq<char>>(e@),
        },
{
    match task_id_attr_exec(tag, attr)? {
        None => Ok(()),
        Some(task_id) => {
            let start_time_ticks = start_for_exec(tag, own_start)?;
            insert_task_exec(ids, HostTaskIdentity { task_id, start_time_ticks })
        },
    }
}

proof fn lemma_task_identities_err(tags: Seq<Seq<char>>, k: int, m: int)
    requires
        0 <= k <= m,
        task_identities(tags, k) is Err,
    ensures
        task_identities(tags, m) == task_identities(tags, k),
    decreases m - k,
{
    if k < m {
        lemma_task_identities_err(tags, k, m - 1);
    }
}

/// The host task identities that the tags describe.
pub fn extract_host_task_identities(tags: &Vec<String>) -> (r: Result<Vec<HostTaskIdentity>, String>)
    ensures
        match r {
            Ok(ids) => task_identities(views(tags@), tags@.len() as int) == Ok::<Seq<HostTaskIdentity>, Seq<char>>(ids@),
            Err(e) => task_identities(views(tags@), tags@.len() as int) == Err::<Seq<HostTaskIdentity>, Seq<char>>(e@),
        },
{
    proof {
        reveal_strlit("pid");
        reveal_strlit("tid");
        reveal_strlit("pid_start_time_ticks");
        reveal_strlit("tid_start_time_ticks");
    }
    let ghost tv = views(tags@);
    let mut ids: Vec<HostTaskIdentity> = Vec::new();
    let mut k: usize = 0;
    while k < tags.len()
        invariant
            k <= tags@.len(),
            tv == views(tags@),
            task_identities(tv, k as int) == Ok::<Seq<HostTaskIdentity>, Seq<char>>(ids@),
        decreases tags@.len() - k,
    {
        let tag = to_chars(tags[k].as_str());
        assert(tv[k as int] == tag@);
        proof {
            reveal_strlit("pid");
            reveal_strlit("tid");
            reveal_strlit("pid_start_time_ticks");
            reveal_strlit("tid_start_time_ticks");
        }
        match task_step_exec(&mut ids, &tag, "pid", "pid_start_time_ticks") {
            Ok(()) => {},
            Err(e) => {
                proof {
                    lemma_task_identities_err(tv, k + 1, tv.len() as int);
                }
                return Err(e);
            },
        }
        match task_step_exec(&mut ids, &tag, "tid", "tid_start_time_ticks") {
            Ok(()) => {},
            Err(e) => {
                proof {
                    lemma_task_identities_err(tv, k + 1, tv.len() as int);
                }
                return Err(e);
            },
        }
        k = k + 1;
    }
    Ok(ids)
}

// ---------------------------------------------------------------------------
// Domains
// ---------------------------------------------------------------------------

/// What a domain's XML describes.
pub struct DomainXml {
    pub name: Seq<char>,
    pub uuid: Seq<char>,
    pub qmp_socket: Option<Seq<char>>,
    pub qemu_pids: Seq<i32>,
    pub qemu_tids: Seq<i32>,
    pub vcpu_threads: Seq<QemuVcpuThread>,
    pub qemu_task_identities: Seq<HostTaskIdentity>,
}

/// The domain that an XML text describes, or why it is malformed.
pub open spec fn domain_xml(xml: Seq<char>) -> Result<DomainXml, Seq<char>> {
    match element_text(xml, "name"@) {
        None => Err("missing required <name> element in domain XML"@),
        Some(name) => match element_text(xml, "uuid"@) {
            None => Err("missing required <uuid> element in domain XML"@),
            Some(uuid) => {
                let pids = i32_values(attr_values(xml, "pid"@));
                let tids = i32_values(attr_values(xml, "tid"@));
                if pids.len() == 0 && tids.len() == 0 {
                    Err("missing mocked qemu pid or tid attribute for AegisHV discovery"@)
                } else {
                    let tags = tag_texts(xml);
                    match vcpu_mappings(tags, tags.len() as int) {
                        Err(e) => Err(e),
                        Ok(vcpus) => match task_identities(tags, tags.len() as int) {
                            Err(e) => Err(e),
                            Ok(ids) => Ok(
                                DomainXml {
                                    name,
                                    uuid,
                                    qmp_socket: attr_value(xml, "qmp_socket"@),
                                    qemu_pids: pids,
                                    qemu_tids: tids,
                                    vcpu_threads: vcpus,
                                    qemu_task_identities: ids,
                                },
                            ),
                        },
                    }
                }
            },
        },
    }
}

pub open spec fn opt_seq(o: Option<String>) -> Option<Seq<char>> {
    match o {
        Some(s) => Some(s@),
        None => None,
    }
}

fn malformed(path: &str, detail: String) -> (e: LibvirtDiscoveryError)
    ensures
        e matches LibvirtDiscoveryError::MalformedDomain { path: p, detail: d } && p@ == path@ && d@ == detail@,
{
    LibvirtDiscoveryError::MalformedDomain { path: owned(path), detail }
}

/// Reads a domain from its XML text; `path` names the file in errors.
pub fn parse_libvirt_domain_xml(path: &str, xml: &str) -> (r: Result<LibvirtDomain, LibvirtDiscoveryError>)
    ensures
        match r {
            Ok(d) => d.source == LibvirtDomainSource::Xml && domain_xml(xml@) == Ok::<DomainXml, Seq<char>>(
                DomainXml {
                    name: d.name@,
                    uuid: d.uuid@,
                    qmp_socket: opt_seq(d.qmp_socket),
                    qemu_pids: d.qemu_pids@,
                    qemu_tids: d.qemu_tids@,
                    vcpu_threads: d.vcpu_threads@,
                    qemu_task_identities: d.qemu_task_identities@,
                },
            ),
            Err(e) => domain_xml(xml@) matches Err(m) && e matches LibvirtDiscoveryError::MalformedDomain {
                path: p,
                detail: d,
            } && p@ == path@ && d@ == m,
        },
{
    proof {
        reveal_strlit("name");
        reveal_strlit("uuid");
        reveal_strlit("pid");
        reveal_strlit("tid");
        reveal_strlit("qmp_socket");
    }
    let v = to_chars(xml);
    let name = match extract_xml_text(&v, "name") {
        Some(n) => n,
        None => return Err(malformed(path, owned("missing required <name> element in domain XML"))),
    };
    let uuid = match extract_xml_text(&v, "uuid") {
        Some(u) => u,
        None => return Err(malformed(path, owned("missing required <uuid> element in domain XML"))),
    };
    let qemu_pids = extract_i32_attrs(&v, "pid");
    let qemu_tids = extract_i32_attrs(&v, "tid");
    if qemu_pids.len() == 0 && qemu_tids.len() == 0 {
        return Err(malformed(path, owned("missing mocked qemu pid or tid attribute for AegisHV discovery")));
    }
    let qmp_socket = extract_attr(&v, "qmp_socket");
    let tags = tags_of(xml);
    let vcpu_threads = match extract_vcpu_thread_mappings(&tags) {
        Ok(ms) => ms,
        Err(d) => return Err(malformed(path, d)),
    };
    let qemu_task_identities = match extract_host_task_identities(&tags) {
        Ok(ids) => ids,
        Err(d) => return Err(malformed(path, d)),
    };
    Ok(
        LibvirtDomain {
            name,
            uuid,
            qmp_socket,
            qemu_pids,
            qemu_tids,
            vcpu_threads,
            qemu_task_identities,
            source: LibvirtDomainSource::Xml,
        },
    )
}

} // verus!
