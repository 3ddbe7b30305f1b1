//! Lexicographic order on text, as `Ord` for `str` orders it (by code point),
//! and sorted sets of strings without duplicates.
use vstd::prelude::*;
use crate::text::to_chars;

verus! {

/// Three-way lexicographic comparison of two texts: -1, 0 or 1.
pub open spec fn seq_order(a: Seq<char>, b: Seq<char>) -> int
    decreases a.len(),
{
    if a.len() == 0 {
        if b.len() == 0 {
            0
        } else {
            -1
        }
    } else if b.len() == 0 {
        1
    } else if a[0] < b[0] {
        -1
    } else if a[0] > b[0] {
        1
    } else {
        seq_order(a.drop_first(), b.drop_first())
    }
}

/// `a` sorts strictly before `b`.
pub open spec fn seq_lt(a: Seq<char>, b: Seq<char>) -> bool {
    seq_order(a, b) < 0
}

pub proof fn lemma_order_range(a: Seq<char>, b: Seq<char>)
    ensures
        -1 <= seq_order(a, b) <= 1,
    decreases a.len(),
{
    if a.len() > 0 && b.len() > 0 && a[0] == b[0] {
        lemma_order_range(a.drop_first(), b.drop_first());
    }
}

/// Equal comparison means equal text.
pub proof fn lemma_order_eq(a: Seq<char>, b: Seq<char>)
    ensures
        (seq_order(a, b) == 0) <==> (a == b),
    decreases a.len(),
{
    if a.len() == 0 && b.len() == 0 {
        assert(a =~= b);
    } else if a.len() > 0 && b.len() > 0 {
        lemma_order_eq(a.drop_first(), b.drop_first());
        assert(a =~= seq![a[0]] + a.drop_first());
        assert(b =~= seq![b[0]] + b.drop_first());
        if a == b {
            assert(a[0] == b[0]);
            assert(a.drop_first() == b.drop_first());
        }
    }
}

/// Swapping the arguments negates the comparison.
pub proof fn lemma_order_antisym(a: Seq<char>, b: Seq<char>)
    ensures
        seq_order(a, b) == -seq_order(b, a),
    decreases a.len(),
{
    if a.len() > 0 && b.len() > 0 && a[0] == b[0] {
        lemma_order_antisym(a.drop_first(), b.drop_first());
    }
}

/// The order is transitive.
pub proof fn lemma_order_trans(a: Seq<char>, b: Seq<char>, c: Seq<char>)
    requires
        seq_order(a, b) < 0,
        seq_order(b, c) < 0,
    ensures
        seq_order(a, c) < 0,
    decreases a.len(),
{
    if a.len() > 0 && b.len() > 0 && c.len() > 0 && a[0] == b[0] && b[0] == c[0] {
        lemma_order_trans(a.drop_first(), b.drop_first(), c.drop_first());
    }
}

/// Three-way comparison of two strings.
pub fn compare_str(a: &str, b: &str) -> (r: i8)
    ensures
        r == seq_order(a@, b@),
{
    let x = to_chars(a);
    let y = to_chars(b);
    let mut i: usize = 0;
    assert(a@.skip(0) =~= a@);
    assert(b@.skip(0) =~= b@);
    while i < x.len() && i < y.len()
        invariant
            x@ == a@,
            y@ == b@,
            i <= x@.len(),
            i <= y@.len(),
            seq_order(a@, b@) == seq_order(a@.skip(i as int), b@.skip(i as int)),
        decreases x@.len() - i,
    {
        let c = x[i];
        let d = y[i];
        proof {
            assert(a@.skip(i as int)[0] == c);
            assert(b@.skip(i as int)[0] == d);
            assert(a@.skip(i as int).drop_first() =~= a@.skip(i as int + 1));
            assert(b@.skip(i as int).drop_first() =~= b@.skip(i as int + 1));
        }
        if c < d {
            return -1;
        }
        if c > d {
            return 1;
        }
        i = i + 1;
    }
    if i == x.len() {
        if i == y.len() {
            0
        } else {
            -1
        }
    } else {
        1
    }
}

/// The texts are strictly increasing (so no text occurs twice).
pub open spec fn strictly_sorted(s: Seq<Seq<char>>) -> bool {
    forall|i: int, j: int| 0 <= i < j < s.len() ==> seq_lt(#[trigger] s[i], #[trigger] s[j])
}

/// The views of a list of strings.
pub open spec fn str_views(v: Seq<String>) -> Seq<Seq<char>> {
    v.map_values(|s: String| s@)
}

/// Inserts `s` into a strictly sorted list of strings unless it is already there.
pub fn insert_sorted(v: &mut Vec<String>, s: String)
    requires
        strictly_sorted(str_views(old(v)@)),
    ensures
        strictly_sorted(str_views(final(v)@)),
        str_views(final(v)@).to_set() == str_views(old(v)@).to_set().insert(s@),
{
    let n = v.len();
    let mut i: usize = 0;
    let mut stop = false;
    while !stop && i < n
        invariant
            n == v@.len(),
            v@ == old(v)@,
            strictly_sorted(str_views(old(v)@)),
            i <= n,
            forall|k: int| 0 <= k < i ==> seq_lt(#[trigger] str_views(v@)[k], s@),
            stop ==> i < n && seq_lt(s@, str_views(v@)[i as int]),
        decreases n - i + (if stop { 0int } else { 1int }),
    {
        let c = compare_str(v[i].as_str(), s.as_str());
        if c == 0 {
            proof {
                lemma_order_eq(v@[i as int]@, s@);
                assert(str_views(v@)[i as int] == s@);
                assert(str_views(v@).to_set().insert(s@) =~= str_views(v@).to_set());
            }
            return;
        }
        if c > 0 {
            proof {
                lemma_order_antisym(v@[i as int]@, s@);
            }
            stop = true;
        } else {
            i = i + 1;
        }
    }
    let ghost old_views = str_views(v@);
    v.insert(i, s);
    proof {
        let nv = str_views(v@);
        assert(nv =~= old_views.insert(i as int, s@));
        assert forall|a: int, b: int| 0 <= a < b < nv.len() implies seq_lt(
            #[trigger] nv[a],
            #[trigger] nv[b],
        ) by {
            if b < i {
                assert(nv[a] == old_views[a] && nv[b] == old_views[b]);
            } else if a < i && b == i {
                assert(nv[a] == old_views[a] && nv[b] == s@);
            } else if a < i && b > i {
                assert(nv[a] == old_views[a] && nv[b] == old_views[b - 1]);
                assert(seq_lt(old_views[a], old_views[b - 1]));
            } else if a == i {
                assert(nv[a] == s@ && nv[b] == old_views[b - 1]);
                if b - 1 > i {
                    assert(seq_lt(old_views[i as int], old_views[b - 1]));
                    lemma_order_trans(s@, old_views[i as int], old_views[b - 1]);
                }
            } else {
                assert(nv[a] == old_views[a - 1] && nv[b] == old_views[b - 1]);
                assert(seq_lt(old_views[a - 1], old_views[b - 1]));
            }
        }
        assert forall|x: Seq<char>| nv.to_set().contains(x) <==> old_views.to_set().insert(
            s@,
        ).contains(x) by {
            if nv.to_set().contains(x) {
                let k = choose|k: int| 0 <= k < nv.len() && nv[k] == x;
                if k < i {
                    assert(old_views[k] == x);
                } else if k > i {
                    assert(old_views[k - 1] == x);
                }
            }
            if old_views.to_set().contains(x) {
                let k = choose|k: int| 0 <= k < old_views.len() && old_views[k] == x;
                if k < i {
                    assert(nv[k] == x);
                } else {
                    assert(nv[k + 1] == x);
                }
            }
            if x == s@ {
                assert(nv[i as int] == x);
            }
        }
        assert(nv.to_set() =~= old_views.to_set().insert(s@));
    }
}

} // verus!
