//! Small match patterns for VM names, ids and reasons.
//!
//! A pattern is literal text in which `.` matches any one character, with an
//! optional leading `^` (match at the start) and trailing `$` (match at the
//! end). Without anchors a pattern matches anywhere in the text. Other regex
//! syntax is rejected when the pattern is compiled.
use vstd::prelude::*;
use crate::text::{owned, to_chars};

verus! {

/// Characters that compiled patterns do not support.
pub open spec fn is_unsupported_meta(c: char) -> bool {
    c == '(' || c == ')' || c == '[' || c == ']' || c == '{' || c == '}' || c == '*' || c == '+'
        || c == '?' || c == '|' || c == '\\'
}

#[derive(Debug, Clone, PartialEq, Eq)]
pub struct Pattern {
    /// Pattern body without anchors.
    pub body: Vec<char>,
    pub anchored_start: bool,
    pub anchored_end: bool,
}

/// `p` matches `t` at offset `i` (`.` matches any character).
pub open spec fn matches_at(p: Seq<char>, t: Seq<char>, i: int) -> bool {
    0 <= i && i + p.len() <= t.len() && forall|j: int|
        0 <= j < p.len() ==> (#[trigger] p[j] == '.' || p[j] == t[i + j])
}

impl Pattern {
    /// The text matches the pattern.
    pub open spec fn matches(self, t: Seq<char>) -> bool {
        let p = self.body@;
        if self.anchored_start && self.anchored_end {
            p.len() == t.len() && matches_at(p, t, 0)
        } else if self.anchored_start {
            matches_at(p, t, 0)
        } else if self.anchored_end {
            matches_at(p, t, t.len() - p.len())
        } else {
            exists|i: int| matches_at(p, t, i)
        }
    }

    /// Compiles `source`; fails on unsupported syntax.
    pub fn compile(source: &str) -> (r: Result<Pattern, String>)
        ensures
            r is Ok <==> compilable(source@),
            r matches Err(e) ==> e@ == unsupported_syntax_message(),
            r matches Ok(p) ==> p.anchored_start == start_anchor(source@) && p.anchored_end
                == end_anchor(source@) && p.body@ == pattern_body(source@),
    {
        let v = to_chars(source);
        let mut i: usize = 0;
        while i < v.len()
            invariant
                v@ == source@,
                i <= v@.len(),
                forall|k: int| 0 <= k < i ==> !is_unsupported_meta(#[trigger] v@[k]),
            decreases v@.len() - i,
        {
            let c = v[i];
            if c == '(' || c == ')' || c == '[' || c == ']' || c == '{' || c == '}' || c == '*'
                || c == '+' || c == '?' || c == '|' || c == '\\' {
                let e = owned("unsupported pattern syntax");
                proof {
                    reveal_strlit("unsupported pattern syntax");
                }
                return Err(e);
            }
            i = i + 1;
        }
        let n = v.len();
        let start = n > 0 && v[0] == '^';
        let lo: usize = if start { 1 } else { 0 };
        let end = n > lo && v[n - 1] == '$';
        let hi: usize = if end { n - 1 } else { n };
        let mut body: Vec<char> = Vec::new();
        let mut k = lo;
        while k < hi
            invariant
                lo <= k <= hi <= v@.len(),
                body@ == v@.subrange(lo as int, k as int),
            decreases hi - k,
        {
            body.push(v[k]);
            k = k + 1;
            assert(body@ =~= v@.subrange(lo as int, k as int));
        }
        Ok(Pattern { body, anchored_start: start, anchored_end: end })
    }

    fn matches_at_exec(&self, t: &Vec<char>, i: usize) -> (r: bool)
        requires
            i + self.body@.len() <= t@.len(),
        ensures
            r == matches_at(self.body@, t@, i as int),
    {
        let tl = t.len();
        let mut j: usize = 0;
        while j < self.body.len()
            invariant
                tl == t@.len(),
                i + self.body@.len() <= t@.len(),
                j <= self.body@.len(),
                forall|k: int| 0 <= k < j ==> (#[trigger] self.body@[k] == '.' || self.body@[k] == t@[i + k]),
            decreases self.body@.len() - j,
        {
            let p = self.body[j];
            assert(i + j < t@.len());
            if p != '.' && p != t[i + j] {
                return false;
            }
            j = j + 1;
        }
        true
    }

    /// The text matches the pattern.
    pub fn is_match(&self, text: &str) -> (r: bool)
        ensures
            r == self.matches(text@),
    {
        let t = to_chars(text);
        let n = t.len();
        let m = self.body.len();
        if m > n {
            return false;
        }
        if self.anchored_start && self.anchored_end {
            if m != n {
                return false;
            }
            return self.matches_at_exec(&t, 0);
        }
        if self.anchored_start {
            return self.matches_at_exec(&t, 0);
        }
        if self.anchored_end {
            return self.matches_at_exec(&t, n - m);
        }
        let mut i: usize = 0;
        loop
            invariant
                m == self.body@.len(),
                n == t@.len(),
                m <= n,
                i <= n - m,
                t@ == text@,
                !self.anchored_start,
                !self.anchored_end,
                forall|k: int| 0 <= k < i ==> !matches_at(self.body@, t@, k),
            decreases n - m - i,
        {
            if self.matches_at_exec(&t, i) {
                assert(matches_at(self.body@, text@, i as int));
                return true;
            }
            if i == n - m {
                proof {
                    assert forall|k: int| !matches_at(self.body@, text@, k) by {
                        if 0 <= k && k + m <= n {
                            assert(k < i || k == i);
                        }
                    }
                }
                return false;
            }
            i = i + 1;
        }
    }
}

/// The message of a compile error.
pub open spec fn unsupported_syntax_message() -> Seq<char> {
    seq!['u', 'n', 's', 'u', 'p', 'p', 'o', 'r', 't', 'e', 'd', ' ', 'p', 'a', 't', 't', 'e', 'r', 'n',
        ' ', 's', 'y', 'n', 't', 'a', 'x']
}

/// `source` holds no unsupported syntax.
pub open spec fn compilable(source: Seq<char>) -> bool {
    forall|k: int| 0 <= k < source.len() ==> !is_unsupported_meta(#[trigger] source[k])
}

/// The source starts with `^`.
pub open spec fn start_anchor(s: Seq<char>) -> bool {
    s.len() > 0 && s[0] == '^'
}

/// The source ends with a `$` that is not the leading `^`.
pub open spec fn end_anchor(s: Seq<char>) -> bool {
    let lo = if start_anchor(s) { 1int } else { 0int };
    s.len() > lo && s.last() == '$'
}

/// The source without its anchors.
pub open spec fn pattern_body(s: Seq<char>) -> Seq<char> {
    let lo = if start_anchor(s) { 1int } else { 0int };
    let hi = if end_anchor(s) { s.len() - 1 } else { s.len() as int };
    s.subrange(lo, hi)
}

} // verus!
