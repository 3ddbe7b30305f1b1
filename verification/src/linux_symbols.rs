//! Guest kernel symbol tables read from `/proc/kallsyms` or `System.map`
//! text: lookups by name and by address.
use vstd::prelude::*;
use crate::order::{compare_str, seq_order};
use crate::resolver::clone_opt_string;
use crate::text::{
    cat3, is_ascii_alnum, is_hex_digit, lines, lines_of, owned, parse_hex, parse_hex_u64, push_str,
    to_chars, trim, trim_owned, u64_to_dec, views, words, words_of, dec,
};

verus! {

#[derive(Debug, Clone, PartialEq, Eq)]
pub struct LinuxKernelSymbol {
    pub address: u64,
    pub kind: char,
    pub name: String,
    pub module: Option<String>,
}

/// Why a guest profile or symbol table cannot be used.
#[derive(Debug, Clone, PartialEq, Eq)]
pub enum ProfileError {
    MissingProfileIdentity { os: String, arch: String, kernel_or_build: String },
    InconsistentSnapshot { detail: String },
    MalformedProfile { detail: String },
}

fn copy_symbol(s: &LinuxKernelSymbol) -> (r: LinuxKernelSymbol)
    ensures
        r == *s,
{
    LinuxKernelSymbol { address: s.address, kind: s.kind, name: s.name.clone(), module: clone_opt_string(&s.module) }
}

/// `a` sorts no later than `b`: by address, then by name.
pub open spec fn key_le(a: LinuxKernelSymbol, b: LinuxKernelSymbol) -> bool {
    a.address < b.address || (a.address == b.address && seq_order(a.name@, b.name@) <= 0)
}

/// Where a stable sort by key places `s` after `o`: after every symbol
/// that sorts no later than it.
pub open spec fn insert_at(o: Seq<LinuxKernelSymbol>, s: LinuxKernelSymbol) -> int
    decreases o.len(),
{
    if o.len() == 0 {
        0
    } else if key_le(o.last(), s) {
        o.len() as int
    } else {
        insert_at(o.drop_last(), s)
    }
}

/// The symbols `syms` sorted by address and name, stably.
pub open spec fn ordered_of(syms: Seq<LinuxKernelSymbol>) -> Seq<LinuxKernelSymbol>
    decreases syms.len(),
{
    if syms.len() == 0 {
        Seq::empty()
    } else {
        let o = ordered_of(syms.drop_last());
        o.insert(insert_at(o, syms.last()), syms.last())
    }
}

fn sorts_no_later(a: &LinuxKernelSymbol, b: &LinuxKernelSymbol) -> (r: bool)
    ensures
        r == key_le(*a, *b),
{
    a.address < b.address || (a.address == b.address && compare_str(a.name.as_str(), b.name.as_str()) <= 0)
}

/// A table of symbols, in the order inserted and sorted by address and name.
#[derive(Debug)]
pub struct LinuxSymbolTable {
    inserted: Vec<LinuxKernelSymbol>,
    ordered: Vec<LinuxKernelSymbol>,
}

proof fn lemma_insert_at_bounds(o: Seq<LinuxKernelSymbol>, s: LinuxKernelSymbol)
    ensures
        0 <= insert_at(o, s) <= o.len(),
    decreases o.len(),
{
    if o.len() > 0 {
        lemma_insert_at_bounds(o.drop_last(), s);
    }
}

proof fn lemma_ordered_len(syms: Seq<LinuxKernelSymbol>)
    ensures
        ordered_of(syms).len() == syms.len(),
    decreases syms.len(),
{
    if syms.len() > 0 {
        lemma_ordered_len(syms.drop_last());
        lemma_insert_at_bounds(ordered_of(syms.drop_last()), syms.last());
    }
}

impl LinuxSymbolTable {
    #[verifier::type_invariant]
    spec fn inv(self) -> bool {
        self.ordered@ == ordered_of(self.inserted@)
    }

    /// The symbols in the order inserted.
    pub closed spec fn inserted(&self) -> Seq<LinuxKernelSymbol> {
        self.inserted@
    }

    pub fn new() -> (r: Self)
        ensures
            r.inserted().len() == 0,
    {
        LinuxSymbolTable { inserted: Vec::new(), ordered: Vec::new() }
    }

    /// Adds a symbol.
    pub fn insert(&mut self, symbol: LinuxKernelSymbol)
        ensures
            final(self).inserted() == old(self).inserted().push(symbol),
    {
        proof {
            use_type_invariant(&*self);
        }
        let ghost o = self.ordered@;
        let ghost ins = self.inserted@;
        let mut p = self.ordered.len();
        assert(o.take(p as int) =~= o);
        while p > 0 && !sorts_no_later(&self.ordered[p - 1], &symbol)
            invariant
                p <= o.len(),
                self.ordered@ == o,
                insert_at(o, symbol) == insert_at(o.take(p as int), symbol),
            decreases p,
        {
            proof {
                assert(o.take(p as int).last() == o[p - 1]);
                assert(o.take(p as int).drop_last() =~= o.take(p - 1));
            }
            p = p - 1;
        }
        proof {
            if p == 0 {
                assert(o.take(0) =~= Seq::<LinuxKernelSymbol>::empty());
            } else {
                assert(o.take(p as int).last() == o[p - 1]);
            }
            assert(insert_at(o, symbol) == p as int);
        }
        let mut a = LinuxSymbolTable { inserted: Vec::new(), ordered: Vec::new() };
        std::mem::swap(&mut a, self);
        let LinuxSymbolTable { mut inserted, mut ordered } = a;
        ordered.insert(p, copy_symbol(&symbol));
        inserted.push(symbol);
        proof {
            assert(inserted@.drop_last() =~= ins);
        }
        *self = LinuxSymbolTable { inserted, ordered };
    }

    /// The symbols sorted by address, then name (stably).
    pub fn symbols(&self) -> (r: &[LinuxKernelSymbol])
        ensures
            r@ == ordered_of(self.inserted()),
    {
        proof {
            use_type_invariant(self);
        }
        self.ordered.as_slice()
    }

    /// The symbols named `name`, in the order inserted.
    pub fn by_name(&self, name: &str) -> (r: Vec<LinuxKernelSymbol>)
        ensures
            r@ == self.inserted().filter(|s: LinuxKernelSymbol| s.name@ == name@),
    {
        let mut out: Vec<LinuxKernelSymbol> = Vec::new();
        let mut i: usize = 0;
        while i < self.inserted.len()
            invariant
                i <= self.inserted@.len(),
                out@ == self.inserted@.take(i as int).filter(|s: LinuxKernelSymbol| s.name@ == name@),
            decreases self.inserted@.len() - i,
        {
            proof {
                assert(self.inserted@.take(i + 1).drop_last() =~= self.inserted@.take(i as int));
                assert(self.inserted@.take(i + 1).last() == self.inserted@[i as int]);
                reveal(Seq::filter);
            }
            if crate::text::str_eq(self.inserted[i].name.as_str(), name) {
                out.push(copy_symbol(&self.inserted[i]));
            }
            i = i + 1;
        }
        assert(self.inserted@.take(i as int) =~= self.inserted@);
        out
    }

    /// The one symbol named `name`: missing and ambiguous names are errors.
    pub fn unique_by_name(&self, name: &str) -> (r: Result<LinuxKernelSymbol, ProfileError>)
        ensures
            ({
                let m = self.inserted().filter(|s: LinuxKernelSymbol| s.name@ == name@);
                &&& m.len() == 0 ==> (r matches Err(ProfileError::MissingProfileIdentity { os, arch, kernel_or_build })
                    && os@ == "linux"@ && arch@ == "x86_64"@ && kernel_or_build@ == "symbol:"@ + name@)
                &&& m.len() == 1 ==> r == Ok::<LinuxKernelSymbol, ProfileError>(m[0])
                &&& m.len() > 1 ==> (r matches Err(ProfileError::InconsistentSnapshot { detail })
                    && detail@ == "symbol '"@ + name@ + "' is ambiguous in guest symbol table"@)
            }),
    {
        let mut matches = self.by_name(name);
        proof {
            reveal_strlit("");
            assert("symbol:"@ + name@ + ""@ =~= "symbol:"@ + name@);
        }
        if matches.len() == 0 {
            return Err(ProfileError::MissingProfileIdentity {
                os: owned("linux"),
                arch: owned("x86_64"),
                kernel_or_build: cat3("symbol:", name, ""),
            });
        }
        if matches.len() == 1 {
            let s = matches.pop().unwrap();
            return Ok(s);
        }
        Err(ProfileError::InconsistentSnapshot { detail: cat3("symbol '", name, "' is ambiguous in guest symbol table") })
    }

    /// The last symbol, in address order, at or below `address` that is not
    /// of an unnamed module.
    pub fn symbol_containing(&self, address: u64) -> (r: Option<&LinuxKernelSymbol>)
        ensures
            ({
                let o = ordered_of(self.inserted());
                match r {
                    Some(s) => exists|i: int| 0 <= i < o.len() && o[i] == *s && covers(o[i], address)
                        && forall|j: int| i < j < o.len() ==> !covers(#[trigger] o[j], address),
                    None => forall|j: int| 0 <= j < o.len() ==> !covers(#[trigger] o[j], address),
                }
            }),
    {
        proof {
            use_type_invariant(self);
        }
        let mut i = self.ordered.len();
        while i > 0
            invariant
                i <= self.ordered@.len(),
                self.ordered@ == ordered_of(self.inserted@),
                forall|j: int| i <= j < self.ordered@.len() ==> !covers(#[trigger] self.ordered@[j], address),
            decreases i,
        {
            let s = &self.ordered[i - 1];
            let named = match &s.module {
                Some(m) => !crate::text::str_is_empty(m.as_str()),
                None => true,
            };
            if s.address <= address && named {
                proof {
                    let o = ordered_of(self.inserted());
                    assert(o[i - 1] == *s && covers(o[i - 1], address));
                    assert(forall|j: int| i - 1 < j < o.len() ==> !covers(#[trigger] o[j], address));
                    assert(exists|x: int| 0 <= x < o.len() && o[x] == *s && covers(o[x], address)
                        && forall|j: int| x < j < o.len() ==> !covers(#[trigger] o[j], address));
                }
                return Some(s);
            }
            i = i - 1;
        }
        None
    }
}

/// The symbol may contain `address`: it starts at or below it and is not
/// of a module with an empty name.
pub open spec fn covers(s: LinuxKernelSymbol, address: u64) -> bool {
    s.address <= address && match s.module {
        Some(m) => m@.len() > 0,
        None => true,
    }
}

// ---------------------------------------------------------------------------
// Parsing
// ---------------------------------------------------------------------------

/// Which symbol text is read.
#[derive(Debug, Clone, Copy, PartialEq, Eq, Structural)]
pub enum LinuxSymbolFormat {
    Kallsyms,
    SystemMap,
}

pub open spec fn at_line(n: nat, detail: Seq<char>) -> Seq<char> {
    "line "@ + dec(n) + ": "@ + detail
}

/// A name of ASCII letters, digits, `_`, `.` and `-`, not empty.
pub open spec fn name_ok(s: Seq<char>) -> bool {
    s.len() > 0 && forall|i: int| 0 <= i < s.len() ==> is_ascii_alnum(#[trigger] s[i]) || s[i] == '_' || s[i] == '.'
        || s[i] == '-'
}

/// The digits of an address without its `0x` or `0X` prefix.
pub open spec fn address_digits(v: Seq<char>) -> Seq<char> {
    crate::text::strip_hex_prefix(v)
}

/// An address: one to sixteen hexadecimal digits after an optional
/// prefix, an optional `+` before them.
pub open spec fn address_of(v: Seq<char>) -> Option<u64> {
    let b = address_digits(v);
    let d = if b.len() > 0 && b[0] == '+' { b.drop_first() } else { b };
    if 0 < b.len() <= 16 && d.len() > 0 && all_hex(d) {
        parse_hex(d)
    } else {
        None
    }
}

pub open spec fn all_hex(d: Seq<char>) -> bool {
    forall|i: int| 0 <= i < d.len() ==> is_hex_digit(#[trigger] d[i])
}

/// A module suffix `[name]`.
pub open spec fn module_of(v: Seq<char>) -> Result<Seq<char>, Seq<char>> {
    if v.len() >= 2 && v[0] == '[' && v.last() == ']' {
        let inner = v.subrange(1, v.len() - 1);
        if name_ok(inner) {
            Ok(inner)
        } else {
            Err("module name '"@ + inner + "' is not valid"@)
        }
    } else {
        Err("module suffix '"@ + v + "' must use [module] form"@)
    }
}

/// The symbol that line `n`, trimmed to `line`, describes.
pub open spec fn symbol_line(n: nat, line: Seq<char>, format: LinuxSymbolFormat) -> Result<(u64, char, Seq<char>, Option<Seq<char>>), Seq<char>> {
    let p = words_of(line);
    if p.len() < 1 {
        Err(at_line(n, "missing symbol address"@))
    } else if address_of(p[0]) is None {
        Err(at_line(n, "invalid symbol address '"@ + address_digits(p[0]) + "'"@))
    } else if p.len() < 2 {
        Err(at_line(n, "missing symbol type"@))
    } else if p[1].len() != 1 || !(('a' <= p[1][0] <= 'z') || ('A' <= p[1][0] <= 'Z')) {
        Err(at_line(n, "invalid symbol type '"@ + p[1] + "'"@))
    } else if p.len() < 3 {
        Err(at_line(n, "missing symbol name"@))
    } else if p.len() >= 4 && module_of(p[3]) is Err {
        Err(module_of(p[3])->Err_0)
    } else if p.len() > 4 {
        Err(at_line(n, "symbol line has too many fields"@))
    } else if !name_ok(p[2]) {
        Err(at_line(n, "symbol name '"@ + p[2] + "' is not valid"@))
    } else if format == LinuxSymbolFormat::SystemMap && p.len() == 4 {
        Err(at_line(n, "System.map entries must not include a module suffix"@))
    } else {
        Ok((address_of(p[0])->0, p[1][0], p[2], if p.len() == 4 { Some(module_of(p[3])->Ok_0) } else { None }))
    }
}

/// The symbols of the first `k` lines, or the first error.
pub open spec fn symbols_of(ls: Seq<Seq<char>>, k: int, format: LinuxSymbolFormat) -> Result<Seq<(u64, char, Seq<char>, Option<Seq<char>>)>, Seq<char>>
    decreases k,
{
    if k <= 0 {
        Ok(Seq::empty())
    } else {
        match symbols_of(ls, k - 1, format) {
            Err(e) => Err(e),
            Ok(s) => {
                let t = trim(ls[k - 1]);
                if t.len() == 0 || t[0] == '#' {
                    Ok(s)
                } else {
                    match symbol_line(k as nat, t, format) {
                        Err(e) => Err(e),
                        Ok(x) => Ok(s.push(x)),
                    }
                }
            },
        }
    }
}

/// The symbol's parts.
pub open spec fn parts_of(s: LinuxKernelSymbol) -> (u64, char, Seq<char>, Option<Seq<char>>) {
    (s.address, s.kind, s.name@, match s.module {
        Some(m) => Some(m@),
        None => None,
    })
}

/// `e` is the malformed-profile error with detail `m`.
pub open spec fn malformed_with(e: ProfileError, m: Seq<char>) -> bool {
    e matches ProfileError::MalformedProfile { detail } && detail@ == m
}

fn malformed(detail: String) -> (e: ProfileError)
    ensures
        e == (ProfileError::MalformedProfile { detail }),
{
    ProfileError::MalformedProfile { detail }
}

fn at_line_exec(n: usize, detail: String) -> (r: String)
    ensures
        r@ == at_line(n as nat, detail@),
{
    let num = u64_to_dec(n as u64);
    let mut m = cat3("line ", num.as_str(), ": ");
    push_str(&mut m, detail.as_str());
    m
}

fn name_ok_exec(v: &Vec<char>) -> (r: bool)
    ensures
        r == name_ok(v@),
{
    if v.len() == 0 {
        return false;
    }
    let mut i: usize = 0;
    while i < v.len()
        invariant
            i <= v@.len(),
            forall|k: int| 0 <= k < i ==> is_ascii_alnum(#[trigger] v@[k]) || v@[k] == '_' || v@[k] == '.' || v@[k] == '-',
        decreases v@.len() - i,
    {
        let c = v[i];
        if !(crate::text::char_is_ascii_alnum(c) || c == '_' || c == '.' || c == '-') {
            return false;
        }
        i = i + 1;
    }
    true
}

fn address_exec(v: &str) -> (r: Result<u64, String>)
    ensures
        match r {
            Ok(a) => address_of(v@) == Some(a),
            Err(d) => address_of(v@) is None && d@ == address_digits(v@),
        },
{
    let c = to_chars(v);
    let start: usize = if c.len() >= 2 && c[0] == '0' && (c[1] == 'x' || c[1] == 'X') { 2 } else { 0 };
    let b = crate::text::string_from(c.as_slice(), start, c.len());
    assert(b@ =~= address_digits(v@));
    let bc = to_chars(b.as_str());
    let dstart: usize = if bc.len() > 0 && bc[0] == '+' { 1 } else { 0 };
    let d = crate::text::string_from(bc.as_slice(), dstart, bc.len());
    if bc.len() == 0 || bc.len() > 16 || bc.len() == dstart {
        return Err(b);
    }
    proof {
        if dstart == 1 {
            assert(d@ =~= b@.drop_first());
        } else {
            assert(d@ =~= b@);
        }
    }
    let dc = to_chars(d.as_str());
    let mut i: usize = 0;
    while i < dc.len()
        invariant
            dc@ == d@,
            b@ == address_digits(v@),
            0 < b@.len() <= 16,
            d@.len() > 0,
            d@ == (if b@.len() > 0 && b@[0] == '+' { b@.drop_first() } else { b@ }),
            i <= dc@.len(),
            forall|k: int| 0 <= k < i ==> is_hex_digit(#[trigger] dc@[k]),
        decreases dc@.len() - i,
    {
        let ch = dc[i];
        let hex = ('0' <= ch && ch <= '9') || ('a' <= ch && ch <= 'f') || ('A' <= ch && ch <= 'F');
        assert(hex == is_hex_digit(ch));
        if !hex {
            proof {
                let bb = address_digits(v@);
                let dd = if bb.len() > 0 && bb[0] == '+' { bb.drop_first() } else { bb };
                assert(dd == d@);
                assert(!is_hex_digit(dd[i as int]));
                assert(!all_hex(dd));
            }
            return Err(b);
        }
        i = i + 1;
    }
    match parse_hex_u64(d.as_str()) {
        Some(a) => Ok(a),
        None => Err(b),
    }
}

fn module_exec(v: &str) -> (r: Result<String, String>)
    ensures
        match r {
            Ok(m) => module_of(v@) == Ok::<Seq<char>, Seq<char>>(m@),
            Err(e) => module_of(v@) == Err::<Seq<char>, Seq<char>>(e@),
        },
{
    let c = to_chars(v);
    if c.len() >= 2 && c[0] == '[' && c[c.len() - 1] == ']' {
        let inner = crate::text::string_from(c.as_slice(), 1, c.len() - 1);
        let ic = to_chars(inner.as_str());
        if name_ok_exec(&ic) {
            Ok(inner)
        } else {
            Err(cat3("module name '", inner.as_str(), "' is not valid"))
        }
    } else {
        Err(cat3("module suffix '", v, "' must use [module] form"))
    }
}

/// Reads one trimmed, non-blank line `n` of a symbol text.
pub fn parse_symbol_line(n: usize, line: &str, format: LinuxSymbolFormat) -> (r: Result<LinuxKernelSymbol, ProfileError>)
    ensures
        match r {
            Ok(s) => symbol_line(n as nat, line@, format) == Ok::<(u64, char, Seq<char>, Option<Seq<char>>), Seq<char>>(parts_of(s)),
            Err(e) => symbol_line(n as nat, line@, format) matches Err(m) && malformed_with(e, m),
        },
{
    let p = words(line);
    proof {
        assert(forall|i: int| 0 <= i < p@.len() ==> views(p@)[i] == #[trigger] p@[i]@);
    }
    if p.len() < 1 {
        return Err(malformed(at_line_exec(n, owned("missing symbol address"))));
    }
    let address = match address_exec(p[0].as_str()) {
        Ok(a) => a,
        Err(d) => return Err(malformed(at_line_exec(n, cat3("invalid symbol address '", d.as_str(), "'")))),
    };
    if p.len() < 2 {
        return Err(malformed(at_line_exec(n, owned("missing symbol type"))));
    }
    let kc = to_chars(p[1].as_str());
    if kc.len() != 1 || !(('a' <= kc[0] && kc[0] <= 'z') || ('A' <= kc[0] && kc[0] <= 'Z')) {
        return Err(malformed(at_line_exec(n, cat3("invalid symbol type '", p[1].as_str(), "'"))));
    }
    if p.len() < 3 {
        return Err(malformed(at_line_exec(n, owned("missing symbol name"))));
    }
    let module = if p.len() >= 4 {
        match module_exec(p[3].as_str()) {
            Ok(m) => Some(m),
            Err(e) => return Err(malformed(e)),
        }
    } else {
        None
    };
    if p.len() > 4 {
        return Err(malformed(at_line_exec(n, owned("symbol line has too many fields"))));
    }
    let name_chars = to_chars(p[2].as_str());
    if !name_ok_exec(&name_chars) {
        return Err(malformed(at_line_exec(n, cat3("symbol name '", p[2].as_str(), "' is not valid"))));
    }
    if format == LinuxSymbolFormat::SystemMap && module.is_some() {
        return Err(malformed(at_line_exec(n, owned("System.map entries must not include a module suffix"))));
    }
    Ok(LinuxKernelSymbol { address, kind: kc[0], name: owned(p[2].as_str()), module })
}

proof fn lemma_symbols_err(ls: Seq<Seq<char>>, k: int, m: int, format: LinuxSymbolFormat)
    requires
        0 <= k <= m,
        symbols_of(ls, k, format) is Err,
    ensures
        symbols_of(ls, m, format) == symbols_of(ls, k, format),
    decreases m - k,
{
    if k < m {
        lemma_symbols_err(ls, k, m - 1, format);
    }
}

/// Reads a symbol text: each non-blank line that is not a `#` comment is a
/// symbol; a text without symbols is malformed.
pub fn parse_symbol_map_text(text: &str, format: LinuxSymbolFormat) -> (r: Result<LinuxSymbolTable, ProfileError>)
    ensures
        ({
            let ls = lines_of(text@);
            match symbols_of(ls, ls.len() as int, format) {
                Err(m) => r matches Err(e) && malformed_with(e, m),
                Ok(syms) => if syms.len() == 0 {
                    r matches Err(e) && malformed_with(e, "symbol map does not contain any symbols"@)
                } else {
                    r matches Ok(t) && t.inserted().map_values(|s: LinuxKernelSymbol| parts_of(s)) == syms
                },
            }
        }),
{
    let all = lines(text);
    let ghost ls = lines_of(text@);
    let mut table = LinuxSymbolTable::new();
    let mut k: usize = 0;
    assert(table.inserted().map_values(|s: LinuxKernelSymbol| parts_of(s)) =~= Seq::<(u64, char, Seq<char>, Option<Seq<char>>)>::empty());
    while k < all.len()
        invariant
            views(all@) == ls,
            ls == lines_of(text@),
            k <= ls.len(),
            symbols_of(ls, k as int, format) == Ok::<Seq<(u64, char, Seq<char>, Option<Seq<char>>)>, Seq<char>>(
                table.inserted().map_values(|s: LinuxKernelSymbol| parts_of(s)),
            ),
        decreases ls.len() - k,
    {
        let t = trim_owned(all[k].as_str());
        assert(ls[k as int] == all@[k as int]@);
        let tc = to_chars(t.as_str());
        if tc.len() == 0 || tc[0] == '#' {
            k = k + 1;
            continue;
        }
        match parse_symbol_line(k + 1, t.as_str(), format) {
            Ok(s) => {
                let ghost before = table.inserted();
                table.insert(s);
                assert(table.inserted().map_values(|s: LinuxKernelSymbol| parts_of(s)) =~= before.map_values(
                    |s: LinuxKernelSymbol| parts_of(s),
                ).push(parts_of(s)));
            },
            Err(e) => {
                proof {
                    assert(t@ == trim(ls[k as int]));
                    assert(symbols_of(ls, k + 1, format) is Err);
                    lemma_symbols_err(ls, k + 1, ls.len() as int, format);
                    let m = symbol_line((k + 1) as nat, t@, format)->Err_0;
                    assert(symbols_of(ls, k + 1, format) == Err::<Seq<(u64, char, Seq<char>, Option<Seq<char>>)>, Seq<char>>(m));
                    assert(malformed_with(e, m));
                }
                return Err(e);
            },
        }
        k = k + 1;
    }
    if table.symbols().len() == 0 {
        proof {
            lemma_ordered_len(table.inserted());
        }
        return Err(malformed(owned("symbol map does not contain any symbols")));
    }
    proof {
        lemma_ordered_len(table.inserted());
    }
    Ok(table)
}

/// Reads `/proc/kallsyms` text.
pub fn parse_kallsyms_text(text: &str) -> (r: Result<LinuxSymbolTable, ProfileError>)
    ensures
        ({
            let ls = lines_of(text@);
            match symbols_of(ls, ls.len() as int, LinuxSymbolFormat::Kallsyms) {
                Err(m) => r matches Err(e) && malformed_with(e, m),
                Ok(syms) => if syms.len() == 0 {
                    r is Err
                } else {
                    r matches Ok(t) && t.inserted().map_values(|s: LinuxKernelSymbol| parts_of(s)) == syms
                },
            }
        }),
{
    parse_symbol_map_text(text, LinuxSymbolFormat::Kallsyms)
}

/// Reads `System.map` text, where a symbol has no module suffix.
pub fn parse_system_map_text(text: &str) -> (r: Result<LinuxSymbolTable, ProfileError>)
    ensures
        ({
            let ls = lines_of(text@);
            match symbols_of(ls, ls.len() as int, LinuxSymbolFormat::SystemMap) {
                Err(m) => r matches Err(e) && malformed_with(e, m),
                Ok(syms) => if syms.len() == 0 {
                    r is Err
                } else {
                    r matches Ok(t) && t.inserted().map_values(|s: LinuxKernelSymbol| parts_of(s)) == syms
                },
            }
        }),
{
    parse_symbol_map_text(text, LinuxSymbolFormat::SystemMap)
}

} // verus!
