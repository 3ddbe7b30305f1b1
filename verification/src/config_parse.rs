//! The configuration file format: a small TOML subset with tables,
//! arrays of tables, quoted strings, string arrays and inline tables.
//!
//! The grammar is given as spec functions over `Seq<char>`; `parse_config`
//! is proved to compute exactly `config_text(s)`.
use vstd::prelude::*;
use crate::config::{
    Action, Actions, Config, Identity, Journald, Match, Pmu, QmpMapping, Rule, Spool, Syslog,
    WxAllowEntry, default_action_view, default_config_view, default_match_view, default_rule_view,
    ActionView, ActionsView, ConfigView, General, IdentityView, JournaldView, MatchView,
    MetricsConfig, PmuView, QmpView, RuleView, SpoolCompression, SpoolView, SyslogView,
    WxEntryView,
};
use crate::event::IdentityConfidence;
use crate::text::{
    cat3, char_is_ws, chars_eq, push_char, str_eq, dec, eq_lit, is_ws, lines, lines_of, owned, parse_i64_chars,
    parse_signed, parse_u64_chars, parse_unsigned, push_str, string_of, to_chars, trim,
    trim_bounds, trim_start, u64_to_dec, views,
};

verus! {

// ---------------------------------------------------------------------------
// Lexical pieces
// ---------------------------------------------------------------------------

/// `"line <n>: <detail>"`.
pub open spec fn line_error(n: nat, detail: Seq<char>) -> Seq<char> {
    "line "@ + dec(n) + ": "@ + detail
}

/// Where a line's content ends: at the first `#` outside a quoted string
/// (a backslash inside a string escapes the next character), or an error
/// for an unterminated string or escape.
pub open spec fn comment_scan(s: Seq<char>, i: int, in_str: bool, escape: bool) -> Result<
    int,
    Seq<char>,
>
    decreases s.len() - i,
{
    if i >= s.len() {
        if escape {
            Err("unterminated escape in string"@)
        } else if in_str {
            Err("unterminated string"@)
        } else {
            Ok(s.len() as int)
        }
    } else {
        let c = s[i];
        if escape {
            comment_scan(s, i + 1, in_str, false)
        } else if c == '\\' && in_str {
            comment_scan(s, i + 1, in_str, true)
        } else if c == '"' {
            comment_scan(s, i + 1, !in_str, false)
        } else if c == '#' && !in_str {
            Ok(i)
        } else {
            comment_scan(s, i + 1, in_str, false)
        }
    }
}

/// The position of the first `=` outside a quoted string.
pub open spec fn eq_scan(s: Seq<char>, i: int, in_str: bool, escape: bool) -> Option<int>
    decreases s.len() - i,
{
    if i >= s.len() {
        None
    } else {
        let c = s[i];
        if escape {
            eq_scan(s, i + 1, in_str, false)
        } else if c == '\\' && in_str {
            eq_scan(s, i + 1, in_str, true)
        } else if c == '"' {
            eq_scan(s, i + 1, !in_str, false)
        } else if c == '=' && !in_str {
            Some(i)
        } else {
            eq_scan(s, i + 1, in_str, false)
        }
    }
}

/// `key = value`: both sides trimmed and non-empty.
pub open spec fn key_value(line: Seq<char>) -> Result<(Seq<char>, Seq<char>), Seq<char>> {
    match eq_scan(line, 0, false, false) {
        None => Err("expected key = value assignment"@),
        Some(i) => {
            let key = trim(line.take(i));
            let value = trim(line.skip(i + 1));
            if key.len() == 0 {
                Err("empty config key"@)
            } else if value.len() == 0 {
                Err("missing value for key '"@ + key + "'"@)
            } else {
                Ok((key, value))
            }
        },
    }
}

/// A section header line.
pub enum Heading {
    Table(Seq<char>),
    Array(Seq<char>),
}

pub open spec fn section_name_ok(name: Seq<char>) -> bool {
    name.len() > 0 && !name.contains('[') && !name.contains(']')
}

/// `None` for a line that is no header; else `[name]` or `[[name]]`.
pub open spec fn heading_of(line: Seq<char>) -> Option<Result<Heading, Seq<char>>> {
    let n = line.len();
    if n == 0 || line[0] != '[' {
        None
    } else if n >= 2 && line[1] == '[' {
        if n >= 4 && line[n - 1] == ']' && line[n - 2] == ']' {
            let name = trim(line.subrange(2, n - 2));
            if section_name_ok(name) {
                Some(Ok(Heading::Array(name)))
            } else {
                Some(Err("malformed section header"@))
            }
        } else {
            Some(Err("malformed array section header"@))
        }
    } else if n >= 2 && line[n - 1] == ']' {
        let name = trim(line.subrange(1, n - 1));
        if section_name_ok(name) {
            Some(Ok(Heading::Table(name)))
        } else {
            Some(Err("malformed section header"@))
        }
    } else {
        Some(Err("malformed section header"@))
    }
}

pub open spec fn supported_table(name: Seq<char>) -> bool {
    ||| name == "general"@
    ||| name == "allow"@
    ||| name == "pmu"@
    ||| name == "metrics"@
    ||| name == "spool"@
    ||| name == "syslog"@
    ||| name == "journald"@
    ||| name == "identity"@
    ||| name == "actions"@
}

pub open spec fn section_label(section: Seq<char>) -> Seq<char> {
    if section.len() == 0 {
        "root"@
    } else {
        section
    }
}

/// `true` or `false`.
pub open spec fn bool_value(v: Seq<char>) -> Option<bool> {
    if v == "true"@ {
        Some(true)
    } else if v == "false"@ {
        Some(false)
    } else {
        None
    }
}

/// A bare string value: trimmed, and one pair of enclosing double quotes
/// removed.
pub open spec fn string_value(v: Seq<char>) -> Seq<char> {
    let t = trim(v);
    if t.len() >= 2 && t[0] == '"' && t[t.len() - 1] == '"' {
        t.subrange(1, t.len() - 1)
    } else {
        t
    }
}

/// The text an escape `\c` stands for in a quoted string.
pub open spec fn unescape(c: char) -> Seq<char> {
    if c == '"' {
        seq!['"']
    } else if c == 'n' {
        seq!['\n']
    } else if c == '\\' {
        seq!['\\']
    } else {
        seq!['\\', c]
    }
}

/// Scans a quoted string whose opening quote is before `i`: the unescaped
/// text and the position after the closing quote.
pub open spec fn quoted_scan(s: Seq<char>, i: int, escape: bool, out: Seq<char>) -> Result<
    (Seq<char>, int),
    Seq<char>,
>
    decreases s.len() - i,
{
    if i >= s.len() {
        if escape {
            Err("unterminated escape in string"@)
        } else {
            Err("unterminated string"@)
        }
    } else {
        let c = s[i];
        if escape {
            quoted_scan(s, i + 1, false, out + unescape(c))
        } else if c == '\\' {
            quoted_scan(s, i + 1, true, out)
        } else if c == '"' {
            Ok((out, i + 1))
        } else {
            quoted_scan(s, i + 1, false, out.push(c))
        }
    }
}

/// The quoted string that opens at `start`.
pub open spec fn quoted_at(s: Seq<char>, start: int) -> Result<(Seq<char>, int), Seq<char>> {
    quoted_scan(s, start + 1, false, Seq::empty())
}

/// The first position at or after `i` that holds no whitespace.
pub open spec fn skip_ws(s: Seq<char>, i: int) -> int
    decreases s.len() - i,
{
    if 0 <= i < s.len() && is_ws(s[i]) {
        skip_ws(s, i + 1)
    } else {
        i
    }
}

/// The elements of a string array from `pos` on (positions only move
/// forward).
pub open spec fn array_items(s: Seq<char>, pos: int, acc: Seq<Seq<char>>) -> Result<
    Seq<Seq<char>>,
    Seq<char>,
>
    decreases s.len() - pos,
{
    if pos < 0 || pos >= s.len() {
        Ok(acc)
    } else if s[pos] == ',' {
        Err("empty string array element"@)
    } else if s[pos] != '"' {
        Err("string array elements must be quoted"@)
    } else {
        match quoted_at(s, pos) {
            Err(e) => Err(e),
            Ok((v, e)) => {
                let r = skip_ws(s, e);
                if r >= s.len() {
                    Ok(acc.push(v))
                } else if s[r] != ',' {
                    Err("expected comma between string array elements"@)
                } else {
                    let r2 = skip_ws(s, r + 1);
                    if r2 >= s.len() {
                        Err("trailing comma in string array"@)
                    } else if pos < r2 {
                        array_items(s, r2, acc.push(v))
                    } else {
                        Ok(acc.push(v))
                    }
                }
            },
        }
    }
}

/// `["a", "b"]`.
pub open spec fn string_array(value: Seq<char>) -> Result<Seq<Seq<char>>, Seq<char>> {
    let t = trim(value);
    if t.len() >= 2 && t[0] == '[' && t[t.len() - 1] == ']' {
        let rest = trim(t.subrange(1, t.len() - 1));
        if rest.len() == 0 {
            Ok(Seq::empty())
        } else {
            array_items(rest, 0, Seq::empty())
        }
    } else {
        Err("expected string array"@)
    }
}

pub open spec fn has_bracket(t: Seq<char>) -> bool {
    exists|i: int| 0 <= i < t.len() && (t[i] == '[' || t[i] == ']' || t[i] == '{' || t[i] == '}')
}

/// A value inside an inline table: a quoted string, or a bare value.
pub open spec fn inline_value(v: Seq<char>) -> Result<Seq<char>, Seq<char>> {
    let t = trim(v);
    if t.len() > 0 && t[0] == '"' {
        match quoted_at(t, 0) {
            Err(e) => Err(e),
            Ok((p, e)) => if trim(t.skip(e)).len() > 0 {
                Err("unexpected content after quoted string"@)
            } else {
                Ok(p)
            },
        }
    } else if t.len() == 0 {
        Err("empty inline value"@)
    } else if has_bracket(t) {
        Err("nested inline syntax is not supported"@)
    } else {
        Ok(string_value(t))
    }
}

/// Splits the inside of an inline table at commas outside strings; each
/// part trimmed and non-empty.
pub open spec fn comma_scan(
    s: Seq<char>,
    i: int,
    start: int,
    in_str: bool,
    escape: bool,
    parts: Seq<Seq<char>>,
) -> Result<Seq<Seq<char>>, Seq<char>>
    decreases s.len() - i,
{
    if i >= s.len() {
        if escape {
            Err("unterminated escape in inline table"@)
        } else if in_str {
            Err("unterminated string in inline table"@)
        } else {
            let cur = trim(s.subrange(start, s.len() as int));
            if cur.len() == 0 {
                if trim(s).len() == 0 {
                    Ok(parts)
                } else {
                    Err("trailing comma in inline table"@)
                }
            } else {
                Ok(parts.push(cur))
            }
        }
    } else {
        let c = s[i];
        if escape {
            comma_scan(s, i + 1, start, in_str, false, parts)
        } else if c == '\\' && in_str {
            comma_scan(s, i + 1, start, in_str, true, parts)
        } else if c == '"' {
            comma_scan(s, i + 1, start, !in_str, false, parts)
        } else if c == ',' && !in_str {
            let cur = trim(s.subrange(start, i));
            if cur.len() == 0 {
                Err("empty inline table entry"@)
            } else {
                comma_scan(s, i + 1, i + 1, in_str, false, parts.push(cur))
            }
        } else {
            comma_scan(s, i + 1, start, in_str, false, parts)
        }
    }
}

pub open spec fn has_key(entries: Seq<(Seq<char>, Seq<char>)>, key: Seq<char>) -> bool {
    exists|j: int| 0 <= j < entries.len() && entries[j].0 == key
}

/// The `key = value` entries of the parts `k..` of an inline table.
pub open spec fn table_entries(
    parts: Seq<Seq<char>>,
    k: int,
    acc: Seq<(Seq<char>, Seq<char>)>,
) -> Result<Seq<(Seq<char>, Seq<char>)>, Seq<char>>
    decreases parts.len() - k,
{
    if k < 0 || k >= parts.len() {
        Ok(acc)
    } else {
        match key_value(parts[k]) {
            Err(e) => Err("invalid inline table part '"@ + parts[k] + "': "@ + e),
            Ok((key, v)) => if has_key(acc, key) {
                Err("duplicate inline key '"@ + key + "'"@)
            } else {
                match inline_value(v) {
                    Err(e) => Err(e),
                    Ok(pv) => table_entries(parts, k + 1, acc.push((key, pv))),
                }
            },
        }
    }
}

/// `{ k = v, ... }`.
pub open spec fn inline_table(value: Seq<char>) -> Result<Seq<(Seq<char>, Seq<char>)>, Seq<char>> {
    let t = trim(value);
    if t.len() >= 2 && t[0] == '{' && t[t.len() - 1] == '}' {
        match comma_scan(t.subrange(1, t.len() - 1), 0, 0, false, false, Seq::empty()) {
            Err(e) => Err(e),
            Ok(parts) => table_entries(parts, 0, Seq::empty()),
        }
    } else {
        Err("expected inline table, got "@ + value)
    }
}

/// The match that the entries `i..` build on `m`.
pub open spec fn match_entries(es: Seq<(Seq<char>, Seq<char>)>, i: int, m: MatchView) -> Result<
    MatchView,
    Seq<char>,
>
    decreases es.len() - i,
{
    if i < 0 || i >= es.len() {
        Ok(m)
    } else {
        let (k, v) = es[i];
        if k == "category"@ {
            match_entries(es, i + 1, MatchView { category: v, ..m })
        } else if k == "severity_at_least"@ {
            match_entries(es, i + 1, MatchView { severity_at_least: v, ..m })
        } else if k == "reason_regex"@ {
            match_entries(es, i + 1, MatchView { reason_regex: v, ..m })
        } else if k == "vm_regex"@ {
            match_entries(es, i + 1, MatchView { vm_regex: v, ..m })
        } else if k == "trap_type"@ {
            match_entries(es, i + 1, MatchView { trap_type: v, ..m })
        } else {
            Err("unknown match key '"@ + k + "'"@)
        }
    }
}

/// The action that the entries `i..` build on `a`.
pub open spec fn action_entries(es: Seq<(Seq<char>, Seq<char>)>, i: int, a: ActionView) -> Result<
    ActionView,
    Seq<char>,
>
    decreases es.len() - i,
{
    if i < 0 || i >= es.len() {
        Ok(a)
    } else {
        let (k, v) = es[i];
        if k == "kind"@ {
            action_entries(es, i + 1, ActionView { kind: v, ..a })
        } else if k == "output_path"@ {
            action_entries(es, i + 1, ActionView { output_path: v, ..a })
        } else if k == "nic"@ {
            action_entries(es, i + 1, ActionView { nic: v, ..a })
        } else {
            Err("unknown action key '"@ + k + "'"@)
        }
    }
}

pub open spec fn match_inline(value: Seq<char>) -> Result<MatchView, Seq<char>> {
    match inline_table(value) {
        Err(e) => Err(e),
        Ok(es) => match_entries(es, 0, default_match_view()),
    }
}

pub open spec fn action_inline(value: Seq<char>) -> Result<ActionView, Seq<char>> {
    match inline_table(value) {
        Err(e) => Err(e),
        Ok(es) => action_entries(es, 0, default_action_view()),
    }
}

/// Where the inline table that opens at `start` ends (after its `}`).
pub open spec fn table_end_scan(s: Seq<char>, start: int, i: int, in_str: bool, escape: bool) -> Result<
    int,
    Seq<char>,
>
    decreases s.len() - i,
{
    if i >= s.len() {
        if escape {
            Err("unterminated escape in action table"@)
        } else if in_str {
            Err("unterminated string in action table"@)
        } else {
            Err("unterminated action table"@)
        }
    } else {
        let c = s[i];
        if escape {
            table_end_scan(s, start, i + 1, in_str, false)
        } else if c == '\\' && in_str {
            table_end_scan(s, start, i + 1, in_str, true)
        } else if c == '"' {
            table_end_scan(s, start, i + 1, !in_str, false)
        } else if c == '{' && !in_str && i != start {
            Err("nested inline tables are not supported"@)
        } else if c == '[' && !in_str {
            Err("nested arrays are not supported"@)
        } else if c == '}' && !in_str {
            Ok(i + 1)
        } else {
            table_end_scan(s, start, i + 1, in_str, false)
        }
    }
}

/// The actions of an actions array from `pos` on.
pub open spec fn action_items(s: Seq<char>, pos: int, acc: Seq<ActionView>) -> Result<
    Seq<ActionView>,
    Seq<char>,
>
    decreases s.len() - pos,
{
    if pos < 0 || pos >= s.len() {
        Ok(acc)
    } else if s[pos] != '{' {
        Err("actions array entries must be inline action tables"@)
    } else {
        match table_end_scan(s, pos, pos, false, false) {
            Err(e) => Err(e),
            Ok(e) => match action_inline(s.subrange(pos, e)) {
                Err(x) => Err(x),
                Ok(a) => {
                    let r = skip_ws(s, e);
                    if r >= s.len() {
                        Ok(acc.push(a))
                    } else if s[r] != ',' {
                        Err("expected comma between actions array entries"@)
                    } else {
                        let r2 = skip_ws(s, r + 1);
                        if r2 >= s.len() {
                            Err("trailing comma in actions array"@)
                        } else if pos < r2 {
                            action_items(s, r2, acc.push(a))
                        } else {
                            Ok(acc.push(a))
                        }
                    }
                },
            },
        }
    }
}

/// `[{...}, {...}]`.
pub open spec fn actions_array(value: Seq<char>) -> Result<Seq<ActionView>, Seq<char>> {
    let t = trim(value);
    if t.len() >= 2 && t[0] == '[' && t[t.len() - 1] == ']' {
        let rest = trim(t.subrange(1, t.len() - 1));
        if rest.len() == 0 {
            Ok(Seq::empty())
        } else {
            action_items(rest, 0, Seq::empty())
        }
    } else {
        Err("actions must be an array"@)
    }
}

// ---------------------------------------------------------------------------
// Settings of each section
// ---------------------------------------------------------------------------

pub open spec fn u64_value(v: Seq<char>) -> Option<u64> {
    match parse_unsigned(v, u64::MAX as nat) {
        Some(n) => Some(n as u64),
        None => None,
    }
}

pub open spec fn usize_value(v: Seq<char>) -> Option<usize> {
    match parse_unsigned(v, usize::MAX as nat) {
        Some(n) => Some(n as usize),
        None => None,
    }
}

pub open spec fn u32_value(v: Seq<char>) -> Option<u32> {
    match parse_unsigned(v, u32::MAX as nat) {
        Some(n) => Some(n as u32),
        None => None,
    }
}

pub open spec fn i32_value(v: Seq<char>) -> Option<i32> {
    match parse_signed(v, i32::MAX as nat) {
        Some(n) => Some(n as i32),
        None => None,
    }
}

pub open spec fn unknown_key(section: Seq<char>, key: Seq<char>) -> Seq<char> {
    "unknown "@ + section + " key '"@ + key + "'"@
}

pub open spec fn set_root(version: u32, key: Seq<char>, v: Seq<char>) -> Result<u32, Seq<char>> {
    if key == "version"@ {
        match u32_value(v) {
            Some(n) => Ok(n),
            None => Err("invalid version"@),
        }
    } else {
        Err("unknown root key '"@ + key + "'"@)
    }
}

pub open spec fn set_general(g: General, key: Seq<char>, v: Seq<char>) -> Result<General, Seq<char>> {
    if key == "wx_window_ms"@ {
        match u64_value(v) {
            Some(n) => Ok(General { wx_window_ms: n, ..g }),
            None => Err("invalid wx_window_ms"@),
        }
    } else if key == "wx_cooldown_ms"@ {
        match u64_value(v) {
            Some(n) => Ok(General { wx_cooldown_ms: n, ..g }),
            None => Err("invalid wx_cooldown_ms"@),
        }
    } else if key == "wx_max_pages"@ {
        match usize_value(v) {
            Some(n) => Ok(General { wx_max_pages: n, ..g }),
            None => Err("invalid wx_max_pages"@),
        }
    } else if key == "page_size"@ {
        match u64_value(v) {
            Some(n) => Ok(General { page_size: n, ..g }),
            None => Err("invalid page_size"@),
        }
    } else if key == "flush_every"@ {
        match usize_value(v) {
            Some(n) => Ok(General { flush_every: n, ..g }),
            None => Err("invalid flush_every"@),
        }
    } else if key == "quiet"@ {
        match bool_value(v) {
            Some(b) => Ok(General { quiet: b, ..g }),
            None => Err("invalid quiet"@),
        }
    } else {
        Err(unknown_key("general"@, key))
    }
}

pub open spec fn set_allow(ignore_vm: Seq<Seq<char>>, key: Seq<char>, v: Seq<char>) -> Result<
    Seq<Seq<char>>,
    Seq<char>,
> {
    if key == "ignore_vm"@ {
        string_array(v)
    } else {
        Err(unknown_key("allow"@, key))
    }
}

pub open spec fn set_pmu(p: PmuView, key: Seq<char>, v: Seq<char>) -> Result<PmuView, Seq<char>> {
    if key == "enable"@ {
        match bool_value(v) {
            Some(b) => Ok(PmuView { enable: b, ..p }),
            None => Err("invalid pmu.enable"@),
        }
    } else if key == "sample_ms"@ {
        match u64_value(v) {
            Some(n) => Ok(PmuView { sample_ms: n, ..p }),
            None => Err("invalid pmu.sample_ms"@),
        }
    } else if key == "qemu_pid"@ {
        match i32_value(v) {
            Some(n) => Ok(PmuView { qemu_pid: n, ..p }),
            None => Err("invalid pmu.qemu_pid"@),
        }
    } else if key == "vm_regex"@ {
        Ok(PmuView { vm_regex: string_value(v), ..p })
    } else if key == "rediscover_ms"@ {
        match u64_value(v) {
            Some(n) => Ok(PmuView { rediscover_ms: n, ..p }),
            None => Err("invalid pmu.rediscover_ms"@),
        }
    } else {
        Err(unknown_key("pmu"@, key))
    }
}

pub open spec fn set_metrics(m: MetricsConfig, key: Seq<char>, v: Seq<char>) -> Result<
    MetricsConfig,
    Seq<char>,
> {
    if key == "allow_bind_failure"@ {
        match bool_value(v) {
            Some(b) => Ok(MetricsConfig { allow_bind_failure: b }),
            None => Err("invalid metrics.allow_bind_failure"@),
        }
    } else {
        Err(unknown_key("metrics"@, key))
    }
}

pub open spec fn compression_value(v: Seq<char>) -> Result<SpoolCompression, Seq<char>> {
    let p = string_value(v);
    if p == "none"@ {
        Ok(SpoolCompression::NoCompression)
    } else if p == "rle"@ {
        Ok(SpoolCompression::Rle)
    } else {
        Err("invalid spool.compression '"@ + p + "': expected \"none\" or \"rle\""@)
    }
}

pub open spec fn set_spool(sp: SpoolView, key: Seq<char>, v: Seq<char>) -> Result<SpoolView, Seq<char>> {
    if key == "enable"@ {
        match bool_value(v) {
            Some(b) => Ok(SpoolView { enable: b, ..sp }),
            None => Err("invalid spool.enable"@),
        }
    } else if key == "dir"@ {
        Ok(SpoolView { dir: string_value(v), ..sp })
    } else if key == "max_bytes"@ {
        match u64_value(v) {
            Some(n) => Ok(SpoolView { max_bytes: n, ..sp }),
            None => Err("invalid spool.max_bytes"@),
        }
    } else if key == "segment_bytes"@ {
        match u64_value(v) {
            Some(n) => Ok(SpoolView { segment_bytes: n, ..sp }),
            None => Err("invalid spool.segment_bytes"@),
        }
    } else if key == "compression"@ {
        match compression_value(v) {
            Ok(c) => Ok(SpoolView { compression: c, ..sp }),
            Err(e) => Err(e),
        }
    } else {
        Err(unknown_key("spool"@, key))
    }
}

pub open spec fn set_syslog(sl: SyslogView, key: Seq<char>, v: Seq<char>) -> Result<SyslogView, Seq<char>> {
    if key == "enable"@ {
        match bool_value(v) {
            Some(b) => Ok(SyslogView { enable: b, ..sl }),
            None => Err("invalid syslog.enable"@),
        }
    } else if key == "address"@ {
        Ok(SyslogView { address: string_value(v), ..sl })
    } else if key == "facility"@ {
        Ok(SyslogView { facility: string_value(v), ..sl })
    } else if key == "max_message_bytes"@ {
        match usize_value(v) {
            Some(n) => Ok(SyslogView { max_message_bytes: n, ..sl }),
            None => Err("invalid syslog.max_message_bytes"@),
        }
    } else {
        Err(unknown_key("syslog"@, key))
    }
}

pub open spec fn set_journald(j: JournaldView, key: Seq<char>, v: Seq<char>) -> Result<
    JournaldView,
    Seq<char>,
> {
    if key == "enable"@ {
        match bool_value(v) {
            Some(b) => Ok(JournaldView { enable: b, ..j }),
            None => Err("invalid journald.enable"@),
        }
    } else if key == "socket"@ {
        Ok(JournaldView { socket: string_value(v), ..j })
    } else if key == "identifier"@ {
        Ok(JournaldView { identifier: string_value(v), ..j })
    } else if key == "max_message_bytes"@ {
        match usize_value(v) {
            Some(n) => Ok(JournaldView { max_message_bytes: n, ..j }),
            None => Err("invalid journald.max_message_bytes"@),
        }
    } else {
        Err(unknown_key("journald"@, key))
    }
}

pub open spec fn confidence_value(v: Seq<char>) -> Result<IdentityConfidence, Seq<char>> {
    let p = string_value(v);
    if p == "medium"@ {
        Ok(IdentityConfidence::Medium)
    } else if p == "high"@ {
        Ok(IdentityConfidence::High)
    } else if p == "low"@ {
        Err("invalid identity.min_action_confidence: low confidence cannot authorize QMP actions"@)
    } else {
        Err("invalid identity.min_action_confidence '"@ + p + "': expected \"medium\" or \"high\""@)
    }
}

pub open spec fn set_identity(i: IdentityView, key: Seq<char>, v: Seq<char>) -> Result<
    IdentityView,
    Seq<char>,
> {
    if key == "enable"@ {
        match bool_value(v) {
            Some(b) => Ok(IdentityView { enable: b, ..i }),
            None => Err("invalid identity.enable"@),
        }
    } else if key == "cache_ms"@ {
        match u64_value(v) {
            Some(n) => Ok(IdentityView { cache_ms: n, ..i }),
            None => Err("invalid identity.cache_ms"@),
        }
    } else if key == "qmp_socket_dirs"@ {
        match string_array(v) {
            Ok(d) => Ok(IdentityView { qmp_socket_dirs: d, ..i }),
            Err(e) => Err(e),
        }
    } else if key == "libvirt_xml_dir"@ {
        Ok(IdentityView { libvirt_xml_dir: string_value(v), ..i })
    } else if key == "require_stable_qmp_match"@ {
        match bool_value(v) {
            Some(b) => Ok(IdentityView { require_stable_qmp_match: b, ..i }),
            None => Err("invalid identity.require_stable_qmp_match"@),
        }
    } else if key == "min_action_confidence"@ {
        match confidence_value(v) {
            Ok(c) => Ok(IdentityView { min_action_confidence: c, ..i }),
            Err(e) => Err(e),
        }
    } else {
        Err(unknown_key("identity"@, key))
    }
}

pub open spec fn set_actions(a: ActionsView, key: Seq<char>, v: Seq<char>) -> Result<
    ActionsView,
    Seq<char>,
> {
    if key == "timeout_ms"@ {
        match u64_value(v) {
            Some(n) => Ok(ActionsView { timeout_ms: n, ..a }),
            None => Err("invalid actions.timeout_ms"@),
        }
    } else if key == "retries"@ {
        match u32_value(v) {
            Some(n) => Ok(ActionsView { retries: n, ..a }),
            None => Err("invalid actions.retries"@),
        }
    } else if key == "dump_root"@ {
        Ok(ActionsView { dump_root: string_value(v), ..a })
    } else {
        Err(unknown_key("actions"@, key))
    }
}

pub open spec fn set_qmp(q: QmpView, key: Seq<char>, v: Seq<char>) -> Result<QmpView, Seq<char>> {
    if key == "vm_id"@ {
        Ok(QmpView { vm_id: string_value(v), ..q })
    } else if key == "vm"@ {
        Ok(QmpView { vm: string_value(v), ..q })
    } else if key == "socket"@ {
        Ok(QmpView { socket: string_value(v), ..q })
    } else {
        Err(unknown_key("actions.qmp"@, key))
    }
}

pub open spec fn set_wx(w: WxEntryView, key: Seq<char>, v: Seq<char>) -> Result<WxEntryView, Seq<char>> {
    if key == "vm"@ {
        Ok(WxEntryView { vm: string_value(v), ..w })
    } else if key == "gpa_prefix"@ {
        Ok(WxEntryView { gpa_prefix: string_value(v), ..w })
    } else {
        Err(unknown_key("wx_allow.entries"@, key))
    }
}

pub open spec fn set_rule(r: RuleView, key: Seq<char>, v: Seq<char>) -> Result<RuleView, Seq<char>> {
    if key == "name"@ {
        Ok(RuleView { name: string_value(v), ..r })
    } else if key == "id"@ {
        Ok(RuleView { id: string_value(v), ..r })
    } else if key == "priority"@ {
        match i32_value(v) {
            Some(n) => Ok(RuleView { priority: n, ..r }),
            None => Err("invalid rule.priority"@),
        }
    } else if key == "cooldown_ms"@ {
        match u64_value(v) {
            Some(n) => Ok(RuleView { cooldown_ms: n, ..r }),
            None => Err("invalid rule.cooldown_ms"@),
        }
    } else if key == "mode"@ {
        Ok(RuleView { mode: string_value(v), ..r })
    } else if key == "enabled"@ {
        match bool_value(v) {
            Some(b) => Ok(RuleView { enabled: b, ..r }),
            None => Err("invalid rule.enabled"@),
        }
    } else if key == "match"@ {
        match match_inline(v) {
            Ok(m) => Ok(RuleView { match_: m, ..r }),
            Err(e) => Err(e),
        }
    } else if key == "action"@ {
        match action_inline(v) {
            Ok(a) => Ok(RuleView { action: Some(a), ..r }),
            Err(e) => Err(e),
        }
    } else if key == "actions"@ {
        match actions_array(v) {
            Ok(l) => Ok(RuleView { actions: l, ..r }),
            Err(e) => Err(e),
        }
    } else {
        Err(unknown_key("policy.rules"@, key))
    }
}

// ---------------------------------------------------------------------------
// The document
// ---------------------------------------------------------------------------

/// What the parser holds between lines.
pub struct ParseState {
    pub cfg: ConfigView,
    pub section: Seq<char>,
    pub rule: Option<RuleView>,
    pub qmp: Option<QmpView>,
    pub wx: Option<WxEntryView>,
    pub declared: Seq<Seq<char>>,
    pub seen: Seq<Seq<char>>,
}

pub open spec fn initial_state() -> ParseState {
    ParseState {
        cfg: default_config_view(),
        section: Seq::empty(),
        rule: None,
        qmp: None,
        wx: None,
        declared: Seq::empty(),
        seen: Seq::empty(),
    }
}

/// The configuration with the open array entries appended.
pub open spec fn flushed(st: ParseState) -> ConfigView {
    let c = st.cfg;
    let rules = match st.rule {
        Some(r) => c.rules.push(r),
        None => c.rules,
    };
    let qmp = match st.qmp {
        Some(q) => c.actions.qmp.push(q),
        None => c.actions.qmp,
    };
    let wx = match st.wx {
        Some(w) => c.wx_entries.push(w),
        None => c.wx_entries,
    };
    ConfigView { rules: rules, actions: ActionsView { qmp: qmp, ..c.actions }, wx_entries: wx, ..c }
}

/// The state after a section header.
pub open spec fn enter_section(st: ParseState, h: Heading) -> Result<ParseState, Seq<char>> {
    let base = ParseState {
        cfg: flushed(st),
        rule: None,
        qmp: None,
        wx: None,
        seen: Seq::empty(),
        ..st
    };
    match h {
        Heading::Table(name) => if !supported_table(name) {
            Err("unsupported section ["@ + name + "]"@)
        } else if st.declared.contains(name) {
            Err("duplicate section ["@ + name + "]"@)
        } else {
            Ok(ParseState { section: name, declared: st.declared.push(name), ..base })
        },
        Heading::Array(name) => if name == "policy.rules"@ {
            Ok(ParseState { section: name, rule: Some(default_rule_view()), ..base })
        } else if name == "actions.qmp"@ {
            Ok(
                ParseState {
                    section: name,
                    qmp: Some(QmpView { vm_id: Seq::empty(), vm: Seq::empty(), socket: Seq::empty() }),
                    ..base
                },
            )
        } else if name == "wx_allow.entries"@ {
            Ok(
                ParseState {
                    section: name,
                    wx: Some(WxEntryView { vm: Seq::empty(), gpa_prefix: Seq::empty() }),
                    ..base
                },
            )
        } else {
            Err("unsupported array section [["@ + name + "]]"@)
        },
    }
}

/// The state after `key = value` in the current section.
pub open spec fn assign(st: ParseState, key: Seq<char>, v: Seq<char>) -> Result<ParseState, Seq<char>> {
    let c = st.cfg;
    let sec = st.section;
    if sec.len() == 0 {
        match set_root(c.version, key, v) {
            Ok(x) => Ok(ParseState { cfg: ConfigView { version: x, ..c }, ..st }),
            Err(e) => Err(e),
        }
    } else if sec == "general"@ {
        match set_general(c.general, key, v) {
            Ok(x) => Ok(ParseState { cfg: ConfigView { general: x, ..c }, ..st }),
            Err(e) => Err(e),
        }
    } else if sec == "allow"@ {
        match set_allow(c.ignore_vm, key, v) {
            Ok(x) => Ok(ParseState { cfg: ConfigView { ignore_vm: x, ..c }, ..st }),
            Err(e) => Err(e),
        }
    } else if sec == "pmu"@ {
        match set_pmu(c.pmu, key, v) {
            Ok(x) => Ok(ParseState { cfg: ConfigView { pmu: x, ..c }, ..st }),
            Err(e) => Err(e),
        }
    } else if sec == "metrics"@ {
        match set_metrics(c.metrics, key, v) {
            Ok(x) => Ok(ParseState { cfg: ConfigView { metrics: x, ..c }, ..st }),
            Err(e) => Err(e),
        }
    } else if sec == "spool"@ {
        match set_spool(c.spool, key, v) {
            Ok(x) => Ok(ParseState { cfg: ConfigView { spool: x, ..c }, ..st }),
            Err(e) => Err(e),
        }
    } else if sec == "syslog"@ {
        match set_syslog(c.syslog, key, v) {
            Ok(x) => Ok(ParseState { cfg: ConfigView { syslog: x, ..c }, ..st }),
            Err(e) => Err(e),
        }
    } else if sec == "journald"@ {
        match set_journald(c.journald, key, v) {
            Ok(x) => Ok(ParseState { cfg: ConfigView { journald: x, ..c }, ..st }),
            Err(e) => Err(e),
        }
    } else if sec == "identity"@ {
        match set_identity(c.identity, key, v) {
            Ok(x) => Ok(ParseState { cfg: ConfigView { identity: x, ..c }, ..st }),
            Err(e) => Err(e),
        }
    } else if sec == "actions"@ {
        match set_actions(c.actions, key, v) {
            Ok(x) => Ok(ParseState { cfg: ConfigView { actions: x, ..c }, ..st }),
            Err(e) => Err(e),
        }
    } else if sec == "actions.qmp"@ {
        match st.qmp {
            Some(q) => match set_qmp(q, key, v) {
                Ok(x) => Ok(ParseState { qmp: Some(x), ..st }),
                Err(e) => Err(e),
            },
            None => Err("internal qmp parser state"@),
        }
    } else if sec == "wx_allow.entries"@ {
        match st.wx {
            Some(w) => match set_wx(w, key, v) {
                Ok(x) => Ok(ParseState { wx: Some(x), ..st }),
                Err(e) => Err(e),
            },
            None => Err("internal wx parser state"@),
        }
    } else if sec == "policy.rules"@ {
        match st.rule {
            Some(r) => match set_rule(r, key, v) {
                Ok(x) => Ok(ParseState { rule: Some(x), ..st }),
                Err(e) => Err(e),
            },
            None => Err("internal rule parser state"@),
        }
    } else {
        Err("unsupported section ["@ + sec + "]"@)
    }
}

/// The state after line number `n` (1-based), whose text is `raw`.
#[verifier::opaque]
pub open spec fn parse_line(st: ParseState, raw: Seq<char>, n: nat) -> Result<ParseState, Seq<char>> {
    match comment_scan(raw, 0, false, false) {
        Err(e) => Err(line_error(n, e)),
        Ok(cut) => {
            let line = trim(raw.take(cut));
            if line.len() == 0 {
                Ok(st)
            } else {
                match heading_of(line) {
                    Some(Err(e)) => Err(line_error(n, e)),
                    Some(Ok(h)) => match enter_section(st, h) {
                        Ok(x) => Ok(x),
                        Err(e) => Err(line_error(n, e)),
                    },
                    None => match key_value(line) {
                        Err(e) => Err(line_error(n, e)),
                        Ok((key, v)) => if st.seen.contains(key) {
                            Err(
                                line_error(
                                    n,
                                    "duplicate key '"@ + key + "' in ["@ + section_label(st.section)
                                        + "]"@,
                                ),
                            )
                        } else {
                            match assign(ParseState { seen: st.seen.push(key), ..st }, key, v) {
                                Ok(x) => Ok(x),
                                Err(e) => Err(line_error(n, e)),
                            }
                        },
                    },
                }
            }
        },
    }
}

/// The state after the first `k` lines.
pub open spec fn parse_lines(lines: Seq<Seq<char>>, k: nat) -> Result<ParseState, Seq<char>>
    decreases k,
{
    if k == 0 {
        Ok(initial_state())
    } else {
        match parse_lines(lines, (k - 1) as nat) {
            Err(e) => Err(e),
            Ok(st) => parse_line(st, lines[k - 1], k),
        }
    }
}

/// The configuration a text describes, or the first error in it.
pub open spec fn config_text(s: Seq<char>) -> Result<ConfigView, Seq<char>> {
    let lines = lines_of(s);
    match parse_lines(lines, lines.len()) {
        Err(e) => Err(e),
        Ok(st) => Ok(flushed(st)),
    }
}

// ---------------------------------------------------------------------------
// Executable scanners
// ---------------------------------------------------------------------------

/// `v[lo..hi]` as its own vector.
fn sub_chars(v: &[char], lo: usize, hi: usize) -> (r: Vec<char>)
    requires
        lo <= hi <= v@.len(),
    ensures
        r@ == v@.subrange(lo as int, hi as int),
{
    let mut r: Vec<char> = Vec::new();
    let mut i = lo;
    while i < hi
        invariant
            lo <= i <= hi <= v@.len(),
            r@ == v@.subrange(lo as int, i as int),
        decreases hi - i,
    {
        r.push(v[i]);
        i = i + 1;
        assert(r@ =~= v@.subrange(lo as int, i as int));
    }
    r
}

/// `trim(v[lo..hi])` as its own vector.
fn trimmed(v: &[char], lo: usize, hi: usize) -> (r: Vec<char>)
    requires
        lo <= hi <= v@.len(),
    ensures
        r@ == trim(v@.subrange(lo as int, hi as int)),
{
    let (a, b) = trim_bounds(v, lo, hi);
    sub_chars(v, a, b)
}

fn line_error_exec(n: usize, detail: &str) -> (r: String)
    ensures
        r@ == line_error(n as nat, detail@),
{
    let num = u64_to_dec(n as u64);
    let mut r = cat3("line ", num.as_str(), ": ");
    push_str(&mut r, detail);
    r
}

/// Where the content of `v` ends before a comment.
fn comment_cut(v: &[char]) -> (r: Result<usize, String>)
    ensures
        match r {
            Ok(c) => comment_scan(v@, 0, false, false) == Ok::<int, Seq<char>>(c as int),
            Err(e) => comment_scan(v@, 0, false, false) == Err::<int, Seq<char>>(e@),
        },
{
    let mut i: usize = 0;
    let mut in_str = false;
    let mut escape = false;
    while i < v.len()
        invariant
            i <= v@.len(),
            comment_scan(v@, i as int, in_str, escape) == comment_scan(v@, 0, false, false),
        decreases v@.len() - i,
    {
        let c = v[i];
        if escape {
            escape = false;
        } else if c == '\\' && in_str {
            escape = true;
        } else if c == '"' {
            in_str = !in_str;
        } else if c == '#' && !in_str {
            return Ok(i);
        }
        i = i + 1;
    }
    if escape {
        Err(owned("unterminated escape in string"))
    } else if in_str {
        Err(owned("unterminated string"))
    } else {
        Ok(v.len())
    }
}

/// The position of the first `=` outside strings.
fn eq_position(v: &[char]) -> (r: Option<usize>)
    ensures
        match r {
            Some(i) => eq_scan(v@, 0, false, false) == Some(i as int),
            None => eq_scan(v@, 0, false, false) is None,
        },
{
    let mut i: usize = 0;
    let mut in_str = false;
    let mut escape = false;
    while i < v.len()
        invariant
            i <= v@.len(),
            eq_scan(v@, i as int, in_str, escape) == eq_scan(v@, 0, false, false),
        decreases v@.len() - i,
    {
        let c = v[i];
        if escape {
            escape = false;
        } else if c == '\\' && in_str {
            escape = true;
        } else if c == '"' {
            in_str = !in_str;
        } else if c == '=' && !in_str {
            return Some(i);
        }
        i = i + 1;
    }
    None
}

proof fn lemma_eq_scan_range(s: Seq<char>, i: int, in_str: bool, escape: bool)
    requires
        0 <= i,
    ensures
        eq_scan(s, i, in_str, escape) matches Some(j) ==> i <= j < s.len(),
    decreases s.len() - i,
{
    if i < s.len() {
        lemma_eq_scan_range(s, i + 1, in_str, false);
        lemma_eq_scan_range(s, i + 1, in_str, true);
        lemma_eq_scan_range(s, i + 1, !in_str, false);
    }
}

/// Splits `key = value`.
fn split_key_value(line: &[char]) -> (r: Result<(Vec<char>, Vec<char>), String>)
    ensures
        match r {
            Ok((k, v)) => key_value(line@) == Ok::<(Seq<char>, Seq<char>), Seq<char>>((k@, v@)),
            Err(e) => key_value(line@) == Err::<(Seq<char>, Seq<char>), Seq<char>>(e@),
        },
{
    match eq_position(line) {
        None => Err(owned("expected key = value assignment")),
        Some(i) => {
            proof {
                lemma_eq_scan_range(line@, 0, false, false);
            }
            let n = line.len();
            let key = trimmed(line, 0, i);
            let value = trimmed(line, i + 1, n);
            proof {
                assert(line@.take(i as int) =~= line@.subrange(0, i as int));
                assert(line@.skip(i as int + 1) =~= line@.subrange(i as int + 1, line@.len() as int));
            }
            if key.len() == 0 {
                Err(owned("empty config key"))
            } else if value.len() == 0 {
                let k = string_of(&key);
                Err(cat3("missing value for key '", k.as_str(), "'"))
            } else {
                Ok((key, value))
            }
        },
    }
}

/// Whether `c` occurs in `v`.
fn has_char(v: &[char], c: char) -> (r: bool)
    ensures
        r == v@.contains(c),
{
    let mut i: usize = 0;
    while i < v.len()
        invariant
            i <= v@.len(),
            forall|k: int| 0 <= k < i ==> v@[k] != c,
        decreases v@.len() - i,
    {
        if v[i] == c {
            assert(v@[i as int] == c);
            return true;
        }
        i = i + 1;
    }
    false
}

/// A section header as the parser reads it.
enum SectionHeader {
    Table(Vec<char>),
    Array(Vec<char>),
}

spec fn header_view(h: SectionHeader) -> Heading {
    match h {
        SectionHeader::Table(n) => Heading::Table(n@),
        SectionHeader::Array(n) => Heading::Array(n@),
    }
}

/// Reads a header line (one that starts with `[`).
fn parse_heading(line: &[char]) -> (r: Result<SectionHeader, String>)
    requires
        line@.len() > 0,
        line@[0] == '[',
    ensures
        match r {
            Ok(h) => heading_of(line@) == Some(Ok::<Heading, Seq<char>>(header_view(h))),
            Err(e) => heading_of(line@) == Some(Err::<Heading, Seq<char>>(e@)),
        },
{
    let n = line.len();
    if n >= 2 && line[1] == '[' {
        if n >= 4 && line[n - 1] == ']' && line[n - 2] == ']' {
            let name = trimmed(line, 2, n - 2);
            if name.len() > 0 && !has_char(&name, '[') && !has_char(&name, ']') {
                Ok(SectionHeader::Array(name))
            } else {
                Err(owned("malformed section header"))
            }
        } else {
            Err(owned("malformed array section header"))
        }
    } else if n >= 2 && line[n - 1] == ']' {
        let name = trimmed(line, 1, n - 1);
        if name.len() > 0 && !has_char(&name, '[') && !has_char(&name, ']') {
            Ok(SectionHeader::Table(name))
        } else {
            Err(owned("malformed section header"))
        }
    } else {
        Err(owned("malformed section header"))
    }
}

fn bool_value_exec(v: &[char]) -> (r: Option<bool>)
    ensures
        r == bool_value(v@),
{
    if eq_lit(v, "true") {
        Some(true)
    } else if eq_lit(v, "false") {
        Some(false)
    } else {
        None
    }
}

fn string_value_exec(v: &[char]) -> (r: String)
    ensures
        r@ == string_value(v@),
{
    let t = trimmed(v, 0, v.len());
    assert(v@.subrange(0, v@.len() as int) =~= v@);
    let n = t.len();
    if n >= 2 && t[0] == '"' && t[n - 1] == '"' {
        let inner = sub_chars(&t, 1, n - 1);
        string_of(&inner)
    } else {
        string_of(&t)
    }
}


proof fn lemma_quoted_scan_end(s: Seq<char>, i: int, escape: bool, out: Seq<char>)
    requires
        0 <= i,
    ensures
        quoted_scan(s, i, escape, out) matches Ok((_, e)) ==> i < e <= s.len(),
    decreases s.len() - i,
{
    if i < s.len() {
        let c = s[i];
        lemma_quoted_scan_end(s, i + 1, false, out + unescape(c));
        lemma_quoted_scan_end(s, i + 1, true, out);
        lemma_quoted_scan_end(s, i + 1, false, out.push(c));
    }
}

proof fn lemma_skip_ws_range(s: Seq<char>, i: int)
    requires
        0 <= i <= s.len(),
    ensures
        i <= skip_ws(s, i) <= s.len(),
        skip_ws(s, i) < s.len() ==> !is_ws(s[skip_ws(s, i)]),
        trim_start(s.subrange(i, s.len() as int)) == s.subrange(skip_ws(s, i), s.len() as int),
    decreases s.len() - i,
{
    if i < s.len() && is_ws(s[i]) {
        lemma_skip_ws_range(s, i + 1);
        let t = s.subrange(i, s.len() as int);
        assert(t[0] == s[i]);
        assert(t.drop_first() =~= s.subrange(i + 1, s.len() as int));
    } else {
        let t = s.subrange(i, s.len() as int);
        if t.len() > 0 {
            assert(t[0] == s[i]);
        }
    }
}

/// The first position at or after `i` that holds no whitespace.
fn skip_ws_exec(v: &[char], i: usize) -> (r: usize)
    requires
        i <= v@.len(),
    ensures
        r as int == skip_ws(v@, i as int),
        i <= r <= v@.len(),
{
    proof {
        lemma_skip_ws_range(v@, i as int);
    }
    let mut j = i;
    while j < v.len() && char_is_ws(v[j])
        invariant
            i <= j <= v@.len(),
            skip_ws(v@, j as int) == skip_ws(v@, i as int),
        decreases v@.len() - j,
    {
        j = j + 1;
    }
    j
}

/// Reads the quoted string that opens at `start`.
fn quoted_from(v: &[char], start: usize) -> (r: Result<(String, usize), String>)
    requires
        start < v@.len(),
    ensures
        match r {
            Ok((t, e)) => quoted_at(v@, start as int) == Ok::<(Seq<char>, int), Seq<char>>(
                (t@, e as int),
            ),
            Err(x) => quoted_at(v@, start as int) == Err::<(Seq<char>, int), Seq<char>>(x@),
        },
{
    let n = v.len();
    let mut out = String::new();
    let mut i = start + 1;
    let mut escape = false;
    while i < v.len()
        invariant
            start < i <= v@.len(),
            quoted_scan(v@, i as int, escape, out@) == quoted_at(v@, start as int),
        decreases v@.len() - i,
    {
        let c = v[i];
        if escape {
            let ghost before = out@;
            if c == '"' {
                push_char(&mut out, '"');
            } else if c == 'n' {
                push_char(&mut out, '\n');
            } else if c == '\\' {
                push_char(&mut out, '\\');
            } else {
                push_char(&mut out, '\\');
                push_char(&mut out, c);
            }
            assert(out@ =~= before + unescape(c));
            escape = false;
        } else if c == '\\' {
            escape = true;
        } else if c == '"' {
            return Ok((out, i + 1));
        } else {
            push_char(&mut out, c);
        }
        i = i + 1;
    }
    if escape {
        Err(owned("unterminated escape in string"))
    } else {
        Err(owned("unterminated string"))
    }
}

/// `["a", "b"]` as a list of strings.
fn string_array_exec(value: &[char]) -> (r: Result<Vec<String>, String>)
    ensures
        match r {
            Ok(l) => string_array(value@) == Ok::<Seq<Seq<char>>, Seq<char>>(views(l@)),
            Err(e) => string_array(value@) == Err::<Seq<Seq<char>>, Seq<char>>(e@),
        },
{
    let t = trimmed(value, 0, value.len());
    assert(value@.subrange(0, value@.len() as int) =~= value@);
    let n = t.len();
    if !(n >= 2 && t[0] == '[' && t[n - 1] == ']') {
        return Err(owned("expected string array"));
    }
    let rest = trimmed(&t, 1, n - 1);
    let len = rest.len();
    let mut out: Vec<String> = Vec::new();
    if len == 0 {
        assert(views(out@) =~= Seq::<Seq<char>>::empty());
        return Ok(out);
    }
    let mut pos: usize = 0;
    assert(views(out@) =~= Seq::<Seq<char>>::empty());
    loop
        invariant
            len == rest@.len(),
            pos < len,
            array_items(rest@, pos as int, views(out@)) == string_array(value@),
        decreases len - pos,
    {
        if rest[pos] == ',' {
            return Err(owned("empty string array element"));
        }
        if rest[pos] != '"' {
            return Err(owned("string array elements must be quoted"));
        }
        match quoted_from(&rest, pos) {
            Err(e) => {
                return Err(e);
            },
            Ok((item, e)) => {
                proof {
                    lemma_quoted_scan_end(rest@, pos as int + 1, false, Seq::empty());
                }
                let r = skip_ws_exec(&rest, e);
                let ghost before = views(out@);
                out.push(item);
                assert(views(out@) =~= before.push(item@));
                if r >= len {
                    return Ok(out);
                }
                if rest[r] != ',' {
                    return Err(owned("expected comma between string array elements"));
                }
                let r2 = skip_ws_exec(&rest, r + 1);
                if r2 >= len {
                    return Err(owned("trailing comma in string array"));
                }
                pos = r2;
            },
        }
    }
}

fn has_bracket_exec(t: &[char]) -> (r: bool)
    ensures
        r == has_bracket(t@),
{
    let mut i: usize = 0;
    while i < t.len()
        invariant
            i <= t@.len(),
            forall|k: int|
                0 <= k < i ==> !(t@[k] == '[' || t@[k] == ']' || t@[k] == '{' || t@[k] == '}'),
        decreases t@.len() - i,
    {
        let c = t[i];
        if c == '[' || c == ']' || c == '{' || c == '}' {
            assert(t@[i as int] == c);
            return true;
        }
        i = i + 1;
    }
    false
}

/// A value inside an inline table.
fn inline_value_exec(v: &[char]) -> (r: Result<String, String>)
    ensures
        match r {
            Ok(x) => inline_value(v@) == Ok::<Seq<char>, Seq<char>>(x@),
            Err(e) => inline_value(v@) == Err::<Seq<char>, Seq<char>>(e@),
        },
{
    let t = trimmed(v, 0, v.len());
    assert(v@.subrange(0, v@.len() as int) =~= v@);
    if t.len() > 0 && t[0] == '"' {
        match quoted_from(&t, 0) {
            Err(e) => Err(e),
            Ok((p, e)) => {
                proof {
                    lemma_quoted_scan_end(t@, 1, false, Seq::empty());
                    assert(t@.skip(e as int) =~= t@.subrange(e as int, t@.len() as int));
                }
                let after = trimmed(&t, e, t.len());
                if after.len() > 0 {
                    Err(owned("unexpected content after quoted string"))
                } else {
                    Ok(p)
                }
            },
        }
    } else if t.len() == 0 {
        Err(owned("empty inline value"))
    } else if has_bracket_exec(&t) {
        Err(owned("nested inline syntax is not supported"))
    } else {
        Ok(string_value_exec(&t))
    }
}

/// The comma-separated parts of the inside of an inline table.
fn comma_parts(s: &[char]) -> (r: Result<Vec<String>, String>)
    ensures
        match r {
            Ok(l) => comma_scan(s@, 0, 0, false, false, Seq::empty()) == Ok::<
                Seq<Seq<char>>,
                Seq<char>,
            >(views(l@)),
            Err(e) => comma_scan(s@, 0, 0, false, false, Seq::empty()) == Err::<
                Seq<Seq<char>>,
                Seq<char>,
            >(e@),
        },
{
    let n = s.len();
    let mut parts: Vec<String> = Vec::new();
    let mut i: usize = 0;
    let mut start: usize = 0;
    let mut in_str = false;
    let mut escape = false;
    assert(views(parts@) =~= Seq::<Seq<char>>::empty());
    while i < n
        invariant
            n == s@.len(),
            start <= i <= n,
            comma_scan(s@, i as int, start as int, in_str, escape, views(parts@)) == comma_scan(
                s@,
                0,
                0,
                false,
                false,
                Seq::empty(),
            ),
        decreases n - i,
    {
        let c = s[i];
        if escape {
            escape = false;
        } else if c == '\\' && in_str {
            escape = true;
        } else if c == '"' {
            in_str = !in_str;
        } else if c == ',' && !in_str {
            let cur = trimmed(s, start, i);
            if cur.len() == 0 {
                return Err(owned("empty inline table entry"));
            }
            let ghost before = views(parts@);
            parts.push(string_of(&cur));
            assert(views(parts@) =~= before.push(cur@));
            start = i + 1;
        }
        i = i + 1;
    }
    if escape {
        return Err(owned("unterminated escape in inline table"));
    }
    if in_str {
        return Err(owned("unterminated string in inline table"));
    }
    let cur = trimmed(s, start, n);
    if cur.len() == 0 {
        let all = trimmed(s, 0, n);
        assert(s@.subrange(0, n as int) =~= s@);
        if all.len() == 0 {
            Ok(parts)
        } else {
            Err(owned("trailing comma in inline table"))
        }
    } else {
        let ghost before = views(parts@);
        parts.push(string_of(&cur));
        assert(views(parts@) =~= before.push(cur@));
        Ok(parts)
    }
}


/// The views of the entries of an inline table.
pub open spec fn pairs_view(es: Seq<(String, String)>) -> Seq<(Seq<char>, Seq<char>)> {
    es.map_values(|p: (String, String)| (p.0@, p.1@))
}

/// Whether `key` is already a key of `es`.
fn has_key_exec(es: &Vec<(String, String)>, key: &str) -> (r: bool)
    ensures
        r == has_key(pairs_view(es@), key@),
{
    let mut j: usize = 0;
    while j < es.len()
        invariant
            j <= es@.len(),
            forall|k: int| 0 <= k < j ==> es@[k].0@ != key@,
        decreases es@.len() - j,
    {
        if str_eq(es[j].0.as_str(), key) {
            assert(pairs_view(es@)[j as int].0 == key@);
            return true;
        }
        j = j + 1;
    }
    proof {
        if has_key(pairs_view(es@), key@) {
            let w = choose|k: int| 0 <= k < pairs_view(es@).len() && pairs_view(es@)[k].0 == key@;
            assert(es@[w].0@ == key@);
        }
    }
    false
}

/// `{ k = v, ... }` as its entries in order.
fn inline_table_exec(value: &[char]) -> (r: Result<Vec<(String, String)>, String>)
    ensures
        match r {
            Ok(es) => inline_table(value@) == Ok::<Seq<(Seq<char>, Seq<char>)>, Seq<char>>(
                pairs_view(es@),
            ),
            Err(e) => inline_table(value@) == Err::<Seq<(Seq<char>, Seq<char>)>, Seq<char>>(e@),
        },
{
    let t = trimmed(value, 0, value.len());
    assert(value@.subrange(0, value@.len() as int) =~= value@);
    let n = t.len();
    if !(n >= 2 && t[0] == '{' && t[n - 1] == '}') {
        let whole = string_of(value);
        let mut m = owned("expected inline table, got ");
        push_str(&mut m, whole.as_str());
        return Err(m);
    }
    let inner = sub_chars(&t, 1, n - 1);
    let parts = match comma_parts(&inner) {
        Err(e) => {
            return Err(e);
        },
        Ok(p) => p,
    };
    let ghost pv = views(parts@);
    let mut out: Vec<(String, String)> = Vec::new();
    let mut k: usize = 0;
    assert(pairs_view(out@) =~= Seq::<(Seq<char>, Seq<char>)>::empty());
    while k < parts.len()
        invariant
            k <= parts@.len(),
            pv == views(parts@),
            table_entries(pv, k as int, pairs_view(out@)) == inline_table(value@),
        decreases parts@.len() - k,
    {
        let pc = to_chars(parts[k].as_str());
        assert(pv[k as int] == pc@);
        match split_key_value(&pc) {
            Err(e) => {
                let mut m = cat3("invalid inline table part '", parts[k].as_str(), "': ");
                push_str(&mut m, e.as_str());
                return Err(m);
            },
            Ok((key, v)) => {
                let ks = string_of(&key);
                if has_key_exec(&out, ks.as_str()) {
                    return Err(cat3("duplicate inline key '", ks.as_str(), "'"));
                }
                match inline_value_exec(&v) {
                    Err(e) => {
                        return Err(e);
                    },
                    Ok(x) => {
                        let ghost before = pairs_view(out@);
                        out.push((ks, x));
                        assert(pairs_view(out@) =~= before.push((key@, x@)));
                    },
                }
            },
        }
        k = k + 1;
    }
    Ok(out)
}

/// The match that the entries of an inline table describe.
fn match_inline_exec(value: &[char]) -> (r: Result<Match, String>)
    ensures
        match r {
            Ok(m) => match_inline(value@) == Ok::<MatchView, Seq<char>>(m@),
            Err(e) => match_inline(value@) == Err::<MatchView, Seq<char>>(e@),
        },
{
    let es = match inline_table_exec(value) {
        Err(e) => {
            return Err(e);
        },
        Ok(es) => es,
    };
    let ghost ev = pairs_view(es@);
    let mut m = Match::default();
    proof {
        assert(m@ == default_match_view()) by {
            assert(m.category@ =~= Seq::<char>::empty());
            assert(m.severity_at_least@ =~= Seq::<char>::empty());
            assert(m.reason_regex@ =~= Seq::<char>::empty());
            assert(m.vm_regex@ =~= Seq::<char>::empty());
            assert(m.trap_type@ =~= Seq::<char>::empty());
        }
    }
    let mut i: usize = 0;
    while i < es.len()
        invariant
            i <= es@.len(),
            ev == pairs_view(es@),
            match_entries(ev, i as int, m@) == match_inline(value@),
        decreases es@.len() - i,
    {
        let k = es[i].0.as_str();
        let v = es[i].1.clone();
        assert(ev[i as int] == (k@, v@));
        if str_eq(k, "category") {
            m.category = v;
        } else if str_eq(k, "severity_at_least") {
            m.severity_at_least = v;
        } else if str_eq(k, "reason_regex") {
            m.reason_regex = v;
        } else if str_eq(k, "vm_regex") {
            m.vm_regex = v;
        } else if str_eq(k, "trap_type") {
            m.trap_type = v;
        } else {
            return Err(cat3("unknown match key '", k, "'"));
        }
        i = i + 1;
    }
    Ok(m)
}

/// The action that the entries of an inline table describe.
fn action_inline_exec(value: &[char]) -> (r: Result<Action, String>)
    ensures
        match r {
            Ok(a) => action_inline(value@) == Ok::<ActionView, Seq<char>>(a@),
            Err(e) => action_inline(value@) == Err::<ActionView, Seq<char>>(e@),
        },
{
    let es = match inline_table_exec(value) {
        Err(e) => {
            return Err(e);
        },
        Ok(es) => es,
    };
    let ghost ev = pairs_view(es@);
    let mut a = Action::default();
    proof {
        assert(a@ == default_action_view()) by {
            assert(a.kind@ =~= Seq::<char>::empty());
            assert(a.output_path@ =~= Seq::<char>::empty());
            assert(a.nic@ =~= Seq::<char>::empty());
        }
    }
    let mut i: usize = 0;
    while i < es.len()
        invariant
            i <= es@.len(),
            ev == pairs_view(es@),
            action_entries(ev, i as int, a@) == action_inline(value@),
        decreases es@.len() - i,
    {
        let k = es[i].0.as_str();
        let v = es[i].1.clone();
        assert(ev[i as int] == (k@, v@));
        if str_eq(k, "kind") {
            a.kind = v;
        } else if str_eq(k, "output_path") {
            a.output_path = v;
        } else if str_eq(k, "nic") {
            a.nic = v;
        } else {
            return Err(cat3("unknown action key '", k, "'"));
        }
        i = i + 1;
    }
    Ok(a)
}

proof fn lemma_table_end_range(s: Seq<char>, start: int, i: int, in_str: bool, escape: bool)
    requires
        0 <= i,
    ensures
        table_end_scan(s, start, i, in_str, escape) matches Ok(e) ==> i < e <= s.len(),
    decreases s.len() - i,
{
    if i < s.len() {
        lemma_table_end_range(s, start, i + 1, in_str, false);
        lemma_table_end_range(s, start, i + 1, in_str, true);
        lemma_table_end_range(s, start, i + 1, !in_str, false);
    }
}

/// Where the inline table that opens at `start` ends.
fn table_end(v: &[char], start: usize) -> (r: Result<usize, String>)
    requires
        start <= v@.len(),
    ensures
        match r {
            Ok(e) => table_end_scan(v@, start as int, start as int, false, false) == Ok::<
                int,
                Seq<char>,
            >(e as int),
            Err(x) => table_end_scan(v@, start as int, start as int, false, false) == Err::<
                int,
                Seq<char>,
            >(x@),
        },
{
    let mut i = start;
    let mut in_str = false;
    let mut escape = false;
    while i < v.len()
        invariant
            start <= i <= v@.len(),
            table_end_scan(v@, start as int, i as int, in_str, escape) == table_end_scan(
                v@,
                start as int,
                start as int,
                false,
                false,
            ),
        decreases v@.len() - i,
    {
        let c = v[i];
        if escape {
            escape = false;
        } else if c == '\\' && in_str {
            escape = true;
        } else if c == '"' {
            in_str = !in_str;
        } else if c == '{' && !in_str && i != start {
            return Err(owned("nested inline tables are not supported"));
        } else if c == '[' && !in_str {
            return Err(owned("nested arrays are not supported"));
        } else if c == '}' && !in_str {
            return Ok(i + 1);
        }
        i = i + 1;
    }
    if escape {
        Err(owned("unterminated escape in action table"))
    } else if in_str {
        Err(owned("unterminated string in action table"))
    } else {
        Err(owned("unterminated action table"))
    }
}

/// `[{...}, {...}]` as a list of actions.
fn actions_array_exec(value: &[char]) -> (r: Result<Vec<Action>, String>)
    ensures
        match r {
            Ok(l) => actions_array(value@) == Ok::<Seq<ActionView>, Seq<char>>(
                l@.map_values(|a: Action| a@),
            ),
            Err(e) => actions_array(value@) == Err::<Seq<ActionView>, Seq<char>>(e@),
        },
{
    let t = trimmed(value, 0, value.len());
    assert(value@.subrange(0, value@.len() as int) =~= value@);
    let n = t.len();
    if !(n >= 2 && t[0] == '[' && t[n - 1] == ']') {
        return Err(owned("actions must be an array"));
    }
    let rest = trimmed(&t, 1, n - 1);
    let len = rest.len();
    let mut out: Vec<Action> = Vec::new();
    assert(out@.map_values(|a: Action| a@) =~= Seq::<ActionView>::empty());
    if len == 0 {
        return Ok(out);
    }
    let mut pos: usize = 0;
    loop
        invariant
            len == rest@.len(),
            pos < len,
            action_items(rest@, pos as int, out@.map_values(|a: Action| a@)) == actions_array(
                value@,
            ),
        decreases len - pos,
    {
        if rest[pos] != '{' {
            return Err(owned("actions array entries must be inline action tables"));
        }
        let e = match table_end(&rest, pos) {
            Err(x) => {
                return Err(x);
            },
            Ok(e) => e,
        };
        proof {
            lemma_table_end_range(rest@, pos as int, pos as int, false, false);
        }
        let piece = sub_chars(&rest, pos, e);
        let a = match action_inline_exec(&piece) {
            Err(x) => {
                return Err(x);
            },
            Ok(a) => a,
        };
        let r = skip_ws_exec(&rest, e);
        let ghost before = out@.map_values(|a: Action| a@);
        out.push(a);
        assert(out@.map_values(|a: Action| a@) =~= before.push(a@));
        if r >= len {
            return Ok(out);
        }
        if rest[r] != ',' {
            return Err(owned("expected comma between actions array entries"));
        }
        let r2 = skip_ws_exec(&rest, r + 1);
        if r2 >= len {
            return Err(owned("trailing comma in actions array"));
        }
        pos = r2;
    }
}


// ---------------------------------------------------------------------------
// Executable settings
// ---------------------------------------------------------------------------

fn u64_value_exec(v: &[char]) -> (r: Option<u64>)
    ensures
        r == u64_value(v@),
{
    assert(v@.subrange(0, v@.len() as int) =~= v@);
    parse_u64_chars(v, 0, v.len(), u64::MAX)
}

fn usize_value_exec(v: &[char]) -> (r: Option<usize>)
    ensures
        r == usize_value(v@),
{
    assert(v@.subrange(0, v@.len() as int) =~= v@);
    match parse_u64_chars(v, 0, v.len(), usize::MAX as u64) {
        Some(x) => Some(x as usize),
        None => None,
    }
}

fn u32_value_exec(v: &[char]) -> (r: Option<u32>)
    ensures
        r == u32_value(v@),
{
    assert(v@.subrange(0, v@.len() as int) =~= v@);
    match parse_u64_chars(v, 0, v.len(), u32::MAX as u64) {
        Some(x) => Some(x as u32),
        None => None,
    }
}

fn i32_value_exec(v: &[char]) -> (r: Option<i32>)
    ensures
        r == i32_value(v@),
{
    assert(v@.subrange(0, v@.len() as int) =~= v@);
    match parse_i64_chars(v, 0, v.len(), i32::MAX as u64) {
        Some(x) => Some(x as i32),
        None => None,
    }
}

fn unknown_key_exec(section: &str, key: &[char]) -> (r: String)
    ensures
        r@ == unknown_key(section@, key@),
{
    let k = string_of(key);
    let mut m = owned("unknown ");
    push_str(&mut m, section);
    push_str(&mut m, " key '");
    push_str(&mut m, k.as_str());
    push_str(&mut m, "'");
    m
}

fn apply_root(version: &mut u32, key: &[char], v: &[char]) -> (r: Result<(), String>)
    ensures
        match r {
            Ok(()) => set_root(*old(version), key@, v@) == Ok::<u32, Seq<char>>(*final(version)),
            Err(e) => set_root(*old(version), key@, v@) == Err::<u32, Seq<char>>(e@),
        },
{
    if eq_lit(key, "version") {
        match u32_value_exec(v) {
            Some(n) => {
                *version = n;
                Ok(())
            },
            None => Err(owned("invalid version")),
        }
    } else {
        let k = string_of(key);
        Err(cat3("unknown root key '", k.as_str(), "'"))
    }
}

fn apply_general(g: &mut General, key: &[char], v: &[char]) -> (r: Result<(), String>)
    ensures
        match r {
            Ok(()) => set_general(*old(g), key@, v@) == Ok::<General, Seq<char>>(*final(g)),
            Err(e) => set_general(*old(g), key@, v@) == Err::<General, Seq<char>>(e@),
        },
{
    if eq_lit(key, "wx_window_ms") {
        match u64_value_exec(v) {
            Some(n) => g.wx_window_ms = n,
            None => return Err(owned("invalid wx_window_ms")),
        }
    } else if eq_lit(key, "wx_cooldown_ms") {
        match u64_value_exec(v) {
            Some(n) => g.wx_cooldown_ms = n,
            None => return Err(owned("invalid wx_cooldown_ms")),
        }
    } else if eq_lit(key, "wx_max_pages") {
        match usize_value_exec(v) {
            Some(n) => g.wx_max_pages = n,
            None => return Err(owned("invalid wx_max_pages")),
        }
    } else if eq_lit(key, "page_size") {
        match u64_value_exec(v) {
            Some(n) => g.page_size = n,
            None => return Err(owned("invalid page_size")),
        }
    } else if eq_lit(key, "flush_every") {
        match usize_value_exec(v) {
            Some(n) => g.flush_every = n,
            None => return Err(owned("invalid flush_every")),
        }
    } else if eq_lit(key, "quiet") {
        match bool_value_exec(v) {
            Some(b) => g.quiet = b,
            None => return Err(owned("invalid quiet")),
        }
    } else {
        return Err(unknown_key_exec("general", key));
    }
    Ok(())
}

fn apply_allow(ignore_vm: &mut Vec<String>, key: &[char], v: &[char]) -> (r: Result<(), String>)
    ensures
        match r {
            Ok(()) => set_allow(views(old(ignore_vm)@), key@, v@) == Ok::<
                Seq<Seq<char>>,
                Seq<char>,
            >(views(final(ignore_vm)@)),
            Err(e) => set_allow(views(old(ignore_vm)@), key@, v@) == Err::<
                Seq<Seq<char>>,
                Seq<char>,
            >(e@),
        },
{
    if eq_lit(key, "ignore_vm") {
        match string_array_exec(v) {
            Ok(l) => {
                *ignore_vm = l;
                Ok(())
            },
            Err(e) => Err(e),
        }
    } else {
        Err(unknown_key_exec("allow", key))
    }
}

fn apply_pmu(p: &mut Pmu, key: &[char], v: &[char]) -> (r: Result<(), String>)
    ensures
        match r {
            Ok(()) => set_pmu(old(p)@, key@, v@) == Ok::<PmuView, Seq<char>>(final(p)@),
            Err(e) => set_pmu(old(p)@, key@, v@) == Err::<PmuView, Seq<char>>(e@),
        },
{
    if eq_lit(key, "enable") {
        match bool_value_exec(v) {
            Some(b) => p.enable = b,
            None => return Err(owned("invalid pmu.enable")),
        }
    } else if eq_lit(key, "sample_ms") {
        match u64_value_exec(v) {
            Some(n) => p.sample_ms = n,
            None => return Err(owned("invalid pmu.sample_ms")),
        }
    } else if eq_lit(key, "qemu_pid") {
        match i32_value_exec(v) {
            Some(n) => p.qemu_pid = n,
            None => return Err(owned("invalid pmu.qemu_pid")),
        }
    } else if eq_lit(key, "vm_regex") {
        p.vm_regex = string_value_exec(v);
    } else if eq_lit(key, "rediscover_ms") {
        match u64_value_exec(v) {
            Some(n) => p.rediscover_ms = n,
            None => return Err(owned("invalid pmu.rediscover_ms")),
        }
    } else {
        return Err(unknown_key_exec("pmu", key));
    }
    Ok(())
}

fn apply_metrics(m: &mut MetricsConfig, key: &[char], v: &[char]) -> (r: Result<(), String>)
    ensures
        match r {
            Ok(()) => set_metrics(*old(m), key@, v@) == Ok::<MetricsConfig, Seq<char>>(*final(m)),
            Err(e) => set_metrics(*old(m), key@, v@) == Err::<MetricsConfig, Seq<char>>(e@),
        },
{
    if eq_lit(key, "allow_bind_failure") {
        match bool_value_exec(v) {
            Some(b) => {
                m.allow_bind_failure = b;
                Ok(())
            },
            None => Err(owned("invalid metrics.allow_bind_failure")),
        }
    } else {
        Err(unknown_key_exec("metrics", key))
    }
}

fn compression_value_exec(v: &[char]) -> (r: Result<SpoolCompression, String>)
    ensures
        match r {
            Ok(c) => compression_value(v@) == Ok::<SpoolCompression, Seq<char>>(c),
            Err(e) => compression_value(v@) == Err::<SpoolCompression, Seq<char>>(e@),
        },
{
    let p = string_value_exec(v);
    if str_eq(p.as_str(), "none") {
        Ok(SpoolCompression::NoCompression)
    } else if str_eq(p.as_str(), "rle") {
        Ok(SpoolCompression::Rle)
    } else {
        Err(cat3("invalid spool.compression '", p.as_str(), "': expected \"none\" or \"rle\""))
    }
}

fn apply_spool(sp: &mut Spool, key: &[char], v: &[char]) -> (r: Result<(), String>)
    ensures
        match r {
            Ok(()) => set_spool(old(sp)@, key@, v@) == Ok::<SpoolView, Seq<char>>(final(sp)@),
            Err(e) => set_spool(old(sp)@, key@, v@) == Err::<SpoolView, Seq<char>>(e@),
        },
{
    if eq_lit(key, "enable") {
        match bool_value_exec(v) {
            Some(b) => sp.enable = b,
            None => return Err(owned("invalid spool.enable")),
        }
    } else if eq_lit(key, "dir") {
        sp.dir = string_value_exec(v);
    } else if eq_lit(key, "max_bytes") {
        match u64_value_exec(v) {
            Some(n) => sp.max_bytes = n,
            None => return Err(owned("invalid spool.max_bytes")),
        }
    } else if eq_lit(key, "segment_bytes") {
        match u64_value_exec(v) {
            Some(n) => sp.segment_bytes = n,
            None => return Err(owned("invalid spool.segment_bytes")),
        }
    } else if eq_lit(key, "compression") {
        match compression_value_exec(v) {
            Ok(c) => sp.compression = c,
            Err(e) => return Err(e),
        }
    } else {
        return Err(unknown_key_exec("spool", key));
    }
    Ok(())
}

fn apply_syslog(sl: &mut Syslog, key: &[char], v: &[char]) -> (r: Result<(), String>)
    ensures
        match r {
            Ok(()) => set_syslog(old(sl)@, key@, v@) == Ok::<SyslogView, Seq<char>>(final(sl)@),
            Err(e) => set_syslog(old(sl)@, key@, v@) == Err::<SyslogView, Seq<char>>(e@),
        },
{
    if eq_lit(key, "enable") {
        match bool_value_exec(v) {
            Some(b) => sl.enable = b,
            None => return Err(owned("invalid syslog.enable")),
        }
    } else if eq_lit(key, "address") {
        sl.address = string_value_exec(v);
    } else if eq_lit(key, "facility") {
        sl.facility = string_value_exec(v);
    } else if eq_lit(key, "max_message_bytes") {
        match usize_value_exec(v) {
            Some(n) => sl.max_message_bytes = n,
            None => return Err(owned("invalid syslog.max_message_bytes")),
        }
    } else {
        return Err(unknown_key_exec("syslog", key));
    }
    Ok(())
}

fn apply_journald(j: &mut Journald, key: &[char], v: &[char]) -> (r: Result<(), String>)
    ensures
        match r {
            Ok(()) => set_journald(old(j)@, key@, v@) == Ok::<JournaldView, Seq<char>>(final(j)@),
            Err(e) => set_journald(old(j)@, key@, v@) == Err::<JournaldView, Seq<char>>(e@),
        },
{
    if eq_lit(key, "enable") {
        match bool_value_exec(v) {
            Some(b) => j.enable = b,
            None => return Err(owned("invalid journald.enable")),
        }
    } else if eq_lit(key, "socket") {
        j.socket = string_value_exec(v);
    } else if eq_lit(key, "identifier") {
        j.identifier = string_value_exec(v);
    } else if eq_lit(key, "max_message_bytes") {
        match usize_value_exec(v) {
            Some(n) => j.max_message_bytes = n,
            None => return Err(owned("invalid journald.max_message_bytes")),
        }
    } else {
        return Err(unknown_key_exec("journald", key));
    }
    Ok(())
}

fn confidence_value_exec(v: &[char]) -> (r: Result<IdentityConfidence, String>)
    ensures
        match r {
            Ok(c) => confidence_value(v@) == Ok::<IdentityConfidence, Seq<char>>(c),
            Err(e) => confidence_value(v@) == Err::<IdentityConfidence, Seq<char>>(e@),
        },
{
    let p = string_value_exec(v);
    if str_eq(p.as_str(), "medium") {
        Ok(IdentityConfidence::Medium)
    } else if str_eq(p.as_str(), "high") {
        Ok(IdentityConfidence::High)
    } else if str_eq(p.as_str(), "low") {
        Err(owned("invalid identity.min_action_confidence: low confidence cannot authorize QMP actions"))
    } else {
        Err(
            cat3(
                "invalid identity.min_action_confidence '",
                p.as_str(),
                "': expected \"medium\" or \"high\"",
            ),
        )
    }
}

fn apply_identity(i: &mut Identity, key: &[char], v: &[char]) -> (r: Result<(), String>)
    ensures
        match r {
            Ok(()) => set_identity(old(i)@, key@, v@) == Ok::<IdentityView, Seq<char>>(final(i)@),
            Err(e) => set_identity(old(i)@, key@, v@) == Err::<IdentityView, Seq<char>>(e@),
        },
{
    if eq_lit(key, "enable") {
        match bool_value_exec(v) {
            Some(b) => i.enable = b,
            None => return Err(owned("invalid identity.enable")),
        }
    } else if eq_lit(key, "cache_ms") {
        match u64_value_exec(v) {
            Some(n) => i.cache_ms = n,
            None => return Err(owned("invalid identity.cache_ms")),
        }
    } else if eq_lit(key, "qmp_socket_dirs") {
        match string_array_exec(v) {
            Ok(d) => i.qmp_socket_dirs = d,
            Err(e) => return Err(e),
        }
    } else if eq_lit(key, "libvirt_xml_dir") {
        i.libvirt_xml_dir = string_value_exec(v);
    } else if eq_lit(key, "require_stable_qmp_match") {
        match bool_value_exec(v) {
            Some(b) => i.require_stable_qmp_match = b,
            None => return Err(owned("invalid identity.require_stable_qmp_match")),
        }
    } else if eq_lit(key, "min_action_confidence") {
        match confidence_value_exec(v) {
            Ok(c) => i.min_action_confidence = c,
            Err(e) => return Err(e),
        }
    } else {
        return Err(unknown_key_exec("identity", key));
    }
    Ok(())
}

fn apply_actions(a: &mut Actions, key: &[char], v: &[char]) -> (r: Result<(), String>)
    ensures
        match r {
            Ok(()) => set_actions(old(a)@, key@, v@) == Ok::<ActionsView, Seq<char>>(final(a)@),
            Err(e) => set_actions(old(a)@, key@, v@) == Err::<ActionsView, Seq<char>>(e@),
        },
{
    if eq_lit(key, "timeout_ms") {
        match u64_value_exec(v) {
            Some(n) => a.timeout_ms = n,
            None => return Err(owned("invalid actions.timeout_ms")),
        }
    } else if eq_lit(key, "retries") {
        match u32_value_exec(v) {
            Some(n) => a.retries = n,
            None => return Err(owned("invalid actions.retries")),
        }
    } else if eq_lit(key, "dump_root") {
        a.dump_root = string_value_exec(v);
    } else {
        return Err(unknown_key_exec("actions", key));
    }
    Ok(())
}

fn apply_qmp(q: &mut QmpMapping, key: &[char], v: &[char]) -> (r: Result<(), String>)
    ensures
        match r {
            Ok(()) => set_qmp(old(q)@, key@, v@) == Ok::<QmpView, Seq<char>>(final(q)@),
            Err(e) => set_qmp(old(q)@, key@, v@) == Err::<QmpView, Seq<char>>(e@),
        },
{
    if eq_lit(key, "vm_id") {
        q.vm_id = string_value_exec(v);
    } else if eq_lit(key, "vm") {
        q.vm = string_value_exec(v);
    } else if eq_lit(key, "socket") {
        q.socket = string_value_exec(v);
    } else {
        return Err(unknown_key_exec("actions.qmp", key));
    }
    Ok(())
}

fn apply_wx(w: &mut WxAllowEntry, key: &[char], v: &[char]) -> (r: Result<(), String>)
    ensures
        match r {
            Ok(()) => set_wx(old(w)@, key@, v@) == Ok::<WxEntryView, Seq<char>>(final(w)@),
            Err(e) => set_wx(old(w)@, key@, v@) == Err::<WxEntryView, Seq<char>>(e@),
        },
{
    if eq_lit(key, "vm") {
        w.vm = string_value_exec(v);
    } else if eq_lit(key, "gpa_prefix") {
        w.gpa_prefix = string_value_exec(v);
    } else {
        return Err(unknown_key_exec("wx_allow.entries", key));
    }
    Ok(())
}

fn apply_rule(r: &mut Rule, key: &[char], v: &[char]) -> (res: Result<(), String>)
    ensures
        match res {
            Ok(()) => set_rule(old(r)@, key@, v@) == Ok::<RuleView, Seq<char>>(final(r)@),
            Err(e) => set_rule(old(r)@, key@, v@) == Err::<RuleView, Seq<char>>(e@),
        },
{
    if eq_lit(key, "name") {
        r.name = string_value_exec(v);
    } else if eq_lit(key, "id") {
        r.id = string_value_exec(v);
    } else if eq_lit(key, "priority") {
        match i32_value_exec(v) {
            Some(n) => r.priority = n,
            None => return Err(owned("invalid rule.priority")),
        }
    } else if eq_lit(key, "cooldown_ms") {
        match u64_value_exec(v) {
            Some(n) => r.cooldown_ms = n,
            None => return Err(owned("invalid rule.cooldown_ms")),
        }
    } else if eq_lit(key, "mode") {
        r.mode = string_value_exec(v);
    } else if eq_lit(key, "enabled") {
        match bool_value_exec(v) {
            Some(b) => r.enabled = b,
            None => return Err(owned("invalid rule.enabled")),
        }
    } else if eq_lit(key, "match") {
        match match_inline_exec(v) {
            Ok(m) => r.match_ = m,
            Err(e) => return Err(e),
        }
    } else if eq_lit(key, "action") {
        match action_inline_exec(v) {
            Ok(a) => r.action = Some(a),
            Err(e) => return Err(e),
        }
    } else if eq_lit(key, "actions") {
        match actions_array_exec(v) {
            Ok(l) => r.actions = l,
            Err(e) => return Err(e),
        }
    } else {
        return Err(unknown_key_exec("policy.rules", key));
    }
    Ok(())
}


// ---------------------------------------------------------------------------
// The executable parser
// ---------------------------------------------------------------------------

/// What the parser holds between lines.
struct ParserState {
    cfg: Config,
    section: Vec<char>,
    rule: Option<Rule>,
    qmp: Option<QmpMapping>,
    wx: Option<WxAllowEntry>,
    declared: Vec<Vec<char>>,
    seen: Vec<Vec<char>>,
}

spec fn char_views(v: Seq<Vec<char>>) -> Seq<Seq<char>> {
    v.map_values(|x: Vec<char>| x@)
}

impl View for ParserState {
    type V = ParseState;

    closed spec fn view(&self) -> ParseState {
        ParseState {
            cfg: self.cfg@,
            section: self.section@,
            rule: match self.rule {
                Some(r) => Some(r@),
                None => None,
            },
            qmp: match self.qmp {
                Some(q) => Some(q@),
                None => None,
            },
            wx: match self.wx {
                Some(w) => Some(w@),
                None => None,
            },
            declared: char_views(self.declared@),
            seen: char_views(self.seen@),
        }
    }
}

/// Whether `name` is one of `names`.
fn contains_name(names: &Vec<Vec<char>>, name: &[char]) -> (r: bool)
    ensures
        r == char_views(names@).contains(name@),
{
    let mut j: usize = 0;
    while j < names.len()
        invariant
            j <= names@.len(),
            forall|k: int| 0 <= k < j ==> names@[k]@ != name@,
        decreases names@.len() - j,
    {
        if chars_eq(names[j].as_slice(), name) {
            assert(char_views(names@)[j as int] == name@);
            return true;
        }
        j = j + 1;
    }
    proof {
        if char_views(names@).contains(name@) {
            let w = choose|k: int| 0 <= k < char_views(names@).len() && char_views(names@)[k] == name@;
            assert(names@[w]@ == name@);
        }
    }
    false
}

fn supported_table_exec(name: &[char]) -> (r: bool)
    ensures
        r == supported_table(name@),
{
    eq_lit(name, "general") || eq_lit(name, "allow") || eq_lit(name, "pmu") || eq_lit(name, "metrics")
        || eq_lit(name, "spool") || eq_lit(name, "syslog") || eq_lit(name, "journald") || eq_lit(
        name,
        "identity",
    ) || eq_lit(name, "actions")
}

impl ParserState {
    fn new() -> (st: Self)
        ensures
            st@ == initial_state(),
    {
        let st = ParserState {
            cfg: Config::default(),
            section: Vec::new(),
            rule: None,
            qmp: None,
            wx: None,
            declared: Vec::new(),
            seen: Vec::new(),
        };
        proof {
            assert(st.section@ =~= Seq::<char>::empty());
            assert(char_views(st.declared@) =~= Seq::<Seq<char>>::empty());
            assert(char_views(st.seen@) =~= Seq::<Seq<char>>::empty());
        }
        st
    }

    /// Appends the open array entries to the configuration.
    fn flush(&mut self)
        ensures
            final(self)@ == (ParseState {
                cfg: flushed(old(self)@),
                rule: None,
                qmp: None,
                wx: None,
                ..old(self)@
            }),
    {
        let ghost o = self@;
        match self.rule.take() {
            Some(r) => {
                let ghost before = self.cfg.policy.rules@.map_values(|x: Rule| x@);
                self.cfg.policy.rules.push(r);
                assert(self.cfg.policy.rules@.map_values(|x: Rule| x@) =~= before.push(r@));
            },
            None => {},
        }
        match self.qmp.take() {
            Some(q) => {
                let ghost before = self.cfg.actions.qmp@.map_values(|x: QmpMapping| x@);
                self.cfg.actions.qmp.push(q);
                assert(self.cfg.actions.qmp@.map_values(|x: QmpMapping| x@) =~= before.push(q@));
            },
            None => {},
        }
        match self.wx.take() {
            Some(w) => {
                let ghost before = self.cfg.wx_allow.entries@.map_values(|x: WxAllowEntry| x@);
                self.cfg.wx_allow.entries.push(w);
                assert(self.cfg.wx_allow.entries@.map_values(|x: WxAllowEntry| x@) =~= before.push(
                    w@,
                ));
            },
            None => {},
        }
        assert(self.cfg@ == flushed(o));
    }

    /// A section header line.
    fn enter(&mut self, h: SectionHeader) -> (r: Result<(), String>)
        ensures
            match r {
                Ok(()) => enter_section(old(self)@, header_view(h)) == Ok::<ParseState, Seq<char>>(
                    final(self)@,
                ),
                Err(e) => enter_section(old(self)@, header_view(h)) == Err::<ParseState, Seq<char>>(
                    e@,
                ),
            },
    {
        match h {
            SectionHeader::Table(name) => {
                if !supported_table_exec(&name) {
                    let n = string_of(&name);
                    return Err(cat3("unsupported section [", n.as_str(), "]"));
                }
                if contains_name(&self.declared, &name) {
                    let n = string_of(&name);
                    return Err(cat3("duplicate section [", n.as_str(), "]"));
                }
                self.flush();
                self.seen = Vec::new();
                let copy = sub_chars(&name, 0, name.len());
                assert(name@.subrange(0, name@.len() as int) =~= name@);
                let ghost before = char_views(self.declared@);
                self.declared.push(copy);
                self.section = name;
                proof {
                    assert(char_views(self.declared@) =~= before.push(name@));
                    assert(char_views(self.seen@) =~= Seq::<Seq<char>>::empty());
                }
                Ok(())
            },
            SectionHeader::Array(name) => {
                if eq_lit(&name, "policy.rules") {
                    self.flush();
                    self.seen = Vec::new();
                    self.rule = Some(Rule::default());
                } else if eq_lit(&name, "actions.qmp") {
                    self.flush();
                    self.seen = Vec::new();
                    self.qmp = Some(
                        QmpMapping { vm_id: String::new(), vm: String::new(), socket: String::new() },
                    );
                    proof {
                        let q = self.qmp->0;
                        assert(q.vm_id@ =~= Seq::<char>::empty());
                        assert(q.vm@ =~= Seq::<char>::empty());
                        assert(q.socket@ =~= Seq::<char>::empty());
                    }
                } else if eq_lit(&name, "wx_allow.entries") {
                    self.flush();
                    self.seen = Vec::new();
                    self.wx = Some(WxAllowEntry { vm: String::new(), gpa_prefix: String::new() });
                    proof {
                        let w = self.wx->0;
                        assert(w.vm@ =~= Seq::<char>::empty());
                        assert(w.gpa_prefix@ =~= Seq::<char>::empty());
                    }
                } else {
                    let n = string_of(&name);
                    return Err(cat3("unsupported array section [[", n.as_str(), "]]"));
                }
                self.section = name;
                assert(char_views(self.seen@) =~= Seq::<Seq<char>>::empty());
                Ok(())
            },
        }
    }

    /// `key = value` in the current section.
    fn assign(&mut self, key: &[char], v: &[char]) -> (r: Result<(), String>)
        ensures
            match r {
                Ok(()) => assign(old(self)@, key@, v@) == Ok::<ParseState, Seq<char>>(final(self)@),
                Err(e) => assign(old(self)@, key@, v@) == Err::<ParseState, Seq<char>>(e@),
            },
    {
        if self.section.len() == 0 {
            apply_root(&mut self.cfg.version, key, v)
        } else if eq_lit(&self.section, "general") {
            apply_general(&mut self.cfg.general, key, v)
        } else if eq_lit(&self.section, "allow") {
            apply_allow(&mut self.cfg.allow.ignore_vm, key, v)
        } else if eq_lit(&self.section, "pmu") {
            apply_pmu(&mut self.cfg.pmu, key, v)
        } else if eq_lit(&self.section, "metrics") {
            apply_metrics(&mut self.cfg.metrics, key, v)
        } else if eq_lit(&self.section, "spool") {
            apply_spool(&mut self.cfg.spool, key, v)
        } else if eq_lit(&self.section, "syslog") {
            apply_syslog(&mut self.cfg.syslog, key, v)
        } else if eq_lit(&self.section, "journald") {
            apply_journald(&mut self.cfg.journald, key, v)
        } else if eq_lit(&self.section, "identity") {
            apply_identity(&mut self.cfg.identity, key, v)
        } else if eq_lit(&self.section, "actions") {
            apply_actions(&mut self.cfg.actions, key, v)
        } else if eq_lit(&self.section, "actions.qmp") {
            match &mut self.qmp {
                Some(q) => apply_qmp(q, key, v),
                None => Err(owned("internal qmp parser state")),
            }
        } else if eq_lit(&self.section, "wx_allow.entries") {
            match &mut self.wx {
                Some(w) => apply_wx(w, key, v),
                None => Err(owned("internal wx parser state")),
            }
        } else if eq_lit(&self.section, "policy.rules") {
            match &mut self.rule {
                Some(r) => apply_rule(r, key, v),
                None => Err(owned("internal rule parser state")),
            }
        } else {
            let sec = string_of(&self.section);
            Err(cat3("unsupported section [", sec.as_str(), "]"))
        }
    }

    /// Line number `n`, whose text is `raw`.
    fn line(&mut self, raw: &[char], n: usize) -> (r: Result<(), String>)
        ensures
            match r {
                Ok(()) => parse_line(old(self)@, raw@, n as nat) == Ok::<ParseState, Seq<char>>(
                    final(self)@,
                ),
                Err(e) => parse_line(old(self)@, raw@, n as nat) == Err::<ParseState, Seq<char>>(
                    e@,
                ),
            },
    {
        reveal(parse_line);
        let cut = match comment_cut(raw) {
            Err(e) => {
                return Err(line_error_exec(n, e.as_str()));
            },
            Ok(c) => c,
        };
        proof {
            lemma_comment_scan_range(raw@, 0, false, false);
            assert(raw@.take(cut as int) =~= raw@.subrange(0, cut as int));
        }
        let line = trimmed(raw, 0, cut);
        if line.len() == 0 {
            return Ok(());
        }
        if line[0] == '[' {
            match parse_heading(&line) {
                Err(e) => Err(line_error_exec(n, e.as_str())),
                Ok(h) => match self.enter(h) {
                    Ok(()) => Ok(()),
                    Err(e) => Err(line_error_exec(n, e.as_str())),
                },
            }
        } else {
            match split_key_value(&line) {
                Err(e) => Err(line_error_exec(n, e.as_str())),
                Ok((key, v)) => {
                    if contains_name(&self.seen, &key) {
                        let k = string_of(&key);
                        let label = if self.section.len() == 0 {
                            owned("root")
                        } else {
                            string_of(&self.section)
                        };
                        let mut m = cat3("duplicate key '", k.as_str(), "' in [");
                        push_str(&mut m, label.as_str());
                        push_str(&mut m, "]");
                        return Err(line_error_exec(n, m.as_str()));
                    }
                    let copy = sub_chars(&key, 0, key.len());
                    assert(key@.subrange(0, key@.len() as int) =~= key@);
                    let ghost before = char_views(self.seen@);
                    self.seen.push(copy);
                    assert(char_views(self.seen@) =~= before.push(key@));
                    match self.assign(&key, &v) {
                        Ok(()) => Ok(()),
                        Err(e) => Err(line_error_exec(n, e.as_str())),
                    }
                },
            }
        }
    }
}

proof fn lemma_comment_scan_range(s: Seq<char>, i: int, in_str: bool, escape: bool)
    requires
        0 <= i <= s.len(),
    ensures
        comment_scan(s, i, in_str, escape) matches Ok(c) ==> i <= c <= s.len(),
    decreases s.len() - i,
{
    if i < s.len() {
        lemma_comment_scan_range(s, i + 1, in_str, false);
        lemma_comment_scan_range(s, i + 1, in_str, true);
        lemma_comment_scan_range(s, i + 1, !in_str, false);
    }
}

/// The first error stays the result of every longer prefix.
proof fn lemma_parse_lines_err(ls: Seq<Seq<char>>, k: nat, m: nat)
    requires
        k <= m,
        parse_lines(ls, k) is Err,
    ensures
        parse_lines(ls, m) == parse_lines(ls, k),
    decreases m - k,
{
    if k < m {
        lemma_parse_lines_err(ls, k, (m - 1) as nat);
    }
}

/// Parses a configuration file's text.
pub fn parse_config(s: &str) -> (r: Result<Config, String>)
    ensures
        match r {
            Ok(c) => config_text(s@) == Ok::<ConfigView, Seq<char>>(c@),
            Err(e) => config_text(s@) == Err::<ConfigView, Seq<char>>(e@),
        },
{
    let all = lines(s);
    let ghost ls = lines_of(s@);
    let mut st = ParserState::new();
    let mut i: usize = 0;
    while i < all.len()
        invariant
            i <= all@.len(),
            views(all@) == ls,
            ls == lines_of(s@),
            parse_lines(ls, i as nat) == Ok::<ParseState, Seq<char>>(st@),
        decreases all@.len() - i,
    {
        let raw = to_chars(all[i].as_str());
        assert(ls[i as int] == raw@);
        let ghost st0 = st@;
        match st.line(&raw, i + 1) {
            Err(e) => {
                proof {
                    assert(parse_line(st0, raw@, (i + 1) as nat) == Err::<ParseState, Seq<char>>(e@));
                    assert(parse_lines(ls, (i + 1) as nat) == Err::<ParseState, Seq<char>>(e@));
                    lemma_parse_lines_err(ls, (i + 1) as nat, ls.len());
                }
                return Err(e);
            },
            Ok(()) => {},
        }
        i = i + 1;
    }
    st.flush();
    Ok(st.cfg)
}


} // verus!
