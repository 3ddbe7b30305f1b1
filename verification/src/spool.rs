//! Event spool segments: the segment headers, the record framing, and the
//! run-length encoding used by compressed segments.
use vstd::prelude::*;
use vstd::utf8::{decode_utf8, encode_utf8, valid_utf8};
use crate::config::SpoolCompression;
use crate::text::{hex_digit, hex_digit_exec, pow16, push_char, hex_digits_value, is_hex_digit, hex_value, owned, parse_unsigned, str_starts_with, string_from, to_chars};

verus! {

/// Header of a plain spool segment.
pub open spec fn header_v1() -> Seq<u8> {
    seq![97u8, 101u8, 103u8, 105u8, 115u8, 104u8, 118u8, 45u8, 115u8, 112u8, 111u8, 111u8, 108u8, 45u8, 118u8, 49u8, 32u8, 108u8, 101u8, 110u8, 45u8, 104u8, 101u8, 120u8, 45u8, 106u8, 115u8, 111u8, 110u8, 108u8, 10u8]
}

/// Header of a plain spool segment.
#[verifier::spinoff_prover]
#[verifier::rlimit(40)]
pub fn spool_segment_header_v1() -> (r: Vec<u8>)
    ensures
        r@ == header_v1(),
{
    let mut v: Vec<u8> = Vec::new();
    v.push(97u8);
    v.push(101u8);
    v.push(103u8);
    v.push(105u8);
    v.push(115u8);
    v.push(104u8);
    v.push(118u8);
    v.push(45u8);
    v.push(115u8);
    v.push(112u8);
    v.push(111u8);
    v.push(111u8);
    v.push(108u8);
    v.push(45u8);
    v.push(118u8);
    v.push(49u8);
    v.push(32u8);
    v.push(108u8);
    v.push(101u8);
    v.push(110u8);
    v.push(45u8);
    v.push(104u8);
    v.push(101u8);
    v.push(120u8);
    v.push(45u8);
    v.push(106u8);
    v.push(115u8);
    v.push(111u8);
    v.push(110u8);
    v.push(108u8);
    v.push(10u8);
    assert(v@ =~= header_v1());
    v
}

/// Header of an RLE-compressed spool segment.
pub open spec fn header_v2_rle() -> Seq<u8> {
    seq![97u8, 101u8, 103u8, 105u8, 115u8, 104u8, 118u8, 45u8, 115u8, 112u8, 111u8, 111u8, 108u8, 45u8, 118u8, 50u8, 32u8, 99u8, 111u8, 109u8, 112u8, 114u8, 101u8, 115u8, 115u8, 105u8, 111u8, 110u8, 61u8, 114u8, 108u8, 101u8, 32u8, 114u8, 101u8, 99u8, 111u8, 114u8, 100u8, 61u8, 104u8, 101u8, 120u8, 45u8, 117u8, 54u8, 52u8, 45u8, 117u8, 110u8, 99u8, 111u8, 109u8, 112u8, 114u8, 101u8, 115u8, 115u8, 101u8, 100u8, 45u8, 104u8, 101u8, 120u8, 45u8, 117u8, 54u8, 52u8, 45u8, 112u8, 97u8, 121u8, 108u8, 111u8, 97u8, 100u8, 10u8]
}

/// Header of an RLE-compressed spool segment.
#[verifier::spinoff_prover]
#[verifier::rlimit(40)]
pub fn spool_segment_header_v2_rle() -> (r: Vec<u8>)
    ensures
        r@ == header_v2_rle(),
{
    let mut v: Vec<u8> = Vec::new();
    v.push(97u8);
    v.push(101u8);
    v.push(103u8);
    v.push(105u8);
    v.push(115u8);
    v.push(104u8);
    v.push(118u8);
    v.push(45u8);
    v.push(115u8);
    v.push(112u8);
    v.push(111u8);
    v.push(111u8);
    v.push(108u8);
    v.push(45u8);
    v.push(118u8);
    v.push(50u8);
    v.push(32u8);
    v.push(99u8);
    v.push(111u8);
    v.push(109u8);
    v.push(112u8);
    v.push(114u8);
    v.push(101u8);
    v.push(115u8);
    v.push(115u8);
    v.push(105u8);
    v.push(111u8);
    v.push(110u8);
    v.push(61u8);
    v.push(114u8);
    v.push(108u8);
    v.push(101u8);
    v.push(32u8);
    v.push(114u8);
    v.push(101u8);
    v.push(99u8);
    v.push(111u8);
    v.push(114u8);
    v.push(100u8);
    v.push(61u8);
    v.push(104u8);
    v.push(101u8);
    v.push(120u8);
    v.push(45u8);
    v.push(117u8);
    v.push(54u8);
    v.push(52u8);
    v.push(45u8);
    v.push(117u8);
    v.push(110u8);
    v.push(99u8);
    v.push(111u8);
    v.push(109u8);
    v.push(112u8);
    v.push(114u8);
    v.push(101u8);
    v.push(115u8);
    v.push(115u8);
    v.push(101u8);
    v.push(100u8);
    v.push(45u8);
    v.push(104u8);
    v.push(101u8);
    v.push(120u8);
    v.push(45u8);
    v.push(117u8);
    v.push(54u8);
    v.push(52u8);
    v.push(45u8);
    v.push(112u8);
    v.push(97u8);
    v.push(121u8);
    v.push(108u8);
    v.push(111u8);
    v.push(97u8);
    v.push(100u8);
    v.push(10u8);
    assert(v@ =~= header_v2_rle());
    v
}

/// The prefix shared by version 2 spool headers.
pub open spec fn v2_prefix() -> Seq<u8> {
    seq![97u8, 101u8, 103u8, 105u8, 115u8, 104u8, 118u8, 45u8, 115u8, 112u8, 111u8, 111u8, 108u8, 45u8, 118u8, 50u8, 32u8]
}

/// The prefix shared by version 2 spool headers.
#[verifier::spinoff_prover]
#[verifier::rlimit(40)]
pub fn spool_v2_prefix() -> (r: Vec<u8>)
    ensures
        r@ == v2_prefix(),
{
    let mut v: Vec<u8> = Vec::new();
    v.push(97u8);
    v.push(101u8);
    v.push(103u8);
    v.push(105u8);
    v.push(115u8);
    v.push(104u8);
    v.push(118u8);
    v.push(45u8);
    v.push(115u8);
    v.push(112u8);
    v.push(111u8);
    v.push(111u8);
    v.push(108u8);
    v.push(45u8);
    v.push(118u8);
    v.push(50u8);
    v.push(32u8);
    assert(v@ =~= v2_prefix());
    v
}

// ---------------------------------------------------------------------------
// Reading segments back
// ---------------------------------------------------------------------------

/// Why a spool segment could not be read back.
#[derive(Debug, PartialEq, Eq)]
pub enum SpoolSegmentReadError {
    Unsupported(String),
    Corrupt(String),
}

impl SpoolSegmentReadError {
    /// Whether the segment is of an unsupported kind, and the message.
    pub open spec fn fault(&self) -> (bool, Seq<char>) {
        match self {
            SpoolSegmentReadError::Unsupported(m) => (true, m@),
            SpoolSegmentReadError::Corrupt(m) => (false, m@),
        }
    }

    /// The message.
    pub fn detail(&self) -> (r: &str)
        ensures
            r@ == self.fault().1,
    {
        match self {
            SpoolSegmentReadError::Unsupported(m) => m.as_str(),
            SpoolSegmentReadError::Corrupt(m) => m.as_str(),
        }
    }
}

/// One record read back from a segment.
#[derive(Debug, PartialEq, Eq)]
pub struct DecodedSpoolRecord {
    pub line: String,
    pub compressed: bool,
    pub uncompressed_len: usize,
    pub payload_len: usize,
}

impl View for DecodedSpoolRecord {
    type V = (Seq<char>, bool, nat, nat);

    open spec fn view(&self) -> (Seq<char>, bool, nat, nat) {
        (self.line@, self.compressed, self.uncompressed_len as nat, self.payload_len as nat)
    }
}

// ---------------------------------------------------------------------------
// Run-length encoding
// ---------------------------------------------------------------------------

/// `n` copies of `b`.
pub open spec fn repeat_byte(b: u8, n: nat) -> Seq<u8> {
    Seq::new(n, |i: int| b)
}

/// Decoding of an RLE payload: a control byte below 0x80 copies the next
/// `control + 1` bytes; a control byte `0x80 + k` repeats the next byte
/// `k + 3` times. `None` when a run is cut short.
pub open spec fn rle_decode(p: Seq<u8>) -> Option<Seq<u8>>
    decreases p.len(),
{
    if p.len() == 0 {
        Some(Seq::empty())
    } else {
        let c = p[0];
        if c < 128 {
            let n = c + 1;
            if p.len() - 1 < n {
                None
            } else {
                match rle_decode(p.skip(1 + n)) {
                    Some(rest) => Some(p.subrange(1, 1 + n) + rest),
                    None => None,
                }
            }
        } else {
            if p.len() < 2 {
                None
            } else {
                match rle_decode(p.skip(2)) {
                    Some(rest) => Some(repeat_byte(p[1], (c - 128 + 3) as nat) + rest),
                    None => None,
                }
            }
        }
    }
}

/// Decoding distributes over a payload made of complete runs.
pub proof fn lemma_rle_decode_append(a: Seq<u8>, b: Seq<u8>)
    requires
        rle_decode(a) is Some,
    ensures
        rle_decode(a + b) == match rle_decode(b) {
            Some(y) => Some(rle_decode(a)->0 + y),
            None => None::<Seq<u8>>,
        },
    decreases a.len(),
{
    if a.len() == 0 {
        assert(a + b =~= b);
        if rle_decode(b) is Some {
            assert(rle_decode(a)->0 + rle_decode(b)->0 =~= rle_decode(b)->0);
        }
    } else {
        let c = a[0];
        assert((a + b)[0] == c);
        if c < 128 {
            let n = c + 1;
            assert((a + b).skip(1 + n) =~= a.skip(1 + n) + b);
            assert((a + b).subrange(1, 1 + n) =~= a.subrange(1, 1 + n));
            lemma_rle_decode_append(a.skip(1 + n), b);
            if rle_decode(b) is Some {
                assert(a.subrange(1, 1 + n) + (rle_decode(a.skip(1 + n))->0 + rle_decode(b)->0)
                    =~= (a.subrange(1, 1 + n) + rle_decode(a.skip(1 + n))->0) + rle_decode(b)->0);
            }
        } else {
            assert((a + b).skip(2) =~= a.skip(2) + b);
            assert((a + b)[1] == a[1]);
            lemma_rle_decode_append(a.skip(2), b);
            if rle_decode(b) is Some {
                let r = repeat_byte(a[1], (c - 128 + 3) as nat);
                assert(r + (rle_decode(a.skip(2))->0 + rle_decode(b)->0) =~= (r + rle_decode(a.skip(2))->0) + rle_decode(b)->0);
            }
        }
    }
}

/// `n` is the length of the run of bytes equal to `input[start]` that starts
/// at `start`, cut at `max_len`.
pub open spec fn run_of(input: Seq<u8>, start: int, max_len: int, n: int) -> bool {
    &&& 1 <= n <= max_len
    &&& start + n <= input.len()
    &&& forall|k: int| start <= k < start + n ==> input[k] == input[start]
    &&& (start + n == input.len() || n == max_len || input[start + n] != input[start])
}

/// A run has one length.
pub proof fn lemma_run_len_unique(input: Seq<u8>, start: int, max_len: int, a: int, b: int)
    requires
        run_of(input, start, max_len, a),
        run_of(input, start, max_len, b),
    ensures
        a == b,
{
    if a < b {
        assert(input[start + a] == input[start]);
    } else if b < a {
        assert(input[start + b] == input[start]);
    }
}

/// Length of the run of bytes equal to `input[pos]` that starts at `pos`,
/// counting at most `max` bytes.
pub open spec fn run_len(input: Seq<u8>, pos: int, max: int) -> int
    decreases max,
{
    if max <= 1 || pos + 1 >= input.len() || input[pos + 1] != input[pos] {
        1
    } else {
        1 + run_len(input, pos + 1, max - 1)
    }
}

/// `run_len` measures a run in the sense of `run_of`.
pub proof fn lemma_run_len_is_run(input: Seq<u8>, pos: int, max: int)
    requires
        0 <= pos < input.len(),
        max >= 1,
    ensures
        run_of(input, pos, max, run_len(input, pos, max)),
    decreases max,
{
    if !(max <= 1 || pos + 1 >= input.len() || input[pos + 1] != input[pos]) {
        lemma_run_len_is_run(input, pos + 1, max - 1);
    }
}

/// Length of the run of bytes equal to `input[start]` that starts at
/// `start`, counting at most `max_len` bytes.
pub fn repeated_run_len(input: &[u8], start: usize, max_len: usize) -> (r: usize)
    requires
        start < input@.len(),
        max_len >= 1,
    ensures
        r == run_len(input@, start as int, max_len as int),
        run_of(input@, start as int, max_len as int, r as int),
{
    let byte = input[start];
    let mut len: usize = 1;
    while len < input.len() - start && len < max_len && input[start + len] == byte
        invariant
            1 <= len <= max_len,
            start + len <= input@.len(),
            byte == input@[start as int],
            forall|k: int| start <= k < start + len ==> input@[k] == byte,
        decreases input@.len() - len,
    {
        len = len + 1;
    }
    proof {
        lemma_run_len_is_run(input@, start as int, max_len as int);
        lemma_run_len_unique(input@, start as int, max_len as int, len as int, run_len(input@, start as int, max_len as int));
    }
    len
}

/// Length of the literal run that starts at `start` and already holds `len`
/// bytes: it takes in whole runs shorter than four bytes, stops before a
/// run of four or more, and holds at most 128 bytes.
pub open spec fn literal_extent(input: Seq<u8>, start: int, len: int) -> int
    decreases 128 - len,
{
    let p = start + len;
    if p >= input.len() || len >= 128 || len < 0 {
        len
    } else {
        let r = run_len(input, p, 130);
        if r >= 4 {
            len
        } else if r <= 128 - len {
            proof {
                lemma_run_len_pos(input, p, 130);
            }
            literal_extent(input, start, len + r)
        } else {
            128
        }
    }
}

/// A literal run grows from what it holds and stays within the input.
pub proof fn lemma_literal_extent_bounds(input: Seq<u8>, start: int, len: int)
    requires
        0 <= start,
        0 <= len <= 128,
        start + len <= input.len(),
    ensures
        len <= literal_extent(input, start, len) <= 128,
        start + literal_extent(input, start, len) <= input.len(),
    decreases 128 - len,
{
    let p = start + len;
    if !(p >= input.len() || len >= 128) {
        let r = run_len(input, p, 130);
        lemma_run_len_is_run(input, p, 130);
        if r < 4 && r <= 128 - len {
            lemma_literal_extent_bounds(input, start, len + r);
        }
    }
}

/// The RLE encoding of `input` from `pos` on: a run of four or more equal
/// bytes (at most 130) becomes a repeat run, anything else a literal run.
pub open spec fn rle_encoding(input: Seq<u8>, pos: int) -> Seq<u8>
    decreases input.len() - pos,
{
    if pos >= input.len() || pos < 0 {
        Seq::empty()
    } else {
        let r = run_len(input, pos, 130);
        if r >= 4 {
            proof {
                lemma_run_len_is_run(input, pos, 130);
            }
            seq![(128 + r - 3) as u8, input[pos]] + rle_encoding(input, pos + r)
        } else {
            let l = literal_extent(input, pos, 0);
            proof {
                lemma_literal_extent_bounds(input, pos, 0);
            }
            if l < 1 {
                Seq::empty()
            } else {
                seq![(l - 1) as u8] + input.subrange(pos, pos + l) + rle_encoding(input, pos + l)
            }
        }
    }
}

/// A run counts at least one byte and at most `max`.
pub proof fn lemma_run_len_pos(input: Seq<u8>, pos: int, max: int)
    ensures
        run_len(input, pos, max) >= 1,
        max >= 1 ==> run_len(input, pos, max) <= max,
    decreases max,
{
    if !(max <= 1 || pos + 1 >= input.len() || input[pos + 1] != input[pos]) {
        lemma_run_len_pos(input, pos + 1, max - 1);
    }
}

/// Run-length encodes `input`: a run of four or more equal bytes (up to
/// 130) becomes a two-byte repeat run, the rest goes into literal runs of
/// up to 128 bytes.
pub fn rle_compress(input: &[u8]) -> (out: Vec<u8>)
    ensures
        out@ == rle_encoding(input@, 0),
        rle_decode(out@) == Some(input@),
{
    let n = input.len();
    let mut out: Vec<u8> = Vec::new();
    let mut pos: usize = 0;
    assert(input@.take(0) =~= Seq::<u8>::empty());
    assert(rle_decode(Seq::<u8>::empty()) == Some(Seq::<u8>::empty()));
    while pos < n
        invariant
            n == input@.len(),
            pos <= n,
            rle_decode(out@) == Some(input@.take(pos as int)),
            out@ + rle_encoding(input@, pos as int) == rle_encoding(input@, 0),
        decreases n - pos,
    {
        let run = repeated_run_len(input, pos, 130);
        if run >= 4 {
            let ctl: u8 = 128u8 + ((run - 3) as u8);
            let byte = input[pos];
            let ghost before = out@;
            out.push(ctl);
            out.push(byte);
            proof {
                let tok = seq![ctl, byte];
                assert(out@ =~= before + tok);
                assert(tok.skip(2) =~= Seq::<u8>::empty());
                assert(ctl - 128 + 3 == run);
                assert(rle_decode(Seq::<u8>::empty()) == Some(Seq::<u8>::empty()));
                assert(rle_decode(tok.skip(2)) == Some(Seq::<u8>::empty()));
                assert(rle_decode(tok) == Some(repeat_byte(byte, run as nat) + Seq::<u8>::empty()));
                lemma_rle_decode_append(before, tok);
                assert(input@.take(pos + run) =~= input@.take(pos as int) + repeat_byte(byte, run as nat));
                assert(ctl == (128 + run - 3) as u8);
                assert(out@ + rle_encoding(input@, pos + run) =~= before + rle_encoding(input@, pos as int));
            }
            pos = pos + run;
        } else {
            let literal_start = pos;
            let first = run;
            let mut literal_len: usize = 0;
            let mut stop = false;
            let ghost lit = literal_extent(input@, literal_start as int, 0);
            while !stop && pos < n && literal_len < 128
                invariant
                    n == input@.len(),
                    literal_start < n,
                    literal_start <= pos <= n,
                    pos == literal_start + literal_len,
                    literal_len <= 128,
                    literal_len == 0 ==> !stop,
                    first < 4,
                    run_of(input@, literal_start as int, 130, first as int),
                    first == run_len(input@, literal_start as int, 130),
                    lit == literal_extent(input@, literal_start as int, 0),
                    !stop ==> literal_extent(input@, literal_start as int, literal_len as int) == lit,
                    stop ==> literal_len == lit,
                decreases n - pos + (if stop { 0int } else { 1int }),
            {
                let rl = repeated_run_len(input, pos, 130);
                proof {
                    if pos == literal_start {
                        lemma_run_len_unique(input@, literal_start as int, 130, first as int, rl as int);
                    }
                }
                if rl >= 4 {
                    stop = true;
                } else {
                    let room = 128 - literal_len;
                    let take = if rl < room { rl } else { room };
                    pos = pos + take;
                    literal_len = literal_len + take;
                    if take < rl {
                        stop = true;
                    }
                }
            }
            proof {
                if !stop {
                    assert(literal_extent(input@, literal_start as int, literal_len as int) == literal_len);
                }
            }
            let ghost before = out@;
            out.push((literal_len - 1) as u8);
            let mut k: usize = literal_start;
            while k < literal_start + literal_len
                invariant
                    n == input@.len(),
                    1 <= literal_len <= 128,
                    literal_start + literal_len <= n,
                    literal_start <= k <= literal_start + literal_len,
                    out@ == before.push((literal_len - 1) as u8) + input@.subrange(literal_start as int, k as int),
                decreases literal_start + literal_len - k,
            {
                out.push(input[k]);
                k = k + 1;
                assert(out@ =~= before.push((literal_len - 1) as u8) + input@.subrange(literal_start as int, k as int));
            }
            proof {
                let tok = seq![(literal_len - 1) as u8] + input@.subrange(literal_start as int, (literal_start + literal_len) as int);
                assert(out@ =~= before + tok);
                assert(tok[0] == (literal_len - 1) as u8);
                assert(tok.skip(1 + literal_len) =~= Seq::<u8>::empty());
                assert(tok.subrange(1, 1 + literal_len) =~= input@.subrange(literal_start as int, (literal_start + literal_len) as int));
                assert(rle_decode(Seq::<u8>::empty()) == Some(Seq::<u8>::empty()));
                assert(rle_decode(tok.skip(1 + literal_len)) == Some(Seq::<u8>::empty()));
                assert(rle_decode(tok) == Some(tok.subrange(1, 1 + literal_len) + Seq::<u8>::empty()));
                lemma_rle_decode_append(before, tok);
                assert(input@.take((literal_start + literal_len) as int) =~= input@.take(literal_start as int) + input@.subrange(literal_start as int, (literal_start + literal_len) as int));
                assert(out@ + rle_encoding(input@, (literal_start + literal_len) as int) =~= before + rle_encoding(input@, literal_start as int));
            }
        }
    }
    assert(input@.take(n as int) =~= input@);
    assert(out@ + Seq::<u8>::empty() =~= out@);
    out
}

// ---------------------------------------------------------------------------
// Run-length decoding with a declared length
// ---------------------------------------------------------------------------

/// Decoding of `p` that stops at the first run that is cut short, or that
/// would take the output past `budget` bytes.
pub open spec fn rle_expand(p: Seq<u8>, budget: int) -> Result<Seq<u8>, Seq<char>>
    decreases p.len(),
{
    if p.len() == 0 {
        Ok(Seq::empty())
    } else {
        let c = p[0];
        if c < 128 {
            let n = c + 1;
            if p.len() - 1 < n {
                Err("RLE literal run is truncated"@)
            } else if n > budget {
                Err("RLE payload expands past the declared length"@)
            } else {
                match rle_expand(p.skip(1 + n), budget - n) {
                    Ok(rest) => Ok(p.subrange(1, 1 + n) + rest),
                    Err(m) => Err(m),
                }
            }
        } else {
            if p.len() < 2 {
                Err("RLE repeated run is truncated"@)
            } else {
                let n = c - 128 + 3;
                if n > budget {
                    Err("RLE payload expands past the declared length"@)
                } else {
                    match rle_expand(p.skip(2), budget - n) {
                        Ok(rest) => Ok(repeat_byte(p[1], n as nat) + rest),
                        Err(m) => Err(m),
                    }
                }
            }
        }
    }
}

/// What decompressing `p` with the declared length `expected` gives.
pub open spec fn rle_decompress_result(p: Seq<u8>, expected: int) -> Result<Seq<u8>, Seq<char>> {
    match rle_expand(p, expected) {
        Ok(out) => if out.len() == expected {
            Ok(out)
        } else {
            Err("RLE payload does not match the declared length"@)
        },
        Err(m) => Err(m),
    }
}

/// `done` followed by what `r` holds, or the error of `r`.
pub open spec fn after_bytes(done: Seq<u8>, r: Result<Seq<u8>, Seq<char>>) -> Result<Seq<u8>, Seq<char>> {
    match r {
        Ok(rest) => Ok(done + rest),
        Err(m) => Err(m),
    }
}

proof fn lemma_expand_of_decode(p: Seq<u8>, budget: int)
    requires
        rle_decode(p) is Some,
        rle_decode(p)->0.len() <= budget,
    ensures
        rle_expand(p, budget) == Ok::<Seq<u8>, Seq<char>>(rle_decode(p)->0),
    decreases p.len(),
{
    if p.len() > 0 {
        let c = p[0];
        if c < 128 {
            let n = c + 1;
            lemma_expand_of_decode(p.skip(1 + n), budget - n);
        } else {
            let n = c - 128 + 3;
            lemma_expand_of_decode(p.skip(2), budget - n);
        }
    }
}

/// Decompressing an RLE payload with the length of what it encodes gives
/// that data back; with `rle_compress`, whose output always decodes to its
/// input, compression followed by decompression is the identity.
pub proof fn lemma_rle_round_trip(payload: Seq<u8>, data: Seq<u8>)
    requires
        rle_decode(payload) == Some(data),
    ensures
        rle_decompress_result(payload, data.len() as int) == Ok::<Seq<u8>, Seq<char>>(data),
{
    lemma_expand_of_decode(payload, data.len() as int);
}

/// A `Corrupt` error with the message `msg`.
fn corrupt(msg: &str) -> (e: SpoolSegmentReadError)
    ensures
        e.fault() == (false, msg@),
{
    SpoolSegmentReadError::Corrupt(owned(msg))
}

/// Decompresses an RLE payload that must expand to exactly `expected_len`
/// bytes.
pub fn rle_decompress(payload: &[u8], expected_len: usize) -> (r: Result<Vec<u8>, SpoolSegmentReadError>)
    ensures
        r matches Ok(v) ==> rle_decompress_result(payload@, expected_len as int) == Ok::<Seq<u8>, Seq<char>>(v@),
        r matches Err(e) ==> !e.fault().0 && rle_decompress_result(payload@, expected_len as int)
            == Err::<Seq<u8>, Seq<char>>(e.fault().1),
{
    let n = payload.len();
    let mut out: Vec<u8> = Vec::new();
    let mut pos: usize = 0;
    assert(payload@.skip(0) =~= payload@);
    while pos < n
        invariant
            n == payload@.len(),
            pos <= n,
            out@.len() <= expected_len,
            rle_expand(payload@, expected_len as int) == after_bytes(
                out@,
                rle_expand(payload@.skip(pos as int), expected_len - out@.len()),
            ),
        decreases n - pos,
    {
        let ghost p = payload@.skip(pos as int);
        let ghost budget = expected_len - out@.len();
        let ghost before = out@;
        let control = payload[pos];
        assert(p[0] == control);
        if control < 128 {
            let len: usize = control as usize + 1;
            if n - (pos + 1) < len {
                return Err(corrupt("RLE literal run is truncated"));
            }
            if len > expected_len - out.len() {
                return Err(corrupt("RLE payload expands past the declared length"));
            }
            let mut k: usize = pos + 1;
            while k < pos + 1 + len
                invariant
                    n == payload@.len(),
                    pos + 1 + len <= n,
                    pos + 1 <= k <= pos + 1 + len,
                    out@ == before + payload@.subrange(pos + 1, k as int),
                decreases pos + 1 + len - k,
            {
                out.push(payload[k]);
                k = k + 1;
                assert(out@ =~= before + payload@.subrange(pos + 1, k as int));
            }
            proof {
                assert(p.subrange(1, 1 + len) =~= payload@.subrange(pos + 1, pos + 1 + len));
                assert(p.skip(1 + len) =~= payload@.skip(pos + 1 + len));
                match rle_expand(p.skip(1 + len), budget - len) {
                    Ok(rest) => {
                        assert(before + (p.subrange(1, 1 + len) + rest) =~= out@ + rest);
                    },
                    Err(m) => {},
                }
            }
            pos = pos + 1 + len;
        } else {
            let len: usize = (control - 128) as usize + 3;
            if pos + 1 >= n {
                return Err(corrupt("RLE repeated run is truncated"));
            }
            let byte = payload[pos + 1];
            assert(p[1] == byte);
            if len > expected_len - out.len() {
                return Err(corrupt("RLE payload expands past the declared length"));
            }
            let mut k: usize = 0;
            while k < len
                invariant
                    k <= len,
                    out@ == before + repeat_byte(byte, k as nat),
                decreases len - k,
            {
                out.push(byte);
                k = k + 1;
                assert(out@ =~= before + repeat_byte(byte, k as nat));
            }
            proof {
                assert(p.skip(2) =~= payload@.skip(pos + 2));
                match rle_expand(p.skip(2), budget - len) {
                    Ok(rest) => {
                        assert(before + (repeat_byte(byte, len as nat) + rest) =~= out@ + rest);
                    },
                    Err(m) => {},
                }
            }
            pos = pos + 2;
        }
    }
    proof {
        assert(payload@.skip(n as int) =~= Seq::<u8>::empty());
        assert(out@ + Seq::<u8>::empty() =~= out@);
    }
    if out.len() != expected_len {
        return Err(corrupt("RLE payload does not match the declared length"));
    }
    Ok(out)
}


// ---------------------------------------------------------------------------
// Record framing
// ---------------------------------------------------------------------------

/// `String::from_utf8`: the bytes as text, when they are valid UTF-8.
#[verifier::external_body]
pub(crate) fn utf8_text(bytes: Vec<u8>) -> (r: Option<String>)
    ensures
        r is Some <==> valid_utf8(bytes@),
        r matches Some(s) ==> s@ == decode_utf8(bytes@),
{
    String::from_utf8(bytes).ok()
}

/// `s` without one leading `+`.
pub open spec fn strip_plus(s: Seq<char>) -> Seq<char> {
    if s.len() > 0 && s[0] == '+' {
        s.skip(1)
    } else {
        s
    }
}

/// An unsigned base-16 number as `u64::from_str_radix` reads it: an
/// optional `+`, then at least one hex digit of either case, the value
/// fitting in 64 bits.
pub open spec fn radix16(s: Seq<char>) -> Option<u64> {
    let d = strip_plus(s);
    if d.len() == 0 || !(forall|i: int| 0 <= i < d.len() ==> is_hex_digit(#[trigger] d[i])) {
        None
    } else if hex_digits_value(d) > u64::MAX {
        None
    } else {
        Some(hex_digits_value(d) as u64)
    }
}

proof fn lemma_hex_prefix_mono(d: Seq<char>, k: int, j: int)
    requires
        0 <= k <= j <= d.len(),
    ensures
        hex_digits_value(d.take(k)) <= hex_digits_value(d.take(j)),
    decreases j - k,
{
    if k < j {
        lemma_hex_prefix_mono(d, k, j - 1);
        assert(d.take(j).drop_last() =~= d.take(j - 1));
    }
}

/// Reads `s` as `u64::from_str_radix(s, 16)` does.
pub fn parse_radix16(s: &str) -> (r: Option<u64>)
    ensures
        r == radix16(s@),
{
    let v = to_chars(s);
    let n = v.len();
    let lo: usize = if n > 0 && v[0] == '+' {
        1
    } else {
        0
    };
    let ghost d = strip_plus(s@);
    assert(d =~= v@.subrange(lo as int, n as int));
    if n - lo == 0 {
        return None;
    }
    let mut acc: u64 = 0;
    let mut i: usize = lo;
    while i < n
        invariant
            v@ == s@,
            n == v@.len(),
            d == v@.subrange(lo as int, n as int),
            d == strip_plus(s@),
            lo <= i <= n,
            forall|k: int| 0 <= k < i - lo ==> is_hex_digit(#[trigger] d[k]),
            acc == hex_digits_value(d.take(i - lo)),
        decreases n - i,
    {
        let c = v[i];
        let ghost k = (i - lo) as int;
        assert(d[k] == c);
        let dv: u64 = if '0' <= c && c <= '9' {
            (c as u64) - 48
        } else if 'a' <= c && c <= 'f' {
            (c as u64) - 87
        } else if 'A' <= c && c <= 'F' {
            (c as u64) - 55
        } else {
            return None;
        };
        assert(d.take(k + 1).drop_last() =~= d.take(k));
        assert(d.take(k + 1).last() == c);
        assert(hex_digits_value(d.take(k + 1)) == acc * 16 + dv);
        match acc.checked_mul(16) {
            Some(m) => match m.checked_add(dv) {
                Some(next) => {
                    acc = next;
                },
                None => {
                    proof {
                        lemma_hex_prefix_mono(d, k + 1, d.len() as int);
                        assert(d.take(d.len() as int) =~= d);
                    }
                    return None;
                },
            },
            None => {
                proof {
                    assert(acc * 16 + dv >= acc * 16);
                    lemma_hex_prefix_mono(d, k + 1, d.len() as int);
                    assert(d.take(d.len() as int) =~= d);
                }
                return None;
            },
        }
        i = i + 1;
    }
    assert(d.take(d.len() as int) =~= d);
    Some(acc)
}

/// A sixteen-digit hexadecimal field followed by a space, as at the start
/// of `b`: its value, or the message of the first check that fails.
pub open spec fn hex_field(b: Seq<u8>) -> Result<u64, Seq<char>> {
    if b.len() < 17 {
        Err("spool record hex field is truncated"@)
    } else if b[16] != 32 {
        Err("spool record hex field missing separator"@)
    } else if !valid_utf8(b.take(16)) {
        Err("spool record hex field is not UTF-8"@)
    } else {
        match radix16(decode_utf8(b.take(16))) {
            Some(v) => Ok(v),
            None => Err("spool record hex field is not hexadecimal"@),
        }
    }
}

/// Reads the hex field at the start of `bytes`; gives its value and the
/// bytes after its separator.
pub fn parse_spool_hex_field(bytes: &[u8]) -> (r: Result<(u64, &[u8]), SpoolSegmentReadError>)
    ensures
        r matches Ok((v, rest)) ==> hex_field(bytes@) == Ok::<u64, Seq<char>>(v) && rest@ == bytes@.skip(17),
        r matches Err(e) ==> !e.fault().0 && hex_field(bytes@) == Err::<u64, Seq<char>>(e.fault().1),
{
    if bytes.len() < 17 {
        return Err(corrupt("spool record hex field is truncated"));
    }
    if bytes[16] != 32u8 {
        return Err(corrupt("spool record hex field missing separator"));
    }
    let head = vstd::slice::slice_to_vec(vstd::slice::slice_subrange(bytes, 0, 16));
    assert(head@ =~= bytes@.take(16));
    match utf8_text(head) {
        None => Err(corrupt("spool record hex field is not UTF-8")),
        Some(text) => match parse_radix16(text.as_str()) {
            None => Err(corrupt("spool record hex field is not hexadecimal")),
            Some(v) => Ok((v, vstd::slice::slice_subrange(bytes, 17, bytes.len()))),
        },
    }
}


/// The views of the records in `v`.
pub open spec fn record_views(v: Seq<DecodedSpoolRecord>) -> Seq<(Seq<char>, bool, nat, nat)> {
    v.map_values(|r: DecodedSpoolRecord| r@)
}

/// `done` followed by the records of `r`, or the error of `r`.
pub open spec fn after_records(
    done: Seq<(Seq<char>, bool, nat, nat)>,
    r: Result<Seq<(Seq<char>, bool, nat, nat)>, Seq<char>>,
) -> Result<Seq<(Seq<char>, bool, nat, nat)>, Seq<char>> {
    match r {
        Ok(more) => Ok(done + more),
        Err(m) => Err(m),
    }
}

/// The records of the body of a plain segment: each is a hex length field,
/// that many bytes of UTF-8 text, and a newline.
pub open spec fn plain_records(body: Seq<u8>) -> Result<Seq<(Seq<char>, bool, nat, nat)>, Seq<char>>
    decreases body.len(),
{
    if body.len() == 0 {
        Ok(Seq::empty())
    } else {
        match hex_field(body) {
            Err(m) => Err(m),
            Ok(len) => {
                let rest = body.skip(17);
                if len > usize::MAX {
                    Err("plain spool record length exceeds usize"@)
                } else if rest.len() < len + 1 {
                    Err("plain spool record body is truncated"@)
                } else if rest[len as int] != 10 {
                    Err("plain spool record missing trailing newline"@)
                } else if !valid_utf8(rest.take(len as int)) {
                    Err("plain spool record is not UTF-8"@)
                } else {
                    match plain_records(rest.skip(len + 1)) {
                        Ok(more) => Ok(
                            seq![(decode_utf8(rest.take(len as int)), false, len as nat, len as nat)] + more,
                        ),
                        Err(m) => Err(m),
                    }
                }
            },
        }
    }
}

/// The records of the body of an RLE segment: each is a hex field with the
/// uncompressed length, a hex field with the payload length, the RLE
/// payload, and a newline; the payload expands to UTF-8 text.
pub open spec fn rle_records(body: Seq<u8>) -> Result<Seq<(Seq<char>, bool, nat, nat)>, Seq<char>>
    decreases body.len(),
{
    if body.len() == 0 {
        Ok(Seq::empty())
    } else {
        match hex_field(body) {
            Err(m) => Err(m),
            Ok(ulen) => match hex_field(body.skip(17)) {
                Err(m) => Err(m),
                Ok(plen) => {
                    let rest = body.skip(17).skip(17);
                    if ulen > usize::MAX {
                        Err("compressed spool record uncompressed length exceeds usize"@)
                    } else if plen > usize::MAX {
                        Err("compressed spool record payload length exceeds usize"@)
                    } else if rest.len() < plen + 1 {
                        Err("compressed spool record payload is truncated"@)
                    } else if rest[plen as int] != 10 {
                        Err("compressed spool record missing trailing newline"@)
                    } else {
                        match rle_decompress_result(rest.take(plen as int), ulen as int) {
                            Err(m) => Err(m),
                            Ok(data) => if !valid_utf8(data) {
                                Err("compressed spool record decompressed to non-UTF-8 data"@)
                            } else {
                                match rle_records(rest.skip(plen + 1)) {
                                    Ok(more) => Ok(
                                        seq![(decode_utf8(data), true, ulen as nat, plen as nat)] + more,
                                    ),
                                    Err(m) => Err(m),
                                }
                            },
                        }
                    }
                },
            },
        }
    }
}

proof fn lemma_push_record(
    done: Seq<DecodedSpoolRecord>,
    x: DecodedSpoolRecord,
    more: Result<Seq<(Seq<char>, bool, nat, nat)>, Seq<char>>,
)
    ensures
        after_records(record_views(done), match more {
            Ok(m) => Ok(seq![x@] + m),
            Err(e) => Err(e),
        }) == after_records(record_views(done.push(x)), more),
{
    assert(record_views(done.push(x)) =~= record_views(done).push(x@));
    match more {
        Ok(m) => {
            assert(record_views(done) + (seq![x@] + m) =~= record_views(done).push(x@) + m);
        },
        Err(e) => {},
    }
}

/// Reads the records of the body of a plain segment.
pub fn decode_plain_spool_records(body: &[u8]) -> (r: Result<Vec<DecodedSpoolRecord>, SpoolSegmentReadError>)
    ensures
        r matches Ok(v) ==> plain_records(body@) == Ok::<_, Seq<char>>(record_views(v@)),
        r matches Err(e) ==> !e.fault().0 && plain_records(body@) == Err::<Seq<(Seq<char>, bool, nat, nat)>, Seq<char>>(e.fault().1),
{
    let mut records: Vec<DecodedSpoolRecord> = Vec::new();
    let mut rest: &[u8] = body;
    assert(record_views(records@) + Seq::<(Seq<char>, bool, nat, nat)>::empty() =~= record_views(records@));
    while rest.len() > 0
        invariant
            plain_records(body@) == after_records(record_views(records@), plain_records(rest@)),
        decreases rest@.len(),
    {
        let (len, after) = match parse_spool_hex_field(rest) {
            Ok(x) => x,
            Err(e) => {
                return Err(e);
            },
        };
        if len > usize::MAX as u64 {
            return Err(corrupt("plain spool record length exceeds usize"));
        }
        let len = len as usize;
        if len >= after.len() {
            return Err(corrupt("plain spool record body is truncated"));
        }
        if after[len] != 10u8 {
            return Err(corrupt("plain spool record missing trailing newline"));
        }
        let payload = vstd::slice::slice_to_vec(vstd::slice::slice_subrange(after, 0, len));
        assert(payload@ =~= after@.take(len as int));
        let line = match utf8_text(payload) {
            Some(t) => t,
            None => {
                return Err(corrupt("plain spool record is not UTF-8"));
            },
        };
        let next = vstd::slice::slice_subrange(after, len + 1, after.len());
        assert(next@ =~= after@.skip(len + 1));
        let rec = DecodedSpoolRecord { line, compressed: false, uncompressed_len: len, payload_len: len };
        proof {
            lemma_push_record(records@, rec, plain_records(next@));
        }
        records.push(rec);
        rest = next;
    }
    assert(record_views(records@) + Seq::<(Seq<char>, bool, nat, nat)>::empty() =~= record_views(records@));
    Ok(records)
}

/// Reads the records of the body of an RLE segment.
pub fn decode_rle_spool_records(body: &[u8]) -> (r: Result<Vec<DecodedSpoolRecord>, SpoolSegmentReadError>)
    ensures
        r matches Ok(v) ==> rle_records(body@) == Ok::<_, Seq<char>>(record_views(v@)),
        r matches Err(e) ==> !e.fault().0 && rle_records(body@) == Err::<Seq<(Seq<char>, bool, nat, nat)>, Seq<char>>(e.fault().1),
{
    let mut records: Vec<DecodedSpoolRecord> = Vec::new();
    let mut rest: &[u8] = body;
    assert(record_views(records@) + Seq::<(Seq<char>, bool, nat, nat)>::empty() =~= record_views(records@));
    while rest.len() > 0
        invariant
            rle_records(body@) == after_records(record_views(records@), rle_records(rest@)),
        decreases rest@.len(),
    {
        let (ulen, after_u) = match parse_spool_hex_field(rest) {
            Ok(x) => x,
            Err(e) => {
                return Err(e);
            },
        };
        let (plen, after) = match parse_spool_hex_field(after_u) {
            Ok(x) => x,
            Err(e) => {
                return Err(e);
            },
        };
        if ulen > usize::MAX as u64 {
            return Err(corrupt("compressed spool record uncompressed length exceeds usize"));
        }
        if plen > usize::MAX as u64 {
            return Err(corrupt("compressed spool record payload length exceeds usize"));
        }
        let ulen = ulen as usize;
        let plen = plen as usize;
        if plen >= after.len() {
            return Err(corrupt("compressed spool record payload is truncated"));
        }
        if after[plen] != 10u8 {
            return Err(corrupt("compressed spool record missing trailing newline"));
        }
        let payload = vstd::slice::slice_subrange(after, 0, plen);
        assert(payload@ =~= after@.take(plen as int));
        let decoded = match rle_decompress(payload, ulen) {
            Ok(d) => d,
            Err(e) => {
                return Err(e);
            },
        };
        let ghost data = decoded@;
        let line = match utf8_text(decoded) {
            Some(t) => t,
            None => {
                return Err(corrupt("compressed spool record decompressed to non-UTF-8 data"));
            },
        };
        let next = vstd::slice::slice_subrange(after, plen + 1, after.len());
        assert(next@ =~= after@.skip(plen + 1));
        let rec = DecodedSpoolRecord { line, compressed: true, uncompressed_len: ulen, payload_len: plen };
        proof {
            lemma_push_record(records@, rec, rle_records(next@));
        }
        records.push(rec);
        rest = next;
    }
    assert(record_views(records@) + Seq::<(Seq<char>, bool, nat, nat)>::empty() =~= record_views(records@));
    Ok(records)
}


/// `b` starts with `prefix`.
pub open spec fn starts_with_bytes(b: Seq<u8>, prefix: Seq<u8>) -> bool {
    prefix.len() <= b.len() && b.take(prefix.len() as int) == prefix
}

/// Tests whether `b` starts with `prefix`.
pub fn bytes_start_with(b: &[u8], prefix: &[u8]) -> (r: bool)
    ensures
        r == starts_with_bytes(b@, prefix@),
{
    if prefix.len() > b.len() {
        return false;
    }
    let mut i: usize = 0;
    while i < prefix.len()
        invariant
            prefix@.len() <= b@.len(),
            i <= prefix@.len(),
            forall|k: int| 0 <= k < i ==> b@[k] == prefix@[k],
        decreases prefix@.len() - i,
    {
        if b[i] != prefix[i] {
            assert(b@.take(prefix@.len() as int)[i as int] != prefix@[i as int]);
            return false;
        }
        i = i + 1;
    }
    assert(b@.take(prefix@.len() as int) =~= prefix@);
    true
}

/// A body result with its error marked as corruption.
pub open spec fn as_corrupt(r: Result<Seq<(Seq<char>, bool, nat, nat)>, Seq<char>>) -> Result<
    Seq<(Seq<char>, bool, nat, nat)>,
    (bool, Seq<char>),
> {
    match r {
        Ok(v) => Ok(v),
        Err(m) => Err((false, m)),
    }
}

/// The records of a whole segment, chosen by its header.
pub open spec fn segment_records(bytes: Seq<u8>) -> Result<Seq<(Seq<char>, bool, nat, nat)>, (bool, Seq<char>)> {
    if starts_with_bytes(bytes, header_v1()) {
        as_corrupt(plain_records(bytes.skip(header_v1().len() as int)))
    } else if starts_with_bytes(bytes, header_v2_rle()) {
        as_corrupt(rle_records(bytes.skip(header_v2_rle().len() as int)))
    } else if starts_with_bytes(bytes, v2_prefix()) {
        Err((true, "unsupported spool segment compression or v2 record header"@))
    } else {
        Err((true, "unsupported spool segment header"@))
    }
}

/// Reads back every record of a spool segment.
pub fn decode_spool_segment_bytes(bytes: &[u8]) -> (r: Result<Vec<DecodedSpoolRecord>, SpoolSegmentReadError>)
    ensures
        r matches Ok(v) ==> segment_records(bytes@) == Ok::<_, (bool, Seq<char>)>(record_views(v@)),
        r matches Err(e) ==> segment_records(bytes@) == Err::<Seq<(Seq<char>, bool, nat, nat)>, (bool, Seq<char>)>(e.fault()),
{
    let v1 = spool_segment_header_v1();
    let v2 = spool_segment_header_v2_rle();
    let prefix = spool_v2_prefix();
    if bytes_start_with(bytes, v1.as_slice()) {
        let body = vstd::slice::slice_subrange(bytes, v1.len(), bytes.len());
        assert(body@ =~= bytes@.skip(header_v1().len() as int));
        decode_plain_spool_records(body)
    } else if bytes_start_with(bytes, v2.as_slice()) {
        let body = vstd::slice::slice_subrange(bytes, v2.len(), bytes.len());
        assert(body@ =~= bytes@.skip(header_v2_rle().len() as int));
        decode_rle_spool_records(body)
    } else if bytes_start_with(bytes, prefix.as_slice()) {
        Err(SpoolSegmentReadError::Unsupported(owned("unsupported spool segment compression or v2 record header")))
    } else {
        Err(SpoolSegmentReadError::Unsupported(owned("unsupported spool segment header")))
    }
}


// ---------------------------------------------------------------------------
// Writing records
// ---------------------------------------------------------------------------

/// `n` as `width` lower-case hex digits, zero-padded on the left, as
/// `{:016x}` writes it for `width` sixteen.
pub open spec fn hex_fixed(n: nat, width: nat) -> Seq<char>
    decreases width,
{
    if width == 0 {
        Seq::empty()
    } else {
        hex_fixed(n / 16, (width - 1) as nat).push(hex_digit(n % 16))
    }
}

proof fn lemma_hex_fixed(n: nat, width: nat)
    ensures
        hex_fixed(n, width).len() == width,
        forall|i: int| 0 <= i < width ==> is_hex_digit(#[trigger] hex_fixed(n, width)[i]),
        vstd::utf8::is_ascii_chars(hex_fixed(n, width)),
        hex_digits_value(hex_fixed(n, width)) == n % pow16(width),
    decreases width,
{
    if width > 0 {
        let w1 = (width - 1) as nat;
        lemma_hex_fixed(n / 16, w1);
        let h = hex_fixed(n, width);
        let q = n / 16;
        let r = n % 16;
        let d = hex_digit(r);
        assert(h.drop_last() =~= hex_fixed(q, w1));
        assert(hex_value(d) == r);
        assert(is_hex_digit(d));
        assert forall|i: int| 0 <= i < width implies is_hex_digit(#[trigger] h[i]) by {
            if i < w1 {
                assert(h[i] == hex_fixed(q, w1)[i]);
            }
        }
        let p = pow16(w1);
        assert(p > 0) by {
            lemma_pow16_pos(w1);
        }
        let b = q % p;
        let a = q / p;
        assert(q == a * p + b) by (nonlinear_arith)
            requires
                p > 0,
                a == q / p,
                b == q % p,
        ;
        assert(n == 16 * q + r);
        assert(n == a * (16 * p) + (16 * b + r)) by (nonlinear_arith)
            requires
                n == 16 * q + r,
                q == a * p + b,
        ;
        assert(0 <= 16 * b + r < 16 * p) by (nonlinear_arith)
            requires
                0 <= b < p,
                0 <= r < 16,
        ;
        vstd::arithmetic::div_mod::lemma_fundamental_div_mod_converse(
            n as int,
            (16 * p) as int,
            a as int,
            (16 * b + r) as int,
        );
        assert(hex_digits_value(h) == hex_digits_value(hex_fixed(q, w1)) * 16 + r);
    }
}

proof fn lemma_pow16_pos(n: nat)
    ensures
        pow16(n) > 0,
    decreases n,
{
    if n > 0 {
        lemma_pow16_pos((n - 1) as nat);
    }
}

/// The bytes of a sixteen-digit hex field and its separator.
pub open spec fn hex_field_bytes(n: nat) -> Seq<u8> {
    vstd::utf8::encode_utf8(hex_fixed(n, 16)).push(32u8)
}

/// A hex field written for a 64-bit value reads back as that value.
proof fn lemma_hex_field_round_trip(n: u64, rest: Seq<u8>)
    ensures
        hex_field_bytes(n as nat).len() == 17,
        hex_field(hex_field_bytes(n as nat) + rest) == Ok::<u64, Seq<char>>(n),
        (hex_field_bytes(n as nat) + rest).skip(17) == rest,
{
    broadcast use vstd::utf8::group_utf8_lib;

    lemma_hex_fixed(n as nat, 16);
    let h = hex_fixed(n as nat, 16);
    vstd::utf8::is_ascii_chars_encode_utf8(h);
    let e = vstd::utf8::encode_utf8(h);
    let b = hex_field_bytes(n as nat) + rest;
    assert(b.take(16) =~= e);
    assert(b[16] == 32u8);
    assert(b.skip(17) =~= rest);
    assert(decode_utf8(e) == h);
    assert(is_hex_digit(h[0]));
    assert(strip_plus(h) == h);
    assert(pow16(16) == 18446744073709551616nat) by {
        reveal_with_fuel(pow16, 17);
    }
    assert(hex_digits_value(h) == n);
}

/// Appends `hex_fixed(n, width)` to `out`.
fn push_hex_fixed(out: &mut String, n: u64, width: usize)
    ensures
        final(out)@ == old(out)@ + hex_fixed(n as nat, width as nat),
    decreases width,
{
    if width > 0 {
        push_hex_fixed(out, n / 16, width - 1);
        let d = hex_digit_exec((n % 16) as u32);
        push_char(out, d);
        assert(final(out)@ =~= old(out)@ + hex_fixed(n as nat, width as nat));
    }
}

/// Appends every byte of `src` to `out`.
fn push_bytes(out: &mut Vec<u8>, src: &[u8])
    ensures
        final(out)@ == old(out)@ + src@,
{
    let mut i: usize = 0;
    while i < src.len()
        invariant
            i <= src@.len(),
            out@ == old(out)@ + src@.take(i as int),
        decreases src@.len() - i,
    {
        out.push(src[i]);
        i = i + 1;
        assert(out@ =~= old(out)@ + src@.take(i as int));
    }
    assert(src@.take(src@.len() as int) =~= src@);
}

/// Appends the hex field for `n` and its separator to `out`.
fn push_hex_field(out: &mut Vec<u8>, n: u64)
    ensures
        final(out)@ == old(out)@ + hex_field_bytes(n as nat),
{
    let mut text = String::new();
    push_hex_fixed(&mut text, n, 16);
    assert(text@ =~= hex_fixed(n as nat, 16));
    push_bytes(out, text.as_str().as_bytes());
    out.push(32u8);
    assert(final(out)@ =~= old(out)@ + hex_field_bytes(n as nat));
}


/// Bytes that the frame of a record adds around a plain line.
pub const SPOOL_RECORD_PREFIX_BYTES: u64 = 17;
/// Bytes that the frame of a record adds before an RLE payload.
pub const SPOOL_COMPRESSED_RECORD_PREFIX_BYTES: u64 = 34;
/// Bytes that the frame of a record adds after its body.
pub const SPOOL_RECORD_SUFFIX_BYTES: u64 = 1;

/// `a + b`, or `u64::MAX` when that overflows.
pub open spec fn sat_add(a: int, b: int) -> int {
    if a + b > u64::MAX {
        u64::MAX as int
    } else {
        a + b
    }
}

/// The bytes of a plain record holding `line`.
pub open spec fn plain_frame(line: Seq<char>) -> Seq<u8> {
    hex_field_bytes(encode_utf8(line).len()) + encode_utf8(line) + seq![10u8]
}

/// The bytes of an RLE record for `ulen` bytes of text compressed to
/// `payload`.
pub open spec fn rle_frame(ulen: nat, payload: Seq<u8>) -> Seq<u8> {
    hex_field_bytes(ulen) + hex_field_bytes(payload.len()) + payload + seq![10u8]
}

/// Size accounted to a plain record holding `line`.
pub fn spool_plain_record_bytes(line: &str) -> (r: u64)
    requires
        encode_utf8(line@).len() <= usize::MAX,
    ensures
        r == sat_add(sat_add(17, encode_utf8(line@).len() as int), 1),
{
    let len = line.len() as u64;
    SPOOL_RECORD_PREFIX_BYTES.saturating_add(len).saturating_add(SPOOL_RECORD_SUFFIX_BYTES)
}

/// The header that starts a segment written with `compression`.
pub fn spool_segment_header(compression: SpoolCompression) -> (r: Vec<u8>)
    ensures
        r@ == match compression {
            SpoolCompression::NoCompression => header_v1(),
            SpoolCompression::Rle => header_v2_rle(),
        },
{
    match compression {
        SpoolCompression::NoCompression => spool_segment_header_v1(),
        SpoolCompression::Rle => spool_segment_header_v2_rle(),
    }
}

/// A record ready to be written to a segment.
#[derive(Debug, PartialEq, Eq)]
pub enum PendingSpoolRecord {
    Plain { line: String },
    Rle { uncompressed_len: usize, payload: Vec<u8> },
}

impl PendingSpoolRecord {
    /// The bytes that writing this record appends to its segment.
    pub open spec fn frame_spec(&self) -> Seq<u8> {
        match self {
            PendingSpoolRecord::Plain { line } => plain_frame(line@),
            PendingSpoolRecord::Rle { uncompressed_len, payload } => rle_frame(
                *uncompressed_len as nat,
                payload@,
            ),
        }
    }

    /// The record for `line` in a segment written with `compression`.
    pub fn build(line: &str, compression: SpoolCompression) -> (r: Self)
        requires
            encode_utf8(line@).len() <= usize::MAX,
        ensures
            compression == SpoolCompression::NoCompression ==> (r matches PendingSpoolRecord::Plain { line: l }
                && l@ == line@),
            compression == SpoolCompression::Rle ==> (r matches PendingSpoolRecord::Rle {
                uncompressed_len: u,
                payload: p,
            } && u == encode_utf8(line@).len() && p@ == rle_encoding(encode_utf8(line@), 0)),
    {
        match compression {
            SpoolCompression::NoCompression => PendingSpoolRecord::Plain { line: owned(line) },
            SpoolCompression::Rle => {
                let bytes = line.as_bytes();
                PendingSpoolRecord::Rle { uncompressed_len: line.len(), payload: rle_compress(bytes) }
            },
        }
    }

    /// Size accounted to this record.
    pub fn total_bytes(&self) -> (r: u64)
        requires
            self matches PendingSpoolRecord::Plain { line } ==> encode_utf8(line@).len() <= usize::MAX,
        ensures
            r == match self {
                PendingSpoolRecord::Plain { line } => sat_add(sat_add(17, encode_utf8(line@).len() as int), 1),
                PendingSpoolRecord::Rle { payload, .. } => sat_add(sat_add(34, payload@.len() as int), 1),
            },
    {
        match self {
            PendingSpoolRecord::Plain { line } => spool_plain_record_bytes(line.as_str()),
            PendingSpoolRecord::Rle { payload, .. } => {
                let payload_bytes = payload.len() as u64;
                SPOOL_COMPRESSED_RECORD_PREFIX_BYTES.saturating_add(payload_bytes).saturating_add(
                    SPOOL_RECORD_SUFFIX_BYTES,
                )
            },
        }
    }

    /// The bytes that writing this record appends to its segment.
    pub fn frame(&self) -> (r: Vec<u8>)
        requires
            self matches PendingSpoolRecord::Plain { line } ==> encode_utf8(line@).len() <= usize::MAX,
        ensures
            r@ == self.frame_spec(),
    {
        let mut out: Vec<u8> = Vec::new();
        match self {
            PendingSpoolRecord::Plain { line } => {
                let bytes = line.as_str().as_bytes();
                push_hex_field(&mut out, bytes.len() as u64);
                push_bytes(&mut out, bytes);
            },
            PendingSpoolRecord::Rle { uncompressed_len, payload } => {
                push_hex_field(&mut out, *uncompressed_len as u64);
                push_hex_field(&mut out, payload.len() as u64);
                push_bytes(&mut out, payload.as_slice());
            },
        }
        out.push(10u8);
        assert(out@ =~= self.frame_spec());
        out
    }
}


// ---------------------------------------------------------------------------
// What is written reads back
// ---------------------------------------------------------------------------

/// The frames of plain records for `lines`, one after the other.
pub open spec fn plain_frames(lines: Seq<Seq<char>>) -> Seq<u8>
    decreases lines.len(),
{
    if lines.len() == 0 {
        Seq::empty()
    } else {
        plain_frame(lines[0]) + plain_frames(lines.drop_first())
    }
}

/// What reading back the plain records for `lines` gives.
pub open spec fn plain_views(lines: Seq<Seq<char>>) -> Seq<(Seq<char>, bool, nat, nat)> {
    Seq::new(
        lines.len(),
        |i: int| (lines[i], false, encode_utf8(lines[i]).len(), encode_utf8(lines[i]).len()),
    )
}

/// The frames of RLE records for `lines` with the payloads `payloads`.
pub open spec fn rle_frames(lines: Seq<Seq<char>>, payloads: Seq<Seq<u8>>) -> Seq<u8>
    decreases lines.len(),
{
    if lines.len() == 0 || payloads.len() == 0 {
        Seq::empty()
    } else {
        rle_frame(encode_utf8(lines[0]).len(), payloads[0]) + rle_frames(
            lines.drop_first(),
            payloads.drop_first(),
        )
    }
}

/// What reading back the RLE records for `lines` and `payloads` gives.
pub open spec fn rle_views(lines: Seq<Seq<char>>, payloads: Seq<Seq<u8>>) -> Seq<(Seq<char>, bool, nat, nat)> {
    Seq::new(
        lines.len(),
        |i: int| (lines[i], true, encode_utf8(lines[i]).len(), payloads[i].len()),
    )
}

/// A segment with the plain header followed by the frames of `lines`
/// reads back as `lines`, each with its length in bytes.
pub proof fn lemma_plain_segment_round_trip(lines: Seq<Seq<char>>)
    requires
        forall|i: int| 0 <= i < lines.len() ==> encode_utf8(#[trigger] lines[i]).len() <= usize::MAX,
    ensures
        plain_records(plain_frames(lines)) == Ok::<_, Seq<char>>(plain_views(lines)),
        segment_records(header_v1() + plain_frames(lines)) == Ok::<_, (bool, Seq<char>)>(plain_views(lines)),
    decreases lines.len(),
{
    broadcast use vstd::utf8::group_utf8_lib;

    if lines.len() == 0 {
        assert(plain_views(lines) =~= Seq::<(Seq<char>, bool, nat, nat)>::empty());
    } else {
        let rest_lines = lines.drop_first();
        assert forall|i: int| 0 <= i < rest_lines.len() implies encode_utf8(#[trigger] rest_lines[i]).len()
            <= usize::MAX by {
            assert(rest_lines[i] == lines[i + 1]);
        }
        lemma_plain_segment_round_trip(rest_lines);
        let l = lines[0];
        let e = encode_utf8(l);
        let more = plain_frames(rest_lines);
        let n = e.len() as u64;
        let tail = e + seq![10u8] + more;
        lemma_hex_field_round_trip(n, tail);
        assert(plain_frames(lines) =~= hex_field_bytes(n as nat) + tail);
        assert(tail.take(e.len() as int) =~= e);
        assert(tail[e.len() as int] == 10);
        assert(tail.skip(e.len() as int + 1) =~= more);
        assert(plain_views(lines) =~= seq![(l, false, e.len(), e.len())] + plain_views(rest_lines));
    }
    let b = header_v1() + plain_frames(lines);
    assert(b.take(header_v1().len() as int) =~= header_v1());
    assert(b.skip(header_v1().len() as int) =~= plain_frames(lines));
}

proof fn lemma_rle_record_step(l: Seq<char>, p: Seq<u8>, more: Seq<u8>)
    requires
        encode_utf8(l).len() <= usize::MAX,
        p.len() <= usize::MAX,
        rle_decode(p) == Some(encode_utf8(l)),
    ensures
        rle_records(rle_frame(encode_utf8(l).len(), p) + more) == match rle_records(more) {
            Ok(v) => Ok(seq![(l, true, encode_utf8(l).len(), p.len())] + v),
            Err(m) => Err::<Seq<(Seq<char>, bool, nat, nat)>, Seq<char>>(m),
        },
{
    broadcast use vstd::utf8::group_utf8_lib;

    let e = encode_utf8(l);
    let un = e.len() as u64;
    let pn = p.len() as u64;
    let tail = p + seq![10u8] + more;
    lemma_hex_field_round_trip(pn, tail);
    lemma_hex_field_round_trip(un, hex_field_bytes(pn as nat) + tail);
    assert(rle_frame(e.len(), p) + more =~= hex_field_bytes(un as nat) + (hex_field_bytes(pn as nat) + tail));
    assert(tail.take(p.len() as int) =~= p);
    assert(tail[p.len() as int] == 10);
    assert(tail.skip(p.len() as int + 1) =~= more);
    lemma_rle_round_trip(p, e);
}

/// A segment with the RLE header followed by the frames of `lines`, each
/// compressed to a payload that decodes to its bytes, reads back as
/// `lines`, each with its length and its payload's length.
pub proof fn lemma_rle_segment_round_trip(lines: Seq<Seq<char>>, payloads: Seq<Seq<u8>>)
    requires
        lines.len() == payloads.len(),
        forall|i: int| 0 <= i < lines.len() ==> encode_utf8(#[trigger] lines[i]).len() <= usize::MAX,
        forall|i: int| 0 <= i < lines.len() ==> (#[trigger] payloads[i]).len() <= usize::MAX,
        forall|i: int| 0 <= i < lines.len() ==> rle_decode(#[trigger] payloads[i]) == Some(encode_utf8(lines[i])),
    ensures
        rle_records(rle_frames(lines, payloads)) == Ok::<_, Seq<char>>(rle_views(lines, payloads)),
        segment_records(header_v2_rle() + rle_frames(lines, payloads)) == Ok::<_, (bool, Seq<char>)>(
            rle_views(lines, payloads),
        ),
    decreases lines.len(),
{
    if lines.len() == 0 {
        assert(rle_views(lines, payloads) =~= Seq::<(Seq<char>, bool, nat, nat)>::empty());
    } else {
        let rl = lines.drop_first();
        let rp = payloads.drop_first();
        assert forall|i: int| 0 <= i < rl.len() implies encode_utf8(#[trigger] rl[i]).len() <= usize::MAX by {
            assert(rl[i] == lines[i + 1]);
        }
        assert forall|i: int| 0 <= i < rl.len() implies (#[trigger] rp[i]).len() <= usize::MAX by {
            assert(rp[i] == payloads[i + 1]);
        }
        assert forall|i: int| 0 <= i < rl.len() implies rle_decode(#[trigger] rp[i]) == Some(encode_utf8(rl[i])) by {
            assert(rp[i] == payloads[i + 1]);
            assert(rl[i] == lines[i + 1]);
        }
        lemma_rle_segment_round_trip(rl, rp);
        let l = lines[0];
        let p = payloads[0];
        assert(rle_decode(p) == Some(encode_utf8(l)));
        lemma_rle_record_step(l, p, rle_frames(rl, rp));
        assert(rle_views(lines, payloads) =~= seq![(l, true, encode_utf8(l).len(), p.len())] + rle_views(rl, rp));
    }
    lemma_rle_segment_header(rle_frames(lines, payloads));
}

/// A segment with the RLE header reads as the RLE records of its body.
pub proof fn lemma_rle_segment_header(body: Seq<u8>)
    ensures
        segment_records(header_v2_rle() + body) == as_corrupt(rle_records(body)),
{
    let b = header_v2_rle() + body;
    assert(b.take(header_v2_rle().len() as int) =~= header_v2_rle());
    assert(b.skip(header_v2_rle().len() as int) =~= body);
    assert(b[15] != header_v1()[15]);
}

} // verus!
