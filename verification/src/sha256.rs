//! SHA-256 (FIPS 180-4) of a byte string, as lower-case hex.
use vstd::prelude::*;
use crate::text::{hex_digit, push_char};

verus! {

pub open spec fn rotr(x: u32, n: u32) -> u32 {
    (x >> n) | (x << ((32 - n) as u32))
}

fn rotr_exec(x: u32, n: u32) -> (r: u32)
    requires
        0 < n < 32,
    ensures
        r == rotr(x, n),
{
    (x >> n) | (x << (32 - n))
}

pub open spec fn big_sigma0(x: u32) -> u32 {
    rotr(x, 2) ^ rotr(x, 13) ^ rotr(x, 22)
}

pub open spec fn big_sigma1(x: u32) -> u32 {
    rotr(x, 6) ^ rotr(x, 11) ^ rotr(x, 25)
}

pub open spec fn small_sigma0(x: u32) -> u32 {
    rotr(x, 7) ^ rotr(x, 18) ^ (x >> 3)
}

pub open spec fn small_sigma1(x: u32) -> u32 {
    rotr(x, 17) ^ rotr(x, 19) ^ (x >> 10)
}

pub open spec fn choose_bits(e: u32, f: u32, g: u32) -> u32 {
    (e & f) ^ (!e & g)
}

pub open spec fn majority(a: u32, b: u32, c: u32) -> u32 {
    (a & b) ^ (a & c) ^ (b & c)
}

/// The round constants.
pub open spec fn round_constants() -> Seq<u32> {
    seq![
        0x428a2f98u32, 0x71374491, 0xb5c0fbcf, 0xe9b5dba5, 0x3956c25b, 0x59f111f1, 0x923f82a4, 0xab1c5ed5,
        0xd807aa98, 0x12835b01, 0x243185be, 0x550c7dc3, 0x72be5d74, 0x80deb1fe, 0x9bdc06a7, 0xc19bf174,
        0xe49b69c1, 0xefbe4786, 0x0fc19dc6, 0x240ca1cc, 0x2de92c6f, 0x4a7484aa, 0x5cb0a9dc, 0x76f988da,
        0x983e5152, 0xa831c66d, 0xb00327c8, 0xbf597fc7, 0xc6e00bf3, 0xd5a79147, 0x06ca6351, 0x14292967,
        0x27b70a85, 0x2e1b2138, 0x4d2c6dfc, 0x53380d13, 0x650a7354, 0x766a0abb, 0x81c2c92e, 0x92722c85,
        0xa2bfe8a1, 0xa81a664b, 0xc24b8b70, 0xc76c51a3, 0xd192e819, 0xd6990624, 0xf40e3585, 0x106aa070,
        0x19a4c116, 0x1e376c08, 0x2748774c, 0x34b0bcb5, 0x391c0cb3, 0x4ed8aa4a, 0x5b9cca4f, 0x682e6ff3,
        0x748f82ee, 0x78a5636f, 0x84c87814, 0x8cc70208, 0x90befffa, 0xa4506ceb, 0xbef9a3f7, 0xc67178f2,
    ]
}

/// The initial hash value.
pub open spec fn initial_hash() -> Seq<u32> {
    seq![0x6a09e667u32, 0xbb67ae85, 0x3c6ef372, 0xa54ff53a, 0x510e527f, 0x9b05688c, 0x1f83d9ab, 0x5be0cd19]
}

/// The big-endian word at byte `4 * i` of `m`.
pub open spec fn be_word(m: Seq<u8>, i: int) -> u32 {
    ((m[4 * i] as u32) * 0x1000000 + (m[4 * i + 1] as u32) * 0x10000 + (m[4 * i + 2] as u32) * 0x100 + (m[4 * i + 3] as u32)) as u32
}

/// Word `t` of the message schedule of `block`.
pub open spec fn schedule(block: Seq<u8>, t: int) -> u32
    decreases t,
{
    if t < 16 {
        be_word(block, t)
    } else {
        small_sigma1(schedule(block, t - 2)).wrapping_add(schedule(block, t - 7)).wrapping_add(
            small_sigma0(schedule(block, t - 15)),
        ).wrapping_add(schedule(block, t - 16))
    }
}

/// One round on the working variables `s` (`a` to `h`).
pub open spec fn round(s: Seq<u32>, k: u32, w: u32) -> Seq<u32> {
    let t1 = s[7].wrapping_add(big_sigma1(s[4])).wrapping_add(choose_bits(s[4], s[5], s[6])).wrapping_add(k).wrapping_add(w);
    let t2 = big_sigma0(s[0]).wrapping_add(majority(s[0], s[1], s[2]));
    seq![t1.wrapping_add(t2), s[0], s[1], s[2], s[3].wrapping_add(t1), s[4], s[5], s[6]]
}

/// The working variables after the first `t` rounds on `block`.
pub open spec fn rounds(h: Seq<u32>, block: Seq<u8>, t: int) -> Seq<u32>
    decreases t,
{
    if t <= 0 {
        h
    } else {
        round(rounds(h, block, t - 1), round_constants()[t - 1], schedule(block, t - 1))
    }
}

/// The hash value after processing `block`.
pub open spec fn compress(h: Seq<u32>, block: Seq<u8>) -> Seq<u32> {
    let v = rounds(h, block, 64);
    Seq::new(8, |i: int| h[i].wrapping_add(v[i]))
}

/// The message with its padding: `0x80`, zeros, and its bit length as
/// eight big-endian bytes, to a multiple of 64 bytes.
pub open spec fn padded(m: Seq<u8>) -> Seq<u8> {
    let r = (m.len() + 1) % 64;
    let z = if r <= 56 { 56 - r } else { 120 - r };
    let bits = (m.len() * 8) as u64;
    m + seq![0x80u8] + Seq::new(z as nat, |i: int| 0u8) + Seq::new(8, |i: int| ((bits >> ((56 - 8 * i) as u64)) & 0xff) as u8)
}

/// The hash value after the first `n` blocks of `p`.
pub open spec fn hash_blocks(p: Seq<u8>, n: int) -> Seq<u32>
    decreases n,
{
    if n <= 0 {
        initial_hash()
    } else {
        compress(hash_blocks(p, n - 1), p.subrange(64 * (n - 1), 64 * n))
    }
}

/// The SHA-256 digest of `m`, as 32 bytes.
pub open spec fn sha256(m: Seq<u8>) -> Seq<u8> {
    let p = padded(m);
    let h = hash_blocks(p, (p.len() / 64) as int);
    Seq::new(32, |i: int| ((h[i / 4] >> ((24 - 8 * (i % 4)) as u32)) & 0xff) as u8)
}

/// Lower-case hex of bytes, two digits each.
pub open spec fn hex_bytes(b: Seq<u8>) -> Seq<char>
    decreases b.len(),
{
    if b.len() == 0 {
        Seq::empty()
    } else {
        hex_bytes(b.drop_last()).push(hex_digit((b.last() / 16) as nat)).push(hex_digit((b.last() % 16) as nat))
    }
}

fn k_table() -> (r: Vec<u32>)
    ensures
        r@ == round_constants(),
{
    let r = vec![
        0x428a2f98u32, 0x71374491, 0xb5c0fbcf, 0xe9b5dba5, 0x3956c25b, 0x59f111f1, 0x923f82a4, 0xab1c5ed5,
        0xd807aa98, 0x12835b01, 0x243185be, 0x550c7dc3, 0x72be5d74, 0x80deb1fe, 0x9bdc06a7, 0xc19bf174,
        0xe49b69c1, 0xefbe4786, 0x0fc19dc6, 0x240ca1cc, 0x2de92c6f, 0x4a7484aa, 0x5cb0a9dc, 0x76f988da,
        0x983e5152, 0xa831c66d, 0xb00327c8, 0xbf597fc7, 0xc6e00bf3, 0xd5a79147, 0x06ca6351, 0x14292967,
        0x27b70a85, 0x2e1b2138, 0x4d2c6dfc, 0x53380d13, 0x650a7354, 0x766a0abb, 0x81c2c92e, 0x92722c85,
        0xa2bfe8a1, 0xa81a664b, 0xc24b8b70, 0xc76c51a3, 0xd192e819, 0xd6990624, 0xf40e3585, 0x106aa070,
        0x19a4c116, 0x1e376c08, 0x2748774c, 0x34b0bcb5, 0x391c0cb3, 0x4ed8aa4a, 0x5b9cca4f, 0x682e6ff3,
        0x748f82ee, 0x78a5636f, 0x84c87814, 0x8cc70208, 0x90befffa, 0xa4506ceb, 0xbef9a3f7, 0xc67178f2,
    ];
    assert(r@ =~= round_constants());
    r
}

/// The message schedule of the block at `p[off..off + 64]`.
fn schedule_exec(p: &Vec<u8>, off: usize) -> (w: Vec<u32>)
    requires
        off + 64 <= p@.len(),
    ensures
        w@.len() == 64,
        forall|t: int| 0 <= t < 64 ==> #[trigger] w@[t] == schedule(p@.subrange(off as int, off + 64), t),
{
    let ghost block = p@.subrange(off as int, off + 64);
    let mut w: Vec<u32> = Vec::new();
    let mut t: usize = 0;
    let pl = p.len();
    while t < 16
        invariant
            pl == p@.len(),
            t <= 16,
            off + 64 <= p@.len(),
            block == p@.subrange(off as int, off + 64),
            w@.len() == t,
            forall|j: int| 0 <= j < t ==> #[trigger] w@[j] == schedule(block, j),
        decreases 16 - t,
    {
        let i = off + 4 * t;
        let x = (p[i] as u32) * 0x1000000 + (p[i + 1] as u32) * 0x10000 + (p[i + 2] as u32) * 0x100 + (p[i + 3] as u32);
        assert(block[4 * t as int] == p@[i as int]);
        assert(block[4 * t + 1] == p@[i + 1]);
        assert(block[4 * t + 2] == p@[i + 2]);
        assert(block[4 * t + 3] == p@[i + 3]);
        w.push(x);
        t = t + 1;
    }
    while t < 64
        invariant
            16 <= t <= 64,
            w@.len() == t,
            forall|j: int| 0 <= j < t ==> #[trigger] w@[j] == schedule(block, j),
        decreases 64 - t,
    {
        let a = w[t - 2];
        let s1 = rotr_exec(a, 17) ^ rotr_exec(a, 19) ^ (a >> 10);
        let b = w[t - 15];
        let s0 = rotr_exec(b, 7) ^ rotr_exec(b, 18) ^ (b >> 3);
        let x = s1.wrapping_add(w[t - 7]).wrapping_add(s0).wrapping_add(w[t - 16]);
        assert(x == schedule(block, t as int));
        w.push(x);
        t = t + 1;
    }
    w
}

/// The hash value `h` after the block at `p[off..off + 64]`.
fn compress_exec(h: &Vec<u32>, p: &Vec<u8>, off: usize, k: &Vec<u32>) -> (r: Vec<u32>)
    requires
        h@.len() == 8,
        off + 64 <= p@.len(),
        k@ == round_constants(),
    ensures
        r@ == compress(h@, p@.subrange(off as int, off + 64)),
{
    let ghost block = p@.subrange(off as int, off + 64);
    let w = schedule_exec(p, off);
    let mut s: Vec<u32> = Vec::new();
    let mut i: usize = 0;
    while i < 8
        invariant
            i <= 8,
            h@.len() == 8,
            s@ == h@.take(i as int),
        decreases 8 - i,
    {
        s.push(h[i]);
        i = i + 1;
        assert(s@ =~= h@.take(i as int));
    }
    assert(s@ =~= rounds(h@, block, 0));
    let mut t: usize = 0;
    while t < 64
        invariant
            t <= 64,
            k@ == round_constants(),
            w@.len() == 64,
            forall|j: int| 0 <= j < 64 ==> #[trigger] w@[j] == schedule(block, j),
            s@ == rounds(h@, block, t as int),
            s@.len() == 8,
        decreases 64 - t,
    {
        let a = s[0];
        let b = s[1];
        let c = s[2];
        let d = s[3];
        let e = s[4];
        let f = s[5];
        let g = s[6];
        let hh = s[7];
        let s1 = rotr_exec(e, 6) ^ rotr_exec(e, 11) ^ rotr_exec(e, 25);
        let ch = (e & f) ^ (!e & g);
        let t1 = hh.wrapping_add(s1).wrapping_add(ch).wrapping_add(k[t]).wrapping_add(w[t]);
        let s0 = rotr_exec(a, 2) ^ rotr_exec(a, 13) ^ rotr_exec(a, 22);
        let maj = (a & b) ^ (a & c) ^ (b & c);
        let t2 = s0.wrapping_add(maj);
        let next = vec![t1.wrapping_add(t2), a, b, c, d.wrapping_add(t1), e, f, g];
        assert(next@ =~= round(s@, round_constants()[t as int], schedule(block, t as int)));
        s = next;
        t = t + 1;
    }
    let mut out: Vec<u32> = Vec::new();
    let mut j: usize = 0;
    while j < 8
        invariant
            j <= 8,
            h@.len() == 8,
            s@.len() == 8,
            s@ == rounds(h@, block, 64),
            out@.len() == j,
            forall|q: int| 0 <= q < j ==> #[trigger] out@[q] == h@[q].wrapping_add(s@[q]),
        decreases 8 - j,
    {
        out.push(h[j].wrapping_add(s[j]));
        j = j + 1;
    }
    assert(out@ =~= compress(h@, block));
    out
}

fn padded_exec(m: &[u8]) -> (r: Vec<u8>)
    requires
        m@.len() * 8 <= u64::MAX,
    ensures
        r@ == padded(m@),
        r@.len() % 64 == 0,
{
    let ghost z: int = {
        let r = (m@.len() + 1) % 64;
        if r <= 56 { 56 - r } else { 120 - r }
    };
    let mut out: Vec<u8> = Vec::new();
    let mut i: usize = 0;
    while i < m.len()
        invariant
            i <= m@.len(),
            out@ == m@.take(i as int),
        decreases m@.len() - i,
    {
        out.push(m[i]);
        i = i + 1;
        assert(out@ =~= m@.take(i as int));
    }
    assert(m@.take(i as int) =~= m@);
    out.push(0x80u8);
    let r = (m.len() % 64 + 1) % 64;
    let zeros: usize = if r <= 56 { 56 - r } else { 120 - r };
    assert(zeros == z);
    let base = out.len();
    let mut j: usize = 0;
    while j < zeros
        invariant
            j <= zeros,
            base == m@.len() + 1,
            out@ == m@ + seq![0x80u8] + Seq::new(j as nat, |q: int| 0u8),
        decreases zeros - j,
    {
        out.push(0u8);
        j = j + 1;
        assert(out@ =~= m@ + seq![0x80u8] + Seq::new(j as nat, |q: int| 0u8));
    }
    let bits: u64 = (m.len() as u64) * 8;
    let ghost pre = out@;
    let mut q: usize = 0;
    while q < 8
        invariant
            q <= 8,
            bits == (m@.len() * 8) as u64,
            out@ == pre + Seq::new(q as nat, |x: int| ((bits >> ((56 - 8 * x) as u64)) & 0xff) as u8),
        decreases 8 - q,
    {
        let shift: u64 = 56 - 8 * (q as u64);
        out.push(((bits >> shift) & 0xff) as u8);
        q = q + 1;
        assert(out@ =~= pre + Seq::new(q as nat, |x: int| ((bits >> ((56 - 8 * x) as u64)) & 0xff) as u8));
    }
    assert(out@ =~= padded(m@));
    out
}

/// The SHA-256 digest of `m`.
pub fn sha256_bytes(m: &[u8]) -> (r: Vec<u8>)
    requires
        m@.len() * 8 <= u64::MAX,
    ensures
        r@ == sha256(m@),
{
    let p = padded_exec(m);
    let k = k_table();
    let mut h: Vec<u32> = vec![0x6a09e667u32, 0xbb67ae85, 0x3c6ef372, 0xa54ff53a, 0x510e527f, 0x9b05688c, 0x1f83d9ab, 0x5be0cd19];
    assert(h@ =~= initial_hash());
    let pl = p.len();
    let blocks = pl / 64;
    let mut n: usize = 0;
    while n < blocks
        invariant
            pl == p@.len(),
            n <= blocks,
            blocks == p@.len() / 64,
            p@.len() % 64 == 0,
            k@ == round_constants(),
            h@.len() == 8,
            h@ == hash_blocks(p@, n as int),
        decreases blocks - n,
    {
        assert(64 * n + 64 <= pl) by (nonlinear_arith)
            requires
                n < blocks,
                blocks == pl / 64,
        ;
        let next = compress_exec(&h, &p, 64 * n, &k);
        h = next;
        n = n + 1;
    }
    let mut out: Vec<u8> = Vec::new();
    let mut i: usize = 0;
    while i < 32
        invariant
            i <= 32,
            h@.len() == 8,
            h@ == hash_blocks(p@, (p@.len() / 64) as int),
            p@ == padded(m@),
            out@.len() == i,
            forall|x: int| 0 <= x < i ==> #[trigger] out@[x] == ((h@[x / 4] >> ((24 - 8 * (x % 4)) as u32)) & 0xff) as u8,
        decreases 32 - i,
    {
        let word = h[i / 4];
        let shift: u32 = 24 - 8 * ((i % 4) as u32);
        out.push(((word >> shift) & 0xff) as u8);
        i = i + 1;
    }
    assert(out@ =~= sha256(m@));
    out
}

fn hex_char(d: u8) -> (c: char)
    requires
        d < 16,
    ensures
        c == hex_digit(d as nat),
{
    if d < 10 {
        let b = d + 48;
        b as char
    } else {
        let b = d + 87;
        b as char
    }
}

/// Two lower-case hex digits per byte.
pub fn hex_text(b: &[u8]) -> (r: String)
    ensures
        r@ == hex_bytes(b@),
{
    let mut out = String::new();
    let mut i: usize = 0;
    while i < b.len()
        invariant
            i <= b@.len(),
            out@ == hex_bytes(b@.take(i as int)),
        decreases b@.len() - i,
    {
        let x = b[i];
        push_char(&mut out, hex_char(x / 16));
        push_char(&mut out, hex_char(x % 16));
        proof {
            assert(b@.take(i + 1).drop_last() =~= b@.take(i as int));
            assert(b@.take(i + 1).last() == x);
        }
        i = i + 1;
    }
    assert(b@.take(i as int) =~= b@);
    out
}

/// The SHA-256 digest of `bytes` in lower-case hex.
pub fn sha256_hex(bytes: &[u8]) -> (r: String)
    requires
        bytes@.len() * 8 <= u64::MAX,
    ensures
        r@ == hex_bytes(sha256(bytes@)),
{
    let d = sha256_bytes(bytes);
    hex_text(d.as_slice())
}

} // verus!
