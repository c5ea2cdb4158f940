//! Bytes, little-endian words, and ordered stores into a mapping.
use vstd::prelude::*;

verus! {

/// The 32-bit word that starts at byte `o`.
#[verifier::opaque]
pub open spec fn u32_at(m: Seq<u8>, o: int) -> u32 {
    (m[o] + 0x100 * m[o + 1] + 0x1_0000 * m[o + 2] + 0x100_0000 * m[o + 3]) as u32
}

/// The 64-bit word that starts at byte `o`.
#[verifier::opaque]
pub open spec fn u64_at(m: Seq<u8>, o: int) -> u64 {
    (m[o] + 0x100 * m[o + 1] + 0x1_0000 * m[o + 2] + 0x100_0000 * m[o + 3]
        + 0x1_0000_0000 * m[o + 4] + 0x100_0000_0000 * m[o + 5]
        + 0x1_0000_0000_0000 * m[o + 6] + 0x100_0000_0000_0000 * m[o + 7]) as u64
}

/// The little-endian bytes of `v`.
#[verifier::opaque]
pub open spec fn u32_bytes(v: u32) -> Seq<u8> {
    seq![
        (v % 0x100) as u8,
        (v / 0x100 % 0x100) as u8,
        (v / 0x1_0000 % 0x100) as u8,
        (v / 0x100_0000 % 0x100) as u8,
    ]
}

/// The little-endian bytes of `v`.
#[verifier::opaque]
pub open spec fn u64_bytes(v: u64) -> Seq<u8> {
    seq![
        (v % 0x100) as u8,
        (v / 0x100 % 0x100) as u8,
        (v / 0x1_0000 % 0x100) as u8,
        (v / 0x100_0000 % 0x100) as u8,
        (v / 0x1_0000_0000 % 0x100) as u8,
        (v / 0x100_0000_0000 % 0x100) as u8,
        (v / 0x1_0000_0000_0000 % 0x100) as u8,
        (v / 0x100_0000_0000_0000 % 0x100) as u8,
    ]
}

/// `m` with `d` written over the bytes from `o` on.  Bytes of `d` that fall outside `m`
/// are dropped.
#[verifier::opaque]
pub open spec fn put(m: Seq<u8>, o: int, d: Seq<u8>) -> Seq<u8> {
    Seq::new(
        m.len(),
        |i: int|
            if o <= i < o + d.len() {
                d[i - o]
            } else {
                m[i]
            },
    )
}

/// `a` and `b` differ at most in the bytes from `lo` up to `hi`.
pub open spec fn same_outside(a: Seq<u8>, b: Seq<u8>, lo: int, hi: int) -> bool {
    &&& a.len() == b.len()
    &&& forall|i: int| 0 <= i < a.len() && !(lo <= i < hi) ==> #[trigger] a[i] == b[i]
}

/// Words outside the bytes in which two memories differ are the same in both.
pub proof fn lemma_same_outside_words(a: Seq<u8>, b: Seq<u8>, lo: int, hi: int)
    requires
        same_outside(a, b, lo, hi),
    ensures
        forall|p: int|
            0 <= p && p + 4 <= a.len() && (p + 4 <= lo || hi <= p) ==> #[trigger] u32_at(b, p) == u32_at(a, p),
        forall|p: int|
            0 <= p && p + 8 <= a.len() && (p + 8 <= lo || hi <= p) ==> #[trigger] u64_at(b, p) == u64_at(a, p),
{
    reveal(u32_at);
    reveal(u64_at);
}

pub broadcast proof fn lemma_bytes_len32(v: u32)
    ensures
        #[trigger] u32_bytes(v).len() == 4,
{
    reveal(u32_bytes);
}

pub broadcast proof fn lemma_bytes_len64(v: u64)
    ensures
        #[trigger] u64_bytes(v).len() == 8,
{
    reveal(u64_bytes);
}

pub broadcast proof fn lemma_put_len(m: Seq<u8>, o: int, d: Seq<u8>)
    ensures
        #[trigger] put(m, o, d).len() == m.len(),
{
    reveal(put);
}

pub broadcast proof fn lemma_put_index(m: Seq<u8>, o: int, d: Seq<u8>, i: int)
    requires
        0 <= i < m.len(),
    ensures
        #[trigger] put(m, o, d)[i] == (if o <= i < o + d.len() {
            d[i - o]
        } else {
            m[i]
        }),
{
    reveal(put);
}

pub broadcast proof fn lemma_u32_same(m: Seq<u8>, v: u32, o: int)
    requires
        0 <= o,
        o + 4 <= m.len(),
    ensures
        #[trigger] u32_at(put(m, o, u32_bytes(v)), o) == v,
{
    reveal(put);
    reveal(u32_at);
    reveal(u32_bytes);
}

/// A 64-bit number is the sum of its base-256 digits.
proof fn lemma_digits(v: int)
    requires
        0 <= v < 0x1_0000_0000_0000_0000,
    ensures
        v == v % 0x100 + 0x100 * (v / 0x100 % 0x100) + 0x1_0000 * (v / 0x1_0000 % 0x100)
            + 0x100_0000 * (v / 0x100_0000 % 0x100) + 0x1_0000_0000 * (v / 0x1_0000_0000 % 0x100)
            + 0x100_0000_0000 * (v / 0x100_0000_0000 % 0x100)
            + 0x1_0000_0000_0000 * (v / 0x1_0000_0000_0000 % 0x100)
            + 0x100_0000_0000_0000 * (v / 0x100_0000_0000_0000 % 0x100),
{
    let q1 = v / 0x100;
    let q2 = q1 / 0x100;
    let q3 = q2 / 0x100;
    let q4 = q3 / 0x100;
    let q5 = q4 / 0x100;
    let q6 = q5 / 0x100;
    let q7 = q6 / 0x100;
    assert(q2 == v / 0x1_0000);
    assert(q3 == v / 0x100_0000);
    assert(q4 == v / 0x1_0000_0000);
    assert(q5 == v / 0x100_0000_0000);
    assert(q6 == v / 0x1_0000_0000_0000);
    assert(q7 == v / 0x100_0000_0000_0000);
    assert(q7 < 0x100);
}

pub broadcast proof fn lemma_u64_same(m: Seq<u8>, v: u64, o: int)
    requires
        0 <= o,
        o + 8 <= m.len(),
    ensures
        #[trigger] u64_at(put(m, o, u64_bytes(v)), o) == v,
{
    let b = u64_bytes(v);
    let n = put(m, o, b);
    assert(forall|k: int| 0 <= k < 8 ==> n[o + k] == b[k]) by {
        reveal(put);
        reveal(u64_bytes);
    }
    assert(u64_at(n, o) == (b[0] + 0x100 * b[1] + 0x1_0000 * b[2] + 0x100_0000 * b[3]
        + 0x1_0000_0000 * b[4] + 0x100_0000_0000 * b[5] + 0x1_0000_0000_0000 * b[6]
        + 0x100_0000_0000_0000 * b[7]) as u64) by {
        reveal(u64_at);
        assert(n[o + 0] == b[0]);
    }
    lemma_digits(v as int);
    reveal(u64_bytes);
}

pub broadcast proof fn lemma_u32_apart(m: Seq<u8>, o: int, d: Seq<u8>, p: int)
    requires
        0 <= p,
        p + 4 <= m.len(),
        p + 4 <= o || o + d.len() <= p,
    ensures
        #[trigger] u32_at(put(m, o, d), p) == u32_at(m, p),
{
    reveal(put);
    reveal(u32_at);
}

pub broadcast proof fn lemma_u64_apart(m: Seq<u8>, o: int, d: Seq<u8>, p: int)
    requires
        0 <= p,
        p + 8 <= m.len(),
        p + 8 <= o || o + d.len() <= p,
    ensures
        #[trigger] u64_at(put(m, o, d), p) == u64_at(m, p),
{
    reveal(put);
    reveal(u64_at);
}

pub broadcast proof fn lemma_sub_same(m: Seq<u8>, o: int, d: Seq<u8>, hi: int)
    requires
        0 <= o,
        o + d.len() == hi,
        hi <= m.len(),
    ensures
        #[trigger] put(m, o, d).subrange(o, hi) == d,
{
    reveal(put);
    assert(put(m, o, d).subrange(o, hi) =~= d);
}

pub broadcast proof fn lemma_sub_apart(m: Seq<u8>, o: int, d: Seq<u8>, lo: int, hi: int)
    requires
        0 <= lo <= hi <= m.len(),
        hi <= o || o + d.len() <= lo,
    ensures
        #[trigger] put(m, o, d).subrange(lo, hi) == m.subrange(lo, hi),
{
    reveal(put);
    assert(put(m, o, d).subrange(lo, hi) =~= m.subrange(lo, hi));
}

pub broadcast group group_mem {
    lemma_sub_same,
    lemma_sub_apart,
    lemma_bytes_len32,
    lemma_bytes_len64,
    lemma_put_len,
    lemma_put_index,
    lemma_u32_same,
    lemma_u64_same,
    lemma_u32_apart,
    lemma_u64_apart,
}

/// The little-endian bytes of `v`.
pub fn u32_to_le(v: u32) -> (bytes: Vec<u8>)
    ensures
        bytes@ == u32_bytes(v),
{
    reveal(u32_bytes);
    let mut bytes: Vec<u8> = Vec::new();
    bytes.push((v % 0x100) as u8);
    bytes.push((v / 0x100 % 0x100) as u8);
    bytes.push((v / 0x1_0000 % 0x100) as u8);
    bytes.push((v / 0x100_0000 % 0x100) as u8);
    bytes
}

/// The little-endian bytes of `v`.
pub fn u64_to_le(v: u64) -> (bytes: Vec<u8>)
    ensures
        bytes@ == u64_bytes(v),
{
    reveal(u64_bytes);
    let mut bytes: Vec<u8> = Vec::new();
    bytes.push((v % 0x100) as u8);
    bytes.push((v / 0x100 % 0x100) as u8);
    bytes.push((v / 0x1_0000 % 0x100) as u8);
    bytes.push((v / 0x100_0000 % 0x100) as u8);
    bytes.push((v / 0x1_0000_0000 % 0x100) as u8);
    bytes.push((v / 0x100_0000_0000 % 0x100) as u8);
    bytes.push((v / 0x1_0000_0000_0000 % 0x100) as u8);
    bytes.push((v / 0x100_0000_0000_0000 % 0x100) as u8);
    bytes
}

/// Reads the 32-bit word that starts at byte `offset`.
pub fn le_u32(b: &[u8], offset: usize) -> (value: u32)
    requires
        offset + 4 <= b@.len(),
    ensures
        value == u32_at(b@, offset as int),
{
    reveal(u32_at);
    assert(b@.len() == b.len());
    (b[offset] as u32) + 0x100 * (b[offset + 1] as u32) + 0x1_0000 * (b[offset + 2] as u32)
        + 0x100_0000 * (b[offset + 3] as u32)
}

/// Reads the 64-bit word that starts at byte `offset`.
pub fn le_u64(b: &[u8], offset: usize) -> (value: u64)
    requires
        offset + 8 <= b@.len(),
    ensures
        value == u64_at(b@, offset as int),
{
    reveal(u64_at);
    assert(b@.len() == b.len());
    (b[offset] as u64) + 0x100 * (b[offset + 1] as u64) + 0x1_0000 * (b[offset + 2] as u64)
        + 0x100_0000 * (b[offset + 3] as u64) + 0x1_0000_0000 * (b[offset + 4] as u64)
        + 0x100_0000_0000 * (b[offset + 5] as u64) + 0x1_0000_0000_0000 * (b[offset + 6] as u64)
        + 0x100_0000_0000_0000 * (b[offset + 7] as u64)
}

/// Law: words are little-endian: the first byte counts once, each next one 256 times as much.
pub proof fn words_are_little_endian(m: Seq<u8>, o: int, v: u32, w: u64)
    ensures
        u32_at(m, o) == m[o] + 256 * (m[o + 1] + 256 * (m[o + 2] + 256 * m[o + 3])),
        u64_at(m, o) == u32_at(m, o) + 0x1_0000_0000 * u32_at(m, o + 4),
        u32_bytes(v).len() == 4 && u32_at(u32_bytes(v), 0) == v,
        u64_bytes(w).len() == 8 && u64_at(u64_bytes(w), 0) == w,
{
    reveal(u32_at);
    reveal(u64_at);
    let four = seq![0u8, 0u8, 0u8, 0u8];
    let eight = seq![0u8, 0u8, 0u8, 0u8, 0u8, 0u8, 0u8, 0u8];
    lemma_bytes_len32(v);
    lemma_bytes_len64(w);
    lemma_u32_same(four, v, 0);
    assert(put(four, 0, u32_bytes(v)) =~= u32_bytes(v)) by {
        reveal(put);
    }
    lemma_u64_same(eight, w, 0);
    assert(put(eight, 0, u64_bytes(w)) =~= u64_bytes(w)) by {
        reveal(put);
    }
}

} // verus!
