//! Big-endian integers in octet buffers.
//!
//! The contracts of this crate describe packets as sequences of octets. The functions
//! `be16`, `be24` and `be32` say which number a field of such a sequence holds, and
//! `put16`, `put24` and `put32` what the sequence becomes when a number is stored in it.

use byteorder::{ByteOrder, NetworkEndian};
use vstd::arithmetic::div_mod::{
    lemma_div_denominator, lemma_fundamental_div_mod, lemma_fundamental_div_mod_converse,
};
use vstd::prelude::*;

verus! {

/// The number held by the two octets at `at`, most significant octet first.
pub open spec fn be16(s: Seq<u8>, at: int) -> int {
    s[at] * 0x100 + s[at + 1]
}

/// The number held by the three octets at `at`, most significant octet first.
pub open spec fn be24(s: Seq<u8>, at: int) -> int {
    s[at] * 0x1_0000 + s[at + 1] * 0x100 + s[at + 2]
}

/// The number held by the four octets at `at`, most significant octet first.
pub open spec fn be32(s: Seq<u8>, at: int) -> int {
    s[at] * 0x100_0000 + s[at + 1] * 0x1_0000 + s[at + 2] * 0x100 + s[at + 3]
}

/// The octets of `v`, most significant first.
pub open spec fn octets16(v: int) -> Seq<u8> {
    seq![(v / 0x100) as u8, (v % 0x100) as u8]
}

/// The octets of `v`, most significant first.
pub open spec fn octets32(v: int) -> Seq<u8> {
    seq![
        (v / 0x100_0000) as u8,
        (v / 0x1_0000 % 0x100) as u8,
        (v / 0x100 % 0x100) as u8,
        (v % 0x100) as u8,
    ]
}

/// The number held by the sixteen octets at `at`, most significant octet first.
pub open spec fn be128(s: Seq<u8>, at: int) -> int {
    be32(s, at) * 0x1_0000_0000_0000_0000_0000_0000 + be32(s, at + 4) * 0x1_0000_0000_0000_0000
        + be32(s, at + 8) * 0x1_0000_0000 + be32(s, at + 12)
}

/// The octets of `v`, most significant first.
pub open spec fn octets128(v: int) -> Seq<u8> {
    octets32(v / 0x1_0000_0000_0000_0000_0000_0000) + octets32(
        v / 0x1_0000_0000_0000_0000 % 0x1_0000_0000,
    ) + octets32(v / 0x1_0000_0000 % 0x1_0000_0000) + octets32(v % 0x1_0000_0000)
}

/// `s` with `v` stored in the two octets at `at`, most significant octet first.
pub open spec fn put16(s: Seq<u8>, at: int, v: int) -> Seq<u8> {
    s.update(at, (v / 0x100) as u8).update(at + 1, (v % 0x100) as u8)
}

/// `s` with `v` stored in the three octets at `at`, most significant octet first.
pub open spec fn put24(s: Seq<u8>, at: int, v: int) -> Seq<u8> {
    s.update(at, (v / 0x1_0000) as u8).update(at + 1, (v / 0x100 % 0x100) as u8).update(
        at + 2,
        (v % 0x100) as u8,
    )
}

/// `s` with `v` stored in the four octets at `at`, most significant octet first.
pub open spec fn put32(s: Seq<u8>, at: int, v: int) -> Seq<u8> {
    s.update(at, (v / 0x100_0000) as u8).update(at + 1, (v / 0x1_0000 % 0x100) as u8).update(
        at + 2,
        (v / 0x100 % 0x100) as u8,
    ).update(at + 3, (v % 0x100) as u8)
}

/// `s` with the octets of `t` stored at `at`.
pub open spec fn splice(s: Seq<u8>, at: int, t: Seq<u8>) -> Seq<u8> {
    Seq::new(s.len(), |i: int| if at <= i < at + t.len() { t[i - at] } else { s[i] })
}

/// The number whose two's complement representation in 32 bits is `v`.
pub open spec fn signed32(v: int) -> int {
    if v < 0x8000_0000 {
        v
    } else {
        v - 0x1_0000_0000
    }
}

/// The two's complement representation of `v` in 32 bits.
pub open spec fn unsigned32(v: int) -> int {
    if v < 0 {
        v + 0x1_0000_0000
    } else {
        v
    }
}

/// Calls `byteorder::NetworkEndian::read_u16` on the octets from `at` on, which combines
/// the first two of them, most significant first.
#[verifier::external_body]
pub(crate) fn read_u16(buf: &[u8], at: usize) -> (v: u16)
    requires
        at + 2 <= buf@.len(),
    ensures
        v == be16(buf@, at as int),
{
    NetworkEndian::read_u16(&buf[at..])
}

/// Calls `byteorder::NetworkEndian::read_u24` on the octets from `at` on, which combines
/// the first three of them, most significant first.
#[verifier::external_body]
pub(crate) fn read_u24(buf: &[u8], at: usize) -> (v: u32)
    requires
        at + 3 <= buf@.len(),
    ensures
        v == be24(buf@, at as int),
{
    NetworkEndian::read_u24(&buf[at..])
}

/// Calls `byteorder::NetworkEndian::read_u32` on the octets from `at` on, which combines
/// the first four of them, most significant first.
#[verifier::external_body]
pub(crate) fn read_u32(buf: &[u8], at: usize) -> (v: u32)
    requires
        at + 4 <= buf@.len(),
    ensures
        v == be32(buf@, at as int),
{
    NetworkEndian::read_u32(&buf[at..])
}

/// Calls `byteorder::NetworkEndian::read_i32` on the octets from `at` on, which combines
/// the first four of them, most significant first, into a two's complement number.
#[verifier::external_body]
pub(crate) fn read_i32(buf: &[u8], at: usize) -> (v: i32)
    requires
        at + 4 <= buf@.len(),
    ensures
        v == signed32(be32(buf@, at as int)),
{
    NetworkEndian::read_i32(&buf[at..])
}

/// Calls `byteorder::NetworkEndian::write_u16` on the octets from `at` on, which replaces
/// the first two of them by `v`, most significant octet first, and no other.
#[verifier::external_body]
pub(crate) fn write_u16(buf: &mut [u8], at: usize, v: u16)
    requires
        at + 2 <= old(buf)@.len(),
    ensures
        final(buf)@ == put16(old(buf)@, at as int, v as int),
{
    NetworkEndian::write_u16(&mut buf[at..], v)
}

/// Calls `byteorder::NetworkEndian::write_u24` on the octets from `at` on, which replaces
/// the first three of them by `v`, most significant octet first, and no other. It panics on
/// a number that needs more than three octets.
#[verifier::external_body]
pub(crate) fn write_u24(buf: &mut [u8], at: usize, v: u32)
    requires
        at + 3 <= old(buf)@.len(),
        v < 0x100_0000,
    ensures
        final(buf)@ == put24(old(buf)@, at as int, v as int),
{
    NetworkEndian::write_u24(&mut buf[at..], v)
}

/// Calls `byteorder::NetworkEndian::write_u32` on the octets from `at` on, which replaces
/// the first four of them by `v`, most significant octet first, and no other.
#[verifier::external_body]
pub(crate) fn write_u32(buf: &mut [u8], at: usize, v: u32)
    requires
        at + 4 <= old(buf)@.len(),
    ensures
        final(buf)@ == put32(old(buf)@, at as int, v as int),
{
    NetworkEndian::write_u32(&mut buf[at..], v)
}

/// Calls `byteorder::NetworkEndian::write_i32` on the octets from `at` on, which replaces
/// the first four of them by the two's complement representation of `v`, most significant
/// octet first, and no other.
#[verifier::external_body]
pub(crate) fn write_i32(buf: &mut [u8], at: usize, v: i32)
    requires
        at + 4 <= old(buf)@.len(),
    ensures
        final(buf)@ == put32(old(buf)@, at as int, unsigned32(v as int)),
{
    NetworkEndian::write_i32(&mut buf[at..], v)
}

/// Copies `src` into `buf`, from `at` on.
pub(crate) fn copy_into(buf: &mut [u8], at: usize, src: &[u8])
    requires
        at + src@.len() <= old(buf)@.len(),
    ensures
        final(buf)@ == splice(old(buf)@, at as int, src@),
{
    let n: usize = src.len();
    let len: usize = buf.len();
    let mut i: usize = 0;
    while i < n
        invariant
            i <= n,
            n == src@.len(),
            at + n <= len,
            buf@.len() == len,
            buf@.len() == old(buf)@.len(),
            buf@ == splice(old(buf)@, at as int, src@.take(i as int)),
        decreases n - i,
    {
        buf[at + i] = src[i];
        i = i + 1;
    }
    assert(src@.take(n as int) == src@);
}

/// The number held by the sixteen octets at `at`, most significant octet first.
pub(crate) fn read_u128(buf: &[u8], at: usize) -> (v: u128)
    requires
        at + 16 <= buf@.len(),
    ensures
        v == be128(buf@, at as int),
{
    let end: usize = buf.len();
    assert(at + 16 <= end);
    let a: u128 = read_u32(buf, at) as u128;
    let b: u128 = read_u32(buf, at + 4) as u128;
    let c: u128 = read_u32(buf, at + 8) as u128;
    let d: u128 = read_u32(buf, at + 12) as u128;
    a * 0x1_0000_0000_0000_0000_0000_0000 + b * 0x1_0000_0000_0000_0000 + c * 0x1_0000_0000 + d
}

/// The octets of `buf` from `start` up to `end`, for writing.
pub(crate) fn sub_slice_mut(buf: &mut [u8], start: usize, end: usize) -> (sub: &mut [u8])
    requires
        start <= end <= old(buf)@.len(),
    ensures
        sub@ == old(buf)@.subrange(start as int, end as int),
        final(buf)@ == old(buf)@.take(start as int) + final(sub)@ + old(buf)@.skip(end as int),
{
    let (front, back) = buf.split_at_mut(end);
    let (left, sub) = front.split_at_mut(start);
    sub
}

/// A two-octet field reads back the number that was stored in it, and storing leaves every
/// other octet unchanged.
pub proof fn law_put16(s: Seq<u8>, at: int, v: int)
    requires
        0 <= at,
        at + 2 <= s.len(),
        0 <= v < 0x1_0000,
    ensures
        be16(put16(s, at, v), at) == v,
        put16(s, at, v).len() == s.len(),
        forall|i: int| 0 <= i < s.len() && i != at && i != at + 1 ==> put16(s, at, v)[i] == s[i],
{
}

/// A three-octet field reads back the number that was stored in it, and storing leaves every
/// other octet unchanged.
pub proof fn law_put24(s: Seq<u8>, at: int, v: int)
    requires
        0 <= at,
        at + 3 <= s.len(),
        0 <= v < 0x100_0000,
    ensures
        be24(put24(s, at, v), at) == v,
        put24(s, at, v).len() == s.len(),
        forall|i: int| 0 <= i < s.len() && !(at <= i < at + 3) ==> put24(s, at, v)[i] == s[i],
{
}

/// A four-octet field reads back the number that was stored in it, and storing leaves every
/// other octet unchanged.
pub proof fn law_put32(s: Seq<u8>, at: int, v: int)
    requires
        0 <= at,
        at + 4 <= s.len(),
        0 <= v < 0x1_0000_0000,
    ensures
        be32(put32(s, at, v), at) == v,
        put32(s, at, v).len() == s.len(),
        forall|i: int| 0 <= i < s.len() && !(at <= i < at + 4) ==> put32(s, at, v)[i] == s[i],
{
}

/// The digits to the base 256 of a number of four octets.
proof fn lemma_digits32(a: u8, b: u8, c: u8, d: u8)
    ensures
        ({
            let v = a * 0x100_0000 + b * 0x1_0000 + c * 0x100 + d;
            &&& v / 0x100_0000 == a
            &&& v / 0x1_0000 % 0x100 == b
            &&& v / 0x100 % 0x100 == c
            &&& v % 0x100 == d
        }),
{
    let v = a * 0x100_0000 + b * 0x1_0000 + c * 0x100 + d;
    lemma_fundamental_div_mod_converse(v, 0x100_0000, a as int, b * 0x1_0000 + c * 0x100 + d);
    lemma_fundamental_div_mod_converse(v, 0x1_0000, a * 0x100 + b, c * 0x100 + d);
    lemma_fundamental_div_mod_converse(a * 0x100 + b, 0x100, a as int, b as int);
    lemma_fundamental_div_mod_converse(v, 0x100, a * 0x1_0000 + b * 0x100 + c, d as int);
    lemma_fundamental_div_mod_converse(
        a * 0x1_0000 + b * 0x100 + c,
        0x100,
        a * 0x100 + b,
        c as int,
    );
}

/// The octets of the number that a two-octet field holds are those of the field.
pub(crate) proof fn lemma_octets16(s: Seq<u8>, at: int)
    requires
        0 <= at,
        at + 2 <= s.len(),
    ensures
        octets16(be16(s, at)) == s.subrange(at, at + 2),
{
    assert(octets16(be16(s, at)) =~= s.subrange(at, at + 2));
}

/// The octets of the number that a four-octet field holds are those of the field.
pub(crate) proof fn lemma_octets32(s: Seq<u8>, at: int)
    requires
        0 <= at,
        at + 4 <= s.len(),
    ensures
        octets32(be32(s, at)) == s.subrange(at, at + 4),
{
    lemma_digits32(s[at], s[at + 1], s[at + 2], s[at + 3]);
    assert(octets32(be32(s, at)) =~= s.subrange(at, at + 4));
}

/// The octets of a number hold that number.
pub(crate) proof fn lemma_be32_octets32(v: int)
    requires
        0 <= v < 0x1_0000_0000,
    ensures
        be32(octets32(v), 0) == v,
{
}

/// The digits to the base 2^32 of a number of sixteen octets.
proof fn lemma_digits128(a: u32, b: u32, c: u32, d: u32)
    ensures
        ({
            let v = a * 0x1_0000_0000_0000_0000_0000_0000 + b * 0x1_0000_0000_0000_0000 + c
                * 0x1_0000_0000 + d;
            &&& v / 0x1_0000_0000_0000_0000_0000_0000 == a
            &&& v / 0x1_0000_0000_0000_0000 % 0x1_0000_0000 == b
            &&& v / 0x1_0000_0000 % 0x1_0000_0000 == c
            &&& v % 0x1_0000_0000 == d
        }),
{
    let v = a * 0x1_0000_0000_0000_0000_0000_0000 + b * 0x1_0000_0000_0000_0000 + c * 0x1_0000_0000
        + d;
    let w = 0x1_0000_0000int;
    let w2 = 0x1_0000_0000_0000_0000int;
    let w3 = 0x1_0000_0000_0000_0000_0000_0000int;
    lemma_fundamental_div_mod_converse(v, w3, a as int, b * w2 + c * w + d);
    lemma_fundamental_div_mod_converse(v, w2, a * w + b, c * w + d);
    lemma_fundamental_div_mod_converse(a * w + b, w, a as int, b as int);
    lemma_fundamental_div_mod_converse(v, w, a * w2 + b * w + c, d as int);
    lemma_fundamental_div_mod_converse(a * w2 + b * w + c, w, a * w + b, c as int);
}

/// The octets of the number that a sixteen-octet field holds are those of the field.
pub(crate) proof fn lemma_octets128(s: Seq<u8>, at: int)
    requires
        0 <= at,
        at + 16 <= s.len(),
    ensures
        octets128(be128(s, at)) == s.subrange(at, at + 16),
{
    lemma_digits128(
        be32(s, at) as u32,
        be32(s, at + 4) as u32,
        be32(s, at + 8) as u32,
        be32(s, at + 12) as u32,
    );
    lemma_octets32(s, at);
    lemma_octets32(s, at + 4);
    lemma_octets32(s, at + 8);
    lemma_octets32(s, at + 12);
    assert(octets128(be128(s, at)) =~= s.subrange(at, at + 16));
}

/// The octets of a number hold that number.
pub(crate) proof fn lemma_be128_octets128(v: int)
    requires
        0 <= v < 0x1_0000_0000_0000_0000_0000_0000_0000_0000,
    ensures
        be128(octets128(v), 0) == v,
        octets128(v).len() == 16,
{
    let a = v / 0x1_0000_0000_0000_0000_0000_0000;
    let b = v / 0x1_0000_0000_0000_0000 % 0x1_0000_0000;
    let c = v / 0x1_0000_0000 % 0x1_0000_0000;
    let d = v % 0x1_0000_0000;
    let w = 0x1_0000_0000int;
    lemma_div_denominator(v, w, w);
    lemma_div_denominator(v, w * w, w);
    lemma_fundamental_div_mod(v, w);
    lemma_fundamental_div_mod(v / w, w);
    lemma_fundamental_div_mod(v / (w * w), w);
    assert(v == ((a * w + b) * w + c) * w + d);
    lemma_be32_octets32(a);
    lemma_be32_octets32(b);
    lemma_be32_octets32(c);
    lemma_be32_octets32(d);
    let s = octets128(v);
    assert(be32(s, 0) == be32(octets32(a), 0));
    assert(be32(s, 4) == be32(octets32(b), 0));
    assert(be32(s, 8) == be32(octets32(c), 0));
    assert(be32(s, 12) == be32(octets32(d), 0));
}

/// Storing the number that a two-octet field holds changes nothing.
pub proof fn law_put16_be16(s: Seq<u8>, at: int)
    requires
        0 <= at,
        at + 2 <= s.len(),
    ensures
        put16(s, at, be16(s, at)) == s,
{
    assert(put16(s, at, be16(s, at)) =~= s);
}

/// Storing the number that a four-octet field holds changes nothing.
pub proof fn law_put32_be32(s: Seq<u8>, at: int)
    requires
        0 <= at,
        at + 4 <= s.len(),
    ensures
        put32(s, at, be32(s, at)) == s,
{
    lemma_digits32(s[at], s[at + 1], s[at + 2], s[at + 3]);
    assert(put32(s, at, be32(s, at)) =~= s);
}

/// Which octet of a field counts how much: each counts 256 times as much as the one that follows
/// it, and the last one counts once.
pub proof fn law_weights(s: Seq<u8>, at: int)
    ensures
        be16(s, at) == 256 * s[at] + s[at + 1],
        be24(s, at) == 256 * be16(s, at) + s[at + 2],
        be32(s, at) == 256 * be24(s, at) + s[at + 3],
        be128(s, at) == 0x1_0000_0000 * (0x1_0000_0000 * (0x1_0000_0000 * be32(s, at) + be32(
            s,
            at + 4,
        )) + be32(s, at + 8)) + be32(s, at + 12),
{
}

} // verus!
