//! The Internet checksum (RFC 1071).
//!
//! The checksum of a sequence of octets is the sum of its 16-bit words, in ones' complement
//! arithmetic: an octet at an even position counts 256 times its value, one at an odd position
//! its value, and the total is reduced modulo 65535, where a total that is not zero is never
//! reduced to zero.

use vstd::prelude::*;

use super::ip::{Address, Protocol};
use crate::endian::{be16, octets32, put16};

verus! {

/// The sum of the 16-bit words of `s`. A last octet without a partner is padded with zero.
pub open spec fn word_sum(s: Seq<u8>) -> nat
    decreases s.len(),
{
    if s.len() == 0 {
        0
    } else {
        word_sum(s.drop_last()) + if s.len() % 2 == 1 {
            s.last() as nat * 0x100
        } else {
            s.last() as nat
        }
    }
}

/// The ones' complement number of 16 bits that stands for `n`.
pub open spec fn fold(n: nat) -> u16 {
    if n == 0 {
        0
    } else {
        ((n - 1) % 0xffff + 1) as u16
    }
}

/// The sum of numbers.
pub open spec fn total(s: Seq<u16>) -> nat
    decreases s.len(),
{
    if s.len() == 0 {
        0
    } else {
        total(s.drop_last()) + s.last() as nat
    }
}

/// Folding part of a sum early does not change what the sum is folded to.
proof fn lemma_fold_early(a: nat, b: nat)
    ensures
        fold(fold(a) as nat + b) == fold(a + b),
{
    if a > 0 {
        let f = fold(a) as int;
        let q = (a - 1) / 0xffff;
        assert(a == 0xffff * q + f);
        assert((a + b - 1) % 0xffff == (f + b - 1) % 0xffff) by {
            assert(a + b - 1 == 0xffff * q + (f + b - 1));
            vstd::arithmetic::div_mod::lemma_mod_multiples_vanish(q, f + b - 1, 0xffff);
        }
    }
}

/// The ones' complement number that stands for a number of at most 17 bits.
fn fold_u32(n: u32) -> (r: u16)
    requires
        n <= 0x1_fffe,
    ensures
        r == fold(n as nat),
{
    if n > 0xffff {
        (n - 0xffff) as u16
    } else {
        n as u16
    }
}

/// The ones' complement sum of two ones' complement numbers.
fn accumulate(a: u16, b: u16) -> (r: u16)
    ensures
        r == fold(a as nat + b as nat),
{
    fold_u32(a as u32 + b as u32)
}

/// Compute the checksum of octets.
pub fn data(octets: &[u8]) -> (sum: u16)
    ensures
        sum == fold(word_sum(octets@)),
{
    let n: usize = octets.len();
    let mut sum: u16 = 0;
    let mut i: usize = 0;
    while i < n
        invariant
            i <= n,
            n == octets@.len(),
            sum == fold(word_sum(octets@.take(i as int))),
        decreases n - i,
    {
        let word: u16 = if i % 2 == 0 {
            octets[i] as u16 * 0x100
        } else {
            octets[i] as u16
        };
        proof {
            assert(octets@.take(i + 1).drop_last() =~= octets@.take(i as int));
            lemma_fold_early(word_sum(octets@.take(i as int)), word as nat);
        }
        sum = accumulate(sum, word);
        i = i + 1;
    }
    assert(octets@.take(n as int) =~= octets@);
    sum
}

/// Combine checksums, as if the octets they were computed of had been summed at once.
pub fn combine(checksums: &[u16]) -> (sum: u16)
    ensures
        sum == fold(total(checksums@)),
{
    let n: usize = checksums.len();
    let mut sum: u16 = 0;
    let mut i: usize = 0;
    while i < n
        invariant
            i <= n,
            n == checksums@.len(),
            sum == fold(total(checksums@.take(i as int))),
        decreases n - i,
    {
        proof {
            assert(checksums@.take(i + 1).drop_last() =~= checksums@.take(i as int));
            lemma_fold_early(total(checksums@.take(i as int)), checksums@[i as int] as nat);
        }
        sum = accumulate(sum, checksums[i]);
        i = i + 1;
    }
    assert(checksums@.take(n as int) =~= checksums@);
    sum
}

/// The sum of the pseudo-header that precedes a payload of `length` octets of protocol
/// `next_header` from `src_addr` to `dst_addr`.
pub open spec fn pseudo_header_sum(
    src_addr: Address,
    dst_addr: Address,
    next_header: Protocol,
    length: u32,
) -> nat {
    word_sum(src_addr.octets_of()) + word_sum(dst_addr.octets_of()) + next_header.0 as nat
        + word_sum(octets32(length as int))
}

/// Compute the checksum of a pseudo-header. Both addresses belong to one family.
pub fn pseudo_header(
    src_addr: &Address,
    dst_addr: &Address,
    next_header: Protocol,
    length: u32,
) -> (sum: u16)
    requires
        src_addr is Ipv4 <==> dst_addr is Ipv4,
    ensures
        sum == fold(pseudo_header_sum(*src_addr, *dst_addr, next_header, length)),
{
    let src: u16 = address_sum(src_addr);
    let dst: u16 = address_sum(dst_addr);
    let len_octets: [u8; 4] = [
        (length / 0x100_0000) as u8,
        (length / 0x1_0000 % 0x100) as u8,
        (length / 0x100 % 0x100) as u8,
        (length % 0x100) as u8,
    ];
    assert(len_octets@ =~= octets32(length as int));
    let len: u16 = data(&len_octets);
    proof {
        let a = word_sum(src_addr.octets_of());
        let b = word_sum(dst_addr.octets_of());
        let c = next_header.0 as nat;
        let d = word_sum(octets32(length as int));
        lemma_fold_early(a, fold(b) as nat);
        lemma_fold_early(b, a);
        lemma_fold_early(a + b, c);
        lemma_fold_early(d, a + b + c);
        lemma_fold_early(a + b + c, fold(d) as nat);
    }
    accumulate(accumulate(accumulate(src, dst), next_header.0 as u16), len)
}

/// The checksum of the octets of an address.
fn address_sum(addr: &Address) -> (sum: u16)
    ensures
        sum == fold(word_sum(addr.octets_of())),
{
    match addr {
        Address::Ipv4(a) => data(&a.octets()),
        Address::Ipv6(a) => data(&a.octets()),
    }
}

/// How the sum changes with one octet.
proof fn lemma_word_sum_update(s: Seq<u8>, i: int, v: u8)
    requires
        0 <= i < s.len(),
    ensures
        word_sum(s.update(i, v)) == word_sum(s) + if i % 2 == 0 {
            (v - s[i]) * 0x100
        } else {
            v - s[i]
        },
    decreases s.len(),
{
    if i == s.len() - 1 {
        assert(s.update(i, v).drop_last() =~= s.drop_last());
    } else {
        assert(s.update(i, v).drop_last() =~= s.drop_last().update(i, v));
        lemma_word_sum_update(s.drop_last(), i, v);
    }
}

/// How the sum changes with a word that is stored at an even position.
pub proof fn law_word_sum_put16(s: Seq<u8>, at: int, v: int)
    requires
        0 <= at,
        at + 2 <= s.len(),
        at % 2 == 0,
        0 <= v < 0x1_0000,
    ensures
        word_sum(put16(s, at, v)) == word_sum(s) + v - be16(s, at),
{
    lemma_word_sum_update(s, at, (v / 0x100) as u8);
    lemma_word_sum_update(s.update(at, (v / 0x100) as u8), at + 1, (v % 0x100) as u8);
}

/// The sum of octets in two runs, the first of which is a whole number of words.
pub proof fn law_word_sum_append(a: Seq<u8>, b: Seq<u8>)
    requires
        a.len() % 2 == 0,
    ensures
        word_sum(a + b) == word_sum(a) + word_sum(b),
    decreases b.len(),
{
    if b.len() == 0 {
        assert(a + b =~= a);
    } else {
        assert((a + b).drop_last() =~= a + b.drop_last());
        law_word_sum_append(a, b.drop_last());
    }
}

/// A sum to which the complement of its checksum is added has a checksum of all ones.
pub proof fn law_complement(n: nat)
    ensures
        fold((n + (0xffff - fold(n))) as nat) == 0xffff,
{
    if n > 0 {
        let f = fold(n) as int;
        let q = (n - 1) / 0xffff;
        assert(n == 0xffff * q + f);
        let m = n + (0xffff - f);
        assert(m - 1 == 0xffff * q + 0xfffe);
        vstd::arithmetic::div_mod::lemma_mod_multiples_vanish(q, 0xfffe, 0xffff);
    }
}

/// A checksum of part of a sum may be folded before the rest is added to it.
pub proof fn law_fold_early(a: nat, b: nat)
    ensures
        fold(fold(a) as nat + b) == fold(a + b),
        fold((fold(a) + fold(b)) as nat) == fold(a + b),
{
    lemma_fold_early(a, b);
    lemma_fold_early(b, fold(a) as nat);
}

/// The sum goes by words, the first octet of each of which counts 256 times, and an octet that is
/// left over at the end counts as if it were followed by zero.
pub proof fn law_word_sum(a: u8, b: u8, rest: Seq<u8>)
    ensures
        word_sum(seq![a, b] + rest) == 256 * a + b + word_sum(rest),
        word_sum(seq![a]) == 256 * a,
        word_sum(Seq::<u8>::empty()) == 0,
{
    let two = seq![a, b];
    law_word_sum_append(two, rest);
    reveal_with_fuel(word_sum, 3);
    assert(two.drop_last() =~= seq![a]);
    assert(seq![a].drop_last() =~= Seq::<u8>::empty());
}

/// What a sum is folded to: the number up to 65535 that differs from it by a multiple of 65535,
/// and that is zero only if the sum is.
pub proof fn law_fold(n: nat)
    ensures
        fold(n) as int % 0xffff == n as int % 0xffff,
        fold(n) == 0 <==> n == 0,
{
    if n > 0 {
        let q = (n - 1) / 0xffff;
        assert(n == 0xffff * q + fold(n));
        vstd::arithmetic::div_mod::lemma_mod_multiples_vanish(q, fold(n) as int, 0xffff);
    }
}

/// The sum of a pseudo-header is that of its octets: the source, the destination, the length in
/// four octets, and the protocol in the last of four.
pub proof fn law_pseudo_header(
    src_addr: Address,
    dst_addr: Address,
    next_header: Protocol,
    length: u32,
)
    ensures
        pseudo_header_sum(src_addr, dst_addr, next_header, length) == word_sum(
            src_addr.octets_of() + dst_addr.octets_of() + octets32(length as int) + seq![
                0u8,
                0,
                0,
                next_header.0,
            ],
        ),
{
    let src = src_addr.octets_of();
    let dst = dst_addr.octets_of();
    let len = octets32(length as int);
    let protocol = seq![0u8, 0, 0, next_header.0];
    assert(src.len() % 2 == 0);
    assert(dst.len() % 2 == 0);
    law_word_sum_append(src, dst);
    law_word_sum_append(src + dst, len);
    law_word_sum_append(src + dst + len, protocol);
    law_word_sum(0, 0, seq![0u8, next_header.0]);
    law_word_sum(0, next_header.0, Seq::<u8>::empty());
    assert(protocol =~= seq![0u8, 0] + seq![0u8, next_header.0]);
    assert(seq![0u8, next_header.0] =~= seq![0u8, next_header.0] + Seq::<u8>::empty());
}

} // verus!
