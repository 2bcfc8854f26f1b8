//! Internet Control Message Protocol messages for IPv6.

use vstd::prelude::*;

use super::checksum::{
    self, fold, law_complement, law_fold_early, law_pseudo_header, law_word_sum_append,
    law_word_sum_put16, pseudo_header_sum, total, word_sum,
};
use super::ip::{Address as IpAddress, Protocol, ICMPV6};
use super::ipv6::{address_octets, Address};
use crate::endian::{octets32, put16, write_u16};

verus! {

/// Message type: destination unreachable.
pub const DST_UNREACHABLE: u8 = 1;

/// Message type: parameter problem.
pub const PARAM_PROBLEM: u8 = 4;

/// Message type: echo request.
pub const ECHO_REQUEST: u8 = 128;

/// Message type: echo reply.
pub const ECHO_REPLY: u8 = 129;

/// Message type: multicast listener query.
pub const MLD_QUERY: u8 = 130;

/// Message type: router advertisement.
pub const ROUTER_ADVERT: u8 = 134;

/// Message type: neighbor solicitation.
pub const NEIGHBOR_SOLICIT: u8 = 135;

/// Message type: neighbor advertisement.
pub const NEIGHBOR_ADVERT: u8 = 136;

/// Code of destination unreachable: the address cannot be reached.
pub const ADDR_UNREACHABLE: u8 = 3;

/// Code of destination unreachable: nothing listens on the port.
pub const PORT_UNREACHABLE: u8 = 4;

/// Code of parameter problem: unrecognized next header.
pub const UNRECOGNIZED_NXT_HDR: u8 = 1;

/// Code of parameter problem: unrecognized option.
pub const UNRECOGNIZED_OPTION: u8 = 2;

/// The length of the header of a neighbor solicitation or advertisement.
pub const NEIGHBOR_HEADER_LEN: usize = 24;

/// Flag of a neighbor advertisement: it answers a solicitation.
pub const FLAG_SOLICITED: u8 = 0x40;

/// Flag of a neighbor advertisement: it replaces what is known of the neighbor.
pub const FLAG_OVERRIDE: u8 = 0x20;

/// Whether a message of the given type reports an error: error types are those below 128, see
/// RFC 4443 § 2.1.
pub open spec fn spec_is_error(msg_type: u8) -> bool {
    msg_type < 128
}

/// Whether a message of the given type reports an error: error types are those below 128, see
/// RFC 4443 § 2.1.
pub fn is_error(msg_type: u8) -> (r: bool)
    ensures
        r == spec_is_error(msg_type),
{
    msg_type < 128
}

/// The sum that the checksum of a message is folded from.
pub open spec fn message_sum(s: Seq<u8>, src_addr: Address, dst_addr: Address) -> nat {
    pseudo_header_sum(
        IpAddress::Ipv6(src_addr),
        IpAddress::Ipv6(dst_addr),
        Protocol(ICMPV6),
        (s.len() % 0x1_0000_0000) as u32,
    ) + word_sum(s)
}

/// Whether the checksum of a message is right.
pub open spec fn checksum_ok(s: Seq<u8>, src_addr: Address, dst_addr: Address) -> bool {
    fold(message_sum(s, src_addr, dst_addr)) == 0xffff
}

/// A message with its checksum filled in, or zero if `offload` says that the device fills it
/// in.
pub open spec fn with_checksum(
    s: Seq<u8>,
    src_addr: Address,
    dst_addr: Address,
    offload: bool,
) -> Seq<u8> {
    let zeroed = put16(s, 2, 0);
    if offload {
        zeroed
    } else {
        put16(zeroed, 2, 0xffff - fold(message_sum(zeroed, src_addr, dst_addr)))
    }
}

/// The checksum of a message with its pseudo-header.
fn sum(message: &[u8], src_addr: &Address, dst_addr: &Address) -> (sum: u16)
    ensures
        sum == fold(message_sum(message@, *src_addr, *dst_addr)),
{
    let len: u64 = message.len() as u64;
    let length: u32 = (len % 0x1_0000_0000) as u32;
    let src = IpAddress::Ipv6(*src_addr);
    let dst = IpAddress::Ipv6(*dst_addr);
    let pseudo: u16 = checksum::pseudo_header(&src, &dst, Protocol(ICMPV6), length);
    let octets: u16 = checksum::data(message);
    let sums: [u16; 2] = [pseudo, octets];
    proof {
        law_fold_early(pseudo_header_sum(src, dst, Protocol(ICMPV6), length), word_sum(message@));
        reveal_with_fuel(total, 3);
        assert(sums@.drop_last().drop_last() =~= seq![]);
        assert(total(sums@) == pseudo as nat + octets as nat);
    }
    checksum::combine(&sums)
}

/// Validate the checksum of a message.
pub fn verify_checksum(message: &[u8], src_addr: &Address, dst_addr: &Address) -> (r: bool)
    ensures
        r == checksum_ok(message@, *src_addr, *dst_addr),
{
    sum(message, src_addr, dst_addr) == 0xffff
}

/// Fill the checksum of a message in, or clear it if the device fills it in.
pub fn fill_checksum(message: &mut [u8], src_addr: &Address, dst_addr: &Address, offload: bool)
    requires
        old(message)@.len() >= 4,
    ensures
        final(message)@ == with_checksum(old(message)@, *src_addr, *dst_addr, offload),
{
    write_u16(message, 2, 0);
    if !offload {
        let sum: u16 = sum(message, src_addr, dst_addr);
        write_u16(message, 2, 0xffff - sum);
    }
}

/// A message whose checksum was filled in passes the checksum validation.
pub proof fn law_filled_checksum(s: Seq<u8>, src_addr: Address, dst_addr: Address)
    requires
        s.len() >= 4,
    ensures
        checksum_ok(with_checksum(s, src_addr, dst_addr, false), src_addr, dst_addr),
{
    let zeroed = put16(s, 2, 0);
    let sum = message_sum(zeroed, src_addr, dst_addr);
    law_word_sum_put16(zeroed, 2, 0xffff - fold(sum));
    law_complement(sum);
}

/// Filling the checksum in changes nothing but the checksum, and makes it right, or zero if the
/// device fills it in.
pub proof fn law_with_checksum(s: Seq<u8>, src_addr: Address, dst_addr: Address, offload: bool)
    requires
        s.len() >= 4,
    ensures
        ({
            let filled = with_checksum(s, src_addr, dst_addr, offload);
            &&& filled.len() == s.len()
            &&& filled[0] == s[0] && filled[1] == s[1]
            &&& filled.skip(4) == s.skip(4)
            &&& offload ==> filled[2] == 0 && filled[3] == 0
            &&& !offload ==> checksum_ok(filled, src_addr, dst_addr)
        }),
{
    let filled = with_checksum(s, src_addr, dst_addr, offload);
    law_filled_checksum(s, src_addr, dst_addr);
    assert(filled.skip(4) =~= s.skip(4));
}

/// The checksum of a message is right if the pseudo-header, whose protocol is 58, and the message
/// sum up to all ones.
pub proof fn law_checksum_ok(s: Seq<u8>, src_addr: Address, dst_addr: Address)
    requires
        s.len() <= 0xffff_ffff,
    ensures
        checksum_ok(s, src_addr, dst_addr) <==> fold(
            word_sum(
                address_octets(src_addr.bits) + address_octets(dst_addr.bits) + octets32(
                    s.len() as int,
                ) + seq![0u8, 0, 0, 58] + s,
            ),
        ) == 0xffff,
{
    let src = IpAddress::Ipv6(src_addr);
    let dst = IpAddress::Ipv6(dst_addr);
    law_pseudo_header(src, dst, Protocol(58), s.len() as u32);
    let pseudo = src.octets_of() + dst.octets_of() + octets32(s.len() as int) + seq![0u8, 0, 0, 58];
    assert(pseudo.len() % 2 == 0);
    law_word_sum_append(pseudo, s);
}

} // verus!
