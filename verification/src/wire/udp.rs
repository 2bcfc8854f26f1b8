//! User Datagram Protocol packets, as far as the stack itself reads them.

use vstd::prelude::*;

use super::checksum::{
    self, fold, law_fold_early, law_pseudo_header, law_word_sum_append, pseudo_header_sum, total,
    word_sum,
};
use super::ip::{Address as IpAddress, Protocol, UDP};
use crate::endian::{be16, octets32, read_u16};

verus! {

/// The length of the header.
pub const HEADER_LEN: usize = 8;

/// Whether `s` starts with a datagram: it holds the header, and the whole of the datagram.
pub open spec fn well_formed(s: Seq<u8>) -> bool {
    &&& s.len() >= HEADER_LEN
    &&& HEADER_LEN <= be16(s, 4) <= s.len()
}

/// The source port.
pub open spec fn src_port_of(s: Seq<u8>) -> int {
    be16(s, 0)
}

/// The destination port.
pub open spec fn dst_port_of(s: Seq<u8>) -> int {
    be16(s, 2)
}

/// The payload of the datagram that `s` starts with.
pub open spec fn payload(s: Seq<u8>) -> Seq<u8> {
    s.subrange(HEADER_LEN as int, be16(s, 4))
}

/// Whether the checksum of the datagram that `s` starts with is right. A checksum of zero means
/// that the sender did not compute it (RFC 768).
pub open spec fn checksum_ok(s: Seq<u8>, src_addr: IpAddress, dst_addr: IpAddress) -> bool {
    be16(s, 6) == 0 || fold(
        pseudo_header_sum(src_addr, dst_addr, Protocol(UDP), be16(s, 4) as u32) + word_sum(
            s.take(be16(s, 4)),
        ),
    ) == 0xffff
}

/// Query whether `datagram` starts with a datagram.
pub fn check_len(datagram: &[u8]) -> (r: bool)
    ensures
        r == well_formed(datagram@),
{
    if datagram.len() < HEADER_LEN {
        return false;
    }
    let len: usize = read_u16(datagram, 4) as usize;
    HEADER_LEN <= len && len <= datagram.len()
}

/// Return the source port.
pub fn src_port(datagram: &[u8]) -> (port: u16)
    requires
        datagram@.len() >= HEADER_LEN,
    ensures
        port == src_port_of(datagram@),
{
    read_u16(datagram, 0)
}

/// Return the destination port.
pub fn dst_port(datagram: &[u8]) -> (port: u16)
    requires
        datagram@.len() >= HEADER_LEN,
    ensures
        port == dst_port_of(datagram@),
{
    read_u16(datagram, 2)
}

/// Validate the checksum of a datagram. Both addresses belong to one family.
pub fn verify_checksum(
    datagram: &[u8],
    src_addr: &IpAddress,
    dst_addr: &IpAddress,
) -> (r: bool)
    requires
        well_formed(datagram@),
        src_addr is Ipv4 <==> dst_addr is Ipv4,
    ensures
        r == checksum_ok(datagram@, *src_addr, *dst_addr),
{
    if read_u16(datagram, 6) == 0 {
        return true;
    }
    let len: u16 = read_u16(datagram, 4);
    let pseudo: u16 = checksum::pseudo_header(src_addr, dst_addr, Protocol(UDP), len as u32);
    let octets: u16 = checksum::data(&datagram[0..len as usize]);
    let sums: [u16; 2] = [pseudo, octets];
    proof {
        assert(datagram@.subrange(0, len as int) =~= datagram@.take(len as int));
        law_fold_early(
            pseudo_header_sum(*src_addr, *dst_addr, Protocol(UDP), len as u32),
            word_sum(datagram@.take(len as int)),
        );
        reveal_with_fuel(total, 3);
        assert(sums@.drop_last().drop_last() =~= seq![]);
        assert(total(sums@) == pseudo as nat + octets as nat);
    }
    checksum::combine(&sums) == 0xffff
}

/// The octets of the payload.
pub fn payload_of(datagram: &[u8]) -> (octets: Vec<u8>)
    requires
        well_formed(datagram@),
    ensures
        octets@ == payload(datagram@),
{
    let end: usize = read_u16(datagram, 4) as usize;
    let mut octets: Vec<u8> = Vec::new();
    octets.extend_from_slice(&datagram[HEADER_LEN..end]);
    assert(octets@ =~= payload(datagram@));
    octets
}

/// What a datagram is, octet by octet, and when its checksum is right: where the sender did not
/// compute it, and where the pseudo-header and the datagram sum up to all ones.
pub proof fn law_datagram(s: Seq<u8>, src_addr: IpAddress, dst_addr: IpAddress)
    ensures
        well_formed(s) <==> s.len() >= 8 && 8 <= 256 * s[4] + s[5] <= s.len(),
        src_port_of(s) == 256 * s[0] + s[1],
        dst_port_of(s) == 256 * s[2] + s[3],
        well_formed(s) ==> payload(s) == s.subrange(8, 256 * s[4] + s[5]),
        s[6] == 0 && s[7] == 0 ==> checksum_ok(s, src_addr, dst_addr),
        well_formed(s) && !(s[6] == 0 && s[7] == 0) ==> (checksum_ok(s, src_addr, dst_addr)
            <==> fold(
            word_sum(
                src_addr.octets_of() + dst_addr.octets_of() + octets32(256 * s[4] + s[5]) + seq![
                    0u8,
                    0,
                    0,
                    17,
                ] + s.take(256 * s[4] + s[5]),
            ),
        ) == 0xffff),
{
    if well_formed(s) {
        let len = be16(s, 4);
        law_pseudo_header(src_addr, dst_addr, Protocol(17), len as u32);
        let pseudo = src_addr.octets_of() + dst_addr.octets_of() + octets32(len) + seq![
            0u8,
            0,
            0,
            17,
        ];
        assert(pseudo.len() % 2 == 0);
        law_word_sum_append(pseudo, s.take(len));
    }
}

} // verus!
