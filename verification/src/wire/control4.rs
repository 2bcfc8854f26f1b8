//! Internet Control Message Protocol messages.

use vstd::prelude::*;

use super::checksum::{self, fold, law_complement, law_word_sum_put16, word_sum};
use crate::endian::{put16, write_u16};

verus! {

/// Message type: echo reply.
pub const ECHO_REPLY: u8 = 0;

/// Message type: destination unreachable.
pub const DST_UNREACHABLE: u8 = 3;

/// Message type: source quench.
pub const SOURCE_QUENCH: u8 = 4;

/// Message type: redirect.
pub const REDIRECT: u8 = 5;

/// Message type: echo request.
pub const ECHO_REQUEST: u8 = 8;

/// Message type: time exceeded.
pub const TIME_EXCEEDED: u8 = 11;

/// Message type: parameter problem.
pub const PARAM_PROBLEM: u8 = 12;

/// Code of destination unreachable: the host cannot be reached.
pub const HOST_UNREACHABLE: u8 = 1;

/// Code of destination unreachable: the protocol is not supported.
pub const PROTO_UNREACHABLE: u8 = 2;

/// Code of destination unreachable: nothing listens on the port.
pub const PORT_UNREACHABLE: u8 = 3;

/// Whether a message of the given type reports an error, see RFC 1122 § 3.2.2.
pub open spec fn spec_is_error(msg_type: u8) -> bool {
    ||| msg_type == DST_UNREACHABLE
    ||| msg_type == SOURCE_QUENCH
    ||| msg_type == REDIRECT
    ||| msg_type == TIME_EXCEEDED
    ||| msg_type == PARAM_PROBLEM
}

/// Whether a message of the given type reports an error, see RFC 1122 § 3.2.2.
pub fn is_error(msg_type: u8) -> (r: bool)
    ensures
        r == spec_is_error(msg_type),
{
    msg_type == DST_UNREACHABLE || msg_type == SOURCE_QUENCH || msg_type == REDIRECT || msg_type
        == TIME_EXCEEDED || msg_type == PARAM_PROBLEM
}

/// Whether the checksum of a message is right.
pub open spec fn checksum_ok(s: Seq<u8>) -> bool {
    fold(word_sum(s)) == 0xffff
}

/// A message with its checksum filled in, or zero if `offload` says that the device fills it
/// in.
pub open spec fn with_checksum(s: Seq<u8>, offload: bool) -> Seq<u8> {
    let zeroed = put16(s, 2, 0);
    if offload {
        zeroed
    } else {
        put16(zeroed, 2, 0xffff - fold(word_sum(zeroed)))
    }
}

/// Validate the checksum of a message.
pub fn verify_checksum(message: &[u8]) -> (r: bool)
    ensures
        r == checksum_ok(message@),
{
    checksum::data(message) == 0xffff
}

/// Fill the checksum of a message in, or clear it if the device fills it in.
pub fn fill_checksum(message: &mut [u8], offload: bool)
    requires
        old(message)@.len() >= 4,
    ensures
        final(message)@ == with_checksum(old(message)@, offload),
{
    write_u16(message, 2, 0);
    if !offload {
        let sum: u16 = checksum::data(message);
        write_u16(message, 2, 0xffff - sum);
    }
}

/// A message whose checksum was filled in passes the checksum validation.
pub proof fn law_filled_checksum(s: Seq<u8>)
    requires
        s.len() >= 4,
    ensures
        checksum_ok(with_checksum(s, false)),
{
    let zeroed = put16(s, 2, 0);
    let sum = word_sum(zeroed);
    law_word_sum_put16(zeroed, 2, 0xffff - fold(sum));
    law_complement(sum);
}

/// Filling the checksum in changes nothing but the checksum, and makes it right, or zero if the
/// device fills it in.
pub proof fn law_with_checksum(s: Seq<u8>, offload: bool)
    requires
        s.len() >= 4,
    ensures
        ({
            let filled = with_checksum(s, offload);
            &&& filled.len() == s.len()
            &&& filled[0] == s[0] && filled[1] == s[1]
            &&& filled.skip(4) == s.skip(4)
            &&& offload ==> filled[2] == 0 && filled[3] == 0
            &&& !offload ==> fold(word_sum(filled)) == 0xffff
        }),
{
    let filled = with_checksum(s, offload);
    law_filled_checksum(s);
    assert(filled.skip(4) =~= s.skip(4));
}

/// Which types report an error.
pub proof fn law_is_error(msg_type: u8)
    ensures
        spec_is_error(msg_type) <==> msg_type == 3 || msg_type == 4 || msg_type == 5 || msg_type
            == 11 || msg_type == 12,
{
}

} // verus!
