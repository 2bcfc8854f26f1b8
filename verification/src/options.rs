//! The options of IPv6 hop-by-hop headers and of neighbor discovery messages.

use vstd::prelude::*;

use crate::wire::hardware::raw_len;
use crate::wire::ip::Protocol;
use crate::wire::ipv6;
use crate::wire::{Error, HardwareAddress, RawHardwareAddress, Result};

verus! {

/// Hop-by-hop option type: one octet of padding.
pub const OPT_PAD1: u8 = 0;

/// Hop-by-hop option type: several octets of padding.
pub const OPT_PADN: u8 = 1;

/// Hop-by-hop option type: router alert.
pub const OPT_ROUTER_ALERT: u8 = 5;

/// The outcome of processing a hop-by-hop options header.
#[derive(Debug, Clone, Copy, PartialEq, Eq, Structural)]
pub enum HopByHopAction {
    /// All options accepted, continue at the upper-layer header.
    Continue {
        /// The protocol of the upper-layer header.
        next_header: Protocol,
        /// The length of the options header.
        ext_len: usize,
    },
    /// An unrecognized option requires the packet to be discarded silently.
    Discard,
    /// An unrecognized option requires the packet to be discarded and a parameter problem
    /// error sent, pointing at the offending option.
    DiscardSendError {
        /// The offset of the offending option in the packet.
        pointer: u32,
        /// Whether the error is sent even if the packet was sent to a multicast group.
        allow_multicast_dst: bool,
    },
}

/// What a walk over options ends with.
pub enum Walk {
    /// An option runs past the end of the options.
    Malformed,
    /// Every option was accepted.
    Accepted,
    /// The option at the given offset is not recognized, and its type does not allow to skip
    /// it.
    Rejected {
        /// The offset of the option.
        offset: int,
        /// The type of the option.
        option_type: u8,
    },
}

/// What the walk over the options `s` from the offset `at` on ends with.
///
/// Padding and the router alert are recognized. Other options are skipped if the two high bits
/// of their type are zero (RFC 8200 §4.2).
pub open spec fn walk(s: Seq<u8>, at: int) -> Walk
    decreases s.len() - at,
{
    if at < 0 || at >= s.len() {
        Walk::Accepted
    } else if s[at] == OPT_PAD1 {
        walk(s, at + 1)
    } else if at + 2 > s.len() || at + 2 + s[at + 1] > s.len() {
        Walk::Malformed
    } else if s[at] == OPT_PADN || s[at] == OPT_ROUTER_ALERT || s[at] / 64 == 0 {
        walk(s, at + 2 + s[at + 1])
    } else {
        Walk::Rejected { offset: at, option_type: s[at] }
    }
}

/// Whether `s` starts with an extension header: at least eight octets, and as many as its
/// length field says.
pub open spec fn ext_well_formed(s: Seq<u8>) -> bool {
    s.len() >= 8 && (s[1] + 1) * 8 <= s.len()
}

/// The options of the extension header that `s` starts with.
pub open spec fn ext_data(s: Seq<u8>) -> Seq<u8> {
    s.subrange(2, (s[1] + 1) * 8)
}

/// What processing the hop-by-hop options header that `s` starts with gives, or `None` if it
/// is malformed.
pub open spec fn hop_by_hop(s: Seq<u8>) -> Option<HopByHopAction> {
    if !ext_well_formed(s) {
        None
    } else {
        match walk(ext_data(s), 0) {
            Walk::Malformed => None,
            Walk::Accepted => Some(
                HopByHopAction::Continue {
                    next_header: Protocol(s[0]),
                    ext_len: ((s[1] + 1) * 8) as usize,
                },
            ),
            Walk::Rejected { offset, option_type } => if option_type / 64 == 1 {
                Some(HopByHopAction::Discard)
            } else {
                Some(
                    HopByHopAction::DiscardSendError {
                        pointer: (ipv6::HEADER_LEN + 2 + offset) as u32,
                        allow_multicast_dst: option_type / 64 == 2,
                    },
                )
            },
        }
    }
}

/// Walk a hop-by-hop options header (`payload` starts at the extension header).
///
/// Recognized options (padding, router alert) are skipped. Unrecognized ones are acted on per
/// the two high bits of their type (RFC 8200 §4.2).
pub fn process_hop_by_hop(payload: &[u8]) -> (action: Result<HopByHopAction>)
    ensures
        action is Ok <==> hop_by_hop(payload@) is Some,
        action matches Ok(a) ==> hop_by_hop(payload@) == Some(a),
{
    let len: usize = payload.len();
    if len < 8 {
        return Err(Error);
    }
    let ext_len: usize = (payload[1] as usize + 1) * 8;
    if ext_len > len {
        return Err(Error);
    }
    let data: &[u8] = &payload[2..ext_len];
    let end: usize = data.len();
    let mut at: usize = 0;
    while at < end
        invariant
            at <= end,
            end == data@.len(),
            end <= 2046,
            ext_well_formed(payload@),
            data@ == ext_data(payload@),
            walk(data@, 0) == walk(data@, at as int),
        decreases end - at,
    {
        let option_type: u8 = data[at];
        if option_type == OPT_PAD1 {
            at = at + 1;
        } else {
            if at + 2 > end {
                return Err(Error);
            }
            let next: usize = at + 2 + data[at + 1] as usize;
            if next > end {
                return Err(Error);
            }
            if option_type == OPT_PADN || option_type == OPT_ROUTER_ALERT || option_type / 64 == 0 {
                at = next;
            } else if option_type / 64 == 1 {
                return Ok(HopByHopAction::Discard);
            } else {
                // The option sits 2 bytes into the extension header, which itself starts right
                // after the fixed IPv6 header.
                return Ok(
                    HopByHopAction::DiscardSendError {
                        pointer: (ipv6::HEADER_LEN + 2 + at) as u32,
                        allow_multicast_dst: option_type / 64 == 2,
                    },
                );
            }
        }
    }
    Ok(HopByHopAction::Continue { next_header: Protocol(payload[0]), ext_len })
}

/// Neighbor discovery option type: source link-layer address.
pub const SOURCE_LINK_LAYER_ADDR: u8 = 1;

/// Neighbor discovery option type: target link-layer address.
pub const TARGET_LINK_LAYER_ADDR: u8 = 2;

/// The length of the link-layer address option for an address of `len` octets.
pub open spec fn option_len_of(len: nat) -> nat {
    (2 + len + 7) / 8 * 8
}

/// The octets of a link-layer address option: type and length bytes plus the address, padded
/// with zeroes to a multiple of eight octets.
pub open spec fn lladdr_option(option_type: u8, addr: Seq<u8>) -> Seq<u8> {
    let len = option_len_of(addr.len());
    seq![option_type, (len / 8) as u8] + addr + Seq::new((len - 2 - addr.len()) as nat, |i: int| 0u8)
}

/// The length of an NDISC link-layer address option carrying `addr`: type and length bytes
/// plus the address, padded to a multiple of 8 (8 for an Ethernet address, 16 for an extended
/// 802.15.4 address, RFC 4944 §8).
pub fn lladdr_option_len(addr: HardwareAddress) -> (len: usize)
    ensures
        len == option_len_of(addr@.len()),
        8 <= len <= 16,
        addr@.len() <= 8,
{
    (2 + addr.as_bytes().len() + 7) / 8 * 8
}

/// Write an NDISC link-layer address option into `opt`, which must be
/// [`lladdr_option_len`] bytes long. The padding bytes are zeroed.
pub fn write_lladdr_option(opt: &mut [u8], option_type: u8, addr: HardwareAddress)
    requires
        old(opt)@.len() == option_len_of(addr@.len()),
    ensures
        final(opt)@ == lladdr_option(option_type, addr@),
{
    let len: usize = lladdr_option_len(addr);
    let octets: &[u8] = addr.as_bytes();
    let n: usize = octets.len();
    opt[0] = option_type;
    opt[1] = (len / 8) as u8;
    let mut i: usize = 2;
    while i < len
        invariant
            2 <= i <= len <= 16,
            2 + n <= len,
            n == octets@.len(),
            octets@ == addr@,
            len == option_len_of(addr@.len()),
            opt@.len() == len,
            opt@[0] == option_type,
            opt@[1] == (len / 8) as u8,
            forall|j: int| 2 <= j < i && j < 2 + n ==> opt@[j] == addr@[j - 2],
            forall|j: int| 2 + n <= j < i ==> opt@[j] == 0,
        decreases len - i,
    {
        if i < 2 + n {
            opt[i] = octets[i - 2];
        } else {
            opt[i] = 0;
        }
        i = i + 1;
    }
    assert(opt@ =~= lladdr_option(option_type, addr@));
}

/// The address that the link-layer address option at `at` carries: what follows the type and
/// length bytes, up to eight octets of it.
pub open spec fn carried(s: Seq<u8>, at: int) -> Seq<u8> {
    let len = s[at + 1] * 8 - 2;
    s.subrange(at + 2, at + 2 + if len < 8 { len } else { 8 })
}

/// What the scan of the options `s` from the offset `at` on for options of the given type
/// finds, where `found` was found before: `None` if an option is malformed, else the address
/// of the last option of that type.
pub open spec fn scan(s: Seq<u8>, at: int, option_type: u8, found: Option<Seq<u8>>) -> Option<
    Option<Seq<u8>>,
>
    decreases s.len() - at,
{
    if at < 0 || at >= s.len() {
        Some(found)
    } else if at + 8 > s.len() || s[at + 1] == 0 || at + s[at + 1] * 8 > s.len() {
        None
    } else {
        scan(
            s,
            at + s[at + 1] * 8,
            option_type,
            if s[at] == option_type {
                Some(carried(s, at))
            } else {
                found
            },
        )
    }
}

/// The address that a scan found.
pub open spec fn raw_view(raw: Option<RawHardwareAddress>) -> Option<Seq<u8>> {
    match raw {
        Some(r) => Some(r@),
        None => None,
    }
}

/// Scan the NDISC options of a neighbor solicitation/advertisement for the (source or target)
/// link-layer address option.
///
/// If there are several, the last one counts. An option that is cut short or of length zero
/// is an error.
pub fn ndisc_lladdr_option(options: &[u8], option_type: u8) -> (lladdr: Result<
    Option<RawHardwareAddress>,
>)
    ensures
        lladdr is Ok <==> scan(options@, 0, option_type, None) is Some,
        lladdr matches Ok(found) ==> scan(options@, 0, option_type, None) == Some(raw_view(found)),
{
    let len: usize = options.len();
    let mut lladdr: Option<RawHardwareAddress> = None;
    let mut offset: usize = 0;
    while offset < len
        invariant
            offset <= len,
            len == options@.len(),
            scan(options@, 0, option_type, None) == scan(
                options@,
                offset as int,
                option_type,
                raw_view(lladdr),
            ),
        decreases len - offset,
    {
        if len - offset < 8 {
            return Err(Error);
        }
        let opt_len: usize = options[offset + 1] as usize * 8;
        if opt_len == 0 || opt_len > len - offset {
            return Err(Error);
        }
        if options[offset] == option_type {
            let addr_len: usize = if opt_len - 2 < 8 {
                opt_len - 2
            } else {
                8
            };
            let raw = RawHardwareAddress::from_bytes(&options[offset + 2..offset + 2 + addr_len]);
            assert(raw@ =~= carried(options@, offset as int));
            lladdr = Some(raw);
        }
        offset = offset + opt_len;
    }
    Ok(lladdr)
}

/// What is written as a link-layer address option is found again: an address of the length
/// that its medium has, in an option of the type that is looked for.
pub proof fn law_lladdr_round_trip(addr: HardwareAddress, option_type: u8)
    requires
        raw_len(addr.spec_medium()) == Some(addr@.len()),
    ensures
        scan(lladdr_option(option_type, addr@), 0, option_type, None) == Some(Some(addr@)),
{
    let s = lladdr_option(option_type, addr@);
    assert(carried(s, 0) =~= addr@);
    reveal_with_fuel(scan, 2);
}

/// Whether the hop-by-hop options header that `s` starts with has an option from `at` to `next`
/// that is passed over.
pub open spec fn passed_over(s: Seq<u8>, at: int, next: int) -> bool {
    let end = 8 * (s[1] + 1);
    &&& 2 <= at < next <= end
    &&& s[at] == 0 ==> next == at + 1
    &&& s[at] != 0 ==> s[at] < 64 && at + 2 <= end && next == at + 2 + s[at + 1]
}

/// What a hop-by-hop options header asks for, said of where its options start: an octet of zero
/// is an option by itself, and any other option has its type, the length of its value and the
/// value. Options whose type is below 64 are passed over. The first one that is not decides: one
/// that does not fit makes the header malformed, and one that fits is discarded silently, or with
/// an error that points at it, as the two high bits of its type say. If there is none, the packet
/// goes on behind the header.
pub proof fn law_hop_by_hop(s: Seq<u8>, starts: Seq<int>)
    requires
        s.len() >= 8,
        8 * (s[1] + 1) <= s.len(),
        starts.len() >= 1,
        starts[0] == 2,
        forall|i: int, j: int|
            0 <= i && j == i + 1 && j < starts.len() ==> #[trigger] passed_over(
                s,
                starts[i],
                starts[j],
            ),
    ensures
        ({
            let end = 8 * (s[1] + 1);
            let at = starts.last();
            &&& at == end ==> (hop_by_hop(s) matches Some(
                HopByHopAction::Continue { next_header, ext_len },
            ) && next_header.0 == s[0] && ext_len == end)
            &&& 2 <= at < end && s[at] != 0 && (at + 2 > end || at + 2 + s[at + 1] > end)
                ==> hop_by_hop(s) is None
            &&& 2 <= at && at + 2 <= end && at + 2 + s[at + 1] <= end ==> {
                &&& 64 <= s[at] < 128 ==> hop_by_hop(s) == Some(HopByHopAction::Discard)
                &&& 128 <= s[at] ==> (hop_by_hop(s) matches Some(
                    HopByHopAction::DiscardSendError { pointer, allow_multicast_dst },
                ) && pointer == 40 + at && (allow_multicast_dst <==> s[at] < 192))
            }
        }),
{
    lemma_walk_starts(s, starts, starts.len() - 1);
    let data = ext_data(s);
    let at = starts.last();
    if 2 <= at < 8 * (s[1] + 1) {
        assert(data[at - 2] == s[at]);
        if at + 1 < 8 * (s[1] + 1) {
            assert(data[at - 1] == s[at + 1]);
        }
    }
}

/// The walk over the options passes through every place where one starts, as long as those before
/// it are passed over.
proof fn lemma_walk_starts(s: Seq<u8>, starts: Seq<int>, k: int)
    requires
        s.len() >= 8,
        8 * (s[1] + 1) <= s.len(),
        0 <= k < starts.len(),
        starts[0] == 2,
        forall|i: int, j: int|
            0 <= i && j == i + 1 && j < starts.len() ==> #[trigger] passed_over(
                s,
                starts[i],
                starts[j],
            ),
    ensures
        walk(ext_data(s), 0) == walk(ext_data(s), starts[k] - 2),
        2 <= starts[k] <= 8 * (s[1] + 1),
    decreases k,
{
    if k > 0 {
        lemma_walk_starts(s, starts, k - 1);
        let at = starts[k - 1];
        assert(passed_over(s, at, starts[k]));
        assert(ext_data(s)[at - 2] == s[at]);
        if s[at] != 0 {
            assert(ext_data(s)[at - 1] == s[at + 1]);
        }
    }
}

/// A hop-by-hop options header that is cut short is malformed.
pub proof fn law_hop_by_hop_cut_short(s: Seq<u8>)
    ensures
        s.len() < 8 ==> hop_by_hop(s) is None,
        s.len() >= 8 && 8 * (s[1] + 1) > s.len() ==> hop_by_hop(s) is None,
{
}

/// Whether `s` has a neighbor discovery option from `at` to `next`.
pub open spec fn reaches(s: Seq<u8>, at: int, next: int) -> bool {
    &&& 0 <= at && at + 8 <= s.len()
    &&& s[at + 1] > 0
    &&& next == at + 8 * s[at + 1]
    &&& next <= s.len()
}

/// What a scan for a link-layer address finds, said of where the options start: each is as many
/// times eight octets long as its second octet says. Where they reach to the end, the last option
/// of the type counts, and there is no address if there is none. An option of length zero, or one
/// that runs past the end, is an error.
pub proof fn law_scan(s: Seq<u8>, option_type: u8, starts: Seq<int>, last: int)
    requires
        starts.len() >= 1,
        starts[0] == 0,
        forall|i: int, j: int|
            0 <= i && j == i + 1 && j < starts.len() ==> #[trigger] reaches(
                s,
                starts[i],
                starts[j],
            ),
    ensures
        ({
            let found = scan(s, 0, option_type, None);
            let at = starts.last();
            &&& 0 <= at < s.len() && (at + 8 > s.len() || s[at + 1] == 0 || at + 8 * s[at + 1]
                > s.len()) ==> found is None
            &&& at == s.len() && (forall|i: int|
                0 <= i < starts.len() - 1 ==> s[#[trigger] starts[i]] != option_type) ==> found
                == Some(None::<Seq<u8>>)
            &&& at == s.len() && 0 <= last < starts.len() - 1 && s[starts[last]] == option_type && (
            forall|i: int|
                last < i < starts.len() - 1 ==> s[#[trigger] starts[i]] != option_type) ==> (
            found matches Some(Some(octets)) && octets == s.subrange(
                starts[last] + 2,
                starts[last] + if s[starts[last] + 1] == 1 {
                    8int
                } else {
                    10
                },
            ))
        }),
{
    let found = lemma_scan_starts(s, option_type, starts, starts.len() - 1, last);
    if 0 <= last < starts.len() - 1 {
        assert(reaches(s, starts[last], starts[last + 1]));
    }
    assert(starts.last() == starts[starts.len() - 1]);
    if starts.last() == s.len() {
        assert(scan(s, 0, option_type, None) == Some(found));
    }
}

/// The scan of the options passes through every place where one starts.
proof fn lemma_scan_starts(
    s: Seq<u8>,
    option_type: u8,
    starts: Seq<int>,
    k: int,
    last: int,
) -> (found: Option<Seq<u8>>)
    requires
        0 <= k < starts.len(),
        starts[0] == 0,
        forall|i: int, j: int|
            0 <= i && j == i + 1 && j < starts.len() ==> #[trigger] reaches(
                s,
                starts[i],
                starts[j],
            ),
    ensures
        0 <= starts[k] <= s.len(),
        scan(s, 0, option_type, None) == scan(s, starts[k], option_type, found),
        (forall|i: int| 0 <= i < k ==> s[#[trigger] starts[i]] != option_type) ==> found is None,
        0 <= last < k && s[starts[last]] == option_type && (forall|i: int|
            last < i < k ==> s[#[trigger] starts[i]] != option_type) ==> found == Some(
            carried(s, starts[last]),
        ),
    decreases k,
{
    if k == 0 {
        None
    } else {
        let before = lemma_scan_starts(s, option_type, starts, k - 1, last);
        let at = starts[k - 1];
        assert(reaches(s, at, starts[k]));
        if s[at] == option_type {
            Some(carried(s, at))
        } else {
            before
        }
    }
}

/// A link-layer address option is as short as its length, in units of eight octets, allows: the
/// type, the length, the address, and fewer than eight octets of zero.
pub proof fn law_lladdr_option(option_type: u8, addr: Seq<u8>)
    requires
        addr.len() <= 8,
    ensures
        ({
            let s = lladdr_option(option_type, addr);
            &&& s[0] == option_type
            &&& s.len() == 8 * s[1]
            &&& s.len() == option_len_of(addr.len())
            &&& addr.len() + 2 <= s.len() < addr.len() + 10
            &&& s.skip(2).take(addr.len() as int) == addr
            &&& forall|i: int| 2 + addr.len() <= i < s.len() ==> #[trigger] s[i] == 0
        }),
{
    let s = lladdr_option(option_type, addr);
    assert(s.skip(2).take(addr.len() as int) =~= addr);
}

} // verus!
