//! Transmission Control Protocol segments.

use vstd::prelude::*;

use super::bits::{has_bit, is_weight16, law_with_bit, lemma_bit_u16, with_bit};
use super::checksum::{
    self, fold, law_complement, law_fold_early, law_pseudo_header, law_word_sum_append,
    law_word_sum_put16, pseudo_header_sum, total, word_sum,
};
use super::ip::{Address as IpAddress, Protocol, TCP};
use super::{Error, Result};
use crate::endian::{be16, be32, octets16, octets32, put16, put32, signed32, splice, unsigned32};
use crate::endian::{copy_into, read_i32, read_u16, read_u32, sub_slice_mut};
use crate::endian::{law_put16, law_put32, lemma_be32_octets32, lemma_octets16, lemma_octets32};
use crate::endian::{write_i32, write_u16, write_u32};

verus! {

/// The length of a TCP header without options.
pub const HEADER_LEN: usize = 20;

/// Option kind: end of the option list.
pub const OPT_END: u8 = 0x00;

/// Option kind: no operation.
pub const OPT_NOP: u8 = 0x01;

/// Option kind: maximum segment size.
pub const OPT_MSS: u8 = 0x02;

/// Option kind: window scale.
pub const OPT_WS: u8 = 0x03;

/// Option kind: selective acknowledgement permitted.
pub const OPT_SACKPERM: u8 = 0x04;

/// Option kind: selective acknowledgement.
pub const OPT_SACKRNG: u8 = 0x05;

/// Option kind: timestamps.
pub const OPT_TSTAMP: u8 = 0x08;

/// A representation of a single TCP option.
#[derive(Debug, PartialEq, Eq, Clone, Copy)]
pub enum TcpOption<'a> {
    /// The end of the option list.
    EndOfList,
    /// No operation, used as padding between options.
    NoOperation,
    /// The largest segment that the sender accepts.
    MaxSegmentSize(u16),
    /// The number of bits by which to shift the window field.
    WindowScale(u8),
    /// Selective acknowledgements may be sent.
    SackPermitted,
    /// Ranges of sequence numbers that were received.
    SackRange([Option<(u32, u32)>; 3]),
    /// The timestamp of the sender, and the one that it echoes.
    TimeStamp {
        /// The timestamp of the sender.
        tsval: u32,
        /// The timestamp that the sender echoes.
        tsecr: u32,
    },
    /// Any other option.
    Unknown {
        /// The kind of the option.
        kind: u8,
        /// The octets that follow the length octet.
        data: &'a [u8],
    },
}

/// The octets of the blocks that are present among `blocks`, in order.
pub open spec fn sack_blocks(blocks: Seq<Option<(u32, u32)>>) -> Seq<u8>
    decreases blocks.len(),
{
    if blocks.len() == 0 {
        seq![]
    } else {
        let before = sack_blocks(blocks.drop_last());
        match blocks.last() {
            None => before,
            Some((left, right)) => before + octets32(left as int) + octets32(right as int),
        }
    }
}

impl<'a> TcpOption<'a> {
    /// The octets that encode the option.
    pub open spec fn encoding(&self) -> Seq<u8> {
        match *self {
            TcpOption::EndOfList => seq![OPT_END],
            TcpOption::NoOperation => seq![OPT_NOP],
            TcpOption::MaxSegmentSize(value) => seq![OPT_MSS, 4u8] + octets16(value as int),
            TcpOption::WindowScale(value) => seq![OPT_WS, 3u8, value],
            TcpOption::SackPermitted => seq![OPT_SACKPERM, 2u8],
            TcpOption::SackRange(blocks) => {
                let octets = sack_blocks(blocks@);
                seq![OPT_SACKRNG, (2 + octets.len()) as u8] + octets
            },
            TcpOption::TimeStamp { tsval, tsecr } => {
                seq![OPT_TSTAMP, 10u8] + octets32(tsval as int) + octets32(tsecr as int)
            },
            TcpOption::Unknown { kind, data } => seq![kind, ((2 + data@.len()) % 0x100) as u8] + data@,
        }
    }

    /// Whether the option is one that parsing can give: its blocks are present from the first
    /// one on without gaps, and what is presented as unknown has no variant of its own.
    pub open spec fn canonical(&self) -> bool {
        match *self {
            TcpOption::SackRange(blocks) => {
                &&& blocks@[0] is Some
                &&& blocks@[2] is Some ==> blocks@[1] is Some
            },
            TcpOption::Unknown { kind, data } => {
                &&& data@.len() <= 253
                &&& kind > OPT_SACKRNG
                &&& !(kind == OPT_TSTAMP && data@.len() == 8)
            },
            _ => true,
        }
    }
}

/// The length of the option that `s` starts with, or `None` if `s` does not start with an
/// option.
pub open spec fn option_len(s: Seq<u8>) -> Option<int> {
    if s.len() == 0 {
        None
    } else if s[0] == OPT_END || s[0] == OPT_NOP {
        Some(1)
    } else if s.len() < 2 || s[1] < 2 || s[1] > s.len() {
        None
    } else if s[0] == OPT_MSS && s[1] != 4 {
        None
    } else if s[0] == OPT_WS && s[1] != 3 {
        None
    } else if s[0] == OPT_SACKPERM && s[1] != 2 {
        None
    } else if s[0] == OPT_SACKRNG && (s[1] < 10 || s[1] % 8 != 2) {
        None
    } else {
        Some(s[1] as int)
    }
}

/// The octets that are kept of the option that `s` starts with: all of them, except that of
/// a selective acknowledgement with more than three blocks only the first three are kept.
pub open spec fn option_kept(s: Seq<u8>) -> Seq<u8>
    recommends
        option_len(s) is Some,
{
    if s[0] == OPT_SACKRNG && s[1] > 26 {
        seq![OPT_SACKRNG, 26u8] + s.subrange(2, 26)
    } else {
        s.take(option_len(s)->0)
    }
}

/// What the octets of three optional blocks are, when they are present without gaps.
proof fn lemma_sack_blocks(blocks: Seq<Option<(u32, u32)>>)
    requires
        blocks.len() == 3,
    ensures
        sack_blocks(blocks) == sack_blocks(seq![blocks[0]]) + sack_blocks(seq![blocks[1]])
            + sack_blocks(seq![blocks[2]]),
        forall|i: int| #![trigger blocks[i]] 0 <= i < 3 ==> sack_blocks(seq![blocks[i]]) == match blocks[i] {
            None => seq![],
            Some((left, right)) => octets32(left as int) + octets32(right as int),
        },
{
    reveal_with_fuel(sack_blocks, 4);
    assert forall|i: int| #![trigger blocks[i]] 0 <= i < 3 implies sack_blocks(seq![blocks[i]]) == match blocks[i] {
        None => seq![],
        Some((left, right)) => octets32(left as int) + octets32(right as int),
    } by {
        assert(seq![blocks[i]].drop_last() =~= seq![]);
        assert(sack_blocks(seq![]) =~= seq![]);
        assert(sack_blocks(seq![blocks[i]]) =~= match blocks[i] {
            None => seq![],
            Some((left, right)) => octets32(left as int) + octets32(right as int),
        });
    }
    let two = blocks.drop_last();
    let one = two.drop_last();
    assert(one.drop_last() =~= seq![]);
    assert(one =~= seq![blocks[0]]);
    assert(two.last() == blocks[1]);
    assert(sack_blocks(blocks) =~= sack_blocks(seq![blocks[0]]) + sack_blocks(seq![blocks[1]])
        + sack_blocks(seq![blocks[2]]));
}

/// How the octets of the first blocks grow by one block.
proof fn lemma_sack_blocks_step(blocks: Seq<Option<(u32, u32)>>, i: int)
    requires
        blocks.len() == 3,
        0 <= i < 3,
    ensures
        sack_blocks(blocks.take(i + 1)) == match blocks[i] {
            None => sack_blocks(blocks.take(i)),
            Some((left, right)) => sack_blocks(blocks.take(i)) + octets32(left as int) + octets32(
                right as int,
            ),
        },
        sack_blocks(blocks.take(i + 1)).len() <= sack_blocks(blocks).len(),
{
    assert(blocks.take(i + 1).drop_last() =~= blocks.take(i));
    reveal_with_fuel(sack_blocks, 4);
    assert(blocks.take(3) =~= blocks);
    assert(blocks.drop_last() =~= blocks.take(2));
    assert(blocks.take(2).drop_last() =~= blocks.take(1));
    assert(blocks.take(1).drop_last() =~= blocks.take(0));
}

/// The block at position `index` of the octets of a selective acknowledgement, or `None`
/// where they end before it.
fn sack_block(data: &[u8], index: usize) -> (block: Option<(u32, u32)>)
    requires
        data@.len() % 8 == 0,
        index < 3,
    ensures
        block is Some <==> index * 8 < data@.len(),
        block matches Some((left, right)) ==> octets32(left as int) + octets32(right as int)
            == data@.subrange(index * 8, index * 8 + 8),
{
    let left: usize = index * 8;
    if left < data.len() {
        let range_left: u32 = read_u32(data, left);
        let range_right: u32 = read_u32(data, left + 4);
        proof {
            lemma_octets32(data@, left as int);
            lemma_octets32(data@, left + 4);
            assert(data@.subrange(left as int, left + 4) + data@.subrange(left + 4, left + 8)
                =~= data@.subrange(left as int, left + 8));
        }
        Some((range_left, range_right))
    } else {
        None
    }
}

/// The first three blocks of the octets of a selective acknowledgement.
fn sack_ranges(data: &[u8]) -> (blocks: [Option<(u32, u32)>; 3])
    requires
        data@.len() >= 8,
        data@.len() % 8 == 0,
    ensures
        blocks@[0] is Some,
        blocks@[2] is Some ==> blocks@[1] is Some,
        sack_blocks(blocks@) == data@.take(if data@.len() > 24 { 24 } else { data@.len() as int }),
{
    let blocks: [Option<(u32, u32)>; 3] = [
        sack_block(data, 0),
        sack_block(data, 1),
        sack_block(data, 2),
    ];
    proof {
        lemma_sack_blocks(blocks@);
        assert(sack_blocks(blocks@) =~= data@.take(
            if data@.len() > 24 {
                24
            } else {
                data@.len() as int
            },
        ));
    }
    blocks
}

impl<'a> TcpOption<'a> {
    /// Parse the option that `buffer` starts with, and return what follows it as well.
    ///
    /// Of a selective acknowledgement with more than three blocks, the first three are kept.
    pub fn parse(buffer: &'a [u8]) -> (result: Result<(&'a [u8], TcpOption<'a>)>)
        ensures
            result is Ok <==> option_len(buffer@) is Some,
            result matches Ok((rest, option)) ==> {
                &&& rest@ == buffer@.skip(option_len(buffer@)->0)
                &&& option.canonical()
                &&& option.encoding() == option_kept(buffer@)
            },
    {
        let len: usize = buffer.len();
        if len == 0 {
            return Err(Error);
        }
        let kind: u8 = buffer[0];
        if kind == OPT_END {
            assert(TcpOption::EndOfList.encoding() =~= option_kept(buffer@));
            return Ok((&buffer[1..len], TcpOption::EndOfList));
        }
        if kind == OPT_NOP {
            assert(TcpOption::NoOperation.encoding() =~= option_kept(buffer@));
            return Ok((&buffer[1..len], TcpOption::NoOperation));
        }
        if len < 2 {
            return Err(Error);
        }
        let length: usize = buffer[1] as usize;
        if length < 2 || length > len {
            return Err(Error);
        }
        let data: &'a [u8] = &buffer[2..length];
        let option: TcpOption<'a> = if kind == OPT_MSS {
            if length != 4 {
                return Err(Error);
            }
            proof {
                lemma_octets16(data@, 0);
            }
            TcpOption::MaxSegmentSize(read_u16(data, 0))
        } else if kind == OPT_WS {
            if length != 3 {
                return Err(Error);
            }
            TcpOption::WindowScale(data[0])
        } else if kind == OPT_SACKPERM {
            if length != 2 {
                return Err(Error);
            }
            TcpOption::SackPermitted
        } else if kind == OPT_SACKRNG {
            if length < 10 || (length - 2) % 8 != 0 {
                return Err(Error);
            }
            TcpOption::SackRange(sack_ranges(data))
        } else if kind == OPT_TSTAMP && length == 10 {
            proof {
                lemma_octets32(data@, 0);
                lemma_octets32(data@, 4);
            }
            TcpOption::TimeStamp { tsval: read_u32(data, 0), tsecr: read_u32(data, 4) }
        } else {
            TcpOption::Unknown { kind, data }
        };
        assert(option.encoding() =~= option_kept(buffer@));
        Ok((&buffer[length..len], option))
    }

    /// Whether a buffer of `len` octets is one that [`emit`](TcpOption::emit) can write to.
    pub open spec fn fits(&self, len: nat) -> bool {
        match *self {
            TcpOption::Unknown { data, .. } => len == 2 + data@.len(),
            _ => len >= self.encoding().len(),
        }
    }

    /// The number of octets that the option takes up.
    pub fn buffer_len(&self) -> (len: usize)
        requires
            self matches TcpOption::Unknown { data, .. } ==> 2 + data@.len() <= usize::MAX,
        ensures
            len == self.encoding().len(),
    {
        match *self {
            TcpOption::EndOfList => 1,
            TcpOption::NoOperation => 1,
            TcpOption::MaxSegmentSize(_) => 4,
            TcpOption::WindowScale(_) => 3,
            TcpOption::SackPermitted => 2,
            TcpOption::SackRange(blocks) => {
                let mut count: usize = 0;
                if blocks[0].is_some() {
                    count = count + 1;
                }
                if blocks[1].is_some() {
                    count = count + 1;
                }
                if blocks[2].is_some() {
                    count = count + 1;
                }
                proof {
                    lemma_sack_blocks(blocks@);
                }
                count * 8 + 2
            },
            TcpOption::TimeStamp { .. } => 10,
            TcpOption::Unknown { data, .. } => 2 + data.len(),
        }
    }

    /// Write the option at the start of `buffer`, and return what follows it.
    ///
    /// The end of the list is written over the whole of `buffer`, so that the padding that
    /// may follow it is initialized too.
    pub fn emit<'b>(&self, buffer: &'b mut [u8]) -> (rest: &'b mut [u8])
        requires
            self.fits(old(buffer)@.len()),
        ensures
            rest@ == if self is EndOfList {
                Seq::new((old(buffer)@.len() - 1) as nat, |i: int| OPT_END)
            } else {
                old(buffer)@.skip(self.encoding().len() as int)
            },
            final(buffer)@ == self.encoding() + final(rest)@,
    {
        let ghost before = buffer@;
        let len: usize = buffer.len();
        let length: usize;
        match *self {
            TcpOption::EndOfList => {
                length = 1;
                let mut i: usize = 0;
                while i < len
                    invariant
                        i <= len,
                        len == buffer@.len(),
                        forall|j: int| 0 <= j < i ==> buffer@[j] == OPT_END,
                    decreases len - i,
                {
                    buffer[i] = OPT_END;
                    i = i + 1;
                }
            },
            TcpOption::NoOperation => {
                length = 1;
                buffer[0] = OPT_NOP;
            },
            TcpOption::MaxSegmentSize(value) => {
                length = 4;
                buffer[0] = OPT_MSS;
                buffer[1] = 4;
                write_u16(buffer, 2, value);
            },
            TcpOption::WindowScale(value) => {
                length = 3;
                buffer[0] = OPT_WS;
                buffer[1] = 3;
                buffer[2] = value;
            },
            TcpOption::SackPermitted => {
                length = 2;
                buffer[0] = OPT_SACKPERM;
                buffer[1] = 2;
            },
            TcpOption::SackRange(blocks) => {
                proof {
                    lemma_sack_blocks(blocks@);
                }
                length = self.buffer_len();
                buffer[0] = OPT_SACKRNG;
                buffer[1] = length as u8;
                let mut pos: usize = 2;
                let mut i: usize = 0;
                while i < 3
                    invariant
                        i <= 3,
                        2 <= pos <= length <= len <= usize::MAX,
                        len == buffer@.len(),
                        length == 2 + sack_blocks(blocks@).len(),
                        pos == 2 + sack_blocks(blocks@.take(i as int)).len(),
                        buffer@ == splice(
                            before,
                            0,
                            seq![OPT_SACKRNG, length as u8] + sack_blocks(blocks@.take(i as int)),
                        ),
                        blocks@.len() == 3,
                        before.len() == len,
                    decreases 3 - i,
                {
                    proof {
                        lemma_sack_blocks_step(blocks@, i as int);
                    }
                    let ghost written = buffer@;
                    if let Some((first, second)) = blocks[i] {
                        write_u32(buffer, pos, first);
                        write_u32(buffer, pos + 4, second);
                        pos = pos + 8;
                    }
                    i = i + 1;
                    assert(buffer@ =~= splice(
                        before,
                        0,
                        seq![OPT_SACKRNG, length as u8] + sack_blocks(blocks@.take(i as int)),
                    ));
                }
                assert(blocks@.take(3) =~= blocks@);
            },
            TcpOption::TimeStamp { tsval, tsecr } => {
                length = 10;
                buffer[0] = OPT_TSTAMP;
                buffer[1] = 10;
                write_u32(buffer, 2, tsval);
                write_u32(buffer, 6, tsecr);
            },
            TcpOption::Unknown { kind, data } => {
                length = len;
                buffer[0] = kind;
                buffer[1] = (length % 0x100) as u8;
                copy_into(buffer, 2, data);
            },
        }
        assert(buffer@.take(length as int) =~= self.encoding());
        let (_, rest) = buffer.split_at_mut(length);
        rest
    }
}

/// A TCP sequence number.
///
/// A sequence number is a monotonically advancing integer modulo 2^32. Sequence numbers do not
/// have a discontiguity when compared pairwise across a signed overflow.
#[derive(Debug, PartialEq, Eq, Structural, Clone, Copy)]
pub struct SeqNumber(pub i32);

/// The number between -2^31 and 2^31 - 1 that is congruent to `n` modulo 2^32, where `n` is off
/// by at most one turn.
pub open spec fn wrap(n: int) -> int {
    if n > 0x7fff_ffff {
        n - 0x1_0000_0000
    } else if n < -0x8000_0000 {
        n + 0x1_0000_0000
    } else {
        n
    }
}

/// How far `a` is ahead of `b`.
pub open spec fn ahead(a: SeqNumber, b: SeqNumber) -> int {
    wrap(a.0 - b.0)
}

impl Default for SeqNumber {
    fn default() -> (n: SeqNumber)
        ensures
            n.0 == 0,
    {
        SeqNumber(0)
    }
}

impl SeqNumber {
    /// The later of two sequence numbers.
    pub fn max(self, rhs: Self) -> (n: Self)
        ensures
            n == if ahead(self, rhs) > 0 { self } else { rhs },
    {
        if self > rhs {
            self
        } else {
            rhs
        }
    }

    /// The earlier of two sequence numbers.
    pub fn min(self, rhs: Self) -> (n: Self)
        ensures
            n == if ahead(self, rhs) < 0 { self } else { rhs },
    {
        if self < rhs {
            self
        } else {
            rhs
        }
    }
}

impl core::ops::Add<usize> for SeqNumber {
    type Output = SeqNumber;

    fn add(self, rhs: usize) -> (n: SeqNumber) {
        SeqNumber(self.0.wrapping_add(rhs as i32))
    }
}

impl vstd::std_specs::ops::AddSpecImpl<usize> for SeqNumber {
    open spec fn obeys_add_spec() -> bool {
        true
    }

    open spec fn add_req(self, rhs: usize) -> bool {
        rhs <= 0x7fff_ffff
    }

    open spec fn add_spec(self, rhs: usize) -> SeqNumber {
        SeqNumber(wrap(self.0 + rhs) as i32)
    }
}

impl core::ops::Sub<usize> for SeqNumber {
    type Output = SeqNumber;

    fn sub(self, rhs: usize) -> (n: SeqNumber) {
        SeqNumber(self.0.wrapping_sub(rhs as i32))
    }
}

impl vstd::std_specs::ops::SubSpecImpl<usize> for SeqNumber {
    open spec fn obeys_sub_spec() -> bool {
        true
    }

    open spec fn sub_req(self, rhs: usize) -> bool {
        rhs <= 0x7fff_ffff
    }

    open spec fn sub_spec(self, rhs: usize) -> SeqNumber {
        SeqNumber(wrap(self.0 - rhs) as i32)
    }
}

impl core::ops::Sub<SeqNumber> for SeqNumber {
    type Output = usize;

    fn sub(self, rhs: SeqNumber) -> (n: usize) {
        self.0.wrapping_sub(rhs.0) as usize
    }
}

impl vstd::std_specs::ops::SubSpecImpl<SeqNumber> for SeqNumber {
    open spec fn obeys_sub_spec() -> bool {
        true
    }

    open spec fn sub_req(self, rhs: SeqNumber) -> bool {
        ahead(self, rhs) >= 0
    }

    open spec fn sub_spec(self, rhs: SeqNumber) -> usize {
        ahead(self, rhs) as usize
    }
}

impl core::ops::AddAssign<usize> for SeqNumber {
    fn add_assign(&mut self, rhs: usize)
        ensures
            rhs <= 0x7fff_ffff ==> final(self).0 == wrap(old(self).0 + rhs),
    {
        *self = SeqNumber(self.0.wrapping_add(rhs as i32));
    }
}

impl PartialOrd for SeqNumber {
    fn partial_cmp(&self, other: &SeqNumber) -> (o: Option<core::cmp::Ordering>) {
        let difference: i32 = self.0.wrapping_sub(other.0);
        if difference < 0 {
            Some(core::cmp::Ordering::Less)
        } else if difference > 0 {
            Some(core::cmp::Ordering::Greater)
        } else {
            Some(core::cmp::Ordering::Equal)
        }
    }
}

impl vstd::std_specs::cmp::PartialOrdSpecImpl for SeqNumber {
    open spec fn obeys_partial_cmp_spec() -> bool {
        true
    }

    open spec fn partial_cmp_spec(&self, other: &SeqNumber) -> Option<core::cmp::Ordering> {
        if ahead(*self, *other) < 0 {
            Some(core::cmp::Ordering::Less)
        } else if ahead(*self, *other) > 0 {
            Some(core::cmp::Ordering::Greater)
        } else {
            Some(core::cmp::Ordering::Equal)
        }
    }
}

/// Moving a sequence number forward by a distance puts it that far ahead, and moving it back
/// by the same distance returns to where it was.
pub proof fn law_seq_add_sub(a: SeqNumber, n: int)
    requires
        0 <= n <= 0x7fff_ffff,
    ensures
        ahead(SeqNumber(wrap(a.0 + n) as i32), a) == n,
        wrap(wrap(a.0 + n) - n) == a.0,
        ahead(a, SeqNumber(wrap(a.0 - n) as i32)) == n,
{
}

/// One of two different sequence numbers is ahead of the other one, unless they are half the
/// number space apart.
pub proof fn law_seq_order(a: SeqNumber, b: SeqNumber)
    requires
        ahead(a, b) != -0x8000_0000,
    ensures
        ahead(b, a) == -ahead(a, b),
        ahead(a, b) == 0 <==> a == b,
{
}

/// The fields of a TCP header.
pub struct Header {
    /// The source port.
    pub src_port: int,
    /// The destination port.
    pub dst_port: int,
    /// The sequence number.
    pub seq_number: SeqNumber,
    /// The acknowledgement number.
    pub ack_number: SeqNumber,
    /// The header length, in octets.
    pub header_len: int,
    /// The reserved bits.
    pub reserved: int,
    /// The NS flag.
    pub ns: bool,
    /// The CWR flag.
    pub cwr: bool,
    /// The ECE flag.
    pub ece: bool,
    /// The URG flag.
    pub urg: bool,
    /// The ACK flag.
    pub ack: bool,
    /// The PSH flag.
    pub psh: bool,
    /// The RST flag.
    pub rst: bool,
    /// The SYN flag.
    pub syn: bool,
    /// The FIN flag.
    pub fin: bool,
    /// The window size.
    pub window_len: int,
    /// The checksum.
    pub checksum: int,
    /// The urgent pointer.
    pub urgent_at: int,
}

/// Flag: FIN.
pub const FLG_FIN: u16 = 0x001;

/// Flag: SYN.
pub const FLG_SYN: u16 = 0x002;

/// Flag: RST.
pub const FLG_RST: u16 = 0x004;

/// Flag: PSH.
pub const FLG_PSH: u16 = 0x008;

/// Flag: ACK.
pub const FLG_ACK: u16 = 0x010;

/// Flag: URG.
pub const FLG_URG: u16 = 0x020;

/// Flag: ECE.
pub const FLG_ECE: u16 = 0x040;

/// Flag: CWR.
pub const FLG_CWR: u16 = 0x080;

/// Flag: NS.
pub const FLG_NS: u16 = 0x100;

/// The fields of the header that `s` starts with.
pub open spec fn header(s: Seq<u8>) -> Header {
    let flags = be16(s, 12);
    Header {
        src_port: be16(s, 0),
        dst_port: be16(s, 2),
        seq_number: SeqNumber(signed32(be32(s, 4)) as i32),
        ack_number: SeqNumber(signed32(be32(s, 8)) as i32),
        header_len: flags / 0x1000 * 4,
        reserved: flags / 0x200 % 8,
        ns: has_bit(flags, FLG_NS as int),
        cwr: has_bit(flags, FLG_CWR as int),
        ece: has_bit(flags, FLG_ECE as int),
        urg: has_bit(flags, FLG_URG as int),
        ack: has_bit(flags, FLG_ACK as int),
        psh: has_bit(flags, FLG_PSH as int),
        rst: has_bit(flags, FLG_RST as int),
        syn: has_bit(flags, FLG_SYN as int),
        fin: has_bit(flags, FLG_FIN as int),
        window_len: be16(s, 14),
        checksum: be16(s, 16),
        urgent_at: be16(s, 18),
    }
}

/// Whether `s` starts with a TCP header, which is at least 20 octets long.
pub open spec fn well_formed(s: Seq<u8>) -> bool {
    &&& s.len() >= HEADER_LEN
    &&& HEADER_LEN <= header(s).header_len <= s.len()
}

/// The field that the options are in, in a header of `length` octets.
#[allow(non_snake_case)]
pub fn OPTIONS(length: u8) -> (field: core::ops::Range<usize>)
    ensures
        field.start == HEADER_LEN,
        field.end == length,
{
    HEADER_LEN..length as usize
}

/// The options of the segment `s`.
pub open spec fn options(s: Seq<u8>) -> Seq<u8> {
    s.subrange(HEADER_LEN as int, header(s).header_len)
}

/// The payload of the segment `s`.
pub open spec fn payload(s: Seq<u8>) -> Seq<u8> {
    s.skip(header(s).header_len)
}

/// `s` with the flags, and the reserved bits, cleared.
pub open spec fn with_cleared_flags(s: Seq<u8>) -> Seq<u8> {
    put16(s, 12, be16(s, 12) / 0x1000 * 0x1000)
}

/// `s` with a flag set or cleared.
pub open spec fn with_flag(s: Seq<u8>, flag: u16, value: bool) -> Seq<u8> {
    put16(s, 12, with_bit(be16(s, 12), flag as int, value))
}

/// `s` with `v` stored as the header length, in octets: rounded down to a multiple of four, of
/// which the field holds the low four bits.
pub open spec fn with_header_len(s: Seq<u8>, v: u8) -> Seq<u8> {
    put16(s, 12, v / 4 % 16 * 0x1000 + be16(s, 12) % 0x1000)
}

/// The sum that the checksum of the segment `s` is folded from.
pub open spec fn segment_sum(src_addr: IpAddress, dst_addr: IpAddress, s: Seq<u8>) -> nat {
    pseudo_header_sum(src_addr, dst_addr, Protocol(TCP), (s.len() % 0x1_0000_0000) as u32)
        + word_sum(s)
}

/// `s` with the checksum filled in.
pub open spec fn with_filled_checksum(
    s: Seq<u8>,
    src_addr: IpAddress,
    dst_addr: IpAddress,
) -> Seq<u8> {
    let zeroed = put16(s, 16, 0);
    put16(zeroed, 16, 0xffff - fold(segment_sum(src_addr, dst_addr, zeroed)))
}

/// A read/write wrapper around a Transmission Control Protocol packet buffer.
#[derive(Debug, PartialEq, Eq)]
pub struct Packet<'a> {
    /// The octets of the packet.
    pub buffer: &'a mut [u8],
}

impl<'a> View for Packet<'a> {
    type V = Seq<u8>;

    open spec fn view(&self) -> Seq<u8> {
        self.buffer@
    }
}

impl<'a> Packet<'a> {
    /// Imbue a raw octet buffer with packet structure.
    pub fn new_unchecked(buffer: &'a mut [u8]) -> (packet: Packet<'a>)
        ensures
            packet@ == old(buffer)@,
            final(packet.buffer)@ == final(buffer)@,
    {
        Packet { buffer }
    }

    /// Shorthand for a combination of [`new_unchecked`](Packet::new_unchecked) and
    /// [`check_len`](Packet::check_len).
    pub fn new_checked(buffer: &'a mut [u8]) -> (packet: Result<Packet<'a>>)
        ensures
            packet is Ok <==> well_formed(old(buffer)@),
            packet matches Ok(p) ==> p@ == old(buffer)@ && final(p.buffer)@ == final(buffer)@,
            packet is Err ==> final(buffer)@ == old(buffer)@,
    {
        let packet = Self::new_unchecked(buffer);
        match packet.check_len() {
            Ok(()) => Ok(packet),
            Err(error) => Err(error),
        }
    }

    /// Ensure that no accessor method will panic if called.
    ///
    /// Returns an error if the buffer is too short, or if the header length field has a value
    /// smaller than the minimal header length.
    ///
    /// The result of this check is invalidated by calling
    /// [`set_header_len`](Packet::set_header_len).
    pub fn check_len(&self) -> (result: Result<()>)
        ensures
            result is Ok <==> well_formed(self@),
    {
        let len: usize = self.buffer.len();
        if len < HEADER_LEN {
            Err(Error)
        } else {
            let header_len: usize = self.header_len() as usize;
            if len < header_len || header_len < HEADER_LEN {
                Err(Error)
            } else {
                Ok(())
            }
        }
    }

    /// Return the source port field.
    pub fn src_port(&self) -> (value: u16)
        requires
            self@.len() >= 2,
        ensures
            value == header(self@).src_port,
    {
        read_u16(self.buffer, 0)
    }

    /// Return the destination port field.
    pub fn dst_port(&self) -> (value: u16)
        requires
            self@.len() >= 4,
        ensures
            value == header(self@).dst_port,
    {
        read_u16(self.buffer, 2)
    }

    /// Return the sequence number field.
    pub fn seq_number(&self) -> (value: SeqNumber)
        requires
            self@.len() >= 8,
        ensures
            value == header(self@).seq_number,
    {
        SeqNumber(read_i32(self.buffer, 4))
    }

    /// Return the acknowledgement number field.
    pub fn ack_number(&self) -> (value: SeqNumber)
        requires
            self@.len() >= 12,
        ensures
            value == header(self@).ack_number,
    {
        SeqNumber(read_i32(self.buffer, 8))
    }

    /// Return the FIN flag.
    pub fn fin(&self) -> (value: bool)
        requires
            self@.len() >= 14,
        ensures
            value == header(self@).fin,
    {
        self.flag(FLG_FIN)
    }

    /// Return the SYN flag.
    pub fn syn(&self) -> (value: bool)
        requires
            self@.len() >= 14,
        ensures
            value == header(self@).syn,
    {
        self.flag(FLG_SYN)
    }

    /// Return the RST flag.
    pub fn rst(&self) -> (value: bool)
        requires
            self@.len() >= 14,
        ensures
            value == header(self@).rst,
    {
        self.flag(FLG_RST)
    }

    /// Return the PSH flag.
    pub fn psh(&self) -> (value: bool)
        requires
            self@.len() >= 14,
        ensures
            value == header(self@).psh,
    {
        self.flag(FLG_PSH)
    }

    /// Return the ACK flag.
    pub fn ack(&self) -> (value: bool)
        requires
            self@.len() >= 14,
        ensures
            value == header(self@).ack,
    {
        self.flag(FLG_ACK)
    }

    /// Return the URG flag.
    pub fn urg(&self) -> (value: bool)
        requires
            self@.len() >= 14,
        ensures
            value == header(self@).urg,
    {
        self.flag(FLG_URG)
    }

    /// Return the ECE flag.
    pub fn ece(&self) -> (value: bool)
        requires
            self@.len() >= 14,
        ensures
            value == header(self@).ece,
    {
        self.flag(FLG_ECE)
    }

    /// Return the CWR flag.
    pub fn cwr(&self) -> (value: bool)
        requires
            self@.len() >= 14,
        ensures
            value == header(self@).cwr,
    {
        self.flag(FLG_CWR)
    }

    /// Return the NS flag.
    pub fn ns(&self) -> (value: bool)
        requires
            self@.len() >= 14,
        ensures
            value == header(self@).ns,
    {
        self.flag(FLG_NS)
    }

    /// Return the header length, in octets.
    pub fn header_len(&self) -> (value: u8)
        requires
            self@.len() >= 14,
        ensures
            value == header(self@).header_len,
    {
        (read_u16(self.buffer, 12) / 0x1000 * 4) as u8
    }

    /// Return the window size field.
    pub fn window_len(&self) -> (value: u16)
        requires
            self@.len() >= 16,
        ensures
            value == header(self@).window_len,
    {
        read_u16(self.buffer, 14)
    }

    /// Return the checksum field.
    pub fn checksum(&self) -> (value: u16)
        requires
            self@.len() >= 18,
        ensures
            value == header(self@).checksum,
    {
        read_u16(self.buffer, 16)
    }

    /// Return the urgent pointer field.
    pub fn urgent_at(&self) -> (value: u16)
        requires
            self@.len() >= 20,
        ensures
            value == header(self@).urgent_at,
    {
        read_u16(self.buffer, 18)
    }

    fn flag(&self, flag: u16) -> (value: bool)
        requires
            self@.len() >= 14,
            is_weight16(flag as int),
        ensures
            value == has_bit(be16(self@, 12), flag as int),
    {
        let raw: u16 = read_u16(self.buffer, 12);
        proof {
            lemma_bit_u16(raw, flag);
        }
        raw & flag != 0
    }

    /// The checksum of the segment, as it is sent from `src_addr` to `dst_addr`.
    fn sum(&self, src_addr: &IpAddress, dst_addr: &IpAddress) -> (sum: u16)
        requires
            src_addr is Ipv4 <==> dst_addr is Ipv4,
        ensures
            sum == fold(segment_sum(*src_addr, *dst_addr, self@)),
    {
        let len: u64 = self.buffer.len() as u64;
        let length: u32 = (len % 0x1_0000_0000) as u32;
        let pseudo: u16 = checksum::pseudo_header(src_addr, dst_addr, Protocol(TCP), length);
        let octets: u16 = checksum::data(self.buffer);
        let sums: [u16; 2] = [pseudo, octets];
        proof {
            let a = pseudo_header_sum(*src_addr, *dst_addr, Protocol(TCP), length);
            law_fold_early(a, word_sum(self@));
            reveal_with_fuel(total, 3);
            assert(sums@.drop_last().drop_last() =~= seq![]);
            assert(total(sums@) == pseudo as nat + octets as nat);
        }
        checksum::combine(&sums)
    }

    /// Validate the packet checksum. Both addresses belong to one family.
    pub fn verify_checksum(&self, src_addr: &IpAddress, dst_addr: &IpAddress) -> (value: bool)
        requires
            src_addr is Ipv4 <==> dst_addr is Ipv4,
        ensures
            value == (fold(segment_sum(*src_addr, *dst_addr, self@)) == 0xffff),
    {
        self.sum(src_addr, dst_addr) == 0xffff
    }

    /// Return a pointer to the options.
    pub fn options(&self) -> (value: &[u8])
        requires
            self@.len() >= 14,
            HEADER_LEN <= header(self@).header_len <= self@.len(),
        ensures
            value@ == options(self@),
    {
        &self.buffer[OPTIONS(self.header_len())]
    }

    /// Return a pointer to the payload.
    pub fn payload(&self) -> (value: &[u8])
        requires
            self@.len() >= 14,
            header(self@).header_len <= self@.len(),
        ensures
            value@ == payload(self@),
    {
        let start: usize = self.header_len() as usize;
        let end: usize = self.buffer.len();
        &self.buffer[start..end]
    }

    /// Set the source port field.
    pub fn set_src_port(&mut self, value: u16)
        requires
            old(self)@.len() >= 2,
        ensures
            final(self)@ == put16(old(self)@, 0, value as int),
            final(final(self).buffer)@ == final(old(self).buffer)@,
    {
        write_u16(self.buffer, 0, value);
    }

    /// Set the destination port field.
    pub fn set_dst_port(&mut self, value: u16)
        requires
            old(self)@.len() >= 4,
        ensures
            final(self)@ == put16(old(self)@, 2, value as int),
            final(final(self).buffer)@ == final(old(self).buffer)@,
    {
        write_u16(self.buffer, 2, value);
    }

    /// Set the sequence number field.
    pub fn set_seq_number(&mut self, value: SeqNumber)
        requires
            old(self)@.len() >= 8,
        ensures
            final(self)@ == put32(old(self)@, 4, unsigned32(value.0 as int)),
            final(final(self).buffer)@ == final(old(self).buffer)@,
    {
        write_i32(self.buffer, 4, value.0);
    }

    /// Set the acknowledgement number field.
    pub fn set_ack_number(&mut self, value: SeqNumber)
        requires
            old(self)@.len() >= 12,
        ensures
            final(self)@ == put32(old(self)@, 8, unsigned32(value.0 as int)),
            final(final(self).buffer)@ == final(old(self).buffer)@,
    {
        write_i32(self.buffer, 8, value.0);
    }

    /// Clear the entire flags field.
    pub fn clear_flags(&mut self)
        requires
            old(self)@.len() >= 14,
        ensures
            final(self)@ == with_cleared_flags(old(self)@),
            final(final(self).buffer)@ == final(old(self).buffer)@,
    {
        let raw: u16 = read_u16(self.buffer, 12);
        write_u16(self.buffer, 12, raw / 0x1000 * 0x1000);
    }

    fn set_flag(&mut self, flag: u16, value: bool)
        requires
            old(self)@.len() >= 14,
            is_weight16(flag as int),
        ensures
            final(self)@ == with_flag(old(self)@, flag, value),
            final(final(self).buffer)@ == final(old(self).buffer)@,
    {
        let raw: u16 = read_u16(self.buffer, 12);
        proof {
            lemma_bit_u16(raw, flag);
        }
        let raw: u16 = if value {
            raw | flag
        } else {
            raw & !flag
        };
        write_u16(self.buffer, 12, raw);
    }

    /// Set the FIN flag.
    pub fn set_fin(&mut self, value: bool)
        requires
            old(self)@.len() >= 14,
        ensures
            final(self)@ == with_flag(old(self)@, FLG_FIN, value),
            final(final(self).buffer)@ == final(old(self).buffer)@,
    {
        self.set_flag(FLG_FIN, value);
    }

    /// Set the SYN flag.
    pub fn set_syn(&mut self, value: bool)
        requires
            old(self)@.len() >= 14,
        ensures
            final(self)@ == with_flag(old(self)@, FLG_SYN, value),
            final(final(self).buffer)@ == final(old(self).buffer)@,
    {
        self.set_flag(FLG_SYN, value);
    }

    /// Set the RST flag.
    pub fn set_rst(&mut self, value: bool)
        requires
            old(self)@.len() >= 14,
        ensures
            final(self)@ == with_flag(old(self)@, FLG_RST, value),
            final(final(self).buffer)@ == final(old(self).buffer)@,
    {
        self.set_flag(FLG_RST, value);
    }

    /// Set the PSH flag.
    pub fn set_psh(&mut self, value: bool)
        requires
            old(self)@.len() >= 14,
        ensures
            final(self)@ == with_flag(old(self)@, FLG_PSH, value),
            final(final(self).buffer)@ == final(old(self).buffer)@,
    {
        self.set_flag(FLG_PSH, value);
    }

    /// Set the ACK flag.
    pub fn set_ack(&mut self, value: bool)
        requires
            old(self)@.len() >= 14,
        ensures
            final(self)@ == with_flag(old(self)@, FLG_ACK, value),
            final(final(self).buffer)@ == final(old(self).buffer)@,
    {
        self.set_flag(FLG_ACK, value);
    }

    /// Set the URG flag.
    pub fn set_urg(&mut self, value: bool)
        requires
            old(self)@.len() >= 14,
        ensures
            final(self)@ == with_flag(old(self)@, FLG_URG, value),
            final(final(self).buffer)@ == final(old(self).buffer)@,
    {
        self.set_flag(FLG_URG, value);
    }

    /// Set the ECE flag.
    pub fn set_ece(&mut self, value: bool)
        requires
            old(self)@.len() >= 14,
        ensures
            final(self)@ == with_flag(old(self)@, FLG_ECE, value),
            final(final(self).buffer)@ == final(old(self).buffer)@,
    {
        self.set_flag(FLG_ECE, value);
    }

    /// Set the CWR flag.
    pub fn set_cwr(&mut self, value: bool)
        requires
            old(self)@.len() >= 14,
        ensures
            final(self)@ == with_flag(old(self)@, FLG_CWR, value),
            final(final(self).buffer)@ == final(old(self).buffer)@,
    {
        self.set_flag(FLG_CWR, value);
    }

    /// Set the NS flag.
    pub fn set_ns(&mut self, value: bool)
        requires
            old(self)@.len() >= 14,
        ensures
            final(self)@ == with_flag(old(self)@, FLG_NS, value),
            final(final(self).buffer)@ == final(old(self).buffer)@,
    {
        self.set_flag(FLG_NS, value);
    }

    /// Set the header length, in octets.
    pub fn set_header_len(&mut self, value: u8)
        requires
            old(self)@.len() >= 14,
        ensures
            final(self)@ == with_header_len(old(self)@, value),
            final(final(self).buffer)@ == final(old(self).buffer)@,
    {
        let raw: u16 = read_u16(self.buffer, 12);
        write_u16(self.buffer, 12, (value / 4 % 16) as u16 * 0x1000 + raw % 0x1000);
    }

    /// Set the window size field.
    pub fn set_window_len(&mut self, value: u16)
        requires
            old(self)@.len() >= 16,
        ensures
            final(self)@ == put16(old(self)@, 14, value as int),
            final(final(self).buffer)@ == final(old(self).buffer)@,
    {
        write_u16(self.buffer, 14, value);
    }

    /// Set the checksum field.
    pub fn set_checksum(&mut self, value: u16)
        requires
            old(self)@.len() >= 18,
        ensures
            final(self)@ == put16(old(self)@, 16, value as int),
            final(final(self).buffer)@ == final(old(self).buffer)@,
    {
        write_u16(self.buffer, 16, value);
    }

    /// Set the urgent pointer field.
    pub fn set_urgent_at(&mut self, value: u16)
        requires
            old(self)@.len() >= 20,
        ensures
            final(self)@ == put16(old(self)@, 18, value as int),
            final(final(self).buffer)@ == final(old(self).buffer)@,
    {
        write_u16(self.buffer, 18, value);
    }

    /// Compute and fill in the header checksum. Both addresses belong to one family.
    pub fn fill_checksum(&mut self, src_addr: &IpAddress, dst_addr: &IpAddress)
        requires
            old(self)@.len() >= 18,
            src_addr is Ipv4 <==> dst_addr is Ipv4,
        ensures
            final(self)@ == with_filled_checksum(old(self)@, *src_addr, *dst_addr),
            final(final(self).buffer)@ == final(old(self).buffer)@,
    {
        self.set_checksum(0);
        let sum: u16 = self.sum(src_addr, dst_addr);
        self.set_checksum(0xffff - sum);
    }

    /// Return a mutable pointer to the options.
    pub fn options_mut(&mut self) -> (value: &mut [u8])
        requires
            old(self)@.len() >= 14,
            HEADER_LEN <= header(old(self)@).header_len <= old(self)@.len(),
        ensures
            value@ == options(old(self)@),
            final(self)@ == old(self)@.take(HEADER_LEN as int) + final(value)@ + payload(old(self)@),
            final(final(self).buffer)@ == final(old(self).buffer)@,
    {
        let end: usize = self.header_len() as usize;
        sub_slice_mut(self.buffer, HEADER_LEN, end)
    }

    /// Return a mutable pointer to the payload data.
    pub fn payload_mut(&mut self) -> (value: &mut [u8])
        requires
            old(self)@.len() >= 14,
            header(old(self)@).header_len <= old(self)@.len(),
        ensures
            value@ == payload(old(self)@),
            final(self)@ == old(self)@.take(header(old(self)@).header_len) + final(value)@,
            final(final(self).buffer)@ == final(old(self).buffer)@,
    {
        let start: usize = self.header_len() as usize;
        let (_, value) = self.buffer.split_at_mut(start);
        value
    }
}

/// Every setter changes its own field and no other: the fields of whole octets.
pub proof fn law_set_octets(s: Seq<u8>, v: u16, n: SeqNumber)
    requires
        s.len() >= HEADER_LEN,
    ensures
        header(put16(s, 0, v as int)) == (Header { src_port: v as int, ..header(s) }),
        header(put16(s, 2, v as int)) == (Header { dst_port: v as int, ..header(s) }),
        header(put32(s, 4, unsigned32(n.0 as int))) == (Header { seq_number: n, ..header(s) }),
        header(put32(s, 8, unsigned32(n.0 as int))) == (Header { ack_number: n, ..header(s) }),
        header(put16(s, 14, v as int)) == (Header { window_len: v as int, ..header(s) }),
        header(put16(s, 16, v as int)) == (Header { checksum: v as int, ..header(s) }),
        header(put16(s, 18, v as int)) == (Header { urgent_at: v as int, ..header(s) }),
{
    law_put32(s, 4, unsigned32(n.0 as int));
    law_put32(s, 8, unsigned32(n.0 as int));
}

/// Every setter changes its own field and no other: the flags.
pub proof fn law_set_flag(s: Seq<u8>, value: bool)
    requires
        s.len() >= HEADER_LEN,
    ensures
        header(with_flag(s, FLG_FIN, value)) == (Header { fin: value, ..header(s) }),
        header(with_flag(s, FLG_SYN, value)) == (Header { syn: value, ..header(s) }),
        header(with_flag(s, FLG_RST, value)) == (Header { rst: value, ..header(s) }),
        header(with_flag(s, FLG_PSH, value)) == (Header { psh: value, ..header(s) }),
        header(with_flag(s, FLG_ACK, value)) == (Header { ack: value, ..header(s) }),
        header(with_flag(s, FLG_URG, value)) == (Header { urg: value, ..header(s) }),
        header(with_flag(s, FLG_ECE, value)) == (Header { ece: value, ..header(s) }),
        header(with_flag(s, FLG_CWR, value)) == (Header { cwr: value, ..header(s) }),
        header(with_flag(s, FLG_NS, value)) == (Header { ns: value, ..header(s) }),
{
    lemma_set_flag(s, FLG_FIN, value);
    lemma_set_flag(s, FLG_SYN, value);
    lemma_set_flag(s, FLG_RST, value);
    lemma_set_flag(s, FLG_PSH, value);
    lemma_set_flag(s, FLG_ACK, value);
    lemma_set_flag(s, FLG_URG, value);
    lemma_set_flag(s, FLG_ECE, value);
    lemma_set_flag(s, FLG_CWR, value);
    lemma_set_flag(s, FLG_NS, value);
}

/// The bit of a number that a flag stands for.
pub open spec fn is_flag(flag: u16) -> bool {
    flag == 0x1 || flag == 0x2 || flag == 0x4 || flag == 0x8 || flag == 0x10 || flag == 0x20 || flag
        == 0x40 || flag == 0x80 || flag == 0x100
}

proof fn lemma_set_flag(s: Seq<u8>, flag: u16, value: bool)
    requires
        s.len() >= HEADER_LEN,
        is_flag(flag),
    ensures
        header(with_flag(s, flag, value)) == (Header {
            fin: if flag == FLG_FIN { value } else { header(s).fin },
            syn: if flag == FLG_SYN { value } else { header(s).syn },
            rst: if flag == FLG_RST { value } else { header(s).rst },
            psh: if flag == FLG_PSH { value } else { header(s).psh },
            ack: if flag == FLG_ACK { value } else { header(s).ack },
            urg: if flag == FLG_URG { value } else { header(s).urg },
            ece: if flag == FLG_ECE { value } else { header(s).ece },
            cwr: if flag == FLG_CWR { value } else { header(s).cwr },
            ns: if flag == FLG_NS { value } else { header(s).ns },
            ..header(s)
        }),
{
    let raw = be16(s, 12);
    let w = with_bit(raw, flag as int, value);
    law_with_bit(raw, flag as int, value, 0x1);
    law_with_bit(raw, flag as int, value, 0x2);
    law_with_bit(raw, flag as int, value, 0x4);
    law_with_bit(raw, flag as int, value, 0x8);
    law_with_bit(raw, flag as int, value, 0x10);
    law_with_bit(raw, flag as int, value, 0x20);
    law_with_bit(raw, flag as int, value, 0x40);
    law_with_bit(raw, flag as int, value, 0x80);
    law_with_bit(raw, flag as int, value, 0x100);
    law_put16(s, 12, w);
    lemma_above_flags(raw as u16, flag, value);
}

/// Setting or clearing a flag leaves what is above the flags unchanged.
proof fn lemma_above_flags(raw: u16, flag: u16, value: bool)
    requires
        is_flag(flag),
    ensures
        with_bit(raw as int, flag as int, value) / 0x200 % 8 == raw as int / 0x200 % 8,
        with_bit(raw as int, flag as int, value) / 0x1000 == raw as int / 0x1000,
{
    lemma_bit_u16(raw, flag);
    assert((raw | flag) / 0x200 == raw / 0x200 && (raw & !flag) / 0x200 == raw / 0x200) by (bit_vector)
        requires
            flag == 0x1 || flag == 0x2 || flag == 0x4 || flag == 0x8 || flag == 0x10 || flag == 0x20
                || flag == 0x40 || flag == 0x80 || flag == 0x100,
    ;
    let a = (raw | flag) as int;
    let b = (raw & !flag) as int;
    assert(a / 0x1000 == a / 0x200 / 8 && b / 0x1000 == b / 0x200 / 8 && raw as int / 0x1000 == raw as int
        / 0x200 / 8);
}

/// Clearing the flags clears all of them and the reserved bits, and nothing else.
pub proof fn law_clear_flags(s: Seq<u8>)
    requires
        s.len() >= HEADER_LEN,
    ensures
        header(with_cleared_flags(s)) == (Header {
            reserved: 0,
            ns: false,
            cwr: false,
            ece: false,
            urg: false,
            ack: false,
            psh: false,
            rst: false,
            syn: false,
            fin: false,
            ..header(s)
        }),
{
    let top = be16(s, 12) / 0x1000;
    law_put16(s, 12, top * 0x1000);
    lemma_multiple_of_0x1000(top);
}

/// A multiple of 0x1000 has none of the low twelve bits set.
proof fn lemma_multiple_of_0x1000(top: int)
    requires
        0 <= top < 16,
    ensures
        top * 0x1000 / 0x1000 == top,
        top * 0x1000 / 0x200 % 8 == 0,
        forall|w: int| #![trigger has_bit(top * 0x1000, w)] 0 < w <= 0x100 && is_weight16(w) ==> !has_bit(top * 0x1000, w),
{
    let t = (top * 0x1000) as u16;
    assert forall|w: int| #![trigger has_bit(top * 0x1000, w)] 0 < w <= 0x100 && is_weight16(w) implies !has_bit(
        top * 0x1000,
        w,
    ) by {
        let x = w as u16;
        lemma_bit_u16(t, x);
        assert(t & x == 0) by (bit_vector)
            requires
                t % 0x1000 == 0,
                x <= 0x100,
        ;
    }
}

/// Setting the header length changes nothing else.
pub proof fn law_set_header_len(s: Seq<u8>, header_len: u8)
    requires
        s.len() >= HEADER_LEN,
    ensures
        header(with_header_len(s, header_len)) == (Header {
            header_len: header_len as int / 4 % 16 * 4,
            ..header(s)
        }),
{
    let raw = be16(s, 12);
    let top = header_len as int / 4 % 16;
    let new = top * 0x1000 + raw % 0x1000;
    law_put16(s, 12, new);
    assert(new / 0x1000 == top && new % 0x1000 == raw % 0x1000);
    lemma_low12(raw as u16, new as u16);
}

/// Numbers with the same low twelve bits have the same flags and reserved bits.
proof fn lemma_low12(a: u16, b: u16)
    requires
        a % 0x1000 == b % 0x1000,
    ensures
        a as int / 0x200 % 8 == b as int / 0x200 % 8,
        forall|w: int| #![trigger has_bit(a as int, w)] #![trigger has_bit(b as int, w)]
            0 < w <= 0x100 && is_weight16(w) ==> has_bit(a as int, w) == has_bit(b as int, w),
{
    assert(a / 0x200 % 8 == b / 0x200 % 8) by (bit_vector)
        requires
            a % 0x1000 == b % 0x1000,
    ;
    assert forall|w: int| #![trigger has_bit(a as int, w)] #![trigger has_bit(b as int, w)]
        0 < w <= 0x100 && is_weight16(w) implies has_bit(a as int, w) == has_bit(b as int, w) by {
        let x = w as u16;
        lemma_bit_u16(a, x);
        lemma_bit_u16(b, x);
        assert(a & x == b & x) by (bit_vector)
            requires
                a % 0x1000 == b % 0x1000,
                x <= 0x100,
        ;
    }
}

/// A segment whose checksum was filled in passes the checksum validation, at the receiver of
/// the same addresses.
pub proof fn law_filled_checksum(s: Seq<u8>, src_addr: IpAddress, dst_addr: IpAddress)
    requires
        s.len() >= 18,
    ensures
        fold(
            segment_sum(src_addr, dst_addr, with_filled_checksum(s, src_addr, dst_addr)),
        ) == 0xffff,
{
    let zeroed = put16(s, 16, 0);
    let sum = segment_sum(src_addr, dst_addr, zeroed);
    let c = 0xffff - fold(sum);
    law_word_sum_put16(zeroed, 16, c);
    law_complement(sum);
}

/// The possible control flags of a Transmission Control Protocol packet.
#[derive(Debug, PartialEq, Eq, Structural, Clone, Copy)]
pub enum Control {
    /// No control flag.
    Plain,
    /// Push.
    Psh,
    /// Synchronize.
    Syn,
    /// Finish.
    Fin,
    /// Reset.
    Rst,
}

impl Control {
    /// Return the length of a control flag, in terms of sequence space.
    pub fn len(self) -> (len: usize)
        ensures
            len == if self is Syn || self is Fin { 1int } else { 0 },
    {
        match self {
            Control::Syn | Control::Fin => 1,
            _ => 0,
        }
    }

    /// Turn the PSH flag into no flag, and keep the rest as-is.
    pub fn quash_psh(self) -> (control: Control)
        ensures
            control == if self is Psh { Control::Plain } else { self },
    {
        match self {
            Control::Psh => Control::Plain,
            _ => self,
        }
    }
}

impl<'a> TcpOption<'a> {
    /// Whether two options are of the same variant and hold the same values.
    pub open spec fn same(self, other: TcpOption) -> bool {
        match (self, other) {
            (TcpOption::EndOfList, TcpOption::EndOfList) => true,
            (TcpOption::NoOperation, TcpOption::NoOperation) => true,
            (TcpOption::MaxSegmentSize(a), TcpOption::MaxSegmentSize(b)) => a == b,
            (TcpOption::WindowScale(a), TcpOption::WindowScale(b)) => a == b,
            (TcpOption::SackPermitted, TcpOption::SackPermitted) => true,
            (TcpOption::SackRange(a), TcpOption::SackRange(b)) => a@ == b@,
            (
                TcpOption::TimeStamp { tsval: a, tsecr: c },
                TcpOption::TimeStamp { tsval: b, tsecr: d },
            ) => a == b && c == d,
            (TcpOption::Unknown { kind: a, data: c }, TcpOption::Unknown { kind: b, data: d }) => a
                == b && c@ == d@,
            _ => false,
        }
    }
}

/// Two timestamps with the same octets are the same.
proof fn lemma_timestamp_equal(x: u32, z: u32, y: u32, w: u32)
    requires
        seq![OPT_TSTAMP, 10u8] + octets32(x as int) + octets32(z as int) == seq![OPT_TSTAMP, 10u8]
            + octets32(y as int) + octets32(w as int),
    ensures
        x == y,
        z == w,
{
    let e = seq![OPT_TSTAMP, 10u8] + octets32(x as int) + octets32(z as int);
    assert(e.subrange(2, 6) =~= octets32(x as int));
    assert(e.subrange(2, 6) =~= octets32(y as int));
    assert(e.subrange(6, 10) =~= octets32(z as int));
    assert(e.subrange(6, 10) =~= octets32(w as int));
    lemma_be32_octets32(x as int);
    lemma_be32_octets32(y as int);
    lemma_be32_octets32(z as int);
    lemma_be32_octets32(w as int);
}

/// The kind of an option.
spec fn kind_of(option: TcpOption) -> u8 {
    match option {
        TcpOption::EndOfList => OPT_END,
        TcpOption::NoOperation => OPT_NOP,
        TcpOption::MaxSegmentSize(_) => OPT_MSS,
        TcpOption::WindowScale(_) => OPT_WS,
        TcpOption::SackPermitted => OPT_SACKPERM,
        TcpOption::SackRange(_) => OPT_SACKRNG,
        TcpOption::TimeStamp { .. } => OPT_TSTAMP,
        TcpOption::Unknown { kind, .. } => kind,
    }
}

/// An option starts with its kind.
proof fn lemma_kind(option: TcpOption)
    ensures
        option.encoding().len() >= 1,
        option.encoding()[0] == kind_of(option),
        option is TimeStamp ==> option.encoding().len() == 10,
        option matches TcpOption::Unknown { data, .. } ==> option.encoding().len() == 2
            + data@.len() && option.encoding().skip(2) == data@,
        option matches TcpOption::SackRange(blocks) ==> option.encoding().skip(2) == sack_blocks(
            blocks@,
        ),
{
    match option {
        TcpOption::Unknown { data, .. } => {
            assert(option.encoding().skip(2) =~= data@);
        },
        TcpOption::SackRange(blocks) => {
            assert(option.encoding().skip(2) =~= sack_blocks(blocks@));
        },
        _ => {},
    }
}

/// Two options that parsing can give have the same octets only if they are the same.
pub proof fn law_option_encoding_injective(a: TcpOption, b: TcpOption)
    requires
        a.canonical(),
        b.canonical(),
        a.encoding() == b.encoding(),
    ensures
        a.same(b),
{
    lemma_kind(a);
    lemma_kind(b);
    match (a, b) {
        (TcpOption::MaxSegmentSize(x), TcpOption::MaxSegmentSize(y)) => {
            let e = a.encoding();
            assert(e[2] == octets16(x as int)[0] && e[3] == octets16(x as int)[1]);
            assert(e[2] == octets16(y as int)[0] && e[3] == octets16(y as int)[1]);
        },
        (TcpOption::WindowScale(x), TcpOption::WindowScale(y)) => {
            assert(a.encoding()[2] == x);
            assert(a.encoding()[2] == y);
        },
        (TcpOption::SackRange(x), TcpOption::SackRange(y)) => {
            lemma_sack_equal(x@, y@);
        },
        (
            TcpOption::TimeStamp { tsval: x, tsecr: z },
            TcpOption::TimeStamp { tsval: y, tsecr: w },
        ) => {
            lemma_timestamp_equal(x, z, y, w);
        },
        _ => {},
    }
}

/// Where the octets of a block are, among those of blocks without gaps.
proof fn lemma_sack_at(x: Seq<Option<(u32, u32)>>, i: int)
    requires
        x.len() == 3,
        x[0] is Some,
        x[2] is Some ==> x[1] is Some,
        0 <= i < 3,
    ensures
        x[i] is Some <==> sack_blocks(x).len() >= i * 8 + 8,
        x[i] matches Some((left, right)) ==> {
            &&& sack_blocks(x).subrange(i * 8, i * 8 + 4) == octets32(left as int)
            &&& sack_blocks(x).subrange(i * 8 + 4, i * 8 + 8) == octets32(right as int)
        },
{
    lemma_sack_blocks(x);
    let s0 = sack_blocks(seq![x[0]]);
    let s1 = sack_blocks(seq![x[1]]);
    let s2 = sack_blocks(seq![x[2]]);
    let s = s0 + s1 + s2;
    if let Some((left, right)) = x[i] {
        let o = octets32(left as int) + octets32(right as int);
        assert(s.subrange(i * 8, i * 8 + 8) =~= o);
        assert(s.subrange(i * 8, i * 8 + 4) =~= o.subrange(0, 4));
        assert(o.subrange(0, 4) =~= octets32(left as int));
        assert(s.subrange(i * 8 + 4, i * 8 + 8) =~= o.subrange(4, 8));
        assert(o.subrange(4, 8) =~= octets32(right as int));
    }
}

/// Blocks without gaps that have the same octets are the same.
proof fn lemma_sack_equal(x: Seq<Option<(u32, u32)>>, y: Seq<Option<(u32, u32)>>)
    requires
        x.len() == 3,
        y.len() == 3,
        x[0] is Some,
        y[0] is Some,
        x[2] is Some ==> x[1] is Some,
        y[2] is Some ==> y[1] is Some,
        sack_blocks(x) == sack_blocks(y),
    ensures
        x == y,
{
    assert forall|i: int| 0 <= i < 3 implies x[i] == y[i] by {
        lemma_sack_at(x, i);
        lemma_sack_at(y, i);
        if let Some((a, b)) = x[i] {
            let (c, d) = y[i]->0;
            lemma_be32_octets32(a as int);
            lemma_be32_octets32(b as int);
            lemma_be32_octets32(c as int);
            lemma_be32_octets32(d as int);
        }
    }
    assert(x =~= y);
}

/// Parsing the octets of an option that parsing can give, followed by anything, gives back
/// an option with the same octets and what follows it.
pub proof fn law_option_round_trip(option: TcpOption, rest: Seq<u8>)
    requires
        option.canonical(),
    ensures
        option_len(option.encoding() + rest) == Some(option.encoding().len() as int),
        option_kept(option.encoding() + rest) == option.encoding(),
{
    let e = option.encoding();
    if let TcpOption::SackRange(blocks) = option {
        lemma_sack_blocks(blocks@);
    }
    assert((e + rest).take(e.len() as int) =~= e);
}

/// Where the fields of the header are, octet by octet.
pub proof fn law_header(s: Seq<u8>)
    ensures
        ({
            let h = header(s);
            &&& h.src_port == 256 * s[0] + s[1]
            &&& h.dst_port == 256 * s[2] + s[3]
            &&& (h.seq_number.0 - be32(s, 4)) % 0x1_0000_0000 == 0
            &&& (h.ack_number.0 - be32(s, 8)) % 0x1_0000_0000 == 0
            &&& h.header_len == s[12] / 16 * 4
            &&& h.reserved == s[12] % 16 / 2
            &&& h.ns <==> s[12] % 2 == 1
            &&& h.cwr <==> s[13] >= 128
            &&& h.ece <==> s[13] % 128 >= 64
            &&& h.urg <==> s[13] % 64 >= 32
            &&& h.ack <==> s[13] % 32 >= 16
            &&& h.psh <==> s[13] % 16 >= 8
            &&& h.rst <==> s[13] % 8 >= 4
            &&& h.syn <==> s[13] % 4 >= 2
            &&& h.fin <==> s[13] % 2 == 1
            &&& h.window_len == 256 * s[14] + s[15]
            &&& h.checksum == 256 * s[16] + s[17]
            &&& h.urgent_at == 256 * s[18] + s[19]
        }),
        well_formed(s) <==> s.len() >= 20 && 5 <= s[12] / 16 && s[12] / 16 * 4 <= s.len(),
        well_formed(s) ==> options(s) == s.subrange(20, s[12] / 16 * 4) && payload(s) == s.skip(
            s[12] / 16 * 4,
        ),
{
    lemma_flag_octets(s[12] as int, s[13] as int);
}

/// The flags of a number of two octets.
proof fn lemma_flag_octets(a: int, b: int)
    requires
        0 <= a < 256,
        0 <= b < 256,
    ensures
        (a * 256 + b) / 0x1000 == a / 16,
        (a * 256 + b) / 0x200 % 8 == a % 16 / 2,
        (a * 256 + b) / 0x100 % 2 == a % 2,
        (a * 256 + b) / 0x80 % 2 == 1 <==> b >= 128,
        (a * 256 + b) / 0x40 % 2 == 1 <==> b % 128 >= 64,
        (a * 256 + b) / 0x20 % 2 == 1 <==> b % 64 >= 32,
        (a * 256 + b) / 0x10 % 2 == 1 <==> b % 32 >= 16,
        (a * 256 + b) / 0x8 % 2 == 1 <==> b % 16 >= 8,
        (a * 256 + b) / 0x4 % 2 == 1 <==> b % 8 >= 4,
        (a * 256 + b) / 0x2 % 2 == 1 <==> b % 4 >= 2,
        (a * 256 + b) / 0x1 % 2 == 1 <==> b % 2 == 1,
{
    let v = a * 256 + b;
    assert(v / 0x1000 == a / 16);
    assert(v / 0x200 == a / 2);
    assert(v / 0x100 == a);
    assert(v / 0x80 == a * 2 + b / 0x80);
    assert(v / 0x40 == a * 4 + b / 0x40);
    assert(v / 0x20 == a * 8 + b / 0x20);
    assert(v / 0x10 == a * 16 + b / 0x10);
    assert(v / 0x8 == a * 32 + b / 0x8);
    assert(v / 0x4 == a * 64 + b / 0x4);
    assert(v / 0x2 == a * 128 + b / 0x2);
}

/// The sum of a segment is that of its pseudo-header, whose protocol is 6, and of its octets.
pub proof fn law_segment_sum(src_addr: IpAddress, dst_addr: IpAddress, s: Seq<u8>)
    requires
        s.len() <= 0xffff_ffff,
    ensures
        segment_sum(src_addr, dst_addr, s) == word_sum(
            src_addr.octets_of() + dst_addr.octets_of() + octets32(s.len() as int) + seq![
                0u8,
                0,
                0,
                6,
            ] + s,
        ),
{
    law_pseudo_header(src_addr, dst_addr, Protocol(6), s.len() as u32);
    let pseudo = src_addr.octets_of() + dst_addr.octets_of() + octets32(s.len() as int) + seq![
        0u8,
        0,
        0,
        6,
    ];
    assert(pseudo.len() % 2 == 0);
    law_word_sum_append(pseudo, s);
}

/// Filling the checksum in changes nothing but the checksum.
pub proof fn law_filled_checksum_keeps(s: Seq<u8>, src_addr: IpAddress, dst_addr: IpAddress)
    requires
        s.len() >= 18,
    ensures
        ({
            let filled = with_filled_checksum(s, src_addr, dst_addr);
            &&& filled.take(16) == s.take(16)
            &&& filled.skip(18) == s.skip(18)
            &&& filled.len() == s.len()
        }),
{
    let filled = with_filled_checksum(s, src_addr, dst_addr);
    assert(filled.take(16) =~= s.take(16));
    assert(filled.skip(18) =~= s.skip(18));
}

/// How long an option is: kinds 0 and 1 are one octet long, and any other is as long as its second
/// octet says. That is 4 for kind 2, 3 for kind 3, 2 for kind 4, and 2 and a multiple of 8, at
/// least one, for kind 5. There is no option where its length is another, is below 2, or runs past
/// the end.
pub proof fn law_option_len(s: Seq<u8>)
    ensures
        option_len(Seq::<u8>::empty()) is None,
        s.len() > 0 && s[0] <= 1 ==> option_len(s) == Some(1int),
        s.len() == 1 && s[0] > 1 ==> option_len(s) is None,
        s.len() >= 2 && s[0] > 1 && (s[1] < 2 || s[1] > s.len()) ==> option_len(s) is None,
        s.len() >= 2 && s[0] > 1 && 2 <= s[1] <= s.len() ==> {
            &&& option_len(s) matches Some(n) ==> n == s[1]
            &&& s[0] == 2 ==> (option_len(s) is Some <==> s[1] == 4)
            &&& s[0] == 3 ==> (option_len(s) is Some <==> s[1] == 3)
            &&& s[0] == 4 ==> (option_len(s) is Some <==> s[1] == 2)
            &&& s[0] == 5 ==> (option_len(s) is Some <==> s[1] > 2 && (s[1] - 2) % 8 == 0)
            &&& s[0] > 5 ==> option_len(s) is Some
        },
{
}

/// What an option is parsed as, octet by octet.
pub proof fn law_option_parsed(s: Seq<u8>, option: TcpOption)
    requires
        option_len(s) is Some,
        option.canonical(),
        option.encoding() == option_kept(s),
    ensures
        s[0] == 0 <==> option is EndOfList,
        s[0] == 1 <==> option is NoOperation,
        s[0] == 2 ==> (option matches TcpOption::MaxSegmentSize(v) && v == 256 * s[2] + s[3]),
        s[0] == 3 ==> (option matches TcpOption::WindowScale(v) && v == s[2]),
        s[0] == 4 ==> option is SackPermitted,
        s[0] == 8 && s[1] == 10 ==> (option matches TcpOption::TimeStamp { tsval, tsecr } && tsval
            == be32(s, 2) && tsecr == be32(s, 6)),
        s[0] > 5 && !(s[0] == 8 && s[1] == 10) ==> (option matches TcpOption::Unknown { kind, data }
            && kind == s[0] && data@ == s.subrange(2, s[1] as int)),
{
    lemma_kind(option);
    let e = option.encoding();
    assert(e[0] == s[0]);
    match option {
        TcpOption::MaxSegmentSize(v) => {
            assert(e[2] == octets16(v as int)[0] && e[3] == octets16(v as int)[1]);
            assert(e[2] == s[2] && e[3] == s[3]);
        },
        TcpOption::WindowScale(v) => {
            assert(e[2] == v && e[2] == s[2]);
        },
        TcpOption::TimeStamp { tsval, tsecr } => {
            assert(e.len() == s[1]);
            lemma_be32_octets32(tsval as int);
            lemma_be32_octets32(tsecr as int);
            assert(e.subrange(2, 6) =~= octets32(tsval as int));
            assert(e.subrange(6, 10) =~= octets32(tsecr as int));
            assert(forall|k: int| 0 <= k < 4 ==> s[2 + k] == #[trigger] e.subrange(2, 6)[k]);
            assert(forall|k: int| 0 <= k < 4 ==> s[6 + k] == #[trigger] e.subrange(6, 10)[k]);
        },
        TcpOption::Unknown { data, .. } => {
            assert(e.len() == s[1]);
            assert(data@ =~= s.subrange(2, s[1] as int)) by {
                assert(forall|k: int| 0 <= k < data@.len() ==> #[trigger] data@[k] == e.skip(2)[k]);
            }
        },
        _ => {},
    }
}

/// What a selective acknowledgement is parsed as: its blocks, in order, of which the first three
/// are kept.
pub proof fn law_sack_parsed(s: Seq<u8>, option: TcpOption, i: int)
    requires
        option_len(s) is Some,
        option.canonical(),
        option.encoding() == option_kept(s),
        s[0] == 5,
        0 <= i < 3,
    ensures
        option matches TcpOption::SackRange(blocks) && (blocks@[i] is Some <==> s[1] >= 10 + 8 * i)
            && (blocks@[i] matches Some((left, right)) ==> left == be32(s, 2 + 8 * i) && right
            == be32(s, 6 + 8 * i)),
{
    lemma_kind(option);
    let e = option.encoding();
    assert(e[0] == s[0]);
    if let TcpOption::SackRange(blocks) = option {
        let data = sack_blocks(blocks@);
        lemma_sack_at(blocks@, i);
        assert(data == e.skip(2));
        assert(data.len() == if s[1] > 26 { 24 } else { s[1] - 2 });
        assert(forall|k: int| 0 <= k < data.len() ==> #[trigger] data[k] == s[2 + k]);
        if let Some((left, right)) = blocks@[i] {
            lemma_be32_octets32(left as int);
            lemma_be32_octets32(right as int);
            let l = data.subrange(i * 8, i * 8 + 4);
            let r = data.subrange(i * 8 + 4, i * 8 + 8);
            assert(forall|k: int| 0 <= k < 4 ==> s[2 + 8 * i + k] == #[trigger] l[k]);
            assert(forall|k: int| 0 <= k < 4 ==> s[6 + 8 * i + k] == #[trigger] r[k]);
            assert(l[0] == s[2 + 8 * i] && l[1] == s[3 + 8 * i]);
            assert(l[2] == s[4 + 8 * i] && l[3] == s[5 + 8 * i]);
            assert(r[0] == s[6 + 8 * i] && r[1] == s[7 + 8 * i]);
            assert(r[2] == s[8 + 8 * i] && r[3] == s[9 + 8 * i]);
        }
    }
}

/// Sequence numbers wrap around: the result differs by a multiple of 2^32, and is a number of 32
/// bits with a sign.
pub proof fn law_wrap(n: int)
    requires
        -0x1_0000_0000 < n < 0x1_0000_0000,
    ensures
        -0x8000_0000 <= wrap(n) <= 0x7fff_ffff,
        (wrap(n) - n) % 0x1_0000_0000 == 0,
{
}

} // verus!
