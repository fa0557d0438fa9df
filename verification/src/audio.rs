//! Opus packets out of the Ogg container.
//!
//! The readers here do no input themselves: the caller pushes the bytes it has
//! read, in pieces of any size, and says when there are no more.

use std::collections::VecDeque;
use vstd::prelude::*;
use crate::error::Error;
use crate::text;

verus! {

/// The length of the fixed part of an Ogg page header.
pub const PAGE_HEADER_LEN: usize = 27;

/// The sum of lacing values.
pub open spec fn lacing_sum(lacing: Seq<u8>) -> nat
    decreases lacing.len(),
{
    if lacing.len() == 0 {
        0
    } else {
        lacing_sum(lacing.drop_last()) + lacing.last() as nat
    }
}

/// What stands at the front of the bytes of an Ogg stream.
pub enum PageModel {
    /// The bytes end before the page does.
    Incomplete,
    /// The bytes are not the header of an Ogg page of the known version.
    Invalid,
    /// A whole page: its lacing values, its payload and its length.
    Page { lacing: Seq<u8>, payload: Seq<u8>, len: nat },
}

/// Whether the bytes open with the capture pattern and version zero.
pub open spec fn page_opens(s: Seq<u8>) -> bool {
    s[0] == 0x4f && s[1] == 0x67 && s[2] == 0x67 && s[3] == 0x53 && s[4] == 0
}

/// The page at the front of the bytes of an Ogg stream.
pub open spec fn parse_page(s: Seq<u8>) -> PageModel {
    if s.len() < 27 {
        PageModel::Incomplete
    } else if !page_opens(s) {
        PageModel::Invalid
    } else {
        let body = 27 + s[26] as int;
        if s.len() < body {
            PageModel::Incomplete
        } else {
            let lacing = s.subrange(27, body);
            let end = body + lacing_sum(lacing);
            if s.len() < end {
                PageModel::Incomplete
            } else {
                PageModel::Page { lacing, payload: s.subrange(body, end), len: end as nat }
            }
        }
    }
}

/// The packets that lacing values cut out of a payload when `start` is already
/// there of the first one, and what is there of the packet that is not yet
/// complete. A value below 255 ends a packet.
pub open spec fn laced(start: Seq<u8>, lacing: Seq<u8>, payload: Seq<u8>) -> (
    Seq<Seq<u8>>,
    Seq<u8>,
)
    decreases lacing.len(),
{
    if lacing.len() == 0 {
        (Seq::empty(), start)
    } else {
        let (packets, partial) = laced(start, lacing.drop_last(), payload);
        let end = lacing_sum(lacing);
        let grown = partial + payload.subrange(end - lacing.last(), end as int);
        if lacing.last() < 255 {
            (packets.push(grown), Seq::empty())
        } else {
            (packets, grown)
        }
    }
}

/// The state of a packet reader: bytes not yet parsed, the start of a packet
/// that goes on in the next page, complete packets, and whether the input ended.
#[verifier::ext_equal]
pub struct ReaderModel {
    pub unread: Seq<u8>,
    pub partial: Seq<u8>,
    pub queued: Seq<Seq<u8>>,
    pub closed: bool,
}

/// Why the bytes are not an Ogg stream.
#[derive(Clone, Copy, Debug, PartialEq, Eq, Structural)]
pub enum OggFault {
    /// A page does not open with the capture pattern and version.
    InvalidHeader,
    /// The input ended within the fixed part of a page header.
    TruncatedHeader,
    /// The input ended within the lacing values or the payload of a page.
    TruncatedPage,
    /// The input ended between the pages of a packet.
    TruncatedPacket,
}

/// What a reader answers when it is asked for the next packet.
pub enum PollModel {
    Packet(Seq<u8>),
    NeedMore,
    End,
    Fault(OggFault),
}

/// The state after the page at the front of the unread bytes is taken, for a
/// state without complete packets.
pub open spec fn after_page(m: ReaderModel) -> ReaderModel {
    match parse_page(m.unread) {
        PageModel::Page { lacing, payload, len } => {
            let (packets, partial) = laced(m.partial, lacing, payload);
            ReaderModel {
                unread: m.unread.skip(len as int),
                partial,
                queued: packets,
                closed: m.closed,
            }
        },
        _ => m,
    }
}

/// The answer to a request for the next packet and the state that follows:
/// pages are parsed until one completes a packet. A fault takes the bytes that
/// it was found in: a broken header, or all that is left of the input.
pub open spec fn next_packet(m: ReaderModel) -> (PollModel, ReaderModel)
    decreases m.unread.len(),
    via next_packet_decreases
{
    if m.queued.len() > 0 {
        (
            PollModel::Packet(m.queued[0]),
            ReaderModel { queued: m.queued.drop_first(), ..m },
        )
    } else {
        match parse_page(m.unread) {
            PageModel::Invalid => (
                PollModel::Fault(OggFault::InvalidHeader),
                ReaderModel { unread: m.unread.skip(27), ..m },
            ),
            PageModel::Page { .. } => next_packet(after_page(m)),
            PageModel::Incomplete => if !m.closed {
                (PollModel::NeedMore, m)
            } else if m.unread.len() >= 27 {
                (
                    PollModel::Fault(OggFault::TruncatedPage),
                    ReaderModel { unread: Seq::empty(), ..m },
                )
            } else if m.unread.len() > 0 {
                (
                    PollModel::Fault(OggFault::TruncatedHeader),
                    ReaderModel { unread: Seq::empty(), ..m },
                )
            } else if m.partial.len() > 0 {
                (PollModel::Fault(OggFault::TruncatedPacket), m)
            } else {
                (PollModel::End, m)
            },
        }
    }
}

#[via_fn]
proof fn next_packet_decreases(m: ReaderModel) {
}

/// The answer of a reader to a request for the next packet.
#[derive(Debug, PartialEq, Eq)]
pub enum OggPoll {
    /// The next packet.
    Packet(Vec<u8>),
    /// No packet is complete: more input is needed.
    NeedMore,
    /// The stream ended after its last packet.
    End,
}

/// An answer by what it holds.
pub open spec fn poll_model(r: Result<OggPoll, OggFault>) -> PollModel {
    match r {
        Ok(OggPoll::Packet(packet)) => PollModel::Packet(packet@),
        Ok(OggPoll::NeedMore) => PollModel::NeedMore,
        Ok(OggPoll::End) => PollModel::End,
        Err(fault) => PollModel::Fault(fault),
    }
}

/// Reconstructs packets from the lacing values in Ogg pages.
pub struct OggPacketReader {
    unread: Vec<u8>,
    partial: Vec<u8>,
    queued: VecDeque<Vec<u8>>,
    closed: bool,
}

impl View for OggPacketReader {
    type V = ReaderModel;

    closed spec fn view(&self) -> ReaderModel {
        ReaderModel {
            unread: self.unread@,
            partial: self.partial@,
            queued: self.queued@.map_values(|packet: Vec<u8>| packet@),
            closed: self.closed,
        }
    }
}

/// Adds up lacing values.
fn sum_lacing(lacing: &[u8]) -> (r: usize)
    requires
        lacing@.len() <= 255,
    ensures
        r == lacing_sum(lacing@),
        r <= 255 * 255,
{
    let mut total: usize = 0;
    for i in 0..lacing.len()
        invariant
            lacing@.len() <= 255,
            total == lacing_sum(lacing@.take(i as int)),
            total <= 255 * i,
    {
        assert(lacing@.take(i + 1).drop_last() == lacing@.take(i as int));
        total += lacing[i] as usize;
    }
    assert(lacing@.take(lacing@.len() as int) == lacing@);
    total
}

/// The sum of lacing values grows with each value.
proof fn lemma_lacing_sum_prefix(lacing: Seq<u8>, i: int)
    requires
        0 <= i <= lacing.len(),
    ensures
        lacing_sum(lacing.take(i)) <= lacing_sum(lacing),
    decreases lacing.len(),
{
    if i < lacing.len() {
        lemma_lacing_sum_prefix(lacing.drop_last(), i);
        assert(lacing.drop_last().take(i) == lacing.take(i));
    } else {
        assert(lacing.take(i) == lacing);
    }
}

impl OggPacketReader {
    /// Starts at the front of an Ogg stream.
    pub fn new() -> (r: OggPacketReader)
        ensures
            r@ == (ReaderModel {
                unread: Seq::empty(),
                partial: Seq::empty(),
                queued: Seq::empty(),
                closed: false,
            }),
    {
        let r = OggPacketReader {
            unread: Vec::new(),
            partial: Vec::new(),
            queued: VecDeque::new(),
            closed: false,
        };
        assert(r@.queued =~= Seq::empty());
        r
    }

    /// Hands over the next bytes of the input.
    pub fn push(&mut self, bytes: &[u8])
        ensures
            final(self)@ == (ReaderModel { unread: old(self)@.unread + bytes@, ..old(self)@ }),
    {
        self.unread.extend_from_slice(bytes);
        assert(self@ =~= (ReaderModel { unread: old(self)@.unread + bytes@, ..old(self)@ }));
    }

    /// Says that the input ended.
    pub fn close(&mut self)
        ensures
            final(self)@ == (ReaderModel { closed: true, ..old(self)@ }),
    {
        self.closed = true;
    }

    /// Takes the page at the front of the unread bytes.
    fn take_page(&mut self, segments: usize, total: usize)
        requires
            old(self)@.queued.len() == 0,
            parse_page(old(self)@.unread) matches PageModel::Page { lacing, payload, len }
                && segments == lacing.len() && total == lacing_sum(lacing) && segments + total + 27
                == len <= old(self)@.unread.len(),
        ensures
            final(self)@ == after_page(old(self)@),
    {
        let ghost before = self@;
        let ghost body = 27 + segments as int;
        let ghost lacing = before.unread.subrange(27, body);
        let ghost payload = before.unread.subrange(body, body + total);
        let mut partial: Vec<u8> = Vec::new();
        std::mem::swap(&mut partial, &mut self.partial);
        let available: usize = self.unread.len();
        let mut offset: usize = PAGE_HEADER_LEN + segments;
        assert(lacing.take(0).len() == 0);
        assert(self.queued@.len() == 0) by {
            assert(before.queued.len() == self.queued@.len());
        }
        let mut i: usize = 0;
        while i < segments
            invariant
                i <= segments,
                27 + segments + total <= before.unread.len() == available,
                self.unread@ == before.unread,
                self.closed == before.closed,
                body == 27 + segments,
                lacing == before.unread.subrange(27, body),
                lacing.len() == segments,
                lacing_sum(lacing) == total,
                payload == before.unread.subrange(body, body + total),
                offset == body + lacing_sum(lacing.take(i as int)),
                (self.queued@.map_values(|packet: Vec<u8>| packet@), partial@) == laced(
                    before.partial,
                    lacing.take(i as int),
                    payload,
                ),
            decreases segments - i,
        {
            let size: u8 = self.unread[PAGE_HEADER_LEN + i];
            proof {
                assert(lacing[i as int] == size);
                assert(lacing.take(i + 1).drop_last() == lacing.take(i as int));
                assert(lacing.take(i + 1).last() == size);
                lemma_lacing_sum_prefix(lacing, i + 1);
            }
            let end: usize = offset + size as usize;
            let ghost kept = partial@;
            let ghost waiting = self.queued@;
            partial.extend_from_slice(
                vstd::slice::slice_subrange(self.unread.as_slice(), offset, end),
            );
            assert(partial@ =~= kept + payload.subrange(offset - body, end - body));
            offset = end;
            if size < 255 {
                let mut packet: Vec<u8> = Vec::new();
                std::mem::swap(&mut packet, &mut partial);
                self.queued.push_back(packet);
                assert(self.queued@.map_values(|packet: Vec<u8>| packet@) =~= waiting.map_values(
                    |packet: Vec<u8>| packet@,
                ).push(packet@));
            }
            i += 1;
        }
        assert(lacing.take(segments as int) == lacing);
        self.partial = partial;
        let rest = self.unread.split_off(offset);
        self.unread = rest;
        assert(self@ =~= after_page(before));
    }

    /// Drops what is left of the input and hands back the fault found in it.
    fn drop_truncated(&mut self, fault: OggFault) -> (r: OggFault)
        ensures
            r == fault,
            final(self)@ == (ReaderModel { unread: Seq::empty(), ..old(self)@ }),
    {
        self.unread = Vec::new();
        assert(self@ =~= (ReaderModel { unread: Seq::empty(), ..old(self)@ }));
        fault
    }

    /// Gives the next packet, or says what stands in its way: more input, the
    /// end of the stream, or a fault in it. A fault takes the bytes that it was
    /// found in, so that reading goes on behind them.
    pub fn next(&mut self) -> (r: Result<OggPoll, OggFault>)
        ensures
            (poll_model(r), final(self)@) == next_packet(old(self)@),
    {
        loop
            invariant
                next_packet(self@) == next_packet(old(self)@),
            decreases self@.unread.len(),
        {
            let ghost before = self@;
            let ghost waiting = self.queued@;
            if let Some(packet) = self.queued.pop_front() {
                assert(before.queued.len() > 0 && before.queued[0] == packet@);
                assert(self@ =~= (ReaderModel { queued: before.queued.drop_first(), ..before }));
                return Ok(OggPoll::Packet(packet));
            }
            assert(self@ =~= before && before.queued.len() == 0);
            let available: usize = self.unread.len();
            if available < PAGE_HEADER_LEN {
                if !self.closed {
                    return Ok(OggPoll::NeedMore);
                }
                if available > 0 {
                    return Err(self.drop_truncated(OggFault::TruncatedHeader));
                }
                if self.partial.len() > 0 {
                    return Err(OggFault::TruncatedPacket);
                }
                return Ok(OggPoll::End);
            }
            if self.unread[0] != 0x4f || self.unread[1] != 0x67 || self.unread[2] != 0x67
                || self.unread[3] != 0x53 || self.unread[4] != 0 {
                let rest = self.unread.split_off(PAGE_HEADER_LEN);
                self.unread = rest;
                assert(self@ =~= (ReaderModel { unread: before.unread.skip(27), ..before }));
                return Err(OggFault::InvalidHeader);
            }
            let segments: usize = self.unread[26] as usize;
            if available < PAGE_HEADER_LEN + segments {
                return if self.closed {
                    Err(self.drop_truncated(OggFault::TruncatedPage))
                } else {
                    Ok(OggPoll::NeedMore)
                };
            }
            let lacing = vstd::slice::slice_subrange(
                self.unread.as_slice(),
                PAGE_HEADER_LEN,
                PAGE_HEADER_LEN + segments,
            );
            let total: usize = sum_lacing(lacing);
            if available - PAGE_HEADER_LEN - segments < total {
                return if self.closed {
                    Err(self.drop_truncated(OggFault::TruncatedPage))
                } else {
                    Ok(OggPoll::NeedMore)
                };
            }
            self.take_page(segments, total);
        }
    }
}

/// The text that describes a fault.
pub open spec fn fault_text(fault: OggFault) -> Seq<char> {
    match fault {
        OggFault::InvalidHeader => "invalid Ogg page header"@,
        OggFault::TruncatedHeader => "truncated Ogg page header"@,
        OggFault::TruncatedPage => "early eof"@,
        OggFault::TruncatedPacket => "truncated Ogg packet"@,
    }
}

/// The kinds of failure of input and output that this module reports.
#[derive(Clone, Copy, Debug, PartialEq, Eq, Structural)]
pub enum IoKind {
    /// What was handed over cannot be used.
    InvalidInput,
    /// What was read cannot be used.
    InvalidData,
    /// The input ended too early.
    UnexpectedEof,
}

impl OggFault {
    /// Tells which kind of failure the fault is.
    pub fn kind(self) -> (r: IoKind)
        ensures
            r == if self is InvalidHeader {
                IoKind::InvalidData
            } else {
                IoKind::UnexpectedEof
            },
    {
        match self {
            OggFault::InvalidHeader => IoKind::InvalidData,
            _ => IoKind::UnexpectedEof,
        }
    }

    /// Tells whether the input ended too early.
    pub fn is_unexpected_eof(self) -> (r: bool)
        ensures
            r == !(self is InvalidHeader),
    {
        match self {
            OggFault::InvalidHeader => false,
            _ => true,
        }
    }

    /// Describes the fault.
    pub fn text(self) -> (r: &'static str)
        ensures
            r@ == fault_text(self),
    {
        match self {
            OggFault::InvalidHeader => "invalid Ogg page header",
            OggFault::TruncatedHeader => "truncated Ogg page header",
            OggFault::TruncatedPage => "early eof",
            OggFault::TruncatedPacket => "truncated Ogg packet",
        }
    }
}

/// Whether a packet opens with one of the two header marks of Opus in Ogg.
pub open spec fn opus_header(packet: Seq<u8>) -> bool {
    ||| seq![0x4fu8, 0x70, 0x75, 0x73, 0x48, 0x65, 0x61, 0x64].is_prefix_of(packet)
    ||| seq![0x4fu8, 0x70, 0x75, 0x73, 0x54, 0x61, 0x67, 0x73].is_prefix_of(packet)
}

/// Tells whether a packet is the identification or the comment header of Opus.
pub fn is_opus_header(packet: &[u8]) -> (r: bool)
    ensures
        r == opus_header(packet@),
{
    let head: [u8; 8] = [0x4f, 0x70, 0x75, 0x73, 0x48, 0x65, 0x61, 0x64];
    let tags: [u8; 8] = [0x4f, 0x70, 0x75, 0x73, 0x54, 0x61, 0x67, 0x73];
    assert(head@ =~= seq![0x4fu8, 0x70, 0x75, 0x73, 0x48, 0x65, 0x61, 0x64]);
    assert(tags@ =~= seq![0x4fu8, 0x70, 0x75, 0x73, 0x54, 0x61, 0x67, 0x73]);
    text::bytes_start_with(packet, head.as_slice()) || text::bytes_start_with(
        packet,
        tags.as_slice(),
    )
}

/// An Ogg page: the capture pattern and version zero, the other fields of the
/// fixed header, which are not looked at, the number of lacing values, these and
/// the payload.
pub open spec fn page_of(fields: Seq<u8>, segments: Seq<u8>, payload: Seq<u8>) -> Seq<u8> {
    seq![0x4fu8, 0x67, 0x67, 0x53, 0] + fields + seq![segments.len() as u8] + segments + payload
}

/// The fields of a fixed header with position, serial number and checksum zero.
pub open spec fn plain_fields(header_type: u8, sequence: u32) -> Seq<u8> {
    seq![
        header_type,
        0,
        0,
        0,
        0,
        0,
        0,
        0,
        0,
        0,
        0,
        0,
        0,
        (sequence % 256) as u8,
        (sequence / 256 % 256) as u8,
        (sequence / 65536 % 256) as u8,
        (sequence / 16777216) as u8,
        0,
        0,
        0,
        0,
    ]
}

/// An Ogg page with position, serial number and checksum zero.
pub open spec fn ogg_page(
    header_type: u8,
    sequence: u32,
    segments: Seq<u8>,
    payload: Seq<u8>,
) -> Seq<u8> {
    page_of(plain_fields(header_type, sequence), segments, payload)
}

/// The message for lacing values that do not add up to the payload.
pub open spec fn lacing_mismatch(length: nat, payload: nat) -> Seq<char> {
    "lacing length "@ + text::decimal(length) + " does not match payload "@ + text::decimal(payload)
}

/// Why a page cannot be built.
#[derive(Clone, Copy, Debug, PartialEq, Eq, Structural)]
pub enum PageFault {
    /// There are more lacing values than a page header can count.
    TooManySegments,
    /// The lacing values do not add up to the payload.
    LacingMismatch {
        /// The sum of the lacing values.
        length: usize,
        /// The length of the payload.
        payload: usize,
    },
}

/// The text that describes why a page cannot be built.
pub open spec fn page_fault_text(fault: PageFault) -> Seq<char> {
    match fault {
        PageFault::TooManySegments => "too many Ogg segments"@,
        PageFault::LacingMismatch { length, payload } => lacing_mismatch(
            length as nat,
            payload as nat,
        ),
    }
}

impl PageFault {
    /// Tells which kind of failure the fault is.
    pub fn kind(self) -> (r: IoKind)
        ensures
            r == IoKind::InvalidInput,
    {
        IoKind::InvalidInput
    }

    /// Describes the fault.
    pub fn message(self) -> (r: String)
        ensures
            r@ == page_fault_text(self),
    {
        match self {
            PageFault::TooManySegments => "too many Ogg segments".to_owned(),
            PageFault::LacingMismatch { length, payload } => {
                let mut message = "lacing length ".to_owned();
                text::push_decimal(&mut message, length as u128);
                message.append(" does not match payload ");
                text::push_decimal(&mut message, payload as u128);
                message
            },
        }
    }
}

/// Builds an Ogg page for fixtures. The checksum is intentionally zero.
pub fn make_ogg_page(header_type: u8, sequence: u32, segments: &[u8], payload: &[u8]) -> (r: Result<
    Vec<u8>,
    PageFault,
>)
    ensures
        match r {
            Ok(page) => segments@.len() <= 255 && lacing_sum(segments@) == payload@.len() && page@
                == ogg_page(header_type, sequence, segments@, payload@),
            Err(fault) => if segments@.len() > 255 {
                fault == PageFault::TooManySegments
            } else {
                lacing_sum(segments@) != payload@.len() && (fault matches PageFault::LacingMismatch {
                    length,
                    payload: found,
                } && length == lacing_sum(segments@) && found == payload@.len())
            },
        },
{
    if segments.len() > 255 {
        return Err(PageFault::TooManySegments);
    }
    let length: usize = sum_lacing(segments);
    if length != payload.len() {
        return Err(PageFault::LacingMismatch { length, payload: payload.len() });
    }
    let mut page: Vec<u8> = vec![
        0x4f, 0x67, 0x67, 0x53, 0, header_type, 0, 0, 0, 0, 0, 0, 0, 0, 0, 0, 0, 0,
        (sequence % 256) as u8, (sequence / 256 % 256) as u8, (sequence / 65536 % 256) as u8,
        (sequence / 16777216) as u8, 0, 0, 0, 0, segments.len() as u8,
    ];
    page.extend_from_slice(segments);
    page.extend_from_slice(payload);
    assert(page@ =~= ogg_page(header_type, sequence, segments@, payload@));
    Ok(page)
}

/// A packet that is handed out shrinks what is left to read.
proof fn lemma_next_packet_shrinks(m: ReaderModel)
    ensures
        next_packet(m).0 is Packet ==> {
            let after = next_packet(m).1;
            ||| after.unread.len() < m.unread.len()
            ||| after.unread.len() == m.unread.len() && after.queued.len() < m.queued.len()
        },
    decreases m.unread.len(),
{
    if m.queued.len() == 0 && parse_page(m.unread) is Page {
        lemma_next_packet_shrinks(after_page(m));
    }
}

/// The answer to a request for the next audio packet and the state that
/// follows: header packets are passed over.
pub open spec fn next_audio(m: ReaderModel) -> (PollModel, ReaderModel)
    decreases m.unread.len(), m.queued.len(),
    via next_audio_decreases
{
    match next_packet(m) {
        (PollModel::Packet(packet), after) => if opus_header(packet) {
            next_audio(after)
        } else {
            (PollModel::Packet(packet), after)
        },
        other => other,
    }
}

#[via_fn]
proof fn next_audio_decreases(m: ReaderModel) {
    lemma_next_packet_shrinks(m);
}

/// The audio packets of an Opus stream in Ogg, as a converter writes it.
pub struct OpusStream {
    packets: OggPacketReader,
    waited: bool,
}

impl View for OpusStream {
    type V = ReaderModel;

    closed spec fn view(&self) -> ReaderModel {
        self.packets@
    }
}

impl OpusStream {
    /// Whether the converter's exit was already asked for.
    pub closed spec fn awaited(&self) -> bool {
        self.waited
    }

    /// Starts at the front of the converter's output.
    pub fn new() -> (r: OpusStream)
        ensures
            !r.awaited(),
            r@ == (ReaderModel {
                unread: Seq::empty(),
                partial: Seq::empty(),
                queued: Seq::empty(),
                closed: false,
            }),
    {
        OpusStream { packets: OggPacketReader::new(), waited: false }
    }

    /// Hands over the next bytes of the converter's output.
    pub fn push(&mut self, bytes: &[u8])
        ensures
            final(self)@ == (ReaderModel { unread: old(self)@.unread + bytes@, ..old(self)@ }),
            final(self).awaited() == old(self).awaited(),
    {
        self.packets.push(bytes);
    }

    /// Says that the converter's output ended.
    pub fn close(&mut self)
        ensures
            final(self)@ == (ReaderModel { closed: true, ..old(self)@ }),
            final(self).awaited() == old(self).awaited(),
    {
        self.packets.close();
    }

    /// Gives the next audio packet, passing over the header packets.
    pub fn next(&mut self) -> (r: Result<OggPoll, Error>)
        ensures
            final(self).awaited() == old(self).awaited(),
            final(self)@ == next_audio(old(self)@).1,
            match next_audio(old(self)@).0 {
                PollModel::Packet(packet) => r matches Ok(OggPoll::Packet(found)) && found@
                    == packet,
                PollModel::NeedMore => r == Ok::<OggPoll, Error>(OggPoll::NeedMore),
                PollModel::End => r == Ok::<OggPoll, Error>(OggPoll::End),
                PollModel::Fault(fault) => r matches Err(e) && e@
                    == crate::error::ErrorModel::Io(fault_text(fault)),
            },
    {
        loop
            invariant
                next_audio(self@) == next_audio(old(self)@),
                self.awaited() == old(self).awaited(),
            decreases self@.unread.len(), self@.queued.len(),
        {
            proof {
                lemma_next_packet_shrinks(self@);
            }
            match self.packets.next() {
                Ok(OggPoll::Packet(packet)) => {
                    if !is_opus_header(packet.as_slice()) {
                        return Ok(OggPoll::Packet(packet));
                    }
                },
                Ok(other) => {
                    return Ok(other);
                },
                Err(fault) => {
                    return Err(Error::Io(fault.text().to_owned()));
                },
            }
        }
    }

    /// Tells whether the converter's exit is still to be waited for, which it
    /// is once.
    pub fn finish(&mut self) -> (r: bool)
        ensures
            r == !old(self).awaited(),
            final(self).awaited(),
            final(self)@ == old(self)@,
    {
        let first = !self.waited;
        self.waited = true;
        first
    }
}

/// The converter's arguments before the input file.
pub open spec fn input_options() -> Seq<Seq<char>> {
    seq!["-nostdin"@, "-v"@, "error"@, "-i"@]
}

/// The converter's arguments after the input file: the first audio stream as
/// mono Opus at 16 kHz in frames of 20 ms, written to standard output.
pub open spec fn output_options() -> Seq<Seq<char>> {
    seq![
        "-map"@,
        "0:a:0"@,
        "-vn"@,
        "-af"@,
        "apad=pad_dur=0.02"@,
        "-ac"@,
        "1"@,
        "-ar"@,
        "16000"@,
        "-c:a"@,
        "libopus"@,
        "-application"@,
        "audio"@,
        "-frame_duration"@,
        "20"@,
        "-f"@,
        "opus"@,
        "pipe:1"@,
    ]
}

/// Lists the converter's arguments before and after the input file.
pub fn opus_stream_arguments() -> (r: (Vec<&'static str>, Vec<&'static str>))
    ensures
        text::texts(r.0@) == input_options(),
        text::texts(r.1@) == output_options(),
{
    let before: Vec<&'static str> = vec!["-nostdin", "-v", "error", "-i"];
    let after: Vec<&'static str> = vec![
        "-map", "0:a:0", "-vn", "-af", "apad=pad_dur=0.02", "-ac", "1", "-ar", "16000", "-c:a",
        "libopus", "-application", "audio", "-frame_duration", "20", "-f", "opus", "pipe:1",
    ];
    assert(text::texts(before@) =~= input_options());
    assert(text::texts(after@) =~= output_options());
    (before, after)
}

/// Says why the converter did not start.
pub fn start_failure(not_found: bool, detail: &str) -> (r: Error)
    ensures
        r@ == crate::error::ErrorModel::Message(
            if not_found {
                "ffmpeg is required but was not found in PATH"@
            } else {
                "start ffmpeg: "@ + detail@
            },
        ),
{
    if not_found {
        Error::msg("ffmpeg is required but was not found in PATH")
    } else {
        Error::detailed("start ffmpeg: ", detail)
    }
}

/// The part of the converter's diagnostic that is reported.
pub open spec fn diagnostic_excerpt(stderr: Seq<u8>) -> Seq<u8> {
    if stderr.len() > 500 {
        stderr.take(500) + seq![0x2eu8, 0x2e, 0x2e]
    } else {
        stderr
    }
}

/// The failure that an exit of the converter stands for: none where it
/// succeeded, else its diagnostic, or its status where it gave none.
pub open spec fn exit_failure(success: bool, status: Seq<char>, diagnostic: Seq<char>) -> Option<
    crate::error::ErrorModel,
> {
    if success {
        None
    } else if text::trimmed(diagnostic).len() == 0 {
        Some(crate::error::ErrorModel::Message("ffmpeg failed: "@ + status))
    } else {
        Some(crate::error::ErrorModel::Message("ffmpeg failed: "@ + text::trimmed(diagnostic)))
    }
}

/// Judges the converter's exit by its status and the text of its diagnostic.
pub fn judge_exit(success: bool, status: &str, diagnostic: &str) -> (r: Result<(), Error>)
    ensures
        crate::error::failure(r) == exit_failure(success, status@, diagnostic@),
{
    if success {
        return Ok(());
    }
    let detail = text::trim(diagnostic);
    if detail.unicode_len() == 0 {
        Err(Error::detailed("ffmpeg failed: ", status))
    } else {
        Err(Error::detailed("ffmpeg failed: ", detail))
    }
}

/// Judges the converter's exit by its status and what it wrote to standard
/// error, of which at most the first 500 bytes are reported.
pub fn opus_stream_exit(success: bool, status: &str, stderr: &[u8]) -> (r: Result<(), Error>)
    ensures
        crate::error::failure(r) == exit_failure(
            success,
            status@,
            text::utf8_lossy(diagnostic_excerpt(stderr@)),
        ),
{
    let mut detail: Vec<u8> = vstd::slice::slice_to_vec(stderr);
    if detail.len() > 500 {
        detail.truncate(500);
        detail.push(0x2e);
        detail.push(0x2e);
        detail.push(0x2e);
    }
    assert(detail@ =~= diagnostic_excerpt(stderr@));
    let diagnostic = text::lossy_text(detail.as_slice());
    judge_exit(success, status, diagnostic.as_str())
}

/// A reader's state with more input, and perhaps the end of it, after what it has.
pub open spec fn grown(m: ReaderModel, extra: Seq<u8>, closed: bool) -> ReaderModel {
    ReaderModel { unread: m.unread + extra, closed, ..m }
}

/// A whole page is the same page whatever bytes follow it, and so is a broken
/// header.
proof fn lemma_page_ignores_rest(s: Seq<u8>, rest: Seq<u8>)
    requires
        !(parse_page(s) is Incomplete),
    ensures
        parse_page(s + rest) == parse_page(s),
        parse_page(s) matches PageModel::Page { len, .. } ==> (s + rest).skip(len as int) == s.skip(
            len as int,
        ) + rest,
{
    let whole = s + rest;
    assert(page_opens(whole) == page_opens(s));
    if page_opens(s) {
        let body = 27 + s[26] as int;
        assert(whole.subrange(27, body) =~= s.subrange(27, body));
        let end = body + lacing_sum(s.subrange(27, body));
        assert(whole.subrange(body, end) =~= s.subrange(body, end));
        assert(whole.skip(end) =~= s.skip(end) + rest);
    }
}

/// A packet that is complete, and a header that is broken, are reported the
/// same whatever input follows. Where more input is needed, the parsing done so
/// far changes nothing: the input that follows is read as if it had been there
/// from the start.
pub proof fn law_later_input_changes_no_answer(m: ReaderModel, extra: Seq<u8>, closed: bool)
    requires
        !m.closed,
    ensures
        next_packet(m).0 is NeedMore ==> next_packet(grown(m, extra, closed)) == next_packet(
            grown(next_packet(m).1, extra, closed),
        ),
        !(next_packet(m).0 is NeedMore) ==> next_packet(grown(m, extra, closed)) == (
            next_packet(m).0,
            grown(next_packet(m).1, extra, closed),
        ),
    decreases m.unread.len(),
{
    if m.queued.len() == 0 && !(parse_page(m.unread) is Incomplete) {
        lemma_page_ignores_rest(m.unread, extra);
        if parse_page(m.unread) is Invalid {
            assert((m.unread + extra).skip(27) =~= m.unread.skip(27) + extra);
        }
        if parse_page(m.unread) is Page {
            law_later_input_changes_no_answer(after_page(m), extra, closed);
            assert(after_page(grown(m, extra, closed)) =~= grown(after_page(m), extra, closed));
        }
    }
}

/// The packets that a reader gives until its answer is another, that answer,
/// and the state that follows.
pub open spec fn ready(m: ReaderModel) -> (Seq<Seq<u8>>, PollModel, ReaderModel)
    decreases m.unread.len(), m.queued.len(),
    via ready_decreases
{
    match next_packet(m) {
        (PollModel::Packet(packet), after) => {
            let (packets, answer, end) = ready(after);
            (seq![packet] + packets, answer, end)
        },
        (answer, after) => (Seq::empty(), answer, after),
    }
}

#[via_fn]
proof fn ready_decreases(m: ReaderModel) {
    lemma_next_packet_shrinks(m);
}

/// The packets and the last answer of a reader that is given chunks one by one,
/// asked after each until it needs more, and then told that the input ended.
pub open spec fn fed(m: ReaderModel, chunks: Seq<Seq<u8>>) -> (Seq<Seq<u8>>, PollModel)
    decreases chunks.len(),
{
    if chunks.len() == 0 {
        let (packets, answer, _) = ready(grown(m, Seq::empty(), true));
        (packets, answer)
    } else {
        let (packets, answer, after) = ready(grown(m, chunks[0], false));
        if answer is NeedMore {
            let (others, last) = fed(after, chunks.skip(1));
            (packets + others, last)
        } else {
            (packets, answer)
        }
    }
}

/// Input that follows does not change the packets that were ready before it.
proof fn lemma_ready_grows(m: ReaderModel, extra: Seq<u8>, closed: bool)
    requires
        !m.closed,
    ensures
        ({
            let (packets, answer, after) = ready(m);
            let (whole, last, _) = ready(grown(m, extra, closed));
            let (others, final_answer, _) = ready(grown(after, extra, closed));
            &&& !after.closed
            &&& answer is NeedMore ==> whole == packets + others && last == final_answer
            &&& !(answer is NeedMore) ==> whole == packets && last == answer
        }),
    decreases m.unread.len(), m.queued.len(),
{
    lemma_next_packet_shrinks(m);
    lemma_open_stays_open(m);
    law_later_input_changes_no_answer(m, extra, closed);
    let (answer, after) = next_packet(m);
    if let PollModel::Packet(packet) = answer {
        lemma_ready_grows(after, extra, closed);
        lemma_next_packet_shrinks(grown(m, extra, closed));
        let (packets, _, end) = ready(after);
        let (others, _, _) = ready(grown(end, extra, closed));
        assert(seq![packet] + (packets + others) =~= seq![packet] + packets + others);
    } else if answer is NeedMore {
        let (others, _, _) = ready(grown(after, extra, closed));
        assert(Seq::<Seq<u8>>::empty() + others =~= others);
    }
}

/// Asking for a packet does not end the input.
proof fn lemma_open_stays_open(m: ReaderModel)
    ensures
        next_packet(m).1.closed == m.closed,
    decreases m.unread.len(),
{
    if m.queued.len() == 0 && parse_page(m.unread) is Page {
        lemma_open_stays_open(after_page(m));
    }
}

/// How the input is cut into chunks makes no difference: the packets and the
/// last answer are those of the whole input in one piece.
pub proof fn law_chunking_is_irrelevant(m: ReaderModel, chunks: Seq<Seq<u8>>)
    requires
        !m.closed,
    ensures
        fed(m, chunks) == (
            ready(grown(m, chunks.flatten(), true)).0,
            ready(grown(m, chunks.flatten(), true)).1,
        ),
    decreases chunks.len(),
{
    if chunks.len() == 0 {
        assert(chunks.flatten() =~= Seq::<u8>::empty());
    } else {
        let first = chunks[0];
        let others = chunks.skip(1);
        assert(others =~= chunks.drop_first());
        assert(chunks.flatten() =~= first + others.flatten());
        let m1 = grown(m, first, false);
        lemma_ready_grows(m1, others.flatten(), true);
        assert(grown(m1, others.flatten(), true) =~= grown(m, chunks.flatten(), true));
        let (_, answer, after) = ready(m1);
        if answer is NeedMore {
            law_chunking_is_irrelevant(after, others);
        }
    }
}

/// The sum of two runs of lacing values.
proof fn lemma_lacing_sum_concat(a: Seq<u8>, b: Seq<u8>)
    ensures
        lacing_sum(a + b) == lacing_sum(a) + lacing_sum(b),
    decreases b.len(),
{
    if b.len() == 0 {
        assert(a + b =~= a);
    } else {
        lemma_lacing_sum_concat(a, b.drop_last());
        assert((a + b).drop_last() =~= a + b.drop_last());
        assert((a + b).last() == b.last());
    }
}

/// Packets go on from one run of lacing values to the next: cutting a stream
/// of packets into pages anywhere gives the same packets.
pub proof fn law_packets_may_span_pages(
    start: Seq<u8>,
    first: Seq<u8>,
    second: Seq<u8>,
    head: Seq<u8>,
    tail: Seq<u8>,
)
    requires
        lacing_sum(first) == head.len(),
        lacing_sum(second) == tail.len(),
    ensures
        laced(start, first + second, head + tail) == (
            laced(start, first, head).0 + laced(laced(start, first, head).1, second, tail).0,
            laced(laced(start, first, head).1, second, tail).1,
        ),
{
    lemma_laced_concat(start, first, second, head, tail);
}

proof fn lemma_laced_concat(
    start: Seq<u8>,
    first: Seq<u8>,
    second: Seq<u8>,
    head: Seq<u8>,
    tail: Seq<u8>,
)
    requires
        lacing_sum(first) == head.len(),
        lacing_sum(second) <= tail.len(),
    ensures
        laced(start, first + second, head + tail) == (
            laced(start, first, head).0 + laced(laced(start, first, head).1, second, tail).0,
            laced(laced(start, first, head).1, second, tail).1,
        ),
    decreases second.len(),
{
    if second.len() == 0 {
        assert(first + second =~= first);
        lemma_laced_ignores_rest(start, first, head, tail);
        assert(laced(start, first, head).0 + Seq::<Seq<u8>>::empty() =~= laced(
            start,
            first,
            head,
        ).0);
    } else {
        lemma_laced_concat(start, first, second.drop_last(), head, tail);
        lemma_lacing_sum_concat(first, second);
        lemma_lacing_sum_concat(first, second.drop_last());
        let whole = first + second;
        assert(whole.drop_last() =~= first + second.drop_last());
        assert(whole.last() == second.last());
        let end = lacing_sum(second) as int;
        let begin = end - second.last();
        assert((head + tail).subrange(head.len() + begin, head.len() + end) =~= tail.subrange(
            begin,
            end,
        ));
        let (packets, partial) = laced(start, first, head);
        let (more, kept) = laced(partial, second.drop_last(), tail);
        let piece = kept + tail.subrange(begin, end);
        assert((packets + more).push(piece) =~= packets + more.push(piece));
    }
}

/// Lacing values reach no further than their sum.
proof fn lemma_laced_ignores_rest(start: Seq<u8>, lacing: Seq<u8>, payload: Seq<u8>, rest: Seq<u8>)
    requires
        lacing_sum(lacing) <= payload.len(),
    ensures
        laced(start, lacing, payload + rest) == laced(start, lacing, payload),
    decreases lacing.len(),
{
    if lacing.len() > 0 {
        lemma_laced_ignores_rest(start, lacing.drop_last(), payload, rest);
        let end = lacing_sum(lacing) as int;
        let begin = end - lacing.last();
        assert((payload + rest).subrange(begin, end) =~= payload.subrange(begin, end));
    }
}

/// The lacing values of one packet: 255 for each 255 bytes, then the rest, which
/// is zero where the length is a multiple of 255.
pub open spec fn packet_lacing(length: nat) -> Seq<u8>
    decreases length,
{
    if length < 255 {
        seq![length as u8]
    } else {
        seq![255u8] + packet_lacing((length - 255) as nat)
    }
}

/// The lacing values of packets in a row.
pub open spec fn packets_lacing(packets: Seq<Seq<u8>>) -> Seq<u8>
    decreases packets.len(),
{
    if packets.len() == 0 {
        Seq::empty()
    } else {
        packet_lacing(packets[0].len()) + packets_lacing(packets.drop_first())
    }
}

/// A packet that was laced is read back whole after what was there of it.
proof fn lemma_packet_reads_back(start: Seq<u8>, packet: Seq<u8>)
    ensures
        lacing_sum(packet_lacing(packet.len())) == packet.len(),
        laced(start, packet_lacing(packet.len()), packet) == (
            seq![start + packet],
            Seq::<u8>::empty(),
        ),
    decreases packet.len(),
{
    reveal_with_fuel(laced, 2);
    reveal_with_fuel(lacing_sum, 2);
    if packet.len() < 255 {
        let lacing = seq![packet.len() as u8];
        assert(lacing.drop_last() =~= Seq::<u8>::empty());
        assert(packet.subrange(0, packet.len() as int) =~= packet);
        assert(Seq::<Seq<u8>>::empty().push(start + packet) =~= seq![start + packet]);
    } else {
        let head = packet.take(255);
        let tail = packet.skip(255);
        let first = seq![255u8];
        lemma_packet_reads_back(start + head, tail);
        assert(first.drop_last() =~= Seq::<u8>::empty());
        assert(head.subrange(0, 255) =~= head);
        lemma_lacing_sum_concat(first, packet_lacing(tail.len()));
        lemma_laced_concat(start, first, packet_lacing(tail.len()), head, tail);
        assert(head + tail =~= packet);
        assert(start + head + tail =~= start + packet);
        assert(Seq::<Seq<u8>>::empty() + seq![start + packet] =~= seq![start + packet]);
    }
}

/// Packets that were laced are read back, all of them and nothing else.
proof fn lemma_packets_read_back(packets: Seq<Seq<u8>>)
    ensures
        lacing_sum(packets_lacing(packets)) == packets.flatten().len(),
        laced(Seq::empty(), packets_lacing(packets), packets.flatten()) == (
            packets,
            Seq::<u8>::empty(),
        ),
    decreases packets.len(),
{
    if packets.len() == 0 {
        assert(packets =~= Seq::<Seq<u8>>::empty());
        assert(packets.flatten() =~= Seq::<u8>::empty());
    } else {
        let first = packets[0];
        let others = packets.drop_first();
        lemma_packet_reads_back(Seq::empty(), first);
        lemma_packets_read_back(others);
        assert(packets.flatten() =~= first + others.flatten());
        lemma_lacing_sum_concat(packet_lacing(first.len()), packets_lacing(others));
        lemma_laced_concat(
            Seq::empty(),
            packet_lacing(first.len()),
            packets_lacing(others),
            first,
            others.flatten(),
        );
        assert(Seq::<u8>::empty() + first =~= first);
        assert(seq![first] + others =~= packets);
    }
}

/// A page is read back from the front of a stream: its lacing values, its payload
/// and where it ends, whatever position, serial number and checksum its header
/// holds.
pub proof fn law_page_reads_back(
    fields: Seq<u8>,
    segments: Seq<u8>,
    payload: Seq<u8>,
    rest: Seq<u8>,
)
    requires
        fields.len() == 21,
        segments.len() <= 255,
        lacing_sum(segments) == payload.len(),
    ensures
        parse_page(page_of(fields, segments, payload) + rest) == (PageModel::Page {
            lacing: segments,
            payload,
            len: page_of(fields, segments, payload).len(),
        }),
{
    let page = page_of(fields, segments, payload);
    let whole = page + rest;
    let body = 27 + segments.len() as int;
    assert(whole[26] == segments.len());
    assert(whole.subrange(27, body) =~= segments);
    assert(whole.subrange(body, body + payload.len()) =~= payload);
}

/// A reader that has given some of its packets gives the others next.
proof fn lemma_queued_come_first(m: ReaderModel)
    ensures
        ready(m).0 == m.queued + ready(ReaderModel { queued: Seq::empty(), ..m }).0,
        ready(m).1 == ready(ReaderModel { queued: Seq::empty(), ..m }).1,
    decreases m.queued.len(),
{
    lemma_next_packet_shrinks(m);
    if m.queued.len() == 0 {
        assert(m =~= (ReaderModel { queued: Seq::empty(), ..m }));
        assert(m.queued + ready(m).0 =~= ready(m).0);
    } else {
        let after = ReaderModel { queued: m.queued.drop_first(), ..m };
        lemma_queued_come_first(after);
        let others = ready(ReaderModel { queued: Seq::empty(), ..m }).0;
        assert(seq![m.queued[0]] + (m.queued.drop_first() + others) =~= m.queued + others);
    }
}

/// Packets that were laced into a page are what a reader gives of the page,
/// whatever their lengths, and then the stream ends.
pub proof fn law_written_packets_read_back(
    fields: Seq<u8>,
    packets: Seq<Seq<u8>>,
    chunks: Seq<Seq<u8>>,
)
    requires
        fields.len() == 21,
        packets_lacing(packets).len() <= 255,
        chunks.flatten() == page_of(fields, packets_lacing(packets), packets.flatten()),
    ensures
        fed(
            ReaderModel {
                unread: Seq::empty(),
                partial: Seq::empty(),
                queued: Seq::empty(),
                closed: false,
            },
            chunks,
        ) == (packets, PollModel::End),
{
    let start = ReaderModel {
        unread: Seq::empty(),
        partial: Seq::empty(),
        queued: Seq::empty(),
        closed: false,
    };
    law_chunking_is_irrelevant(start, chunks);
    let page = page_of(fields, packets_lacing(packets), packets.flatten());
    let m = grown(start, chunks.flatten(), true);
    lemma_packets_read_back(packets);
    law_page_reads_back(fields, packets_lacing(packets), packets.flatten(), Seq::empty());
    assert(page + Seq::<u8>::empty() =~= page);
    assert(m.unread =~= page);
    let after = after_page(m);
    assert(after.unread.len() == 0);
    lemma_queued_come_first(after);
    let rest = ReaderModel { queued: Seq::empty(), ..after };
    assert(ready(rest).0.len() == 0 && ready(rest).1 is End);
    assert(packets + ready(rest).0 =~= packets);
    assert(next_packet(m) == next_packet(after));
    assert(ready(m) == ready(after));
}

/// What a page is made of.
pub struct PageParts {
    /// The header between its version and its number of lacing values: type,
    /// position, serial number, sequence number and checksum.
    pub fields: Seq<u8>,
    pub segments: Seq<u8>,
    pub payload: Seq<u8>,
}

impl PageParts {
    /// Whether the parts make a page.
    pub open spec fn fits(self) -> bool {
        self.fields.len() == 21 && self.segments.len() <= 255 && lacing_sum(self.segments)
            == self.payload.len()
    }

    /// The page.
    pub open spec fn page(self) -> Seq<u8> {
        page_of(self.fields, self.segments, self.payload)
    }
}

/// The bytes of pages in a row.
pub open spec fn pages_bytes(pages: Seq<PageParts>) -> Seq<u8>
    decreases pages.len(),
{
    if pages.len() == 0 {
        Seq::empty()
    } else {
        pages[0].page() + pages_bytes(pages.skip(1))
    }
}

/// The lacing values of pages in a row.
pub open spec fn pages_lacing(pages: Seq<PageParts>) -> Seq<u8>
    decreases pages.len(),
{
    if pages.len() == 0 {
        Seq::empty()
    } else {
        pages[0].segments + pages_lacing(pages.skip(1))
    }
}

/// The payloads of pages in a row.
pub open spec fn pages_payload(pages: Seq<PageParts>) -> Seq<u8>
    decreases pages.len(),
{
    if pages.len() == 0 {
        Seq::empty()
    } else {
        pages[0].payload + pages_payload(pages.skip(1))
    }
}

/// A reader before its first byte.
pub open spec fn reader_start() -> ReaderModel {
    ReaderModel {
        unread: Seq::empty(),
        partial: Seq::empty(),
        queued: Seq::empty(),
        closed: false,
    }
}

/// A reader with nothing left but pages gives the packets that their lacing
/// values cut out of their payloads, as if they were one page.
proof fn lemma_pages_ready(m: ReaderModel, pages: Seq<PageParts>)
    requires
        forall|i: int| 0 <= i < pages.len() ==> (#[trigger] pages[i]).fits(),
        m.unread == pages_bytes(pages),
        m.queued.len() == 0,
        m.closed,
    ensures
        lacing_sum(pages_lacing(pages)) == pages_payload(pages).len(),
        ready(m).0 == laced(m.partial, pages_lacing(pages), pages_payload(pages)).0,
        ready(m).1 == if laced(m.partial, pages_lacing(pages), pages_payload(pages)).1.len() == 0 {
            PollModel::End
        } else {
            PollModel::Fault(OggFault::TruncatedPacket)
        },
    decreases pages.len(),
{
    if pages.len() == 0 {
        assert(ready(m).0 =~= Seq::<Seq<u8>>::empty());
    } else {
        let first = pages[0];
        let others = pages.skip(1);
        let rest = pages_bytes(others);
        assert(first.fits());
        law_page_reads_back(first.fields, first.segments, first.payload, rest);
        let after = after_page(m);
        assert(after.unread =~= rest);
        let emptied = ReaderModel { queued: Seq::empty(), ..after };
        assert forall|i: int| 0 <= i < others.len() implies (#[trigger] others[i]).fits() by {
            assert(pages[i + 1].fits());
        }
        lemma_pages_ready(emptied, others);
        lemma_queued_come_first(after);
        assert(next_packet(m) == next_packet(after));
        assert(ready(m) == ready(after));
        lemma_lacing_sum_concat(first.segments, pages_lacing(others));
        law_packets_may_span_pages(
            m.partial,
            first.segments,
            pages_lacing(others),
            first.payload,
            pages_payload(others),
        );
    }
}

/// Any number of pages in a row, handed over in chunks of any size, give the
/// packets that all their lacing values cut out of all their payloads, as if
/// they were one page; then the stream ends, with a fault where the last packet
/// is not complete.
pub proof fn law_pages_in_a_row_are_one(pages: Seq<PageParts>, chunks: Seq<Seq<u8>>)
    requires
        forall|i: int| 0 <= i < pages.len() ==> (#[trigger] pages[i]).fits(),
        chunks.flatten() == pages_bytes(pages),
    ensures
        fed(reader_start(), chunks) == (
            laced(Seq::empty(), pages_lacing(pages), pages_payload(pages)).0,
            if laced(Seq::empty(), pages_lacing(pages), pages_payload(pages)).1.len() == 0 {
                PollModel::End
            } else {
                PollModel::Fault(OggFault::TruncatedPacket)
            },
        ),
{
    let m = grown(reader_start(), chunks.flatten(), true);
    law_chunking_is_irrelevant(reader_start(), chunks);
    assert(m.unread =~= pages_bytes(pages));
    lemma_pages_ready(m, pages);
}

/// Packets that were laced and cut into any number of pages, at any places, are
/// what a reader gives of the pages, and then the stream ends.
pub proof fn law_paged_packets_read_back(
    packets: Seq<Seq<u8>>,
    pages: Seq<PageParts>,
    chunks: Seq<Seq<u8>>,
)
    requires
        forall|i: int| 0 <= i < pages.len() ==> (#[trigger] pages[i]).fits(),
        pages_lacing(pages) == packets_lacing(packets),
        pages_payload(pages) == packets.flatten(),
        chunks.flatten() == pages_bytes(pages),
    ensures
        fed(reader_start(), chunks) == (packets, PollModel::End),
{
    lemma_packets_read_back(packets);
    law_pages_in_a_row_are_one(pages, chunks);
}

/// A fault takes the bytes that it was found in. After one at the end of the
/// input the stream ends, unless a packet is not complete, which is then
/// reported as often as it is asked for.
pub proof fn law_faults_take_their_bytes(m: ReaderModel)
    ensures
        next_packet(m).0 matches PollModel::Fault(fault) ==> {
            let after = next_packet(m).1;
            &&& after.queued.len() == 0
            &&& fault != OggFault::TruncatedPacket ==> after.unread.len() < m.unread.len()
            &&& fault == OggFault::InvalidHeader ==> after.unread.len() + 27 <= m.unread.len()
            &&& fault != OggFault::InvalidHeader ==> {
                &&& after.closed
                &&& after.unread.len() == 0
                &&& next_packet(after) == if after.partial.len() == 0 {
                    (PollModel::End, after)
                } else {
                    (PollModel::Fault(OggFault::TruncatedPacket), after)
                }
            }
        },
    decreases m.unread.len(),
{
    if m.queued.len() == 0 && parse_page(m.unread) is Page {
        law_faults_take_their_bytes(after_page(m));
    }
}

/// A stream that does not open with the capture pattern `OggS` and version zero is
/// no Ogg stream, whatever else its first 27 bytes hold and whether or not more
/// input follows.
pub proof fn law_other_streams_are_refused(m: ReaderModel)
    requires
        m.queued.len() == 0,
        m.unread.len() >= 27,
        m.unread.take(5) != seq![0x4fu8, 0x67, 0x67, 0x53, 0],
    ensures
        next_packet(m).0 == PollModel::Fault(OggFault::InvalidHeader),
{
    if page_opens(m.unread) {
        assert(m.unread.take(5) =~= seq![0x4fu8, 0x67, 0x67, 0x53, 0]);
    }
}

/// A page that is not there to its end is waited for as long as the input goes on.
/// Where the input ends, a header that is cut off is told from a page that is, and
/// a packet whose next page is missing from a stream that ended.
pub proof fn law_cut_pages_are_waited_for(
    m: ReaderModel,
    fields: Seq<u8>,
    segments: Seq<u8>,
    payload: Seq<u8>,
    kept: int,
)
    requires
        fields.len() == 21,
        segments.len() <= 255,
        lacing_sum(segments) == payload.len(),
        0 <= kept < 27 + segments.len() + payload.len(),
        m.queued.len() == 0,
        m.unread == page_of(fields, segments, payload).take(kept),
    ensures
        next_packet(m).0 == if !m.closed {
            PollModel::NeedMore
        } else if kept >= 27 {
            PollModel::Fault(OggFault::TruncatedPage)
        } else if kept > 0 {
            PollModel::Fault(OggFault::TruncatedHeader)
        } else if m.partial.len() > 0 {
            PollModel::Fault(OggFault::TruncatedPacket)
        } else {
            PollModel::End
        },
        !m.closed ==> next_packet(m).1 == m,
{
    let page = page_of(fields, segments, payload);
    let s = m.unread;
    if kept >= 27 {
        assert(s[26] == page[26]);
        assert(page[26] == segments.len());
        if kept >= 27 + segments.len() {
            assert(s.subrange(27, 27 + segments.len() as int) =~= segments);
        }
    }
}

/// A packet that opens with `OpusHead` or `OpusTags` is a header, whatever follows
/// and however long it is; any other packet is none.
pub proof fn law_headers_open_with_their_mark(rest: Seq<u8>, packet: Seq<u8>)
    ensures
        opus_header(seq![0x4fu8, 0x70, 0x75, 0x73, 0x48, 0x65, 0x61, 0x64] + rest),
        opus_header(seq![0x4fu8, 0x70, 0x75, 0x73, 0x54, 0x61, 0x67, 0x73] + rest),
        opus_header(packet) ==> packet.len() >= 8 && (packet.take(8) == seq![
            0x4fu8,
            0x70,
            0x75,
            0x73,
            0x48,
            0x65,
            0x61,
            0x64,
        ] || packet.take(8) == seq![0x4fu8, 0x70, 0x75, 0x73, 0x54, 0x61, 0x67, 0x73]),
{
    let head = seq![0x4fu8, 0x70, 0x75, 0x73, 0x48, 0x65, 0x61, 0x64];
    let tags = seq![0x4fu8, 0x70, 0x75, 0x73, 0x54, 0x61, 0x67, 0x73];
    assert(head =~= (head + rest).subrange(0, 8));
    assert(tags =~= (tags + rest).subrange(0, 8));
    if opus_header(packet) {
        assert(packet.take(8) =~= packet.subrange(0, 8));
    }
}

/// The audio packets that a stream gives until its answer is another, that answer,
/// and the state that follows.
pub open spec fn audio_ready(m: ReaderModel) -> (Seq<Seq<u8>>, PollModel, ReaderModel)
    decreases m.unread.len(), m.queued.len(),
    via audio_ready_decreases
{
    match next_audio(m) {
        (PollModel::Packet(packet), after) => {
            let (packets, answer, end) = audio_ready(after);
            (seq![packet] + packets, answer, end)
        },
        (answer, after) => (Seq::empty(), answer, after),
    }
}

#[via_fn]
proof fn audio_ready_decreases(m: ReaderModel) {
    lemma_next_audio_shrinks(m);
}

/// An audio packet that is handed out shrinks what is left to read.
proof fn lemma_next_audio_shrinks(m: ReaderModel)
    ensures
        next_audio(m).0 is Packet ==> {
            let after = next_audio(m).1;
            ||| after.unread.len() < m.unread.len()
            ||| after.unread.len() == m.unread.len() && after.queued.len() < m.queued.len()
        },
    decreases m.unread.len(), m.queued.len(),
{
    lemma_next_packet_shrinks(m);
    if let (PollModel::Packet(packet), after) = next_packet(m) {
        if opus_header(packet) {
            lemma_next_audio_shrinks(after);
        }
    }
}

/// The packets that are no headers, in their order.
pub open spec fn without_headers(packets: Seq<Seq<u8>>) -> Seq<Seq<u8>> {
    packets.filter(|packet: Seq<u8>| !opus_header(packet))
}

/// Packets in two runs are freed of headers run by run.
proof fn lemma_without_headers_concat(a: Seq<Seq<u8>>, b: Seq<Seq<u8>>)
    ensures
        without_headers(a + b) == without_headers(a) + without_headers(b),
{
    Seq::filter_distributes_over_add(a, b, |packet: Seq<u8>| !opus_header(packet));
}

/// A single packet is kept, or is a header.
proof fn lemma_without_headers_one(packet: Seq<u8>)
    ensures
        without_headers(seq![packet]) == if opus_header(packet) {
            Seq::<Seq<u8>>::empty()
        } else {
            seq![packet]
        },
        without_headers(Seq::empty()) == Seq::<Seq<u8>>::empty(),
{
    reveal_with_fuel(Seq::filter, 2);
    assert(seq![packet].drop_last() =~= Seq::empty());
    if opus_header(packet) {
        assert(without_headers(seq![packet]) =~= Seq::empty());
    } else {
        assert(without_headers(seq![packet]) =~= seq![packet]);
    }
}

/// An Opus stream gives the packets of its Ogg stream without the header
/// packets, in the same order, and ends as the Ogg stream does.
pub proof fn law_audio_is_what_is_no_header(m: ReaderModel)
    ensures
        audio_ready(m).0 == ready(m).0.filter(|packet: Seq<u8>| !opus_header(packet)),
        audio_ready(m).1 == ready(m).1,
        audio_ready(m).2 == ready(m).2,
    decreases m.unread.len(), m.queued.len(),
{
    lemma_next_packet_shrinks(m);
    lemma_next_audio_shrinks(m);
    if let (PollModel::Packet(packet), after) = next_packet(m) {
        law_audio_is_what_is_no_header(after);
        let rest = ready(after).0;
        lemma_without_headers_concat(seq![packet], rest);
        lemma_without_headers_one(packet);
        if opus_header(packet) {
            assert(Seq::<Seq<u8>>::empty() + without_headers(rest) =~= without_headers(rest));
            assert(next_audio(m) == next_audio(after));
            lemma_next_audio_shrinks(after);
            assert(audio_ready(m) == audio_ready(after));
        }
    } else {
        lemma_without_headers_one(Seq::empty());
    }
}

/// The audio packets and the last answer of an Opus stream that is given chunks one
/// by one, asked after each until it needs more, and then told that its input
/// ended.
pub open spec fn audio_fed(m: ReaderModel, chunks: Seq<Seq<u8>>) -> (Seq<Seq<u8>>, PollModel)
    decreases chunks.len(),
{
    if chunks.len() == 0 {
        let (packets, answer, _) = audio_ready(grown(m, Seq::empty(), true));
        (packets, answer)
    } else {
        let (packets, answer, after) = audio_ready(grown(m, chunks[0], false));
        if answer is NeedMore {
            let (others, last) = audio_fed(after, chunks.skip(1));
            (packets + others, last)
        } else {
            (packets, answer)
        }
    }
}

/// An Opus stream that is given chunks gives what the Ogg stream gives, without the
/// headers.
proof fn lemma_audio_fed(m: ReaderModel, chunks: Seq<Seq<u8>>)
    ensures
        audio_fed(m, chunks).0 == without_headers(fed(m, chunks).0),
        audio_fed(m, chunks).1 == fed(m, chunks).1,
    decreases chunks.len(),
{
    if chunks.len() == 0 {
        law_audio_is_what_is_no_header(grown(m, Seq::empty(), true));
    } else {
        let m1 = grown(m, chunks[0], false);
        law_audio_is_what_is_no_header(m1);
        let (packets, answer, after) = ready(m1);
        if answer is NeedMore {
            lemma_audio_fed(after, chunks.skip(1));
            lemma_without_headers_concat(packets, fed(after, chunks.skip(1)).0);
        }
    }
}

/// Packets among which there are no headers are all kept.
proof fn lemma_no_headers(packets: Seq<Seq<u8>>)
    requires
        forall|i: int| 0 <= i < packets.len() ==> !opus_header(#[trigger] packets[i]),
    ensures
        without_headers(packets) == packets,
    decreases packets.len(),
{
    if packets.len() == 0 {
        lemma_without_headers_one(Seq::empty());
        assert(packets =~= Seq::empty());
    } else {
        let front = packets.drop_last();
        assert forall|i: int| 0 <= i < front.len() implies !opus_header(#[trigger] front[i]) by {
            assert(!opus_header(packets[i]));
        }
        lemma_no_headers(front);
        assert(!opus_header(packets[packets.len() - 1]));
        lemma_without_headers_concat(front, seq![packets.last()]);
        lemma_without_headers_one(packets.last());
        assert(packets =~= front + seq![packets.last()]);
    }
}

/// What a converter writes is read as it was meant: a stream of an identification
/// header, a comment header of any length and audio packets, none of which opens
/// with a header's mark, gives exactly the audio packets, in their order and
/// whole, and then ends, however the packets are cut into pages and the pages into
/// chunks.
pub proof fn law_opus_streams_give_exactly_their_audio(
    head: Seq<u8>,
    tags: Seq<u8>,
    audio: Seq<Seq<u8>>,
    pages: Seq<PageParts>,
    chunks: Seq<Seq<u8>>,
)
    requires
        forall|i: int|
            0 <= i < audio.len() ==> {
                let packet = #[trigger] audio[i];
                packet.len() < 8 || (packet.take(8) != seq![
                    0x4fu8,
                    0x70,
                    0x75,
                    0x73,
                    0x48,
                    0x65,
                    0x61,
                    0x64,
                ] && packet.take(8) != seq![0x4fu8, 0x70, 0x75, 0x73, 0x54, 0x61, 0x67, 0x73])
            },
        forall|i: int| 0 <= i < pages.len() ==> (#[trigger] pages[i]).fits(),
        ({
            let packets = seq![
                seq![0x4fu8, 0x70, 0x75, 0x73, 0x48, 0x65, 0x61, 0x64] + head,
                seq![0x4fu8, 0x70, 0x75, 0x73, 0x54, 0x61, 0x67, 0x73] + tags,
            ] + audio;
            &&& pages_lacing(pages) == packets_lacing(packets)
            &&& pages_payload(pages) == packets.flatten()
        }),
        chunks.flatten() == pages_bytes(pages),
    ensures
        audio_fed(reader_start(), chunks) == (audio, PollModel::End),
{
    let first = seq![0x4fu8, 0x70, 0x75, 0x73, 0x48, 0x65, 0x61, 0x64] + head;
    let second = seq![0x4fu8, 0x70, 0x75, 0x73, 0x54, 0x61, 0x67, 0x73] + tags;
    let packets = seq![first, second] + audio;
    law_paged_packets_read_back(packets, pages, chunks);
    lemma_audio_fed(reader_start(), chunks);
    law_headers_open_with_their_mark(head, first);
    law_headers_open_with_their_mark(tags, second);
    assert forall|i: int| 0 <= i < audio.len() implies !opus_header(#[trigger] audio[i]) by {
        law_headers_open_with_their_mark(head, audio[i]);
    }
    lemma_no_headers(audio);
    lemma_without_headers_concat(seq![first, second], audio);
    lemma_without_headers_concat(seq![first], seq![second]);
    lemma_without_headers_one(first);
    lemma_without_headers_one(second);
    assert(seq![first, second] =~= seq![first] + seq![second]);
    assert(Seq::<Seq<u8>>::empty() + Seq::<Seq<u8>>::empty() + audio =~= audio);
}

/// Of a diagnostic up to 500 bytes are reported as they are, and of a longer one the
/// first 500 and three dots.
pub proof fn law_diagnostics_are_cut_at_500_bytes(stderr: Seq<u8>)
    ensures
        stderr.len() <= 500 ==> diagnostic_excerpt(stderr) == stderr,
        stderr.len() > 500 ==> diagnostic_excerpt(stderr).len() == 503 && diagnostic_excerpt(
            stderr,
        ).take(500) == stderr.take(500) && diagnostic_excerpt(stderr).skip(500) == seq![
            0x2eu8,
            0x2e,
            0x2e,
        ],
{
    if stderr.len() > 500 {
        assert(diagnostic_excerpt(stderr).take(500) =~= stderr.take(500));
        assert(diagnostic_excerpt(stderr).skip(500) =~= seq![0x2eu8, 0x2e, 0x2e]);
    }
}

/// A converter that succeeded is no failure, whatever it wrote. One that failed is,
/// and the failure says what it wrote, without white space around it, or its status
/// where it wrote nothing else.
pub proof fn law_exits_are_judged_by_their_status(
    status: Seq<char>,
    diagnostic: Seq<char>,
)
    ensures
        exit_failure(true, status, diagnostic) is None,
        exit_failure(false, status, diagnostic) == Some(
            crate::error::ErrorModel::Message(
                "ffmpeg failed: "@ + if text::trimmed(diagnostic).len() > 0 {
                    text::trimmed(diagnostic)
                } else {
                    status
                },
            ),
        ),
{
}

/// The words for each fault, and which faults mean that the input ended too early.
pub proof fn law_faults_have_their_words()
    ensures
        fault_text(OggFault::InvalidHeader) == "invalid Ogg page header"@,
        fault_text(OggFault::TruncatedHeader) == "truncated Ogg page header"@,
        fault_text(OggFault::TruncatedPage) == "early eof"@,
        fault_text(OggFault::TruncatedPacket) == "truncated Ogg packet"@,
{
}

/// A page that was built holds its type, its sequence number with the lowest byte
/// first, the number of its lacing values, these, and its payload.
pub proof fn law_built_pages_hold_their_fields(
    header_type: u8,
    sequence: u32,
    segments: Seq<u8>,
    payload: Seq<u8>,
)
    requires
        segments.len() <= 255,
    ensures
        ({
            let page = ogg_page(header_type, sequence, segments, payload);
            &&& page.len() == 27 + segments.len() + payload.len()
            &&& page[5] == header_type
            &&& sequence == page[18] + 256 * page[19] + 65536 * page[20] + 16777216 * page[21]
            &&& page[26] == segments.len()
            &&& page.subrange(27, 27 + segments.len() as int) == segments
            &&& page.skip(27 + segments.len() as int) == payload
            &&& forall|i: int| 6 <= i < 18 ==> #[trigger] page[i] == 0
            &&& forall|i: int| 22 <= i < 26 ==> #[trigger] page[i] == 0
        }),
{
    let page = ogg_page(header_type, sequence, segments, payload);
    assert(page.subrange(27, 27 + segments.len() as int) =~= segments);
    assert(page.skip(27 + segments.len() as int) =~= payload);
}

/// The converter is asked to read one input without a terminal, saying errors alone,
/// and to write its first audio stream as mono Opus at 16 kHz in frames of 20 ms to
/// standard output: each option stands right before its value.
pub proof fn law_converters_write_mono_opus()
    ensures
        input_options() == seq!["-nostdin"@, "-v"@, "error"@, "-i"@],
        output_options().len() == 18,
        output_options().take(9) == seq![
            "-map"@,
            "0:a:0"@,
            "-vn"@,
            "-af"@,
            "apad=pad_dur=0.02"@,
            "-ac"@,
            "1"@,
            "-ar"@,
            "16000"@,
        ],
        output_options().skip(9) == seq![
            "-c:a"@,
            "libopus"@,
            "-application"@,
            "audio"@,
            "-frame_duration"@,
            "20"@,
            "-f"@,
            "opus"@,
            "pipe:1"@,
        ],
{
}

/// The words for a page that cannot be built, which name both lengths where they differ.
pub proof fn law_unbuilt_pages_say_why(length: usize, payload: usize)
    ensures
        page_fault_text(PageFault::TooManySegments) == "too many Ogg segments"@,
        page_fault_text(PageFault::LacingMismatch { length, payload }) == "lacing length "@
            + text::decimal(length as nat) + " does not match payload "@ + text::decimal(
            payload as nat,
        ),
{
}

/// What a reader answers is known by the whole packet or the fault.
pub proof fn law_answers_of_readers_are_known_by_what_they_hold(packet: Vec<u8>, fault: OggFault)
    ensures
        poll_model(Ok(OggPoll::Packet(packet))) == PollModel::Packet(packet@),
        poll_model(Ok(OggPoll::NeedMore)) == PollModel::NeedMore,
        poll_model(Ok(OggPoll::End)) == PollModel::End,
        poll_model(Err(fault)) == PollModel::Fault(fault),
{
}

} // verus!
