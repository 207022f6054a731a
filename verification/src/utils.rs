use bytes::Buf;
use vstd::prelude::*;

use crate::codec::h264::Nalu;
use crate::codec::h264::NaluType;
use crate::decoder::DecodeError;
use crate::BlockingMode;

verus! {

/// A H.264 Access Unit.
#[derive(Debug)]
pub struct AccessUnit<'a> {
    pub nalus: Vec<Nalu<'a>>,
}

/// A parser that produces Access Units from a list of NALUs. It does not use
/// section 7.4.1.2.4 of the H.264 standard for the detection of the first VCL
/// NAL unit of a primary coded picture and instead uses an heuristic from
/// GStreamer that works well enough for most streams.
#[derive(Debug)]
pub struct AccessUnitParser<'a> {
    picture_started: bool,
    nalus: Vec<Nalu<'a>>,
}

/// Whether `nalu`, arriving while a picture is open or not, completes an
/// access unit.
pub open spec fn closes_access_unit(picture_started: bool, nalu: Nalu) -> bool {
    let t = nalu.spec_header().type_;
    picture_started && (t is AuDelimiter || t.is_parameter_or_sei() || (t.leads_with_first_mb()
        && nalu.first_mb_is_zero()))
}

impl<'a> AccessUnitParser<'a> {
    /// Whether a slice of the picture under way has been seen.
    pub closed spec fn picture_started(&self) -> bool {
        self.picture_started
    }

    /// The units gathered since the last access unit was handed out.
    pub closed spec fn pending(&self) -> Seq<Nalu<'a>> {
        self.nalus@
    }

    /// A picture that has begun has left at least its first slice among the
    /// units gathered.
    pub open spec fn wf(&self) -> bool {
        self.picture_started() ==> self.pending().len() > 0
    }

    pub fn new() -> (p: Self)
        ensures
            !p.picture_started(),
            p.pending() == Seq::<Nalu<'a>>::empty(),
    {
        AccessUnitParser { picture_started: false, nalus: Vec::new() }
    }

    /// Hands out the units gathered so far, whether they make up an access
    /// unit or not, and keeps none.
    pub fn take_pending(&mut self) -> (nalus: Vec<Nalu<'a>>)
        ensures
            nalus@ == old(self).pending(),
            final(self).pending() == Seq::<Nalu<'a>>::empty(),
            final(self).picture_started() == old(self).picture_started(),
    {
        let mut nalus: Vec<Nalu<'a>> = Vec::new();
        std::mem::swap(&mut self.nalus, &mut nalus);
        nalus
    }

    /// Use GStreamer's gsth264parse's heuristic to break into access units.
    /// Only yields back an access unit if:
    /// We had previously established that a picture had started and an AUD is seen.
    /// We had previously established that a picture had started, but SEI|SPS|PPS is seen.
    /// We had previously established that a picture had started, and the
    /// current slice refers to the next picture.
    ///
    /// An access unit delimiter that closes a unit is left out of it; any
    /// other closing unit is its last member.
    pub fn accumulate(&mut self, nalu: Nalu<'a>) -> (au: Option<AccessUnit<'a>>)
        ensures
            au is Some <==> closes_access_unit(old(self).picture_started(), nalu),
            au matches Some(unit) ==> {
                &&& !final(self).picture_started()
                &&& final(self).pending() == Seq::<Nalu<'a>>::empty()
                &&& unit.nalus@ == if nalu.spec_header().type_ is AuDelimiter {
                    old(self).pending()
                } else {
                    old(self).pending().push(nalu)
                }
            },
            au is None ==> {
                &&& final(self).pending() == old(self).pending().push(nalu)
                &&& final(self).picture_started() == (old(self).picture_started()
                    || nalu.spec_header().type_.starts_picture())
            },
            old(self).wf() ==> final(self).wf() && (au matches Some(unit) ==> unit.nalus@.len()
                > 0),
    {
        let t: NaluType = nalu.header().nalu_type();
        if self.picture_started {
            let closes: bool = match t {
                NaluType::AuDelimiter | NaluType::Sei | NaluType::Sps | NaluType::Pps => true,
                NaluType::Slice | NaluType::SliceDpa | NaluType::SliceIdr => {
                    nalu.leads_with_zero_code()
                },
                _ => false,
            };
            match t {
                NaluType::AuDelimiter => {},
                _ => {
                    self.nalus.push(nalu);
                },
            }
            if closes {
                self.picture_started = false;
                let mut nalus: Vec<Nalu<'a>> = Vec::new();
                std::mem::swap(&mut self.nalus, &mut nalus);
                return Some(AccessUnit { nalus });
            }
            None
        } else {
            self.nalus.push(nalu);
            self.picture_started = match t {
                NaluType::Slice
                | NaluType::SliceDpa
                | NaluType::SliceDpb
                | NaluType::SliceDpc
                | NaluType::SliceIdr
                | NaluType::SliceExt => true,
                _ => false,
            };
            None
        }
    }
}

impl<'a> Default for AccessUnitParser<'a> {
    fn default() -> (p: Self)
        ensures
            !p.picture_started(),
            p.pending() == Seq::<Nalu<'a>>::empty(),
    {
        AccessUnitParser::new()
    }
}


/// The number of bytes at the start of an IVF file that describe the file.
pub const IVF_FILE_HEADER_LEN: usize = 32;

/// The number of bytes before each frame of an IVF file: the length of the
/// frame in four bytes, then its presentation time in eight.
pub const IVF_FRAME_HEADER_LEN: usize = 12;

/// The number that four bytes stand for, the lowest byte first.
pub open spec fn le_u32(bytes: Seq<u8>) -> u32 {
    (bytes[0] as u32 + bytes[1] as u32 * 0x100 + bytes[2] as u32 * 0x1_0000 + bytes[3] as u32
        * 0x100_0000) as u32
}

/// `bytes::Buf::get_u32_le` on the bytes of `data` from `pos` on: the number
/// that the four bytes at `pos` stand for, the lowest byte first. Asks for
/// four bytes to be there, without which the call panics.
#[verifier::external_body]
fn get_u32_le(data: &[u8], pos: usize) -> (v: u32)
    requires
        pos + 4 <= data@.len(),
    ensures
        v == le_u32(data@.subrange(pos as int, pos + 4)),
{
    let mut rest: &[u8] = &data[pos..];
    rest.get_u32_le()
}

/// Iterator over IVF packets.
pub struct IvfIterator<'a> {
    data: &'a [u8],
    pos: usize,
}

/// The number of bytes from `pos` to the end of `len` bytes, none where
/// `pos` lies behind the end.
pub open spec fn bytes_left(len: nat, pos: usize) -> nat {
    if pos >= len {
        0
    } else {
        (len - pos) as nat
    }
}

impl<'a> IvfIterator<'a> {
    /// The bytes of the file.
    pub closed spec fn data(&self) -> Seq<u8> {
        self.data@
    }

    /// The place of the next frame header.
    pub closed spec fn position(&self) -> usize {
        self.pos
    }

    /// The length that the frame header at the position announces.
    pub open spec fn announced(&self) -> nat {
        le_u32(self.data().subrange(self.position() as int, self.position() + 4)) as nat
    }

    /// A frame header is left at the position, whole.
    pub open spec fn has_header(&self) -> bool {
        bytes_left(self.data().len(), self.position()) >= IVF_FRAME_HEADER_LEN
    }

    /// A frame header is left at the position, and so are as many bytes
    /// behind it as it announces.
    pub open spec fn has_frame(&self) -> bool {
        self.has_header() && bytes_left(self.data().len(), self.position())
            - IVF_FRAME_HEADER_LEN >= self.announced()
    }

    /// Starts behind the header of the file.
    pub fn new(data: &'a [u8]) -> (it: Self)
        ensures
            it.data() == data@,
            it.position() == IVF_FILE_HEADER_LEN,
    {
        // Skip the IVH header entirely.
        IvfIterator { data, pos: IVF_FILE_HEADER_LEN }
    }

    /// The next frame. Where no whole frame header is left the iteration is
    /// over and the iterator stays where it is. Where the header announces
    /// more bytes than are left, the iteration is over as well, and the
    /// iterator stands behind the header.
    pub fn next(&mut self) -> (frame: Option<&'a [u8]>)
        ensures
            final(self).data() == old(self).data(),
            frame is Some <==> old(self).has_frame(),
            !old(self).has_header() ==> final(self).position() == old(self).position(),
            old(self).has_header() && !old(self).has_frame() ==> final(self).position() == old(
                self,
            ).position() + IVF_FRAME_HEADER_LEN,
            frame matches Some(bytes) ==> {
                &&& final(self).position() == old(self).position() + IVF_FRAME_HEADER_LEN + old(
                    self,
                ).announced()
                &&& bytes@ == old(self).data().subrange(
                    old(self).position() + IVF_FRAME_HEADER_LEN,
                    final(self).position() as int,
                )
            },
    {
        let total: usize = self.data.len();
        // Make sure we have a header.
        if self.pos >= total || total - self.pos < IVF_FRAME_HEADER_LEN {
            return None;
        }
        let len: usize = get_u32_le(self.data, self.pos) as usize;
        // Skip PTS.
        self.pos = self.pos + IVF_FRAME_HEADER_LEN;

        if total - self.pos < len {
            return None;
        }
        let start: usize = self.pos;
        self.pos = self.pos + len;
        let end: usize = self.pos;

        Some(vstd::slice::slice_subrange(self.data, start, end))
    }
}

/// The units lie within a stream of `len` bytes, one behind the other.
pub open spec fn in_stream_order(len: nat, nalus: Seq<Nalu>) -> bool {
    &&& forall|i: int| 0 <= i < nalus.len() ==> (#[trigger] nalus[i]).spec_end() <= len
    &&& forall|i: int, j: int|
        0 <= i < j < nalus.len() ==> (#[trigger] nalus[i]).spec_end() <= (
        #[trigger] nalus[j]).spec_sc_offset()
}

/// What the parser does with the units of `nalus` from `from` on, up to the
/// first access unit: that unit, if one is completed, the place behind the
/// unit that completed it, and what the parser then knows.
pub open spec fn scan<'a>(
    started: bool,
    pending: Seq<Nalu<'a>>,
    nalus: Seq<Nalu<'a>>,
    from: int,
) -> (Option<Seq<Nalu<'a>>>, int, bool, Seq<Nalu<'a>>)
    decreases nalus.len() - from,
{
    if from < 0 || from >= nalus.len() {
        (None, from, started, pending)
    } else if closes_access_unit(started, nalus[from]) {
        (
            Some(
                if nalus[from].spec_header().type_ is AuDelimiter {
                    pending
                } else {
                    pending.push(nalus[from])
                },
            ),
            from + 1,
            false,
            Seq::empty(),
        )
    } else {
        scan(
            started || nalus[from].spec_header().type_.starts_picture(),
            pending.push(nalus[from]),
            nalus,
            from + 1,
        )
    }
}

/// The bytes of `stream` from the start code of the first of `unit` to the
/// end of its last.
pub open spec fn span(stream: Seq<u8>, unit: Seq<Nalu>) -> Seq<u8> {
    stream.subrange(unit.first().spec_sc_offset() as int, unit.last().spec_end())
}

/// Iterator over groups of Nalus that can contain a whole frame.
pub struct H264FrameIterator<'a> {
    stream: &'a [u8],
    nalus: Vec<Nalu<'a>>,
    next: usize,
    aud_parser: AccessUnitParser<'a>,
}

impl<'a> H264FrameIterator<'a> {
    pub closed spec fn stream(&self) -> Seq<u8> {
        self.stream@
    }

    /// The units of the stream, in their order.
    pub closed spec fn nalus(&self) -> Seq<Nalu<'a>> {
        self.nalus@
    }

    /// The number of units that the parser has been given.
    pub closed spec fn consumed(&self) -> int {
        self.next as int
    }

    pub closed spec fn picture_started(&self) -> bool {
        self.aud_parser.picture_started()
    }

    /// The units that the parser has gathered and not handed out.
    pub closed spec fn pending(&self) -> Seq<Nalu<'a>> {
        self.aud_parser.pending()
    }

    /// What holds of the iterator between two calls.
    pub closed spec fn wf(&self) -> bool {
        &&& self.next <= self.nalus@.len()
        &&& in_stream_order(self.stream@.len(), self.nalus@)
        &&& self.next < self.nalus@.len() ==> self.aud_parser.wf()
        &&& self.pending().len() > 0 ==> {
            &&& self.next > 0
            &&& self.pending().first().spec_sc_offset() <= self.pending().last().spec_end()
            &&& self.pending().last().spec_end() <= self.nalus@[self.next - 1].spec_end()
        }
    }

    /// An iterator over `stream`, whose units a parser found to be `nalus`.
    /// `None` where the units do not lie within the stream one behind the
    /// other.
    pub fn new(stream: &'a [u8], nalus: Vec<Nalu<'a>>) -> (r: Option<Self>)
        ensures
            r is Some <==> in_stream_order(stream@.len(), nalus@),
            r matches Some(it) ==> {
                &&& it.wf()
                &&& it.stream() == stream@
                &&& it.nalus() == nalus@
                &&& it.consumed() == 0
                &&& !it.picture_started()
                &&& it.pending() == Seq::<Nalu<'a>>::empty()
            },
    {
        let mut i: usize = 0;
        let mut last_end: usize = 0;
        while i < nalus.len()
            invariant
                i <= nalus@.len(),
                in_stream_order(stream@.len(), nalus@.take(i as int)),
                i == 0 ==> last_end == 0,
                i > 0 ==> last_end == nalus@[i - 1].spec_end(),
                forall|k: int| 0 <= k < i ==> (#[trigger] nalus@[k]).spec_end() <= last_end,
            decreases nalus@.len() - i,
        {
            let start: usize = nalus[i].sc_offset();
            let end: usize = nalus[i].end();
            if start < last_end || end > stream.len() {
                proof {
                    if in_stream_order(stream@.len(), nalus@) {
                        if end > stream.len() {
                            assert(nalus@[i as int].spec_end() <= stream@.len());
                        } else {
                            assert(nalus@[i - 1].spec_end() <= nalus@[i as int].spec_sc_offset());
                        }
                    }
                }
                return None;
            }
            proof {
                let next = nalus@.take(i as int + 1);
                assert forall|a: int| 0 <= a < next.len() implies (#[trigger] next[a]).spec_end()
                    <= stream@.len() by {
                    if a < i {
                        assert(nalus@.take(i as int)[a] == next[a]);
                    }
                }
                assert forall|a: int, b: int| 0 <= a < b < next.len() implies (
                #[trigger] next[a]).spec_end() <= (#[trigger] next[b]).spec_sc_offset() by {
                    if b < i {
                        assert(nalus@.take(i as int)[a] == next[a]);
                        assert(nalus@.take(i as int)[b] == next[b]);
                    } else {
                        assert(next[a] == nalus@[a]);
                    }
                }
            }
            last_end = end;
            i = i + 1;
        }
        proof {
            assert(nalus@.take(i as int) =~= nalus@);
        }
        Some(H264FrameIterator { stream, nalus, next: 0, aud_parser: AccessUnitParser::new() })
    }

    /// The next group of units: the bytes of the stream from the start code
    /// of its first unit to the end of its last. The units are given to the
    /// parser one by one until an access unit is complete. Once the stream
    /// is used up, the units that are left make up one last group.
    pub fn next(&mut self) -> (frame: Option<&'a [u8]>)
        requires
            old(self).wf(),
        ensures
            final(self).wf(),
            final(self).stream() == old(self).stream(),
            final(self).nalus() == old(self).nalus(),
            ({
                let (unit, consumed, started, pending) = scan(
                    old(self).picture_started(),
                    old(self).pending(),
                    old(self).nalus(),
                    old(self).consumed(),
                );
                &&& final(self).consumed() == consumed
                &&& final(self).picture_started() == started
                &&& match unit {
                    Some(unit) => {
                        &&& final(self).pending() == pending
                        &&& frame matches Some(bytes) && bytes@ == span(old(self).stream(), unit)
                    },
                    None => {
                        &&& final(self).pending() == Seq::<Nalu<'a>>::empty()
                        &&& if pending.len() > 0 {
                            frame matches Some(bytes) && bytes@ == span(old(self).stream(), pending)
                        } else {
                            frame is None
                        }
                    },
                }
            }),
    {
        while self.next < self.nalus.len()
            invariant
                self.wf(),
                self.stream == old(self).stream,
                self.nalus == old(self).nalus,
                scan(
                    self.picture_started(),
                    self.pending(),
                    self.nalus(),
                    self.consumed(),
                ) == scan(
                    old(self).picture_started(),
                    old(self).pending(),
                    old(self).nalus(),
                    old(self).consumed(),
                ),
            decreases self.nalus@.len() - self.next,
        {
            let nalu: Nalu<'a> = self.nalus[self.next];
            let ghost before = *self;
            let nalu_start: usize = nalu.sc_offset();
            let nalu_end: usize = nalu.end();
            self.next = self.next + 1;
            proof {
                if before.pending().len() > 0 {
                    assert(before.nalus@[before.next - 1].spec_end()
                        <= before.nalus@[before.next as int].spec_sc_offset());
                }
            }
            if let Some(access_unit) = self.aud_parser.accumulate(nalu) {
                let start_nalu: &Nalu<'a> = &access_unit.nalus[0];
                let end_nalu: &Nalu<'a> = &access_unit.nalus[access_unit.nalus.len() - 1];

                let start_offset: usize = start_nalu.sc_offset();
                let end_offset: usize = end_nalu.end();
                let len: usize = self.stream.len();
                proof {
                    assert(nalu.spec_end() <= self.stream@.len());
                    assert(access_unit.nalus@.first().spec_sc_offset()
                        <= access_unit.nalus@.last().spec_end());
                    assert(access_unit.nalus@.last().spec_end() <= nalu.spec_end());
                }

                let data: &'a [u8] = vstd::slice::slice_subrange(
                    self.stream,
                    start_offset,
                    end_offset,
                );

                return Some(data);
            }
        }

        // Process any left over NALUs, even if we could not fit them into an AU using the
        // heuristic.
        let nalus: Vec<Nalu<'a>> = self.aud_parser.take_pending();
        if nalus.len() > 0 {
            let start_nalu: &Nalu<'a> = &nalus[0];
            let end_nalu: &Nalu<'a> = &nalus[nalus.len() - 1];

            let start_offset: usize = start_nalu.sc_offset();
            let end_offset: usize = end_nalu.end();
            let len: usize = self.stream.len();
            proof {
                assert(self.nalus@[self.next - 1].spec_end() <= self.stream@.len());
            }

            let data: &'a [u8] = vstd::slice::slice_subrange(self.stream, start_offset, end_offset);

            Some(data)
        } else {
            None
        }
    }
}


/// What a simple playback asks its caller to do next.
#[derive(Clone, Copy, Debug, PartialEq, Eq, Structural)]
pub enum PlaybackAction {
    /// Offer packet `packet` to the decoder with time stamp `frame_num`, and
    /// report what it answered.
    Decode { frame_num: u64, packet: usize },
    /// Ask the decoder for its next event, and report which it was.
    NextEvent,
    /// Show the frame of the event that was just reported.
    ShowFrame,
    /// Have the decoder decode what it still holds back.
    Flush,
    /// The stream has been played.
    Finish,
    /// The decoder failed: give up with its error.
    Abort(DecodeError),
}

/// What a decoder answered when it was asked for its next event.
#[derive(Clone, Copy, Debug, PartialEq, Eq, Structural)]
pub enum PlaybackEvent {
    /// A frame is ready to be shown.
    FrameReady,
    /// The format of the stream has changed.
    FormatChanged,
    /// No event is waiting.
    NoEvent,
}

/// What the caller of a simple playback reports of the action it was asked
/// for.
#[derive(Clone, Copy, Debug, PartialEq, Eq)]
pub enum PlaybackAnswer {
    /// The action is done and has nothing to tell.
    Nothing,
    /// What the decoder answered to the packet it was offered.
    Decoded(Result<(), DecodeError>),
    /// The stream has no packet left to offer.
    EndOfStream,
    /// What the decoder answered when it was asked for its next event.
    Event(PlaybackEvent),
}

/// Where a simple playback stands.
#[derive(Clone, Copy, Debug, PartialEq, Eq, Structural)]
pub enum PlaybackPhase {
    /// The next packet is to be offered, or the decoder flushed where none
    /// is left.
    Offer,
    /// A packet was offered, and the answer of the decoder is awaited.
    Await,
    /// The events of the decoder are being fetched, one by one.
    Fetch,
    /// Nothing is left to do.
    Done,
}

/// A simple playback, seen from the contracts: the number of packets that
/// the stream has at most, the mode, the number of packets that the decoder
/// has taken, where the playback stands, and whether the decoder has been
/// flushed.
pub struct PlaybackView {
    pub num_packets: usize,
    pub blocking_mode: BlockingMode,
    pub taken: usize,
    pub phase: PlaybackPhase,
    pub flushed: bool,
}

impl PlaybackView {
    /// What to do where a packet is to be offered: offer it, or flush the
    /// decoder where none is left; and the playback after that.
    pub open spec fn offer(self) -> (PlaybackView, PlaybackAction) {
        if self.taken < self.num_packets {
            (
                PlaybackView { phase: PlaybackPhase::Await, ..self },
                PlaybackAction::Decode { frame_num: self.taken as u64, packet: self.taken },
            )
        } else {
            (
                PlaybackView { phase: PlaybackPhase::Fetch, flushed: true, ..self },
                PlaybackAction::Flush,
            )
        }
    }

    /// What to do next, and the playback after that.
    ///
    /// While a packet is offered, only the answer of the decoder to it
    /// counts, or the word that the stream has run out, behind which the
    /// decoder is flushed: without either the offer is made again. While
    /// events are
    /// fetched, only the event that the decoder answered counts: without one
    /// it is asked again. A frame that is ready is shown, a change of format
    /// is passed over, and once no event waits the playback goes on with the
    /// next packet, or ends where the decoder has been flushed.
    pub open spec fn step(self, answer: PlaybackAnswer) -> (PlaybackView, PlaybackAction) {
        match self.phase {
            PlaybackPhase::Offer => self.offer(),
            PlaybackPhase::Await => match answer {
                PlaybackAnswer::Decoded(Ok(())) => {
                    let next = PlaybackView {
                        taken: (self.taken + 1) as usize,
                        phase: PlaybackPhase::Offer,
                        ..self
                    };
                    if self.blocking_mode == BlockingMode::Blocking {
                        (
                            PlaybackView { phase: PlaybackPhase::Fetch, ..next },
                            PlaybackAction::NextEvent,
                        )
                    } else {
                        next.offer()
                    }
                },
                PlaybackAnswer::Decoded(Err(DecodeError::CheckEvents)) => (
                    PlaybackView { phase: PlaybackPhase::Fetch, ..self },
                    PlaybackAction::NextEvent,
                ),
                PlaybackAnswer::Decoded(Err(e)) => (
                    PlaybackView { phase: PlaybackPhase::Done, ..self },
                    PlaybackAction::Abort(e),
                ),
                PlaybackAnswer::EndOfStream => (
                    PlaybackView { phase: PlaybackPhase::Fetch, flushed: true, ..self },
                    PlaybackAction::Flush,
                ),
                _ => (
                    self,
                    PlaybackAction::Decode { frame_num: self.taken as u64, packet: self.taken },
                ),
            },
            PlaybackPhase::Fetch => match answer {
                PlaybackAnswer::Event(PlaybackEvent::FrameReady) => (
                    self,
                    PlaybackAction::ShowFrame,
                ),
                PlaybackAnswer::Event(PlaybackEvent::NoEvent) => if self.flushed {
                    (PlaybackView { phase: PlaybackPhase::Done, ..self }, PlaybackAction::Finish)
                } else {
                    (PlaybackView { phase: PlaybackPhase::Offer, ..self }).offer()
                },
                _ => (self, PlaybackAction::NextEvent),
            },
            PlaybackPhase::Done => (self, PlaybackAction::Finish),
        }
    }

    /// What holds of a playback at all times: no more packets are taken than
    /// the stream can have, one that is awaited is within that number, and
    /// behind the flush of the decoder only its events are fetched.
    pub open spec fn wf(self) -> bool {
        &&& self.taken <= self.num_packets
        &&& self.phase is Await ==> self.taken < self.num_packets
        &&& self.flushed ==> self.phase is Fetch || self.phase is Done
        &&& self.phase is Done ==> self.flushed || self.taken < self.num_packets
    }

    /// A step keeps what holds of a playback.
    pub proof fn lemma_step_wf(self, answer: PlaybackAnswer)
        requires
            self.wf(),
        ensures
            self.step(answer).0.wf(),
    {
    }

    /// A packet is offered under its place in the stream, and only while it
    /// is the first that the decoder has not taken.
    pub proof fn lemma_offers_in_order(self, answer: PlaybackAnswer)
        requires
            self.wf(),
        ensures
            self.step(answer).1 matches PlaybackAction::Decode { frame_num, packet } ==> {
                &&& packet == self.step(answer).0.taken
                &&& packet < self.num_packets
                &&& frame_num == packet
                &&& self.step(answer).0.phase is Await
            },
    {
    }

    /// The count of packets taken never falls, and rises by one exactly
    /// when the decoder has taken the packet that was offered.
    pub proof fn lemma_taken_counts_answers(self, answer: PlaybackAnswer)
        requires
            self.wf(),
        ensures
            self.step(answer).0.taken == self.taken + (if self.phase is Await && (answer
                matches PlaybackAnswer::Decoded(Ok(_))) {
                1int
            } else {
                0int
            }),
            self.step(answer).0.num_packets == self.num_packets,
            self.step(answer).0.blocking_mode == self.blocking_mode,
    {
    }

    /// A frame is shown once for each event that says a frame is ready, and
    /// for nothing else; behind it the decoder is asked for its next event.
    pub proof fn lemma_shows_each_ready_frame(self, answer: PlaybackAnswer)
        requires
            self.wf(),
        ensures
            self.step(answer).1 is ShowFrame <==> self.phase is Fetch && answer
                == PlaybackAnswer::Event(PlaybackEvent::FrameReady),
            self.step(answer).1 is ShowFrame ==> self.step(answer).0.step(
                PlaybackAnswer::Nothing,
            ).1 is NextEvent,
            self.phase is Fetch && answer == PlaybackAnswer::Event(PlaybackEvent::FormatChanged)
                ==> self.step(answer) == (self, PlaybackAction::NextEvent),
    {
    }

    /// The decoder is flushed once, when no packet is left: the stream has
    /// run out, or as many packets are taken as it can have. Behind the
    /// flush its events are fetched, and once none waits the playback is
    /// over.
    pub proof fn lemma_flush_ends_the_stream(self, answer: PlaybackAnswer)
        requires
            self.wf(),
            self.step(answer).1 is Flush,
        ensures
            !self.flushed,
            self.step(answer).0.flushed,
            self.step(answer).0.taken == self.num_packets || (self.phase is Await && answer
                == PlaybackAnswer::EndOfStream),
            self.step(answer).0.step(PlaybackAnswer::Nothing).1 is NextEvent,
            self.step(answer).0.step(PlaybackAnswer::Event(PlaybackEvent::NoEvent)).1 is Finish,
    {
    }

    /// A playback that is done stays done, one that gave up is done, and
    /// the end is announced only behind a flush or once the playback is done.
    pub proof fn lemma_done_is_final(self, answer: PlaybackAnswer)
        requires
            self.wf(),
        ensures
            self.phase is Done ==> self.step(answer) == (self, PlaybackAction::Finish),
            self.step(answer).1 is Abort ==> self.step(answer).0.phase is Done,
            self.step(answer).1 is Finish ==> self.step(answer).0.phase is Done && (self.flushed
                || self.phase is Done),
    {
    }
}

/// A simple playback, which plays a stream once from start to finish: the
/// decisions of the loop, one at a time. Its caller does what `step` asks
/// and calls `step` again with what there is to report.
///
/// Each packet goes to the decoder with its place in the stream as its time
/// stamp; the caller takes the packets from the stream one by one, as they
/// are asked for, and says so when the stream has run out. A decoder that
/// asks for its events to be checked gets them fetched
/// and is offered the packet again; in blocking mode the events are fetched
/// behind every packet as well. Of the events, each frame that is ready is
/// shown. At the end the decoder is flushed and its events are fetched one
/// last time. Any other error of the decoder ends the playback.
#[derive(Clone, Copy, Debug)]
pub struct SimplePlayback {
    num_packets: usize,
    blocking_mode: BlockingMode,
    taken: usize,
    phase: PlaybackPhase,
    flushed: bool,
}

impl View for SimplePlayback {
    type V = PlaybackView;

    closed spec fn view(&self) -> PlaybackView {
        PlaybackView {
            num_packets: self.num_packets,
            blocking_mode: self.blocking_mode,
            taken: self.taken,
            phase: self.phase,
            flushed: self.flushed,
        }
    }
}

impl SimplePlayback {
    #[verifier::type_invariant]
    closed spec fn inv(&self) -> bool {
        self@.wf()
    }

    /// A playback of a stream of `num_packets` packets at most, of which none
    /// has been offered.
    pub fn new(num_packets: usize, blocking_mode: BlockingMode) -> (p: Self)
        ensures
            p@ == (PlaybackView {
                num_packets,
                blocking_mode,
                taken: 0,
                phase: PlaybackPhase::Offer,
                flushed: false,
            }),
            p@.wf(),
    {
        SimplePlayback {
            num_packets,
            blocking_mode,
            taken: 0,
            phase: PlaybackPhase::Offer,
            flushed: false,
        }
    }

    /// Whether nothing is left to do.
    pub fn is_done(&self) -> (b: bool)
        ensures
            b == (self@.phase is Done),
    {
        self.phase == PlaybackPhase::Done
    }

    /// The number of packets that the decoder has taken.
    pub fn taken(&self) -> (n: usize)
        ensures
            n == self@.taken,
            n <= self@.num_packets,
    {
        proof {
            use_type_invariant(self);
        }
        self.taken
    }

    fn next_offer(&mut self) -> (action: PlaybackAction)
        requires
            old(self)@.phase is Offer,
        ensures
            (final(self)@, action) == old(self)@.offer(),
    {
        proof {
            use_type_invariant(&*self);
        }
        if self.taken < self.num_packets {
            self.phase = PlaybackPhase::Await;
            PlaybackAction::Decode { frame_num: self.taken as u64, packet: self.taken }
        } else {
            self.phase = PlaybackPhase::Fetch;
            self.flushed = true;
            PlaybackAction::Flush
        }
    }

    /// Says what to do next, given what the caller reports of the action it
    /// was asked for last.
    pub fn step(&mut self, answer: PlaybackAnswer) -> (action: PlaybackAction)
        ensures
            old(self)@.wf(),
            final(self)@.wf(),
            (final(self)@, action) == old(self)@.step(answer),
    {
        proof {
            use_type_invariant(&*self);
        }
        match self.phase {
            PlaybackPhase::Offer => self.next_offer(),
            PlaybackPhase::Await => match answer {
                PlaybackAnswer::Decoded(Ok(())) => {
                    if self.blocking_mode == BlockingMode::Blocking {
                        self.phase = PlaybackPhase::Fetch;
                        self.taken = self.taken + 1;
                        PlaybackAction::NextEvent
                    } else {
                        // Go on with the next packet if we sent the current one
                        // successfully.
                        self.phase = PlaybackPhase::Offer;
                        self.taken = self.taken + 1;
                        self.next_offer()
                    }
                },
                PlaybackAnswer::Decoded(Err(DecodeError::CheckEvents)) => {
                    self.phase = PlaybackPhase::Fetch;
                    PlaybackAction::NextEvent
                },
                PlaybackAnswer::Decoded(Err(e)) => {
                    self.phase = PlaybackPhase::Done;
                    PlaybackAction::Abort(e)
                },
                PlaybackAnswer::EndOfStream => {
                    self.phase = PlaybackPhase::Fetch;
                    self.flushed = true;
                    PlaybackAction::Flush
                },
                _ => PlaybackAction::Decode { frame_num: self.taken as u64, packet: self.taken },
            },
            PlaybackPhase::Fetch => match answer {
                PlaybackAnswer::Event(PlaybackEvent::FrameReady) => PlaybackAction::ShowFrame,
                PlaybackAnswer::Event(PlaybackEvent::NoEvent) => {
                    if self.flushed {
                        self.phase = PlaybackPhase::Done;
                        PlaybackAction::Finish
                    } else {
                        self.phase = PlaybackPhase::Offer;
                        self.next_offer()
                    }
                },
                _ => PlaybackAction::NextEvent,
            },
            PlaybackPhase::Done => PlaybackAction::Finish,
        }
    }
}

} // verus!
