use vstd::prelude::*;

use crate::backend::v4l2::decoder::stateless::BackendHandle;
use crate::backend::v4l2::decoder::view::BackendView;
use crate::backend::v4l2::decoder::stateless::PictureRef;
use crate::backend::v4l2::decoder::view::PictureView;
use crate::backend::v4l2::decoder::stateless::V4l2StatelessDecoderBackend;
use crate::backend::v4l2::decoder::stateless::V4l2StatelessDecoderHandle;
use crate::codec::h264::Dpb;
use crate::codec::h264::DpbEntry;
use crate::codec::h264::PictureData;
use crate::codec::h264::Pps;
use crate::codec::h264::Slice;
use crate::codec::h264::SliceHeader;
use crate::codec::h264::Sps;
use crate::decoder::stateless::StatelessBackendResult;
use crate::decoder::stateless::StatelessDecoder;
use crate::device::v4l2::stateless::buffer::TimeVal;
use crate::device::v4l2::stateless::controls::h264::dpb_timestamps;
use crate::device::v4l2::stateless::controls::h264::V4l2Ctrl;
use crate::device::v4l2::stateless::controls::h264::V4l2CtrlH264DecodeMode;
use crate::device::v4l2::stateless::controls::h264::V4l2CtrlH264DpbEntry;
use crate::device::v4l2::stateless::controls::h264::V4l2CtrlH264Pps;
use crate::device::v4l2::stateless::controls::h264::V4l2CtrlH264Sps;
use crate::device::v4l2::stateless::controls::h264::V4L2_H264_NUM_DPB_ENTRIES;
use crate::device::v4l2::stateless::request::start_code;
use crate::device::v4l2::stateless::request::V4l2Submission;
use crate::device::v4l2::stateless::request::START_CODE_LEN;
use crate::error::Error;
use crate::BlockingMode;

verus! {

/// The picture that entry `entry` of a decoded picture buffer refers to.
pub open spec fn referred(entry: DpbEntry<V4l2StatelessDecoderHandle>) -> PictureRef {
    entry.handle->Some_0.handle.picture
}

/// Every entry has a handle, and each handle names a picture of `backend`
/// that is alive.
pub open spec fn dpb_resolves(
    backend: BackendView,
    entries: Seq<DpbEntry<V4l2StatelessDecoderHandle>>,
) -> bool {
    forall|i: int|
        0 <= i < entries.len() ==> (#[trigger] entries[i]).handle is Some && backend.resolves(
            referred(entries[i]),
        )
}

/// The reference pictures as the device is to see them: one for each entry,
/// in the order of the entries, with the time stamp of the picture that the
/// entry refers to.
pub open spec fn reference_list(entries: Seq<DpbEntry<V4l2StatelessDecoderHandle>>) -> Seq<
    V4l2CtrlH264DpbEntry,
> {
    Seq::new(
        entries.len(),
        |i: int| V4l2CtrlH264DpbEntry { timestamp: referred(entries[i]).timestamp, pic: entries[i].pic },
    )
}

/// The pictures that the entries refer to, in the order of the entries.
pub open spec fn reference_pictures(entries: Seq<DpbEntry<V4l2StatelessDecoderHandle>>) -> Seq<
    PictureRef,
> {
    Seq::new(entries.len(), |i: int| referred(entries[i]))
}

/// The time stamps of the reference list are those of the pictures that the
/// entries refer to, in the order of the entries.
pub proof fn lemma_reference_order(entries: Seq<DpbEntry<V4l2StatelessDecoderHandle>>)
    ensures
        dpb_timestamps(reference_list(entries)) == Seq::new(
            entries.len(),
            |i: int| referred(entries[i]).timestamp,
        ),
{
    assert(dpb_timestamps(reference_list(entries)) =~= Seq::new(
        entries.len(),
        |i: int| referred(entries[i]).timestamp,
    ));
}

/// Whether a picture can be started on `picture` with the references of
/// `entries`: the picture and all references are alive.
pub open spec fn can_start(
    backend: BackendView,
    picture: PictureRef,
    entries: Seq<DpbEntry<V4l2StatelessDecoderHandle>>,
) -> bool {
    &&& backend.resolves(picture)
    &&& dpb_resolves(backend, entries)
}

/// The picture `after` is `before` with the control blocks of a started
/// picture: it keeps its time stamp and its frame, refers to the pictures of
/// `entries`, and its blocks say what the parameters say.
pub open spec fn started(
    before: PictureView,
    after: PictureView,
    picture_data: PictureData,
    sps: Sps,
    pps: Pps,
    entries: Seq<DpbEntry<V4l2StatelessDecoderHandle>>,
    slice_header: SliceHeader,
) -> bool {
    &&& after.timestamp == before.timestamp
    &&& after.buf == before.buf
    &&& after.provisioned == before.provisioned
    &&& after.ref_pic_list == reference_pictures(entries)
    &&& after.h264_sps == V4l2CtrlH264Sps::of(sps)
    &&& after.h264_pps == V4l2CtrlH264Pps::of(pps)
    &&& after.h264_decode_params.describes(picture_data, reference_list(entries), slice_header)
}

/// A picture that was started holds one reference for each entry of the
/// decoded picture buffer, in the order of the entries, each with the time
/// stamp of the picture that the entry refers to.
pub proof fn lemma_started_keeps_order(
    before: PictureView,
    after: PictureView,
    picture_data: PictureData,
    sps: Sps,
    pps: Pps,
    entries: Seq<DpbEntry<V4l2StatelessDecoderHandle>>,
    slice_header: SliceHeader,
)
    requires
        started(before, after, picture_data, sps, pps, entries, slice_header),
    ensures
        after.h264_decode_params.references().len() == entries.len(),
        forall|i: int|
            0 <= i < entries.len() ==> #[trigger] after.h264_decode_params.references()[i]
                == (V4l2CtrlH264DpbEntry {
                timestamp: referred(entries[i]).timestamp,
                pic: entries[i].pic,
            }),
        dpb_timestamps(after.h264_decode_params.references()) == Seq::new(
            entries.len(),
            |i: int| referred(entries[i]).timestamp,
        ),
        after.ref_pic_list.len() == entries.len(),
        forall|i: int|
            0 <= i < entries.len() ==> #[trigger] after.ref_pic_list[i] == referred(entries[i]),
{
    lemma_reference_order(entries);
}

/// What one slice asks of the device: the job to submit, and the buffer of
/// the queue of decoded frames that is to be queued for the frame. A
/// picture gets one such buffer, with its first slice; for every later slice
/// there is none.
#[derive(Debug)]
pub struct DecodeJob {
    pub request: V4l2Submission,
    pub capture_index: Option<usize>,
}

/// Why a slice of `len` bytes of `picture` cannot be handed to the device, if
/// it cannot. The reasons are tried in the order in which the slice goes its
/// way: the picture is not alive; no buffer of encoded data is free to take
/// the slice; the slice and its start code do not fit into the buffer; the
/// slice is the first of its picture and no buffer for the decoded frame is
/// free.
pub open spec fn slice_refusal(backend: BackendView, picture: PictureRef, len: nat) -> Option<
    Error,
> {
    if !backend.resolves(picture) {
        Some(Error::ProtocolViolation)
    } else if backend.output.num_free() == 0 {
        Some(Error::ResourceExhausted)
    } else if START_CODE_LEN + len > backend.output.plane_size {
        Some(Error::DeviceIo)
    } else if !backend.pictures[picture.id].provisioned && backend.capture.num_free() == 0 {
        Some(Error::ResourceExhausted)
    } else {
        None
    }
}

/// A slice finds no free buffer of encoded data: whatever its size, the
/// answer is `ResourceExhausted`, after which the caller polls and tries
/// again.
pub proof fn lemma_no_input_buffer_is_resource_exhausted(
    backend: BackendView,
    picture: PictureRef,
    len: nat,
)
    requires
        backend.resolves(picture),
        backend.output.num_free() == 0,
    ensures
        slice_refusal(backend, picture, len) == Some(Error::ResourceExhausted),
{
}

/// The control blocks that go with every slice of `picture`, in the order in
/// which the device is given them.
pub open spec fn slice_controls(picture: PictureView) -> Seq<V4l2Ctrl> {
    seq![
        V4l2Ctrl::H264Sps(picture.h264_sps),
        V4l2Ctrl::H264Pps(picture.h264_pps),
        V4l2Ctrl::H264DecodeParams(picture.h264_decode_params),
        V4l2Ctrl::H264DecodeMode(V4l2CtrlH264DecodeMode::FrameBased),
    ]
}

impl V4l2StatelessDecoderBackend {
    /// Keeps the parameters of the sequence that begins. Nothing is asked of
    /// the device.
    pub fn new_sequence(&mut self, sps: &Sps) -> (r: StatelessBackendResult<()>)
        ensures
            r is Ok,
            final(self)@ == (BackendView { sequence: Some(*sps), ..old(self)@ }),
    {
        self.set_sequence(*sps);
        Ok(())
    }

    /// Begins a picture under `timestamp` and registers it as in flight.
    /// Nothing is asked of the device. A picture that was registered under
    /// the same time stamp stays alive and leaves the registry: it is for
    /// the caller to keep the time stamps of the pictures in flight apart.
    pub fn new_picture(&mut self, _picture_data: &PictureData, timestamp: u64) -> (r:
        StatelessBackendResult<PictureRef>)
        requires
            old(self)@.wf(),
        ensures
            final(self)@.wf(),
            r matches Ok(picture) && picture.timestamp == timestamp && old(self)@.begins(
                picture,
                final(self)@,
            ),
    {
        Ok(self.register(timestamp))
    }

    /// Pictures that are coded as two fields are not supported.
    pub fn new_field_picture(
        &mut self,
        _picture_data: &PictureData,
        _timestamp: u64,
        _first_field: &V4l2StatelessDecoderHandle,
    ) -> (r: StatelessBackendResult<PictureRef>)
        ensures
            r == Err::<PictureRef, Error>(Error::Unimplemented),
            final(self)@ == old(self)@,
    {
        Err(Error::Unimplemented)
    }

    /// Writes the control blocks of `picture`: the sequence and picture
    /// parameters, and the references of `dpb` in the order of its entries.
    /// An entry without a handle, or whose handle names no picture that is
    /// alive, is a `ProtocolViolation`, and so is a picture that is not
    /// alive. Nothing is written then.
    pub fn start_picture(
        &mut self,
        picture: &PictureRef,
        picture_data: &PictureData,
        sps: &Sps,
        pps: &Pps,
        dpb: &Dpb<V4l2StatelessDecoderHandle>,
        slice_header: &SliceHeader,
    ) -> (r: StatelessBackendResult<()>)
        requires
            old(self)@.wf(),
        ensures
            final(self)@.wf(),
            r is Ok <==> can_start(old(self)@, *picture, dpb.spec_entries()),
            r matches Err(e) ==> e == Error::ProtocolViolation && final(self)@ == old(self)@,
            r is Ok ==> {
                &&& started(
                    old(self)@.pictures[picture.id],
                    final(self)@.pictures[picture.id],
                    *picture_data,
                    *sps,
                    *pps,
                    dpb.spec_entries(),
                    *slice_header,
                )
                &&& final(self)@ == (BackendView {
                    pictures: old(self)@.pictures.insert(
                        picture.id,
                        final(self)@.pictures[picture.id],
                    ),
                    ..old(self)@
                })
            },
    {
        if self.picture(picture).is_none() {
            return Err(Error::ProtocolViolation);
        }
        let entries: &Vec<DpbEntry<V4l2StatelessDecoderHandle>> = dpb.entries();
        let mut dpb_entries: Vec<V4l2CtrlH264DpbEntry> = Vec::new();
        let mut references: Vec<PictureRef> = Vec::new();
        let mut i: usize = 0;
        while i < entries.len()
            invariant
                i <= entries@.len(),
                *self == *old(self),
                self@.wf(),
                self@.resolves(*picture),
                entries@ == dpb.spec_entries(),
                entries@.len() <= V4L2_H264_NUM_DPB_ENTRIES,
                dpb_resolves(self@, entries@.take(i as int)),
                dpb_entries@ == reference_list(entries@.take(i as int)),
                references@ == reference_pictures(entries@.take(i as int)),
            decreases entries@.len() - i,
        {
            let ref_pic: PictureRef = match &entries[i].handle {
                Some(handle) => handle.handle.picture,
                None => {
                    assert(!(entries@[i as int].handle is Some));
                    return Err(Error::ProtocolViolation);
                },
            };
            if self.picture(&ref_pic).is_none() {
                assert(!self@.resolves(referred(entries@[i as int])));
                return Err(Error::ProtocolViolation);
            }
            dpb_entries.push(V4l2CtrlH264DpbEntry { timestamp: ref_pic.timestamp, pic: entries[i].pic });
            references.push(ref_pic);
            proof {
                let next = entries@.take(i as int + 1);
                assert(next.drop_last() =~= entries@.take(i as int));
                assert(dpb_entries@ =~= reference_list(next));
                assert(references@ =~= reference_pictures(next));
                assert forall|k: int| 0 <= k < next.len() implies (#[trigger] next[k]).handle is Some
                    && self@.resolves(referred(next[k])) by {
                    if k < i {
                        assert(entries@.take(i as int)[k] == next[k]);
                    }
                }
            }
            i = i + 1;
        }
        proof {
            assert(entries@.take(i as int) =~= entries@);
        }
        let (mut h264_sps, mut h264_pps, mut h264_decode_params) = match self.picture(picture) {
            Some(current) => (current.h264_sps, current.h264_pps, current.h264_decode_params),
            None => {
                return Err(Error::ProtocolViolation);
            },
        };
        h264_sps.set(sps);
        h264_pps.set(pps);
        h264_decode_params.set_picture_data(picture_data).set_dpb_entries(
            &dpb_entries,
        ).set_slice_header(slice_header);
        let written = self.write_controls(
            picture,
            h264_sps,
            h264_pps,
            h264_decode_params,
            references,
        );
        assert(written);
        Ok(())
    }

    /// Hands one slice of `picture` to the device: takes a free buffer of
    /// encoded data, opens a job on it with the time stamp and the control
    /// blocks of the picture and the bytes of the slice behind a start code,
    /// and submits it. With the first slice of a picture it also takes a free
    /// buffer for the decoded frame and queues it; the later slices of the
    /// picture decode into the same frame, and nothing more is queued for
    /// them. The answer says what the device is to be given.
    ///
    /// Nothing is changed where the slice cannot be handed over. A picture
    /// that is not alive is a `ProtocolViolation`. Where no buffer of encoded
    /// data is free the answer is `ResourceExhausted`, after which the caller
    /// polls and tries again. A slice that does not fit into the buffer
    /// fails with `DeviceIo`. Where the slice is the first of its picture and
    /// no buffer for the decoded frame is free, the answer is
    /// `ResourceExhausted` again.
    pub fn decode_slice(
        &mut self,
        picture: &PictureRef,
        slice: &Slice,
        _sps: &Sps,
        _pps: &Pps,
        _ref_pic_list0: &[&DpbEntry<V4l2StatelessDecoderHandle>],
        _ref_pic_list1: &[&DpbEntry<V4l2StatelessDecoderHandle>],
    ) -> (r: StatelessBackendResult<DecodeJob>)
        requires
            old(self)@.wf(),
            old(self)@.output.state is Streaming,
            old(self)@.capture.state is Streaming,
        ensures
            final(self)@.wf(),
            match r {
                Err(e) => slice_refusal(old(self)@, *picture, slice.nalu.spec_data().len())
                    == Some(e) && final(self)@ == old(self)@,
                Ok(job) => {
                    &&& slice_refusal(old(self)@, *picture, slice.nalu.spec_data().len()) is None
                    &&& old(self)@.output.first_free(job.request.index as int)
                    &&& job.request.timestamp == TimeVal::of_key(picture.timestamp)
                    &&& job.request.ctrls@ == slice_controls(old(self)@.pictures[picture.id])
                    &&& job.request.data@ == start_code() + slice.nalu.spec_data()
                    &&& job.capture_index is Some <==> !old(self)@.pictures[picture.id].provisioned
                    &&& job.capture_index matches Some(index) ==> old(self)@.capture.first_free(
                        index as int,
                    )
                    &&& final(self)@ == (BackendView {
                        output: old(self)@.output.allocated(job.request.index as int).queued(
                            job.request.index as int,
                            job.request.timestamp,
                        ),
                        ..old(self)@.provisioned(
                            picture.id,
                            match job.capture_index {
                                Some(index) => index as int,
                                None => 0,
                            },
                        )
                    })
                },
            },
    {
        let bytes: &[u8] = slice.nalu.data();
        let (timestamp, sps, pps, params, provisioned) = match self.picture(picture) {
            None => {
                return Err(Error::ProtocolViolation);
            },
            Some(found) => (
                found.timestamp,
                found.h264_sps,
                found.h264_pps,
                found.h264_decode_params,
                found.provisioned,
            ),
        };
        if self.output_queue().num_free_buffers() == 0 {
            return Err(Error::ResourceExhausted);
        }
        let plane_size: usize = self.output_queue().plane_size();
        if plane_size < START_CODE_LEN || plane_size - START_CODE_LEN < bytes.len() {
            return Err(Error::DeviceIo);
        }
        if !provisioned && self.capture_queue().num_free_buffers() == 0 {
            return Err(Error::ResourceExhausted);
        }
        let capture_index: Option<usize> = match self.provision_frame(picture) {
            Ok(queued) => queued,
            Err(e) => {
                assert(false);
                return Err(e);
            },
        };
        let ghost seen_to = self@;
        let buf = match self.output_queue_mut().alloc_buffer() {
            Ok(buf) => buf,
            Err(e) => {
                assert(false);
                return Err(e);
            },
        };
        let mut request = self.device().alloc_request(buf);
        request.set_timestamp(timestamp).set_ctrl(V4l2Ctrl::H264Sps(sps)).set_ctrl(
            V4l2Ctrl::H264Pps(pps),
        ).set_ctrl(V4l2Ctrl::H264DecodeParams(params)).set_ctrl(
            V4l2Ctrl::H264DecodeMode(V4l2CtrlH264DecodeMode::FrameBased),
        );
        let written = request.set_data(bytes);
        assert(written is Ok);
        assert(request@.ctrls =~= slice_controls(old(self)@.pictures[picture.id]));
        assert(request@.data =~= start_code() + slice.nalu.spec_data());
        let request = match request.submit(self.output_queue_mut()) {
            Ok(job) => job,
            Err(e) => {
                assert(false);
                return Err(e);
            },
        };
        proof {
            seen_to.lemma_frames_kept(self@);
        }
        Ok(DecodeJob { request, capture_index })
    }

    /// Wraps `picture` in a handle. The picture is in flight from here on,
    /// and its frame arrives with a later poll.
    pub fn submit_picture(&mut self, picture: PictureRef) -> (r: StatelessBackendResult<
        V4l2StatelessDecoderHandle,
    >)
        ensures
            r == Ok::<V4l2StatelessDecoderHandle, Error>(
                V4l2StatelessDecoderHandle { handle: BackendHandle { picture } },
            ),
            final(self)@ == old(self)@,
    {
        Ok(V4l2StatelessDecoderHandle { handle: BackendHandle { picture } })
    }
}

impl StatelessDecoder {
    /// Creates a new instance of the decoder using the v4l2 backend.
    pub fn new_v4l2(blocking_mode: BlockingMode) -> (d: Self)
        ensures
            d.blocking_mode == blocking_mode,
            d.backend@ == V4l2StatelessDecoderBackend::initial(),
            d.backend@.wf(),
    {
        StatelessDecoder { backend: V4l2StatelessDecoderBackend::new(), blocking_mode }
    }
}

} // verus!
