use std::collections::HashMap;
use vstd::prelude::*;

use crate::backend::v4l2::decoder::view::BackendView;
use crate::backend::v4l2::decoder::view::PictureView;
use crate::codec::h264::Sps;
use crate::decoder::StreamInfo;
use crate::device::v4l2::stateless::buffer::flattened;
use crate::device::v4l2::stateless::buffer::lemma_flattened_len;
use crate::device::v4l2::stateless::buffer::planes_view;
use crate::device::v4l2::stateless::buffer::total_len;
use crate::device::v4l2::stateless::buffer::BufferState;
use crate::device::v4l2::stateless::buffer::DqBufReply;
use crate::device::v4l2::stateless::buffer::V4l2CaptureCompletion;
use crate::device::v4l2::stateless::buffer::TimeVal;
use crate::device::v4l2::stateless::buffer::V4l2CaptureDqBuf;
use crate::device::v4l2::stateless::controls::h264::V4l2CtrlH264DecodeParams;
use crate::device::v4l2::stateless::controls::h264::V4l2CtrlH264Pps;
use crate::device::v4l2::stateless::controls::h264::V4l2CtrlH264Sps;
use crate::device::v4l2::stateless::device::V4l2Device;
use crate::device::v4l2::stateless::format::Format;
use crate::device::v4l2::stateless::queue_view::QueueView;
use crate::device::v4l2::stateless::queue::V4l2CaptureQueue;
use crate::device::v4l2::stateless::queue::V4l2OutputQueue;
use crate::error::Error;
use crate::DecodedFormat;
use crate::Resolution;

verus! {

/// Names a picture of a backend: the place where the backend keeps it and
/// the time stamp it was begun with.
#[derive(Clone, Copy, Debug, PartialEq, Eq, Structural)]
pub struct PictureRef {
    pub id: u64,
    pub timestamp: u64,
}

/// One coded frame on its way through the device.
#[derive(Debug)]
pub struct V4l2Picture {
    pub timestamp: u64,
    pub buf: Option<V4l2CaptureDqBuf>,
    /// Whether a buffer for the decoded frame has gone to the device. A
    /// picture gets one, with its first slice.
    pub provisioned: bool,
    pub ref_pic_list: Vec<PictureRef>,
    pub h264_sps: V4l2CtrlH264Sps,
    pub h264_pps: V4l2CtrlH264Pps,
    pub h264_decode_params: V4l2CtrlH264DecodeParams,
}

impl View for V4l2Picture {
    type V = PictureView;

    open spec fn view(&self) -> PictureView {
        PictureView {
            timestamp: self.timestamp,
            buf: match self.buf {
                Some(buf) => Some(buf@),
                None => None,
            },
            provisioned: self.provisioned,
            ref_pic_list: self.ref_pic_list@,
            h264_sps: self.h264_sps,
            h264_pps: self.h264_pps,
            h264_decode_params: self.h264_decode_params,
        }
    }
}

impl V4l2Picture {
    pub fn new(timestamp: u64) -> (p: Self)
        ensures
            p@.is_fresh(timestamp),
    {
        V4l2Picture {
            timestamp,
            buf: None,
            provisioned: false,
            ref_pic_list: Vec::new(),
            h264_sps: V4l2CtrlH264Sps::default(),
            h264_pps: V4l2CtrlH264Pps::default(),
            h264_decode_params: V4l2CtrlH264DecodeParams::default(),
        }
    }

    /// Whether the decoded frame has arrived.
    pub fn is_ready(&self) -> (b: bool)
        ensures
            b == (self@.buf is Some),
    {
        self.buf.is_some()
    }

    /// Attaches the decoded frame and lets go of the references. A picture
    /// that has its frame stays as it is and answers `ProtocolViolation`.
    pub fn attach(&mut self, buf: V4l2CaptureDqBuf) -> (r: Result<(), Error>)
        ensures
            match r {
                Ok(()) => old(self)@.attached(buf@) == Ok::<PictureView, Error>(final(self)@),
                Err(e) => old(self)@.attached(buf@) == Err::<PictureView, Error>(e) && final(self)@
                    == old(self)@,
            },
    {
        if self.buf.is_some() {
            return Err(Error::ProtocolViolation);
        }
        self.buf = Some(buf);
        self.ref_pic_list.clear();
        Ok(())
    }

    /// The number of bytes of the decoded frame, all planes together, where
    /// the frame has arrived and that number is one that `usize` can hold.
    pub fn checked_image_size(&self) -> (size: Option<usize>)
        ensures
            size is Some <==> self@.buf is Some && total_len(self@.buf->Some_0.planes)
                <= usize::MAX,
            size matches Some(n) ==> n == total_len(self@.buf->Some_0.planes),
    {
        let buf: &V4l2CaptureDqBuf = match self.buf.as_ref() {
            Some(buf) => buf,
            None => {
                return None;
            },
        };
        proof {
            buf.lemma_view();
        }
        let ghost planes = buf.spec_planes();
        let mut size: usize = 0;
        let mut i: usize = 0;
        while i < buf.num_planes()
            invariant
                i <= planes.len(),
                planes == buf.spec_planes(),
                self@.buf is Some,
                self@.buf->Some_0.planes == planes,
                size == total_len(planes.take(i as int)),
            decreases planes.len() - i,
        {
            proof {
                assert(planes.take(i as int + 1).drop_last() =~= planes.take(i as int));
                lemma_total_len_prefix(planes, i as int + 1);
            }
            let plane: &Vec<u8> = buf.plane(i);
            proof {
                assert(planes.take(i as int + 1).last() == plane@);
                assert(total_len(planes.take(i as int + 1)) == size + plane@.len());
            }
            if plane.len() > usize::MAX - size {
                return None;
            }
            size = size + plane.len();
            i = i + 1;
        }
        assert(planes.take(i as int) =~= planes);
        Some(size)
    }

    /// The number of bytes of the decoded frame, all planes together.
    pub fn image_size(&self) -> (size: usize)
        requires
            self@.buf is Some,
            total_len(self@.buf->Some_0.planes) <= usize::MAX,
        ensures
            size == total_len(self@.buf->Some_0.planes),
    {
        let buf: &V4l2CaptureDqBuf = self.buf.as_ref().unwrap();
        proof {
            buf.lemma_view();
        }
        let ghost planes = buf.spec_planes();
        let mut size: usize = 0;
        let mut i: usize = 0;
        while i < buf.num_planes()
            invariant
                i <= planes.len(),
                planes == buf.spec_planes(),
                size == total_len(planes.take(i as int)),
                total_len(planes) <= usize::MAX,
            decreases planes.len() - i,
        {
            proof {
                assert(planes.take(i as int + 1).drop_last() =~= planes.take(i as int));
                lemma_total_len_prefix(planes, i as int + 1);
            }
            let plane: &Vec<u8> = buf.plane(i);
            size = size + plane.len();
            i = i + 1;
        }
        assert(planes.take(i as int) =~= planes);
        size
    }

    /// Copies the decoded frame to the front of `data`, one plane after the
    /// other, and leaves the rest of `data` as it was.
    pub fn read(&self, data: &mut [u8]) -> (r: Result<(), Error>)
        requires
            self@.buf is Some,
            total_len(self@.buf->Some_0.planes) <= old(data)@.len(),
        ensures
            r is Ok,
            final(data)@ == flattened(self@.buf->Some_0.planes) + old(data)@.skip(
                total_len(self@.buf->Some_0.planes) as int,
            ),
    {
        let buf: &V4l2CaptureDqBuf = self.buf.as_ref().unwrap();
        proof {
            buf.lemma_view();
        }
        let ghost planes = buf.spec_planes();
        let ghost before = data@;
        let len: usize = data.len();
        let mut offset: usize = 0;
        let mut i: usize = 0;
        while i < buf.num_planes()
            invariant
                i <= planes.len(),
                planes == buf.spec_planes(),
                offset == total_len(planes.take(i as int)),
                total_len(planes) <= before.len(),
                before.len() == len,
                data@.len() == before.len(),
                data@ == flattened(planes.take(i as int)) + before.skip(offset as int),
            decreases planes.len() - i,
        {
            let plane: &Vec<u8> = buf.plane(i);
            let ghost prefix = flattened(planes.take(i as int));
            let ghost start = data@;
            proof {
                assert(planes.take(i as int + 1).drop_last() =~= planes.take(i as int));
                assert(planes.take(i as int + 1).last() == plane@);
                lemma_total_len_prefix(planes, i as int + 1);
                lemma_flattened_len(planes.take(i as int));
                assert(total_len(planes.take(i as int + 1)) == offset + plane@.len());
                assert(flattened(planes.take(i as int + 1)) == prefix + plane@);
            }
            let mut k: usize = 0;
            while k < plane.len()
                invariant
                    k <= plane@.len(),
                    offset + plane@.len() <= before.len(),
                    before.len() == len,
                    data@.len() == before.len(),
                    start.len() == before.len(),
                    forall|j: int| 0 <= j < offset ==> data@[j] == start[j],
                    forall|j: int| 0 <= j < k ==> data@[offset + j] == plane@[j],
                    forall|j: int| offset + k <= j < before.len() ==> data@[j] == start[j],
                decreases plane@.len() - k,
            {
                data[offset + k] = plane[k];
                k = k + 1;
            }
            proof {
                let target = (prefix + plane@) + before.skip(offset + plane@.len());
                assert(data@.len() == target.len());
                assert forall|j: int| 0 <= j < data@.len() implies data@[j] == target[j] by {
                    if j < offset {
                        assert(start[j] == prefix[j]);
                    } else if j < offset + plane@.len() {
                        assert(data@[offset + (j - offset)] == plane@[j - offset]);
                    } else {
                        assert(start[j] == before.skip(offset as int)[j - offset]);
                    }
                }
                assert(data@ =~= target);
            }
            offset = offset + plane.len();
            i = i + 1;
        }
        assert(planes.take(i as int) =~= planes);
        Ok(())
    }
}

/// The planes up to a place are no longer than all the planes.
pub proof fn lemma_total_len_prefix(planes: Seq<Seq<u8>>, n: int)
    requires
        0 <= n <= planes.len(),
    ensures
        total_len(planes.take(n)) <= total_len(planes),
    decreases planes.len() - n,
{
    if n < planes.len() {
        assert(planes.take(n + 1).drop_last() =~= planes.take(n));
        lemma_total_len_prefix(planes, n + 1);
    } else {
        assert(planes.take(n) =~= planes);
    }
}

/// The backend's side of a handle: the picture it stands for.
#[derive(Clone, Copy, Debug, PartialEq, Eq, Structural)]
pub struct BackendHandle {
    pub picture: PictureRef,
}

/// What the codec state machine and the consumer hold of a decoded picture.
/// Any number of handles may stand for one picture.
#[derive(Clone, Copy, Debug, PartialEq, Eq, Structural)]
pub struct V4l2StatelessDecoderHandle {
    pub handle: BackendHandle,
}

impl BackendHandle {
    /// The picture with its decoded frame, for reading. `None` where the
    /// frame has not arrived: the caller polls the device, runs a poll cycle
    /// and asks again. A handle whose picture is not alive is a
    /// `ProtocolViolation`.
    pub fn dyn_mappable_handle<'a>(&self, backend: &'a V4l2StatelessDecoderBackend) -> (r: Result<
        Option<&'a V4l2Picture>,
        Error,
    >)
        ensures
            r is Ok <==> backend@.resolves(self.picture),
            r matches Err(e) ==> e == Error::ProtocolViolation,
            r matches Ok(found) ==> (found is Some <==> backend@.pictures[self.picture.id].buf
                is Some),
            r matches Ok(Some(picture)) ==> picture@ == backend@.pictures[self.picture.id],
    {
        match backend.picture(&self.picture) {
            None => Err(Error::ProtocolViolation),
            Some(picture) => {
                if picture.is_ready() {
                    Ok(Some(picture))
                } else {
                    Ok(None)
                }
            },
        }
    }
}

impl V4l2StatelessDecoderHandle {
    /// The backend's side of the handle.
    pub fn dyn_picture(&self) -> (h: BackendHandle)
        ensures
            h == self.handle,
    {
        self.handle
    }

    /// Whether the decoded frame of the picture has arrived.
    pub fn is_ready(&self, backend: &V4l2StatelessDecoderBackend) -> (b: bool)
        ensures
            b == (backend@.resolves(self.handle.picture)
                && backend@.pictures[self.handle.picture.id].buf is Some),
    {
        match backend.picture(&self.handle.picture) {
            None => false,
            Some(picture) => picture.is_ready(),
        }
    }

    /// The time stamp that the picture was begun with.
    pub fn timestamp(&self) -> (t: u64)
        ensures
            t == self.handle.picture.timestamp,
    {
        self.handle.picture.timestamp
    }

    /// Nothing is to be waited for here: the frame arrives with a poll.
    pub fn sync(&self) -> (r: Result<(), Error>)
        ensures
            r is Ok,
    {
        Ok(())
    }
}


/// The number of buffers asked for encoded data.
pub const NUM_OUTPUT_BUFFERS: u32 = 8;

/// The number of buffers asked for decoded frames.
pub const NUM_CAPTURE_BUFFERS: u32 = 8;

/// The backend of a stateless decoder: the device, its two queues, the
/// pictures that are alive and the registry of those in flight.
pub struct V4l2StatelessDecoderBackend {
    stream_info: StreamInfo,
    sequence: Option<Sps>,
    device: V4l2Device,
    output_queue: V4l2OutputQueue,
    capture_queue: V4l2CaptureQueue,
    pictures: HashMap<u64, V4l2Picture>,
    next_id: u64,
    cur_pic_list: HashMap<u64, u64>,
}

impl View for V4l2StatelessDecoderBackend {
    type V = BackendView;

    closed spec fn view(&self) -> BackendView {
        BackendView {
            device: self.device,
            output: self.output_queue@,
            capture: self.capture_queue@,
            output_requested: self.output_queue.spec_requested_buffers(),
            capture_requested: self.capture_queue.spec_requested_buffers(),
            pictures: Map::new(
                |id: u64| self.pictures@.contains_key(id),
                |id: u64| self.pictures@[id]@,
            ),
            registry: self.cur_pic_list@,
            next_id: self.next_id,
            sequence: self.sequence,
            stream_info: self.stream_info,
        }
    }
}

impl V4l2StatelessDecoderBackend {
    /// What a backend assumes of a stream before it has seen it.
    pub open spec fn initial_stream_info() -> StreamInfo {
        StreamInfo {
            format: DecodedFormat::I420,
            min_num_frames: 4,
            coded_resolution: Resolution { width: 320, height: 200 },
            display_resolution: Resolution { width: 320, height: 200 },
        }
    }

    /// A backend as it starts out: no picture, and queues that are not set up
    /// yet.
    pub open spec fn initial() -> BackendView {
        BackendView {
            device: V4l2Device::initial(),
            output: QueueView::fresh(),
            capture: QueueView::fresh(),
            output_requested: NUM_OUTPUT_BUFFERS,
            capture_requested: NUM_CAPTURE_BUFFERS,
            pictures: Map::empty(),
            registry: Map::empty(),
            next_id: 0,
            sequence: None,
            stream_info: Self::initial_stream_info(),
        }
    }

    /// A backend with no picture, whose queues are not set up yet.
    pub fn new() -> (b: Self)
        ensures
            b@ == Self::initial(),
            b@.wf(),
    {
        let device = V4l2Device::new();
        let output_queue = V4l2OutputQueue::new(NUM_OUTPUT_BUFFERS);
        let capture_queue = V4l2CaptureQueue::new(NUM_CAPTURE_BUFFERS);
        let b = V4l2StatelessDecoderBackend {
            stream_info: StreamInfo {
                format: DecodedFormat::I420,
                min_num_frames: 4,
                coded_resolution: Resolution { width: 320, height: 200 },
                display_resolution: Resolution { width: 320, height: 200 },
            },
            sequence: None,
            device,
            output_queue,
            capture_queue,
            pictures: HashMap::new(),
            next_id: 0,
            cur_pic_list: HashMap::new(),
        };
        assert(b@.pictures =~= Map::<u64, PictureView>::empty());
        b
    }

    /// The device that the backend decodes on.
    pub fn device(&self) -> (d: &V4l2Device)
        ensures
            *d == self@.device,
    {
        &self.device
    }

    /// The queue of encoded data.
    pub fn output_queue(&self) -> (q: &V4l2OutputQueue)
        ensures
            q@ == self@.output,
            q.spec_requested_buffers() == self@.output_requested,
    {
        &self.output_queue
    }

    /// The queue of decoded frames.
    pub fn capture_queue(&self) -> (q: &V4l2CaptureQueue)
        ensures
            q@ == self@.capture,
            q.spec_requested_buffers() == self@.capture_requested,
    {
        &self.capture_queue
    }

    /// The queue of encoded data, to work on. What is done to the queue is
    /// done to the backend.
    pub fn output_queue_mut(&mut self) -> (q: &mut V4l2OutputQueue)
        ensures
            q@ == old(self)@.output,
            q.spec_requested_buffers() == old(self)@.output_requested,
            final(self)@ == (BackendView {
                output: final(q)@,
                output_requested: final(q).spec_requested_buffers(),
                ..old(self)@
            }),
    {
        &mut self.output_queue
    }

    /// The queue of decoded frames, to work on. What is done to the queue is
    /// done to the backend.
    fn capture_queue_mut(&mut self) -> (q: &mut V4l2CaptureQueue)
        ensures
            q@ == old(self)@.capture,
            q.spec_requested_buffers() == old(self)@.capture_requested,
            final(self)@ == (BackendView {
                capture: final(q)@,
                capture_requested: final(q).spec_requested_buffers(),
                ..old(self)@
            }),
    {
        &mut self.capture_queue
    }

    /// Tells the queue of encoded data what the device answered to the
    /// setup: the format it settled on and the number of buffers it
    /// granted. A failure leaves the queue as it was.
    pub fn set_output_resolution(&mut self, negotiated: Option<Format>, granted: Option<usize>) -> (r:
        Result<(), Error>)
        requires
            old(self)@.wf(),
        ensures
            final(self)@.wf(),
            match r {
                Ok(()) => old(self)@.output.after_setup(negotiated, granted) == Ok::<
                    QueueView,
                    Error,
                >(final(self)@.output) && final(self)@ == (BackendView {
                    output: final(self)@.output,
                    ..old(self)@
                }),
                Err(e) => old(self)@.output.after_setup(negotiated, granted) == Err::<
                    QueueView,
                    Error,
                >(e) && final(self)@ == old(self)@,
            },
    {
        let r = self.output_queue.set_resolution(negotiated, granted);
        proof {
            old(self)@.lemma_frames_kept(self@);
        }
        r
    }

    /// Tells the queue of decoded frames what the device answered to the
    /// setup: the format it reports and the number of buffers it granted.
    /// A failure leaves the queue as it was.
    pub fn set_capture_resolution(&mut self, negotiated: Option<Format>, granted: Option<usize>) -> (r:
        Result<(), Error>)
        requires
            old(self)@.wf(),
        ensures
            final(self)@.wf(),
            match r {
                Ok(()) => old(self)@.capture.after_setup(negotiated, granted) == Ok::<
                    QueueView,
                    Error,
                >(final(self)@.capture) && final(self)@ == (BackendView {
                    capture: final(self)@.capture,
                    ..old(self)@
                }),
                Err(e) => old(self)@.capture.after_setup(negotiated, granted) == Err::<
                    QueueView,
                    Error,
                >(e) && final(self)@ == old(self)@,
            },
    {
        let r = self.capture_queue.set_resolution(negotiated, granted);
        proof {
            old(self)@.lemma_frames_kept(self@);
        }
        r
    }

    /// Records that the device has finished buffer `index` of encoded data.
    /// A buffer that was not with the device is a `ProtocolViolation`.
    pub fn output_completed(&mut self, index: usize) -> (r: Result<(), Error>)
        requires
            old(self)@.wf(),
        ensures
            final(self)@.wf(),
            r is Ok <==> old(self)@.output.holds(index as int, BufferState::Queued),
            r is Ok ==> final(self)@ == (BackendView {
                output: old(self)@.output.completed(
                    index as int,
                    old(self)@.output.buffers[index as int].timestamp,
                    old(self)@.output.buffers[index as int].planes,
                ),
                ..old(self)@
            }),
            r matches Err(e) ==> e == Error::ProtocolViolation && final(self)@ == old(self)@,
    {
        let r = self.output_queue.complete(index);
        proof {
            old(self)@.lemma_frames_kept(self@);
        }
        r
    }

    /// Records that the device has decoded a frame into buffer `index`:
    /// `planes`, stamped with the `timestamp` of the job it belongs to. A
    /// buffer that was not with the device is a `ProtocolViolation`.
    pub fn capture_completed(&mut self, index: usize, timestamp: TimeVal, planes: Vec<Vec<u8>>) -> (r:
        Result<(), Error>)
        requires
            old(self)@.wf(),
        ensures
            final(self)@.wf(),
            r is Ok <==> old(self)@.capture.holds(index as int, BufferState::Queued),
            r is Ok ==> final(self)@ == (BackendView {
                capture: old(self)@.capture.completed(index as int, timestamp, planes_view(planes@)),
                ..old(self)@
            }),
            r matches Err(e) ==> e == Error::ProtocolViolation && final(self)@ == old(self)@,
    {
        let r = self.capture_queue.complete(index, timestamp, planes);
        proof {
            assert forall|i: int| !#[trigger] self@.capture.holds(i, BufferState::PreQueue) by {
                if self@.capture.holds(i, BufferState::PreQueue) {
                    assert(old(self)@.capture.holds(i, BufferState::PreQueue));
                }
            }
            old(self)@.lemma_frames_kept(self@);
        }
        r
    }

    /// Takes what the device answered when it was asked for a finished
    /// buffer of encoded data, and says whether it is to be asked again: yes
    /// behind a finished buffer, which is recorded, no where it has finished
    /// none. A buffer that was not with the device is a `ProtocolViolation`,
    /// any other failure of the device `DeviceIo`.
    pub fn output_answered(&mut self, reply: DqBufReply<usize>) -> (r: Result<bool, Error>)
        requires
            old(self)@.wf(),
        ensures
            final(self)@.wf(),
            match reply {
                DqBufReply::Finished(index) => if old(self)@.output.holds(
                    index as int,
                    BufferState::Queued,
                ) {
                    r == Ok::<bool, Error>(true) && final(self)@ == (BackendView {
                        output: old(self)@.output.completed(
                            index as int,
                            old(self)@.output.buffers[index as int].timestamp,
                            old(self)@.output.buffers[index as int].planes,
                        ),
                        ..old(self)@
                    })
                } else {
                    r == Err::<bool, Error>(Error::ProtocolViolation) && final(self)@ == old(self)@
                },
                DqBufReply::NotReady => r == Ok::<bool, Error>(false) && final(self)@ == old(self)@,
                DqBufReply::Failed => r == Err::<bool, Error>(Error::DeviceIo) && final(self)@
                    == old(self)@,
            },
    {
        let r = self.output_queue.take_answer(reply);
        proof {
            old(self)@.lemma_frames_kept(self@);
        }
        r
    }

    /// Takes what the device answered when it was asked for a decoded frame,
    /// and says whether it is to be asked again: yes behind a frame, which is
    /// recorded, no where it has finished none. A buffer that was not with
    /// the device is a `ProtocolViolation`, any other failure of the device
    /// `DeviceIo`.
    pub fn capture_answered(&mut self, reply: DqBufReply<V4l2CaptureCompletion>) -> (r: Result<
        bool,
        Error,
    >)
        requires
            old(self)@.wf(),
        ensures
            final(self)@.wf(),
            match reply {
                DqBufReply::Finished(frame) => if old(self)@.capture.holds(
                    frame.index as int,
                    BufferState::Queued,
                ) {
                    r == Ok::<bool, Error>(true) && final(self)@ == (BackendView {
                        capture: old(self)@.capture.completed(
                            frame.index as int,
                            frame.timestamp,
                            planes_view(frame.planes@),
                        ),
                        ..old(self)@
                    })
                } else {
                    r == Err::<bool, Error>(Error::ProtocolViolation) && final(self)@ == old(self)@
                },
                DqBufReply::NotReady => r == Ok::<bool, Error>(false) && final(self)@ == old(self)@,
                DqBufReply::Failed => r == Err::<bool, Error>(Error::DeviceIo) && final(self)@
                    == old(self)@,
            },
    {
        let r = self.capture_queue.take_answer(reply);
        proof {
            assert forall|i: int| !#[trigger] self@.capture.holds(i, BufferState::PreQueue) by {
                if self@.capture.holds(i, BufferState::PreQueue) {
                    assert(old(self)@.capture.holds(i, BufferState::PreQueue));
                }
            }
            old(self)@.lemma_frames_kept(self@);
        }
        r
    }

    pub fn stream_info(&self) -> (info: Option<&StreamInfo>)
        ensures
            info == Some(&self@.stream_info),
    {
        Some(&self.stream_info)
    }

    /// The sequence parameters last seen.
    pub fn sequence(&self) -> (sps: Option<Sps>)
        ensures
            sps == self@.sequence,
    {
        self.sequence
    }

    /// Keeps the parameters of the sequence that begins.
    pub fn set_sequence(&mut self, sps: Sps)
        ensures
            final(self)@ == (BackendView { sequence: Some(sps), ..old(self)@ }),
    {
        self.sequence = Some(sps);
    }

    /// The number of buffers of encoded data that are free.
    pub fn num_free_frames(&self) -> (n: usize)
        requires
            self@.output.state is Streaming,
        ensures
            n == self@.output.num_free(),
    {
        self.output_queue.num_free_buffers()
    }

    /// The number of buffers of encoded data.
    pub fn num_managed_frames(&self) -> (n: usize)
        requires
            self@.output.state is Streaming,
        ensures
            n == self@.output.buffers.len(),
    {
        self.output_queue.num_buffers()
    }

    /// Frames that the caller brings are not supported: the buffers are
    /// those of the device.
    pub fn add_frames(&mut self, _descriptors: Vec<()>) -> (r: Result<(), Error>)
        ensures
            r == Err::<(), Error>(Error::Unimplemented),
            *final(self) == *old(self),
    {
        Err(Error::Unimplemented)
    }

    /// A change of resolution within a stream is not supported.
    pub fn set_coded_resolution(&mut self, _resolution: Resolution) -> (r: Result<(), Error>)
        ensures
            r == Err::<(), Error>(Error::Unimplemented),
            *final(self) == *old(self),
    {
        Err(Error::Unimplemented)
    }

    /// The number of pictures registered as in flight.
    pub fn num_in_flight(&self) -> (n: usize)
        ensures
            n == self@.registry.len(),
    {
        broadcast use vstd::std_specs::hash::group_hash_axioms;

        self.cur_pic_list.len()
    }

    /// Whether a picture is registered under `timestamp`.
    pub fn is_registered(&self, timestamp: u64) -> (b: bool)
        ensures
            b == self@.registry.contains_key(timestamp),
    {
        broadcast use vstd::std_specs::hash::group_hash_axioms;

        self.cur_pic_list.contains_key(&timestamp)
    }

    /// The picture that `picture` names, if it is alive.
    pub fn picture(&self, picture: &PictureRef) -> (p: Option<&V4l2Picture>)
        ensures
            p is Some <==> self@.resolves(*picture),
            p matches Some(found) ==> found@ == self@.pictures[picture.id],
    {
        broadcast use vstd::std_specs::hash::group_hash_axioms;

        match self.pictures.get(&picture.id) {
            Some(found) => {
                if found.timestamp == picture.timestamp {
                    Some(found)
                } else {
                    None
                }
            },
            None => None,
        }
    }

    /// Writes the control blocks of the picture that `picture` names, and the
    /// pictures that it refers to. Answers whether there is such a picture;
    /// nothing is written where there is none.
    pub fn write_controls(
        &mut self,
        picture: &PictureRef,
        sps: V4l2CtrlH264Sps,
        pps: V4l2CtrlH264Pps,
        decode_params: V4l2CtrlH264DecodeParams,
        references: Vec<PictureRef>,
    ) -> (written: bool)
        requires
            old(self)@.wf(),
        ensures
            final(self)@.wf(),
            written == old(self)@.resolves(*picture),
            !written ==> final(self)@ == old(self)@,
            written ==> final(self)@ == (BackendView {
                pictures: old(self)@.pictures.insert(
                    picture.id,
                    PictureView {
                        h264_sps: sps,
                        h264_pps: pps,
                        h264_decode_params: decode_params,
                        ref_pic_list: references@,
                        ..old(self)@.pictures[picture.id]
                    },
                ),
                ..old(self)@
            }),
    {
        broadcast use vstd::std_specs::hash::group_hash_axioms;

        if self.picture(picture).is_none() {
            return false;
        }
        let removed = self.pictures.remove(&picture.id);
        let mut current = removed.unwrap();
        current.h264_sps = sps;
        current.h264_pps = pps;
        current.h264_decode_params = decode_params;
        current.ref_pic_list = references;
        let ghost after = current@;
        self.pictures.insert(picture.id, current);
        proof {
            assert(self@.pictures =~= old(self)@.pictures.insert(picture.id, after));
            old(self)@.lemma_frames_kept(self@);
            assert forall|t: u64| #[trigger] self@.registry.contains_key(t) implies {
                &&& self@.pictures.contains_key(self@.registry[t])
                &&& self@.pictures[self@.registry[t]].timestamp == t
                &&& self@.pictures[self@.registry[t]].buf is None
            } by {
                assert(old(self)@.registry.contains_key(t));
            }
        }
        true
    }

    /// Sees to it that a buffer for the decoded frame of `picture` is with
    /// the device. With the first slice of a picture the first free buffer
    /// of decoded frames is queued, and the answer is its index; for every
    /// later slice nothing is queued and the answer is `None`. A picture that
    /// is not alive is a `ProtocolViolation`; where a buffer is due and none
    /// is free the answer is `ResourceExhausted`. Nothing changes then.
    pub fn provision_frame(&mut self, picture: &PictureRef) -> (r: Result<Option<usize>, Error>)
        requires
            old(self)@.wf(),
            old(self)@.capture.state is Streaming,
        ensures
            final(self)@.wf(),
            match r {
                Err(e) => final(self)@ == old(self)@ && e == (if !old(self)@.resolves(*picture) {
                    Error::ProtocolViolation
                } else {
                    Error::ResourceExhausted
                }),
                Ok(Some(index)) => old(self)@.capture.first_free(index as int) && final(self)@
                    == old(self)@.provisioned(picture.id, index as int),
                Ok(None) => final(self)@ == old(self)@,
            },
            r is Err <==> !old(self)@.resolves(*picture) || (
            !old(self)@.pictures[picture.id].provisioned && old(self)@.capture.num_free() == 0),
            r matches Ok(queued) ==> (queued is None <==> old(self)@.pictures[picture.id].provisioned),
    {
        broadcast use vstd::std_specs::hash::group_hash_axioms;

        match self.picture(picture) {
            None => {
                return Err(Error::ProtocolViolation);
            },
            Some(found) => {
                if found.provisioned {
                    return Ok(None);
                }
            },
        }
        let buf = match self.capture_queue.alloc_buffer() {
            Ok(buf) => buf,
            Err(e) => {
                return Err(e);
            },
        };
        let index: usize = buf.index();
        let queued = self.capture_queue.queue_buffer(buf);
        assert(queued is Ok);
        let removed = self.pictures.remove(&picture.id);
        let mut current = removed.unwrap();
        current.provisioned = true;
        let ghost after = current@;
        self.pictures.insert(picture.id, current);
        proof {
            assert(self@.pictures =~= old(self)@.pictures.insert(picture.id, after));
            assert forall|t: u64| #[trigger] self@.registry.contains_key(t) implies {
                &&& self@.pictures.contains_key(self@.registry[t])
                &&& self@.pictures[self@.registry[t]].timestamp == t
                &&& self@.pictures[self@.registry[t]].buf is None
            } by {
                assert(old(self)@.registry.contains_key(t));
            }
            assert forall|i: int| !#[trigger] self@.capture.holds(i, BufferState::PreQueue) by {
                if self@.capture.holds(i, BufferState::PreQueue) {
                    assert(old(self)@.capture.holds(i, BufferState::PreQueue));
                }
            }
            old(self)@.lemma_frames_kept(self@);
        }
        Ok(Some(index))
    }

    /// A place that no picture is kept at: the next place, or the lowest free
    /// one should the next place be taken.
    fn fresh_place(&self) -> (id: u64)
        ensures
            !self@.pictures.contains_key(id),
            !self@.pictures.contains_key(self@.next_id) ==> id == self@.next_id,
    {
        broadcast use vstd::std_specs::hash::group_hash_axioms;

        if !self.pictures.contains_key(&self.next_id) {
            return self.next_id;
        }
        let len: usize = self.pictures.len();
        let mut id: u64 = 0;
        while self.pictures.contains_key(&id)
            invariant
                len == self.pictures@.dom().len(),
                self.pictures@.dom().finite(),
                forall|j: u64| j < id ==> self.pictures@.contains_key(j),
                id <= len,
            decreases len - id,
        {
            proof {
                assert forall|j: u64| j <= id implies self.pictures@.dom().contains(j) by {
                    if j < id {
                        assert(self.pictures@.contains_key(j));
                    }
                }
                lemma_places_counted(self.pictures@.dom(), id);
            }
            id = id + 1;
        }
        id
    }

    /// Begins a picture under `timestamp` and registers it as in flight, at
    /// a place that no picture is kept at. A picture that was registered
    /// under the same time stamp stays alive and leaves the registry.
    pub fn register(&mut self, timestamp: u64) -> (picture: PictureRef)
        requires
            old(self)@.wf(),
        ensures
            final(self)@.wf(),
            picture.timestamp == timestamp,
            old(self)@.begins(picture, final(self)@),
    {
        broadcast use vstd::std_specs::hash::group_hash_axioms;

        let id: u64 = self.fresh_place();
        let picture = V4l2Picture::new(timestamp);
        let ghost fresh = picture@;
        self.pictures.insert(id, picture);
        self.cur_pic_list.insert(timestamp, id);
        self.next_id = if id == u64::MAX {
            0
        } else {
            id + 1
        };
        proof {
            assert(self@.pictures =~= old(self)@.pictures.insert(id, fresh));
            assert(self@.registry =~= old(self)@.registry.insert(timestamp, id));
            assert forall|index: int, k: u64| #[trigger]
                self@.holds_frame(k, index) implies old(self)@.holds_frame(k, index) by {}
            old(self)@.lemma_frames_kept(self@);
            assert forall|t: u64| #[trigger] self@.registry.contains_key(t) implies {
                &&& self@.pictures.contains_key(self@.registry[t])
                &&& self@.pictures[self@.registry[t]].timestamp == t
                &&& self@.pictures[self@.registry[t]].buf is None
            } by {
                if t != timestamp {
                    assert(old(self)@.registry.contains_key(t));
                    assert(old(self)@.pictures.contains_key(old(self)@.registry[t]));
                }
            }
        }
        PictureRef { id, timestamp }
    }
}

/// A set that holds every place up to `last` holds more places than `last`
/// counts.
pub proof fn lemma_places_counted(places: Set<u64>, last: u64)
    requires
        places.finite(),
        forall|j: u64| j <= last ==> places.contains(j),
    ensures
        last < places.len(),
    decreases last,
{
    let rest = places.remove(last);
    vstd::set::axiom_set_remove_len(places, last);
    if last > 0 {
        let before = (last - 1) as u64;
        assert forall|j: u64| j <= before implies rest.contains(j) by {
            assert(places.contains(j));
        }
        lemma_places_counted(rest, before);
    }
}

impl V4l2StatelessDecoderBackend {
    /// Takes the finished buffers of encoded data from the device and gives
    /// each back to the free ones: once the device has read a buffer, it has
    /// served its purpose.
    pub fn process_output_queue(&mut self)
        requires
            old(self)@.wf(),
            old(self)@.output.state is Streaming,
        ensures
            final(self)@.wf(),
            final(self)@ == (BackendView { output: old(self)@.output.drained(), ..old(self)@ }),
            final(self)@.output.num_free() == old(self)@.output.num_free() + old(self)@.output.done.len(),
    {
        loop
            invariant
                self@.wf(),
                self@.output.state is Streaming,
                self@.output.drained() == old(self)@.output.drained(),
                self@ == (BackendView { output: self@.output, ..old(self)@ }),
            ensures
                self@.output.done.len() == 0,
            decreases self@.output.done.len(),
        {
            proof {
                if self@.output.done.len() > 0 {
                    self@.output.lemma_drain_step();
                }
            }
            let ghost before = self@;
            match self.output_queue.dequeue_buffer() {
                Some(buf) => {
                    let released = self.output_queue.release_buffer(buf);
                    assert(released is Ok);
                    proof {
                        before.lemma_frames_kept(self@);
                    }
                },
                None => {
                    break ;
                },
            }
        }
        proof {
            self@.output.lemma_drained_nothing();
            old(self)@.output.lemma_drained_counts();
        }
    }

    /// Attaches the decoded frame in `buf` to the picture that is registered
    /// under its key. Where there is none, `buf` comes back.
    fn attach_frame(&mut self, buf: V4l2CaptureDqBuf) -> (r: Result<(), V4l2CaptureDqBuf>)
        requires
            old(self)@.wf_but(buf@.index as int),
            old(self)@.capture.holds(buf@.index as int, BufferState::Dequeued),
        ensures
            match r {
                Ok(()) => old(self)@.attached(buf@) == Ok::<BackendView, Error>(final(self)@)
                    && final(self)@.wf(),
                Err(back) => old(self)@.attached(buf@) is Err && back == buf && *final(self)
                    == *old(self),
            },
    {
        broadcast use vstd::std_specs::hash::group_hash_axioms;

        proof {
            buf.lemma_view();
        }
        let key: u64 = buf.timestamp().key();
        let id: u64 = match self.cur_pic_list.get(&key) {
            None => {
                return Err(buf);
            },
            Some(id) => *id,
        };
        proof {
            assert(old(self)@.registry.contains_key(key));
            assert(old(self)@.pictures.contains_key(id));
            assert(self.pictures@.contains_key(id));
            old(self)@.lemma_attached_wf(buf@);
        }
        self.cur_pic_list.remove(&key);
        let removed = self.pictures.remove(&id);
        let mut picture = removed.unwrap();
        let attached = picture.attach(buf);
        assert(attached is Ok);
        let ghost view = picture@;
        self.pictures.insert(id, picture);
        proof {
            assert(self@.pictures =~= old(self)@.pictures.insert(id, view));
            assert(self@.registry =~= old(self)@.registry.remove(key));
        }
        Ok(())
    }

    /// One poll of the queue of decoded frames. Takes the finished buffers
    /// from the device, oldest first, and attaches each frame to the picture
    /// registered under its key, which leaves the registry and lets go of
    /// its references. Then hands every free buffer to the device and
    /// answers their indices, in rising order: those are the buffers that
    /// the device is to be given. A frame whose key nobody registered ends
    /// the poll with `ProtocolViolation`.
    pub fn process_capture_queue(&mut self) -> (r: Result<Vec<usize>, Error>)
        requires
            old(self)@.wf(),
            old(self)@.capture.state is Streaming,
        ensures
            final(self)@.wf(),
            final(self)@ == old(self)@.capture_polled().0,
            match r {
                Ok(queued) => old(self)@.capture_polled().1 == Ok::<Seq<usize>, Error>(queued@),
                Err(e) => old(self)@.capture_polled().1 == Err::<Seq<usize>, Error>(e),
            },
            r is Ok ==> final(self)@.capture.num_free() == 0,
    {
        loop
            invariant
                self@.wf(),
                self@.capture.state is Streaming,
                self@.collected() == old(self)@.collected(),
            ensures
                self@.capture.done.len() == 0,
            decreases self@.capture.done.len(),
        {
            let ghost before = self@;
            match self.capture_queue.dequeue_buffer() {
                None => {
                    break ;
                },
                Some(buf) => {
                    proof {
                        buf.lemma_view();
                        assert(buf@ == before.frame_in(before.capture.done[0]));
                        assert(before.capture.holds(
                            before.capture.done[0] as int,
                            BufferState::Done,
                        ));
                        before.lemma_taken_wf();
                    }
                    let ghost taken = self@;
                    match self.attach_frame(buf) {
                        Ok(()) => {},
                        Err(back) => {
                            let released = self.capture_queue.release_buffer(back);
                            assert(released is Ok);
                            return Err(Error::ProtocolViolation);
                        },
                    }
                },
            }
        }
        let ghost collected = self@;
        let mut queued: Vec<usize> = Vec::new();
        loop
            invariant
                self@.wf(),
                self@.capture.state is Streaming,
                self@ == (BackendView { capture: self@.capture, ..collected }),
                self@.capture.replenished() == collected.capture.replenished(),
                queued@ + self@.capture.free_indices() == collected.capture.free_indices(),
            ensures
                self@.capture.num_free() == 0,
            decreases self@.capture.num_free(),
        {
            let ghost before = self@.capture;
            let ghost whole = self@;
            match self.capture_queue.alloc_buffer() {
                Err(_) => {
                    break ;
                },
                Ok(buf) => {
                    proof {
                        before.lemma_replenish_step(buf.spec_index() as int);
                    }
                    let index: usize = buf.index();
                    let done = self.capture_queue.queue_buffer(buf);
                    assert(done is Ok);
                    queued.push(index);
                    proof {
                        assert forall|i: int| !#[trigger] self@.capture.holds(
                            i,
                            BufferState::PreQueue,
                        ) by {
                            if self@.capture.holds(i, BufferState::PreQueue) {
                                assert(whole.capture.holds(i, BufferState::PreQueue));
                            }
                        }
                        whole.lemma_frames_kept(self@);
                        assert(queued@ + self@.capture.free_indices() =~= (queued@.drop_last()
                            + seq![index]) + self@.capture.free_indices());
                        assert((queued@.drop_last() + seq![index]) + self@.capture.free_indices()
                            =~= queued@.drop_last() + (seq![index]
                            + self@.capture.free_indices()));
                    }
                },
            }
        }
        proof {
            self@.capture.lemma_replenished_nothing();
            assert(queued@ =~= collected.capture.free_indices());
            old(self)@.lemma_polled_none_free();
        }
        Ok(queued)
    }

    /// One poll cycle: the finished buffers of encoded data go back to the
    /// free ones, the decoded frames are attached to their pictures, and the
    /// queue of decoded frames is replenished. Answers the indices of the
    /// buffers that the device is to be given.
    pub fn poll(&mut self) -> (r: Result<Vec<usize>, Error>)
        requires
            old(self)@.wf(),
            old(self)@.output.state is Streaming,
            old(self)@.capture.state is Streaming,
        ensures
            final(self)@.wf(),
            final(self)@ == (BackendView {
                output: old(self)@.output.drained(),
                ..old(self)@
            }).capture_polled().0,
            match r {
                Ok(queued) => (BackendView {
                    output: old(self)@.output.drained(),
                    ..old(self)@
                }).capture_polled().1 == Ok::<Seq<usize>, Error>(queued@),
                Err(e) => (BackendView {
                    output: old(self)@.output.drained(),
                    ..old(self)@
                }).capture_polled().1 == Err::<Seq<usize>, Error>(e),
            },
            r is Ok ==> final(self)@.capture.num_free() == 0,
    {
        self.process_output_queue();
        self.process_capture_queue()
    }

    /// Lets go of a picture that nobody needs any more, and gives the buffer
    /// of its frame back to the free ones. A picture in flight is still
    /// needed: the device is decoding into it.
    pub fn release_picture(&mut self, picture: PictureRef) -> (r: Result<(), Error>)
        requires
            old(self)@.wf(),
        ensures
            final(self)@.wf(),
            match r {
                Ok(()) => old(self)@.released(picture) == Ok::<BackendView, Error>(final(self)@),
                Err(e) => old(self)@.released(picture) == Err::<BackendView, Error>(e) && final(self)@ == old(self)@,
            },
    {
        broadcast use vstd::std_specs::hash::group_hash_axioms;

        match self.pictures.get(&picture.id) {
            None => {
                return Err(Error::ProtocolViolation);
            },
            Some(found) => {
                if found.timestamp != picture.timestamp {
                    return Err(Error::ProtocolViolation);
                }
                match self.cur_pic_list.get(&picture.timestamp) {
                    Some(id) => {
                        if *id == picture.id {
                            return Err(Error::ProtocolViolation);
                        }
                    },
                    None => {},
                }
            },
        }
        proof {
            old(self)@.lemma_released_wf(picture);
        }
        let removed = self.pictures.remove(&picture.id);
        let gone: V4l2Picture = removed.unwrap();
        proof {
            assert(self@.pictures =~= old(self)@.pictures.remove(picture.id));
        }
        match gone.buf {
            None => {},
            Some(buf) => {
                proof {
                    buf.lemma_view();
                }
                let released = self.capture_queue.release_buffer(buf);
                assert(released is Ok);
            },
        }
        Ok(())
    }
}

} // verus!
