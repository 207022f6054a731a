use vstd::prelude::*;

use crate::backend::v4l2::decoder::stateless::PictureRef;
use crate::codec::h264::Sps;
use crate::decoder::StreamInfo;
use crate::device::v4l2::stateless::buffer::BufferState;
use crate::device::v4l2::stateless::buffer::FrameView;
use crate::device::v4l2::stateless::buffer::TimeVal;
use crate::device::v4l2::stateless::controls::h264::V4l2CtrlH264DecodeParams;
use crate::device::v4l2::stateless::controls::h264::V4l2CtrlH264Pps;
use crate::device::v4l2::stateless::controls::h264::V4l2CtrlH264Sps;
use crate::device::v4l2::stateless::device::V4l2Device;
use crate::device::v4l2::stateless::queue_view::QueueView;
use crate::error::Error;

verus! {

/// A picture, seen from the contracts.
pub struct PictureView {
    pub timestamp: u64,
    pub buf: Option<FrameView>,
    /// A buffer for the decoded frame has gone to the device.
    pub provisioned: bool,
    pub ref_pic_list: Seq<PictureRef>,
    pub h264_sps: V4l2CtrlH264Sps,
    pub h264_pps: V4l2CtrlH264Pps,
    pub h264_decode_params: V4l2CtrlH264DecodeParams,
}

impl PictureView {
    /// The picture after the decoded frame `frame` was attached to it: it
    /// holds the frame and has let go of its references. A picture takes a
    /// frame once; a second one is a `ProtocolViolation`.
    pub open spec fn attached(self, frame: FrameView) -> Result<PictureView, Error> {
        if self.buf is Some {
            Err(Error::ProtocolViolation)
        } else {
            Ok(PictureView { buf: Some(frame), ref_pic_list: Seq::empty(), ..self })
        }
    }

    /// A picture that took a frame refuses every further one.
    pub proof fn lemma_attach_once(self, first: FrameView, second: FrameView)
        requires
            self.attached(first) is Ok,
        ensures
            self.attached(first)->Ok_0.attached(second) == Err::<PictureView, Error>(
                Error::ProtocolViolation,
            ),
    {
    }

    /// A picture that was just begun: no frame and no buffer asked for it,
    /// no references, and control blocks that hold nothing.
    pub open spec fn is_fresh(self, timestamp: u64) -> bool {
        &&& self.timestamp == timestamp
        &&& self.buf is None
        &&& !self.provisioned
        &&& self.ref_pic_list.len() == 0
        &&& self.h264_sps == V4l2CtrlH264Sps::zeroed()
        &&& self.h264_pps == V4l2CtrlH264Pps::zeroed()
        &&& self.h264_decode_params.is_zeroed()
    }
}

/// A backend, seen from the contracts: the device, the two queues and the
/// number of buffers that each is to ask for, the pictures that are alive by
/// the place they are kept at, the registry, which leads from the time stamp
/// of each picture in flight to its place, the place that the next picture
/// will get, the sequence parameters last seen, and what is assumed of the
/// stream.
pub struct BackendView {
    pub device: V4l2Device,
    pub output: QueueView,
    pub capture: QueueView,
    pub output_requested: u32,
    pub capture_requested: u32,
    pub pictures: Map<u64, PictureView>,
    pub registry: Map<u64, u64>,
    pub next_id: u64,
    pub sequence: Option<Sps>,
    pub stream_info: StreamInfo,
}

impl BackendView {
    /// Every time stamp of the registry leads to a picture that is alive,
    /// bears that time stamp and has no frame yet.
    pub open spec fn registry_wf(self) -> bool {
        forall|timestamp: u64| #[trigger]
            self.registry.contains_key(timestamp) ==> {
                &&& self.pictures.contains_key(self.registry[timestamp])
                &&& self.pictures[self.registry[timestamp]].timestamp == timestamp
                &&& self.pictures[self.registry[timestamp]].buf is None
            }
    }

    /// The picture at place `id` holds the frame of buffer `index`.
    pub open spec fn holds_frame(self, id: u64, index: int) -> bool {
        &&& self.pictures.contains_key(id)
        &&& self.pictures[id].buf matches Some(frame)
        &&& frame.index == index
    }

    /// A picture holds the frame of buffer `index`.
    pub open spec fn held(self, index: int) -> bool {
        exists|id: u64| self.holds_frame(id, index)
    }

    /// The buffers of the queue of decoded frames that are with the caller
    /// are accounted for, but for buffer `except`: every frame that a picture
    /// holds lies in a buffer that is dequeued, no two pictures hold the frame
    /// of one buffer, every dequeued buffer holds the frame of a picture, and
    /// no buffer is handed out and not queued.
    pub open spec fn accounted(self, except: int) -> bool {
        &&& forall|id: u64, index: int| #[trigger]
            self.holds_frame(id, index) ==> index != except && self.capture.holds(
                index,
                BufferState::Dequeued,
            )
        &&& forall|a: u64, b: u64, index: int|
            #[trigger] self.holds_frame(a, index) && #[trigger] self.holds_frame(b, index) ==> a
                == b
        &&& forall|index: int|
            index != except && #[trigger] self.capture.holds(index, BufferState::Dequeued)
                ==> self.held(index)
        &&& forall|index: int| !#[trigger] self.capture.holds(index, BufferState::PreQueue)
    }

    /// What holds of a backend while it works on buffer `except` of the
    /// queue of decoded frames.
    pub open spec fn wf_but(self, except: int) -> bool {
        &&& self.output.consistent()
        &&& self.capture.consistent()
        &&& self.registry_wf()
        &&& self.accounted(except)
    }

    /// What holds of every backend between two calls: the queues are
    /// consistent, the registry leads to pictures in flight, and the buffers
    /// of decoded frames that are with the caller are the frames of the
    /// pictures, one each.
    pub open spec fn wf(self) -> bool {
        self.wf_but(-1)
    }

    /// A picture was begun under time stamp `picture.timestamp` at place
    /// `picture.id`, which was free, and `after` is the backend behind it:
    /// the picture is fresh and registered, every other picture and every
    /// other registration is as it was, and so are the device and the
    /// queues.
    pub open spec fn begins(self, picture: PictureRef, after: BackendView) -> bool {
        &&& !self.pictures.contains_key(picture.id)
        &&& !self.pictures.contains_key(self.next_id) ==> picture.id == self.next_id
        &&& after.pictures.contains_key(picture.id)
        &&& after.pictures[picture.id].is_fresh(picture.timestamp)
        &&& after == (BackendView {
            pictures: self.pictures.insert(picture.id, after.pictures[picture.id]),
            registry: self.registry.insert(picture.timestamp, picture.id),
            next_id: after.next_id,
            ..self
        })
    }

    /// Beginning a picture under a time stamp that is not in the registry
    /// adds that registration and touches no other: the pictures in flight
    /// are those that were, and the new one, each under its own time stamp.
    pub proof fn lemma_begins_registers(self, picture: PictureRef, after: BackendView)
        requires
            self.wf(),
            after.wf(),
            self.begins(picture, after),
            !self.registry.contains_key(picture.timestamp),
        ensures
            after.in_flight(picture.id),
            after.resolves(picture),
            after.output == self.output,
            after.capture == self.capture,
            after.registry.dom() == self.registry.dom().insert(picture.timestamp),
            forall|t: u64| #[trigger]
                self.registry.contains_key(t) ==> after.registry[t] == self.registry[t]
                    && after.pictures[after.registry[t]] == self.pictures[self.registry[t]],
            forall|a: u64, b: u64|
                #[trigger] after.in_flight(a) && #[trigger] after.in_flight(b) && a != b
                    ==> after.pictures[a].timestamp != after.pictures[b].timestamp,
    {
        assert(after.registry.dom() =~= self.registry.dom().insert(picture.timestamp));
        assert forall|t: u64| #[trigger] self.registry.contains_key(t) implies after.registry[t]
            == self.registry[t] && after.pictures[after.registry[t]]
            == self.pictures[self.registry[t]] by {
            assert(self.pictures.contains_key(self.registry[t]));
        }
    }

    /// `picture` names a picture that is alive.
    pub open spec fn resolves(self, picture: PictureRef) -> bool {
        &&& self.pictures.contains_key(picture.id)
        &&& self.pictures[picture.id].timestamp == picture.timestamp
    }

    /// The picture at place `id` is registered: its time stamp leads to it.
    pub open spec fn in_flight(self, id: u64) -> bool {
        &&& self.pictures.contains_key(id)
        &&& self.registry.contains_key(self.pictures[id].timestamp)
        &&& self.registry[self.pictures[id].timestamp] == id
    }

    /// No two pictures are registered under one time stamp at a time.
    pub proof fn lemma_registered_timestamps_differ(self, a: u64, b: u64)
        requires
            self.wf(),
            self.in_flight(a),
            self.in_flight(b),
            a != b,
        ensures
            self.pictures[a].timestamp != self.pictures[b].timestamp,
    {
    }

    /// A time stamp of the registry names one picture, and that picture is
    /// in flight.
    pub proof fn lemma_registry_names_in_flight(self, timestamp: u64)
        requires
            self.wf(),
            self.registry.contains_key(timestamp),
        ensures
            self.in_flight(self.registry[timestamp]),
    {
    }
}

impl BackendView {
    /// The backend after the decoded frame `frame` arrived: the picture that
    /// is registered under the key of the frame's time stamp takes the frame
    /// and leaves the registry. A frame whose key nobody registered is a
    /// `ProtocolViolation`.
    pub open spec fn attached(self, frame: FrameView) -> Result<BackendView, Error> {
        let key = frame.timestamp.spec_key();
        if self.registry.contains_key(key) {
            let id = self.registry[key];
            match self.pictures[id].attached(frame) {
                Ok(picture) => Ok(
                    BackendView {
                        pictures: self.pictures.insert(id, picture),
                        registry: self.registry.remove(key),
                        ..self
                    },
                ),
                Err(e) => Err(e),
            }
        } else {
            Err(Error::ProtocolViolation)
        }
    }

    /// The frame that lies in buffer `index` of the queue of decoded frames.
    pub open spec fn frame_in(self, index: usize) -> FrameView {
        FrameView {
            index,
            timestamp: self.capture.buffers[index as int].timestamp,
            planes: self.capture.buffers[index as int].planes,
        }
    }

    /// The backend after the finished buffers of decoded frames were taken
    /// from the device, oldest first, and each frame was attached to its
    /// picture; and whether all of them found their picture. At the first
    /// frame that does not, its buffer goes back to the free ones and the
    /// frames behind it stay with the device.
    pub open spec fn collected(self) -> (BackendView, bool)
        decreases self.capture.done.len(),
    {
        if self.capture.done.len() == 0 {
            (self, true)
        } else {
            let index = self.capture.done[0];
            let taken = BackendView { capture: self.capture.dequeued(), ..self };
            match taken.attached(self.frame_in(index)) {
                Ok(next) => next.collected(),
                Err(_) => (
                    BackendView { capture: taken.capture.released(index as int), ..taken },
                    false,
                ),
            }
        }
    }

    /// The backend after one poll of the queue of decoded frames, and what
    /// the poll answers: the frames are collected and then every free buffer
    /// goes to the device; the answer lists those buffers. Where a frame
    /// finds no picture, nothing goes to the device and the answer is
    /// `ProtocolViolation`.
    pub open spec fn capture_polled(self) -> (BackendView, Result<Seq<usize>, Error>) {
        let (collected, complete) = self.collected();
        if complete {
            (
                BackendView { capture: collected.capture.replenished(), ..collected },
                Ok(collected.capture.free_indices()),
            )
        } else {
            (collected, Err(Error::ProtocolViolation))
        }
    }

    /// The backend after a buffer for the decoded frame of the picture at
    /// place `id` was seen to. A picture gets one buffer, with its first
    /// slice: the first free buffer, `index`, goes to the device and the
    /// picture keeps note of it. For a picture that has had its buffer
    /// nothing changes, whatever `index` is.
    pub open spec fn provisioned(self, id: u64, index: int) -> BackendView {
        if self.pictures[id].provisioned {
            self
        } else {
            BackendView {
                capture: self.capture.allocated(index).queued(
                    index,
                    TimeVal { tv_sec: 0, tv_usec: 0 },
                ),
                pictures: self.pictures.insert(
                    id,
                    PictureView { provisioned: true, ..self.pictures[id] },
                ),
                ..self
            }
        }
    }

    /// However many slices a picture is decoded through, one buffer for its
    /// decoded frame goes to the device: the second slice and every later
    /// one leave the queue of decoded frames and the pictures as the first
    /// left them.
    pub proof fn lemma_provisioned_once(self, id: u64, first: int, later: int)
        requires
            self.pictures.contains_key(id),
        ensures
            self.provisioned(id, first).pictures[id].provisioned,
            self.provisioned(id, first).provisioned(id, later) == self.provisioned(id, first),
    {
    }

    /// The backend after the picture that `picture` names was let go of, and
    /// the buffer of its frame went back to the free ones. A picture that
    /// is not alive or still in flight is a `ProtocolViolation`.
    pub open spec fn released(self, picture: PictureRef) -> Result<BackendView, Error> {
        if !self.resolves(picture) || self.in_flight(picture.id) {
            Err(Error::ProtocolViolation)
        } else {
            match self.pictures[picture.id].buf {
                None => Ok(BackendView { pictures: self.pictures.remove(picture.id), ..self }),
                Some(frame) => Ok(
                    BackendView {
                        pictures: self.pictures.remove(picture.id),
                        capture: self.capture.released(frame.index as int),
                        ..self
                    },
                ),
            }
        }
    }

    /// Letting go of a picture keeps the backend well formed, and frees the
    /// buffer of its frame.
    pub proof fn lemma_released_wf(self, picture: PictureRef)
        requires
            self.wf(),
            self.released(picture) is Ok,
        ensures
            self.released(picture)->Ok_0.wf(),
            self.pictures[picture.id].buf matches Some(frame) ==> {
                &&& self.capture.holds(frame.index as int, BufferState::Dequeued)
                &&& self.released(picture)->Ok_0.capture.holds(
                    frame.index as int,
                    BufferState::Free,
                )
            },
    {
        let next = self.released(picture)->Ok_0;
        let id = picture.id;
        assert forall|t: u64| #[trigger] next.registry.contains_key(t) implies {
            &&& next.pictures.contains_key(next.registry[t])
            &&& next.pictures[next.registry[t]].timestamp == t
            &&& next.pictures[next.registry[t]].buf is None
        } by {
            assert(self.registry.contains_key(t));
        }
        assert forall|k: u64, index: int| #[trigger] next.holds_frame(k, index) implies k != id
            && self.holds_frame(k, index) by {}
        assert forall|a: u64, b: u64, index: int| #[trigger]
            next.holds_frame(a, index) && #[trigger] next.holds_frame(b, index) implies a == b by {
            assert(self.holds_frame(a, index));
            assert(self.holds_frame(b, index));
        }
        match self.pictures[id].buf {
            None => {
                assert forall|index: int| #[trigger]
                    next.capture.holds(index, BufferState::Dequeued) implies next.held(index) by {
                    assert(self.held(index));
                    let k = choose|k: u64| self.holds_frame(k, index);
                    assert(next.holds_frame(k, index));
                }
            },
            Some(frame) => {
                let d = frame.index as int;
                assert(self.holds_frame(id, d));
                assert(self.capture.holds(d, BufferState::Dequeued));
                assert forall|k: int| 0 <= k < next.capture.done.len() implies next.capture.holds(
                    #[trigger] next.capture.done[k] as int,
                    BufferState::Done,
                ) by {
                    assert(self.capture.holds(self.capture.done[k] as int, BufferState::Done));
                }
                self.capture.lemma_done_kept(next.capture);
                assert forall|k: u64, index: int| #[trigger]
                    next.holds_frame(k, index) implies next.capture.holds(
                    index,
                    BufferState::Dequeued,
                ) by {
                    assert(self.holds_frame(k, index));
                    if index == d {
                        assert(k == id);
                    }
                }
                assert forall|index: int| #[trigger]
                    next.capture.holds(index, BufferState::Dequeued) implies next.held(index) by {
                    assert(self.capture.holds(index, BufferState::Dequeued));
                    assert(self.held(index));
                    let k = choose|k: u64| self.holds_frame(k, index);
                    if k == id {
                        assert(index == d);
                    }
                    assert(next.holds_frame(k, index));
                }
                assert forall|index: int| !#[trigger] next.capture.holds(
                    index,
                    BufferState::PreQueue,
                ) by {
                    if next.capture.holds(index, BufferState::PreQueue) {
                        assert(self.capture.holds(index, BufferState::PreQueue));
                    }
                }
            },
        }
    }

    /// Attaching the frame of the buffer that the backend works on gives it
    /// to one picture, and all is accounted for again.
    pub proof fn lemma_attached_wf(self, frame: FrameView)
        requires
            self.wf_but(frame.index as int),
            self.capture.holds(frame.index as int, BufferState::Dequeued),
            self.attached(frame) is Ok,
        ensures
            self.attached(frame)->Ok_0.wf(),
    {
        let key = frame.timestamp.spec_key();
        let id = self.registry[key];
        let d = frame.index as int;
        let next = self.attached(frame)->Ok_0;
        assert(self.registry.contains_key(key));
        assert forall|t: u64| #[trigger] next.registry.contains_key(t) implies {
            &&& next.pictures.contains_key(next.registry[t])
            &&& next.pictures[next.registry[t]].timestamp == t
            &&& next.pictures[next.registry[t]].buf is None
        } by {
            assert(self.registry.contains_key(t));
        }
        assert forall|k: u64, index: int| #[trigger] next.holds_frame(k, index) implies index != -1
            && next.capture.holds(index, BufferState::Dequeued) by {
            if k != id {
                assert(self.holds_frame(k, index));
            }
        }
        assert forall|a: u64, b: u64, index: int| #[trigger]
            next.holds_frame(a, index) && #[trigger] next.holds_frame(b, index) implies a == b by {
            if a != id {
                assert(self.holds_frame(a, index));
            }
            if b != id {
                assert(self.holds_frame(b, index));
            }
        }
        assert forall|index: int| #[trigger]
            next.capture.holds(index, BufferState::Dequeued) implies next.held(index) by {
            if index == d {
                assert(next.holds_frame(id, index));
            } else {
                assert(self.held(index));
                let k = choose|k: u64| self.holds_frame(k, index);
                assert(k != id);
                assert(next.holds_frame(k, index));
            }
        }
    }

    /// Taking the oldest finished buffer of decoded frames from the device
    /// leaves all accounted for but that buffer, and so does giving it back
    /// unused.
    pub proof fn lemma_taken_wf(self)
        requires
            self.wf(),
            self.capture.done.len() > 0,
        ensures
            (BackendView { capture: self.capture.dequeued(), ..self }).wf_but(
                self.capture.done[0] as int,
            ),
            self.capture.dequeued().holds(self.capture.done[0] as int, BufferState::Dequeued),
            (BackendView {
                capture: self.capture.dequeued().released(self.capture.done[0] as int),
                ..self
            }).wf(),
    {
        let d = self.capture.done[0] as int;
        let taken = BackendView { capture: self.capture.dequeued(), ..self };
        let back = BackendView { capture: self.capture.dequeued().released(d), ..self };
        self.capture.lemma_drain_step();
        self.capture.lemma_dequeued_consistent();
        assert(self.capture.holds(self.capture.done[0] as int, BufferState::Done));
        assert forall|k: u64, index: int| #[trigger] taken.holds_frame(k, index) implies index != d
            && taken.capture.holds(index, BufferState::Dequeued) by {
            assert(self.holds_frame(k, index));
        }
        assert forall|k: u64, index: int| #[trigger] back.holds_frame(k, index) implies index != -1
            && back.capture.holds(index, BufferState::Dequeued) by {
            assert(taken.holds_frame(k, index));
        }
        assert forall|a: u64, b: u64, index: int| #[trigger]
            taken.holds_frame(a, index) && #[trigger] taken.holds_frame(b, index) implies a == b by {
            assert(self.holds_frame(a, index));
            assert(self.holds_frame(b, index));
        }
        assert forall|a: u64, b: u64, index: int| #[trigger]
            back.holds_frame(a, index) && #[trigger] back.holds_frame(b, index) implies a == b by {
            assert(self.holds_frame(a, index));
            assert(self.holds_frame(b, index));
        }
        assert forall|index: int|
            index != d && #[trigger] taken.capture.holds(
                index,
                BufferState::Dequeued,
            ) implies taken.held(index) by {
            assert(self.capture.holds(index, BufferState::Dequeued));
            assert(self.held(index));
            let k = choose|k: u64| self.holds_frame(k, index);
            assert(taken.holds_frame(k, index));
        }
        assert forall|index: int| #[trigger]
            back.capture.holds(index, BufferState::Dequeued) implies back.held(index) by {
            assert(self.capture.holds(index, BufferState::Dequeued));
            assert(self.held(index));
            let k = choose|k: u64| self.holds_frame(k, index);
            assert(back.holds_frame(k, index));
        }
        assert forall|index: int| !#[trigger] taken.capture.holds(index, BufferState::PreQueue) by {
            if taken.capture.holds(index, BufferState::PreQueue) {
                assert(self.capture.holds(index, BufferState::PreQueue));
            }
        }
        assert forall|index: int| !#[trigger] back.capture.holds(index, BufferState::PreQueue) by {
            if back.capture.holds(index, BufferState::PreQueue) {
                assert(self.capture.holds(index, BufferState::PreQueue));
            }
        }
    }

    /// All stays accounted for through a change that gives no buffer to the
    /// caller nor takes one from it, and leaves the frames with their
    /// pictures.
    pub proof fn lemma_frames_kept(self, next: BackendView)
        requires
            self.accounted(-1),
            forall|index: int|
                self.capture.holds(index, BufferState::Dequeued) == #[trigger] next.capture.holds(
                    index,
                    BufferState::Dequeued,
                ),
            forall|index: int| !#[trigger] next.capture.holds(index, BufferState::PreQueue),
            forall|id: u64, index: int| #[trigger]
                next.holds_frame(id, index) ==> self.holds_frame(id, index),
            forall|id: u64, index: int| #[trigger]
                self.holds_frame(id, index) ==> next.holds_frame(id, index),
        ensures
            next.accounted(-1),
    {
        assert forall|k: u64, index: int| #[trigger] next.holds_frame(k, index) implies index != -1
            && next.capture.holds(index, BufferState::Dequeued) by {
            assert(self.holds_frame(k, index));
        }
        assert forall|a: u64, b: u64, index: int| #[trigger]
            next.holds_frame(a, index) && #[trigger] next.holds_frame(b, index) implies a == b by {
            assert(self.holds_frame(a, index));
            assert(self.holds_frame(b, index));
        }
        assert forall|index: int| #[trigger]
            next.capture.holds(index, BufferState::Dequeued) implies next.held(index) by {
            assert(self.capture.holds(index, BufferState::Dequeued));
            assert(self.held(index));
            let k = choose|k: u64| self.holds_frame(k, index);
            assert(next.holds_frame(k, index));
        }
    }

    /// A buffer of decoded frames is with the caller exactly when a picture
    /// holds its frame.
    pub proof fn lemma_caller_holds_frames(self, index: int)
        requires
            self.wf(),
            0 <= index < self.capture.buffers.len(),
        ensures
            self.capture.buffers[index].state.with_caller() <==> self.held(index),
    {
        if self.held(index) {
            let id = choose|id: u64| self.holds_frame(id, index);
            assert(self.holds_frame(id, index));
        }
        if self.capture.buffers[index].state is Dequeued {
            assert(self.capture.holds(index, BufferState::Dequeued));
        }
        if self.capture.buffers[index].state is PreQueue {
            assert(self.capture.holds(index, BufferState::PreQueue));
        }
    }

    /// No two pictures hold the frame of one buffer, and a buffer whose
    /// frame a picture holds is with the caller.
    pub proof fn lemma_frame_held_once(self, a: u64, b: u64)
        requires
            self.wf(),
            self.pictures.contains_key(a),
            self.pictures.contains_key(b),
            a != b,
            self.pictures[a].buf is Some,
            self.pictures[b].buf is Some,
        ensures
            self.pictures[a].buf->Some_0.index != self.pictures[b].buf->Some_0.index,
            self.capture.holds(self.pictures[a].buf->Some_0.index as int, BufferState::Dequeued),
    {
        let index = self.pictures[a].buf->Some_0.index as int;
        assert(self.holds_frame(a, index));
        if self.pictures[b].buf->Some_0.index == index {
            assert(self.holds_frame(b, index));
        }
    }

    /// A frame whose key is that of a frame attached before finds no
    /// picture: the picture took its frame and left the registry.
    pub proof fn lemma_frame_attaches_once(self, first: FrameView, second: FrameView)
        requires
            self.attached(first) is Ok,
            second.timestamp.spec_key() == first.timestamp.spec_key(),
        ensures
            self.attached(first)->Ok_0.attached(second) == Err::<BackendView, Error>(
                Error::ProtocolViolation,
            ),
    {
    }

    /// A frame that carries the key of a picture in flight reaches that
    /// picture and no other: the picture holds the frame afterwards, keeps
    /// its time stamp, and every other picture is as it was.
    pub proof fn lemma_frame_finds_its_picture(self, key: u64, frame: FrameView)
        requires
            self.wf(),
            self.registry.contains_key(key),
            frame.timestamp == TimeVal::of_key(key),
        ensures
            self.attached(frame) is Ok,
            self.attached(frame)->Ok_0.pictures[self.registry[key]].buf == Some(frame),
            self.attached(frame)->Ok_0.pictures[self.registry[key]].timestamp == key,
            !self.attached(frame)->Ok_0.registry.contains_key(key),
            forall|id: u64|
                id != self.registry[key] && self.pictures.contains_key(id) ==> #[trigger] self.attached(
                    frame,
                )->Ok_0.pictures[id] == self.pictures[id],
    {
        TimeVal::lemma_key_round_trip(key);
    }

    /// The order in which two frames with different keys arrive makes no
    /// difference to where they end up.
    pub proof fn lemma_attach_commutes(self, first: FrameView, second: FrameView)
        requires
            self.wf(),
            first.timestamp.spec_key() != second.timestamp.spec_key(),
            self.registry.contains_key(first.timestamp.spec_key()),
            self.registry.contains_key(second.timestamp.spec_key()),
        ensures
            self.attached(first) is Ok,
            self.attached(second) is Ok,
            self.attached(first)->Ok_0.attached(second) is Ok,
            self.attached(second)->Ok_0.attached(first) is Ok,
            self.attached(first)->Ok_0.attached(second)->Ok_0 == self.attached(
                second,
            )->Ok_0.attached(first)->Ok_0,
    {
        let a = first.timestamp.spec_key();
        let b = second.timestamp.spec_key();
        assert(self.registry[a] != self.registry[b]);
        let one = self.attached(first)->Ok_0.attached(second)->Ok_0;
        let other = self.attached(second)->Ok_0.attached(first)->Ok_0;
        assert(one.pictures =~= other.pictures);
        assert(one.registry =~= other.registry);
    }

    /// After a poll of the queue of decoded frames that found a picture for
    /// every frame, the queue has no free buffer.
    pub proof fn lemma_polled_none_free(self)
        requires
            self.capture_polled().1 is Ok,
        ensures
            self.capture_polled().0.capture.num_free() == 0,
    {
        self.collected().0.capture.lemma_replenished_none_free();
    }
}

} // verus!
