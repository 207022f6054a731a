use vstd::prelude::*;

use crate::device::v4l2::stateless::buffer::count_in;
use crate::device::v4l2::stateless::buffer::lemma_count_partition;
use crate::device::v4l2::stateless::buffer::planes_view;
use crate::device::v4l2::stateless::buffer::BufferState;
use crate::device::v4l2::stateless::buffer::DqBufReply;
use crate::device::v4l2::stateless::buffer::V4l2CaptureCompletion;
use crate::device::v4l2::stateless::buffer::TimeVal;
use crate::device::v4l2::stateless::buffer::V4l2CaptureDqBuf;
use crate::device::v4l2::stateless::buffer::V4l2CaptureQBuf;
use crate::device::v4l2::stateless::buffer::V4l2OutputDqBuf;
use crate::device::v4l2::stateless::buffer::V4l2OutputQBuf;
use crate::device::v4l2::stateless::format::Format;
use crate::device::v4l2::stateless::format::PixelFormat;
use crate::device::v4l2::stateless::format::PlaneLayout;
use crate::device::v4l2::stateless::queue_view::BufferView;
use crate::device::v4l2::stateless::queue_view::QueueState;
use crate::device::v4l2::stateless::queue_view::QueueView;
use crate::error::Error;
use crate::Resolution;

verus! {

struct Slot {
    state: BufferState,
    timestamp: TimeVal,
    planes: Vec<Vec<u8>>,
}

impl Slot {
    spec fn view(&self) -> BufferView {
        BufferView {
            state: self.state,
            timestamp: self.timestamp,
            planes: planes_view(self.planes@),
        }
    }
}

/// A queue of the device and its pool of buffers.
///
/// The queue keeps the books on its buffers. What the device does with them
/// reaches it through `complete`; everything else is the caller's doing.
pub struct DeviceQueue {
    state: QueueState,
    plane_size: usize,
    slots: Vec<Slot>,
    done: Vec<usize>,
}

impl View for DeviceQueue {
    type V = QueueView;

    closed spec fn view(&self) -> QueueView {
        QueueView {
            state: self.state,
            plane_size: self.plane_size,
            buffers: Seq::new(self.slots@.len(), |i: int| self.slots@[i].view()),
            done: self.done@,
        }
    }
}

impl DeviceQueue {
    pub fn new() -> (q: Self)
        ensures
            q@ == QueueView::fresh(),
            q@.consistent(),
    {
        let q = DeviceQueue {
            state: QueueState::Uninitialized,
            plane_size: 0,
            slots: Vec::new(),
            done: Vec::new(),
        };
        assert(q@.buffers =~= Seq::empty());
        q
    }

    pub fn state(&self) -> (s: QueueState)
        ensures
            s == self@.state,
    {
        self.state
    }

    /// Takes the format that the device settled on. Where the step cannot be
    /// made the queue stays as it is.
    pub fn set_format(&mut self, reply: Option<Format>) -> (r: Result<(), Error>)
        requires
            old(self)@.consistent(),
        ensures
            final(self)@.consistent(),
            match r {
                Ok(()) => old(self)@.after_format(reply) == Ok::<QueueView, Error>(final(self)@),
                Err(e) => old(self)@.after_format(reply) == Err::<QueueView, Error>(e) && final(self)@ == old(self)@,
            },
    {
        match self.state {
            QueueState::Uninitialized => {},
            _ => {
                return Err(Error::Unimplemented);
            },
        }
        match reply {
            None => Err(Error::SetupFailure),
            Some(format) => {
                let plane_size: usize = if format.plane_fmt.len() > 0 {
                    format.plane_fmt[0].sizeimage as usize
                } else {
                    0
                };
                self.state = QueueState::FormatConfigured;
                self.plane_size = plane_size;
                proof {
                    assert(self@.buffers =~= old(self)@.buffers);
                    assert forall|k: int| 0 <= k < self@.done.len() implies self@.holds(
                        #[trigger] self@.done[k] as int,
                        BufferState::Done,
                    ) by {
                        assert(old(self)@.holds(old(self)@.done[k] as int, BufferState::Done));
                    }
                }
                Ok(())
            },
        }
    }

    /// Takes the number of buffers that the device granted, and streams.
    /// Where the step cannot be made the queue stays as it is.
    pub fn start_streaming(&mut self, granted: Option<usize>) -> (r: Result<(), Error>)
        requires
            old(self)@.consistent(),
        ensures
            final(self)@.consistent(),
            match r {
                Ok(()) => old(self)@.after_start(granted) == Ok::<QueueView, Error>(final(self)@),
                Err(e) => old(self)@.after_start(granted) == Err::<QueueView, Error>(e) && final(self)@ == old(self)@,
            },
    {
        match self.state {
            QueueState::Uninitialized => {
                return Err(Error::ProtocolViolation);
            },
            QueueState::Streaming => {
                return Err(Error::Unimplemented);
            },
            QueueState::FormatConfigured => {},
        }
        match granted {
            None => Err(Error::SetupFailure),
            Some(count) => {
                let plane_size: usize = self.plane_size;
                let mut slots: Vec<Slot> = Vec::new();
                let mut i: usize = 0;
                while i < count
                    invariant
                        i <= count,
                        slots@.len() == i,
                        forall|j: int|
                            0 <= j < i ==> (#[trigger] slots@[j]).view() == QueueView::streaming(
                                count as nat,
                                plane_size,
                            ).buffers[j],
                    decreases count - i,
                {
                    let slot = Slot {
                        state: BufferState::Free,
                        timestamp: TimeVal::new(0, 0),
                        planes: Vec::new(),
                    };
                    assert(slot.view().planes =~= Seq::empty());
                    slots.push(slot);
                    i = i + 1;
                }
                self.state = QueueState::Streaming;
                self.slots = slots;
                self.done = Vec::new();
                assert(self@.buffers =~= QueueView::streaming(count as nat, plane_size).buffers);
                Ok(())
            },
        }
    }

    /// Both steps in a row: from `Uninitialized` to `Streaming`, or not at
    /// all. Where the device refused either step, or the queue has been set
    /// up before, the queue stays as it is.
    pub fn set_resolution(&mut self, negotiated: Option<Format>, granted: Option<usize>) -> (r:
        Result<(), Error>)
        requires
            old(self)@.consistent(),
        ensures
            final(self)@.consistent(),
            match r {
                Ok(()) => old(self)@.after_setup(negotiated, granted) == Ok::<QueueView, Error>(
                    final(self)@,
                ),
                Err(e) => old(self)@.after_setup(negotiated, granted) == Err::<QueueView, Error>(e)
                    && final(self)@ == old(self)@,
            },
    {
        match self.state {
            QueueState::Uninitialized => {},
            _ => {
                return Err(Error::Unimplemented);
            },
        }
        if negotiated.is_none() || granted.is_none() {
            return Err(Error::SetupFailure);
        }
        let configured = self.set_format(negotiated);
        assert(configured is Ok);
        let started = self.start_streaming(granted);
        assert(started is Ok);
        Ok(())
    }

    pub fn num_buffers(&self) -> (n: usize)
        ensures
            n == self@.buffers.len(),
    {
        self.slots.len()
    }

    /// The number of bytes that the first plane of each buffer takes.
    pub fn plane_size(&self) -> (n: usize)
        ensures
            n == self@.plane_size,
    {
        self.plane_size
    }

    /// The number of buffers that are in `state`.
    pub fn count(&self, state: BufferState) -> (n: usize)
        ensures
            n == count_in(self@.states(), state),
            n <= self@.buffers.len(),
    {
        let mut n: usize = 0;
        let mut i: usize = 0;
        let ghost states = self@.states();
        while i < self.slots.len()
            invariant
                i <= self.slots@.len(),
                states == self@.states(),
                states.len() == self.slots@.len(),
                n == count_in(states.take(i as int), state),
                n <= i,
            decreases self.slots@.len() - i,
        {
            proof {
                assert(states.take(i as int + 1).drop_last() =~= states.take(i as int));
                assert(states[i as int] == self.slots@[i as int].state);
            }
            if self.slots[i].state == state {
                n = n + 1;
            }
            i = i + 1;
        }
        proof {
            assert(states.take(i as int) =~= states);
        }
        n
    }

    pub fn num_free_buffers(&self) -> (n: usize)
        ensures
            n == self@.num_free(),
    {
        self.count(BufferState::Free)
    }

    /// The number of buffers that the device holds: queued, or finished and
    /// not dequeued.
    pub fn num_in_device(&self) -> (n: usize)
        ensures
            n == self@.num_in_device(),
    {
        let total: usize = self.slots.len();
        let queued: usize = self.count(BufferState::Queued);
        let done: usize = self.count(BufferState::Done);
        proof {
            lemma_count_partition(self@.states());
            assert(self@.states().len() == total);
        }
        queued + done
    }

    /// The number of buffers that the caller holds: handed out for filling,
    /// or dequeued and not released.
    pub fn num_with_caller(&self) -> (n: usize)
        ensures
            n == self@.num_with_caller(),
    {
        let total: usize = self.slots.len();
        let prepared: usize = self.count(BufferState::PreQueue);
        let dequeued: usize = self.count(BufferState::Dequeued);
        proof {
            lemma_count_partition(self@.states());
            assert(self@.states().len() == total);
        }
        prepared + dequeued
    }

    /// Whether the books of the queue agree with those of the device, which
    /// counts `total` buffers, of which `free` are free and `queued` are
    /// with it.
    pub fn in_step_with(&self, total: usize, free: usize, queued: usize) -> (b: bool)
        ensures
            b == (total == self@.buffers.len() && free == self@.num_free() && queued
                == self@.num_in_device()),
    {
        total == self.num_buffers() && free == self.num_free_buffers() && queued
            == self.num_in_device()
    }

    /// The state that buffer `index` is in, if there is such a buffer.
    pub fn buffer_state(&self, index: usize) -> (s: Option<BufferState>)
        ensures
            s is Some <==> index < self@.buffers.len(),
            s matches Some(state) ==> state == self@.buffers[index as int].state,
    {
        if index < self.slots.len() {
            Some(self.slots[index].state)
        } else {
            None
        }
    }

    /// Hands out the first free buffer.
    pub fn acquire(&mut self) -> (r: Option<usize>)
        requires
            old(self)@.consistent(),
        ensures
            final(self)@.consistent(),
            r is None <==> old(self)@.num_free() == 0,
            r is None ==> final(self)@ == old(self)@,
            r matches Some(index) ==> old(self)@.first_free(index as int) && final(self)@ == old(
                self,
            )@.allocated(index as int),
    {
        proof {
            self@.lemma_num_free_zero();
        }
        let mut i: usize = 0;
        while i < self.slots.len()
            invariant
                i <= self.slots@.len(),
                *self == *old(self),
                self@.consistent(),
                forall|j: int| 0 <= j < i ==> !(#[trigger] self@.buffers[j].state is Free),
            decreases self.slots@.len() - i,
        {
            match self.slots[i].state {
                BufferState::Free => {
                    let ghost before = self@;
                    proof {
                        before.lemma_num_free_zero();
                    }
                    assert(before.buffers[i as int].state is Free);
                    assert(forall|k: int|
                        0 <= k < self.done@.len() ==> #[trigger] self.done@[k] != i) by {
                        assert forall|k: int| 0 <= k < self.done@.len() implies #[trigger] self.done@[k]
                            != i by {
                            assert(before.holds(before.done[k] as int, BufferState::Done));
                        }
                    }
                    self.slots[i].state = BufferState::PreQueue;
                    assert(self@.buffers =~= before.allocated(i as int).buffers);
                    proof {
                        before.lemma_done_kept(self@);
                    }
                    return Some(i);
                },
                _ => {},
            }
            i = i + 1;
        }
        None
    }

    /// Hands buffer `index` to the device with `timestamp`. The buffer must be
    /// one that `acquire` handed out and that has not been queued since.
    pub fn enqueue(&mut self, index: usize, timestamp: TimeVal) -> (ok: bool)
        requires
            old(self)@.consistent(),
        ensures
            final(self)@.consistent(),
            ok <==> old(self)@.holds(index as int, BufferState::PreQueue),
            ok ==> final(self)@ == old(self)@.queued(index as int, timestamp),
            !ok ==> final(self)@ == old(self)@,
    {
        if index >= self.slots.len() {
            return false;
        }
        match self.slots[index].state {
            BufferState::PreQueue => {},
            _ => {
                return false;
            },
        }
        let ghost before = self@;
        assert forall|k: int| 0 <= k < self.done@.len() implies #[trigger] self.done@[k]
            != index by {
            assert(before.holds(before.done[k] as int, BufferState::Done));
        }
        self.slots[index].state = BufferState::Queued;
        assert(self@.buffers =~= before.moved(index as int, BufferState::Queued).buffers);
        self.slots[index].timestamp = timestamp;
        assert(self@.buffers =~= before.queued(index as int, timestamp).buffers);
        proof {
            before.lemma_done_kept(self@);
        }
        true
    }

    /// Records that the device has finished buffer `index`, which keeps the
    /// time stamp it was queued with.
    pub fn complete(&mut self, index: usize) -> (ok: bool)
        requires
            old(self)@.consistent(),
        ensures
            final(self)@.consistent(),
            ok <==> old(self)@.holds(index as int, BufferState::Queued),
            ok ==> final(self)@ == old(self)@.completed(
                index as int,
                old(self)@.buffers[index as int].timestamp,
                old(self)@.buffers[index as int].planes,
            ),
            !ok ==> final(self)@ == old(self)@,
    {
        if index >= self.slots.len() {
            return false;
        }
        match self.slots[index].state {
            BufferState::Queued => {},
            _ => {
                return false;
            },
        }
        let ghost before = self@;
        assert forall|k: int| 0 <= k < self.done@.len() implies #[trigger] self.done@[k]
            != index by {
            assert(before.holds(before.done[k] as int, BufferState::Done));
        }
        self.slots[index].state = BufferState::Done;
        assert(self@.buffers =~= before.moved(index as int, BufferState::Done).buffers);
        self.done.push(index);
        assert(self@.buffers =~= before.completed(
            index as int,
            before.buffers[index as int].timestamp,
            before.buffers[index as int].planes,
        ).buffers);
        proof {
            before.lemma_done_pushed(self@, index);
        }
        true
    }

    /// Records that the device has finished buffer `index` and left a frame
    /// in it: `planes`, stamped with `timestamp`.
    pub fn complete_with(&mut self, index: usize, timestamp: TimeVal, planes: Vec<Vec<u8>>) -> (ok:
        bool)
        requires
            old(self)@.consistent(),
        ensures
            final(self)@.consistent(),
            ok <==> old(self)@.holds(index as int, BufferState::Queued),
            ok ==> final(self)@ == old(self)@.completed(
                index as int,
                timestamp,
                planes_view(planes@),
            ),
            !ok ==> final(self)@ == old(self)@,
    {
        if index >= self.slots.len() {
            return false;
        }
        match self.slots[index].state {
            BufferState::Queued => {},
            _ => {
                return false;
            },
        }
        let ghost before = self@;
        assert forall|k: int| 0 <= k < self.done@.len() implies #[trigger] self.done@[k]
            != index by {
            assert(before.holds(before.done[k] as int, BufferState::Done));
        }
        self.slots[index].timestamp = timestamp;
        assert(self@.done == before.done);
        assert(forall|k: int| 0 <= k < self@.buffers.len() ==> (#[trigger] self@.buffers[k]).state
            == before.buffers[k].state);
        self.slots[index].planes = planes;
        assert(forall|k: int| 0 <= k < self@.buffers.len() ==> (#[trigger] self@.buffers[k]).state
            == before.buffers[k].state);
        self.slots[index].state = BufferState::Done;
        self.done.push(index);
        assert(self@.buffers =~= before.completed(
            index as int,
            timestamp,
            planes_view(planes@),
        ).buffers);
        proof {
            before.lemma_done_pushed(self@, index);
        }
        true
    }

    /// Takes the oldest finished buffer out of the device's hands: its index,
    /// its time stamp and its planes.
    pub fn dequeue(&mut self) -> (r: Option<(usize, TimeVal, Vec<Vec<u8>>)>)
        requires
            old(self)@.consistent(),
        ensures
            final(self)@.consistent(),
            r is None <==> old(self)@.done.len() == 0,
            r is None ==> final(self)@ == old(self)@,
            r matches Some((index, timestamp, planes)) ==> {
                &&& index == old(self)@.done[0]
                &&& old(self)@.holds(index as int, BufferState::Done)
                &&& timestamp == old(self)@.buffers[index as int].timestamp
                &&& planes_view(planes@) == old(self)@.buffers[index as int].planes
                &&& final(self)@ == old(self)@.dequeued()
            },
    {
        if self.done.len() == 0 {
            return None;
        }
        let ghost before = self@;
        assert(before.holds(before.done[0] as int, BufferState::Done));
        let index: usize = self.done.remove(0);
        assert(self.done@ =~= before.done.drop_first());
        assert forall|k: int| 0 <= k < self.done@.len() implies #[trigger] self.done@[k]
            != index by {
            assert(self.done@[k] == before.done[k + 1]);
        }
        assert forall|k: int| 0 <= k < self.done@.len() implies self@.holds(
            #[trigger] self.done@[k] as int,
            BufferState::Done,
        ) by {
            assert(self.done@[k] == before.done[k + 1]);
            assert(before.holds(before.done[k + 1] as int, BufferState::Done));
        }
        let timestamp: TimeVal = self.slots[index].timestamp;
        let mut planes: Vec<Vec<u8>> = Vec::new();
        std::mem::swap(&mut self.slots[index].planes, &mut planes);
        assert(forall|k: int| 0 <= k < self@.buffers.len() ==> (#[trigger] self@.buffers[k]).state
            == before.buffers[k].state);
        self.slots[index].state = BufferState::Dequeued;
        assert(planes_view(self.slots@[index as int].planes@) =~= Seq::<Seq<u8>>::empty());
        assert(self@.buffers =~= before.dequeued().buffers);
        proof {
            before.lemma_done_dropped(self@);
        }
        Some((index, timestamp, planes))
    }

    /// Takes buffer `index` back from the caller, who had dequeued it.
    pub fn release(&mut self, index: usize) -> (ok: bool)
        requires
            old(self)@.consistent(),
        ensures
            final(self)@.consistent(),
            ok <==> old(self)@.holds(index as int, BufferState::Dequeued),
            ok ==> final(self)@ == old(self)@.released(index as int),
            !ok ==> final(self)@ == old(self)@,
    {
        if index >= self.slots.len() {
            return false;
        }
        match self.slots[index].state {
            BufferState::Dequeued => {},
            _ => {
                return false;
            },
        }
        let ghost before = self@;
        assert forall|k: int| 0 <= k < self.done@.len() implies #[trigger] self.done@[k]
            != index by {
            assert(before.holds(before.done[k] as int, BufferState::Done));
        }
        self.slots[index].state = BufferState::Free;
        assert(self@.buffers =~= before.released(index as int).buffers);
        proof {
            before.lemma_done_kept(self@);
        }
        true
    }
}


/// The four characters that name H.264 parsed slice data.
pub const H264_SLICE_FOURCC: [u8; 4] = [0x53, 0x32, 0x36, 0x34];

/// The number of bytes asked for each buffer of encoded data: 1 MB per
/// decoding unit should be enough for most streams.
pub const OUTPUT_PLANE_SIZE: u32 = 0x10_0000;

/// The queue that carries encoded data into the device.
pub struct V4l2OutputQueue {
    handle: DeviceQueue,
    num_buffers: u32,
}

impl View for V4l2OutputQueue {
    type V = QueueView;

    closed spec fn view(&self) -> QueueView {
        self.handle@
    }
}

impl V4l2OutputQueue {
    /// The number of buffers that will be asked of the device.
    pub closed spec fn spec_requested_buffers(&self) -> u32 {
        self.num_buffers
    }

    pub fn new(num_buffers: u32) -> (q: Self)
        ensures
            q@ == QueueView::fresh(),
            q@.consistent(),
            q.spec_requested_buffers() == num_buffers,
    {
        V4l2OutputQueue { handle: DeviceQueue::new(), num_buffers }
    }

    #[verifier::when_used_as_spec(spec_requested_buffers)]
    pub fn requested_buffers(&self) -> (n: u32)
        ensures
            n == self.spec_requested_buffers(),
    {
        self.num_buffers
    }

    /// The number of bytes that the first plane of each buffer takes.
    pub fn plane_size(&self) -> (n: usize)
        ensures
            n == self@.plane_size,
    {
        self.handle.plane_size()
    }

    /// The format to ask of the device for frames of size `res`: H.264
    /// slices in one plane of `OUTPUT_PLANE_SIZE` bytes.
    pub fn format_request(res: Resolution) -> (f: Format)
        ensures
            f.width == res.width,
            f.height == res.height,
            f.pixelformat.0 == PixelFormat::code_of(H264_SLICE_FOURCC),
            f.plane_fmt@ == seq![PlaneLayout { sizeimage: OUTPUT_PLANE_SIZE, bytesperline: 0 }],
    {
        let mut plane_fmt: Vec<PlaneLayout> = Vec::new();
        plane_fmt.push(PlaneLayout { sizeimage: OUTPUT_PLANE_SIZE, bytesperline: 0 });
        assert(plane_fmt@ =~= seq![PlaneLayout { sizeimage: OUTPUT_PLANE_SIZE, bytesperline: 0 }]);
        Format {
            width: res.width,
            height: res.height,
            pixelformat: PixelFormat::from_fourcc(&H264_SLICE_FOURCC),
            plane_fmt,
        }
    }

    /// Brings the queue from `Uninitialized` to `Streaming`. `negotiated` is
    /// the format that the device settled on when it was asked for
    /// `format_request`, `granted` the number of buffers that it allocated
    /// before the stream started; `None` stands for a refusal. A queue that
    /// has been set up stays as it is and answers `Unimplemented`: the format
    /// is set once. A refusal of the device leaves the queue as it is too.
    pub fn set_resolution(&mut self, negotiated: Option<Format>, granted: Option<usize>) -> (r:
        Result<(), Error>)
        requires
            old(self)@.consistent(),
        ensures
            final(self)@.consistent(),
            final(self).spec_requested_buffers() == old(self).spec_requested_buffers(),
            match r {
                Ok(()) => old(self)@.after_setup(negotiated, granted) == Ok::<QueueView, Error>(
                    final(self)@,
                ),
                Err(e) => old(self)@.after_setup(negotiated, granted) == Err::<QueueView, Error>(e)
                    && final(self)@ == old(self)@,
            },
    {
        self.handle.set_resolution(negotiated, granted)
    }

    /// How far the setup of the queue has come.
    pub fn state(&self) -> (s: QueueState)
        ensures
            s == self@.state,
    {
        self.handle.state()
    }

    pub fn is_streaming(&self) -> (b: bool)
        ensures
            b == (self@.state is Streaming),
    {
        match self.handle.state() {
            QueueState::Streaming => true,
            _ => false,
        }
    }

    pub fn num_buffers(&self) -> (n: usize)
        requires
            self@.state is Streaming,
        ensures
            n == self@.buffers.len(),
    {
        self.handle.num_buffers()
    }

    pub fn num_free_buffers(&self) -> (n: usize)
        requires
            self@.state is Streaming,
        ensures
            n == self@.num_free(),
    {
        self.handle.num_free_buffers()
    }

    /// Whether the books of the queue agree with those of the device, which
    /// counts `total` buffers, of which `free` are free and `queued` are
    /// with it.
    pub fn in_step_with(&self, total: usize, free: usize, queued: usize) -> (b: bool)
        ensures
            b == (total == self@.buffers.len() && free == self@.num_free() && queued
                == self@.num_in_device()),
    {
        self.handle.in_step_with(total, free, queued)
    }

    /// The state that buffer `index` is in, if there is such a buffer.
    pub fn buffer_state(&self, index: usize) -> (s: Option<BufferState>)
        ensures
            s is Some <==> index < self@.buffers.len(),
            s matches Some(state) ==> state == self@.buffers[index as int].state,
    {
        self.handle.buffer_state(index)
    }

    /// Hands out the first free buffer, or fails with `ResourceExhausted`
    /// where none is free. Never waits.
    pub fn alloc_buffer(&mut self) -> (r: Result<V4l2OutputQBuf, Error>)
        requires
            old(self)@.state is Streaming,
            old(self)@.consistent(),
        ensures
            final(self)@.consistent(),
            final(self).spec_requested_buffers() == old(self).spec_requested_buffers(),
            r is Err <==> old(self)@.num_free() == 0,
            r matches Err(e) ==> e == Error::ResourceExhausted && final(self)@ == old(self)@,
            r matches Ok(buf) ==> {
                &&& old(self)@.first_free(buf.spec_index() as int)
                &&& buf.spec_capacity() == old(self)@.plane_size
                &&& final(self)@ == old(self)@.allocated(buf.spec_index() as int)
            },
    {
        match self.handle.acquire() {
            Some(index) => Ok(V4l2OutputQBuf::new(index, self.handle.plane_size())),
            None => Err(Error::ResourceExhausted),
        }
    }

    /// Hands `buf` to the device with `timestamp`. A buffer that this queue
    /// did not hand out, or that went to the device already, is a
    /// `ProtocolViolation`.
    pub fn queue_buffer(&mut self, buf: V4l2OutputQBuf, timestamp: TimeVal) -> (r: Result<
        (),
        Error,
    >)
        requires
            old(self)@.consistent(),
        ensures
            final(self)@.consistent(),
            final(self).spec_requested_buffers() == old(self).spec_requested_buffers(),
            r is Ok <==> old(self)@.holds(buf.spec_index() as int, BufferState::PreQueue),
            r is Ok ==> final(self)@ == old(self)@.queued(buf.spec_index() as int, timestamp),
            r matches Err(e) ==> e == Error::ProtocolViolation && final(self)@ == old(self)@,
    {
        if self.handle.enqueue(buf.index(), timestamp) {
            Ok(())
        } else {
            Err(Error::ProtocolViolation)
        }
    }

    /// Records that the device has finished buffer `index`. A buffer that
    /// was not with the device is a `ProtocolViolation`.
    pub fn complete(&mut self, index: usize) -> (r: Result<(), Error>)
        requires
            old(self)@.consistent(),
        ensures
            final(self)@.consistent(),
            final(self).spec_requested_buffers() == old(self).spec_requested_buffers(),
            r is Ok <==> old(self)@.holds(index as int, BufferState::Queued),
            r is Ok ==> final(self)@ == old(self)@.completed(
                index as int,
                old(self)@.buffers[index as int].timestamp,
                old(self)@.buffers[index as int].planes,
            ),
            r matches Err(e) ==> e == Error::ProtocolViolation && final(self)@ == old(self)@,
    {
        if self.handle.complete(index) {
            Ok(())
        } else {
            Err(Error::ProtocolViolation)
        }
    }

    /// Takes what the device answered when it was asked for a finished
    /// buffer, and says whether it is to be asked again. A finished buffer is
    /// recorded as `complete` records it, and the device is asked again.
    /// Where it has finished none, that is all for now. Any other failure of
    /// the device is `DeviceIo`. But for a finished buffer that is recorded,
    /// the queue stays as it is.
    pub fn take_answer(&mut self, reply: DqBufReply<usize>) -> (r: Result<bool, Error>)
        requires
            old(self)@.consistent(),
        ensures
            final(self)@.consistent(),
            final(self).spec_requested_buffers() == old(self).spec_requested_buffers(),
            match reply {
                DqBufReply::Finished(index) => if old(self)@.holds(
                    index as int,
                    BufferState::Queued,
                ) {
                    r == Ok::<bool, Error>(true) && final(self)@ == old(self)@.completed(
                        index as int,
                        old(self)@.buffers[index as int].timestamp,
                        old(self)@.buffers[index as int].planes,
                    )
                } else {
                    r == Err::<bool, Error>(Error::ProtocolViolation) && final(self)@ == old(self)@
                },
                DqBufReply::NotReady => r == Ok::<bool, Error>(false) && final(self)@ == old(self)@,
                DqBufReply::Failed => r == Err::<bool, Error>(Error::DeviceIo) && final(self)@
                    == old(self)@,
            },
    {
        match reply {
            DqBufReply::Finished(index) => match self.complete(index) {
                Ok(()) => Ok(true),
                Err(e) => Err(e),
            },
            DqBufReply::NotReady => Ok(false),
            DqBufReply::Failed => Err(Error::DeviceIo),
        }
    }

    /// Takes the oldest finished buffer from the device, with the time stamp
    /// it was queued with, or `None` where the device has finished none.
    /// Never waits.
    pub fn dequeue_buffer(&mut self) -> (r: Option<V4l2OutputDqBuf>)
        requires
            old(self)@.state is Streaming,
            old(self)@.consistent(),
        ensures
            final(self)@.consistent(),
            final(self).spec_requested_buffers() == old(self).spec_requested_buffers(),
            r is None <==> old(self)@.done.len() == 0,
            r is None ==> final(self)@ == old(self)@,
            r matches Some(buf) ==> {
                &&& buf.spec_index() == old(self)@.done[0]
                &&& buf.spec_timestamp() == old(self)@.buffers[buf.spec_index() as int].timestamp
                &&& final(self)@ == old(self)@.dequeued()
            },
    {
        match self.handle.dequeue() {
            None => None,
            Some((index, timestamp, _)) => Some(V4l2OutputDqBuf::new(index, timestamp)),
        }
    }

    /// Takes a dequeued buffer back into the pool of free ones. A buffer
    /// that is not dequeued at the moment is a `ProtocolViolation`.
    pub fn release_buffer(&mut self, buf: V4l2OutputDqBuf) -> (r: Result<(), Error>)
        requires
            old(self)@.consistent(),
        ensures
            final(self)@.consistent(),
            final(self).spec_requested_buffers() == old(self).spec_requested_buffers(),
            r is Ok <==> old(self)@.holds(buf.spec_index() as int, BufferState::Dequeued),
            r is Ok ==> final(self)@ == old(self)@.released(buf.spec_index() as int),
            r matches Err(e) ==> e == Error::ProtocolViolation && final(self)@ == old(self)@,
    {
        if self.handle.release(buf.index()) {
            Ok(())
        } else {
            Err(Error::ProtocolViolation)
        }
    }
}

/// The queue that carries decoded frames out of the device.
pub struct V4l2CaptureQueue {
    handle: DeviceQueue,
    num_buffers: u32,
}

impl View for V4l2CaptureQueue {
    type V = QueueView;

    closed spec fn view(&self) -> QueueView {
        self.handle@
    }
}

impl V4l2CaptureQueue {
    /// The number of buffers that will be asked of the device.
    pub closed spec fn spec_requested_buffers(&self) -> u32 {
        self.num_buffers
    }

    pub fn new(num_buffers: u32) -> (q: Self)
        ensures
            q@ == QueueView::fresh(),
            q@.consistent(),
            q.spec_requested_buffers() == num_buffers,
    {
        V4l2CaptureQueue { handle: DeviceQueue::new(), num_buffers }
    }

    #[verifier::when_used_as_spec(spec_requested_buffers)]
    pub fn requested_buffers(&self) -> (n: u32)
        ensures
            n == self.spec_requested_buffers(),
    {
        self.num_buffers
    }

    /// Brings the queue from `Uninitialized` to `Streaming`. The device
    /// derives the format of this side from the encoded side: `negotiated`
    /// is the format that it reports, `granted` the number of buffers that it
    /// allocated before the stream started; `None` stands for a refusal. A
    /// queue that has been set up stays as it is and answers
    /// `Unimplemented`. A refusal of the device leaves the queue as it is
    /// too.
    pub fn set_resolution(&mut self, negotiated: Option<Format>, granted: Option<usize>) -> (r:
        Result<(), Error>)
        requires
            old(self)@.consistent(),
        ensures
            final(self)@.consistent(),
            final(self).spec_requested_buffers() == old(self).spec_requested_buffers(),
            match r {
                Ok(()) => old(self)@.after_setup(negotiated, granted) == Ok::<QueueView, Error>(
                    final(self)@,
                ),
                Err(e) => old(self)@.after_setup(negotiated, granted) == Err::<QueueView, Error>(e)
                    && final(self)@ == old(self)@,
            },
    {
        self.handle.set_resolution(negotiated, granted)
    }

    /// How far the setup of the queue has come.
    pub fn state(&self) -> (s: QueueState)
        ensures
            s == self@.state,
    {
        self.handle.state()
    }

    pub fn is_streaming(&self) -> (b: bool)
        ensures
            b == (self@.state is Streaming),
    {
        match self.handle.state() {
            QueueState::Streaming => true,
            _ => false,
        }
    }

    pub fn num_buffers(&self) -> (n: usize)
        requires
            self@.state is Streaming,
        ensures
            n == self@.buffers.len(),
    {
        self.handle.num_buffers()
    }

    pub fn num_free_buffers(&self) -> (n: usize)
        requires
            self@.state is Streaming,
        ensures
            n == self@.num_free(),
    {
        self.handle.num_free_buffers()
    }

    /// Whether the books of the queue agree with those of the device, which
    /// counts `total` buffers, of which `free` are free and `queued` are
    /// with it.
    pub fn in_step_with(&self, total: usize, free: usize, queued: usize) -> (b: bool)
        ensures
            b == (total == self@.buffers.len() && free == self@.num_free() && queued
                == self@.num_in_device()),
    {
        self.handle.in_step_with(total, free, queued)
    }

    /// The state that buffer `index` is in, if there is such a buffer.
    pub fn buffer_state(&self, index: usize) -> (s: Option<BufferState>)
        ensures
            s is Some <==> index < self@.buffers.len(),
            s matches Some(state) ==> state == self@.buffers[index as int].state,
    {
        self.handle.buffer_state(index)
    }

    /// Hands out the first free buffer, or fails with `ResourceExhausted`
    /// where none is free. Never waits.
    pub fn alloc_buffer(&mut self) -> (r: Result<V4l2CaptureQBuf, Error>)
        requires
            old(self)@.state is Streaming,
            old(self)@.consistent(),
        ensures
            final(self)@.consistent(),
            final(self).spec_requested_buffers() == old(self).spec_requested_buffers(),
            r is Err <==> old(self)@.num_free() == 0,
            r matches Err(e) ==> e == Error::ResourceExhausted && final(self)@ == old(self)@,
            r matches Ok(buf) ==> {
                &&& old(self)@.first_free(buf.spec_index() as int)
                &&& final(self)@ == old(self)@.allocated(buf.spec_index() as int)
            },
    {
        match self.handle.acquire() {
            Some(index) => Ok(V4l2CaptureQBuf::new(index)),
            None => Err(Error::ResourceExhausted),
        }
    }

    /// Hands `buf` to the device, which will decode a frame into it. A
    /// buffer that this queue did not hand out, or that went to the device
    /// already, is a `ProtocolViolation`.
    pub fn queue_buffer(&mut self, buf: V4l2CaptureQBuf) -> (r: Result<(), Error>)
        requires
            old(self)@.consistent(),
        ensures
            final(self)@.consistent(),
            final(self).spec_requested_buffers() == old(self).spec_requested_buffers(),
            r is Ok <==> old(self)@.holds(buf.spec_index() as int, BufferState::PreQueue),
            r is Ok ==> final(self)@ == old(self)@.queued(
                buf.spec_index() as int,
                TimeVal { tv_sec: 0, tv_usec: 0 },
            ),
            r matches Err(e) ==> e == Error::ProtocolViolation && final(self)@ == old(self)@,
    {
        if self.handle.enqueue(buf.index(), TimeVal::new(0, 0)) {
            Ok(())
        } else {
            Err(Error::ProtocolViolation)
        }
    }

    /// Records that the device has decoded a frame into buffer `index`:
    /// `planes`, stamped with the `timestamp` of the job it belongs to. A
    /// buffer that was not with the device is a `ProtocolViolation`.
    pub fn complete(&mut self, index: usize, timestamp: TimeVal, planes: Vec<Vec<u8>>) -> (r:
        Result<(), Error>)
        requires
            old(self)@.consistent(),
        ensures
            final(self)@.consistent(),
            final(self).spec_requested_buffers() == old(self).spec_requested_buffers(),
            r is Ok <==> old(self)@.holds(index as int, BufferState::Queued),
            r is Ok ==> final(self)@ == old(self)@.completed(
                index as int,
                timestamp,
                planes_view(planes@),
            ),
            r matches Err(e) ==> e == Error::ProtocolViolation && final(self)@ == old(self)@,
    {
        if self.handle.complete_with(index, timestamp, planes) {
            Ok(())
        } else {
            Err(Error::ProtocolViolation)
        }
    }

    /// Takes what the device answered when it was asked for a decoded
    /// frame, and says whether it is to be asked again. A frame is recorded
    /// as `complete` records it, and the device is asked again. Where it has
    /// finished none, that is all for now. Any other failure of the device is
    /// `DeviceIo`. But for a frame that is recorded, the queue stays as it
    /// is.
    pub fn take_answer(&mut self, reply: DqBufReply<V4l2CaptureCompletion>) -> (r: Result<
        bool,
        Error,
    >)
        requires
            old(self)@.consistent(),
        ensures
            final(self)@.consistent(),
            final(self).spec_requested_buffers() == old(self).spec_requested_buffers(),
            match reply {
                DqBufReply::Finished(frame) => if old(self)@.holds(
                    frame.index as int,
                    BufferState::Queued,
                ) {
                    r == Ok::<bool, Error>(true) && final(self)@ == old(self)@.completed(
                        frame.index as int,
                        frame.timestamp,
                        planes_view(frame.planes@),
                    )
                } else {
                    r == Err::<bool, Error>(Error::ProtocolViolation) && final(self)@ == old(self)@
                },
                DqBufReply::NotReady => r == Ok::<bool, Error>(false) && final(self)@ == old(self)@,
                DqBufReply::Failed => r == Err::<bool, Error>(Error::DeviceIo) && final(self)@
                    == old(self)@,
            },
    {
        match reply {
            DqBufReply::Finished(frame) => match self.complete(
                frame.index,
                frame.timestamp,
                frame.planes,
            ) {
                Ok(()) => Ok(true),
                Err(e) => Err(e),
            },
            DqBufReply::NotReady => Ok(false),
            DqBufReply::Failed => Err(Error::DeviceIo),
        }
    }

    /// Takes the oldest decoded frame from the device, or `None` where it
    /// has finished none. Never waits.
    pub fn dequeue_buffer(&mut self) -> (r: Option<V4l2CaptureDqBuf>)
        requires
            old(self)@.state is Streaming,
            old(self)@.consistent(),
        ensures
            final(self)@.consistent(),
            final(self).spec_requested_buffers() == old(self).spec_requested_buffers(),
            r is None <==> old(self)@.done.len() == 0,
            r is None ==> final(self)@ == old(self)@,
            r matches Some(buf) ==> {
                &&& buf.spec_index() == old(self)@.done[0]
                &&& buf.spec_timestamp() == old(self)@.buffers[buf.spec_index() as int].timestamp
                &&& buf.spec_planes() == old(self)@.buffers[buf.spec_index() as int].planes
                &&& final(self)@ == old(self)@.dequeued()
            },
    {
        match self.handle.dequeue() {
            None => None,
            Some((index, timestamp, planes)) => Some(
                V4l2CaptureDqBuf::new(index, timestamp, planes),
            ),
        }
    }

    /// Takes a dequeued buffer back into the pool of free ones. A buffer
    /// that is not dequeued at the moment is a `ProtocolViolation`.
    pub fn release_buffer(&mut self, buf: V4l2CaptureDqBuf) -> (r: Result<(), Error>)
        requires
            old(self)@.consistent(),
        ensures
            final(self)@.consistent(),
            final(self).spec_requested_buffers() == old(self).spec_requested_buffers(),
            r is Ok <==> old(self)@.holds(buf.spec_index() as int, BufferState::Dequeued),
            r is Ok ==> final(self)@ == old(self)@.released(buf.spec_index() as int),
            r matches Err(e) ==> e == Error::ProtocolViolation && final(self)@ == old(self)@,
    {
        if self.handle.release(buf.index()) {
            Ok(())
        } else {
            Err(Error::ProtocolViolation)
        }
    }
}

} // verus!
