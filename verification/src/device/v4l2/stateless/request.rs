use vstd::prelude::*;

use crate::device::v4l2::stateless::buffer::BufferState;
use crate::device::v4l2::stateless::buffer::TimeVal;
use crate::device::v4l2::stateless::buffer::V4l2OutputQBuf;
use crate::device::v4l2::stateless::controls::h264::V4l2Ctrl;
use crate::device::v4l2::stateless::queue::V4l2OutputQueue;
use crate::error::Error;

verus! {

/// The number of bytes of the marker that goes before each piece of payload.
pub const START_CODE_LEN: usize = 3;

/// The marker that goes before each piece of payload.
pub open spec fn start_code() -> Seq<u8> {
    seq![0u8, 0u8, 1u8]
}

/// One job for the device in the making: the buffer it is bound to, its time
/// stamp, its control blocks and the payload written so far.
#[derive(Debug)]
pub struct V4l2Request {
    timestamp: TimeVal,
    buf: V4l2OutputQBuf,
    data: Vec<u8>,
    ctrls: Vec<V4l2Ctrl>,
}

/// A request, seen from the contracts.
pub struct RequestView {
    pub timestamp: TimeVal,
    pub index: usize,
    pub capacity: usize,
    pub data: Seq<u8>,
    pub ctrls: Seq<V4l2Ctrl>,
}

/// A finished job, as the device is to receive it: the buffer to queue, its
/// time stamp, the control blocks in the order they were set, and the
/// payload, whose length is the number of bytes used in the buffer.
#[derive(Debug)]
pub struct V4l2Submission {
    pub index: usize,
    pub timestamp: TimeVal,
    pub ctrls: Vec<V4l2Ctrl>,
    pub data: Vec<u8>,
}

impl View for V4l2Request {
    type V = RequestView;

    closed spec fn view(&self) -> RequestView {
        RequestView {
            timestamp: self.timestamp,
            index: self.buf.spec_index(),
            capacity: self.buf.spec_capacity(),
            data: self.data@,
            ctrls: self.ctrls@,
        }
    }
}

impl RequestView {
    /// Whether `len` more bytes of payload and their marker still fit.
    pub open spec fn has_room(self, len: nat) -> bool {
        self.data.len() + START_CODE_LEN + len <= self.capacity
    }

    /// The job that this request submits.
    pub open spec fn is_submitted_as(self, job: V4l2Submission) -> bool {
        &&& job.index == self.index
        &&& job.timestamp == self.timestamp
        &&& job.ctrls@ == self.ctrls
        &&& job.data@ == self.data
    }
}

impl V4l2Request {
    /// Binds `buf` to a new job with no payload, no control block and a time
    /// stamp of zero.
    pub fn new(buf: V4l2OutputQBuf) -> (r: Self)
        ensures
            r@ == (RequestView {
                timestamp: TimeVal { tv_sec: 0, tv_usec: 0 },
                index: buf.spec_index(),
                capacity: buf.spec_capacity(),
                data: Seq::empty(),
                ctrls: Seq::empty(),
            }),
    {
        V4l2Request { timestamp: TimeVal::new(0, 0), buf, data: Vec::new(), ctrls: Vec::new() }
    }

    /// The number of bytes of payload written so far.
    pub fn length(&self) -> (n: usize)
        ensures
            n == self@.data.len(),
    {
        self.data.len()
    }

    /// Sets the time stamp by which the completion is found again: the key
    /// goes into the microseconds.
    pub fn set_timestamp(&mut self, timestamp: u64) -> (r: &mut Self)
        ensures
            r@ == (RequestView { timestamp: TimeVal::of_key(timestamp), ..old(self)@ }),
            *final(self) == *final(r),
    {
        self.timestamp = TimeVal::from_key(timestamp);
        self
    }

    /// Adds one control block behind those that are there.
    pub fn set_ctrl(&mut self, ctrl: V4l2Ctrl) -> (r: &mut Self)
        ensures
            r@ == (RequestView { ctrls: old(self)@.ctrls.push(ctrl), ..old(self)@ }),
            *final(self) == *final(r),
    {
        self.ctrls.push(ctrl);
        self
    }

    /// Writes the start code and then `data` behind the payload that is
    /// there. Where the buffer has no room for both, nothing is written and
    /// the job fails with `DeviceIo`.
    pub fn set_data(&mut self, data: &[u8]) -> (r: Result<(), Error>)
        ensures
            r is Ok <==> old(self)@.has_room(data@.len()),
            r is Ok ==> final(self)@ == (RequestView {
                data: old(self)@.data + start_code() + data@,
                ..old(self)@
            }),
            r matches Err(e) ==> e == Error::DeviceIo && final(self)@ == old(self)@,
    {
        let capacity: usize = self.buf.capacity();
        let length: usize = self.data.len();
        if length > capacity || capacity - length < START_CODE_LEN || capacity - length
            - START_CODE_LEN < data.len() {
            return Err(Error::DeviceIo);
        }
        self.data.push(0);
        self.data.push(0);
        self.data.push(1);
        assert(self.data@ =~= old(self)@.data + start_code());
        self.data.extend_from_slice(data);
        assert(self.data@ =~= old(self)@.data + start_code() + data@);
        Ok(())
    }

    /// Hands the job over: the buffer goes to the device through `queue`
    /// with the job's time stamp, and the result says what the device is to
    /// receive. A buffer that `queue` did not hand out for filling is a
    /// `ProtocolViolation`, and `queue` stays as it was.
    pub fn submit(self, queue: &mut V4l2OutputQueue) -> (r: Result<V4l2Submission, Error>)
        requires
            old(queue)@.consistent(),
        ensures
            final(queue)@.consistent(),
            final(queue).spec_requested_buffers() == old(queue).spec_requested_buffers(),
            r is Ok <==> old(queue)@.holds(self@.index as int, BufferState::PreQueue),
            r matches Ok(job) ==> {
                &&& self@.is_submitted_as(job)
                &&& final(queue)@ == old(queue)@.queued(self@.index as int, self@.timestamp)
            },
            r matches Err(e) ==> e == Error::ProtocolViolation && final(queue)@ == old(queue)@,
    {
        let index: usize = self.buf.index();
        let timestamp: TimeVal = self.timestamp;
        match queue.queue_buffer(self.buf, timestamp) {
            Err(e) => Err(e),
            Ok(()) => Ok(V4l2Submission { index, timestamp, ctrls: self.ctrls, data: self.data }),
        }
    }
}

} // verus!
