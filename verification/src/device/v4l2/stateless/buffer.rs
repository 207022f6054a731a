use vstd::prelude::*;

verus! {

/// The time stamp that travels with a buffer through the device.
#[derive(Clone, Copy, Debug, PartialEq, Eq, Structural)]
pub struct TimeVal {
    pub tv_sec: i64,
    pub tv_usec: i64,
}

impl TimeVal {
    pub fn new(seconds: i64, microseconds: i64) -> (t: Self)
        ensures
            t == (TimeVal { tv_sec: seconds, tv_usec: microseconds }),
    {
        TimeVal { tv_sec: seconds, tv_usec: microseconds }
    }

    /// The time stamp that stands for a picture's correlation key: the key
    /// fills the microseconds, bit for bit, and the seconds are zero.
    pub open spec fn of_key(key: u64) -> TimeVal {
        TimeVal { tv_sec: 0, tv_usec: key as i64 }
    }

    /// The correlation key that a time stamp carries.
    pub open spec fn spec_key(&self) -> u64 {
        self.tv_usec as u64
    }

    pub fn from_key(key: u64) -> (t: Self)
        ensures
            t == Self::of_key(key),
    {
        TimeVal::new(0, key as i64)
    }

    #[verifier::when_used_as_spec(spec_key)]
    pub fn key(&self) -> (key: u64)
        ensures
            key == self.spec_key(),
    {
        self.tv_usec as u64
    }

    /// The time stamp in nanoseconds, counted as the device counts them:
    /// in 64 bits without a sign, of which the lowest are kept.
    pub open spec fn spec_to_ns(&self) -> u64 {
        ((self.tv_sec as u64 as nat * 1_000_000_000 + self.tv_usec as u64 as nat * 1_000)
            % 0x1_0000_0000_0000_0000) as u64
    }

    /// The time stamp in nanoseconds: the number by which the device names
    /// a decoded frame when a later frame refers to it.
    #[verifier::when_used_as_spec(spec_to_ns)]
    pub fn to_ns(&self) -> (ns: u64)
        ensures
            ns == self.spec_to_ns(),
    {
        let seconds: u64 = (self.tv_sec as u64).wrapping_mul(1_000_000_000);
        let micros: u64 = (self.tv_usec as u64).wrapping_mul(1_000);
        let ns: u64 = seconds.wrapping_add(micros);
        proof {
            let a = self.tv_sec as u64 as nat * 1_000_000_000;
            let b = self.tv_usec as u64 as nat * 1_000;
            let m = 0x1_0000_0000_0000_0000nat;
            vstd::arithmetic::div_mod::lemma_add_mod_noop(a as int, b as int, m as int);
            assert(seconds == a % m);
            assert(micros == b % m);
            if seconds + micros > u64::MAX {
                assert(ns == seconds + micros - m);
                vstd::arithmetic::div_mod::lemma_mod_sub_multiples_vanish(
                    seconds + micros,
                    m as int,
                );
                vstd::arithmetic::div_mod::lemma_small_mod(ns as nat, m);
            } else {
                vstd::arithmetic::div_mod::lemma_small_mod(ns as nat, m);
            }
        }
        ns
    }

    /// A key survives the way into a time stamp and back, whatever its size.
    pub proof fn lemma_key_round_trip(key: u64)
        ensures
            Self::of_key(key).spec_key() == key,
    {
        assert((key as i64) as u64 == key) by (bit_vector);
    }

    /// Two keys with the same time stamp are the same key.
    pub proof fn lemma_of_key_injective(a: u64, b: u64)
        requires
            Self::of_key(a) == Self::of_key(b),
        ensures
            a == b,
    {
        Self::lemma_key_round_trip(a);
        Self::lemma_key_round_trip(b);
    }
}

/// Where a buffer of a queue is at a given moment.
#[derive(Clone, Copy, Debug, PartialEq, Eq, Structural)]
pub enum BufferState {
    /// Idle, and can be handed out.
    Free,
    /// Handed to the caller, who has not queued it yet.
    PreQueue,
    /// Queued to the device, which has not finished with it.
    Queued,
    /// Finished by the device and waiting to be dequeued.
    Done,
    /// Dequeued, and in the caller's hands until it is released.
    Dequeued,
}

impl BufferState {
    /// The caller holds the buffer.
    pub open spec fn with_caller(self) -> bool {
        self is PreQueue || self is Dequeued
    }

    /// The device holds the buffer.
    pub open spec fn in_device(self) -> bool {
        self is Queued || self is Done
    }
}

/// How many of `states` are `state`.
pub open spec fn count_in(states: Seq<BufferState>, state: BufferState) -> nat
    decreases states.len(),
{
    if states.len() == 0 {
        0
    } else {
        count_in(states.drop_last(), state) + if states.last() == state {
            1nat
        } else {
            0nat
        }
    }
}

/// Every buffer is in exactly one state, so the five counts add up to the
/// number of buffers.
pub proof fn lemma_count_partition(states: Seq<BufferState>)
    ensures
        count_in(states, BufferState::Free) + count_in(states, BufferState::PreQueue) + count_in(
            states,
            BufferState::Queued,
        ) + count_in(states, BufferState::Done) + count_in(states, BufferState::Dequeued)
            == states.len(),
    decreases states.len(),
{
    if states.len() > 0 {
        lemma_count_partition(states.drop_last());
    }
}

/// A count is zero exactly when no buffer is in that state.
pub proof fn lemma_count_zero(states: Seq<BufferState>, state: BufferState)
    ensures
        count_in(states, state) == 0 <==> (forall|i: int|
            0 <= i < states.len() ==> states[i] != state),
    decreases states.len(),
{
    if states.len() > 0 {
        let front = states.drop_last();
        lemma_count_zero(front, state);
        if count_in(states, state) == 0 {
            assert forall|i: int| 0 <= i < states.len() implies states[i] != state by {
                if i < front.len() {
                    assert(front[i] == states[i]);
                }
            }
        } else if states.last() != state {
            let i = choose|i: int| 0 <= i < front.len() && front[i] == state;
            assert(states[i] == state);
        }
    }
}

/// Moving one buffer to another state takes one from the count of the state
/// it leaves, adds one to the count of the state it enters and leaves every
/// other count as it was.
pub proof fn lemma_count_update(
    states: Seq<BufferState>,
    index: int,
    to: BufferState,
    state: BufferState,
)
    requires
        0 <= index < states.len(),
    ensures
        count_in(states.update(index, to), state) == count_in(states, state) + (if to == state {
            1int
        } else {
            0int
        }) - (if states[index] == state {
            1int
        } else {
            0int
        }),
    decreases states.len(),
{
    let after = states.update(index, to);
    if index == states.len() - 1 {
        assert(after.drop_last() =~= states.drop_last());
    } else {
        assert(after.drop_last() =~= states.drop_last().update(index, to));
        lemma_count_update(states.drop_last(), index, to, state);
    }
}

/// What the device answered when it was asked for a finished buffer.
#[derive(Debug)]
pub enum DqBufReply<T> {
    /// The device handed over a finished buffer.
    Finished(T),
    /// The device has finished none: there is nothing to take at the moment.
    NotReady,
    /// The device failed to answer.
    Failed,
}

/// A decoded frame as the device hands it over: the buffer it lies in, the
/// time stamp of the job it belongs to, and its bytes, plane by plane.
#[derive(Debug)]
pub struct V4l2CaptureCompletion {
    pub index: usize,
    pub timestamp: TimeVal,
    pub planes: Vec<Vec<u8>>,
}

/// A buffer of the input side that the caller may fill and queue.
#[derive(Debug)]
pub struct V4l2OutputQBuf {
    index: usize,
    capacity: usize,
}

/// A buffer of the input side that the device has finished with.
#[derive(Debug)]
pub struct V4l2OutputDqBuf {
    index: usize,
    timestamp: TimeVal,
}

/// A buffer of the output side that the caller may queue.
#[derive(Debug)]
pub struct V4l2CaptureQBuf {
    index: usize,
}

/// A buffer of the output side that holds a decoded frame.
#[derive(Debug)]
pub struct V4l2CaptureDqBuf {
    index: usize,
    timestamp: TimeVal,
    planes: Vec<Vec<u8>>,
}

/// A decoded frame, seen from the contracts: the buffer it lies in, the time
/// stamp of the job it belongs to, and its bytes, plane by plane.
pub struct FrameView {
    pub index: usize,
    pub timestamp: TimeVal,
    pub planes: Seq<Seq<u8>>,
}

/// The number of bytes of all `planes` together.
pub open spec fn total_len(planes: Seq<Seq<u8>>) -> nat
    decreases planes.len(),
{
    if planes.len() == 0 {
        0
    } else {
        total_len(planes.drop_last()) + planes.last().len()
    }
}

/// The bytes of all `planes`, one plane after the other.
pub open spec fn flattened(planes: Seq<Seq<u8>>) -> Seq<u8>
    decreases planes.len(),
{
    if planes.len() == 0 {
        Seq::empty()
    } else {
        flattened(planes.drop_last()) + planes.last()
    }
}

/// The flattened planes are as long as the planes together.
pub proof fn lemma_flattened_len(planes: Seq<Seq<u8>>)
    ensures
        flattened(planes).len() == total_len(planes),
    decreases planes.len(),
{
    if planes.len() > 0 {
        lemma_flattened_len(planes.drop_last());
    }
}

/// The bytes of each plane of a frame, plane by plane.
pub open spec fn planes_view(planes: Seq<Vec<u8>>) -> Seq<Seq<u8>> {
    Seq::new(planes.len(), |i: int| planes[i]@)
}

impl V4l2OutputQBuf {
    pub closed spec fn spec_index(&self) -> usize {
        self.index
    }

    pub closed spec fn spec_capacity(&self) -> usize {
        self.capacity
    }

    pub(crate) fn new(index: usize, capacity: usize) -> (b: Self)
        ensures
            b.spec_index() == index,
            b.spec_capacity() == capacity,
    {
        V4l2OutputQBuf { index, capacity }
    }

    /// The place of the buffer in its queue.
    #[verifier::when_used_as_spec(spec_index)]
    pub fn index(&self) -> (i: usize)
        ensures
            i == self.spec_index(),
    {
        self.index
    }

    /// The number of bytes that the first plane of the buffer can take.
    #[verifier::when_used_as_spec(spec_capacity)]
    pub fn capacity(&self) -> (n: usize)
        ensures
            n == self.spec_capacity(),
    {
        self.capacity
    }
}

impl V4l2OutputDqBuf {
    pub closed spec fn spec_index(&self) -> usize {
        self.index
    }

    pub closed spec fn spec_timestamp(&self) -> TimeVal {
        self.timestamp
    }

    pub(crate) fn new(index: usize, timestamp: TimeVal) -> (b: Self)
        ensures
            b.spec_index() == index,
            b.spec_timestamp() == timestamp,
    {
        V4l2OutputDqBuf { index, timestamp }
    }

    #[verifier::when_used_as_spec(spec_index)]
    pub fn index(&self) -> (i: usize)
        ensures
            i == self.spec_index(),
    {
        self.index
    }

    /// The time stamp that the buffer was queued with.
    #[verifier::when_used_as_spec(spec_timestamp)]
    pub fn timestamp(&self) -> (t: TimeVal)
        ensures
            t == self.spec_timestamp(),
    {
        self.timestamp
    }
}

impl V4l2CaptureQBuf {
    pub closed spec fn spec_index(&self) -> usize {
        self.index
    }

    pub(crate) fn new(index: usize) -> (b: Self)
        ensures
            b.spec_index() == index,
    {
        V4l2CaptureQBuf { index }
    }

    #[verifier::when_used_as_spec(spec_index)]
    pub fn index(&self) -> (i: usize)
        ensures
            i == self.spec_index(),
    {
        self.index
    }
}

impl View for V4l2CaptureDqBuf {
    type V = FrameView;

    closed spec fn view(&self) -> FrameView {
        FrameView {
            index: self.index,
            timestamp: self.timestamp,
            planes: planes_view(self.planes@),
        }
    }
}

impl V4l2CaptureDqBuf {
    /// The accessors say what the view says.
    pub proof fn lemma_view(&self)
        ensures
            self@.index == self.spec_index(),
            self@.timestamp == self.spec_timestamp(),
            self@.planes == self.spec_planes(),
    {
    }

    pub closed spec fn spec_index(&self) -> usize {
        self.index
    }

    pub closed spec fn spec_timestamp(&self) -> TimeVal {
        self.timestamp
    }

    /// The decoded bytes, plane by plane.
    pub closed spec fn spec_planes(&self) -> Seq<Seq<u8>> {
        planes_view(self.planes@)
    }

    pub(crate) fn new(index: usize, timestamp: TimeVal, planes: Vec<Vec<u8>>) -> (b: Self)
        ensures
            b.spec_index() == index,
            b.spec_timestamp() == timestamp,
            b.spec_planes() == planes_view(planes@),
    {
        V4l2CaptureDqBuf { index, timestamp, planes }
    }

    #[verifier::when_used_as_spec(spec_index)]
    pub fn index(&self) -> (i: usize)
        ensures
            i == self.spec_index(),
    {
        self.index
    }

    /// The time stamp that the device copied from the job it decoded into
    /// this buffer.
    #[verifier::when_used_as_spec(spec_timestamp)]
    pub fn timestamp(&self) -> (t: TimeVal)
        ensures
            t == self.spec_timestamp(),
    {
        self.timestamp
    }

    pub fn num_planes(&self) -> (n: usize)
        ensures
            n == self.spec_planes().len(),
    {
        self.planes.len()
    }

    /// The bytes of plane `i`.
    pub fn plane(&self, i: usize) -> (p: &Vec<u8>)
        requires
            i < self.spec_planes().len(),
        ensures
            p@ == self.spec_planes()[i as int],
    {
        &self.planes[i]
    }
}

} // verus!
