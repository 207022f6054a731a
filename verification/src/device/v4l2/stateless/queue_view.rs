use vstd::prelude::*;

use crate::device::v4l2::stateless::buffer::count_in;
use crate::device::v4l2::stateless::buffer::lemma_count_partition;
use crate::device::v4l2::stateless::buffer::lemma_count_update;
use crate::device::v4l2::stateless::buffer::lemma_count_zero;
use crate::device::v4l2::stateless::buffer::BufferState;
use crate::device::v4l2::stateless::buffer::TimeVal;
use crate::device::v4l2::stateless::format::first_plane_size;
use crate::device::v4l2::stateless::format::Format;
use crate::error::Error;

verus! {

/// How far the setup of a queue has come.
#[derive(Clone, Copy, Debug, PartialEq, Eq, Structural)]
pub enum QueueState {
    Uninitialized,
    FormatConfigured,
    Streaming,
}

/// One buffer of a queue, seen from the contracts.
pub struct BufferView {
    pub state: BufferState,
    pub timestamp: TimeVal,
    pub planes: Seq<Seq<u8>>,
}

/// A queue, seen from the contracts: how far its setup has come, its buffers
/// by index, and the indices of the buffers that the device has finished and
/// the caller has not dequeued yet, oldest first.
pub struct QueueView {
    pub state: QueueState,
    pub plane_size: usize,
    pub buffers: Seq<BufferView>,
    pub done: Seq<usize>,
}

impl QueueView {
    /// The state of each buffer, by index.
    pub open spec fn states(self) -> Seq<BufferState> {
        Seq::new(self.buffers.len(), |i: int| self.buffers[i].state)
    }

    pub open spec fn num_free(self) -> nat {
        count_in(self.states(), BufferState::Free)
    }

    /// Buffers that the device holds: queued, or finished and not dequeued.
    pub open spec fn num_in_device(self) -> nat {
        count_in(self.states(), BufferState::Queued) + count_in(self.states(), BufferState::Done)
    }

    /// Buffers that the caller holds: handed out for filling, or dequeued and
    /// not released.
    pub open spec fn num_with_caller(self) -> nat {
        count_in(self.states(), BufferState::PreQueue) + count_in(
            self.states(),
            BufferState::Dequeued,
        )
    }

    /// `index` is the first free buffer.
    pub open spec fn first_free(self, index: int) -> bool {
        &&& 0 <= index < self.buffers.len()
        &&& self.buffers[index].state is Free
        &&& forall|j: int| 0 <= j < index ==> !(#[trigger] self.buffers[j].state is Free)
    }

    /// `index` names a buffer that is in `state`.
    pub open spec fn holds(self, index: int, state: BufferState) -> bool {
        0 <= index < self.buffers.len() && self.buffers[index].state == state
    }

    /// The queue with buffer `index` moved to `state`.
    pub open spec fn moved(self, index: int, state: BufferState) -> QueueView {
        QueueView {
            buffers: self.buffers.update(
                index,
                BufferView { state, ..self.buffers[index] },
            ),
            ..self
        }
    }

    /// The queue after the caller took its first free buffer, `index`.
    pub open spec fn allocated(self, index: int) -> QueueView {
        self.moved(index, BufferState::PreQueue)
    }

    /// The queue after buffer `index` went to the device with `timestamp`.
    pub open spec fn queued(self, index: int, timestamp: TimeVal) -> QueueView {
        QueueView {
            buffers: self.buffers.update(
                index,
                BufferView { state: BufferState::Queued, timestamp, ..self.buffers[index] },
            ),
            ..self
        }
    }

    /// The queue after the device finished buffer `index` and left
    /// `timestamp` and `planes` in it.
    pub open spec fn completed(
        self,
        index: int,
        timestamp: TimeVal,
        planes: Seq<Seq<u8>>,
    ) -> QueueView {
        QueueView {
            buffers: self.buffers.update(
                index,
                BufferView { state: BufferState::Done, timestamp, planes },
            ),
            done: self.done.push(index as usize),
            ..self
        }
    }

    /// The queue after the caller dequeued the oldest finished buffer. Its
    /// planes leave the queue with it.
    pub open spec fn dequeued(self) -> QueueView {
        let index = self.done[0] as int;
        QueueView {
            buffers: self.buffers.update(
                index,
                BufferView {
                    state: BufferState::Dequeued,
                    planes: Seq::empty(),
                    ..self.buffers[index]
                },
            ),
            done: self.done.drop_first(),
            ..self
        }
    }

    /// The queue after the caller gave buffer `index` back.
    pub open spec fn released(self, index: int) -> QueueView {
        self.moved(index, BufferState::Free)
    }

    /// A queue that streams with `count` buffers, all free, whose first
    /// plane takes `plane_size` bytes.
    pub open spec fn streaming(count: nat, plane_size: usize) -> QueueView {
        QueueView {
            state: QueueState::Streaming,
            plane_size,
            buffers: Seq::new(
                count,
                |i: int|
                    BufferView {
                        state: BufferState::Free,
                        timestamp: TimeVal { tv_sec: 0, tv_usec: 0 },
                        planes: Seq::empty(),
                    },
            ),
            done: Seq::empty(),
        }
    }

    /// The device has finished buffer `index`, and it has not been dequeued.
    pub open spec fn is_done(self, index: int) -> bool {
        exists|k: int| 0 <= k < self.done.len() && #[trigger] self.done[k] == index
    }

    /// What holds of every queue: only a streaming queue has buffers, only a
    /// queue with a format knows the size of a plane, and the list of
    /// finished buffers names the buffers in state `Done`, each once.
    pub open spec fn consistent(self) -> bool {
        &&& !(self.state is Streaming) ==> self.buffers.len() == 0
        &&& self.state is Uninitialized ==> self.plane_size == 0
        &&& forall|k: int|
            0 <= k < self.done.len() ==> self.holds(#[trigger] self.done[k] as int, BufferState::Done)
        &&& forall|j: int, k: int|
            0 <= j < k < self.done.len() ==> #[trigger] self.done[j] != #[trigger] self.done[k]
        &&& forall|i: int|
            0 <= i < self.buffers.len() && (#[trigger] self.buffers[i]).state is Done
                ==> self.is_done(i)
    }

    /// Where no buffer is finished and nothing is dequeued, the list of
    /// finished buffers still names every buffer in state `Done`.
    pub proof fn lemma_done_kept(self, next: QueueView)
        requires
            self.consistent(),
            next.done == self.done,
            next.buffers.len() == self.buffers.len(),
            forall|i: int|
                0 <= i < self.buffers.len() && (#[trigger] next.buffers[i]).state is Done
                    ==> self.buffers[i].state is Done,
        ensures
            forall|i: int|
                0 <= i < next.buffers.len() && (#[trigger] next.buffers[i]).state is Done
                    ==> next.is_done(i),
    {
        assert forall|i: int|
            0 <= i < next.buffers.len() && (#[trigger] next.buffers[i]).state is Done implies next.is_done(
            i,
        ) by {
            assert(self.buffers[i].state is Done);
            assert(self.is_done(i));
        }
    }

    /// Where buffer `index` is finished, the list with `index` at its end
    /// names every buffer in state `Done`.
    pub proof fn lemma_done_pushed(self, next: QueueView, index: usize)
        requires
            self.consistent(),
            next.done == self.done.push(index),
            next.buffers.len() == self.buffers.len(),
            forall|i: int|
                0 <= i < self.buffers.len() && i != index && (#[trigger] next.buffers[i]).state
                    is Done ==> self.buffers[i].state is Done,
        ensures
            forall|i: int|
                0 <= i < next.buffers.len() && (#[trigger] next.buffers[i]).state is Done
                    ==> next.is_done(i),
    {
        assert forall|i: int|
            0 <= i < next.buffers.len() && (#[trigger] next.buffers[i]).state is Done implies next.is_done(
            i,
        ) by {
            if i == index {
                assert(next.done[self.done.len() as int] == i);
            } else {
                assert(self.buffers[i].state is Done);
                assert(self.is_done(i));
                let k = choose|k: int| 0 <= k < self.done.len() && #[trigger] self.done[k] == i;
                assert(next.done[k] == i);
            }
        }
    }

    /// Where the oldest finished buffer is dequeued, the rest of the list
    /// names every buffer in state `Done`.
    pub proof fn lemma_done_dropped(self, next: QueueView)
        requires
            self.consistent(),
            self.done.len() > 0,
            next.done == self.done.drop_first(),
            next.buffers.len() == self.buffers.len(),
            !(next.buffers[self.done[0] as int].state is Done),
            forall|i: int|
                0 <= i < self.buffers.len() && (#[trigger] next.buffers[i]).state is Done
                    ==> self.buffers[i].state is Done,
        ensures
            forall|i: int|
                0 <= i < next.buffers.len() && (#[trigger] next.buffers[i]).state is Done
                    ==> next.is_done(i),
    {
        assert forall|i: int|
            0 <= i < next.buffers.len() && (#[trigger] next.buffers[i]).state is Done implies next.is_done(
            i,
        ) by {
            assert(self.buffers[i].state is Done);
            assert(self.is_done(i));
            let k = choose|k: int| 0 <= k < self.done.len() && #[trigger] self.done[k] == i;
            assert(self.holds(self.done[0] as int, BufferState::Done));
            assert(k != 0);
            assert(next.done[k - 1] == i);
        }
    }

    /// A queue that nothing has been done with is like any other such queue.
    pub proof fn lemma_uninitialized_is_fresh(self)
        requires
            self.consistent(),
            self.state is Uninitialized,
        ensures
            self == QueueView::fresh(),
    {
        if self.done.len() > 0 {
            assert(self.holds(self.done[0] as int, BufferState::Done));
        }
        assert(self.done =~= Seq::empty());
        assert(self.buffers =~= Seq::empty());
    }

    /// The accounting of a queue: every buffer is free, with the device or
    /// with the caller, and in one of the three only.
    pub proof fn lemma_accounting(self)
        ensures
            self.num_free() + self.num_in_device() + self.num_with_caller() == self.buffers.len(),
    {
        lemma_count_partition(self.states());
    }

    /// No buffer is free exactly when the count of free buffers is zero.
    pub proof fn lemma_num_free_zero(self)
        ensures
            self.num_free() == 0 <==> (forall|i: int|
                0 <= i < self.buffers.len() ==> !(#[trigger] self.buffers[i].state is Free)),
    {
        lemma_count_zero(self.states(), BufferState::Free);
        if self.num_free() == 0 {
            assert forall|i: int| 0 <= i < self.buffers.len() implies !(
            #[trigger] self.buffers[i].state is Free) by {
                assert(self.states()[i] != BufferState::Free);
            }
        } else {
            let i = choose|i: int|
                0 <= i < self.states().len() && self.states()[i] == BufferState::Free;
            assert(self.buffers[i].state is Free);
        }
    }

    /// Moving one buffer from one state to another changes the two counts
    /// concerned by one and no other.
    pub proof fn lemma_moved_counts(self, index: int, to: BufferState, state: BufferState)
        requires
            0 <= index < self.buffers.len(),
        ensures
            count_in(self.moved(index, to).states(), state) == count_in(self.states(), state) + (if to
                == state {
                1int
            } else {
                0int
            }) - (if self.buffers[index].state == state {
                1int
            } else {
                0int
            }),
    {
        assert(self.moved(index, to).states() =~= self.states().update(index, to));
        lemma_count_update(self.states(), index, to, state);
    }
}


impl QueueView {
    /// A queue that nothing has been done with yet.
    pub open spec fn fresh() -> QueueView {
        QueueView {
            state: QueueState::Uninitialized,
            plane_size: 0,
            buffers: Seq::empty(),
            done: Seq::empty(),
        }
    }

    /// The step from `Uninitialized` to `FormatConfigured`. `reply` is the
    /// format that the device settled on, or `None` where it refused. A
    /// format can be set once: a second attempt is not supported.
    pub open spec fn after_format(self, reply: Option<Format>) -> Result<QueueView, Error> {
        if !(self.state is Uninitialized) {
            Err(Error::Unimplemented)
        } else {
            match reply {
                None => Err(Error::SetupFailure),
                Some(format) => Ok(
                    QueueView {
                        state: QueueState::FormatConfigured,
                        plane_size: first_plane_size(format),
                        ..self
                    },
                ),
            }
        }
    }

    /// The step from `FormatConfigured` to `Streaming`. `granted` is the
    /// number of buffers that the device allocated before it started the
    /// stream, or `None` where either failed. A streaming queue cannot be
    /// started again, and one without a format cannot be started at all.
    pub open spec fn after_start(self, granted: Option<usize>) -> Result<QueueView, Error> {
        match self.state {
            QueueState::Uninitialized => Err(Error::ProtocolViolation),
            QueueState::Streaming => Err(Error::Unimplemented),
            QueueState::FormatConfigured => match granted {
                None => Err(Error::SetupFailure),
                Some(count) => Ok(QueueView::streaming(count as nat, self.plane_size)),
            },
        }
    }

    /// Both steps in a row. Where the first fails the second is not tried.
    pub open spec fn after_setup(self, reply: Option<Format>, granted: Option<usize>) -> Result<
        QueueView,
        Error,
    > {
        match self.after_format(reply) {
            Err(e) => Err(e),
            Ok(configured) => configured.after_start(granted),
        }
    }
}

impl QueueView {
    /// Streaming is the last state: whatever the device answers, a queue
    /// that streams refuses every step of the setup with `Unimplemented`.
    pub proof fn lemma_streaming_is_last(self, reply: Option<Format>, granted: Option<usize>)
        requires
            self.state is Streaming,
        ensures
            self.after_format(reply) == Err::<QueueView, Error>(Error::Unimplemented),
            self.after_start(granted) == Err::<QueueView, Error>(Error::Unimplemented),
            self.after_setup(reply, granted) == Err::<QueueView, Error>(Error::Unimplemented),
    {
    }
}

impl QueueView {
    /// The queue after every finished buffer was dequeued and given back:
    /// those buffers are free and empty, the others are as they were.
    pub open spec fn drained(self) -> QueueView {
        QueueView {
            buffers: Seq::new(
                self.buffers.len(),
                |i: int|
                    if self.is_done(i) {
                        BufferView {
                            state: BufferState::Free,
                            planes: Seq::empty(),
                            ..self.buffers[i]
                        }
                    } else {
                        self.buffers[i]
                    },
            ),
            done: Seq::empty(),
            ..self
        }
    }

    /// The queue after every free buffer went to the device.
    pub open spec fn replenished(self) -> QueueView {
        QueueView {
            buffers: Seq::new(
                self.buffers.len(),
                |i: int|
                    if self.buffers[i].state is Free {
                        BufferView {
                            state: BufferState::Queued,
                            timestamp: TimeVal { tv_sec: 0, tv_usec: 0 },
                            ..self.buffers[i]
                        }
                    } else {
                        self.buffers[i]
                    },
            ),
            ..self
        }
    }

    /// The indices from `lo` up to `hi` whose buffers are free, in rising
    /// order.
    pub open spec fn free_in(self, lo: int, hi: int) -> Seq<usize>
        decreases hi - lo,
    {
        if hi <= lo {
            Seq::empty()
        } else {
            self.free_in(lo, hi - 1) + if self.buffers[hi - 1].state is Free {
                seq![(hi - 1) as usize]
            } else {
                Seq::empty()
            }
        }
    }

    /// The indices of the free buffers, in rising order.
    pub open spec fn free_indices(self) -> Seq<usize> {
        self.free_in(0, self.buffers.len() as int)
    }

    /// Dequeuing the oldest finished buffer and giving it back is one step
    /// towards the drained queue.
    pub proof fn lemma_drain_step(self)
        requires
            self.consistent(),
            self.done.len() > 0,
        ensures
            self.dequeued().holds(self.done[0] as int, BufferState::Dequeued),
            self.dequeued().released(self.done[0] as int).consistent(),
            self.dequeued().released(self.done[0] as int).drained() == self.drained(),
            self.dequeued().released(self.done[0] as int).done.len() == self.done.len() - 1,
    {
        let d = self.done[0] as int;
        let next = self.dequeued().released(d);
        assert(self.holds(self.done[0] as int, BufferState::Done));
        assert forall|k: int| 0 <= k < next.done.len() implies next.holds(
            #[trigger] next.done[k] as int,
            BufferState::Done,
        ) by {
            assert(next.done[k] == self.done[k + 1]);
            assert(self.holds(self.done[k + 1] as int, BufferState::Done));
        }
        assert forall|j: int, k: int| 0 <= j < k < next.done.len() implies #[trigger] next.done[j]
            != #[trigger] next.done[k] by {
            assert(next.done[j] == self.done[j + 1]);
            assert(next.done[k] == self.done[k + 1]);
        }
        self.lemma_done_dropped(next);
        assert forall|i: int| 0 <= i < self.buffers.len() implies next.drained().buffers[i]
            == self.drained().buffers[i] by {
            if i == d {
                assert(self.is_done(i));
                if next.is_done(i) {
                    let k = choose|k: int| 0 <= k < next.done.len() && #[trigger] next.done[k] == i;
                    assert(next.done[k] == self.done[k + 1]);
                    assert(false);
                }
            } else {
                if self.is_done(i) {
                    let k = choose|k: int| 0 <= k < self.done.len() && #[trigger] self.done[k] == i;
                    assert(next.done[k - 1] == self.done[k]);
                    assert(next.is_done(i));
                }
                if next.is_done(i) {
                    let k = choose|k: int| 0 <= k < next.done.len() && #[trigger] next.done[k] == i;
                    assert(next.done[k] == self.done[k + 1]);
                    assert(self.is_done(i));
                }
            }
        }
        assert(next.drained().buffers =~= self.drained().buffers);
    }

    /// Dequeuing the oldest finished buffer keeps the queue consistent.
    pub proof fn lemma_dequeued_consistent(self)
        requires
            self.consistent(),
            self.done.len() > 0,
        ensures
            self.dequeued().consistent(),
            self.dequeued().holds(self.done[0] as int, BufferState::Dequeued),
    {
        let next = self.dequeued();
        assert(self.holds(self.done[0] as int, BufferState::Done));
        assert forall|k: int| 0 <= k < next.done.len() implies next.holds(
            #[trigger] next.done[k] as int,
            BufferState::Done,
        ) by {
            assert(next.done[k] == self.done[k + 1]);
            assert(self.holds(self.done[k + 1] as int, BufferState::Done));
        }
        assert forall|j: int, k: int| 0 <= j < k < next.done.len() implies #[trigger] next.done[j]
            != #[trigger] next.done[k] by {
            assert(next.done[j] == self.done[j + 1]);
            assert(next.done[k] == self.done[k + 1]);
        }
        self.lemma_done_dropped(next);
    }

    /// Draining frees as many buffers as were finished, and leaves none
    /// finished.
    pub proof fn lemma_drained_counts(self)
        requires
            self.consistent(),
        ensures
            self.drained().num_free() == self.num_free() + self.done.len(),
            count_in(self.drained().states(), BufferState::Done) == 0,
            self.drained().consistent(),
        decreases self.done.len(),
    {
        if self.done.len() == 0 {
            self.lemma_drained_nothing();
            lemma_count_zero(self.states(), BufferState::Done);
            assert forall|i: int| 0 <= i < self.states().len() implies self.states()[i]
                != BufferState::Done by {
                if self.buffers[i].state is Done {
                    assert(self.is_done(i));
                }
            }
        } else {
            let d = self.done[0] as int;
            let next = self.dequeued().released(d);
            self.lemma_drain_step();
            next.lemma_drained_counts();
            assert(self.holds(self.done[0] as int, BufferState::Done));
            assert(next.states() =~= self.states().update(d, BufferState::Free));
            lemma_count_update(self.states(), d, BufferState::Free, BufferState::Free);
        }
    }

    /// A queue without finished buffers is drained.
    pub proof fn lemma_drained_nothing(self)
        requires
            self.done.len() == 0,
        ensures
            self.drained() == self,
    {
        assert(self.drained().buffers =~= self.buffers);
        assert(self.done =~= Seq::empty());
    }

    /// After draining, the buffers that were finished are free as well.
    pub proof fn lemma_drained_free(self, index: int)
        requires
            0 <= index < self.buffers.len(),
        ensures
            self.drained().buffers[index].state is Free <==> (self.buffers[index].state is Free
                || self.is_done(index)),
    {
    }

    /// Where no buffer of a range is free, the range has no free index.
    proof fn lemma_free_in_none(self, lo: int, hi: int)
        requires
            0 <= lo,
            hi <= self.buffers.len(),
            forall|j: int| lo <= j < hi ==> !(#[trigger] self.buffers[j].state is Free),
        ensures
            self.free_in(lo, hi) == Seq::<usize>::empty(),
        decreases hi - lo,
    {
        if hi > lo {
            self.lemma_free_in_none(lo, hi - 1);
        }
    }

    /// The free indices of a range are those of its two parts in a row.
    proof fn lemma_free_in_split(self, lo: int, mid: int, hi: int)
        requires
            lo <= mid <= hi,
        ensures
            self.free_in(lo, hi) == self.free_in(lo, mid) + self.free_in(mid, hi),
        decreases hi - mid,
    {
        if hi > mid {
            self.lemma_free_in_split(lo, mid, hi - 1);
            let last = if self.buffers[hi - 1].state is Free {
                seq![(hi - 1) as usize]
            } else {
                Seq::<usize>::empty()
            };
            assert(self.free_in(lo, hi) =~= self.free_in(lo, mid) + (self.free_in(mid, hi - 1)
                + last));
        } else {
            assert(self.free_in(lo, hi) =~= self.free_in(lo, mid) + self.free_in(mid, hi));
        }
    }

    /// Two queues that agree on which buffers of a range are free have the
    /// same free indices there.
    proof fn lemma_free_in_same(self, other: QueueView, lo: int, hi: int)
        requires
            0 <= lo,
            hi <= self.buffers.len(),
            other.buffers.len() == self.buffers.len(),
            forall|j: int|
                lo <= j < hi ==> (#[trigger] self.buffers[j].state is Free) == (
                other.buffers[j].state is Free),
        ensures
            self.free_in(lo, hi) == other.free_in(lo, hi),
        decreases hi - lo,
    {
        if hi > lo {
            self.lemma_free_in_same(other, lo, hi - 1);
        }
    }

    /// Handing the first free buffer to the device is one step towards the
    /// replenished queue, and that buffer is the first of the free ones.
    pub proof fn lemma_replenish_step(self, index: int)
        requires
            self.first_free(index),
        ensures
            self.allocated(index).holds(index, BufferState::PreQueue),
            self.allocated(index).queued(index, TimeVal { tv_sec: 0, tv_usec: 0 }).replenished()
                == self.replenished(),
            self.free_indices() == seq![index as usize] + self.allocated(index).queued(
                index,
                TimeVal { tv_sec: 0, tv_usec: 0 },
            ).free_indices(),
            self.allocated(index).queued(index, TimeVal { tv_sec: 0, tv_usec: 0 }).num_free()
                == self.num_free() - 1,
    {
        let zero = TimeVal { tv_sec: 0, tv_usec: 0 };
        let next = self.allocated(index).queued(index, zero);
        assert(next.replenished().buffers =~= self.replenished().buffers);
        let n = self.buffers.len() as int;
        self.lemma_free_in_none(0, index);
        next.lemma_free_in_none(0, index);
        self.lemma_free_in_split(0, index, n);
        next.lemma_free_in_split(0, index, n);
        self.lemma_free_in_split(index, index + 1, n);
        next.lemma_free_in_split(index, index + 1, n);
        assert(self.free_in(index, index) =~= Seq::<usize>::empty());
        assert(next.free_in(index, index) =~= Seq::<usize>::empty());
        assert(self.free_in(index, index + 1) =~= seq![index as usize]);
        assert(next.free_in(index, index + 1) =~= Seq::<usize>::empty());
        self.lemma_free_in_same(next, index + 1, n);
        assert(self.free_indices() =~= seq![index as usize] + next.free_indices());
        self.lemma_moved_counts(index, BufferState::PreQueue, BufferState::Free);
        self.allocated(index).lemma_moved_counts(index, BufferState::Queued, BufferState::Free);
        assert(next.states() =~= self.allocated(index).moved(index, BufferState::Queued).states());
    }

    /// A queue without free buffers is replenished, and the list of its
    /// free buffers is empty.
    pub proof fn lemma_replenished_nothing(self)
        requires
            self.num_free() == 0,
        ensures
            self.replenished() == self,
            self.free_indices() == Seq::<usize>::empty(),
    {
        self.lemma_num_free_zero();
        assert(self.replenished().buffers =~= self.buffers);
        self.lemma_free_in_none(0, self.buffers.len() as int);
    }

    /// After replenishing no buffer is free, and none has left the device
    /// or come back from the caller.
    pub proof fn lemma_replenished_none_free(self)
        ensures
            self.replenished().num_free() == 0,
            self.replenished().done == self.done,
            self.consistent() ==> self.replenished().consistent(),
    {
        let next = self.replenished();
        next.lemma_num_free_zero();
        if self.consistent() {
            assert forall|k: int| 0 <= k < next.done.len() implies next.holds(
                #[trigger] next.done[k] as int,
                BufferState::Done,
            ) by {
                assert(self.holds(self.done[k] as int, BufferState::Done));
            }
            self.lemma_done_kept(next);
        }
    }
}

} // verus!
