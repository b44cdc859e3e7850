//! The streaming engine's bookkeeping: the bounded ring of received
//! buffers with its drop accounting, the recycling pool of free
//! buffers, the stream's run flags, and the reader's and consumer's
//! decisions. The caller supplies threads, locking and waiting.
use std::collections::VecDeque;
use vstd::prelude::*;

verus! {

/// Slots in the received-samples ring.
pub const RAW_BUFFER_COUNT: usize = 8;

/// Bytes per bulk transfer.
pub const BUFFER_SIZE: usize = 262_144;

/// The bulk sample endpoint (endpoint in, number 1).
pub const BULK_ENDPOINT: u8 = 0x81;

/// The bulk read timeout, in milliseconds.
pub const EVENT_TIMEOUT_MS: u64 = 500;

/// The ring of filled buffers and the pool of free ones. A filled
/// buffer carries the number of buffers dropped, because the ring was
/// full, since the previous one was queued.
pub struct SampleQueue {
    filled: VecDeque<(Vec<u8>, u32)>,
    free: Vec<Vec<u8>>,
    dropped: u32,
    shutdown: bool,
    capacity: usize,
}

/// The abstract state of a [`SampleQueue`].
pub struct QueueModel {
    /// Filled buffers in arrival order, each with its drop count.
    pub filled: Seq<(Vec<u8>, u32)>,
    /// Free buffers; the last one is handed out next.
    pub free: Seq<Vec<u8>>,
    /// Buffers dropped since the last queued one.
    pub dropped: u32,
    /// Whether the queue was shut down.
    pub shutdown: bool,
    /// The ring's slot count.
    pub capacity: nat,
}

impl View for SampleQueue {
    type V = QueueModel;

    closed spec fn view(&self) -> QueueModel {
        QueueModel {
            filled: self.filled@,
            free: self.free@,
            dropped: self.dropped,
            shutdown: self.shutdown,
            capacity: self.capacity as nat,
        }
    }
}

/// The queue after `push_filled(buf)`: refused and counted when the
/// ring is full (the buffer goes back to the pool), else queued with
/// the drop count, which starts over.
pub open spec fn push_model(q: QueueModel, buf: Vec<u8>) -> QueueModel {
    if q.filled.len() >= q.capacity {
        QueueModel {
            free: q.free.push(buf),
            dropped: if q.dropped == u32::MAX {
                u32::MAX
            } else {
                (q.dropped + 1) as u32
            },
            ..q
        }
    } else {
        QueueModel { filled: q.filled.push((buf, q.dropped)), dropped: 0, ..q }
    }
}

/// What `pop_filled` returns: nothing after shutdown or from an empty
/// ring, else the oldest entry.
pub open spec fn pop_result(q: QueueModel) -> Option<(Vec<u8>, u32)> {
    if q.shutdown || q.filled.len() == 0 {
        None
    } else {
        Some(q.filled[0])
    }
}

/// The queue after `pop_filled`.
pub open spec fn pop_model(q: QueueModel) -> QueueModel {
    if q.shutdown || q.filled.len() == 0 {
        q
    } else {
        QueueModel { filled: q.filled.drop_first(), ..q }
    }
}

/// The queue after a reader's `acquire_free`: the last free buffer
/// leaves the pool unless the queue is shut down or the pool is empty.
pub open spec fn acquire_model(q: QueueModel) -> QueueModel {
    if q.shutdown || q.free.len() == 0 {
        q
    } else {
        QueueModel { free: q.free.drop_last(), ..q }
    }
}

/// The queue after `try_acquire_free`: the last free buffer leaves the
/// pool unless it is empty.
pub open spec fn try_acquire_model(q: QueueModel) -> QueueModel {
    if q.free.len() == 0 {
        q
    } else {
        QueueModel { free: q.free.drop_last(), ..q }
    }
}

/// The queue after `recycle(buf)`.
pub open spec fn recycle_model(q: QueueModel, buf: Vec<u8>) -> QueueModel {
    QueueModel { free: q.free.push(buf), ..q }
}

/// The queue after `shutdown`.
pub open spec fn shutdown_model(q: QueueModel) -> QueueModel {
    QueueModel { shutdown: true, ..q }
}

impl SampleQueue {
    /// The ring never holds more buffers than it has slots.
    pub open spec fn wf(&self) -> bool {
        self@.filled.len() <= self@.capacity
    }

    /// A queue with `slots` ring positions and `pool` zeroed buffers of
    /// [`BUFFER_SIZE`] bytes.
    pub fn with_pool(slots: usize, pool: usize) -> (q: Self)
        ensures
            q.wf(),
            q@.filled.len() == 0,
            q@.free.len() == pool,
            forall|i: int| 0 <= i < pool ==> #[trigger] q@.free[i]@.len() == BUFFER_SIZE,
            q@.dropped == 0,
            !q@.shutdown,
            q@.capacity == slots,
    {
        let mut free: Vec<Vec<u8>> = Vec::new();
        let mut i: usize = 0;
        while i < pool
            invariant
                i <= pool,
                free@.len() == i,
                forall|k: int| 0 <= k < i ==> #[trigger] free@[k]@.len() == BUFFER_SIZE,
            decreases pool - i,
        {
            free.push(vec![0u8; BUFFER_SIZE]);
            i = i + 1;
        }
        SampleQueue { filled: VecDeque::new(), free, dropped: 0, shutdown: false, capacity: slots }
    }

    /// The streaming configuration: [`RAW_BUFFER_COUNT`] slots and one
    /// more buffer so the reader always has one in flight.
    pub fn for_streaming() -> (q: Self)
        ensures
            q.wf(),
            q@.filled.len() == 0,
            q@.free.len() == RAW_BUFFER_COUNT + 1,
            q@.dropped == 0,
            !q@.shutdown,
            q@.capacity == RAW_BUFFER_COUNT,
    {
        SampleQueue::with_pool(RAW_BUFFER_COUNT, RAW_BUFFER_COUNT + 1)
    }

    /// Take a free buffer; `None` when the pool is exhausted.
    pub fn try_acquire_free(&mut self) -> (b: Option<Vec<u8>>)
        requires
            old(self).wf(),
        ensures
            final(self).wf(),
            final(self)@.filled == old(self)@.filled,
            final(self)@.dropped == old(self)@.dropped,
            final(self)@.shutdown == old(self)@.shutdown,
            final(self)@.capacity == old(self)@.capacity,
            old(self)@.free.len() == 0 ==> b is None && final(self)@.free == old(self)@.free,
            old(self)@.free.len() > 0 ==> b == Some(old(self)@.free.last()) && final(self)@.free
                == old(self)@.free.drop_last(),
            final(self)@ == try_acquire_model(old(self)@),
    {
        self.free.pop()
    }

    /// Take a free buffer for the reader: `None` after shutdown (which
    /// wins over an available buffer) or when none is free (the caller
    /// then waits for a recycle or a shutdown).
    pub fn acquire_free(&mut self) -> (b: Option<Vec<u8>>)
        requires
            old(self).wf(),
        ensures
            final(self).wf(),
            final(self)@.filled == old(self)@.filled,
            final(self)@.dropped == old(self)@.dropped,
            final(self)@.shutdown == old(self)@.shutdown,
            final(self)@.capacity == old(self)@.capacity,
            (old(self)@.shutdown || old(self)@.free.len() == 0) ==> b is None && final(self)@.free
                == old(self)@.free,
            (!old(self)@.shutdown && old(self)@.free.len() > 0) ==> b == Some(
                old(self)@.free.last(),
            ) && final(self)@.free == old(self)@.free.drop_last(),
            final(self)@ == acquire_model(old(self)@),
    {
        if self.shutdown {
            return None;
        }
        self.free.pop()
    }

    /// Queue a filled buffer. With the ring full the buffer goes back
    /// to the pool and the drop count grows (saturating); otherwise it
    /// is queued carrying the drop count, which starts over.
    pub fn push_filled(&mut self, buf: Vec<u8>)
        requires
            old(self).wf(),
        ensures
            final(self).wf(),
            final(self)@ == push_model(old(self)@, buf),
    {
        if self.filled.len() >= self.capacity {
            self.dropped = if self.dropped == u32::MAX {
                u32::MAX
            } else {
                self.dropped + 1
            };
            self.free.push(buf);
            return ;
        }
        let dropped = self.dropped;
        self.dropped = 0;
        self.filled.push_back((buf, dropped));
    }

    /// Take the oldest filled buffer with its drop count: `None` after
    /// shutdown (which wins over queued data) or when the ring is empty
    /// (the caller then waits).
    pub fn pop_filled(&mut self) -> (e: Option<(Vec<u8>, u32)>)
        requires
            old(self).wf(),
        ensures
            final(self).wf(),
            e == pop_result(old(self)@),
            final(self)@ == pop_model(old(self)@),
    {
        if self.shutdown {
            return None;
        }
        let e = self.filled.pop_front();
        assert(self.filled@ =~= old(self)@.filled.drop_first() || old(self)@.filled.len() == 0);
        e
    }

    /// Return a consumed buffer to the pool.
    pub fn recycle(&mut self, buf: Vec<u8>)
        requires
            old(self).wf(),
        ensures
            final(self).wf(),
            final(self)@.filled == old(self)@.filled,
            final(self)@.free == old(self)@.free.push(buf),
            final(self)@.dropped == old(self)@.dropped,
            final(self)@.shutdown == old(self)@.shutdown,
            final(self)@.capacity == old(self)@.capacity,
            final(self)@ == recycle_model(old(self)@, buf),
    {
        self.free.push(buf);
    }

    /// Make every later acquire and pop return `None`.
    pub fn shutdown(&mut self)
        requires
            old(self).wf(),
        ensures
            final(self).wf(),
            final(self)@.filled == old(self)@.filled,
            final(self)@.free == old(self)@.free,
            final(self)@.dropped == old(self)@.dropped,
            final(self)@.shutdown,
            final(self)@.capacity == old(self)@.capacity,
            final(self)@ == shutdown_model(old(self)@),
    {
        self.shutdown = true;
    }

    /// Whether the queue was shut down.
    pub fn is_shut_down(&self) -> (b: bool)
        ensures
            b == self@.shutdown,
    {
        self.shutdown
    }
}

/// The state the reader, the consumer and the device owner share: the
/// streaming flag, the stop request, and the queue.
pub struct StreamShared {
    /// Whether the stream runs.
    pub streaming: bool,
    /// Whether a stop was requested.
    pub stop_requested: bool,
    /// The buffer ring and pool.
    pub queue: SampleQueue,
}

impl StreamShared {
    /// A stopped stream over `queue`.
    pub fn new(queue: SampleQueue) -> (s: Self)
        ensures
            !s.streaming,
            !s.stop_requested,
            s.queue@ == queue@,
    {
        StreamShared { streaming: false, stop_requested: false, queue }
    }

    /// Whether the workers keep going: streaming and no stop requested.
    pub fn running(&self) -> (b: bool)
        ensures
            b == (self.streaming && !self.stop_requested),
    {
        self.streaming && !self.stop_requested
    }
}

/// How a bulk read ended.
#[derive(Debug, Clone, Copy, PartialEq, Eq, Structural)]
pub enum BulkRead {
    /// The read moved this many bytes.
    Transferred(usize),
    /// The read timed out or was interrupted.
    TimedOut,
    /// The read failed otherwise.
    Failed,
}

/// What the reader does with the buffer after a read.
#[derive(Debug, Clone, Copy, PartialEq, Eq, Structural)]
pub enum ReaderAction {
    /// Queue the full buffer and read on.
    Queue,
    /// Recycle the buffer and read on.
    Retry,
    /// Recycle the buffer and stop streaming.
    Stop,
}

/// The reader's decision: a full buffer is queued, a timeout or
/// interruption is tolerated, a short read or any other failure stops
/// the stream.
pub fn reader_action(read: BulkRead) -> (a: ReaderAction)
    ensures
        a == match read {
            BulkRead::Transferred(n) => if n == BUFFER_SIZE {
                ReaderAction::Queue
            } else {
                ReaderAction::Stop
            },
            BulkRead::TimedOut => ReaderAction::Retry,
            BulkRead::Failed => ReaderAction::Stop,
        },
{
    match read {
        BulkRead::Transferred(n) => if n == BUFFER_SIZE {
            ReaderAction::Queue
        } else {
            ReaderAction::Stop
        },
        BulkRead::TimedOut => ReaderAction::Retry,
        BulkRead::Failed => ReaderAction::Stop,
    }
}

/// The samples lost before a delivered block: the dropped buffers times
/// the block's own sample count.
pub fn dropped_samples(dropped: u32, sample_count: usize) -> (n: u64)
    requires
        dropped * sample_count <= u64::MAX,
    ensures
        n == dropped * sample_count,
{
    dropped as u64 * sample_count as u64
}

/// One queue operation of a history, with the buffer handed in where
/// the operation takes one.
pub enum QueueEvent {
    /// `acquire_free`.
    Acquire,
    /// `try_acquire_free`.
    TryAcquire,
    /// `push_filled(buf)`.
    Push(Vec<u8>),
    /// `pop_filled`.
    Pop,
    /// `recycle(buf)`.
    Recycle(Vec<u8>),
    /// `shutdown`.
    Shutdown,
}

/// The queue and the number of buffers its callers hold after `e`,
/// from queue `q` with `held` buffers out.
pub open spec fn event_after(q: QueueModel, held: int, e: QueueEvent) -> (QueueModel, int) {
    match e {
        QueueEvent::Acquire => (
            acquire_model(q),
            if q.shutdown || q.free.len() == 0 {
                held
            } else {
                held + 1
            },
        ),
        QueueEvent::TryAcquire => (
            try_acquire_model(q),
            if q.free.len() == 0 {
                held
            } else {
                held + 1
            },
        ),
        QueueEvent::Push(buf) => (push_model(q, buf), held - 1),
        QueueEvent::Pop => (
            pop_model(q),
            if pop_result(q) is Some {
                held + 1
            } else {
                held
            },
        ),
        QueueEvent::Recycle(buf) => (recycle_model(q, buf), held - 1),
        QueueEvent::Shutdown => (shutdown_model(q), held),
    }
}

/// The queue and the buffers held after the events `es` in turn.
pub open spec fn history_after(q: QueueModel, held: int, es: Seq<QueueEvent>) -> (QueueModel, int)
    decreases es.len(),
{
    if es.len() == 0 {
        (q, held)
    } else {
        let (q1, h1) = event_after(q, held, es[0]);
        history_after(q1, h1, es.skip(1))
    }
}

/// Whether every buffer pushed or recycled in `es` is one the callers
/// hold at that point.
pub open spec fn history_valid(q: QueueModel, held: int, es: Seq<QueueEvent>) -> bool
    decreases es.len(),
{
    if es.len() == 0 {
        true
    } else {
        let (q1, h1) = event_after(q, held, es[0]);
        &&& (es[0] is Push || es[0] is Recycle) ==> held >= 1
        &&& history_valid(q1, h1, es.skip(1))
    }
}

proof fn lemma_history_conserves(q: QueueModel, held: int, es: Seq<QueueEvent>)
    requires
        held >= 0,
        q.filled.len() <= q.capacity,
        history_valid(q, held, es),
    ensures
        ({
            let (f, h) = history_after(q, held, es);
            &&& f.free.len() + f.filled.len() + h == q.free.len() + q.filled.len() + held
            &&& h >= 0
            &&& f.filled.len() <= f.capacity
            &&& f.capacity == q.capacity
        }),
    decreases es.len(),
{
    if es.len() > 0 {
        let (q1, h1) = event_after(q, held, es[0]);
        lemma_history_conserves(q1, h1, es.skip(1));
    }
}

/// No buffer is made or lost: starting from a queue with an empty ring
/// and a pool of buffers (as [`SampleQueue::with_pool`] makes it), when
/// callers only hand back buffers they hold, then after any history
/// the free buffers, the filled ones and the ones callers hold add up
/// to the pool, and the ring stays within its slots.
pub proof fn lemma_buffers_conserved(q: QueueModel, es: Seq<QueueEvent>)
    requires
        q.filled.len() == 0,
        history_valid(q, 0, es),
    ensures
        ({
            let (f, held) = history_after(q, 0, es);
            &&& f.free.len() + f.filled.len() + held == q.free.len()
            &&& held >= 0
            &&& f.filled.len() <= q.capacity
        }),
{
    lemma_history_conserves(q, 0, es);
}

/// Buffers come out of the ring in the order they went in: two
/// buffers pushed into an empty ring with room for both pop in that
/// order, the first carrying the drop count accumulated before it and
/// the second none.
pub proof fn lemma_fifo(q: QueueModel, a: Vec<u8>, b: Vec<u8>)
    requires
        q.filled.len() == 0,
        q.capacity >= 2,
        !q.shutdown,
    ensures
        pop_result(push_model(push_model(q, a), b)) == Some((a, q.dropped)),
        pop_result(pop_model(push_model(push_model(q, a), b))) == Some((b, 0u32)),
{
    let q2 = push_model(push_model(q, a), b);
    assert(q2.filled =~= seq![(a, q.dropped), (b, 0u32)]);
    assert(pop_model(q2).filled =~= seq![(b, 0u32)]);
}

/// A buffer pushed into a full ring is counted, and the next buffer
/// queued once a slot is free carries that count; the count then
/// starts over.
pub proof fn lemma_drop_carried(q: QueueModel, lost: Vec<u8>, next: Vec<u8>)
    requires
        q.filled.len() == q.capacity,
        q.capacity >= 1,
        !q.shutdown,
        q.dropped < u32::MAX,
    ensures
        ({
            let q1 = pop_model(push_model(q, lost));
            let q2 = push_model(q1, next);
            &&& q2.filled.last() == (next, (q.dropped + 1) as u32)
            &&& q2.dropped == 0
        }),
{
}

} // verus!
