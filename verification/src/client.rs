//! The producer side of the event stream: what the background task of a
//! plugin does with each thing it takes from its queue.
//!
//! The task feeds every event to the socket's write buffer and flushes the
//! socket after every `batch_size` events, and when it is told to shut down.
//! Taking from the queue, writing and flushing are the caller's; the
//! decisions are made here.

use crate::codec::{decode_greedy, frames_wire, lemma_decode_greedy_frames};
use crate::consumer::{drained, drained_end, drained_rest, lemma_drain_frames, DrainEnd};
use crate::qemu_event::{QemuEventMsg, FINISHED};
use vstd::prelude::*;

verus! {

/// The delay between two attempts to connect to the consumer's socket, in
/// milliseconds.
pub const CONNECT_RETRY_MS: u64 = 333;

/// What a plugin puts on the queue of its background task.
#[derive(Clone, Copy, Debug, PartialEq, Eq)]
pub enum ClientEvent {
    /// A frame to send.
    Event(QemuEventMsg),
    /// The plugin is going away: send what is still buffered.
    Shutdown,
}

/// What the background task does for one thing taken from the queue.
#[derive(Clone, Copy, Debug, PartialEq, Eq)]
pub struct ProducerStep {
    /// The frame to feed to the socket's write buffer, if any.
    pub feed: Option<QemuEventMsg>,
    /// Whether to flush the socket afterwards.
    pub flush: bool,
}

/// What to do after an attempt to connect.
#[derive(Clone, Copy, Debug, PartialEq, Eq, Structural)]
pub enum ConnectAction {
    /// The socket is connected: start the background task.
    Start,
    /// The consumer is not there yet: sleep for so many milliseconds and try
    /// again.
    RetryAfterMs(u64),
}

/// What to do after an attempt to connect. A failed attempt is always
/// followed by another one; there is no last attempt.
pub fn after_connect_attempt(connected: bool) -> (r: ConnectAction)
    ensures
        r == (if connected {
            ConnectAction::Start
        } else {
            ConnectAction::RetryAfterMs(CONNECT_RETRY_MS)
        }),
{
    if connected {
        ConnectAction::Start
    } else {
        ConnectAction::RetryAfterMs(CONNECT_RETRY_MS)
    }
}

/// The exit code of a plugin whose socket can no longer be written to.
pub const EXIT_WRITE_ERROR: i32 = 1;

/// What to do after a frame was fed to the socket, or the socket was
/// flushed.
#[derive(Clone, Copy, Debug, PartialEq, Eq, Structural)]
pub enum WriteAction {
    /// The write went through: go on with the next thing from the queue.
    Continue,
    /// The write failed: end the process with this exit code.
    Exit(i32),
}

/// What to do after a feed or a flush. A failed write is fatal: a trace
/// with a hole in it is worth less than none.
pub fn after_write(ok: bool) -> (r: WriteAction)
    ensures
        r == (if ok {
            WriteAction::Continue
        } else {
            WriteAction::Exit(EXIT_WRITE_ERROR)
        }),
{
    if ok {
        WriteAction::Continue
    } else {
        WriteAction::Exit(EXIT_WRITE_ERROR)
    }
}

/// What a plugin puts on the queue when the emulator exits: first the
/// frame that ends the trace, then the request to send what is buffered.
pub fn exit_events(last: QemuEventMsg) -> (r: Vec<ClientEvent>)
    ensures
        r@ == seq![ClientEvent::Event(last), ClientEvent::Shutdown],
{
    let mut events: Vec<ClientEvent> = Vec::new();
    events.push(ClientEvent::Event(last));
    events.push(ClientEvent::Shutdown);
    assert(events@ =~= seq![ClientEvent::Event(last), ClientEvent::Shutdown]);
    events
}

/// The counter of a batcher.
pub struct BatchState {
    /// After how many events the socket is flushed. Zero: never on count.
    pub batch_size: usize,
    /// How many events were fed since the last flush on count.
    pub pending: usize,
}

impl BatchState {
    /// Whether the counter is below the batch size, as it is between any
    /// two steps.
    pub open spec fn wf(self) -> bool {
        if self.batch_size == 0 {
            self.pending == 0
        } else {
            self.pending < self.batch_size
        }
    }

    /// Whether the next event completes a batch.
    pub open spec fn completes_batch(self) -> bool {
        self.batch_size != 0 && self.pending + 1 == self.batch_size
    }

    /// The counter after `event` was handled.
    pub open spec fn next(self, event: ClientEvent) -> BatchState {
        match event {
            ClientEvent::Event(_) => BatchState {
                batch_size: self.batch_size,
                pending: if self.batch_size == 0 || self.completes_batch() {
                    0
                } else {
                    (self.pending + 1) as usize
                },
            },
            ClientEvent::Shutdown => self,
        }
    }

    /// What the task does for `event`.
    pub open spec fn step(self, event: ClientEvent) -> ProducerStep {
        match event {
            ClientEvent::Event(msg) => ProducerStep {
                feed: Some(msg),
                flush: self.completes_batch(),
            },
            ClientEvent::Shutdown => ProducerStep { feed: None, flush: true },
        }
    }

    /// The counter after all of `events` were handled, in order.
    pub open spec fn after(self, events: Seq<ClientEvent>) -> BatchState
        decreases events.len(),
    {
        if events.len() == 0 {
            self
        } else {
            self.after(events.drop_last()).next(events.last())
        }
    }

    /// What the task does for each of `events`, in order.
    pub open spec fn steps(self, events: Seq<ClientEvent>) -> Seq<ProducerStep>
        decreases events.len(),
    {
        if events.len() == 0 {
            Seq::empty()
        } else {
            self.steps(events.drop_last()).push(
                self.after(events.drop_last()).step(events.last()),
            )
        }
    }
}

/// The frames that a run of steps feeds to the socket, in order.
pub open spec fn fed(steps: Seq<ProducerStep>) -> Seq<QemuEventMsg>
    decreases steps.len(),
{
    if steps.len() == 0 {
        Seq::empty()
    } else {
        match steps.last().feed {
            Some(msg) => fed(steps.drop_last()).push(msg),
            None => fed(steps.drop_last()),
        }
    }
}

/// The number of flushes in a run of steps.
pub open spec fn flushes(steps: Seq<ProducerStep>) -> nat
    decreases steps.len(),
{
    if steps.len() == 0 {
        0
    } else if steps.last().flush {
        flushes(steps.drop_last()) + 1
    } else {
        flushes(steps.drop_last())
    }
}

/// The queue entries that submit `msgs`, in order.
pub open spec fn submissions(msgs: Seq<QemuEventMsg>) -> Seq<ClientEvent> {
    msgs.map_values(|msg: QemuEventMsg| ClientEvent::Event(msg))
}

/// The batcher of the background task.
pub struct Batcher {
    batch_size: usize,
    pending: usize,
}

impl View for Batcher {
    type V = BatchState;

    closed spec fn view(&self) -> BatchState {
        BatchState { batch_size: self.batch_size, pending: self.pending }
    }
}

impl Batcher {
    #[verifier::type_invariant]
    spec fn inv(self) -> bool {
        self@.wf()
    }

    /// A batcher that flushes after every `batch_size` events. With a batch
    /// size of zero it flushes on shutdown only.
    pub fn new(batch_size: usize) -> (r: Batcher)
        ensures
            r@ == (BatchState { batch_size, pending: 0 }),
    {
        Batcher { batch_size, pending: 0 }
    }

    /// The number of events fed since the last flush on count.
    pub fn pending(&self) -> (r: usize)
        ensures
            r == self@.pending,
    {
        self.pending
    }

    /// Decides what to do with one thing taken from the queue.
    pub fn on_event(&mut self, event: ClientEvent) -> (r: ProducerStep)
        ensures
            r == old(self)@.step(event),
            final(self)@ == old(self)@.next(event),
            old(self)@.wf(),
            final(self)@.wf(),
    {
        proof {
            use_type_invariant(&*self);
        }
        match event {
            ClientEvent::Event(msg) => {
                if self.batch_size == 0 {
                    ProducerStep { feed: Some(msg), flush: false }
                } else if self.pending + 1 == self.batch_size {
                    self.pending = 0;
                    ProducerStep { feed: Some(msg), flush: true }
                } else {
                    self.pending = self.pending + 1;
                    ProducerStep { feed: Some(msg), flush: false }
                }
            },
            ClientEvent::Shutdown => ProducerStep { feed: None, flush: true },
        }
    }
}

/// Every submitted frame is fed to the socket once, in the order of
/// submission, whatever the batch size and wherever the counter stands.
pub proof fn lemma_fed_in_order(start: BatchState, msgs: Seq<QemuEventMsg>)
    ensures
        start.steps(submissions(msgs)).len() == msgs.len(),
        fed(start.steps(submissions(msgs))) == msgs,
    decreases msgs.len(),
{
    let events = submissions(msgs);
    if msgs.len() == 0 {
        assert(fed(start.steps(events)) =~= msgs);
    } else {
        let front = msgs.drop_last();
        lemma_fed_in_order(start, front);
        let steps = start.steps(events);
        assert(events.drop_last() =~= submissions(front));
        assert(steps.drop_last() =~= start.steps(submissions(front)));
        assert(fed(steps) =~= msgs);
    }
}

/// With a batch size of `b` the socket is flushed once for every `b`
/// frames, and the frames of a batch that is not full yet are counted.
pub proof fn lemma_batching(batch_size: usize, msgs: Seq<QemuEventMsg>)
    requires
        batch_size >= 1,
    ensures
        ({
            let start = BatchState { batch_size, pending: 0 };
            let steps = start.steps(submissions(msgs));
            &&& steps.len() == msgs.len()
            &&& fed(steps) == msgs
            &&& flushes(steps) == msgs.len() / (batch_size as nat)
            &&& start.after(submissions(msgs)).pending == msgs.len() % (batch_size as nat)
            &&& start.after(submissions(msgs)).batch_size == batch_size
        }),
    decreases msgs.len(),
{
    let start = BatchState { batch_size, pending: 0 };
    let events = submissions(msgs);
    lemma_fed_in_order(start, msgs);
    if msgs.len() == 0 {
        let b = batch_size as nat;
        assert(0nat / b == 0 && 0nat % b == 0) by (nonlinear_arith)
            requires
                b >= 1,
        ;
    } else {
        let front = msgs.drop_last();
        lemma_batching(batch_size, front);
        lemma_count_step(front.len(), batch_size as nat);
        let before = start.steps(submissions(front));
        let steps = start.steps(events);
        assert(events.drop_last() =~= submissions(front));
        assert(steps.drop_last() =~= before);
    }
}

/// One more frame moves the count of whole batches and the remainder as
/// division says.
proof fn lemma_count_step(n: nat, b: nat)
    requires
        b >= 1,
    ensures
        n % b + 1 == b ==> (n + 1) / b == n / b + 1 && (n + 1) % b == 0,
        n % b + 1 != b ==> (n + 1) / b == n / b && (n + 1) % b == n % b + 1,
        n % b < b,
{
    let q = (n / b) as int;
    let r = (n % b) as int;
    let d = b as int;
    vstd::arithmetic::div_mod::lemma_fundamental_div_mod(n as int, d);
    vstd::arithmetic::div_mod::lemma_mod_bound(n as int, d);
    assert(n == d * q + r);
    assert((q + 1) * d == d * q + d) by (nonlinear_arith);
    assert(q * d == d * q) by (nonlinear_arith);
    if r + 1 == b {
        vstd::arithmetic::div_mod::lemma_fundamental_div_mod_converse(n as int + 1, d, q + 1, 0);
    } else {
        vstd::arithmetic::div_mod::lemma_fundamental_div_mod_converse(n as int + 1, d, q, r + 1);
    }
}

/// Shutting down after the submitted frames flushes once more and feeds
/// nothing, so that no frame stays behind in the buffer.
pub proof fn lemma_shutdown_flushes(batch_size: usize, msgs: Seq<QemuEventMsg>)
    requires
        batch_size >= 1,
    ensures
        ({
            let start = BatchState { batch_size, pending: 0 };
            let steps = start.steps(submissions(msgs).push(ClientEvent::Shutdown));
            &&& steps.last().flush
            &&& fed(steps) == msgs
            &&& flushes(steps) == msgs.len() / (batch_size as nat) + 1
        }),
{
    let start = BatchState { batch_size, pending: 0 };
    let events = submissions(msgs).push(ClientEvent::Shutdown);
    lemma_batching(batch_size, msgs);
    assert(events.drop_last() =~= submissions(msgs));
    let steps = start.steps(events);
    assert(steps.drop_last() =~= start.steps(submissions(msgs)));
}

/// Frames arrive in the order in which they were submitted: the bytes that
/// the producer writes for a run of emitted frames decode to those frames,
/// in that order, whatever the batch size.
pub proof fn lemma_submission_order_kept(batch_size: usize, msgs: Seq<QemuEventMsg>)
    requires
        forall|i: int| 0 <= i < msgs.len() ==> (#[trigger] msgs[i]).wf(),
    ensures
        decode_greedy(
            frames_wire(fed((BatchState { batch_size, pending: 0 }).steps(submissions(msgs)))),
        ) == msgs,
{
    lemma_fed_in_order(BatchState { batch_size, pending: 0 }, msgs);
    lemma_decode_greedy_frames(msgs);
}

/// The end of a trace reaches the consumer. When a plugin has submitted
/// its frames, none of which says that the emulator has finished, and then
/// puts on the queue what it does at exit, the background task ends with a
/// flush, and a consumer that reads what was written takes every frame in
/// order, the last of them the one that ends the trace, and closes with
/// nothing left over.
pub proof fn lemma_exit_reaches_consumer(
    start: BatchState,
    msgs: Seq<QemuEventMsg>,
    last: QemuEventMsg,
)
    requires
        forall|i: int| 0 <= i < msgs.len() ==> (#[trigger] msgs[i]).wf(),
        forall|i: int|
            0 <= i < msgs.len() ==> (#[trigger] msgs[i]).flags.bits & FINISHED != FINISHED,
        last.wf(),
        last.flags.bits & FINISHED == FINISHED,
    ensures
        ({
            let events = submissions(msgs) + seq![ClientEvent::Event(last), ClientEvent::Shutdown];
            let steps = start.steps(events);
            let written = frames_wire(fed(steps));
            &&& steps.last().flush
            &&& fed(steps) == msgs.push(last)
            &&& drained(written) == msgs.push(last)
            &&& drained_end(written) == DrainEnd::Finished
            &&& drained_rest(written).len() == 0
        }),
{
    let all = msgs.push(last);
    let events = submissions(msgs) + seq![ClientEvent::Event(last), ClientEvent::Shutdown];
    let steps = start.steps(events);
    assert(events =~= submissions(all).push(ClientEvent::Shutdown));
    assert(events.drop_last() =~= submissions(all));
    lemma_fed_in_order(start, all);
    assert(steps.drop_last() =~= start.steps(submissions(all)));
    assert(fed(steps) == all);
    assert(all.last() == last);
    lemma_drain_frames(all);
}

} // verus!
