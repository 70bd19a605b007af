//! The worker channel: the request/response state machine between host
//! callers and the single thread that owns the embedded runtime.
//!
//! The channel is modelled as a state machine over {Idle, Busy, Closed}
//! together with a ghost trace of events. Every transition the host shell
//! performs goes through one of the methods here, and each maintains the
//! channel invariant. From that invariant the central concurrency claim is
//! proved: evaluations never overlap — between any two starts of an
//! evaluation a finish lies, however many host threads enqueue requests.

use vstd::prelude::*;

use crate::{JsWorkerError, JsWorkerResult};

verus! {

/// The lifecycle state of one worker channel.
#[derive(Debug, Clone, Copy, PartialEq, Eq, Structural)]
pub enum WorkerState {
    /// The worker thread is waiting for a request.
    Idle,
    /// The worker thread is evaluating one request.
    Busy,
    /// The channel is torn down; terminal.
    Closed,
}

/// One observable event of a channel's history.
#[derive(Debug, Clone, Copy, PartialEq, Eq, Structural)]
pub enum ChannelEvent {
    /// A caller enqueued a request and blocked.
    Enqueue,
    /// The worker thread started evaluating a request.
    Start,
    /// The worker thread produced the response for the running evaluation.
    Finish,
    /// The channel was torn down.
    Close,
}

/// How one event changes the number of evaluations in flight.
pub open spec fn flight_delta(e: ChannelEvent) -> int {
    match e {
        ChannelEvent::Start => 1,
        ChannelEvent::Finish => -1,
        _ => 0,
    }
}

/// The number of evaluations in flight after the first `n` events.
pub open spec fn in_flight(tr: Seq<ChannelEvent>, n: int) -> int
    decreases n,
{
    if n <= 0 {
        0
    } else {
        in_flight(tr, n - 1) + flight_delta(tr[n - 1])
    }
}

/// At every point of the history, at most one evaluation is in flight and
/// none has finished that never started.
pub open spec fn single_flight(tr: Seq<ChannelEvent>) -> bool {
    forall|n: int| 0 <= n <= tr.len() ==> 0 <= #[trigger] in_flight(tr, n) <= 1
}

/// Whether a finish lies strictly between positions `i` and `j`.
pub open spec fn finish_between(tr: Seq<ChannelEvent>, i: int, j: int) -> bool {
    exists|k: int| i < k < j && tr[k] == ChannelEvent::Finish
}

/// Evaluations are strictly sequential: between any two starts a finish lies.
pub open spec fn sequential_evaluations(tr: Seq<ChannelEvent>) -> bool {
    forall|i: int, j: int|
        0 <= i < j < tr.len() && tr[i] == ChannelEvent::Start && tr[j] == ChannelEvent::Start
            ==> #[trigger] finish_between(tr, i, j)
}

/// Appending an event does not change the flight count of earlier prefixes.
proof fn lemma_in_flight_push(tr: Seq<ChannelEvent>, e: ChannelEvent, n: int)
    requires
        0 <= n <= tr.len(),
    ensures
        in_flight(tr.push(e), n) == in_flight(tr, n),
    decreases n,
{
    if n > 0 {
        lemma_in_flight_push(tr, e, n - 1);
        assert(tr.push(e)[n - 1] == tr[n - 1]);
    }
}

/// While no finish occurs, the flight count never drops.
proof fn lemma_in_flight_no_finish(tr: Seq<ChannelEvent>, i: int, j: int)
    requires
        0 <= i <= j <= tr.len(),
        forall|k: int| i <= k < j ==> tr[k] != ChannelEvent::Finish,
    ensures
        in_flight(tr, j) >= in_flight(tr, i),
    decreases j - i,
{
    if j > i {
        lemma_in_flight_no_finish(tr, i, j - 1);
        assert(flight_delta(tr[j - 1]) >= 0);
    }
}

/// Two starts with no finish between them would put two evaluations in
/// flight at once, so a finish must lie between them.
proof fn lemma_flight_gap(tr: Seq<ChannelEvent>, i: int, j: int)
    requires
        0 <= i < j < tr.len(),
        tr[i] == ChannelEvent::Start,
        tr[j] == ChannelEvent::Start,
        0 <= in_flight(tr, i),
        in_flight(tr, j + 1) <= 1,
    ensures
        finish_between(tr, i, j),
{
    if !finish_between(tr, i, j) {
        assert(in_flight(tr, i + 1) == in_flight(tr, i) + 1);
        assert(forall|k: int| i + 1 <= k < j ==> tr[k] != ChannelEvent::Finish);
        lemma_in_flight_no_finish(tr, i + 1, j);
        assert(in_flight(tr, j + 1) == in_flight(tr, j) + 1);
        assert(false);
    }
}

/// The central concurrency law of the worker: in any history in which at
/// most one evaluation is ever in flight, no two evaluations interleave —
/// between any two starts a finish lies.
pub proof fn lemma_single_flight_sequential(tr: Seq<ChannelEvent>)
    requires
        single_flight(tr),
    ensures
        sequential_evaluations(tr),
{
    assert forall|i: int, j: int|
        0 <= i < j < tr.len() && tr[i] == ChannelEvent::Start && tr[j]
            == ChannelEvent::Start implies #[trigger] finish_between(tr, i, j) by {
        assert(0 <= in_flight(tr, i));
        assert(in_flight(tr, j + 1) <= 1);
        lemma_flight_gap(tr, i, j);
    }
}

/// The channel model: the state the host shell must keep in lockstep with
/// the real queue, thread and teardown flag, together with the ghost
/// history of what happened so far.
pub struct WorkerChannel {
    state: WorkerState,
    queued: usize,
    history: Ghost<Seq<ChannelEvent>>,
}

impl WorkerChannel {
    /// The lifecycle state.
    pub closed spec fn spec_state(&self) -> WorkerState {
        self.state
    }

    /// How many requests are enqueued and not yet started.
    pub closed spec fn spec_queued(&self) -> nat {
        self.queued as nat
    }

    /// The history of events so far.
    pub closed spec fn spec_history(&self) -> Seq<ChannelEvent> {
        self.history@
    }

    /// The channel invariant: the history never has two evaluations in
    /// flight at once, and the state says whether one is in flight now.
    pub closed spec fn wf(&self) -> bool {
        &&& single_flight(self.history@)
        &&& in_flight(self.history@, self.history@.len() as int) == if self.state
            == WorkerState::Busy {
            1int
        } else {
            0int
        }
        &&& self.state == WorkerState::Closed ==> self.queued == 0
    }

    /// A fresh channel: runtime built, thread running, queue empty.
    pub fn new() -> (c: Self)
        ensures
            c.wf(),
            c.spec_state() == WorkerState::Idle,
            c.spec_queued() == 0,
            c.spec_history() == Seq::<ChannelEvent>::empty(),
    {
        WorkerChannel { state: WorkerState::Idle, queued: 0, history: Ghost(Seq::empty()) }
    }

    /// A caller enqueues a request and blocks. Fails exactly when the
    /// channel is closed; the request is never silently dropped.
    pub fn enqueue(&mut self) -> (r: JsWorkerResult<()>)
        requires
            old(self).wf(),
            old(self).spec_queued() < usize::MAX,
        ensures
            final(self).wf(),
            r is Ok <==> old(self).spec_state() != WorkerState::Closed,
            r is Ok ==> final(self).spec_state() == old(self).spec_state() && final(self).spec_queued()
                == old(self).spec_queued() + 1 && final(self).spec_history() == old(
                self,
            ).spec_history().push(
                ChannelEvent::Enqueue,
            ),
            r is Err ==> *final(self) == *old(self),
            r matches Err(e) ==> e matches JsWorkerError::Other(msg) && msg@
                == "worker is closed"@,
    {
        if matches!(self.state, WorkerState::Closed) {
            return Err(JsWorkerError::Other(String::from_str("worker is closed")));
        }
        self.queued = self.queued + 1;
        proof {
            let tr = self.history@;
            lemma_history_extend(tr, ChannelEvent::Enqueue);
        }
        self.history = Ghost(self.history@.push(ChannelEvent::Enqueue));
        Ok(())
    }

    /// The worker thread takes the oldest queued request and begins its
    /// evaluation. Permitted exactly when the thread is idle and a request
    /// waits.
    pub fn begin(&mut self) -> (r: bool)
        requires
            old(self).wf(),
        ensures
            final(self).wf(),
            r <==> old(self).spec_state() == WorkerState::Idle && old(self).spec_queued() > 0,
            r ==> final(self).spec_state() == WorkerState::Busy && final(self).spec_queued() == old(
                self,
            ).spec_queued() - 1 && final(self).spec_history() == old(self).spec_history().push(
                ChannelEvent::Start,
            ),
            !r ==> *final(self) == *old(self),
    {
        if matches!(self.state, WorkerState::Idle) && self.queued > 0 {
            self.queued = self.queued - 1;
            self.state = WorkerState::Busy;
            proof {
                let tr = self.history@;
                lemma_history_extend(tr, ChannelEvent::Start);
            }
            self.history = Ghost(self.history@.push(ChannelEvent::Start));
            true
        } else {
            false
        }
    }

    /// The worker thread finishes the running evaluation and replies to the
    /// blocked caller. Permitted exactly when an evaluation is in flight.
    pub fn finish(&mut self) -> (r: bool)
        requires
            old(self).wf(),
        ensures
            final(self).wf(),
            r <==> old(self).spec_state() == WorkerState::Busy,
            r ==> final(self).spec_state() == WorkerState::Idle && final(self).spec_queued() == old(
                self,
            ).spec_queued() && final(self).spec_history() == old(self).spec_history().push(
                ChannelEvent::Finish,
            ),
            !r ==> *final(self) == *old(self),
    {
        if matches!(self.state, WorkerState::Busy) {
            self.state = WorkerState::Idle;
            proof {
                let tr = self.history@;
                lemma_history_extend(tr, ChannelEvent::Finish);
            }
            self.history = Ghost(self.history@.push(ChannelEvent::Finish));
            true
        } else {
            false
        }
    }

    /// Teardown. An in-flight evaluation counts as finished (its caller is
    /// failed, not left hanging), and the number of still-queued requests
    /// that must now each be failed is returned. Closing is terminal and
    /// idempotent.
    pub fn close(&mut self) -> (abandoned: usize)
        requires
            old(self).wf(),
        ensures
            final(self).wf(),
            final(self).spec_state() == WorkerState::Closed,
            final(self).spec_queued() == 0,
            abandoned == old(self).spec_queued(),
            old(self).spec_state() == WorkerState::Idle ==> final(self).spec_history() == old(
                self,
            ).spec_history().push(ChannelEvent::Close),
            old(self).spec_state() == WorkerState::Busy ==> final(self).spec_history() == old(
                self,
            ).spec_history().push(ChannelEvent::Finish).push(ChannelEvent::Close),
            old(self).spec_state() == WorkerState::Closed ==> final(self).spec_history() == old(
                self,
            ).spec_history(),
    {
        let abandoned = self.queued;
        self.queued = 0;
        if matches!(self.state, WorkerState::Busy) {
            proof {
                lemma_history_extend(self.history@, ChannelEvent::Finish);
            }
            self.history = Ghost(self.history@.push(ChannelEvent::Finish));
        }
        if !matches!(self.state, WorkerState::Closed) {
            proof {
                lemma_history_extend(self.history@, ChannelEvent::Close);
            }
            self.history = Ghost(self.history@.push(ChannelEvent::Close));
        }
        self.state = WorkerState::Closed;
        abandoned
    }

    /// Evaluations of this channel never interleave.
    pub proof fn evaluations_are_sequential(&self)
        requires
            self.wf(),
        ensures
            sequential_evaluations(self.spec_history()),
    {
        lemma_single_flight_sequential(self.history@);
    }
}

/// Appending one event keeps every strict prefix's flight count, so the
/// whole extended history stays within bounds whenever the final count does.
proof fn lemma_history_extend(tr: Seq<ChannelEvent>, e: ChannelEvent)
    ensures
        forall|n: int| 0 <= n <= tr.len() ==> #[trigger] in_flight(tr.push(e), n) == in_flight(
            tr,
            n,
        ),
        in_flight(tr.push(e), tr.len() as int + 1) == in_flight(tr, tr.len() as int)
            + flight_delta(e),
{
    assert forall|n: int| 0 <= n <= tr.len() implies #[trigger] in_flight(tr.push(e), n)
        == in_flight(tr, n) by {
        lemma_in_flight_push(tr, e, n);
    }
    let m = tr.len() as int + 1;
    assert(tr.push(e)[m - 1] == e);
    assert(in_flight(tr.push(e), m) == in_flight(tr.push(e), m - 1) + flight_delta(e));
    assert(in_flight(tr.push(e), m - 1) == in_flight(tr, tr.len() as int));
}

} // verus!
