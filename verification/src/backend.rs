//! The backend connection worker: the single background task that owns the
//! physical connection to the backend server, forwards each accepted request
//! frame, and routes every frame the backend returns to the delivery channel
//! of the most recently accepted request.
//!
//! The worker is modelled as a state machine: at each suspension point it
//! observes one [`WorkerEvent`] and answers with one [`WorkerAction`]. The
//! surrounding runtime performs the action (a socket write, a channel send)
//! and reports failures back as further events. Routing is therefore a pure
//! function of the event history, which is what the lemmas at the bottom of
//! this module pin down.

use vstd::prelude::*;

use crate::StageError;
use crate::frame::Frame;

verus! {

/// What the worker observes at one of its suspension points.
pub enum WorkerEvent {
    /// The inbound queue delivered a request frame to forward to the backend.
    Request(Frame),
    /// The inbound queue closed: every handle to this connection is gone.
    QueueClosed,
    /// The backend connection yielded one response frame.
    BackendFrame(Frame),
    /// The backend connection ended: a read returned end-of-stream.
    BackendEof,
    /// Reading from the backend failed.
    BackendReadError,
    /// The most recent write of a request frame to the backend failed.
    BackendWriteFailed,
    /// Forwarding a frame to the current delivery channel failed because the
    /// response stream's receiving end was dropped: an abandonment signal,
    /// not an error.
    DeliveryRejected,
}

/// What the worker does in response to one event.
pub enum WorkerAction {
    /// Write this request frame to the backend connection.
    WriteToBackend(Frame),
    /// Forward this response frame to the delivery channel of the stream
    /// with the given number.
    Deliver(u64, Frame),
    /// No request is outstanding: warn and drop this stray frame.
    DropStray(Frame),
    /// Exit the worker loop; the liveness flag is now false.
    Terminate,
    /// Nothing to perform beyond the state update.
    Continue,
}

/// The worker's whole mutable state. Everything here is owned by the worker
/// task alone; only the liveness flag `running` is published to the handle.
pub struct WorkerState {
    /// The liveness flag: true from start-up until the worker terminates.
    pub running: bool,
    /// How many requests this worker has accepted. The response stream of
    /// the `k`-th accepted request is stream `k`, counting from zero.
    pub accepted: u64,
    /// The stream whose delivery channel currently receives backend frames,
    /// if one is open.
    pub current: Option<u64>,
}

/// One frame routed to one response stream.
#[derive(Debug)]
pub struct Delivery {
    pub stream: u64,
    pub frame: Frame,
}

impl WorkerState {
    /// A stream only becomes current when its request is accepted.
    pub open spec fn wf(self) -> bool {
        self.current matches Some(k) ==> k < self.accepted
    }

    pub open spec fn init_spec() -> WorkerState {
        WorkerState { running: true, accepted: 0, current: None }
    }

    /// The state of a worker that has just been spawned. The liveness flag
    /// starts true so that a handle never observes a not-yet-started worker
    /// as dead.
    pub fn init() -> (r: WorkerState)
        ensures
            r == WorkerState::init_spec(),
    {
        WorkerState { running: true, accepted: 0, current: None }
    }

    /// One transition of the worker: the new state and the action to perform.
    ///
    /// A new request supersedes the previous delivery channel, so a backend
    /// frame always goes to the most recently accepted request's stream. A
    /// rejected delivery clears the channel and nothing else: the worker
    /// stays alive. Queue closure and any backend transport failure or
    /// end-of-stream terminate the worker, which drops the liveness flag.
    pub open spec fn spec_step(s: WorkerState, event: WorkerEvent) -> (WorkerState, WorkerAction) {
        if !s.running {
            (s, WorkerAction::Continue)
        } else {
            match event {
                WorkerEvent::Request(f) => (
                    WorkerState {
                        running: true,
                        accepted: (s.accepted + 1) as u64,
                        current: Some(s.accepted),
                    },
                    WorkerAction::WriteToBackend(f),
                ),
                WorkerEvent::BackendFrame(f) => match s.current {
                    Some(k) => (s, WorkerAction::Deliver(k, f)),
                    None => (s, WorkerAction::DropStray(f)),
                },
                WorkerEvent::DeliveryRejected => (
                    WorkerState { running: s.running, accepted: s.accepted, current: None },
                    WorkerAction::Continue,
                ),
                _ => (
                    WorkerState { running: false, accepted: s.accepted, current: s.current },
                    WorkerAction::Terminate,
                ),
            }
        }
    }

    /// Executable form of one transition.
    pub fn step(&mut self, event: WorkerEvent) -> (action: WorkerAction)
        requires
            old(self).running && event is Request ==> old(self).accepted < u64::MAX,
        ensures
            *final(self) == WorkerState::spec_step(*old(self), event).0,
            action == WorkerState::spec_step(*old(self), event).1,
    {
        if !self.running {
            return WorkerAction::Continue;
        }
        match event {
            WorkerEvent::Request(f) => {
                self.current = Some(self.accepted);
                self.accepted = self.accepted + 1;
                WorkerAction::WriteToBackend(f)
            },
            WorkerEvent::BackendFrame(f) => match self.current {
                Some(k) => WorkerAction::Deliver(k, f),
                None => WorkerAction::DropStray(f),
            },
            WorkerEvent::DeliveryRejected => {
                self.current = None;
                WorkerAction::Continue
            },
            _ => {
                self.running = false;
                WorkerAction::Terminate
            },
        }
    }
}

/// The state after the worker has observed a whole sequence of events.
pub open spec fn run(s: WorkerState, events: Seq<WorkerEvent>) -> WorkerState
    decreases events.len(),
{
    if events.len() == 0 {
        s
    } else {
        run(WorkerState::spec_step(s, events[0]).0, events.drop_first())
    }
}

/// The deliveries (at most one) that one event causes in state `s`.
pub open spec fn emitted(s: WorkerState, event: WorkerEvent) -> Seq<Delivery> {
    match WorkerState::spec_step(s, event).1 {
        WorkerAction::Deliver(k, f) => seq![Delivery { stream: k, frame: f }],
        _ => Seq::empty(),
    }
}

/// Every frame the worker forwards over a whole sequence of events, each
/// tagged with the stream it is delivered to, in delivery order.
pub open spec fn delivered(s: WorkerState, events: Seq<WorkerEvent>) -> Seq<Delivery>
    decreases events.len(),
{
    if events.len() == 0 {
        Seq::empty()
    } else {
        emitted(s, events[0]) + delivered(
            WorkerState::spec_step(s, events[0]).0,
            events.drop_first(),
        )
    }
}

pub proof fn lemma_run_snoc(s: WorkerState, events: Seq<WorkerEvent>, event: WorkerEvent)
    ensures
        run(s, events.push(event)) == WorkerState::spec_step(run(s, events), event).0,
        delivered(s, events.push(event)) == delivered(s, events) + emitted(run(s, events), event),
    decreases events.len(),
{
    if events.len() == 0 {
        let p = events.push(event);
        let s1 = WorkerState::spec_step(s, event).0;
        assert(p[0] == event);
        assert(p.drop_first() =~= Seq::<WorkerEvent>::empty());
        assert(run(s1, p.drop_first()) == s1);
        assert(delivered(s1, p.drop_first()) =~= Seq::<Delivery>::empty());
        assert(run(s, events) == s);
        assert(delivered(s, p) =~= emitted(s, event));
        assert(delivered(s, events) + emitted(run(s, events), event) =~= emitted(s, event));
    } else {
        let s1 = WorkerState::spec_step(s, events[0]).0;
        assert(events.push(event).drop_first() =~= events.drop_first().push(event));
        lemma_run_snoc(s1, events.drop_first(), event);
        assert(delivered(s, events.push(event)) =~= emitted(s, events[0]) + delivered(
            s1,
            events.drop_first().push(event),
        ));
        assert(delivered(s, events) + emitted(run(s, events), event) =~= emitted(s, events[0]) + (
        delivered(s1, events.drop_first()) + emitted(run(s1, events.drop_first()), event)));
    }
}

/// The number of accepted requests grows by at most one per event, and the
/// state stays well formed.
pub proof fn lemma_run_bounds(s: WorkerState, events: Seq<WorkerEvent>)
    requires
        s.wf(),
        s.accepted + events.len() <= u64::MAX,
    ensures
        run(s, events).accepted <= s.accepted + events.len(),
        run(s, events).wf(),
    decreases events.len(),
{
    if events.len() > 0 {
        lemma_run_bounds(WorkerState::spec_step(s, events[0]).0, events.drop_first());
    }
}

/// Replays a whole event history against a freshly started worker and
/// returns every delivery it makes, in order. This is the worker loop with
/// the transport and the channels abstracted into events.
pub fn run_worker(events: Vec<WorkerEvent>) -> (out: Vec<Delivery>)
    ensures
        out@ == delivered(WorkerState::init_spec(), events@),
{
    let ghost all = events@;
    let mut remaining = events;
    let total = remaining.len();
    let mut state = WorkerState::init();
    let mut out: Vec<Delivery> = Vec::new();
    let ghost mut i: int = 0;
    proof {
        assert(all.take(0) =~= Seq::<WorkerEvent>::empty());
        assert(remaining@ =~= all.skip(0));
    }
    while remaining.len() > 0
        invariant
            all.len() == total,
            0 <= i <= all.len(),
            i + remaining@.len() == all.len(),
            remaining@ == all.skip(i),
            state == run(WorkerState::init_spec(), all.take(i)),
            out@ == delivered(WorkerState::init_spec(), all.take(i)),
        decreases remaining@.len(),
    {
        proof {
            assert(all.take(i).len() == i);
            lemma_run_bounds(WorkerState::init_spec(), all.take(i));
            lemma_run_snoc(WorkerState::init_spec(), all.take(i), all[i]);
            assert(all.take(i + 1) =~= all.take(i).push(all[i]));
            assert(remaining@[0] == all[i]);
        }
        let event = remaining.remove(0);
        let action = state.step(event);
        match action {
            WorkerAction::Deliver(k, f) => {
                out.push(Delivery { stream: k, frame: f });
            },
            _ => {},
        }
        proof {
            i = i + 1;
            assert(remaining@ =~= all.skip(i));
        }
    }
    proof {
        assert(all.take(all.len() as int) =~= all);
    }
    out
}

/// True when every event is a request acceptance or a backend frame: the
/// transport stays up, no delivery is rejected and the queue stays open.
pub open spec fn only_transfer_events(events: Seq<WorkerEvent>) -> bool {
    forall|i: int|
        0 <= i < events.len() ==> (events[i] is Request || events[i] is BackendFrame)
}

/// How many requests are accepted in `events`.
pub open spec fn request_count(events: Seq<WorkerEvent>) -> int
    decreases events.len(),
{
    if events.len() == 0 {
        0
    } else {
        (if events[0] is Request {
            1int
        } else {
            0int
        }) + request_count(events.drop_first())
    }
}

pub proof fn lemma_request_count_bounds(events: Seq<WorkerEvent>)
    ensures
        0 <= request_count(events) <= events.len(),
    decreases events.len(),
{
    if events.len() > 0 {
        lemma_request_count_bounds(events.drop_first());
    }
}

/// The backend frames that arrive before the first request in `events`.
pub open spec fn leading_frames(events: Seq<WorkerEvent>) -> Seq<Frame>
    decreases events.len(),
{
    if events.len() == 0 {
        Seq::empty()
    } else {
        match events[0] {
            WorkerEvent::Request(_) => Seq::empty(),
            WorkerEvent::BackendFrame(f) => seq![f] + leading_frames(events.drop_first()),
            _ => leading_frames(events.drop_first()),
        }
    }
}

/// The backend frames that arrive between the acceptance of request `k` and
/// the acceptance of request `k + 1` (or the end of the history, for the
/// last request).
pub open spec fn window(events: Seq<WorkerEvent>, k: int) -> Seq<Frame>
    decreases events.len(),
{
    if events.len() == 0 {
        Seq::empty()
    } else if events[0] is Request {
        if k == 0 {
            leading_frames(events.drop_first())
        } else {
            window(events.drop_first(), k - 1)
        }
    } else {
        window(events.drop_first(), k)
    }
}

/// The frames delivered to stream `k`, in delivery order.
pub open spec fn stream_frames(d: Seq<Delivery>, k: u64) -> Seq<Frame>
    decreases d.len(),
{
    if d.len() == 0 {
        Seq::empty()
    } else {
        (if d[0].stream == k {
            seq![d[0].frame]
        } else {
            Seq::empty()
        }) + stream_frames(d.drop_first(), k)
    }
}

pub proof fn lemma_stream_frames_single(d: Delivery, k: u64)
    ensures
        stream_frames(seq![d], k) == (if d.stream == k {
            seq![d.frame]
        } else {
            Seq::<Frame>::empty()
        }),
{
    assert(seq![d].drop_first() =~= Seq::<Delivery>::empty());
    assert(stream_frames(seq![d].drop_first(), k) =~= Seq::<Frame>::empty());
    assert(stream_frames(seq![d], k) =~= (if d.stream == k {
        seq![d.frame]
    } else {
        Seq::<Frame>::empty()
    }));
}

pub proof fn lemma_stream_frames_concat(a: Seq<Delivery>, b: Seq<Delivery>, k: u64)
    ensures
        stream_frames(a + b, k) == stream_frames(a, k) + stream_frames(b, k),
    decreases a.len(),
{
    if a.len() == 0 {
        assert(a + b =~= b);
        assert(stream_frames(a, k) + stream_frames(b, k) =~= stream_frames(b, k));
    } else {
        assert((a + b).drop_first() =~= a.drop_first() + b);
        assert((a + b)[0] == a[0]);
        lemma_stream_frames_concat(a.drop_first(), b, k);
        assert(stream_frames(a + b, k) =~= stream_frames(a, k) + stream_frames(b, k));
    }
}

/// Routing, generalized over the worker's starting state: starting from `s`,
/// stream `k` receives the leading backend frames if it is current, the
/// frames of its own window if its request is accepted during `events`, and
/// nothing otherwise.
proof fn lemma_routing_from(s: WorkerState, events: Seq<WorkerEvent>, k: u64)
    requires
        s.running,
        s.wf(),
        only_transfer_events(events),
        s.accepted + request_count(events) <= u64::MAX,
    ensures
        stream_frames(delivered(s, events), k) == (if (s.current matches Some(c) && c == k) {
            leading_frames(events)
        } else if s.accepted <= k && k - s.accepted < request_count(events) {
            window(events, k - s.accepted)
        } else {
            Seq::<Frame>::empty()
        }),
    decreases events.len(),
{
    lemma_request_count_bounds(events);
    if events.len() == 0 {
        return ;
    }
    let e = events[0];
    let rest = events.drop_first();
    assert forall|j: int| 0 <= j < rest.len() implies (rest[j] is Request
        || rest[j] is BackendFrame) by {
        assert(rest[j] == events[j + 1]);
    }
    lemma_request_count_bounds(rest);
    let s1 = WorkerState::spec_step(s, e).0;
    assert(e is Request || e is BackendFrame);
    match e {
        WorkerEvent::Request(_) => {
            assert(request_count(events) == 1 + request_count(rest));
            assert(s1.accepted == s.accepted + 1);
            assert(s1.current == Some(s.accepted));
            lemma_routing_from(s1, rest, k);
            assert(emitted(s, e) =~= Seq::<Delivery>::empty());
            assert(emitted(s, e) + delivered(s1, rest) =~= delivered(s1, rest));
            assert(stream_frames(delivered(s, events), k) == stream_frames(
                delivered(s1, rest),
                k,
            ));
            if s.current matches Some(c) && c == k {
                assert(k < s.accepted);
                assert(stream_frames(delivered(s1, rest), k) =~= Seq::<Frame>::empty());
                assert(leading_frames(events) =~= Seq::<Frame>::empty());
            } else if k == s.accepted {
                assert(stream_frames(delivered(s1, rest), k) == leading_frames(rest));
                assert(window(events, 0) == leading_frames(rest));
            } else if s.accepted < k && k - s.accepted < request_count(events) {
                assert(stream_frames(delivered(s1, rest), k) == window(
                    rest,
                    k - s.accepted - 1,
                ));
                assert(window(events, k - s.accepted) == window(rest, k - s.accepted - 1));
            } else {
                assert(stream_frames(delivered(s1, rest), k) =~= Seq::<Frame>::empty());
            }
        },
        WorkerEvent::BackendFrame(f) => {
            assert(s1 == s);
            assert(request_count(events) == request_count(rest));
            lemma_routing_from(s, rest, k);
            lemma_stream_frames_concat(emitted(s, e), delivered(s, rest), k);
            match s.current {
                Some(c) => {
                    assert(emitted(s, e) =~= seq![Delivery { stream: c, frame: f }]);
                    lemma_stream_frames_single(Delivery { stream: c, frame: f }, k);
                    if c == k {
                        assert(stream_frames(emitted(s, e), k) =~= seq![f]);
                        assert(leading_frames(events) == seq![f] + leading_frames(rest));
                        assert(stream_frames(delivered(s, events), k) =~= leading_frames(
                            events,
                        ));
                    } else {
                        assert(stream_frames(emitted(s, e), k) =~= Seq::<Frame>::empty());
                        assert(stream_frames(delivered(s, events), k) =~= stream_frames(
                            delivered(s, rest),
                            k,
                        ));
                        if s.accepted <= k && k - s.accepted < request_count(events) {
                            assert(window(events, k - s.accepted) == window(
                                rest,
                                k - s.accepted,
                            ));
                        }
                    }
                },
                None => {
                    assert(emitted(s, e) =~= Seq::<Delivery>::empty());
                    assert(emitted(s, e) + delivered(s, rest) =~= delivered(s, rest));
                    if s.accepted <= k && k - s.accepted < request_count(events) {
                        assert(window(events, k - s.accepted) == window(rest, k - s.accepted));
                    }
                },
            }
        },
        _ => {
            assert(false);
        },
    }
}

/// Serial-routing law: on a freshly started worker, response stream `k`
/// receives exactly the backend frames that arrive after request `k` is
/// accepted and before request `k + 1` is — or until the end of the history
/// for the last request. Holds for any history in which the transport stays
/// up and no stream is abandoned.
pub proof fn lemma_response_stream_routing(events: Seq<WorkerEvent>, k: u64)
    requires
        only_transfer_events(events),
        request_count(events) <= u64::MAX,
        k < request_count(events),
    ensures
        stream_frames(delivered(WorkerState::init_spec(), events), k) == window(events, k as int),
{
    lemma_routing_from(WorkerState::init_spec(), events, k);
}

/// The backend closing the connection ends the last stream's window without
/// adding any delivery.
pub proof fn lemma_connection_end_delivers_nothing(s: WorkerState, events: Seq<WorkerEvent>)
    ensures
        delivered(s, events.push(WorkerEvent::BackendEof)) == delivered(s, events),
{
    lemma_run_snoc(s, events, WorkerEvent::BackendEof);
    assert(emitted(run(s, events), WorkerEvent::BackendEof) =~= Seq::<Delivery>::empty());
    assert(delivered(s, events) + emitted(run(s, events), WorkerEvent::BackendEof) =~= delivered(
        s,
        events,
    ));
}

/// Frames that arrive before any request is accepted are delivered to no
/// stream at all: they are stray and dropped.
pub proof fn lemma_strays_reach_no_stream(events: Seq<WorkerEvent>, k: u64)
    requires
        only_transfer_events(events),
        request_count(events) == 0,
    ensures
        stream_frames(delivered(WorkerState::init_spec(), events), k) == Seq::<Frame>::empty(),
{
    lemma_routing_from(WorkerState::init_spec(), events, k);
}

/// Late-submission boundary, generalized over the starting state.
proof fn lemma_latest_request_from(s: WorkerState, events: Seq<WorkerEvent>, i: int)
    requires
        s.running,
        s.wf(),
        only_transfer_events(events),
        s.accepted + request_count(events) <= u64::MAX,
        0 <= i < events.len(),
        events[i] is BackendFrame,
        request_count(events.take(i)) > 0 || s.current is Some,
    ensures
        delivered(s, events).contains(
            (Delivery {
                stream: if request_count(events.take(i)) > 0 {
                    ((s.accepted + request_count(events.take(i))) - 1) as u64
                } else {
                    s.current->0
                },
                frame: events[i]->BackendFrame_0,
            }),
        ),
    decreases events.len(),
{
    lemma_request_count_bounds(events);
    lemma_request_count_bounds(events.take(i));
    let e = events[0];
    let rest = events.drop_first();
    assert forall|j: int| 0 <= j < rest.len() implies (rest[j] is Request
        || rest[j] is BackendFrame) by {
        assert(rest[j] == events[j + 1]);
    }
    let s1 = WorkerState::spec_step(s, e).0;
    if i == 0 {
        assert(events.take(0) =~= Seq::<WorkerEvent>::empty());
        let c = s.current->0;
        let f = e->BackendFrame_0;
        assert(emitted(s, e) == seq![Delivery { stream: c, frame: f }]);
        assert(delivered(s, events)[0] == Delivery { stream: c, frame: f });
    } else {
        assert(rest[i - 1] == events[i]);
        assert(events.take(i).drop_first() =~= rest.take(i - 1));
        assert(request_count(events.take(i)) == (if events[0] is Request {
            1int
        } else {
            0int
        }) + request_count(rest.take(i - 1)));
        lemma_request_count_bounds(rest.take(i - 1));
        lemma_request_count_bounds(rest);
        lemma_latest_request_from(s1, rest, i - 1);
        let d = Delivery {
            stream: if request_count(events.take(i)) > 0 {
                ((s.accepted + request_count(events.take(i))) - 1) as u64
            } else {
                s.current->0
            },
            frame: events[i]->BackendFrame_0,
        };
        let idx = choose|idx: int|
            0 <= idx < delivered(s1, rest).len() && delivered(s1, rest)[idx] == d;
        assert(delivered(s, events)[emitted(s, e).len() + idx] == d);
    }
}

/// Late-submission boundary law: a backend frame observed after `n`
/// requests have been accepted is delivered to stream `n - 1`, the stream
/// of the most recently accepted request — even if an earlier stream was
/// never drained. This is the documented behaviour when a new request is
/// submitted before the previous response stream is exhausted.
pub proof fn lemma_late_frame_delivered_to_latest(events: Seq<WorkerEvent>, i: int)
    requires
        only_transfer_events(events),
        request_count(events) <= u64::MAX,
        0 <= i < events.len(),
        events[i] is BackendFrame,
        request_count(events.take(i)) > 0,
    ensures
        delivered(WorkerState::init_spec(), events).contains(
            (Delivery {
                stream: (request_count(events.take(i)) - 1) as u64,
                frame: events[i]->BackendFrame_0,
            }),
        ),
{
    lemma_request_count_bounds(events.take(i));
    lemma_latest_request_from(WorkerState::init_spec(), events, i);
}

/// Abandonment law: a rejected delivery (the response stream's receiving
/// end was dropped mid-drain) leaves the worker alive with no current
/// channel, and the next request is accepted and forwarded as usual.
pub proof fn lemma_abandoned_stream_not_fatal(s: WorkerState, f: Frame)
    requires
        s.running,
        s.accepted < u64::MAX,
    ensures
        ({
            let (s1, a1) = WorkerState::spec_step(s, WorkerEvent::DeliveryRejected);
            let (s2, a2) = WorkerState::spec_step(s1, WorkerEvent::Request(f));
            &&& s1.running
            &&& s1.current is None
            &&& a1 is Continue
            &&& s2.running
            &&& a2 == WorkerAction::WriteToBackend(f)
            &&& s2.current == Some(s1.accepted)
        }),
{
}

/// Fail-fast law: when the backend connection ends, the worker terminates
/// and the liveness flag falls, so a later submission is refused without
/// reaching the backend.
pub proof fn lemma_backend_eof_fails_fast(s: WorkerState, f: Frame)
    requires
        s.running,
    ensures
        ({
            let (s1, a1) = WorkerState::spec_step(s, WorkerEvent::BackendEof);
            let (s2, a2) = WorkerState::spec_step(s1, WorkerEvent::Request(f));
            &&& !s1.running
            &&& a1 is Terminate
            &&& s2 == s1
            &&& a2 is Continue
        }),
{
}

/// Models the handle's readiness check: not ready, with the fatal error,
/// exactly when the background worker has terminated.
pub fn ready_check(worker_running: bool) -> (r: Result<(), StageError>)
    ensures
        r is Ok <==> worker_running,
        !worker_running ==> r == Err::<(), StageError>(StageError::WorkerTerminated),
{
    if worker_running {
        Ok(())
    } else {
        Err(StageError::WorkerTerminated)
    }
}

/// Models the handle's submission path: the request frame is handed to the
/// worker's inbound queue unchanged, and enqueueing fails exactly when the
/// queue's receiving end is gone (the worker terminated).
pub fn submit_request(queue_open: bool, frame: Frame) -> (r: Result<Frame, StageError>)
    ensures
        queue_open ==> r == Ok::<Frame, StageError>(frame),
        !queue_open ==> r == Err::<Frame, StageError>(StageError::QueueClosed),
{
    if queue_open {
        Ok(frame)
    } else {
        Err(StageError::QueueClosed)
    }
}

} // verus!
