//! The connection orchestrator: the per-client duplex loop and its
//! forwarder. The loop reads client frames, submits each to the pipeline,
//! and hands the resulting response stream to the forwarder, which fully
//! drains one stream before beginning the next. Client-visible frame order
//! is therefore the submission order of the requests, with each stream's
//! own frame order preserved.

use vstd::prelude::*;
use vstd::seq_lib::*;

use crate::frame::Frame;

verus! {

/// The frames of a sequence of response streams, flattened in stream order.
pub open spec fn flatten_streams(streams: Seq<Vec<Frame>>) -> Seq<Frame> {
    streams.flat_map(|s: Vec<Frame>| s@)
}

/// The forwarder: takes the response streams in the order their requests
/// were submitted and writes out every frame of each stream, fully draining
/// one stream before beginning the next. The output is exactly the streams'
/// frames, stream by stream, each in its own order.
pub fn forward_all(streams: Vec<Vec<Frame>>) -> (out: Vec<Frame>)
    ensures
        out@ == flatten_streams(streams@),
{
    let ghost all = streams@;
    let ghost f = |s: Vec<Frame>| s@;
    let mut remaining = streams;
    let mut out: Vec<Frame> = Vec::new();
    let ghost mut i: int = 0;
    proof {
        assert(remaining@ =~= all.skip(0));
        assert(all.take(0) =~= Seq::<Vec<Frame>>::empty());
        assert(out@ =~= all.take(0).flat_map(f));
    }
    while remaining.len() > 0
        invariant
            0 <= i <= all.len(),
            i + remaining@.len() == all.len(),
            remaining@ == all.skip(i),
            out@ == all.take(i).flat_map(f),
            forall|s: Vec<Frame>| #[trigger] f(s) == s@,
        decreases remaining@.len(),
    {
        proof {
            assert(remaining@[0] == all[i]);
            all.lemma_flat_map_take_append(f, i);
        }
        let mut stream = remaining.remove(0);
        out.append(&mut stream);
        proof {
            i = i + 1;
            assert(remaining@ =~= all.skip(i));
        }
    }
    proof {
        assert(all.take(all.len() as int) =~= all);
    }
    out
}

/// What the per-connection loop observes at one of its suspension points.
pub enum ConnEvent {
    /// The client sent one decoded frame.
    FrameRead(Frame),
    /// Reading from the client failed.
    ReadFailed,
    /// The client closed its end of the connection.
    ClientClosed,
    /// The pipeline accepted the submitted frame and produced a response
    /// stream handle.
    SubmitOk,
    /// The pipeline refused the submitted frame.
    SubmitFailed,
    /// The forwarder's stream queue no longer accepts streams: its
    /// receiving end is gone.
    ForwarderGone,
}

/// What the per-connection loop does in response to one event.
pub enum ConnAction {
    /// Submit this frame to the pipeline and await only the creation of the
    /// response stream handle, not its draining.
    Submit(Frame),
    /// Hand the new response stream handle to the forwarder's queue.
    EnqueueStream,
    /// Record the failure and keep serving this client: a single refused
    /// request does not tear the connection down.
    LogAndContinue,
    /// Stop reading, close the stream queue, and wait for the forwarder to
    /// drain what was already enqueued.
    Shutdown,
}

/// The per-connection loop's state: whether it is still serving.
pub struct ConnState {
    pub active: bool,
}

impl ConnState {
    pub open spec fn start_spec() -> ConnState {
        ConnState { active: true }
    }

    pub fn start() -> (r: ConnState)
        ensures
            r == ConnState::start_spec(),
    {
        ConnState { active: true }
    }

    /// One decision of the duplex loop. A refused submission is logged and
    /// the loop goes on; only a client read error, the client closing, or
    /// the forwarder disappearing end the loop — and then the forwarder is
    /// still drained, never abandoned.
    pub open spec fn spec_step(s: ConnState, event: ConnEvent) -> (ConnState, ConnAction) {
        if !s.active {
            (s, ConnAction::Shutdown)
        } else {
            match event {
                ConnEvent::FrameRead(f) => (s, ConnAction::Submit(f)),
                ConnEvent::SubmitOk => (s, ConnAction::EnqueueStream),
                ConnEvent::SubmitFailed => (s, ConnAction::LogAndContinue),
                _ => (ConnState { active: false }, ConnAction::Shutdown),
            }
        }
    }

    /// Executable form of one loop decision.
    pub fn step(&mut self, event: ConnEvent) -> (action: ConnAction)
        ensures
            *final(self) == ConnState::spec_step(*old(self), event).0,
            action == ConnState::spec_step(*old(self), event).1,
    {
        if !self.active {
            return ConnAction::Shutdown;
        }
        match event {
            ConnEvent::FrameRead(f) => ConnAction::Submit(f),
            ConnEvent::SubmitOk => ConnAction::EnqueueStream,
            ConnEvent::SubmitFailed => ConnAction::LogAndContinue,
            _ => {
                self.active = false;
                ConnAction::Shutdown
            },
        }
    }
}

/// What the acceptor does with one incoming client connection.
pub enum AcceptAction {
    /// Hand the connection and its freshly built pipeline to an independent
    /// handler task.
    SpawnHandler,
    /// Record the pipeline factory's failure and keep listening: one
    /// client's failure never tears the listener down.
    LogAndKeepListening,
}

/// The acceptor's policy for one incoming connection.
pub fn accept_decision(factory_ok: bool) -> (r: AcceptAction)
    ensures
        factory_ok <==> r is SpawnHandler,
{
    if factory_ok {
        AcceptAction::SpawnHandler
    } else {
        AcceptAction::LogAndKeepListening
    }
}

/// Isolation law: no single event both keeps the loop serving and abandons
/// the forwarder; a submission failure leaves the loop active, and any
/// terminal event yields exactly a shutdown, under which the forwarder is
/// drained rather than dropped.
pub proof fn lemma_submit_failure_is_not_fatal(s: ConnState)
    requires
        s.active,
    ensures
        ({
            let (s1, a1) = ConnState::spec_step(s, ConnEvent::SubmitFailed);
            &&& s1.active
            &&& a1 is LogAndContinue
        }),
        ({
            let (s2, a2) = ConnState::spec_step(s, ConnEvent::ClientClosed);
            &&& !s2.active
            &&& a2 is Shutdown
        }),
{
}

} // verus!
