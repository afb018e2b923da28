//! The logging decorator: wraps a processing stage, numbers each request on
//! the way in, and lazily numbers and records each response frame on the way
//! out, without changing any frame or the order in which frames flow. The
//! response payload of the well-known introspection-document request is
//! suppressed: its log record carries a fixed placeholder instead.
//!
//! Log records are structured values; rendering them into text lines is left
//! to the surrounding runtime.

use vstd::prelude::*;

use crate::frame::Frame;
use crate::frame::doc_request_val;
use crate::frame::frame_clone;
use crate::frame::is_doc_request;

verus! {

/// What an inbound (response) log record shows in place of the frame.
pub enum LoggedPayload {
    /// The fixed placeholder used for the introspection-document response.
    Placeholder,
    /// The response frame itself.
    Payload(Frame),
}

/// The fixed text a rendered log line shows in place of a suppressed
/// response payload.
pub fn placeholder_text() -> (r: &'static str)
    ensures
        r@ == "docs"@,
{
    "docs"
}

/// One outbound ("client to target") log record. It doubles as the
/// per-request context that the lazy response inspection carries: the
/// request's identifiers and whether its response payload is suppressed.
pub struct RequestRecord {
    pub connection_id: String,
    pub request_number: u64,
    pub command_id: String,
    pub frame: Frame,
    pub redact_response: bool,
}

/// One inbound ("target to client") log record.
pub struct ResponseRecord {
    pub connection_id: String,
    pub response_number: u64,
    pub command_id: String,
    pub payload: LoggedPayload,
}

/// Relies on uuid::Uuid::new_v4 and its hyphenated rendering: a fresh
/// version-4 UUID formatted as 36 ASCII characters. The value is random, so
/// nothing beyond its length is promised.
#[verifier::external_body]
fn fresh_command_id() -> (r: String)
    ensures
        r@.len() == 36,
{
    uuid::Uuid::new_v4().to_string()
}

/// Builds logging decorators that share one connection identifier.
pub struct ProxyLoggerLayer {
    pub connection_id: String,
}

impl ProxyLoggerLayer {
    pub fn new(connection_id: String) -> (r: Self)
        ensures
            r.connection_id@ == connection_id@,
    {
        ProxyLoggerLayer { connection_id }
    }

    /// Wraps a stage in a logging decorator carrying this layer's
    /// connection identifier and fresh counters.
    pub fn layer<S>(&self, service: S) -> (r: ProxyLogger<S>)
        ensures
            r.resp2_service == service,
            r.connection_id@ == self.connection_id@,
            r.request_count == 0,
            r.response_count == 0,
    {
        ProxyLogger::new(service, self.connection_id.clone())
    }
}

/// The logging decorator around an inner processing stage. The counters are
/// connection-local: `request_count` numbers submissions, `response_count`
/// numbers every response frame across all of the connection's streams.
pub struct ProxyLogger<S> {
    pub resp2_service: S,
    pub connection_id: String,
    pub request_count: u64,
    pub response_count: u64,
}

impl<S> ProxyLogger<S> {
    pub fn new(resp2_service: S, connection_id: String) -> (r: Self)
        ensures
            r.resp2_service == resp2_service,
            r.connection_id@ == connection_id@,
            r.request_count == 0,
            r.response_count == 0,
    {
        ProxyLogger { resp2_service, connection_id, request_count: 0, response_count: 0 }
    }

    /// The outbound half of a submission: numbers the request, draws a fresh
    /// command identifier, records the frame, and decides — by equality with
    /// the introspection-document request — whether the response payload
    /// will be suppressed. The frame itself is handed back unchanged for the
    /// inner stage.
    pub fn begin_request(&mut self, req: Frame) -> (r: (Frame, RequestRecord))
        requires
            old(self).request_count < u64::MAX,
        ensures
            final(self).request_count == old(self).request_count + 1,
            final(self).response_count == old(self).response_count,
            final(self).connection_id@ == old(self).connection_id@,
            final(self).resp2_service == old(self).resp2_service,
            r.0 == req,
            r.1.connection_id@ == old(self).connection_id@,
            r.1.request_number == old(self).request_count + 1,
            r.1.command_id@.len() == 36,
            r.1.frame@ == req@,
            r.1.redact_response == (req@ == doc_request_val()),
    {
        self.request_count = self.request_count + 1;
        let command_id = fresh_command_id();
        let redact_response = is_doc_request(&req);
        let frame = frame_clone(&req);
        let record = RequestRecord {
            connection_id: self.connection_id.clone(),
            request_number: self.request_count,
            command_id,
            frame,
            redact_response,
        };
        (req, record)
    }

    /// One step of the lazy inspection wrapped around the inner stage's
    /// response stream: numbers the frame, produces the inbound log record —
    /// with the payload replaced by the placeholder when the request was the
    /// introspection-document request — and passes the frame on unchanged.
    pub fn observe_response(&mut self, ctx: &RequestRecord, frame: Frame) -> (r: (
        Frame,
        ResponseRecord,
    ))
        requires
            old(self).response_count < u64::MAX,
        ensures
            final(self).response_count == old(self).response_count + 1,
            final(self).request_count == old(self).request_count,
            final(self).connection_id@ == old(self).connection_id@,
            final(self).resp2_service == old(self).resp2_service,
            r.0 == frame,
            r.1.connection_id@ == ctx.connection_id@,
            r.1.response_number == old(self).response_count + 1,
            r.1.command_id@ == ctx.command_id@,
            ctx.redact_response ==> r.1.payload is Placeholder,
            !ctx.redact_response ==> (r.1.payload matches LoggedPayload::Payload(f) && f@
                == frame@),
    {
        self.response_count = self.response_count + 1;
        let payload = if ctx.redact_response {
            LoggedPayload::Placeholder
        } else {
            LoggedPayload::Payload(frame_clone(&frame))
        };
        let record = ResponseRecord {
            connection_id: ctx.connection_id.clone(),
            response_number: self.response_count,
            command_id: ctx.command_id.clone(),
            payload,
        };
        (frame, record)
    }

    /// Drains a whole response stream through the inspection step. The
    /// decorated stream yields exactly the frames of the undecorated one, in
    /// the same order; one record is produced per frame, numbered
    /// consecutively, and a suppressed payload never appears in any record
    /// while its frame is still counted and forwarded in full.
    pub fn observe_stream(&mut self, ctx: &RequestRecord, frames: Vec<Frame>) -> (r: (
        Vec<Frame>,
        Vec<ResponseRecord>,
    ))
        requires
            old(self).response_count + frames@.len() <= u64::MAX,
        ensures
            r.0@ == frames@,
            r.1@.len() == frames@.len(),
            final(self).response_count == old(self).response_count + frames@.len(),
            final(self).request_count == old(self).request_count,
            final(self).connection_id@ == old(self).connection_id@,
            final(self).resp2_service == old(self).resp2_service,
            forall|j: int|
                0 <= j < r.1@.len() ==> {
                    &&& r.1@[j].connection_id@ == ctx.connection_id@
                    &&& r.1@[j].response_number == old(self).response_count + j + 1
                    &&& r.1@[j].command_id@ == ctx.command_id@
                    &&& (ctx.redact_response ==> r.1@[j].payload is Placeholder)
                    &&& (!ctx.redact_response ==> (r.1@[j].payload matches LoggedPayload::Payload(f)
                        && f@ == frames@[j]@))
                },
    {
        let ghost all = frames@;
        let ghost count0 = self.response_count;
        let mut remaining = frames;
        let mut out_frames: Vec<Frame> = Vec::new();
        let mut records: Vec<ResponseRecord> = Vec::new();
        proof {
            assert(remaining@ =~= all.skip(0));
            assert(out_frames@ =~= all.take(0));
        }
        while remaining.len() > 0
            invariant
                old(self).response_count + all.len() <= u64::MAX,
                out_frames@.len() + remaining@.len() == all.len(),
                remaining@ == all.skip(out_frames@.len() as int),
                out_frames@ == all.take(out_frames@.len() as int),
                records@.len() == out_frames@.len(),
                self.response_count == count0 + out_frames@.len(),
                count0 == old(self).response_count,
                self.request_count == old(self).request_count,
                self.connection_id@ == old(self).connection_id@,
                self.resp2_service == old(self).resp2_service,
                forall|j: int|
                    0 <= j < records@.len() ==> {
                        &&& records@[j].connection_id@ == ctx.connection_id@
                        &&& records@[j].response_number == count0 + j + 1
                        &&& records@[j].command_id@ == ctx.command_id@
                        &&& (ctx.redact_response ==> records@[j].payload is Placeholder)
                        &&& (!ctx.redact_response ==> (records@[j].payload
                            matches LoggedPayload::Payload(f) && f@ == all[j]@))
                    },
            decreases remaining@.len(),
        {
            let ghost i = out_frames@.len() as int;
            proof {
                assert(remaining@[0] == all[i]);
            }
            let frame = remaining.remove(0);
            let (frame, record) = self.observe_response(ctx, frame);
            out_frames.push(frame);
            records.push(record);
            proof {
                assert(remaining@ =~= all.skip(i + 1));
                assert(out_frames@ =~= all.take(i + 1));
            }
        }
        proof {
            assert(all.take(all.len() as int) =~= all);
        }
        (out_frames, records)
    }
}

} // verus!
