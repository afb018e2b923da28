//! The protocol frame: one decoded unit of the wire protocol, either a
//! scalar (simple string, error text, integer, null), a bulk string, or an
//! ordered sequence of frames. The proxy core never rewrites a frame; it
//! only moves, copies and compares them, so the model here is a plain
//! recursive value with a mathematical view.

use vstd::prelude::*;

verus! {

/// The mathematical value of a frame: byte payloads become sequences and
/// nested arrays become sequences of values.
#[verifier::ext_equal]
pub enum FrameVal {
    SimpleString(Seq<u8>),
    Error(Seq<u8>),
    Integer(i64),
    BulkString(Seq<u8>),
    Array(Seq<FrameVal>),
    Null,
}

/// One decoded protocol message. Mirrors the wire protocol's shapes:
/// scalar, bulk string, or ordered sequence of frames.
#[derive(Debug)]
pub enum Frame {
    SimpleString(Vec<u8>),
    Error(Vec<u8>),
    Integer(i64),
    BulkString(Vec<u8>),
    Array(Vec<Frame>),
    Null,
}

pub open spec fn frame_view(f: Frame) -> FrameVal
    decreases f, 0int,
{
    match f {
        Frame::SimpleString(b) => FrameVal::SimpleString(b@),
        Frame::Error(b) => FrameVal::Error(b@),
        Frame::Integer(n) => FrameVal::Integer(n),
        Frame::BulkString(b) => FrameVal::BulkString(b@),
        Frame::Array(items) => FrameVal::Array(frames_view_from(items, 0)),
        Frame::Null => FrameVal::Null,
    }
}

/// The views of `items[i..]`, elementwise.
pub open spec fn frames_view_from(items: Vec<Frame>, i: int) -> Seq<FrameVal>
    decreases items, items.len() - i,
{
    if i < 0 || i >= items.len() {
        Seq::empty()
    } else {
        seq![frame_view(items[i])] + frames_view_from(items, i + 1)
    }
}

pub open spec fn frames_view(items: Vec<Frame>) -> Seq<FrameVal> {
    frames_view_from(items, 0)
}

impl View for Frame {
    type V = FrameVal;

    open spec fn view(&self) -> FrameVal {
        frame_view(*self)
    }
}

pub proof fn lemma_frames_view_from(items: Vec<Frame>, i: int)
    requires
        0 <= i <= items.len(),
    ensures
        frames_view_from(items, i).len() == items.len() - i,
        forall|j: int|
            i <= j < items.len() ==> frames_view_from(items, i)[j - i] == frame_view(items[j]),
    decreases items.len() - i,
{
    if i < items.len() {
        lemma_frames_view_from(items, i + 1);
    }
}

/// Elementwise description of an array frame's view.
pub proof fn lemma_frames_view(items: Vec<Frame>)
    ensures
        frames_view(items).len() == items.len(),
        forall|j: int| 0 <= j < items.len() ==> frames_view(items)[j] == frame_view(items[j]),
{
    lemma_frames_view_from(items, 0);
}

/// Byte-for-byte equality of two byte slices.
pub fn bytes_eq(a: &[u8], b: &[u8]) -> (r: bool)
    ensures
        r == (a@ == b@),
{
    if a.len() != b.len() {
        return false;
    }
    let mut i: usize = 0;
    while i < a.len()
        invariant
            a@.len() == b@.len(),
            0 <= i <= a@.len(),
            forall|j: int| 0 <= j < i ==> a@[j] == b@[j],
        decreases a@.len() - i,
    {
        if a[i] != b[i] {
            return false;
        }
        i = i + 1;
    }
    proof {
        assert(a@ =~= b@);
    }
    true
}

/// Structural equality of two frames: true exactly when their values agree.
pub fn frame_eq(a: &Frame, b: &Frame) -> (r: bool)
    ensures
        r == (a@ == b@),
    decreases a, 0int,
{
    match (a, b) {
        (Frame::SimpleString(x), Frame::SimpleString(y)) => bytes_eq(x.as_slice(), y.as_slice()),
        (Frame::Error(x), Frame::Error(y)) => bytes_eq(x.as_slice(), y.as_slice()),
        (Frame::Integer(x), Frame::Integer(y)) => *x == *y,
        (Frame::BulkString(x), Frame::BulkString(y)) => bytes_eq(x.as_slice(), y.as_slice()),
        (Frame::Array(x), Frame::Array(y)) => {
            proof {
                lemma_frames_view(*x);
                lemma_frames_view(*y);
            }
            frames_eq_from(x, y, 0)
        },
        (Frame::Null, Frame::Null) => true,
        _ => false,
    }
}

/// Elementwise equality of `x[i..]` and `y[i..]`; helper for `frame_eq`.
fn frames_eq_from(x: &Vec<Frame>, y: &Vec<Frame>, i: usize) -> (r: bool)
    requires
        i <= x.len(),
        i <= y.len(),
    ensures
        r == (frames_view_from(*x, i as int) == frames_view_from(*y, i as int)),
    decreases x, x.len() - i,
{
    proof {
        lemma_frames_view_from(*x, i as int);
        lemma_frames_view_from(*y, i as int);
    }
    if i == x.len() || i == y.len() {
        return x.len() == y.len();
    }
    let head = frame_eq(&x[i], &y[i]);
    if !head {
        proof {
            assert(frames_view_from(*x, i as int)[0] == frame_view(x@[i as int]));
            assert(frames_view_from(*y, i as int)[0] == frame_view(y@[i as int]));
        }
        return false;
    }
    let tail = frames_eq_from(x, y, i + 1);
    proof {
        if tail {
            assert(frames_view_from(*x, i as int) =~= frames_view_from(*y, i as int));
        } else {
            if frames_view_from(*x, i as int) == frames_view_from(*y, i as int) {
                assert(frames_view_from(*x, i + 1) =~= frames_view_from(
                    *x,
                    i as int,
                ).drop_first());
                assert(frames_view_from(*y, i + 1) =~= frames_view_from(
                    *y,
                    i as int,
                ).drop_first());
            }
        }
    }
    tail
}

/// The well-known introspection-document request: an array of the two bulk
/// strings `COMMAND` and `DOCS`. Its response payload is large, so the
/// logging decorator suppresses it.
pub open spec fn doc_request_val() -> FrameVal {
    FrameVal::Array(
        seq![
            FrameVal::BulkString(seq![67u8, 79u8, 77u8, 77u8, 65u8, 78u8, 68u8]),
            FrameVal::BulkString(seq![68u8, 79u8, 67u8, 83u8]),
        ],
    )
}

/// Builds the introspection-document request frame.
pub fn doc_request() -> (r: Frame)
    ensures
        r@ == doc_request_val(),
{
    let mut command: Vec<u8> = Vec::new();
    command.push(67u8);
    command.push(79u8);
    command.push(77u8);
    command.push(77u8);
    command.push(65u8);
    command.push(78u8);
    command.push(68u8);
    let mut docs: Vec<u8> = Vec::new();
    docs.push(68u8);
    docs.push(79u8);
    docs.push(67u8);
    docs.push(83u8);
    proof {
        assert(command@ =~= seq![67u8, 79u8, 77u8, 77u8, 65u8, 78u8, 68u8]);
        assert(docs@ =~= seq![68u8, 79u8, 67u8, 83u8]);
    }
    let ghost gcommand = command;
    let ghost gdocs = docs;
    let mut items: Vec<Frame> = Vec::new();
    items.push(Frame::BulkString(command));
    items.push(Frame::BulkString(docs));
    let ghost snapshot = items;
    let r = Frame::Array(items);
    proof {
        lemma_frames_view(snapshot);
        assert(snapshot@[0] == Frame::BulkString(gcommand));
        assert(snapshot@[1] == Frame::BulkString(gdocs));
        assert(frames_view(snapshot)[0] == frame_view(Frame::BulkString(gcommand)));
        assert(frames_view(snapshot)[1] == frame_view(Frame::BulkString(gdocs)));
        assert(frames_view(snapshot) =~= seq![
            FrameVal::BulkString(gcommand@),
            FrameVal::BulkString(gdocs@),
        ]);
        assert(r@ == FrameVal::Array(frames_view(snapshot)));
        assert(r@ =~~= doc_request_val());
    }
    r
}

/// True exactly when `f` is the introspection-document request.
pub fn is_doc_request(f: &Frame) -> (r: bool)
    ensures
        r == (f@ == doc_request_val()),
{
    let d = doc_request();
    frame_eq(f, &d)
}

/// A copy of a frame with the same value.
pub fn frame_clone(f: &Frame) -> (r: Frame)
    ensures
        r@ == f@,
    decreases f, 0int,
{
    match f {
        Frame::SimpleString(b) => Frame::SimpleString(bytes_clone(b)),
        Frame::Error(b) => Frame::Error(bytes_clone(b)),
        Frame::Integer(n) => Frame::Integer(*n),
        Frame::BulkString(b) => Frame::BulkString(bytes_clone(b)),
        Frame::Array(items) => {
            let copy = frames_clone_from(items, 0);
            proof {
                lemma_frames_view(*items);
                lemma_frames_view(copy);
                assert(frames_view(copy) =~= frames_view(*items));
            }
            Frame::Array(copy)
        },
        Frame::Null => Frame::Null,
    }
}

fn bytes_clone(b: &Vec<u8>) -> (r: Vec<u8>)
    ensures
        r@ == b@,
{
    let mut out: Vec<u8> = Vec::new();
    let mut i: usize = 0;
    while i < b.len()
        invariant
            0 <= i <= b@.len(),
            out@ =~= b@.subrange(0, i as int),
        decreases b@.len() - i,
    {
        out.push(b[i]);
        i = i + 1;
    }
    proof {
        assert(out@ =~= b@);
    }
    out
}

/// Copies of `items[i..]`, elementwise; helper for `frame_clone`.
fn frames_clone_from(items: &Vec<Frame>, i: usize) -> (r: Vec<Frame>)
    requires
        i <= items.len(),
    ensures
        r@.len() == items.len() - i,
        forall|j: int| 0 <= j < r@.len() ==> r@[j]@ == items@[i + j]@,
    decreases items, items.len() - i,
{
    if i == items.len() {
        return Vec::new();
    }
    let head = frame_clone(&items[i]);
    let mut rest = frames_clone_from(items, i + 1);
    let mut out: Vec<Frame> = Vec::new();
    out.push(head);
    out.append(&mut rest);
    out
}

} // verus!
