//! The IPC wire format between clients and the daemon.
//!
//! Transport: a Unix domain socket carrying length-prefixed JSON frames (a little-endian `u32`
//! length, then that many bytes of JSON). This module frames and checks bytes; what the JSON in a
//! frame says is read and written by whoever owns the socket.

use vstd::prelude::*;

use crate::names::NameMap;
use crate::number::{Number, NumberView};
use crate::text;

verus! {

/// One wire value.
#[derive(Debug, PartialEq, Eq)]
pub enum WireValue {
    Text(String),
    Float(Number),
    Bool(bool),
}

/// The view of a [`WireValue`].
pub enum WireValueView {
    Text(Seq<char>),
    Float(NumberView),
    Bool(bool),
}

impl View for WireValue {
    type V = WireValueView;

    open spec fn view(&self) -> WireValueView {
        match *self {
            WireValue::Text(s) => WireValueView::Text(s@),
            WireValue::Float(n) => WireValueView::Float(n@),
            WireValue::Bool(b) => WireValueView::Bool(b),
        }
    }
}

/// A request from a client to the daemon.
#[derive(Debug)]
#[allow(inconsistent_fields)]
pub enum Request {
    /// Post a notification. `kind` selects the template (default `generic`).
    Post { kind: Option<String>, replace_key: Option<String>, fields: NameMap<WireValue> },
    /// Close a previously posted notification by its replace key.
    Close { replace_key: String },
    /// Liveness check.
    Ping,
}

/// The view of a [`Request`].
#[allow(inconsistent_fields)]
pub enum RequestView {
    Post {
        kind: Option<Seq<char>>,
        replace_key: Option<Seq<char>>,
        fields: Map<Seq<char>, WireValueView>,
    },
    Close { replace_key: Seq<char> },
    Ping,
}

/// The view of a request's fields.
pub open spec fn wire_views(fields: Map<Seq<char>, WireValue>) -> Map<Seq<char>, WireValueView> {
    fields.map_values(|v: WireValue| v@)
}

impl View for Request {
    type V = RequestView;

    open spec fn view(&self) -> RequestView {
        match *self {
            Request::Post { kind, replace_key, fields } => RequestView::Post {
                kind: text::opt_text(kind),
                replace_key: text::opt_text(replace_key),
                fields: wire_views(fields@),
            },
            Request::Close { replace_key } => RequestView::Close { replace_key: replace_key@ },
            Request::Ping => RequestView::Ping,
        }
    }
}

/// The daemon's reply.
#[derive(Debug, PartialEq, Eq)]
pub enum Response {
    /// Accepted under this id; 0 where there is none.
    Done { id: u64 },
    Pong,
    Error { message: String },
}

/// The view of a [`Response`].
pub enum ResponseView {
    Done { id: u64 },
    Pong,
    Error { message: Seq<char> },
}

impl View for Response {
    type V = ResponseView;

    open spec fn view(&self) -> ResponseView {
        match *self {
            Response::Done { id } => ResponseView::Done { id },
            Response::Pong => ResponseView::Pong,
            Response::Error { message } => ResponseView::Error { message: message@ },
        }
    }
}

/// Frame length prefix width, in bytes (little-endian `u32`).
pub const LEN_PREFIX_BYTES: usize = 4;

/// Upper bound on a single frame's JSON body. A notification is tiny; anything larger is a bug or a
/// hostile client, and is rejected rather than allocated for.
pub const MAX_FRAME: usize = 1048576;

/// Errors from the framing layer. A malformed peer is told apart from a dead socket.
#[derive(Debug, PartialEq, Eq)]
pub enum FrameError {
    /// The body has this many bytes, more than [`MAX_FRAME`].
    TooLarge(usize),
    /// The connection closed in the middle of a frame.
    Truncated,
    /// The body is not the JSON that is expected.
    Json(String),
    /// The socket failed.
    Io(String),
}

/// What a framing error says.
pub open spec fn frame_message(e: FrameError) -> Seq<char> {
    match e {
        FrameError::TooLarge(n) => "frame body of "@ + text::decimal_spec(n as nat)
            + " bytes exceeds MAX_FRAME ("@ + text::decimal_spec(MAX_FRAME as nat) + ")"@,
        FrameError::Truncated => "connection closed mid-frame"@,
        FrameError::Json(m) => "json error: "@ + m@,
        FrameError::Io(m) => "io error: "@ + m@,
    }
}

impl FrameError {
    /// The error in words.
    pub fn message(&self) -> (r: String)
        ensures
            r@ == frame_message(*self),
    {
        match self {
            FrameError::TooLarge(n) => {
                let head = text::concat3(
                    "frame body of ",
                    text::decimal(*n as u64).as_str(),
                    " bytes exceeds MAX_FRAME (",
                );
                text::concat3(head.as_str(), text::decimal(MAX_FRAME as u64).as_str(), ")")
            },
            FrameError::Truncated => "connection closed mid-frame".to_string(),
            FrameError::Json(m) => text::concat("json error: ", m.as_str()),
            FrameError::Io(m) => text::concat("io error: ", m.as_str()),
        }
    }
}

/// The number that four little-endian bytes denote.
pub open spec fn little_endian(a: u8, b: u8, c: u8, d: u8) -> nat {
    (a + 0x100 * b + 0x1_0000 * c + 0x100_0000 * d) as nat
}

/// The four little-endian bytes of a number below 2^32.
pub open spec fn length_prefix(n: nat) -> Seq<u8> {
    seq![
        (n % 0x100) as u8,
        (n / 0x100 % 0x100) as u8,
        (n / 0x1_0000 % 0x100) as u8,
        (n / 0x100_0000 % 0x100) as u8,
    ]
}

/// A body in its frame.
pub open spec fn frame_spec(body: Seq<u8>) -> Seq<u8> {
    length_prefix(body.len()) + body
}

/// The length that the first four bytes of a frame announce.
pub open spec fn announced(buf: Seq<u8>) -> nat {
    little_endian(buf[0], buf[1], buf[2], buf[3])
}

/// What a buffer that starts with a frame holds in it: its body, or why there is none.
pub open spec fn decode_spec(buf: Seq<u8>) -> Result<Seq<u8>, FrameError> {
    if buf.len() < LEN_PREFIX_BYTES {
        Err(FrameError::Truncated)
    } else if announced(buf) > MAX_FRAME {
        Err(FrameError::TooLarge(announced(buf) as usize))
    } else if buf.len() < LEN_PREFIX_BYTES + announced(buf) {
        Err(FrameError::Truncated)
    } else {
        Ok(buf.subrange(LEN_PREFIX_BYTES as int, LEN_PREFIX_BYTES + announced(buf)))
    }
}

/// Puts a serialized message into a frame: length, then body.
pub fn encode_frame(body: &[u8]) -> (r: Result<Vec<u8>, FrameError>)
    ensures
        match r {
            Ok(frame) => body@.len() <= MAX_FRAME && frame@ == frame_spec(body@),
            Err(e) => body@.len() > MAX_FRAME && e == FrameError::TooLarge(body@.len() as usize),
        },
{
    let n: usize = body.len();
    if n > MAX_FRAME {
        return Err(FrameError::TooLarge(n));
    }
    let mut out: Vec<u8> = Vec::new();
    out.push((n % 0x100) as u8);
    out.push((n / 0x100 % 0x100) as u8);
    out.push((n / 0x1_0000 % 0x100) as u8);
    out.push((n / 0x100_0000 % 0x100) as u8);
    assert(out@ =~= length_prefix(body@.len()));
    let mut i: usize = 0;
    assert(body@.take(0) =~= Seq::empty());
    while i < n
        invariant
            n == body@.len(),
            i <= n,
            out@ == length_prefix(body@.len()) + body@.take(i as int),
        decreases n - i,
    {
        out.push(body[i]);
        i = i + 1;
        assert(out@ =~= length_prefix(body@.len()) + body@.take(i as int));
    }
    assert(body@.take(i as int) =~= body@);
    Ok(out)
}

/// The length that a prefix announces, refused when it is over [`MAX_FRAME`]. A reader calls this
/// before it makes room for the body.
pub fn body_len(prefix: &[u8; 4]) -> (r: Result<usize, FrameError>)
    ensures
        r == (if announced(prefix@) > MAX_FRAME {
            Err::<usize, FrameError>(FrameError::TooLarge(announced(prefix@) as usize))
        } else {
            Ok(announced(prefix@) as usize)
        }),
{
    let n: u32 = prefix[0] as u32 + 0x100 * prefix[1] as u32 + 0x1_0000 * prefix[2] as u32
        + 0x100_0000 * prefix[3] as u32;
    let len: usize = n as usize;
    if len > MAX_FRAME {
        Err(FrameError::TooLarge(len))
    } else {
        Ok(len)
    }
}

/// Takes the body out of a complete frame.
pub fn decode_frame(buf: &[u8]) -> (r: Result<Vec<u8>, FrameError>)
    ensures
        match r {
            Ok(body) => decode_spec(buf@) == Ok::<Seq<u8>, FrameError>(body@),
            Err(e) => decode_spec(buf@) == Err::<Seq<u8>, FrameError>(e),
        },
{
    if buf.len() < LEN_PREFIX_BYTES {
        return Err(FrameError::Truncated);
    }
    let prefix: [u8; 4] = [buf[0], buf[1], buf[2], buf[3]];
    let len: usize = match body_len(&prefix) {
        Ok(n) => n,
        Err(e) => {
            return Err(e);
        },
    };
    if buf.len() - LEN_PREFIX_BYTES < len {
        return Err(FrameError::Truncated);
    }
    let end: usize = LEN_PREFIX_BYTES + len;
    let mut body: Vec<u8> = Vec::new();
    let mut i: usize = LEN_PREFIX_BYTES;
    while i < end
        invariant
            LEN_PREFIX_BYTES <= i <= end <= buf@.len(),
            body@ == buf@.subrange(LEN_PREFIX_BYTES as int, i as int),
        decreases end - i,
    {
        body.push(buf[i]);
        i = i + 1;
        assert(body@ =~= buf@.subrange(LEN_PREFIX_BYTES as int, i as int));
    }
    Ok(body)
}

// ---- reading off a stream ----------------------------------------------------------------

/// The error of a read that failed: at the end of the stream the frame is truncated.
pub fn read_failure(at_end: bool, message: String) -> (r: FrameError)
    ensures
        r == (if at_end {
            FrameError::Truncated
        } else {
            FrameError::Io(message)
        }),
{
    if at_end {
        FrameError::Truncated
    } else {
        FrameError::Io(message)
    }
}

/// How many bytes are to be read next: the length prefix, then the body that it announced.
pub open spec fn wanted(len: Option<usize>) -> nat {
    match len {
        None => LEN_PREFIX_BYTES as nat,
        Some(n) => n as nat,
    }
}

/// What the bytes that were wanted come to: the length that is known from then on, and the body once
/// it is complete.
pub open spec fn feed_spec(len: Option<usize>, bytes: Seq<u8>) -> (
    Option<usize>,
    Result<Option<Seq<u8>>, FrameError>,
) {
    match len {
        None => if announced(bytes) > MAX_FRAME {
            (None, Err(FrameError::TooLarge(announced(bytes) as usize)))
        } else {
            (Some(announced(bytes) as usize), Ok(None))
        },
        Some(_) => (None, Ok(Some(bytes))),
    }
}

/// Reads frames off a stream. The caller reads exactly as many bytes as are wanted and feeds them.
#[derive(Debug)]
pub struct FrameReader {
    len: Option<usize>,
}

impl View for FrameReader {
    type V = Option<usize>;

    closed spec fn view(&self) -> Option<usize> {
        self.len
    }
}

impl FrameReader {
    /// A reader at the start of a frame.
    pub fn new() -> (r: FrameReader)
        ensures
            r@ is None,
    {
        FrameReader { len: None }
    }

    /// How many bytes are to be read next.
    pub fn wants(&self) -> (r: usize)
        ensures
            r == wanted(self@),
    {
        match self.len {
            None => LEN_PREFIX_BYTES,
            Some(n) => n,
        }
    }

    /// Takes the bytes that were wanted: the body once the frame is complete, `None` before. A body
    /// over [`MAX_FRAME`] is refused before room is made for it. After a body or an error the reader
    /// stands at the start of a frame.
    pub fn feed(&mut self, bytes: Vec<u8>) -> (r: Result<Option<Vec<u8>>, FrameError>)
        requires
            bytes@.len() == wanted(old(self)@),
        ensures
            (
                final(self)@,
                match r {
                    Ok(Some(body)) => Ok(Some(body@)),
                    Ok(None) => Ok(None),
                    Err(e) => Err(e),
                },
            ) == feed_spec(old(self)@, bytes@),
    {
        match self.len {
            None => {
                let prefix: [u8; 4] = [bytes[0], bytes[1], bytes[2], bytes[3]];
                assert(announced(prefix@) == announced(bytes@));
                match body_len(&prefix) {
                    Ok(n) => {
                        self.len = Some(n);
                        Ok(None)
                    },
                    Err(e) => Err(e),
                }
            },
            Some(_) => {
                self.len = None;
                Ok(Some(bytes))
            },
        }
    }
}

/// What reading one frame off a stream that ends after `stream` gives, and what is left of the
/// stream. `len` is the length of the body once it is known.
pub open spec fn read_from(len: Option<usize>, stream: Seq<u8>) -> (
    Result<Seq<u8>, FrameError>,
    Seq<u8>,
)
    decreases
            if len is None {
                1nat
            } else {
                0nat
            },
{
    let n = wanted(len) as int;
    if stream.len() < n {
        (Err(FrameError::Truncated), Seq::empty())
    } else {
        match feed_spec(len, stream.take(n)) {
            (_, Ok(Some(body))) => (Ok(body), stream.skip(n)),
            (next, Ok(None)) => read_from(next, stream.skip(n)),
            (_, Err(e)) => (Err(e), stream.skip(n)),
        }
    }
}

/// What reading one frame off a stream gives, and what is left of the stream.
pub open spec fn read_spec(stream: Seq<u8>) -> (Result<Seq<u8>, FrameError>, Seq<u8>) {
    read_from(None, stream)
}

/// Some bodies in their frames, one after the other.
pub open spec fn stream_spec(bodies: Seq<Seq<u8>>) -> Seq<u8>
    decreases bodies.len(),
{
    if bodies.len() == 0 {
        Seq::empty()
    } else {
        frame_spec(bodies[0]) + stream_spec(bodies.skip(1))
    }
}

proof fn lemma_prefix(n: nat)
    requires
        n < 0x1_0000_0000,
    ensures
        announced(length_prefix(n)) == n,
{
    let p = length_prefix(n);
    let d = n / 0x100_0000;
    let c = n / 0x1_0000 % 0x100;
    let b = n / 0x100 % 0x100;
    let a = n % 0x100;
    assert(n / 0x100_0000 % 0x100 == d);
    assert(n / 0x1_0000 == 0x100 * d + c);
    assert(n / 0x100 == 0x1_0000 * d + 0x100 * c + b);
    assert(n == 0x100_0000 * d + 0x1_0000 * c + 0x100 * b + a);
}

/// What is framed comes back out of the frame, whatever follows it in the buffer.
pub proof fn frames_round_trip(body: Seq<u8>, tail: Seq<u8>)
    requires
        body.len() <= MAX_FRAME,
    ensures
        decode_spec(frame_spec(body) + tail) == Ok::<Seq<u8>, FrameError>(body),
{
    let buf = frame_spec(body) + tail;
    let p = length_prefix(body.len());
    lemma_prefix(body.len());
    assert(buf[0] == p[0] && buf[1] == p[1] && buf[2] == p[2] && buf[3] == p[3]);
    assert(buf.subrange(4, 4 + body.len() as int) =~= body);
}

/// A frame that is cut short anywhere is reported as truncated.
pub proof fn cut_frames_are_truncated(body: Seq<u8>, n: int)
    requires
        body.len() <= MAX_FRAME,
        0 <= n < frame_spec(body).len(),
    ensures
        decode_spec(frame_spec(body).take(n)) == Err::<Seq<u8>, FrameError>(FrameError::Truncated),
{
    let p = length_prefix(body.len());
    lemma_prefix(body.len());
    if n >= 4 {
        let buf = frame_spec(body).take(n);
        assert(buf[0] == p[0] && buf[1] == p[1] && buf[2] == p[2] && buf[3] == p[3]);
    }
}

/// Each read takes exactly one frame off the stream and nothing of the next; at the end of the
/// stream it reports a truncated frame.
pub proof fn frames_are_read_one_by_one(bodies: Seq<Seq<u8>>)
    requires
        forall|i: int| 0 <= i < bodies.len() ==> (#[trigger] bodies[i]).len() <= MAX_FRAME,
    ensures
        bodies.len() > 0 ==> read_spec(stream_spec(bodies)) == (
            Ok::<Seq<u8>, FrameError>(bodies[0]),
            stream_spec(bodies.skip(1)),
        ),
        bodies.len() == 0 ==> read_spec(stream_spec(bodies)) == (
            Err::<Seq<u8>, FrameError>(FrameError::Truncated),
            Seq::<u8>::empty(),
        ),
{
    if bodies.len() > 0 {
        let body = bodies[0];
        let rest = stream_spec(bodies.skip(1));
        let stream = stream_spec(bodies);
        let p = length_prefix(body.len());
        lemma_prefix(body.len());
        assert(stream =~= p + (body + rest));
        assert(stream.take(4) =~= p);
        assert(stream.skip(4) =~= body + rest);
        assert((body + rest).take(body.len() as int) =~= body);
        assert((body + rest).skip(body.len() as int) =~= rest);
        reveal_with_fuel(read_from, 2);
    }
}

/// A stream that ends inside a frame is reported as truncated, wherever it ends.
pub proof fn cut_streams_are_truncated(body: Seq<u8>, n: int)
    requires
        body.len() <= MAX_FRAME,
        0 <= n < frame_spec(body).len(),
    ensures
        read_spec(frame_spec(body).take(n)).0 == Err::<Seq<u8>, FrameError>(FrameError::Truncated),
{
    let stream = frame_spec(body).take(n);
    lemma_prefix(body.len());
    if n >= 4 {
        assert(stream.take(4) =~= length_prefix(body.len()));
        reveal_with_fuel(read_from, 2);
    }
}

/// A frame is four bytes of length, the lowest first, and the body behind them, byte for byte.
pub proof fn frames_hold_length_and_body(body: Seq<u8>, i: int)
    requires
        body.len() < 0x1_0000_0000,
        0 <= i < body.len(),
    ensures
        ({
            let f = frame_spec(body);
            &&& f.len() == 4 + body.len()
            &&& body.len() == f[0] + 0x100 * f[1] + 0x1_0000 * f[2] + 0x100_0000 * f[3]
            &&& f[4 + i] == body[i]
        }),
{
    let f = frame_spec(body);
    let p = length_prefix(body.len());
    lemma_prefix(body.len());
    assert(f[0] == p[0] && f[1] == p[1] && f[2] == p[2] && f[3] == p[3]);
}

/// What any buffer holds: truncated without four bytes of length; refused with its length when that
/// is over a mebibyte, however much is there; truncated when the body is not all there; else the
/// body, however much follows.
pub proof fn buffers_are_read_by_their_length(buf: Seq<u8>, i: int)
    ensures
        buf.len() < 4 ==> decode_spec(buf) == Err::<Seq<u8>, FrameError>(FrameError::Truncated),
        buf.len() >= 4 ==> {
            let n = buf[0] + 0x100 * buf[1] + 0x1_0000 * buf[2] + 0x100_0000 * buf[3];
            let r = decode_spec(buf);
            &&& n > 1048576 ==> r == Err::<Seq<u8>, FrameError>(FrameError::TooLarge(n as usize))
            &&& n <= 1048576 && buf.len() < 4 + n ==> r == Err::<Seq<u8>, FrameError>(
                FrameError::Truncated,
            )
            &&& n <= 1048576 && buf.len() >= 4 + n ==> r is Ok && r->Ok_0.len() == n && (0 <= i
                < n ==> r->Ok_0[i] == buf[4 + i])
        },
{
}

/// A stream is read like a buffer, and what was read is off the stream: the whole frame, or only
/// the length of one that is refused.
pub proof fn streams_are_read_by_their_length(stream: Seq<u8>)
    ensures
        stream.len() < 4 ==> read_spec(stream).0 == Err::<Seq<u8>, FrameError>(
            FrameError::Truncated,
        ),
        stream.len() >= 4 ==> {
            let n = stream[0] + 0x100 * stream[1] + 0x1_0000 * stream[2] + 0x100_0000 * stream[3];
            let r = read_spec(stream);
            &&& n > 1048576 ==> r == (
                Err::<Seq<u8>, FrameError>(FrameError::TooLarge(n as usize)),
                stream.skip(4),
            )
            &&& n <= 1048576 && stream.len() < 4 + n ==> r.0 == Err::<Seq<u8>, FrameError>(
                FrameError::Truncated,
            )
            &&& n <= 1048576 && stream.len() >= 4 + n ==> r == (
                Ok::<Seq<u8>, FrameError>(stream.subrange(4, 4 + n)),
                stream.skip(4 + n),
            )
        },
{
    reveal_with_fuel(read_from, 2);
    if stream.len() >= 4 {
        let n = stream[0] + 0x100 * stream[1] + 0x1_0000 * stream[2] + 0x100_0000 * stream[3];
        assert(announced(stream.take(4)) == n);
        if n <= 1048576 {
            assert(stream.skip(4).len() == stream.len() - 4);
            if stream.len() >= 4 + n {
                assert(stream.skip(4).take(n) =~= stream.subrange(4, 4 + n));
                assert(stream.skip(4).skip(n) =~= stream.skip(4 + n));
            }
        }
    }
}

/// What each framing error says.
pub proof fn framing_errors_say_what_is_wrong(n: usize, m: String)
    ensures
        frame_message(FrameError::TooLarge(n)) == "frame body of "@ + text::decimal_spec(n as nat)
            + " bytes exceeds MAX_FRAME ("@ + text::decimal_spec(1048576) + ")"@,
        frame_message(FrameError::Truncated) == "connection closed mid-frame"@,
        frame_message(FrameError::Json(m)) == "json error: "@ + m@,
        frame_message(FrameError::Io(m)) == "io error: "@ + m@,
{
}

/// A body of up to a mebibyte is framed, and a larger one is refused with its length; a length that
/// is announced is accepted or refused by the same bound. A read that fails at the end of a stream
/// is a truncated frame, any other a failure of the socket.
pub proof fn bodies_are_framed_up_to_the_bound(
    body: &[u8],
    framed: Result<Vec<u8>, FrameError>,
    prefix: [u8; 4],
    len: Result<usize, FrameError>,
    at_end: bool,
    message: String,
    failure: FrameError,
)
    requires
        call_ensures(encode_frame, (body,), framed),
        call_ensures(body_len, (&prefix,), len),
        call_ensures(read_failure, (at_end, message), failure),
    ensures
        framed is Ok <==> body@.len() <= 1048576,
        framed is Ok ==> framed->Ok_0@ == frame_spec(body@),
        framed is Err ==> framed->Err_0 == FrameError::TooLarge(body@.len() as usize),
        ({
            let n = prefix@[0] + 0x100 * prefix@[1] + 0x1_0000 * prefix@[2] + 0x100_0000
                * prefix@[3];
            &&& n <= 1048576 ==> len == Ok::<usize, FrameError>(n as usize)
            &&& n > 1048576 ==> len == Err::<usize, FrameError>(FrameError::TooLarge(n as usize))
        }),
        at_end ==> failure == FrameError::Truncated,
        !at_end ==> failure == FrameError::Io(message),
{
}

} // verus!
