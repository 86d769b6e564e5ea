//! Frames on a stream: the steps that turn an envelope into bytes and bytes
//! into an envelope, and the plain frame format.
//!
//! Shaping, encryption and serialisation happen outside; each step is told
//! what came of the one before.

use crate::envelope::Envelope;
use crate::error::{ErrorView, IoKind, ObfsError};
use vstd::prelude::*;
use vstd::slice::{slice_subrange, slice_to_vec};

verus! {

/// The largest record that a plain frame carries: 16 MiB.
pub const MAX_FRAME: usize = 16_777_216;

/// How many bytes are read from a stream at a time.
pub const READ_CHUNK: usize = 4096;

/// What unframing made of the bytes received so far.
pub enum FrameIn {
    /// A whole frame was taken off the buffer; this is its record.
    Record(Vec<u8>),
    /// The buffer holds no whole frame yet.
    NeedMore,
    /// The buffer cannot become a frame.
    Invalid,
}

/// A [`FrameIn`] with its record as a sequence.
#[verifier::ext_equal]
pub enum FrameView {
    Record(Seq<u8>),
    NeedMore,
    Invalid,
}

impl View for FrameIn {
    type V = FrameView;

    open spec fn view(&self) -> FrameView {
        match *self {
            FrameIn::Record(r) => FrameView::Record(r@),
            FrameIn::NeedMore => FrameView::NeedMore,
            FrameIn::Invalid => FrameView::Invalid,
        }
    }
}

/// What happened while a frame is waited for.
pub enum RawEvent {
    /// The buffer was looked at.
    Unframed(FrameIn),
    /// Bytes were read; none at all means the end of the stream.
    Read(Vec<u8>),
    /// Reading failed.
    ReadFailed(IoKind, String),
}

/// What to do while a frame is waited for.
pub enum RawAction {
    /// Look at the buffer.
    Unframe,
    /// Read more bytes.
    Read,
    /// The record is complete.
    Return(Vec<u8>),
    /// Give up.
    Fail(ObfsError),
}

/// A [`RawEvent`] with its contents as sequences.
#[verifier::ext_equal]
pub enum RawEventView {
    Unframed(FrameView),
    Read(Seq<u8>),
    ReadFailed(IoKind, Seq<char>),
}

impl View for RawEvent {
    type V = RawEventView;

    open spec fn view(&self) -> RawEventView {
        match *self {
            RawEvent::Unframed(frame) => RawEventView::Unframed(frame@),
            RawEvent::Read(data) => RawEventView::Read(data@),
            RawEvent::ReadFailed(kind, e) => RawEventView::ReadFailed(kind, e@),
        }
    }
}

/// A [`RawAction`] with its contents as sequences.
#[verifier::ext_equal]
pub enum RawView {
    Unframe,
    Read,
    Return(Seq<u8>),
    Fail(ErrorView),
}

impl View for RawAction {
    type V = RawView;

    open spec fn view(&self) -> RawView {
        match *self {
            RawAction::Unframe => RawView::Unframe,
            RawAction::Read => RawView::Read,
            RawAction::Return(r) => RawView::Return(r@),
            RawAction::Fail(e) => RawView::Fail(e@),
        }
    }
}

/// The error for a stream that ends while `buf` has been received.
pub open spec fn eof_error(buf: Seq<u8>) -> ErrorView {
    if buf.len() == 0 {
        ErrorView::Closed
    } else {
        ErrorView::Io(IoKind::UnexpectedEof, "EOF mid-frame"@)
    }
}

/// One step of the reception of a frame into `buf`.
pub open spec fn raw_step(buf: Seq<u8>, event: RawEventView) -> (Seq<u8>, RawView) {
    match event {
        RawEventView::Unframed(FrameView::Record(r)) => (buf, RawView::Return(r)),
        RawEventView::Unframed(FrameView::NeedMore) => (buf, RawView::Read),
        RawEventView::Unframed(FrameView::Invalid) => (
            buf,
            RawView::Fail(ErrorView::Io(IoKind::InvalidData, "invalid framing"@)),
        ),
        RawEventView::Read(data) => if data.len() == 0 {
            (buf, RawView::Fail(eof_error(buf)))
        } else {
            (buf + data, RawView::Unframe)
        },
        RawEventView::ReadFailed(kind, e) => (buf, RawView::Fail(ErrorView::Io(kind, e))),
    }
}

/// Advances the reception of one frame into `buf`. Bytes that are read are
/// appended to the buffer; what belongs to later frames stays in it. A stream
/// that ends between two frames is closed, one that ends inside a frame is
/// broken.
pub fn recv_raw(buf: &mut Vec<u8>, event: RawEvent) -> (action: RawAction)
    ensures
        (final(buf)@, action@) == raw_step(old(buf)@, event@),
{
    match event {
        RawEvent::Unframed(FrameIn::Record(r)) => RawAction::Return(r),
        RawEvent::Unframed(FrameIn::NeedMore) => RawAction::Read,
        RawEvent::Unframed(FrameIn::Invalid) => RawAction::Fail(
            ObfsError::Io(IoKind::InvalidData, "invalid framing".to_owned()),
        ),
        RawEvent::Read(data) => {
            if data.len() == 0 {
                if buf.len() == 0 {
                    RawAction::Fail(ObfsError::Closed)
                } else {
                    RawAction::Fail(ObfsError::Io(IoKind::UnexpectedEof, "EOF mid-frame".to_owned()))
                }
            } else {
                buf.extend_from_slice(data.as_slice());
                assert(buf@ =~= old(buf)@ + data@);
                RawAction::Unframe
            }
        },
        RawEvent::ReadFailed(kind, e) => RawAction::Fail(ObfsError::Io(kind, e)),
    }
}

/// What happened while an envelope is waited for.
pub enum RecvEvent<B> {
    /// The frame it comes in is not complete yet.
    Raw(RawEvent),
    /// The record was decrypted, or could not be.
    Decrypted(Result<Vec<u8>, String>),
    /// The plaintext was parsed, or could not be.
    Parsed(Result<Envelope<B>, String>),
}

/// What to do while an envelope is waited for.
pub enum RecvAction<B> {
    /// Look at the buffer.
    Unframe,
    /// Read more bytes.
    Read,
    /// Decrypt this record.
    Decrypt(Vec<u8>),
    /// Parse this plaintext.
    Parse(Vec<u8>),
    /// The envelope is complete.
    Return(Envelope<B>),
    /// Give up.
    Fail(ObfsError),
}

/// A [`RecvEvent`] with its contents as sequences.
#[verifier::ext_equal]
pub enum RecvEventView<B> {
    Raw(RawEventView),
    Decrypted(Result<Seq<u8>, Seq<char>>),
    Parsed(Result<Envelope<B>, Seq<char>>),
}

impl<B> View for RecvEvent<B> {
    type V = RecvEventView<B>;

    open spec fn view(&self) -> RecvEventView<B> {
        match *self {
            RecvEvent::Raw(raw) => RecvEventView::Raw(raw@),
            RecvEvent::Decrypted(Ok(p)) => RecvEventView::Decrypted(Ok(p@)),
            RecvEvent::Decrypted(Err(e)) => RecvEventView::Decrypted(Err(e@)),
            RecvEvent::Parsed(Ok(env)) => RecvEventView::Parsed(Ok(env)),
            RecvEvent::Parsed(Err(e)) => RecvEventView::Parsed(Err(e@)),
        }
    }
}

/// A [`RecvAction`] with its contents as sequences.
#[verifier::ext_equal]
pub enum RecvView<B> {
    Unframe,
    Read,
    Decrypt(Seq<u8>),
    Parse(Seq<u8>),
    Return(Envelope<B>),
    Fail(ErrorView),
}

impl<B> View for RecvAction<B> {
    type V = RecvView<B>;

    open spec fn view(&self) -> RecvView<B> {
        match *self {
            RecvAction::Unframe => RecvView::Unframe,
            RecvAction::Read => RecvView::Read,
            RecvAction::Decrypt(r) => RecvView::Decrypt(r@),
            RecvAction::Parse(p) => RecvView::Parse(p@),
            RecvAction::Return(env) => RecvView::Return(env),
            RecvAction::Fail(e) => RecvView::Fail(e@),
        }
    }
}

/// One step of the reception of an envelope into `buf`: first its frame, then
/// decryption and parsing, each of which can fail.
pub open spec fn recv_step<B>(buf: Seq<u8>, event: RecvEventView<B>) -> (Seq<u8>, RecvView<B>) {
    match event {
        RecvEventView::Raw(raw) => {
            let (after, action) = raw_step(buf, raw);
            (
                after,
                match action {
                    RawView::Unframe => RecvView::Unframe,
                    RawView::Read => RecvView::Read,
                    RawView::Return(r) => RecvView::Decrypt(r),
                    RawView::Fail(e) => RecvView::Fail(e),
                },
            )
        },
        RecvEventView::Decrypted(Ok(plaintext)) => (buf, RecvView::Parse(plaintext)),
        RecvEventView::Decrypted(Err(e)) => (buf, RecvView::Fail(ErrorView::Wire(e))),
        RecvEventView::Parsed(Ok(env)) => (buf, RecvView::Return(env)),
        RecvEventView::Parsed(Err(e)) => (buf, RecvView::Fail(ErrorView::Serde(e))),
    }
}

/// Advances the reception of one envelope: first its frame, as [`recv_raw`]
/// does, then decryption and parsing.
pub fn recv_frame<B>(buf: &mut Vec<u8>, event: RecvEvent<B>) -> (action: RecvAction<B>)
    ensures
        (final(buf)@, action@) == recv_step(old(buf)@, event@),
{
    match event {
        RecvEvent::Raw(raw) => match recv_raw(buf, raw) {
            RawAction::Unframe => RecvAction::Unframe,
            RawAction::Read => RecvAction::Read,
            RawAction::Return(record) => RecvAction::Decrypt(record),
            RawAction::Fail(e) => RecvAction::Fail(e),
        },
        RecvEvent::Decrypted(Ok(plaintext)) => RecvAction::Parse(plaintext),
        RecvEvent::Decrypted(Err(e)) => RecvAction::Fail(ObfsError::Wire(e)),
        RecvEvent::Parsed(Ok(env)) => RecvAction::Return(env),
        RecvEvent::Parsed(Err(e)) => RecvAction::Fail(ObfsError::Serde(e)),
    }
}

/// What came of a step of sending.
pub enum SendEvent {
    /// The envelope was serialised, or could not be.
    Serialised(Result<Vec<u8>, String>),
    /// The plaintext was encrypted, or could not be.
    Encrypted(Result<Vec<u8>, String>),
    /// The record was framed, or could not be.
    Framed(Result<Vec<u8>, String>),
    /// The frame was written.
    Written,
    /// Writing failed.
    WriteFailed(IoKind, String),
}

/// The next step of sending.
pub enum SendAction {
    /// Encrypt this plaintext.
    Encrypt(Vec<u8>),
    /// Frame this record.
    Frame(Vec<u8>),
    /// Write these bytes.
    Write(Vec<u8>),
    /// The frame is sent.
    Done,
    /// Give up.
    Fail(ObfsError),
}

/// Whether `action` fails with `error`.
pub open spec fn send_fails(action: SendAction, error: ErrorView) -> bool {
    action matches SendAction::Fail(e) && e@ == error
}

/// Advances the sending of one envelope: serialise, encrypt, frame, write.
pub fn send_frame(event: SendEvent) -> (action: SendAction)
    ensures
        match event {
            SendEvent::Serialised(Ok(plaintext)) => action == SendAction::Encrypt(plaintext),
            SendEvent::Serialised(Err(e)) => send_fails(action, ErrorView::Serde(e@)),
            SendEvent::Encrypted(Ok(record)) => action == SendAction::Frame(record),
            SendEvent::Encrypted(Err(e)) => send_fails(action, ErrorView::Wire(e@)),
            SendEvent::Framed(Ok(wire)) => action == SendAction::Write(wire),
            SendEvent::Framed(Err(e)) => send_fails(action, ErrorView::Wire(e@)),
            SendEvent::Written => action == SendAction::Done,
            SendEvent::WriteFailed(kind, e) => send_fails(action, ErrorView::Io(kind, e@)),
        },
{
    match event {
        SendEvent::Serialised(Ok(plaintext)) => SendAction::Encrypt(plaintext),
        SendEvent::Serialised(Err(e)) => SendAction::Fail(ObfsError::Serde(e)),
        SendEvent::Encrypted(Ok(record)) => SendAction::Frame(record),
        SendEvent::Encrypted(Err(e)) => SendAction::Fail(ObfsError::Wire(e)),
        SendEvent::Framed(Ok(wire)) => SendAction::Write(wire),
        SendEvent::Framed(Err(e)) => SendAction::Fail(ObfsError::Wire(e)),
        SendEvent::Written => SendAction::Done,
        SendEvent::WriteFailed(kind, e) => SendAction::Fail(ObfsError::Io(kind, e)),
    }
}

/// The four big-endian bytes of `n`.
#[verifier::opaque]
pub open spec fn be32(n: int) -> Seq<u8> {
    seq![
        ((n / 16777216) % 256) as u8,
        ((n / 65536) % 256) as u8,
        ((n / 256) % 256) as u8,
        (n % 256) as u8,
    ]
}

/// The number that the first four bytes of `b` stand for, big-endian.
pub open spec fn from_be32(b: Seq<u8>) -> int {
    b[0] * 16777216 + b[1] * 65536 + b[2] * 256 + b[3]
}

/// The plain frame of `record`: its length in four bytes, then the record.
pub open spec fn frame_bytes(record: Seq<u8>) -> Seq<u8> {
    be32(record.len() as int) + record
}

/// What the buffer `buf` holds in the plain format, and what is left of it.
pub open spec fn unframe(buf: Seq<u8>) -> (FrameView, Seq<u8>) {
    if buf.len() < 4 {
        (FrameView::NeedMore, buf)
    } else if from_be32(buf) > MAX_FRAME {
        (FrameView::Invalid, buf)
    } else if buf.len() < 4 + from_be32(buf) {
        (FrameView::NeedMore, buf)
    } else {
        (
            FrameView::Record(buf.subrange(4, 4 + from_be32(buf))),
            buf.subrange(4 + from_be32(buf), buf.len() as int),
        )
    }
}

/// Frames `record` in the plain format; a record over the limit is refused.
pub fn write_frame(record: &[u8]) -> (r: Result<Vec<u8>, ObfsError>)
    ensures
        match r {
            Ok(wire) => record@.len() <= MAX_FRAME && wire@ == frame_bytes(record@),
            Err(e) => record@.len() > MAX_FRAME && e@ == ErrorView::FrameTooLarge(
                record@.len() as usize,
                MAX_FRAME,
            ),
        },
        r matches Err(e) ==> (e@ matches ErrorView::FrameTooLarge(n, _) && n == record@.len()),
{
    let n: usize = record.len();
    if n > MAX_FRAME {
        return Err(ObfsError::FrameTooLarge(n, MAX_FRAME));
    }
    let mut wire: Vec<u8> = Vec::new();
    wire.push(((n / 16777216) % 256) as u8);
    wire.push(((n / 65536) % 256) as u8);
    wire.push(((n / 256) % 256) as u8);
    wire.push((n % 256) as u8);
    wire.extend_from_slice(record);
    proof {
        reveal(be32);
    }
    assert(wire@ =~= frame_bytes(record@));
    Ok(wire)
}

/// Takes one plain frame off the front of `buf`, if it holds a whole one.
pub fn read_frame(buf: &mut Vec<u8>) -> (frame: FrameIn)
    ensures
        (frame@, final(buf)@) == unframe(old(buf)@),
{
    if buf.len() < 4 {
        return FrameIn::NeedMore;
    }
    let n: u64 = (buf[0] as u64) * 16777216 + (buf[1] as u64) * 65536 + (buf[2] as u64) * 256 + (
    buf[3] as u64);
    if n > MAX_FRAME as u64 {
        return FrameIn::Invalid;
    }
    let end: usize = 4 + n as usize;
    if buf.len() < end {
        return FrameIn::NeedMore;
    }
    let record: Vec<u8> = slice_to_vec(slice_subrange(buf.as_slice(), 4, end));
    let rest: Vec<u8> = slice_to_vec(slice_subrange(buf.as_slice(), end, buf.len()));
    *buf = rest;
    FrameIn::Record(record)
}

/// Reads envelopes off a stream; the buffer keeps what belongs to later
/// frames.
pub struct FramedReader {
    buf: Vec<u8>,
}

impl View for FramedReader {
    type V = Seq<u8>;

    closed spec fn view(&self) -> Seq<u8> {
        self.buf@
    }
}

impl FramedReader {
    /// A reader with an empty buffer.
    pub fn new() -> (r: Self)
        ensures
            r@ == Seq::<u8>::empty(),
    {
        FramedReader { buf: Vec::new() }
    }

    /// A reader whose buffer already holds `leftover`, bytes that were
    /// received before there were frames to read.
    pub fn with_leftover(leftover: Vec<u8>) -> (r: Self)
        ensures
            r@ == leftover@,
    {
        FramedReader { buf: leftover }
    }

    /// Appends bytes that were received.
    pub fn feed(&mut self, data: &[u8])
        ensures
            final(self)@ == old(self)@ + data@,
    {
        self.buf.extend_from_slice(data);
        assert(self.buf@ =~= old(self).buf@ + data@);
    }

    /// Takes the next plain frame off the buffer.
    pub fn next_frame(&mut self) -> (frame: FrameIn)
        ensures
            (frame@, final(self)@) == unframe(old(self)@),
    {
        read_frame(&mut self.buf)
    }

    /// Hands out the buffer, for unframing in another format.
    pub fn into_buffer(self) -> (buf: Vec<u8>)
        ensures
            buf@ == self@,
    {
        self.buf
    }
}

/// The frames of `records`, one behind the other.
pub open spec fn frames(records: Seq<Seq<u8>>) -> Seq<u8>
    decreases records.len(),
{
    if records.len() == 0 {
        Seq::empty()
    } else {
        frame_bytes(records[0]) + frames(records.subrange(1, records.len() as int))
    }
}

/// The records of all whole frames at the front of `buf`, and what is left.
pub open spec fn unframe_all(buf: Seq<u8>) -> (Seq<Seq<u8>>, Seq<u8>)
    decreases buf.len(),
{
    match unframe(buf) {
        (FrameView::Record(r), rest) => if rest.len() < buf.len() {
            let (more, left) = unframe_all(rest);
            (seq![r] + more, left)
        } else {
            (Seq::empty(), buf)
        },
        _ => (Seq::empty(), buf),
    }
}

proof fn lemma_be32(n: int)
    requires
        0 <= n < 4294967296,
    ensures
        be32(n).len() == 4,
        from_be32(be32(n)) == n,
{
    reveal(be32);
    let b = be32(n);
    assert(b[0] as int == (n / 16777216) % 256);
    assert(b[1] as int == (n / 65536) % 256);
    assert(b[2] as int == (n / 256) % 256);
    assert(b[3] as int == n % 256);
}

/// The length field is read off the front of whatever starts with it.
proof fn lemma_length_field(buf: Seq<u8>, n: int)
    requires
        0 <= n < 4294967296,
        buf.len() >= 4,
        buf.take(4) == be32(n),
    ensures
        from_be32(buf) == n,
{
    lemma_be32(n);
    let field = buf.take(4);
    assert(buf[0] == field[0] && buf[1] == field[1] && buf[2] == field[2] && buf[3] == field[3]);
}

/// A record within the limit is read back from its frame, and the bytes
/// behind the frame stay in the buffer.
pub proof fn law_frame_roundtrip(record: Seq<u8>, rest: Seq<u8>)
    requires
        record.len() <= MAX_FRAME,
    ensures
        unframe(frame_bytes(record) + rest) == (FrameView::Record(record), rest),
{
    let n = record.len() as int;
    let buf = frame_bytes(record) + rest;
    lemma_be32(n);
    assert(buf.take(4) =~= be32(n));
    lemma_length_field(buf, n);
    assert(buf.subrange(4, 4 + n) =~= record);
    assert(buf.subrange(4 + n, buf.len() as int) =~= rest);
}

/// As long as only a part of a frame has come, reading asks for more and
/// keeps what it has.
pub proof fn law_partial_frame_waits(record: Seq<u8>, k: int)
    requires
        record.len() <= MAX_FRAME,
        0 <= k < frame_bytes(record).len(),
    ensures
        unframe(frame_bytes(record).take(k)) == (
            FrameView::NeedMore,
            frame_bytes(record).take(k),
        ),
{
    let n = record.len() as int;
    let part = frame_bytes(record).take(k);
    lemma_be32(n);
    if k >= 4 {
        assert(part.take(4) =~= be32(n));
        lemma_length_field(part, n);
    }
}

/// Whatever is written as a sequence of frames is read back as the same
/// sequence of records, with nothing left over.
pub proof fn law_stream_roundtrip(records: Seq<Seq<u8>>)
    requires
        forall|i: int| 0 <= i < records.len() ==> (#[trigger] records[i]).len() <= MAX_FRAME,
    ensures
        unframe_all(frames(records)) == (records, Seq::<u8>::empty()),
    decreases records.len(),
{
    if records.len() == 0 {
        assert(unframe(frames(records)) == (FrameView::NeedMore, frames(records)));
    } else {
        let tail = records.subrange(1, records.len() as int);
        assert forall|i: int| 0 <= i < tail.len() implies (#[trigger] tail[i]).len() <= MAX_FRAME by {
            assert(tail[i] == records[i + 1]);
        }
        law_stream_roundtrip(tail);
        law_frame_roundtrip(records[0], frames(tail));
        assert(seq![records[0]] + tail =~= records);
    }
}

/// The bytes of `chunks`, one behind the other.
pub open spec fn joined(chunks: Seq<Seq<u8>>) -> Seq<u8>
    decreases chunks.len(),
{
    if chunks.len() == 0 {
        Seq::empty()
    } else {
        chunks[0] + joined(chunks.skip(1))
    }
}

/// Chunks as reads yield them: none is empty, since that is the end.
pub open spec fn all_filled(chunks: Seq<Seq<u8>>) -> bool {
    forall|i: int| 0 <= i < chunks.len() ==> (#[trigger] chunks[i]).len() > 0
}

/// What `chunks` still yield when `n` bytes have been read off them.
pub open spec fn after_bytes(chunks: Seq<Seq<u8>>, n: nat) -> Seq<Seq<u8>>
    decreases chunks.len(),
{
    if n == 0 || chunks.len() == 0 {
        chunks
    } else if chunks[0].len() <= n {
        after_bytes(chunks.skip(1), (n - chunks[0].len()) as nat)
    } else {
        seq![chunks[0].skip(n as int)] + chunks.skip(1)
    }
}

/// Reading `n` bytes takes exactly these off a stream.
pub proof fn law_after_bytes(chunks: Seq<Seq<u8>>, n: nat)
    requires
        all_filled(chunks),
        n <= joined(chunks).len(),
    ensures
        all_filled(after_bytes(chunks, n)),
        joined(after_bytes(chunks, n)) == joined(chunks).skip(n as int),
    decreases chunks.len(),
{
    if n == 0 || chunks.len() == 0 {
        assert(joined(chunks).skip(n as int) =~= joined(chunks));
    } else {
        lemma_filled_rest(chunks);
        let tail = chunks.skip(1);
        if chunks[0].len() <= n {
            law_after_bytes(tail, (n - chunks[0].len()) as nat);
            assert(joined(chunks).skip(n as int) =~= joined(tail).skip(n - chunks[0].len()));
        } else {
            let cut = seq![chunks[0].skip(n as int)] + tail;
            assert(cut.skip(1) =~= tail);
            assert(joined(cut) =~= joined(chunks).skip(n as int));
            assert forall|i: int| 0 <= i < cut.len() implies (#[trigger] cut[i]).len() > 0 by {
                if i > 0 {
                    assert(cut[i] == tail[i - 1]);
                }
            }
        }
    }
}

/// How a buffer is unframed: what it holds, and what is left of it.
pub type Format = spec_fn(Seq<u8>) -> (FrameView, Seq<u8>);

/// The plain format.
pub open spec fn plain_format() -> Format {
    |buf: Seq<u8>| unframe(buf)
}

/// Whether `wire` is a frame of `record` in `format`: it is taken off the front
/// of a buffer as soon as it is complete, and not before.
pub open spec fn is_frame(format: Format, wire: Seq<u8>, record: Seq<u8>) -> bool {
    &&& wire.len() > 0
    &&& forall|rest: Seq<u8>| format(#[trigger] (wire + rest)) == (FrameView::Record(record), rest)
    &&& forall|k: int|
        0 <= k < wire.len() ==> format(#[trigger] wire.take(k)) == (
            FrameView::NeedMore,
            wire.take(k),
        )
}

/// The reception of one frame into `buf` from a stream that yields `input` and
/// then ends: what comes of it, the buffer, and what the stream still yields.
pub open spec fn receive(format: Format, buf: Seq<u8>, input: Seq<Seq<u8>>) -> (
    Result<Seq<u8>, ErrorView>,
    Seq<u8>,
    Seq<Seq<u8>>,
)
    decreases input.len(),
{
    let (frame, left) = format(buf);
    match raw_step(left, RawEventView::Unframed(frame)) {
        (kept, RawView::Return(r)) => (Ok(r), kept, input),
        (kept, RawView::Fail(e)) => (Err(e), kept, input),
        (kept, _) => if input.len() == 0 {
            (Err(eof_error(kept)), kept, input)
        } else {
            match raw_step(kept, RawEventView::Read(input[0])) {
                (more, RawView::Fail(e)) => (Err(e), more, input.skip(1)),
                (more, _) => receive(format, more, input.skip(1)),
            }
        },
    }
}

/// The first `count` receptions of frames from a stream.
pub open spec fn receive_all(format: Format, buf: Seq<u8>, input: Seq<Seq<u8>>, count: nat) -> (
    Seq<Result<Seq<u8>, ErrorView>>,
    Seq<u8>,
    Seq<Seq<u8>>,
)
    decreases count,
{
    if count == 0 {
        (Seq::empty(), buf, input)
    } else {
        let (got, kept, left) = receive(format, buf, input);
        let (more, last_buf, last_input) = receive_all(format, kept, left, (count - 1) as nat);
        (seq![got] + more, last_buf, last_input)
    }
}

proof fn lemma_filled_rest(chunks: Seq<Seq<u8>>)
    requires
        chunks.len() > 0,
        all_filled(chunks),
    ensures
        chunks[0].len() > 0,
        all_filled(chunks.skip(1)),
        joined(chunks) == chunks[0] + joined(chunks.skip(1)),
{
    assert forall|i: int| 0 <= i < chunks.skip(1).len() implies (#[trigger] chunks.skip(1)[i]).len()
        > 0 by {
        assert(chunks.skip(1)[i] == chunks[i + 1]);
    }
}

/// A frame is received whole however the stream is cut into chunks: buffer and
/// remaining input together are what the peer wrote behind it.
pub proof fn law_frame_received(
    format: Format,
    buf: Seq<u8>,
    input: Seq<Seq<u8>>,
    wire: Seq<u8>,
    record: Seq<u8>,
    rest: Seq<u8>,
)
    requires
        is_frame(format, wire, record),
        all_filled(input),
        buf + joined(input) == wire + rest,
    ensures
        ({
            let (got, kept, left) = receive(format, buf, input);
            &&& got == Ok::<_, ErrorView>(record)
            &&& kept + joined(left) == rest
            &&& all_filled(left)
        }),
    decreases input.len(),
{
    let whole = wire + rest;
    assert(buf =~= whole.take(buf.len() as int));
    if buf.len() >= wire.len() {
        let behind = buf.skip(wire.len() as int);
        assert(buf =~= wire + behind);
        assert(format(wire + behind) == (FrameView::Record(record), behind));
        assert(behind + joined(input) =~= rest) by {
            assert((buf + joined(input)).skip(wire.len() as int) =~= behind + joined(input));
            assert(whole.skip(wire.len() as int) =~= rest);
        }
    } else {
        assert(buf =~= wire.take(buf.len() as int));
        assert(format(wire.take(buf.len() as int)) == (
            FrameView::NeedMore,
            wire.take(buf.len() as int),
        ));
        if input.len() == 0 {
            assert((buf + joined(input)).len() == buf.len());
        }
        lemma_filled_rest(input);
        assert(buf + input[0] + joined(input.skip(1)) =~= buf + joined(input));
        law_frame_received(format, buf + input[0], input.skip(1), wire, record, rest);
    }
}

/// A stream that ends before a frame is complete is closed if nothing of the
/// frame has come, and broken otherwise, however it is cut into chunks.
pub proof fn law_end_of_stream(
    format: Format,
    buf: Seq<u8>,
    input: Seq<Seq<u8>>,
    wire: Seq<u8>,
    record: Seq<u8>,
    k: int,
)
    requires
        is_frame(format, wire, record),
        0 <= k < wire.len(),
        all_filled(input),
        buf + joined(input) == wire.take(k),
    ensures
        receive(format, buf, input) == (
            Err::<Seq<u8>, _>(eof_error(wire.take(k))),
            wire.take(k),
            Seq::<Seq<u8>>::empty(),
        ),
    decreases input.len(),
{
    let n = buf.len() as int;
    assert(buf =~= wire.take(k).take(n));
    assert(buf =~= wire.take(n));
    assert(format(wire.take(n)) == (FrameView::NeedMore, wire.take(n)));
    if input.len() == 0 {
        assert(buf + joined(input) =~= buf);
        assert(input =~= Seq::<Seq<u8>>::empty());
    } else {
        lemma_filled_rest(input);
        assert(buf + input[0] + joined(input.skip(1)) =~= buf + joined(input));
        law_end_of_stream(format, buf + input[0], input.skip(1), wire, record, k);
    }
}

/// What successive receptions yield: each record, then the end of the stream.
pub open spec fn yields(records: Seq<Seq<u8>>, end: ErrorView) -> Seq<Result<Seq<u8>, ErrorView>> {
    Seq::new(records.len(), |i: int| Ok::<_, ErrorView>(records[i])).push(Err(end))
}

/// Whatever is written as frames, of any format and followed by any proper part
/// of one more frame, is received record by record, however the stream is cut
/// into chunks; then the stream is closed if no part of a frame is left over,
/// and broken otherwise.
pub proof fn law_any_chunks_reassemble(
    format: Format,
    buf: Seq<u8>,
    input: Seq<Seq<u8>>,
    wires: Seq<Seq<u8>>,
    records: Seq<Seq<u8>>,
    last: Seq<u8>,
    last_record: Seq<u8>,
    k: int,
)
    requires
        wires.len() == records.len(),
        forall|i: int| 0 <= i < wires.len() ==> is_frame(format, #[trigger] wires[i], records[i]),
        is_frame(format, last, last_record),
        0 <= k < last.len(),
        all_filled(input),
        buf + joined(input) == joined(wires) + last.take(k),
    ensures
        receive_all(format, buf, input, records.len() + 1) == (
            yields(records, eof_error(last.take(k))),
            last.take(k),
            Seq::<Seq<u8>>::empty(),
        ),
    decreases wires.len(),
{
    if wires.len() == 0 {
        assert(joined(wires) + last.take(k) =~= last.take(k));
        law_end_of_stream(format, buf, input, last, last_record, k);
        reveal_with_fuel(receive_all, 2);
        let all = receive_all(format, buf, input, 1);
        assert(all.0 =~= yields(records, eof_error(last.take(k))));
    } else {
        let rest = joined(wires.skip(1)) + last.take(k);
        assert(joined(wires) + last.take(k) =~= wires[0] + rest);
        assert(is_frame(format, wires[0], records[0]));
        law_frame_received(format, buf, input, wires[0], records[0], rest);
        let (got, kept, left) = receive(format, buf, input);
        let later = records.skip(1);
        assert forall|i: int| 0 <= i < wires.skip(1).len() implies is_frame(
            format,
            #[trigger] wires.skip(1)[i],
            later[i],
        ) by {
            assert(is_frame(format, wires[i + 1], records[i + 1]));
        }
        law_any_chunks_reassemble(format, kept, left, wires.skip(1), later, last, last_record, k);
        assert(seq![got] + yields(later, eof_error(last.take(k))) =~= yields(
            records,
            eof_error(last.take(k)),
        ));
    }
}

/// In the plain format a record within the limit has its frame.
pub proof fn law_plain_frame(record: Seq<u8>)
    requires
        record.len() <= MAX_FRAME,
    ensures
        is_frame(plain_format(), frame_bytes(record), record),
{
    let wire = frame_bytes(record);
    assert forall|rest: Seq<u8>| plain_format()(#[trigger] (wire + rest)) == (
        FrameView::Record(record),
        rest,
    ) by {
        law_frame_roundtrip(record, rest);
    }
    assert forall|k: int| 0 <= k < wire.len() implies plain_format()(#[trigger] wire.take(k)) == (
        FrameView::NeedMore,
        wire.take(k),
    ) by {
        law_partial_frame_waits(record, k);
    }
}

/// The plain frames of `records`.
pub open spec fn plain_wires(records: Seq<Seq<u8>>) -> Seq<Seq<u8>> {
    Seq::new(records.len(), |i: int| frame_bytes(records[i]))
}

/// Feeding any pieces that make up the plain frames of `records` yields the
/// records in order, then that the stream is closed, and leaves nothing.
pub proof fn law_plain_stream_received(records: Seq<Seq<u8>>, input: Seq<Seq<u8>>)
    requires
        forall|i: int| 0 <= i < records.len() ==> (#[trigger] records[i]).len() <= MAX_FRAME,
        all_filled(input),
        joined(input) == frames(records),
    ensures
        receive_all(plain_format(), Seq::empty(), input, records.len() + 1) == (
            yields(records, ErrorView::Closed),
            Seq::<u8>::empty(),
            Seq::<Seq<u8>>::empty(),
        ),
{
    let wires = plain_wires(records);
    let none = Seq::<u8>::empty();
    lemma_frames_joined(records);
    assert forall|i: int| 0 <= i < wires.len() implies is_frame(
        plain_format(),
        #[trigger] wires[i],
        records[i],
    ) by {
        law_plain_frame(records[i]);
    }
    law_plain_frame(none);
    let last = frame_bytes(none);
    assert(last.take(0) =~= none);
    assert(none + joined(input) =~= joined(wires) + last.take(0));
    law_any_chunks_reassemble(plain_format(), none, input, wires, records, last, none, 0);
}

proof fn lemma_frames_joined(records: Seq<Seq<u8>>)
    ensures
        joined(plain_wires(records)) == frames(records),
    decreases records.len(),
{
    if records.len() > 0 {
        let tail = records.subrange(1, records.len() as int);
        lemma_frames_joined(tail);
        assert(plain_wires(records).skip(1) =~= plain_wires(tail));
    }
}

/// How the `n`-th record of a session is decrypted.
pub type Decryption = spec_fn(nat, Seq<u8>) -> Result<Seq<u8>, Seq<char>>;

/// The reception of one envelope, the `n`-th of its session: its frame, then
/// decryption and parsing.
pub open spec fn receive_envelope<B>(
    format: Format,
    decrypt: Decryption,
    parse: spec_fn(Seq<u8>) -> Result<Envelope<B>, Seq<char>>,
    n: nat,
    buf: Seq<u8>,
    input: Seq<Seq<u8>>,
) -> (Result<Envelope<B>, ErrorView>, Seq<u8>, Seq<Seq<u8>>) {
    match receive(format, buf, input) {
        (Err(e), kept, left) => (Err(e), kept, left),
        (Ok(record), kept, left) => {
            let opened = recv_step::<B>(kept, RecvEventView::Decrypted(decrypt(n, record)));
            let last = match opened.1 {
                RecvView::Parse(plaintext) => recv_step(
                    opened.0,
                    RecvEventView::Parsed(parse(plaintext)),
                ),
                _ => opened,
            };
            match last {
                (after, RecvView::Return(env)) => (Ok(env), after, left),
                (after, RecvView::Fail(e)) => (Err(e), after, left),
                (after, _) => (Err(ErrorView::Closed), after, left),
            }
        },
    }
}

/// The receptions of `count` envelopes, from the `n`-th of the session on.
pub open spec fn receive_envelopes<B>(
    format: Format,
    decrypt: Decryption,
    parse: spec_fn(Seq<u8>) -> Result<Envelope<B>, Seq<char>>,
    n: nat,
    buf: Seq<u8>,
    input: Seq<Seq<u8>>,
    count: nat,
) -> (Seq<Result<Envelope<B>, ErrorView>>, Seq<u8>, Seq<Seq<u8>>)
    decreases count,
{
    if count == 0 {
        (Seq::empty(), buf, input)
    } else {
        let (got, kept, left) = receive_envelope(format, decrypt, parse, n, buf, input);
        let (more, last_buf, last_input) = receive_envelopes(
            format,
            decrypt,
            parse,
            n + 1,
            kept,
            left,
            (count - 1) as nat,
        );
        (seq![got] + more, last_buf, last_input)
    }
}

/// What successive receptions of envelopes yield: each envelope, then the end.
pub open spec fn yields_envelopes<B>(envs: Seq<Envelope<B>>, end: ErrorView) -> Seq<
    Result<Envelope<B>, ErrorView>,
> {
    Seq::new(envs.len(), |i: int| Ok::<_, ErrorView>(envs[i])).push(Err(end))
}

/// What a read gives back of a write: the envelopes that were sent arrive, all
/// of them and in order, whatever the format and however the stream is cut into
/// chunks. Then the stream is closed, with an empty buffer, or broken, if it
/// ends inside one more frame. That the session decrypts each record to what
/// parses as its envelope is what paired sessions do.
pub proof fn law_envelopes_arrive<B>(
    format: Format,
    decrypt: Decryption,
    parse: spec_fn(Seq<u8>) -> Result<Envelope<B>, Seq<char>>,
    n: nat,
    buf: Seq<u8>,
    input: Seq<Seq<u8>>,
    wires: Seq<Seq<u8>>,
    records: Seq<Seq<u8>>,
    plains: Seq<Seq<u8>>,
    envs: Seq<Envelope<B>>,
    last: Seq<u8>,
    last_record: Seq<u8>,
    k: int,
)
    requires
        wires.len() == records.len() == plains.len() == envs.len(),
        forall|i: int| 0 <= i < wires.len() ==> is_frame(format, #[trigger] wires[i], records[i]),
        forall|i: int|
            0 <= i < records.len() ==> decrypt((n + i) as nat, #[trigger] records[i]) == Ok::<
                _,
                Seq<char>,
            >(plains[i]),
        forall|i: int|
            0 <= i < plains.len() ==> parse(#[trigger] plains[i]) == Ok::<_, Seq<char>>(envs[i]),
        is_frame(format, last, last_record),
        0 <= k < last.len(),
        all_filled(input),
        buf + joined(input) == joined(wires) + last.take(k),
    ensures
        receive_envelopes(format, decrypt, parse, n, buf, input, envs.len() + 1) == (
            yields_envelopes(envs, eof_error(last.take(k))),
            last.take(k),
            Seq::<Seq<u8>>::empty(),
        ),
    decreases wires.len(),
{
    let end = eof_error(last.take(k));
    if wires.len() == 0 {
        assert(joined(wires) + last.take(k) =~= last.take(k));
        law_end_of_stream(format, buf, input, last, last_record, k);
        reveal_with_fuel(receive_envelopes, 2);
        let all = receive_envelopes(format, decrypt, parse, n, buf, input, 1);
        assert(all.0 =~= yields_envelopes(envs, end));
    } else {
        let rest = joined(wires.skip(1)) + last.take(k);
        assert(joined(wires) + last.take(k) =~= wires[0] + rest);
        assert(is_frame(format, wires[0], records[0]));
        law_frame_received(format, buf, input, wires[0], records[0], rest);
        assert(decrypt((n + 0) as nat, records[0]) == Ok::<_, Seq<char>>(plains[0]));
        assert(parse(plains[0]) == Ok::<_, Seq<char>>(envs[0]));
        let (got, kept, left) = receive_envelope(format, decrypt, parse, n, buf, input);
        assert(got == Ok::<_, ErrorView>(envs[0]));
        let (w, r, p, e) = (wires.skip(1), records.skip(1), plains.skip(1), envs.skip(1));
        assert forall|i: int| 0 <= i < w.len() implies is_frame(format, #[trigger] w[i], r[i]) by {
            assert(is_frame(format, wires[i + 1], records[i + 1]));
        }
        assert forall|i: int| 0 <= i < r.len() implies decrypt(
            (n + 1 + i) as nat,
            #[trigger] r[i],
        ) == Ok::<_, Seq<char>>(p[i]) by {
            assert(decrypt((n + (i + 1)) as nat, records[i + 1]) == Ok::<_, Seq<char>>(
                plains[i + 1],
            ));
        }
        assert forall|i: int| 0 <= i < p.len() implies parse(#[trigger] p[i]) == Ok::<_, Seq<char>>(
            e[i],
        ) by {
            assert(parse(plains[i + 1]) == Ok::<_, Seq<char>>(envs[i + 1]));
        }
        law_envelopes_arrive(
            format,
            decrypt,
            parse,
            n + 1,
            kept,
            left,
            w,
            r,
            p,
            e,
            last,
            last_record,
            k,
        );
        assert(seq![got] + yields_envelopes(e, end) =~= yields_envelopes(envs, end));
    }
}

/// A plain frame is the length of its record in four bytes, highest first, and
/// the record; over 16 MiB there is none.
pub proof fn law_frame_written(record: &[u8], r: Result<Vec<u8>, ObfsError>)
    requires
        call_ensures(write_frame, (record,), r),
    ensures
        record@.len() <= 16_777_216 ==> (r matches Ok(wire) && wire@.len() == 4 + record@.len()
            && wire@[0] * 16777216 + wire@[1] * 65536 + wire@[2] * 256 + wire@[3] == record@.len()
            && wire@.skip(4) == record@),
        record@.len() > 16_777_216 ==> (r matches Err(ObfsError::FrameTooLarge(n, max)) && n
            == record@.len() && max == 16_777_216),
{
    if record@.len() <= 16_777_216 {
        lemma_be32(record@.len() as int);
        let wire = frame_bytes(record@);
        assert(wire.take(4) =~= be32(record@.len() as int));
        lemma_length_field(wire, record@.len() as int);
        assert(wire.skip(4) =~= record@);
    }
}

/// A buffer is taken for what its length field says: with all bytes of the
/// record there, the record is taken off and the rest stays, before that more is
/// waited for, and a length over 16 MiB is no frame.
pub proof fn law_frame_read(buf: &mut Vec<u8>, frame: FrameIn)
    requires
        call_ensures(read_frame, (buf,), frame),
    ensures
        ({
            let b = old(buf)@;
            let n = b[0] * 16777216 + b[1] * 65536 + b[2] * 256 + b[3];
            if b.len() < 4 {
                frame is NeedMore && final(buf)@ == b
            } else if n > 16_777_216 {
                frame is Invalid && final(buf)@ == b
            } else if b.len() < 4 + n {
                frame is NeedMore && final(buf)@ == b
            } else {
                frame matches FrameIn::Record(r) && r@ == b.subrange(4, 4 + n) && final(buf)@
                    == b.skip(4 + n)
            }
        }),
{
    let b = old(buf)@;
    let n = b[0] * 16777216 + b[1] * 65536 + b[2] * 256 + b[3];
    if b.len() >= 4 && n <= 16_777_216 && b.len() >= 4 + n {
        assert(b.subrange(4 + n, b.len() as int) =~= b.skip(4 + n));
    }
}

/// A reader holds what was fed to it, in order, and takes frames off it as
/// they are taken off a buffer.
pub proof fn law_reader_is_a_buffer(
    fresh: FramedReader,
    leftover: Vec<u8>,
    started: FramedReader,
    fed: &mut FramedReader,
    data: &[u8],
    reading: &mut FramedReader,
    frame: FrameIn,
    buf: &mut Vec<u8>,
    taken: FrameIn,
    back: Vec<u8>,
)
    requires
        call_ensures(FramedReader::new, (), fresh),
        call_ensures(FramedReader::with_leftover, (leftover,), started),
        call_ensures(FramedReader::feed, (fed, data), ()),
        call_ensures(FramedReader::next_frame, (reading,), frame),
        call_ensures(read_frame, (buf,), taken),
        old(buf)@ == old(reading)@,
        call_ensures(FramedReader::into_buffer, (started,), back),
    ensures
        fresh@.len() == 0,
        started@ == leftover@,
        back@ == leftover@,
        final(fed)@ == old(fed)@ + data@,
        frame@ == taken@,
        final(reading)@ == final(buf)@,
{
}

/// Reception of a frame: a whole record is returned, bytes are put behind those
/// that are there, and the end of the stream is a clean one only with an empty
/// buffer. A failure is told as it came.
pub proof fn law_frame_reception(buf: &mut Vec<u8>, event: RawEvent, action: RawAction)
    requires
        call_ensures(recv_raw, (buf, event), action),
    ensures
        event matches RawEvent::Unframed(FrameIn::Record(r)) ==> (action matches RawAction::Return(
            record,
        ) && record@ == r@),
        event matches RawEvent::Unframed(FrameIn::NeedMore) ==> action is Read,
        event matches RawEvent::Unframed(FrameIn::Invalid) ==> (action matches RawAction::Fail(
            ObfsError::Io(IoKind::InvalidData, m),
        ) && m@ == "invalid framing"@),
        event matches RawEvent::Read(data) ==> if data@.len() > 0 {
            action is Unframe && final(buf)@ == old(buf)@ + data@
        } else {
            final(buf)@ == old(buf)@ && if old(buf)@.len() == 0 {
                action matches RawAction::Fail(ObfsError::Closed)
            } else {
                action matches RawAction::Fail(ObfsError::Io(IoKind::UnexpectedEof, m)) && m@
                    == "EOF mid-frame"@
            }
        },
        event matches RawEvent::ReadFailed(kind, e) ==> (action matches RawAction::Fail(
            ObfsError::Io(k, m),
        ) && k == kind && m@ == e@),
        !(event is Read) ==> final(buf)@ == old(buf)@,
{
}

/// Reception of an envelope: its frame as by itself, its record is decrypted, the
/// plaintext is parsed, and the envelope is returned; each failure is told as
/// that of its layer.
pub proof fn law_envelope_reception<B>(
    buf: &mut Vec<u8>,
    event: RecvEvent<B>,
    action: RecvAction<B>,
    alone: &mut Vec<u8>,
    raw: RawEvent,
    step: RawAction,
)
    requires
        call_ensures(recv_frame::<B>, (buf, event), action),
        call_ensures(recv_raw, (alone, raw), step),
        old(alone)@ == old(buf)@,
    ensures
        event == RecvEvent::<B>::Raw(raw) ==> final(buf)@ == final(alone)@ && match step {
            RawAction::Unframe => action is Unframe,
            RawAction::Read => action is Read,
            RawAction::Return(r) => action matches RecvAction::Decrypt(record) && record@ == r@,
            RawAction::Fail(e) => action matches RecvAction::Fail(f) && f@ == e@,
        },
        !(event is Raw) ==> final(buf)@ == old(buf)@,
        event matches RecvEvent::Decrypted(Ok(p)) ==> (action matches RecvAction::Parse(q) && q@ == p@),
        event matches RecvEvent::Decrypted(Err(e)) ==> (action matches RecvAction::Fail(
            ObfsError::Wire(m),
        ) && m@ == e@),
        event matches RecvEvent::Parsed(Ok(env)) ==> action == RecvAction::Return(env),
        event matches RecvEvent::Parsed(Err(e)) ==> (action matches RecvAction::Fail(
            ObfsError::Serde(m),
        ) && m@ == e@),
{
}

/// Sending hands on what each layer has made of the envelope, unchanged, to the
/// next: plaintext, record, frame. Each failure is told as that of its layer.
pub proof fn law_envelope_sending(event: SendEvent, action: SendAction)
    requires
        call_ensures(send_frame, (event,), action),
    ensures
        event matches SendEvent::Serialised(Ok(p)) ==> action == SendAction::Encrypt(p),
        event matches SendEvent::Serialised(Err(e)) ==> (action matches SendAction::Fail(
            ObfsError::Serde(m),
        ) && m@ == e@),
        event matches SendEvent::Encrypted(Ok(r)) ==> action == SendAction::Frame(r),
        event matches SendEvent::Encrypted(Err(e)) ==> (action matches SendAction::Fail(
            ObfsError::Wire(m),
        ) && m@ == e@),
        event matches SendEvent::Framed(Ok(w)) ==> action == SendAction::Write(w),
        event matches SendEvent::Framed(Err(e)) ==> (action matches SendAction::Fail(
            ObfsError::Wire(m),
        ) && m@ == e@),
        event is Written <==> action is Done,
        event matches SendEvent::WriteFailed(kind, e) ==> (action matches SendAction::Fail(
            ObfsError::Io(k, m),
        ) && k == kind && m@ == e@),
{
}

/// A stream is read 4096 bytes at a time.
pub proof fn law_reads_are_bounded()
    ensures
        READ_CHUNK == 4096,
{
}

} // verus!
