//! Framing of worker requests.
//!
//! A request on the wire is a header of `HEADER_LEN` bytes followed by a payload:
//!
//! | offset | size | field |
//! |---|---|---|
//! | 0 | 1 | tag |
//! | 1 | 4 | width, u32 little endian |
//! | 5 | 4 | height, u32 little endian |
//! | 9 | 1 | pixel format |
//! | 10 | 4 | payload length, u32 little endian |
//! | 14 | len | payload |
//!
//! The reader is incremental: given the bytes received so far it either
//! returns a complete request, says which field it is inside and how many more
//! bytes that field (or the payload) still needs, or rejects a declared
//! payload length above `MAX_PAYLOAD` before any payload byte is read.
use vstd::prelude::*;

verus! {

/// Size of the fixed request header (tag, width, height, format, length).
pub const HEADER_LEN: usize = 14;

/// Largest payload a request may declare; anything larger is a corrupt stream.
pub const MAX_PAYLOAD: u32 = 512 * 1024 * 1024;

/// The part of a request that a reader is currently receiving.
#[derive(Clone, Copy, Debug, PartialEq, Eq, Structural)]
pub enum Field {
    Tag,
    Width,
    Height,
    PixFmt,
    Len,
    Payload,
}

/// A framing error: the stream cannot be a sequence of requests.
#[derive(Clone, Copy, Debug, PartialEq, Eq, Structural)]
pub enum ProtocolError {
    /// The header declares a payload longer than `MAX_PAYLOAD`.
    PayloadTooLarge(u32),
    /// The stream ended inside a request, while this field was being read.
    Truncated(Field),
}

/// One decoded request.
#[derive(Debug, PartialEq, Eq)]
pub struct Request {
    pub tag: u8,
    pub width: usize,
    pub height: usize,
    pub fmt: u8,
    pub payload: Vec<u8>,
}

/// Mathematical value of a `Request`.
pub struct RequestView {
    pub tag: u8,
    pub width: usize,
    pub height: usize,
    pub fmt: u8,
    pub payload: Seq<u8>,
}

impl View for Request {
    type V = RequestView;

    open spec fn view(&self) -> RequestView {
        RequestView {
            tag: self.tag,
            width: self.width,
            height: self.height,
            fmt: self.fmt,
            payload: self.payload@,
        }
    }
}

/// Result of looking at the bytes received so far.
#[derive(Debug, PartialEq, Eq)]
pub enum ReadOutcome {
    /// The bytes are a proper prefix of a request: the reader is inside
    /// `Field` and needs this many more bytes before it can go on.
    NeedMore(Field, usize),
    /// A whole request, and how many bytes of the input it occupies.
    Complete(Request, usize),
}

/// Mathematical value of a `ReadOutcome`.
pub enum ReadOutcomeView {
    NeedMore(Field, usize),
    Complete(RequestView, usize),
}

impl View for ReadOutcome {
    type V = ReadOutcomeView;

    open spec fn view(&self) -> ReadOutcomeView {
        match self {
            ReadOutcome::NeedMore(f, n) => ReadOutcomeView::NeedMore(*f, *n),
            ReadOutcome::Complete(r, n) => ReadOutcomeView::Complete(r@, *n),
        }
    }
}

pub open spec fn outcome_view(
    r: Result<ReadOutcome, ProtocolError>,
) -> Result<ReadOutcomeView, ProtocolError> {
    match r {
        Ok(o) => Ok(o@),
        Err(e) => Err(e),
    }
}

/// The unsigned little-endian number held by the four bytes at `at`.
pub open spec fn le_u32_at(b: Seq<u8>, at: int) -> int {
    b[at] + b[at + 1] * 256 + b[at + 2] * 65536 + b[at + 3] * 16777216
}

/// The four little-endian bytes of `x`.
pub open spec fn le_bytes(x: u32) -> Seq<u8> {
    seq![
        (x % 256) as u8,
        ((x / 256) % 256) as u8,
        ((x / 65536) % 256) as u8,
        (x / 16777216) as u8,
    ]
}

/// The field that the byte at offset `n` of a header belongs to.
pub open spec fn field_at(n: int) -> Field {
    if n < 1 {
        Field::Tag
    } else if n < 5 {
        Field::Width
    } else if n < 9 {
        Field::Height
    } else if n < 10 {
        Field::PixFmt
    } else {
        Field::Len
    }
}

/// The header offset one past the last byte of a header field.
pub open spec fn field_end(f: Field) -> int {
    match f {
        Field::Tag => 1,
        Field::Width => 5,
        Field::Height => 9,
        Field::PixFmt => 10,
        _ => 14,
    }
}

/// Payload length declared by a complete header.
pub open spec fn declared_len(b: Seq<u8>) -> int {
    le_u32_at(b, 10)
}

/// What the reader makes of the bytes `b` received so far.
pub open spec fn spec_read_request(b: Seq<u8>) -> Result<ReadOutcomeView, ProtocolError> {
    if b.len() < HEADER_LEN {
        let f = field_at(b.len() as int);
        Ok(ReadOutcomeView::NeedMore(f, (field_end(f) - b.len()) as usize))
    } else if declared_len(b) > MAX_PAYLOAD {
        Err(ProtocolError::PayloadTooLarge(declared_len(b) as u32))
    } else if b.len() < HEADER_LEN + declared_len(b) {
        Ok(ReadOutcomeView::NeedMore(Field::Payload, (HEADER_LEN + declared_len(b) - b.len()) as usize))
    } else {
        Ok(
            ReadOutcomeView::Complete(
                RequestView {
                    tag: b[0],
                    width: le_u32_at(b, 1) as usize,
                    height: le_u32_at(b, 5) as usize,
                    fmt: b[9],
                    payload: b.subrange(HEADER_LEN as int, HEADER_LEN + declared_len(b)),
                },
                (HEADER_LEN + declared_len(b)) as usize,
            ),
        )
    }
}

/// The bytes that encode one request.
pub open spec fn frame_bytes(tag: u8, width: u32, height: u32, fmt: u8, payload: Seq<u8>) -> Seq<u8> {
    seq![tag] + le_bytes(width) + le_bytes(height) + seq![fmt] + le_bytes(payload.len() as u32)
        + payload
}

fn read_u32_le(b: &[u8], at: usize) -> (v: u32)
    requires
        at + 4 <= b@.len(),
    ensures
        v == le_u32_at(b@, at as int),
{
    let b0 = b[at] as u32;
    let b1 = b[at + 1] as u32;
    let b2 = b[at + 2] as u32;
    let b3 = b[at + 3] as u32;
    b0 + b1 * 256 + b2 * 65536 + b3 * 16777216
}

/// Reads one request from the front of `buf`, the bytes received so far.
///
/// The result is fixed by `spec_read_request`: a prefix of a header asks for
/// the rest of its current field; a header that declares more than
/// `MAX_PAYLOAD` bytes is an error; a header whose payload has not fully
/// arrived asks for the rest of the payload; otherwise the request is
/// complete and bytes after it are left alone.
pub fn read_request(buf: &[u8]) -> (res: Result<ReadOutcome, ProtocolError>)
    ensures
        outcome_view(res) == spec_read_request(buf@),
{
    let n = buf.len();
    if n < HEADER_LEN {
        let (field, end): (Field, usize) = if n < 1 {
            (Field::Tag, 1)
        } else if n < 5 {
            (Field::Width, 5)
        } else if n < 9 {
            (Field::Height, 9)
        } else if n < 10 {
            (Field::PixFmt, 10)
        } else {
            (Field::Len, 14)
        };
        return Ok(ReadOutcome::NeedMore(field, end - n));
    }
    let len = read_u32_le(buf, 10);
    if len > MAX_PAYLOAD {
        return Err(ProtocolError::PayloadTooLarge(len));
    }
    let total = HEADER_LEN + len as usize;
    if n < total {
        return Ok(ReadOutcome::NeedMore(Field::Payload, total - n));
    }
    let width = read_u32_le(buf, 1);
    let height = read_u32_le(buf, 5);
    let mut payload: Vec<u8> = Vec::with_capacity(len as usize);
    let mut i: usize = HEADER_LEN;
    while i < total
        invariant
            HEADER_LEN <= i <= total,
            total <= buf@.len(),
            payload@ == buf@.subrange(HEADER_LEN as int, i as int),
        decreases total - i,
    {
        payload.push(buf[i]);
        i = i + 1;
    }
    let req = Request {
        tag: buf[0],
        width: width as usize,
        height: height as usize,
        fmt: buf[9],
        payload,
    };
    Ok(ReadOutcome::Complete(req, total))
}

/// What the end of the stream means after `received`, the bytes of the
/// request in progress: a clean end between requests, or a stream cut inside
/// a request. The field named is the one the reader was waiting for.
pub fn end_of_input(received: &[u8]) -> (res: Result<(), ProtocolError>)
    ensures
        res is Ok <==> received@.len() == 0,
        received@.len() > 0 ==> res == Err::<(), ProtocolError>(
            ProtocolError::Truncated(
                if received@.len() < HEADER_LEN {
                    field_at(received@.len() as int)
                } else {
                    Field::Payload
                },
            ),
        ),
{
    let n = received.len();
    if n == 0 {
        Ok(())
    } else if n < 5 {
        Err(ProtocolError::Truncated(Field::Width))
    } else if n < 9 {
        Err(ProtocolError::Truncated(Field::Height))
    } else if n < 10 {
        Err(ProtocolError::Truncated(Field::PixFmt))
    } else if n < HEADER_LEN {
        Err(ProtocolError::Truncated(Field::Len))
    } else {
        Err(ProtocolError::Truncated(Field::Payload))
    }
}

fn push_le_u32(out: &mut Vec<u8>, x: u32)
    ensures
        final(out)@ == old(out)@ + le_bytes(x),
{
    out.push((x % 256) as u8);
    out.push(((x / 256) % 256) as u8);
    out.push(((x / 65536) % 256) as u8);
    out.push((x / 16777216) as u8);
}

/// Encodes one request as it travels on the wire.
pub fn encode_request(tag: u8, width: u32, height: u32, fmt: u8, payload: &[u8]) -> (out: Vec<u8>)
    requires
        payload@.len() <= u32::MAX,
    ensures
        out@ == frame_bytes(tag, width, height, fmt, payload@),
{
    let mut out: Vec<u8> = Vec::new();
    out.push(tag);
    push_le_u32(&mut out, width);
    push_le_u32(&mut out, height);
    out.push(fmt);
    push_le_u32(&mut out, payload.len() as u32);
    let ghost head = out@;
    let mut i: usize = 0;
    while i < payload.len()
        invariant
            i <= payload@.len(),
            out@ == head + payload@.subrange(0, i as int),
        decreases payload@.len() - i,
    {
        out.push(payload[i]);
        i = i + 1;
    }
    out
}

/// The four little-endian bytes of `x` read back as `x`.
pub proof fn lemma_le_bytes_roundtrip(x: u32)
    ensures
        le_bytes(x).len() == 4,
        le_u32_at(le_bytes(x), 0) == x,
{
    let b = le_bytes(x);
    assert(b[0] == x % 256);
    assert(b[1] == (x / 256) % 256);
    assert(b[2] == (x / 65536) % 256);
    assert(b[3] == x / 16777216);
    assert((x % 256) + ((x / 256) % 256) * 256 + ((x / 65536) % 256) * 65536 + (x / 16777216)
        * 16777216 == x) by (nonlinear_arith);
}

proof fn lemma_frame_layout(tag: u8, width: u32, height: u32, fmt: u8, payload: Seq<u8>)
    requires
        payload.len() <= MAX_PAYLOAD,
    ensures
        ({
            let f = frame_bytes(tag, width, height, fmt, payload);
            &&& f.len() == HEADER_LEN + payload.len()
            &&& f[0] == tag
            &&& le_u32_at(f, 1) == width
            &&& le_u32_at(f, 5) == height
            &&& f[9] == fmt
            &&& declared_len(f) == payload.len()
            &&& f.subrange(HEADER_LEN as int, f.len() as int) == payload
        }),
{
    let f = frame_bytes(tag, width, height, fmt, payload);
    let wb = le_bytes(width);
    let hb = le_bytes(height);
    let lb = le_bytes(payload.len() as u32);
    lemma_le_bytes_roundtrip(width);
    lemma_le_bytes_roundtrip(height);
    lemma_le_bytes_roundtrip(payload.len() as u32);
    assert(f.len() == HEADER_LEN + payload.len());
    assert forall|i: int| 0 <= i < 4 implies f[1 + i] == wb[i] && f[5 + i] == hb[i] && f[10 + i]
        == lb[i] by {}
    assert(f.subrange(HEADER_LEN as int, f.len() as int) =~= payload);
}

/// Reading back what `encode_request` wrote: the bytes of one request,
/// followed by anything at all, read as exactly that request, occupying the
/// frame's own bytes and no more.
pub proof fn law_read_after_encode(
    tag: u8,
    width: u32,
    height: u32,
    fmt: u8,
    payload: Seq<u8>,
    rest: Seq<u8>,
)
    requires
        payload.len() <= MAX_PAYLOAD,
    ensures
        spec_read_request(frame_bytes(tag, width, height, fmt, payload) + rest) == Ok::<
            ReadOutcomeView,
            ProtocolError,
        >(
            ReadOutcomeView::Complete(
                RequestView {
                    tag,
                    width: width as usize,
                    height: height as usize,
                    fmt,
                    payload,
                },
                (HEADER_LEN + payload.len()) as usize,
            ),
        ),
{
    let f = frame_bytes(tag, width, height, fmt, payload);
    let b = f + rest;
    lemma_frame_layout(tag, width, height, fmt, payload);
    assert forall|i: int| 0 <= i < f.len() implies b[i] == f[i] by {}
    assert(le_u32_at(b, 1) == le_u32_at(f, 1));
    assert(le_u32_at(b, 5) == le_u32_at(f, 5));
    assert(declared_len(b) == declared_len(f));
    assert(b.subrange(HEADER_LEN as int, HEADER_LEN + declared_len(b)) =~= payload) by {
        assert(f.subrange(HEADER_LEN as int, f.len() as int) == payload);
    }
}

/// The reader never asks for bytes beyond the request it is reading: for
/// every proper prefix of an encoded request, the reader asks for a positive
/// number of bytes that still lie inside the request; once the header is in,
/// it asks for exactly the rest of the payload.
pub proof fn law_prefix_asks_within_frame(
    tag: u8,
    width: u32,
    height: u32,
    fmt: u8,
    payload: Seq<u8>,
    n: int,
)
    requires
        payload.len() <= MAX_PAYLOAD,
        0 <= n < HEADER_LEN + payload.len(),
    ensures
        ({
            let f = frame_bytes(tag, width, height, fmt, payload);
            &&& spec_read_request(f.take(n)) matches Ok(ReadOutcomeView::NeedMore(_, k)) && 0 < k
                && n + k <= f.len()
            &&& n >= HEADER_LEN ==> spec_read_request(f.take(n)) == Ok::<
                ReadOutcomeView,
                ProtocolError,
            >(ReadOutcomeView::NeedMore(Field::Payload, (f.len() - n) as usize))
        }),
{
    let f = frame_bytes(tag, width, height, fmt, payload);
    lemma_frame_layout(tag, width, height, fmt, payload);
    let b = f.take(n);
    if n >= HEADER_LEN {
        assert(declared_len(b) == declared_len(f));
    }
}

/// Bytes that arrive after a complete request do not change what is read.
pub proof fn law_complete_ignores_trailing(b: Seq<u8>, extra: Seq<u8>)
    requires
        spec_read_request(b) is Ok,
        spec_read_request(b)->Ok_0 is Complete,
    ensures
        spec_read_request(b + extra) == spec_read_request(b),
{
    let c = b + extra;
    assert forall|i: int| 0 <= i < b.len() implies c[i] == b[i] by {}
    assert(le_u32_at(c, 1) == le_u32_at(b, 1));
    assert(le_u32_at(c, 5) == le_u32_at(b, 5));
    assert(declared_len(c) == declared_len(b));
    assert(c.subrange(HEADER_LEN as int, HEADER_LEN + declared_len(c)) =~= b.subrange(
        HEADER_LEN as int,
        HEADER_LEN + declared_len(b),
    ));
}

/// A complete header that declares more than `MAX_PAYLOAD` bytes is refused
/// with that length, whatever its other fields and whatever follows; and a
/// request is only ever read whole with a declared length within the limit,
/// its payload being exactly the declared number of bytes after the header.
pub proof fn law_oversized_length_is_refused(b: Seq<u8>)
    ensures
        b.len() >= HEADER_LEN && b[10] + 256 * b[11] + 65536 * b[12] + 16777216 * b[13]
            > MAX_PAYLOAD ==> spec_read_request(b) == Err::<ReadOutcomeView, ProtocolError>(
            ProtocolError::PayloadTooLarge(
                (b[10] + 256 * b[11] + 65536 * b[12] + 16777216 * b[13]) as u32,
            ),
        ),
        spec_read_request(b) matches Err(ProtocolError::PayloadTooLarge(n)) ==> b.len()
            >= HEADER_LEN && n > MAX_PAYLOAD && n == b[10] + 256 * b[11] + 65536 * b[12]
            + 16777216 * b[13],
        spec_read_request(b) matches Ok(ReadOutcomeView::Complete(r, used)) ==> r.payload.len()
            <= MAX_PAYLOAD && used == HEADER_LEN + r.payload.len() && r.payload == b.subrange(
            HEADER_LEN as int,
            used as int,
        ),
{
}

/// The header fields are little endian: the first byte of each four-byte field
/// is its least significant byte.
pub proof fn law_header_is_little_endian(
    tag: u8,
    width: u32,
    height: u32,
    fmt: u8,
    payload: Seq<u8>,
)
    requires
        payload.len() <= MAX_PAYLOAD,
    ensures
        ({
            let f = frame_bytes(tag, width, height, fmt, payload);
            &&& f[0] == tag && f[9] == fmt
            &&& f[1] == width % 256 && f[2] == (width / 256) % 256 && f[3] == (width / 65536) % 256
                && f[4] == width / 16777216
            &&& f[5] == height % 256 && f[6] == (height / 256) % 256 && f[7] == (height / 65536)
                % 256 && f[8] == height / 16777216
            &&& f[10] == payload.len() % 256 && f[11] == (payload.len() / 256) % 256 && f[12] == (
            payload.len() / 65536) % 256 && f[13] == payload.len() / 16777216
        }),
{
    let f = frame_bytes(tag, width, height, fmt, payload);
    lemma_frame_layout(tag, width, height, fmt, payload);
    let l = payload.len() as u32;
    assert(f[10] == le_bytes(l)[0] && f[11] == le_bytes(l)[1] && f[12] == le_bytes(l)[2] && f[13]
        == le_bytes(l)[3]);
    assert(f[1] == le_bytes(width)[0] && f[4] == le_bytes(width)[3]);
    assert(f[5] == le_bytes(height)[0] && f[8] == le_bytes(height)[3]);
    assert(f[2] == le_bytes(width)[1] && f[3] == le_bytes(width)[2]);
    assert(f[6] == le_bytes(height)[1] && f[7] == le_bytes(height)[2]);
}

/// Offsets at which a header field ends.
pub open spec fn header_boundary(m: int) -> bool {
    m == 1 || m == 5 || m == 9 || m == 10 || m == 14
}

/// On a partial header the reader asks exactly for the rest of the field it is
/// inside: the request's field boundaries are 1, 5, 9, 10 and 14 bytes in, and
/// the reader asks to read up to the next boundary, no further and no less.
pub proof fn law_header_is_read_field_by_field(b: Seq<u8>)
    requires
        b.len() < HEADER_LEN,
    ensures
        spec_read_request(b) matches Ok(ReadOutcomeView::NeedMore(f, k)) && k > 0 && ({
            let end = b.len() + k;
            &&& header_boundary(end)
            &&& forall|m: int| b.len() < m < end ==> !#[trigger] header_boundary(m)
            &&& (end == 1 ==> f == Field::Tag) && (end == 5 ==> f == Field::Width) && (end == 9
                ==> f == Field::Height) && (end == 10 ==> f == Field::PixFmt) && (end == 14 ==> f
                == Field::Len)
        }),
{
}

} // verus!
