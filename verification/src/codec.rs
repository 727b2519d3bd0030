//! Length-delimited framing over a stream.
//!
//! Each frame is a protobuf varint byte count followed by that many bytes. This
//! is exactly what `prost::Message::encode_length_delimited` writes and what
//! Java's `parseDelimitedFrom` reads, so both sides get framing for free
//! instead of inventing a header that then has to be kept in sync.
use vstd::prelude::*;

use crate::text::{dec, dec_string};
use crate::wire::push_bytes;

verus! {

/// Refuse absurd frames rather than trying to allocate them. The largest thing
/// a client legitimately sends is a Diagnose request carrying the framework
/// state, which is a few hundred kilobytes at most.
pub const MAX_FRAME_BYTES: usize = 33_554_432;

// ---- Lengths --------------------------------------------------------------------

/// A number as a protobuf varint: seven bits a byte, the low ones first, with
/// the top bit set on all bytes but the last.
pub open spec fn varint(n: nat) -> Seq<u8>
    decreases n,
{
    if n < 128 {
        seq![n as u8]
    } else {
        seq![(n % 128 + 128) as u8] + varint(n / 128)
    }
}

/// The varint of a length, from `prost::encode_length_delimiter` into a vector,
/// which always has the room for it.
#[verifier::external_body]
fn length_delimiter(length: usize) -> (r: Vec<u8>)
    ensures
        r@ == varint(length as nat),
{
    let mut buf: Vec<u8> = Vec::new();
    let _ = prost::encode_length_delimiter(length, &mut buf);
    buf
}

/// The number in the low seven bits of each byte, the low ones first.
pub open spec fn groups_value(bytes: Seq<u8>) -> nat
    decreases bytes.len(),
{
    if bytes.len() == 0 {
        0
    } else {
        bytes[0] as nat % 128 + 128 * groups_value(bytes.skip(1))
    }
}

/// 128 to the power of `k`.
pub open spec fn scale(k: nat) -> nat
    decreases k,
{
    if k == 0 {
        1
    } else {
        128 * scale((k - 1) as nat)
    }
}

/// Whether every byte announces another.
pub open spec fn unfinished(bytes: Seq<u8>) -> bool {
    forall|i: int| 0 <= i < bytes.len() ==> #[trigger] bytes[i] >= 128
}

/// What there is to read of a length.
#[derive(Clone, Copy, Debug, PartialEq, Eq, Structural)]
pub enum LengthStep {
    /// The last byte announced another.
    More,
    Done(u64),
    TooLong,
}

/// Reads a length one byte at a time.
pub struct LengthReader {
    value: u64,
    count: u32,
    weight: u64,
    read: Ghost<Seq<u8>>,
}

proof fn lemma_groups_snoc(bytes: Seq<u8>, b: u8)
    ensures
        groups_value(bytes.push(b)) == groups_value(bytes) + scale(bytes.len()) * (b as nat % 128),
    decreases bytes.len(),
{
    if bytes.len() == 0 {
        assert(bytes.push(b).skip(1) =~= Seq::<u8>::empty());
        assert(groups_value(bytes.push(b)) == b as nat % 128 + 128 * groups_value(Seq::<u8>::empty()));
        let (one, x) = (scale(0), b as nat % 128);
        assert(one * x == x) by (nonlinear_arith)
            requires
                one == 1,
        ;
    } else {
        assert(bytes.push(b).skip(1) =~= bytes.skip(1).push(b));
        lemma_groups_snoc(bytes.skip(1), b);
        let x = b as nat % 128;
        let s = scale((bytes.len() - 1) as nat);
        assert(128 * (s * x) == (128 * s) * x) by (nonlinear_arith);
    }
}

proof fn lemma_groups_bound(bytes: Seq<u8>)
    ensures
        groups_value(bytes) < scale(bytes.len()),
    decreases bytes.len(),
{
    if bytes.len() > 0 {
        lemma_groups_bound(bytes.skip(1));
    }
}

proof fn lemma_scales()
    ensures
        scale(0) == 1,
        scale(1) == 0x80,
        scale(2) == 0x4000,
        scale(3) == 0x20_0000,
        scale(4) == 0x1000_0000,
        scale(5) == 0x8_0000_0000,
        scale(6) == 0x400_0000_0000,
        scale(7) == 0x2_0000_0000_0000,
        scale(8) == 0x100_0000_0000_0000,
        scale(9) == 0x8000_0000_0000_0000,
        scale(10) == 0x40_0000_0000_0000_0000,
{
    reveal_with_fuel(scale, 12);
}

impl LengthReader {
    /// The bytes that were read.
    pub closed spec fn bytes(self) -> Seq<u8> {
        self.read@
    }

    /// Whether the reader holds what its bytes say.
    pub closed spec fn wf(self) -> bool {
        &&& self.count == self.read@.len()
        &&& self.count < 10
        &&& unfinished(self.read@)
        &&& self.value == groups_value(self.read@)
        &&& self.weight == scale(self.count as nat)
    }

    pub fn new() -> (r: Self)
        ensures
            r.wf(),
            r.bytes() == Seq::<u8>::empty(),
    {
        LengthReader { value: 0, count: 0, weight: 1, read: Ghost(Seq::empty()) }
    }

    /// Takes in the next byte. A length has ten bytes at most, and only what
    /// fits in 64 bits of it counts.
    pub fn feed(&mut self, byte: u8) -> (r: LengthStep)
        requires
            old(self).wf(),
        ensures
            ({
                let bytes = old(self).bytes().push(byte);
                &&& final(self).bytes() == bytes
                &&& r == if byte < 128 {
                    LengthStep::Done((groups_value(bytes) % 0x1_0000_0000_0000_0000) as u64)
                } else if bytes.len() >= 10 {
                    LengthStep::TooLong
                } else {
                    LengthStep::More
                }
                &&& r is More ==> final(self).wf()
            }),
    {
        let ghost before = self.read@;
        let ghost bytes = before.push(byte);
        let low = (byte % 128) as u64;
        proof {
            lemma_groups_snoc(before, byte);
            lemma_groups_bound(before);
            lemma_scales();
        }
        self.read = Ghost(self.read@.push(byte));
        if self.count == 9 {
            // Of the tenth byte one bit is left.
            let part = (low % 2) * 0x8000_0000_0000_0000;
            if byte < 128 {
                let value = self.value + part;
                assert(groups_value(bytes) == groups_value(before) + 0x8000_0000_0000_0000 * (
                byte as nat));
                assert(value == groups_value(bytes) % 0x1_0000_0000_0000_0000);
                return LengthStep::Done(value);
            }
            return LengthStep::TooLong;
        }
        let w = self.weight;
        assert(w <= 0x100_0000_0000_0000);
        assert(low * w <= 127 * w) by (nonlinear_arith)
            requires
                low < 128,
        ;
        assert(w * low == low * w) by (nonlinear_arith);
        let value = self.value + low * w;
        assert(value == groups_value(bytes));
        if byte < 128 {
            return LengthStep::Done(value);
        }
        self.value = value;
        self.count = self.count + 1;
        self.weight = w * 128;
        LengthStep::More
    }

    /// Whether the stream may end here: only before the first byte.
    pub fn at_boundary(&self) -> (r: bool)
        requires
            self.wf(),
        ensures
            r == (self.bytes().len() == 0),
    {
        self.count == 0
    }
}

// ---- Frames ---------------------------------------------------------------------

/// Why a frame could not be read.
#[derive(Clone, Copy, Debug, PartialEq, Eq, Structural)]
pub enum FrameError {
    TooLarge(u64),
    EndInLength,
    LengthTooLong,
    ShortBody,
}

impl FrameError {
    pub open spec fn text(self) -> Seq<char> {
        match self {
            FrameError::TooLarge(len) => "frame of "@ +
                dec(len as nat) +
                " bytes exceeds the "@ +
                dec(MAX_FRAME_BYTES as nat) +
                " byte limit"@,
            FrameError::EndInLength => "EOF in the middle of a frame length varint"@,
            FrameError::LengthTooLong => "frame length varint is too long"@,
            FrameError::ShortBody => "short read on frame body"@,
        }
    }

    pub fn message(&self) -> (r: String)
        ensures
            r@ == self.text(),
    {
        match self {
            FrameError::TooLarge(len) => {
                let a = dec_string(*len);
                let b = dec_string(MAX_FRAME_BYTES as u64);
                String::from_str("frame of ")
                    .concat(a.as_str())
                    .concat(" bytes exceeds the ")
                    .concat(b.as_str())
                    .concat(" byte limit")
            },
            FrameError::EndInLength => String::from_str("EOF in the middle of a frame length varint"),
            FrameError::LengthTooLong => String::from_str("frame length varint is too long"),
            FrameError::ShortBody => String::from_str("short read on frame body"),
        }
    }
}

/// The size of the body that a length announces, unless it is absurd.
pub fn body_size(length: u64) -> (r: Result<usize, FrameError>)
    ensures
        r == if length > MAX_FRAME_BYTES {
            Err::<usize, FrameError>(FrameError::TooLarge(length))
        } else {
            Ok(length as usize)
        },
{
    if length > MAX_FRAME_BYTES as u64 {
        Err(FrameError::TooLarge(length))
    } else {
        Ok(length as usize)
    }
}

/// How many bytes the length at the front of a stream has: up to and including
/// the first that announces no other.
pub open spec fn length_bytes(stream: Seq<u8>) -> nat
    decreases stream.len(),
{
    if stream.len() == 0 {
        0
    } else if stream[0] < 128 {
        1
    } else {
        1 + length_bytes(stream.skip(1))
    }
}

/// What there is to read at the front of a stream.
#[verifier::ext_equal]
pub enum FrameSaid {
    /// A clean end between frames.
    End,
    /// A frame with a body, and the place behind it.
    Frame { body: Seq<u8>, next: int },
    Failed(FrameError),
}

/// The frame at the front of a stream that ends after these bytes.
pub open spec fn frame_at_front(stream: Seq<u8>) -> FrameSaid {
    let n = length_bytes(stream);
    let complete = n > 0 && stream[n - 1] < 128;
    let length = groups_value(stream.take(n as int)) % 0x1_0000_0000_0000_0000;
    if stream.len() == 0 {
        FrameSaid::End
    } else if n > 10 || (n == 10 && !complete) {
        FrameSaid::Failed(FrameError::LengthTooLong)
    } else if !complete {
        FrameSaid::Failed(FrameError::EndInLength)
    } else if length > MAX_FRAME_BYTES {
        FrameSaid::Failed(FrameError::TooLarge(length as u64))
    } else if stream.len() < n + length {
        FrameSaid::Failed(FrameError::ShortBody)
    } else {
        FrameSaid::Frame {
            body: stream.subrange(n as int, (n + length) as int),
            next: (n + length) as int,
        }
    }
}

/// A frame that was read, and the place behind it.
pub struct FrameRead {
    pub body: Vec<u8>,
    pub next: usize,
}

proof fn lemma_length_bytes_ahead(stream: Seq<u8>, i: int)
    requires
        0 <= i <= stream.len(),
        unfinished(stream.take(i)),
    ensures
        length_bytes(stream) == i + length_bytes(stream.skip(i)),
        length_bytes(stream) <= stream.len(),
    decreases i,
{
    if i == 0 {
        assert(stream.skip(0) =~= stream);
        lemma_length_bytes_bound(stream);
    } else {
        assert(stream.take(i)[0] == stream[0]);
        let rest = stream.skip(1);
        assert forall|k: int| 0 <= k < i - 1 implies #[trigger] rest.take(i - 1)[k] >= 128 by {
            assert(stream.take(i)[k + 1] == rest.take(i - 1)[k]);
        }
        lemma_length_bytes_ahead(rest, i - 1);
        assert(rest.skip(i - 1) =~= stream.skip(i));
    }
}

proof fn lemma_length_bytes_bound(stream: Seq<u8>)
    ensures
        length_bytes(stream) <= stream.len(),
        stream.len() > 0 ==> length_bytes(stream) > 0,
        forall|i: int| 0 <= i < length_bytes(stream) - 1 ==> #[trigger] stream[i] >= 128,
        length_bytes(stream) < stream.len() ==> stream[length_bytes(stream) - 1] < 128,
    decreases stream.len(),
{
    if stream.len() > 0 && stream[0] >= 128 {
        let rest = stream.skip(1);
        lemma_length_bytes_bound(rest);
        assert forall|i: int| 0 <= i < length_bytes(stream) - 1 implies #[trigger] stream[i] >= 128 by {
            if i > 0 {
                assert(rest[i - 1] == stream[i]);
            }
        }
        if length_bytes(stream) < stream.len() {
            if rest.len() > 0 {
                assert(rest[length_bytes(rest) - 1] == stream[length_bytes(stream) - 1]);
            }
        }
    }
}

/// Reads one length-delimited frame from a stream, from a place on. Nothing is
/// left to read on a clean end at a frame boundary, which is how a client
/// signals it is done.
pub fn read_frame(stream: &[u8], at: usize) -> (r: Result<Option<FrameRead>, FrameError>)
    requires
        at <= stream@.len(),
    ensures
        match frame_at_front(stream@.skip(at as int)) {
            FrameSaid::End => r == Ok::<Option<FrameRead>, FrameError>(None),
            FrameSaid::Frame { body, next } => r matches Ok(Some(f)) && f.body@ == body && f.next == at
                + next,
            FrameSaid::Failed(e) => r == Err::<Option<FrameRead>, FrameError>(e),
        },
{
    let ghost rest = stream@.skip(at as int);
    let total = stream.len();
    let mut reader = LengthReader::new();
    let mut i = at;
    assert(rest.take(0) =~= Seq::<u8>::empty());
    proof {
        lemma_length_bytes_bound(rest);
    }
    while i < total
        invariant
            at <= i <= total,
            total == stream@.len(),
            rest == stream@.skip(at as int),
            reader.wf(),
            reader.bytes() == rest.take(i - at),
            unfinished(rest.take(i - at)),
            i - at < 10,
        decreases total - i,
    {
        let ghost k = i - at;
        let byte = stream[i];
        assert(rest[k] == byte);
        assert(rest.take(k).push(byte) =~= rest.take(k + 1));
        proof {
            lemma_length_bytes_ahead(rest, k);
            assert(rest.skip(k)[0] == byte);
        }
        let step = reader.feed(byte);
        i += 1;
        match step {
            LengthStep::More => {
                assert forall|m: int| 0 <= m < k + 1 implies #[trigger] rest.take(k + 1)[m] >= 128 by {
                    if m < k {
                        assert(rest.take(k)[m] == rest.take(k + 1)[m]);
                    }
                }
            },
            LengthStep::TooLong => {
                proof {
                    assert(k == 9);
                    assert(length_bytes(rest) >= 10);
                    if length_bytes(rest) == 10 {
                        assert(rest[9] >= 128);
                    }
                }
                return Err(FrameError::LengthTooLong);
            },
            LengthStep::Done(length) => {
                assert(length_bytes(rest) == k + 1);
                let size = match body_size(length) {
                    Ok(size) => size,
                    Err(e) => {
                        return Err(e);
                    },
                };
                if total - i < size {
                    return Err(FrameError::ShortBody);
                }
                let mut body: Vec<u8> = Vec::new();
                let end = i + size;
                let start = i;
                while i < end
                    invariant
                        start <= i <= end <= stream@.len(),
                        body@ == stream@.subrange(start as int, i as int),
                    decreases end - i,
                {
                    body.push(stream[i]);
                    i += 1;
                    assert(body@ =~= stream@.subrange(start as int, i as int));
                }
                assert(body@ =~= rest.subrange(k + 1, k + 1 + size));
                return Ok(Some(FrameRead { body, next: end }));
            },
        }
    }
    proof {
        if rest.len() > 0 {
            lemma_length_bytes_ahead(rest, rest.len() as int);
            assert(rest.take(rest.len() as int)[rest.len() - 1] >= 128);
        }
    }
    if reader.at_boundary() {
        Ok(None)
    } else {
        Err(FrameError::EndInLength)
    }
}

/// The bytes of one length-delimited frame.
pub fn write_frame(body: &[u8]) -> (r: Vec<u8>)
    ensures
        r@ == varint(body@.len()) + body@,
{
    let mut frame = length_delimiter(body.len());
    push_bytes(&mut frame, body);
    frame
}

proof fn lemma_varint(n: nat, tail: Seq<u8>)
    ensures
        varint(n).len() > 0,
        length_bytes(varint(n) + tail) == varint(n).len(),
        varint(n).last() < 128,
        groups_value(varint(n)) == n,
        forall|k: nat| #![trigger scale(k)] k > 0 && n < scale(k) ==> varint(n).len() <= k,
    decreases n,
{
    let v = varint(n);
    let s = v + tail;
    assert(s[0] == v[0]);
    if n < 128 {
        assert(v.skip(1) =~= Seq::<u8>::empty());
        assert(groups_value(v.skip(1)) == 0);
    } else {
        lemma_varint(n / 128, tail);
        assert(v.skip(1) =~= varint(n / 128));
        assert(s.skip(1) =~= varint(n / 128) + tail);
        assert(v[0] as nat % 128 == n % 128);
        assert forall|k: nat| #![trigger scale(k)] k > 0 && n < scale(k) implies varint(n).len() <= k by {
            if k == 1 {
                assert(scale(1) == 128) by {
                    lemma_scales();
                }
            } else {
                assert(scale(k) == 128 * scale((k - 1) as nat));
                assert(n / 128 < scale((k - 1) as nat));
            }
        }
    }
}

/// Reading gives back what was written: of a stream that starts with a frame,
/// the frame's body, and the place where what follows it begins. Only a body
/// over the limit is refused.
pub proof fn law_read_gives_back_what_was_written(body: Seq<u8>, tail: Seq<u8>)
    ensures
        ({
            let frame = varint(body.len()) + body;
            body.len() <= MAX_FRAME_BYTES ==> frame_at_front(frame + tail) == (FrameSaid::Frame {
                body,
                next: frame.len() as int,
            }) && (frame + tail).skip(frame.len() as int) == tail
        }),
{
    let n = body.len();
    if n <= MAX_FRAME_BYTES {
        let v = varint(n);
        let frame = v + body;
        let stream = frame + tail;
        assert(stream =~= v + (body + tail));
        lemma_varint(n, body + tail);
        lemma_scales();
        assert(v.len() <= 4);
        assert(stream.take(v.len() as int) =~= v);
        assert(stream[v.len() - 1] == v.last());
        assert(stream.subrange(v.len() as int, (v.len() + n) as int) =~= body);
        assert(stream.skip(frame.len() as int) =~= tail);
    }
}

/// A stream that ends at a frame boundary ends cleanly, and one that is cut
/// inside a frame does not.
pub proof fn law_only_a_boundary_is_a_clean_end(body: Seq<u8>, cut: int)
    requires
        body.len() <= MAX_FRAME_BYTES,
        0 < cut < varint(body.len()).len() + body.len(),
    ensures
        frame_at_front(Seq::empty()) is End,
        frame_at_front((varint(body.len()) + body).take(cut)) is Failed,
{
    let n = body.len();
    let v = varint(n);
    let stream = (v + body).take(cut);
    lemma_varint(n, body);
    lemma_scales();
    assert(v.len() <= 4);
    lemma_length_bytes_bound(stream);
    if cut < v.len() {
        lemma_varint_unfinished(n);
        assert forall|i: int| 0 <= i < cut implies #[trigger] stream[i] >= 128 by {
            assert(stream[i] == v[i]);
        }
        assert(stream.take(cut) =~= stream);
        lemma_length_bytes_ahead(stream, cut);
        assert(length_bytes(stream.skip(cut)) == 0);
    } else {
        lemma_varint(n, body.take(cut - v.len()));
        assert(stream =~= v + body.take(cut - v.len()));
        assert(stream.take(v.len() as int) =~= v);
        assert(stream[v.len() - 1] == v.last());
    }
}

proof fn lemma_varint_unfinished(n: nat)
    ensures
        forall|i: int| 0 <= i < varint(n).len() - 1 ==> #[trigger] varint(n)[i] >= 128,
    decreases n,
{
    if n >= 128 {
        lemma_varint_unfinished(n / 128);
        assert forall|i: int| 0 <= i < varint(n).len() - 1 implies #[trigger] varint(n)[i] >= 128 by {
            if i > 0 {
                assert(varint(n)[i] == varint(n / 128)[i - 1]);
            }
        }
    }
}

} // verus!
