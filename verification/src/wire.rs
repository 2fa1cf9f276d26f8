//! How datums travel: one frame each, a frame being the length of its body in
//! four bytes and then the body.
//!
//! All numbers are big-endian. A body starts with one byte for the kind: 0
//! for a dummy, 1 for a live frame. A live frame goes on with its level in
//! eight bytes. Then come the seconds of the timestamp in eight bytes (two's
//! complement), its milliseconds in four, and the payload, which takes the
//! rest of the body.

use vstd::prelude::*;
use vstd::slice::{slice_subrange, slice_to_vec};
use crate::server::{Datum, DatumType, DatumView, Timestamp};

verus! {

/// Why the body of a frame is not a datum.
#[derive(Debug, Clone, Copy, PartialEq, Eq, Structural)]
pub enum DecodeError {
    /// The body ends before the payload starts.
    Truncated,
    /// The first byte names no kind of datum.
    UnknownKind(u8),
}

/// The eight bytes of `x`, highest first.
pub open spec fn u64_bytes(x: u64) -> Seq<u8> {
    seq![
        (x >> 56) as u8,
        (x >> 48) as u8,
        (x >> 40) as u8,
        (x >> 32) as u8,
        (x >> 24) as u8,
        (x >> 16) as u8,
        (x >> 8) as u8,
        x as u8,
    ]
}

/// The number that the first eight bytes of `b` spell, highest first.
pub open spec fn u64_of(b: Seq<u8>) -> u64 {
    (b[0] as u64) << 56 | (b[1] as u64) << 48 | (b[2] as u64) << 40 | (b[3] as u64) << 32 | (
    b[4] as u64) << 24 | (b[5] as u64) << 16 | (b[6] as u64) << 8 | (b[7] as u64)
}

/// The four bytes of `x`, highest first.
pub open spec fn u32_bytes(x: u32) -> Seq<u8> {
    seq![(x >> 24) as u8, (x >> 16) as u8, (x >> 8) as u8, x as u8]
}

/// The number that the first four bytes of `b` spell, highest first.
pub open spec fn u32_of(b: Seq<u8>) -> u32 {
    (b[0] as u32) << 24 | (b[1] as u32) << 16 | (b[2] as u32) << 8 | (b[3] as u32)
}

/// The timestamp in twelve bytes.
pub open spec fn timestamp_bytes(ts: Timestamp) -> Seq<u8> {
    u64_bytes(ts.secs as u64) + u32_bytes(ts.millis)
}

/// The timestamp that the first twelve bytes of `b` spell.
pub open spec fn timestamp_of(b: Seq<u8>) -> Timestamp {
    Timestamp { secs: u64_of(b) as i64, millis: u32_of(b.skip(8)) }
}

/// The body of the frame that carries `d`.
pub open spec fn encoded(d: DatumView) -> Seq<u8> {
    match d.datum_type {
        DatumType::Dummy => seq![0u8] + timestamp_bytes(d.ts) + d.payload,
        DatumType::Live(level) => seq![1u8] + u64_bytes(level) + timestamp_bytes(d.ts)
            + d.payload,
    }
}

/// The datum that a body carries, or why it carries none.
pub open spec fn decoded(b: Seq<u8>) -> Result<DatumView, DecodeError> {
    if b.len() == 0 {
        Err(DecodeError::Truncated)
    } else if b[0] == 0 {
        if b.len() < 13 {
            Err(DecodeError::Truncated)
        } else {
            Ok(
                DatumView {
                    datum_type: DatumType::Dummy,
                    ts: timestamp_of(b.skip(1)),
                    payload: b.skip(13),
                },
            )
        }
    } else if b[0] == 1 {
        if b.len() < 21 {
            Err(DecodeError::Truncated)
        } else {
            Ok(
                DatumView {
                    datum_type: DatumType::Live(u64_of(b.skip(1))),
                    ts: timestamp_of(b.skip(9)),
                    payload: b.skip(21),
                },
            )
        }
    } else {
        Err(DecodeError::UnknownKind(b[0]))
    }
}

proof fn lemma_u64_round_trip(x: u64)
    ensures
        u64_of(u64_bytes(x)) == x,
{
    assert((((x >> 56) as u8) as u64) << 56 | (((x >> 48) as u8) as u64) << 48 | (((x >> 40) as u8)
        as u64) << 40 | (((x >> 32) as u8) as u64) << 32 | (((x >> 24) as u8) as u64) << 24 | (((x
        >> 16) as u8) as u64) << 16 | (((x >> 8) as u8) as u64) << 8 | ((x as u8) as u64) == x)
        by (bit_vector);
}

proof fn lemma_u64_bytes_of(b: Seq<u8>)
    requires
        b.len() >= 8,
    ensures
        u64_bytes(u64_of(b)) == b.take(8),
{
    let (b0, b1, b2, b3, b4, b5, b6, b7) = (b[0], b[1], b[2], b[3], b[4], b[5], b[6], b[7]);
    let x = u64_of(b);
    assert(x == (b0 as u64) << 56 | (b1 as u64) << 48 | (b2 as u64) << 40 | (b3 as u64) << 32 | (b4
        as u64) << 24 | (b5 as u64) << 16 | (b6 as u64) << 8 | (b7 as u64));
    assert((x >> 56) as u8 == b0 && (x >> 48) as u8 == b1 && (x >> 40) as u8 == b2 && (x >> 32)
        as u8 == b3 && (x >> 24) as u8 == b4 && (x >> 16) as u8 == b5 && (x >> 8) as u8 == b6 && x
        as u8 == b7) by (bit_vector)
        requires
            x == (b0 as u64) << 56 | (b1 as u64) << 48 | (b2 as u64) << 40 | (b3 as u64) << 32 | (b4
                as u64) << 24 | (b5 as u64) << 16 | (b6 as u64) << 8 | (b7 as u64),
    ;
    assert(u64_bytes(x) =~= b.take(8));
}

proof fn lemma_u32_round_trip(x: u32)
    ensures
        u32_of(u32_bytes(x)) == x,
{
    assert((((x >> 24) as u8) as u32) << 24 | (((x >> 16) as u8) as u32) << 16 | (((x >> 8) as u8)
        as u32) << 8 | ((x as u8) as u32) == x) by (bit_vector);
}

proof fn lemma_u32_bytes_of(b: Seq<u8>)
    requires
        b.len() >= 4,
    ensures
        u32_bytes(u32_of(b)) == b.take(4),
{
    let (b0, b1, b2, b3) = (b[0], b[1], b[2], b[3]);
    let x = u32_of(b);
    assert(x == (b0 as u32) << 24 | (b1 as u32) << 16 | (b2 as u32) << 8 | (b3 as u32));
    assert((x >> 24) as u8 == b0 && (x >> 16) as u8 == b1 && (x >> 8) as u8 == b2 && x as u8
        == b3) by (bit_vector)
        requires
            x == (b0 as u32) << 24 | (b1 as u32) << 16 | (b2 as u32) << 8 | (b3 as u32),
    ;
    assert(u32_bytes(x) =~= b.take(4));
}

proof fn lemma_u64_of_prefix(head: Seq<u8>, tail: Seq<u8>)
    requires
        head.len() >= 8,
    ensures
        u64_of(head + tail) == u64_of(head),
{
    let whole = head + tail;
    assert(whole[0] == head[0] && whole[1] == head[1] && whole[2] == head[2] && whole[3]
        == head[3]);
    assert(whole[4] == head[4] && whole[5] == head[5] && whole[6] == head[6] && whole[7]
        == head[7]);
}

proof fn lemma_u32_of_prefix(head: Seq<u8>, tail: Seq<u8>)
    requires
        head.len() >= 4,
    ensures
        u32_of(head + tail) == u32_of(head),
{
    let whole = head + tail;
    assert(whole[0] == head[0] && whole[1] == head[1] && whole[2] == head[2] && whole[3]
        == head[3]);
}

proof fn lemma_timestamp_of_prefix(head: Seq<u8>, tail: Seq<u8>)
    requires
        head.len() >= 12,
    ensures
        timestamp_of(head + tail) == timestamp_of(head),
{
    lemma_u64_of_prefix(head, tail);
    assert((head + tail).skip(8) =~= head.skip(8) + tail);
    lemma_u32_of_prefix(head.skip(8), tail);
}

proof fn lemma_timestamp_round_trip(ts: Timestamp)
    ensures
        timestamp_bytes(ts).len() == 12,
        timestamp_of(timestamp_bytes(ts)) == ts,
{
    let secs = ts.secs;
    let high = u64_bytes(secs as u64);
    let low = u32_bytes(ts.millis);
    lemma_u64_round_trip(secs as u64);
    lemma_u32_round_trip(ts.millis);
    assert((secs as u64) as i64 == secs) by (bit_vector);
    lemma_u64_of_prefix(high, low);
    assert((high + low).skip(8) =~= low);
}

proof fn lemma_timestamp_bytes_of(b: Seq<u8>)
    requires
        b.len() >= 12,
    ensures
        timestamp_bytes(timestamp_of(b)) == b.take(12),
{
    let x = u64_of(b);
    lemma_u64_bytes_of(b);
    lemma_u32_bytes_of(b.skip(8));
    assert((x as i64) as u64 == x) by (bit_vector);
    assert(b.take(8) + b.skip(8).take(4) =~= b.take(12));
}

/// What is written can be read back: the body that carries a datum decodes
/// to that datum.
pub proof fn law_decode_encode(d: DatumView)
    ensures
        decoded(encoded(d)) == Ok::<DatumView, DecodeError>(d),
{
    let b = encoded(d);
    let stamp = timestamp_bytes(d.ts);
    lemma_timestamp_round_trip(d.ts);
    lemma_timestamp_of_prefix(stamp, d.payload);
    match d.datum_type {
        DatumType::Dummy => {
            assert(b.skip(1) =~= stamp + d.payload);
            assert(b.skip(13) =~= d.payload);
        },
        DatumType::Live(level) => {
            let rung = u64_bytes(level);
            lemma_u64_round_trip(level);
            lemma_u64_of_prefix(rung, stamp + d.payload);
            assert(b.skip(1) =~= rung + (stamp + d.payload));
            assert(b.skip(9) =~= stamp + d.payload);
            assert(b.skip(21) =~= d.payload);
        },
    }
}

/// A datum has one body only: whatever decodes to a datum is the body that
/// carries it.
pub proof fn law_encode_decode(b: Seq<u8>)
    requires
        decoded(b).is_ok(),
    ensures
        encoded(decoded(b).unwrap()) == b,
{
    let d = decoded(b).unwrap();
    if b[0] == 0 {
        lemma_timestamp_bytes_of(b.skip(1));
        assert(seq![0u8] + b.skip(1).take(12) + b.skip(13) =~= b);
    } else {
        lemma_u64_bytes_of(b.skip(1));
        lemma_timestamp_bytes_of(b.skip(9));
        assert(seq![1u8] + b.skip(1).take(8) + b.skip(9).take(12) + b.skip(21) =~= b);
    }
}

fn push_u64(out: &mut Vec<u8>, x: u64)
    ensures
        final(out)@ == old(out)@ + u64_bytes(x),
{
    out.push(#[verifier::truncate] ((x >> 56) as u8));
    out.push(#[verifier::truncate] ((x >> 48) as u8));
    out.push(#[verifier::truncate] ((x >> 40) as u8));
    out.push(#[verifier::truncate] ((x >> 32) as u8));
    out.push(#[verifier::truncate] ((x >> 24) as u8));
    out.push(#[verifier::truncate] ((x >> 16) as u8));
    out.push(#[verifier::truncate] ((x >> 8) as u8));
    out.push(#[verifier::truncate] (x as u8));
    assert(out@ =~= old(out)@ + u64_bytes(x));
}

fn push_u32(out: &mut Vec<u8>, x: u32)
    ensures
        final(out)@ == old(out)@ + u32_bytes(x),
{
    out.push(#[verifier::truncate] ((x >> 24) as u8));
    out.push(#[verifier::truncate] ((x >> 16) as u8));
    out.push(#[verifier::truncate] ((x >> 8) as u8));
    out.push(#[verifier::truncate] (x as u8));
    assert(out@ =~= old(out)@ + u32_bytes(x));
}

fn read_u64(b: &[u8], at: usize) -> (x: u64)
    requires
        at + 8 <= b.len(),
    ensures
        x == u64_of(b@.skip(at as int)),
{
    (b[at] as u64) << 56 | (b[at + 1] as u64) << 48 | (b[at + 2] as u64) << 40 | (b[at + 3] as u64)
        << 32 | (b[at + 4] as u64) << 24 | (b[at + 5] as u64) << 16 | (b[at + 6] as u64) << 8 | (
    b[at + 7] as u64)
}

fn read_u32(b: &[u8], at: usize) -> (x: u32)
    requires
        at + 4 <= b.len(),
    ensures
        x == u32_of(b@.skip(at as int)),
{
    (b[at] as u32) << 24 | (b[at + 1] as u32) << 16 | (b[at + 2] as u32) << 8 | (b[at + 3] as u32)
}

fn read_timestamp(b: &[u8], at: usize) -> (ts: Timestamp)
    requires
        at + 12 <= b.len(),
    ensures
        ts == timestamp_of(b@.skip(at as int)),
{
    let secs = #[verifier::truncate] (read_u64(b, at) as i64);
    let millis = read_u32(b, at + 8);
    assert(b@.skip(at as int).skip(8) =~= b@.skip(at + 8));
    Timestamp { secs, millis }
}

impl Datum {
    /// The body of the frame that carries this datum.
    pub fn encode(&self) -> (body: Vec<u8>)
        ensures
            body@ == encoded(self@),
    {
        let mut body: Vec<u8> = Vec::new();
        match self.datum_type {
            DatumType::Dummy => {
                body.push(0u8);
            },
            DatumType::Live(level) => {
                body.push(1u8);
                push_u64(&mut body, level);
            },
        }
        push_u64(&mut body, #[verifier::truncate] (self.ts.secs as u64));
        push_u32(&mut body, self.ts.millis);
        let ghost head = body@;
        let mut i: usize = 0;
        while i < self.payload.len()
            invariant
                0 <= i <= self.payload.len(),
                body@ == head + self.payload@.take(i as int),
            decreases self.payload.len() - i,
        {
            body.push(self.payload[i]);
            assert(body@ =~= head + self.payload@.take(i + 1));
            i += 1;
        }
        assert(self.payload@.take(self.payload@.len() as int) == self.payload@);
        assert(body@ =~= encoded(self@));
        body
    }

    /// Reads a datum from the body of a frame.
    pub fn decode(body: &[u8]) -> (r: Result<Datum, DecodeError>)
        ensures
            match r {
                Ok(d) => decoded(body@) == Ok::<DatumView, DecodeError>(d@),
                Err(e) => decoded(body@) == Err::<DatumView, DecodeError>(e),
            },
    {
        if body.len() == 0 {
            return Err(DecodeError::Truncated);
        }
        let kind = body[0];
        if kind == 0 {
            if body.len() < 13 {
                return Err(DecodeError::Truncated);
            }
            let ts = read_timestamp(body, 1);
            let payload = slice_to_vec(slice_subrange(body, 13, body.len()));
            assert(payload@ =~= body@.skip(13));
            Ok(Datum { datum_type: DatumType::Dummy, ts, payload })
        } else if kind == 1 {
            if body.len() < 21 {
                return Err(DecodeError::Truncated);
            }
            let level = read_u64(body, 1);
            let ts = read_timestamp(body, 9);
            let payload = slice_to_vec(slice_subrange(body, 21, body.len()));
            assert(payload@ =~= body@.skip(21));
            Ok(Datum { datum_type: DatumType::Live(level), ts, payload })
        } else {
            Err(DecodeError::UnknownKind(kind))
        }
    }
}

/// The frame around `body`: its length in four bytes, then the body itself.
pub open spec fn framed(body: Seq<u8>) -> Seq<u8> {
    u32_bytes(body.len() as u32) + body
}

/// Where the first frame of `buf` ends, if all of it has arrived.
pub open spec fn first_frame_end(buf: Seq<u8>) -> Option<int> {
    if buf.len() >= 4 && buf.len() >= 4 + u32_of(buf) {
        Some(4 + u32_of(buf))
    } else {
        None
    }
}

/// Puts `body` into a frame. A body too long for its length to be written in
/// four bytes cannot be framed.
pub fn frame(body: &[u8]) -> (r: Option<Vec<u8>>)
    ensures
        r.is_some() <==> body@.len() <= u32::MAX,
        r matches Some(bytes) ==> bytes@ == framed(body@),
{
    if body.len() > u32::MAX as usize {
        return None;
    }
    let mut bytes: Vec<u8> = Vec::new();
    push_u32(&mut bytes, body.len() as u32);
    let ghost head = bytes@;
    let mut i: usize = 0;
    while i < body.len()
        invariant
            0 <= i <= body.len(),
            bytes@ == head + body@.take(i as int),
        decreases body.len() - i,
    {
        bytes.push(body[i]);
        assert(bytes@ =~= head + body@.take(i + 1));
        i += 1;
    }
    assert(body@.take(body@.len() as int) == body@);
    Some(bytes)
}

/// Looks for the first frame in what has arrived so far. Where all of it is
/// there, returns the index at which it ends: its body lies between index 4
/// and that one. Where more bytes have to come first, returns nothing.
pub fn frame_end(buf: &[u8]) -> (r: Option<usize>)
    ensures
        r matches Some(end) ==> first_frame_end(buf@) == Some(end as int) && 4 <= end <= buf.len(),
        r.is_none() ==> first_frame_end(buf@).is_none(),
{
    if buf.len() < 4 {
        return None;
    }
    let len = read_u32(buf, 0) as usize;
    assert(buf@.skip(0) =~= buf@);
    if buf.len() - 4 < len {
        return None;
    }
    Some(4 + len)
}

proof fn lemma_frame_length(body: Seq<u8>, rest: Seq<u8>)
    requires
        body.len() <= u32::MAX,
    ensures
        u32_of(framed(body) + rest) == body.len(),
{
    let head = u32_bytes(body.len() as u32);
    lemma_u32_round_trip(body.len() as u32);
    lemma_u32_of_prefix(head, body + rest);
    assert(framed(body) + rest =~= head + (body + rest));
}

proof fn lemma_frame_body(body: Seq<u8>, rest: Seq<u8>)
    ensures
        (framed(body) + rest).len() == 4 + body.len() + rest.len(),
        (framed(body) + rest).subrange(4, 4 + body.len() as int) == body,
{
    assert(framed(body).len() == 4 + body.len());
    assert((framed(body) + rest).subrange(4, 4 + body.len() as int) =~= body);
}

/// The first frame of a stream that starts with the frame around `body` ends
/// where that frame ends, whatever follows, and holds that body.
pub proof fn law_frame_found(body: Seq<u8>, rest: Seq<u8>)
    requires
        body.len() <= u32::MAX,
    ensures
        first_frame_end(framed(body) + rest) == Some(4 + body.len() as int),
        (framed(body) + rest).subrange(4, 4 + body.len() as int) == body,
{
    lemma_frame_length(body, rest);
    lemma_frame_body(body, rest);
}

} // verus!
