use vstd::bytes::*;
use vstd::prelude::*;

verus! {

/// The 8-byte little-endian header that precedes a payload of `len` bytes.
pub open spec fn header_bytes(len: u64) -> Seq<u8> {
    spec_u64_to_le_bytes(len)
}

/// The full wire form of one frame: the header holding the payload's length,
/// then the payload itself.
pub open spec fn frame_of(payload: Seq<u8>) -> Seq<u8>
    recommends
        payload.len() <= u64::MAX,
{
    header_bytes(payload.len() as u64) + payload
}

/// The payload length declared by the header that starts at `pos`.
pub open spec fn header_len_at(s: Seq<u8>, pos: int) -> u64
    recommends
        0 <= pos,
        pos + 8 <= s.len(),
{
    spec_u64_from_le_bytes(s.subrange(pos, pos + 8))
}

/// Whether one whole frame — a full header and as many payload bytes as it
/// declares — lies at `pos` in `s`.
pub open spec fn has_frame_at(s: Seq<u8>, pos: int) -> bool {
    &&& 0 <= pos
    &&& pos + 8 <= s.len()
    &&& pos + 8 + header_len_at(s, pos) <= s.len()
}

/// The position just past the frame that starts at `pos`.
pub open spec fn frame_end_at(s: Seq<u8>, pos: int) -> int
    recommends
        0 <= pos,
        pos + 8 <= s.len(),
{
    pos + 8 + header_len_at(s, pos)
}

/// The payload of the frame that starts at `pos`.
pub open spec fn frame_payload_at(s: Seq<u8>, pos: int) -> Seq<u8>
    recommends
        has_frame_at(s, pos),
{
    s.subrange(pos + 8, frame_end_at(s, pos))
}

/// Every byte of the frame that starts at `pos`, header included.
pub open spec fn frame_bytes_at(s: Seq<u8>, pos: int) -> Seq<u8>
    recommends
        has_frame_at(s, pos),
{
    s.subrange(pos, frame_end_at(s, pos))
}

/// Builds the 8-byte little-endian header for a payload of `len` bytes.
pub fn encode_header(len: u64) -> (r: Vec<u8>)
    ensures
        r@ == header_bytes(len),
        r@.len() == 8,
{
    u64_to_le_bytes(len)
}

/// Reads the payload length declared by an 8-byte little-endian header.
pub fn decode_header(h: &[u8]) -> (r: u64)
    requires
        h@.len() == 8,
    ensures
        r == spec_u64_from_le_bytes(h@),
{
    u64_from_le_bytes(h)
}

/// Law: the wire form of a frame is exactly 8 bytes longer than its payload,
/// and its first 8 bytes decode, as a little-endian integer, to the
/// payload's length.
pub proof fn lemma_frame_length_exact(payload: Seq<u8>)
    requires
        payload.len() <= u64::MAX,
    ensures
        frame_of(payload).len() == 8 + payload.len(),
        spec_u64_from_le_bytes(frame_of(payload).subrange(0, 8)) == payload.len(),
{
    lemma_auto_spec_u64_to_from_le_bytes();
    assert(frame_of(payload).subrange(0, 8) =~= header_bytes(payload.len() as u64));
}

/// Law: a frame appended after `prefix` is found intact at `prefix.len()`,
/// whatever bytes follow it: its header declares the payload's length, its
/// payload reads back unchanged, and it spans exactly `8 + payload.len()`
/// bytes of the stream.
pub proof fn lemma_frame_at(prefix: Seq<u8>, payload: Seq<u8>, rest: Seq<u8>)
    requires
        payload.len() <= u64::MAX,
    ensures
        ({
            let s = prefix + frame_of(payload) + rest;
            let pos = prefix.len() as int;
            &&& has_frame_at(s, pos)
            &&& header_len_at(s, pos) == payload.len()
            &&& frame_payload_at(s, pos) == payload
            &&& frame_end_at(s, pos) == pos + 8 + payload.len()
            &&& frame_bytes_at(s, pos) == frame_of(payload)
        }),
{
    lemma_auto_spec_u64_to_from_le_bytes();
    let s = prefix + frame_of(payload) + rest;
    let pos = prefix.len() as int;
    assert(s.subrange(pos, pos + 8) =~= header_bytes(payload.len() as u64));
    assert(header_len_at(s, pos) == payload.len());
    assert(s.subrange(pos + 8, pos + 8 + payload.len() as int) =~= payload);
    assert(s.subrange(pos, pos + 8 + payload.len() as int) =~= frame_of(payload));
}

/// Law: writing a frame at the end of a stream and reading from where it was
/// written yields the same payload — the framing layer round-trips every
/// payload byte-for-byte, whatever the codec put in it.
pub proof fn lemma_frame_round_trip(stream: Seq<u8>, payload: Seq<u8>)
    requires
        payload.len() <= u64::MAX,
    ensures
        has_frame_at(stream + frame_of(payload), stream.len() as int),
        frame_payload_at(stream + frame_of(payload), stream.len() as int) == payload,
        frame_end_at(stream + frame_of(payload), stream.len() as int) == (stream
            + frame_of(payload)).len(),
{
    lemma_frame_at(stream, payload, Seq::empty());
    assert(stream + frame_of(payload) =~= stream + frame_of(payload) + Seq::<u8>::empty());
    lemma_frame_length_exact(payload);
}

/// Law: three payloads framed one after the other onto one stream are read
/// back as the same three payloads, in the same order, each read starting
/// exactly where the previous frame ended.
pub proof fn lemma_frame_concatenation(p1: Seq<u8>, p2: Seq<u8>, p3: Seq<u8>)
    requires
        p1.len() <= u64::MAX,
        p2.len() <= u64::MAX,
        p3.len() <= u64::MAX,
    ensures
        ({
            let s = frame_of(p1) + frame_of(p2) + frame_of(p3);
            let e1 = frame_end_at(s, 0);
            let e2 = frame_end_at(s, e1);
            &&& has_frame_at(s, 0) && frame_payload_at(s, 0) == p1
            &&& has_frame_at(s, e1) && frame_payload_at(s, e1) == p2
            &&& has_frame_at(s, e2) && frame_payload_at(s, e2) == p3
            &&& frame_end_at(s, e2) == s.len()
        }),
{
    lemma_auto_spec_u64_to_from_le_bytes();
    let s = frame_of(p1) + frame_of(p2) + frame_of(p3);
    assert(s =~= Seq::<u8>::empty() + frame_of(p1) + (frame_of(p2) + frame_of(p3)));
    lemma_frame_at(Seq::empty(), p1, frame_of(p2) + frame_of(p3));
    let e1 = frame_end_at(s, 0);
    assert(e1 == frame_of(p1).len());
    assert(s =~= frame_of(p1) + frame_of(p2) + frame_of(p3));
    lemma_frame_at(frame_of(p1), p2, frame_of(p3));
    let e2 = frame_end_at(s, e1);
    assert(e2 == (frame_of(p1) + frame_of(p2)).len());
    assert(s =~= (frame_of(p1) + frame_of(p2)) + frame_of(p3) + Seq::<u8>::empty());
    lemma_frame_at(frame_of(p1) + frame_of(p2), p3, Seq::empty());
}

/// Law: a frame found anywhere in a stream is itself the wire form of its
/// payload — relaying its bytes verbatim hands on exactly what framing the
/// payload anew would produce.
pub proof fn lemma_frame_bytes_are_wire_form(s: Seq<u8>, pos: int)
    requires
        has_frame_at(s, pos),
    ensures
        frame_bytes_at(s, pos) == frame_of(frame_payload_at(s, pos)),
{
    lemma_auto_spec_u64_to_from_le_bytes();
    let h = s.subrange(pos, pos + 8);
    let payload = frame_payload_at(s, pos);
    assert(spec_u64_to_le_bytes(spec_u64_from_le_bytes(h)) == h);
    assert(payload.len() as u64 == header_len_at(s, pos));
    assert(frame_of(payload) =~= h + payload);
    assert(frame_bytes_at(s, pos) =~= h + payload);
}

/// Law: a stream holding a full header that declares more payload bytes than
/// the stream still has does not contain a frame there — a read at that
/// position must fail rather than produce a value.
pub proof fn lemma_truncated_frame_rejected(s: Seq<u8>, pos: int)
    requires
        0 <= pos,
        pos + 8 <= s.len(),
        s.len() < pos + 8 + header_len_at(s, pos),
    ensures
        !has_frame_at(s, pos),
{
}

/// Law: a payload of no bytes frames as exactly the 8-byte header holding
/// the value zero, and nothing more.
pub proof fn lemma_empty_payload_frame()
    ensures
        frame_of(Seq::<u8>::empty()) == header_bytes(0),
        header_bytes(0).len() == 8,
{
    lemma_auto_spec_u64_to_from_le_bytes();
    assert(frame_of(Seq::<u8>::empty()) =~= header_bytes(0));
}

} // verus!
