//! The wire format: a 5-byte header (a type tag and a big-endian length)
//! followed by exactly that many payload bytes.
use vstd::prelude::*;

verus! {

/// Bytes in a frame header: one tag byte and four length bytes.
pub const HEADER_LEN: usize = 5;

/// The image encoding that a frame's type tag announces.
#[derive(Debug, Clone, Copy, PartialEq, Eq, Structural)]
pub enum MediaType {
    Png,
    Jpeg,
    Webp,
}

/// The fixed tag table: 2 is JPEG, 3 is WebP, and every other tag
/// (1 included) is PNG.
pub open spec fn media_type_of(tag: u8) -> MediaType {
    if tag == 2 {
        MediaType::Jpeg
    } else if tag == 3 {
        MediaType::Webp
    } else {
        MediaType::Png
    }
}

impl MediaType {
    /// The media type's name as it appears in an output event.
    pub open spec fn spec_name(self) -> Seq<char> {
        match self {
            MediaType::Png => "image/png"@,
            MediaType::Jpeg => "image/jpeg"@,
            MediaType::Webp => "image/webp"@,
        }
    }

    /// Maps a type tag to its media type, with PNG for any unknown tag.
    pub fn from_tag(tag: u8) -> (m: MediaType)
        ensures
            m == media_type_of(tag),
    {
        match tag {
            1 => MediaType::Png,
            2 => MediaType::Jpeg,
            3 => MediaType::Webp,
            _ => MediaType::Png,
        }
    }

    pub fn name(&self) -> (s: &'static str)
        ensures
            s@ == self.spec_name(),
    {
        match self {
            MediaType::Png => "image/png",
            MediaType::Jpeg => "image/jpeg",
            MediaType::Webp => "image/webp",
        }
    }
}

/// The unsigned integer that four bytes give, most significant first.
pub open spec fn be_u32(b0: u8, b1: u8, b2: u8, b3: u8) -> u32 {
    ((b0 as u32) << 24u32) | ((b1 as u32) << 16u32) | ((b2 as u32) << 8u32) | (b3 as u32)
}

/// The four bytes that write `n` most significant first.
pub open spec fn be_bytes(n: u32) -> Seq<u8> {
    seq![(n >> 24u32) as u8, (n >> 16u32) as u8, (n >> 8u32) as u8, n as u8]
}

/// Reading the bytes that `be_bytes` wrote gives the number back.
pub proof fn lemma_be_round_trip(n: u32)
    ensures
        be_u32(be_bytes(n)[0], be_bytes(n)[1], be_bytes(n)[2], be_bytes(n)[3]) == n,
{
    assert(be_u32((n >> 24u32) as u8, (n >> 16u32) as u8, (n >> 8u32) as u8, n as u8) == n)
        by (bit_vector);
}

/// A decoded frame header.
#[derive(Debug, Clone, Copy, PartialEq, Eq, Structural)]
pub struct FrameHeader {
    pub tag: u8,
    pub len: u32,
}

impl FrameHeader {
    /// The header that the first five bytes of `b` spell.
    pub open spec fn spec_parse(b: Seq<u8>) -> FrameHeader
        recommends
            b.len() >= HEADER_LEN,
    {
        FrameHeader { tag: b[0], len: be_u32(b[1], b[2], b[3], b[4]) }
    }

    /// Reads a header from the start of `bytes`; `None` when fewer than
    /// five bytes are there.
    pub fn parse(bytes: &[u8]) -> (r: Option<FrameHeader>)
        ensures
            r is Some <==> bytes@.len() >= HEADER_LEN,
            r is Some ==> r->0 == FrameHeader::spec_parse(bytes@),
    {
        if bytes.len() < HEADER_LEN {
            None
        } else {
            Some(FrameHeader::read(bytes))
        }
    }

    /// Reads the header that the first five bytes of `bytes` spell.
    pub fn read(bytes: &[u8]) -> (h: FrameHeader)
        requires
            bytes@.len() >= HEADER_LEN,
        ensures
            h == FrameHeader::spec_parse(bytes@),
    {
        let len: u32 = ((bytes[1] as u32) << 24u32) | ((bytes[2] as u32) << 16u32) | ((
        bytes[3] as u32) << 8u32) | (bytes[4] as u32);
        FrameHeader { tag: bytes[0], len }
    }

    pub fn media_type(&self) -> (m: MediaType)
        ensures
            m == media_type_of(self.tag),
    {
        MediaType::from_tag(self.tag)
    }
}

/// What one decode cycle of a stream yields: a whole frame, or the failure
/// that ends the stream.
pub enum Record {
    Frame { tag: u8, payload: Seq<u8> },
    Failure,
}

/// The records that a stream holding exactly `input` and then closing
/// decodes to: one frame for each complete frame at its front, then one
/// failure where a header or a payload is cut short (an empty rest too).
pub open spec fn records_of(input: Seq<u8>) -> Seq<Record>
    decreases input.len(),
{
    if input.len() < HEADER_LEN {
        seq![Record::Failure]
    } else {
        let h = FrameHeader::spec_parse(input);
        let end = HEADER_LEN + h.len;
        if input.len() < end {
            seq![Record::Failure]
        } else {
            seq![Record::Frame { tag: h.tag, payload: input.subrange(HEADER_LEN as int, end) }]
                + records_of(input.subrange(end, input.len() as int))
        }
    }
}

/// The bytes that carry one frame on the wire.
pub open spec fn encode_frame(tag: u8, payload: Seq<u8>) -> Seq<u8> {
    seq![tag] + be_bytes(payload.len() as u32) + payload
}

/// The bytes that carry a sequence of frames, one after another.
pub open spec fn encode_frames(frames: Seq<(u8, Seq<u8>)>) -> Seq<u8>
    decreases frames.len(),
{
    if frames.len() == 0 {
        Seq::empty()
    } else {
        encode_frame(frames[0].0, frames[0].1) + encode_frames(frames.drop_first())
    }
}

/// Every payload of `frames` fits the four-byte length field.
pub open spec fn frames_fit(frames: Seq<(u8, Seq<u8>)>) -> bool {
    forall|i: int| 0 <= i < frames.len() ==> #[trigger] frames[i].1.len() <= u32::MAX
}

/// A well-formed frame at the front of a stream decodes to that frame: the
/// same tag, and a payload byte for byte equal to the one sent; the rest of
/// the stream is decoded after it.
pub proof fn lemma_frame_decodes(tag: u8, payload: Seq<u8>, rest: Seq<u8>)
    requires
        payload.len() <= u32::MAX,
    ensures
        records_of(encode_frame(tag, payload) + rest) == seq![
            Record::Frame { tag, payload },
        ] + records_of(rest),
{
    let input = encode_frame(tag, payload) + rest;
    let n = payload.len() as u32;
    lemma_be_round_trip(n);
    let h = FrameHeader::spec_parse(input);
    assert(input[1] == be_bytes(n)[0]);
    assert(input[2] == be_bytes(n)[1]);
    assert(input[3] == be_bytes(n)[2]);
    assert(input[4] == be_bytes(n)[3]);
    assert(h.len == n);
    let end = HEADER_LEN + h.len;
    assert(input.subrange(HEADER_LEN as int, end) =~= payload);
    assert(input.subrange(end, input.len() as int) =~= rest);
}

/// A stream that closes after the frames `frames`, before a complete next
/// header, decodes to exactly those frames, in order, then one failure.
pub proof fn lemma_frames_then_close(frames: Seq<(u8, Seq<u8>)>, tail: Seq<u8>)
    requires
        frames_fit(frames),
        tail.len() < HEADER_LEN,
    ensures
        records_of(encode_frames(frames) + tail) == frames.map_values(
            |f: (u8, Seq<u8>)| Record::Frame { tag: f.0, payload: f.1 },
        ).push(Record::Failure),
    decreases frames.len(),
{
    let recs = frames.map_values(|f: (u8, Seq<u8>)| Record::Frame { tag: f.0, payload: f.1 });
    if frames.len() == 0 {
        assert(encode_frames(frames) + tail =~= tail);
        assert(recs.push(Record::Failure) =~= seq![Record::Failure]);
    } else {
        let rest = frames.drop_first();
        assert(frames_fit(rest)) by {
            assert forall|i: int| 0 <= i < rest.len() implies #[trigger] rest[i].1.len()
                <= u32::MAX by {
                assert(rest[i] == frames[i + 1]);
            }
        }
        assert(frames[0].1.len() <= u32::MAX);
        lemma_frames_then_close(rest, tail);
        let input = encode_frames(frames) + tail;
        assert(input =~= encode_frame(frames[0].0, frames[0].1) + (encode_frames(rest) + tail));
        lemma_frame_decodes(frames[0].0, frames[0].1, encode_frames(rest) + tail);
        let rest_recs = rest.map_values(|f: (u8, Seq<u8>)| Record::Frame { tag: f.0, payload: f.1 });
        assert(recs.push(Record::Failure) =~= seq![
            Record::Frame { tag: frames[0].0, payload: frames[0].1 },
        ] + rest_recs.push(Record::Failure));
    }
}

/// A stream that closes inside a payload (the header is whole, the payload
/// short) decodes to a single failure and no frame.
pub proof fn lemma_short_payload(tag: u8, len: u32, partial: Seq<u8>)
    requires
        partial.len() < len,
    ensures
        records_of(seq![tag] + be_bytes(len) + partial) == seq![Record::Failure],
{
    let input = seq![tag] + be_bytes(len) + partial;
    lemma_be_round_trip(len);
    assert(input[1] == be_bytes(len)[0]);
    assert(input[2] == be_bytes(len)[1]);
    assert(input[3] == be_bytes(len)[2]);
    assert(input[4] == be_bytes(len)[3]);
    assert(FrameHeader::spec_parse(input).len == len);
}

/// Any tag outside the table's named entries announces PNG.
pub proof fn lemma_unknown_tag_is_png(tag: u8)
    requires
        tag != 1 && tag != 2 && tag != 3,
    ensures
        media_type_of(tag) == MediaType::Png,
        media_type_of(tag).spec_name() == "image/png"@,
{
}

} // verus!
