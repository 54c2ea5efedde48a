//! Framing: turns a byte buffer into frames, one at a time, and frame bytes
//! into wire bytes.
use vstd::prelude::*;
use vstd::utf8::*;

use vstd::slice::{slice_subrange, slice_to_vec};

use crate::buffer::{advance, buffer_bytes, contents};
use crate::data::{
    be_u16, frame_bytes, le_u32, lemma_u16_be_round_trip, lemma_u32_le_round_trip, u16_be_bytes,
    u32_le_bytes, Data, HEADER_LEN,
};
use crate::error::AppError;

verus! {

/// The payload length that the header at the front of `buf` declares.
pub open spec fn declared_len(buf: Seq<u8>) -> nat {
    le_u32(buf[0], buf[1], buf[2], buf[3]) as nat
}

/// The service id that the header at the front of `buf` declares.
pub open spec fn declared_service(buf: Seq<u8>) -> u16 {
    be_u16(buf[4], buf[5])
}

/// Whether `buf` holds a whole frame at its front.
pub open spec fn frame_ready(buf: Seq<u8>) -> bool {
    buf.len() >= HEADER_LEN && buf.len() - HEADER_LEN >= declared_len(buf)
}

/// Where the frame at the front of `buf` ends.
pub open spec fn frame_end(buf: Seq<u8>) -> int {
    HEADER_LEN + declared_len(buf)
}

/// The payload bytes of the frame at the front of `buf`.
pub open spec fn frame_payload(buf: Seq<u8>) -> Seq<u8> {
    buf.subrange(HEADER_LEN as int, frame_end(buf))
}

/// What follows the frame at the front of `buf`.
pub open spec fn after_frame(buf: Seq<u8>) -> Seq<u8> {
    buf.subrange(frame_end(buf), buf.len() as int)
}

/// Stateless frame codec.
#[derive(Debug, Clone)]
pub struct AppCodec {}

impl AppCodec {
    /// Appends already encoded frame bytes to `dst`.
    pub fn encode(&mut self, item: &[u8], dst: &mut bytes::BytesMut) -> (r: Result<(), AppError>)
        ensures
            buffer_bytes(*final(dst)) == buffer_bytes(*old(dst)) + item@,
            r is Ok,
    {
        dst.extend_from_slice(item);
        Ok(())
    }

    /// Takes one frame off the front of `src`.
    ///
    /// Without a whole frame buffered it returns `Ok(None)`. Where the
    /// payload of the whole frame is not UTF-8 it returns `MalformedPayload`.
    /// Either way nothing is consumed. Otherwise it consumes exactly the frame
    /// and returns it.
    pub fn decode(&mut self, src: &mut bytes::BytesMut) -> (r: Result<Option<Data>, AppError>)
        ensures
            !frame_ready(buffer_bytes(*old(src))) ==> {
                &&& r matches Ok(None)
                &&& buffer_bytes(*final(src)) == buffer_bytes(*old(src))
            },
            frame_ready(buffer_bytes(*old(src))) ==> {
                let buf = buffer_bytes(*old(src));
                match r {
                    Ok(Some(d)) => {
                        &&& valid_utf8(frame_payload(buf))
                        &&& d.service == declared_service(buf)
                        &&& d.data@ == decode_utf8(frame_payload(buf))
                        &&& buffer_bytes(*final(src)) == after_frame(buf)
                    },
                    Ok(None) => false,
                    Err(e) => {
                        &&& !valid_utf8(frame_payload(buf))
                        &&& e is MalformedPayload
                        &&& buffer_bytes(*final(src)) == buf
                    },
                }
            },
    {
        let n = src.len();
        if n < HEADER_LEN {
            return Ok(None);
        }
        let bytes = contents(src);
        let length = ((bytes[0] as u32) | ((bytes[1] as u32) << 8u32) | ((bytes[2] as u32)
            << 16u32) | ((bytes[3] as u32) << 24u32)) as usize;
        let service = ((bytes[4] as u16) << 8u16) | (bytes[5] as u16);
        if n - HEADER_LEN < length {
            return Ok(None);
        }
        let end = HEADER_LEN + length;
        let payload = slice_to_vec(slice_subrange(bytes, HEADER_LEN, end));
        match utf8_string(payload) {
            Some(text) => {
                advance(src, end);
                Ok(Some(Data { service, data: text }))
            },
            None => Err(AppError::MalformedPayload),
        }
    }
}

/// Relies on `String::from_utf8`: it succeeds exactly on valid UTF-8, and then
/// holds the characters that the bytes encode.
#[verifier::external_body]
fn utf8_string(bytes: Vec<u8>) -> (r: Option<String>)
    ensures
        r is Some <==> valid_utf8(bytes@),
        r matches Some(s) ==> s@ == decode_utf8(bytes@),
{
    String::from_utf8(bytes).ok()
}

/// Decoding what encoding produced gives the frame back: the buffer holds a
/// whole frame, of the encoded length, with the same service id and text, and
/// whatever followed the encoded bytes is left after it.
pub proof fn lemma_frame_round_trip(service: u16, text: Seq<char>, rest: Seq<u8>)
    requires
        encode_utf8(text).len() <= u32::MAX,
    ensures
        ({
            let buf = frame_bytes(service, text) + rest;
            &&& frame_ready(buf)
            &&& frame_end(buf) == HEADER_LEN + encode_utf8(text).len()
            &&& declared_service(buf) == service
            &&& valid_utf8(frame_payload(buf))
            &&& decode_utf8(frame_payload(buf)) == text
            &&& after_frame(buf) == rest
        }),
{
    let bytes = encode_utf8(text);
    let n = bytes.len() as u32;
    let buf = frame_bytes(service, text) + rest;
    lemma_u32_le_round_trip(n);
    lemma_u16_be_round_trip(service);
    assert(declared_len(buf) == bytes.len());
    assert(frame_payload(buf) =~= bytes);
    assert(after_frame(buf) =~= rest);
    encode_utf8_valid_utf8(text);
    encode_utf8_decode_utf8(text);
}

/// Every strict prefix of an encoded frame is incomplete: fed to the decoder it
/// yields nothing and consumes nothing.
pub proof fn lemma_frame_prefix_incomplete(service: u16, text: Seq<char>, k: int)
    requires
        encode_utf8(text).len() <= u32::MAX,
        0 <= k < frame_bytes(service, text).len(),
    ensures
        !frame_ready(frame_bytes(service, text).take(k)),
{
    let full = frame_bytes(service, text);
    let part = full.take(k);
    if k >= HEADER_LEN {
        lemma_u32_le_round_trip(encode_utf8(text).len() as u32);
        assert(part[0] == full[0] && part[1] == full[1] && part[2] == full[2] && part[3] == full[3]);
        assert(declared_len(part) == encode_utf8(text).len());
    }
}

/// After a frame is taken off a buffer, exactly the bytes that followed it
/// remain: a second decode starts on those, and where nothing followed, it finds
/// no frame.
pub proof fn lemma_frame_leftover(service: u16, text: Seq<char>, rest: Seq<u8>)
    requires
        encode_utf8(text).len() <= u32::MAX,
    ensures
        after_frame(frame_bytes(service, text) + rest) == rest,
        !frame_ready(after_frame(frame_bytes(service, text) + Seq::<u8>::empty())),
{
    lemma_frame_round_trip(service, text, rest);
    lemma_frame_round_trip(service, text, Seq::<u8>::empty());
}

/// A whole frame whose one payload byte is `0xFF` is not UTF-8: decoding it
/// reports a malformed payload and leaves the buffer as it was.
pub proof fn lemma_invalid_byte_frame(service: u16)
    ensures
        ({
            let buf = u32_le_bytes(1) + u16_be_bytes(service) + seq![0xFFu8];
            &&& frame_ready(buf)
            &&& frame_end(buf) == buf.len()
            &&& !valid_utf8(frame_payload(buf))
        }),
{
    let buf = u32_le_bytes(1) + u16_be_bytes(service) + seq![0xFFu8];
    lemma_u32_le_round_trip(1);
    assert(declared_len(buf) == 1);
    assert(frame_payload(buf) =~= seq![0xFFu8]);
    assert(!valid_first_scalar(seq![0xFFu8]));
}

} // verus!
