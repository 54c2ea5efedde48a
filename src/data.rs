use vstd::prelude::*;
use vstd::utf8::*;

verus! {

/// Size of the fixed frame header: a 32-bit length and a 16-bit service id.
pub const HEADER_LEN: usize = 6;

/// One protocol message: a service id and a UTF-8 text payload.
#[derive(Debug, Clone)]
pub struct Data {
    pub service: u16,
    pub data: String,
}

/// Little-endian bytes of a 32-bit value.
pub open spec fn u32_le_bytes(n: u32) -> Seq<u8> {
    seq![
        (n & 0xff) as u8,
        ((n >> 8u32) & 0xff) as u8,
        ((n >> 16u32) & 0xff) as u8,
        ((n >> 24u32) & 0xff) as u8,
    ]
}

/// The 32-bit value whose little-endian bytes are `b0 b1 b2 b3`.
pub open spec fn le_u32(b0: u8, b1: u8, b2: u8, b3: u8) -> u32 {
    (b0 as u32) | ((b1 as u32) << 8u32) | ((b2 as u32) << 16u32) | ((b3 as u32) << 24u32)
}

/// Big-endian bytes of a 16-bit value.
pub open spec fn u16_be_bytes(n: u16) -> Seq<u8> {
    seq![(n >> 8u16) as u8, (n & 0xff) as u8]
}

/// The 16-bit value whose big-endian bytes are `hi lo`.
pub open spec fn be_u16(hi: u8, lo: u8) -> u16 {
    ((hi as u16) << 8u16) | (lo as u16)
}

/// The wire form of a frame: payload length (little-endian u32), service id
/// (big-endian u16), then the payload's UTF-8 bytes.
pub open spec fn frame_bytes(service: u16, text: Seq<char>) -> Seq<u8> {
    u32_le_bytes(encode_utf8(text).len() as u32) + u16_be_bytes(service) + encode_utf8(text)
}

pub proof fn lemma_u32_le_round_trip(n: u32)
    ensures
        le_u32(
            u32_le_bytes(n)[0],
            u32_le_bytes(n)[1],
            u32_le_bytes(n)[2],
            u32_le_bytes(n)[3],
        ) == n,
{
    let b0 = (n & 0xff) as u8;
    let b1 = ((n >> 8u32) & 0xff) as u8;
    let b2 = ((n >> 16u32) & 0xff) as u8;
    let b3 = ((n >> 24u32) & 0xff) as u8;
    assert(((b0 as u32) | ((b1 as u32) << 8u32) | ((b2 as u32) << 16u32) | ((b3 as u32) << 24u32))
        == n) by (bit_vector)
        requires
            b0 == (n & 0xff) as u8,
            b1 == ((n >> 8u32) & 0xff) as u8,
            b2 == ((n >> 16u32) & 0xff) as u8,
            b3 == ((n >> 24u32) & 0xff) as u8,
    ;
}

pub proof fn lemma_u16_be_round_trip(n: u16)
    ensures
        be_u16(u16_be_bytes(n)[0], u16_be_bytes(n)[1]) == n,
{
    let hi = (n >> 8u16) as u8;
    let lo = (n & 0xff) as u8;
    assert((((hi as u16) << 8u16) | (lo as u16)) == n) by (bit_vector)
        requires
            hi == (n >> 8u16) as u8,
            lo == (n & 0xff) as u8,
    ;
}

impl Data {
    /// Byte length of the payload once encoded as UTF-8.
    pub open spec fn payload_len(&self) -> nat {
        encode_utf8(self.data@).len()
    }

    /// Encodes the frame into its wire form.
    pub fn to_bytes(&self) -> (r: Vec<u8>)
        requires
            self.payload_len() <= u32::MAX,
        ensures
            r@ == frame_bytes(self.service, self.data@),
    {
        let payload: &[u8] = self.data.as_str().as_bytes();
        let len = payload.len() as u32;
        let service = self.service;
        let mut buf: Vec<u8> = Vec::new();
        buf.push((len & 0xff) as u8);
        buf.push(((len >> 8u32) & 0xff) as u8);
        buf.push(((len >> 16u32) & 0xff) as u8);
        buf.push(((len >> 24u32) & 0xff) as u8);
        buf.push((service >> 8u16) as u8);
        buf.push((service & 0xff) as u8);
        let mut i: usize = 0;
        while i < payload.len()
            invariant
                0 <= i <= payload@.len(),
                payload@ == encode_utf8(self.data@),
                len as nat == payload@.len(),
                service == self.service,
                buf@ == u32_le_bytes(len) + u16_be_bytes(service) + payload@.subrange(0, i as int),
            decreases payload@.len() - i,
        {
            buf.push(payload[i]);
            assert(payload@.subrange(0, i as int + 1) == payload@.subrange(0, i as int).push(
                payload@[i as int],
            ));
            i = i + 1;
        }
        assert(payload@.subrange(0, i as int) == payload@);
        buf
    }
}

} // verus!
