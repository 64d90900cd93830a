use vstd::prelude::*;
use crate::color::{packed565, pack_rgb565};
use crate::canvas::Canvas;

verus! {

/// A 16-bit word as two bytes, most significant first.
pub open spec fn be_bytes(w: u16) -> Seq<u8> {
    seq![(w >> 8u16) as u8, (w & 0xffu16) as u8]
}

/// The packed word of the pixel whose red byte sits at `k`.
pub open spec fn word_at(s: Seq<u8>, k: int) -> u16 {
    packed565(s[k], s[k + 1], s[k + 2])
}

/// The wire form of an RGB byte buffer: each whole pixel as its packed word,
/// big-endian, in buffer order.
pub open spec fn encoded(s: Seq<u8>) -> Seq<u8>
    decreases s.len(),
{
    if s.len() < 3 {
        seq![]
    } else {
        encoded(s.take(s.len() - 3)) + be_bytes(word_at(s, s.len() - 3))
    }
}

/// Why a pixel buffer could not be encoded.
#[derive(Debug, PartialEq, Eq, Structural)]
pub enum ConvError {
    /// The buffer's length is not a whole number of RGB pixels.
    InvalidBufferLength,
}

/// Each whole pixel of an RGB buffer encodes to exactly two bytes.
pub proof fn lemma_encoded_len(s: Seq<u8>)
    ensures
        encoded(s).len() == 2 * (s.len() / 3),
    decreases s.len(),
{
    if s.len() >= 3 {
        lemma_encoded_len(s.take(s.len() - 3));
    }
}

/// Encodes an RGB buffer (three bytes per pixel, row-major) into the
/// big-endian 5-6-5 stream the controller takes for a bulk write.
pub fn encode_rgb565(bytes: &[u8]) -> (r: Result<Vec<u8>, ConvError>)
    ensures
        bytes@.len() % 3 != 0 <==> r is Err,
        r is Ok ==> r->Ok_0@ == encoded(bytes@),
        r is Ok ==> r->Ok_0@.len() == 2 * (bytes@.len() / 3),
{
    if bytes.len() % 3 != 0 {
        return Err(ConvError::InvalidBufferLength);
    }
    let len = bytes.len();
    let n = len / 3;
    let mut out: Vec<u8> = Vec::new();
    let mut i: usize = 0;
    while i < n
        invariant
            len == bytes@.len(),
            n == bytes@.len() / 3,
            bytes@.len() % 3 == 0,
            i <= n,
            out@ == encoded(bytes@.take(3 * i)),
        decreases n - i,
    {
        assert(3 * i + 2 < bytes@.len()) by (nonlinear_arith)
            requires i < n, n == bytes@.len() / 3, bytes@.len() % 3 == 0;
        let k: usize = 3 * i;
        let w = pack_rgb565(bytes[k], bytes[k + 1], bytes[k + 2]);
        out.push((w >> 8) as u8);
        out.push((w & 0xff) as u8);
        proof {
            let t = bytes@.take(3 * (i + 1));
            assert(t.take(t.len() - 3) =~= bytes@.take(3 * i));
            assert(word_at(t, t.len() - 3) == w);
            assert(out@ =~= encoded(t));
        }
        i = i + 1;
    }
    assert(bytes@.take(3 * n) =~= bytes@);
    proof { lemma_encoded_len(bytes@); }
    Ok(out)
}

/// A buffer of one pixel encodes to the big-endian form of that pixel's packed word.
pub proof fn lemma_single_pixel(r: u8, g: u8, b: u8)
    ensures
        encoded(seq![r, g, b]) == be_bytes(packed565(r, g, b)),
{
    let s = seq![r, g, b];
    assert(s.take(0) =~= seq![]);
    assert(encoded(s.take(0)) == Seq::<u8>::empty());
    assert(encoded(s) =~= be_bytes(packed565(r, g, b)));
}

/// Encodes a canvas into the controller's big-endian 5-6-5 stream.
pub fn bytes_from_img(img: &Canvas) -> (r: Vec<u8>)
    ensures
        r@ == encoded(img.bytes()),
        r@.len() == 2 * img.w() * img.h(),
{
    let raw = img.as_bytes();
    proof {
        let a = img.w();
        let b = img.h();
        let n = a * b;
        assert(3 * a * b == n * 3) by (nonlinear_arith) requires n == a * b;
        vstd::arithmetic::div_mod::lemma_mod_multiples_basic(n, 3);
        vstd::arithmetic::div_mod::lemma_div_multiples_vanish(n, 3);
        assert(n * 3 == 3 * n);
        assert(2 * n == 2 * a * b) by (nonlinear_arith) requires n == a * b;
    }
    match encode_rgb565(raw.as_slice()) {
        Ok(v) => v,
        Err(_) => Vec::new(),
    }
}

} // verus!
