//! The pixel codec. The capture device delivers an interleaved byte buffer
//! whose 4-byte windows carry the channels in (B, G, R, A) order; decoding
//! maps each window into a canonical (R, G, B, A) pixel, dropping any
//! trailing bytes that do not fill a window. Encoding emits the canonical
//! order (R, G, B, A) — deliberately not the wire order, so a full
//! decode-encode round trip swaps the R and B channels of the raw bytes.

use vstd::prelude::*;
use crate::pixel::Color;

verus! {

/// The pixel that the 4-byte window starting at `4 * i` decodes to.
pub open spec fn pixel_at(raw: Seq<u8>, i: int) -> Color {
    Color {
        r: raw[4 * i + 2],
        g: raw[4 * i + 1],
        b: raw[4 * i],
        a: raw[4 * i + 3],
    }
}

/// The whole decoded frame: one pixel per complete 4-byte window; a
/// remainder shorter than a window is dropped.
pub open spec fn decode_spec(raw: Seq<u8>) -> Seq<Color> {
    Seq::new(raw.len() / 4, |i: int| pixel_at(raw, i))
}

/// The encoded buffer: each pixel's four channels in (R, G, B, A) order,
/// concatenated in pixel order.
pub open spec fn encode_spec(pixels: Seq<Color>) -> Seq<u8>
    decreases pixels.len(),
{
    if pixels.len() == 0 {
        Seq::empty()
    } else {
        encode_spec(pixels.drop_last())
            + seq![pixels.last().r, pixels.last().g, pixels.last().b, pixels.last().a]
    }
}

/// The encoded buffer holds exactly four bytes per pixel.
pub proof fn lemma_encode_len(pixels: Seq<Color>)
    ensures
        encode_spec(pixels).len() == 4 * pixels.len(),
    decreases pixels.len(),
{
    if pixels.len() > 0 {
        lemma_encode_len(pixels.drop_last());
    }
}

/// Decodes the raw capture buffer into canonical pixels, one per complete
/// 4-byte window; any remainder bytes are dropped silently.
pub fn to_colors(raw: &Vec<u8>) -> (pixels: Vec<Color>)
    ensures
        pixels@ == decode_spec(raw@),
        pixels@.len() == raw@.len() / 4,
{
    let m = raw.len();
    let n = m / 4;
    let mut pixels: Vec<Color> = Vec::new();
    let mut i: usize = 0;
    while i < n
        invariant
            m == raw@.len(),
            n == raw@.len() / 4,
            i <= n,
            pixels@.len() == i,
            forall|j: int| 0 <= j < i ==> pixels@[j] == pixel_at(raw@, j),
        decreases n - i,
    {
        proof {
            vstd::arithmetic::div_mod::lemma_fundamental_div_mod(raw@.len() as int, 4);
            assert(4 * (n as int) <= raw@.len());
            assert(4 * (i as int) + 3 < raw@.len());
        }
        let b0 = raw[4 * i];
        let b1 = raw[4 * i + 1];
        let b2 = raw[4 * i + 2];
        let b3 = raw[4 * i + 3];
        pixels.push(Color::from_wire(b0, b1, b2, b3));
        i += 1;
    }
    proof {
        assert(pixels@ =~= decode_spec(raw@));
    }
    pixels
}

/// Encodes canonical pixels back into a flat byte buffer in (R, G, B, A)
/// order.
pub fn to_buffer(pixels: &Vec<Color>) -> (raw: Vec<u8>)
    ensures
        raw@ == encode_spec(pixels@),
        raw@.len() == 4 * pixels@.len(),
{
    let n = pixels.len();
    let mut raw: Vec<u8> = Vec::new();
    let mut i: usize = 0;
    while i < n
        invariant
            n == pixels@.len(),
            i <= n,
            raw@ == encode_spec(pixels@.take(i as int)),
            raw@.len() == 4 * i,
        decreases n - i,
    {
        let color = pixels[i];
        raw.push(color.r);
        raw.push(color.g);
        raw.push(color.b);
        raw.push(color.a);
        i += 1;
        proof {
            let t = pixels@.take(i as int);
            assert(t.drop_last() =~= pixels@.take(i - 1));
            assert(t.last() == pixels@[i - 1]);
            assert(raw@ =~= encode_spec(t));
        }
    }
    proof {
        assert(pixels@.take(n as int) =~= pixels@);
        lemma_encode_len(pixels@);
    }
    raw
}

} // verus!
