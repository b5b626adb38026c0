//! Output abstraction: a rendered image, row-major, and its RGBA8 bytes.
use vstd::prelude::*;

verus! {

/// A rendered image: one `P` per pixel, row-major.
#[derive(Debug, Clone)]
pub struct Framebuffer<P> {
    pub width: u32,
    pub height: u32,
    pub pixels: Vec<P>,
}

/// The bytes of RGBA8 pixels laid end to end: four bytes per pixel, in pixel order.
pub open spec fn rgba8_bytes(pixels: Seq<[u8; 4]>) -> Seq<u8>
    decreases pixels.len(),
{
    if pixels.len() == 0 {
        Seq::empty()
    } else {
        rgba8_bytes(pixels.drop_last()) + pixels.last()@
    }
}

/// Byte `4 * i + k` of the flattened image is channel `k` of pixel `i`.
pub proof fn lemma_rgba8_bytes_index(pixels: Seq<[u8; 4]>, i: int, k: int)
    requires
        0 <= i < pixels.len(),
        0 <= k < 4,
    ensures
        rgba8_bytes(pixels).len() == 4 * pixels.len(),
        rgba8_bytes(pixels)[4 * i + k] == pixels[i]@[k],
    decreases pixels.len(),
{
    lemma_rgba8_bytes_len(pixels);
    if i < pixels.len() - 1 {
        lemma_rgba8_bytes_index(pixels.drop_last(), i, k);
    }
}

/// The flattened image has four bytes per pixel.
pub proof fn lemma_rgba8_bytes_len(pixels: Seq<[u8; 4]>)
    ensures
        rgba8_bytes(pixels).len() == 4 * pixels.len(),
    decreases pixels.len(),
{
    if pixels.len() > 0 {
        lemma_rgba8_bytes_len(pixels.drop_last());
    }
}

impl<P> Framebuffer<P> {
    /// An empty framebuffer for a `width` x `height` image, with room for all its pixels.
    pub fn new(width: u32, height: u32) -> (fb: Self)
        requires
            width * height <= u32::MAX,
        ensures
            fb.width == width,
            fb.height == height,
            fb.pixels@ == Seq::<P>::empty(),
    {
        let n: u32 = width * height;
        Framebuffer { width, height, pixels: Vec::with_capacity(n as usize) }
    }
}

impl Framebuffer<[u8; 4]> {
    /// The RGBA8 bytes of the image, ready for any image encoder:
    /// four bytes per pixel, in pixel order.
    pub fn to_rgba8_bytes(&self) -> (bytes: Vec<u8>)
        requires
            4 * self.pixels.len() <= usize::MAX,
        ensures
            bytes@ == rgba8_bytes(self.pixels@),
            bytes.len() == 4 * self.pixels.len(),
    {
        let n = self.pixels.len();
        let mut bytes: Vec<u8> = Vec::new();
        for i in 0..n
            invariant
                n == self.pixels.len(),
                bytes@ == rgba8_bytes(self.pixels@.take(i as int)),
        {
            let p: [u8; 4] = self.pixels[i];
            bytes.push(p[0]);
            bytes.push(p[1]);
            bytes.push(p[2]);
            bytes.push(p[3]);
            proof {
                let s = self.pixels@.take(i + 1);
                assert(s.drop_last() =~= self.pixels@.take(i as int));
                assert(s.last() == p);
                assert(p@ =~= seq![p[0], p[1], p[2], p[3]]);
            }
        }
        assert(self.pixels@.take(n as int) =~= self.pixels@);
        proof {
            lemma_rgba8_bytes_len(self.pixels@);
        }
        bytes
    }
}

} // verus!
