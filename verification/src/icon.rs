//! Window icon pixels: RGBA as delivered by the image loader to BGRA plus an AND mask,
//! the layout the Windows icon API expects.
use vstd::prelude::*;

verus! {

pub struct Pixel {
    pub r: u8,
    pub g: u8,
    pub b: u8,
    pub a: u8,
}

impl Pixel {
    /// Swaps red and blue in place.
    pub fn to_bgra(&mut self)
        ensures
            final(self).r == old(self).b,
            final(self).b == old(self).r,
            final(self).g == old(self).g,
            final(self).a == old(self).a,
    {
        let t = self.r;
        self.r = self.b;
        self.b = t;
    }
}

/// Pixel `p` of `rgba` as it stands in the converted data: bytes swapped to B, G, R, A, and
/// a mask byte of `a - 255` (wrapping), which is 0 for an opaque pixel and `a + 1` otherwise.
pub open spec fn converted_pixel(rgba: Seq<u8>, bgra: Seq<u8>, mask: Seq<u8>, p: int) -> bool {
    &&& bgra[4 * p] == rgba[4 * p + 2]
    &&& bgra[4 * p + 1] == rgba[4 * p + 1]
    &&& bgra[4 * p + 2] == rgba[4 * p]
    &&& bgra[4 * p + 3] == rgba[4 * p + 3]
    &&& mask[p] == (if rgba[4 * p + 3] == 255 {
        0
    } else {
        (rgba[4 * p + 3] + 1) as u8
    })
}

/// The icon bytes for RGBA data: for each pixel B, G, R, A, and its mask byte
/// `a - 255` (wrapping). `None` for an empty size, a byte count that is not a whole number
/// of pixels, a pixel count other than width × height, or a side too large for `i32`.
pub fn icon_bytes(rgba: &[u8], width: u32, height: u32) -> (r: Option<(Vec<u8>, Vec<u8>)>)
    ensures
        ({
            let n = rgba@.len();
            let ok = width > 0 && height > 0 && n % 4 == 0 && n / 4 == width * height
                && width <= i32::MAX && height <= i32::MAX;
            match r {
                None => !ok,
                Some((bgra, mask)) => ok && bgra@.len() == n && mask@.len() == n / 4 && forall|
                    p: int,
                |
                    0 <= p < n / 4 ==> #[trigger] converted_pixel(rgba@, bgra@, mask@, p),
            }
        }),
{
    let n = rgba.len();
    if width == 0 || height == 0 || n % 4 != 0 {
        return None;
    }
    let count = n / 4;
    assert((width as u64) * (height as u64) <= u64::MAX) by (nonlinear_arith)
        requires
            width <= u32::MAX,
            height <= u32::MAX,
    ;
    let expected = (width as u64) * (height as u64);
    if count as u64 != expected || width > 0x7fff_ffff || height > 0x7fff_ffff {
        return None;
    }
    let mut bgra: Vec<u8> = Vec::new();
    let mut mask: Vec<u8> = Vec::new();
    let mut p: usize = 0;
    while p < count
        invariant
            count == n / 4,
            n == rgba@.len(),
            p <= count,
            bgra@.len() == 4 * p,
            mask@.len() == p,
            forall|q: int|
                0 <= q < p ==> #[trigger] converted_pixel(rgba@, bgra@, mask@, q),
        decreases count - p,
    {
        let mut px = Pixel { r: rgba[4 * p], g: rgba[4 * p + 1], b: rgba[4 * p + 2], a: rgba[4 * p + 3] };
        let a: u8 = px.a;
        let m = a.wrapping_sub(255);
        assert(m == (if a == 255 { 0 } else { (a + 1) as u8 })) by (bit_vector)
            requires
                m == a.wrapping_sub(255),
        ;
        px.to_bgra();
        let ghost old_bgra = bgra@;
        let ghost old_mask = mask@;
        mask.push(m);
        bgra.push(px.r);
        bgra.push(px.g);
        bgra.push(px.b);
        bgra.push(px.a);
        assert(bgra@ == old_bgra + seq![px.r, px.g, px.b, px.a]);
        assert(mask@ == old_mask.push(m));
        assert forall|q: int| 0 <= q < p + 1 implies #[trigger] converted_pixel(
            rgba@,
            bgra@,
            mask@,
            q,
        ) by {
            if q < p {
                assert(converted_pixel(rgba@, old_bgra, old_mask, q));
            }
        }
        p = p + 1;
    }
    Some((bgra, mask))
}

} // verus!
