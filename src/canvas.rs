use vstd::prelude::*;
use crate::color::{Color, red_of, green_of, blue_of};

verus! {

/// Largest side a canvas may have, so that every coordinate fits the
/// controller's signed 16-bit window arithmetic.
pub const MAX_SIDE: u32 = 32767;

/// Whether pixel `(px, py)` lies in the rectangle at `(x, y)` of size `rw`×`rh`.
pub open spec fn in_rect(px: int, py: int, x: int, y: int, rw: int, rh: int) -> bool {
    x <= px < x + rw && y <= py < y + rh
}

/// Byte `k` of channel `c` (0 red, 1 green, 2 blue) for a flat color.
pub open spec fn channel(c: int, r: u8, g: u8, b: u8) -> u8 {
    if c == 0 { r } else if c == 1 { g } else { b }
}

/// `pixels` (rows of `w` RGB pixels) with the part of the rectangle that lies on
/// the canvas set to the flat color `(r, g, b)`.
pub open spec fn filled(pixels: Seq<u8>, w: int, x: int, y: int, rw: int, rh: int, r: u8, g: u8, b: u8) -> Seq<u8> {
    Seq::new(pixels.len(), |k: int|
        if in_rect((k / 3) % w, (k / 3) / w, x, y, rw, rh) { channel(k % 3, r, g, b) } else { pixels[k] })
}

/// Relies on imageproc::drawing::draw_filled_rect_mut over an RGB image buffer:
/// it writes the color to every pixel of the rectangle's intersection with the
/// image and leaves the others as they were. `Rect::of_size` panics on an empty
/// side and `Rect::right`/`bottom` are computed in `i32`, hence the `requires`.
#[verifier::external_body]
fn draw_filled_rect(pixels: &mut Vec<u8>, w: u32, h: u32, x: i32, y: i32, rw: u32, rh: u32, r: u8, g: u8, b: u8)
    requires
        old(pixels)@.len() == 3 * w * h,
        0 < w <= MAX_SIDE,
        0 < h <= MAX_SIDE,
        0 < rw <= i32::MAX,
        0 < rh <= i32::MAX,
        x + rw <= i32::MAX,
        y + rh <= i32::MAX,
    ensures
        final(pixels)@ == filled(old(pixels)@, w as int, x as int, y as int, rw as int, rh as int, r, g, b),
    no_unwind
{
    let mut img = image::RgbImage::from_raw(w, h, std::mem::take(pixels)).unwrap();
    let rect = imageproc::rect::Rect::at(x, y).of_size(rw, rh);
    imageproc::drawing::draw_filled_rect_mut(&mut img, rect, image::Rgb([r, g, b]));
    *pixels = img.into_raw();
}

/// `after` differs from `before` (rows of `w` RGB pixels) at most inside the
/// `iw`×`ih` rectangle at `(x, y)`.
pub open spec fn unchanged_outside(before: Seq<u8>, after: Seq<u8>, w: int, x: int, y: int, iw: int, ih: int) -> bool {
    &&& after.len() == before.len()
    &&& forall|k: int| 0 <= k < before.len() && !in_rect((k / 3) % w, (k / 3) / w, x, y, iw, ih)
            ==> #[trigger] after[k] == before[k]
}

/// What image::imageops::overlay leaves in an RGB buffer of `w`×`h` pixels
/// after blending an RGBA image of `tw`×`th` pixels onto it at `(x, y)`.
pub uninterp spec fn overlay_of(bottom: Seq<u8>, w: u32, h: u32, top: Seq<u8>, tw: u32, th: u32, x: i64, y: i64) -> Seq<u8>;

/// Relies on image::imageops::overlay of an RGBA image onto an RGB image
/// buffer: it blends in place, writes only the pixels under the top image, and
/// never resizes the bottom image; the result depends on the arguments alone.
#[verifier::external_body]
fn overlay_image(pixels: &mut Vec<u8>, w: u32, h: u32, top: &Vec<u8>, tw: u32, th: u32, x: i64, y: i64)
    requires
        old(pixels)@.len() == 3 * w * h,
        top@.len() == 4 * tw * th,
    ensures
        final(pixels)@ == overlay_of(old(pixels)@, w, h, top@, tw, th, x, y),
        unchanged_outside(old(pixels)@, final(pixels)@, w as int, x as int, y as int, tw as int, th as int),
    no_unwind
{
    let bottom = image::RgbImage::from_raw(w, h, std::mem::take(pixels)).unwrap();
    let mut img = image::DynamicImage::ImageRgb8(bottom);
    let upper = image::DynamicImage::ImageRgba8(image::RgbaImage::from_raw(tw, th, top.clone()).unwrap());
    image::imageops::overlay(&mut img, &upper, x, y);
    *pixels = img.into_rgb8().into_raw();
}

/// An RGBA image to draw onto a canvas, four bytes per pixel, row-major.
pub struct Image {
    width: u32,
    height: u32,
    rgba: Vec<u8>,
}

impl Image {
    #[verifier::type_invariant]
    spec fn sized(&self) -> bool {
        self.rgba@.len() == 4 * self.width * self.height
    }

    /// Width in pixels.
    pub closed spec fn w(&self) -> u32 {
        self.width
    }

    /// Height in pixels.
    pub closed spec fn h(&self) -> u32 {
        self.height
    }

    /// The pixel bytes, row-major RGBA.
    pub closed spec fn bytes(&self) -> Seq<u8> {
        self.rgba@
    }

    /// Wraps `rgba` as a `width`×`height` image; `None` unless it holds exactly
    /// four bytes per pixel.
    pub fn from_rgba(width: u32, height: u32, rgba: Vec<u8>) -> (r: Option<Self>)
        ensures
            r is Some <==> rgba@.len() == 4 * width * height,
            r is Some ==> r->Some_0.w() == width && r->Some_0.h() == height && r->Some_0.bytes() == rgba@,
    {
        let (w64, h64) = (width as u64, height as u64);
        assert(w64 * h64 <= 0xffff_ffffu64 * 0xffff_ffffu64) by (nonlinear_arith)
            requires 0 <= w64 <= 0xffff_ffffu64, 0 <= h64 <= 0xffff_ffffu64;
        let wh: u64 = w64 * h64;
        assert(4 * wh == 4 * width * height) by (nonlinear_arith) requires wh == w64 * h64, w64 == width, h64 == height;
        if wh as u128 * 4 == rgba.len() as u128 {
            Some(Image { width, height, rgba })
        } else {
            None
        }
    }

    /// Width in pixels.
    pub fn width(&self) -> (r: u32)
        ensures
            r == self.w(),
    {
        self.width
    }

    /// Height in pixels.
    pub fn height(&self) -> (r: u32)
        ensures
            r == self.h(),
    {
        self.height
    }
}

/// An RGB pixel buffer, three bytes per pixel, row-major.
pub struct Canvas {
    width: u32,
    height: u32,
    pixels: Vec<u8>,
}

impl Canvas {
    #[verifier::type_invariant]
    spec fn sized(&self) -> bool {
        &&& 0 < self.width <= MAX_SIDE
        &&& 0 < self.height <= MAX_SIDE
        &&& self.pixels@.len() == 3 * self.width * self.height
    }

    /// Width in pixels.
    pub closed spec fn w(&self) -> int {
        self.width as int
    }

    /// Height in pixels.
    pub closed spec fn h(&self) -> int {
        self.height as int
    }

    /// The pixel bytes, row-major RGB.
    pub closed spec fn bytes(&self) -> Seq<u8> {
        self.pixels@
    }

    /// A black canvas of `width`×`height` pixels.
    pub fn new(width: u32, height: u32) -> (c: Self)
        requires
            0 < width <= MAX_SIDE,
            0 < height <= MAX_SIDE,
        ensures
            c.w() == width,
            c.h() == height,
            c.bytes() == Seq::new((3 * width * height) as nat, |k: int| 0u8),
    {
        assert(3 * width * height <= 3 * MAX_SIDE * MAX_SIDE) by (nonlinear_arith)
            requires width <= MAX_SIDE, height <= MAX_SIDE;
        let n: usize = 3 * (width as usize) * (height as usize);
        let mut pixels: Vec<u8> = Vec::new();
        let mut i: usize = 0;
        while i < n
            invariant
                i <= n,
                pixels@ == Seq::new(i as nat, |k: int| 0u8),
            decreases n - i,
        {
            pixels.push(0);
            i = i + 1;
            assert(pixels@ =~= Seq::new(i as nat, |k: int| 0u8));
        }
        Canvas { width, height, pixels }
    }

    /// Width in pixels.
    pub fn width(&self) -> (r: u32)
        ensures
            r == self.w(),
            0 < r <= MAX_SIDE,
    {
        proof { use_type_invariant(self); }
        self.width
    }

    /// Height in pixels.
    pub fn height(&self) -> (r: u32)
        ensures
            r == self.h(),
            0 < r <= MAX_SIDE,
    {
        proof { use_type_invariant(self); }
        self.height
    }

    /// The pixel bytes, row-major RGB.
    pub fn as_bytes(&self) -> (r: &Vec<u8>)
        ensures
            r@ == self.bytes(),
            0 < self.w() <= MAX_SIDE,
            0 < self.h() <= MAX_SIDE,
            r@.len() == 3 * self.w() * self.h(),
    {
        proof { use_type_invariant(self); }
        &self.pixels
    }

    /// Fills the part of the rectangle at `(x, y)` of size `rw`×`rh` that lies
    /// on the canvas with a flat color; the rest is clipped.
    pub fn fill_rect(&mut self, x: i32, y: i32, rw: u32, rh: u32, color: &Color)
        requires
            0 < rw <= i32::MAX,
            0 < rh <= i32::MAX,
            x + rw <= i32::MAX,
            y + rh <= i32::MAX,
        ensures
            final(self).w() == old(self).w(),
            final(self).h() == old(self).h(),
            final(self).bytes() == filled(old(self).bytes(), old(self).w(), x as int, y as int, rw as int, rh as int,
                red_of(color.hex_value()), green_of(color.hex_value()), blue_of(color.hex_value())),
    {
        proof { use_type_invariant(&*self); }
        let (r, g, b) = color.channels();
        let (w, h) = (self.width, self.height);
        draw_filled_rect(&mut self.pixels, w, h, x, y, rw, rh, r, g, b);
    }

    /// Fills the whole canvas with a flat color.
    pub fn fill(&mut self, color: &Color)
        ensures
            final(self).w() == old(self).w(),
            final(self).h() == old(self).h(),
            final(self).bytes() == filled(old(self).bytes(), old(self).w(), 0, 0, old(self).w(), old(self).h(),
                red_of(color.hex_value()), green_of(color.hex_value()), blue_of(color.hex_value())),
    {
        proof { use_type_invariant(&*self); }
        let w = self.width;
        let h = self.height;
        self.fill_rect(0, 0, w, h, color);
    }

    /// Blends `top` onto the canvas with its top-left corner at `(x, y)`;
    /// what falls outside the canvas is clipped and pixels not under `top` keep
    /// their value.
    pub fn overlay(&mut self, top: &Image, x: i64, y: i64)
        ensures
            final(self).w() == old(self).w(),
            final(self).h() == old(self).h(),
            final(self).bytes() == overlay_of(old(self).bytes(), old(self).w() as u32, old(self).h() as u32,
                top.bytes(), top.w(), top.h(), x, y),
            unchanged_outside(old(self).bytes(), final(self).bytes(), old(self).w(), x as int, y as int,
                top.w() as int, top.h() as int),
    {
        proof {
            use_type_invariant(&*self);
            use_type_invariant(top);
        }
        let (w, h) = (self.width, self.height);
        overlay_image(&mut self.pixels, w, h, &top.rgba, top.width, top.height, x, y);
    }

    /// Sets pixel `(x, y)` to a flat color when it lies on the canvas, and does
    /// nothing otherwise.
    pub fn stamp(&mut self, x: i32, y: i32, color: &Color)
        ensures
            final(self).w() == old(self).w(),
            final(self).h() == old(self).h(),
            final(self).bytes() == filled(old(self).bytes(), old(self).w(), x as int, y as int, 1, 1,
                red_of(color.hex_value()), green_of(color.hex_value()), blue_of(color.hex_value())),
    {
        proof { use_type_invariant(&*self); }
        if x < i32::MAX && y < i32::MAX {
            self.fill_rect(x, y, 1, 1, color);
        } else {
            proof {
                let old_bytes = self.pixels@;
                let w = self.width as int;
                let h = self.height as int;
                assert forall|k: int| 0 <= k < old_bytes.len() implies !#[trigger] in_rect((k / 3) % w, (k / 3) / w, x as int, y as int, 1, 1) by {
                    assert(k / 3 < w * h) by (nonlinear_arith) requires 0 <= k < 3 * w * h, w > 0, h > 0;
                    assert((k / 3) / w < h) by (nonlinear_arith) requires 0 <= k / 3 < w * h, w > 0, h > 0;
                    assert((k / 3) % w < w) by (nonlinear_arith) requires 0 <= k / 3, w > 0;
                }
                assert(old_bytes =~= filled(old_bytes, w, x as int, y as int, 1, 1,
                    red_of(color.hex_value()), green_of(color.hex_value()), blue_of(color.hex_value())));
            }
        }
    }
}

} // verus!
