use vstd::prelude::*;

verus! {

#[verifier::external_type_specification]
#[verifier::reject_recursive_types(T)]
pub struct ExRgb<T>(image::Rgb<T>);

#[verifier::external_type_specification]
#[verifier::reject_recursive_types(T)]
pub struct ExRgba<T>(image::Rgba<T>);

/// Red channel of a 24-bit `0xRRGGBB` value.
pub open spec fn red_of(hex: u32) -> u8 {
    ((hex >> 16u32) & 0xffu32) as u8
}

/// Green channel of a 24-bit `0xRRGGBB` value.
pub open spec fn green_of(hex: u32) -> u8 {
    ((hex >> 8u32) & 0xffu32) as u8
}

/// Blue channel of a 24-bit `0xRRGGBB` value.
pub open spec fn blue_of(hex: u32) -> u8 {
    (hex & 0xffu32) as u8
}

/// The controller's 5-6-5 packed pixel: the top 5 bits of red, top 6 of green,
/// top 5 of blue, laid out as `red << 11 | green << 5 | blue`.
pub open spec fn packed565(r: u8, g: u8, b: u8) -> u16 {
    ((((r as u16) >> 3u16) << 11u16) | (((g as u16) >> 2u16) << 5u16) | ((b as u16) >> 3u16)) as u16
}

/// The packed form masks each channel to its width before shifting it into
/// place: `(r & 0xf8) << 8 | (g & 0xfc) << 3 | b >> 3`.
pub proof fn lemma_packed565_masks(r: u8, g: u8, b: u8)
    ensures
        packed565(r, g, b) == ((((r & 0xf8u8) as u16) << 8u16) | (((g & 0xfcu8) as u16) << 3u16) | ((b as u16) >> 3u16)) as u16,
{
    let (r16, g16, b16) = (r as u16, g as u16, b as u16);
    assert(((((r16 >> 3u16) << 11u16) | ((g16 >> 2u16) << 5u16) | (b16 >> 3u16)) as u16)
        == (((((r16 & 0xf8u16) << 8u16) | ((g16 & 0xfcu16) << 3u16) | (b16 >> 3u16))) as u16)) by (bit_vector)
        requires r16 <= 255u16, g16 <= 255u16, b16 <= 255u16;
    assert(((r & 0xf8u8) as u16) == (r16 & 0xf8u16)) by (bit_vector) requires r16 == r as u16;
    assert(((g & 0xfcu8) as u16) == (g16 & 0xfcu16)) by (bit_vector) requires g16 == g as u16;
}

/// Packs one pixel into the 5-6-5 format; the single derivation that both the
/// color constructor and the buffer encoder use.
pub fn pack_rgb565(r: u8, g: u8, b: u8) -> (p: u16)
    ensures
        p == packed565(r, g, b),
{
    let r16: u16 = r as u16;
    let g16: u16 = g as u16;
    let b16: u16 = b as u16;
    assert(((r16 >> 3u16) << 11u16) == (((r16 >> 3u16) << 11u16) as u16)) by (bit_vector)
        requires r16 <= 255u16;
    ((r16 >> 3) << 11) | ((g16 >> 2) << 5) | (b16 >> 3)
}

/// A truecolor value together with its packed 16-bit form.
pub struct Color {
    hex: u32,
    rgb565: u16,
}

impl Color {
    #[verifier::type_invariant]
    spec fn packed_matches(&self) -> bool {
        self.rgb565 == packed565(red_of(self.hex), green_of(self.hex), blue_of(self.hex))
    }

    /// The 24-bit value this color was made from, with bits above 24 dropped.
    pub closed spec fn hex_value(&self) -> u32 {
        self.hex & 0xffffffu32
    }

    /// Makes a color from `0xRRGGBB`; bits above the low 24 are ignored.
    pub fn new(value: u32) -> (c: Self)
        ensures
            c.hex_value() == value & 0xffffffu32,
    {
        let hex = value & 0xffffff;
        let r: u8 = ((hex >> 16) & 0xff) as u8;
        let g: u8 = ((hex >> 8) & 0xff) as u8;
        let b: u8 = (hex & 0xff) as u8;
        let packed = pack_rgb565(r, g, b);
        assert(hex & 0xffffffu32 == hex) by (bit_vector)
            requires hex == value & 0xffffffu32;
        Color { hex, rgb565: packed }
    }

    /// Makes a color from its three 8-bit channels.
    pub fn from_rgb(r: u8, g: u8, b: u8) -> (c: Self)
        ensures
            red_of(c.hex_value()) == r,
            green_of(c.hex_value()) == g,
            blue_of(c.hex_value()) == b,
    {
        let hex: u32 = ((r as u32) << 16) | ((g as u32) << 8) | (b as u32);
        assert(red_of(hex & 0xffffffu32) == r && green_of(hex & 0xffffffu32) == g
            && blue_of(hex & 0xffffffu32) == b) by (bit_vector)
            requires hex == ((r as u32) << 16u32) | ((g as u32) << 8u32) | (b as u32);
        Color::new(hex)
    }

    /// The packed 16-bit pixel of this color.
    pub fn get_rgb565(&self) -> (p: u16)
        ensures
            p == packed565(red_of(self.hex_value()), green_of(self.hex_value()), blue_of(self.hex_value())),
    {
        proof {
            use_type_invariant(self);
            let h = self.hex;
            assert(red_of(h & 0xffffffu32) == red_of(h) && green_of(h & 0xffffffu32) == green_of(h)
                && blue_of(h & 0xffffffu32) == blue_of(h)) by (bit_vector);
        }
        self.rgb565
    }

    /// The color as an 8-bit RGB pixel for the compositing layer.
    pub fn get_rgb(&self) -> (p: image::Rgb<u8>)
        ensures
            p.0@ == seq![red_of(self.hex_value()), green_of(self.hex_value()), blue_of(self.hex_value())],
    {
        let (r, g, b) = self.channels();
        let p = image::Rgb([r, g, b]);
        assert(p.0@ =~= seq![r, g, b]);
        p
    }

    /// The color as an opaque 8-bit RGBA pixel for the compositing layer.
    pub fn get_rgba(&self) -> (p: image::Rgba<u8>)
        ensures
            p.0@ == seq![red_of(self.hex_value()), green_of(self.hex_value()), blue_of(self.hex_value()), 0xffu8],
    {
        let (r, g, b) = self.channels();
        let p = image::Rgba([r, g, b, 0xff]);
        assert(p.0@ =~= seq![r, g, b, 0xffu8]);
        p
    }

    /// The three 8-bit channels, red first.
    pub fn channels(&self) -> (c: (u8, u8, u8))
        ensures
            c == (red_of(self.hex_value()), green_of(self.hex_value()), blue_of(self.hex_value())),
    {
        let h = self.hex;
        assert(red_of(h & 0xffffffu32) == red_of(h) && green_of(h & 0xffffffu32) == green_of(h)
            && blue_of(h & 0xffffffu32) == blue_of(h)) by (bit_vector);
        (((h >> 16) & 0xff) as u8, ((h >> 8) & 0xff) as u8, (h & 0xff) as u8)
    }
}

} // verus!
