use vstd::prelude::*;

use crate::error::UpdaterError;

verus! {

/// An RGB color, one byte per channel, in (r, g, b) order.
pub type RGBInt = (u8, u8, u8);

/// Splits a packed 0xRRGGBB word into its three channel bytes.
pub fn rgb(col: u32) -> (r: RGBInt)
    ensures
        r == spec_rgb(col),
{
    let r = (col >> 16) as u8;
    let g = (col >> 8) as u8;
    let b = col as u8;
    (r, g, b)
}

pub open spec fn spec_rgb(col: u32) -> RGBInt {
    ((col >> 16) as u8, (col >> 8) as u8, col as u8)
}

/// A packed pixel in the byte order of the output raster: blue, green,
/// red, alpha.  It serves both as a visual color and as the carrier of one
/// quantized 18-bit scalar of the datastream.
#[derive(Copy, Clone, Debug, Default, PartialEq, Eq, Structural)]
pub struct ByteColor {
    pub b: u8,
    pub g: u8,
    pub r: u8,
    pub a: u8,
}

/// The quantization of one 6-bit channel value: the six bits are spread
/// into the top of the byte, and results above 96 are nudged up by 2 so
/// that decoded values survive the display hardware's own quantization.
pub open spec fn spec_convert_part(v: u8) -> u8 {
    let s = v << 2;
    if s > 96 {
        (s + 2) as u8
    } else {
        s
    }
}

/// Quantizes one channel value; values above a byte are rejected.
pub fn convert_part(v: u32) -> (r: Result<u8, UpdaterError>)
    ensures
        v <= 255 ==> r == Ok::<u8, UpdaterError>(spec_convert_part(v as u8)),
        v > 255 ==> r.is_err(),
{
    if v > 255 {
        return Err(UpdaterError::ValueTooLarge { field: "channel value", value: v as u64 });
    }
    let b = v as u8;
    let s = b << 2;
    proof {
        assert(b << 2 <= 252) by (bit_vector);
    }
    if s > 96 {
        Ok(s + 2)
    } else {
        Ok(s)
    }
}

/// The quantization is monotonic over the 6-bit inputs it is meant for,
/// and its output always fits a byte.  The nudge applies exactly to the
/// spread values above 96: inputs up to 24 (spread 96) pass unchanged,
/// input 25 (spread 100) and above gain 2.
pub proof fn lemma_convert_part_monotonic(v1: u8, v2: u8)
    requires
        v1 <= v2,
        v2 < 64,
    ensures
        spec_convert_part(v1) <= spec_convert_part(v2),
        spec_convert_part(v2) <= 255,
        v2 <= 24 ==> spec_convert_part(v2) == v2 << 2,
        v2 > 24 ==> spec_convert_part(v2) == (v2 << 2) + 2,
{
    assert(v1 << 2 == 4 * v1 && v2 << 2 == 4 * v2) by (bit_vector)
        requires
            v1 < 64 && v2 < 64,
    ;
}

/// The packed-pixel encoding of one 18-bit scalar: bits 12-17, 6-11 and
/// 0-5 are quantized into the red, green and blue channels, and alpha is
/// forced opaque.
pub open spec fn spec_pixel_of(value: u32) -> ByteColor {
    ByteColor {
        b: spec_convert_part((value & 0x3F) as u8),
        g: spec_convert_part(((value >> 6) & 0x3F) as u8),
        r: spec_convert_part(((value >> 12) & 0x3F) as u8),
        a: 0xFF,
    }
}

impl ByteColor {
    /// Packs an 18-bit scalar into one pixel; larger values are rejected.
    pub fn from_value(value: u32) -> (res: Result<Self, UpdaterError>)
        ensures
            value < 0x40000 ==> res == Ok::<ByteColor, UpdaterError>(spec_pixel_of(value)),
            value >= 0x40000 ==> res == Err::<ByteColor, UpdaterError>(
                UpdaterError::ValueTooLarge { field: "datastream value", value: value as u64 },
            ),
    {
        if value >= 0x40000 {
            return Err(UpdaterError::ValueTooLarge { field: "datastream value", value: value as u64 });
        }
        let r = (value >> 12) & 0x3F;
        let g = (value >> 6) & 0x3F;
        let b = value & 0x3F;
        proof {
            assert((value >> 12) & 0x3F <= 255 && (value >> 6) & 0x3F <= 255 && value & 0x3F
                <= 255) by (bit_vector);
        }
        let r = match convert_part(r) {
            Ok(v) => v,
            Err(e) => {
                return Err(e);
            },
        };
        let g = match convert_part(g) {
            Ok(v) => v,
            Err(e) => {
                return Err(e);
            },
        };
        let b = match convert_part(b) {
            Ok(v) => v,
            Err(e) => {
                return Err(e);
            },
        };
        Ok(Self { r, g, b, a: 0xFF })
    }

    /// The pixel's bytes in raster memory order.
    pub fn to_array(self) -> (r: [u8; 4])
        ensures
            r@ == seq![self.b, self.g, self.r, self.a],
    {
        let r = [self.b, self.g, self.r, self.a];
        proof {
            assert(r@ =~= seq![self.b, self.g, self.r, self.a]);
        }
        r
    }

    /// An opaque visual color from its three channel bytes.
    pub fn from_rgb(color: RGBInt) -> (res: Self)
        ensures
            res == spec_bytecolor_of_rgb(color),
    {
        ByteColor { r: color.0, g: color.1, b: color.2, a: 0xFF }
    }
}

pub open spec fn spec_bytecolor_of_rgb(color: RGBInt) -> ByteColor {
    ByteColor { b: color.2, g: color.1, r: color.0, a: 0xFF }
}

/// The raster bytes of one 18-bit scalar, as drawn by the test pattern:
/// the packed pixel of `from_value` in memory order.
pub fn from_value(value: u32) -> (r: Result<[u8; 4], UpdaterError>)
    ensures
        value < 0x40000 ==> r.is_ok() && r.unwrap()@ == seq![
            spec_pixel_of(value).b,
            spec_pixel_of(value).g,
            spec_pixel_of(value).r,
            0xFFu8,
        ],
        value >= 0x40000 ==> r.is_err(),
{
    let c = ByteColor::from_value(value)?;
    Ok(c.to_array())
}


/// The swatch sheet drawn by the test pattern: the named display colors
/// in their fixed order, two to a row.
pub struct ColorArray(pub Vec<RGBInt>);

pub open spec fn spec_color_array() -> Seq<RGBInt> {
    seq![
        spec_rgb(crate::config::RGB_TIME_ENDED),
        spec_rgb(crate::config::RGB_TIME_DASH),
        spec_rgb(crate::config::RGB_TIME),
        spec_rgb(crate::config::RGB_TEXT_ENDED),
        spec_rgb(crate::config::RGB_DATE),
        spec_rgb(crate::config::RGB_TEXT),
        spec_rgb(crate::config::RGB_EVENT_MARKER),
        spec_rgb(0xFF00FF),
    ]
}

pub fn color_array() -> (r: ColorArray)
    ensures
        r.0@ == spec_color_array(),
{
    let v: Vec<RGBInt> = vec![
        rgb(crate::config::RGB_TIME_ENDED),
        rgb(crate::config::RGB_TIME_DASH),
        rgb(crate::config::RGB_TIME),
        rgb(crate::config::RGB_TEXT_ENDED),
        rgb(crate::config::RGB_DATE),
        rgb(crate::config::RGB_TEXT),
        rgb(crate::config::RGB_EVENT_MARKER),
        rgb(0xFF00FF),
    ];
    proof {
        assert(v@ =~= spec_color_array());
    }
    ColorArray(v)
}

impl ColorArray {
    /// The sheet's pixel bounds: two swatches wide, one row per started
    /// pair of entries.
    pub fn bounds(&self) -> (r: (u64, u64))
        requires
            self.0@.len() <= 0xFFFFFFFF,
        ensures
            r.0 == 2 * crate::config::SWATCH_SIZE,
            r.1 == ((self.0@.len() + 1) / 2) * crate::config::SWATCH_SIZE,
    {
        let n = self.0.len() as u64;
        let rows = n / 2 + n % 2;
        proof {
            assert(rows == (self.0@.len() + 1) / 2);
            assert((n / 2 + n % 2) * (crate::config::SWATCH_SIZE as int) < 0x10000000000000000)
                by (nonlinear_arith)
                requires
                    n <= 0xFFFFFFFFu64,
            ;
        }
        ((2 * crate::config::SWATCH_SIZE) as u64, rows * (crate::config::SWATCH_SIZE as u64))
    }
}

} // verus!
