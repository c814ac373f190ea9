//! Color representations and the conversions between them.
//!
//! A [`Color`] holds each channel as a fixed-point fraction of
//! [`CHANNEL_ONE`], so a channel value `n` stands for the normalized intensity
//! `n / CHANNEL_ONE` in `0.0 ..= 1.0`. The interchange representation
//! [`XoppColor`] holds each channel as an 8-bit integer in `0 ..= 255`.
//!
//! Since `CHANNEL_ONE == 255 * 256`, the conversion from interchange channels
//! is exact, and the conversion to interchange channels is the exact
//! truncation `floor(channel * 255)` of the normalized intensity. The round
//! trip through both conversions is intentionally lossy: it may lose up to
//! (but strictly less than) `1/255` of a channel.

use vstd::prelude::*;

verus! {

/// The fixed-point channel value that stands for the normalized intensity 1.0
/// (255 * 256).
pub const CHANNEL_ONE: u32 = 65280;

/// A color with red, green, blue and alpha channels, each a fixed-point
/// fraction of [`CHANNEL_ONE`].
#[derive(Clone, Copy, Debug, PartialEq, Eq)]
pub struct Color {
    pub r: u32,
    pub g: u32,
    pub b: u32,
    pub a: u32,
}

/// An interchange color with four 8-bit channels, as used by the interchange
/// file format.
#[derive(Clone, Copy, Debug, PartialEq, Eq)]
pub struct XoppColor {
    pub red: u8,
    pub green: u8,
    pub blue: u8,
    pub alpha: u8,
}

impl Color {
    /// Every channel is at most [`CHANNEL_ONE`], i.e. stands for an intensity
    /// in `0.0 ..= 1.0`.
    pub open spec fn spec_wf(self) -> bool {
        self.r <= CHANNEL_ONE && self.g <= CHANNEL_ONE && self.b <= CHANNEL_ONE && self.a
            <= CHANNEL_ONE
    }

    pub fn new(r: u32, g: u32, b: u32, a: u32) -> (c: Color)
        ensures
            c == (Color { r, g, b, a }),
    {
        Color { r, g, b, a }
    }

    /// How dark the color is: the sum of its red, green and blue channels,
    /// lower meaning darker. Alpha does not enter.
    pub open spec fn spec_darkness(self) -> int {
        self.r + self.g + self.b
    }

    /// The sum of the red, green and blue channels; lower means darker.
    pub fn darkness(&self) -> (d: u64)
        ensures
            d == self.spec_darkness(),
    {
        self.r as u64 + self.g as u64 + self.b as u64
    }
}

/// What converting one interchange channel to fixed point yields.
pub open spec fn spec_channel_from_xopp(c: u8) -> u32 {
    (c * 256) as u32
}

/// What converting one fixed-point channel to an interchange channel yields:
/// the truncation `floor(channel * 255)` of the normalized intensity.
pub open spec fn spec_channel_to_xopp(c: u32) -> u8
    recommends
        c <= CHANNEL_ONE,
{
    (c / 256) as u8
}

/// Converts an interchange color (channels `0 ..= 255`) to a [`Color`]
/// (channels `0 ..= CHANNEL_ONE`). Exact and total.
pub fn color_from_xopp(xopp_color: XoppColor) -> (c: Color)
    ensures
        c.r == spec_channel_from_xopp(xopp_color.red),
        c.g == spec_channel_from_xopp(xopp_color.green),
        c.b == spec_channel_from_xopp(xopp_color.blue),
        c.a == spec_channel_from_xopp(xopp_color.alpha),
        c.spec_wf(),
{
    Color {
        r: xopp_color.red as u32 * 256,
        g: xopp_color.green as u32 * 256,
        b: xopp_color.blue as u32 * 256,
        a: xopp_color.alpha as u32 * 256,
    }
}

/// Converts a [`Color`] to an interchange color by truncating each normalized
/// channel intensity to `floor(channel * 255)`.
pub fn xoppcolor_from_color(color: Color) -> (x: XoppColor)
    requires
        color.spec_wf(),
    ensures
        x.red == spec_channel_to_xopp(color.r),
        x.green == spec_channel_to_xopp(color.g),
        x.blue == spec_channel_to_xopp(color.b),
        x.alpha == spec_channel_to_xopp(color.a),
{
    XoppColor {
        red: (color.r / 256) as u8,
        green: (color.g / 256) as u8,
        blue: (color.b / 256) as u8,
        alpha: (color.a / 256) as u8,
    }
}

/// The color round trip through the interchange representation loses strictly
/// less than `1/255` of each channel (`CHANNEL_ONE / 255 == 256` fixed-point
/// units), never gains, and is exact at the endpoints `0.0` and `1.0`.
pub proof fn lemma_color_roundtrip(c: u32)
    requires
        c <= CHANNEL_ONE,
    ensures
        spec_channel_from_xopp(spec_channel_to_xopp(c)) <= c,
        c - spec_channel_from_xopp(spec_channel_to_xopp(c)) < 256,
        c == 0 ==> spec_channel_from_xopp(spec_channel_to_xopp(c)) == 0,
        c == CHANNEL_ONE ==> spec_channel_from_xopp(spec_channel_to_xopp(c)) == CHANNEL_ONE,
        c == CHANNEL_ONE ==> spec_channel_to_xopp(c) == 255,
{
}

} // verus!
