//! [`ColorSpaceId`] and the well-known colour spaces.

use vstd::prelude::*;

use crate::pixel_layer::ChannelLayout;
use crate::text::str_eq;

verus! {

/// Identifier for a pixel-data colour space; wraps its AIF string name.
///
/// Use the provided constructors ([`SRGB`], [`LINEAR_SRGB`], …); unknown colour
/// spaces from third-party files are parsed with
/// [`ColorSpaceId::from_aif_str`].
#[derive(Debug, Clone, Copy, PartialEq, Eq, Hash)]
pub struct ColorSpaceId(&'static str);

/// sRGB with its transfer curve, for display.
#[allow(non_snake_case)]
pub fn SRGB() -> (r: ColorSpaceId)
    ensures
        r.name() == "srgb"@,
{
    ColorSpaceId("srgb")
}

/// Linear-light sRGB — the compositor's working colour space.
#[allow(non_snake_case)]
pub fn LINEAR_SRGB() -> (r: ColorSpaceId)
    ensures
        r.name() == "linear-srgb"@,
{
    ColorSpaceId("linear-srgb")
}

/// DCI-P3 with a D65 white point.
#[allow(non_snake_case)]
pub fn DISPLAY_P3() -> (r: ColorSpaceId)
    ensures
        r.name() == "display-p3"@,
{
    ColorSpaceId("display-p3")
}

/// ProPhoto RGB (very wide gamut).
#[allow(non_snake_case)]
pub fn PROPHOTO_RGB() -> (r: ColorSpaceId)
    ensures
        r.name() == "prophoto-rgb"@,
{
    ColorSpaceId("prophoto-rgb")
}

/// Generic CMYK.
#[allow(non_snake_case)]
pub fn CMYK_GENERIC() -> (r: ColorSpaceId)
    ensures
        r.name() == "cmyk-generic"@,
{
    ColorSpaceId("cmyk-generic")
}

/// The known colour space named `s`, if any.
pub open spec fn color_space_of_name(s: Seq<char>) -> Option<Seq<char>> {
    if s == "srgb"@ || s == "linear-srgb"@ || s == "display-p3"@ || s == "prophoto-rgb"@
        || s == "cmyk-generic"@ {
        Some(s)
    } else {
        None
    }
}

impl ColorSpaceId {
    /// The AIF name this identifier wraps.
    pub closed spec fn name(self) -> Seq<char> {
        self.0@
    }

    /// Return the AIF string identifier for this colour space.
    pub fn as_str(self) -> (r: &'static str)
        ensures
            r@ == self.name(),
    {
        self.0
    }

    /// Parse a colour space identifier from an AIF string.
    ///
    /// Returns `None` for unknown identifiers; callers fall back to [`SRGB`].
    pub fn from_aif_str(s: &str) -> (r: Option<ColorSpaceId>)
        ensures
            match r {
                Some(cs) => color_space_of_name(s@) == Some(cs.name()),
                None => color_space_of_name(s@).is_none(),
            },
    {
        if str_eq(s, "srgb") {
            Some(SRGB())
        } else if str_eq(s, "linear-srgb") {
            Some(LINEAR_SRGB())
        } else if str_eq(s, "display-p3") {
            Some(DISPLAY_P3())
        } else if str_eq(s, "prophoto-rgb") {
            Some(PROPHOTO_RGB())
        } else if str_eq(s, "cmyk-generic") {
            Some(CMYK_GENERIC())
        } else {
            None
        }
    }

    /// Whether this colour space can be used with `layout`: the CMYK space
    /// goes with the CMYK layout only, every other space with every other
    /// layout.
    pub fn is_compatible_with_channel_layout(self, layout: ChannelLayout) -> (r: bool)
        ensures
            r == ((self.name() == "cmyk-generic"@) == (layout == ChannelLayout::Cmyk)),
    {
        let is_cmyk_space = str_eq(self.0, "cmyk-generic");
        let is_cmyk_layout = match layout {
            ChannelLayout::Cmyk => true,
            _ => false,
        };
        is_cmyk_space == is_cmyk_layout
    }
}

} // verus!
