//! The colour modes a PSD header can name, and which of them the importer
//! accepts.

use vstd::prelude::*;

use super::error::PsdError;

verus! {

/// The colour mode stored in a PSD file header.
#[derive(Debug, Clone, Copy, PartialEq, Eq, Structural)]
pub enum PsdColorMode {
    /// One bit per pixel.
    Bitmap,
    /// A single gray channel.
    Grayscale,
    /// Palette indices.
    Indexed,
    /// Red, green and blue.
    Rgb,
    /// Cyan, magenta, yellow and black.
    Cmyk,
    /// Any number of spot channels.
    Multichannel,
    /// One to four inks.
    Duotone,
    /// CIE L*a*b*.
    Lab,
}

/// The name a refused colour mode is reported by.
pub open spec fn color_mode_name(mode: PsdColorMode) -> Seq<char> {
    match mode {
        PsdColorMode::Bitmap => "Bitmap"@,
        PsdColorMode::Grayscale => "Grayscale"@,
        PsdColorMode::Indexed => "Indexed"@,
        PsdColorMode::Rgb => "Rgb"@,
        PsdColorMode::Cmyk => "Cmyk"@,
        PsdColorMode::Multichannel => "Multichannel"@,
        PsdColorMode::Duotone => "Duotone"@,
        PsdColorMode::Lab => "Lab"@,
    }
}

/// Accept the colour modes the importer represents faithfully (RGB and
/// Grayscale); refuse any other, naming it.
pub fn require_supported_color_mode(mode: PsdColorMode) -> (r: Result<(), PsdError>)
    ensures
        match mode {
            PsdColorMode::Rgb | PsdColorMode::Grayscale => r is Ok,
            _ => r matches Err(PsdError::UnsupportedColorMode(name)) && name@ == color_mode_name(mode),
        },
{
    let name = match mode {
        PsdColorMode::Rgb | PsdColorMode::Grayscale => return Ok(()),
        PsdColorMode::Bitmap => "Bitmap",
        PsdColorMode::Indexed => "Indexed",
        PsdColorMode::Cmyk => "Cmyk",
        PsdColorMode::Multichannel => "Multichannel",
        PsdColorMode::Duotone => "Duotone",
        PsdColorMode::Lab => "Lab",
    };
    Err(PsdError::UnsupportedColorMode(name.to_owned()))
}

} // verus!
