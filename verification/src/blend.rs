//! [`BlendMode`]: the Photoshop-compatible compositing modes and their
//! AIF string identifiers.

use vstd::prelude::*;

use crate::psd::psd_mode_name;
use crate::text::str_eq;

verus! {

/// How a layer is combined with what lies beneath it.
///
/// Every mode is present so that documents load and save without loss, even
/// where the compositor treats a mode as `Normal`.
#[derive(Debug, Clone, Copy, PartialEq, Eq, Hash, Structural)]
pub enum BlendMode {
    /// Source hue and saturation with backdrop luminance.
    Color,
    /// Backdrop darkened to reflect the source, raising contrast.
    ColorBurn,
    /// Backdrop brightened to reflect the source, lowering contrast.
    ColorDodge,
    /// Per channel, the smaller of source and backdrop.
    Darken,
    /// Whole pixel with the lower luminance.
    DarkerColor,
    /// Absolute difference of source and backdrop.
    Difference,
    /// Random per-pixel coverage driven by opacity.
    Dissolve,
    /// Backdrop divided by source.
    Divide,
    /// A lower-contrast difference.
    Exclusion,
    /// Multiply or screen, chosen by the source.
    HardLight,
    /// Each channel pushed to zero or one.
    HardMix,
    /// Source hue with backdrop saturation and luminance.
    Hue,
    /// Per channel, the larger of source and backdrop.
    Lighten,
    /// Whole pixel with the higher luminance.
    LighterColor,
    /// Sum of source and backdrop minus one.
    LinearBurn,
    /// Sum of source and backdrop (also called add).
    LinearDodge,
    /// Linear burn or linear dodge, chosen by the source.
    LinearLight,
    /// Product of source and backdrop.
    Multiply,
    /// Source over destination: plain alpha compositing.
    Normal,
    /// Multiply or screen, chosen by the backdrop.
    Overlay,
    /// Darken or lighten against mid grey, chosen by the source.
    PinLight,
    /// Source saturation with backdrop hue and luminance.
    Saturation,
    /// Complement of the product of the complements.
    Screen,
    /// A gentle darken or lighten, chosen by the source.
    SoftLight,
    /// Backdrop minus source.
    Subtract,
    /// Colour burn or colour dodge, chosen by the source.
    VividLight,
    /// Source luminance with backdrop hue and saturation.
    Luminosity,
}

/// The AIF identifier of each mode, as a character sequence.
pub open spec fn aif_name(mode: BlendMode) -> Seq<char> {
    match mode {
        BlendMode::Color => "color"@,
        BlendMode::ColorBurn => "color-burn"@,
        BlendMode::ColorDodge => "color-dodge"@,
        BlendMode::Darken => "darken"@,
        BlendMode::DarkerColor => "darker-color"@,
        BlendMode::Difference => "difference"@,
        BlendMode::Dissolve => "dissolve"@,
        BlendMode::Divide => "divide"@,
        BlendMode::Exclusion => "exclusion"@,
        BlendMode::HardLight => "hard-light"@,
        BlendMode::HardMix => "hard-mix"@,
        BlendMode::Hue => "hue"@,
        BlendMode::Lighten => "lighten"@,
        BlendMode::LighterColor => "lighter-color"@,
        BlendMode::LinearBurn => "linear-burn"@,
        BlendMode::LinearDodge => "linear-dodge"@,
        BlendMode::LinearLight => "linear-light"@,
        BlendMode::Luminosity => "luminosity"@,
        BlendMode::Multiply => "multiply"@,
        BlendMode::Normal => "normal"@,
        BlendMode::Overlay => "overlay"@,
        BlendMode::PinLight => "pin-light"@,
        BlendMode::Saturation => "saturation"@,
        BlendMode::Screen => "screen"@,
        BlendMode::SoftLight => "soft-light"@,
        BlendMode::Subtract => "subtract"@,
        BlendMode::VividLight => "vivid-light"@,
    }
}

/// The mode whose AIF identifier is `s`, if any.
pub open spec fn mode_of_aif_name(s: Seq<char>) -> Option<BlendMode> {
    if s == "normal"@ {
        Some(BlendMode::Normal)
    } else if s == "dissolve"@ {
        Some(BlendMode::Dissolve)
    } else if s == "darken"@ {
        Some(BlendMode::Darken)
    } else if s == "multiply"@ {
        Some(BlendMode::Multiply)
    } else if s == "color-burn"@ {
        Some(BlendMode::ColorBurn)
    } else if s == "linear-burn"@ {
        Some(BlendMode::LinearBurn)
    } else if s == "darker-color"@ {
        Some(BlendMode::DarkerColor)
    } else if s == "lighten"@ {
        Some(BlendMode::Lighten)
    } else if s == "screen"@ {
        Some(BlendMode::Screen)
    } else if s == "color-dodge"@ {
        Some(BlendMode::ColorDodge)
    } else if s == "linear-dodge"@ {
        Some(BlendMode::LinearDodge)
    } else if s == "lighter-color"@ {
        Some(BlendMode::LighterColor)
    } else if s == "overlay"@ {
        Some(BlendMode::Overlay)
    } else if s == "soft-light"@ {
        Some(BlendMode::SoftLight)
    } else if s == "hard-light"@ {
        Some(BlendMode::HardLight)
    } else if s == "vivid-light"@ {
        Some(BlendMode::VividLight)
    } else if s == "linear-light"@ {
        Some(BlendMode::LinearLight)
    } else if s == "pin-light"@ {
        Some(BlendMode::PinLight)
    } else if s == "hard-mix"@ {
        Some(BlendMode::HardMix)
    } else if s == "difference"@ {
        Some(BlendMode::Difference)
    } else if s == "exclusion"@ {
        Some(BlendMode::Exclusion)
    } else if s == "subtract"@ {
        Some(BlendMode::Subtract)
    } else if s == "divide"@ {
        Some(BlendMode::Divide)
    } else if s == "hue"@ {
        Some(BlendMode::Hue)
    } else if s == "saturation"@ {
        Some(BlendMode::Saturation)
    } else if s == "color"@ {
        Some(BlendMode::Color)
    } else if s == "luminosity"@ {
        Some(BlendMode::Luminosity)
    } else {
        None
    }
}

impl BlendMode {
    /// Parse a blend mode from its AIF string identifier.
    ///
    /// Unknown identifiers (identifiers are lower case) give `None`; callers
    /// treat them as `Normal`.
    pub fn from_aif_str(s: &str) -> (r: Option<BlendMode>)
        ensures
            r == mode_of_aif_name(s@),
    {
        if str_eq(s, "normal") {
            return Some(BlendMode::Normal);
        }
        if str_eq(s, "dissolve") {
            return Some(BlendMode::Dissolve);
        }
        if str_eq(s, "darken") {
            return Some(BlendMode::Darken);
        }
        if str_eq(s, "multiply") {
            return Some(BlendMode::Multiply);
        }
        if str_eq(s, "color-burn") {
            return Some(BlendMode::ColorBurn);
        }
        if str_eq(s, "linear-burn") {
            return Some(BlendMode::LinearBurn);
        }
        if str_eq(s, "darker-color") {
            return Some(BlendMode::DarkerColor);
        }
        if str_eq(s, "lighten") {
            return Some(BlendMode::Lighten);
        }
        if str_eq(s, "screen") {
            return Some(BlendMode::Screen);
        }
        if str_eq(s, "color-dodge") {
            return Some(BlendMode::ColorDodge);
        }
        if str_eq(s, "linear-dodge") {
            return Some(BlendMode::LinearDodge);
        }
        if str_eq(s, "lighter-color") {
            return Some(BlendMode::LighterColor);
        }
        if str_eq(s, "overlay") {
            return Some(BlendMode::Overlay);
        }
        if str_eq(s, "soft-light") {
            return Some(BlendMode::SoftLight);
        }
        if str_eq(s, "hard-light") {
            return Some(BlendMode::HardLight);
        }
        if str_eq(s, "vivid-light") {
            return Some(BlendMode::VividLight);
        }
        if str_eq(s, "linear-light") {
            return Some(BlendMode::LinearLight);
        }
        if str_eq(s, "pin-light") {
            return Some(BlendMode::PinLight);
        }
        if str_eq(s, "hard-mix") {
            return Some(BlendMode::HardMix);
        }
        if str_eq(s, "difference") {
            return Some(BlendMode::Difference);
        }
        if str_eq(s, "exclusion") {
            return Some(BlendMode::Exclusion);
        }
        if str_eq(s, "subtract") {
            return Some(BlendMode::Subtract);
        }
        if str_eq(s, "divide") {
            return Some(BlendMode::Divide);
        }
        if str_eq(s, "hue") {
            return Some(BlendMode::Hue);
        }
        if str_eq(s, "saturation") {
            return Some(BlendMode::Saturation);
        }
        if str_eq(s, "color") {
            return Some(BlendMode::Color);
        }
        if str_eq(s, "luminosity") {
            return Some(BlendMode::Luminosity);
        }
        None
    }

    /// The AIF string identifier of this blend mode.
    pub fn to_aif_str(self) -> (r: &'static str)
        ensures
            r@ == aif_name(self),
    {
        match self {
            BlendMode::Color => "color",
            BlendMode::ColorBurn => "color-burn",
            BlendMode::ColorDodge => "color-dodge",
            BlendMode::Darken => "darken",
            BlendMode::DarkerColor => "darker-color",
            BlendMode::Difference => "difference",
            BlendMode::Dissolve => "dissolve",
            BlendMode::Divide => "divide",
            BlendMode::Exclusion => "exclusion",
            BlendMode::HardLight => "hard-light",
            BlendMode::HardMix => "hard-mix",
            BlendMode::Hue => "hue",
            BlendMode::Lighten => "lighten",
            BlendMode::LighterColor => "lighter-color",
            BlendMode::LinearBurn => "linear-burn",
            BlendMode::LinearDodge => "linear-dodge",
            BlendMode::LinearLight => "linear-light",
            BlendMode::Luminosity => "luminosity",
            BlendMode::Multiply => "multiply",
            BlendMode::Normal => "normal",
            BlendMode::Overlay => "overlay",
            BlendMode::PinLight => "pin-light",
            BlendMode::Saturation => "saturation",
            BlendMode::Screen => "screen",
            BlendMode::SoftLight => "soft-light",
            BlendMode::Subtract => "subtract",
            BlendMode::VividLight => "vivid-light",
        }
    }
}

/// Every mode's identifier parses back to that mode.
pub proof fn lemma_aif_name_round_trip(mode: BlendMode)
    ensures
        mode_of_aif_name(aif_name(mode)) == Some(mode),
{
    match mode {
        BlendMode::Color => {
            reveal_strlit("normal");
            reveal_strlit("dissolve");
            reveal_strlit("darken");
            reveal_strlit("multiply");
            reveal_strlit("color-burn");
            reveal_strlit("linear-burn");
            reveal_strlit("darker-color");
            reveal_strlit("lighten");
            reveal_strlit("screen");
            reveal_strlit("color-dodge");
            reveal_strlit("linear-dodge");
            reveal_strlit("lighter-color");
            reveal_strlit("overlay");
            reveal_strlit("soft-light");
            reveal_strlit("hard-light");
            reveal_strlit("vivid-light");
            reveal_strlit("linear-light");
            reveal_strlit("pin-light");
            reveal_strlit("hard-mix");
            reveal_strlit("difference");
            reveal_strlit("exclusion");
            reveal_strlit("subtract");
            reveal_strlit("divide");
            reveal_strlit("hue");
            reveal_strlit("saturation");
            reveal_strlit("color");
            assert("color"@.len() != "normal"@.len()
                && "color"@.len() != "dissolve"@.len()
                && "color"@.len() != "darken"@.len()
                && "color"@.len() != "multiply"@.len()
                && "color"@.len() != "color-burn"@.len()
                && "color"@.len() != "linear-burn"@.len()
                && "color"@.len() != "darker-color"@.len()
                && "color"@.len() != "lighten"@.len()
                && "color"@.len() != "screen"@.len()
                && "color"@.len() != "color-dodge"@.len()
                && "color"@.len() != "linear-dodge"@.len()
                && "color"@.len() != "lighter-color"@.len()
                && "color"@.len() != "overlay"@.len()
                && "color"@.len() != "soft-light"@.len()
                && "color"@.len() != "hard-light"@.len()
                && "color"@.len() != "vivid-light"@.len()
                && "color"@.len() != "linear-light"@.len()
                && "color"@.len() != "pin-light"@.len()
                && "color"@.len() != "hard-mix"@.len()
                && "color"@.len() != "difference"@.len()
                && "color"@.len() != "exclusion"@.len()
                && "color"@.len() != "subtract"@.len()
                && "color"@.len() != "divide"@.len()
                && "color"@.len() != "hue"@.len()
                && "color"@.len() != "saturation"@.len());
        },
        BlendMode::ColorBurn => {
            reveal_strlit("normal");
            reveal_strlit("dissolve");
            reveal_strlit("darken");
            reveal_strlit("multiply");
            reveal_strlit("color-burn");
            assert("color-burn"@.len() != "normal"@.len()
                && "color-burn"@.len() != "dissolve"@.len()
                && "color-burn"@.len() != "darken"@.len()
                && "color-burn"@.len() != "multiply"@.len());
        },
        BlendMode::ColorDodge => {
            reveal_strlit("normal");
            reveal_strlit("dissolve");
            reveal_strlit("darken");
            reveal_strlit("multiply");
            reveal_strlit("color-burn");
            reveal_strlit("linear-burn");
            reveal_strlit("darker-color");
            reveal_strlit("lighten");
            reveal_strlit("screen");
            reveal_strlit("color-dodge");
            assert("color-dodge"@.len() != "normal"@.len()
                && "color-dodge"@.len() != "dissolve"@.len()
                && "color-dodge"@.len() != "darken"@.len()
                && "color-dodge"@.len() != "multiply"@.len()
                && "color-dodge"@.len() != "color-burn"@.len()
                && "color-dodge"@[0] != "linear-burn"@[0]
                && "color-dodge"@.len() != "darker-color"@.len()
                && "color-dodge"@.len() != "lighten"@.len()
                && "color-dodge"@.len() != "screen"@.len());
        },
        BlendMode::Darken => {
            reveal_strlit("normal");
            reveal_strlit("dissolve");
            reveal_strlit("darken");
            assert("darken"@[0] != "normal"@[0]
                && "darken"@.len() != "dissolve"@.len());
        },
        BlendMode::DarkerColor => {
            reveal_strlit("normal");
            reveal_strlit("dissolve");
            reveal_strlit("darken");
            reveal_strlit("multiply");
            reveal_strlit("color-burn");
            reveal_strlit("linear-burn");
            reveal_strlit("darker-color");
            assert("darker-color"@.len() != "normal"@.len()
                && "darker-color"@.len() != "dissolve"@.len()
                && "darker-color"@.len() != "darken"@.len()
                && "darker-color"@.len() != "multiply"@.len()
                && "darker-color"@.len() != "color-burn"@.len()
                && "darker-color"@.len() != "linear-burn"@.len());
        },
        BlendMode::Difference => {
            reveal_strlit("normal");
            reveal_strlit("dissolve");
            reveal_strlit("darken");
            reveal_strlit("multiply");
            reveal_strlit("color-burn");
            reveal_strlit("linear-burn");
            reveal_strlit("darker-color");
            reveal_strlit("lighten");
            reveal_strlit("screen");
            reveal_strlit("color-dodge");
            reveal_strlit("linear-dodge");
            reveal_strlit("lighter-color");
            reveal_strlit("overlay");
            reveal_strlit("soft-light");
            reveal_strlit("hard-light");
            reveal_strlit("vivid-light");
            reveal_strlit("linear-light");
            reveal_strlit("pin-light");
            reveal_strlit("hard-mix");
            reveal_strlit("difference");
            assert("difference"@.len() != "normal"@.len()
                && "difference"@.len() != "dissolve"@.len()
                && "difference"@.len() != "darken"@.len()
                && "difference"@.len() != "multiply"@.len()
                && "difference"@[0] != "color-burn"@[0]
                && "difference"@.len() != "linear-burn"@.len()
                && "difference"@.len() != "darker-color"@.len()
                && "difference"@.len() != "lighten"@.len()
                && "difference"@.len() != "screen"@.len()
                && "difference"@.len() != "color-dodge"@.len()
                && "difference"@.len() != "linear-dodge"@.len()
                && "difference"@.len() != "lighter-color"@.len()
                && "difference"@.len() != "overlay"@.len()
                && "difference"@[0] != "soft-light"@[0]
                && "difference"@[0] != "hard-light"@[0]
                && "difference"@.len() != "vivid-light"@.len()
                && "difference"@.len() != "linear-light"@.len()
                && "difference"@.len() != "pin-light"@.len()
                && "difference"@.len() != "hard-mix"@.len());
        },
        BlendMode::Dissolve => {
            reveal_strlit("normal");
            reveal_strlit("dissolve");
            assert("dissolve"@.len() != "normal"@.len());
        },
        BlendMode::Divide => {
            reveal_strlit("normal");
            reveal_strlit("dissolve");
            reveal_strlit("darken");
            reveal_strlit("multiply");
            reveal_strlit("color-burn");
            reveal_strlit("linear-burn");
            reveal_strlit("darker-color");
            reveal_strlit("lighten");
            reveal_strlit("screen");
            reveal_strlit("color-dodge");
            reveal_strlit("linear-dodge");
            reveal_strlit("lighter-color");
            reveal_strlit("overlay");
            reveal_strlit("soft-light");
            reveal_strlit("hard-light");
            reveal_strlit("vivid-light");
            reveal_strlit("linear-light");
            reveal_strlit("pin-light");
            reveal_strlit("hard-mix");
            reveal_strlit("difference");
            reveal_strlit("exclusion");
            reveal_strlit("subtract");
            reveal_strlit("divide");
            assert("divide"@[0] != "normal"@[0]
                && "divide"@.len() != "dissolve"@.len()
                && "divide"@[1] != "darken"@[1]
                && "divide"@.len() != "multiply"@.len()
                && "divide"@.len() != "color-burn"@.len()
                && "divide"@.len() != "linear-burn"@.len()
                && "divide"@.len() != "darker-color"@.len()
                && "divide"@.len() != "lighten"@.len()
                && "divide"@[0] != "screen"@[0]
                && "divide"@.len() != "color-dodge"@.len()
                && "divide"@.len() != "linear-dodge"@.len()
                && "divide"@.len() != "lighter-color"@.len()
                && "divide"@.len() != "overlay"@.len()
                && "divide"@.len() != "soft-light"@.len()
                && "divide"@.len() != "hard-light"@.len()
                && "divide"@.len() != "vivid-light"@.len()
                && "divide"@.len() != "linear-light"@.len()
                && "divide"@.len() != "pin-light"@.len()
                && "divide"@.len() != "hard-mix"@.len()
                && "divide"@.len() != "difference"@.len()
                && "divide"@.len() != "exclusion"@.len()
                && "divide"@.len() != "subtract"@.len());
        },
        BlendMode::Exclusion => {
            reveal_strlit("normal");
            reveal_strlit("dissolve");
            reveal_strlit("darken");
            reveal_strlit("multiply");
            reveal_strlit("color-burn");
            reveal_strlit("linear-burn");
            reveal_strlit("darker-color");
            reveal_strlit("lighten");
            reveal_strlit("screen");
            reveal_strlit("color-dodge");
            reveal_strlit("linear-dodge");
            reveal_strlit("lighter-color");
            reveal_strlit("overlay");
            reveal_strlit("soft-light");
            reveal_strlit("hard-light");
            reveal_strlit("vivid-light");
            reveal_strlit("linear-light");
            reveal_strlit("pin-light");
            reveal_strlit("hard-mix");
            reveal_strlit("difference");
            reveal_strlit("exclusion");
            assert("exclusion"@.len() != "normal"@.len()
                && "exclusion"@.len() != "dissolve"@.len()
                && "exclusion"@.len() != "darken"@.len()
                && "exclusion"@.len() != "multiply"@.len()
                && "exclusion"@.len() != "color-burn"@.len()
                && "exclusion"@.len() != "linear-burn"@.len()
                && "exclusion"@.len() != "darker-color"@.len()
                && "exclusion"@.len() != "lighten"@.len()
                && "exclusion"@.len() != "screen"@.len()
                && "exclusion"@.len() != "color-dodge"@.len()
                && "exclusion"@.len() != "linear-dodge"@.len()
                && "exclusion"@.len() != "lighter-color"@.len()
                && "exclusion"@.len() != "overlay"@.len()
                && "exclusion"@.len() != "soft-light"@.len()
                && "exclusion"@.len() != "hard-light"@.len()
                && "exclusion"@.len() != "vivid-light"@.len()
                && "exclusion"@.len() != "linear-light"@.len()
                && "exclusion"@[0] != "pin-light"@[0]
                && "exclusion"@.len() != "hard-mix"@.len()
                && "exclusion"@.len() != "difference"@.len());
        },
        BlendMode::HardLight => {
            reveal_strlit("normal");
            reveal_strlit("dissolve");
            reveal_strlit("darken");
            reveal_strlit("multiply");
            reveal_strlit("color-burn");
            reveal_strlit("linear-burn");
            reveal_strlit("darker-color");
            reveal_strlit("lighten");
            reveal_strlit("screen");
            reveal_strlit("color-dodge");
            reveal_strlit("linear-dodge");
            reveal_strlit("lighter-color");
            reveal_strlit("overlay");
            reveal_strlit("soft-light");
            reveal_strlit("hard-light");
            assert("hard-light"@.len() != "normal"@.len()
                && "hard-light"@.len() != "dissolve"@.len()
                && "hard-light"@.len() != "darken"@.len()
                && "hard-light"@.len() != "multiply"@.len()
                && "hard-light"@[0] != "color-burn"@[0]
                && "hard-light"@.len() != "linear-burn"@.len()
                && "hard-light"@.len() != "darker-color"@.len()
                && "hard-light"@.len() != "lighten"@.len()
                && "hard-light"@.len() != "screen"@.len()
                && "hard-light"@.len() != "color-dodge"@.len()
                && "hard-light"@.len() != "linear-dodge"@.len()
                && "hard-light"@.len() != "lighter-color"@.len()
                && "hard-light"@.len() != "overlay"@.len()
                && "hard-light"@[0] != "soft-light"@[0]);
        },
        BlendMode::HardMix => {
            reveal_strlit("normal");
            reveal_strlit("dissolve");
            reveal_strlit("darken");
            reveal_strlit("multiply");
            reveal_strlit("color-burn");
            reveal_strlit("linear-burn");
            reveal_strlit("darker-color");
            reveal_strlit("lighten");
            reveal_strlit("screen");
            reveal_strlit("color-dodge");
            reveal_strlit("linear-dodge");
            reveal_strlit("lighter-color");
            reveal_strlit("overlay");
            reveal_strlit("soft-light");
            reveal_strlit("hard-light");
            reveal_strlit("vivid-light");
            reveal_strlit("linear-light");
            reveal_strlit("pin-light");
            reveal_strlit("hard-mix");
            assert("hard-mix"@.len() != "normal"@.len()
                && "hard-mix"@[0] != "dissolve"@[0]
                && "hard-mix"@.len() != "darken"@.len()
                && "hard-mix"@[0] != "multiply"@[0]
                && "hard-mix"@.len() != "color-burn"@.len()
                && "hard-mix"@.len() != "linear-burn"@.len()
                && "hard-mix"@.len() != "darker-color"@.len()
                && "hard-mix"@.len() != "lighten"@.len()
                && "hard-mix"@.len() != "screen"@.len()
                && "hard-mix"@.len() != "color-dodge"@.len()
                && "hard-mix"@.len() != "linear-dodge"@.len()
                && "hard-mix"@.len() != "lighter-color"@.len()
                && "hard-mix"@.len() != "overlay"@.len()
                && "hard-mix"@.len() != "soft-light"@.len()
                && "hard-mix"@.len() != "hard-light"@.len()
                && "hard-mix"@.len() != "vivid-light"@.len()
                && "hard-mix"@.len() != "linear-light"@.len()
                && "hard-mix"@.len() != "pin-light"@.len());
        },
        BlendMode::Hue => {
            reveal_strlit("normal");
            reveal_strlit("dissolve");
            reveal_strlit("darken");
            reveal_strlit("multiply");
            reveal_strlit("color-burn");
            reveal_strlit("linear-burn");
            reveal_strlit("darker-color");
            reveal_strlit("lighten");
            reveal_strlit("screen");
            reveal_strlit("color-dodge");
            reveal_strlit("linear-dodge");
            reveal_strlit("lighter-color");
            reveal_strlit("overlay");
            reveal_strlit("soft-light");
            reveal_strlit("hard-light");
            reveal_strlit("vivid-light");
            reveal_strlit("linear-light");
            reveal_strlit("pin-light");
            reveal_strlit("hard-mix");
            reveal_strlit("difference");
            reveal_strlit("exclusion");
            reveal_strlit("subtract");
            reveal_strlit("divide");
            reveal_strlit("hue");
            assert("hue"@.len() != "normal"@.len()
                && "hue"@.len() != "dissolve"@.len()
                && "hue"@.len() != "darken"@.len()
                && "hue"@.len() != "multiply"@.len()
                && "hue"@.len() != "color-burn"@.len()
                && "hue"@.len() != "linear-burn"@.len()
                && "hue"@.len() != "darker-color"@.len()
                && "hue"@.len() != "lighten"@.len()
                && "hue"@.len() != "screen"@.len()
                && "hue"@.len() != "color-dodge"@.len()
                && "hue"@.len() != "linear-dodge"@.len()
                && "hue"@.len() != "lighter-color"@.len()
                && "hue"@.len() != "overlay"@.len()
                && "hue"@.len() != "soft-light"@.len()
                && "hue"@.len() != "hard-light"@.len()
                && "hue"@.len() != "vivid-light"@.len()
                && "hue"@.len() != "linear-light"@.len()
                && "hue"@.len() != "pin-light"@.len()
                && "hue"@.len() != "hard-mix"@.len()
                && "hue"@.len() != "difference"@.len()
                && "hue"@.len() != "exclusion"@.len()
                && "hue"@.len() != "subtract"@.len()
                && "hue"@.len() != "divide"@.len());
        },
        BlendMode::Lighten => {
            reveal_strlit("normal");
            reveal_strlit("dissolve");
            reveal_strlit("darken");
            reveal_strlit("multiply");
            reveal_strlit("color-burn");
            reveal_strlit("linear-burn");
            reveal_strlit("darker-color");
            reveal_strlit("lighten");
            assert("lighten"@.len() != "normal"@.len()
                && "lighten"@.len() != "dissolve"@.len()
                && "lighten"@.len() != "darken"@.len()
                && "lighten"@.len() != "multiply"@.len()
                && "lighten"@.len() != "color-burn"@.len()
                && "lighten"@.len() != "linear-burn"@.len()
                && "lighten"@.len() != "darker-color"@.len());
        },
        BlendMode::LighterColor => {
            reveal_strlit("normal");
            reveal_strlit("dissolve");
            reveal_strlit("darken");
            reveal_strlit("multiply");
            reveal_strlit("color-burn");
            reveal_strlit("linear-burn");
            reveal_strlit("darker-color");
            reveal_strlit("lighten");
            reveal_strlit("screen");
            reveal_strlit("color-dodge");
            reveal_strlit("linear-dodge");
            reveal_strlit("lighter-color");
            assert("lighter-color"@.len() != "normal"@.len()
                && "lighter-color"@.len() != "dissolve"@.len()
                && "lighter-color"@.len() != "darken"@.len()
                && "lighter-color"@.len() != "multiply"@.len()
                && "lighter-color"@.len() != "color-burn"@.len()
                && "lighter-color"@.len() != "linear-burn"@.len()
                && "lighter-color"@.len() != "darker-color"@.len()
                && "lighter-color"@.len() != "lighten"@.len()
                && "lighter-color"@.len() != "screen"@.len()
                && "lighter-color"@.len() != "color-dodge"@.len()
                && "lighter-color"@.len() != "linear-dodge"@.len());
        },
        BlendMode::LinearBurn => {
            reveal_strlit("normal");
            reveal_strlit("dissolve");
            reveal_strlit("darken");
            reveal_strlit("multiply");
            reveal_strlit("color-burn");
            reveal_strlit("linear-burn");
            assert("linear-burn"@.len() != "normal"@.len()
                && "linear-burn"@.len() != "dissolve"@.len()
                && "linear-burn"@.len() != "darken"@.len()
                && "linear-burn"@.len() != "multiply"@.len()
                && "linear-burn"@.len() != "color-burn"@.len());
        },
        BlendMode::LinearDodge => {
            reveal_strlit("normal");
            reveal_strlit("dissolve");
            reveal_strlit("darken");
            reveal_strlit("multiply");
            reveal_strlit("color-burn");
            reveal_strlit("linear-burn");
            reveal_strlit("darker-color");
            reveal_strlit("lighten");
            reveal_strlit("screen");
            reveal_strlit("color-dodge");
            reveal_strlit("linear-dodge");
            assert("linear-dodge"@.len() != "normal"@.len()
                && "linear-dodge"@.len() != "dissolve"@.len()
                && "linear-dodge"@.len() != "darken"@.len()
                && "linear-dodge"@.len() != "multiply"@.len()
                && "linear-dodge"@.len() != "color-burn"@.len()
                && "linear-dodge"@.len() != "linear-burn"@.len()
                && "linear-dodge"@[0] != "darker-color"@[0]
                && "linear-dodge"@.len() != "lighten"@.len()
                && "linear-dodge"@.len() != "screen"@.len()
                && "linear-dodge"@.len() != "color-dodge"@.len());
        },
        BlendMode::LinearLight => {
            reveal_strlit("normal");
            reveal_strlit("dissolve");
            reveal_strlit("darken");
            reveal_strlit("multiply");
            reveal_strlit("color-burn");
            reveal_strlit("linear-burn");
            reveal_strlit("darker-color");
            reveal_strlit("lighten");
            reveal_strlit("screen");
            reveal_strlit("color-dodge");
            reveal_strlit("linear-dodge");
            reveal_strlit("lighter-color");
            reveal_strlit("overlay");
            reveal_strlit("soft-light");
            reveal_strlit("hard-light");
            reveal_strlit("vivid-light");
            reveal_strlit("linear-light");
            assert("linear-light"@.len() != "normal"@.len()
                && "linear-light"@.len() != "dissolve"@.len()
                && "linear-light"@.len() != "darken"@.len()
                && "linear-light"@.len() != "multiply"@.len()
                && "linear-light"@.len() != "color-burn"@.len()
                && "linear-light"@.len() != "linear-burn"@.len()
                && "linear-light"@[0] != "darker-color"@[0]
                && "linear-light"@.len() != "lighten"@.len()
                && "linear-light"@.len() != "screen"@.len()
                && "linear-light"@.len() != "color-dodge"@.len()
                && "linear-light"@[7] != "linear-dodge"@[7]
                && "linear-light"@.len() != "lighter-color"@.len()
                && "linear-light"@.len() != "overlay"@.len()
                && "linear-light"@.len() != "soft-light"@.len()
                && "linear-light"@.len() != "hard-light"@.len()
                && "linear-light"@.len() != "vivid-light"@.len());
        },
        BlendMode::Luminosity => {
            reveal_strlit("normal");
            reveal_strlit("dissolve");
            reveal_strlit("darken");
            reveal_strlit("multiply");
            reveal_strlit("color-burn");
            reveal_strlit("linear-burn");
            reveal_strlit("darker-color");
            reveal_strlit("lighten");
            reveal_strlit("screen");
            reveal_strlit("color-dodge");
            reveal_strlit("linear-dodge");
            reveal_strlit("lighter-color");
            reveal_strlit("overlay");
            reveal_strlit("soft-light");
            reveal_strlit("hard-light");
            reveal_strlit("vivid-light");
            reveal_strlit("linear-light");
            reveal_strlit("pin-light");
            reveal_strlit("hard-mix");
            reveal_strlit("difference");
            reveal_strlit("exclusion");
            reveal_strlit("subtract");
            reveal_strlit("divide");
            reveal_strlit("hue");
            reveal_strlit("saturation");
            reveal_strlit("color");
            reveal_strlit("luminosity");
            assert("luminosity"@.len() != "normal"@.len()
                && "luminosity"@.len() != "dissolve"@.len()
                && "luminosity"@.len() != "darken"@.len()
                && "luminosity"@.len() != "multiply"@.len()
                && "luminosity"@[0] != "color-burn"@[0]
                && "luminosity"@.len() != "linear-burn"@.len()
                && "luminosity"@.len() != "darker-color"@.len()
                && "luminosity"@.len() != "lighten"@.len()
                && "luminosity"@.len() != "screen"@.len()
                && "luminosity"@.len() != "color-dodge"@.len()
                && "luminosity"@.len() != "linear-dodge"@.len()
                && "luminosity"@.len() != "lighter-color"@.len()
                && "luminosity"@.len() != "overlay"@.len()
                && "luminosity"@[0] != "soft-light"@[0]
                && "luminosity"@[0] != "hard-light"@[0]
                && "luminosity"@.len() != "vivid-light"@.len()
                && "luminosity"@.len() != "linear-light"@.len()
                && "luminosity"@.len() != "pin-light"@.len()
                && "luminosity"@.len() != "hard-mix"@.len()
                && "luminosity"@[0] != "difference"@[0]
                && "luminosity"@.len() != "exclusion"@.len()
                && "luminosity"@.len() != "subtract"@.len()
                && "luminosity"@.len() != "divide"@.len()
                && "luminosity"@.len() != "hue"@.len()
                && "luminosity"@[0] != "saturation"@[0]
                && "luminosity"@.len() != "color"@.len());
        },
        BlendMode::Multiply => {
            reveal_strlit("normal");
            reveal_strlit("dissolve");
            reveal_strlit("darken");
            reveal_strlit("multiply");
            assert("multiply"@.len() != "normal"@.len()
                && "multiply"@[0] != "dissolve"@[0]
                && "multiply"@.len() != "darken"@.len());
        },
        BlendMode::Normal => {
            reveal_strlit("normal");
        },
        BlendMode::Overlay => {
            reveal_strlit("normal");
            reveal_strlit("dissolve");
            reveal_strlit("darken");
            reveal_strlit("multiply");
            reveal_strlit("color-burn");
            reveal_strlit("linear-burn");
            reveal_strlit("darker-color");
            reveal_strlit("lighten");
            reveal_strlit("screen");
            reveal_strlit("color-dodge");
            reveal_strlit("linear-dodge");
            reveal_strlit("lighter-color");
            reveal_strlit("overlay");
            assert("overlay"@.len() != "normal"@.len()
                && "overlay"@.len() != "dissolve"@.len()
                && "overlay"@.len() != "darken"@.len()
                && "overlay"@.len() != "multiply"@.len()
                && "overlay"@.len() != "color-burn"@.len()
                && "overlay"@.len() != "linear-burn"@.len()
                && "overlay"@.len() != "darker-color"@.len()
                && "overlay"@[0] != "lighten"@[0]
                && "overlay"@.len() != "screen"@.len()
                && "overlay"@.len() != "color-dodge"@.len()
                && "overlay"@.len() != "linear-dodge"@.len()
                && "overlay"@.len() != "lighter-color"@.len());
        },
        BlendMode::PinLight => {
            reveal_strlit("normal");
            reveal_strlit("dissolve");
            reveal_strlit("darken");
            reveal_strlit("multiply");
            reveal_strlit("color-burn");
            reveal_strlit("linear-burn");
            reveal_strlit("darker-color");
            reveal_strlit("lighten");
            reveal_strlit("screen");
            reveal_strlit("color-dodge");
            reveal_strlit("linear-dodge");
            reveal_strlit("lighter-color");
            reveal_strlit("overlay");
            reveal_strlit("soft-light");
            reveal_strlit("hard-light");
            reveal_strlit("vivid-light");
            reveal_strlit("linear-light");
            reveal_strlit("pin-light");
            assert("pin-light"@.len() != "normal"@.len()
                && "pin-light"@.len() != "dissolve"@.len()
                && "pin-light"@.len() != "darken"@.len()
                && "pin-light"@.len() != "multiply"@.len()
                && "pin-light"@.len() != "color-burn"@.len()
                && "pin-light"@.len() != "linear-burn"@.len()
                && "pin-light"@.len() != "darker-color"@.len()
                && "pin-light"@.len() != "lighten"@.len()
                && "pin-light"@.len() != "screen"@.len()
                && "pin-light"@.len() != "color-dodge"@.len()
                && "pin-light"@.len() != "linear-dodge"@.len()
                && "pin-light"@.len() != "lighter-color"@.len()
                && "pin-light"@.len() != "overlay"@.len()
                && "pin-light"@.len() != "soft-light"@.len()
                && "pin-light"@.len() != "hard-light"@.len()
                && "pin-light"@.len() != "vivid-light"@.len()
                && "pin-light"@.len() != "linear-light"@.len());
        },
        BlendMode::Saturation => {
            reveal_strlit("normal");
            reveal_strlit("dissolve");
            reveal_strlit("darken");
            reveal_strlit("multiply");
            reveal_strlit("color-burn");
            reveal_strlit("linear-burn");
            reveal_strlit("darker-color");
            reveal_strlit("lighten");
            reveal_strlit("screen");
            reveal_strlit("color-dodge");
            reveal_strlit("linear-dodge");
            reveal_strlit("lighter-color");
            reveal_strlit("overlay");
            reveal_strlit("soft-light");
            reveal_strlit("hard-light");
            reveal_strlit("vivid-light");
            reveal_strlit("linear-light");
            reveal_strlit("pin-light");
            reveal_strlit("hard-mix");
            reveal_strlit("difference");
            reveal_strlit("exclusion");
            reveal_strlit("subtract");
            reveal_strlit("divide");
            reveal_strlit("hue");
            reveal_strlit("saturation");
            assert("saturation"@.len() != "normal"@.len()
                && "saturation"@.len() != "dissolve"@.len()
                && "saturation"@.len() != "darken"@.len()
                && "saturation"@.len() != "multiply"@.len()
                && "saturation"@[0] != "color-burn"@[0]
                && "saturation"@.len() != "linear-burn"@.len()
                && "saturation"@.len() != "darker-color"@.len()
                && "saturation"@.len() != "lighten"@.len()
                && "saturation"@.len() != "screen"@.len()
                && "saturation"@.len() != "color-dodge"@.len()
                && "saturation"@.len() != "linear-dodge"@.len()
                && "saturation"@.len() != "lighter-color"@.len()
                && "saturation"@.len() != "overlay"@.len()
                && "saturation"@[1] != "soft-light"@[1]
                && "saturation"@[0] != "hard-light"@[0]
                && "saturation"@.len() != "vivid-light"@.len()
                && "saturation"@.len() != "linear-light"@.len()
                && "saturation"@.len() != "pin-light"@.len()
                && "saturation"@.len() != "hard-mix"@.len()
                && "saturation"@[0] != "difference"@[0]
                && "saturation"@.len() != "exclusion"@.len()
                && "saturation"@.len() != "subtract"@.len()
                && "saturation"@.len() != "divide"@.len()
                && "saturation"@.len() != "hue"@.len());
        },
        BlendMode::Screen => {
            reveal_strlit("normal");
            reveal_strlit("dissolve");
            reveal_strlit("darken");
            reveal_strlit("multiply");
            reveal_strlit("color-burn");
            reveal_strlit("linear-burn");
            reveal_strlit("darker-color");
            reveal_strlit("lighten");
            reveal_strlit("screen");
            assert("screen"@[0] != "normal"@[0]
                && "screen"@.len() != "dissolve"@.len()
                && "screen"@[0] != "darken"@[0]
                && "screen"@.len() != "multiply"@.len()
                && "screen"@.len() != "color-burn"@.len()
                && "screen"@.len() != "linear-burn"@.len()
                && "screen"@.len() != "darker-color"@.len()
                && "screen"@.len() != "lighten"@.len());
        },
        BlendMode::SoftLight => {
            reveal_strlit("normal");
            reveal_strlit("dissolve");
            reveal_strlit("darken");
            reveal_strlit("multiply");
            reveal_strlit("color-burn");
            reveal_strlit("linear-burn");
            reveal_strlit("darker-color");
            reveal_strlit("lighten");
            reveal_strlit("screen");
            reveal_strlit("color-dodge");
            reveal_strlit("linear-dodge");
            reveal_strlit("lighter-color");
            reveal_strlit("overlay");
            reveal_strlit("soft-light");
            assert("soft-light"@.len() != "normal"@.len()
                && "soft-light"@.len() != "dissolve"@.len()
                && "soft-light"@.len() != "darken"@.len()
                && "soft-light"@.len() != "multiply"@.len()
                && "soft-light"@[0] != "color-burn"@[0]
                && "soft-light"@.len() != "linear-burn"@.len()
                && "soft-light"@.len() != "darker-color"@.len()
                && "soft-light"@.len() != "lighten"@.len()
                && "soft-light"@.len() != "screen"@.len()
                && "soft-light"@.len() != "color-dodge"@.len()
                && "soft-light"@.len() != "linear-dodge"@.len()
                && "soft-light"@.len() != "lighter-color"@.len()
                && "soft-light"@.len() != "overlay"@.len());
        },
        BlendMode::Subtract => {
            reveal_strlit("normal");
            reveal_strlit("dissolve");
            reveal_strlit("darken");
            reveal_strlit("multiply");
            reveal_strlit("color-burn");
            reveal_strlit("linear-burn");
            reveal_strlit("darker-color");
            reveal_strlit("lighten");
            reveal_strlit("screen");
            reveal_strlit("color-dodge");
            reveal_strlit("linear-dodge");
            reveal_strlit("lighter-color");
            reveal_strlit("overlay");
            reveal_strlit("soft-light");
            reveal_strlit("hard-light");
            reveal_strlit("vivid-light");
            reveal_strlit("linear-light");
            reveal_strlit("pin-light");
            reveal_strlit("hard-mix");
            reveal_strlit("difference");
            reveal_strlit("exclusion");
            reveal_strlit("subtract");
            assert("subtract"@.len() != "normal"@.len()
                && "subtract"@[0] != "dissolve"@[0]
                && "subtract"@.len() != "darken"@.len()
                && "subtract"@[0] != "multiply"@[0]
                && "subtract"@.len() != "color-burn"@.len()
                && "subtract"@.len() != "linear-burn"@.len()
                && "subtract"@.len() != "darker-color"@.len()
                && "subtract"@.len() != "lighten"@.len()
                && "subtract"@.len() != "screen"@.len()
                && "subtract"@.len() != "color-dodge"@.len()
                && "subtract"@.len() != "linear-dodge"@.len()
                && "subtract"@.len() != "lighter-color"@.len()
                && "subtract"@.len() != "overlay"@.len()
                && "subtract"@.len() != "soft-light"@.len()
                && "subtract"@.len() != "hard-light"@.len()
                && "subtract"@.len() != "vivid-light"@.len()
                && "subtract"@.len() != "linear-light"@.len()
                && "subtract"@.len() != "pin-light"@.len()
                && "subtract"@[0] != "hard-mix"@[0]
                && "subtract"@.len() != "difference"@.len()
                && "subtract"@.len() != "exclusion"@.len());
        },
        BlendMode::VividLight => {
            reveal_strlit("normal");
            reveal_strlit("dissolve");
            reveal_strlit("darken");
            reveal_strlit("multiply");
            reveal_strlit("color-burn");
            reveal_strlit("linear-burn");
            reveal_strlit("darker-color");
            reveal_strlit("lighten");
            reveal_strlit("screen");
            reveal_strlit("color-dodge");
            reveal_strlit("linear-dodge");
            reveal_strlit("lighter-color");
            reveal_strlit("overlay");
            reveal_strlit("soft-light");
            reveal_strlit("hard-light");
            reveal_strlit("vivid-light");
            assert("vivid-light"@.len() != "normal"@.len()
                && "vivid-light"@.len() != "dissolve"@.len()
                && "vivid-light"@.len() != "darken"@.len()
                && "vivid-light"@.len() != "multiply"@.len()
                && "vivid-light"@.len() != "color-burn"@.len()
                && "vivid-light"@[0] != "linear-burn"@[0]
                && "vivid-light"@.len() != "darker-color"@.len()
                && "vivid-light"@.len() != "lighten"@.len()
                && "vivid-light"@.len() != "screen"@.len()
                && "vivid-light"@[0] != "color-dodge"@[0]
                && "vivid-light"@.len() != "linear-dodge"@.len()
                && "vivid-light"@.len() != "lighter-color"@.len()
                && "vivid-light"@.len() != "overlay"@.len()
                && "vivid-light"@.len() != "soft-light"@.len()
                && "vivid-light"@.len() != "hard-light"@.len());
        },
    }
}

/// Parsing accepts exactly the identifiers that some mode prints: a parsed
/// mode prints back as the string it was parsed from.
pub proof fn lemma_aif_name_parse_print(s: Seq<char>)
    ensures
        mode_of_aif_name(s) matches Some(m) ==> aif_name(m) == s,
{
}

/// Whether `c` is an ASCII capital letter.
pub open spec fn is_capital(c: char) -> bool {
    'A' <= c && c <= 'Z'
}

/// `c` in lower case, for an ASCII capital; otherwise `c` itself.
pub open spec fn lowered(c: char) -> char {
    if is_capital(c) {
        ((c as u32) + 32) as char
    } else {
        c
    }
}

/// A `CamelCase` name in `kebab-case`: every capital lowered, and a `-`
/// before each capital but a leading one (`first` tells whether `s` starts
/// the name).
pub open spec fn kebab(s: Seq<char>, first: bool) -> Seq<char>
    decreases s.len(),
{
    if s.len() == 0 {
        Seq::empty()
    } else {
        let c = s[0];
        let head = if is_capital(c) && !first {
            seq!['-', lowered(c)]
        } else {
            seq![lowered(c)]
        };
        head + kebab(s.drop_first(), false)
    }
}

/// Each mode's AIF identifier is the mode's own name in kebab-case: the
/// name the PSD parser gives it ([`psd_mode_name`], the variant name) with
/// every capital lowered and a `-` before each capital but the first; and
/// that spelling parses back to the mode.
pub proof fn law_aif_name_is_kebab_case(mode: BlendMode)
    ensures
        aif_name(mode) == kebab(psd_mode_name(mode), true),
        mode_of_aif_name(kebab(psd_mode_name(mode), true)) == Some(mode),
{
    reveal_with_fuel(kebab, 14);
    lemma_aif_name_round_trip(mode);
    match mode {
        BlendMode::Color => {
            reveal_strlit("Color");
            reveal_strlit("color");
        },
        BlendMode::ColorBurn => {
            reveal_strlit("ColorBurn");
            reveal_strlit("color-burn");
        },
        BlendMode::ColorDodge => {
            reveal_strlit("ColorDodge");
            reveal_strlit("color-dodge");
        },
        BlendMode::Darken => {
            reveal_strlit("Darken");
            reveal_strlit("darken");
        },
        BlendMode::DarkerColor => {
            reveal_strlit("DarkerColor");
            reveal_strlit("darker-color");
        },
        BlendMode::Difference => {
            reveal_strlit("Difference");
            reveal_strlit("difference");
        },
        BlendMode::Dissolve => {
            reveal_strlit("Dissolve");
            reveal_strlit("dissolve");
        },
        BlendMode::Divide => {
            reveal_strlit("Divide");
            reveal_strlit("divide");
        },
        BlendMode::Exclusion => {
            reveal_strlit("Exclusion");
            reveal_strlit("exclusion");
        },
        BlendMode::HardLight => {
            reveal_strlit("HardLight");
            reveal_strlit("hard-light");
        },
        BlendMode::HardMix => {
            reveal_strlit("HardMix");
            reveal_strlit("hard-mix");
        },
        BlendMode::Hue => {
            reveal_strlit("Hue");
            reveal_strlit("hue");
        },
        BlendMode::Lighten => {
            reveal_strlit("Lighten");
            reveal_strlit("lighten");
        },
        BlendMode::LighterColor => {
            reveal_strlit("LighterColor");
            reveal_strlit("lighter-color");
        },
        BlendMode::LinearBurn => {
            reveal_strlit("LinearBurn");
            reveal_strlit("linear-burn");
        },
        BlendMode::LinearDodge => {
            reveal_strlit("LinearDodge");
            reveal_strlit("linear-dodge");
        },
        BlendMode::LinearLight => {
            reveal_strlit("LinearLight");
            reveal_strlit("linear-light");
        },
        BlendMode::Luminosity => {
            reveal_strlit("Luminosity");
            reveal_strlit("luminosity");
        },
        BlendMode::Multiply => {
            reveal_strlit("Multiply");
            reveal_strlit("multiply");
        },
        BlendMode::Normal => {
            reveal_strlit("Normal");
            reveal_strlit("normal");
        },
        BlendMode::Overlay => {
            reveal_strlit("Overlay");
            reveal_strlit("overlay");
        },
        BlendMode::PinLight => {
            reveal_strlit("PinLight");
            reveal_strlit("pin-light");
        },
        BlendMode::Saturation => {
            reveal_strlit("Saturation");
            reveal_strlit("saturation");
        },
        BlendMode::Screen => {
            reveal_strlit("Screen");
            reveal_strlit("screen");
        },
        BlendMode::SoftLight => {
            reveal_strlit("SoftLight");
            reveal_strlit("soft-light");
        },
        BlendMode::Subtract => {
            reveal_strlit("Subtract");
            reveal_strlit("subtract");
        },
        BlendMode::VividLight => {
            reveal_strlit("VividLight");
            reveal_strlit("vivid-light");
        },
    }
}

} // verus!
