//! Mapping between OpenRaster `composite-op` identifiers and
//! [`BlendMode`]s.

use vstd::prelude::*;

use crate::blend::{aif_name, BlendMode};
use crate::text::str_eq;

verus! {

/// The mode an ORA `composite-op` identifier stands for; unknown
/// identifiers give `Normal`.
pub open spec fn mode_of_ora(s: Seq<char>) -> BlendMode {
    if s == "svg:src-over"@ {
        BlendMode::Normal
    } else if s == "svg:multiply"@ {
        BlendMode::Multiply
    } else if s == "svg:screen"@ {
        BlendMode::Screen
    } else if s == "svg:overlay"@ {
        BlendMode::Overlay
    } else if s == "svg:darken"@ {
        BlendMode::Darken
    } else if s == "svg:lighten"@ {
        BlendMode::Lighten
    } else if s == "svg:color-dodge"@ {
        BlendMode::ColorDodge
    } else if s == "svg:color-burn"@ {
        BlendMode::ColorBurn
    } else if s == "svg:hard-light"@ {
        BlendMode::HardLight
    } else if s == "svg:soft-light"@ {
        BlendMode::SoftLight
    } else if s == "svg:difference"@ {
        BlendMode::Difference
    } else if s == "svg:color"@ {
        BlendMode::Color
    } else if s == "svg:luminosity"@ {
        BlendMode::Luminosity
    } else if s == "svg:hue"@ {
        BlendMode::Hue
    } else if s == "svg:saturation"@ {
        BlendMode::Saturation
    } else if s == "svg:exclusion"@ {
        BlendMode::Exclusion
    } else if s == "svg:plus"@ {
        BlendMode::LinearDodge
    } else if s == "krita:add"@ {
        BlendMode::LinearDodge
    } else if s == "krita:subtract"@ {
        BlendMode::Subtract
    } else if s == "krita:divide"@ {
        BlendMode::Divide
    } else if s == "krita:linear_burn"@ {
        BlendMode::LinearBurn
    } else if s == "krita:vivid_light"@ {
        BlendMode::VividLight
    } else if s == "krita:linear_light"@ {
        BlendMode::LinearLight
    } else if s == "krita:pin_light"@ {
        BlendMode::PinLight
    } else if s == "krita:hard_mix"@ {
        BlendMode::HardMix
    } else if s == "krita:darken_color"@ {
        BlendMode::DarkerColor
    } else if s == "krita:darker_color"@ {
        BlendMode::DarkerColor
    } else if s == "krita:lighten_color"@ {
        BlendMode::LighterColor
    } else if s == "krita:lighter_color"@ {
        BlendMode::LighterColor
    } else if s == "krita:dissolve"@ {
        BlendMode::Dissolve
    } else {
        BlendMode::Normal
    }
}

/// The ORA `composite-op` identifier written for a mode: the SVG name for
/// the core set, Krita's vendor name for the others.
pub open spec fn ora_name(mode: BlendMode) -> Seq<char> {
    match mode {
        BlendMode::DarkerColor => "krita:darker_color"@,
        BlendMode::Dissolve => "krita:dissolve"@,
        BlendMode::Divide => "krita:divide"@,
        BlendMode::HardMix => "krita:hard_mix"@,
        BlendMode::LighterColor => "krita:lighter_color"@,
        BlendMode::LinearBurn => "krita:linear_burn"@,
        BlendMode::LinearLight => "krita:linear_light"@,
        BlendMode::PinLight => "krita:pin_light"@,
        BlendMode::Subtract => "krita:subtract"@,
        BlendMode::VividLight => "krita:vivid_light"@,
        BlendMode::Color => "svg:color"@,
        BlendMode::ColorBurn => "svg:color-burn"@,
        BlendMode::ColorDodge => "svg:color-dodge"@,
        BlendMode::Darken => "svg:darken"@,
        BlendMode::Difference => "svg:difference"@,
        BlendMode::Exclusion => "svg:exclusion"@,
        BlendMode::HardLight => "svg:hard-light"@,
        BlendMode::Hue => "svg:hue"@,
        BlendMode::Lighten => "svg:lighten"@,
        BlendMode::Luminosity => "svg:luminosity"@,
        BlendMode::Multiply => "svg:multiply"@,
        BlendMode::Overlay => "svg:overlay"@,
        BlendMode::LinearDodge => "svg:plus"@,
        BlendMode::Saturation => "svg:saturation"@,
        BlendMode::Screen => "svg:screen"@,
        BlendMode::SoftLight => "svg:soft-light"@,
        BlendMode::Normal => "svg:src-over"@,
    }
}

/// Parse an ORA `composite-op` string into a blend mode.
///
/// Unknown identifiers fall back to [`BlendMode::Normal`] so an unfamiliar
/// mode never aborts an import.
pub fn from_ora(op: &str) -> (r: BlendMode)
    ensures
        r == mode_of_ora(op@),
{
    if str_eq(op, "svg:src-over") {
        return BlendMode::Normal;
    }
    if str_eq(op, "svg:multiply") {
        return BlendMode::Multiply;
    }
    if str_eq(op, "svg:screen") {
        return BlendMode::Screen;
    }
    if str_eq(op, "svg:overlay") {
        return BlendMode::Overlay;
    }
    if str_eq(op, "svg:darken") {
        return BlendMode::Darken;
    }
    if str_eq(op, "svg:lighten") {
        return BlendMode::Lighten;
    }
    if str_eq(op, "svg:color-dodge") {
        return BlendMode::ColorDodge;
    }
    if str_eq(op, "svg:color-burn") {
        return BlendMode::ColorBurn;
    }
    if str_eq(op, "svg:hard-light") {
        return BlendMode::HardLight;
    }
    if str_eq(op, "svg:soft-light") {
        return BlendMode::SoftLight;
    }
    if str_eq(op, "svg:difference") {
        return BlendMode::Difference;
    }
    if str_eq(op, "svg:color") {
        return BlendMode::Color;
    }
    if str_eq(op, "svg:luminosity") {
        return BlendMode::Luminosity;
    }
    if str_eq(op, "svg:hue") {
        return BlendMode::Hue;
    }
    if str_eq(op, "svg:saturation") {
        return BlendMode::Saturation;
    }
    if str_eq(op, "svg:exclusion") {
        return BlendMode::Exclusion;
    }
    if str_eq(op, "svg:plus") {
        return BlendMode::LinearDodge;
    }
    if str_eq(op, "krita:add") {
        return BlendMode::LinearDodge;
    }
    if str_eq(op, "krita:subtract") {
        return BlendMode::Subtract;
    }
    if str_eq(op, "krita:divide") {
        return BlendMode::Divide;
    }
    if str_eq(op, "krita:linear_burn") {
        return BlendMode::LinearBurn;
    }
    if str_eq(op, "krita:vivid_light") {
        return BlendMode::VividLight;
    }
    if str_eq(op, "krita:linear_light") {
        return BlendMode::LinearLight;
    }
    if str_eq(op, "krita:pin_light") {
        return BlendMode::PinLight;
    }
    if str_eq(op, "krita:hard_mix") {
        return BlendMode::HardMix;
    }
    if str_eq(op, "krita:darken_color") {
        return BlendMode::DarkerColor;
    }
    if str_eq(op, "krita:darker_color") {
        return BlendMode::DarkerColor;
    }
    if str_eq(op, "krita:lighten_color") {
        return BlendMode::LighterColor;
    }
    if str_eq(op, "krita:lighter_color") {
        return BlendMode::LighterColor;
    }
    if str_eq(op, "krita:dissolve") {
        return BlendMode::Dissolve;
    }
    BlendMode::Normal
}

/// The ORA `composite-op` identifier for a blend mode.
pub fn to_ora(mode: BlendMode) -> (r: &'static str)
    ensures
        r@ == ora_name(mode),
{
    match mode {
        BlendMode::DarkerColor => "krita:darker_color",
        BlendMode::Dissolve => "krita:dissolve",
        BlendMode::Divide => "krita:divide",
        BlendMode::HardMix => "krita:hard_mix",
        BlendMode::LighterColor => "krita:lighter_color",
        BlendMode::LinearBurn => "krita:linear_burn",
        BlendMode::LinearLight => "krita:linear_light",
        BlendMode::PinLight => "krita:pin_light",
        BlendMode::Subtract => "krita:subtract",
        BlendMode::VividLight => "krita:vivid_light",
        BlendMode::Color => "svg:color",
        BlendMode::ColorBurn => "svg:color-burn",
        BlendMode::ColorDodge => "svg:color-dodge",
        BlendMode::Darken => "svg:darken",
        BlendMode::Difference => "svg:difference",
        BlendMode::Exclusion => "svg:exclusion",
        BlendMode::HardLight => "svg:hard-light",
        BlendMode::Hue => "svg:hue",
        BlendMode::Lighten => "svg:lighten",
        BlendMode::Luminosity => "svg:luminosity",
        BlendMode::Multiply => "svg:multiply",
        BlendMode::Overlay => "svg:overlay",
        BlendMode::LinearDodge => "svg:plus",
        BlendMode::Saturation => "svg:saturation",
        BlendMode::Screen => "svg:screen",
        BlendMode::SoftLight => "svg:soft-light",
        BlendMode::Normal => "svg:src-over",
    }
}

/// Every mode's identifier reads back as that mode, so a mode written to an
/// ORA file round-trips through [`from_ora`].
pub proof fn law_ora_round_trip(mode: BlendMode)
    ensures
        mode_of_ora(ora_name(mode)) == mode,
{
    match mode {
        BlendMode::DarkerColor => {
            reveal_strlit("svg:src-over");
            reveal_strlit("svg:multiply");
            reveal_strlit("svg:screen");
            reveal_strlit("svg:overlay");
            reveal_strlit("svg:darken");
            reveal_strlit("svg:lighten");
            reveal_strlit("svg:color-dodge");
            reveal_strlit("svg:color-burn");
            reveal_strlit("svg:hard-light");
            reveal_strlit("svg:soft-light");
            reveal_strlit("svg:difference");
            reveal_strlit("svg:color");
            reveal_strlit("svg:luminosity");
            reveal_strlit("svg:hue");
            reveal_strlit("svg:saturation");
            reveal_strlit("svg:exclusion");
            reveal_strlit("svg:plus");
            reveal_strlit("krita:add");
            reveal_strlit("krita:subtract");
            reveal_strlit("krita:divide");
            reveal_strlit("krita:linear_burn");
            reveal_strlit("krita:vivid_light");
            reveal_strlit("krita:linear_light");
            reveal_strlit("krita:pin_light");
            reveal_strlit("krita:hard_mix");
            reveal_strlit("krita:darken_color");
            reveal_strlit("krita:darker_color");
            assert("krita:darker_color"@.len() != "svg:src-over"@.len()
                && "krita:darker_color"@.len() != "svg:multiply"@.len()
                && "krita:darker_color"@.len() != "svg:screen"@.len()
                && "krita:darker_color"@.len() != "svg:overlay"@.len()
                && "krita:darker_color"@.len() != "svg:darken"@.len()
                && "krita:darker_color"@.len() != "svg:lighten"@.len()
                && "krita:darker_color"@.len() != "svg:color-dodge"@.len()
                && "krita:darker_color"@.len() != "svg:color-burn"@.len()
                && "krita:darker_color"@.len() != "svg:hard-light"@.len()
                && "krita:darker_color"@.len() != "svg:soft-light"@.len()
                && "krita:darker_color"@.len() != "svg:difference"@.len()
                && "krita:darker_color"@.len() != "svg:color"@.len()
                && "krita:darker_color"@.len() != "svg:luminosity"@.len()
                && "krita:darker_color"@.len() != "svg:hue"@.len()
                && "krita:darker_color"@.len() != "svg:saturation"@.len()
                && "krita:darker_color"@.len() != "svg:exclusion"@.len()
                && "krita:darker_color"@.len() != "svg:plus"@.len()
                && "krita:darker_color"@.len() != "krita:add"@.len()
                && "krita:darker_color"@.len() != "krita:subtract"@.len()
                && "krita:darker_color"@.len() != "krita:divide"@.len()
                && "krita:darker_color"@.len() != "krita:linear_burn"@.len()
                && "krita:darker_color"@.len() != "krita:vivid_light"@.len()
                && "krita:darker_color"@[6] != "krita:linear_light"@[6]
                && "krita:darker_color"@.len() != "krita:pin_light"@.len()
                && "krita:darker_color"@.len() != "krita:hard_mix"@.len()
                && "krita:darker_color"@[11] != "krita:darken_color"@[11]);
        },
        BlendMode::Dissolve => {
            reveal_strlit("svg:src-over");
            reveal_strlit("svg:multiply");
            reveal_strlit("svg:screen");
            reveal_strlit("svg:overlay");
            reveal_strlit("svg:darken");
            reveal_strlit("svg:lighten");
            reveal_strlit("svg:color-dodge");
            reveal_strlit("svg:color-burn");
            reveal_strlit("svg:hard-light");
            reveal_strlit("svg:soft-light");
            reveal_strlit("svg:difference");
            reveal_strlit("svg:color");
            reveal_strlit("svg:luminosity");
            reveal_strlit("svg:hue");
            reveal_strlit("svg:saturation");
            reveal_strlit("svg:exclusion");
            reveal_strlit("svg:plus");
            reveal_strlit("krita:add");
            reveal_strlit("krita:subtract");
            reveal_strlit("krita:divide");
            reveal_strlit("krita:linear_burn");
            reveal_strlit("krita:vivid_light");
            reveal_strlit("krita:linear_light");
            reveal_strlit("krita:pin_light");
            reveal_strlit("krita:hard_mix");
            reveal_strlit("krita:darken_color");
            reveal_strlit("krita:darker_color");
            reveal_strlit("krita:lighten_color");
            reveal_strlit("krita:lighter_color");
            reveal_strlit("krita:dissolve");
            assert("krita:dissolve"@.len() != "svg:src-over"@.len()
                && "krita:dissolve"@.len() != "svg:multiply"@.len()
                && "krita:dissolve"@.len() != "svg:screen"@.len()
                && "krita:dissolve"@.len() != "svg:overlay"@.len()
                && "krita:dissolve"@.len() != "svg:darken"@.len()
                && "krita:dissolve"@.len() != "svg:lighten"@.len()
                && "krita:dissolve"@.len() != "svg:color-dodge"@.len()
                && "krita:dissolve"@[0] != "svg:color-burn"@[0]
                && "krita:dissolve"@[0] != "svg:hard-light"@[0]
                && "krita:dissolve"@[0] != "svg:soft-light"@[0]
                && "krita:dissolve"@[0] != "svg:difference"@[0]
                && "krita:dissolve"@.len() != "svg:color"@.len()
                && "krita:dissolve"@[0] != "svg:luminosity"@[0]
                && "krita:dissolve"@.len() != "svg:hue"@.len()
                && "krita:dissolve"@[0] != "svg:saturation"@[0]
                && "krita:dissolve"@.len() != "svg:exclusion"@.len()
                && "krita:dissolve"@.len() != "svg:plus"@.len()
                && "krita:dissolve"@.len() != "krita:add"@.len()
                && "krita:dissolve"@[6] != "krita:subtract"@[6]
                && "krita:dissolve"@.len() != "krita:divide"@.len()
                && "krita:dissolve"@.len() != "krita:linear_burn"@.len()
                && "krita:dissolve"@.len() != "krita:vivid_light"@.len()
                && "krita:dissolve"@.len() != "krita:linear_light"@.len()
                && "krita:dissolve"@.len() != "krita:pin_light"@.len()
                && "krita:dissolve"@[6] != "krita:hard_mix"@[6]
                && "krita:dissolve"@.len() != "krita:darken_color"@.len()
                && "krita:dissolve"@.len() != "krita:darker_color"@.len()
                && "krita:dissolve"@.len() != "krita:lighten_color"@.len()
                && "krita:dissolve"@.len() != "krita:lighter_color"@.len());
        },
        BlendMode::Divide => {
            reveal_strlit("svg:src-over");
            reveal_strlit("svg:multiply");
            reveal_strlit("svg:screen");
            reveal_strlit("svg:overlay");
            reveal_strlit("svg:darken");
            reveal_strlit("svg:lighten");
            reveal_strlit("svg:color-dodge");
            reveal_strlit("svg:color-burn");
            reveal_strlit("svg:hard-light");
            reveal_strlit("svg:soft-light");
            reveal_strlit("svg:difference");
            reveal_strlit("svg:color");
            reveal_strlit("svg:luminosity");
            reveal_strlit("svg:hue");
            reveal_strlit("svg:saturation");
            reveal_strlit("svg:exclusion");
            reveal_strlit("svg:plus");
            reveal_strlit("krita:add");
            reveal_strlit("krita:subtract");
            reveal_strlit("krita:divide");
            assert("krita:divide"@[0] != "svg:src-over"@[0]
                && "krita:divide"@[0] != "svg:multiply"@[0]
                && "krita:divide"@.len() != "svg:screen"@.len()
                && "krita:divide"@.len() != "svg:overlay"@.len()
                && "krita:divide"@.len() != "svg:darken"@.len()
                && "krita:divide"@.len() != "svg:lighten"@.len()
                && "krita:divide"@.len() != "svg:color-dodge"@.len()
                && "krita:divide"@.len() != "svg:color-burn"@.len()
                && "krita:divide"@.len() != "svg:hard-light"@.len()
                && "krita:divide"@.len() != "svg:soft-light"@.len()
                && "krita:divide"@.len() != "svg:difference"@.len()
                && "krita:divide"@.len() != "svg:color"@.len()
                && "krita:divide"@.len() != "svg:luminosity"@.len()
                && "krita:divide"@.len() != "svg:hue"@.len()
                && "krita:divide"@.len() != "svg:saturation"@.len()
                && "krita:divide"@.len() != "svg:exclusion"@.len()
                && "krita:divide"@.len() != "svg:plus"@.len()
                && "krita:divide"@.len() != "krita:add"@.len()
                && "krita:divide"@.len() != "krita:subtract"@.len());
        },
        BlendMode::HardMix => {
            reveal_strlit("svg:src-over");
            reveal_strlit("svg:multiply");
            reveal_strlit("svg:screen");
            reveal_strlit("svg:overlay");
            reveal_strlit("svg:darken");
            reveal_strlit("svg:lighten");
            reveal_strlit("svg:color-dodge");
            reveal_strlit("svg:color-burn");
            reveal_strlit("svg:hard-light");
            reveal_strlit("svg:soft-light");
            reveal_strlit("svg:difference");
            reveal_strlit("svg:color");
            reveal_strlit("svg:luminosity");
            reveal_strlit("svg:hue");
            reveal_strlit("svg:saturation");
            reveal_strlit("svg:exclusion");
            reveal_strlit("svg:plus");
            reveal_strlit("krita:add");
            reveal_strlit("krita:subtract");
            reveal_strlit("krita:divide");
            reveal_strlit("krita:linear_burn");
            reveal_strlit("krita:vivid_light");
            reveal_strlit("krita:linear_light");
            reveal_strlit("krita:pin_light");
            reveal_strlit("krita:hard_mix");
            assert("krita:hard_mix"@.len() != "svg:src-over"@.len()
                && "krita:hard_mix"@.len() != "svg:multiply"@.len()
                && "krita:hard_mix"@.len() != "svg:screen"@.len()
                && "krita:hard_mix"@.len() != "svg:overlay"@.len()
                && "krita:hard_mix"@.len() != "svg:darken"@.len()
                && "krita:hard_mix"@.len() != "svg:lighten"@.len()
                && "krita:hard_mix"@.len() != "svg:color-dodge"@.len()
                && "krita:hard_mix"@[0] != "svg:color-burn"@[0]
                && "krita:hard_mix"@[0] != "svg:hard-light"@[0]
                && "krita:hard_mix"@[0] != "svg:soft-light"@[0]
                && "krita:hard_mix"@[0] != "svg:difference"@[0]
                && "krita:hard_mix"@.len() != "svg:color"@.len()
                && "krita:hard_mix"@[0] != "svg:luminosity"@[0]
                && "krita:hard_mix"@.len() != "svg:hue"@.len()
                && "krita:hard_mix"@[0] != "svg:saturation"@[0]
                && "krita:hard_mix"@.len() != "svg:exclusion"@.len()
                && "krita:hard_mix"@.len() != "svg:plus"@.len()
                && "krita:hard_mix"@.len() != "krita:add"@.len()
                && "krita:hard_mix"@[6] != "krita:subtract"@[6]
                && "krita:hard_mix"@.len() != "krita:divide"@.len()
                && "krita:hard_mix"@.len() != "krita:linear_burn"@.len()
                && "krita:hard_mix"@.len() != "krita:vivid_light"@.len()
                && "krita:hard_mix"@.len() != "krita:linear_light"@.len()
                && "krita:hard_mix"@.len() != "krita:pin_light"@.len());
        },
        BlendMode::LighterColor => {
            reveal_strlit("svg:src-over");
            reveal_strlit("svg:multiply");
            reveal_strlit("svg:screen");
            reveal_strlit("svg:overlay");
            reveal_strlit("svg:darken");
            reveal_strlit("svg:lighten");
            reveal_strlit("svg:color-dodge");
            reveal_strlit("svg:color-burn");
            reveal_strlit("svg:hard-light");
            reveal_strlit("svg:soft-light");
            reveal_strlit("svg:difference");
            reveal_strlit("svg:color");
            reveal_strlit("svg:luminosity");
            reveal_strlit("svg:hue");
            reveal_strlit("svg:saturation");
            reveal_strlit("svg:exclusion");
            reveal_strlit("svg:plus");
            reveal_strlit("krita:add");
            reveal_strlit("krita:subtract");
            reveal_strlit("krita:divide");
            reveal_strlit("krita:linear_burn");
            reveal_strlit("krita:vivid_light");
            reveal_strlit("krita:linear_light");
            reveal_strlit("krita:pin_light");
            reveal_strlit("krita:hard_mix");
            reveal_strlit("krita:darken_color");
            reveal_strlit("krita:darker_color");
            reveal_strlit("krita:lighten_color");
            reveal_strlit("krita:lighter_color");
            assert("krita:lighter_color"@.len() != "svg:src-over"@.len()
                && "krita:lighter_color"@.len() != "svg:multiply"@.len()
                && "krita:lighter_color"@.len() != "svg:screen"@.len()
                && "krita:lighter_color"@.len() != "svg:overlay"@.len()
                && "krita:lighter_color"@.len() != "svg:darken"@.len()
                && "krita:lighter_color"@.len() != "svg:lighten"@.len()
                && "krita:lighter_color"@.len() != "svg:color-dodge"@.len()
                && "krita:lighter_color"@.len() != "svg:color-burn"@.len()
                && "krita:lighter_color"@.len() != "svg:hard-light"@.len()
                && "krita:lighter_color"@.len() != "svg:soft-light"@.len()
                && "krita:lighter_color"@.len() != "svg:difference"@.len()
                && "krita:lighter_color"@.len() != "svg:color"@.len()
                && "krita:lighter_color"@.len() != "svg:luminosity"@.len()
                && "krita:lighter_color"@.len() != "svg:hue"@.len()
                && "krita:lighter_color"@.len() != "svg:saturation"@.len()
                && "krita:lighter_color"@.len() != "svg:exclusion"@.len()
                && "krita:lighter_color"@.len() != "svg:plus"@.len()
                && "krita:lighter_color"@.len() != "krita:add"@.len()
                && "krita:lighter_color"@.len() != "krita:subtract"@.len()
                && "krita:lighter_color"@.len() != "krita:divide"@.len()
                && "krita:lighter_color"@.len() != "krita:linear_burn"@.len()
                && "krita:lighter_color"@.len() != "krita:vivid_light"@.len()
                && "krita:lighter_color"@.len() != "krita:linear_light"@.len()
                && "krita:lighter_color"@.len() != "krita:pin_light"@.len()
                && "krita:lighter_color"@.len() != "krita:hard_mix"@.len()
                && "krita:lighter_color"@.len() != "krita:darken_color"@.len()
                && "krita:lighter_color"@.len() != "krita:darker_color"@.len()
                && "krita:lighter_color"@[12] != "krita:lighten_color"@[12]);
        },
        BlendMode::LinearBurn => {
            reveal_strlit("svg:src-over");
            reveal_strlit("svg:multiply");
            reveal_strlit("svg:screen");
            reveal_strlit("svg:overlay");
            reveal_strlit("svg:darken");
            reveal_strlit("svg:lighten");
            reveal_strlit("svg:color-dodge");
            reveal_strlit("svg:color-burn");
            reveal_strlit("svg:hard-light");
            reveal_strlit("svg:soft-light");
            reveal_strlit("svg:difference");
            reveal_strlit("svg:color");
            reveal_strlit("svg:luminosity");
            reveal_strlit("svg:hue");
            reveal_strlit("svg:saturation");
            reveal_strlit("svg:exclusion");
            reveal_strlit("svg:plus");
            reveal_strlit("krita:add");
            reveal_strlit("krita:subtract");
            reveal_strlit("krita:divide");
            reveal_strlit("krita:linear_burn");
            assert("krita:linear_burn"@.len() != "svg:src-over"@.len()
                && "krita:linear_burn"@.len() != "svg:multiply"@.len()
                && "krita:linear_burn"@.len() != "svg:screen"@.len()
                && "krita:linear_burn"@.len() != "svg:overlay"@.len()
                && "krita:linear_burn"@.len() != "svg:darken"@.len()
                && "krita:linear_burn"@.len() != "svg:lighten"@.len()
                && "krita:linear_burn"@.len() != "svg:color-dodge"@.len()
                && "krita:linear_burn"@.len() != "svg:color-burn"@.len()
                && "krita:linear_burn"@.len() != "svg:hard-light"@.len()
                && "krita:linear_burn"@.len() != "svg:soft-light"@.len()
                && "krita:linear_burn"@.len() != "svg:difference"@.len()
                && "krita:linear_burn"@.len() != "svg:color"@.len()
                && "krita:linear_burn"@.len() != "svg:luminosity"@.len()
                && "krita:linear_burn"@.len() != "svg:hue"@.len()
                && "krita:linear_burn"@.len() != "svg:saturation"@.len()
                && "krita:linear_burn"@.len() != "svg:exclusion"@.len()
                && "krita:linear_burn"@.len() != "svg:plus"@.len()
                && "krita:linear_burn"@.len() != "krita:add"@.len()
                && "krita:linear_burn"@.len() != "krita:subtract"@.len()
                && "krita:linear_burn"@.len() != "krita:divide"@.len());
        },
        BlendMode::LinearLight => {
            reveal_strlit("svg:src-over");
            reveal_strlit("svg:multiply");
            reveal_strlit("svg:screen");
            reveal_strlit("svg:overlay");
            reveal_strlit("svg:darken");
            reveal_strlit("svg:lighten");
            reveal_strlit("svg:color-dodge");
            reveal_strlit("svg:color-burn");
            reveal_strlit("svg:hard-light");
            reveal_strlit("svg:soft-light");
            reveal_strlit("svg:difference");
            reveal_strlit("svg:color");
            reveal_strlit("svg:luminosity");
            reveal_strlit("svg:hue");
            reveal_strlit("svg:saturation");
            reveal_strlit("svg:exclusion");
            reveal_strlit("svg:plus");
            reveal_strlit("krita:add");
            reveal_strlit("krita:subtract");
            reveal_strlit("krita:divide");
            reveal_strlit("krita:linear_burn");
            reveal_strlit("krita:vivid_light");
            reveal_strlit("krita:linear_light");
            assert("krita:linear_light"@.len() != "svg:src-over"@.len()
                && "krita:linear_light"@.len() != "svg:multiply"@.len()
                && "krita:linear_light"@.len() != "svg:screen"@.len()
                && "krita:linear_light"@.len() != "svg:overlay"@.len()
                && "krita:linear_light"@.len() != "svg:darken"@.len()
                && "krita:linear_light"@.len() != "svg:lighten"@.len()
                && "krita:linear_light"@.len() != "svg:color-dodge"@.len()
                && "krita:linear_light"@.len() != "svg:color-burn"@.len()
                && "krita:linear_light"@.len() != "svg:hard-light"@.len()
                && "krita:linear_light"@.len() != "svg:soft-light"@.len()
                && "krita:linear_light"@.len() != "svg:difference"@.len()
                && "krita:linear_light"@.len() != "svg:color"@.len()
                && "krita:linear_light"@.len() != "svg:luminosity"@.len()
                && "krita:linear_light"@.len() != "svg:hue"@.len()
                && "krita:linear_light"@.len() != "svg:saturation"@.len()
                && "krita:linear_light"@.len() != "svg:exclusion"@.len()
                && "krita:linear_light"@.len() != "svg:plus"@.len()
                && "krita:linear_light"@.len() != "krita:add"@.len()
                && "krita:linear_light"@.len() != "krita:subtract"@.len()
                && "krita:linear_light"@.len() != "krita:divide"@.len()
                && "krita:linear_light"@.len() != "krita:linear_burn"@.len()
                && "krita:linear_light"@.len() != "krita:vivid_light"@.len());
        },
        BlendMode::PinLight => {
            reveal_strlit("svg:src-over");
            reveal_strlit("svg:multiply");
            reveal_strlit("svg:screen");
            reveal_strlit("svg:overlay");
            reveal_strlit("svg:darken");
            reveal_strlit("svg:lighten");
            reveal_strlit("svg:color-dodge");
            reveal_strlit("svg:color-burn");
            reveal_strlit("svg:hard-light");
            reveal_strlit("svg:soft-light");
            reveal_strlit("svg:difference");
            reveal_strlit("svg:color");
            reveal_strlit("svg:luminosity");
            reveal_strlit("svg:hue");
            reveal_strlit("svg:saturation");
            reveal_strlit("svg:exclusion");
            reveal_strlit("svg:plus");
            reveal_strlit("krita:add");
            reveal_strlit("krita:subtract");
            reveal_strlit("krita:divide");
            reveal_strlit("krita:linear_burn");
            reveal_strlit("krita:vivid_light");
            reveal_strlit("krita:linear_light");
            reveal_strlit("krita:pin_light");
            assert("krita:pin_light"@.len() != "svg:src-over"@.len()
                && "krita:pin_light"@.len() != "svg:multiply"@.len()
                && "krita:pin_light"@.len() != "svg:screen"@.len()
                && "krita:pin_light"@.len() != "svg:overlay"@.len()
                && "krita:pin_light"@.len() != "svg:darken"@.len()
                && "krita:pin_light"@.len() != "svg:lighten"@.len()
                && "krita:pin_light"@[0] != "svg:color-dodge"@[0]
                && "krita:pin_light"@.len() != "svg:color-burn"@.len()
                && "krita:pin_light"@.len() != "svg:hard-light"@.len()
                && "krita:pin_light"@.len() != "svg:soft-light"@.len()
                && "krita:pin_light"@.len() != "svg:difference"@.len()
                && "krita:pin_light"@.len() != "svg:color"@.len()
                && "krita:pin_light"@.len() != "svg:luminosity"@.len()
                && "krita:pin_light"@.len() != "svg:hue"@.len()
                && "krita:pin_light"@.len() != "svg:saturation"@.len()
                && "krita:pin_light"@.len() != "svg:exclusion"@.len()
                && "krita:pin_light"@.len() != "svg:plus"@.len()
                && "krita:pin_light"@.len() != "krita:add"@.len()
                && "krita:pin_light"@.len() != "krita:subtract"@.len()
                && "krita:pin_light"@.len() != "krita:divide"@.len()
                && "krita:pin_light"@.len() != "krita:linear_burn"@.len()
                && "krita:pin_light"@.len() != "krita:vivid_light"@.len()
                && "krita:pin_light"@.len() != "krita:linear_light"@.len());
        },
        BlendMode::Subtract => {
            reveal_strlit("svg:src-over");
            reveal_strlit("svg:multiply");
            reveal_strlit("svg:screen");
            reveal_strlit("svg:overlay");
            reveal_strlit("svg:darken");
            reveal_strlit("svg:lighten");
            reveal_strlit("svg:color-dodge");
            reveal_strlit("svg:color-burn");
            reveal_strlit("svg:hard-light");
            reveal_strlit("svg:soft-light");
            reveal_strlit("svg:difference");
            reveal_strlit("svg:color");
            reveal_strlit("svg:luminosity");
            reveal_strlit("svg:hue");
            reveal_strlit("svg:saturation");
            reveal_strlit("svg:exclusion");
            reveal_strlit("svg:plus");
            reveal_strlit("krita:add");
            reveal_strlit("krita:subtract");
            assert("krita:subtract"@.len() != "svg:src-over"@.len()
                && "krita:subtract"@.len() != "svg:multiply"@.len()
                && "krita:subtract"@.len() != "svg:screen"@.len()
                && "krita:subtract"@.len() != "svg:overlay"@.len()
                && "krita:subtract"@.len() != "svg:darken"@.len()
                && "krita:subtract"@.len() != "svg:lighten"@.len()
                && "krita:subtract"@.len() != "svg:color-dodge"@.len()
                && "krita:subtract"@[0] != "svg:color-burn"@[0]
                && "krita:subtract"@[0] != "svg:hard-light"@[0]
                && "krita:subtract"@[0] != "svg:soft-light"@[0]
                && "krita:subtract"@[0] != "svg:difference"@[0]
                && "krita:subtract"@.len() != "svg:color"@.len()
                && "krita:subtract"@[0] != "svg:luminosity"@[0]
                && "krita:subtract"@.len() != "svg:hue"@.len()
                && "krita:subtract"@[0] != "svg:saturation"@[0]
                && "krita:subtract"@.len() != "svg:exclusion"@.len()
                && "krita:subtract"@.len() != "svg:plus"@.len()
                && "krita:subtract"@.len() != "krita:add"@.len());
        },
        BlendMode::VividLight => {
            reveal_strlit("svg:src-over");
            reveal_strlit("svg:multiply");
            reveal_strlit("svg:screen");
            reveal_strlit("svg:overlay");
            reveal_strlit("svg:darken");
            reveal_strlit("svg:lighten");
            reveal_strlit("svg:color-dodge");
            reveal_strlit("svg:color-burn");
            reveal_strlit("svg:hard-light");
            reveal_strlit("svg:soft-light");
            reveal_strlit("svg:difference");
            reveal_strlit("svg:color");
            reveal_strlit("svg:luminosity");
            reveal_strlit("svg:hue");
            reveal_strlit("svg:saturation");
            reveal_strlit("svg:exclusion");
            reveal_strlit("svg:plus");
            reveal_strlit("krita:add");
            reveal_strlit("krita:subtract");
            reveal_strlit("krita:divide");
            reveal_strlit("krita:linear_burn");
            reveal_strlit("krita:vivid_light");
            assert("krita:vivid_light"@.len() != "svg:src-over"@.len()
                && "krita:vivid_light"@.len() != "svg:multiply"@.len()
                && "krita:vivid_light"@.len() != "svg:screen"@.len()
                && "krita:vivid_light"@.len() != "svg:overlay"@.len()
                && "krita:vivid_light"@.len() != "svg:darken"@.len()
                && "krita:vivid_light"@.len() != "svg:lighten"@.len()
                && "krita:vivid_light"@.len() != "svg:color-dodge"@.len()
                && "krita:vivid_light"@.len() != "svg:color-burn"@.len()
                && "krita:vivid_light"@.len() != "svg:hard-light"@.len()
                && "krita:vivid_light"@.len() != "svg:soft-light"@.len()
                && "krita:vivid_light"@.len() != "svg:difference"@.len()
                && "krita:vivid_light"@.len() != "svg:color"@.len()
                && "krita:vivid_light"@.len() != "svg:luminosity"@.len()
                && "krita:vivid_light"@.len() != "svg:hue"@.len()
                && "krita:vivid_light"@.len() != "svg:saturation"@.len()
                && "krita:vivid_light"@.len() != "svg:exclusion"@.len()
                && "krita:vivid_light"@.len() != "svg:plus"@.len()
                && "krita:vivid_light"@.len() != "krita:add"@.len()
                && "krita:vivid_light"@.len() != "krita:subtract"@.len()
                && "krita:vivid_light"@.len() != "krita:divide"@.len()
                && "krita:vivid_light"@[6] != "krita:linear_burn"@[6]);
        },
        BlendMode::Color => {
            reveal_strlit("svg:src-over");
            reveal_strlit("svg:multiply");
            reveal_strlit("svg:screen");
            reveal_strlit("svg:overlay");
            reveal_strlit("svg:darken");
            reveal_strlit("svg:lighten");
            reveal_strlit("svg:color-dodge");
            reveal_strlit("svg:color-burn");
            reveal_strlit("svg:hard-light");
            reveal_strlit("svg:soft-light");
            reveal_strlit("svg:difference");
            reveal_strlit("svg:color");
            assert("svg:color"@.len() != "svg:src-over"@.len()
                && "svg:color"@.len() != "svg:multiply"@.len()
                && "svg:color"@.len() != "svg:screen"@.len()
                && "svg:color"@.len() != "svg:overlay"@.len()
                && "svg:color"@.len() != "svg:darken"@.len()
                && "svg:color"@.len() != "svg:lighten"@.len()
                && "svg:color"@.len() != "svg:color-dodge"@.len()
                && "svg:color"@.len() != "svg:color-burn"@.len()
                && "svg:color"@.len() != "svg:hard-light"@.len()
                && "svg:color"@.len() != "svg:soft-light"@.len()
                && "svg:color"@.len() != "svg:difference"@.len());
        },
        BlendMode::ColorBurn => {
            reveal_strlit("svg:src-over");
            reveal_strlit("svg:multiply");
            reveal_strlit("svg:screen");
            reveal_strlit("svg:overlay");
            reveal_strlit("svg:darken");
            reveal_strlit("svg:lighten");
            reveal_strlit("svg:color-dodge");
            reveal_strlit("svg:color-burn");
            assert("svg:color-burn"@.len() != "svg:src-over"@.len()
                && "svg:color-burn"@.len() != "svg:multiply"@.len()
                && "svg:color-burn"@.len() != "svg:screen"@.len()
                && "svg:color-burn"@.len() != "svg:overlay"@.len()
                && "svg:color-burn"@.len() != "svg:darken"@.len()
                && "svg:color-burn"@.len() != "svg:lighten"@.len()
                && "svg:color-burn"@.len() != "svg:color-dodge"@.len());
        },
        BlendMode::ColorDodge => {
            reveal_strlit("svg:src-over");
            reveal_strlit("svg:multiply");
            reveal_strlit("svg:screen");
            reveal_strlit("svg:overlay");
            reveal_strlit("svg:darken");
            reveal_strlit("svg:lighten");
            reveal_strlit("svg:color-dodge");
            assert("svg:color-dodge"@.len() != "svg:src-over"@.len()
                && "svg:color-dodge"@.len() != "svg:multiply"@.len()
                && "svg:color-dodge"@.len() != "svg:screen"@.len()
                && "svg:color-dodge"@.len() != "svg:overlay"@.len()
                && "svg:color-dodge"@.len() != "svg:darken"@.len()
                && "svg:color-dodge"@.len() != "svg:lighten"@.len());
        },
        BlendMode::Darken => {
            reveal_strlit("svg:src-over");
            reveal_strlit("svg:multiply");
            reveal_strlit("svg:screen");
            reveal_strlit("svg:overlay");
            reveal_strlit("svg:darken");
            assert("svg:darken"@.len() != "svg:src-over"@.len()
                && "svg:darken"@.len() != "svg:multiply"@.len()
                && "svg:darken"@[4] != "svg:screen"@[4]
                && "svg:darken"@.len() != "svg:overlay"@.len());
        },
        BlendMode::Difference => {
            reveal_strlit("svg:src-over");
            reveal_strlit("svg:multiply");
            reveal_strlit("svg:screen");
            reveal_strlit("svg:overlay");
            reveal_strlit("svg:darken");
            reveal_strlit("svg:lighten");
            reveal_strlit("svg:color-dodge");
            reveal_strlit("svg:color-burn");
            reveal_strlit("svg:hard-light");
            reveal_strlit("svg:soft-light");
            reveal_strlit("svg:difference");
            assert("svg:difference"@.len() != "svg:src-over"@.len()
                && "svg:difference"@.len() != "svg:multiply"@.len()
                && "svg:difference"@.len() != "svg:screen"@.len()
                && "svg:difference"@.len() != "svg:overlay"@.len()
                && "svg:difference"@.len() != "svg:darken"@.len()
                && "svg:difference"@.len() != "svg:lighten"@.len()
                && "svg:difference"@.len() != "svg:color-dodge"@.len()
                && "svg:difference"@[4] != "svg:color-burn"@[4]
                && "svg:difference"@[4] != "svg:hard-light"@[4]
                && "svg:difference"@[4] != "svg:soft-light"@[4]);
        },
        BlendMode::Exclusion => {
            reveal_strlit("svg:src-over");
            reveal_strlit("svg:multiply");
            reveal_strlit("svg:screen");
            reveal_strlit("svg:overlay");
            reveal_strlit("svg:darken");
            reveal_strlit("svg:lighten");
            reveal_strlit("svg:color-dodge");
            reveal_strlit("svg:color-burn");
            reveal_strlit("svg:hard-light");
            reveal_strlit("svg:soft-light");
            reveal_strlit("svg:difference");
            reveal_strlit("svg:color");
            reveal_strlit("svg:luminosity");
            reveal_strlit("svg:hue");
            reveal_strlit("svg:saturation");
            reveal_strlit("svg:exclusion");
            assert("svg:exclusion"@.len() != "svg:src-over"@.len()
                && "svg:exclusion"@.len() != "svg:multiply"@.len()
                && "svg:exclusion"@.len() != "svg:screen"@.len()
                && "svg:exclusion"@.len() != "svg:overlay"@.len()
                && "svg:exclusion"@.len() != "svg:darken"@.len()
                && "svg:exclusion"@.len() != "svg:lighten"@.len()
                && "svg:exclusion"@.len() != "svg:color-dodge"@.len()
                && "svg:exclusion"@.len() != "svg:color-burn"@.len()
                && "svg:exclusion"@.len() != "svg:hard-light"@.len()
                && "svg:exclusion"@.len() != "svg:soft-light"@.len()
                && "svg:exclusion"@.len() != "svg:difference"@.len()
                && "svg:exclusion"@.len() != "svg:color"@.len()
                && "svg:exclusion"@.len() != "svg:luminosity"@.len()
                && "svg:exclusion"@.len() != "svg:hue"@.len()
                && "svg:exclusion"@.len() != "svg:saturation"@.len());
        },
        BlendMode::HardLight => {
            reveal_strlit("svg:src-over");
            reveal_strlit("svg:multiply");
            reveal_strlit("svg:screen");
            reveal_strlit("svg:overlay");
            reveal_strlit("svg:darken");
            reveal_strlit("svg:lighten");
            reveal_strlit("svg:color-dodge");
            reveal_strlit("svg:color-burn");
            reveal_strlit("svg:hard-light");
            assert("svg:hard-light"@.len() != "svg:src-over"@.len()
                && "svg:hard-light"@.len() != "svg:multiply"@.len()
                && "svg:hard-light"@.len() != "svg:screen"@.len()
                && "svg:hard-light"@.len() != "svg:overlay"@.len()
                && "svg:hard-light"@.len() != "svg:darken"@.len()
                && "svg:hard-light"@.len() != "svg:lighten"@.len()
                && "svg:hard-light"@.len() != "svg:color-dodge"@.len()
                && "svg:hard-light"@[4] != "svg:color-burn"@[4]);
        },
        BlendMode::Hue => {
            reveal_strlit("svg:src-over");
            reveal_strlit("svg:multiply");
            reveal_strlit("svg:screen");
            reveal_strlit("svg:overlay");
            reveal_strlit("svg:darken");
            reveal_strlit("svg:lighten");
            reveal_strlit("svg:color-dodge");
            reveal_strlit("svg:color-burn");
            reveal_strlit("svg:hard-light");
            reveal_strlit("svg:soft-light");
            reveal_strlit("svg:difference");
            reveal_strlit("svg:color");
            reveal_strlit("svg:luminosity");
            reveal_strlit("svg:hue");
            assert("svg:hue"@.len() != "svg:src-over"@.len()
                && "svg:hue"@.len() != "svg:multiply"@.len()
                && "svg:hue"@.len() != "svg:screen"@.len()
                && "svg:hue"@.len() != "svg:overlay"@.len()
                && "svg:hue"@.len() != "svg:darken"@.len()
                && "svg:hue"@.len() != "svg:lighten"@.len()
                && "svg:hue"@.len() != "svg:color-dodge"@.len()
                && "svg:hue"@.len() != "svg:color-burn"@.len()
                && "svg:hue"@.len() != "svg:hard-light"@.len()
                && "svg:hue"@.len() != "svg:soft-light"@.len()
                && "svg:hue"@.len() != "svg:difference"@.len()
                && "svg:hue"@.len() != "svg:color"@.len()
                && "svg:hue"@.len() != "svg:luminosity"@.len());
        },
        BlendMode::Lighten => {
            reveal_strlit("svg:src-over");
            reveal_strlit("svg:multiply");
            reveal_strlit("svg:screen");
            reveal_strlit("svg:overlay");
            reveal_strlit("svg:darken");
            reveal_strlit("svg:lighten");
            assert("svg:lighten"@.len() != "svg:src-over"@.len()
                && "svg:lighten"@.len() != "svg:multiply"@.len()
                && "svg:lighten"@.len() != "svg:screen"@.len()
                && "svg:lighten"@[4] != "svg:overlay"@[4]
                && "svg:lighten"@.len() != "svg:darken"@.len());
        },
        BlendMode::Luminosity => {
            reveal_strlit("svg:src-over");
            reveal_strlit("svg:multiply");
            reveal_strlit("svg:screen");
            reveal_strlit("svg:overlay");
            reveal_strlit("svg:darken");
            reveal_strlit("svg:lighten");
            reveal_strlit("svg:color-dodge");
            reveal_strlit("svg:color-burn");
            reveal_strlit("svg:hard-light");
            reveal_strlit("svg:soft-light");
            reveal_strlit("svg:difference");
            reveal_strlit("svg:color");
            reveal_strlit("svg:luminosity");
            assert("svg:luminosity"@.len() != "svg:src-over"@.len()
                && "svg:luminosity"@.len() != "svg:multiply"@.len()
                && "svg:luminosity"@.len() != "svg:screen"@.len()
                && "svg:luminosity"@.len() != "svg:overlay"@.len()
                && "svg:luminosity"@.len() != "svg:darken"@.len()
                && "svg:luminosity"@.len() != "svg:lighten"@.len()
                && "svg:luminosity"@.len() != "svg:color-dodge"@.len()
                && "svg:luminosity"@[4] != "svg:color-burn"@[4]
                && "svg:luminosity"@[4] != "svg:hard-light"@[4]
                && "svg:luminosity"@[4] != "svg:soft-light"@[4]
                && "svg:luminosity"@[4] != "svg:difference"@[4]
                && "svg:luminosity"@.len() != "svg:color"@.len());
        },
        BlendMode::Multiply => {
            reveal_strlit("svg:src-over");
            reveal_strlit("svg:multiply");
            assert("svg:multiply"@[4] != "svg:src-over"@[4]);
        },
        BlendMode::Overlay => {
            reveal_strlit("svg:src-over");
            reveal_strlit("svg:multiply");
            reveal_strlit("svg:screen");
            reveal_strlit("svg:overlay");
            assert("svg:overlay"@.len() != "svg:src-over"@.len()
                && "svg:overlay"@.len() != "svg:multiply"@.len()
                && "svg:overlay"@.len() != "svg:screen"@.len());
        },
        BlendMode::LinearDodge => {
            reveal_strlit("svg:src-over");
            reveal_strlit("svg:multiply");
            reveal_strlit("svg:screen");
            reveal_strlit("svg:overlay");
            reveal_strlit("svg:darken");
            reveal_strlit("svg:lighten");
            reveal_strlit("svg:color-dodge");
            reveal_strlit("svg:color-burn");
            reveal_strlit("svg:hard-light");
            reveal_strlit("svg:soft-light");
            reveal_strlit("svg:difference");
            reveal_strlit("svg:color");
            reveal_strlit("svg:luminosity");
            reveal_strlit("svg:hue");
            reveal_strlit("svg:saturation");
            reveal_strlit("svg:exclusion");
            reveal_strlit("svg:plus");
            assert("svg:plus"@.len() != "svg:src-over"@.len()
                && "svg:plus"@.len() != "svg:multiply"@.len()
                && "svg:plus"@.len() != "svg:screen"@.len()
                && "svg:plus"@.len() != "svg:overlay"@.len()
                && "svg:plus"@.len() != "svg:darken"@.len()
                && "svg:plus"@.len() != "svg:lighten"@.len()
                && "svg:plus"@.len() != "svg:color-dodge"@.len()
                && "svg:plus"@.len() != "svg:color-burn"@.len()
                && "svg:plus"@.len() != "svg:hard-light"@.len()
                && "svg:plus"@.len() != "svg:soft-light"@.len()
                && "svg:plus"@.len() != "svg:difference"@.len()
                && "svg:plus"@.len() != "svg:color"@.len()
                && "svg:plus"@.len() != "svg:luminosity"@.len()
                && "svg:plus"@.len() != "svg:hue"@.len()
                && "svg:plus"@.len() != "svg:saturation"@.len()
                && "svg:plus"@.len() != "svg:exclusion"@.len());
        },
        BlendMode::Saturation => {
            reveal_strlit("svg:src-over");
            reveal_strlit("svg:multiply");
            reveal_strlit("svg:screen");
            reveal_strlit("svg:overlay");
            reveal_strlit("svg:darken");
            reveal_strlit("svg:lighten");
            reveal_strlit("svg:color-dodge");
            reveal_strlit("svg:color-burn");
            reveal_strlit("svg:hard-light");
            reveal_strlit("svg:soft-light");
            reveal_strlit("svg:difference");
            reveal_strlit("svg:color");
            reveal_strlit("svg:luminosity");
            reveal_strlit("svg:hue");
            reveal_strlit("svg:saturation");
            assert("svg:saturation"@.len() != "svg:src-over"@.len()
                && "svg:saturation"@.len() != "svg:multiply"@.len()
                && "svg:saturation"@.len() != "svg:screen"@.len()
                && "svg:saturation"@.len() != "svg:overlay"@.len()
                && "svg:saturation"@.len() != "svg:darken"@.len()
                && "svg:saturation"@.len() != "svg:lighten"@.len()
                && "svg:saturation"@.len() != "svg:color-dodge"@.len()
                && "svg:saturation"@[4] != "svg:color-burn"@[4]
                && "svg:saturation"@[4] != "svg:hard-light"@[4]
                && "svg:saturation"@[5] != "svg:soft-light"@[5]
                && "svg:saturation"@[4] != "svg:difference"@[4]
                && "svg:saturation"@.len() != "svg:color"@.len()
                && "svg:saturation"@[4] != "svg:luminosity"@[4]
                && "svg:saturation"@.len() != "svg:hue"@.len());
        },
        BlendMode::Screen => {
            reveal_strlit("svg:src-over");
            reveal_strlit("svg:multiply");
            reveal_strlit("svg:screen");
            assert("svg:screen"@.len() != "svg:src-over"@.len()
                && "svg:screen"@.len() != "svg:multiply"@.len());
        },
        BlendMode::SoftLight => {
            reveal_strlit("svg:src-over");
            reveal_strlit("svg:multiply");
            reveal_strlit("svg:screen");
            reveal_strlit("svg:overlay");
            reveal_strlit("svg:darken");
            reveal_strlit("svg:lighten");
            reveal_strlit("svg:color-dodge");
            reveal_strlit("svg:color-burn");
            reveal_strlit("svg:hard-light");
            reveal_strlit("svg:soft-light");
            assert("svg:soft-light"@.len() != "svg:src-over"@.len()
                && "svg:soft-light"@.len() != "svg:multiply"@.len()
                && "svg:soft-light"@.len() != "svg:screen"@.len()
                && "svg:soft-light"@.len() != "svg:overlay"@.len()
                && "svg:soft-light"@.len() != "svg:darken"@.len()
                && "svg:soft-light"@.len() != "svg:lighten"@.len()
                && "svg:soft-light"@.len() != "svg:color-dodge"@.len()
                && "svg:soft-light"@[4] != "svg:color-burn"@[4]
                && "svg:soft-light"@[4] != "svg:hard-light"@[4]);
        },
        BlendMode::Normal => {
            reveal_strlit("svg:src-over");
        },
    }
}

/// The blend modes of the W3C compositing specification, which OpenRaster
/// names `svg:` followed by the mode's kebab-case name.
pub open spec fn svg_blend(mode: BlendMode) -> bool {
    match mode {
        BlendMode::Multiply | BlendMode::Screen | BlendMode::Overlay | BlendMode::Darken | BlendMode::Lighten
        | BlendMode::ColorDodge | BlendMode::ColorBurn | BlendMode::HardLight | BlendMode::SoftLight
        | BlendMode::Difference | BlendMode::Exclusion | BlendMode::Hue | BlendMode::Saturation | BlendMode::Color
        | BlendMode::Luminosity => true,
        _ => false,
    }
}

/// `s` with every `-` written `_`.
pub open spec fn underscored(s: Seq<char>) -> Seq<char> {
    s.map_values(|c: char| if c == '-' { '_' } else { c })
}

/// A mode's `composite-op` identifier is spelled from its AIF identifier
/// (its kebab-case name): `svg:` and that name for the W3C compositing
/// modes, `krita:` and the name with `_` for `-` for the modes only Krita
/// defines, `svg:src-over` for normal and `svg:plus` for linear dodge; and
/// each such identifier reads back as the mode.
pub proof fn law_ora_name_spelling(mode: BlendMode)
    ensures
        svg_blend(mode) ==> ora_name(mode) == "svg:"@ + aif_name(mode),
        !svg_blend(mode) && mode != BlendMode::Normal && mode != BlendMode::LinearDodge ==> ora_name(mode)
            == "krita:"@ + underscored(aif_name(mode)),
        mode == BlendMode::Normal ==> ora_name(mode) == "svg:src-over"@,
        mode == BlendMode::LinearDodge ==> ora_name(mode) == "svg:plus"@,
        mode_of_ora(ora_name(mode)) == mode,
{
    law_ora_round_trip(mode);
    reveal_strlit("svg:");
    reveal_strlit("krita:");
    match mode {
        BlendMode::Color => {
            reveal_strlit("svg:color");
            reveal_strlit("color");
            assert("svg:color"@ =~= "svg:"@ + "color"@);
        },
        BlendMode::ColorBurn => {
            reveal_strlit("svg:color-burn");
            reveal_strlit("color-burn");
            assert("svg:color-burn"@ =~= "svg:"@ + "color-burn"@);
        },
        BlendMode::ColorDodge => {
            reveal_strlit("svg:color-dodge");
            reveal_strlit("color-dodge");
            assert("svg:color-dodge"@ =~= "svg:"@ + "color-dodge"@);
        },
        BlendMode::Darken => {
            reveal_strlit("svg:darken");
            reveal_strlit("darken");
            assert("svg:darken"@ =~= "svg:"@ + "darken"@);
        },
        BlendMode::DarkerColor => {
            reveal_strlit("krita:darker_color");
            reveal_strlit("darker-color");
            assert("krita:darker_color"@ =~= "krita:"@ + underscored("darker-color"@));
        },
        BlendMode::Difference => {
            reveal_strlit("svg:difference");
            reveal_strlit("difference");
            assert("svg:difference"@ =~= "svg:"@ + "difference"@);
        },
        BlendMode::Dissolve => {
            reveal_strlit("krita:dissolve");
            reveal_strlit("dissolve");
            assert("krita:dissolve"@ =~= "krita:"@ + underscored("dissolve"@));
        },
        BlendMode::Divide => {
            reveal_strlit("krita:divide");
            reveal_strlit("divide");
            assert("krita:divide"@ =~= "krita:"@ + underscored("divide"@));
        },
        BlendMode::Exclusion => {
            reveal_strlit("svg:exclusion");
            reveal_strlit("exclusion");
            assert("svg:exclusion"@ =~= "svg:"@ + "exclusion"@);
        },
        BlendMode::HardLight => {
            reveal_strlit("svg:hard-light");
            reveal_strlit("hard-light");
            assert("svg:hard-light"@ =~= "svg:"@ + "hard-light"@);
        },
        BlendMode::HardMix => {
            reveal_strlit("krita:hard_mix");
            reveal_strlit("hard-mix");
            assert("krita:hard_mix"@ =~= "krita:"@ + underscored("hard-mix"@));
        },
        BlendMode::Hue => {
            reveal_strlit("svg:hue");
            reveal_strlit("hue");
            assert("svg:hue"@ =~= "svg:"@ + "hue"@);
        },
        BlendMode::Lighten => {
            reveal_strlit("svg:lighten");
            reveal_strlit("lighten");
            assert("svg:lighten"@ =~= "svg:"@ + "lighten"@);
        },
        BlendMode::LighterColor => {
            reveal_strlit("krita:lighter_color");
            reveal_strlit("lighter-color");
            assert("krita:lighter_color"@ =~= "krita:"@ + underscored("lighter-color"@));
        },
        BlendMode::LinearBurn => {
            reveal_strlit("krita:linear_burn");
            reveal_strlit("linear-burn");
            assert("krita:linear_burn"@ =~= "krita:"@ + underscored("linear-burn"@));
        },
        BlendMode::LinearDodge => {
            reveal_strlit("svg:plus");
            reveal_strlit("linear-dodge");
        },
        BlendMode::LinearLight => {
            reveal_strlit("krita:linear_light");
            reveal_strlit("linear-light");
            assert("krita:linear_light"@ =~= "krita:"@ + underscored("linear-light"@));
        },
        BlendMode::Luminosity => {
            reveal_strlit("svg:luminosity");
            reveal_strlit("luminosity");
            assert("svg:luminosity"@ =~= "svg:"@ + "luminosity"@);
        },
        BlendMode::Multiply => {
            reveal_strlit("svg:multiply");
            reveal_strlit("multiply");
            assert("svg:multiply"@ =~= "svg:"@ + "multiply"@);
        },
        BlendMode::Normal => {
            reveal_strlit("svg:src-over");
            reveal_strlit("normal");
        },
        BlendMode::Overlay => {
            reveal_strlit("svg:overlay");
            reveal_strlit("overlay");
            assert("svg:overlay"@ =~= "svg:"@ + "overlay"@);
        },
        BlendMode::PinLight => {
            reveal_strlit("krita:pin_light");
            reveal_strlit("pin-light");
            assert("krita:pin_light"@ =~= "krita:"@ + underscored("pin-light"@));
        },
        BlendMode::Saturation => {
            reveal_strlit("svg:saturation");
            reveal_strlit("saturation");
            assert("svg:saturation"@ =~= "svg:"@ + "saturation"@);
        },
        BlendMode::Screen => {
            reveal_strlit("svg:screen");
            reveal_strlit("screen");
            assert("svg:screen"@ =~= "svg:"@ + "screen"@);
        },
        BlendMode::SoftLight => {
            reveal_strlit("svg:soft-light");
            reveal_strlit("soft-light");
            assert("svg:soft-light"@ =~= "svg:"@ + "soft-light"@);
        },
        BlendMode::Subtract => {
            reveal_strlit("krita:subtract");
            reveal_strlit("subtract");
            assert("krita:subtract"@ =~= "krita:"@ + underscored("subtract"@));
        },
        BlendMode::VividLight => {
            reveal_strlit("krita:vivid_light");
            reveal_strlit("vivid-light");
            assert("krita:vivid_light"@ =~= "krita:"@ + underscored("vivid-light"@));
        },
    }
}

} // verus!
