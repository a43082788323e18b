//! Mapping from Photoshop blend-mode names to [`BlendMode`]s.

use vstd::prelude::*;

use crate::blend::BlendMode;
use crate::text::str_eq;

verus! {

/// The mode a Photoshop blend-mode name (the parser's variant name, such as
/// `"Multiply"`) stands for; `PassThrough` and unknown names give `Normal`.
pub open spec fn psd_blend_of(s: Seq<char>) -> BlendMode {
    if s == psd_mode_name(BlendMode::Normal) {
        BlendMode::Normal
    } else if s == psd_mode_name(BlendMode::Dissolve) {
        BlendMode::Dissolve
    } else if s == psd_mode_name(BlendMode::Darken) {
        BlendMode::Darken
    } else if s == psd_mode_name(BlendMode::Multiply) {
        BlendMode::Multiply
    } else if s == psd_mode_name(BlendMode::ColorBurn) {
        BlendMode::ColorBurn
    } else if s == psd_mode_name(BlendMode::LinearBurn) {
        BlendMode::LinearBurn
    } else if s == psd_mode_name(BlendMode::DarkerColor) {
        BlendMode::DarkerColor
    } else if s == psd_mode_name(BlendMode::Lighten) {
        BlendMode::Lighten
    } else if s == psd_mode_name(BlendMode::Screen) {
        BlendMode::Screen
    } else if s == psd_mode_name(BlendMode::ColorDodge) {
        BlendMode::ColorDodge
    } else if s == psd_mode_name(BlendMode::LinearDodge) {
        BlendMode::LinearDodge
    } else if s == psd_mode_name(BlendMode::LighterColor) {
        BlendMode::LighterColor
    } else if s == psd_mode_name(BlendMode::Overlay) {
        BlendMode::Overlay
    } else if s == psd_mode_name(BlendMode::SoftLight) {
        BlendMode::SoftLight
    } else if s == psd_mode_name(BlendMode::HardLight) {
        BlendMode::HardLight
    } else if s == psd_mode_name(BlendMode::VividLight) {
        BlendMode::VividLight
    } else if s == psd_mode_name(BlendMode::LinearLight) {
        BlendMode::LinearLight
    } else if s == psd_mode_name(BlendMode::PinLight) {
        BlendMode::PinLight
    } else if s == psd_mode_name(BlendMode::HardMix) {
        BlendMode::HardMix
    } else if s == psd_mode_name(BlendMode::Difference) {
        BlendMode::Difference
    } else if s == psd_mode_name(BlendMode::Exclusion) {
        BlendMode::Exclusion
    } else if s == psd_mode_name(BlendMode::Subtract) {
        BlendMode::Subtract
    } else if s == psd_mode_name(BlendMode::Divide) {
        BlendMode::Divide
    } else if s == psd_mode_name(BlendMode::Hue) {
        BlendMode::Hue
    } else if s == psd_mode_name(BlendMode::Saturation) {
        BlendMode::Saturation
    } else if s == psd_mode_name(BlendMode::Color) {
        BlendMode::Color
    } else if s == psd_mode_name(BlendMode::Luminosity) {
        BlendMode::Luminosity
    } else {
        BlendMode::Normal
    }
}

/// The name the PSD parser gives each mode (its variant name).
pub open spec fn psd_mode_name(mode: BlendMode) -> Seq<char> {
    match mode {
        BlendMode::Color => "Color"@,
        BlendMode::ColorBurn => "ColorBurn"@,
        BlendMode::ColorDodge => "ColorDodge"@,
        BlendMode::Darken => "Darken"@,
        BlendMode::DarkerColor => "DarkerColor"@,
        BlendMode::Difference => "Difference"@,
        BlendMode::Dissolve => "Dissolve"@,
        BlendMode::Divide => "Divide"@,
        BlendMode::Exclusion => "Exclusion"@,
        BlendMode::HardLight => "HardLight"@,
        BlendMode::HardMix => "HardMix"@,
        BlendMode::Hue => "Hue"@,
        BlendMode::Lighten => "Lighten"@,
        BlendMode::LighterColor => "LighterColor"@,
        BlendMode::LinearBurn => "LinearBurn"@,
        BlendMode::LinearDodge => "LinearDodge"@,
        BlendMode::LinearLight => "LinearLight"@,
        BlendMode::Luminosity => "Luminosity"@,
        BlendMode::Multiply => "Multiply"@,
        BlendMode::Normal => "Normal"@,
        BlendMode::Overlay => "Overlay"@,
        BlendMode::PinLight => "PinLight"@,
        BlendMode::Saturation => "Saturation"@,
        BlendMode::Screen => "Screen"@,
        BlendMode::SoftLight => "SoftLight"@,
        BlendMode::Subtract => "Subtract"@,
        BlendMode::VividLight => "VividLight"@,
    }
}

/// Map a Photoshop blend-mode name to the Iris blend mode.
///
/// `PassThrough` applies only to groups; on a layer, like an unknown name,
/// it degrades to [`BlendMode::Normal`] rather than failing the import.
pub fn map_blend_mode(debug_name: &str) -> (r: BlendMode)
    ensures
        r == psd_blend_of(debug_name@),
{
    if str_eq(debug_name, "Normal") {
        return BlendMode::Normal;
    }
    if str_eq(debug_name, "Dissolve") {
        return BlendMode::Dissolve;
    }
    if str_eq(debug_name, "Darken") {
        return BlendMode::Darken;
    }
    if str_eq(debug_name, "Multiply") {
        return BlendMode::Multiply;
    }
    if str_eq(debug_name, "ColorBurn") {
        return BlendMode::ColorBurn;
    }
    if str_eq(debug_name, "LinearBurn") {
        return BlendMode::LinearBurn;
    }
    if str_eq(debug_name, "DarkerColor") {
        return BlendMode::DarkerColor;
    }
    if str_eq(debug_name, "Lighten") {
        return BlendMode::Lighten;
    }
    if str_eq(debug_name, "Screen") {
        return BlendMode::Screen;
    }
    if str_eq(debug_name, "ColorDodge") {
        return BlendMode::ColorDodge;
    }
    if str_eq(debug_name, "LinearDodge") {
        return BlendMode::LinearDodge;
    }
    if str_eq(debug_name, "LighterColor") {
        return BlendMode::LighterColor;
    }
    if str_eq(debug_name, "Overlay") {
        return BlendMode::Overlay;
    }
    if str_eq(debug_name, "SoftLight") {
        return BlendMode::SoftLight;
    }
    if str_eq(debug_name, "HardLight") {
        return BlendMode::HardLight;
    }
    if str_eq(debug_name, "VividLight") {
        return BlendMode::VividLight;
    }
    if str_eq(debug_name, "LinearLight") {
        return BlendMode::LinearLight;
    }
    if str_eq(debug_name, "PinLight") {
        return BlendMode::PinLight;
    }
    if str_eq(debug_name, "HardMix") {
        return BlendMode::HardMix;
    }
    if str_eq(debug_name, "Difference") {
        return BlendMode::Difference;
    }
    if str_eq(debug_name, "Exclusion") {
        return BlendMode::Exclusion;
    }
    if str_eq(debug_name, "Subtract") {
        return BlendMode::Subtract;
    }
    if str_eq(debug_name, "Divide") {
        return BlendMode::Divide;
    }
    if str_eq(debug_name, "Hue") {
        return BlendMode::Hue;
    }
    if str_eq(debug_name, "Saturation") {
        return BlendMode::Saturation;
    }
    if str_eq(debug_name, "Color") {
        return BlendMode::Color;
    }
    if str_eq(debug_name, "Luminosity") {
        return BlendMode::Luminosity;
    }
    BlendMode::Normal
}

/// Every mode's PSD name maps back to that mode; any other name maps to
/// [`BlendMode::Normal`].
pub proof fn law_psd_mode_name_round_trip(mode: BlendMode, other: Seq<char>)
    requires
        forall|m: BlendMode| psd_mode_name(m) != other,
    ensures
        psd_blend_of(psd_mode_name(mode)) == mode,
        psd_blend_of(other) == BlendMode::Normal,
{
    match mode {
        BlendMode::Color => {
            reveal_strlit("Color");
            reveal_strlit("Normal");
            assert("Color"@.len() != "Normal"@.len());
            reveal_strlit("Dissolve");
            assert("Color"@.len() != "Dissolve"@.len());
            reveal_strlit("Darken");
            assert("Color"@.len() != "Darken"@.len());
            reveal_strlit("Multiply");
            assert("Color"@.len() != "Multiply"@.len());
            reveal_strlit("ColorBurn");
            assert("Color"@.len() != "ColorBurn"@.len());
            reveal_strlit("LinearBurn");
            assert("Color"@.len() != "LinearBurn"@.len());
            reveal_strlit("DarkerColor");
            assert("Color"@.len() != "DarkerColor"@.len());
            reveal_strlit("Lighten");
            assert("Color"@.len() != "Lighten"@.len());
            reveal_strlit("Screen");
            assert("Color"@.len() != "Screen"@.len());
            reveal_strlit("ColorDodge");
            assert("Color"@.len() != "ColorDodge"@.len());
            reveal_strlit("LinearDodge");
            assert("Color"@.len() != "LinearDodge"@.len());
            reveal_strlit("LighterColor");
            assert("Color"@.len() != "LighterColor"@.len());
            reveal_strlit("Overlay");
            assert("Color"@.len() != "Overlay"@.len());
            reveal_strlit("SoftLight");
            assert("Color"@.len() != "SoftLight"@.len());
            reveal_strlit("HardLight");
            assert("Color"@.len() != "HardLight"@.len());
            reveal_strlit("VividLight");
            assert("Color"@.len() != "VividLight"@.len());
            reveal_strlit("LinearLight");
            assert("Color"@.len() != "LinearLight"@.len());
            reveal_strlit("PinLight");
            assert("Color"@.len() != "PinLight"@.len());
            reveal_strlit("HardMix");
            assert("Color"@.len() != "HardMix"@.len());
            reveal_strlit("Difference");
            assert("Color"@.len() != "Difference"@.len());
            reveal_strlit("Exclusion");
            assert("Color"@.len() != "Exclusion"@.len());
            reveal_strlit("Subtract");
            assert("Color"@.len() != "Subtract"@.len());
            reveal_strlit("Divide");
            assert("Color"@.len() != "Divide"@.len());
            reveal_strlit("Hue");
            assert("Color"@.len() != "Hue"@.len());
            reveal_strlit("Saturation");
            assert("Color"@.len() != "Saturation"@.len());
        },
        BlendMode::ColorBurn => {
            reveal_strlit("ColorBurn");
            reveal_strlit("Normal");
            assert("ColorBurn"@.len() != "Normal"@.len());
            reveal_strlit("Dissolve");
            assert("ColorBurn"@.len() != "Dissolve"@.len());
            reveal_strlit("Darken");
            assert("ColorBurn"@.len() != "Darken"@.len());
            reveal_strlit("Multiply");
            assert("ColorBurn"@.len() != "Multiply"@.len());
        },
        BlendMode::ColorDodge => {
            reveal_strlit("ColorDodge");
            reveal_strlit("Normal");
            assert("ColorDodge"@.len() != "Normal"@.len());
            reveal_strlit("Dissolve");
            assert("ColorDodge"@.len() != "Dissolve"@.len());
            reveal_strlit("Darken");
            assert("ColorDodge"@.len() != "Darken"@.len());
            reveal_strlit("Multiply");
            assert("ColorDodge"@.len() != "Multiply"@.len());
            reveal_strlit("ColorBurn");
            assert("ColorDodge"@.len() != "ColorBurn"@.len());
            reveal_strlit("LinearBurn");
            assert("ColorDodge"@[0] != "LinearBurn"@[0]);
            reveal_strlit("DarkerColor");
            assert("ColorDodge"@.len() != "DarkerColor"@.len());
            reveal_strlit("Lighten");
            assert("ColorDodge"@.len() != "Lighten"@.len());
            reveal_strlit("Screen");
            assert("ColorDodge"@.len() != "Screen"@.len());
        },
        BlendMode::Darken => {
            reveal_strlit("Darken");
            reveal_strlit("Normal");
            assert("Darken"@[0] != "Normal"@[0]);
            reveal_strlit("Dissolve");
            assert("Darken"@.len() != "Dissolve"@.len());
        },
        BlendMode::DarkerColor => {
            reveal_strlit("DarkerColor");
            reveal_strlit("Normal");
            assert("DarkerColor"@.len() != "Normal"@.len());
            reveal_strlit("Dissolve");
            assert("DarkerColor"@.len() != "Dissolve"@.len());
            reveal_strlit("Darken");
            assert("DarkerColor"@.len() != "Darken"@.len());
            reveal_strlit("Multiply");
            assert("DarkerColor"@.len() != "Multiply"@.len());
            reveal_strlit("ColorBurn");
            assert("DarkerColor"@.len() != "ColorBurn"@.len());
            reveal_strlit("LinearBurn");
            assert("DarkerColor"@.len() != "LinearBurn"@.len());
        },
        BlendMode::Difference => {
            reveal_strlit("Difference");
            reveal_strlit("Normal");
            assert("Difference"@.len() != "Normal"@.len());
            reveal_strlit("Dissolve");
            assert("Difference"@.len() != "Dissolve"@.len());
            reveal_strlit("Darken");
            assert("Difference"@.len() != "Darken"@.len());
            reveal_strlit("Multiply");
            assert("Difference"@.len() != "Multiply"@.len());
            reveal_strlit("ColorBurn");
            assert("Difference"@.len() != "ColorBurn"@.len());
            reveal_strlit("LinearBurn");
            assert("Difference"@[0] != "LinearBurn"@[0]);
            reveal_strlit("DarkerColor");
            assert("Difference"@.len() != "DarkerColor"@.len());
            reveal_strlit("Lighten");
            assert("Difference"@.len() != "Lighten"@.len());
            reveal_strlit("Screen");
            assert("Difference"@.len() != "Screen"@.len());
            reveal_strlit("ColorDodge");
            assert("Difference"@[0] != "ColorDodge"@[0]);
            reveal_strlit("LinearDodge");
            assert("Difference"@.len() != "LinearDodge"@.len());
            reveal_strlit("LighterColor");
            assert("Difference"@.len() != "LighterColor"@.len());
            reveal_strlit("Overlay");
            assert("Difference"@.len() != "Overlay"@.len());
            reveal_strlit("SoftLight");
            assert("Difference"@.len() != "SoftLight"@.len());
            reveal_strlit("HardLight");
            assert("Difference"@.len() != "HardLight"@.len());
            reveal_strlit("VividLight");
            assert("Difference"@[0] != "VividLight"@[0]);
            reveal_strlit("LinearLight");
            assert("Difference"@.len() != "LinearLight"@.len());
            reveal_strlit("PinLight");
            assert("Difference"@.len() != "PinLight"@.len());
            reveal_strlit("HardMix");
            assert("Difference"@.len() != "HardMix"@.len());
        },
        BlendMode::Dissolve => {
            reveal_strlit("Dissolve");
            reveal_strlit("Normal");
            assert("Dissolve"@.len() != "Normal"@.len());
        },
        BlendMode::Divide => {
            reveal_strlit("Divide");
            reveal_strlit("Normal");
            assert("Divide"@[0] != "Normal"@[0]);
            reveal_strlit("Dissolve");
            assert("Divide"@.len() != "Dissolve"@.len());
            reveal_strlit("Darken");
            assert("Divide"@[1] != "Darken"@[1]);
            reveal_strlit("Multiply");
            assert("Divide"@.len() != "Multiply"@.len());
            reveal_strlit("ColorBurn");
            assert("Divide"@.len() != "ColorBurn"@.len());
            reveal_strlit("LinearBurn");
            assert("Divide"@.len() != "LinearBurn"@.len());
            reveal_strlit("DarkerColor");
            assert("Divide"@.len() != "DarkerColor"@.len());
            reveal_strlit("Lighten");
            assert("Divide"@.len() != "Lighten"@.len());
            reveal_strlit("Screen");
            assert("Divide"@[0] != "Screen"@[0]);
            reveal_strlit("ColorDodge");
            assert("Divide"@.len() != "ColorDodge"@.len());
            reveal_strlit("LinearDodge");
            assert("Divide"@.len() != "LinearDodge"@.len());
            reveal_strlit("LighterColor");
            assert("Divide"@.len() != "LighterColor"@.len());
            reveal_strlit("Overlay");
            assert("Divide"@.len() != "Overlay"@.len());
            reveal_strlit("SoftLight");
            assert("Divide"@.len() != "SoftLight"@.len());
            reveal_strlit("HardLight");
            assert("Divide"@.len() != "HardLight"@.len());
            reveal_strlit("VividLight");
            assert("Divide"@.len() != "VividLight"@.len());
            reveal_strlit("LinearLight");
            assert("Divide"@.len() != "LinearLight"@.len());
            reveal_strlit("PinLight");
            assert("Divide"@.len() != "PinLight"@.len());
            reveal_strlit("HardMix");
            assert("Divide"@.len() != "HardMix"@.len());
            reveal_strlit("Difference");
            assert("Divide"@.len() != "Difference"@.len());
            reveal_strlit("Exclusion");
            assert("Divide"@.len() != "Exclusion"@.len());
            reveal_strlit("Subtract");
            assert("Divide"@.len() != "Subtract"@.len());
        },
        BlendMode::Exclusion => {
            reveal_strlit("Exclusion");
            reveal_strlit("Normal");
            assert("Exclusion"@.len() != "Normal"@.len());
            reveal_strlit("Dissolve");
            assert("Exclusion"@.len() != "Dissolve"@.len());
            reveal_strlit("Darken");
            assert("Exclusion"@.len() != "Darken"@.len());
            reveal_strlit("Multiply");
            assert("Exclusion"@.len() != "Multiply"@.len());
            reveal_strlit("ColorBurn");
            assert("Exclusion"@[0] != "ColorBurn"@[0]);
            reveal_strlit("LinearBurn");
            assert("Exclusion"@.len() != "LinearBurn"@.len());
            reveal_strlit("DarkerColor");
            assert("Exclusion"@.len() != "DarkerColor"@.len());
            reveal_strlit("Lighten");
            assert("Exclusion"@.len() != "Lighten"@.len());
            reveal_strlit("Screen");
            assert("Exclusion"@.len() != "Screen"@.len());
            reveal_strlit("ColorDodge");
            assert("Exclusion"@.len() != "ColorDodge"@.len());
            reveal_strlit("LinearDodge");
            assert("Exclusion"@.len() != "LinearDodge"@.len());
            reveal_strlit("LighterColor");
            assert("Exclusion"@.len() != "LighterColor"@.len());
            reveal_strlit("Overlay");
            assert("Exclusion"@.len() != "Overlay"@.len());
            reveal_strlit("SoftLight");
            assert("Exclusion"@[0] != "SoftLight"@[0]);
            reveal_strlit("HardLight");
            assert("Exclusion"@[0] != "HardLight"@[0]);
            reveal_strlit("VividLight");
            assert("Exclusion"@.len() != "VividLight"@.len());
            reveal_strlit("LinearLight");
            assert("Exclusion"@.len() != "LinearLight"@.len());
            reveal_strlit("PinLight");
            assert("Exclusion"@.len() != "PinLight"@.len());
            reveal_strlit("HardMix");
            assert("Exclusion"@.len() != "HardMix"@.len());
            reveal_strlit("Difference");
            assert("Exclusion"@.len() != "Difference"@.len());
        },
        BlendMode::HardLight => {
            reveal_strlit("HardLight");
            reveal_strlit("Normal");
            assert("HardLight"@.len() != "Normal"@.len());
            reveal_strlit("Dissolve");
            assert("HardLight"@.len() != "Dissolve"@.len());
            reveal_strlit("Darken");
            assert("HardLight"@.len() != "Darken"@.len());
            reveal_strlit("Multiply");
            assert("HardLight"@.len() != "Multiply"@.len());
            reveal_strlit("ColorBurn");
            assert("HardLight"@[0] != "ColorBurn"@[0]);
            reveal_strlit("LinearBurn");
            assert("HardLight"@.len() != "LinearBurn"@.len());
            reveal_strlit("DarkerColor");
            assert("HardLight"@.len() != "DarkerColor"@.len());
            reveal_strlit("Lighten");
            assert("HardLight"@.len() != "Lighten"@.len());
            reveal_strlit("Screen");
            assert("HardLight"@.len() != "Screen"@.len());
            reveal_strlit("ColorDodge");
            assert("HardLight"@.len() != "ColorDodge"@.len());
            reveal_strlit("LinearDodge");
            assert("HardLight"@.len() != "LinearDodge"@.len());
            reveal_strlit("LighterColor");
            assert("HardLight"@.len() != "LighterColor"@.len());
            reveal_strlit("Overlay");
            assert("HardLight"@.len() != "Overlay"@.len());
            reveal_strlit("SoftLight");
            assert("HardLight"@[0] != "SoftLight"@[0]);
        },
        BlendMode::HardMix => {
            reveal_strlit("HardMix");
            reveal_strlit("Normal");
            assert("HardMix"@.len() != "Normal"@.len());
            reveal_strlit("Dissolve");
            assert("HardMix"@.len() != "Dissolve"@.len());
            reveal_strlit("Darken");
            assert("HardMix"@.len() != "Darken"@.len());
            reveal_strlit("Multiply");
            assert("HardMix"@.len() != "Multiply"@.len());
            reveal_strlit("ColorBurn");
            assert("HardMix"@.len() != "ColorBurn"@.len());
            reveal_strlit("LinearBurn");
            assert("HardMix"@.len() != "LinearBurn"@.len());
            reveal_strlit("DarkerColor");
            assert("HardMix"@.len() != "DarkerColor"@.len());
            reveal_strlit("Lighten");
            assert("HardMix"@[0] != "Lighten"@[0]);
            reveal_strlit("Screen");
            assert("HardMix"@.len() != "Screen"@.len());
            reveal_strlit("ColorDodge");
            assert("HardMix"@.len() != "ColorDodge"@.len());
            reveal_strlit("LinearDodge");
            assert("HardMix"@.len() != "LinearDodge"@.len());
            reveal_strlit("LighterColor");
            assert("HardMix"@.len() != "LighterColor"@.len());
            reveal_strlit("Overlay");
            assert("HardMix"@[0] != "Overlay"@[0]);
            reveal_strlit("SoftLight");
            assert("HardMix"@.len() != "SoftLight"@.len());
            reveal_strlit("HardLight");
            assert("HardMix"@.len() != "HardLight"@.len());
            reveal_strlit("VividLight");
            assert("HardMix"@.len() != "VividLight"@.len());
            reveal_strlit("LinearLight");
            assert("HardMix"@.len() != "LinearLight"@.len());
            reveal_strlit("PinLight");
            assert("HardMix"@.len() != "PinLight"@.len());
        },
        BlendMode::Hue => {
            reveal_strlit("Hue");
            reveal_strlit("Normal");
            assert("Hue"@.len() != "Normal"@.len());
            reveal_strlit("Dissolve");
            assert("Hue"@.len() != "Dissolve"@.len());
            reveal_strlit("Darken");
            assert("Hue"@.len() != "Darken"@.len());
            reveal_strlit("Multiply");
            assert("Hue"@.len() != "Multiply"@.len());
            reveal_strlit("ColorBurn");
            assert("Hue"@.len() != "ColorBurn"@.len());
            reveal_strlit("LinearBurn");
            assert("Hue"@.len() != "LinearBurn"@.len());
            reveal_strlit("DarkerColor");
            assert("Hue"@.len() != "DarkerColor"@.len());
            reveal_strlit("Lighten");
            assert("Hue"@.len() != "Lighten"@.len());
            reveal_strlit("Screen");
            assert("Hue"@.len() != "Screen"@.len());
            reveal_strlit("ColorDodge");
            assert("Hue"@.len() != "ColorDodge"@.len());
            reveal_strlit("LinearDodge");
            assert("Hue"@.len() != "LinearDodge"@.len());
            reveal_strlit("LighterColor");
            assert("Hue"@.len() != "LighterColor"@.len());
            reveal_strlit("Overlay");
            assert("Hue"@.len() != "Overlay"@.len());
            reveal_strlit("SoftLight");
            assert("Hue"@.len() != "SoftLight"@.len());
            reveal_strlit("HardLight");
            assert("Hue"@.len() != "HardLight"@.len());
            reveal_strlit("VividLight");
            assert("Hue"@.len() != "VividLight"@.len());
            reveal_strlit("LinearLight");
            assert("Hue"@.len() != "LinearLight"@.len());
            reveal_strlit("PinLight");
            assert("Hue"@.len() != "PinLight"@.len());
            reveal_strlit("HardMix");
            assert("Hue"@.len() != "HardMix"@.len());
            reveal_strlit("Difference");
            assert("Hue"@.len() != "Difference"@.len());
            reveal_strlit("Exclusion");
            assert("Hue"@.len() != "Exclusion"@.len());
            reveal_strlit("Subtract");
            assert("Hue"@.len() != "Subtract"@.len());
            reveal_strlit("Divide");
            assert("Hue"@.len() != "Divide"@.len());
        },
        BlendMode::Lighten => {
            reveal_strlit("Lighten");
            reveal_strlit("Normal");
            assert("Lighten"@.len() != "Normal"@.len());
            reveal_strlit("Dissolve");
            assert("Lighten"@.len() != "Dissolve"@.len());
            reveal_strlit("Darken");
            assert("Lighten"@.len() != "Darken"@.len());
            reveal_strlit("Multiply");
            assert("Lighten"@.len() != "Multiply"@.len());
            reveal_strlit("ColorBurn");
            assert("Lighten"@.len() != "ColorBurn"@.len());
            reveal_strlit("LinearBurn");
            assert("Lighten"@.len() != "LinearBurn"@.len());
            reveal_strlit("DarkerColor");
            assert("Lighten"@.len() != "DarkerColor"@.len());
        },
        BlendMode::LighterColor => {
            reveal_strlit("LighterColor");
            reveal_strlit("Normal");
            assert("LighterColor"@.len() != "Normal"@.len());
            reveal_strlit("Dissolve");
            assert("LighterColor"@.len() != "Dissolve"@.len());
            reveal_strlit("Darken");
            assert("LighterColor"@.len() != "Darken"@.len());
            reveal_strlit("Multiply");
            assert("LighterColor"@.len() != "Multiply"@.len());
            reveal_strlit("ColorBurn");
            assert("LighterColor"@.len() != "ColorBurn"@.len());
            reveal_strlit("LinearBurn");
            assert("LighterColor"@.len() != "LinearBurn"@.len());
            reveal_strlit("DarkerColor");
            assert("LighterColor"@.len() != "DarkerColor"@.len());
            reveal_strlit("Lighten");
            assert("LighterColor"@.len() != "Lighten"@.len());
            reveal_strlit("Screen");
            assert("LighterColor"@.len() != "Screen"@.len());
            reveal_strlit("ColorDodge");
            assert("LighterColor"@.len() != "ColorDodge"@.len());
            reveal_strlit("LinearDodge");
            assert("LighterColor"@.len() != "LinearDodge"@.len());
        },
        BlendMode::LinearBurn => {
            reveal_strlit("LinearBurn");
            reveal_strlit("Normal");
            assert("LinearBurn"@.len() != "Normal"@.len());
            reveal_strlit("Dissolve");
            assert("LinearBurn"@.len() != "Dissolve"@.len());
            reveal_strlit("Darken");
            assert("LinearBurn"@.len() != "Darken"@.len());
            reveal_strlit("Multiply");
            assert("LinearBurn"@.len() != "Multiply"@.len());
            reveal_strlit("ColorBurn");
            assert("LinearBurn"@.len() != "ColorBurn"@.len());
        },
        BlendMode::LinearDodge => {
            reveal_strlit("LinearDodge");
            reveal_strlit("Normal");
            assert("LinearDodge"@.len() != "Normal"@.len());
            reveal_strlit("Dissolve");
            assert("LinearDodge"@.len() != "Dissolve"@.len());
            reveal_strlit("Darken");
            assert("LinearDodge"@.len() != "Darken"@.len());
            reveal_strlit("Multiply");
            assert("LinearDodge"@.len() != "Multiply"@.len());
            reveal_strlit("ColorBurn");
            assert("LinearDodge"@.len() != "ColorBurn"@.len());
            reveal_strlit("LinearBurn");
            assert("LinearDodge"@.len() != "LinearBurn"@.len());
            reveal_strlit("DarkerColor");
            assert("LinearDodge"@[0] != "DarkerColor"@[0]);
            reveal_strlit("Lighten");
            assert("LinearDodge"@.len() != "Lighten"@.len());
            reveal_strlit("Screen");
            assert("LinearDodge"@.len() != "Screen"@.len());
            reveal_strlit("ColorDodge");
            assert("LinearDodge"@.len() != "ColorDodge"@.len());
        },
        BlendMode::LinearLight => {
            reveal_strlit("LinearLight");
            reveal_strlit("Normal");
            assert("LinearLight"@.len() != "Normal"@.len());
            reveal_strlit("Dissolve");
            assert("LinearLight"@.len() != "Dissolve"@.len());
            reveal_strlit("Darken");
            assert("LinearLight"@.len() != "Darken"@.len());
            reveal_strlit("Multiply");
            assert("LinearLight"@.len() != "Multiply"@.len());
            reveal_strlit("ColorBurn");
            assert("LinearLight"@.len() != "ColorBurn"@.len());
            reveal_strlit("LinearBurn");
            assert("LinearLight"@.len() != "LinearBurn"@.len());
            reveal_strlit("DarkerColor");
            assert("LinearLight"@[0] != "DarkerColor"@[0]);
            reveal_strlit("Lighten");
            assert("LinearLight"@.len() != "Lighten"@.len());
            reveal_strlit("Screen");
            assert("LinearLight"@.len() != "Screen"@.len());
            reveal_strlit("ColorDodge");
            assert("LinearLight"@.len() != "ColorDodge"@.len());
            reveal_strlit("LinearDodge");
            assert("LinearLight"@[6] != "LinearDodge"@[6]);
            reveal_strlit("LighterColor");
            assert("LinearLight"@.len() != "LighterColor"@.len());
            reveal_strlit("Overlay");
            assert("LinearLight"@.len() != "Overlay"@.len());
            reveal_strlit("SoftLight");
            assert("LinearLight"@.len() != "SoftLight"@.len());
            reveal_strlit("HardLight");
            assert("LinearLight"@.len() != "HardLight"@.len());
            reveal_strlit("VividLight");
            assert("LinearLight"@.len() != "VividLight"@.len());
        },
        BlendMode::Luminosity => {
            reveal_strlit("Luminosity");
            reveal_strlit("Normal");
            assert("Luminosity"@.len() != "Normal"@.len());
            reveal_strlit("Dissolve");
            assert("Luminosity"@.len() != "Dissolve"@.len());
            reveal_strlit("Darken");
            assert("Luminosity"@.len() != "Darken"@.len());
            reveal_strlit("Multiply");
            assert("Luminosity"@.len() != "Multiply"@.len());
            reveal_strlit("ColorBurn");
            assert("Luminosity"@.len() != "ColorBurn"@.len());
            reveal_strlit("LinearBurn");
            assert("Luminosity"@[1] != "LinearBurn"@[1]);
            reveal_strlit("DarkerColor");
            assert("Luminosity"@.len() != "DarkerColor"@.len());
            reveal_strlit("Lighten");
            assert("Luminosity"@.len() != "Lighten"@.len());
            reveal_strlit("Screen");
            assert("Luminosity"@.len() != "Screen"@.len());
            reveal_strlit("ColorDodge");
            assert("Luminosity"@[0] != "ColorDodge"@[0]);
            reveal_strlit("LinearDodge");
            assert("Luminosity"@.len() != "LinearDodge"@.len());
            reveal_strlit("LighterColor");
            assert("Luminosity"@.len() != "LighterColor"@.len());
            reveal_strlit("Overlay");
            assert("Luminosity"@.len() != "Overlay"@.len());
            reveal_strlit("SoftLight");
            assert("Luminosity"@.len() != "SoftLight"@.len());
            reveal_strlit("HardLight");
            assert("Luminosity"@.len() != "HardLight"@.len());
            reveal_strlit("VividLight");
            assert("Luminosity"@[0] != "VividLight"@[0]);
            reveal_strlit("LinearLight");
            assert("Luminosity"@.len() != "LinearLight"@.len());
            reveal_strlit("PinLight");
            assert("Luminosity"@.len() != "PinLight"@.len());
            reveal_strlit("HardMix");
            assert("Luminosity"@.len() != "HardMix"@.len());
            reveal_strlit("Difference");
            assert("Luminosity"@[0] != "Difference"@[0]);
            reveal_strlit("Exclusion");
            assert("Luminosity"@.len() != "Exclusion"@.len());
            reveal_strlit("Subtract");
            assert("Luminosity"@.len() != "Subtract"@.len());
            reveal_strlit("Divide");
            assert("Luminosity"@.len() != "Divide"@.len());
            reveal_strlit("Hue");
            assert("Luminosity"@.len() != "Hue"@.len());
            reveal_strlit("Saturation");
            assert("Luminosity"@[0] != "Saturation"@[0]);
            reveal_strlit("Color");
            assert("Luminosity"@.len() != "Color"@.len());
        },
        BlendMode::Multiply => {
            reveal_strlit("Multiply");
            reveal_strlit("Normal");
            assert("Multiply"@.len() != "Normal"@.len());
            reveal_strlit("Dissolve");
            assert("Multiply"@[0] != "Dissolve"@[0]);
            reveal_strlit("Darken");
            assert("Multiply"@.len() != "Darken"@.len());
        },
        BlendMode::Normal => {
            reveal_strlit("Normal");
        },
        BlendMode::Overlay => {
            reveal_strlit("Overlay");
            reveal_strlit("Normal");
            assert("Overlay"@.len() != "Normal"@.len());
            reveal_strlit("Dissolve");
            assert("Overlay"@.len() != "Dissolve"@.len());
            reveal_strlit("Darken");
            assert("Overlay"@.len() != "Darken"@.len());
            reveal_strlit("Multiply");
            assert("Overlay"@.len() != "Multiply"@.len());
            reveal_strlit("ColorBurn");
            assert("Overlay"@.len() != "ColorBurn"@.len());
            reveal_strlit("LinearBurn");
            assert("Overlay"@.len() != "LinearBurn"@.len());
            reveal_strlit("DarkerColor");
            assert("Overlay"@.len() != "DarkerColor"@.len());
            reveal_strlit("Lighten");
            assert("Overlay"@[0] != "Lighten"@[0]);
            reveal_strlit("Screen");
            assert("Overlay"@.len() != "Screen"@.len());
            reveal_strlit("ColorDodge");
            assert("Overlay"@.len() != "ColorDodge"@.len());
            reveal_strlit("LinearDodge");
            assert("Overlay"@.len() != "LinearDodge"@.len());
            reveal_strlit("LighterColor");
            assert("Overlay"@.len() != "LighterColor"@.len());
        },
        BlendMode::PinLight => {
            reveal_strlit("PinLight");
            reveal_strlit("Normal");
            assert("PinLight"@.len() != "Normal"@.len());
            reveal_strlit("Dissolve");
            assert("PinLight"@[0] != "Dissolve"@[0]);
            reveal_strlit("Darken");
            assert("PinLight"@.len() != "Darken"@.len());
            reveal_strlit("Multiply");
            assert("PinLight"@[0] != "Multiply"@[0]);
            reveal_strlit("ColorBurn");
            assert("PinLight"@.len() != "ColorBurn"@.len());
            reveal_strlit("LinearBurn");
            assert("PinLight"@.len() != "LinearBurn"@.len());
            reveal_strlit("DarkerColor");
            assert("PinLight"@.len() != "DarkerColor"@.len());
            reveal_strlit("Lighten");
            assert("PinLight"@.len() != "Lighten"@.len());
            reveal_strlit("Screen");
            assert("PinLight"@.len() != "Screen"@.len());
            reveal_strlit("ColorDodge");
            assert("PinLight"@.len() != "ColorDodge"@.len());
            reveal_strlit("LinearDodge");
            assert("PinLight"@.len() != "LinearDodge"@.len());
            reveal_strlit("LighterColor");
            assert("PinLight"@.len() != "LighterColor"@.len());
            reveal_strlit("Overlay");
            assert("PinLight"@.len() != "Overlay"@.len());
            reveal_strlit("SoftLight");
            assert("PinLight"@.len() != "SoftLight"@.len());
            reveal_strlit("HardLight");
            assert("PinLight"@.len() != "HardLight"@.len());
            reveal_strlit("VividLight");
            assert("PinLight"@.len() != "VividLight"@.len());
            reveal_strlit("LinearLight");
            assert("PinLight"@.len() != "LinearLight"@.len());
        },
        BlendMode::Saturation => {
            reveal_strlit("Saturation");
            reveal_strlit("Normal");
            assert("Saturation"@.len() != "Normal"@.len());
            reveal_strlit("Dissolve");
            assert("Saturation"@.len() != "Dissolve"@.len());
            reveal_strlit("Darken");
            assert("Saturation"@.len() != "Darken"@.len());
            reveal_strlit("Multiply");
            assert("Saturation"@.len() != "Multiply"@.len());
            reveal_strlit("ColorBurn");
            assert("Saturation"@.len() != "ColorBurn"@.len());
            reveal_strlit("LinearBurn");
            assert("Saturation"@[0] != "LinearBurn"@[0]);
            reveal_strlit("DarkerColor");
            assert("Saturation"@.len() != "DarkerColor"@.len());
            reveal_strlit("Lighten");
            assert("Saturation"@.len() != "Lighten"@.len());
            reveal_strlit("Screen");
            assert("Saturation"@.len() != "Screen"@.len());
            reveal_strlit("ColorDodge");
            assert("Saturation"@[0] != "ColorDodge"@[0]);
            reveal_strlit("LinearDodge");
            assert("Saturation"@.len() != "LinearDodge"@.len());
            reveal_strlit("LighterColor");
            assert("Saturation"@.len() != "LighterColor"@.len());
            reveal_strlit("Overlay");
            assert("Saturation"@.len() != "Overlay"@.len());
            reveal_strlit("SoftLight");
            assert("Saturation"@.len() != "SoftLight"@.len());
            reveal_strlit("HardLight");
            assert("Saturation"@.len() != "HardLight"@.len());
            reveal_strlit("VividLight");
            assert("Saturation"@[0] != "VividLight"@[0]);
            reveal_strlit("LinearLight");
            assert("Saturation"@.len() != "LinearLight"@.len());
            reveal_strlit("PinLight");
            assert("Saturation"@.len() != "PinLight"@.len());
            reveal_strlit("HardMix");
            assert("Saturation"@.len() != "HardMix"@.len());
            reveal_strlit("Difference");
            assert("Saturation"@[0] != "Difference"@[0]);
            reveal_strlit("Exclusion");
            assert("Saturation"@.len() != "Exclusion"@.len());
            reveal_strlit("Subtract");
            assert("Saturation"@.len() != "Subtract"@.len());
            reveal_strlit("Divide");
            assert("Saturation"@.len() != "Divide"@.len());
            reveal_strlit("Hue");
            assert("Saturation"@.len() != "Hue"@.len());
        },
        BlendMode::Screen => {
            reveal_strlit("Screen");
            reveal_strlit("Normal");
            assert("Screen"@[0] != "Normal"@[0]);
            reveal_strlit("Dissolve");
            assert("Screen"@.len() != "Dissolve"@.len());
            reveal_strlit("Darken");
            assert("Screen"@[0] != "Darken"@[0]);
            reveal_strlit("Multiply");
            assert("Screen"@.len() != "Multiply"@.len());
            reveal_strlit("ColorBurn");
            assert("Screen"@.len() != "ColorBurn"@.len());
            reveal_strlit("LinearBurn");
            assert("Screen"@.len() != "LinearBurn"@.len());
            reveal_strlit("DarkerColor");
            assert("Screen"@.len() != "DarkerColor"@.len());
            reveal_strlit("Lighten");
            assert("Screen"@.len() != "Lighten"@.len());
        },
        BlendMode::SoftLight => {
            reveal_strlit("SoftLight");
            reveal_strlit("Normal");
            assert("SoftLight"@.len() != "Normal"@.len());
            reveal_strlit("Dissolve");
            assert("SoftLight"@.len() != "Dissolve"@.len());
            reveal_strlit("Darken");
            assert("SoftLight"@.len() != "Darken"@.len());
            reveal_strlit("Multiply");
            assert("SoftLight"@.len() != "Multiply"@.len());
            reveal_strlit("ColorBurn");
            assert("SoftLight"@[0] != "ColorBurn"@[0]);
            reveal_strlit("LinearBurn");
            assert("SoftLight"@.len() != "LinearBurn"@.len());
            reveal_strlit("DarkerColor");
            assert("SoftLight"@.len() != "DarkerColor"@.len());
            reveal_strlit("Lighten");
            assert("SoftLight"@.len() != "Lighten"@.len());
            reveal_strlit("Screen");
            assert("SoftLight"@.len() != "Screen"@.len());
            reveal_strlit("ColorDodge");
            assert("SoftLight"@.len() != "ColorDodge"@.len());
            reveal_strlit("LinearDodge");
            assert("SoftLight"@.len() != "LinearDodge"@.len());
            reveal_strlit("LighterColor");
            assert("SoftLight"@.len() != "LighterColor"@.len());
            reveal_strlit("Overlay");
            assert("SoftLight"@.len() != "Overlay"@.len());
        },
        BlendMode::Subtract => {
            reveal_strlit("Subtract");
            reveal_strlit("Normal");
            assert("Subtract"@.len() != "Normal"@.len());
            reveal_strlit("Dissolve");
            assert("Subtract"@[0] != "Dissolve"@[0]);
            reveal_strlit("Darken");
            assert("Subtract"@.len() != "Darken"@.len());
            reveal_strlit("Multiply");
            assert("Subtract"@[0] != "Multiply"@[0]);
            reveal_strlit("ColorBurn");
            assert("Subtract"@.len() != "ColorBurn"@.len());
            reveal_strlit("LinearBurn");
            assert("Subtract"@.len() != "LinearBurn"@.len());
            reveal_strlit("DarkerColor");
            assert("Subtract"@.len() != "DarkerColor"@.len());
            reveal_strlit("Lighten");
            assert("Subtract"@.len() != "Lighten"@.len());
            reveal_strlit("Screen");
            assert("Subtract"@.len() != "Screen"@.len());
            reveal_strlit("ColorDodge");
            assert("Subtract"@.len() != "ColorDodge"@.len());
            reveal_strlit("LinearDodge");
            assert("Subtract"@.len() != "LinearDodge"@.len());
            reveal_strlit("LighterColor");
            assert("Subtract"@.len() != "LighterColor"@.len());
            reveal_strlit("Overlay");
            assert("Subtract"@.len() != "Overlay"@.len());
            reveal_strlit("SoftLight");
            assert("Subtract"@.len() != "SoftLight"@.len());
            reveal_strlit("HardLight");
            assert("Subtract"@.len() != "HardLight"@.len());
            reveal_strlit("VividLight");
            assert("Subtract"@.len() != "VividLight"@.len());
            reveal_strlit("LinearLight");
            assert("Subtract"@.len() != "LinearLight"@.len());
            reveal_strlit("PinLight");
            assert("Subtract"@[0] != "PinLight"@[0]);
            reveal_strlit("HardMix");
            assert("Subtract"@.len() != "HardMix"@.len());
            reveal_strlit("Difference");
            assert("Subtract"@.len() != "Difference"@.len());
            reveal_strlit("Exclusion");
            assert("Subtract"@.len() != "Exclusion"@.len());
        },
        BlendMode::VividLight => {
            reveal_strlit("VividLight");
            reveal_strlit("Normal");
            assert("VividLight"@.len() != "Normal"@.len());
            reveal_strlit("Dissolve");
            assert("VividLight"@.len() != "Dissolve"@.len());
            reveal_strlit("Darken");
            assert("VividLight"@.len() != "Darken"@.len());
            reveal_strlit("Multiply");
            assert("VividLight"@.len() != "Multiply"@.len());
            reveal_strlit("ColorBurn");
            assert("VividLight"@.len() != "ColorBurn"@.len());
            reveal_strlit("LinearBurn");
            assert("VividLight"@[0] != "LinearBurn"@[0]);
            reveal_strlit("DarkerColor");
            assert("VividLight"@.len() != "DarkerColor"@.len());
            reveal_strlit("Lighten");
            assert("VividLight"@.len() != "Lighten"@.len());
            reveal_strlit("Screen");
            assert("VividLight"@.len() != "Screen"@.len());
            reveal_strlit("ColorDodge");
            assert("VividLight"@[0] != "ColorDodge"@[0]);
            reveal_strlit("LinearDodge");
            assert("VividLight"@.len() != "LinearDodge"@.len());
            reveal_strlit("LighterColor");
            assert("VividLight"@.len() != "LighterColor"@.len());
            reveal_strlit("Overlay");
            assert("VividLight"@.len() != "Overlay"@.len());
            reveal_strlit("SoftLight");
            assert("VividLight"@.len() != "SoftLight"@.len());
            reveal_strlit("HardLight");
            assert("VividLight"@.len() != "HardLight"@.len());
        },
    }
}

} // verus!
