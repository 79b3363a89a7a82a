//! The waveform overlay: what it shows and its colours.

use vstd::prelude::*;

verus! {

/// What the overlay reports.
#[derive(Clone, Copy, PartialEq, Eq, Structural, Debug)]
pub enum Mode {
    Listening,
    Connecting,
    Finalizing,
    Success,
    Warning,
    Error,
}

impl Mode {
    /// Whether the waveform follows the microphone.
    pub fn responds_to_audio(self) -> (r: bool)
        ensures
            r == (self == Mode::Listening || self == Mode::Connecting),
    {
        match self {
            Mode::Listening => true,
            Mode::Connecting => true,
            _ => false,
        }
    }
}

/// The system's window appearance.
#[derive(Clone, Copy, PartialEq, Eq, Structural, Debug)]
pub enum WindowAppearance {
    Light,
    VibrantLight,
    Dark,
    VibrantDark,
}

/// Colours as `0xRRGGBBAA`.
#[derive(Clone, Copy, PartialEq, Eq, Structural, Debug)]
pub struct Palette {
    pub background: u32,
    pub border: u32,
    pub bar: u32,
}

pub open spec fn light(appearance: WindowAppearance) -> bool {
    appearance == WindowAppearance::Light || appearance == WindowAppearance::VibrantLight
}

/// Whether an appearance is light.
pub fn is_light(appearance: WindowAppearance) -> (r: bool)
    ensures
        r == light(appearance),
{
    match appearance {
        WindowAppearance::Light => true,
        WindowAppearance::VibrantLight => true,
        _ => false,
    }
}

/// The colours for an appearance.
pub fn palette(appearance: WindowAppearance) -> (r: Palette)
    ensures
        r == if light(appearance) {
            Palette { background: 0xF4F5F7EF, border: 0x00000018, bar: 0x1A1B1DD9 }
        } else {
            Palette { background: 0x0A0B0DEF, border: 0xFFFFFF18, bar: 0xFFFFFFD9 }
        },
{
    if is_light(appearance) {
        Palette { background: 0xF4F5F7EF, border: 0x00000018, bar: 0x1A1B1DD9 }
    } else {
        Palette { background: 0x0A0B0DEF, border: 0xFFFFFF18, bar: 0xFFFFFFD9 }
    }
}

/// What the overlay shows. `level` holds the bits of a 32-bit float; zero is silence.
pub struct OverlayState {
    pub mode: Mode,
    pub message: String,
    pub preview: String,
    pub target_name: String,
    pub level: u32,
}

/// An [`OverlayState`] by its contents.
#[verifier::ext_equal]
pub struct Overlay {
    pub mode: Mode,
    pub message: Seq<char>,
    pub preview: Seq<char>,
    pub target_name: Seq<char>,
    pub level: u32,
}

impl View for OverlayState {
    type V = Overlay;

    open spec fn view(&self) -> Overlay {
        Overlay {
            mode: self.mode,
            message: self.message@,
            preview: self.preview@,
            target_name: self.target_name@,
            level: self.level,
        }
    }
}

impl Overlay {
    /// What a new overlay shows.
    pub open spec fn fresh() -> Overlay {
        Overlay {
            mode: Mode::Listening,
            message: "Listening"@,
            preview: ""@,
            target_name: "Current app"@,
            level: 0,
        }
    }
}

impl OverlayState {
    pub fn new() -> (r: Self)
        ensures
            r@ == Overlay::fresh(),
    {
        OverlayState {
            mode: Mode::Listening,
            message: "Listening".to_owned(),
            preview: "".to_owned(),
            target_name: "Current app".to_owned(),
            level: 0,
        }
    }
}

// ---- Laws ----

/// An appearance is light or dark, whether or not it is vibrant.
pub proof fn law_vibrancy_does_not_matter()
    ensures
        light(WindowAppearance::Light) && light(WindowAppearance::VibrantLight),
        !light(WindowAppearance::Dark) && !light(WindowAppearance::VibrantDark),
{
}

} // verus!
