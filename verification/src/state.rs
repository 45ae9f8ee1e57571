//! The shared data model: the full presentation configuration that the
//! producer edits and every viewer displays.
//!
//! Fractional quantities are carried as scaled integers so that the core
//! never touches floating point: `speed` is in thousandths of a unit per
//! tick (nominal range `0..=10_000`), `progress` in thousandths of a
//! percent (nominal range `0..=100_000`), and each colour component in
//! thousandths of full intensity (nominal range `0..=1000`). The core is a
//! pass-through: it accepts and forwards out-of-range values unchanged
//! rather than clamping them, so producer bugs stay visible.

use vstd::prelude::*;

verus! {

/// Horizontal alignment of the displayed text.
#[derive(Clone, Copy, Debug, Hash, PartialEq, Eq, Structural)]
pub enum Align {
    Left,
    Center,
    Right,
    Justify,
}

/// The closed set of fonts a viewer can be asked to render with.
#[derive(Clone, Copy, Debug, Hash, PartialEq, Eq, Structural)]
pub enum Font {
    Arial,
    Calibri,
    CourierNew,
    Georgia,
    Helvetica,
    TimesNewRoman,
    Verdana,
}

/// A colour as three components, each in thousandths of full intensity.
#[derive(Clone, Copy, Debug, PartialEq, Eq, Structural)]
pub struct Rgb {
    pub red: u16,
    pub green: u16,
    pub blue: u16,
}

/// The display label of an [`Align`] value.
pub open spec fn align_label(a: Align) -> Seq<char> {
    match a {
        Align::Left => "Left"@,
        Align::Center => "Center"@,
        Align::Right => "Right"@,
        Align::Justify => "Justify"@,
    }
}

/// The display label of a [`Font`] value.
pub open spec fn font_label(f: Font) -> Seq<char> {
    match f {
        Font::Arial => "Arial"@,
        Font::Calibri => "Calibri"@,
        Font::CourierNew => "Courier New"@,
        Font::Georgia => "Georgia"@,
        Font::Helvetica => "Helvetica"@,
        Font::TimesNewRoman => "Times New Roman"@,
        Font::Verdana => "Verdana"@,
    }
}

impl Align {
    /// The label shown for this alignment.
    pub fn to_string(&self) -> (s: String)
        ensures
            s@ == align_label(*self),
    {
        match self {
            Align::Left => "Left".to_owned(),
            Align::Center => "Center".to_owned(),
            Align::Right => "Right".to_owned(),
            Align::Justify => "Justify".to_owned(),
        }
    }
}

impl Font {
    /// The label shown for this font.
    pub fn to_string(&self) -> (s: String)
        ensures
            s@ == font_label(*self),
    {
        match self {
            Font::Arial => "Arial".to_owned(),
            Font::Calibri => "Calibri".to_owned(),
            Font::CourierNew => "Courier New".to_owned(),
            Font::Georgia => "Georgia".to_owned(),
            Font::Helvetica => "Helvetica".to_owned(),
            Font::TimesNewRoman => "Times New Roman".to_owned(),
            Font::Verdana => "Verdana".to_owned(),
        }
    }
}

/// The full presentation configuration: one value of this type is the
/// complete shared state at any instant, replaced wholesale on every
/// accepted producer update.
#[derive(Debug)]
pub struct TeleprompterConfig {
    /// Whether progress auto-advances.
    pub playing: bool,
    /// The presentation script, arbitrary length.
    pub text: String,
    /// Advance rate per tick, in thousandths of a unit.
    pub speed: u32,
    /// Position indicator, in thousandths of a percent.
    pub progress: u32,
    pub align: Align,
    pub font: Font,
    pub font_size: i16,
    pub font_color: Rgb,
    pub background_color: Rgb,
    /// Whether the display is mirrored horizontally.
    pub mirrored: bool,
    /// Whether the text scrolls in reverse.
    pub reversed: bool,
}

/// The mathematical value of a [`TeleprompterConfig`].
#[verifier::ext_equal]
pub ghost struct ConfigView {
    pub playing: bool,
    pub text: Seq<char>,
    pub speed: u32,
    pub progress: u32,
    pub align: Align,
    pub font: Font,
    pub font_size: i16,
    pub font_color: Rgb,
    pub background_color: Rgb,
    pub mirrored: bool,
    pub reversed: bool,
}

impl View for TeleprompterConfig {
    type V = ConfigView;

    open spec fn view(&self) -> ConfigView {
        ConfigView {
            playing: self.playing,
            text: self.text@,
            speed: self.speed,
            progress: self.progress,
            align: self.align,
            font: self.font,
            font_size: self.font_size,
            font_color: self.font_color,
            background_color: self.background_color,
            mirrored: self.mirrored,
            reversed: self.reversed,
        }
    }
}

/// Holds iff every field of `a` and `b` is equal except `progress`, which
/// differs. This is the predicate the throttle policy turns on: a change
/// for which it holds is mere motion of the position indicator.
pub open spec fn only_progress_differs(a: ConfigView, b: ConfigView) -> bool {
    &&& a.progress != b.progress
    &&& a.playing == b.playing
    &&& a.text == b.text
    &&& a.speed == b.speed
    &&& a.align == b.align
    &&& a.font == b.font
    &&& a.font_size == b.font_size
    &&& a.font_color == b.font_color
    &&& a.background_color == b.background_color
    &&& a.mirrored == b.mirrored
    &&& a.reversed == b.reversed
}

/// Upper end of the progress scale: 100 percent, in thousandths.
pub const MAX_PROGRESS: u32 = 100000;

/// One auto-advance tick of the producer while playing: progress moves by
/// one hundredth of the speed value; at the end of the scale progress
/// clamps and playback stops in the same step. Paused, nothing moves.
pub open spec fn spec_advance(v: ConfigView) -> ConfigView {
    if !v.playing {
        v
    } else if v.progress + v.speed / 100 >= MAX_PROGRESS {
        ConfigView { progress: MAX_PROGRESS, playing: false, ..v }
    } else {
        ConfigView { progress: (v.progress + v.speed / 100) as u32, ..v }
    }
}

/// The documented start-of-process configuration: paused, neutral styling,
/// placeholder text.
pub open spec fn default_config() -> ConfigView {
    ConfigView {
        playing: false,
        text: "Lorem ipsum dolor sit amet, consectetur adipiscing elit, sed do eiusmod tempor incididunt ut labore et dolore magna aliqua. Ut enim ad minim veniam, quis nostrud exercitation ullamco laboris nisi ut aliquip ex ea commodo consequat. Duis aute irure dolor in reprehenderit in voluptate velit esse cillum dolore eu fugiat nulla pariatur. Excepteur sint occaecat cupidatat non proident, sunt in culpa qui officia deserunt mollit anim id est laborum."@,
        speed: 1000,
        progress: 0,
        align: Align::Left,
        font: Font::Arial,
        font_size: 128,
        font_color: Rgb { red: 1000, green: 1000, blue: 1000 },
        background_color: Rgb { red: 0, green: 0, blue: 0 },
        mirrored: false,
        reversed: false,
    }
}

impl Clone for TeleprompterConfig {
    fn clone(&self) -> (c: Self)
        ensures
            c == *self,
    {
        TeleprompterConfig {
            playing: self.playing,
            text: self.text.clone(),
            speed: self.speed,
            progress: self.progress,
            align: self.align,
            font: self.font,
            font_size: self.font_size,
            font_color: self.font_color,
            background_color: self.background_color,
            mirrored: self.mirrored,
            reversed: self.reversed,
        }
    }
}

impl PartialEq for TeleprompterConfig {
    /// Full structural equality: every field compared.
    fn eq(&self, other: &Self) -> (r: bool) {
        let r = self.playing == other.playing && self.text == other.text
            && self.speed == other.speed && self.progress == other.progress
            && self.align == other.align && self.font == other.font
            && self.font_size == other.font_size && self.font_color == other.font_color
            && self.background_color == other.background_color
            && self.mirrored == other.mirrored && self.reversed == other.reversed;
        proof {
            if r {
                assert(self@ =~= other@);
            }
        }
        r
    }
}

impl vstd::std_specs::cmp::PartialEqSpecImpl for TeleprompterConfig {
    open spec fn obeys_eq_spec() -> bool {
        true
    }

    open spec fn eq_spec(&self, other: &Self) -> bool {
        self@ == other@
    }
}

impl Default for TeleprompterConfig {
    /// The documented start-of-process configuration.
    fn default() -> (d: Self)
        ensures
            d@ == default_config(),
    {
        let d = TeleprompterConfig {
            playing: false,
            text: "Lorem ipsum dolor sit amet, consectetur adipiscing elit, sed do eiusmod tempor incididunt ut labore et dolore magna aliqua. Ut enim ad minim veniam, quis nostrud exercitation ullamco laboris nisi ut aliquip ex ea commodo consequat. Duis aute irure dolor in reprehenderit in voluptate velit esse cillum dolore eu fugiat nulla pariatur. Excepteur sint occaecat cupidatat non proident, sunt in culpa qui officia deserunt mollit anim id est laborum.".to_owned(),
            speed: 1000,
            progress: 0,
            align: Align::Left,
            font: Font::Arial,
            font_size: 128,
            font_color: Rgb { red: 1000, green: 1000, blue: 1000 },
            background_color: Rgb { red: 0, green: 0, blue: 0 },
            mirrored: false,
            reversed: false,
        };
        proof {
            assert(d@ =~= default_config());
        }
        d
    }
}

impl TeleprompterConfig {
    /// Holds iff the two configurations differ in `progress` and nowhere
    /// else; see [`only_progress_differs`].
    /// The configuration after one auto-advance tick; see
    /// [`spec_advance`].
    pub fn advance(&self) -> (c: Self)
        ensures
            c@ == spec_advance(self@),
    {
        let mut c = self.clone();
        if self.playing {
            let step = self.speed / 100;
            if self.progress >= MAX_PROGRESS || step >= MAX_PROGRESS - self.progress {
                c.progress = MAX_PROGRESS;
                c.playing = false;
            } else {
                c.progress = self.progress + step;
            }
        }
        proof {
            assert(c@ =~= spec_advance(self@));
        }
        c
    }

    pub fn only_progress_changed(&self, other: &TeleprompterConfig) -> (r: bool)
        ensures
            r == only_progress_differs(self@, other@),
    {
        self.playing == other.playing && self.text == other.text
            && self.speed == other.speed && self.progress != other.progress
            && self.font == other.font && self.font_size == other.font_size
            && self.font_color == other.font_color
            && self.background_color == other.background_color
            && self.align == other.align && self.mirrored == other.mirrored
            && self.reversed == other.reversed
    }
}

} // verus!
