//! The interface's color themes.
use vstd::prelude::*;
use ratatui::style::Color;
use crate::reducers::Theme as CoreTheme;

verus! {

/// `ratatui::style::Color`, carried through without a look inside.
#[verifier::external_type_specification]
#[verifier::external_body]
pub struct ExColor(ratatui::style::Color);

/// What `Color::from_u32` gives for a `0x00RRGGBB` value.
pub uninterp spec fn rgb_color(u: u32) -> Color;

/// Calls `Color::from_u32`, which reads a `0x00RRGGBB` value as the color
/// `Rgb(RR, GG, BB)`. Verus does not see inside `Color`, so the result is
/// only named.
#[verifier::external_body]
fn color_from_u32(u: u32) -> (c: Color)
    ensures
        c == rgb_color(u),
{
    Color::from_u32(u)
}

/// A color theme of the interface.
#[derive(Debug, Clone, Copy, PartialEq, Eq, Structural)]
pub enum Theme {
    Dark,
    Light,
}

impl Default for Theme {
    fn default() -> (t: Theme)
        ensures
            t == Theme::Light,
    {
        Theme::Light
    }
}

/// The interface theme of the state's theme.
pub open spec fn theme_of(t: CoreTheme) -> Theme {
    match t {
        CoreTheme::Dark => Theme::Dark,
        CoreTheme::Light => Theme::Light,
    }
}

impl From<CoreTheme> for Theme {
    fn from(theme: CoreTheme) -> (r: Theme) {
        match theme {
            CoreTheme::Dark => Theme::Dark,
            CoreTheme::Light => Theme::Light,
        }
    }
}

impl vstd::std_specs::convert::FromSpecImpl<CoreTheme> for Theme {
    open spec fn obeys_from_spec() -> bool {
        true
    }

    open spec fn from_spec(v: CoreTheme) -> Theme {
        theme_of(v)
    }
}

/// The roles a theme gives a color to.
#[derive(Debug, Clone, Copy, PartialEq, Eq, Structural)]
pub enum ColorRole {
    Background,
    Foreground,
    Primary,
    Secondary,
    Warning,
    Info,
    Purple,
    Border,
}

/// How a piece of text looks: its color and background color, each by the
/// role a theme gives a color to (none keeps the terminal's), and whether it
/// is bold.
#[derive(Debug, Clone, Copy, PartialEq, Eq, Structural)]
pub struct TextLook {
    pub fg: Option<ColorRole>,
    pub bg: Option<ColorRole>,
    pub bold: bool,
}

/// The palette of both themes.
pub open spec fn palette(t: Theme, role: ColorRole) -> u32 {
    match (t, role) {
        (Theme::Dark, ColorRole::Background) => 0x0A0A0A,
        (Theme::Light, ColorRole::Background) => 0xFAFAFA,
        (Theme::Dark, ColorRole::Foreground) => 0xFAFAFA,
        (Theme::Light, ColorRole::Foreground) => 0x111827,
        (Theme::Dark, ColorRole::Primary) => 0x10B981,
        (Theme::Light, ColorRole::Primary) => 0x059669,
        (Theme::Dark, ColorRole::Secondary) => 0x6B7280,
        (Theme::Light, ColorRole::Secondary) => 0x6B7280,
        (Theme::Dark, ColorRole::Warning) => 0xF59E0B,
        (Theme::Light, ColorRole::Warning) => 0xD97706,
        (Theme::Dark, ColorRole::Info) => 0x06B6D4,
        (Theme::Light, ColorRole::Info) => 0x0891B2,
        (Theme::Dark, ColorRole::Purple) => 0xA855F7,
        (Theme::Light, ColorRole::Purple) => 0x9333EA,
        (Theme::Dark, ColorRole::Border) => 0x374151,
        (Theme::Light, ColorRole::Border) => 0xE5E7EB,
    }
}

impl Theme {
    /// The `0x00RRGGBB` value of a role.
    pub fn rgb(&self, role: ColorRole) -> (u: u32)
        ensures
            u == palette(*self, role),
    {
        match (self, role) {
            (Theme::Dark, ColorRole::Background) => 0x0A0A0A,
            (Theme::Light, ColorRole::Background) => 0xFAFAFA,
            (Theme::Dark, ColorRole::Foreground) => 0xFAFAFA,
            (Theme::Light, ColorRole::Foreground) => 0x111827,
            (Theme::Dark, ColorRole::Primary) => 0x10B981,
            (Theme::Light, ColorRole::Primary) => 0x059669,
            (Theme::Dark, ColorRole::Secondary) => 0x6B7280,
            (Theme::Light, ColorRole::Secondary) => 0x6B7280,
            (Theme::Dark, ColorRole::Warning) => 0xF59E0B,
            (Theme::Light, ColorRole::Warning) => 0xD97706,
            (Theme::Dark, ColorRole::Info) => 0x06B6D4,
            (Theme::Light, ColorRole::Info) => 0x0891B2,
            (Theme::Dark, ColorRole::Purple) => 0xA855F7,
            (Theme::Light, ColorRole::Purple) => 0x9333EA,
            (Theme::Dark, ColorRole::Border) => 0x374151,
            (Theme::Light, ColorRole::Border) => 0xE5E7EB,
        }
    }

    /// The background color.
    pub fn background(&self) -> (c: Color)
        ensures
            c == rgb_color(palette(*self, ColorRole::Background)),
    {
        color_from_u32(self.rgb(ColorRole::Background))
    }

    /// The text color.
    pub fn foreground(&self) -> (c: Color)
        ensures
            c == rgb_color(palette(*self, ColorRole::Foreground)),
    {
        color_from_u32(self.rgb(ColorRole::Foreground))
    }

    /// The main accent color.
    pub fn primary(&self) -> (c: Color)
        ensures
            c == rgb_color(palette(*self, ColorRole::Primary)),
    {
        color_from_u32(self.rgb(ColorRole::Primary))
    }

    /// The muted color.
    pub fn secondary(&self) -> (c: Color)
        ensures
            c == rgb_color(palette(*self, ColorRole::Secondary)),
    {
        color_from_u32(self.rgb(ColorRole::Secondary))
    }

    /// The warning color.
    pub fn warning(&self) -> (c: Color)
        ensures
            c == rgb_color(palette(*self, ColorRole::Warning)),
    {
        color_from_u32(self.rgb(ColorRole::Warning))
    }

    /// The information color.
    pub fn info(&self) -> (c: Color)
        ensures
            c == rgb_color(palette(*self, ColorRole::Info)),
    {
        color_from_u32(self.rgb(ColorRole::Info))
    }

    /// The purple accent.
    pub fn purple(&self) -> (c: Color)
        ensures
            c == rgb_color(palette(*self, ColorRole::Purple)),
    {
        color_from_u32(self.rgb(ColorRole::Purple))
    }

    /// Text in the theme's text color on its background.
    pub fn base_style(&self) -> (l: TextLook)
        ensures
            l == (TextLook { fg: Some(ColorRole::Foreground), bg: Some(ColorRole::Background), bold: false }),
    {
        TextLook { fg: Some(ColorRole::Foreground), bg: Some(ColorRole::Background), bold: false }
    }

    /// Titles: bold, in the main accent color.
    pub fn title_style(&self) -> (l: TextLook)
        ensures
            l == (TextLook { fg: Some(ColorRole::Primary), bg: None, bold: true }),
    {
        TextLook { fg: Some(ColorRole::Primary), bg: None, bold: true }
    }

    /// The prompt: bold, in the main accent color.
    pub fn prompt_style(&self) -> (l: TextLook)
        ensures
            l == (TextLook { fg: Some(ColorRole::Primary), bg: None, bold: true }),
    {
        TextLook { fg: Some(ColorRole::Primary), bg: None, bold: true }
    }

    /// Comments: in the muted color.
    pub fn comment_style(&self) -> (l: TextLook)
        ensures
            l == (TextLook { fg: Some(ColorRole::Secondary), bg: None, bold: false }),
    {
        TextLook { fg: Some(ColorRole::Secondary), bg: None, bold: false }
    }

    /// The border color.
    pub fn border(&self) -> (c: Color)
        ensures
            c == rgb_color(palette(*self, ColorRole::Border)),
    {
        color_from_u32(self.rgb(ColorRole::Border))
    }
}

} // verus!
