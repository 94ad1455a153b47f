//! Colour palette: a single place to reskin the interface.
use vstd::prelude::*;
use crate::model::Platform;

verus! {

/// A terminal colour.
#[derive(Debug, Clone, Copy, PartialEq, Eq, Structural)]
pub enum Color {
    /// The terminal's own default.
    Reset,
    Rgb(u8, u8, u8),
}

/// The colours of the interface.
#[derive(Debug, Clone, Copy, PartialEq, Eq, Structural)]
pub struct Theme {
    pub bg: Color,
    pub fg: Color,
    pub dim: Color,
    pub accent: Color,
    pub soundcloud: Color,
    pub mixcloud: Color,
    pub selection_bg: Color,
    pub border: Color,
    pub border_active: Color,
    pub playing: Color,
}

/// The default dark theme, readable on a black terminal.
pub open spec fn dark_theme() -> Theme {
    Theme {
        bg: Color::Reset,
        fg: Color::Rgb(0xE6, 0xE6, 0xE6),
        dim: Color::Rgb(0x88, 0x88, 0x88),
        accent: Color::Rgb(0x6C, 0xB6, 0xFF),
        soundcloud: Color::Rgb(0xFF, 0x55, 0x00),
        mixcloud: Color::Rgb(0x52, 0xA8, 0xC8),
        selection_bg: Color::Rgb(0x2A, 0x3A, 0x52),
        border: Color::Rgb(0x44, 0x44, 0x44),
        border_active: Color::Rgb(0x6C, 0xB6, 0xFF),
        playing: Color::Rgb(0x5C, 0xE0, 0x8A),
    }
}

impl Theme {
    /// Default dark theme.
    pub fn dark() -> (t: Theme)
        ensures
            t == dark_theme(),
    {
        Theme {
            bg: Color::Reset,
            fg: Color::Rgb(0xE6, 0xE6, 0xE6),
            dim: Color::Rgb(0x88, 0x88, 0x88),
            accent: Color::Rgb(0x6C, 0xB6, 0xFF),
            soundcloud: Color::Rgb(0xFF, 0x55, 0x00),
            mixcloud: Color::Rgb(0x52, 0xA8, 0xC8),
            selection_bg: Color::Rgb(0x2A, 0x3A, 0x52),
            border: Color::Rgb(0x44, 0x44, 0x44),
            border_active: Color::Rgb(0x6C, 0xB6, 0xFF),
            playing: Color::Rgb(0x5C, 0xE0, 0x8A),
        }
    }

    /// Colour of a platform's badge.
    pub fn platform(&self, p: Platform) -> (c: Color)
        ensures
            c == match p {
                Platform::SoundCloud => self.soundcloud,
                Platform::Mixcloud => self.mixcloud,
            },
    {
        match p {
            Platform::SoundCloud => self.soundcloud,
            Platform::Mixcloud => self.mixcloud,
        }
    }
}

} // verus!
