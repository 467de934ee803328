//! Styled text: a piece of text with an optional foreground colour, an
//! optional background colour and a bold flag.  This is the plain-value model
//! of a coloured terminal string; turning it into escape codes is left to the
//! program that prints it.

use vstd::prelude::*;

verus! {

/// A terminal colour.
#[derive(Clone, Copy, Debug, PartialEq, Eq, Structural)]
pub enum Color {
    Black,
    White,
    Red,
    Green,
    Yellow,
    BrightGreen,
    Rgb(u8, u8, u8),
}

/// A piece of text together with the way it is painted.
#[derive(Clone, Debug, PartialEq, Eq)]
pub struct Styled {
    pub text: String,
    pub fg: Option<Color>,
    pub bg: Option<Color>,
    pub bold: bool,
}

impl Styled {
    /// This piece shows `text` painted `fg` on `bg`, not bold.
    pub open spec fn looks(&self, look: (Seq<char>, Option<Color>, Option<Color>)) -> bool {
        &&& self.text@ == look.0
        &&& self.fg == look.1
        &&& self.bg == look.2
        &&& !self.bold
    }

    /// Unstyled text.
    pub fn plain(text: &str) -> (r: Styled)
        ensures
            r.text@ == text@,
            r.fg is None,
            r.bg is None,
            !r.bold,
    {
        Styled { text: String::from_str(text), fg: None, bg: None, bold: false }
    }

    /// Text with a foreground colour only.
    pub fn fg(text: &str, color: Color) -> (r: Styled)
        ensures
            r.text@ == text@,
            r.fg == Some(color),
            r.bg is None,
            !r.bold,
    {
        Styled { text: String::from_str(text), fg: Some(color), bg: None, bold: false }
    }

    /// Text painted `fg` on `bg`.
    pub fn fg_on(text: &str, fg: Color, bg: Color) -> (r: Styled)
        ensures
            r.text@ == text@,
            r.fg == Some(fg),
            r.bg == Some(bg),
            !r.bold,
    {
        Styled { text: String::from_str(text), fg: Some(fg), bg: Some(bg), bold: false }
    }
}

} // verus!
