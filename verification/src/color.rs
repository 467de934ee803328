//! The bold variant of the title.

use vstd::prelude::*;
use crate::data;
use crate::style::{Color, Styled};

verus! {

/// `text` in the colour `(r, g, b)`, bold when the fourth component says so.
fn c(text: &str, rgb: (u8, u8, u8, bool)) -> (out: Styled)
    ensures
        out.text@ == text@,
        out.fg == Some(Color::Rgb(rgb.0, rgb.1, rgb.2)),
        out.bg is None,
        out.bold == rgb.3,
{
    let (r, g, b, bold) = rgb;
    let mut out = Styled::fg(text, Color::Rgb(r, g, b));
    if bold {
        out.bold = true;
    }
    out
}

/// The title "Orxnre" in bold, one colour per letter.
pub fn title() -> (t: Vec<Styled>)
    ensures
        t@.len() == 6,
        forall|i: int|
            0 <= i < 6 ==> {
                &&& (#[trigger] t@[i]).text@ == data::title_letters()[i].0
                &&& t@[i].fg == Some(
                    Color::Rgb(data::title_letters()[i].1.0, data::title_letters()[i].1.1, data::title_letters()[i].1.2),
                )
                &&& t@[i].bg is None
                &&& t@[i].bold
            },
{
    let tc1: (u8, u8, u8, bool) = (218, 187, 244, true);
    let tc2: (u8, u8, u8, bool) = (213, 187, 246, true);
    let tc3: (u8, u8, u8, bool) = (198, 184, 248, true);
    let tc4: (u8, u8, u8, bool) = (187, 180, 250, true);
    let tc5: (u8, u8, u8, bool) = (168, 174, 252, true);
    let tc6: (u8, u8, u8, bool) = (150, 160, 254, true);
    let mut t: Vec<Styled> = Vec::new();
    t.push(c("O", tc1));
    t.push(c("r", tc2));
    t.push(c("x", tc3));
    t.push(c("n", tc4));
    t.push(c("r", tc5));
    t.push(c("e", tc6));
    t
}

} // verus!
