//! The game's static data: the tiles of the map and the items.

use vstd::prelude::*;
use crate::style::{Color, Styled};
use std::ops::Range;

verus! {

/// The version shown next to the title.
pub const VERSION: &'static str = "v1.0-beta.25";

/// A run of 42 spaces, written after a line to blank out what was there.
pub const S: &'static str = "                                          ";

/// A run of 55 spaces, a blank line.
pub const SS: &'static str = "                                                       ";

/// `text` in the colour `rgb`.
fn c(text: &str, rgb: (u8, u8, u8)) -> (r: Styled)
    ensures
        r.looks((text@, Some(Color::Rgb(rgb.0, rgb.1, rgb.2)), None)),
{
    let (r, g, b) = rgb;
    Styled::fg(text, Color::Rgb(r, g, b))
}

/// The letters of the title and the colour of each.
pub open spec fn title_letters() -> Seq<(Seq<char>, (u8, u8, u8))> {
    seq![
        ("O"@, (218u8, 187u8, 244u8)),
        ("r"@, (213u8, 187u8, 246u8)),
        ("x"@, (198u8, 184u8, 248u8)),
        ("n"@, (187u8, 180u8, 250u8)),
        ("r"@, (168u8, 174u8, 252u8)),
        ("e"@, (150u8, 160u8, 254u8)),
    ]
}

/// The game's title, "Orxnre", one colour per letter fading from lilac to blue.
#[allow(non_snake_case)]
pub fn TITLE() -> (t: Vec<Styled>)
    ensures
        t@.len() == 6,
        forall|i: int|
            0 <= i < 6 ==> (#[trigger] t@[i]).looks(
                (
                    title_letters()[i].0,
                    Some(Color::Rgb(title_letters()[i].1.0, title_letters()[i].1.1, title_letters()[i].1.2)),
                    None,
                ),
            ),
{
    let tc1: (u8, u8, u8) = (218, 187, 244);
    let tc2: (u8, u8, u8) = (213, 187, 246);
    let tc3: (u8, u8, u8) = (198, 184, 248);
    let tc4: (u8, u8, u8) = (187, 180, 250);
    let tc5: (u8, u8, u8) = (168, 174, 252);
    let tc6: (u8, u8, u8) = (150, 160, 254);
    let mut t: Vec<Styled> = Vec::new();
    t.push(c("O", tc1));
    t.push(c("r", tc2));
    t.push(c("x", tc3));
    t.push(c("n", tc4));
    t.push(c("r", tc5));
    t.push(c("e", tc6));
    t
}

/// The glyph and colours of a map tile: `(glyph, foreground, background)`.
/// Tiles outside the known ids are drawn as an unstyled full-width blank.
pub open spec fn block_look(id: i8) -> (Seq<char>, Option<Color>, Option<Color>) {
    match id {
        -2 => ("门"@, Some(Color::Black), Some(Color::Rgb(229, 189, 187))),
        -1 => ("店"@, Some(Color::Black), Some(Color::Rgb(180, 240, 190))),
        0 => ("土"@, Some(Color::Rgb(190, 147, 138)), None),
        1 => ("草"@, Some(Color::Rgb(121, 204, 109)), None),
        2 => ("石"@, Some(Color::Rgb(196, 189, 181)), None),
        3 => ("水"@, Some(Color::Rgb(166, 185, 211)), None),
        4 => ("沙"@, Some(Color::Rgb(239, 231, 142)), None),
        5 => ("耕"@, Some(Color::Rgb(195, 127, 118)), None),
        _ => ("　"@, None, None),
    }
}

/// How the tile with the given id is drawn on the map: a portal (-2), the
/// shop (-1), dirt, grass, stone, water, sand or tilled soil (0 to 5).
pub fn block_name(id: i8) -> (r: Styled)
    ensures
        r.text@ == block_look(id).0,
        r.fg == block_look(id).1,
        r.bg == block_look(id).2,
        !r.bold,
{
    match id {
        -2 => Styled::fg_on("门", Color::Black, Color::Rgb(229, 189, 187)),
        -1 => Styled::fg_on("店", Color::Black, Color::Rgb(180, 240, 190)),
        0 => c("土", (190, 147, 138)),
        1 => c("草", (121, 204, 109)),
        2 => c("石", (196, 189, 181)),
        3 => c("水", (166, 185, 211)),
        4 => c("沙", (239, 231, 142)),
        5 => c("耕", (195, 127, 118)),
        _ => Styled::plain("　"),
    }
}

/// An attribute of an item.  As a bag filter, `Nothing` lets every item through.
#[derive(PartialEq, Debug)]
pub enum ItemAttr {
    Nothing,
    Rarity(i32),
    Color((u8, u8, u8)),
    Attack(Range<i32>),
    Plough(),
    Seed(),
}

impl Clone for ItemAttr {
    fn clone(&self) -> (r: Self)
        ensures
            r == *self,
    {
        match self {
            ItemAttr::Nothing => ItemAttr::Nothing,
            ItemAttr::Rarity(v) => ItemAttr::Rarity(*v),
            ItemAttr::Color(rgb) => ItemAttr::Color((rgb.0, rgb.1, rgb.2)),
            ItemAttr::Attack(r) => ItemAttr::Attack(Range { start: r.start, end: r.end }),
            ItemAttr::Plough() => ItemAttr::Plough(),
            ItemAttr::Seed() => ItemAttr::Seed(),
        }
    }
}

/// The number of entries in the item table.
pub const ITEM_LEN: usize = 9;

/// The name of each item.
pub open spec fn item_name(index: int) -> Seq<char> {
    if index == 0 {
        "光芒核心"@
    } else if index == 1 {
        "消色核心"@
    } else if index == 2 {
        "纷争核心"@
    } else if index == 3 {
        "锄"@
    } else if index == 4 {
        "Eltaw"@
    } else if index == 5 {
        "Sigma"@
    } else if index == 6 {
        "Lumia"@
    } else if index == 7 {
        "种子"@
    } else {
        ""@
    }
}

/// The attributes of each item.
pub open spec fn item_attrs(index: int) -> Seq<ItemAttr> {
    if index == 0 {
        seq![ItemAttr::Rarity(0), ItemAttr::Color((227u8, 203u8, 171u8))]
    } else if index == 1 {
        seq![ItemAttr::Rarity(0), ItemAttr::Color((168u8, 189u8, 187u8))]
    } else if index == 2 {
        seq![ItemAttr::Rarity(0), ItemAttr::Color((159u8, 155u8, 243u8))]
    } else if index == 3 {
        seq![ItemAttr::Plough(), ItemAttr::Rarity(1), ItemAttr::Attack(Range { start: 1i32, end: 3i32 })]
    } else if index == 4 {
        seq![ItemAttr::Rarity(1), ItemAttr::Attack(Range { start: 3i32, end: 9i32 })]
    } else if index == 5 {
        seq![ItemAttr::Rarity(1), ItemAttr::Attack(Range { start: 5i32, end: 7i32 })]
    } else if index == 6 {
        seq![ItemAttr::Rarity(1), ItemAttr::Attack(Range { start: 1i32, end: 15i32 })]
    } else if index == 7 {
        seq![ItemAttr::Seed()]
    } else {
        seq![]
    }
}

/// The item table: the cores, the hoe, three weapons, seeds and an empty slot.
pub fn item(index: usize) -> (r: (String, Vec<ItemAttr>))
    requires
        index < ITEM_LEN,
    ensures
        r.0@ == item_name(index as int),
        r.1@ == item_attrs(index as int),
{
    let mut attrs: Vec<ItemAttr> = Vec::new();
    let name = if index == 0 {
        attrs.push(ItemAttr::Rarity(0));
        attrs.push(ItemAttr::Color((227, 203, 171)));
        String::from_str("光芒核心")
    } else if index == 1 {
        attrs.push(ItemAttr::Rarity(0));
        attrs.push(ItemAttr::Color((168, 189, 187)));
        String::from_str("消色核心")
    } else if index == 2 {
        attrs.push(ItemAttr::Rarity(0));
        attrs.push(ItemAttr::Color((159, 155, 243)));
        String::from_str("纷争核心")
    } else if index == 3 {
        attrs.push(ItemAttr::Plough());
        attrs.push(ItemAttr::Rarity(1));
        attrs.push(ItemAttr::Attack(1..3));
        String::from_str("锄")
    } else if index == 4 {
        attrs.push(ItemAttr::Rarity(1));
        attrs.push(ItemAttr::Attack(3..9));
        String::from_str("Eltaw")
    } else if index == 5 {
        attrs.push(ItemAttr::Rarity(1));
        attrs.push(ItemAttr::Attack(5..7));
        String::from_str("Sigma")
    } else if index == 6 {
        attrs.push(ItemAttr::Rarity(1));
        attrs.push(ItemAttr::Attack(1..15));
        String::from_str("Lumia")
    } else if index == 7 {
        attrs.push(ItemAttr::Seed());
        String::from_str("种子")
    } else {
        String::from_str("")
    };
    assert(attrs@ =~= item_attrs(index as int));
    (name, attrs)
}

/// Whether two attributes are the same (what `==` on `ItemAttr` computes).
pub fn same_attr(a: &ItemAttr, b: &ItemAttr) -> (r: bool)
    ensures
        r == (*a == *b),
{
    match (a, b) {
        (ItemAttr::Nothing, ItemAttr::Nothing) => true,
        (ItemAttr::Rarity(x), ItemAttr::Rarity(y)) => *x == *y,
        (ItemAttr::Color(x), ItemAttr::Color(y)) => x.0 == y.0 && x.1 == y.1 && x.2 == y.2,
        (ItemAttr::Attack(x), ItemAttr::Attack(y)) => x.start == y.start && x.end == y.end,
        (ItemAttr::Plough(), ItemAttr::Plough()) => true,
        (ItemAttr::Seed(), ItemAttr::Seed()) => true,
        _ => false,
    }
}

} // verus!
