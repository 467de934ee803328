use orxnre::color::title;
use orxnre::data::{block_name, item, same_attr, ItemAttr, ITEM_LEN, S, SS, TITLE, VERSION};
use orxnre::style::{Color, Styled};

fn look(s: &Styled) -> (&str, Option<Color>, Option<Color>, bool) {
    (s.text.as_str(), s.fg, s.bg, s.bold)
}

#[test]
fn block_name_of_each_tile() {
    assert_eq!(look(&block_name(-2)), ("门", Some(Color::Black), Some(Color::Rgb(229, 189, 187)), false));
    assert_eq!(look(&block_name(-1)), ("店", Some(Color::Black), Some(Color::Rgb(180, 240, 190)), false));
    assert_eq!(look(&block_name(0)), ("土", Some(Color::Rgb(190, 147, 138)), None, false));
    assert_eq!(look(&block_name(1)), ("草", Some(Color::Rgb(121, 204, 109)), None, false));
    assert_eq!(look(&block_name(2)), ("石", Some(Color::Rgb(196, 189, 181)), None, false));
    assert_eq!(look(&block_name(3)), ("水", Some(Color::Rgb(166, 185, 211)), None, false));
    assert_eq!(look(&block_name(4)), ("沙", Some(Color::Rgb(239, 231, 142)), None, false));
    assert_eq!(look(&block_name(5)), ("耕", Some(Color::Rgb(195, 127, 118)), None, false));
}

#[test]
fn block_name_of_unknown_tiles_is_blank() {
    for id in [-128i8, -3, 6, 7, 100, 127] {
        assert_eq!(look(&block_name(id)), ("　", None, None, false));
    }
}

#[test]
fn title_letters_and_colours() {
    let t = TITLE();
    let text: String = t.iter().map(|s| s.text.as_str()).collect();
    assert_eq!(text, "Orxnre");
    assert_eq!(t[0].fg, Some(Color::Rgb(218, 187, 244)));
    assert_eq!(t[5].fg, Some(Color::Rgb(150, 160, 254)));
    assert!(t.iter().all(|s| !s.bold && s.bg.is_none()));
    let b = title();
    let text: String = b.iter().map(|s| s.text.as_str()).collect();
    assert_eq!(text, "Orxnre");
    assert!(b.iter().all(|s| s.bold));
    assert_eq!(b[2].fg, Some(Color::Rgb(198, 184, 248)));
}

#[test]
fn constants() {
    assert_eq!(VERSION, "v1.0-beta.25");
    assert_eq!(S.len(), 42);
    assert!(S.chars().all(|c| c == ' '));
    assert_eq!(SS.len(), 55);
    assert_eq!(ITEM_LEN, 9);
}

#[test]
fn item_table() {
    let (name, attrs) = item(3);
    assert_eq!(name, "锄");
    assert_eq!(attrs, vec![ItemAttr::Plough(), ItemAttr::Rarity(1), ItemAttr::Attack(1..3)]);
    let (name, attrs) = item(0);
    assert_eq!(name, "光芒核心");
    assert_eq!(attrs, vec![ItemAttr::Rarity(0), ItemAttr::Color((227, 203, 171))]);
    let (name, attrs) = item(7);
    assert_eq!(name, "种子");
    assert_eq!(attrs, vec![ItemAttr::Seed()]);
    let (name, attrs) = item(8);
    assert_eq!(name, "");
    assert!(attrs.is_empty());
    assert_eq!(item(6).1, vec![ItemAttr::Rarity(1), ItemAttr::Attack(1..15)]);
}

#[test]
fn same_attr_agrees_with_eq() {
    let all = vec![
        ItemAttr::Nothing,
        ItemAttr::Rarity(0),
        ItemAttr::Rarity(1),
        ItemAttr::Color((1, 2, 3)),
        ItemAttr::Color((1, 2, 4)),
        ItemAttr::Attack(1..3),
        ItemAttr::Attack(1..4),
        ItemAttr::Plough(),
        ItemAttr::Seed(),
    ];
    for a in &all {
        for b in &all {
            assert_eq!(same_attr(a, b), a == b);
        }
        assert_eq!(&a.clone(), a);
    }
}
