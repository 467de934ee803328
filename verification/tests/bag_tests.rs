use orxnre::bag::{bag_items, Bag, BagKey};
use orxnre::data::ItemAttr;
use orxnre::game::Player;
use orxnre::style::Color;

fn stocked() -> Player {
    let mut p = Player::new();
    p.bag.insert(7, 12);
    p.bag.insert(0, 1);
    p.bag.insert(4, 1);
    p
}

#[test]
fn items_in_id_order() {
    let p = stocked();
    assert_eq!(bag_items(&p.bag), vec![(0, 1), (4, 1), (7, 12)]);
    assert!(bag_items(&Player::new().bag).is_empty());
}

#[test]
fn drawing_the_bag() {
    let mut b = Bag::open(stocked(), ItemAttr::Nothing);
    let lines = b.refresh();
    assert_eq!(lines.len(), 3);
    assert_eq!(lines[0].item.text, " 光芒核心 x1 ");
    assert_eq!(lines[0].item.fg, Some(Color::Rgb(227, 203, 171)));
    assert_eq!(lines[0].item.bg, Some(Color::Black));
    assert_eq!(lines[0].hand.text, " [ON]");
    assert_eq!(lines[1].item.text, " Eltaw x1 ");
    assert_eq!(lines[1].item.fg, Some(Color::Rgb(167, 167, 167)));
    assert_eq!(lines[1].hand.text, "     ");
    assert_eq!(lines[2].item.text, " 种子 x12 ");
    assert!(!b.selectable);
}

#[test]
fn filter_hides_items() {
    let mut b = Bag::open(stocked(), ItemAttr::Seed());
    let lines = b.refresh();
    assert_eq!(lines.len(), 1);
    assert_eq!(lines[0].item.text, " 种子 x12 ");
    let mut b = Bag::open(stocked(), ItemAttr::Rarity(1));
    let lines = b.refresh();
    assert_eq!(lines.len(), 1);
    assert_eq!(lines[0].item.text, " Eltaw x1 ");
}

#[test]
fn moving_and_taking_in_hand() {
    let mut b = Bag::open(stocked(), ItemAttr::Nothing);
    b.refresh();
    assert!(!b.press(BagKey::Up));
    assert_eq!(b.highlighted, Some(0));
    assert!(!b.press(BagKey::Up));
    assert_eq!(b.highlighted, Some(0));
    b.press(BagKey::Down);
    assert_eq!(b.highlighted, Some(4));
    // not usable yet: the highlighted item has not been drawn
    b.press(BagKey::Enter);
    assert_eq!(b.player.hand, 0);
    let lines = b.refresh();
    assert_eq!(lines[1].item.fg, Some(Color::Black));
    assert_eq!(lines[1].item.bg, Some(Color::Rgb(167, 167, 167)));
    assert!(b.selectable);
    b.press(BagKey::Enter);
    assert_eq!(b.player.hand, 4);
    b.press(BagKey::Down);
    b.press(BagKey::Down);
    assert_eq!(b.highlighted, Some(7));
    // the bag stays usable once it was
    b.refresh();
    assert!(b.selectable);
    b.press(BagKey::Enter);
    assert_eq!(b.player.hand, 7);
    assert!(!b.press(BagKey::Other));
    assert!(b.press(BagKey::Back));
    assert_eq!(b.highlighted, None);
    let (p, h) = b.close();
    assert_eq!(h, 0);
    assert_eq!(p.hand, 7);
}

#[test]
fn empty_bag_has_nothing_to_highlight() {
    let mut b = Bag::open(Player::new(), ItemAttr::Nothing);
    assert!(b.refresh().is_empty());
    b.press(BagKey::Down);
    assert_eq!(b.highlighted, None);
    b.press(BagKey::Enter);
    assert_eq!(b.close().1, 0);
}
