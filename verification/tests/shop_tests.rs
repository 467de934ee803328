use orxnre::game::Player;
use orxnre::menu::Nav;
use orxnre::shop::{wares, Shop};
use orxnre::style::Color;

fn rich(money: i32) -> Player {
    let mut p = Player::new();
    p.money = money;
    p
}

#[test]
fn wares_on_sale() {
    let w = wares();
    let names: Vec<&str> = w.iter().map(|g| g.name.as_str()).collect();
    assert_eq!(names, vec!["QUIT", "HP+15 <- 300KB", "HP+150 <- 2MB"]);
    let prices: Vec<i32> = w.iter().map(|g| g.price).collect();
    assert_eq!(prices, vec![-1, 300, 2048]);
}

#[test]
fn buying_small_potion() {
    let mut s = Shop::open(rich(500));
    assert!(!s.press(Nav::Next));
    assert!(!s.press(Nav::Select));
    assert_eq!(s.player.money, 200);
    assert_eq!(s.player.hp, 515);
    // not enough money for another one
    assert!(!s.press(Nav::Select));
    assert_eq!(s.player.money, 200);
    assert_eq!(s.player.hp, 515);
}

#[test]
fn buying_big_potion() {
    let mut s = Shop::open(rich(5000));
    s.press(Nav::Next);
    s.press(Nav::Next);
    s.press(Nav::Select);
    assert_eq!(s.player.money, 5000 - 2048);
    assert_eq!(s.player.hp, 650);
    s.press(Nav::Select);
    assert_eq!(s.player.money, 5000 - 4096);
    assert_eq!(s.player.hp, 800);
    s.press(Nav::Select);
    assert_eq!(s.player.money, 5000 - 4096);
    assert_eq!(s.player.hp, 800);
}

#[test]
fn leaving_the_shop() {
    let mut s = Shop::open(rich(0));
    assert!(s.press(Nav::Select));
    let p = s.close();
    assert_eq!(p.money, 0);
    assert_eq!(p.hp, 500);
}

#[test]
fn shop_lines_show_affordability() {
    let mut s = Shop::open(rich(100));
    let l0 = s.line(0);
    assert_eq!(l0.text, " QUIT ");
    assert_eq!((l0.fg, l0.bg), (Some(Color::Black), Some(Color::White)));
    let l1 = s.line(1);
    assert_eq!(l1.text, " HP+15 <- 300KB ");
    assert_eq!((l1.fg, l1.bg), (None, None));
    s.press(Nav::Next);
    let l1 = s.line(1);
    assert_eq!((l1.fg, l1.bg), (Some(Color::Black), Some(Color::Red)));
    s.player.money = 300;
    let l1 = s.line(1);
    assert_eq!((l1.fg, l1.bg), (Some(Color::Black), Some(Color::White)));
}

#[test]
fn navigation_with_huge_health() {
    let mut p = rich(0);
    p.hp = i32::MAX;
    let mut s = Shop::open(p);
    assert!(!s.press(Nav::Next));
    assert!(!s.press(Nav::Select));
    assert_eq!(s.player.hp, i32::MAX);
}

#[test]
fn purchase_fits_only_guards_purchases() {
    let mut p = rich(1000);
    p.hp = i32::MAX - 10;
    let mut s = Shop::open(p);
    assert!(s.purchase_fits(Nav::Next));
    assert!(s.purchase_fits(Nav::Select));
    s.press(Nav::Next);
    assert!(!s.purchase_fits(Nav::Select));
    s.player.money = 0;
    assert!(s.purchase_fits(Nav::Select));
}
