use orxnre::menu::{main_menu_label, MainAction, MainMenu, Menu, Nav};

#[test]
fn menu_moves_within_bounds() {
    let mut m = Menu::new(3);
    assert_eq!(m.nav(Nav::Prev), None);
    assert_eq!(m.highlighted, 0);
    assert_eq!(m.next, 0);
    assert_eq!(m.nav(Nav::Next), None);
    assert_eq!(m.nav(Nav::Next), None);
    assert_eq!(m.highlighted, 2);
    assert_eq!(m.nav(Nav::Next), None);
    assert_eq!(m.highlighted, 2);
    assert_eq!(m.next, 2);
    assert_eq!(m.nav(Nav::Other), None);
    assert_eq!(m.highlighted, 2);
    assert_eq!(m.nav(Nav::Select), Some(2));
    assert_eq!(m.nav(Nav::Prev), None);
    assert_eq!(m.highlighted, 1);
}

#[test]
fn main_menu_actions() {
    let mut mm = MainMenu::new();
    assert_eq!(mm.press(Nav::Select), MainAction::Start);
    assert_eq!(mm.press(Nav::Next), MainAction::Stay);
    assert_eq!(mm.press(Nav::Select), MainAction::About);
    assert_eq!(mm.press(Nav::Next), MainAction::Stay);
    assert_eq!(mm.press(Nav::Next), MainAction::Stay);
    assert_eq!(mm.press(Nav::Select), MainAction::Quit);
    assert_eq!(main_menu_label(0), "开始游戏");
    assert_eq!(main_menu_label(1), "  关于  ");
    assert_eq!(main_menu_label(2), "退出程序");
}

#[test]
fn about_page_toggles_debug() {
    let mut mm = MainMenu::new();
    assert!(!mm.enable_debug);
    mm.about_key(true);
    assert!(mm.enable_debug);
    mm.about_key(false);
    assert!(mm.enable_debug);
    mm.about_key(true);
    assert!(!mm.enable_debug);
}
