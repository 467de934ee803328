//! Vertical and horizontal menus: a highlighted entry moved by the arrow keys
//! and chosen with Enter, and the title menu of the game.

use vstd::prelude::*;

verus! {

/// A key as a menu sees it.
#[derive(Clone, Copy, Debug, PartialEq, Eq, Structural)]
pub enum Nav {
    /// Up (or left in a horizontal menu).
    Prev,
    /// Down (or right in a horizontal menu).
    Next,
    /// Enter.
    Select,
    /// Any other key.
    Other,
}

/// A menu of `len` entries.  `next` is where the highlight is asked to move;
/// a move that would leave the menu is undone.
pub struct Menu {
    pub highlighted: i8,
    pub next: i8,
    pub len: i8,
}

impl Menu {
    /// The highlight is on an entry, and no move is pending.
    pub open spec fn wf(&self) -> bool {
        &&& 0 <= self.highlighted < self.len
        &&& self.next == self.highlighted
    }

    /// Where the highlight ends up after the key `nav`.
    pub open spec fn moved(&self, nav: Nav) -> i8 {
        match nav {
            Nav::Prev => if self.highlighted > 0 {
                (self.highlighted - 1) as i8
            } else {
                self.highlighted
            },
            Nav::Next => if self.highlighted + 1 < self.len {
                (self.highlighted + 1) as i8
            } else {
                self.highlighted
            },
            _ => self.highlighted,
        }
    }

    /// A menu of `len` entries with the first one highlighted.
    pub fn new(len: i8) -> (m: Menu)
        requires
            len > 0,
        ensures
            m.wf(),
            m.len == len,
            m.highlighted == 0,
    {
        Menu { highlighted: 0, next: 0, len }
    }

    /// Handles a key: the arrows move the highlight when there is an entry in
    /// that direction, Enter chooses the highlighted entry.
    pub fn nav(&mut self, nav: Nav) -> (selected: Option<i8>)
        requires
            old(self).wf(),
        ensures
            final(self).wf(),
            final(self).len == old(self).len,
            final(self).highlighted == old(self).moved(nav),
            selected == (if nav is Select {
                Some(old(self).highlighted)
            } else {
                None
            }),
    {
        let mut selected: Option<i8> = None;
        match nav {
            Nav::Prev => self.next = self.next - 1,
            Nav::Next => self.next = self.next + 1,
            Nav::Select => selected = Some(self.highlighted),
            Nav::Other => {
                return None;
            },
        }
        if 0 <= self.next && self.next < self.len {
            self.highlighted = self.next;
        } else {
            self.next = self.highlighted;
        }
        selected
    }
}

/// The entries of the title menu.
pub open spec fn main_label(i: int) -> Seq<char> {
    if i == 0 {
        "开始游戏"@
    } else if i == 1 {
        "  关于  "@
    } else {
        "退出程序"@
    }
}

/// The entry `i` of the title menu: start, about, quit.
pub fn main_menu_label(i: i8) -> (s: &'static str)
    requires
        0 <= i < 3,
    ensures
        s@ == main_label(i as int),
{
    if i == 0 {
        "开始游戏"
    } else if i == 1 {
        "  关于  "
    } else {
        "退出程序"
    }
}

/// What the title menu asks for.
#[derive(Clone, Copy, Debug, PartialEq, Eq, Structural)]
pub enum MainAction {
    Stay,
    Start,
    About,
    Quit,
}

/// The title menu and the debug switch that its about page toggles.
pub struct MainMenu {
    pub menu: Menu,
    pub enable_debug: bool,
}

impl MainMenu {
    pub open spec fn wf(&self) -> bool {
        self.menu.wf() && self.menu.len == 3
    }

    /// The title menu, first entry highlighted, debugging off.
    pub fn new() -> (m: MainMenu)
        ensures
            m.wf(),
            m.menu.highlighted == 0,
            !m.enable_debug,
    {
        MainMenu { menu: Menu::new(3), enable_debug: false }
    }

    /// Handles a key; Enter on an entry asks to start, show the about page or quit.
    pub fn press(&mut self, nav: Nav) -> (a: MainAction)
        requires
            old(self).wf(),
        ensures
            final(self).wf(),
            final(self).enable_debug == old(self).enable_debug,
            final(self).menu.highlighted == old(self).menu.moved(nav),
            a == (if nav is Select {
                if old(self).menu.highlighted == 0 {
                    MainAction::Start
                } else if old(self).menu.highlighted == 1 {
                    MainAction::About
                } else {
                    MainAction::Quit
                }
            } else {
                MainAction::Stay
            }),
    {
        match self.menu.nav(nav) {
            Some(i) => if i == 0 {
                MainAction::Start
            } else if i == 1 {
                MainAction::About
            } else {
                MainAction::Quit
            },
            None => MainAction::Stay,
        }
    }

    /// The key pressed on the about page: D toggles debugging, anything else
    /// leaves it.
    pub fn about_key(&mut self, is_d: bool)
        ensures
            final(self).menu == old(self).menu,
            final(self).enable_debug == (old(self).enable_debug != is_d),
    {
        if is_d {
            self.enable_debug = !self.enable_debug;
        }
    }
}

} // verus!
