//! The shop: a menu of wares bought with money.

use vstd::prelude::*;
use crate::game::Player;
use crate::menu::{Menu, Nav};
use crate::style::{Color, Styled};

verus! {

/// A ware on sale: its label and its price.
#[allow(non_camel_case_types)]
pub struct good {
    pub name: String,
    pub price: i32,
}

impl good {
    pub fn new(name: &str, price: i32) -> (g: Self)
        ensures
            g.name@ == name@,
            g.price == price,
    {
        good { name: String::from_str(name), price }
    }
}

/// The labels of the shop's entries.
pub open spec fn ware_name(i: int) -> Seq<char> {
    if i == 0 {
        "QUIT"@
    } else if i == 1 {
        "HP+15 <- 300KB"@
    } else {
        "HP+150 <- 2MB"@
    }
}

/// The prices of the shop's entries (leaving costs nothing to show).
pub open spec fn ware_price(i: int) -> i32 {
    if i == 0 {
        -1i32
    } else if i == 1 {
        300
    } else {
        2048
    }
}

/// The hp each entry restores.
pub open spec fn ware_heal(i: int) -> i32 {
    if i == 1 {
        15
    } else if i == 2 {
        150
    } else {
        0
    }
}

/// The player after trying to buy entry `i` (1 or 2): when they can afford
/// it they pay its price and gain its hp, otherwise nothing changes.
pub open spec fn bought(p: Player, i: int) -> (i32, i32) {
    if p.money >= ware_price(i) {
        ((p.money - ware_price(i)) as i32, (p.hp + ware_heal(i)) as i32)
    } else {
        (p.money, p.hp)
    }
}

/// The shop's wares: leave, 15 hp for 300 KB, 150 hp for 2 MB.
pub fn wares() -> (w: Vec<good>)
    ensures
        w@.len() == 3,
        forall|i: int| 0 <= i < 3 ==> (#[trigger] w@[i]).name@ == ware_name(i) && w@[i].price == ware_price(i),
{
    let mut w: Vec<good> = Vec::new();
    w.push(good::new("QUIT", -1));
    w.push(good::new("HP+15 <- 300KB", 300));
    w.push(good::new("HP+150 <- 2MB", 2 * 1024));
    w
}

/// The shop while the player is in it.
pub struct Shop {
    pub player: Player,
    pub goods: Vec<good>,
    pub menu: Menu,
}

impl Shop {
    pub open spec fn wf(&self) -> bool {
        &&& self.menu.wf()
        &&& self.menu.len == 3
        &&& self.goods@.len() == 3
        &&& forall|i: int|
            0 <= i < 3 ==> (#[trigger] self.goods@[i]).name@ == ware_name(i) && self.goods@[i].price
                == ware_price(i)
    }

    /// The player enters the shop; the first entry is highlighted.
    pub fn open(player: Player) -> (s: Shop)
        ensures
            s.wf(),
            s.player == player,
            s.menu.highlighted == 0,
    {
        Shop { player, goods: wares(), menu: Menu::new(3) }
    }

    /// Handles a key.  Enter on QUIT leaves (returns true); Enter on a ware
    /// buys it when the player has the money (the health it adds must fit in
    /// an `i32`).  Health may go above the
    /// maximum.
    pub fn press(&mut self, nav: Nav) -> (leave: bool)
        requires
            old(self).wf(),
            nav is Select && old(self).menu.highlighted > 0 && old(self).player.money >= ware_price(
                old(self).menu.highlighted as int,
            ) ==> old(self).player.hp + ware_heal(old(self).menu.highlighted as int) <= i32::MAX,
        ensures
            final(self).wf(),
            final(self).menu.highlighted == old(self).menu.moved(nav),
            leave == (nav is Select && old(self).menu.highlighted == 0),
            final(self).player.position == old(self).player.position,
            final(self).player.max_hp == old(self).player.max_hp,
            final(self).player.atk == old(self).player.atk,
            final(self).player.bag@ == old(self).player.bag@,
            final(self).player.hand == old(self).player.hand,
            (final(self).player.money, final(self).player.hp) == (if nav is Select
                && old(self).menu.highlighted > 0 {
                bought(old(self).player, old(self).menu.highlighted as int)
            } else {
                (old(self).player.money, old(self).player.hp)
            }),
    {
        match self.menu.nav(nav) {
            Some(i) => {
                if i == 0 {
                    return true;
                } else if i == 1 {
                    if self.player.money >= 300 {
                        self.player.money = self.player.money - 300;
                        self.player.hp = self.player.hp + 15;
                    }
                } else {
                    if self.player.money >= 2 * 1024 {
                        self.player.money = self.player.money - 2 * 1024;
                        self.player.hp = self.player.hp + 150;
                    }
                }
                false
            },
            None => false,
        }
    }

    /// Whether the key `nav` may be handled: unless it buys a ware, always;
    /// when it buys one, the health it adds must fit in an `i32`.
    pub fn purchase_fits(&self, nav: Nav) -> (r: bool)
        requires
            self.wf(),
        ensures
            r == (nav is Select && self.menu.highlighted > 0 && self.player.money >= ware_price(
                self.menu.highlighted as int,
            ) ==> self.player.hp + ware_heal(self.menu.highlighted as int) <= i32::MAX),
    {
        match nav {
            Nav::Select => {
                let h = self.menu.highlighted;
                if h == 1 {
                    !(self.player.money >= 300) || self.player.hp <= i32::MAX - 15
                } else if h == 2 {
                    !(self.player.money >= 2048) || self.player.hp <= i32::MAX - 150
                } else {
                    true
                }
            },
            _ => true,
        }
    }

    /// How entry `i` is drawn: the highlighted entry black on white when the
    /// player can afford it and black on red when not, the others plain;
    /// the label is framed by a space on each side.
    pub fn line(&self, i: usize) -> (r: Styled)
        requires
            self.wf(),
            i < 3,
        ensures
            r.text@ == " "@ + ware_name(i as int) + " "@,
            !r.bold,
            i == self.menu.highlighted && self.player.money >= ware_price(i as int) ==> r.fg == Some(
                Color::Black,
            ) && r.bg == Some(Color::White),
            i == self.menu.highlighted && self.player.money < ware_price(i as int) ==> r.fg == Some(
                Color::Black,
            ) && r.bg == Some(Color::Red),
            i != self.menu.highlighted ==> r.fg is None && r.bg is None,
    {
        let g = &self.goods[i];
        let mut t = String::from_str(" ");
        t.append(g.name.as_str());
        t.append(" ");
        if i as i8 == self.menu.highlighted {
            if self.player.money >= g.price {
                Styled { text: t, fg: Some(Color::Black), bg: Some(Color::White), bold: false }
            } else {
                Styled { text: t, fg: Some(Color::Black), bg: Some(Color::Red), bold: false }
            }
        } else {
            Styled { text: t, fg: None, bg: None, bold: false }
        }
    }

    /// The player leaves the shop.
    pub fn close(self) -> (p: Player)
        ensures
            p == self.player,
    {
        self.player
    }
}

} // verus!
