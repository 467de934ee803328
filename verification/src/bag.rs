//! The bag: the list of the items the player carries, a highlight moved with
//! the arrows, and Enter to take the highlighted item in hand.

use vstd::prelude::*;
use std::collections::BTreeMap;
use crate::data::{self, item, same_attr, ItemAttr, ITEM_LEN};
use crate::game::Player;
use crate::style::{Color, Styled};
use crate::text::{self, push_int};

verus! {

broadcast use {vstd::laws_cmp::group_laws_cmp, vstd::std_specs::btree::group_btree_axioms};

/// `items` lists the entries of `m` by increasing item id.
pub open spec fn lists(items: Seq<(u8, i32)>, m: Map<u8, i32>) -> bool {
    &&& forall|i: int, j: int| 0 <= i < j < items.len() ==> #[trigger] items[i].0 < #[trigger] items[j].0
    &&& forall|i: int|
        0 <= i < items.len() ==> m.contains_key(#[trigger] items[i].0) && m[items[i].0] == items[i].1
    &&& forall|k: u8| #[trigger] m.contains_key(k) ==> exists|i: int| 0 <= i < items.len() && #[trigger] items[i].0 == k
}

/// The entries of the bag by increasing item id.
pub fn bag_items(bag: &BTreeMap<u8, i32>) -> (items: Vec<(u8, i32)>)
    ensures
        lists(items@, bag@),
{
    let mut items: Vec<(u8, i32)> = Vec::new();
    let mut k: u16 = 0;
    while k < 256
        invariant
            k <= 256,
            forall|i: int, j: int| 0 <= i < j < items@.len() ==> #[trigger] items@[i].0 < #[trigger] items@[j].0,
            forall|i: int| 0 <= i < items@.len() ==> #[trigger] items@[i].0 < k,
            forall|i: int|
                0 <= i < items@.len() ==> bag@.contains_key(#[trigger] items@[i].0) && bag@[items@[i].0]
                    == items@[i].1,
            forall|key: u8|
                #[trigger] bag@.contains_key(key) && key < k ==> exists|i: int|
                    0 <= i < items@.len() && #[trigger] items@[i].0 == key,
        decreases 256 - k,
    {
        let key = k as u8;
        let ghost before = items@;
        match bag.get(&key) {
            Some(v) => {
                items.push((key, *v));
                assert(items@[items@.len() - 1].0 == key);
            },
            None => {},
        }
        assert forall|kk: u8| #[trigger] bag@.contains_key(kk) && kk < k + 1 implies exists|i: int|
            0 <= i < items@.len() && #[trigger] items@[i].0 == kk by {
            if kk < k {
                let i = choose|i: int| 0 <= i < before.len() && #[trigger] before[i].0 == kk;
                assert(items@[i] == before[i]);
            } else {
                assert(items@[items@.len() - 1].0 == kk);
            }
        }
        k = k + 1;
    }
    items
}

/// The item passes the bag's filter: no filter, or the item has that attribute.
pub open spec fn passes(filter: ItemAttr, id: u8) -> bool {
    filter is Nothing || data::item_attrs(id as int).contains(filter)
}

/// The entries the bag shows under its filter, in order.
pub open spec fn shown(items: Seq<(u8, i32)>, filter: ItemAttr) -> Seq<(u8, i32)> {
    items.filter(|it: (u8, i32)| passes(filter, it.0))
}

/// The colour of an item: the last colour among its attributes, or grey.
pub open spec fn item_rgb(attrs: Seq<ItemAttr>) -> (u8, u8, u8)
    decreases attrs.len(),
{
    if attrs.len() == 0 {
        (167u8, 167u8, 167u8)
    } else {
        match attrs.last() {
            ItemAttr::Color(rgb) => rgb,
            _ => item_rgb(attrs.drop_last()),
        }
    }
}

/// The attributes make an item usable: one of them is a rarity.
pub open spec fn usable(attrs: Seq<ItemAttr>) -> bool {
    exists|i: int| 0 <= i < attrs.len() && #[trigger] attrs[i] is Rarity
}

/// The attributes recorded after drawing: those of the highlighted item when
/// it is shown, otherwise the ones recorded before.
pub open spec fn recorded(before: Seq<ItemAttr>, highlighted: Option<u8>, filter: ItemAttr) -> Seq<ItemAttr> {
    match highlighted {
        Some(h) => if passes(filter, h) {
            data::item_attrs(h as int)
        } else {
            before
        },
        None => before,
    }
}

/// A key as the bag sees it.
#[derive(Clone, Copy, Debug, PartialEq, Eq, Structural)]
pub enum BagKey {
    Up,
    Down,
    Enter,
    Back,
    Other,
}

/// Whether `a` holds the attribute `x`.
fn attrs_contain(a: &Vec<ItemAttr>, x: &ItemAttr) -> (r: bool)
    ensures
        r == a@.contains(*x),
{
    let mut i: usize = 0;
    while i < a.len()
        invariant
            i <= a@.len(),
            forall|j: int| 0 <= j < i ==> a@[j] != *x,
        decreases a@.len() - i,
    {
        if same_attr(&a[i], x) {
            assert(a@[i as int] == *x);
            return true;
        }
        i = i + 1;
    }
    false
}

/// The colour of an item from its attributes.
fn rgb_of(attrs: &Vec<ItemAttr>) -> (rgb: (u8, u8, u8))
    ensures
        rgb == item_rgb(attrs@),
{
    let mut rgb: (u8, u8, u8) = (167, 167, 167);
    let mut j: usize = 0;
    while j < attrs.len()
        invariant
            j <= attrs@.len(),
            rgb == item_rgb(attrs@.take(j as int)),
        decreases attrs@.len() - j,
    {
        assert(attrs@.take(j + 1).drop_last() =~= attrs@.take(j as int));
        if let ItemAttr::Color(c) = &attrs[j] {
            rgb = *c;
        }
        j = j + 1;
    }
    assert(attrs@.take(attrs@.len() as int) =~= attrs@);
    rgb
}

/// Whether the attributes hold a rarity.
fn has_rarity(attrs: &Vec<ItemAttr>) -> (r: bool)
    ensures
        r == usable(attrs@),
{
    let mut j: usize = 0;
    while j < attrs.len()
        invariant
            j <= attrs@.len(),
            forall|i: int| 0 <= i < j ==> !(#[trigger] attrs@[i] is Rarity),
        decreases attrs@.len() - j,
    {
        if let ItemAttr::Rarity(_) = &attrs[j] {
            return true;
        }
        j = j + 1;
    }
    false
}

/// One line of the bag: the item with its amount, and whether it is in hand.
pub struct BagLine {
    pub item: Styled,
    pub hand: Styled,
}

/// What the line for the entry `it` shows.
pub open spec fn line_shows(line: BagLine, it: (u8, i32), highlighted: Option<u8>, hand: u8) -> bool {
    let rgb = item_rgb(data::item_attrs(it.0 as int));
    &&& line.item.text@ == " "@ + data::item_name(it.0 as int) + " x"@ + text::int_text(it.1 as int) + " "@
    &&& !line.item.bold
    &&& highlighted == Some(it.0) ==> line.item.fg == Some(Color::Black) && line.item.bg == Some(
        Color::Rgb(rgb.0, rgb.1, rgb.2),
    )
    &&& highlighted != Some(it.0) ==> line.item.fg == Some(Color::Rgb(rgb.0, rgb.1, rgb.2))
        && line.item.bg == Some(Color::Black)
    &&& line.hand.looks((if hand == it.0 { " [ON]"@ } else { "     "@ }, None, None))
}

/// The bag screen while it is open.  `selected_attr` holds the attributes of
/// the last highlighted item that was shown; once one of them was a rarity,
/// Enter takes the highlighted item in hand.
pub struct Bag {
    pub player: Player,
    pub filter: ItemAttr,
    pub items: Vec<(u8, i32)>,
    pub highlighted: Option<u8>,
    pub selected_attr: Vec<ItemAttr>,
    pub selectable: bool,
}

impl Bag {
    pub open spec fn wf(&self) -> bool {
        &&& lists(self.items@, self.player.bag@)
        &&& forall|i: int| 0 <= i < self.items@.len() ==> (#[trigger] self.items@[i]).0 < ITEM_LEN
        &&& self.highlighted matches Some(h) ==> exists|i: int|
            0 <= i < self.items@.len() && #[trigger] self.items@[i].0 == h
    }

    /// The bag after drawing `before`: the same player, filter, entries and
    /// highlight; the highlighted item's attributes recorded when it is
    /// shown; usable when it was, or when the recorded attributes hold a rarity.
    pub open spec fn drawn(before: Bag, after: Bag) -> bool {
        &&& after.player == before.player
        &&& after.filter == before.filter
        &&& after.items@ == before.items@
        &&& after.highlighted == before.highlighted
        &&& after.selected_attr@ == recorded(before.selected_attr@, before.highlighted, before.filter)
        &&& after.selectable == (before.selectable || usable(after.selected_attr@))
    }

    /// Opens the bag of `player`, showing the items that pass `filter`.
    pub fn open(player: Player, filter: ItemAttr) -> (b: Bag)
        requires
            forall|k: u8| #[trigger] player.bag@.contains_key(k) ==> k < ITEM_LEN,
        ensures
            b.wf(),
            b.player == player,
            b.filter == filter,
            b.highlighted is None,
            b.selected_attr@.len() == 0,
            !b.selectable,
    {
        let items = bag_items(&player.bag);
        proof {
            assert forall|i: int| 0 <= i < items@.len() implies (#[trigger] items@[i]).0 < ITEM_LEN by {
                assert(player.bag@.contains_key(items@[i].0));
            }
        }
        Bag { player, filter, items, highlighted: None, selected_attr: Vec::new(), selectable: false }
    }

    /// Draws the bag: one line for each item that passes the filter.  Drawing
    /// the highlighted item records its attributes, and from then on the bag
    /// stays usable if any recorded attribute is a rarity.
    pub fn refresh(&mut self) -> (lines: Vec<BagLine>)
        requires
            old(self).wf(),
        ensures
            final(self).wf(),
            final(self).player == old(self).player,
            final(self).filter == old(self).filter,
            final(self).items@ == old(self).items@,
            final(self).highlighted == old(self).highlighted,
            lines@.len() == shown(old(self).items@, old(self).filter).len(),
            forall|k: int|
                0 <= k < lines@.len() ==> line_shows(
                    #[trigger] lines@[k],
                    shown(old(self).items@, old(self).filter)[k],
                    old(self).highlighted,
                    old(self).player.hand,
                ),
            final(self).selected_attr@ == recorded(old(self).selected_attr@, old(self).highlighted, old(self).filter),
            final(self).selectable == (old(self).selectable || usable(final(self).selected_attr@)),
            Bag::drawn(*old(self), *final(self)),
    {
        let mut lines: Vec<BagLine> = Vec::new();
        let n = self.items.len();
        let ghost filt = self.filter;
        let ghost pred = |it: (u8, i32)| passes(filt, it.0);
        let mut i: usize = 0;
        while i < n
            invariant
                self.wf(),
                self.player == old(self).player,
                self.filter == old(self).filter,
                self.items@ == old(self).items@,
                self.highlighted == old(self).highlighted,
                self.selectable == old(self).selectable,
                filt == self.filter,
                pred == (|it: (u8, i32)| passes(filt, it.0)),
                n == self.items@.len(),
                i <= n,
                lines@.len() == self.items@.take(i as int).filter(pred).len(),
                forall|k: int|
                    0 <= k < lines@.len() ==> line_shows(
                        #[trigger] lines@[k],
                        self.items@.take(i as int).filter(pred)[k],
                        self.highlighted,
                        self.player.hand,
                    ),
                self.selected_attr@ == match self.highlighted {
                    Some(h) => if passes(filt, h) && exists|j: int| 0 <= j < i && #[trigger] self.items@[j].0 == h {
                        data::item_attrs(h as int)
                    } else {
                        old(self).selected_attr@
                    },
                    None => old(self).selected_attr@,
                },
            decreases n - i,
        {
            proof {
                reveal_with_fuel(Seq::<(u8, i32)>::filter, 1);
                assert(self.items@.take(i + 1).drop_last() =~= self.items@.take(i as int));
            }
            let (id, amount) = self.items[i];
            let (name, attrs) = item(id as usize);
            let show = match self.filter {
                ItemAttr::Nothing => true,
                _ => attrs_contain(&attrs, &self.filter),
            };
            let ghost before = lines@;
            if show {
                let rgb = rgb_of(&attrs);
                let mut t = String::from_str(" ");
                t.append(name.as_str());
                t.append(" x");
                push_int(&mut t, amount as i64);
                t.append(" ");
                let is_high = match self.highlighted {
                    Some(h) => h == id,
                    None => false,
                };
                let styled = if is_high {
                    self.selected_attr = attrs;
                    Styled { text: t, fg: Some(Color::Black), bg: Some(Color::Rgb(rgb.0, rgb.1, rgb.2)), bold: false }
                } else {
                    Styled { text: t, fg: Some(Color::Rgb(rgb.0, rgb.1, rgb.2)), bg: Some(Color::Black), bold: false }
                };
                let mark = if self.player.hand == id {
                    Styled::plain(" [ON]")
                } else {
                    Styled::plain("     ")
                };
                lines.push(BagLine { item: styled, hand: mark });
                assert(line_shows(lines@[lines@.len() - 1], self.items@[i as int], self.highlighted, self.player.hand));
            }
            proof {
                assert forall|k: int| 0 <= k < before.len() implies #[trigger] lines@[k] == before[k] by {}
                if let Some(h) = self.highlighted {
                    if self.items@[i as int].0 != h {
                        assert((exists|j: int| 0 <= j < i + 1 && #[trigger] self.items@[j].0 == h) == (exists|j: int|
                            0 <= j < i && #[trigger] self.items@[j].0 == h));
                    }
                }
            }
            i = i + 1;
        }
        proof {
            assert(self.items@.take(n as int) =~= self.items@);
            if let Some(h) = self.highlighted {
                assert(exists|j: int| 0 <= j < n && #[trigger] self.items@[j].0 == h);
            }
        }
        if has_rarity(&self.selected_attr) {
            self.selectable = true;
        }
        lines
    }

    /// The position in the list of the entry with id `h`.
    pub open spec fn key_index(items: Seq<(u8, i32)>, h: u8) -> int {
        choose|i: int| 0 <= i < items.len() && items[i].0 == h
    }

    /// Where the highlight goes on `key`: up and down move it to the
    /// neighbouring entry when there is one (the first entry when nothing is
    /// highlighted yet); going back clears it.
    pub open spec fn moved(&self, key: BagKey) -> Option<u8> {
        let items = self.items@;
        match key {
            BagKey::Up => match self.highlighted {
                Some(h) => {
                    let i = Bag::key_index(items, h);
                    if i > 0 {
                        Some(items[i - 1].0)
                    } else {
                        Some(h)
                    }
                },
                None => if items.len() > 0 {
                    Some(items[0].0)
                } else {
                    None
                },
            },
            BagKey::Down => match self.highlighted {
                Some(h) => {
                    let i = Bag::key_index(items, h);
                    if i < items.len() - 1 {
                        Some(items[i + 1].0)
                    } else {
                        Some(h)
                    }
                },
                None => if items.len() > 0 {
                    Some(items[0].0)
                } else {
                    None
                },
            },
            BagKey::Back => None,
            _ => self.highlighted,
        }
    }

    /// The position of the entry with id `h`.
    fn index_of(&self, h: u8) -> (i: usize)
        requires
            self.wf(),
            exists|j: int| 0 <= j < self.items@.len() && #[trigger] self.items@[j].0 == h,
        ensures
            i == Bag::key_index(self.items@, h),
            i < self.items@.len(),
    {
        let ghost k = Bag::key_index(self.items@, h);
        let mut i: usize = 0;
        while i < self.items.len()
            invariant
                self.wf(),
                0 <= k < self.items@.len(),
                self.items@[k].0 == h,
                i <= k,
            decreases self.items@.len() - i,
        {
            if self.items[i].0 == h {
                proof {
                    if i < k {
                        assert(self.items@[i as int].0 < self.items@[k].0);
                    }
                }
                return i;
            }
            i = i + 1;
        }
        i
    }

    /// Handles a key and returns whether the bag closes.  Up and down move
    /// the highlight, Enter takes the highlighted item in hand once the bag is
    /// usable, and going back clears the highlight and closes the bag.
    pub fn press(&mut self, key: BagKey) -> (closed: bool)
        requires
            old(self).wf(),
        ensures
            final(self).wf(),
            closed == (key is Back),
            final(self).highlighted == old(self).moved(key),
            final(self).items@ == old(self).items@,
            final(self).filter == old(self).filter,
            final(self).selected_attr@ == old(self).selected_attr@,
            final(self).selectable == old(self).selectable,
            final(self).player == (if key is Enter && old(self).selectable && old(self).highlighted is Some {
                Player { hand: old(self).highlighted->0, ..old(self).player }
            } else {
                old(self).player
            }),
    {
        match key {
            BagKey::Up => {
                match self.highlighted {
                    Some(h) => {
                        let i = self.index_of(h);
                        if i > 0 {
                            self.highlighted = Some(self.items[i - 1].0);
                        }
                    },
                    None => {
                        if self.items.len() > 0 {
                            self.highlighted = Some(self.items[0].0);
                        }
                    },
                }
            },
            BagKey::Down => {
                match self.highlighted {
                    Some(h) => {
                        let i = self.index_of(h);
                        if i < self.items.len() - 1 {
                            self.highlighted = Some(self.items[i + 1].0);
                        }
                    },
                    None => {
                        if self.items.len() > 0 {
                            self.highlighted = Some(self.items[0].0);
                        }
                    },
                }
            },
            BagKey::Enter => {
                if self.selectable {
                    if let Some(h) = self.highlighted {
                        self.player.hand = h;
                    }
                }
            },
            BagKey::Back => {
                self.highlighted = None;
                return true;
            },
            BagKey::Other => {},
        }
        assert(lists(self.items@, self.player.bag@));
        assert(self.wf());
        false
    }

    /// Closes the bag: the player, and the highlighted item id or 0.
    pub fn close(self) -> (r: (Player, u8))
        ensures
            r.0 == self.player,
            r.1 == (match self.highlighted {
                Some(h) => h,
                None => 0,
            }),
    {
        let h = match self.highlighted {
            Some(h) => h,
            None => 0,
        };
        (self.player, h)
    }
}

} // verus!
