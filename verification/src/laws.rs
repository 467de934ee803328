//! Properties of the library that span its functions.

use vstd::prelude::*;
use crate::bag::{self, Bag};
use crate::battle::Battle;
use crate::data::{self, ItemAttr};
use crate::game::{self, Game, Hint, Player, TileMap};
use crate::style::Color;
use crate::shop;
use crate::text;

verus! {

/// The number a string of decimal digits reads as.
pub open spec fn dec_value(s: Seq<char>) -> int
    decreases s.len(),
{
    if s.len() == 0 {
        0
    } else {
        10 * dec_value(s.drop_last()) + (s.last() as int - 48)
    }
}

/// Writing a number in decimal and reading it back gives the number.
pub proof fn lemma_dec_reads_back(n: nat)
    ensures
        dec_value(text::dec(n)) == n,
    decreases n,
{
    let d = (n % 10) as int;
    assert(text::digit(d) as int == 48 + d);
    if n >= 10 {
        lemma_dec_reads_back(n / 10);
        assert(text::dec(n).drop_last() =~= text::dec(n / 10));
        assert(text::dec(n).last() == text::digit(d));
        assert(dec_value(text::dec(n)) == 10 * dec_value(text::dec(n / 10)) + d);
    } else {
        assert(text::dec(n).drop_last() =~= Seq::<char>::empty());
        assert(text::dec(n).last() == text::digit(d));
        assert(dec_value(Seq::<char>::empty()) == 0);
        assert(dec_value(text::dec(n)) == 10 * dec_value(Seq::<char>::empty()) + d);
    }
}

/// Money shown with two decimals is the true amount rounded to the nearest
/// hundredth: it is off by at most half a hundredth.
pub proof fn lemma_hundredths_nearest(n: int, d: int)
    requires
        0 <= n,
        0 < d,
    ensures
        -d <= 2 * (text::hundredths(n, d) * d - 100 * n) <= d,
{
    let q = (n * 100) / d;
    let r = (n * 100) % d;
    assert(n * 100 == q * d + r && 0 <= r < d) by (nonlinear_arith)
        requires
            q == (n * 100) / d,
            r == (n * 100) % d,
            d > 0,
    ;
    assert((q + 1) * d == q * d + d) by (nonlinear_arith);
}

/// A purchase trades the ware's price for its hp: when the player can afford
/// it, money falls by exactly the price and hp rises by exactly the heal;
/// otherwise nothing changes.  Money that was not negative stays so.
pub proof fn lemma_purchase_exact(p: Player, i: int)
    requires
        1 <= i <= 2,
        p.money >= shop::ware_price(i) ==> p.hp + shop::ware_heal(i) <= i32::MAX,
    ensures
        p.money >= shop::ware_price(i) ==> shop::bought(p, i).0 + shop::ware_price(i) == p.money && shop::bought(p, i).1 == p.hp
            + shop::ware_heal(i),
        p.money < shop::ware_price(i) ==> shop::bought(p, i) == (p.money, p.hp),
        p.money >= 0 ==> shop::bought(p, i).0 >= 0,
{
}

/// Every blow takes from the side that is hit its opponent's attack, give or
/// take one point, and leaves the other side's hp alone; the two sides take
/// turns.
pub proof fn lemma_blow_bounds(before: Battle, noise: i32, after: Battle)
    requires
        before.safe(),
        -1 <= noise <= 1,
        Battle::struck(before, noise, after),
    ensures
        before.priority ==> before.player.atk - 1 <= before.enemy.hp - after.enemy.hp <= before.player.atk + 1
            && after.player.hp == before.player.hp,
        !before.priority ==> before.enemy.atk - 1 <= before.player.hp - after.player.hp <= before.enemy.atk + 1
            && after.enemy.hp == before.enemy.hp,
{
}

/// Treasure is dug up once: digging twice in a row on the same cell finds
/// nothing the second time, and the money stays.
pub proof fn lemma_treasure_once(a: Game, b: Game, c: Game)
    requires
        a.wf(),
        Game::explored(a, b),
        b.player.position == a.player.position,
        b.map.width() == a.map.width(),
        b.map.height() == a.map.height(),
        b.map.wf(),
        Game::explored(b, c),
    ensures
        c.player.money == b.player.money,
        c.hint == Hint::Empty,
        c.map.acts() == b.map.acts(),
{
    let (y, x) = a.here();
    assert(b.map.action(y, x) == b.map.acts()[y][x]);
    assert(a.map.action(y, x) == a.map.acts()[y][x]);
}

/// Laying terrain with a smaller mask paints no cell that a larger mask
/// leaves alone: every cell ends as `id` or as it was, and a cell that holds
/// `id` after the smaller mask holds it after the larger one too.
pub proof fn lemma_terrain_monotone(
    m: TileMap,
    id: i8,
    small: Seq<Seq<bool>>,
    large: Seq<Seq<bool>>,
    r_small: TileMap,
    r_large: TileMap,
)
    requires
        TileMap::laid(m, id, small, r_small),
        TileMap::laid(m, id, large, r_large),
        forall|r: int, c: int| m.in_bounds(r, c) && #[trigger] small[r][c] ==> large[r][c],
    ensures
        forall|r: int, c: int|
            m.in_bounds(r, c) ==> (#[trigger] r_small.tile(r, c) == id || r_small.tile(r, c) == m.tile(r, c)),
        forall|r: int, c: int|
            m.in_bounds(r, c) && #[trigger] r_small.tile(r, c) == id ==> r_large.tile(r, c) == id,
{
    assert forall|r: int, c: int| m.in_bounds(r, c) && #[trigger] r_small.tile(r, c) == id implies r_large.tile(
        r,
        c,
    ) == id by {
        if small[r][c] {
            assert(large[r][c]);
        }
        assert(r_large.tile(r, c) == (if large[r][c] { id } else { m.tile(r, c) }));
    }
}

/// Terrain layers stack: when one layer is laid and then another, every cell
/// that the second mask marks holds the second tile whatever the first layer
/// or the map held there, a cell that only the first mask marks holds the
/// first tile, and an unmarked cell keeps its tile.
pub proof fn lemma_later_layer_covers(
    m: TileMap,
    a: i8,
    mask_a: Seq<Seq<bool>>,
    b: i8,
    mask_b: Seq<Seq<bool>>,
    m1: TileMap,
    m2: TileMap,
)
    requires
        TileMap::laid(m, a, mask_a, m1),
        TileMap::laid(m1, b, mask_b, m2),
    ensures
        forall|r: int, c: int| m.in_bounds(r, c) && mask_b[r][c] ==> #[trigger] m2.tile(r, c) == b,
        forall|r: int, c: int|
            m.in_bounds(r, c) && !mask_b[r][c] && mask_a[r][c] ==> #[trigger] m2.tile(r, c) == a,
        forall|r: int, c: int|
            m.in_bounds(r, c) && !mask_b[r][c] && !mask_a[r][c] ==> #[trigger] m2.tile(r, c) == m.tile(r, c),
{
    assert forall|r: int, c: int| m.in_bounds(r, c) implies #[trigger] m2.tile(r, c) == (if mask_b[r][c] {
        b
    } else if mask_a[r][c] {
        a
    } else {
        m.tile(r, c)
    }) by {
        assert(m1.in_bounds(r, c));
        assert(m1.tile(r, c) == (if mask_a[r][c] { a } else { m.tile(r, c) }));
    }
}

/// An item is usable exactly when one of its attributes is a rarity: a list
/// of attributes without one is never usable, whatever else it holds, and one
/// with a rarity always is.
pub proof fn lemma_usable_means_rarity(attrs: Seq<ItemAttr>)
    ensures
        (forall|i: int| 0 <= i < attrs.len() ==> !(#[trigger] attrs[i] is Rarity)) ==> !bag::usable(attrs),
        forall|i: int| 0 <= i < attrs.len() && #[trigger] attrs[i] is Rarity ==> bag::usable(attrs),
{
}

/// Of the item table, the cores, the hoe and the weapons (ids 0 to 6) are
/// usable; the seeds (id 7) and the empty slot are not.
pub proof fn lemma_usable_items(id: int)
    requires
        0 <= id < data::ITEM_LEN,
    ensures
        bag::usable(data::item_attrs(id)) <==> id <= 6,
{
    let attrs = data::item_attrs(id);
    if id <= 6 {
        if id <= 2 || id >= 4 {
            assert(attrs[0] is Rarity);
        } else {
            assert(attrs[1] is Rarity);
        }
    } else {
        assert forall|i: int| 0 <= i < attrs.len() implies !(#[trigger] attrs[i] is Rarity) by {}
    }
}

/// Drawing the bag while an item without a rarity is highlighted leaves a bag
/// that was not usable, and had recorded no rarity, unusable: such an item
/// (the seeds, say) never makes Enter take anything in hand.
pub proof fn lemma_no_rarity_stays_unusable(before: Bag, after: Bag)
    requires
        Bag::drawn(before, after),
        !before.selectable,
        forall|i: int| 0 <= i < before.selected_attr@.len() ==> !(#[trigger] before.selected_attr@[i] is Rarity),
        before.highlighted matches Some(h) && forall|i: int|
            0 <= i < data::item_attrs(h as int).len() ==> !(#[trigger] data::item_attrs(h as int)[i] is Rarity),
    ensures
        !after.selectable,
{
}

/// The second map's spawns climb in level: the last one (level 18) is always
/// there, and each of the levels 6, 9, 12, 15 and 18 has an enemy on the map
/// unless a later spawn landed on its cell; when the five cells differ, every
/// one of those levels is there.
pub proof fn lemma_deep_levels(before: TileMap, after: TileMap, cells: Seq<(int, int)>)
    requires
        game::deep_spawns(before, after, cells),
    ensures
        exists|r: int, c: int| before.in_bounds(r, c) && #[trigger] game::normal_of(after.enemy(r, c), 18),
        forall|k: int|
            0 <= k < 5 && (forall|j: int| k < j < 5 ==> cells[j] != #[trigger] cells[k]) ==> exists|r: int, c: int|
                before.in_bounds(r, c) && #[trigger] game::normal_of(after.enemy(r, c), (3 * k + 6) as u8),
        (forall|i: int, j: int| 0 <= i < j < 5 ==> #[trigger] cells[i] != #[trigger] cells[j]) ==> forall|k: int|
            0 <= k < 5 ==> game::normal_of(after.enemy((#[trigger] cells[k]).0, cells[k].1), (3 * k + 6) as u8),
{
    assert forall|k: int|
        0 <= k < 5 && (forall|j: int| k < j < 5 ==> cells[j] != #[trigger] cells[k]) implies exists|r: int, c: int|
        before.in_bounds(r, c) && #[trigger] game::normal_of(after.enemy(r, c), (3 * k + 6) as u8) by {
        let (r, c) = cells[k];
        assert(before.in_bounds(r, c));
    }
    assert(forall|j: int| 4 < j < 5 ==> #[trigger] cells[j] != cells[4]);
    assert((3 * 4 + 6) as u8 == 18u8);
    let (r, c) = cells[4];
    assert(before.in_bounds(r, c) && game::normal_of(after.enemy(r, c), 18));
    if forall|i: int, j: int| 0 <= i < j < 5 ==> #[trigger] cells[i] != #[trigger] cells[j] {
        assert forall|k: int| 0 <= k < 5 implies game::normal_of(
            after.enemy((#[trigger] cells[k]).0, cells[k].1),
            (3 * k + 6) as u8,
        ) by {
            assert(forall|j: int| k < j < 5 ==> cells[j] != #[trigger] cells[k]);
        }
    }
}

/// The player's mark is drawn on the player's own cell and nowhere else: a
/// cell of the view shows "您" exactly when it is the cell `pos = (y, x)` the
/// player stands on, on the map and free of enemies, and there it is black
/// on white.
pub proof fn lemma_player_mark(m: TileMap, pos: (u8, u8), y: int, x: int)
    ensures
        (m.look_at(pos, y, x).0 == "您"@) == (m.in_bounds(y, x) && !m.enemy(y, x).exist && y == pos.0 && x
            == pos.1),
        m.in_bounds(y, x) && !m.enemy(y, x).exist && y == pos.0 && x == pos.1 ==> m.look_at(pos, y, x) == (
            "您"@,
            Some(Color::Black),
            Some(Color::White),
        ),
{
    reveal_strlit("您");
    reveal_strlit("　");
    reveal_strlit("敌");
    reveal_strlit("门");
    reveal_strlit("店");
    reveal_strlit("土");
    reveal_strlit("草");
    reveal_strlit("石");
    reveal_strlit("水");
    reveal_strlit("沙");
    reveal_strlit("耕");
    let t = m.look_at(pos, y, x).0;
    if !(m.in_bounds(y, x) && !m.enemy(y, x).exist && y == pos.0 && x == pos.1) {
        assert(t.len() == 1);
        assert(t[0] != "您"@[0]);
    }
}

/// Reading a cell of a grid gives back what was last written there, and
/// writing a cell leaves every other cell as it was.
pub proof fn lemma_grid_read_write<T>(g: Seq<Seq<T>>, y: int, x: int, v: T, r: int, c: int)
    requires
        0 <= y < g.len(),
        0 <= x < g[y].len(),
        0 <= r < g.len(),
        0 <= c < g[r].len(),
    ensures
        game::grid_set(g, y, x, v)[y][x] == v,
        !(r == y && c == x) ==> game::grid_set(g, y, x, v)[r][c] == g[r][c],
        game::grid_set(g, y, x, v).len() == g.len(),
        game::grid_set(g, y, x, v)[r].len() == g[r].len(),
{
}

} // verus!
