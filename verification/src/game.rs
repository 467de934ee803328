//! The player, the map, and the exploration game played on it.

use vstd::prelude::*;
use std::collections::BTreeMap;
use crate::battle::{self, Enemy, EnemyType};
use crate::data::{self, block_name, S, SS};
use crate::rng::random;
use crate::style::{Color, Styled};
use crate::text::{self, money_string, push_int};

verus! {

/// The player: where they stand, their money (in KB), health, attack, the
/// items they carry (item id to amount) and the item in their hand.
pub struct Player {
    pub position: (u8, u8),
    pub money: i32,
    pub max_hp: i32,
    pub hp: i32,
    pub atk: i32,
    pub bag: BTreeMap<u8, i32>,
    pub hand: u8,
}

impl Player {
    /// A fresh player at the top-left corner with 500 hp and no money.
    pub fn new() -> (p: Self)
        ensures
            p.position == (0u8, 0u8),
            p.money == 0,
            p.max_hp == 500,
            p.hp == 500,
            p.atk == 20,
            p.bag@ == Map::<u8, i32>::empty(),
            p.hand == 0,
    {
        Player {
            position: (0, 0),
            money: 0,
            max_hp: 500,
            hp: 500,
            atk: 20,
            bag: BTreeMap::new(),
            hand: 0,
        }
    }

    /// The player's money as shown on screen (see `money_text`).
    pub fn money_convert(&self) -> (r: String)
        ensures
            r@ == text::money_text(self.money as int),
    {
        money_string(self.money)
    }
}

/// What a cell does when the player interacts with it.
#[derive(Clone, Copy, Debug, PartialEq, Eq, Structural)]
pub enum Act {
    Nothing,
    /// A portal to the map with this index.
    Tp(i8),
    /// Buried treasure worth this much money.
    Gift(i32),
}

/// A rectangular map (`TileMap`): the tile of each cell, what it does, and the enemy on it.
/// All three grids are indexed `[y][x]`.
pub struct TileMap {
    pub id: Vec<Vec<i8>>,
    pub act: Vec<Vec<Act>>,
    pub entity: Vec<Vec<Enemy>>,
}

/// The award of an enemy of the given level: its reward is drawn from the
/// 200 values starting there.
pub open spec fn normal_award(level: u8) -> int {
    750 + 200 * level
}

/// An enemy of the given level with the given reward.
pub open spec fn normal_enemy_spec(level: u8, reward: i32) -> Enemy {
    Enemy {
        exist: true,
        max_hp: (90 + 10 * level) as i32,
        hp: (90 + 10 * level) as i32,
        atk: (12 + 3 * level) as i32,
        reward,
    }
}

/// An enemy of the given level with the given reward.
pub fn normal_enemy(level: u8, reward: i32) -> (e: Enemy)
    ensures
        e == normal_enemy_spec(level, reward),
{
    let l = level as i32;
    let hp = 90 + l * 10;
    let atk = 12 + l * 3;
    Enemy::new(hp, hp, atk, reward)
}

/// The grid `g` with `v` written at row `y`, column `x`.
pub open spec fn grid_set<T>(g: Seq<Seq<T>>, y: int, x: int, v: T) -> Seq<Seq<T>> {
    g.update(y, g[y].update(x, v))
}

/// `e` is an enemy of the given level as `spawn` makes it.
pub open spec fn normal_of(e: Enemy, level: u8) -> bool {
    &&& e == normal_enemy_spec(level, e.reward)
    &&& normal_award(level) <= e.reward < normal_award(level) + 200
}

/// The cell `(y, x)` of `m` is a portal to map `d`, or a treasure of at least
/// 200 and below `max` that was buried over it.
pub open spec fn portal_or_gift(m: TileMap, y: int, x: int, d: i8, max: i32) -> bool {
    m.action(y, x) == Act::Tp(d) || (m.action(y, x) matches Act::Gift(g) && 200 <= g < max)
}

/// `e` is one of the enemies of the second map: levels 6, 9, 12, 15 and 18.
pub open spec fn deep_enemy(e: Enemy) -> bool {
    exists|k: int| 0 <= k < 5 && #[trigger] normal_of(e, (3 * k + 6) as u8)
}

/// `after` is `before` with the five enemies of the second map spawned at
/// `cells`, in order: the enemy at the `k`-th cell is of level 3k + 6 unless a
/// later spawn took the same cell, and no other cell's enemy changed.
pub open spec fn deep_spawns(before: TileMap, after: TileMap, cells: Seq<(int, int)>) -> bool {
    &&& cells.len() == 5
    &&& before.enemies_changed_only_at(after, cells)
    &&& forall|k: int| 0 <= k < 5 ==> before.in_bounds((#[trigger] cells[k]).0, cells[k].1)
    &&& forall|k: int|
        0 <= k < 5 && (forall|j: int| k < j < 5 ==> cells[j] != #[trigger] cells[k]) ==> normal_of(
            after.enemy(cells[k].0, cells[k].1),
            (3 * k + 6) as u8,
        )
}

/// A vector holding `n` copies of `v`.
fn row_of<T: Copy>(n: usize, v: T) -> (r: Vec<T>)
    ensures
        r@ == Seq::new(n as nat, |i: int| v),
{
    let mut r: Vec<T> = Vec::new();
    for i in 0..n
        invariant
            r@ == Seq::new(i as nat, |j: int| v),
    {
        r.push(v);
        assert(r@ =~= Seq::new((i + 1) as nat, |j: int| v));
    }
    r
}

/// A copy of a row.
fn copy_row<T: Copy>(v: &Vec<T>) -> (r: Vec<T>)
    ensures
        r@ == v@,
{
    let mut r: Vec<T> = Vec::new();
    for i in 0..v.len()
        invariant
            r@ == v@.take(i as int),
    {
        r.push(v[i]);
        assert(r@ =~= v@.take(i + 1));
    }
    assert(v@.take(v@.len() as int) =~= v@);
    r
}

impl TileMap {
    /// The tile ids, row by row.
    pub open spec fn tiles(&self) -> Seq<Seq<i8>> {
        self.id@.map_values(|r: Vec<i8>| r@)
    }

    /// The cell actions, row by row.
    pub open spec fn acts(&self) -> Seq<Seq<Act>> {
        self.act@.map_values(|r: Vec<Act>| r@)
    }

    /// The enemies, row by row.
    pub open spec fn enemies(&self) -> Seq<Seq<Enemy>> {
        self.entity@.map_values(|r: Vec<Enemy>| r@)
    }

    /// The number of rows.
    pub open spec fn height(&self) -> nat {
        self.id@.len()
    }

    /// The number of columns (the length of the first row).
    pub open spec fn width(&self) -> nat {
        self.id@[0]@.len()
    }

    /// All three grids have `h` rows of `w` cells.
    pub open spec fn shaped(&self, w: nat, h: nat) -> bool {
        &&& self.id@.len() == h
        &&& self.act@.len() == h
        &&& self.entity@.len() == h
        &&& forall|r: int| 0 <= r < h ==> #[trigger] self.id@[r]@.len() == w
        &&& forall|r: int| 0 <= r < h ==> #[trigger] self.act@[r]@.len() == w
        &&& forall|r: int| 0 <= r < h ==> #[trigger] self.entity@[r]@.len() == w
    }

    /// A well-formed map has at least one row, all three grids have the same
    /// rectangular shape, and both sides fit in an `i32`.
    pub open spec fn wf(&self) -> bool {
        &&& self.height() > 0
        &&& self.shaped(self.width(), self.height())
        &&& self.width() <= i32::MAX
        &&& self.height() <= i32::MAX
    }

    pub open spec fn in_bounds(&self, y: int, x: int) -> bool {
        0 <= y < self.height() && 0 <= x < self.width()
    }

    pub open spec fn tile(&self, y: int, x: int) -> i8 {
        self.tiles()[y][x]
    }

    pub open spec fn action(&self, y: int, x: int) -> Act {
        self.acts()[y][x]
    }

    pub open spec fn enemy(&self, y: int, x: int) -> Enemy {
        self.enemies()[y][x]
    }

    /// A map of `y` rows and `x` columns of dirt (tile 0), with no actions
    /// and no enemies.
    pub fn new(x: usize, y: usize) -> (m: Self)
        ensures
            m.shaped(x as nat, y as nat),
            forall|r: int, c: int|
                0 <= r < y && 0 <= c < x ==> {
                    &&& #[trigger] m.tile(r, c) == 0
                    &&& m.action(r, c) == Act::Nothing
                    &&& m.enemy(r, c) == battle::no_enemy()
                },
    {
        let mut id: Vec<Vec<i8>> = Vec::new();
        let mut act: Vec<Vec<Act>> = Vec::new();
        let mut entity: Vec<Vec<Enemy>> = Vec::new();
        let empty = Enemy::new_empty();
        for r in 0..y
            invariant
                id@.len() == r,
                act@.len() == r,
                entity@.len() == r,
                empty == battle::no_enemy(),
                forall|i: int| 0 <= i < r ==> #[trigger] id@[i]@ == Seq::new(x as nat, |j: int| 0i8),
                forall|i: int|
                    0 <= i < r ==> #[trigger] act@[i]@ == Seq::new(x as nat, |j: int| Act::Nothing),
                forall|i: int| 0 <= i < r ==> #[trigger] entity@[i]@ == Seq::new(x as nat, |j: int| empty),
        {
            id.push(row_of(x, 0i8));
            act.push(row_of(x, Act::Nothing));
            entity.push(row_of(x, empty));
        }
        TileMap { id, act, entity }
    }

    /// The size of the map as `(columns, rows)`.
    pub fn measure(&self) -> (r: (usize, usize))
        requires
            self.id@.len() > 0,
        ensures
            r == (self.width() as usize, self.height() as usize),
    {
        (self.id[0].len(), self.id.len())
    }

    /// The tile grid after writing `v` at `(y, x)`.
    pub open spec fn tiles_with(&self, y: int, x: int, v: i8) -> Seq<Seq<i8>> {
        grid_set(self.tiles(), y, x, v)
    }

    /// The action grid after writing `v` at `(y, x)`.
    pub open spec fn acts_with(&self, y: int, x: int, v: Act) -> Seq<Seq<Act>> {
        grid_set(self.acts(), y, x, v)
    }

    /// The enemy grid after writing `v` at `(y, x)`.
    pub open spec fn enemies_with(&self, y: int, x: int, v: Enemy) -> Seq<Seq<Enemy>> {
        grid_set(self.enemies(), y, x, v)
    }

    /// Writes the tile at `(y, x)`.
    pub fn put_tile(&mut self, y: usize, x: usize, v: i8)
        requires
            old(self).wf(),
            old(self).in_bounds(y as int, x as int),
        ensures
            final(self).wf(),
            final(self).width() == old(self).width(),
            final(self).height() == old(self).height(),
            final(self).tiles() == old(self).tiles_with(y as int, x as int, v),
            final(self).acts() == old(self).acts(),
            final(self).enemies() == old(self).enemies(),
    {
        self.id[y][x] = v;
        assert(self.tiles() =~= old(self).tiles_with(y as int, x as int, v));
    }

    /// Writes the action at `(y, x)`.
    pub fn put_act(&mut self, y: usize, x: usize, v: Act)
        requires
            old(self).wf(),
            old(self).in_bounds(y as int, x as int),
        ensures
            final(self).wf(),
            final(self).width() == old(self).width(),
            final(self).height() == old(self).height(),
            final(self).tiles() == old(self).tiles(),
            final(self).acts() == old(self).acts_with(y as int, x as int, v),
            final(self).enemies() == old(self).enemies(),
    {
        self.act[y][x] = v;
        assert(self.acts() =~= old(self).acts_with(y as int, x as int, v));
    }

    /// Writes the enemy at `(y, x)`.
    pub fn put_enemy(&mut self, y: usize, x: usize, v: Enemy)
        requires
            old(self).wf(),
            old(self).in_bounds(y as int, x as int),
        ensures
            final(self).wf(),
            final(self).width() == old(self).width(),
            final(self).height() == old(self).height(),
            final(self).tiles() == old(self).tiles(),
            final(self).acts() == old(self).acts(),
            final(self).enemies() == old(self).enemies_with(y as int, x as int, v),
    {
        self.entity[y][x] = v;
        assert(self.enemies() =~= old(self).enemies_with(y as int, x as int, v));
    }

    /// Sets the tile at `(y, x)` to `id`; hands the map back for chaining.
    pub fn set(&mut self, id: i8, y: u8, x: u8) -> (m: &mut TileMap)
        requires
            old(self).wf(),
            old(self).in_bounds(y as int, x as int),
        ensures
            m.wf(),
            m.width() == old(self).width(),
            m.height() == old(self).height(),
            m.tiles() == old(self).tiles_with(y as int, x as int, id),
            m.acts() == old(self).acts(),
            m.enemies() == old(self).enemies(),
            *final(self) == *final(m),
    {
        let map = self;
        map.put_tile(y as usize, x as usize, id);
        map
    }

    /// Places an enemy at `(y, x)`: a ready-made one, or one of the given
    /// level with 90 + 10·level hp, 12 + 3·level attack and a random reward
    /// spread over 200 values from 750 + 200·level: at least 750 + 200·level
    /// and below 950 + 200·level.
    pub fn spawn(&mut self, y: u8, x: u8, e: EnemyType) -> (m: &mut TileMap)
        requires
            old(self).wf(),
            old(self).in_bounds(y as int, x as int),
        ensures
            m.wf(),
            m.width() == old(self).width(),
            m.height() == old(self).height(),
            m.tiles() == old(self).tiles(),
            m.acts() == old(self).acts(),
            m.enemies() == old(self).enemies_with(y as int, x as int, m.enemy(y as int, x as int)),
            match e {
                EnemyType::Normal(level) => {
                    &&& m.enemy(y as int, x as int) == normal_enemy_spec(level, m.enemy(y as int, x as int).reward)
                    &&& normal_award(level) <= m.enemy(y as int, x as int).reward < normal_award(level) + 200
                },
                EnemyType::Full(en) => m.enemy(y as int, x as int) == en,
            },
            *final(self) == *final(m),
    {
        let map = self;
        let en = match e {
            EnemyType::Normal(level) => {
                let l = level as i32;
                let award = 750 + l * 200;
                assert(award == normal_award(level));
                let reward = random(award..award + 200);
                normal_enemy(level, reward)
            },
            EnemyType::Full(e) => e,
        };
        map.put_enemy(y as usize, x as usize, en);
        map
    }

    /// Lays the tile `id` on every cell whose entry in `mask` is true; other
    /// cells keep their tile.  (The mask comes from the terrain noise.)
    pub fn lay_terrain(&mut self, id: i8, mask: &Vec<Vec<bool>>)
        requires
            old(self).wf(),
            mask@.len() == old(self).height(),
            forall|r: int| 0 <= r < mask@.len() ==> #[trigger] mask@[r]@.len() == old(self).width(),
        ensures
            TileMap::laid(*old(self), id, mask@.map_values(|row: Vec<bool>| row@), *final(self)),
            forall|r: int, c: int|
                old(self).in_bounds(r, c) && mask@[r]@[c] ==> #[trigger] final(self).tile(r, c) == id,
            forall|r: int, c: int|
                old(self).in_bounds(r, c) && !mask@[r]@[c] ==> #[trigger] final(self).tile(r, c) == old(self).tile(
                    r,
                    c,
                ),
    {
        let (x_len, y_len) = self.measure();
        for y in 0..y_len
            invariant
                self.wf(),
                self.width() == x_len,
                self.height() == y_len,
                x_len == old(self).width(),
                y_len == old(self).height(),
                mask@.len() == y_len,
                forall|r: int| 0 <= r < mask@.len() ==> #[trigger] mask@[r]@.len() == x_len,
                self.acts() == old(self).acts(),
                self.enemies() == old(self).enemies(),
                forall|r: int, c: int|
                    0 <= r < y_len && 0 <= c < x_len ==> #[trigger] self.tile(r, c) == (if r < y && mask@[r]@[c] {
                        id
                    } else {
                        old(self).tile(r, c)
                    }),
        {
            for x in 0..x_len
                invariant
                    self.wf(),
                    self.width() == x_len,
                    self.height() == y_len,
                    0 <= y < y_len,
                    mask@.len() == y_len,
                    forall|r: int| 0 <= r < mask@.len() ==> #[trigger] mask@[r]@.len() == x_len,
                    self.acts() == old(self).acts(),
                    self.enemies() == old(self).enemies(),
                    forall|r: int, c: int|
                        0 <= r < y_len && 0 <= c < x_len ==> #[trigger] self.tile(r, c) == (if (r < y || (r == y && c < x)) && mask@[r]@[c] {
                            id
                        } else {
                            old(self).tile(r, c)
                        }),
            {
                let ghost pre = *self;
                if mask[y][x] {
                    self.put_tile(y, x, id);
                }
                assert forall|r: int, c: int| 0 <= r < y_len && 0 <= c < x_len implies #[trigger] self.tile(r, c)
                    == (if (r < y || (r == y && c < x + 1)) && mask@[r]@[c] {
                    id
                } else {
                    old(self).tile(r, c)
                }) by {
                    assert(pre.tile(r, c) == pre.tiles()[r][c]);
                    if !(r == y && c == x) {
                        assert(self.tile(r, c) == pre.tile(r, c));
                    }
                }
            }
        }
        assert forall|r: int, c: int| old(self).in_bounds(r, c) implies #[trigger] self.tile(r, c) == (if mask@.map_values(
            |row: Vec<bool>| row@,
        )[r][c] {
            id
        } else {
            old(self).tile(r, c)
        }) by {
            assert(mask@.map_values(|row: Vec<bool>| row@)[r] == mask@[r]@);
        }
    }

    /// The map after `lay_terrain(id, mask)` on `before`: a cell holds `id`
    /// where `mask` is set and its old tile elsewhere; nothing else changes.
    pub open spec fn laid(before: TileMap, id: i8, mask: Seq<Seq<bool>>, after: TileMap) -> bool {
        &&& after.wf()
        &&& after.width() == before.width()
        &&& after.height() == before.height()
        &&& after.acts() == before.acts()
        &&& after.enemies() == before.enemies()
        &&& forall|r: int, c: int|
            before.in_bounds(r, c) ==> #[trigger] after.tile(r, c) == (if mask[r][c] {
                id
            } else {
                before.tile(r, c)
            })
    }

    /// Buries `tries` treasures at random cells, each worth a random amount of
    /// at least `min` and below `max`; a later one may cover an earlier one,
    /// so at most `tries` cells change.
    pub fn gift_random(&mut self, max: i32, min: i32, tries: u32) -> (m: &mut TileMap)
        requires
            old(self).wf(),
            tries > 0 ==> min < max,
            tries > 0 ==> old(self).width() > 0,
        ensures
            m.wf(),
            m.width() == old(self).width(),
            m.height() == old(self).height(),
            m.tiles() == old(self).tiles(),
            m.enemies() == old(self).enemies(),
            forall|r: int, c: int|
                #![trigger m.action(r, c)]
                old(self).in_bounds(r, c) ==> m.action(r, c) == old(self).action(r, c) || (
                m.action(r, c) matches Act::Gift(g) && min <= g < max),
            tries > 0 ==> m.has_gift_between(min, max),
            exists|cells: Seq<(int, int)>| cells.len() == tries && #[trigger] old(self).acts_changed_only_at(*m, cells),
            *final(self) == *final(m),
    {
        let (x_len, y_len) = self.measure();
        let ghost start = *self;
        let ghost mut cells: Seq<(int, int)> = Seq::empty();
        let map = self;
        for i in 0..tries
            invariant
                map.wf(),
                map.width() == x_len,
                map.height() == y_len,
                x_len == start.width(),
                y_len == start.height(),
                tries > 0 ==> min < max,
                tries > 0 ==> x_len > 0,
                cells.len() == i,
                start.acts_changed_only_at(*map, cells),
                map.tiles() == start.tiles(),
                map.enemies() == start.enemies(),
                forall|r: int, c: int|
                    #![trigger map.action(r, c)]
                    start.in_bounds(r, c) ==> map.action(r, c) == start.action(r, c) || (
                    map.action(r, c) matches Act::Gift(g) && min <= g < max),
                i > 0 ==> map.has_gift_between(min, max),
        {
            let y = random(0..y_len as i32);
            let x = random(0..x_len as i32);
            let g = random(min..max);
            let ghost pre = *map;
            map.put_act(y as usize, x as usize, Act::Gift(g));
            assert forall|r: int, c: int| #[trigger] start.in_bounds(r, c) implies map.action(r, c) == start.action(r, c) || (
                map.action(r, c) matches Act::Gift(g) && min <= g < max) by {
                assert(pre.action(r, c) == pre.acts()[r][c]);
                if !(r == y && c == x) {
                    assert(map.action(r, c) == pre.action(r, c));
                }
            }
            assert(map.action(y as int, x as int) == Act::Gift(g));
            proof {
                let old_cells = cells;
                cells = cells.push((y as int, x as int));
                assert forall|r: int, c: int|
                    #![trigger map.action(r, c)]
                    start.in_bounds(r, c) && map.action(r, c) != start.action(r, c) implies cells.contains((r, c)) by {
                    if r == y && c == x {
                        assert(cells[old_cells.len() as int] == (r, c));
                    } else {
                        assert(map.action(r, c) == pre.action(r, c));
                        let k = choose|k: int| 0 <= k < old_cells.len() && old_cells[k] == (r, c);
                        assert(cells[k] == (r, c));
                    }
                }
            }
        }
        map
    }

    /// Only the cells listed in `cells` may hold another enemy in `other`
    /// than in this map.
    pub open spec fn enemies_changed_only_at(&self, other: TileMap, cells: Seq<(int, int)>) -> bool {
        forall|r: int, c: int|
            #![trigger other.enemy(r, c)]
            self.in_bounds(r, c) && other.enemy(r, c) != self.enemy(r, c) ==> cells.contains((r, c))
    }

    /// Only the cells listed in `cells` may hold another action in `other`
    /// than in this map.
    pub open spec fn acts_changed_only_at(&self, other: TileMap, cells: Seq<(int, int)>) -> bool {
        forall|r: int, c: int|
            #![trigger other.action(r, c)]
            self.in_bounds(r, c) && other.action(r, c) != self.action(r, c) ==> cells.contains((r, c))
    }

    /// Some cell of the map holds a treasure worth at least `min` and less
    /// than `max`.
    pub open spec fn has_gift_between(&self, min: i32, max: i32) -> bool {
        exists|r: int, c: int|
            #![trigger self.action(r, c)]
            self.in_bounds(r, c) && (self.action(r, c) matches Act::Gift(g) && min <= g < max)
    }

    /// Puts the tile `id` on one random cell and, unless `act` is
    /// `Act::Nothing`, gives that cell the action `act`.
    pub fn set_random(&mut self, id: i8, act: Act) -> (m: &mut TileMap)
        requires
            old(self).wf(),
            old(self).width() > 0,
        ensures
            m.wf(),
            m.width() == old(self).width(),
            m.height() == old(self).height(),
            m.enemies() == old(self).enemies(),
            exists|y: int, x: int|
                #![trigger old(self).tiles_with(y, x, id)]
                old(self).in_bounds(y, x) && m.tiles() == old(self).tiles_with(y, x, id) && m.acts() == (
                if act is Nothing {
                    old(self).acts()
                } else {
                    old(self).acts_with(y, x, act)
                }),
            *final(self) == *final(m),
    {
        let ghost start = *self;
        let map = self;
        let (x_len, y_len) = map.measure();
        let y = random(0..y_len as i32);
        let x = random(0..x_len as i32);
        match act {
            Act::Nothing => {},
            _ => map.put_act(y as usize, x as usize, act),
        }
        map.put_tile(y as usize, x as usize, id);
        assert(map.tiles() == start.tiles_with(y as int, x as int, id));
        map
    }

    /// What the cell `(y, x)` looks like on the screen when the player stands
    /// at `pos`: blank outside the map, an enemy mark where an enemy is, the
    /// player's mark on the player's cell, and the tile otherwise.
    pub open spec fn look_at(&self, pos: (u8, u8), y: int, x: int) -> (Seq<char>, Option<Color>, Option<Color>) {
        if y < 0 || x < 0 || y >= self.height() || x >= self.width() {
            ("　"@, None, None)
        } else if self.enemy(y, x).exist {
            ("敌"@, Some(Color::Black), Some(Color::Rgb(200, 120, 120)))
        } else if y != pos.0 || x != pos.1 {
            data::block_look(self.tile(y, x))
        } else {
            ("您"@, Some(Color::Black), Some(Color::White))
        }
    }

    /// The 15 × 15 window of the map centred on `position`, row by row: each
    /// cell is followed by a plain space, each row by a plain newline, so the
    /// cell in row `i` and column `j` of the window is piece `31·i + 2·j`.
    pub fn print(&self, position: (u8, u8)) -> (out: Vec<Styled>)
        requires
            self.wf(),
        ensures
            out@.len() == 15 * 31,
            forall|i: int, j: int|
                0 <= i < 15 && 0 <= j < 15 ==> {
                    &&& (#[trigger] out@[31 * i + 2 * j]).looks(
                        self.look_at(position, position.0 - 7 + i, position.1 - 7 + j),
                    )
                    &&& out@[31 * i + 2 * j + 1].looks((" "@, None, None))
                },
            forall|i: int| 0 <= i < 15 ==> (#[trigger] out@[31 * i + 30]).looks(("\n"@, None, None)),
            self.in_bounds(position.0 as int, position.1 as int) && !self.enemy(position.0 as int, position.1 as int).exist
                ==> out@[(31 * 7 + 2 * 7) as int].looks(("您"@, Some(Color::Black), Some(Color::White))),
            forall|i: int, j: int|
                0 <= i < 15 && 0 <= j < 15 && !(i == 7 && j == 7) ==> (#[trigger] out@[31 * i + 2 * j]).text@ != "您"@,
    {
        let (x_len, y_len) = self.measure();
        let (x_pos, y_pos) = (position.1 as i32, position.0 as i32);
        let (x_cam, y_cam) = (7i32, 7i32);
        let mut out: Vec<Styled> = Vec::new();
        let mut y = y_pos - y_cam;
        while y < y_pos + y_cam + 1
            invariant
                self.wf(),
                x_len == self.width(),
                y_len == self.height(),
                x_pos == position.1,
                y_pos == position.0,
                y_cam == 7,
                x_cam == 7,
                y_pos - 7 <= y <= y_pos + 8,
                out@.len() == 31 * (y - (y_pos - 7)),
                forall|i: int, j: int|
                    0 <= i < y - (y_pos - 7) && 0 <= j < 15 ==> {
                        &&& (#[trigger] out@[31 * i + 2 * j]).looks(
                            self.look_at(position, position.0 - 7 + i, position.1 - 7 + j),
                        )
                        &&& out@[31 * i + 2 * j + 1].looks((" "@, None, None))
                    },
                forall|i: int| 0 <= i < y - (y_pos - 7) ==> (#[trigger] out@[31 * i + 30]).looks(("\n"@, None, None)),
            decreases y_pos + 8 - y,
        {
            let ghost row = y - (y_pos - 7);
            let mut x = x_pos - x_cam;
            while x < x_pos + x_cam + 1
                invariant
                    self.wf(),
                    x_len == self.width(),
                    y_len == self.height(),
                    x_pos == position.1,
                    y_pos == position.0,
                    y_cam == 7,
                    x_cam == 7,
                    y_pos - 7 <= y < y_pos + 8,
                    row == y - (y_pos - 7),
                    x_pos - 7 <= x <= x_pos + 8,
                    out@.len() == 31 * row + 2 * (x - (x_pos - 7)),
                    forall|i: int, j: int|
                        0 <= i < row && 0 <= j < 15 ==> {
                            &&& (#[trigger] out@[31 * i + 2 * j]).looks(
                                self.look_at(position, position.0 - 7 + i, position.1 - 7 + j),
                            )
                            &&& out@[31 * i + 2 * j + 1].looks((" "@, None, None))
                        },
                    forall|j: int|
                        0 <= j < x - (x_pos - 7) ==> {
                            &&& (#[trigger] out@[31 * row + 2 * j]).looks(
                                self.look_at(position, position.0 - 7 + row, position.1 - 7 + j),
                            )
                            &&& out@[31 * row + 2 * j + 1].looks((" "@, None, None))
                        },
                    forall|i: int| 0 <= i < row ==> (#[trigger] out@[31 * i + 30]).looks(("\n"@, None, None)),
                decreases x_pos + 8 - x,
            {
                let cell = if y < 0 || x < 0 || y >= y_len as i32 || x >= x_len as i32 {
                    Styled::plain("　")
                } else if self.entity[y as usize][x as usize].exist {
                    Styled::fg_on("敌", Color::Black, Color::Rgb(200, 120, 120))
                } else if y != y_pos || x != x_pos {
                    block_name(self.id[y as usize][x as usize])
                } else {
                    Styled::fg_on("您", Color::Black, Color::White)
                };
                let ghost col = x - (x_pos - 7);
                let ghost pre = out@;
                out.push(cell);
                out.push(Styled::plain(" "));
                assert forall|i: int, j: int| 0 <= i < row && 0 <= j < 15 implies #[trigger] out@[31 * i + 2 * j]
                    == pre[31 * i + 2 * j] && out@[31 * i + 2 * j + 1] == pre[31 * i + 2 * j + 1] by {}
                assert forall|j: int| 0 <= j < col implies #[trigger] out@[31 * row + 2 * j]
                    == pre[31 * row + 2 * j] && out@[31 * row + 2 * j + 1] == pre[31 * row + 2 * j + 1] by {}
                assert forall|i: int| 0 <= i < row implies #[trigger] out@[31 * i + 30] == pre[31 * i + 30] by {}
                assert(out@[31 * row + 2 * col].looks(
                    self.look_at(position, position.0 - 7 + row, position.1 - 7 + col),
                ));
                x = x + 1;
            }
            let ghost pre = out@;
            out.push(Styled::plain("\n"));
            assert forall|i: int, j: int| 0 <= i <= row && 0 <= j < 15 implies #[trigger] out@[31 * i + 2 * j]
                == pre[31 * i + 2 * j] && out@[31 * i + 2 * j + 1] == pre[31 * i + 2 * j + 1] by {}
            assert forall|i: int| 0 <= i < row implies #[trigger] out@[31 * i + 30] == pre[31 * i + 30] by {}
            y = y + 1;
        }
        proof {
            crate::laws::lemma_player_mark(*self, position, position.0 as int, position.1 as int);
            assert(out@[(31 * 7 + 2 * 7) as int].looks(self.look_at(position, position.0 as int, position.1 as int)));
            assert forall|i: int, j: int|
                0 <= i < 15 && 0 <= j < 15 && !(i == 7 && j == 7) implies (#[trigger] out@[31 * i + 2 * j]).text@
                != "您"@ by {
                crate::laws::lemma_player_mark(*self, position, position.0 - 7 + i, position.1 - 7 + j);
            }
        }
        out
    }

    /// A copy of the map.
    pub fn duplicate(&self) -> (m: TileMap)
        requires
            self.wf(),
        ensures
            m.wf(),
            m.width() == self.width(),
            m.height() == self.height(),
            m.tiles() == self.tiles(),
            m.acts() == self.acts(),
            m.enemies() == self.enemies(),
    {
        let mut id: Vec<Vec<i8>> = Vec::new();
        let mut act: Vec<Vec<Act>> = Vec::new();
        let mut entity: Vec<Vec<Enemy>> = Vec::new();
        let h = self.id.len();
        for r in 0..h
            invariant
                self.wf(),
                h == self.height(),
                id@.len() == r,
                act@.len() == r,
                entity@.len() == r,
                forall|i: int| 0 <= i < r ==> #[trigger] id@[i]@ == self.id@[i]@,
                forall|i: int| 0 <= i < r ==> #[trigger] act@[i]@ == self.act@[i]@,
                forall|i: int| 0 <= i < r ==> #[trigger] entity@[i]@ == self.entity@[i]@,
        {
            id.push(copy_row(&self.id[r]));
            act.push(copy_row(&self.act[r]));
            entity.push(copy_row(&self.entity[r]));
        }
        let m = TileMap { id, act, entity };
        assert(m.tiles() =~= self.tiles());
        assert(m.acts() =~= self.acts());
        assert(m.enemies() =~= self.enemies());
        m
    }

    /// Whether the cell `(y, x)` holds treasure: its worth, or 0.  Cells
    /// outside the map hold none.
    pub open spec fn gift_at(&self, y: int, x: int) -> i32 {
        if self.in_bounds(y, x) {
            match self.action(y, x) {
                Act::Gift(g) => g,
                _ => 0,
            }
        } else {
            0
        }
    }

    /// The treasure that exploring `target = (y, x)` finds: the treasure
    /// buried there when the cell is on the map, otherwise nothing.
    pub open spec fn found(&self, target: (u8, u8)) -> i32 {
        if target.0 < self.height() && target.1 < self.width() {
            self.gift_at(target.0 as int, target.1 as int)
        } else {
            0
        }
    }

    /// The treasure buried at `target = (y, x)`, or 0.
    pub fn explore(&self, target: (u8, u8)) -> (gift: i32)
        requires
            self.wf(),
        ensures
            gift == self.found(target),
    {
        let (x_len, y_len) = self.measure();
        let (y, x) = target;
        let mut gift: i32 = 0;
        if (y as usize) < y_len && (x as usize) < x_len {
            if let Act::Gift(g) = self.act[y as usize][x as usize] {
                gift = g;
            }
        }
        gift
    }
}

/// Fills the two maps of a new game, whose terrain is already laid: 48
/// enemies of level 1 on the first map and one each of levels 6, 9, 12, 15
/// and 18 on the second (at random cells, a later one may replace an earlier
/// one); the shop and a portal to the second map on the first map, a portal
/// back on the second (the portal may land on the shop, and a treasure may
/// later land on a portal's cell); then 400 treasures of 200 to 299 on the
/// first map and 40 of 200 to 5999 on the second.
pub fn populate(first: &mut TileMap, second: &mut TileMap)
    requires
        old(first).wf(),
        old(second).wf(),
        old(first).width() > 0,
        old(first).width() == old(first).height(),
        old(second).width() == old(first).width(),
        old(second).height() == old(first).height(),
    ensures
        final(first).wf(),
        final(second).wf(),
        final(first).width() == old(first).width(),
        final(first).height() == old(first).height(),
        final(second).width() == old(second).width(),
        final(second).height() == old(second).height(),
        exists|y1: int, x1: int, y2: int, x2: int|
            #![trigger grid_set(grid_set(old(first).tiles(), y1, x1, -1i8), y2, x2, -2i8)]
            old(first).in_bounds(y1, x1) && old(first).in_bounds(y2, x2) && final(first).tiles() == grid_set(
                grid_set(old(first).tiles(), y1, x1, -1i8),
                y2,
                x2,
                -2i8,
            ) && portal_or_gift(*final(first), y2, x2, 1, 300),
        exists|y: int, x: int|
            #![trigger grid_set(old(second).tiles(), y, x, -2i8)]
            old(second).in_bounds(y, x) && final(second).tiles() == grid_set(old(second).tiles(), y, x, -2i8)
                && portal_or_gift(*final(second), y, x, 0, 6000),
        forall|r: int, c: int|
            #![trigger final(first).enemy(r, c)]
            old(first).in_bounds(r, c) ==> final(first).enemy(r, c) == old(first).enemy(r, c) || normal_of(
                final(first).enemy(r, c),
                1,
            ),
        forall|r: int, c: int|
            #![trigger final(second).enemy(r, c)]
            old(second).in_bounds(r, c) ==> final(second).enemy(r, c) == old(second).enemy(r, c) || deep_enemy(
                final(second).enemy(r, c),
            ),
        exists|r: int, c: int|
            #![trigger final(first).enemy(r, c)]
            old(first).in_bounds(r, c) && normal_of(final(first).enemy(r, c), 1),
        exists|r: int, c: int|
            #![trigger final(second).enemy(r, c)]
            old(second).in_bounds(r, c) && normal_of(final(second).enemy(r, c), 18),
        final(first).has_gift_between(200, 300),
        final(second).has_gift_between(200, 6000),
        exists|cells: Seq<(int, int)>|
            cells.len() == 48 && #[trigger] old(first).enemies_changed_only_at(*final(first), cells),
        exists|cells: Seq<(int, int)>|
            cells.len() == 5 && #[trigger] old(second).enemies_changed_only_at(*final(second), cells),
        exists|cells: Seq<(int, int)>| #[trigger] deep_spawns(*old(second), *final(second), cells),
        exists|cells: Seq<(int, int)>|
            cells.len() == 401 && #[trigger] old(first).acts_changed_only_at(*final(first), cells),
        exists|cells: Seq<(int, int)>|
            cells.len() == 41 && #[trigger] old(second).acts_changed_only_at(*final(second), cells),
        forall|r: int, c: int|
            #![trigger final(first).action(r, c)]
            old(first).in_bounds(r, c) ==> final(first).action(r, c) == old(first).action(r, c)
                || final(first).action(r, c) == Act::Tp(1) || (final(first).action(r, c) matches Act::Gift(g) && 200
                <= g < 300),
        forall|r: int, c: int|
            #![trigger final(second).action(r, c)]
            old(second).in_bounds(r, c) ==> final(second).action(r, c) == old(second).action(r, c)
                || final(second).action(r, c) == Act::Tp(0) || (final(second).action(r, c) matches Act::Gift(g) && 200
                <= g < 6000),
{
    let (x_len, _h) = first.measure();
    let side = x_len as i32;
    let ghost f0 = *first;
    let ghost s0 = *second;
    let ghost mut spawned: Seq<(int, int)> = Seq::empty();
    for i in 0..48usize
        invariant
            spawned.len() == i,
            f0.enemies_changed_only_at(*first, spawned),
            i > 0 ==> exists|r: int, c: int|
                #![trigger first.enemy(r, c)]
                f0.in_bounds(r, c) && normal_of(first.enemy(r, c), 1),
            first.wf(),
            first.width() == f0.width(),
            first.height() == f0.height(),
            side == f0.width(),
            f0.width() == f0.height(),
            0 < side,
            first.tiles() == f0.tiles(),
            first.acts() == f0.acts(),
            forall|r: int, c: int|
                #![trigger first.enemy(r, c)]
                f0.in_bounds(r, c) ==> first.enemy(r, c) == f0.enemy(r, c) || normal_of(first.enemy(r, c), 1),
    {
        let y = random(0..side);
        let x = random(0..side);
        let ghost pre = *first;
        first.spawn((y % 256) as u8, (x % 256) as u8, EnemyType::Normal(1));
        proof {
            assert forall|r: int, c: int| #![trigger first.enemy(r, c)] f0.in_bounds(r, c) implies first.enemy(r, c)
                == f0.enemy(r, c) || normal_of(first.enemy(r, c), 1) by {
                assert(pre.enemy(r, c) == pre.enemies()[r][c]);
                if !(r == y % 256 && c == x % 256) {
                    assert(first.enemy(r, c) == pre.enemy(r, c));
                }
            }
            assert(normal_of(first.enemy((y % 256) as int, (x % 256) as int), 1));
            let before = spawned;
            spawned = spawned.push(((y % 256) as int, (x % 256) as int));
            assert forall|r: int, c: int|
                #![trigger first.enemy(r, c)]
                f0.in_bounds(r, c) && first.enemy(r, c) != f0.enemy(r, c) implies spawned.contains((r, c)) by {
                if r == y % 256 && c == x % 256 {
                    assert(spawned[before.len() as int] == (r, c));
                } else {
                    assert(first.enemy(r, c) == pre.enemy(r, c));
                    let k = choose|k: int| 0 <= k < before.len() && before[k] == (r, c);
                    assert(spawned[k] == (r, c));
                }
            }
        }
    }
    let ghost spawned_first = spawned;
    let ghost mut spawned: Seq<(int, int)> = Seq::empty();
    for l in 0..5u8
        invariant
            spawned.len() == l,
            s0.enemies_changed_only_at(*second, spawned),
            forall|k: int| 0 <= k < l ==> s0.in_bounds((#[trigger] spawned[k]).0, spawned[k].1),
            forall|k: int|
                0 <= k < l && (forall|j: int| k < j < l ==> spawned[j] != #[trigger] spawned[k]) ==> normal_of(
                    second.enemy(spawned[k].0, spawned[k].1),
                    (3 * k + 6) as u8,
                ),
            l > 0 ==> exists|r: int, c: int|
                #![trigger second.enemy(r, c)]
                s0.in_bounds(r, c) && normal_of(second.enemy(r, c), (3 * (l - 1) + 6) as u8),
            second.wf(),
            second.width() == s0.width(),
            second.height() == s0.height(),
            s0.width() == f0.width(),
            s0.height() == f0.height(),
            side == f0.width(),
            f0.width() == f0.height(),
            0 < side,
            second.tiles() == s0.tiles(),
            second.acts() == s0.acts(),
            forall|r: int, c: int|
                #![trigger second.enemy(r, c)]
                s0.in_bounds(r, c) ==> second.enemy(r, c) == s0.enemy(r, c) || deep_enemy(second.enemy(r, c)),
    {
        let y = random(0..side);
        let x = random(0..side);
        let ghost pre = *second;
        second.spawn((y % 256) as u8, (x % 256) as u8, EnemyType::Normal((l + 2) * 3));
        proof {
            assert((3 * (l as int) + 6) as u8 == (l + 2) * 3);
            assert forall|r: int, c: int| #![trigger second.enemy(r, c)] s0.in_bounds(r, c) implies second.enemy(r, c)
                == s0.enemy(r, c) || deep_enemy(second.enemy(r, c)) by {
                assert(pre.enemy(r, c) == pre.enemies()[r][c]);
                if r == y % 256 && c == x % 256 {
                    assert(normal_of(second.enemy(r, c), (3 * (l as int) + 6) as u8));
                } else {
                    assert(second.enemy(r, c) == pre.enemy(r, c));
                }
            }
            assert(normal_of(second.enemy((y % 256) as int, (x % 256) as int), (3 * (l as int) + 6) as u8));
            assert(deep_enemy(second.enemy((y % 256) as int, (x % 256) as int)));
            let before = spawned;
            spawned = spawned.push(((y % 256) as int, (x % 256) as int));
            assert forall|r: int, c: int|
                #![trigger second.enemy(r, c)]
                s0.in_bounds(r, c) && second.enemy(r, c) != s0.enemy(r, c) implies spawned.contains((r, c)) by {
                if r == y % 256 && c == x % 256 {
                    assert(spawned[before.len() as int] == (r, c));
                } else {
                    assert(second.enemy(r, c) == pre.enemy(r, c));
                    let k = choose|k: int| 0 <= k < before.len() && before[k] == (r, c);
                    assert(spawned[k] == (r, c));
                }
            }
            assert forall|k: int| 0 <= k < l + 1 implies s0.in_bounds((#[trigger] spawned[k]).0, spawned[k].1) by {
                if k < l {
                    assert(spawned[k] == before[k]);
                }
            }
            assert forall|k: int|
                0 <= k < l + 1 && (forall|j: int| k < j < l + 1 ==> spawned[j] != #[trigger] spawned[k]) implies normal_of(
                second.enemy(spawned[k].0, spawned[k].1),
                (3 * k + 6) as u8,
            ) by {
                if k < l {
                    assert(spawned[k] == before[k]);
                    assert(spawned[l as int] != spawned[k]);
                    assert forall|j: int| k < j < l implies before[j] != #[trigger] before[k] by {
                        assert(spawned[j] == before[j]);
                    }
                    let (r, c) = spawned[k];
                    assert(pre.enemy(r, c) == pre.enemies()[r][c]);
                    assert(second.enemy(r, c) == pre.enemy(r, c));
                }
            }
        }
    }
    let ghost f1 = *first;
    first.set_random(-1, Act::Nothing);
    let ghost f2 = *first;
    first.set_random(-2, Act::Tp(1));
    let ghost f3 = *first;
    first.gift_random(300, 200, 400);
    proof {
        let (y1, x1) = choose|y: int, x: int|
            #![trigger f1.tiles_with(y, x, -1i8)]
            f1.in_bounds(y, x) && f2.tiles() == f1.tiles_with(y, x, -1i8) && f2.acts() == f1.acts();
        let (y2, x2) = choose|y: int, x: int|
            #![trigger f2.tiles_with(y, x, -2i8)]
            f2.in_bounds(y, x) && f3.tiles() == f2.tiles_with(y, x, -2i8) && f3.acts() == f2.acts_with(y, x, Act::Tp(1));
        assert(first.tiles() == grid_set(grid_set(f0.tiles(), y1, x1, -1i8), y2, x2, -2i8));
        assert forall|r: int, c: int| #![trigger first.action(r, c)] f0.in_bounds(r, c) implies first.action(r, c)
            == f0.action(r, c) || first.action(r, c) == Act::Tp(1) || (first.action(r, c) matches Act::Gift(g) && 200
            <= g < 300) by {
            assert(f3.action(r, c) == f3.acts()[r][c]);
            assert(f2.action(r, c) == f2.acts()[r][c]);
            assert(f1.action(r, c) == f1.acts()[r][c]);
            assert(f0.action(r, c) == f0.acts()[r][c]);
        }
        assert forall|r: int, c: int| #![trigger first.enemy(r, c)] f0.in_bounds(r, c) implies first.enemy(r, c)
            == f0.enemy(r, c) || normal_of(first.enemy(r, c), 1) by {
            assert(f1.enemy(r, c) == f1.enemies()[r][c]);
        }
        assert forall|r: int, c: int|
            #![trigger first.enemy(r, c)]
            f0.in_bounds(r, c) && first.enemy(r, c) != f0.enemy(r, c) implies spawned_first.contains((r, c)) by {
            assert(first.enemy(r, c) == f1.enemy(r, c));
        }
        assert(f0.enemies_changed_only_at(*first, spawned_first));
        let gifts = choose|cells: Seq<(int, int)>| cells.len() == 400 && #[trigger] f3.acts_changed_only_at(*first, cells);
        let all = seq![(y2, x2)] + gifts;
        assert forall|r: int, c: int|
            #![trigger first.action(r, c)]
            f0.in_bounds(r, c) && first.action(r, c) != f0.action(r, c) implies all.contains((r, c)) by {
            assert(f0.action(r, c) == f0.acts()[r][c]);
            assert(f1.action(r, c) == f1.acts()[r][c]);
            assert(f2.action(r, c) == f2.acts()[r][c]);
            assert(f3.action(r, c) == f3.acts()[r][c]);
            if r == y2 && c == x2 {
                assert(all[0] == (r, c));
            } else {
                assert(f3.action(r, c) == f0.action(r, c));
                let k = choose|k: int| 0 <= k < gifts.len() && gifts[k] == (r, c);
                assert(all[k + 1] == (r, c));
            }
        }
        assert(f0.acts_changed_only_at(*first, all));
        let (er, ec) = choose|r: int, c: int| #![trigger f1.enemy(r, c)] f0.in_bounds(r, c) && normal_of(f1.enemy(r, c), 1);
        assert(first.enemy(er, ec) == f1.enemy(er, ec));
        assert(f3.action(y2, x2) == f3.acts()[y2][x2]);
        assert(first.action(y2, x2) == f3.action(y2, x2) || (first.action(y2, x2) matches Act::Gift(g) && 200 <= g < 300));
    }
    let ghost s1 = *second;
    second.set_random(-2, Act::Tp(0));
    let ghost s2 = *second;
    second.gift_random(6000, 200, 40);
    proof {
        let (y, x) = choose|y: int, x: int|
            #![trigger s1.tiles_with(y, x, -2i8)]
            s1.in_bounds(y, x) && s2.tiles() == s1.tiles_with(y, x, -2i8) && s2.acts() == s1.acts_with(y, x, Act::Tp(0));
        assert(second.tiles() == grid_set(s0.tiles(), y, x, -2i8));
        assert forall|r: int, c: int| #![trigger second.action(r, c)] s0.in_bounds(r, c) implies second.action(r, c)
            == s0.action(r, c) || second.action(r, c) == Act::Tp(0) || (second.action(r, c) matches Act::Gift(g) && 200
            <= g < 6000) by {
            assert(s2.action(r, c) == s2.acts()[r][c]);
            assert(s1.action(r, c) == s1.acts()[r][c]);
            assert(s0.action(r, c) == s0.acts()[r][c]);
        }
        assert forall|r: int, c: int| #![trigger second.enemy(r, c)] s0.in_bounds(r, c) implies second.enemy(r, c)
            == s0.enemy(r, c) || deep_enemy(second.enemy(r, c)) by {
            assert(s1.enemy(r, c) == s1.enemies()[r][c]);
        }
        assert forall|r: int, c: int|
            #![trigger second.enemy(r, c)]
            s0.in_bounds(r, c) && second.enemy(r, c) != s0.enemy(r, c) implies spawned.contains((r, c)) by {
            assert(second.enemy(r, c) == s1.enemy(r, c));
        }
        assert(s0.enemies_changed_only_at(*second, spawned));
        assert forall|k: int|
            0 <= k < 5 && (forall|j: int| k < j < 5 ==> spawned[j] != #[trigger] spawned[k]) implies normal_of(
            second.enemy(spawned[k].0, spawned[k].1),
            (3 * k + 6) as u8,
        ) by {
            assert(second.enemy(spawned[k].0, spawned[k].1) == s1.enemy(spawned[k].0, spawned[k].1));
        }
        assert(deep_spawns(s0, *second, spawned));
        let gifts = choose|cells: Seq<(int, int)>| cells.len() == 40 && #[trigger] s2.acts_changed_only_at(*second, cells);
        let all = seq![(y, x)] + gifts;
        assert forall|r: int, c: int|
            #![trigger second.action(r, c)]
            s0.in_bounds(r, c) && second.action(r, c) != s0.action(r, c) implies all.contains((r, c)) by {
            assert(s0.action(r, c) == s0.acts()[r][c]);
            assert(s1.action(r, c) == s1.acts()[r][c]);
            assert(s2.action(r, c) == s2.acts()[r][c]);
            if r == y && c == x {
                assert(all[0] == (r, c));
            } else {
                assert(s2.action(r, c) == s0.action(r, c));
                let k = choose|k: int| 0 <= k < gifts.len() && gifts[k] == (r, c);
                assert(all[k + 1] == (r, c));
            }
        }
        assert(s0.acts_changed_only_at(*second, all));
        let (er, ec) = choose|r: int, c: int| #![trigger s1.enemy(r, c)] s0.in_bounds(r, c) && normal_of(s1.enemy(r, c), 18);
        assert(second.enemy(er, ec) == s1.enemy(er, ec));
        assert(s2.action(y, x) == s2.acts()[y][x]);
        assert(second.action(y, x) == s2.action(y, x) || (second.action(y, x) matches Act::Gift(g) && 200 <= g < 6000));
    }
}

/// A key as the exploration screen sees it.
#[derive(Clone, Copy, Debug, PartialEq, Eq, Structural)]
pub enum Command {
    /// Esc: leave the game.
    Exit,
    Up,
    Down,
    Left,
    Right,
    /// H or Enter: show the key help.
    Help,
    /// E: dig for treasure.
    Explore,
    /// Q: open the bag.
    Bag,
    /// P: till the ground.
    Till,
    Other,
}

/// The message shown under the map.
#[derive(Clone, Copy, Debug, PartialEq, Eq, Structural)]
pub enum Hint {
    Blank,
    Help,
    Treasure(i32),
    Empty,
    Tilled,
    CannotTill,
    NoHoe,
}

/// What the key asks of the program around the game.
#[derive(Clone, Copy, Debug, PartialEq, Eq, Structural)]
pub enum KeyEffect {
    /// Leave the game.
    Exit,
    /// Show the bag, then step to the player's own cell.
    OpenBag,
    /// Step towards this cell `(y, x)`.
    Go(u8, u8),
}

/// What stepping onto a cell led to.
#[derive(Clone, Copy, Debug, PartialEq, Eq, Structural)]
pub enum Arrival {
    /// Nothing: the cell is off the map, or a portal that leads nowhere.
    Stay,
    /// The player now stands on the cell.
    Moved,
    /// The cell is the shop: show it.
    Shop,
    /// The cell is a portal: the next map is chosen, switch to it.
    Portal,
    /// An enemy stands on the cell `(y, x)`: fight it.
    Fight(u8, u8),
}

/// The text of the message under the map (a blank message is two blank lines).
pub open spec fn hint_line(h: Hint) -> Seq<char> {
    match h {
        Hint::Blank => SS@ + "\n"@ + SS@,
        Hint::Help => "H > WASD 移动 E 探索 Q 背包 H 提示 P 耕地 Esc 退出游戏"@,
        Hint::Treasure(g) => "E > 找到了宝藏 +"@ + text::int_text(g as int) + "KB"@ + S@,
        Hint::Empty => "E > 空空如也"@ + S@,
        Hint::Tilled => "P > 耕地成功"@ + S@,
        Hint::CannotTill => "P > 此处无法耕地"@ + S@,
        Hint::NoHoe => "P > 没有锄"@ + S@,
    }
}

/// The message under the map.
pub fn hint_text(h: Hint) -> (t: String)
    ensures
        t@ == hint_line(h),
{
    let mut t = String::new();
    match h {
        Hint::Blank => {
            t.append(SS);
            t.append("\n");
            t.append(SS);
        },
        Hint::Help => {
            t.append("H > WASD 移动 E 探索 Q 背包 H 提示 P 耕地 Esc 退出游戏");
        },
        Hint::Treasure(g) => {
            t.append("E > 找到了宝藏 +");
            push_int(&mut t, g as i64);
            t.append("KB");
            t.append(S);
        },
        Hint::Empty => {
            t.append("E > 空空如也");
            t.append(S);
        },
        Hint::Tilled => {
            t.append("P > 耕地成功");
            t.append(S);
        },
        Hint::CannotTill => {
            t.append("P > 此处无法耕地");
            t.append(S);
        },
        Hint::NoHoe => {
            t.append("P > 没有锄");
            t.append(S);
        },
    }
    t
}

/// Every portal of `m` leads to one of `n` maps.
pub open spec fn portals_ok(m: TileMap, n: int) -> bool {
    forall|y: int, x: int|
        #![trigger m.action(y, x)]
        m.in_bounds(y, x) ==> (m.action(y, x) matches Act::Tp(d) ==> 0 <= d < n)
}

/// Portals depend on the actions alone.
proof fn lemma_portals_same_acts(a: TileMap, b: TileMap, n: int)
    requires
        portals_ok(a, n),
        a.acts() == b.acts(),
        a.height() == b.height(),
        a.width() == b.width(),
    ensures
        portals_ok(b, n),
{
    assert forall|y: int, x: int| #![trigger b.action(y, x)] b.in_bounds(y, x) implies (b.action(y, x) matches Act::Tp(
        d,
    ) ==> 0 <= d < n) by {
        assert(a.action(y, x) == b.action(y, x));
    }
}

/// `m` is a well-formed square map of side `side` whose portals lead to one
/// of `n` maps.
pub open spec fn fits(m: TileMap, side: nat, n: int) -> bool {
    &&& m.wf()
    &&& m.width() == side
    &&& m.height() == side
    &&& portals_ok(m, n)
}

/// The cell one step from `pos` for a movement command (wrapping at the
/// byte's edge, which lands off the map), or `pos` itself.
pub open spec fn step_target(pos: (u8, u8), cmd: Command) -> (u8, u8) {
    match cmd {
        Command::Up => (if pos.0 == 0 { 255u8 } else { (pos.0 - 1) as u8 }, pos.1),
        Command::Down => (if pos.0 == 255 { 0u8 } else { (pos.0 + 1) as u8 }, pos.1),
        Command::Left => (pos.0, if pos.1 == 0 { 255u8 } else { (pos.1 - 1) as u8 }),
        Command::Right => (pos.0, if pos.1 == 255 { 0u8 } else { (pos.1 + 1) as u8 }),
        _ => pos,
    }
}

/// The exploration game: the player on the current map, the list of maps it
/// was loaded from, the index of the map shown (`local`) and of the map to
/// show next (`goto`), and the message under the map.
pub struct Game {
    pub player: Player,
    pub map: TileMap,
    pub map_list: Vec<TileMap>,
    pub local: i8,
    pub goto: i8,
    pub hint: Hint,
}

impl Game {
    /// All maps are squares of the same side, every portal leads to a listed
    /// map, both map indices are in the list, and the player stands on the
    /// current map.
    pub open spec fn wf(&self) -> bool {
        let n = self.map_list@.len() as int;
        let side = self.map.width();
        &&& 0 < n <= 127
        &&& fits(self.map, side, n)
        &&& forall|i: int| 0 <= i < n ==> fits(#[trigger] self.map_list@[i], side, n)
        &&& 0 <= self.local < n
        &&& 0 <= self.goto < n
        &&& self.map.in_bounds(self.player.position.0 as int, self.player.position.1 as int)
    }

    /// The game on the first of `maps`, with a fresh player (rich when
    /// debugging).
    pub fn new(map_list: Vec<TileMap>, debug: bool) -> (g: Game)
        requires
            0 < map_list@.len() <= 127,
            map_list@[0].width() > 0,
            forall|i: int|
                0 <= i < map_list@.len() ==> fits(#[trigger] map_list@[i], map_list@[0].width(), map_list@.len() as int),
        ensures
            g.wf(),
            g.map_list@ == map_list@,
            g.map.tiles() == map_list@[0].tiles(),
            g.map.acts() == map_list@[0].acts(),
            g.map.enemies() == map_list@[0].enemies(),
            g.local == 0,
            g.goto == 0,
            g.hint == Hint::Blank,
            g.player.position == (0u8, 0u8),
            g.player.money == (if debug { 9999999i32 } else { 0i32 }),
            g.player.hp == 500,
            g.player.max_hp == 500,
            g.player.atk == 20,
            g.player.bag@ == Map::<u8, i32>::empty(),
            g.player.hand == 0,
    {
        let mut player = Player::new();
        if debug {
            player.money = 9999999;
        }
        let map = map_list[0].duplicate();
        proof {
            assert(fits(map_list@[0], map_list@[0].width(), map_list@.len() as int));
            lemma_portals_same_acts(map_list@[0], map, map_list@.len() as int);
        }
        let g = Game { player, map, map_list, local: 0, goto: 0, hint: Hint::Blank };
        g
    }

    /// Loads the map chosen by a portal, unless it is already shown.  (The
    /// loaded map is a fresh copy from the list: what happened on the map left
    /// behind is forgotten.)
    pub fn switch_map(&mut self)
        requires
            old(self).wf(),
        ensures
            final(self).wf(),
            final(self).player == old(self).player,
            final(self).map_list@ == old(self).map_list@,
            final(self).goto == old(self).goto,
            final(self).local == old(self).goto,
            final(self).hint == old(self).hint,
            old(self).goto != old(self).local ==> {
                &&& final(self).map.tiles() == old(self).map_list@[old(self).goto as int].tiles()
                &&& final(self).map.acts() == old(self).map_list@[old(self).goto as int].acts()
                &&& final(self).map.enemies() == old(self).map_list@[old(self).goto as int].enemies()
            },
            old(self).goto == old(self).local ==> {
                &&& final(self).map.tiles() == old(self).map.tiles()
                &&& final(self).map.acts() == old(self).map.acts()
                &&& final(self).map.enemies() == old(self).map.enemies()
            },
    {
        if self.goto != self.local {
            let m = self.map_list[self.goto as usize].duplicate();
            proof {
                let n = self.map_list@.len() as int;
                assert(fits(self.map_list@[self.goto as int], self.map.width(), n));
                lemma_portals_same_acts(self.map_list@[self.goto as int], m, n);
            }
            self.map = m;
            self.local = self.goto;
        }
    }

    /// The player's cell.
    pub open spec fn here(&self) -> (int, int) {
        (self.player.position.0 as int, self.player.position.1 as int)
    }

    /// Digging at the player's cell: the treasure found there (see
    /// `TileMap::found`) is added to the money and its cell keeps a
    /// worthless treasure; the message tells what was found.
    pub open spec fn explored(before: Game, after: Game) -> bool {
        let g = before.map.found(before.player.position);
        &&& after.player.money == before.player.money + g
        &&& after.hint == (if g != 0 {
            Hint::Treasure(g)
        } else {
            Hint::Empty
        })
        &&& after.map.acts() == (if g != 0 {
            before.map.acts_with(before.here().0, before.here().1, Act::Gift(0))
        } else {
            before.map.acts()
        })
    }

    /// Whether digging here leaves the money within `i32`.
    pub fn treasure_fits(&self) -> (r: bool)
        requires
            self.wf(),
        ensures
            r == (i32::MIN <= self.player.money + self.map.found(self.player.position) <= i32::MAX),
    {
        let total = self.player.money as i64 + self.map.explore(self.player.position) as i64;
        let lo: i64 = i32::MIN as i64;
        let hi: i64 = i32::MAX as i64;
        lo <= total && total <= hi
    }

    /// Whether taking the outcome of a fight leaves the money within `i32`:
    /// only a win pays the reward.
    pub fn reward_fits(player: &Player, enemy: &Enemy) -> (r: bool)
        ensures
            r == (player.hp > 0 && enemy.hp <= 0 ==> i32::MIN <= player.money + enemy.reward <= i32::MAX),
    {
        if player.hp > 0 && enemy.hp <= 0 {
            let total = player.money as i64 + enemy.reward as i64;
            let lo: i64 = i32::MIN as i64;
        let hi: i64 = i32::MAX as i64;
        lo <= total && total <= hi
        } else {
            true
        }
    }

    /// Handles a key on the exploration screen; the message under the map is
    /// replaced.  Movement keys give the cell to step to; H shows the help;
    /// E digs up the treasure under the player (which then holds none); P
    /// tills dirt or grass under the player into farmland when the player
    /// has a hoe (item 3); Q asks for the bag; Esc asks to leave.
    pub fn key(&mut self, cmd: Command) -> (e: KeyEffect)
        requires
            old(self).wf(),
            cmd is Explore ==> i32::MIN <= old(self).player.money + old(self).map.found(old(self).player.position)
                <= i32::MAX,
        ensures
            final(self).wf(),
            final(self).map_list@ == old(self).map_list@,
            final(self).local == old(self).local,
            final(self).goto == old(self).goto,
            final(self).player.position == old(self).player.position,
            final(self).player.hp == old(self).player.hp,
            final(self).player.max_hp == old(self).player.max_hp,
            final(self).player.atk == old(self).player.atk,
            final(self).player.bag@ == old(self).player.bag@,
            final(self).player.hand == old(self).player.hand,
            final(self).map.enemies() == old(self).map.enemies(),
            e == (match cmd {
                Command::Exit => KeyEffect::Exit,
                Command::Bag => KeyEffect::OpenBag,
                _ => KeyEffect::Go(step_target(old(self).player.position, cmd).0, step_target(old(self).player.position, cmd).1),
            }),
            !(cmd is Explore) ==> final(self).player.money == old(self).player.money,
            !(cmd is Explore) ==> final(self).map.acts() == old(self).map.acts(),
            !(cmd is Till) ==> final(self).map.tiles() == old(self).map.tiles(),
            cmd is Help ==> final(self).hint == Hint::Help,
            cmd is Explore ==> Game::explored(*old(self), *final(self)),
            cmd is Explore ==> final(self).map.gift_at(
                old(self).here().0,
                old(self).here().1,
            ) == 0,
            cmd is Till ==> {
                let t = old(self).map.tile(old(self).here().0, old(self).here().1);
                &&& !old(self).player.bag@.contains_key(3u8) ==> final(self).hint == Hint::NoHoe
                    && final(self).map.tiles() == old(self).map.tiles()
                &&& old(self).player.bag@.contains_key(3u8) && (t == 0 || t == 1) ==> final(self).hint
                    == Hint::Tilled && final(self).map.tiles() == old(self).map.tiles_with(
                    old(self).here().0,
                    old(self).here().1,
                    5,
                )
                &&& old(self).player.bag@.contains_key(3u8) && !(t == 0 || t == 1) ==> final(self).hint
                    == Hint::CannotTill && final(self).map.tiles() == old(self).map.tiles()
            },
            !(cmd is Help || cmd is Explore || cmd is Till) ==> final(self).hint == Hint::Blank,
    {
        self.hint = Hint::Blank;
        let (y0, x0) = self.player.position;
        let ghost n = self.map_list@.len() as int;
        match cmd {
            Command::Exit => {
                return KeyEffect::Exit;
            },
            Command::Up => {
                return KeyEffect::Go(y0.wrapping_sub(1), x0);
            },
            Command::Down => {
                return KeyEffect::Go(y0.wrapping_add(1), x0);
            },
            Command::Left => {
                return KeyEffect::Go(y0, x0.wrapping_sub(1));
            },
            Command::Right => {
                return KeyEffect::Go(y0, x0.wrapping_add(1));
            },
            Command::Help => {
                self.hint = Hint::Help;
            },
            Command::Explore => {
                let gift = self.map.explore(self.player.position);
                if gift != 0 {
                    let ghost pre = self.map;
                    self.map.put_act(y0 as usize, x0 as usize, Act::Gift(0));
                    proof {
                        assert forall|y: int, x: int| #![trigger self.map.action(y, x)] self.map.in_bounds(y, x) implies (
                        self.map.action(y, x) matches Act::Tp(d) ==> 0 <= d < n) by {
                            assert(pre.action(y, x) == pre.acts()[y][x]);
                            if !(y == y0 && x == x0) {
                                assert(self.map.action(y, x) == pre.action(y, x));
                            }
                        }
                    }
                    self.player.money = self.player.money + gift;
                    self.hint = Hint::Treasure(gift);
                } else {
                    self.hint = Hint::Empty;
                }
            },
            Command::Bag => {
                return KeyEffect::OpenBag;
            },
            Command::Till => {
                let (y, x) = (y0 as usize, x0 as usize);
                if self.player.bag.contains_key(&3) {
                    if self.map.id[y][x] == 0 || self.map.id[y][x] == 1 {
                        let ghost pre = self.map;
                        self.map.put_tile(y, x, 5);
                        proof {
                            lemma_portals_same_acts(pre, self.map, n);
                        }
                        self.hint = Hint::Tilled;
                    } else {
                        self.hint = Hint::CannotTill;
                    }
                } else {
                    self.hint = Hint::NoHoe;
                }
            },
            Command::Other => {},
        }
        KeyEffect::Go(y0, x0)
    }

    /// Steps towards the cell `(ny, nx)`.  The cell must be on the map.  The shop and
    /// enemies stop the player in front of them; a portal chooses the next
    /// map; a portal without destination does nothing; any other cell
    /// becomes the player's position.
    pub fn enter(&mut self, ny: u8, nx: u8) -> (a: Arrival)
        requires
            old(self).wf(),
        ensures
            final(self).wf(),
            final(self).map_list@ == old(self).map_list@,
            final(self).local == old(self).local,
            final(self).hint == old(self).hint,
            final(self).map.tiles() == old(self).map.tiles(),
            final(self).map.acts() == old(self).map.acts(),
            final(self).map.enemies() == old(self).map.enemies(),
            final(self).player.money == old(self).player.money,
            final(self).player.hp == old(self).player.hp,
            final(self).player.max_hp == old(self).player.max_hp,
            final(self).player.atk == old(self).player.atk,
            final(self).player.bag@ == old(self).player.bag@,
            final(self).player.hand == old(self).player.hand,
            ({
                let m = old(self).map;
                let (y, x) = (ny as int, nx as int);
                if m.in_bounds(y, x) {
                    if m.tile(y, x) == -1 {
                        a == Arrival::Shop && final(self).player.position == old(self).player.position
                            && final(self).goto == old(self).goto
                    } else if m.tile(y, x) == -2 {
                        match m.action(y, x) {
                            Act::Tp(d) => a == Arrival::Portal && final(self).goto == d
                                && final(self).player.position == old(self).player.position,
                            _ => a == Arrival::Stay && final(self).player.position == old(self).player.position
                                && final(self).goto == old(self).goto,
                        }
                    } else if m.enemy(y, x).exist {
                        a == Arrival::Fight(ny, nx) && final(self).player.position == old(self).player.position
                            && final(self).goto == old(self).goto
                    } else {
                        a == Arrival::Moved && final(self).player.position == (ny, nx) && final(self).goto
                            == old(self).goto
                    }
                } else {
                    a == Arrival::Stay && final(self).player.position == old(self).player.position
                        && final(self).goto == old(self).goto
                }
            }),
    {
        let (x_len, y_len) = self.map.measure();
        if (ny as usize) < y_len && (nx as usize) < x_len {
            let (y, x) = (ny as usize, nx as usize);
            if self.map.id[y][x] == -1 {
                Arrival::Shop
            } else if self.map.id[y][x] == -2 {
                if let Act::Tp(d) = self.map.act[y][x] {
                    proof {
                        assert(self.map.action(y as int, x as int) == Act::Tp(d));
                    }
                    self.goto = d;
                    Arrival::Portal
                } else {
                    Arrival::Stay
                }
            } else if self.map.entity[y][x].exist {
                Arrival::Fight(ny, nx)
            } else {
                self.player.position = (ny, nx);
                Arrival::Moved
            }
        } else {
            Arrival::Stay
        }
    }

    /// Takes the player back from the bag or the shop, which do not move them.
    pub fn resume(&mut self, p: Player)
        requires
            old(self).wf(),
            p.position == old(self).player.position,
        ensures
            final(self).wf(),
            final(self).player == p,
            final(self).map == old(self).map,
            final(self).map_list == old(self).map_list,
            final(self).local == old(self).local,
            final(self).goto == old(self).goto,
            final(self).hint == old(self).hint,
    {
        self.player = p;
    }

    /// Takes the outcome of a fight against the enemy on `(ny, nx)`.
    /// Returns false when the player has fallen (the game is over).  A
    /// surviving enemy stays with its remaining hp; a defeated one leaves the
    /// cell and pays its reward.
    pub fn finish_fight(&mut self, ny: u8, nx: u8, player: Player, enemy: Enemy) -> (alive: bool)
        requires
            old(self).wf(),
            old(self).map.in_bounds(ny as int, nx as int),
            player.position == old(self).player.position,
            player.hp > 0 && enemy.hp <= 0 ==> player.money + enemy.reward <= i32::MAX,
            player.hp > 0 && enemy.hp <= 0 ==> i32::MIN <= player.money + enemy.reward,
        ensures
            final(self).wf(),
            alive == (player.hp > 0),
            final(self).map_list@ == old(self).map_list@,
            final(self).local == old(self).local,
            final(self).goto == old(self).goto,
            final(self).hint == old(self).hint,
            final(self).map.tiles() == old(self).map.tiles(),
            final(self).map.acts() == old(self).map.acts(),
            !alive ==> final(self).player == player && final(self).map.enemies() == old(self).map.enemies(),
            alive && enemy.hp > 0 ==> final(self).player == player && final(self).map.enemies()
                == old(self).map.enemies_with(ny as int, nx as int, enemy),
            alive && enemy.hp <= 0 ==> {
                &&& final(self).player == Player { money: (player.money + enemy.reward) as i32, ..player }
                &&& final(self).map.enemies() == old(self).map.enemies_with(ny as int, nx as int, battle::no_enemy())
            },
    {
        let ghost n = self.map_list@.len() as int;
        let ghost pre = self.map;
        self.player = player;
        if self.player.hp <= 0 {
            return false;
        }
        if enemy.hp > 0 {
            self.map.put_enemy(ny as usize, nx as usize, enemy);
        } else {
            self.player.money = self.player.money + enemy.reward;
            self.map.put_enemy(ny as usize, nx as usize, Enemy::new_empty());
        }
        proof {
            lemma_portals_same_acts(pre, self.map, n);
        }
        true
    }
}

} // verus!
