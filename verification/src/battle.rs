//! Enemies and the turn-based battle between the player and one enemy.

use vstd::prelude::*;
use crate::game::Player;
use crate::menu::{Menu, Nav};
use crate::rng::random;
use crate::style::{Color, Styled};
use crate::text::{self, fill, push_int};

verus! {

/// An enemy standing on a map cell; `exist` is false for an empty cell.
#[derive(Clone, Copy, Debug, PartialEq, Eq, Structural)]
pub struct Enemy {
    pub exist: bool,
    pub max_hp: i32,
    pub hp: i32,
    pub atk: i32,
    pub reward: i32,
}

/// The value of a cell without an enemy.
pub open spec fn no_enemy() -> Enemy {
    Enemy { exist: false, max_hp: 0, hp: 0, atk: 0, reward: 0 }
}

impl Enemy {
    /// The absence of an enemy.
    pub fn new_empty() -> (e: Self)
        ensures
            e == no_enemy(),
    {
        Enemy { exist: false, max_hp: 0, hp: 0, atk: 0, reward: 0 }
    }

    /// An enemy with the given statistics.
    pub fn new(max_hp: i32, hp: i32, atk: i32, reward: i32) -> (e: Self)
        ensures
            e == (Enemy { exist: true, max_hp, hp, atk, reward }),
    {
        Enemy { exist: true, max_hp, hp, atk, reward }
    }
}

/// What to place on a cell: an enemy of a given level, or a ready-made enemy.
pub enum EnemyType {
    Normal(u8),
    Full(Enemy),
}

/// A blow of attack `atk` (give or take one point) on `hp` stays within `i32`.
pub open spec fn blow_fits(atk: i32, hp: i32) -> bool {
    &&& i32::MIN < atk < i32::MAX
    &&& i32::MIN <= hp - atk - 1
    &&& hp - atk + 1 <= i32::MAX
}

/// What the battle does at the end of a round.
#[derive(Clone, Copy, Debug, PartialEq, Eq, Structural)]
pub enum Action {
    Skip,
    Attack,
    End,
}

/// The number of log lines shown on the battle screen.
pub const LOG_LINES: usize = 8;

/// The text of the log line for a blow of `amount` dealt by the player, or by
/// the enemy.
pub open spec fn blow_text(by_player: bool, amount: int) -> Seq<char> {
    if by_player {
        text::padded("你造成了 "@ + text::int_text(amount) + " 伤害"@, 50)
    } else {
        text::padded("敌方造成了 "@ + text::int_text(amount) + " 伤害"@, 50)
    }
}

/// The text of the log line for a defeated enemy with the given reward.
pub open spec fn victory_text(reward: int) -> Seq<char> {
    text::padded("你征服了敌人 +"@ + text::int_text(reward) + "KB"@, 50)
}

/// `prefix`, then `n` in decimal, then `suffix`, padded to 50 characters.
fn log_text(prefix: &str, n: i64, suffix: &str) -> (r: String)
    ensures
        r@ == text::padded(prefix@ + text::int_text(n as int) + suffix@, 50),
{
    let mut s = String::from_str(prefix);
    push_int(&mut s, n);
    s.append(suffix);
    fill(s.as_str())
}

/// A battle between the player and one enemy, round by round.  Each round
/// the screen is drawn, then `decide` decides what happens (from a key when
/// the player is asked) and `resolve` does it.
pub struct Battle {
    pub player: Player,
    pub enemy: Enemy,
    /// Whose turn it was last: when true the enemy struck last, so the player
    /// strikes next.
    pub priority: bool,
    pub log: Vec<Styled>,
    pub march: bool,
    pub march2: bool,
    pub auto_fight: bool,
    pub next_action: Action,
    pub menu: Menu,
}

impl Battle {
    pub open spec fn wf(&self) -> bool {
        self.menu.wf() && self.menu.len == 3
    }

    /// One side has no hp left.
    pub open spec fn over(&self) -> bool {
        self.player.hp <= 0 || self.enemy.hp <= 0
    }

    /// The side whose turn comes next (the player when `priority` is true)
    /// can strike: its blow, one point more or less than its attack, stays
    /// within `i32`.
    pub open spec fn safe(&self) -> bool {
        if self.priority {
            blow_fits(self.player.atk, self.enemy.hp)
        } else {
            blow_fits(self.enemy.atk, self.player.hp)
        }
    }

    /// Whether the side whose turn comes next can strike without leaving
    /// `i32` (see `safe`).
    pub fn next_blow_fits(&self) -> (r: bool)
        ensures
            r == self.safe(),
    {
        let (atk, hp) = if self.priority {
            (self.player.atk as i64, self.enemy.hp as i64)
        } else {
            (self.enemy.atk as i64, self.player.hp as i64)
        };
        let lo: i64 = i32::MIN as i64;
        let hi: i64 = i32::MAX as i64;
        lo < atk && atk < hi && lo <= hp - atk - 1 && hp - atk + 1 <= hi
    }

    /// A battle that has not started; `priority` true lets the player strike first.
    pub fn new(a: Player, b: Enemy, priority: bool) -> (bt: Battle)
        ensures
            bt.wf(),
            bt.player == a,
            bt.enemy == b,
            bt.priority == priority,
            bt.log@.len() == 0,
            bt.march,
            bt.march2,
            !bt.auto_fight,
            bt.next_action == Action::Skip,
            bt.menu.highlighted == 0,
    {
        Battle {
            player: a,
            enemy: b,
            priority,
            log: Vec::new(),
            march: true,
            march2: true,
            auto_fight: false,
            next_action: Action::Skip,
            menu: Menu::new(3),
        }
    }

    /// Whether the battle is over.
    pub fn is_over(&self) -> (r: bool)
        ensures
            r == self.over(),
    {
        self.player.hp <= 0 || self.enemy.hp <= 0
    }

    /// The start of a round: once `march` is off, this is the last round.
    pub fn start_round(&mut self)
        ensures
            final(self).march2 == (old(self).march2 != !old(self).march),
            final(self).player == old(self).player,
            final(self).enemy == old(self).enemy,
            final(self).priority == old(self).priority,
            final(self).log@ == old(self).log@,
            final(self).march == old(self).march,
            final(self).auto_fight == old(self).auto_fight,
            final(self).next_action == old(self).next_action,
            final(self).menu == old(self).menu,
    {
        if !self.march {
            self.march2 = !self.march2;
        }
    }

    /// Whether this round waits for a key: the battle goes on and the player
    /// fights by hand.
    pub fn awaits_key(&self) -> (r: bool)
        ensures
            r == (!self.over() && !self.auto_fight),
    {
        !self.is_over() && !self.auto_fight
    }

    /// The label of the menu entry `i`: "AUTO", "ATTACK" (shown as
    /// "CONTINUE" when the enemy strikes next) and "QUIT".
    pub fn option_label(&self, i: i8) -> (s: &'static str)
        requires
            0 <= i < 3,
        ensures
            i == 0 ==> s@ == "AUTO"@,
            i == 1 && self.priority ==> s@ == "ATTACK"@,
            i == 1 && !self.priority ==> s@ == "CONTINUE"@,
            i == 2 ==> s@ == "QUIT"@,
    {
        if i == 0 {
            "AUTO"
        } else if i == 1 {
            if !self.priority {
                "CONTINUE"
            } else {
                "ATTACK"
            }
        } else {
            "QUIT"
        }
    }

    /// Decides this round's action.  A finished battle ends; in automatic mode
    /// the player attacks; otherwise the key `nav` moves through the menu, and
    /// Enter toggles automatic mode (AUTO), attacks (ATTACK) or logs that the
    /// player cannot run (QUIT).  Returns whether automatic mode was toggled,
    /// after which the screen is cleared.
    pub fn decide(&mut self, nav: Nav) -> (toggled: bool)
        requires
            old(self).wf(),
        ensures
            final(self).wf(),
            final(self).player == old(self).player,
            final(self).enemy == old(self).enemy,
            final(self).priority == old(self).priority,
            final(self).march == old(self).march,
            final(self).march2 == old(self).march2,
            !(old(self).next_action is End) ==> (final(self).next_action is End <==> old(self).over()),
            old(self).over() ==> {
                &&& final(self).next_action == Action::End
                &&& final(self).menu == old(self).menu
                &&& final(self).auto_fight == old(self).auto_fight
                &&& final(self).log@ == old(self).log@
                &&& !toggled
            },
            !old(self).over() && old(self).auto_fight ==> {
                &&& final(self).next_action == Action::Attack
                &&& final(self).menu == old(self).menu
                &&& final(self).auto_fight
                &&& final(self).log@ == old(self).log@
                &&& !toggled
            },
            !old(self).over() && !old(self).auto_fight ==> {
                let chosen = nav is Select;
                let h = old(self).menu.highlighted;
                &&& final(self).menu.highlighted == old(self).menu.moved(nav)
                &&& toggled == (chosen && h == 0)
                &&& final(self).auto_fight == (chosen && h == 0)
                &&& final(self).next_action == (if chosen && h == 1 {
                    Action::Attack
                } else {
                    old(self).next_action
                })
                &&& !(chosen && h == 2) ==> final(self).log@ == old(self).log@
                &&& chosen && h == 2 ==> {
                    &&& final(self).log@.drop_last() == old(self).log@
                    &&& final(self).log@.len() == old(self).log@.len() + 1
                    &&& final(self).log@.last().looks((text::padded("你不能走"@, 50), Some(Color::White), None))
                }
            },
    {
        if self.is_over() {
            self.next_action = Action::End;
            false
        } else if !self.auto_fight {
            match self.menu.nav(nav) {
                Some(i) => {
                    if i == 0 {
                        self.auto_fight = !self.auto_fight;
                        true
                    } else if i == 1 {
                        self.next_action = Action::Attack;
                        false
                    } else {
                        let line = Styled { text: fill("你不能走"), fg: Some(Color::White), bg: None, bold: false };
                        self.log.push(line);
                        assert(self.log@.drop_last() =~= old(self).log@);
                        false
                    }
                },
                None => false,
            }
        } else {
            self.next_action = Action::Attack;
            false
        }
    }

    /// A blow, after the turn has passed: when `priority` is now false the
    /// player hits the enemy for its attack minus `noise`, otherwise the enemy
    /// hits the player for its attack minus `noise`.  The log line reports the
    /// attack plus `noise`.
    pub fn strike(&mut self, noise: i32)
        requires
            !old(self).priority ==> blow_fits(old(self).player.atk, old(self).enemy.hp),
            old(self).priority ==> blow_fits(old(self).enemy.atk, old(self).player.hp),
            -1 <= noise <= 1,
        ensures
            final(self).priority == old(self).priority,
            final(self).march == old(self).march,
            final(self).march2 == old(self).march2,
            final(self).auto_fight == old(self).auto_fight,
            final(self).next_action == old(self).next_action,
            final(self).menu == old(self).menu,
            final(self).log@.len() == old(self).log@.len() + 1,
            final(self).log@.drop_last() == old(self).log@,
            !old(self).priority ==> {
                &&& final(self).enemy == (Enemy { hp: (old(self).enemy.hp - (old(self).player.atk - noise)) as i32, ..old(self).enemy })
                &&& final(self).player == old(self).player
                &&& final(self).log@.last().looks((blow_text(true, old(self).player.atk + noise), Some(Color::White), None))
            },
            old(self).priority ==> {
                &&& final(self).player == (Player { hp: (old(self).player.hp - (old(self).enemy.atk - noise)) as i32, ..old(self).player })
                &&& final(self).enemy == old(self).enemy
                &&& final(self).log@.last().looks((blow_text(false, old(self).enemy.atk + noise), Some(Color::Yellow), None))
            },
    {
        if !self.priority {
            self.enemy.hp = self.enemy.hp - (self.player.atk - noise);
            let t = log_text("你造成了 ", (self.player.atk + noise) as i64, " 伤害");
            self.log.push(Styled { text: t, fg: Some(Color::White), bg: None, bold: false });
        } else {
            self.player.hp = self.player.hp - (self.enemy.atk - noise);
            let t = log_text("敌方造成了 ", (self.enemy.atk + noise) as i64, " 伤害");
            self.log.push(Styled { text: t, fg: Some(Color::Yellow), bg: None, bold: false });
        }
        assert(self.log@.drop_last() =~= old(self).log@);
    }

    /// What an attack round makes of `before` (the action to take aside):
    /// if a side is already down the round only logs the outcome and `march`
    /// turns off; otherwise the turn passes to the other side, which strikes
    /// with some noise of -1, 0 or 1.
    pub open spec fn attacked(before: Battle, after: Battle) -> bool {
        &&& after.march2 == before.march2
        &&& after.auto_fight == before.auto_fight
        &&& after.menu == before.menu
        &&& after.log@.len() == before.log@.len() + 1
        &&& after.log@.drop_last() == before.log@
        &&& before.over() ==> {
            &&& after.march == !before.march
            &&& after.priority == before.priority
            &&& after.player == before.player
            &&& after.enemy == before.enemy
            &&& before.player.hp <= 0 ==> after.log@.last().looks(("你寄了"@, Some(Color::Red), None))
            &&& before.player.hp > 0 ==> after.log@.last().looks(
                (victory_text(before.enemy.reward as int), Some(Color::Green), None),
            )
        }
        &&& !before.over() ==> {
            &&& after.march == before.march
            &&& after.priority == !before.priority
            &&& exists|noise: i32| -1 <= noise <= 1 && #[trigger] Battle::struck(before, noise, after)
        }
    }

    /// `after` is `before` after a blow with `noise`, once the turn has
    /// passed: the side that is hit loses its opponent's attack minus `noise`,
    /// nothing else about either side changes, and the log reports the
    /// opponent's attack plus `noise`.
    pub open spec fn struck(before: Battle, noise: i32, after: Battle) -> bool {
        if before.priority {
            &&& after.enemy == (Enemy { hp: (before.enemy.hp - (before.player.atk - noise)) as i32, ..before.enemy })
            &&& after.player == before.player
            &&& after.log@.last().looks((blow_text(true, before.player.atk + noise), Some(Color::White), None))
        } else {
            &&& after.player == (Player { hp: (before.player.hp - (before.enemy.atk - noise)) as i32, ..before.player })
            &&& after.enemy == before.enemy
            &&& after.log@.last().looks((blow_text(false, before.enemy.atk + noise), Some(Color::Yellow), None))
        }
    }

    /// An attack round (see `attacked`); the noise is drawn at random.
    pub fn attack(&mut self)
        requires
            !old(self).over() ==> old(self).safe(),
        ensures
            Battle::attacked(*old(self), *final(self)),
            final(self).next_action == old(self).next_action,
    {
        self.march = !self.march;
        if self.player.hp <= 0 {
            self.log.push(Styled::fg("你寄了", Color::Red));
        } else if self.enemy.hp <= 0 {
            let t = log_text("你征服了敌人 +", self.enemy.reward as i64, "KB");
            self.log.push(Styled { text: t, fg: Some(Color::Green), bg: None, bold: false });
        } else {
            self.march = !self.march;
            self.priority = !self.priority;
            let noise = random(-1..2);
            self.strike(noise);
            assert(Battle::struck(*old(self), noise, *self));
        }
        assert(self.log@.drop_last() =~= old(self).log@);
    }

    /// Carries out this round's action and clears it; returns false when the
    /// action is to end the battle.
    pub fn resolve(&mut self) -> (go_on: bool)
        requires
            old(self).next_action is Attack && !old(self).over() ==> old(self).safe(),
        ensures
            go_on == !(old(self).next_action is End),
            go_on ==> final(self).next_action == Action::Skip,
            old(self).next_action is Attack ==> Battle::attacked(*old(self), *final(self)),
            !go_on ==> *final(self) == *old(self),
            old(self).next_action is Skip ==> *final(self) == (Battle { next_action: Action::Skip, ..*old(self) }),
    {
        let ghost before = *self;
        match self.next_action {
            Action::Attack => self.attack(),
            Action::End => {
                return false;
            },
            Action::Skip => {},
        }
        let ghost mid = *self;
        self.next_action = Action::Skip;
        proof {
            if before.next_action is Attack && !before.over() {
                let noise = choose|noise: i32| -1 <= noise <= 1 && #[trigger] Battle::struck(before, noise, mid);
                assert(Battle::struck(before, noise, *self));
            }
        }
        true
    }

    /// Which part of the log is shown: the index of its first shown line and
    /// the number of blank lines drawn under it, so that eight lines show.
    pub fn log_window(&self) -> (r: (usize, usize))
        ensures
            r.0 == (if self.log@.len() <= LOG_LINES {
                0
            } else {
                self.log@.len() - LOG_LINES
            }),
            r.1 == (if self.log@.len() < LOG_LINES {
                LOG_LINES - self.log@.len()
            } else {
                0
            }),
    {
        let n = self.log.len();
        let start = if n <= LOG_LINES {
            0
        } else {
            n - LOG_LINES
        };
        let blank = if n < LOG_LINES {
            LOG_LINES - n
        } else {
            0
        };
        (start, blank)
    }

    /// The enemy's health as shown: `hp/max_hp` in white, or `0/max_hp` in
    /// red once the hp has gone below zero.
    pub fn enemy_status(&self) -> (r: Styled)
        ensures
            self.enemy.hp < 0 ==> r.looks(("0/"@ + text::int_text(self.enemy.max_hp as int), Some(Color::Red), None)),
            self.enemy.hp >= 0 ==> r.looks(
                (text::int_text(self.enemy.hp as int) + "/"@ + text::int_text(self.enemy.max_hp as int), Some(Color::White), None),
            ),
    {
        let mut s = String::new();
        if self.enemy.hp < 0 {
            s.append("0/");
            push_int(&mut s, self.enemy.max_hp as i64);
            Styled { text: s, fg: Some(Color::Red), bg: None, bold: false }
        } else {
            push_int(&mut s, self.enemy.hp as i64);
            s.append("/");
            push_int(&mut s, self.enemy.max_hp as i64);
            Styled { text: s, fg: Some(Color::White), bg: None, bold: false }
        }
    }

    /// The player and the enemy as the battle left them.
    pub fn finish(self) -> (r: (Player, Enemy))
        ensures
            r.0 == self.player,
            r.1 == self.enemy,
    {
        (self.player, self.enemy)
    }
}

} // verus!
