use orxnre::battle::{Action, Battle, Enemy, EnemyType};
use orxnre::game::Player;
use orxnre::menu::Nav;
use orxnre::style::Color;
use orxnre::text::fill;

fn foe(hp: i32, atk: i32) -> Enemy {
    Enemy::new(hp, hp, atk, 800)
}

#[test]
fn enemy_constructors() {
    let e = Enemy::new_empty();
    assert!(!e.exist);
    assert_eq!((e.max_hp, e.hp, e.atk, e.reward), (0, 0, 0, 0));
    let e = Enemy::new(100, 90, 15, 950);
    assert!(e.exist);
    assert_eq!((e.max_hp, e.hp, e.atk, e.reward), (100, 90, 15, 950));
    match EnemyType::Full(e) {
        EnemyType::Full(x) => assert_eq!(x, e),
        EnemyType::Normal(_) => unreachable!(),
    }
}

#[test]
fn player_strike_hits_enemy() {
    let mut b = Battle::new(Player::new(), foe(100, 12), false);
    b.strike(1);
    assert_eq!(b.enemy.hp, 100 - (20 - 1));
    assert_eq!(b.player.hp, 500);
    assert_eq!(b.log.len(), 1);
    assert_eq!(b.log[0].text, fill("你造成了 21 伤害"));
    assert_eq!(b.log[0].fg, Some(Color::White));
}

#[test]
fn enemy_strike_hits_player() {
    let mut b = Battle::new(Player::new(), foe(100, 12), true);
    b.strike(-1);
    assert_eq!(b.player.hp, 500 - 13);
    assert_eq!(b.enemy.hp, 100);
    assert_eq!(b.log[0].text, fill("敌方造成了 11 伤害"));
    assert_eq!(b.log[0].fg, Some(Color::Yellow));
}

#[test]
fn attack_alternates_turns() {
    let mut b = Battle::new(Player::new(), foe(1000, 12), true);
    b.attack();
    assert!(!b.priority);
    assert!((1000 - 21..=1000 - 19).contains(&b.enemy.hp));
    assert_eq!(b.player.hp, 500);
    b.attack();
    assert!(b.priority);
    assert!((500 - 13..=500 - 11).contains(&b.player.hp));
    assert!(b.march);
    assert_eq!(b.log.len(), 2);
}

#[test]
fn attack_after_the_end_only_logs() {
    let mut b = Battle::new(Player::new(), foe(0, 12), true);
    b.attack();
    assert!(!b.march);
    assert_eq!(b.log[0].text, fill("你征服了敌人 +800KB"));
    assert_eq!(b.log[0].fg, Some(Color::Green));
    let mut p = Player::new();
    p.hp = 0;
    let mut b = Battle::new(p, foe(10, 12), true);
    b.attack();
    assert_eq!(b.log[0].text, "你寄了");
    assert_eq!(b.log[0].fg, Some(Color::Red));
}

#[test]
fn menu_choices_in_battle() {
    let mut b = Battle::new(Player::new(), foe(100, 12), true);
    assert!(b.awaits_key());
    assert_eq!(b.option_label(1), "ATTACK");
    assert!(!b.decide(Nav::Next));
    assert_eq!(b.menu.highlighted, 1);
    assert!(!b.decide(Nav::Select));
    assert_eq!(b.next_action, Action::Attack);
    assert!(b.resolve());
    assert_eq!(b.next_action, Action::Skip);
    assert_eq!(b.option_label(1), "CONTINUE");
    b.decide(Nav::Next);
    assert!(!b.decide(Nav::Select));
    assert_eq!(b.log.last().unwrap().text, fill("你不能走"));
    b.decide(Nav::Prev);
    b.decide(Nav::Prev);
    assert!(b.decide(Nav::Select));
    assert!(b.auto_fight);
    assert!(!b.awaits_key());
    b.decide(Nav::Other);
    assert_eq!(b.next_action, Action::Attack);
}

#[test]
fn automatic_battle_runs_to_the_end() {
    let mut b = Battle::new(Player::new(), foe(100, 12), true);
    b.decide(Nav::Select);
    assert!(b.auto_fight);
    let mut rounds = 0;
    while b.march2 {
        b.start_round();
        b.decide(Nav::Other);
        if !b.resolve() {
            break;
        }
        rounds += 1;
        assert!(rounds < 1000);
    }
    assert!(b.enemy.hp <= 0);
    assert!(b.player.hp > 0);
    assert_eq!(b.next_action, Action::End);
    let (p, e) = b.finish();
    assert!(e.hp <= 0);
    assert!(p.hp >= 500 - 13 * 6);
}

#[test]
fn log_window_and_status() {
    let mut b = Battle::new(Player::new(), foe(100, 12), false);
    assert_eq!(b.log_window(), (0, 8));
    for _ in 0..3 {
        b.strike(0);
    }
    assert_eq!(b.log_window(), (0, 5));
    for _ in 0..7 {
        b.strike(0);
    }
    assert_eq!(b.log_window(), (2, 0));
    assert!(b.enemy.hp < 0);
    let s = b.enemy_status();
    assert_eq!(s.text, "0/100");
    assert_eq!(s.fg, Some(Color::Red));
    let b2 = Battle::new(Player::new(), foe(100, 12), false);
    let s = b2.enemy_status();
    assert_eq!(s.text, "100/100");
    assert_eq!(s.fg, Some(Color::White));
}

#[test]
fn only_the_striking_side_needs_room() {
    // The enemy's attack could not strike without overflow, but the player strikes.
    let mut b = Battle::new(Player::new(), Enemy::new(100, 100, i32::MAX, 1), true);
    b.attack();
    assert!((79..=81).contains(&b.enemy.hp));
}

#[test]
fn next_blow_fits_checks_the_striker() {
    let b = Battle::new(Player::new(), Enemy::new(100, 100, i32::MAX, 1), true);
    assert!(b.next_blow_fits());
    let b = Battle::new(Player::new(), Enemy::new(100, 100, i32::MAX, 1), false);
    assert!(!b.next_blow_fits());
}
