use orxnre::battle::{Enemy, EnemyType};
use orxnre::game::{hint_text, populate, Act, Arrival, Command, Game, Hint, KeyEffect, Player, TileMap};

fn two_maps() -> Vec<TileMap> {
    let mut a = TileMap::new(8, 8);
    let mut b = TileMap::new(8, 8);
    a.set(-1, 0, 3);
    a.set(-2, 2, 0);
    a.put_act(2, 0, Act::Tp(1));
    a.set(-2, 3, 3);
    a.spawn(1, 0, EnemyType::Full(Enemy::new(30, 30, 5, 900)));
    a.put_act(0, 1, Act::Gift(250));
    b.set(-2, 0, 1);
    b.put_act(0, 1, Act::Tp(0));
    b.set(2, 1, 1);
    vec![a, b]
}

#[test]
fn new_game_starts_on_first_map() {
    let g = Game::new(two_maps(), false);
    assert_eq!(g.player.position, (0, 0));
    assert_eq!(g.player.money, 0);
    assert_eq!((g.local, g.goto), (0, 0));
    assert_eq!(g.map.id[0][3], -1);
    let g = Game::new(two_maps(), true);
    assert_eq!(g.player.money, 9999999);
    assert_eq!(g.player.money_convert(), "9.54GB");
}

#[test]
fn movement_keys_and_walls() {
    let mut g = Game::new(two_maps(), false);
    assert_eq!(g.key(Command::Up), KeyEffect::Go(255, 0));
    assert_eq!(g.enter(255, 0), Arrival::Stay);
    assert_eq!(g.key(Command::Left), KeyEffect::Go(0, 255));
    assert_eq!(g.key(Command::Right), KeyEffect::Go(0, 1));
    assert_eq!(g.enter(0, 1), Arrival::Moved);
    assert_eq!(g.player.position, (0, 1));
    assert_eq!(g.key(Command::Down), KeyEffect::Go(1, 1));
    assert_eq!(g.key(Command::Exit), KeyEffect::Exit);
    assert_eq!(g.key(Command::Bag), KeyEffect::OpenBag);
    assert_eq!(g.key(Command::Other), KeyEffect::Go(0, 1));
    assert_eq!(g.hint, Hint::Blank);
    g.key(Command::Help);
    assert_eq!(g.hint, Hint::Help);
}

#[test]
fn treasure_is_dug_up_once() {
    let mut g = Game::new(two_maps(), false);
    g.enter(0, 1);
    g.key(Command::Explore);
    assert_eq!(g.player.money, 250);
    assert_eq!(g.hint, Hint::Treasure(250));
    assert_eq!(g.map.act[0][1], Act::Gift(0));
    g.key(Command::Explore);
    assert_eq!(g.player.money, 250);
    assert_eq!(g.hint, Hint::Empty);
}

#[test]
fn tilling_needs_a_hoe_and_soil() {
    let mut g = Game::new(two_maps(), false);
    g.key(Command::Till);
    assert_eq!(g.hint, Hint::NoHoe);
    assert_eq!(g.map.id[0][0], 0);
    let mut p = Player::new();
    p.bag.insert(3, 1);
    g.resume(p);
    g.key(Command::Till);
    assert_eq!(g.hint, Hint::Tilled);
    assert_eq!(g.map.id[0][0], 5);
    g.key(Command::Till);
    assert_eq!(g.hint, Hint::CannotTill);
}

#[test]
fn shop_portal_and_enemy_stop_the_player() {
    let mut g = Game::new(two_maps(), false);
    assert_eq!(g.enter(0, 3), Arrival::Shop);
    assert_eq!(g.player.position, (0, 0));
    assert_eq!(g.enter(1, 0), Arrival::Fight(1, 0));
    assert_eq!(g.player.position, (0, 0));
    // a portal tile without a destination does nothing
    assert_eq!(g.enter(3, 3), Arrival::Stay);
    assert_eq!(g.enter(2, 0), Arrival::Portal);
    assert_eq!(g.goto, 1);
    assert_eq!(g.player.position, (0, 0));
    g.switch_map();
    assert_eq!(g.local, 1);
    assert_eq!(g.map.id[1][1], 2);
    assert_eq!(g.map.id[0][1], -2);
    assert_eq!(g.enter(0, 1), Arrival::Portal);
    assert_eq!(g.goto, 0);
    g.switch_map();
    assert_eq!(g.local, 0);
    assert_eq!(g.map.id[0][3], -1);
}

#[test]
fn returning_to_a_map_reloads_it() {
    let mut g = Game::new(two_maps(), false);
    g.enter(0, 1);
    g.key(Command::Explore);
    assert_eq!(g.map.act[0][1], Act::Gift(0));
    g.goto = 1;
    g.switch_map();
    g.goto = 0;
    g.switch_map();
    assert_eq!(g.map.act[0][1], Act::Gift(250));
}

#[test]
fn outcome_of_fights() {
    let mut g = Game::new(two_maps(), false);
    let mut p = Player::new();
    p.hp = 400;
    let e = Enemy::new(30, 10, 5, 900);
    assert!(g.finish_fight(1, 0, p, e));
    assert_eq!(g.player.hp, 400);
    assert_eq!(g.map.entity[1][0].hp, 10);
    let p = Player::new();
    let e = Enemy::new(30, -2, 5, 900);
    assert!(g.finish_fight(1, 0, p, e));
    assert_eq!(g.player.money, 900);
    assert!(!g.map.entity[1][0].exist);
    let mut p = Player::new();
    p.hp = 0;
    assert!(!g.finish_fight(1, 0, p, Enemy::new(30, 10, 5, 900)));
}

#[test]
fn hints_text() {
    let s = " ".repeat(42);
    let ss = " ".repeat(55);
    assert_eq!(hint_text(Hint::Blank), format!("{ss}\n{ss}"));
    assert_eq!(hint_text(Hint::Help), "H > WASD 移动 E 探索 Q 背包 H 提示 P 耕地 Esc 退出游戏");
    assert_eq!(hint_text(Hint::Treasure(250)), format!("E > 找到了宝藏 +250KB{s}"));
    assert_eq!(hint_text(Hint::Empty), format!("E > 空空如也{s}"));
    assert_eq!(hint_text(Hint::Tilled), format!("P > 耕地成功{s}"));
    assert_eq!(hint_text(Hint::CannotTill), format!("P > 此处无法耕地{s}"));
    assert_eq!(hint_text(Hint::NoHoe), format!("P > 没有锄{s}"));
}

#[test]
fn populated_maps() {
    let mut a = TileMap::new(64, 64);
    let mut b = TileMap::new(64, 64);
    populate(&mut a, &mut b);
    let count = |m: &TileMap, t: i8| m.id.iter().flatten().filter(|&&x| x == t).count();
    assert!(count(&a, -1) <= 1);
    assert_eq!(count(&a, -2), 1);
    assert_eq!(count(&b, -2), 1);
    let enemies_a = a.entity.iter().flatten().filter(|e| e.exist).count();
    assert!(enemies_a >= 1 && enemies_a <= 48);
    for e in a.entity.iter().flatten().filter(|e| e.exist) {
        assert_eq!((e.max_hp, e.atk), (100, 15));
    }
    let enemies_b: Vec<&Enemy> = b.entity.iter().flatten().filter(|e| e.exist).collect();
    assert!(enemies_b.len() >= 1 && enemies_b.len() <= 5);
    for e in enemies_b {
        assert!([150, 180, 210, 240, 270].contains(&e.max_hp));
    }
    for row in &b.act {
        for act in row {
            match act {
                Act::Gift(g) => assert!((200..6000).contains(g)),
                Act::Tp(d) => assert_eq!(*d, 0),
                Act::Nothing => {},
            }
        }
    }
    let gifts = |m: &TileMap| m.act.iter().flatten().filter(|a| matches!(a, Act::Gift(_))).count();
    assert!(gifts(&a) >= 1);
    assert!(gifts(&b) >= 1);
    let g = Game::new(vec![a, b], false);
    assert_eq!(g.map_list.len(), 2);
}

#[test]
fn overflow_checks() {
    let mut g = Game::new(two_maps(), false);
    assert!(g.treasure_fits());
    g.enter(0, 1);
    let mut p = Player::new();
    p.position = g.player.position;
    p.money = i32::MAX - 100;
    g.resume(p);
    assert!(!g.treasure_fits());
    let mut p = Player::new();
    p.money = i32::MAX;
    assert!(Game::reward_fits(&p, &Enemy::new(1, 5, 1, 900)));
    assert!(!Game::reward_fits(&p, &Enemy::new(1, 0, 1, 900)));
    p.hp = 0;
    assert!(Game::reward_fits(&p, &Enemy::new(1, 0, 1, 900)));
}

#[test]
fn populate_changes_a_bounded_number_of_cells() {
    let mut a = TileMap::new(64, 64);
    let mut b = TileMap::new(64, 64);
    populate(&mut a, &mut b);
    let enemies = |m: &TileMap| m.entity.iter().flatten().filter(|e| e.exist).count();
    let acts = |m: &TileMap| m.act.iter().flatten().filter(|x| **x != Act::Nothing).count();
    assert!(enemies(&a) <= 48 && enemies(&b) <= 5);
    assert!(acts(&a) <= 401 && acts(&b) <= 41);
}
