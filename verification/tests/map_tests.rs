use orxnre::battle::{Enemy, EnemyType};
use orxnre::game::{normal_enemy, Act, TileMap};
use orxnre::style::Color;

fn small() -> TileMap {
    TileMap::new(5, 4)
}

#[test]
fn new_map_is_dirt() {
    let m = small();
    assert_eq!(m.measure(), (5, 4));
    assert!(m.id.iter().all(|r| r.len() == 5 && r.iter().all(|&t| t == 0)));
    assert!(m.act.iter().all(|r| r.iter().all(|&a| a == Act::Nothing)));
    assert!(m.entity.iter().all(|r| r.iter().all(|e| *e == Enemy::new_empty())));
}

#[test]
fn set_writes_one_tile() {
    let mut m = small();
    m.set(3, 1, 2).set(4, 0, 0);
    assert_eq!(m.id[1][2], 3);
    assert_eq!(m.id[0][0], 4);
    assert_eq!(m.id[1][1], 0);
}

#[test]
fn explore_finds_treasure_on_the_map_only() {
    let mut m = small();
    m.put_act(2, 3, Act::Gift(250));
    m.put_act(1, 1, Act::Tp(1));
    assert_eq!(m.explore((2, 3)), 250);
    assert_eq!(m.explore((1, 1)), 0);
    assert_eq!(m.explore((0, 0)), 0);
    assert_eq!(m.explore((4, 3)), 0);
    assert_eq!(m.explore((200, 200)), 0);
}

#[test]
fn spawn_normal_and_full() {
    let mut m = small();
    m.spawn(1, 1, EnemyType::Normal(1));
    let e = m.entity[1][1];
    assert!(e.exist);
    assert_eq!((e.max_hp, e.hp, e.atk), (100, 100, 15));
    assert!((950..1150).contains(&e.reward));
    m.spawn(2, 2, EnemyType::Normal(18));
    let e = m.entity[2][2];
    assert_eq!((e.max_hp, e.hp, e.atk), (270, 270, 66));
    assert!((4350..4550).contains(&e.reward));
    let f = Enemy::new(5, 4, 3, 2);
    m.spawn(3, 4, EnemyType::Full(f));
    assert_eq!(m.entity[3][4], f);
    assert_eq!(normal_enemy(2, 1000), Enemy::new(110, 110, 18, 1000));
}

#[test]
fn lay_terrain_follows_mask() {
    let mut m = small();
    let mut mask = vec![vec![false; 5]; 4];
    mask[0][1] = true;
    mask[3][4] = true;
    m.lay_terrain(2, &mask);
    m.lay_terrain(3, &vec![vec![false; 5]; 4]);
    for y in 0..4 {
        for x in 0..5 {
            assert_eq!(m.id[y][x], if mask[y][x] { 2 } else { 0 });
        }
    }
}

#[test]
fn gifts_and_random_tiles() {
    let mut m = TileMap::new(8, 8);
    m.gift_random(300, 200, 40);
    let mut gifts = 0;
    for row in &m.act {
        for a in row {
            match a {
                Act::Gift(g) => {
                    gifts += 1;
                    assert!((200..300).contains(g));
                },
                Act::Nothing => {},
                Act::Tp(_) => panic!("no portal expected"),
            }
        }
    }
    assert!(gifts >= 1 && gifts <= 40);
    let mut m = TileMap::new(8, 8);
    m.set_random(-2, Act::Tp(1));
    let cells: Vec<(usize, usize)> =
        (0..8).flat_map(|y| (0..8).map(move |x| (y, x))).filter(|&(y, x)| m.id[y][x] == -2).collect();
    assert_eq!(cells.len(), 1);
    let (y, x) = cells[0];
    assert_eq!(m.act[y][x], Act::Tp(1));
    let mut m = TileMap::new(8, 8);
    m.set_random(-1, Act::Nothing);
    assert!(m.act.iter().all(|r| r.iter().all(|&a| a == Act::Nothing)));
    assert_eq!(m.id.iter().flatten().filter(|&&t| t == -1).count(), 1);
}

#[test]
fn print_window_around_the_player() {
    let mut m = TileMap::new(10, 10);
    m.set(1, 5, 6);
    m.spawn(4, 5, EnemyType::Full(Enemy::new(1, 1, 1, 1)));
    let out = m.print((5, 5));
    assert_eq!(out.len(), 15 * 31);
    // centre cell: the player
    let c = &out[31 * 7 + 2 * 7];
    assert_eq!((c.text.as_str(), c.fg, c.bg), ("您", Some(Color::Black), Some(Color::White)));
    // right of the player: grass
    let g = &out[31 * 7 + 2 * 8];
    assert_eq!((g.text.as_str(), g.fg), ("草", Some(Color::Rgb(121, 204, 109))));
    // above the player: the enemy
    let e = &out[31 * 6 + 2 * 7];
    assert_eq!((e.text.as_str(), e.bg), ("敌", Some(Color::Rgb(200, 120, 120))));
    // corner of the window: off the map (y = -2)
    let o = &out[0];
    assert_eq!((o.text.as_str(), o.fg, o.bg), ("　", None, None));
    assert_eq!(out[1].text, " ");
    assert_eq!(out[30].text, "\n");
    assert_eq!(out[31 * 14 + 30].text, "\n");
    // (y, x) = (0, 0) is row 2, column 2 of the window
    assert_eq!(out[31 * 2 + 2 * 2].text, "土");
    let text: String = out.iter().map(|s| s.text.as_str()).collect();
    assert_eq!(text.lines().count(), 15);
}

#[test]
fn duplicate_copies_everything() {
    let mut m = small();
    m.set(4, 3, 4);
    m.put_act(0, 1, Act::Gift(7));
    let d = m.duplicate();
    assert_eq!(d.id, m.id);
    assert_eq!(d.act, m.act);
    assert_eq!(d.entity, m.entity);
}

#[test]
fn explore_on_a_map_of_256_rows() {
    let mut m = TileMap::new(1, 256);
    m.put_act(0, 0, Act::Gift(7));
    m.put_act(255, 0, Act::Gift(9));
    assert_eq!(m.explore((0, 0)), 7);
    assert_eq!(m.explore((255, 0)), 9);
    assert_eq!(m.explore((0, 1)), 0);
}

#[test]
fn gift_random_edge_cases() {
    let mut m = TileMap::new(1, 1);
    m.gift_random(6, 5, 3);
    assert_eq!(m.act, vec![vec![Act::Gift(5)]]);
    let mut m = TileMap::new(1, 1);
    m.gift_random(0, 0, 0);
    assert_eq!(m.act, vec![vec![Act::Nothing]]);
    let mut m = TileMap::new(10, 10);
    m.gift_random(300, 200, 3);
    let changed = m.act.iter().flatten().filter(|a| **a != Act::Nothing).count();
    assert!(changed >= 1 && changed <= 3);
}

#[test]
fn smaller_mask_paints_fewer_cells() {
    let base = TileMap::new(4, 4);
    let large: Vec<Vec<bool>> = (0..4).map(|y| (0..4).map(|x| (x + y) % 2 == 0).collect()).collect();
    let small: Vec<Vec<bool>> = (0..4).map(|y| (0..4).map(|x| (x + y) % 4 == 0).collect()).collect();
    let mut a = base.duplicate();
    a.lay_terrain(3, &small);
    let mut b = base.duplicate();
    b.lay_terrain(3, &large);
    for y in 0..4 {
        for x in 0..4 {
            if a.id[y][x] == 3 {
                assert_eq!(b.id[y][x], 3);
            }
        }
    }
}
