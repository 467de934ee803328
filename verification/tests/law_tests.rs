use orxnre::battle::{Battle, Enemy};
use orxnre::game::{Player, TileMap};
use orxnre::menu::Nav;
use orxnre::shop::Shop;
use orxnre::text::{hundredths_of, int_string};

#[test]
fn decimal_text_reads_back() {
    for n in [0i64, 5, 10, 99, 100, 12345, 9999999, i64::MAX] {
        assert_eq!(int_string(n).parse::<i64>().unwrap(), n);
    }
}

#[test]
fn two_decimals_are_nearest() {
    for n in 0..5000u64 {
        for d in [1024u64, 1048576, 7, 3] {
            let h = hundredths_of(n, d) as i128;
            let err = 2 * (h * d as i128 - 100 * n as i128);
            assert!(-(d as i128) <= err && err <= d as i128);
        }
    }
}

#[test]
fn purchase_trades_price_for_health() {
    for money in [0, 299, 300, 301, 2047, 2048, 10000] {
        let mut p = Player::new();
        p.money = money;
        let mut s = Shop::open(p);
        s.press(Nav::Next);
        s.press(Nav::Select);
        let p = s.close();
        assert!(p.money >= 0);
        assert_eq!(p.money + if money >= 300 { 300 } else { 0 }, money);
        assert_eq!(p.hp, if money >= 300 { 515 } else { 500 });
    }
}

#[test]
fn blows_stay_near_the_attack() {
    for _ in 0..200 {
        let mut b = Battle::new(Player::new(), Enemy::new(10000, 10000, 30, 1), true);
        b.attack();
        let lost = 10000 - b.enemy.hp;
        assert!((19..=21).contains(&lost));
        b.attack();
        let lost = 500 - b.player.hp;
        assert!((29..=31).contains(&lost));
    }
}

#[test]
fn a_cell_reads_back_what_was_written() {
    let mut m = TileMap::new(6, 6);
    m.put_tile(2, 3, 4);
    assert_eq!(m.id[2][3], 4);
    for y in 0..6 {
        for x in 0..6 {
            if (y, x) != (2, 3) {
                assert_eq!(m.id[y][x], 0);
            }
        }
    }
}
