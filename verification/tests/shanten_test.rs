use mahjong_core::calculator::parse::tiles_from_string;
use mahjong_core::hand::shanten::{calc_shanten, least, Taken};
use mahjong_core::hand::shape::{is_winning, winning_tiles};
use mahjong_core::model::tile::Tile;
use mahjong_core::model::tile::TileTable;

fn table_of(s: &str) -> TileTable {
    let mut h: TileTable = [[0; 10]; 4];
    for t in tiles_from_string(s).unwrap() {
        h[t.0][t.1] += 1;
        if t.1 == 0 {
            h[t.0][5] += 1;
        }
    }
    h
}

#[test]
fn a_winning_hand_is_at_minus_one() {
    assert_eq!(calc_shanten(&table_of("m123456789p123s11"), 0), -1);
    assert_eq!(calc_shanten(&table_of("m1133557799p1122"), 0), -1);
    assert_eq!(calc_shanten(&table_of("m19p19s19z12345677"), 0), -1);
    assert_eq!(calc_shanten(&table_of("m123p11"), 3), -1);
}

#[test]
fn a_waiting_hand_is_at_zero() {
    assert_eq!(calc_shanten(&table_of("m123456789p12s11"), 0), 0);
    assert_eq!(calc_shanten(&table_of("m123456789p123s1"), 0), 0);
    assert_eq!(calc_shanten(&table_of("m113355779p1122"), 0), 0);
    assert_eq!(calc_shanten(&table_of("m19p19s19z1234567"), 0), 0);
    assert_eq!(calc_shanten(&table_of("p1"), 4), 0);
}

#[test]
fn hands_farther_from_a_win() {
    assert_eq!(calc_shanten(&table_of("m123456789p13s19"), 0), 1);
    assert_eq!(calc_shanten(&table_of("m147p258s369z1234"), 0), 6);
    assert_eq!(calc_shanten(&table_of("m1258p1469s257z12"), 0), 5);
    assert_eq!(calc_shanten(&table_of("m1199p1199s1199z1"), 0), 0);
    assert_eq!(calc_shanten(&table_of("m19p19s19z1234566"), 0), 0);
    assert_eq!(calc_shanten(&table_of("m19p19s19z1234555"), 0), 1);
}

#[test]
fn four_equal_tiles_are_one_kind_of_pair() {
    assert_eq!(calc_shanten(&table_of("m1111223344556"), 0), 0);
    assert_eq!(calc_shanten(&table_of("m1111p2222s3333z1"), 0), 2);
}

#[test]
fn an_empty_hand_counts_only_its_melds() {
    let h: TileTable = [[0; 10]; 4];
    assert_eq!(calc_shanten(&h, 0), 8);
    assert_eq!(calc_shanten(&h, 4), 0);
    let got = Taken { sets: 2, parts: 1, pair: true };
    assert_eq!(least(&h, 0, 0, got), 2);
}

#[test]
fn minus_one_exactly_on_winning_shapes() {
    let hands = [
        "m123456789p123s11",
        "m123456789p123s12",
        "m1133557799p1122",
        "m1111335577p1122",
        "m19p19s19z12345677",
        "m119p19s19z1234567",
        "m129p19s19z1234567",
        "m11122233344455",
        "m11223344556677",
        "p2345678s345z1112",
        "m0555p123s123z1166",
    ];
    for text in hands {
        let h = table_of(text);
        assert_eq!(calc_shanten(&h, 0) == -1, is_winning(&h), "{}", text);
    }
}

#[test]
fn the_waits_are_the_tiles_that_bring_the_hand_to_minus_one() {
    let hands = [
        ("m123456789p12s11", 0),
        ("m1112345678999", 0),
        ("m113355779p1122", 0),
        ("m19p19s19z1234567", 0),
        ("p23456s11", 2),
        ("z1", 4),
        ("m147p258s369z1234", 0),
    ];
    for (text, melds) in hands {
        let h = table_of(text);
        let waits = winning_tiles(&h);
        for s in 0..4 {
            for r in 1..10 {
                if s == 3 && r > 7 {
                    continue;
                }
                let mut with_tile = h;
                with_tile[s][r] += 1;
                let at_win = calc_shanten(&with_tile, melds) == -1;
                assert_eq!(at_win, waits.contains(&Tile(s, r)), "{} with {}{}", text, s, r);
            }
        }
    }
}
