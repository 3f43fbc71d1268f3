use mahjong_core::calculator::expression::{Calculator, Report, Verify};
use mahjong_core::hand::evaluate::evaluate_hand;
use mahjong_core::hand::shape::{
    calc_regular_ways, check_seven_pairs, check_thirteen_orphans, is_winning, is_winning_with,
    split_from, winning_tiles, PieceKind,
};
use mahjong_core::hand::win::YakuFlags;
use mahjong_core::model::tile::{Tile, TileTable};

fn table(s: &str) -> TileTable {
    let mut c = Calculator::new(false);
    c.parse(s).unwrap();
    c.hand
}

fn eval(exp: &str) -> Option<Report> {
    let mut c = Calculator::new(false);
    c.parse(exp).unwrap();
    c.run()
}

fn fan_of(rep: &Report, name: &str) -> Option<usize> {
    rep.context.yakus.iter().find(|y| y.0 == name).map(|y| y.1)
}

#[test]
fn splits_of_a_suit() {
    let h = table("m111222333");
    let ways = split_from(&h, 0, 9);
    assert_eq!(ways.len(), 2);
    assert!(ways[0].iter().all(|p| p.kind == PieceKind::Triplet));
    assert!(ways[1].iter().all(|p| p.kind == PieceKind::Run && p.rank == 1));
    assert_eq!(split_from(&table("m1234"), 0, 4).len(), 0);
    assert_eq!(split_from(&table("z111"), 0, 3).len(), 1);
    assert_eq!(split_from(&table("z123"), 0, 3).len(), 0);
    assert_eq!(split_from(&table("m789p123"), 0, 6).len(), 1);
    assert_eq!(split_from(&table("m891"), 0, 3).len(), 0);
}

#[test]
fn winning_shapes() {
    assert!(is_winning(&table("m123456789p123z11")));
    assert!(!is_winning(&table("m123456789p123z12")));
    assert!(is_winning(&table("m11p22s33z1122334")) == false);
    assert!(is_winning(&table("m11p22s33z11223344")));
    assert!(check_seven_pairs(&table("m11p22s33z11223344")));
    assert!(!check_seven_pairs(&table("m1111p22s33z112233")));
    assert!(check_thirteen_orphans(&table("m19p19s19z12345677")));
    assert!(!check_thirteen_orphans(&table("m19p19s19z12345678")));
    assert!(is_winning(&table("m055")) == false);
    assert!(is_winning(&table("m05")));
    assert_eq!(calc_regular_ways(&table("m11122233344455")).len(), 4);
}

#[test]
fn tiles_that_complete_a_hand() {
    assert_eq!(winning_tiles(&table("m123456789p45z11")), vec![Tile(1, 3), Tile(1, 6)]);
    assert_eq!(
        winning_tiles(&table("m1112345678999")),
        (1..=9).map(|n| Tile(0, n)).collect::<Vec<_>>()
    );
    assert_eq!(winning_tiles(&table("m19p19s19z1234567")).len(), 13);
    assert_eq!(winning_tiles(&table("m19p19s19z1234566")), vec![Tile(3, 7)]);
    assert_eq!(winning_tiles(&table("m11p22s33z112233z4")), vec![Tile(3, 4)]);
    assert_eq!(winning_tiles(&table("m1358p2468s1357z1")), vec![]);
    assert!(is_winning_with(&table("m123456789p45z11"), Tile(1, 6)));
    assert!(!is_winning_with(&table("m123456789p45z11"), Tile(1, 4)));
    assert_eq!(winning_tiles(&table("m1")), vec![Tile(0, 1)]);
}

#[test]
fn fu_of_waits_and_sets() {
    // closed ron: pinfu shape is 30 fu
    let rep = eval("m234p345s67789z33s8+/E1S/立直").unwrap();
    assert_eq!((rep.context.fu, rep.context.fan), (30, 2));
    // middle wait and a closed triplet of honors: 20 + 10 + 2 + 8 = 40
    let rep = eval("m234p345s68z33z444s7+/E1S/立直").unwrap();
    assert_eq!(rep.context.fu, 40);
    // tsumo with an open pon of simples and the pair of the seat wind: 20 + 2 + 2 + 2 = 26
    let rep = eval("m234p345z22s55s5,s888+/E1S/嶺上開花").unwrap();
    assert_eq!(rep.context.fu, 30);
    // an open hand that wins by ron without any fu has 30
    let rep = eval("m234p345s67z33s8+,s234+/E1S/河底撈魚").unwrap();
    assert_eq!(rep.context.fu, 30);
    // a concealed quad of terminals: 20 + 32 + 2 (tsumo) + 2 (pair wait) = 56
    let rep = eval("m234p345s67s8z3z3,m1111/E1S").unwrap();
    assert_eq!(rep.context.fu, 60);
    assert_eq!(fan_of(&rep, "門前清自摸和"), Some(1));
}

#[test]
fn yaku_of_the_hand() {
    let rep = eval("m234p234s234m66p88p8+/E1S").unwrap();
    assert_eq!(fan_of(&rep, "三色同順"), Some(2));
    assert_eq!(fan_of(&rep, "断幺九"), Some(1));
    let rep = eval("m123456789p11z555+/E1S").unwrap();
    assert_eq!(fan_of(&rep, "一気通貫"), Some(2));
    assert_eq!(fan_of(&rep, "役牌"), Some(1));
    let rep = eval("m123456789p11z11z1+/E1E").unwrap();
    assert_eq!(fan_of(&rep, "役牌"), Some(2));
    let rep = eval("m223344p556677z1z1+/E1S").unwrap();
    assert_eq!(fan_of(&rep, "二盃口"), Some(3));
    assert_eq!(fan_of(&rep, "一盃口"), None);
    let rep = eval("m223344p567s678z1z1+/E1S").unwrap();
    assert_eq!(fan_of(&rep, "一盃口"), Some(1));
    let rep = eval("m111p111s111z22m99m9+/E1S").unwrap();
    assert_eq!(fan_of(&rep, "三色同刻"), Some(2));
    assert_eq!(fan_of(&rep, "対々和"), Some(2));
    assert_eq!(fan_of(&rep, "三暗刻"), Some(2));
    assert_eq!(fan_of(&rep, "混老頭"), Some(2));
    let rep = eval("m123789p123z11s99s9+/E1S").unwrap();
    assert_eq!(fan_of(&rep, "混全帯幺九"), Some(2));
    let rep = eval("m123789p123s11s999+/E1S").unwrap();
    assert_eq!(fan_of(&rep, "純全帯幺九"), Some(3));
    let rep = eval("m123456789z11z222+/E1S").unwrap();
    assert_eq!(fan_of(&rep, "混一色"), Some(3));
    let rep = eval("m123456789m22m333+/E1S").unwrap();
    assert_eq!(fan_of(&rep, "清一色"), Some(6));
    assert_eq!(fan_of(&rep, "一気通貫"), Some(2));
    let rep = eval("m123p123z555z66z777+/E1S").unwrap();
    assert_eq!(fan_of(&rep, "小三元"), Some(2));
    let rep = eval("m234p345s66s88s8+,p666+/E1S").unwrap();
    assert_eq!(fan_of(&rep, "断幺九"), Some(1));
    assert_eq!(fan_of(&rep, "役牌"), None);
    assert_eq!((rep.context.fu, rep.context.fan), (30, 1));
    assert_eq!(rep.context.points.0, 1000);
    let rep = eval("m11p22s33z11223344/E1S").unwrap();
    assert_eq!(fan_of(&rep, "七対子"), Some(2));
    assert_eq!(rep.context.fu, 25);
    assert_eq!(rep.context.points, (0, 800, 1600));
    // open hands count one fan less for some yaku
    let rep = eval("m123456p11z55z5+,m789+/E1S").unwrap();
    assert_eq!(fan_of(&rep, "一気通貫"), Some(1));
}

#[test]
fn yakuman_of_the_hand() {
    // a ron on the third tile of a triplet leaves three concealed triplets
    let rep = eval("m111p222s333z55z444+/E1S").unwrap();
    assert_eq!(rep.context.yakuman_times, 0);
    assert_eq!(fan_of(&rep, "三暗刻"), Some(2));
    let rep = eval("m111p222s333z55z444/E1S").unwrap();
    assert_eq!(rep.context.yakuman_times, 1);
    assert_eq!(rep.context.yakus, vec![("四暗刻".to_string(), 1)]);
    assert_eq!(rep.context.fan, 0);
    let rep = eval("m111p222s333z4445z5+/E1S").unwrap();
    assert_eq!(rep.context.yakuman_times, 2);
    let rep = eval("m11z555666777p123+/E1S").unwrap();
    assert_eq!(rep.context.yakus, vec![("大三元".to_string(), 1)]);
    let rep = eval("z11122233344m111/E1S").unwrap();
    assert!(rep.context.yakus.contains(&("小四喜".to_string(), 1)));
    let rep = eval("z11122233355z444+/E1S").unwrap();
    assert!(rep.context.yakus.contains(&("大四喜".to_string(), 2)));
    assert!(rep.context.yakus.contains(&("字一色".to_string(), 1)));
    assert_eq!(rep.context.yakuman_times, 3);
    assert_eq!(rep.context.score_title, "三倍役満");
    let rep = eval("m111999p111s99s111+/E1S").unwrap();
    assert_eq!(rep.context.yakus, vec![("清老頭".to_string(), 1)]);
    let rep = eval("s22334466888z666+/E1S").unwrap();
    assert_eq!(rep.context.yakus, vec![("緑一色".to_string(), 1)]);
    let rep = eval("m11123456789995+/E1S").unwrap();
    assert_eq!(rep.context.yakus, vec![("九蓮宝燈".to_string(), 2)]);
    let rep = eval("m11123456789959+/E1S").unwrap();
    assert_eq!(rep.context.yakus, vec![("九蓮宝燈".to_string(), 1)]);
    let rep = eval("m1m1+,m2222,p3333,s4444+,z5555+/E1S").unwrap();
    assert!(rep.context.yakus.contains(&("四槓子".to_string(), 1)));
    let rep = eval("m234p345s67789z33s8/E1E/天和").unwrap();
    assert_eq!(rep.context.yakus, vec![("天和".to_string(), 1)]);
    assert_eq!(rep.context.points, (0, 16000, 0));
    assert_eq!(rep.score, 48000);
}

#[test]
fn dora_count_but_are_no_yaku() {
    let plain = eval("m234p345p57s23455p6/E1S").unwrap();
    assert_eq!(plain.context.fan, 2);
    let with_dora = eval("m234p345p57s23455p6/E1S,m1").unwrap();
    assert_eq!(with_dora.context.fan, 3);
    assert_eq!(fan_of(&with_dora, "ドラ"), Some(1));
    let with_two = eval("m234p345p57s23455p6/E1S,m1s4").unwrap();
    assert_eq!(with_two.context.fan, 5);
    // ura dora count in riichi only
    let ura = eval("m234p345p57s23455p6/E1S,m1,m1").unwrap();
    assert_eq!(ura.context.fan, 3);
    let ura = eval("m234p345p57s23455p6/E1S,m1,m1/立直").unwrap();
    assert_eq!(ura.context.fan, 5);
    assert_eq!(fan_of(&ura, "裏ドラ"), Some(1));
    // red fives
    let red = eval("m234p340p57s23455p6/E1S").unwrap();
    assert_eq!(fan_of(&red, "赤ドラ"), Some(1));
    // the indicator of the last rank points at the first
    let wrap = eval("m123p345p57s23455p6/E1S,m9/立直").unwrap();
    assert_eq!(fan_of(&wrap, "ドラ"), Some(1));
    let honor = eval("m123p345p57s234z22p6/E1S,z1/立直").unwrap();
    assert_eq!(fan_of(&honor, "ドラ"), Some(2));
    let dragon = eval("m123p345p57s234z55p6/E1S,z7/立直").unwrap();
    assert_eq!(fan_of(&dragon, "ドラ"), Some(2));
}

#[test]
fn limits_by_fan() {
    let title = |exp: &str| eval(exp).unwrap().context.score_title;
    assert_eq!(title("m234p345p57s23455p6/E1S"), "");
    assert_eq!(title("m123345678m55m999+/E1S"), "跳満");
    assert_eq!(title("m123345678m55m999+/E1S/立直,一発"), "倍満");
    assert_eq!(title("m123345678m55m999+/E1S,m8/立直,一発"), "三倍満");
    assert_eq!(title("m123345678m55m999+/E1S,m8m8/立直,一発"), "数え役満");
    assert_eq!(title("m234p345s67789z33s8+/E1S/立直,一発"), "");
    assert_eq!(title("m234p345s67789z33s8+/E1S,s7/立直,一発"), "満貫");
    let rep = eval("m123345678m55m999+/E1S,m8m8/立直,一発").unwrap();
    assert_eq!(rep.context.points.0, 32000);
    assert_eq!(rep.context.yakuman_times, 0);
}

#[test]
fn evaluation_by_plain_values() {
    let hand = table("m234p345s67789z33s8");
    let flags = YakuFlags { menzentsumo: true, ..YakuFlags::none() };
    let ctx = evaluate_hand(&hand, &vec![], &vec![], &vec![], Tile(2, 8), true, false, 1, 2, &flags)
        .unwrap();
    assert_eq!((ctx.fu, ctx.fan, ctx.points), (20, 2, (0, 400, 700)));
    // the same tiles are no win without any yaku
    let ctx = evaluate_hand(
        &hand,
        &vec![],
        &vec![Tile(0, 1)],
        &vec![],
        Tile(2, 6),
        false,
        false,
        1,
        2,
        &YakuFlags::none(),
    );
    assert!(ctx.is_some());
    let hand = table("m234p345s67999z33s8");
    let ctx = evaluate_hand(
        &hand,
        &vec![],
        &vec![Tile(0, 1)],
        &vec![],
        Tile(2, 8),
        false,
        false,
        1,
        2,
        &YakuFlags::none(),
    );
    assert!(ctx.is_none());
}

#[test]
fn verify_compares_with_the_numbers_given() {
    assert_eq!(eval("m234p345s67789z33s8/E1S//20,2,1500").unwrap().verify, Verify::Match);
    assert_eq!(eval("m234p345s67789z33s8/E1S//20,2,1600").unwrap().verify, Verify::Mismatch);
    assert_eq!(eval("m234p345s67789z33s8/E1S//30,2,1500").unwrap().verify, Verify::Mismatch);
    assert_eq!(eval("m234p345s67789z33s8/E1S//20,2,0").unwrap().verify, Verify::Skip);
    assert_eq!(eval("m19p19s19z12345677+/E1S//0,0,64000").unwrap().verify, Verify::Match);
    assert_eq!(Verify::Match.word(), "ok");
    assert_eq!(Verify::Mismatch.word(), "error");
    assert_eq!(Verify::Skip.word(), "skip");
}
