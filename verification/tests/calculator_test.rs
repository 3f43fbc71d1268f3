use mahjong_core::calculator::expression::{Calculator, Verify};

fn eval(exp: &str) -> Option<mahjong_core::calculator::expression::Report> {
    let mut c = Calculator::new(false);
    c.parse(exp).unwrap();
    c.run()
}

fn names(rep: &mahjong_core::calculator::expression::Report) -> Vec<(String, usize)> {
    rep.context.yakus.clone()
}

#[test]
fn pinfu_tsumo_non_dealer() {
    // m234 p345 s678 s789 ww, drawing s8, south seat in the east round
    let rep = eval("m234p345s67789z33s8/E1S").unwrap();
    assert_eq!(rep.context.fu, 20);
    assert_eq!(rep.context.fan, 2);
    assert_eq!(rep.context.yakuman_times, 0);
    assert_eq!(rep.context.points, (0, 400, 700));
    assert_eq!(rep.score, 1500);
    assert_eq!(
        names(&rep),
        vec![("門前清自摸和".to_string(), 1), ("平和".to_string(), 1)]
    );
    assert_eq!(rep.verify, Verify::Skip);
}

#[test]
fn riichi_ippatsu_tsumo_tanyao_dora() {
    let rep = eval("m234p345p57s23455p6/E1S,m1/立直,一発/30,5,8000").unwrap();
    assert_eq!(rep.context.fan, 5);
    assert_eq!(rep.context.fu, 30);
    assert_eq!(rep.score, 8000);
    assert_eq!(rep.context.score_title, "満貫");
    assert_eq!(rep.verify, Verify::Match);
}

#[test]
fn kokushi_thirteen_wait_is_double_yakuman() {
    let rep = eval("m19p19s19z12345677+/E1S").unwrap();
    assert_eq!(rep.context.yakuman_times, 2);
    assert_eq!(rep.context.points.0, 64000);
    assert_eq!(rep.context.score_title, "二倍役満");
}

#[test]
fn kokushi_single_wait_is_single_yakuman() {
    let rep = eval("m19p19s19z1123456z7+/E1S");
    let rep = rep.unwrap();
    assert_eq!(rep.context.yakuman_times, 1);
}

#[test]
fn no_yaku_is_no_win() {
    // open hand without any yaku
    assert!(eval("m234p345s678z33m1m1+,s789+/E1S").is_none());
}

#[test]
fn dora_alone_is_no_win() {
    assert!(eval("m234p456s678z33m99+,s789+/E1S,m8").is_none());
}
