use mahjong_core::calculator::app::{is_skipped, print_usage, CalculatorApp, Request};
use mahjong_core::calculator::expression::{read_numbers, Calculator, Verify};
use mahjong_core::calculator::parse::{meld_from_string, tiles_from_string, wind_from_char};
use mahjong_core::model::meld::MeldType;
use mahjong_core::model::tile::Tile;

fn args(v: &[&str]) -> Vec<String> {
    v.iter().map(|s| s.to_string()).collect()
}

fn parse_error(exp: &str) -> String {
    let mut c = Calculator::new(false);
    c.parse(exp).unwrap_err()
}

#[test]
fn tile_strings() {
    assert_eq!(
        tiles_from_string("m12p0z7").unwrap(),
        vec![Tile(0, 1), Tile(0, 2), Tile(1, 0), Tile(3, 7)]
    );
    assert_eq!(tiles_from_string("").unwrap(), vec![]);
    assert_eq!(tiles_from_string("mps").unwrap(), vec![]);
    assert_eq!(tiles_from_string("1m").unwrap_err(), "tile number befor tile type");
    assert_eq!(tiles_from_string("m1x2").unwrap_err(), "invalid char: 'x'");
    assert_eq!(tiles_from_string("m1+").unwrap_err(), "invalid char: '+'");
    assert_eq!(tiles_from_string("x1").unwrap_err(), "invalid char: 'x'");
}

#[test]
fn wind_letters() {
    assert_eq!(wind_from_char('E'), Ok(1));
    assert_eq!(wind_from_char('S'), Ok(2));
    assert_eq!(wind_from_char('W'), Ok(3));
    assert_eq!(wind_from_char('N'), Ok(4));
    assert_eq!(wind_from_char('e'), Err("invalid wind symbol: e".to_string()));
}

#[test]
fn meld_strings() {
    let m = meld_from_string("m12+3", 1).unwrap();
    assert_eq!(m.type_, MeldType::Chi);
    assert_eq!(m.tiles, vec![Tile(0, 1), Tile(0, 2), Tile(0, 3)]);
    assert_eq!(m.froms, vec![1, 2, 1]);
    assert_eq!((m.step, m.seat), (0, 1));
    let m = meld_from_string("p3+12", 0).unwrap();
    assert_eq!(m.type_, MeldType::Chi);
    assert_eq!(m.froms, vec![1, 0, 0]);
    let m = meld_from_string("z555+", 0).unwrap();
    assert_eq!(m.type_, MeldType::Pon);
    assert_eq!(m.froms, vec![0, 0, 3]);
    let m = meld_from_string("s5505+", 2).unwrap();
    assert_eq!(m.type_, MeldType::Minkan);
    assert_eq!(m.tiles, vec![Tile(2, 5), Tile(2, 5), Tile(2, 0), Tile(2, 5)]);
    assert_eq!(m.froms, vec![2, 2, 2, 0]);
    let m = meld_from_string("z1111", 2).unwrap();
    assert_eq!(m.type_, MeldType::Ankan);
    // the donor is the count of tiles so far: the fourth tile of seat 0 comes from seat 0
    let m = meld_from_string("z1111+", 0).unwrap();
    assert_eq!(m.type_, MeldType::Ankan);
    assert_eq!(meld_from_string("m124", 0).unwrap_err(), "invalid meld: 'm124'");
    assert_eq!(meld_from_string("m12", 0).unwrap_err(), "invalid meld: 'm12'");
    assert_eq!(meld_from_string("m", 0).unwrap_err(), "invalid meld: 'm'");
    assert_eq!(meld_from_string("", 0).unwrap_err(), "invalid meld: ''");
    assert_eq!(meld_from_string("+m123", 0).unwrap_err(), "invalid '+' suffix");
    assert_eq!(meld_from_string("123", 0).unwrap_err(), "tile number befor tile type");
    assert_eq!(meld_from_string("m12a", 0).unwrap_err(), "invalid char: 'a'");
}

#[test]
fn expression_is_read_part_by_part() {
    let mut c = Calculator::new(true);
    c.parse(" m234 p345 s67789 z33 s8+ , m1111 / S3W, m1 z7, p9 / 立直,一発 / 30, 2, 2000 # note")
        .unwrap();
    assert!(c.detail);
    assert_eq!((c.prevalent_wind, c.seat_wind, c.kyoku, c.seat), (2, 3, 2, 0));
    assert!(!c.is_dealer);
    assert!(!c.is_drawn);
    assert_eq!(c.win_tile, Tile(2, 8));
    assert_eq!(c.hand[2][8], 2);
    assert_eq!(c.hand[3][3], 2);
    assert_eq!(c.melds.len(), 1);
    assert_eq!(c.melds[0].type_, MeldType::Ankan);
    assert_eq!(c.melds[0].seat, 0);
    assert_eq!(c.doras, vec![Tile(0, 1), Tile(3, 7)]);
    assert_eq!(c.ura_doras, vec![Tile(1, 9)]);
    assert!(c.yaku_flags.riichi && c.yaku_flags.ippatsu && !c.yaku_flags.menzentsumo);
    assert_eq!((c.fu, c.fan, c.score), (30, 2, 2000));
}

#[test]
fn red_fives_count_twice_in_the_hand() {
    let mut c = Calculator::new(false);
    c.parse("m055").unwrap();
    assert_eq!(c.hand[0][0], 1);
    assert_eq!(c.hand[0][5], 3);
    assert!(c.is_drawn && c.is_dealer);
    assert!(c.yaku_flags.menzentsumo);
    assert_eq!(c.win_tile, Tile(0, 5));
    let mut c = Calculator::new(false);
    c.parse("m055,p123+").unwrap();
    assert!(!c.yaku_flags.menzentsumo);
}

#[test]
fn errors_of_the_parts() {
    assert_eq!(parse_error("m1/E1"), "stage info len is not 3: E1");
    assert_eq!(parse_error("m1/X1E"), "invalid wind symbol: X");
    assert_eq!(parse_error("m1/E1X"), "invalid wind symbol: X");
    assert_eq!(parse_error("m1/E5E"), "kyoku is not 1, 2, 3 or 4: 5");
    assert_eq!(parse_error("m1/E0E"), "kyoku is not 1, 2, 3 or 4: 0");
    assert_eq!(parse_error("m1/ExE"), "kyoku is not 1, 2, 3 or 4: x");
    assert_eq!(parse_error("m1/E1E,q"), "invalid char: 'q'");
    assert_eq!(parse_error("m1/E1E,m1,1"), "tile number befor tile type");
    assert_eq!(parse_error(""), "hand is empty");
    assert_eq!(parse_error(",m123"), "hand is empty");
    assert_eq!(parse_error("m1x"), "invalid char: 'x'");
    assert_eq!(parse_error("m1,m12"), "invalid meld: 'm12'");
    assert_eq!(parse_error("m1/E1E/立直,平和"), "invalid conditional yaku: 平和");
    assert_eq!(parse_error("m1/E1E//1,2"), "invalid score verify info: 1,2");
    assert_eq!(parse_error("m1/E1E//a,2,3"), "invalid digit found in string");
    assert_eq!(parse_error("m1/E1E//1,,3"), "cannot parse integer from empty string");
    assert_eq!(
        parse_error("m1/E1E//1,2,99999999999"),
        "number too large to fit in target type"
    );
    assert_eq!(
        parse_error("m1/E1E//1,2,-99999999999"),
        "number too small to fit in target type"
    );
    // the stage is read before the hand
    assert_eq!(parse_error("m1x/E1"), "stage info len is not 3: E1");
}

#[test]
fn arguments_of_the_program() {
    let mut app = CalculatorApp::new(args(&["m123", "-d"]));
    assert_eq!(app.run(), Request::Expression("m123".to_string()));
    assert!(app.detail);
    let mut app = CalculatorApp::new(args(&["-f", "hands.txt"]));
    assert_eq!(app.run(), Request::File("hands.txt".to_string()));
    assert!(!app.detail);
    assert_eq!(CalculatorApp::new(args(&[])).run(), Request::Usage);
    assert_eq!(CalculatorApp::new(args(&["-d"])).run(), Request::Usage);
    assert_eq!(CalculatorApp::new(args(&["m1", "-f", "x"])).run(), Request::Usage);
    assert_eq!(
        CalculatorApp::new(args(&["-f"])).run(),
        Request::MissingValue("-f: value missing".to_string())
    );
    assert_eq!(CalculatorApp::new(args(&["m1", "m2"])).run(), Request::MultipleExpressions);
    assert_eq!(
        CalculatorApp::new(args(&["-x", "m2"])).run(),
        Request::UnknownOption("m2".to_string())
    );
    assert_eq!(CalculatorApp::new(args(&["-x"])).run(), Request::Expression("-x".to_string()));
    assert!(print_usage().starts_with("invalid input\nUsage\n"));
}

#[test]
fn expressions_are_processed() {
    let app = CalculatorApp::new(args(&[]));
    let (calc, rep) = app.process_expression("m234p345s67789z33s8/E1S//20,2,1500").unwrap();
    let rep = rep.unwrap();
    assert_eq!(rep.score, 1500);
    assert_eq!(rep.context.fu, 20);
    assert_eq!(rep.context.fan, 2);
    assert_eq!(rep.context.points, (0, 400, 700));
    assert_eq!(rep.verify, Verify::Match);
    assert_eq!(calc.win_tile, Tile(2, 8));
    assert_eq!((calc.fu, calc.fan, calc.score), (20, 2, 1500));
    assert!(calc.is_drawn && !calc.is_dealer);
    let (_, rep) = app.process_expression("m234p345s67789z33s8/E1S//20,2,1600").unwrap();
    assert_eq!(rep.unwrap().verify, Verify::Mismatch);
    let (_, rep) = app.process_expression("m234p345s67789z33s8/E1S").unwrap();
    assert_eq!(rep.unwrap().verify, Verify::Skip);
    assert!(app.process_expression("m234p345s67789z33s9/E1S").unwrap().1.is_none());
    assert_eq!(app.process_expression("m234x").unwrap_err(), "invalid char: 'x'");
    // more tiles than a hand can hold are no win
    assert!(app.process_expression("m111111111111111111").unwrap().1.is_none());
}

#[test]
fn blank_lines_and_comments_are_passed_over() {
    assert!(is_skipped(""));
    assert!(is_skipped("   "));
    assert!(is_skipped("# a comment"));
    assert!(is_skipped("   #m123"));
    assert!(!is_skipped("m123 # a comment"));
    assert!(!is_skipped(" m123"));
}

fn state(c: &Calculator) -> String {
    format!("{:?}", c)
}

#[test]
fn a_part_that_cannot_be_read_changes_nothing() {
    let mut c = Calculator::new(false);
    c.parse("m123p123s123z11222/S2W,m1,p2/立直/30,2,2000").unwrap();
    let before = state(&c);
    let chars = |s: &str| s.chars().collect::<Vec<char>>();
    for bad in ["EXE", "E1", "X1E", "E5E", "N3S,q", "N3S,m1,1"] {
        assert!(c.parse_stage_info(&chars(bad)).is_err(), "{}", bad);
        assert_eq!(state(&c), before, "{}", bad);
    }
    for bad in ["", "m1x", "m1,m12", "m1+,p1x3"] {
        assert!(c.parse_hand_meld(&chars(bad)).is_err(), "{}", bad);
        assert_eq!(state(&c), before, "{}", bad);
    }
    assert!(c.parse_yaku_flags(&chars("一発,平和")).is_err());
    assert_eq!(state(&c), before);
    for bad in ["1,2", "40,x,1", "40,3,", "40,3,99999999999"] {
        assert!(c.parse_score_verify(&chars(bad)).is_err(), "{}", bad);
        assert_eq!(state(&c), before, "{}", bad);
    }
}

#[test]
fn an_expression_keeps_the_parts_read_before_the_error() {
    let mut c = Calculator::new(false);
    assert_eq!(c.parse("m123+/S2W,m1/立直,平和/30,2,2000").unwrap_err(), "invalid conditional yaku: 平和");
    // stage and hand were read, flags and numbers were not
    assert_eq!(c.prevalent_wind, 2);
    assert_eq!(c.seat_wind, 3);
    assert_eq!(c.doras, vec![Tile(0, 1)]);
    assert_eq!(c.hand[0][1], 1);
    assert!(!c.is_drawn);
    assert!(!c.yaku_flags.riichi);
    assert_eq!((c.fu, c.fan, c.score), (0, 0, 0));
    let mut c = Calculator::new(false);
    assert!(c.parse("m1x/S2W").is_err());
    assert_eq!(c.prevalent_wind, 2);
    assert_eq!(c.hand[0][1], 0);
}

#[test]
fn the_first_number_that_is_none_gives_the_error() {
    let err = |s: &str| Err::<usize, String>(s.to_string());
    assert_eq!(read_numbers(Ok(30), Ok(2), Ok(-2000)), Ok((30, 2, -2000)));
    assert_eq!(read_numbers(err("a"), err("b"), Err("c".to_string())), Err("a".to_string()));
    assert_eq!(read_numbers(Ok(1), err("b"), Err("c".to_string())), Err("b".to_string()));
    assert_eq!(read_numbers(Ok(1), Ok(2), Err("c".to_string())), Err("c".to_string()));
}
