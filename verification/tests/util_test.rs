use mahjong_core::model::tile::{sort_tiles, Tile};
use mahjong_core::util::common::{
    as_array, as_bool, as_i32, as_str, as_usize, as_vec, cartesian_product, next_value,
    rank_by_index_vec, rank_by_rank_vec, tile_to_string, unixtime_now, vec_remove, vec_to_string,
};
use mahjong_core::calculator::expression::Calculator;
use mahjong_core::util::text::{
    chars_of, i64_to_string, remove_char, split, str_eq, string_of,
    u64_to_string, usize_to_string,
};

#[test]
fn decimal_numerals() {
    assert_eq!(u64_to_string(0), "0");
    assert_eq!(u64_to_string(7), "7");
    assert_eq!(u64_to_string(10), "10");
    assert_eq!(u64_to_string(u64::MAX), u64::MAX.to_string());
    assert_eq!(usize_to_string(12345), "12345");
    assert_eq!(i64_to_string(-1), "-1");
    assert_eq!(i64_to_string(i64::MIN), i64::MIN.to_string());
    assert_eq!(i64_to_string(i64::MAX), i64::MAX.to_string());
    assert_eq!(mahjong_core::util::text::concat("ab", "cd"), "abcd");
}

#[test]
fn characters_and_pieces() {
    let cs = chars_of("a,b,,c");
    assert_eq!(cs, vec!['a', ',', 'b', ',', ',', 'c']);
    assert_eq!(string_of(&cs), "a,b,,c");
    let pieces: Vec<String> = split(&cs, ',').iter().map(string_of).collect();
    assert_eq!(pieces, vec!["a", "b", "", "c"]);
    let want: Vec<&str> = "a,b,,c".split(',').collect();
    assert_eq!(pieces, want);
    assert_eq!(split(&chars_of(""), ',').len(), 1);
    assert_eq!(split(&chars_of(","), ',').len(), 2);
    assert_eq!(string_of(&remove_char(&chars_of("a b  c"), ' ')), "abc");
    assert_eq!(chars_of("立直").len(), 2);
}

#[test]
fn numbers_are_parsed_as_by_the_standard_library() {
    let cases = [
        "", "+", "-", "0", "+0", "-0", "12", "+12", "-12", "1x", "x1", "1 ", " 1", "1_0",
        "2147483647", "2147483648", "-2147483648", "-2147483649", "99999999999999999999",
        "99999999999999999999x", "-99999999999999999999", "18446744073709551615",
        "18446744073709551616", "00012", "+-1", "--1", "１",
    ];
    for c in cases {
        let mut calc = Calculator::new(false);
        let got = calc.parse_score_verify(&chars_of(&format!("{},7,-5", c)));
        match c.parse::<usize>() {
            Ok(v) => {
                assert_eq!(got, Ok(()), "usize of {:?}", c);
                assert_eq!((calc.fu, calc.fan, calc.score), (v, 7, -5));
            }
            Err(e) => assert_eq!(got, Err(e.to_string()), "usize of {:?}", c),
        }
        let mut calc = Calculator::new(false);
        let got = calc.parse_score_verify(&chars_of(&format!("3,4,{}", c)));
        match c.parse::<i32>() {
            Ok(v) => {
                assert_eq!(got, Ok(()), "i32 of {:?}", c);
                assert_eq!((calc.fu, calc.fan, calc.score), (3, 4, v));
            }
            Err(e) => assert_eq!(got, Err(e.to_string()), "i32 of {:?}", c),
        }
    }
}

#[test]
fn tiles_in_order() {
    let mut v = vec![Tile(2, 3), Tile(0, 5), Tile(0, 0), Tile(3, 1), Tile(0, 5), Tile(1, 9)];
    let mut want = v.clone();
    want.sort();
    sort_tiles(&mut v);
    assert_eq!(v, want);
    assert_eq!(v[0], Tile(0, 0));
    let mut none: Vec<Tile> = vec![];
    sort_tiles(&mut none);
    assert!(none.is_empty());
}

#[test]
fn tiles_as_text() {
    assert_eq!(tile_to_string(Tile(0, 1)), "m1");
    assert_eq!(tile_to_string(Tile(1, 0)), "p0");
    assert_eq!(tile_to_string(Tile(3, 8)), "z8");
    assert_eq!(vec_to_string(&vec![Tile(0, 1), Tile(2, 9), Tile(3, 7)]), "m1 s9 z7");
    assert_eq!(vec_to_string(&vec![Tile(0, 1)]), "m1");
    assert_eq!(vec_to_string(&vec![]), "");
}

#[test]
fn first_equal_item_is_removed() {
    let mut v = vec![3, 1, 2, 1];
    vec_remove(&mut v, &1);
    assert_eq!(v, vec![3, 2, 1]);
    let mut t = vec![Tile(0, 1), Tile(0, 2)];
    vec_remove(&mut t, &Tile(0, 2));
    assert_eq!(t, vec![Tile(0, 1)]);
}

#[test]
fn product_of_lists() {
    let vv = vec![vec![1, 2], vec![3], vec![4, 5, 6]];
    let got = cartesian_product(&vv);
    let want = vec![
        vec![&1, &3, &4],
        vec![&1, &3, &5],
        vec![&1, &3, &6],
        vec![&2, &3, &4],
        vec![&2, &3, &5],
        vec![&2, &3, &6],
    ];
    assert_eq!(got, want);
    let one = vec![vec!['a', 'b']];
    assert_eq!(cartesian_product(&one), vec![vec![&'a'], vec![&'b']]);
}

#[test]
fn ranking_of_scores() {
    let v = vec![25000, 30000, 25000, 20000];
    assert_eq!(rank_by_index_vec(&v), vec![1, 0, 2, 3]);
    assert_eq!(rank_by_rank_vec(&v), vec![1, 0, 2, 3]);
    let v = vec![1, 5, 3, 5, -2];
    assert_eq!(rank_by_index_vec(&v), vec![1, 3, 2, 0, 4]);
    assert_eq!(rank_by_rank_vec(&v), vec![3, 0, 2, 1, 4]);
    assert_eq!(rank_by_index_vec(&vec![]), Vec::<usize>::new());
}

#[test]
fn value_of_an_option() {
    let args: Vec<String> = vec!["-f".to_string(), "file".to_string()];
    let mut pos = 1;
    assert_eq!(next_value(&args, &mut pos, "-f"), Ok("file".to_string()));
    assert_eq!(pos, 2);
    assert_eq!(next_value(&args, &mut pos, "-f"), Err("-f: value missing".to_string()));
    assert_eq!(pos, 2);
}

#[test]
fn json_values_as_plain_values() {
    let v: serde_json::Value =
        serde_json::from_str(r#"{"a": 7, "b": "x", "c": true, "d": [1, 2, 3], "e": -1}"#).unwrap();
    assert_eq!(as_usize(&v["a"]), 7);
    assert_eq!(as_i32(&v["e"]), -1);
    assert_eq!(as_usize(&v["e"]), usize::MAX);
    assert_eq!(as_str(&v["b"]), "x");
    assert!(as_bool(&v["c"]));
    assert_eq!(as_array(&v["d"]).unwrap().len(), 3);
    assert!(as_array(&v["a"]).is_none());
    assert_eq!(as_vec(as_usize, &v["d"]), vec![1, 2, 3]);
}

#[test]
fn clock_runs() {
    assert!(unixtime_now() > 1_600_000_000);
}

#[test]
fn strings_are_equal_where_their_characters_are() {
    assert!(str_eq("", ""));
    assert!(str_eq("立直", "立直"));
    assert!(!str_eq("立直", "立"));
    assert!(!str_eq("ab", "ac"));
    assert!(!str_eq("ab", "abc"));
    assert!(!str_eq("-d", "-f"));
}
