use mahjong_core::calculator::parse::tiles_from_string;
use mahjong_core::controller::check::check_event;
use mahjong_core::controller::reducer::{blank_stage, handle_event};
use mahjong_core::model::event::{Event, EventDeal, EventDiscard, EventNew};
use mahjong_core::model::render::{row_to_string, table_to_string};
use mahjong_core::model::stage::Stage;
use mahjong_core::model::tile::Tile;

fn tiles(s: &str) -> Vec<Tile> {
    tiles_from_string(s).unwrap()
}

fn play(stg: &mut Stage, ev: Event) {
    assert!(check_event(stg, &ev));
    handle_event(stg, &ev);
}

fn after_one_discard() -> Stage {
    let mut stg = blank_stage();
    play(
        &mut stg,
        Event::New(EventNew {
            bakaze: 0,
            kyoku: 0,
            honba: 0,
            kyoutaku: 0,
            doras: tiles("z7"),
            scores: [25000, 25000, 25000, -1200],
            hands: [
                tiles("m123456789p1234"),
                tiles("p5678s12345678z1"),
                tiles("z1112223334445"),
                tiles("m1112223334445"),
            ],
            mode: 0,
        }),
    );
    play(&mut stg, Event::Deal(EventDeal { seat: 0, tile: tiles("s9")[0] }));
    play(
        &mut stg,
        Event::Discard(EventDiscard {
            seat: 0,
            tile: tiles("s9")[0],
            is_drawn: true,
            is_riichi: false,
        }),
    );
    stg
}

#[test]
fn a_row_is_its_numbers_in_brackets() {
    assert_eq!(row_to_string(&[0, 1, 2, 3, 4, 10, 0, 0, 0, 14]), "[0, 1, 2, 3, 4, 10, 0, 0, 0, 14]");
}

#[test]
fn a_table_has_a_line_for_each_suit() {
    let mut tab = [[0usize; 10]; 4];
    tab[1][0] = 1;
    tab[1][5] = 2;
    tab[3][7] = 3;
    assert_eq!(
        table_to_string(&tab),
        "m: [0, 0, 0, 0, 0, 0, 0, 0, 0, 0]\n\
         p: [1, 0, 0, 0, 0, 2, 0, 0, 0, 0]\n\
         s: [0, 0, 0, 0, 0, 0, 0, 0, 0, 0]\n\
         z: [0, 0, 0, 0, 0, 0, 0, 3, 0, 0]\n"
    );
}

#[test]
fn the_text_of_a_player() {
    let stg = after_one_discard();
    assert_eq!(
        stg.players[0].to_text(),
        "seat: 0, score: 25000, riichi: false, furiten: false, drawn: -\n\
         m: [0, 1, 1, 1, 1, 1, 1, 1, 1, 1]\n\
         p: [0, 1, 1, 1, 1, 0, 0, 0, 0, 0]\n\
         s: [0, 0, 0, 0, 0, 0, 0, 0, 0, 0]\n\
         z: [0, 0, 0, 0, 0, 0, 0, 0, 0, 0]\n\
         melds: \n\
         discards: s9 \n"
    );
    assert!(stg.players[3].to_text().starts_with("seat: 3, score: -1200, riichi: false"));
}

#[test]
fn the_text_of_a_stage() {
    let stg = after_one_discard();
    let rule = "--------------------------------------------------\n";
    let mut want = String::new();
    want += "round: 0, hand: 0, honba: 0, kyoutaku: 0\n";
    want += "turn: 0, left_tile_count: 82, doras: z7, last_tile: Some((0, Discard, s9))\n\n";
    want += rule;
    for p in &stg.players {
        want += &p.to_text();
        want += rule;
    }
    want += "\n";
    want += "m1 m2 m3 m4 m5 m6 m7 m8 m9 \n--------------------------\n";
    want += "H0 H0 H0 H0 U  H0 H0 H0 H0 \n";
    want += "H3 H3 H3 H3 H0 U  U  U  U  \n";
    want += "H3 H3 H3 H3 H3 U  U  U  U  \n";
    want += "H3 H3 H3 H3 U  U  U  U  U  \n\n";
    want += "p1 p2 p3 p4 p5 p6 p7 p8 p9 \n--------------------------\n";
    want += "H0 H0 H0 H0 U  H1 H1 H1 U  \n";
    want += "U  U  U  U  H1 U  U  U  U  \n";
    want += "U  U  U  U  U  U  U  U  U  \n";
    want += "U  U  U  U  U  U  U  U  U  \n\n";
    want += "s1 s2 s3 s4 s5 s6 s7 s8 s9 \n--------------------------\n";
    want += "H1 H1 H1 H1 U  H1 H1 H1 D0 \n";
    want += "U  U  U  U  H1 U  U  U  U  \n";
    want += "U  U  U  U  U  U  U  U  U  \n";
    want += "U  U  U  U  U  U  U  U  U  \n\n";
    want += "z1 z2 z3 z4 z5 z6 z7 z8 z9 \n--------------------------\n";
    want += "H1 H2 H2 H2 H2 U  R  U  U  \n";
    want += "H2 H2 H2 H2 U  U  U  U  U  \n";
    want += "H2 H2 H2 H2 U  U  U  U  U  \n";
    want += "H2 U  U  U  U  U  U  U  U  \n\n";
    want += "remaining tiles\n";
    want += "m: [4, 4, 4, 4, 4, 4, 4, 4, 4, 4]\n";
    want += "p: [4, 4, 4, 4, 4, 4, 4, 4, 4, 4]\n";
    want += "s: [4, 4, 4, 4, 4, 4, 4, 4, 4, 3]\n";
    want += "z: [4, 4, 4, 4, 4, 4, 4, 3, 4, 4]\n\n";
    assert_eq!(stg.to_text(), want);
}
