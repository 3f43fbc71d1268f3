use mahjong_core::calculator::parse::tiles_from_string;
use mahjong_core::controller::check::{all_hold_thirteen, check_event, player_size};
use mahjong_core::controller::perform::{
    perform_ankan, perform_call, perform_discard, perform_kakan,
};
use mahjong_core::controller::possible_actions::{
    calc_possible_call_actions, calc_possible_turn_actions, count_wall,
};
use mahjong_core::controller::reducer::{blank_stage, handle_event};
use mahjong_core::controller::stage_controller::{resolve_calls, Resolution};
use mahjong_core::model::action::{Action, ActionType};
use mahjong_core::model::event::{
    Event, EventBegin, EventDeal, EventDiscard, EventDora, EventDraw, EventEnd, EventKita,
    EventMeld, EventNew, EventWin,
};
use mahjong_core::model::meld::MeldType;
use mahjong_core::model::stage::{DrawType, Stage, TileStateType};
use mahjong_core::model::tile::{count_tiles, Tile};

fn t(s: &str) -> Vec<Tile> {
    tiles_from_string(s).unwrap()
}

fn one(s: &str) -> Tile {
    t(s)[0]
}

fn apply(stg: &mut Stage, ev: Event) {
    assert!(check_event(stg, &ev), "illegal event: {:?}", ev);
    handle_event(stg, &ev);
}

fn new_round(hands: [&str; 4], dora: &str) -> Event {
    Event::New(EventNew {
        bakaze: 0,
        kyoku: 0,
        honba: 0,
        kyoutaku: 0,
        doras: t(dora),
        scores: [25000; 4],
        hands: [t(hands[0]), t(hands[1]), t(hands[2]), t(hands[3])],
        mode: 0,
    })
}

fn deal(seat: usize, tile: &str) -> Event {
    Event::Deal(EventDeal { seat, tile: one(tile) })
}

fn discard(seat: usize, tile: &str, is_drawn: bool, is_riichi: bool) -> Event {
    Event::Discard(EventDiscard { seat, tile: one(tile), is_drawn, is_riichi })
}

fn held_everywhere(stg: &Stage) -> usize {
    let mut n = stg.left_tile_count + stg.doras.len();
    for p in &stg.players {
        n += count_tiles(&p.hand);
        for m in &p.melds {
            n += m.tiles.len();
        }
        for d in &p.discards {
            if d.meld.is_none() {
                n += 1;
            }
        }
    }
    n
}

fn check_invariants(stg: &Stage) {
    assert_eq!(held_everywhere(stg), 136);
    for s in 0..4 {
        let size = player_size(&stg.players[s]);
        assert!(size == 13 || size == 14);
        if s != stg.turn {
            assert_eq!(size, 13);
        }
        if stg.players[s].drawn.is_some() {
            assert_eq!(size, 14);
        }
    }
    for ti in 0..4 {
        for ni in 0..10 {
            let hidden = stg.tile_states[ti][ni]
                .iter()
                .filter(|s| matches!(s, TileStateType::U | TileStateType::H(_)))
                .count();
            assert_eq!(stg.tile_remains[ti][ni], hidden);
        }
    }
}

fn started() -> Stage {
    let mut stg = blank_stage();
    apply(&mut stg, Event::Begin(EventBegin {}));
    apply(
        &mut stg,
        new_round(
            [
                "m123456789p12345",
                "p46s12345678m11z6",
                "p55m23456789s33z1",
                "z1112223334445",
            ],
            "m1",
        ),
    );
    stg
}

fn kinds(acts: &Vec<Action>) -> Vec<ActionType> {
    acts.iter().map(|a| a.0).collect()
}

#[test]
fn new_round_sets_up_the_table() {
    let stg = started();
    check_invariants(&stg);
    assert_eq!(stg.turn, 0);
    assert_eq!(stg.left_tile_count, 136 - 14 - 13 * 3 - 1);
    assert_eq!(count_wall(&stg), 69);
    assert_eq!(stg.players[0].drawn, Some(Tile(1, 5)));
    assert_eq!(stg.players[1].hand[1][4], 1);
    assert_eq!(stg.tile_states[0][1][0], TileStateType::H(0));
    assert_eq!(stg.tile_states[0][1][1], TileStateType::H(1));
    assert_eq!(stg.tile_states[0][1][2], TileStateType::H(1));
    assert_eq!(stg.tile_states[0][1][3], TileStateType::R);
    assert_eq!(stg.tile_remains[0][1], 3);
    assert!(!all_hold_thirteen(&stg));
}

#[test]
fn new_round_with_too_many_copies_is_illegal() {
    let stg = blank_stage();
    let ev = new_round(
        ["m111123456789p12", "m1p46s1234567891", "p55m23456789s33z1", "z1112223334445"],
        "m2",
    );
    assert!(!check_event(&stg, &ev));
}

#[test]
fn kita_is_never_legal() {
    let stg = started();
    assert!(!check_event(&stg, &Event::Kita(EventKita { seat: 0, is_drawn: true })));
}

#[test]
fn discard_of_a_tile_not_in_hand_is_illegal() {
    let stg = started();
    assert!(!check_event(&stg, &discard(0, "z7", false, false)));
    assert!(!check_event(&stg, &discard(1, "p4", false, false)));
    assert!(check_event(&stg, &discard(0, "p5", true, false)));
}

#[test]
fn pon_goes_before_chi_and_keeps_the_invariants() {
    let mut stg = started();
    let acts = calc_possible_turn_actions(&stg);
    assert_eq!(acts[0].0, ActionType::Discard);
    assert_eq!(acts[0].1.len(), 14);
    assert!(perform_discard(&mut stg, one("p5"), false));
    check_invariants(&stg);
    assert_eq!(stg.last_tile, Some((0, ActionType::Discard, Tile(1, 5))));

    let calls = calc_possible_call_actions(&stg);
    assert!(calls[0].is_empty());
    assert_eq!(kinds(&calls[1]), vec![ActionType::Nop, ActionType::Chi]);
    assert_eq!(calls[1][1].1, t("p46"));
    assert_eq!(kinds(&calls[2]), vec![ActionType::Nop, ActionType::Pon]);
    assert_eq!(calls[2][1].1, t("p55"));
    assert_eq!(kinds(&calls[3]), vec![ActionType::Nop]);

    let chosen = [ActionType::Nop, ActionType::Chi, ActionType::Pon, ActionType::Nop];
    assert_eq!(resolve_calls(0, &chosen, false), Resolution::Call(2));

    assert!(perform_call(&mut stg, 2, MeldType::Pon, &t("p55")));
    check_invariants(&stg);
    assert_eq!(stg.turn, 2);
    assert_eq!(stg.last_tile, None);
    assert_eq!(stg.players[2].melds.len(), 1);
    assert_eq!(stg.players[2].melds[0].tiles, t("p555"));
    assert_eq!(stg.players[2].melds[0].froms, vec![2, 2, 0]);
    assert_eq!(stg.players[0].discards[0].meld, Some((2, 0)));
    assert_eq!(stg.tile_states[1][5][1], TileStateType::M(2, 0));
    assert_eq!(player_size(&stg.players[2]), 14);

    assert!(!perform_discard(&mut stg, one("p5"), false));
    assert!(perform_discard(&mut stg, one("z1"), false));
    check_invariants(&stg);
}

#[test]
fn chi_is_only_for_the_next_seat() {
    let mut stg = started();
    assert!(perform_discard(&mut stg, one("p5"), false));
    assert!(!perform_call(&mut stg, 2, MeldType::Chi, &t("p46")));
    assert!(perform_call(&mut stg, 1, MeldType::Chi, &t("p46")));
    check_invariants(&stg);
    assert_eq!(stg.turn, 1);
    // the tile called may not be discarded at once; the hand holds no other p5 anyway
    let acts = calc_possible_turn_actions(&stg);
    assert_eq!(acts[0].1.len(), 10);
}

#[test]
fn swap_calling_is_not_offered() {
    let mut stg = blank_stage();
    apply(
        &mut stg,
        new_round(
            ["m123456789p12345", "p367s12345678m11", "p55m23456789s33z1", "z1112223334445"],
            "m1",
        ),
    );
    assert!(perform_discard(&mut stg, one("p5"), false));
    // seat 1 takes p5 with p6 p7: the run is p567, p5 at its low end
    assert!(perform_call(&mut stg, 1, MeldType::Chi, &t("p67")));
    let acts = calc_possible_turn_actions(&stg);
    let may = &acts[0].1;
    assert!(!may.contains(&Tile(1, 5)));
    assert!(may.contains(&Tile(1, 3)));
    // p8 would undo the call as well, p3 would not
    assert!(!perform_discard(&mut stg, one("p8"), false));
}

#[test]
fn riichi_is_settled_by_the_next_draw() {
    let mut stg = blank_stage();
    apply(
        &mut stg,
        new_round(
            ["m123456789p45z11s9", "p46s12345678m11z2", "p55m23456789s33z3", "z1222333444555"],
            "m1",
        ),
    );
    let acts = calc_possible_turn_actions(&stg);
    assert_eq!(
        kinds(&acts),
        vec![ActionType::Discard, ActionType::Riichi]
    );
    assert_eq!(acts[1].1, vec![Tile(2, 9)]);
    assert!(!perform_discard(&mut stg, one("p4"), true));
    assert!(perform_discard(&mut stg, one("s9"), true));
    check_invariants(&stg);
    assert_eq!(stg.last_riichi, Some(0));
    assert_eq!(stg.players[0].riichi, Some(0));
    assert!(stg.players[0].is_ippatsu);
    assert_eq!(stg.kyoutaku, 0);
    apply(&mut stg, deal(1, "z7"));
    check_invariants(&stg);
    assert_eq!(stg.kyoutaku, 1);
    assert_eq!(stg.players[0].score, 24000);
    assert_eq!(stg.last_riichi, None);
    assert_eq!(stg.turn, 1);
}

#[test]
fn furiten_blocks_ron() {
    // seat 0 waits for p3 and p6 and discards p3
    let mut stg = blank_stage();
    apply(
        &mut stg,
        new_round(
            ["m123456789p45z11p3", "p46s12345678m11z2", "p55m23456789s33z3", "z1222333444555"],
            "m1",
        ),
    );
    assert!(kinds(&calc_possible_turn_actions(&stg)).contains(&ActionType::Tsumo));
    assert!(perform_discard(&mut stg, one("p3"), false));
    assert!(stg.players[0].is_furiten);
    apply(&mut stg, deal(1, "p6"));
    apply(&mut stg, discard(1, "p6", true, false));
    let calls = calc_possible_call_actions(&stg);
    assert!(!kinds(&calls[0]).contains(&ActionType::Ron));
}

#[test]
fn ron_is_offered_without_furiten() {
    let mut stg = blank_stage();
    apply(
        &mut stg,
        new_round(
            ["m123456789p45z11s9", "p46s12345678m11z2", "p55m23456789s33z3", "z1222333444555"],
            "m1",
        ),
    );
    assert!(perform_discard(&mut stg, one("s9"), false));
    assert!(!stg.players[0].is_furiten);
    apply(&mut stg, deal(1, "p6"));
    apply(&mut stg, discard(1, "p6", true, false));
    let calls = calc_possible_call_actions(&stg);
    assert!(kinds(&calls[0]).contains(&ActionType::Ron));
    // who lets the win go by is furiten from then on
    apply(&mut stg, deal(2, "z7"));
    assert!(stg.players[0].is_furiten);
    assert!(!stg.players[0].is_riichi_furiten);
}

#[test]
fn riichi_furiten_lasts_until_the_next_round() {
    let mut stg = blank_stage();
    apply(
        &mut stg,
        new_round(
            ["m123456789p45z11s9", "p46s12345678m11z2", "p55m23456789s33z3", "z1222333444555"],
            "m1",
        ),
    );
    assert!(perform_discard(&mut stg, one("s9"), true));
    apply(&mut stg, deal(1, "p6"));
    apply(&mut stg, discard(1, "p6", true, false));
    apply(&mut stg, deal(2, "z7"));
    assert!(stg.players[0].is_riichi_furiten);
    apply(&mut stg, discard(2, "z7", true, false));
    apply(&mut stg, deal(3, "z6"));
    apply(&mut stg, discard(3, "z6", true, false));
    apply(&mut stg, deal(0, "s1"));
    apply(&mut stg, discard(0, "s1", true, false));
    assert!(stg.players[0].is_riichi_furiten);
    assert!(stg.players[0].is_furiten);
    apply(&mut stg, Event::Dora(EventDora { tile: one("z6") }));
    assert!(stg.players[0].is_riichi_furiten);
    apply(
        &mut stg,
        Event::Draw(EventDraw {
            draw_type: DrawType::Kouhaiheikyoku,
            hands: [vec![], vec![], vec![], vec![]],
            tenpais: [true, false, false, false],
            points: [3000, -1000, -1000, -1000],
        }),
    );
    assert!(stg.players[0].is_riichi_furiten);
    assert_eq!(stg.players[0].score, 27000);
    apply(&mut stg, Event::End(EventEnd {}));
    assert!(stg.players[0].is_riichi_furiten);
    apply(
        &mut stg,
        new_round(
            ["m123456789p45z11s9", "p46s12345678m11z2", "p55m23456789s33z3", "z1222333444555"],
            "m1",
        ),
    );
    assert!(!stg.players[0].is_riichi_furiten);
}

#[test]
fn chankan_is_offered_on_a_promoted_pon() {
    // seat 1 waits for s5 between s4 and s6; seat 0 will promote a pon of s5
    let mut stg = blank_stage();
    apply(
        &mut stg,
        new_round(
            ["s55p123456789z223", "m123456789s46z11", "s5p2345678m2345z3", "z4445556667771"],
            "m1",
        ),
    );
    assert!(perform_discard(&mut stg, one("z3"), false));
    apply(&mut stg, deal(1, "p9"));
    apply(&mut stg, discard(1, "p9", true, false));
    apply(&mut stg, deal(2, "z3"));
    apply(&mut stg, discard(2, "s5", false, false));
    // s5 completes the hand of seat 1, which has no yaku on it but the run of nine
    assert!(perform_call(&mut stg, 0, MeldType::Pon, &t("s55")));
    check_invariants(&stg);
    // seat 1 let the win on s5 go by
    assert!(stg.players[1].is_furiten);
    assert!(perform_discard(&mut stg, one("z2"), false));
    apply(&mut stg, deal(1, "p1"));
    apply(&mut stg, discard(1, "p1", true, false));
    assert!(!stg.players[1].is_furiten);
    apply(&mut stg, deal(2, "s9"));
    apply(&mut stg, discard(2, "s9", true, false));
    apply(&mut stg, deal(3, "s9"));
    apply(&mut stg, discard(3, "s9", true, false));
    // three plain fives are out: the fourth five is the red one
    assert!(!check_event(&stg, &deal(0, "s5")));
    apply(&mut stg, deal(0, "s0"));
    let acts = calc_possible_turn_actions(&stg);
    assert!(kinds(&acts).contains(&ActionType::Kakan));
    let kakan = acts.iter().find(|a| a.0 == ActionType::Kakan).unwrap();
    assert_eq!(kakan.1, vec![Tile(2, 0)]);
    assert!(perform_kakan(&mut stg, 0));
    check_invariants(&stg);
    assert_eq!(stg.last_tile, Some((0, ActionType::Kakan, Tile(2, 0))));
    assert_eq!(stg.players[0].melds[0].type_, MeldType::Kakan);
    assert_eq!(stg.players[0].melds[0].tiles, t("s5550"));
    assert_eq!(stg.players[0].melds[0].froms, vec![0, 0, 2, 0]);
    let calls = calc_possible_call_actions(&stg);
    assert_eq!(kinds(&calls[1]), vec![ActionType::Nop, ActionType::Ron]);
    assert_eq!(kinds(&calls[2]), vec![ActionType::Nop]);
    // seat 1 passes: the quad stands and seat 0 draws its replacement
    apply(&mut stg, deal(0, "z5"));
    check_invariants(&stg);
    assert!(stg.players[1].is_furiten);
}

#[test]
fn head_bump_and_double_ron() {
    let chosen = [ActionType::Nop, ActionType::Ron, ActionType::Ron, ActionType::Pon];
    assert_eq!(resolve_calls(0, &chosen, false), Resolution::Ron(vec![1]));
    assert_eq!(resolve_calls(0, &chosen, true), Resolution::Ron(vec![1, 2]));
    let chosen = [ActionType::Ron, ActionType::Nop, ActionType::Ron, ActionType::Chi];
    assert_eq!(resolve_calls(1, &chosen, false), Resolution::Ron(vec![2]));
    assert_eq!(resolve_calls(1, &chosen, true), Resolution::Ron(vec![2, 0]));
    let chosen = [ActionType::Nop, ActionType::Nop, ActionType::Chi, ActionType::Minkan];
    assert_eq!(resolve_calls(1, &chosen, false), Resolution::Call(3));
    let chosen = [ActionType::Nop; 4];
    assert_eq!(resolve_calls(2, &chosen, false), Resolution::Pass);
}

#[test]
fn win_changes_scores_only() {
    let mut stg = started();
    let before = held_everywhere(&stg);
    let ctx = mahjong_core::hand::win::WinContext {
        yakus: vec![],
        fu: 30,
        fan: 1,
        yakuman_times: 0,
        score_title: String::new(),
        points: (1500, 500, 0),
    };
    apply(
        &mut stg,
        Event::Win(EventWin { ura_doras: vec![], contexts: vec![(0, [1500, -500, -500, -500], ctx)] }),
    );
    assert_eq!(stg.get_scores(), [26500, 24500, 24500, 24500]);
    assert_eq!(held_everywhere(&stg), before);
    check_invariants(&stg);
}

#[test]
fn same_events_give_the_same_stage() {
    let play = |stg: &mut Stage| {
        apply(
            stg,
            new_round(
                ["m123456789p12345", "p46s123456789m11", "p55m23456789s33z1", "z1112223334445"],
                "m1",
            ),
        );
        apply(stg, discard(0, "p5", true, false));
        apply(
            stg,
            Event::Meld(EventMeld { seat: 2, meld_type: MeldType::Pon, consumed: t("p55") }),
        );
        apply(stg, discard(2, "z1", false, false));
        apply(stg, deal(3, "z6"));
    };
    let mut a = blank_stage();
    let mut b = blank_stage();
    play(&mut a);
    play(&mut b);
    assert_eq!(format!("{:?}", a), format!("{:?}", b));
}

#[test]
fn hidden_hands_are_dealt_and_discard() {
    let mut stg = blank_stage();
    apply(
        &mut stg,
        new_round(
            ["z88888888888888", "p46s12345678m11z6", "z8888888888888", "z8888888888888"],
            "m1",
        ),
    );
    check_invariants(&stg);
    assert!(!stg.players[0].is_shown);
    assert!(stg.players[1].is_shown);
    assert_eq!(stg.players[0].hand[3][8], 14);
    apply(&mut stg, discard(0, "p5", false, false));
    check_invariants(&stg);
    assert_eq!(stg.players[0].hand[3][8], 13);
    assert_eq!(stg.tile_states[1][5][1], TileStateType::D(0, 0));
    let calls = calc_possible_call_actions(&stg);
    assert_eq!(kinds(&calls[1]), vec![ActionType::Nop, ActionType::Chi]);
    assert_eq!(kinds(&calls[2]), vec![ActionType::Nop]);
    apply(&mut stg, deal(1, "z8"));
    check_invariants(&stg);
}

#[test]
fn concealed_quad_is_declared_from_the_hand() {
    let mut stg = blank_stage();
    apply(
        &mut stg,
        new_round(
            ["m1111p123456789z2", "m2345678s123456", "s789z1113334445", "p1234567s1234z66"],
            "m9",
        ),
    );
    let acts = calc_possible_turn_actions(&stg);
    let ankan = acts.iter().find(|a| a.0 == ActionType::Ankan).unwrap();
    assert_eq!(ankan.1, t("m1111"));
    // there are no four m2 in the hand
    assert!(!perform_ankan(&mut stg, 2));
    assert!(perform_ankan(&mut stg, 1));
    check_invariants(&stg);
    assert_eq!(stg.players[0].melds[0].type_, MeldType::Ankan);
    assert_eq!(stg.players[0].melds[0].tiles, t("m1111"));
    assert_eq!(stg.players[0].hand[0][1], 0);
    assert_eq!(stg.tile_remains[0][1], 0);
    // the replacement tile
    apply(&mut stg, deal(0, "z2"));
    check_invariants(&stg);
}
