use mahjong_core::controller::reducer::{blank_stage, handle_event};
use mahjong_core::mahjongsoul::action::{
    action_command, calc_dapai_index, json_parse_action, json_parse_combination,
    tile_from_symbol, value_i32, value_tiles, value_usize,
};
use mahjong_core::mahjongsoul::game::{classify, in_step, offered_operation, Mahjongsoul, MessageKind};
use mahjong_core::mahjongsoul::message::{
    events_of_message, handler_angangaddgang, handler_babei, handler_chipenggang,
    handler_dealtile, handler_discardtile, handler_hule, handler_liuju, handler_newround,
    handler_notile, update_doras, value_scores,
};
use mahjong_core::model::action::{Action, ActionType};
use mahjong_core::model::define::NO_SEAT;
use mahjong_core::model::event::{Event, EventNew};
use mahjong_core::model::meld::MeldType;
use mahjong_core::model::stage::DrawType;
use mahjong_core::model::tile::Tile;
use serde_json::Value;

fn json(s: &str) -> Value {
    serde_json::from_str(s).unwrap()
}

#[test]
fn symbols_are_rank_then_suit() {
    assert_eq!(tile_from_symbol("5m"), Some(Tile(0, 5)));
    assert_eq!(tile_from_symbol("0p"), Some(Tile(1, 0)));
    assert_eq!(tile_from_symbol("9s"), Some(Tile(2, 9)));
    assert_eq!(tile_from_symbol("1z"), Some(Tile(3, 1)));
    assert_eq!(tile_from_symbol("1zz"), Some(Tile(3, 1)));
    assert_eq!(tile_from_symbol("m5"), None);
    assert_eq!(tile_from_symbol("5"), None);
    assert_eq!(tile_from_symbol(""), None);
    assert_eq!(tile_from_symbol("5x"), None);
    assert_eq!(tile_from_symbol("五m"), None);
}

#[test]
fn numbers_are_read_strictly() {
    assert_eq!(value_usize(&json("3")), Some(3));
    assert_eq!(value_usize(&json("-3")), None);
    assert_eq!(value_usize(&json("3.5")), None);
    assert_eq!(value_usize(&json("\"3\"")), None);
    assert_eq!(value_i32(&json("-3")), Some(-3));
    assert_eq!(value_i32(&json("2147483648")), None);
    assert_eq!(value_i32(&json("null")), None);
    assert_eq!(value_tiles(&json(r#"["1m","0s"]"#)), Some(vec![Tile(0, 1), Tile(2, 0)]));
    assert_eq!(value_tiles(&json(r#"["1m",2]"#)), None);
    assert_eq!(value_scores(&json("[1,2]")), Some([1, 2, 0, 0]));
    assert_eq!(value_scores(&json("[1,2,3,4,5]")), None);
}

#[test]
fn combinations_are_sorted() {
    let combs = json(r#"["6s|4s", "6s|7s", "5p|0p"]"#);
    assert_eq!(
        json_parse_combination(&combs),
        Some(vec![
            vec![Tile(2, 4), Tile(2, 6)],
            vec![Tile(2, 6), Tile(2, 7)],
            vec![Tile(1, 0), Tile(1, 5)],
        ])
    );
    assert_eq!(json_parse_combination(&json(r#"["6s|4"]"#)), None);
    assert_eq!(json_parse_combination(&json(r#"[""]"#)), None);
    assert_eq!(json_parse_combination(&json("null")), None);
    assert_eq!(json_parse_combination(&json("[]")), Some(vec![]));
}

#[test]
fn actions_of_an_operation_list() {
    let msg = json(
        r#"{"seat": 1, "operation_list": [
            {"type": 1},
            {"type": 2, "combination": ["4s|6s", "6s|7s"]},
            {"type": 3, "combination": ["5s|5s"]},
            {"type": 6, "combination": ["1z"]},
            {"type": 7, "combination": ["3m", "9p"]},
            {"type": 8},
            {"type": 9},
            {"type": 10},
            {"type": 11}
        ]}"#,
    );
    let (acts, idxs) = json_parse_action(&msg).unwrap();
    let want = vec![
        Action(ActionType::Nop, vec![]),
        Action(ActionType::Discard, vec![]),
        Action(ActionType::Chi, vec![Tile(2, 4), Tile(2, 6)]),
        Action(ActionType::Chi, vec![Tile(2, 6), Tile(2, 7)]),
        Action(ActionType::Pon, vec![Tile(2, 5), Tile(2, 5)]),
        Action(ActionType::Kakan, vec![Tile(3, 1)]),
        Action(ActionType::Riichi, vec![Tile(0, 3)]),
        Action(ActionType::Riichi, vec![Tile(1, 9)]),
        Action(ActionType::Tsumo, vec![]),
        Action(ActionType::Ron, vec![]),
        Action(ActionType::Kyushukyuhai, vec![]),
        Action(ActionType::Kita, vec![]),
    ];
    assert_eq!(acts, want);
    assert_eq!(idxs, vec![0, 0, 0, 1, 0, 0, 0, 1, 0, 0, 0, 0]);
}

#[test]
fn discard_operation_with_forbidden_tiles() {
    let msg = json(r#"{"operation_list": [{"type": 1, "combination": ["4s|5s"]}]}"#);
    let (acts, _) = json_parse_action(&msg).unwrap();
    assert_eq!(acts[1], Action(ActionType::Discard, vec![Tile(2, 4), Tile(2, 5)]));
}

#[test]
fn broken_operation_lists_are_refused() {
    assert!(json_parse_action(&json(r#"{"operation_list": [{"type": 0}]}"#)).is_none());
    assert!(json_parse_action(&json(r#"{"operation_list": [{"type": 12}]}"#)).is_none());
    assert!(json_parse_action(&json(r#"{"operation_list": [{"type": 2}]}"#)).is_none());
    assert!(json_parse_action(&json(r#"{"operation_list": [{"type": 1, "combination": []}]}"#))
        .is_none());
    assert!(json_parse_action(&json(r#"{}"#)).is_none());
    assert!(json_parse_action(&json(r#"{"operation_list": [{"type": 8}, {"type": "x"}]}"#))
        .is_none());
    assert_eq!(
        json_parse_action(&json(r#"{"operation_list": []}"#)).unwrap().0,
        vec![Action(ActionType::Nop, vec![])]
    );
}

fn stage_with_hand(hand: &str, drawn: Option<Tile>) -> mahjong_core::model::stage::Stage {
    let mut stg = blank_stage();
    let tiles = mahjong_core::calculator::parse::tiles_from_string(hand).unwrap();
    for t in tiles {
        stg.players[0].hand[t.0][t.1] += 1;
        if t.1 == 0 {
            stg.players[0].hand[t.0][5] += 1;
        }
    }
    stg.players[0].drawn = drawn;
    stg
}

#[test]
fn index_of_a_tile_in_the_display() {
    let stg = stage_with_hand("m123p456s789z1122", Some(Tile(3, 2)));
    assert_eq!(calc_dapai_index(&stg, 0, Tile(0, 1), false), 0);
    assert_eq!(calc_dapai_index(&stg, 0, Tile(1, 5), false), 4);
    assert_eq!(calc_dapai_index(&stg, 0, Tile(3, 1), false), 9);
    // z2 is held twice, one of them drawn: the one in the hand is named
    assert_eq!(calc_dapai_index(&stg, 0, Tile(3, 2), false), 11);
    assert_eq!(calc_dapai_index(&stg, 0, Tile(3, 2), true), 12);
    // a tile that the hand does not hold stands behind all
    assert_eq!(calc_dapai_index(&stg, 0, Tile(3, 7), false), 12);
}

#[test]
fn index_of_fives_beside_the_red_five() {
    let stg = stage_with_hand("m123p0556s789z112", Some(Tile(3, 2)));
    assert_eq!(calc_dapai_index(&stg, 0, Tile(1, 0), false), 3);
    assert_eq!(calc_dapai_index(&stg, 0, Tile(1, 5), false), 4);
    assert_eq!(calc_dapai_index(&stg, 0, Tile(1, 6), false), 6);
    // the only copy of the tile drawn is discarded as drawn
    assert_eq!(calc_dapai_index(&stg, 0, Tile(3, 2), false), 12);
    // a plain five is named while the red five was drawn and no plain five is held
    let stg = stage_with_hand("m123p0s789z11223m4", Some(Tile(1, 0)));
    assert_eq!(calc_dapai_index(&stg, 0, Tile(1, 5), false), 12);
}

#[test]
fn commands_of_actions() {
    let mut stg = stage_with_hand("m123p456s789z1122", Some(Tile(3, 2)));
    stg.turn = 0;
    let acts = vec![
        Action(ActionType::Nop, vec![]),
        Action(ActionType::Discard, vec![]),
        Action(ActionType::Chi, vec![Tile(2, 4), Tile(2, 6)]),
        Action(ActionType::Chi, vec![Tile(2, 6), Tile(2, 7)]),
        Action(ActionType::Ankan, vec![Tile(3, 1); 4]),
        Action(ActionType::Tsumo, vec![]),
        Action(ActionType::Ron, vec![]),
        Action(ActionType::Pon, vec![Tile(2, 5), Tile(2, 5)]),
        Action(ActionType::Kyushukyuhai, vec![]),
        Action(ActionType::Kita, vec![]),
        Action(ActionType::Minkan, vec![Tile(2, 5); 3]),
        Action(ActionType::Kakan, vec![Tile(2, 5)]),
    ];
    let idxs = vec![0, 0, 0, 1, 2, 0, 0, 3, 0, 0, 4, 5];
    let cmd = |seat: usize, a: &Action| {
        action_command(&stg, seat, &acts, &idxs, a).map(|v| v.as_str().unwrap().to_string())
    };
    assert_eq!(cmd(0, &acts[0]).unwrap(), "msc.ui.action_dapai(13)");
    assert_eq!(cmd(1, &acts[0]).unwrap(), "msc.ui.action_cancel()");
    assert_eq!(
        cmd(0, &Action(ActionType::Discard, vec![Tile(1, 5)])).unwrap(),
        "msc.ui.action_dapai(4)"
    );
    assert_eq!(
        cmd(0, &Action(ActionType::Riichi, vec![Tile(3, 1)])).unwrap(),
        "msc.ui.action_lizhi(9)"
    );
    assert_eq!(cmd(1, &acts[3]).unwrap(), "msc.ui.action_chi(1)");
    assert_eq!(cmd(0, &acts[4]).unwrap(), "msc.ui.action_gang(2)");
    assert_eq!(cmd(0, &acts[5]).unwrap(), "msc.ui.action_zimo()");
    assert_eq!(cmd(1, &acts[6]).unwrap(), "msc.ui.action_hu()");
    assert_eq!(cmd(1, &acts[7]).unwrap(), "msc.ui.action_peng(3)");
    assert_eq!(cmd(0, &acts[8]).unwrap(), "msc.ui.action_jiuzhongjiupai()");
    assert_eq!(cmd(0, &acts[9]).unwrap(), "msc.ui.action_babei()");
    assert_eq!(cmd(1, &acts[10]).unwrap(), "msc.ui.action_gang(4)");
    assert_eq!(cmd(0, &acts[11]).unwrap(), "msc.ui.action_gang(5)");
    // an action that was not offered, and a discard without a tile
    assert!(cmd(1, &Action(ActionType::Pon, vec![Tile(2, 1), Tile(2, 1)])).is_none());
    assert!(cmd(0, &Action(ActionType::Discard, vec![])).is_none());
}

#[test]
fn events_of_draw_and_discard() {
    let ev = handler_dealtile(&json(r#"{"seat": 2, "tile": "3m"}"#)).unwrap();
    assert!(matches!(ev, Event::Deal(e) if e.seat == 2 && e.tile == Tile(0, 3)));
    let ev = handler_dealtile(&json(r#"{"seat": 1}"#)).unwrap();
    assert!(matches!(ev, Event::Deal(e) if e.seat == 1 && e.tile == Tile(3, 8)));
    assert!(handler_dealtile(&json(r#"{"seat": 1, "tile": "xx"}"#)).is_none());
    assert!(handler_dealtile(&json(r#"{"tile": "3m"}"#)).is_none());

    let ev = handler_discardtile(&json(
        r#"{"seat": 3, "tile": "0p", "moqie": true, "is_liqi": false}"#,
    ))
    .unwrap();
    assert!(matches!(ev, Event::Discard(e)
        if e.seat == 3 && e.tile == Tile(1, 0) && e.is_drawn && !e.is_riichi));
    assert!(handler_discardtile(&json(r#"{"seat": 3, "tile": "0p", "moqie": true}"#)).is_none());
}

#[test]
fn events_of_calls_and_quads() {
    let ev = handler_chipenggang(&json(
        r#"{"seat": 1, "type": 0, "tiles": ["4s","5s","6s"], "froms": [1, 0, 1]}"#,
    ))
    .unwrap();
    assert!(matches!(ev, Event::Meld(e)
        if e.seat == 1 && e.meld_type == MeldType::Chi && e.consumed == vec![Tile(2, 4), Tile(2, 6)]));
    let ev = handler_chipenggang(&json(
        r#"{"seat": 2, "type": 2, "tiles": ["1z","1z","1z","1z"], "froms": [2, 2, 2, 0]}"#,
    ))
    .unwrap();
    assert!(matches!(ev, Event::Meld(e)
        if e.meld_type == MeldType::Minkan && e.consumed == vec![Tile(3, 1); 3]));
    assert!(handler_chipenggang(&json(
        r#"{"seat": 2, "type": 3, "tiles": ["1z"], "froms": [2]}"#
    ))
    .is_none());

    let ev = handler_angangaddgang(&json(r#"{"seat": 0, "type": 3, "tiles": "0m"}"#)).unwrap();
    assert!(matches!(ev, Event::Meld(e)
        if e.meld_type == MeldType::Ankan
            && e.consumed == vec![Tile(0, 5), Tile(0, 5), Tile(0, 5), Tile(0, 0)]));
    let ev = handler_angangaddgang(&json(r#"{"seat": 0, "type": 3, "tiles": "2z"}"#)).unwrap();
    assert!(matches!(ev, Event::Meld(e) if e.consumed == vec![Tile(3, 2); 4]));
    let ev = handler_angangaddgang(&json(r#"{"seat": 0, "type": 2, "tiles": "0m"}"#)).unwrap();
    assert!(matches!(ev, Event::Meld(e)
        if e.meld_type == MeldType::Kakan && e.consumed == vec![Tile(0, 0)]));
    assert!(handler_angangaddgang(&json(r#"{"seat": 0, "type": 1, "tiles": "0m"}"#)).is_none());

    let ev = handler_babei(&json(r#"{"seat": 2, "moqie": false}"#)).unwrap();
    assert!(matches!(ev, Event::Kita(e) if e.seat == 2 && !e.is_drawn));
}

#[test]
fn event_of_a_new_round() {
    let data = json(
        r#"{"chang": 1, "ju": 2, "ben": 3, "liqibang": 4, "doras": ["5z"],
            "scores": [25000, 24000, 26000, 25000],
            "tiles": ["1m","2m","3m","4m","5m","6m","7m","8m","9m","1p","2p","3p","4p"]}"#,
    );
    let ev = handler_newround(&data, 1).unwrap();
    let e: EventNew = match ev {
        Event::New(e) => e,
        _ => panic!(),
    };
    assert_eq!((e.bakaze, e.kyoku, e.honba, e.kyoutaku, e.mode), (1, 2, 3, 4, 0));
    assert_eq!(e.doras, vec![Tile(3, 5)]);
    assert_eq!(e.scores, [25000, 24000, 26000, 25000]);
    assert_eq!(e.hands[0], vec![Tile(3, 8); 13]);
    assert_eq!(e.hands[1].len(), 13);
    assert_eq!(e.hands[1][0], Tile(0, 1));
    assert_eq!(e.hands[2], vec![Tile(3, 8); 14]);
    assert_eq!(e.hands[3], vec![Tile(3, 8); 13]);
    // the event can start a round
    let mut stg = blank_stage();
    let ev = Event::New(e);
    assert!(mahjong_core::controller::check::check_event(&stg, &ev));
    handle_event(&mut stg, &ev);
    assert_eq!(stg.turn, 2);
    // without a seat the own tiles are not read
    assert!(handler_newround(&json(r#"{"chang":0,"ju":0,"ben":0,"liqibang":0,"doras":[],"scores":[]}"#), NO_SEAT).is_some());
    assert!(handler_newround(&json(r#"{"chang":0,"ju":0,"ben":0,"liqibang":0,"doras":[],"scores":[]}"#), 0).is_none());
}

#[test]
fn events_of_the_end_of_a_round() {
    let data = json(
        r#"{"delta_scores": [8000, -8000, 0, 0],
            "hules": [{"seat": 0, "count": 5, "yiman": false, "fu": 30,
                       "point_rong": 8000, "point_zimo_xian": 2000, "point_zimo_qin": 4000},
                      {"seat": 2, "count": 1, "yiman": true, "fu": 40,
                       "point_rong": 32000, "point_zimo_xian": 8000}]}"#,
    );
    let ev = handler_hule(&data).unwrap();
    let e = match ev {
        Event::Win(e) => e,
        _ => panic!(),
    };
    assert!(e.ura_doras.is_empty());
    assert_eq!(e.contexts.len(), 2);
    assert_eq!(e.contexts[0].0, 0);
    assert_eq!(e.contexts[0].1, [8000, -8000, 0, 0]);
    assert_eq!((e.contexts[0].2.fu, e.contexts[0].2.fan, e.contexts[0].2.yakuman_times), (30, 5, 0));
    assert_eq!(e.contexts[0].2.points, (8000, 2000, 4000));
    assert_eq!(e.contexts[1].1, [0, 0, 0, 0]);
    assert_eq!((e.contexts[1].2.fan, e.contexts[1].2.yakuman_times), (0, 1));
    assert_eq!(e.contexts[1].2.points, (32000, 8000, 0));
    assert!(handler_hule(&json(r#"{"delta_scores": [], "hules": [{"seat": 0}]}"#)).is_none());

    let ev = handler_liuju();
    assert!(matches!(ev, Event::Draw(e) if e.draw_type == DrawType::Kyushukyuhai
        && e.points == [0; 4] && e.tenpais == [false; 4]));

    let data = json(
        r#"{"scores": [{"delta_scores": [1500, 1500, -1500, -1500]}],
            "players": [{"tingpai": true}, {"tingpai": true}, {"tingpai": false}, {"tingpai": false}]}"#,
    );
    let ev = handler_notile(&data).unwrap();
    assert!(matches!(ev, Event::Draw(e) if e.draw_type == DrawType::Kouhaiheikyoku
        && e.points == [1500, 1500, -1500, -1500] && e.tenpais == [true, true, false, false]));
    let ev = handler_notile(&json(r#"{"players": []}"#)).unwrap();
    assert!(matches!(ev, Event::Draw(e) if e.points == [0; 4] && e.tenpais == [false; 4]));
    assert!(handler_notile(&json(r#"{"players": [{"tingpai": 1}]}"#)).is_none());
}

#[test]
fn new_dora_is_the_last_indicator() {
    let data = json(r#"{"doras": ["1m", "2z"]}"#);
    assert!(matches!(update_doras(&data, 1), Some(Some(Event::Dora(e))) if e.tile == Tile(3, 2)));
    assert!(matches!(update_doras(&data, 2), Some(None)));
    assert!(matches!(update_doras(&json("{}"), 0), Some(None)));
    assert!(update_doras(&json(r#"{"doras": ["1m", "zz"]}"#), 1).is_none());
}

#[test]
fn events_by_message_name() {
    let evs = events_of_message(
        "ActionDealTile",
        &json(r#"{"seat": 0, "tile": "1m", "doras": ["1m", "2z"]}"#),
        0,
        1,
    )
    .unwrap();
    assert_eq!(evs.len(), 2);
    assert!(matches!(evs[0], Event::Dora(_)));
    assert!(matches!(evs[1], Event::Deal(_)));
    let evs = events_of_message(
        "ActionDiscardTile",
        &json(r#"{"seat": 0, "tile": "1m", "moqie": false, "is_liqi": true, "doras": ["1m", "2z"]}"#),
        0,
        1,
    )
    .unwrap();
    assert_eq!(evs.len(), 2);
    assert!(matches!(evs[0], Event::Discard(_)));
    assert!(matches!(evs[1], Event::Dora(_)));
    assert_eq!(events_of_message("ActionMJStart", &json("{}"), 0, 0).unwrap().len(), 1);
    assert_eq!(events_of_message("ActionLiuJu", &json("{}"), 0, 0).unwrap().len(), 1);
    assert!(events_of_message("ActionUnknown", &json("{}"), 0, 0).is_none());
    assert!(events_of_message("ActionBabei", &json("{}"), 0, 0).is_none());
}

#[test]
fn messages_are_classified() {
    assert_eq!(
        classify(&json(r#"{"id": "id_mjaction", "type": "message"}"#)),
        Some(MessageKind::Live)
    );
    assert_eq!(
        classify(&json(r#"{"id": "id_mjaction", "type": "message_cache"}"#)),
        Some(MessageKind::Cached)
    );
    assert_eq!(
        classify(&json(r#"{"id": "id_mjaction", "type": "success"}"#)),
        Some(MessageKind::Other)
    );
    assert_eq!(classify(&json(r#"{"id": "other"}"#)), Some(MessageKind::Other));
    assert_eq!(classify(&json(r#"{"id": 1}"#)), None);
}

#[test]
fn game_finds_its_seat() {
    let mut g = Mahjongsoul::new();
    assert_eq!(g.seat, NO_SEAT);
    assert!(g.pending().is_none());
    let first = json(r#"{"step": 0, "name": "ActionNewRound", "data": {}}"#);
    let acc = g.accept(&first).unwrap();
    assert_eq!((acc.released, acc.seated, acc.ready), (None, None, false));
    assert_eq!(g.events.len(), 1);
    let second = json(r#"{"step": 1, "name": "ActionDealTile", "data": {"seat": 2, "tile": "1m"}}"#);
    let acc = g.accept(&second).unwrap();
    assert_eq!((acc.released, acc.seated, acc.ready), (None, Some(2), true));
    assert_eq!(g.seat, 2);
    assert_eq!(g.events.len(), 2);
    assert!(in_step(g.pending().unwrap(), 0));
    assert!(!g.is_last());
    g.advance();
    assert!(in_step(g.pending().unwrap(), 1));
    assert!(g.is_last());
    g.advance();
    assert!(g.pending().is_none());
    // a new round releases the seat
    let acc = g.accept(&first).unwrap();
    assert_eq!((acc.released, acc.seated, acc.ready), (Some(2), None, false));
    assert_eq!((g.step, g.seat, g.events.len()), (0, NO_SEAT, 1));
    // the seat that is asked to act is the observer's
    let asked = json(
        r#"{"step": 1, "name": "ActionDiscardTile", "data": {"operation": {"seat": 3, "operation_list": []}}}"#,
    );
    let acc = g.accept(&asked).unwrap();
    assert_eq!(acc.seated, Some(3));
    assert!(offered_operation(&asked["data"]).is_some());
    assert!(offered_operation(&first["data"]).is_none());
    // a message without its step is refused and changes nothing
    assert!(g.accept(&json(r#"{"name": "x"}"#)).is_none());
    assert_eq!(g.events.len(), 2);
}
