use mahjong_core::calculator::parse::tiles_from_string;
use mahjong_core::controller::reducer::{blank_stage, handle_event};
use mahjong_core::convert::tenhou::{tile_to_tenhou, tiles_to_tenhou, TenhouSerializer};
use mahjong_core::hand::win::WinContext;
use mahjong_core::model::action::ActionType;
use mahjong_core::model::event::{
    Event, EventBegin, EventDeal, EventDiscard, EventDora, EventDraw, EventEnd, EventMeld,
    EventNew, EventWin,
};
use mahjong_core::model::meld::{Meld, MeldType};
use mahjong_core::model::stage::DrawType;
use mahjong_core::model::tile::Tile;
use serde_json::Value;

fn t(s: &str) -> Vec<Tile> {
    tiles_from_string(s).unwrap()
}

fn json(s: &str) -> Value {
    serde_json::from_str(s).unwrap()
}

#[test]
fn tiles_as_log_numbers() {
    assert_eq!(tile_to_tenhou(Tile(3, 8)), 0);
    assert_eq!(tile_to_tenhou(Tile(0, 0)), 51);
    assert_eq!(tile_to_tenhou(Tile(2, 0)), 53);
    assert_eq!(tile_to_tenhou(Tile(0, 1)), 11);
    assert_eq!(tile_to_tenhou(Tile(2, 9)), 39);
    assert_eq!(tile_to_tenhou(Tile(3, 7)), 47);
    assert_eq!(tiles_to_tenhou(&t("m1p0z7")), vec![11, 52, 47]);
}

#[test]
fn log_of_a_round() {
    let mut stg = blank_stage();
    let mut ser = TenhouSerializer::new();
    let mut play = |stg: &mut mahjong_core::model::stage::Stage, ev: Event| {
        ser.push_event(stg, &ev);
        handle_event(stg, &ev);
    };
    play(&mut stg, Event::Begin(EventBegin {}));
    play(
        &mut stg,
        Event::New(EventNew {
            bakaze: 1,
            kyoku: 2,
            honba: 3,
            kyoutaku: 4,
            doras: t("m1"),
            scores: [25000, 24000, 26000, 25000],
            hands: [
                t("m123456789p1234"),
                t("p46s12345678m11z6"),
                t("p55m23456789s33z1p9"),
                t("z1112223334445"),
            ],
            mode: 0,
        }),
    );
    play(&mut stg, Event::Discard(EventDiscard { seat: 2, tile: Tile(1, 9), is_drawn: true, is_riichi: false }));
    play(&mut stg, Event::Deal(EventDeal { seat: 3, tile: Tile(3, 8) }));
    play(&mut stg, Event::Discard(EventDiscard { seat: 3, tile: Tile(1, 5), is_drawn: false, is_riichi: true }));
    play(&mut stg, Event::Meld(EventMeld { seat: 2, meld_type: MeldType::Pon, consumed: t("p55") }));
    play(&mut stg, Event::Dora(EventDora { tile: Tile(3, 6) }));
    play(&mut stg, Event::Discard(EventDiscard { seat: 2, tile: Tile(3, 1), is_drawn: false, is_riichi: false }));
    play(
        &mut stg,
        Event::Draw(EventDraw {
            draw_type: DrawType::Kouhaiheikyoku,
            hands: [vec![], vec![], vec![], vec![]],
            tenpais: [false; 4],
            points: [0, 0, 1000, -1000],
        }),
    );
    play(&mut stg, Event::End(EventEnd {}));
    let want = json(
        r#"[[6,3,4],[25000,24000,26000,25000],[11,46],[],
            [11,12,13,14,15,16,17,18,19,21,22,23,24],[],[],
            [24,26,31,32,33,34,35,36,37,38,11,11,46],[],[],
            [25,25,12,13,14,15,16,17,18,19,33,33,41],[29,"2525p25"],[60,41],
            [41,41,41,42,42,42,43,43,43,44,44,44,45],[0],["r25"],
            ["流局",[0,0,1000,-1000]]]"#,
    );
    assert_eq!(ser.kyoku_log(), want);
}

#[test]
fn log_of_quads() {
    let mut stg = blank_stage();
    stg.players[1].melds.push(Meld {
        step: 3,
        seat: 1,
        type_: MeldType::Pon,
        tiles: t("s555"),
        froms: vec![1, 3, 1],
    });
    stg.last_tile = Some((0, ActionType::Discard, Tile(0, 3)));
    let mut ser = TenhouSerializer::new();
    ser.push_event(&stg, &Event::Meld(EventMeld { seat: 1, meld_type: MeldType::Kakan, consumed: t("s0") }));
    ser.push_event(&stg, &Event::Meld(EventMeld { seat: 1, meld_type: MeldType::Kakan, consumed: t("z1") }));
    ser.push_event(&stg, &Event::Meld(EventMeld { seat: 2, meld_type: MeldType::Ankan, consumed: t("m5550") }));
    ser.push_event(&stg, &Event::Meld(EventMeld { seat: 3, meld_type: MeldType::Chi, consumed: t("m12") }));
    ser.push_event(&stg, &Event::Meld(EventMeld { seat: 2, meld_type: MeldType::Minkan, consumed: t("m333") }));
    ser.push_event(&stg, &Event::Meld(EventMeld { seat: 1, meld_type: MeldType::Pon, consumed: t("m33") }));
    let log = ser.kyoku_log();
    assert_eq!(log[8], json(r#"["p131313"]"#));
    assert_eq!(log[9], json(r#"["35k533535"]"#));
    assert_eq!(log[11], json(r#"["13m131313"]"#));
    assert_eq!(log[12], json(r#"["151515a51"]"#));
    assert_eq!(log[14], json(r#"["1112c13"]"#));
}

#[test]
fn log_of_wins() {
    let mut stg = blank_stage();
    stg.turn = 1;
    let mut ser = TenhouSerializer::new();
    let ctx = |title: &str, fu, fan, points| WinContext {
        yakus: vec![("立直".to_string(), 1), ("ドラ".to_string(), 2)],
        fu,
        fan,
        yakuman_times: 0,
        score_title: title.to_string(),
        points,
    };
    ser.push_event(
        &stg,
        &Event::Win(EventWin {
            ura_doras: t("z1"),
            contexts: vec![
                (1, [-700, 1500, -400, -400], ctx("", 30, 3, (0, 400, 700))),
                (1, [-4000, 12000, -4000, -4000], ctx("満貫", 30, 5, (0, 4000, 0))),
                (2, [0, -8000, 8000, 0], ctx("二倍役満", 30, 5, (8000, 2000, 4000))),
            ],
        }),
    );
    let want = json(
        r#"[[0,0,0],[0,0,0,0],[],[41],[],[],[],[],[],[],[],[],[],[],[],[],
            ["和了",
             [-700,1500,-400,-400],[1,1,1,"30符3飜400-700点","立直(1飜)","ドラ(2飜)"],
             [-4000,12000,-4000,-4000],[1,1,1,"満貫4000点∀","立直(1飜)","ドラ(2飜)"],
             [0,-8000,8000,0],[2,1,2,"役満8000点","立直(1飜)","ドラ(2飜)"]]]"#,
    );
    assert_eq!(ser.kyoku_log(), want);
}
