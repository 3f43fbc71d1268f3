//! Messages of a live table as events of the model.

use crate::hand::win::WinContext;
use crate::mahjongsoul::action::{
    int_i32, int_usize, str_tile, symbol_tile, tiles_of, value_i32, value_tile, value_tiles,
    value_usize,
};
use crate::model::define::{Point, Seat, SEAT, TZ, UK};
use crate::model::event::{
    Event, EventBegin, EventDeal, EventDiscard, EventDora, EventDraw, EventKita, EventMeld,
    EventNew, EventWin,
};
use crate::model::meld::MeldType;
use crate::model::stage::DrawType;
use crate::model::tile::Tile;
use crate::util::json::{
    json_array, json_at, json_bool, json_get, json_i64, json_item, json_member, json_str,
    json_truth, json_view, JsonView,
};
use crate::util::text::str_eq;
use serde_json::Value;
use vstd::prelude::*;

verus! {

/// Up to four scores of a JSON array, the seats that it leaves out at 0.
/// `None` for anything but an array of at most four integers of 32 bits.
pub open spec fn scores_of(j: JsonView) -> Option<Seq<i32>> {
    match j {
        JsonView::Array(a) => if a.len() <= SEAT && forall|i: int|
            0 <= i < a.len() ==> int_i32(#[trigger] a[i]) is Some {
            Some(
                Seq::new(
                    SEAT as nat,
                    |s: int|
                        if s < a.len() {
                            int_i32(a[s])->0
                        } else {
                            0i32
                        },
                ),
            )
        } else {
            None
        },
        _ => None,
    }
}

/// Up to four scores of a value.
pub fn value_scores(v: &Value) -> (r: Option<[i32; SEAT]>)
    ensures
        r is Some == scores_of(json_view(*v)) is Some,
        r matches Some(p) ==> scores_of(json_view(*v)) == Some(p@),
{
    match json_array(v) {
        Some(items) => {
            if items.len() > SEAT {
                return None;
            }
            let ghost a = json_view(*v)->Array_0;
            let mut r: [i32; SEAT] = [0;SEAT];
            let mut i: usize = 0;
            while i < items.len()
                invariant
                    i <= items.len() <= SEAT,
                    a.len() == items.len(),
                    json_view(*v) == JsonView::Array(a),
                    forall|k: int| 0 <= k < a.len() ==> a[k] == json_view(#[trigger] items@[k]),
                    forall|k: int| 0 <= k < i ==> int_i32(#[trigger] a[k]) == Some(r@[k]),
                    forall|k: int| i <= k < SEAT ==> r@[k] == 0,
                decreases items.len() - i,
            {
                match value_i32(&items[i]) {
                    Some(n) => {
                        r[i] = n;
                    },
                    None => {
                        assert(int_i32(a[i as int]) is None);
                        return None;
                    },
                }
                i += 1;
            }
            assert(scores_of(json_view(*v))->0 =~= r@);
            Some(r)
        },
        None => None,
    }
}

/// The nonnegative integers of a JSON array.
pub open spec fn usizes_of(j: JsonView) -> Option<Seq<usize>> {
    match j {
        JsonView::Array(a) => if forall|i: int|
            0 <= i < a.len() ==> int_usize(#[trigger] a[i]) is Some {
            Some(Seq::new(a.len(), |i: int| int_usize(a[i])->0))
        } else {
            None
        },
        _ => None,
    }
}

/// The nonnegative integers of a value that holds an array of them.
pub fn value_usizes(v: &Value) -> (r: Option<Vec<usize>>)
    ensures
        r is Some == usizes_of(json_view(*v)) is Some,
        r matches Some(p) ==> usizes_of(json_view(*v)) == Some(p@),
{
    match json_array(v) {
        Some(items) => {
            let ghost a = json_view(*v)->Array_0;
            let mut r: Vec<usize> = Vec::new();
            let mut i: usize = 0;
            while i < items.len()
                invariant
                    i <= items.len(),
                    a.len() == items.len(),
                    json_view(*v) == JsonView::Array(a),
                    forall|k: int| 0 <= k < a.len() ==> a[k] == json_view(#[trigger] items@[k]),
                    r.len() == i,
                    forall|k: int| 0 <= k < i ==> int_usize(#[trigger] a[k]) == Some(r@[k]),
                decreases items.len() - i,
            {
                match value_usize(&items[i]) {
                    Some(n) => {
                        r.push(n);
                    },
                    None => {
                        assert(int_usize(a[i as int]) is None);
                        return None;
                    },
                }
                i += 1;
            }
            assert(usizes_of(json_view(*v))->0 =~= r@);
            Some(r)
        },
        None => None,
    }
}

/// The start of a game.
pub fn handler_mjstart() -> (r: Event)
    ensures
        r is Begin,
{
    Event::Begin(EventBegin {  })
}

/// What a message says of a tile drawn: the seat and the tile, which is
/// hidden where the message names none.
pub open spec fn deal_of(j: JsonView) -> Option<(Seat, Tile)> {
    match int_usize(json_member(j, "seat"@)) {
        Some(s) => match json_member(j, "tile"@) {
            JsonView::Str(sym) => match symbol_tile(sym) {
                Some(t) => Some((s, t)),
                None => None,
            },
            _ => Some((s, Tile(TZ, UK))),
        },
        None => None,
    }
}

/// The event of a tile drawn.
pub fn handler_dealtile(data: &Value) -> (r: Option<Event>)
    ensures
        match r {
            Some(Event::Deal(e)) => deal_of(json_view(*data)) == Some((e.seat, e.tile)),
            Some(_) => false,
            None => deal_of(json_view(*data)) is None,
        },
{
    let seat = match value_usize(json_get(data, "seat")) {
        Some(s) => s,
        None => {
            return None;
        },
    };
    let tile = match json_str(json_get(data, "tile")) {
        Some(sym) => match crate::mahjongsoul::action::tile_from_symbol(sym) {
            Some(t) => t,
            None => {
                return None;
            },
        },
        None => Tile(TZ, UK),
    };
    Some(Event::Deal(EventDeal { seat, tile }))
}

/// What a message says of a discard: seat, tile, whether the tile is the
/// one just drawn, and whether the discard declares riichi.
pub open spec fn discard_of(j: JsonView) -> Option<(Seat, Tile, bool, bool)> {
    match (
        int_usize(json_member(j, "seat"@)),
        str_tile(json_member(j, "tile"@)),
        json_truth(json_member(j, "moqie"@)),
        json_truth(json_member(j, "is_liqi"@)),
    ) {
        (Some(s), Some(t), Some(m), Some(r)) => Some((s, t, m, r)),
        _ => None,
    }
}

/// The event of a discard.
pub fn handler_discardtile(data: &Value) -> (r: Option<Event>)
    ensures
        match r {
            Some(Event::Discard(e)) => discard_of(json_view(*data)) == Some(
                (e.seat, e.tile, e.is_drawn, e.is_riichi),
            ),
            Some(_) => false,
            None => discard_of(json_view(*data)) is None,
        },
{
    match (
        value_usize(json_get(data, "seat")),
        value_tile(json_get(data, "tile")),
        json_bool(json_get(data, "moqie")),
        json_bool(json_get(data, "is_liqi")),
    ) {
        (Some(seat), Some(tile), Some(is_drawn), Some(is_riichi)) => Some(
            Event::Discard(EventDiscard { seat, tile, is_drawn, is_riichi }),
        ),
        _ => None,
    }
}

/// The new dora indicator that a message shows: the last of its
/// indicators, where it lists more of them than are known.
pub open spec fn new_dora_of(j: JsonView, known: usize) -> Option<JsonView> {
    match json_member(j, "doras"@) {
        JsonView::Array(a) => if a.len() > known {
            Some(a.last())
        } else {
            None
        },
        _ => None,
    }
}

/// The event of a new dora indicator, if the message shows one. The outer
/// `None` stands for an indicator that is no tile symbol.
pub fn update_doras(data: &Value, known: usize) -> (r: Option<Option<Event>>)
    ensures
        match new_dora_of(json_view(*data), known) {
            None => r matches Some(None),
            Some(last) => match str_tile(last) {
                Some(t) => r matches Some(Some(Event::Dora(e))) && e.tile == t,
                None => r is None,
            },
        },
{
    match json_array(json_get(data, "doras")) {
        Some(doras) => {
            if doras.len() > known {
                match value_tile(&doras[doras.len() - 1]) {
                    Some(t) => Some(Some(Event::Dora(EventDora { tile: t }))),
                    None => None,
                }
            } else {
                Some(None)
            }
        },
        None => Some(None),
    }
}

/// The tiles among the first `n` of `tiles` that come from `seat`.
pub open spec fn own_tiles(tiles: Seq<Tile>, froms: Seq<usize>, seat: Seat, n: int) -> Seq<Tile>
    decreases n,
{
    if n <= 0 {
        Seq::empty()
    } else {
        let before = own_tiles(tiles, froms, seat, n - 1);
        if froms[n - 1] == seat {
            before.push(tiles[n - 1])
        } else {
            before
        }
    }
}

/// The kind of a call by its number: 0 chi, 1 pon, 2 minkan.
pub open spec fn call_type(n: usize) -> Option<MeldType> {
    if n == 0 {
        Some(MeldType::Chi)
    } else if n == 1 {
        Some(MeldType::Pon)
    } else if n == 2 {
        Some(MeldType::Minkan)
    } else {
        None
    }
}

/// What a message says of a call: the caller, the kind, and the tiles that
/// come from the caller's own hand.
pub open spec fn call_of(j: JsonView) -> Option<(Seat, MeldType, Seq<Tile>)> {
    match (
        int_usize(json_member(j, "seat"@)),
        int_usize(json_member(j, "type"@)),
        tiles_of(json_member(j, "tiles"@)),
        usizes_of(json_member(j, "froms"@)),
    ) {
        (Some(s), Some(n), Some(tiles), Some(froms)) => match call_type(n) {
            Some(tp) => Some(
                (
                    s,
                    tp,
                    own_tiles(
                        tiles,
                        froms,
                        s,
                        if tiles.len() <= froms.len() {
                            tiles.len() as int
                        } else {
                            froms.len() as int
                        },
                    ),
                ),
            ),
            None => None,
        },
        _ => None,
    }
}

/// The event of a call.
pub fn handler_chipenggang(data: &Value) -> (r: Option<Event>)
    ensures
        match r {
            Some(Event::Meld(e)) => call_of(json_view(*data)) == Some(
                (e.seat, e.meld_type, e.consumed@),
            ),
            Some(_) => false,
            None => call_of(json_view(*data)) is None,
        },
{
    match (
        value_usize(json_get(data, "seat")),
        value_usize(json_get(data, "type")),
        value_tiles(json_get(data, "tiles")),
        value_usizes(json_get(data, "froms")),
    ) {
        (Some(seat), Some(n), Some(tiles), Some(froms)) => {
            let meld_type = if n == 0 {
                MeldType::Chi
            } else if n == 1 {
                MeldType::Pon
            } else if n == 2 {
                MeldType::Minkan
            } else {
                return None;
            };
            let len = if tiles.len() <= froms.len() {
                tiles.len()
            } else {
                froms.len()
            };
            let mut consumed: Vec<Tile> = Vec::new();
            let mut i: usize = 0;
            while i < len
                invariant
                    i <= len,
                    len <= tiles.len(),
                    len <= froms.len(),
                    consumed@ == own_tiles(tiles@, froms@, seat, i as int),
                decreases len - i,
            {
                if froms[i] == seat {
                    consumed.push(tiles[i]);
                }
                i += 1;
            }
            Some(Event::Meld(EventMeld { seat, meld_type, consumed }))
        },
        _ => None,
    }
}

/// The tiles of a quad declared from the hand. A concealed quad takes four
/// tiles of the plain kind, the last of them the red five where the kind
/// is a five of a suit; a promotion takes the one tile named.
pub open spec fn quad_tiles(tp: MeldType, t: Tile) -> Seq<Tile> {
    if tp == MeldType::Ankan {
        let n = t.spec_to_normal();
        let last = if n.0 != TZ && n.1 == 5 {
            Tile(n.0, 0)
        } else {
            n
        };
        seq![n, n, n, last]
    } else {
        seq![t]
    }
}

/// The kind of a quad declared from the hand by its number: 2 kakan, 3 ankan.
pub open spec fn quad_type(n: usize) -> Option<MeldType> {
    if n == 2 {
        Some(MeldType::Kakan)
    } else if n == 3 {
        Some(MeldType::Ankan)
    } else {
        None
    }
}

/// What a message says of a quad declared from the hand.
pub open spec fn quad_of(j: JsonView) -> Option<(Seat, MeldType, Seq<Tile>)> {
    match (
        int_usize(json_member(j, "seat"@)),
        int_usize(json_member(j, "type"@)),
        str_tile(json_member(j, "tiles"@)),
    ) {
        (Some(s), Some(n), Some(t)) => match quad_type(n) {
            Some(tp) => Some((s, tp, quad_tiles(tp, t))),
            None => None,
        },
        _ => None,
    }
}

/// The event of a quad declared from the hand.
pub fn handler_angangaddgang(data: &Value) -> (r: Option<Event>)
    ensures
        match r {
            Some(Event::Meld(e)) => quad_of(json_view(*data)) == Some(
                (e.seat, e.meld_type, e.consumed@),
            ),
            Some(_) => false,
            None => quad_of(json_view(*data)) is None,
        },
{
    match (
        value_usize(json_get(data, "seat")),
        value_usize(json_get(data, "type")),
        value_tile(json_get(data, "tiles")),
    ) {
        (Some(seat), Some(n), Some(t)) => {
            if n == 2 {
                let consumed: Vec<Tile> = vec![t];
                assert(consumed@ =~= quad_tiles(MeldType::Kakan, t));
                Some(Event::Meld(EventMeld { seat, meld_type: MeldType::Kakan, consumed }))
            } else if n == 3 {
                let t = t.to_normal();
                let t0 = if t.is_suit() && t.1 == 5 {
                    Tile(t.0, 0)
                } else {
                    t
                };
                let consumed: Vec<Tile> = vec![t, t, t, t0];
                assert(consumed@ =~= seq![t, t, t, t0]);
                Some(Event::Meld(EventMeld { seat, meld_type: MeldType::Ankan, consumed }))
            } else {
                None
            }
        },
        _ => None,
    }
}

/// What a message says of a north tile set aside.
pub open spec fn kita_of(j: JsonView) -> Option<(Seat, bool)> {
    match (int_usize(json_member(j, "seat"@)), json_truth(json_member(j, "moqie"@))) {
        (Some(s), Some(m)) => Some((s, m)),
        _ => None,
    }
}

/// The event of a north tile set aside.
pub fn handler_babei(data: &Value) -> (r: Option<Event>)
    ensures
        match r {
            Some(Event::Kita(e)) => kita_of(json_view(*data)) == Some((e.seat, e.is_drawn)),
            Some(_) => false,
            None => kita_of(json_view(*data)) is None,
        },
{
    match (value_usize(json_get(data, "seat")), json_bool(json_get(data, "moqie"))) {
        (Some(seat), Some(is_drawn)) => Some(Event::Kita(EventKita { seat, is_drawn })),
        _ => None,
    }
}

/// What a message says of the start of a round.
pub struct NewRound {
    pub bakaze: usize,
    pub kyoku: usize,
    pub honba: usize,
    pub kyoutaku: usize,
    pub doras: Seq<Tile>,
    pub scores: Seq<i32>,
    pub hands: Seq<Seq<Tile>>,
}

/// The hand dealt to seat `s` as the observer at `seat` sees it: the
/// observer's own tiles, fourteen hidden tiles for a dealer, thirteen for
/// anyone else.
pub open spec fn dealt_hand(s: int, seat: Seat, kyoku: usize, own: Seq<Tile>) -> Seq<Tile> {
    if s == seat {
        own
    } else if s == kyoku {
        Seq::new(14, |i: int| Tile(TZ, UK))
    } else {
        Seq::new(13, |i: int| Tile(TZ, UK))
    }
}

/// What a message says of the start of a round, seen from `seat`. The
/// message's own tiles are read only where `seat` is a seat.
pub open spec fn new_round_of(j: JsonView, seat: Seat) -> Option<NewRound> {
    match (
        int_usize(json_member(j, "chang"@)),
        int_usize(json_member(j, "ju"@)),
        int_usize(json_member(j, "ben"@)),
        int_usize(json_member(j, "liqibang"@)),
        tiles_of(json_member(j, "doras"@)),
        scores_of(json_member(j, "scores"@)),
    ) {
        (Some(bakaze), Some(kyoku), Some(honba), Some(kyoutaku), Some(doras), Some(scores)) => {
            let own = tiles_of(json_member(j, "tiles"@));
            if seat < SEAT && own is None {
                None
            } else {
                Some(
                    NewRound {
                        bakaze,
                        kyoku,
                        honba,
                        kyoutaku,
                        doras,
                        scores,
                        hands: Seq::new(SEAT as nat, |s: int| dealt_hand(s, seat, kyoku, own->0)),
                    },
                )
            }
        },
        _ => None,
    }
}

/// Whether `ev` is the start of a round as the message tells it.
pub open spec fn new_round_event(j: JsonView, seat: Seat, ev: Event) -> bool {
    ev matches Event::New(e) && e.mode == 0 && new_round_of(j, seat) == Some(
        NewRound {
            bakaze: e.bakaze,
            kyoku: e.kyoku,
            honba: e.honba,
            kyoutaku: e.kyoutaku,
            doras: e.doras@,
            scores: e.scores@,
            hands: Seq::new(SEAT as nat, |s: int| e.hands[s]@),
        },
    )
}

fn hidden_hand(n: usize) -> (r: Vec<Tile>)
    ensures
        r@ == Seq::new(n as nat, |i: int| Tile(TZ, UK)),
{
    let mut r: Vec<Tile> = Vec::new();
    let mut i: usize = 0;
    while i < n
        invariant
            i <= n,
            r@ == Seq::new(i as nat, |i: int| Tile(TZ, UK)),
        decreases n - i,
    {
        r.push(Tile(TZ, UK));
        assert(r@ =~= Seq::new((i + 1) as nat, |i: int| Tile(TZ, UK)));
        i += 1;
    }
    r
}

fn dealt_to(s: usize, seat: Seat, kyoku: usize, own: &Option<Vec<Tile>>) -> (r: Vec<Tile>)
    requires
        s == seat ==> own is Some,
    ensures
        r@ == dealt_hand(s as int, seat, kyoku, own->0@),
{
    if s == seat {
        match own {
            Some(t) => crate::model::tile::copy_tiles(t),
            None => Vec::new(),
        }
    } else if s == kyoku {
        hidden_hand(14)
    } else {
        hidden_hand(13)
    }
}

/// The event of the start of a round, seen from `seat`.
pub fn handler_newround(data: &Value, seat: Seat) -> (r: Option<Event>)
    ensures
        match r {
            Some(ev) => new_round_event(json_view(*data), seat, ev),
            None => new_round_of(json_view(*data), seat) is None,
        },
{
    match (
        value_usize(json_get(data, "chang")),
        value_usize(json_get(data, "ju")),
        value_usize(json_get(data, "ben")),
        value_usize(json_get(data, "liqibang")),
        value_tiles(json_get(data, "doras")),
        value_scores(json_get(data, "scores")),
    ) {
        (Some(bakaze), Some(kyoku), Some(honba), Some(kyoutaku), Some(doras), Some(scores)) => {
            let own = if seat < SEAT {
                let own = value_tiles(json_get(data, "tiles"));
                if own.is_none() {
                    return None;
                }
                own
            } else {
                None
            };
            let hands = [
                dealt_to(0, seat, kyoku, &own),
                dealt_to(1, seat, kyoku, &own),
                dealt_to(2, seat, kyoku, &own),
                dealt_to(3, seat, kyoku, &own),
            ];
            let e = EventNew { bakaze, kyoku, honba, kyoutaku, doras, scores, hands, mode: 0 };
            proof {
                let want = new_round_of(json_view(*data), seat)->0;
                assert(Seq::new(SEAT as nat, |s: int| e.hands[s]@) =~= want.hands);
            }
            Some(Event::New(e))
        },
        _ => None,
    }
}

/// What a message says of one win.
pub struct WinRead {
    pub seat: Seat,
    pub fu: usize,
    pub fan: usize,
    pub yakuman_times: usize,
    pub points: (Point, Point, Point),
}

/// What the dealer pays on a tsumo, which a message may leave out.
pub open spec fn dealer_payment_of(j: JsonView) -> Option<Point> {
    match j {
        JsonView::Int(_) => int_i32(j),
        _ => Some(0i32),
    }
}

/// What a message says of one win: a yakuman counts its multiples, any
/// other hand its fan.
pub open spec fn win_of(j: JsonView) -> Option<WinRead> {
    match (
        int_usize(json_member(j, "seat"@)),
        int_usize(json_member(j, "count"@)),
        json_truth(json_member(j, "yiman"@)),
        int_usize(json_member(j, "fu"@)),
        int_i32(json_member(j, "point_rong"@)),
        int_i32(json_member(j, "point_zimo_xian"@)),
        dealer_payment_of(json_member(j, "point_zimo_qin"@)),
    ) {
        (Some(seat), Some(count), Some(yakuman), Some(fu), Some(ron), Some(each), Some(dealer)) => {
            Some(
                WinRead {
                    seat,
                    fu,
                    fan: if yakuman {
                        0
                    } else {
                        count
                    },
                    yakuman_times: if yakuman {
                        count
                    } else {
                        0
                    },
                    points: (ron, each, dealer),
                },
            )
        },
        _ => None,
    }
}

/// The wins of a message, in its order.
pub open spec fn wins_of(j: JsonView) -> Option<Seq<WinRead>> {
    match json_member(j, "hules"@) {
        JsonView::Array(a) => if forall|i: int| 0 <= i < a.len() ==> win_of(#[trigger] a[i]) is Some {
            Some(Seq::new(a.len(), |i: int| win_of(a[i])->0))
        } else {
            None
        },
        _ => None,
    }
}

/// Whether one entry of a win event holds what the message tells of the
/// win at `i`. The message gives the score changes of all wins together:
/// they stand with the first win, and the others carry none.
pub open spec fn win_entry_matches(
    entry: (Seat, [Point; SEAT], WinContext),
    w: WinRead,
    deltas: Seq<i32>,
    i: int,
) -> bool {
    &&& entry.0 == w.seat
    &&& entry.1@ == (if i == 0 {
        deltas
    } else {
        Seq::new(SEAT as nat, |s: int| 0i32)
    })
    &&& entry.2.yakus@.len() == 0
    &&& entry.2.fu == w.fu
    &&& entry.2.fan == w.fan
    &&& entry.2.yakuman_times == w.yakuman_times
    &&& entry.2.score_title@.len() == 0
    &&& entry.2.points == w.points
}

/// Whether `ev` is the end of a round by wins as the message tells it.
pub open spec fn win_event(j: JsonView, ev: Event) -> bool {
    &&& ev matches Event::Win(e)
    &&& e.ura_doras@.len() == 0
    &&& wins_of(j) matches Some(wins)
    &&& scores_of(json_member(j, "delta_scores"@)) matches Some(deltas)
    &&& e.contexts.len() == wins.len()
    &&& forall|i: int|
        0 <= i < wins.len() ==> win_entry_matches(#[trigger] e.contexts[i], wins[i], deltas, i)
}

fn value_win(v: &Value) -> (r: Option<(Seat, WinContext)>)
    ensures
        r is Some == win_of(json_view(*v)) is Some,
        r matches Some((seat, ctx)) ==> {
            let w = win_of(json_view(*v))->0;
            &&& seat == w.seat
            &&& ctx.yakus@.len() == 0
            &&& ctx.fu == w.fu
            &&& ctx.fan == w.fan
            &&& ctx.yakuman_times == w.yakuman_times
            &&& ctx.score_title@.len() == 0
            &&& ctx.points == w.points
        },
{
    let dealer_value = json_get(v, "point_zimo_qin");
    let dealer = match json_i64(dealer_value) {
        Some(_) => value_i32(dealer_value),
        None => Some(0),
    };
    match (
        value_usize(json_get(v, "seat")),
        value_usize(json_get(v, "count")),
        json_bool(json_get(v, "yiman")),
        value_usize(json_get(v, "fu")),
        value_i32(json_get(v, "point_rong")),
        value_i32(json_get(v, "point_zimo_xian")),
        dealer,
    ) {
        (Some(seat), Some(count), Some(yakuman), Some(fu), Some(ron), Some(each), Some(dealer)) => {
            let ctx = WinContext {
                yakus: Vec::new(),
                fu,
                fan: if yakuman {
                    0
                } else {
                    count
                },
                yakuman_times: if yakuman {
                    count
                } else {
                    0
                },
                score_title: String::new(),
                points: (ron, each, dealer),
            };
            Some((seat, ctx))
        },
        _ => None,
    }
}

/// The event of the end of a round by wins.
pub fn handler_hule(data: &Value) -> (r: Option<Event>)
    ensures
        match r {
            Some(ev) => win_event(json_view(*data), ev),
            None => wins_of(json_view(*data)) is None || scores_of(
                json_member(json_view(*data), "delta_scores"@),
            ) is None,
        },
{
    let deltas = match value_scores(json_get(data, "delta_scores")) {
        Some(d) => d,
        None => {
            return None;
        },
    };
    let list = json_get(data, "hules");
    match json_array(list) {
        Some(items) => {
            let ghost a = json_view(*list)->Array_0;
            let mut contexts: Vec<(Seat, [Point; SEAT], WinContext)> = Vec::new();
            let mut i: usize = 0;
            while i < items.len()
                invariant
                    i <= items.len(),
                    a.len() == items.len(),
                    json_member(json_view(*data), "hules"@) == JsonView::Array(a),
                    forall|k: int| 0 <= k < a.len() ==> a[k] == json_view(#[trigger] items@[k]),
                    contexts.len() == i,
                    forall|k: int| 0 <= k < i ==> win_of(#[trigger] a[k]) is Some,
                    forall|k: int|
                        0 <= k < i ==> win_entry_matches(
                            #[trigger] contexts@[k],
                            win_of(a[k])->0,
                            deltas@,
                            k,
                        ),
                decreases items.len() - i,
            {
                match value_win(&items[i]) {
                    Some((seat, ctx)) => {
                        let d: [Point; SEAT] = if i == 0 {
                            deltas
                        } else {
                            [0;SEAT]
                        };
                        assert(i != 0 ==> d@ =~= Seq::new(SEAT as nat, |s: int| 0i32));
                        contexts.push((seat, d, ctx));
                    },
                    None => {
                        assert(win_of(a[i as int]) is None);
                        return None;
                    },
                }
                i += 1;
            }
            Some(Event::Win(EventWin { ura_doras: Vec::new(), contexts }))
        },
        None => None,
    }
}

/// Whether `ev` is a round that ends without a win, with no hands shown.
pub open spec fn draw_event(ev: Event, tp: DrawType, tenpais: Seq<bool>, points: Seq<i32>) -> bool {
    &&& ev matches Event::Draw(e)
    &&& e.draw_type == tp
    &&& forall|s: int| 0 <= s < SEAT ==> (#[trigger] e.hands[s]).len() == 0
    &&& e.tenpais@ == tenpais
    &&& e.points@ == points
}

fn draw_of(tp: DrawType, tenpais: [bool; SEAT], points: [Point; SEAT]) -> (r: Event)
    ensures
        draw_event(r, tp, tenpais@, points@),
{
    Event::Draw(
        EventDraw {
            draw_type: tp,
            hands: [Vec::new(), Vec::new(), Vec::new(), Vec::new()],
            tenpais,
            points,
        },
    )
}

/// The event of an abortive draw. The message does not say of which kind;
/// the event names nine terminals.
pub fn handler_liuju() -> (r: Event)
    ensures
        draw_event(
            r,
            DrawType::Kyushukyuhai,
            Seq::new(SEAT as nat, |s: int| false),
            Seq::new(SEAT as nat, |s: int| 0i32),
        ),
{
    let tenpais = [false;SEAT];
    let points = [0;SEAT];
    assert(tenpais@ =~= Seq::new(SEAT as nat, |s: int| false));
    assert(points@ =~= Seq::new(SEAT as nat, |s: int| 0i32));
    draw_of(DrawType::Kyushukyuhai, tenpais, points)
}

/// Who is tenpai, by a JSON array of up to four players, each with the
/// member `tingpai`; the seats that it leaves out are not.
pub open spec fn tenpais_of(j: JsonView) -> Option<Seq<bool>> {
    match j {
        JsonView::Array(a) => if a.len() <= SEAT && forall|i: int|
            0 <= i < a.len() ==> json_truth(json_member(#[trigger] a[i], "tingpai"@)) is Some {
            Some(
                Seq::new(
                    SEAT as nat,
                    |s: int|
                        if s < a.len() {
                            json_truth(json_member(a[s], "tingpai"@))->0
                        } else {
                            false
                        },
                ),
            )
        } else {
            None
        },
        _ => None,
    }
}

/// The payments of an exhaustive draw: the score changes of the first
/// entry of the message's scores, and none where it has no such array.
pub open spec fn draw_points_of(j: JsonView) -> Option<Seq<i32>> {
    let d = json_member(json_item(json_member(j, "scores"@), 0), "delta_scores"@);
    if d is Array {
        scores_of(d)
    } else {
        Some(Seq::new(SEAT as nat, |s: int| 0i32))
    }
}

fn value_tenpais(v: &Value) -> (r: Option<[bool; SEAT]>)
    ensures
        r is Some == tenpais_of(json_view(*v)) is Some,
        r matches Some(p) ==> tenpais_of(json_view(*v)) == Some(p@),
{
    match json_array(v) {
        Some(items) => {
            if items.len() > SEAT {
                return None;
            }
            let ghost a = json_view(*v)->Array_0;
            let mut r: [bool; SEAT] = [false;SEAT];
            let mut i: usize = 0;
            while i < items.len()
                invariant
                    i <= items.len() <= SEAT,
                    a.len() == items.len(),
                    json_view(*v) == JsonView::Array(a),
                    forall|k: int| 0 <= k < a.len() ==> a[k] == json_view(#[trigger] items@[k]),
                    forall|k: int|
                        0 <= k < i ==> json_truth(json_member(#[trigger] a[k], "tingpai"@))
                            == Some(r@[k]),
                    forall|k: int| i <= k < SEAT ==> r@[k] == false,
                decreases items.len() - i,
            {
                match json_bool(json_get(&items[i], "tingpai")) {
                    Some(b) => {
                        r[i] = b;
                    },
                    None => {
                        assert(json_truth(json_member(a[i as int], "tingpai"@)) is None);
                        return None;
                    },
                }
                i += 1;
            }
            assert(tenpais_of(json_view(*v))->0 =~= r@);
            Some(r)
        },
        None => None,
    }
}

/// The event of an exhaustive draw.
pub fn handler_notile(data: &Value) -> (r: Option<Event>)
    ensures
        match r {
            Some(ev) => {
                &&& tenpais_of(json_member(json_view(*data), "players"@)) matches Some(t)
                &&& draw_points_of(json_view(*data)) matches Some(p)
                &&& draw_event(ev, DrawType::Kouhaiheikyoku, t, p)
            },
            None => tenpais_of(json_member(json_view(*data), "players"@)) is None
                || draw_points_of(json_view(*data)) is None,
        },
{
    let d = json_get(json_at(json_get(data, "scores"), 0), "delta_scores");
    let points: [Point; SEAT] = if json_array(d).is_some() {
        match value_scores(d) {
            Some(p) => p,
            None => {
                return None;
            },
        }
    } else {
        let p = [0;SEAT];
        assert(p@ =~= Seq::new(SEAT as nat, |s: int| 0i32));
        p
    };
    match value_tenpais(json_get(data, "players")) {
        Some(tenpais) => Some(draw_of(DrawType::Kouhaiheikyoku, tenpais, points)),
        None => None,
    }
}

/// Whether the events in `evs` are those that a message of the given name
/// and content stands for. A draw or a discard may bring a new dora
/// indicator with it: it comes before the draw and after the discard.
pub open spec fn message_events(
    name: Seq<char>,
    j: JsonView,
    seat: Seat,
    known: usize,
    evs: Seq<Event>,
) -> bool {
    if name == "ActionMJStart"@ {
        evs.len() == 1 && evs[0] is Begin
    } else if name == "ActionNewRound"@ {
        evs.len() == 1 && new_round_event(j, seat, evs[0])
    } else if name == "ActionDealTile"@ {
        &&& evs.len() >= 1
        &&& evs.last() matches Event::Deal(e) && deal_of(j) == Some((e.seat, e.tile))
        &&& dora_events(j, known, evs.drop_last())
    } else if name == "ActionDiscardTile"@ {
        &&& evs.len() >= 1
        &&& evs[0] matches Event::Discard(e) && discard_of(j) == Some(
            (e.seat, e.tile, e.is_drawn, e.is_riichi),
        )
        &&& dora_events(j, known, evs.drop_first())
    } else if name == "ActionChiPengGang"@ {
        &&& evs.len() == 1
        &&& evs[0] matches Event::Meld(e) && call_of(j) == Some((e.seat, e.meld_type, e.consumed@))
    } else if name == "ActionAnGangAddGang"@ {
        &&& evs.len() == 1
        &&& evs[0] matches Event::Meld(e) && quad_of(j) == Some((e.seat, e.meld_type, e.consumed@))
    } else if name == "ActionBabei"@ {
        &&& evs.len() == 1
        &&& evs[0] matches Event::Kita(e) && kita_of(j) == Some((e.seat, e.is_drawn))
    } else if name == "ActionHule"@ {
        evs.len() == 1 && win_event(j, evs[0])
    } else if name == "ActionLiuJu"@ {
        evs.len() == 1 && draw_event(
            evs[0],
            DrawType::Kyushukyuhai,
            Seq::new(SEAT as nat, |s: int| false),
            Seq::new(SEAT as nat, |s: int| 0i32),
        )
    } else if name == "ActionNoTile"@ {
        &&& evs.len() == 1
        &&& tenpais_of(json_member(j, "players"@)) matches Some(t)
        &&& draw_points_of(j) matches Some(p)
        &&& draw_event(evs[0], DrawType::Kouhaiheikyoku, t, p)
    } else {
        false
    }
}

/// Whether `evs` holds the new dora indicator that the message shows, and
/// nothing where it shows none.
pub open spec fn dora_events(j: JsonView, known: usize, evs: Seq<Event>) -> bool {
    match new_dora_of(j, known) {
        None => evs.len() == 0,
        Some(last) => {
            &&& evs.len() == 1
            &&& evs[0] matches Event::Dora(e) && str_tile(last) == Some(e.tile)
        },
    }
}

/// Whether a message of the given name and content can be read.
pub open spec fn message_readable(name: Seq<char>, j: JsonView, seat: Seat, known: usize) -> bool {
    let dora_ok = match new_dora_of(j, known) {
        None => true,
        Some(last) => str_tile(last) is Some,
    };
    if name == "ActionMJStart"@ {
        true
    } else if name == "ActionNewRound"@ {
        new_round_of(j, seat) is Some
    } else if name == "ActionDealTile"@ {
        deal_of(j) is Some && dora_ok
    } else if name == "ActionDiscardTile"@ {
        discard_of(j) is Some && dora_ok
    } else if name == "ActionChiPengGang"@ {
        call_of(j) is Some
    } else if name == "ActionAnGangAddGang"@ {
        quad_of(j) is Some
    } else if name == "ActionBabei"@ {
        kita_of(j) is Some
    } else if name == "ActionHule"@ {
        wins_of(j) is Some && scores_of(json_member(j, "delta_scores"@)) is Some
    } else if name == "ActionLiuJu"@ {
        true
    } else if name == "ActionNoTile"@ {
        tenpais_of(json_member(j, "players"@)) is Some && draw_points_of(j) is Some
    } else {
        false
    }
}

fn one_event(ev: Option<Event>) -> (r: Option<Vec<Event>>)
    ensures
        r is Some == ev is Some,
        r matches Some(v) ==> v@ == seq![ev->0],
{
    match ev {
        Some(e) => {
            let mut v: Vec<Event> = Vec::new();
            v.push(e);
            Some(v)
        },
        None => None,
    }
}

/// The events that a message of the given name and content stands for,
/// seen from `seat`, when `known` dora indicators lie open. `None` where
/// the name is not one of the table's or the content cannot be read.
pub fn events_of_message(name: &str, data: &Value, seat: Seat, known: usize) -> (r: Option<
    Vec<Event>,
>)
    ensures
        r is Some == message_readable(name@, json_view(*data), seat, known),
        r matches Some(evs) ==> message_events(name@, json_view(*data), seat, known, evs@),
{
    if str_eq(name, "ActionMJStart") {
        one_event(Some(handler_mjstart()))
    } else if str_eq(name, "ActionNewRound") {
        one_event(handler_newround(data, seat))
    } else if str_eq(name, "ActionDealTile") {
        let dora = match update_doras(data, known) {
            Some(d) => d,
            None => {
                return None;
            },
        };
        let deal = match handler_dealtile(data) {
            Some(e) => e,
            None => {
                return None;
            },
        };
        let mut v: Vec<Event> = Vec::new();
        match dora {
            Some(e) => {
                v.push(e);
            },
            None => {},
        }
        v.push(deal);
        assert(v@.drop_last() =~= if dora is Some {
            seq![dora->0]
        } else {
            Seq::<Event>::empty()
        });
        Some(v)
    } else if str_eq(name, "ActionDiscardTile") {
        let discard = match handler_discardtile(data) {
            Some(e) => e,
            None => {
                return None;
            },
        };
        let dora = match update_doras(data, known) {
            Some(d) => d,
            None => {
                return None;
            },
        };
        let mut v: Vec<Event> = Vec::new();
        v.push(discard);
        match dora {
            Some(e) => {
                v.push(e);
            },
            None => {},
        }
        assert(v@.drop_first() =~= if dora is Some {
            seq![dora->0]
        } else {
            Seq::<Event>::empty()
        });
        Some(v)
    } else if str_eq(name, "ActionChiPengGang") {
        one_event(handler_chipenggang(data))
    } else if str_eq(name, "ActionAnGangAddGang") {
        one_event(handler_angangaddgang(data))
    } else if str_eq(name, "ActionBabei") {
        one_event(handler_babei(data))
    } else if str_eq(name, "ActionHule") {
        one_event(handler_hule(data))
    } else if str_eq(name, "ActionLiuJu") {
        one_event(Some(handler_liuju()))
    } else if str_eq(name, "ActionNoTile") {
        one_event(handler_notile(data))
    } else {
        None
    }
}

} // verus!
