//! The Tenhou log format: one round of play as a JSON array.
//!
//! A [`TenhouSerializer`] follows the events of a round and collects what
//! the log of that round holds. What it has collected is described by
//! [`KyokuView`]; what an event adds to it is described by [`pushed`].

use crate::hand::win::WinContext;
use crate::model::define::{Point, Score, Seat, SEAT, TNUM, TYPE, TZ, UK};
use crate::model::event::{Event, EventMeld, EventNew, EventWin};
use crate::model::meld::{Meld, MeldType};
use crate::model::stage::Stage;
use crate::model::tile::Tile;
use crate::util::json::{
    json_clone, json_from_i64, json_from_string, json_from_usize, json_from_vec, json_view,
    json_views, JsonView,
};
use crate::util::text::{
    decimal, i64_to_string, push_char, signed_decimal, str_eq, usize_to_string,
};
use serde_json::Value;
use vstd::prelude::*;
use vstd::slice::slice_subrange;
use vstd::string::StringExecFns;

verus! {

/// The rule block of a log.
#[derive(Debug, Default)]
pub struct TenhouRule {
    pub disp: String,
    pub aka: usize,
    pub aka51: usize,
    pub aka52: usize,
    pub aka53: usize,
}

/// What the log holds of one player.
#[derive(Debug)]
pub struct TenhouPlayer {
    /// The thirteen tiles dealt.
    pub hand: Vec<i64>,
    /// The tiles taken in, draws and calls alike.
    pub drawns: Vec<Value>,
    /// The tiles given away, with the quads declared in between.
    pub discards: Vec<Value>,
}

/// What the log holds of one round.
#[derive(Debug)]
pub struct TenhouKyoku {
    pub kyoku: usize,
    pub honba: usize,
    pub kyoutaku: usize,
    pub scores: [Score; SEAT],
    pub doras: Vec<i64>,
    pub ura_doras: Vec<i64>,
    pub players: [TenhouPlayer; SEAT],
    pub result: String,
    pub result_detail: Vec<Vec<Value>>,
}

/// Follows the events of a round and builds its log.
#[derive(Debug)]
pub struct TenhouSerializer {
    pub kyoku: TenhouKyoku,
}

/// The content of a [`TenhouPlayer`].
pub struct PlayerView {
    pub hand: Seq<i64>,
    pub drawns: Seq<JsonView>,
    pub discards: Seq<JsonView>,
}

/// The content of a [`TenhouKyoku`].
pub struct KyokuView {
    pub kyoku: usize,
    pub honba: usize,
    pub kyoutaku: usize,
    pub scores: Seq<Score>,
    pub doras: Seq<i64>,
    pub ura_doras: Seq<i64>,
    pub players: Seq<PlayerView>,
    pub result: Seq<char>,
    pub result_detail: Seq<Seq<JsonView>>,
}

impl View for TenhouPlayer {
    type V = PlayerView;

    open spec fn view(&self) -> PlayerView {
        PlayerView {
            hand: self.hand@,
            drawns: json_views(self.drawns@),
            discards: json_views(self.discards@),
        }
    }
}

impl View for TenhouKyoku {
    type V = KyokuView;

    open spec fn view(&self) -> KyokuView {
        KyokuView {
            kyoku: self.kyoku,
            honba: self.honba,
            kyoutaku: self.kyoutaku,
            scores: self.scores@,
            doras: self.doras@,
            ura_doras: self.ura_doras@,
            players: Seq::new(SEAT as nat, |s: int| self.players[s]@),
            result: self.result@,
            result_detail: Seq::new(
                self.result_detail@.len(),
                |i: int| json_views(self.result_detail@[i]@),
            ),
        }
    }
}

/// The number that stands for a tile in the log: 0 for the hidden tile,
/// 51 to 53 for the red fives, and suit (1 to 4) times ten plus rank for
/// every other tile.
pub open spec fn spec_tile_to_tenhou(t: Tile) -> int {
    if t == Tile(TZ, UK) {
        0
    } else if t.1 == 0 {
        50 + t.0 + 1
    } else {
        (t.0 + 1) * 10 + t.1
    }
}

/// The log numbers of a sequence of tiles.
pub open spec fn spec_tiles_to_tenhou(s: Seq<Tile>) -> Seq<i64> {
    Seq::new(s.len(), |i: int| spec_tile_to_tenhou(s[i]) as i64)
}

/// Whether every tile of `s` addresses a slot of a hand table.
pub open spec fn tiles_in_table(s: Seq<Tile>) -> bool {
    forall|i: int| 0 <= i < s.len() ==> (#[trigger] s[i]).in_table()
}

/// The log number of a tile.
pub fn tile_to_tenhou(t: Tile) -> (r: i64)
    requires
        t.in_table(),
    ensures
        r == spec_tile_to_tenhou(t),
        0 <= r <= 60,
{
    if t.0 == TZ && t.1 == UK {
        0
    } else if t.1 == 0 {
        (50 + t.0 + 1) as i64
    } else {
        ((t.0 + 1) * 10 + t.1) as i64
    }
}

/// The log numbers of a run of tiles.
pub fn tiles_to_tenhou(v: &[Tile]) -> (r: Vec<i64>)
    requires
        tiles_in_table(v@),
    ensures
        r@ == spec_tiles_to_tenhou(v@),
{
    let mut r: Vec<i64> = Vec::new();
    let mut i: usize = 0;
    while i < v.len()
        invariant
            i <= v.len(),
            tiles_in_table(v@),
            r@ == spec_tiles_to_tenhou(v@.take(i as int)),
        decreases v.len() - i,
    {
        r.push(tile_to_tenhou(v[i]));
        assert(r@ =~= spec_tiles_to_tenhou(v@.take(i + 1)));
        i += 1;
    }
    assert(v@.take(v.len() as int) == v@);
    r
}

/// The decimal numeral of a tile's log number.
pub open spec fn tenhou_digits(t: Tile) -> Seq<char> {
    signed_decimal(spec_tile_to_tenhou(t))
}

/// The numerals of the tiles of `s`, one after the other.
pub open spec fn joined_digits(s: Seq<Tile>) -> Seq<char>
    decreases s.len(),
{
    if s.len() == 0 {
        Seq::empty()
    } else {
        joined_digits(s.drop_last()) + tenhou_digits(s.last())
    }
}

/// The log entry of a call: the numerals of the tiles from the caller's
/// hand, with the marker and the numeral of the called tile put in at `pos`.
pub open spec fn call_text(consumed: Seq<Tile>, pos: int, marker: char, called: Tile) -> Seq<
    char,
> {
    joined_digits(consumed.take(pos)) + seq![marker] + tenhou_digits(called) + joined_digits(
        consumed.skip(pos),
    )
}

/// The place of the called tile within a call, by where the discarder sits:
/// 0 for the left neighbour, 1 for the seat across, 2 for the right
/// neighbour.
pub open spec fn call_pos(discarder: Seat, caller: Seat) -> int {
    3 - (discarder + SEAT - caller) % (SEAT as int)
}

/// The marker of a call in the log.
pub open spec fn call_marker(t: MeldType) -> char {
    match t {
        MeldType::Chi => 'c',
        MeldType::Pon => 'p',
        _ => 'm',
    }
}

/// The log entry of a concealed quad: the letter `a` before the last tile.
pub open spec fn ankan_text(consumed: Seq<Tile>) -> Seq<char> {
    joined_digits(consumed.take(3)) + seq!['a'] + joined_digits(consumed.skip(3))
}

/// One tile of a promoted pon in the log: the added tile, marked `k`,
/// stands before the tile that was called.
pub open spec fn kakan_part(m: Meld, seat: Seat, added: Tile, i: int) -> Seq<char> {
    (if m.froms[i] != seat {
        seq!['k'] + tenhou_digits(added)
    } else {
        Seq::empty()
    }) + tenhou_digits(m.tiles[i])
}

/// The log entry of a promoted pon.
pub open spec fn kakan_text(m: Meld, seat: Seat, added: Tile) -> Seq<char> {
    kakan_part(m, seat, added, 0) + kakan_part(m, seat, added, 1) + kakan_part(m, seat, added, 2)
}

/// The log entries of a promotion: one for each meld of the seat whose
/// first tile is of the added tile's kind.
pub open spec fn kakan_entries(melds: Seq<Meld>, seat: Seat, added: Tile) -> Seq<JsonView>
    decreases melds.len(),
{
    if melds.len() == 0 {
        Seq::empty()
    } else {
        let before = kakan_entries(melds.drop_last(), seat, added);
        let m = melds.last();
        if m.tiles[0].spec_to_normal() == added.spec_to_normal() {
            before.push(JsonView::Str(kakan_text(m, seat, added)))
        } else {
            before
        }
    }
}

/// A discard in the log: 60 for the tile just drawn, else the tile's
/// number; as a string after the letter `r` where it declares riichi.
pub open spec fn discard_entry(tile: Tile, is_drawn: bool, is_riichi: bool) -> JsonView {
    let d: int = if is_drawn {
        60
    } else {
        spec_tile_to_tenhou(tile)
    };
    if is_riichi {
        JsonView::Str(seq!['r'] + signed_decimal(d))
    } else {
        JsonView::Int(d as i64)
    }
}

/// A `usize` as a JSON number.
pub open spec fn usize_json(n: usize) -> JsonView {
    if n <= i64::MAX {
        JsonView::Int(n as i64)
    } else {
        JsonView::Number
    }
}

/// Payments or score changes as JSON numbers.
pub open spec fn points_json(p: Seq<Point>) -> Seq<JsonView> {
    Seq::new(p.len(), |i: int| JsonView::Int(p[i] as i64))
}

/// The limit named in a log entry: fu and fan where the hand reaches no
/// limit, and plain yakuman for every multiple or counted yakuman.
pub open spec fn title_text(ctx: WinContext) -> Seq<char> {
    if ctx.score_title@.len() == 0 {
        decimal(ctx.fu as nat) + "符"@ + decimal(ctx.fan as nat) + "飜"@
    } else if ctx.score_title@ == "数え役満"@ || ctx.score_title@ == "二倍役満"@
        || ctx.score_title@ == "三倍役満"@ {
        "役満"@
    } else {
        ctx.score_title@
    }
}

/// The payment named in a log entry: for a tsumo what each pays (one
/// amount where the winner is the dealer), for a ron what the discarder pays.
pub open spec fn payment_text(ctx: WinContext, is_tsumo: bool) -> Seq<char> {
    if is_tsumo {
        if ctx.points.2 == 0 {
            title_text(ctx) + signed_decimal(ctx.points.1 as int) + "点∀"@
        } else {
            title_text(ctx) + signed_decimal(ctx.points.1 as int) + "-"@ + signed_decimal(
                ctx.points.2 as int,
            ) + "点"@
        }
    } else {
        title_text(ctx) + signed_decimal(ctx.points.0 as int) + "点"@
    }
}

/// One yaku in a log entry.
pub open spec fn yaku_text(name: Seq<char>, fan: usize) -> Seq<char> {
    name + "("@ + decimal(fan as nat) + "飜)"@
}

/// The yaku of a win in a log entry.
pub open spec fn yaku_entries(yakus: Seq<(String, usize)>) -> Seq<JsonView> {
    Seq::new(yakus.len(), |i: int| JsonView::Str(yaku_text(yakus[i].0@, yakus[i].1)))
}

/// The log entry of one win: winner, seat that pays, winner, payment, yaku.
pub open spec fn win_detail(seat: Seat, turn: Seat, ctx: WinContext) -> Seq<JsonView> {
    seq![
        usize_json(seat),
        usize_json(turn),
        usize_json(seat),
        JsonView::Str(payment_text(ctx, seat == turn)),
    ] + yaku_entries(ctx.yakus@)
}

/// The log entries of the wins of a round: for each win the score changes,
/// then its entry.
pub open spec fn win_details(wins: Seq<(Seat, [Point; SEAT], WinContext)>, turn: Seat) -> Seq<
    Seq<JsonView>,
>
    decreases wins.len(),
{
    if wins.len() == 0 {
        Seq::empty()
    } else {
        let w = wins.last();
        win_details(wins.drop_last(), turn).push(points_json(w.1@)).push(
            win_detail(w.0, turn, w.2),
        )
    }
}

impl PlayerView {
    /// A player of whom nothing is logged yet.
    pub open spec fn empty() -> PlayerView {
        PlayerView { hand: Seq::empty(), drawns: Seq::empty(), discards: Seq::empty() }
    }
}

impl KyokuView {
    /// A round of which nothing is logged yet.
    pub open spec fn empty() -> KyokuView {
        KyokuView {
            kyoku: 0,
            honba: 0,
            kyoutaku: 0,
            scores: Seq::new(SEAT as nat, |i: int| 0i32),
            doras: Seq::empty(),
            ura_doras: Seq::empty(),
            players: Seq::new(SEAT as nat, |i: int| PlayerView::empty()),
            result: Seq::empty(),
            result_detail: Seq::empty(),
        }
    }

    /// The round with `v` added to what `seat` has taken in.
    pub open spec fn with_drawn(self, seat: Seat, v: JsonView) -> KyokuView {
        let p = self.players[seat as int];
        KyokuView {
            players: self.players.update(
                seat as int,
                PlayerView { drawns: p.drawns.push(v), ..p },
            ),
            ..self
        }
    }

    /// The round with the entries `vs` added to what `seat` has given away.
    pub open spec fn with_discards(self, seat: Seat, vs: Seq<JsonView>) -> KyokuView {
        let p = self.players[seat as int];
        KyokuView {
            players: self.players.update(
                seat as int,
                PlayerView { discards: p.discards + vs, ..p },
            ),
            ..self
        }
    }
}

/// What the log holds of a player at the start of a round: the first
/// thirteen tiles as the hand, a fourteenth as the first draw.
pub open spec fn dealt_player(hand: Seq<Tile>) -> PlayerView {
    PlayerView {
        hand: spec_tiles_to_tenhou(hand.take(13)),
        drawns: if hand.len() == 14 {
            seq![JsonView::Int(spec_tile_to_tenhou(hand[13]) as i64)]
        } else {
            Seq::empty()
        },
        discards: Seq::empty(),
    }
}

/// What the log holds of a round when it starts.
pub open spec fn new_kyoku(e: EventNew) -> KyokuView {
    KyokuView {
        kyoku: (e.bakaze * 4 + e.kyoku) as usize,
        honba: e.honba,
        kyoutaku: e.kyoutaku,
        scores: e.scores@,
        doras: spec_tiles_to_tenhou(e.doras@),
        ura_doras: Seq::empty(),
        players: Seq::new(SEAT as nat, |s: int| dealt_player(e.hands[s]@)),
        result: Seq::empty(),
        result_detail: Seq::empty(),
    }
}

/// What a meld adds to the log of a round.
pub open spec fn melded(k: KyokuView, stg: Stage, e: EventMeld) -> KyokuView {
    match e.meld_type {
        MeldType::Chi | MeldType::Pon | MeldType::Minkan => {
            let (seat, _, d) = stg.last_tile->0;
            k.with_drawn(
                e.seat,
                JsonView::Str(
                    call_text(e.consumed@, call_pos(seat, e.seat), call_marker(e.meld_type), d),
                ),
            )
        },
        MeldType::Kakan => k.with_discards(
            e.seat,
            kakan_entries(stg.players[e.seat as int].melds@, e.seat, e.consumed[0]),
        ),
        MeldType::Ankan => k.with_discards(e.seat, seq![JsonView::Str(ankan_text(e.consumed@))]),
    }
}

/// What an event adds to the log of a round.
pub open spec fn pushed(k: KyokuView, stg: Stage, event: Event) -> KyokuView {
    match event {
        Event::Begin(_) => k,
        Event::New(e) => new_kyoku(e),
        Event::Deal(e) => k.with_drawn(e.seat, JsonView::Int(spec_tile_to_tenhou(e.tile) as i64)),
        Event::Discard(e) => k.with_discards(
            e.seat,
            seq![discard_entry(e.tile, e.is_drawn, e.is_riichi)],
        ),
        Event::Meld(e) => melded(k, stg, e),
        Event::Kita(_) => k,
        Event::Dora(e) => KyokuView {
            doras: k.doras.push(spec_tile_to_tenhou(e.tile) as i64),
            ..k
        },
        Event::Win(e) => KyokuView {
            result: "和了"@,
            ura_doras: spec_tiles_to_tenhou(e.ura_doras@),
            result_detail: k.result_detail + win_details(e.contexts@, stg.turn),
            ..k
        },
        Event::Draw(e) => KyokuView {
            result: "流局"@,
            result_detail: k.result_detail.push(points_json(e.points@)),
            ..k
        },
        Event::End(_) => k,
    }
}

/// Whether a meld can be logged: the caller's seat and tiles are in range,
/// a call has a called tile and room for it among the caller's tiles, a
/// promotion names its tile, and a concealed quad has at least three tiles.
pub open spec fn meld_loggable(stg: Stage, e: EventMeld) -> bool {
    &&& e.seat < SEAT
    &&& tiles_in_table(e.consumed@)
    &&& match e.meld_type {
        MeldType::Chi | MeldType::Pon | MeldType::Minkan => match stg.last_tile {
            Some((seat, _, d)) => {
                &&& seat < SEAT
                &&& d.in_table()
                &&& call_pos(seat, e.seat) <= e.consumed.len()
            },
            None => false,
        },
        MeldType::Kakan => {
            &&& e.consumed.len() >= 1
            &&& forall|i: int|
                0 <= i < stg.players[e.seat as int].melds.len() ==> (
                #[trigger] stg.players[e.seat as int].melds[i]).wf()
        },
        MeldType::Ankan => e.consumed.len() >= 3,
    }
}

/// Whether the start of a round can be logged: the round's number fits,
/// every hand has at least thirteen tiles, and all tiles are in range.
pub open spec fn new_loggable(e: EventNew) -> bool {
    &&& e.bakaze * 4 + e.kyoku <= usize::MAX
    &&& tiles_in_table(e.doras@)
    &&& forall|s: int|
        0 <= s < SEAT ==> (#[trigger] e.hands[s]).len() >= 13 && tiles_in_table(e.hands[s]@)
}

/// Whether an event can be logged. A kita cannot: the log format of the
/// four-player game has no entry for it.
pub open spec fn loggable(stg: Stage, event: Event) -> bool {
    match event {
        Event::Begin(_) => true,
        Event::New(e) => new_loggable(e),
        Event::Deal(e) => e.seat < SEAT && e.tile.in_table(),
        Event::Discard(e) => e.seat < SEAT && e.tile.in_table(),
        Event::Meld(e) => meld_loggable(stg, e),
        Event::Kita(_) => false,
        Event::Dora(e) => e.tile.in_table(),
        Event::Win(e) => tiles_in_table(e.ura_doras@),
        Event::Draw(_) => true,
        Event::End(_) => true,
    }
}

/// The log of a round as JSON: the round's counters, the scores, the dora
/// and ura-dora indicators, three arrays for each player (hand, tiles taken
/// in, tiles given away), and the result with its entries.
pub open spec fn log_view(k: KyokuView) -> JsonView {
    JsonView::Array(
        seq![
            JsonView::Array(
                seq![usize_json(k.kyoku), usize_json(k.honba), usize_json(k.kyoutaku)],
            ),
            JsonView::Array(points_json(k.scores)),
            JsonView::Array(ints_json(k.doras)),
            JsonView::Array(ints_json(k.ura_doras)),
        ] + players_log(k.players) + seq![
            JsonView::Array(seq![JsonView::Str(k.result)] + arrays_json(k.result_detail)),
        ],
    )
}

/// Integers as JSON numbers.
pub open spec fn ints_json(s: Seq<i64>) -> Seq<JsonView> {
    Seq::new(s.len(), |i: int| JsonView::Int(s[i]))
}

/// Sequences as JSON arrays.
pub open spec fn arrays_json(s: Seq<Seq<JsonView>>) -> Seq<JsonView> {
    Seq::new(s.len(), |i: int| JsonView::Array(s[i]))
}

/// The three arrays of each player, one player after the other.
pub open spec fn players_log(players: Seq<PlayerView>) -> Seq<JsonView>
    decreases players.len(),
{
    if players.len() == 0 {
        Seq::empty()
    } else {
        let p = players.last();
        players_log(players.drop_last()) + seq![
            JsonView::Array(ints_json(p.hand)),
            JsonView::Array(p.drawns),
            JsonView::Array(p.discards),
        ]
    }
}

fn ints_to_json(v: &Vec<i64>) -> (r: Vec<Value>)
    ensures
        json_views(r@) == ints_json(v@),
{
    let mut r: Vec<Value> = Vec::new();
    let mut i: usize = 0;
    while i < v.len()
        invariant
            i <= v.len(),
            r.len() == i,
            forall|j: int| 0 <= j < i ==> json_view(#[trigger] r@[j]) == JsonView::Int(v@[j]),
        decreases v.len() - i,
    {
        r.push(json_from_i64(v[i]));
        i += 1;
    }
    assert(json_views(r@) =~= ints_json(v@));
    r
}

fn points_to_json(p: &[Point; SEAT]) -> (r: Vec<Value>)
    ensures
        json_views(r@) == points_json(p@),
{
    let mut r: Vec<Value> = Vec::new();
    let mut i: usize = 0;
    while i < SEAT
        invariant
            i <= SEAT,
            r.len() == i,
            forall|j: int|
                0 <= j < i ==> json_view(#[trigger] r@[j]) == JsonView::Int(p@[j] as i64),
        decreases SEAT - i,
    {
        r.push(json_from_i64(p[i] as i64));
        i += 1;
    }
    assert(json_views(r@) =~= points_json(p@));
    r
}

fn clone_values(v: &Vec<Value>) -> (r: Vec<Value>)
    ensures
        json_views(r@) == json_views(v@),
{
    let mut r: Vec<Value> = Vec::new();
    let mut i: usize = 0;
    while i < v.len()
        invariant
            i <= v.len(),
            r.len() == i,
            forall|j: int| 0 <= j < i ==> json_view(#[trigger] r@[j]) == json_view(v@[j]),
        decreases v.len() - i,
    {
        r.push(json_clone(&v[i]));
        i += 1;
    }
    assert(json_views(r@) =~= json_views(v@));
    r
}

/// Appends the numeral of a tile's log number.
fn append_digits(r: &mut String, t: Tile)
    requires
        t.in_table(),
    ensures
        final(r)@ == old(r)@ + tenhou_digits(t),
{
    let d = i64_to_string(tile_to_tenhou(t));
    r.append(d.as_str());
}

/// Appends the numerals of the tiles `tiles[from..to]`.
fn append_joined(r: &mut String, tiles: &Vec<Tile>, from: usize, to: usize)
    requires
        from <= to <= tiles.len(),
        tiles_in_table(tiles@),
    ensures
        final(r)@ == old(r)@ + joined_digits(tiles@.subrange(from as int, to as int)),
{
    let mut i: usize = from;
    assert(tiles@.subrange(from as int, from as int) =~= Seq::<Tile>::empty());
    assert(r@ =~= old(r)@ + joined_digits(tiles@.subrange(from as int, from as int)));
    while i < to
        invariant
            from <= i <= to <= tiles.len(),
            tiles_in_table(tiles@),
            r@ == old(r)@ + joined_digits(tiles@.subrange(from as int, i as int)),
        decreases to - i,
    {
        append_digits(r, tiles[i]);
        proof {
            let next = tiles@.subrange(from as int, i + 1);
            assert(next.drop_last() =~= tiles@.subrange(from as int, i as int));
            assert(next.last() == tiles@[i as int]);
            assert(r@ =~= old(r)@ + joined_digits(next));
        }
        i += 1;
    }
}

impl TenhouPlayer {
    /// A player of whom nothing is logged yet.
    pub fn new() -> (p: TenhouPlayer)
        ensures
            p@ == PlayerView::empty(),
    {
        let p = TenhouPlayer { hand: Vec::new(), drawns: Vec::new(), discards: Vec::new() };
        assert(json_views(p.drawns@) =~= Seq::<JsonView>::empty());
        assert(json_views(p.discards@) =~= Seq::<JsonView>::empty());
        p
    }

    fn dealt(hand: &Vec<Tile>) -> (p: TenhouPlayer)
        requires
            hand.len() >= 13,
            tiles_in_table(hand@),
        ensures
            p@ == dealt_player(hand@),
    {
        let first = tiles_to_tenhou(slice_subrange(hand.as_slice(), 0, 13));
        assert(hand@.subrange(0, 13) == hand@.take(13));
        let mut drawns: Vec<Value> = Vec::new();
        if hand.len() == 14 {
            drawns.push(json_from_i64(tile_to_tenhou(hand[13])));
        }
        let p = TenhouPlayer { hand: first, drawns, discards: Vec::new() };
        assert(json_views(p.drawns@) =~= dealt_player(hand@).drawns);
        assert(json_views(p.discards@) =~= Seq::<JsonView>::empty());
        p
    }
}

impl TenhouKyoku {
    /// A round of which nothing is logged yet.
    pub fn new() -> (k: TenhouKyoku)
        ensures
            k@ == KyokuView::empty(),
    {
        let k = TenhouKyoku {
            kyoku: 0,
            honba: 0,
            kyoutaku: 0,
            scores: [0;SEAT],
            doras: Vec::new(),
            ura_doras: Vec::new(),
            players: [
                TenhouPlayer::new(),
                TenhouPlayer::new(),
                TenhouPlayer::new(),
                TenhouPlayer::new(),
            ],
            result: String::new(),
            result_detail: Vec::new(),
        };
        assert(k@.scores =~= KyokuView::empty().scores);
        assert(k@.players =~= KyokuView::empty().players);
        assert(k@.result_detail =~= KyokuView::empty().result_detail);
        k
    }

    fn started(e: &EventNew) -> (k: TenhouKyoku)
        requires
            new_loggable(*e),
        ensures
            k@ == new_kyoku(*e),
    {
        let k = TenhouKyoku {
            kyoku: e.bakaze * 4 + e.kyoku,
            honba: e.honba,
            kyoutaku: e.kyoutaku,
            scores: e.scores,
            doras: tiles_to_tenhou(e.doras.as_slice()),
            ura_doras: Vec::new(),
            players: [
                TenhouPlayer::dealt(&e.hands[0]),
                TenhouPlayer::dealt(&e.hands[1]),
                TenhouPlayer::dealt(&e.hands[2]),
                TenhouPlayer::dealt(&e.hands[3]),
            ],
            result: String::new(),
            result_detail: Vec::new(),
        };
        assert(k@.players =~= new_kyoku(*e).players);
        assert(k@.result_detail =~= new_kyoku(*e).result_detail);
        k
    }

    fn take_in(&mut self, seat: Seat, v: Value)
        requires
            seat < SEAT,
        ensures
            final(self)@ == old(self)@.with_drawn(seat, json_view(v)),
    {
        let ghost before = self.players[seat as int].drawns@;
        self.players[seat].drawns.push(v);
        proof {
            assert(json_views(before.push(v)) =~= json_views(before).push(json_view(v)));
            assert(self@.players =~= old(self)@.with_drawn(seat, json_view(v)).players);
            assert(self@.result_detail =~= old(self)@.result_detail);
        }
    }

    fn give_away(&mut self, seat: Seat, v: Value)
        requires
            seat < SEAT,
        ensures
            final(self)@ == old(self)@.with_discards(seat, seq![json_view(v)]),
    {
        let ghost before = self.players[seat as int].discards@;
        self.players[seat].discards.push(v);
        proof {
            assert(json_views(before.push(v)) =~= json_views(before) + seq![json_view(v)]);
            assert(self@.players =~= old(self)@.with_discards(seat, seq![json_view(v)]).players);
            assert(self@.result_detail =~= old(self)@.result_detail);
        }
    }

    fn add_detail(&mut self, d: Vec<Value>)
        ensures
            final(self)@ == (KyokuView {
                result_detail: old(self)@.result_detail.push(json_views(d@)),
                ..old(self)@
            }),
    {
        self.result_detail.push(d);
        proof {
            assert(self@.players =~= old(self)@.players);
            assert(self@.result_detail =~= old(self)@.result_detail.push(json_views(d@)));
        }
    }
}

fn call_entry(consumed: &Vec<Tile>, pos: usize, marker: char, called: Tile) -> (r: String)
    requires
        pos <= consumed.len(),
        tiles_in_table(consumed@),
        called.in_table(),
    ensures
        r@ == call_text(consumed@, pos as int, marker, called),
{
    let mut r = String::new();
    append_joined(&mut r, consumed, 0, pos);
    push_char(&mut r, marker);
    append_digits(&mut r, called);
    append_joined(&mut r, consumed, pos, consumed.len());
    proof {
        assert(consumed@.subrange(0, pos as int) =~= consumed@.take(pos as int));
        assert(consumed@.subrange(pos as int, consumed.len() as int) =~= consumed@.skip(
            pos as int,
        ));
        assert(r@ =~= call_text(consumed@, pos as int, marker, called));
    }
    r
}

fn ankan_entry(consumed: &Vec<Tile>) -> (r: String)
    requires
        3 <= consumed.len(),
        tiles_in_table(consumed@),
    ensures
        r@ == ankan_text(consumed@),
{
    let mut r = String::new();
    append_joined(&mut r, consumed, 0, 3);
    push_char(&mut r, 'a');
    append_joined(&mut r, consumed, 3, consumed.len());
    proof {
        assert(consumed@.subrange(0, 3) =~= consumed@.take(3));
        assert(consumed@.subrange(3, consumed.len() as int) =~= consumed@.skip(3));
        assert(r@ =~= ankan_text(consumed@));
    }
    r
}

fn append_kakan_part(r: &mut String, m: &Meld, seat: Seat, added: Tile, i: usize)
    requires
        m.wf(),
        added.in_table(),
        i < 3,
    ensures
        final(r)@ == old(r)@ + kakan_part(*m, seat, added, i as int),
{
    if m.froms[i] != seat {
        push_char(r, 'k');
        append_digits(r, added);
    }
    assert(m.tiles[i as int].is_known());
    append_digits(r, m.tiles[i]);
    assert(r@ =~= old(r)@ + kakan_part(*m, seat, added, i as int));
}

fn kakan_entry(m: &Meld, seat: Seat, added: Tile) -> (r: String)
    requires
        m.wf(),
        added.in_table(),
    ensures
        r@ == kakan_text(*m, seat, added),
{
    let mut r = String::new();
    append_kakan_part(&mut r, m, seat, added, 0);
    append_kakan_part(&mut r, m, seat, added, 1);
    append_kakan_part(&mut r, m, seat, added, 2);
    assert(r@ =~= kakan_text(*m, seat, added));
    r
}

fn discard_value(tile: Tile, is_drawn: bool, is_riichi: bool) -> (v: Value)
    requires
        tile.in_table(),
    ensures
        json_view(v) == discard_entry(tile, is_drawn, is_riichi),
{
    let d: i64 = if is_drawn {
        60
    } else {
        tile_to_tenhou(tile)
    };
    if is_riichi {
        let mut r = String::new();
        push_char(&mut r, 'r');
        let digits = i64_to_string(d);
        r.append(digits.as_str());
        assert(r@ =~= seq!['r'] + signed_decimal(d as int));
        json_from_string(r)
    } else {
        json_from_i64(d)
    }
}

fn title_entry(ctx: &WinContext) -> (r: String)
    ensures
        r@ == title_text(*ctx),
{
    let title = ctx.score_title.as_str();
    if title.is_empty() {
        let mut r = usize_to_string(ctx.fu);
        r.append("符");
        let fan = usize_to_string(ctx.fan);
        r.append(fan.as_str());
        r.append("飜");
        r
    } else if str_eq(title, "数え役満") || str_eq(title, "二倍役満") || str_eq(
        title,
        "三倍役満",
    ) {
        String::from_str("役満")
    } else {
        ctx.score_title.clone()
    }
}

fn payment_entry(ctx: &WinContext, is_tsumo: bool) -> (r: String)
    ensures
        r@ == payment_text(*ctx, is_tsumo),
{
    let mut r = title_entry(ctx);
    if is_tsumo {
        let each = i64_to_string(ctx.points.1 as i64);
        r.append(each.as_str());
        if ctx.points.2 == 0 {
            r.append("点∀");
        } else {
            r.append("-");
            let dealer = i64_to_string(ctx.points.2 as i64);
            r.append(dealer.as_str());
            r.append("点");
        }
    } else {
        let all = i64_to_string(ctx.points.0 as i64);
        r.append(all.as_str());
        r.append("点");
    }
    r
}

fn yaku_entry(name: &String, fan: usize) -> (r: String)
    ensures
        r@ == yaku_text(name@, fan),
{
    let mut r = name.clone();
    r.append("(");
    let n = usize_to_string(fan);
    r.append(n.as_str());
    r.append("飜)");
    r
}

fn win_entry(seat: Seat, turn: Seat, ctx: &WinContext) -> (r: Vec<Value>)
    ensures
        json_views(r@) == win_detail(seat, turn, *ctx),
{
    let mut r: Vec<Value> = Vec::new();
    r.push(json_from_usize(seat));
    r.push(json_from_usize(turn));
    r.push(json_from_usize(seat));
    r.push(json_from_string(payment_entry(ctx, seat == turn)));
    let mut i: usize = 0;
    while i < ctx.yakus.len()
        invariant
            i <= ctx.yakus.len(),
            r.len() == 4 + i,
            json_view(r@[0]) == usize_json(seat),
            json_view(r@[1]) == usize_json(turn),
            json_view(r@[2]) == usize_json(seat),
            json_view(r@[3]) == JsonView::Str(payment_text(*ctx, seat == turn)),
            forall|k: int|
                4 <= k < 4 + i ==> json_view(#[trigger] r@[k]) == yaku_entries(ctx.yakus@)[k - 4],
        decreases ctx.yakus.len() - i,
    {
        let y = &ctx.yakus[i];
        r.push(json_from_string(yaku_entry(&y.0, y.1)));
        i += 1;
    }
    assert(json_views(r@) =~= win_detail(seat, turn, *ctx));
    r
}

impl TenhouKyoku {
    fn push_meld(&mut self, stg: &Stage, e: &EventMeld)
        requires
            meld_loggable(*stg, *e),
        ensures
            final(self)@ == melded(old(self)@, *stg, *e),
    {
        match e.meld_type {
            MeldType::Chi | MeldType::Pon | MeldType::Minkan => {
                let (seat, _, d) = stg.last_tile.unwrap();
                let pos = 3 - (seat + SEAT - e.seat) % SEAT;
                let marker = match e.meld_type {
                    MeldType::Chi => 'c',
                    MeldType::Pon => 'p',
                    _ => 'm',
                };
                let text = call_entry(&e.consumed, pos, marker, d);
                self.take_in(e.seat, json_from_string(text));
            },
            MeldType::Kakan => {
                let t = e.consumed[0];
                let tn = t.to_normal();
                let melds = &stg.players[e.seat].melds;
                let mut i: usize = 0;
                proof {
                    assert(melds@.take(0) =~= Seq::<Meld>::empty());
                    assert(self@.players =~= old(self)@.with_discards(
                        e.seat,
                        Seq::empty(),
                    ).players);
                }
                while i < melds.len()
                    invariant
                        i <= melds.len(),
                        e.seat < SEAT,
                        t.in_table(),
                        tn == t.spec_to_normal(),
                        forall|j: int| 0 <= j < melds.len() ==> (#[trigger] melds[j]).wf(),
                        self@ == old(self)@.with_discards(
                            e.seat,
                            kakan_entries(melds@.take(i as int), e.seat, t),
                        ),
                    decreases melds.len() - i,
                {
                    let m = &melds[i];
                    let ghost before = kakan_entries(melds@.take(i as int), e.seat, t);
                    let ghost mid = self@;
                    proof {
                        assert(m.wf());
                        assert(melds@.take(i + 1).drop_last() =~= melds@.take(i as int));
                        assert(melds@.take(i + 1).last() == *m);
                    }
                    if m.tiles[0].to_normal() == tn {
                        let text = kakan_entry(m, e.seat, t);
                        self.give_away(e.seat, json_from_string(text));
                        proof {
                            let after = kakan_entries(melds@.take(i + 1), e.seat, t);
                            assert(after =~= before + seq![JsonView::Str(kakan_text(*m, e.seat, t))]);
                            let was = old(self)@.players[e.seat as int];
                            assert(was.discards + after =~= (was.discards + before) + seq![
                                JsonView::Str(kakan_text(*m, e.seat, t)),
                            ]);
                            assert(self@.players =~= old(self)@.with_discards(
                                e.seat,
                                after,
                            ).players);
                        }
                    }
                    i += 1;
                }
                assert(melds@.take(melds.len() as int) == melds@);
            },
            MeldType::Ankan => {
                let text = ankan_entry(&e.consumed);
                self.give_away(e.seat, json_from_string(text));
            },
        }
    }

    fn push_win(&mut self, stg: &Stage, e: &EventWin)
        requires
            tiles_in_table(e.ura_doras@),
        ensures
            final(self)@ == pushed(old(self)@, *stg, Event::Win(*e)),
    {
        let target_seat = stg.turn;
        self.result = String::from_str("和了");
        self.ura_doras = tiles_to_tenhou(e.ura_doras.as_slice());
        let ghost start = self@;
        proof {
            assert(start.players =~= old(self)@.players);
            assert(start.result_detail =~= old(self)@.result_detail);
            assert(e.contexts@.take(0) =~= Seq::<(Seat, [Point; SEAT], WinContext)>::empty());
            assert(start.result_detail =~= start.result_detail + win_details(
                e.contexts@.take(0),
                target_seat,
            ));
        }
        let mut i: usize = 0;
        while i < e.contexts.len()
            invariant
                i <= e.contexts.len(),
                self@ == (KyokuView {
                    result_detail: start.result_detail + win_details(
                        e.contexts@.take(i as int),
                        target_seat,
                    ),
                    ..start
                }),
            decreases e.contexts.len() - i,
        {
            let w = &e.contexts[i];
            let ghost before = win_details(e.contexts@.take(i as int), target_seat);
            self.add_detail(points_to_json(&w.1));
            self.add_detail(win_entry(w.0, target_seat, &w.2));
            proof {
                assert(e.contexts@.take(i + 1).drop_last() =~= e.contexts@.take(i as int));
                assert(e.contexts@.take(i + 1).last() == *w);
                let after = win_details(e.contexts@.take(i + 1), target_seat);
                assert(after == before.push(points_json(w.1@)).push(
                    win_detail(w.0, target_seat, w.2),
                ));
                assert(start.result_detail + after =~= (start.result_detail + before).push(
                    points_json(w.1@),
                ).push(win_detail(w.0, target_seat, w.2)));
            }
            i += 1;
        }
        assert(e.contexts@.take(e.contexts.len() as int) == e.contexts@);
    }

    /// The log of the round as a JSON value.
    pub fn to_log(&self) -> (v: Value)
        ensures
            json_view(v) == log_view(self@),
    {
        let mut head: Vec<Value> = Vec::new();
        head.push(json_from_usize(self.kyoku));
        head.push(json_from_usize(self.honba));
        head.push(json_from_usize(self.kyoutaku));
        assert(json_views(head@) =~= seq![
            usize_json(self.kyoku),
            usize_json(self.honba),
            usize_json(self.kyoutaku),
        ]);
        let mut v: Vec<Value> = Vec::new();
        v.push(json_from_vec(head));
        v.push(json_from_vec(points_to_json(&self.scores)));
        v.push(json_from_vec(ints_to_json(&self.doras)));
        v.push(json_from_vec(ints_to_json(&self.ura_doras)));
        let ghost first = json_views(v@);
        assert(first =~= seq![
            JsonView::Array(
                seq![usize_json(self.kyoku), usize_json(self.honba), usize_json(self.kyoutaku)],
            ),
            JsonView::Array(points_json(self@.scores)),
            JsonView::Array(ints_json(self@.doras)),
            JsonView::Array(ints_json(self@.ura_doras)),
        ]);
        let mut s: usize = 0;
        proof {
            assert(self@.players.take(0) =~= Seq::<PlayerView>::empty());
            assert(json_views(v@) =~= first + players_log(self@.players.take(0)));
        }
        while s < SEAT
            invariant
                s <= SEAT,
                json_views(v@) == first + players_log(self@.players.take(s as int)),
            decreases SEAT - s,
        {
            let p = &self.players[s];
            let ghost before = json_views(v@);
            v.push(json_from_vec(ints_to_json(&p.hand)));
            v.push(json_from_vec(clone_values(&p.drawns)));
            v.push(json_from_vec(clone_values(&p.discards)));
            proof {
                let pv = self@.players[s as int];
                assert(pv == p@);
                assert(self@.players.take(s + 1).drop_last() =~= self@.players.take(s as int));
                assert(self@.players.take(s + 1).last() == pv);
                assert(json_views(v@) =~= before + seq![
                    JsonView::Array(ints_json(pv.hand)),
                    JsonView::Array(pv.drawns),
                    JsonView::Array(pv.discards),
                ]);
                assert(json_views(v@) =~= first + players_log(self@.players.take(s + 1)));
            }
            s += 1;
        }
        assert(self@.players.take(SEAT as int) =~= self@.players);
        let mut result: Vec<Value> = Vec::new();
        result.push(json_from_string(self.result.clone()));
        let mut i: usize = 0;
        while i < self.result_detail.len()
            invariant
                i <= self.result_detail.len(),
                result.len() == 1 + i,
                json_view(result@[0]) == JsonView::Str(self.result@),
                forall|k: int|
                    1 <= k < 1 + i ==> json_view(#[trigger] result@[k]) == JsonView::Array(
                        json_views(self.result_detail@[k - 1]@),
                    ),
            decreases self.result_detail.len() - i,
        {
            result.push(json_from_vec(clone_values(&self.result_detail[i])));
            i += 1;
        }
        assert(json_views(result@) =~= seq![JsonView::Str(self@.result)] + arrays_json(
            self@.result_detail,
        ));
        let ghost middle = json_views(v@);
        v.push(json_from_vec(result));
        assert(json_views(v@) =~= middle + seq![
            JsonView::Array(seq![JsonView::Str(self@.result)] + arrays_json(self@.result_detail)),
        ]);
        json_from_vec(v)
    }
}

impl TenhouSerializer {
    /// A serializer that has seen no event.
    pub fn new() -> (s: TenhouSerializer)
        ensures
            s.kyoku@ == KyokuView::empty(),
    {
        TenhouSerializer { kyoku: TenhouKyoku::new() }
    }

    /// Records what `event` adds to the log of the round. `stg` is the
    /// stage as it stands when the event arrives.
    pub fn push_event(&mut self, stg: &Stage, event: &Event)
        requires
            loggable(*stg, *event),
        ensures
            final(self).kyoku@ == pushed(old(self).kyoku@, *stg, *event),
    {
        match event {
            Event::Begin(_) => {},
            Event::New(e) => {
                self.kyoku = TenhouKyoku::started(e);
            },
            Event::Deal(e) => {
                self.kyoku.take_in(e.seat, json_from_i64(tile_to_tenhou(e.tile)));
            },
            Event::Discard(e) => {
                self.kyoku.give_away(e.seat, discard_value(e.tile, e.is_drawn, e.is_riichi));
            },
            Event::Meld(e) => {
                self.kyoku.push_meld(stg, e);
            },
            Event::Kita(_) => {},
            Event::Dora(e) => {
                self.kyoku.doras.push(tile_to_tenhou(e.tile));
                proof {
                    assert(self.kyoku@.players =~= old(self).kyoku@.players);
                    assert(self.kyoku@.result_detail =~= old(self).kyoku@.result_detail);
                }
            },
            Event::Win(e) => {
                self.kyoku.push_win(stg, e);
            },
            Event::Draw(e) => {
                self.kyoku.result = String::from_str("流局");
                self.kyoku.add_detail(points_to_json(&e.points));
                proof {
                    assert(self.kyoku@.players =~= old(self).kyoku@.players);
                }
            },
            Event::End(_) => {},
        }
    }

    /// The log of the round as a JSON value.
    pub fn kyoku_log(&self) -> (v: Value)
        ensures
            json_view(v) == log_view(self.kyoku@),
    {
        self.kyoku.to_log()
    }
}

fn tiles_fit(tiles: &Vec<Tile>) -> (r: bool)
    ensures
        r == tiles_in_table(tiles@),
{
    let mut i: usize = 0;
    while i < tiles.len()
        invariant
            i <= tiles.len(),
            forall|k: int| 0 <= k < i ==> (#[trigger] tiles@[k]).in_table(),
        decreases tiles.len() - i,
    {
        if !(tiles[i].0 < TYPE && tiles[i].1 < TNUM) {
            return false;
        }
        i += 1;
    }
    true
}

fn meld_is_wf(m: &Meld) -> (r: bool)
    ensures
        r == m.wf(),
{
    if !(m.seat < SEAT && m.tiles.len() == m.froms.len()) {
        return false;
    }
    let n = m.tiles.len();
    let mut i: usize = 0;
    while i < n
        invariant
            i <= n,
            n == m.tiles.len(),
            n == m.froms.len(),
            forall|k: int| 0 <= k < i ==> m.froms[k] < SEAT,
            forall|k: int| 0 <= k < i ==> (#[trigger] m.tiles[k]).is_known(),
        decreases n - i,
    {
        let x = m.tiles[i];
        let known = if x.0 < TZ {
            x.1 < TNUM
        } else {
            x.0 == TZ && 1 <= x.1 && x.1 < UK
        };
        if !(m.froms[i] < SEAT && known) {
            return false;
        }
        i += 1;
    }
    let foreign = |k: usize| -> (c: usize)
        requires
            k < m.froms.len(),
        ensures
            c == crate::model::meld::foreign(m.froms@, m.seat, k as int),
        {
            if m.froms[k] != m.seat {
                1
            } else {
                0
            }
        };
    match m.type_ {
        MeldType::Chi | MeldType::Pon => n == 3 && foreign(0) + foreign(1) + foreign(2) == 1,
        MeldType::Minkan => n == 4 && foreign(0) + foreign(1) + foreign(2) + foreign(3) == 1,
        MeldType::Kakan => n == 4 && foreign(0) + foreign(1) + foreign(2) == 1 && m.froms[3]
            == m.seat,
        MeldType::Ankan => n == 4 && foreign(0) + foreign(1) + foreign(2) + foreign(3) == 0,
    }
}

fn melds_are_wf(melds: &Vec<Meld>) -> (r: bool)
    ensures
        r == forall|i: int| 0 <= i < melds.len() ==> (#[trigger] melds[i]).wf(),
{
    let mut i: usize = 0;
    while i < melds.len()
        invariant
            i <= melds.len(),
            forall|k: int| 0 <= k < i ==> (#[trigger] melds[k]).wf(),
        decreases melds.len() - i,
    {
        if !meld_is_wf(&melds[i]) {
            return false;
        }
        i += 1;
    }
    true
}

fn new_can_log(e: &EventNew) -> (r: bool)
    ensures
        r == new_loggable(*e),
{
    if !(e.bakaze <= (usize::MAX - e.kyoku) / 4 && tiles_fit(&e.doras)) {
        return false;
    }
    let mut s: usize = 0;
    while s < SEAT
        invariant
            s <= SEAT,
            forall|k: int|
                0 <= k < s ==> (#[trigger] e.hands[k]).len() >= 13 && tiles_in_table(e.hands[k]@),
        decreases SEAT - s,
    {
        if !(e.hands[s].len() >= 13 && tiles_fit(&e.hands[s])) {
            assert(!((#[trigger] e.hands[s as int]).len() >= 13 && tiles_in_table(
                e.hands[s as int]@,
            )));
            return false;
        }
        s += 1;
    }
    true
}

/// Whether the event can be logged on the stage.
pub fn can_log(stg: &Stage, event: &Event) -> (r: bool)
    ensures
        r == loggable(*stg, *event),
{
    match event {
        Event::Begin(_) => true,
        Event::New(e) => new_can_log(e),
        Event::Deal(e) => e.seat < SEAT && e.tile.0 < TYPE && e.tile.1 < TNUM,
        Event::Discard(e) => e.seat < SEAT && e.tile.0 < TYPE && e.tile.1 < TNUM,
        Event::Meld(e) => {
            if !(e.seat < SEAT && tiles_fit(&e.consumed)) {
                return false;
            }
            match e.meld_type {
                MeldType::Chi | MeldType::Pon | MeldType::Minkan => match stg.last_tile {
                    Some((seat, _, d)) => seat < SEAT && d.0 < TYPE && d.1 < TNUM && 3 - (seat
                        + SEAT - e.seat) % SEAT <= e.consumed.len(),
                    None => false,
                },
                MeldType::Kakan => e.consumed.len() >= 1 && melds_are_wf(&stg.players[e.seat].melds),
                MeldType::Ankan => e.consumed.len() >= 3,
            }
        },
        Event::Kita(_) => false,
        Event::Dora(e) => e.tile.0 < TYPE && e.tile.1 < TNUM,
        Event::Win(e) => tiles_fit(&e.ura_doras),
        Event::Draw(_) => true,
        Event::End(_) => true,
    }
}

} // verus!
