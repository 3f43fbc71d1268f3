//! The stage as text, for a person to read.

use crate::model::action::ActionType;
use crate::model::define::{Seat, SEAT, TILE, TNUM, TYPE};
use crate::model::meld::Meld;
use crate::model::player::{Discard, Player};
use crate::model::stage::{state_text, Stage, TileStateType};
use crate::model::tile::{suit_letter, Tile, TileRow, TileTable};
use crate::util::common::{tile_text, tile_to_string, tiles_text, vec_to_string};
use crate::util::text::{decimal, i64_to_string, push_char, signed_decimal, usize_to_string};
use vstd::prelude::*;
use vstd::string::StringExecFns;

verus! {

/// The line that parts the players.
pub open spec fn long_rule() -> Seq<char> {
    "--------------------------------------------------\n"@
}

/// The line under the heading of a suit.
pub open spec fn short_rule() -> Seq<char> {
    "--------------------------\n"@
}

/// The text of a truth value.
pub open spec fn truth_text(b: bool) -> Seq<char> {
    if b {
        "true"@
    } else {
        "false"@
    }
}

/// The name of a kind of action.
pub open spec fn action_name(tp: ActionType) -> Seq<char> {
    match tp {
        ActionType::Nop => "Nop"@,
        ActionType::Discard => "Discard"@,
        ActionType::Ankan => "Ankan"@,
        ActionType::Kakan => "Kakan"@,
        ActionType::Riichi => "Riichi"@,
        ActionType::Tsumo => "Tsumo"@,
        ActionType::Kyushukyuhai => "Kyushukyuhai"@,
        ActionType::Kita => "Kita"@,
        ActionType::Chi => "Chi"@,
        ActionType::Pon => "Pon"@,
        ActionType::Minkan => "Minkan"@,
        ActionType::Ron => "Ron"@,
    }
}

/// The text of the tile that may be won by ron: who gave it, how, and
/// the tile.
pub open spec fn last_text(last: Option<(Seat, ActionType, Tile)>) -> Seq<char> {
    match last {
        Some((seat, tp, tile)) => "Some(("@ + decimal(seat as nat) + ", "@ + action_name(tp) + ", "@
            + tile_text(tile) + "))"@,
        None => "None"@,
    }
}

/// The first `k` numbers of a row, with a comma and a blank between each
/// two.
pub open spec fn numbers_before(row: Seq<usize>, k: int) -> Seq<char>
    decreases k,
{
    if k <= 0 {
        Seq::empty()
    } else if k == 1 {
        decimal(row[0] as nat)
    } else {
        numbers_before(row, k - 1) + ", "@ + decimal(row[k - 1] as nat)
    }
}

/// The numbers of a row in square brackets.
pub open spec fn row_text(row: Seq<usize>) -> Seq<char> {
    "["@ + numbers_before(row, row.len() as int) + "]"@
}

/// The rows of the first `k` suits of a table, each on a line of its own
/// behind the letter of the suit.
pub open spec fn table_before(tab: TileTable, k: int) -> Seq<char>
    decreases k,
{
    if k <= 0 {
        Seq::empty()
    } else {
        table_before(tab, k - 1).push(suit_letter((k - 1) as usize)) + ": "@ + row_text(tab[k - 1]@)
            + "\n"@
    }
}

/// The rows of a table, each on a line of its own behind the letter of
/// its suit.
pub open spec fn table_text(tab: TileTable) -> Seq<char> {
    table_before(tab, TYPE as int)
}

/// The first `k` melds, the tiles of each in square brackets and a blank
/// behind it.
pub open spec fn melds_before(melds: Seq<Meld>, k: int) -> Seq<char>
    decreases k,
{
    if k <= 0 {
        Seq::empty()
    } else {
        melds_before(melds, k - 1) + "["@ + tiles_text(melds[k - 1].tiles@) + "] "@
    }
}

/// The first `k` tiles of a river, a blank behind each.
pub open spec fn river_before(discards: Seq<Discard>, k: int) -> Seq<char>
    decreases k,
{
    if k <= 0 {
        Seq::empty()
    } else {
        river_before(discards, k - 1) + tile_text(discards[k - 1].tile) + " "@
    }
}

/// The text of the tile drawn, or a dash.
pub open spec fn drawn_text(drawn: Option<Tile>) -> Seq<char> {
    match drawn {
        Some(t) => tile_text(t),
        None => "-"@,
    }
}

/// The text of a player: a line of seat, score and flags, the hand as a
/// table, the melds and the river.
pub open spec fn player_text(p: Player) -> Seq<char> {
    "seat: "@ + decimal(p.seat as nat) + ", score: "@ + signed_decimal(p.score as int)
        + ", riichi: "@ + truth_text(p.riichi is Some) + ", furiten: "@ + truth_text(
        p.is_furiten || p.is_riichi_furiten,
    ) + ", drawn: "@ + drawn_text(p.drawn) + "\n"@ + table_text(p.hand) + "melds: "@ + melds_before(
        p.melds@,
        p.melds.len() as int,
    ) + "\n"@ + "discards: "@ + river_before(p.discards@, p.discards.len() as int) + "\n"@
}

/// The texts of the first `k` players, a rule under each.
pub open spec fn players_before(players: [Player; SEAT], k: int) -> Seq<char>
    decreases k,
{
    if k <= 0 {
        Seq::empty()
    } else {
        players_before(players, k - 1) + player_text(players[k - 1]) + long_rule()
    }
}

/// The names of the tiles of suit `t` below rank `k`, a blank behind each.
pub open spec fn heading_before(t: usize, k: int) -> Seq<char>
    decreases k,
{
    if k <= 1 {
        Seq::empty()
    } else {
        heading_before(t, k - 1).push(suit_letter(t)) + decimal((k - 1) as nat) + " "@
    }
}

/// The states of copy `c` of the tiles of a suit below rank `k`, a blank
/// behind each.
pub open spec fn states_before(suit: [[TileStateType; TILE]; TNUM], c: int, k: int) -> Seq<char>
    decreases k,
{
    if k <= 1 {
        Seq::empty()
    } else {
        states_before(suit, c, k - 1) + state_text(suit[k - 1][c]) + " "@
    }
}

/// The states of the first `c` copies of the tiles of a suit, one line
/// for each copy.
pub open spec fn copies_before(suit: [[TileStateType; TILE]; TNUM], c: int) -> Seq<char>
    decreases c,
{
    if c <= 0 {
        Seq::empty()
    } else {
        copies_before(suit, c - 1) + states_before(suit, c - 1, TNUM as int) + "\n"@
    }
}

/// Where the tiles of suit `t` are: the names of the tiles, a rule, a line
/// for each copy, and an empty line.
pub open spec fn suit_text(t: usize, suit: [[TileStateType; TILE]; TNUM]) -> Seq<char> {
    heading_before(t, TNUM as int) + "\n"@ + short_rule() + copies_before(suit, TILE as int)
        + "\n"@
}

/// Where the tiles of the first `k` suits are.
pub open spec fn suits_before(states: [[[TileStateType; TILE]; TNUM]; TYPE], k: int) -> Seq<char>
    decreases k,
{
    if k <= 0 {
        Seq::empty()
    } else {
        suits_before(states, k - 1) + suit_text((k - 1) as usize, states[k - 1])
    }
}

/// The two lines at the head of the text, and an empty line.
pub open spec fn header_text(stg: Stage) -> Seq<char> {
    "round: "@ + decimal(stg.round as nat) + ", hand: "@ + decimal(stg.kyoku as nat) + ", honba: "@
        + decimal(stg.honba as nat) + ", kyoutaku: "@ + decimal(stg.kyoutaku as nat) + "\n"@
        + "turn: "@ + decimal(stg.turn as nat) + ", left_tile_count: "@ + decimal(
        stg.left_tile_count as nat,
    ) + ", doras: "@ + tiles_text(stg.doras@) + ", last_tile: "@ + last_text(stg.last_tile)
        + "\n\n"@
}

/// The stage as text: the head, the players between rules, where every
/// tile is, and how many copies of each remain.
pub open spec fn stage_text(stg: Stage) -> Seq<char> {
    header_text(stg) + long_rule() + players_before(stg.players, SEAT as int) + "\n"@
        + suits_before(stg.tile_states, TYPE as int) + "remaining tiles\n"@ + table_text(
        stg.tile_remains,
    ) + "\n"@
}

fn letter_of(t: usize) -> (c: char)
    ensures
        c == suit_letter(t),
{
    if t == 0 {
        'm'
    } else if t == 1 {
        'p'
    } else if t == 2 {
        's'
    } else {
        'z'
    }
}

fn truth_word(b: bool) -> (r: &'static str)
    ensures
        r@ == truth_text(b),
{
    if b {
        "true"
    } else {
        "false"
    }
}

fn name_of_action(tp: ActionType) -> (r: &'static str)
    ensures
        r@ == action_name(tp),
{
    match tp {
        ActionType::Nop => "Nop",
        ActionType::Discard => "Discard",
        ActionType::Ankan => "Ankan",
        ActionType::Kakan => "Kakan",
        ActionType::Riichi => "Riichi",
        ActionType::Tsumo => "Tsumo",
        ActionType::Kyushukyuhai => "Kyushukyuhai",
        ActionType::Kita => "Kita",
        ActionType::Chi => "Chi",
        ActionType::Pon => "Pon",
        ActionType::Minkan => "Minkan",
        ActionType::Ron => "Ron",
    }
}

/// Appends the decimal numeral of `n`.
fn put_number(out: &mut String, n: usize)
    ensures
        final(out)@ == old(out)@ + decimal(n as nat),
{
    let s = usize_to_string(n);
    out.append(s.as_str());
}

/// Appends the text of a tile.
fn put_tile(out: &mut String, t: Tile)
    ensures
        final(out)@ == old(out)@ + tile_text(t),
{
    let s = tile_to_string(t);
    out.append(s.as_str());
}

/// Appends the texts of the tiles.
fn put_tiles(out: &mut String, v: &Vec<Tile>)
    ensures
        final(out)@ == old(out)@ + tiles_text(v@),
{
    let s = vec_to_string(v);
    out.append(s.as_str());
}

/// The text of the tile that may be won by ron.
fn last_to_string(last: &Option<(Seat, ActionType, Tile)>) -> (r: String)
    ensures
        r@ == last_text(*last),
{
    match last {
        Some((seat, tp, tile)) => {
            let mut r = String::from_str("Some((");
            put_number(&mut r, *seat);
            r.append(", ");
            r.append(name_of_action(*tp));
            r.append(", ");
            put_tile(&mut r, *tile);
            r.append("))");
            r
        },
        None => String::from_str("None"),
    }
}

/// The numbers of a row in square brackets.
pub fn row_to_string(row: &TileRow) -> (r: String)
    ensures
        r@ == row_text(row@),
{
    let mut body = String::new();
    let mut i: usize = 0;
    while i < TNUM
        invariant
            i <= TNUM,
            body@ == numbers_before(row@, i as int),
        decreases TNUM - i,
    {
        if i > 0 {
            body.append(", ");
        }
        put_number(&mut body, row[i]);
        assert(i == 0 ==> body@ =~= decimal(row[0] as nat));
        i += 1;
    }
    let mut r = String::from_str("[");
    r.append(body.as_str());
    r.append("]");
    r
}

/// The rows of a table, each on a line of its own behind the letter of
/// its suit.
pub fn table_to_string(tab: &TileTable) -> (r: String)
    ensures
        r@ == table_text(*tab),
{
    let mut r = String::new();
    let mut t: usize = 0;
    while t < TYPE
        invariant
            t <= TYPE,
            r@ == table_before(*tab, t as int),
        decreases TYPE - t,
    {
        push_char(&mut r, letter_of(t));
        r.append(": ");
        let row = row_to_string(&tab[t]);
        r.append(row.as_str());
        r.append("\n");
        t += 1;
    }
    r
}

/// The melds, the tiles of each in square brackets and a blank behind it.
fn melds_to_string(melds: &Vec<Meld>) -> (r: String)
    ensures
        r@ == melds_before(melds@, melds.len() as int),
{
    let mut r = String::new();
    let mut i: usize = 0;
    while i < melds.len()
        invariant
            i <= melds.len(),
            r@ == melds_before(melds@, i as int),
        decreases melds.len() - i,
    {
        r.append("[");
        put_tiles(&mut r, &melds[i].tiles);
        r.append("] ");
        i += 1;
    }
    r
}

/// The tiles of a river, a blank behind each.
fn river_to_string(discards: &Vec<Discard>) -> (r: String)
    ensures
        r@ == river_before(discards@, discards.len() as int),
{
    let mut r = String::new();
    let mut i: usize = 0;
    while i < discards.len()
        invariant
            i <= discards.len(),
            r@ == river_before(discards@, i as int),
        decreases discards.len() - i,
    {
        put_tile(&mut r, discards[i].tile);
        r.append(" ");
        i += 1;
    }
    r
}

impl Player {
    /// The player as text.
    pub fn to_text(&self) -> (r: String)
        ensures
            r@ == player_text(*self),
    {
        let mut r = String::from_str("seat: ");
        put_number(&mut r, self.seat);
        r.append(", score: ");
        let score = i64_to_string(self.score as i64);
        r.append(score.as_str());
        r.append(", riichi: ");
        r.append(truth_word(self.riichi.is_some()));
        r.append(", furiten: ");
        r.append(truth_word(self.is_furiten || self.is_riichi_furiten));
        r.append(", drawn: ");
        match self.drawn {
            Some(t) => put_tile(&mut r, t),
            None => r.append("-"),
        }
        r.append("\n");
        let hand = table_to_string(&self.hand);
        r.append(hand.as_str());
        r.append("melds: ");
        let melds = melds_to_string(&self.melds);
        r.append(melds.as_str());
        r.append("\n");
        r.append("discards: ");
        let river = river_to_string(&self.discards);
        r.append(river.as_str());
        r.append("\n");
        r
    }
}

/// Where the tiles of suit `t` are.
fn suit_to_string(t: usize, suit: &[[TileStateType; TILE]; TNUM]) -> (r: String)
    ensures
        r@ == suit_text(t, *suit),
{
    let mut r = String::new();
    let mut i: usize = 1;
    while i < TNUM
        invariant
            1 <= i <= TNUM,
            r@ == heading_before(t, i as int),
        decreases TNUM - i,
    {
        push_char(&mut r, letter_of(t));
        put_number(&mut r, i);
        r.append(" ");
        i += 1;
    }
    r.append("\n");
    r.append("--------------------------\n");
    let mut lines = String::new();
    let mut c: usize = 0;
    while c < TILE
        invariant
            c <= TILE,
            lines@ == copies_before(*suit, c as int),
        decreases TILE - c,
    {
        let mut line = String::new();
        let mut i: usize = 1;
        while i < TNUM
            invariant
                c < TILE,
                1 <= i <= TNUM,
                line@ == states_before(*suit, c as int, i as int),
            decreases TNUM - i,
        {
            let s = suit[i][c].to_text();
            line.append(s.as_str());
            line.append(" ");
            i += 1;
        }
        lines.append(line.as_str());
        lines.append("\n");
        c += 1;
    }
    r.append(lines.as_str());
    r.append("\n");
    r
}

impl Stage {
    /// The two lines at the head of the text, and an empty line.
    fn header(&self) -> (r: String)
        ensures
            r@ == header_text(*self),
    {
        let mut r = String::from_str("round: ");
        put_number(&mut r, self.round);
        r.append(", hand: ");
        put_number(&mut r, self.kyoku);
        r.append(", honba: ");
        put_number(&mut r, self.honba);
        r.append(", kyoutaku: ");
        put_number(&mut r, self.kyoutaku);
        r.append("\n");
        r.append("turn: ");
        put_number(&mut r, self.turn);
        r.append(", left_tile_count: ");
        put_number(&mut r, self.left_tile_count);
        r.append(", doras: ");
        put_tiles(&mut r, &self.doras);
        r.append(", last_tile: ");
        let last = last_to_string(&self.last_tile);
        r.append(last.as_str());
        r.append("\n\n");
        r
    }

    /// The stage as text.
    pub fn to_text(&self) -> (r: String)
        ensures
            r@ == stage_text(*self),
    {
        let mut r = self.header();
        r.append("--------------------------------------------------\n");
        let mut players = String::new();
        let mut s: usize = 0;
        while s < SEAT
            invariant
                s <= SEAT,
                players@ == players_before(self.players, s as int),
            decreases SEAT - s,
        {
            let p = self.players[s].to_text();
            players.append(p.as_str());
            players.append("--------------------------------------------------\n");
            s += 1;
        }
        r.append(players.as_str());
        r.append("\n");
        let mut suits = String::new();
        let mut t: usize = 0;
        while t < TYPE
            invariant
                t <= TYPE,
                suits@ == suits_before(self.tile_states, t as int),
            decreases TYPE - t,
        {
            let one = suit_to_string(t, &self.tile_states[t]);
            suits.append(one.as_str());
            t += 1;
        }
        r.append(suits.as_str());
        r.append("remaining tiles\n");
        let remains = table_to_string(&self.tile_remains);
        r.append(remains.as_str());
        r.append("\n");
        r
    }
}

} // verus!
