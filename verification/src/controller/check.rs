//! Whether an event is legal on a stage, found out before it is applied.

use crate::controller::reducer::{
    all_thirteen, ankan_ok, call_ok, copy_high, copy_low, copy_moved, deal_ok, find_pon, delta_sum,
    discard_ok, dora_ok, draw_all, draw_ok, event_ok, fresh_states, give_all, is_hidden,
    is_valid_tile, kakan_ok, lemma_hand_after_removal, lemma_moved_view, lemma_removed_view, moved,
    new_ok, open_all, pick_copy, pick_unseen, place_all, seq_first_with, settle_ok, states_view,
    view_has, win_ok, TileStates,
};
use crate::hand::win::WinContext;
use crate::model::action::ActionType;
use crate::model::define::{Point, Seat, SEAT, TILE, TNUM, TYPE, TZ, UK};
use crate::model::event::{
    Event, EventDeal, EventDiscard, EventDora, EventDraw, EventMeld, EventNew, EventWin,
};
use crate::model::meld::{Meld, MeldType};
use crate::model::player::Player;
use crate::model::stage::{Stage, TileStateType};
use crate::model::tile::{
    count_tiles, has_tile, remove_tile, table_bounded, table_has, table_view, Tile, TileTable,
};
use vstd::prelude::*;

verus! {

/// The number of tiles that count for the size of the hand.
pub fn player_size(p: &Player) -> (n: usize)
    requires
        p.wf(),
    ensures
        n == p.size(),
{
    count_tiles(&p.hand) + 3 * p.melds.len()
}

/// Whether every player holds thirteen tiles, melds counted as three.
pub fn all_hold_thirteen(stg: &Stage) -> (r: bool)
    requires
        stg.wf(),
    ensures
        r == all_thirteen(*stg),
{
    let mut s: usize = 0;
    while s < SEAT
        invariant
            s <= SEAT,
            stg.wf(),
            forall|k: int| 0 <= k < s ==> (#[trigger] stg.players[k]).size() == 13,
        decreases SEAT - s,
    {
        assert(stg.players[s as int].wf());
        if player_size(&stg.players[s]) != 13 {
            return false;
        }
        s += 1;
    }
    true
}

/// Whether the last discard can be settled.
pub fn can_settle(stg: &Stage) -> (r: bool)
    requires
        stg.wf(),
    ensures
        r == settle_ok(*stg),
{
    match stg.last_riichi {
        Some(s) => stg.kyoutaku < usize::MAX && stg.players[s].score >= i32::MIN + 1000,
        None => true,
    }
}

/// Whether the tiles can leave the hand, one after the other.
pub fn can_give(h: &TileTable, tiles: &Vec<Tile>) -> (r: bool)
    requires
        table_bounded(*h),
        forall|t: int| 0 <= t < TYPE ==> (#[trigger] h[t])[0] <= h[t][5],
        forall|i: int| 0 <= i < tiles.len() ==> (#[trigger] tiles[i]).is_known(),
    ensures
        r == give_all(table_view(*h), tiles@, tiles.len() as int) is Some,
{
    let ghost v0 = table_view(*h);
    let mut hand = *h;
    let mut i: usize = 0;
    while i < tiles.len()
        invariant
            i <= tiles.len(),
            v0 == table_view(*h),
            forall|k: int| 0 <= k < tiles.len() ==> (#[trigger] tiles[k]).is_known(),
            give_all(v0, tiles@, i as int) == Some(table_view(hand)),
            table_bounded(hand),
            forall|t: int| 0 <= t < TYPE ==> (#[trigger] hand[t])[0] <= hand[t][5],
        decreases tiles.len() - i,
    {
        let x = tiles[i];
        let ghost before = hand;
        proof {
            assert(x.is_known());
            assert(view_has(table_view(before), x) == table_has(before, x));
            assert(table_view(before)[TZ as int][UK as int] == before[TZ as int][UK as int]);
        }
        let given = if has_tile(&hand, x) {
            x
        } else if hand[TZ][UK] >= 1 {
            Tile(TZ, UK)
        } else {
            proof {
                lemma_give_fails(v0, tiles@, i + 1, tiles.len() as int);
            }
            return false;
        };
        remove_tile(&mut hand, given);
        proof {
            lemma_hand_after_removal(before, given, hand);
            lemma_removed_view(before, given, hand);
        }
        i += 1;
    }
    true
}

/// Where the first of the tiles cannot leave the hand, neither can all.
pub proof fn lemma_give_fails(v: Seq<Seq<int>>, tiles: Seq<Tile>, k: int, n: int)
    requires
        0 <= k <= n,
        give_all(v, tiles, k) is None,
    ensures
        give_all(v, tiles, n) is None,
    decreases n,
{
    if k < n {
        lemma_give_fails(v, tiles, k, n - 1);
    }
}

/// Where the first of the tiles cannot be placed, neither can all.
pub proof fn lemma_place_fails(
    v: Seq<Seq<Seq<TileStateType>>>,
    tiles: Seq<Tile>,
    k: int,
    n: int,
    seat: Seat,
    to: TileStateType,
)
    requires
        0 <= k <= n,
        place_all(v, tiles, k, seat, to) is None,
    ensures
        place_all(v, tiles, n, seat, to) is None,
    decreases n,
{
    if k < n {
        lemma_place_fails(v, tiles, k, n - 1, seat, to);
    }
}

fn find_state(row: &[TileStateType; TILE], st: TileStateType, lo: usize, hi: usize) -> (r: Option<
    usize,
>)
    requires
        hi <= TILE,
    ensures
        match seq_first_with(row@, st, lo as int, hi as int) {
            Some(i) => r == Some(i as usize) && lo <= i < hi && row[i] == st,
            None => r is None,
        },
{
    let mut i: usize = 0;
    while i < TILE
        invariant
            i <= TILE,
            hi <= TILE,
            forall|k: int| 0 <= k < i && lo <= k < hi ==> row[k] != st,
        decreases TILE - i,
    {
        if lo <= i && i < hi && row[i] == st {
            return Some(i);
        }
        i += 1;
    }
    None
}

/// Puts the copy `c` of the tile `x` into the state `to`.
fn set_copy(ts: &mut TileStates, x: Tile, c: usize, to: TileStateType)
    requires
        x.in_table(),
        c < TILE,
    ensures
        states_view(*final(ts)) == moved(states_view(*old(ts)), x, c as int, to),
{
    let n = x.to_normal().1;
    ts[x.0][n][c] = to;
    proof {
        assert(copy_moved(*old(ts), *ts, x, c as int, to));
        lemma_moved_view(*old(ts), *ts, x, c as int, to);
    }
}

/// Whether the tiles can leave the hand of `seat` for the state `to`,
/// one after the other.
pub fn can_place(ts: &TileStates, tiles: &Vec<Tile>, seat: Seat, to: TileStateType) -> (r: bool)
    requires
        forall|i: int| 0 <= i < tiles.len() ==> (#[trigger] tiles[i]).is_known(),
    ensures
        r == place_all(states_view(*ts), tiles@, tiles.len() as int, seat, to) is Some,
{
    let ghost v0 = states_view(*ts);
    let mut now = *ts;
    let mut i: usize = 0;
    while i < tiles.len()
        invariant
            i <= tiles.len(),
            v0 == states_view(*ts),
            forall|k: int| 0 <= k < tiles.len() ==> (#[trigger] tiles[k]).is_known(),
            place_all(v0, tiles@, i as int, seat, to) == Some(states_view(now)),
        decreases tiles.len() - i,
    {
        let x = tiles[i];
        assert(x.is_known());
        let n = x.to_normal().1;
        let row = now[x.0][n];
        proof {
            assert(states_view(now)[x.0 as int][x.normal_rank()] =~= row@);
        }
        let c = match find_state(&row, TileStateType::H(seat), copy_low(x), copy_high(x)) {
            Some(c) => c,
            None => match find_state(&row, TileStateType::U, copy_low(x), copy_high(x)) {
                Some(c) => c,
                None => {
                    proof {
                        lemma_place_fails(v0, tiles@, i + 1, tiles.len() as int, seat, to);
                    }
                    return false;
                },
            },
        };
        set_copy(&mut now, x, c, to);
        i += 1;
    }
    true
}

/// Whether a copy of the tile `x` is not seen yet.
pub fn has_unseen(ts: &TileStates, x: Tile) -> (r: bool)
    requires
        x.is_known(),
    ensures
        r == pick_unseen(ts[x.0 as int][x.normal_rank()], x) is Some,
{
    let n = x.to_normal().1;
    let row = ts[x.0][n];
    find_state(&row, TileStateType::U, copy_low(x), copy_high(x)).is_some()
}

/// Whether a copy of the tile `x` lies in the hand of `seat` or is not
/// seen yet.
pub fn has_copy(ts: &TileStates, x: Tile, seat: Seat) -> (r: bool)
    requires
        x.is_known(),
    ensures
        r == pick_copy(ts[x.0 as int][x.normal_rank()], x, seat) is Some,
{
    let n = x.to_normal().1;
    let row = ts[x.0][n];
    find_state(&row, TileStateType::H(seat), copy_low(x), copy_high(x)).is_some() || find_state(
        &row,
        TileStateType::U,
        copy_low(x),
        copy_high(x),
    ).is_some()
}

/// Whether the tile is a tile of the game other than the hidden one.
pub fn is_known_tile(x: Tile) -> (r: bool)
    ensures
        r == x.is_known(),
{
    is_valid_tile(x) && !is_hidden(x)
}

/// Whether every tile is a tile of the game other than the hidden one.
pub fn all_known(tiles: &Vec<Tile>) -> (r: bool)
    ensures
        r == forall|i: int| 0 <= i < tiles.len() ==> (#[trigger] tiles[i]).is_known(),
{
    let mut i: usize = 0;
    while i < tiles.len()
        invariant
            i <= tiles.len(),
            forall|k: int| 0 <= k < i ==> (#[trigger] tiles[k]).is_known(),
        decreases tiles.len() - i,
    {
        if !is_known_tile(tiles[i]) {
            return false;
        }
        i += 1;
    }
    true
}

/// Whether a tile can be drawn.
pub fn can_deal(stg: &Stage, e: &EventDeal) -> (r: bool)
    requires
        stg.wf(),
    ensures
        r == deal_ok(*stg, *e),
{
    e.seat < SEAT && is_valid_tile(e.tile) && all_hold_thirteen(stg) && stg.left_tile_count >= 1
        && stg.step < usize::MAX && can_settle(stg) && (is_hidden(e.tile) || has_unseen(
        &stg.tile_states,
        e.tile,
    ))
}

/// Whether every tile of the river addresses a slot of a hand table.
fn river_fine(p: &Player) -> (r: bool)
    ensures
        r == forall|i: int| 0 <= i < p.discards.len() ==> (#[trigger] p.discards[i]).tile.in_table(),
{
    let mut i: usize = 0;
    while i < p.discards.len()
        invariant
            i <= p.discards.len(),
            forall|k: int| 0 <= k < i ==> (#[trigger] p.discards[k]).tile.in_table(),
        decreases p.discards.len() - i,
    {
        let x = p.discards[i].tile;
        if !(x.0 < TYPE && x.1 < TNUM) {
            return false;
        }
        i += 1;
    }
    true
}

/// Whether a tile can be discarded.
pub fn can_discard(stg: &Stage, e: &EventDiscard) -> (r: bool)
    requires
        stg.wf(),
    ensures
        r == discard_ok(*stg, *e),
{
    if !(e.seat < SEAT && is_known_tile(e.tile) && stg.turn == e.seat && stg.step < usize::MAX) {
        return false;
    }
    let p = &stg.players[e.seat];
    assert(p.wf());
    let given = if has_tile(&p.hand, e.tile) {
        e.tile
    } else {
        Tile(TZ, UK)
    };
    player_size(p) == 14 && has_tile(&p.hand, given) && has_copy(&stg.tile_states, e.tile, e.seat)
        && river_fine(p)
}

/// Whether a discard can be called.
pub fn can_call(stg: &Stage, e: &EventMeld) -> (r: bool)
    requires
        stg.wf(),
    ensures
        r == call_ok(*stg, *e),
{
    let kind_ok = match e.meld_type {
        MeldType::Chi | MeldType::Pon | MeldType::Minkan => true,
        _ => false,
    };
    if !(kind_ok && e.seat < SEAT && stg.step < usize::MAX) {
        return false;
    }
    let from_other = match stg.last_tile {
        Some((d, ActionType::Discard, _)) => d != e.seat,
        _ => false,
    };
    let size = match e.meld_type {
        MeldType::Minkan => 3,
        _ => 2,
    };
    if !(from_other && e.consumed.len() == size && all_known(&e.consumed)) {
        return false;
    }
    let p = &stg.players[e.seat];
    assert(p.wf());
    all_hold_thirteen(stg) && can_settle(stg) && p.melds.len() < 4 && can_give(&p.hand, &e.consumed)
        && can_place(&stg.tile_states, &e.consumed, e.seat, TileStateType::M(e.seat, p.melds.len()))
}

/// Whether a pon can be promoted to a quad.
pub fn can_kakan(stg: &Stage, e: &EventMeld) -> (r: bool)
    requires
        stg.wf(),
    ensures
        r == kakan_ok(*stg, *e),
{
    let kind_ok = match e.meld_type {
        MeldType::Kakan => true,
        _ => false,
    };
    if !(kind_ok && e.seat < SEAT && stg.turn == e.seat && stg.step < usize::MAX
        && e.consumed.len() == 1) {
        return false;
    }
    if !is_known_tile(e.consumed[0]) {
        return false;
    }
    let p = &stg.players[e.seat];
    assert(p.wf());
    assert forall|i: int| 0 <= i < e.consumed.len() implies (#[trigger] e.consumed[i]).is_known() by {}
    match find_pon(&p.melds, e.consumed[0]) {
        Some(i) => player_size(p) == 14 && can_give(&p.hand, &e.consumed) && can_place(
            &stg.tile_states,
            &e.consumed,
            e.seat,
            TileStateType::M(e.seat, i),
        ),
        None => false,
    }
}

/// Whether a concealed quad can be declared.
pub fn can_ankan(stg: &Stage, e: &EventMeld) -> (r: bool)
    requires
        stg.wf(),
    ensures
        r == ankan_ok(*stg, *e),
{
    let kind_ok = match e.meld_type {
        MeldType::Ankan => true,
        _ => false,
    };
    if !(kind_ok && e.seat < SEAT && stg.turn == e.seat && stg.step < usize::MAX
        && e.consumed.len() == 4 && all_known(&e.consumed)) {
        return false;
    }
    let p = &stg.players[e.seat];
    assert(p.wf());
    player_size(p) == 14 && p.melds.len() < 4 && can_give(&p.hand, &e.consumed) && can_place(
        &stg.tile_states,
        &e.consumed,
        e.seat,
        TileStateType::M(e.seat, p.melds.len()),
    )
}

/// Whether a dora indicator can be turned over.
pub fn can_dora(stg: &Stage, e: &EventDora) -> (r: bool)
    requires
        stg.wf(),
    ensures
        r == dora_ok(*stg, *e),
{
    is_known_tile(e.tile) && stg.left_tile_count >= 1 && stg.step < usize::MAX && has_unseen(
        &stg.tile_states,
        e.tile,
    )
}

/// Where the first of the tiles cannot be drawn, neither can all.
pub proof fn lemma_draw_fails(
    v: Seq<Seq<Seq<TileStateType>>>,
    tiles: Seq<Tile>,
    k: int,
    n: int,
    seat: Seat,
)
    requires
        0 <= k <= n,
        draw_all(v, tiles, k, seat) is None,
    ensures
        draw_all(v, tiles, n, seat) is None,
    decreases n,
{
    if k < n {
        lemma_draw_fails(v, tiles, k, n - 1, seat);
    }
}

/// Where the first of the tiles cannot be laid open, neither can all.
pub proof fn lemma_open_fails(v: Seq<Seq<Seq<TileStateType>>>, tiles: Seq<Tile>, k: int, n: int)
    requires
        0 <= k <= n,
        open_all(v, tiles, k) is None,
    ensures
        open_all(v, tiles, n) is None,
    decreases n,
{
    if k < n {
        lemma_open_fails(v, tiles, k, n - 1);
    }
}

/// Draws the tiles into the hand of `seat` in the table of states, as
/// far as there are copies. Tells whether there were copies for all.
fn try_draw_all(ts: &mut TileStates, tiles: &Vec<Tile>, seat: Seat) -> (ok: bool)
    requires
        forall|i: int| 0 <= i < tiles.len() ==> (#[trigger] tiles[i]).is_valid(),
    ensures
        ok == draw_all(states_view(*old(ts)), tiles@, tiles.len() as int, seat) is Some,
        ok ==> states_view(*final(ts)) == draw_all(
            states_view(*old(ts)),
            tiles@,
            tiles.len() as int,
            seat,
        )->0,
{
    let ghost v0 = states_view(*ts);
    let mut i: usize = 0;
    while i < tiles.len()
        invariant
            i <= tiles.len(),
            v0 == states_view(*old(ts)),
            forall|k: int| 0 <= k < tiles.len() ==> (#[trigger] tiles[k]).is_valid(),
            draw_all(v0, tiles@, i as int, seat) == Some(states_view(*ts)),
        decreases tiles.len() - i,
    {
        let x = tiles[i];
        assert(x.is_valid());
        if !is_hidden(x) {
            let n = x.to_normal().1;
            let row = ts[x.0][n];
            proof {
                assert(states_view(*ts)[x.0 as int][x.normal_rank()] =~= row@);
            }
            match find_state(&row, TileStateType::U, copy_low(x), copy_high(x)) {
                Some(c) => {
                    set_copy(ts, x, c, TileStateType::H(seat));
                },
                None => {
                    proof {
                        lemma_draw_fails(v0, tiles@, i + 1, tiles.len() as int, seat);
                    }
                    return false;
                },
            }
        }
        i += 1;
    }
    true
}

/// Lays the tiles open in the table of states, as far as there are
/// copies. Tells whether there were copies for all.
fn try_open_all(ts: &mut TileStates, tiles: &Vec<Tile>) -> (ok: bool)
    requires
        forall|i: int| 0 <= i < tiles.len() ==> (#[trigger] tiles[i]).is_known(),
    ensures
        ok == open_all(states_view(*old(ts)), tiles@, tiles.len() as int) is Some,
        ok ==> states_view(*final(ts)) == open_all(
            states_view(*old(ts)),
            tiles@,
            tiles.len() as int,
        )->0,
{
    let ghost v0 = states_view(*ts);
    let mut i: usize = 0;
    while i < tiles.len()
        invariant
            i <= tiles.len(),
            v0 == states_view(*old(ts)),
            forall|k: int| 0 <= k < tiles.len() ==> (#[trigger] tiles[k]).is_known(),
            open_all(v0, tiles@, i as int) == Some(states_view(*ts)),
        decreases tiles.len() - i,
    {
        let x = tiles[i];
        assert(x.is_known());
        let n = x.to_normal().1;
        let row = ts[x.0][n];
        proof {
            assert(states_view(*ts)[x.0 as int][x.normal_rank()] =~= row@);
        }
        match find_state(&row, TileStateType::U, copy_low(x), copy_high(x)) {
            Some(c) => {
                set_copy(ts, x, c, TileStateType::R);
            },
            None => {
                proof {
                    lemma_open_fails(v0, tiles@, i + 1, tiles.len() as int);
                }
                return false;
            },
        }
        i += 1;
    }
    true
}

/// Whether every tile is a tile of the game.
fn all_valid(tiles: &Vec<Tile>) -> (r: bool)
    ensures
        r == forall|i: int| 0 <= i < tiles.len() ==> (#[trigger] tiles[i]).is_valid(),
{
    let mut i: usize = 0;
    while i < tiles.len()
        invariant
            i <= tiles.len(),
            forall|k: int| 0 <= k < i ==> (#[trigger] tiles[k]).is_valid(),
        decreases tiles.len() - i,
    {
        if !is_valid_tile(tiles[i]) {
            return false;
        }
        i += 1;
    }
    true
}

/// Whether a round can start.
pub fn can_new(e: &EventNew) -> (r: bool)
    ensures
        r == new_ok(*e),
{
    if !(e.bakaze < SEAT && e.kyoku < SEAT && e.doras.len() <= 5 && all_known(&e.doras)) {
        return false;
    }
    let mut s: usize = 0;
    while s < SEAT
        invariant
            s <= SEAT,
            forall|k: int|
                0 <= k < s ==> ((#[trigger] e.hands[k]).len() == 13 || (k == e.kyoku
                    && e.hands[k].len() == 14)),
            forall|k: int, i: int|
                0 <= k < s && 0 <= i < e.hands[k].len() ==> (#[trigger] e.hands[k][i]).is_valid(),
        decreases SEAT - s,
    {
        let n = e.hands[s].len();
        if !(n == 13 || (s == e.kyoku && n == 14)) {
            return false;
        }
        if !all_valid(&e.hands[s]) {
            return false;
        }
        s += 1;
    }
    let mut ts: TileStates = [[[TileStateType::U;TILE];TNUM];TYPE];
    proof {
        let want = fresh_states();
        assert forall|t: int| 0 <= t < TYPE implies states_view(ts)[t] =~= want[t] by {
            assert forall|n: int| 0 <= n < TNUM implies states_view(ts)[t][n] =~= want[t][n] by {}
        }
        assert(states_view(ts) =~= want);
        assert forall|i: int| 0 <= i < e.hands[0].len() implies (#[trigger] e.hands[0][i]).is_valid() by {}
        assert forall|i: int| 0 <= i < e.hands[1].len() implies (#[trigger] e.hands[1][i]).is_valid() by {}
        assert forall|i: int| 0 <= i < e.hands[2].len() implies (#[trigger] e.hands[2][i]).is_valid() by {}
        assert forall|i: int| 0 <= i < e.hands[3].len() implies (#[trigger] e.hands[3][i]).is_valid() by {}
    }
    try_draw_all(&mut ts, &e.hands[0], 0) && try_draw_all(&mut ts, &e.hands[1], 1)
        && try_draw_all(&mut ts, &e.hands[2], 2) && try_draw_all(&mut ts, &e.hands[3], 3)
        && try_open_all(&mut ts, &e.doras)
}

fn total_delta(wins: &Vec<(Seat, [Point; SEAT], WinContext)>, s: usize) -> (r: i64)
    requires
        s < SEAT,
        wins.len() <= SEAT,
    ensures
        r == delta_sum(wins@, s as int, wins.len() as int),
        -2147483648 * 4 <= r <= 2147483647 * 4,
{
    let mut r: i64 = 0;
    let mut i: usize = 0;
    while i < wins.len()
        invariant
            i <= wins.len() <= SEAT,
            s < SEAT,
            r == delta_sum(wins@, s as int, i as int),
            -2147483648 * i <= r <= 2147483647 * i,
        decreases wins.len() - i,
    {
        r = r + wins[i].1[s] as i64;
        i += 1;
    }
    r
}

/// Whether a round can end by the wins.
pub fn can_win(stg: &Stage, e: &EventWin) -> (r: bool)
    ensures
        r == win_ok(*stg, *e),
{
    if !(stg.step < usize::MAX && e.contexts.len() <= SEAT) {
        return false;
    }
    let mut s: usize = 0;
    while s < SEAT
        invariant
            s <= SEAT,
            e.contexts.len() <= SEAT,
            forall|k: int|
                0 <= k < s ==> i32::MIN <= stg.players[k].score + #[trigger] delta_sum(
                    e.contexts@,
                    k,
                    e.contexts.len() as int,
                ) <= i32::MAX,
        decreases SEAT - s,
    {
        let after = stg.players[s].score as i64 + total_delta(&e.contexts, s);
        if after < -2147483648 || after > 2147483647 {
            return false;
        }
        s += 1;
    }
    true
}

/// Whether a round can end by the draw.
pub fn can_draw(stg: &Stage, e: &EventDraw) -> (r: bool)
    ensures
        r == draw_ok(*stg, *e),
{
    if stg.step == usize::MAX {
        return false;
    }
    let mut s: usize = 0;
    while s < SEAT
        invariant
            s <= SEAT,
            forall|k: int|
                0 <= k < s ==> i32::MIN <= stg.players[k].score + #[trigger] e.points[k] <= i32::MAX,
        decreases SEAT - s,
    {
        let after = stg.players[s].score as i64 + e.points[s] as i64;
        if after < -2147483648 || after > 2147483647 {
            return false;
        }
        s += 1;
    }
    true
}

/// Whether the event needs a stage that is in a round.
pub open spec fn needs_round(ev: Event) -> bool {
    ev is Deal || ev is Discard || ev is Meld || ev is Dora
}

/// Whether the event can be applied to the stage.
pub fn check_event(stg: &Stage, event: &Event) -> (r: bool)
    requires
        needs_round(*event) ==> stg.wf(),
    ensures
        r == event_ok(*stg, *event),
{
    match event {
        Event::Begin(_) => true,
        Event::New(e) => can_new(e),
        Event::Deal(e) => can_deal(stg, e),
        Event::Discard(e) => can_discard(stg, e),
        Event::Meld(e) => match e.meld_type {
            MeldType::Chi | MeldType::Pon | MeldType::Minkan => can_call(stg, e),
            MeldType::Kakan => can_kakan(stg, e),
            MeldType::Ankan => can_ankan(stg, e),
        },
        Event::Kita(_) => false,
        Event::Dora(e) => can_dora(stg, e),
        Event::Win(e) => can_win(stg, e),
        Event::Draw(e) => can_draw(stg, e),
        Event::End(_) => stg.step < usize::MAX,
    }
}

} // verus!
