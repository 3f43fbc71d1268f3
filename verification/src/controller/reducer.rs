//! The reducer: what each event makes of the stage.
//!
//! For every kind of event there is a predicate that says when the event
//! is legal on a stage, and a relation between the stage before and the
//! stage after. The relation leaves no choice: two stages that stand in
//! it to the same stage and event are the same.

use crate::hand::shape::{completes, is_winning_with, less, table_roomy};
use crate::model::action::ActionType;
use crate::model::define::{Score, Seat, SEAT, TILE, TNUM, TYPE, TZ, UK};
use crate::hand::win::WinContext;
use crate::model::define::Point;
use crate::model::event::{
    Event, EventDeal, EventDiscard, EventDora, EventDraw, EventMeld, EventNew, EventWin,
};
use crate::model::meld::{melds_view, Meld, MeldType, MeldView};
use crate::model::player::{meld_tiles, river_tiles, Discard, Player};
use crate::model::stage::{hidden, hidden_copies, Stage, TileStateType};
use crate::model::tile::{
    add_tile, copy_tiles, counts_added, counts_within, hand_total, has_tile, lemma_counts_step,
    lemma_total_changes, lemma_weight_is_one, remove_tile, slot_count, table_bounded, table_has,
    table_view, tile_added, tile_removed, tile_weight, total_before, Tile, TileTable, SLOT_MAX,
};
use vstd::prelude::*;

verus! {

/// The first of the copies from `lo` up to `hi` that is in the state `st`.
pub open spec fn first_with(row: [TileStateType; TILE], st: TileStateType, lo: int, hi: int) -> Option<
    int,
> {
    if lo <= 0 < hi && row[0] == st {
        Some(0)
    } else if lo <= 1 < hi && row[1] == st {
        Some(1)
    } else if lo <= 2 < hi && row[2] == st {
        Some(2)
    } else if lo <= 3 < hi && row[3] == st {
        Some(3)
    } else {
        None
    }
}

/// The first copy that stands for the tile `x`: copy 0 of the fives is
/// the red five, the copies from 1 on are the plain fives.
pub open spec fn copy_lo(x: Tile) -> int {
    if x.0 != TZ && x.1 == 5 {
        1
    } else {
        0
    }
}

/// The end of the copies that stand for the tile `x`.
pub open spec fn copy_hi(x: Tile) -> int {
    if x.0 != TZ && x.1 == 0 {
        1
    } else {
        4
    }
}

/// The copy of the tile `x` that leaves the hand of `seat`: the first
/// that is known to lie there, else the first that is not seen yet.
pub open spec fn pick_copy(row: [TileStateType; TILE], x: Tile, seat: Seat) -> Option<int> {
    match first_with(row, TileStateType::H(seat), copy_lo(x), copy_hi(x)) {
        Some(i) => Some(i),
        None => first_with(row, TileStateType::U, copy_lo(x), copy_hi(x)),
    }
}

/// The copy of the tile `x` that is drawn from the wall: the first that
/// is not seen yet.
pub open spec fn pick_unseen(row: [TileStateType; TILE], x: Tile) -> Option<int> {
    first_with(row, TileStateType::U, copy_lo(x), copy_hi(x))
}

/// Whether `post` is `pre` with the copy `c` of the tile `x` in the state `to`.
pub open spec fn copy_moved(
    pre: [[[TileStateType; TILE]; TNUM]; TYPE],
    post: [[[TileStateType; TILE]; TNUM]; TYPE],
    x: Tile,
    c: int,
    to: TileStateType,
) -> bool {
    forall|t: int, n: int, i: int|
        0 <= t < TYPE && 0 <= n < TNUM && 0 <= i < TILE ==> (#[trigger] post[t][n][i]) == if t
            == x.0 && n == x.normal_rank() && i == c {
            to
        } else {
            pre[t][n][i]
        }
}

/// Whether `post` is `pre` with `k` less in the slot of the tile `x`.
pub open spec fn remains_less(
    pre: [[usize; TNUM]; TYPE],
    post: [[usize; TNUM]; TYPE],
    x: Tile,
    k: int,
) -> bool {
    forall|t: int, n: int|
        0 <= t < TYPE && 0 <= n < TNUM ==> (#[trigger] post[t][n]) == pre[t][n] - if t == x.0 && n
            == x.normal_rank() {
            k
        } else {
            0
        }
}

/// Whether the counts of remaining copies are those of the copies not yet
/// placed openly.
pub open spec fn remains_ok(stg: Stage) -> bool {
    forall|t: int, n: int|
        0 <= t < TYPE && 0 <= n < TNUM ==> (#[trigger] stg.tile_remains[t][n]) == hidden_copies(
            stg.tile_states[t][n],
        )
}

fn find_with(row: &[TileStateType; TILE], st: TileStateType, lo: usize, hi: usize) -> (r: Option<
    usize,
>)
    requires
        hi <= TILE,
    ensures
        match first_with(*row, st, lo as int, hi as int) {
            Some(i) => r == Some(i as usize) && lo <= i < hi && row[i] == st,
            None => r is None,
        },
{
    let mut i: usize = 0;
    while i < TILE
        invariant
            i <= TILE,
            hi <= TILE,
            forall|k: int| 0 <= k < i && lo <= k < hi ==> row[k] != st,
        decreases TILE - i,
    {
        if lo <= i && i < hi && row[i] == st {
            return Some(i);
        }
        i += 1;
    }
    None
}

/// The first copy that can stand for the tile.
pub(crate) fn copy_low(x: Tile) -> (r: usize)
    ensures
        r == copy_lo(x),
{
    if x.0 != TZ && x.1 == 5 {
        1
    } else {
        0
    }
}

/// The end of the copies that can stand for the tile.
pub(crate) fn copy_high(x: Tile) -> (r: usize)
    ensures
        r == copy_hi(x),
        r <= TILE,
{
    if x.0 != TZ && x.1 == 0 {
        1
    } else {
        4
    }
}

/// Places a copy of the tile `x` from the hand of `seat` openly, in the
/// state `to`. Tells whether there was a copy to place; nothing changes
/// where there was none.
fn place_copy(stg: &mut Stage, x: Tile, seat: Seat, to: TileStateType) -> (ok: bool)
    requires
        x.is_known(),
        hidden(to) == 0,
        remains_ok(*old(stg)),
    ensures
        ok == pick_copy(
            old(stg).tile_states[x.0 as int][x.normal_rank()],
            x,
            seat,
        ) is Some,
        !ok ==> *final(stg) == *old(stg),
        ok ==> {
            &&& 0 <= pick_copy(old(stg).tile_states[x.0 as int][x.normal_rank()], x, seat)->0
                < TILE
            &&& hidden(
                old(stg).tile_states[x.0 as int][x.normal_rank()][pick_copy(
                    old(stg).tile_states[x.0 as int][x.normal_rank()],
                    x,
                    seat,
                )->0],
            ) == 1
            &&& copy_moved(
                old(stg).tile_states,
                final(stg).tile_states,
                x,
                pick_copy(old(stg).tile_states[x.0 as int][x.normal_rank()], x, seat)->0,
                to,
            )
            &&& remains_less(old(stg).tile_remains, final(stg).tile_remains, x, 1)
            &&& remains_ok(*final(stg))
            &&& same_but_tiles(*old(stg), *final(stg))
        },
{
    let n = x.to_normal().1;
    let row = stg.tile_states[x.0][n];
    let c = match find_with(&row, TileStateType::H(seat), copy_low(x), copy_high(x)) {
        Some(c) => c,
        None => match find_with(&row, TileStateType::U, copy_low(x), copy_high(x)) {
            Some(c) => c,
            None => {
                return false;
            },
        },
    };
    assert(hidden(row[c as int]) == 1);
    assert(stg.tile_remains[x.0 as int][n as int] == hidden_copies(row));
    stg.tile_states[x.0][n][c] = to;
    stg.tile_remains[x.0][n] -= 1;
    proof {
        assert forall|t: int, m: int| 0 <= t < TYPE && 0 <= m < TNUM implies (
        #[trigger] stg.tile_remains[t][m]) == hidden_copies(stg.tile_states[t][m]) by {
            assert(old(stg).tile_remains[t][m] == hidden_copies(old(stg).tile_states[t][m]));
        }
    }
    true
}

/// Marks the first unseen copy of the tile `x` as lying in the hand of
/// `seat`. Tells whether there was such a copy; nothing changes where
/// there was none.
fn draw_copy(stg: &mut Stage, x: Tile, seat: Seat) -> (ok: bool)
    requires
        x.is_known(),
        remains_ok(*old(stg)),
    ensures
        ok == pick_unseen(old(stg).tile_states[x.0 as int][x.normal_rank()], x) is Some,
        !ok ==> *final(stg) == *old(stg),
        ok ==> {
            &&& copy_moved(
                old(stg).tile_states,
                final(stg).tile_states,
                x,
                pick_unseen(old(stg).tile_states[x.0 as int][x.normal_rank()], x)->0,
                TileStateType::H(seat),
            )
            &&& final(stg).tile_remains == old(stg).tile_remains
            &&& remains_ok(*final(stg))
            &&& same_but_tiles(*old(stg), *final(stg))
        },
{
    let n = x.to_normal().1;
    let row = stg.tile_states[x.0][n];
    let c = match find_with(&row, TileStateType::U, copy_low(x), copy_high(x)) {
        Some(c) => c,
        None => {
            return false;
        },
    };
    stg.tile_states[x.0][n][c] = TileStateType::H(seat);
    proof {
        assert forall|t: int, m: int| 0 <= t < TYPE && 0 <= m < TNUM implies (
        #[trigger] stg.tile_remains[t][m]) == hidden_copies(stg.tile_states[t][m]) by {
            assert(old(stg).tile_remains[t][m] == hidden_copies(old(stg).tile_states[t][m]));
        }
    }
    true
}

/// Whether the two stages differ at most in where the tiles are and how
/// many remain.
pub open spec fn same_but_tiles(pre: Stage, post: Stage) -> bool {
    &&& post.round == pre.round
    &&& post.kyoku == pre.kyoku
    &&& post.honba == pre.honba
    &&& post.kyoutaku == pre.kyoutaku
    &&& post.turn == pre.turn
    &&& post.step == pre.step
    &&& post.left_tile_count == pre.left_tile_count
    &&& post.doras == pre.doras
    &&& post.discards == pre.discards
    &&& post.last_tile == pre.last_tile
    &&& post.last_riichi == pre.last_riichi
    &&& post.players == pre.players
    &&& post.is_3p == pre.is_3p
}

/// Whether the player at `s` lets a win go by: the tile that can be won
/// is not the player's own, the hand is known, and the tile completes it.
pub open spec fn passes_win(pre: Stage, s: int) -> bool {
    match pre.last_tile {
        Some((d, _, t)) => d != s && pre.players[s].is_shown && completes(
            pre.players[s].hand,
            t.spec_to_normal(),
        ),
        None => false,
    }
}

/// The riichi sticks on the table once a pending riichi has its stick.
pub open spec fn settled_kyoutaku(pre: Stage) -> int {
    pre.kyoutaku + if pre.last_riichi is Some {
        1int
    } else {
        0int
    }
}

/// The score of the player at `s` once a pending riichi has its stick.
pub open spec fn settled_score(pre: Stage, s: int) -> int {
    pre.players[s].score - if pre.last_riichi == Some(s as usize) {
        1000int
    } else {
        0int
    }
}

/// Whether the player at `post` is the player `p` of `pre` once the last
/// discard is settled: a pending riichi has cost its stick, and who let a
/// win go by is furiten, for the rest of the round if in riichi.
pub open spec fn player_settled(pre: Stage, s: int, post: Player) -> bool {
    let p = pre.players[s];
    &&& post.seat == p.seat
    &&& post.score == settled_score(pre, s)
    &&& post.hand == p.hand
    &&& post.drawn == p.drawn
    &&& post.melds == p.melds
    &&& post.discards == p.discards
    &&& post.riichi == p.riichi
    &&& post.is_shown == p.is_shown
    &&& post.is_furiten == (p.is_furiten || passes_win(pre, s))
    &&& post.is_riichi_furiten == (p.is_riichi_furiten || (passes_win(pre, s) && p.riichi is Some))
    &&& post.is_nagashi == p.is_nagashi
    &&& post.is_ippatsu == p.is_ippatsu
    &&& post.kita_count == p.kita_count
}

/// Whether the last discard can be settled: a pending riichi can pay
/// its stick.
pub open spec fn settle_ok(pre: Stage) -> bool {
    pre.last_riichi matches Some(s) ==> pre.kyoutaku < usize::MAX && pre.players[s as int].score
        >= i32::MIN + 1000
}

/// Whether `post` is `pre` with the last discard settled.
pub open spec fn settled(pre: Stage, post: Stage) -> bool {
    &&& post.round == pre.round
    &&& post.kyoku == pre.kyoku
    &&& post.honba == pre.honba
    &&& post.kyoutaku == settled_kyoutaku(pre)
    &&& post.turn == pre.turn
    &&& post.step == pre.step
    &&& post.left_tile_count == pre.left_tile_count
    &&& post.doras == pre.doras
    &&& post.discards == pre.discards
    &&& post.last_tile == pre.last_tile
    &&& post.last_riichi is None
    &&& forall|s: int| 0 <= s < SEAT ==> player_settled(pre, s, #[trigger] post.players[s])
    &&& post.is_3p == pre.is_3p
    &&& post.tile_states == pre.tile_states
    &&& post.tile_remains == pre.tile_remains
}

/// Settles the last discard before play goes on.
fn settle(stg: &mut Stage)
    requires
        old(stg).wf(),
        settle_ok(*old(stg)),
        forall|s: int| 0 <= s < SEAT ==> (#[trigger] old(stg).players[s]).size() == 13,
    ensures
        settled(*old(stg), *final(stg)),
        final(stg).wf(),
{
    match stg.last_riichi {
        Some(s) => {
            stg.kyoutaku += 1;
            stg.players[s].score -= 1000;
            stg.last_riichi = None;
        },
        None => {},
    }
    let ghost mid = *stg;
    proof {
        assert forall|s: int| 0 <= s < SEAT implies (#[trigger] mid.players[s]).hand == old(
            stg,
        ).players[s].hand && mid.players[s].melds == old(stg).players[s].melds
            && mid.players[s].discards == old(stg).players[s].discards by {}
    }
    match stg.last_tile {
        Some((d, op, t)) => {
            let tn = t.to_normal();
            let mut s: usize = 0;
            while s < SEAT
                invariant
                    s <= SEAT,
                    tn == t.spec_to_normal(),
                    tn.in_table(),
                    old(stg).last_tile == Some((d, op, t)),
                    stg.last_tile == old(stg).last_tile,
                    stg.round == mid.round,
                    stg.kyoku == mid.kyoku,
                    stg.honba == mid.honba,
                    stg.kyoutaku == mid.kyoutaku,
                    stg.turn == mid.turn,
                    stg.step == mid.step,
                    stg.left_tile_count == mid.left_tile_count,
                    stg.doras == mid.doras,
                    stg.discards == mid.discards,
                    stg.last_riichi == mid.last_riichi,
                    stg.is_3p == mid.is_3p,
                    stg.tile_states == mid.tile_states,
                    stg.tile_remains == mid.tile_remains,
                    forall|k: int|
                        0 <= k < SEAT ==> (#[trigger] mid.players[k]).wf() && mid.players[k].size()
                            == 13,
                    forall|k: int|
                        0 <= k < SEAT ==> (#[trigger] mid.players[k]).hand == old(
                            stg,
                        ).players[k].hand && mid.players[k].is_shown == old(
                            stg,
                        ).players[k].is_shown,
                    forall|k: int| s <= k < SEAT ==> (#[trigger] stg.players[k]) == mid.players[k],
                    forall|k: int|
                        0 <= k < s ==> (#[trigger] stg.players[k]) == (Player {
                            is_furiten: mid.players[k].is_furiten || passes_win(*old(stg), k),
                            is_riichi_furiten: mid.players[k].is_riichi_furiten || (passes_win(
                                *old(stg),
                                k,
                            ) && mid.players[k].riichi is Some),
                            ..mid.players[k]
                        }),
                decreases SEAT - s,
            {
                if s != d && stg.players[s].is_shown {
                    proof {
                        assert(mid.players[s as int].wf());
                        assert(hand_total(mid.players[s as int].hand) <= 13);
                        crate::model::tile::lemma_small_hand_is_roomy(mid.players[s as int].hand);
                    }
                    if is_winning_with(&stg.players[s].hand, tn) {
                        stg.players[s].is_furiten = true;
                        if stg.players[s].riichi.is_some() {
                            stg.players[s].is_riichi_furiten = true;
                        }
                    }
                }
                s += 1;
            }
        },
        None => {},
    }
    proof {
        assert forall|s: int| 0 <= s < SEAT implies player_settled(
            *old(stg),
            s,
            #[trigger] stg.players[s],
        ) by {
            assert(mid.players[s].hand == old(stg).players[s].hand);
        }
        assert forall|s: int| 0 <= s < SEAT implies (#[trigger] stg.players[s]).wf()
            && stg.players[s].seat == s && stg.players[s].size() == 13 by {
            assert(player_settled(*old(stg), s, stg.players[s]));
            assert(old(stg).players[s].wf());
        }
        assert(stg.tiles_held() == old(stg).tiles_held());
    }
}

/// Places the first unseen copy of the tile `x` openly, in the state
/// `to`. Tells whether there was such a copy; nothing changes where
/// there was none.
fn open_copy(stg: &mut Stage, x: Tile, to: TileStateType) -> (ok: bool)
    requires
        x.is_known(),
        hidden(to) == 0,
        remains_ok(*old(stg)),
    ensures
        ok == pick_unseen(old(stg).tile_states[x.0 as int][x.normal_rank()], x) is Some,
        !ok ==> *final(stg) == *old(stg),
        ok ==> {
            &&& 0 <= pick_unseen(old(stg).tile_states[x.0 as int][x.normal_rank()], x)->0 < TILE
            &&& old(stg).tile_states[x.0 as int][x.normal_rank()][pick_unseen(
                old(stg).tile_states[x.0 as int][x.normal_rank()],
                x,
            )->0] == TileStateType::U
            &&& copy_moved(
                old(stg).tile_states,
                final(stg).tile_states,
                x,
                pick_unseen(old(stg).tile_states[x.0 as int][x.normal_rank()], x)->0,
                to,
            )
            &&& remains_less(old(stg).tile_remains, final(stg).tile_remains, x, 1)
            &&& remains_ok(*final(stg))
            &&& same_but_tiles(*old(stg), *final(stg))
        },
{
    let n = x.to_normal().1;
    let row = stg.tile_states[x.0][n];
    let c = match find_with(&row, TileStateType::U, copy_low(x), copy_high(x)) {
        Some(c) => c,
        None => {
            return false;
        },
    };
    assert(hidden(row[c as int]) == 1);
    assert(stg.tile_remains[x.0 as int][n as int] == hidden_copies(row));
    stg.tile_states[x.0][n][c] = to;
    stg.tile_remains[x.0][n] -= 1;
    proof {
        assert forall|t: int, m: int| 0 <= t < TYPE && 0 <= m < TNUM implies (
        #[trigger] stg.tile_remains[t][m]) == hidden_copies(stg.tile_states[t][m]) by {
            assert(old(stg).tile_remains[t][m] == hidden_copies(old(stg).tile_states[t][m]));
        }
    }
    true
}

/// Whether the tile is the hidden one.
pub fn is_hidden(x: Tile) -> (r: bool)
    ensures
        r == (x == Tile(TZ, UK)),
{
    x.0 == TZ && x.1 == UK
}

/// Whether the tile is one of the game.
pub fn is_valid_tile(x: Tile) -> (r: bool)
    ensures
        r == x.is_valid(),
{
    if x.0 < TZ {
        x.1 < TNUM
    } else {
        x.0 == TZ && 1 <= x.1 && x.1 <= UK
    }
}

/// Whether every player holds thirteen tiles, melds counted as three.
pub open spec fn all_thirteen(pre: Stage) -> bool {
    forall|s: int| 0 <= s < SEAT ==> (#[trigger] pre.players[s]).size() == 13
}

/// When a tile can be drawn: every player holds thirteen tiles, the wall
/// has a tile left, and a tile that is shown has a copy not seen yet.
pub open spec fn deal_ok(pre: Stage, e: EventDeal) -> bool {
    &&& pre.wf()
    &&& e.seat < SEAT
    &&& e.tile.is_valid()
    &&& all_thirteen(pre)
    &&& pre.left_tile_count >= 1
    &&& pre.step < usize::MAX
    &&& settle_ok(pre)
    &&& e.tile != Tile(TZ, UK) ==> pick_unseen(
        pre.tile_states[e.tile.0 as int][e.tile.normal_rank()],
        e.tile,
    ) is Some
}

/// Whether the player `post` is the player at `s` of `pre`, settled,
/// with the tile `x` drawn into the hand.
pub open spec fn player_drew(pre: Stage, s: int, x: Tile, post: Player) -> bool {
    let p = pre.players[s];
    &&& post.seat == p.seat
    &&& post.score == settled_score(pre, s)
    &&& tile_added(p.hand, x, post.hand)
    &&& post.drawn == Some(x)
    &&& post.melds == p.melds
    &&& post.discards == p.discards
    &&& post.riichi == p.riichi
    &&& post.is_shown == p.is_shown
    &&& post.is_furiten == (p.is_furiten || passes_win(pre, s))
    &&& post.is_riichi_furiten == (p.is_riichi_furiten || (passes_win(pre, s) && p.riichi is Some))
    &&& post.is_nagashi == p.is_nagashi
    &&& post.is_ippatsu == p.is_ippatsu
    &&& post.kita_count == p.kita_count
}

/// What a draw makes of the stage: the last discard is settled, the tile
/// lies in the hand of the seat as the tile drawn, the wall has one tile
/// less, it is the turn of the seat, and no tile can be won by ron. Of a
/// tile that is shown, the first copy not seen yet lies in that hand.
pub open spec fn deal_applied(pre: Stage, e: EventDeal, post: Stage) -> bool {
    &&& post.round == pre.round
    &&& post.kyoku == pre.kyoku
    &&& post.honba == pre.honba
    &&& post.kyoutaku == settled_kyoutaku(pre)
    &&& post.turn == e.seat
    &&& post.step == pre.step + 1
    &&& post.left_tile_count == pre.left_tile_count - 1
    &&& post.doras == pre.doras
    &&& post.discards == pre.discards
    &&& post.last_tile is None
    &&& post.last_riichi is None
    &&& forall|s: int|
        0 <= s < SEAT && s != e.seat ==> player_settled(pre, s, #[trigger] post.players[s])
    &&& player_drew(pre, e.seat as int, e.tile, post.players[e.seat as int])
    &&& post.is_3p == pre.is_3p
    &&& if e.tile != Tile(TZ, UK) {
        copy_moved(
            pre.tile_states,
            post.tile_states,
            e.tile,
            pick_unseen(pre.tile_states[e.tile.0 as int][e.tile.normal_rank()], e.tile)->0,
            TileStateType::H(e.seat),
        )
    } else {
        post.tile_states == pre.tile_states
    }
    &&& post.tile_remains == pre.tile_remains
}

fn stage_deal(stg: &mut Stage, e: &EventDeal)
    requires
        deal_ok(*old(stg), *e),
    ensures
        deal_applied(*old(stg), *e, *final(stg)),
        final(stg).wf(),
{
    settle(stg);
    let ghost mid = *stg;
    if !is_hidden(e.tile) {
        let ok = draw_copy(stg, e.tile, e.seat);
        assert(ok);
    }
    let ghost mid2 = *stg;
    proof {
        assert(mid2.players == mid.players);
        assert(mid.players[e.seat as int].wf());
        crate::model::tile::lemma_small_hand_is_roomy(mid.players[e.seat as int].hand);
    }
    let mut hand = stg.players[e.seat].hand;
    add_tile(&mut hand, e.tile);
    stg.players[e.seat].hand = hand;
    stg.players[e.seat].drawn = Some(e.tile);
    stg.left_tile_count -= 1;
    stg.turn = e.seat;
    stg.last_tile = None;
    stg.step += 1;
    proof {
        let was = mid.players[e.seat as int];
        let now = stg.players[e.seat as int];
        lemma_total_changes(was.hand, e.tile, now.hand, 40);
        lemma_weight_is_one(e.tile);
        assert(hand_total(now.hand) == hand_total(was.hand) + 1);
        assert forall|s: int| 0 <= s < SEAT && s != e.seat implies (#[trigger] stg.players[s])
            == mid.players[s] by {}
        assert(now.wf()) by {
            assert forall|t: int, n: int| 0 <= t < TYPE && 0 <= n < TNUM implies (
            #[trigger] now.hand[t][n]) <= SLOT_MAX by {
                assert(now.hand[t][n] == was.hand[t][n] + crate::model::tile::tile_weight(
                    e.tile,
                    t,
                    n,
                ));
            }
            assert forall|t: int| 0 <= t < TYPE implies (#[trigger] now.hand[t])[0]
                <= now.hand[t][5] by {
                assert(now.hand[t][0] == was.hand[t][0] + crate::model::tile::tile_weight(
                    e.tile,
                    t,
                    0,
                ));
                assert(now.hand[t][5] == was.hand[t][5] + crate::model::tile::tile_weight(
                    e.tile,
                    t,
                    5,
                ));
                assert(was.hand[t][0] <= was.hand[t][5]);
            }
            assert(now.hand[e.tile.0 as int][e.tile.1 as int] == was.hand[e.tile.0 as int][e.tile.1 as int]
                + crate::model::tile::tile_weight(e.tile, e.tile.0 as int, e.tile.1 as int));
            assert(now.hand[e.tile.0 as int][5] == was.hand[e.tile.0 as int][5]
                + crate::model::tile::tile_weight(e.tile, e.tile.0 as int, 5));
        }
        assert(stg.players[0].tiles_held() + stg.players[1].tiles_held()
            + stg.players[2].tiles_held() + stg.players[3].tiles_held() == mid.tiles_held() + 1);
    }
}

/// When a dora indicator can be turned over: the wall has a tile left and
/// the tile has a copy not seen yet.
pub open spec fn dora_ok(pre: Stage, e: EventDora) -> bool {
    &&& pre.wf()
    &&& e.tile.is_known()
    &&& pre.left_tile_count >= 1
    &&& pre.step < usize::MAX
    &&& pick_unseen(pre.tile_states[e.tile.0 as int][e.tile.normal_rank()], e.tile) is Some
}

/// What a new dora indicator makes of the stage: the tile is the last of
/// the indicators, its first copy not seen yet lies open, and the wall
/// has one tile less.
pub open spec fn dora_applied(pre: Stage, e: EventDora, post: Stage) -> bool {
    &&& post.round == pre.round
    &&& post.kyoku == pre.kyoku
    &&& post.honba == pre.honba
    &&& post.kyoutaku == pre.kyoutaku
    &&& post.turn == pre.turn
    &&& post.step == pre.step + 1
    &&& post.left_tile_count == pre.left_tile_count - 1
    &&& post.doras@ == pre.doras@.push(e.tile)
    &&& post.discards == pre.discards
    &&& post.last_tile == pre.last_tile
    &&& post.last_riichi == pre.last_riichi
    &&& post.players == pre.players
    &&& post.is_3p == pre.is_3p
    &&& copy_moved(
        pre.tile_states,
        post.tile_states,
        e.tile,
        pick_unseen(pre.tile_states[e.tile.0 as int][e.tile.normal_rank()], e.tile)->0,
        TileStateType::R,
    )
    &&& remains_less(pre.tile_remains, post.tile_remains, e.tile, 1)
}

fn stage_dora(stg: &mut Stage, e: &EventDora)
    requires
        dora_ok(*old(stg), *e),
    ensures
        dora_applied(*old(stg), *e, *final(stg)),
        final(stg).wf(),
{
    let ok = open_copy(stg, e.tile, TileStateType::R);
    assert(ok);
    stg.doras.push(e.tile);
    stg.left_tile_count -= 1;
    stg.step += 1;
    proof {
        assert(stg.players == old(stg).players);
        assert(stg.tiles_held() == old(stg).tiles_held());
        lemma_move_keeps_last(
            *old(stg),
            *stg,
            e.tile,
            pick_unseen(old(stg).tile_states[e.tile.0 as int][e.tile.normal_rank()], e.tile)->0,
            TileStateType::R,
        );
    }
}

/// Where a copy that is not seen yet or lies in a hand is placed
/// elsewhere, the last discard still lies where it lay.
pub proof fn lemma_move_keeps_last(pre: Stage, post: Stage, x: Tile, c: int, to: TileStateType)
    requires
        post.last_tile == pre.last_tile,
        post.players == pre.players,
        0 <= c < TILE,
        hidden(pre.tile_states[x.0 as int][x.normal_rank()][c]) == 1,
        copy_moved(pre.tile_states, post.tile_states, x, c, to),
        x.in_table(),
        pre.last_tile matches Some((d, ActionType::Discard, y)) ==> pre.lies_last(d, y) && y.in_table()
            && d < SEAT,
    ensures
        post.last_tile matches Some((d, ActionType::Discard, y)) ==> post.lies_last(d, y),
{
    match pre.last_tile {
        Some((d, ActionType::Discard, y)) => {
            let river = pre.players[d as int].discards;
            let c0 = choose|c0: int|
                0 <= c0 < TILE && #[trigger] pre.tile_states[y.0 as int][y.normal_rank()][c0]
                    == TileStateType::D(d, (river.len() - 1) as usize);
            assert(post.tile_states[y.0 as int][y.normal_rank()][c0] == TileStateType::D(
                d,
                (river.len() - 1) as usize,
            ));
        },
        _ => {},
    }
}

/// The tile that leaves a hand when `x` is discarded: `x` itself where
/// the hand holds it, else a hidden tile.
pub open spec fn given_tile(h: TileTable, x: Tile) -> Tile {
    if table_has(h, x) {
        x
    } else {
        Tile(TZ, UK)
    }
}

/// Whether a tile of the river completes the hand.
pub open spec fn river_furiten(h: TileTable, river: Seq<Discard>) -> bool {
    exists|i: int| 0 <= i < river.len() && completes(h, (#[trigger] river[i]).tile.spec_to_normal())
}

/// Whether a tile of the river completes the hand.
pub fn check_river_furiten(h: &TileTable, river: &Vec<Discard>) -> (r: bool)
    requires
        table_roomy(*h),
        forall|i: int| 0 <= i < river.len() ==> (#[trigger] river[i]).tile.in_table(),
    ensures
        r == river_furiten(*h, river@),
{
    let mut i: usize = 0;
    while i < river.len()
        invariant
            i <= river.len(),
            table_roomy(*h),
            forall|k: int| 0 <= k < river.len() ==> (#[trigger] river[k]).tile.in_table(),
            forall|k: int| 0 <= k < i ==> !completes(*h, (#[trigger] river[k]).tile.spec_to_normal()),
        decreases river.len() - i,
    {
        assert(river[i as int].tile.in_table());
        if is_winning_with(h, river[i].tile.to_normal()) {
            return true;
        }
        i += 1;
    }
    false
}

/// When a tile can be discarded: the seat holds fourteen tiles, the tile
/// or a hidden tile among them, and a copy of the tile lies in that hand
/// or is not seen yet.
pub open spec fn discard_ok(pre: Stage, e: EventDiscard) -> bool {
    &&& pre.wf()
    &&& e.seat < SEAT
    &&& e.tile.is_known()
    &&& pre.turn == e.seat
    &&& pre.players[e.seat as int].size() == 14
    &&& table_has(pre.players[e.seat as int].hand, given_tile(pre.players[e.seat as int].hand, e.tile))
    &&& pre.step < usize::MAX
    &&& pick_copy(
        pre.tile_states[e.tile.0 as int][e.tile.normal_rank()],
        e.tile,
        e.seat,
    ) is Some
    &&& forall|i: int|
        0 <= i < pre.players[e.seat as int].discards.len() ==> (
        #[trigger] pre.players[e.seat as int].discards[i]).tile.in_table()
}

/// Whether the player `post` is the player `p` after the discard: the
/// tile has left the hand for the river, no tile is drawn, a riichi is
/// declared at this step and can be won at once, and the player is
/// furiten where a tile of the river completes the hand that is shown.
/// A player who was furiten in riichi stays so.
pub open spec fn player_discarded(p: Player, step: usize, e: EventDiscard, post: Player) -> bool {
    &&& post.seat == p.seat
    &&& post.score == p.score
    &&& tile_removed(p.hand, given_tile(p.hand, e.tile), post.hand)
    &&& post.drawn is None
    &&& post.melds == p.melds
    &&& post.discards@ == p.discards@.push(
        Discard { step, tile: e.tile, drawn: e.is_drawn, riichi: e.is_riichi, meld: None },
    )
    &&& post.riichi == (if e.is_riichi {
        Some(step)
    } else {
        p.riichi
    })
    &&& post.is_shown == p.is_shown
    &&& post.is_furiten == (p.is_riichi_furiten || (p.riichi is Some && p.is_furiten) || (
    p.is_shown && river_furiten(post.hand, post.discards@)))
    &&& post.is_riichi_furiten == p.is_riichi_furiten
    &&& post.is_nagashi == (p.is_nagashi && e.tile.spec_is_terminal_or_honor())
    &&& post.is_ippatsu == e.is_riichi
    &&& post.kita_count == p.kita_count
}

/// What a discard makes of the stage: the tile lies last in the river of
/// the seat and can be won by ron, a riichi declared with it is pending,
/// and the copy of the tile that left the hand lies in the river.
pub open spec fn discard_applied(pre: Stage, e: EventDiscard, post: Stage) -> bool {
    &&& post.round == pre.round
    &&& post.kyoku == pre.kyoku
    &&& post.honba == pre.honba
    &&& post.kyoutaku == pre.kyoutaku
    &&& post.turn == pre.turn
    &&& post.step == pre.step + 1
    &&& post.left_tile_count == pre.left_tile_count
    &&& post.doras == pre.doras
    &&& post.discards@ == pre.discards@.push((e.seat, pre.players[e.seat as int].discards.len()))
    &&& post.last_tile == Some((e.seat, ActionType::Discard, e.tile))
    &&& post.last_riichi == (if e.is_riichi {
        Some(e.seat)
    } else {
        pre.last_riichi
    })
    &&& forall|s: int| 0 <= s < SEAT && s != e.seat ==> (#[trigger] post.players[s]) == pre.players[s]
    &&& player_discarded(pre.players[e.seat as int], pre.step, e, post.players[e.seat as int])
    &&& post.is_3p == pre.is_3p
    &&& copy_moved(
        pre.tile_states,
        post.tile_states,
        e.tile,
        pick_copy(pre.tile_states[e.tile.0 as int][e.tile.normal_rank()], e.tile, e.seat)->0,
        TileStateType::D(e.seat, pre.players[e.seat as int].discards.len()),
    )
    &&& remains_less(pre.tile_remains, post.tile_remains, e.tile, 1)
}

/// Taking a tile out of a well-formed hand leaves the hand well formed
/// but for its size, which is one less.
pub proof fn lemma_hand_after_removal(before: TileTable, x: Tile, after: TileTable)
    requires
        table_bounded(before),
        forall|t: int| 0 <= t < TYPE ==> (#[trigger] before[t])[0] <= before[t][5],
        x.is_valid(),
        table_has(before, x),
        tile_removed(before, x, after),
    ensures
        table_bounded(after),
        forall|t: int| 0 <= t < TYPE ==> (#[trigger] after[t])[0] <= after[t][5],
        hand_total(after) == hand_total(before) - 1,
{
    lemma_total_changes(before, x, after, 40);
    lemma_weight_is_one(x);
    assert forall|t: int, n: int| 0 <= t < TYPE && 0 <= n < TNUM implies (#[trigger] after[t][n])
        <= SLOT_MAX by {
        assert(after[t][n] == before[t][n] - tile_weight(x, t, n));
    }
    assert forall|t: int| 0 <= t < TYPE implies (#[trigger] after[t])[0] <= after[t][5] by {
        assert(after[t][0] == before[t][0] - tile_weight(x, t, 0));
        assert(after[t][5] == before[t][5] - tile_weight(x, t, 5));
        assert(before[t][0] <= before[t][5]);
    }
}

fn player_discard(p: &mut Player, step: usize, e: &EventDiscard)
    requires
        old(p).wf(),
        old(p).size() == 14,
        e.tile.is_known(),
        table_has(old(p).hand, given_tile(old(p).hand, e.tile)),
        forall|i: int| 0 <= i < old(p).discards.len() ==> (#[trigger] old(p).discards[i]).tile.in_table(),
    ensures
        player_discarded(*old(p), step, *e, *final(p)),
        final(p).wf(),
        final(p).size() == 13,
        final(p).tiles_held() == old(p).tiles_held(),
{
    let mut hand = p.hand;
    let given = if has_tile(&hand, e.tile) {
        e.tile
    } else {
        Tile(TZ, UK)
    };
    remove_tile(&mut hand, given);
    proof {
        lemma_hand_after_removal(old(p).hand, given, hand);
        crate::model::tile::lemma_small_hand_is_roomy(hand);
    }
    p.hand = hand;
    p.drawn = None;
    p.discards.push(
        Discard { step, tile: e.tile, drawn: e.is_drawn, riichi: e.is_riichi, meld: None },
    );
    let stays_furiten = p.is_riichi_furiten || (p.riichi.is_some() && p.is_furiten);
    if e.is_riichi {
        p.riichi = Some(step);
    }
    p.is_ippatsu = e.is_riichi;
    p.is_nagashi = p.is_nagashi && e.tile.is_terminal_or_honor();
    let river_hit = if p.is_shown {
        check_river_furiten(&p.hand, &p.discards)
    } else {
        false
    };
    p.is_furiten = stays_furiten || river_hit;
    proof {
        assert(p.discards@.drop_last() == old(p).discards@);
        assert(river_tiles(p.discards@) == river_tiles(old(p).discards@) + 1);
    }
}

fn stage_discard(stg: &mut Stage, e: &EventDiscard)
    requires
        discard_ok(*old(stg), *e),
    ensures
        discard_applied(*old(stg), *e, *final(stg)),
        final(stg).wf(),
{
    let s = e.seat;
    let idx = stg.players[s].discards.len();
    let ok = place_copy(stg, e.tile, s, TileStateType::D(s, idx));
    assert(ok);
    let step = stg.step;
    player_discard(&mut stg.players[s], step, e);
    if e.is_riichi {
        stg.last_riichi = Some(s);
    }
    stg.discards.push((s, idx));
    stg.last_tile = Some((s, ActionType::Discard, e.tile));
    stg.step += 1;
    proof {
        assert forall|k: int| 0 <= k < SEAT && k != s implies (#[trigger] stg.players[k])
            == old(stg).players[k] by {}
        assert(stg.players[0].tiles_held() + stg.players[1].tiles_held()
            + stg.players[2].tiles_held() + stg.players[3].tiles_held() == old(stg).tiles_held());
        let c = pick_copy(
            old(stg).tile_states[e.tile.0 as int][e.tile.normal_rank()],
            e.tile,
            e.seat,
        )->0;
        assert(0 <= c < TILE);
        assert(stg.tile_states[e.tile.0 as int][e.tile.normal_rank()][c] == TileStateType::D(
            s,
            idx,
        ));
        assert(stg.lies_last(s, e.tile));
    }
}

/// Where every copy of every tile is.
pub type TileStates = [[[TileStateType; TILE]; TNUM]; TYPE];

/// The states of the copies, by suit, rank and copy.
pub open spec fn states_view(ts: TileStates) -> Seq<Seq<Seq<TileStateType>>> {
    Seq::new(
        TYPE as nat,
        |t: int| Seq::new(TNUM as nat, |n: int| Seq::new(TILE as nat, |i: int| ts[t][n][i])),
    )
}

/// The states with the copy `c` of the tile `x` in the state `to`.
pub open spec fn moved(v: Seq<Seq<Seq<TileStateType>>>, x: Tile, c: int, to: TileStateType) -> Seq<
    Seq<Seq<TileStateType>>,
> {
    let t = x.0 as int;
    let n = x.normal_rank();
    v.update(t, v[t].update(n, v[t][n].update(c, to)))
}

/// The first of the copies from `lo` up to `hi` that is in the state `st`.
pub open spec fn seq_first_with(row: Seq<TileStateType>, st: TileStateType, lo: int, hi: int) -> Option<
    int,
> {
    if lo <= 0 < hi && row[0] == st {
        Some(0)
    } else if lo <= 1 < hi && row[1] == st {
        Some(1)
    } else if lo <= 2 < hi && row[2] == st {
        Some(2)
    } else if lo <= 3 < hi && row[3] == st {
        Some(3)
    } else {
        None
    }
}

/// The copy of the tile `x` that leaves the hand of `seat`.
pub open spec fn seq_pick_copy(v: Seq<Seq<Seq<TileStateType>>>, x: Tile, seat: Seat) -> Option<int> {
    let row = v[x.0 as int][x.normal_rank()];
    match seq_first_with(row, TileStateType::H(seat), copy_lo(x), copy_hi(x)) {
        Some(i) => Some(i),
        None => seq_first_with(row, TileStateType::U, copy_lo(x), copy_hi(x)),
    }
}

/// The states once the first `n` of the tiles have left the hand of
/// `seat` for the state `to`, one after the other; `None` where one of
/// them has no copy to leave.
pub open spec fn place_all(
    v: Seq<Seq<Seq<TileStateType>>>,
    tiles: Seq<Tile>,
    n: int,
    seat: Seat,
    to: TileStateType,
) -> Option<Seq<Seq<Seq<TileStateType>>>>
    decreases n,
{
    if n <= 0 {
        Some(v)
    } else {
        match place_all(v, tiles, n - 1, seat, to) {
            Some(m) => match seq_pick_copy(m, tiles[n - 1], seat) {
                Some(c) => Some(moved(m, tiles[n - 1], c, to)),
                None => None,
            },
            None => None,
        }
    }
}

/// A copy moved in the table of states is a copy moved in their view.
pub proof fn lemma_moved_view(pre: TileStates, post: TileStates, x: Tile, c: int, to: TileStateType)
    requires
        x.in_table(),
        0 <= c < TILE,
        copy_moved(pre, post, x, c, to),
    ensures
        states_view(post) == moved(states_view(pre), x, c, to),
{
    let want = moved(states_view(pre), x, c, to);
    assert forall|t: int| 0 <= t < TYPE implies states_view(post)[t] =~= want[t] by {
        assert forall|n: int| 0 <= n < TNUM implies states_view(post)[t][n] =~= want[t][n] by {
            assert forall|i: int| 0 <= i < TILE implies states_view(post)[t][n][i]
                == want[t][n][i] by {
                assert(post[t][n][i] == if t == x.0 && n == x.normal_rank() && i == c {
                    to
                } else {
                    pre[t][n][i]
                });
            }
        }
    }
    assert(states_view(post) =~= want);
}

/// Places the tiles from the hand of `seat` openly, in the state `to`.
fn place_tiles(stg: &mut Stage, tiles: &Vec<Tile>, seat: Seat, to: TileStateType)
    requires
        hidden(to) == 0,
        remains_ok(*old(stg)),
        forall|i: int| 0 <= i < tiles.len() ==> (#[trigger] tiles[i]).is_known(),
        place_all(states_view(old(stg).tile_states), tiles@, tiles.len() as int, seat, to) is Some,
    ensures
        states_view(final(stg).tile_states) == place_all(
            states_view(old(stg).tile_states),
            tiles@,
            tiles.len() as int,
            seat,
            to,
        )->0,
        remains_ok(*final(stg)),
        same_but_tiles(*old(stg), *final(stg)),
        forall|t: int, n: int, c: int|
            0 <= t < TYPE && 0 <= n < TNUM && 0 <= c < TILE && hidden(
                #[trigger] old(stg).tile_states[t][n][c],
            ) == 0 ==> final(stg).tile_states[t][n][c] == old(stg).tile_states[t][n][c],
{
    let ghost v0 = states_view(stg.tile_states);
    let mut i: usize = 0;
    while i < tiles.len()
        invariant
            i <= tiles.len(),
            hidden(to) == 0,
            remains_ok(*stg),
            same_but_tiles(*old(stg), *stg),
            v0 == states_view(old(stg).tile_states),
            forall|k: int| 0 <= k < tiles.len() ==> (#[trigger] tiles[k]).is_known(),
            place_all(v0, tiles@, tiles.len() as int, seat, to) is Some,
            place_all(v0, tiles@, i as int, seat, to) == Some(states_view(stg.tile_states)),
            forall|t: int, n: int, c: int|
                0 <= t < TYPE && 0 <= n < TNUM && 0 <= c < TILE && hidden(
                    #[trigger] old(stg).tile_states[t][n][c],
                ) == 0 ==> stg.tile_states[t][n][c] == old(stg).tile_states[t][n][c],
        decreases tiles.len() - i,
    {
        let x = tiles[i];
        let ghost before = *stg;
        proof {
            lemma_place_all_prefix(v0, tiles@, i + 1, tiles.len() as int, seat, to);
            assert(x.is_known());
            let row = before.tile_states[x.0 as int][x.normal_rank()];
            assert(states_view(before.tile_states)[x.0 as int][x.normal_rank()] =~= row@);
            assert(seq_pick_copy(states_view(before.tile_states), x, seat) == pick_copy(
                row,
                x,
                seat,
            ));
        }
        let ok = place_copy(stg, x, seat, to);
        proof {
            let row = before.tile_states[x.0 as int][x.normal_rank()];
            let c = pick_copy(row, x, seat)->0;
            assert(0 <= c < TILE && hidden(row[c]) == 1);
            lemma_moved_view(before.tile_states, stg.tile_states, x, c, to);
            assert forall|t: int, n: int, k: int|
                0 <= t < TYPE && 0 <= n < TNUM && 0 <= k < TILE && hidden(
                    #[trigger] old(stg).tile_states[t][n][k],
                ) == 0 implies stg.tile_states[t][n][k] == old(stg).tile_states[t][n][k] by {
                assert(before.tile_states[t][n][k] == old(stg).tile_states[t][n][k]);
                assert(stg.tile_states[t][n][k] == if t == x.0 && n == x.normal_rank() && k == c {
                    to
                } else {
                    before.tile_states[t][n][k]
                });
            }
        }
        i += 1;
    }
}

/// Where all of the tiles can be placed, so can the first of them.
pub proof fn lemma_place_all_prefix(
    v: Seq<Seq<Seq<TileStateType>>>,
    tiles: Seq<Tile>,
    k: int,
    n: int,
    seat: Seat,
    to: TileStateType,
)
    requires
        0 <= k <= n,
        place_all(v, tiles, n, seat, to) is Some,
    ensures
        place_all(v, tiles, k, seat, to) is Some,
    decreases n,
{
    if k < n {
        lemma_place_all_prefix(v, tiles, k, n - 1, seat, to);
    }
}

/// Whether the counts hold the tile `x`.
pub open spec fn view_has(v: Seq<Seq<int>>, x: Tile) -> bool {
    &&& x.in_table()
    &&& v[x.0 as int][x.1 as int] >= 1
    &&& x.1 == 0 ==> v[x.0 as int][5] >= 1
    &&& x.1 == 5 ==> v[x.0 as int][5] > v[x.0 as int][0]
}

/// The counts without the tile `x`.
pub open spec fn without_tile(v: Seq<Seq<int>>, x: Tile) -> Seq<Seq<int>> {
    if x.1 == 0 {
        less(less(v, x.0 as int, 0, 1), x.0 as int, 5, 1)
    } else {
        less(v, x.0 as int, x.1 as int, 1)
    }
}

/// The counts once the tile `x` has left the hand: `x` itself where the
/// hand holds it, else a hidden tile; `None` where it holds neither.
pub open spec fn give_one(v: Seq<Seq<int>>, x: Tile) -> Option<Seq<Seq<int>>> {
    if view_has(v, x) {
        Some(without_tile(v, x))
    } else if v[TZ as int][UK as int] >= 1 {
        Some(less(v, TZ as int, UK as int, 1))
    } else {
        None
    }
}

/// The counts once the first `n` of the tiles have left the hand, one
/// after the other.
pub open spec fn give_all(v: Seq<Seq<int>>, tiles: Seq<Tile>, n: int) -> Option<Seq<Seq<int>>>
    decreases n,
{
    if n <= 0 {
        Some(v)
    } else {
        match give_all(v, tiles, n - 1) {
            Some(m) => give_one(m, tiles[n - 1]),
            None => None,
        }
    }
}

/// Where all of the tiles can leave the hand, so can the first of them.
pub proof fn lemma_give_all_prefix(v: Seq<Seq<int>>, tiles: Seq<Tile>, k: int, n: int)
    requires
        0 <= k <= n,
        give_all(v, tiles, n) is Some,
    ensures
        give_all(v, tiles, k) is Some,
    decreases n,
{
    if k < n {
        lemma_give_all_prefix(v, tiles, k, n - 1);
    }
}

/// A tile taken out of a table is a tile taken out of its counts.
pub proof fn lemma_removed_view(before: TileTable, x: Tile, after: TileTable)
    requires
        x.in_table(),
        tile_removed(before, x, after),
    ensures
        table_view(after) == without_tile(table_view(before), x),
{
    let want = without_tile(table_view(before), x);
    assert forall|t: int| 0 <= t < TYPE implies table_view(after)[t] =~= want[t] by {
        assert forall|n: int| 0 <= n < TNUM implies table_view(after)[t][n] == want[t][n] by {
            assert(after[t][n] == before[t][n] - tile_weight(x, t, n));
        }
    }
    assert(table_view(after) =~= want);
}

/// Takes the tiles out of the hand of the player, one after the other.
fn player_gives(p: &mut Player, tiles: &Vec<Tile>)
    requires
        old(p).wf(),
        forall|i: int| 0 <= i < tiles.len() ==> (#[trigger] tiles[i]).is_known(),
        give_all(table_view(old(p).hand), tiles@, tiles.len() as int) is Some,
    ensures
        table_view(final(p).hand) == give_all(
            table_view(old(p).hand),
            tiles@,
            tiles.len() as int,
        )->0,
        hand_total(final(p).hand) == hand_total(old(p).hand) - tiles.len(),
        table_bounded(final(p).hand),
        forall|t: int| 0 <= t < TYPE ==> (#[trigger] final(p).hand[t])[0] <= final(p).hand[t][5],
        *final(p) == (Player { hand: final(p).hand, ..*old(p) }),
{
    let ghost v0 = table_view(p.hand);
    let mut hand = p.hand;
    let mut i: usize = 0;
    while i < tiles.len()
        invariant
            i <= tiles.len(),
            v0 == table_view(old(p).hand),
            forall|k: int| 0 <= k < tiles.len() ==> (#[trigger] tiles[k]).is_known(),
            give_all(v0, tiles@, tiles.len() as int) is Some,
            give_all(v0, tiles@, i as int) == Some(table_view(hand)),
            hand_total(hand) == hand_total(old(p).hand) - i,
            table_bounded(hand),
            forall|t: int| 0 <= t < TYPE ==> (#[trigger] hand[t])[0] <= hand[t][5],
        decreases tiles.len() - i,
    {
        let x = tiles[i];
        let ghost before = hand;
        proof {
            lemma_give_all_prefix(v0, tiles@, i + 1, tiles.len() as int);
            assert(x.is_known());
            assert(view_has(table_view(before), x) == table_has(before, x));
            assert(table_view(before)[TZ as int][UK as int] == before[TZ as int][UK as int]);
        }
        let given = if has_tile(&hand, x) {
            x
        } else {
            Tile(TZ, UK)
        };
        remove_tile(&mut hand, given);
        proof {
            lemma_hand_after_removal(before, given, hand);
            lemma_removed_view(before, given, hand);
        }
        i += 1;
    }
    p.hand = hand;
}

/// Whether `post` is the river `pre` with its last tile called by `by`
/// for the meld at `idx` there.
pub open spec fn river_claimed(pre: Seq<Discard>, by: Seat, idx: usize, post: Seq<Discard>) -> bool {
    &&& pre.len() > 0
    &&& post == pre.update(
        pre.len() - 1,
        Discard { meld: Some((by, idx)), ..pre[pre.len() - 1] },
    )
}

/// Marks the last tile of the river of the player as called.
fn claim_last(p: &mut Player, by: Seat, idx: usize)
    requires
        old(p).discards.len() > 0,
        old(p).discards[old(p).discards.len() - 1].meld is None,
    ensures
        river_claimed(old(p).discards@, by, idx, final(p).discards@),
        river_tiles(final(p).discards@) == river_tiles(old(p).discards@) - 1,
        !final(p).is_nagashi,
        *final(p) == (Player { discards: final(p).discards, is_nagashi: false, ..*old(p) }),
{
    let ghost river = p.discards@;
    match p.discards.pop() {
        Some(last) => {
            let mut last = last;
            last.meld = Some((by, idx));
            p.discards.push(last);
        },
        None => {},
    }
    p.is_nagashi = false;
    proof {
        assert(p.discards@ =~= river.update(
            river.len() - 1,
            Discard { meld: Some((by, idx)), ..river[river.len() - 1] },
        ));
        assert(p.discards@.drop_last() =~= river.drop_last());
    }
}

/// The player at `s` once the last discard is settled.
pub open spec fn settled_player(pre: Stage, s: int) -> Player {
    let p = pre.players[s];
    Player {
        score: settled_score(pre, s) as i32,
        is_furiten: p.is_furiten || passes_win(pre, s),
        is_riichi_furiten: p.is_riichi_furiten || (passes_win(pre, s) && p.riichi is Some),
        ..p
    }
}

/// The number of tiles that a call takes from the caller's hand.
pub open spec fn call_size(tp: MeldType) -> int {
    if tp == MeldType::Minkan {
        3
    } else {
        2
    }
}

/// The meld that a call lays down: the tiles from the hand, then the
/// tile called, each with the seat it comes from.
pub open spec fn called_meld(step: usize, e: EventMeld, d: Seat, t: Tile) -> MeldView {
    MeldView {
        step,
        seat: e.seat,
        type_: e.meld_type,
        tiles: e.consumed@.push(t),
        froms: Seq::new(e.consumed.len() as nat, |i: int| e.seat).push(d),
    }
}

/// When a discard can be called: it is the last tile discarded, by
/// another seat; every player holds thirteen tiles; the caller has room
/// for a meld, holds the tiles to go with the tile called, two or for a
/// quad three, and a copy of each lies in that hand or is not seen yet.
pub open spec fn call_ok(pre: Stage, e: EventMeld) -> bool {
    &&& pre.wf()
    &&& all_thirteen(pre)
    &&& settle_ok(pre)
    &&& pre.step < usize::MAX
    &&& e.seat < SEAT
    &&& (e.meld_type == MeldType::Chi || e.meld_type == MeldType::Pon || e.meld_type
        == MeldType::Minkan)
    &&& pre.last_tile matches Some((d, ActionType::Discard, t)) && d != e.seat
    &&& pre.players[e.seat as int].melds.len() < 4
    &&& e.consumed.len() == call_size(e.meld_type)
    &&& forall|i: int| 0 <= i < e.consumed.len() ==> (#[trigger] e.consumed[i]).is_known()
    &&& give_all(
        table_view(pre.players[e.seat as int].hand),
        e.consumed@,
        e.consumed.len() as int,
    ) is Some
    &&& place_all(
        states_view(pre.tile_states),
        e.consumed@,
        e.consumed.len() as int,
        e.seat,
        TileStateType::M(e.seat, pre.players[e.seat as int].melds.len()),
    ) is Some
}

/// The seat whose tile can be won by ron.
pub open spec fn last_seat(pre: Stage) -> Seat {
    match pre.last_tile {
        Some((d, _, _)) => d,
        None => 0,
    }
}

/// The tile that can be won by ron.
pub open spec fn last_thrown(pre: Stage) -> Tile {
    match pre.last_tile {
        Some((_, _, t)) => t,
        None => Tile(TZ, UK),
    }
}

/// The copy of the tile `x` that lies in the river of `d` at `idx`.
pub open spec fn river_copy(v: Seq<Seq<Seq<TileStateType>>>, x: Tile, d: Seat, idx: usize) -> int {
    seq_first_with(v[x.0 as int][x.normal_rank()], TileStateType::D(d, idx), 0, 4)->0
}

/// What a call makes of the stage: the last discard is settled; the tile
/// called is marked in its river and lies, with the tiles from the
/// caller's hand, in a new meld of the caller; it is the caller's turn;
/// nobody can win within one turn of a riichi any more; and no tile can
/// be won by ron.
pub open spec fn call_applied(pre: Stage, e: EventMeld, post: Stage) -> bool {
    let k = e.seat as int;
    let d = last_seat(pre);
    let t = last_thrown(pre);
    let m = pre.players[k].melds.len();
    let to = TileStateType::M(e.seat, m);
    let placed = place_all(
        states_view(pre.tile_states),
        e.consumed@,
        e.consumed.len() as int,
        e.seat,
        to,
    )->0;
    &&& post.round == pre.round
    &&& post.kyoku == pre.kyoku
    &&& post.honba == pre.honba
    &&& post.kyoutaku == settled_kyoutaku(pre)
    &&& post.turn == e.seat
    &&& post.step == pre.step + 1
    &&& post.left_tile_count == pre.left_tile_count
    &&& post.doras == pre.doras
    &&& post.discards == pre.discards
    &&& post.last_tile is None
    &&& post.last_riichi is None
    &&& post.is_3p == pre.is_3p
    &&& forall|s: int|
        0 <= s < SEAT && s != k && s != d ==> (#[trigger] post.players[s]) == (Player {
            is_ippatsu: false,
            ..settled_player(pre, s)
        })
    &&& post.players[d as int] == (Player {
        is_ippatsu: false,
        is_nagashi: false,
        discards: post.players[d as int].discards,
        ..settled_player(pre, d as int)
    })
    &&& river_claimed(pre.players[d as int].discards@, e.seat, m, post.players[d as int].discards@)
    &&& post.players[k] == (Player {
        is_ippatsu: false,
        drawn: None,
        hand: post.players[k].hand,
        melds: post.players[k].melds,
        ..settled_player(pre, k)
    })
    &&& table_view(post.players[k].hand) == give_all(
        table_view(pre.players[k].hand),
        e.consumed@,
        e.consumed.len() as int,
    )->0
    &&& melds_view(post.players[k].melds@) == melds_view(pre.players[k].melds@).push(
        called_meld(pre.step, e, d, t),
    )
    &&& states_view(post.tile_states) == moved(
        placed,
        t,
        river_copy(placed, t, d, (pre.players[d as int].discards.len() - 1) as usize),
        to,
    )
    &&& remains_ok(post)
}

/// Lays down the meld of a call.
fn caller_melds(p: &mut Player, step: usize, e: &EventMeld, d: Seat, t: Tile)
    requires
        old(p).wf(),
        old(p).seat == e.seat,
        old(p).size() == 13,
        old(p).melds.len() < 4,
        d < SEAT,
        d != e.seat,
        t.is_known(),
        (e.meld_type == MeldType::Chi || e.meld_type == MeldType::Pon || e.meld_type
            == MeldType::Minkan),
        e.consumed.len() == call_size(e.meld_type),
        forall|i: int| 0 <= i < e.consumed.len() ==> (#[trigger] e.consumed[i]).is_known(),
        give_all(table_view(old(p).hand), e.consumed@, e.consumed.len() as int) is Some,
    ensures
        *final(p) == (Player {
            is_ippatsu: false,
            drawn: None,
            hand: final(p).hand,
            melds: final(p).melds,
            ..*old(p)
        }),
        table_view(final(p).hand) == give_all(
            table_view(old(p).hand),
            e.consumed@,
            e.consumed.len() as int,
        )->0,
        melds_view(final(p).melds@) == melds_view(old(p).melds@).push(
            called_meld(step, *e, d, t),
        ),
        final(p).wf(),
        final(p).size() == (if e.meld_type == MeldType::Minkan {
            13int
        } else {
            14int
        }),
        final(p).tiles_held() == old(p).tiles_held() + 1,
{
    player_gives(p, &e.consumed);
    let mut tiles = copy_tiles(&e.consumed);
    tiles.push(t);
    let mut froms: Vec<Seat> = Vec::new();
    let mut i: usize = 0;
    while i < e.consumed.len()
        invariant
            i <= e.consumed.len(),
            froms@ == Seq::new(i as nat, |j: int| e.seat),
        decreases e.consumed.len() - i,
    {
        froms.push(e.seat);
        assert(froms@ =~= Seq::new((i + 1) as nat, |j: int| e.seat));
        i += 1;
    }
    froms.push(d);
    let meld = Meld { step, seat: e.seat, type_: e.meld_type, tiles, froms };
    proof {
        assert(meld@ == called_meld(step, *e, d, t));
        assert(meld.wf()) by {
            assert forall|j: int| 0 <= j < meld.tiles.len() implies (
            #[trigger] meld.tiles[j]).is_known() by {
                if j < e.consumed.len() {
                    assert(meld.tiles[j] == e.consumed[j]);
                }
            }
        }
    }
    let ghost kept = p.melds@;
    p.melds.push(meld);
    p.drawn = None;
    p.is_ippatsu = false;
    proof {
        assert(melds_view(p.melds@) =~= melds_view(kept).push(meld@));
        assert(p.melds@.drop_last() =~= kept);
        assert(meld_tiles(p.melds@) == meld_tiles(kept) + meld.tiles.len());
        assert forall|j: int| 0 <= j < p.melds.len() implies (#[trigger] p.melds[j]).wf()
            && p.melds[j].seat == p.seat by {
            if j < kept.len() {
                assert(p.melds[j] == old(p).melds[j]);
            }
        }
    }
}

/// Moves the copy of the tile `x` that lies in the river of `d` at `idx`
/// into the state `to`.
fn move_called(stg: &mut Stage, x: Tile, d: Seat, idx: usize, to: TileStateType)
    requires
        x.is_known(),
        hidden(to) == 0,
        remains_ok(*old(stg)),
        exists|c: int|
            0 <= c < TILE && #[trigger] old(stg).tile_states[x.0 as int][x.normal_rank()][c]
                == TileStateType::D(d, idx),
    ensures
        states_view(final(stg).tile_states) == moved(
            states_view(old(stg).tile_states),
            x,
            river_copy(states_view(old(stg).tile_states), x, d, idx),
            to,
        ),
        remains_ok(*final(stg)),
        same_but_tiles(*old(stg), *final(stg)),
        final(stg).tile_remains == old(stg).tile_remains,
{
    let n = x.to_normal().1;
    let row = stg.tile_states[x.0][n];
    proof {
        assert(states_view(stg.tile_states)[x.0 as int][n as int] =~= row@);
    }
    match find_with(&row, TileStateType::D(d, idx), 0, 4) {
        Some(c) => {
            stg.tile_states[x.0][n][c] = to;
            proof {
                assert(copy_moved(old(stg).tile_states, stg.tile_states, x, c as int, to));
                lemma_moved_view(old(stg).tile_states, stg.tile_states, x, c as int, to);
                assert forall|t: int, m: int| 0 <= t < TYPE && 0 <= m < TNUM implies (
                #[trigger] stg.tile_remains[t][m]) == hidden_copies(stg.tile_states[t][m]) by {
                    assert(old(stg).tile_remains[t][m] == hidden_copies(
                        old(stg).tile_states[t][m],
                    ));
                }
            }
        },
        None => {
            proof {
                let c = choose|c: int|
                    0 <= c < TILE && #[trigger] old(stg).tile_states[x.0 as int][x.normal_rank()][c]
                        == TileStateType::D(d, idx);
                assert(row[c] == TileStateType::D(d, idx));
                assert(false);
            }
        },
    }
}

/// Ends every chance to win within one turn of a riichi, but that of
/// the seat `keep`.
fn clear_ippatsu(stg: &mut Stage, keep: Option<Seat>)
    ensures
        forall|s: int|
            0 <= s < SEAT ==> (#[trigger] final(stg).players[s]) == (Player {
                is_ippatsu: old(stg).players[s].is_ippatsu && keep == Some(s as usize),
                ..old(stg).players[s]
            }),
        final(stg).round == old(stg).round,
        final(stg).kyoku == old(stg).kyoku,
        final(stg).honba == old(stg).honba,
        final(stg).kyoutaku == old(stg).kyoutaku,
        final(stg).turn == old(stg).turn,
        final(stg).step == old(stg).step,
        final(stg).left_tile_count == old(stg).left_tile_count,
        final(stg).doras == old(stg).doras,
        final(stg).discards == old(stg).discards,
        final(stg).last_tile == old(stg).last_tile,
        final(stg).last_riichi == old(stg).last_riichi,
        final(stg).is_3p == old(stg).is_3p,
        final(stg).tile_states == old(stg).tile_states,
        final(stg).tile_remains == old(stg).tile_remains,
{
    let mut s: usize = 0;
    while s < SEAT
        invariant
            s <= SEAT,
            forall|k: int|
                0 <= k < s ==> (#[trigger] stg.players[k]) == (Player {
                    is_ippatsu: old(stg).players[k].is_ippatsu && keep == Some(k as usize),
                    ..old(stg).players[k]
                }),
            forall|k: int| s <= k < SEAT ==> (#[trigger] stg.players[k]) == old(stg).players[k],
            stg.round == old(stg).round,
            stg.kyoku == old(stg).kyoku,
            stg.honba == old(stg).honba,
            stg.kyoutaku == old(stg).kyoutaku,
            stg.turn == old(stg).turn,
            stg.step == old(stg).step,
            stg.left_tile_count == old(stg).left_tile_count,
            stg.doras == old(stg).doras,
            stg.discards == old(stg).discards,
            stg.last_tile == old(stg).last_tile,
            stg.last_riichi == old(stg).last_riichi,
            stg.is_3p == old(stg).is_3p,
            stg.tile_states == old(stg).tile_states,
            stg.tile_remains == old(stg).tile_remains,
        decreases SEAT - s,
    {
        let kept = match keep {
            Some(k) => k == s,
            None => false,
        };
        if !kept {
            stg.players[s].is_ippatsu = false;
        }
        s += 1;
    }
}

/// A player that is settled is the settled player.
pub proof fn lemma_settled_is_settled_player(pre: Stage, s: int, q: Player)
    requires
        player_settled(pre, s, q),
    ensures
        q == settled_player(pre, s),
{
}

fn stage_call(stg: &mut Stage, e: &EventMeld)
    requires
        call_ok(*old(stg), *e),
    ensures
        call_applied(*old(stg), *e, *final(stg)),
        final(stg).wf(),
{
    let (d, t) = match stg.last_tile {
        Some((d, _, t)) => (d, t),
        None => (0, Tile(TZ, UK)),
    };
    let k = e.seat;
    settle(stg);
    let ghost mid = *stg;
    proof {
        assert forall|s: int| 0 <= s < SEAT implies (#[trigger] mid.players[s]) == settled_player(
            *old(stg),
            s,
        ) by {
            lemma_settled_is_settled_player(*old(stg), s, mid.players[s]);
        }
        assert(old(stg).lies_last(d, t));
    }
    let m = stg.players[k].melds.len();
    let idx = stg.players[d].discards.len() - 1;
    let to = TileStateType::M(k, m);
    place_tiles(stg, &e.consumed, k, to);
    let ghost placed = *stg;
    proof {
        let c0 = choose|c: int|
            0 <= c < TILE && #[trigger] old(stg).tile_states[t.0 as int][t.normal_rank()][c]
                == TileStateType::D(d, idx);
        assert(hidden(old(stg).tile_states[t.0 as int][t.normal_rank()][c0]) == 0);
        assert(placed.tile_states[t.0 as int][t.normal_rank()][c0] == TileStateType::D(d, idx));
    }
    move_called(stg, t, d, idx, to);
    clear_ippatsu(stg, None);
    let ghost cleared = *stg;
    claim_last(&mut stg.players[d], k, m);
    let step = stg.step;
    proof {
        assert(stg.players[k as int] == cleared.players[k as int]);
        assert(cleared.players[k as int] == (Player {
            is_ippatsu: false,
            ..mid.players[k as int]
        }));
        assert(mid.players[k as int].wf());
    }
    caller_melds(&mut stg.players[k], step, e, d, t);
    stg.turn = k;
    stg.last_tile = None;
    stg.step += 1;
    proof {
        let pd = stg.players[d as int];
        let pk = stg.players[k as int];
        assert(pd.wf()) by {
            assert(mid.players[d as int].wf());
        }
        assert(pd.tiles_held() == mid.players[d as int].tiles_held() - 1);
        assert(pk.tiles_held() == mid.players[k as int].tiles_held() + 1);
        assert forall|s: int| 0 <= s < SEAT && s != k && s != d implies (
        #[trigger] stg.players[s]) == (Player { is_ippatsu: false, ..mid.players[s] }) by {
            assert(stg.players[s] == cleared.players[s]);
        }
        assert forall|s: int| 0 <= s < SEAT implies (#[trigger] stg.players[s]).wf()
            && stg.players[s].seat == s by {
            if s != k && s != d {
                assert(mid.players[s].wf());
            }
        }
        assert forall|s: int| 0 <= s < SEAT && s != k implies (#[trigger] stg.players[s]).size()
            == 13 by {
            assert(mid.players[s].size() == 13);
        }
        assert(stg.players[0].tiles_held() + stg.players[1].tiles_held()
            + stg.players[2].tiles_held() + stg.players[3].tiles_held() == mid.tiles_held()) by {
            assert forall|s: int| 0 <= s < SEAT && s != k && s != d implies (
            #[trigger] stg.players[s]).tiles_held() == mid.players[s].tiles_held() by {}
        }
    }
}

/// The place of the first pon among the melds from `i` on whose tiles are
/// of the kind of `x`.
pub open spec fn pon_index(melds: Seq<Meld>, x: Tile, i: int) -> Option<int>
    decreases melds.len() - i,
{
    if i < 0 || i >= melds.len() {
        None
    } else if melds[i].type_ == MeldType::Pon && melds[i].tiles.len() > 0
        && melds[i].tiles[0].spec_to_normal() == x.spec_to_normal() {
        Some(i)
    } else {
        pon_index(melds, x, i + 1)
    }
}

/// The place of the first pon whose tiles are of the kind of `x`.
pub fn find_pon(melds: &Vec<Meld>, x: Tile) -> (r: Option<usize>)
    ensures
        match pon_index(melds@, x, 0) {
            Some(i) => r == Some(i as usize) && 0 <= i < melds.len() && melds[i].type_
                == MeldType::Pon,
            None => r is None,
        },
{
    let mut i: usize = 0;
    while i < melds.len()
        invariant
            i <= melds.len(),
            pon_index(melds@, x, 0) == pon_index(melds@, x, i as int),
        decreases melds.len() - i,
    {
        let m = &melds[i];
        if m.type_ == MeldType::Pon && m.tiles.len() > 0 && m.tiles[0].to_normal()
            == x.to_normal() {
            return Some(i);
        }
        i += 1;
    }
    None
}

/// The melds differ in one place only: the numbers of their tiles differ
/// by what that place differs.
pub proof fn lemma_meld_tiles_update(a: Seq<Meld>, b: Seq<Meld>, i: int)
    requires
        a.len() == b.len(),
        0 <= i < a.len(),
        forall|j: int| 0 <= j < a.len() && j != i ==> a[j].tiles.len() == b[j].tiles.len(),
    ensures
        meld_tiles(b) - meld_tiles(a) == b[i].tiles.len() - a[i].tiles.len(),
    decreases a.len(),
{
    if i == a.len() - 1 {
        lemma_meld_tiles_same(a.drop_last(), b.drop_last());
    } else {
        lemma_meld_tiles_update(a.drop_last(), b.drop_last(), i);
    }
}

proof fn lemma_meld_tiles_same(a: Seq<Meld>, b: Seq<Meld>)
    requires
        a.len() == b.len(),
        forall|j: int| 0 <= j < a.len() ==> a[j].tiles.len() == b[j].tiles.len(),
    ensures
        meld_tiles(b) == meld_tiles(a),
    decreases a.len(),
{
    if a.len() > 0 {
        lemma_meld_tiles_same(a.drop_last(), b.drop_last());
    }
}

/// The pon with the tile `x` added by its owner.
pub open spec fn promoted(m: MeldView, x: Tile) -> MeldView {
    MeldView { type_: MeldType::Kakan, tiles: m.tiles.push(x), froms: m.froms.push(m.seat), ..m }
}

/// When a pon can be promoted to a quad: it is the turn of the seat, which
/// holds fourteen tiles, the tile among them, and a pon of its kind; and
/// a copy of the tile lies in that hand or is not seen yet.
pub open spec fn kakan_ok(pre: Stage, e: EventMeld) -> bool {
    let k = e.seat as int;
    &&& pre.wf()
    &&& e.seat < SEAT
    &&& e.meld_type == MeldType::Kakan
    &&& pre.turn == e.seat
    &&& pre.players[k].size() == 14
    &&& pre.step < usize::MAX
    &&& e.consumed.len() == 1
    &&& e.consumed[0].is_known()
    &&& pon_index(pre.players[k].melds@, e.consumed[0], 0) is Some
    &&& give_all(table_view(pre.players[k].hand), e.consumed@, 1) is Some
    &&& place_all(
        states_view(pre.tile_states),
        e.consumed@,
        1,
        e.seat,
        TileStateType::M(e.seat, pon_index(pre.players[k].melds@, e.consumed[0], 0)->0 as usize),
    ) is Some
}

/// What a promotion makes of the stage: the tile has left the hand for
/// the pon of its kind, which is a quad now, and can be won by ron.
pub open spec fn kakan_applied(pre: Stage, e: EventMeld, post: Stage) -> bool {
    let k = e.seat as int;
    let x = e.consumed[0];
    let i = pon_index(pre.players[k].melds@, x, 0)->0;
    &&& post.round == pre.round
    &&& post.kyoku == pre.kyoku
    &&& post.honba == pre.honba
    &&& post.kyoutaku == pre.kyoutaku
    &&& post.turn == pre.turn
    &&& post.step == pre.step + 1
    &&& post.left_tile_count == pre.left_tile_count
    &&& post.doras == pre.doras
    &&& post.discards == pre.discards
    &&& post.last_tile == Some((e.seat, ActionType::Kakan, x))
    &&& post.last_riichi == pre.last_riichi
    &&& post.is_3p == pre.is_3p
    &&& forall|s: int| 0 <= s < SEAT && s != k ==> (#[trigger] post.players[s]) == pre.players[s]
    &&& post.players[k] == (Player {
        drawn: None,
        hand: post.players[k].hand,
        melds: post.players[k].melds,
        ..pre.players[k]
    })
    &&& table_view(post.players[k].hand) == give_all(
        table_view(pre.players[k].hand),
        e.consumed@,
        1,
    )->0
    &&& melds_view(post.players[k].melds@) == melds_view(pre.players[k].melds@).update(
        i,
        promoted(pre.players[k].melds[i]@, x),
    )
    &&& states_view(post.tile_states) == place_all(
        states_view(pre.tile_states),
        e.consumed@,
        1,
        e.seat,
        TileStateType::M(e.seat, i as usize),
    )->0
    &&& remains_ok(post)
}

fn player_promotes(p: &mut Player, i: usize, e: &EventMeld)
    requires
        old(p).wf(),
        old(p).seat == e.seat,
        old(p).size() == 14,
        e.consumed.len() == 1,
        e.consumed[0].is_known(),
        pon_index(old(p).melds@, e.consumed[0], 0) == Some(i as int),
        give_all(table_view(old(p).hand), e.consumed@, 1) is Some,
    ensures
        *final(p) == (Player {
            drawn: None,
            hand: final(p).hand,
            melds: final(p).melds,
            ..*old(p)
        }),
        table_view(final(p).hand) == give_all(table_view(old(p).hand), e.consumed@, 1)->0,
        melds_view(final(p).melds@) == melds_view(old(p).melds@).update(
            i as int,
            promoted(old(p).melds[i as int]@, e.consumed[0]),
        ),
        final(p).wf(),
        final(p).size() == 13,
        final(p).tiles_held() == old(p).tiles_held(),
{
    let x = e.consumed[0];
    proof {
        lemma_pon_index_found(old(p).melds@, x, 0);
    }
    player_gives(p, &e.consumed);
    let ghost kept = p.melds@;
    let mut m = p.melds.remove(i);
    let ghost m0 = m;
    assert(m0 == kept[i as int]);
    assert(m0.wf() && m0.seat == p.seat);
    m.type_ = MeldType::Kakan;
    m.tiles.push(x);
    m.froms.push(e.seat);
    proof {
        assert(m@ == promoted(m0@, x));
        assert(m.wf()) by {
            assert forall|j: int| 0 <= j < m.tiles.len() implies (#[trigger] m.tiles[j]).is_known() by {
                if j < 3 {
                    assert(m.tiles[j] == m0.tiles[j]);
                }
            }
            assert(m.froms[0] == m0.froms[0] && m.froms[1] == m0.froms[1] && m.froms[2]
                == m0.froms[2]);
        }
    }
    p.melds.insert(i, m);
    p.drawn = None;
    proof {
        assert(p.melds@ =~= kept.update(i as int, m));
        assert(melds_view(p.melds@) =~= melds_view(kept).update(i as int, m@));
        lemma_meld_tiles_update(kept, p.melds@, i as int);
        assert forall|j: int| 0 <= j < p.melds.len() implies (#[trigger] p.melds[j]).wf()
            && p.melds[j].seat == p.seat by {
            if j != i {
                assert(p.melds[j] == kept[j]);
            }
        }
    }
}

/// The place that is found holds a pon.
pub proof fn lemma_pon_index_found(melds: Seq<Meld>, x: Tile, from: int)
    requires
        0 <= from,
        pon_index(melds, x, from) is Some,
    ensures
        from <= pon_index(melds, x, from)->0 < melds.len(),
        melds[pon_index(melds, x, from)->0].type_ == MeldType::Pon,
    decreases melds.len() - from,
{
    if from < melds.len() {
        if melds[from].type_ == MeldType::Pon && melds[from].tiles.len() > 0
            && melds[from].tiles[0].spec_to_normal() == x.spec_to_normal() {
        } else {
            lemma_pon_index_found(melds, x, from + 1);
        }
    }
}

fn stage_kakan(stg: &mut Stage, e: &EventMeld)
    requires
        kakan_ok(*old(stg), *e),
    ensures
        kakan_applied(*old(stg), *e, *final(stg)),
        final(stg).wf(),
{
    let k = e.seat;
    let x = e.consumed[0];
    let i = match find_pon(&stg.players[k].melds, x) {
        Some(i) => i,
        None => 0,
    };
    place_tiles(stg, &e.consumed, k, TileStateType::M(k, i));
    player_promotes(&mut stg.players[k], i, e);
    stg.last_tile = Some((k, ActionType::Kakan, x));
    stg.step += 1;
    proof {
        assert forall|s: int| 0 <= s < SEAT && s != k implies (#[trigger] stg.players[s]) == old(
            stg,
        ).players[s] by {}
        assert(stg.players[0].tiles_held() + stg.players[1].tiles_held()
            + stg.players[2].tiles_held() + stg.players[3].tiles_held() == old(stg).tiles_held());
    }
}

/// The meld of a concealed quad.
pub open spec fn ankan_meld(step: usize, e: EventMeld) -> MeldView {
    MeldView {
        step,
        seat: e.seat,
        type_: MeldType::Ankan,
        tiles: e.consumed@,
        froms: Seq::new(4, |i: int| e.seat),
    }
}

/// When a concealed quad can be declared: it is the turn of the seat,
/// which holds fourteen tiles, the four among them, and has room for a
/// meld; and a copy of each tile lies in that hand or is not seen yet.
pub open spec fn ankan_ok(pre: Stage, e: EventMeld) -> bool {
    let k = e.seat as int;
    &&& pre.wf()
    &&& e.seat < SEAT
    &&& e.meld_type == MeldType::Ankan
    &&& pre.turn == e.seat
    &&& pre.players[k].size() == 14
    &&& pre.players[k].melds.len() < 4
    &&& pre.step < usize::MAX
    &&& e.consumed.len() == 4
    &&& forall|i: int| 0 <= i < e.consumed.len() ==> (#[trigger] e.consumed[i]).is_known()
    &&& give_all(table_view(pre.players[k].hand), e.consumed@, 4) is Some
    &&& place_all(
        states_view(pre.tile_states),
        e.consumed@,
        4,
        e.seat,
        TileStateType::M(e.seat, pre.players[k].melds.len()),
    ) is Some
}

/// What a concealed quad makes of the stage: the four tiles have left
/// the hand for a new meld, nobody but the seat itself can win within
/// one turn of a riichi any more, and no tile can be won by ron.
pub open spec fn ankan_applied(pre: Stage, e: EventMeld, post: Stage) -> bool {
    let k = e.seat as int;
    let m = pre.players[k].melds.len();
    &&& post.round == pre.round
    &&& post.kyoku == pre.kyoku
    &&& post.honba == pre.honba
    &&& post.kyoutaku == pre.kyoutaku
    &&& post.turn == pre.turn
    &&& post.step == pre.step + 1
    &&& post.left_tile_count == pre.left_tile_count
    &&& post.doras == pre.doras
    &&& post.discards == pre.discards
    &&& post.last_tile is None
    &&& post.last_riichi == pre.last_riichi
    &&& post.is_3p == pre.is_3p
    &&& forall|s: int|
        0 <= s < SEAT && s != k ==> (#[trigger] post.players[s]) == (Player {
            is_ippatsu: false,
            ..pre.players[s]
        })
    &&& post.players[k] == (Player {
        drawn: None,
        hand: post.players[k].hand,
        melds: post.players[k].melds,
        ..pre.players[k]
    })
    &&& table_view(post.players[k].hand) == give_all(
        table_view(pre.players[k].hand),
        e.consumed@,
        4,
    )->0
    &&& melds_view(post.players[k].melds@) == melds_view(pre.players[k].melds@).push(
        ankan_meld(pre.step, e),
    )
    &&& states_view(post.tile_states) == place_all(
        states_view(pre.tile_states),
        e.consumed@,
        4,
        e.seat,
        TileStateType::M(e.seat, m),
    )->0
    &&& remains_ok(post)
}

fn player_conceals(p: &mut Player, step: usize, e: &EventMeld)
    requires
        old(p).wf(),
        old(p).seat == e.seat,
        old(p).size() == 14,
        old(p).melds.len() < 4,
        e.consumed.len() == 4,
        forall|i: int| 0 <= i < e.consumed.len() ==> (#[trigger] e.consumed[i]).is_known(),
        give_all(table_view(old(p).hand), e.consumed@, 4) is Some,
    ensures
        *final(p) == (Player {
            drawn: None,
            hand: final(p).hand,
            melds: final(p).melds,
            ..*old(p)
        }),
        table_view(final(p).hand) == give_all(table_view(old(p).hand), e.consumed@, 4)->0,
        melds_view(final(p).melds@) == melds_view(old(p).melds@).push(ankan_meld(step, *e)),
        final(p).wf(),
        final(p).size() == 13,
        final(p).tiles_held() == old(p).tiles_held(),
{
    player_gives(p, &e.consumed);
    let tiles = copy_tiles(&e.consumed);
    let mut froms: Vec<Seat> = Vec::new();
    froms.push(e.seat);
    froms.push(e.seat);
    froms.push(e.seat);
    froms.push(e.seat);
    assert(froms@ =~= Seq::new(4, |i: int| e.seat));
    let meld = Meld { step, seat: e.seat, type_: MeldType::Ankan, tiles, froms };
    proof {
        assert(meld@ == ankan_meld(step, *e));
        assert(meld.wf()) by {
            assert forall|j: int| 0 <= j < meld.tiles.len() implies (
            #[trigger] meld.tiles[j]).is_known() by {
                assert(meld.tiles[j] == e.consumed[j]);
            }
        }
    }
    let ghost kept = p.melds@;
    p.melds.push(meld);
    p.drawn = None;
    proof {
        assert(melds_view(p.melds@) =~= melds_view(kept).push(meld@));
        assert(p.melds@.drop_last() =~= kept);
        assert(meld_tiles(p.melds@) == meld_tiles(kept) + meld.tiles.len());
        assert forall|j: int| 0 <= j < p.melds.len() implies (#[trigger] p.melds[j]).wf()
            && p.melds[j].seat == p.seat by {
            if j < kept.len() {
                assert(p.melds[j] == old(p).melds[j]);
            }
        }
    }
}

fn stage_ankan(stg: &mut Stage, e: &EventMeld)
    requires
        ankan_ok(*old(stg), *e),
    ensures
        ankan_applied(*old(stg), *e, *final(stg)),
        final(stg).wf(),
{
    let k = e.seat;
    let m = stg.players[k].melds.len();
    place_tiles(stg, &e.consumed, k, TileStateType::M(k, m));
    let ghost placed = *stg;
    clear_ippatsu(stg, Some(k));
    let ghost cleared = *stg;
    let step = stg.step;
    proof {
        assert(cleared.players[k as int] == old(stg).players[k as int]);
    }
    player_conceals(&mut stg.players[k], step, e);
    stg.last_tile = None;
    stg.step += 1;
    proof {
        assert forall|s: int| 0 <= s < SEAT && s != k implies (#[trigger] stg.players[s])
            == (Player { is_ippatsu: false, ..old(stg).players[s] }) by {
            assert(stg.players[s] == cleared.players[s]);
        }
        assert forall|s: int| 0 <= s < SEAT implies (#[trigger] stg.players[s]).wf()
            && stg.players[s].seat == s by {
            if s != k {
                assert(old(stg).players[s].wf());
            }
        }
        assert forall|s: int| 0 <= s < SEAT && s != k implies (#[trigger] stg.players[s]).size()
            == 13 by {
            assert(old(stg).players[s].size() == 13);
        }
        assert(stg.players[0].tiles_held() + stg.players[1].tiles_held()
            + stg.players[2].tiles_held() + stg.players[3].tiles_held() == old(stg).tiles_held()) by {
            assert forall|s: int| 0 <= s < SEAT && s != k implies (
            #[trigger] stg.players[s]).tiles_held() == old(stg).players[s].tiles_held() by {}
        }
    }
}

/// What the first `n` wins change in the score of the seat `s`.
pub open spec fn delta_sum(wins: Seq<(Seat, [Point; SEAT], WinContext)>, s: int, n: int) -> int
    decreases n,
{
    if n <= 0 {
        0
    } else {
        delta_sum(wins, s, n - 1) + wins[n - 1].1[s]
    }
}

/// When a round can end by wins: there are at most four of them, and
/// every score stays a score.
pub open spec fn win_ok(pre: Stage, e: EventWin) -> bool {
    &&& pre.step < usize::MAX
    &&& e.contexts.len() <= SEAT
    &&& forall|s: int|
        0 <= s < SEAT ==> i32::MIN <= pre.players[s].score + #[trigger] delta_sum(
            e.contexts@,
            s,
            e.contexts.len() as int,
        ) <= i32::MAX
}

/// Whether the two stages differ at most in the scores of the players
/// and in the step, which is one further.
pub open spec fn only_scores_differ(pre: Stage, post: Stage) -> bool {
    &&& post.round == pre.round
    &&& post.kyoku == pre.kyoku
    &&& post.honba == pre.honba
    &&& post.kyoutaku == pre.kyoutaku
    &&& post.turn == pre.turn
    &&& post.step == pre.step + 1
    &&& post.left_tile_count == pre.left_tile_count
    &&& post.doras == pre.doras
    &&& post.discards == pre.discards
    &&& post.last_tile == pre.last_tile
    &&& post.last_riichi == pre.last_riichi
    &&& post.is_3p == pre.is_3p
    &&& post.tile_states == pre.tile_states
    &&& post.tile_remains == pre.tile_remains
    &&& forall|s: int|
        0 <= s < SEAT ==> (#[trigger] post.players[s]) == (Player {
            score: post.players[s].score,
            ..pre.players[s]
        })
}

/// What wins make of the stage: every score changes by what the wins
/// change in it. Hands, melds and rivers stay as they are.
pub open spec fn win_applied(pre: Stage, e: EventWin, post: Stage) -> bool {
    &&& only_scores_differ(pre, post)
    &&& forall|s: int|
        0 <= s < SEAT ==> (#[trigger] post.players[s]).score == pre.players[s].score + delta_sum(
            e.contexts@,
            s,
            e.contexts.len() as int,
        )
}

/// When a round can end without a win: every score stays a score.
pub open spec fn draw_ok(pre: Stage, e: EventDraw) -> bool {
    &&& pre.step < usize::MAX
    &&& forall|s: int|
        0 <= s < SEAT ==> i32::MIN <= pre.players[s].score + #[trigger] e.points[s] <= i32::MAX
}

/// What a draw makes of the stage: every score changes by its payment.
pub open spec fn draw_applied(pre: Stage, e: EventDraw, post: Stage) -> bool {
    &&& only_scores_differ(pre, post)
    &&& forall|s: int|
        0 <= s < SEAT ==> (#[trigger] post.players[s]).score == pre.players[s].score + e.points[s]
}

/// Scores do not count for what holds of every stage.
pub proof fn lemma_scores_keep_wf(pre: Stage, post: Stage)
    requires
        only_scores_differ(pre, post),
        pre.wf(),
    ensures
        post.wf(),
{
    assert forall|s: int| 0 <= s < SEAT implies (#[trigger] post.players[s]).wf()
        && post.players[s].seat == s && post.players[s].size() == pre.players[s].size()
        && post.players[s].tiles_held() == pre.players[s].tiles_held() by {
        assert(pre.players[s].wf());
    }
    match pre.last_tile {
        Some((d, ActionType::Discard, x)) => {
            assert(pre.lies_last(d, x));
            assert(post.players[d as int].discards == pre.players[d as int].discards);
            assert(post.lies_last(d, x));
        },
        _ => {},
    }
}

fn sum_delta(wins: &Vec<(Seat, [Point; SEAT], WinContext)>, s: usize) -> (r: i64)
    requires
        s < SEAT,
        wins.len() <= SEAT,
    ensures
        r == delta_sum(wins@, s as int, wins.len() as int),
{
    let mut r: i64 = 0;
    let mut i: usize = 0;
    while i < wins.len()
        invariant
            i <= wins.len() <= SEAT,
            s < SEAT,
            r == delta_sum(wins@, s as int, i as int),
            -2147483648 * i <= r <= 2147483647 * i,
        decreases wins.len() - i,
    {
        r = r + wins[i].1[s] as i64;
        i += 1;
    }
    r
}

fn stage_win(stg: &mut Stage, e: &EventWin)
    requires
        win_ok(*old(stg), *e),
    ensures
        win_applied(*old(stg), *e, *final(stg)),
        old(stg).wf() ==> final(stg).wf(),
{
    let mut s: usize = 0;
    while s < SEAT
        invariant
            s <= SEAT,
            win_ok(*old(stg), *e),
            stg.round == old(stg).round,
            stg.kyoku == old(stg).kyoku,
            stg.honba == old(stg).honba,
            stg.kyoutaku == old(stg).kyoutaku,
            stg.turn == old(stg).turn,
            stg.step == old(stg).step,
            stg.left_tile_count == old(stg).left_tile_count,
            stg.doras == old(stg).doras,
            stg.discards == old(stg).discards,
            stg.last_tile == old(stg).last_tile,
            stg.last_riichi == old(stg).last_riichi,
            stg.is_3p == old(stg).is_3p,
            stg.tile_states == old(stg).tile_states,
            stg.tile_remains == old(stg).tile_remains,
            forall|k: int| s <= k < SEAT ==> (#[trigger] stg.players[k]) == old(stg).players[k],
            forall|k: int|
                0 <= k < s ==> (#[trigger] stg.players[k]) == (Player {
                    score: (old(stg).players[k].score + delta_sum(
                        e.contexts@,
                        k,
                        e.contexts.len() as int,
                    )) as i32,
                    ..old(stg).players[k]
                }),
        decreases SEAT - s,
    {
        let d = sum_delta(&e.contexts, s);
        assert(i32::MIN <= old(stg).players[s as int].score + delta_sum(
            e.contexts@,
            s as int,
            e.contexts.len() as int,
        ) <= i32::MAX);
        stg.players[s].score = (stg.players[s].score as i64 + d) as i32;
        s += 1;
    }
    stg.step += 1;
    proof {
        if old(stg).wf() {
            lemma_scores_keep_wf(*old(stg), *stg);
        }
    }
}

fn stage_draw(stg: &mut Stage, e: &EventDraw)
    requires
        draw_ok(*old(stg), *e),
    ensures
        draw_applied(*old(stg), *e, *final(stg)),
        old(stg).wf() ==> final(stg).wf(),
{
    let mut s: usize = 0;
    while s < SEAT
        invariant
            s <= SEAT,
            draw_ok(*old(stg), *e),
            stg.round == old(stg).round,
            stg.kyoku == old(stg).kyoku,
            stg.honba == old(stg).honba,
            stg.kyoutaku == old(stg).kyoutaku,
            stg.turn == old(stg).turn,
            stg.step == old(stg).step,
            stg.left_tile_count == old(stg).left_tile_count,
            stg.doras == old(stg).doras,
            stg.discards == old(stg).discards,
            stg.last_tile == old(stg).last_tile,
            stg.last_riichi == old(stg).last_riichi,
            stg.is_3p == old(stg).is_3p,
            stg.tile_states == old(stg).tile_states,
            stg.tile_remains == old(stg).tile_remains,
            forall|k: int| s <= k < SEAT ==> (#[trigger] stg.players[k]) == old(stg).players[k],
            forall|k: int|
                0 <= k < s ==> (#[trigger] stg.players[k]) == (Player {
                    score: (old(stg).players[k].score + e.points[k]) as i32,
                    ..old(stg).players[k]
                }),
        decreases SEAT - s,
    {
        assert(i32::MIN <= old(stg).players[s as int].score + e.points[s as int] <= i32::MAX);
        stg.players[s].score = stg.players[s].score + e.points[s];
        s += 1;
    }
    stg.step += 1;
    proof {
        if old(stg).wf() {
            lemma_scores_keep_wf(*old(stg), *stg);
        }
    }
}

/// The states in which no copy is seen yet.
pub open spec fn fresh_states() -> Seq<Seq<Seq<TileStateType>>> {
    Seq::new(
        TYPE as nat,
        |t: int| Seq::new(TNUM as nat, |n: int| Seq::new(TILE as nat, |i: int| TileStateType::U)),
    )
}

/// The states once the tile `x` is drawn into the hand of `seat`: of a
/// tile that is shown, the first copy not seen yet lies in that hand.
pub open spec fn draw_one(v: Seq<Seq<Seq<TileStateType>>>, x: Tile, seat: Seat) -> Option<
    Seq<Seq<Seq<TileStateType>>>,
> {
    if x == Tile(TZ, UK) {
        Some(v)
    } else {
        match seq_first_with(
            v[x.0 as int][x.normal_rank()],
            TileStateType::U,
            copy_lo(x),
            copy_hi(x),
        ) {
            Some(c) => Some(moved(v, x, c, TileStateType::H(seat))),
            None => None,
        }
    }
}

/// The states once the first `n` of the tiles are drawn into the hand of
/// `seat`, one after the other.
pub open spec fn draw_all(v: Seq<Seq<Seq<TileStateType>>>, tiles: Seq<Tile>, n: int, seat: Seat) -> Option<
    Seq<Seq<Seq<TileStateType>>>,
>
    decreases n,
{
    if n <= 0 {
        Some(v)
    } else {
        match draw_all(v, tiles, n - 1, seat) {
            Some(m) => draw_one(m, tiles[n - 1], seat),
            None => None,
        }
    }
}

/// The states once the first `n` of the tiles lie open as indicators.
pub open spec fn open_all(v: Seq<Seq<Seq<TileStateType>>>, tiles: Seq<Tile>, n: int) -> Option<
    Seq<Seq<Seq<TileStateType>>>,
>
    decreases n,
{
    if n <= 0 {
        Some(v)
    } else {
        match open_all(v, tiles, n - 1) {
            Some(m) => match seq_first_with(
                m[tiles[n - 1].0 as int][tiles[n - 1].normal_rank()],
                TileStateType::U,
                copy_lo(tiles[n - 1]),
                copy_hi(tiles[n - 1]),
            ) {
                Some(c) => Some(moved(m, tiles[n - 1], c, TileStateType::R)),
                None => None,
            },
            None => None,
        }
    }
}

/// Where all of the tiles can be drawn, so can the first of them.
pub proof fn lemma_draw_all_prefix(
    v: Seq<Seq<Seq<TileStateType>>>,
    tiles: Seq<Tile>,
    k: int,
    n: int,
    seat: Seat,
)
    requires
        0 <= k <= n,
        draw_all(v, tiles, n, seat) is Some,
    ensures
        draw_all(v, tiles, k, seat) is Some,
    decreases n,
{
    if k < n {
        lemma_draw_all_prefix(v, tiles, k, n - 1, seat);
    }
}

/// Where all of the tiles can be laid open, so can the first of them.
pub proof fn lemma_open_all_prefix(v: Seq<Seq<Seq<TileStateType>>>, tiles: Seq<Tile>, k: int, n: int)
    requires
        0 <= k <= n,
        open_all(v, tiles, n) is Some,
    ensures
        open_all(v, tiles, k) is Some,
    decreases n,
{
    if k < n {
        lemma_open_all_prefix(v, tiles, k, n - 1);
    }
}

/// Draws the tiles into the hand of `seat`.
fn draw_tiles(stg: &mut Stage, tiles: &Vec<Tile>, seat: Seat)
    requires
        remains_ok(*old(stg)),
        forall|i: int| 0 <= i < tiles.len() ==> (#[trigger] tiles[i]).is_valid(),
        draw_all(states_view(old(stg).tile_states), tiles@, tiles.len() as int, seat) is Some,
    ensures
        states_view(final(stg).tile_states) == draw_all(
            states_view(old(stg).tile_states),
            tiles@,
            tiles.len() as int,
            seat,
        )->0,
        remains_ok(*final(stg)),
        same_but_tiles(*old(stg), *final(stg)),
{
    let ghost v0 = states_view(stg.tile_states);
    let mut i: usize = 0;
    while i < tiles.len()
        invariant
            i <= tiles.len(),
            remains_ok(*stg),
            same_but_tiles(*old(stg), *stg),
            v0 == states_view(old(stg).tile_states),
            forall|k: int| 0 <= k < tiles.len() ==> (#[trigger] tiles[k]).is_valid(),
            draw_all(v0, tiles@, tiles.len() as int, seat) is Some,
            draw_all(v0, tiles@, i as int, seat) == Some(states_view(stg.tile_states)),
        decreases tiles.len() - i,
    {
        let x = tiles[i];
        let ghost before = *stg;
        proof {
            lemma_draw_all_prefix(v0, tiles@, i + 1, tiles.len() as int, seat);
            assert(x.is_valid());
            let row = before.tile_states[x.0 as int][x.normal_rank()];
            assert(states_view(before.tile_states)[x.0 as int][x.normal_rank()] =~= row@);
        }
        if !is_hidden(x) {
            let ok = draw_copy(stg, x, seat);
            proof {
                let row = before.tile_states[x.0 as int][x.normal_rank()];
                let c = pick_unseen(row, x)->0;
                assert(0 <= c < TILE);
                lemma_moved_view(before.tile_states, stg.tile_states, x, c, TileStateType::H(seat));
            }
        }
        i += 1;
    }
}

/// Lays the tiles open as indicators.
fn open_tiles(stg: &mut Stage, tiles: &Vec<Tile>)
    requires
        remains_ok(*old(stg)),
        forall|i: int| 0 <= i < tiles.len() ==> (#[trigger] tiles[i]).is_known(),
        open_all(states_view(old(stg).tile_states), tiles@, tiles.len() as int) is Some,
    ensures
        states_view(final(stg).tile_states) == open_all(
            states_view(old(stg).tile_states),
            tiles@,
            tiles.len() as int,
        )->0,
        remains_ok(*final(stg)),
        same_but_tiles(*old(stg), *final(stg)),
{
    let ghost v0 = states_view(stg.tile_states);
    let mut i: usize = 0;
    while i < tiles.len()
        invariant
            i <= tiles.len(),
            remains_ok(*stg),
            same_but_tiles(*old(stg), *stg),
            v0 == states_view(old(stg).tile_states),
            forall|k: int| 0 <= k < tiles.len() ==> (#[trigger] tiles[k]).is_known(),
            open_all(v0, tiles@, tiles.len() as int) is Some,
            open_all(v0, tiles@, i as int) == Some(states_view(stg.tile_states)),
        decreases tiles.len() - i,
    {
        let x = tiles[i];
        let ghost before = *stg;
        proof {
            lemma_open_all_prefix(v0, tiles@, i + 1, tiles.len() as int);
            assert(x.is_known());
            let row = before.tile_states[x.0 as int][x.normal_rank()];
            assert(states_view(before.tile_states)[x.0 as int][x.normal_rank()] =~= row@);
        }
        let ok = open_copy(stg, x, TileStateType::R);
        proof {
            let row = before.tile_states[x.0 as int][x.normal_rank()];
            let c = pick_unseen(row, x)->0;
            lemma_moved_view(before.tile_states, stg.tile_states, x, c, TileStateType::R);
        }
        i += 1;
    }
}

/// Whether none of the tiles is hidden.
pub open spec fn all_shown(tiles: Seq<Tile>) -> bool {
    forall|i: int| 0 <= i < tiles.len() ==> #[trigger] tiles[i] != Tile(TZ, UK)
}

/// Whether the player is the one dealt the tiles at the seat `s`: the
/// tiles make the hand, the fourteenth is the tile drawn, the hand is
/// shown where no tile is hidden, and nothing else has happened yet.
pub open spec fn player_dealt(s: Seat, score: Score, tiles: Seq<Tile>, q: Player) -> bool {
    &&& q.seat == s
    &&& q.score == score
    &&& forall|t: int, n: int|
        0 <= t < TYPE && 0 <= n < TNUM ==> (#[trigger] q.hand[t][n]) == slot_count(tiles, t, n)
    &&& q.drawn == (if tiles.len() == 14 {
        Some(tiles[13])
    } else {
        None
    })
    &&& q.melds@.len() == 0
    &&& q.discards@.len() == 0
    &&& q.riichi is None
    &&& q.is_shown == all_shown(tiles)
    &&& !q.is_furiten
    &&& !q.is_riichi_furiten
    &&& q.is_nagashi
    &&& !q.is_ippatsu
    &&& q.kita_count == 0
}

/// The player dealt the tiles at the seat `s`.
fn deal_player(s: Seat, score: Score, tiles: &Vec<Tile>) -> (q: Player)
    requires
        s < SEAT,
        tiles.len() == 13 || tiles.len() == 14,
        forall|i: int| 0 <= i < tiles.len() ==> (#[trigger] tiles[i]).is_valid(),
    ensures
        player_dealt(s, score, tiles@, q),
        q.wf(),
        q.size() == tiles.len(),
        q.tiles_held() == tiles.len(),
{
    let mut q = Player::new(s, score);
    let mut hand: TileTable = [[0;TNUM];TYPE];
    let ghost zero = hand;
    let mut shown = true;
    let mut i: usize = 0;
    proof {
        assert(tiles@.take(0) =~= Seq::<Tile>::empty());
        lemma_zero_total(hand, 40);
    }
    while i < tiles.len()
        invariant
            i <= tiles.len() <= 14,
            forall|t: int, n: int| 0 <= t < TYPE && 0 <= n < TNUM ==> zero[t][n] == 0,
            forall|k: int| 0 <= k < tiles.len() ==> (#[trigger] tiles[k]).is_valid(),
            counts_added(zero, tiles@.take(i as int), hand),
            counts_within(tiles@.take(i as int), i as int),
            hand_total(hand) == i,
            forall|t: int| 0 <= t < TYPE ==> (#[trigger] hand[t])[0] <= hand[t][5],
            i > 0 ==> table_has(hand, tiles[i - 1]),
            shown == all_shown(tiles@.take(i as int)),
        decreases tiles.len() - i,
    {
        let x = tiles[i];
        let ghost before = hand;
        proof {
            assert(x.is_valid());
            assert(slot_count(tiles@.take(i as int), x.0 as int, x.1 as int) <= i);
            assert(slot_count(tiles@.take(i as int), x.0 as int, 5) <= i);
        }
        add_tile(&mut hand, x);
        if is_hidden(x) {
            shown = false;
        }
        proof {
            lemma_counts_step(zero, tiles@, i as int, before, hand);
            lemma_total_changes(before, x, hand, 40);
            lemma_weight_is_one(x);
            assert forall|t: int| 0 <= t < TYPE implies (#[trigger] hand[t])[0] <= hand[t][5] by {
                assert(hand[t][0] == before[t][0] + tile_weight(x, t, 0));
                assert(hand[t][5] == before[t][5] + tile_weight(x, t, 5));
                assert(before[t][0] <= before[t][5]);
            }
            assert(hand[x.0 as int][x.1 as int] == before[x.0 as int][x.1 as int] + tile_weight(
                x,
                x.0 as int,
                x.1 as int,
            ));
            assert(hand[x.0 as int][5] == before[x.0 as int][5] + tile_weight(x, x.0 as int, 5));
            assert(hand[x.0 as int][0] == before[x.0 as int][0] + tile_weight(x, x.0 as int, 0));
            assert(before[x.0 as int][0] <= before[x.0 as int][5]);
            assert(tiles@.take(i + 1).drop_last() =~= tiles@.take(i as int));
            assert(all_shown(tiles@.take(i + 1)) == (all_shown(tiles@.take(i as int)) && x
                != Tile(TZ, UK))) by {
                if all_shown(tiles@.take(i as int)) && x != Tile(TZ, UK) {
                    assert forall|k: int| 0 <= k < i + 1 implies #[trigger] tiles@.take(i + 1)[k]
                        != Tile(TZ, UK) by {
                        if k < i {
                            assert(tiles@.take(i as int)[k] != Tile(TZ, UK));
                        }
                    }
                } else if x == Tile(TZ, UK) {
                    assert(tiles@.take(i + 1)[i as int] == Tile(TZ, UK));
                } else {
                    let k = choose|k: int|
                        0 <= k < i && #[trigger] tiles@.take(i as int)[k] == Tile(TZ, UK);
                    assert(tiles@.take(i + 1)[k] == Tile(TZ, UK));
                }
            }
        }
        i += 1;
    }
    proof {
        assert(tiles@.take(tiles.len() as int) == tiles@);
        assert forall|t: int, n: int| 0 <= t < TYPE && 0 <= n < TNUM implies (#[trigger] hand[t][n])
            <= SLOT_MAX by {
            assert(hand[t][n] == zero[t][n] + slot_count(tiles@, t, n));
            assert(0 <= slot_count(tiles@, t, n) <= tiles.len());
        }
        assert forall|t: int, n: int| 0 <= t < TYPE && 0 <= n < TNUM implies (#[trigger] hand[t][n])
            == slot_count(tiles@, t, n) by {
            assert(hand[t][n] == zero[t][n] + slot_count(tiles@, t, n));
        }
    }
    q.hand = hand;
    if tiles.len() == 14 {
        q.drawn = Some(tiles[13]);
    }
    q.is_shown = shown;
    q.is_nagashi = true;
    q
}

proof fn lemma_zero_total(h: TileTable, k: int)
    requires
        0 <= k <= 40,
        forall|t: int, n: int| 0 <= t < TYPE && 0 <= n < TNUM ==> h[t][n] == 0,
    ensures
        total_before(h, k) == 0,
    decreases k,
{
    if k > 0 {
        lemma_zero_total(h, k - 1);
    }
}

/// Whether the player holds nothing and nothing has happened to it.
pub open spec fn player_blank(s: Seat, q: Player) -> bool {
    &&& q.seat == s
    &&& q.score == 0
    &&& forall|t: int, n: int| 0 <= t < TYPE && 0 <= n < TNUM ==> (#[trigger] q.hand[t][n]) == 0
    &&& q.drawn is None
    &&& q.melds@.len() == 0
    &&& q.discards@.len() == 0
    &&& q.riichi is None
    &&& !q.is_shown
    &&& !q.is_furiten
    &&& !q.is_riichi_furiten
    &&& !q.is_nagashi
    &&& !q.is_ippatsu
    &&& q.kita_count == 0
}

/// Whether the stage is the one before any round: nothing lies on the
/// table and no copy of any tile is seen.
pub open spec fn stage_blank(post: Stage) -> bool {
    &&& post.round == 0
    &&& post.kyoku == 0
    &&& post.honba == 0
    &&& post.kyoutaku == 0
    &&& post.turn == 0
    &&& post.step == 0
    &&& post.left_tile_count == 0
    &&& post.doras@.len() == 0
    &&& post.discards@.len() == 0
    &&& post.last_tile is None
    &&& post.last_riichi is None
    &&& !post.is_3p
    &&& forall|s: int| 0 <= s < SEAT ==> player_blank(s as usize, #[trigger] post.players[s])
    &&& states_view(post.tile_states) == fresh_states()
    &&& remains_ok(post)
}

/// The stage before any round.
pub fn blank_stage() -> (r: Stage)
    ensures
        stage_blank(r),
{
    let r = Stage {
        round: 0,
        kyoku: 0,
        honba: 0,
        kyoutaku: 0,
        turn: 0,
        step: 0,
        left_tile_count: 0,
        doras: Vec::new(),
        discards: Vec::new(),
        last_tile: None,
        last_riichi: None,
        players: [Player::new(0, 0), Player::new(1, 0), Player::new(2, 0), Player::new(3, 0)],
        is_3p: false,
        tile_states: [[[TileStateType::U;TILE];TNUM];TYPE],
        tile_remains: [[4;TNUM];TYPE],
    };
    proof {
        let want = fresh_states();
        assert forall|t: int| 0 <= t < TYPE implies states_view(r.tile_states)[t] =~= want[t] by {
            assert forall|n: int| 0 <= n < TNUM implies states_view(r.tile_states)[t][n]
                =~= want[t][n] by {}
        }
        assert(states_view(r.tile_states) =~= want);
    }
    r
}

/// The states once the hands of a new round are dealt and its dora
/// indicators lie open; `None` where the tiles named are more than the
/// copies there are.
pub open spec fn dealt_states(e: EventNew) -> Option<Seq<Seq<Seq<TileStateType>>>> {
    match draw_all(fresh_states(), e.hands[0]@, e.hands[0].len() as int, 0) {
        Some(a) => match draw_all(a, e.hands[1]@, e.hands[1].len() as int, 1) {
            Some(b) => match draw_all(b, e.hands[2]@, e.hands[2].len() as int, 2) {
                Some(c) => match draw_all(c, e.hands[3]@, e.hands[3].len() as int, 3) {
                    Some(d) => open_all(d, e.doras@, e.doras.len() as int),
                    None => None,
                },
                None => None,
            },
            None => None,
        },
        None => None,
    }
}

/// When a round can start: wind and dealer are seats, every hand holds
/// thirteen tiles of the game, the dealer's thirteen or fourteen, there
/// are at most five dora indicators, and no tile is named more often
/// than it has copies.
pub open spec fn new_ok(e: EventNew) -> bool {
    &&& e.bakaze < SEAT
    &&& e.kyoku < SEAT
    &&& e.doras.len() <= 5
    &&& forall|i: int| 0 <= i < e.doras.len() ==> (#[trigger] e.doras[i]).is_known()
    &&& forall|s: int|
        0 <= s < SEAT ==> ((#[trigger] e.hands[s]).len() == 13 || (s == e.kyoku
            && e.hands[s].len() == 14))
    &&& forall|s: int, i: int|
        0 <= s < SEAT && 0 <= i < e.hands[s].len() ==> (#[trigger] e.hands[s][i]).is_valid()
    &&& dealt_states(e) is Some
}

/// What the start of a round makes of the stage, whatever it was: the
/// counters of the round are those of the event, the hands are dealt,
/// the dora indicators lie open, the wall holds the tiles that are
/// neither, it is the dealer's turn, and nothing else has happened.
pub open spec fn new_applied(e: EventNew, post: Stage) -> bool {
    &&& post.round == e.bakaze
    &&& post.kyoku == e.kyoku
    &&& post.honba == e.honba
    &&& post.kyoutaku == e.kyoutaku
    &&& post.turn == e.kyoku
    &&& post.step == 0
    &&& post.left_tile_count == 136 - e.hands[0].len() - e.hands[1].len() - e.hands[2].len()
        - e.hands[3].len() - e.doras.len()
    &&& post.doras@ == e.doras@
    &&& post.discards@.len() == 0
    &&& post.last_tile is None
    &&& post.last_riichi is None
    &&& !post.is_3p
    &&& forall|s: int|
        0 <= s < SEAT ==> player_dealt(s as usize, e.scores[s], e.hands[s]@, #[trigger] post.players[s])
    &&& states_view(post.tile_states) == dealt_states(e)->0
    &&& remains_ok(post)
}

fn stage_new(stg: &mut Stage, e: &EventNew)
    requires
        new_ok(*e),
    ensures
        new_applied(*e, *final(stg)),
        final(stg).wf(),
{
    let mut fresh = blank_stage();
    proof {
        assert(e.hands[0].len() == 13 || e.hands[0].len() == 14);
        assert(e.hands[1].len() == 13 || e.hands[1].len() == 14);
        assert(e.hands[2].len() == 13 || e.hands[2].len() == 14);
        assert(e.hands[3].len() == 13 || e.hands[3].len() == 14);
        assert forall|i: int| 0 <= i < e.hands[0].len() implies (#[trigger] e.hands[0][i]).is_valid() by {}
        assert forall|i: int| 0 <= i < e.hands[1].len() implies (#[trigger] e.hands[1][i]).is_valid() by {}
        assert forall|i: int| 0 <= i < e.hands[2].len() implies (#[trigger] e.hands[2][i]).is_valid() by {}
        assert forall|i: int| 0 <= i < e.hands[3].len() implies (#[trigger] e.hands[3][i]).is_valid() by {}
    }
    draw_tiles(&mut fresh, &e.hands[0], 0);
    draw_tiles(&mut fresh, &e.hands[1], 1);
    draw_tiles(&mut fresh, &e.hands[2], 2);
    draw_tiles(&mut fresh, &e.hands[3], 3);
    open_tiles(&mut fresh, &e.doras);
    fresh.round = e.bakaze;
    fresh.kyoku = e.kyoku;
    fresh.honba = e.honba;
    fresh.kyoutaku = e.kyoutaku;
    fresh.turn = e.kyoku;
    fresh.left_tile_count = 136 - e.hands[0].len() - e.hands[1].len() - e.hands[2].len()
        - e.hands[3].len() - e.doras.len();
    fresh.doras = copy_tiles(&e.doras);
    fresh.players = [
        deal_player(0, e.scores[0], &e.hands[0]),
        deal_player(1, e.scores[1], &e.hands[1]),
        deal_player(2, e.scores[2], &e.hands[2]),
        deal_player(3, e.scores[3], &e.hands[3]),
    ];
    proof {
        assert forall|s: int| 0 <= s < SEAT implies player_dealt(
            s as usize,
            e.scores[s],
            e.hands[s]@,
            #[trigger] fresh.players[s],
        ) by {}
        assert forall|s: int| 0 <= s < SEAT && s != fresh.turn implies (
        #[trigger] fresh.players[s]).size() == 13 by {}
    }
    *stg = fresh;
}

/// When an event can be applied to a stage.
pub open spec fn event_ok(pre: Stage, ev: Event) -> bool {
    match ev {
        Event::Begin(_) => true,
        Event::New(e) => new_ok(e),
        Event::Deal(e) => deal_ok(pre, e),
        Event::Discard(e) => discard_ok(pre, e),
        Event::Meld(e) => match e.meld_type {
            MeldType::Chi | MeldType::Pon | MeldType::Minkan => call_ok(pre, e),
            MeldType::Kakan => kakan_ok(pre, e),
            MeldType::Ankan => ankan_ok(pre, e),
        },
        Event::Kita(_) => false,
        Event::Dora(e) => dora_ok(pre, e),
        Event::Win(e) => win_ok(pre, e),
        Event::Draw(e) => draw_ok(pre, e),
        Event::End(_) => pre.step < usize::MAX,
    }
}

/// What an event makes of a stage.
pub open spec fn event_applied(pre: Stage, ev: Event, post: Stage) -> bool {
    match ev {
        Event::Begin(_) => stage_blank(post),
        Event::New(e) => new_applied(e, post),
        Event::Deal(e) => deal_applied(pre, e, post),
        Event::Discard(e) => discard_applied(pre, e, post),
        Event::Meld(e) => match e.meld_type {
            MeldType::Chi | MeldType::Pon | MeldType::Minkan => call_applied(pre, e, post),
            MeldType::Kakan => kakan_applied(pre, e, post),
            MeldType::Ankan => ankan_applied(pre, e, post),
        },
        Event::Kita(_) => false,
        Event::Dora(e) => dora_applied(pre, e, post),
        Event::Win(e) => win_applied(pre, e, post),
        Event::Draw(e) => draw_applied(pre, e, post),
        Event::End(_) => post == (Stage { step: (pre.step + 1) as usize, ..pre }),
    }
}

/// Whether the event leaves the stage in a round: the start of a round
/// does, the start of a game does not, and any other event does where
/// the stage was in a round.
pub open spec fn stays_in_round(pre: Stage, ev: Event) -> bool {
    match ev {
        Event::Begin(_) => false,
        Event::New(_) => true,
        _ => pre.wf(),
    }
}

/// Applies an event to the stage.
pub fn handle_event(stg: &mut Stage, event: &Event)
    requires
        event_ok(*old(stg), *event),
    ensures
        event_applied(*old(stg), *event, *final(stg)),
        stays_in_round(*old(stg), *event) ==> final(stg).wf(),
{
    match event {
        Event::Begin(_) => {
            *stg = blank_stage();
        },
        Event::New(e) => {
            stage_new(stg, e);
        },
        Event::Deal(e) => {
            stage_deal(stg, e);
        },
        Event::Discard(e) => {
            stage_discard(stg, e);
        },
        Event::Meld(e) => match e.meld_type {
            MeldType::Chi | MeldType::Pon | MeldType::Minkan => {
                stage_call(stg, e);
            },
            MeldType::Kakan => {
                stage_kakan(stg, e);
            },
            MeldType::Ankan => {
                stage_ankan(stg, e);
            },
        },
        Event::Kita(_) => {},
        Event::Dora(e) => {
            stage_dora(stg, e);
        },
        Event::Win(e) => {
            stage_win(stg, e);
        },
        Event::Draw(e) => {
            stage_draw(stg, e);
        },
        Event::End(_) => {
            stg.step += 1;
        },
    }
}

} // verus!
