//! Carrying out an action: the event that an action stands for is
//! applied to the stage where the rules of play allow the action.
//!
//! Every action that the action engine offers is allowed, and carrying
//! out an action that is allowed keeps what holds of every stage.

use crate::controller::possible_actions::{
    ankan_legal, ankans_before, call_legal, calls_before, can_conceal, can_promote, can_take,
    can_throw, discards_before, kakan_legal, kakan_tile, kakans_before, may_ankan, may_call,
    may_discard, may_kakan, may_riichi, quad_of, riichis_before,
};
use crate::controller::reducer::{
    ankan_applied, call_applied, call_ok, discard_applied, discard_ok, handle_event, kakan_applied,
};

use crate::model::define::{Seat, SEAT, TNUM, TYPE};
use crate::model::event::{Event, EventDiscard, EventMeld};
use crate::model::meld::MeldType;
use crate::model::stage::Stage;
use crate::model::tile::{copy_tiles, Tile};
use vstd::prelude::*;

verus! {

/// Every tile that is offered for a discard may be discarded, and the
/// discard is legal on the stage.
pub proof fn lemma_offered_discards_are_legal(stg: Stage, seat: Seat, k: int, j: int)
    requires
        0 <= j < discards_before(stg, seat, k).len(),
    ensures
        may_discard(stg, seat, discards_before(stg, seat, k)[j]),
        discard_ok(
            stg,
            EventDiscard {
                seat,
                tile: discards_before(stg, seat, k)[j],
                is_drawn: false,
                is_riichi: false,
            },
        ),
    decreases k,
{
    if k > 0 {
        let before = discards_before(stg, seat, k - 1);
        if j < before.len() {
            lemma_offered_discards_are_legal(stg, seat, k - 1, j);
        }
    }
}

/// Every tile that is offered for a riichi may be discarded with a
/// riichi, and the discard is legal on the stage.
pub proof fn lemma_offered_riichis_are_legal(stg: Stage, seat: Seat, k: int, j: int)
    requires
        0 <= j < riichis_before(stg, seat, k).len(),
    ensures
        may_riichi(stg, seat, riichis_before(stg, seat, k)[j]),
        discard_ok(
            stg,
            EventDiscard {
                seat,
                tile: riichis_before(stg, seat, k)[j],
                is_drawn: false,
                is_riichi: true,
            },
        ),
    decreases k,
{
    if k > 0 {
        let before = riichis_before(stg, seat, k - 1);
        if j < before.len() {
            lemma_offered_riichis_are_legal(stg, seat, k - 1, j);
        }
    }
}

/// Every concealed quad that is offered is legal on the stage.
pub proof fn lemma_offered_ankans_are_legal(stg: Stage, seat: Seat, k: int, j: int)
    requires
        0 <= j < ankans_before(stg, seat, k).len(),
    ensures
        ankan_legal(stg, seat, ankans_before(stg, seat, k)[j]),
    decreases k,
{
    if k > 0 {
        let before = ankans_before(stg, seat, k - 1);
        if j < before.len() {
            lemma_offered_ankans_are_legal(stg, seat, k - 1, j);
        }
    }
}

/// Every promotion of a pon that is offered is legal on the stage.
pub proof fn lemma_offered_kakans_are_legal(stg: Stage, seat: Seat, n: int, j: int)
    requires
        0 <= j < kakans_before(stg, seat, n).len(),
    ensures
        kakan_legal(stg, seat, kakans_before(stg, seat, n)[j]),
    decreases n,
{
    if n > 0 {
        let before = kakans_before(stg, seat, n - 1);
        if j < before.len() {
            lemma_offered_kakans_are_legal(stg, seat, n - 1, j);
        }
    }
}

/// Every call that is offered is legal on the stage.
pub proof fn lemma_offered_calls_are_legal(
    stg: Stage,
    seat: Seat,
    options: Seq<(MeldType, Seq<Tile>)>,
    n: int,
    j: int,
)
    requires
        0 <= j < calls_before(stg, seat, options, n).len(),
    ensures
        call_legal(
            stg,
            seat,
            calls_before(stg, seat, options, n)[j].0,
            calls_before(stg, seat, options, n)[j].1,
        ),
    decreases n,
{
    if n > 0 {
        let before = calls_before(stg, seat, options, n - 1);
        if j < before.len() {
            lemma_offered_calls_are_legal(stg, seat, options, n - 1, j);
        }
    }
}

/// Discards the tile `x` for the seat whose turn it is, with a riichi
/// where `riichi` holds, if it may: the stage is then what the discard
/// makes of it, and what holds of every stage still holds. Tells whether
/// it did; nothing changes where it did not.
pub fn perform_discard(stg: &mut Stage, x: Tile, riichi: bool) -> (done: bool)
    requires
        old(stg).wf(),
    ensures
        done == (x.in_table() && may_discard(*old(stg), old(stg).turn, x) && (riichi ==> may_riichi(
            *old(stg),
            old(stg).turn,
            x,
        ))),
        !done ==> *final(stg) == *old(stg),
        done ==> final(stg).wf() && exists|e: EventDiscard|
            e.seat == old(stg).turn && e.tile == x && e.is_riichi == riichi && discard_applied(
                *old(stg),
                e,
                *final(stg),
            ),
{
    let seat = stg.turn;
    if !(x.0 < TYPE && x.1 < TNUM) {
        return false;
    }
    if !can_throw(stg, seat, x) {
        return false;
    }
    if riichi && !can_riichi_with(stg, seat, x) {
        return false;
    }
    let is_drawn = match stg.players[seat].drawn {
        Some(d) => d == x,
        None => false,
    };
    let e = EventDiscard { seat, tile: x, is_drawn, is_riichi: riichi };
    let ev = Event::Discard(e);
    handle_event(stg, &ev);
    assert(discard_applied(*old(stg), e, *stg));
    true
}

fn can_riichi_with(stg: &Stage, seat: Seat, x: Tile) -> (r: bool)
    requires
        stg.wf(),
        seat < SEAT,
        x.in_table(),
        may_discard(*stg, seat, x),
    ensures
        r == may_riichi(*stg, seat, x),
{
    let p = &stg.players[seat];
    assert(p.wf());
    if !(p.riichi.is_none() && p.is_shown && p.score >= 1000
        && crate::controller::possible_actions::count_wall(stg) >= 4) {
        return false;
    }
    if !crate::controller::possible_actions::melds_concealed(&p.melds) {
        return false;
    }
    assert(p.size() == 14);
    crate::controller::possible_actions::is_tenpai_without(&p.hand, x)
}

/// Declares the concealed quad of the kind of slot `k` for the seat
/// whose turn it is, if it may. Tells whether it did; nothing changes
/// where it did not.
pub fn perform_ankan(stg: &mut Stage, k: usize) -> (done: bool)
    requires
        old(stg).wf(),
    ensures
        done == (k < 40 && may_ankan(*old(stg), old(stg).turn, k as int)),
        !done ==> *final(stg) == *old(stg),
        done ==> final(stg).wf() && exists|e: EventMeld|
            e.seat == old(stg).turn && e.meld_type == MeldType::Ankan && e.consumed@ == quad_of(
                old(stg).players[old(stg).turn as int].hand,
                k as int,
            ) && ankan_applied(*old(stg), e, *final(stg)),
{
    let seat = stg.turn;
    if k >= 40 {
        return false;
    }
    if !can_conceal(stg, seat, k) {
        return false;
    }
    let x = Tile(k / 10, k % 10);
    let last = if x.0 != crate::model::define::TZ && x.1 == 5 && stg.players[seat].hand[x.0][0]
        >= 1 {
        Tile(x.0, 0)
    } else {
        x
    };
    let consumed: Vec<Tile> = vec![x, x, x, last];
    assert(consumed@ =~= quad_of(stg.players[seat as int].hand, k as int));
    let e = EventMeld { seat, meld_type: MeldType::Ankan, consumed };
    let ev = Event::Meld(e);
    handle_event(stg, &ev);
    proof {
        let e2 = ev->Meld_0;
        assert(ankan_applied(*old(stg), e2, *stg));
    }
    true
}

/// Promotes the pon at `i` of the seat whose turn it is, if it may.
/// Tells whether it did; nothing changes where it did not.
pub fn perform_kakan(stg: &mut Stage, i: usize) -> (done: bool)
    requires
        old(stg).wf(),
    ensures
        done == may_kakan(*old(stg), old(stg).turn, i as int),
        !done ==> *final(stg) == *old(stg),
        done ==> final(stg).wf() && exists|e: EventMeld|
            e.seat == old(stg).turn && e.meld_type == MeldType::Kakan && e.consumed@ == seq![
                kakan_tile(
                    old(stg).players[old(stg).turn as int].hand,
                    old(stg).players[old(stg).turn as int].melds[i as int],
                )->0,
            ] && kakan_applied(*old(stg), e, *final(stg)),
{
    let seat = stg.turn;
    if i >= stg.players[seat].melds.len() {
        return false;
    }
    match can_promote(stg, seat, i) {
        Some(x) => {
            let consumed: Vec<Tile> = vec![x];
            assert(consumed@ =~= seq![x]);
            let e = EventMeld { seat, meld_type: MeldType::Kakan, consumed };
            let ev = Event::Meld(e);
            handle_event(stg, &ev);
            proof {
                let e2 = ev->Meld_0;
                assert(kakan_applied(*old(stg), e2, *stg));
            }
            true
        },
        None => false,
    }
}

/// Calls the tile that was discarded last for `seat`, with the tiles
/// from its hand, if it may. Tells whether it did; nothing changes where
/// it did not.
pub fn perform_call(stg: &mut Stage, seat: Seat, tp: MeldType, tiles: &Vec<Tile>) -> (done: bool)
    requires
        old(stg).wf(),
    ensures
        done == (seat < SEAT && may_call(*old(stg), seat, tp, tiles@)),
        !done ==> *final(stg) == *old(stg),
        done ==> final(stg).wf() && exists|e: EventMeld|
            e.seat == seat && e.meld_type == tp && e.consumed@ == tiles@ && call_applied(
                *old(stg),
                e,
                *final(stg),
            ),
{
    if seat >= SEAT {
        return false;
    }
    if !can_take(stg, seat, tp, tiles) {
        return false;
    }
    let e = EventMeld { seat, meld_type: tp, consumed: copy_tiles(tiles) };
    let ev = Event::Meld(e);
    assert(call_ok(*stg, e));
    handle_event(stg, &ev);
    proof {
        let e2 = ev->Meld_0;
        assert(call_applied(*old(stg), e2, *stg));
    }
    true
}

} // verus!
