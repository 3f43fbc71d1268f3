//! The action engine: the actions that the rules of play allow a player
//! on a stage.
//!
//! An action that changes the stage is offered only where the event that
//! carries it out is legal on the stage, so that carrying it out keeps
//! what holds of every stage.

use crate::controller::check::{can_ankan, can_call, can_discard, can_kakan};
use crate::controller::reducer::{ankan_ok, call_ok, discard_ok, kakan_ok};
use crate::hand::count::{check_indicators, indicators_ok, melds_small};
use crate::hand::evaluate::{melds_usable, Evaluated};
use crate::hand::parts::meld_usable;
use crate::hand::evaluate::{all_concealed, evaluate_hand, evaluated};
use crate::hand::shape::{waits, winning_tiles};
use crate::mahjongsoul::action::actions_view;
use crate::hand::win::YakuFlags;
use crate::model::action::{Action, ActionType};
use crate::model::define::{Seat, SEAT, TNUM, TYPE, TZ, UK};
use crate::model::event::{EventDiscard, EventMeld};
use crate::model::meld::{Meld, MeldType};
use crate::model::player::Player;
use crate::model::stage::Stage;
use crate::model::tile::{
    add_tile, copy_tiles, has_tile, remove_tile, table_bounded, table_has, tile_added, tile_removed,
    Tile, TileTable,
};
use vstd::prelude::*;

verus! {

/// The number of tiles that can still be drawn: the tiles that are left
/// but for the dead wall, which holds fourteen tiles, the dora indicators
/// among them.
pub open spec fn wall_left(stg: Stage) -> int {
    stg.left_tile_count + stg.doras.len() - 14
}

/// The number of tiles that can still be drawn; none where the count
/// would be negative.
pub fn count_wall(stg: &Stage) -> (n: usize)
    requires
        stg.wf(),
    ensures
        n == (if wall_left(*stg) > 0 {
            wall_left(*stg)
        } else {
            0
        }),
{
    proof {
        crate::model::player::lemma_held_nonneg(stg.players[0]);
        crate::model::player::lemma_held_nonneg(stg.players[1]);
        crate::model::player::lemma_held_nonneg(stg.players[2]);
        crate::model::player::lemma_held_nonneg(stg.players[3]);
    }
    let all = stg.left_tile_count + stg.doras.len();
    if all > 14 {
        all - 14
    } else {
        0
    }
}

/// Whether the player has just called a tile, so that the turn began
/// without a draw.
pub open spec fn has_called(stg: Stage, p: Player) -> bool {
    p.drawn is None && p.melds.len() > 0 && p.melds[p.melds.len() - 1].step + 1 == stg.step
        && p.melds[p.melds.len() - 1].tiles.len() == 3
}

/// Whether the tile `x` may not be discarded after the call that began
/// the turn: it is of the kind of the tile called; or the call was a chi
/// that took the tile at one end of its run, and `x` is of the kind at
/// the other end of the run moved on by one.
pub open spec fn is_swap(m: Meld, x: Tile) -> bool {
    let t = m.tiles[2].spec_to_normal();
    let a = m.tiles[0].normal_rank();
    let b = m.tiles[1].normal_rank();
    let n = x.spec_to_normal();
    n.0 == t.0 && (n.1 == t.1 || (m.type_ == MeldType::Chi && ((t.1 < a && t.1 < b && n.1 == t.1
        + 3) || (t.1 > a && t.1 > b && n.1 + 3 == t.1))))
}

/// Whether `seat`, whose turn it is, may discard the tile `x`: the hand
/// holds it, the discard is legal on the stage, it does not undo a call
/// that began the turn, and a player in riichi discards the tile drawn.
pub open spec fn may_discard(stg: Stage, seat: Seat, x: Tile) -> bool {
    let p = stg.players[seat as int];
    &&& x.is_known()
    &&& table_has(p.hand, x)
    &&& discard_ok(stg, EventDiscard { seat, tile: x, is_drawn: false, is_riichi: false })
    &&& !(has_called(stg, p) && is_swap(p.melds[p.melds.len() - 1], x))
    &&& p.riichi is Some ==> p.drawn == Some(x)
}

/// The tile of slot `k`: rank `k % 10` of suit `k / 10`.
pub open spec fn slot_tile(k: int) -> Tile {
    Tile((k / 10) as usize, (k % 10) as usize)
}

/// The tiles of the slots before slot `k` that `seat` may discard.
pub open spec fn discards_before(stg: Stage, seat: Seat, k: int) -> Seq<Tile>
    decreases k,
{
    if k <= 0 {
        Seq::empty()
    } else {
        let before = discards_before(stg, seat, k - 1);
        if may_discard(stg, seat, slot_tile(k - 1)) {
            before.push(slot_tile(k - 1))
        } else {
            before
        }
    }
}

fn swaps(m: &Meld, x: Tile) -> (r: bool)
    requires
        m.tiles.len() == 3,
        forall|i: int| 0 <= i < 3 ==> (#[trigger] m.tiles[i]).in_table(),
        x.in_table(),
    ensures
        r == is_swap(*m, x),
{
    assert(m.tiles[0].in_table() && m.tiles[1].in_table() && m.tiles[2].in_table());
    let t = m.tiles[2].to_normal();
    let a = m.tiles[0].to_normal().1;
    let b = m.tiles[1].to_normal().1;
    let n = x.to_normal();
    let chi = match m.type_ {
        MeldType::Chi => true,
        _ => false,
    };
    n.0 == t.0 && (n.1 == t.1 || (chi && ((t.1 < a && t.1 < b && n.1 == t.1 + 3) || (t.1 > a
        && t.1 > b && n.1 + 3 == t.1))))
}

fn called_meld_of<'a>(stg: &Stage, p: &'a Player) -> (r: Option<&'a Meld>)
    requires
        p.wf(),
    ensures
        r is Some == has_called(*stg, *p),
        r matches Some(m) ==> *m == p.melds[p.melds.len() - 1] && m.wf(),
{
    if p.drawn.is_none() && p.melds.len() > 0 {
        let m = &p.melds[p.melds.len() - 1];
        if m.step < usize::MAX && m.step + 1 == stg.step && m.tiles.len() == 3 {
            return Some(m);
        }
    }
    None
}

/// Whether `seat`, whose turn it is, may discard the tile `x`.
pub fn can_throw(stg: &Stage, seat: Seat, x: Tile) -> (r: bool)
    requires
        stg.wf(),
        seat < SEAT,
        x.in_table(),
    ensures
        r == may_discard(*stg, seat, x),
{
    let p = &stg.players[seat];
    assert(p.wf());
    let known = if x.0 < TZ {
        true
    } else {
        1 <= x.1 && x.1 < UK
    };
    if !(known && has_tile(&p.hand, x)) {
        return false;
    }
    let e = EventDiscard { seat, tile: x, is_drawn: false, is_riichi: false };
    if !can_discard(stg, &e) {
        return false;
    }
    match called_meld_of(stg, p) {
        Some(m) => {
            assert forall|i: int| 0 <= i < 3 implies (#[trigger] m.tiles[i]).in_table() by {
                assert(m.tiles[i].is_known());
            }
            if swaps(m, x) {
                return false;
            }
        },
        None => {},
    }
    match p.riichi {
        Some(_) => match p.drawn {
            Some(d) => d == x,
            None => false,
        },
        None => true,
    }
}

/// The tiles that `seat`, whose turn it is, may discard.
pub fn list_discards(stg: &Stage, seat: Seat) -> (r: Vec<Tile>)
    requires
        stg.wf(),
        seat < SEAT,
    ensures
        r@ == discards_before(*stg, seat, 40),
{
    let mut r: Vec<Tile> = Vec::new();
    let mut k: usize = 0;
    while k < 40
        invariant
            k <= 40,
            stg.wf(),
            seat < SEAT,
            r@ == discards_before(*stg, seat, k as int),
        decreases 40 - k,
    {
        let x = Tile(k / 10, k % 10);
        if can_throw(stg, seat, x) {
            r.push(x);
        }
        k += 1;
    }
    r
}

/// Whether the hand is one tile from a win once the tile `x` has left it.
pub open spec fn tenpai_without(h: TileTable, x: Tile) -> bool {
    exists|h2: TileTable| tile_removed(h, x, h2) && waits(h2).len() > 0
}

/// Two tables that hold the same tiles less one are one table.
pub proof fn lemma_removed_unique(h: TileTable, x: Tile, a: TileTable, b: TileTable)
    requires
        tile_removed(h, x, a),
        tile_removed(h, x, b),
    ensures
        a == b,
{
    assert forall|t: int| 0 <= t < TYPE implies a[t] == b[t] by {
        assert forall|n: int| 0 <= n < TNUM implies a[t][n] == b[t][n] by {
            assert(a[t][n] == h[t][n] - crate::model::tile::tile_weight(x, t, n));
            assert(b[t][n] == h[t][n] - crate::model::tile::tile_weight(x, t, n));
        }
        assert(a[t] =~= b[t]);
    }
    assert(a =~= b);
}

/// Whether the hand is one tile from a win once the tile `x` has left it.
pub fn is_tenpai_without(h: &TileTable, x: Tile) -> (r: bool)
    requires
        table_bounded(*h),
        forall|t: int| 0 <= t < TYPE ==> (#[trigger] h[t])[0] <= h[t][5],
        crate::model::tile::hand_total(*h) <= 14,
        x.is_valid(),
        table_has(*h, x),
    ensures
        r == tenpai_without(*h, x),
{
    let mut h2 = *h;
    remove_tile(&mut h2, x);
    proof {
        crate::controller::reducer::lemma_hand_after_removal(*h, x, h2);
        crate::model::tile::lemma_small_hand_is_roomy(h2);
    }
    let w = winning_tiles(&h2);
    let r = w.len() > 0;
    proof {
        if !r {
            assert forall|h3: TileTable| tile_removed(*h, x, h3) implies !(waits(h3).len() > 0) by {
                lemma_removed_unique(*h, x, h2, h3);
            }
        }
    }
    r
}

/// Whether `seat`, whose turn it is, may declare riichi with the discard
/// of the tile `x`: the discard is allowed, the hand is concealed and not
/// in riichi yet, the score pays the stick, four tiles at least can still
/// be drawn, and the discard leaves the hand one tile from a win.
pub open spec fn may_riichi(stg: Stage, seat: Seat, x: Tile) -> bool {
    let p = stg.players[seat as int];
    &&& may_discard(stg, seat, x)
    &&& p.riichi is None
    &&& p.is_shown
    &&& all_concealed(p.melds@)
    &&& p.score >= 1000
    &&& wall_left(stg) >= 4
    &&& tenpai_without(p.hand, x)
}

/// The tiles of the slots before slot `k` with which `seat` may declare
/// riichi.
pub open spec fn riichis_before(stg: Stage, seat: Seat, k: int) -> Seq<Tile>
    decreases k,
{
    if k <= 0 {
        Seq::empty()
    } else {
        let before = riichis_before(stg, seat, k - 1);
        if may_riichi(stg, seat, slot_tile(k - 1)) {
            before.push(slot_tile(k - 1))
        } else {
            before
        }
    }
}

/// Whether every meld is a concealed quad.
pub fn melds_concealed(melds: &Vec<Meld>) -> (r: bool)
    ensures
        r == all_concealed(melds@),
{
    let mut i: usize = 0;
    while i < melds.len()
        invariant
            i <= melds.len(),
            forall|k: int| 0 <= k < i ==> (#[trigger] melds[k]).type_ == MeldType::Ankan,
        decreases melds.len() - i,
    {
        if melds[i].type_ != MeldType::Ankan {
            return false;
        }
        i += 1;
    }
    true
}

/// The tiles with which `seat`, whose turn it is, may declare riichi.
pub fn list_riichis(stg: &Stage, seat: Seat) -> (r: Vec<Tile>)
    requires
        stg.wf(),
        seat < SEAT,
    ensures
        r@ == riichis_before(*stg, seat, 40),
{
    let p = &stg.players[seat];
    assert(p.wf());
    let ready = p.riichi.is_none() && p.is_shown && melds_concealed(&p.melds) && p.score >= 1000
        && count_wall(stg) >= 4;
    let mut r: Vec<Tile> = Vec::new();
    let mut k: usize = 0;
    while k < 40
        invariant
            k <= 40,
            stg.wf(),
            seat < SEAT,
            p == &stg.players[seat as int],
            p.wf(),
            ready == (p.riichi is None && p.is_shown && all_concealed(p.melds@) && p.score >= 1000
                && wall_left(*stg) >= 4),
            r@ == riichis_before(*stg, seat, k as int),
        decreases 40 - k,
    {
        let x = Tile(k / 10, k % 10);
        if ready && can_throw(stg, seat, x) {
            assert(p.size() == 14);
            if is_tenpai_without(&p.hand, x) {
                r.push(x);
            }
        }
        k += 1;
    }
    r
}

/// Whether nothing has been discarded by the player nor called by anyone.
pub open spec fn first_turn(stg: Stage, p: Player) -> bool {
    &&& p.discards.len() == 0
    &&& stg.players[0].melds.len() == 0
    &&& stg.players[1].melds.len() == 0
    &&& stg.players[2].melds.len() == 0
    &&& stg.players[3].melds.len() == 0
}

/// Whether the player drew the tile in hand after a quad called or
/// declared from the hand: the last meld is such a quad, laid down two
/// steps ago.
pub open spec fn after_quad(stg: Stage, p: Player) -> bool {
    &&& p.drawn is Some
    &&& p.melds.len() > 0
    &&& (p.melds[p.melds.len() - 1].type_ == MeldType::Ankan || p.melds[p.melds.len() - 1].type_
        == MeldType::Minkan)
    &&& p.melds[p.melds.len() - 1].step + 2 == stg.step
}

/// The yaku that the stage shows of a win by `seat`: by tsumo where
/// `tsumo` holds, else by ron on the tile that can be won.
pub open spec fn stage_flags(stg: Stage, seat: Seat, tsumo: bool) -> YakuFlags {
    let p = stg.players[seat as int];
    let robbed = stg.last_tile matches Some((_, ActionType::Kakan, _));
    YakuFlags {
        menzentsumo: tsumo && all_concealed(p.melds@),
        riichi: p.riichi is Some,
        dabururiichi: false,
        ippatsu: p.is_ippatsu,
        haiteiraoyue: tsumo && wall_left(stg) <= 0 && !after_quad(stg, p),
        houteiraoyui: !tsumo && wall_left(stg) <= 0 && !robbed,
        rinshankaihou: tsumo && after_quad(stg, p),
        chankan: !tsumo && robbed,
        tenhou: tsumo && first_turn(stg, p) && seat == stg.kyoku,
        tiihou: tsumo && first_turn(stg, p) && seat != stg.kyoku,
    }
}

/// The yaku that the stage shows of a win by `seat`.
pub fn flags_of(stg: &Stage, seat: Seat, tsumo: bool) -> (f: YakuFlags)
    requires
        stg.wf(),
        seat < SEAT,
    ensures
        f == stage_flags(*stg, seat, tsumo),
{
    let p = &stg.players[seat];
    let robbed = match stg.last_tile {
        Some((_, ActionType::Kakan, _)) => true,
        _ => false,
    };
    let first = p.discards.len() == 0 && stg.players[0].melds.len() == 0
        && stg.players[1].melds.len() == 0 && stg.players[2].melds.len() == 0
        && stg.players[3].melds.len() == 0;
    let quad = if p.drawn.is_some() && p.melds.len() > 0 {
        let m = &p.melds[p.melds.len() - 1];
        let kan = match m.type_ {
            MeldType::Ankan | MeldType::Minkan => true,
            _ => false,
        };
        kan && m.step < usize::MAX - 1 && m.step + 2 == stg.step
    } else {
        false
    };
    let empty = count_wall(stg) == 0;
    YakuFlags {
        menzentsumo: tsumo && melds_concealed(&p.melds),
        riichi: p.riichi.is_some(),
        dabururiichi: false,
        ippatsu: p.is_ippatsu,
        haiteiraoyue: tsumo && empty && !quad,
        houteiraoyui: !tsumo && empty && !robbed,
        rinshankaihou: tsumo && quad,
        chankan: !tsumo && robbed,
        tenhou: tsumo && first && seat == stg.kyoku,
        tiihou: tsumo && first && seat != stg.kyoku,
    }
}

/// The evaluation of the hand of `seat` as a win by tsumo on the tile
/// drawn; `None` where the player has drawn none, the hand is not shown,
/// or it is no win.
pub open spec fn tsumo_of(stg: Stage, seat: Seat) -> Option<Evaluated> {
    let p = stg.players[seat as int];
    if p.drawn is Some && p.is_shown && indicators_ok(stg.doras@) {
        evaluated(
            p.hand,
            p.melds@,
            stg.doras@,
            Seq::empty(),
            p.drawn->0,
            true,
            seat == stg.kyoku,
            (stg.round % SEAT + 1) as usize,
            ((seat + SEAT - stg.kyoku) % (SEAT as int) + 1) as usize,
            stage_flags(stg, seat, true),
        )
    } else {
        None
    }
}

/// The melds of a well-formed player can be read as sets.
pub proof fn lemma_melds_readable(p: Player)
    requires
        p.wf(),
    ensures
        melds_small(p.melds@),
        melds_usable(p.melds@),
{
    assert forall|i: int| 0 <= i < p.melds.len() implies (#[trigger] p.melds[i]).tiles.len() <= 4
        && meld_usable(p.melds[i]) by {
        let m = p.melds[i];
        assert(m.wf());
        assert forall|j: int| 0 <= j < m.tiles.len() implies (#[trigger] m.tiles[j]).in_table() by {
            assert(m.tiles[j].is_known());
        }
    }
}

/// Whether `seat` can win by tsumo on the tile drawn.
pub fn can_tsumo(stg: &Stage, seat: Seat) -> (r: bool)
    requires
        stg.wf(),
        seat < SEAT,
    ensures
        r == tsumo_of(*stg, seat) is Some,
{
    let p = &stg.players[seat];
    assert(p.wf());
    match p.drawn {
        Some(d) => {
            if !(p.is_shown && check_indicators(&stg.doras)) {
                return false;
            }
            proof {
                lemma_melds_readable(*p);
            }
            let ura: Vec<Tile> = Vec::new();
            let f = flags_of(stg, seat, true);
            assert(ura@ =~= Seq::<Tile>::empty());
            evaluate_hand(
                &p.hand,
                &p.melds,
                &stg.doras,
                &ura,
                d,
                true,
                seat == stg.kyoku,
                stg.get_prevalent_wind(),
                stg.get_seat_wind(seat),
                &f,
            ).is_some()
        },
        None => false,
    }
}

/// The evaluation of the hand of `seat` as a win by ron on the tile that
/// can be won; `None` where there is no such tile or it is the seat's
/// own, the hand is not shown, the player is furiten, or it is no win.
pub open spec fn ron_of(stg: Stage, seat: Seat) -> Option<Evaluated> {
    let p = stg.players[seat as int];
    match stg.last_tile {
        Some((d, _, t)) => if d != seat && p.is_shown && !p.is_furiten && !p.is_riichi_furiten
            && p.size() == 13 && indicators_ok(stg.doras@) {
            let h2 = choose|h2: TileTable| tile_added(p.hand, t, h2);
            evaluated(
                h2,
                p.melds@,
                stg.doras@,
                Seq::empty(),
                t,
                false,
                seat == stg.kyoku,
                (stg.round % SEAT + 1) as usize,
                ((seat + SEAT - stg.kyoku) % (SEAT as int) + 1) as usize,
                stage_flags(stg, seat, false),
            )
        } else {
            None
        },
        None => None,
    }
}

/// Whether `seat` can win by ron on the tile that can be won.
pub fn can_ron(stg: &Stage, seat: Seat) -> (r: bool)
    requires
        stg.wf(),
        seat < SEAT,
    ensures
        r == ron_of(*stg, seat) is Some,
{
    let p = &stg.players[seat];
    assert(p.wf());
    match stg.last_tile {
        Some((d, _, t)) => {
            if !(d != seat && p.is_shown && !p.is_furiten && !p.is_riichi_furiten
                && check_indicators(&stg.doras)) {
                return false;
            }
            if crate::controller::check::player_size(p) != 13 {
                return false;
            }
            proof {
                lemma_melds_readable(*p);
                crate::model::tile::lemma_small_hand_is_roomy(p.hand);
            }
            let mut h2 = p.hand;
            add_tile(&mut h2, t);
            proof {
                let h3 = choose|h3: TileTable| tile_added(p.hand, t, h3);
                crate::hand::shape::lemma_added_unique(p.hand, t, h2, h3);
                assert forall|a: int, b: int| 0 <= a < TYPE && 0 <= b < TNUM implies (
                #[trigger] h2[a][b]) <= crate::model::tile::SLOT_MAX by {
                    assert(h2[a][b] == p.hand[a][b] + crate::model::tile::tile_weight(t, a, b));
                }
            }
            let ura: Vec<Tile> = Vec::new();
            let f = flags_of(stg, seat, false);
            assert(ura@ =~= Seq::<Tile>::empty());
            evaluate_hand(
                &h2,
                &p.melds,
                &stg.doras,
                &ura,
                t,
                false,
                seat == stg.kyoku,
                stg.get_prevalent_wind(),
                stg.get_seat_wind(seat),
                &f,
            ).is_some()
        },
        None => false,
    }
}

/// The number of kinds of terminals and honors in the hand.
pub open spec fn orphan_kinds(h: TileTable) -> int {
    one_if_held(h, 0, 1) + one_if_held(h, 0, 9) + one_if_held(h, 1, 1) + one_if_held(h, 1, 9)
        + one_if_held(h, 2, 1) + one_if_held(h, 2, 9) + one_if_held(h, 3, 1) + one_if_held(h, 3, 2)
        + one_if_held(h, 3, 3) + one_if_held(h, 3, 4) + one_if_held(h, 3, 5) + one_if_held(h, 3, 6)
        + one_if_held(h, 3, 7)
}

/// One where the hand holds a tile in the slot, else none.
pub open spec fn one_if_held(h: TileTable, t: int, n: int) -> int {
    if h[t][n] > 0 {
        1
    } else {
        0
    }
}

fn held(h: &TileTable, t: usize, n: usize) -> (r: usize)
    requires
        t < TYPE,
        n < TNUM,
    ensures
        r == one_if_held(*h, t as int, n as int),
{
    if h[t][n] > 0 {
        1
    } else {
        0
    }
}

/// Whether `seat`, whose turn it is, may end the round for nine kinds of
/// terminals and honors: it has drawn its first tile, nobody has called,
/// and the hand holds nine such kinds at least.
pub open spec fn may_abort(stg: Stage, seat: Seat) -> bool {
    let p = stg.players[seat as int];
    p.drawn is Some && p.is_shown && first_turn(stg, p) && orphan_kinds(p.hand) >= 9
}

/// Whether `seat`, whose turn it is, may end the round for nine kinds of
/// terminals and honors.
pub fn can_abort(stg: &Stage, seat: Seat) -> (r: bool)
    requires
        seat < SEAT,
    ensures
        r == may_abort(*stg, seat),
{
    let p = &stg.players[seat];
    let first = p.discards.len() == 0 && stg.players[0].melds.len() == 0
        && stg.players[1].melds.len() == 0 && stg.players[2].melds.len() == 0
        && stg.players[3].melds.len() == 0;
    let h = &p.hand;
    let kinds = held(h, 0, 1) + held(h, 0, 9) + held(h, 1, 1) + held(h, 1, 9) + held(h, 2, 1)
        + held(h, 2, 9) + held(h, 3, 1) + held(h, 3, 2) + held(h, 3, 3) + held(h, 3, 4) + held(
        h,
        3,
        5,
    ) + held(h, 3, 6) + held(h, 3, 7);
    p.drawn.is_some() && p.is_shown && first && kinds >= 9
}

/// Whether the concealed quad of the tiles by `seat` is legal on the
/// stage, whatever event carries it.
pub open spec fn ankan_legal(stg: Stage, seat: Seat, tiles: Seq<Tile>) -> bool {
    forall|e: EventMeld|
        e.seat == seat && e.meld_type == MeldType::Ankan && e.consumed@ == tiles ==> ankan_ok(
            stg,
            e,
        )
}

/// Whether the promotion of a pon with the tiles by `seat` is legal on
/// the stage, whatever event carries it.
pub open spec fn kakan_legal(stg: Stage, seat: Seat, tiles: Seq<Tile>) -> bool {
    forall|e: EventMeld|
        e.seat == seat && e.meld_type == MeldType::Kakan && e.consumed@ == tiles ==> kakan_ok(
            stg,
            e,
        )
}

/// Whether the call of the kind `tp` with the tiles by `seat` is legal on
/// the stage, whatever event carries it.
pub open spec fn call_legal(stg: Stage, seat: Seat, tp: MeldType, tiles: Seq<Tile>) -> bool {
    forall|e: EventMeld|
        e.seat == seat && e.meld_type == tp && e.consumed@ == tiles ==> call_ok(stg, e)
}

/// The four tiles of the kind of slot `k` that a hand gives for a quad:
/// the red five among them where the hand holds it.
pub open spec fn quad_of(h: TileTable, k: int) -> Seq<Tile> {
    let x = slot_tile(k);
    if x.0 != TZ && x.1 == 5 && h[x.0 as int][0] >= 1 {
        seq![x, x, x, Tile(x.0, 0)]
    } else {
        seq![x, x, x, x]
    }
}

/// Whether `post` is the hand `h` without its four tiles of the kind `x`.
pub open spec fn quad_removed(h: TileTable, x: Tile, post: TileTable) -> bool {
    forall|t: int, n: int|
        0 <= t < TYPE && 0 <= n < TNUM ==> (#[trigger] post[t][n]) == if t == x.0 && n == x.1 {
            h[t][n] - 4
        } else if t == x.0 && n == 0 && x.1 == 5 {
            0
        } else {
            h[t][n] as int
        }
}

/// Whether a concealed quad of the kind `x` leaves the waits of a hand
/// in riichi as they were before the tile `d` was drawn.
pub open spec fn quad_keeps_waits(h: TileTable, d: Tile, x: Tile) -> bool {
    d.spec_to_normal() == x && exists|before: TileTable, after: TileTable|
        tile_removed(h, d, before) && quad_removed(h, x, after) && waits(before) == waits(after)
}

/// Whether `seat`, whose turn it is, may declare a concealed quad of the
/// kind of slot `k`: the hand is shown and holds four tiles of the kind,
/// a tile can still be drawn, the quad is legal on the stage, and it
/// leaves the waits of a hand in riichi as they were.
pub open spec fn may_ankan(stg: Stage, seat: Seat, k: int) -> bool {
    let p = stg.players[seat as int];
    let x = slot_tile(k);
    &&& x.1 != 0
    &&& x.is_known()
    &&& p.is_shown
    &&& p.hand[x.0 as int][x.1 as int] >= 4
    &&& wall_left(stg) >= 1
    &&& ankan_legal(stg, seat, quad_of(p.hand, k))
    &&& p.riichi is Some ==> p.drawn is Some && p.drawn->0.is_valid() && quad_keeps_waits(
        p.hand,
        p.drawn->0,
        x,
    )
}

/// The quads of the kinds of the slots before slot `k` that `seat` may
/// declare.
pub open spec fn ankans_before(stg: Stage, seat: Seat, k: int) -> Seq<Seq<Tile>>
    decreases k,
{
    if k <= 0 {
        Seq::empty()
    } else {
        let before = ankans_before(stg, seat, k - 1);
        if may_ankan(stg, seat, k - 1) {
            before.push(quad_of(stg.players[seat as int].hand, k - 1))
        } else {
            before
        }
    }
}

/// Two tables that are a hand without a quad are one table.
pub proof fn lemma_quad_removed_unique(h: TileTable, x: Tile, a: TileTable, b: TileTable)
    requires
        quad_removed(h, x, a),
        quad_removed(h, x, b),
    ensures
        a == b,
{
    assert forall|t: int| 0 <= t < TYPE implies a[t] == b[t] by {
        assert forall|n: int| 0 <= n < TNUM implies a[t][n] == b[t][n] by {
            assert(a[t][n] == if t == x.0 && n == x.1 {
                h[t][n] - 4
            } else if t == x.0 && n == 0 && x.1 == 5 {
                0
            } else {
                h[t][n] as int
            });
        }
        assert(a[t] =~= b[t]);
    }
    assert(a =~= b);
}

fn keeps_waits(h: &TileTable, d: Tile, x: Tile) -> (r: bool)
    requires
        table_bounded(*h),
        forall|t: int| 0 <= t < TYPE ==> (#[trigger] h[t])[0] <= h[t][5],
        crate::model::tile::hand_total(*h) <= 14,
        d.is_valid(),
        table_has(*h, d),
        x.is_known(),
        x.1 != 0,
        h[x.0 as int][x.1 as int] >= 4,
    ensures
        r == quad_keeps_waits(*h, d, x),
{
    if d.to_normal() != x {
        return false;
    }
    let mut before = *h;
    remove_tile(&mut before, d);
    proof {
        crate::controller::reducer::lemma_hand_after_removal(*h, d, before);
        crate::model::tile::lemma_small_hand_is_roomy(before);
    }
    let mut after = *h;
    after[x.0][x.1] -= 4;
    if x.1 == 5 {
        after[x.0][0] = 0;
    }
    proof {
        assert(quad_removed(*h, x, after));
        assert forall|t: int, n: int| 0 <= t < TYPE && 0 <= n < TNUM implies (
        #[trigger] after[t][n]) < crate::model::tile::SLOT_MAX by {
            if t == x.0 && n == x.1 {
                crate::model::tile::lemma_slot_at_most_total(*h, t, n);
            } else if n >= 1 {
                crate::model::tile::lemma_two_slots_at_most_total(
                    *h,
                    t,
                    n,
                    x.0 as int,
                    x.1 as int,
                );
            } else if t == x.0 && x.1 == 5 {
            } else {
                assert(h[t][0] <= h[t][5]);
                crate::model::tile::lemma_two_slots_at_most_total(
                    *h,
                    t,
                    5,
                    x.0 as int,
                    x.1 as int,
                );
            }
        }
    }
    let a = winning_tiles(&before);
    let b = winning_tiles(&after);
    let same = same_tiles(&a, &b);
    proof {
        if !same {
            assert forall|p: TileTable, q: TileTable|
                tile_removed(*h, d, p) && quad_removed(*h, x, q) implies waits(p) != waits(q) by {
                lemma_removed_unique(*h, d, before, p);
                lemma_quad_removed_unique(*h, x, after, q);
            }
        }
    }
    same
}

fn same_tiles(a: &Vec<Tile>, b: &Vec<Tile>) -> (r: bool)
    ensures
        r == (a@ == b@),
{
    if a.len() != b.len() {
        return false;
    }
    let mut i: usize = 0;
    while i < a.len()
        invariant
            i <= a.len(),
            a.len() == b.len(),
            forall|k: int| 0 <= k < i ==> a@[k] == b@[k],
        decreases a.len() - i,
    {
        if a[i] != b[i] {
            return false;
        }
        i += 1;
    }
    assert(a@ =~= b@);
    true
}

/// The four tiles of the kind of slot `k` that a hand gives for a quad.
fn quad_tiles(h: &TileTable, k: usize) -> (r: Vec<Tile>)
    requires
        k < 40,
    ensures
        r@ == quad_of(*h, k as int),
{
    let x = Tile(k / 10, k % 10);
    let last = if x.0 != TZ && x.1 == 5 && h[x.0][0] >= 1 {
        Tile(x.0, 0)
    } else {
        x
    };
    let r: Vec<Tile> = vec![x, x, x, last];
    assert(r@ =~= quad_of(*h, k as int));
    r
}

/// Whether `seat`, whose turn it is, may declare a concealed quad of the
/// kind of slot `k`.
pub fn can_conceal(stg: &Stage, seat: Seat, k: usize) -> (r: bool)
    requires
        stg.wf(),
        seat < SEAT,
        k < 40,
    ensures
        r == may_ankan(*stg, seat, k as int),
{
    let p = &stg.players[seat];
    assert(p.wf());
    let x = Tile(k / 10, k % 10);
    let known = x.1 != 0 && (if x.0 < TZ {
        true
    } else {
        x.1 < UK
    });
    if !(known && p.is_shown && p.hand[x.0][x.1] >= 4 && count_wall(stg) >= 1) {
        return false;
    }
    let e = EventMeld { seat, meld_type: MeldType::Ankan, consumed: quad_tiles(&p.hand, k) };
    if !can_ankan(stg, &e) {
        return false;
    }
    match p.riichi {
        Some(_) => match p.drawn {
            Some(d) => {
                assert(p.size() == 14);
                crate::controller::reducer::is_valid_tile(d) && keeps_waits(&p.hand, d, x)
            },
            None => false,
        },
        None => true,
    }
}

/// The tile that a hand gives to promote the pon: a plain tile of its
/// kind where the hand holds one, else the red five of its kind.
pub open spec fn kakan_tile(h: TileTable, m: Meld) -> Option<Tile> {
    let x = m.tiles[0].spec_to_normal();
    if table_has(h, x) {
        Some(x)
    } else if x.0 != TZ && x.1 == 5 && table_has(h, Tile(x.0, 0)) {
        Some(Tile(x.0, 0))
    } else {
        None
    }
}

/// Whether `seat`, whose turn it is, may promote its meld at `i`: the
/// meld is a pon, the hand is shown, not in riichi, and holds a tile of
/// the kind, a tile can still be drawn, and the promotion is legal.
pub open spec fn may_kakan(stg: Stage, seat: Seat, i: int) -> bool {
    let p = stg.players[seat as int];
    &&& 0 <= i < p.melds.len()
    &&& p.melds[i].type_ == MeldType::Pon
    &&& p.is_shown
    &&& p.riichi is None
    &&& wall_left(stg) >= 1
    &&& kakan_tile(p.hand, p.melds[i]) matches Some(x) && kakan_legal(stg, seat, seq![x])
}

/// The promotions of the first `n` melds that `seat` may declare.
pub open spec fn kakans_before(stg: Stage, seat: Seat, n: int) -> Seq<Seq<Tile>>
    decreases n,
{
    if n <= 0 {
        Seq::empty()
    } else {
        let before = kakans_before(stg, seat, n - 1);
        if may_kakan(stg, seat, n - 1) {
            before.push(seq![kakan_tile(stg.players[seat as int].hand, stg.players[seat as int].melds[n - 1])->0])
        } else {
            before
        }
    }
}

/// The tile with which `seat`, whose turn it is, may promote its meld at
/// `i`, if it may.
pub fn can_promote(stg: &Stage, seat: Seat, i: usize) -> (r: Option<Tile>)
    requires
        stg.wf(),
        seat < SEAT,
        i < stg.players[seat as int].melds.len(),
    ensures
        r is Some == may_kakan(*stg, seat, i as int),
        r matches Some(x) ==> kakan_tile(
            stg.players[seat as int].hand,
            stg.players[seat as int].melds[i as int],
        ) == Some(x),
{
    let p = &stg.players[seat];
    assert(p.wf());
    let m = &p.melds[i];
    assert(m.wf());
    let pon = match m.type_ {
        MeldType::Pon => true,
        _ => false,
    };
    if !(pon && p.is_shown && p.riichi.is_none() && count_wall(stg) >= 1) {
        return None;
    }
    assert(m.tiles[0].is_known());
    let x = m.tiles[0].to_normal();
    let give = if has_tile(&p.hand, x) {
        x
    } else if x.0 != TZ && x.1 == 5 && has_tile(&p.hand, Tile(x.0, 0)) {
        Tile(x.0, 0)
    } else {
        return None;
    };
    let consumed: Vec<Tile> = vec![give];
    assert(consumed@ =~= seq![give]);
    let e = EventMeld { seat, meld_type: MeldType::Kakan, consumed };
    if can_kakan(stg, &e) {
        Some(give)
    } else {
        None
    }
}

/// The tiles from the hand with which the tile `t` can be called, by the
/// kind of call, in the order in which they are offered: for a pon two
/// tiles of the kind, for a quad three, for a chi the two tiles below,
/// around or above; each followed by the same with the red five in
/// place of a five, where a five is among them.
pub open spec fn call_options(t: Tile) -> Seq<(MeldType, Seq<Tile>)> {
    let s = t.0;
    let n = t.normal_rank() as usize;
    let x = Tile(s, n);
    let suited = s != TZ;
    let red = Tile(s, 0);
    option_if(true, MeldType::Pon, seq![x, x]) + option_if(
        suited && n == 5,
        MeldType::Pon,
        seq![red, x],
    ) + option_if(true, MeldType::Minkan, seq![x, x, x]) + option_if(
        suited && n == 5,
        MeldType::Minkan,
        seq![red, x, x],
    ) + chi_options(s, n as int - 2, n as int - 1) + chi_options(s, n as int - 1, n as int + 1)
        + chi_options(s, n as int + 1, n as int + 2)
}

/// The option where `b` holds, else nothing.
pub open spec fn option_if(b: bool, tp: MeldType, tiles: Seq<Tile>) -> Seq<(MeldType, Seq<Tile>)> {
    if b {
        seq![(tp, tiles)]
    } else {
        Seq::empty()
    }
}

/// The tile of rank `r` of suit `s` as it is taken for a chi: the red
/// five where `red` holds and the rank is five.
pub open spec fn chi_tile(s: usize, r: int, red: bool) -> Tile {
    if red && r == 5 {
        Tile(s, 0)
    } else {
        Tile(s, r as usize)
    }
}

/// The chi with the tiles of the ranks `a` and `b` of suit `s`, where
/// both are ranks of a suit; and the same with the red five, where one
/// of them is a five.
pub open spec fn chi_options(s: usize, a: int, b: int) -> Seq<(MeldType, Seq<Tile>)> {
    let fits = s != TZ && 1 <= a && b <= 9;
    option_if(fits, MeldType::Chi, seq![chi_tile(s, a, false), chi_tile(s, b, false)]) + option_if(
        fits && (a == 5 || b == 5),
        MeldType::Chi,
        seq![chi_tile(s, a, true), chi_tile(s, b, true)],
    )
}

/// Whether `seat` may call the tile that was discarded last with the
/// tiles from its hand: the hand is shown and not in riichi, a tile can
/// still be drawn, a chi is called by the seat next to the discarder,
/// and the call is legal on the stage.
pub open spec fn may_call(stg: Stage, seat: Seat, tp: MeldType, tiles: Seq<Tile>) -> bool {
    let p = stg.players[seat as int];
    &&& p.is_shown
    &&& p.hand[TZ as int][UK as int] == 0
    &&& p.riichi is None
    &&& wall_left(stg) >= 1
    &&& stg.last_tile matches Some((d, ActionType::Discard, _)) && (tp == MeldType::Chi ==> seat == (d
        + 1) % (SEAT as int))
    &&& call_legal(stg, seat, tp, tiles)
}

/// The first `n` of the options with which `seat` may call.
pub open spec fn calls_before(
    stg: Stage,
    seat: Seat,
    options: Seq<(MeldType, Seq<Tile>)>,
    n: int,
) -> Seq<(MeldType, Seq<Tile>)>
    decreases n,
{
    if n <= 0 {
        Seq::empty()
    } else {
        let before = calls_before(stg, seat, options, n - 1);
        if may_call(stg, seat, options[n - 1].0, options[n - 1].1) {
            before.push(options[n - 1])
        } else {
            before
        }
    }
}

/// Kind and tiles of each option.
pub open spec fn options_view(v: Seq<(MeldType, Vec<Tile>)>) -> Seq<(MeldType, Seq<Tile>)> {
    Seq::new(v.len(), |i: int| (v[i].0, v[i].1@))
}

fn push_option(v: &mut Vec<(MeldType, Vec<Tile>)>, b: bool, tp: MeldType, tiles: Vec<Tile>)
    ensures
        options_view(final(v)@) == options_view(old(v)@) + option_if(b, tp, tiles@),
{
    if b {
        v.push((tp, tiles));
        assert(options_view(v@) =~= options_view(old(v)@) + option_if(b, tp, tiles@));
    } else {
        assert(options_view(v@) =~= options_view(old(v)@) + option_if(b, tp, tiles@));
    }
}

fn tile_for_chi(s: usize, r: usize, red: bool) -> (t: Tile)
    ensures
        t == chi_tile(s, r as int, red),
{
    if red && r == 5 {
        Tile(s, 0)
    } else {
        Tile(s, r)
    }
}

fn push_chi(v: &mut Vec<(MeldType, Vec<Tile>)>, s: usize, a: isize, b: isize)
    requires
        -2 <= a < b <= 12,
    ensures
        options_view(final(v)@) == options_view(old(v)@) + chi_options(s, a as int, b as int),
{
    let fits = s != TZ && 1 <= a && b <= 9;
    if fits && b >= 0 {
        let plain: Vec<Tile> = vec![tile_for_chi(s, a as usize, false), tile_for_chi(s, b as usize, false)];
        assert(plain@ =~= seq![chi_tile(s, a as int, false), chi_tile(s, b as int, false)]);
        push_option(v, true, MeldType::Chi, plain);
        let red: Vec<Tile> = vec![tile_for_chi(s, a as usize, true), tile_for_chi(s, b as usize, true)];
        assert(red@ =~= seq![chi_tile(s, a as int, true), chi_tile(s, b as int, true)]);
        push_option(v, a == 5 || b == 5, MeldType::Chi, red);
        assert(options_view(v@) =~= options_view(old(v)@) + chi_options(s, a as int, b as int));
    } else {
        assert(options_view(v@) =~= options_view(old(v)@) + chi_options(s, a as int, b as int));
    }
}

/// The tiles from the hand with which the tile `t` can be called.
pub fn list_options(t: Tile) -> (v: Vec<(MeldType, Vec<Tile>)>)
    requires
        t.in_table(),
    ensures
        options_view(v@) == call_options(t),
{
    let s = t.0;
    let n = t.to_normal().1;
    let x = Tile(s, n);
    let suited = s != TZ;
    let red = Tile(s, 0);
    let mut v: Vec<(MeldType, Vec<Tile>)> = Vec::new();
    assert(options_view(v@) =~= Seq::<(MeldType, Seq<Tile>)>::empty());
    let a: Vec<Tile> = vec![x, x];
    assert(a@ =~= seq![x, x]);
    push_option(&mut v, true, MeldType::Pon, a);
    let b: Vec<Tile> = vec![red, x];
    assert(b@ =~= seq![red, x]);
    push_option(&mut v, suited && n == 5, MeldType::Pon, b);
    let c: Vec<Tile> = vec![x, x, x];
    assert(c@ =~= seq![x, x, x]);
    push_option(&mut v, true, MeldType::Minkan, c);
    let d: Vec<Tile> = vec![red, x, x];
    assert(d@ =~= seq![red, x, x]);
    push_option(&mut v, suited && n == 5, MeldType::Minkan, d);
    let m = n as isize;
    push_chi(&mut v, s, m - 2, m - 1);
    push_chi(&mut v, s, m - 1, m + 1);
    push_chi(&mut v, s, m + 1, m + 2);
    proof {
        assert(options_view(v@) =~= call_options(t));
    }
    v
}

/// Whether `seat` may call the tile that was discarded last with the
/// tiles from its hand.
pub fn can_take(stg: &Stage, seat: Seat, tp: MeldType, tiles: &Vec<Tile>) -> (r: bool)
    requires
        stg.wf(),
        seat < SEAT,
    ensures
        r == may_call(*stg, seat, tp, tiles@),
{
    let p = &stg.players[seat];
    assert(p.wf());
    let next = match stg.last_tile {
        Some((d, ActionType::Discard, _)) => match tp {
            MeldType::Chi => seat == (d + 1) % SEAT,
            _ => true,
        },
        _ => false,
    };
    if !(next && p.is_shown && p.hand[TZ][UK] == 0 && p.riichi.is_none() && count_wall(stg) >= 1) {
        return false;
    }
    let e = EventMeld { seat, meld_type: tp, consumed: copy_tiles(tiles) };
    can_call(stg, &e)
}

/// The action where `b` holds, else nothing.
pub open spec fn action_if(b: bool, tp: ActionType, tiles: Seq<Tile>) -> Seq<(ActionType, Seq<Tile>)> {
    if b {
        seq![(tp, tiles)]
    } else {
        Seq::empty()
    }
}

/// One action of the kind `tp` for each list of tiles.
pub open spec fn action_each(tp: ActionType, lists: Seq<Seq<Tile>>) -> Seq<(ActionType, Seq<Tile>)> {
    Seq::new(lists.len(), |i: int| (tp, lists[i]))
}

/// The actions of the player whose turn it is: the discard, with the
/// tiles that may be discarded; the win by tsumo; the riichi, with the
/// tiles that may be discarded with it; the concealed quads; the
/// promotions of a pon; and the end of the round for nine kinds of
/// terminals and honors.
pub open spec fn turn_actions(stg: Stage) -> Seq<(ActionType, Seq<Tile>)> {
    let seat = stg.turn;
    let p = stg.players[seat as int];
    seq![(ActionType::Discard, discards_before(stg, seat, 40))] + action_if(
        tsumo_of(stg, seat) is Some,
        ActionType::Tsumo,
        Seq::empty(),
    ) + action_if(
        riichis_before(stg, seat, 40).len() > 0,
        ActionType::Riichi,
        riichis_before(stg, seat, 40),
    ) + action_each(ActionType::Ankan, ankans_before(stg, seat, 40)) + action_each(
        ActionType::Kakan,
        kakans_before(stg, seat, p.melds.len() as int),
    ) + action_if(may_abort(stg, seat), ActionType::Kyushukyuhai, Seq::empty())
}

fn push_act(acts: &mut Vec<Action>, b: bool, tp: ActionType, tiles: Vec<Tile>)
    ensures
        actions_view(final(acts)@) == actions_view(old(acts)@) + action_if(b, tp, tiles@),
{
    if b {
        acts.push(Action(tp, tiles));
    }
    assert(actions_view(acts@) =~= actions_view(old(acts)@) + action_if(b, tp, tiles@));
}

/// The actions of the player whose turn it is.
pub fn calc_possible_turn_actions(stg: &Stage) -> (acts: Vec<Action>)
    requires
        stg.wf(),
    ensures
        actions_view(acts@) == turn_actions(*stg),
{
    let seat = stg.turn;
    let p = &stg.players[seat];
    let mut acts: Vec<Action> = Vec::new();
    assert(actions_view(acts@) =~= Seq::<(ActionType, Seq<Tile>)>::empty());
    push_act(&mut acts, true, ActionType::Discard, list_discards(stg, seat));
    push_act(&mut acts, can_tsumo(stg, seat), ActionType::Tsumo, Vec::new());
    let riichis = list_riichis(stg, seat);
    let any = riichis.len() > 0;
    push_act(&mut acts, any, ActionType::Riichi, riichis);
    let ghost head = actions_view(acts@);
    let mut k: usize = 0;
    proof {
        assert(actions_view(acts@) =~= head + action_each(
            ActionType::Ankan,
            ankans_before(*stg, seat, 0),
        ));
    }
    while k < 40
        invariant
            k <= 40,
            stg.wf(),
            seat < SEAT,
            p == &stg.players[seat as int],
            actions_view(acts@) == head + action_each(
                ActionType::Ankan,
                ankans_before(*stg, seat, k as int),
            ),
        decreases 40 - k,
    {
        if can_conceal(stg, seat, k) {
            let ghost before = actions_view(acts@);
            acts.push(Action(ActionType::Ankan, quad_tiles(&p.hand, k)));
            assert(actions_view(acts@) =~= before.push(
                (ActionType::Ankan, quad_of(p.hand, k as int)),
            ));
            assert(actions_view(acts@) =~= head + action_each(
                ActionType::Ankan,
                ankans_before(*stg, seat, k + 1),
            ));
        } else {
            assert(ankans_before(*stg, seat, k + 1) == ankans_before(*stg, seat, k as int));
        }
        k += 1;
    }
    let ghost mid = actions_view(acts@);
    let mut i: usize = 0;
    proof {
        assert(actions_view(acts@) =~= mid + action_each(
            ActionType::Kakan,
            kakans_before(*stg, seat, 0),
        ));
    }
    while i < p.melds.len()
        invariant
            i <= p.melds.len(),
            stg.wf(),
            seat < SEAT,
            p == &stg.players[seat as int],
            actions_view(acts@) == mid + action_each(
                ActionType::Kakan,
                kakans_before(*stg, seat, i as int),
            ),
        decreases p.melds.len() - i,
    {
        match can_promote(stg, seat, i) {
            Some(x) => {
                let ghost before = actions_view(acts@);
                let one: Vec<Tile> = vec![x];
                assert(one@ =~= seq![x]);
                acts.push(Action(ActionType::Kakan, one));
                assert(actions_view(acts@) =~= before.push((ActionType::Kakan, seq![x])));
                assert(actions_view(acts@) =~= mid + action_each(
                    ActionType::Kakan,
                    kakans_before(*stg, seat, i + 1),
                ));
            },
            None => {
                assert(kakans_before(*stg, seat, i + 1) == kakans_before(*stg, seat, i as int));
            },
        }
        i += 1;
    }
    push_act(&mut acts, can_abort(stg, seat), ActionType::Kyushukyuhai, Vec::new());
    acts
}

/// The action that is a call of the kind `tp`.
pub open spec fn call_kind(tp: MeldType) -> ActionType {
    match tp {
        MeldType::Chi => ActionType::Chi,
        MeldType::Pon => ActionType::Pon,
        _ => ActionType::Minkan,
    }
}

/// Each call as an action.
pub open spec fn call_each(calls: Seq<(MeldType, Seq<Tile>)>) -> Seq<(ActionType, Seq<Tile>)> {
    Seq::new(calls.len(), |i: int| (call_kind(calls[i].0), calls[i].1))
}

/// The actions of `seat` on the tile that can be won or called: none for
/// the seat whose tile it is, and for any other seat to pass, to win by
/// ron, and the calls. The tile of a promoted pon can be won only.
pub open spec fn call_actions(stg: Stage, seat: Seat) -> Seq<(ActionType, Seq<Tile>)> {
    match stg.last_tile {
        Some((d, _, t)) => if d == seat {
            Seq::empty()
        } else {
            seq![(ActionType::Nop, Seq::<Tile>::empty())] + action_if(
                ron_of(stg, seat) is Some,
                ActionType::Ron,
                Seq::empty(),
            ) + call_each(
                calls_before(stg, seat, call_options(t), call_options(t).len() as int),
            )
        },
        None => Seq::empty(),
    }
}

/// The actions of `seat` on the tile that can be won or called.
pub fn list_call_actions(stg: &Stage, seat: Seat) -> (acts: Vec<Action>)
    requires
        stg.wf(),
        seat < SEAT,
    ensures
        actions_view(acts@) == call_actions(*stg, seat),
{
    let mut acts: Vec<Action> = Vec::new();
    assert(actions_view(acts@) =~= Seq::<(ActionType, Seq<Tile>)>::empty());
    match stg.last_tile {
        Some((d, _, t)) => {
            if d == seat {
                return acts;
            }
            push_act(&mut acts, true, ActionType::Nop, Vec::new());
            push_act(&mut acts, can_ron(stg, seat), ActionType::Ron, Vec::new());
            let options = list_options(t);
            let ghost ov = call_options(t);
            let ghost head = actions_view(acts@);
            let mut i: usize = 0;
            proof {
                assert(actions_view(acts@) =~= head + call_each(calls_before(*stg, seat, ov, 0)));
            }
            while i < options.len()
                invariant
                    i <= options.len(),
                    stg.wf(),
                    seat < SEAT,
                    ov == options_view(options@),
                    actions_view(acts@) == head + call_each(calls_before(*stg, seat, ov, i as int)),
                decreases options.len() - i,
            {
                let tp = options[i].0;
                assert(ov[i as int] == (tp, options[i as int].1@));
                if can_take(stg, seat, tp, &options[i].1) {
                    let kind = match tp {
                        MeldType::Chi => ActionType::Chi,
                        MeldType::Pon => ActionType::Pon,
                        _ => ActionType::Minkan,
                    };
                    let ghost before = actions_view(acts@);
                    acts.push(Action(kind, copy_tiles(&options[i].1)));
                    assert(actions_view(acts@) =~= before.push((kind, options[i as int].1@)));
                    assert(actions_view(acts@) =~= head + call_each(
                        calls_before(*stg, seat, ov, i + 1),
                    ));
                } else {
                    assert(calls_before(*stg, seat, ov, i + 1) == calls_before(
                        *stg,
                        seat,
                        ov,
                        i as int,
                    ));
                }
                i += 1;
            }
            acts
        },
        None => acts,
    }
}

/// The actions of every seat on the tile that can be won or called.
pub fn calc_possible_call_actions(stg: &Stage) -> (acts: [Vec<Action>; SEAT])
    requires
        stg.wf(),
    ensures
        forall|s: int|
            0 <= s < SEAT ==> actions_view((#[trigger] acts[s])@) == call_actions(*stg, s as usize),
{
    [
        list_call_actions(stg, 0),
        list_call_actions(stg, 1),
        list_call_actions(stg, 2),
        list_call_actions(stg, 3),
    ]
}

} // verus!
