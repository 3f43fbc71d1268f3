//! What holds of the stage at every step of a round.

use crate::controller::reducer::{
    ankan_applied, call_applied, event_applied, kakan_applied, player_blank, player_dealt,
    player_discarded, player_drew, player_settled, remains_ok, states_view, TileStates,
};
use crate::model::define::{SEAT, TILE, TNUM, TYPE};
use crate::model::event::Event;
use crate::model::meld::{melds_view, MeldType};
use crate::model::player::Player;
use crate::model::stage::{all_tiles, hidden_copies, Stage};
use crate::model::tile::{table_view, tile_weight, TileTable};
use vstd::prelude::*;

verus! {

/// No tile is lost and none appears: the tiles in the wall, in the
/// hands, in the melds, in the rivers and open as dora indicators are
/// all the tiles there are, and of every tile as many copies remain as
/// are not yet placed openly.
pub proof fn lemma_tiles_conserved(stg: Stage)
    requires
        stg.wf(),
    ensures
        stg.left_tile_count + stg.tiles_held() + stg.doras.len() == all_tiles(),
        forall|t: int, n: int|
            0 <= t < TYPE && 0 <= n < TNUM ==> (#[trigger] stg.tile_remains[t][n]) == hidden_copies(
                stg.tile_states[t][n],
            ),
{
}

/// Every player holds thirteen tiles, melds counted as three, but the
/// player whose turn it is, who may hold fourteen. A player who has a
/// drawn tile holds fourteen, the drawn tile among them.
pub proof fn lemma_hand_sizes(stg: Stage, s: int)
    requires
        stg.wf(),
        0 <= s < SEAT,
    ensures
        stg.players[s].size() == 13 || stg.players[s].size() == 14,
        s != stg.turn ==> stg.players[s].size() == 13,
        stg.players[s].drawn is Some ==> stg.players[s].size() == 14,
        stg.players[s].melds.len() <= 4,
{
    assert(stg.players[s].wf());
}

/// Furiten by riichi lasts: no event but the start of a round or of a
/// game takes it from a player.
pub proof fn lemma_riichi_furiten_lasts(pre: Stage, ev: Event, post: Stage, s: int)
    requires
        event_applied(pre, ev, post),
        !(ev is New),
        !(ev is Begin),
        0 <= s < SEAT,
        pre.players[s].is_riichi_furiten,
    ensures
        post.players[s].is_riichi_furiten,
{
    match ev {
        Event::Meld(e) => {
            match e.meld_type {
                MeldType::Chi | MeldType::Pon | MeldType::Minkan => {
                    assert(call_applied(pre, e, post));
                },
                MeldType::Kakan => {
                    assert(kakan_applied(pre, e, post));
                },
                MeldType::Ankan => {
                    assert(ankan_applied(pre, e, post));
                },
            }
        },
        _ => {},
    }
}

/// Furiten in riichi lasts: a player who has declared riichi and is
/// furiten stays both through every event but the start of a round or of
/// a game.
pub proof fn lemma_furiten_in_riichi_lasts(pre: Stage, ev: Event, post: Stage, s: int)
    requires
        event_applied(pre, ev, post),
        !(ev is New),
        !(ev is Begin),
        0 <= s < SEAT,
        pre.players[s].riichi is Some,
        pre.players[s].is_furiten,
    ensures
        post.players[s].riichi is Some,
        post.players[s].is_furiten,
{
    match ev {
        Event::Meld(e) => {
            match e.meld_type {
                MeldType::Chi | MeldType::Pon | MeldType::Minkan => {
                    assert(call_applied(pre, e, post));
                },
                MeldType::Kakan => {
                    assert(kakan_applied(pre, e, post));
                },
                MeldType::Ankan => {
                    assert(ankan_applied(pre, e, post));
                },
            }
        },
        _ => {},
    }
}

/// Whether the two players are the same in every field.
pub open spec fn same_player(a: Player, b: Player) -> bool {
    &&& a.seat == b.seat
    &&& a.score == b.score
    &&& table_view(a.hand) == table_view(b.hand)
    &&& a.drawn == b.drawn
    &&& melds_view(a.melds@) == melds_view(b.melds@)
    &&& a.discards@ == b.discards@
    &&& a.riichi == b.riichi
    &&& a.is_shown == b.is_shown
    &&& a.is_furiten == b.is_furiten
    &&& a.is_riichi_furiten == b.is_riichi_furiten
    &&& a.is_nagashi == b.is_nagashi
    &&& a.is_ippatsu == b.is_ippatsu
    &&& a.kita_count == b.kita_count
}

/// Whether the two stages are the same in every field.
pub open spec fn same_stage(a: Stage, b: Stage) -> bool {
    &&& a.round == b.round
    &&& a.kyoku == b.kyoku
    &&& a.honba == b.honba
    &&& a.kyoutaku == b.kyoutaku
    &&& a.turn == b.turn
    &&& a.step == b.step
    &&& a.left_tile_count == b.left_tile_count
    &&& a.doras@ == b.doras@
    &&& a.discards@ == b.discards@
    &&& a.last_tile == b.last_tile
    &&& a.last_riichi == b.last_riichi
    &&& forall|s: int| 0 <= s < SEAT ==> same_player(#[trigger] a.players[s], b.players[s])
    &&& a.is_3p == b.is_3p
    &&& states_view(a.tile_states) == states_view(b.tile_states)
    &&& table_view(a.tile_remains) == table_view(b.tile_remains)
}

/// Tables that hold the same in every slot are the same table.
pub proof fn lemma_tables_equal(a: TileTable, b: TileTable)
    requires
        forall|t: int, n: int| 0 <= t < TYPE && 0 <= n < TNUM ==> a[t][n] == b[t][n],
    ensures
        a == b,
        table_view(a) == table_view(b),
{
    assert forall|t: int| 0 <= t < TYPE implies a[t] == b[t] by {
        assert(a[t] =~= b[t]);
    }
    assert(a =~= b);
}

/// States that are the same for every copy are the same states.
pub proof fn lemma_states_equal(a: TileStates, b: TileStates)
    requires
        forall|t: int, n: int, i: int|
            0 <= t < TYPE && 0 <= n < TNUM && 0 <= i < TILE ==> a[t][n][i] == b[t][n][i],
    ensures
        a == b,
        states_view(a) == states_view(b),
{
    assert forall|t: int| 0 <= t < TYPE implies a[t] == b[t] by {
        assert forall|n: int| 0 <= n < TNUM implies a[t][n] == b[t][n] by {
            assert(a[t][n] =~= b[t][n]);
        }
        assert(a[t] =~= b[t]);
    }
    assert(a =~= b);
}

/// States with the same view are the same for every copy.
pub proof fn lemma_states_of_view(a: TileStates, b: TileStates)
    requires
        states_view(a) == states_view(b),
    ensures
        a == b,
{
    assert forall|t: int, n: int, i: int|
        0 <= t < TYPE && 0 <= n < TNUM && 0 <= i < TILE implies a[t][n][i] == b[t][n][i] by {
        assert(states_view(a)[t][n][i] == a[t][n][i]);
        assert(states_view(b)[t][n][i] == b[t][n][i]);
    }
    lemma_states_equal(a, b);
}

/// Remaining counts that both follow the same states are the same.
pub proof fn lemma_remains_follow(a: Stage, b: Stage)
    requires
        remains_ok(a),
        remains_ok(b),
        a.tile_states == b.tile_states,
    ensures
        a.tile_remains == b.tile_remains,
{
    assert forall|t: int, n: int| 0 <= t < TYPE && 0 <= n < TNUM implies a.tile_remains[t][n]
        == b.tile_remains[t][n] by {
        assert(a.tile_remains[t][n] == hidden_copies(a.tile_states[t][n]));
        assert(b.tile_remains[t][n] == hidden_copies(b.tile_states[t][n]));
    }
    lemma_tables_equal(a.tile_remains, b.tile_remains);
}

/// The stage that an event makes of a stage is one stage: two stages
/// that both are what the event makes of it are the same in every field.
pub proof fn lemma_event_result_unique(pre: Stage, ev: Event, a: Stage, b: Stage)
    requires
        event_applied(pre, ev, a),
        event_applied(pre, ev, b),
    ensures
        same_stage(a, b),
{
    match ev {
        Event::Begin(_) => {
            assert forall|s: int| 0 <= s < SEAT implies same_player(
                #[trigger] a.players[s],
                b.players[s],
            ) by {
                assert(player_blank(s as usize, a.players[s]));
                assert(player_blank(s as usize, b.players[s]));
                lemma_tables_equal(a.players[s].hand, b.players[s].hand);
                assert(a.players[s].melds@ =~= b.players[s].melds@);
                assert(a.players[s].discards@ =~= b.players[s].discards@);
            }
            assert(a.doras@ =~= b.doras@);
            assert(a.discards@ =~= b.discards@);
            lemma_states_of_view(a.tile_states, b.tile_states);
            lemma_remains_follow(a, b);
        },
        Event::New(e) => {
            assert forall|s: int| 0 <= s < SEAT implies same_player(
                #[trigger] a.players[s],
                b.players[s],
            ) by {
                assert(player_dealt(s as usize, e.scores[s], e.hands[s]@, a.players[s]));
                assert(player_dealt(s as usize, e.scores[s], e.hands[s]@, b.players[s]));
                lemma_tables_equal(a.players[s].hand, b.players[s].hand);
                assert(a.players[s].melds@ =~= b.players[s].melds@);
                assert(a.players[s].discards@ =~= b.players[s].discards@);
            }
            assert(a.discards@ =~= b.discards@);
            lemma_states_of_view(a.tile_states, b.tile_states);
            lemma_remains_follow(a, b);
        },
        Event::Deal(e) => {
            assert forall|s: int| 0 <= s < SEAT implies same_player(
                #[trigger] a.players[s],
                b.players[s],
            ) by {
                if s == e.seat {
                    assert(player_drew(pre, s, e.tile, a.players[s]));
                    assert(player_drew(pre, s, e.tile, b.players[s]));
                    assert forall|t: int, n: int| 0 <= t < TYPE && 0 <= n < TNUM implies a.players[s].hand[t][n]
                        == b.players[s].hand[t][n] by {
                        assert(a.players[s].hand[t][n] == pre.players[s].hand[t][n] + tile_weight(
                            e.tile,
                            t,
                            n,
                        ));
                        assert(b.players[s].hand[t][n] == pre.players[s].hand[t][n] + tile_weight(
                            e.tile,
                            t,
                            n,
                        ));
                    }
                    lemma_tables_equal(a.players[s].hand, b.players[s].hand);
                } else {
                    assert(player_settled(pre, s, a.players[s]));
                    assert(player_settled(pre, s, b.players[s]));
                }
            }
            assert forall|t: int, n: int, i: int|
                0 <= t < TYPE && 0 <= n < TNUM && 0 <= i < TILE implies a.tile_states[t][n][i]
                == b.tile_states[t][n][i] by {}
            lemma_states_equal(a.tile_states, b.tile_states);
        },
        Event::Discard(e) => {
            let s = e.seat as int;
            assert(0 <= s < SEAT ==> true);
            assert forall|k: int| 0 <= k < SEAT implies same_player(
                #[trigger] a.players[k],
                b.players[k],
            ) by {
                if k == s {
                    let pa = a.players[k];
                    let pb = b.players[k];
                    assert(player_discarded(pre.players[k], pre.step, e, pa));
                    assert(player_discarded(pre.players[k], pre.step, e, pb));
                    assert forall|t: int, n: int| 0 <= t < TYPE && 0 <= n < TNUM implies pa.hand[t][n]
                        == pb.hand[t][n] by {
                        let g = crate::controller::reducer::given_tile(pre.players[k].hand, e.tile);
                        assert(pa.hand[t][n] == pre.players[k].hand[t][n] - tile_weight(g, t, n));
                        assert(pb.hand[t][n] == pre.players[k].hand[t][n] - tile_weight(g, t, n));
                    }
                    lemma_tables_equal(pa.hand, pb.hand);
                }
            }
            assert forall|t: int, n: int, i: int|
                0 <= t < TYPE && 0 <= n < TNUM && 0 <= i < TILE implies a.tile_states[t][n][i]
                == b.tile_states[t][n][i] by {}
            lemma_states_equal(a.tile_states, b.tile_states);
            assert forall|t: int, n: int| 0 <= t < TYPE && 0 <= n < TNUM implies a.tile_remains[t][n]
                == b.tile_remains[t][n] by {}
            lemma_tables_equal(a.tile_remains, b.tile_remains);
        },
        Event::Meld(e) => {
            match e.meld_type {
                MeldType::Chi | MeldType::Pon | MeldType::Minkan => {
                    assert(call_applied(pre, e, a));
                    assert(call_applied(pre, e, b));
                    lemma_states_of_view(a.tile_states, b.tile_states);
                    lemma_remains_follow(a, b);
                    assert forall|k: int| 0 <= k < SEAT implies same_player(
                        #[trigger] a.players[k],
                        b.players[k],
                    ) by {}
                },
                MeldType::Kakan => {
                    assert(kakan_applied(pre, e, a));
                    assert(kakan_applied(pre, e, b));
                    lemma_states_of_view(a.tile_states, b.tile_states);
                    lemma_remains_follow(a, b);
                    assert forall|k: int| 0 <= k < SEAT implies same_player(
                        #[trigger] a.players[k],
                        b.players[k],
                    ) by {}
                },
                MeldType::Ankan => {
                    assert(ankan_applied(pre, e, a));
                    assert(ankan_applied(pre, e, b));
                    lemma_states_of_view(a.tile_states, b.tile_states);
                    lemma_remains_follow(a, b);
                    assert forall|k: int| 0 <= k < SEAT implies same_player(
                        #[trigger] a.players[k],
                        b.players[k],
                    ) by {}
                },
            }
        },
        Event::Kita(_) => {},
        Event::Dora(e) => {
            assert forall|t: int, n: int, i: int|
                0 <= t < TYPE && 0 <= n < TNUM && 0 <= i < TILE implies a.tile_states[t][n][i]
                == b.tile_states[t][n][i] by {}
            lemma_states_equal(a.tile_states, b.tile_states);
            assert forall|t: int, n: int| 0 <= t < TYPE && 0 <= n < TNUM implies a.tile_remains[t][n]
                == b.tile_remains[t][n] by {}
            lemma_tables_equal(a.tile_remains, b.tile_remains);
        },
        Event::Win(e) => {
            assert forall|k: int| 0 <= k < SEAT implies same_player(
                #[trigger] a.players[k],
                b.players[k],
            ) by {}
        },
        Event::Draw(e) => {
            assert forall|k: int| 0 <= k < SEAT implies same_player(
                #[trigger] a.players[k],
                b.players[k],
            ) by {}
        },
        Event::End(_) => {},
    }
}

} // verus!
