//! A player: score, hand, melds and river.

use crate::model::define::{Index, Score, Seat, SEAT, TNUM, TYPE};
use crate::model::meld::Meld;
use crate::model::tile::{hand_total, table_bounded, table_has, Tile, TileTable};
use vstd::prelude::*;

verus! {

/// One tile of a river.
#[derive(Clone, Copy, Debug, PartialEq, Eq)]
pub struct Discard {
    /// The step at which the tile was discarded.
    pub step: usize,
    pub tile: Tile,
    /// Whether the tile was the one just drawn.
    pub drawn: bool,
    /// Whether the discard declared riichi.
    pub riichi: bool,
    /// The seat that called the tile and the index of the meld there.
    pub meld: Option<(Seat, Index)>,
}

/// A player.
#[derive(Debug)]
pub struct Player {
    pub seat: Seat,
    pub score: Score,
    pub hand: TileTable,
    /// The tile drawn this turn; it is also counted in `hand`.
    pub drawn: Option<Tile>,
    pub melds: Vec<Meld>,
    pub discards: Vec<Discard>,
    /// The step at which the player declared riichi.
    pub riichi: Option<usize>,
    /// Whether the hand is shown to the observer.
    pub is_shown: bool,
    pub is_furiten: bool,
    /// Furiten that stays until the round ends.
    pub is_riichi_furiten: bool,
    pub is_nagashi: bool,
    /// Whether a win within one turn of the riichi is still possible.
    pub is_ippatsu: bool,
    pub kita_count: usize,
}

/// The number of tiles in the melds.
pub open spec fn meld_tiles(melds: Seq<Meld>) -> int
    decreases melds.len(),
{
    if melds.len() == 0 {
        0
    } else {
        meld_tiles(melds.drop_last()) + melds.last().tiles.len()
    }
}

/// The number of tiles of a river that nobody has called.
pub open spec fn river_tiles(discards: Seq<Discard>) -> int
    decreases discards.len(),
{
    if discards.len() == 0 {
        0
    } else {
        river_tiles(discards.drop_last()) + if discards.last().meld is None {
            1int
        } else {
            0int
        }
    }
}

impl Player {
    /// The number of tiles that count for the size of the hand: those in
    /// the hand and three for each meld, a quad counting as three.
    pub open spec fn size(&self) -> int {
        hand_total(self.hand) + 3 * self.melds.len()
    }

    /// The number of physical tiles that the player holds or has
    /// discarded without anyone calling them.
    pub open spec fn tiles_held(&self) -> int {
        hand_total(self.hand) + meld_tiles(self.melds@) + river_tiles(self.discards@)
    }

    /// What holds of every player: the hand with its melds has 13 tiles,
    /// or 14 where it is the player's turn to discard; a tile drawn is
    /// one of 14 and lies in the hand; a red five is counted among the
    /// fives; and there are at most four melds, each well formed.
    pub open spec fn wf(&self) -> bool {
        &&& self.seat < SEAT
        &&& table_bounded(self.hand)
        &&& forall|t: int| 0 <= t < TYPE ==> (#[trigger] self.hand[t])[0] <= self.hand[t][5]
        &&& self.melds.len() <= 4
        &&& forall|i: int|
            0 <= i < self.melds.len() ==> (#[trigger] self.melds[i]).wf() && self.melds[i].seat
                == self.seat
        &&& (self.size() == 13 || self.size() == 14)
        &&& self.drawn matches Some(d) ==> self.size() == 14 && table_has(self.hand, d)
        &&& self.kita_count == 0
    }

    /// A player who holds nothing.
    pub fn new(seat: Seat, score: Score) -> (p: Player)
        ensures
            p.seat == seat,
            p.score == score,
            forall|t: int, n: int| 0 <= t < TYPE && 0 <= n < TNUM ==> p.hand[t][n] == 0,
            p.drawn is None,
            p.melds@.len() == 0,
            p.discards@.len() == 0,
            p.riichi is None,
            !p.is_shown,
            !p.is_furiten,
            !p.is_riichi_furiten,
            !p.is_nagashi,
            !p.is_ippatsu,
            p.kita_count == 0,
    {
        Player {
            seat,
            score,
            hand: [[0;TNUM];TYPE],
            drawn: None,
            melds: Vec::new(),
            discards: Vec::new(),
            riichi: None,
            is_shown: false,
            is_furiten: false,
            is_riichi_furiten: false,
            is_nagashi: false,
            is_ippatsu: false,
            kita_count: 0,
        }
    }
}

/// A player holds no negative number of tiles.
pub proof fn lemma_held_nonneg(p: Player)
    ensures
        p.tiles_held() >= 0,
{
    lemma_total_nonneg(p.hand, 40);
    lemma_meld_tiles_nonneg(p.melds@);
    lemma_river_tiles_nonneg(p.discards@);
}

proof fn lemma_total_nonneg(h: TileTable, k: int)
    ensures
        crate::model::tile::total_before(h, k) >= 0,
    decreases k,
{
    if k > 0 {
        lemma_total_nonneg(h, k - 1);
    }
}

proof fn lemma_meld_tiles_nonneg(melds: Seq<Meld>)
    ensures
        meld_tiles(melds) >= 0,
    decreases melds.len(),
{
    if melds.len() > 0 {
        lemma_meld_tiles_nonneg(melds.drop_last());
    }
}

proof fn lemma_river_tiles_nonneg(discards: Seq<Discard>)
    ensures
        river_tiles(discards) >= 0,
    decreases discards.len(),
{
    if discards.len() > 0 {
        lemma_river_tiles_nonneg(discards.drop_last());
    }
}

} // verus!
