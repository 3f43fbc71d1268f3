//! Melds: called or declared sets that lie open beside a hand.

use crate::model::define::{Seat, SEAT};
use crate::model::tile::Tile;
use vstd::prelude::*;

verus! {

/// The kind of a meld.
#[derive(Clone, Copy, Debug, PartialEq, Eq, Hash, Structural)]
pub enum MeldType {
    /// A run completed with the left neighbour's discard.
    Chi,
    /// A triplet completed with a discard.
    Pon,
    /// A quad completed with a discard.
    Minkan,
    /// A pon promoted to a quad with a tile of the owner.
    Kakan,
    /// A concealed quad.
    Ankan,
}

/// A meld: its kind, its owner, its tiles in the order they were laid down,
/// the seat each tile came from, and the step at which it was declared.
#[derive(Debug)]
pub struct Meld {
    pub step: usize,
    pub seat: Seat,
    pub type_: MeldType,
    pub tiles: Vec<Tile>,
    pub froms: Vec<Seat>,
}

/// The content of a [`Meld`].
pub struct MeldView {
    pub step: usize,
    pub seat: Seat,
    pub type_: MeldType,
    pub tiles: Seq<Tile>,
    pub froms: Seq<Seat>,
}

impl View for Meld {
    type V = MeldView;

    open spec fn view(&self) -> MeldView {
        MeldView {
            step: self.step,
            seat: self.seat,
            type_: self.type_,
            tiles: self.tiles@,
            froms: self.froms@,
        }
    }
}

/// The contents of a list of melds.
pub open spec fn melds_view(melds: Seq<Meld>) -> Seq<MeldView> {
    Seq::new(melds.len(), |i: int| melds[i]@)
}

/// One where the donor at `i` is not `seat`, else none.
pub open spec fn foreign(froms: Seq<Seat>, seat: Seat, i: int) -> int {
    if froms[i] != seat {
        1
    } else {
        0
    }
}

impl Meld {
    /// The shape every meld has: three tiles for a chi or pon and four for a
    /// quad, one donor per tile, exactly one foreign donor among the first
    /// three tiles of a called meld, none in a concealed quad, and the owner
    /// as donor of the fourth tile of a promoted pon.
    pub open spec fn wf(&self) -> bool {
        &&& self.seat < SEAT
        &&& self.tiles.len() == self.froms.len()
        &&& forall|i: int| 0 <= i < self.froms.len() ==> self.froms[i] < SEAT
        &&& forall|i: int| 0 <= i < self.tiles.len() ==> (#[trigger] self.tiles[i]).is_known()
        &&& match self.type_ {
            MeldType::Chi | MeldType::Pon => {
                &&& self.tiles.len() == 3
                &&& foreign(self.froms@, self.seat, 0) + foreign(self.froms@, self.seat, 1)
                    + foreign(self.froms@, self.seat, 2) == 1
            },
            MeldType::Minkan => {
                &&& self.tiles.len() == 4
                &&& foreign(self.froms@, self.seat, 0) + foreign(self.froms@, self.seat, 1)
                    + foreign(self.froms@, self.seat, 2) + foreign(self.froms@, self.seat, 3) == 1
            },
            MeldType::Kakan => {
                &&& self.tiles.len() == 4
                &&& foreign(self.froms@, self.seat, 0) + foreign(self.froms@, self.seat, 1)
                    + foreign(self.froms@, self.seat, 2) == 1
                &&& self.froms[3] == self.seat
            },
            MeldType::Ankan => {
                &&& self.tiles.len() == 4
                &&& foreign(self.froms@, self.seat, 0) + foreign(self.froms@, self.seat, 1)
                    + foreign(self.froms@, self.seat, 2) + foreign(self.froms@, self.seat, 3) == 0
            },
        }
    }

    /// A copy of the meld.
    pub fn duplicate(&self) -> (r: Meld)
        ensures
            r.step == self.step,
            r.seat == self.seat,
            r.type_ == self.type_,
            r.tiles@ == self.tiles@,
            r.froms@ == self.froms@,
    {
        let mut tiles: Vec<Tile> = Vec::new();
        let mut i: usize = 0;
        while i < self.tiles.len()
            invariant
                i <= self.tiles.len(),
                tiles@ == self.tiles@.take(i as int),
            decreases self.tiles.len() - i,
        {
            tiles.push(self.tiles[i]);
            i += 1;
        }
        let mut froms: Vec<Seat> = Vec::new();
        let mut j: usize = 0;
        while j < self.froms.len()
            invariant
                j <= self.froms.len(),
                froms@ == self.froms@.take(j as int),
            decreases self.froms.len() - j,
        {
            froms.push(self.froms[j]);
            j += 1;
        }
        Meld { step: self.step, seat: self.seat, type_: self.type_, tiles, froms }
    }
}

} // verus!
