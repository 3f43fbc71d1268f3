//! The parts of a winning hand: its four sets, its pair, and the wait
//! that the winning tile filled.

use crate::hand::shape::{Piece, PieceKind};
use crate::model::define::TNUM;
use crate::model::meld::{Meld, MeldType};
use crate::model::tile::Tile;
use vstd::prelude::*;

verus! {

/// The kind of a set.
#[derive(Clone, Copy, Debug, PartialEq, Eq, Structural)]
pub enum SetKind {
    Run,
    Triplet,
    Quad,
}

/// A set of a winning hand: its kind, its first tile by suit and rank,
/// and whether it counts as open. A set is open where it was called, and
/// a triplet is open where a ron completed it.
#[derive(Clone, Copy, Debug, PartialEq, Eq, Structural)]
pub struct SetInfo {
    pub kind: SetKind,
    pub suit: usize,
    pub rank: usize,
    pub open: bool,
}

/// The wait that the winning tile filled.
#[derive(Clone, Copy, Debug, PartialEq, Eq, Structural)]
pub enum WaitKind {
    /// Two tiles in a row, open at both ends.
    Ryanmen,
    /// The middle of a run.
    Kanchan,
    /// The three beside one and two, or the seven beside eight and nine.
    Penchan,
    /// The second tile of the pair.
    Tanki,
    /// The third tile of a triplet.
    Shanpon,
}

/// A winning hand in the regular form, read in one way.
#[derive(Clone, Copy, Debug, PartialEq, Eq, Structural)]
pub struct Parts {
    pub s0: SetInfo,
    pub s1: SetInfo,
    pub s2: SetInfo,
    pub s3: SetInfo,
    pub pair: Tile,
    pub wait: WaitKind,
}

/// What the tiles do not show of a win.
#[derive(Clone, Copy, Debug, PartialEq, Eq, Structural)]
pub struct WinInfo {
    /// The winning tile, a red five as a five.
    pub win_tile: Tile,
    pub is_tsumo: bool,
    /// Whether no meld but concealed quads lies open.
    pub is_menzen: bool,
    /// The number of melds, concealed quads among them.
    pub n_melds: usize,
    pub prevalent_wind: usize,
    pub seat_wind: usize,
}

/// The set that a piece of the concealed tiles is: closed.
pub open spec fn piece_set(p: Piece) -> SetInfo {
    SetInfo {
        kind: if p.kind == PieceKind::Run {
            SetKind::Run
        } else {
            SetKind::Triplet
        },
        suit: p.suit,
        rank: p.rank,
        open: false,
    }
}

/// The lowest of the ranks of the first three tiles of a meld, a red
/// five as a five.
pub open spec fn low_rank(m: Meld) -> int {
    let a = m.tiles[0].normal_rank();
    let b = m.tiles[1].normal_rank();
    let c = m.tiles[2].normal_rank();
    if a <= b && a <= c {
        a
    } else if b <= c {
        b
    } else {
        c
    }
}

/// The set that a meld is: a chi a run from its lowest rank, a pon a
/// triplet, a kan a quad, open but for the concealed quad.
pub open spec fn meld_set(m: Meld) -> SetInfo {
    SetInfo {
        kind: match m.type_ {
            MeldType::Chi => SetKind::Run,
            MeldType::Pon => SetKind::Triplet,
            _ => SetKind::Quad,
        },
        suit: m.tiles[0].0,
        rank: low_rank(m) as usize,
        open: m.type_ != MeldType::Ankan,
    }
}

/// Whether a meld can be read as a set: it has three tiles at least, all
/// of them in range.
pub open spec fn meld_usable(m: Meld) -> bool {
    &&& m.tiles.len() >= 3
    &&& forall|i: int| 0 <= i < m.tiles.len() ==> (#[trigger] m.tiles[i]).in_table()
}

/// The set that a piece of the concealed tiles is.
pub fn set_of_piece(p: Piece) -> (r: SetInfo)
    ensures
        r == piece_set(p),
{
    SetInfo {
        kind: match p.kind {
            PieceKind::Run => SetKind::Run,
            PieceKind::Triplet => SetKind::Triplet,
        },
        suit: p.suit,
        rank: p.rank,
        open: false,
    }
}

/// The set that a meld is.
pub fn set_of_meld(m: &Meld) -> (r: SetInfo)
    requires
        meld_usable(*m),
    ensures
        r == meld_set(*m),
{
    assert(m.tiles[0].in_table() && m.tiles[1].in_table() && m.tiles[2].in_table());
    let a = m.tiles[0].to_normal().1;
    let b = m.tiles[1].to_normal().1;
    let c = m.tiles[2].to_normal().1;
    let low = if a <= b && a <= c {
        a
    } else if b <= c {
        b
    } else {
        c
    };
    SetInfo {
        kind: match m.type_ {
            MeldType::Chi => SetKind::Run,
            MeldType::Pon => SetKind::Triplet,
            _ => SetKind::Quad,
        },
        suit: m.tiles[0].0,
        rank: low,
        open: match m.type_ {
            MeldType::Ankan => false,
            _ => true,
        },
    }
}

/// The sets of the melds.
pub open spec fn meld_sets(melds: Seq<Meld>) -> Seq<SetInfo> {
    Seq::new(melds.len(), |i: int| meld_set(melds[i]))
}

/// The sets of the pieces.
pub open spec fn piece_sets(pieces: Seq<Piece>) -> Seq<SetInfo> {
    Seq::new(pieces.len(), |i: int| piece_set(pieces[i]))
}

/// The wait that the tile `w` fills in the set, if it fills one there: in
/// a run its lowest, middle or highest tile, in a triplet its third tile.
pub open spec fn wait_in(s: SetInfo, w: Tile) -> Option<WaitKind> {
    if s.suit != w.0 {
        None
    } else if s.kind == SetKind::Run {
        if w.1 == s.rank + 1 {
            Some(WaitKind::Kanchan)
        } else if w.1 == s.rank {
            Some(
                if s.rank == 7 {
                    WaitKind::Penchan
                } else {
                    WaitKind::Ryanmen
                },
            )
        } else if w.1 == s.rank + 2 {
            Some(
                if s.rank == 1 {
                    WaitKind::Penchan
                } else {
                    WaitKind::Ryanmen
                },
            )
        } else {
            None
        }
    } else if s.kind == SetKind::Triplet && w.1 == s.rank {
        Some(WaitKind::Shanpon)
    } else {
        None
    }
}

/// The wait that the tile `w` fills in the set, if it fills one there.
pub fn find_wait(s: SetInfo, w: Tile) -> (r: Option<WaitKind>)
    requires
        s.rank <= TNUM,
    ensures
        r == wait_in(s, w),
{
    if s.suit != w.0 {
        None
    } else if s.kind == SetKind::Run {
        if w.1 == s.rank + 1 {
            Some(WaitKind::Kanchan)
        } else if w.1 == s.rank {
            if s.rank == 7 {
                Some(WaitKind::Penchan)
            } else {
                Some(WaitKind::Ryanmen)
            }
        } else if w.1 == s.rank + 2 {
            if s.rank == 1 {
                Some(WaitKind::Penchan)
            } else {
                Some(WaitKind::Ryanmen)
            }
        } else {
            None
        }
    } else if s.kind == SetKind::Triplet && w.1 == s.rank {
        Some(WaitKind::Shanpon)
    } else {
        None
    }
}

/// The set as it counts once the winning tile has completed it: a
/// triplet that a ron completed is open.
pub open spec fn completed(s: SetInfo, wait: WaitKind, is_tsumo: bool) -> SetInfo {
    if wait == WaitKind::Shanpon && !is_tsumo {
        SetInfo { open: true, ..s }
    } else {
        s
    }
}

/// The four sets with the set at `i` completed by the winning tile.
pub open spec fn parts_with(sets: Seq<SetInfo>, pair: Tile, i: int, wait: WaitKind, is_tsumo: bool) -> Parts {
    Parts {
        s0: if i == 0 {
            completed(sets[0], wait, is_tsumo)
        } else {
            sets[0]
        },
        s1: if i == 1 {
            completed(sets[1], wait, is_tsumo)
        } else {
            sets[1]
        },
        s2: if i == 2 {
            completed(sets[2], wait, is_tsumo)
        } else {
            sets[2]
        },
        s3: if i == 3 {
            completed(sets[3], wait, is_tsumo)
        } else {
            sets[3]
        },
        pair,
        wait,
    }
}

/// The four sets with the set at `i` completed by the winning tile.
pub fn make_parts(sets: &Vec<SetInfo>, pair: Tile, i: usize, wait: WaitKind, is_tsumo: bool) -> (r: Parts)
    requires
        sets.len() == 4,
    ensures
        r == parts_with(sets@, pair, i as int, wait, is_tsumo),
{
    let open_up = match wait {
        WaitKind::Shanpon => !is_tsumo,
        _ => false,
    };
    let mut s0 = sets[0];
    let mut s1 = sets[1];
    let mut s2 = sets[2];
    let mut s3 = sets[3];
    if open_up {
        if i == 0 {
            s0.open = true;
        } else if i == 1 {
            s1.open = true;
        } else if i == 2 {
            s2.open = true;
        } else if i == 3 {
            s3.open = true;
        }
    }
    Parts { s0, s1, s2, s3, pair, wait }
}

} // verus!
