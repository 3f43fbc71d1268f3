//! Actions: what a player may choose at a decision point.

use crate::model::tile::Tile;
use vstd::prelude::*;

verus! {

/// The kind of an action.
#[derive(Clone, Copy, Debug, PartialEq, Eq, Hash, Structural)]
pub enum ActionType {
    /// On one's turn: discard the drawn tile. On a call: pass.
    Nop,
    Discard,
    Ankan,
    Kakan,
    Riichi,
    Tsumo,
    Kyushukyuhai,
    Kita,
    Chi,
    Pon,
    Minkan,
    Ron,
}

/// An action: its kind and its tiles. For a call or a quad the tiles are
/// those taken from the actor's own hand; for a discard or a riichi they
/// hold the tile to discard.
#[derive(Debug, PartialEq, Eq)]
pub struct Action(pub ActionType, pub Vec<Tile>);

impl Action {
    pub fn nop() -> (a: Action)
        ensures
            a.0 == ActionType::Nop,
            a.1@ == Seq::<Tile>::empty(),
    {
        Action(ActionType::Nop, Vec::new())
    }

    pub fn discard(t: Tile) -> (a: Action)
        ensures
            a.0 == ActionType::Discard,
            a.1@ == seq![t],
    {
        Action(ActionType::Discard, vec![t])
    }

    pub fn ankan(v: Vec<Tile>) -> (a: Action)
        ensures
            a.0 == ActionType::Ankan,
            a.1@ == v@,
    {
        Action(ActionType::Ankan, v)
    }

    pub fn kakan(t: Tile) -> (a: Action)
        ensures
            a.0 == ActionType::Kakan,
            a.1@ == seq![t],
    {
        Action(ActionType::Kakan, vec![t])
    }

    pub fn riichi(t: Tile) -> (a: Action)
        ensures
            a.0 == ActionType::Riichi,
            a.1@ == seq![t],
    {
        Action(ActionType::Riichi, vec![t])
    }

    pub fn tsumo() -> (a: Action)
        ensures
            a.0 == ActionType::Tsumo,
            a.1@ == Seq::<Tile>::empty(),
    {
        Action(ActionType::Tsumo, Vec::new())
    }

    pub fn kyushukyuhai() -> (a: Action)
        ensures
            a.0 == ActionType::Kyushukyuhai,
            a.1@ == Seq::<Tile>::empty(),
    {
        Action(ActionType::Kyushukyuhai, Vec::new())
    }

    pub fn kita() -> (a: Action)
        ensures
            a.0 == ActionType::Kita,
            a.1@ == Seq::<Tile>::empty(),
    {
        Action(ActionType::Kita, Vec::new())
    }

    pub fn chi(v: Vec<Tile>) -> (a: Action)
        ensures
            a.0 == ActionType::Chi,
            a.1@ == v@,
    {
        Action(ActionType::Chi, v)
    }

    pub fn pon(v: Vec<Tile>) -> (a: Action)
        ensures
            a.0 == ActionType::Pon,
            a.1@ == v@,
    {
        Action(ActionType::Pon, v)
    }

    pub fn minkan(v: Vec<Tile>) -> (a: Action)
        ensures
            a.0 == ActionType::Minkan,
            a.1@ == v@,
    {
        Action(ActionType::Minkan, v)
    }

    pub fn ron() -> (a: Action)
        ensures
            a.0 == ActionType::Ron,
            a.1@ == Seq::<Tile>::empty(),
    {
        Action(ActionType::Ron, Vec::new())
    }

    /// Whether two actions have the same kind and the same tiles.
    pub fn same(&self, other: &Action) -> (r: bool)
        ensures
            r == (self.0 == other.0 && self.1@ == other.1@),
    {
        if self.0 != other.0 || self.1.len() != other.1.len() {
            return false;
        }
        let mut i: usize = 0;
        while i < self.1.len()
            invariant
                i <= self.1.len(),
                self.1.len() == other.1.len(),
                self.1@.take(i as int) == other.1@.take(i as int),
            decreases self.1.len() - i,
        {
            if self.1[i] != other.1[i] {
                assert(self.1@[i as int] != other.1@[i as int]);
                return false;
            }
            assert(self.1@.take(i + 1) == self.1@.take(i as int).push(self.1@[i as int]));
            assert(other.1@.take(i + 1) == other.1@.take(i as int).push(other.1@[i as int]));
            i += 1;
        }
        assert(self.1@.take(i as int) == self.1@);
        assert(other.1@.take(i as int) == other.1@);
        true
    }
}

} // verus!
