//! Events: the alphabet that drives the stage.

use crate::hand::win::WinContext;
use crate::model::define::{Point, Score, Seat, SEAT};
use crate::model::meld::MeldType;
use crate::model::stage::DrawType;
use crate::model::tile::Tile;
use vstd::prelude::*;

verus! {

/// The start of a game.
#[derive(Debug)]
pub struct EventBegin {}

/// The start of a round.
#[derive(Debug)]
pub struct EventNew {
    /// The prevalent wind, `0..=3`.
    pub bakaze: usize,
    /// The dealer's seat.
    pub kyoku: usize,
    pub honba: usize,
    pub kyoutaku: usize,
    /// The dora indicators that lie open at the start.
    pub doras: Vec<Tile>,
    pub scores: [Score; SEAT],
    /// The dealt hands: 14 tiles for the dealer, 13 for the others, hidden
    /// tiles for the hands that the observer does not see.
    pub hands: [Vec<Tile>; SEAT],
    /// The rule set of the round; 0 is the four-player game.
    pub mode: usize,
}

/// A tile drawn from the wall.
#[derive(Debug)]
pub struct EventDeal {
    pub seat: Seat,
    pub tile: Tile,
}

/// A discard.
#[derive(Debug)]
pub struct EventDiscard {
    pub seat: Seat,
    pub tile: Tile,
    /// Whether the tile discarded is the tile just drawn.
    pub is_drawn: bool,
    /// Whether the discard declares riichi.
    pub is_riichi: bool,
}

/// A call or a quad.
#[derive(Debug)]
pub struct EventMeld {
    pub seat: Seat,
    pub meld_type: MeldType,
    /// The tiles that leave the caller's hand.
    pub consumed: Vec<Tile>,
}

/// A north tile set aside (three-player game).
#[derive(Debug)]
pub struct EventKita {
    pub seat: Seat,
    pub is_drawn: bool,
}

/// A new dora indicator.
#[derive(Debug)]
pub struct EventDora {
    pub tile: Tile,
}

/// The end of a round by one or more wins.
#[derive(Debug)]
pub struct EventWin {
    pub ura_doras: Vec<Tile>,
    /// For each winner: the seat, the change of every score, the evaluation.
    pub contexts: Vec<(Seat, [Point; SEAT], WinContext)>,
}

/// The end of a round without a win.
#[derive(Debug)]
pub struct EventDraw {
    pub draw_type: DrawType,
    pub hands: [Vec<Tile>; SEAT],
    pub tenpais: [bool; SEAT],
    pub points: [Point; SEAT],
}

/// The end of a game.
#[derive(Debug)]
pub struct EventEnd {}

/// An event.
#[derive(Debug)]
pub enum Event {
    Begin(EventBegin),
    New(EventNew),
    Deal(EventDeal),
    Discard(EventDiscard),
    Meld(EventMeld),
    Kita(EventKita),
    Dora(EventDora),
    Win(EventWin),
    Draw(EventDraw),
    End(EventEnd),
}

} // verus!
