//! The stage: everything that lies on the table.

use crate::model::action::ActionType;
use crate::model::define::{Index, Score, Seat, Tnum, SEAT, TILE, TNUM, TYPE};
use crate::model::player::Player;
use crate::model::tile::Tile;
use vstd::prelude::*;

verus! {

/// Where one physical tile is.
#[derive(Debug, Clone, Copy, PartialEq, Eq, PartialOrd, Ord, Structural)]
pub enum TileStateType {
    /// In a hand.
    H(Seat),
    /// In a meld.
    M(Seat, Index),
    /// Set aside as a north tile.
    K(Seat, Index),
    /// In a river.
    D(Seat, Index),
    /// Open as a dora indicator.
    R,
    /// Not seen yet.
    U,
}

impl Default for TileStateType {
    fn default() -> (r: Self)
        ensures
            r == TileStateType::U,
    {
        TileStateType::U
    }
}

/// Why a round ended without a win.
#[derive(Debug, Clone, Copy, PartialEq, Eq, Structural)]
pub enum DrawType {
    Kyushukyuhai,
    Suufuurenda,
    Suukansanra,
    Suuchariichi,
    Kouhaiheikyoku,
}

/// The stage.
#[derive(Debug)]
pub struct Stage {
    /// The prevalent wind (east 0, south 1, west 2, north 3).
    pub round: usize,
    /// The dealer's seat.
    pub kyoku: usize,
    pub honba: usize,
    /// Riichi sticks on the table.
    pub kyoutaku: usize,
    /// The seat whose turn it is.
    pub turn: Seat,
    /// The number of events applied so far.
    pub step: usize,
    /// The number of tiles left in the wall.
    pub left_tile_count: usize,
    /// The dora indicators.
    pub doras: Vec<Tile>,
    /// All discards in order: seat and index in that seat's river.
    pub discards: Vec<(Seat, Index)>,
    /// The tile that may be won by ron: the last discard or the tile of a kakan.
    pub last_tile: Option<(Seat, ActionType, Tile)>,
    /// The seat whose riichi declaration still waits for its stick.
    pub last_riichi: Option<Seat>,
    pub players: [Player; SEAT],
    /// Three-player game.
    pub is_3p: bool,
    /// Where each physical tile is, by suit, rank and copy.
    pub tile_states: [[[TileStateType; TILE]; TNUM]; TYPE],
    /// How many copies of each tile are neither discarded, melded nor open
    /// as an indicator.
    pub tile_remains: [[usize; TNUM]; TYPE],
}

impl Stage {
    /// Whether `seat` is the dealer's.
    pub fn is_leader(&self, seat: Seat) -> (r: bool)
        ensures
            r == (seat == self.kyoku),
    {
        seat == self.kyoku
    }

    /// The rank of the prevalent wind among the honors: east 1 to north 4.
    pub fn get_prevalent_wind(&self) -> (r: Tnum)
        ensures
            r == self.round % SEAT + 1,
            1 <= r <= 4,
    {
        self.round % SEAT + 1
    }

    /// The rank of the wind of `seat` among the honors: east 1 for the
    /// dealer, then south, west and north in the order of play.
    pub fn get_seat_wind(&self, seat: Seat) -> (r: Tnum)
        requires
            seat < SEAT,
            self.kyoku < SEAT,
        ensures
            r == (seat + SEAT - self.kyoku) % (SEAT as int) + 1,
            1 <= r <= 4,
            (r == 1) == (seat == self.kyoku),
    {
        (seat + SEAT - self.kyoku) % SEAT + 1
    }

    /// The scores of the four players.
    pub fn get_scores(&self) -> (r: [Score; SEAT])
        ensures
            forall|s: int| 0 <= s < SEAT ==> r[s] == self.players[s].score,
    {
        let mut scores: [Score; SEAT] = [0;SEAT];
        let mut s: usize = 0;
        while s < SEAT
            invariant
                s <= SEAT,
                forall|k: int| 0 <= k < s ==> scores[k] == self.players[k].score,
            decreases SEAT - s,
        {
            scores[s] = self.players[s].score;
            s += 1;
        }
        scores
    }
}

/// One where the copy is neither discarded, melded, set aside nor open
/// as an indicator.
pub open spec fn hidden(st: TileStateType) -> int {
    match st {
        TileStateType::U | TileStateType::H(_) => 1,
        _ => 0,
    }
}

/// How many of the four copies are neither discarded, melded, set aside
/// nor open as an indicator.
pub open spec fn hidden_copies(row: [TileStateType; TILE]) -> int {
    hidden(row[0]) + hidden(row[1]) + hidden(row[2]) + hidden(row[3])
}

/// The number of physical tiles.
pub open spec fn all_tiles() -> int {
    136
}

impl Stage {
    /// The number of physical tiles that the players hold or have
    /// discarded without anyone calling them.
    pub open spec fn tiles_held(&self) -> int {
        self.players[0].tiles_held() + self.players[1].tiles_held() + self.players[2].tiles_held()
            + self.players[3].tiles_held()
    }

    /// Whether the tile `x` lies last in the river of `d`, called by
    /// nobody, and one of its copies is known to lie there.
    pub open spec fn lies_last(&self, d: Seat, x: Tile) -> bool {
        let river = self.players[d as int].discards;
        &&& river.len() > 0
        &&& river[river.len() - 1].tile == x
        &&& river[river.len() - 1].meld is None
        &&& exists|c: int|
            0 <= c < TILE && #[trigger] self.tile_states[x.0 as int][x.normal_rank()][c]
                == TileStateType::D(d, (river.len() - 1) as usize)
    }

    /// What holds of every stage: every tile is in the wall, in a hand, in
    /// a meld, in a river or open as an indicator; the count of copies
    /// that remain is that of the copies not yet placed openly; and every
    /// player is well formed and sits at the seat of its index.
    pub open spec fn wf(&self) -> bool {
        &&& self.round < SEAT
        &&& self.kyoku < SEAT
        &&& self.turn < SEAT
        &&& forall|s: int|
            0 <= s < SEAT ==> (#[trigger] self.players[s]).wf() && self.players[s].seat == s
        &&& forall|s: int| 0 <= s < SEAT && s != self.turn ==> (#[trigger] self.players[s]).size() == 13
        &&& self.left_tile_count + self.tiles_held() + self.doras.len() == all_tiles()
        &&& forall|t: int, n: int|
            0 <= t < TYPE && 0 <= n < TNUM ==> (#[trigger] self.tile_remains[t][n])
                == hidden_copies(self.tile_states[t][n])
        &&& self.last_tile matches Some(lt) ==> lt.0 < SEAT && lt.2.is_known()
        &&& self.last_tile matches Some((d, ActionType::Discard, x)) ==> self.lies_last(d, x)
        &&& self.last_riichi matches Some(s) ==> s < SEAT
    }
}

/// The two characters that stand for a state of a tile: a letter for the
/// place and the seat, or a letter and a blank.
pub open spec fn state_text(st: TileStateType) -> Seq<char> {
    match st {
        TileStateType::H(s) => seq!['H'] + crate::util::text::decimal(s as nat),
        TileStateType::M(s, _) => seq!['M'] + crate::util::text::decimal(s as nat),
        TileStateType::K(s, _) => seq!['K'] + crate::util::text::decimal(s as nat),
        TileStateType::D(s, _) => seq!['D'] + crate::util::text::decimal(s as nat),
        TileStateType::R => seq!['R', ' '],
        TileStateType::U => seq!['U', ' '],
    }
}

impl TileStateType {
    /// The text of the state.
    pub fn to_text(&self) -> (r: String)
        ensures
            r@ == state_text(*self),
    {
        let (letter, seat) = match self {
            TileStateType::H(s) => ('H', Some(*s)),
            TileStateType::M(s, _) => ('M', Some(*s)),
            TileStateType::K(s, _) => ('K', Some(*s)),
            TileStateType::D(s, _) => ('D', Some(*s)),
            TileStateType::R => ('R', None),
            TileStateType::U => ('U', None),
        };
        let mut r = String::new();
        crate::util::text::push_char(&mut r, letter);
        match seat {
            Some(s) => {
                let n = crate::util::text::usize_to_string(s);
                vstd::string::StringExecFns::append(&mut r, n.as_str());
            },
            None => {
                crate::util::text::push_char(&mut r, ' ');
                assert(r@ =~= seq![letter, ' ']);
            },
        }
        r
    }
}

} // verus!
