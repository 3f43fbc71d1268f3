//! The context of a win and the result of evaluating one.

use crate::model::define::Point;
use vstd::prelude::*;

verus! {

/// Payments of a win: what the discarder pays on a ron, what each
/// non-dealer pays on a tsumo, and what the dealer pays on a tsumo.
pub type Points = (Point, Point, Point);

/// The yaku that the tiles alone do not show.
#[derive(Clone, Copy, Debug, PartialEq, Eq, Structural)]
pub struct YakuFlags {
    pub menzentsumo: bool,
    pub riichi: bool,
    pub dabururiichi: bool,
    pub ippatsu: bool,
    pub haiteiraoyue: bool,
    pub houteiraoyui: bool,
    pub rinshankaihou: bool,
    pub chankan: bool,
    pub tenhou: bool,
    pub tiihou: bool,
}

impl YakuFlags {
    /// No flag set.
    pub fn none() -> (f: YakuFlags)
        ensures
            f == (YakuFlags {
                menzentsumo: false,
                riichi: false,
                dabururiichi: false,
                ippatsu: false,
                haiteiraoyue: false,
                houteiraoyui: false,
                rinshankaihou: false,
                chankan: false,
                tenhou: false,
                tiihou: false,
            }),
    {
        YakuFlags {
            menzentsumo: false,
            riichi: false,
            dabururiichi: false,
            ippatsu: false,
            haiteiraoyue: false,
            houteiraoyui: false,
            rinshankaihou: false,
            chankan: false,
            tenhou: false,
            tiihou: false,
        }
    }
}

/// The result of evaluating a winning hand.
#[derive(Debug)]
pub struct WinContext {
    /// The yaku of the hand, each with its fan.
    pub yakus: Vec<(String, usize)>,
    pub fu: usize,
    pub fan: usize,
    pub yakuman_times: usize,
    /// The name of the limit that the hand reaches; empty below mangan.
    pub score_title: String,
    pub points: Points,
}

} // verus!
