//! Counts over the tiles of a hand and its melds: the tiles of a suit,
//! the dora, and the shapes that are told by counts alone.

use crate::hand::parts::WinInfo;
use crate::model::define::{TNUM, TYPE, TZ};
use crate::model::meld::Meld;
use crate::model::tile::{table_bounded, Tile, TileTable, SLOT_MAX};
use vstd::prelude::*;

verus! {

/// The number of tiles of suit `t` in the hand.
pub open spec fn suit_total(h: TileTable, t: int) -> int {
    h[t][1] + h[t][2] + h[t][3] + h[t][4] + h[t][5] + h[t][6] + h[t][7] + h[t][8] + h[t][9]
}

/// The number of tiles of suit `t` in the hand.
pub fn count_suit(h: &TileTable, t: usize) -> (n: usize)
    requires
        t < TYPE,
        table_bounded(*h),
    ensures
        n == suit_total(*h, t as int),
        n <= 9 * SLOT_MAX,
{
    assert(forall|r: int| 0 <= r < TNUM ==> (#[trigger] h[t as int][r]) <= SLOT_MAX);
    h[t][1] + h[t][2] + h[t][3] + h[t][4] + h[t][5] + h[t][6] + h[t][7] + h[t][8] + h[t][9]
}

/// The number of ones and nines of suits in the hand, and of honors.
pub open spec fn orphan_total(h: TileTable) -> int {
    h[0][1] + h[0][9] + h[1][1] + h[1][9] + h[2][1] + h[2][9] + suit_total(h, 3)
}

/// The number of tiles of the three suits in the hand.
pub open spec fn suits_total(h: TileTable) -> int {
    suit_total(h, 0) + suit_total(h, 1) + suit_total(h, 2)
}

/// The number of suits of which the hand holds a tile.
pub open spec fn suits_used(h: TileTable) -> int {
    (if suit_total(h, 0) > 0 {
        1int
    } else {
        0int
    }) + (if suit_total(h, 1) > 0 {
        1int
    } else {
        0int
    }) + (if suit_total(h, 2) > 0 {
        1int
    } else {
        0int
    })
}

/// What is told of a hand by counts alone.
#[derive(Clone, Copy, Debug, PartialEq, Eq, Structural)]
pub struct Census {
    /// The hand holds no terminal and no honor.
    pub no_orphan: bool,
    /// The hand holds terminals and honors only.
    pub only_orphan: bool,
    /// The hand holds honors only.
    pub only_honor: bool,
    /// The hand holds tiles of one suit only and no honor.
    pub one_suit: bool,
    /// The hand holds tiles of one suit only and honors.
    pub one_suit_and_honor: bool,
}

/// What is told of a hand by counts alone.
pub open spec fn census_of(h: TileTable) -> Census {
    Census {
        no_orphan: orphan_total(h) == 0,
        only_orphan: suits_total(h) + suit_total(h, 3) == orphan_total(h),
        only_honor: suits_total(h) == 0,
        one_suit: suits_used(h) == 1 && suit_total(h, 3) == 0,
        one_suit_and_honor: suits_used(h) == 1 && suit_total(h, 3) > 0,
    }
}

/// What is told of a hand by counts alone.
pub fn take_census(h: &TileTable) -> (c: Census)
    requires
        table_bounded(*h),
    ensures
        c == census_of(*h),
{
    let m = count_suit(h, 0);
    let p = count_suit(h, 1);
    let s = count_suit(h, 2);
    let z = count_suit(h, 3);
    assert(forall|t: int, r: int| 0 <= t < TYPE && 0 <= r < TNUM ==> (#[trigger] h[t][r]) <= SLOT_MAX);
    let orphans = h[0][1] + h[0][9] + h[1][1] + h[1][9] + h[2][1] + h[2][9] + z;
    let used = (if m > 0 {
        1
    } else {
        0
    }) + (if p > 0 {
        1
    } else {
        0
    }) + (if s > 0 {
        1
    } else {
        0
    });
    Census {
        no_orphan: orphans == 0,
        only_orphan: m + p + s + z == orphans,
        only_honor: m + p + s == 0,
        one_suit: used == 1 && z == 0,
        one_suit_and_honor: used == 1 && z > 0,
    }
}

/// Whether the hand is the nine gates in suit `t`: fourteen tiles of that
/// suit, three ones, three nines, and every rank between.
pub open spec fn gates_in(h: TileTable, t: int) -> bool {
    &&& suit_total(h, t) == 14
    &&& h[t][1] >= 3
    &&& h[t][9] >= 3
    &&& h[t][2] >= 1
    &&& h[t][3] >= 1
    &&& h[t][4] >= 1
    &&& h[t][5] >= 1
    &&& h[t][6] >= 1
    &&& h[t][7] >= 1
    &&& h[t][8] >= 1
}

/// Whether the winning tile is the one tile more than the nine gates
/// need, so that any tile of the suit would have won.
pub open spec fn gates_wait_nine(h: TileTable, w: Tile) -> bool {
    if w.1 == 1 || w.1 == 9 {
        h[w.0 as int][w.1 as int] == 4
    } else {
        h[w.0 as int][w.1 as int] == 2
    }
}

/// The number of yakuman that the hand counts as the nine gates: two
/// where any tile of the suit would have won, one for any other nine
/// gates, none where the hand is no nine gates or has a meld.
pub open spec fn gates_of(h: TileTable, i: WinInfo) -> int {
    if i.n_melds == 0 && i.win_tile.0 < TZ && 1 <= i.win_tile.1 < TNUM && gates_in(
        h,
        i.win_tile.0 as int,
    ) {
        if gates_wait_nine(h, i.win_tile) {
            2
        } else {
            1
        }
    } else {
        0
    }
}

/// The number of yakuman that the hand counts as the nine gates.
pub fn count_gates(h: &TileTable, i: &WinInfo) -> (n: usize)
    requires
        table_bounded(*h),
    ensures
        n == gates_of(*h, *i),
        n <= 2,
{
    let w = i.win_tile;
    if i.n_melds != 0 || w.0 >= TZ || w.1 < 1 || w.1 >= TNUM {
        return 0;
    }
    let t = w.0;
    if count_suit(h, t) == 14 && h[t][1] >= 3 && h[t][9] >= 3 && h[t][2] >= 1 && h[t][3] >= 1
        && h[t][4] >= 1 && h[t][5] >= 1 && h[t][6] >= 1 && h[t][7] >= 1 && h[t][8] >= 1 {
        let nine = if w.1 == 1 || w.1 == 9 {
            h[t][w.1] == 4
        } else {
            h[t][w.1] == 2
        };
        if nine {
            2
        } else {
            1
        }
    } else {
        0
    }
}

/// One where the tile is of the kind `x`, a red five being a five.
pub open spec fn is_kind(t: Tile, x: Tile) -> int {
    if t.spec_to_normal() == x {
        1
    } else {
        0
    }
}

/// The number of the first `n` tiles that are of the kind `x`.
pub open spec fn kind_among(tiles: Seq<Tile>, x: Tile, n: int) -> int
    decreases n,
{
    if n <= 0 {
        0
    } else {
        kind_among(tiles, x, n - 1) + is_kind(tiles[n - 1], x)
    }
}

/// The number of tiles of the kind `x` in the first `n` melds.
pub open spec fn kind_in_melds(melds: Seq<Meld>, x: Tile, n: int) -> int
    decreases n,
{
    if n <= 0 {
        0
    } else {
        kind_in_melds(melds, x, n - 1) + kind_among(
            melds[n - 1].tiles@,
            x,
            melds[n - 1].tiles.len() as int,
        )
    }
}

/// The number of tiles of the kind `x` in hand and melds.
pub open spec fn kind_total(h: TileTable, melds: Seq<Meld>, x: Tile) -> int {
    h[x.0 as int][x.1 as int] + kind_in_melds(melds, x, melds.len() as int)
}

/// Whether the melds are few and small enough to count their tiles.
pub open spec fn melds_small(melds: Seq<Meld>) -> bool {
    &&& melds.len() <= 4
    &&& forall|i: int| 0 <= i < melds.len() ==> (#[trigger] melds[i]).tiles.len() <= 4
}

/// The number of tiles of the kind `x` in hand and melds.
pub fn count_kind(h: &TileTable, melds: &Vec<Meld>, x: Tile) -> (n: usize)
    requires
        table_bounded(*h),
        x.in_table(),
        melds_small(melds@),
    ensures
        n == kind_total(*h, melds@, x),
        n <= SLOT_MAX + 16,
{
    assert(h[x.0 as int][x.1 as int] <= SLOT_MAX);
    let mut n: usize = 0;
    let mut i: usize = 0;
    while i < melds.len()
        invariant
            i <= melds.len(),
            melds_small(melds@),
            n == kind_in_melds(melds@, x, i as int),
            n <= 4 * i,
        decreases melds.len() - i,
    {
        let m = &melds[i];
        assert(m.tiles.len() <= 4);
        let mut k: usize = 0;
        let mut c: usize = 0;
        while k < m.tiles.len()
            invariant
                k <= m.tiles.len() <= 4,
                c == kind_among(m.tiles@, x, k as int),
                c <= k,
            decreases m.tiles.len() - k,
        {
            if m.tiles[k].to_normal() == x {
                c += 1;
            }
            k += 1;
        }
        n += c;
        i += 1;
    }
    h[x.0][x.1] + n
}

/// The number of dora that the first `n` indicators make of the tiles in
/// hand and melds: for each indicator, the tiles of the kind that it
/// indicates.
pub open spec fn dora_total(inds: Seq<Tile>, h: TileTable, melds: Seq<Meld>, n: int) -> int
    decreases n,
{
    if n <= 0 {
        0
    } else {
        dora_total(inds, h, melds, n - 1) + kind_total(h, melds, inds[n - 1].spec_next_tile())
    }
}

/// The most indicators whose dora are counted: so many that the count,
/// thirty at most for each, fits any `usize` twice over.
pub const INDICATORS_MAX: usize = 0x100_0000;

/// Whether an indicator can be read: it and the tile that it indicates
/// are slots of a hand table.
pub open spec fn indicates(x: Tile) -> bool {
    x.in_table() && x.spec_next_tile().in_table()
}

/// Whether the dora of the indicators can be counted: they are not more
/// than [`INDICATORS_MAX`], and each of them can be read.
pub open spec fn indicators_ok(inds: Seq<Tile>) -> bool {
    &&& inds.len() <= INDICATORS_MAX
    &&& forall|i: int| 0 <= i < inds.len() ==> indicates(#[trigger] inds[i])
}

/// The number of dora that the indicators make of the tiles in hand and
/// melds.
pub fn count_dora(inds: &Vec<Tile>, h: &TileTable, melds: &Vec<Meld>) -> (n: usize)
    requires
        table_bounded(*h),
        melds_small(melds@),
        indicators_ok(inds@),
    ensures
        n == dora_total(inds@, *h, melds@, inds.len() as int),
        n <= 30 * inds.len(),
{
    let mut n: usize = 0;
    let mut i: usize = 0;
    while i < inds.len()
        invariant
            i <= inds.len() <= INDICATORS_MAX,
            table_bounded(*h),
            melds_small(melds@),
            indicators_ok(inds@),
            n == dora_total(inds@, *h, melds@, i as int),
            n <= 30 * i,
        decreases inds.len() - i,
    {
        assert(indicates(inds[i as int]));
        let d = inds[i].next_tile();
        n += count_kind(h, melds, d);
        i += 1;
    }
    n
}

/// One where the tile is a red five.
pub open spec fn is_red(t: Tile) -> int {
    if t.0 != TZ && t.1 == 0 {
        1
    } else {
        0
    }
}

/// The number of red fives among the first `n` tiles.
pub open spec fn red_among(tiles: Seq<Tile>, n: int) -> int
    decreases n,
{
    if n <= 0 {
        0
    } else {
        red_among(tiles, n - 1) + is_red(tiles[n - 1])
    }
}

/// The number of red fives in the first `n` melds.
pub open spec fn red_in_melds(melds: Seq<Meld>, n: int) -> int
    decreases n,
{
    if n <= 0 {
        0
    } else {
        red_in_melds(melds, n - 1) + red_among(melds[n - 1].tiles@, melds[n - 1].tiles.len() as int)
    }
}

/// The number of red fives in hand and melds.
pub open spec fn red_total(h: TileTable, melds: Seq<Meld>) -> int {
    h[0][0] + h[1][0] + h[2][0] + red_in_melds(melds, melds.len() as int)
}

/// The number of red fives in hand and melds.
pub fn count_red(h: &TileTable, melds: &Vec<Meld>) -> (n: usize)
    requires
        table_bounded(*h),
        melds_small(melds@),
    ensures
        n == red_total(*h, melds@),
        n <= 3 * SLOT_MAX + 16,
{
    assert(forall|t: int, r: int| 0 <= t < TYPE && 0 <= r < TNUM ==> (#[trigger] h[t][r]) <= SLOT_MAX);
    let mut n: usize = 0;
    let mut i: usize = 0;
    while i < melds.len()
        invariant
            i <= melds.len(),
            melds_small(melds@),
            n == red_in_melds(melds@, i as int),
            n <= 4 * i,
        decreases melds.len() - i,
    {
        let m = &melds[i];
        assert(m.tiles.len() <= 4);
        let mut k: usize = 0;
        let mut c: usize = 0;
        while k < m.tiles.len()
            invariant
                k <= m.tiles.len() <= 4,
                c == red_among(m.tiles@, k as int),
                c <= k,
            decreases m.tiles.len() - k,
        {
            if m.tiles[k].0 != TZ && m.tiles[k].1 == 0 {
                c += 1;
            }
            k += 1;
        }
        n += c;
        i += 1;
    }
    h[0][0] + h[1][0] + h[2][0] + n
}

/// One more indicator makes no dora less.
pub proof fn lemma_dora_grows(inds: Seq<Tile>, d: Tile, h: TileTable, melds: Seq<Meld>)
    ensures
        dora_total(inds.push(d), h, melds, inds.len() as int + 1) >= dora_total(
            inds,
            h,
            melds,
            inds.len() as int,
        ),
{
    lemma_dora_same_prefix(inds, inds.push(d), h, melds, inds.len() as int);
    lemma_kind_total_nonneg(h, melds, d.spec_next_tile());
}

proof fn lemma_dora_same_prefix(a: Seq<Tile>, b: Seq<Tile>, h: TileTable, melds: Seq<Meld>, n: int)
    requires
        0 <= n <= a.len(),
        n <= b.len(),
        forall|i: int| 0 <= i < n ==> a[i] == b[i],
    ensures
        dora_total(a, h, melds, n) == dora_total(b, h, melds, n),
    decreases n,
{
    if n > 0 {
        lemma_dora_same_prefix(a, b, h, melds, n - 1);
    }
}

/// A count of tiles is not negative.
pub proof fn lemma_kind_total_nonneg(h: TileTable, melds: Seq<Meld>, x: Tile)
    ensures
        kind_total(h, melds, x) >= 0,
{
    lemma_kind_in_melds_nonneg(melds, x, melds.len() as int);
}

proof fn lemma_kind_in_melds_nonneg(melds: Seq<Meld>, x: Tile, n: int)
    ensures
        kind_in_melds(melds, x, n) >= 0,
    decreases n,
{
    if n > 0 {
        lemma_kind_in_melds_nonneg(melds, x, n - 1);
        lemma_kind_among_nonneg(melds[n - 1].tiles@, x, melds[n - 1].tiles.len() as int);
    }
}

proof fn lemma_kind_among_nonneg(tiles: Seq<Tile>, x: Tile, n: int)
    ensures
        kind_among(tiles, x, n) >= 0,
    decreases n,
{
    if n > 0 {
        lemma_kind_among_nonneg(tiles, x, n - 1);
    }
}

/// Whether the dora of the indicators can be counted.
pub fn check_indicators(inds: &Vec<Tile>) -> (r: bool)
    ensures
        r == indicators_ok(inds@),
{
    if inds.len() > INDICATORS_MAX {
        return false;
    }
    let mut i: usize = 0;
    while i < inds.len()
        invariant
            i <= inds.len() <= INDICATORS_MAX,
            forall|k: int| 0 <= k < i ==> indicates(#[trigger] inds[k]),
        decreases inds.len() - i,
    {
        let x = inds[i];
        if !(x.0 < TYPE && x.1 < TNUM) {
            return false;
        }
        let d = x.next_tile();
        if !(d.0 < TYPE && d.1 < TNUM) {
            return false;
        }
        i += 1;
    }
    true
}

} // verus!
