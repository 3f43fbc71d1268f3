//! The shape of a hand: the ways to split its concealed tiles into sets,
//! and the tiles that complete it.
//!
//! A hand is read slot by slot, suit after suit and rank after rank. At
//! the first slot that holds a tile, that tile starts a triplet or a run.
//! Every split of the tiles into sets is found in this way, and a split
//! that holds a triplet and a run of the same first rank is found once
//! for each order of the two.

use crate::model::define::{TNUM, TYPE, TZ};
use crate::model::tile::{
    add_tile, count_tiles, hand_total, table_bounded, table_view, tile_added, Tile, TileTable,
    SLOT_MAX,
};
use vstd::prelude::*;

verus! {

/// The kind of a set found among the concealed tiles.
#[derive(Clone, Copy, Debug, PartialEq, Eq, Structural)]
pub enum PieceKind {
    /// Three tiles of one suit with ranks in a row.
    Run,
    /// Three tiles alike.
    Triplet,
}

/// A set found among the concealed tiles: its kind and its first tile.
#[derive(Clone, Copy, Debug, PartialEq, Eq, Structural)]
pub struct Piece {
    pub kind: PieceKind,
    pub suit: usize,
    pub rank: usize,
}

/// The counts with `k` tiles less in the slot of suit `s` and rank `r`.
pub open spec fn less(t: Seq<Seq<int>>, s: int, r: int, k: int) -> Seq<Seq<int>> {
    t.update(s, t[s].update(r, t[s][r] - k))
}

/// The counts without one run that starts at rank `r` of suit `s`.
pub open spec fn less_run(t: Seq<Seq<int>>, s: int, r: int) -> Seq<Seq<int>> {
    less(less(less(t, s, r, 1), s, r + 1, 1), s, r + 2, 1)
}

/// Each way with the piece `p` put in front.
pub open spec fn with_first(p: Piece, ways: Seq<Seq<Piece>>) -> Seq<Seq<Piece>> {
    Seq::new(ways.len(), |i: int| seq![p] + ways[i])
}

/// Whether a run can start at the slot: in a suit, at a rank up to 7,
/// with a tile of each of the three ranks.
pub open spec fn run_starts(t: Seq<Seq<int>>, s: int, r: int) -> bool {
    s < TZ && 1 <= r <= 7 && t[s][r] >= 1 && t[s][r + 1] >= 1 && t[s][r + 2] >= 1
}

/// The ways to split the tiles at the slots from `k` on into sets, where
/// `n` tiles are left. Slot `k` is rank `k % 10` of suit `k / 10`; the
/// slots of rank 0 are passed over, a red five being a five.
pub open spec fn splits(t: Seq<Seq<int>>, k: int, n: nat) -> Seq<Seq<Piece>>
    decreases n, 40 - k,
{
    let s = k / 10;
    let r = k % 10;
    if k < 0 {
        Seq::empty()
    } else if k >= 40 {
        seq![Seq::empty()]
    } else if r == 0 || t[s][r] <= 0 {
        splits(t, k + 1, n)
    } else if n < 3 {
        Seq::empty()
    } else {
        (if t[s][r] >= 3 {
            with_first(
                Piece { kind: PieceKind::Triplet, suit: s as usize, rank: r as usize },
                splits(less(t, s, r, 3), k, (n - 3) as nat),
            )
        } else {
            Seq::empty()
        }) + (if run_starts(t, s, r) {
            with_first(
                Piece { kind: PieceKind::Run, suit: s as usize, rank: r as usize },
                splits(less_run(t, s, r), k, (n - 3) as nat),
            )
        } else {
            Seq::empty()
        })
    }
}

/// The pieces of each way.
pub open spec fn ways_view(ways: Seq<Vec<Piece>>) -> Seq<Seq<Piece>> {
    Seq::new(ways.len(), |i: int| ways[i]@)
}

fn put_first(p: Piece, ways: Vec<Vec<Piece>>, out: &mut Vec<Vec<Piece>>)
    ensures
        ways_view(final(out)@) == ways_view(old(out)@) + with_first(p, ways_view(ways@)),
{
    let ghost want = with_first(p, ways_view(ways@));
    let ghost start = ways_view(out@);
    let mut i: usize = 0;
    proof {
        assert(ways_view(out@) =~= start + want.take(0));
    }
    while i < ways.len()
        invariant
            i <= ways.len(),
            want == with_first(p, ways_view(ways@)),
            ways_view(out@) == start + want.take(i as int),
        decreases ways.len() - i,
    {
        let mut row: Vec<Piece> = Vec::new();
        row.push(p);
        let way = &ways[i];
        let mut j: usize = 0;
        while j < way.len()
            invariant
                j <= way.len(),
                row@ == seq![p] + way@.take(j as int),
            decreases way.len() - j,
        {
            row.push(way[j]);
            assert(seq![p] + way@.take(j + 1) =~= (seq![p] + way@.take(j as int)).push(way@[j as int]));
            j += 1;
        }
        proof {
            assert(way@.take(way.len() as int) == way@);
            assert(row@ == want[i as int]);
        }
        let ghost before = ways_view(out@);
        out.push(row);
        proof {
            assert(ways_view(out@) =~= before.push(want[i as int]));
            assert(want.take(i + 1) =~= want.take(i as int).push(want[i as int]));
            assert(ways_view(out@) =~= start + want.take(i + 1));
        }
        i += 1;
    }
    assert(want.take(ways.len() as int) =~= want);
}

/// The ways to split the tiles at the slots from `k` on into sets, where
/// `n` tiles are left.
pub fn split_from(t: &TileTable, k: usize, n: usize) -> (r: Vec<Vec<Piece>>)
    requires
        table_bounded(*t),
    ensures
        ways_view(r@) == splits(table_view(*t), k as int, n as nat),
    decreases n, 40 - k,
{
    let mut out: Vec<Vec<Piece>> = Vec::new();
    if k >= 40 {
        out.push(Vec::new());
        assert(ways_view(out@) =~= seq![Seq::<Piece>::empty()]);
        return out;
    }
    let s = k / 10;
    let r = k % 10;
    if r == 0 || t[s][r] == 0 {
        return split_from(t, k + 1, n);
    }
    if n < 3 {
        assert(ways_view(out@) =~= Seq::<Seq<Piece>>::empty());
        return out;
    }
    let ghost tv = table_view(*t);
    proof {
        assert(ways_view(out@) =~= Seq::<Seq<Piece>>::empty());
    }
    if t[s][r] >= 3 {
        let mut t2 = *t;
        t2[s][r] -= 3;
        proof {
            lemma_less_view(*t, t2, s as int, r as int, 3);
        }
        let rest = split_from(&t2, k, n - 3);
        put_first(Piece { kind: PieceKind::Triplet, suit: s, rank: r }, rest, &mut out);
    }
    let ghost mid = ways_view(out@);
    if s < TZ && r <= 7 && t[s][r + 1] >= 1 && t[s][r + 2] >= 1 {
        let mut t2 = *t;
        t2[s][r] -= 1;
        let ghost a = t2;
        t2[s][r + 1] -= 1;
        let ghost b = t2;
        t2[s][r + 2] -= 1;
        proof {
            lemma_less_view(*t, a, s as int, r as int, 1);
            lemma_less_view(a, b, s as int, r + 1, 1);
            lemma_less_view(b, t2, s as int, r + 2, 1);
        }
        let rest = split_from(&t2, k, n - 3);
        put_first(Piece { kind: PieceKind::Run, suit: s, rank: r }, rest, &mut out);
    } else {
        assert(ways_view(out@) =~= mid + Seq::<Seq<Piece>>::empty());
    }
    out
}

/// Taking tiles out of one slot of a table takes them out of its counts.
pub proof fn lemma_less_view(t: TileTable, t2: TileTable, s: int, r: int, k: int)
    requires
        0 <= s < TYPE,
        0 <= r < TNUM,
        t[s][r] >= k >= 0,
        t2[s][r] == t[s][r] - k,
        forall|a: int, b: int|
            0 <= a < TYPE && 0 <= b < TNUM && !(a == s && b == r) ==> t2[a][b] == t[a][b],
        table_bounded(t),
    ensures
        table_view(t2) == less(table_view(t), s, r, k),
        table_bounded(t2),
{
    let want = less(table_view(t), s, r, k);
    assert forall|a: int| 0 <= a < TYPE implies table_view(t2)[a] =~= want[a] by {
        assert forall|b: int| 0 <= b < TNUM implies table_view(t2)[a][b] == want[a][b] by {
            if a == s && b == r {
            } else {
                assert(t2[a][b] == t[a][b]);
            }
        }
    }
    assert(table_view(t2) =~= want);
    assert forall|a: int, b: int| 0 <= a < TYPE && 0 <= b < TNUM implies (#[trigger] t2[a][b])
        <= SLOT_MAX by {
        if a == s && b == r {
        } else {
            assert(t2[a][b] == t[a][b]);
        }
    }
}

/// A way to win in the regular form: a pair and sets.
#[derive(Debug)]
pub struct HandWay {
    pub pair: Tile,
    pub sets: Vec<Piece>,
}

/// Each way as a way to win with the pair `p`.
pub open spec fn with_pair(p: Tile, ways: Seq<Seq<Piece>>) -> Seq<(Tile, Seq<Piece>)> {
    Seq::new(ways.len(), |i: int| (p, ways[i]))
}

/// The ways to split `n` tiles into a pair and sets, the pair taken from
/// a slot before slot `k`.
pub open spec fn pair_ways(t: Seq<Seq<int>>, k: int, n: nat) -> Seq<(Tile, Seq<Piece>)>
    decreases k,
{
    if k <= 0 {
        Seq::empty()
    } else {
        let before = pair_ways(t, k - 1, n);
        let s = (k - 1) / 10;
        let r = (k - 1) % 10;
        if r != 0 && t[s][r] >= 2 && n >= 2 {
            before + with_pair(
                Tile(s as usize, r as usize),
                splits(less(t, s, r, 2), 0, (n - 2) as nat),
            )
        } else {
            before
        }
    }
}

/// Pair and sets of each way.
pub open spec fn hand_ways_view(ways: Seq<HandWay>) -> Seq<(Tile, Seq<Piece>)> {
    Seq::new(ways.len(), |i: int| (ways[i].pair, ways[i].sets@))
}

/// The ways to split the tiles of a hand into a pair and sets.
pub open spec fn regular_ways(h: TileTable) -> Seq<(Tile, Seq<Piece>)> {
    pair_ways(table_view(h), 40, hand_total(h) as nat)
}

fn put_pair(p: Tile, ways: Vec<Vec<Piece>>, out: &mut Vec<HandWay>)
    ensures
        hand_ways_view(final(out)@) == hand_ways_view(old(out)@) + with_pair(p, ways_view(ways@)),
{
    let ghost want = with_pair(p, ways_view(ways@));
    let ghost start = hand_ways_view(out@);
    let mut ways = ways;
    let ghost all = ways_view(ways@);
    let n = ways.len();
    let mut taken: Vec<Vec<Piece>> = Vec::new();
    // Take the ways from the last to the first, then put them in order.
    while ways.len() > 0
        invariant
            ways.len() + taken.len() == n,
            n == all.len(),
            forall|i: int| 0 <= i < ways.len() ==> (#[trigger] ways@[i])@ == all[i],
            forall|i: int|
                0 <= i < taken.len() ==> (#[trigger] taken@[i])@ == all[n - 1 - i],
        decreases ways.len(),
    {
        match ways.pop() {
            Some(w) => {
                taken.push(w);
            },
            None => {},
        }
    }
    proof {
        assert(hand_ways_view(out@) =~= start + want.take(0));
    }
    let mut i: usize = 0;
    while taken.len() > 0
        invariant
            i + taken.len() == n,
            n == all.len(),
            want == with_pair(p, all),
            forall|j: int|
                0 <= j < taken.len() ==> (#[trigger] taken@[j])@ == all[n - 1 - j],
            hand_ways_view(out@) == start + want.take(i as int),
        decreases taken.len(),
    {
        let ghost before = hand_ways_view(out@);
        match taken.pop() {
            Some(w) => {
                assert(w@ == all[i as int]);
                out.push(HandWay { pair: p, sets: w });
            },
            None => {},
        }
        proof {
            assert(hand_ways_view(out@) =~= before.push(want[i as int]));
            assert(want.take(i + 1) =~= want.take(i as int).push(want[i as int]));
        }
        i += 1;
    }
    assert(want.take(n as int) =~= want);
}

/// The ways to split the tiles of a hand into a pair and sets.
pub fn calc_regular_ways(h: &TileTable) -> (r: Vec<HandWay>)
    requires
        table_bounded(*h),
    ensures
        hand_ways_view(r@) == regular_ways(*h),
{
    let n = count_tiles(h);
    let mut out: Vec<HandWay> = Vec::new();
    let mut k: usize = 0;
    proof {
        assert(hand_ways_view(out@) =~= pair_ways(table_view(*h), 0, n as nat));
    }
    while k < 40
        invariant
            k <= 40,
            table_bounded(*h),
            n == hand_total(*h),
            hand_ways_view(out@) == pair_ways(table_view(*h), k as int, n as nat),
        decreases 40 - k,
    {
        let s = k / 10;
        let r = k % 10;
        if r != 0 && h[s][r] >= 2 && n >= 2 {
            let mut h2 = *h;
            h2[s][r] -= 2;
            proof {
                lemma_less_view(*h, h2, s as int, r as int, 2);
            }
            let ways = split_from(&h2, 0, n - 2);
            put_pair(Tile(s, r), ways, &mut out);
        }
        k += 1;
    }
    out
}

/// Whether the slot holds a terminal or an honor.
pub open spec fn orphan_slot(s: int, r: int) -> bool {
    if s == TZ {
        1 <= r <= 7
    } else {
        r == 1 || r == 9
    }
}

/// Seven pairs: fourteen tiles, two of each of seven kinds.
pub open spec fn is_seven_pairs(h: TileTable) -> bool {
    &&& hand_total(h) == 14
    &&& forall|s: int, r: int|
        0 <= s < TYPE && 1 <= r < TNUM ==> (#[trigger] h[s][r]) == 0 || h[s][r] == 2
}

/// Thirteen orphans: fourteen tiles, every terminal and honor, and
/// nothing else.
pub open spec fn is_thirteen_orphans(h: TileTable) -> bool {
    &&& hand_total(h) == 14
    &&& forall|s: int, r: int|
        0 <= s < TYPE && 1 <= r < TNUM ==> if orphan_slot(s, r) {
            (#[trigger] h[s][r]) >= 1
        } else {
            h[s][r] == 0
        }
}

/// Whether the tiles of a hand, the winning tile among them, make a
/// winning shape: a pair and sets, seven pairs, or thirteen orphans.
pub open spec fn wins(h: TileTable) -> bool {
    regular_ways(h).len() > 0 || is_seven_pairs(h) || is_thirteen_orphans(h)
}

/// Whether the hand is seven pairs.
pub fn check_seven_pairs(h: &TileTable) -> (r: bool)
    requires
        table_bounded(*h),
    ensures
        r == is_seven_pairs(*h),
{
    if count_tiles(h) != 14 {
        return false;
    }
    let mut s: usize = 0;
    while s < TYPE
        invariant
            s <= TYPE,
            forall|a: int, b: int|
                0 <= a < s && 1 <= b < TNUM ==> (#[trigger] h[a][b]) == 0 || h[a][b] == 2,
        decreases TYPE - s,
    {
        let mut r: usize = 1;
        while r < TNUM
            invariant
                s < TYPE,
                1 <= r <= TNUM,
                forall|a: int, b: int|
                    0 <= a < s && 1 <= b < TNUM ==> (#[trigger] h[a][b]) == 0 || h[a][b] == 2,
                forall|b: int| 1 <= b < r ==> (#[trigger] h[s as int][b]) == 0 || h[s as int][b] == 2,
            decreases TNUM - r,
        {
            if h[s][r] != 0 && h[s][r] != 2 {
                return false;
            }
            r += 1;
        }
        s += 1;
    }
    true
}

/// Whether the hand is thirteen orphans.
pub fn check_thirteen_orphans(h: &TileTable) -> (r: bool)
    requires
        table_bounded(*h),
    ensures
        r == is_thirteen_orphans(*h),
{
    if count_tiles(h) != 14 {
        return false;
    }
    let mut s: usize = 0;
    while s < TYPE
        invariant
            s <= TYPE,
            forall|a: int, b: int|
                0 <= a < s && 1 <= b < TNUM ==> if orphan_slot(a, b) {
                    (#[trigger] h[a][b]) >= 1
                } else {
                    h[a][b] == 0
                },
        decreases TYPE - s,
    {
        let mut r: usize = 1;
        while r < TNUM
            invariant
                s < TYPE,
                1 <= r <= TNUM,
                forall|a: int, b: int|
                    0 <= a < s && 1 <= b < TNUM ==> if orphan_slot(a, b) {
                        (#[trigger] h[a][b]) >= 1
                    } else {
                        h[a][b] == 0
                    },
                forall|b: int|
                    1 <= b < r ==> if orphan_slot(s as int, b) {
                        (#[trigger] h[s as int][b]) >= 1
                    } else {
                        h[s as int][b] == 0
                    },
            decreases TNUM - r,
        {
            let orphan = if s == TZ {
                r <= 7
            } else {
                r == 1 || r == 9
            };
            if orphan {
                if h[s][r] == 0 {
                    return false;
                }
            } else {
                if h[s][r] != 0 {
                    return false;
                }
            }
            r += 1;
        }
        s += 1;
    }
    true
}

/// Whether the tiles of a hand make a winning shape.
pub fn is_winning(h: &TileTable) -> (r: bool)
    requires
        table_bounded(*h),
    ensures
        r == wins(*h),
{
    let ways = calc_regular_ways(h);
    ways.len() > 0 || check_seven_pairs(h) || check_thirteen_orphans(h)
}

/// Whether every slot of the table has room for one tile more.
pub open spec fn table_roomy(h: TileTable) -> bool {
    forall|t: int, n: int| 0 <= t < TYPE && 0 <= n < TNUM ==> (#[trigger] h[t][n]) < SLOT_MAX
}

/// Two tables that hold the same tiles plus one are one table.
pub proof fn lemma_added_unique(h: TileTable, x: Tile, a: TileTable, b: TileTable)
    requires
        tile_added(h, x, a),
        tile_added(h, x, b),
    ensures
        a == b,
{
    assert forall|t: int| 0 <= t < TYPE implies a[t] == b[t] by {
        assert forall|n: int| 0 <= n < TNUM implies a[t][n] == b[t][n] by {
            assert(a[t][n] == h[t][n] + crate::model::tile::tile_weight(x, t, n));
            assert(b[t][n] == h[t][n] + crate::model::tile::tile_weight(x, t, n));
        }
        assert(a[t] =~= b[t]);
    }
    assert(a =~= b);
}

/// Whether the tile `x` completes the hand: the hand with `x` added makes
/// a winning shape.
pub open spec fn completes(h: TileTable, x: Tile) -> bool {
    exists|h2: TileTable| tile_added(h, x, h2) && wins(h2)
}

/// Whether the slot is that of a kind of tile: a rank from 1 to 9 of a
/// suit, or an honor from east to red.
pub open spec fn kind_slot(k: int) -> bool {
    let s = k / 10;
    let r = k % 10;
    0 <= k < 40 && r != 0 && (s == TZ ==> r <= 7)
}

/// The kinds of tiles before slot `k` that complete the hand.
pub open spec fn waits_before(h: TileTable, k: int) -> Seq<Tile>
    decreases k,
{
    if k <= 0 {
        Seq::empty()
    } else {
        let before = waits_before(h, k - 1);
        let x = Tile(((k - 1) / 10) as usize, ((k - 1) % 10) as usize);
        if kind_slot(k - 1) && completes(h, x) {
            before.push(x)
        } else {
            before
        }
    }
}

/// The kinds of tiles that complete the hand, in the order of tiles.
pub open spec fn waits(h: TileTable) -> Seq<Tile> {
    waits_before(h, 40)
}

/// Whether the tile `x` completes the hand.
pub fn is_winning_with(h: &TileTable, x: Tile) -> (r: bool)
    requires
        table_roomy(*h),
        x.in_table(),
    ensures
        r == completes(*h, x),
{
    let mut h2 = *h;
    add_tile(&mut h2, x);
    proof {
        assert forall|t: int, n: int| 0 <= t < TYPE && 0 <= n < TNUM implies (#[trigger] h2[t][n])
            <= SLOT_MAX by {
            assert(h2[t][n] == h[t][n] + crate::model::tile::tile_weight(x, t, n));
        }
    }
    let r = is_winning(&h2);
    proof {
        if !r {
            assert forall|h3: TileTable| tile_added(*h, x, h3) implies !wins(h3) by {
                lemma_added_unique(*h, x, h2, h3);
            }
        }
    }
    r
}

/// The kinds of tiles that complete the hand, in the order of tiles.
pub fn winning_tiles(h: &TileTable) -> (r: Vec<Tile>)
    requires
        table_roomy(*h),
    ensures
        r@ == waits(*h),
{
    let mut out: Vec<Tile> = Vec::new();
    let mut k: usize = 0;
    while k < 40
        invariant
            k <= 40,
            table_roomy(*h),
            out@ == waits_before(*h, k as int),
        decreases 40 - k,
    {
        let s = k / 10;
        let r = k % 10;
        if r != 0 && (s != TZ || r <= 7) {
            if is_winning_with(h, Tile(s, r)) {
                out.push(Tile(s, r));
            }
        }
        k += 1;
    }
    out
}

/// Every piece of every split starts at a rank that there is.
pub proof fn lemma_splits_ranks(t: Seq<Seq<int>>, k: int, n: nat, w: int)
    requires
        0 <= w < splits(t, k, n).len(),
    ensures
        forall|j: int| 0 <= j < splits(t, k, n)[w].len() ==> (#[trigger] splits(t, k, n)[w][j]).rank
            <= TNUM,
    decreases n, 40 - k,
{
    let s = k / 10;
    let r = k % 10;
    if k < 0 {
    } else if k >= 40 {
    } else if r == 0 || t[s][r] <= 0 {
        lemma_splits_ranks(t, k + 1, n, w);
    } else if n < 3 {
    } else {
        let first = if t[s][r] >= 3 {
            with_first(
                Piece { kind: PieceKind::Triplet, suit: s as usize, rank: r as usize },
                splits(less(t, s, r, 3), k, (n - 3) as nat),
            )
        } else {
            Seq::empty()
        };
        if w < first.len() {
            lemma_splits_ranks(less(t, s, r, 3), k, (n - 3) as nat, w);
        } else {
            lemma_splits_ranks(less_run(t, s, r), k, (n - 3) as nat, w - first.len());
        }
    }
}

/// Every piece of every way to win starts at a rank that there is.
pub proof fn lemma_pair_ways_ranks(t: Seq<Seq<int>>, k: int, n: nat, w: int)
    requires
        0 <= w < pair_ways(t, k, n).len(),
    ensures
        forall|j: int|
            0 <= j < pair_ways(t, k, n)[w].1.len() ==> (#[trigger] pair_ways(t, k, n)[w].1[j]).rank
                <= TNUM,
    decreases k,
{
    if k > 0 {
        let before = pair_ways(t, k - 1, n);
        if w < before.len() {
            lemma_pair_ways_ranks(t, k - 1, n, w);
        } else {
            let s = (k - 1) / 10;
            let r = (k - 1) % 10;
            lemma_splits_ranks(less(t, s, r, 2), 0, (n - 2) as nat, w - before.len());
        }
    }
}

} // verus!
