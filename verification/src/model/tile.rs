//! Tile identity and the tile algebra.

use crate::model::define::{DR, DW, TNUM, TYPE, TZ, UK, WE, WN};
use vstd::prelude::*;

verus! {

/// A tile: suit and rank.
///
/// Suits are man (0), pin (1), sou (2) and honor (3). Suited tiles have the
/// ranks 1 to 9, and rank 0 is the red five of the suit. Honors have the
/// ranks 1 to 7 (east, south, west, north, white, green, red); honor rank 8
/// is the hidden tile.
#[derive(Clone, Copy, Debug, PartialEq, Eq, PartialOrd, Ord, Hash, Structural)]
pub struct Tile(pub usize, pub usize);

/// The hidden tile.
pub open spec fn spec_z8() -> Tile {
    Tile(TZ, UK)
}

/// The hidden tile.
#[verifier::when_used_as_spec(spec_z8)]
pub fn z8() -> (t: Tile)
    ensures
        t == Tile(TZ, UK),
{
    Tile(TZ, UK)
}

/// One rank-count row of a hand.
pub type TileRow = [usize; TNUM];

/// The tiles of a hand as counts per suit and rank. A red five is counted
/// both in slot 0 and in slot 5 of its suit.
pub type TileTable = [TileRow; TYPE];

impl Tile {
    /// The tile's suit.
    pub open spec fn suit(self) -> int {
        self.0 as int
    }

    /// The tile's rank slot.
    pub open spec fn rank(self) -> int {
        self.1 as int
    }

    /// A tile that addresses a slot of a [`TileTable`].
    pub open spec fn in_table(self) -> bool {
        self.0 < TYPE && self.1 < TNUM
    }

    /// A tile of the game: a suited tile of rank 0 to 9, an honor of rank 1
    /// to 7, or the hidden tile.
    pub open spec fn is_valid(self) -> bool {
        if self.0 < TZ {
            self.1 < TNUM
        } else {
            self.0 == TZ && WE <= self.1 <= UK
        }
    }

    /// A valid tile other than the hidden one.
    pub open spec fn is_known(self) -> bool {
        self.is_valid() && self != Tile(TZ, UK)
    }

    pub open spec fn spec_is_suit(&self) -> bool {
        self.0 != TZ
    }

    pub open spec fn spec_is_honor(&self) -> bool {
        self.0 == TZ
    }

    /// The rank that counts for the shape of a hand: 5 for a red five.
    pub open spec fn normal_rank(self) -> int {
        if self.0 != TZ && self.1 == 0 {
            5
        } else {
            self.1 as int
        }
    }

    pub open spec fn spec_to_normal(&self) -> Tile {
        if self.0 != TZ && self.1 == 0 {
            Tile(self.0, 5)
        } else {
            *self
        }
    }

    pub open spec fn spec_is_terminal(&self) -> bool {
        self.0 != TZ && (self.1 == 1 || self.1 == 9)
    }

    pub open spec fn spec_is_terminal_or_honor(&self) -> bool {
        self.0 == TZ || self.1 == 1 || self.1 == 9
    }

    pub open spec fn spec_is_simple(&self) -> bool {
        self.0 != TZ && self.normal_rank() >= 2 && self.normal_rank() <= 8
    }

    /// The tile that an indicator points at: the next rank within a suit,
    /// 9 wrapping to 1; east, south, west, north in a cycle; white, green,
    /// red in a cycle. A red five indicates the six.
    pub open spec fn spec_next_tile(&self) -> Tile {
        if self.0 != TZ {
            if self.normal_rank() == 9 {
                Tile(self.0, 1)
            } else {
                Tile(self.0, (self.normal_rank() + 1) as usize)
            }
        } else if self.1 == WN {
            Tile(TZ, WE)
        } else if self.1 == DR {
            Tile(TZ, DW)
        } else {
            Tile(TZ, (self.1 + 1) as usize)
        }
    }

    /// Whether the tile belongs to one of the three numbered suits.
    #[verifier::when_used_as_spec(spec_is_suit)]
    pub fn is_suit(&self) -> (r: bool)
        ensures
            r == self.spec_is_suit(),
    {
        self.0 != TZ
    }

    /// Whether the tile is an honor (the hidden tile counts as one).
    #[verifier::when_used_as_spec(spec_is_honor)]
    pub fn is_honor(&self) -> (r: bool)
        ensures
            r == self.spec_is_honor(),
    {
        self.0 == TZ
    }

    /// Whether the tile is a one or a nine of a suit.
    #[verifier::when_used_as_spec(spec_is_terminal)]
    pub fn is_terminal(&self) -> (r: bool)
        ensures
            r == self.spec_is_terminal(),
    {
        self.0 != TZ && (self.1 == 1 || self.1 == 9)
    }

    /// Whether the tile is an honor, a one or a nine.
    #[verifier::when_used_as_spec(spec_is_terminal_or_honor)]
    pub fn is_terminal_or_honor(&self) -> (r: bool)
        ensures
            r == self.spec_is_terminal_or_honor(),
    {
        self.0 == TZ || self.1 == 1 || self.1 == 9
    }

    /// Whether the tile is a suited tile of rank 2 to 8, the red five included.
    #[verifier::when_used_as_spec(spec_is_simple)]
    pub fn is_simple(&self) -> (r: bool)
        ensures
            r == self.spec_is_simple(),
    {
        self.0 != TZ && (self.1 == 0 || (2 <= self.1 && self.1 <= 8))
    }

    /// The tile with a red five turned into the plain five of its suit.
    #[verifier::when_used_as_spec(spec_to_normal)]
    pub fn to_normal(&self) -> (r: Tile)
        ensures
            r == self.spec_to_normal(),
    {
        if self.0 != TZ && self.1 == 0 {
            Tile(self.0, 5)
        } else {
            *self
        }
    }

    /// The tile that this tile indicates when it lies open as an indicator.
    #[verifier::when_used_as_spec(spec_next_tile)]
    pub fn next_tile(&self) -> (r: Tile)
        requires
            self.in_table(),
        ensures
            r == self.spec_next_tile(),
            self.is_known() ==> r.is_known() && r.1 != 0,
    {
        let n = self.to_normal();
        if n.0 != TZ {
            if n.1 == 9 {
                Tile(n.0, 1)
            } else {
                Tile(n.0, n.1 + 1)
            }
        } else if n.1 == WN {
            Tile(TZ, WE)
        } else if n.1 == DR {
            Tile(TZ, DW)
        } else {
            Tile(TZ, n.1 + 1)
        }
    }
}

/// Indicating is a cycle: within a suit nine steps lead back to the plain
/// tile, among the winds four, among the dragons three.
pub proof fn lemma_next_tile_cycles(t: Tile)
    requires
        t.is_known(),
    ensures
        t.0 != TZ ==> t.spec_next_tile().spec_next_tile().spec_next_tile().spec_next_tile().spec_next_tile().spec_next_tile().spec_next_tile().spec_next_tile().spec_next_tile()
            == t.spec_to_normal(),
        t.0 == TZ && t.1 <= WN ==> t.spec_next_tile().spec_next_tile().spec_next_tile().spec_next_tile()
            == t,
        t.0 == TZ && t.1 >= DW ==> t.spec_next_tile().spec_next_tile().spec_next_tile() == t,
        t.spec_next_tile().0 == t.0,
        (t.0 == TZ && t.1 <= WN) == (t.spec_next_tile().0 == TZ && t.spec_next_tile().1 <= WN),
{
}

/// The order of tiles: by suit, then by rank slot, so that a red five comes
/// before the one of its suit.
pub open spec fn tile_le(a: Tile, b: Tile) -> bool {
    a.0 < b.0 || (a.0 == b.0 && a.1 <= b.1)
}

/// Whether the tiles of `s` stand in order.
pub open spec fn tiles_sorted(s: Seq<Tile>) -> bool {
    forall|i: int, j: int| 0 <= i < j < s.len() ==> tile_le(s[i], s[j])
}

/// Where `x` goes into the ordered tiles `r`: behind every tile that
/// stands at or before it.
pub open spec fn insert_pos(r: Seq<Tile>, x: Tile) -> int
    decreases r.len(),
{
    if r.len() == 0 || !tile_le(r[0], x) {
        0
    } else {
        1 + insert_pos(r.drop_first(), x)
    }
}

/// The tiles of `s` in order.
pub open spec fn sorted_tiles(s: Seq<Tile>) -> Seq<Tile>
    decreases s.len(),
{
    if s.len() == 0 {
        Seq::empty()
    } else {
        let r = sorted_tiles(s.drop_last());
        r.insert(insert_pos(r, s.last()), s.last())
    }
}

/// Putting a tile into ordered tiles, behind those at or before it and
/// in front of the first that stands after it, keeps the order and adds
/// just that tile.
pub proof fn lemma_insert_keeps_order(before: Seq<Tile>, p: int, x: Tile)
    requires
        tiles_sorted(before),
        0 <= p <= before.len(),
        forall|k: int| 0 <= k < p ==> tile_le(before[k], x),
        p < before.len() ==> !tile_le(before[p], x),
    ensures
        tiles_sorted(before.insert(p, x)),
        before.insert(p, x).to_multiset() == before.to_multiset().insert(x),
{
    let after = before.insert(p, x);
    assert(after[p] == x);
    assert(after.remove(p) =~= before);
    vstd::seq_lib::to_multiset_remove(after, p);
    assert(after.to_multiset().remove(x) == before.to_multiset());
    after.to_multiset_ensures();
    assert(after.contains(x));
    assert(after.to_multiset().count(x) > 0);
    assert(after.to_multiset() =~= before.to_multiset().insert(x));
    assert forall|a: int, b: int| 0 <= a < b < after.len() implies tile_le(after[a], after[b]) by {
        if b < p {
            assert(after[a] == before[a] && after[b] == before[b]);
        } else if b == p {
            assert(after[a] == before[a]);
        } else if a < p {
            assert(after[a] == before[a] && after[b] == before[b - 1]);
            assert(tile_le(before[a], x));
            assert(!tile_le(before[p], x));
            assert(p == b - 1 || tile_le(before[p], before[b - 1]));
        } else if a == p {
            assert(after[b] == before[b - 1]);
            assert(!tile_le(before[p], x));
            assert(p == b - 1 || tile_le(before[p], before[b - 1]));
        } else {
            assert(after[a] == before[a - 1] && after[b] == before[b - 1]);
        }
    }
}

/// Whether `a` stands at or before `b` in the order of tiles.
pub fn tile_at_most(a: Tile, b: Tile) -> (r: bool)
    ensures
        r == tile_le(a, b),
{
    a.0 < b.0 || (a.0 == b.0 && a.1 <= b.1)
}

/// Puts the tiles in order.
pub fn sort_tiles(v: &mut Vec<Tile>)
    ensures
        final(v)@ == sorted_tiles(old(v)@),
        tiles_sorted(final(v)@),
        final(v)@.to_multiset() == old(v)@.to_multiset(),
{
    let mut r: Vec<Tile> = Vec::new();
    let mut i: usize = 0;
    proof {
        assert(v@.take(0) =~= Seq::<Tile>::empty());
    }
    while i < v.len()
        invariant
            i <= v.len(),
            tiles_sorted(r@),
            r@ == sorted_tiles(v@.take(i as int)),
            r@.to_multiset() == v@.take(i as int).to_multiset(),
        decreases v.len() - i,
    {
        let x = v[i];
        let mut p: usize = 0;
        proof {
            assert(r@.skip(0) =~= r@);
        }
        while p < r.len() && tile_at_most(r[p], x)
            invariant
                p <= r.len(),
                tiles_sorted(r@),
                forall|k: int| 0 <= k < p ==> tile_le(r@[k], x),
                insert_pos(r@, x) == p + insert_pos(r@.skip(p as int), x),
            decreases r.len() - p,
        {
            proof {
                assert(r@.skip(p as int).drop_first() =~= r@.skip(p + 1));
            }
            p += 1;
        }
        assert(insert_pos(r@, x) == p);
        let ghost before = r@;
        r.insert(p, x);
        proof {
            lemma_insert_keeps_order(before, p as int, x);
            assert(v@.take(i + 1) =~= v@.take(i as int).push(x));
            assert(v@.take(i + 1).drop_last() =~= v@.take(i as int));
            vstd::seq_lib::to_multiset_build(v@.take(i as int), x);
        }
        i += 1;
    }
    assert(v@.take(v.len() as int) == v@);
    *v = r;
}

/// The letter of a suit: `m`, `p`, `s`, and `z` for every other index.
pub open spec fn suit_letter(suit: usize) -> char {
    if suit == 0 {
        'm'
    } else if suit == 1 {
        'p'
    } else if suit == 2 {
        's'
    } else {
        'z'
    }
}

/// A copy of the tiles.
pub fn copy_tiles(v: &Vec<Tile>) -> (r: Vec<Tile>)
    ensures
        r@ == v@,
{
    let mut r: Vec<Tile> = Vec::new();
    let mut i: usize = 0;
    while i < v.len()
        invariant
            i <= v.len(),
            r@ == v@.take(i as int),
        decreases v.len() - i,
    {
        r.push(v[i]);
        assert(v@.take(i + 1) == v@.take(i as int).push(v@[i as int]));
        i += 1;
    }
    assert(v@.take(v.len() as int) == v@);
    r
}

/// The tiles of each list.
pub open spec fn rows_view(v: Seq<Vec<Tile>>) -> Seq<Seq<Tile>> {
    Seq::new(v.len(), |i: int| v[i]@)
}

/// The counts of a hand table.
pub open spec fn table_view(h: TileTable) -> Seq<Seq<int>> {
    Seq::new(TYPE as nat, |t: int| Seq::new(TNUM as nat, |n: int| h[t][n] as int))
}

/// The most tiles that one slot of a hand holds: a full hand of hidden tiles.
pub const SLOT_MAX: usize = 14;

/// Whether no slot of the table holds more than a hand can.
pub open spec fn table_bounded(h: TileTable) -> bool {
    forall|t: int, n: int| 0 <= t < TYPE && 0 <= n < TNUM ==> (#[trigger] h[t][n]) <= SLOT_MAX
}

/// What the tile `x` counts in the slot of suit `t` and rank `n`: one in
/// its own slot, and a red five one in slot 5 of its suit too.
pub open spec fn tile_weight(x: Tile, t: int, n: int) -> int {
    if x.0 == t && (x.1 == n || (n == 5 && x.1 == 0)) {
        1
    } else {
        0
    }
}

/// Whether `after` is `before` with the tile `x` counted in.
pub open spec fn tile_added(before: TileTable, x: Tile, after: TileTable) -> bool {
    forall|t: int, n: int|
        0 <= t < TYPE && 0 <= n < TNUM ==> (#[trigger] after[t][n]) == before[t][n] + tile_weight(
            x,
            t,
            n,
        )
}

/// Whether `after` is `before` with the tile `x` taken out.
pub open spec fn tile_removed(before: TileTable, x: Tile, after: TileTable) -> bool {
    forall|t: int, n: int|
        0 <= t < TYPE && 0 <= n < TNUM ==> (#[trigger] after[t][n]) == before[t][n] - tile_weight(
            x,
            t,
            n,
        )
}

/// Whether the table holds the tile `x`: a red five in its own slot and in
/// slot 5 of its suit, a plain five in slot 5 beside the red fives there.
pub open spec fn table_has(h: TileTable, x: Tile) -> bool {
    &&& x.in_table()
    &&& h[x.0 as int][x.1 as int] >= 1
    &&& x.1 == 0 ==> h[x.0 as int][5] >= 1
    &&& x.1 == 5 ==> h[x.0 as int][5] > h[x.0 as int][0]
}

/// Counts a tile into a hand table: in its own slot, and a red five in
/// slot 5 of its suit too.
pub fn add_tile(h: &mut TileTable, x: Tile)
    requires
        x.in_table(),
        old(h)[x.0 as int][x.1 as int] < usize::MAX,
        old(h)[x.0 as int][5] < usize::MAX,
    ensures
        tile_added(*old(h), x, *final(h)),
{
    h[x.0][x.1] += 1;
    if x.1 == 0 {
        h[x.0][5] += 1;
    }
}

/// Takes a tile out of a hand table.
pub fn remove_tile(h: &mut TileTable, x: Tile)
    requires
        table_has(*old(h), x),
    ensures
        tile_removed(*old(h), x, *final(h)),
{
    h[x.0][x.1] -= 1;
    if x.1 == 0 {
        h[x.0][5] -= 1;
    }
}

/// Whether the table holds the tile `x`.
pub fn has_tile(h: &TileTable, x: Tile) -> (r: bool)
    ensures
        r == table_has(*h, x),
{
    x.0 < TYPE && x.1 < TNUM && h[x.0][x.1] >= 1 && (x.1 != 0 || h[x.0][5] >= 1) && (x.1 != 5
        || h[x.0][5] > h[x.0][0])
}

/// The number of tiles in the slots before slot `k`, slot `k` being rank
/// `k % 10` of suit `k / 10`. The slots of rank 0 count nothing: a red
/// five is counted among the fives.
pub open spec fn total_before(h: TileTable, k: int) -> int
    decreases k,
{
    if k <= 0 {
        0
    } else {
        total_before(h, k - 1) + if (k - 1) % 10 == 0 {
            0int
        } else {
            h[(k - 1) / 10][(k - 1) % 10] as int
        }
    }
}

/// The number of tiles of a hand.
pub open spec fn hand_total(h: TileTable) -> int {
    total_before(h, 40)
}

/// What the tile `x` counts in the slots before slot `k`.
pub open spec fn weight_before(x: Tile, k: int) -> int
    decreases k,
{
    if k <= 0 {
        0
    } else {
        weight_before(x, k - 1) + if (k - 1) % 10 == 0 {
            0int
        } else {
            tile_weight(x, (k - 1) / 10, (k - 1) % 10)
        }
    }
}

/// A tile of the game counts once in a hand.
pub proof fn lemma_weight_is_one(x: Tile)
    requires
        x.is_valid(),
    ensures
        weight_before(x, 40) == 1,
{
    let slot = x.0 * 10 + x.normal_rank();
    lemma_weight_upto(x, slot);
    assert(weight_before(x, slot + 1) == 1) by {
        assert((slot + 1 - 1) / 10 == x.0 && (slot + 1 - 1) % 10 == x.normal_rank());
    }
    lemma_weight_after(x, slot + 1, 40);
}

proof fn lemma_weight_upto(x: Tile, k: int)
    requires
        x.is_valid(),
        0 <= k <= x.0 * 10 + x.normal_rank(),
    ensures
        weight_before(x, k) == 0,
    decreases k,
{
    if k > 0 {
        lemma_weight_upto(x, k - 1);
    }
}

proof fn lemma_weight_after(x: Tile, from: int, k: int)
    requires
        x.is_valid(),
        x.0 * 10 + x.normal_rank() < from <= k <= 40,
    ensures
        weight_before(x, k) == weight_before(x, from),
    decreases k,
{
    if k > from {
        lemma_weight_after(x, from, k - 1);
    }
}

/// Counting a tile in adds its weight to the number of tiles, taking it
/// out takes its weight off.
pub proof fn lemma_total_changes(before: TileTable, x: Tile, after: TileTable, k: int)
    requires
        0 <= k <= 40,
    ensures
        tile_added(before, x, after) ==> total_before(after, k) == total_before(before, k)
            + weight_before(x, k),
        tile_removed(before, x, after) ==> total_before(after, k) == total_before(before, k)
            - weight_before(x, k),
    decreases k,
{
    if k > 0 {
        lemma_total_changes(before, x, after, k - 1);
        let t = (k - 1) / 10;
        let n = (k - 1) % 10;
        if tile_added(before, x, after) {
            assert(after[t][n] == before[t][n] + tile_weight(x, t, n));
        }
        if tile_removed(before, x, after) {
            assert(after[t][n] == before[t][n] - tile_weight(x, t, n));
        }
    }
}

/// The number of tiles of a hand.
pub fn count_tiles(h: &TileTable) -> (n: usize)
    requires
        table_bounded(*h),
    ensures
        n == hand_total(*h),
        n <= 14 * 40,
{
    let mut n: usize = 0;
    let mut k: usize = 0;
    while k < 40
        invariant
            k <= 40,
            table_bounded(*h),
            n == total_before(*h, k as int),
            n <= 14 * k,
        decreases 40 - k,
    {
        if k % 10 != 0 {
            assert(h[(k / 10) as int][(k % 10) as int] <= SLOT_MAX);
            n += h[k / 10][k % 10];
        }
        k += 1;
    }
    n
}

/// No slot holds more tiles than the hand has.
pub proof fn lemma_slot_at_most_total(h: TileTable, t: int, n: int)
    requires
        0 <= t < TYPE,
        1 <= n < TNUM,
    ensures
        h[t][n] <= hand_total(h),
{
    lemma_total_grows(h, t * 10 + n + 1, 40);
    assert((t * 10 + n + 1 - 1) / 10 == t && (t * 10 + n + 1 - 1) % 10 == n);
    lemma_total_grows(h, 0, t * 10 + n);
}

proof fn lemma_total_grows(h: TileTable, from: int, k: int)
    requires
        0 <= from <= k <= 40,
    ensures
        total_before(h, from) <= total_before(h, k),
    decreases k,
{
    if k > from {
        lemma_total_grows(h, from, k - 1);
    }
}

/// A hand of at most 13 tiles has room for one more in every slot, but
/// for the slots of the red fives, which hold one tile at most.
pub proof fn lemma_small_hand_is_roomy(h: TileTable)
    requires
        hand_total(h) <= 13,
        forall|t: int| 0 <= t < TYPE ==> (#[trigger] h[t])[0] <= h[t][5],
    ensures
        forall|t: int, n: int| 0 <= t < TYPE && 0 <= n < TNUM ==> (#[trigger] h[t][n]) < SLOT_MAX,
{
    assert forall|t: int, n: int| 0 <= t < TYPE && 0 <= n < TNUM implies (#[trigger] h[t][n])
        < SLOT_MAX by {
        if n >= 1 {
            lemma_slot_at_most_total(h, t, n);
        } else {
            lemma_slot_at_most_total(h, t, 5);
            assert(h[t][0] <= h[t][5]);
        }
    }
}

/// How many of the tiles count in slot `n` of suit `t`: the tiles of that
/// rank, and in slot 5 the red fives too.
pub open spec fn slot_count(tiles: Seq<Tile>, t: int, n: int) -> int
    decreases tiles.len(),
{
    if tiles.len() == 0 {
        0
    } else {
        let x = tiles.last();
        slot_count(tiles.drop_last(), t, n) + if x.0 == t && (x.1 == n || (n == 5 && x.1 == 0)) {
            1int
        } else {
            0int
        }
    }
}

/// Whether `after` holds the counts of `start` and of the tiles.
pub open spec fn counts_added(start: TileTable, tiles: Seq<Tile>, after: TileTable) -> bool {
    forall|t: int, n: int|
        0 <= t < TYPE && 0 <= n < TNUM ==> (#[trigger] after[t][n]) == start[t][n] + slot_count(
            tiles,
            t,
            n,
        )
}

/// Whether no slot counts more than `most` of the tiles.
pub open spec fn counts_within(tiles: Seq<Tile>, most: int) -> bool {
    forall|t: int, n: int|
        0 <= t < TYPE && 0 <= n < TNUM ==> 0 <= #[trigger] slot_count(tiles, t, n) <= most
}

/// One tile more counted in keeps the counts those of the tiles.
pub proof fn lemma_counts_step(start: TileTable, tiles: Seq<Tile>, i: int, before: TileTable, after: TileTable)
    requires
        0 <= i < tiles.len(),
        counts_added(start, tiles.take(i), before),
        counts_within(tiles.take(i), i),
        tile_added(before, tiles[i], after),
    ensures
        counts_added(start, tiles.take(i + 1), after),
        counts_within(tiles.take(i + 1), i + 1),
{
    assert(tiles.take(i + 1).drop_last() =~= tiles.take(i));
    assert(tiles.take(i + 1).last() == tiles[i]);
    assert forall|t: int, n: int| 0 <= t < TYPE && 0 <= n < TNUM implies (#[trigger] after[t][n])
        == start[t][n] + slot_count(tiles.take(i + 1), t, n) by {
        assert(before[t][n] == start[t][n] + slot_count(tiles.take(i), t, n));
    }
    assert forall|t: int, n: int| 0 <= t < TYPE && 0 <= n < TNUM implies 0 <= #[trigger] slot_count(
        tiles.take(i + 1),
        t,
        n,
    ) <= i + 1 by {
        assert(0 <= slot_count(tiles.take(i), t, n) <= i);
    }
}

/// Two slots together hold no more tiles than the hand has.
pub proof fn lemma_two_slots_at_most_total(h: TileTable, t: int, n: int, u: int, m: int)
    requires
        0 <= t < TYPE,
        1 <= n < TNUM,
        0 <= u < TYPE,
        1 <= m < TNUM,
        t != u || n != m,
    ensures
        h[t][n] + h[u][m] <= hand_total(h),
{
    let a = t * 10 + n;
    let b = u * 10 + m;
    if a < b {
        lemma_total_grows(h, 0, a);
        assert((a + 1 - 1) / 10 == t && (a + 1 - 1) % 10 == n);
        lemma_total_grows(h, a + 1, b);
        assert((b + 1 - 1) / 10 == u && (b + 1 - 1) % 10 == m);
        lemma_total_grows(h, b + 1, 40);
    } else {
        lemma_total_grows(h, 0, b);
        assert((b + 1 - 1) / 10 == u && (b + 1 - 1) % 10 == m);
        lemma_total_grows(h, b + 1, a);
        assert((a + 1 - 1) / 10 == t && (a + 1 - 1) % 10 == n);
        lemma_total_grows(h, a + 1, 40);
    }
}

} // verus!
