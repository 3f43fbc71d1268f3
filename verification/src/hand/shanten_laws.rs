//! What the shanten of a hand says of its shape: a hand is at -1 exactly
//! when it is a winning shape.

use crate::hand::shanten::{
    least_from, less_part, orphans_shanten, orphans_with, pairs_shanten, part_starts,
    regular_shanten, shanten, slots_with, Taken,
};
use crate::hand::shape::{
    completes, is_seven_pairs, is_thirteen_orphans, lemma_added_unique, less, less_run,
    orphan_slot, pair_ways, regular_ways, run_starts, splits, wins, with_first, Piece, PieceKind,
};
use crate::model::define::{TNUM, TYPE};
use crate::model::tile::{
    hand_total, lemma_total_changes, lemma_weight_is_one, table_view, tile_added, total_before,
    Tile, TileTable,
};
use vstd::prelude::*;

verus! {

/// With four sets at most, no hand is nearer to a win than -1.
pub proof fn lemma_least_is_bounded(t: Seq<Seq<int>>, k: int, n: nat, got: Taken)
    requires
        got.sets <= 4,
    ensures
        least_from(t, k, n, got) >= -1,
    decreases n, 40 - k,
{
    let s = k / 10;
    let r = k % 10;
    if k < 0 || k >= 40 {
    } else if r == 0 || t[s][r] <= 0 || n == 0 {
        lemma_least_is_bounded(t, k + 1, n, got);
    } else {
        lemma_least_is_bounded(t, k + 1, n, got);
        if got.sets < 4 && n >= 3 {
            let more = Taken { sets: (got.sets + 1) as usize, ..got };
            lemma_least_is_bounded(less(t, s, r, 3), k, (n - 3) as nat, more);
            lemma_least_is_bounded(less_run(t, s, r), k, (n - 3) as nat, more);
        }
        if n >= 2 {
            lemma_least_is_bounded(less(t, s, r, 2), k, (n - 2) as nat, Taken { pair: true, ..got });
            let more = Taken { parts: (got.parts + 1) as usize, ..got };
            lemma_least_is_bounded(less(t, s, r, 2), k, (n - 2) as nat, more);
            lemma_least_is_bounded(less_part(t, s, r, 1), k, (n - 2) as nat, more);
            lemma_least_is_bounded(less_part(t, s, r, 2), k, (n - 2) as nat, more);
        }
    }
}

/// Where the pair is taken and the tiles from slot `k` on split into as
/// many sets as are missing to four, the hand is at -1.
proof fn lemma_sets_complete(t: Seq<Seq<int>>, k: int, n: nat, got: Taken, i: int)
    requires
        0 <= k,
        got.pair,
        0 <= i < splits(t, k, n).len(),
        splits(t, k, n)[i].len() + got.sets == 4,
    ensures
        least_from(t, k, n, got) <= -1,
    decreases n, 40 - k,
{
    let s = k / 10;
    let r = k % 10;
    if k >= 40 {
    } else if r == 0 || t[s][r] <= 0 {
        lemma_sets_complete(t, k + 1, n, got, i);
    } else {
        let more = Taken { sets: (got.sets + 1) as usize, ..got };
        let same = if t[s][r] >= 3 {
            with_first(
                Piece { kind: PieceKind::Triplet, suit: s as usize, rank: r as usize },
                splits(less(t, s, r, 3), k, (n - 3) as nat),
            )
        } else {
            Seq::empty()
        };
        if i < same.len() {
            lemma_sets_complete(less(t, s, r, 3), k, (n - 3) as nat, more, i);
        } else {
            lemma_sets_complete(less_run(t, s, r), k, (n - 3) as nat, more, i - same.len());
        }
    }
}

/// Taking tiles out of two slots comes to the same in either order.
proof fn lemma_less_commutes(t: Seq<Seq<int>>, a: int, b: int, x: int, c: int, d: int, y: int)
    requires
        0 <= a < t.len(),
        0 <= c < t.len(),
        0 <= b < t[a].len(),
        0 <= d < t[c].len(),
        !(a == c && b == d),
    ensures
        less(less(t, a, b, x), c, d, y) == less(less(t, c, d, y), a, b, x),
{
    let p = less(less(t, a, b, x), c, d, y);
    let q = less(less(t, c, d, y), a, b, x);
    assert forall|j: int| 0 <= j < t.len() implies p[j] =~= q[j] by {}
    assert(p =~= q);
}

/// Whether the counts are those of a table: four suits of ten slots.
pub open spec fn is_table(t: Seq<Seq<int>>) -> bool {
    t.len() == TYPE && forall|s: int| 0 <= s < TYPE ==> (#[trigger] t[s]).len() == TNUM
}

/// Where the tiles from slot `k` on, without two of the slot of suit `ps`
/// and rank `pr`, split into as many sets as are missing to four, the
/// hand is at -1: those two tiles are its pair.
proof fn lemma_pair_and_sets_complete(
    t: Seq<Seq<int>>,
    k: int,
    n: nat,
    got: Taken,
    ps: int,
    pr: int,
    i: int,
)
    requires
        is_table(t),
        0 <= ps < TYPE,
        1 <= pr < TNUM,
        0 <= k <= ps * 10 + pr,
        t[ps][pr] >= 2,
        n >= 2,
        !got.pair,
        0 <= i < splits(less(t, ps, pr, 2), k, (n - 2) as nat).len(),
        splits(less(t, ps, pr, 2), k, (n - 2) as nat)[i].len() + got.sets == 4,
    ensures
        least_from(t, k, n, got) <= -1,
    decreases n, 40 - k,
{
    let s = k / 10;
    let r = k % 10;
    let t2 = less(t, ps, pr, 2);
    if k == ps * 10 + pr {
        lemma_sets_complete(t2, k, (n - 2) as nat, Taken { pair: true, ..got }, i);
    } else {
        assert(!(s == ps && r == pr));
        assert(t2[s][r] == t[s][r]);
        if r == 0 || t[s][r] <= 0 {
            lemma_pair_and_sets_complete(t, k + 1, n, got, ps, pr, i);
        } else {
            let more = Taken { sets: (got.sets + 1) as usize, ..got };
            let same = if t2[s][r] >= 3 {
                with_first(
                    Piece { kind: PieceKind::Triplet, suit: s as usize, rank: r as usize },
                    splits(less(t2, s, r, 3), k, (n - 5) as nat),
                )
            } else {
                Seq::empty()
            };
            if i < same.len() {
                let t3 = less(t, s, r, 3);
                lemma_less_commutes(t, ps, pr, 2, s, r, 3);
                assert(is_table(t3));
                assert(t3[ps][pr] == t[ps][pr]);
                lemma_pair_and_sets_complete(t3, k, (n - 3) as nat, more, ps, pr, i);
            } else {
                assert(run_starts(t2, s, r));
                let a = less(t, s, r, 1);
                let b = less(a, s, r + 1, 1);
                let c = less(b, s, r + 2, 1);
                assert(is_table(a) && is_table(b) && is_table(c));
                lemma_less_commutes(t, ps, pr, 2, s, r, 1);
                if !(ps == s && pr == r + 1) {
                    lemma_less_commutes(a, ps, pr, 2, s, r + 1, 1);
                }
                if !(ps == s && pr == r + 2) {
                    lemma_less_commutes(b, ps, pr, 2, s, r + 2, 1);
                }
                assert(less_run(t2, s, r) =~= less(c, ps, pr, 2)) by {
                    let p = less_run(t2, s, r);
                    let q = less(c, ps, pr, 2);
                    assert forall|j: int| 0 <= j < TYPE implies p[j] =~= q[j] by {}
                }
                assert(c[ps][pr] >= 2);
                lemma_pair_and_sets_complete(c, k, (n - 3) as nat, more, ps, pr, i - same.len());
            }
        }
    }
}

/// The slot from which the pair of a way was taken, and the place of the
/// way among the splits of the other tiles.
proof fn lemma_pair_way_origin(t: Seq<Seq<int>>, k: int, n: nat, i: int) -> (at: (int, int))
    requires
        0 <= k <= 40,
        0 <= i < pair_ways(t, k, n).len(),
    ensures
        0 <= at.0 < k,
        at.0 % 10 != 0,
        t[at.0 / 10][at.0 % 10] >= 2,
        n >= 2,
        0 <= at.1 < splits(less(t, at.0 / 10, at.0 % 10, 2), 0, (n - 2) as nat).len(),
        splits(less(t, at.0 / 10, at.0 % 10, 2), 0, (n - 2) as nat)[at.1] == pair_ways(t, k, n)[i].1,
    decreases k,
{
    let before = pair_ways(t, k - 1, n);
    if i < before.len() {
        lemma_pair_way_origin(t, k - 1, n, i)
    } else {
        (k - 1, i - before.len())
    }
}

/// A hand whose tiles split into a pair and sets, four sets with those
/// laid down, is at -1 in the regular form.
pub proof fn lemma_regular_win_is_least(h: TileTable, melds: usize, i: int)
    requires
        0 <= i < regular_ways(h).len(),
        regular_ways(h)[i].1.len() + melds == 4,
    ensures
        regular_shanten(h, melds) == -1,
{
    let t = table_view(h);
    let n = hand_total(h) as nat;
    let at = lemma_pair_way_origin(t, 40, n, i);
    let got = Taken { sets: melds, parts: 0, pair: false };
    lemma_pair_and_sets_complete(t, 0, n, got, at.0 / 10, at.0 % 10, at.1);
    lemma_least_is_bounded(t, 0, n, got);
}

/// Where every slot holds two tiles or none, the tiles before slot `k`
/// are two for each slot that holds any.
proof fn lemma_pairs_counted(h: TileTable, k: int)
    requires
        0 <= k <= 40,
        forall|s: int, r: int|
            0 <= s < TYPE && 1 <= r < TNUM ==> (#[trigger] h[s][r]) == 0 || h[s][r] == 2,
    ensures
        total_before(h, k) == 2 * slots_with(h, 2, k),
        slots_with(h, 1, k) == slots_with(h, 2, k),
    decreases k,
{
    if k > 0 {
        lemma_pairs_counted(h, k - 1);
        if (k - 1) % 10 != 0 {
            assert(h[(k - 1) / 10][(k - 1) % 10] == 0 || h[(k - 1) / 10][(k - 1) % 10] == 2);
        }
    }
}

/// Seven pairs are at -1.
pub proof fn lemma_seven_pairs_is_least(h: TileTable)
    requires
        is_seven_pairs(h),
    ensures
        pairs_shanten(h) == -1,
{
    lemma_pairs_counted(h, 40);
}

/// The number of slots of terminals and honors before slot `k`.
pub open spec fn orphan_slots(k: int) -> int
    decreases k,
{
    if k <= 0 {
        0
    } else {
        orphan_slots(k - 1) + if orphan_slot((k - 1) / 10, (k - 1) % 10) {
            1int
        } else {
            0int
        }
    }
}

/// Where the hand holds every terminal and honor and nothing else, it
/// holds a tile in each of their slots; and where it holds none of them
/// twice, it holds as many tiles as there are such slots.
proof fn lemma_orphans_counted(h: TileTable, k: int)
    requires
        0 <= k <= 40,
        forall|s: int, r: int|
            0 <= s < TYPE && 1 <= r < TNUM ==> if orphan_slot(s, r) {
                (#[trigger] h[s][r]) >= 1
            } else {
                h[s][r] == 0
            },
    ensures
        orphans_with(h, 1, k) == orphan_slots(k),
        orphans_with(h, 2, k) == 0 ==> total_before(h, k) == orphan_slots(k),
        orphans_with(h, 2, k) >= 0,
    decreases k,
{
    if k > 0 {
        lemma_orphans_counted(h, k - 1);
        let s = (k - 1) / 10;
        let r = (k - 1) % 10;
        if r != 0 {
            assert(if orphan_slot(s, r) {
                h[s][r] >= 1
            } else {
                h[s][r] == 0
            });
        }
    }
}

/// There are thirteen kinds of terminals and honors.
proof fn lemma_thirteen_slots()
    ensures
        orphan_slots(40) == 13,
{
    assert(orphan_slots(0) == 0);
    assert(orphan_slots(10) == 2) by {
        reveal_with_fuel(orphan_slots, 11);
    }
    assert(orphan_slots(20) == 4) by {
        reveal_with_fuel(orphan_slots, 11);
    }
    assert(orphan_slots(30) == 6) by {
        reveal_with_fuel(orphan_slots, 11);
    }
    assert(orphan_slots(40) == 13) by {
        reveal_with_fuel(orphan_slots, 11);
    }
}

/// Thirteen orphans are at -1.
pub proof fn lemma_thirteen_orphans_is_least(h: TileTable)
    requires
        is_thirteen_orphans(h),
    ensures
        orphans_shanten(h) == -1,
{
    lemma_orphans_counted(h, 40);
    lemma_thirteen_slots();
}

/// The number of tiles at the slots from `k` on.
pub open spec fn tiles_from(t: Seq<Seq<int>>, k: int) -> int
    decreases 40 - k,
{
    if k < 0 || k >= 40 {
        0
    } else {
        tiles_from(t, k + 1) + if k % 10 == 0 {
            0
        } else {
            t[k / 10][k % 10]
        }
    }
}

/// Whether the counts are those of a table and none is below zero.
pub open spec fn is_counts(t: Seq<Seq<int>>) -> bool {
    &&& is_table(t)
    &&& forall|s: int, r: int| 0 <= s < TYPE && 0 <= r < TNUM ==> (#[trigger] t[s][r]) >= 0
}

/// The tiles that are missing to four sets and a pair.
pub open spec fn needed(got: Taken) -> int {
    3 * (4 - got.sets) + if got.pair {
        0int
    } else {
        2int
    }
}

/// Counts never add up to less than nothing.
proof fn lemma_tiles_not_negative(t: Seq<Seq<int>>, k: int)
    requires
        is_counts(t),
    ensures
        tiles_from(t, k) >= 0,
    decreases 40 - k,
{
    if 0 <= k < 40 {
        lemma_tiles_not_negative(t, k + 1);
        assert(t[k / 10][k % 10] >= 0);
    }
}

/// Tiles taken out of a slot are missing from the slots from `k` on, if
/// the slot is among them.
proof fn lemma_tiles_of_less(t: Seq<Seq<int>>, s: int, r: int, x: int, k: int)
    requires
        is_table(t),
        0 <= s < TYPE,
        1 <= r < TNUM,
        0 <= k,
    ensures
        tiles_from(less(t, s, r, x), k) == tiles_from(t, k) - if k <= s * 10 + r {
            x
        } else {
            0
        },
    decreases 40 - k,
{
    if k < 40 {
        lemma_tiles_of_less(t, s, r, x, k + 1);
        let t2 = less(t, s, r, x);
        if k == s * 10 + r {
            assert(t2[k / 10][k % 10] == t[s][r] - x);
        } else {
            assert(t2[k / 10][k % 10] == t[k / 10][k % 10]);
        }
    }
}

/// Taking tiles that a slot holds leaves counts.
proof fn lemma_less_keeps_counts(t: Seq<Seq<int>>, s: int, r: int, x: int)
    requires
        is_counts(t),
        0 <= s < TYPE,
        0 <= r < TNUM,
        t[s][r] >= x,
    ensures
        is_counts(less(t, s, r, x)),
{
    let t2 = less(t, s, r, x);
    assert forall|a: int, b: int| 0 <= a < TYPE && 0 <= b < TNUM implies (#[trigger] t2[a][b])
        >= 0 by {
        assert(t[a][b] >= 0);
    }
}

/// The counts without a run, and how many tiles are left of them.
proof fn lemma_run_taken(t: Seq<Seq<int>>, s: int, r: int, k: int)
    requires
        is_counts(t),
        0 <= s < TYPE,
        1 <= r <= 7,
        0 <= k <= s * 10 + r,
        t[s][r] >= 1,
        t[s][r + 1] >= 1,
        t[s][r + 2] >= 1,
    ensures
        is_counts(less_run(t, s, r)),
        tiles_from(less_run(t, s, r), k) == tiles_from(t, k) - 3,
{
    let a = less(t, s, r, 1);
    lemma_less_keeps_counts(t, s, r, 1);
    lemma_tiles_of_less(t, s, r, 1, k);
    let b = less(a, s, r + 1, 1);
    lemma_less_keeps_counts(a, s, r + 1, 1);
    lemma_tiles_of_less(a, s, r + 1, 1, k);
    lemma_less_keeps_counts(b, s, r + 2, 1);
    lemma_tiles_of_less(b, s, r + 2, 1, k);
}

/// The counts without a part of two tiles, and how many tiles are left
/// of them.
proof fn lemma_part_taken(t: Seq<Seq<int>>, s: int, r: int, d: int, k: int)
    requires
        is_counts(t),
        0 <= s < TYPE,
        1 <= r,
        1 <= d,
        r + d <= 9,
        0 <= k <= s * 10 + r,
        t[s][r] >= 1,
        t[s][r + d] >= 1,
    ensures
        is_counts(less_part(t, s, r, d)),
        tiles_from(less_part(t, s, r, d), k) == tiles_from(t, k) - 2,
{
    let a = less(t, s, r, 1);
    lemma_less_keeps_counts(t, s, r, 1);
    lemma_tiles_of_less(t, s, r, 1, k);
    lemma_less_keeps_counts(a, s, r + d, 1);
    lemma_tiles_of_less(a, s, r + d, 1, k);
}

/// A hand can only be at -1 if it holds the tiles that are missing to
/// four sets and a pair.
proof fn lemma_win_needs_tiles(t: Seq<Seq<int>>, k: int, n: nat, got: Taken)
    requires
        is_counts(t),
        0 <= k,
        got.sets <= 4,
        least_from(t, k, n, got) <= -1,
    ensures
        tiles_from(t, k) >= needed(got),
    decreases n, 40 - k,
{
    let s = k / 10;
    let r = k % 10;
    if k >= 40 {
    } else if r == 0 || t[s][r] <= 0 || n == 0 {
        lemma_win_needs_tiles(t, k + 1, n, got);
        assert(t[s][r] >= 0);
    } else {
        let set = Taken { sets: (got.sets + 1) as usize, ..got };
        let part = Taken { parts: (got.parts + 1) as usize, ..got };
        let more = got.sets + got.parts < 4 && n >= 2;
        if least_from(t, k + 1, n, got) <= -1 {
            lemma_win_needs_tiles(t, k + 1, n, got);
        } else if got.sets < 4 && n >= 3 && t[s][r] >= 3 && least_from(
            less(t, s, r, 3),
            k,
            (n - 3) as nat,
            set,
        ) <= -1 {
            lemma_less_keeps_counts(t, s, r, 3);
            lemma_tiles_of_less(t, s, r, 3, k);
            lemma_win_needs_tiles(less(t, s, r, 3), k, (n - 3) as nat, set);
        } else if got.sets < 4 && n >= 3 && run_starts(t, s, r) && least_from(
            less_run(t, s, r),
            k,
            (n - 3) as nat,
            set,
        ) <= -1 {
            lemma_run_taken(t, s, r, k);
            lemma_win_needs_tiles(less_run(t, s, r), k, (n - 3) as nat, set);
        } else if !got.pair && n >= 2 && t[s][r] >= 2 && least_from(
            less(t, s, r, 2),
            k,
            (n - 2) as nat,
            Taken { pair: true, ..got },
        ) <= -1 {
            lemma_less_keeps_counts(t, s, r, 2);
            lemma_tiles_of_less(t, s, r, 2, k);
            lemma_win_needs_tiles(
                less(t, s, r, 2),
                k,
                (n - 2) as nat,
                Taken { pair: true, ..got },
            );
        } else if more && t[s][r] >= 2 && least_from(less(t, s, r, 2), k, (n - 2) as nat, part)
            <= -1 {
            lemma_less_keeps_counts(t, s, r, 2);
            lemma_tiles_of_less(t, s, r, 2, k);
            lemma_win_needs_tiles(less(t, s, r, 2), k, (n - 2) as nat, part);
        } else if more && part_starts(t, s, r, 1) && least_from(
            less_part(t, s, r, 1),
            k,
            (n - 2) as nat,
            part,
        ) <= -1 {
            lemma_part_taken(t, s, r, 1, k);
            lemma_win_needs_tiles(less_part(t, s, r, 1), k, (n - 2) as nat, part);
        } else if more && part_starts(t, s, r, 2) && least_from(
            less_part(t, s, r, 2),
            k,
            (n - 2) as nat,
            part,
        ) <= -1 {
            lemma_part_taken(t, s, r, 2, k);
            lemma_win_needs_tiles(less_part(t, s, r, 2), k, (n - 2) as nat, part);
        } else {
            assert(false);
        }
    }
}

/// Where the pair is taken, the hand is at -1 and holds no tile more than
/// are missing to four sets, the tiles from slot `k` on split into sets.
proof fn lemma_sets_found(t: Seq<Seq<int>>, k: int, n: nat, got: Taken)
    requires
        is_counts(t),
        0 <= k,
        got.sets <= 4,
        got.pair,
        least_from(t, k, n, got) <= -1,
        tiles_from(t, k) == needed(got),
        n == needed(got),
    ensures
        splits(t, k, n).len() > 0,
    decreases n, 40 - k,
{
    let s = k / 10;
    let r = k % 10;
    if k >= 40 {
    } else if r == 0 || t[s][r] <= 0 {
        assert(t[s][r] >= 0);
        lemma_sets_found(t, k + 1, n, got);
    } else {
        lemma_tiles_not_negative(t, k + 1);
        let set = Taken { sets: (got.sets + 1) as usize, ..got };
        let part = Taken { parts: (got.parts + 1) as usize, ..got };
        let more = got.sets + got.parts < 4 && n >= 2;
        if least_from(t, k + 1, n, got) <= -1 {
            lemma_win_needs_tiles(t, k + 1, n, got);
        } else if got.sets < 4 && n >= 3 && t[s][r] >= 3 && least_from(
            less(t, s, r, 3),
            k,
            (n - 3) as nat,
            set,
        ) <= -1 {
            lemma_less_keeps_counts(t, s, r, 3);
            lemma_tiles_of_less(t, s, r, 3, k);
            lemma_sets_found(less(t, s, r, 3), k, (n - 3) as nat, set);
        } else if got.sets < 4 && n >= 3 && run_starts(t, s, r) && least_from(
            less_run(t, s, r),
            k,
            (n - 3) as nat,
            set,
        ) <= -1 {
            lemma_run_taken(t, s, r, k);
            lemma_sets_found(less_run(t, s, r), k, (n - 3) as nat, set);
        } else if more && t[s][r] >= 2 && least_from(less(t, s, r, 2), k, (n - 2) as nat, part)
            <= -1 {
            lemma_less_keeps_counts(t, s, r, 2);
            lemma_tiles_of_less(t, s, r, 2, k);
            lemma_win_needs_tiles(less(t, s, r, 2), k, (n - 2) as nat, part);
        } else if more && part_starts(t, s, r, 1) && least_from(
            less_part(t, s, r, 1),
            k,
            (n - 2) as nat,
            part,
        ) <= -1 {
            lemma_part_taken(t, s, r, 1, k);
            lemma_win_needs_tiles(less_part(t, s, r, 1), k, (n - 2) as nat, part);
        } else if more && part_starts(t, s, r, 2) && least_from(
            less_part(t, s, r, 2),
            k,
            (n - 2) as nat,
            part,
        ) <= -1 {
            lemma_part_taken(t, s, r, 2, k);
            lemma_win_needs_tiles(less_part(t, s, r, 2), k, (n - 2) as nat, part);
        } else {
            assert(false);
        }
    }
}

/// Taking tiles out of a slot twice comes to the same in either order.
proof fn lemma_less_twice(t: Seq<Seq<int>>, a: int, b: int, x: int, y: int)
    requires
        0 <= a < t.len(),
        0 <= b < t[a].len(),
    ensures
        less(less(t, a, b, x), a, b, y) == less(less(t, a, b, y), a, b, x),
{
    let p = less(less(t, a, b, x), a, b, y);
    let q = less(less(t, a, b, y), a, b, x);
    assert forall|j: int| 0 <= j < t.len() implies p[j] =~= q[j] by {}
    assert(p =~= q);
}

/// A run and two tiles of one slot can be taken in either order.
proof fn lemma_run_and_pair(t: Seq<Seq<int>>, s: int, r: int, ps: int, pr: int)
    requires
        is_table(t),
        0 <= s < TYPE,
        1 <= r <= 7,
        0 <= ps < TYPE,
        0 <= pr < TNUM,
    ensures
        less_run(less(t, ps, pr, 2), s, r) == less(less_run(t, s, r), ps, pr, 2),
{
    let p = less_run(less(t, ps, pr, 2), s, r);
    let q = less(less_run(t, s, r), ps, pr, 2);
    assert forall|j: int| 0 <= j < TYPE implies p[j] =~= q[j] by {}
    assert(p =~= q);
}

/// Where the hand is at -1 and holds no tile more than are missing to
/// four sets and a pair, two tiles of one slot are its pair, and the
/// other tiles from slot `k` on split into sets.
proof fn lemma_pair_found(t: Seq<Seq<int>>, k: int, n: nat, got: Taken) -> (q: int)
    requires
        is_counts(t),
        0 <= k,
        got.sets <= 4,
        !got.pair,
        least_from(t, k, n, got) <= -1,
        tiles_from(t, k) == needed(got),
        n == needed(got),
    ensures
        k <= q < 40,
        q % 10 != 0,
        t[q / 10][q % 10] >= 2,
        splits(less(t, q / 10, q % 10, 2), k, (n - 2) as nat).len() > 0,
    decreases n, 40 - k,
{
    let s = k / 10;
    let r = k % 10;
    if k >= 40 {
        assert(false);
        k
    } else if r == 0 || t[s][r] <= 0 {
        assert(t[s][r] >= 0);
        let q = lemma_pair_found(t, k + 1, n, got);
        assert(less(t, q / 10, q % 10, 2)[s][r] == t[s][r]);
        q
    } else {
        lemma_tiles_not_negative(t, k + 1);
        let set = Taken { sets: (got.sets + 1) as usize, ..got };
        let part = Taken { parts: (got.parts + 1) as usize, ..got };
        let more = got.sets + got.parts < 4 && n >= 2;
        if least_from(t, k + 1, n, got) <= -1 {
            lemma_win_needs_tiles(t, k + 1, n, got);
            k
        } else if got.sets < 4 && n >= 3 && t[s][r] >= 3 && least_from(
            less(t, s, r, 3),
            k,
            (n - 3) as nat,
            set,
        ) <= -1 {
            let t3 = less(t, s, r, 3);
            lemma_less_keeps_counts(t, s, r, 3);
            lemma_tiles_of_less(t, s, r, 3, k);
            let q = lemma_pair_found(t3, k, (n - 3) as nat, set);
            let t2 = less(t, q / 10, q % 10, 2);
            if q == k {
                lemma_less_twice(t, s, r, 2, 3);
            } else {
                lemma_less_commutes(t, q / 10, q % 10, 2, s, r, 3);
            }
            assert(less(t2, s, r, 3) == less(t3, q / 10, q % 10, 2));
            assert(t2[s][r] >= 3);
            let first = with_first(
                Piece { kind: PieceKind::Triplet, suit: s as usize, rank: r as usize },
                splits(less(t2, s, r, 3), k, (n - 5) as nat),
            );
            assert(first.len() > 0);
            q
        } else if got.sets < 4 && n >= 3 && run_starts(t, s, r) && least_from(
            less_run(t, s, r),
            k,
            (n - 3) as nat,
            set,
        ) <= -1 {
            let tr = less_run(t, s, r);
            lemma_run_taken(t, s, r, k);
            let q = lemma_pair_found(tr, k, (n - 3) as nat, set);
            let t2 = less(t, q / 10, q % 10, 2);
            lemma_run_and_pair(t, s, r, q / 10, q % 10);
            assert(run_starts(t2, s, r));
            let first = with_first(
                Piece { kind: PieceKind::Run, suit: s as usize, rank: r as usize },
                splits(less_run(t2, s, r), k, (n - 5) as nat),
            );
            assert(first.len() > 0);
            q
        } else if n >= 2 && t[s][r] >= 2 && least_from(
            less(t, s, r, 2),
            k,
            (n - 2) as nat,
            Taken { pair: true, ..got },
        ) <= -1 {
            lemma_less_keeps_counts(t, s, r, 2);
            lemma_tiles_of_less(t, s, r, 2, k);
            lemma_sets_found(less(t, s, r, 2), k, (n - 2) as nat, Taken { pair: true, ..got });
            k
        } else if more && t[s][r] >= 2 && least_from(less(t, s, r, 2), k, (n - 2) as nat, part)
            <= -1 {
            lemma_less_keeps_counts(t, s, r, 2);
            lemma_tiles_of_less(t, s, r, 2, k);
            lemma_win_needs_tiles(less(t, s, r, 2), k, (n - 2) as nat, part);
            k
        } else if more && part_starts(t, s, r, 1) && least_from(
            less_part(t, s, r, 1),
            k,
            (n - 2) as nat,
            part,
        ) <= -1 {
            lemma_part_taken(t, s, r, 1, k);
            lemma_win_needs_tiles(less_part(t, s, r, 1), k, (n - 2) as nat, part);
            k
        } else if more && part_starts(t, s, r, 2) && least_from(
            less_part(t, s, r, 2),
            k,
            (n - 2) as nat,
            part,
        ) <= -1 {
            lemma_part_taken(t, s, r, 2, k);
            lemma_win_needs_tiles(less_part(t, s, r, 2), k, (n - 2) as nat, part);
            k
        } else {
            assert(false);
            k
        }
    }
}

/// Every split into sets takes all the tiles from slot `k` on.
proof fn lemma_split_takes_all(t: Seq<Seq<int>>, k: int, n: nat, i: int)
    requires
        is_counts(t),
        0 <= k,
        0 <= i < splits(t, k, n).len(),
    ensures
        3 * splits(t, k, n)[i].len() == tiles_from(t, k),
    decreases n, 40 - k,
{
    let s = k / 10;
    let r = k % 10;
    if k >= 40 {
    } else if r == 0 || t[s][r] <= 0 {
        assert(t[s][r] >= 0);
        lemma_split_takes_all(t, k + 1, n, i);
    } else {
        let same = if t[s][r] >= 3 {
            with_first(
                Piece { kind: PieceKind::Triplet, suit: s as usize, rank: r as usize },
                splits(less(t, s, r, 3), k, (n - 3) as nat),
            )
        } else {
            Seq::empty()
        };
        if i < same.len() {
            lemma_less_keeps_counts(t, s, r, 3);
            lemma_tiles_of_less(t, s, r, 3, k);
            lemma_split_takes_all(less(t, s, r, 3), k, (n - 3) as nat, i);
        } else {
            lemma_run_taken(t, s, r, k);
            lemma_split_takes_all(less_run(t, s, r), k, (n - 3) as nat, i - same.len());
        }
    }
}

/// A slot with two tiles, the others of which split into sets, gives a
/// way to split the hand into a pair and sets.
proof fn lemma_pair_way_exists(t: Seq<Seq<int>>, k: int, n: nat, q: int)
    requires
        0 <= q < k <= 40,
        q % 10 != 0,
        t[q / 10][q % 10] >= 2,
        n >= 2,
        splits(less(t, q / 10, q % 10, 2), 0, (n - 2) as nat).len() > 0,
    ensures
        pair_ways(t, k, n).len() > 0,
    decreases k,
{
    if q < k - 1 {
        lemma_pair_way_exists(t, k - 1, n, q);
    }
}

/// The tiles of a table are those of its counts.
proof fn lemma_total_is_tiles(h: TileTable, k: int)
    requires
        0 <= k <= 40,
    ensures
        total_before(h, k) + tiles_from(table_view(h), k) == hand_total(h),
    decreases 40 - k,
{
    if k < 40 {
        lemma_total_is_tiles(h, k + 1);
        assert(table_view(h)[k / 10][k % 10] == h[k / 10][k % 10]);
    }
}

/// A hand holds two tiles at least for each slot that holds two or
/// more, and one for each other slot that holds any. Where it holds no
/// more than two for each slot with two or more, every slot holds two
/// tiles or none.
proof fn lemma_pairs_bound(h: TileTable, k: int)
    requires
        0 <= k <= 40,
    ensures
        0 <= slots_with(h, 2, k) <= slots_with(h, 1, k),
        total_before(h, k) >= slots_with(h, 2, k) + slots_with(h, 1, k),
        total_before(h, k) == 2 * slots_with(h, 2, k) ==> forall|s: int, r: int|
            0 <= s < TYPE && 1 <= r < TNUM && s * 10 + r < k ==> (#[trigger] h[s][r]) == 0
                || h[s][r] == 2,
    decreases k,
{
    if k > 0 {
        lemma_pairs_bound(h, k - 1);
        let s0 = (k - 1) / 10;
        let r0 = (k - 1) % 10;
        if total_before(h, k) == 2 * slots_with(h, 2, k) {
            assert forall|s: int, r: int|
                0 <= s < TYPE && 1 <= r < TNUM && s * 10 + r < k implies (#[trigger] h[s][r])
                == 0 || h[s][r] == 2 by {
                if s * 10 + r == k - 1 {
                    assert(s == s0 && r == r0);
                }
            }
        }
    }
}

/// A hand holds a tile at least for each kind of terminal or honor that
/// it holds, and one more if it holds one of them twice. Where it holds
/// no more than that and every such kind, it holds nothing else.
proof fn lemma_orphans_bound(h: TileTable, k: int)
    requires
        0 <= k <= 40,
    ensures
        0 <= orphans_with(h, 2, k),
        0 <= orphans_with(h, 1, k) <= orphan_slots(k),
        total_before(h, k) >= orphans_with(h, 1, k) + if orphans_with(h, 2, k) > 0 {
            1int
        } else {
            0int
        },
        (orphans_with(h, 1, k) == orphan_slots(k) && total_before(h, k) == orphans_with(h, 1, k)
            + if orphans_with(h, 2, k) > 0 {
            1int
        } else {
            0int
        }) ==> forall|s: int, r: int|
            0 <= s < TYPE && 1 <= r < TNUM && s * 10 + r < k ==> if orphan_slot(s, r) {
                (#[trigger] h[s][r]) >= 1
            } else {
                h[s][r] == 0
            },
    decreases k,
{
    if k > 0 {
        lemma_orphans_bound(h, k - 1);
        let s0 = (k - 1) / 10;
        let r0 = (k - 1) % 10;
        let flag = if orphans_with(h, 2, k) > 0 {
            1int
        } else {
            0int
        };
        if orphans_with(h, 1, k) == orphan_slots(k) && total_before(h, k) == orphans_with(h, 1, k)
            + flag {
            assert forall|s: int, r: int|
                0 <= s < TYPE && 1 <= r < TNUM && s * 10 + r < k implies if orphan_slot(s, r) {
                (#[trigger] h[s][r]) >= 1
            } else {
                h[s][r] == 0
            } by {
                if s * 10 + r == k - 1 {
                    assert(s == s0 && r == r0);
                }
            }
        }
    }
}

/// A hand that with its melds makes fourteen tiles, a quad counted as
/// three, is never nearer to a win than -1, and it is at -1 exactly when
/// its tiles make a winning shape.
pub proof fn lemma_least_shanten_is_win(h: TileTable, melds: usize)
    requires
        melds <= 4,
        hand_total(h) + 3 * melds == 14,
    ensures
        shanten(h, melds) >= -1,
        (shanten(h, melds) == -1) == wins(h),
{
    let t = table_view(h);
    let n = hand_total(h) as nat;
    let got = Taken { sets: melds, parts: 0, pair: false };
    assert(is_counts(t));
    lemma_total_is_tiles(h, 0);
    lemma_least_is_bounded(t, 0, n, got);
    lemma_pairs_bound(h, 40);
    lemma_orphans_bound(h, 40);
    lemma_thirteen_slots();
    if regular_ways(h).len() > 0 {
        let at = lemma_pair_way_origin(t, 40, n, 0);
        let s = at.0 / 10;
        let r = at.0 % 10;
        lemma_less_keeps_counts(t, s, r, 2);
        lemma_tiles_of_less(t, s, r, 2, 0);
        lemma_split_takes_all(less(t, s, r, 2), 0, (n - 2) as nat, at.1);
        lemma_regular_win_is_least(h, melds, 0);
    }
    if is_seven_pairs(h) {
        lemma_seven_pairs_is_least(h);
    }
    if is_thirteen_orphans(h) {
        lemma_thirteen_orphans_is_least(h);
    }
    if regular_shanten(h, melds) == -1 {
        let q = lemma_pair_found(t, 0, n, got);
        lemma_pair_way_exists(t, 40, n, q);
    }
    if melds == 0 && pairs_shanten(h) == -1 {
        assert(slots_with(h, 2, 40) == 7);
        assert(is_seven_pairs(h));
    }
    if melds == 0 && orphans_shanten(h) == -1 {
        assert(orphans_with(h, 1, 40) == 13);
        assert(is_thirteen_orphans(h));
    }
}

/// A tile completes a hand of thirteen tiles, a meld counted as three,
/// exactly when the hand with that tile is at -1.
pub proof fn lemma_wait_is_least_shanten(h: TileTable, x: Tile, with_x: TileTable, melds: usize)
    requires
        melds <= 4,
        hand_total(h) + 3 * melds == 13,
        x.is_valid(),
        tile_added(h, x, with_x),
    ensures
        completes(h, x) == (shanten(with_x, melds) == -1),
{
    lemma_total_changes(h, x, with_x, 40);
    lemma_weight_is_one(x);
    lemma_least_shanten_is_win(with_x, melds);
    if completes(h, x) {
        let other = choose|other: TileTable| tile_added(h, x, other) && wins(other);
        lemma_added_unique(h, x, with_x, other);
    }
}

} // verus!
