//! Shanten: how many tiles a hand is from being one tile from a win.
//!
//! The number is -1 for a winning shape, 0 for a hand that one tile
//! completes, and so on. It is the least over the three forms of a hand:
//! four sets and a pair, seven pairs, and thirteen orphans.

use crate::hand::shape::{lemma_less_view, less, less_run, orphan_slot};
use crate::model::define::TZ;
use crate::model::tile::{count_tiles, hand_total, table_bounded, table_view, TileTable};
use vstd::prelude::*;

verus! {

/// What has been taken out of a hand: sets, parts of sets (two tiles
/// that one tile makes a set), and the pair.
#[derive(Clone, Copy, Debug, PartialEq, Eq, Structural)]
pub struct Taken {
    pub sets: usize,
    pub parts: usize,
    pub pair: bool,
}

/// The lesser of two numbers.
pub open spec fn lesser(a: int, b: int) -> int {
    if a <= b {
        a
    } else {
        b
    }
}

/// How far a hand in the regular form is from a win with what was taken
/// out of it: eight, less two for each set and one for each part and for
/// the pair; sets and parts beyond four count nothing.
pub open spec fn distance(t: Taken) -> int {
    8 - 2 * t.sets - lesser(t.parts as int, 4 - t.sets) - if t.pair {
        1int
    } else {
        0int
    }
}

/// Whether a part can be made of the tile at rank `r` of suit `s` and a
/// tile `d` ranks above it.
pub open spec fn part_starts(t: Seq<Seq<int>>, s: int, r: int, d: int) -> bool {
    s < TZ && r + d <= 9 && t[s][r] >= 1 && t[s][r + d] >= 1
}

/// The counts without one tile at rank `r` and one at rank `r + d` of suit `s`.
pub open spec fn less_part(t: Seq<Seq<int>>, s: int, r: int, d: int) -> Seq<Seq<int>> {
    less(less(t, s, r, 1), s, r + d, 1)
}

/// The least distance from a win over all ways to go on taking sets,
/// parts and the pair out of the tiles at the slots from `k` on, where
/// `n` tiles are left. At a slot that holds a tile, a triplet, a run, the
/// pair, or a part of two tiles alike, in a row or with a gap, is taken
/// and the same slot read again; or the slot is passed over.
pub open spec fn least_from(t: Seq<Seq<int>>, k: int, n: nat, got: Taken) -> int
    decreases n, 40 - k,
{
    let s = k / 10;
    let r = k % 10;
    if k < 0 || k >= 40 {
        distance(got)
    } else if r == 0 || t[s][r] <= 0 || n == 0 {
        least_from(t, k + 1, n, got)
    } else {
        let skip = least_from(t, k + 1, n, got);
        let a = if got.sets < 4 && n >= 3 && t[s][r] >= 3 {
            lesser(
                skip,
                least_from(
                    less(t, s, r, 3),
                    k,
                    (n - 3) as nat,
                    Taken { sets: (got.sets + 1) as usize, ..got },
                ),
            )
        } else {
            skip
        };
        let b = if got.sets < 4 && n >= 3 && s < TZ && r <= 7 && t[s][r] >= 1 && t[s][r + 1] >= 1
            && t[s][r + 2] >= 1 {
            lesser(
                a,
                least_from(
                    less_run(t, s, r),
                    k,
                    (n - 3) as nat,
                    Taken { sets: (got.sets + 1) as usize, ..got },
                ),
            )
        } else {
            a
        };
        let c = if !got.pair && n >= 2 && t[s][r] >= 2 {
            lesser(
                b,
                least_from(less(t, s, r, 2), k, (n - 2) as nat, Taken { pair: true, ..got }),
            )
        } else {
            b
        };
        let more = got.sets + got.parts < 4 && n >= 2;
        let d = if more && t[s][r] >= 2 {
            lesser(
                c,
                least_from(
                    less(t, s, r, 2),
                    k,
                    (n - 2) as nat,
                    Taken { parts: (got.parts + 1) as usize, ..got },
                ),
            )
        } else {
            c
        };
        let e = if more && part_starts(t, s, r, 1) {
            lesser(
                d,
                least_from(
                    less_part(t, s, r, 1),
                    k,
                    (n - 2) as nat,
                    Taken { parts: (got.parts + 1) as usize, ..got },
                ),
            )
        } else {
            d
        };
        if more && part_starts(t, s, r, 2) {
            lesser(
                e,
                least_from(
                    less_part(t, s, r, 2),
                    k,
                    (n - 2) as nat,
                    Taken { parts: (got.parts + 1) as usize, ..got },
                ),
            )
        } else {
            e
        }
    }
}

/// The shanten of a hand in the regular form, with `melds` sets laid down.
pub open spec fn regular_shanten(h: TileTable, melds: usize) -> int {
    least_from(table_view(h), 0, hand_total(h) as nat, Taken { sets: melds, parts: 0, pair: false })
}

fn smaller(a: isize, b: isize) -> (r: isize)
    ensures
        r == lesser(a as int, b as int),
{
    if a <= b {
        a
    } else {
        b
    }
}

fn distance_of(t: Taken) -> (r: isize)
    requires
        t.sets <= 4,
        t.parts <= 4,
    ensures
        r == distance(t),
        -1 <= r <= 8,
{
    let room = 4 - t.sets;
    let parts = if t.parts <= room {
        t.parts
    } else {
        room
    };
    8 - 2 * (t.sets as isize) - (parts as isize) - if t.pair {
        1
    } else {
        0
    }
}

/// The least distance from a win over all ways to go on taking sets,
/// parts and the pair out of the tiles at the slots from `k` on.
pub fn least(h: &TileTable, k: usize, n: usize, got: Taken) -> (r: isize)
    requires
        table_bounded(*h),
        got.sets <= 4,
        got.parts <= 4,
    ensures
        r == least_from(table_view(*h), k as int, n as nat, got),
        -1 <= r <= 8,
    decreases n, 40 - k,
{
    if k >= 40 {
        return distance_of(got);
    }
    let s = k / 10;
    let r = k % 10;
    if r == 0 || h[s][r] == 0 || n == 0 {
        return least(h, k + 1, n, got);
    }
    let mut best = least(h, k + 1, n, got);
    if got.sets < 4 && n >= 3 && h[s][r] >= 3 {
        let mut h2 = *h;
        h2[s][r] -= 3;
        proof {
            lemma_less_view(*h, h2, s as int, r as int, 3);
        }
        best = smaller(best, least(&h2, k, n - 3, Taken { sets: got.sets + 1, ..got }));
    }
    if got.sets < 4 && n >= 3 && s < TZ && r <= 7 && h[s][r + 1] >= 1 && h[s][r + 2] >= 1 {
        let mut h2 = *h;
        h2[s][r] -= 1;
        let ghost a = h2;
        h2[s][r + 1] -= 1;
        let ghost b = h2;
        h2[s][r + 2] -= 1;
        proof {
            lemma_less_view(*h, a, s as int, r as int, 1);
            lemma_less_view(a, b, s as int, r + 1, 1);
            lemma_less_view(b, h2, s as int, r + 2, 1);
        }
        best = smaller(best, least(&h2, k, n - 3, Taken { sets: got.sets + 1, ..got }));
    }
    if !got.pair && n >= 2 && h[s][r] >= 2 {
        let mut h2 = *h;
        h2[s][r] -= 2;
        proof {
            lemma_less_view(*h, h2, s as int, r as int, 2);
        }
        best = smaller(best, least(&h2, k, n - 2, Taken { pair: true, ..got }));
    }
    let more = got.sets + got.parts < 4 && n >= 2;
    if more && h[s][r] >= 2 {
        let mut h2 = *h;
        h2[s][r] -= 2;
        proof {
            lemma_less_view(*h, h2, s as int, r as int, 2);
        }
        best = smaller(best, least(&h2, k, n - 2, Taken { parts: got.parts + 1, ..got }));
    }
    if more && s < TZ && r + 1 <= 9 && h[s][r + 1] >= 1 {
        let mut h2 = *h;
        h2[s][r] -= 1;
        let ghost a = h2;
        h2[s][r + 1] -= 1;
        proof {
            lemma_less_view(*h, a, s as int, r as int, 1);
            lemma_less_view(a, h2, s as int, r + 1, 1);
        }
        best = smaller(best, least(&h2, k, n - 2, Taken { parts: got.parts + 1, ..got }));
    }
    if more && s < TZ && r + 2 <= 9 && h[s][r + 2] >= 1 {
        let mut h2 = *h;
        h2[s][r] -= 1;
        let ghost a = h2;
        h2[s][r + 2] -= 1;
        proof {
            lemma_less_view(*h, a, s as int, r as int, 1);
            lemma_less_view(a, h2, s as int, r + 2, 1);
        }
        best = smaller(best, least(&h2, k, n - 2, Taken { parts: got.parts + 1, ..got }));
    }
    best
}

/// The number of slots before slot `k` that hold `c` tiles or more.
pub open spec fn slots_with(h: TileTable, c: int, k: int) -> int
    decreases k,
{
    if k <= 0 {
        0
    } else {
        slots_with(h, c, k - 1) + if (k - 1) % 10 != 0 && h[(k - 1) / 10][(k - 1) % 10] >= c {
            1int
        } else {
            0int
        }
    }
}

/// The shanten of a hand as seven pairs: six, less one for each kind
/// held twice, and one more for each kind that is missing to seven.
pub open spec fn pairs_shanten(h: TileTable) -> int {
    let pairs = slots_with(h, 2, 40);
    let kinds = slots_with(h, 1, 40);
    6 - pairs + if kinds < 7 {
        7 - kinds
    } else {
        0
    }
}

/// The number of kinds of terminals and honors before slot `k` of which
/// the hand holds `c` tiles or more.
pub open spec fn orphans_with(h: TileTable, c: int, k: int) -> int
    decreases k,
{
    if k <= 0 {
        0
    } else {
        orphans_with(h, c, k - 1) + if orphan_slot((k - 1) / 10, (k - 1) % 10) && h[(k - 1) / 10][(k
            - 1) % 10] >= c {
            1int
        } else {
            0int
        }
    }
}

/// The shanten of a hand as thirteen orphans: thirteen, less one for
/// each kind of terminal or honor held, and for the pair among them.
pub open spec fn orphans_shanten(h: TileTable) -> int {
    13 - orphans_with(h, 1, 40) - if orphans_with(h, 2, 40) > 0 {
        1int
    } else {
        0int
    }
}

/// The shanten of a hand with `melds` sets laid down: the least of its
/// shanten in the three forms, of which seven pairs and thirteen orphans
/// are open to a hand without melds only.
pub open spec fn shanten(h: TileTable, melds: usize) -> int {
    if melds == 0 {
        lesser(regular_shanten(h, melds), lesser(pairs_shanten(h), orphans_shanten(h)))
    } else {
        regular_shanten(h, melds)
    }
}

fn count_slots(h: &TileTable, c: usize, orphans_only: bool) -> (n: usize)
    ensures
        n == (if orphans_only {
            orphans_with(*h, c as int, 40)
        } else {
            slots_with(*h, c as int, 40)
        }),
        n <= 40,
{
    let mut n: usize = 0;
    let mut k: usize = 0;
    while k < 40
        invariant
            k <= 40,
            n <= k,
            n == (if orphans_only {
                orphans_with(*h, c as int, k as int)
            } else {
                slots_with(*h, c as int, k as int)
            }),
        decreases 40 - k,
    {
        let s = k / 10;
        let r = k % 10;
        let counts = if orphans_only {
            if s == TZ {
                1 <= r && r <= 7
            } else {
                r == 1 || r == 9
            }
        } else {
            r != 0
        };
        if counts && h[s][r] >= c {
            n += 1;
        }
        k += 1;
    }
    n
}

/// The shanten of a hand with `melds` sets laid down.
pub fn calc_shanten(h: &TileTable, melds: usize) -> (r: isize)
    requires
        table_bounded(*h),
        melds <= 4,
    ensures
        r == shanten(*h, melds),
{
    let n = count_tiles(h);
    let regular = least(h, 0, n, Taken { sets: melds, parts: 0, pair: false });
    if melds != 0 {
        return regular;
    }
    let pairs = count_slots(h, 2, false);
    let kinds = count_slots(h, 1, false);
    let seven = 6 - (pairs as isize) + if kinds < 7 {
        7 - (kinds as isize)
    } else {
        0
    };
    let orphans = count_slots(h, 1, true);
    let doubled = count_slots(h, 2, true);
    let thirteen = 13 - (orphans as isize) - if doubled > 0 {
        1
    } else {
        0
    };
    smaller(regular, smaller(seven, thirteen))
}

} // verus!
