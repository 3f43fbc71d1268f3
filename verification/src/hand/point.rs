//! Payments: from fu and fan, or from the number of yakuman, to points.
//!
//! The payments below yakuman are stored as two tables, one for the dealer
//! and one for the others, indexed by fan and by the place of the fu among
//! the fu that occur. The tables hold what the scoring rule gives: basic
//! points are fu times two to the power of fan plus two, with the limits
//! of mangan, haneman, baiman and sanbaiman, and a ron pays six times the
//! basic points to a dealer and four times to anyone else, rounded up to
//! the next hundred.

use crate::hand::win::Points;
use crate::model::define::Point;
use vstd::prelude::*;

verus! {

/// What a dealer receives for one yakuman.
pub const POINT_YAKUMAN_LEADER: Point = 48000;

/// What anyone else receives for one yakuman.
pub const POINT_YAKUMAN_NON_LEADER: Point = 32000;

/// The fu that occur: 20, 25, and the tens from 30 to 110.
pub open spec fn is_valid_fu(fu: usize) -> bool {
    fu == 20 || fu == 25 || (30 <= fu <= 110 && fu % 10 == 0)
}

/// The place of a fu among the fu that occur.
pub open spec fn fu_index(fu: usize) -> int {
    if fu == 20 {
        0
    } else if fu == 25 {
        1
    } else {
        fu / 10 - 1
    }
}

/// `n` rounded up to the next hundred.
pub open spec fn spec_ceil100(n: int) -> int {
    (n + 99) / 100 * 100
}

/// Two to the power of `n`, for the few `n` that occur.
pub open spec fn two_pow(n: int) -> int {
    if n <= 0 {
        1
    } else if n == 1 {
        2
    } else if n == 2 {
        4
    } else if n == 3 {
        8
    } else if n == 4 {
        16
    } else if n == 5 {
        32
    } else {
        64
    }
}

/// The basic points of a hand below yakuman. A hand of one fan has at
/// least 30 fu, so the tables hold nothing for one fan with 20 or 25 fu.
pub open spec fn basic_points(fu: usize, fan: usize) -> int {
    if fan == 0 || (fan == 1 && fu < 30) {
        0
    } else if fan <= 4 {
        if fu * two_pow(fan + 2) >= 2000 {
            2000
        } else {
            fu * two_pow(fan + 2)
        }
    } else if fan == 5 {
        2000
    } else if fan <= 7 {
        3000
    } else if fan <= 10 {
        4000
    } else if fan <= 12 {
        6000
    } else {
        8000
    }
}

/// What the discarder pays for a hand below yakuman.
pub open spec fn ron_points(is_leader: bool, fu: usize, fan: usize) -> int {
    spec_ceil100(
        basic_points(fu, fan) * if is_leader {
            6int
        } else {
            4int
        },
    )
}

/// The payments of a dealer's hand: on a ron, and from each of the others
/// on a tsumo. No dealer pays.
pub open spec fn leader_points(point: int) -> (int, int, int) {
    (point, spec_ceil100(point / 3), 0)
}

/// The payments of a hand of anyone but the dealer: on a ron, and on a
/// tsumo from each of the others and from the dealer.
pub open spec fn non_leader_points(point: int) -> (int, int, int) {
    (point, spec_ceil100(point / 4), spec_ceil100(point / 2))
}

/// The payments of a hand, as integers.
pub open spec fn spec_points(is_leader: bool, fu: usize, fan: usize, yakuman_times: usize) -> (
    int,
    int,
    int,
) {
    if is_leader {
        if yakuman_times > 0 {
            let s = 48000 * yakuman_times;
            (s, s / 3, 0)
        } else {
            leader_points(ron_points(true, fu, fan))
        }
    } else {
        if yakuman_times > 0 {
            let s = 32000 * yakuman_times;
            (s, s / 4, s / 2)
        } else {
            non_leader_points(ron_points(false, fu, fan))
        }
    }
}

/// Whether the payments are those given as integers.
pub open spec fn points_are(p: Points, q: (int, int, int)) -> bool {
    p.0 == q.0 && p.1 == q.1 && p.2 == q.2
}

/// The place of a fu among the fu that occur.
pub fn calc_fu_index(fu: usize) -> (r: usize)
    requires
        is_valid_fu(fu),
    ensures
        r == fu_index(fu),
        r <= 10,
{
    if fu == 20 {
        0
    } else if fu == 25 {
        1
    } else {
        fu / 10 - 1
    }
}

/// `n` rounded up to the next hundred.
pub fn ceil100(n: Point) -> (r: Point)
    requires
        0 <= n <= i32::MAX - 99,
    ensures
        r == spec_ceil100(n as int),
        n <= r < n + 100,
        r % 100 == 0,
{
    (n + 99) / 100 * 100
}

fn point_leader(fan: usize, column: usize) -> (r: Point)
    requires
        fan < 13,
        column <= 10,
    ensures
        forall|fu: usize| is_valid_fu(fu) && fu_index(fu) == column ==> r == ron_points(true, fu, fan),
        0 <= r <= 36000,
{
    let table: [[Point; 11]; 13] = [
        [0, 0, 0, 0, 0, 0, 0, 0, 0, 0, 0],
        [0, 0, 1500, 2000, 2400, 2900, 3400, 3900, 4400, 4800, 5300],
        [2000, 2400, 2900, 3900, 4800, 5800, 6800, 7700, 8700, 9600, 10600],
        [3900, 4800, 5800, 7700, 9600, 11600, 12000, 12000, 12000, 12000, 12000],
        [7700, 9600, 11600, 12000, 12000, 12000, 12000, 12000, 12000, 12000, 12000],
        [12000, 12000, 12000, 12000, 12000, 12000, 12000, 12000, 12000, 12000, 12000],
        [18000, 18000, 18000, 18000, 18000, 18000, 18000, 18000, 18000, 18000, 18000],
        [18000, 18000, 18000, 18000, 18000, 18000, 18000, 18000, 18000, 18000, 18000],
        [24000, 24000, 24000, 24000, 24000, 24000, 24000, 24000, 24000, 24000, 24000],
        [24000, 24000, 24000, 24000, 24000, 24000, 24000, 24000, 24000, 24000, 24000],
        [24000, 24000, 24000, 24000, 24000, 24000, 24000, 24000, 24000, 24000, 24000],
        [36000, 36000, 36000, 36000, 36000, 36000, 36000, 36000, 36000, 36000, 36000],
        [36000, 36000, 36000, 36000, 36000, 36000, 36000, 36000, 36000, 36000, 36000],
    ];
    table[fan][column]
}

fn point_non_leader(fan: usize, column: usize) -> (r: Point)
    requires
        fan < 13,
        column <= 10,
    ensures
        forall|fu: usize|
            is_valid_fu(fu) && fu_index(fu) == column ==> r == ron_points(false, fu, fan),
        0 <= r <= 24000,
{
    let table: [[Point; 11]; 13] = [
        [0, 0, 0, 0, 0, 0, 0, 0, 0, 0, 0],
        [0, 0, 1000, 1300, 1600, 2000, 2300, 2600, 2900, 3200, 3600],
        [1300, 1600, 2000, 2600, 3200, 3900, 4500, 5200, 5800, 6400, 7100],
        [2600, 3200, 3900, 5200, 6400, 7700, 8000, 8000, 8000, 8000, 8000],
        [5200, 6400, 7700, 8000, 8000, 8000, 8000, 8000, 8000, 8000, 8000],
        [8000, 8000, 8000, 8000, 8000, 8000, 8000, 8000, 8000, 8000, 8000],
        [12000, 12000, 12000, 12000, 12000, 12000, 12000, 12000, 12000, 12000, 12000],
        [12000, 12000, 12000, 12000, 12000, 12000, 12000, 12000, 12000, 12000, 12000],
        [16000, 16000, 16000, 16000, 16000, 16000, 16000, 16000, 16000, 16000, 16000],
        [16000, 16000, 16000, 16000, 16000, 16000, 16000, 16000, 16000, 16000, 16000],
        [16000, 16000, 16000, 16000, 16000, 16000, 16000, 16000, 16000, 16000, 16000],
        [24000, 24000, 24000, 24000, 24000, 24000, 24000, 24000, 24000, 24000, 24000],
        [24000, 24000, 24000, 24000, 24000, 24000, 24000, 24000, 24000, 24000, 24000],
    ];
    table[fan][column]
}

/// The payments of a dealer's hand below yakuman; from 13 fan on, those
/// of one yakuman.
pub fn get_points_leader(fu: usize, fan: usize) -> (r: Points)
    requires
        is_valid_fu(fu),
    ensures
        points_are(r, leader_points(ron_points(true, fu, fan))),
{
    let fu_index = calc_fu_index(fu);
    let point = if fan < 13 {
        point_leader(fan, fu_index)
    } else {
        POINT_YAKUMAN_LEADER
    };
    (point, ceil100(point / 3), 0)
}

/// The payments of a hand of anyone but the dealer below yakuman; from 13
/// fan on, those of one yakuman.
pub fn get_points_non_leader(fu: usize, fan: usize) -> (r: Points)
    requires
        is_valid_fu(fu),
    ensures
        points_are(r, non_leader_points(ron_points(false, fu, fan))),
{
    let fu_index = calc_fu_index(fu);
    let point = if fan < 13 {
        point_non_leader(fan, fu_index)
    } else {
        POINT_YAKUMAN_NON_LEADER
    };
    (point, ceil100(point / 4), ceil100(point / 2))
}

/// The payments of a dealer's yakuman, `mag` times over.
pub fn get_points_leader_yakuman(mag: usize) -> (r: Points)
    requires
        48000 * mag <= i32::MAX,
    ensures
        points_are(r, (48000 * mag, 48000 * mag / 3, 0)),
        r.0 == 3 * r.1,
{
    let s = POINT_YAKUMAN_LEADER * (mag as i32);
    (s, s / 3, 0)
}

/// The payments of a yakuman of anyone but the dealer, `mag` times over.
pub fn get_points_non_leader_yakuman(mag: usize) -> (r: Points)
    requires
        32000 * mag <= i32::MAX,
    ensures
        points_are(r, (32000 * mag, 32000 * mag / 4, 32000 * mag / 2)),
        r.0 == 2 * r.1 + r.2,
{
    let s = POINT_YAKUMAN_NON_LEADER * (mag as i32);
    (s, s / 4, s / 2)
}

/// The payments of a hand: those of its yakuman where it has any, else
/// those of its fu and fan.
pub fn get_points(is_leader: bool, fu: usize, fan: usize, yakuman_times: usize) -> (r: Points)
    requires
        yakuman_times == 0 ==> is_valid_fu(fu),
        is_leader ==> 48000 * yakuman_times <= i32::MAX,
        !is_leader ==> 32000 * yakuman_times <= i32::MAX,
    ensures
        points_are(r, spec_points(is_leader, fu, fan, yakuman_times)),
{
    if is_leader {
        if yakuman_times > 0 {
            get_points_leader_yakuman(yakuman_times)
        } else {
            get_points_leader(fu, fan)
        }
    } else {
        if yakuman_times > 0 {
            get_points_non_leader_yakuman(yakuman_times)
        } else {
            get_points_non_leader(fu, fan)
        }
    }
}

/// What the three players pay a dealer on a tsumo is what the discarder
/// pays on a ron, but for the rounding of each share up to a hundred:
/// never less, and less than 300 more. The payments are whole hundreds.
pub proof fn lemma_leader_tsumo_matches_ron(fu: usize, fan: usize)
    requires
        is_valid_fu(fu),
    ensures
        ({
            let p = spec_points(true, fu, fan, 0);
            &&& p.0 <= 3 * p.1 < p.0 + 300
            &&& p.0 % 100 == 0
            &&& p.1 % 100 == 0
            &&& p.2 == 0
        }),
{
    lemma_ron_points_range(true, fu, fan);
}

/// What the three players pay anyone but a dealer on a tsumo is what the
/// discarder pays on a ron, but for the rounding of each share up to a
/// hundred: never less, and less than 300 more.
pub proof fn lemma_non_leader_tsumo_matches_ron(fu: usize, fan: usize)
    requires
        is_valid_fu(fu),
    ensures
        ({
            let p = spec_points(false, fu, fan, 0);
            &&& p.0 <= 2 * p.1 + p.2 < p.0 + 300
            &&& p.0 % 100 == 0
            &&& p.1 % 100 == 0
            &&& p.2 % 100 == 0
        }),
{
    lemma_ron_points_range(false, fu, fan);
}

/// A yakuman pays the same by ron and by tsumo, whoever wins.
pub proof fn lemma_yakuman_tsumo_is_ron(is_leader: bool, fu: usize, fan: usize, times: usize)
    requires
        times > 0,
    ensures
        ({
            let p = spec_points(is_leader, fu, fan, times);
            p.0 == if is_leader {
                3 * p.1
            } else {
                2 * p.1 + p.2
            }
        }),
{
}

/// A ron pays a whole number of hundreds, at most 48000.
pub proof fn lemma_ron_points_range(is_leader: bool, fu: usize, fan: usize)
    requires
        is_valid_fu(fu),
    ensures
        0 <= ron_points(is_leader, fu, fan) <= 48000,
        ron_points(is_leader, fu, fan) % 100 == 0,
{
    let b = basic_points(fu, fan);
    assert(0 <= b <= 8000) by {
        assert(two_pow(fan + 2) >= 1);
        assert(fu * two_pow(fan + 2) >= 0) by (nonlinear_arith)
            requires
                fu >= 0,
                two_pow(fan + 2) >= 1,
        ;
    }
}

/// A hand pays no less for one fan more.
pub proof fn lemma_points_grow_with_fan(is_leader: bool, fu: usize, fan: usize)
    requires
        is_valid_fu(fu),
        fan < usize::MAX,
    ensures
        ron_points(is_leader, fu, fan) <= ron_points(is_leader, fu, (fan + 1) as usize),
{
    let next = (fan + 1) as usize;
    let a = basic_points(fu, fan);
    let b = basic_points(fu, next);
    let p = two_pow(fan + 2);
    let q = two_pow(next + 2);
    assert(1 <= p <= q);
    assert(0 <= fu * p <= fu * q) by (nonlinear_arith)
        requires
            fu >= 0,
            1 <= p <= q,
    ;
    assert(a <= b);
}

} // verus!
