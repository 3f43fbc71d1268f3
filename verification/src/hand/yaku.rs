//! The yaku of a hand in the regular form, and its fu.
//!
//! Every notion is stated once as a spec function and once as code; the
//! code is proved to compute what the spec function says.

use crate::hand::parts::{Parts, SetInfo, SetKind, WaitKind, WinInfo};
use crate::model::define::{DG, DR, DW, TM, TP, TS, TZ, WE, WN};
use crate::model::tile::Tile;
use vstd::prelude::*;

verus! {

/// One where `b` holds, else none.
pub open spec fn spec_one_if(b: bool) -> int {
    if b {
        1
    } else {
        0
    }
}

/// One where `b` holds, else none.
pub fn one_if(b: bool) -> (out: usize)
    ensures
        out == spec_one_if(b),
{
    if b {
        1
    } else {
        0
    }
}

/// `x` where `b` holds, else `y`.
pub open spec fn spec_pick(b: bool, x: int, y: int) -> int {
    if b {
        x
    } else {
        y
    }
}

/// `x` where `b` holds, else `y`.
pub fn pick(b: bool, x: usize, y: usize) -> (out: usize)
    ensures
        out == spec_pick(b, x as int, y as int),
{
    if b {
        x
    } else {
        y
    }
}

/// Whether the set is a run.
pub open spec fn spec_set_is_run(s: SetInfo) -> bool {
    s.kind == SetKind::Run
}

/// Whether the set is a run.
pub fn set_is_run(s: SetInfo) -> (out: bool)
    ensures
        out == spec_set_is_run(s),
{
    s.kind == SetKind::Run
}

/// Whether the set is a triplet or a quad.
pub open spec fn spec_set_is_same(s: SetInfo) -> bool {
    s.kind != SetKind::Run
}

/// Whether the set is a triplet or a quad.
pub fn set_is_same(s: SetInfo) -> (out: bool)
    ensures
        out == spec_set_is_same(s),
{
    s.kind != SetKind::Run
}

/// Whether the set is a quad.
pub open spec fn spec_set_is_quad(s: SetInfo) -> bool {
    s.kind == SetKind::Quad
}

/// Whether the set is a quad.
pub fn set_is_quad(s: SetInfo) -> (out: bool)
    ensures
        out == spec_set_is_quad(s),
{
    s.kind == SetKind::Quad
}

/// Whether the set is made of honors.
pub open spec fn spec_set_is_honor(s: SetInfo) -> bool {
    s.suit == TZ
}

/// Whether the set is made of honors.
pub fn set_is_honor(s: SetInfo) -> (out: bool)
    ensures
        out == spec_set_is_honor(s),
{
    s.suit == TZ
}

/// Whether the set is a triplet or quad of dragons.
pub open spec fn spec_set_is_dragon(s: SetInfo) -> bool {
    s.suit == TZ && s.kind != SetKind::Run && s.rank >= DW && s.rank <= DR
}

/// Whether the set is a triplet or quad of dragons.
pub fn set_is_dragon(s: SetInfo) -> (out: bool)
    ensures
        out == spec_set_is_dragon(s),
{
    s.suit == TZ && s.kind != SetKind::Run && s.rank >= DW && s.rank <= DR
}

/// Whether the set is a triplet or quad of winds.
pub open spec fn spec_set_is_wind(s: SetInfo) -> bool {
    s.suit == TZ && s.kind != SetKind::Run && s.rank >= WE && s.rank <= WN
}

/// Whether the set is a triplet or quad of winds.
pub fn set_is_wind(s: SetInfo) -> (out: bool)
    ensures
        out == spec_set_is_wind(s),
{
    s.suit == TZ && s.kind != SetKind::Run && s.rank >= WE && s.rank <= WN
}

/// Whether the set holds a one or a nine.
pub open spec fn spec_set_has_terminal(s: SetInfo) -> bool {
    s.suit != TZ
        && if s.kind == SetKind::Run {
            s.rank == 1 || s.rank == 7
        } else {
            s.rank == 1 || s.rank == 9
        }
}

/// Whether the set holds a one or a nine.
pub fn set_has_terminal(s: SetInfo) -> (out: bool)
    ensures
        out == spec_set_has_terminal(s),
{
    s.suit != TZ
        && if s.kind == SetKind::Run {
            s.rank == 1 || s.rank == 7
        } else {
            s.rank == 1 || s.rank == 9
        }
}

/// Whether the set holds a terminal or an honor.
pub open spec fn spec_set_has_yaochu(s: SetInfo) -> bool {
    s.suit == TZ || spec_set_has_terminal(s)
}

/// Whether the set holds a terminal or an honor.
pub fn set_has_yaochu(s: SetInfo) -> (out: bool)
    ensures
        out == spec_set_has_yaochu(s),
{
    s.suit == TZ || set_has_terminal(s)
}

/// Whether the set is a triplet or quad of ones or nines.
pub open spec fn spec_set_all_terminal(s: SetInfo) -> bool {
    s.suit != TZ && s.kind != SetKind::Run && (s.rank == 1 || s.rank == 9)
}

/// Whether the set is a triplet or quad of ones or nines.
pub fn set_all_terminal(s: SetInfo) -> (out: bool)
    ensures
        out == spec_set_all_terminal(s),
{
    s.suit != TZ && s.kind != SetKind::Run && (s.rank == 1 || s.rank == 9)
}

/// Whether the set is a triplet or quad of terminals or honors.
pub open spec fn spec_set_all_yaochu(s: SetInfo) -> bool {
    s.kind != SetKind::Run && (s.suit == TZ || s.rank == 1 || s.rank == 9)
}

/// Whether the set is a triplet or quad of terminals or honors.
pub fn set_all_yaochu(s: SetInfo) -> (out: bool)
    ensures
        out == spec_set_all_yaochu(s),
{
    s.kind != SetKind::Run && (s.suit == TZ || s.rank == 1 || s.rank == 9)
}

/// Whether the set is a concealed triplet or quad.
pub open spec fn spec_set_is_closed_same(s: SetInfo) -> bool {
    s.kind != SetKind::Run && !s.open
}

/// Whether the set is a concealed triplet or quad.
pub fn set_is_closed_same(s: SetInfo) -> (out: bool)
    ensures
        out == spec_set_is_closed_same(s),
{
    s.kind != SetKind::Run && !s.open
}

/// Whether the set is made of green tiles: the two, three, four, six and
/// eight of sou and the green dragon.
pub open spec fn spec_set_is_green(s: SetInfo) -> bool {
    if s.suit == TS {
        if s.kind == SetKind::Run {
            s.rank == 2
        } else {
            s.rank == 2 || s.rank == 3 || s.rank == 4 || s.rank == 6 || s.rank == 8
        }
    } else {
        s.suit == TZ && s.kind != SetKind::Run && s.rank == DG
    }
}

/// Whether the set is made of green tiles: the two, three, four, six and
/// eight of sou and the green dragon.
pub fn set_is_green(s: SetInfo) -> (out: bool)
    ensures
        out == spec_set_is_green(s),
{
    if s.suit == TS {
        if s.kind == SetKind::Run {
            s.rank == 2
        } else {
            s.rank == 2 || s.rank == 3 || s.rank == 4 || s.rank == 6 || s.rank == 8
        }
    } else {
        s.suit == TZ && s.kind != SetKind::Run && s.rank == DG
    }
}

/// Whether the two sets are runs of the same tiles.
pub open spec fn spec_same_run(a: SetInfo, b: SetInfo) -> bool {
    a.kind == SetKind::Run && b.kind == SetKind::Run && a.suit == b.suit && a.rank == b.rank
}

/// Whether the two sets are runs of the same tiles.
pub fn same_run(a: SetInfo, b: SetInfo) -> (out: bool)
    ensures
        out == spec_same_run(a, b),
{
    a.kind == SetKind::Run && b.kind == SetKind::Run && a.suit == b.suit && a.rank == b.rank
}

/// Whether the tile is a one or a nine.
pub open spec fn spec_tile_is_terminal(p: Tile) -> bool {
    p.0 != TZ && (p.1 == 1 || p.1 == 9)
}

/// Whether the tile is a one or a nine.
pub fn tile_is_terminal(p: Tile) -> (out: bool)
    ensures
        out == spec_tile_is_terminal(p),
{
    p.0 != TZ && (p.1 == 1 || p.1 == 9)
}

/// Whether the tile is a terminal or an honor.
pub open spec fn spec_tile_is_yaochu(p: Tile) -> bool {
    p.0 == TZ || p.1 == 1 || p.1 == 9
}

/// Whether the tile is a terminal or an honor.
pub fn tile_is_yaochu(p: Tile) -> (out: bool)
    ensures
        out == spec_tile_is_yaochu(p),
{
    p.0 == TZ || p.1 == 1 || p.1 == 9
}

/// Whether the tile is a dragon.
pub open spec fn spec_tile_is_dragon(p: Tile) -> bool {
    p.0 == TZ && p.1 >= DW && p.1 <= DR
}

/// Whether the tile is a dragon.
pub fn tile_is_dragon(p: Tile) -> (out: bool)
    ensures
        out == spec_tile_is_dragon(p),
{
    p.0 == TZ && p.1 >= DW && p.1 <= DR
}

/// Whether the tile is a wind.
pub open spec fn spec_tile_is_wind(p: Tile) -> bool {
    p.0 == TZ && p.1 >= WE && p.1 <= WN
}

/// Whether the tile is a wind.
pub fn tile_is_wind(p: Tile) -> (out: bool)
    ensures
        out == spec_tile_is_wind(p),
{
    p.0 == TZ && p.1 >= WE && p.1 <= WN
}

/// Whether the tile is green.
pub open spec fn spec_tile_is_green(p: Tile) -> bool {
    if p.0 == TS {
        p.1 == 2 || p.1 == 3 || p.1 == 4 || p.1 == 6 || p.1 == 8
    } else {
        p.0 == TZ && p.1 == DG
    }
}

/// Whether the tile is green.
pub fn tile_is_green(p: Tile) -> (out: bool)
    ensures
        out == spec_tile_is_green(p),
{
    if p.0 == TS {
        p.1 == 2 || p.1 == 3 || p.1 == 4 || p.1 == 6 || p.1 == 8
    } else {
        p.0 == TZ && p.1 == DG
    }
}

/// Whether a triplet of the tile is a yaku: a dragon, the seat wind or the
/// prevalent wind.
#[verifier::opaque]
pub open spec fn spec_tile_is_value(p: Tile, i: WinInfo) -> bool {
    p.0 == TZ && ((p.1 >= DW && p.1 <= DR) || p.1 == i.seat_wind || p.1 == i.prevalent_wind)
}

/// Whether a triplet of the tile is a yaku: a dragon, the seat wind or the
/// prevalent wind.
pub fn tile_is_value(p: Tile, i: WinInfo) -> (out: bool)
    ensures
        out == spec_tile_is_value(p, i),
{
    proof {
        reveal(spec_tile_is_value);
    }
    p.0 == TZ && ((p.1 >= DW && p.1 <= DR) || p.1 == i.seat_wind || p.1 == i.prevalent_wind)
}

/// The number of runs.
pub open spec fn spec_count_runs(c: Parts) -> int {
    spec_one_if(spec_set_is_run(c.s0))
        + spec_one_if(spec_set_is_run(c.s1))
        + spec_one_if(spec_set_is_run(c.s2))
        + spec_one_if(spec_set_is_run(c.s3))
}

/// The number of runs.
pub fn count_runs(c: Parts) -> (out: usize)
    ensures
        out == spec_count_runs(c),
        out <= 4,
{
    one_if(set_is_run(c.s0))
        + one_if(set_is_run(c.s1))
        + one_if(set_is_run(c.s2))
        + one_if(set_is_run(c.s3))
}

/// The number of concealed triplets and quads.
pub open spec fn spec_count_closed_same(c: Parts) -> int {
    spec_one_if(spec_set_is_closed_same(c.s0))
        + spec_one_if(spec_set_is_closed_same(c.s1))
        + spec_one_if(spec_set_is_closed_same(c.s2))
        + spec_one_if(spec_set_is_closed_same(c.s3))
}

/// The number of concealed triplets and quads.
pub fn count_closed_same(c: Parts) -> (out: usize)
    ensures
        out == spec_count_closed_same(c),
        out <= 4,
{
    one_if(set_is_closed_same(c.s0))
        + one_if(set_is_closed_same(c.s1))
        + one_if(set_is_closed_same(c.s2))
        + one_if(set_is_closed_same(c.s3))
}

/// The number of quads.
pub open spec fn spec_count_quads(c: Parts) -> int {
    spec_one_if(spec_set_is_quad(c.s0))
        + spec_one_if(spec_set_is_quad(c.s1))
        + spec_one_if(spec_set_is_quad(c.s2))
        + spec_one_if(spec_set_is_quad(c.s3))
}

/// The number of quads.
pub fn count_quads(c: Parts) -> (out: usize)
    ensures
        out == spec_count_quads(c),
        out <= 4,
{
    one_if(set_is_quad(c.s0))
        + one_if(set_is_quad(c.s1))
        + one_if(set_is_quad(c.s2))
        + one_if(set_is_quad(c.s3))
}

/// The number of triplets and quads of dragons.
pub open spec fn spec_count_dragons(c: Parts) -> int {
    spec_one_if(spec_set_is_dragon(c.s0))
        + spec_one_if(spec_set_is_dragon(c.s1))
        + spec_one_if(spec_set_is_dragon(c.s2))
        + spec_one_if(spec_set_is_dragon(c.s3))
}

/// The number of triplets and quads of dragons.
pub fn count_dragons(c: Parts) -> (out: usize)
    ensures
        out == spec_count_dragons(c),
        out <= 4,
{
    one_if(set_is_dragon(c.s0))
        + one_if(set_is_dragon(c.s1))
        + one_if(set_is_dragon(c.s2))
        + one_if(set_is_dragon(c.s3))
}

/// The number of triplets and quads of winds.
pub open spec fn spec_count_winds(c: Parts) -> int {
    spec_one_if(spec_set_is_wind(c.s0))
        + spec_one_if(spec_set_is_wind(c.s1))
        + spec_one_if(spec_set_is_wind(c.s2))
        + spec_one_if(spec_set_is_wind(c.s3))
}

/// The number of triplets and quads of winds.
pub fn count_winds(c: Parts) -> (out: usize)
    ensures
        out == spec_count_winds(c),
        out <= 4,
{
    one_if(set_is_wind(c.s0))
        + one_if(set_is_wind(c.s1))
        + one_if(set_is_wind(c.s2))
        + one_if(set_is_wind(c.s3))
}

/// The number of yaku that the set is by its tiles: one for a triplet of
/// dragons, of the seat wind, and of the prevalent wind.
#[verifier::opaque]
pub open spec fn spec_set_value(s: SetInfo, i: WinInfo) -> int {
    if s.suit == TZ && s.kind != SetKind::Run {
        spec_one_if(s.rank >= DW && s.rank <= DR)
            + spec_one_if(s.rank == i.seat_wind)
            + spec_one_if(s.rank == i.prevalent_wind)
    } else {
        0
    }
}

/// The number of yaku that the set is by its tiles: one for a triplet of
/// dragons, of the seat wind, and of the prevalent wind.
pub fn set_value(s: SetInfo, i: WinInfo) -> (out: usize)
    ensures
        out == spec_set_value(s, i),
        out <= 3,
{
    proof {
        reveal(spec_set_value);
    }
    if s.suit == TZ && s.kind != SetKind::Run {
        one_if(s.rank >= DW && s.rank <= DR)
            + one_if(s.rank == i.seat_wind)
            + one_if(s.rank == i.prevalent_wind)
    } else {
        0
    }
}

/// The number of yaku that the sets are by their tiles.
pub open spec fn spec_count_yakuhai(c: Parts, i: WinInfo) -> int {
    spec_set_value(c.s0, i)
        + spec_set_value(c.s1, i)
        + spec_set_value(c.s2, i)
        + spec_set_value(c.s3, i)
}

/// The number of yaku that the sets are by their tiles.
pub fn count_yakuhai(c: Parts, i: WinInfo) -> (out: usize)
    ensures
        out == spec_count_yakuhai(c, i),
        out <= 12,
{
    set_value(c.s0, i) + set_value(c.s1, i) + set_value(c.s2, i) + set_value(c.s3, i)
}

/// Whether the set is the run of suit `t` from rank `r`.
pub open spec fn spec_run_at(s: SetInfo, t: usize, r: usize) -> bool {
    s.kind == SetKind::Run && s.suit == t && s.rank == r
}

/// Whether the set is the run of suit `t` from rank `r`.
pub fn run_at(s: SetInfo, t: usize, r: usize) -> (out: bool)
    ensures
        out == spec_run_at(s, t, r),
{
    s.kind == SetKind::Run && s.suit == t && s.rank == r
}

/// Whether the set is the triplet or quad of rank `r` of suit `t`.
pub open spec fn spec_same_at(s: SetInfo, t: usize, r: usize) -> bool {
    s.kind != SetKind::Run && s.suit == t && s.rank == r
}

/// Whether the set is the triplet or quad of rank `r` of suit `t`.
pub fn same_at(s: SetInfo, t: usize, r: usize) -> (out: bool)
    ensures
        out == spec_same_at(s, t, r),
{
    s.kind != SetKind::Run && s.suit == t && s.rank == r
}

/// Whether the hand has the run of suit `t` from rank `r`.
pub open spec fn spec_has_run(c: Parts, t: usize, r: usize) -> bool {
    spec_run_at(c.s0, t, r)
        || spec_run_at(c.s1, t, r)
        || spec_run_at(c.s2, t, r)
        || spec_run_at(c.s3, t, r)
}

/// Whether the hand has the run of suit `t` from rank `r`.
pub fn has_run(c: Parts, t: usize, r: usize) -> (out: bool)
    ensures
        out == spec_has_run(c, t, r),
{
    run_at(c.s0, t, r) || run_at(c.s1, t, r) || run_at(c.s2, t, r) || run_at(c.s3, t, r)
}

/// Whether the hand has the triplet or quad of rank `r` of suit `t`.
pub open spec fn spec_has_same(c: Parts, t: usize, r: usize) -> bool {
    spec_same_at(c.s0, t, r)
        || spec_same_at(c.s1, t, r)
        || spec_same_at(c.s2, t, r)
        || spec_same_at(c.s3, t, r)
}

/// Whether the hand has the triplet or quad of rank `r` of suit `t`.
pub fn has_same(c: Parts, t: usize, r: usize) -> (out: bool)
    ensures
        out == spec_has_same(c, t, r),
{
    same_at(c.s0, t, r) || same_at(c.s1, t, r) || same_at(c.s2, t, r) || same_at(c.s3, t, r)
}

/// Pinfu: a concealed hand of four runs, a pair that is no yaku, won on a
/// wait open at both ends.
pub open spec fn spec_is_pinfu(c: Parts, i: WinInfo) -> bool {
    i.is_menzen
        && i.n_melds == 0
        && spec_set_is_run(c.s0)
        && spec_set_is_run(c.s1)
        && spec_set_is_run(c.s2)
        && spec_set_is_run(c.s3)
        && !spec_tile_is_value(c.pair, i)
        && c.wait == WaitKind::Ryanmen
}

/// Pinfu: a concealed hand of four runs, a pair that is no yaku, won on a
/// wait open at both ends.
pub fn is_pinfu(c: Parts, i: WinInfo) -> (out: bool)
    ensures
        out == spec_is_pinfu(c, i),
{
    i.is_menzen
        && i.n_melds == 0
        && set_is_run(c.s0)
        && set_is_run(c.s1)
        && set_is_run(c.s2)
        && set_is_run(c.s3)
        && !tile_is_value(c.pair, i)
        && c.wait == WaitKind::Ryanmen
}

/// Tanyao: no terminal and no honor.
pub open spec fn spec_is_tanyao(c: Parts) -> bool {
    !spec_set_has_yaochu(c.s0)
        && !spec_set_has_yaochu(c.s1)
        && !spec_set_has_yaochu(c.s2)
        && !spec_set_has_yaochu(c.s3)
        && !spec_tile_is_yaochu(c.pair)
}

/// Tanyao: no terminal and no honor.
pub fn is_tanyao(c: Parts) -> (out: bool)
    ensures
        out == spec_is_tanyao(c),
{
    !set_has_yaochu(c.s0)
        && !set_has_yaochu(c.s1)
        && !set_has_yaochu(c.s2)
        && !set_has_yaochu(c.s3)
        && !tile_is_yaochu(c.pair)
}

/// Ryanpeikou: a concealed hand of two pairs of like runs.
pub open spec fn spec_is_ryanpeikou(c: Parts, i: WinInfo) -> bool {
    i.is_menzen
        && ((spec_same_run(c.s0, c.s1) && spec_same_run(c.s2, c.s3))
                || (spec_same_run(c.s0, c.s2) && spec_same_run(c.s1, c.s3))
                || (spec_same_run(c.s0, c.s3) && spec_same_run(c.s1, c.s2)))
}

/// Ryanpeikou: a concealed hand of two pairs of like runs.
pub fn is_ryanpeikou(c: Parts, i: WinInfo) -> (out: bool)
    ensures
        out == spec_is_ryanpeikou(c, i),
{
    i.is_menzen
        && ((same_run(c.s0, c.s1) && same_run(c.s2, c.s3))
                || (same_run(c.s0, c.s2) && same_run(c.s1, c.s3))
                || (same_run(c.s0, c.s3) && same_run(c.s1, c.s2)))
}

/// Iipeikou: a concealed hand with two like runs, but not two pairs of
/// them.
pub open spec fn spec_is_iipeikou(c: Parts, i: WinInfo) -> bool {
    i.is_menzen
        && !spec_is_ryanpeikou(c, i)
        && (spec_same_run(c.s0, c.s1)
                || spec_same_run(c.s0, c.s2)
                || spec_same_run(c.s0, c.s3)
                || spec_same_run(c.s1, c.s2)
                || spec_same_run(c.s1, c.s3)
                || spec_same_run(c.s2, c.s3))
}

/// Iipeikou: a concealed hand with two like runs, but not two pairs of
/// them.
pub fn is_iipeikou(c: Parts, i: WinInfo) -> (out: bool)
    ensures
        out == spec_is_iipeikou(c, i),
{
    i.is_menzen
        && !is_ryanpeikou(c, i)
        && (same_run(c.s0, c.s1)
                || same_run(c.s0, c.s2)
                || same_run(c.s0, c.s3)
                || same_run(c.s1, c.s2)
                || same_run(c.s1, c.s3)
                || same_run(c.s2, c.s3))
}

/// Whether the hand has the run from rank `r` in each of the three suits.
pub open spec fn spec_doujun_at(c: Parts, r: usize) -> bool {
    spec_has_run(c, TM, r) && spec_has_run(c, TP, r) && spec_has_run(c, TS, r)
}

/// Whether the hand has the run from rank `r` in each of the three suits.
pub fn doujun_at(c: Parts, r: usize) -> (out: bool)
    ensures
        out == spec_doujun_at(c, r),
{
    has_run(c, TM, r) && has_run(c, TP, r) && has_run(c, TS, r)
}

/// Sanshoku doujun: the same run in each of the three suits.
pub open spec fn spec_is_sanshoku_doujun(c: Parts) -> bool {
    spec_doujun_at(c, 1)
        || spec_doujun_at(c, 2)
        || spec_doujun_at(c, 3)
        || spec_doujun_at(c, 4)
        || spec_doujun_at(c, 5)
        || spec_doujun_at(c, 6)
        || spec_doujun_at(c, 7)
}

/// Sanshoku doujun: the same run in each of the three suits.
pub fn is_sanshoku_doujun(c: Parts) -> (out: bool)
    ensures
        out == spec_is_sanshoku_doujun(c),
{
    doujun_at(c, 1)
        || doujun_at(c, 2)
        || doujun_at(c, 3)
        || doujun_at(c, 4)
        || doujun_at(c, 5)
        || doujun_at(c, 6)
        || doujun_at(c, 7)
}

/// Whether the hand has the triplet or quad of rank `r` in each of the
/// three suits.
pub open spec fn spec_doukou_at(c: Parts, r: usize) -> bool {
    spec_has_same(c, TM, r) && spec_has_same(c, TP, r) && spec_has_same(c, TS, r)
}

/// Whether the hand has the triplet or quad of rank `r` in each of the
/// three suits.
pub fn doukou_at(c: Parts, r: usize) -> (out: bool)
    ensures
        out == spec_doukou_at(c, r),
{
    has_same(c, TM, r) && has_same(c, TP, r) && has_same(c, TS, r)
}

/// Sanshoku doukou: the same triplet in each of the three suits.
pub open spec fn spec_is_sanshoku_doukou(c: Parts) -> bool {
    spec_doukou_at(c, 1)
        || spec_doukou_at(c, 2)
        || spec_doukou_at(c, 3)
        || spec_doukou_at(c, 4)
        || spec_doukou_at(c, 5)
        || spec_doukou_at(c, 6)
        || spec_doukou_at(c, 7)
        || spec_doukou_at(c, 8)
        || spec_doukou_at(c, 9)
}

/// Sanshoku doukou: the same triplet in each of the three suits.
pub fn is_sanshoku_doukou(c: Parts) -> (out: bool)
    ensures
        out == spec_is_sanshoku_doukou(c),
{
    doukou_at(c, 1)
        || doukou_at(c, 2)
        || doukou_at(c, 3)
        || doukou_at(c, 4)
        || doukou_at(c, 5)
        || doukou_at(c, 6)
        || doukou_at(c, 7)
        || doukou_at(c, 8)
        || doukou_at(c, 9)
}

/// Whether the hand has the runs from one, four and seven of suit `t`.
pub open spec fn spec_ittsu_in(c: Parts, t: usize) -> bool {
    spec_has_run(c, t, 1) && spec_has_run(c, t, 4) && spec_has_run(c, t, 7)
}

/// Whether the hand has the runs from one, four and seven of suit `t`.
pub fn ittsu_in(c: Parts, t: usize) -> (out: bool)
    ensures
        out == spec_ittsu_in(c, t),
{
    has_run(c, t, 1) && has_run(c, t, 4) && has_run(c, t, 7)
}

/// Ittsu: the runs from one, four and seven of one suit.
pub open spec fn spec_is_ittsu(c: Parts) -> bool {
    spec_ittsu_in(c, TM) || spec_ittsu_in(c, TP) || spec_ittsu_in(c, TS)
}

/// Ittsu: the runs from one, four and seven of one suit.
pub fn is_ittsu(c: Parts) -> (out: bool)
    ensures
        out == spec_is_ittsu(c),
{
    ittsu_in(c, TM) || ittsu_in(c, TP) || ittsu_in(c, TS)
}

/// Tsuuiisou: honors only.
pub open spec fn spec_is_tsuuiisou(c: Parts) -> bool {
    spec_set_is_honor(c.s0)
        && spec_set_is_honor(c.s1)
        && spec_set_is_honor(c.s2)
        && spec_set_is_honor(c.s3)
        && c.pair.0 == TZ
}

/// Tsuuiisou: honors only.
pub fn is_tsuuiisou(c: Parts) -> (out: bool)
    ensures
        out == spec_is_tsuuiisou(c),
{
    set_is_honor(c.s0)
        && set_is_honor(c.s1)
        && set_is_honor(c.s2)
        && set_is_honor(c.s3)
        && c.pair.0 == TZ
}

/// Chinroutou: ones and nines only.
pub open spec fn spec_is_chinroutou(c: Parts) -> bool {
    spec_set_all_terminal(c.s0)
        && spec_set_all_terminal(c.s1)
        && spec_set_all_terminal(c.s2)
        && spec_set_all_terminal(c.s3)
        && spec_tile_is_terminal(c.pair)
}

/// Chinroutou: ones and nines only.
pub fn is_chinroutou(c: Parts) -> (out: bool)
    ensures
        out == spec_is_chinroutou(c),
{
    set_all_terminal(c.s0)
        && set_all_terminal(c.s1)
        && set_all_terminal(c.s2)
        && set_all_terminal(c.s3)
        && tile_is_terminal(c.pair)
}

/// Ryuuiisou: green tiles only.
pub open spec fn spec_is_ryuuiisou(c: Parts) -> bool {
    spec_set_is_green(c.s0)
        && spec_set_is_green(c.s1)
        && spec_set_is_green(c.s2)
        && spec_set_is_green(c.s3)
        && spec_tile_is_green(c.pair)
}

/// Ryuuiisou: green tiles only.
pub fn is_ryuuiisou(c: Parts) -> (out: bool)
    ensures
        out == spec_is_ryuuiisou(c),
{
    set_is_green(c.s0)
        && set_is_green(c.s1)
        && set_is_green(c.s2)
        && set_is_green(c.s3)
        && tile_is_green(c.pair)
}

/// Junchan: a terminal in every set and in the pair, and a run among the
/// sets.
pub open spec fn spec_is_junchan(c: Parts) -> bool {
    spec_set_has_terminal(c.s0)
        && spec_set_has_terminal(c.s1)
        && spec_set_has_terminal(c.s2)
        && spec_set_has_terminal(c.s3)
        && spec_tile_is_terminal(c.pair)
        && spec_count_runs(c) > 0
}

/// Junchan: a terminal in every set and in the pair, and a run among the
/// sets.
pub fn is_junchan(c: Parts) -> (out: bool)
    ensures
        out == spec_is_junchan(c),
{
    set_has_terminal(c.s0)
        && set_has_terminal(c.s1)
        && set_has_terminal(c.s2)
        && set_has_terminal(c.s3)
        && tile_is_terminal(c.pair)
        && count_runs(c) > 0
}

/// Chanta: a terminal or honor in every set and in the pair, a run among
/// the sets, and an honor somewhere.
pub open spec fn spec_is_chanta(c: Parts) -> bool {
    spec_set_has_yaochu(c.s0)
        && spec_set_has_yaochu(c.s1)
        && spec_set_has_yaochu(c.s2)
        && spec_set_has_yaochu(c.s3)
        && spec_tile_is_yaochu(c.pair)
        && spec_count_runs(c) > 0
        && !spec_is_junchan(c)
}

/// Chanta: a terminal or honor in every set and in the pair, a run among
/// the sets, and an honor somewhere.
pub fn is_chanta(c: Parts) -> (out: bool)
    ensures
        out == spec_is_chanta(c),
{
    set_has_yaochu(c.s0)
        && set_has_yaochu(c.s1)
        && set_has_yaochu(c.s2)
        && set_has_yaochu(c.s3)
        && tile_is_yaochu(c.pair)
        && count_runs(c) > 0
        && !is_junchan(c)
}

/// Honroutou: terminals and honors only, both of them.
pub open spec fn spec_is_honroutou(c: Parts) -> bool {
    spec_set_all_yaochu(c.s0)
        && spec_set_all_yaochu(c.s1)
        && spec_set_all_yaochu(c.s2)
        && spec_set_all_yaochu(c.s3)
        && spec_tile_is_yaochu(c.pair)
        && !spec_is_chinroutou(c)
        && !spec_is_tsuuiisou(c)
}

/// Honroutou: terminals and honors only, both of them.
pub fn is_honroutou(c: Parts) -> (out: bool)
    ensures
        out == spec_is_honroutou(c),
{
    set_all_yaochu(c.s0)
        && set_all_yaochu(c.s1)
        && set_all_yaochu(c.s2)
        && set_all_yaochu(c.s3)
        && tile_is_yaochu(c.pair)
        && !is_chinroutou(c)
        && !is_tsuuiisou(c)
}

/// Toitoi: four triplets or quads.
pub open spec fn spec_is_toitoi(c: Parts) -> bool {
    spec_set_is_same(c.s0)
        && spec_set_is_same(c.s1)
        && spec_set_is_same(c.s2)
        && spec_set_is_same(c.s3)
}

/// Toitoi: four triplets or quads.
pub fn is_toitoi(c: Parts) -> (out: bool)
    ensures
        out == spec_is_toitoi(c),
{
    set_is_same(c.s0) && set_is_same(c.s1) && set_is_same(c.s2) && set_is_same(c.s3)
}

/// Sanankou: three concealed triplets or quads.
pub open spec fn spec_is_sanankou(c: Parts) -> bool {
    spec_count_closed_same(c) == 3
}

/// Sanankou: three concealed triplets or quads.
pub fn is_sanankou(c: Parts) -> (out: bool)
    ensures
        out == spec_is_sanankou(c),
{
    count_closed_same(c) == 3
}

/// Suuankou: four concealed triplets or quads.
pub open spec fn spec_is_suuankou(c: Parts) -> bool {
    spec_count_closed_same(c) == 4
}

/// Suuankou: four concealed triplets or quads.
pub fn is_suuankou(c: Parts) -> (out: bool)
    ensures
        out == spec_is_suuankou(c),
{
    count_closed_same(c) == 4
}

/// Sankantsu: three quads.
pub open spec fn spec_is_sankantsu(c: Parts) -> bool {
    spec_count_quads(c) == 3
}

/// Sankantsu: three quads.
pub fn is_sankantsu(c: Parts) -> (out: bool)
    ensures
        out == spec_is_sankantsu(c),
{
    count_quads(c) == 3
}

/// Suukantsu: four quads.
pub open spec fn spec_is_suukantsu(c: Parts) -> bool {
    spec_count_quads(c) == 4
}

/// Suukantsu: four quads.
pub fn is_suukantsu(c: Parts) -> (out: bool)
    ensures
        out == spec_is_suukantsu(c),
{
    count_quads(c) == 4
}

/// Shousangen: two triplets of dragons and a pair of the third.
pub open spec fn spec_is_shousangen(c: Parts) -> bool {
    spec_count_dragons(c) == 2 && spec_tile_is_dragon(c.pair)
}

/// Shousangen: two triplets of dragons and a pair of the third.
pub fn is_shousangen(c: Parts) -> (out: bool)
    ensures
        out == spec_is_shousangen(c),
{
    count_dragons(c) == 2 && tile_is_dragon(c.pair)
}

/// Daisangen: triplets of all three dragons.
pub open spec fn spec_is_daisangen(c: Parts) -> bool {
    spec_count_dragons(c) == 3
}

/// Daisangen: triplets of all three dragons.
pub fn is_daisangen(c: Parts) -> (out: bool)
    ensures
        out == spec_is_daisangen(c),
{
    count_dragons(c) == 3
}

/// Shousuushii: three triplets of winds and a pair of the fourth.
pub open spec fn spec_is_shousuushii(c: Parts) -> bool {
    spec_count_winds(c) == 3 && spec_tile_is_wind(c.pair)
}

/// Shousuushii: three triplets of winds and a pair of the fourth.
pub fn is_shousuushii(c: Parts) -> (out: bool)
    ensures
        out == spec_is_shousuushii(c),
{
    count_winds(c) == 3 && tile_is_wind(c.pair)
}

/// Daisuushii: triplets of all four winds.
pub open spec fn spec_is_daisuushii(c: Parts) -> bool {
    spec_count_winds(c) == 4
}

/// Daisuushii: triplets of all four winds.
pub fn is_daisuushii(c: Parts) -> (out: bool)
    ensures
        out == spec_is_daisuushii(c),
{
    count_winds(c) == 4
}

/// Whether the set is of suit `t`.
pub open spec fn spec_set_in(s: SetInfo, t: usize) -> bool {
    s.suit == t
}

/// Whether the set is of suit `t`.
pub fn set_in(s: SetInfo, t: usize) -> (out: bool)
    ensures
        out == spec_set_in(s, t),
{
    s.suit == t
}

/// Whether the set is of suit `t` or of honors.
pub open spec fn spec_set_in_or_honor(s: SetInfo, t: usize) -> bool {
    s.suit == t || s.suit == TZ
}

/// Whether the set is of suit `t` or of honors.
pub fn set_in_or_honor(s: SetInfo, t: usize) -> (out: bool)
    ensures
        out == spec_set_in_or_honor(s, t),
{
    s.suit == t || s.suit == TZ
}

/// Whether all tiles are of suit `t`.
pub open spec fn spec_pure_in(c: Parts, t: usize) -> bool {
    spec_set_in(c.s0, t)
        && spec_set_in(c.s1, t)
        && spec_set_in(c.s2, t)
        && spec_set_in(c.s3, t)
        && c.pair.0 == t
}

/// Whether all tiles are of suit `t`.
pub fn pure_in(c: Parts, t: usize) -> (out: bool)
    ensures
        out == spec_pure_in(c, t),
{
    set_in(c.s0, t) && set_in(c.s1, t) && set_in(c.s2, t) && set_in(c.s3, t) && c.pair.0 == t
}

/// Whether all tiles are of suit `t` or honors.
pub open spec fn spec_mixed_in(c: Parts, t: usize) -> bool {
    spec_set_in_or_honor(c.s0, t)
        && spec_set_in_or_honor(c.s1, t)
        && spec_set_in_or_honor(c.s2, t)
        && spec_set_in_or_honor(c.s3, t)
        && (c.pair.0 == t || c.pair.0 == TZ)
}

/// Whether all tiles are of suit `t` or honors.
pub fn mixed_in(c: Parts, t: usize) -> (out: bool)
    ensures
        out == spec_mixed_in(c, t),
{
    set_in_or_honor(c.s0, t)
        && set_in_or_honor(c.s1, t)
        && set_in_or_honor(c.s2, t)
        && set_in_or_honor(c.s3, t)
        && (c.pair.0 == t || c.pair.0 == TZ)
}

/// Chinitsu: tiles of one suit only.
pub open spec fn spec_is_chinitsu(c: Parts) -> bool {
    spec_pure_in(c, TM) || spec_pure_in(c, TP) || spec_pure_in(c, TS)
}

/// Chinitsu: tiles of one suit only.
pub fn is_chinitsu(c: Parts) -> (out: bool)
    ensures
        out == spec_is_chinitsu(c),
{
    pure_in(c, TM) || pure_in(c, TP) || pure_in(c, TS)
}

/// Honitsu: tiles of one suit and honors, both of them.
pub open spec fn spec_is_honitsu(c: Parts) -> bool {
    !spec_is_chinitsu(c)
        && !spec_is_tsuuiisou(c)
        && (spec_mixed_in(c, TM) || spec_mixed_in(c, TP) || spec_mixed_in(c, TS))
}

/// Honitsu: tiles of one suit and honors, both of them.
pub fn is_honitsu(c: Parts) -> (out: bool)
    ensures
        out == spec_is_honitsu(c),
{
    !is_chinitsu(c) && !is_tsuuiisou(c) && (mixed_in(c, TM) || mixed_in(c, TP) || mixed_in(c, TS))
}

/// The fu of a set: none for a run; two for an open triplet of simples,
/// twice that where it is concealed, twice where it is of terminals or
/// honors, four times for a quad.
#[verifier::opaque]
pub open spec fn spec_set_fu(s: SetInfo) -> int {
    if s.kind == SetKind::Run {
        0
    } else if s.kind == SetKind::Quad {
        if spec_set_all_yaochu(s) { spec_pick(s.open, 16, 32) } else { spec_pick(s.open, 8, 16) }
    } else {
        if spec_set_all_yaochu(s) { spec_pick(s.open, 4, 8) } else { spec_pick(s.open, 2, 4) }
    }
}

/// The fu of a set: none for a run; two for an open triplet of simples,
/// twice that where it is concealed, twice where it is of terminals or
/// honors, four times for a quad.
pub fn set_fu(s: SetInfo) -> (out: usize)
    ensures
        out == spec_set_fu(s),
        out <= 32,
{
    proof {
        reveal(spec_set_fu);
    }
    if s.kind == SetKind::Run {
        0
    } else if s.kind == SetKind::Quad {
        if set_all_yaochu(s) { pick(s.open, 16, 32) } else { pick(s.open, 8, 16) }
    } else {
        if set_all_yaochu(s) { pick(s.open, 4, 8) } else { pick(s.open, 2, 4) }
    }
}

/// The fu of a wait: two for a wait on one tile only.
#[verifier::opaque]
pub open spec fn spec_wait_fu(w: WaitKind) -> int {
    spec_pick(w == WaitKind::Kanchan || w == WaitKind::Penchan || w == WaitKind::Tanki, 2, 0)
}

/// The fu of a wait: two for a wait on one tile only.
pub fn wait_fu(w: WaitKind) -> (out: usize)
    ensures
        out == spec_wait_fu(w),
        out <= 2,
{
    proof {
        reveal(spec_wait_fu);
    }
    pick(w == WaitKind::Kanchan || w == WaitKind::Penchan || w == WaitKind::Tanki, 2, 0)
}

/// The fu of a hand before rounding, but for what an open ron without any
/// fu gets: twenty, the fu of sets, pair and wait, two for a tsumo, ten for
/// a concealed ron.
#[verifier::opaque]
pub open spec fn spec_plain_fu(c: Parts, i: WinInfo) -> int {
    20
        + spec_set_fu(c.s0)
        + spec_set_fu(c.s1)
        + spec_set_fu(c.s2)
        + spec_set_fu(c.s3)
        + spec_pick(spec_tile_is_value(c.pair, i), 2, 0)
        + spec_wait_fu(c.wait)
        + spec_pick(i.is_tsumo, 2, spec_pick(i.is_menzen, 10, 0))
}

/// The fu of a hand before rounding, but for what an open ron without any
/// fu gets: twenty, the fu of sets, pair and wait, two for a tsumo, ten for
/// a concealed ron.
pub fn plain_fu(c: Parts, i: WinInfo) -> (out: usize)
    ensures
        out == spec_plain_fu(c, i),
        out <= 162,
{
    proof {
        reveal(spec_plain_fu);
    }
    20
        + set_fu(c.s0)
        + set_fu(c.s1)
        + set_fu(c.s2)
        + set_fu(c.s3)
        + pick(tile_is_value(c.pair, i), 2, 0)
        + wait_fu(c.wait)
        + pick(i.is_tsumo, 2, pick(i.is_menzen, 10, 0))
}

/// The fu of a hand before rounding. An open ron that has no other fu gets
/// two.
#[verifier::opaque]
pub open spec fn spec_raw_fu(c: Parts, i: WinInfo) -> int {
    spec_pick(spec_plain_fu(c, i) == 20, 22, spec_plain_fu(c, i))
}

/// The fu of a hand before rounding. An open ron that has no other fu gets
/// two.
pub fn raw_fu(c: Parts, i: WinInfo) -> (out: usize)
    ensures
        out == spec_raw_fu(c, i),
        out <= 162,
{
    proof {
        reveal(spec_raw_fu);
    }
    pick(plain_fu(c, i) == 20, 22, plain_fu(c, i))
}

/// The fu of a hand: twenty for a pinfu won by tsumo, thirty for one won by
/// ron, else the fu before rounding, rounded up to the next ten.
pub open spec fn spec_hand_fu(c: Parts, i: WinInfo) -> int {
    if spec_is_pinfu(c, i) {
        spec_pick(i.is_tsumo, 20, 30)
    } else {
        (spec_raw_fu(c, i) + 9) / 10 * 10
    }
}

/// The fu of a hand: twenty for a pinfu won by tsumo, thirty for one won by
/// ron, else the fu before rounding, rounded up to the next ten.
pub fn hand_fu(c: Parts, i: WinInfo) -> (out: usize)
    ensures
        out == spec_hand_fu(c, i),
        out <= 170,
{
    if is_pinfu(c, i) { pick(i.is_tsumo, 20, 30) } else { (raw_fu(c, i) + 9) / 10 * 10 }
}

} // verus!
