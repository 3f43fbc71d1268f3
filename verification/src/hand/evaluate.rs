//! The evaluation of a winning hand: of all the ways to read it, the one
//! that scores best, with its dora and its payments.

use crate::hand::count::{
    census_of, count_dora, count_gates, count_red, dora_total, gates_of, indicators_ok,
    melds_small, red_total, take_census, Census,
};
use crate::hand::parts::{
    find_wait, make_parts, meld_sets, meld_usable, parts_with, piece_sets, set_of_meld,
    set_of_piece, wait_in, SetInfo, WaitKind, WinInfo,
};
use crate::hand::point::{get_points, is_valid_fu, points_are, spec_points};
use crate::hand::score::{
    flag_yaku, flag_yakuman, item_if, items_fan, list_flag_yaku, list_flag_yakuman, push_if,
    regular_score, score_regular, sum_fan, Scored, ScoredView, Yaku, YakuItem,
};
use crate::hand::shape::{
    calc_regular_ways, check_seven_pairs, check_thirteen_orphans, hand_ways_view,
    is_seven_pairs, is_thirteen_orphans, regular_ways, HandWay, Piece,
};
use crate::hand::win::{WinContext, YakuFlags};
use crate::model::define::{Index, TNUM, TYPE};
use crate::model::meld::{Meld, MeldType};
use crate::model::tile::{table_bounded, Tile, TileTable};
use vstd::prelude::*;
use vstd::string::StringExecFns;

verus! {

/// Whether the score is that of a win: it has a yakuman or a yaku.
pub open spec fn is_win(s: ScoredView) -> bool {
    s.yakuman > 0 || s.fan > 0
}

/// Whether the score `b` is higher than the score `a`: by yakuman first,
/// then by fan, then by fu.
pub open spec fn beats(b: ScoredView, a: ScoredView) -> bool {
    b.yakuman > a.yakuman || (b.yakuman == a.yakuman && (b.fan > a.fan || (b.fan == a.fan && b.fu
        > a.fu)))
}

/// The better of the best score so far and the score `b`, which counts
/// only where it is that of a win.
pub open spec fn keep_better(a: Option<ScoredView>, b: ScoredView) -> Option<ScoredView> {
    if is_win(b) && (a is None || beats(b, a->0)) {
        Some(b)
    } else {
        a
    }
}

/// The content of the best score so far.
pub open spec fn best_view(a: Option<Scored>) -> Option<ScoredView> {
    match a {
        Some(s) => Some(s@),
        None => None,
    }
}

/// Whether the best score so far, if there is one, is that of a win and
/// within the bounds of all scores.
pub open spec fn best_ok(a: Option<Scored>) -> bool {
    a matches Some(s) ==> s.yakuman <= 20 && s.fan <= 60 && s.fu <= 170 && is_win(s@)
}

fn better(a: Option<Scored>, b: Scored) -> (r: Option<Scored>)
    requires
        best_ok(a),
        b.yakuman <= 20,
        b.fan <= 60,
        b.fu <= 170,
    ensures
        best_view(r) == keep_better(best_view(a), b@),
        best_ok(r),
{
    if !(b.yakuman > 0 || b.fan > 0) {
        return a;
    }
    match a {
        None => Some(b),
        Some(x) => {
            if b.yakuman > x.yakuman || (b.yakuman == x.yakuman && (b.fan > x.fan || (b.fan
                == x.fan && b.fu > x.fu))) {
                Some(b)
            } else {
                Some(x)
            }
        },
    }
}

/// The best score once the winning tile is tried as the tile that
/// completed the concealed set at `k`.
pub open spec fn placed_best(
    best: Option<ScoredView>,
    sets: Seq<SetInfo>,
    n_pieces: int,
    pair: Tile,
    k: int,
    i: WinInfo,
    f: YakuFlags,
    gates: usize,
) -> Option<ScoredView> {
    if k < n_pieces {
        match wait_in(sets[k], i.win_tile) {
            Some(w) => keep_better(
                best,
                regular_score(parts_with(sets, pair, k, w, i.is_tsumo), i, f, gates),
            ),
            None => best,
        }
    } else {
        best
    }
}

/// The best score once the hand is read with the given pair and sets,
/// the concealed sets first: the winning tile is tried as the second
/// tile of the pair and as the tile that completed each concealed set.
pub open spec fn way_best(
    best: Option<ScoredView>,
    sets: Seq<SetInfo>,
    n_pieces: int,
    pair: Tile,
    i: WinInfo,
    f: YakuFlags,
    gates: usize,
) -> Option<ScoredView> {
    let a = if pair == i.win_tile {
        keep_better(
            best,
            regular_score(parts_with(sets, pair, 4, WaitKind::Tanki, i.is_tsumo), i, f, gates),
        )
    } else {
        best
    };
    let b = placed_best(a, sets, n_pieces, pair, 0, i, f, gates);
    let c = placed_best(b, sets, n_pieces, pair, 1, i, f, gates);
    let d = placed_best(c, sets, n_pieces, pair, 2, i, f, gates);
    placed_best(d, sets, n_pieces, pair, 3, i, f, gates)
}

/// The best score over the first `n` ways to split the concealed tiles,
/// each with the sets of the melds. A way counts where it makes four
/// sets with them.
pub open spec fn ways_best(
    ways: Seq<(Tile, Seq<Piece>)>,
    n: int,
    msets: Seq<SetInfo>,
    i: WinInfo,
    f: YakuFlags,
    gates: usize,
) -> Option<ScoredView>
    decreases n,
{
    if n <= 0 {
        None
    } else {
        let before = ways_best(ways, n - 1, msets, i, f, gates);
        let (pair, pieces) = ways[n - 1];
        if pieces.len() + msets.len() == 4 {
            way_best(before, piece_sets(pieces) + msets, pieces.len() as int, pair, i, f, gates)
        } else {
            before
        }
    }
}

/// The score of seven pairs: 25 fu, two fan for the pairs, and the yaku
/// that the tiles make whatever their sets; all honors are a yakuman.
pub open spec fn pairs_score(c: Census, f: YakuFlags) -> ScoredView {
    let big = flag_yakuman(f) + item_if(c.only_honor, Yaku::Tsuuiisou, 1);
    if items_fan(big) > 0 {
        ScoredView { yakuman: items_fan(big), fan: 0, fu: 25, items: big }
    } else {
        let small = flag_yaku(f) + item_if(true, Yaku::Chiitoitsu, 2) + item_if(
            c.no_orphan,
            Yaku::Tanyao,
            1,
        ) + item_if(c.only_orphan, Yaku::Honroutou, 2) + item_if(
            c.one_suit_and_honor,
            Yaku::Honitsu,
            3,
        ) + item_if(c.one_suit, Yaku::Chinitsu, 6);
        ScoredView { yakuman: 0, fan: items_fan(small), fu: 25, items: small }
    }
}

/// The score of thirteen orphans: a yakuman, twice where the winning
/// tile made the pair, so that any of the thirteen would have won.
pub open spec fn orphans_score(h: TileTable, i: WinInfo, f: YakuFlags) -> ScoredView {
    let big = flag_yakuman(f) + item_if(
        true,
        Yaku::Kokushi,
        if i.win_tile.in_table() && h[i.win_tile.0 as int][i.win_tile.1 as int] == 2 {
            2
        } else {
            1
        },
    );
    ScoredView { yakuman: items_fan(big), fan: 0, fu: 0, items: big }
}

/// The best score of a hand over all the ways to read it; `None` where it
/// is no win.
pub open spec fn best_score(h: TileTable, melds: Seq<Meld>, i: WinInfo, f: YakuFlags) -> Option<
    ScoredView,
> {
    let ways = regular_ways(h);
    let a = ways_best(ways, ways.len() as int, meld_sets(melds), i, f, gates_of(h, i) as usize);
    let b = if is_seven_pairs(h) {
        keep_better(a, pairs_score(census_of(h), f))
    } else {
        a
    };
    if is_thirteen_orphans(h) {
        keep_better(b, orphans_score(h, i, f))
    } else {
        b
    }
}

fn score_pairs(c: Census, f: &YakuFlags) -> (r: Scored)
    ensures
        r@ == pairs_score(c, *f),
        r.yakuman <= 20,
        r.fan <= 60,
        r.fu <= 170,
{
    let mut big = list_flag_yakuman(f);
    push_if(&mut big, c.only_honor, Yaku::Tsuuiisou, 1);
    let n = sum_fan(&big);
    if n > 0 {
        Scored { yakuman: n, fan: 0, fu: 25, items: big }
    } else {
        let mut small = list_flag_yaku(f);
        push_if(&mut small, true, Yaku::Chiitoitsu, 2);
        push_if(&mut small, c.no_orphan, Yaku::Tanyao, 1);
        push_if(&mut small, c.only_orphan, Yaku::Honroutou, 2);
        push_if(&mut small, c.one_suit_and_honor, Yaku::Honitsu, 3);
        push_if(&mut small, c.one_suit, Yaku::Chinitsu, 6);
        let fan = sum_fan(&small);
        Scored { yakuman: 0, fan, fu: 25, items: small }
    }
}

fn score_orphans(h: &TileTable, i: &WinInfo, f: &YakuFlags) -> (r: Scored)
    ensures
        r@ == orphans_score(*h, *i, *f),
        r.yakuman <= 20,
        r.fan <= 60,
        r.fu <= 170,
{
    let mut big = list_flag_yakuman(f);
    let w = i.win_tile;
    let twice = w.0 < TYPE && w.1 < TNUM && h[w.0][w.1] == 2;
    push_if(
        &mut big,
        true,
        Yaku::Kokushi,
        if twice {
            2
        } else {
            1
        },
    );
    let n = sum_fan(&big);
    Scored { yakuman: n, fan: 0, fu: 0, items: big }
}

fn try_place(
    best: Option<Scored>,
    sets: &Vec<SetInfo>,
    n_pieces: usize,
    pair: Tile,
    k: usize,
    i: &WinInfo,
    f: &YakuFlags,
    gates: usize,
) -> (r: Option<Scored>)
    requires
        sets.len() == 4,
        k < 4,
        gates <= 2,
        forall|j: int| 0 <= j < 4 ==> (#[trigger] sets[j]).rank <= TNUM,
        best_ok(best),
    ensures
        best_view(r) == placed_best(best_view(best), sets@, n_pieces as int, pair, k as int, *i, *f, gates),
        best_ok(r),
{
    if k < n_pieces {
        match find_wait(sets[k], i.win_tile) {
            Some(w) => {
                let p = make_parts(sets, pair, k, w, i.is_tsumo);
                better(best, score_regular(p, *i, f, gates))
            },
            None => best,
        }
    } else {
        best
    }
}

fn try_way(
    best: Option<Scored>,
    sets: &Vec<SetInfo>,
    n_pieces: usize,
    pair: Tile,
    i: &WinInfo,
    f: &YakuFlags,
    gates: usize,
) -> (r: Option<Scored>)
    requires
        sets.len() == 4,
        gates <= 2,
        forall|j: int| 0 <= j < 4 ==> (#[trigger] sets[j]).rank <= TNUM,
        best_ok(best),
    ensures
        best_view(r) == way_best(best_view(best), sets@, n_pieces as int, pair, *i, *f, gates),
        best_ok(r),
{
    let a = if pair == i.win_tile {
        let p = make_parts(sets, pair, 4, WaitKind::Tanki, i.is_tsumo);
        better(best, score_regular(p, *i, f, gates))
    } else {
        best
    };
    let b = try_place(a, sets, n_pieces, pair, 0, i, f, gates);
    let c = try_place(b, sets, n_pieces, pair, 1, i, f, gates);
    let d = try_place(c, sets, n_pieces, pair, 2, i, f, gates);
    try_place(d, sets, n_pieces, pair, 3, i, f, gates)
}

/// Whether the melds can be read as sets.
pub open spec fn melds_usable(melds: Seq<Meld>) -> bool {
    forall|i: int| 0 <= i < melds.len() ==> meld_usable(#[trigger] melds[i])
}

fn sets_of_way(way: &HandWay, melds: &Vec<Meld>) -> (sets: Vec<SetInfo>)
    requires
        melds_usable(melds@),
    ensures
        sets@ == piece_sets(way.sets@) + meld_sets(melds@),
        forall|j: int| 0 <= j < way.sets.len() ==> (#[trigger] sets[j]).rank == way.sets[j].rank,
        forall|j: int|
            way.sets.len() <= j < sets.len() ==> (#[trigger] sets[j]).rank <= TNUM,
{
    let mut sets: Vec<SetInfo> = Vec::new();
    let mut j: usize = 0;
    while j < way.sets.len()
        invariant
            j <= way.sets.len(),
            sets@ == piece_sets(way.sets@).take(j as int),
        decreases way.sets.len() - j,
    {
        sets.push(set_of_piece(way.sets[j]));
        assert(sets@ =~= piece_sets(way.sets@).take(j + 1));
        j += 1;
    }
    assert(piece_sets(way.sets@).take(way.sets.len() as int) =~= piece_sets(way.sets@));
    let mut m: usize = 0;
    while m < melds.len()
        invariant
            m <= melds.len(),
            melds_usable(melds@),
            sets@ == piece_sets(way.sets@) + meld_sets(melds@).take(m as int),
            forall|j: int|
                way.sets.len() <= j < sets.len() ==> (#[trigger] sets[j]).rank <= TNUM,
        decreases melds.len() - m,
    {
        assert(meld_usable(melds[m as int]));
        let s = set_of_meld(&melds[m]);
        assert(melds[m as int].tiles[0].in_table() && melds[m as int].tiles[1].in_table()
            && melds[m as int].tiles[2].in_table());
        sets.push(s);
        assert(sets@ =~= piece_sets(way.sets@) + meld_sets(melds@).take(m + 1));
        m += 1;
    }
    assert(meld_sets(melds@).take(melds.len() as int) =~= meld_sets(melds@));
    sets
}

/// Whether the hand and its melds can be evaluated: no slot of the hand
/// holds more than a hand can, there are at most four melds of at most
/// four tiles, and the melds can be read as sets.
pub open spec fn hand_ok(h: TileTable, melds: Seq<Meld>) -> bool {
    &&& table_bounded(h)
    &&& melds_small(melds)
    &&& melds_usable(melds)
}

/// The best score of a hand over all the ways to read it.
pub fn find_best(h: &TileTable, melds: &Vec<Meld>, i: &WinInfo, f: &YakuFlags) -> (r: Option<Scored>)
    requires
        hand_ok(*h, melds@),
    ensures
        best_view(r) == best_score(*h, melds@, *i, *f),
        best_ok(r),
{
    let gates = count_gates(h, i);
    let ways = calc_regular_ways(h);
    let ghost wv = regular_ways(*h);
    let mut best: Option<Scored> = None;
    let mut n: usize = 0;
    while n < ways.len()
        invariant
            n <= ways.len(),
            hand_ok(*h, melds@),
            gates == gates_of(*h, *i),
            gates <= 2,
            wv == hand_ways_view(ways@),
            wv == regular_ways(*h),
            best_view(best) == ways_best(wv, n as int, meld_sets(melds@), *i, *f, gates),
            best_ok(best),
        decreases ways.len() - n,
    {
        let way = &ways[n];
        assert(wv[n as int] == (way.pair, way.sets@));
        if way.sets.len() <= 4 && way.sets.len() + melds.len() == 4 {
            let sets = sets_of_way(way, melds);
            proof {
                lemma_way_ranks(*h, n as int);
            }
            best = try_way(best, &sets, way.sets.len(), way.pair, i, f, gates);
        }
        n += 1;
    }
    if check_seven_pairs(h) {
        best = better(best, score_pairs(take_census(h), f));
    }
    if check_thirteen_orphans(h) {
        best = better(best, score_orphans(h, i, f));
    }
    best
}

/// The sets of every way to split a hand start at ranks that there are.
pub proof fn lemma_way_ranks(h: TileTable, n: int)
    requires
        0 <= n < regular_ways(h).len(),
    ensures
        forall|j: int|
            0 <= j < regular_ways(h)[n].1.len() ==> (#[trigger] regular_ways(h)[n].1[j]).rank
                <= TNUM,
{
    crate::hand::shape::lemma_pair_ways_ranks(
        crate::model::tile::table_view(h),
        40,
        crate::model::tile::hand_total(h) as nat,
        n,
    );
}

/// The name of a yaku.
pub open spec fn yaku_name(id: Yaku) -> Seq<char> {
    match id {
        Yaku::Menzentsumo => "門前清自摸和"@,
        Yaku::Riichi => "立直"@,
        Yaku::DoubleRiichi => "両立直"@,
        Yaku::Ippatsu => "一発"@,
        Yaku::Haitei => "海底摸月"@,
        Yaku::Houtei => "河底撈魚"@,
        Yaku::Rinshan => "嶺上開花"@,
        Yaku::Chankan => "槍槓"@,
        Yaku::Pinfu => "平和"@,
        Yaku::Tanyao => "断幺九"@,
        Yaku::Iipeikou => "一盃口"@,
        Yaku::Ryanpeikou => "二盃口"@,
        Yaku::Yakuhai => "役牌"@,
        Yaku::SanshokuDoujun => "三色同順"@,
        Yaku::SanshokuDoukou => "三色同刻"@,
        Yaku::Ittsu => "一気通貫"@,
        Yaku::Chanta => "混全帯幺九"@,
        Yaku::Junchan => "純全帯幺九"@,
        Yaku::Honroutou => "混老頭"@,
        Yaku::Toitoi => "対々和"@,
        Yaku::Sanankou => "三暗刻"@,
        Yaku::Sankantsu => "三槓子"@,
        Yaku::Shousangen => "小三元"@,
        Yaku::Honitsu => "混一色"@,
        Yaku::Chinitsu => "清一色"@,
        Yaku::Chiitoitsu => "七対子"@,
        Yaku::Kokushi => "国士無双"@,
        Yaku::Suuankou => "四暗刻"@,
        Yaku::Daisangen => "大三元"@,
        Yaku::Shousuushii => "小四喜"@,
        Yaku::Daisuushii => "大四喜"@,
        Yaku::Tsuuiisou => "字一色"@,
        Yaku::Chinroutou => "清老頭"@,
        Yaku::Ryuuiisou => "緑一色"@,
        Yaku::Chuuren => "九蓮宝燈"@,
        Yaku::Suukantsu => "四槓子"@,
        Yaku::Tenhou => "天和"@,
        Yaku::Chiihou => "地和"@,
        Yaku::Dora => "ドラ"@,
        Yaku::UraDora => "裏ドラ"@,
        Yaku::AkaDora => "赤ドラ"@,
    }
}

/// The name of a yaku.
pub fn name_of(id: Yaku) -> (r: String)
    ensures
        r@ == yaku_name(id),
{
    match id {
        Yaku::Menzentsumo => String::from_str("門前清自摸和"),
        Yaku::Riichi => String::from_str("立直"),
        Yaku::DoubleRiichi => String::from_str("両立直"),
        Yaku::Ippatsu => String::from_str("一発"),
        Yaku::Haitei => String::from_str("海底摸月"),
        Yaku::Houtei => String::from_str("河底撈魚"),
        Yaku::Rinshan => String::from_str("嶺上開花"),
        Yaku::Chankan => String::from_str("槍槓"),
        Yaku::Pinfu => String::from_str("平和"),
        Yaku::Tanyao => String::from_str("断幺九"),
        Yaku::Iipeikou => String::from_str("一盃口"),
        Yaku::Ryanpeikou => String::from_str("二盃口"),
        Yaku::Yakuhai => String::from_str("役牌"),
        Yaku::SanshokuDoujun => String::from_str("三色同順"),
        Yaku::SanshokuDoukou => String::from_str("三色同刻"),
        Yaku::Ittsu => String::from_str("一気通貫"),
        Yaku::Chanta => String::from_str("混全帯幺九"),
        Yaku::Junchan => String::from_str("純全帯幺九"),
        Yaku::Honroutou => String::from_str("混老頭"),
        Yaku::Toitoi => String::from_str("対々和"),
        Yaku::Sanankou => String::from_str("三暗刻"),
        Yaku::Sankantsu => String::from_str("三槓子"),
        Yaku::Shousangen => String::from_str("小三元"),
        Yaku::Honitsu => String::from_str("混一色"),
        Yaku::Chinitsu => String::from_str("清一色"),
        Yaku::Chiitoitsu => String::from_str("七対子"),
        Yaku::Kokushi => String::from_str("国士無双"),
        Yaku::Suuankou => String::from_str("四暗刻"),
        Yaku::Daisangen => String::from_str("大三元"),
        Yaku::Shousuushii => String::from_str("小四喜"),
        Yaku::Daisuushii => String::from_str("大四喜"),
        Yaku::Tsuuiisou => String::from_str("字一色"),
        Yaku::Chinroutou => String::from_str("清老頭"),
        Yaku::Ryuuiisou => String::from_str("緑一色"),
        Yaku::Chuuren => String::from_str("九蓮宝燈"),
        Yaku::Suukantsu => String::from_str("四槓子"),
        Yaku::Tenhou => String::from_str("天和"),
        Yaku::Chiihou => String::from_str("地和"),
        Yaku::Dora => String::from_str("ドラ"),
        Yaku::UraDora => String::from_str("裏ドラ"),
        Yaku::AkaDora => String::from_str("赤ドラ"),
    }
}

/// Whether every meld is a concealed quad.
pub open spec fn all_concealed(melds: Seq<Meld>) -> bool {
    forall|i: int| 0 <= i < melds.len() ==> (#[trigger] melds[i]).type_ == MeldType::Ankan
}

/// What the tiles do not show of a win, from what is known of it.
pub open spec fn win_info(
    melds: Seq<Meld>,
    win_tile: Tile,
    is_drawn: bool,
    prevalent_wind: Index,
    seat_wind: Index,
) -> WinInfo {
    WinInfo {
        win_tile: win_tile.spec_to_normal(),
        is_tsumo: is_drawn,
        is_menzen: all_concealed(melds),
        n_melds: melds.len() as usize,
        prevalent_wind,
        seat_wind,
    }
}

/// The fu by which the payments are looked up: the fu of the hand where
/// the tables have it, else the nearest that they have.
pub open spec fn table_fu(fu: int) -> usize {
    if fu == 25 {
        25
    } else if fu < 30 {
        20
    } else if fu >= 110 {
        110
    } else {
        (fu / 10 * 10) as usize
    }
}

/// The name of the limit that a hand reaches; empty below mangan.
pub open spec fn title_of(yakuman: int, fan: int, fu: int) -> Seq<char> {
    if yakuman >= 3 {
        "三倍役満"@
    } else if yakuman == 2 {
        "二倍役満"@
    } else if yakuman == 1 {
        "役満"@
    } else if fan >= 13 {
        "数え役満"@
    } else if fan >= 11 {
        "三倍満"@
    } else if fan >= 8 {
        "倍満"@
    } else if fan >= 6 {
        "跳満"@
    } else if fan >= 5 || (fan == 4 && fu >= 40) || (fan == 3 && fu >= 70) {
        "満貫"@
    } else {
        ""@
    }
}

/// The result of an evaluation.
pub struct Evaluated {
    pub yakuman: int,
    /// The fan of the yaku and of the dora.
    pub fan: int,
    pub fu: int,
    /// The yaku, then the dora.
    pub items: Seq<YakuItem>,
    pub title: Seq<char>,
    pub points: (int, int, int),
}

/// The dora of a hand, by kind: those of the indicators, those of the
/// ura indicators where the hand is in riichi, and the red fives. A
/// yakuman counts no dora.
pub open spec fn dora_counts(
    yakuman: int,
    h: TileTable,
    melds: Seq<Meld>,
    doras: Seq<Tile>,
    ura_doras: Seq<Tile>,
    f: YakuFlags,
) -> (int, int, int) {
    if yakuman > 0 {
        (0, 0, 0)
    } else {
        (
            dora_total(doras, h, melds, doras.len() as int),
            if f.riichi || f.dabururiichi {
                dora_total(ura_doras, h, melds, ura_doras.len() as int)
            } else {
                0
            },
            red_total(h, melds),
        )
    }
}

/// The payments of a win as they are due: on a tsumo nobody pays what a
/// discarder would have paid.
pub open spec fn paid(is_drawn: bool, p: (int, int, int)) -> (int, int, int) {
    if is_drawn {
        (0, p.1, p.2)
    } else {
        p
    }
}

/// The evaluation of a winning hand: its best score over all the ways to
/// read it, with the dora added to its fan, the name of its limit, and
/// its payments. `None` where the tiles make no winning shape, or make
/// one without a yaku: dora alone are no win.
pub open spec fn evaluated(
    h: TileTable,
    melds: Seq<Meld>,
    doras: Seq<Tile>,
    ura_doras: Seq<Tile>,
    win_tile: Tile,
    is_drawn: bool,
    is_dealer: bool,
    prevalent_wind: Index,
    seat_wind: Index,
    f: YakuFlags,
) -> Option<Evaluated> {
    match best_score(h, melds, win_info(melds, win_tile, is_drawn, prevalent_wind, seat_wind), f) {
        None => None,
        Some(s) => {
            let (d, u, r) = dora_counts(s.yakuman, h, melds, doras, ura_doras, f);
            let fan = s.fan + d + u + r;
            Some(
                Evaluated {
                    yakuman: s.yakuman,
                    fan,
                    fu: s.fu,
                    items: s.items + item_if(true, Yaku::Dora, d) + item_if(true, Yaku::UraDora, u)
                        + item_if(true, Yaku::AkaDora, r),
                    title: title_of(s.yakuman, fan, s.fu),
                    points: paid(
                        is_drawn,
                        spec_points(is_dealer, table_fu(s.fu), fan as usize, s.yakuman as usize),
                    ),
                },
            )
        },
    }
}

/// Whether the named yaku are the items, each with its name and its fan.
pub open spec fn yakus_named(yakus: Seq<(String, usize)>, items: Seq<YakuItem>) -> bool {
    &&& yakus.len() == items.len()
    &&& forall|i: int|
        0 <= i < yakus.len() ==> (#[trigger] yakus[i]).0@ == yaku_name(items[i].id) && yakus[i].1
            == items[i].fan
}

/// Whether the context is the result of the evaluation.
pub open spec fn context_is(ctx: WinContext, e: Evaluated) -> bool {
    &&& ctx.yakuman_times == e.yakuman
    &&& ctx.fan == e.fan
    &&& ctx.fu == e.fu
    &&& yakus_named(ctx.yakus@, e.items)
    &&& ctx.score_title@ == e.title
    &&& points_are(ctx.points, e.points)
}

fn only_concealed(melds: &Vec<Meld>) -> (r: bool)
    ensures
        r == all_concealed(melds@),
{
    let mut i: usize = 0;
    while i < melds.len()
        invariant
            i <= melds.len(),
            forall|k: int| 0 <= k < i ==> (#[trigger] melds[k]).type_ == MeldType::Ankan,
        decreases melds.len() - i,
    {
        if melds[i].type_ != MeldType::Ankan {
            return false;
        }
        i += 1;
    }
    true
}

fn fu_for_table(fu: usize) -> (r: usize)
    ensures
        r == table_fu(fu as int),
        is_valid_fu(r),
{
    if fu == 25 {
        25
    } else if fu < 30 {
        20
    } else if fu >= 110 {
        110
    } else {
        fu / 10 * 10
    }
}

fn title_for(yakuman: usize, fan: usize, fu: usize) -> (r: String)
    ensures
        r@ == title_of(yakuman as int, fan as int, fu as int),
{
    if yakuman >= 3 {
        String::from_str("三倍役満")
    } else if yakuman == 2 {
        String::from_str("二倍役満")
    } else if yakuman == 1 {
        String::from_str("役満")
    } else if fan >= 13 {
        String::from_str("数え役満")
    } else if fan >= 11 {
        String::from_str("三倍満")
    } else if fan >= 8 {
        String::from_str("倍満")
    } else if fan >= 6 {
        String::from_str("跳満")
    } else if fan >= 5 || (fan == 4 && fu >= 40) || (fan == 3 && fu >= 70) {
        String::from_str("満貫")
    } else {
        String::from_str("")
    }
}

fn name_items(items: &Vec<YakuItem>) -> (yakus: Vec<(String, usize)>)
    ensures
        yakus_named(yakus@, items@),
{
    let mut yakus: Vec<(String, usize)> = Vec::new();
    let mut i: usize = 0;
    while i < items.len()
        invariant
            i <= items.len(),
            yakus.len() == i,
            forall|k: int|
                0 <= k < i ==> (#[trigger] yakus[k]).0@ == yaku_name(items[k].id) && yakus[k].1
                    == items[k].fan,
        decreases items.len() - i,
    {
        yakus.push((name_of(items[i].id), items[i].fan));
        i += 1;
    }
    yakus
}

/// Evaluates a winning hand: `hand` holds the concealed tiles, the
/// winning tile among them.
pub fn evaluate_hand(
    hand: &TileTable,
    melds: &Vec<Meld>,
    doras: &Vec<Tile>,
    ura_doras: &Vec<Tile>,
    win_tile: Tile,
    is_drawn: bool,
    is_dealer: bool,
    prevalent_wind: Index,
    seat_wind: Index,
    yaku_flags: &YakuFlags,
) -> (r: Option<WinContext>)
    requires
        hand_ok(*hand, melds@),
        indicators_ok(doras@),
        indicators_ok(ura_doras@),
    ensures
        match evaluated(
            *hand,
            melds@,
            doras@,
            ura_doras@,
            win_tile,
            is_drawn,
            is_dealer,
            prevalent_wind,
            seat_wind,
            *yaku_flags,
        ) {
            Some(e) => r matches Some(ctx) && context_is(ctx, e),
            None => r is None,
        },
{
    let info = WinInfo {
        win_tile: win_tile.to_normal(),
        is_tsumo: is_drawn,
        is_menzen: only_concealed(melds),
        n_melds: melds.len(),
        prevalent_wind,
        seat_wind,
    };
    match find_best(hand, melds, &info, yaku_flags) {
        None => None,
        Some(s) => {
            let mut items = s.items;
            let ghost base = items@;
            let mut fan = s.fan;
            if s.yakuman == 0 {
                let d = count_dora(doras, hand, melds);
                let u = if yaku_flags.riichi || yaku_flags.dabururiichi {
                    count_dora(ura_doras, hand, melds)
                } else {
                    0
                };
                let r = count_red(hand, melds);
                push_if(&mut items, true, Yaku::Dora, d);
                push_if(&mut items, true, Yaku::UraDora, u);
                push_if(&mut items, true, Yaku::AkaDora, r);
                fan = fan + d + u + r;
            } else {
                proof {
                    assert(items@ =~= base + item_if(true, Yaku::Dora, 0) + item_if(
                        true,
                        Yaku::UraDora,
                        0,
                    ) + item_if(true, Yaku::AkaDora, 0));
                }
            }
            let table = get_points(is_dealer, fu_for_table(s.fu), fan, s.yakuman);
            let points = if is_drawn {
                (0, table.1, table.2)
            } else {
                table
            };
            Some(
                WinContext {
                    yakus: name_items(&items),
                    fu: s.fu,
                    fan,
                    yakuman_times: s.yakuman,
                    score_title: title_for(s.yakuman, fan, s.fu),
                    points,
                },
            )
        },
    }
}

/// A dora indicator more never makes a hand worth less, and never makes
/// a win of what was none: the hand wins with it just when it wins
/// without, and its fan with it is at least its fan without.
pub proof fn lemma_dora_never_hurts(
    h: TileTable,
    melds: Seq<Meld>,
    doras: Seq<Tile>,
    more: Tile,
    ura_doras: Seq<Tile>,
    win_tile: Tile,
    is_drawn: bool,
    is_dealer: bool,
    prevalent_wind: Index,
    seat_wind: Index,
    f: YakuFlags,
)
    ensures
        ({
            let with = evaluated(
                h,
                melds,
                doras.push(more),
                ura_doras,
                win_tile,
                is_drawn,
                is_dealer,
                prevalent_wind,
                seat_wind,
                f,
            );
            let without = evaluated(
                h,
                melds,
                doras,
                ura_doras,
                win_tile,
                is_drawn,
                is_dealer,
                prevalent_wind,
                seat_wind,
                f,
            );
            &&& with is Some == without is Some
            &&& without matches Some(a) ==> with->0.fan >= a.fan && with->0.yakuman == a.yakuman
                && with->0.fu == a.fu
        }),
{
    crate::hand::count::lemma_dora_grows(doras, more, h, melds);
}

} // verus!
