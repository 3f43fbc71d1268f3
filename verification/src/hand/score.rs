//! The yaku of a hand read in one way, each with its fan, and the score
//! that they make.

use crate::hand::parts::{Parts, WaitKind, WinInfo};
use crate::hand::win::YakuFlags;
use crate::hand::yaku::{
    count_yakuhai, hand_fu, is_chanta, is_chinitsu, is_chinroutou, is_daisangen, is_daisuushii,
    is_honitsu, is_honroutou, is_iipeikou, is_ittsu, is_junchan, is_pinfu, is_ryanpeikou,
    is_ryuuiisou, is_sanankou, is_sankantsu, is_sanshoku_doujun, is_sanshoku_doukou,
    is_shousangen, is_shousuushii, is_suuankou, is_suukantsu, is_tanyao, is_toitoi,
    is_tsuuiisou, pick, spec_count_yakuhai, spec_hand_fu, spec_is_chanta, spec_is_chinitsu,
    spec_is_chinroutou, spec_is_daisangen, spec_is_daisuushii, spec_is_honitsu,
    spec_is_honroutou, spec_is_iipeikou, spec_is_ittsu, spec_is_junchan, spec_is_pinfu,
    spec_is_ryanpeikou, spec_is_ryuuiisou, spec_is_sanankou, spec_is_sankantsu,
    spec_is_sanshoku_doujun, spec_is_sanshoku_doukou, spec_is_shousangen, spec_is_shousuushii,
    spec_is_suuankou, spec_is_suukantsu, spec_is_tanyao, spec_is_toitoi, spec_is_tsuuiisou,
    spec_pick,
};
use vstd::prelude::*;

verus! {

/// A yaku, or a kind of dora.
#[derive(Clone, Copy, Debug, PartialEq, Eq, Structural)]
pub enum Yaku {
    Menzentsumo,
    Riichi,
    DoubleRiichi,
    Ippatsu,
    Haitei,
    Houtei,
    Rinshan,
    Chankan,
    Pinfu,
    Tanyao,
    Iipeikou,
    Ryanpeikou,
    Yakuhai,
    SanshokuDoujun,
    SanshokuDoukou,
    Ittsu,
    Chanta,
    Junchan,
    Honroutou,
    Toitoi,
    Sanankou,
    Sankantsu,
    Shousangen,
    Honitsu,
    Chinitsu,
    Chiitoitsu,
    Kokushi,
    Suuankou,
    Daisangen,
    Shousuushii,
    Daisuushii,
    Tsuuiisou,
    Chinroutou,
    Ryuuiisou,
    Chuuren,
    Suukantsu,
    Tenhou,
    Chiihou,
    Dora,
    UraDora,
    AkaDora,
}

/// A yaku with its fan; a yakuman with the number of yakuman it counts.
#[derive(Clone, Copy, Debug, PartialEq, Eq, Structural)]
pub struct YakuItem {
    pub id: Yaku,
    pub fan: usize,
}

/// The yaku `id` with `fan` where `b` holds and the fan is not none;
/// else nothing.
pub open spec fn item_if(b: bool, id: Yaku, fan: int) -> Seq<YakuItem> {
    if b && 0 < fan <= usize::MAX {
        seq![YakuItem { id, fan: fan as usize }]
    } else {
        Seq::empty()
    }
}

/// The fan of the items together.
pub open spec fn items_fan(items: Seq<YakuItem>) -> int
    decreases items.len(),
{
    if items.len() == 0 {
        0
    } else {
        items_fan(items.drop_last()) + items.last().fan
    }
}

/// Adds the yaku `id` with `fan` where `b` holds and the fan is not none.
pub fn push_if(v: &mut Vec<YakuItem>, b: bool, id: Yaku, fan: usize)
    ensures
        final(v)@ == old(v)@ + item_if(b, id, fan as int),
        items_fan(final(v)@) == items_fan(old(v)@) + if b {
            fan as int
        } else {
            0
        },
{
    if b && fan > 0 {
        v.push(YakuItem { id, fan });
        assert(v@ =~= old(v)@ + item_if(b, id, fan as int));
        assert(v@.drop_last() =~= old(v)@);
    } else {
        assert(v@ =~= old(v)@ + item_if(b, id, fan as int));
    }
}

/// The yaku that come with the way of winning, whatever the tiles.
pub open spec fn flag_yaku(f: YakuFlags) -> Seq<YakuItem> {
    item_if(f.menzentsumo, Yaku::Menzentsumo, 1) + item_if(
        f.riichi && !f.dabururiichi,
        Yaku::Riichi,
        1,
    ) + item_if(f.dabururiichi, Yaku::DoubleRiichi, 2) + item_if(f.ippatsu, Yaku::Ippatsu, 1)
        + item_if(f.haiteiraoyue, Yaku::Haitei, 1) + item_if(f.houteiraoyui, Yaku::Houtei, 1)
        + item_if(f.rinshankaihou, Yaku::Rinshan, 1) + item_if(f.chankan, Yaku::Chankan, 1)
}

/// The yaku below yakuman of a hand in the regular form.
pub open spec fn regular_yaku(c: Parts, i: WinInfo, f: YakuFlags) -> Seq<YakuItem> {
    flag_yaku(f) + item_if(spec_is_pinfu(c, i), Yaku::Pinfu, 1) + item_if(
        spec_is_tanyao(c),
        Yaku::Tanyao,
        1,
    ) + item_if(spec_is_iipeikou(c, i), Yaku::Iipeikou, 1) + item_if(
        spec_is_ryanpeikou(c, i),
        Yaku::Ryanpeikou,
        3,
    ) + item_if(true, Yaku::Yakuhai, spec_count_yakuhai(c, i)) + item_if(
        spec_is_sanshoku_doujun(c),
        Yaku::SanshokuDoujun,
        spec_pick(i.is_menzen, 2, 1),
    ) + item_if(spec_is_sanshoku_doukou(c), Yaku::SanshokuDoukou, 2) + item_if(
        spec_is_ittsu(c),
        Yaku::Ittsu,
        spec_pick(i.is_menzen, 2, 1),
    ) + item_if(spec_is_chanta(c), Yaku::Chanta, spec_pick(i.is_menzen, 2, 1)) + item_if(
        spec_is_junchan(c),
        Yaku::Junchan,
        spec_pick(i.is_menzen, 3, 2),
    ) + item_if(spec_is_honroutou(c), Yaku::Honroutou, 2) + item_if(
        spec_is_toitoi(c),
        Yaku::Toitoi,
        2,
    ) + item_if(spec_is_sanankou(c), Yaku::Sanankou, 2) + item_if(
        spec_is_sankantsu(c),
        Yaku::Sankantsu,
        2,
    ) + item_if(spec_is_shousangen(c), Yaku::Shousangen, 2) + item_if(
        spec_is_honitsu(c),
        Yaku::Honitsu,
        spec_pick(i.is_menzen, 3, 2),
    ) + item_if(spec_is_chinitsu(c), Yaku::Chinitsu, spec_pick(i.is_menzen, 6, 5))
}

/// The yakuman that come with the way of winning.
pub open spec fn flag_yakuman(f: YakuFlags) -> Seq<YakuItem> {
    item_if(f.tenhou, Yaku::Tenhou, 1) + item_if(f.tiihou, Yaku::Chiihou, 1)
}

/// The yakuman of a hand in the regular form, each with the number of
/// yakuman it counts: four concealed triplets won on the pair count
/// twice, so do the four winds, and the nine gates where `gates` says so.
pub open spec fn regular_yakuman(c: Parts, i: WinInfo, f: YakuFlags, gates: usize) -> Seq<YakuItem> {
    flag_yakuman(f) + item_if(
        spec_is_suuankou(c),
        Yaku::Suuankou,
        spec_pick(c.wait == WaitKind::Tanki, 2, 1),
    ) + item_if(spec_is_daisangen(c), Yaku::Daisangen, 1) + item_if(
        spec_is_shousuushii(c),
        Yaku::Shousuushii,
        1,
    ) + item_if(spec_is_daisuushii(c), Yaku::Daisuushii, 2) + item_if(
        spec_is_tsuuiisou(c),
        Yaku::Tsuuiisou,
        1,
    ) + item_if(spec_is_chinroutou(c), Yaku::Chinroutou, 1) + item_if(
        spec_is_ryuuiisou(c),
        Yaku::Ryuuiisou,
        1,
    ) + item_if(true, Yaku::Chuuren, gates as int) + item_if(
        spec_is_suukantsu(c),
        Yaku::Suukantsu,
        1,
    )
}

/// The yaku that come with the way of winning.
pub fn list_flag_yaku(f: &YakuFlags) -> (v: Vec<YakuItem>)
    ensures
        v@ == flag_yaku(*f),
        0 <= items_fan(v@) <= 8,
{
    let mut v: Vec<YakuItem> = Vec::new();
    assert(items_fan(v@) == 0);
    push_if(&mut v, f.menzentsumo, Yaku::Menzentsumo, 1);
    push_if(&mut v, f.riichi && !f.dabururiichi, Yaku::Riichi, 1);
    push_if(&mut v, f.dabururiichi, Yaku::DoubleRiichi, 2);
    push_if(&mut v, f.ippatsu, Yaku::Ippatsu, 1);
    push_if(&mut v, f.haiteiraoyue, Yaku::Haitei, 1);
    push_if(&mut v, f.houteiraoyui, Yaku::Houtei, 1);
    push_if(&mut v, f.rinshankaihou, Yaku::Rinshan, 1);
    push_if(&mut v, f.chankan, Yaku::Chankan, 1);
    v
}

/// The yaku below yakuman of a hand in the regular form.
pub fn list_regular_yaku(c: Parts, i: WinInfo, f: &YakuFlags) -> (v: Vec<YakuItem>)
    ensures
        v@ == regular_yaku(c, i, *f),
        0 <= items_fan(v@) <= 60,
{
    let mut v = list_flag_yaku(f);
    push_if(&mut v, is_pinfu(c, i), Yaku::Pinfu, 1);
    push_if(&mut v, is_tanyao(c), Yaku::Tanyao, 1);
    push_if(&mut v, is_iipeikou(c, i), Yaku::Iipeikou, 1);
    push_if(&mut v, is_ryanpeikou(c, i), Yaku::Ryanpeikou, 3);
    push_if(&mut v, true, Yaku::Yakuhai, count_yakuhai(c, i));
    push_if(&mut v, is_sanshoku_doujun(c), Yaku::SanshokuDoujun, pick(i.is_menzen, 2, 1));
    push_if(&mut v, is_sanshoku_doukou(c), Yaku::SanshokuDoukou, 2);
    push_if(&mut v, is_ittsu(c), Yaku::Ittsu, pick(i.is_menzen, 2, 1));
    push_if(&mut v, is_chanta(c), Yaku::Chanta, pick(i.is_menzen, 2, 1));
    push_if(&mut v, is_junchan(c), Yaku::Junchan, pick(i.is_menzen, 3, 2));
    push_if(&mut v, is_honroutou(c), Yaku::Honroutou, 2);
    push_if(&mut v, is_toitoi(c), Yaku::Toitoi, 2);
    push_if(&mut v, is_sanankou(c), Yaku::Sanankou, 2);
    push_if(&mut v, is_sankantsu(c), Yaku::Sankantsu, 2);
    push_if(&mut v, is_shousangen(c), Yaku::Shousangen, 2);
    push_if(&mut v, is_honitsu(c), Yaku::Honitsu, pick(i.is_menzen, 3, 2));
    push_if(&mut v, is_chinitsu(c), Yaku::Chinitsu, pick(i.is_menzen, 6, 5));
    v
}

/// The yakuman that come with the way of winning.
pub fn list_flag_yakuman(f: &YakuFlags) -> (v: Vec<YakuItem>)
    ensures
        v@ == flag_yakuman(*f),
        0 <= items_fan(v@) <= 2,
{
    let mut v: Vec<YakuItem> = Vec::new();
    assert(items_fan(v@) == 0);
    push_if(&mut v, f.tenhou, Yaku::Tenhou, 1);
    push_if(&mut v, f.tiihou, Yaku::Chiihou, 1);
    v
}

/// The yakuman of a hand in the regular form.
pub fn list_regular_yakuman(c: Parts, i: WinInfo, f: &YakuFlags, gates: usize) -> (v: Vec<YakuItem>)
    requires
        gates <= 2,
    ensures
        v@ == regular_yakuman(c, i, *f, gates),
        0 <= items_fan(v@) <= 20,
{
    let mut v = list_flag_yakuman(f);
    let tanki = match c.wait {
        WaitKind::Tanki => true,
        _ => false,
    };
    push_if(&mut v, is_suuankou(c), Yaku::Suuankou, pick(tanki, 2, 1));
    push_if(&mut v, is_daisangen(c), Yaku::Daisangen, 1);
    push_if(&mut v, is_shousuushii(c), Yaku::Shousuushii, 1);
    push_if(&mut v, is_daisuushii(c), Yaku::Daisuushii, 2);
    push_if(&mut v, is_tsuuiisou(c), Yaku::Tsuuiisou, 1);
    push_if(&mut v, is_chinroutou(c), Yaku::Chinroutou, 1);
    push_if(&mut v, is_ryuuiisou(c), Yaku::Ryuuiisou, 1);
    push_if(&mut v, true, Yaku::Chuuren, gates);
    push_if(&mut v, is_suukantsu(c), Yaku::Suukantsu, 1);
    v
}

/// The score of a hand read in one way.
#[derive(Debug)]
pub struct Scored {
    /// The number of yakuman.
    pub yakuman: usize,
    /// The fan of the yaku; none where the hand is a yakuman.
    pub fan: usize,
    pub fu: usize,
    /// The yakuman where there are any, else the yaku.
    pub items: Vec<YakuItem>,
}

/// The content of a [`Scored`].
pub struct ScoredView {
    pub yakuman: int,
    pub fan: int,
    pub fu: int,
    pub items: Seq<YakuItem>,
}

impl View for Scored {
    type V = ScoredView;

    open spec fn view(&self) -> ScoredView {
        ScoredView {
            yakuman: self.yakuman as int,
            fan: self.fan as int,
            fu: self.fu as int,
            items: self.items@,
        }
    }
}

/// The score of a hand in the regular form read in one way: its yakuman
/// where it has any, else its yaku; and its fu.
pub open spec fn regular_score(c: Parts, i: WinInfo, f: YakuFlags, gates: usize) -> ScoredView {
    let big = regular_yakuman(c, i, f, gates);
    if items_fan(big) > 0 {
        ScoredView { yakuman: items_fan(big), fan: 0, fu: spec_hand_fu(c, i), items: big }
    } else {
        let small = regular_yaku(c, i, f);
        ScoredView { yakuman: 0, fan: items_fan(small), fu: spec_hand_fu(c, i), items: small }
    }
}

/// The score of a hand in the regular form read in one way.
pub fn score_regular(c: Parts, i: WinInfo, f: &YakuFlags, gates: usize) -> (r: Scored)
    requires
        gates <= 2,
    ensures
        r@ == regular_score(c, i, *f, gates),
        r.yakuman <= 20,
        r.fan <= 60,
        r.fu <= 170,
{
    let big = list_regular_yakuman(c, i, f, gates);
    let n = sum_fan(&big);
    let fu = hand_fu(c, i);
    if n > 0 {
        Scored { yakuman: n, fan: 0, fu, items: big }
    } else {
        let small = list_regular_yaku(c, i, f);
        let fan = sum_fan(&small);
        Scored { yakuman: 0, fan, fu, items: small }
    }
}

/// The fan of the items together.
pub fn sum_fan(items: &Vec<YakuItem>) -> (n: usize)
    requires
        0 <= items_fan(items@) <= usize::MAX,
    ensures
        n == items_fan(items@),
{
    let mut n: usize = 0;
    let mut k: usize = 0;
    proof {
        assert(items@.take(0) =~= Seq::<YakuItem>::empty());
    }
    while k < items.len()
        invariant
            k <= items.len(),
            n == items_fan(items@.take(k as int)),
            0 <= items_fan(items@) <= usize::MAX,
        decreases items.len() - k,
    {
        proof {
            assert(items@.take(k + 1).drop_last() =~= items@.take(k as int));
            lemma_fan_grows(items@, k + 1);
        }
        n = n + items[k].fan;
        k += 1;
    }
    assert(items@.take(items.len() as int) == items@);
    n
}

/// The fan of the first items is at most the fan of all.
pub proof fn lemma_fan_grows(items: Seq<YakuItem>, k: int)
    requires
        0 <= k <= items.len(),
    ensures
        0 <= items_fan(items.take(k)) <= items_fan(items),
    decreases items.len(),
{
    if k == items.len() {
        assert(items.take(k) =~= items);
        if items.len() > 0 {
            lemma_fan_grows(items.drop_last(), k - 1);
            assert(items.drop_last().take(k - 1) =~= items.drop_last());
        }
    } else {
        lemma_fan_grows(items.drop_last(), k);
        assert(items.drop_last().take(k) =~= items.take(k));
    }
}

} // verus!
