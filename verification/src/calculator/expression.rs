//! A calculator expression: `HAND[/STAGE][/YAKUFLAGS][/VERIFY]`.
//!
//! `HAND` is a tile string, a `+` at its end marking a win by ron, and any
//! number of meld strings, separated by commas. `STAGE` is the prevalent
//! wind, the number of the round and the seat wind, as in `E1S`, then
//! optionally the dora and the ura-dora indicators. `YAKUFLAGS` names the
//! yaku that the tiles do not show. `VERIFY` is fu, fan and score to hold
//! the result against.

use crate::calculator::parse::{
    error_of, error_text, invalid_wind_message, letter_wind, meld_from_chars, meld_parse,
    tiles_from_chars, tiles_parse, wind_from_char,
};
use crate::hand::count::{check_indicators, indicators_ok, melds_small};
use crate::hand::evaluate::{evaluate_hand, evaluated, hand_ok, melds_usable, Evaluated};
use crate::hand::parts::meld_usable;
use crate::hand::win::{WinContext, YakuFlags};
use crate::model::tile::{table_bounded, SLOT_MAX};
use crate::model::define::{Index, Seat, SEAT, TNUM, TYPE, TZ, UK};
use crate::model::meld::{melds_view, Meld, MeldType, MeldView};
use crate::model::tile::{
    add_tile, counts_added, counts_within, lemma_counts_step, slot_count, table_view, Tile,
    TileTable,
};
use crate::util::text::{
    char_digit, chars_of, decimal, digit_of, i32_parsed, parse_i32, parse_usize, push_char,
    remove_char, split, split_spec, str_eq, string_of, text_result, usize_parsed,
    usize_to_string, without,
};
use vstd::prelude::*;
use vstd::string::StringExecFns;

verus! {

/// What an expression says of a hand and its context.
#[derive(Debug)]
pub struct Calculator {
    pub detail: bool,
    pub seat: Seat,
    pub kyoku: usize,
    pub hand: TileTable,
    pub melds: Vec<Meld>,
    pub doras: Vec<Tile>,
    pub ura_doras: Vec<Tile>,
    pub win_tile: Tile,
    pub is_drawn: bool,
    pub is_dealer: bool,
    pub prevalent_wind: Index,
    pub seat_wind: Index,
    pub yaku_flags: YakuFlags,
    pub fu: usize,
    pub fan: usize,
    pub score: i32,
}

/// The content of a [`Calculator`].
pub struct CalcView {
    pub detail: bool,
    pub seat: Seat,
    pub kyoku: usize,
    /// The counts of the hand by suit and rank slot.
    pub hand: Seq<Seq<int>>,
    pub melds: Seq<MeldView>,
    pub doras: Seq<Tile>,
    pub ura_doras: Seq<Tile>,
    pub win_tile: Tile,
    pub is_drawn: bool,
    pub is_dealer: bool,
    pub prevalent_wind: Index,
    pub seat_wind: Index,
    pub yaku_flags: YakuFlags,
    pub fu: usize,
    pub fan: usize,
    pub score: i32,
}

impl View for Calculator {
    type V = CalcView;

    open spec fn view(&self) -> CalcView {
        CalcView {
            detail: self.detail,
            seat: self.seat,
            kyoku: self.kyoku,
            hand: table_view(self.hand),
            melds: melds_view(self.melds@),
            doras: self.doras@,
            ura_doras: self.ura_doras@,
            win_tile: self.win_tile,
            is_drawn: self.is_drawn,
            is_dealer: self.is_dealer,
            prevalent_wind: self.prevalent_wind,
            seat_wind: self.seat_wind,
            yaku_flags: self.yaku_flags,
            fu: self.fu,
            fan: self.fan,
            score: self.score,
        }
    }
}

/// The no-flag value.
pub open spec fn no_flags() -> YakuFlags {
    YakuFlags {
        menzentsumo: false,
        riichi: false,
        dabururiichi: false,
        ippatsu: false,
        haiteiraoyue: false,
        houteiraoyui: false,
        rinshankaihou: false,
        chankan: false,
        tenhou: false,
        tiihou: false,
    }
}

impl CalcView {
    /// What is assumed before an expression is read: the dealer in the
    /// first east round, a win by tsumo, an empty hand.
    pub open spec fn initial(detail: bool) -> CalcView {
        CalcView {
            detail,
            seat: 0,
            kyoku: 0,
            hand: Seq::new(TYPE as nat, |t: int| Seq::new(TNUM as nat, |n: int| 0int)),
            melds: Seq::empty(),
            doras: Seq::empty(),
            ura_doras: Seq::empty(),
            win_tile: Tile(TZ, UK),
            is_drawn: true,
            is_dealer: true,
            prevalent_wind: 1,
            seat_wind: 1,
            yaku_flags: no_flags(),
            fu: 0,
            fan: 0,
            score: 0,
        }
    }
}

/// The three characters of a stage: prevalent wind, round number, seat wind.
pub open spec fn stage_head(p: Seq<char>) -> Result<(Index, int, Index), Seq<char>> {
    if p.len() != 3 {
        Err("stage info len is not 3: "@ + p)
    } else if letter_wind(p[0]) is None {
        Err(invalid_wind_message(p[0]))
    } else if char_digit(p[1]) is None {
        Err("kyoku is not 1, 2, 3 or 4: "@ + seq![p[1]])
    } else if letter_wind(p[2]) is None {
        Err(invalid_wind_message(p[2]))
    } else if !(1 <= char_digit(p[1])->0 <= 4) {
        Err("kyoku is not 1, 2, 3 or 4: "@ + decimal(char_digit(p[1])->0 as nat))
    } else {
        Ok((letter_wind(p[0])->0, char_digit(p[1])->0, letter_wind(p[2])->0))
    }
}

/// What the stage part of an expression makes of what was read before.
/// The seat is that of the seat wind in the round named; the player is
/// the dealer where the seat wind is east.
pub open spec fn stage_info_parsed(pre: CalcView, s: Seq<char>) -> Result<CalcView, Seq<char>> {
    let pieces = split_spec(s, ',');
    match stage_head(pieces[0]) {
        Err(e) => Err(e),
        Ok((pw, k, sw)) => {
            let v1 = CalcView {
                prevalent_wind: pw,
                seat_wind: sw,
                kyoku: (k - 1) as usize,
                is_dealer: sw == 1,
                seat: ((sw + k - 2) % 4) as usize,
                ..pre
            };
            if pieces.len() <= 1 {
                Ok(v1)
            } else {
                match tiles_parse(pieces[1]) {
                    Err(e) => Err(e),
                    Ok(doras) => {
                        let v2 = CalcView { doras, ..v1 };
                        if pieces.len() <= 2 {
                            Ok(v2)
                        } else {
                            match tiles_parse(pieces[2]) {
                                Err(e) => Err(e),
                                Ok(ura) => Ok(CalcView { ura_doras: ura, ..v2 }),
                            }
                        }
                    },
                }
            }
        },
    }
}

fn with_text(prefix: &str, text: &Vec<char>) -> (r: String)
    ensures
        r@ == prefix@ + text@,
{
    let mut r = String::from_str(prefix);
    let t = string_of(text);
    r.append(t.as_str());
    r
}

fn read_stage_head(p: &Vec<char>) -> (r: Result<(Index, usize, Index), String>)
    ensures
        error_text(r) == error_of(stage_head(p@)),
        r matches Ok((pw, k, sw)) ==> stage_head(p@) == Ok::<(Index, int, Index), Seq<char>>(
            (pw, k as int, sw),
        ) && 1 <= k <= 4 && 1 <= sw <= 4,
{
    if p.len() != 3 {
        return Err(with_text("stage info len is not 3: ", p));
    }
    let pw = match wind_from_char(p[0]) {
        Ok(w) => w,
        Err(e) => {
            return Err(e);
        },
    };
    let k = match digit_of(p[1]) {
        Some(k) => k,
        None => {
            let mut e = String::from_str("kyoku is not 1, 2, 3 or 4: ");
            push_char(&mut e, p[1]);
            return Err(e);
        },
    };
    let sw = match wind_from_char(p[2]) {
        Ok(w) => w,
        Err(e) => {
            return Err(e);
        },
    };
    if !(1 <= k && k <= 4) {
        let mut e = String::from_str("kyoku is not 1, 2, 3 or 4: ");
        let n = usize_to_string(k);
        e.append(n.as_str());
        return Err(e);
    }
    Ok((pw, k, sw))
}

impl Calculator {
    /// A calculator that has read nothing.
    pub fn new(detail: bool) -> (c: Calculator)
        ensures
            c@ == CalcView::initial(detail),
    {
        let c = Calculator {
            detail,
            seat: 0,
            kyoku: 0,
            hand: [[0;TNUM];TYPE],
            melds: Vec::new(),
            doras: Vec::new(),
            ura_doras: Vec::new(),
            win_tile: Tile(TZ, UK),
            is_drawn: true,
            is_dealer: true,
            prevalent_wind: 1,
            seat_wind: 1,
            yaku_flags: YakuFlags::none(),
            fu: 0,
            fan: 0,
            score: 0,
        };
        proof {
            assert forall|t: int| 0 <= t < TYPE implies table_view(c.hand)[t]
                =~= CalcView::initial(detail).hand[t] by {}
            assert(table_view(c.hand) =~= CalcView::initial(detail).hand);
            assert(melds_view(c.melds@) =~= Seq::<MeldView>::empty());
        }
        c
    }

    /// Reads the stage part of an expression. Where it cannot be read,
    /// nothing changes.
    pub fn parse_stage_info(&mut self, input: &Vec<char>) -> (r: Result<(), String>)
        ensures
            error_text(r) == error_of(stage_info_parsed(old(self)@, input@)),
            r is Ok ==> stage_info_parsed(old(self)@, input@) == Ok::<CalcView, Seq<char>>(
                final(self)@,
            ),
            r is Err ==> final(self)@ == old(self)@,
    {
        let exps = split(input, ',');
        let (pw, k, sw) = match read_stage_head(&exps[0]) {
            Ok(h) => h,
            Err(e) => {
                return Err(e);
            },
        };
        let doras = if exps.len() > 1 {
            match tiles_from_chars(&exps[1]) {
                Ok(t) => Some(t),
                Err(e) => {
                    return Err(e);
                },
            }
        } else {
            None
        };
        let ura_doras = if exps.len() > 2 {
            match tiles_from_chars(&exps[2]) {
                Ok(t) => Some(t),
                Err(e) => {
                    return Err(e);
                },
            }
        } else {
            None
        };
        self.prevalent_wind = pw;
        self.seat_wind = sw;
        self.kyoku = k - 1;
        self.is_dealer = sw == 1;
        self.seat = (sw + k - 2) % SEAT;
        match doras {
            Some(t) => {
                self.doras = t;
            },
            None => {},
        }
        match ura_doras {
            Some(t) => {
                self.ura_doras = t;
            },
            None => {},
        }
        Ok(())
    }
}

/// The pieces of the hand part of an expression.
pub struct HandPieces {
    /// The tile string of the hand, without its `+`.
    pub hand: Seq<char>,
    /// Whether the hand was marked as won by ron.
    pub ron: bool,
    /// The meld strings.
    pub melds: Seq<Seq<char>>,
}

/// Sorts the pieces of the hand part: the first piece is the hand, and so
/// is every piece after a hand without tiles or letters; the others are
/// melds. A hand that ends in `+` is won by ron.
pub open spec fn hand_pieces(pieces: Seq<Seq<char>>) -> Result<HandPieces, Seq<char>>
    decreases pieces.len(),
{
    if pieces.len() == 0 {
        Ok(HandPieces { hand: Seq::empty(), ron: false, melds: Seq::empty() })
    } else {
        match hand_pieces(pieces.drop_last()) {
            Err(e) => Err(e),
            Ok(st) => {
                let p = pieces.last();
                if st.hand.len() == 0 {
                    if p.len() == 0 {
                        Err("hand is empty"@)
                    } else {
                        Ok(
                            HandPieces {
                                hand: without(p, '+'),
                                ron: st.ron || p.last() == '+',
                                ..st
                            },
                        )
                    }
                } else {
                    Ok(HandPieces { melds: st.melds.push(p), ..st })
                }
            },
        }
    }
}

/// An error among the first pieces is the error of all.
pub proof fn lemma_hand_pieces_error_stays(pieces: Seq<Seq<char>>, n: int)
    requires
        0 <= n <= pieces.len(),
        hand_pieces(pieces.take(n)) is Err,
    ensures
        hand_pieces(pieces) == hand_pieces(pieces.take(n)),
    decreases pieces.len(),
{
    if n < pieces.len() {
        assert(pieces.drop_last().take(n) =~= pieces.take(n));
        lemma_hand_pieces_error_stays(pieces.drop_last(), n);
    } else {
        assert(pieces.take(n) =~= pieces);
    }
}

/// The melds of the meld strings, all owned by `seat`; the error of the
/// first string that is wrong.
pub open spec fn melds_parsed(texts: Seq<Seq<char>>, seat: Seat) -> Result<
    Seq<MeldView>,
    Seq<char>,
>
    decreases texts.len(),
{
    if texts.len() == 0 {
        Ok(Seq::empty())
    } else {
        match melds_parsed(texts.drop_last(), seat) {
            Err(e) => Err(e),
            Ok(before) => match meld_parse(texts.last(), seat) {
                Err(e) => Err(e),
                Ok((tp, tiles, froms)) => Ok(
                    before.push(MeldView { step: 0, seat, type_: tp, tiles, froms }),
                ),
            },
        }
    }
}

/// An error among the first meld strings is the error of all.
pub proof fn lemma_melds_parsed_error_stays(texts: Seq<Seq<char>>, seat: Seat, n: int)
    requires
        0 <= n <= texts.len(),
        melds_parsed(texts.take(n), seat) is Err,
    ensures
        melds_parsed(texts, seat) == melds_parsed(texts.take(n), seat),
    decreases texts.len(),
{
    if n < texts.len() {
        assert(texts.drop_last().take(n) =~= texts.take(n));
        lemma_melds_parsed_error_stays(texts.drop_last(), seat, n);
    } else {
        assert(texts.take(n) =~= texts);
    }
}

/// Whether every meld is a concealed quad.
pub open spec fn all_ankan(melds: Seq<MeldView>) -> bool {
    forall|i: int| 0 <= i < melds.len() ==> (#[trigger] melds[i]).type_ == MeldType::Ankan
}

/// What the hand part of an expression makes of what was read before: the
/// tiles are added to the hand, the last of them is the winning tile, the
/// melds are added to the melds, and a win by tsumo is a concealed one
/// where no meld but a concealed quad lies open.
pub open spec fn hand_meld_parsed(pre: CalcView, s: Seq<char>) -> Result<CalcView, Seq<char>> {
    match hand_pieces(split_spec(s, ',')) {
        Err(e) => Err(e),
        Ok(hp) => match tiles_parse(hp.hand) {
            Err(e) => Err(e),
            Ok(tiles) => match melds_parsed(hp.melds, pre.seat) {
                Err(e) => Err(e),
                Ok(ms) => {
                    let melds = pre.melds + ms;
                    let is_drawn = pre.is_drawn && !hp.ron;
                    Ok(
                        CalcView {
                            hand: Seq::new(
                                TYPE as nat,
                                |t: int|
                                    Seq::new(
                                        TNUM as nat,
                                        |n: int| pre.hand[t][n] + slot_count(tiles, t, n),
                                    ),
                            ),
                            win_tile: if tiles.len() > 0 {
                                tiles.last()
                            } else {
                                pre.win_tile
                            },
                            melds,
                            is_drawn,
                            yaku_flags: if is_drawn {
                                YakuFlags { menzentsumo: all_ankan(melds), ..pre.yaku_flags }
                            } else {
                                pre.yaku_flags
                            },
                            ..pre
                        },
                    )
                },
            },
        },
    }
}

/// Whether every slot of the hand has room for `n` more tiles.
pub open spec fn hand_has_room(h: TileTable, n: int) -> bool {
    forall|t: int, k: int| 0 <= t < TYPE && 0 <= k < TNUM ==> (#[trigger] h[t][k]) + n <= usize::MAX
}

fn only_ankan(melds: &Vec<Meld>) -> (r: bool)
    ensures
        r == all_ankan(melds_view(melds@)),
{
    let mut i: usize = 0;
    while i < melds.len()
        invariant
            i <= melds.len(),
            forall|k: int| 0 <= k < i ==> (#[trigger] melds_view(melds@)[k]).type_ == MeldType::Ankan,
        decreases melds.len() - i,
    {
        if melds[i].type_ != MeldType::Ankan {
            assert(melds_view(melds@)[i as int].type_ != MeldType::Ankan);
            return false;
        }
        i += 1;
    }
    true
}

impl Calculator {
    fn add_tiles(&mut self, tiles: &Vec<Tile>)
        requires
            hand_has_room(old(self).hand, tiles.len() as int),
            forall|i: int| 0 <= i < tiles.len() ==> (#[trigger] tiles[i]).in_table(),
        ensures
            final(self)@ == (CalcView {
                hand: Seq::new(
                    TYPE as nat,
                    |t: int|
                        Seq::new(
                            TNUM as nat,
                            |n: int| old(self)@.hand[t][n] + slot_count(tiles@, t, n),
                        ),
                ),
                win_tile: if tiles.len() > 0 {
                    tiles@.last()
                } else {
                    old(self).win_tile
                },
                ..old(self)@
            }),
    {
        let ghost start = self.hand;
        let mut hand = self.hand;
        let mut i: usize = 0;
        proof {
            assert(tiles@.take(0) =~= Seq::<Tile>::empty());
        }
        while i < tiles.len()
            invariant
                i <= tiles.len(),
                hand_has_room(start, tiles.len() as int),
                forall|k: int| 0 <= k < tiles.len() ==> (#[trigger] tiles[k]).in_table(),
                counts_added(start, tiles@.take(i as int), hand),
                counts_within(tiles@.take(i as int), i as int),
            decreases tiles.len() - i,
        {
            let t = tiles[i];
            let ghost before = hand;
            proof {
                assert(t.in_table());
                assert(start[t.0 as int][t.1 as int] + tiles.len() <= usize::MAX);
                assert(start[t.0 as int][5] + tiles.len() <= usize::MAX);
                assert(slot_count(tiles@.take(i as int), t.0 as int, t.1 as int) <= i);
                assert(slot_count(tiles@.take(i as int), t.0 as int, 5) <= i);
            }
            add_tile(&mut hand, t);
            proof {
                lemma_counts_step(start, tiles@, i as int, before, hand);
            }
            i += 1;
        }
        self.hand = hand;
        if tiles.len() > 0 {
            self.win_tile = tiles[tiles.len() - 1];
        }
        proof {
            assert(tiles@.take(tiles.len() as int) == tiles@);
            let want = Seq::new(
                TYPE as nat,
                |t: int|
                    Seq::new(TNUM as nat, |n: int| old(self)@.hand[t][n] + slot_count(tiles@, t, n)),
            );
            assert forall|t: int| 0 <= t < TYPE implies table_view(self.hand)[t] =~= want[t] by {
                assert forall|n: int| 0 <= n < TNUM implies table_view(self.hand)[t][n]
                    == want[t][n] by {
                    assert(hand[t][n] == start[t][n] + slot_count(tiles@, t, n));
                }
            }
            assert(table_view(self.hand) =~= want);
        }
    }

    /// Reads the hand part of an expression. Where it cannot be read,
    /// nothing changes.
    pub fn parse_hand_meld(&mut self, input: &Vec<char>) -> (r: Result<(), String>)
        requires
            hand_has_room(old(self).hand, input.len() as int),
        ensures
            error_text(r) == error_of(hand_meld_parsed(old(self)@, input@)),
            r is Ok ==> hand_meld_parsed(old(self)@, input@) == Ok::<CalcView, Seq<char>>(
                final(self)@,
            ),
            r is Err ==> final(self)@ == old(self)@,
    {
        let pieces = split(input, ',');
        assert(texts_of(pieces@) =~= split_spec(input@, ','));
        let (exp_hand, ron, exp_melds) = match sort_pieces(&pieces, input.len()) {
            Ok(x) => x,
            Err(e) => {
                return Err(e);
            },
        };
        let tiles = match tiles_from_chars(&exp_hand) {
            Ok(t) => t,
            Err(e) => {
                return Err(e);
            },
        };
        let mut melds = match read_melds(&exp_melds, self.seat) {
            Ok(m) => m,
            Err(e) => {
                return Err(e);
            },
        };
        self.add_tiles(&tiles);
        let ghost kept = melds_view(self.melds@);
        let ghost added = melds_view(melds@);
        self.melds.append(&mut melds);
        assert(melds_view(self.melds@) =~= kept + added);
        if ron {
            self.is_drawn = false;
        }
        if self.is_drawn {
            self.yaku_flags.menzentsumo = only_ankan(&self.melds);
        }
        Ok(())
    }
}

/// The texts of the pieces.
pub open spec fn texts_of(pieces: Seq<Vec<char>>) -> Seq<Seq<char>> {
    Seq::new(pieces.len(), |i: int| pieces[i]@)
}

fn sort_pieces(pieces: &Vec<Vec<char>>, most: usize) -> (r: Result<
    (Vec<char>, bool, Vec<Vec<char>>),
    String,
>)
    requires
        forall|k: int| 0 <= k < pieces.len() ==> (#[trigger] pieces@[k]).len() <= most,
    ensures
        error_text(r) == error_of(hand_pieces(texts_of(pieces@))),
        r matches Ok((hand, ron, melds)) ==> hand_pieces(texts_of(pieces@)) == Ok::<
            HandPieces,
            Seq<char>,
        >(HandPieces { hand: hand@, ron, melds: texts_of(melds@) }) && hand.len() <= most,
{
    let ghost ps = texts_of(pieces@);
    let mut exp_hand: Vec<char> = Vec::new();
    let mut ron = false;
    let mut exp_melds: Vec<Vec<char>> = Vec::new();
    let mut i: usize = 0;
    proof {
        assert(ps.take(0) =~= Seq::<Seq<char>>::empty());
        assert(texts_of(exp_melds@) =~= Seq::<Seq<char>>::empty());
    }
    while i < pieces.len()
        invariant
            i <= pieces.len(),
            ps == texts_of(pieces@),
            forall|k: int| 0 <= k < pieces.len() ==> (#[trigger] pieces@[k]).len() <= most,
            exp_hand.len() <= most,
            hand_pieces(ps.take(i as int)) == Ok::<HandPieces, Seq<char>>(
                HandPieces { hand: exp_hand@, ron, melds: texts_of(exp_melds@) },
            ),
        decreases pieces.len() - i,
    {
        let p = &pieces[i];
        proof {
            assert(ps.take(i + 1).drop_last() =~= ps.take(i as int));
            assert(ps.take(i + 1).last() == p@);
        }
        if exp_hand.len() == 0 {
            if p.len() == 0 {
                proof {
                    lemma_hand_pieces_error_stays(ps, i + 1);
                }
                return Err(String::from_str("hand is empty"));
            }
            if p[p.len() - 1] == '+' {
                ron = true;
            }
            exp_hand = remove_char(p, '+');
        } else {
            let ghost before = texts_of(exp_melds@);
            exp_melds.push(copy_chars(p));
            assert(texts_of(exp_melds@) =~= before.push(p@));
        }
        i += 1;
    }
    assert(ps.take(pieces.len() as int) == ps);
    Ok((exp_hand, ron, exp_melds))
}

/// A copy of the characters.
fn copy_chars(p: &Vec<char>) -> (r: Vec<char>)
    ensures
        r@ == p@,
{
    let mut r: Vec<char> = Vec::new();
    let mut i: usize = 0;
    while i < p.len()
        invariant
            i <= p.len(),
            r@ == p@.take(i as int),
        decreases p.len() - i,
    {
        r.push(p[i]);
        assert(p@.take(i + 1) == p@.take(i as int).push(p@[i as int]));
        i += 1;
    }
    assert(p@.take(p.len() as int) == p@);
    r
}

fn read_melds(texts: &Vec<Vec<char>>, seat: Seat) -> (r: Result<Vec<Meld>, String>)
    ensures
        error_text(r) == error_of(melds_parsed(texts_of(texts@), seat)),
        r matches Ok(melds) ==> melds_parsed(texts_of(texts@), seat) == Ok::<
            Seq<MeldView>,
            Seq<char>,
        >(melds_view(melds@)),
{
    let ghost ts = texts_of(texts@);
    let mut melds: Vec<Meld> = Vec::new();
    let mut j: usize = 0;
    proof {
        assert(ts.take(0) =~= Seq::<Seq<char>>::empty());
        assert(melds_view(melds@) =~= Seq::<MeldView>::empty());
    }
    while j < texts.len()
        invariant
            j <= texts.len(),
            ts == texts_of(texts@),
            melds_parsed(ts.take(j as int), seat) == Ok::<Seq<MeldView>, Seq<char>>(
                melds_view(melds@),
            ),
        decreases texts.len() - j,
    {
        let text = &texts[j];
        proof {
            assert(ts.take(j + 1).drop_last() =~= ts.take(j as int));
            assert(ts.take(j + 1).last() == text@);
        }
        match meld_from_chars(text, seat) {
            Ok(m) => {
                proof {
                    assert(melds_view(melds@.push(m)) =~= melds_view(melds@).push(m@));
                }
                melds.push(m);
            },
            Err(e) => {
                proof {
                    lemma_melds_parsed_error_stays(ts, seat, j + 1);
                }
                return Err(e);
            },
        }
        j += 1;
    }
    assert(ts.take(texts.len() as int) == ts);
    Ok(melds)
}

/// The flags with the yaku of the given name set. The empty name sets
/// none, and any other name is none of a yaku that can be flagged.
pub open spec fn flag_named(f: YakuFlags, name: Seq<char>) -> Option<YakuFlags> {
    if name == "立直"@ {
        Some(YakuFlags { riichi: true, ..f })
    } else if name == "両立直"@ {
        Some(YakuFlags { dabururiichi: true, ..f })
    } else if name == "一発"@ {
        Some(YakuFlags { ippatsu: true, ..f })
    } else if name == "海底摸月"@ {
        Some(YakuFlags { haiteiraoyue: true, ..f })
    } else if name == "河底撈魚"@ {
        Some(YakuFlags { houteiraoyui: true, ..f })
    } else if name == "嶺上開花"@ {
        Some(YakuFlags { rinshankaihou: true, ..f })
    } else if name == "槍槓"@ {
        Some(YakuFlags { chankan: true, ..f })
    } else if name == "天和"@ {
        Some(YakuFlags { tenhou: true, ..f })
    } else if name == "地和"@ {
        Some(YakuFlags { tiihou: true, ..f })
    } else if name == ""@ {
        Some(f)
    } else {
        None
    }
}

/// The flags with the yaku of the given names set; the error names the
/// first that is none.
pub open spec fn flags_named(f: YakuFlags, names: Seq<Seq<char>>) -> Result<YakuFlags, Seq<char>>
    decreases names.len(),
{
    if names.len() == 0 {
        Ok(f)
    } else {
        match flags_named(f, names.drop_last()) {
            Err(e) => Err(e),
            Ok(before) => match flag_named(before, names.last()) {
                Some(g) => Ok(g),
                None => Err("invalid conditional yaku: "@ + names.last()),
            },
        }
    }
}

/// An error among the first names is the error of all.
pub proof fn lemma_flags_named_error_stays(f: YakuFlags, names: Seq<Seq<char>>, n: int)
    requires
        0 <= n <= names.len(),
        flags_named(f, names.take(n)) is Err,
    ensures
        flags_named(f, names) == flags_named(f, names.take(n)),
    decreases names.len(),
{
    if n < names.len() {
        assert(names.drop_last().take(n) =~= names.take(n));
        lemma_flags_named_error_stays(f, names.drop_last(), n);
    } else {
        assert(names.take(n) =~= names);
    }
}

/// What the flags part of an expression makes of what was read before.
pub open spec fn yaku_flags_parsed(pre: CalcView, s: Seq<char>) -> Result<CalcView, Seq<char>> {
    match flags_named(pre.yaku_flags, split_spec(s, ',')) {
        Ok(f) => Ok(CalcView { yaku_flags: f, ..pre }),
        Err(e) => Err(e),
    }
}

/// The three numbers to verify, read one after the other: the numbers,
/// or the error of the first that is none.
pub open spec fn numbers_read(
    fu: Result<usize, Seq<char>>,
    fan: Result<usize, Seq<char>>,
    score: Result<i32, Seq<char>>,
) -> Result<(usize, usize, i32), Seq<char>> {
    match fu {
        Err(e) => Err(e),
        Ok(fu) => match fan {
            Err(e) => Err(e),
            Ok(fan) => match score {
                Err(e) => Err(e),
                Ok(score) => Ok((fu, fan, score)),
            },
        },
    }
}

/// The three numbers to verify, or the error of the first that is none.
pub fn read_numbers(
    fu: Result<usize, String>,
    fan: Result<usize, String>,
    score: Result<i32, String>,
) -> (r: Result<(usize, usize, i32), String>)
    ensures
        text_result(r) == numbers_read(text_result(fu), text_result(fan), text_result(score)),
{
    let fu = match fu {
        Ok(n) => n,
        Err(e) => {
            return Err(e);
        },
    };
    let fan = match fan {
        Ok(n) => n,
        Err(e) => {
            return Err(e);
        },
    };
    match score {
        Ok(n) => Ok((fu, fan, n)),
        Err(e) => Err(e),
    }
}

/// What the verify part of an expression makes of what was read before:
/// fu, fan and score, three numbers, each read as the standard library
/// reads a number of its type.
pub open spec fn score_verify_parsed(pre: CalcView, s: Seq<char>) -> Result<CalcView, Seq<char>> {
    let pieces = split_spec(s, ',');
    if pieces.len() != 3 {
        Err("invalid score verify info: "@ + s)
    } else {
        match numbers_read(
            usize_parsed(pieces[0]),
            usize_parsed(pieces[1]),
            i32_parsed(pieces[2]),
        ) {
            Err(e) => Err(e),
            Ok((fu, fan, score)) => Ok(CalcView { fu, fan, score, ..pre }),
        }
    }
}

/// What an expression makes of what was read before. Blanks do not
/// count, and what follows a `#` is a comment. The parts stand between
/// `/`; the stage is read first, then hand, flags and verify.
pub open spec fn expression_parsed(pre: CalcView, input: Seq<char>) -> Result<CalcView, Seq<char>> {
    let exps = split_spec(split_spec(without(input, ' '), '#')[0], '/');
    let v1 = if exps.len() > 1 {
        stage_info_parsed(pre, exps[1])
    } else {
        Ok(pre)
    };
    match v1 {
        Err(e) => Err(e),
        Ok(v1) => match hand_meld_parsed(v1, exps[0]) {
            Err(e) => Err(e),
            Ok(v2) => {
                let v3 = if exps.len() > 2 {
                    yaku_flags_parsed(v2, exps[2])
                } else {
                    Ok(v2)
                };
                match v3 {
                    Err(e) => Err(e),
                    Ok(v3) => if exps.len() > 3 {
                        score_verify_parsed(v3, exps[3])
                    } else {
                        Ok(v3)
                    },
                }
            },
        }
    }
}

/// What is read of an expression that cannot be read to its end: the
/// parts before the one that fails.
pub open spec fn expression_kept(pre: CalcView, input: Seq<char>) -> CalcView {
    let exps = split_spec(split_spec(without(input, ' '), '#')[0], '/');
    let v1 = if exps.len() > 1 {
        stage_info_parsed(pre, exps[1])
    } else {
        Ok(pre)
    };
    match v1 {
        Err(_) => pre,
        Ok(v1) => match hand_meld_parsed(v1, exps[0]) {
            Err(_) => v1,
            Ok(v2) => {
                let v3 = if exps.len() > 2 {
                    yaku_flags_parsed(v2, exps[2])
                } else {
                    Ok(v2)
                };
                match v3 {
                    Err(_) => v2,
                    Ok(v3) => v3,
                }
            },
        }
    }
}

fn set_flag(f: YakuFlags, name: &Vec<char>) -> (r: Option<YakuFlags>)
    ensures
        r == flag_named(f, name@),
{
    let text = string_of(name);
    let n = text.as_str();
    let mut g = f;
    if str_eq(n, "立直") {
        g.riichi = true;
    } else if str_eq(n, "両立直") {
        g.dabururiichi = true;
    } else if str_eq(n, "一発") {
        g.ippatsu = true;
    } else if str_eq(n, "海底摸月") {
        g.haiteiraoyue = true;
    } else if str_eq(n, "河底撈魚") {
        g.houteiraoyui = true;
    } else if str_eq(n, "嶺上開花") {
        g.rinshankaihou = true;
    } else if str_eq(n, "槍槓") {
        g.chankan = true;
    } else if str_eq(n, "天和") {
        g.tenhou = true;
    } else if str_eq(n, "地和") {
        g.tiihou = true;
    } else if str_eq(n, "") {
    } else {
        return None;
    }
    Some(g)
}

impl Calculator {
    /// Reads the flags part of an expression. Where it cannot be read,
    /// nothing changes.
    pub fn parse_yaku_flags(&mut self, input: &Vec<char>) -> (r: Result<(), String>)
        ensures
            error_text(r) == error_of(yaku_flags_parsed(old(self)@, input@)),
            r is Ok ==> yaku_flags_parsed(old(self)@, input@) == Ok::<CalcView, Seq<char>>(
                final(self)@,
            ),
            r is Err ==> final(self)@ == old(self)@,
    {
        let names = split(input, ',');
        let ghost ns = split_spec(input@, ',');
        assert(texts_of(names@) =~= ns);
        let start = self.yaku_flags;
        let mut flags = self.yaku_flags;
        let mut i: usize = 0;
        proof {
            assert(ns.take(0) =~= Seq::<Seq<char>>::empty());
        }
        while i < names.len()
            invariant
                i <= names.len(),
                ns == texts_of(names@),
                ns == split_spec(input@, ','),
                start == old(self)@.yaku_flags,
                flags_named(start, ns.take(i as int)) == Ok::<YakuFlags, Seq<char>>(flags),
            decreases names.len() - i,
        {
            proof {
                assert(ns.take(i + 1).drop_last() =~= ns.take(i as int));
                assert(ns.take(i + 1).last() == names@[i as int]@);
            }
            match set_flag(flags, &names[i]) {
                Some(g) => {
                    flags = g;
                },
                None => {
                    proof {
                        lemma_flags_named_error_stays(start, ns, i + 1);
                    }
                    return Err(with_text("invalid conditional yaku: ", &names[i]));
                },
            }
            i += 1;
        }
        assert(ns.take(names.len() as int) == ns);
        self.yaku_flags = flags;
        Ok(())
    }

    /// Reads the verify part of an expression. Where it cannot be read,
    /// nothing changes.
    pub fn parse_score_verify(&mut self, input: &Vec<char>) -> (r: Result<(), String>)
        ensures
            error_text(r) == error_of(score_verify_parsed(old(self)@, input@)),
            r is Ok ==> score_verify_parsed(old(self)@, input@) == Ok::<CalcView, Seq<char>>(
                final(self)@,
            ),
            r is Err ==> final(self)@ == old(self)@,
    {
        let exps = split(input, ',');
        if exps.len() != 3 {
            return Err(with_text("invalid score verify info: ", input));
        }
        let fu_text = string_of(&exps[0]);
        let fan_text = string_of(&exps[1]);
        let score_text = string_of(&exps[2]);
        let (fu, fan, score) = match read_numbers(
            parse_usize(fu_text.as_str()),
            parse_usize(fan_text.as_str()),
            parse_i32(score_text.as_str()),
        ) {
            Ok(n) => n,
            Err(e) => {
                return Err(e);
            },
        };
        self.fu = fu;
        self.fan = fan;
        self.score = score;
        Ok(())
    }

    /// Reads an expression. Where a part cannot be read, the parts read
    /// before it stay read.
    pub fn parse(&mut self, input: &str) -> (r: Result<(), String>)
        requires
            hand_has_room(old(self).hand, input@.len() as int),
        ensures
            error_text(r) == error_of(expression_parsed(old(self)@, input@)),
            r is Ok ==> expression_parsed(old(self)@, input@) == Ok::<CalcView, Seq<char>>(
                final(self)@,
            ),
            r is Err ==> final(self)@ == expression_kept(old(self)@, input@),
    {
        let cs = chars_of(input);
        let cleaned = remove_char(&cs, ' ');
        let parts = split(&cleaned, '#');
        let exps = split(&parts[0], '/');
        if exps.len() > 1 {
            match self.parse_stage_info(&exps[1]) {
                Ok(_) => {},
                Err(e) => {
                    return Err(e);
                },
            }
        }
        assert(self.hand == old(self).hand) by {
            assert(table_view(self.hand) == table_view(old(self).hand));
            assert forall|t: int, n: int| 0 <= t < TYPE && 0 <= n < TNUM implies self.hand[t][n]
                == old(self).hand[t][n] by {
                assert(table_view(self.hand)[t][n] == table_view(old(self).hand)[t][n]);
            }
            assert forall|t: int| 0 <= t < TYPE implies self.hand[t] == old(self).hand[t] by {
                assert(self.hand[t] =~= old(self).hand[t]);
            }
            assert(self.hand =~= old(self).hand);
        }
        match self.parse_hand_meld(&exps[0]) {
            Ok(_) => {},
            Err(e) => {
                return Err(e);
            },
        }
        if exps.len() > 2 {
            match self.parse_yaku_flags(&exps[2]) {
                Ok(_) => {},
                Err(e) => {
                    return Err(e);
                },
            }
        }
        if exps.len() > 3 {
            match self.parse_score_verify(&exps[3]) {
                Ok(_) => {},
                Err(e) => {
                    return Err(e);
                },
            }
        }
        Ok(())
    }
}

/// How the result of an evaluation compares with the numbers to hold it
/// against.
#[derive(Clone, Copy, Debug, PartialEq, Eq, Structural)]
pub enum Verify {
    /// They agree.
    Match,
    /// They differ.
    Mismatch,
    /// There was nothing to hold the result against.
    Skip,
}

impl Verify {
    /// The word for the outcome: `ok`, `error` or `skip`.
    pub fn word(&self) -> (r: String)
        ensures
            r@ == (match *self {
                Verify::Match => "ok"@,
                Verify::Mismatch => "error"@,
                Verify::Skip => "skip"@,
            }),
    {
        match self {
            Verify::Match => String::from_str("ok"),
            Verify::Mismatch => String::from_str("error"),
            Verify::Skip => String::from_str("skip"),
        }
    }
}

/// What the calculator reports of a winning hand.
#[derive(Debug)]
pub struct Report {
    pub context: WinContext,
    /// What the winner receives in all.
    pub score: i64,
    pub verify: Verify,
}

/// What a winner receives in all: on a tsumo three times what each of
/// the others pays a dealer, or twice what each pays anyone else and
/// what the dealer pays; on a ron what the discarder pays.
pub open spec fn total_score(points: (int, int, int), is_drawn: bool, is_dealer: bool) -> int {
    if is_drawn {
        if is_dealer {
            points.1 * 3
        } else {
            points.1 * 2 + points.2
        }
    } else {
        points.0
    }
}

/// How a result compares with the numbers to hold it against: nothing is
/// compared where the score to expect is 0; of a yakuman only the score
/// is compared, of any other hand fu, fan and score.
pub open spec fn verified(c: CalcView, yakuman: int, fu: int, fan: int, score: int) -> Verify {
    if c.score == 0 {
        Verify::Skip
    } else if yakuman > 0 {
        if score == c.score {
            Verify::Match
        } else {
            Verify::Mismatch
        }
    } else if fu == c.fu && fan == c.fan && score == c.score {
        Verify::Match
    } else {
        Verify::Mismatch
    }
}

/// Whether what was read can be evaluated: the hand and its melds are of
/// a size that a hand can have, and every indicator points at a slot of
/// the table. Of the indicators that an expression can name, only `z9`
/// points at none.
pub open spec fn can_evaluate(c: Calculator) -> bool {
    &&& hand_ok(c.hand, c.melds@)
    &&& indicators_ok(c.doras@)
    &&& indicators_ok(c.ura_doras@)
}

/// The evaluation of what was read.
pub open spec fn evaluation_of(c: Calculator) -> Option<Evaluated> {
    if can_evaluate(c) {
        evaluated(
            c.hand,
            c.melds@,
            c.doras@,
            c.ura_doras@,
            c.win_tile,
            c.is_drawn,
            c.is_dealer,
            c.prevalent_wind,
            c.seat_wind,
            c.yaku_flags,
        )
    } else {
        None
    }
}

/// Whether `r` is what evaluating the calculator gives: nothing where the
/// hand is no win; else the result of the evaluation, the score that the
/// winner gets in all, and how both compare with the numbers to verify.
pub open spec fn reported(c: Calculator, r: Option<Report>) -> bool {
    match evaluation_of(c) {
        None => r is None,
        Some(e) => r matches Some(rep) && crate::hand::evaluate::context_is(rep.context, e)
            && rep.score == total_score(
            (rep.context.points.0 as int, rep.context.points.1 as int, rep.context.points.2 as int),
            c.is_drawn,
            c.is_dealer,
        ) && rep.verify == verified(c@, e.yakuman, e.fu, e.fan, rep.score as int),
    }
}

fn table_fine(h: &TileTable) -> (r: bool)
    ensures
        r == table_bounded(*h),
{
    let mut t: usize = 0;
    while t < TYPE
        invariant
            t <= TYPE,
            forall|a: int, b: int| 0 <= a < t && 0 <= b < TNUM ==> (#[trigger] h[a][b]) <= SLOT_MAX,
        decreases TYPE - t,
    {
        let mut n: usize = 0;
        while n < TNUM
            invariant
                t < TYPE,
                n <= TNUM,
                forall|a: int, b: int|
                    0 <= a < t && 0 <= b < TNUM ==> (#[trigger] h[a][b]) <= SLOT_MAX,
                forall|b: int| 0 <= b < n ==> (#[trigger] h[t as int][b]) <= SLOT_MAX,
            decreases TNUM - n,
        {
            if h[t][n] > SLOT_MAX {
                return false;
            }
            n += 1;
        }
        t += 1;
    }
    true
}

fn tiles_fine(tiles: &Vec<Tile>) -> (r: bool)
    ensures
        r == forall|k: int| 0 <= k < tiles.len() ==> (#[trigger] tiles[k]).in_table(),
{
    let mut j: usize = 0;
    while j < tiles.len()
        invariant
            j <= tiles.len(),
            forall|k: int| 0 <= k < j ==> (#[trigger] tiles[k]).in_table(),
        decreases tiles.len() - j,
    {
        if !(tiles[j].0 < TYPE && tiles[j].1 < TNUM) {
            return false;
        }
        j += 1;
    }
    true
}

fn melds_fine(melds: &Vec<Meld>) -> (r: bool)
    ensures
        r == (melds_small(melds@) && melds_usable(melds@)),
{
    if melds.len() > 4 {
        return false;
    }
    let mut i: usize = 0;
    while i < melds.len()
        invariant
            i <= melds.len() <= 4,
            forall|k: int| 0 <= k < i ==> (#[trigger] melds[k]).tiles.len() <= 4,
            forall|k: int| 0 <= k < i ==> meld_usable(#[trigger] melds[k]),
        decreases melds.len() - i,
    {
        let m = &melds[i];
        if m.tiles.len() > 4 {
            assert(melds[i as int].tiles.len() > 4);
            return false;
        }
        if m.tiles.len() < 3 || !tiles_fine(&m.tiles) {
            assert(!meld_usable(melds[i as int]));
            return false;
        }
        i += 1;
    }
    true
}

impl Calculator {
    /// Whether what was read can be evaluated.
    pub fn check(&self) -> (r: bool)
        ensures
            r == can_evaluate(*self),
    {
        table_fine(&self.hand) && melds_fine(&self.melds) && check_indicators(&self.doras)
            && check_indicators(&self.ura_doras)
    }

    /// Evaluates what was read, and holds the result against the numbers
    /// to verify. `None` where the hand is no win, or cannot be evaluated.
    pub fn run(&self) -> (r: Option<Report>)
        ensures
            reported(*self, r),
    {
        if !self.check() {
            return None;
        }
        match evaluate_hand(
            &self.hand,
            &self.melds,
            &self.doras,
            &self.ura_doras,
            self.win_tile,
            self.is_drawn,
            self.is_dealer,
            self.prevalent_wind,
            self.seat_wind,
            &self.yaku_flags,
        ) {
            None => None,
            Some(ctx) => {
                let score: i64 = if self.is_drawn {
                    if self.is_dealer {
                        ctx.points.1 as i64 * 3
                    } else {
                        ctx.points.1 as i64 * 2 + ctx.points.2 as i64
                    }
                } else {
                    ctx.points.0 as i64
                };
                let verify = if self.score != 0 {
                    if ctx.yakuman_times > 0 {
                        if score == self.score as i64 {
                            Verify::Match
                        } else {
                            Verify::Mismatch
                        }
                    } else {
                        if ctx.fu == self.fu && ctx.fan == self.fan && score == self.score as i64 {
                            Verify::Match
                        } else {
                            Verify::Mismatch
                        }
                    }
                } else {
                    Verify::Skip
                };
                Some(Report { context: ctx, score, verify })
            },
        }
    }
}

} // verus!
