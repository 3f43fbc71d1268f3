//! The notation of tiles, melds and winds in a calculator expression.

use crate::mahjongsoul::action::letter_suit;
use crate::model::define::{Index, Seat, SEAT};
use crate::model::meld::{Meld, MeldType};
use crate::model::tile::Tile;
use crate::util::text::{char_digit, chars_of, digit_of, push_char, string_of};
use vstd::prelude::*;
use vstd::string::StringExecFns;

verus! {

/// The suit that a digit at the end of `s` would have: that of the last
/// suit letter in `s`.
pub open spec fn last_suit(s: Seq<char>) -> Option<usize>
    decreases s.len(),
{
    if s.len() == 0 {
        None
    } else if letter_suit(s.last()) is Some {
        letter_suit(s.last())
    } else {
        last_suit(s.drop_last())
    }
}

/// The message for a character that the notation does not know.
pub open spec fn invalid_char_message(c: char) -> Seq<char> {
    "invalid char: '"@ + seq![c] + "'"@
}

/// The tiles of a tile string: suit letters (`m`, `p`, `s`, `z`) set the
/// suit of the digits that follow, and each digit is one tile, 0 the red
/// five. The error is that of the first character that is wrong.
pub open spec fn tiles_parse(s: Seq<char>) -> Result<Seq<Tile>, Seq<char>>
    decreases s.len(),
{
    if s.len() == 0 {
        Ok(Seq::empty())
    } else {
        match tiles_parse(s.drop_last()) {
            Err(e) => Err(e),
            Ok(before) => {
                let c = s.last();
                if letter_suit(c) is Some {
                    Ok(before)
                } else if char_digit(c) is Some {
                    match last_suit(s.drop_last()) {
                        Some(t) => Ok(before.push(Tile(t, char_digit(c)->0 as usize))),
                        None => Err("tile number befor tile type"@),
                    }
                } else {
                    Err(invalid_char_message(c))
                }
            },
        }
    }
}

/// The text of a result's error, if it is one.
pub open spec fn error_text<T>(r: Result<T, String>) -> Option<Seq<char>> {
    match r {
        Ok(_) => None,
        Err(e) => Some(e@),
    }
}

/// The error of a result in the model, if it is one.
pub open spec fn error_of<T>(r: Result<T, Seq<char>>) -> Option<Seq<char>> {
    match r {
        Ok(_) => None,
        Err(e) => Some(e),
    }
}

fn invalid_char(c: char) -> (r: String)
    ensures
        r@ == invalid_char_message(c),
{
    let mut r = String::from_str("invalid char: '");
    push_char(&mut r, c);
    r.append("'");
    r
}

fn suit_of(c: char) -> (r: Option<usize>)
    ensures
        r == letter_suit(c),
        r matches Some(t) ==> t < 4,
{
    match c {
        'm' => Some(0),
        'p' => Some(1),
        's' => Some(2),
        'z' => Some(3),
        _ => None,
    }
}

/// The tiles of a tile string given as characters.
pub fn tiles_from_chars(exp: &Vec<char>) -> (r: Result<Vec<Tile>, String>)
    ensures
        error_text(r) == error_of(tiles_parse(exp@)),
        r matches Ok(tiles) ==> tiles_parse(exp@) == Ok::<Seq<Tile>, Seq<char>>(tiles@) && forall|
            i: int,
        | 0 <= i < tiles.len() ==> (#[trigger] tiles[i]).in_table(),
        r matches Ok(tiles) ==> tiles.len() <= exp.len(),
{
    let mut tiles: Vec<Tile> = Vec::new();
    let mut ti: Option<usize> = None;
    let mut i: usize = 0;
    proof {
        assert(exp@.take(0) =~= Seq::<char>::empty());
    }
    while i < exp.len()
        invariant
            i <= exp.len(),
            tiles.len() <= i,
            ti == last_suit(exp@.take(i as int)),
            ti matches Some(t) ==> t < 4,
            tiles_parse(exp@.take(i as int)) == Ok::<Seq<Tile>, Seq<char>>(tiles@),
            forall|k: int| 0 <= k < tiles.len() ==> (#[trigger] tiles[k]).in_table(),
        decreases exp.len() - i,
    {
        let c = exp[i];
        proof {
            assert(exp@.take(i + 1).drop_last() =~= exp@.take(i as int));
            assert(exp@.take(i + 1).last() == c);
        }
        match suit_of(c) {
            Some(t) => {
                ti = Some(t);
            },
            None => match digit_of(c) {
                Some(ni) => match ti {
                    Some(t) => {
                        tiles.push(Tile(t, ni));
                    },
                    None => {
                        proof {
                            lemma_tiles_parse_error_stays(exp@, i + 1);
                        }
                        return Err(String::from_str("tile number befor tile type"));
                    },
                },
                None => {
                    proof {
                        lemma_tiles_parse_error_stays(exp@, i + 1);
                    }
                    return Err(invalid_char(c));
                },
            },
        }
        i += 1;
    }
    assert(exp@.take(exp.len() as int) == exp@);
    Ok(tiles)
}

/// An error in a part of a tile string is the error of the whole.
pub proof fn lemma_tiles_parse_error_stays(s: Seq<char>, n: int)
    requires
        0 <= n <= s.len(),
        tiles_parse(s.take(n)) is Err,
    ensures
        tiles_parse(s) == tiles_parse(s.take(n)),
    decreases s.len(),
{
    if n < s.len() {
        assert(s.drop_last().take(n) =~= s.take(n));
        lemma_tiles_parse_error_stays(s.drop_last(), n);
    } else {
        assert(s.take(n) =~= s);
    }
}

/// The tiles of a tile string.
pub fn tiles_from_string(exp: &str) -> (r: Result<Vec<Tile>, String>)
    ensures
        error_text(r) == error_of(tiles_parse(exp@)),
        r matches Ok(tiles) ==> tiles_parse(exp@) == Ok::<Seq<Tile>, Seq<char>>(tiles@) && forall|
            i: int,
        | 0 <= i < tiles.len() ==> (#[trigger] tiles[i]).in_table(),
{
    let cs = chars_of(exp);
    tiles_from_chars(&cs)
}

/// The rank of a wind letter: `E` 1, `S` 2, `W` 3, `N` 4.
pub open spec fn letter_wind(c: char) -> Option<Index> {
    if c == 'E' {
        Some(1usize)
    } else if c == 'S' {
        Some(2usize)
    } else if c == 'W' {
        Some(3usize)
    } else if c == 'N' {
        Some(4usize)
    } else {
        None
    }
}

/// The message for a letter that names no wind.
pub open spec fn invalid_wind_message(c: char) -> Seq<char> {
    "invalid wind symbol: "@ + seq![c]
}

/// The rank of a wind letter.
pub fn wind_from_char(c: char) -> (r: Result<Index, String>)
    ensures
        match r {
            Ok(w) => letter_wind(c) == Some(w) && 1 <= w <= 4,
            Err(e) => letter_wind(c) is None && e@ == invalid_wind_message(c),
        },
{
    match c {
        'E' => Ok(1),
        'S' => Ok(2),
        'W' => Ok(3),
        'N' => Ok(4),
        _ => {
            let mut e = String::from_str("invalid wind symbol: ");
            push_char(&mut e, c);
            Err(e)
        },
    }
}

/// What has been read of a meld string.
pub struct MeldScan {
    /// The suit of the digits that follow.
    pub suit: Option<usize>,
    pub tiles: Seq<Tile>,
    pub froms: Seq<Seat>,
}

/// Reads a meld string: tiles as in a tile string, each from the owner's
/// own hand unless a `+` follows it; the tile before a `+` comes from the
/// seat numbered by the count of tiles read so far. The error is that of
/// the first character that is wrong.
pub open spec fn meld_scan(s: Seq<char>, seat: Seat) -> Result<MeldScan, Seq<char>>
    decreases s.len(),
{
    if s.len() == 0 {
        Ok(MeldScan { suit: None, tiles: Seq::empty(), froms: Seq::empty() })
    } else {
        match meld_scan(s.drop_last(), seat) {
            Err(e) => Err(e),
            Ok(st) => {
                let c = s.last();
                if letter_suit(c) is Some {
                    Ok(MeldScan { suit: letter_suit(c), ..st })
                } else if c == '+' {
                    if st.froms.len() == 0 {
                        Err("invalid '+' suffix"@)
                    } else {
                        Ok(
                            MeldScan {
                                froms: st.froms.update(
                                    st.froms.len() - 1,
                                    (st.tiles.len() % 4) as usize,
                                ),
                                ..st
                            },
                        )
                    }
                } else if char_digit(c) is Some {
                    match st.suit {
                        Some(t) => Ok(
                            MeldScan {
                                tiles: st.tiles.push(Tile(t, char_digit(c)->0 as usize)),
                                froms: st.froms.push(seat),
                                ..st
                            },
                        ),
                        None => Err("tile number befor tile type"@),
                    }
                } else {
                    Err(invalid_char_message(c))
                }
            },
        }
    }
}

/// An error in a part of a meld string is the error of the whole.
pub proof fn lemma_meld_scan_error_stays(s: Seq<char>, seat: Seat, n: int)
    requires
        0 <= n <= s.len(),
        meld_scan(s.take(n), seat) is Err,
    ensures
        meld_scan(s, seat) == meld_scan(s.take(n), seat),
    decreases s.len(),
{
    if n < s.len() {
        assert(s.drop_last().take(n) =~= s.take(n));
        lemma_meld_scan_error_stays(s.drop_last(), seat, n);
    } else {
        assert(s.take(n) =~= s);
    }
}

/// The rank of a tile for the shape of a meld: 5 for a red five.
pub open spec fn shape_rank(t: Tile) -> int {
    if t.1 == 0 {
        5
    } else {
        t.1 as int
    }
}

/// Whether all tiles have the rank of the first.
pub open spec fn ranks_equal(tiles: Seq<Tile>) -> bool {
    forall|i: int| 0 <= i < tiles.len() ==> shape_rank(#[trigger] tiles[i]) == shape_rank(tiles[0])
}

/// Whether three tiles have three ranks in a row, in any order.
pub open spec fn ranks_run(tiles: Seq<Tile>) -> bool {
    let a = shape_rank(tiles[0]);
    let b = shape_rank(tiles[1]);
    let c = shape_rank(tiles[2]);
    let lo = if a <= b && a <= c {
        a
    } else if b <= c {
        b
    } else {
        c
    };
    let hi = if a >= b && a >= c {
        a
    } else if b >= c {
        b
    } else {
        c
    };
    a != b && b != c && a != c && hi - lo == 2
}

/// Whether every tile comes from `seat`.
pub open spec fn all_from(froms: Seq<Seat>, seat: Seat) -> bool {
    forall|i: int| 0 <= i < froms.len() ==> #[trigger] froms[i] == seat
}

/// The kind of meld that the tiles make by their ranks: three in a row a
/// chi, three alike a pon, four alike a quad, which is concealed where all
/// tiles come from the owner.
pub open spec fn meld_shape(tiles: Seq<Tile>, froms: Seq<Seat>, seat: Seat) -> Option<MeldType> {
    if tiles.len() == 3 && ranks_run(tiles) {
        Some(MeldType::Chi)
    } else if tiles.len() == 3 && ranks_equal(tiles) {
        Some(MeldType::Pon)
    } else if tiles.len() == 4 && ranks_equal(tiles) {
        if all_from(froms, seat) {
            Some(MeldType::Ankan)
        } else {
            Some(MeldType::Minkan)
        }
    } else {
        None
    }
}

/// The message for a meld string whose tiles make no meld.
pub open spec fn invalid_meld_message(s: Seq<char>) -> Seq<char> {
    "invalid meld: '"@ + s + "'"@
}

/// The meld of a meld string: its kind, its tiles and their donors.
pub open spec fn meld_parse(s: Seq<char>, seat: Seat) -> Result<
    (MeldType, Seq<Tile>, Seq<Seat>),
    Seq<char>,
> {
    match meld_scan(s, seat) {
        Err(e) => Err(e),
        Ok(st) => match meld_shape(st.tiles, st.froms, seat) {
            Some(tp) => Ok((tp, st.tiles, st.froms)),
            None => Err(invalid_meld_message(s)),
        },
    }
}

fn rank_of(t: Tile) -> (r: usize)
    ensures
        r == shape_rank(t),
{
    if t.1 == 0 {
        5
    } else {
        t.1
    }
}

fn same_ranks(tiles: &Vec<Tile>) -> (r: bool)
    requires
        tiles.len() > 0,
    ensures
        r == ranks_equal(tiles@),
{
    let first = rank_of(tiles[0]);
    let mut i: usize = 0;
    while i < tiles.len()
        invariant
            i <= tiles.len(),
            tiles.len() > 0,
            first == shape_rank(tiles@[0]),
            forall|k: int| 0 <= k < i ==> shape_rank(#[trigger] tiles@[k]) == first,
        decreases tiles.len() - i,
    {
        if rank_of(tiles[i]) != first {
            return false;
        }
        i += 1;
    }
    true
}

fn run_of_three(tiles: &Vec<Tile>) -> (r: bool)
    requires
        tiles.len() == 3,
    ensures
        r == ranks_run(tiles@),
{
    let a = rank_of(tiles[0]);
    let b = rank_of(tiles[1]);
    let c = rank_of(tiles[2]);
    let lo = if a <= b && a <= c {
        a
    } else if b <= c {
        b
    } else {
        c
    };
    let hi = if a >= b && a >= c {
        a
    } else if b >= c {
        b
    } else {
        c
    };
    a != b && b != c && a != c && hi - lo == 2
}

fn only_from(froms: &Vec<Seat>, seat: Seat) -> (r: bool)
    ensures
        r == all_from(froms@, seat),
{
    let mut i: usize = 0;
    while i < froms.len()
        invariant
            i <= froms.len(),
            forall|k: int| 0 <= k < i ==> #[trigger] froms@[k] == seat,
        decreases froms.len() - i,
    {
        if froms[i] != seat {
            return false;
        }
        i += 1;
    }
    true
}

/// The meld of a meld string given as characters, owned by `seat`.
pub fn meld_from_chars(exp: &Vec<char>, seat: Seat) -> (r: Result<Meld, String>)
    ensures
        error_text(r) == error_of(meld_parse(exp@, seat)),
        r matches Ok(m) ==> m.step == 0 && m.seat == seat && meld_parse(exp@, seat) == Ok::<
            (MeldType, Seq<Tile>, Seq<Seat>),
            Seq<char>,
        >((m.type_, m.tiles@, m.froms@)),
{
    let mut ti: Option<usize> = None;
    let mut tiles: Vec<Tile> = Vec::new();
    let mut froms: Vec<Seat> = Vec::new();
    let mut i: usize = 0;
    proof {
        assert(exp@.take(0) =~= Seq::<char>::empty());
    }
    while i < exp.len()
        invariant
            i <= exp.len(),
            tiles.len() <= i,
            meld_scan(exp@.take(i as int), seat) == Ok::<MeldScan, Seq<char>>(
                MeldScan { suit: ti, tiles: tiles@, froms: froms@ },
            ),
        decreases exp.len() - i,
    {
        let c = exp[i];
        proof {
            assert(exp@.take(i + 1).drop_last() =~= exp@.take(i as int));
            assert(exp@.take(i + 1).last() == c);
        }
        match suit_of(c) {
            Some(t) => {
                ti = Some(t);
            },
            None => {
                if c == '+' {
                    if froms.len() == 0 {
                        proof {
                            lemma_meld_scan_error_stays(exp@, seat, i + 1);
                        }
                        return Err(String::from_str("invalid '+' suffix"));
                    }
                    let last = froms.len() - 1;
                    froms[last] = tiles.len() % SEAT;
                } else {
                    match digit_of(c) {
                        Some(ni) => match ti {
                            Some(t) => {
                                tiles.push(Tile(t, ni));
                                froms.push(seat);
                            },
                            None => {
                                proof {
                                    lemma_meld_scan_error_stays(exp@, seat, i + 1);
                                }
                                return Err(String::from_str("tile number befor tile type"));
                            },
                        },
                        None => {
                            proof {
                                lemma_meld_scan_error_stays(exp@, seat, i + 1);
                            }
                            return Err(invalid_char(c));
                        },
                    }
                }
            },
        }
        i += 1;
    }
    assert(exp@.take(exp.len() as int) == exp@);
    let meld_type = if tiles.len() == 3 && run_of_three(&tiles) {
        MeldType::Chi
    } else if tiles.len() == 3 && same_ranks(&tiles) {
        MeldType::Pon
    } else if tiles.len() == 4 && same_ranks(&tiles) {
        if only_from(&froms, seat) {
            MeldType::Ankan
        } else {
            MeldType::Minkan
        }
    } else {
        let mut e = String::from_str("invalid meld: '");
        let text = string_of(exp);
        e.append(text.as_str());
        e.append("'");
        return Err(e);
    };
    Ok(Meld { step: 0, seat, type_: meld_type, tiles, froms })
}

/// The meld of a meld string, owned by `seat`.
pub fn meld_from_string(exp: &str, seat: Seat) -> (r: Result<Meld, String>)
    ensures
        error_text(r) == error_of(meld_parse(exp@, seat)),
        r matches Ok(m) ==> m.step == 0 && m.seat == seat && meld_parse(exp@, seat) == Ok::<
            (MeldType, Seq<Tile>, Seq<Seat>),
            Seq<char>,
        >((m.type_, m.tiles@, m.froms@)),
{
    let cs = chars_of(exp);
    meld_from_chars(&cs, seat)
}

} // verus!
