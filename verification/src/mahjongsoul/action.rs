//! Actions on a live table: the actions that a message offers, and the
//! command that carries out the one chosen.

use crate::model::action::{Action, ActionType};
use crate::model::define::{Index, Seat, SEAT, TNUM, TYPE, TZ, UK};
use crate::model::stage::Stage;
use crate::model::tile::{
    copy_tiles, rows_view, sort_tiles, sorted_tiles, table_bounded, Tile, TileTable, SLOT_MAX,
};
use crate::util::json::{
    json_array, json_from_string, json_get, json_i64, json_is_null, json_member, json_str,
    json_view, JsonView,
};
use crate::util::text::{
    char_digit, chars_of, decimal, digit_of, split, split_spec, usize_to_string,
};
use vstd::string::StringExecFns;
use serde_json::Value;
use vstd::prelude::*;

verus! {

/// The non-negative integer of `j` that fits `usize`.
pub open spec fn int_usize(j: JsonView) -> Option<usize> {
    match j {
        JsonView::Int(n) => if 0 <= n <= usize::MAX {
            Some(n as usize)
        } else {
            None
        },
        _ => None,
    }
}

/// The integer of `j` that fits `i32`.
pub open spec fn int_i32(j: JsonView) -> Option<i32> {
    match j {
        JsonView::Int(n) => if i32::MIN <= n <= i32::MAX {
            Some(n as i32)
        } else {
            None
        },
        _ => None,
    }
}

/// The suit of a suit letter.
pub open spec fn letter_suit(c: char) -> Option<usize> {
    if c == 'm' {
        Some(0)
    } else if c == 'p' {
        Some(1)
    } else if c == 's' {
        Some(2)
    } else if c == 'z' {
        Some(3)
    } else {
        None
    }
}

/// The tile of a symbol: a rank digit followed by a suit letter, as in
/// `5m`, `0p` (the red five of pin) or `1z` (east). Whatever follows the
/// letter is not read.
pub open spec fn symbol_tile(s: Seq<char>) -> Option<Tile> {
    if s.len() >= 2 && char_digit(s[0]) is Some && letter_suit(s[1]) is Some {
        Some(Tile(letter_suit(s[1])->0, char_digit(s[0])->0 as usize))
    } else {
        None
    }
}

/// The tile of a JSON string that holds a symbol.
pub open spec fn str_tile(j: JsonView) -> Option<Tile> {
    match j {
        JsonView::Str(s) => symbol_tile(s),
        _ => None,
    }
}

/// The tiles of a JSON array of symbols.
pub open spec fn tiles_of(j: JsonView) -> Option<Seq<Tile>> {
    match j {
        JsonView::Array(a) => if forall|i: int| 0 <= i < a.len() ==> str_tile(#[trigger] a[i]) is Some {
            Some(Seq::new(a.len(), |i: int| str_tile(a[i])->0))
        } else {
            None
        },
        _ => None,
    }
}

/// The tiles of the symbols in `pieces`, if every piece is a symbol.
pub open spec fn pieces_tiles(pieces: Seq<Seq<char>>) -> Option<Seq<Tile>> {
    if forall|i: int| 0 <= i < pieces.len() ==> symbol_tile(#[trigger] pieces[i]) is Some {
        Some(Seq::new(pieces.len(), |i: int| symbol_tile(pieces[i])->0))
    } else {
        None
    }
}

/// The tiles of a combination such as `4s|6s`, in the order of tiles.
pub open spec fn combo_tiles(j: JsonView) -> Option<Seq<Tile>> {
    match j {
        JsonView::Str(s) => match pieces_tiles(split_spec(s, '|')) {
            Some(t) => Some(sorted_tiles(t)),
            None => None,
        },
        _ => None,
    }
}

/// The combinations of a JSON array of combinations.
pub open spec fn combos_of(j: JsonView) -> Option<Seq<Seq<Tile>>> {
    match j {
        JsonView::Array(a) => if forall|i: int|
            0 <= i < a.len() ==> combo_tiles(#[trigger] a[i]) is Some {
            Some(Seq::new(a.len(), |i: int| combo_tiles(a[i])->0))
        } else {
            None
        },
        _ => None,
    }
}

/// The non-negative integer of a value.
pub fn value_usize(v: &Value) -> (r: Option<usize>)
    ensures
        r == int_usize(json_view(*v)),
{
    match json_i64(v) {
        Some(n) => if n >= 0 && n as u64 <= usize::MAX as u64 {
            Some(n as usize)
        } else {
            None
        },
        None => None,
    }
}

/// The integer of a value, if it fits `i32`.
pub fn value_i32(v: &Value) -> (r: Option<i32>)
    ensures
        r == int_i32(json_view(*v)),
{
    match json_i64(v) {
        Some(n) => if -2147483648 <= n && n <= 2147483647 {
            Some(n as i32)
        } else {
            None
        },
        None => None,
    }
}

fn suit_of_letter(c: char) -> (r: Option<usize>)
    ensures
        r == letter_suit(c),
{
    match c {
        'm' => Some(0),
        'p' => Some(1),
        's' => Some(2),
        'z' => Some(3),
        _ => None,
    }
}

fn tile_from_chars(s: &Vec<char>) -> (r: Option<Tile>)
    ensures
        r == symbol_tile(s@),
        r matches Some(t) ==> t.in_table(),
{
    if s.len() < 2 {
        return None;
    }
    match (digit_of(s[0]), suit_of_letter(s[1])) {
        (Some(n), Some(t)) => Some(Tile(t, n)),
        _ => None,
    }
}

/// The tile of a symbol.
pub fn tile_from_symbol(s: &str) -> (r: Option<Tile>)
    ensures
        r == symbol_tile(s@),
        r matches Some(t) ==> t.in_table(),
{
    let cs = chars_of(s);
    tile_from_chars(&cs)
}

/// The tile of a value that holds a symbol.
pub fn value_tile(v: &Value) -> (r: Option<Tile>)
    ensures
        r == str_tile(json_view(*v)),
        r matches Some(t) ==> t.in_table(),
{
    match json_str(v) {
        Some(s) => tile_from_symbol(s),
        None => None,
    }
}

/// The tiles of a value that holds an array of symbols.
pub fn value_tiles(v: &Value) -> (r: Option<Vec<Tile>>)
    ensures
        match r {
            Some(t) => tiles_of(json_view(*v)) == Some(t@) && forall|i: int|
                0 <= i < t.len() ==> (#[trigger] t[i]).in_table(),
            None => tiles_of(json_view(*v)) is None,
        },
{
    match json_array(v) {
        Some(items) => {
            let ghost a = json_view(*v)->Array_0;
            let mut r: Vec<Tile> = Vec::new();
            let mut i: usize = 0;
            while i < items.len()
                invariant
                    i <= items.len(),
                    a.len() == items.len(),
                    json_view(*v) == JsonView::Array(a),
                    forall|k: int| 0 <= k < a.len() ==> a[k] == json_view(#[trigger] items@[k]),
                    r.len() == i,
                    forall|k: int| 0 <= k < i ==> str_tile(#[trigger] a[k]) == Some(r@[k]),
                    forall|k: int| 0 <= k < i ==> (#[trigger] r@[k]).in_table(),
                decreases items.len() - i,
            {
                match value_tile(&items[i]) {
                    Some(t) => {
                        r.push(t);
                    },
                    None => {
                        assert(str_tile(a[i as int]) is None);
                        return None;
                    },
                }
                i += 1;
            }
            assert(tiles_of(json_view(*v))->0 =~= r@);
            Some(r)
        },
        None => None,
    }
}

fn combo_from_value(v: &Value) -> (r: Option<Vec<Tile>>)
    ensures
        match r {
            Some(t) => combo_tiles(json_view(*v)) == Some(t@),
            None => combo_tiles(json_view(*v)) is None,
        },
{
    match json_str(v) {
        Some(s) => {
            let cs = chars_of(s);
            let pieces = split(&cs, '|');
            let ghost ps = split_spec(s@, '|');
            let mut r: Vec<Tile> = Vec::new();
            let mut i: usize = 0;
            while i < pieces.len()
                invariant
                    i <= pieces.len(),
                    json_view(*v) == JsonView::Str(s@),
                    ps == split_spec(s@, '|'),
                    pieces.len() == ps.len(),
                    forall|k: int| 0 <= k < pieces.len() ==> (#[trigger] pieces@[k])@ == ps[k],
                    r.len() == i,
                    forall|k: int| 0 <= k < i ==> symbol_tile(#[trigger] ps[k]) == Some(r@[k]),
                decreases pieces.len() - i,
            {
                match tile_from_chars(&pieces[i]) {
                    Some(t) => {
                        r.push(t);
                    },
                    None => {
                        assert(symbol_tile(ps[i as int]) is None);
                        assert(pieces_tiles(ps) is None);
                        return None;
                    },
                }
                i += 1;
            }
            assert(pieces_tiles(ps)->0 =~= r@);
            sort_tiles(&mut r);
            Some(r)
        },
        None => None,
    }
}

/// The combinations of a value that holds an array such as
/// `["4s|6s", "6s|7s"]`, each with its tiles in order.
pub fn json_parse_combination(combs: &Value) -> (r: Option<Vec<Vec<Tile>>>)
    ensures
        r is Some == combos_of(json_view(*combs)) is Some,
        r matches Some(cs) ==> rows_view(cs@) == combos_of(json_view(*combs))->0,
{
    match json_array(combs) {
        Some(items) => {
            let ghost a = json_view(*combs)->Array_0;
            let mut r: Vec<Vec<Tile>> = Vec::new();
            let mut i: usize = 0;
            while i < items.len()
                invariant
                    i <= items.len(),
                    a.len() == items.len(),
                    json_view(*combs) == JsonView::Array(a),
                    forall|k: int| 0 <= k < a.len() ==> a[k] == json_view(#[trigger] items@[k]),
                    r.len() == i,
                    forall|k: int| 0 <= k < i ==> combo_tiles(#[trigger] a[k]) == Some(r@[k]@),
                decreases items.len() - i,
            {
                match combo_from_value(&items[i]) {
                    Some(t) => {
                        r.push(t);
                    },
                    None => {
                        assert(combo_tiles(a[i as int]) is None);
                        return None;
                    },
                }
                i += 1;
            }
            assert(rows_view(r@) =~= combos_of(json_view(*combs))->0);
            Some(r)
        },
        None => None,
    }
}

/// Actions read from a message, with the position of each among the
/// combinations of its operation.
pub struct ParsedActions {
    pub acts: Seq<(ActionType, Seq<Tile>)>,
    pub idxs: Seq<Index>,
}

impl ParsedActions {
    /// One action without a choice of combination.
    pub open spec fn single(tp: ActionType, tiles: Seq<Tile>) -> ParsedActions {
        ParsedActions { acts: seq![(tp, tiles)], idxs: seq![0usize] }
    }

    /// One action for each combination, with all tiles of the combination.
    pub open spec fn each(tp: ActionType, combos: Seq<Seq<Tile>>) -> ParsedActions {
        ParsedActions {
            acts: Seq::new(combos.len(), |i: int| (tp, combos[i])),
            idxs: Seq::new(combos.len(), |i: int| i as usize),
        }
    }

    /// One action for each combination, with the first tile of the combination.
    pub open spec fn each_first(tp: ActionType, combos: Seq<Seq<Tile>>) -> ParsedActions {
        ParsedActions {
            acts: Seq::new(combos.len(), |i: int| (tp, seq![combos[i][0]])),
            idxs: Seq::new(combos.len(), |i: int| i as usize),
        }
    }

    /// These actions followed by those of `other`.
    pub open spec fn then_also(self, other: ParsedActions) -> ParsedActions {
        ParsedActions { acts: self.acts + other.acts, idxs: self.idxs + other.idxs }
    }
}

/// Whether every combination holds a tile.
pub open spec fn combos_nonempty(combos: Seq<Seq<Tile>>) -> bool {
    forall|i: int| 0 <= i < combos.len() ==> (#[trigger] combos[i]).len() > 0
}

/// The actions of one entry of an operation list, by its type number:
/// 1 discard, 2 chi, 3 pon, 4 ankan, 5 minkan, 6 kakan, 7 riichi, 8 tsumo,
/// 9 ron, 10 kyushukyuhai, 11 kita. No other number is an operation.
pub open spec fn op_actions(op: JsonView) -> Option<ParsedActions> {
    let combs = json_member(op, "combination"@);
    match int_i32(json_member(op, "type"@)) {
        Some(tp) => if tp == 1 {
            if combs is Null {
                Some(ParsedActions::single(ActionType::Discard, Seq::empty()))
            } else {
                match combos_of(combs) {
                    Some(cs) => if cs.len() > 0 {
                        Some(ParsedActions::single(ActionType::Discard, cs[0]))
                    } else {
                        None
                    },
                    None => None,
                }
            }
        } else if tp == 2 || tp == 3 || tp == 4 || tp == 5 {
            match combos_of(combs) {
                Some(cs) => Some(
                    ParsedActions::each(
                        if tp == 2 {
                            ActionType::Chi
                        } else if tp == 3 {
                            ActionType::Pon
                        } else if tp == 4 {
                            ActionType::Ankan
                        } else {
                            ActionType::Minkan
                        },
                        cs,
                    ),
                ),
                None => None,
            }
        } else if tp == 6 || tp == 7 {
            match combos_of(combs) {
                Some(cs) => if combos_nonempty(cs) {
                    Some(
                        ParsedActions::each_first(
                            if tp == 6 {
                                ActionType::Kakan
                            } else {
                                ActionType::Riichi
                            },
                            cs,
                        ),
                    )
                } else {
                    None
                },
                None => None,
            }
        } else if tp == 8 {
            Some(ParsedActions::single(ActionType::Tsumo, Seq::empty()))
        } else if tp == 9 {
            Some(ParsedActions::single(ActionType::Ron, Seq::empty()))
        } else if tp == 10 {
            Some(ParsedActions::single(ActionType::Kyushukyuhai, Seq::empty()))
        } else if tp == 11 {
            Some(ParsedActions::single(ActionType::Kita, Seq::empty()))
        } else {
            None
        },
        None => None,
    }
}

/// The actions of an operation list: first the action of doing nothing,
/// then the actions of each entry in turn.
pub open spec fn ops_actions(ops: Seq<JsonView>) -> Option<ParsedActions>
    decreases ops.len(),
{
    if ops.len() == 0 {
        Some(ParsedActions::single(ActionType::Nop, Seq::empty()))
    } else {
        match (ops_actions(ops.drop_last()), op_actions(ops.last())) {
            (Some(before), Some(last)) => Some(before.then_also(last)),
            _ => None,
        }
    }
}

/// The actions that a message offers: those of its operation list.
pub open spec fn offered_actions(j: JsonView) -> Option<ParsedActions> {
    match json_member(j, "operation_list"@) {
        JsonView::Array(ops) => ops_actions(ops),
        _ => None,
    }
}

/// Kind and tiles of each action.
pub open spec fn actions_view(acts: Seq<Action>) -> Seq<(ActionType, Seq<Tile>)> {
    Seq::new(acts.len(), |i: int| (acts[i].0, acts[i].1@))
}

fn push_action(acts: &mut Vec<Action>, idxs: &mut Vec<Index>, tp: ActionType, tiles: Vec<Tile>, idx: usize)
    requires
        old(acts).len() == old(idxs).len(),
    ensures
        final(acts).len() == final(idxs).len(),
        actions_view(final(acts)@) == actions_view(old(acts)@).push((tp, tiles@)),
        final(idxs)@ == old(idxs)@.push(idx),
{
    acts.push(Action(tp, tiles));
    idxs.push(idx);
    assert(actions_view(acts@) =~= actions_view(old(acts)@).push((tp, tiles@)));
}

fn push_each(
    acts: &mut Vec<Action>,
    idxs: &mut Vec<Index>,
    tp: ActionType,
    combos: &Vec<Vec<Tile>>,
    first_only: bool,
) -> (ok: bool)
    requires
        old(acts).len() == old(idxs).len(),
    ensures
        final(acts).len() == final(idxs).len(),
        ok == (first_only ==> combos_nonempty(rows_view(combos@))),
        ok ==> {
            let added = if first_only {
                ParsedActions::each_first(tp, rows_view(combos@))
            } else {
                ParsedActions::each(tp, rows_view(combos@))
            };
            &&& actions_view(final(acts)@) == actions_view(old(acts)@) + added.acts
            &&& final(idxs)@ == old(idxs)@ + added.idxs
        },
{
    let ghost cs = rows_view(combos@);
    let ghost all = if first_only {
        ParsedActions::each_first(tp, cs)
    } else {
        ParsedActions::each(tp, cs)
    };
    let mut i: usize = 0;
    proof {
        assert(actions_view(acts@) =~= actions_view(old(acts)@) + all.acts.take(0));
        assert(idxs@ =~= old(idxs)@ + all.idxs.take(0));
    }
    while i < combos.len()
        invariant
            i <= combos.len(),
            cs == rows_view(combos@),
            cs.len() == combos.len(),
            all == (if first_only {
                ParsedActions::each_first(tp, cs)
            } else {
                ParsedActions::each(tp, cs)
            }),
            acts.len() == idxs.len(),
            first_only ==> forall|k: int| 0 <= k < i ==> (#[trigger] cs[k]).len() > 0,
            actions_view(acts@) == actions_view(old(acts)@) + all.acts.take(i as int),
            idxs@ == old(idxs)@ + all.idxs.take(i as int),
        decreases combos.len() - i,
    {
        let comb = &combos[i];
        assert(cs[i as int] == comb@);
        let ghost acts0 = actions_view(acts@);
        let ghost idxs0 = idxs@;
        if first_only {
            if comb.len() == 0 {
                return false;
            }
            let one: Vec<Tile> = vec![comb[0]];
            assert(one@ =~= seq![cs[i as int][0]]);
            push_action(acts, idxs, tp, one, i);
        } else {
            push_action(acts, idxs, tp, copy_tiles(comb), i);
        }
        proof {
            assert(all.acts.take(i + 1) =~= all.acts.take(i as int).push(all.acts[i as int]));
            assert(all.idxs.take(i + 1) =~= all.idxs.take(i as int).push(all.idxs[i as int]));
            assert(actions_view(acts@) =~= actions_view(old(acts)@) + all.acts.take(i + 1));
            assert(idxs@ =~= old(idxs)@ + all.idxs.take(i + 1));
        }
        i += 1;
    }
    proof {
        assert(all.acts.take(combos.len() as int) =~= all.acts);
        assert(all.idxs.take(combos.len() as int) =~= all.idxs);
    }
    true
}

fn parse_op(op: &Value, acts: &mut Vec<Action>, idxs: &mut Vec<Index>) -> (ok: bool)
    requires
        old(acts).len() == old(idxs).len(),
    ensures
        final(acts).len() == final(idxs).len(),
        ok == op_actions(json_view(*op)) is Some,
        ok ==> {
            let added = op_actions(json_view(*op))->0;
            &&& actions_view(final(acts)@) == actions_view(old(acts)@) + added.acts
            &&& final(idxs)@ == old(idxs)@ + added.idxs
        },
{
    let combs = json_get(op, "combination");
    let tp = match value_i32(json_get(op, "type")) {
        Some(tp) => tp,
        None => {
            return false;
        },
    };
    if tp == 1 {
        if json_is_null(combs) {
            push_action(acts, idxs, ActionType::Discard, Vec::new(), 0);
            proof {
                let added = op_actions(json_view(*op))->0;
                assert(actions_view(acts@) =~= actions_view(old(acts)@) + added.acts);
                assert(idxs@ =~= old(idxs)@ + added.idxs);
            }
            true
        } else {
            match json_parse_combination(combs) {
                Some(cs) => {
                    if cs.len() > 0 {
                        assert(rows_view(cs@)[0] == cs@[0]@);
                        push_action(acts, idxs, ActionType::Discard, copy_tiles(&cs[0]), 0);
                        proof {
                            let added = op_actions(json_view(*op))->0;
                            assert(actions_view(acts@) =~= actions_view(old(acts)@) + added.acts);
                            assert(idxs@ =~= old(idxs)@ + added.idxs);
                        }
                        true
                    } else {
                        false
                    }
                },
                None => false,
            }
        }
    } else if tp == 2 || tp == 3 || tp == 4 || tp == 5 {
        let kind = if tp == 2 {
            ActionType::Chi
        } else if tp == 3 {
            ActionType::Pon
        } else if tp == 4 {
            ActionType::Ankan
        } else {
            ActionType::Minkan
        };
        match json_parse_combination(combs) {
            Some(cs) => push_each(acts, idxs, kind, &cs, false),
            None => false,
        }
    } else if tp == 6 || tp == 7 {
        let kind = if tp == 6 {
            ActionType::Kakan
        } else {
            ActionType::Riichi
        };
        match json_parse_combination(combs) {
            Some(cs) => push_each(acts, idxs, kind, &cs, true),
            None => false,
        }
    } else if tp == 8 || tp == 9 || tp == 10 || tp == 11 {
        let kind = if tp == 8 {
            ActionType::Tsumo
        } else if tp == 9 {
            ActionType::Ron
        } else if tp == 10 {
            ActionType::Kyushukyuhai
        } else {
            ActionType::Kita
        };
        push_action(acts, idxs, kind, Vec::new(), 0);
        proof {
            let added = op_actions(json_view(*op))->0;
            assert(actions_view(acts@) =~= actions_view(old(acts)@) + added.acts);
            assert(idxs@ =~= old(idxs)@ + added.idxs);
        }
        true
    } else {
        false
    }
}

/// The actions that a message offers, and for each the position of its
/// combination within its operation. `None` where the message has no
/// operation list or an entry of it is not an operation.
pub fn json_parse_action(v: &Value) -> (r: Option<(Vec<Action>, Vec<Index>)>)
    ensures
        r is Some == offered_actions(json_view(*v)) is Some,
        r matches Some((acts, idxs)) ==> offered_actions(json_view(*v)) == Some(
            ParsedActions { acts: actions_view(acts@), idxs: idxs@ },
        ),
{
    let list = json_get(v, "operation_list");
    match json_array(list) {
        None => None,
        Some(ops) => {
            let ghost a = json_view(*list)->Array_0;
            let mut acts: Vec<Action> = Vec::new();
            let mut idxs: Vec<Index> = Vec::new();
            push_action(&mut acts, &mut idxs, ActionType::Nop, Vec::new(), 0);
            proof {
                assert(a.take(0) =~= Seq::<JsonView>::empty());
                let first = ops_actions(a.take(0))->0;
                assert(actions_view(acts@) =~= first.acts);
                assert(idxs@ =~= first.idxs);
            }
            let mut i: usize = 0;
            while i < ops.len()
                invariant
                    i <= ops.len(),
                    a.len() == ops.len(),
                    forall|k: int| 0 <= k < a.len() ==> a[k] == json_view(#[trigger] ops@[k]),
                    acts.len() == idxs.len(),
                    ops_actions(a.take(i as int)) == Some(
                        ParsedActions { acts: actions_view(acts@), idxs: idxs@ },
                    ),
                    json_member(json_view(*v), "operation_list"@) == JsonView::Array(a),
                decreases ops.len() - i,
            {
                proof {
                    assert(a.take(i + 1).drop_last() =~= a.take(i as int));
                    assert(a.take(i + 1).last() == json_view(ops@[i as int]));
                }
                if !parse_op(&ops[i], &mut acts, &mut idxs) {
                    proof {
                        assert(ops_actions(a.take(i + 1)) is None);
                        lemma_ops_prefix_fails(a, i + 1);
                    }
                    return None;
                }
                i += 1;
            }
            assert(a.take(ops.len() as int) == a);
            Some((acts, idxs))
        },
    }
}

/// Where a part of an operation list cannot be read, neither can the whole.
pub proof fn lemma_ops_prefix_fails(ops: Seq<JsonView>, n: int)
    requires
        0 <= n <= ops.len(),
        ops_actions(ops.take(n)) is None,
    ensures
        ops_actions(ops) is None,
    decreases ops.len(),
{
    if n < ops.len() {
        assert(ops.drop_last().take(n) =~= ops.take(n));
        lemma_ops_prefix_fails(ops.drop_last(), n);
    } else {
        assert(ops.take(n) =~= ops);
    }
}

/// How many tiles the display of a hand shows at slot `k` (suit times ten
/// plus rank): all tiles of that rank, the red five among the fives, but
/// not the tile just drawn, which lies apart.
pub open spec fn shown_at(h: TileTable, d: Tile, k: int) -> int {
    let ti = k / 10;
    let ni = k % 10;
    if ni == 0 {
        0
    } else if h[ti][ni] > 0 && ti == d.0 && ni == d.normal_rank() {
        h[ti][ni] - 1
    } else {
        h[ti][ni] as int
    }
}

/// How many tiles the display of a hand shows before slot `k`.
pub open spec fn shown_before(h: TileTable, d: Tile, k: int) -> int
    decreases k,
{
    if k <= 0 {
        0
    } else {
        shown_before(h, d, k - 1) + shown_at(h, d, k - 1)
    }
}

/// Whether discarding `t` gives away the tile just drawn: where the drawn
/// tile is `t` and the hand holds no other copy of it, or the caller says
/// so; and where a plain five is named, the hand holds none, and the drawn
/// tile is the red five of that suit.
pub open spec fn discards_drawn(h: TileTable, drawn: Option<Tile>, t: Tile, is_drawn: bool) -> bool {
    if drawn == Some(t) {
        if h[t.0 as int][t.1 as int] == 1 || (t.1 == 5 && h[t.0 as int][5] == 2 && h[t.0 as int][0]
            == 1) {
            true
        } else {
            is_drawn
        }
    } else {
        t.1 == 5 && h[t.0 as int][5] == 1 && drawn == Some(Tile(t.0, 0))
    }
}

/// The position of the tile to discard in the display of a hand: the
/// number of tiles shown before it. A plain five stands behind the red
/// five of its suit. The tile just drawn, and a tile that the hand does
/// not hold, stand behind all others.
pub open spec fn dapai_index(h: TileTable, drawn: Option<Tile>, t: Tile, is_drawn: bool) -> int {
    let d = match drawn {
        Some(d) => d,
        None => Tile(TZ, UK),
    };
    let nr = t.normal_rank();
    if !discards_drawn(h, drawn, t, is_drawn) && 1 <= nr && h[t.0 as int][nr] > 0 {
        shown_before(h, d, t.0 * 10 + nr) + if nr == 5 && h[t.0 as int][5] > 1 && h[t.0 as int][0]
            == 1 && t.1 == 5 && drawn != Some(Tile(t.0, 0)) {
            1int
        } else {
            0int
        }
    } else {
        shown_before(h, d, 40)
    }
}

proof fn lemma_shown_bounds(h: TileTable, d: Tile, k: int)
    requires
        table_bounded(h),
        0 <= k <= 40,
    ensures
        0 <= shown_before(h, d, k) <= 14 * k,
    decreases k,
{
    if k > 0 {
        lemma_shown_bounds(h, d, k - 1);
        let ti = (k - 1) / 10;
        let ni = (k - 1) % 10;
        assert(h[ti][ni] <= SLOT_MAX);
    }
}

/// The position of `tile` in the display of the hand of `seat`.
#[verifier::loop_isolation(false)]
pub fn calc_dapai_index(stage: &Stage, seat: Seat, tile: Tile, is_drawn: bool) -> (r: usize)
    requires
        seat < SEAT,
        tile.in_table(),
        table_bounded(stage.players[seat as int].hand),
    ensures
        r == dapai_index(
            stage.players[seat as int].hand,
            stage.players[seat as int].drawn,
            tile,
            is_drawn,
        ),
{
    let pl = &stage.players[seat];
    let h = &pl.hand;
    let t = tile;
    let d = match pl.drawn {
        Some(d) => d,
        None => Tile(TZ, UK),
    };
    let red = Tile(t.0, 0);
    let drawn_is_red = match pl.drawn {
        Some(x) => x == red,
        None => false,
    };
    let drawn_is_t = match pl.drawn {
        Some(x) => x == t,
        None => false,
    };
    let apart = if drawn_is_t {
        if h[t.0][t.1] == 1 || (t.1 == 5 && h[t.0][5] == 2 && h[t.0][0] == 1) {
            true
        } else {
            is_drawn
        }
    } else {
        t.1 == 5 && h[t.0][t.1] == 1 && drawn_is_red
    };
    assert(apart == discards_drawn(*h, pl.drawn, t, is_drawn));
    let nr = t.to_normal().1;
    let dn = d.to_normal().1;
    let mut idx: usize = 0;
    let mut ti: usize = 0;
    while ti < TYPE
        invariant
            ti <= TYPE,
            table_bounded(*h),
            t.in_table(),
            nr == t.normal_rank(),
            dn == d.normal_rank(),
            idx == shown_before(*h, d, ti * 10),
            !apart && 1 <= nr && h[t.0 as int][nr as int] > 0 ==> ti <= t.0,
        decreases TYPE - ti,
    {
        let mut ni: usize = 1;
        assert(shown_at(*h, d, ti * 10) == 0);
        while ni < TNUM
            invariant
                ti < TYPE,
                1 <= ni <= TNUM,
                table_bounded(*h),
                t.in_table(),
                nr == t.normal_rank(),
                dn == d.normal_rank(),
                idx == shown_before(*h, d, ti * 10 + ni),
                !apart && 1 <= nr && h[t.0 as int][nr as int] > 0 ==> ti < t.0 || (ti == t.0
                    && ni <= nr),
            decreases TNUM - ni,
        {
            proof {
                lemma_shown_bounds(*h, d, ti * 10 + ni);
                assert(h[ti as int][ni as int] <= SLOT_MAX);
                assert((ti * 10 + ni) / 10 == ti && (ti * 10 + ni) % 10 == ni);
            }
            if h[ti][ni] > 0 {
                if ti == t.0 && ni == nr && !apart {
                    if ni == 5 && h[ti][5] > 1 && h[ti][0] == 1 && t.1 == 5 && !drawn_is_red {
                        return idx + 1;
                    } else {
                        return idx;
                    }
                }
                idx += h[ti][ni];
                if ti == d.0 && ni == dn {
                    idx -= 1;
                }
            }
            ni += 1;
        }
        ti += 1;
    }
    idx
}

/// The place of the first action of `acts` that equals `a`.
pub open spec fn position_of(acts: Seq<(ActionType, Seq<Tile>)>, a: (ActionType, Seq<Tile>)) -> Option<
    int,
>
    decreases acts.len(),
{
    if acts.len() == 0 {
        None
    } else if acts[0] == a {
        Some(0)
    } else {
        match position_of(acts.drop_first(), a) {
            Some(i) => Some(i + 1),
            None => None,
        }
    }
}

/// A place moved on by `by`.
pub open spec fn shifted(p: Option<int>, by: int) -> Option<int> {
    match p {
        Some(i) => Some(i + by),
        None => None,
    }
}

fn find_action(acts: &Vec<Action>, act: &Action) -> (r: Option<usize>)
    ensures
        r is Some == position_of(actions_view(acts@), (act.0, act.1@)) is Some,
        r matches Some(i) ==> position_of(actions_view(acts@), (act.0, act.1@)) == Some(i as int)
            && i < acts.len(),
{
    let ghost av = actions_view(acts@);
    let ghost a = (act.0, act.1@);
    let mut i: usize = 0;
    proof {
        assert(av.skip(0) =~= av);
    }
    while i < acts.len()
        invariant
            i <= acts.len(),
            av == actions_view(acts@),
            a == (act.0, act.1@),
            position_of(av, a) == shifted(position_of(av.skip(i as int), a), i as int),
        decreases acts.len() - i,
    {
        proof {
            assert(av.skip(i as int).drop_first() =~= av.skip(i + 1));
            assert(av.skip(i as int)[0] == (acts@[i as int].0, acts@[i as int].1@));
        }
        if acts[i].same(act) {
            return Some(i);
        }
        i += 1;
    }
    None
}

/// The command of an action, as the table's client names it. A discard is
/// named by the position of the tile in the display of the hand, a call or
/// a quad by the position of its combination, and doing nothing on one's
/// own turn is the discard of the tile just drawn.
pub open spec fn command_text(
    stg: Stage,
    seat: Seat,
    tp: ActionType,
    tiles: Seq<Tile>,
    arg_idx: usize,
) -> Seq<char> {
    let pl = stg.players[seat as int];
    match tp {
        ActionType::Nop => if stg.turn == seat {
            "msc.ui.action_dapai("@ + decimal((13 - pl.melds.len() * 3) as nat) + ")"@
        } else {
            "msc.ui.action_cancel()"@
        },
        ActionType::Discard => "msc.ui.action_dapai("@ + decimal(
            dapai_index(pl.hand, pl.drawn, tiles[0], false) as nat,
        ) + ")"@,
        ActionType::Ankan | ActionType::Kakan | ActionType::Minkan => "msc.ui.action_gang("@
            + decimal(arg_idx as nat) + ")"@,
        ActionType::Riichi => "msc.ui.action_lizhi("@ + decimal(
            dapai_index(pl.hand, pl.drawn, tiles[0], false) as nat,
        ) + ")"@,
        ActionType::Tsumo => "msc.ui.action_zimo()"@,
        ActionType::Kyushukyuhai => "msc.ui.action_jiuzhongjiupai()"@,
        ActionType::Kita => "msc.ui.action_babei()"@,
        ActionType::Chi => "msc.ui.action_chi("@ + decimal(arg_idx as nat) + ")"@,
        ActionType::Pon => "msc.ui.action_peng("@ + decimal(arg_idx as nat) + ")"@,
        ActionType::Ron => "msc.ui.action_hu()"@,
    }
}

/// The position of the combination of `act`: 0 for a discard or a riichi,
/// and for any other action the position recorded for the first offered
/// action that equals it.
pub open spec fn combination_index(
    acts: Seq<(ActionType, Seq<Tile>)>,
    idxs: Seq<Index>,
    act: (ActionType, Seq<Tile>),
) -> Option<usize> {
    if act.0 == ActionType::Discard || act.0 == ActionType::Riichi {
        if act.1.len() > 0 && act.1[0].in_table() {
            Some(0usize)
        } else {
            None
        }
    } else {
        match position_of(acts, act) {
            Some(i) => if i < idxs.len() {
                Some(idxs[i])
            } else {
                None
            },
            None => None,
        }
    }
}

fn numbered(prefix: &str, n: usize) -> (r: String)
    ensures
        r@ == prefix@ + decimal(n as nat) + ")"@,
{
    let mut r = String::from_str(prefix);
    let d = usize_to_string(n);
    r.append(d.as_str());
    r.append(")");
    r
}

/// The command that carries out `act` for `seat`, as a JSON string.
/// `None` where the action is not among those offered, or is a discard
/// that names no tile.
pub fn action_command(
    stg: &Stage,
    seat: Seat,
    acts: &Vec<Action>,
    idxs: &Vec<Index>,
    act: &Action,
) -> (r: Option<Value>)
    requires
        seat < SEAT,
        table_bounded(stg.players[seat as int].hand),
        stg.players[seat as int].melds.len() <= 4,
    ensures
        r is Some == combination_index(actions_view(acts@), idxs@, (act.0, act.1@)) is Some,
        r matches Some(v) ==> json_view(v) == JsonView::Str(
            command_text(
                *stg,
                seat,
                act.0,
                act.1@,
                combination_index(actions_view(acts@), idxs@, (act.0, act.1@))->0,
            ),
        ),
{
    let is_discard = act.0 == ActionType::Discard || act.0 == ActionType::Riichi;
    let arg_idx: usize = if is_discard {
        if act.1.len() == 0 {
            return None;
        }
        let t = act.1[0];
        if !(t.0 < TYPE && t.1 < TNUM) {
            return None;
        }
        0
    } else {
        match find_action(acts, act) {
            Some(i) => {
                if i < idxs.len() {
                    idxs[i]
                } else {
                    return None;
                }
            },
            None => {
                return None;
            },
        }
    };
    let text = match act.0 {
        ActionType::Nop => {
            if stg.turn == seat {
                numbered("msc.ui.action_dapai(", 13 - stg.players[seat].melds.len() * 3)
            } else {
                String::from_str("msc.ui.action_cancel()")
            }
        },
        ActionType::Discard => numbered(
            "msc.ui.action_dapai(",
            calc_dapai_index(stg, seat, act.1[0], false),
        ),
        ActionType::Ankan | ActionType::Kakan | ActionType::Minkan => numbered(
            "msc.ui.action_gang(",
            arg_idx,
        ),
        ActionType::Riichi => numbered(
            "msc.ui.action_lizhi(",
            calc_dapai_index(stg, seat, act.1[0], false),
        ),
        ActionType::Tsumo => String::from_str("msc.ui.action_zimo()"),
        ActionType::Kyushukyuhai => String::from_str("msc.ui.action_jiuzhongjiupai()"),
        ActionType::Kita => String::from_str("msc.ui.action_babei()"),
        ActionType::Chi => numbered("msc.ui.action_chi(", arg_idx),
        ActionType::Pon => numbered("msc.ui.action_peng(", arg_idx),
        ActionType::Ron => String::from_str("msc.ui.action_hu()"),
    };
    Some(json_from_string(text))
}

} // verus!
