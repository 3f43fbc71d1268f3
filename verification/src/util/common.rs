//! Helpers on lists, arguments and JSON values.

use crate::model::tile::{suit_letter, Tile};
use crate::util::json::{
    json_array, json_bool, json_i64, json_items, json_str, json_view, json_views, JsonView,
};
use crate::util::text::{concat, decimal, push_char, usize_to_string};
use serde_json::Value;
use vstd::prelude::*;
use vstd::std_specs::cmp::PartialEqSpec;
use vstd::string::StringExecFns;

verus! {

/// The seconds since the start of 1970 by the system clock, if the clock
/// does not stand before 1970: `SystemTime::now`,
/// `SystemTime::duration_since` and `Duration::as_secs` of std. Nothing is
/// claimed of the value.
#[verifier::external_body]
fn clock_seconds() -> (r: Option<u64>) {
    match std::time::SystemTime::now().duration_since(std::time::UNIX_EPOCH) {
        Ok(d) => Some(d.as_secs()),
        Err(_) => None,
    }
}

/// The seconds read from a clock, and zero where it gave none.
pub fn seconds_or_zero(t: Option<u64>) -> (r: u64)
    ensures
        r == (match t {
            Some(s) => s,
            None => 0,
        }),
{
    match t {
        Some(s) => s,
        None => 0,
    }
}

/// The seconds since the start of 1970 by the system clock, and zero
/// where the clock stands before 1970.
pub fn unixtime_now() -> (r: u64) {
    seconds_or_zero(clock_seconds())
}

/// The message for an option that lacks its value.
pub open spec fn value_missing(opt: Seq<char>) -> Seq<char> {
    opt + ": value missing"@
}

/// The value of the option `opt`: the argument at `pos`, which moves on by
/// one. Where the arguments have ended, the error says that the value is
/// missing, and `pos` stays.
pub fn next_value(args: &Vec<String>, pos: &mut usize, opt: &str) -> (r: Result<String, String>)
    ensures
        match r {
            Ok(v) => *old(pos) < args.len() && v@ == args[*old(pos) as int]@ && *final(pos)
                == *old(pos) + 1,
            Err(e) => *old(pos) >= args.len() && e@ == value_missing(opt@) && *final(pos) == *old(
                pos,
            ),
        },
{
    if *pos < args.len() {
        let v = args[*pos].clone();
        *pos = *pos + 1;
        Ok(v)
    } else {
        Err(concat(opt, ": value missing"))
    }
}

/// Whether `i` is the first place in `s` whose item equals `e`.
pub open spec fn first_equal<T: PartialEq>(s: Seq<T>, e: T, i: int) -> bool {
    &&& 0 <= i < s.len()
    &&& s[i].eq_spec(&e)
    &&& forall|k: int| 0 <= k < i ==> !(#[trigger] s[k]).eq_spec(&e)
}

/// Removes the first item that equals `e`.
pub fn vec_remove<T: PartialEq>(v: &mut Vec<T>, e: &T)
    requires
        T::obeys_eq_spec(),
        exists|i: int| 0 <= i < old(v).len() && (#[trigger] old(v)[i]).eq_spec(e),
    ensures
        exists|i: int| first_equal(old(v)@, *e, i) && final(v)@ == old(v)@.remove(i),
{
    let mut i: usize = 0;
    while i < v.len()
        invariant
            i <= v.len(),
            v@ == old(v)@,
            T::obeys_eq_spec(),
            exists|k: int| 0 <= k < v.len() && (#[trigger] v[k]).eq_spec(e),
            forall|k: int| 0 <= k < i ==> !(#[trigger] v[k]).eq_spec(e),
        decreases v.len() - i,
    {
        if v[i] == *e {
            assert(first_equal(old(v)@, *e, i as int));
            v.remove(i);
            return ;
        }
        i += 1;
    }
    proof {
        let k = choose|k: int| 0 <= k < v.len() && (#[trigger] v[k]).eq_spec(e);
        assert(!v[k].eq_spec(e));
    }
}

/// The text of a tile: the letter of its suit, then its rank.
pub open spec fn tile_text(t: Tile) -> Seq<char> {
    seq![suit_letter(t.0)] + decimal(t.1 as nat)
}

/// The texts of the tiles, with a blank between each two.
pub open spec fn tiles_text(v: Seq<Tile>) -> Seq<char>
    decreases v.len(),
{
    if v.len() == 0 {
        Seq::empty()
    } else if v.len() == 1 {
        tile_text(v[0])
    } else {
        tiles_text(v.drop_last()) + seq![' '] + tile_text(v.last())
    }
}

/// The text of a tile.
pub fn tile_to_string(t: Tile) -> (r: String)
    ensures
        r@ == tile_text(t),
{
    let mut r = String::new();
    let c = if t.0 == 0 {
        'm'
    } else if t.0 == 1 {
        'p'
    } else if t.0 == 2 {
        's'
    } else {
        'z'
    };
    push_char(&mut r, c);
    let n = usize_to_string(t.1);
    r.append(n.as_str());
    r
}

/// The texts of the tiles, with a blank between each two.
pub fn vec_to_string(v: &Vec<Tile>) -> (r: String)
    ensures
        r@ == tiles_text(v@),
{
    let mut r = String::new();
    let mut i: usize = 0;
    proof {
        assert(v@.take(0) =~= Seq::<Tile>::empty());
    }
    while i < v.len()
        invariant
            i <= v.len(),
            r@ == tiles_text(v@.take(i as int)),
        decreases v.len() - i,
    {
        proof {
            assert(v@.take(i + 1).drop_last() =~= v@.take(i as int));
            assert(v@.take(i + 1).last() == v@[i as int]);
            assert(v@.take(i + 1)[0] == v@[0]);
        }
        if i > 0 {
            push_char(&mut r, ' ');
        }
        let t = tile_to_string(v[i]);
        r.append(t.as_str());
        i += 1;
    }
    assert(v@.take(v.len() as int) == v@);
    r
}

/// Whether the score at `i` ranks before the score at `j`: it is higher,
/// or it is as high and stands first.
pub open spec fn ranks_before(v: Seq<i32>, i: int, j: int) -> bool {
    v[i] > v[j] || (v[i] == v[j] && i < j)
}

/// Whether `r` lists the places of `v` by rank: every place once, each
/// ranking before those that follow.
pub open spec fn is_ranking(v: Seq<i32>, r: Seq<usize>) -> bool {
    &&& r.len() == v.len()
    &&& forall|a: int| 0 <= a < r.len() ==> (#[trigger] r[a]) < v.len()
    &&& forall|a: int, b: int| 0 <= a < b < r.len() ==> ranks_before(v, r[a] as int, r[b] as int)
    &&& forall|i: int| 0 <= i < v.len() ==> #[trigger] occurs(r, i)
}

/// Whether the place `i` is listed in `r`.
pub open spec fn occurs(r: Seq<usize>, i: int) -> bool {
    exists|a: int| 0 <= a < r.len() && #[trigger] r[a] == i
}

/// The places of the scores by rank: the place of the highest score
/// first; of equal scores, the one that stands first.
pub fn rank_by_index_vec(v: &Vec<i32>) -> (r: Vec<usize>)
    ensures
        is_ranking(v@, r@),
{
    let mut r: Vec<usize> = Vec::new();
    let mut i: usize = 0;
    while i < v.len()
        invariant
            i <= v.len(),
            r.len() == i,
            forall|a: int| 0 <= a < r.len() ==> (#[trigger] r[a]) < i,
            forall|a: int, b: int|
                0 <= a < b < r.len() ==> ranks_before(v@, r[a] as int, r[b] as int),
            forall|k: int| 0 <= k < i ==> #[trigger] occurs(r@, k),
        decreases v.len() - i,
    {
        let mut p: usize = 0;
        while p < r.len() && v[r[p]] >= v[i]
            invariant
                p <= r.len(),
                i < v.len(),
                forall|a: int| 0 <= a < r.len() ==> (#[trigger] r[a]) < i,
                forall|a: int| 0 <= a < p ==> v@[r[a] as int] >= v@[i as int],
            decreases r.len() - p,
        {
            p += 1;
        }
        let ghost before = r@;
        r.insert(p, i);
        proof {
            let after = r@;
            assert forall|a: int, b: int| 0 <= a < b < after.len() implies ranks_before(
                v@,
                after[a] as int,
                after[b] as int,
            ) by {
                if b < p {
                    assert(after[a] == before[a] && after[b] == before[b]);
                } else if b == p {
                    assert(after[a] == before[a]);
                } else if a < p {
                    assert(after[a] == before[a] && after[b] == before[b - 1]);
                } else if a == p {
                    assert(after[b] == before[b - 1]);
                    assert(p < before.len());
                    assert(v@[before[p as int] as int] < v@[i as int]);
                    assert(p == b - 1 || ranks_before(
                        v@,
                        before[p as int] as int,
                        before[b - 1] as int,
                    ));
                } else {
                    assert(after[a] == before[a - 1] && after[b] == before[b - 1]);
                }
            }
            assert forall|k: int| 0 <= k < i + 1 implies #[trigger] occurs(after, k) by {
                if k == i {
                    assert(after[p as int] == k);
                } else {
                    assert(occurs(before, k));
                    let a0 = choose|a: int| 0 <= a < before.len() && #[trigger] before[a] == k;
                    if a0 < p {
                        assert(after[a0] == k);
                    } else {
                        assert(after[a0 + 1] == k);
                    }
                }
            }
            assert forall|a: int| 0 <= a < after.len() implies (#[trigger] after[a]) < i + 1 by {
                if a < p {
                    assert(after[a] == before[a]);
                } else if a > p {
                    assert(after[a] == before[a - 1]);
                }
            }
        }
        i += 1;
    }
    r
}

/// Whether `res` gives each place of `v` its rank: the ranks are below the
/// number of places, and one place has a lower rank than another just
/// when it ranks before it.
pub open spec fn is_rank_of_each(v: Seq<i32>, res: Seq<usize>) -> bool {
    &&& res.len() == v.len()
    &&& forall|i: int| 0 <= i < res.len() ==> (#[trigger] res[i]) < v.len()
    &&& forall|i: int, j: int|
        0 <= i < res.len() && 0 <= j < res.len() && i != j ==> ((#[trigger] res[i]) < (
        #[trigger] res[j])) == ranks_before(v, i, j)
}

/// The rank of each score: 0 for the highest; of equal scores, the one
/// that stands first has the lower rank.
pub fn rank_by_rank_vec(v: &Vec<i32>) -> (res: Vec<usize>)
    ensures
        is_rank_of_each(v@, res@),
{
    let idx = rank_by_index_vec(v);
    let n = v.len();
    let mut res: Vec<usize> = Vec::new();
    let mut k: usize = 0;
    while k < n
        invariant
            k <= n,
            res.len() == k,
        decreases n - k,
    {
        res.push(0);
        k += 1;
    }
    let mut a: usize = 0;
    while a < n
        invariant
            a <= n,
            n == v.len(),
            res.len() == n,
            is_ranking(v@, idx@),
            forall|b: int| 0 <= b < a ==> res@[(#[trigger] idx@[b]) as int] == b,
        decreases n - a,
    {
        let i = idx[a];
        let ghost before = res@;
        res[i] = a;
        proof {
            assert forall|b: int| 0 <= b < a + 1 implies res@[(#[trigger] idx@[b]) as int] == b by {
                if b < a {
                    assert(ranks_before(v@, idx@[b] as int, idx@[a as int] as int));
                    assert(idx@[b] != i);
                    assert(before[idx@[b] as int] == b);
                }
            }
        }
        a += 1;
    }
    proof {
        assert forall|i: int| 0 <= i < res.len() implies (#[trigger] res@[i]) < v.len() by {
            assert(occurs(idx@, i));
            let a0 = choose|a: int| 0 <= a < idx@.len() && #[trigger] idx@[a] == i;
            assert(res@[idx@[a0] as int] == a0);
        }
        assert forall|i: int, j: int|
            0 <= i < res.len() && 0 <= j < res.len() && i != j implies ((#[trigger] res@[i]) < (
            #[trigger] res@[j])) == ranks_before(v@, i, j) by {
            assert(occurs(idx@, i));
            assert(occurs(idx@, j));
            let a0 = choose|a: int| 0 <= a < idx@.len() && #[trigger] idx@[a] == i;
            let b0 = choose|a: int| 0 <= a < idx@.len() && #[trigger] idx@[a] == j;
            assert(res@[idx@[a0] as int] == a0);
            assert(res@[idx@[b0] as int] == b0);
            if a0 < b0 {
                assert(ranks_before(v@, idx@[a0] as int, idx@[b0] as int));
            } else if b0 < a0 {
                assert(ranks_before(v@, idx@[b0] as int, idx@[a0] as int));
            }
        }
    }
    res
}

/// The integer of a value, as a `usize`. An integer out of the range of
/// `usize` keeps its low bits.
pub fn as_usize(v: &Value) -> (r: usize)
    requires
        json_view(*v) is Int,
    ensures
        r == json_view(*v)->Int_0 as usize,
{
    match json_i64(v) {
        Some(n) => {
            #[verifier::truncate]
            (n as usize)
        },
        None => 0,
    }
}

/// The integer of a value, as an `i32`. An integer out of the range of
/// `i32` keeps its low bits.
pub fn as_i32(v: &Value) -> (r: i32)
    requires
        json_view(*v) is Int,
    ensures
        r == json_view(*v)->Int_0 as i32,
{
    match json_i64(v) {
        Some(n) => {
            #[verifier::truncate]
            (n as i32)
        },
        None => 0,
    }
}

/// The text of a value that is a string.
pub fn as_str(v: &Value) -> (r: &str)
    requires
        json_view(*v) is Str,
    ensures
        json_view(*v) == JsonView::Str(r@),
{
    match json_str(v) {
        Some(s) => s,
        None => "",
    }
}

/// The truth value of a value that is a boolean.
pub fn as_bool(v: &Value) -> (r: bool)
    requires
        json_view(*v) is Bool,
    ensures
        json_view(*v) == JsonView::Bool(r),
{
    match json_bool(v) {
        Some(b) => b,
        None => false,
    }
}

/// The items of a value that is an array.
pub fn as_array(v: &Value) -> (r: Option<&Vec<Value>>)
    ensures
        r is Some == json_view(*v) is Array,
        r matches Some(a) ==> a@ == json_items(*v) && json_view(*v) == JsonView::Array(
            json_views(a@),
        ),
{
    json_array(v)
}

/// What `f` makes of each item of a value that is an array.
pub fn as_vec<F: Fn(&Value) -> T, T>(f: F, v: &Value) -> (r: Vec<T>)
    requires
        json_view(*v) is Array,
        forall|i: int| 0 <= i < json_items(*v).len() ==> f.requires((&#[trigger] json_items(*v)[i],)),
    ensures
        r.len() == json_items(*v).len(),
        forall|i: int| 0 <= i < r.len() ==> f.ensures((&json_items(*v)[i],), #[trigger] r[i]),
{
    let mut r: Vec<T> = Vec::new();
    match json_array(v) {
        Some(items) => {
            let mut i: usize = 0;
            while i < items.len()
                invariant
                    i <= items.len(),
                    items@ == json_items(*v),
                    r.len() == i,
                    forall|k: int|
                        0 <= k < items.len() ==> f.requires((&#[trigger] json_items(*v)[k],)),
                    forall|k: int| 0 <= k < i ==> f.ensures((&json_items(*v)[k],), #[trigger] r[k]),
                decreases items.len() - i,
            {
                r.push(f(&items[i]));
                i += 1;
            }
        },
        None => {},
    }
    r
}

/// The rows with each item of `xs` added at the end: for each row in
/// turn, one row for each item.
pub open spec fn extend_rows<T>(rows: Seq<Seq<T>>, xs: Seq<T>) -> Seq<Seq<T>> {
    Seq::new(rows.len() * xs.len(), |k: int| rows[k / (xs.len() as int)].push(xs[k % (xs.len() as int)]))
}

/// All ways to take one item from each list, in the order in which the
/// last list turns fastest.
pub open spec fn product_rows<T>(vv: Seq<Seq<T>>) -> Seq<Seq<T>>
    decreases vv.len(),
{
    if vv.len() == 0 {
        seq![Seq::empty()]
    } else {
        extend_rows(product_rows(vv.drop_last()), vv.last())
    }
}

/// The items of each list.
pub open spec fn lists_view<T>(vv: Seq<Vec<T>>) -> Seq<Seq<T>> {
    Seq::new(vv.len(), |i: int| vv[i]@)
}

/// Whether the rows refer to the items of `want`, row by row.
pub open spec fn rows_are<T>(rows: Seq<Vec<&T>>, want: Seq<Seq<T>>) -> bool {
    &&& rows.len() == want.len()
    &&& forall|k: int| 0 <= k < rows.len() ==> row_is(#[trigger] rows[k]@, want[k])
}

/// Whether the row refers to the items of `want`.
pub open spec fn row_is<T>(row: Seq<&T>, want: Seq<T>) -> bool {
    &&& row.len() == want.len()
    &&& forall|j: int| 0 <= j < row.len() ==> *(#[trigger] row[j]) == want[j]
}

fn extended<'a, T>(row: &Vec<&'a T>, x: &'a T) -> (r: Vec<&'a T>)
    ensures
        r@ == row@.push(x),
{
    let mut r: Vec<&'a T> = Vec::new();
    let mut j: usize = 0;
    while j < row.len()
        invariant
            j <= row.len(),
            r@ == row@.take(j as int),
        decreases row.len() - j,
    {
        r.push(row[j]);
        assert(row@.take(j + 1) == row@.take(j as int).push(row@[j as int]));
        j += 1;
    }
    assert(row@.take(row.len() as int) == row@);
    r.push(x);
    r
}

/// All ways to take one item from each list, each as a row of references.
pub fn cartesian_product<'a, T>(vv: &'a Vec<Vec<T>>) -> (res: Vec<Vec<&'a T>>)
    requires
        vv.len() > 0,
        forall|i: int| 0 <= i < vv.len() ==> (#[trigger] vv[i]).len() > 0,
    ensures
        rows_are(res@, product_rows(lists_view(vv@))),
{
    let ghost lists = lists_view(vv@);
    let mut rows: Vec<Vec<&'a T>> = Vec::new();
    rows.push(Vec::new());
    let mut i: usize = 0;
    proof {
        assert(lists.take(0) =~= Seq::<Seq<T>>::empty());
        assert(row_is(rows@[0]@, product_rows(lists.take(0))[0]));
    }
    while i < vv.len()
        invariant
            i <= vv.len(),
            lists == lists_view(vv@),
            forall|k: int| 0 <= k < vv.len() ==> (#[trigger] vv[k]).len() > 0,
            rows_are(rows@, product_rows(lists.take(i as int))),
        decreases vv.len() - i,
    {
        let xs = &vv[i];
        let n = xs.len();
        let ghost prev = product_rows(lists.take(i as int));
        let ghost want = extend_rows(prev, xs@);
        proof {
            assert(lists.take(i + 1).drop_last() =~= lists.take(i as int));
            assert(lists.take(i + 1).last() == xs@);
            assert(product_rows(lists.take(i + 1)) == want);
        }
        let mut next: Vec<Vec<&'a T>> = Vec::new();
        let mut r: usize = 0;
        while r < rows.len()
            invariant
                r <= rows.len(),
                n == xs.len(),
                n > 0,
                rows_are(rows@, prev),
                want == extend_rows(prev, xs@),
                next.len() == r * n,
                forall|k: int| 0 <= k < next.len() ==> row_is(#[trigger] next@[k]@, want[k]),
            decreases rows.len() - r,
        {
            let mut c: usize = 0;
            while c < n
                invariant
                    r < rows.len(),
                    c <= n,
                    n == xs.len(),
                    n > 0,
                    rows_are(rows@, prev),
                    want == extend_rows(prev, xs@),
                    next.len() == r * n + c,
                    forall|k: int| 0 <= k < next.len() ==> row_is(#[trigger] next@[k]@, want[k]),
                decreases n - c,
            {
                let row = extended(&rows[r], &xs[c]);
                proof {
                    let k = r * n + c;
                    vstd::arithmetic::div_mod::lemma_fundamental_div_mod_converse(
                        k as int,
                        n as int,
                        r as int,
                        c as int,
                    );
                    assert(k / (n as int) == r && k % (n as int) == c);
                    assert(k < rows.len() * n) by (nonlinear_arith)
                        requires
                            k == r * n + c,
                            c < n,
                            r < rows.len(),
                    ;
                    assert(row_is(rows@[r as int]@, prev[r as int]));
                    assert(want[k] == prev[r as int].push(xs@[c as int]));
                    assert(row_is(row@, want[k]));
                }
                next.push(row);
                c += 1;
            }
            proof {
                assert((r + 1) * n == r * n + n) by (nonlinear_arith);
            }
            r += 1;
        }
        rows = next;
        i += 1;
    }
    assert(lists.take(vv.len() as int) == lists);
    rows
}

} // verus!
