//! The two orders in which versions are listed, and a stable sort by them.

use vstd::prelude::*;
use crate::text::{strings, texts, to_strings, to_texts};
use crate::version::{
    key_less, key_lt, key_of, lemma_key_lt_connected, lemma_key_lt_irreflexive,
    lemma_key_lt_transitive, numeric_key,
};

verus! {

/// An order in which versions are listed.
#[derive(Clone, Copy, Debug, PartialEq, Eq, Structural)]
pub enum SortOrder {
    /// By numeric key, the greatest key first.
    NewestFirst,
    /// By the characters of the text, as a dictionary orders words.
    Lexicographic,
}

/// The code points of the characters of `s`.
pub open spec fn code_points(s: Seq<char>) -> Seq<u32> {
    Seq::new(s.len(), |i: int| s[i] as u32)
}

/// `x` has to stand before `y` where a list is in the order `order`.
pub open spec fn before(order: SortOrder, x: Seq<char>, y: Seq<char>) -> bool {
    match order {
        SortOrder::NewestFirst => key_lt(numeric_key(y), numeric_key(x)),
        SortOrder::Lexicographic => key_lt(code_points(x), code_points(y)),
    }
}

/// No item of `s` has to stand before an item that precedes it.
pub open spec fn is_sorted(order: SortOrder, s: Seq<Seq<char>>) -> bool {
    forall|i: int, j: int| 0 <= i < j < s.len() ==> !before(order, #[trigger] s[j], #[trigger] s[i])
}

/// Where `x` joins the sorted list `sorted`: behind every item, counted from
/// the end, that it has to stand before, and so behind every item of equal
/// rank.
pub open spec fn insert_position(order: SortOrder, sorted: Seq<Seq<char>>, x: Seq<char>) -> nat
    decreases sorted.len(),
{
    if sorted.len() > 0 && before(order, x, sorted.last()) {
        insert_position(order, sorted.drop_last(), x)
    } else {
        sorted.len()
    }
}

/// The items of `s` in the order `order`; items of equal rank keep the order
/// in which they stand in `s`.
pub open spec fn stable_sort(order: SortOrder, s: Seq<Seq<char>>) -> Seq<Seq<char>>
    decreases s.len(),
{
    if s.len() == 0 {
        s
    } else {
        let sorted = stable_sort(order, s.drop_last());
        sorted.insert(insert_position(order, sorted, s.last()) as int, s.last())
    }
}

/// `before` is irreflexive.
pub proof fn lemma_before_irreflexive(order: SortOrder, x: Seq<char>)
    ensures
        !before(order, x, x),
{
    lemma_key_lt_irreflexive(numeric_key(x));
    lemma_key_lt_irreflexive(code_points(x));
}

/// `before` is asymmetric.
pub proof fn lemma_before_asymmetric(order: SortOrder, x: Seq<char>, y: Seq<char>)
    requires
        before(order, x, y),
    ensures
        !before(order, y, x),
{
    if before(order, y, x) {
        match order {
            SortOrder::NewestFirst => {
                lemma_key_lt_transitive(numeric_key(y), numeric_key(x), numeric_key(y));
                lemma_key_lt_irreflexive(numeric_key(y));
            },
            SortOrder::Lexicographic => {
                lemma_key_lt_transitive(code_points(x), code_points(y), code_points(x));
                lemma_key_lt_irreflexive(code_points(x));
            },
        }
    }
}

/// Where `x` need not stand before `y`, nor `y` before `z`, `x` need not
/// stand before `z`.
pub proof fn lemma_not_before_transitive(
    order: SortOrder,
    x: Seq<char>,
    y: Seq<char>,
    z: Seq<char>,
)
    requires
        !before(order, x, y),
        !before(order, y, z),
    ensures
        !before(order, x, z),
{
    if before(order, x, z) {
        match order {
            SortOrder::NewestFirst => {
                let (a, b, c) = (numeric_key(x), numeric_key(y), numeric_key(z));
                // c < a, and neither b < a nor c < b
                if key_lt(a, b) {
                    lemma_key_lt_transitive(c, a, b);
                } else {
                    lemma_key_lt_connected(a, b);
                }
            },
            SortOrder::Lexicographic => {
                let (a, b, c) = (code_points(x), code_points(y), code_points(z));
                // a < c, and neither a < b nor b < c
                if key_lt(b, a) {
                    lemma_key_lt_transitive(b, a, c);
                } else {
                    lemma_key_lt_connected(a, b);
                }
            },
        }
    }
}

/// What `insert_position` picks: every item from there on has to follow
/// `x`, and the item just in front need not.
pub proof fn lemma_insert_position(order: SortOrder, sorted: Seq<Seq<char>>, x: Seq<char>)
    ensures
        insert_position(order, sorted, x) <= sorted.len(),
        forall|k: int|
            insert_position(order, sorted, x) <= k < sorted.len() ==> before(
                order,
                x,
                #[trigger] sorted[k],
            ),
        insert_position(order, sorted, x) > 0 ==> !before(
            order,
            x,
            sorted[insert_position(order, sorted, x) - 1],
        ),
    decreases sorted.len(),
{
    if sorted.len() > 0 && before(order, x, sorted.last()) {
        let front = sorted.drop_last();
        lemma_insert_position(order, front, x);
        assert forall|k: int| insert_position(order, sorted, x) <= k < sorted.len() implies before(
            order,
            x,
            #[trigger] sorted[k],
        ) by {
            if k < front.len() {
                assert(sorted[k] == front[k]);
            }
        }
    }
}

/// Inserting at `insert_position` keeps a sorted list sorted.
pub proof fn lemma_insert_keeps_sorted(order: SortOrder, sorted: Seq<Seq<char>>, x: Seq<char>)
    requires
        is_sorted(order, sorted),
    ensures
        is_sorted(order, sorted.insert(insert_position(order, sorted, x) as int, x)),
{
    let p = insert_position(order, sorted, x) as int;
    let r = sorted.insert(p, x);
    lemma_insert_position(order, sorted, x);
    sorted.insert_ensures(p, x);
    assert forall|i: int, j: int| 0 <= i < j < r.len() implies !before(order, r[j], r[i]) by {
        if j == p {
            // r[j] is x, r[i] an item in front of the place of x
            if i < p - 1 {
                lemma_not_before_transitive(order, x, sorted[p - 1], sorted[i]);
            }
        } else if i == p {
            lemma_before_asymmetric(order, x, sorted[j - 1]);
        }
    }
}

/// A sorted list is in order.
pub proof fn lemma_stable_sort_is_sorted(order: SortOrder, s: Seq<Seq<char>>)
    ensures
        is_sorted(order, stable_sort(order, s)),
    decreases s.len(),
{
    if s.len() > 0 {
        lemma_stable_sort_is_sorted(order, s.drop_last());
        lemma_insert_keeps_sorted(order, stable_sort(order, s.drop_last()), s.last());
    }
}

/// Sorting neither adds nor loses an item: the sorted list holds each text
/// as many times as the list it was made from.
pub proof fn lemma_stable_sort_is_permutation(order: SortOrder, s: Seq<Seq<char>>)
    ensures
        stable_sort(order, s).to_multiset() == s.to_multiset(),
        stable_sort(order, s).len() == s.len(),
    decreases s.len(),
{
    broadcast use vstd::seq_lib::to_multiset_insert, vstd::seq_lib::to_multiset_build;

    if s.len() > 0 {
        let sorted = stable_sort(order, s.drop_last());
        lemma_stable_sort_is_permutation(order, s.drop_last());
        lemma_insert_position(order, sorted, s.last());
        sorted.insert_ensures(insert_position(order, sorted, s.last()) as int, s.last());
        assert(s =~= s.drop_last().push(s.last()));
    }
}

/// Sorting a list that is in order already changes nothing.
pub proof fn lemma_stable_sort_of_sorted(order: SortOrder, s: Seq<Seq<char>>)
    requires
        is_sorted(order, s),
    ensures
        stable_sort(order, s) == s,
    decreases s.len(),
{
    if s.len() > 0 {
        let front = s.drop_last();
        lemma_stable_sort_of_sorted(order, front);
    }
}

/// Whether the text `x` comes strictly before the text `y` in a dictionary.
pub fn text_less(x: &[char], y: &[char]) -> (r: bool)
    ensures
        r == key_lt(code_points(x@), code_points(y@)),
{
    let ghost a = code_points(x@);
    let ghost b = code_points(y@);
    let mut i: usize = 0;
    assert(a.skip(0) =~= a && b.skip(0) =~= b);
    while i < x.len() && i < y.len()
        invariant
            i <= x.len(),
            i <= y.len(),
            a == code_points(x@),
            b == code_points(y@),
            key_lt(a, b) == key_lt(a.skip(i as int), b.skip(i as int)),
        decreases x.len() - i,
    {
        let cx: u32 = x[i] as u32;
        let cy: u32 = y[i] as u32;
        if cx != cy {
            return cx < cy;
        }
        assert(a.skip(i as int).drop_first() =~= a.skip(i + 1));
        assert(b.skip(i as int).drop_first() =~= b.skip(i + 1));
        i += 1;
    }
    i < y.len()
}

/// Whether `x` has to stand before `y` in the order `order`.
pub fn is_before(order: SortOrder, x: &[char], y: &[char]) -> (r: bool)
    ensures
        r == before(order, x@, y@),
{
    match order {
        SortOrder::NewestFirst => {
            let kx = key_of(x);
            let ky = key_of(y);
            key_less(ky.as_slice(), kx.as_slice())
        },
        SortOrder::Lexicographic => text_less(x, y),
    }
}

/// Sorts `items` into the order `order`, keeping items of equal rank in the
/// order in which they came.
pub fn sort(items: Vec<Vec<char>>, order: SortOrder) -> (r: Vec<Vec<char>>)
    ensures
        texts(r@) == stable_sort(order, texts(items@)),
{
    let ghost all = texts(items@);
    let mut out: Vec<Vec<char>> = Vec::new();
    for x in it: items
        invariant
            it.seq() == items@,
            all == texts(items@),
            texts(out@) == stable_sort(order, all.take(it.index())),
    {
        let ghost sorted = texts(out@);
        let mut j: usize = out.len();
        assert(sorted.take(j as int) =~= sorted);
        while j > 0 && is_before(order, x.as_slice(), out[j - 1].as_slice())
            invariant
                j <= out.len(),
                sorted == texts(out@),
                insert_position(order, sorted, x@) == insert_position(
                    order,
                    sorted.take(j as int),
                    x@,
                ),
            decreases j,
        {
            assert(sorted.take(j as int).drop_last() =~= sorted.take(j - 1));
            j -= 1;
        }
        proof {
            let done = all.take(it.index() + 1);
            assert(done.drop_last() =~= all.take(it.index()));
        }
        out.insert(j, x);
    }
    assert(all.take(items@.len() as int) =~= all);
    out
}

/// The versions `versions` in the order `order`. For the numeric order of
/// a list that is in dictionary order, sort it again with
/// `SortOrder::NewestFirst`.
pub fn sort_versions(versions: &Vec<String>, order: SortOrder) -> (r: Vec<String>)
    ensures
        strings(r@) == stable_sort(order, strings(versions@)),
        is_sorted(order, strings(r@)),
        strings(r@).to_multiset() == strings(versions@).to_multiset(),
{
    proof {
        lemma_stable_sort_is_sorted(order, strings(versions@));
        lemma_stable_sort_is_permutation(order, strings(versions@));
    }
    let sorted = sort(to_texts(versions), order);
    to_strings(&sorted)
}

} // verus!
