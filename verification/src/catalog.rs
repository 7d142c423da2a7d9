//! The release catalog: the versions found in a releases listing, newest
//! first, equal neighbours merged; filtered by a prefix and tagged with the
//! support status of their branch.

use vstd::prelude::*;
use crate::sorting::{
    before, is_sorted, lemma_stable_sort_is_permutation, lemma_stable_sort_is_sorted, sort,
    stable_sort, SortOrder,
};
use crate::version::{
    is_plausible, lemma_key_lt_connected, lemma_key_order_is_release_order, looks_like_version,
    numeric_key, VersionId,
};
use crate::error::Error;
use crate::text::{
    chars_of, copy_range, find, find_from, first_index, lemma_find_from, lemma_first_index,
    occurs_at, position_of, same_chars, split, split_on, strings, texts, to_strings,
};

verus! {

/// The version named on `line`, if any: the text between the first `php-`
/// and the first `.tar.gz` behind it, where that text may name a release.
pub open spec fn candidate_in(line: Seq<char>) -> Option<Seq<char>> {
    match find_from(line, "php-"@, 0) {
        Some(start) => match find_from(line, ".tar.gz"@, start + "php-"@.len()) {
            Some(end) => {
                let v = line.subrange(start + "php-"@.len(), end);
                if is_plausible(v) {
                    Some(v)
                } else {
                    None
                }
            },
            None => None,
        },
        None => None,
    }
}

/// The versions named on `lines`, one per line at most, in the order of the
/// lines.
pub open spec fn candidates(lines: Seq<Seq<char>>) -> Seq<Seq<char>>
    decreases lines.len(),
{
    if lines.len() == 0 {
        lines
    } else {
        let before = candidates(lines.drop_last());
        match candidate_in(lines.last()) {
            Some(v) => before.push(v),
            None => before,
        }
    }
}

/// The versions named in a releases listing, in the order of its lines.
/// Lines end at a line feed. A carriage return in front of it stays with the
/// line, where it is out of the way: a version ends in front of `.tar.gz`.
pub open spec fn extracted(listing: Seq<char>) -> Seq<Seq<char>> {
    candidates(split_on(listing, '\n'))
}

/// `s` with every run of equal neighbours cut down to its first item.
pub open spec fn dedup_adjacent(s: Seq<Seq<char>>) -> Seq<Seq<char>>
    decreases s.len(),
{
    if s.len() == 0 {
        s
    } else {
        let before = dedup_adjacent(s.drop_last());
        if before.len() > 0 && before.last() == s.last() {
            before
        } else {
            before.push(s.last())
        }
    }
}

/// The catalog of a releases listing: its versions, newest first, equal
/// neighbours merged.
pub open spec fn catalog_of(listing: Seq<char>) -> Seq<Seq<char>> {
    dedup_adjacent(stable_sort(SortOrder::NewestFirst, extracted(listing)))
}

/// The version `v` belongs under the prefix `prefix`: it begins with the
/// prefix and a dot.
pub open spec fn has_prefix(v: Seq<char>, prefix: Seq<char>) -> bool {
    prefix.push('.').is_prefix_of(v)
}

/// The versions of `versions` that belong under `prefix`, in their order.
pub open spec fn matching(versions: Seq<Seq<char>>, prefix: Seq<char>) -> Seq<Seq<char>> {
    versions.filter(|v: Seq<char>| has_prefix(v, prefix))
}

/// Versions of `s` that have the same numeric key are the same text.
pub open spec fn keys_tell_apart(s: Seq<Seq<char>>) -> bool {
    forall|i: int, j: int|
        0 <= i < s.len() && 0 <= j < s.len() && numeric_key(#[trigger] s[i]) == numeric_key(
            #[trigger] s[j],
        ) ==> s[i] == s[j]
}

/// Equal items of `s` stand in one run: whatever stands between two equal
/// items is equal to them.
pub open spec fn is_grouped(s: Seq<Seq<char>>) -> bool {
    forall|a: int, c: int, b: int|
        0 <= a < c < b < s.len() && #[trigger] s[a] == #[trigger] s[b] ==> #[trigger] s[c] == s[a]
}

/// Merging neighbours keeps the last item and invents none: every item of
/// the result is an item of `s`, and every item of `s` is in the result.
pub proof fn lemma_dedup_same_items(s: Seq<Seq<char>>)
    ensures
        s.len() > 0 ==> dedup_adjacent(s).len() > 0 && dedup_adjacent(s).last() == s.last(),
        forall|i: int|
            0 <= i < dedup_adjacent(s).len() ==> s.contains(#[trigger] dedup_adjacent(s)[i]),
        forall|k: int| 0 <= k < s.len() ==> dedup_adjacent(s).contains(#[trigger] s[k]),
    decreases s.len(),
{
    let d = dedup_adjacent(s);
    if s.len() > 0 {
        let front = s.drop_last();
        let kept = dedup_adjacent(front);
        lemma_dedup_same_items(front);
        assert forall|i: int| 0 <= i < d.len() implies s.contains(#[trigger] d[i]) by {}
        assert forall|k: int| 0 <= k < s.len() implies d.contains(#[trigger] s[k]) by {
            if k < front.len() {
                let j = choose|j: int| 0 <= j < kept.len() && kept[j] == front[k];
                assert(d[j] == s[k]);
            } else {
                assert(d[d.len() - 1] == s[k]);
            }
        }
    }
}

/// No two neighbours of a merged list are equal.
pub proof fn lemma_dedup_no_equal_neighbours(s: Seq<Seq<char>>)
    ensures
        forall|i: int|
            0 <= i && i + 1 < dedup_adjacent(s).len() ==> #[trigger] dedup_adjacent(s)[i]
                != dedup_adjacent(s)[i + 1],
    decreases s.len(),
{
    let d = dedup_adjacent(s);
    if s.len() > 0 {
        let kept = dedup_adjacent(s.drop_last());
        lemma_dedup_no_equal_neighbours(s.drop_last());
        assert forall|i: int| 0 <= i && i + 1 < d.len() implies #[trigger] d[i] != d[i + 1] by {}
    }
}

/// Every front part of a list in order is in order.
pub proof fn lemma_front_is_sorted(order: SortOrder, s: Seq<Seq<char>>)
    requires
        is_sorted(order, s),
        s.len() > 0,
    ensures
        is_sorted(order, s.drop_last()),
{
    let front = s.drop_last();
}

/// Merging the neighbours of a list that is in order leaves it in order.
pub proof fn lemma_dedup_keeps_sorted(order: SortOrder, s: Seq<Seq<char>>)
    requires
        is_sorted(order, s),
    ensures
        is_sorted(order, dedup_adjacent(s)),
    decreases s.len(),
{
    let d = dedup_adjacent(s);
    if s.len() > 0 {
        let front = s.drop_last();
        lemma_front_is_sorted(order, s);
        lemma_dedup_keeps_sorted(order, front);
        lemma_dedup_same_items(front);
        assert forall|i: int, j: int| 0 <= i < j < d.len() implies !before(
            order,
            #[trigger] d[j],
            #[trigger] d[i],
        ) by {}
    }
}

/// In a grouped list, merging neighbours leaves every text once.
pub proof fn lemma_dedup_of_grouped(s: Seq<Seq<char>>)
    requires
        is_grouped(s),
    ensures
        dedup_adjacent(s).no_duplicates(),
    decreases s.len(),
{
    let d = dedup_adjacent(s);
    if s.len() > 0 {
        let front = s.drop_last();
        let kept = dedup_adjacent(front);
        assert(is_grouped(front)) by {
            assert forall|a: int, c: int, b: int|
                0 <= a < c < b < front.len() && #[trigger] front[a]
                    == #[trigger] front[b] implies #[trigger] front[c] == front[a] by {}
        }
        lemma_dedup_of_grouped(front);
        lemma_dedup_same_items(front);
        if !(kept.len() > 0 && kept.last() == s.last()) {
            // if an earlier item were equal to the last one, all between would be
            assert forall|i: int, j: int| 0 <= i < j < d.len() implies d[i] != d[j] by {}
        }
    }
}

/// A list in the order newest-first whose keys tell its texts apart is
/// grouped.
pub proof fn lemma_sorted_is_grouped(s: Seq<Seq<char>>)
    requires
        is_sorted(SortOrder::NewestFirst, s),
        keys_tell_apart(s),
    ensures
        is_grouped(s),
{
    assert forall|a: int, c: int, b: int|
        0 <= a < c < b < s.len() && #[trigger] s[a] == #[trigger] s[b] implies #[trigger] s[c]
        == s[a] by {
        // key(a) >= key(c) >= key(b) == key(a)
        lemma_key_lt_connected(numeric_key(s[a]), numeric_key(s[c]));
    }
}

/// The catalog is in order: no version stands behind one with a smaller
/// numeric key. Keys are compared number by number, so `8.10.0` stands in
/// front of `8.9.0`.
pub proof fn lemma_catalog_newest_first(listing: Seq<char>)
    ensures
        is_sorted(SortOrder::NewestFirst, catalog_of(listing)),
{
    let found = extracted(listing);
    lemma_stable_sort_is_sorted(SortOrder::NewestFirst, found);
    lemma_dedup_keeps_sorted(SortOrder::NewestFirst, stable_sort(SortOrder::NewestFirst, found));
}

/// Of two well-formed identifiers in the catalog, the one that stands in
/// front is not the older release.
pub proof fn lemma_catalog_orders_releases(listing: Seq<char>, i: int, j: int)
    requires
        0 <= i < j < catalog_of(listing).len(),
        VersionId::parse_spec(catalog_of(listing)[i]) is Some,
        VersionId::parse_spec(catalog_of(listing)[j]) is Some,
    ensures
        !VersionId::parse_spec(catalog_of(listing)[i])->0.older_than(
            VersionId::parse_spec(catalog_of(listing)[j])->0,
        ),
{
    let listed = catalog_of(listing);
    lemma_catalog_newest_first(listing);
    lemma_key_order_is_release_order(listed[i], listed[j]);
}

/// The catalog names the versions of the listing, all of them and no other.
pub proof fn lemma_catalog_same_versions(listing: Seq<char>)
    ensures
        forall|v: Seq<char>| catalog_of(listing).contains(v) <==> extracted(listing).contains(v),
{
    broadcast use vstd::seq_lib::to_multiset_contains;

    let found = extracted(listing);
    let sorted = stable_sort(SortOrder::NewestFirst, found);
    lemma_stable_sort_is_permutation(SortOrder::NewestFirst, found);
    lemma_dedup_same_items(sorted);
    let listed = catalog_of(listing);
    assert forall|v: Seq<char>| listed.contains(v) <==> found.contains(v) by {
        assert(sorted.contains(v) <==> sorted.to_multiset().contains(v));
    }
}

/// Where the numeric keys tell the versions of a listing apart, the catalog
/// names each version once, however often the listing mentions it.
pub proof fn lemma_catalog_names_each_once(listing: Seq<char>)
    requires
        keys_tell_apart(extracted(listing)),
    ensures
        catalog_of(listing).no_duplicates(),
{
    broadcast use vstd::seq_lib::to_multiset_contains;

    let found = extracted(listing);
    let sorted = stable_sort(SortOrder::NewestFirst, found);
    lemma_stable_sort_is_sorted(SortOrder::NewestFirst, found);
    lemma_stable_sort_is_permutation(SortOrder::NewestFirst, found);
    assert(keys_tell_apart(sorted)) by {
        assert forall|i: int, j: int|
            0 <= i < sorted.len() && 0 <= j < sorted.len() && numeric_key(#[trigger] sorted[i])
                == numeric_key(#[trigger] sorted[j]) implies sorted[i] == sorted[j] by {
            assert(found.to_multiset().contains(sorted[i]));
            assert(found.to_multiset().contains(sorted[j]));
        }
    }
    lemma_sorted_is_grouped(sorted);
    lemma_dedup_of_grouped(sorted);
}

/// The version named on `line`, if any.
pub fn candidate(line: &[char]) -> (r: Option<Vec<char>>)
    ensures
        match r {
            Some(v) => candidate_in(line@) == Some(v@),
            None => candidate_in(line@) is None,
        },
{
    let opening = chars_of("php-");
    let closing = chars_of(".tar.gz");
    match find(line, opening.as_slice(), 0) {
        None => None,
        Some(start) => {
            proof {
                lemma_find_from(line@, opening@, 0);
                assert(start + opening@.len() <= line.len());
            }
            let from: usize = start + opening.len();
            match find(line, closing.as_slice(), from) {
                None => None,
                Some(end) => {
                    proof {
                        lemma_find_from(line@, closing@, from as int);
                    }
                    let v = copy_range(line, from, end);
                    if looks_like_version(v.as_slice()) {
                        Some(v)
                    } else {
                        None
                    }
                },
            }
        },
    }
}

/// The versions named in `listing`, as character vectors.
pub fn extract_texts(listing: &[char]) -> (r: Vec<Vec<char>>)
    ensures
        texts(r@) == extracted(listing@),
{
    let lines = split(listing, '\n');
    let mut out: Vec<Vec<char>> = Vec::new();
    let mut i: usize = 0;
    while i < lines.len()
        invariant
            i <= lines.len(),
            texts(out@) == candidates(texts(lines@).take(i as int)),
        decreases lines.len() - i,
    {
        let ghost next = texts(lines@).take(i + 1);
        assert(next.drop_last() =~= texts(lines@).take(i as int));
        match candidate(lines[i].as_slice()) {
            Some(v) => {
                out.push(v);
            },
            None => {},
        }
        i += 1;
    }
    assert(texts(lines@).take(lines.len() as int) =~= texts(lines@));
    out
}

/// Cuts every run of equal neighbours down to its first item.
pub fn dedup(items: Vec<Vec<char>>) -> (r: Vec<Vec<char>>)
    ensures
        texts(r@) == dedup_adjacent(texts(items@)),
{
    let ghost all = texts(items@);
    let mut out: Vec<Vec<char>> = Vec::new();
    for x in it: items
        invariant
            it.seq() == items@,
            all == texts(items@),
            texts(out@) == dedup_adjacent(all.take(it.index())),
    {
        let ghost done = all.take(it.index() + 1);
        assert(done.drop_last() =~= all.take(it.index()));
        let n = out.len();
        if n == 0 || !same_chars(out[n - 1].as_slice(), x.as_slice()) {
            out.push(x);
        }
    }
    assert(all.take(items@.len() as int) =~= all);
    out
}

/// The versions named in a releases listing, in the order of its lines.
pub fn extract(listing: &str) -> (r: Vec<String>)
    ensures
        strings(r@) == extracted(listing@),
{
    let chars = chars_of(listing);
    let found = extract_texts(chars.as_slice());
    to_strings(&found)
}

/// The catalog of a releases listing: its versions, newest first, equal
/// neighbours merged.
pub fn catalog(listing: &str) -> (r: Vec<String>)
    ensures
        strings(r@) == catalog_of(listing@),
        is_sorted(SortOrder::NewestFirst, strings(r@)),
{
    proof {
        lemma_catalog_newest_first(listing@);
    }
    let chars = chars_of(listing);
    let found = extract_texts(chars.as_slice());
    let sorted = sort(found, SortOrder::NewestFirst);
    let merged = dedup(sorted);
    to_strings(&merged)
}

/// Whether the version `v` belongs under the prefix `prefix`.
pub fn belongs_under(v: &[char], prefix: &[char]) -> (r: bool)
    ensures
        r == has_prefix(v@, prefix@),
{
    let n = prefix.len();
    if v.len() <= n {
        return false;
    }
    let head = vstd::slice::slice_subrange(v, 0, n);
    let r = same_chars(head, prefix) && v[n] == '.';
    proof {
        let p = prefix@.push('.');
        if !r && p.is_prefix_of(v@) {
            assert(v@.subrange(0, n as int) =~= prefix@) by {
                assert forall|k: int| 0 <= k < n implies v@[k] == prefix@[k] by {
                    assert(v@[k] == p[k]);
                }
            }
            assert(v@[n as int] == p[n as int]);
        }
    }
    r
}

/// The versions of `versions` that belong under `prefix`, in their order.
pub fn filter_by_prefix(versions: &Vec<String>, prefix: &str) -> (r: Vec<String>)
    ensures
        strings(r@) == matching(strings(versions@), prefix@),
{
    let wanted = chars_of(prefix);
    let ghost keep = |v: Seq<char>| has_prefix(v, prefix@);
    let mut out: Vec<String> = Vec::new();
    let mut i: usize = 0;
    proof {
        reveal(Seq::filter);
    }
    while i < versions.len()
        invariant
            i <= versions.len(),
            wanted@ == prefix@,
            keep == (|v: Seq<char>| has_prefix(v, prefix@)),
            strings(out@) == strings(versions@).take(i as int).filter(keep),
        decreases versions.len() - i,
    {
        let ghost next = strings(versions@).take(i + 1);
        proof {
            reveal(Seq::filter);
            assert(next.drop_last() =~= strings(versions@).take(i as int));
        }
        let v = chars_of(versions[i].as_str());
        if belongs_under(v.as_slice(), wanted.as_slice()) {
            out.push(versions[i].clone());
        }
        i += 1;
    }
    assert(strings(versions@).take(versions.len() as int) =~= strings(versions@));
    out
}

/// The support status of a release branch.
#[derive(Clone, Copy, Debug, PartialEq, Eq, Structural)]
pub enum Status {
    /// Supported and developed.
    Active,
    /// Long-term support.
    Lts,
    /// End of life: everything that is neither active nor long-term.
    Eol,
}

/// A version of the catalog with the status of its branch.
#[derive(Debug, PartialEq, Eq)]
pub struct CatalogEntry {
    pub version: String,
    pub status: Status,
}

/// What a look at the releases page gave.
#[derive(Debug, PartialEq, Eq)]
pub enum Fetched {
    /// The page could not be asked for at all.
    Unreachable,
    /// The transfer ended, well (`success`) or not, with `body` received.
    Completed { success: bool, body: String },
}

/// What `available` has to show.
#[derive(Debug, PartialEq, Eq)]
pub enum Availability {
    /// The page names no version: its format may have changed. A warning,
    /// no failure.
    ParseEmpty,
    /// The page names versions, but no prefix was given to pick among them.
    Unfiltered,
    /// The versions under the prefix, newest first; none where the prefix
    /// fits no version.
    Matches(Vec<CatalogEntry>),
}

/// The branch of a version: its text in front of the second dot, or all of
/// it where it has fewer than two dots.
pub open spec fn branch_of(v: Seq<char>) -> Seq<char> {
    let first = first_index(v, '.') as int;
    if first >= v.len() {
        v
    } else {
        v.take(first + 1 + first_index(v.skip(first + 1), '.'))
    }
}

/// The branch is one of those that are supported and developed.
pub open spec fn is_active_branch(branch: Seq<char>) -> bool {
    branch == "8.3"@ || branch == "8.2"@
}

/// The branch is one of those with long-term support.
pub open spec fn is_lts_branch(branch: Seq<char>) -> bool {
    branch == "8.1"@
}

/// The status of the branch of the version `v`.
pub open spec fn status_of(v: Seq<char>) -> Status {
    if is_active_branch(branch_of(v)) {
        Status::Active
    } else if is_lts_branch(branch_of(v)) {
        Status::Lts
    } else {
        Status::Eol
    }
}

/// The versions of the entries, in order.
pub open spec fn entry_versions(entries: Seq<CatalogEntry>) -> Seq<Seq<char>> {
    Seq::new(entries.len(), |i: int| entries[i].version@)
}

/// Every entry carries the status of its version's branch.
pub open spec fn all_classified(entries: Seq<CatalogEntry>) -> bool {
    forall|i: int|
        0 <= i < entries.len() ==> (#[trigger] entries[i]).status == status_of(entries[i].version@)
}

/// What has to be shown for the outcome `fetched` of the look at the
/// releases page and the prefix `filter`.
pub open spec fn shown(
    fetched: Fetched,
    filter: Option<Seq<char>>,
    result: Result<Availability, Error>,
) -> bool {
    match fetched {
        Fetched::Unreachable => result == Err::<Availability, Error>(Error::NetworkFailure),
        Fetched::Completed { success, body } => if !success {
            result == Err::<Availability, Error>(Error::NetworkFailure)
        } else if catalog_of(body@).len() == 0 {
            result == Ok::<Availability, Error>(Availability::ParseEmpty)
        } else {
            match filter {
                None => result == Ok::<Availability, Error>(Availability::Unfiltered),
                Some(prefix) => {
                    &&& result is Ok
                    &&& result->Ok_0 is Matches
                    &&& entry_versions(result->Ok_0->Matches_0@) == matching(
                        catalog_of(body@),
                        prefix,
                    )
                    &&& all_classified(result->Ok_0->Matches_0@)
                },
            }
        },
    }
}

/// The branch of the version `v`.
pub fn branch(v: &[char]) -> (r: Vec<char>)
    ensures
        r@ == branch_of(v@),
{
    let first = position_of(v, '.');
    if first >= v.len() {
        let r = copy_range(v, 0, v.len());
        r
    } else {
        let rest = vstd::slice::slice_subrange(v, first + 1, v.len());
        let second = position_of(rest, '.');
        proof {
            lemma_first_index(rest@, '.');
        }
        let r = copy_range(v, 0, first + 1 + second);
        r
    }
}

/// The status of the branch of `version`.
pub fn classify(version: &str) -> (r: Status)
    ensures
        r == status_of(version@),
{
    let chars = chars_of(version);
    let b = branch(chars.as_slice());
    if same_chars(b.as_slice(), chars_of("8.3").as_slice()) || same_chars(
        b.as_slice(),
        chars_of("8.2").as_slice(),
    ) {
        Status::Active
    } else if same_chars(b.as_slice(), chars_of("8.1").as_slice()) {
        Status::Lts
    } else {
        Status::Eol
    }
}

/// The versions of `versions`, each with the status of its branch.
pub fn classify_all(versions: Vec<String>) -> (r: Vec<CatalogEntry>)
    ensures
        entry_versions(r@) == strings(versions@),
        all_classified(r@),
{
    let mut out: Vec<CatalogEntry> = Vec::new();
    for version in it: versions
        invariant
            it.seq() == versions@,
            entry_versions(out@) == strings(versions@).take(it.index()),
            all_classified(out@),
    {
        let ghost before = entry_versions(out@);
        let status = classify(version.as_str());
        out.push(CatalogEntry { version, status });
        assert(entry_versions(out@) =~= before.push(version@));
    }
    out
}

/// Decides what `available` shows: the versions of the releases page under
/// the prefix `filter`, newest first, each with its status. A page that
/// could not be fetched is a failure; a page without versions is not.
pub fn show_available_versions(fetched: &Fetched, filter: &Option<String>) -> (r: Result<
    Availability,
    Error,
>)
    ensures
        shown(
            *fetched,
            match *filter {
                Some(prefix) => Some(prefix@),
                None => None,
            },
            r,
        ),
{
    match fetched {
        Fetched::Unreachable => Err(Error::NetworkFailure),
        Fetched::Completed { success, body } => {
            if !*success {
                return Err(Error::NetworkFailure);
            }
            let versions = catalog(body.as_str());
            if versions.len() == 0 {
                return Ok(Availability::ParseEmpty);
            }
            match filter {
                None => Ok(Availability::Unfiltered),
                Some(prefix) => {
                    let wanted = filter_by_prefix(&versions, prefix.as_str());
                    Ok(Availability::Matches(classify_all(wanted)))
                },
            }
        },
    }
}

} // verus!
