//! Version identifiers and the numeric key by which versions are ordered.
//!
//! A version string is cut at its dots; every piece that reads as an unsigned
//! 32-bit number contributes that number to the key, and every other piece
//! is passed over. Keys are ordered as sequences: position by position, a
//! proper prefix before its extensions.

use vstd::prelude::*;
use crate::text::{
    chars_of, contains_char, contains_numeric, has_digit, has_numeric, is_digit, is_digit_char,
    split, split_on, texts,
};

verus! {

/// A text may name a release: it holds a dot and a number character. The
/// test is loose on purpose; it asks for no more.
pub open spec fn is_plausible(v: Seq<char>) -> bool {
    v.contains('.') && has_numeric(v)
}

/// The value of a decimal digit; zero for any other character.
pub open spec fn digit_value(c: char) -> nat {
    if is_digit(c) {
        (c as u32 - '0' as u32) as nat
    } else {
        0
    }
}

/// Every character of `s` is a decimal digit.
pub open spec fn all_digits(s: Seq<char>) -> bool {
    forall|i: int| 0 <= i < s.len() ==> is_digit(#[trigger] s[i])
}

/// The number that the digits of `s` write in base ten.
pub open spec fn decimal_value(s: Seq<char>) -> nat
    decreases s.len(),
{
    if s.len() == 0 {
        0
    } else {
        decimal_value(s.drop_last()) * 10 + digit_value(s.last())
    }
}

/// The number written by `s`: one or more decimal digits whose value fits in
/// 32 bits. Leading zeros are allowed.
pub open spec fn parse_number(s: Seq<char>) -> Option<u32> {
    if s.len() > 0 && all_digits(s) && decimal_value(s) <= u32::MAX {
        Some(decimal_value(s) as u32)
    } else {
        None
    }
}

/// `s` without one leading plus sign.
pub open spec fn unsigned_part(s: Seq<char>) -> Seq<char> {
    if s.len() > 0 && s[0] == '+' {
        s.drop_first()
    } else {
        s
    }
}

/// The number that one piece of a version contributes to the key, if any:
/// the piece is a number, or a plus sign followed by a number.
pub open spec fn parse_component(s: Seq<char>) -> Option<u32> {
    parse_number(unsigned_part(s))
}

/// The numbers of the pieces that parse, in order.
pub open spec fn parsed_components(parts: Seq<Seq<char>>) -> Seq<u32>
    decreases parts.len(),
{
    if parts.len() == 0 {
        Seq::<u32>::empty()
    } else {
        let before = parsed_components(parts.drop_last());
        match parse_component(parts.last()) {
            Some(n) => before.push(n),
            None => before,
        }
    }
}

/// The numeric key of a version string.
pub open spec fn numeric_key(v: Seq<char>) -> Seq<u32> {
    parsed_components(split_on(v, '.'))
}

/// `a` comes strictly before `b` in the order of keys: at the first position
/// where they differ `a` holds the smaller number, or `a` is a proper prefix
/// of `b`.
pub open spec fn key_lt(a: Seq<u32>, b: Seq<u32>) -> bool
    decreases a.len(),
{
    if b.len() == 0 {
        false
    } else if a.len() == 0 {
        true
    } else if a[0] != b[0] {
        a[0] < b[0]
    } else {
        key_lt(a.drop_first(), b.drop_first())
    }
}

/// No key comes before itself.
pub proof fn lemma_key_lt_irreflexive(a: Seq<u32>)
    ensures
        !key_lt(a, a),
    decreases a.len(),
{
    if a.len() > 0 {
        lemma_key_lt_irreflexive(a.drop_first());
    }
}

/// The order of keys is transitive.
pub proof fn lemma_key_lt_transitive(a: Seq<u32>, b: Seq<u32>, c: Seq<u32>)
    requires
        key_lt(a, b),
        key_lt(b, c),
    ensures
        key_lt(a, c),
    decreases a.len(),
{
    if a.len() > 0 && a[0] == b[0] && b[0] == c[0] {
        lemma_key_lt_transitive(a.drop_first(), b.drop_first(), c.drop_first());
    }
}

/// Of two different keys one comes before the other.
pub proof fn lemma_key_lt_connected(a: Seq<u32>, b: Seq<u32>)
    requires
        !key_lt(a, b),
        !key_lt(b, a),
    ensures
        a == b,
    decreases a.len(),
{
    if a.len() > 0 && b.len() > 0 {
        lemma_key_lt_connected(a.drop_first(), b.drop_first());
        assert(a =~= seq![a[0]] + a.drop_first());
    }
}

/// A text never writes a smaller number than one of its prefixes.
pub proof fn lemma_decimal_value_grows(s: Seq<char>, k: int)
    requires
        0 <= k <= s.len(),
    ensures
        decimal_value(s.take(k)) <= decimal_value(s),
    decreases s.len(),
{
    if k == s.len() {
        assert(s.take(k) =~= s);
    } else {
        lemma_decimal_value_grows(s.drop_last(), k);
        assert(s.drop_last().take(k) =~= s.take(k));
    }
}

/// Whether `v` may name a release. A text with a dot and a decimal digit
/// always may.
pub fn looks_like_version(v: &[char]) -> (r: bool)
    ensures
        r == is_plausible(v@),
        v@.contains('.') && has_digit(v@) ==> r,
{
    contains_char(v, '.') && contains_numeric(v)
}

/// Reads `s` as an unsigned 32-bit number written in decimal digits.
pub fn read_number(s: &[char]) -> (r: Option<u32>)
    ensures
        r == parse_number(s@),
{
    if s.len() == 0 {
        return None;
    }
    let mut acc: u32 = 0;
    let mut i: usize = 0;
    while i < s.len()
        invariant
            i <= s.len(),
            all_digits(s@.take(i as int)),
            acc == decimal_value(s@.take(i as int)),
        decreases s.len() - i,
    {
        let c = s[i];
        let ghost next = s@.take(i + 1);
        assert(next.drop_last() =~= s@.take(i as int));
        if !is_digit_char(c) {
            return None;
        }
        let d: u32 = c as u32 - '0' as u32;
        if acc > (u32::MAX - d) / 10 {
            proof {
                lemma_decimal_value_grows(s@, i + 1);
            }
            return None;
        }
        acc = acc * 10 + d;
        i += 1;
    }
    assert(s@.take(s.len() as int) =~= s@);
    Some(acc)
}

/// Reads one piece of a version: a number, with or without a leading plus
/// sign.
pub fn read_component(s: &[char]) -> (r: Option<u32>)
    ensures
        r == parse_component(s@),
{
    if s.len() > 0 && s[0] == '+' {
        let rest = vstd::slice::slice_subrange(s, 1, s.len());
        read_number(rest)
    } else {
        read_number(s)
    }
}

/// The numeric key of the version `v`.
pub fn key_of(v: &[char]) -> (r: Vec<u32>)
    ensures
        r@ == numeric_key(v@),
{
    let parts = split(v, '.');
    let mut key: Vec<u32> = Vec::new();
    let mut i: usize = 0;
    while i < parts.len()
        invariant
            i <= parts.len(),
            key@ == parsed_components(texts(parts@).take(i as int)),
        decreases parts.len() - i,
    {
        let ghost next = texts(parts@).take(i + 1);
        assert(next.drop_last() =~= texts(parts@).take(i as int));
        match read_component(parts[i].as_slice()) {
            Some(n) => {
                key.push(n);
            },
            None => {},
        }
        i += 1;
    }
    assert(texts(parts@).take(parts.len() as int) =~= texts(parts@));
    key
}

/// Whether the key `a` comes strictly before the key `b`.
pub fn key_less(a: &[u32], b: &[u32]) -> (r: bool)
    ensures
        r == key_lt(a@, b@),
{
    let mut i: usize = 0;
    assert(a@.skip(0) =~= a@ && b@.skip(0) =~= b@);
    while i < a.len() && i < b.len()
        invariant
            i <= a.len(),
            i <= b.len(),
            key_lt(a@, b@) == key_lt(a@.skip(i as int), b@.skip(i as int)),
        decreases a.len() - i,
    {
        if a[i] != b[i] {
            return a[i] < b[i];
        }
        assert(a@.skip(i as int).drop_first() =~= a@.skip(i + 1));
        assert(b@.skip(i as int).drop_first() =~= b@.skip(i + 1));
        i += 1;
    }
    i < b.len()
}

/// A release identifier `major.minor.patch`.
#[derive(Clone, Copy, Debug, PartialEq, Eq, Structural)]
pub struct VersionId {
    pub major: u32,
    pub minor: u32,
    pub patch: u32,
}

impl VersionId {
    /// The identifier that `s` writes: exactly three pieces between dots,
    /// each a number.
    pub open spec fn parse_spec(s: Seq<char>) -> Option<VersionId> {
        let parts = split_on(s, '.');
        if parts.len() == 3 && parse_number(parts[0]) is Some && parse_number(parts[1]) is Some
            && parse_number(parts[2]) is Some {
            Some(
                VersionId {
                    major: parse_number(parts[0])->0,
                    minor: parse_number(parts[1])->0,
                    patch: parse_number(parts[2])->0,
                },
            )
        } else {
            None
        }
    }

    /// The key under which the identifier is ordered.
    pub open spec fn key(self) -> Seq<u32> {
        seq![self.major, self.minor, self.patch]
    }

    /// `self` is an older release than `other`: the major numbers decide,
    /// then the minor numbers, then the patch numbers.
    pub open spec fn older_than(self, other: VersionId) -> bool {
        ||| self.major < other.major
        ||| self.major == other.major && self.minor < other.minor
        ||| self.major == other.major && self.minor == other.minor && self.patch < other.patch
    }

    /// Reads an identifier from its text.
    pub fn parse(s: &str) -> (r: Option<VersionId>)
        ensures
            r == Self::parse_spec(s@),
    {
        let chars = chars_of(s);
        let parts = split(chars.as_slice(), '.');
        if parts.len() != 3 {
            return None;
        }
        match (
            read_number(parts[0].as_slice()),
            read_number(parts[1].as_slice()),
            read_number(parts[2].as_slice()),
        ) {
            (Some(major), Some(minor), Some(patch)) => Some(VersionId { major, minor, patch }),
            _ => None,
        }
    }

    /// Whether `self` is an older release than `other`.
    pub fn is_older_than(&self, other: &VersionId) -> (r: bool)
        ensures
            r == self.older_than(*other),
    {
        self.major < other.major || (self.major == other.major && (self.minor < other.minor || (
        self.minor == other.minor && self.patch < other.patch)))
    }
}

/// A piece that is a number contributes that number to the key.
pub proof fn lemma_number_is_component(s: Seq<char>)
    requires
        parse_number(s) is Some,
    ensures
        parse_component(s) == parse_number(s),
{
}

/// The numeric key of a well-formed identifier is its three numbers.
pub proof fn lemma_key_of_version_id(s: Seq<char>)
    requires
        VersionId::parse_spec(s) is Some,
    ensures
        numeric_key(s) == VersionId::parse_spec(s)->0.key(),
{
    let parts = split_on(s, '.');
    lemma_number_is_component(parts[0]);
    lemma_number_is_component(parts[1]);
    lemma_number_is_component(parts[2]);
    let two = parts.drop_last();
    let one = two.drop_last();
    let none = one.drop_last();
    assert(parsed_components(none) =~= Seq::<u32>::empty());
    assert(parsed_components(one) =~= seq![parse_number(parts[0])->0]);
    assert(parsed_components(two) =~= seq![
        parse_number(parts[0])->0,
        parse_number(parts[1])->0,
    ]);
}

/// Between well-formed identifiers the order of keys is the order of
/// releases: (major, minor, patch) compared as numbers, so that `8.10.0`
/// is newer than `8.9.0`.
pub proof fn lemma_key_order_is_release_order(a: Seq<char>, b: Seq<char>)
    requires
        VersionId::parse_spec(a) is Some,
        VersionId::parse_spec(b) is Some,
    ensures
        key_lt(numeric_key(a), numeric_key(b)) == VersionId::parse_spec(a)->0.older_than(
            VersionId::parse_spec(b)->0,
        ),
{
    lemma_key_of_version_id(a);
    lemma_key_of_version_id(b);
    let x = VersionId::parse_spec(a)->0;
    let y = VersionId::parse_spec(b)->0;
    lemma_key_lt_of_triples(x, y);
}

/// The order of the keys of two identifiers is the order of the releases.
pub proof fn lemma_key_lt_of_triples(x: VersionId, y: VersionId)
    ensures
        key_lt(x.key(), y.key()) == x.older_than(y),
{
    let a = x.key();
    let b = y.key();
    let a1 = a.drop_first();
    let b1 = b.drop_first();
    let a2 = a1.drop_first();
    let b2 = b1.drop_first();
    let a3 = a2.drop_first();
    let b3 = b2.drop_first();
    assert(!key_lt(a3, b3));
    assert(key_lt(a2, b2) == (x.patch < y.patch));
    assert(key_lt(a1, b1) == (x.minor < y.minor || (x.minor == y.minor && x.patch < y.patch)));
}

} // verus!
