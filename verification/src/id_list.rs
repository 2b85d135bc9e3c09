//! Lists of identifiers stored as comma-separated text.
//!
//! A tag's apps are read as one text column that joins their identifiers
//! with commas. The empty text is the empty list; otherwise the text is split
//! at every comma and each piece is read as a decimal `i64`, with an optional
//! `+` or `-` sign, as `str::parse::<i64>` reads it. A text with a piece
//! that is no `i64` is no list of identifiers.
use vstd::prelude::*;
use vstd::string::StringSliceAdditionalSpecFns;

use crate::entities::Id;
use crate::infused::RefVec;

verus! {

/// The byte of an ASCII comma.
pub open spec fn is_comma(b: u8) -> bool {
    b == 44
}

/// The byte of an ASCII decimal digit.
pub open spec fn is_digit(b: u8) -> bool {
    48 <= b <= 57
}

/// A non-empty run of decimal digits.
pub open spec fn all_digits(d: Seq<u8>) -> bool {
    d.len() > 0 && forall|i: int| 0 <= i < d.len() ==> is_digit(#[trigger] d[i])
}

/// The value of a run of decimal digits.
pub open spec fn digits_value(d: Seq<u8>) -> int
    decreases d.len(),
{
    if d.len() == 0 {
        0
    } else {
        digits_value(d.drop_last()) * 10 + (d.last() - 48)
    }
}

/// The integer that a piece spells: decimal digits with an optional sign.
pub open spec fn token_value(t: Seq<u8>) -> Option<int> {
    if t.len() > 0 && t[0] == 45 && all_digits(t.drop_first()) {
        Some(-digits_value(t.drop_first()))
    } else if t.len() > 0 && t[0] == 43 && all_digits(t.drop_first()) {
        Some(digits_value(t.drop_first()))
    } else if all_digits(t) {
        Some(digits_value(t))
    } else {
        None
    }
}

/// The identifier that a piece spells, when it spells an `i64`.
pub open spec fn token_id(t: Seq<u8>) -> Option<Id> {
    match token_value(t) {
        Some(v) => if i64::MIN <= v <= i64::MAX {
            Some(v as i64)
        } else {
            None
        },
        None => None,
    }
}

/// The pieces of the text between its commas; a text with `n` commas has
/// `n + 1` pieces.
pub open spec fn split_commas(s: Seq<u8>) -> Seq<Seq<u8>>
    decreases s.len(),
{
    if s.len() == 0 {
        seq![Seq::empty()]
    } else {
        let p = split_commas(s.drop_last());
        if is_comma(s.last()) {
            p.push(Seq::empty())
        } else {
            p.update(p.len() - 1, p.last().push(s.last()))
        }
    }
}

/// The identifiers that the text lists, or `None` when a piece is no `i64`.
pub open spec fn id_list(s: Seq<u8>) -> Option<Seq<Id>> {
    if s.len() == 0 {
        Some(Seq::empty())
    } else if forall|i: int| 0 <= i < split_commas(s).len() ==> (#[trigger] token_id(split_commas(s)[i])) is Some {
        Some(split_commas(s).map_values(|t: Seq<u8>| token_id(t)->0))
    } else {
        None
    }
}

proof fn lemma_split_commas_nonempty(s: Seq<u8>)
    ensures
        split_commas(s).len() >= 1,
    decreases s.len(),
{
    if s.len() > 0 {
        lemma_split_commas_nonempty(s.drop_last());
    }
}

/// The pieces of `b[..i]` as the ranges of the complete pieces and the start
/// of the last one.
spec fn pieces_of(b: Seq<u8>, ranges: Seq<(usize, usize)>, cur: int, i: int) -> Seq<Seq<u8>> {
    ranges.map_values(|r: (usize, usize)| b.subrange(r.0 as int, r.1 as int)).push(b.subrange(cur, i))
}

/// Every range lies within `0..n`.
spec fn ranges_within(r: Seq<(usize, usize)>, n: int) -> bool {
    forall|k: int| 0 <= k < r.len() ==> #[trigger] r[k].0 <= r[k].1 <= n
}

/// Splits `b` at its commas into the ranges of its pieces.
fn split_ranges(b: &[u8]) -> (r: Vec<(usize, usize)>)
    ensures
        r@.map_values(|p: (usize, usize)| b@.subrange(p.0 as int, p.1 as int)) == split_commas(b@),
        ranges_within(r@, b@.len() as int),
{
    let mut ranges: Vec<(usize, usize)> = Vec::new();
    let mut cur: usize = 0;
    let mut i: usize = 0;
    assert(b@.take(0) =~= Seq::<u8>::empty());
    assert(pieces_of(b@, ranges@, 0, 0) =~= seq![Seq::<u8>::empty()]);
    while i < b.len()
        invariant
            cur <= i <= b.len(),
            ranges_within(ranges@, b@.len() as int),
            split_commas(b@.take(i as int)) == pieces_of(b@, ranges@, cur as int, i as int),
        decreases b.len() - i,
    {
        let ghost old_ranges = ranges@;
        proof {
            let t = b@.take(i + 1);
            assert(t.drop_last() =~= b@.take(i as int));
            assert(t.last() == b@[i as int]);
        }
        if b[i] == 44 {
            ranges.push((cur, i));
            proof {
                assert(ranges@.map_values(|p: (usize, usize)| b@.subrange(p.0 as int, p.1 as int)) =~= old_ranges.map_values(
                    |p: (usize, usize)| b@.subrange(p.0 as int, p.1 as int),
                ).push(b@.subrange(cur as int, i as int)));
                assert(b@.subrange(i + 1, i + 1) =~= Seq::<u8>::empty());
                assert(pieces_of(b@, ranges@, i + 1, i + 1) =~= pieces_of(b@, old_ranges, cur as int, i as int).push(
                    Seq::empty(),
                ));
            }
            cur = i + 1;
        } else {
            proof {
                let p = pieces_of(b@, ranges@, cur as int, i as int);
                assert(b@.subrange(cur as int, i + 1) =~= b@.subrange(cur as int, i as int).push(b@[i as int]));
                assert(pieces_of(b@, ranges@, cur as int, i + 1) =~= p.update(p.len() - 1, p.last().push(b@[i as int])));
            }
        }
        i = i + 1;
    }
    let ghost complete = ranges@;
    ranges.push((cur, i));
    proof {
        assert forall|k: int| 0 <= k < ranges@.len() implies #[trigger] ranges@[k].0 <= ranges@[k].1 <= b@.len() as int by {
            if k < complete.len() {
                assert(ranges@[k] == complete[k]);
            }
        }
        assert(ranges_within(ranges@, b@.len() as int));
        assert(b@.take(b.len() as int) =~= b@);
        assert(ranges@.map_values(|p: (usize, usize)| b@.subrange(p.0 as int, p.1 as int)) =~= pieces_of(
            b@,
            ranges@.drop_last(),
            cur as int,
            i as int,
        ));
    }
    ranges
}

proof fn lemma_digits_push(d: Seq<u8>, x: u8)
    ensures
        digits_value(d.push(x)) == digits_value(d) * 10 + (x - 48),
{
    assert(d.push(x).drop_last() =~= d);
}

proof fn lemma_digits_nonneg(d: Seq<u8>)
    requires
        forall|i: int| 0 <= i < d.len() ==> is_digit(#[trigger] d[i]),
    ensures
        digits_value(d) >= 0,
    decreases d.len(),
{
    if d.len() > 0 {
        lemma_digits_nonneg(d.drop_last());
    }
}

/// Reads `b[lo..hi]` as an identifier.
fn parse_id(b: &[u8], lo: usize, hi: usize) -> (r: Option<Id>)
    requires
        lo <= hi <= b@.len(),
    ensures
        r == token_id(b@.subrange(lo as int, hi as int)),
{
    let ghost t = b@.subrange(lo as int, hi as int);
    let mut i = lo;
    let mut negative = false;
    let mut signed = false;
    if i < hi && (b[i] == 45 || b[i] == 43) {
        negative = b[i] == 45;
        signed = true;
        i = i + 1;
    }
    let ds = i;
    let ghost d = b@.subrange(ds as int, hi as int);
    proof {
        if lo < hi {
            assert(t[0] == b@[lo as int]);
        }
        if signed {
            assert(d =~= t.drop_first());
        } else {
            assert(d =~= t);
        }
    }
    assert(token_value(t) == if all_digits(d) {
        Some(if negative { -digits_value(d) } else { digits_value(d) })
    } else {
        None::<int>
    });
    if i == hi {
        assert(!all_digits(d));
        return None;
    }
    // the magnitude, exact while at most 2^63
    let mut acc: u128 = 0;
    let mut over = false;
    while i < hi
        invariant
            ds <= i <= hi <= b@.len(),
            d == b@.subrange(ds as int, hi as int),
            t == b@.subrange(lo as int, hi as int),
            token_value(t) == if all_digits(d) {
                Some(if negative { -digits_value(d) } else { digits_value(d) })
            } else {
                None::<int>
            },
            forall|k: int| ds <= k < i ==> is_digit(#[trigger] b@[k]),
            !over ==> acc == digits_value(b@.subrange(ds as int, i as int)) && acc <= 0x8000_0000_0000_0000,
            over ==> digits_value(b@.subrange(ds as int, i as int)) > 0x8000_0000_0000_0000,
        decreases hi - i,
    {
        let c = b[i];
        if c < 48 || c > 57 {
            assert(d[i - ds] == c);
            assert(!all_digits(d));
            return None;
        }
        proof {
            let p = b@.subrange(ds as int, i as int);
            assert(b@.subrange(ds as int, i + 1) =~= p.push(c));
            lemma_digits_push(p, c);
            lemma_digits_nonneg(p);
        }
        if !over {
            acc = acc * 10 + (c - 48) as u128;
            if acc > 0x8000_0000_0000_0000 {
                over = true;
            }
        }
        i = i + 1;
    }
    proof {
        assert(b@.subrange(ds as int, hi as int) =~= d);
        assert(all_digits(d));
    }
    if over {
        return None;
    }
    if negative {
        let v: i128 = -(acc as i128);
        Some(v as i64)
    } else if acc <= 0x7fff_ffff_ffff_ffff {
        Some(acc as i64)
    } else {
        None
    }
}

/// Reads the identifiers that the text lists; `None` when a piece between its
/// commas is not an `i64`.
fn read_id_list(text: &str) -> (r: Option<RefVec>)
    ensures
        r is Some <==> id_list(text.spec_bytes()) is Some,
        r is Some ==> (r->0).0@ == id_list(text.spec_bytes())->0,
{
    let b = text.as_bytes();
    if b.len() == 0 {
        assert(id_list(text.spec_bytes()) == Some(Seq::<Id>::empty()));
        return Some(RefVec(Vec::new()));
    }
    let ranges = split_ranges(b);
    let ghost pieces = split_commas(b@);
    let mut ids: Vec<Id> = Vec::new();
    let mut k: usize = 0;
    while k < ranges.len()
        invariant
            k <= ranges@.len() == pieces.len(),
            pieces == split_commas(b@),
            b@ == text.spec_bytes(),
            b@.len() > 0,
            ranges@.map_values(|p: (usize, usize)| b@.subrange(p.0 as int, p.1 as int)) == pieces,
            ranges_within(ranges@, b@.len() as int),
            ids@.len() == k,
            forall|j: int| 0 <= j < k ==> token_id(#[trigger] pieces[j]) == Some(ids@[j]),
        decreases ranges.len() - k,
    {
        let (lo, hi) = ranges[k];
        assert(pieces[k as int] == b@.subrange(lo as int, hi as int));
        match parse_id(b, lo, hi) {
            Some(id) => {
                ids.push(id);
            },
            None => {
                proof {
                    let s = text.spec_bytes();
                    assert(token_id(split_commas(s)[k as int]) is None);
                }
                return None;
            },
        }
        k = k + 1;
    }
    proof {
        assert(ids@ =~= pieces.map_values(|t: Seq<u8>| token_id(t)->0));
    }
    Some(RefVec(ids))
}


/// The text lists identifiers: it is empty, or each piece between its commas
/// is an `i64`.
pub fn id_list_valid(text: &str) -> (r: bool)
    ensures
        r == (id_list(text.spec_bytes()) is Some),
{
    read_id_list(text).is_some()
}

/// Reads the identifiers that the text lists, in order; the text must list
/// identifiers (see [`id_list_valid`]).
pub fn parse_id_list(text: &str) -> (r: RefVec)
    requires
        id_list(text.spec_bytes()) is Some,
    ensures
        r.0@ == id_list(text.spec_bytes())->0,
{
    match read_id_list(text) {
        Some(ids) => ids,
        None => RefVec(Vec::new()),
    }
}

// ---------------------------------------------------------------------------
// Writing a list
// ---------------------------------------------------------------------------

/// The decimal digits of `n`, without leading zeros.
pub open spec fn decimal_digits(n: nat) -> Seq<u8>
    decreases n,
{
    if n < 10 {
        seq![(48 + n) as u8]
    } else {
        decimal_digits(n / 10).push((48 + n % 10) as u8)
    }
}

/// The decimal text of an identifier, with a `-` before a negative one.
pub open spec fn decimal_id(v: Id) -> Seq<u8> {
    if v < 0 {
        seq![45u8] + decimal_digits((-v) as nat)
    } else {
        decimal_digits(v as nat)
    }
}

/// The pieces joined with a comma between each two.
pub open spec fn join_commas(pieces: Seq<Seq<u8>>) -> Seq<u8>
    decreases pieces.len(),
{
    if pieces.len() <= 1 {
        if pieces.len() == 0 { Seq::empty() } else { pieces[0] }
    } else {
        join_commas(pieces.drop_last()) + seq![44u8] + pieces.last()
    }
}

/// The text that lists the identifiers: their decimal texts joined with
/// commas (the empty text for no identifiers).
pub open spec fn id_list_text(ids: Seq<Id>) -> Seq<u8> {
    join_commas(ids.map_values(|v: Id| decimal_id(v)))
}

proof fn lemma_decimal_digits(n: nat)
    ensures
        all_digits(decimal_digits(n)),
        digits_value(decimal_digits(n)) == n,
    decreases n,
{
    if n >= 10 {
        lemma_decimal_digits(n / 10);
        let d = decimal_digits(n / 10);
        let x = (48 + n % 10) as u8;
        lemma_digits_push(d, x);
        assert(x - 48 == n % 10);
        assert((n / 10) * 10 + n % 10 == n);
        assert(decimal_digits(n) == d.push(x));
        assert(digits_value(decimal_digits(n)) == n);
        assert forall|i: int| 0 <= i < d.push(x).len() implies is_digit(#[trigger] d.push(x)[i]) by {
            if i < d.len() {
                assert(d.push(x)[i] == d[i]);
            }
        }
    } else {
        let t = decimal_digits(n);
        assert(t.drop_last() =~= Seq::<u8>::empty());
        assert(t.last() == t[0]);
        assert(t[0] == (48 + n) as u8);
        assert(t[0] - 48 == n);
        assert(digits_value(t.drop_last()) == 0);
        assert(is_digit(t[0]));
        assert(digits_value(t) == n);
    }
}

proof fn lemma_token_id_decimal(v: Id)
    ensures
        token_id(decimal_id(v)) == Some(v),
        forall|i: int| 0 <= i < decimal_id(v).len() ==> !is_comma(#[trigger] decimal_id(v)[i]),
        decimal_id(v).len() > 0,
{
    let t = decimal_id(v);
    if v < 0 {
        let m = (-v) as nat;
        lemma_decimal_digits(m);
        assert(t.drop_first() =~= decimal_digits(m));
        assert(t[0] == 45u8);
        assert forall|i: int| 0 <= i < t.len() implies !is_comma(#[trigger] t[i]) by {
            if i > 0 {
                assert(t[i] == decimal_digits(m)[i - 1]);
            }
        }
    } else {
        lemma_decimal_digits(v as nat);
        assert(is_digit(t[0]));
    }
}

/// Splitting `a + b`, where `b` holds no comma, extends the last piece of `a`.
proof fn lemma_split_append_plain(a: Seq<u8>, b: Seq<u8>)
    requires
        forall|i: int| 0 <= i < b.len() ==> !is_comma(#[trigger] b[i]),
    ensures
        split_commas(a + b) == split_commas(a).update(
            split_commas(a).len() - 1,
            split_commas(a).last() + b,
        ),
    decreases b.len(),
{
    lemma_split_commas_nonempty(a);
    if b.len() == 0 {
        assert(a + b =~= a);
        assert(split_commas(a).last() + b =~= split_commas(a).last());
        assert(split_commas(a).update(split_commas(a).len() - 1, split_commas(a).last()) =~= split_commas(a));
    } else {
        let b0 = b.drop_last();
        lemma_split_append_plain(a, b0);
        assert((a + b).drop_last() =~= a + b0);
        assert((a + b).last() == b.last());
        assert(!is_comma(b[b.len() - 1]));
        let p = split_commas(a);
        let q = split_commas(a + b0);
        assert(q.len() == p.len());
        assert(q.last() == p.last() + b0);
        assert((p.last() + b0).push(b.last()) =~= p.last() + b);
        assert(split_commas(a + b) == q.update(q.len() - 1, q.last().push(b.last())));
        assert(split_commas(a + b) =~= p.update(p.len() - 1, p.last() + b));
    }
}

proof fn lemma_split_join(pieces: Seq<Seq<u8>>)
    requires
        pieces.len() > 0,
        forall|k: int, i: int| 0 <= k < pieces.len() && 0 <= i < pieces[k].len() ==> !is_comma(#[trigger] pieces[k][i]),
    ensures
        split_commas(join_commas(pieces)) == pieces,
    decreases pieces.len(),
{
    let last = pieces.last();
    assert(forall|i: int| 0 <= i < last.len() ==> !is_comma(#[trigger] last[i])) by {
        assert forall|i: int| 0 <= i < last.len() implies !is_comma(#[trigger] last[i]) by {
            assert(pieces[pieces.len() - 1][i] == last[i]);
        }
    }
    if pieces.len() == 1 {
        lemma_split_append_plain(Seq::empty(), last);
        assert(Seq::<u8>::empty() + last =~= last);
        assert(Seq::<u8>::empty() + last =~= last);
        assert(split_commas(Seq::<u8>::empty()).update(0, Seq::<u8>::empty() + last) =~= pieces);
    } else {
        let init = pieces.drop_last();
        assert forall|k: int, i: int| 0 <= k < init.len() && 0 <= i < init[k].len() implies !is_comma(#[trigger] init[k][i]) by {
            assert(init[k] == pieces[k]);
        }
        lemma_split_join(init);
        let a = join_commas(init) + seq![44u8];
        assert(a.drop_last() =~= join_commas(init));
        assert(split_commas(a) == split_commas(join_commas(init)).push(Seq::empty()));
        lemma_split_append_plain(a, last);
        assert(Seq::<u8>::empty() + last =~= last);
        assert(split_commas(a + last) =~= init.push(last));
        assert(init.push(last) =~= pieces);
    }
}

/// Reading the text that lists identifiers gives them back.
pub proof fn law_id_list_roundtrip(ids: Seq<Id>)
    ensures
        id_list(id_list_text(ids)) == Some(ids),
{
    let pieces = ids.map_values(|v: Id| decimal_id(v));
    let s = id_list_text(ids);
    if ids.len() == 0 {
        assert(s =~= Seq::<u8>::empty());
        assert(Seq::<Id>::empty() =~= ids);
    } else {
        assert forall|k: int, i: int| 0 <= k < pieces.len() && 0 <= i < pieces[k].len() implies !is_comma(#[trigger] pieces[k][i]) by {
            lemma_token_id_decimal(ids[k]);
        }
        lemma_split_join(pieces);
        assert forall|k: int| 0 <= k < pieces.len() implies (#[trigger] token_id(pieces[k])) == Some(ids[k]) by {
            lemma_token_id_decimal(ids[k]);
        }
        lemma_token_id_decimal(ids[0]);
        assert(s.len() > 0) by {
            if pieces.len() == 1 {
                assert(s == pieces[0]);
            } else {
                assert(s == join_commas(pieces.drop_last()) + seq![44u8] + pieces.last());
            }
        }
        assert(pieces.map_values(|t: Seq<u8>| token_id(t)->0) =~= ids);
    }
}

} // verus!
