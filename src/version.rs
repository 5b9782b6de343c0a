//! Ordering and incrementing of dotted version names.
//!
//! Versions compare segment by segment, each segment as text (so `"9"` sorts
//! after `"10"`); when the shared segments are equal, the version with more
//! segments is the greater one.

use vstd::prelude::*;
use core::cmp::Ordering;
use crate::text::{chars_of, string_of, extend_chars, split_on, views, segments_of, lemma_join_split};

verus! {

/// The dot-separated segments of `s`, empty segments included.
pub open spec fn split_dots(s: Seq<char>) -> Seq<Seq<char>> {
    split_on(s, '.')
}

/// Lexicographic order of two texts, character by character.
pub open spec fn text_order(a: Seq<char>, b: Seq<char>) -> Ordering
    decreases a.len(),
{
    if a.len() == 0 && b.len() == 0 {
        Ordering::Equal
    } else if a.len() == 0 {
        Ordering::Less
    } else if b.len() == 0 {
        Ordering::Greater
    } else if a[0] < b[0] {
        Ordering::Less
    } else if a[0] > b[0] {
        Ordering::Greater
    } else {
        text_order(a.skip(1), b.skip(1))
    }
}

/// Lexicographic order of two segment lists, each pair of segments by `text_order`.
pub open spec fn segments_order(a: Seq<Seq<char>>, b: Seq<Seq<char>>) -> Ordering
    decreases a.len(),
{
    if a.len() == 0 && b.len() == 0 {
        Ordering::Equal
    } else if a.len() == 0 {
        Ordering::Less
    } else if b.len() == 0 {
        Ordering::Greater
    } else if text_order(a[0], b[0]) != Ordering::Equal {
        text_order(a[0], b[0])
    } else {
        segments_order(a.skip(1), b.skip(1))
    }
}

/// The order of two version names.
pub open spec fn version_order(a: Seq<char>, b: Seq<char>) -> Ordering {
    segments_order(split_dots(a), split_dots(b))
}

fn compare_text(a: &Vec<char>, b: &Vec<char>) -> (r: Ordering)
    ensures
        r == text_order(a@, b@),
{
    let mut i: usize = 0;
    assert(a@.skip(0) =~= a@);
    assert(b@.skip(0) =~= b@);
    while i < a.len() && i < b.len()
        invariant
            i <= a@.len(),
            i <= b@.len(),
            text_order(a@, b@) == text_order(a@.skip(i as int), b@.skip(i as int)),
        decreases a@.len() - i,
    {
        let ca = a[i];
        let cb = b[i];
        if ca < cb {
            return Ordering::Less;
        } else if ca > cb {
            return Ordering::Greater;
        }
        assert(a@.skip(i as int).skip(1) =~= a@.skip(i + 1));
        assert(b@.skip(i as int).skip(1) =~= b@.skip(i + 1));
        i = i + 1;
    }
    if i < a.len() {
        Ordering::Greater
    } else if i < b.len() {
        Ordering::Less
    } else {
        Ordering::Equal
    }
}

fn compare_segments(a: &Vec<Vec<char>>, b: &Vec<Vec<char>>) -> (r: Ordering)
    ensures
        r == segments_order(views(a@), views(b@)),
{
    let mut i: usize = 0;
    assert(views(a@).skip(0) =~= views(a@));
    assert(views(b@).skip(0) =~= views(b@));
    while i < a.len() && i < b.len()
        invariant
            i <= a@.len(),
            i <= b@.len(),
            segments_order(views(a@), views(b@)) == segments_order(
                views(a@).skip(i as int),
                views(b@).skip(i as int),
            ),
        decreases a@.len() - i,
    {
        let o = compare_text(&a[i], &b[i]);
        assert(views(a@).skip(i as int)[0] == a@[i as int]@);
        assert(views(b@).skip(i as int)[0] == b@[i as int]@);
        match o {
            Ordering::Equal => {},
            _ => {
                return o;
            },
        }
        assert(views(a@).skip(i as int).skip(1) =~= views(a@).skip(i + 1));
        assert(views(b@).skip(i as int).skip(1) =~= views(b@).skip(i + 1));
        i = i + 1;
    }
    if i < a.len() {
        Ordering::Greater
    } else if i < b.len() {
        Ordering::Less
    } else {
        Ordering::Equal
    }
}

/// Compares two version names segment by segment, each segment as text;
/// after equal shared segments the longer version is the greater.
pub fn compare_version_names(version_a: &str, version_b: &str) -> (r: Ordering)
    ensures
        r == version_order(version_a@, version_b@),
{
    let a = segments_of(&chars_of(version_a), '.');
    let b = segments_of(&chars_of(version_b), '.');
    compare_segments(&a, &b)
}

/// The order with its two arguments swapped.
pub open spec fn flipped(o: Ordering) -> Ordering {
    match o {
        Ordering::Less => Ordering::Greater,
        Ordering::Equal => Ordering::Equal,
        Ordering::Greater => Ordering::Less,
    }
}

proof fn lemma_text_order_laws(a: Seq<char>, b: Seq<char>)
    ensures
        text_order(a, a) == Ordering::Equal,
        text_order(a, b) == flipped(text_order(b, a)),
        text_order(a, b) == Ordering::Equal ==> a == b,
    decreases a.len(),
{
    if a.len() > 0 {
        lemma_text_order_laws(a.skip(1), a.skip(1));
        if b.len() > 0 {
            lemma_text_order_laws(a.skip(1), b.skip(1));
            if text_order(a, b) == Ordering::Equal {
                assert(a[0] == b[0]);
                assert(a =~= seq![a[0]] + a.skip(1));
                assert(b =~= seq![b[0]] + b.skip(1));
            }
        }
    } else if b.len() == 0 {
        assert(a =~= b);
    }
}

proof fn lemma_text_order_transitive(a: Seq<char>, b: Seq<char>, c: Seq<char>)
    requires
        text_order(a, b) == Ordering::Less,
        text_order(b, c) == Ordering::Less,
    ensures
        text_order(a, c) == Ordering::Less,
    decreases a.len(),
{
    if a.len() > 0 && b.len() > 0 && c.len() > 0 && a[0] == b[0] && b[0] == c[0] {
        lemma_text_order_transitive(a.skip(1), b.skip(1), c.skip(1));
    }
}

proof fn lemma_segments_order_laws(a: Seq<Seq<char>>, b: Seq<Seq<char>>)
    ensures
        segments_order(a, a) == Ordering::Equal,
        segments_order(a, b) == flipped(segments_order(b, a)),
        segments_order(a, b) == Ordering::Equal ==> a == b,
    decreases a.len(),
{
    if a.len() > 0 {
        lemma_text_order_laws(a[0], a[0]);
        lemma_segments_order_laws(a.skip(1), a.skip(1));
        if b.len() > 0 {
            lemma_text_order_laws(a[0], b[0]);
            lemma_segments_order_laws(a.skip(1), b.skip(1));
            if segments_order(a, b) == Ordering::Equal {
                assert(a =~= seq![a[0]] + a.skip(1));
                assert(b =~= seq![b[0]] + b.skip(1));
            }
        }
    } else if b.len() == 0 {
        assert(a =~= b);
    }
}

proof fn lemma_segments_order_transitive(a: Seq<Seq<char>>, b: Seq<Seq<char>>, c: Seq<Seq<char>>)
    requires
        segments_order(a, b) == Ordering::Less,
        segments_order(b, c) == Ordering::Less,
    ensures
        segments_order(a, c) == Ordering::Less,
    decreases a.len(),
{
    if a.len() > 0 && b.len() > 0 && c.len() > 0 {
        lemma_text_order_laws(a[0], b[0]);
        lemma_text_order_laws(b[0], c[0]);
        lemma_text_order_laws(a[0], c[0]);
        if text_order(a[0], b[0]) == Ordering::Less && text_order(b[0], c[0]) == Ordering::Less {
            lemma_text_order_transitive(a[0], b[0], c[0]);
        } else if text_order(a[0], b[0]) == Ordering::Equal && text_order(b[0], c[0])
            == Ordering::Equal {
            lemma_segments_order_transitive(a.skip(1), b.skip(1), c.skip(1));
        }
    }
}

/// Every version is equal to itself.
pub proof fn lemma_version_order_reflexive(a: Seq<char>)
    ensures
        version_order(a, a) == Ordering::Equal,
{
    lemma_segments_order_laws(split_dots(a), split_dots(a));
}

/// Any two versions are comparable, and swapping them swaps the result.
pub proof fn lemma_version_order_total(a: Seq<char>, b: Seq<char>)
    ensures
        version_order(a, b) == flipped(version_order(b, a)),
{
    lemma_segments_order_laws(split_dots(a), split_dots(b));
}

/// Versions that compare equal have the same segments, and so are the same name.
pub proof fn lemma_version_order_antisymmetric(a: Seq<char>, b: Seq<char>)
    requires
        version_order(a, b) == Ordering::Equal,
    ensures
        split_dots(a) == split_dots(b),
        a == b,
{
    lemma_segments_order_laws(split_dots(a), split_dots(b));
    lemma_join_split(a, '.');
    lemma_join_split(b, '.');
}

/// If `a` is at most `b` and `b` at most `c`, then `a` is at most `c`.
pub proof fn lemma_version_order_transitive(a: Seq<char>, b: Seq<char>, c: Seq<char>)
    requires
        version_order(a, b) != Ordering::Greater,
        version_order(b, c) != Ordering::Greater,
    ensures
        version_order(a, c) != Ordering::Greater,
        version_order(a, b) == Ordering::Less || version_order(b, c) == Ordering::Less
            ==> version_order(a, c) == Ordering::Less,
{
    let (sa, sb, sc) = (split_dots(a), split_dots(b), split_dots(c));
    lemma_segments_order_laws(sa, sb);
    lemma_segments_order_laws(sb, sc);
    lemma_segments_order_laws(sa, sc);
    if segments_order(sa, sb) == Ordering::Less && segments_order(sb, sc) == Ordering::Less {
        lemma_segments_order_transitive(sa, sb, sc);
    }
}

/// The latest of `versions`: a maximum under `version_order`, the last one
/// among equals. `None` for an empty list.
pub fn find_latest_version<'a>(versions: &Vec<&'a str>) -> (r: Option<&'a str>)
    ensures
        r is None <==> versions@.len() == 0,
        r matches Some(v) ==> exists|i: int|
            0 <= i < versions@.len() && versions@[i] == v && (forall|j: int|
                0 <= j < versions@.len() ==> version_order(versions@[j]@, v@)
                    != Ordering::Greater) && (forall|j: int|
                i < j < versions@.len() ==> version_order(versions@[j]@, v@) == Ordering::Less),
{
    if versions.len() == 0 {
        return None;
    }
    let mut best: usize = 0;
    let mut k: usize = 1;
    proof {
        lemma_version_order_reflexive(versions@[0]@);
    }
    while k < versions.len()
        invariant
            0 <= best < k <= versions@.len(),
            forall|j: int|
                0 <= j < k ==> version_order(versions@[j]@, versions@[best as int]@)
                    != Ordering::Greater,
            forall|j: int|
                best < j < k ==> version_order(versions@[j]@, versions@[best as int]@)
                    == Ordering::Less,
        decreases versions@.len() - k,
    {
        let o = compare_version_names(versions[k], versions[best]);
        proof {
            lemma_version_order_total(versions@[k as int]@, versions@[best as int]@);
            lemma_version_order_reflexive(versions@[k as int]@);
        }
        let replace = match o {
            Ordering::Less => false,
            _ => true,
        };
        if replace {
            assert forall|j: int| 0 <= j < k + 1 implies version_order(
                versions@[j]@,
                versions@[k as int]@,
            ) != Ordering::Greater by {
                if j < k {
                    lemma_version_order_transitive(
                        versions@[j]@,
                        versions@[best as int]@,
                        versions@[k as int]@,
                    );
                }
            }
            best = k;
        }
        k = k + 1;
    }
    Some(versions[best])
}

/// A version name that does not end in a digit, so that no next version can
/// be derived from it.
#[derive(Debug)]
pub struct UnknownVersionFormat(pub String);

pub open spec fn is_digit(c: char) -> bool {
    '0' <= c && c <= '9'
}

pub open spec fn digit_value(c: char) -> nat {
    if c == '1' { 1 } else if c == '2' { 2 } else if c == '3' { 3 } else if c == '4' { 4 }
    else if c == '5' { 5 } else if c == '6' { 6 } else if c == '7' { 7 } else if c == '8' { 8 }
    else if c == '9' { 9 } else { 0 }
}

pub open spec fn digit_char(d: nat) -> char {
    if d == 1 { '1' } else if d == 2 { '2' } else if d == 3 { '3' } else if d == 4 { '4' }
    else if d == 5 { '5' } else if d == 6 { '6' } else if d == 7 { '7' } else if d == 8 { '8' }
    else if d == 9 { '9' } else { '0' }
}

/// The number of digits at the end of `s`.
pub open spec fn trailing_digits(s: Seq<char>) -> nat
    decreases s.len(),
{
    if s.len() == 0 || !is_digit(s.last()) {
        0
    } else {
        1 + trailing_digits(s.drop_last())
    }
}

/// The value of a run of decimal digits, most significant first.
pub open spec fn digits_value(d: Seq<char>) -> nat
    decreases d.len(),
{
    if d.len() == 0 {
        0
    } else {
        digits_value(d.drop_last()) * 10 + digit_value(d.last())
    }
}

/// The decimal notation of `n`, without leading zeros.
pub open spec fn decimal(n: nat) -> Seq<char>
    decreases n,
{
    if n < 10 {
        seq![digit_char(n)]
    } else {
        decimal(n / 10).push(digit_char(n % 10))
    }
}

/// The version that follows `s`: its trailing run of digits read as a number,
/// plus one, written back after the rest. `None` where `s` ends in no digit.
pub open spec fn next_version(s: Seq<char>) -> Option<Seq<char>> {
    let k = trailing_digits(s);
    if k == 0 {
        None
    } else {
        Some(s.take(s.len() - k) + decimal(digits_value(s.skip(s.len() - k)) + 1))
    }
}

/// A digit run incremented by one, with a carry through trailing nines.
spec fn bumped(t: Seq<char>) -> Seq<char>
    decreases t.len(),
{
    if t.len() == 0 {
        seq!['1']
    } else if t.last() == '9' {
        bumped(t.drop_last()).push('0')
    } else {
        t.drop_last().push(digit_char(digit_value(t.last()) + 1))
    }
}

spec fn all_digits(t: Seq<char>) -> bool {
    forall|i: int| 0 <= i < t.len() ==> is_digit(#[trigger] t[i])
}

proof fn lemma_bumped_value(t: Seq<char>)
    requires
        all_digits(t),
    ensures
        digits_value(bumped(t)) == digits_value(t) + 1,
        all_digits(bumped(t)),
        bumped(t).len() > 0,
        (t.len() == 0 || t[0] != '0') ==> bumped(t)[0] != '0',
    decreases t.len(),
{
    if t.len() == 0 {
        let b = bumped(t);
        assert(b == seq!['1']);
        assert(b.drop_last() =~= Seq::<char>::empty());
        assert(digits_value(b.drop_last()) == 0);
        assert(b.last() == '1');
    } else {
        let p = t.drop_last();
        if t.last() == '9' {
            lemma_bumped_value(p);
            assert(bumped(t).drop_last() =~= bumped(p));
            assert(bumped(t).last() == '0');
            assert(digits_value(bumped(t)) == digits_value(bumped(p)) * 10);
            assert(digits_value(t) == digits_value(p) * 10 + 9);
            let x = digits_value(p);
            assert((x + 1) * 10 == x * 10 + 9 + 1) by (nonlinear_arith);
            assert forall|i: int| 0 <= i < bumped(t).len() implies is_digit(#[trigger] bumped(t)[i]) by {
                if i < bumped(p).len() {
                    assert(bumped(t)[i] == bumped(p)[i]);
                }
            }
            if p.len() > 0 {
                assert(p[0] == t[0]);
            }
        } else {
            assert(t[t.len() - 1] == t.last());
            assert(is_digit(t.last()));
            let c = digit_char(digit_value(t.last()) + 1);
            assert(digit_value(c) == digit_value(t.last()) + 1 && is_digit(c));
            assert(bumped(t) == p.push(c));
            assert(bumped(t).drop_last() =~= p);
            assert(digits_value(bumped(t)) == digits_value(p) * 10 + digit_value(c));
            assert forall|i: int| 0 <= i < bumped(t).len() implies is_digit(#[trigger] bumped(t)[i]) by {
                if i < p.len() {
                    assert(bumped(t)[i] == t[i]);
                }
            }
            if p.len() > 0 {
                assert(p[0] == t[0]);
            }
        }
    }
}

proof fn lemma_decimal_of_value(u: Seq<char>)
    requires
        all_digits(u),
        u.len() > 0,
        u[0] != '0',
    ensures
        decimal(digits_value(u)) == u,
        digits_value(u) > 0,
    decreases u.len(),
{
    let p = u.drop_last();
    let d = digit_value(u.last());
    if p.len() == 0 {
        assert(digits_value(p) == 0);
        assert(u =~= seq![u[0]]);
    } else {
        assert(p[0] == u[0]);
        lemma_decimal_of_value(p);
        let n = digits_value(u);
        assert(n == digits_value(p) * 10 + d);
        assert(n / 10 == digits_value(p) && n % 10 == d) by (nonlinear_arith)
            requires
                n == digits_value(p) * 10 + d,
                d < 10,
        ;
        assert(u =~= p.push(u.last()));
    }
}

proof fn lemma_leading_zero(d: Seq<char>)
    ensures
        digits_value(seq!['0'] + d) == digits_value(d),
    decreases d.len(),
{
    if d.len() > 0 {
        assert((seq!['0'] + d).drop_last() =~= seq!['0'] + d.drop_last());
        lemma_leading_zero(d.drop_last());
    } else {
        assert((seq!['0'] + d).drop_last() =~= d);
    }
}

proof fn lemma_trailing_digits(s: Seq<char>)
    ensures
        trailing_digits(s) <= s.len(),
        all_digits(s.skip(s.len() - trailing_digits(s))),
        trailing_digits(s) < s.len() ==> !is_digit(s[s.len() - trailing_digits(s) - 1]),
    decreases s.len(),
{
    if s.len() > 0 && is_digit(s.last()) {
        let p = s.drop_last();
        lemma_trailing_digits(p);
        assert(s.skip(s.len() - trailing_digits(s)) =~= p.skip(p.len() - trailing_digits(p)).push(
            s.last(),
        ));
    }
}

fn is_digit_char(c: char) -> (r: bool)
    ensures
        r == is_digit(c),
{
    '0' <= c && c <= '9'
}

fn next_digit(c: char) -> (r: char)
    requires
        is_digit(c),
        c != '9',
    ensures
        r == digit_char(digit_value(c) + 1),
{
    if c == '0' { '1' } else if c == '1' { '2' } else if c == '2' { '3' } else if c == '3' { '4' }
    else if c == '4' { '5' } else if c == '5' { '6' } else if c == '6' { '7' } else if c == '7' { '8' }
    else { '9' }
}

/// `bumped` of the first `len` characters of `t`.
fn bump_digits(t: &Vec<char>, len: usize) -> (r: Vec<char>)
    requires
        len <= t@.len(),
        all_digits(t@),
    ensures
        r@ == bumped(t@.take(len as int)),
    decreases len,
{
    let ghost u = t@.take(len as int);
    if len == 0 {
        vec!['1']
    } else if t[len - 1] == '9' {
        assert(u.drop_last() =~= t@.take(len - 1));
        let mut r = bump_digits(t, len - 1);
        r.push('0');
        r
    } else {
        assert(u.drop_last() =~= t@.take(len - 1));
        let mut r: Vec<char> = Vec::new();
        let mut i: usize = 0;
        while i < len - 1
            invariant
                i <= len - 1,
                len <= t@.len(),
                r@ == t@.take(i as int),
            decreases len - 1 - i,
        {
            r.push(t[i]);
            i = i + 1;
            assert(r@ =~= t@.take(i as int));
        }
        r.push(next_digit(t[len - 1]));
        r
    }
}

/// The next version after `text`: the trailing run of digits is read as a
/// number, incremented, and written back (`"0.1.9"` gives `"0.1.10"`). A name
/// that ends in no digit is an `UnknownVersionFormat`.
pub fn increment_version(text: &str) -> (r: Result<String, UnknownVersionFormat>)
    ensures
        match r {
            Ok(s) => next_version(text@) == Some(s@),
            Err(e) => next_version(text@) is None && e.0@ == text@,
        },
{
    let v = chars_of(text);
    let n = v.len();
    let mut start: usize = n;
    assert(v@.take(n as int) =~= v@);
    while start > 0 && is_digit_char(v[start - 1])
        invariant
            start <= n == v@.len(),
            trailing_digits(v@) == trailing_digits(v@.take(start as int)) + (n - start),
        decreases start,
    {
        assert(v@.take(start - 1) =~= v@.take(start as int).drop_last());
        start = start - 1;
    }
    proof {
        if start > 0 {
            assert(trailing_digits(v@.take(start as int)) == 0);
        } else {
            assert(trailing_digits(v@.take(0)) == 0);
        }
        lemma_trailing_digits(v@);
    }
    if start == n {
        return Err(UnknownVersionFormat(string_of(&v)));
    }
    let ghost run = v@.skip(start as int);
    // leading zeros of the run carry no value
    let mut z: usize = start;
    while z < n && v[z] == '0'
        invariant
            start <= z <= n == v@.len(),
            digits_value(v@.skip(z as int)) == digits_value(run),
            all_digits(v@.skip(z as int)),
        decreases n - z,
    {
        proof {
            assert(v@.skip(z as int) =~= seq!['0'] + v@.skip(z + 1));
            lemma_leading_zero(v@.skip(z + 1));
            assert forall|i: int| 0 <= i < v@.skip(z + 1).len() implies is_digit(
                #[trigger] v@.skip(z + 1)[i],
            ) by {
                assert(v@.skip(z + 1)[i] == v@.skip(z as int)[i + 1]);
            }
        }
        z = z + 1;
    }
    let mut digits: Vec<char> = Vec::new();
    let mut i: usize = z;
    while i < n
        invariant
            z <= i <= n == v@.len(),
            digits@ == v@.subrange(z as int, i as int),
        decreases n - i,
    {
        digits.push(v[i]);
        i = i + 1;
        assert(digits@ =~= v@.subrange(z as int, i as int));
    }
    assert(digits@ =~= v@.skip(z as int));
    let bumped_run = bump_digits(&digits, digits.len());
    proof {
        assert(digits@.take(digits@.len() as int) =~= digits@);
        lemma_bumped_value(digits@);
        lemma_decimal_of_value(bumped(digits@));
    }
    let mut out: Vec<char> = Vec::new();
    let mut j: usize = 0;
    while j < start
        invariant
            j <= start <= n == v@.len(),
            out@ == v@.take(j as int),
        decreases start - j,
    {
        out.push(v[j]);
        j = j + 1;
        assert(out@ =~= v@.take(j as int));
    }
    extend_chars(&mut out, &bumped_run);
    Ok(string_of(&out))
}

} // verus!
