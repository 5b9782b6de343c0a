//! Character-level helpers and CDATA escaping.

use vstd::prelude::*;

verus! {

/// Relies on `str::chars` collected into a `Vec`: the characters of `s`, in order.
#[verifier::external_body]
pub(crate) fn chars_of(s: &str) -> (r: Vec<char>)
    ensures
        r@ == s@,
{
    s.chars().collect()
}

/// Relies on `String`'s `FromIterator<char>`: the string made of the characters of `v`, in order.
#[verifier::external_body]
pub(crate) fn string_of(v: &Vec<char>) -> (r: String)
    ensures
        r@ == v@,
{
    v.iter().collect()
}

/// Appends every element of `src` to `dst`.
pub(crate) fn extend_chars(dst: &mut Vec<char>, src: &Vec<char>)
    ensures
        final(dst)@ == old(dst)@ + src@,
{
    let mut i: usize = 0;
    while i < src.len()
        invariant
            i <= src@.len(),
            dst@ == old(dst)@ + src@.take(i as int),
        decreases src@.len() - i,
    {
        dst.push(src[i]);
        i = i + 1;
        assert(src@.take(i as int) =~= src@.take(i - 1).push(src@[i - 1]));
    }
    assert(src@.take(i as int) =~= src@);
}

/// Whether two character vectors hold the same characters.
pub(crate) fn same_chars(a: &Vec<char>, b: &Vec<char>) -> (r: bool)
    ensures
        r == (a@ == b@),
{
    if a.len() != b.len() {
        return false;
    }
    let mut i: usize = 0;
    while i < a.len()
        invariant
            i <= a@.len() == b@.len(),
            a@.take(i as int) == b@.take(i as int),
        decreases a@.len() - i,
    {
        if a[i] != b[i] {
            assert(a@.take(i + 1)[i as int] != b@.take(i + 1)[i as int]);
            return false;
        }
        i = i + 1;
        assert(a@.take(i as int) =~= b@.take(i as int));
    }
    assert(a@ =~= a@.take(i as int));
    assert(b@ =~= b@.take(i as int));
    true
}

/// Whether two texts hold the same characters.
pub fn same_text(a: &str, b: &str) -> (r: bool)
    ensures
        r == (a@ == b@),
{
    same_chars(&chars_of(a), &chars_of(b))
}

/// The segments of `s` between occurrences of `sep`, empty segments included.
pub open spec fn split_on(s: Seq<char>, sep: char) -> Seq<Seq<char>>
    decreases s.len(),
{
    if s.len() == 0 {
        seq![Seq::<char>::empty()]
    } else {
        let p = split_on(s.drop_last(), sep);
        if s.last() == sep {
            p.push(Seq::<char>::empty())
        } else {
            p.update(p.len() - 1, p.last().push(s.last()))
        }
    }
}

/// The segments joined with `sep` between each two.
pub open spec fn join_on(segs: Seq<Seq<char>>, sep: char) -> Seq<char>
    decreases segs.len(),
{
    if segs.len() <= 1 {
        if segs.len() == 0 { Seq::empty() } else { segs[0] }
    } else {
        join_on(segs.drop_last(), sep) + seq![sep] + segs.last()
    }
}

/// Joining the segments of `s` with their separator gives `s` back, so
/// texts with the same segments are equal.
pub proof fn lemma_join_split(s: Seq<char>, sep: char)
    ensures
        join_on(split_on(s, sep), sep) == s,
    decreases s.len(),
{
    if s.len() > 0 {
        let p = split_on(s.drop_last(), sep);
        lemma_split_nonempty(s.drop_last(), sep);
        lemma_join_split(s.drop_last(), sep);
        if s.last() == sep {
            assert(split_on(s, sep) == p.push(Seq::<char>::empty()));
            assert(p.push(Seq::<char>::empty()).drop_last() =~= p);
            assert(s =~= s.drop_last() + seq![sep] + Seq::<char>::empty());
        } else {
            let q = p.update(p.len() - 1, p.last().push(s.last()));
            assert(split_on(s, sep) == q);
            if p.len() == 1 {
                assert(join_on(p, sep) == p[0]);
                assert(s =~= p[0].push(s.last()));
            } else {
                assert(q.drop_last() =~= p.drop_last());
                assert(join_on(q, sep) =~= join_on(p, sep).push(s.last()));
                assert(s =~= s.drop_last().push(s.last()));
            }
        }
    }
}

/// The texts held by a sequence of character vectors.
pub open spec fn views(s: Seq<Vec<char>>) -> Seq<Seq<char>> {
    s.map_values(|x: Vec<char>| x@)
}

proof fn lemma_split_nonempty(s: Seq<char>, sep: char)
    ensures
        split_on(s, sep).len() >= 1,
    decreases s.len(),
{
    if s.len() > 0 {
        lemma_split_nonempty(s.drop_last(), sep);
    }
}

/// The segments of `v` between occurrences of `sep`.
pub(crate) fn segments_of(v: &Vec<char>, sep: char) -> (r: Vec<Vec<char>>)
    ensures
        views(r@) == split_on(v@, sep),
{
    let mut segs: Vec<Vec<char>> = Vec::new();
    let mut cur: Vec<char> = Vec::new();
    let mut i: usize = 0;
    assert(v@.take(0) =~= Seq::<char>::empty());
    assert(views(segs@).push(cur@) =~= split_on(v@.take(0), sep));
    while i < v.len()
        invariant
            i <= v@.len(),
            views(segs@).push(cur@) == split_on(v@.take(i as int), sep),
        decreases v@.len() - i,
    {
        let c = v[i];
        let ghost prev = v@.take(i as int);
        assert(v@.take(i + 1).drop_last() =~= prev);
        assert(v@.take(i + 1).last() == c);
        proof {
            lemma_split_nonempty(prev, sep);
        }
        if c == sep {
            segs.push(cur);
            cur = Vec::new();
            assert(views(segs@) =~= split_on(prev, sep));
        } else {
            cur.push(c);
            assert(views(segs@).push(cur@) =~= split_on(prev, sep).update(
                split_on(prev, sep).len() - 1,
                split_on(prev, sep).last().push(c),
            ));
        }
        i = i + 1;
    }
    assert(v@.take(i as int) =~= v@);
    segs.push(cur);
    assert(views(segs@) =~= split_on(v@, sep));
    segs
}

/// The sequence that closes a CDATA section.
pub open spec fn cdata_end() -> Seq<char> {
    seq![']', ']', '>']
}

/// Whether `t` holds the CDATA terminator at position `i`.
pub open spec fn terminator_at(t: Seq<char>, i: int) -> bool {
    0 <= i && i + 3 <= t.len() && t.subrange(i, i + 3) == cdata_end()
}

/// Whether the CDATA terminator occurs anywhere in `t`.
pub open spec fn has_terminator(t: Seq<char>) -> bool {
    exists|i: int| terminator_at(t, i)
}

/// `t` with each terminator, scanned left to right, split over two adjacent
/// CDATA sections.
pub open spec fn split_terminators(t: Seq<char>) -> Seq<char>
    decreases t.len(),
{
    if t.len() < 3 {
        t
    } else if t.take(3) == cdata_end() {
        "]]]]><![CDATA[>"@ + split_terminators(t.skip(3))
    } else {
        seq![t[0]] + split_terminators(t.skip(1))
    }
}

/// The CDATA section that carries `t` verbatim.
pub open spec fn cdata_text(t: Seq<char>) -> Seq<char> {
    "<![CDATA["@ + split_terminators(t) + "]]>"@
}

/// Wraps `text` in a CDATA section; a terminator inside the text is split
/// so that the section never ends early.
pub fn cdata(text: &str) -> (r: String)
    ensures
        r@ == cdata_text(text@),
{
    let v = chars_of(text);
    let replacement = chars_of("]]]]><![CDATA[>");
    let mut out = chars_of("<![CDATA[");
    let n = v.len();
    let mut i: usize = 0;
    assert(v@.skip(0) =~= v@);
    while i < n
        invariant
            n == v@.len(),
            i <= n,
            replacement@ == "]]]]><![CDATA[>"@,
            out@ + split_terminators(v@.skip(i as int)) == "<![CDATA["@ + split_terminators(v@),
        decreases n - i,
    {
        let ghost rest = v@.skip(i as int);
        if n - i >= 3 && v[i] == ']' && v[i + 1] == ']' && v[i + 2] == '>' {
            assert(rest.take(3) =~= cdata_end());
            assert(rest.skip(3) =~= v@.skip(i + 3));
            extend_chars(&mut out, &replacement);
            i = i + 3;
            assert(out@ + split_terminators(v@.skip(i as int)) =~= "<![CDATA["@ + split_terminators(v@));
        } else {
            proof {
                if rest.len() >= 3 {
                    assert(rest.take(3) != cdata_end()) by {
                        if rest.take(3) == cdata_end() {
                            assert(rest.take(3)[0] == v@[i as int]);
                            assert(rest.take(3)[1] == v@[i + 1]);
                            assert(rest.take(3)[2] == v@[i + 2]);
                        }
                    }
                    assert(rest.skip(1) =~= v@.skip(i + 1));
                } else {
                    assert(rest.skip(1) =~= v@.skip(i + 1));
                    assert(split_terminators(rest) == rest);
                    assert(split_terminators(v@.skip(i + 1)) == v@.skip(i + 1));
                    assert(rest =~= seq![v@[i as int]] + v@.skip(i + 1));
                }
            }
            out.push(v[i]);
            i = i + 1;
            assert(out@ + split_terminators(v@.skip(i as int)) =~= "<![CDATA["@ + split_terminators(v@));
        }
    }
    assert(v@.skip(n as int) =~= Seq::<char>::empty());
    let close = chars_of("]]>");
    extend_chars(&mut out, &close);
    string_of(&out)
}

/// Text that holds no CDATA terminator is carried verbatim between the
/// opening and closing markers.
pub proof fn lemma_cdata_plain(t: Seq<char>)
    requires
        !has_terminator(t),
    ensures
        cdata_text(t) == "<![CDATA["@ + t + "]]>"@,
    decreases t.len(),
{
    lemma_split_plain(t);
}

proof fn lemma_split_plain(t: Seq<char>)
    requires
        !has_terminator(t),
    ensures
        split_terminators(t) == t,
    decreases t.len(),
{
    if t.len() >= 3 {
        assert(t.take(3) != cdata_end()) by {
            assert(t.subrange(0, 3) =~= t.take(3));
            assert(!terminator_at(t, 0));
        }
        let rest = t.skip(1);
        assert(!has_terminator(rest)) by {
            if exists|i: int| terminator_at(rest, i) {
                let i = choose|i: int| terminator_at(rest, i);
                assert(t.subrange(i + 1, i + 4) =~= rest.subrange(i, i + 3));
                assert(terminator_at(t, i + 1));
            }
        }
        lemma_split_plain(rest);
        assert(seq![t[0]] + rest =~= t);
    }
}

} // verus!
