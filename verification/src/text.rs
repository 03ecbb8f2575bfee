//! Character-level helpers shared by the formatting code.

use vstd::prelude::*;
use vstd::std_specs::iter::IteratorSpec;

verus! {

/// The decimal digit character for `d` (which is below ten).
pub open spec fn digit_char(d: nat) -> char {
    if d == 0 { '0' }
    else if d == 1 { '1' }
    else if d == 2 { '2' }
    else if d == 3 { '3' }
    else if d == 4 { '4' }
    else if d == 5 { '5' }
    else if d == 6 { '6' }
    else if d == 7 { '7' }
    else if d == 8 { '8' }
    else { '9' }
}

/// The decimal representation of `n`, without sign or leading zeros ("0" for zero).
pub open spec fn decimal(n: nat) -> Seq<char>
    decreases n,
{
    if n < 10 {
        seq![digit_char(n)]
    } else {
        decimal(n / 10).push(digit_char(n % 10))
    }
}

/// A decimal representation has at least one digit.
pub proof fn lemma_decimal_nonempty(n: nat)
    ensures
        decimal(n).len() >= 1,
    decreases n,
{
    if n >= 10 {
        lemma_decimal_nonempty(n / 10);
    }
}

/// Appends one character to a string (`String::push`).
#[verifier::external_body]
pub(crate) fn push_char(s: &mut String, c: char)
    ensures
        final(s)@ == old(s)@.push(c),
{
    s.push(c);
}

/// A fresh empty string.
pub fn empty_string() -> (s: String)
    ensures
        s@ == Seq::<char>::empty(),
{
    String::new()
}

/// The characters of `s`, in order.
pub fn chars_of(s: &str) -> (v: Vec<char>)
    ensures
        v@ == s@,
{
    broadcast use vstd::string::group_string_axioms;
    let mut v: Vec<char> = Vec::new();
    let mut it = s.chars();
    loop
        invariant
            it.obeys_prophetic_iter_laws(),
            v@ + it.remaining() == s@,
            it.decrease() is Some,
        ensures
            v@ == s@,
        decreases it.decrease()->0,
    {
        match it.next() {
            Some(c) => {
                v.push(c);
            }
            None => {
                assert(v@ + it.remaining() =~= v@);
                break;
            }
        }
    }
    v
}

/// A string holding exactly the given characters.
pub fn string_of(v: &Vec<char>) -> (s: String)
    ensures
        s@ == v@,
{
    let mut s = empty_string();
    let mut i: usize = 0;
    while i < v.len()
        invariant
            i <= v.len(),
            s@ == v@.subrange(0, i as int),
        decreases v.len() - i,
    {
        push_char(&mut s, v[i]);
        assert(v@.subrange(0, i + 1) == v@.subrange(0, i as int).push(v@[i as int]));
        i = i + 1;
    }
    assert(v@.subrange(0, v.len() as int) == v@);
    s
}

/// Appends the characters of `t` to `s`.
pub fn push_all(s: &mut String, t: &str)
    ensures
        final(s)@ == old(s)@ + t@,
{
    s.append(t);
}

pub(crate) fn digit_of(d: u64) -> (c: char)
    requires
        d < 10,
    ensures
        c == digit_char(d as nat),
{
    if d == 0 { '0' }
    else if d == 1 { '1' }
    else if d == 2 { '2' }
    else if d == 3 { '3' }
    else if d == 4 { '4' }
    else if d == 5 { '5' }
    else if d == 6 { '6' }
    else if d == 7 { '7' }
    else if d == 8 { '8' }
    else { '9' }
}

/// Appends the decimal representation of `n` to `s`.
pub fn push_decimal(s: &mut String, n: u64)
    ensures
        final(s)@ == old(s)@ + decimal(n as nat),
    decreases n,
{
    if n < 10 {
        push_char(s, digit_of(n));
        assert(decimal(n as nat) == seq![digit_char(n as nat)]);
        assert(old(s)@.push(digit_char(n as nat)) == old(s)@ + seq![digit_char(n as nat)]);
    } else {
        push_decimal(s, n / 10);
        push_char(s, digit_of(n % 10));
        assert(old(s)@ + decimal((n / 10) as nat) + seq![digit_char((n % 10) as nat)]
            == old(s)@ + decimal(n as nat));
    }
}

/// The decimal representation of `n` as a string.
pub fn decimal_string(n: u64) -> (s: String)
    ensures
        s@ == decimal(n as nat),
{
    let mut s = empty_string();
    push_decimal(&mut s, n);
    assert(Seq::<char>::empty() + decimal(n as nat) == decimal(n as nat));
    s
}

/// The views of a vector of character vectors.
pub open spec fn views(v: Seq<Vec<char>>) -> Seq<Seq<char>> {
    v.map_values(|p: Vec<char>| p@)
}

/// `s` split after each `sep`, each part keeping its `sep` at the end
/// (`str::split_inclusive`); the empty sequence has no part.
pub open spec fn split_inclusive(s: Seq<char>, sep: char) -> Seq<Seq<char>>
    decreases s.len(),
{
    if s.len() == 0 {
        seq![]
    } else {
        let ps = split_inclusive(s.drop_last(), sep);
        let c = s.last();
        if ps.len() == 0 || ps.last().last() == sep {
            ps.push(seq![c])
        } else {
            ps.update(ps.len() - 1, ps.last().push(c))
        }
    }
}

/// Splits `s` after each `sep`, keeping the separators.
pub fn split_inclusive_chars(s: &Vec<char>, sep: char) -> (parts: Vec<Vec<char>>)
    ensures
        views(parts@) == split_inclusive(s@, sep),
{
    let mut done: Vec<Vec<char>> = Vec::new();
    let mut cur: Vec<char> = Vec::new();
    let mut i: usize = 0;
    while i < s.len()
        invariant
            i <= s.len(),
            split_inclusive(s@.take(i as int), sep) == if cur@.len() == 0 {
                views(done@)
            } else {
                views(done@).push(cur@)
            },
            forall|j: int| 0 <= j < done@.len() ==> #[trigger] done@[j]@.len() > 0 && done@[j]@.last() == sep,
            forall|j: int| 0 <= j < cur@.len() ==> #[trigger] cur@[j] != sep,
        decreases s.len() - i,
    {
        let c = s[i];
        let ghost old_done = views(done@);
        let ghost old_cur = cur@;
        assert(s@.take(i + 1).drop_last() == s@.take(i as int));
        assert(s@.take(i + 1).last() == c);
        cur.push(c);
        if cur.len() == 1 {
            assert(cur@ == seq![c]);
        } else {
            assert(old_cur.last() != sep);
            assert(views(done@).push(old_cur).last() == old_cur);
            assert(views(done@).push(old_cur).update(views(done@).len() as int, old_cur.push(c))
                == views(done@).push(cur@));
        }
        assert(split_inclusive(s@.take(i + 1), sep) == views(done@).push(cur@));
        if c == sep {
            let part = cur;
            cur = Vec::new();
            done.push(part);
            assert(views(done@) == old_done.push(part@));
        }
        i = i + 1;
    }
    assert(s@.take(s.len() as int) == s@);
    if cur.len() > 0 {
        done.push(cur);
    }
    assert(views(done@) == split_inclusive(s@, sep));
    done
}

/// `s` split at each `sep`, the separators dropped (`str::split`): always at least one field.
pub open spec fn split_fields(s: Seq<char>, sep: char) -> Seq<Seq<char>>
    decreases s.len(),
{
    if s.len() == 0 {
        seq![Seq::empty()]
    } else {
        let fs = split_fields(s.drop_last(), sep);
        if s.last() == sep {
            fs.push(Seq::empty())
        } else {
            fs.update(fs.len() - 1, fs.last().push(s.last()))
        }
    }
}

/// Splitting always gives at least one field.
pub proof fn lemma_split_fields_nonempty(s: Seq<char>, sep: char)
    ensures
        split_fields(s, sep).len() >= 1,
    decreases s.len(),
{
    if s.len() > 0 {
        lemma_split_fields_nonempty(s.drop_last(), sep);
    }
}

/// Splits `s` at each `sep` (`str::split`).
pub fn split_fields_chars(s: &Vec<char>, sep: char) -> (fields: Vec<Vec<char>>)
    ensures
        views(fields@) == split_fields(s@, sep),
{
    let mut done: Vec<Vec<char>> = Vec::new();
    let mut cur: Vec<char> = Vec::new();
    let mut i: usize = 0;
    assert(s@.take(0) == Seq::<char>::empty());
    assert(views(done@).push(cur@) == seq![Seq::<char>::empty()]);
    while i < s.len()
        invariant
            i <= s.len(),
            split_fields(s@.take(i as int), sep) == views(done@).push(cur@),
        decreases s.len() - i,
    {
        let c = s[i];
        let ghost old_done = views(done@);
        let ghost old_cur = cur@;
        assert(s@.take(i + 1).drop_last() == s@.take(i as int));
        assert(s@.take(i + 1).last() == c);
        if c == sep {
            let f = cur;
            cur = Vec::new();
            done.push(f);
            assert(views(done@) == old_done.push(old_cur));
        } else {
            cur.push(c);
            assert(old_done.push(old_cur).update(old_done.len() as int, old_cur.push(c)) == old_done.push(cur@));
        }
        i = i + 1;
    }
    assert(s@.take(s.len() as int) == s@);
    let ghost d = views(done@);
    done.push(cur);
    assert(views(done@) == d.push(cur@));
    done
}

/// A text without the separator is a single field.
pub proof fn lemma_split_fields_single(s: Seq<char>, sep: char)
    requires
        forall|i: int| 0 <= i < s.len() ==> s[i] != sep,
    ensures
        split_fields(s, sep) == seq![s],
    decreases s.len(),
{
    if s.len() > 0 {
        lemma_split_fields_single(s.drop_last(), sep);
        assert(s.drop_last().push(s.last()) == s);
        assert(s[s.len() - 1] != sep);
        assert(seq![s.drop_last()].update(0, s.drop_last().push(s.last())) == seq![s]);
    } else {
        assert(s == Seq::<char>::empty());
    }
}

/// Splitting around one separator splits both sides.
pub proof fn lemma_split_fields_concat(a: Seq<char>, sep: char, b: Seq<char>)
    ensures
        split_fields(a + seq![sep] + b, sep) == split_fields(a, sep) + split_fields(b, sep),
    decreases b.len(),
{
    let x = a + seq![sep];
    if b.len() == 0 {
        assert(x + b == x);
        assert(x.drop_last() == a);
        assert(split_fields(a, sep).push(Seq::empty()) == split_fields(a, sep) + seq![Seq::<char>::empty()]);
    } else {
        let b1 = b.drop_last();
        let c = b.last();
        lemma_split_fields_concat(a, sep, b1);
        lemma_split_fields_nonempty(b1, sep);
        assert((x + b).drop_last() == x + b1);
        assert((x + b).last() == c);
        let fa = split_fields(a, sep);
        let fb = split_fields(b1, sep);
        if c == sep {
            assert((fa + fb).push(Seq::empty()) == fa + fb.push(Seq::empty()));
        } else {
            let l = (fa + fb).len() - 1;
            assert((fa + fb).last() == fb.last());
            assert((fa + fb).update(l, fb.last().push(c)) == fa + fb.update(fb.len() - 1, fb.last().push(c)));
        }
    }
}

} // verus!
