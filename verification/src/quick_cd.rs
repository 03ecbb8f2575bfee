//! Quick "cd": the panel title shows its path with numbered hints
//! ("[0]/[1]home/artie") and a digit key moves the panel to the path up to
//! that hint.

use vstd::prelude::*;
use crate::text::{
    chars_of, decimal, digit_char, empty_string, push_char, push_decimal, split_inclusive,
    split_inclusive_chars, views,
};

verus! {

/// The separator between path components.
pub const PATH_SEPARATOR: char = '/';

/// The path split after each separator, the separator kept at the end of its part
/// (`str::split_inclusive`): "/home/artie" gives "/", "home/", "artie"; "" gives no part.
pub open spec fn path_parts(s: Seq<char>) -> Seq<Seq<char>> {
    split_inclusive(s, PATH_SEPARATOR)
}

/// The parts put back together.
pub open spec fn join_parts(ps: Seq<Seq<char>>) -> Seq<char>
    decreases ps.len(),
{
    if ps.len() == 0 {
        seq![]
    } else {
        join_parts(ps.drop_last()) + ps.last()
    }
}

/// The hint put in front of part `i`: "[i]".
pub open spec fn hint_label(i: nat) -> Seq<char> {
    seq!['['] + decimal(i) + seq![']']
}

/// Parts `i..` with their hints: every part but the last one gets its number in front.
pub open spec fn hinted_from(ps: Seq<Seq<char>>, i: nat) -> Seq<char>
    decreases ps.len() - i,
{
    if i >= ps.len() {
        seq![]
    } else if i + 1 == ps.len() {
        ps[i as int]
    } else {
        hint_label(i) + ps[i as int] + hinted_from(ps, i + 1)
    }
}

/// The path with its quick-cd hints.
pub open spec fn path_with_hints(s: Seq<char>) -> Seq<char> {
    hinted_from(path_parts(s), 0)
}

pub open spec fn is_ascii_digit(c: char) -> bool {
    '0' <= c && c <= '9'
}

/// The number of ASCII digits `s` starts with.
pub open spec fn digits_run(s: Seq<char>) -> nat
    decreases s.len(),
{
    if s.len() > 0 && is_ascii_digit(s[0]) {
        1 + digits_run(s.skip(1))
    } else {
        0
    }
}

/// The length of the hint `s` starts with ("[" digits "]"), 0 if it starts with none.
pub open spec fn hint_at(s: Seq<char>) -> nat {
    if s.len() > 0 && s[0] == '[' {
        let m = digits_run(s.skip(1));
        if m >= 1 && 1 + m < s.len() && s[1 + m as int] == ']' {
            m + 2
        } else {
            0
        }
    } else {
        0
    }
}

/// `s` with every hint removed, scanning from the left.
pub open spec fn strip_hints(s: Seq<char>) -> Seq<char>
    decreases s.len(),
{
    if s.len() == 0 {
        seq![]
    } else if hint_at(s) > 0 {
        strip_hints(s.skip(hint_at(s) as int))
    } else {
        seq![s[0]] + strip_hints(s.skip(1))
    }
}

pub open spec fn all_ascii(s: Seq<char>) -> bool {
    forall|i: int| 0 <= i < s.len() ==> (s[i] as u32) < 128
}

/// The hint pattern of the panel titles.
pub open spec fn hint_pattern() -> Seq<char> {
    "(\\[\\d+\\])"@
}

/// What `regex::Regex::replace_all` gives for the pattern, the text and the replacement.
pub uninterp spec fn regex_replace_all_result(pattern: Seq<char>, text: Seq<char>, replacement: Seq<char>) -> Seq<char>;

/// Replaces every match of the hint pattern in `text` by `replacement`, with the `regex`
/// crate (`Regex::new(pattern).unwrap().replace_all(text, replacement)`).
/// Stated: the result is the named regex result of the three arguments; for an ASCII text
/// and an empty replacement it is the text with each "[" ASCII-digits "]" removed, leftmost
/// first, as the crate documents for non-overlapping leftmost-first matches. Left unsaid:
/// for other texts, what Unicode digits `\d` matches.
#[verifier::external_body]
fn regex_replace_all(pattern: &str, text: &str, replacement: &str) -> (res: String)
    requires
        pattern@ == hint_pattern(),
    ensures
        res@ == regex_replace_all_result(pattern@, text@, replacement@),
        all_ascii(text@) && replacement@.len() == 0 ==> res@ == strip_hints(text@),
{
    regex::Regex::new(pattern).unwrap().replace_all(text, replacement).to_string()
}

/// The panel title with the hints removed.
pub fn prepare_path_without_hints(current_path: String) -> (res: String)
    ensures
        res@ == regex_replace_all_result(hint_pattern(), current_path@, Seq::empty()),
        all_ascii(current_path@) ==> res@ == strip_hints(current_path@),
{
    let empty = "";
    proof {
        reveal_strlit("");
        assert(empty@ =~= Seq::<char>::empty());
    }
    regex_replace_all("(\\[\\d+\\])", current_path.as_str(), empty)
}

fn push_vec(s: &mut String, v: &Vec<char>)
    ensures
        final(s)@ == old(s)@ + v@,
{
    let mut i: usize = 0;
    while i < v.len()
        invariant
            i <= v.len(),
            s@ == old(s)@ + v@.take(i as int),
        decreases v.len() - i,
    {
        push_char(s, v[i]);
        assert(v@.take(i + 1) == v@.take(i as int).push(v@[i as int]));
        i = i + 1;
    }
    assert(v@.take(v.len() as int) == v@);
}

/// The panel title for `current_path`: every part but the last is preceded by its number
/// in brackets ("/home/artie" becomes "[0]/[1]home/artie").
pub fn prepare_path_with_hints(current_path: String) -> (res: String)
    ensures
        res@ == path_with_hints(current_path@),
{
    let chars = chars_of(current_path.as_str());
    let parts = split_inclusive_chars(&chars, PATH_SEPARATOR);
    let ghost ps = views(parts@);
    let mut res = empty_string();
    let n = parts.len();
    let mut i: usize = 0;
    while i < n
        invariant
            n == parts@.len(),
            ps == views(parts@),
            ps == path_parts(current_path@),
            i <= n,
            res@ + hinted_from(ps, i as nat) == hinted_from(ps, 0),
        decreases n - i,
    {
        let ghost before = res@;
        if i + 1 == n {
            push_vec(&mut res, &parts[i]);
            assert(hinted_from(ps, i as nat) == ps[i as int]);
            assert(hinted_from(ps, (i + 1) as nat) == Seq::<char>::empty());
            assert(res@ + hinted_from(ps, (i + 1) as nat) == res@);
        } else {
            push_char(&mut res, '[');
            push_decimal(&mut res, i as u64);
            push_char(&mut res, ']');
            push_vec(&mut res, &parts[i]);
            assert(res@ == before + hint_label(i as nat) + ps[i as int]);
            assert(hinted_from(ps, i as nat) == hint_label(i as nat) + ps[i as int] + hinted_from(ps, (i + 1) as nat));
            assert(res@ + hinted_from(ps, (i + 1) as nat) == before + hinted_from(ps, i as nat));
        }
        i = i + 1;
    }
    assert(hinted_from(ps, n as nat) == Seq::<char>::empty());
    assert(res@ + hinted_from(ps, n as nat) == res@);
    res
}

/// Where a digit key moves the panel: the path up to and including part `digit`, or
/// `None` when the path has no such part.
pub open spec fn quick_cd_spec(s: Seq<char>, digit: nat) -> Option<Seq<char>> {
    if digit < path_parts(s).len() {
        Some(join_parts(path_parts(s).take(digit as int + 1)))
    } else {
        None
    }
}

/// The directory a digit key moves the panel to: the current path up to and including the
/// part with that hint number; `None` when the path has fewer parts (the panel shows
/// "Path is too short"). `key` must be a decimal digit.
pub fn quick_cd_target(current_path: &str, key: char) -> (res: Option<String>)
    requires
        is_ascii_digit(key),
    ensures
        match res {
            Some(p) => quick_cd_spec(current_path@, ((key as u32) - ('0' as u32)) as nat) == Some(p@),
            None => quick_cd_spec(current_path@, ((key as u32) - ('0' as u32)) as nat) is None,
        },
{
    let digit: usize = ((key as u32) - ('0' as u32)) as usize;
    let chars = chars_of(current_path);
    let parts = split_inclusive_chars(&chars, PATH_SEPARATOR);
    let ghost ps = views(parts@);
    if digit >= parts.len() {
        return None;
    }
    let mut res = empty_string();
    let mut i: usize = 0;
    while i <= digit
        invariant
            digit < parts.len(),
            ps == views(parts@),
            i <= digit + 1,
            res@ == join_parts(ps.take(i as int)),
        decreases digit + 1 - i,
    {
        push_vec(&mut res, &parts[i]);
        assert(ps.take(i + 1).drop_last() == ps.take(i as int));
        i = i + 1;
    }
    Some(res)
}

/// The parts put back together give the path.
pub proof fn lemma_parts_join(s: Seq<char>)
    ensures
        join_parts(path_parts(s)) == s,
        forall|j: int| 0 <= j < path_parts(s).len() ==> #[trigger] path_parts(s)[j].len() > 0,
    decreases s.len(),
{
    if s.len() > 0 {
        lemma_parts_join(s.drop_last());
        let ps = path_parts(s.drop_last());
        let c = s.last();
        assert(path_parts(s) == split_inclusive(s, PATH_SEPARATOR));
        if ps.len() == 0 || ps.last().last() == PATH_SEPARATOR {
            assert(ps.push(seq![c]).drop_last() == ps);
        } else {
            let q = ps.update(ps.len() - 1, ps.last().push(c));
            assert(q.drop_last() == ps.drop_last());
            assert(join_parts(ps) == join_parts(ps.drop_last()) + ps.last());
        }
        assert(s.drop_last().push(c) == s);
    }
}

proof fn lemma_join_take_prefix(ps: Seq<Seq<char>>, k: int)
    requires
        0 <= k <= ps.len(),
    ensures
        join_parts(ps) == join_parts(ps.take(k)) + join_parts(ps.skip(k)),
    decreases ps.len(),
{
    if k < ps.len() {
        lemma_join_take_prefix(ps.drop_last(), k);
        assert(ps.drop_last().take(k) == ps.take(k));
        assert(ps.skip(k).drop_last() == ps.drop_last().skip(k));
        assert(ps.skip(k).last() == ps.last());
    } else {
        assert(ps.take(k) == ps);
        assert(ps.skip(k) == Seq::<Seq<char>>::empty());
    }
}

/// Quick cd goes to a prefix of the current path: part `digit` exists exactly when the
/// target is given, and the target is the path itself only for the last part.
pub proof fn lemma_quick_cd_is_prefix(s: Seq<char>, digit: nat)
    ensures
        quick_cd_spec(s, digit) is Some <==> digit < path_parts(s).len(),
        quick_cd_spec(s, digit) is Some ==> s.take(quick_cd_spec(s, digit)->0.len() as int) == quick_cd_spec(s, digit)->0,
        quick_cd_spec(s, digit) is Some && digit + 1 == path_parts(s).len() ==> quick_cd_spec(s, digit)->0 == s,
{
    lemma_parts_join(s);
    let ps = path_parts(s);
    if digit < ps.len() {
        lemma_join_take_prefix(ps, digit + 1 as int);
        let t = join_parts(ps.take(digit + 1 as int));
        assert(s == t + join_parts(ps.skip(digit + 1 as int)));
        assert(s.take(t.len() as int) == t);
        if digit + 1 == ps.len() {
            assert(ps.take(digit + 1 as int) == ps);
        }
    }
}


/// `s` holds no character `c`.
pub open spec fn lacks(s: Seq<char>, c: char) -> bool {
    forall|i: int| 0 <= i < s.len() ==> s[i] != c
}

/// Parts `i..` put back together, front to back.
pub open spec fn join_from(ps: Seq<Seq<char>>, i: nat) -> Seq<char>
    decreases ps.len() - i,
{
    if i >= ps.len() {
        seq![]
    } else {
        ps[i as int] + join_from(ps, i + 1)
    }
}

proof fn lemma_join_from_last(ps: Seq<Seq<char>>, i: nat)
    requires
        i < ps.len(),
    ensures
        join_from(ps, i) == join_from(ps.drop_last(), i) + ps.last(),
    decreases ps.len() - i,
{
    if i + 1 == ps.len() {
        assert(join_from(ps, i + 1) == Seq::<char>::empty());
        assert(join_from(ps.drop_last(), i) == Seq::<char>::empty());
        assert(ps[i as int] + Seq::<char>::empty() == Seq::<char>::empty() + ps.last());
    } else {
        lemma_join_from_last(ps, i + 1);
        assert(ps.drop_last()[i as int] == ps[i as int]);
        assert(join_from(ps.drop_last(), i) == ps[i as int] + join_from(ps.drop_last(), i + 1));
    }
}

proof fn lemma_join_front_back(ps: Seq<Seq<char>>)
    ensures
        join_from(ps, 0) == join_parts(ps),
    decreases ps.len(),
{
    if ps.len() > 0 {
        lemma_join_from_last(ps, 0);
        lemma_join_front_back(ps.drop_last());
    }
}

proof fn lemma_parts_inherit(s: Seq<char>, c: char)
    ensures
        lacks(s, c) ==> forall|j: int| 0 <= j < path_parts(s).len() ==> lacks(#[trigger] path_parts(s)[j], c),
        all_ascii(s) ==> forall|j: int| 0 <= j < path_parts(s).len() ==> all_ascii(#[trigger] path_parts(s)[j]),
    decreases s.len(),
{
    if s.len() > 0 {
        let d = s.drop_last();
        lemma_parts_inherit(d, c);
        let ps = path_parts(d);
        let x = s.last();
        assert(s[s.len() - 1] == x);
        if lacks(s, c) {
            assert(lacks(d, c));
            assert(x != c);
        }
        if all_ascii(s) {
            assert(all_ascii(d));
            assert((x as u32) < 128);
        }
        if ps.len() == 0 || ps.last().last() == PATH_SEPARATOR {
            let q = ps.push(seq![x]);
            assert forall|j: int| 0 <= j < q.len() implies (lacks(s, c) ==> lacks(#[trigger] q[j], c))
                && (all_ascii(s) ==> all_ascii(q[j])) by {
                if j < ps.len() {
                    assert(q[j] == ps[j]);
                }
            }
        } else {
            let q = ps.update(ps.len() - 1, ps.last().push(x));
            assert forall|j: int| 0 <= j < q.len() implies (lacks(s, c) ==> lacks(#[trigger] q[j], c))
                && (all_ascii(s) ==> all_ascii(q[j])) by {
                if j < ps.len() - 1 {
                    assert(q[j] == ps[j]);
                } else {
                    assert(q[j] == ps[ps.len() - 1].push(x));
                }
            }
        }
    }
}

proof fn lemma_decimal_digits(n: nat)
    ensures
        forall|i: int| 0 <= i < decimal(n).len() ==> is_ascii_digit(#[trigger] decimal(n)[i]),
    decreases n,
{
    assert(is_ascii_digit(digit_char(n % 10)));
    if n >= 10 {
        lemma_decimal_digits(n / 10);
        let d = decimal(n / 10);
        assert forall|i: int| 0 <= i < decimal(n).len() implies is_ascii_digit(#[trigger] decimal(n)[i]) by {
            if i < d.len() {
                assert(decimal(n)[i] == d[i]);
            }
        }
    } else {
        assert(decimal(n) == seq![digit_char(n)]);
    }
}

proof fn lemma_digits_run_prefix(d: Seq<char>, r: Seq<char>)
    requires
        forall|i: int| 0 <= i < d.len() ==> is_ascii_digit(#[trigger] d[i]),
    ensures
        digits_run(d + r) == d.len() + digits_run(r),
    decreases d.len(),
{
    if d.len() > 0 {
        assert((d + r).skip(1) == d.skip(1) + r);
        lemma_digits_run_prefix(d.skip(1), r);
        assert((d + r)[0] == d[0]);
    } else {
        assert(d + r == r);
    }
}

proof fn lemma_strip_label(i: nat, t: Seq<char>)
    ensures
        strip_hints(hint_label(i) + t) == strip_hints(t),
{
    let d = decimal(i);
    crate::text::lemma_decimal_nonempty(i);
    lemma_decimal_digits(i);
    let s = hint_label(i) + t;
    assert(s.skip(1) == d + (seq![']'] + t));
    lemma_digits_run_prefix(d, seq![']'] + t);
    assert(!is_ascii_digit((seq![']'] + t)[0]));
    assert(digits_run(seq![']'] + t) == 0);
    assert(s[1 + d.len() as int] == ']');
    assert(hint_at(s) == d.len() + 2);
    assert(s.skip(d.len() + 2 as int) == t);
}

proof fn lemma_strip_clean_prefix(x: Seq<char>, t: Seq<char>)
    requires
        lacks(x, '['),
    ensures
        strip_hints(x + t) == x + strip_hints(t),
    decreases x.len(),
{
    if x.len() == 0 {
        assert(x + t == t);
        assert(x + strip_hints(t) == strip_hints(t));
    } else {
        let s = x + t;
        assert(s[0] == x[0]);
        assert(hint_at(s) == 0);
        assert(s.skip(1) == x.skip(1) + t);
        lemma_strip_clean_prefix(x.skip(1), t);
        assert(seq![x[0]] + (x.skip(1) + strip_hints(t)) == x + strip_hints(t));
    }
}

proof fn lemma_strip_hinted(ps: Seq<Seq<char>>, i: nat)
    requires
        forall|j: int| 0 <= j < ps.len() ==> lacks(#[trigger] ps[j], '['),
    ensures
        strip_hints(hinted_from(ps, i)) == join_from(ps, i),
    decreases ps.len() - i,
{
    if i >= ps.len() {
    } else if i + 1 == ps.len() {
        lemma_strip_clean_prefix(ps[i as int], Seq::empty());
        assert(ps[i as int] + Seq::<char>::empty() == ps[i as int]);
        assert(join_from(ps, i + 1) == Seq::<char>::empty());
    } else {
        lemma_strip_hinted(ps, i + 1);
        let rest = hinted_from(ps, i + 1);
        assert(hinted_from(ps, i) == hint_label(i) + (ps[i as int] + rest));
        lemma_strip_label(i, ps[i as int] + rest);
        lemma_strip_clean_prefix(ps[i as int], rest);
    }
}

proof fn lemma_hinted_ascii(ps: Seq<Seq<char>>, i: nat)
    requires
        forall|j: int| 0 <= j < ps.len() ==> all_ascii(#[trigger] ps[j]),
    ensures
        all_ascii(hinted_from(ps, i)),
    decreases ps.len() - i,
{
    if i + 1 < ps.len() {
        lemma_hinted_ascii(ps, i + 1);
        lemma_decimal_digits(i);
        let l = hint_label(i);
        assert(all_ascii(l));
        let x = ps[i as int];
        let r = hinted_from(ps, i + 1);
        assert(all_ascii(x));
        assert forall|k: int| 0 <= k < (l + x + r).len() implies ((l + x + r)[k] as u32) < 128 by {
            if k < l.len() {
                assert((l + x + r)[k] == l[k]);
            } else if k < l.len() + x.len() {
                assert((l + x + r)[k] == x[k - l.len()]);
            } else {
                assert((l + x + r)[k] == r[k - l.len() - x.len()]);
            }
        }
    } else if i + 1 == ps.len() {
        assert(hinted_from(ps, i) == ps[i as int]);
    }
}

/// Removing the hints from a title gives back the path the hints were added to, for
/// ASCII paths without '[' (a path holding "[12]" itself would lose it).
pub proof fn lemma_hints_roundtrip(s: Seq<char>)
    requires
        all_ascii(s),
        lacks(s, '['),
    ensures
        all_ascii(path_with_hints(s)),
        strip_hints(path_with_hints(s)) == s,
{
    let ps = path_parts(s);
    lemma_parts_inherit(s, '[');
    lemma_hinted_ascii(ps, 0);
    lemma_strip_hinted(ps, 0);
    lemma_join_front_back(ps);
    lemma_parts_join(s);
}

} // verus!
