//! The computing part of the copy commands: which panel copies where, the jobs
//! for the selected entries, the comparison of an existing target with its
//! source, the counters of the copy dialog and the file information text.

use std::cmp::Ordering;
use vstd::prelude::*;
use crate::cp_types::copy_job;
use crate::paths::{file_name, path_file_name};
use crate::text::{chars_of, decimal, digit_char, empty_string, push_all, push_char, push_decimal, string_of};

verus! {

/// One of the two directory panels.
#[derive(Clone, Copy, Debug, PartialEq, Eq, Structural)]
pub enum PanelSide {
    Left,
    Right,
}

/// The panel the user works in, from which panel's table got the focus later: the left
/// one counts as active unless its focus time is the later one, in which case the right one
/// does (the order in which the focus times are compared).
pub fn get_active_table_name(left_focused_later: bool) -> (side: PanelSide)
    ensures
        side == (if left_focused_later { PanelSide::Right } else { PanelSide::Left }),
{
    if left_focused_later {
        PanelSide::Right
    } else {
        PanelSide::Left
    }
}

/// Where a copy goes: from the active panel to the other one.
pub fn copy_direction(active: PanelSide) -> (res: (PanelSide, PanelSide))
    ensures
        res.0 == active,
        res.1 != active,
{
    match active {
        PanelSide::Left => (PanelSide::Left, PanelSide::Right),
        PanelSide::Right => (PanelSide::Right, PanelSide::Left),
    }
}

/// The entries to copy: the selected ones, or the focused one when nothing is selected.
pub fn items_to_copy(selected: Vec<(usize, String)>, focused: (usize, String)) -> (items: Vec<(usize, String)>)
    ensures
        selected@.len() > 0 ==> items@ == selected@,
        selected@.len() == 0 ==> items@ == seq![focused],
{
    let mut items = selected;
    if items.len() == 0 {
        items.push(focused);
        assert(items@ == seq![focused]);
    }
    items
}

/// The target of a copy: the destination directory, "/", then the source's file name.
pub open spec fn copy_target(dest: Seq<char>, source: Seq<char>) -> Seq<char> {
    dest + seq!['/'] + file_name(source)->0
}

/// The copy jobs for `items` (row index and path) into directory `dest_path`: one per item,
/// in order, targeting `dest_path/<file name>`; `None` when an item has no file name.
pub fn prepare_cp_jobs(items: &Vec<(usize, String)>, dest_path: &str) -> (jobs: Option<Vec<copy_job>>)
    ensures
        match jobs {
            None => exists|i: int| 0 <= i < items@.len() && (#[trigger] file_name(items@[i].1@)) is None,
            Some(js) => {
                &&& forall|i: int| 0 <= i < items@.len() ==> (#[trigger] file_name(items@[i].1@)) is Some
                &&& js@.len() == items@.len()
                &&& forall|i: int| 0 <= i < js@.len() ==> {
                    &&& (#[trigger] js@[i]).source@ == items@[i].1@
                    &&& js@[i].target@ == copy_target(dest_path@, items@[i].1@)
                    &&& js@[i].inx == items@[i].0
                }
            },
        },
{
    let mut jobs: Vec<copy_job> = Vec::new();
    let mut i: usize = 0;
    while i < items.len()
        invariant
            i <= items@.len(),
            jobs@.len() == i,
            forall|j: int| 0 <= j < i ==> (#[trigger] file_name(items@[j].1@)) is Some,
            forall|j: int| 0 <= j < i ==> {
                &&& (#[trigger] jobs@[j]).source@ == items@[j].1@
                &&& jobs@[j].target@ == copy_target(dest_path@, items@[j].1@)
                &&& jobs@[j].inx == items@[j].0
            },
        decreases items.len() - i,
    {
        let (inx, source) = (items[i].0, &items[i].1);
        let chars = chars_of(source.as_str());
        match path_file_name(&chars) {
            Some(name) => {
                let mut target = String::from_str(dest_path);
                push_char(&mut target, '/');
                let name_string = string_of(&name);
                push_all(&mut target, name_string.as_str());
                let src = String::from_str(source.as_str());
                jobs.push(copy_job { source: src, target, inx });
            },
            None => {
                return None;
            },
        }
        i = i + 1;
    }
    Some(jobs)
}

/// Compares the sizes of source and target; `Equal` unless both are known.
pub fn compare_paths_for_size(size_a: Option<u64>, size_b: Option<u64>) -> (o: Ordering)
    ensures
        match (size_a, size_b) {
            (Some(a), Some(b)) => o == (if a < b {
                Ordering::Less
            } else if a > b {
                Ordering::Greater
            } else {
                Ordering::Equal
            }),
            _ => o == Ordering::Equal,
        },
{
    match (size_a, size_b) {
        (Some(a), Some(b)) => {
            if a < b {
                Ordering::Less
            } else if a > b {
                Ordering::Greater
            } else {
                Ordering::Equal
            }
        },
        _ => Ordering::Equal,
    }
}

/// Compares the modification times of source and target, given as nanoseconds from the
/// Unix epoch (negative before it); `Equal` unless both are known.
pub fn compare_paths_for_modification_time(time_a: Option<i128>, time_b: Option<i128>) -> (o: Ordering)
    ensures
        match (time_a, time_b) {
            (Some(a), Some(b)) => o == (if a < b {
                Ordering::Less
            } else if a > b {
                Ordering::Greater
            } else {
                Ordering::Equal
            }),
            _ => o == Ordering::Equal,
        },
{
    match (time_a, time_b) {
        (Some(a), Some(b)) => {
            if a < b {
                Ordering::Less
            } else if a > b {
                Ordering::Greater
            } else {
                Ordering::Equal
            }
        },
        _ => Ordering::Equal,
    }
}

pub open spec fn ascii_digit_value(c: char) -> nat {
    ((c as u32) - ('0' as u32)) as nat
}

pub open spec fn is_digit(c: char) -> bool {
    '0' <= c && c <= '9'
}

/// The value of a string of ASCII digits.
pub open spec fn digits_value(s: Seq<char>) -> nat
    decreases s.len(),
{
    if s.len() == 0 {
        0
    } else {
        digits_value(s.drop_last()) * 10 + ascii_digit_value(s.last())
    }
}

/// What `str::parse::<u64>` gives: an optional "+" then at least one ASCII digit, with a
/// value that fits in 64 bits; `None` for anything else.
pub open spec fn parse_u64(s: Seq<char>) -> Option<nat> {
    let d = unsigned_digits(s);
    if d.len() > 0 && all_digits(d) && digits_value(d) <= u64::MAX {
        Some(digits_value(d))
    } else {
        None
    }
}

/// `s` without a leading "+".
pub open spec fn unsigned_digits(s: Seq<char>) -> Seq<char> {
    if s.len() > 0 && s[0] == '+' {
        s.skip(1)
    } else {
        s
    }
}

pub open spec fn all_digits(d: Seq<char>) -> bool {
    forall|i: int| 0 <= i < d.len() ==> is_digit(#[trigger] d[i])
}

/// The number shown in a counter of the copy dialog, 0 when it holds no number.
pub open spec fn shown_number(s: Seq<char>) -> nat {
    match parse_u64(s) {
        Some(n) => n,
        None => 0,
    }
}

proof fn lemma_digits_value_step(d: Seq<char>, i: int)
    requires
        0 <= i < d.len(),
    ensures
        digits_value(d.take(i + 1)) == digits_value(d.take(i)) * 10 + ascii_digit_value(d[i]),
{
    assert(d.take(i + 1).drop_last() == d.take(i));
}

proof fn lemma_digits_value_monotone(d: Seq<char>, i: int, j: int)
    requires
        0 <= i <= j <= d.len(),
    ensures
        digits_value(d.take(i)) <= digits_value(d.take(j)),
    decreases j - i,
{
    if i < j {
        lemma_digits_value_monotone(d, i, j - 1);
        lemma_digits_value_step(d, j - 1);
    }
}

/// The number a counter of the copy dialog shows (0 when it holds no number).
pub fn parse_u64_or_zero(s: &str) -> (n: u64)
    ensures
        n == shown_number(s@),
{
    let cs = chars_of(s);
    let start: usize = if cs.len() > 0 && cs[0] == '+' { 1 } else { 0 };
    let ghost d = unsigned_digits(s@);
    assert(d == cs@.skip(start as int));
    if start >= cs.len() {
        return 0;
    }
    let mut value: u64 = 0;
    let mut i: usize = start;
    while i < cs.len()
        invariant
            start <= i <= cs.len(),
            start < cs.len(),
            cs@ == s@,
            d == cs@.skip(start as int),
            d == unsigned_digits(s@),
            value == digits_value(d.take(i - start)),
            forall|k: int| 0 <= k < i - start ==> is_digit(#[trigger] d[k]),
        decreases cs.len() - i,
    {
        let c = cs[i];
        if !('0' <= c && c <= '9') {
            assert(d[i - start] == c);
            assert(!is_digit(d[i - start]));
            assert(!all_digits(d));
            return 0;
        }
        let digit: u64 = ((c as u32) - ('0' as u32)) as u64;
        proof {
            lemma_digits_value_step(d, i - start);
        }
        assert(d[i - start] == c);
        if value > (u64::MAX - digit) / 10 {
            proof {
                let m: int = u64::MAX as int;
                assert(value * 10 + digit > m) by (nonlinear_arith)
                    requires
                        value > (m - digit) / 10,
                        0 <= digit <= 9,
                        m > 9,
                ;
                lemma_digits_value_monotone(d, i - start + 1, d.len() as int);
                assert(d.take(d.len() as int) == d);
                assert(digits_value(d) > u64::MAX);
            }
            return 0;
        }
        value = value * 10 + digit;
        i = i + 1;
    }
    assert(d.take(d.len() as int) == d);
    value
}

/// The new content of the "total items" counter after `total_items` more jobs arrived.
/// The count must not exceed 64 bits.
pub fn new_total_items_text(shown: &str, total_items: u64) -> (res: String)
    requires
        shown_number(shown@) + total_items <= u64::MAX,
    ensures
        res@ == decimal(shown_number(shown@) + total_items as nat),
{
    let so_far = parse_u64_or_zero(shown);
    crate::text::decimal_string(so_far + total_items)
}

/// The text shown for a file in the "path exists" dialog: its information, or why it could
/// not be read, naming `source` (also for the target, as the dialog does).
pub fn path_info_or_error(info: Result<String, String>, source: &str) -> (s: String)
    ensures
        match info {
            Ok(i) => s@ == i@,
            Err(e) => s@ == "Couldn't get info for "@ + source@ + ", reason: "@ + e@,
        },
{
    match info {
        Ok(i) => i,
        Err(e) => {
            let mut s = String::from_str("Couldn't get info for ");
            push_all(&mut s, source);
            push_all(&mut s, ", reason: ");
            push_all(&mut s, e.as_str());
            s
        },
    }
}

/// `s` right-aligned in `width` characters (`format!("{:>width$}", s)`).
pub open spec fn pad_left(s: Seq<char>, width: nat) -> Seq<char> {
    if s.len() < width {
        Seq::new((width - s.len()) as nat, |i: int| ' ') + s
    } else {
        s
    }
}

fn push_padded(out: &mut String, s: &str, width: usize)
    ensures
        final(out)@ == old(out)@ + pad_left(s@, width as nat),
{
    let cs = chars_of(s);
    let n = cs.len();
    let ghost spaces = Seq::new((width - n) as nat, |i: int| ' ');
    if n < width {
        let mut k: usize = 0;
        while k < width - n
            invariant
                n < width,
                k <= width - n,
                out@ == old(out)@ + Seq::new(k as nat, |i: int| ' '),
            decreases width - n - k,
        {
            push_char(out, ' ');
            assert(Seq::new((k + 1) as nat, |i: int| ' ') == Seq::new(k as nat, |i: int| ' ').push(' '));
            k = k + 1;
        }
    } else {
        assert(old(out)@ + Seq::<char>::empty() == old(out)@);
    }
    push_all(out, s);
}

/// What the file information view shows about a file, gathered from its metadata.
#[derive(Clone, Debug, PartialEq, Eq)]
pub struct FileFacts {
    /// The file type, as its debug text.
    pub file_type: String,
    /// The formatted access, creation and modification times, when known.
    pub accessed: Option<String>,
    pub created: Option<String>,
    pub modified: Option<String>,
    pub size: u64,
    /// The permission bits (`st_mode`).
    pub mode: u32,
}

pub open spec fn time_line(label: Seq<char>, t: Option<String>, width: nat) -> Seq<char> {
    match t {
        Some(v) => label + pad_left(v@, width),
        None => label + "UNKNOWN"@,
    }
}

/// The file information text: one line each for the path, the type, the three times
/// (right-aligned, "UNKNOWN" when not available), the size and the mode.
pub open spec fn file_info_text(path: Seq<char>, f: FileFacts) -> Seq<char> {
    "Path: "@ + path + "\n"@
        + "File type: "@ + f.file_type@ + "\n"@
        + time_line("Access time: "@, f.accessed, 25) + "\n"@
        + time_line("Created time: "@, f.created, 24) + "\n"@
        + time_line("Modified time: "@, f.modified, 23) + "\n"@
        + "Size in bytes: "@ + pad_left(decimal(f.size as nat), 9) + "\n"@
        + "mode: "@ + pad_left(decimal(f.mode as nat), 22)
}

fn push_time_line(out: &mut String, label: &str, t: &Option<String>, width: usize)
    ensures
        final(out)@ == old(out)@ + time_line(label@, *t, width as nat),
{
    push_all(out, label);
    match t {
        Some(v) => push_padded(out, v.as_str(), width),
        None => push_all(out, "UNKNOWN"),
    }
}

/// The information text of the file at `path`.
pub fn format_file_info(path: &str, facts: &FileFacts) -> (s: String)
    ensures
        s@ == file_info_text(path@, *facts),
{
    let mut s = String::from_str("Path: ");
    push_all(&mut s, path);
    push_all(&mut s, "\n");
    push_all(&mut s, "File type: ");
    push_all(&mut s, facts.file_type.as_str());
    push_all(&mut s, "\n");
    push_time_line(&mut s, "Access time: ", &facts.accessed, 25);
    push_all(&mut s, "\n");
    push_time_line(&mut s, "Created time: ", &facts.created, 24);
    push_all(&mut s, "\n");
    push_time_line(&mut s, "Modified time: ", &facts.modified, 23);
    push_all(&mut s, "\n");
    push_all(&mut s, "Size in bytes: ");
    let size = crate::text::decimal_string(facts.size);
    push_padded(&mut s, size.as_str(), 9);
    push_all(&mut s, "\n");
    push_all(&mut s, "mode: ");
    let mode = crate::text::decimal_string(facts.mode as u64);
    push_padded(&mut s, mode.as_str(), 22);
    s
}

/// A copy keeps the file name: the target's file name is the source's.
pub proof fn lemma_copy_target_keeps_name(dest: Seq<char>, source: Seq<char>)
    requires
        file_name(source) is Some,
    ensures
        file_name(copy_target(dest, source)) == file_name(source),
{
    crate::paths::lemma_file_name_plain(source);
    crate::paths::lemma_file_name_of_child(dest, file_name(source)->0);
}

proof fn lemma_digit_value(d: nat)
    requires
        d < 10,
    ensures
        ascii_digit_value(digit_char(d)) == d,
        is_digit(digit_char(d)),
{
}

proof fn lemma_decimal_value(n: nat)
    ensures
        digits_value(decimal(n)) == n,
        all_digits(decimal(n)),
        decimal(n).len() > 0,
        decimal(n)[0] != '+',
    decreases n,
{
    lemma_digit_value(n % 10);
    if n >= 10 {
        lemma_decimal_value(n / 10);
        let d = decimal(n / 10);
        assert(decimal(n).drop_last() == d);
        assert(decimal(n).last() == digit_char(n % 10));
        assert((n / 10) * 10 + n % 10 == n);
        assert(digits_value(decimal(n)) == digits_value(d) * 10 + ascii_digit_value(digit_char(n % 10)));
        assert(decimal(n)[0] == d[0]);
        assert forall|i: int| 0 <= i < decimal(n).len() implies is_digit(#[trigger] decimal(n)[i]) by {
            if i < d.len() {
                assert(decimal(n)[i] == d[i]);
            }
        }
    } else {
        assert(decimal(n) == seq![digit_char(n)]);
        assert(decimal(n).drop_last() == Seq::<char>::empty());
        assert(decimal(n).last() == digit_char(n));
        assert(n % 10 == n);
        assert(digits_value(decimal(n)) == digits_value(Seq::<char>::empty()) * 10 + ascii_digit_value(digit_char(n)));
    }
}

/// The counter of the copy dialog reads back what it shows: the number shown for the text
/// written for `n` is `n`, so successive updates add up.
pub proof fn lemma_counter_reads_back(n: nat, added: nat)
    requires
        n + added <= u64::MAX,
    ensures
        shown_number(decimal(n)) == n,
        shown_number(decimal(shown_number(decimal(n)) + added)) == n + added,
{
    lemma_decimal_value(n);
    lemma_decimal_value(n + added);
}

/// The target of a copy lies directly in the destination directory: its text is the
/// destination's, a separator, then the source's file name, which holds no further separator.
pub proof fn lemma_copy_target_in_dest(dest: Seq<char>, source: Seq<char>)
    requires
        file_name(source) is Some,
    ensures
        copy_target(dest, source).len() == dest.len() + 1 + (file_name(source)->0).len(),
        copy_target(dest, source).take(dest.len() as int) == dest,
        copy_target(dest, source)[dest.len() as int] == '/',
        copy_target(dest, source).skip(dest.len() as int + 1) == file_name(source)->0,
        forall|i: int| dest.len() < i < copy_target(dest, source).len()
            ==> #[trigger] copy_target(dest, source)[i] != '/',
{
    let n = file_name(source)->0;
    let t = copy_target(dest, source);
    crate::paths::lemma_file_name_plain(source);
    assert(t.take(dest.len() as int) =~= dest);
    assert(t.skip(dest.len() as int + 1) =~= n);
    assert forall|i: int| dest.len() < i < t.len() implies #[trigger] t[i] != '/' by {
        assert(t[i] == n[i - dest.len() - 1]);
    }
}

/// `w` stands somewhere in `s`.
pub open spec fn occurs_in(w: Seq<char>, s: Seq<char>) -> bool {
    exists|i: int| 0 <= i && i + w.len() <= s.len() && #[trigger] s.subrange(i, i + w.len()) == w
}

proof fn lemma_occurs_append(w: Seq<char>, s: Seq<char>, y: Seq<char>)
    requires
        occurs_in(w, s),
    ensures
        occurs_in(w, s + y),
{
    let i = choose|i: int| 0 <= i && i + w.len() <= s.len() && #[trigger] s.subrange(i, i + w.len()) == w;
    assert((s + y).subrange(i, i + w.len()) =~= s.subrange(i, i + w.len()));
}

proof fn lemma_prefix_append(s: Seq<char>, y: Seq<char>, k: int)
    requires
        0 <= k <= s.len(),
    ensures
        (s + y).take(k) == s.take(k),
{
    assert((s + y).take(k) =~= s.take(k));
}

proof fn lemma_occurs_line(x: Seq<char>, nl: Seq<char>, a: Seq<char>, b: Seq<char>)
    ensures
        occurs_in(nl + a + b + nl, x + nl + (a + b) + nl),
        occurs_in(nl + a + b + nl, x + nl + a + b + nl),
{
    let w = nl + a + b + nl;
    let s1 = x + nl + (a + b) + nl;
    let s2 = x + nl + a + b + nl;
    assert(s1.subrange(x.len() as int, x.len() as int + w.len()) =~= w);
    assert(s2.subrange(x.len() as int, x.len() as int + w.len()) =~= w);
}

/// Each fact about the file has a line of its own in the information text, showing that
/// fact and no other: the path first, then the type, the access, creation and modification
/// times, the size, and the mode last.
pub proof fn lemma_file_info_shows_each_fact(path: Seq<char>, f: FileFacts)
    ensures
        file_info_text(path, f).take(("Path: "@ + path + "\n"@).len() as int) == "Path: "@ + path + "\n"@,
        occurs_in("\n"@ + "File type: "@ + f.file_type@ + "\n"@, file_info_text(path, f)),
        f.accessed is Some ==> occurs_in("\n"@ + "Access time: "@ + pad_left((f.accessed->0)@, 25) + "\n"@, file_info_text(path, f)),
        f.accessed is None ==> occurs_in("\n"@ + "Access time: "@ + "UNKNOWN"@ + "\n"@, file_info_text(path, f)),
        f.created is Some ==> occurs_in("\n"@ + "Created time: "@ + pad_left((f.created->0)@, 24) + "\n"@, file_info_text(path, f)),
        f.created is None ==> occurs_in("\n"@ + "Created time: "@ + "UNKNOWN"@ + "\n"@, file_info_text(path, f)),
        f.modified is Some ==> occurs_in("\n"@ + "Modified time: "@ + pad_left((f.modified->0)@, 23) + "\n"@, file_info_text(path, f)),
        f.modified is None ==> occurs_in("\n"@ + "Modified time: "@ + "UNKNOWN"@ + "\n"@, file_info_text(path, f)),
        occurs_in("\n"@ + "Size in bytes: "@ + pad_left(decimal(f.size as nat), 9) + "\n"@, file_info_text(path, f)),
        file_info_text(path, f).skip(file_info_text(path, f).len() - ("\n"@ + "mode: "@ + pad_left(decimal(f.mode as nat), 22)).len())
            == "\n"@ + "mode: "@ + pad_left(decimal(f.mode as nat), 22),
{
    let nl = "\n"@;
    let ac = time_line("Access time: "@, f.accessed, 25);
    let cr = time_line("Created time: "@, f.created, 24);
    let mo = time_line("Modified time: "@, f.modified, 23);
    let pad_sz = pad_left(decimal(f.size as nat), 9);
    let pad_md = pad_left(decimal(f.mode as nat), 22);
    let t = file_info_text(path, f);
    let q0 = "Path: "@ + path + nl;
    let q1 = q0 + "File type: "@;
    let q2 = q1 + f.file_type@;
    let q3 = q2 + nl;
    let q4 = q3 + ac;
    let q5 = q4 + nl;
    let q6 = q5 + cr;
    let q7 = q6 + nl;
    let q8 = q7 + mo;
    let q9 = q8 + nl;
    let q10 = q9 + "Size in bytes: "@;
    let q11 = q10 + pad_sz;
    let q12 = q11 + nl;
    let q13 = q12 + "mode: "@;
    let q14 = q13 + pad_md;
    assert(t == q14);
    lemma_prefix_append(q0, "File type: "@, q0.len() as int);
    lemma_prefix_append(q1, f.file_type@, q0.len() as int);
    lemma_prefix_append(q2, nl, q0.len() as int);
    lemma_prefix_append(q3, ac, q0.len() as int);
    lemma_prefix_append(q4, nl, q0.len() as int);
    lemma_prefix_append(q5, cr, q0.len() as int);
    lemma_prefix_append(q6, nl, q0.len() as int);
    lemma_prefix_append(q7, mo, q0.len() as int);
    lemma_prefix_append(q8, nl, q0.len() as int);
    lemma_prefix_append(q9, "Size in bytes: "@, q0.len() as int);
    lemma_prefix_append(q10, pad_sz, q0.len() as int);
    lemma_prefix_append(q11, nl, q0.len() as int);
    lemma_prefix_append(q12, "mode: "@, q0.len() as int);
    lemma_prefix_append(q13, pad_md, q0.len() as int);
    assert(q0.take(q0.len() as int) =~= q0);
    lemma_occurs_line("Path: "@ + path, nl, "File type: "@, f.file_type@);
    lemma_occurs_append(nl + "File type: "@ + f.file_type@ + nl, q3, ac);
    lemma_occurs_append(nl + "File type: "@ + f.file_type@ + nl, q4, nl);
    lemma_occurs_append(nl + "File type: "@ + f.file_type@ + nl, q5, cr);
    lemma_occurs_append(nl + "File type: "@ + f.file_type@ + nl, q6, nl);
    lemma_occurs_append(nl + "File type: "@ + f.file_type@ + nl, q7, mo);
    lemma_occurs_append(nl + "File type: "@ + f.file_type@ + nl, q8, nl);
    lemma_occurs_append(nl + "File type: "@ + f.file_type@ + nl, q9, "Size in bytes: "@);
    lemma_occurs_append(nl + "File type: "@ + f.file_type@ + nl, q10, pad_sz);
    lemma_occurs_append(nl + "File type: "@ + f.file_type@ + nl, q11, nl);
    lemma_occurs_append(nl + "File type: "@ + f.file_type@ + nl, q12, "mode: "@);
    lemma_occurs_append(nl + "File type: "@ + f.file_type@ + nl, q13, pad_md);
    match f.accessed {
        Some(v) => {
            lemma_occurs_line(q2, nl, "Access time: "@, pad_left(v@, 25));
            lemma_occurs_append(nl + "Access time: "@ + pad_left(v@, 25) + nl, q5, cr);
            lemma_occurs_append(nl + "Access time: "@ + pad_left(v@, 25) + nl, q6, nl);
            lemma_occurs_append(nl + "Access time: "@ + pad_left(v@, 25) + nl, q7, mo);
            lemma_occurs_append(nl + "Access time: "@ + pad_left(v@, 25) + nl, q8, nl);
            lemma_occurs_append(nl + "Access time: "@ + pad_left(v@, 25) + nl, q9, "Size in bytes: "@);
            lemma_occurs_append(nl + "Access time: "@ + pad_left(v@, 25) + nl, q10, pad_sz);
            lemma_occurs_append(nl + "Access time: "@ + pad_left(v@, 25) + nl, q11, nl);
            lemma_occurs_append(nl + "Access time: "@ + pad_left(v@, 25) + nl, q12, "mode: "@);
            lemma_occurs_append(nl + "Access time: "@ + pad_left(v@, 25) + nl, q13, pad_md);
        },
        None => {
            lemma_occurs_line(q2, nl, "Access time: "@, "UNKNOWN"@);
            lemma_occurs_append(nl + "Access time: "@ + "UNKNOWN"@ + nl, q5, cr);
            lemma_occurs_append(nl + "Access time: "@ + "UNKNOWN"@ + nl, q6, nl);
            lemma_occurs_append(nl + "Access time: "@ + "UNKNOWN"@ + nl, q7, mo);
            lemma_occurs_append(nl + "Access time: "@ + "UNKNOWN"@ + nl, q8, nl);
            lemma_occurs_append(nl + "Access time: "@ + "UNKNOWN"@ + nl, q9, "Size in bytes: "@);
            lemma_occurs_append(nl + "Access time: "@ + "UNKNOWN"@ + nl, q10, pad_sz);
            lemma_occurs_append(nl + "Access time: "@ + "UNKNOWN"@ + nl, q11, nl);
            lemma_occurs_append(nl + "Access time: "@ + "UNKNOWN"@ + nl, q12, "mode: "@);
            lemma_occurs_append(nl + "Access time: "@ + "UNKNOWN"@ + nl, q13, pad_md);
        },
    }
    match f.created {
        Some(v) => {
            lemma_occurs_line(q4, nl, "Created time: "@, pad_left(v@, 24));
            lemma_occurs_append(nl + "Created time: "@ + pad_left(v@, 24) + nl, q7, mo);
            lemma_occurs_append(nl + "Created time: "@ + pad_left(v@, 24) + nl, q8, nl);
            lemma_occurs_append(nl + "Created time: "@ + pad_left(v@, 24) + nl, q9, "Size in bytes: "@);
            lemma_occurs_append(nl + "Created time: "@ + pad_left(v@, 24) + nl, q10, pad_sz);
            lemma_occurs_append(nl + "Created time: "@ + pad_left(v@, 24) + nl, q11, nl);
            lemma_occurs_append(nl + "Created time: "@ + pad_left(v@, 24) + nl, q12, "mode: "@);
            lemma_occurs_append(nl + "Created time: "@ + pad_left(v@, 24) + nl, q13, pad_md);
        },
        None => {
            lemma_occurs_line(q4, nl, "Created time: "@, "UNKNOWN"@);
            lemma_occurs_append(nl + "Created time: "@ + "UNKNOWN"@ + nl, q7, mo);
            lemma_occurs_append(nl + "Created time: "@ + "UNKNOWN"@ + nl, q8, nl);
            lemma_occurs_append(nl + "Created time: "@ + "UNKNOWN"@ + nl, q9, "Size in bytes: "@);
            lemma_occurs_append(nl + "Created time: "@ + "UNKNOWN"@ + nl, q10, pad_sz);
            lemma_occurs_append(nl + "Created time: "@ + "UNKNOWN"@ + nl, q11, nl);
            lemma_occurs_append(nl + "Created time: "@ + "UNKNOWN"@ + nl, q12, "mode: "@);
            lemma_occurs_append(nl + "Created time: "@ + "UNKNOWN"@ + nl, q13, pad_md);
        },
    }
    match f.modified {
        Some(v) => {
            lemma_occurs_line(q6, nl, "Modified time: "@, pad_left(v@, 23));
            lemma_occurs_append(nl + "Modified time: "@ + pad_left(v@, 23) + nl, q9, "Size in bytes: "@);
            lemma_occurs_append(nl + "Modified time: "@ + pad_left(v@, 23) + nl, q10, pad_sz);
            lemma_occurs_append(nl + "Modified time: "@ + pad_left(v@, 23) + nl, q11, nl);
            lemma_occurs_append(nl + "Modified time: "@ + pad_left(v@, 23) + nl, q12, "mode: "@);
            lemma_occurs_append(nl + "Modified time: "@ + pad_left(v@, 23) + nl, q13, pad_md);
        },
        None => {
            lemma_occurs_line(q6, nl, "Modified time: "@, "UNKNOWN"@);
            lemma_occurs_append(nl + "Modified time: "@ + "UNKNOWN"@ + nl, q9, "Size in bytes: "@);
            lemma_occurs_append(nl + "Modified time: "@ + "UNKNOWN"@ + nl, q10, pad_sz);
            lemma_occurs_append(nl + "Modified time: "@ + "UNKNOWN"@ + nl, q11, nl);
            lemma_occurs_append(nl + "Modified time: "@ + "UNKNOWN"@ + nl, q12, "mode: "@);
            lemma_occurs_append(nl + "Modified time: "@ + "UNKNOWN"@ + nl, q13, pad_md);
        },
    }
    lemma_occurs_line(q8, nl, "Size in bytes: "@, pad_sz);
    lemma_occurs_append(nl + "Size in bytes: "@ + pad_sz + nl, q12, "mode: "@);
    lemma_occurs_append(nl + "Size in bytes: "@ + pad_sz + nl, q13, pad_md);
    let tail = nl + "mode: "@ + pad_md;
    assert(t.skip(t.len() - tail.len()) =~= tail);

}

} // verus!
