//! The rows of the panel tables: directory entries, file information lines and
//! the lines of a viewed file, with the text and order of their columns.

use std::cmp::Ordering;
use vstd::prelude::*;
use crate::paths::{
    compare_path_chars, file_name, has_parent, is_up_dir, order_chars, order_paths, path_file_name, plain_name,
    path_has_parent, path_is_up_dir, path_starts_with_cur_dir, starts_with_cur_dir, to_ordering,
};
use crate::sizes::{bytes_text, format_bytes};
use crate::text::{chars_of, decimal, decimal_string, push_all, split_inclusive,
    split_inclusive_chars, string_of, views};

verus! {

/// The columns of a directory panel.
#[derive(Copy, Clone, PartialEq, Eq, Hash, Debug, Structural)]
pub enum BasicColumn {
    Name,
    Count,
    Rate,
}

/// What could be found out about the modification time of an entry.
#[derive(Clone, Debug, PartialEq, Eq)]
pub enum ModifiedTime {
    /// The modification time, already formatted.
    Formatted(String),
    /// The entry has metadata but no modification time.
    NotAvailable,
    /// The entry's metadata could not be read.
    NoMetadata,
}

/// One entry of a directory panel: its path, its size, whether it is a directory and
/// its modification time.
#[derive(Clone, Debug)]
pub struct DirView {
    pub name: String,
    pub size: u64,
    pub is_dir: bool,
    pub modified: ModifiedTime,
}

/// The single column of the file information panel.
#[derive(Copy, Clone, PartialEq, Eq, Hash, Debug, Structural)]
pub enum InfoColumn {
    Content,
}

/// One line of the file information panel.
#[derive(Clone, Debug)]
pub struct InfoStruct {
    content: String,
}

/// The columns of the file viewer.
#[derive(Copy, Clone, PartialEq, Eq, Hash, Debug, Structural)]
pub enum ViewColumn {
    Count,
    Content,
}

/// One line of the file viewer with its number (counted from 0).
#[derive(Clone, Debug)]
pub struct ViewStruct {
    count: usize,
    content: String,
}

/// The name of the table view inside the panel called `name`.
pub open spec fn table_view_name(name: Seq<char>) -> Seq<char> {
    name + "_tableview"@
}

/// The name of the table view inside the panel called `name`: `name` + "_tableview".
pub fn create_name_for_table_view(name: &str) -> (res: String)
    ensures
        res@ == table_view_name(name@),
{
    let mut res = String::from_str(name);
    push_all(&mut res, "_tableview");
    res
}

/// The text shown for a modification time.
pub open spec fn modified_text(m: ModifiedTime, name: Seq<char>) -> Seq<char> {
    match m {
        ModifiedTime::Formatted(s) => s@,
        ModifiedTime::NotAvailable => "Can't"@,
        ModifiedTime::NoMetadata => "Cannot check modified:"@ + name,
    }
}

/// The text of a column of a directory entry. The name column shows the file name, with a
/// trailing "/" for a directory, and ".." for the entry whose path is ".."; the size column
/// the size with two decimals in its unit; the time column the modification time.
pub open spec fn dir_view_column(d: DirView, column: BasicColumn) -> Seq<char> {
    match column {
        BasicColumn::Name => if d.name@ != ".."@ {
            file_name(d.name@)->0 + (if d.is_dir { "/"@ } else { Seq::empty() })
        } else {
            ".."@
        },
        BasicColumn::Count => bytes_text(d.size as nat, true),
        BasicColumn::Rate => modified_text(d.modified, d.name@),
    }
}

/// Hidden-ness first, then the paths: a visible entry sorts before a hidden one
/// (one whose path starts with a "." component).
pub open spec fn hidden_then_path(a: Seq<char>, b: Seq<char>) -> Ordering {
    if !starts_with_cur_dir(a) && starts_with_cur_dir(b) {
        Ordering::Less
    } else if starts_with_cur_dir(a) && !starts_with_cur_dir(b) {
        Ordering::Greater
    } else {
        path_ordering(a, b)
    }
}

/// The `Ordering` of two paths compared component by component.
pub open spec fn path_ordering(a: Seq<char>, b: Seq<char>) -> Ordering {
    if order_paths(a, b) < 0 {
        Ordering::Less
    } else if order_paths(a, b) > 0 {
        Ordering::Greater
    } else {
        Ordering::Equal
    }
}

/// How two directory entries are ordered by a column. By name: an entry that is ".." sorts
/// after the other one; of two directories, or of two files, the visible one first and
/// otherwise by path; a directory after a file. The other columns do not order.
pub open spec fn dir_view_order(a: DirView, b: DirView, column: BasicColumn) -> Ordering {
    match column {
        BasicColumn::Name => if is_up_dir(a.name@) || is_up_dir(b.name@) {
            Ordering::Greater
        } else if a.is_dir && b.is_dir {
            hidden_then_path(a.name@, b.name@)
        } else if a.is_dir && !b.is_dir {
            Ordering::Greater
        } else if !a.is_dir && b.is_dir {
            Ordering::Less
        } else {
            hidden_then_path(a.name@, b.name@)
        },
        _ => Ordering::Equal,
    }
}

fn is_dot_dot(s: &Vec<char>) -> (b: bool)
    ensures
        b == (s@ == ".."@),
{
    proof {
        reveal_strlit("..");
    }
    let b = s.len() == 2 && s[0] == '.' && s[1] == '.';
    proof {
        if b {
            assert(s@ =~= ".."@);
        }
    }
    b
}

fn modified_column(m: &ModifiedTime, name: &String) -> (s: String)
    ensures
        s@ == modified_text(*m, name@),
{
    match m {
        ModifiedTime::Formatted(t) => String::from_str(t.as_str()),
        ModifiedTime::NotAvailable => String::from_str("Can't"),
        ModifiedTime::NoMetadata => {
            let mut s = String::from_str("Cannot check modified:");
            push_all(&mut s, name.as_str());
            s
        },
    }
}

impl DirView {
    /// An entry of a directory panel.
    pub fn new(name: String, size: u64, is_dir: bool, modified: ModifiedTime) -> (d: DirView)
        ensures
            d.name == name,
            d.size == size,
            d.is_dir == is_dir,
            d.modified == modified,
    {
        DirView { name, size, is_dir, modified }
    }

    /// The text of one column of this entry (see `dir_view_column`). The name column of an
    /// entry whose path has no file name (other than "..") cannot be shown.
    pub fn to_column(&self, column: BasicColumn) -> (s: String)
        requires
            column == BasicColumn::Name && self.name@ != ".."@ ==> file_name(self.name@) is Some,
        ensures
            s@ == dir_view_column(*self, column),
    {
        match column {
            BasicColumn::Name => {
                let name = chars_of(self.name.as_str());
                if !is_dot_dot(&name) {
                    match path_file_name(&name) {
                        Some(f) => {
                            let mut s = string_of(&f);
                            if self.is_dir {
                                push_all(&mut s, "/");
                            } else {
                                proof {
                                    assert(f@ + Seq::<char>::empty() == f@);
                                }
                            }
                            s
                        },
                        None => {
                            proof {
                                assert(false);
                            }
                            String::from_str("..")
                        },
                    }
                } else {
                    String::from_str("..")
                }
            },
            BasicColumn::Count => format_bytes(self.size, true),
            BasicColumn::Rate => modified_column(&self.modified, &self.name),
        }
    }

    /// How this entry and `other` are ordered by `column` (see `dir_view_order`).
    pub fn cmp(&self, other: &Self, column: BasicColumn) -> (o: Ordering)
        ensures
            o == dir_view_order(*self, *other, column),
    {
        match column {
            BasicColumn::Name => {
                let a = chars_of(self.name.as_str());
                let b = chars_of(other.name.as_str());
                if path_is_up_dir(&a) || path_is_up_dir(&b) {
                    Ordering::Greater
                } else if self.is_dir && other.is_dir {
                    hidden_first(&a, &b)
                } else if self.is_dir && !other.is_dir {
                    Ordering::Greater
                } else if !self.is_dir && other.is_dir {
                    Ordering::Less
                } else {
                    hidden_first(&a, &b)
                }
            },
            _ => Ordering::Equal,
        }
    }
}

fn hidden_first(a: &Vec<char>, b: &Vec<char>) -> (o: Ordering)
    ensures
        o == hidden_then_path(a@, b@),
{
    let ha = path_starts_with_cur_dir(a);
    let hb = path_starts_with_cur_dir(b);
    if !ha && hb {
        Ordering::Less
    } else if ha && !hb {
        Ordering::Greater
    } else {
        to_ordering(compare_path_chars(a, b))
    }
}

/// The lines of a text (`str::lines`): split after each '\n', which is dropped together
/// with a '\r' right before it; a final line ending adds no empty line.
pub open spec fn text_lines(s: Seq<char>) -> Seq<Seq<char>> {
    split_inclusive(s, '\n').map_values(|p: Seq<char>| strip_line_ending(p))
}

pub open spec fn strip_line_ending(p: Seq<char>) -> Seq<char> {
    if p.len() > 0 && p.last() == '\n' {
        let q = p.drop_last();
        if q.len() > 0 && q.last() == '\r' {
            q.drop_last()
        } else {
            q
        }
    } else {
        p
    }
}

fn line_of(p: &Vec<char>) -> (s: String)
    ensures
        s@ == strip_line_ending(p@),
{
    let mut n = p.len();
    if n > 0 && p[n - 1] == '\n' {
        n = n - 1;
        if n > 0 && p[n - 1] == '\r' {
            n = n - 1;
        }
    }
    let mut s = crate::text::empty_string();
    let mut i: usize = 0;
    while i < n
        invariant
            n <= p.len(),
            i <= n,
            s@ == p@.take(i as int),
        decreases n - i,
    {
        crate::text::push_char(&mut s, p[i]);
        assert(p@.take(i + 1) == p@.take(i as int).push(p@[i as int]));
        i = i + 1;
    }
    proof {
        if p@.len() > 0 && p@.last() == '\n' {
            let q = p@.drop_last();
            if q.len() > 0 && q.last() == '\r' {
                assert(p@.take(n as int) == q.drop_last());
            } else {
                assert(p@.take(n as int) == q);
            }
        } else {
            assert(p@.take(n as int) == p@);
        }
    }
    s
}

/// The lines of `content` as strings.
pub fn content_lines(content: &str) -> (lines: Vec<String>)
    ensures
        lines@.len() == text_lines(content@).len(),
        forall|i: int| 0 <= i < lines@.len() ==> #[trigger] lines@[i]@ == text_lines(content@)[i],
{
    let chars = chars_of(content);
    let parts = split_inclusive_chars(&chars, '\n');
    let mut lines: Vec<String> = Vec::new();
    let mut i: usize = 0;
    while i < parts.len()
        invariant
            i <= parts@.len(),
            views(parts@) == split_inclusive(content@, '\n'),
            lines@.len() == i,
            forall|j: int| 0 <= j < i ==> #[trigger] lines@[j]@ == text_lines(content@)[j],
        decreases parts.len() - i,
    {
        let l = line_of(&parts[i]);
        assert(views(parts@)[i as int] == parts@[i as int]@);
        lines.push(l);
        i = i + 1;
    }
    lines
}

impl InfoStruct {
    /// A line of the information panel.
    pub fn new(content: String) -> (r: InfoStruct)
        ensures
            r.line() == content@,
    {
        InfoStruct { content }
    }

    /// The line shown.
    pub closed spec fn line(&self) -> Seq<char> {
        self.content@
    }

    /// The text of the column: the line itself.
    pub fn to_column(&self, column: InfoColumn) -> (s: String)
        ensures
            s@ == self.line(),
    {
        String::from_str(self.content.as_str())
    }

    /// Information lines keep their order: every comparison is `Equal`.
    pub fn cmp(&self, other: &Self, column: InfoColumn) -> (o: Ordering)
        ensures
            o == Ordering::Equal,
    {
        Ordering::Equal
    }
}

/// The rows of the information panel for a file: one per line of its information text.
pub fn info_table_items(content: &str) -> (items: Vec<InfoStruct>)
    ensures
        items@.len() == text_lines(content@).len(),
        forall|i: int| 0 <= i < items@.len() ==> #[trigger] items@[i].line() == text_lines(content@)[i],
{
    let lines = content_lines(content);
    let mut items: Vec<InfoStruct> = Vec::new();
    let mut i: usize = 0;
    while i < lines.len()
        invariant
            i <= lines@.len(),
            lines@.len() == text_lines(content@).len(),
            forall|j: int| 0 <= j < lines@.len() ==> #[trigger] lines@[j]@ == text_lines(content@)[j],
            items@.len() == i,
            forall|j: int| 0 <= j < i ==> #[trigger] items@[j].line() == text_lines(content@)[j],
        decreases lines.len() - i,
    {
        let line = String::from_str(lines[i].as_str());
        items.push(InfoStruct { content: line });
        i = i + 1;
    }
    items
}

impl ViewStruct {
    /// A numbered line of the file viewer.
    pub fn new(count: usize, content: String) -> (r: ViewStruct)
        ensures
            r.number() == count,
            r.line() == content@,
    {
        ViewStruct { count, content }
    }

    /// The line number.
    pub closed spec fn number(&self) -> nat {
        self.count as nat
    }

    /// The line shown.
    pub closed spec fn line(&self) -> Seq<char> {
        self.content@
    }

    /// The text of a column: the line number in decimal, or the line.
    pub fn to_column(&self, column: ViewColumn) -> (s: String)
        ensures
            s@ == match column {
                ViewColumn::Count => decimal(self.number()),
                ViewColumn::Content => self.line(),
            },
    {
        match column {
            ViewColumn::Count => decimal_string(self.count as u64),
            ViewColumn::Content => String::from_str(self.content.as_str()),
        }
    }

    /// Viewed lines keep their order: every comparison is `Equal`.
    pub fn cmp(&self, other: &Self, column: ViewColumn) -> (o: Ordering)
        ensures
            o == Ordering::Equal,
    {
        Ordering::Equal
    }
}

/// The rows of the file viewer: each line of `content` with its number, from 0.
pub fn view_table_items(content: &str) -> (items: Vec<ViewStruct>)
    ensures
        items@.len() == text_lines(content@).len(),
        forall|i: int| 0 <= i < items@.len() ==> #[trigger] items@[i].number() == i && items@[i].line() == text_lines(content@)[i],
{
    let lines = content_lines(content);
    let mut items: Vec<ViewStruct> = Vec::new();
    let mut i: usize = 0;
    while i < lines.len()
        invariant
            i <= lines@.len(),
            lines@.len() == text_lines(content@).len(),
            forall|j: int| 0 <= j < lines@.len() ==> #[trigger] lines@[j]@ == text_lines(content@)[j],
            items@.len() == i,
            forall|j: int| 0 <= j < i ==> #[trigger] items@[j].number() == j && items@[j].line() == text_lines(content@)[j],
        decreases lines.len() - i,
    {
        let line = String::from_str(lines[i].as_str());
        items.push(ViewStruct { count: i, content: line });
        i = i + 1;
    }
    items
}

/// The entries of a directory panel: a ".." entry first when the directory has a parent,
/// then the directory's entries in the order given. The first result is the width hint of
/// the name column, which is always 0.
pub fn prepare_items_for_table_view(
    dir: &str,
    up_is_dir: bool,
    up_modified: ModifiedTime,
    entries: Vec<DirView>,
) -> (res: (usize, Vec<DirView>))
    ensures
        res.0 == 0,
        has_parent(dir@) ==> res.1@.len() == entries@.len() + 1 && res.1@[0].name@ == ".."@
            && res.1@[0].size == 0 && res.1@[0].is_dir == up_is_dir && res.1@[0].modified == up_modified
            && res.1@.skip(1) == entries@,
        !has_parent(dir@) ==> res.1@ == entries@,
{
    let d = chars_of(dir);
    let mut items: Vec<DirView> = Vec::new();
    if path_has_parent(&d) {
        items.push(DirView { name: String::from_str(".."), size: 0, is_dir: up_is_dir, modified: up_modified });
    }
    let ghost start = items@;
    let ghost e0 = entries@;
    let mut entries = entries;
    items.append(&mut entries);
    proof {
        if has_parent(dir@) {
            assert(items@.skip(1) == e0) by {
                assert(items@ == start + e0);
            }
        } else {
            assert(items@ == Seq::<DirView>::empty() + e0);
        }
    }
    (0, items)
}

/// The opposite of an ordering.
pub open spec fn reversed(o: Ordering) -> Ordering {
    match o {
        Ordering::Less => Ordering::Greater,
        Ordering::Greater => Ordering::Less,
        Ordering::Equal => Ordering::Equal,
    }
}

/// The name order is antisymmetric for entries other than "..": comparing the other way
/// round gives the opposite result. (An entry that is ".." compares greater both ways.)
pub proof fn lemma_name_order_antisymmetric(a: DirView, b: DirView)
    requires
        !is_up_dir(a.name@),
        !is_up_dir(b.name@),
    ensures
        dir_view_order(a, b, BasicColumn::Name) == reversed(dir_view_order(b, a, BasicColumn::Name)),
{
    crate::paths::lemma_order_paths_antisymmetric(a.name@, b.name@);
}

/// By name, a file sorts before a directory, and ".." sorts after everything else.
pub proof fn lemma_name_order_groups(a: DirView, b: DirView)
    ensures
        !is_up_dir(a.name@) && !is_up_dir(b.name@) && !a.is_dir && b.is_dir ==> dir_view_order(a, b, BasicColumn::Name) == Ordering::Less,
        is_up_dir(a.name@) ==> dir_view_order(a, b, BasicColumn::Name) == Ordering::Greater,
{
}

/// By name, two files (or two directories) of one directory are ordered by their names,
/// compared character by character: "dir/apple.txt" before "dir/zoo.txt". The directory
/// part, the sizes and the times play no part.
pub proof fn lemma_name_order_same_dir(a: DirView, b: DirView, dir: Seq<char>, x: Seq<char>, y: Seq<char>)
    requires
        plain_name(x),
        plain_name(y),
        a.name@ == dir + seq!['/'] + x,
        b.name@ == dir + seq!['/'] + y,
        a.is_dir == b.is_dir,
    ensures
        order_chars(x, y) < 0 ==> dir_view_order(a, b, BasicColumn::Name) == Ordering::Less,
        order_chars(x, y) > 0 ==> dir_view_order(a, b, BasicColumn::Name) == Ordering::Greater,
        order_chars(x, y) == 0 ==> dir_view_order(a, b, BasicColumn::Name) == Ordering::Equal,
{
    crate::paths::lemma_order_paths_same_dir(dir, x, y);
    crate::paths::lemma_order_paths_same_dir(dir, y, x);
}

/// The name column of an entry of a directory shows the entry's own name, with a "/" after
/// it for a directory.
pub proof fn lemma_name_column_of_child(d: DirView, dir: Seq<char>, x: Seq<char>)
    requires
        plain_name(x),
        d.name@ == dir + seq!['/'] + x,
    ensures
        !d.is_dir ==> dir_view_column(d, BasicColumn::Name) == x,
        d.is_dir ==> dir_view_column(d, BasicColumn::Name) == x + "/"@,
{
    crate::paths::lemma_file_name_of_child(dir, x);
    assert(d.name@[dir.len() as int] == '/');
    if d.name@ == ".."@ {
        reveal_strlit("..");
        assert(d.name@.len() == 2);
        assert(d.name@[0] == '.' && d.name@[1] == '.');
        assert(false);
    }
    assert(x + Seq::<char>::empty() =~= x);
}

/// By name, of two files (or two directories) other than "..", a visible one comes before a
/// hidden one (one whose path starts with a "." component).
pub proof fn lemma_name_order_visible_first(a: DirView, b: DirView)
    requires
        !is_up_dir(a.name@),
        !is_up_dir(b.name@),
        a.is_dir == b.is_dir,
        !starts_with_cur_dir(a.name@),
        starts_with_cur_dir(b.name@),
    ensures
        dir_view_order(a, b, BasicColumn::Name) == Ordering::Less,
        dir_view_order(b, a, BasicColumn::Name) == Ordering::Greater,
{
}

} // verus!
