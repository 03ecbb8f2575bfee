//! Unix paths as the panels see them: split into components the way
//! `std::path::Path` does, with the file name, the parent test, the
//! "starts with ." test and the component-wise ordering derived from them.

use std::cmp::Ordering;
use vstd::prelude::*;

verus! {

/// A path component (`std::path::Component` on Unix).
pub enum Comp {
    RootDir,
    CurDir,
    ParentDir,
    Normal(Seq<char>),
}

/// A path component, with the characters of a normal one.
#[derive(Clone, Debug)]
pub enum PathComponent {
    RootDir,
    CurDir,
    ParentDir,
    Normal(Vec<char>),
}

impl PathComponent {
    pub open spec fn view(&self) -> Comp {
        match self {
            PathComponent::RootDir => Comp::RootDir,
            PathComponent::CurDir => Comp::CurDir,
            PathComponent::ParentDir => Comp::ParentDir,
            PathComponent::Normal(v) => Comp::Normal(v@),
        }
    }
}

pub open spec fn comp_views(v: Seq<PathComponent>) -> Seq<Comp> {
    v.map_values(|c: PathComponent| c.view())
}

/// The text between separators ("a//b/" gives "a", "", "b", "").
pub open spec fn segments(s: Seq<char>) -> Seq<Seq<char>>
    decreases s.len(),
{
    if s.len() == 0 {
        seq![Seq::empty()]
    } else {
        let gs = segments(s.drop_last());
        if s.last() == '/' {
            gs.push(Seq::empty())
        } else {
            gs.update(gs.len() - 1, gs.last().push(s.last()))
        }
    }
}

/// The component a segment stands for after the first one; empty and "." segments stand
/// for none.
pub open spec fn segment_components(g: Seq<char>) -> Seq<Comp> {
    if g.len() == 0 || g == seq!['.'] {
        seq![]
    } else if g == seq!['.', '.'] {
        seq![Comp::ParentDir]
    } else {
        seq![Comp::Normal(g)]
    }
}

pub open spec fn body_components(gs: Seq<Seq<char>>) -> Seq<Comp>
    decreases gs.len(),
{
    if gs.len() == 0 {
        seq![]
    } else {
        body_components(gs.drop_last()) + segment_components(gs.last())
    }
}

pub open spec fn has_root(s: Seq<char>) -> bool {
    s.len() > 0 && s[0] == '/'
}

/// The path starts with a "." component: it is "." or starts with "./".
pub open spec fn starts_with_cur_dir(s: Seq<char>) -> bool {
    &&& !has_root(s)
    &&& s.len() > 0
    &&& s[0] == '.'
    &&& (s.len() == 1 || s[1] == '/')
}

/// The components of a path: the root, a leading ".", then the remaining segments that
/// are neither empty nor ".".
pub open spec fn components(s: Seq<char>) -> Seq<Comp> {
    (if has_root(s) { seq![Comp::RootDir] } else { seq![] })
        + (if starts_with_cur_dir(s) { seq![Comp::CurDir] } else { seq![] })
        + body_components(segments(s))
}

/// The last component, if it is a normal one (`Path::file_name`).
pub open spec fn file_name(s: Seq<char>) -> Option<Seq<char>> {
    let cs = components(s);
    if cs.len() > 0 && cs.last() is Normal {
        Some(cs.last()->Normal_0)
    } else {
        None
    }
}

/// The path has a parent (`Path::parent().is_some()`): it has a last component and that
/// is not the root.
pub open spec fn has_parent(s: Seq<char>) -> bool {
    let cs = components(s);
    cs.len() > 0 && !(cs.last() is RootDir)
}

/// The path is equal, component by component, to "..".
pub open spec fn is_up_dir(s: Seq<char>) -> bool {
    components(s) == seq![Comp::ParentDir]
}

/// Three-way comparison as an integer: -1, 0 or 1.
pub open spec fn order_int(a: int, b: int) -> int {
    if a < b {
        -1
    } else if a > b {
        1
    } else {
        0
    }
}

/// Lexicographic comparison of character sequences by code point (the byte order of their
/// UTF-8 encodings).
pub open spec fn order_chars(a: Seq<char>, b: Seq<char>) -> int
    decreases a.len(),
{
    if a.len() == 0 && b.len() == 0 {
        0
    } else if a.len() == 0 {
        -1
    } else if b.len() == 0 {
        1
    } else if a[0] != b[0] {
        order_int((a[0] as u32) as int, (b[0] as u32) as int)
    } else {
        order_chars(a.skip(1), b.skip(1))
    }
}

pub open spec fn comp_rank(c: Comp) -> int {
    match c {
        Comp::RootDir => 0,
        Comp::CurDir => 1,
        Comp::ParentDir => 2,
        Comp::Normal(_) => 3,
    }
}

/// Components are ordered root, ".", "..", then normal ones by their names.
pub open spec fn order_comp(x: Comp, y: Comp) -> int {
    if comp_rank(x) != comp_rank(y) {
        order_int(comp_rank(x), comp_rank(y))
    } else {
        match (x, y) {
            (Comp::Normal(a), Comp::Normal(b)) => order_chars(a, b),
            _ => 0,
        }
    }
}

/// Lexicographic comparison of component sequences.
pub open spec fn order_comps(xs: Seq<Comp>, ys: Seq<Comp>) -> int
    decreases xs.len(),
{
    if xs.len() == 0 && ys.len() == 0 {
        0
    } else if xs.len() == 0 {
        -1
    } else if ys.len() == 0 {
        1
    } else if order_comp(xs[0], ys[0]) != 0 {
        order_comp(xs[0], ys[0])
    } else {
        order_comps(xs.skip(1), ys.skip(1))
    }
}

/// The order of two paths (`Path::cmp`): their components compared in turn.
pub open spec fn order_paths(a: Seq<char>, b: Seq<char>) -> int {
    order_comps(components(a), components(b))
}

fn classify_segment(out: &mut Vec<PathComponent>, g: Vec<char>)
    ensures
        comp_views(final(out)@) == comp_views(old(out)@) + segment_components(g@),
{
    let ghost o = comp_views(out@);
    if g.len() == 0 || (g.len() == 1 && g[0] == '.') {
        assert(g@.len() == 0 || g@ == seq!['.']);
        assert(o + Seq::<Comp>::empty() == o);
    } else if g.len() == 2 && g[0] == '.' && g[1] == '.' {
        assert(g@ == seq!['.', '.']);
        out.push(PathComponent::ParentDir);
        assert(comp_views(out@) == o.push(Comp::ParentDir));
        assert(o.push(Comp::ParentDir) == o + seq![Comp::ParentDir]);
    } else {
        assert(g@ != seq!['.']);
        assert(g@ != seq!['.', '.']);
        let ghost gv = g@;
        out.push(PathComponent::Normal(g));
        assert(comp_views(out@) == o.push(Comp::Normal(gv)));
        assert(o.push(Comp::Normal(gv)) == o + seq![Comp::Normal(gv)]);
    }
}

/// The components of a path (`Path::components`).
pub fn path_components(s: &Vec<char>) -> (res: Vec<PathComponent>)
    ensures
        comp_views(res@) == components(s@),
{
    let mut out: Vec<PathComponent> = Vec::new();
    let root = s.len() > 0 && s[0] == '/';
    let cur_dir = !root && s.len() > 0 && s[0] == '.' && (s.len() == 1 || s[1] == '/');
    if root {
        out.push(PathComponent::RootDir);
    }
    if cur_dir {
        out.push(PathComponent::CurDir);
    }
    let ghost head = comp_views(out@);
    assert(head == (if has_root(s@) { seq![Comp::RootDir] } else { seq![] })
        + (if starts_with_cur_dir(s@) { seq![Comp::CurDir] } else { seq![] }));
    let mut cur: Vec<char> = Vec::new();
    let mut i: usize = 0;
    assert(s@.take(0) == Seq::<char>::empty());
    while i < s.len()
        invariant
            i <= s.len(),
            segments(s@.take(i as int)).len() >= 1,
            segments(s@.take(i as int)).last() == cur@,
            comp_views(out@) == head + body_components(segments(s@.take(i as int)).drop_last()),
        decreases s.len() - i,
    {
        let c = s[i];
        let ghost gs = segments(s@.take(i as int));
        assert(s@.take(i + 1).drop_last() == s@.take(i as int));
        assert(s@.take(i + 1).last() == c);
        if c == '/' {
            let g = cur;
            cur = Vec::new();
            let ghost gv = g@;
            classify_segment(&mut out, g);
            assert(segments(s@.take(i + 1)) == gs.push(Seq::empty()));
            assert(gs.push(Seq::<char>::empty()).drop_last() == gs);
            assert(gs.drop_last().push(gv) == gs);
            assert(body_components(gs) == body_components(gs.drop_last()) + segment_components(gv));
        } else {
            cur.push(c);
            let ghost ns = gs.update(gs.len() - 1, gs.last().push(c));
            assert(segments(s@.take(i + 1)) == ns);
            assert(ns.drop_last() == gs.drop_last());
        }
        i = i + 1;
    }
    assert(s@.take(s.len() as int) == s@);
    let ghost gs = segments(s@);
    let ghost gv = cur@;
    classify_segment(&mut out, cur);
    assert(body_components(gs) == body_components(gs.drop_last()) + segment_components(gv));
    out
}

/// The file name of a path (`Path::file_name`): its last component when that is a normal one.
pub fn path_file_name(s: &Vec<char>) -> (res: Option<Vec<char>>)
    ensures
        match res {
            Some(v) => file_name(s@) == Some(v@),
            None => file_name(s@) is None,
        },
{
    let mut cs = path_components(s);
    match cs.pop() {
        Some(PathComponent::Normal(v)) => Some(v),
        _ => None,
    }
}

/// Whether a path has a parent (`Path::parent().is_some()`).
pub fn path_has_parent(s: &Vec<char>) -> (b: bool)
    ensures
        b == has_parent(s@),
{
    let cs = path_components(s);
    if cs.len() == 0 {
        false
    } else {
        match &cs[cs.len() - 1] {
            PathComponent::RootDir => false,
            _ => true,
        }
    }
}

/// Whether a path starts with a "." component (`Path::starts_with(".")`).
pub fn path_starts_with_cur_dir(s: &Vec<char>) -> (b: bool)
    ensures
        b == starts_with_cur_dir(s@),
{
    s.len() > 0 && s[0] == '.' && (s.len() == 1 || s[1] == '/')
}

/// Whether a path equals ".." component by component.
pub fn path_is_up_dir(s: &Vec<char>) -> (b: bool)
    ensures
        b == is_up_dir(s@),
{
    let cs = path_components(s);
    let b = cs.len() == 1 && match &cs[0] {
        PathComponent::ParentDir => true,
        _ => false,
    };
    proof {
        if b {
            assert(comp_views(cs@) =~= seq![Comp::ParentDir]);
        } else if comp_views(cs@) == seq![Comp::ParentDir] {
            assert(comp_views(cs@)[0] == Comp::ParentDir);
        }
    }
    b
}

fn order3(a: u32, b: u32) -> (r: i8)
    ensures
        r == order_int(a as int, b as int),
{
    if a < b {
        -1
    } else if a > b {
        1
    } else {
        0
    }
}

/// Compares two character sequences by code point: -1, 0 or 1.
pub fn compare_chars(a: &Vec<char>, b: &Vec<char>) -> (r: i8)
    ensures
        r == order_chars(a@, b@),
{
    let mut i: usize = 0;
    assert(a@.skip(0) == a@);
    assert(b@.skip(0) == b@);
    while i < a.len() && i < b.len()
        invariant
            i <= a.len(),
            i <= b.len(),
            order_chars(a@, b@) == order_chars(a@.skip(i as int), b@.skip(i as int)),
        decreases a.len() - i,
    {
        if a[i] != b[i] {
            assert(a@.skip(i as int)[0] == a[i as int]);
            assert(b@.skip(i as int)[0] == b[i as int]);
            let ca: u32 = a[i] as u32;
            let cb: u32 = b[i] as u32;
            return order3(ca, cb);
        }
        assert(a@.skip(i as int).skip(1) == a@.skip(i + 1));
        assert(b@.skip(i as int).skip(1) == b@.skip(i + 1));
        i = i + 1;
    }
    if i == a.len() && i == b.len() {
        0
    } else if i == a.len() {
        -1
    } else {
        1
    }
}

fn rank(c: &PathComponent) -> (r: u32)
    ensures
        r == comp_rank(c.view()),
{
    match c {
        PathComponent::RootDir => 0,
        PathComponent::CurDir => 1,
        PathComponent::ParentDir => 2,
        PathComponent::Normal(_) => 3,
    }
}

fn compare_component(x: &PathComponent, y: &PathComponent) -> (r: i8)
    ensures
        r == order_comp(x.view(), y.view()),
{
    let rx = rank(x);
    let ry = rank(y);
    if rx != ry {
        order3(rx, ry)
    } else {
        match (x, y) {
            (PathComponent::Normal(a), PathComponent::Normal(b)) => compare_chars(a, b),
            _ => 0,
        }
    }
}

/// Compares two paths component by component (`Path::cmp`): -1, 0 or 1.
pub fn compare_path_chars(a: &Vec<char>, b: &Vec<char>) -> (r: i8)
    ensures
        r == order_paths(a@, b@),
{
    let xs = path_components(a);
    let ys = path_components(b);
    let ghost xv = comp_views(xs@);
    let ghost yv = comp_views(ys@);
    let mut i: usize = 0;
    assert(xv.skip(0) == xv);
    assert(yv.skip(0) == yv);
    while i < xs.len() && i < ys.len()
        invariant
            i <= xs.len(),
            i <= ys.len(),
            xv == comp_views(xs@),
            yv == comp_views(ys@),
            xv == components(a@),
            yv == components(b@),
            order_comps(xv, yv) == order_comps(xv.skip(i as int), yv.skip(i as int)),
        decreases xs.len() - i,
    {
        let r = compare_component(&xs[i], &ys[i]);
        assert(xv.skip(i as int)[0] == xs@[i as int].view());
        assert(yv.skip(i as int)[0] == ys@[i as int].view());
        assert(xv.skip(i as int).len() > 0 && yv.skip(i as int).len() > 0);
        if r != 0 {
            let ghost xa = xv.skip(i as int);
            let ghost ya = yv.skip(i as int);
            assert(order_comp(xa[0], ya[0]) == r);
            assert(order_comps(xa, ya) == order_comp(xa[0], ya[0]));
            return r;
        }
        assert(xv.skip(i as int).skip(1) == xv.skip(i + 1));
        assert(yv.skip(i as int).skip(1) == yv.skip(i + 1));
        i = i + 1;
    }
    if i == xs.len() && i == ys.len() {
        0
    } else if i == xs.len() {
        -1
    } else {
        1
    }
}

/// The `Ordering` for a three-way comparison result.
pub fn to_ordering(r: i8) -> (o: Ordering)
    ensures
        r < 0 ==> o == Ordering::Less,
        r == 0 ==> o == Ordering::Equal,
        r > 0 ==> o == Ordering::Greater,
{
    if r < 0 {
        Ordering::Less
    } else if r > 0 {
        Ordering::Greater
    } else {
        Ordering::Equal
    }
}

/// Comparing characters the other way round gives the opposite result.
pub proof fn lemma_order_chars_antisymmetric(a: Seq<char>, b: Seq<char>)
    ensures
        order_chars(a, b) == -order_chars(b, a),
    decreases a.len(),
{
    if a.len() > 0 && b.len() > 0 && a[0] == b[0] {
        lemma_order_chars_antisymmetric(a.skip(1), b.skip(1));
    }
}

/// Names are ordered lexicographically by code point: where two names first differ, the one
/// with the smaller character comes first, whatever their lengths; a name that is a proper
/// prefix of another comes before it; equal names are equal.
pub proof fn lemma_order_chars_lexicographic(a: Seq<char>, b: Seq<char>, i: int)
    requires
        0 <= i <= a.len(),
        i <= b.len(),
        a.take(i) == b.take(i),
    ensures
        i < a.len() && i < b.len() && (a[i] as u32) < (b[i] as u32) ==> order_chars(a, b) == -1,
        i < a.len() && i < b.len() && (a[i] as u32) > (b[i] as u32) ==> order_chars(a, b) == 1,
        i == a.len() && i < b.len() ==> order_chars(a, b) == -1,
        i < a.len() && i == b.len() ==> order_chars(a, b) == 1,
        i == a.len() && i == b.len() ==> order_chars(a, b) == 0 && a == b,
    decreases i,
{
    if i > 0 {
        assert(a[0] == a.take(i)[0]);
        assert(b[0] == b.take(i)[0]);
        assert(a.skip(1).take(i - 1) =~= a.take(i).skip(1));
        assert(b.skip(1).take(i - 1) =~= b.take(i).skip(1));
        lemma_order_chars_lexicographic(a.skip(1), b.skip(1), i - 1);
        if i == a.len() && i == b.len() {
            assert(a =~= a.take(i));
            assert(b =~= b.take(i));
        }
    } else {
        if i == a.len() && i == b.len() {
            assert(a =~= b);
        }
    }
}

/// The names of two entries compare as their code points do at the first place where they
/// differ: for example "apple.txt" comes before "zoo.txt".
pub proof fn lemma_order_chars_first_difference(a: Seq<char>, b: Seq<char>)
    requires
        a.len() > 0,
        b.len() > 0,
        (a[0] as u32) < (b[0] as u32),
    ensures
        order_chars(a, b) == -1,
        order_chars(b, a) == 1,
        order_comp(Comp::Normal(a), Comp::Normal(b)) == -1,
{
    assert(a.take(0) =~= b.take(0));
    lemma_order_chars_lexicographic(a, b, 0);
    lemma_order_chars_lexicographic(b, a, 0);
}

/// Paths are ordered lexicographically by their components: where the component lists first
/// differ, that pair of components decides; a path whose components begin another's comes
/// before it. Of two components, the root comes first, then ".", then "..", then names.
pub proof fn lemma_order_comps_lexicographic(xs: Seq<Comp>, ys: Seq<Comp>, i: int)
    requires
        0 <= i <= xs.len(),
        i <= ys.len(),
        forall|j: int| 0 <= j < i ==> order_comp(#[trigger] xs[j], ys[j]) == 0,
    ensures
        i < xs.len() && i < ys.len() && order_comp(xs[i], ys[i]) != 0 ==> order_comps(xs, ys) == order_comp(xs[i], ys[i]),
        i == xs.len() && i < ys.len() ==> order_comps(xs, ys) == -1,
        i < xs.len() && i == ys.len() ==> order_comps(xs, ys) == 1,
        i == xs.len() && i == ys.len() ==> order_comps(xs, ys) == 0,
        order_comp(Comp::RootDir, Comp::CurDir) == -1,
        order_comp(Comp::CurDir, Comp::ParentDir) == -1,
        forall|n: Seq<char>| order_comp(Comp::ParentDir, Comp::Normal(n)) == -1,
    decreases i,
{
    if i > 0 {
        assert(order_comp(xs[0], ys[0]) == 0);
        assert forall|j: int| 0 <= j < i - 1 implies order_comp(#[trigger] xs.skip(1)[j], ys.skip(1)[j]) == 0 by {
            assert(xs.skip(1)[j] == xs[j + 1]);
            assert(ys.skip(1)[j] == ys[j + 1]);
        }
        lemma_order_comps_lexicographic(xs.skip(1), ys.skip(1), i - 1);
        if i < xs.len() && i < ys.len() {
            assert(xs.skip(1)[i - 1] == xs[i]);
            assert(ys.skip(1)[i - 1] == ys[i]);
        }
    }
}

/// Comparing components the other way round gives the opposite result.
pub proof fn lemma_order_comps_antisymmetric(xs: Seq<Comp>, ys: Seq<Comp>)
    ensures
        order_comps(xs, ys) == -order_comps(ys, xs),
    decreases xs.len(),
{
    if xs.len() > 0 && ys.len() > 0 {
        match (xs[0], ys[0]) {
            (Comp::Normal(a), Comp::Normal(b)) => lemma_order_chars_antisymmetric(a, b),
            _ => {},
        }
        assert(order_comp(xs[0], ys[0]) == -order_comp(ys[0], xs[0]));
        lemma_order_comps_antisymmetric(xs.skip(1), ys.skip(1));
    }
}

/// Comparing paths the other way round gives the opposite result.
pub proof fn lemma_order_paths_antisymmetric(a: Seq<char>, b: Seq<char>)
    ensures
        order_paths(a, b) == -order_paths(b, a),
{
    lemma_order_comps_antisymmetric(components(a), components(b));
}

/// Every component compares equal to itself.
pub proof fn lemma_order_comp_reflexive(x: Comp)
    ensures
        order_comp(x, x) == 0,
{
    if let Comp::Normal(a) = x {
        lemma_order_chars_lexicographic(a, a, a.len() as int);
    }
}

/// Component sequences with a common beginning compare as what follows it.
pub proof fn lemma_order_comps_common_prefix(p: Seq<Comp>, xs: Seq<Comp>, ys: Seq<Comp>)
    ensures
        order_comps(p + xs, p + ys) == order_comps(xs, ys),
    decreases p.len(),
{
    if p.len() > 0 {
        lemma_order_comp_reflexive(p[0]);
        assert((p + xs)[0] == p[0]);
        assert((p + ys)[0] == p[0]);
        assert((p + xs).skip(1) =~= p.skip(1) + xs);
        assert((p + ys).skip(1) =~= p.skip(1) + ys);
        lemma_order_comps_common_prefix(p.skip(1), xs, ys);
    } else {
        assert(p + xs =~= xs);
        assert(p + ys =~= ys);
    }
}

/// The components of `dir/name`, for a plain `name`: those of the path up to the name, then
/// the name; the part before the name depends on `dir` alone.
proof fn lemma_components_of_child(dir: Seq<char>, n: Seq<char>, m: Seq<char>)
    requires
        plain_name(n),
        plain_name(m),
    ensures
        exists|pre: Seq<Comp>| components(dir + seq!['/'] + n) == pre + seq![Comp::Normal(n)]
            && components(dir + seq!['/'] + m) == pre + seq![Comp::Normal(m)],
        starts_with_cur_dir(dir + seq!['/'] + n) == starts_with_cur_dir(dir + seq!['/'] + m),
{
    let sn = dir + seq!['/'] + n;
    let sm = dir + seq!['/'] + m;
    lemma_segments_append_plain(dir, n);
    lemma_segments_append_plain(dir, m);
    let gn = segments(dir).push(n);
    let gm = segments(dir).push(m);
    assert(gn.drop_last() == segments(dir));
    assert(gm.drop_last() == segments(dir));
    assert(sn[0] == sm[0]);
    if dir.len() > 0 {
        assert(sn[1] == sm[1]);
    }
    assert(has_root(sn) == has_root(sm));
    assert(starts_with_cur_dir(sn) == starts_with_cur_dir(sm));
    let pre = (if has_root(sn) { seq![Comp::RootDir] } else { seq![] })
        + (if starts_with_cur_dir(sn) { seq![Comp::CurDir] } else { seq![] })
        + body_components(segments(dir));
    assert(components(sn) =~= pre + seq![Comp::Normal(n)]);
    assert(components(sm) =~= pre + seq![Comp::Normal(m)]);
}

/// Two entries of one directory are ordered by their names alone, character by character:
/// the order of `dir/x` and `dir/y` is that of `x` and `y`.
pub proof fn lemma_order_paths_same_dir(dir: Seq<char>, x: Seq<char>, y: Seq<char>)
    requires
        plain_name(x),
        plain_name(y),
    ensures
        order_paths(dir + seq!['/'] + x, dir + seq!['/'] + y) == order_chars(x, y),
        starts_with_cur_dir(dir + seq!['/'] + x) == starts_with_cur_dir(dir + seq!['/'] + y),
        !is_up_dir(dir + seq!['/'] + x),
{
    lemma_components_of_child(dir, x, y);
    let pre = choose|pre: Seq<Comp>| components(dir + seq!['/'] + x) == pre + seq![Comp::Normal(x)]
        && components(dir + seq!['/'] + y) == pre + seq![Comp::Normal(y)];
    lemma_order_comps_common_prefix(pre, seq![Comp::Normal(x)], seq![Comp::Normal(y)]);
    let xs = seq![Comp::Normal(x)];
    let ys = seq![Comp::Normal(y)];
    assert(xs.skip(1) =~= Seq::<Comp>::empty());
    assert(ys.skip(1) =~= Seq::<Comp>::empty());
    assert(xs[0] == Comp::Normal(x));
    assert(ys[0] == Comp::Normal(y));
    assert(order_comp(xs[0], ys[0]) == order_chars(x, y));
    assert(order_comps(xs.skip(1), ys.skip(1)) == 0);
    assert(order_comps(xs, ys) == order_chars(x, y));
    lemma_file_name_of_child(dir, x);
}

/// Where the body of a path starts: after the root or the leading ".".
pub open spec fn body_start(s: Seq<char>) -> nat {
    (if has_root(s) { 1nat } else { 0nat }) + (if starts_with_cur_dir(s) { 1nat } else { 0nat })
}

/// The index of the last separator at or after `b`.
pub open spec fn last_sep_after(s: Seq<char>, b: nat) -> Option<nat>
    decreases s.len(),
{
    if s.len() <= b {
        None
    } else if s.last() == '/' {
        Some((s.len() - 1) as nat)
    } else {
        last_sep_after(s.drop_last(), b)
    }
}

/// The separator found after `b` is a separator inside the path, at or after `b`.
pub proof fn lemma_last_sep_bounds(s: Seq<char>, b: nat)
    ensures
        last_sep_after(s, b) matches Some(i) ==> b <= i < s.len() && s[i as int] == '/',
    decreases s.len(),
{
    if s.len() > b && s.last() != '/' {
        lemma_last_sep_bounds(s.drop_last(), b);
    }
}

/// The length left when the last segment and the separator before it are cut off.
pub open spec fn back_cut(s: Seq<char>, b: nat) -> nat {
    match last_sep_after(s, b) {
        Some(i) => i,
        None => b,
    }
}

/// The last segment of the body.
pub open spec fn back_piece(s: Seq<char>, b: nat) -> Seq<char> {
    match last_sep_after(s, b) {
        Some(i) => s.skip(i + 1 as int),
        None => s.skip(b as int),
    }
}

/// `s` without trailing separators and "." segments, never cutting into the first `b`
/// characters.
pub open spec fn trim_right(s: Seq<char>, b: nat) -> Seq<char>
    decreases s.len(),
{
    if s.len() <= b {
        s
    } else {
        let g = back_piece(s, b);
        if g.len() == 0 || g == seq!['.'] {
            proof {
                lemma_last_sep_bounds(s, b);
            }
            trim_right(s.take(back_cut(s, b) as int), b)
        } else {
            s
        }
    }
}

/// The parent of a path as text (`Path::parent`): the path without its last component and
/// the separators and "." segments around it; `None` for the root and the empty path.
pub open spec fn parent_text(s: Seq<char>) -> Option<Seq<char>> {
    let b = body_start(s);
    let t = trim_right(s, b);
    if t.len() > b {
        Some(trim_right(t.take(back_cut(t, b) as int), b))
    } else if starts_with_cur_dir(s) {
        Some(Seq::empty())
    } else {
        None
    }
}

/// The path after `PathBuf::pop`: its parent, or the path itself when it has none.
pub open spec fn popped(s: Seq<char>) -> Seq<char> {
    match parent_text(s) {
        Some(p) => p,
        None => s,
    }
}

/// `p` joined onto `base` (`PathBuf::join`): an absolute `p` replaces `base`, otherwise a
/// separator is put between them when `base` is not empty and does not end with one.
pub open spec fn joined(base: Seq<char>, p: Seq<char>) -> Seq<char> {
    if p.len() > 0 && p[0] == '/' {
        p
    } else if base.len() > 0 && base.last() != '/' {
        base + seq!['/'] + p
    } else {
        base + p
    }
}

fn last_sep(s: &Vec<char>, n: usize, b: usize) -> (r: Option<usize>)
    requires
        n <= s.len(),
    ensures
        match r {
            Some(i) => last_sep_after(s@.take(n as int), b as nat) == Some(i as nat),
            None => last_sep_after(s@.take(n as int), b as nat) is None,
        },
{
    let mut k: usize = n;
    while k > b
        invariant
            k <= n <= s.len(),
            last_sep_after(s@.take(n as int), b as nat) == last_sep_after(s@.take(k as int), b as nat),
        decreases k,
    {
        assert(s@.take(k as int).last() == s@[k - 1]);
        if s[k - 1] == '/' {
            return Some(k - 1);
        }
        assert(s@.take(k as int).drop_last() == s@.take(k - 1));
        k = k - 1;
    }
    None
}

fn trim_len(s: &Vec<char>, n: usize, b: usize) -> (r: usize)
    requires
        n <= s.len(),
    ensures
        r <= n,
        s@.take(r as int) == trim_right(s@.take(n as int), b as nat),
{
    let mut m: usize = n;
    while m > b
        invariant
            m <= n <= s.len(),
            trim_right(s@.take(m as int), b as nat) == trim_right(s@.take(n as int), b as nat),
        decreases m,
    {
        let ghost t = s@.take(m as int);
        let sep = last_sep(s, m, b);
        proof {
            lemma_last_sep_bounds(t, b as nat);
        }
        let start: usize = match sep {
            Some(i) => i + 1,
            None => b,
        };
        let cut: usize = match sep {
            Some(i) => i,
            None => b,
        };
        proof {
            lemma_last_sep_bounds(t, b as nat);
        }
        assert(back_piece(t, b as nat) == s@.subrange(start as int, m as int));
        let piece_len = m - start;
        let is_dot = piece_len == 1 && s[start] == '.';
        if piece_len == 0 || is_dot {
            proof {
                if is_dot {
                    assert(back_piece(t, b as nat) =~= seq!['.']);
                }
                assert(t.take(cut as int) == s@.take(cut as int));
            }
            m = cut;
        } else {
            proof {
                if back_piece(t, b as nat) == seq!['.'] {
                    assert(back_piece(t, b as nat)[0] == s@[start as int]);
                }
            }
            return m;
        }
    }
    m
}

fn body_start_exec(s: &Vec<char>) -> (b: usize)
    ensures
        b == body_start(s@),
        b <= 1,
{
    if s.len() > 0 && s[0] == '/' {
        1
    } else if s.len() > 0 && s[0] == '.' && (s.len() == 1 || s[1] == '/') {
        1
    } else {
        0
    }
}

/// The text of a path after `PathBuf::pop`.
pub fn pop_path(s: &Vec<char>) -> (r: Vec<char>)
    ensures
        r@ == popped(s@),
{
    let b = body_start_exec(s);
    assert(s@.take(s.len() as int) == s@);
    let tl = trim_len(s, s.len(), b);
    let keep: usize = if tl > b {
        let sep = last_sep(s, tl, b);
        let cut: usize = match sep {
            Some(i) => i,
            None => b,
        };
        proof {
            lemma_last_sep_bounds(s@.take(tl as int), b as nat);
            assert(s@.take(tl as int).take(cut as int) == s@.take(cut as int));
        }
        trim_len(s, cut, b)
    } else if s.len() > 0 && s[0] == '.' && (s.len() == 1 || s[1] == '/') {
        0
    } else {
        s.len()
    };
    let mut r: Vec<char> = Vec::new();
    let mut i: usize = 0;
    while i < keep
        invariant
            keep <= s.len(),
            i <= keep,
            r@ == s@.take(i as int),
        decreases keep - i,
    {
        r.push(s[i]);
        assert(s@.take(i + 1) == s@.take(i as int).push(s@[i as int]));
        i = i + 1;
    }
    proof {
        if !(tl > b) && !starts_with_cur_dir(s@) {
            assert(s@.take(s.len() as int) == s@);
        }
        if !(tl > b) && starts_with_cur_dir(s@) {
            assert(s@.take(0) == Seq::<char>::empty());
        }
    }
    r
}

/// The text of `p` joined onto `base` (`PathBuf::join`).
pub fn join_path(base: &Vec<char>, p: &Vec<char>) -> (r: Vec<char>)
    ensures
        r@ == joined(base@, p@),
{
    if p.len() > 0 && p[0] == '/' {
        return p.clone();
    }
    let mut r = base.clone();
    if base.len() > 0 && base[base.len() - 1] != '/' {
        r.push('/');
    }
    let ghost r0 = r@;
    let mut i: usize = 0;
    while i < p.len()
        invariant
            i <= p.len(),
            r@ == r0 + p@.take(i as int),
        decreases p.len() - i,
    {
        r.push(p[i]);
        assert(p@.take(i + 1) == p@.take(i as int).push(p@[i as int]));
        i = i + 1;
    }
    assert(p@.take(p.len() as int) == p@);
    r
}

/// A plain entry name: not empty, not "." or "..", without separators.
pub open spec fn plain_name(n: Seq<char>) -> bool {
    &&& n.len() > 0
    &&& n != seq!['.']
    &&& n != seq!['.', '.']
    &&& forall|i: int| 0 <= i < n.len() ==> n[i] != '/'
}

proof fn lemma_no_sep_tail(d: Seq<char>, n: Seq<char>, b: nat)
    requires
        forall|i: int| 0 <= i < n.len() ==> n[i] != '/',
    ensures
        last_sep_after(d + n, b) == last_sep_after(d, b),
    decreases n.len(),
{
    if n.len() > 0 {
        assert((d + n).drop_last() == d + n.drop_last());
        assert((d + n).last() == n.last());
        lemma_no_sep_tail(d, n.drop_last(), b);
    } else {
        assert(d + n == d);
    }
}

/// Going into a plain entry and back up returns to the directory one came from, for a
/// directory path without trailing separators or "." segments.
pub proof fn lemma_down_then_up(d: Seq<char>, n: Seq<char>)
    requires
        plain_name(n),
        trim_right(d, body_start(d)) == d,
    ensures
        popped(joined(d, n)) == d,
{
    let j = joined(d, n);
    let b = body_start(d);
    if d.len() == 0 {
        assert(j == n);
        assert(!(n.len() > 1 && n[1] == '/'));
        assert(body_start(j) == 0) by {
            if n.len() == 1 && n[0] == '.' {
                assert(n == seq!['.']);
            }
        }
        lemma_no_sep_tail(Seq::empty(), n, 0);
        assert(Seq::<char>::empty() + n == n);
        assert(last_sep_after(n, 0) is None);
        assert(back_piece(n, 0) == n);
        assert(trim_right(j, 0) == j);
        assert(j.take(0) == Seq::<char>::empty());
    } else if d.last() == '/' {
        assert(d.len() <= b) by {
            if d.len() > b {
                assert(last_sep_after(d, b) == Some((d.len() - 1) as nat));
                assert(back_piece(d, b) == d.skip(d.len() as int));
                assert(back_piece(d, b).len() == 0);
                lemma_last_sep_bounds(d, b);
                assert(trim_right(d, b).len() < d.len()) by {
                    lemma_trim_prefix(d.take(back_cut(d, b) as int), b);
                }
            }
        }
        assert(d == seq!['/']);
        assert(j == seq!['/'] + n);
        assert(body_start(j) == 1);
        lemma_no_sep_tail(seq!['/'], n, 1);
        assert(last_sep_after(seq!['/'], 1) is None);
        assert(back_piece(j, 1) == n);
        assert(trim_right(j, 1) == j);
        assert(j.take(1) == d);
    } else {
        let x = d + seq!['/'];
        assert(j == x + n);
        assert(body_start(j) == b) by {
            if d.len() >= 2 {
                assert(j[0] == d[0] && j[1] == d[1]);
            } else {
                assert(j[0] == d[0] && j[1] == '/');
            }
        }
        assert(b <= 1);
        lemma_no_sep_tail(x, n, b);
        assert(x.drop_last() == d);
        assert(last_sep_after(x, b) == Some(d.len()));
        assert(back_piece(j, b) == n) by {
            assert(j.skip(d.len() + 1 as int) == n);
        }
        assert(trim_right(j, b) == j);
        assert(j.take(d.len() as int) == d);
    }
}

proof fn lemma_trim_prefix(s: Seq<char>, b: nat)
    ensures
        trim_right(s, b).len() <= s.len(),
    decreases s.len(),
{
    if s.len() > b {
        let g = back_piece(s, b);
        if g.len() == 0 || g == seq!['.'] {
            lemma_last_sep_bounds(s, b);
            lemma_trim_prefix(s.take(back_cut(s, b) as int), b);
        }
    }
}

proof fn lemma_segments_no_sep(s: Seq<char>)
    ensures
        forall|j: int, k: int| 0 <= j < segments(s).len() && 0 <= k < segments(s)[j].len() ==> #[trigger] segments(s)[j][k] != '/',
        segments(s).len() >= 1,
    decreases s.len(),
{
    if s.len() > 0 {
        lemma_segments_no_sep(s.drop_last());
        let gs = segments(s.drop_last());
        if s.last() != '/' {
            let q = gs.update(gs.len() - 1, gs.last().push(s.last()));
            assert forall|j: int, k: int| 0 <= j < q.len() && 0 <= k < q[j].len() implies #[trigger] q[j][k] != '/' by {
                if j < gs.len() - 1 {
                    assert(q[j] == gs[j]);
                } else if k < gs.last().len() {
                    assert(q[j][k] == gs[j][k]);
                }
            }
        } else {
            let q = gs.push(Seq::<char>::empty());
            assert forall|j: int, k: int| 0 <= j < q.len() && 0 <= k < q[j].len() implies #[trigger] q[j][k] != '/' by {
                if j < gs.len() {
                    assert(q[j] == gs[j]);
                }
            }
        }
    }
}

proof fn lemma_segments_append_plain(x: Seq<char>, n: Seq<char>)
    requires
        forall|i: int| 0 <= i < n.len() ==> n[i] != '/',
    ensures
        segments(x + seq!['/'] + n) == segments(x).push(n),
    decreases n.len(),
{
    let y = x + seq!['/'];
    if n.len() == 0 {
        assert(y + n == y);
        assert(y.drop_last() == x);
        assert(y.last() == '/');
        assert(segments(y) == segments(x).push(Seq::<char>::empty()));
        assert(n == Seq::<char>::empty());
    } else {
        lemma_segments_append_plain(x, n.drop_last());
        assert((y + n).drop_last() == y + n.drop_last());
        assert(x + seq!['/'] + n.drop_last() == y + n.drop_last());
        assert((y + n).last() == n.last());
        assert(n[n.len() - 1] != '/');
        assert(n.drop_last().push(n.last()) == n);
        assert(x + seq!['/'] + n == y + n);
        let gs = segments(x).push(n.drop_last());
        assert(segments(y + n.drop_last()) == gs);
        assert(segments(y + n) == gs.update(gs.len() - 1, gs.last().push(n.last())));
        assert(gs.update(gs.len() - 1, gs.last().push(n.last())) == segments(x).push(n));
    }
}

/// A file name is a normal component: not empty, not "." or "..", without separators.
pub proof fn lemma_file_name_plain(s: Seq<char>)
    requires
        file_name(s) is Some,
    ensures
        plain_name(file_name(s)->0),
{
    let cs = components(s);
    let gs = segments(s);
    lemma_segments_no_sep(s);
    let pre = (if has_root(s) { seq![Comp::RootDir] } else { seq![] })
        + (if starts_with_cur_dir(s) { seq![Comp::CurDir] } else { seq![] });
    let body = body_components(gs);
    assert(cs == pre + body);
    lemma_body_normal(gs);
    if body.len() == 0 {
        assert(cs.len() == pre.len());
        assert(cs.last() == pre.last());
        assert(false);
    }
    assert(cs.last() == body.last());
}

proof fn lemma_body_normal(gs: Seq<Seq<char>>)
    requires
        forall|j: int, k: int| 0 <= j < gs.len() && 0 <= k < gs[j].len() ==> #[trigger] gs[j][k] != '/',
    ensures
        forall|i: int| 0 <= i < body_components(gs).len() && body_components(gs)[i] is Normal
            ==> plain_name(#[trigger] body_components(gs)[i]->Normal_0),
    decreases gs.len(),
{
    if gs.len() > 0 {
        let r = gs.drop_last();
        assert forall|j: int, k: int| 0 <= j < r.len() && 0 <= k < r[j].len() implies #[trigger] r[j][k] != '/' by {
            assert(r[j] == gs[j]);
        }
        lemma_body_normal(r);
        let g = gs.last();
        let b = body_components(gs);
        let br = body_components(r);
        assert forall|i: int| 0 <= i < b.len() && b[i] is Normal implies plain_name(#[trigger] b[i]->Normal_0) by {
            if i < br.len() {
                assert(b[i] == br[i]);
            } else {
                assert(b[i] == segment_components(g)[i - br.len()]);
                assert forall|k: int| 0 <= k < g.len() implies g[k] != '/' by {
                    assert(g[k] == gs[gs.len() - 1][k]);
                }
            }
        }
    }
}

/// The file name of `dir/name` is `name`, for a plain `name`.
pub proof fn lemma_file_name_of_child(dir: Seq<char>, n: Seq<char>)
    requires
        plain_name(n),
    ensures
        file_name(dir + seq!['/'] + n) == Some(n),
{
    let s = dir + seq!['/'] + n;
    lemma_segments_append_plain(dir, n);
    let gs = segments(dir).push(n);
    assert(gs.drop_last() == segments(dir));
    assert(body_components(gs) == body_components(segments(dir)) + seq![Comp::Normal(n)]);
    let pre = (if has_root(s) { seq![Comp::RootDir] } else { seq![] })
        + (if starts_with_cur_dir(s) { seq![Comp::CurDir] } else { seq![] });
    assert(components(s) == pre + (body_components(segments(dir)) + seq![Comp::Normal(n)]));
    assert(components(s).last() == Comp::Normal(n));
}

} // verus!
