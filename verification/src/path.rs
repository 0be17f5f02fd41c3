//! Unix path semantics over character sequences: components, ordering,
//! joining and prefix stripping, as `std::path::Path` defines them.
use vstd::prelude::*;

use crate::text::{chars_of, eq_chars, extend, lemma_lex_lt_trans, lemma_lex_order_props, lex_order, lex_order_exec, slice_chars, split, split_exec, views};

verus! {

/// A path component (`std::path::Component` on Unix).
#[derive(Clone, Debug, PartialEq, Eq)]
pub enum PathComponent {
    RootDir,
    CurDir,
    ParentDir,
    Normal(Vec<char>),
}

/// The mathematical view of a path component.
pub ghost enum ComponentView {
    RootDir,
    CurDir,
    ParentDir,
    Normal(Seq<char>),
}

impl View for PathComponent {
    type V = ComponentView;

    open spec fn view(&self) -> ComponentView {
        match self {
            PathComponent::RootDir => ComponentView::RootDir,
            PathComponent::CurDir => ComponentView::CurDir,
            PathComponent::ParentDir => ComponentView::ParentDir,
            PathComponent::Normal(s) => ComponentView::Normal(s@),
        }
    }
}

pub open spec fn component_views(v: Seq<PathComponent>) -> Seq<ComponentView> {
    v.map_values(|c: PathComponent| c@)
}

pub open spec fn slash() -> Seq<char> {
    seq!['/']
}

pub open spec fn dot() -> Seq<char> {
    seq!['.']
}

pub open spec fn dot_dot() -> Seq<char> {
    seq!['.', '.']
}

/// Components contributed by the `/`-separated segments from index `i` on:
/// empty and `.` segments vanish, `..` is the parent component.
pub open spec fn segment_components(segs: Seq<Seq<char>>, i: int) -> Seq<ComponentView>
    decreases segs.len() - i,
{
    if i < 0 || i >= segs.len() {
        Seq::empty()
    } else {
        let s = segs[i];
        let head: Seq<ComponentView> = if s.len() == 0 || s == dot() {
            Seq::empty()
        } else if s == dot_dot() {
            seq![ComponentView::ParentDir]
        } else {
            seq![ComponentView::Normal(s)]
        };
        head + segment_components(segs, i + 1)
    }
}

/// `Path::components` of a Unix path.
pub open spec fn components(p: Seq<char>) -> Seq<ComponentView> {
    let segs = split(p, slash());
    let head: Seq<ComponentView> = if p.len() > 0 && p[0] == '/' {
        seq![ComponentView::RootDir]
    } else if segs.len() > 0 && segs[0] == dot() {
        seq![ComponentView::CurDir]
    } else {
        Seq::empty()
    };
    head + segment_components(segs, 0)
}

pub open spec fn component_rank(c: ComponentView) -> int {
    match c {
        ComponentView::RootDir => 1,
        ComponentView::CurDir => 2,
        ComponentView::ParentDir => 3,
        ComponentView::Normal(_) => 4,
    }
}

/// `Ord` of `Component`: variant order, then the bytes of normal components.
pub open spec fn component_order(a: ComponentView, b: ComponentView) -> int {
    if component_rank(a) < component_rank(b) {
        -1
    } else if component_rank(a) > component_rank(b) {
        1
    } else {
        match (a, b) {
            (ComponentView::Normal(x), ComponentView::Normal(y)) => lex_order(x, y),
            _ => 0,
        }
    }
}

/// Lexicographic order of component sequences.
pub open spec fn components_order(a: Seq<ComponentView>, b: Seq<ComponentView>) -> int
    decreases a.len(),
{
    if a.len() == 0 {
        if b.len() == 0 {
            0
        } else {
            -1
        }
    } else if b.len() == 0 {
        1
    } else if component_order(a[0], b[0]) != 0 {
        component_order(a[0], b[0])
    } else {
        components_order(a.drop_first(), b.drop_first())
    }
}

/// `Ord` of `Path`: components compared in order, as -1, 0 or 1.
pub open spec fn path_order(a: Seq<char>, b: Seq<char>) -> int {
    components_order(components(a), components(b))
}

pub proof fn lemma_component_order_props(a: ComponentView, b: ComponentView)
    ensures
        component_order(a, b) == -1 || component_order(a, b) == 0 || component_order(a, b) == 1,
        (component_order(a, b) == 0) == (a == b),
        component_order(b, a) == -component_order(a, b),
{
    match (a, b) {
        (ComponentView::Normal(x), ComponentView::Normal(y)) => {
            lemma_lex_order_props(x, y);
        },
        _ => {},
    }
}

pub proof fn lemma_component_order_trans(a: ComponentView, b: ComponentView, c: ComponentView)
    requires
        component_order(a, b) < 0,
        component_order(b, c) < 0,
    ensures
        component_order(a, c) < 0,
{
    match (a, b, c) {
        (ComponentView::Normal(x), ComponentView::Normal(y), ComponentView::Normal(z)) => {
            lemma_lex_lt_trans(x, y, z);
        },
        _ => {},
    }
}

pub proof fn lemma_components_order_props(a: Seq<ComponentView>, b: Seq<ComponentView>)
    ensures
        components_order(a, b) == -1 || components_order(a, b) == 0 || components_order(a, b)
            == 1,
        (components_order(a, b) == 0) == (a == b),
        components_order(b, a) == -components_order(a, b),
    decreases a.len(),
{
    if a.len() > 0 && b.len() > 0 {
        lemma_component_order_props(a[0], b[0]);
        lemma_components_order_props(a.drop_first(), b.drop_first());
        if a[0] == b[0] && a.drop_first() == b.drop_first() {
            assert(a =~= seq![a[0]] + a.drop_first());
            assert(b =~= seq![b[0]] + b.drop_first());
        }
        if a == b {
            assert(a.drop_first() == b.drop_first());
        }
    } else if a.len() == 0 && b.len() > 0 {
        assert(a != b);
    } else if a.len() > 0 && b.len() == 0 {
        assert(a != b);
    } else {
        assert(a =~= b);
    }
}

pub proof fn lemma_components_order_trans(
    a: Seq<ComponentView>,
    b: Seq<ComponentView>,
    c: Seq<ComponentView>,
)
    requires
        components_order(a, b) < 0,
        components_order(b, c) < 0,
    ensures
        components_order(a, c) < 0,
    decreases a.len(),
{
    if a.len() > 0 && b.len() > 0 && c.len() > 0 {
        lemma_component_order_props(a[0], b[0]);
        lemma_component_order_props(b[0], c[0]);
        lemma_component_order_props(a[0], c[0]);
        if component_order(a[0], b[0]) < 0 && component_order(b[0], c[0]) < 0 {
            lemma_component_order_trans(a[0], b[0], c[0]);
        } else if component_order(a[0], b[0]) == 0 && component_order(b[0], c[0]) == 0 {
            lemma_components_order_trans(a.drop_first(), b.drop_first(), c.drop_first());
        }
    }
}

/// Path order is a total preorder: the basic facts.
pub proof fn lemma_path_order_props(a: Seq<char>, b: Seq<char>)
    ensures
        path_order(a, b) == -1 || path_order(a, b) == 0 || path_order(a, b) == 1,
        path_order(b, a) == -path_order(a, b),
        path_order(a, a) == 0,
{
    lemma_components_order_props(components(a), components(b));
    lemma_components_order_props(components(a), components(a));
}

pub proof fn lemma_path_order_trans(a: Seq<char>, b: Seq<char>, c: Seq<char>)
    requires
        path_order(a, b) <= 0,
        path_order(b, c) <= 0,
    ensures
        path_order(a, c) <= 0,
        path_order(a, b) < 0 || path_order(b, c) < 0 ==> path_order(a, c) < 0,
{
    let (x, y, z) = (components(a), components(b), components(c));
    lemma_components_order_props(x, y);
    lemma_components_order_props(y, z);
    lemma_components_order_props(x, z);
    if components_order(x, y) < 0 && components_order(y, z) < 0 {
        lemma_components_order_trans(x, y, z);
    }
}

// ---------------------------------------------------------------------------
// Exec
// ---------------------------------------------------------------------------

/// `Path::components`.
pub fn components_exec(p: &Vec<char>) -> (r: Vec<PathComponent>)
    ensures
        component_views(r@) == components(p@),
{
    let mut sep: Vec<char> = Vec::new();
    sep.push('/');
    assert(sep@ =~= slash());
    let segs = split_exec(p, &sep);
    let mut r: Vec<PathComponent> = Vec::new();
    let mut dotv: Vec<char> = Vec::new();
    dotv.push('.');
    assert(dotv@ =~= dot());
    let mut dotdot: Vec<char> = Vec::new();
    dotdot.push('.');
    dotdot.push('.');
    assert(dotdot@ =~= dot_dot());
    if p.len() > 0 && p[0] == '/' {
        r.push(PathComponent::RootDir);
    } else if segs.len() > 0 && eq_chars(&segs[0], &dotv) {
        r.push(PathComponent::CurDir);
    }
    let ghost head = component_views(r@);
    assert(head == (if p@.len() > 0 && p@[0] == '/' {
        seq![ComponentView::RootDir]
    } else if views(segs@).len() > 0 && views(segs@)[0] == dot() {
        seq![ComponentView::CurDir]
    } else {
        Seq::<ComponentView>::empty()
    }));
    let mut i: usize = 0;
    while i < segs.len()
        invariant
            i <= segs.len(),
            views(segs@) == split(p@, slash()),
            dotv@ == dot(),
            dotdot@ == dot_dot(),
            component_views(r@) + segment_components(views(segs@), i as int) == head
                + segment_components(views(segs@), 0),
        decreases segs.len() - i,
    {
        let ghost prev = component_views(r@);
        let s = &segs[i];
        assert(s@ == views(segs@)[i as int]);
        if s.len() == 0 || eq_chars(s, &dotv) {
        } else if eq_chars(s, &dotdot) {
            r.push(PathComponent::ParentDir);
            assert(component_views(r@) =~= prev + seq![ComponentView::ParentDir]);
        } else {
            let c = slice_chars(s, 0, s.len());
            assert(c@ =~= s@);
            r.push(PathComponent::Normal(c));
            assert(component_views(r@) =~= prev + seq![ComponentView::Normal(s@)]);
        }
        i += 1;
    }
    assert(segment_components(views(segs@), segs.len() as int) =~= Seq::<ComponentView>::empty());
    assert(component_views(r@) =~= components(p@));
    r
}

fn component_rank_exec(c: &PathComponent) -> (r: i8)
    ensures
        r as int == component_rank(c@),
{
    match c {
        PathComponent::RootDir => 1,
        PathComponent::CurDir => 2,
        PathComponent::ParentDir => 3,
        PathComponent::Normal(_) => 4,
    }
}

fn component_order_exec(a: &PathComponent, b: &PathComponent) -> (r: i8)
    ensures
        r as int == component_order(a@, b@),
{
    let ra = component_rank_exec(a);
    let rb = component_rank_exec(b);
    if ra < rb {
        -1
    } else if ra > rb {
        1
    } else {
        match (a, b) {
            (PathComponent::Normal(x), PathComponent::Normal(y)) => lex_order_exec(x, y),
            _ => 0,
        }
    }
}

/// Order of two component lists.
pub fn components_order_exec(a: &Vec<PathComponent>, b: &Vec<PathComponent>) -> (r: i8)
    ensures
        r as int == components_order(component_views(a@), component_views(b@)),
{
    let ghost av = component_views(a@);
    let ghost bv = component_views(b@);
    let mut i: usize = 0;
    assert(av.skip(0) =~= av);
    assert(bv.skip(0) =~= bv);
    while i < a.len() && i < b.len()
        invariant
            i <= a.len(),
            i <= b.len(),
            av == component_views(a@),
            bv == component_views(b@),
            components_order(av, bv) == components_order(av.skip(i as int), bv.skip(i as int)),
        decreases a.len() - i,
    {
        let c = component_order_exec(&a[i], &b[i]);
        if c != 0 {
            return c;
        }
        assert(av.skip(i as int).drop_first() =~= av.skip(i + 1));
        assert(bv.skip(i as int).drop_first() =~= bv.skip(i + 1));
        i += 1;
    }
    if i == a.len() {
        if i == b.len() {
            0
        } else {
            -1
        }
    } else {
        1
    }
}

/// `Ord` of two paths, as -1, 0 or 1.
pub fn path_order_exec(a: &Vec<char>, b: &Vec<char>) -> (r: i8)
    ensures
        r as int == path_order(a@, b@),
{
    let ca = components_exec(a);
    let cb = components_exec(b);
    components_order_exec(&ca, &cb)
}

/// `Path::join` / `PathBuf::push`: an absolute `p` replaces `base`;
/// otherwise a separator is inserted when `base` is non-empty and does not
/// already end in one.
pub open spec fn join_path(base: Seq<char>, p: Seq<char>) -> Seq<char> {
    if p.len() > 0 && p[0] == '/' {
        p
    } else if base.len() == 0 || base.last() == '/' {
        base + p
    } else {
        base + slash() + p
    }
}

/// `Path::join`.
pub fn join_path_exec(base: &Vec<char>, p: &Vec<char>) -> (r: Vec<char>)
    ensures
        r@ == join_path(base@, p@),
{
    if p.len() > 0 && p[0] == '/' {
        return slice_chars(p, 0, p.len());
    }
    let mut r = slice_chars(base, 0, base.len());
    if !(base.len() == 0 || base[base.len() - 1] == '/') {
        r.push('/');
    }
    extend(&mut r, p);
    assert(base@.subrange(0, base@.len() as int) =~= base@);
    r
}

/// `Path::join` with a string-slice segment.
pub fn join_path_str(base: &Vec<char>, p: &str) -> (r: Vec<char>)
    ensures
        r@ == join_path(base@, p@),
{
    let pv = chars_of(p);
    join_path_exec(base, &pv)
}

/// `Path::is_absolute` on Unix.
pub open spec fn is_absolute(p: Seq<char>) -> bool {
    p.len() > 0 && p[0] == '/'
}

/// `Path::file_name`: the last component when it is a normal one.
pub open spec fn file_name(p: Seq<char>) -> Option<Seq<char>> {
    let c = components(p);
    if c.len() > 0 && c.last() is Normal {
        Some(c.last()->Normal_0)
    } else {
        None
    }
}

/// Index of the last `.` in `s`; -1 when there is none.
pub open spec fn last_dot(s: Seq<char>) -> int
    decreases s.len(),
{
    if s.len() == 0 {
        -1
    } else if s.last() == '.' {
        s.len() - 1
    } else {
        last_dot(s.drop_last())
    }
}

/// The extension of a file name: what follows its last `.`, when that dot
/// is not its first character and the name is not `..`.
pub open spec fn name_extension(name: Seq<char>) -> Option<Seq<char>> {
    if name == dot_dot() || last_dot(name) <= 0 {
        None
    } else {
        Some(name.skip(last_dot(name) + 1))
    }
}

/// `Path::extension`.
pub open spec fn extension(p: Seq<char>) -> Option<Seq<char>> {
    match file_name(p) {
        Some(n) => name_extension(n),
        None => None,
    }
}

proof fn lemma_last_dot_bounds(s: Seq<char>)
    ensures
        -1 <= last_dot(s) < s.len(),
        last_dot(s) >= 0 ==> s[last_dot(s)] == '.',
    decreases s.len(),
{
    if s.len() > 0 && s.last() != '.' {
        lemma_last_dot_bounds(s.drop_last());
    }
}

/// `Path::extension`.
pub fn extension_exec(p: &Vec<char>) -> (r: Option<Vec<char>>)
    ensures
        match extension(p@) {
            Some(e) => r matches Some(v) && v@ == e,
            None => r is None,
        },
{
    let comps = components_exec(p);
    if comps.len() == 0 {
        return None;
    }
    assert(component_views(comps@).last() == comps@[comps@.len() - 1]@);
    let name = match &comps[comps.len() - 1] {
        PathComponent::Normal(n) => n,
        _ => {
            return None;
        },
    };
    let mut dotdot: Vec<char> = Vec::new();
    dotdot.push('.');
    dotdot.push('.');
    assert(dotdot@ =~= dot_dot());
    if eq_chars(name, &dotdot) {
        return None;
    }
    let mut i: usize = name.len();
    proof {
        assert(name@.take(i as int) =~= name@);
    }
    while i > 0 && name[i - 1] != '.'
        invariant
            i <= name.len(),
            last_dot(name@) == last_dot(name@.take(i as int)),
        decreases i,
    {
        assert(name@.take(i as int).drop_last() =~= name@.take(i - 1));
        i -= 1;
    }
    proof {
        if i > 0 {
            assert(name@.take(i as int).last() == '.');
        }
        lemma_last_dot_bounds(name@);
    }
    if i <= 1 {
        return None;
    }
    let ext = slice_chars(name, i, name.len());
    assert(ext@ =~= name@.skip(i as int));
    Some(ext)
}

/// `Path::file_name`.
pub fn file_name_exec(p: &Vec<char>) -> (r: Option<Vec<char>>)
    ensures
        match file_name(p@) {
            Some(n) => r matches Some(v) && v@ == n,
            None => r is None,
        },
{
    let comps = components_exec(p);
    if comps.len() == 0 {
        return None;
    }
    assert(component_views(comps@).last() == comps@[comps@.len() - 1]@);
    match &comps[comps.len() - 1] {
        PathComponent::Normal(n) => Some(slice_chars(n, 0, n.len())),
        _ => None,
    }
}

/// `Path::is_absolute`.
pub fn is_absolute_exec(p: &Vec<char>) -> (b: bool)
    ensures
        b == is_absolute(p@),
{
    p.len() > 0 && p[0] == '/'
}

/// The parent of a path, as `Path::parent` gives it.
pub uninterp spec fn parent_path(p: Seq<char>) -> Option<Seq<char>>;

/// `std::path::Path::parent`, as text. The result, none for a path that
/// ends in a root or is empty, is named `parent_path` of the path.
#[verifier::external_body]
pub(crate) fn path_parent(p: &str) -> (r: Option<String>)
    ensures
        match r {
            Some(s) => parent_path(p@) == Some(s@),
            None => parent_path(p@) is None,
        },
{
    std::path::Path::new(p).parent().map(|q| q.display().to_string())
}

} // verus!
