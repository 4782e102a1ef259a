//! The order of paths: component by component, a path before the paths below
//! it.

use vstd::prelude::*;

use crate::path::{ComponentView, PathComponent, PathView, RepoPath};

verus! {

/// Whether one byte string comes before another: by the first byte in which
/// they differ, a string before its own continuations.
pub open spec fn bytes_lt(a: Seq<u8>, b: Seq<u8>) -> bool
    decreases a.len(),
{
    if a.len() == 0 {
        b.len() > 0
    } else if b.len() == 0 {
        false
    } else if a[0] == b[0] {
        bytes_lt(a.drop_first(), b.drop_first())
    } else {
        a[0] < b[0]
    }
}

/// The place of a kind of component among the kinds.
pub open spec fn component_kind(c: ComponentView) -> int {
    match c {
        ComponentView::Prefix(_) => 0,
        ComponentView::RootDir => 1,
        ComponentView::CurDir => 2,
        ComponentView::ParentDir => 3,
        ComponentView::Normal(_) => 4,
    }
}

/// Whether one component comes before another: by kind, then by name.
pub open spec fn component_lt(a: ComponentView, b: ComponentView) -> bool {
    match (a, b) {
        (ComponentView::Prefix(x), ComponentView::Prefix(y)) => bytes_lt(x, y),
        (ComponentView::Normal(x), ComponentView::Normal(y)) => bytes_lt(x, y),
        _ => component_kind(a) < component_kind(b),
    }
}

/// Whether one path comes before another: by the first component in which they
/// differ, a path before the paths below it.
pub open spec fn path_lt(a: PathView, b: PathView) -> bool
    decreases a.len(),
{
    if a.len() == 0 {
        b.len() > 0
    } else if b.len() == 0 {
        false
    } else if a[0] == b[0] {
        path_lt(a.drop_first(), b.drop_first())
    } else {
        component_lt(a[0], b[0])
    }
}

proof fn lemma_bytes_lt_total(a: Seq<u8>, b: Seq<u8>)
    ensures
        !bytes_lt(a, a),
        a == b || bytes_lt(a, b) || bytes_lt(b, a),
        !(bytes_lt(a, b) && bytes_lt(b, a)),
    decreases a.len(),
{
    if a.len() > 0 {
        lemma_bytes_lt_total(a.drop_first(), a.drop_first());
    }
    if a.len() > 0 && b.len() > 0 {
        if a[0] == b[0] {
            lemma_bytes_lt_total(a.drop_first(), b.drop_first());
            if a.drop_first() == b.drop_first() {
                assert(a =~= seq![a[0]] + a.drop_first());
                assert(b =~= seq![b[0]] + b.drop_first());
            }
        }
    } else if a.len() == 0 && b.len() == 0 {
        assert(a =~= b);
    }
}

proof fn lemma_bytes_lt_transitive(a: Seq<u8>, b: Seq<u8>, c: Seq<u8>)
    requires
        bytes_lt(a, b),
        bytes_lt(b, c),
    ensures
        bytes_lt(a, c),
    decreases a.len(),
{
    if a.len() > 0 && a[0] == b[0] && b[0] == c[0] {
        lemma_bytes_lt_transitive(a.drop_first(), b.drop_first(), c.drop_first());
    }
}

pub(crate) proof fn lemma_component_lt_total(a: ComponentView, b: ComponentView)
    ensures
        !component_lt(a, a),
        a == b || component_lt(a, b) || component_lt(b, a),
        !(component_lt(a, b) && component_lt(b, a)),
{
    match (a, b) {
        (ComponentView::Prefix(x), ComponentView::Prefix(y)) => lemma_bytes_lt_total(x, y),
        (ComponentView::Normal(x), ComponentView::Normal(y)) => lemma_bytes_lt_total(x, y),
        (ComponentView::Prefix(x), _) => lemma_bytes_lt_total(x, x),
        (ComponentView::Normal(x), _) => lemma_bytes_lt_total(x, x),
        _ => {},
    }
}

proof fn lemma_component_lt_transitive(a: ComponentView, b: ComponentView, c: ComponentView)
    requires
        component_lt(a, b),
        component_lt(b, c),
    ensures
        component_lt(a, c),
{
    match (a, b, c) {
        (ComponentView::Prefix(x), ComponentView::Prefix(y), ComponentView::Prefix(z)) => {
            lemma_bytes_lt_transitive(x, y, z);
        },
        (ComponentView::Normal(x), ComponentView::Normal(y), ComponentView::Normal(z)) => {
            lemma_bytes_lt_transitive(x, y, z);
        },
        _ => {},
    }
}

/// Of two paths exactly one holds: they are the same, the first comes before
/// the second, or the second before the first.
pub proof fn path_order_is_total(a: PathView, b: PathView)
    ensures
        !path_lt(a, a),
        a == b || path_lt(a, b) || path_lt(b, a),
        !(path_lt(a, b) && path_lt(b, a)),
    decreases a.len(),
{
    if a.len() > 0 {
        path_order_is_total(a.drop_first(), a.drop_first());
    }
    if a.len() > 0 && b.len() > 0 {
        if a[0] == b[0] {
            path_order_is_total(a.drop_first(), b.drop_first());
            if a.drop_first() == b.drop_first() {
                assert(a =~= seq![a[0]] + a.drop_first());
                assert(b =~= seq![b[0]] + b.drop_first());
            }
        } else {
            lemma_component_lt_total(a[0], b[0]);
        }
    } else if a.len() == 0 && b.len() == 0 {
        assert(a =~= b);
    }
}

/// A path before a second that is before a third is before the third.
pub proof fn path_order_is_transitive(a: PathView, b: PathView, c: PathView)
    requires
        path_lt(a, b),
        path_lt(b, c),
    ensures
        path_lt(a, c),
    decreases a.len(),
{
    if a.len() > 0 {
        if a[0] == b[0] && b[0] == c[0] {
            path_order_is_transitive(a.drop_first(), b.drop_first(), c.drop_first());
        } else if a[0] != b[0] && b[0] != c[0] {
            lemma_component_lt_transitive(a[0], b[0], c[0]);
            lemma_component_lt_total(a[0], c[0]);
        }
    }
}

fn is_bytes_lt(a: &Vec<u8>, b: &Vec<u8>) -> (r: bool)
    ensures
        r == bytes_lt(a@, b@),
{
    let mut i: usize = 0;
    assert(a@.skip(0) =~= a@ && b@.skip(0) =~= b@);
    while i < a.len() && i < b.len() && a[i] == b[i]
        invariant
            i <= a@.len(),
            i <= b@.len(),
            bytes_lt(a@, b@) == bytes_lt(a@.skip(i as int), b@.skip(i as int)),
        decreases a@.len() - i,
    {
        assert(a@.skip(i as int).drop_first() =~= a@.skip(i + 1));
        assert(b@.skip(i as int).drop_first() =~= b@.skip(i + 1));
        i += 1;
    }
    if i == a.len() {
        i < b.len()
    } else if i == b.len() {
        false
    } else {
        a[i] < b[i]
    }
}

fn kind_of(c: &PathComponent) -> (r: u8)
    ensures
        r == component_kind(c@),
{
    match c {
        PathComponent::Prefix(_) => 0,
        PathComponent::RootDir => 1,
        PathComponent::CurDir => 2,
        PathComponent::ParentDir => 3,
        PathComponent::Normal(_) => 4,
    }
}

fn is_component_lt(a: &PathComponent, b: &PathComponent) -> (r: bool)
    ensures
        r == component_lt(a@, b@),
{
    match (a, b) {
        (PathComponent::Prefix(x), PathComponent::Prefix(y)) => is_bytes_lt(x, y),
        (PathComponent::Normal(x), PathComponent::Normal(y)) => is_bytes_lt(x, y),
        _ => kind_of(a) < kind_of(b),
    }
}

/// Whether one path comes before another.
pub fn is_path_lt(a: &RepoPath, b: &RepoPath) -> (r: bool)
    ensures
        r == path_lt(a@, b@),
{
    let x = &a.components;
    let y = &b.components;
    let mut i: usize = 0;
    assert(a@.skip(0) =~= a@ && b@.skip(0) =~= b@);
    while i < x.len() && i < y.len() && x[i].same(&y[i])
        invariant
            x@ == a.components@,
            y@ == b.components@,
            i <= x@.len(),
            i <= y@.len(),
            path_lt(a@, b@) == path_lt(a@.skip(i as int), b@.skip(i as int)),
        decreases x@.len() - i,
    {
        assert(a@[i as int] == x@[i as int]@ && b@[i as int] == y@[i as int]@);
        assert(a@.skip(i as int).drop_first() =~= a@.skip(i + 1));
        assert(b@.skip(i as int).drop_first() =~= b@.skip(i + 1));
        i += 1;
    }
    if i == x.len() {
        i < y.len()
    } else if i == y.len() {
        false
    } else {
        assert(a@[i as int] == x@[i as int]@ && b@[i as int] == y@[i as int]@);
        is_component_lt(&x[i], &y[i])
    }
}

/// The paths that a list holds.
pub open spec fn paths(v: Seq<RepoPath>) -> Seq<PathView> {
    v.map_values(|p: RepoPath| p@)
}

/// Whether every path of a list comes before those behind it.
pub open spec fn strictly_sorted(s: Seq<PathView>) -> bool {
    forall|i: int, j: int| 0 <= i < j < s.len() ==> path_lt(#[trigger] s[i], #[trigger] s[j])
}

/// Two lists in strict order that hold the same paths are the same list.
pub proof fn strictly_sorted_is_unique(a: Seq<PathView>, b: Seq<PathView>)
    requires
        strictly_sorted(a),
        strictly_sorted(b),
        a.to_set() == b.to_set(),
    ensures
        a == b,
    decreases a.len(),
{
    if a.len() == 0 {
        if b.len() > 0 {
            assert(b.to_set().contains(b[0]));
            assert(a.to_set().contains(b[0]));
        }
        assert(a =~= b);
    } else {
        assert(a.to_set().contains(a.last()));
        assert(b.to_set().contains(a.last()));
        assert(b.to_set().contains(b.last()));
        assert(a.to_set().contains(b.last()));
        let i = choose|i: int| 0 <= i < b.len() && b[i] == a.last();
        let j = choose|j: int| 0 <= j < a.len() && a[j] == b.last();
        path_order_is_total(a.last(), b.last());
        assert(a.last() == b.last());
        let x = a.drop_last();
        let y = b.drop_last();
        assert forall|p: PathView| x.to_set().contains(p) implies y.to_set().contains(p) by {
            let k = choose|k: int| 0 <= k < x.len() && x[k] == p;
            path_order_is_total(a[k], a.last());
            assert(a.to_set().contains(a[k]));
            assert(b.to_set().contains(p));
            let m = choose|m: int| 0 <= m < b.len() && b[m] == p;
            assert(y[m] == p);
        }
        assert forall|p: PathView| y.to_set().contains(p) implies x.to_set().contains(p) by {
            let k = choose|k: int| 0 <= k < y.len() && y[k] == p;
            path_order_is_total(b[k], b.last());
            assert(b.to_set().contains(b[k]));
            assert(a.to_set().contains(p));
            let m = choose|m: int| 0 <= m < a.len() && a[m] == p;
            assert(x[m] == p);
        }
        assert(x.to_set() =~= y.to_set());
        strictly_sorted_is_unique(x, y);
        assert(a =~= x.push(a.last()));
        assert(b =~= y.push(b.last()));
    }
}

/// Puts a path in its place in a list in strict order, unless it is there.
pub fn insert_sorted(list: &mut Vec<RepoPath>, path: RepoPath)
    requires
        strictly_sorted(paths(old(list)@)),
    ensures
        strictly_sorted(paths(final(list)@)),
        paths(final(list)@).to_set() == paths(old(list)@).to_set().insert(path@),
{
    let ghost before = paths(list@);
    let mut at: usize = 0;
    while at < list.len() && is_path_lt(&list[at], &path)
        invariant
            at <= list@.len(),
            before == paths(list@),
            forall|j: int| 0 <= j < at ==> path_lt(#[trigger] before[j], path@),
        decreases list@.len() - at,
    {
        at += 1;
    }
    if at < list.len() && list[at].same(&path) {
        assert(before[at as int] == path@);
        assert(before.to_set().insert(path@) =~= before.to_set());
        return;
    }
    let ghost p = path@;
    list.insert(at, path);
    let ghost after = paths(list@);
    assert(after =~= before.insert(at as int, p));
    assert forall|j: int| at <= j < before.len() implies path_lt(p, #[trigger] before[j]) by {
        path_order_is_total(before[at as int], p);
        if j > at {
            path_order_is_transitive(p, before[at as int], before[j]);
        }
    }
    assert forall|i: int, j: int| 0 <= i < j < after.len() implies path_lt(
        #[trigger] after[i],
        #[trigger] after[j],
    ) by {
        let x: int = if i < at { i } else { i - 1 };
        let y: int = if j < at { j } else { j - 1 };
        if i == at {
            assert(after[j] == before[y]);
        } else if j == at {
            assert(after[i] == before[x]);
        } else {
            assert(after[i] == before[x] && after[j] == before[y]);
        }
    }
    assert forall|q: PathView| after.to_set().contains(q) == before.to_set().insert(p).contains(
        q,
    ) by {
        if after.contains(q) {
            let i = choose|i: int| 0 <= i < after.len() && after[i] == q;
            if i != at {
                let x: int = if i < at { i } else { i - 1 };
                assert(before[x] == q);
            }
        }
        if before.contains(q) {
            let i = choose|i: int| 0 <= i < before.len() && before[i] == q;
            let x: int = if i < at { i } else { i + 1 };
            assert(after[x] == q);
        }
        assert(after[at as int] == p);
    }
    assert(after.to_set() =~= before.to_set().insert(p));
}

} // verus!
