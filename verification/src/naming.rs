//! Worktrees under the names that they are shown by, and their order.

use vstd::prelude::*;

use crate::model::{GitWorktree, WorktreeView};
use crate::seqs::views;
use crate::text::{is_text_le, text_le};

verus! {

/// A worktree with the name of its directory.
#[derive(Debug)]
pub struct NamedWorktree {
    pub worktree: GitWorktree,
    pub name: String,
}

/// The value of a worktree with its name.
#[verifier::ext_equal]
pub struct NamedView {
    pub worktree: WorktreeView,
    pub name: Seq<char>,
}

impl View for NamedWorktree {
    type V = NamedView;

    open spec fn view(&self) -> NamedView {
        NamedView { worktree: self.worktree@, name: self.name@ }
    }
}

/// A list ordered by name with one more item: behind those whose name comes no
/// later.
pub open spec fn inserted_by_name(s: Seq<NamedView>, x: NamedView) -> Seq<NamedView>
    decreases s.len(),
{
    if s.len() == 0 || text_le(s.last().name, x.name) {
        s.push(x)
    } else {
        inserted_by_name(s.drop_last(), x).push(s.last())
    }
}

/// A list ordered by name, with items of one name left in the order that they
/// had.
pub open spec fn sorted_by_name(s: Seq<NamedView>) -> Seq<NamedView>
    decreases s.len(),
{
    if s.len() == 0 {
        s
    } else {
        inserted_by_name(sorted_by_name(s.drop_last()), s.last())
    }
}

proof fn lemma_text_le_total(a: Seq<char>, b: Seq<char>)
    ensures
        text_le(a, b) || text_le(b, a),
        text_le(a, b) && text_le(b, a) ==> a == b,
        text_le(a, a),
    decreases a.len(),
{
    if a.len() > 0 {
        lemma_text_le_total(a.drop_first(), a.drop_first());
    }
    if a.len() > 0 && b.len() > 0 {
        if a[0] == b[0] {
            lemma_text_le_total(a.drop_first(), b.drop_first());
            assert(a =~= seq![a[0]] + a.drop_first());
            assert(b =~= seq![b[0]] + b.drop_first());
        }
    } else if a.len() == 0 && b.len() == 0 {
        assert(a =~= b);
    }
}

proof fn lemma_text_le_transitive(a: Seq<char>, b: Seq<char>, c: Seq<char>)
    requires
        text_le(a, b),
        text_le(b, c),
    ensures
        text_le(a, c),
    decreases a.len(),
{
    if a.len() > 0 && b.len() > 0 && c.len() > 0 && a[0] == b[0] && b[0] == c[0] {
        lemma_text_le_transitive(a.drop_first(), b.drop_first(), c.drop_first());
    }
}

/// Whether the names of a list come in order.
pub open spec fn in_name_order(s: Seq<NamedView>) -> bool {
    forall|i: int, j: int|
        0 <= i < j < s.len() ==> text_le(#[trigger] s[i].name, #[trigger] s[j].name)
}

/// The items of a list under one name.
pub open spec fn under_name(s: Seq<NamedView>, name: Seq<char>) -> Seq<NamedView> {
    s.filter(|x: NamedView| x.name == name)
}

proof fn lemma_inserted_by_name(s: Seq<NamedView>, x: NamedView)
    requires
        in_name_order(s),
    ensures
        in_name_order(inserted_by_name(s, x)),
        inserted_by_name(s, x).len() == s.len() + 1,
        inserted_by_name(s, x).to_multiset() == s.to_multiset().insert(x),
        forall|y: NamedView|
            inserted_by_name(s, x).contains(y) ==> s.contains(y) || y == x,
        forall|name: Seq<char>|
            #![trigger under_name(s, name)]
            under_name(inserted_by_name(s, x), name) == if x.name == name {
                under_name(s, name).push(x)
            } else {
                under_name(s, name)
            },
    decreases s.len(),
{
    broadcast use vstd::seq_lib::group_to_multiset_ensures;

    reveal(Seq::filter);
    let r = inserted_by_name(s, x);
    if s.len() == 0 || text_le(s.last().name, x.name) {
        assert(s.push(x).drop_last() =~= s);
        assert forall|i: int, j: int| 0 <= i < j < r.len() implies text_le(
            #[trigger] r[i].name,
            #[trigger] r[j].name,
        ) by {
            if j == s.len() && i < s.len() - 1 {
                lemma_text_le_transitive(s[i].name, s.last().name, x.name);
            }
        }
        assert forall|y: NamedView| r.contains(y) implies s.contains(y) || y == x by {
            let i = choose|i: int| 0 <= i < r.len() && r[i] == y;
            if i < s.len() {
                assert(s[i] == y);
            }
        }
    } else {
        let init = s.drop_last();
        lemma_inserted_by_name(init, x);
        let head = inserted_by_name(init, x);
        assert(head.push(s.last()).drop_last() =~= head);
        assert(s =~= init.push(s.last()));
        assert(r.to_multiset() =~= s.to_multiset().insert(x));
        lemma_text_le_total(s.last().name, x.name);
        assert forall|i: int, j: int| 0 <= i < j < r.len() implies text_le(
            #[trigger] r[i].name,
            #[trigger] r[j].name,
        ) by {
            if j == head.len() {
                assert(head.contains(head[i]));
                if init.contains(head[i]) {
                    let k = choose|k: int| 0 <= k < init.len() && init[k] == head[i];
                    assert(s[k] == init[k]);
                }
            }
        }
        assert forall|y: NamedView| r.contains(y) implies s.contains(y) || y == x by {
            let i = choose|i: int| 0 <= i < r.len() && r[i] == y;
            if i < head.len() {
                assert(head.contains(y));
                if init.contains(y) {
                    let k = choose|k: int| 0 <= k < init.len() && init[k] == y;
                    assert(s[k] == y);
                }
            } else {
                assert(s[s.len() - 1] == y);
            }
        }
        assert forall|name: Seq<char>|
            #![trigger under_name(s, name)]
            under_name(r, name) == if x.name == name {
                under_name(s, name).push(x)
            } else {
                under_name(s, name)
            } by {
            let on = under_name(init, name);
            assert(s.last().name != x.name);
        }
    }
}

/// Ordering by name loses nothing and adds nothing, puts the names in order,
/// and leaves items of one name in the order that they had.
pub proof fn sorting_by_name_is_stable(s: Seq<NamedView>)
    ensures
        in_name_order(sorted_by_name(s)),
        sorted_by_name(s).len() == s.len(),
        sorted_by_name(s).to_multiset() == s.to_multiset(),
        forall|name: Seq<char>| #[trigger]
            under_name(sorted_by_name(s), name) == under_name(s, name),
    decreases s.len(),
{
    broadcast use vstd::seq_lib::group_to_multiset_ensures;

    reveal(Seq::filter);
    if s.len() > 0 {
        let init = s.drop_last();
        sorting_by_name_is_stable(init);
        lemma_inserted_by_name(sorted_by_name(init), s.last());
        assert(s =~= init.push(s.last()));
        assert forall|name: Seq<char>| #[trigger]
            under_name(sorted_by_name(s), name) == under_name(s, name) by {
            let a = under_name(sorted_by_name(init), name);
            let b = under_name(init, name);
        }
    }
}

proof fn lemma_insert_position(s: Seq<NamedView>, x: NamedView, at: int)
    requires
        0 <= at <= s.len(),
        at > 0 ==> text_le(s[at - 1].name, x.name),
        forall|j: int| at <= j < s.len() ==> !text_le(#[trigger] s[j].name, x.name),
    ensures
        inserted_by_name(s, x) == s.insert(at, x),
    decreases s.len() - at,
{
    if at < s.len() {
        let init = s.drop_last();
        lemma_insert_position(init, x, at);
        assert(inserted_by_name(s, x) =~= s.insert(at, x));
    } else {
        assert(s.insert(at, x) =~= s.push(x));
    }
}

/// Puts an item behind those whose name comes no later.
pub fn insert_by_name(list: &mut Vec<NamedWorktree>, item: NamedWorktree)
    ensures
        views(final(list)@) == inserted_by_name(views(old(list)@), item@),
{
    let ghost before = views(list@);
    let mut at: usize = list.len();
    while at > 0 && !is_text_le(list[at - 1].name.as_str(), item.name.as_str())
        invariant
            at <= list@.len(),
            before == views(list@),
            forall|j: int|
                at <= j < list@.len() ==> !text_le(#[trigger] before[j].name, item@.name),
        decreases at,
    {
        at -= 1;
    }
    proof {
        lemma_insert_position(before, item@, at as int);
    }
    list.insert(at, item);
    assert(views(list@) =~= before.insert(at as int, item@));
}

} // verus!
