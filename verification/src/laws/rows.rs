//! What the rows without a query promise, and the rules on the picker's state.

use vstd::prelude::*;

use crate::matches::{
    external_rows, fixed_rows, group, idle_rows, named, plain_row, plain_rows, repository_rows,
    section_rows, NamesView,
};
use crate::model::{
    checked_out, CreateTargetView, EntryView, ExternalRepoView, WorktreeView,
};
use crate::naming::{inserted_by_name, sorting_by_name_is_stable, under_name, NamedView};
use crate::path::PathView;
use crate::picker::{
    blocked_reason, main_path_of, repo_path_of, search_selection, DelegateView,
};
use crate::seqs::{first_where, lemma_first_where};
use crate::text::text_le;

verus! {

/// Of a list, the first item that meets a condition is found: one with none
/// before it that does.
pub proof fn first_is_found<T>(before: Seq<T>, x: T, after: Seq<T>, p: spec_fn(T) -> bool)
    requires
        forall|i: int| 0 <= i < before.len() ==> !p(#[trigger] before[i]),
    ensures
        p(x) ==> first_where(before + seq![x] + after, p) == Some(before.len() as int),
        first_where(before, p) is None,
{
    let all = before + seq![x] + after;
    lemma_first_where(all, p);
    lemma_first_where(before, p);
    if p(x) {
        assert(all[before.len() as int] == x);
        let i = first_where(all, p)->0;
        if i < before.len() {
            assert(all[i] == before[i]);
        }
        if before.len() < i {
            assert(!p(all[before.len() as int]));
        }
    }
}

/// The main worktree is the first of a list that is marked so.
pub proof fn main_worktree_is_the_first_marked(
    before: Seq<WorktreeView>,
    main: WorktreeView,
    after: Seq<WorktreeView>,
)
    requires
        forall|i: int| 0 <= i < before.len() ==> !(#[trigger] before[i]).is_main,
        main.is_main,
    ensures
        main_path_of(before + seq![main] + after) == Some(main.path),
        main_path_of(before) is None,
{
    first_is_found(before, main, after, |worktree: WorktreeView| worktree.is_main);
}

/// The path of a repository near the project is that of the first of its name.
pub proof fn repository_is_the_first_of_its_name(
    before: Seq<ExternalRepoView>,
    repo: ExternalRepoView,
    after: Seq<ExternalRepoView>,
)
    requires
        forall|i: int| 0 <= i < before.len() ==> (#[trigger] before[i]).name != repo.name,
    ensures
        repo_path_of(before + seq![repo] + after, repo.name) == Some(repo.main_path),
        repo_path_of(before, repo.name) is None,
{
    let name = repo.name;
    first_is_found(before, repo, after, |repo: ExternalRepoView| repo.name == name);
}

/// The name of a row's worktree is relative to the main worktree of the
/// repository that the row is of.
pub proof fn rows_are_named_within_their_repository(picker: DelegateView, name: Seq<char>)
    ensures
        picker.row_main_path(None) == main_path_of(picker.all_worktrees),
        picker.row_main_path(Some(name)) == repo_path_of(picker.external_repos, name),
{
}

/// A search selects the first worktree's row.
pub proof fn search_selects_the_first_worktree(
    before: Seq<EntryView>,
    row: EntryView,
    after: Seq<EntryView>,
)
    requires
        forall|i: int| 0 <= i < before.len() ==> !((#[trigger] before[i]) is Worktree),
        row is Worktree,
    ensures
        search_selection(before + seq![row] + after) == before.len(),
{
    first_is_found(before, row, after, |entry: EntryView| entry is Worktree);
}

/// Without a worktree, a search selects the first row that creates one of the
/// query's name, and without that the first row.
pub proof fn search_selects_the_named_creation(
    before: Seq<EntryView>,
    row: EntryView,
    after: Seq<EntryView>,
)
    requires
        forall|i: int|
            0 <= i < before.len() ==> !((#[trigger] before[i]) is Worktree) && !(
            before[i] is CreateNamed),
        forall|i: int| 0 <= i < after.len() ==> !((#[trigger] after[i]) is Worktree),
        row is CreateNamed,
    ensures
        search_selection(before + seq![row] + after) == before.len(),
        search_selection(before) == 0,
{
    let rows = before + seq![row] + after;
    first_is_found(before, row, after, |entry: EntryView| entry is CreateNamed);
    assert forall|i: int| 0 <= i < rows.len() implies !((#[trigger] rows[i]) is Worktree) by {
        if i < before.len() {
            assert(rows[i] == before[i]);
        } else if i > before.len() {
            assert(rows[i] == after[i - before.len() - 1]);
        }
    }
    first_is_found(rows, row, seq![], |entry: EntryView| entry is Worktree);
    first_is_found(before, row, seq![], |entry: EntryView| entry is Worktree);
}

/// A worktree may be deleted exactly if it is not the main one and no worktree
/// open in the window is at its path.
pub proof fn only_closed_linked_worktrees_may_be_deleted(
    picker: DelegateView,
    worktree: WorktreeView,
)
    ensures
        picker.deletable(worktree) <==> !(worktree.is_main
            || picker.project_worktree_paths.contains(worktree.path)),
{
}

/// Creation is blocked in shared projects and in those without a repository,
/// and in no others.
pub proof fn creation_is_blocked_without_a_place_for_it(count: nat)
    ensures
        blocked_reason(true, count) == Some(
            "Worktree creation is not supported in collaborative projects"@,
        ),
        blocked_reason(false, 0) == Some("Requires a Git repository in the project"@),
        count > 0 ==> blocked_reason(false, count) is None,
{
}

/// Of the worktrees that are listed, those that are no bare repositories are
/// kept, all of them and in order.
pub proof fn bare_repositories_alone_are_left_out(
    before: Seq<WorktreeView>,
    worktree: WorktreeView,
    after: Seq<WorktreeView>,
)
    ensures
        checked_out(before + seq![worktree] + after) == checked_out(before) + (
        if worktree.is_bare {
            seq![]
        } else {
            seq![worktree]
        }) + checked_out(after),
        checked_out(seq![]) == Seq::<WorktreeView>::empty(),
{
    let keep = |worktree: WorktreeView| !worktree.is_bare;
    Seq::filter_distributes_over_add(before + seq![worktree], after, keep);
    Seq::filter_distributes_over_add(before, seq![worktree], keep);
    lemma_filter_one(worktree, keep);
    reveal(Seq::filter);
}

pub(crate) proof fn lemma_filter_one<T>(x: T, keep: spec_fn(T) -> bool)
    ensures
        seq![x].filter(keep) == if keep(x) {
            seq![x]
        } else {
            seq![]
        },
        Seq::<T>::empty().filter(keep) == Seq::<T>::empty(),
{
    reveal_with_fuel(Seq::filter, 2);
    assert(seq![x].drop_last() =~= seq![]);
    assert(seq![x].filter(keep) =~= if keep(x) {
        seq![x]
    } else {
        seq![]
    });
}

/// The worktrees of one group, the open or the others, come in the order of
/// their names; under each name they are those of the list, in its order.
pub proof fn groups_are_ordered_by_name(
    all: Seq<NamedView>,
    open: Set<PathView>,
    is_open: bool,
    name: Seq<char>,
)
    ensures
        forall|i: int, j: int|
            0 <= i < j < group(all, open, is_open).len() ==> text_le(
                #[trigger] group(all, open, is_open)[i].name,
                #[trigger] group(all, open, is_open)[j].name,
            ),
        group(all, open, is_open).filter(|x: NamedView| x.name == name) == all.filter(
            |x: NamedView| open.contains(x.worktree.path) == is_open && x.name == name,
        ),
        group(all, open, is_open).to_multiset() == all.filter(
            |x: NamedView| open.contains(x.worktree.path) == is_open,
        ).to_multiset(),
{
    let of_group = |x: NamedView| open.contains(x.worktree.path) == is_open;
    let of_name = |x: NamedView| x.name == name;
    let both = |x: NamedView| open.contains(x.worktree.path) == is_open && x.name == name;
    sorting_by_name_is_stable(all.filter(of_group));
    let sorted = group(all, open, is_open);
    assert(under_name(sorted, name) == under_name(
        all.filter(of_group),
        name,
    ));
    lemma_filter_twice(all, of_group, of_name, both);
}

proof fn lemma_filter_twice<T>(
    all: Seq<T>,
    p: spec_fn(T) -> bool,
    q: spec_fn(T) -> bool,
    both: spec_fn(T) -> bool,
)
    requires
        forall|x: T| #[trigger] both(x) == (p(x) && q(x)),
    ensures
        all.filter(p).filter(q) == all.filter(both),
    decreases all.len(),
{
    reveal(Seq::filter);
    if all.len() > 0 {
        let init = all.drop_last();
        lemma_filter_twice(init, p, q, both);
        let x = all.last();
        assert(both(x) == (p(x) && q(x)));
        if p(x) {
            assert(init.filter(p).push(x).drop_last() =~= init.filter(p));
        }
    }
}

/// The rows of worktrees of the repository, without highlights.
pub open spec fn rows_of(list: Seq<NamedView>) -> Seq<EntryView> {
    Seq::new(
        list.len(),
        |i: int|
            EntryView::Worktree {
                worktree: list[i].worktree,
                positions: seq![],
                repo_name: None,
            },
    )
}

/// The worktrees that are open come before the others, behind a separator; with
/// two or more of them under a header of their own, and a separator before the
/// others, if there are any.
pub proof fn open_worktrees_come_first(all: Seq<NamedView>, open: Set<PathView>)
    ensures
        ({
            let here = rows_of(group(all, open, true));
            let others = rows_of(group(all, open, false));
            let line = seq![EntryView::Separator];
            let header = seq![EntryView::SectionHeader("This Window"@)];
            &&& all.len() == 0 ==> repository_rows(all, open) == Seq::<EntryView>::empty()
            &&& all.len() > 0 && here.len() <= 1 ==> repository_rows(all, open) == line + here
                + others
            &&& here.len() > 1 && others.len() > 0 ==> repository_rows(all, open) == line + header
                + here + line + others
            &&& here.len() > 1 && others.len() == 0 ==> repository_rows(all, open) == line + header
                + here
        }),
{
    let here = group(all, open, true);
    let others = group(all, open, false);
    assert(plain_rows(here) =~= rows_of(here));
    assert(plain_rows(others) =~= rows_of(others));
    sorting_by_name_is_stable(all.filter(|x: NamedView| open.contains(x.worktree.path) == true));
    all.lemma_filter_len(|x: NamedView| open.contains(x.worktree.path) == true);
    let line = seq![EntryView::Separator];
    let header = seq![EntryView::SectionHeader("This Window"@)];
    if all.len() > 0 {
        if here.len() > 1 {
            if others.len() > 0 {
                assert(repository_rows(all, open) =~= line + header + rows_of(here) + line
                    + rows_of(others));
            } else {
                assert(repository_rows(all, open) =~= line + header + rows_of(here));
            }
        } else {
            assert(repository_rows(all, open) =~= line + rows_of(here) + rows_of(others));
        }
    }
}

/// A repository near the project shows its worktrees that are not open, in
/// their order, under its name; nothing where all of them are open.
pub proof fn nearby_repository_shows_what_is_not_open(
    name: Seq<char>,
    main_path: PathView,
    before: Seq<WorktreeView>,
    worktree: WorktreeView,
    open: Set<PathView>,
)
    ensures
        ({
            let repo = |worktrees: Seq<WorktreeView>|
                seq![ExternalRepoView { name, main_path, worktrees }];
            let row = EntryView::Worktree { worktree, positions: seq![], repo_name: Some(name) };
            let heading = seq![EntryView::Separator, EntryView::SectionHeader(name)];
            let shorter = external_rows(repo(before), open);
            let longer = external_rows(repo(before.push(worktree)), open);
            &&& external_rows(repo(seq![]), open) == Seq::<EntryView>::empty()
            &&& open.contains(worktree.path) ==> longer == shorter
            &&& !open.contains(worktree.path) ==> longer == (if shorter.len() == 0 {
                heading
            } else {
                shorter
            }).push(row)
        }),
{
    let keep = |worktree: WorktreeView| !open.contains(worktree.path);
    let to_row = |worktree: WorktreeView| plain_row(worktree, Some(name));
    let repo = |worktrees: Seq<WorktreeView>| ExternalRepoView { name, main_path, worktrees };
    let heading = seq![EntryView::Separator, EntryView::SectionHeader(name)];
    reveal(Seq::filter);
    assert(before.push(worktree).drop_last() =~= before);
    lemma_one_repository(repo(seq![]), open);
    lemma_one_repository(repo(before), open);
    lemma_one_repository(repo(before.push(worktree)), open);
    let kept = before.filter(keep);
    let shorter = external_rows(seq![repo(before)], open);
    let longer = external_rows(seq![repo(before.push(worktree))], open);
    assert(kept.push(worktree).map_values(to_row) =~= kept.map_values(to_row).push(
        to_row(worktree),
    ));
    if keep(worktree) {
        if kept.len() == 0 {
            assert(kept.map_values(to_row) =~= seq![]);
        }
        assert(longer =~= (heading + kept.map_values(to_row)).push(to_row(worktree)));
        assert((heading + kept.map_values(to_row)).len() > 0);
        if kept.len() == 0 {
            assert(heading + kept.map_values(to_row) =~= heading);
        }
    }
}

proof fn lemma_one_repository(repo: ExternalRepoView, open: Set<PathView>)
    ensures
        external_rows(seq![repo], open) == section_rows(repo, open),
{
    assert(seq![repo].drop_last() =~= seq![]);
    reveal_with_fuel(external_rows, 2);
    assert(external_rows(seq![repo], open) =~= section_rows(repo, open));
}

/// The repositories near the project are shown one after the other.
pub proof fn nearby_repositories_are_shown_in_order(
    first: Seq<ExternalRepoView>,
    second: Seq<ExternalRepoView>,
    open: Set<PathView>,
)
    ensures
        external_rows(first + second, open) == external_rows(first, open) + external_rows(
            second,
            open,
        ),
    decreases second.len(),
{
    if second.len() == 0 {
        assert(first + second =~= first);
    } else {
        nearby_repositories_are_shown_in_order(first, second.drop_last(), open);
        assert((first + second).drop_last() =~= first + second.drop_last());
    }
    assert(external_rows(first + second, open) =~= external_rows(first, open) + external_rows(
        second,
        open,
    ));
}

/// Each target gives a row that creates a worktree from it, in order.
pub proof fn targets_give_their_rows(targets: Seq<CreateTargetView>)
    ensures
        fixed_rows(targets).len() == targets.len(),
        forall|i: int|
            0 <= i < targets.len() ==> #[trigger] fixed_rows(targets)[i] == match targets[i] {
                CreateTargetView::CurrentBranch => EntryView::CreateFromCurrentBranch,
                CreateTargetView::DefaultBranch(default_branch) => {
                    EntryView::CreateFromDefaultBranch { default_branch }
                },
            },
{
}

/// Without a query the rows are those of the targets, then those of the
/// repository's worktrees, each under its own name, then those of the
/// repositories near the project.
pub proof fn idle_rows_are_three_parts(
    picker: DelegateView,
    targets: Seq<CreateTargetView>,
    names: NamesView,
)
    ensures
        idle_rows(picker, targets, names) == fixed_rows(targets) + repository_rows(
            Seq::new(
                picker.all_worktrees.len(),
                |i: int|
                    NamedView { worktree: picker.all_worktrees[i], name: names.worktrees[i] },
            ),
            picker.project_worktree_paths,
        ) + external_rows(picker.external_repos, picker.project_worktree_paths),
{
    assert(named(picker.all_worktrees, names.worktrees) =~= Seq::new(
        picker.all_worktrees.len(),
        |i: int| NamedView { worktree: picker.all_worktrees[i], name: names.worktrees[i] },
    ));
}

/// A worktree is put into a list behind those whose name comes no later than
/// its own, and before those whose name comes later.
pub proof fn worktree_is_put_behind_its_equals(
    before: Seq<NamedView>,
    after: Seq<NamedView>,
    x: NamedView,
)
    requires
        forall|i: int| 0 <= i < before.len() ==> text_le(#[trigger] before[i].name, x.name),
        forall|i: int| 0 <= i < after.len() ==> !text_le(#[trigger] after[i].name, x.name),
    ensures
        inserted_by_name(before + after, x) == before + seq![x] + after,
    decreases after.len(),
{
    let s = before + after;
    if after.len() == 0 {
        assert(s =~= before);
        if s.len() > 0 {
            assert(text_le(before[before.len() - 1].name, x.name));
        }
        assert(s.push(x) =~= before + seq![x] + after);
    } else {
        assert(!text_le(after[after.len() - 1].name, x.name));
        assert(s.drop_last() =~= before + after.drop_last());
        worktree_is_put_behind_its_equals(before, after.drop_last(), x);
        assert((before + seq![x] + after.drop_last()).push(after.last()) =~= before + seq![x]
            + after);
    }
}

} // verus!
