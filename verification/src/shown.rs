//! What the rows of the picker show, taken together.

use vstd::multiset::Multiset;
use vstd::prelude::*;

use crate::matches::{
    external_rows, fixed_rows, group, idle_rows, named, not_open, plain_row, plain_rows,
    repository_rows, section_rows, NamesView,
};
use crate::model::{BranchView, CreateTargetView, EntryView, ExternalRepoView, WorktreeView};
use crate::naming::{inserted_by_name, sorted_by_name, NamedView};
use crate::path::PathView;
use crate::picker::{search_selection, DelegateView};
use crate::search::{
    best_positions, branch_rank, branch_rows, create_rows, external_candidates, found_rows,
    lowered_names, own_candidates, positions_of_rank, query_name, repo_candidates, result_rows,
    search_for, search_rows, BranchRank, CandidateView, FuzzyMatchView, SearchView,
    MAX_BRANCH_ROWS,
};
use crate::seqs::lemma_first_where;
use crate::text::{first_occurrence, first_occurrence_is_first, has_prefix, lowercase};

verus! {

broadcast use vstd::seq_lib::group_to_multiset_ensures;

/// The worktrees that rows show under the name of a repository, or as the
/// project's own.
pub open spec fn shown(rows: Seq<EntryView>, under: Option<Seq<char>>) -> Multiset<WorktreeView>
    decreases rows.len(),
{
    if rows.len() == 0 {
        Multiset::empty()
    } else {
        let before = shown(rows.drop_last(), under);
        match rows.last() {
            EntryView::Worktree { worktree, positions, repo_name } => if repo_name == under {
                before.insert(worktree)
            } else {
                before
            },
            _ => before,
        }
    }
}

/// The worktrees that a query can find under the name of a repository, or as
/// the project's own.
pub open spec fn findable(
    candidates: Seq<CandidateView>,
    under: Option<Seq<char>>,
) -> Multiset<WorktreeView>
    decreases candidates.len(),
{
    if candidates.len() == 0 {
        Multiset::empty()
    } else {
        let before = findable(candidates.drop_last(), under);
        if candidates.last().repo_name == under {
            before.insert(candidates.last().worktree)
        } else {
            before
        }
    }
}

/// The worktrees that are not open of the repositories of a name.
pub open spec fn not_open_under(
    repos: Seq<ExternalRepoView>,
    open: Set<PathView>,
    under: Option<Seq<char>>,
) -> Multiset<WorktreeView>
    decreases repos.len(),
{
    if repos.len() == 0 {
        Multiset::empty()
    } else {
        let before = not_open_under(repos.drop_last(), open, under);
        if under == Some(repos.last().name) {
            before.add(not_open(repos.last().worktrees, open).to_multiset())
        } else {
            before
        }
    }
}

/// The worktrees of a list of named ones.
pub open spec fn worktrees_of(list: Seq<NamedView>) -> Seq<WorktreeView> {
    list.map_values(|x: NamedView| x.worktree)
}

proof fn lemma_shown_add(a: Seq<EntryView>, b: Seq<EntryView>, under: Option<Seq<char>>)
    ensures
        shown(a + b, under) == shown(a, under).add(shown(b, under)),
    decreases b.len(),
{
    if b.len() == 0 {
        assert(a + b =~= a);
        assert(shown(a, under).add(shown(b, under)) =~= shown(a, under));
    } else {
        lemma_shown_add(a, b.drop_last(), under);
        assert((a + b).drop_last() =~= a + b.drop_last());
        assert((a + b).last() == b.last());
        assert(shown(a + b, under) =~= shown(a, under).add(shown(b, under)));
    }
}

proof fn lemma_findable_add(a: Seq<CandidateView>, b: Seq<CandidateView>, under: Option<Seq<char>>)
    ensures
        findable(a + b, under) == findable(a, under).add(findable(b, under)),
    decreases b.len(),
{
    if b.len() == 0 {
        assert(a + b =~= a);
        assert(findable(a, under).add(findable(b, under)) =~= findable(a, under));
    } else {
        lemma_findable_add(a, b.drop_last(), under);
        assert((a + b).drop_last() =~= a + b.drop_last());
        assert((a + b).last() == b.last());
        assert(findable(a + b, under) =~= findable(a, under).add(findable(b, under)));
    }
}

proof fn lemma_shown_none(rows: Seq<EntryView>, under: Option<Seq<char>>)
    requires
        forall|i: int| 0 <= i < rows.len() ==> !((#[trigger] rows[i]) is Worktree),
    ensures
        shown(rows, under) == Multiset::<WorktreeView>::empty(),
    decreases rows.len(),
{
    if rows.len() > 0 {
        lemma_shown_none(rows.drop_last(), under);
    }
}

proof fn lemma_worktrees_of_push(list: Seq<NamedView>, x: NamedView)
    ensures
        worktrees_of(list.push(x)) == worktrees_of(list).push(x.worktree),
{
    assert(worktrees_of(list.push(x)) =~= worktrees_of(list).push(x.worktree));
}

proof fn lemma_inserted_keeps_worktrees(s: Seq<NamedView>, x: NamedView)
    ensures
        worktrees_of(inserted_by_name(s, x)).to_multiset() == worktrees_of(s).to_multiset().insert(
            x.worktree,
        ),
    decreases s.len(),
{
    if s.len() > 0 {
        let init = s.drop_last();
        lemma_inserted_keeps_worktrees(init, x);
        lemma_worktrees_of_push(inserted_by_name(init, x), s.last());
        lemma_worktrees_of_push(init, s.last());
        assert(s =~= init.push(s.last()));
    }
    lemma_worktrees_of_push(s, x);
    assert(worktrees_of(inserted_by_name(s, x)).to_multiset() =~= worktrees_of(
        s,
    ).to_multiset().insert(x.worktree));
}

proof fn lemma_sorted_keeps_worktrees(s: Seq<NamedView>)
    ensures
        worktrees_of(sorted_by_name(s)).to_multiset() == worktrees_of(s).to_multiset(),
    decreases s.len(),
{
    if s.len() > 0 {
        let init = s.drop_last();
        lemma_sorted_keeps_worktrees(init);
        lemma_inserted_keeps_worktrees(sorted_by_name(init), s.last());
        lemma_worktrees_of_push(init, s.last());
        assert(s =~= init.push(s.last()));
    }
}

proof fn lemma_groups_keep_worktrees(all: Seq<NamedView>, open: Set<PathView>)
    ensures
        worktrees_of(group(all, open, true)).to_multiset().add(
            worktrees_of(group(all, open, false)).to_multiset(),
        ) == worktrees_of(all).to_multiset(),
    decreases all.len(),
{
    let here = |x: NamedView| open.contains(x.worktree.path) == true;
    let elsewhere = |x: NamedView| open.contains(x.worktree.path) == false;
    lemma_sorted_keeps_worktrees(all.filter(here));
    lemma_sorted_keeps_worktrees(all.filter(elsewhere));
    lemma_filters_keep_worktrees(all, open);
}

proof fn lemma_filters_keep_worktrees(all: Seq<NamedView>, open: Set<PathView>)
    ensures
        ({
            let here = |x: NamedView| open.contains(x.worktree.path) == true;
            let elsewhere = |x: NamedView| open.contains(x.worktree.path) == false;
            worktrees_of(all.filter(here)).to_multiset().add(
                worktrees_of(all.filter(elsewhere)).to_multiset(),
            ) == worktrees_of(all).to_multiset()
        }),
    decreases all.len(),
{
    let here = |x: NamedView| open.contains(x.worktree.path) == true;
    let elsewhere = |x: NamedView| open.contains(x.worktree.path) == false;
    reveal(Seq::filter);
    if all.len() > 0 {
        let init = all.drop_last();
        lemma_filters_keep_worktrees(init, open);
        lemma_worktrees_of_push(init, all.last());
        lemma_worktrees_of_push(init.filter(here), all.last());
        lemma_worktrees_of_push(init.filter(elsewhere), all.last());
        assert(all =~= init.push(all.last()));
    }
    assert(worktrees_of(all.filter(here)).to_multiset().add(
        worktrees_of(all.filter(elsewhere)).to_multiset(),
    ) =~= worktrees_of(all).to_multiset());
}

proof fn lemma_shown_plain_rows(list: Seq<NamedView>, under: Option<Seq<char>>)
    ensures
        shown(plain_rows(list), under) == if under is None {
            worktrees_of(list).to_multiset()
        } else {
            Multiset::<WorktreeView>::empty()
        },
    decreases list.len(),
{
    if list.len() > 0 {
        let init = list.drop_last();
        lemma_shown_plain_rows(init, under);
        lemma_worktrees_of_push(init, list.last());
        assert(list =~= init.push(list.last()));
        assert(plain_rows(list).drop_last() =~= plain_rows(init));
        assert(plain_rows(list).last() == plain_row(list.last().worktree, None));
    } else {
        assert(worktrees_of(list).to_multiset() =~= Multiset::<WorktreeView>::empty());
    }
}

proof fn lemma_shown_repository_rows(
    all: Seq<NamedView>,
    open: Set<PathView>,
    under: Option<Seq<char>>,
)
    ensures
        shown(repository_rows(all, open), under) == if under is None {
            worktrees_of(all).to_multiset()
        } else {
            Multiset::<WorktreeView>::empty()
        },
{
    if all.len() == 0 {
        assert(worktrees_of(all).to_multiset() =~= Multiset::<WorktreeView>::empty());
    } else {
        let here = group(all, open, true);
        let others = group(all, open, false);
        let head = seq![EntryView::Separator, EntryView::SectionHeader("This Window"@)];
        let line = seq![EntryView::Separator];
        let middle: Seq<EntryView> = if others.len() > 0 {
            line
        } else {
            seq![]
        };
        lemma_groups_keep_worktrees(all, open);
        lemma_shown_plain_rows(here, under);
        lemma_shown_plain_rows(others, under);
        lemma_shown_none(head, under);
        lemma_shown_none(line, under);
        lemma_shown_none(middle, under);
        lemma_shown_add(head, plain_rows(here), under);
        lemma_shown_add(head + plain_rows(here), middle, under);
        lemma_shown_add(head + plain_rows(here) + middle, plain_rows(others), under);
        lemma_shown_add(line, plain_rows(here), under);
        lemma_shown_add(line + plain_rows(here), plain_rows(others), under);
        assert(shown(repository_rows(all, open), under) =~= if under is None {
            worktrees_of(all).to_multiset()
        } else {
            Multiset::<WorktreeView>::empty()
        });
    }
}

proof fn lemma_shown_named_rows(
    list: Seq<WorktreeView>,
    name: Seq<char>,
    under: Option<Seq<char>>,
)
    ensures
        shown(
            list.map_values(
                |worktree: WorktreeView| plain_row(worktree, Some(name)),
            ),
            under,
        ) == if under == Some(name) {
            list.to_multiset()
        } else {
            Multiset::<WorktreeView>::empty()
        },
    decreases list.len(),
{
    let to_row = |worktree: WorktreeView| plain_row(worktree, Some(name));
    if list.len() > 0 {
        let init = list.drop_last();
        lemma_shown_named_rows(init, name, under);
        assert(list.map_values(to_row).drop_last() =~= init.map_values(to_row));
        assert(list =~= init.push(list.last()));
    } else {
        assert(list.to_multiset() =~= Multiset::<WorktreeView>::empty());
    }
}

proof fn lemma_shown_external_rows(
    repos: Seq<ExternalRepoView>,
    open: Set<PathView>,
    under: Option<Seq<char>>,
)
    ensures
        shown(external_rows(repos, open), under) == not_open_under(repos, open, under),
    decreases repos.len(),
{
    if repos.len() > 0 {
        let init = repos.drop_last();
        let repo = repos.last();
        let list = not_open(repo.worktrees, open);
        let head = seq![EntryView::Separator, EntryView::SectionHeader(repo.name)];
        let to_row = |worktree: WorktreeView| plain_row(worktree, Some(repo.name));
        lemma_shown_external_rows(init, open, under);
        lemma_shown_none(head, under);
        lemma_shown_named_rows(list, repo.name, under);
        lemma_shown_add(head, list.map_values(to_row), under);
        lemma_shown_add(external_rows(init, open), section_rows(repo, open), under);
        if list.len() == 0 {
            assert(list.to_multiset() =~= Multiset::<WorktreeView>::empty());
        }
        assert(shown(external_rows(repos, open), under) =~= not_open_under(repos, open, under));
    }
}

/// What the rows show under the name of a repository, or as the project's own.
pub open spec fn expected(picker: DelegateView, under: Option<Seq<char>>) -> Multiset<
    WorktreeView,
> {
    if under is None {
        picker.all_worktrees.to_multiset()
    } else {
        not_open_under(picker.external_repos, picker.project_worktree_paths, under)
    }
}

proof fn lemma_nothing_under_none(repos: Seq<ExternalRepoView>, open: Set<PathView>)
    ensures
        not_open_under(repos, open, None) == Multiset::<WorktreeView>::empty(),
    decreases repos.len(),
{
    if repos.len() > 0 {
        lemma_nothing_under_none(repos.drop_last(), open);
    }
}

/// Without a query, every worktree of the repository is shown once, and so is
/// every worktree of a repository near the project, under that repository's
/// name, unless it is open in the window.
pub proof fn idle_rows_show_each_worktree_once(
    picker: DelegateView,
    targets: Seq<CreateTargetView>,
    names: NamesView,
    under: Option<Seq<char>>,
)
    ensures
        shown(idle_rows(picker, targets, names), under) == expected(picker, under),
{
    let open = picker.project_worktree_paths;
    let all = named(picker.all_worktrees, names.worktrees);
    let fixed = fixed_rows(targets);
    assert(worktrees_of(all) =~= picker.all_worktrees);
    lemma_shown_none(fixed, under);
    lemma_shown_repository_rows(all, open, under);
    lemma_shown_external_rows(picker.external_repos, open, under);
    lemma_nothing_under_none(picker.external_repos, open);
    lemma_shown_add(fixed, repository_rows(all, open), under);
    lemma_shown_add(
        fixed + repository_rows(all, open),
        external_rows(picker.external_repos, open),
        under,
    );
    assert(shown(idle_rows(picker, targets, names), under) =~= expected(picker, under));
}

proof fn lemma_findable_own(all: Seq<NamedView>, under: Option<Seq<char>>)
    ensures
        findable(own_candidates(all), under) == if under is None {
            worktrees_of(all).to_multiset()
        } else {
            Multiset::<WorktreeView>::empty()
        },
    decreases all.len(),
{
    if all.len() > 0 {
        let init = all.drop_last();
        lemma_findable_own(init, under);
        lemma_worktrees_of_push(init, all.last());
        assert(all =~= init.push(all.last()));
        assert(own_candidates(all).drop_last() =~= own_candidates(init));
    } else {
        assert(worktrees_of(all).to_multiset() =~= Multiset::<WorktreeView>::empty());
    }
}

proof fn lemma_findable_labelled(
    list: Seq<NamedView>,
    name: Seq<char>,
    under: Option<Seq<char>>,
)
    ensures
        findable(
            list.map_values(
                |x: NamedView|
                    CandidateView {
                        label: name.push('/') + x.name,
                        worktree: x.worktree,
                        repo_name: Some(name),
                    },
            ),
            under,
        ) == if under == Some(name) {
            worktrees_of(list).to_multiset()
        } else {
            Multiset::<WorktreeView>::empty()
        },
    decreases list.len(),
{
    let label = |x: NamedView|
        CandidateView {
            label: name.push('/') + x.name,
            worktree: x.worktree,
            repo_name: Some(name),
        };
    if list.len() > 0 {
        let init = list.drop_last();
        lemma_findable_labelled(init, name, under);
        lemma_worktrees_of_push(init, list.last());
        assert(list =~= init.push(list.last()));
        assert(list.map_values(label).drop_last() =~= init.map_values(label));
    } else {
        assert(worktrees_of(list).to_multiset() =~= Multiset::<WorktreeView>::empty());
    }
}

proof fn lemma_not_open_named(all: Seq<WorktreeView>, names: Seq<Seq<char>>, open: Set<PathView>)
    ensures
        worktrees_of(
            named(all, names).filter(|x: NamedView| !open.contains(x.worktree.path)),
        ) == not_open(all, open),
    decreases all.len(),
{
    let keep = |x: NamedView| !open.contains(x.worktree.path);
    reveal(Seq::filter);
    if all.len() > 0 {
        let init = all.drop_last();
        let list = named(all, names);
        lemma_not_open_named(init, names, open);
        assert(list.drop_last() =~= named(init, names));
        lemma_worktrees_of_push(named(init, names).filter(keep), list.last());
    }
    assert(worktrees_of(named(all, names).filter(keep)) =~= not_open(all, open));
}

proof fn lemma_findable_external(
    repos: Seq<ExternalRepoView>,
    names: Seq<Seq<Seq<char>>>,
    open: Set<PathView>,
    under: Option<Seq<char>>,
)
    ensures
        findable(external_candidates(repos, names, open), under) == not_open_under(
            repos,
            open,
            under,
        ),
    decreases repos.len(),
{
    if repos.len() > 0 {
        let init = repos.drop_last();
        let repo = repos.last();
        let own = names[repos.len() - 1];
        lemma_findable_external(init, names, open, under);
        lemma_not_open_named(repo.worktrees, own, open);
        lemma_findable_labelled(
            named(repo.worktrees, own).filter(|x: NamedView| !open.contains(x.worktree.path)),
            repo.name,
            under,
        );
        lemma_findable_add(
            external_candidates(init, names, open),
            repo_candidates(repo, own, open),
            under,
        );
        assert(findable(external_candidates(repos, names, open), under) =~= not_open_under(
            repos,
            open,
            under,
        ));
    }
}

/// A query can find exactly the worktrees that are shown without one.
pub proof fn query_can_find_what_is_shown(
    picker: DelegateView,
    query: Seq<char>,
    targets: Seq<CreateTargetView>,
    names: NamesView,
    branch_list: Seq<BranchView>,
    under: Option<Seq<char>>,
)
    ensures
        findable(search_for(picker, query, names, branch_list).candidates, under) == shown(
            idle_rows(picker, targets, names),
            under,
        ),
{
    let open = picker.project_worktree_paths;
    let all = named(picker.all_worktrees, names.worktrees);
    idle_rows_show_each_worktree_once(picker, targets, names, under);
    assert(worktrees_of(all) =~= picker.all_worktrees);
    lemma_findable_own(all, under);
    lemma_findable_external(picker.external_repos, names.external, open, under);
    lemma_nothing_under_none(picker.external_repos, open);
    lemma_findable_add(
        own_candidates(all),
        external_candidates(picker.external_repos, names.external, open),
        under,
    );
    assert(findable(search_for(picker, query, names, branch_list).candidates, under) =~= expected(
        picker,
        under,
    ));
}

/// A search selects the first worktree that it found, and where it found none
/// the row that creates a worktree of the query's name.
pub proof fn search_selects_the_best_row(search: SearchView, found: Seq<FuzzyMatchView>)
    ensures
        ({
            let rows = search_rows(search, found);
            let at = search_selection(rows);
            &&& 0 <= at < rows.len()
            &&& found.len() > 0 ==> at == 0 && rows[at] is Worktree
            &&& found.len() == 0 ==> rows[at] == (EntryView::CreateNamed {
                name: query_name(search.query),
                from_branch: search.from_branch,
                disabled_reason: search.disabled_reason,
            })
        }),
{
    let rows = search_rows(search, found);
    let results = result_rows(search, found);
    let ends = create_rows(search);
    let last = rows.len() - 2;
    lemma_first_where(rows, |entry: EntryView| entry is Worktree);
    lemma_first_where(rows, |entry: EntryView| entry is CreateNamed);
    assert(rows[last] == ends[0]);
    assert(rows[last + 1] == ends[1]);
    if found.len() > 0 {
        assert(results[0] == found_rows(search.candidates, found)[0]);
        assert(rows[0] == results[0]);
    } else {
        assert forall|i: int| 0 <= i < last implies !((#[trigger] rows[i]) is Worktree)
            && !(rows[i] is CreateNamed) by {
            if i < results.len() {
                assert(rows[i] == results[i]);
            } else {
                assert(rows[i] is Separator);
            }
        }
    }
}

/// Every search offers to create a worktree and a branch of the query's name.
pub proof fn search_always_offers_creation(search: SearchView, found: Seq<FuzzyMatchView>)
    ensures
        search_rows(search, found).contains(
            (EntryView::CreateNamed {
                name: query_name(search.query),
                from_branch: search.from_branch,
                disabled_reason: search.disabled_reason,
            }),
        ),
        search_rows(search, found).contains(
            (EntryView::CreateNewBranch { name: query_name(search.query) }),
        ),
{
    let rows = search_rows(search, found);
    let last = rows.len() - 2;
    assert(rows[last] == create_rows(search)[0]);
    assert(rows[last + 1] == create_rows(search)[1]);
}

/// How well a rank is, the best being the least.
pub open spec fn rank_number(rank: BranchRank) -> int {
    match rank {
        BranchRank::Exact => 0,
        BranchRank::Prefix => 1,
        BranchRank::Inner => 2,
        BranchRank::NoMatch => 3,
    }
}

proof fn lemma_rank_of_position(
    names: Seq<Seq<char>>,
    query: Seq<char>,
    rank: BranchRank,
    k: int,
)
    requires
        0 <= k < positions_of_rank(names, query, rank).len(),
    ensures
        0 <= positions_of_rank(names, query, rank)[k] < names.len(),
        branch_rank(names[positions_of_rank(names, query, rank)[k]], query) == rank,
{
    let all = Seq::new(names.len(), |i: int| i);
    let keep = |i: int| branch_rank(names[i], query) == rank;
    let r = positions_of_rank(names, query, rank);
    all.lemma_filter_pred(keep, k);
    assert(r.contains(r[k]));
    all.lemma_filter_contains_rev(keep, r[k]);
}

proof fn lemma_best_rank(names: Seq<Seq<char>>, query: Seq<char>, limit: nat, k: int)
    requires
        0 <= k < best_positions(names, query, limit).len(),
    ensures
        ({
            let at = best_positions(names, query, limit)[k];
            let exact = positions_of_rank(names, query, BranchRank::Exact).len();
            let prefix = positions_of_rank(names, query, BranchRank::Prefix).len();
            &&& 0 <= at < names.len()
            &&& rank_number(branch_rank(names[at], query)) == if k < exact {
                0int
            } else if k < exact + prefix {
                1int
            } else {
                2int
            }
        }),
{
    let exact = positions_of_rank(names, query, BranchRank::Exact);
    let prefix = positions_of_rank(names, query, BranchRank::Prefix);
    let inner = positions_of_rank(names, query, BranchRank::Inner);
    let at = best_positions(names, query, limit)[k];
    assert(at == (exact + prefix + inner)[k]);
    if k < exact.len() {
        lemma_rank_of_position(names, query, BranchRank::Exact, k);
    } else if k < exact.len() + prefix.len() {
        lemma_rank_of_position(names, query, BranchRank::Prefix, k - exact.len());
    } else {
        lemma_rank_of_position(names, query, BranchRank::Inner, k - exact.len() - prefix.len());
    }
}

/// A search offers at most five branches; each has the query in its name, in
/// either case, and those that meet it better come first.
pub proof fn search_offers_the_best_branches(branches: Seq<BranchView>, query: Seq<char>)
    ensures
        ({
            let names = lowered_names(branches);
            let wanted = lowercase(query);
            let at = best_positions(names, wanted, MAX_BRANCH_ROWS as nat);
            &&& branch_rows(branches, at).len() <= MAX_BRANCH_ROWS
            &&& forall|k: int|
                #![trigger at[k]]
                0 <= k < at.len() ==> 0 <= at[k] < branches.len() && first_occurrence(
                    names[at[k]],
                    wanted,
                ) is Some
            &&& forall|j: int, k: int|
                #![trigger at[j], at[k]]
                0 <= j < k < at.len() ==> rank_number(branch_rank(names[at[j]], wanted))
                    <= rank_number(branch_rank(names[at[k]], wanted))
        }),
{
    let names = lowered_names(branches);
    let wanted = lowercase(query);
    let limit = MAX_BRANCH_ROWS as nat;
    let at = best_positions(names, wanted, limit);
    assert forall|k: int|
        #![trigger at[k]]
        0 <= k < at.len() implies 0 <= at[k] < branches.len() && first_occurrence(
        names[at[k]],
        wanted,
    ) is Some by {
        lemma_best_rank(names, wanted, limit, k);
        assert(has_prefix(wanted, wanted)) by {
            assert(wanted.take(wanted.len() as int) =~= wanted);
        }
        first_occurrence_is_first(names[at[k]], wanted);
    }
    assert forall|j: int, k: int|
        #![trigger at[j], at[k]]
        0 <= j < k < at.len() implies rank_number(branch_rank(names[at[j]], wanted))
        <= rank_number(branch_rank(names[at[k]], wanted)) by {
        lemma_best_rank(names, wanted, limit, j);
        lemma_best_rank(names, wanted, limit, k);
    }
}

/// No branch is left out that meets the query, unless five others are shown.
pub proof fn search_leaves_out_no_branch(
    branches: Seq<BranchView>,
    query: Seq<char>,
    i: int,
)
    requires
        0 <= i < branches.len(),
        first_occurrence(lowercase(branches[i].name), lowercase(query)) is Some,
    ensures
        ({
            let at = best_positions(
                lowered_names(branches),
                lowercase(query),
                MAX_BRANCH_ROWS as nat,
            );
            at.contains(i) || at.len() == MAX_BRANCH_ROWS
        }),
{
    let names = lowered_names(branches);
    let wanted = lowercase(query);
    let rank = branch_rank(names[i], wanted);
    let exact = positions_of_rank(names, wanted, BranchRank::Exact);
    let prefix = positions_of_rank(names, wanted, BranchRank::Prefix);
    let inner = positions_of_rank(names, wanted, BranchRank::Inner);
    let all = Seq::new(names.len(), |i: int| i);
    let keep = |i: int| branch_rank(names[i], wanted) == rank;
    assert(all[i] == i);
    all.lemma_filter_contains(keep, i);
    let own = positions_of_rank(names, wanted, rank);
    let k = choose|k: int| 0 <= k < own.len() && own[k] == i;
    let both = exact + prefix + inner;
    let at: int = match rank {
        BranchRank::Exact => k,
        BranchRank::Prefix => exact.len() + k,
        _ => exact.len() + prefix.len() + k,
    };
    assert(both[at] == i);
}

} // verus!
