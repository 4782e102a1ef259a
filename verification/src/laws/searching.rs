//! What a query promises.

use vstd::prelude::*;

use crate::github_link::link_branch;
use crate::laws::rows::{first_is_found, lemma_filter_one};
use crate::laws::text::{prefix_is_the_beginning, split_is_at_the_first_place};
use crate::matches::{idle_rows, named, NamesView};
use crate::model::{
    BranchView, CreateTargetView, EntryView, ExternalRepoView, WorktreeView,
};
use crate::naming::NamedView;
use crate::path::PathView;
use crate::picker::DelegateView;
use crate::search::{
    best_positions, branch_rank, create_rows, external_candidates, is_local_branch, lowered_names,
    numbers, positions_of_rank, query_name, repo_candidates, result_rows, search_for, search_rows,
    worktree_on_branch, BranchRank, CandidateView, FuzzyMatchView, SearchView, MAX_BRANCH_ROWS,
};
use crate::seqs::{lemma_filter_step, lemma_first_where};
use crate::text::lowercase;

verus! {

/// The branches of a search in a repository.
pub open spec fn searched_branches(
    picker: DelegateView,
    query: Seq<char>,
    names: NamesView,
    list: Seq<BranchView>,
) -> Seq<BranchView> {
    search_for(picker, query, names, list).branches->0
}

/// Every branch of the list whose reference is `refs/heads/` and any text
/// behind it, slashes and all, is among the branches of a search, at its place
/// in the list.
pub proof fn every_local_branch_is_searched(
    picker: DelegateView,
    query: Seq<char>,
    names: NamesView,
    before: Seq<BranchView>,
    branch: BranchView,
    after: Seq<BranchView>,
    rest: Seq<char>,
)
    requires
        picker.repository is Some,
        branch.ref_name == "refs/heads/"@ + rest,
    ensures
        search_for(picker, query, names, before + seq![branch] + after).branches == Some(
            searched_branches(picker, query, names, before) + seq![branch] + searched_branches(
                picker,
                query,
                names,
                after,
            ),
        ),
{
    prefix_is_the_beginning(branch.ref_name, "refs/heads/"@);
    lemma_branches_around(picker, query, names, before, branch, after);
}

/// A branch of any other reference is not among the branches of a search, and
/// changes nothing on the others.
pub proof fn no_other_branch_is_searched(
    picker: DelegateView,
    query: Seq<char>,
    names: NamesView,
    before: Seq<BranchView>,
    branch: BranchView,
    after: Seq<BranchView>,
)
    requires
        picker.repository is Some,
        forall|rest: Seq<char>| branch.ref_name != #[trigger] ("refs/heads/"@ + rest),
    ensures
        search_for(picker, query, names, before + seq![branch] + after).branches == Some(
            searched_branches(picker, query, names, before) + searched_branches(
                picker,
                query,
                names,
                after,
            ),
        ),
        searched_branches(picker, query, names, seq![]) == Seq::<BranchView>::empty(),
{
    prefix_is_the_beginning(branch.ref_name, "refs/heads/"@);
    lemma_branches_around(picker, query, names, before, branch, after);
    lemma_filter_one(branch, |branch: BranchView| is_local_branch(branch));
}

proof fn lemma_branches_around(
    picker: DelegateView,
    query: Seq<char>,
    names: NamesView,
    before: Seq<BranchView>,
    branch: BranchView,
    after: Seq<BranchView>,
)
    requires
        picker.repository is Some,
    ensures
        search_for(picker, query, names, before + seq![branch] + after).branches == Some(
            searched_branches(picker, query, names, before) + (
            if is_local_branch(branch) {
                seq![branch]
            } else {
                seq![]
            }) + searched_branches(picker, query, names, after),
        ),
{
    let keep = |branch: BranchView| is_local_branch(branch);
    Seq::filter_distributes_over_add(before + seq![branch], after, keep);
    Seq::filter_distributes_over_add(before, seq![branch], keep);
    lemma_filter_one(branch, keep);
}

/// Without a repository a search has no branches to offer.
pub proof fn no_repository_no_branches(
    picker: DelegateView,
    query: Seq<char>,
    names: NamesView,
    list: Seq<BranchView>,
)
    ensures
        search_for(picker, query, names, list).branches is Some <==> picker.repository is Some,
{
}

/// A search holds its query as it was typed, starts a worktree of that name
/// from the default branch unless there are several repositories, and says why
/// there can be no worktree of that name: several repositories, or a worktree
/// that has it.
pub proof fn search_is_for_its_query(
    picker: DelegateView,
    query: Seq<char>,
    names: NamesView,
    list: Seq<BranchView>,
)
    ensures
        ({
            let search = search_for(picker, query, names, list);
            let name = Seq::new(
                query.len(),
                |i: int|
                    if query[i] == ' ' {
                        '-'
                    } else {
                        query[i]
                    },
            );
            let taken = exists|i: int|
                0 <= i < names.worktrees.len() && #[trigger] names.worktrees[i] == name;
            &&& search.query == query
            &&& query_name(query) == name
            &&& picker.has_multiple_repositories ==> {
                &&& search.from_branch is None
                &&& search.disabled_reason == Some(
                    "Cannot create a named worktree in a project with multiple repositories"@,
                )
            }
            &&& !picker.has_multiple_repositories ==> {
                &&& search.from_branch == picker.default_branch
                &&& taken ==> search.disabled_reason == Some(
                    "A worktree with this name already exists"@,
                )
                &&& !taken ==> search.disabled_reason is None
            }
        }),
{
    let name = Seq::new(
        query.len(),
        |i: int|
            if query[i] == ' ' {
                '-'
            } else {
                query[i]
            },
    );
    assert(query_name(query) =~= name);
    assert(names.worktrees.contains(name) <==> exists|i: int|
        0 <= i < names.worktrees.len() && #[trigger] names.worktrees[i] == name);
}

/// Every worktree of the repository can be found, by its name and at its place;
/// behind them come those of the repositories near the project.
pub proof fn every_own_worktree_can_be_found(
    picker: DelegateView,
    query: Seq<char>,
    names: NamesView,
    list: Seq<BranchView>,
    i: int,
)
    ensures
        ({
            let candidates = search_for(picker, query, names, list).candidates;
            let own = picker.all_worktrees.len() as int;
            &&& candidates.len() >= own
            &&& 0 <= i < own ==> candidates[i] == (CandidateView {
                label: names.worktrees[i],
                worktree: picker.all_worktrees[i],
                repo_name: None,
            })
            &&& candidates.skip(own) == external_candidates(
                picker.external_repos,
                names.external,
                picker.project_worktree_paths,
            )
        }),
{
    let candidates = search_for(picker, query, names, list).candidates;
    assert(candidates.skip(picker.all_worktrees.len() as int) =~= external_candidates(
        picker.external_repos,
        names.external,
        picker.project_worktree_paths,
    ));
}

/// The worktrees of one more repository near the project can be found behind
/// those of the ones before it.
pub proof fn nearby_repositories_are_searched_in_order(
    repos: Seq<ExternalRepoView>,
    repo: ExternalRepoView,
    names: Seq<Seq<Seq<char>>>,
    open: Set<PathView>,
)
    requires
        names.len() == repos.len() + 1,
    ensures
        external_candidates(repos.push(repo), names, open) == external_candidates(
            repos,
            names,
            open,
        ) + repo_candidates(repo, names.last(), open),
        external_candidates(seq![], names, open) == Seq::<CandidateView>::empty(),
{
    assert(repos.push(repo).drop_last() =~= repos);
}

/// Of a repository near the project, every worktree that is not open can be
/// found, by the repository's name, a slash and its own, and none that is.
pub proof fn nearby_worktrees_can_be_found_unless_open(
    name: Seq<char>,
    main_path: PathView,
    worktrees: Seq<WorktreeView>,
    worktree: WorktreeView,
    names: Seq<Seq<char>>,
    own: Seq<char>,
    open: Set<PathView>,
)
    requires
        names.len() == worktrees.len(),
    ensures
        ({
            let shorter = repo_candidates(
                ExternalRepoView { name, main_path, worktrees },
                names,
                open,
            );
            let longer = repo_candidates(
                ExternalRepoView { name, main_path, worktrees: worktrees.push(worktree) },
                names.push(own),
                open,
            );
            &&& open.contains(worktree.path) ==> longer == shorter
            &&& !open.contains(worktree.path) ==> longer == shorter.push(
                CandidateView {
                    label: name + seq!['/'] + own,
                    worktree,
                    repo_name: Some(name),
                },
            )
            &&& worktrees.len() == 0 ==> shorter == Seq::<CandidateView>::empty()
        }),
{
    let keep = |x: NamedView| !open.contains(x.worktree.path);
    let label = |x: NamedView|
        CandidateView {
            label: name.push('/') + x.name,
            worktree: x.worktree,
            repo_name: Some(name),
        };
    let before = named(worktrees, names);
    let after = named(worktrees.push(worktree), names.push(own));
    reveal(Seq::filter);
    assert(after.drop_last() =~= before);
    assert(name.push('/') + own =~= name + seq!['/'] + own);
    let kept = before.filter(keep);
    let x = after.last();
    assert(kept.push(x).map_values(label) =~= kept.map_values(label).push(label(x)));
    if worktrees.len() == 0 {
        assert(kept =~= seq![]);
        assert(kept.map_values(label) =~= seq![]);
    }
}

/// The worktree that a link leads to is the first of the list, main or linked,
/// that has the link's branch checked out.
pub proof fn link_leads_to_the_first_worktree_on_its_branch(
    before: Seq<WorktreeView>,
    worktree: WorktreeView,
    after: Seq<WorktreeView>,
    branch: Seq<char>,
)
    requires
        forall|i: int|
            0 <= i < before.len() ==> (#[trigger] before[i]).branch_name != Some(branch),
        worktree.branch_name == Some(branch),
    ensures
        worktree_on_branch(before + seq![worktree] + after, branch) == Some(worktree.path),
        worktree_on_branch(before, branch) is None,
{
    first_is_found(
        before,
        worktree,
        after,
        |worktree: WorktreeView| worktree.branch_name == Some(branch),
    );
}

/// The row of a link holds the path of a worktree that has the link's branch
/// checked out, the first of the list; it holds none only where no worktree of
/// the list has that branch.
pub proof fn link_row_holds_the_worktree_on_its_branch(
    picker: DelegateView,
    query: Seq<char>,
    targets: Seq<CreateTargetView>,
    names: NamesView,
)
    requires
        query.len() > 0,
        link_branch(query) is Some,
    ensures
        ({
            let branch = link_branch(query)->0;
            let all = picker.all_worktrees;
            let after = picker.shows(query, targets, names);
            &&& after.matches.len() == 1
            &&& after.selected_index == 0
            &&& after.matches[0] matches EntryView::CreateFromGitHubLink {
                branch: shown,
                existing_path,
            } && {
                &&& shown == branch
                &&& match existing_path {
                    Some(path) => exists|i: int|
                        {
                            &&& 0 <= i < all.len()
                            &&& (#[trigger] all[i]).branch_name == Some(branch)
                            &&& all[i].path == path
                            &&& forall|j: int|
                                0 <= j < i ==> (#[trigger] all[j]).branch_name != Some(branch)
                        },
                    None => forall|i: int|
                        0 <= i < all.len() ==> (#[trigger] all[i]).branch_name != Some(branch),
                }
            }
        }),
{
    let branch = link_branch(query)->0;
    lemma_first_where(
        picker.all_worktrees,
        |worktree: WorktreeView| worktree.branch_name == Some(branch),
    );
}

/// The empty query shows the rows without a query and leaves the selection; a
/// link shows its one row; any other query changes nothing until its search is
/// done.
pub proof fn queries_show_their_rows(
    picker: DelegateView,
    query: Seq<char>,
    targets: Seq<CreateTargetView>,
    names: NamesView,
    list: Seq<BranchView>,
)
    ensures
        query.len() == 0 ==> {
            &&& picker.shows(query, targets, names) == (DelegateView {
                matches: idle_rows(picker, targets, names),
                ..picker
            })
            &&& picker.searches(query, names, list) is None
        },
        query.len() > 0 && link_branch(query) is Some ==> {
            &&& picker.searches(query, names, list) is None
            &&& picker.shows(query, targets, names) == (DelegateView {
                matches: picker.shows(query, targets, names).matches,
                selected_index: 0,
                ..picker
            })
        },
        query.len() > 0 && link_branch(query) is None ==> {
            &&& picker.shows(query, targets, names) == picker
            &&& picker.searches(query, names, list) == Some(
                search_for(picker, query, names, list),
            )
        },
{
}

/// The rows of a search are those of the worktrees that it found, then those of
/// the branches, then a separator where there are any of these in a repository,
/// then the creation of a worktree and of a branch of the query's name.
pub proof fn search_rows_are_found_then_created(search: SearchView, found: Seq<FuzzyMatchView>)
    ensures
        ({
            let rows = search_rows(search, found);
            let results = result_rows(search, found);
            let name = query_name(search.query);
            let created = seq![
                EntryView::CreateNamed {
                    name,
                    from_branch: search.from_branch,
                    disabled_reason: search.disabled_reason,
                },
                EntryView::CreateNewBranch { name },
            ];
            let line = seq![EntryView::Separator];
            &&& results.len() > 0 && search.branches is Some ==> rows == results + line + created
            &&& results.len() == 0 || search.branches is None ==> rows == results + created
            &&& results.len() >= found.len()
            &&& forall|k: int|
                0 <= k < found.len() ==> #[trigger] results[k] == (EntryView::Worktree {
                    worktree: search.candidates[found[k].candidate_id].worktree,
                    positions: found[k].positions,
                    repo_name: search.candidates[found[k].candidate_id].repo_name,
                })
            &&& search.branches is None ==> results.len() == found.len()
        }),
{
    let rows = search_rows(search, found);
    let results = result_rows(search, found);
    let name = query_name(search.query);
    let created = seq![
        EntryView::CreateNamed {
            name,
            from_branch: search.from_branch,
            disabled_reason: search.disabled_reason,
        },
        EntryView::CreateNewBranch { name },
    ];
    let empty: Seq<EntryView> = seq![];
    assert(results + empty =~= results);
    assert(create_rows(search) =~= created);
}

/// The places of the branches that a search offers.
pub open spec fn offered(search: SearchView) -> Seq<int> {
    best_positions(
        lowered_names(search.branches->0),
        lowercase(search.query),
        MAX_BRANCH_ROWS as nat,
    )
}

/// Behind the worktrees that it found, a search offers the branches at the best
/// places, under their names.
pub proof fn search_offers_branches_behind_worktrees(
    search: SearchView,
    found: Seq<FuzzyMatchView>,
    k: int,
)
    requires
        search.branches is Some,
    ensures
        result_rows(search, found).len() == found.len() + offered(search).len(),
        0 <= k < offered(search).len() ==> result_rows(search, found)[found.len() + k] == (
        EntryView::CreateFromExistingBranch {
            branch_name: (search.branches->0)[offered(search)[k]].name,
        }),
        MAX_BRANCH_ROWS == 5,
        lowered_names(search.branches->0).len() == (search.branches->0).len(),
        forall|i: int|
            0 <= i < (search.branches->0).len() ==> #[trigger] lowered_names(search.branches->0)[i]
                == lowercase((search.branches->0)[i].name),
{
}

/// Whether a name is the query.
pub open spec fn is_exact(name: Seq<char>, query: Seq<char>) -> bool {
    name == query
}

/// Whether a name is the query and something more.
pub open spec fn is_start(name: Seq<char>, query: Seq<char>) -> bool {
    exists|rest: Seq<char>| name == #[trigger] (query + rest)
}

/// Whether the query stands in a name.
pub open spec fn is_inside(name: Seq<char>, query: Seq<char>) -> bool {
    exists|x: Seq<char>, y: Seq<char>| name == #[trigger] (x + query + y)
}

/// Whether one name is to be offered before another: the query itself, then
/// names that begin with it, then the others; among equals as in the list.
pub open spec fn comes_first(names: Seq<Seq<char>>, query: Seq<char>, i: int, j: int) -> bool {
    if is_exact(names[i], query) != is_exact(names[j], query) {
        is_exact(names[i], query)
    } else if is_start(names[i], query) != is_start(names[j], query) {
        is_start(names[i], query)
    } else {
        i < j
    }
}

proof fn lemma_rank(name: Seq<char>, query: Seq<char>)
    ensures
        branch_rank(name, query) == if is_exact(name, query) {
            BranchRank::Exact
        } else if is_start(name, query) {
            BranchRank::Prefix
        } else if is_inside(name, query) {
            BranchRank::Inner
        } else {
            BranchRank::NoMatch
        },
        is_exact(name, query) ==> is_start(name, query),
        is_start(name, query) ==> is_inside(name, query),
{
    prefix_is_the_beginning(name, query);
    split_is_at_the_first_place(name, query);
    let empty: Seq<char> = seq![];
    if is_exact(name, query) {
        assert(name =~= query + empty);
    }
    if is_start(name, query) {
        let rest = choose|rest: Seq<char>| name == #[trigger] (query + rest);
        assert(name =~= empty + query + rest);
    }
}

proof fn lemma_filtered_places(names: Seq<Seq<char>>, query: Seq<char>, rank: BranchRank)
    ensures
        ({
            let at = positions_of_rank(names, query, rank);
            &&& forall|i: int, j: int|
                #![trigger at[i], at[j]]
                0 <= i < j < at.len() ==> at[i] < at[j]
            &&& forall|k: int|
                #![trigger at[k]]
                0 <= k < at.len() ==> 0 <= at[k] < names.len() && branch_rank(names[at[k]], query)
                    == rank
            &&& forall|i: int|
                0 <= i < names.len() && branch_rank(#[trigger] names[i], query) == rank
                    ==> at.contains(i)
        }),
{
    let all = Seq::new(names.len(), |i: int| i);
    let keep = |i: int| branch_rank(names[i], query) == rank;
    assert(all.take(all.len() as int) =~= all);
    lemma_filtered_numbers(names, query, rank, all.len() as int);
    let at = positions_of_rank(names, query, rank);
    assert forall|i: int|
        0 <= i < names.len() && branch_rank(#[trigger] names[i], query) == rank implies at.contains(
        i,
    ) by {
        assert(all[i] == i);
        all.lemma_filter_contains(keep, i);
    }
}

proof fn lemma_filtered_numbers(
    names: Seq<Seq<char>>,
    query: Seq<char>,
    rank: BranchRank,
    count: int,
)
    requires
        0 <= count <= names.len(),
    ensures
        ({
            let all = Seq::new(names.len(), |i: int| i);
            let at = all.take(count).filter(|i: int| branch_rank(names[i], query) == rank);
            &&& forall|i: int, j: int|
                #![trigger at[i], at[j]]
                0 <= i < j < at.len() ==> at[i] < at[j]
            &&& forall|k: int|
                #![trigger at[k]]
                0 <= k < at.len() ==> 0 <= at[k] < count && branch_rank(names[at[k]], query)
                    == rank
        }),
    decreases count,
{
    let all = Seq::new(names.len(), |i: int| i);
    let keep = |i: int| branch_rank(names[i], query) == rank;
    reveal(Seq::filter);
    if count > 0 {
        lemma_filtered_numbers(names, query, rank, count - 1);
        lemma_filter_step(all, count - 1, keep);
    }
}

/// The branches that are offered each have the query in their name and come in
/// order: the query itself, then names that begin with it, then the others,
/// among equals as in the list.
pub proof fn offered_branches_come_in_order(names: Seq<Seq<char>>, query: Seq<char>, limit: nat)
    ensures
        ({
            let at = best_positions(names, query, limit);
            &&& at.len() <= limit
            &&& forall|k: int|
                #![trigger at[k]]
                0 <= k < at.len() ==> 0 <= at[k] < names.len() && is_inside(names[at[k]], query)
            &&& forall|j: int, k: int|
                #![trigger at[j], at[k]]
                0 <= j < k < at.len() ==> comes_first(names, query, at[j], at[k])
        }),
{
    let exact = positions_of_rank(names, query, BranchRank::Exact);
    let prefix = positions_of_rank(names, query, BranchRank::Prefix);
    let inner = positions_of_rank(names, query, BranchRank::Inner);
    lemma_filtered_places(names, query, BranchRank::Exact);
    lemma_filtered_places(names, query, BranchRank::Prefix);
    lemma_filtered_places(names, query, BranchRank::Inner);
    let all = exact + prefix + inner;
    let at = best_positions(names, query, limit);
    assert forall|k: int|
        #![trigger at[k]]
        0 <= k < at.len() implies 0 <= at[k] < names.len() && is_inside(names[at[k]], query) by {
        assert(at[k] == all[k]);
        lemma_place(exact, prefix, inner, k);
        lemma_rank(names[at[k]], query);
    }
    assert forall|j: int, k: int|
        #![trigger at[j], at[k]]
        0 <= j < k < at.len() implies comes_first(names, query, at[j], at[k]) by {
        assert(at[j] == all[j] && at[k] == all[k]);
        lemma_place(exact, prefix, inner, j);
        lemma_place(exact, prefix, inner, k);
        lemma_rank(names[at[j]], query);
        lemma_rank(names[at[k]], query);
    }
}

proof fn lemma_place(a: Seq<int>, b: Seq<int>, c: Seq<int>, k: int)
    requires
        0 <= k < (a + b + c).len(),
    ensures
        (a + b + c)[k] == if k < a.len() {
            a[k]
        } else if k < a.len() + b.len() {
            b[k - a.len()]
        } else {
            c[k - a.len() - b.len()]
        },
{
}

/// A branch that has the query in its name is left out only where as many as
/// may be are offered, each of which comes before it.
pub proof fn branches_are_left_out_for_better_ones(
    names: Seq<Seq<char>>,
    query: Seq<char>,
    limit: nat,
    i: int,
)
    requires
        0 <= i < names.len(),
        is_inside(names[i], query),
    ensures
        ({
            let at = best_positions(names, query, limit);
            at.contains(i) || {
                &&& at.len() == limit
                &&& forall|k: int|
                    #![trigger at[k]]
                    0 <= k < at.len() ==> comes_first(names, query, at[k], i)
            }
        }),
{
    let exact = positions_of_rank(names, query, BranchRank::Exact);
    let prefix = positions_of_rank(names, query, BranchRank::Prefix);
    let inner = positions_of_rank(names, query, BranchRank::Inner);
    lemma_filtered_places(names, query, BranchRank::Exact);
    lemma_filtered_places(names, query, BranchRank::Prefix);
    lemma_filtered_places(names, query, BranchRank::Inner);
    let all = exact + prefix + inner;
    let at = best_positions(names, query, limit);
    lemma_rank(names[i], query);
    let rank = branch_rank(names[i], query);
    let own = positions_of_rank(names, query, rank);
    assert(own.contains(i));
    let p = choose|p: int| 0 <= p < own.len() && own[p] == i;
    let m: int = match rank {
        BranchRank::Exact => p,
        BranchRank::Prefix => exact.len() + p,
        _ => exact.len() + prefix.len() + p,
    };
    lemma_place(exact, prefix, inner, m);
    assert(all[m] == i);
    if m < at.len() {
        assert(at[m] == i);
    } else {
        assert forall|k: int|
            #![trigger at[k]]
            0 <= k < at.len() implies comes_first(names, query, at[k], i) by {
            assert(at[k] == all[k]);
            lemma_place(exact, prefix, inner, k);
            lemma_rank(names[at[k]], query);
        }
    }
}

/// A local branch that has the query in its name, in either case, is offered
/// unless five others are.
pub proof fn matching_local_branch_is_offered(
    picker: DelegateView,
    query: Seq<char>,
    names: NamesView,
    list: Seq<BranchView>,
    found: Seq<FuzzyMatchView>,
    i: int,
    rest: Seq<char>,
)
    requires
        picker.repository is Some,
        0 <= i < list.len(),
        list[i].ref_name == "refs/heads/"@ + rest,
        is_inside(lowercase(list[i].name), lowercase(query)),
    ensures
        ({
            let search = search_for(picker, query, names, list);
            let results = result_rows(search, found);
            ||| results.contains(
                EntryView::CreateFromExistingBranch { branch_name: list[i].name },
            )
            ||| results.len() == found.len() + 5
        }),
{
    let search = search_for(picker, query, names, list);
    let before = list.take(i);
    let after = list.skip(i + 1);
    assert(list =~= before + seq![list[i]] + after);
    every_local_branch_is_searched(picker, query, names, before, list[i], after, rest);
    let branches = search.branches->0;
    let place = searched_branches(picker, query, names, before).len() as int;
    assert(branches[place] == list[i]);
    let lowered = lowered_names(branches);
    branches_are_left_out_for_better_ones(
        lowered,
        lowercase(query),
        MAX_BRANCH_ROWS as nat,
        place,
    );
    if offered(search).contains(place) {
        let k = choose|k: int| 0 <= k < offered(search).len() && offered(search)[k] == place;
        search_offers_branches_behind_worktrees(search, found, k);
        assert(result_rows(search, found)[found.len() + k] == (
        EntryView::CreateFromExistingBranch { branch_name: list[i].name }));
    } else {
        search_offers_branches_behind_worktrees(search, found, 0);
    }
}

/// Positions are the numbers that they are.
pub proof fn positions_are_their_numbers(v: Seq<usize>)
    ensures
        numbers(v).len() == v.len(),
        forall|i: int| 0 <= i < v.len() ==> #[trigger] numbers(v)[i] == v[i],
{
}

} // verus!
