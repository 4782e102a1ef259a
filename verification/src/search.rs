//! The rows of a query.

use vstd::prelude::*;

use crate::github_link::{github_link_branch, link_branch};
use crate::matches::{idle_rows, named, push_entry, DirectoryNames, NamesView};
use crate::model::{
    clone_positions, clone_remote_branch, clone_text, Branch, BranchView, CreateTargetView,
    EntryView, ExternalRepo, ExternalRepoView, GitWorktree, RemoteBranchName, RemoteBranchView,
    WorktreeCreateTarget, WorktreeEntry, WorktreeView,
};
use crate::naming::NamedView;
use crate::path::{PathView, RepoPath};
use crate::path_set::PathSet;
use crate::picker::{search_selection, DelegateView, WorktreePickerDelegate};
use crate::seqs::{
    first_where, lemma_filter_step, lemma_first_where, lemma_views_push, opt_view, views,
};
use crate::text;
use crate::text::{first_occurrence, has_prefix, lowercase, replaced, texts};

verus! {

broadcast use vstd::string::group_string_axioms;

/// A worktree that a query can find, by its label.
#[derive(Debug)]
pub struct Candidate {
    pub label: String,
    pub worktree: GitWorktree,
    /// The repository of a worktree that is not the project's.
    pub repo_name: Option<String>,
}

/// The value of a candidate.
#[verifier::ext_equal]
pub struct CandidateView {
    pub label: Seq<char>,
    pub worktree: WorktreeView,
    pub repo_name: Option<Seq<char>>,
}

impl View for Candidate {
    type V = CandidateView;

    open spec fn view(&self) -> CandidateView {
        CandidateView {
            label: self.label@,
            worktree: self.worktree@,
            repo_name: opt_view(self.repo_name),
        }
    }
}

/// A search that waits for the candidates that its query finds.
#[derive(Debug)]
pub struct PendingSearch {
    pub query: String,
    pub candidates: Vec<Candidate>,
    /// The local branches of the repository, where there is one.
    pub branches: Option<Vec<Branch>>,
    /// What a worktree of the query's name starts from, if not the current
    /// branch.
    pub from_branch: Option<RemoteBranchName>,
    /// Why no worktree of the query's name can be created.
    pub disabled_reason: Option<String>,
}

/// The value of a search.
#[verifier::ext_equal]
pub struct SearchView {
    pub query: Seq<char>,
    pub candidates: Seq<CandidateView>,
    pub branches: Option<Seq<BranchView>>,
    pub from_branch: Option<RemoteBranchView>,
    pub disabled_reason: Option<Seq<char>>,
}

impl View for PendingSearch {
    type V = SearchView;

    open spec fn view(&self) -> SearchView {
        SearchView {
            query: self.query@,
            candidates: views(self.candidates@),
            branches: match self.branches {
                Some(branches) => Some(views(branches@)),
                None => None,
            },
            from_branch: opt_view(self.from_branch),
            disabled_reason: opt_view(self.disabled_reason),
        }
    }
}

/// The name of a worktree or branch made from a query.
pub open spec fn query_name(query: Seq<char>) -> Seq<char> {
    replaced(query, ' ', '-')
}

/// Why no worktree of a name can be created.
pub open spec fn named_disabled_reason(
    has_multiple_repositories: bool,
    names: Seq<Seq<char>>,
    name: Seq<char>,
) -> Option<Seq<char>> {
    if has_multiple_repositories {
        Some("Cannot create a named worktree in a project with multiple repositories"@)
    } else if names.contains(name) {
        Some("A worktree with this name already exists"@)
    } else {
        None
    }
}

/// The candidates of the repository.
pub open spec fn own_candidates(all: Seq<NamedView>) -> Seq<CandidateView> {
    all.map_values(
        |x: NamedView| CandidateView { label: x.name, worktree: x.worktree, repo_name: None },
    )
}

/// The candidates of a repository near the project: its worktrees that are not
/// open, labelled with its name and theirs.
pub open spec fn repo_candidates(
    repo: ExternalRepoView,
    names: Seq<Seq<char>>,
    open: Set<PathView>,
) -> Seq<CandidateView> {
    named(repo.worktrees, names).filter(
        |x: NamedView| !open.contains(x.worktree.path),
    ).map_values(
        |x: NamedView|
            CandidateView {
                label: repo.name.push('/') + x.name,
                worktree: x.worktree,
                repo_name: Some(repo.name),
            },
    )
}

/// The candidates of the repositories near the project.
pub open spec fn external_candidates(
    repos: Seq<ExternalRepoView>,
    names: Seq<Seq<Seq<char>>>,
    open: Set<PathView>,
) -> Seq<CandidateView>
    decreases repos.len(),
{
    if repos.len() == 0 {
        seq![]
    } else {
        external_candidates(repos.drop_last(), names, open) + repo_candidates(
            repos.last(),
            names[repos.len() - 1],
            open,
        )
    }
}

/// Whether a branch is a local branch.
pub open spec fn is_local_branch(branch: BranchView) -> bool {
    has_prefix(branch.ref_name, "refs/heads/"@)
}

/// The search for a query.
pub open spec fn search_for(
    picker: DelegateView,
    query: Seq<char>,
    names: NamesView,
    branch_list: Seq<BranchView>,
) -> SearchView {
    SearchView {
        query,
        candidates: own_candidates(named(picker.all_worktrees, names.worktrees))
            + external_candidates(
            picker.external_repos,
            names.external,
            picker.project_worktree_paths,
        ),
        branches: if picker.repository is Some {
            Some(branch_list.filter(|branch: BranchView| is_local_branch(branch)))
        } else {
            None
        },
        from_branch: if picker.has_multiple_repositories {
            None
        } else {
            picker.default_branch
        },
        disabled_reason: named_disabled_reason(
            picker.has_multiple_repositories,
            names.worktrees,
            query_name(query),
        ),
    }
}

/// The path of the first worktree that has a branch checked out.
pub open spec fn worktree_on_branch(all: Seq<WorktreeView>, branch: Seq<char>) -> Option<PathView> {
    match first_where(all, |worktree: WorktreeView| worktree.branch_name == Some(branch)) {
        Some(i) => Some(all[i].path),
        None => None,
    }
}

/// The row that a link to a branch shows.
pub open spec fn link_row(all: Seq<WorktreeView>, branch: Seq<char>) -> EntryView {
    EntryView::CreateFromGitHubLink { branch, existing_path: worktree_on_branch(all, branch) }
}

impl DelegateView {
    /// The state once the rows of a query that needs no search are shown.
    pub open spec fn shows(
        self,
        query: Seq<char>,
        targets: Seq<CreateTargetView>,
        names: NamesView,
    ) -> DelegateView {
        if query.len() == 0 {
            DelegateView { matches: idle_rows(self, targets, names), ..self }
        } else {
            match link_branch(query) {
                Some(branch) => DelegateView {
                    matches: seq![link_row(self.all_worktrees, branch)],
                    selected_index: 0,
                    ..self
                },
                None => self,
            }
        }
    }

    /// The search that a query needs.
    pub open spec fn searches(
        self,
        query: Seq<char>,
        names: NamesView,
        branch_list: Seq<BranchView>,
    ) -> Option<SearchView> {
        if query.len() == 0 || link_branch(query) is Some {
            None
        } else {
            Some(search_for(self, query, names, branch_list))
        }
    }
}

fn push_own_candidates(all: &Vec<GitWorktree>, names: &Vec<String>) -> (r: Vec<Candidate>)
    requires
        names@.len() == all@.len(),
    ensures
        views(r@) == own_candidates(named(views(all@), texts(names@))),
{
    let mut r: Vec<Candidate> = Vec::new();
    let ghost list = own_candidates(named(views(all@), texts(names@)));
    let mut i: usize = 0;
    assert(views(r@) =~= list.take(0));
    while i < all.len()
        invariant
            i <= all@.len() == names@.len(),
            list == own_candidates(named(views(all@), texts(names@))),
            views(r@) == list.take(i as int),
        decreases all@.len() - i,
    {
        let candidate = Candidate {
            label: names[i].clone(),
            worktree: all[i].clone(),
            repo_name: None,
        };
        proof {
            lemma_views_push(r@, candidate);
            assert(candidate@ == list[i as int]);
            assert(list.take(i + 1) =~= list.take(i as int).push(candidate@));
        }
        r.push(candidate);
        i += 1;
    }
    assert(list.take(list.len() as int) =~= list);
    r
}

fn push_repo_candidates(
    candidates: &mut Vec<Candidate>,
    repo: &ExternalRepo,
    names: &Vec<String>,
    open: &PathSet,
)
    requires
        names@.len() == repo.worktrees@.len(),
    ensures
        views(final(candidates)@) == views(old(candidates)@) + repo_candidates(
            repo@,
            texts(names@),
            open@,
        ),
{
    let ghost before = views(candidates@);
    let ghost list = named(repo@.worktrees, texts(names@));
    let ghost keep = |x: NamedView| !open@.contains(x.worktree.path);
    let ghost label = |x: NamedView|
        CandidateView {
            label: repo@.name.push('/') + x.name,
            worktree: x.worktree,
            repo_name: Some(repo@.name),
        };
    let mut i: usize = 0;
    proof {
        reveal(Seq::filter);
        assert(list.take(0).filter(keep) =~= seq![]);
        assert(views(candidates@) =~= before + list.take(0).filter(keep).map_values(label));
    }
    while i < repo.worktrees.len()
        invariant
            i <= repo.worktrees@.len() == names@.len(),
            list == named(repo@.worktrees, texts(names@)),
            keep == (|x: NamedView| !open@.contains(x.worktree.path)),
            label == (|x: NamedView|
                CandidateView {
                    label: repo@.name.push('/') + x.name,
                    worktree: x.worktree,
                    repo_name: Some(repo@.name),
                }),
            views(candidates@) == before + list.take(i as int).filter(keep).map_values(label),
        decreases repo.worktrees@.len() - i,
    {
        let ghost kept = list.take(i as int).filter(keep);
        proof {
            lemma_filter_step(list, i as int, keep);
        }
        if !open.contains(&repo.worktrees[i].path) {
            let mut text = repo.name.clone();
            text.push('/');
            text.append(names[i].as_str());
            let candidate = Candidate {
                label: text,
                worktree: repo.worktrees[i].clone(),
                repo_name: Some(repo.name.clone()),
            };
            proof {
                lemma_views_push(candidates@, candidate);
                assert(candidate@ == label(list[i as int]));
                assert(before + kept.push(list[i as int]).map_values(label) =~= (before
                    + kept.map_values(label)).push(candidate@));
            }
            candidates.push(candidate);
        }
        i += 1;
    }
    assert(list.take(list.len() as int) =~= list);
}

fn push_external_candidates(
    candidates: &mut Vec<Candidate>,
    repos: &Vec<ExternalRepo>,
    names: &Vec<Vec<String>>,
    open: &PathSet,
)
    requires
        names@.len() == repos@.len(),
        forall|i: int|
            0 <= i < names@.len() ==> (#[trigger] names@[i])@.len() == repos@[i].worktrees@.len(),
    ensures
        views(final(candidates)@) == views(old(candidates)@) + external_candidates(
            views(repos@),
            names@.map_values(|names: Vec<String>| texts(names@)),
            open@,
        ),
{
    let ghost before = views(candidates@);
    let ghost all = views(repos@);
    let ghost all_names = names@.map_values(|names: Vec<String>| texts(names@));
    let mut i: usize = 0;
    assert(views(candidates@) =~= before + external_candidates(all.take(0), all_names, open@));
    while i < repos.len()
        invariant
            i <= repos@.len() == names@.len(),
            forall|i: int|
                0 <= i < names@.len() ==> (#[trigger] names@[i])@.len()
                    == repos@[i].worktrees@.len(),
            all == views(repos@),
            all_names == names@.map_values(|names: Vec<String>| texts(names@)),
            views(candidates@) == before + external_candidates(
                all.take(i as int),
                all_names,
                open@,
            ),
        decreases repos@.len() - i,
    {
        push_repo_candidates(candidates, &repos[i], &names[i], open);
        assert(all.take(i + 1).drop_last() =~= all.take(i as int));
        assert(all_names[i as int] == texts(names@[i as int]@));
        i += 1;
        assert(views(candidates@) =~= before + external_candidates(
            all.take(i as int),
            all_names,
            open@,
        ));
    }
    assert(all.take(all.len() as int) =~= all);
}

fn local_branches(list: &Vec<Branch>) -> (r: Vec<Branch>)
    ensures
        views(r@) == views(list@).filter(|branch: BranchView| is_local_branch(branch)),
{
    let mut r: Vec<Branch> = Vec::new();
    let ghost all = views(list@);
    let ghost keep = |branch: BranchView| is_local_branch(branch);
    let mut i: usize = 0;
    proof {
        reveal(Seq::filter);
        assert(all.take(0).filter(keep) =~= seq![]);
        assert(views(r@) =~= seq![]);
    }
    while i < list.len()
        invariant
            i <= list@.len(),
            all == views(list@),
            keep == (|branch: BranchView| is_local_branch(branch)),
            views(r@) == all.take(i as int).filter(keep),
        decreases list@.len() - i,
    {
        proof {
            lemma_filter_step(all, i as int, keep);
        }
        if text::starts_with(list[i].ref_name.as_str(), "refs/heads/") {
            let branch = list[i].clone();
            proof {
                lemma_views_push(r@, branch);
            }
            r.push(branch);
        }
        i += 1;
    }
    assert(all.take(all.len() as int) =~= all);
    r
}

fn contains_text(list: &Vec<String>, text: &String) -> (r: bool)
    ensures
        r == texts(list@).contains(text@),
{
    let mut i: usize = 0;
    while i < list.len()
        invariant
            i <= list@.len(),
            forall|j: int| 0 <= j < i ==> texts(list@)[j] != text@,
        decreases list@.len() - i,
    {
        if list[i] == *text {
            assert(texts(list@)[i as int] == text@);
            return true;
        }
        i += 1;
    }
    false
}

fn existing_worktree(all: &Vec<GitWorktree>, branch: &String) -> (r: Option<RepoPath>)
    ensures
        opt_view(r) == worktree_on_branch(views(all@), branch@),
{
    let ghost vs = views(all@);
    proof {
        lemma_first_where(vs, |worktree: WorktreeView| worktree.branch_name == Some(branch@));
    }
    let mut i: usize = 0;
    #[verifier::loop_isolation(false)]
    while i < all.len()
        invariant
            i <= all@.len(),
            forall|j: int| 0 <= j < i ==> (#[trigger] vs[j]).branch_name != Some(branch@),
        decreases all@.len() - i,
    {
        assert(vs[i as int] == all@[i as int]@);
        if let Some(name) = &all[i].branch_name {
            if *name == *branch {
                return Some(all[i].path.clone());
            }
        }
        i += 1;
    }
    None
}

impl WorktreePickerDelegate {
    fn search(&self, query: &str, names: &DirectoryNames, branch_list: &Vec<Branch>) -> (r:
        PendingSearch)
        requires
            names@.fit(self@),
        ensures
            r@ == search_for(self@, query@, names@, views(branch_list@)),
    {
        let mut candidates = push_own_candidates(&self.all_worktrees, &names.worktrees);
        assert forall|i: int| 0 <= i < names.external@.len() implies (
        #[trigger] names.external@[i])@.len() == self.external_repos@[i].worktrees@.len() by {
            assert(names@.external[i].len() == self@.external_repos[i].worktrees.len());
        }
        push_external_candidates(
            &mut candidates,
            &self.external_repos,
            &names.external,
            &self.project_worktree_paths,
        );
        let name = text::replace(query, ' ', '-');
        let disabled_reason = if self.has_multiple_repositories {
            Some(
                "Cannot create a named worktree in a project with multiple repositories".to_owned(),
            )
        } else if contains_text(&names.worktrees, &name) {
            Some("A worktree with this name already exists".to_owned())
        } else {
            None
        };
        PendingSearch {
            query: query.to_owned(),
            candidates,
            branches: if self.repository.is_some() {
                Some(local_branches(branch_list))
            } else {
                None
            },
            from_branch: if self.has_multiple_repositories {
                None
            } else {
                clone_remote_branch(&self.default_branch)
            },
            disabled_reason,
        }
    }

    /// Shows the rows of a query. Without a query these are the targets, the
    /// worktrees of the repository and those of the repositories near the
    /// project. A link to a branch shows that branch alone. Any other query
    /// gives a search, whose rows `apply_search` shows.
    pub fn update_matches(
        &mut self,
        query: &str,
        targets: &Vec<WorktreeCreateTarget>,
        names: &DirectoryNames,
        branch_list: &Vec<Branch>,
    ) -> (r: Option<PendingSearch>)
        requires
            names@.fit(old(self)@),
        ensures
            final(self)@ == old(self)@.shows(query@, views(targets@), names@),
            opt_view(r) == old(self)@.searches(query@, names@, views(branch_list@)),
    {
        if query.is_empty() {
            self.matches = self.idle_entries(targets, names);
            self.sync_selected_index(false);
            return None;
        }
        match github_link_branch(query) {
            Some(branch) => {
                let existing_path = existing_worktree(&self.all_worktrees, &branch);
                let mut matches: Vec<WorktreeEntry> = Vec::new();
                let entry = WorktreeEntry::CreateFromGitHubLink { branch, existing_path };
                let ghost row = entry@;
                assert(views(matches@) =~= seq![]);
                push_entry(&mut matches, entry);
                assert(views(matches@) =~= seq![row]);
                self.matches = matches;
                proof {
                    lemma_first_where(seq![row], |entry: EntryView| entry is Worktree);
                    lemma_first_where(seq![row], |entry: EntryView| entry is CreateNamed);
                }
                self.sync_selected_index(true);
                None
            },
            None => Some(self.search(query, names, branch_list)),
        }
    }
}

/// A candidate that a query found.
#[derive(Debug)]
pub struct FuzzyMatch {
    /// The place of the candidate among the candidates of the search.
    pub candidate_id: usize,
    /// The byte positions of its label that the query matched.
    pub positions: Vec<usize>,
}

/// The value of a candidate that a query found.
#[verifier::ext_equal]
pub struct FuzzyMatchView {
    pub candidate_id: int,
    pub positions: Seq<usize>,
}

impl View for FuzzyMatch {
    type V = FuzzyMatchView;

    open spec fn view(&self) -> FuzzyMatchView {
        FuzzyMatchView { candidate_id: self.candidate_id as int, positions: self.positions@ }
    }
}

/// How well a branch name meets a query, both in lower case.
pub enum BranchRank {
    /// It is the query.
    Exact,
    /// It begins with the query.
    Prefix,
    /// The query occurs further on.
    Inner,
    /// The query does not occur.
    NoMatch,
}

/// How well a branch name meets a query, both in lower case.
pub open spec fn branch_rank(name: Seq<char>, query: Seq<char>) -> BranchRank {
    if name == query {
        BranchRank::Exact
    } else if has_prefix(name, query) {
        BranchRank::Prefix
    } else if first_occurrence(name, query) is Some {
        BranchRank::Inner
    } else {
        BranchRank::NoMatch
    }
}

/// The positions of a list of names whose rank is the given one, in order.
pub open spec fn positions_of_rank(
    names: Seq<Seq<char>>,
    query: Seq<char>,
    rank: BranchRank,
) -> Seq<int> {
    Seq::new(names.len(), |i: int| i).filter(|i: int| branch_rank(names[i], query) == rank)
}

/// The positions of the names that a query meets, the best first, at most
/// `limit` of them.
pub open spec fn best_positions(
    names: Seq<Seq<char>>,
    query: Seq<char>,
    limit: nat,
) -> Seq<int> {
    let all = positions_of_rank(names, query, BranchRank::Exact) + positions_of_rank(
        names,
        query,
        BranchRank::Prefix,
    ) + positions_of_rank(names, query, BranchRank::Inner);
    if all.len() <= limit {
        all
    } else {
        all.take(limit as int)
    }
}

/// The numbers of a list.
pub open spec fn numbers(v: Seq<usize>) -> Seq<int> {
    v.map_values(|i: usize| i as int)
}

fn rank_of(name: &str, query: &str) -> (r: BranchRank)
    ensures
        r == branch_rank(name@, query@),
{
    if text::same_text(name, query) {
        BranchRank::Exact
    } else if text::starts_with(name, query) {
        BranchRank::Prefix
    } else if text::contains(name, query) {
        BranchRank::Inner
    } else {
        BranchRank::NoMatch
    }
}

fn is_rank(a: &BranchRank, b: &BranchRank) -> (r: bool)
    ensures
        r == (*a == *b),
{
    match (a, b) {
        (BranchRank::Exact, BranchRank::Exact) => true,
        (BranchRank::Prefix, BranchRank::Prefix) => true,
        (BranchRank::Inner, BranchRank::Inner) => true,
        (BranchRank::NoMatch, BranchRank::NoMatch) => true,
        _ => false,
    }
}

fn push_positions(list: &mut Vec<usize>, names: &Vec<String>, query: &str, rank: BranchRank)
    ensures
        numbers(final(list)@) == numbers(old(list)@) + positions_of_rank(
            texts(names@),
            query@,
            rank,
        ),
{
    let ghost before = numbers(list@);
    let ghost all = Seq::new(names@.len(), |i: int| i);
    let ghost keep = |i: int| branch_rank(texts(names@)[i], query@) == rank;
    let mut i: usize = 0;
    proof {
        reveal(Seq::filter);
        assert(all.take(0).filter(keep) =~= seq![]);
        assert(numbers(list@) =~= before + all.take(0).filter(keep));
    }
    while i < names.len()
        invariant
            i <= names@.len(),
            all == Seq::new(names@.len(), |i: int| i),
            keep == (|i: int| branch_rank(texts(names@)[i], query@) == rank),
            numbers(list@) == before + all.take(i as int).filter(keep),
        decreases names@.len() - i,
    {
        let ghost kept = all.take(i as int).filter(keep);
        proof {
            lemma_filter_step(all, i as int, keep);
        }
        if is_rank(&rank_of(names[i].as_str(), query), &rank) {
            assert(numbers(list@.push(i)) =~= numbers(list@).push(i as int));
            assert(before + kept.push(i as int) =~= (before + kept).push(i as int));
            list.push(i);
        }
        i += 1;
    }
    assert(all.take(all.len() as int) =~= all);
}

/// The positions of the names that a query meets, both in lower case: the
/// query itself first, then the names that begin with it, then the others, at
/// most `limit` in all and otherwise in the order of the list.
pub fn rank_branches(names: &Vec<String>, query: &str, limit: usize) -> (r: Vec<usize>)
    ensures
        numbers(r@) == best_positions(texts(names@), query@, limit as nat),
{
    let mut r: Vec<usize> = Vec::new();
    assert(numbers(r@) =~= seq![]);
    push_positions(&mut r, names, query, BranchRank::Exact);
    push_positions(&mut r, names, query, BranchRank::Prefix);
    push_positions(&mut r, names, query, BranchRank::Inner);
    let ghost all = numbers(r@);
    assert(all =~= positions_of_rank(texts(names@), query@, BranchRank::Exact) + positions_of_rank(
        texts(names@),
        query@,
        BranchRank::Prefix,
    ) + positions_of_rank(texts(names@), query@, BranchRank::Inner));
    r.truncate(limit);
    proof {
        if all.len() > limit {
            assert(numbers(r@) =~= all.take(limit as int));
        }
    }
    r
}

/// The most branches that a search shows.
pub const MAX_BRANCH_ROWS: usize = 5;

/// The rows of the candidates that a search found.
pub open spec fn found_rows(
    candidates: Seq<CandidateView>,
    found: Seq<FuzzyMatchView>,
) -> Seq<EntryView> {
    found.map_values(
        |m: FuzzyMatchView|
            EntryView::Worktree {
                worktree: candidates[m.candidate_id].worktree,
                positions: m.positions,
                repo_name: candidates[m.candidate_id].repo_name,
            },
    )
}

/// The names of branches in lower case.
pub open spec fn lowered_names(branches: Seq<BranchView>) -> Seq<Seq<char>> {
    branches.map_values(|branch: BranchView| lowercase(branch.name))
}

/// The rows of the branches at some positions of a list.
pub open spec fn branch_rows(branches: Seq<BranchView>, at: Seq<int>) -> Seq<EntryView> {
    at.map_values(
        |i: int| EntryView::CreateFromExistingBranch { branch_name: branches[i].name },
    )
}

/// The rows of what a search found: worktrees, then branches.
pub open spec fn result_rows(
    search: SearchView,
    found: Seq<FuzzyMatchView>,
) -> Seq<EntryView> {
    found_rows(search.candidates, found) + match search.branches {
        Some(branches) => branch_rows(
            branches,
            best_positions(
                lowered_names(branches),
                lowercase(search.query),
                MAX_BRANCH_ROWS as nat,
            ),
        ),
        None => seq![],
    }
}

/// The rows that create a worktree of the query's name, and a branch of it.
pub open spec fn create_rows(search: SearchView) -> Seq<EntryView> {
    seq![
        EntryView::CreateNamed {
            name: query_name(search.query),
            from_branch: search.from_branch,
            disabled_reason: search.disabled_reason,
        },
        EntryView::CreateNewBranch { name: query_name(search.query) },
    ]
}

/// The rows of a search: what it found, set apart in a repository, then what it
/// can create.
pub open spec fn search_rows(search: SearchView, found: Seq<FuzzyMatchView>) -> Seq<EntryView> {
    let results = result_rows(search, found);
    results + (if search.branches is Some && results.len() > 0 {
        seq![EntryView::Separator]
    } else {
        seq![]
    }) + create_rows(search)
}

/// Whether matches speak of candidates that there are.
pub open spec fn are_candidates(found: Seq<FuzzyMatchView>, count: nat) -> bool {
    forall|i: int| 0 <= i < found.len() ==> (#[trigger] found[i]).candidate_id < count
}

fn push_found(matches: &mut Vec<WorktreeEntry>, candidates: &Vec<Candidate>, found: &Vec<FuzzyMatch>)
    requires
        are_candidates(views(found@), candidates@.len()),
    ensures
        views(final(matches)@) == views(old(matches)@) + found_rows(
            views(candidates@),
            views(found@),
        ),
{
    let ghost before = views(matches@);
    let ghost rows = found_rows(views(candidates@), views(found@));
    let mut i: usize = 0;
    assert(views(matches@) =~= before + rows.take(0));
    while i < found.len()
        invariant
            i <= found@.len(),
            are_candidates(views(found@), candidates@.len()),
            rows == found_rows(views(candidates@), views(found@)),
            views(matches@) == before + rows.take(i as int),
        decreases found@.len() - i,
    {
        assert(views(found@)[i as int].candidate_id < candidates@.len());
        let candidate = &candidates[found[i].candidate_id];
        let entry = WorktreeEntry::Worktree {
            worktree: candidate.worktree.clone(),
            positions: clone_positions(&found[i].positions),
            repo_name: clone_text(&candidate.repo_name),
        };
        assert(entry@ == rows[i as int]);
        push_entry(matches, entry);
        i += 1;
        assert(views(matches@) =~= before + rows.take(i as int));
    }
    assert(rows.take(rows.len() as int) =~= rows);
}

fn lower_names(branches: &Vec<Branch>) -> (r: Vec<String>)
    ensures
        texts(r@) == lowered_names(views(branches@)),
{
    let mut r: Vec<String> = Vec::new();
    let ghost all = lowered_names(views(branches@));
    let mut i: usize = 0;
    assert(texts(r@) =~= all.take(0));
    while i < branches.len()
        invariant
            i <= branches@.len(),
            all == lowered_names(views(branches@)),
            texts(r@) == all.take(i as int),
        decreases branches@.len() - i,
    {
        let name = text::to_lowercase(branches[i].name.as_str());
        assert(texts(r@.push(name)) =~= texts(r@).push(name@));
        r.push(name);
        i += 1;
        assert(texts(r@) =~= all.take(i as int));
    }
    assert(all.take(all.len() as int) =~= all);
    r
}

proof fn lemma_best_positions_in_range(names: Seq<Seq<char>>, query: Seq<char>, limit: nat)
    ensures
        forall|k: int|
            0 <= k < best_positions(names, query, limit).len() ==> 0 <= #[trigger] best_positions(
                names,
                query,
                limit,
            )[k] < names.len(),
{
    lemma_positions_in_range(names, query, BranchRank::Exact);
    lemma_positions_in_range(names, query, BranchRank::Prefix);
    lemma_positions_in_range(names, query, BranchRank::Inner);
}

proof fn lemma_positions_in_range(names: Seq<Seq<char>>, query: Seq<char>, rank: BranchRank)
    ensures
        forall|k: int|
            0 <= k < positions_of_rank(names, query, rank).len() ==> 0
                <= #[trigger] positions_of_rank(names, query, rank)[k] < names.len(),
{
    let all = Seq::new(names.len(), |i: int| i);
    let keep = |i: int| branch_rank(names[i], query) == rank;
    let r = positions_of_rank(names, query, rank);
    assert forall|k: int| 0 <= k < r.len() implies 0 <= #[trigger] r[k] < names.len() by {
        all.lemma_filter_contains_rev(keep, r[k]);
    }
}

fn push_branches(matches: &mut Vec<WorktreeEntry>, branches: &Vec<Branch>, at: &Vec<usize>)
    requires
        forall|k: int| 0 <= k < at@.len() ==> (#[trigger] at@[k]) < branches@.len(),
    ensures
        views(final(matches)@) == views(old(matches)@) + branch_rows(
            views(branches@),
            numbers(at@),
        ),
{
    let ghost before = views(matches@);
    let ghost rows = branch_rows(views(branches@), numbers(at@));
    let mut i: usize = 0;
    assert(views(matches@) =~= before + rows.take(0));
    while i < at.len()
        invariant
            i <= at@.len(),
            forall|k: int| 0 <= k < at@.len() ==> (#[trigger] at@[k]) < branches@.len(),
            rows == branch_rows(views(branches@), numbers(at@)),
            views(matches@) == before + rows.take(i as int),
        decreases at@.len() - i,
    {
        let entry = WorktreeEntry::CreateFromExistingBranch {
            branch_name: branches[at[i]].name.clone(),
        };
        assert(entry@ == rows[i as int]);
        push_entry(matches, entry);
        i += 1;
        assert(views(matches@) =~= before + rows.take(i as int));
    }
    assert(rows.take(rows.len() as int) =~= rows);
}

impl WorktreePickerDelegate {
    /// Shows the rows of a search, given the candidates that its query found,
    /// and selects the one that a search selects.
    pub fn apply_search(&mut self, search: &PendingSearch, found: &Vec<FuzzyMatch>)
        requires
            are_candidates(views(found@), search@.candidates.len()),
        ensures
            final(self)@ == (DelegateView {
                matches: search_rows(search@, views(found@)),
                selected_index: search_selection(search_rows(search@, views(found@))),
                ..old(self)@
            }),
    {
        let mut new_matches: Vec<WorktreeEntry> = Vec::new();
        assert(views(new_matches@) =~= seq![]);
        push_found(&mut new_matches, &search.candidates, found);
        assert(views(new_matches@) =~= found_rows(search@.candidates, views(found@)));
        match &search.branches {
            Some(branches) => {
                let names = lower_names(branches);
                let query = text::to_lowercase(search.query.as_str());
                let at = rank_branches(&names, query.as_str(), MAX_BRANCH_ROWS);
                proof {
                    lemma_best_positions_in_range(
                        texts(names@),
                        query@,
                        MAX_BRANCH_ROWS as nat,
                    );
                    assert forall|k: int| 0 <= k < at@.len() implies (#[trigger] at@[k])
                        < branches@.len() by {
                        assert(numbers(at@)[k] == at@[k]);
                    }
                }
                push_branches(&mut new_matches, branches, &at);
                assert(views(new_matches@) =~= result_rows(search@, views(found@)));
                if new_matches.len() > 0 {
                    push_entry(&mut new_matches, WorktreeEntry::Separator);
                }
            },
            None => {
                assert(views(new_matches@) =~= result_rows(search@, views(found@)));
            },
        }
        let name = text::replace(search.query.as_str(), ' ', '-');
        push_entry(
            &mut new_matches,
            WorktreeEntry::CreateNamed {
                name: name.clone(),
                from_branch: clone_remote_branch(&search.from_branch),
                disabled_reason: clone_text(&search.disabled_reason),
            },
        );
        push_entry(&mut new_matches, WorktreeEntry::CreateNewBranch { name });
        assert(views(new_matches@) =~= search_rows(search@, views(found@)));
        self.matches = new_matches;
        self.sync_selected_index(true);
    }
}

} // verus!
