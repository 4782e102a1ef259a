//! Discovers git repositories near the project — sibling directories of the
//! open repositories and of the project's worktrees, two levels deep — and
//! lists each repository's worktrees, so the picker can jump across
//! repositories without opening them first.

use vstd::prelude::*;

use crate::env_vault::{is_repo_dir, repository_dir, MetadataReply};
use crate::model::{
    checked_out, without_bare, ExternalRepo, ExternalRepoView, GitWorktree, WorktreeView,
};
use crate::path::{file_name_text_of, parent_of, PathView, RepoPath};
use crate::path_order::{insert_sorted, path_lt, paths, strictly_sorted, strictly_sorted_is_unique};
use crate::path_set::PathSet;
use crate::seqs::{lemma_filter_step, lemma_views_push, opt_view, views};

verus! {

/// The directories that hold a path of a set.
pub open spec fn parents(of: Set<PathView>) -> Set<PathView> {
    Set::new(|dir: PathView| exists|p: PathView| of.contains(p) && parent_of(p) == Some(dir))
}

/// The directories that hold a path of a list.
pub open spec fn parents_of_list(of: Seq<PathView>) -> Set<PathView>
    decreases of.len(),
{
    if of.len() == 0 {
        Set::empty()
    } else {
        match parent_of(of.last()) {
            Some(dir) => parents_of_list(of.drop_last()).insert(dir),
            None => parents_of_list(of.drop_last()),
        }
    }
}

proof fn lemma_parents_of_list(of: Seq<PathView>)
    ensures
        parents_of_list(of) == parents(of.to_set()),
    decreases of.len(),
{
    if of.len() > 0 {
        let init = of.drop_last();
        lemma_parents_of_list(init);
        assert forall|dir: PathView| parents_of_list(of).contains(dir) implies parents(
            of.to_set(),
        ).contains(dir) by {
            if parent_of(of.last()) == Some(dir) {
                assert(of.to_set().contains(of.last()));
            } else {
                let p = choose|p: PathView| init.to_set().contains(p) && parent_of(p) == Some(dir);
                let i = choose|i: int| 0 <= i < init.len() && init[i] == p;
                assert(of[i] == p);
                assert(of.to_set().contains(p));
            }
        }
        assert forall|dir: PathView| parents(of.to_set()).contains(dir) implies parents_of_list(
            of,
        ).contains(dir) by {
            let p = choose|p: PathView| of.to_set().contains(p) && parent_of(p) == Some(dir);
            let i = choose|i: int| 0 <= i < of.len() && of[i] == p;
            if i < init.len() {
                assert(init[i] == p);
                assert(init.to_set().contains(p));
            }
        }
    }
    assert(parents_of_list(of) =~= parents(of.to_set()));
}

fn add_parents(dirs: &mut PathSet, list: &Vec<RepoPath>)
    ensures
        final(dirs)@ == old(dirs)@.union(parents(paths(list@).to_set())),
{
    let ghost before = dirs@;
    let ghost all = paths(list@);
    let mut i: usize = 0;
    assert(dirs@ =~= before.union(parents_of_list(all.take(0))));
    while i < list.len()
        invariant
            i <= list@.len(),
            all == paths(list@),
            dirs@ == before.union(parents_of_list(all.take(i as int))),
        decreases list@.len() - i,
    {
        assert(all.take(i + 1).drop_last() =~= all.take(i as int));
        if let Some(dir) = list[i].parent() {
            dirs.insert(dir);
        }
        i += 1;
        assert(dirs@ =~= before.union(parents_of_list(all.take(i as int))));
    }
    proof {
        assert(all.take(all.len() as int) =~= all);
        lemma_parents_of_list(all);
    }
}

/// The directories to look for repositories in: those that hold a repository
/// or a worktree of the project.
pub fn scan_roots(project_repo_roots: &PathSet, project_worktree_paths: &PathSet) -> (r: PathSet)
    ensures
        r@ == parents(project_repo_roots@.union(project_worktree_paths@)),
{
    let mut dirs = PathSet::new();
    add_parents(&mut dirs, &project_repo_roots.to_vec());
    add_parents(&mut dirs, &project_worktree_paths.to_vec());
    proof {
        let both = project_repo_roots@.union(project_worktree_paths@);
        assert forall|dir: PathView| parents(both).contains(dir) implies dirs@.contains(dir) by {
            let p = choose|p: PathView| both.contains(p) && parent_of(p) == Some(dir);
            assert(project_repo_roots@.contains(p) || project_worktree_paths@.contains(p));
        }
        assert forall|dir: PathView| dirs@.contains(dir) implies parents(both).contains(dir) by {
            if parents(project_repo_roots@).contains(dir) {
                let p = choose|p: PathView|
                    project_repo_roots@.contains(p) && parent_of(p) == Some(dir);
                assert(both.contains(p));
            } else {
                let p = choose|p: PathView|
                    project_worktree_paths@.contains(p) && parent_of(p) == Some(dir);
                assert(both.contains(p));
            }
        }
        assert(dirs@ =~= parents(both));
    }
    dirs
}

/// A directory in a directory that was scanned.
#[derive(Debug)]
pub struct SubDir {
    pub path: RepoPath,
    /// What its `.git` is.
    pub dot_git: MetadataReply,
}

/// The value of a directory.
#[verifier::ext_equal]
pub struct SubDirView {
    pub path: PathView,
    pub dot_git: MetadataReply,
}

impl View for SubDir {
    type V = SubDirView;

    open spec fn view(&self) -> SubDirView {
        SubDirView { path: self.path@, dot_git: self.dot_git }
    }
}

/// A directory in one of the directories to look in.
#[derive(Debug)]
pub struct ChildDir {
    pub path: RepoPath,
    /// What its `.git` is.
    pub dot_git: MetadataReply,
    /// Its own entries, but for those that could not be read; none where it
    /// was not listed.
    pub entries: Vec<SubDir>,
}

/// The value of a directory with its entries.
#[verifier::ext_equal]
pub struct ChildDirView {
    pub path: PathView,
    pub dot_git: MetadataReply,
    pub entries: Seq<SubDirView>,
}

impl View for ChildDir {
    type V = ChildDirView;

    open spec fn view(&self) -> ChildDirView {
        ChildDirView { path: self.path@, dot_git: self.dot_git, entries: views(self.entries@) }
    }
}

/// The directories of a list that are repositories.
pub open spec fn repo_dirs(entries: Seq<SubDirView>) -> Seq<PathView> {
    entries.filter(|dir: SubDirView| dir.dot_git is Found).map_values(|dir: SubDirView| dir.path)
}

/// The repositories at a directory: itself, or else those among its entries.
pub open spec fn repos_at(child: ChildDirView) -> Seq<PathView> {
    if child.dot_git is Found {
        seq![child.path]
    } else {
        repo_dirs(child.entries)
    }
}

/// The repositories at the directories of a list.
pub open spec fn repos_at_all(children: Seq<ChildDirView>) -> Seq<PathView>
    decreases children.len(),
{
    if children.len() == 0 {
        seq![]
    } else {
        repos_at_all(children.drop_last()) + repos_at(children.last())
    }
}

fn push_path(list: &mut Vec<RepoPath>, path: RepoPath)
    ensures
        paths(final(list)@) == paths(old(list)@).push(path@),
{
    assert(paths(list@.push(path)) =~= paths(list@).push(path@));
    list.push(path);
}

fn push_repo_dirs(list: &mut Vec<RepoPath>, entries: &Vec<SubDir>)
    ensures
        paths(final(list)@) == paths(old(list)@) + repo_dirs(views(entries@)),
{
    let ghost before = paths(list@);
    let ghost all = views(entries@);
    let ghost keep = |dir: SubDirView| dir.dot_git is Found;
    let ghost path_of_dir = |dir: SubDirView| dir.path;
    let mut i: usize = 0;
    proof {
        reveal(Seq::filter);
        assert(all.take(0).filter(keep) =~= seq![]);
        assert(paths(list@) =~= before + all.take(0).filter(keep).map_values(path_of_dir));
    }
    while i < entries.len()
        invariant
            i <= entries@.len(),
            all == views(entries@),
            keep == (|dir: SubDirView| dir.dot_git is Found),
            path_of_dir == (|dir: SubDirView| dir.path),
            paths(list@) == before + all.take(i as int).filter(keep).map_values(path_of_dir),
        decreases entries@.len() - i,
    {
        let ghost kept = all.take(i as int).filter(keep);
        proof {
            lemma_filter_step(all, i as int, keep);
        }
        if is_repo_dir(entries[i].dot_git) {
            push_path(list, entries[i].path.clone());
            assert(kept.push(all[i as int]).map_values(path_of_dir) =~= kept.map_values(
                path_of_dir,
            ).push(all[i as int].path));
            assert(paths(list@) =~= before + kept.push(all[i as int]).map_values(path_of_dir));
        }
        i += 1;
    }
    assert(all.take(all.len() as int) =~= all);
}

/// The repositories at the directories that were listed: a directory that is a
/// repository stands for itself, any other for the repositories right in it.
pub fn candidate_dirs(children: &Vec<ChildDir>) -> (r: Vec<RepoPath>)
    ensures
        paths(r@) == repos_at_all(views(children@)),
{
    let mut r: Vec<RepoPath> = Vec::new();
    let ghost all = views(children@);
    let mut i: usize = 0;
    assert(paths(r@) =~= repos_at_all(all.take(0)));
    while i < children.len()
        invariant
            i <= children@.len(),
            all == views(children@),
            paths(r@) == repos_at_all(all.take(i as int)),
        decreases children@.len() - i,
    {
        let child = &children[i];
        assert(all.take(i + 1).drop_last() =~= all.take(i as int));
        if is_repo_dir(child.dot_git) {
            push_path(&mut r, child.path.clone());
        } else {
            push_repo_dirs(&mut r, &child.entries);
        }
        i += 1;
        assert(paths(r@) =~= repos_at_all(all.take(i as int)));
    }
    assert(all.take(all.len() as int) =~= all);
    r
}

/// The repositories of a list, each by the directory that holds its `.git`, that
/// are not the project's.
pub open spec fn foreign_checkouts(
    checkouts: Seq<Option<PathView>>,
    project_repo_roots: Set<PathView>,
) -> Set<PathView> {
    Set::new(|p: PathView| checkouts.contains(Some(p)) && !project_repo_roots.contains(p))
}

/// Whether a list holds the repositories that are not the project's, each once
/// and in order.
pub open spec fn are_main_paths(
    list: Seq<PathView>,
    checkouts: Seq<Option<PathView>>,
    project_repo_roots: Set<PathView>,
) -> bool {
    &&& strictly_sorted(list)
    &&& list.to_set() == foreign_checkouts(checkouts, project_repo_roots)
}

/// The optional paths that a list holds.
pub open spec fn opt_paths(v: Seq<Option<RepoPath>>) -> Seq<Option<PathView>> {
    v.map_values(|p: Option<RepoPath>| opt_view(p))
}

/// The repositories that are not the project's, each once and in order, given
/// the directory that holds the `.git` of each candidate's repository. A bare
/// repository counts like any other.
pub fn main_paths(checkouts: &Vec<Option<RepoPath>>, project_repo_roots: &PathSet) -> (r: Vec<
    RepoPath,
>)
    ensures
        are_main_paths(paths(r@), opt_paths(checkouts@), project_repo_roots@),
{
    let mut r: Vec<RepoPath> = Vec::new();
    let ghost all = opt_paths(checkouts@);
    let ghost roots = project_repo_roots@;
    let mut i: usize = 0;
    assert(paths(r@).to_set() =~= foreign_checkouts(all.take(0), roots));
    while i < checkouts.len()
        invariant
            i <= checkouts@.len(),
            all == opt_paths(checkouts@),
            roots == project_repo_roots@,
            are_main_paths(paths(r@), all.take(i as int), roots),
        decreases checkouts@.len() - i,
    {
        let ghost shorter = all.take(i as int);
        let ghost longer = all.take(i + 1);
        let ghost before = paths(r@).to_set();
        proof {
            assert(longer =~= shorter.push(all[i as int]));
            assert forall|p: PathView| longer.contains(Some(p)) == (shorter.contains(Some(p))
                || all[i as int] == Some(p)) by {
                if shorter.contains(Some(p)) {
                    let k = choose|k: int| 0 <= k < shorter.len() && shorter[k] == Some(p);
                    assert(longer[k] == Some(p));
                }
                assert(longer[i as int] == all[i as int]);
            }
        }
        if let Some(main_path) = &checkouts[i] {
            if !project_repo_roots.contains(main_path) {
                insert_sorted(&mut r, main_path.clone());
            }
        }
        i += 1;
        assert(paths(r@).to_set() =~= foreign_checkouts(longer, roots));
    }
    assert(all.take(all.len() as int) =~= all);
    r
}

/// What the worktree list of a repository came to.
#[derive(Debug)]
pub struct WorktreeListing {
    pub main_path: RepoPath,
    /// The worktrees that were listed; none where the command failed.
    pub worktrees: Option<Vec<GitWorktree>>,
}

/// The value of a listing.
#[verifier::ext_equal]
pub struct ListingView {
    pub main_path: PathView,
    pub worktrees: Option<Seq<WorktreeView>>,
}

impl View for WorktreeListing {
    type V = ListingView;

    open spec fn view(&self) -> ListingView {
        ListingView {
            main_path: self.main_path@,
            worktrees: match self.worktrees {
                Some(worktrees) => Some(views(worktrees@)),
                None => None,
            },
        }
    }
}

/// The repository that a listing gives: one with a worktree that is not bare,
/// in a directory whose name is text.
pub open spec fn external_repo_of(listing: ListingView) -> Option<ExternalRepoView> {
    match (listing.worktrees, file_name_text_of(listing.main_path)) {
        (Some(worktrees), Some(name)) => {
            if checked_out(worktrees).len() > 0 {
                Some(
                    ExternalRepoView {
                        name,
                        main_path: listing.main_path,
                        worktrees: checked_out(worktrees),
                    },
                )
            } else {
                None
            }
        },
        _ => None,
    }
}

/// The repositories that listings give.
pub open spec fn external_repos_of(listings: Seq<ListingView>) -> Seq<ExternalRepoView>
    decreases listings.len(),
{
    if listings.len() == 0 {
        seq![]
    } else {
        let before = external_repos_of(listings.drop_last());
        match external_repo_of(listings.last()) {
            Some(repo) => before.push(repo),
            None => before,
        }
    }
}

/// The repositories near the project, named after the directories that hold
/// their `.git`, given what the worktree list of each came to.
pub fn external_repos(listings: &Vec<WorktreeListing>) -> (r: Vec<ExternalRepo>)
    ensures
        views(r@) == external_repos_of(views(listings@)),
{
    let mut r: Vec<ExternalRepo> = Vec::new();
    let ghost all = views(listings@);
    let mut i: usize = 0;
    assert(views(r@) =~= external_repos_of(all.take(0)));
    while i < listings.len()
        invariant
            i <= listings@.len(),
            all == views(listings@),
            views(r@) == external_repos_of(all.take(i as int)),
        decreases listings@.len() - i,
    {
        let listing = &listings[i];
        assert(all.take(i + 1).drop_last() =~= all.take(i as int));
        if let Some(listed) = &listing.worktrees {
            let worktrees = without_bare(listed);
            if worktrees.len() > 0 {
                if let Some(name) = listing.main_path.file_name_text() {
                    let repo = ExternalRepo {
                        name,
                        main_path: listing.main_path.clone(),
                        worktrees,
                    };
                    proof {
                        lemma_views_push(r@, repo);
                    }
                    r.push(repo);
                }
            }
        }
        i += 1;
    }
    assert(all.take(all.len() as int) =~= all);
    r
}

/// The order in which candidates are found, and how often, makes no
/// difference to the repositories that are listed.
pub proof fn main_paths_depend_only_on_the_set(
    a: Seq<PathView>,
    b: Seq<PathView>,
    first: Seq<Option<PathView>>,
    second: Seq<Option<PathView>>,
    project_repo_roots: Set<PathView>,
)
    requires
        are_main_paths(a, first, project_repo_roots),
        are_main_paths(b, second, project_repo_roots),
        first.to_set() == second.to_set(),
    ensures
        a == b,
{
    assert forall|p: PathView| first.contains(Some(p)) == second.contains(Some(p)) by {
        let some_p: Option<PathView> = Some(p);
        assert(first.to_set().contains(some_p) == first.contains(some_p));
        assert(second.to_set().contains(some_p) == second.contains(some_p));
    }
    assert(a.to_set() =~= b.to_set());
    strictly_sorted_is_unique(a, b);
}

/// No repository of the project is among those that are listed.
pub proof fn project_repositories_are_not_listed(
    list: Seq<PathView>,
    checkouts: Seq<Option<PathView>>,
    project_repo_roots: Set<PathView>,
    i: int,
)
    requires
        are_main_paths(list, checkouts, project_repo_roots),
        0 <= i < list.len(),
    ensures
        !project_repo_roots.contains(list[i]),
        checkouts.contains(Some(list[i])),
{
    assert(list.to_set().contains(list[i]));
}

/// The main paths of listings.
pub open spec fn listed_paths(listings: Seq<ListingView>) -> Seq<PathView> {
    listings.map_values(|listing: ListingView| listing.main_path)
}

/// Every repository near the project stems from a listing, and has a worktree
/// and no bare one.
pub proof fn external_repos_are_checked_out(listings: Seq<ListingView>, i: int)
    requires
        0 <= i < external_repos_of(listings).len(),
    ensures
        listed_paths(listings).contains(external_repos_of(listings)[i].main_path),
        external_repos_of(listings)[i].worktrees.len() > 0,
        forall|k: int|
            0 <= k < external_repos_of(listings)[i].worktrees.len() ==> !(
            #[trigger] external_repos_of(listings)[i].worktrees[k]).is_bare,
    decreases listings.len(),
{
    let init = listings.drop_last();
    let repos = external_repos_of(listings);
    if i < external_repos_of(init).len() {
        external_repos_are_checked_out(init, i);
        let k = choose|k: int|
            0 <= k < listed_paths(init).len() && listed_paths(init)[k] == repos[i].main_path;
        assert(listed_paths(listings)[k] == repos[i].main_path);
    } else {
        assert(listed_paths(listings)[listings.len() - 1] == repos[i].main_path);
        let worktrees = listings.last().worktrees->0;
        let keep = |worktree: WorktreeView| !worktree.is_bare;
        assert forall|k: int| 0 <= k < repos[i].worktrees.len() implies !(
        #[trigger] repos[i].worktrees[k]).is_bare by {
            worktrees.lemma_filter_pred(keep, k);
        }
    }
}

/// The repositories near the project come in the order of their paths, each
/// once.
pub proof fn external_repos_are_in_order(listings: Seq<ListingView>)
    requires
        strictly_sorted(listed_paths(listings)),
    ensures
        strictly_sorted(
            external_repos_of(listings).map_values(|repo: ExternalRepoView| repo.main_path),
        ),
    decreases listings.len(),
{
    if listings.len() > 0 {
        let init = listings.drop_last();
        let all = listed_paths(listings);
        let before = external_repos_of(init);
        assert(listed_paths(init) =~= all.drop_last());
        external_repos_are_in_order(init);
        let list = external_repos_of(listings).map_values(
            |repo: ExternalRepoView| repo.main_path,
        );
        let shorter = before.map_values(|repo: ExternalRepoView| repo.main_path);
        if external_repo_of(listings.last()) is Some {
            assert forall|i: int, j: int| 0 <= i < j < list.len() implies path_lt(
                #[trigger] list[i],
                #[trigger] list[j],
            ) by {
                assert(list[i] == shorter[i]);
                if j < shorter.len() {
                    assert(list[j] == shorter[j]);
                } else {
                    external_repos_are_checked_out(init, i);
                    let k = choose|k: int|
                        0 <= k < listed_paths(init).len() && listed_paths(init)[k]
                            == before[i].main_path;
                    assert(all[k] == list[i]);
                    assert(all[all.len() - 1] == list[j]);
                }
            }
        }
    }
}

/// A bare repository is listed like any other, under the directory that holds
/// its `.git`: with the worktrees that are linked to it, but without its own
/// entry, so that one without linked worktrees is not listed.
pub proof fn bare_repository_lists_its_linked_worktrees(
    candidate: PathView,
    dot_git: MetadataReply,
    gitdir: Option<PathView>,
    project_repo_roots: Set<PathView>,
    own: WorktreeView,
    linked: Seq<WorktreeView>,
)
    requires
        repository_dir(candidate, dot_git, gitdir) matches Some(dir) && file_name_text_of(
            dir,
        ) is Some && !project_repo_roots.contains(dir),
        own.is_bare,
        forall|i: int| 0 <= i < linked.len() ==> !(#[trigger] linked[i]).is_bare,
    ensures
        ({
            let dir = repository_dir(candidate, dot_git, gitdir)->0;
            &&& foreign_checkouts(
                seq![repository_dir(candidate, dot_git, gitdir)],
                project_repo_roots,
            ).contains(dir)
            &&& external_repo_of(
                ListingView { main_path: dir, worktrees: Some(seq![own] + linked) },
            ) == if linked.len() > 0 {
                Some(
                    ExternalRepoView {
                        name: file_name_text_of(dir)->0,
                        main_path: dir,
                        worktrees: linked,
                    },
                )
            } else {
                None
            }
        }),
{
    let dir = repository_dir(candidate, dot_git, gitdir)->0;
    let keep = |worktree: WorktreeView| !worktree.is_bare;
    let checkouts = seq![repository_dir(candidate, dot_git, gitdir)];
    assert(checkouts[0] == Some(dir));
    Seq::filter_distributes_over_add(seq![own], linked, keep);
    assert(seq![own].filter(keep) =~= seq![]) by {
        reveal_with_fuel(Seq::filter, 2);
    }
    lemma_all_checked_out(linked);
    assert(checked_out(seq![own] + linked) =~= linked);
}

proof fn lemma_all_checked_out(linked: Seq<WorktreeView>)
    requires
        forall|i: int| 0 <= i < linked.len() ==> !(#[trigger] linked[i]).is_bare,
    ensures
        checked_out(linked) == linked,
    decreases linked.len(),
{
    reveal(Seq::filter);
    if linked.len() > 0 {
        lemma_all_checked_out(linked.drop_last());
        assert(linked.drop_last().push(linked.last()) =~= linked);
    }
}

} // verus!
