//! What looking for repositories promises.

use vstd::prelude::*;

use crate::env_vault::MetadataReply;
use crate::model::{checked_out, ExternalRepoView, WorktreeView};
use crate::path::{file_name_text_of, parent_of, PathView};
use crate::path_order::path_lt;
use crate::scan::{
    are_main_paths, external_repo_of, external_repos_of, foreign_checkouts, parents, repos_at,
    repos_at_all, ChildDirView, ListingView, SubDirView,
};

verus! {

/// The directories that are looked in are exactly the parents of the project's
/// repositories and worktrees.
pub proof fn siblings_are_looked_at(of: Set<PathView>, dir: PathView)
    ensures
        parents(of).contains(dir) <==> exists|p: PathView|
            of.contains(p) && #[trigger] parent_of(p) == Some(dir),
{
    if parents(of).contains(dir) {
        let p = choose|p: PathView| of.contains(p) && parent_of(p) == Some(dir);
        assert(parent_of(p) == Some(dir));
    }
    if exists|p: PathView| of.contains(p) && #[trigger] parent_of(p) == Some(dir) {
        let p = choose|p: PathView| of.contains(p) && #[trigger] parent_of(p) == Some(dir);
        assert(of.contains(p));
    }
}

/// A directory that is a repository is a candidate, and what is in it is not
/// looked at; of any other directory, the repositories right in it are.
pub proof fn repositories_two_levels_deep_are_candidates(
    path: PathView,
    dot_git: MetadataReply,
    entries: Seq<SubDirView>,
    entry: SubDirView,
)
    ensures
        dot_git is Found ==> repos_at(ChildDirView { path, dot_git, entries }) == seq![path],
        !(dot_git is Found) ==> {
            &&& repos_at(ChildDirView { path, dot_git, entries: entries.push(entry) })
                == repos_at(ChildDirView { path, dot_git, entries }) + (
            if entry.dot_git is Found {
                seq![entry.path]
            } else {
                seq![]
            })
            &&& repos_at(ChildDirView { path, dot_git, entries: seq![] }) == Seq::<
                PathView,
            >::empty()
        },
{
    let keep = |dir: SubDirView| dir.dot_git is Found;
    let path_of_dir = |dir: SubDirView| dir.path;
    reveal(Seq::filter);
    assert(entries.push(entry).drop_last() =~= entries);
    let kept = entries.filter(keep);
    assert(kept.push(entry).map_values(path_of_dir) =~= kept.map_values(path_of_dir) + seq![
        entry.path,
    ]);
    assert(kept.map_values(path_of_dir) + seq![] =~= kept.map_values(path_of_dir));
    let none: Seq<SubDirView> = seq![];
    assert(none.filter(keep).map_values(path_of_dir) =~= Seq::<PathView>::empty());
}

/// The candidates of more directories are those of each, one after the other.
pub proof fn directories_add_their_candidates(
    first: Seq<ChildDirView>,
    child: ChildDirView,
)
    ensures
        repos_at_all(first.push(child)) == repos_at_all(first) + repos_at(child),
        repos_at_all(seq![]) == Seq::<PathView>::empty(),
{
    assert(first.push(child).drop_last() =~= first);
}

/// The repositories that are listed are exactly those found that are not the
/// project's, each once, and each before those that its path comes before.
pub proof fn foreign_repositories_are_listed_once_and_in_order(
    list: Seq<PathView>,
    checkouts: Seq<Option<PathView>>,
    project_repo_roots: Set<PathView>,
    path: PathView,
)
    requires
        are_main_paths(list, checkouts, project_repo_roots),
    ensures
        list.contains(path) <==> (exists|i: int|
            0 <= i < checkouts.len() && #[trigger] checkouts[i] == Some(path))
            && !project_repo_roots.contains(path),
        forall|i: int, j: int|
            0 <= i < j < list.len() ==> path_lt(#[trigger] list[i], #[trigger] list[j]),
{
    assert(list.to_set().contains(path) == list.contains(path));
    assert(foreign_checkouts(checkouts, project_repo_roots).contains(path) <==> checkouts.contains(
        Some(path),
    ) && !project_repo_roots.contains(path));
}

/// A listing gives the repository, under the name of its directory, with all of
/// its worktrees that are no bare repositories; none where the command failed,
/// where there is no such worktree, or where the name is no text.
pub proof fn listing_gives_its_repository(
    main_path: PathView,
    worktrees: Seq<WorktreeView>,
    name: Seq<char>,
)
    ensures
        external_repo_of(ListingView { main_path, worktrees: None }) is None,
        file_name_text_of(main_path) is None ==> external_repo_of(
            ListingView { main_path, worktrees: Some(worktrees) },
        ) is None,
        file_name_text_of(main_path) == Some(name) ==> external_repo_of(
            ListingView { main_path, worktrees: Some(worktrees) },
        ) == if checked_out(worktrees).len() > 0 {
            Some(
                ExternalRepoView { name, main_path, worktrees: checked_out(worktrees) },
            )
        } else {
            None
        },
{
}

/// Each listing adds its repository behind those before it.
pub proof fn listings_add_their_repositories(
    listings: Seq<ListingView>,
    listing: ListingView,
)
    ensures
        external_repos_of(listings.push(listing)) == external_repos_of(listings) + (
        match external_repo_of(listing) {
            Some(repo) => seq![repo],
            None => seq![],
        }),
        external_repos_of(seq![]) == Seq::<ExternalRepoView>::empty(),
{
    assert(listings.push(listing).drop_last() =~= listings);
    let before = external_repos_of(listings);
    if let Some(repo) = external_repo_of(listing) {
        assert(before.push(repo) =~= before + seq![repo]);
    } else {
        assert(before + seq![] =~= before);
    }
}

} // verus!
