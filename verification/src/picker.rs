//! The state of the picker and the small rules on it.

use vstd::prelude::*;

use crate::model::{
    EntryView, ExternalRepo, ExternalRepoView, GitWorktree, RemoteBranchName, RemoteBranchView,
    WorktreeEntry, WorktreeView,
};
use crate::path::{PathView, RepoPath};
use crate::path_order::paths;
use crate::path_set::PathSet;
use crate::seqs::{first_where, lemma_first_where, opt_view, views};

verus! {

/// The state of the picker.
#[derive(Debug)]
pub struct WorktreePickerDelegate {
    /// The rows that are shown.
    pub matches: Vec<WorktreeEntry>,
    /// The worktrees of the repository.
    pub all_worktrees: Vec<GitWorktree>,
    /// The repositories near the project.
    pub external_repos: Vec<ExternalRepo>,
    /// The worktrees that are open in the window.
    pub project_worktree_paths: PathSet,
    /// The worktrees that are open in the picker's own project.
    pub active_worktree_paths: PathSet,
    pub selected_index: usize,
    /// The repository that the caller asked for.
    pub target_repository: Option<u64>,
    /// The repository whose worktrees are shown.
    pub repository: Option<u64>,
    pub current_branch_name: Option<String>,
    /// The default branch of the repository's remote.
    pub default_branch: Option<RemoteBranchName>,
    pub has_multiple_repositories: bool,
    pub show_footer: bool,
    /// Whether the alt key is held.
    pub alt: bool,
    /// The row whose delete button is under the pointer.
    pub hovered_delete_index: Option<usize>,
    /// The worktrees that are being deleted.
    pub deleting_worktree_paths: PathSet,
}

/// The value of the picker's state.
#[verifier::ext_equal]
pub struct DelegateView {
    pub matches: Seq<EntryView>,
    pub all_worktrees: Seq<WorktreeView>,
    pub external_repos: Seq<ExternalRepoView>,
    pub project_worktree_paths: Set<PathView>,
    pub active_worktree_paths: Set<PathView>,
    pub selected_index: int,
    pub target_repository: Option<u64>,
    pub repository: Option<u64>,
    pub current_branch_name: Option<Seq<char>>,
    pub default_branch: Option<RemoteBranchView>,
    pub has_multiple_repositories: bool,
    pub show_footer: bool,
    pub alt: bool,
    pub hovered_delete_index: Option<usize>,
    pub deleting_worktree_paths: Set<PathView>,
}

impl View for WorktreePickerDelegate {
    type V = DelegateView;

    open spec fn view(&self) -> DelegateView {
        DelegateView {
            matches: views(self.matches@),
            all_worktrees: views(self.all_worktrees@),
            external_repos: views(self.external_repos@),
            project_worktree_paths: self.project_worktree_paths@,
            active_worktree_paths: self.active_worktree_paths@,
            selected_index: self.selected_index as int,
            target_repository: self.target_repository,
            repository: self.repository,
            current_branch_name: opt_view(self.current_branch_name),
            default_branch: opt_view(self.default_branch),
            has_multiple_repositories: self.has_multiple_repositories,
            show_footer: self.show_footer,
            alt: self.alt,
            hovered_delete_index: self.hovered_delete_index,
            deleting_worktree_paths: self.deleting_worktree_paths@,
        }
    }
}

/// The path of the first main worktree of a list.
pub open spec fn main_path_of(all: Seq<WorktreeView>) -> Option<PathView> {
    match first_where(all, |worktree: WorktreeView| worktree.is_main) {
        Some(i) => Some(all[i].path),
        None => None,
    }
}

/// The main path of the first repository of a name.
pub open spec fn repo_path_of(repos: Seq<ExternalRepoView>, name: Seq<char>) -> Option<PathView> {
    match first_where(repos, |repo: ExternalRepoView| repo.name == name) {
        Some(i) => Some(repos[i].main_path),
        None => None,
    }
}

/// The row that a search selects: the first worktree, else the first named
/// creation, else the first row.
pub open spec fn search_selection(matches: Seq<EntryView>) -> int {
    match first_where(matches, |entry: EntryView| entry is Worktree) {
        Some(i) => i,
        None => match first_where(matches, |entry: EntryView| entry is CreateNamed) {
            Some(i) => i,
            None => 0,
        },
    }
}

impl DelegateView {
    /// Whether a worktree may be deleted: it is neither the main worktree nor
    /// open in the window.
    pub open spec fn deletable(self, worktree: WorktreeView) -> bool {
        !worktree.is_main && !self.project_worktree_paths.contains(worktree.path)
    }

    /// The path that the name of a row's worktree is relative to: that of its
    /// repository's main worktree.
    pub open spec fn row_main_path(self, repo_name: Option<Seq<char>>) -> Option<PathView> {
        match repo_name {
            Some(name) => repo_path_of(self.external_repos, name),
            None => main_path_of(self.all_worktrees),
        }
    }
}

/// Why no worktree can be created.
pub open spec fn blocked_reason(is_via_collab: bool, repository_count: nat) -> Option<Seq<char>> {
    if is_via_collab {
        Some("Worktree creation is not supported in collaborative projects"@)
    } else if repository_count == 0 {
        Some("Requires a Git repository in the project"@)
    } else {
        None
    }
}

/// Why no worktree can be created in a project, given whether others share it
/// and the number of its repositories.
pub fn creation_blocked_reason(is_via_collab: bool, repository_count: usize) -> (r: Option<String>)
    ensures
        opt_view(r) == blocked_reason(is_via_collab, repository_count as nat),
{
    if is_via_collab {
        Some("Worktree creation is not supported in collaborative projects".to_owned())
    } else if repository_count == 0 {
        Some("Requires a Git repository in the project".to_owned())
    } else {
        None
    }
}

fn find_main(all: &Vec<GitWorktree>) -> (r: Option<RepoPath>)
    ensures
        opt_view(r) == main_path_of(views(all@)),
{
    let ghost vs = views(all@);
    let mut i: usize = 0;
    while i < all.len()
        invariant
            i <= all@.len(),
            vs == views(all@),
            forall|j: int| 0 <= j < i ==> !(#[trigger] vs[j]).is_main,
        decreases all@.len() - i,
    {
        if all[i].is_main {
            proof {
                lemma_first_where(vs, |worktree: WorktreeView| worktree.is_main);
                assert(vs[i as int].is_main);
            }
            return Some(all[i].path.clone());
        }
        i += 1;
    }
    proof {
        lemma_first_where(vs, |worktree: WorktreeView| worktree.is_main);
    }
    None
}

fn find_repo(repos: &Vec<ExternalRepo>, name: &String) -> (r: Option<RepoPath>)
    ensures
        opt_view(r) == repo_path_of(views(repos@), name@),
{
    let ghost vs = views(repos@);
    let mut i: usize = 0;
    while i < repos.len()
        invariant
            i <= repos@.len(),
            vs == views(repos@),
            forall|j: int| 0 <= j < i ==> (#[trigger] vs[j]).name != name@,
        decreases repos@.len() - i,
    {
        if repos[i].name == *name {
            proof {
                lemma_first_where(vs, |repo: ExternalRepoView| repo.name == name@);
                assert(vs[i as int].name == name@);
            }
            return Some(repos[i].main_path.clone());
        }
        i += 1;
    }
    proof {
        lemma_first_where(vs, |repo: ExternalRepoView| repo.name == name@);
    }
    None
}

fn first_worktree_row(matches: &Vec<WorktreeEntry>) -> (r: Option<usize>)
    ensures
        match r {
            Some(i) => first_where(views(matches@), |entry: EntryView| entry is Worktree) == Some(
                i as int,
            ),
            None => first_where(views(matches@), |entry: EntryView| entry is Worktree) is None,
        },
{
    let ghost vs = views(matches@);
    proof {
        lemma_first_where(vs, |entry: EntryView| entry is Worktree);
    }
    let mut i: usize = 0;
    #[verifier::loop_isolation(false)]
    while i < matches.len()
        invariant
            i <= matches@.len(),
            forall|j: int| 0 <= j < i ==> !((#[trigger] vs[j]) is Worktree),
        decreases matches@.len() - i,
    {
        assert(vs[i as int] == matches@[i as int]@);
        if let WorktreeEntry::Worktree { .. } = &matches[i] {
            return Some(i);
        }
        i += 1;
    }
    None
}

fn first_named_row(matches: &Vec<WorktreeEntry>) -> (r: Option<usize>)
    ensures
        match r {
            Some(i) => first_where(views(matches@), |entry: EntryView| entry is CreateNamed) == Some(
                i as int,
            ),
            None => first_where(views(matches@), |entry: EntryView| entry is CreateNamed) is None,
        },
{
    let ghost vs = views(matches@);
    proof {
        lemma_first_where(vs, |entry: EntryView| entry is CreateNamed);
    }
    let mut i: usize = 0;
    #[verifier::loop_isolation(false)]
    while i < matches.len()
        invariant
            i <= matches@.len(),
            forall|j: int| 0 <= j < i ==> !((#[trigger] vs[j]) is CreateNamed),
        decreases matches@.len() - i,
    {
        assert(vs[i as int] == matches@[i as int]@);
        if let WorktreeEntry::CreateNamed { .. } = &matches[i] {
            return Some(i);
        }
        i += 1;
    }
    None
}

impl WorktreePickerDelegate {
    /// The worktrees of the repository.
    pub fn all_repo_worktrees(&self) -> (r: &Vec<GitWorktree>)
        ensures
            views(r@) == self@.all_worktrees,
    {
        &self.all_worktrees
    }

    /// The path of the repository's main worktree.
    pub fn main_worktree_path(&self) -> (r: Option<RepoPath>)
        ensures
            opt_view(r) == main_path_of(self@.all_worktrees),
    {
        find_main(&self.all_worktrees)
    }

    /// The path that the name of a row's worktree is relative to: that of its
    /// repository's main worktree.
    pub fn row_main_worktree_path(&self, repo_name: &Option<String>) -> (r: Option<RepoPath>)
        ensures
            opt_view(r) == self@.row_main_path(opt_view(*repo_name)),
    {
        match repo_name {
            Some(name) => find_repo(&self.external_repos, name),
            None => self.main_worktree_path(),
        }
    }

    /// Whether a worktree may be deleted: it is neither the main worktree nor
    /// open in the window.
    pub fn can_delete_worktree(&self, worktree: &GitWorktree) -> (r: bool)
        ensures
            r == self@.deletable(worktree@),
    {
        !worktree.is_main && !self.project_worktree_paths.contains(&worktree.path)
    }

    /// Takes the worktrees open in the workspaces of the window that belong to
    /// the picker's project group, besides those of the picker's own project.
    pub fn refresh_project_worktree_paths(&mut self, group_paths: &Vec<RepoPath>)
        ensures
            final(self)@ == (DelegateView {
                project_worktree_paths: old(self)@.active_worktree_paths.union(
                    paths(group_paths@).to_set(),
                ),
                ..old(self)@
            }),
    {
        let mut open = self.active_worktree_paths.clone();
        open.insert_all(group_paths);
        self.project_worktree_paths = open;
    }

    /// Whether the delete button of a row is under the pointer while the alt
    /// key is held.
    pub fn is_force_delete_hovering_index(&self, index: usize) -> (r: bool)
        ensures
            r == (self@.alt && self@.hovered_delete_index == Some(index)),
    {
        self.alt && match self.hovered_delete_index {
            Some(hovered) => hovered == index,
            None => false,
        }
    }

    /// Notes that the pointer came upon the delete button of a row, or left it.
    pub fn hover_delete(&mut self, index: usize, hovered: bool)
        ensures
            final(self)@ == (DelegateView {
                hovered_delete_index: if hovered {
                    Some(index)
                } else if old(self)@.hovered_delete_index == Some(index) {
                    None
                } else {
                    old(self)@.hovered_delete_index
                },
                ..old(self)@
            }),
    {
        if hovered {
            self.hovered_delete_index = Some(index);
        } else {
            let under_pointer = match self.hovered_delete_index {
                Some(current) => current == index,
                None => false,
            };
            if under_pointer {
                self.hovered_delete_index = None;
            }
        }
    }

    /// Selects the row that a search selects; without a query the selection
    /// stays.
    pub fn sync_selected_index(&mut self, has_query: bool)
        ensures
            final(self)@ == (DelegateView {
                selected_index: if has_query {
                    search_selection(old(self)@.matches)
                } else {
                    old(self)@.selected_index
                },
                ..old(self)@
            }),
    {
        if !has_query {
            return;
        }
        self.selected_index = match first_worktree_row(&self.matches) {
            Some(i) => i,
            None => match first_named_row(&self.matches) {
                Some(i) => i,
                None => 0,
            },
        };
    }

    /// The number of rows.
    pub fn match_count(&self) -> (r: usize)
        ensures
            r == self@.matches.len(),
    {
        self.matches.len()
    }

    /// The selected row.
    pub fn selected_index(&self) -> (r: usize)
        ensures
            r == self@.selected_index,
    {
        self.selected_index
    }

    /// Selects a row.
    pub fn set_selected_index(&mut self, ix: usize)
        ensures
            final(self)@ == (DelegateView { selected_index: ix as int, ..old(self)@ }),
    {
        self.selected_index = ix;
    }

    /// Whether a row can be selected: all but separators and headers can.
    pub fn can_select(&self, ix: usize) -> (r: bool)
        ensures
            r == !(ix < self@.matches.len() && (self@.matches[ix as int] is Separator
                || self@.matches[ix as int] is SectionHeader)),
    {
        if ix >= self.matches.len() {
            return true;
        }
        assert(self@.matches[ix as int] == self.matches@[ix as int]@);
        match &self.matches[ix] {
            WorktreeEntry::Separator => false,
            WorktreeEntry::SectionHeader(_) => false,
            _ => true,
        }
    }
}

} // verus!
