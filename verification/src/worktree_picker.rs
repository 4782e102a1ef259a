//! The picker as a whole: how it starts, and what it hears of the project.

use vstd::prelude::*;

use crate::deletion::DeletionRequest;
use crate::model::{
    checked_out, clone_text, without_bare, EntryView, ExternalRepo, GitWorktree,
    RemoteBranchName, WorktreeEntry, WorktreeView,
};
use crate::path::{PathView, RepoPath};
use crate::path_order::paths;
use crate::path_set::PathSet;
use crate::picker::{DelegateView, WorktreePickerDelegate};
use crate::scan::{parents, scan_roots};
use crate::seqs::{opt_view, views};

verus! {

/// A repository of the project.
#[derive(Debug)]
pub struct RepositoryState {
    pub id: u64,
    /// The branch that it has checked out.
    pub branch_name: Option<String>,
}

/// The value of a repository of the project.
#[verifier::ext_equal]
pub struct RepositoryStateView {
    pub id: u64,
    pub branch_name: Option<Seq<char>>,
}

impl View for RepositoryState {
    type V = RepositoryStateView;

    open spec fn view(&self) -> RepositoryStateView {
        RepositoryStateView { id: self.id, branch_name: opt_view(self.branch_name) }
    }
}

/// The project that the picker is opened for.
#[derive(Debug)]
pub struct ProjectState {
    pub is_local: bool,
    pub visible_worktrees: Vec<RepoPath>,
    pub repository_count: usize,
    pub active_repository: Option<RepositoryState>,
    /// The main worktrees of the project's repositories.
    pub repo_roots: Vec<RepoPath>,
}

/// The value of the project.
#[verifier::ext_equal]
pub struct ProjectStateView {
    pub is_local: bool,
    pub visible_worktrees: Seq<PathView>,
    pub repository_count: nat,
    pub active_repository: Option<RepositoryStateView>,
    pub repo_roots: Seq<PathView>,
}

impl View for ProjectState {
    type V = ProjectStateView;

    open spec fn view(&self) -> ProjectStateView {
        ProjectStateView {
            is_local: self.is_local,
            visible_worktrees: paths(self.visible_worktrees@),
            repository_count: self.repository_count as nat,
            active_repository: opt_view(self.active_repository),
            repo_roots: paths(self.repo_roots@),
        }
    }
}

/// A scan for repositories near the project.
#[derive(Debug)]
pub struct ScanRequest {
    /// The directories to look in.
    pub scan_roots: PathSet,
    /// The repositories to leave out.
    pub project_repo_roots: PathSet,
}

/// The value of a scan.
#[verifier::ext_equal]
pub struct ScanRequestView {
    pub scan_roots: Set<PathView>,
    pub project_repo_roots: Set<PathView>,
}

impl View for ScanRequest {
    type V = ScanRequestView;

    open spec fn view(&self) -> ScanRequestView {
        ScanRequestView {
            scan_roots: self.scan_roots@,
            project_repo_roots: self.project_repo_roots@,
        }
    }
}

/// The picker.
#[derive(Debug)]
pub struct WorktreePicker {
    pub delegate: WorktreePickerDelegate,
    /// The scan that the picker starts with.
    pub scan: Option<ScanRequest>,
}

/// The value of the picker.
#[verifier::ext_equal]
pub struct WorktreePickerView {
    pub delegate: DelegateView,
    pub scan: Option<ScanRequestView>,
}

impl View for WorktreePicker {
    type V = WorktreePickerView;

    open spec fn view(&self) -> WorktreePickerView {
        WorktreePickerView { delegate: self.delegate@, scan: opt_view(self.scan) }
    }
}

/// The repository whose worktrees are shown: the one that was asked for, or
/// else the active one.
pub open spec fn shown_repository(
    project: ProjectStateView,
    target_repository: Option<RepositoryStateView>,
) -> Option<RepositoryStateView> {
    if target_repository is Some {
        target_repository
    } else {
        project.active_repository
    }
}

/// The id of a repository.
pub open spec fn repository_id(repository: Option<RepositoryStateView>) -> Option<u64> {
    match repository {
        Some(repository) => Some(repository.id),
        None => None,
    }
}

/// The state that the picker starts in: it offers the current branch, and
/// knows of no worktrees yet but those that the project shows.
pub open spec fn initial_delegate(
    project: ProjectStateView,
    show_footer: bool,
    target_repository: Option<RepositoryStateView>,
) -> DelegateView {
    let repository = shown_repository(project, target_repository);
    DelegateView {
        matches: seq![EntryView::CreateFromCurrentBranch],
        all_worktrees: seq![],
        external_repos: seq![],
        project_worktree_paths: project.visible_worktrees.to_set(),
        active_worktree_paths: project.visible_worktrees.to_set(),
        selected_index: 0,
        target_repository: repository_id(target_repository),
        repository: repository_id(repository),
        current_branch_name: match repository {
            Some(repository) => repository.branch_name,
            None => None,
        },
        default_branch: None,
        has_multiple_repositories: project.repository_count > 1,
        show_footer,
        alt: false,
        hovered_delete_index: None,
        deleting_worktree_paths: Set::empty(),
    }
}

/// The scan that the picker starts with: none in a project that is not local,
/// nor where there is no directory to look in.
pub open spec fn initial_scan(project: ProjectStateView) -> Option<ScanRequestView> {
    let roots = parents(
        project.repo_roots.to_set().union(project.visible_worktrees.to_set()),
    );
    if project.is_local && roots != Set::<PathView>::empty() {
        Some(
            ScanRequestView { scan_roots: roots, project_repo_roots: project.repo_roots.to_set() },
        )
    } else {
        None
    }
}

/// What came of the request for the repository's worktrees.
#[derive(Debug)]
pub enum WorktreesReply {
    /// There is no repository to ask.
    NoRepository,
    /// The request failed, or was cancelled.
    Failed,
    Listed(Vec<GitWorktree>),
}

/// The worktrees that a reply gives the picker.
pub open spec fn replied_worktrees(reply: WorktreesReply) -> Option<Seq<WorktreeView>> {
    match reply {
        WorktreesReply::NoRepository => Some(seq![]),
        WorktreesReply::Failed => None,
        WorktreesReply::Listed(worktrees) => Some(checked_out(views(worktrees@))),
    }
}

impl WorktreePicker {
    /// A picker without a footer, for the active repository.
    pub fn new(project: &ProjectState) -> (r: WorktreePicker)
        ensures
            r@.delegate == initial_delegate(project@, false, None),
            r@.scan == initial_scan(project@),
    {
        WorktreePicker::new_inner(project, false, &None)
    }

    /// A picker with a footer, for the given repository.
    pub fn new_modal(project: &ProjectState, target_repository: &Option<RepositoryState>) -> (r:
        WorktreePicker)
        ensures
            r@.delegate == initial_delegate(project@, true, opt_view(*target_repository)),
            r@.scan == initial_scan(project@),
    {
        WorktreePicker::new_inner(project, true, target_repository)
    }

    fn new_inner(
        project: &ProjectState,
        show_footer: bool,
        target_repository: &Option<RepositoryState>,
    ) -> (r: WorktreePicker)
        ensures
            r@.delegate == initial_delegate(project@, show_footer, opt_view(*target_repository)),
            r@.scan == initial_scan(project@),
    {
        let active_worktree_paths = PathSet::from_vec(&project.visible_worktrees);
        let project_worktree_paths = active_worktree_paths.clone();
        let project_repo_roots = PathSet::from_vec(&project.repo_roots);
        let repository = if target_repository.is_some() {
            target_repository
        } else {
            &project.active_repository
        };
        let (id, current_branch_name) = match repository {
            Some(repository) => (Some(repository.id), clone_text(&repository.branch_name)),
            None => (None, None),
        };
        let target: Option<u64> = match target_repository {
            Some(repository) => Some(repository.id),
            None => None,
        };
        let mut scan: Option<ScanRequest> = None;
        if project.is_local {
            let roots = scan_roots(&project_repo_roots, &project_worktree_paths);
            if !roots.is_empty() {
                scan = Some(ScanRequest { scan_roots: roots, project_repo_roots });
            }
        }
        let mut matches: Vec<WorktreeEntry> = Vec::new();
        matches.push(WorktreeEntry::CreateFromCurrentBranch);
        let delegate = WorktreePickerDelegate {
            matches,
            all_worktrees: Vec::new(),
            external_repos: Vec::new(),
            project_worktree_paths,
            active_worktree_paths,
            selected_index: 0,
            target_repository: target,
            repository: id,
            current_branch_name,
            default_branch: None,
            has_multiple_repositories: project.repository_count > 1,
            show_footer,
            alt: false,
            hovered_delete_index: None,
            deleting_worktree_paths: PathSet::new(),
        };
        proof {
            let start = initial_delegate(project@, show_footer, opt_view(*target_repository));
            assert(delegate@.matches =~= start.matches);
            assert(delegate@.all_worktrees =~= start.all_worktrees);
            assert(delegate@.external_repos =~= start.external_repos);
        }
        WorktreePicker { delegate, scan }
    }

    /// Notes whether the alt key is held.
    pub fn handle_modifiers_changed(&mut self, alt: bool)
        ensures
            final(self)@ == (WorktreePickerView {
                delegate: DelegateView { alt, ..old(self)@.delegate },
                ..old(self)@
            }),
    {
        self.delegate.alt = alt;
    }

    /// Takes the repositories that the scan found.
    pub fn external_repos_found(&mut self, external_repos: Vec<ExternalRepo>)
        ensures
            final(self)@ == (WorktreePickerView {
                delegate: DelegateView {
                    external_repos: views(external_repos@),
                    ..old(self)@.delegate
                },
                ..old(self)@
            }),
    {
        self.delegate.external_repos = external_repos;
    }

    /// Takes the worktrees of the repository and its default branch, looks up
    /// what is open in the window, and says whether the rows are to be shown
    /// anew. Where the worktrees could not be listed, nothing changes.
    pub fn worktrees_loaded(
        &mut self,
        reply: WorktreesReply,
        default_branch: Option<RemoteBranchName>,
        group_paths: &Vec<RepoPath>,
    ) -> (r: bool)
        ensures
            r == (replied_worktrees(reply) is Some),
            match replied_worktrees(reply) {
                Some(worktrees) => final(self)@.delegate == (DelegateView {
                    all_worktrees: worktrees,
                    default_branch: opt_view(default_branch),
                    ..old(self)@.delegate.refreshed(paths(group_paths@))
                }) && final(self)@.scan == old(self)@.scan,
                None => final(self)@ == old(self)@,
            },
    {
        let all_worktrees: Vec<GitWorktree> = match reply {
            WorktreesReply::NoRepository => Vec::new(),
            WorktreesReply::Failed => return false,
            WorktreesReply::Listed(worktrees) => without_bare(&worktrees),
        };
        assert(views(all_worktrees@) =~= replied_worktrees(reply)->0);
        self.delegate.all_worktrees = all_worktrees;
        self.delegate.default_branch = default_branch;
        self.delegate.refresh_project_worktree_paths(group_paths);
        true
    }

    /// Takes the worktrees of the repository after a change, where they could
    /// be listed.
    pub fn worktree_list_changed(&mut self, worktrees: &Vec<GitWorktree>)
        ensures
            final(self)@ == (WorktreePickerView {
                delegate: DelegateView {
                    all_worktrees: checked_out(views(worktrees@)),
                    ..old(self)@.delegate
                },
                ..old(self)@
            }),
    {
        self.delegate.all_worktrees = without_bare(worktrees);
    }

    /// Starts to delete the worktree of the selected row.
    pub fn delete_selected(&mut self, force: bool, has_repository: bool) -> (r: Option<
        DeletionRequest,
    >)
        ensures
            opt_view(r) == old(self)@.delegate.deletion_request(
                old(self)@.delegate.selected_index,
                force,
                has_repository,
            ),
            final(self)@ == (WorktreePickerView {
                delegate: old(self)@.delegate.deletion_begun(
                    old(self)@.delegate.selected_index,
                    has_repository,
                ),
                ..old(self)@
            }),
    {
        let ix = self.delegate.selected_index;
        self.delegate.delete_worktree(ix, force, has_repository)
    }

    /// Starts to delete the worktree of a row whose delete button was clicked:
    /// by force while the alt key is held.
    pub fn click_delete(&mut self, ix: usize, has_repository: bool) -> (r: Option<DeletionRequest>)
        ensures
            opt_view(r) == old(self)@.delegate.deletion_request(
                ix as int,
                old(self)@.delegate.alt,
                has_repository,
            ),
            final(self)@ == (WorktreePickerView {
                delegate: old(self)@.delegate.deletion_begun(ix as int, has_repository),
                ..old(self)@
            }),
    {
        let force = self.delegate.alt;
        self.delegate.delete_worktree(ix, force, has_repository)
    }
}

} // verus!
