//! What the picker promises as it starts, as it hears of the project, and as it
//! opens and removes worktrees.

use vstd::prelude::*;

use crate::laws::rows::first_is_found;
use crate::model::{checked_out, EntryView, GitWorktree};
use crate::path::{parent_of, PathView};
use crate::picker::DelegateView;
use crate::remote_open::{
    failure_context_text, remote_open_step, RemoteOpenEvent, RemoteOpenFailure, RemoteOpenStage,
};
use crate::seqs::views;
use crate::window::{group_paths_of, GroupWorkspaceView};
use crate::worktree_picker::{
    initial_delegate, initial_scan, replied_worktrees, ProjectStateView, RepositoryStateView,
    WorktreesReply,
};

verus! {

/// The picker starts with the one row that creates from the current branch,
/// selected, with the project's worktrees open, and with nothing else.
pub proof fn picker_starts_with_the_project(
    project: ProjectStateView,
    show_footer: bool,
    target: Option<RepositoryStateView>,
    path: PathView,
)
    ensures
        ({
            let start = initial_delegate(project, show_footer, target);
            &&& start.matches == seq![EntryView::CreateFromCurrentBranch]
            &&& start.selected_index == 0
            &&& start.all_worktrees.len() == 0
            &&& start.external_repos.len() == 0
            &&& start.active_worktree_paths.contains(path) <==> project.visible_worktrees.contains(
                path,
            )
            &&& start.project_worktree_paths.contains(path)
                <==> project.visible_worktrees.contains(path)
            &&& !start.deleting_worktree_paths.contains(path)
            &&& start.default_branch is None
            &&& start.hovered_delete_index is None
            &&& !start.alt
            &&& start.show_footer == show_footer
            &&& start.has_multiple_repositories <==> project.repository_count > 1
        }),
{
}

/// The picker is about the repository that was asked for, and otherwise about
/// the active one; it shows that one's branch as the current one.
pub proof fn picker_is_about_the_repository_asked_for(
    project: ProjectStateView,
    show_footer: bool,
    target: RepositoryStateView,
)
    ensures
        ({
            let asked = initial_delegate(project, show_footer, Some(target));
            let plain = initial_delegate(project, show_footer, None);
            &&& asked.target_repository == Some(target.id)
            &&& asked.repository == Some(target.id)
            &&& asked.current_branch_name == target.branch_name
            &&& plain.target_repository is None
            &&& project.active_repository is None ==> plain.repository is None
                && plain.current_branch_name is None
            &&& project.active_repository matches Some(active) ==> {
                &&& plain.repository == Some(active.id)
                &&& plain.current_branch_name == active.branch_name
            }
        }),
{
}

/// A local project is scanned from the parents of its repositories and
/// worktrees, wherever there is one, leaving its own repositories out; no other
/// project is.
pub proof fn local_projects_are_scanned(project: ProjectStateView, p: PathView, dir: PathView)
    ensures
        !project.is_local ==> initial_scan(project) is None,
        project.is_local && (project.repo_roots.contains(p) || project.visible_worktrees.contains(
            p,
        )) && parent_of(p) == Some(dir) ==> (initial_scan(project) matches Some(scan)
            && scan.scan_roots.contains(dir)),
        initial_scan(project) matches Some(scan) ==> {
            &&& scan.project_repo_roots.contains(p) <==> project.repo_roots.contains(p)
            &&& scan.scan_roots.contains(dir) ==> exists|q: PathView|
                (project.repo_roots.contains(q) || project.visible_worktrees.contains(q))
                    && #[trigger] parent_of(q) == Some(dir)
        },
{
    let of = project.repo_roots.to_set().union(project.visible_worktrees.to_set());
    crate::laws::scanning::siblings_are_looked_at(of, dir);
    let roots = crate::scan::parents(of);
    if project.is_local && of.contains(p) && parent_of(p) == Some(dir) {
        assert(roots.contains(dir));
        assert(roots != Set::<PathView>::empty());
    }
}

/// The worktrees that were listed are taken but for bare repositories; without
/// a repository there are none; a failure gives nothing to take.
pub proof fn listed_worktrees_are_taken(worktrees: Vec<GitWorktree>)
    ensures
        replied_worktrees(WorktreesReply::Listed(worktrees)) == Some(
            checked_out(views(worktrees@)),
        ),
        replied_worktrees(WorktreesReply::NoRepository) matches Some(none) && none.len() == 0,
        replied_worktrees(WorktreesReply::Failed) is None,
{
}

/// What is open in the window is what is open in the picker's own project, and
/// what the workspaces of its group show; a refresh changes nothing else.
pub proof fn refresh_takes_what_is_open(
    picker: DelegateView,
    group: Seq<PathView>,
    path: PathView,
)
    ensures
        picker.refreshed(group).project_worktree_paths.contains(path)
            <==> picker.active_worktree_paths.contains(path) || group.contains(path),
        picker.refreshed(group) == (DelegateView {
            project_worktree_paths: picker.refreshed(group).project_worktree_paths,
            ..picker
        }),
{
}

/// The group shows what each of its workspaces shows.
pub proof fn group_shows_what_its_workspaces_show(
    group: Seq<GroupWorkspaceView>,
    workspace: GroupWorkspaceView,
)
    ensures
        group_paths_of(group.push(workspace)) == group_paths_of(group)
            + workspace.visible_worktrees,
        group_paths_of(seq![]) == Seq::<PathView>::empty(),
{
    assert(group.push(workspace).drop_last() =~= group);
}

/// A worktree's workspace is the first of the group, other than the picker's
/// own, that shows it; none where the picker's own project shows it, or its
/// workspace is gone. It is removed unless the worktree is being deleted.
pub proof fn workspace_of_a_worktree_is_the_first_other(
    picker: DelegateView,
    path: PathView,
    own: u64,
    before: Seq<GroupWorkspaceView>,
    workspace: GroupWorkspaceView,
    after: Seq<GroupWorkspaceView>,
)
    requires
        workspace.id != own,
        workspace.visible_worktrees.contains(path),
        forall|i: int|
            0 <= i < before.len() ==> (#[trigger] before[i]).id == own
                || !before[i].visible_worktrees.contains(path),
    ensures
        ({
            let group = before + seq![workspace] + after;
            let found = picker.open_workspace(path, Some(own), group);
            let removed = picker.workspace_to_remove(path, Some(own), group);
            &&& picker.active_worktree_paths.contains(path) ==> found is None
            &&& !picker.active_worktree_paths.contains(path) ==> found == Some(workspace.id)
            &&& picker.deleting_worktree_paths.contains(path) ==> removed is None
            &&& !picker.deleting_worktree_paths.contains(path) ==> removed == found
            &&& picker.open_workspace(path, Some(own), before) is None
            &&& picker.open_workspace(path, None, group) is None
            &&& picker.workspace_to_remove(path, None, group) is None
        }),
{
    let group = before + seq![workspace] + after;
    first_is_found(
        before,
        workspace,
        after,
        |workspace: GroupWorkspaceView|
            workspace.id != own && workspace.visible_worktrees.contains(path),
    );
    assert(group[before.len() as int] == workspace);
}

/// Opening a remote worktree goes through its stages one by one: each that goes
/// well leads to the next, each that fails ends the opening with its failure.
/// The end of the dialog need not go well, and leads on only with a session.
pub proof fn remote_opening_goes_stage_by_stage(connected: bool, ok: bool)
    ensures
        ({
            let went = RemoteOpenEvent::Finished { ok: true };
            let failed = RemoteOpenEvent::Finished { ok: false };
            let next = |stage: RemoteOpenStage| remote_open_step(stage, went);
            let fails = |stage: RemoteOpenStage, failure: RemoteOpenFailure|
                remote_open_step(stage, failed) == RemoteOpenStage::Failed(failure);
            &&& next(RemoteOpenStage::Connecting) == RemoteOpenStage::AwaitingSession
            &&& remote_open_step(
                RemoteOpenStage::AwaitingSession,
                RemoteOpenEvent::Session { connected },
            ) == (RemoteOpenStage::FinishingPrompt { connected })
            &&& remote_open_step(
                RemoteOpenStage::FinishingPrompt { connected: true },
                RemoteOpenEvent::Finished { ok },
            ) == RemoteOpenStage::CreatingProject
            &&& remote_open_step(
                RemoteOpenStage::FinishingPrompt { connected: false },
                RemoteOpenEvent::Finished { ok },
            ) == RemoteOpenStage::NotConnected
            &&& next(RemoteOpenStage::CreatingProject) == RemoteOpenStage::RequestingPosition
            &&& next(RemoteOpenStage::RequestingPosition) == RemoteOpenStage::AwaitingPosition
            &&& next(RemoteOpenStage::AwaitingPosition) == RemoteOpenStage::BuildingOptions
            &&& next(RemoteOpenStage::BuildingOptions) == RemoteOpenStage::OpeningWindow
            &&& next(RemoteOpenStage::OpeningWindow) == RemoteOpenStage::OpeningProject
            &&& next(RemoteOpenStage::OpeningProject) == RemoteOpenStage::Opened
            &&& fails(RemoteOpenStage::Connecting, RemoteOpenFailure::Connecting)
            &&& fails(RemoteOpenStage::CreatingProject, RemoteOpenFailure::CreatingProject)
            &&& fails(RemoteOpenStage::RequestingPosition, RemoteOpenFailure::RequestingPosition)
            &&& fails(RemoteOpenStage::AwaitingPosition, RemoteOpenFailure::AwaitingPosition)
            &&& fails(RemoteOpenStage::BuildingOptions, RemoteOpenFailure::BuildingOptions)
            &&& fails(RemoteOpenStage::OpeningWindow, RemoteOpenFailure::OpeningWindow)
            &&& fails(RemoteOpenStage::OpeningProject, RemoteOpenFailure::OpeningProject)
        }),
{
}

/// An event that a remote opening does not wait for changes nothing: a session
/// counts only while one is awaited, and nothing does once the opening is over.
pub proof fn remote_opening_ignores_what_it_does_not_await(
    stage: RemoteOpenStage,
    connected: bool,
    ok: bool,
)
    ensures
        !(stage is AwaitingSession) ==> remote_open_step(
            stage,
            RemoteOpenEvent::Session { connected },
        ) == stage,
        stage is AwaitingSession || stage is Opened || stage is NotConnected || stage is Failed
            ==> remote_open_step(stage, RemoteOpenEvent::Finished { ok }) == stage,
{
}

/// The error of the awaited position says what was being fetched; no other
/// error says more than itself.
pub proof fn position_error_says_what_was_fetched(failure: RemoteOpenFailure)
    ensures
        failure is AwaitingPosition ==> failure_context_text(failure) == Some(
            "fetching workspace position from db"@,
        ),
        !(failure is AwaitingPosition) ==> failure_context_text(failure) is None,
{
}

} // verus!
