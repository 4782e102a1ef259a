//! Removing a worktree from the window.

use vstd::prelude::*;

use crate::model::WorktreeView;
use crate::path::{PathView, RepoPath};
use crate::path_order::paths;
use crate::picker::{DelegateView, WorktreePickerDelegate};
use crate::seqs::{first_where, lemma_first_where, views};

verus! {

/// A workspace of the window that belongs to the picker's project group.
#[derive(Debug)]
pub struct GroupWorkspace {
    pub id: u64,
    /// The worktrees that it shows.
    pub visible_worktrees: Vec<RepoPath>,
}

/// The value of a workspace.
#[verifier::ext_equal]
pub struct GroupWorkspaceView {
    pub id: u64,
    pub visible_worktrees: Seq<PathView>,
}

impl View for GroupWorkspace {
    type V = GroupWorkspaceView;

    open spec fn view(&self) -> GroupWorkspaceView {
        GroupWorkspaceView { id: self.id, visible_worktrees: paths(self.visible_worktrees@) }
    }
}

/// The worktrees that the workspaces of a list show.
pub open spec fn group_paths_of(group: Seq<GroupWorkspaceView>) -> Seq<PathView>
    decreases group.len(),
{
    if group.len() == 0 {
        seq![]
    } else {
        group_paths_of(group.drop_last()) + group.last().visible_worktrees
    }
}

/// The worktrees that the workspaces of a list show.
pub fn group_paths(group: &Vec<GroupWorkspace>) -> (r: Vec<RepoPath>)
    ensures
        paths(r@) == group_paths_of(views(group@)),
{
    let mut r: Vec<RepoPath> = Vec::new();
    let ghost all = views(group@);
    let mut i: usize = 0;
    assert(paths(r@) =~= group_paths_of(all.take(0)));
    while i < group.len()
        invariant
            i <= group@.len(),
            all == views(group@),
            paths(r@) == group_paths_of(all.take(i as int)),
        decreases group@.len() - i,
    {
        let shown = &group[i].visible_worktrees;
        let ghost before = paths(r@);
        let ghost own = paths(shown@);
        assert(all.take(i + 1).drop_last() =~= all.take(i as int));
        let mut k: usize = 0;
        assert(paths(r@) =~= before + own.take(0));
        while k < shown.len()
            invariant
                k <= shown@.len(),
                own == paths(shown@),
                paths(r@) == before + own.take(k as int),
            decreases shown@.len() - k,
        {
            let path = shown[k].clone();
            assert(paths(r@.push(path)) =~= paths(r@).push(path@));
            r.push(path);
            k += 1;
            assert(paths(r@) =~= before + own.take(k as int));
        }
        assert(own.take(own.len() as int) =~= own);
        i += 1;
    }
    assert(all.take(all.len() as int) =~= all);
    r
}

impl DelegateView {
    /// The workspace, other than the picker's own, that shows a worktree which
    /// the picker's own project does not.
    pub open spec fn open_workspace(
        self,
        worktree_path: PathView,
        own: Option<u64>,
        group: Seq<GroupWorkspaceView>,
    ) -> Option<u64> {
        match own {
            Some(own) => if self.active_worktree_paths.contains(worktree_path) {
                None
            } else {
                match first_where(
                    group,
                    |workspace: GroupWorkspaceView|
                        workspace.id != own && workspace.visible_worktrees.contains(worktree_path),
                ) {
                    Some(i) => Some(group[i].id),
                    None => None,
                }
            },
            None => None,
        }
    }

    /// The workspace to remove in order to remove a worktree from the window:
    /// none while the worktree is being deleted.
    pub open spec fn workspace_to_remove(
        self,
        worktree_path: PathView,
        own: Option<u64>,
        group: Seq<GroupWorkspaceView>,
    ) -> Option<u64> {
        if self.deleting_worktree_paths.contains(worktree_path) {
            None
        } else {
            self.open_workspace(worktree_path, own, group)
        }
    }

    /// The state once the worktrees that are open in the window are looked up.
    pub open spec fn refreshed(self, group_paths: Seq<PathView>) -> DelegateView {
        DelegateView {
            project_worktree_paths: self.active_worktree_paths.union(group_paths.to_set()),
            ..self
        }
    }
}

fn holds(list: &Vec<RepoPath>, path: &RepoPath) -> (r: bool)
    ensures
        r == paths(list@).contains(path@),
{
    let mut i: usize = 0;
    while i < list.len()
        invariant
            i <= list@.len(),
            forall|j: int| 0 <= j < i ==> paths(list@)[j] != path@,
        decreases list@.len() - i,
    {
        if list[i].same(path) {
            assert(paths(list@)[i as int] == path@);
            return true;
        }
        i += 1;
    }
    false
}

impl WorktreePickerDelegate {
    /// Finds the workspace in this window (other than the picker's own
    /// workspace) that has `worktree_path` open as a visible worktree, given
    /// the picker's own workspace, where it is still there, and the workspaces
    /// of its project group.
    pub fn workspace_for_open_worktree(
        &self,
        worktree_path: &RepoPath,
        own: Option<u64>,
        group: &Vec<GroupWorkspace>,
    ) -> (r: Option<u64>)
        ensures
            r == self@.open_workspace(worktree_path@, own, views(group@)),
    {
        if self.active_worktree_paths.contains(worktree_path) {
            return None;
        }
        let own: u64 = match own {
            Some(own) => own,
            None => return None,
        };
        let ghost all = views(group@);
        let ghost wanted = |workspace: GroupWorkspaceView|
            workspace.id != own && workspace.visible_worktrees.contains(worktree_path@);
        proof {
            lemma_first_where(all, wanted);
        }
        let mut i: usize = 0;
        #[verifier::loop_isolation(false)]
        while i < group.len()
            invariant
                i <= group@.len(),
                forall|j: int| 0 <= j < i ==> !wanted(#[trigger] all[j]),
            decreases group@.len() - i,
        {
            let workspace = &group[i];
            assert(all[i as int] == workspace@);
            if workspace.id != own && holds(&workspace.visible_worktrees, worktree_path) {
                return Some(workspace.id);
            }
            i += 1;
        }
        None
    }

    /// The workspace to remove in order to remove a worktree from the window.
    /// Nothing is removed while the worktree is being deleted.
    pub fn remove_worktree_from_window(
        &self,
        worktree_path: &RepoPath,
        own: Option<u64>,
        group: &Vec<GroupWorkspace>,
    ) -> (r: Option<u64>)
        ensures
            r == self@.workspace_to_remove(worktree_path@, own, views(group@)),
    {
        if self.deleting_worktree_paths.contains(worktree_path) {
            return None;
        }
        self.workspace_for_open_worktree(worktree_path, own, group)
    }

    /// Looks up again what is open in the window once a workspace was removed,
    /// and says whether the rows are to be shown anew. A removal that did not
    /// happen changes nothing.
    pub fn finish_window_removal(&mut self, removed: bool, group: &Vec<GroupWorkspace>) -> (r: bool)
        ensures
            r == removed,
            final(self)@ == if removed {
                old(self)@.refreshed(group_paths_of(views(group@)))
            } else {
                old(self)@
            },
    {
        if removed {
            self.refresh_project_worktree_paths(&group_paths(group));
        }
        removed
    }
}

/// What is open in the picker's own project counts as open in the window.
pub proof fn active_worktrees_are_open(picker: DelegateView, group_paths: Seq<PathView>)
    ensures
        picker.active_worktree_paths.subset_of(
            picker.refreshed(group_paths).project_worktree_paths,
        ),
{
}

/// A worktree that is open in the picker's own project may not be deleted.
pub proof fn active_worktree_may_not_be_deleted(
    picker: DelegateView,
    worktree: WorktreeView,
    group_paths: Seq<PathView>,
)
    requires
        picker.active_worktree_paths.contains(worktree.path),
    ensures
        !picker.refreshed(group_paths).deletable(worktree),
{
}

/// Only a workspace of the group is removed that shows the worktree, never the
/// picker's own, and never for a worktree that is open in the picker's own
/// project or is being deleted.
pub proof fn removal_spares_the_own_workspace(
    picker: DelegateView,
    worktree_path: PathView,
    own: Option<u64>,
    group: Seq<GroupWorkspaceView>,
)
    ensures
        picker.workspace_to_remove(worktree_path, own, group) matches Some(id) ==> {
            &&& own != Some(id)
            &&& !picker.active_worktree_paths.contains(worktree_path)
            &&& !picker.deleting_worktree_paths.contains(worktree_path)
            &&& exists|i: int|
                0 <= i < group.len() && (#[trigger] group[i]).id == id
                    && group[i].visible_worktrees.contains(worktree_path)
        },
{
    if let Some(own) = own {
        lemma_first_where(
            group,
            |workspace: GroupWorkspaceView|
                workspace.id != own && workspace.visible_worktrees.contains(worktree_path),
        );
    }
}

/// A workspace is found wherever one other than the picker's own shows the
/// worktree, and the worktree is neither open in the picker's own project nor
/// being deleted.
pub proof fn removal_finds_the_other_workspace(
    picker: DelegateView,
    worktree_path: PathView,
    own: u64,
    group: Seq<GroupWorkspaceView>,
    i: int,
)
    requires
        0 <= i < group.len(),
        group[i].id != own,
        group[i].visible_worktrees.contains(worktree_path),
        !picker.active_worktree_paths.contains(worktree_path),
        !picker.deleting_worktree_paths.contains(worktree_path),
    ensures
        picker.workspace_to_remove(worktree_path, Some(own), group) is Some,
{
    lemma_first_where(
        group,
        |workspace: GroupWorkspaceView|
            workspace.id != own && workspace.visible_worktrees.contains(worktree_path),
    );
}

/// Once no workspace of the group shows a worktree any more, it no longer
/// counts as open, and unless it is the main worktree it may be deleted.
pub proof fn removed_worktree_may_be_deleted(
    picker: DelegateView,
    worktree: WorktreeView,
    group_paths: Seq<PathView>,
)
    requires
        !picker.active_worktree_paths.contains(worktree.path),
        !group_paths.contains(worktree.path),
        !worktree.is_main,
    ensures
        !picker.refreshed(group_paths).project_worktree_paths.contains(worktree.path),
        picker.refreshed(group_paths).deletable(worktree),
{
}

} // verus!
