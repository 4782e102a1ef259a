//! What confirming a row does.

use vstd::prelude::*;

use crate::github_link::link_branch;
use crate::matches::NamesView;
use crate::model::{
    BranchView, CreateTargetView, EntryView, GitWorktree, RemoteBranchName, RemoteBranchView,
    WorktreeEntry, WorktreeView,
};
use crate::path::{PathView, RepoPath};
use crate::picker::{search_selection, DelegateView, WorktreePickerDelegate};
use crate::search::{query_name, search_for, search_rows, worktree_on_branch};
use crate::seqs::opt_view;
use crate::shown::search_selects_the_best_row;
use crate::text;
use crate::text::replaced;

verus! {

/// What a new worktree checks out.
#[derive(Debug)]
pub enum NewWorktreeBranchTarget {
    CurrentBranch,
    RemoteBranch { remote_name: String, branch_name: String },
    ExistingBranch { name: String },
    NewBranch { name: String },
}

/// The value of what a new worktree checks out.
#[verifier::ext_equal]
pub enum BranchTargetView {
    CurrentBranch,
    RemoteBranch { remote_name: Seq<char>, branch_name: Seq<char> },
    ExistingBranch { name: Seq<char> },
    NewBranch { name: Seq<char> },
}

impl View for NewWorktreeBranchTarget {
    type V = BranchTargetView;

    open spec fn view(&self) -> BranchTargetView {
        match self {
            NewWorktreeBranchTarget::CurrentBranch => BranchTargetView::CurrentBranch,
            NewWorktreeBranchTarget::RemoteBranch { remote_name, branch_name } => {
                BranchTargetView::RemoteBranch {
                    remote_name: remote_name@,
                    branch_name: branch_name@,
                }
            },
            NewWorktreeBranchTarget::ExistingBranch { name } => {
                BranchTargetView::ExistingBranch { name: name@ }
            },
            NewWorktreeBranchTarget::NewBranch { name } => BranchTargetView::NewBranch {
                name: name@,
            },
        }
    }
}

/// What is done on a confirmed row.
#[derive(Debug)]
pub enum ConfirmAction {
    /// Create a worktree, under a name of its own or one that is made up.
    CreateWorktree { worktree_name: Option<String>, branch_target: NewWorktreeBranchTarget },
    /// Switch to the worktree of a branch, shown under the branch's name.
    SwitchToBranch { path: RepoPath, display_name: String },
    /// Switch to a worktree, shown under its directory name as seen from the
    /// main worktree.
    SwitchToWorktree { worktree: GitWorktree, main_worktree_path: Option<RepoPath> },
    /// Open a worktree in a new window.
    OpenInNewWindow { path: RepoPath },
}

/// The value of what is done on a confirmed row.
#[verifier::ext_equal]
pub enum ActionView {
    CreateWorktree { worktree_name: Option<Seq<char>>, branch_target: BranchTargetView },
    SwitchToBranch { path: PathView, display_name: Seq<char> },
    SwitchToWorktree { worktree: WorktreeView, main_worktree_path: Option<PathView> },
    OpenInNewWindow { path: PathView },
}

impl View for ConfirmAction {
    type V = ActionView;

    open spec fn view(&self) -> ActionView {
        match self {
            ConfirmAction::CreateWorktree { worktree_name, branch_target } => {
                ActionView::CreateWorktree {
                    worktree_name: opt_view(*worktree_name),
                    branch_target: branch_target@,
                }
            },
            ConfirmAction::SwitchToBranch { path, display_name } => ActionView::SwitchToBranch {
                path: path@,
                display_name: display_name@,
            },
            ConfirmAction::SwitchToWorktree { worktree, main_worktree_path } => {
                ActionView::SwitchToWorktree {
                    worktree: worktree@,
                    main_worktree_path: opt_view(*main_worktree_path),
                }
            },
            ConfirmAction::OpenInNewWindow { path } => ActionView::OpenInNewWindow { path: path@ },
        }
    }
}

/// What confirming a row comes to.
#[derive(Debug)]
pub struct Confirmation {
    pub action: Option<ConfirmAction>,
    /// Whether the picker closes.
    pub dismiss: bool,
}

/// The value of what confirming a row comes to.
#[verifier::ext_equal]
pub struct ConfirmationView {
    pub action: Option<ActionView>,
    pub dismiss: bool,
}

impl View for Confirmation {
    type V = ConfirmationView;

    open spec fn view(&self) -> ConfirmationView {
        ConfirmationView { action: opt_view(self.action), dismiss: self.dismiss }
    }
}

/// What the picker's surroundings are like when a row is confirmed.
#[derive(Debug, Clone, Copy)]
pub struct ConfirmContext {
    /// Whether the second of the two ways to confirm was used.
    pub secondary: bool,
    /// Whether no worktree can be created.
    pub creation_blocked: bool,
    /// Whether the workspace that the picker belongs to is still there.
    pub has_workspace: bool,
}

/// Nothing happens.
pub open spec fn nothing() -> ConfirmationView {
    ConfirmationView { action: None, dismiss: false }
}

/// The picker closes, with an action that needs the workspace.
pub open spec fn in_workspace(action: ActionView, context: ConfirmContext) -> ConfirmationView {
    ConfirmationView {
        action: if context.has_workspace {
            Some(action)
        } else {
            None
        },
        dismiss: true,
    }
}

/// The picker closes, with a worktree created, unless that is blocked.
pub open spec fn creation(
    worktree_name: Option<Seq<char>>,
    branch_target: BranchTargetView,
    context: ConfirmContext,
) -> ConfirmationView {
    if context.creation_blocked {
        nothing()
    } else {
        in_workspace(ActionView::CreateWorktree { worktree_name, branch_target }, context)
    }
}

/// The target that a branch of a remote makes.
pub open spec fn remote_target(branch: RemoteBranchView) -> BranchTargetView {
    BranchTargetView::RemoteBranch {
        remote_name: branch.remote_name,
        branch_name: branch.branch_name,
    }
}

impl DelegateView {
    /// What confirming the row of a worktree comes to: nothing while the
    /// worktree is being deleted, the picker's closing alone where it is
    /// already open in the project.
    pub open spec fn confirms_worktree(
        self,
        worktree: WorktreeView,
        repo_name: Option<Seq<char>>,
        context: ConfirmContext,
    ) -> ConfirmationView {
        if self.deleting_worktree_paths.contains(worktree.path) {
            nothing()
        } else if self.active_worktree_paths.contains(worktree.path) {
            ConfirmationView { action: None, dismiss: true }
        } else if context.secondary {
            ConfirmationView {
                action: Some(ActionView::OpenInNewWindow { path: worktree.path }),
                dismiss: true,
            }
        } else {
            in_workspace(
                ActionView::SwitchToWorktree {
                    worktree,
                    main_worktree_path: self.row_main_path(repo_name),
                },
                context,
            )
        }
    }

    /// What confirming a row comes to.
    pub open spec fn confirms_entry(
        self,
        entry: EntryView,
        context: ConfirmContext,
    ) -> ConfirmationView {
        match entry {
            EntryView::Separator => nothing(),
            EntryView::SectionHeader(_) => nothing(),
            EntryView::CreateFromCurrentBranch => creation(
                None,
                BranchTargetView::CurrentBranch,
                context,
            ),
            EntryView::CreateFromDefaultBranch { default_branch } => creation(
                None,
                remote_target(default_branch),
                context,
            ),
            EntryView::CreateFromGitHubLink { branch, existing_path } => {
                if !context.has_workspace {
                    nothing()
                } else {
                    match existing_path {
                        Some(path) => in_workspace(
                            ActionView::SwitchToBranch { path, display_name: branch },
                            context,
                        ),
                        None => ConfirmationView {
                            dismiss: true,
                            ..creation(
                                None,
                                BranchTargetView::RemoteBranch {
                                    remote_name: "origin"@,
                                    branch_name: branch,
                                },
                                context,
                            )
                        },
                    }
                }
            },
            EntryView::CreateFromExistingBranch { branch_name } => creation(
                None,
                BranchTargetView::ExistingBranch { name: branch_name },
                context,
            ),
            EntryView::CreateNewBranch { name } => creation(
                Some(replaced(name, '/', '-')),
                BranchTargetView::NewBranch { name },
                context,
            ),
            EntryView::Worktree { worktree, positions: _, repo_name } => self.confirms_worktree(
                worktree,
                repo_name,
                context,
            ),
            EntryView::CreateNamed { name, from_branch, disabled_reason } => {
                if disabled_reason is Some {
                    nothing()
                } else {
                    in_workspace(
                        ActionView::CreateWorktree {
                            worktree_name: Some(name),
                            branch_target: match from_branch {
                                Some(branch) => remote_target(branch),
                                None => BranchTargetView::CurrentBranch,
                            },
                        },
                        context,
                    )
                }
            },
        }
    }

    /// What confirming the selected row comes to.
    pub open spec fn confirms(self, context: ConfirmContext) -> ConfirmationView {
        if 0 <= self.selected_index < self.matches.len() {
            self.confirms_entry(self.matches[self.selected_index], context)
        } else {
            nothing()
        }
    }

    /// The path that the open button of a row opens in a new window.
    pub open spec fn opens_in_new_window(self, ix: int) -> Option<PathView> {
        if 0 <= ix < self.matches.len() {
            match self.matches[ix] {
                EntryView::Worktree { worktree, .. } => if self.deleting_worktree_paths.contains(
                    worktree.path,
                ) {
                    None
                } else {
                    Some(worktree.path)
                },
                _ => None,
            }
        } else {
            None
        }
    }
}

fn nothing_done() -> (r: Confirmation)
    ensures
        r@ == nothing(),
{
    Confirmation { action: None, dismiss: false }
}

fn done_in_workspace(action: ConfirmAction, context: ConfirmContext) -> (r: Confirmation)
    ensures
        r@ == in_workspace(action@, context),
{
    Confirmation {
        action: if context.has_workspace {
            Some(action)
        } else {
            None
        },
        dismiss: true,
    }
}

fn create(
    worktree_name: Option<String>,
    branch_target: NewWorktreeBranchTarget,
    context: ConfirmContext,
) -> (r: Confirmation)
    ensures
        r@ == creation(opt_view(worktree_name), branch_target@, context),
{
    if context.creation_blocked {
        nothing_done()
    } else {
        done_in_workspace(ConfirmAction::CreateWorktree { worktree_name, branch_target }, context)
    }
}

fn target_of(branch: &RemoteBranchName) -> (r: NewWorktreeBranchTarget)
    ensures
        r@ == remote_target(branch@),
{
    NewWorktreeBranchTarget::RemoteBranch {
        remote_name: branch.remote_name.clone(),
        branch_name: branch.branch_name.clone(),
    }
}

impl WorktreePickerDelegate {
    fn confirm_worktree(
        &self,
        worktree: &GitWorktree,
        repo_name: &Option<String>,
        context: ConfirmContext,
    ) -> (r: Confirmation)
        ensures
            r@ == self@.confirms_worktree(worktree@, opt_view(*repo_name), context),
    {
        if self.deleting_worktree_paths.contains(&worktree.path) {
            nothing_done()
        } else if self.active_worktree_paths.contains(&worktree.path) {
            Confirmation { action: None, dismiss: true }
        } else if context.secondary {
            Confirmation {
                action: Some(ConfirmAction::OpenInNewWindow { path: worktree.path.clone() }),
                dismiss: true,
            }
        } else {
            done_in_workspace(
                ConfirmAction::SwitchToWorktree {
                    worktree: worktree.clone(),
                    main_worktree_path: self.row_main_worktree_path(repo_name),
                },
                context,
            )
        }
    }

    fn confirm_entry(&self, entry: &WorktreeEntry, context: ConfirmContext) -> (r: Confirmation)
        ensures
            r@ == self@.confirms_entry(entry@, context),
    {
        match entry {
            WorktreeEntry::Separator => nothing_done(),
            WorktreeEntry::SectionHeader(_) => nothing_done(),
            WorktreeEntry::CreateFromCurrentBranch => create(
                None,
                NewWorktreeBranchTarget::CurrentBranch,
                context,
            ),
            WorktreeEntry::CreateFromDefaultBranch { default_branch } => create(
                None,
                target_of(default_branch),
                context,
            ),
            WorktreeEntry::CreateFromGitHubLink { branch, existing_path } => {
                if !context.has_workspace {
                    nothing_done()
                } else {
                    match existing_path {
                        Some(path) => done_in_workspace(
                            ConfirmAction::SwitchToBranch {
                                path: path.clone(),
                                display_name: branch.clone(),
                            },
                            context,
                        ),
                        None => {
                            let created = create(
                                None,
                                NewWorktreeBranchTarget::RemoteBranch {
                                    remote_name: "origin".to_owned(),
                                    branch_name: branch.clone(),
                                },
                                context,
                            );
                            Confirmation { action: created.action, dismiss: true }
                        },
                    }
                }
            },
            WorktreeEntry::CreateFromExistingBranch { branch_name } => create(
                None,
                NewWorktreeBranchTarget::ExistingBranch { name: branch_name.clone() },
                context,
            ),
            WorktreeEntry::CreateNewBranch { name } => create(
                Some(text::replace(name.as_str(), '/', '-')),
                NewWorktreeBranchTarget::NewBranch { name: name.clone() },
                context,
            ),
            WorktreeEntry::Worktree { worktree, positions: _, repo_name } => {
                self.confirm_worktree(worktree, repo_name, context)
            },
            WorktreeEntry::CreateNamed { name, from_branch, disabled_reason } => {
                if disabled_reason.is_some() {
                    nothing_done()
                } else {
                    done_in_workspace(
                        ConfirmAction::CreateWorktree {
                            worktree_name: Some(name.clone()),
                            branch_target: match from_branch {
                                Some(branch) => target_of(branch),
                                None => NewWorktreeBranchTarget::CurrentBranch,
                            },
                        },
                        context,
                    )
                }
            },
        }
    }

    /// What confirming the selected row comes to.
    pub fn confirm(&self, context: ConfirmContext) -> (r: Confirmation)
        ensures
            r@ == self@.confirms(context),
    {
        if self.selected_index < self.matches.len() {
            let ghost at = self.selected_index as int;
            assert(self@.matches[at] == self.matches@[at]@);
            self.confirm_entry(&self.matches[self.selected_index], context)
        } else {
            nothing_done()
        }
    }

    /// The path that the open button of a row opens in a new window.
    pub fn open_in_new_window(&self, ix: usize) -> (r: Option<RepoPath>)
        ensures
            opt_view(r) == self@.opens_in_new_window(ix as int),
    {
        if ix >= self.matches.len() {
            return None;
        }
        assert(self@.matches[ix as int] == self.matches@[ix as int]@);
        match &self.matches[ix] {
            WorktreeEntry::Worktree { worktree, .. } => {
                if self.deleting_worktree_paths.contains(&worktree.path) {
                    None
                } else {
                    Some(worktree.path.clone())
                }
            },
            _ => None,
        }
    }
}

/// Confirming a worktree that is being deleted does nothing, in either way and
/// whatever the surroundings: the picker stays.
pub proof fn deleting_worktree_cannot_be_opened(picker: DelegateView, context: ConfirmContext)
    requires
        0 <= picker.selected_index < picker.matches.len(),
        picker.matches[picker.selected_index] matches EntryView::Worktree { worktree, .. }
            && picker.deleting_worktree_paths.contains(worktree.path),
    ensures
        picker.confirms(context) == nothing(),
        picker.opens_in_new_window(picker.selected_index) is None,
{
}

/// Where creation is blocked, confirming creates a worktree only from a row
/// that names one and is not disabled.
pub proof fn blocked_creation_creates_only_named(picker: DelegateView, context: ConfirmContext)
    requires
        context.creation_blocked,
        picker.confirms(context).action matches Some(action) && action is CreateWorktree,
    ensures
        0 <= picker.selected_index < picker.matches.len(),
        picker.matches[picker.selected_index] is CreateNamed,
        picker.matches[picker.selected_index]->disabled_reason is None,
{
}

/// A row that cannot be selected does nothing when confirmed.
pub proof fn separators_do_nothing(picker: DelegateView, context: ConfirmContext)
    requires
        0 <= picker.selected_index < picker.matches.len(),
        picker.matches[picker.selected_index] is Separator
            || picker.matches[picker.selected_index] is SectionHeader,
    ensures
        picker.confirms(context) == nothing(),
{
}

/// An action always closes the picker.
pub proof fn actions_dismiss(picker: DelegateView, context: ConfirmContext)
    requires
        picker.confirms(context).action is Some,
    ensures
        picker.confirms(context).dismiss,
{
}

/// A link to a branch jumps straight to that branch: confirming switches to a
/// worktree that has it checked out, and where there is none creates one from
/// the branch of that name at `origin`.
pub proof fn link_jumps_to_its_branch(
    picker: DelegateView,
    query: Seq<char>,
    targets: Seq<CreateTargetView>,
    names: NamesView,
    context: ConfirmContext,
)
    requires
        query.len() > 0,
        link_branch(query) is Some,
        context.has_workspace,
        !context.creation_blocked,
    ensures
        ({
            let branch = link_branch(query)->0;
            picker.shows(query, targets, names).confirms(context) == (ConfirmationView {
                action: Some(
                    match worktree_on_branch(picker.all_worktrees, branch) {
                        Some(path) => ActionView::SwitchToBranch { path, display_name: branch },
                        None => ActionView::CreateWorktree {
                            worktree_name: None,
                            branch_target: BranchTargetView::RemoteBranch {
                                remote_name: "origin"@,
                                branch_name: branch,
                            },
                        },
                    },
                ),
                dismiss: true,
            })
        }),
{
}

/// Confirming a query that finds no worktree creates one of the query's name,
/// from the default branch where that is known; but nothing happens where the
/// project has several repositories, or a worktree of that name.
pub proof fn unfound_query_creates_its_worktree(
    picker: DelegateView,
    query: Seq<char>,
    names: NamesView,
    branch_list: Seq<BranchView>,
    context: ConfirmContext,
)
    requires
        context.has_workspace,
    ensures
        ({
            let search = search_for(picker, query, names, branch_list);
            let rows = search_rows(search, seq![]);
            let after = DelegateView {
                matches: rows,
                selected_index: search_selection(rows),
                ..picker
            };
            after.confirms(context) == if picker.has_multiple_repositories
                || names.worktrees.contains(query_name(query)) {
                nothing()
            } else {
                ConfirmationView {
                    action: Some(
                        ActionView::CreateWorktree {
                            worktree_name: Some(query_name(query)),
                            branch_target: match picker.default_branch {
                                Some(branch) => remote_target(branch),
                                None => BranchTargetView::CurrentBranch,
                            },
                        },
                    ),
                    dismiss: true,
                }
            }
        }),
{
    search_selects_the_best_row(search_for(picker, query, names, branch_list), seq![]);
}

} // verus!
