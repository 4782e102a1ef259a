//! What confirming a row promises.

use vstd::prelude::*;

use crate::confirm::{ActionView, BranchTargetView, ConfirmContext, ConfirmationView};
use crate::model::{EntryView, RemoteBranchView, WorktreeView};
use crate::path::PathView;
use crate::picker::DelegateView;

verus! {

/// The picker with a row at the selected place.
pub open spec fn at_row(
    picker: DelegateView,
    before: Seq<EntryView>,
    entry: EntryView,
    after: Seq<EntryView>,
) -> DelegateView {
    DelegateView {
        matches: before + seq![entry] + after,
        selected_index: before.len() as int,
        ..picker
    }
}

/// Confirming the row of a worktree switches to that worktree, wherever else in
/// the window it is open; the second way to confirm opens it in a new window.
/// Only one that is being deleted, or is open in the picker's own project, is
/// not opened.
pub proof fn worktree_is_opened_unless_own_or_deleted(
    picker: DelegateView,
    before: Seq<EntryView>,
    worktree: WorktreeView,
    positions: Seq<usize>,
    repo_name: Option<Seq<char>>,
    after: Seq<EntryView>,
    context: ConfirmContext,
)
    ensures
        ({
            let row = EntryView::Worktree { worktree, positions, repo_name };
            let done = at_row(picker, before, row, after).confirms(context);
            let deleting = picker.deleting_worktree_paths.contains(worktree.path);
            let own = picker.active_worktree_paths.contains(worktree.path);
            &&& deleting ==> done == (ConfirmationView { action: None, dismiss: false })
            &&& !deleting && own ==> done == (ConfirmationView { action: None, dismiss: true })
            &&& !deleting && !own && context.secondary ==> done == (ConfirmationView {
                action: Some(ActionView::OpenInNewWindow { path: worktree.path }),
                dismiss: true,
            })
            &&& !deleting && !own && !context.secondary && context.has_workspace ==> done == (
            ConfirmationView {
                action: Some(
                    ActionView::SwitchToWorktree {
                        worktree,
                        main_worktree_path: picker.row_main_path(repo_name),
                    },
                ),
                dismiss: true,
            })
            &&& !deleting && !own && !context.secondary && !context.has_workspace ==> done == (
            ConfirmationView { action: None, dismiss: true })
        }),
{
    let row = EntryView::Worktree { worktree, positions, repo_name };
    assert(at_row(picker, before, row, after).matches[before.len() as int] == row);
}

/// Whether a row creates a worktree from a branch, and under which name, and
/// can be blocked.
pub open spec fn creates(entry: EntryView) -> Option<(Option<Seq<char>>, BranchTargetView)> {
    match entry {
        EntryView::CreateFromCurrentBranch => Some((None, BranchTargetView::CurrentBranch)),
        EntryView::CreateFromDefaultBranch { default_branch } => Some(
            (
                None,
                BranchTargetView::RemoteBranch {
                    remote_name: default_branch.remote_name,
                    branch_name: default_branch.branch_name,
                },
            ),
        ),
        EntryView::CreateFromExistingBranch { branch_name } => Some(
            (None, BranchTargetView::ExistingBranch { name: branch_name }),
        ),
        EntryView::CreateNewBranch { name } => Some(
            (
                Some(
                    Seq::new(
                        name.len(),
                        |i: int|
                            if name[i] == '/' {
                                '-'
                            } else {
                                name[i]
                            },
                    ),
                ),
                BranchTargetView::NewBranch { name },
            ),
        ),
        _ => None,
    }
}

/// Confirming a row that offers a branch creates a worktree from that very
/// branch, and closes the picker; where creation is blocked it does nothing.
pub proof fn offered_branch_gets_its_worktree(
    picker: DelegateView,
    before: Seq<EntryView>,
    row: EntryView,
    after: Seq<EntryView>,
    context: ConfirmContext,
)
    requires
        creates(row) is Some,
    ensures
        ({
            let (worktree_name, branch_target) = creates(row)->0;
            let done = at_row(picker, before, row, after).confirms(context);
            &&& context.creation_blocked ==> done == (ConfirmationView {
                action: None,
                dismiss: false,
            })
            &&& !context.creation_blocked ==> {
                &&& done.dismiss
                &&& context.has_workspace ==> done.action == Some(
                    ActionView::CreateWorktree { worktree_name, branch_target },
                )
                &&& !context.has_workspace ==> done.action is None
            }
        }),
{
    assert(at_row(picker, before, row, after).matches[before.len() as int] == row);
    if let EntryView::CreateNewBranch { name } = row {
        assert(crate::text::replaced(name, '/', '-') =~= Seq::new(
            name.len(),
            |i: int|
                if name[i] == '/' {
                    '-'
                } else {
                    name[i]
                },
        ));
    }
}

/// Confirming the creation of a worktree of a name creates it under that name,
/// from its branch, or else from the current one, and closes the picker, unless
/// there is a reason against it.
pub proof fn named_worktree_is_created(
    picker: DelegateView,
    before: Seq<EntryView>,
    name: Seq<char>,
    from_branch: Option<RemoteBranchView>,
    disabled_reason: Option<Seq<char>>,
    after: Seq<EntryView>,
    context: ConfirmContext,
)
    ensures
        ({
            let row = EntryView::CreateNamed { name, from_branch, disabled_reason };
            let done = at_row(picker, before, row, after).confirms(context);
            &&& disabled_reason is Some ==> done == (ConfirmationView {
                action: None,
                dismiss: false,
            })
            &&& disabled_reason is None ==> done.dismiss
            &&& disabled_reason is None && !context.has_workspace ==> done.action is None
            &&& disabled_reason is None && context.has_workspace && from_branch is None
                ==> done.action == Some(
                ActionView::CreateWorktree {
                    worktree_name: Some(name),
                    branch_target: BranchTargetView::CurrentBranch,
                },
            )
            &&& disabled_reason is None && context.has_workspace && from_branch is Some
                ==> done.action == Some(
                ActionView::CreateWorktree {
                    worktree_name: Some(name),
                    branch_target: BranchTargetView::RemoteBranch {
                        remote_name: from_branch->0.remote_name,
                        branch_name: from_branch->0.branch_name,
                    },
                },
            )
        }),
{
    let row = EntryView::CreateNamed { name, from_branch, disabled_reason };
    assert(at_row(picker, before, row, after).matches[before.len() as int] == row);
}

/// Confirming a link's row switches to the worktree that it holds, and without
/// one creates a worktree from the branch at `origin`, unless that is blocked;
/// without a workspace it does nothing.
pub proof fn link_row_leads_to_its_branch(
    picker: DelegateView,
    before: Seq<EntryView>,
    branch: Seq<char>,
    path: PathView,
    after: Seq<EntryView>,
    context: ConfirmContext,
)
    ensures
        ({
            let there = EntryView::CreateFromGitHubLink { branch, existing_path: Some(path) };
            let missing = EntryView::CreateFromGitHubLink { branch, existing_path: None };
            let switched = at_row(picker, before, there, after).confirms(context);
            let created = at_row(picker, before, missing, after).confirms(context);
            let nothing = ConfirmationView { action: None, dismiss: false };
            &&& !context.has_workspace ==> switched == nothing && created == nothing
            &&& context.has_workspace ==> {
                &&& switched == (ConfirmationView {
                    action: Some(ActionView::SwitchToBranch { path, display_name: branch }),
                    dismiss: true,
                })
                &&& created.dismiss
                &&& context.creation_blocked ==> created.action is None
                &&& !context.creation_blocked ==> created.action == Some(
                    ActionView::CreateWorktree {
                        worktree_name: None,
                        branch_target: BranchTargetView::RemoteBranch {
                            remote_name: "origin"@,
                            branch_name: branch,
                        },
                    },
                )
            }
        }),
{
    let there = EntryView::CreateFromGitHubLink { branch, existing_path: Some(path) };
    let missing = EntryView::CreateFromGitHubLink { branch, existing_path: None };
    assert(at_row(picker, before, there, after).matches[before.len() as int] == there);
    assert(at_row(picker, before, missing, after).matches[before.len() as int] == missing);
}

/// Confirming a separator, a header, or no row at all does nothing.
pub proof fn rows_that_show_nothing_do_nothing(
    picker: DelegateView,
    before: Seq<EntryView>,
    label: Seq<char>,
    after: Seq<EntryView>,
    context: ConfirmContext,
)
    ensures
        ({
            let nothing = ConfirmationView { action: None, dismiss: false };
            let header = EntryView::SectionHeader(label);
            &&& at_row(picker, before, EntryView::Separator, after).confirms(context) == nothing
            &&& at_row(picker, before, header, after).confirms(context) == nothing
            &&& picker.selected_index >= picker.matches.len() ==> picker.confirms(context)
                == nothing
        }),
{
    let header = EntryView::SectionHeader(label);
    let line = EntryView::Separator;
    assert(at_row(picker, before, line, after).matches[before.len() as int] == line);
    assert(at_row(picker, before, header, after).matches[before.len() as int] == header);
}

/// The button that opens a row in a new window opens its worktree, unless that
/// is being deleted; no other row has such a worktree.
pub proof fn row_opens_its_worktree_in_a_new_window(
    picker: DelegateView,
    before: Seq<EntryView>,
    row: EntryView,
    after: Seq<EntryView>,
)
    ensures
        ({
            let opened = at_row(picker, before, row, after).opens_in_new_window(
                before.len() as int,
            );
            &&& row matches EntryView::Worktree { worktree, .. }
                ==> (if picker.deleting_worktree_paths.contains(worktree.path) {
                opened is None
            } else {
                opened == Some(worktree.path)
            })
            &&& !(row is Worktree) ==> opened is None
        }),
        picker.opens_in_new_window(picker.matches.len() as int) is None,
{
    assert(at_row(picker, before, row, after).matches[before.len() as int] == row);
}

} // verus!
