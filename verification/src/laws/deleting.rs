//! What deleting a worktree promises.

use vstd::prelude::*;

use crate::deletion::{
    deletion_step, shows_path, DeletionActionView, DeletionEventView, DeletionStage, DeletionView,
    RequestView,
};
use crate::laws::rows::lemma_filter_one;
use crate::laws::text::split_is_at_the_first_place;
use crate::model::{EntryView, WorktreeView};
use crate::path::PathView;
use crate::picker::DelegateView;
use crate::prompts::{
    dirty_worktree_question, force_delete_prompts, question_for, removal_question, remove_command,
    PromptView,
};
use crate::seqs::lemma_first_where;
use crate::text::{first_occurrence, lowercase};

verus! {

/// Whether a row is that of the worktree at a path.
pub open spec fn is_row_of(entry: EntryView, path: PathView) -> bool {
    entry matches EntryView::Worktree { worktree, .. } && worktree.path == path
}

/// Once git removed the worktree at a path, every other row is still shown, in
/// the order it had, and every other worktree is still listed; rows and
/// worktrees at that path are gone, and nothing else.
pub proof fn removal_takes_that_worktree_alone(
    picker: DelegateView,
    deletion: DeletionView,
    before: Seq<EntryView>,
    row: EntryView,
    after: Seq<EntryView>,
)
    requires
        deletion.stage is Removing || deletion.stage is Retrying,
        picker.matches == before + seq![row] + after,
    ensures
        ({
            let path = deletion.path;
            let keep = |entry: EntryView| !is_row_of(entry, path);
            let now = deletion_step(picker, deletion, DeletionEventView::Removed).0;
            &&& now.matches == before.filter(keep) + (if is_row_of(row, path) {
                seq![]
            } else {
                seq![row]
            }) + after.filter(keep)
            &&& now.all_worktrees == picker.all_worktrees.filter(
                |worktree: WorktreeView| worktree.path != path,
            )
        }),
{
    let path = deletion.path;
    let keep = |entry: EntryView| !is_row_of(entry, path);
    let kept = |entry: EntryView| !shows_path(entry, path);
    assert(keep =~= kept);
    Seq::filter_distributes_over_add(before + seq![row], after, keep);
    Seq::filter_distributes_over_add(before, seq![row], keep);
    lemma_filter_one(row, keep);
}

/// A removal changes the number of rows by that of the rows of its worktree,
/// and shows every other row.
pub proof fn removal_keeps_every_other_row(picker: DelegateView, deletion: DeletionView, i: int)
    requires
        deletion.stage is Removing || deletion.stage is Retrying,
        0 <= i < picker.matches.len(),
        !is_row_of(picker.matches[i], deletion.path),
    ensures
        ({
            let now = deletion_step(picker, deletion, DeletionEventView::Removed).0;
            let gone = picker.matches.filter(
                |entry: EntryView| is_row_of(entry, deletion.path),
            );
            &&& now.matches.contains(picker.matches[i])
            &&& now.matches.len() + gone.len() == picker.matches.len()
        }),
{
    let path = deletion.path;
    let keep = |entry: EntryView| !is_row_of(entry, path);
    let kept = |entry: EntryView| !shows_path(entry, path);
    let gone = |entry: EntryView| is_row_of(entry, path);
    assert(keep =~= kept);
    picker.matches.lemma_filter_contains(keep, i);
    lemma_filter_parts(picker.matches, keep, gone);
}

proof fn lemma_filter_parts<T>(s: Seq<T>, p: spec_fn(T) -> bool, q: spec_fn(T) -> bool)
    requires
        forall|x: T| #[trigger] p(x) == !q(x),
    ensures
        s.filter(p).len() + s.filter(q).len() == s.len(),
    decreases s.len(),
{
    reveal(Seq::filter);
    if s.len() > 0 {
        lemma_filter_parts(s.drop_last(), p, q);
        assert(p(s.last()) == !q(s.last()));
    }
}

/// A removal keeps the selection where that is a row, moves it to the last row
/// where it is behind that, clears the pointer's button and the mark, and
/// changes nothing else.
pub proof fn removal_leaves_the_rest(picker: DelegateView, deletion: DeletionView)
    requires
        picker.selected_index >= 0,
        deletion.stage is Removing || deletion.stage is Retrying,
    ensures
        ({
            let (now, next, action) = deletion_step(picker, deletion, DeletionEventView::Removed);
            let count = now.matches.len() as int;
            &&& now == (DelegateView {
                matches: now.matches,
                all_worktrees: now.all_worktrees,
                selected_index: if picker.selected_index < count {
                    picker.selected_index
                } else if count > 0 {
                    count - 1
                } else {
                    0
                },
                hovered_delete_index: None,
                deleting_worktree_paths: picker.deleting_worktree_paths.remove(deletion.path),
                ..picker
            })
            &&& next == (DeletionView { stage: DeletionStage::Finished, ..deletion })
            &&& action is Finish
        }),
{
}

/// Deleting a row starts, given a repository, exactly where the row is that of
/// a worktree which is not the main one, not open in the window, and not being
/// deleted already.
pub proof fn deletion_starts_where_it_may(
    picker: DelegateView,
    before: Seq<EntryView>,
    row: EntryView,
    after: Seq<EntryView>,
    force: bool,
)
    requires
        picker.matches == before + seq![row] + after,
        before.len() <= usize::MAX,
    ensures
        ({
            let ix = before.len() as int;
            let request = picker.deletion_request(ix, force, true);
            let begun = picker.deletion_begun(ix, true);
            &&& picker.deletion_request(ix, force, false) is None
            &&& picker.deletion_begun(ix, false) == picker
            &&& !(row is Worktree) ==> request is None && begun == picker
            &&& row matches EntryView::Worktree { worktree, .. } ==> {
                let may = !worktree.is_main && !picker.project_worktree_paths.contains(
                    worktree.path,
                ) && !picker.deleting_worktree_paths.contains(worktree.path);
                &&& !may ==> request is None && begun == picker
                &&& may ==> {
                    &&& request == Some(
                        RequestView {
                            worktree,
                            main_worktree_path: picker.row_main_path(None),
                            force,
                        },
                    )
                    &&& begun == (DelegateView {
                        deleting_worktree_paths: picker.deleting_worktree_paths.insert(
                            worktree.path,
                        ),
                        hovered_delete_index: if picker.hovered_delete_index == Some(ix as usize) {
                            None
                        } else {
                            picker.hovered_delete_index
                        },
                        ..picker
                    })
                }
            }
        }),
{
    assert(picker.matches[before.len() as int] == row);
}

/// No deletion starts where there is no row.
pub proof fn no_row_no_deletion(picker: DelegateView, ix: int, force: bool, has_repository: bool)
    requires
        ix >= picker.matches.len(),
    ensures
        picker.deletion_request(ix, force, has_repository) is None,
        picker.deletion_begun(ix, has_repository) == picker,
{
}

/// Whether a text stands in another.
pub open spec fn stands_in(part: Seq<char>, s: Seq<char>) -> bool {
    exists|x: Seq<char>, y: Seq<char>| s == #[trigger] (x + part + y)
}

/// Whether git refused because the worktree holds work: its message, whatever
/// its case, says both that there are modified or untracked files and that
/// force helps.
pub open spec fn is_refusal(message: Seq<char>) -> bool {
    &&& stands_in("contains modified or untracked files"@, lowercase(message))
    &&& stands_in("use --force to delete it"@, lowercase(message))
}

/// A message leads to the question exactly if it is a refusal of a worktree
/// that holds work; the question names the worktree.
pub proof fn refusals_lead_to_the_question(message: Seq<char>, display_name: Seq<char>)
    ensures
        removal_question(message, display_name) == if is_refusal(message) {
            Some(
                "Worktree \""@ + display_name
                    + "\" contains modified or untracked files. Force delete it?"@,
            )
        } else {
            None
        },
        removal_question(message, display_name) == question_for(lowercase(message), display_name),
        dirty_worktree_question(display_name) == "Worktree \""@ + display_name
            + "\" contains modified or untracked files. Force delete it?"@,
{
    let low = lowercase(message);
    split_is_at_the_first_place(low, "contains modified or untracked files"@);
    split_is_at_the_first_place(low, "use --force to delete it"@);
    let prompts = force_delete_prompts();
    lemma_first_where(prompts, |prompt: PromptView| prompt.covers(low));
    let required = prompts[0].required_error_substrings;
    assert(required.len() == 2);
    assert(required[0] == "contains modified or untracked files"@);
    assert(required[1] == "use --force to delete it"@);
    assert(prompts[0].covers(low) <==> is_refusal(message));
}

/// The command that is shown names the path, and the force.
pub proof fn removal_command_names_the_path(path: Seq<char>)
    ensures
        remove_command(path, false) == "worktree remove "@ + path,
        remove_command(path, true) == "worktree remove --force "@ + path,
{
}

/// A first refusal without force asks the user; any other failure of the first
/// attempt, or of the second, is reported. Either way the mark goes, and
/// nothing else changes.
pub proof fn failures_ask_or_report(
    picker: DelegateView,
    deletion: DeletionView,
    message: Seq<char>,
)
    ensures
        ({
            let event = DeletionEventView::Failed { message };
            let (now, next, action) = deletion_step(picker, deletion, event);
            let unmarked = DelegateView {
                deleting_worktree_paths: picker.deleting_worktree_paths.remove(deletion.path),
                ..picker
            };
            &&& deletion.stage is Removing && !deletion.force && is_refusal(message) ==> {
                &&& now == unmarked
                &&& next == (DeletionView { stage: DeletionStage::Confirming, ..deletion })
                &&& action == (DeletionActionView::Prompt {
                    message: dirty_worktree_question(deletion.display_name),
                })
            }
            &&& deletion.stage is Removing && (deletion.force || !is_refusal(message)) ==> {
                &&& now == unmarked
                &&& next == (DeletionView { stage: DeletionStage::Finished, ..deletion })
                &&& action == (DeletionActionView::Report { attempted_force: deletion.force })
            }
            &&& deletion.stage is Retrying ==> {
                &&& now == unmarked
                &&& next == (DeletionView { stage: DeletionStage::Finished, ..deletion })
                &&& action == (DeletionActionView::Report { attempted_force: true })
            }
        }),
{
    refusals_lead_to_the_question(message, deletion.display_name);
}

/// A request to git that was dropped takes the mark away and hands its error on.
pub proof fn dropped_requests_are_handed_on(picker: DelegateView, deletion: DeletionView)
    requires
        deletion.stage is Removing || deletion.stage is Retrying,
    ensures
        deletion_step(picker, deletion, DeletionEventView::Cancelled) == (
            (DelegateView {
                deleting_worktree_paths: picker.deleting_worktree_paths.remove(deletion.path),
                ..picker
            }),
            (DeletionView { stage: DeletionStage::Finished, ..deletion }),
            DeletionActionView::Propagate,
        ),
{
}

/// A yes asks git again, with force, and marks the worktree, where that is
/// still listed and not being deleted; otherwise, and after a no, the deletion
/// is over and nothing changes.
pub proof fn answers_retry_or_end(picker: DelegateView, deletion: DeletionView, i: int)
    requires
        deletion.stage is Confirming,
    ensures
        ({
            let yes = deletion_step(
                picker,
                deletion,
                DeletionEventView::Answered { force_delete: true },
            );
            let no = deletion_step(
                picker,
                deletion,
                DeletionEventView::Answered { force_delete: false },
            );
            let over = (
                picker,
                DeletionView { stage: DeletionStage::Finished, ..deletion },
                DeletionActionView::Finish,
            );
            let again = (
                DelegateView {
                    deleting_worktree_paths: picker.deleting_worktree_paths.insert(deletion.path),
                    ..picker
                },
                DeletionView { stage: DeletionStage::Retrying, ..deletion },
                DeletionActionView::Remove { force: true },
            );
            &&& no == over
            &&& picker.deleting_worktree_paths.contains(deletion.path) ==> yes == over
            &&& !picker.deleting_worktree_paths.contains(deletion.path) && 0 <= i
                < picker.all_worktrees.len() && picker.all_worktrees[i].path == deletion.path
                ==> yes == again
            &&& (forall|k: int|
                0 <= k < picker.all_worktrees.len() ==> (#[trigger] picker.all_worktrees[k]).path
                    != deletion.path) ==> yes == over
        }),
{
}

/// An event that a deletion does not wait for is ignored.
pub proof fn unawaited_events_are_ignored(
    picker: DelegateView,
    deletion: DeletionView,
    event: DeletionEventView,
)
    requires
        deletion.stage is Finished || (deletion.stage is Confirming) != (event is Answered),
    ensures
        deletion_step(picker, deletion, event) == (picker, deletion, DeletionActionView::Ignore),
{
}

/// A message is of an error exactly if each of the error's texts stands in it.
pub proof fn messages_are_told_by_their_texts(prompt: PromptView, message: Seq<char>)
    ensures
        prompt.covers(message) <==> forall|i: int|
            0 <= i < prompt.required_error_substrings.len() ==> stands_in(
                #[trigger] prompt.required_error_substrings[i],
                message,
            ),
{
    assert forall|i: int| 0 <= i < prompt.required_error_substrings.len() implies (
    first_occurrence(
        message,
        #[trigger] prompt.required_error_substrings[i],
    ) is Some <==> stands_in(prompt.required_error_substrings[i], message)) by {
        split_is_at_the_first_place(message, prompt.required_error_substrings[i]);
    }
}

/// There is one error that leads to a question, told by two texts.
pub proof fn one_error_leads_to_a_question()
    ensures
        force_delete_prompts().len() == 1,
        force_delete_prompts()[0].required_error_substrings == seq![
            "contains modified or untracked files"@,
            "use --force to delete it"@,
        ],
{
}

} // verus!
