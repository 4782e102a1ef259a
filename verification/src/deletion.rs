//! Deleting worktrees, step by step.
//!
//! A deletion first asks git to remove the worktree. Where git refuses because
//! the worktree holds work, the user is asked, and git is asked again with
//! force. The worktree is marked as being deleted while git is at work on it.

use vstd::prelude::*;

use crate::model::{EntryView, GitWorktree, WorktreeEntry, WorktreeView};
use crate::path::{PathView, RepoPath};
use crate::picker::{main_path_of, DelegateView, WorktreePickerDelegate};
use crate::prompts::{force_delete_prompt_for_message, is_message_of, removal_question};
use crate::seqs::{lemma_filter_step, lemma_views_push, opt_view, views};

verus! {

/// A worktree that is to be deleted, before it has a name to be shown by.
#[derive(Debug)]
pub struct DeletionRequest {
    pub worktree: GitWorktree,
    /// The path that its directory name is relative to.
    pub main_worktree_path: Option<RepoPath>,
    pub force: bool,
}

/// The value of a request.
#[verifier::ext_equal]
pub struct RequestView {
    pub worktree: WorktreeView,
    pub main_worktree_path: Option<PathView>,
    pub force: bool,
}

impl View for DeletionRequest {
    type V = RequestView;

    open spec fn view(&self) -> RequestView {
        RequestView {
            worktree: self.worktree@,
            main_worktree_path: opt_view(self.main_worktree_path),
            force: self.force,
        }
    }
}

/// How far a deletion is.
#[derive(Debug, Clone, Copy)]
pub enum DeletionStage {
    /// Git was asked to remove the worktree.
    Removing,
    /// The user was asked whether to use force.
    Confirming,
    /// Git was asked again, with force.
    Retrying,
    Finished,
}

/// A deletion under way.
#[derive(Debug)]
pub struct Deletion {
    pub path: RepoPath,
    pub display_name: String,
    pub force: bool,
    pub stage: DeletionStage,
}

/// The value of a deletion.
#[verifier::ext_equal]
pub struct DeletionView {
    pub path: PathView,
    pub display_name: Seq<char>,
    pub force: bool,
    pub stage: DeletionStage,
}

impl View for Deletion {
    type V = DeletionView;

    open spec fn view(&self) -> DeletionView {
        DeletionView {
            path: self.path@,
            display_name: self.display_name@,
            force: self.force,
            stage: self.stage,
        }
    }
}

impl DeletionView {
    /// Whether git is at work.
    pub open spec fn is_running(self) -> bool {
        self.stage is Removing || self.stage is Retrying
    }
}

/// What happens to a deletion.
#[derive(Debug)]
pub enum DeletionEvent {
    /// Git removed the worktree.
    Removed,
    /// Git refused, with a message.
    Failed { message: String },
    /// The request to git was dropped.
    Cancelled,
    /// The user answered whether to use force.
    Answered { force_delete: bool },
}

/// The value of an event.
#[verifier::ext_equal]
pub enum DeletionEventView {
    Removed,
    Failed { message: Seq<char> },
    Cancelled,
    Answered { force_delete: bool },
}

impl View for DeletionEvent {
    type V = DeletionEventView;

    open spec fn view(&self) -> DeletionEventView {
        match self {
            DeletionEvent::Removed => DeletionEventView::Removed,
            DeletionEvent::Failed { message } => DeletionEventView::Failed { message: message@ },
            DeletionEvent::Cancelled => DeletionEventView::Cancelled,
            DeletionEvent::Answered { force_delete } => DeletionEventView::Answered {
                force_delete: *force_delete,
            },
        }
    }
}

/// What a deletion needs next.
#[derive(Debug)]
pub enum DeletionAction {
    /// Nothing: the event was not one that the deletion waits for.
    Ignore,
    /// Ask git to remove the worktree.
    Remove { force: bool },
    /// Ask the user.
    Prompt { message: String },
    /// Show the error of git's last answer, under the command that failed.
    Report { attempted_force: bool },
    /// Hand on the error of the dropped request.
    Propagate,
    /// Nothing more.
    Finish,
}

/// The value of what a deletion needs next.
#[verifier::ext_equal]
pub enum DeletionActionView {
    Ignore,
    Remove { force: bool },
    Prompt { message: Seq<char> },
    Report { attempted_force: bool },
    Propagate,
    Finish,
}

impl View for DeletionAction {
    type V = DeletionActionView;

    open spec fn view(&self) -> DeletionActionView {
        match self {
            DeletionAction::Ignore => DeletionActionView::Ignore,
            DeletionAction::Remove { force } => DeletionActionView::Remove { force: *force },
            DeletionAction::Prompt { message } => DeletionActionView::Prompt { message: message@ },
            DeletionAction::Report { attempted_force } => DeletionActionView::Report {
                attempted_force: *attempted_force,
            },
            DeletionAction::Propagate => DeletionActionView::Propagate,
            DeletionAction::Finish => DeletionActionView::Finish,
        }
    }
}

/// Whether a row is that of the worktree at a path.
pub open spec fn shows_path(entry: EntryView, path: PathView) -> bool {
    match entry {
        EntryView::Worktree { worktree, .. } => worktree.path == path,
        _ => false,
    }
}

/// A selection kept within so many rows.
pub open spec fn clamped(selected: int, count: nat) -> int {
    if count == 0 {
        0
    } else if selected >= count {
        count - 1
    } else {
        selected
    }
}

impl DelegateView {
    /// The worktree that deleting a row starts with: that of the row, unless it
    /// may not be deleted, is being deleted, or there is no repository.
    pub open spec fn deletion_target(self, ix: int, has_repository: bool) -> Option<WorktreeView> {
        if has_repository && 0 <= ix < self.matches.len() {
            match self.matches[ix] {
                EntryView::Worktree { worktree, .. } => if self.deletable(worktree)
                    && !self.deleting_worktree_paths.contains(worktree.path) {
                    Some(worktree)
                } else {
                    None
                },
                _ => None,
            }
        } else {
            None
        }
    }

    /// The state once the worktree at a path is marked as being deleted.
    pub open spec fn marked(self, path: PathView) -> DelegateView {
        DelegateView {
            deleting_worktree_paths: self.deleting_worktree_paths.insert(path),
            ..self
        }
    }

    /// The state once the worktree at a path is no longer marked.
    pub open spec fn unmarked(self, path: PathView) -> DelegateView {
        DelegateView {
            deleting_worktree_paths: self.deleting_worktree_paths.remove(path),
            ..self
        }
    }

    /// The state once the deletion of a row has started.
    pub open spec fn deletion_started(self, ix: int, path: PathView) -> DelegateView {
        DelegateView {
            hovered_delete_index: if self.hovered_delete_index == Some(ix as usize) {
                None
            } else {
                self.hovered_delete_index
            },
            ..self.marked(path)
        }
    }

    /// What deleting a row asks for.
    pub open spec fn deletion_request(
        self,
        ix: int,
        force: bool,
        has_repository: bool,
    ) -> Option<RequestView> {
        match self.deletion_target(ix, has_repository) {
            Some(worktree) => Some(
                RequestView {
                    worktree,
                    main_worktree_path: main_path_of(self.all_worktrees),
                    force,
                },
            ),
            None => None,
        }
    }

    /// The state once deleting a row has been asked for.
    pub open spec fn deletion_begun(self, ix: int, has_repository: bool) -> DelegateView {
        match self.deletion_target(ix, has_repository) {
            Some(worktree) => self.deletion_started(ix, worktree.path),
            None => self,
        }
    }

    /// The rows without those of the worktree at a path.
    pub open spec fn rows_without(self, path: PathView) -> Seq<EntryView> {
        self.matches.filter(|entry: EntryView| !shows_path(entry, path))
    }

    /// The state once the worktree at a path is gone.
    pub open spec fn removed(self, path: PathView) -> DelegateView {
        DelegateView {
            matches: self.rows_without(path),
            all_worktrees: self.all_worktrees.filter(
                |worktree: WorktreeView| worktree.path != path,
            ),
            selected_index: clamped(self.selected_index, self.rows_without(path).len()),
            hovered_delete_index: None,
            ..self.unmarked(path)
        }
    }

    /// Whether a worktree of the repository is at a path.
    pub open spec fn has_worktree_at(self, path: PathView) -> bool {
        exists|i: int|
            0 <= i < self.all_worktrees.len() && (#[trigger] self.all_worktrees[i]).path == path
    }
}

/// What a deletion comes to with an event: the picker's state, its own, and
/// what it needs next.
pub open spec fn deletion_step(
    picker: DelegateView,
    deletion: DeletionView,
    event: DeletionEventView,
) -> (DelegateView, DeletionView, DeletionActionView) {
    let at = |stage: DeletionStage| DeletionView { stage, ..deletion };
    let path = deletion.path;
    match (deletion.stage, event) {
        (DeletionStage::Removing, DeletionEventView::Failed { message }) => {
            match removal_question(message, deletion.display_name) {
                Some(question) if !deletion.force => (
                    picker.unmarked(path),
                    at(DeletionStage::Confirming),
                    DeletionActionView::Prompt { message: question },
                ),
                _ => (
                    picker.unmarked(path),
                    at(DeletionStage::Finished),
                    DeletionActionView::Report { attempted_force: deletion.force },
                ),
            }
        },
        (DeletionStage::Retrying, DeletionEventView::Failed { message: _ }) => (
            picker.unmarked(path),
            at(DeletionStage::Finished),
            DeletionActionView::Report { attempted_force: true },
        ),
        (DeletionStage::Removing, DeletionEventView::Removed)
        | (DeletionStage::Retrying, DeletionEventView::Removed) => (
            picker.removed(path),
            at(DeletionStage::Finished),
            DeletionActionView::Finish,
        ),
        (DeletionStage::Removing, DeletionEventView::Cancelled)
        | (DeletionStage::Retrying, DeletionEventView::Cancelled) => (
            picker.unmarked(path),
            at(DeletionStage::Finished),
            DeletionActionView::Propagate,
        ),
        (DeletionStage::Confirming, DeletionEventView::Answered { force_delete }) => {
            if force_delete && picker.has_worktree_at(path)
                && !picker.deleting_worktree_paths.contains(path) {
                (
                    picker.marked(path),
                    at(DeletionStage::Retrying),
                    DeletionActionView::Remove { force: true },
                )
            } else {
                (picker, at(DeletionStage::Finished), DeletionActionView::Finish)
            }
        },
        _ => (picker, deletion, DeletionActionView::Ignore),
    }
}

fn entries_without(matches: &Vec<WorktreeEntry>, path: &RepoPath) -> (r: Vec<WorktreeEntry>)
    ensures
        views(r@) == views(matches@).filter(|entry: EntryView| !shows_path(entry, path@)),
{
    let mut r: Vec<WorktreeEntry> = Vec::new();
    let ghost all = views(matches@);
    let ghost keep = |entry: EntryView| !shows_path(entry, path@);
    let mut i: usize = 0;
    proof {
        reveal(Seq::filter);
        assert(all.take(0).filter(keep) =~= seq![]);
        assert(views(r@) =~= seq![]);
    }
    while i < matches.len()
        invariant
            i <= matches@.len(),
            all == views(matches@),
            keep == (|entry: EntryView| !shows_path(entry, path@)),
            views(r@) == all.take(i as int).filter(keep),
        decreases matches@.len() - i,
    {
        proof {
            lemma_filter_step(all, i as int, keep);
        }
        assert(all[i as int] == matches@[i as int]@);
        let shown = match &matches[i] {
            WorktreeEntry::Worktree { worktree, .. } => worktree.path.same(path),
            _ => false,
        };
        if !shown {
            let entry = matches[i].clone();
            proof {
                lemma_views_push(r@, entry);
            }
            r.push(entry);
        }
        i += 1;
    }
    assert(all.take(all.len() as int) =~= all);
    r
}

fn worktrees_without(list: &Vec<GitWorktree>, path: &RepoPath) -> (r: Vec<GitWorktree>)
    ensures
        views(r@) == views(list@).filter(|worktree: WorktreeView| worktree.path != path@),
{
    let mut r: Vec<GitWorktree> = Vec::new();
    let ghost all = views(list@);
    let ghost keep = |worktree: WorktreeView| worktree.path != path@;
    let mut i: usize = 0;
    proof {
        reveal(Seq::filter);
        assert(all.take(0).filter(keep) =~= seq![]);
        assert(views(r@) =~= seq![]);
    }
    while i < list.len()
        invariant
            i <= list@.len(),
            all == views(list@),
            keep == (|worktree: WorktreeView| worktree.path != path@),
            views(r@) == all.take(i as int).filter(keep),
        decreases list@.len() - i,
    {
        proof {
            lemma_filter_step(all, i as int, keep);
        }
        if !list[i].path.same(path) {
            let worktree = list[i].clone();
            proof {
                lemma_views_push(r@, worktree);
            }
            r.push(worktree);
        }
        i += 1;
    }
    assert(all.take(all.len() as int) =~= all);
    r
}

impl DeletionRequest {
    /// The deletion, with the name that its worktree is shown by. Git is to be
    /// asked next, with the force that was requested.
    pub fn start(&self, display_name: &str) -> (r: Deletion)
        ensures
            r@ == (DeletionView {
                path: self@.worktree.path,
                display_name: display_name@,
                force: self@.force,
                stage: DeletionStage::Removing,
            }),
    {
        Deletion {
            path: self.worktree.path.clone(),
            display_name: display_name.to_owned(),
            force: self.force,
            stage: DeletionStage::Removing,
        }
    }
}

impl WorktreePickerDelegate {
    /// Starts the deletion of the worktree of a row, where that can be.
    pub fn delete_worktree(&mut self, ix: usize, force: bool, has_repository: bool) -> (r: Option<
        DeletionRequest,
    >)
        ensures
            opt_view(r) == old(self)@.deletion_request(ix as int, force, has_repository),
            final(self)@ == old(self)@.deletion_begun(ix as int, has_repository),
    {
        if ix >= self.matches.len() || !has_repository {
            return None;
        }
        assert(self@.matches[ix as int] == self.matches@[ix as int]@);
        let worktree = match &self.matches[ix] {
            WorktreeEntry::Worktree { worktree, .. } => {
                if !self.can_delete_worktree(worktree) || self.deleting_worktree_paths.contains(
                    &worktree.path,
                ) {
                    return None;
                }
                worktree.clone()
            },
            _ => return None,
        };
        let main_worktree_path = self.main_worktree_path();
        self.deleting_worktree_paths.insert(worktree.path.clone());
        self.hover_delete(ix, false);
        Some(DeletionRequest { worktree, main_worktree_path, force })
    }

    fn has_worktree(&self, path: &RepoPath) -> (r: bool)
        ensures
            r == self@.has_worktree_at(path@),
    {
        let mut i: usize = 0;
        while i < self.all_worktrees.len()
            invariant
                i <= self.all_worktrees@.len(),
                forall|j: int| 0 <= j < i ==> (#[trigger] self@.all_worktrees[j]).path != path@,
            decreases self.all_worktrees@.len() - i,
        {
            if self.all_worktrees[i].path.same(path) {
                assert(self@.all_worktrees[i as int].path == path@);
                return true;
            }
            i += 1;
        }
        false
    }

    fn forget_worktree(&mut self, path: &RepoPath)
        ensures
            final(self)@ == old(self)@.removed(path@),
    {
        self.deleting_worktree_paths.remove(path);
        self.matches = entries_without(&self.matches, path);
        self.all_worktrees = worktrees_without(&self.all_worktrees, path);
        if self.matches.len() == 0 {
            self.selected_index = 0;
        } else if self.selected_index >= self.matches.len() {
            self.selected_index = self.matches.len() - 1;
        }
        self.hovered_delete_index = None;
    }

    /// Takes a deletion one step on. An event that the deletion does not wait
    /// for changes nothing.
    pub fn step_deletion(&mut self, deletion: &mut Deletion, event: DeletionEvent) -> (r:
        DeletionAction)
        ensures
            deletion_step(old(self)@, old(deletion)@, event@) == (
                final(self)@,
                final(deletion)@,
                r@,
            ),
    {
        match (deletion.stage, event) {
            (DeletionStage::Removing, DeletionEvent::Failed { message }) => {
                let question = if deletion.force {
                    None
                } else {
                    force_delete_prompt_for_message(
                        message.as_str(),
                        deletion.display_name.as_str(),
                    )
                };
                self.deleting_worktree_paths.remove(&deletion.path);
                match question {
                    Some(message) => {
                        deletion.stage = DeletionStage::Confirming;
                        DeletionAction::Prompt { message }
                    },
                    None => {
                        deletion.stage = DeletionStage::Finished;
                        DeletionAction::Report { attempted_force: deletion.force }
                    },
                }
            },
            (DeletionStage::Retrying, DeletionEvent::Failed { .. }) => {
                self.deleting_worktree_paths.remove(&deletion.path);
                deletion.stage = DeletionStage::Finished;
                DeletionAction::Report { attempted_force: true }
            },
            (DeletionStage::Removing, DeletionEvent::Removed)
            | (DeletionStage::Retrying, DeletionEvent::Removed) => {
                self.forget_worktree(&deletion.path);
                deletion.stage = DeletionStage::Finished;
                DeletionAction::Finish
            },
            (DeletionStage::Removing, DeletionEvent::Cancelled)
            | (DeletionStage::Retrying, DeletionEvent::Cancelled) => {
                self.deleting_worktree_paths.remove(&deletion.path);
                deletion.stage = DeletionStage::Finished;
                DeletionAction::Propagate
            },
            (DeletionStage::Confirming, DeletionEvent::Answered { force_delete }) => {
                if force_delete && self.has_worktree(&deletion.path)
                    && self.deleting_worktree_paths.insert(deletion.path.clone()) {
                    deletion.stage = DeletionStage::Retrying;
                    DeletionAction::Remove { force: true }
                } else {
                    proof {
                        if old(self)@.deleting_worktree_paths.contains(deletion.path@) {
                            assert(old(self)@.deleting_worktree_paths.insert(deletion.path@)
                                =~= old(self)@.deleting_worktree_paths);
                        }
                    }
                    deletion.stage = DeletionStage::Finished;
                    DeletionAction::Finish
                }
            },
            _ => DeletionAction::Ignore,
        }
    }

    /// Takes a deletion one step on with an error of git, by the message that
    /// the error displays.
    pub fn fail_deletion(&mut self, deletion: &mut Deletion, error: &anyhow::Error) -> (r:
        DeletionAction)
        ensures
            exists|message: String| #[trigger]
                is_message_of(error, message) && deletion_step(
                    old(self)@,
                    old(deletion)@,
                    DeletionEventView::Failed { message: message@ },
                ) == (final(self)@, final(deletion)@, r@),
    {
        let message = error.to_string();
        let ghost text = message;
        let action = self.step_deletion(deletion, DeletionEvent::Failed { message });
        assert(is_message_of(error, text));
        action
    }
}

/// Only a worktree that is neither the main one nor open in the window is ever
/// deleted, and it is marked from the start.
pub proof fn deletion_starts_on_deletable(picker: DelegateView, ix: int, has_repository: bool)
    requires
        picker.deletion_target(ix, has_repository) is Some,
    ensures
        ({
            let worktree = picker.deletion_target(ix, has_repository)->0;
            let after = picker.deletion_started(ix, worktree.path);
            &&& !worktree.is_main
            &&& !picker.project_worktree_paths.contains(worktree.path)
            &&& shows_path(picker.matches[ix], worktree.path)
            &&& after.deleting_worktree_paths.contains(worktree.path)
            &&& after.matches == picker.matches
            &&& after.all_worktrees == picker.all_worktrees
        }),
{
}

/// While a worktree is being deleted, no deletion of it starts, from any row.
pub proof fn duplicate_deletion_is_ignored(
    picker: DelegateView,
    ix: int,
    has_repository: bool,
    path: PathView,
)
    requires
        picker.deleting_worktree_paths.contains(path),
        0 <= ix < picker.matches.len(),
        shows_path(picker.matches[ix], path),
    ensures
        picker.deletion_target(ix, has_repository) is None,
{
}

/// Whether a deletion and the picker agree: the worktree is marked while git is
/// at work on it.
pub open spec fn deletion_consistent(picker: DelegateView, deletion: DeletionView) -> bool {
    deletion.is_running() ==> picker.deleting_worktree_paths.contains(deletion.path)
}

/// A deletion that starts agrees with the picker.
pub proof fn started_deletion_is_consistent(
    picker: DelegateView,
    ix: int,
    has_repository: bool,
    deletion: DeletionView,
)
    requires
        picker.deletion_target(ix, has_repository) matches Some(worktree) && worktree.path
            == deletion.path,
    ensures
        deletion_consistent(picker.deletion_started(ix, deletion.path), deletion),
{
}

/// Every step keeps the agreement, touches no mark but that of its own
/// worktree, and takes that mark away when git has answered.
pub proof fn steps_keep_marks(
    picker: DelegateView,
    deletion: DeletionView,
    event: DeletionEventView,
)
    requires
        deletion_consistent(picker, deletion),
    ensures
        ({
            let (after, next, action) = deletion_step(picker, deletion, event);
            &&& deletion_consistent(after, next)
            &&& next.path == deletion.path
            &&& deletion.is_running() && !next.is_running()
                ==> !after.deleting_worktree_paths.contains(deletion.path)
            &&& after.deleting_worktree_paths.remove(deletion.path)
                == picker.deleting_worktree_paths.remove(deletion.path)
        }),
{
    let (after, next, action) = deletion_step(picker, deletion, event);
    assert(after.deleting_worktree_paths.remove(deletion.path)
        =~= picker.deleting_worktree_paths.remove(deletion.path));
}

/// A step of one deletion leaves the agreement of a deletion of another
/// worktree as it is.
pub proof fn deletions_do_not_interfere(
    picker: DelegateView,
    deletion: DeletionView,
    event: DeletionEventView,
    other: DeletionView,
)
    requires
        deletion_consistent(picker, other),
        other.path != deletion.path,
    ensures
        deletion_consistent(deletion_step(picker, deletion, event).0, other),
{
}

/// Once git removed a worktree, it is neither marked nor listed nor shown, and
/// the selection is on a row, if there is any.
pub proof fn removal_removes_worktree(picker: DelegateView, deletion: DeletionView)
    requires
        deletion.is_running(),
        picker.selected_index >= 0,
    ensures
        ({
            let (after, next, action) = deletion_step(
                picker,
                deletion,
                DeletionEventView::Removed,
            );
            &&& next.stage is Finished
            &&& action is Finish
            &&& !after.deleting_worktree_paths.contains(deletion.path)
            &&& !after.has_worktree_at(deletion.path)
            &&& forall|i: int|
                0 <= i < after.matches.len() ==> !shows_path(
                    #[trigger] after.matches[i],
                    deletion.path,
                )
            &&& 0 <= after.selected_index
            &&& after.matches.len() > 0 ==> after.selected_index < after.matches.len()
        }),
{
    let (after, next, action) = deletion_step(picker, deletion, DeletionEventView::Removed);
    let keep_row = |entry: EntryView| !shows_path(entry, deletion.path);
    let keep = |worktree: WorktreeView| worktree.path != deletion.path;
    assert forall|i: int| 0 <= i < after.matches.len() implies !shows_path(
        #[trigger] after.matches[i],
        deletion.path,
    ) by {
        picker.matches.lemma_filter_pred(keep_row, i);
    }
    assert forall|i: int| 0 <= i < after.all_worktrees.len() implies (
    #[trigger] after.all_worktrees[i]).path != deletion.path by {
        picker.all_worktrees.lemma_filter_pred(keep, i);
    }
}

/// Unless git removed the worktree, a step leaves the worktrees, the rows and
/// the selection as they are.
pub proof fn refused_deletion_keeps_rows(
    picker: DelegateView,
    deletion: DeletionView,
    event: DeletionEventView,
)
    requires
        !(event is Removed),
    ensures
        ({
            let (after, next, action) = deletion_step(picker, deletion, event);
            &&& after.matches == picker.matches
            &&& after.all_worktrees == picker.all_worktrees
            &&& after.selected_index == picker.selected_index
        }),
{
}

/// A deletion with force never asks the user, and neither does one that was
/// asked about already.
pub proof fn force_never_prompts(
    picker: DelegateView,
    deletion: DeletionView,
    event: DeletionEventView,
)
    requires
        deletion.force || !(deletion.stage is Removing),
    ensures
        !(deletion_step(picker, deletion, event).2 is Prompt),
{
}

/// While the user is being asked, the worktree is not marked; a refusal ends
/// the deletion and changes nothing.
pub proof fn prompt_clears_mark(
    picker: DelegateView,
    deletion: DeletionView,
    event: DeletionEventView,
)
    requires
        deletion_step(picker, deletion, event).2 is Prompt,
    ensures
        ({
            let (after, next, action) = deletion_step(picker, deletion, event);
            &&& !after.deleting_worktree_paths.contains(deletion.path)
            &&& deletion_step(
                after,
                next,
                DeletionEventView::Answered { force_delete: false },
            ) == (
                after,
                (DeletionView { stage: DeletionStage::Finished, ..next }),
                DeletionActionView::Finish,
            )
        }),
{
}

/// After a yes, git is asked with force exactly where the worktree is still
/// listed and no other deletion of it is under way.
pub proof fn confirmed_deletion_retries_with_force(picker: DelegateView, deletion: DeletionView)
    requires
        deletion.stage is Confirming,
    ensures
        ({
            let (after, next, action) = deletion_step(
                picker,
                deletion,
                DeletionEventView::Answered { force_delete: true },
            );
            if picker.has_worktree_at(deletion.path) && !picker.deleting_worktree_paths.contains(
                deletion.path,
            ) {
                &&& action == (DeletionActionView::Remove { force: true })
                &&& after.deleting_worktree_paths.contains(deletion.path)
            } else {
                action is Finish && after == picker
            }
        }),
{
}

/// A finished deletion stays finished, whatever happens.
pub proof fn finished_deletion_is_inert(
    picker: DelegateView,
    deletion: DeletionView,
    event: DeletionEventView,
)
    requires
        deletion.stage is Finished,
    ensures
        deletion_step(picker, deletion, event) == (picker, deletion, DeletionActionView::Ignore),
{
}

} // verus!
