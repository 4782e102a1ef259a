//! Opening a worktree of a remote machine in a new window, step by step.

use vstd::prelude::*;

use crate::path::{PathView, RepoPath};
use crate::path_order::paths;
use crate::seqs::opt_view;

verus! {

/// What opening waits for.
#[derive(Debug, Clone, Copy)]
pub enum RemoteOpenStage {
    /// The connection dialog, which starts the connection.
    Connecting,
    /// The session of the connection.
    AwaitingSession,
    /// The end of the connection dialog.
    FinishingPrompt { connected: bool },
    CreatingProject,
    /// The request for the window's last position.
    RequestingPosition,
    /// The window's last position.
    AwaitingPosition,
    BuildingOptions,
    OpeningWindow,
    OpeningProject,
    /// The worktree is open.
    Opened,
    /// There was no connection, so that nothing was opened.
    NotConnected,
    /// This stage failed.
    Failed(RemoteOpenFailure),
}

/// The stage that failed.
#[derive(Debug, Clone, Copy)]
pub enum RemoteOpenFailure {
    Connecting,
    CreatingProject,
    RequestingPosition,
    AwaitingPosition,
    BuildingOptions,
    OpeningWindow,
    OpeningProject,
}

/// What came of a stage.
#[derive(Debug, Clone, Copy)]
pub enum RemoteOpenEvent {
    /// Whether the connection gave a session.
    Session { connected: bool },
    /// Whether any other stage went well.
    Finished { ok: bool },
}

/// The opening of a worktree of a remote machine.
#[derive(Debug)]
pub struct RemoteOpen {
    pub paths: Vec<RepoPath>,
    pub stage: RemoteOpenStage,
}

/// The value of the opening.
#[verifier::ext_equal]
pub struct RemoteOpenView {
    pub paths: Seq<PathView>,
    pub stage: RemoteOpenStage,
}

impl View for RemoteOpen {
    type V = RemoteOpenView;

    open spec fn view(&self) -> RemoteOpenView {
        RemoteOpenView { paths: paths(self.paths@), stage: self.stage }
    }
}

/// The stage after one that went well, or not.
pub open spec fn after(
    ok: bool,
    next: RemoteOpenStage,
    failure: RemoteOpenFailure,
) -> RemoteOpenStage {
    if ok {
        next
    } else {
        RemoteOpenStage::Failed(failure)
    }
}

/// The stage after an event. An event that is not waited for changes nothing.
pub open spec fn remote_open_step(
    stage: RemoteOpenStage,
    event: RemoteOpenEvent,
) -> RemoteOpenStage {
    match (stage, event) {
        (RemoteOpenStage::Connecting, RemoteOpenEvent::Finished { ok }) => after(
            ok,
            RemoteOpenStage::AwaitingSession,
            RemoteOpenFailure::Connecting,
        ),
        (RemoteOpenStage::AwaitingSession, RemoteOpenEvent::Session { connected }) => {
            RemoteOpenStage::FinishingPrompt { connected }
        },
        (RemoteOpenStage::FinishingPrompt { connected }, RemoteOpenEvent::Finished { .. }) => {
            if connected {
                RemoteOpenStage::CreatingProject
            } else {
                RemoteOpenStage::NotConnected
            }
        },
        (RemoteOpenStage::CreatingProject, RemoteOpenEvent::Finished { ok }) => after(
            ok,
            RemoteOpenStage::RequestingPosition,
            RemoteOpenFailure::CreatingProject,
        ),
        (RemoteOpenStage::RequestingPosition, RemoteOpenEvent::Finished { ok }) => after(
            ok,
            RemoteOpenStage::AwaitingPosition,
            RemoteOpenFailure::RequestingPosition,
        ),
        (RemoteOpenStage::AwaitingPosition, RemoteOpenEvent::Finished { ok }) => after(
            ok,
            RemoteOpenStage::BuildingOptions,
            RemoteOpenFailure::AwaitingPosition,
        ),
        (RemoteOpenStage::BuildingOptions, RemoteOpenEvent::Finished { ok }) => after(
            ok,
            RemoteOpenStage::OpeningWindow,
            RemoteOpenFailure::BuildingOptions,
        ),
        (RemoteOpenStage::OpeningWindow, RemoteOpenEvent::Finished { ok }) => after(
            ok,
            RemoteOpenStage::OpeningProject,
            RemoteOpenFailure::OpeningWindow,
        ),
        (RemoteOpenStage::OpeningProject, RemoteOpenEvent::Finished { ok }) => after(
            ok,
            RemoteOpenStage::Opened,
            RemoteOpenFailure::OpeningProject,
        ),
        _ => stage,
    }
}

/// The opening of the worktree at some paths of a remote machine.
pub fn open_remote_worktree(paths: Vec<RepoPath>) -> (r: RemoteOpen)
    ensures
        r@ == (RemoteOpenView {
            paths: crate::path_order::paths(paths@),
            stage: RemoteOpenStage::Connecting,
        }),
{
    RemoteOpen { paths, stage: RemoteOpenStage::Connecting }
}

fn next_stage(ok: bool, next: RemoteOpenStage, failure: RemoteOpenFailure) -> (r: RemoteOpenStage)
    ensures
        r == after(ok, next, failure),
{
    if ok {
        next
    } else {
        RemoteOpenStage::Failed(failure)
    }
}

/// What an error says besides its own message.
pub open spec fn failure_context_text(failure: RemoteOpenFailure) -> Option<Seq<char>> {
    if failure is AwaitingPosition {
        Some("fetching workspace position from db"@)
    } else {
        None
    }
}

/// What the error of a stage says besides its own message.
pub fn failure_context(failure: RemoteOpenFailure) -> (r: Option<String>)
    ensures
        opt_view(r) == failure_context_text(failure),
{
    match failure {
        RemoteOpenFailure::AwaitingPosition => {
            Some("fetching workspace position from db".to_owned())
        },
        _ => None,
    }
}

impl RemoteOpen {
    /// Takes the opening one step on. An event that it does not wait for
    /// changes nothing.
    pub fn step(&mut self, event: RemoteOpenEvent)
        ensures
            final(self)@ == (RemoteOpenView {
                stage: remote_open_step(old(self)@.stage, event),
                ..old(self)@
            }),
    {
        self.stage = match (self.stage, event) {
            (RemoteOpenStage::Connecting, RemoteOpenEvent::Finished { ok }) => next_stage(
                ok,
                RemoteOpenStage::AwaitingSession,
                RemoteOpenFailure::Connecting,
            ),
            (RemoteOpenStage::AwaitingSession, RemoteOpenEvent::Session { connected }) => {
                RemoteOpenStage::FinishingPrompt { connected }
            },
            (RemoteOpenStage::FinishingPrompt { connected }, RemoteOpenEvent::Finished { .. }) => {
                if connected {
                    RemoteOpenStage::CreatingProject
                } else {
                    RemoteOpenStage::NotConnected
                }
            },
            (RemoteOpenStage::CreatingProject, RemoteOpenEvent::Finished { ok }) => next_stage(
                ok,
                RemoteOpenStage::RequestingPosition,
                RemoteOpenFailure::CreatingProject,
            ),
            (RemoteOpenStage::RequestingPosition, RemoteOpenEvent::Finished { ok }) => next_stage(
                ok,
                RemoteOpenStage::AwaitingPosition,
                RemoteOpenFailure::RequestingPosition,
            ),
            (RemoteOpenStage::AwaitingPosition, RemoteOpenEvent::Finished { ok }) => next_stage(
                ok,
                RemoteOpenStage::BuildingOptions,
                RemoteOpenFailure::AwaitingPosition,
            ),
            (RemoteOpenStage::BuildingOptions, RemoteOpenEvent::Finished { ok }) => next_stage(
                ok,
                RemoteOpenStage::OpeningWindow,
                RemoteOpenFailure::BuildingOptions,
            ),
            (RemoteOpenStage::OpeningWindow, RemoteOpenEvent::Finished { ok }) => next_stage(
                ok,
                RemoteOpenStage::OpeningProject,
                RemoteOpenFailure::OpeningWindow,
            ),
            (RemoteOpenStage::OpeningProject, RemoteOpenEvent::Finished { ok }) => next_stage(
                ok,
                RemoteOpenStage::Opened,
                RemoteOpenFailure::OpeningProject,
            ),
            (stage, _) => stage,
        };
    }
}

/// The stage after a list of events.
pub open spec fn remote_open_run(events: Seq<RemoteOpenEvent>) -> RemoteOpenStage
    decreases events.len(),
{
    if events.len() == 0 {
        RemoteOpenStage::Connecting
    } else {
        remote_open_step(remote_open_run(events.drop_last()), events.last())
    }
}

/// How far a stage is from the start.
pub open spec fn stage_rank(stage: RemoteOpenStage) -> int {
    match stage {
        RemoteOpenStage::Connecting => 0,
        RemoteOpenStage::AwaitingSession => 1,
        RemoteOpenStage::FinishingPrompt { .. } => 2,
        RemoteOpenStage::CreatingProject => 3,
        RemoteOpenStage::RequestingPosition => 4,
        RemoteOpenStage::AwaitingPosition => 5,
        RemoteOpenStage::BuildingOptions => 6,
        RemoteOpenStage::OpeningWindow => 7,
        RemoteOpenStage::OpeningProject => 8,
        RemoteOpenStage::Opened => 9,
        RemoteOpenStage::NotConnected => 9,
        RemoteOpenStage::Failed(_) => 9,
    }
}

/// Whether nothing is left to do.
pub open spec fn is_over(stage: RemoteOpenStage) -> bool {
    stage_rank(stage) == 9
}

/// A step leaves a stage for a later one, or where it is; and nothing follows
/// the end.
pub proof fn opening_moves_on(stage: RemoteOpenStage, event: RemoteOpenEvent)
    ensures
        remote_open_step(stage, event) == stage || stage_rank(remote_open_step(stage, event))
            > stage_rank(stage),
        is_over(stage) ==> remote_open_step(stage, event) == stage,
{
}

/// Each stage is entered from the one before it alone, and only where that one
/// went well; the end of the dialog need not, but there has to be a session.
pub proof fn stages_follow_in_order(stage: RemoteOpenStage, event: RemoteOpenEvent)
    requires
        remote_open_step(stage, event) != stage,
        !(remote_open_step(stage, event) is Failed),
        !(remote_open_step(stage, event) is NotConnected),
    ensures
        stage_rank(remote_open_step(stage, event)) == stage_rank(stage) + 1,
        event == (RemoteOpenEvent::Finished { ok: true }) || stage is AwaitingSession || stage
            == (RemoteOpenStage::FinishingPrompt { connected: true }),
{
}

/// A worktree is opened only over a connection that gave a session.
pub proof fn only_a_session_opens(events: Seq<RemoteOpenEvent>)
    requires
        remote_open_run(events) is Opened,
    ensures
        events.contains(RemoteOpenEvent::Session { connected: true }),
{
    lemma_connected(events);
}

proof fn lemma_connected(events: Seq<RemoteOpenEvent>)
    ensures
        ({
            let stage = remote_open_run(events);
            stage == (RemoteOpenStage::FinishingPrompt { connected: true }) || (stage_rank(stage)
                >= 3 && !(stage is NotConnected) && !(stage matches RemoteOpenStage::Failed(
                RemoteOpenFailure::Connecting,
            ))) ==> events.contains(RemoteOpenEvent::Session { connected: true })
        }),
    decreases events.len(),
{
    if events.len() > 0 {
        let init = events.drop_last();
        let wanted = RemoteOpenEvent::Session { connected: true };
        lemma_connected(init);
        if init.contains(wanted) {
            let i = choose|i: int| 0 <= i < init.len() && init[i] == wanted;
            assert(events[i] == wanted);
        }
        assert(events[events.len() - 1] == events.last());
    }
}

/// Without a session nothing is opened: the opening ends there, without an
/// error, once the dialog is finished, whether or not that went well.
pub proof fn no_session_opens_nothing(ok: bool, later: RemoteOpenEvent)
    ensures
        ({
            let finished = remote_open_step(
                RemoteOpenStage::FinishingPrompt { connected: false },
                RemoteOpenEvent::Finished { ok },
            );
            &&& finished is NotConnected
            &&& remote_open_step(finished, later) is NotConnected
        }),
{
}

} // verus!
