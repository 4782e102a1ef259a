//! Carrying env files into a worktree, step by step.

use vstd::prelude::*;

use crate::env_vault::{
    file_like, is_env_file_name, is_env_name, is_file_like, primary_checkout, FileMetadata,
    MetadataReply,
};
use crate::path::{file_name_text_of, PathView, RepoPath};
use crate::seqs::opt_view;

verus! {

/// A file of the primary checkout and its place in the worktree.
#[derive(Debug)]
pub struct Transfer {
    pub source: RepoPath,
    pub target: RepoPath,
}

/// The value of a transfer.
#[verifier::ext_equal]
pub struct TransferView {
    pub source: PathView,
    pub target: PathView,
}

impl View for Transfer {
    type V = TransferView;

    open spec fn view(&self) -> TransferView {
        TransferView { source: self.source@, target: self.target@ }
    }
}

impl Clone for Transfer {
    fn clone(&self) -> (r: Self)
        ensures
            r@ == self@,
    {
        Transfer { source: self.source.clone(), target: self.target.clone() }
    }
}

/// What went wrong for good.
#[derive(Debug, Clone, Copy)]
pub enum CarryFailure {
    /// The primary checkout could not be listed.
    ReadDir,
    /// One of its entries could not be read.
    ReadEntry,
    /// It could not be found out whether the worktree has a file.
    TargetMetadata,
    /// A file could be neither linked nor copied.
    Copy,
}

/// What the carrying waits for.
#[derive(Debug)]
pub enum CarryStage {
    /// The listing of the primary checkout.
    Listing,
    /// The next entry of the listing.
    NextEntry,
    /// What the source is.
    CheckingSource(Transfer),
    /// Whether the target is there.
    CheckingTarget(Transfer),
    /// The link.
    Linking(Transfer),
    /// The copy.
    Copying(Transfer),
    Done,
    Failed(CarryFailure),
}

/// The value of what the carrying waits for.
#[verifier::ext_equal]
pub enum CarryStageView {
    Listing,
    NextEntry,
    CheckingSource(TransferView),
    CheckingTarget(TransferView),
    Linking(TransferView),
    Copying(TransferView),
    Done,
    Failed(CarryFailure),
}

impl View for CarryStage {
    type V = CarryStageView;

    open spec fn view(&self) -> CarryStageView {
        match self {
            CarryStage::Listing => CarryStageView::Listing,
            CarryStage::NextEntry => CarryStageView::NextEntry,
            CarryStage::CheckingSource(transfer) => CarryStageView::CheckingSource(transfer@),
            CarryStage::CheckingTarget(transfer) => CarryStageView::CheckingTarget(transfer@),
            CarryStage::Linking(transfer) => CarryStageView::Linking(transfer@),
            CarryStage::Copying(transfer) => CarryStageView::Copying(transfer@),
            CarryStage::Done => CarryStageView::Done,
            CarryStage::Failed(failure) => CarryStageView::Failed(*failure),
        }
    }
}

/// The carrying of env files into a worktree.
#[derive(Debug)]
pub struct EnvCarry {
    /// The primary checkout, where there is one.
    pub primary_dir: Option<RepoPath>,
    pub worktree_path: RepoPath,
    /// The number of files that were linked or copied.
    pub carried: usize,
    pub stage: CarryStage,
}

/// The value of the carrying of env files.
#[verifier::ext_equal]
pub struct CarryView {
    pub primary_dir: Option<PathView>,
    pub worktree_path: PathView,
    pub carried: int,
    pub stage: CarryStageView,
}

impl View for EnvCarry {
    type V = CarryView;

    open spec fn view(&self) -> CarryView {
        CarryView {
            primary_dir: opt_view(self.primary_dir),
            worktree_path: self.worktree_path@,
            carried: self.carried as int,
            stage: self.stage@,
        }
    }
}

/// What happens in answer to an action.
#[derive(Debug)]
pub enum CarryEvent {
    /// The primary checkout was listed, or not.
    Listed { ok: bool },
    /// The next entry of the listing.
    Entry { source: RepoPath },
    EntryFailed,
    NoMoreEntries,
    /// What a file is.
    Metadata { reply: MetadataReply },
    /// The link was made, or not.
    Linked { ok: bool },
    /// The copy was made, or not.
    Copied { ok: bool },
}

/// The value of an event.
#[verifier::ext_equal]
pub enum CarryEventView {
    Listed { ok: bool },
    Entry { source: PathView },
    EntryFailed,
    NoMoreEntries,
    Metadata { reply: MetadataReply },
    Linked { ok: bool },
    Copied { ok: bool },
}

impl View for CarryEvent {
    type V = CarryEventView;

    open spec fn view(&self) -> CarryEventView {
        match self {
            CarryEvent::Listed { ok } => CarryEventView::Listed { ok: *ok },
            CarryEvent::Entry { source } => CarryEventView::Entry { source: source@ },
            CarryEvent::EntryFailed => CarryEventView::EntryFailed,
            CarryEvent::NoMoreEntries => CarryEventView::NoMoreEntries,
            CarryEvent::Metadata { reply } => CarryEventView::Metadata { reply: *reply },
            CarryEvent::Linked { ok } => CarryEventView::Linked { ok: *ok },
            CarryEvent::Copied { ok } => CarryEventView::Copied { ok: *ok },
        }
    }
}

/// What is to be done next.
#[derive(Debug)]
pub enum CarryAction {
    ReadDir { dir: RepoPath },
    ReadEntry,
    Metadata { path: RepoPath },
    /// Make a symlink at `target` that points to `source`.
    Symlink { target: RepoPath, source: RepoPath },
    /// Copy, without overwriting; a file that is there by now is no error.
    Copy { source: RepoPath, target: RepoPath },
    /// Nothing: this many files were linked or copied.
    Done { carried: usize },
    /// Hand on the error of the last answer.
    Fail { failure: CarryFailure },
}

/// The value of what is to be done next.
#[verifier::ext_equal]
pub enum CarryActionView {
    ReadDir { dir: PathView },
    ReadEntry,
    Metadata { path: PathView },
    Symlink { target: PathView, source: PathView },
    Copy { source: PathView, target: PathView },
    Done { carried: int },
    Fail { failure: CarryFailure },
}

impl View for CarryAction {
    type V = CarryActionView;

    open spec fn view(&self) -> CarryActionView {
        match self {
            CarryAction::ReadDir { dir } => CarryActionView::ReadDir { dir: dir@ },
            CarryAction::ReadEntry => CarryActionView::ReadEntry,
            CarryAction::Metadata { path } => CarryActionView::Metadata { path: path@ },
            CarryAction::Symlink { target, source } => CarryActionView::Symlink {
                target: target@,
                source: source@,
            },
            CarryAction::Copy { source, target } => CarryActionView::Copy {
                source: source@,
                target: target@,
            },
            CarryAction::Done { carried } => CarryActionView::Done { carried: *carried as int },
            CarryAction::Fail { failure } => CarryActionView::Fail { failure: *failure },
        }
    }
}

/// Where an entry of the primary checkout goes: into the worktree, under its
/// own name, where that is the name of an env file.
pub open spec fn transfer_of(source: PathView, worktree_path: PathView) -> Option<TransferView> {
    match file_name_text_of(source) {
        Some(name) => if is_env_name(name) {
            Some(TransferView { source, target: worktree_path.push(source.last()) })
        } else {
            None
        },
        None => None,
    }
}

impl CarryView {
    /// The same carrying at another stage.
    pub open spec fn at(self, stage: CarryStageView) -> CarryView {
        CarryView { stage, ..self }
    }

    /// The carrying with one more file, on to the next entry.
    pub open spec fn carried_one(self) -> CarryView {
        CarryView { carried: self.carried + 1, stage: CarryStageView::NextEntry, ..self }
    }

    /// The carrying after an event. An event that it does not wait for changes
    /// nothing.
    pub open spec fn step(self, event: CarryEventView) -> CarryView {
        match (self.stage, event) {
            (CarryStageView::Listing, CarryEventView::Listed { ok }) => {
                if ok {
                    self.at(CarryStageView::NextEntry)
                } else {
                    self.at(CarryStageView::Failed(CarryFailure::ReadDir))
                }
            },
            (CarryStageView::NextEntry, CarryEventView::Entry { source }) => {
                match transfer_of(source, self.worktree_path) {
                    Some(transfer) => self.at(CarryStageView::CheckingSource(transfer)),
                    None => self,
                }
            },
            (CarryStageView::NextEntry, CarryEventView::EntryFailed) => self.at(
                CarryStageView::Failed(CarryFailure::ReadEntry),
            ),
            (CarryStageView::NextEntry, CarryEventView::NoMoreEntries) => self.at(
                CarryStageView::Done,
            ),
            (CarryStageView::CheckingSource(transfer), CarryEventView::Metadata { reply }) => {
                if file_like(reply) {
                    self.at(CarryStageView::CheckingTarget(transfer))
                } else {
                    self.at(CarryStageView::NextEntry)
                }
            },
            (CarryStageView::CheckingTarget(transfer), CarryEventView::Metadata { reply }) => {
                match reply {
                    MetadataReply::Failed => self.at(
                        CarryStageView::Failed(CarryFailure::TargetMetadata),
                    ),
                    MetadataReply::Found(_) => self.at(CarryStageView::NextEntry),
                    MetadataReply::Missing => self.at(CarryStageView::Linking(transfer)),
                }
            },
            (CarryStageView::Linking(transfer), CarryEventView::Linked { ok }) => {
                if ok {
                    self.carried_one()
                } else {
                    self.at(CarryStageView::Copying(transfer))
                }
            },
            (CarryStageView::Copying(_), CarryEventView::Copied { ok }) => {
                if ok {
                    self.carried_one()
                } else {
                    self.at(CarryStageView::Failed(CarryFailure::Copy))
                }
            },
            _ => self,
        }
    }

    /// What is to be done next.
    pub open spec fn action(self) -> CarryActionView {
        match self.stage {
            CarryStageView::Listing => match self.primary_dir {
                Some(dir) => CarryActionView::ReadDir { dir },
                None => CarryActionView::Done { carried: self.carried },
            },
            CarryStageView::NextEntry => CarryActionView::ReadEntry,
            CarryStageView::CheckingSource(transfer) => CarryActionView::Metadata {
                path: transfer.source,
            },
            CarryStageView::CheckingTarget(transfer) => CarryActionView::Metadata {
                path: transfer.target,
            },
            CarryStageView::Linking(transfer) => CarryActionView::Symlink {
                target: transfer.target,
                source: transfer.source,
            },
            CarryStageView::Copying(transfer) => CarryActionView::Copy {
                source: transfer.source,
                target: transfer.target,
            },
            CarryStageView::Done => CarryActionView::Done { carried: self.carried },
            CarryStageView::Failed(failure) => CarryActionView::Fail { failure },
        }
    }

    /// The carrying after a list of events.
    pub open spec fn run(self, events: Seq<CarryEventView>) -> CarryView
        decreases events.len(),
    {
        if events.len() == 0 {
            self
        } else {
            self.run(events.drop_last()).step(events.last())
        }
    }

    /// Whether an event is the success of a link or copy that was asked for.
    pub open spec fn is_carried_by(self, event: CarryEventView) -> bool {
        ||| self.stage is Linking && event == (CarryEventView::Linked { ok: true })
        ||| self.stage is Copying && event == (CarryEventView::Copied { ok: true })
    }

    /// The number of links and copies that succeed over a list of events.
    pub open spec fn successes(self, events: Seq<CarryEventView>) -> int
        decreases events.len(),
    {
        if events.len() == 0 {
            0
        } else {
            self.successes(events.drop_last()) + if self.run(events.drop_last()).is_carried_by(
                events.last(),
            ) {
                1int
            } else {
                0int
            }
        }
    }
}

/// The start of carrying env files into a worktree, given the primary checkout
/// of its repository.
pub open spec fn carry_start(worktree_path: PathView, primary_dir: Option<PathView>) -> CarryView {
    CarryView {
        primary_dir,
        worktree_path,
        carried: 0,
        stage: if primary_dir is Some {
            CarryStageView::Listing
        } else {
            CarryStageView::Done
        },
    }
}

/// Links every `.env*` file from the primary checkout of the repository that
/// owns `worktree_path` into `worktree_path`: gives the work to be done, which
/// ends with the number of files linked or copied; zero when there is no primary
/// checkout, because the path is not a git checkout or the repository is bare.
pub fn carry_env_files(worktree_path: &RepoPath, primary_dir: Option<RepoPath>) -> (r: EnvCarry)
    ensures
        r@ == carry_start(worktree_path@, opt_view(primary_dir)),
{
    let stage = if primary_dir.is_some() {
        CarryStage::Listing
    } else {
        CarryStage::Done
    };
    EnvCarry { primary_dir, worktree_path: worktree_path.clone(), carried: 0, stage }
}

impl EnvCarry {
    fn transfer(&self, source: &RepoPath) -> (r: Option<Transfer>)
        ensures
            opt_view(r) == transfer_of(source@, self.worktree_path@),
    {
        match source.file_name_text() {
            Some(name) => {
                if is_env_file_name(name.as_str()) {
                    assert(source@.last() == source.components@.last()@);
                    let last = &source.components[source.components.len() - 1];
                    Some(
                        Transfer { source: source.clone(), target: self.worktree_path.push(last) },
                    )
                } else {
                    None
                }
            },
            None => None,
        }
    }

    /// Takes the carrying one step on. An event that it does not wait for
    /// changes nothing.
    pub fn step(&mut self, event: CarryEvent)
        requires
            old(self)@.carried < usize::MAX,
        ensures
            final(self)@ == old(self)@.step(event@),
    {
        let stage = match (&self.stage, event) {
            (CarryStage::Listing, CarryEvent::Listed { ok }) => {
                if ok {
                    CarryStage::NextEntry
                } else {
                    CarryStage::Failed(CarryFailure::ReadDir)
                }
            },
            (CarryStage::NextEntry, CarryEvent::Entry { source }) => {
                match self.transfer(&source) {
                    Some(transfer) => CarryStage::CheckingSource(transfer),
                    None => return,
                }
            },
            (CarryStage::NextEntry, CarryEvent::EntryFailed) => CarryStage::Failed(
                CarryFailure::ReadEntry,
            ),
            (CarryStage::NextEntry, CarryEvent::NoMoreEntries) => CarryStage::Done,
            (CarryStage::CheckingSource(transfer), CarryEvent::Metadata { reply }) => {
                if is_file_like(reply) {
                    CarryStage::CheckingTarget(transfer.clone())
                } else {
                    CarryStage::NextEntry
                }
            },
            (CarryStage::CheckingTarget(transfer), CarryEvent::Metadata { reply }) => {
                match reply {
                    MetadataReply::Failed => CarryStage::Failed(CarryFailure::TargetMetadata),
                    MetadataReply::Found(_) => CarryStage::NextEntry,
                    MetadataReply::Missing => CarryStage::Linking(transfer.clone()),
                }
            },
            (CarryStage::Linking(transfer), CarryEvent::Linked { ok }) => {
                if ok {
                    self.carried += 1;
                    CarryStage::NextEntry
                } else {
                    CarryStage::Copying(transfer.clone())
                }
            },
            (CarryStage::Copying(_), CarryEvent::Copied { ok }) => {
                if ok {
                    self.carried += 1;
                    CarryStage::NextEntry
                } else {
                    CarryStage::Failed(CarryFailure::Copy)
                }
            },
            _ => return,
        };
        self.stage = stage;
    }

    /// What is to be done next.
    pub fn action(&self) -> (r: CarryAction)
        ensures
            r@ == self@.action(),
    {
        match &self.stage {
            CarryStage::Listing => match &self.primary_dir {
                Some(dir) => CarryAction::ReadDir { dir: dir.clone() },
                None => CarryAction::Done { carried: self.carried },
            },
            CarryStage::NextEntry => CarryAction::ReadEntry,
            CarryStage::CheckingSource(transfer) => CarryAction::Metadata {
                path: transfer.source.clone(),
            },
            CarryStage::CheckingTarget(transfer) => CarryAction::Metadata {
                path: transfer.target.clone(),
            },
            CarryStage::Linking(transfer) => CarryAction::Symlink {
                target: transfer.target.clone(),
                source: transfer.source.clone(),
            },
            CarryStage::Copying(transfer) => CarryAction::Copy {
                source: transfer.source.clone(),
                target: transfer.target.clone(),
            },
            CarryStage::Done => CarryAction::Done { carried: self.carried },
            CarryStage::Failed(failure) => CarryAction::Fail { failure: *failure },
        }
    }
}

/// The transfer that a stage is about.
pub open spec fn stage_transfer(stage: CarryStageView) -> Option<TransferView> {
    match stage {
        CarryStageView::CheckingSource(transfer) => Some(transfer),
        CarryStageView::CheckingTarget(transfer) => Some(transfer),
        CarryStageView::Linking(transfer) => Some(transfer),
        CarryStageView::Copying(transfer) => Some(transfer),
        _ => None,
    }
}

/// Only env files are ever carried, and each goes into the worktree under its
/// own name.
pub proof fn only_env_files_are_carried(
    worktree_path: PathView,
    primary_dir: Option<PathView>,
    events: Seq<CarryEventView>,
)
    ensures
        ({
            let now = carry_start(worktree_path, primary_dir).run(events);
            &&& now.worktree_path == worktree_path
            &&& now.primary_dir == primary_dir
            &&& stage_transfer(now.stage) matches Some(transfer) ==> transfer_of(
                transfer.source,
                worktree_path,
            ) == Some(transfer)
        }),
    decreases events.len(),
{
    if events.len() > 0 {
        only_env_files_are_carried(worktree_path, primary_dir, events.drop_last());
    }
}

/// The number of files carried is the number of links and copies that
/// succeeded.
pub proof fn carried_counts_successes(
    worktree_path: PathView,
    primary_dir: Option<PathView>,
    events: Seq<CarryEventView>,
)
    ensures
        carry_start(worktree_path, primary_dir).run(events).carried == carry_start(
            worktree_path,
            primary_dir,
        ).successes(events),
    decreases events.len(),
{
    if events.len() > 0 {
        carried_counts_successes(worktree_path, primary_dir, events.drop_last());
    }
}

/// Directories are passed over: the worktree is asked for a file only after the
/// answer that its source is there and is no directory.
pub proof fn directories_are_passed_over(carry: CarryView, event: CarryEventView)
    requires
        carry.step(event).stage is CheckingTarget,
        !(carry.stage is CheckingTarget),
    ensures
        carry.stage == CarryStageView::CheckingSource(carry.step(event).stage->CheckingTarget_0),
        carry.action() == (CarryActionView::Metadata {
            path: carry.step(event).stage->CheckingTarget_0.source,
        }),
        event matches CarryEventView::Metadata { reply } && file_like(reply),
{
}

/// A file already present in the worktree wins: a link is asked for only after
/// the answer that its target is missing.
pub proof fn present_file_wins(carry: CarryView, event: CarryEventView)
    requires
        carry.step(event).stage is Linking,
        !(carry.stage is Linking),
    ensures
        carry.stage == CarryStageView::CheckingTarget(carry.step(event).stage->Linking_0),
        event == (CarryEventView::Metadata { reply: MetadataReply::Missing }),
        carry.action() == (CarryActionView::Metadata {
            path: carry.step(event).stage->Linking_0.target,
        }),
{
}

/// A copy is asked for only of a file that could not be linked, to the same
/// place.
pub proof fn copy_follows_failed_link(carry: CarryView, event: CarryEventView)
    requires
        carry.step(event).stage is Copying,
        !(carry.stage is Copying),
    ensures
        carry.stage == CarryStageView::Linking(carry.step(event).stage->Copying_0),
        event == (CarryEventView::Linked { ok: false }),
{
}

/// Outside a git checkout nothing is done and nothing is carried, whatever
/// happens.
pub proof fn nothing_is_carried_outside_a_checkout(
    worktree_path: PathView,
    events: Seq<CarryEventView>,
)
    ensures
        carry_start(worktree_path, None).run(events).action() == (CarryActionView::Done {
            carried: 0,
        }),
        carry_start(worktree_path, None).run(events) == carry_start(worktree_path, None),
    decreases events.len(),
{
    if events.len() > 0 {
        nothing_is_carried_outside_a_checkout(worktree_path, events.drop_last());
    }
}

/// In the primary checkout itself the target of every entry is the entry.
pub proof fn primary_checkout_carries_onto_itself(primary_dir: PathView, source: PathView)
    requires
        source.len() > 0,
        source.drop_last() == primary_dir,
    ensures
        transfer_of(source, primary_dir) matches Some(transfer) ==> transfer.target == source,
{
    assert(source.drop_last().push(source.last()) =~= source);
}

/// In a bare repository nothing is done and nothing is carried: it has no
/// primary checkout.
pub proof fn nothing_is_carried_in_a_bare_repository(
    worktree_path: PathView,
    dot_git: MetadataReply,
    gitdir: Option<PathView>,
    events: Seq<CarryEventView>,
)
    ensures
        carry_start(worktree_path, primary_checkout(worktree_path, dot_git, gitdir, true)).run(
            events,
        ).action() == (CarryActionView::Done { carried: 0 }),
{
    nothing_is_carried_outside_a_checkout(worktree_path, events);
}

/// What the file at each path is.
pub type Files = spec_fn(PathView) -> MetadataReply;

impl CarryView {
    /// The files once an event came: a link or a copy that succeeded is there.
    pub open spec fn files_after(self, files: Files, event: CarryEventView) -> Files {
        if self.is_carried_by(event) {
            let target = stage_transfer(self.stage)->0.target;
            let made = MetadataReply::Found(
                FileMetadata { is_dir: false, is_symlink: self.stage is Linking },
            );
            |path: PathView|
                if path == target {
                    made
                } else {
                    files(path)
                }
        } else {
            files
        }
    }

    /// The files after a list of events.
    pub open spec fn files_run(self, files: Files, events: Seq<CarryEventView>) -> Files
        decreases events.len(),
    {
        if events.len() == 0 {
            files
        } else {
            let init = events.drop_last();
            self.run(init).files_after(self.files_run(files, init), events.last())
        }
    }

    /// Whether an event answers what is to be done next, as the files and the
    /// listing of the primary checkout have it, once the entries that `before`
    /// holds were read. Any reading, link or copy may fail.
    pub open spec fn is_answered_by(
        self,
        files: Files,
        listing: Seq<PathView>,
        before: Seq<CarryEventView>,
        event: CarryEventView,
    ) -> bool {
        match self.action() {
            CarryActionView::ReadDir { .. } => event is Listed,
            CarryActionView::ReadEntry => match event {
                CarryEventView::Entry { source } => listing.contains(source),
                CarryEventView::EntryFailed => true,
                CarryEventView::NoMoreEntries => forall|i: int|
                    0 <= i < listing.len() ==> before.contains(
                        CarryEventView::Entry { source: #[trigger] listing[i] },
                    ),
                _ => false,
            },
            CarryActionView::Metadata { path } => event == (CarryEventView::Metadata {
                reply: files(path),
            }),
            CarryActionView::Symlink { .. } => event is Linked,
            CarryActionView::Copy { .. } => event is Copied,
            CarryActionView::Done { .. } => false,
            CarryActionView::Fail { .. } => false,
        }
    }

    /// Whether every event of a list answers what was to be done then.
    pub open spec fn is_answered(
        self,
        files: Files,
        listing: Seq<PathView>,
        events: Seq<CarryEventView>,
    ) -> bool
        decreases events.len(),
    {
        events.len() > 0 ==> {
            let init = events.drop_last();
            &&& self.is_answered(files, listing, init)
            &&& self.run(init).is_answered_by(
                self.files_run(files, init),
                listing,
                init,
                events.last(),
            )
        }
    }
}

/// Whether an entry of the primary checkout has nothing left to carry: it is no
/// env file, or its place in the worktree is taken.
pub open spec fn is_settled(files: Files, worktree_path: PathView, source: PathView) -> bool {
    transfer_of(source, worktree_path) matches Some(transfer) ==> (file_like(files(source))
        ==> files(transfer.target) is Found)
}

proof fn lemma_settled_stays(
    files: Files,
    worktree_path: PathView,
    carry: CarryView,
    event: CarryEventView,
    source: PathView,
)
    requires
        is_settled(files, worktree_path, source),
        stage_transfer(carry.stage) matches Some(transfer) ==> transfer_of(
            transfer.source,
            worktree_path,
        ) == Some(transfer),
    ensures
        is_settled(carry.files_after(files, event), worktree_path, source),
{
    if carry.is_carried_by(event) && transfer_of(source, worktree_path) is Some {
        let transfer = stage_transfer(carry.stage)->0;
        if source == transfer.target {
            assert(source.last() == transfer.source.last());
            assert(transfer_of(source, worktree_path)->0.target == transfer.target);
        }
    }
}

/// Whether the entries that were read are settled, but for the one at hand.
spec fn read_entries_settled(now: CarryView, files: Files, events: Seq<CarryEventView>) -> bool {
    forall|source: PathView|
        #![trigger events.contains(CarryEventView::Entry { source })]
        events.contains(CarryEventView::Entry { source }) ==> is_settled(
            files,
            now.worktree_path,
            source,
        ) || (stage_transfer(now.stage) matches Some(transfer) && transfer.source == source)
}

proof fn lemma_read_entries_settled(
    start: CarryView,
    files: Files,
    listing: Seq<PathView>,
    events: Seq<CarryEventView>,
)
    requires
        start == carry_start(start.worktree_path, start.primary_dir),
        start.is_answered(files, listing, events),
        !(start.run(events).stage is Failed),
    ensures
        read_entries_settled(start.run(events), start.files_run(files, events), events),
        start.run(events).stage matches CarryStageView::CheckingTarget(transfer) ==> file_like(
            start.files_run(files, events)(transfer.source),
        ),
        start.run(events).stage is Done && start.primary_dir is Some ==> forall|i: int|
            0 <= i < listing.len() ==> events.contains(
                CarryEventView::Entry { source: #[trigger] listing[i] },
            ),
    decreases events.len(),
{
    if events.len() > 0 {
        let init = events.drop_last();
        let event = events.last();
        let was = start.run(init);
        let now = start.run(events);
        let had = start.files_run(files, init);
        let have = start.files_run(files, events);
        assert(!(was.stage is Failed));
        lemma_read_entries_settled(start, files, listing, init);
        only_env_files_are_carried(start.worktree_path, start.primary_dir, init);
        only_env_files_are_carried(start.worktree_path, start.primary_dir, events);
        assert forall|source: PathView|
            #![trigger events.contains(CarryEventView::Entry { source })]
            events.contains(CarryEventView::Entry { source }) implies is_settled(
            have,
            now.worktree_path,
            source,
        ) || (stage_transfer(now.stage) matches Some(transfer) && transfer.source == source) by {
            let entry = CarryEventView::Entry { source };
            let i = choose|i: int| 0 <= i < events.len() && events[i] == entry;
            if i < init.len() {
                assert(init[i] == entry);
                assert(init.contains(entry));
                if is_settled(had, was.worktree_path, source) {
                    lemma_settled_stays(had, was.worktree_path, was, event, source);
                }
            }
        }
        if now.stage is Done && start.primary_dir is Some {
            assert(was.stage is NextEntry);
            assert forall|i: int| 0 <= i < listing.len() implies events.contains(
                CarryEventView::Entry { source: #[trigger] listing[i] },
            ) by {
                let entry = CarryEventView::Entry { source: listing[i] };
                assert(init.contains(entry));
                let k = choose|k: int| 0 <= k < init.len() && init[k] == entry;
                assert(events[k] == entry);
            }
        }
    }
}

proof fn lemma_settled_listing_carries_nothing(
    start: CarryView,
    files: Files,
    listing: Seq<PathView>,
    events: Seq<CarryEventView>,
)
    requires
        start == carry_start(start.worktree_path, start.primary_dir),
        start.is_answered(files, listing, events),
        forall|i: int|
            0 <= i < listing.len() ==> is_settled(
                files,
                start.worktree_path,
                #[trigger] listing[i],
            ),
    ensures
        start.run(events).carried == 0,
        start.files_run(files, events) == files,
        !(start.run(events).stage is Linking),
        !(start.run(events).stage is Copying),
        stage_transfer(start.run(events).stage) matches Some(transfer) ==> is_settled(
            files,
            start.worktree_path,
            transfer.source,
        ),
        start.run(events).stage matches CarryStageView::CheckingTarget(transfer) ==> file_like(
            files(transfer.source),
        ),
    decreases events.len(),
{
    if events.len() > 0 {
        let init = events.drop_last();
        lemma_settled_listing_carries_nothing(start, files, listing, init);
        only_env_files_are_carried(start.worktree_path, start.primary_dir, init);
        if let CarryEventView::Entry { source } = events.last() {
            if start.run(init).stage is NextEntry {
                let i = choose|i: int| 0 <= i < listing.len() && listing[i] == source;
                assert(is_settled(files, start.worktree_path, listing[i]));
            }
        }
    }
}

/// Once a carrying went through, another one over the files as they are then
/// carries nothing and leaves the files as they are.
pub proof fn second_carry_carries_nothing(
    worktree_path: PathView,
    primary_dir: Option<PathView>,
    files: Files,
    listing: Seq<PathView>,
    first: Seq<CarryEventView>,
    second: Seq<CarryEventView>,
)
    requires
        carry_start(worktree_path, primary_dir).is_answered(files, listing, first),
        carry_start(worktree_path, primary_dir).run(first).stage is Done,
        carry_start(worktree_path, primary_dir).is_answered(
            carry_start(worktree_path, primary_dir).files_run(files, first),
            listing,
            second,
        ),
    ensures
        ({
            let start = carry_start(worktree_path, primary_dir);
            let then = start.files_run(files, first);
            &&& start.run(second).carried == 0
            &&& start.files_run(then, second) == then
        }),
{
    let start = carry_start(worktree_path, primary_dir);
    let then = start.files_run(files, first);
    if primary_dir is None {
        if second.len() > 0 {
            nothing_is_carried_outside_a_checkout(worktree_path, second.drop_last());
        }
    } else {
        lemma_read_entries_settled(start, files, listing, first);
        only_env_files_are_carried(worktree_path, primary_dir, first);
        assert forall|i: int| 0 <= i < listing.len() implies is_settled(
            then,
            worktree_path,
            #[trigger] listing[i],
        ) by {
            assert(first.contains(CarryEventView::Entry { source: listing[i] }));
        }
        lemma_settled_listing_carries_nothing(start, then, listing, second);
    }
}

/// A carrying in the primary checkout itself carries nothing and leaves the
/// files as they are.
pub proof fn carry_in_the_primary_checkout_carries_nothing(
    primary_dir: PathView,
    files: Files,
    listing: Seq<PathView>,
    events: Seq<CarryEventView>,
)
    requires
        forall|i: int|
            0 <= i < listing.len() ==> (#[trigger] listing[i]).len() > 0 && listing[i].drop_last()
                == primary_dir,
        carry_start(primary_dir, Some(primary_dir)).is_answered(files, listing, events),
    ensures
        carry_start(primary_dir, Some(primary_dir)).run(events).carried == 0,
        carry_start(primary_dir, Some(primary_dir)).files_run(files, events) == files,
{
    assert forall|i: int| 0 <= i < listing.len() implies is_settled(
        files,
        primary_dir,
        #[trigger] listing[i],
    ) by {
        primary_checkout_carries_onto_itself(primary_dir, listing[i]);
    }
    lemma_settled_listing_carries_nothing(
        carry_start(primary_dir, Some(primary_dir)),
        files,
        listing,
        events,
    );
}

} // verus!
