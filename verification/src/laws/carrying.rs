//! What finding a primary checkout and carrying env files promise.

use vstd::prelude::*;
use vstd::utf8::{
    encode_utf8, encode_utf8_decode_utf8, encode_utf8_valid_utf8, is_ascii_chars_encode_utf8,
    valid_utf8,
};

use crate::env_carry::{
    carry_start, CarryActionView, CarryEventView, CarryFailure, CarryStageView,
    CarryView, TransferView,
};
use crate::env_vault::{
    checkout_above, dot_git_name, file_like, is_env_name, is_git_directory, pointer_path,
    pointer_target, primary_checkout, repository_dir, FileMetadata, MetadataReply,
};
use crate::laws::text::{
    other_text_leaves_nothing, prefix_is_the_beginning, what_follows_a_prefix_is_left,
};
use crate::path::{file_name_text_of, posix_path, resolved, ComponentView, PathView};
use crate::text::trimmed;

verus! {

/// A name is that of an env file exactly if it is `.env`, or `.env.` and any
/// text behind it.
pub proof fn env_names_are_those_that_begin_with_dot_env(name: Seq<char>)
    ensures
        is_env_name(name) <==> (name == ".env"@ || exists|rest: Seq<char>|
            name == #[trigger] (".env."@ + rest)),
{
    prefix_is_the_beginning(name, ".env."@);
}

/// Whatever follows `.env.`, the name is that of an env file.
pub proof fn any_ending_makes_an_env_name(rest: Seq<char>)
    ensures
        is_env_name(".env."@ + rest),
        is_env_name(".env"@),
{
    prefix_is_the_beginning(".env."@ + rest, ".env."@);
}

/// Whether a text is `.env`, or `.env.` and any text behind it.
pub open spec fn begins_with_dot_env(name: Seq<char>) -> bool {
    name == ".env"@ || exists|rest: Seq<char>| name == #[trigger] (".env."@ + rest)
}

/// Every env file that is a file in the primary checkout and missing in the
/// worktree is linked into the worktree under its own name, whatever its
/// ending; where that fails it is copied there.
pub proof fn every_missing_env_file_is_linked(
    carry: CarryView,
    dir: PathView,
    name: Seq<char>,
    metadata: FileMetadata,
)
    requires
        carry.stage is NextEntry,
        begins_with_dot_env(name),
        !metadata.is_dir,
    ensures
        ({
            let last = ComponentView::Normal(encode_utf8(name));
            let source = dir.push(last);
            let target = carry.worktree_path.push(last);
            let entered = carry.step(CarryEventView::Entry { source });
            let there = entered.step(
                CarryEventView::Metadata { reply: MetadataReply::Found(metadata) },
            );
            let missing = there.step(CarryEventView::Metadata { reply: MetadataReply::Missing });
            let unlinked = missing.step(CarryEventView::Linked { ok: false });
            &&& entered.action() == (CarryActionView::Metadata { path: source })
            &&& there.action() == (CarryActionView::Metadata { path: target })
            &&& missing.action() == (CarryActionView::Symlink { target, source })
            &&& unlinked.action() == (CarryActionView::Copy { source, target })
        }),
{
    let source = dir.push(ComponentView::Normal(encode_utf8(name)));
    encode_utf8_decode_utf8(name);
    encode_utf8_valid_utf8(name);
    env_names_are_those_that_begin_with_dot_env(name);
    assert(file_name_text_of(source) == Some(name));
    assert(source.last() == ComponentView::Normal(encode_utf8(name)));
}

/// An entry of any other name is passed over, and so is one whose last
/// component is no name, or no text.
pub proof fn other_entries_are_passed_over(
    carry: CarryView,
    dir: PathView,
    name: Seq<char>,
    bytes: Seq<u8>,
    last: ComponentView,
)
    requires
        carry.stage is NextEntry,
        !begins_with_dot_env(name),
        !valid_utf8(bytes),
        !(last is Normal),
    ensures
        carry.step(
            CarryEventView::Entry { source: dir.push(ComponentView::Normal(encode_utf8(name))) },
        ) == carry,
        carry.step(CarryEventView::Entry { source: dir.push(ComponentView::Normal(bytes)) })
            == carry,
        carry.step(CarryEventView::Entry { source: dir.push(last) }) == carry,
        carry.step(CarryEventView::Entry { source: seq![] }) == carry,
{
    encode_utf8_decode_utf8(name);
    encode_utf8_valid_utf8(name);
    env_names_are_those_that_begin_with_dot_env(name);
}

/// A carrying with a primary checkout first lists it; without one it is over.
pub proof fn carrying_starts_at_the_primary_checkout(worktree_path: PathView, dir: PathView)
    ensures
        carry_start(worktree_path, Some(dir)).action() == (CarryActionView::ReadDir { dir }),
        carry_start(worktree_path, Some(dir)).carried == 0,
        carry_start(worktree_path, Some(dir)).worktree_path == worktree_path,
        carry_start(worktree_path, Some(dir)).step(CarryEventView::Listed { ok: true }).action()
            == CarryActionView::ReadEntry,
        carry_start(worktree_path, None).action() == (CarryActionView::Done { carried: 0 }),
{
}

/// A file is left alone where it is a directory or cannot be found in the
/// primary checkout, or where anything is at its place in the worktree.
pub proof fn files_are_left_alone_where_they_need_nothing(
    carry: CarryView,
    transfer: TransferView,
    metadata: FileMetadata,
)
    ensures
        ({
            let checking = CarryView { stage: CarryStageView::CheckingSource(transfer), ..carry };
            let placing = CarryView { stage: CarryStageView::CheckingTarget(transfer), ..carry };
            let next = CarryView { stage: CarryStageView::NextEntry, ..carry };
            &&& checking.step(CarryEventView::Metadata { reply: MetadataReply::Missing }) == next
            &&& checking.step(CarryEventView::Metadata { reply: MetadataReply::Failed }) == next
            &&& metadata.is_dir ==> checking.step(
                CarryEventView::Metadata { reply: MetadataReply::Found(metadata) },
            ) == next
            &&& placing.step(CarryEventView::Metadata { reply: MetadataReply::Found(metadata) })
                == next
        }),
{
}

/// A link that is made, or a copy, counts one file, and the next entry is read.
pub proof fn made_files_are_counted(carry: CarryView, transfer: TransferView)
    ensures
        ({
            let linking = CarryView { stage: CarryStageView::Linking(transfer), ..carry };
            let copying = CarryView { stage: CarryStageView::Copying(transfer), ..carry };
            let next = CarryView {
                stage: CarryStageView::NextEntry,
                carried: carry.carried + 1,
                ..carry
            };
            &&& linking.step(CarryEventView::Linked { ok: true }) == next
            &&& copying.step(CarryEventView::Copied { ok: true }) == next
            &&& next.action() == CarryActionView::ReadEntry
        }),
{
}

/// The carrying ends with its count once there are no more entries, and fails
/// where a listing, an entry, the answer for a target or a copy fails.
pub proof fn carrying_ends_with_its_count_or_a_failure(carry: CarryView, transfer: TransferView)
    ensures
        ({
            let listing = CarryView { stage: CarryStageView::Listing, ..carry };
            let reading = CarryView { stage: CarryStageView::NextEntry, ..carry };
            let placing = CarryView { stage: CarryStageView::CheckingTarget(transfer), ..carry };
            let copying = CarryView { stage: CarryStageView::Copying(transfer), ..carry };
            &&& reading.step(CarryEventView::NoMoreEntries).action() == (CarryActionView::Done {
                carried: carry.carried,
            })
            &&& listing.step(CarryEventView::Listed { ok: false }).action() == (
            CarryActionView::Fail { failure: CarryFailure::ReadDir })
            &&& reading.step(CarryEventView::EntryFailed).action() == (CarryActionView::Fail {
                failure: CarryFailure::ReadEntry,
            })
            &&& placing.step(
                CarryEventView::Metadata { reply: MetadataReply::Failed },
            ).action() == (CarryActionView::Fail { failure: CarryFailure::TargetMetadata })
            &&& copying.step(CarryEventView::Copied { ok: false }).action() == (
            CarryActionView::Fail { failure: CarryFailure::Copy })
        }),
{
}

/// No event but one that answers what was asked changes anything.
pub proof fn unasked_events_change_nothing(
    carry: CarryView,
    source: PathView,
    reply: MetadataReply,
    ok: bool,
)
    ensures
        !(carry.stage is Listing) ==> carry.step(CarryEventView::Listed { ok }) == carry,
        !(carry.stage is NextEntry) ==> {
            &&& carry.step(CarryEventView::Entry { source }) == carry
            &&& carry.step(CarryEventView::EntryFailed) == carry
            &&& carry.step(CarryEventView::NoMoreEntries) == carry
        },
        !(carry.stage is CheckingSource) && !(carry.stage is CheckingTarget) ==> carry.step(
            CarryEventView::Metadata { reply },
        ) == carry,
        !(carry.stage is Linking) ==> carry.step(CarryEventView::Linked { ok }) == carry,
        !(carry.stage is Copying) ==> carry.step(CarryEventView::Copied { ok }) == carry,
{
}

/// No event changes the worktree, or the primary checkout, of a carrying.
pub proof fn carrying_keeps_its_places(carry: CarryView, event: CarryEventView)
    ensures
        carry.step(event).worktree_path == carry.worktree_path,
        carry.step(event).primary_dir == carry.primary_dir,
{
}

/// A file is one exactly if it was found and is no directory.
pub proof fn files_are_found_and_no_directories(metadata: FileMetadata)
    ensures
        file_like(MetadataReply::Found(metadata)) == !metadata.is_dir,
        !file_like(MetadataReply::Missing),
        !file_like(MetadataReply::Failed),
{
}

/// A git directory is one that was found, is a directory, and is no link.
pub proof fn git_directories_are_plain_directories(metadata: FileMetadata)
    ensures
        is_git_directory(MetadataReply::Found(metadata)) == (metadata.is_dir
            && !metadata.is_symlink),
        !is_git_directory(MetadataReply::Missing),
        !is_git_directory(MetadataReply::Failed),
{
}

/// The component `.git`.
pub open spec fn dot_git() -> ComponentView {
    ComponentView::Normal(encode_utf8(".git"@))
}

/// The `.git` of a directory is the entry of that name.
pub proof fn dot_git_is_the_entry_of_that_name()
    ensures
        dot_git() == ComponentView::Normal(dot_git_name()),
{
    reveal_strlit(".git");
    is_ascii_chars_encode_utf8(".git"@);
    assert(encode_utf8(".git"@) =~= dot_git_name());
}

/// The checkout of a git directory is the directory that holds the last `.git`
/// of its path, where only names follow that.
pub proof fn checkout_holds_the_last_dot_git(checkout: PathView, below: PathView)
    requires
        forall|i: int|
            0 <= i < below.len() ==> (#[trigger] below[i]) is Normal && below[i] != dot_git(),
    ensures
        checkout_above(checkout.push(dot_git()) + below) == Some(checkout),
    decreases below.len(),
{
    dot_git_is_the_entry_of_that_name();
    let gitdir = checkout.push(dot_git()) + below;
    if below.len() == 0 {
        assert(gitdir =~= checkout.push(dot_git()));
        assert(gitdir.drop_last() =~= checkout);
    } else {
        assert(below[below.len() - 1] is Normal);
        assert(gitdir.drop_last() =~= checkout.push(dot_git()) + below.drop_last());
        checkout_holds_the_last_dot_git(checkout, below.drop_last());
    }
}

/// There is no checkout where no `.git` is among the names that a path ends in.
pub proof fn no_checkout_without_dot_git(head: PathView, names: PathView)
    requires
        head.len() > 0 ==> !(head.last() is Normal),
        forall|i: int|
            0 <= i < names.len() ==> (#[trigger] names[i]) is Normal && names[i] != dot_git(),
    ensures
        checkout_above(head + names) is None,
    decreases names.len(),
{
    dot_git_is_the_entry_of_that_name();
    if names.len() == 0 {
        assert(head + names =~= head);
    } else {
        assert(names[names.len() - 1] is Normal);
        assert((head + names).drop_last() =~= head + names.drop_last());
        no_checkout_without_dot_git(head, names.drop_last());
    }
}

/// A pointer file names what follows `gitdir:`, without the white space around
/// it; any other file names nothing.
pub proof fn pointer_names_what_follows_gitdir(rest: Seq<char>, other: Seq<char>)
    requires
        forall|x: Seq<char>| other != #[trigger] ("gitdir:"@ + x),
    ensures
        pointer_target("gitdir:"@ + rest) == Some(trimmed(rest)),
        pointer_path(Some("gitdir:"@ + rest)) == Some(posix_path(encode_utf8(trimmed(rest)))),
        pointer_target(other) is None,
        pointer_path(Some(other)) is None,
        pointer_path(None) is None,
{
    what_follows_a_prefix_is_left("gitdir:"@, rest);
    other_text_leaves_nothing(other, "gitdir:"@);
}

/// The repository of a directory lies there where its `.git` is a directory,
/// and otherwise where the checkout of the git directory is that its `.git`
/// names; without a `.git`, or one that names nothing, there is none.
pub proof fn repository_lies_at_its_git_directory(
    worktree_path: PathView,
    metadata: FileMetadata,
    gitdir: PathView,
)
    ensures
        metadata.is_dir && !metadata.is_symlink ==> {
            &&& repository_dir(worktree_path, MetadataReply::Found(metadata), None) == Some(
                worktree_path,
            )
            &&& repository_dir(worktree_path, MetadataReply::Found(metadata), Some(gitdir))
                == Some(worktree_path)
        },
        !metadata.is_dir || metadata.is_symlink ==> {
            &&& repository_dir(worktree_path, MetadataReply::Found(metadata), None) is None
            &&& repository_dir(worktree_path, MetadataReply::Found(metadata), Some(gitdir))
                == checkout_above(resolved(worktree_path, gitdir))
        },
        repository_dir(worktree_path, MetadataReply::Missing, Some(gitdir)) is None,
        repository_dir(worktree_path, MetadataReply::Failed, Some(gitdir)) is None,
        repository_dir(worktree_path, MetadataReply::Missing, None) is None,
        repository_dir(worktree_path, MetadataReply::Failed, None) is None,
{
}

/// The primary checkout is where the repository lies, unless that is bare.
pub proof fn primary_checkout_is_that_of_the_repository(
    worktree_path: PathView,
    reply: MetadataReply,
    gitdir: Option<PathView>,
)
    ensures
        primary_checkout(worktree_path, reply, gitdir, false) == repository_dir(
            worktree_path,
            reply,
            gitdir,
        ),
        primary_checkout(worktree_path, reply, gitdir, true) is None,
{
}

} // verus!
