//! What the rows and the footer promise to show.

use vstd::prelude::*;
use vstd::utf8::encode_utf8;

use crate::laws::acting::at_row;
use crate::model::{EntryView, RemoteBranchView, WorktreeView};
use crate::path::PathView;
use crate::picker::{blocked_reason, DelegateView};
use crate::render::{
    create_item, CreateItemView, Footer, RenderedRowView, RowContextView, RowEnd,
};
use crate::text::{first_line_of, shortened};

verus! {

/// What a row shows.
pub open spec fn shown_row(
    picker: DelegateView,
    before: Seq<EntryView>,
    row: EntryView,
    after: Seq<EntryView>,
    selected: bool,
    context: RowContextView,
) -> Option<RenderedRowView> {
    at_row(picker, before, row, after).renders(before.len() as int, selected, context)
}

/// A row that creates is disabled exactly where there is a reason, and shows
/// the reason.
pub proof fn reasons_disable_rows(
    id: Seq<char>,
    label: Seq<char>,
    reason: Option<Seq<char>>,
    selected: bool,
)
    ensures
        create_item(id, label, reason, selected) == (CreateItemView {
            id,
            label,
            disabled_tooltip: reason,
            is_disabled: reason is Some,
            selected,
        }),
{
}

/// A row of a creation: enabled, or disabled for a reason.
pub open spec fn creation(
    id: Seq<char>,
    label: Seq<char>,
    reason: Option<Seq<char>>,
    selected: bool,
) -> Option<RenderedRowView> {
    Some(
        RenderedRowView::Create(
            CreateItemView {
                id,
                label,
                disabled_tooltip: reason,
                is_disabled: reason is Some,
                selected,
            },
        ),
    )
}

/// The rows that offer a branch say which, and are disabled where creation is
/// blocked.
pub proof fn rows_say_which_branch_they_offer(
    picker: DelegateView,
    before: Seq<EntryView>,
    after: Seq<EntryView>,
    default_branch: RemoteBranchView,
    branch_name: Seq<char>,
    name: Seq<char>,
    selected: bool,
    context: RowContextView,
)
    ensures
        ({
            let reason = blocked_reason(context.is_via_collab, context.repository_count);
            let show = |row: EntryView|
                shown_row(picker, before, row, after, selected, context);
            let based = "Create new worktree based on "@ + context.branch_label;
            &&& show(EntryView::CreateFromCurrentBranch) == creation(
                "create-from-current"@,
                based,
                reason,
                selected,
            )
            &&& show(EntryView::CreateFromDefaultBranch { default_branch }) == creation(
                "create-from-main"@,
                based,
                reason,
                selected,
            )
            &&& show(EntryView::CreateFromExistingBranch { branch_name }) == creation(
                "create-from-existing-branch"@,
                "Open branch "@ + branch_name + " in a new worktree"@,
                reason,
                selected,
            )
            &&& show(EntryView::CreateNewBranch { name }) == creation(
                "create-new-branch"@,
                "Create new branch "@ + name + " and open in a new worktree"@,
                reason,
                selected,
            )
        }),
{
    lemma_at_row(picker, before, EntryView::CreateFromCurrentBranch, after);
    lemma_at_row(picker, before, EntryView::CreateFromDefaultBranch { default_branch }, after);
    lemma_at_row(picker, before, EntryView::CreateFromExistingBranch { branch_name }, after);
    lemma_at_row(picker, before, EntryView::CreateNewBranch { name }, after);
}

proof fn lemma_at_row(
    picker: DelegateView,
    before: Seq<EntryView>,
    row: EntryView,
    after: Seq<EntryView>,
)
    ensures
        at_row(picker, before, row, after).matches[before.len() as int] == row,
{
}

/// The row of a link says where its branch is opened, and is never disabled.
pub proof fn link_row_says_where_it_leads(
    picker: DelegateView,
    before: Seq<EntryView>,
    after: Seq<EntryView>,
    branch: Seq<char>,
    path: PathView,
    selected: bool,
    context: RowContextView,
)
    ensures
        ({
            let there = EntryView::CreateFromGitHubLink { branch, existing_path: Some(path) };
            let missing = EntryView::CreateFromGitHubLink { branch, existing_path: None };
            &&& shown_row(picker, before, there, after, selected, context) == creation(
                "create-from-github-link"@,
                "Open branch "@ + branch + " in "@ + context.compact_path,
                None,
                selected,
            )
            &&& shown_row(picker, before, missing, after, selected, context) == creation(
                "create-from-github-link"@,
                "Open branch "@ + branch + " in a new worktree"@,
                None,
                selected,
            )
        }),
{
    let there = EntryView::CreateFromGitHubLink { branch, existing_path: Some(path) };
    let missing = EntryView::CreateFromGitHubLink { branch, existing_path: None };
    lemma_at_row(picker, before, there, after);
    lemma_at_row(picker, before, missing, after);
}

/// The row of a named creation says the name and what the worktree starts from:
/// its branch, else the current branch, else the head; it is disabled for its
/// own reason alone.
pub proof fn named_row_says_its_name_and_base(
    picker: DelegateView,
    before: Seq<EntryView>,
    after: Seq<EntryView>,
    name: Seq<char>,
    branch: RemoteBranchView,
    disabled_reason: Option<Seq<char>>,
    selected: bool,
    context: RowContextView,
)
    ensures
        ({
            let from = EntryView::CreateNamed { name, from_branch: Some(branch), disabled_reason };
            let current = EntryView::CreateNamed { name, from_branch: None, disabled_reason };
            let says = "Create \""@ + name + "\" based on "@;
            &&& shown_row(picker, before, from, after, selected, context) == creation(
                "create-named-from-"@ + branch.shown,
                says + branch.shown,
                disabled_reason,
                selected,
            )
            &&& shown_row(picker, before, current, after, selected, context) == creation(
                "create-named-from-current"@,
                says + (match picker.current_branch_name {
                    Some(branch_name) => branch_name,
                    None => "HEAD"@,
                }),
                disabled_reason,
                selected,
            )
        }),
{
    let from = EntryView::CreateNamed { name, from_branch: Some(branch), disabled_reason };
    let current = EntryView::CreateNamed { name, from_branch: None, disabled_reason };
    lemma_at_row(picker, before, from, after);
    lemma_at_row(picker, before, current, after);
}

/// Separators are dividers, headers show their label, and where there is no row
/// nothing is shown.
pub proof fn dividers_and_headers_are_shown(
    picker: DelegateView,
    before: Seq<EntryView>,
    after: Seq<EntryView>,
    label: Seq<char>,
    selected: bool,
    context: RowContextView,
)
    ensures
        shown_row(picker, before, EntryView::Separator, after, selected, context) == Some(
            RenderedRowView::Divider,
        ),
        shown_row(picker, before, EntryView::SectionHeader(label), after, selected, context)
            == Some(RenderedRowView::Header(label)),
        picker.renders(picker.matches.len() as int, selected, context) is None,
{
    lemma_at_row(picker, before, EntryView::Separator, after);
    lemma_at_row(picker, before, EntryView::SectionHeader(label), after);
}

/// The row of a worktree shows the first line of its name, behind that of its
/// repository where it is of another one, its branch, the first seven
/// characters of its commit, and its path.
pub proof fn worktree_row_shows_the_worktree(
    picker: DelegateView,
    before: Seq<EntryView>,
    after: Seq<EntryView>,
    worktree: WorktreeView,
    positions: Seq<usize>,
    repo_name: Option<Seq<char>>,
    selected: bool,
    context: RowContextView,
)
    ensures
        ({
            let row = EntryView::Worktree { worktree, positions, repo_name };
            let name = match repo_name {
                Some(repo_name) => repo_name + seq!['/'] + context.directory_name,
                None => context.directory_name,
            };
            &&& shown_row(picker, before, row, after, selected, context) matches Some(
                RenderedRowView::Worktree(shown),
            ) && {
                &&& shown.index == before.len()
                &&& shown.selected == selected
                &&& shown.is_current == picker.active_worktree_paths.contains(worktree.path)
                &&& shown.name == first_line_of(name)
                &&& shown.positions == positions.filter(
                    |pos: usize| pos < encode_utf8(first_line_of(name)).len(),
                )
                &&& shown.branch == worktree.branch_name
                &&& shown.sha == shortened(worktree.sha, 7)
                &&& shown.path == context.compact_path
                &&& shown.end == picker.row_end(before.len() as int, worktree, repo_name)
            }
        }),
{
    let row = EntryView::Worktree { worktree, positions, repo_name };
    lemma_at_row(picker, before, row, after);
    if let Some(name) = repo_name {
        assert(name.push('/') + context.directory_name =~= name + seq!['/']
            + context.directory_name);
    }
}

/// A worktree that is being deleted shows that; one of the picker's own project
/// shows nothing; any other has buttons: to remove it from the window where it
/// is open there, and to delete it where it is of this repository and may be
/// deleted, with force while the alt key is held over the button.
pub proof fn buttons_say_what_can_be_done(
    picker: DelegateView,
    ix: int,
    worktree: WorktreeView,
    repo_name: Option<Seq<char>>,
)
    requires
        0 <= ix <= usize::MAX,
    ensures
        ({
            let end = picker.row_end(ix, worktree, repo_name);
            let open = picker.project_worktree_paths.contains(worktree.path);
            let deleting = picker.deleting_worktree_paths.contains(worktree.path);
            let own = picker.active_worktree_paths.contains(worktree.path);
            &&& deleting ==> end == RowEnd::Deleting
            &&& !deleting && own ==> end == RowEnd::Nothing
            &&& !deleting && !own ==> end == (RowEnd::Buttons {
                remove_from_window: open,
                delete: repo_name is None && !worktree.is_main && !open,
                force_delete: picker.alt && picker.hovered_delete_index == Some(ix as usize),
            })
        }),
{
}

/// The footer is shown where the picker has one, and offers what the selected
/// row can do: to create, or, of a worktree, to delete it where it is of this
/// repository and may be deleted, to open it, and to open it in a new window
/// where it is not open in the window; while it is deleted, none of these.
pub proof fn footer_offers_what_the_row_can_do(
    picker: DelegateView,
    before: Seq<EntryView>,
    row: EntryView,
    after: Seq<EntryView>,
)
    ensures
        ({
            let footer = at_row(picker, before, row, after).footer();
            &&& !picker.show_footer ==> footer is None
            &&& picker.show_footer ==> match row {
                EntryView::CreateFromCurrentBranch => footer == Some(Footer::Create),
                EntryView::CreateFromDefaultBranch { .. } => footer == Some(Footer::Create),
                EntryView::CreateNamed { .. } => footer == Some(Footer::Create),
                EntryView::Worktree { worktree, positions, repo_name } => {
                    let deleting = picker.deleting_worktree_paths.contains(worktree.path);
                    let open = picker.project_worktree_paths.contains(worktree.path);
                    footer == Some(
                        Footer::Worktree {
                            deleting,
                            delete: !deleting && repo_name is None && !worktree.is_main && !open,
                            open_in_new_window: !deleting && !open,
                            open: !deleting,
                        },
                    )
                },
                _ => footer is None,
            }
        }),
        picker.selected_index >= picker.matches.len() ==> picker.footer() is None,
{
    lemma_at_row(picker, before, row, after);
}

} // verus!
