//! What the rows, the footer and the buttons of the picker show.

use vstd::prelude::*;
use vstd::utf8::encode_utf8;

use crate::confirm::{nothing, ActionView, ConfirmContext};
use crate::model::{
    clone_text, EntryView, GitWorktree, RemoteBranchName, RemoteBranchView, WorktreeEntry,
    WorktreeView,
};
use crate::picker::{
    blocked_reason, creation_blocked_reason, DelegateView, WorktreePickerDelegate,
};
use crate::seqs::{lemma_filter_step, opt_view};
use crate::text;
use crate::text::{first_line_of, shortened};

verus! {

broadcast use vstd::string::group_string_axioms;

/// The name of the picker.
pub fn name() -> (r: String)
    ensures
        r@ == "worktree picker"@,
{
    "worktree picker".to_owned()
}

/// What the picker's empty query field says.
pub fn placeholder_text() -> (r: String)
    ensures
        r@ == "Select or type to create a worktree\u{2026}"@,
{
    "Select or type to create a worktree\u{2026}".to_owned()
}

/// A row that creates a worktree.
#[derive(Debug)]
pub struct CreateItem {
    pub id: String,
    pub label: String,
    /// Why nothing can be created.
    pub disabled_tooltip: Option<String>,
    pub is_disabled: bool,
    pub selected: bool,
}

/// The value of a row that creates a worktree.
#[verifier::ext_equal]
pub struct CreateItemView {
    pub id: Seq<char>,
    pub label: Seq<char>,
    pub disabled_tooltip: Option<Seq<char>>,
    pub is_disabled: bool,
    pub selected: bool,
}

impl View for CreateItem {
    type V = CreateItemView;

    open spec fn view(&self) -> CreateItemView {
        CreateItemView {
            id: self.id@,
            label: self.label@,
            disabled_tooltip: opt_view(self.disabled_tooltip),
            is_disabled: self.is_disabled,
            selected: self.selected,
        }
    }
}

/// A row that creates a worktree: it is disabled where there is a reason.
pub open spec fn create_item(
    id: Seq<char>,
    label: Seq<char>,
    disabled_tooltip: Option<Seq<char>>,
    selected: bool,
) -> CreateItemView {
    CreateItemView {
        id,
        label,
        disabled_tooltip,
        is_disabled: disabled_tooltip is Some,
        selected,
    }
}

/// A row that creates a worktree: it is disabled where there is a reason.
pub fn create_new_list_item(
    id: String,
    label: String,
    disabled_tooltip: Option<String>,
    selected: bool,
) -> (r: CreateItem)
    ensures
        r@ == create_item(id@, label@, opt_view(disabled_tooltip), selected),
{
    let is_disabled = disabled_tooltip.is_some();
    CreateItem { id, label, disabled_tooltip, is_disabled, selected }
}

/// The end of a worktree's row.
#[derive(Debug, Clone, Copy)]
pub enum RowEnd {
    Nothing,
    /// The worktree is being deleted.
    Deleting,
    /// Buttons: one that opens the worktree in a new window, and more.
    Buttons {
        /// One that removes the worktree from the window.
        remove_from_window: bool,
        /// One that deletes the worktree.
        delete: bool,
        /// Whether a click on that one forces the deletion.
        force_delete: bool,
    },
}

/// The row of a worktree.
#[derive(Debug)]
pub struct WorktreeRow {
    pub index: usize,
    pub selected: bool,
    /// Whether the worktree is open in the picker's own project.
    pub is_current: bool,
    pub name: String,
    /// The byte positions of the name that are highlighted.
    pub positions: Vec<usize>,
    pub branch: Option<String>,
    pub sha: String,
    pub path: String,
    pub end: RowEnd,
}

/// The value of the row of a worktree.
#[verifier::ext_equal]
pub struct WorktreeRowView {
    pub index: int,
    pub selected: bool,
    pub is_current: bool,
    pub name: Seq<char>,
    pub positions: Seq<usize>,
    pub branch: Option<Seq<char>>,
    pub sha: Seq<char>,
    pub path: Seq<char>,
    pub end: RowEnd,
}

impl View for WorktreeRow {
    type V = WorktreeRowView;

    open spec fn view(&self) -> WorktreeRowView {
        WorktreeRowView {
            index: self.index as int,
            selected: self.selected,
            is_current: self.is_current,
            name: self.name@,
            positions: self.positions@,
            branch: opt_view(self.branch),
            sha: self.sha@,
            path: self.path@,
            end: self.end,
        }
    }
}

/// What a row shows.
#[derive(Debug)]
pub enum RenderedRow {
    Divider,
    Header(String),
    Create(CreateItem),
    Worktree(WorktreeRow),
}

/// The value of what a row shows.
#[verifier::ext_equal]
pub enum RenderedRowView {
    Divider,
    Header(Seq<char>),
    Create(CreateItemView),
    Worktree(WorktreeRowView),
}

impl View for RenderedRow {
    type V = RenderedRowView;

    open spec fn view(&self) -> RenderedRowView {
        match self {
            RenderedRow::Divider => RenderedRowView::Divider,
            RenderedRow::Header(label) => RenderedRowView::Header(label@),
            RenderedRow::Create(item) => RenderedRowView::Create(item@),
            RenderedRow::Worktree(row) => RenderedRowView::Worktree(row@),
        }
    }
}

/// What a row's surroundings are like when it is shown.
#[derive(Debug)]
pub struct RowContext {
    /// Whether others share the project.
    pub is_via_collab: bool,
    /// The number of the project's repositories.
    pub repository_count: usize,
    /// The label of the target that the row starts from, where it has one.
    pub branch_label: String,
    /// The directory name of the row's worktree, where it has one.
    pub directory_name: String,
    /// The short form of the row's path, where it has one.
    pub compact_path: String,
}

/// The value of a row's surroundings.
#[verifier::ext_equal]
pub struct RowContextView {
    pub is_via_collab: bool,
    pub repository_count: nat,
    pub branch_label: Seq<char>,
    pub directory_name: Seq<char>,
    pub compact_path: Seq<char>,
}

impl View for RowContext {
    type V = RowContextView;

    open spec fn view(&self) -> RowContextView {
        RowContextView {
            is_via_collab: self.is_via_collab,
            repository_count: self.repository_count as nat,
            branch_label: self.branch_label@,
            directory_name: self.directory_name@,
            compact_path: self.compact_path@,
        }
    }
}

impl RowContextView {
    /// Why no worktree can be created.
    pub open spec fn blocked(self) -> Option<Seq<char>> {
        blocked_reason(self.is_via_collab, self.repository_count)
    }
}

/// The number of characters of a commit that are shown.
pub const SHA_LENGTH: usize = 7;

/// The name under which a worktree is shown.
pub open spec fn display_name(
    repo_name: Option<Seq<char>>,
    directory_name: Seq<char>,
) -> Seq<char> {
    match repo_name {
        Some(repo_name) => repo_name.push('/') + directory_name,
        None => directory_name,
    }
}

/// The positions that lie in a text of `len` bytes.
pub open spec fn positions_within(positions: Seq<usize>, len: nat) -> Seq<usize> {
    positions.filter(|pos: usize| pos < len)
}

/// What a new worktree of a name starts from, as its row says.
pub open spec fn named_base(
    from_branch: Option<RemoteBranchView>,
    current_branch_name: Option<Seq<char>>,
) -> Seq<char> {
    match (from_branch, current_branch_name) {
        (Some(branch), _) => branch.shown,
        (None, Some(current)) => current,
        (None, None) => "HEAD"@,
    }
}

/// The id of the row that creates a worktree of a name.
pub open spec fn named_id(from_branch: Option<RemoteBranchView>) -> Seq<char> {
    match from_branch {
        Some(branch) => "create-named-from-"@ + branch.shown,
        None => "create-named-from-current"@,
    }
}

impl DelegateView {
    /// The end of a worktree's row: buttons, unless the worktree is being
    /// deleted or is open in the picker's own project.
    pub open spec fn row_end(
        self,
        ix: int,
        worktree: WorktreeView,
        repo_name: Option<Seq<char>>,
    ) -> RowEnd {
        if self.deleting_worktree_paths.contains(worktree.path) {
            RowEnd::Deleting
        } else if self.active_worktree_paths.contains(worktree.path) {
            RowEnd::Nothing
        } else {
            RowEnd::Buttons {
                remove_from_window: self.project_worktree_paths.contains(worktree.path),
                delete: repo_name is None && self.deletable(worktree),
                force_delete: self.alt && (self.hovered_delete_index matches Some(hovered)
                    && hovered == ix),
            }
        }
    }

    /// What the row of a worktree shows.
    pub open spec fn worktree_row(
        self,
        ix: int,
        selected: bool,
        worktree: WorktreeView,
        positions: Seq<usize>,
        repo_name: Option<Seq<char>>,
        context: RowContextView,
    ) -> WorktreeRowView {
        let name = first_line_of(display_name(repo_name, context.directory_name));
        WorktreeRowView {
            index: ix,
            selected,
            is_current: self.active_worktree_paths.contains(worktree.path),
            name,
            positions: positions_within(positions, encode_utf8(name).len()),
            branch: worktree.branch_name,
            sha: shortened(worktree.sha, SHA_LENGTH as nat),
            path: context.compact_path,
            end: self.row_end(ix, worktree, repo_name),
        }
    }

    /// What a row shows.
    pub open spec fn renders_entry(
        self,
        ix: int,
        entry: EntryView,
        selected: bool,
        context: RowContextView,
    ) -> RenderedRowView {
        match entry {
            EntryView::Separator => RenderedRowView::Divider,
            EntryView::SectionHeader(label) => RenderedRowView::Header(label),
            EntryView::CreateFromCurrentBranch => RenderedRowView::Create(
                create_item(
                    "create-from-current"@,
                    "Create new worktree based on "@ + context.branch_label,
                    context.blocked(),
                    selected,
                ),
            ),
            EntryView::CreateFromDefaultBranch { default_branch } => RenderedRowView::Create(
                create_item(
                    "create-from-main"@,
                    "Create new worktree based on "@ + context.branch_label,
                    context.blocked(),
                    selected,
                ),
            ),
            EntryView::CreateFromGitHubLink { branch, existing_path } => RenderedRowView::Create(
                create_item(
                    "create-from-github-link"@,
                    match existing_path {
                        Some(_) => "Open branch "@ + branch + " in "@ + context.compact_path,
                        None => "Open branch "@ + branch + " in a new worktree"@,
                    },
                    None,
                    selected,
                ),
            ),
            EntryView::CreateFromExistingBranch { branch_name } => RenderedRowView::Create(
                create_item(
                    "create-from-existing-branch"@,
                    "Open branch "@ + branch_name + " in a new worktree"@,
                    context.blocked(),
                    selected,
                ),
            ),
            EntryView::CreateNewBranch { name } => RenderedRowView::Create(
                create_item(
                    "create-new-branch"@,
                    "Create new branch "@ + name + " and open in a new worktree"@,
                    context.blocked(),
                    selected,
                ),
            ),
            EntryView::Worktree { worktree, positions, repo_name } => RenderedRowView::Worktree(
                self.worktree_row(ix, selected, worktree, positions, repo_name, context),
            ),
            EntryView::CreateNamed { name, from_branch, disabled_reason } => {
                RenderedRowView::Create(
                    create_item(
                        named_id(from_branch),
                        "Create \""@ + name + "\" based on "@ + named_base(
                            from_branch,
                            self.current_branch_name,
                        ),
                        disabled_reason,
                        selected,
                    ),
                )
            },
        }
    }

    /// What the row at an index shows.
    pub open spec fn renders(
        self,
        ix: int,
        selected: bool,
        context: RowContextView,
    ) -> Option<RenderedRowView> {
        if 0 <= ix < self.matches.len() {
            Some(self.renders_entry(ix, self.matches[ix], selected, context))
        } else {
            None
        }
    }
}

fn text_between(before: &str, text: &str, after: &str) -> (r: String)
    ensures
        r@ == before@ + text@ + after@,
{
    let mut r = before.to_owned();
    r.append(text);
    r.append(after);
    r
}

fn text_after(before: &str, text: &str) -> (r: String)
    ensures
        r@ == before@ + text@,
{
    let mut r = before.to_owned();
    r.append(text);
    r
}

fn keep_positions_within(positions: &Vec<usize>, len: usize) -> (r: Vec<usize>)
    ensures
        r@ == positions_within(positions@, len as nat),
{
    let mut r: Vec<usize> = Vec::new();
    let ghost all = positions@;
    let ghost keep = |pos: usize| pos < len as nat;
    let mut i: usize = 0;
    proof {
        reveal(Seq::filter);
        assert(all.take(0).filter(keep) =~= seq![]);
    }
    while i < positions.len()
        invariant
            i <= positions@.len(),
            all == positions@,
            keep == (|pos: usize| pos < len as nat),
            r@ == all.take(i as int).filter(keep),
        decreases positions@.len() - i,
    {
        proof {
            lemma_filter_step(all, i as int, keep);
        }
        if positions[i] < len {
            r.push(positions[i]);
        }
        i += 1;
    }
    assert(all.take(all.len() as int) =~= all);
    r
}

impl WorktreePickerDelegate {
    fn end_of_row(&self, ix: usize, worktree: &GitWorktree, repo_name: &Option<String>) -> (r:
        RowEnd)
        ensures
            r == self@.row_end(ix as int, worktree@, opt_view(*repo_name)),
    {
        if self.deleting_worktree_paths.contains(&worktree.path) {
            RowEnd::Deleting
        } else if self.active_worktree_paths.contains(&worktree.path) {
            RowEnd::Nothing
        } else {
            RowEnd::Buttons {
                remove_from_window: self.project_worktree_paths.contains(&worktree.path),
                delete: repo_name.is_none() && self.can_delete_worktree(worktree),
                force_delete: self.is_force_delete_hovering_index(ix),
            }
        }
    }

    fn render_worktree(
        &self,
        ix: usize,
        selected: bool,
        worktree: &GitWorktree,
        positions: &Vec<usize>,
        repo_name: &Option<String>,
        context: &RowContext,
    ) -> (r: WorktreeRow)
        ensures
            r@ == self@.worktree_row(
                ix as int,
                selected,
                worktree@,
                positions@,
                opt_view(*repo_name),
                context@,
            ),
    {
        let shown = match repo_name {
            Some(repo_name) => {
                let mut shown = repo_name.clone();
                shown.push('/');
                shown.append(context.directory_name.as_str());
                shown
            },
            None => context.directory_name.clone(),
        };
        let name = text::first_line(shown.as_str());
        let positions = keep_positions_within(positions, name.as_str().as_bytes().len());
        WorktreeRow {
            index: ix,
            selected,
            is_current: self.active_worktree_paths.contains(&worktree.path),
            name,
            positions,
            branch: clone_text(&worktree.branch_name),
            sha: text::shorten(worktree.sha.as_str(), SHA_LENGTH),
            path: context.compact_path.clone(),
            end: self.end_of_row(ix, worktree, repo_name),
        }
    }

    fn render_named(
        &self,
        name: &String,
        from_branch: &Option<RemoteBranchName>,
        disabled_reason: &Option<String>,
        selected: bool,
    ) -> (r: CreateItem)
        ensures
            r@ == create_item(
                named_id(opt_view(*from_branch)),
                "Create \""@ + name@ + "\" based on "@ + named_base(
                    opt_view(*from_branch),
                    self@.current_branch_name,
                ),
                opt_view(*disabled_reason),
                selected,
            ),
    {
        let branch_label = match from_branch {
            Some(branch) => branch.display_name(),
            None => match &self.current_branch_name {
                Some(current) => current.clone(),
                None => "HEAD".to_owned(),
            },
        };
        let mut label = text_between("Create \"", name.as_str(), "\" based on ");
        label.append(branch_label.as_str());
        let id = match from_branch {
            Some(branch) => text_after("create-named-from-", branch.display_name().as_str()),
            None => "create-named-from-current".to_owned(),
        };
        create_new_list_item(id, label, clone_text(disabled_reason), selected)
    }

    /// What the row at an index shows.
    pub fn render_match(&self, ix: usize, selected: bool, context: &RowContext) -> (r: Option<
        RenderedRow,
    >)
        ensures
            opt_view(r) == self@.renders(ix as int, selected, context@),
    {
        if ix >= self.matches.len() {
            return None;
        }
        let entry = &self.matches[ix];
        assert(self@.matches[ix as int] == entry@);
        let blocked = creation_blocked_reason(context.is_via_collab, context.repository_count);
        let row = match entry {
            WorktreeEntry::Separator => RenderedRow::Divider,
            WorktreeEntry::SectionHeader(label) => RenderedRow::Header(label.clone()),
            WorktreeEntry::CreateFromCurrentBranch => RenderedRow::Create(
                create_new_list_item(
                    "create-from-current".to_owned(),
                    text_after("Create new worktree based on ", context.branch_label.as_str()),
                    blocked,
                    selected,
                ),
            ),
            WorktreeEntry::CreateFromDefaultBranch { .. } => RenderedRow::Create(
                create_new_list_item(
                    "create-from-main".to_owned(),
                    text_after("Create new worktree based on ", context.branch_label.as_str()),
                    blocked,
                    selected,
                ),
            ),
            WorktreeEntry::CreateFromGitHubLink { branch, existing_path } => {
                let label = match existing_path {
                    Some(_) => {
                        let mut label = text_between("Open branch ", branch.as_str(), " in ");
                        label.append(context.compact_path.as_str());
                        label
                    },
                    None => text_between("Open branch ", branch.as_str(), " in a new worktree"),
                };
                RenderedRow::Create(
                    create_new_list_item(
                        "create-from-github-link".to_owned(),
                        label,
                        None,
                        selected,
                    ),
                )
            },
            WorktreeEntry::CreateFromExistingBranch { branch_name } => RenderedRow::Create(
                create_new_list_item(
                    "create-from-existing-branch".to_owned(),
                    text_between("Open branch ", branch_name.as_str(), " in a new worktree"),
                    blocked,
                    selected,
                ),
            ),
            WorktreeEntry::CreateNewBranch { name } => RenderedRow::Create(
                create_new_list_item(
                    "create-new-branch".to_owned(),
                    text_between(
                        "Create new branch ",
                        name.as_str(),
                        " and open in a new worktree",
                    ),
                    blocked,
                    selected,
                ),
            ),
            WorktreeEntry::Worktree { worktree, positions, repo_name } => RenderedRow::Worktree(
                self.render_worktree(ix, selected, worktree, positions, repo_name, context),
            ),
            WorktreeEntry::CreateNamed { name, from_branch, disabled_reason } => {
                RenderedRow::Create(
                    self.render_named(name, from_branch, disabled_reason, selected),
                )
            },
        };
        Some(row)
    }
}

/// What the footer offers for the selected row, besides the setup of tasks.
#[derive(Debug, Clone, Copy)]
pub enum Footer {
    /// A button that creates a worktree.
    Create,
    /// Buttons for a worktree.
    Worktree {
        /// A disabled button that says that the worktree is being deleted.
        deleting: bool,
        delete: bool,
        open_in_new_window: bool,
        open: bool,
    },
}

impl DelegateView {
    /// What the footer offers for a row.
    pub open spec fn footer_of(self, entry: EntryView) -> Option<Footer> {
        match entry {
            EntryView::CreateFromCurrentBranch => Some(Footer::Create),
            EntryView::CreateFromDefaultBranch { .. } => Some(Footer::Create),
            EntryView::CreateNamed { .. } => Some(Footer::Create),
            EntryView::Worktree { worktree, positions, repo_name } => {
                let deleting = self.deleting_worktree_paths.contains(worktree.path);
                Some(
                    Footer::Worktree {
                        deleting,
                        delete: !deleting && repo_name is None && self.deletable(worktree),
                        open_in_new_window: !deleting && !self.project_worktree_paths.contains(
                            worktree.path,
                        ),
                        open: !deleting,
                    },
                )
            },
            _ => None,
        }
    }

    /// The footer: only where the picker has one, and by the selected row.
    pub open spec fn footer(self) -> Option<Footer> {
        if self.show_footer && 0 <= self.selected_index < self.matches.len() {
            self.footer_of(self.matches[self.selected_index])
        } else {
            None
        }
    }
}

impl WorktreePickerDelegate {
    /// The footer: only where the picker has one, and by the selected row.
    pub fn render_footer(&self) -> (r: Option<Footer>)
        ensures
            r == self@.footer(),
    {
        if !self.show_footer || self.selected_index >= self.matches.len() {
            return None;
        }
        let ghost at = self.selected_index as int;
        assert(self@.matches[at] == self.matches@[at]@);
        match &self.matches[self.selected_index] {
            WorktreeEntry::CreateFromCurrentBranch => Some(Footer::Create),
            WorktreeEntry::CreateFromDefaultBranch { .. } => Some(Footer::Create),
            WorktreeEntry::CreateNamed { .. } => Some(Footer::Create),
            WorktreeEntry::Worktree { worktree, repo_name, .. } => {
                let deleting = self.deleting_worktree_paths.contains(&worktree.path);
                Some(
                    Footer::Worktree {
                        deleting,
                        delete: !deleting && repo_name.is_none() && self.can_delete_worktree(
                            worktree,
                        ),
                        open_in_new_window: !deleting && !self.project_worktree_paths.contains(
                            &worktree.path,
                        ),
                        open: !deleting,
                    },
                )
            },
            _ => None,
        }
    }

    /// Whether the search bar has a button for the setup of tasks: where there
    /// is no footer to hold it.
    pub fn searchbar_trailer(&self) -> (r: bool)
        ensures
            r == !self@.show_footer,
    {
        !self.show_footer
    }
}

/// The tooltip of the button that deletes a worktree.
#[derive(Debug)]
pub struct DeleteWorktreeTooltip {
    pub title: String,
    pub meta: Option<String>,
}

impl DeleteWorktreeTooltip {
    /// The tooltip, by whether a click would force the deletion.
    pub fn render(force_delete: bool) -> (r: DeleteWorktreeTooltip)
        ensures
            r.title@ == if force_delete {
                "Force Delete Worktree"@
            } else {
                "Delete Worktree"@
            },
            opt_view(r.meta) == if force_delete {
                None
            } else {
                Some("Hold alt to force delete"@)
            },
    {
        if force_delete {
            DeleteWorktreeTooltip { title: "Force Delete Worktree".to_owned(), meta: None }
        } else {
            DeleteWorktreeTooltip {
                title: "Delete Worktree".to_owned(),
                meta: Some("Hold alt to force delete".to_owned()),
            }
        }
    }
}

/// While a worktree is being deleted, its row says so and has no button, and
/// the footer offers neither to delete it again nor to open it.
pub proof fn deleting_row_offers_nothing(
    picker: DelegateView,
    ix: int,
    selected: bool,
    context: RowContextView,
)
    requires
        0 <= ix < picker.matches.len(),
        picker.matches[ix] is Worktree,
        picker.deleting_worktree_paths.contains(picker.matches[ix]->worktree.path),
    ensures
        picker.renders(ix, selected, context) matches Some(RenderedRowView::Worktree(row))
            && row.end == RowEnd::Deleting,
        picker.show_footer && picker.selected_index == ix ==> picker.footer() == Some(
            Footer::Worktree {
                deleting: true,
                delete: false,
                open_in_new_window: false,
                open: false,
            },
        ),
{
}

/// A row has a delete button, and the footer one, only where a click on it
/// starts a deletion, given a repository to delete from.
pub proof fn offered_deletion_starts(
    picker: DelegateView,
    ix: int,
    selected: bool,
    context: RowContextView,
)
    ensures
        picker.renders(ix, selected, context) matches Some(RenderedRowView::Worktree(row))
            && row.end matches RowEnd::Buttons { delete, .. } && delete
            ==> picker.deletion_target(ix, true) is Some,
        picker.footer() matches Some(Footer::Worktree { delete, .. }) && delete
            ==> picker.deletion_target(picker.selected_index, true) is Some,
{
}

/// A row never offers both to delete its worktree and to remove it from the
/// window: what is open in the window is not deleted.
pub proof fn open_worktree_is_not_offered_for_deletion(
    picker: DelegateView,
    ix: int,
    worktree: WorktreeView,
    repo_name: Option<Seq<char>>,
)
    ensures
        picker.row_end(ix, worktree, repo_name) matches RowEnd::Buttons {
            remove_from_window,
            delete,
            ..
        } ==> !(remove_from_window && delete),
{
}

/// Every highlighted position lies in the name that is shown.
pub proof fn highlights_lie_in_the_name(
    picker: DelegateView,
    ix: int,
    selected: bool,
    context: RowContextView,
    k: int,
)
    ensures
        picker.renders(ix, selected, context) matches Some(RenderedRowView::Worktree(row)) ==> (0
            <= k < row.positions.len() ==> row.positions[k] < encode_utf8(row.name).len()),
{
    if let Some(RenderedRowView::Worktree(row)) = picker.renders(ix, selected, context) {
        if 0 <= k < row.positions.len() {
            let len = encode_utf8(row.name).len();
            picker.matches[ix]->positions.lemma_filter_pred(|pos: usize| pos < len, k);
        }
    }
}

/// Confirming a creating row does nothing where the row is disabled; where it
/// is not, and is not that of a link, confirming creates a worktree.
pub proof fn disabled_rows_do_nothing(
    picker: DelegateView,
    selected: bool,
    row: RowContextView,
    context: ConfirmContext,
)
    requires
        0 <= picker.selected_index < picker.matches.len(),
        context.creation_blocked == (row.blocked() is Some),
        context.has_workspace,
    ensures
        picker.renders(picker.selected_index, selected, row) matches Some(
            RenderedRowView::Create(item),
        ) ==> {
            &&& item.is_disabled ==> picker.confirms(context) == nothing()
            &&& !item.is_disabled && !(picker.matches[picker.selected_index]
                is CreateFromGitHubLink) ==> picker.confirms(context).action matches Some(ActionView::CreateWorktree { .. })
        },
{
}

} // verus!
