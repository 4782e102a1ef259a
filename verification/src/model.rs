//! What the picker shows and what it is told: worktrees, branches, rows.

use vstd::prelude::*;

use crate::path::{PathView, RepoPath};
use crate::seqs::{lemma_filter_step, lemma_views_push, opt_view, views};

verus! {

/// A git worktree.
#[derive(Debug)]
pub struct GitWorktree {
    /// Where the worktree is checked out.
    pub path: RepoPath,
    /// The reference that it has checked out.
    pub ref_name: Option<String>,
    /// The short name of the branch that it has checked out.
    pub branch_name: Option<String>,
    /// The commit that it has checked out.
    pub sha: String,
    /// Whether it is the main worktree of its repository.
    pub is_main: bool,
    /// Whether it is a bare repository.
    pub is_bare: bool,
}

/// The value of a git worktree.
#[verifier::ext_equal]
pub struct WorktreeView {
    pub path: PathView,
    pub ref_name: Option<Seq<char>>,
    pub branch_name: Option<Seq<char>>,
    pub sha: Seq<char>,
    pub is_main: bool,
    pub is_bare: bool,
}

impl View for GitWorktree {
    type V = WorktreeView;

    open spec fn view(&self) -> WorktreeView {
        WorktreeView {
            path: self.path@,
            ref_name: opt_view(self.ref_name),
            branch_name: opt_view(self.branch_name),
            sha: self.sha@,
            is_main: self.is_main,
            is_bare: self.is_bare,
        }
    }
}

/// A copy of an optional text.
pub(crate) fn clone_text(text: &Option<String>) -> (r: Option<String>)
    ensures
        opt_view(r) == opt_view(*text),
{
    match text {
        Some(text) => Some(text.clone()),
        None => None,
    }
}

impl Clone for GitWorktree {
    fn clone(&self) -> (r: Self)
        ensures
            r@ == self@,
    {
        GitWorktree {
            path: self.path.clone(),
            ref_name: clone_text(&self.ref_name),
            branch_name: clone_text(&self.branch_name),
            sha: self.sha.clone(),
            is_main: self.is_main,
            is_bare: self.is_bare,
        }
    }
}

/// A branch of a repository.
#[derive(Debug)]
pub struct Branch {
    /// The full reference name.
    pub ref_name: String,
    /// The name that is shown.
    pub name: String,
}

/// The value of a branch.
#[verifier::ext_equal]
pub struct BranchView {
    pub ref_name: Seq<char>,
    pub name: Seq<char>,
}

impl View for Branch {
    type V = BranchView;

    open spec fn view(&self) -> BranchView {
        BranchView { ref_name: self.ref_name@, name: self.name@ }
    }
}

impl Clone for Branch {
    fn clone(&self) -> (r: Self)
        ensures
            r@ == self@,
    {
        Branch { ref_name: self.ref_name.clone(), name: self.name.clone() }
    }
}

/// A branch of a remote.
#[derive(Debug)]
pub struct RemoteBranchName {
    pub remote_name: String,
    pub branch_name: String,
    /// How the two are shown together.
    pub shown: String,
}

/// The value of a branch of a remote.
#[verifier::ext_equal]
pub struct RemoteBranchView {
    pub remote_name: Seq<char>,
    pub branch_name: Seq<char>,
    pub shown: Seq<char>,
}

impl View for RemoteBranchName {
    type V = RemoteBranchView;

    open spec fn view(&self) -> RemoteBranchView {
        RemoteBranchView {
            remote_name: self.remote_name@,
            branch_name: self.branch_name@,
            shown: self.shown@,
        }
    }
}

impl Clone for RemoteBranchName {
    fn clone(&self) -> (r: Self)
        ensures
            r@ == self@,
    {
        RemoteBranchName {
            remote_name: self.remote_name.clone(),
            branch_name: self.branch_name.clone(),
            shown: self.shown.clone(),
        }
    }
}

impl RemoteBranchName {
    /// How the remote and its branch are shown together.
    pub fn display_name(&self) -> (r: String)
        ensures
            r@ == self@.shown,
    {
        self.shown.clone()
    }
}

/// A copy of an optional branch of a remote.
pub(crate) fn clone_remote_branch(branch: &Option<RemoteBranchName>) -> (r: Option<
    RemoteBranchName,
>)
    ensures
        opt_view(r) == opt_view(*branch),
{
    match branch {
        Some(branch) => Some(branch.clone()),
        None => None,
    }
}

/// A copy of an optional path.
pub(crate) fn clone_path(path: &Option<RepoPath>) -> (r: Option<RepoPath>)
    ensures
        opt_view(r) == opt_view(*path),
{
    match path {
        Some(path) => Some(path.clone()),
        None => None,
    }
}

/// What a new worktree can start from without a name of its own.
#[derive(Debug)]
pub enum WorktreeCreateTarget {
    CurrentBranch,
    DefaultBranch(RemoteBranchName),
}

/// The value of a target.
#[verifier::ext_equal]
pub enum CreateTargetView {
    CurrentBranch,
    DefaultBranch(RemoteBranchView),
}

impl View for WorktreeCreateTarget {
    type V = CreateTargetView;

    open spec fn view(&self) -> CreateTargetView {
        match self {
            WorktreeCreateTarget::CurrentBranch => CreateTargetView::CurrentBranch,
            WorktreeCreateTarget::DefaultBranch(branch) => CreateTargetView::DefaultBranch(branch@),
        }
    }
}

/// A repository that is not part of the current project, discovered by
/// scanning directories near the project's repositories, with its worktrees.
#[derive(Debug)]
pub struct ExternalRepo {
    pub name: String,
    pub main_path: RepoPath,
    pub worktrees: Vec<GitWorktree>,
}

/// The value of a repository outside the project.
#[verifier::ext_equal]
pub struct ExternalRepoView {
    pub name: Seq<char>,
    pub main_path: PathView,
    pub worktrees: Seq<WorktreeView>,
}

impl View for ExternalRepo {
    type V = ExternalRepoView;

    open spec fn view(&self) -> ExternalRepoView {
        ExternalRepoView {
            name: self.name@,
            main_path: self.main_path@,
            worktrees: views(self.worktrees@),
        }
    }
}

/// One row of the picker.
#[derive(Debug)]
pub enum WorktreeEntry {
    CreateFromCurrentBranch,
    CreateFromDefaultBranch { default_branch: RemoteBranchName },
    Separator,
    SectionHeader(String),
    Worktree {
        worktree: GitWorktree,
        /// The byte positions of the shown name that the query matched.
        positions: Vec<usize>,
        /// The repository of a worktree that is not the project's.
        repo_name: Option<String>,
    },
    CreateNamed {
        name: String,
        from_branch: Option<RemoteBranchName>,
        disabled_reason: Option<String>,
    },
    CreateFromGitHubLink { branch: String, existing_path: Option<RepoPath> },
    CreateFromExistingBranch { branch_name: String },
    CreateNewBranch { name: String },
}

/// The value of a row.
#[verifier::ext_equal]
pub enum EntryView {
    CreateFromCurrentBranch,
    CreateFromDefaultBranch { default_branch: RemoteBranchView },
    Separator,
    SectionHeader(Seq<char>),
    Worktree { worktree: WorktreeView, positions: Seq<usize>, repo_name: Option<Seq<char>> },
    CreateNamed {
        name: Seq<char>,
        from_branch: Option<RemoteBranchView>,
        disabled_reason: Option<Seq<char>>,
    },
    CreateFromGitHubLink { branch: Seq<char>, existing_path: Option<PathView> },
    CreateFromExistingBranch { branch_name: Seq<char> },
    CreateNewBranch { name: Seq<char> },
}

impl View for WorktreeEntry {
    type V = EntryView;

    open spec fn view(&self) -> EntryView {
        match self {
            WorktreeEntry::CreateFromCurrentBranch => EntryView::CreateFromCurrentBranch,
            WorktreeEntry::CreateFromDefaultBranch { default_branch } => {
                EntryView::CreateFromDefaultBranch { default_branch: default_branch@ }
            },
            WorktreeEntry::Separator => EntryView::Separator,
            WorktreeEntry::SectionHeader(label) => EntryView::SectionHeader(label@),
            WorktreeEntry::Worktree { worktree, positions, repo_name } => EntryView::Worktree {
                worktree: worktree@,
                positions: positions@,
                repo_name: opt_view(*repo_name),
            },
            WorktreeEntry::CreateNamed { name, from_branch, disabled_reason } => {
                EntryView::CreateNamed {
                    name: name@,
                    from_branch: opt_view(*from_branch),
                    disabled_reason: opt_view(*disabled_reason),
                }
            },
            WorktreeEntry::CreateFromGitHubLink { branch, existing_path } => {
                EntryView::CreateFromGitHubLink {
                    branch: branch@,
                    existing_path: opt_view(*existing_path),
                }
            },
            WorktreeEntry::CreateFromExistingBranch { branch_name } => {
                EntryView::CreateFromExistingBranch { branch_name: branch_name@ }
            },
            WorktreeEntry::CreateNewBranch { name } => EntryView::CreateNewBranch { name: name@ },
        }
    }
}

/// A copy of a list of positions.
pub(crate) fn clone_positions(positions: &Vec<usize>) -> (r: Vec<usize>)
    ensures
        r@ == positions@,
{
    let mut r: Vec<usize> = Vec::new();
    let mut i: usize = 0;
    while i < positions.len()
        invariant
            i <= positions@.len(),
            r@ == positions@.take(i as int),
        decreases positions@.len() - i,
    {
        r.push(positions[i]);
        i += 1;
        assert(r@ =~= positions@.take(i as int));
    }
    assert(r@ =~= positions@);
    r
}

impl Clone for WorktreeEntry {
    fn clone(&self) -> (r: Self)
        ensures
            r@ == self@,
    {
        match self {
            WorktreeEntry::CreateFromCurrentBranch => WorktreeEntry::CreateFromCurrentBranch,
            WorktreeEntry::CreateFromDefaultBranch { default_branch } => {
                WorktreeEntry::CreateFromDefaultBranch { default_branch: default_branch.clone() }
            },
            WorktreeEntry::Separator => WorktreeEntry::Separator,
            WorktreeEntry::SectionHeader(label) => WorktreeEntry::SectionHeader(label.clone()),
            WorktreeEntry::Worktree { worktree, positions, repo_name } => {
                WorktreeEntry::Worktree {
                    worktree: worktree.clone(),
                    positions: clone_positions(positions),
                    repo_name: clone_text(repo_name),
                }
            },
            WorktreeEntry::CreateNamed { name, from_branch, disabled_reason } => {
                WorktreeEntry::CreateNamed {
                    name: name.clone(),
                    from_branch: clone_remote_branch(from_branch),
                    disabled_reason: clone_text(disabled_reason),
                }
            },
            WorktreeEntry::CreateFromGitHubLink { branch, existing_path } => {
                WorktreeEntry::CreateFromGitHubLink {
                    branch: branch.clone(),
                    existing_path: clone_path(existing_path),
                }
            },
            WorktreeEntry::CreateFromExistingBranch { branch_name } => {
                WorktreeEntry::CreateFromExistingBranch { branch_name: branch_name.clone() }
            },
            WorktreeEntry::CreateNewBranch { name } => WorktreeEntry::CreateNewBranch {
                name: name.clone(),
            },
        }
    }
}

/// The worktrees of a list that are no bare repositories.
pub open spec fn checked_out(all: Seq<WorktreeView>) -> Seq<WorktreeView> {
    all.filter(|worktree: WorktreeView| !worktree.is_bare)
}

/// The worktrees of a list that are no bare repositories.
pub fn without_bare(all: &Vec<GitWorktree>) -> (r: Vec<GitWorktree>)
    ensures
        views(r@) == checked_out(views(all@)),
{
    let mut r: Vec<GitWorktree> = Vec::new();
    let ghost vs = views(all@);
    let ghost keep = |worktree: WorktreeView| !worktree.is_bare;
    let mut i: usize = 0;
    proof {
        reveal(Seq::filter);
        assert(vs.take(0).filter(keep) =~= seq![]);
        assert(views(r@) =~= seq![]);
    }
    while i < all.len()
        invariant
            i <= all@.len(),
            vs == views(all@),
            keep == (|worktree: WorktreeView| !worktree.is_bare),
            views(r@) == vs.take(i as int).filter(keep),
        decreases all@.len() - i,
    {
        proof {
            lemma_filter_step(vs, i as int, keep);
        }
        if !all[i].is_bare {
            let worktree = all[i].clone();
            proof {
                lemma_views_push(r@, worktree);
            }
            r.push(worktree);
        }
        i += 1;
    }
    assert(vs.take(vs.len() as int) =~= vs);
    r
}

} // verus!
