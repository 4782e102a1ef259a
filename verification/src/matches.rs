//! The rows without a query.

use vstd::prelude::*;

use crate::model::{
    CreateTargetView, EntryView, ExternalRepo, ExternalRepoView, GitWorktree,
    WorktreeCreateTarget, WorktreeEntry, WorktreeView,
};
use crate::naming::{insert_by_name, sorted_by_name, NamedView, NamedWorktree};
use crate::path::PathView;
use crate::path_set::PathSet;
use crate::picker::{DelegateView, WorktreePickerDelegate};
use crate::seqs::{lemma_filter_step, lemma_views_push, views};
use crate::text::texts;

verus! {

/// The directory names of the worktrees that the picker knows.
#[derive(Debug)]
pub struct DirectoryNames {
    /// Of each worktree of the repository.
    pub worktrees: Vec<String>,
    /// Of each worktree of each repository near the project.
    pub external: Vec<Vec<String>>,
}

/// The directory names of the worktrees that the picker knows.
#[verifier::ext_equal]
pub struct NamesView {
    pub worktrees: Seq<Seq<char>>,
    pub external: Seq<Seq<Seq<char>>>,
}

impl View for DirectoryNames {
    type V = NamesView;

    open spec fn view(&self) -> NamesView {
        NamesView {
            worktrees: texts(self.worktrees@),
            external: self.external@.map_values(|names: Vec<String>| texts(names@)),
        }
    }
}

impl NamesView {
    /// Whether there is one name for each worktree.
    pub open spec fn fit(self, picker: DelegateView) -> bool {
        &&& self.worktrees.len() == picker.all_worktrees.len()
        &&& self.external.len() == picker.external_repos.len()
        &&& forall|i: int|
            0 <= i < self.external.len() ==> (#[trigger] self.external[i]).len()
                == picker.external_repos[i].worktrees.len()
    }
}

/// The row of a worktree that no query picked.
pub open spec fn plain_row(worktree: WorktreeView, repo_name: Option<Seq<char>>) -> EntryView {
    EntryView::Worktree { worktree, positions: seq![], repo_name }
}

/// The row that offers a target.
pub open spec fn target_row(target: CreateTargetView) -> EntryView {
    match target {
        CreateTargetView::CurrentBranch => EntryView::CreateFromCurrentBranch,
        CreateTargetView::DefaultBranch(default_branch) => {
            EntryView::CreateFromDefaultBranch { default_branch }
        },
    }
}

/// The rows that offer targets.
pub open spec fn fixed_rows(targets: Seq<CreateTargetView>) -> Seq<EntryView> {
    targets.map_values(|target: CreateTargetView| target_row(target))
}

/// The worktrees with their names.
pub open spec fn named(all: Seq<WorktreeView>, names: Seq<Seq<char>>) -> Seq<NamedView> {
    Seq::new(all.len(), |i: int| NamedView { worktree: all[i], name: names[i] })
}

/// The worktrees that are open, or those that are not, ordered by name.
pub open spec fn group(all: Seq<NamedView>, open: Set<PathView>, is_open: bool) -> Seq<NamedView> {
    sorted_by_name(all.filter(|x: NamedView| open.contains(x.worktree.path) == is_open))
}

/// The rows of the repository's own worktrees.
pub open spec fn plain_rows(list: Seq<NamedView>) -> Seq<EntryView> {
    list.map_values(|x: NamedView| plain_row(x.worktree, None))
}

/// The rows of the repository's worktrees: those open in the window first,
/// under a header and set apart where there are several.
pub open spec fn repository_rows(all: Seq<NamedView>, open: Set<PathView>) -> Seq<EntryView> {
    if all.len() == 0 {
        seq![]
    } else {
        let here = group(all, open, true);
        let others = group(all, open, false);
        if here.len() > 1 {
            seq![EntryView::Separator, EntryView::SectionHeader("This Window"@)] + plain_rows(here)
                + (if others.len() > 0 {
                seq![EntryView::Separator]
            } else {
                seq![]
            }) + plain_rows(others)
        } else {
            seq![EntryView::Separator] + plain_rows(here) + plain_rows(others)
        }
    }
}

/// The worktrees of a list that are not open.
pub open spec fn not_open(all: Seq<WorktreeView>, open: Set<PathView>) -> Seq<WorktreeView> {
    all.filter(|worktree: WorktreeView| !open.contains(worktree.path))
}

/// The rows of a repository near the project, under its name.
pub open spec fn section_rows(repo: ExternalRepoView, open: Set<PathView>) -> Seq<EntryView> {
    let shown = not_open(repo.worktrees, open);
    if shown.len() == 0 {
        seq![]
    } else {
        seq![EntryView::Separator, EntryView::SectionHeader(repo.name)] + shown.map_values(
            |worktree: WorktreeView| plain_row(worktree, Some(repo.name)),
        )
    }
}

/// The rows of the repositories near the project.
pub open spec fn external_rows(repos: Seq<ExternalRepoView>, open: Set<PathView>) -> Seq<EntryView>
    decreases repos.len(),
{
    if repos.len() == 0 {
        seq![]
    } else {
        external_rows(repos.drop_last(), open) + section_rows(repos.last(), open)
    }
}

/// The rows without a query.
pub open spec fn idle_rows(
    picker: DelegateView,
    targets: Seq<CreateTargetView>,
    names: NamesView,
) -> Seq<EntryView> {
    fixed_rows(targets) + repository_rows(
        named(picker.all_worktrees, names.worktrees),
        picker.project_worktree_paths,
    ) + external_rows(picker.external_repos, picker.project_worktree_paths)
}

fn fixed_entries(targets: &Vec<WorktreeCreateTarget>) -> (r: Vec<WorktreeEntry>)
    ensures
        views(r@) == fixed_rows(views(targets@)),
{
    let mut r: Vec<WorktreeEntry> = Vec::new();
    let ghost all = fixed_rows(views(targets@));
    let mut i: usize = 0;
    assert(views(r@) =~= all.take(0));
    while i < targets.len()
        invariant
            i <= targets@.len(),
            all == fixed_rows(views(targets@)),
            views(r@) == all.take(i as int),
        decreases targets@.len() - i,
    {
        let entry = match &targets[i] {
            WorktreeCreateTarget::CurrentBranch => WorktreeEntry::CreateFromCurrentBranch,
            WorktreeCreateTarget::DefaultBranch(default_branch) => {
                WorktreeEntry::CreateFromDefaultBranch { default_branch: default_branch.clone() }
            },
        };
        proof {
            lemma_views_push(r@, entry);
            assert(all.take(i + 1) =~= all.take(i as int).push(entry@));
        }
        r.push(entry);
        i += 1;
    }
    assert(all.take(all.len() as int) =~= all);
    r
}

fn grouped(
    all: &Vec<GitWorktree>,
    names: &Vec<String>,
    open: &PathSet,
    is_open: bool,
) -> (r: Vec<NamedWorktree>)
    requires
        names@.len() == all@.len(),
    ensures
        views(r@) == group(named(views(all@), texts(names@)), open@, is_open),
{
    let mut r: Vec<NamedWorktree> = Vec::new();
    let ghost list = named(views(all@), texts(names@));
    let ghost keep = |x: NamedView| open@.contains(x.worktree.path) == is_open;
    let mut i: usize = 0;
    proof {
        reveal(Seq::filter);
        assert(list.take(0).filter(keep) =~= seq![]);
        assert(views(r@) =~= seq![]);
    }
    while i < all.len()
        invariant
            i <= all@.len() == names@.len(),
            list == named(views(all@), texts(names@)),
            keep == (|x: NamedView| open@.contains(x.worktree.path) == is_open),
            views(r@) == sorted_by_name(list.take(i as int).filter(keep)),
        decreases all@.len() - i,
    {
        let ghost kept = list.take(i as int).filter(keep);
        proof {
            lemma_filter_step(list, i as int, keep);
            assert(kept.push(list[i as int]).drop_last() =~= kept);
        }
        if open.contains(&all[i].path) == is_open {
            let item = NamedWorktree { worktree: all[i].clone(), name: names[i].clone() };
            assert(item@ == list[i as int]);
            insert_by_name(&mut r, item);
        }
        i += 1;
    }
    assert(list.take(list.len() as int) =~= list);
    r
}

fn push_plain_rows(matches: &mut Vec<WorktreeEntry>, list: &Vec<NamedWorktree>)
    ensures
        views(final(matches)@) == views(old(matches)@) + plain_rows(views(list@)),
{
    let ghost before = views(matches@);
    let ghost rows = plain_rows(views(list@));
    let mut i: usize = 0;
    assert(views(matches@) =~= before + rows.take(0));
    while i < list.len()
        invariant
            i <= list@.len(),
            rows == plain_rows(views(list@)),
            views(matches@) == before + rows.take(i as int),
        decreases list@.len() - i,
    {
        let entry = WorktreeEntry::Worktree {
            worktree: list[i].worktree.clone(),
            positions: Vec::new(),
            repo_name: None,
        };
        proof {
            lemma_views_push(matches@, entry);
            assert(entry@ == rows[i as int]);
            assert(before + rows.take(i + 1) =~= (before + rows.take(i as int)).push(entry@));
        }
        matches.push(entry);
        i += 1;
    }
    assert(rows.take(rows.len() as int) =~= rows);
}

pub(crate) fn push_entry(matches: &mut Vec<WorktreeEntry>, entry: WorktreeEntry)
    ensures
        views(final(matches)@) == views(old(matches)@) + seq![entry@],
{
    proof {
        lemma_views_push(matches@, entry);
        assert(views(matches@).push(entry@) =~= views(matches@) + seq![entry@]);
    }
    matches.push(entry);
}

fn push_section(matches: &mut Vec<WorktreeEntry>, repo: &ExternalRepo, open: &PathSet)
    ensures
        views(final(matches)@) == views(old(matches)@) + section_rows(repo@, open@),
{
    let ghost before = views(matches@);
    let ghost all = repo@.worktrees;
    let ghost keep = |worktree: WorktreeView| !open@.contains(worktree.path);
    let ghost to_row = |worktree: WorktreeView| plain_row(worktree, Some(repo@.name));
    let ghost head = seq![EntryView::Separator, EntryView::SectionHeader(repo@.name)];
    let mut started: bool = false;
    let mut i: usize = 0;
    proof {
        reveal(Seq::filter);
        assert(all.take(0).filter(keep) =~= seq![]);
    }
    while i < repo.worktrees.len()
        invariant
            i <= repo.worktrees@.len(),
            all == repo@.worktrees,
            keep == (|worktree: WorktreeView| !open@.contains(worktree.path)),
            to_row == (|worktree: WorktreeView| plain_row(worktree, Some(repo@.name))),
            head == seq![EntryView::Separator, EntryView::SectionHeader(repo@.name)],
            started == (all.take(i as int).filter(keep).len() > 0),
            views(matches@) == if started {
                before + (head + all.take(i as int).filter(keep).map_values(to_row))
            } else {
                before
            },
        decreases repo.worktrees@.len() - i,
    {
        let ghost kept = all.take(i as int).filter(keep);
        proof {
            lemma_filter_step(all, i as int, keep);
        }
        if !open.contains(&repo.worktrees[i].path) {
            if !started {
                push_entry(matches, WorktreeEntry::Separator);
                push_entry(matches, WorktreeEntry::SectionHeader(repo.name.clone()));
                assert(kept.map_values(to_row) =~= seq![]);
                assert(views(matches@) =~= before + (head + kept.map_values(to_row)));
                started = true;
            }
            let entry = WorktreeEntry::Worktree {
                worktree: repo.worktrees[i].clone(),
                positions: Vec::new(),
                repo_name: Some(repo.name.clone()),
            };
            assert(entry@ == to_row(all[i as int]));
            push_entry(matches, entry);
            assert(kept.push(all[i as int]).map_values(to_row) =~= kept.map_values(to_row).push(
                to_row(all[i as int]),
            ));
            assert(views(matches@) =~= before + (head + kept.push(all[i as int]).map_values(
                to_row,
            )));
        }
        i += 1;
    }
    assert(all.take(all.len() as int) =~= all);
    assert(section_rows(repo@, open@) =~= if started {
        head + all.filter(keep).map_values(to_row)
    } else {
        seq![]
    });
    assert(views(matches@) =~= before + section_rows(repo@, open@));
}

fn push_external_rows(matches: &mut Vec<WorktreeEntry>, repos: &Vec<ExternalRepo>, open: &PathSet)
    ensures
        views(final(matches)@) == views(old(matches)@) + external_rows(views(repos@), open@),
{
    let ghost before = views(matches@);
    let ghost all = views(repos@);
    let mut i: usize = 0;
    assert(views(matches@) =~= before + external_rows(all.take(0), open@));
    while i < repos.len()
        invariant
            i <= repos@.len(),
            all == views(repos@),
            views(matches@) == before + external_rows(all.take(i as int), open@),
        decreases repos@.len() - i,
    {
        push_section(matches, &repos[i], open);
        assert(all.take(i + 1).drop_last() =~= all.take(i as int));
        i += 1;
        assert(views(matches@) =~= before + external_rows(all.take(i as int), open@));
    }
    assert(all.take(all.len() as int) =~= all);
}

impl WorktreePickerDelegate {
    /// The rows that offer targets.
    pub fn build_fixed_entries(&self, targets: &Vec<WorktreeCreateTarget>) -> (r: Vec<
        WorktreeEntry,
    >)
        ensures
            views(r@) == fixed_rows(views(targets@)),
    {
        fixed_entries(targets)
    }

    /// The rows without a query.
    pub fn idle_entries(&self, targets: &Vec<WorktreeCreateTarget>, names: &DirectoryNames) -> (r: Vec<
        WorktreeEntry,
    >)
        requires
            names@.fit(self@),
        ensures
            views(r@) == idle_rows(self@, views(targets@), names@),
    {
        let mut matches = self.build_fixed_entries(targets);
        let ghost fixed = views(matches@);
        let ghost all = named(self@.all_worktrees, names@.worktrees);
        if self.all_worktrees.len() > 0 {
            let open = &self.project_worktree_paths;
            let here = grouped(&self.all_worktrees, &names.worktrees, open, true);
            let others = grouped(&self.all_worktrees, &names.worktrees, open, false);
            push_entry(&mut matches, WorktreeEntry::Separator);
            if here.len() > 1 {
                push_entry(&mut matches, WorktreeEntry::SectionHeader("This Window".to_owned()));
                push_plain_rows(&mut matches, &here);
                if others.len() > 0 {
                    push_entry(&mut matches, WorktreeEntry::Separator);
                }
            } else {
                push_plain_rows(&mut matches, &here);
            }
            push_plain_rows(&mut matches, &others);
        }
        assert(views(matches@) =~= fixed + repository_rows(all, self@.project_worktree_paths));
        push_external_rows(&mut matches, &self.external_repos, &self.project_worktree_paths);
        matches
    }
}

} // verus!
