use git_ui_core::confirm::{ConfirmAction, ConfirmContext, NewWorktreeBranchTarget};
use git_ui_core::deletion::{Deletion, DeletionAction, DeletionEvent, DeletionStage};
use git_ui_core::matches::DirectoryNames;
use git_ui_core::model::{
    Branch, ExternalRepo, GitWorktree, RemoteBranchName, WorktreeCreateTarget, WorktreeEntry,
};
use git_ui_core::path::RepoPath;
use git_ui_core::path_set::PathSet;
use git_ui_core::picker::{creation_blocked_reason, WorktreePickerDelegate};
use git_ui_core::prompts::remove_worktree_command;
use git_ui_core::render::{
    name, placeholder_text, DeleteWorktreeTooltip, Footer, RenderedRow, RowContext, RowEnd,
};
use git_ui_core::search::{FuzzyMatch, PendingSearch};
use git_ui_core::window::GroupWorkspace;
use git_ui_core::worktree_picker::{
    ProjectState, RepositoryState, WorktreePicker, WorktreesReply,
};

const REFUSAL: &str =
    "fatal: '/root/worktrees/dirty-wt' Contains modified or untracked files, use --force to delete it";

fn path(text: &str) -> RepoPath {
    RepoPath::from_posix(text)
}

fn worktree(at: &str, branch: &str, is_main: bool) -> GitWorktree {
    GitWorktree {
        path: path(at),
        ref_name: Some(format!("refs/heads/{branch}")),
        branch_name: Some(branch.to_string()),
        sha: "deadbeef".to_string(),
        is_main,
        is_bare: false,
    }
}

fn bare(at: &str) -> GitWorktree {
    GitWorktree {
        path: path(at),
        ref_name: None,
        branch_name: None,
        sha: String::new(),
        is_main: true,
        is_bare: true,
    }
}

fn origin_main() -> RemoteBranchName {
    RemoteBranchName {
        remote_name: "origin".to_string(),
        branch_name: "main".to_string(),
        shown: "origin/main".to_string(),
    }
}

fn project() -> ProjectState {
    ProjectState {
        is_local: true,
        visible_worktrees: vec![path("/root/project")],
        repository_count: 1,
        active_repository: Some(RepositoryState {
            id: 7,
            branch_name: Some("main".to_string()),
        }),
        repo_roots: vec![path("/root/project")],
    }
}

fn targets(delegate: &WorktreePickerDelegate) -> Vec<WorktreeCreateTarget> {
    let mut targets = Vec::new();
    if let Some(branch) = &delegate.default_branch {
        targets.push(WorktreeCreateTarget::DefaultBranch(branch.clone()));
    }
    targets.push(WorktreeCreateTarget::CurrentBranch);
    targets
}

fn names(delegate: &WorktreePickerDelegate) -> DirectoryNames {
    let name = |worktree: &GitWorktree| worktree.path.file_name_text().unwrap();
    DirectoryNames {
        worktrees: delegate.all_worktrees.iter().map(name).collect(),
        external: delegate
            .external_repos
            .iter()
            .map(|repo| repo.worktrees.iter().map(name).collect())
            .collect(),
    }
}

/// The byte positions of the characters of `query` in `label`, where they occur
/// there in order.
fn subsequence(label: &str, query: &str) -> Option<Vec<usize>> {
    let mut positions = Vec::new();
    let mut rest = label.char_indices();
    for wanted in query.chars() {
        let (at, _) = rest.find(|(_, found)| found.eq_ignore_ascii_case(&wanted))?;
        positions.push(at);
    }
    Some(positions)
}

fn found(search: &PendingSearch) -> Vec<FuzzyMatch> {
    search
        .candidates
        .iter()
        .enumerate()
        .filter_map(|(candidate_id, candidate)| {
            subsequence(&candidate.label, &search.query).map(|positions| FuzzyMatch {
                candidate_id,
                positions,
            })
        })
        .collect()
}

fn show(delegate: &mut WorktreePickerDelegate, query: &str, branches: &[&str]) {
    let branches: Vec<Branch> = branches
        .iter()
        .map(|ref_name| Branch {
            ref_name: ref_name.to_string(),
            name: ref_name
                .trim_start_matches("refs/heads/")
                .trim_start_matches("refs/remotes/")
                .to_string(),
        })
        .collect();
    let targets = targets(delegate);
    let names = names(delegate);
    if let Some(search) = delegate.update_matches(query, &targets, &names, &branches) {
        let found = found(&search);
        delegate.apply_search(&search, &found);
    }
}

fn init_worktree_picker_test() -> (WorktreePicker, RepoPath) {
    let mut picker = WorktreePicker::new(&project());
    let group = vec![path("/root/project")];
    let listed = vec![
        worktree("/root/project", "main", true),
        worktree("/root/worktrees/dirty-wt", "dirty-wt", false),
    ];
    assert!(picker.worktrees_loaded(WorktreesReply::Listed(listed), Some(origin_main()), &group));
    show(&mut picker.delegate, "", &[]);
    (picker, path("/root/worktrees/dirty-wt"))
}

fn worktree_index(picker: &WorktreePicker, at: &RepoPath) -> usize {
    picker
        .delegate
        .matches
        .iter()
        .position(
            |entry| matches!(entry, WorktreeEntry::Worktree { worktree, .. } if worktree.path == *at),
        )
        .expect("worktree should appear in picker")
}

fn picker_contains_worktree(picker: &WorktreePicker, at: &RepoPath) -> bool {
    picker
        .delegate
        .all_worktrees
        .iter()
        .any(|worktree| worktree.path == *at)
        && picker.delegate.matches.iter().any(
            |entry| matches!(entry, WorktreeEntry::Worktree { worktree, .. } if worktree.path == *at),
        )
}

fn start_deletion(picker: &mut WorktreePicker, ix: usize, force: bool) -> Option<Deletion> {
    picker
        .delegate
        .delete_worktree(ix, force, true)
        .map(|request| request.start("dirty-wt"))
}

fn refused() -> DeletionEvent {
    DeletionEvent::Failed {
        message: REFUSAL.to_string(),
    }
}

fn context(secondary: bool) -> ConfirmContext {
    ConfirmContext {
        secondary,
        creation_blocked: false,
        has_workspace: true,
    }
}

fn row_context(directory_name: &str) -> RowContext {
    RowContext {
        is_via_collab: false,
        repository_count: 1,
        branch_label: "main".to_string(),
        directory_name: directory_name.to_string(),
        compact_path: "~/x".to_string(),
    }
}

fn created(delegate: &WorktreePickerDelegate) -> Option<(Option<String>, NewWorktreeBranchTarget)> {
    match delegate.confirm(context(false)).action {
        Some(ConfirmAction::CreateWorktree {
            worktree_name,
            branch_target,
        }) => Some((worktree_name, branch_target)),
        _ => None,
    }
}

fn end_of(delegate: &WorktreePickerDelegate, ix: usize) -> RowEnd {
    match delegate.render_match(ix, false, &row_context("x")) {
        Some(RenderedRow::Worktree(row)) => row.end,
        _ => panic!("not the row of a worktree"),
    }
}

#[test]
fn test_delete_worktree_marks_row_pending_immediately() {
    let (mut picker, worktree_path) = init_worktree_picker_test();

    let index = worktree_index(&picker, &worktree_path);
    assert!(start_deletion(&mut picker, index, false).is_some());

    let pending_paths = picker.delegate.deleting_worktree_paths.clone();
    assert_eq!(pending_paths.len(), 1);
    assert!(pending_paths.contains(&worktree_path));
}

#[test]
fn test_delete_worktree_clears_pending_and_removes_row_on_success() {
    let (mut picker, worktree_path) = init_worktree_picker_test();

    let index = worktree_index(&picker, &worktree_path);
    let mut deletion = start_deletion(&mut picker, index, false).unwrap();
    assert!(picker
        .delegate
        .deleting_worktree_paths
        .contains(&worktree_path));

    let action = picker
        .delegate
        .step_deletion(&mut deletion, DeletionEvent::Removed);
    assert!(matches!(action, DeletionAction::Finish));

    assert!(picker.delegate.deleting_worktree_paths.is_empty());
    assert!(!picker_contains_worktree(&picker, &worktree_path));
    assert!(picker_contains_worktree(&picker, &path("/root/project")));
}

#[test]
fn test_remote_default_branch_is_preferred_create_target() {
    let (mut picker, _worktree_path) = init_worktree_picker_test();

    assert_eq!(picker.delegate.selected_index, 0);
    match picker.delegate.matches.first() {
        Some(WorktreeEntry::CreateFromDefaultBranch { default_branch }) => {
            assert_eq!(default_branch.display_name(), "origin/main");
        }
        _ => panic!("remote default branch should be the first create target"),
    }

    show(&mut picker.delegate, "feature", &[]);

    match picker.delegate.matches.first() {
        Some(WorktreeEntry::CreateNamed {
            from_branch: Some(default_branch),
            ..
        }) => {
            assert_eq!(default_branch.display_name(), "origin/main");
        }
        _ => panic!("named worktree creation should prefer the remote default branch"),
    }
}

fn other_repo() -> ExternalRepo {
    ExternalRepo {
        name: "other-repo".to_string(),
        main_path: path("/root/other-repo"),
        worktrees: vec![
            worktree("/root/other-repo", "main", true),
            worktree("/root/other-worktrees/feature", "feature", false),
        ],
    }
}

#[test]
fn test_external_repo_worktrees_are_listed() {
    let (mut picker, _worktree_path) = init_worktree_picker_test();

    picker.external_repos_found(vec![other_repo()]);
    show(&mut picker.delegate, "", &[]);

    let matches = &picker.delegate.matches;
    assert!(matches
        .iter()
        .any(|entry| matches!(entry, WorktreeEntry::SectionHeader(name) if name == "other-repo")));
    assert!(matches.iter().any(|entry| matches!(entry,
        WorktreeEntry::Worktree { worktree, repo_name: Some(repo_name), .. }
        if worktree.path == path("/root/other-worktrees/feature") && repo_name == "other-repo")));

    show(&mut picker.delegate, "other-repo/feature", &[]);

    assert!(picker.delegate.matches.iter().any(|entry| matches!(entry,
        WorktreeEntry::Worktree { worktree, repo_name: Some(_), .. }
        if worktree.path == path("/root/other-worktrees/feature"))));
}

#[test]
fn test_current_branch_create_target_is_shown_without_default_branch() {
    let (mut picker, _worktree_path) = init_worktree_picker_test();

    picker.delegate.default_branch = None;
    show(&mut picker.delegate, "", &[]);

    assert!(matches!(
        picker.delegate.matches.first(),
        Some(WorktreeEntry::CreateFromCurrentBranch)
    ));
    assert!(!picker
        .delegate
        .matches
        .iter()
        .any(|entry| matches!(entry, WorktreeEntry::CreateFromDefaultBranch { .. })));
}

#[test]
fn test_delete_dirty_worktree_prompts_for_force_delete() {
    let (mut picker, worktree_path) = init_worktree_picker_test();

    let index = worktree_index(&picker, &worktree_path);
    let mut deletion = start_deletion(&mut picker, index, false).unwrap();
    assert!(picker
        .delegate
        .deleting_worktree_paths
        .contains(&worktree_path));

    let action = picker.delegate.step_deletion(&mut deletion, refused());
    match action {
        DeletionAction::Prompt { message } => assert_eq!(
            message,
            "Worktree \"dirty-wt\" contains modified or untracked files. Force delete it?"
        ),
        _ => panic!("a prompt should be pending"),
    }
    assert!(
        !picker
            .delegate
            .deleting_worktree_paths
            .contains(&worktree_path),
        "pending delete state should clear while waiting for force-delete confirmation"
    );

    let action = picker
        .delegate
        .step_deletion(&mut deletion, DeletionEvent::Answered { force_delete: true });
    assert!(matches!(action, DeletionAction::Remove { force: true }));
    let action = picker
        .delegate
        .step_deletion(&mut deletion, DeletionEvent::Removed);
    assert!(matches!(action, DeletionAction::Finish));

    assert!(picker.delegate.deleting_worktree_paths.is_empty());
    assert!(!picker_contains_worktree(&picker, &worktree_path));
}

#[test]
fn test_duplicate_delete_worktree_is_ignored_while_pending() {
    let (mut picker, worktree_path) = init_worktree_picker_test();

    let index = worktree_index(&picker, &worktree_path);
    let mut deletion = start_deletion(&mut picker, index, false).unwrap();
    assert!(start_deletion(&mut picker, index, false).is_none());

    let pending_paths = picker.delegate.deleting_worktree_paths.clone();
    assert_eq!(pending_paths.len(), 1);
    assert!(pending_paths.contains(&worktree_path));

    let action = picker.delegate.step_deletion(&mut deletion, refused());
    assert!(matches!(action, DeletionAction::Prompt { .. }));
    assert!(picker.delegate.deleting_worktree_paths.is_empty());

    let action = picker
        .delegate
        .step_deletion(&mut deletion, DeletionEvent::Answered { force_delete: false });
    assert!(matches!(action, DeletionAction::Finish));

    assert!(picker_contains_worktree(&picker, &worktree_path));
}

#[test]
fn test_selected_deleting_worktree_cannot_be_opened() {
    let (mut picker, worktree_path) = init_worktree_picker_test();

    let index = worktree_index(&picker, &worktree_path);
    picker.delegate.selected_index = index;
    assert!(start_deletion(&mut picker, index, false).is_some());
    let confirmation = picker.delegate.confirm(context(false));
    assert!(
        !confirmation.dismiss,
        "DismissEvent should not be emitted for a deleting worktree"
    );
    assert!(confirmation.action.is_none());

    assert!(picker
        .delegate
        .deleting_worktree_paths
        .contains(&worktree_path));
}

#[test]
fn test_force_delete_worktree_deletes_without_prompt() {
    let (mut picker, worktree_path) = init_worktree_picker_test();

    let index = worktree_index(&picker, &worktree_path);
    picker.handle_modifiers_changed(true);
    let mut deletion = start_deletion(&mut picker, index, true).unwrap();
    assert!(deletion.force);
    assert!(picker
        .delegate
        .deleting_worktree_paths
        .contains(&worktree_path));

    let action = picker
        .delegate
        .step_deletion(&mut deletion, DeletionEvent::Removed);
    assert!(matches!(action, DeletionAction::Finish));

    assert!(picker.delegate.deleting_worktree_paths.is_empty());
    assert!(!picker_contains_worktree(&picker, &worktree_path));
}

#[test]
fn test_open_worktrees_are_grouped_under_section_header() {
    let second_worktree_path = path("/root/worktrees/second-wt");
    let project_path = path("/root/project");
    let mut state = project();
    state.visible_worktrees.push(second_worktree_path.clone());
    let mut picker = WorktreePicker::new(&state);
    let listed = vec![
        worktree("/root/project", "main", true),
        worktree("/root/worktrees/second-wt", "second-wt", false),
    ];
    picker.worktrees_loaded(WorktreesReply::Listed(listed), Some(origin_main()), &Vec::new());
    show(&mut picker.delegate, "", &[]);

    let matches = &picker.delegate.matches;
    let header_index = matches
        .iter()
        .position(
            |entry| matches!(entry, WorktreeEntry::SectionHeader(label) if label == "This Window"),
        )
        .expect("section header should be present when multiple worktrees are open");

    let grouped_paths: Vec<&RepoPath> = matches[header_index + 1..]
        .iter()
        .map_while(|entry| match entry {
            WorktreeEntry::Worktree { worktree, .. } => Some(&worktree.path),
            _ => None,
        })
        .collect();

    assert!(
        grouped_paths.contains(&&project_path),
        "main worktree should be grouped under the header"
    );
    assert!(
        grouped_paths.contains(&&second_worktree_path),
        "second open worktree should be grouped under the header"
    );
}

#[test]
fn test_remove_open_worktree_workspace_from_window() {
    let worktree_path = path("/root/worktrees/open-wt");
    let mut picker = WorktreePicker::new(&project());
    let own = GroupWorkspace {
        id: 1,
        visible_worktrees: vec![path("/root/project")],
    };
    let worktree_workspace = GroupWorkspace {
        id: 2,
        visible_worktrees: vec![worktree_path.clone()],
    };
    let mut group = vec![own, worktree_workspace];
    let listed = vec![
        worktree("/root/project", "main", true),
        worktree("/root/worktrees/open-wt", "open-wt", false),
    ];
    picker.worktrees_loaded(
        WorktreesReply::Listed(listed),
        Some(origin_main()),
        &git_ui_core::window::group_paths(&group),
    );
    show(&mut picker.delegate, "", &[]);

    assert!(
        picker
            .delegate
            .project_worktree_paths
            .contains(&worktree_path),
        "the worktree should be considered open in this window"
    );

    let removed = picker
        .delegate
        .remove_worktree_from_window(&worktree_path, Some(1), &group);
    assert_eq!(
        removed,
        Some(2),
        "the worktree workspace should be removed from the window"
    );
    group.retain(|workspace| Some(workspace.id) != removed);
    assert!(picker.delegate.finish_window_removal(true, &group));
    show(&mut picker.delegate, "", &[]);

    assert!(
        !picker
            .delegate
            .project_worktree_paths
            .contains(&worktree_path),
        "the worktree should no longer be considered open in this window"
    );

    assert!(
        picker_contains_worktree(&picker, &worktree_path),
        "removing the worktree from the window should not delete the git worktree"
    );
}

#[test]
fn picker_starts_with_the_current_branch() {
    let picker = WorktreePicker::new(&project());
    let delegate = &picker.delegate;
    assert_eq!(delegate.match_count(), 1);
    assert!(matches!(
        delegate.matches[0],
        WorktreeEntry::CreateFromCurrentBranch
    ));
    assert_eq!(delegate.selected_index(), 0);
    assert_eq!(delegate.repository, Some(7));
    assert_eq!(delegate.target_repository, None);
    assert_eq!(delegate.current_branch_name.as_deref(), Some("main"));
    assert!(!delegate.has_multiple_repositories);
    assert!(!delegate.show_footer);
    assert!(delegate.active_worktree_paths.contains(&path("/root/project")));
    assert!(delegate.project_worktree_paths.contains(&path("/root/project")));
    assert!(delegate.deleting_worktree_paths.is_empty());
    assert!(delegate.searchbar_trailer());
    let scan = picker.scan.as_ref().unwrap();
    assert_eq!(scan.scan_roots.len(), 1);
    assert!(scan.scan_roots.contains(&path("/root")));
    assert!(scan.project_repo_roots.contains(&path("/root/project")));
}

#[test]
fn modal_picker_prefers_the_repository_asked_for() {
    let mut state = project();
    state.repository_count = 2;
    state.is_local = false;
    let asked = Some(RepositoryState {
        id: 9,
        branch_name: None,
    });
    let picker = WorktreePicker::new_modal(&state, &asked);
    assert_eq!(picker.delegate.repository, Some(9));
    assert_eq!(picker.delegate.target_repository, Some(9));
    assert_eq!(picker.delegate.current_branch_name, None);
    assert!(picker.delegate.has_multiple_repositories);
    assert!(picker.delegate.show_footer);
    assert!(!picker.delegate.searchbar_trailer());
    assert!(picker.scan.is_none());
    let picker = WorktreePicker::new_modal(&state, &None);
    assert_eq!(picker.delegate.repository, Some(7));
    assert_eq!(picker.delegate.target_repository, None);
}

#[test]
fn nothing_is_scanned_without_a_directory() {
    let mut state = project();
    state.visible_worktrees = vec![path("/")];
    state.repo_roots = Vec::new();
    assert!(WorktreePicker::new(&state).scan.is_none());
}

#[test]
fn failed_listing_changes_nothing() {
    let (mut picker, worktree_path) = init_worktree_picker_test();
    assert!(!picker.worktrees_loaded(WorktreesReply::Failed, None, &Vec::new()));
    assert!(picker_contains_worktree(&picker, &worktree_path));
    assert!(picker.delegate.default_branch.is_some());
    assert!(picker.worktrees_loaded(WorktreesReply::NoRepository, None, &Vec::new()));
    assert!(picker.delegate.all_worktrees.is_empty());
    assert!(picker.delegate.default_branch.is_none());
}

#[test]
fn bare_worktrees_are_left_out() {
    let (mut picker, _) = init_worktree_picker_test();
    picker.worktree_list_changed(&vec![
        bare("/root/bare.git"),
        worktree("/root/a", "a", false),
    ]);
    assert_eq!(picker.delegate.all_worktrees.len(), 1);
    assert!(picker.delegate.all_worktrees[0].path == path("/root/a"));
    assert_eq!(picker.delegate.all_repo_worktrees().len(), 1);
    picker.worktrees_loaded(
        WorktreesReply::Listed(vec![bare("/root/bare.git")]),
        None,
        &Vec::new(),
    );
    assert!(picker.delegate.all_worktrees.is_empty());
}

#[test]
fn idle_rows_are_ordered_by_name() {
    let (mut picker, _) = init_worktree_picker_test();
    picker.worktree_list_changed(&vec![
        worktree("/root/worktrees/zebra", "z", false),
        worktree("/root/project", "main", true),
        worktree("/other/apple", "a", false),
        worktree("/root/worktrees/apple", "b", false),
    ]);
    show(&mut picker.delegate, "", &[]);
    let shown: Vec<Option<&RepoPath>> = picker
        .delegate
        .matches
        .iter()
        .map(|entry| match entry {
            WorktreeEntry::Worktree { worktree, .. } => Some(&worktree.path),
            _ => None,
        })
        .collect();
    assert_eq!(
        shown,
        vec![
            None,
            None,
            None,
            Some(&path("/root/project")),
            Some(&path("/other/apple")),
            Some(&path("/root/worktrees/apple")),
            Some(&path("/root/worktrees/zebra")),
        ]
    );
    assert!(matches!(picker.delegate.matches[2], WorktreeEntry::Separator));
}

#[test]
fn open_and_other_worktrees_are_set_apart() {
    let (mut picker, _) = init_worktree_picker_test();
    picker
        .delegate
        .refresh_project_worktree_paths(&vec![path("/root/worktrees/b")]);
    picker.worktree_list_changed(&vec![
        worktree("/root/worktrees/a", "a", false),
        worktree("/root/project", "main", true),
        worktree("/root/worktrees/b", "b", false),
    ]);
    show(&mut picker.delegate, "", &[]);
    let kinds: Vec<&str> = picker
        .delegate
        .matches
        .iter()
        .map(|entry| match entry {
            WorktreeEntry::Separator => "line",
            WorktreeEntry::SectionHeader(_) => "header",
            WorktreeEntry::Worktree { .. } => "worktree",
            _ => "create",
        })
        .collect();
    assert_eq!(
        kinds,
        vec!["create", "create", "line", "header", "worktree", "worktree", "line", "worktree"]
    );
    assert!(!picker.delegate.can_select(2));
    assert!(!picker.delegate.can_select(3));
    assert!(picker.delegate.can_select(4));
    assert!(picker.delegate.can_select(99));
}

#[test]
fn open_worktrees_of_other_repositories_are_not_shown() {
    let (mut picker, _) = init_worktree_picker_test();
    picker.external_repos_found(vec![other_repo()]);
    picker.delegate.refresh_project_worktree_paths(&vec![
        path("/root/other-repo"),
        path("/root/other-worktrees/feature"),
    ]);
    show(&mut picker.delegate, "", &[]);
    assert!(!picker.delegate.matches.iter().any(
        |entry| matches!(entry, WorktreeEntry::Worktree { repo_name: Some(_), .. })
    ));
    assert!(!picker
        .delegate
        .matches
        .iter()
        .any(|entry| matches!(entry, WorktreeEntry::SectionHeader(_))));
    show(&mut picker.delegate, "feature", &[]);
    assert!(!picker.delegate.matches.iter().any(
        |entry| matches!(entry, WorktreeEntry::Worktree { .. })
    ));
}

#[test]
fn search_ranks_branches() {
    let (mut picker, _) = init_worktree_picker_test();
    show(
        &mut picker.delegate,
        "FIX",
        &[
            "refs/heads/hotfix-1",
            "refs/heads/fix-a",
            "refs/remotes/origin/fix-remote",
            "refs/heads/Fix",
            "refs/heads/other",
            "refs/heads/fix-b",
            "refs/heads/bugfix",
            "refs/heads/prefix",
        ],
    );
    let offered: Vec<&str> = picker
        .delegate
        .matches
        .iter()
        .filter_map(|entry| match entry {
            WorktreeEntry::CreateFromExistingBranch { branch_name } => Some(branch_name.as_str()),
            _ => None,
        })
        .collect();
    assert_eq!(offered, vec!["Fix", "fix-a", "fix-b", "hotfix-1", "bugfix"]);
    assert!(matches!(picker.delegate.matches[5], WorktreeEntry::Separator));
    assert!(matches!(
        &picker.delegate.matches[6],
        WorktreeEntry::CreateNamed { name, disabled_reason: None, .. } if name == "FIX"
    ));
    assert!(matches!(
        &picker.delegate.matches[7],
        WorktreeEntry::CreateNewBranch { name } if name == "FIX"
    ));
    assert_eq!(picker.delegate.match_count(), 8);
    assert_eq!(picker.delegate.selected_index(), 6);
}

#[test]
fn search_compares_lower_case_beyond_ascii() {
    let (mut picker, _) = init_worktree_picker_test();
    show(&mut picker.delegate, "\u{c4}RGER", &["refs/heads/\u{e4}rger"]);
    assert!(matches!(
        &picker.delegate.matches[0],
        WorktreeEntry::CreateFromExistingBranch { branch_name } if branch_name == "\u{e4}rger"
    ));
}

#[test]
fn search_without_a_repository_offers_no_branches() {
    let (mut picker, _) = init_worktree_picker_test();
    picker.delegate.repository = None;
    show(&mut picker.delegate, "dirty", &["refs/heads/dirty-wt"]);
    assert_eq!(picker.delegate.match_count(), 3);
    assert!(matches!(picker.delegate.matches[0], WorktreeEntry::Worktree { .. }));
    assert!(matches!(picker.delegate.matches[1], WorktreeEntry::CreateNamed { .. }));
    assert!(matches!(picker.delegate.matches[2], WorktreeEntry::CreateNewBranch { .. }));
    assert_eq!(picker.delegate.selected_index(), 0);
}

#[test]
fn search_replaces_spaces_and_refuses_known_names() {
    let (mut picker, _) = init_worktree_picker_test();
    show(&mut picker.delegate, "dirty wt", &[]);
    assert!(matches!(
        &picker.delegate.matches[0],
        WorktreeEntry::CreateNamed { name, disabled_reason: Some(reason), .. }
            if name == "dirty-wt" && reason == "A worktree with this name already exists"
    ));
    assert!(created(&picker.delegate).is_none());
    picker.delegate.has_multiple_repositories = true;
    show(&mut picker.delegate, "new one", &[]);
    assert!(matches!(
        &picker.delegate.matches[0],
        WorktreeEntry::CreateNamed { from_branch: None, disabled_reason: Some(reason), .. }
            if reason
                == "Cannot create a named worktree in a project with multiple repositories"
    ));
}

#[test]
fn pasted_link_jumps_to_its_branch() {
    let (mut picker, worktree_path) = init_worktree_picker_test();
    show(&mut picker.delegate, "https://github.com/o/r/tree/dirty-wt", &[]);
    assert_eq!(picker.delegate.match_count(), 1);
    match picker.delegate.confirm(context(false)).action {
        Some(ConfirmAction::SwitchToBranch { path, display_name }) => {
            assert!(path == worktree_path);
            assert_eq!(display_name, "dirty-wt");
        }
        _ => panic!("the branch's worktree should be opened"),
    }
    show(&mut picker.delegate, "https://github.com/o/r/tree/new/one?x#y", &[]);
    match created(&picker.delegate) {
        Some((None, NewWorktreeBranchTarget::RemoteBranch { remote_name, branch_name })) => {
            assert_eq!(remote_name, "origin");
            assert_eq!(branch_name, "new/one");
        }
        _ => panic!("a worktree should be created"),
    }
    let mut blocked = context(false);
    blocked.creation_blocked = true;
    let confirmation = picker.delegate.confirm(blocked);
    assert!(confirmation.dismiss && confirmation.action.is_none());
    let mut orphaned = context(false);
    orphaned.has_workspace = false;
    assert!(!picker.delegate.confirm(orphaned).dismiss);
}

#[test]
fn unfound_query_creates_a_worktree_of_its_name() {
    let (mut picker, _) = init_worktree_picker_test();
    show(&mut picker.delegate, "my feature", &[]);
    match created(&picker.delegate) {
        Some((Some(name), NewWorktreeBranchTarget::RemoteBranch { remote_name, branch_name })) => {
            assert_eq!(name, "my-feature");
            assert_eq!(remote_name, "origin");
            assert_eq!(branch_name, "main");
        }
        _ => panic!("a named worktree should be created"),
    }
    picker.delegate.default_branch = None;
    show(&mut picker.delegate, "my/feature", &[]);
    assert!(matches!(
        created(&picker.delegate),
        Some((Some(_), NewWorktreeBranchTarget::CurrentBranch))
    ));
    picker.delegate.set_selected_index(1);
    match created(&picker.delegate) {
        Some((Some(worktree_name), NewWorktreeBranchTarget::NewBranch { name })) => {
            assert_eq!(worktree_name, "my-feature");
            assert_eq!(name, "my/feature");
        }
        _ => panic!("a branch should be created"),
    }
}

#[test]
fn creating_rows_create_from_their_branch() {
    let (mut picker, _) = init_worktree_picker_test();
    assert!(matches!(
        created(&picker.delegate),
        Some((None, NewWorktreeBranchTarget::RemoteBranch { .. }))
    ));
    picker.delegate.set_selected_index(1);
    assert!(matches!(
        created(&picker.delegate),
        Some((None, NewWorktreeBranchTarget::CurrentBranch))
    ));
    let mut blocked = context(false);
    blocked.creation_blocked = true;
    let confirmation = picker.delegate.confirm(blocked);
    assert!(!confirmation.dismiss && confirmation.action.is_none());
    show(&mut picker.delegate, "rel", &["refs/heads/release"]);
    picker.delegate.set_selected_index(0);
    match created(&picker.delegate) {
        Some((None, NewWorktreeBranchTarget::ExistingBranch { name })) => {
            assert_eq!(name, "release");
        }
        _ => panic!("the branch should be checked out"),
    }
}

#[test]
fn confirming_a_worktree_opens_it() {
    let (mut picker, worktree_path) = init_worktree_picker_test();
    let index = worktree_index(&picker, &worktree_path);
    picker.delegate.set_selected_index(index);
    match picker.delegate.confirm(context(false)).action {
        Some(ConfirmAction::SwitchToWorktree { worktree, main_worktree_path }) => {
            assert!(worktree.path == worktree_path);
            assert!(main_worktree_path == Some(path("/root/project")));
        }
        _ => panic!("the worktree should be opened"),
    }
    match picker.delegate.confirm(context(true)).action {
        Some(ConfirmAction::OpenInNewWindow { path }) => assert!(path == worktree_path),
        _ => panic!("the worktree should be opened in a new window"),
    }
    assert!(picker.delegate.open_in_new_window(index) == Some(worktree_path));
    assert!(picker.delegate.open_in_new_window(0).is_none());
    let current = worktree_index(&picker, &path("/root/project"));
    picker.delegate.set_selected_index(current);
    let confirmation = picker.delegate.confirm(context(false));
    assert!(confirmation.dismiss && confirmation.action.is_none());
    picker.delegate.set_selected_index(2);
    assert!(matches!(picker.delegate.matches[2], WorktreeEntry::Separator));
    assert!(!picker.delegate.confirm(context(false)).dismiss);
    picker.delegate.set_selected_index(99);
    assert!(!picker.delegate.confirm(context(false)).dismiss);
}

#[test]
fn worktree_of_another_repository_is_named_after_it() {
    let (mut picker, _) = init_worktree_picker_test();
    picker.external_repos_found(vec![other_repo()]);
    show(&mut picker.delegate, "", &[]);
    let index = worktree_index(&picker, &path("/root/other-worktrees/feature"));
    picker.delegate.set_selected_index(index);
    match picker.delegate.confirm(context(false)).action {
        Some(ConfirmAction::SwitchToWorktree { main_worktree_path, .. }) => {
            assert!(main_worktree_path == Some(path("/root/other-repo")));
        }
        _ => panic!("the worktree should be opened"),
    }
    match picker.delegate.render_match(index, true, &row_context("feature\r\nx")) {
        Some(RenderedRow::Worktree(row)) => {
            assert_eq!(row.name, "other-repo/feature");
            assert!(matches!(row.end, RowEnd::Buttons { delete: false, .. }));
            assert!(row.selected);
            assert_eq!(row.index, index);
        }
        _ => panic!("not the row of a worktree"),
    }
}

#[test]
fn creation_is_blocked_for_a_reason() {
    assert_eq!(
        creation_blocked_reason(true, 1).as_deref(),
        Some("Worktree creation is not supported in collaborative projects")
    );
    assert_eq!(
        creation_blocked_reason(false, 0).as_deref(),
        Some("Requires a Git repository in the project")
    );
    assert_eq!(creation_blocked_reason(false, 1), None);
}

#[test]
fn main_and_open_worktrees_are_not_deleted() {
    let (mut picker, worktree_path) = init_worktree_picker_test();
    let main = worktree_index(&picker, &path("/root/project"));
    assert!(start_deletion(&mut picker, main, true).is_none());
    assert!(start_deletion(&mut picker, 0, true).is_none());
    assert!(start_deletion(&mut picker, 99, true).is_none());
    let index = worktree_index(&picker, &worktree_path);
    assert!(picker.delegate.delete_worktree(index, true, false).is_none());
    picker
        .delegate
        .refresh_project_worktree_paths(&vec![worktree_path.clone()]);
    assert!(start_deletion(&mut picker, index, true).is_none());
    assert!(picker.delegate.deleting_worktree_paths.is_empty());
}

#[test]
fn deletion_request_names_the_main_worktree() {
    let (mut picker, worktree_path) = init_worktree_picker_test();
    let index = worktree_index(&picker, &worktree_path);
    picker.delegate.hover_delete(index, true);
    picker.handle_modifiers_changed(true);
    assert!(picker.delegate.is_force_delete_hovering_index(index));
    let request = picker.click_delete(index, true).unwrap();
    assert!(request.force);
    assert!(request.worktree.path == worktree_path);
    assert!(request.main_worktree_path == Some(path("/root/project")));
    assert_eq!(picker.delegate.hovered_delete_index, None);
}

#[test]
fn selected_row_is_deleted() {
    let (mut picker, worktree_path) = init_worktree_picker_test();
    let index = worktree_index(&picker, &worktree_path);
    assert!(picker.delete_selected(false, true).is_none());
    picker.delegate.set_selected_index(index);
    let request = picker.delete_selected(false, true).unwrap();
    assert!(!request.force);
    assert!(picker.delegate.deleting_worktree_paths.contains(&worktree_path));
}

#[test]
fn other_errors_are_reported() {
    let (mut picker, worktree_path) = init_worktree_picker_test();
    let index = worktree_index(&picker, &worktree_path);
    let mut deletion = start_deletion(&mut picker, index, false).unwrap();
    let action = picker.delegate.step_deletion(
        &mut deletion,
        DeletionEvent::Failed {
            message: "fatal: is locked".to_string(),
        },
    );
    assert!(matches!(action, DeletionAction::Report { attempted_force: false }));
    assert!(picker.delegate.deleting_worktree_paths.is_empty());
    assert!(picker_contains_worktree(&picker, &worktree_path));

    let mut deletion = start_deletion(&mut picker, index, true).unwrap();
    let action = picker.delegate.step_deletion(&mut deletion, refused());
    assert!(matches!(action, DeletionAction::Report { attempted_force: true }));

    let mut deletion = start_deletion(&mut picker, index, false).unwrap();
    let action = picker
        .delegate
        .step_deletion(&mut deletion, DeletionEvent::Cancelled);
    assert!(matches!(action, DeletionAction::Propagate));
    assert!(picker.delegate.deleting_worktree_paths.is_empty());
}

#[test]
fn errors_of_git_are_read_by_their_message() {
    let (mut picker, worktree_path) = init_worktree_picker_test();
    let index = worktree_index(&picker, &worktree_path);
    let mut deletion = start_deletion(&mut picker, index, false).unwrap();
    let error = anyhow::Error::msg(REFUSAL.to_string());
    let action = picker.delegate.fail_deletion(&mut deletion, &error);
    assert!(matches!(action, DeletionAction::Prompt { .. }));
    let mut deletion = start_deletion(&mut picker, index, false).unwrap();
    let error = anyhow::Error::msg("locked").context("removing");
    let action = picker.delegate.fail_deletion(&mut deletion, &error);
    assert!(matches!(action, DeletionAction::Report { .. }));
}

#[test]
fn retry_is_dropped_once_the_worktree_is_gone() {
    let (mut picker, worktree_path) = init_worktree_picker_test();
    let index = worktree_index(&picker, &worktree_path);
    let mut deletion = start_deletion(&mut picker, index, false).unwrap();
    picker.delegate.step_deletion(&mut deletion, refused());
    picker.worktree_list_changed(&vec![worktree("/root/project", "main", true)]);
    let action = picker
        .delegate
        .step_deletion(&mut deletion, DeletionEvent::Answered { force_delete: true });
    assert!(matches!(action, DeletionAction::Finish));
    assert!(picker.delegate.deleting_worktree_paths.is_empty());
}

#[test]
fn retry_is_dropped_while_another_deletion_runs() {
    let (mut picker, worktree_path) = init_worktree_picker_test();
    let index = worktree_index(&picker, &worktree_path);
    let mut first = start_deletion(&mut picker, index, false).unwrap();
    picker.delegate.step_deletion(&mut first, refused());
    let second = start_deletion(&mut picker, index, true);
    assert!(second.is_some());
    let action = picker
        .delegate
        .step_deletion(&mut first, DeletionEvent::Answered { force_delete: true });
    assert!(matches!(action, DeletionAction::Finish));
    assert!(picker.delegate.deleting_worktree_paths.contains(&worktree_path));
}

#[test]
fn failed_retry_is_reported_with_force() {
    let (mut picker, worktree_path) = init_worktree_picker_test();
    let index = worktree_index(&picker, &worktree_path);
    let mut deletion = start_deletion(&mut picker, index, false).unwrap();
    picker.delegate.step_deletion(&mut deletion, refused());
    picker
        .delegate
        .step_deletion(&mut deletion, DeletionEvent::Answered { force_delete: true });
    let action = picker.delegate.step_deletion(&mut deletion, refused());
    assert!(matches!(action, DeletionAction::Report { attempted_force: true }));
    assert!(matches!(deletion.stage, DeletionStage::Finished));
    let action = picker
        .delegate
        .step_deletion(&mut deletion, DeletionEvent::Removed);
    assert!(matches!(action, DeletionAction::Ignore));
    assert!(picker_contains_worktree(&picker, &worktree_path));
    assert_eq!(
        remove_worktree_command("/root/worktrees/dirty-wt", true),
        "worktree remove --force /root/worktrees/dirty-wt"
    );
    assert_eq!(remove_worktree_command("/x", false), "worktree remove /x");
}

#[test]
fn selection_stays_within_the_rows() {
    let (mut picker, worktree_path) = init_worktree_picker_test();
    let index = worktree_index(&picker, &worktree_path);
    assert_eq!(index, picker.delegate.match_count() - 1);
    picker.delegate.set_selected_index(index);
    let mut deletion = start_deletion(&mut picker, index, false).unwrap();
    picker
        .delegate
        .step_deletion(&mut deletion, DeletionEvent::Removed);
    assert_eq!(picker.delegate.selected_index(), index - 1);
}

#[test]
fn rows_show_what_they_do() {
    let (mut picker, worktree_path) = init_worktree_picker_test();
    let label = |delegate: &WorktreePickerDelegate, ix: usize| {
        match delegate.render_match(ix, false, &row_context("dirty-wt")) {
            Some(RenderedRow::Create(item)) => (item.id, item.label, item.disabled_tooltip),
            _ => panic!("not a creating row"),
        }
    };
    let own = |id: &str, text: &str| (id.to_string(), text.to_string(), None);
    assert_eq!(
        label(&picker.delegate, 0),
        own("create-from-main", "Create new worktree based on main")
    );
    assert_eq!(
        label(&picker.delegate, 1),
        own("create-from-current", "Create new worktree based on main")
    );
    assert!(matches!(
        picker.delegate.render_match(2, false, &row_context("")),
        Some(RenderedRow::Divider)
    ));
    assert!(picker.delegate.render_match(99, false, &row_context("")).is_none());
    let index = worktree_index(&picker, &worktree_path);
    match picker.delegate.render_match(index, false, &row_context("dirty-wt")) {
        Some(RenderedRow::Worktree(row)) => {
            assert_eq!(row.name, "dirty-wt");
            assert_eq!(row.sha, "deadbee");
            assert_eq!(row.branch.as_deref(), Some("dirty-wt"));
            assert_eq!(row.path, "~/x");
            assert!(!row.is_current);
        }
        _ => panic!("not the row of a worktree"),
    }
    show(&mut picker.delegate, "x y", &["refs/heads/x y"]);
    assert_eq!(
        label(&picker.delegate, 0),
        own("create-from-existing-branch", "Open branch x y in a new worktree")
    );
    assert_eq!(
        label(&picker.delegate, 2),
        own("create-named-from-origin/main", "Create \"x-y\" based on origin/main")
    );
    assert_eq!(
        label(&picker.delegate, 3),
        own("create-new-branch", "Create new branch x-y and open in a new worktree")
    );
    picker.delegate.default_branch = None;
    show(&mut picker.delegate, "x", &[]);
    assert_eq!(
        label(&picker.delegate, 0),
        own("create-named-from-current", "Create \"x\" based on main")
    );
    picker.delegate.current_branch_name = None;
    assert_eq!(
        label(&picker.delegate, 0),
        own("create-named-from-current", "Create \"x\" based on HEAD")
    );
    show(&mut picker.delegate, "https://github.com/o/r/tree/dirty-wt", &[]);
    assert_eq!(
        label(&picker.delegate, 0),
        own("create-from-github-link", "Open branch dirty-wt in ~/x")
    );
    show(&mut picker.delegate, "https://github.com/o/r/tree/b", &[]);
    assert_eq!(
        label(&picker.delegate, 0),
        own("create-from-github-link", "Open branch b in a new worktree")
    );
}

#[test]
fn blocked_rows_are_disabled() {
    let (picker, _) = init_worktree_picker_test();
    let mut surroundings = row_context("");
    surroundings.is_via_collab = true;
    match picker.delegate.render_match(0, true, &surroundings) {
        Some(RenderedRow::Create(item)) => {
            assert!(item.is_disabled && item.selected);
            assert_eq!(
                item.disabled_tooltip.as_deref(),
                Some("Worktree creation is not supported in collaborative projects")
            );
        }
        _ => panic!("not a creating row"),
    }
}

#[test]
fn section_headers_show_their_label() {
    let (mut picker, _) = init_worktree_picker_test();
    picker.external_repos_found(vec![other_repo()]);
    show(&mut picker.delegate, "", &[]);
    let at = picker
        .delegate
        .matches
        .iter()
        .position(|entry| matches!(entry, WorktreeEntry::SectionHeader(_)))
        .unwrap();
    assert!(matches!(
        picker.delegate.render_match(at, false, &row_context("")),
        Some(RenderedRow::Header(label)) if label == "other-repo"
    ));
}

#[test]
fn highlights_are_cut_at_the_first_line() {
    let (mut picker, worktree_path) = init_worktree_picker_test();
    let index = worktree_index(&picker, &worktree_path);
    if let WorktreeEntry::Worktree { positions, .. } = &mut picker.delegate.matches[index] {
        *positions = vec![0, 2, 3, 4, 9];
    }
    match picker.delegate.render_match(index, false, &row_context("\u{e4}b\ncd")) {
        Some(RenderedRow::Worktree(row)) => {
            assert_eq!(row.name, "\u{e4}b");
            assert_eq!(row.positions, vec![0, 2]);
        }
        _ => panic!("not the row of a worktree"),
    }
}

#[test]
fn buttons_follow_the_state_of_the_worktree() {
    let (mut picker, worktree_path) = init_worktree_picker_test();
    let index = worktree_index(&picker, &worktree_path);
    assert!(matches!(
        end_of(&picker.delegate, index),
        RowEnd::Buttons { remove_from_window: false, delete: true, force_delete: false }
    ));
    picker.delegate.hover_delete(index, true);
    picker.handle_modifiers_changed(true);
    assert!(matches!(
        end_of(&picker.delegate, index),
        RowEnd::Buttons { force_delete: true, .. }
    ));
    picker.delegate.hover_delete(index + 1, false);
    assert_eq!(picker.delegate.hovered_delete_index, Some(index));
    picker.delegate.hover_delete(index, false);
    assert_eq!(picker.delegate.hovered_delete_index, None);
    let main = worktree_index(&picker, &path("/root/project"));
    assert!(matches!(end_of(&picker.delegate, main), RowEnd::Nothing));
    start_deletion(&mut picker, index, false);
    assert!(matches!(end_of(&picker.delegate, index), RowEnd::Deleting));
    picker.delegate.deleting_worktree_paths = PathSet::new();
    picker
        .delegate
        .refresh_project_worktree_paths(&vec![worktree_path.clone()]);
    assert!(matches!(
        end_of(&picker.delegate, index),
        RowEnd::Buttons { remove_from_window: true, delete: false, .. }
    ));
}

#[test]
fn footer_follows_the_selected_row() {
    let (mut picker, worktree_path) = init_worktree_picker_test();
    assert!(picker.delegate.render_footer().is_none());
    picker.delegate.show_footer = true;
    assert!(matches!(picker.delegate.render_footer(), Some(Footer::Create)));
    let index = worktree_index(&picker, &worktree_path);
    picker.delegate.set_selected_index(index);
    assert!(matches!(
        picker.delegate.render_footer(),
        Some(Footer::Worktree { deleting: false, delete: true, open_in_new_window: true, open: true })
    ));
    start_deletion(&mut picker, index, false);
    assert!(matches!(
        picker.delegate.render_footer(),
        Some(Footer::Worktree {
            deleting: true,
            delete: false,
            open_in_new_window: false,
            open: false
        })
    ));
    let main = worktree_index(&picker, &path("/root/project"));
    picker.delegate.set_selected_index(main);
    assert!(matches!(
        picker.delegate.render_footer(),
        Some(Footer::Worktree { deleting: false, delete: false, open_in_new_window: false, open: true })
    ));
    picker.delegate.set_selected_index(2);
    assert!(picker.delegate.render_footer().is_none());
    show(&mut picker.delegate, "zzz", &[]);
    picker.delegate.set_selected_index(1);
    assert!(matches!(picker.delegate.matches[1], WorktreeEntry::CreateNewBranch { .. }));
    assert!(picker.delegate.render_footer().is_none());
}

#[test]
fn picker_has_its_texts() {
    assert_eq!(name(), "worktree picker");
    assert_eq!(placeholder_text(), "Select or type to create a worktree…");
    let tooltip = DeleteWorktreeTooltip::render(true);
    assert_eq!(tooltip.title, "Force Delete Worktree");
    assert_eq!(tooltip.meta, None);
    let tooltip = DeleteWorktreeTooltip::render(false);
    assert_eq!(tooltip.title, "Delete Worktree");
    assert_eq!(tooltip.meta.as_deref(), Some("Hold alt to force delete"));
}

#[test]
fn own_workspace_is_never_removed() {
    let (mut picker, worktree_path) = init_worktree_picker_test();
    let group = vec![
        GroupWorkspace { id: 1, visible_worktrees: vec![worktree_path.clone()] },
        GroupWorkspace { id: 2, visible_worktrees: vec![path("/elsewhere")] },
        GroupWorkspace { id: 3, visible_worktrees: vec![worktree_path.clone()] },
    ];
    let removed = |picker: &WorktreePicker, own| {
        picker
            .delegate
            .remove_worktree_from_window(&worktree_path, own, &group)
    };
    assert_eq!(removed(&picker, Some(1)), Some(3));
    assert_eq!(removed(&picker, None), None);
    assert_eq!(
        picker
            .delegate
            .remove_worktree_from_window(&path("/root/project"), Some(2), &group),
        None
    );
    let index = worktree_index(&picker, &worktree_path);
    start_deletion(&mut picker, index, false);
    assert_eq!(removed(&picker, Some(1)), None);
    assert_eq!(
        picker
            .delegate
            .workspace_for_open_worktree(&worktree_path, Some(1), &group),
        Some(3)
    );
    let before = picker.delegate.project_worktree_paths.len();
    assert!(!picker.delegate.finish_window_removal(false, &group));
    assert_eq!(picker.delegate.project_worktree_paths.len(), before);
}
