use git_ui_core::env_vault::{FileMetadata, MetadataReply};
use git_ui_core::model::GitWorktree;
use git_ui_core::path::{PathComponent, RepoPath};
use git_ui_core::path_set::PathSet;
use git_ui_core::remote_open::{
    failure_context, open_remote_worktree, RemoteOpen, RemoteOpenEvent, RemoteOpenFailure,
    RemoteOpenStage,
};
use git_ui_core::scan::{
    candidate_dirs, external_repos, main_paths, scan_roots, ChildDir, SubDir, WorktreeListing,
};

fn path(text: &str) -> RepoPath {
    RepoPath::from_posix(text)
}

fn paths(texts: &[&str]) -> Vec<RepoPath> {
    texts.iter().map(|text| path(text)).collect()
}

fn dot_git(there: bool) -> MetadataReply {
    if there {
        MetadataReply::Found(FileMetadata {
            is_dir: true,
            is_symlink: false,
        })
    } else {
        MetadataReply::Missing
    }
}

fn worktree(at: &str, is_bare: bool) -> GitWorktree {
    GitWorktree {
        path: path(at),
        ref_name: None,
        branch_name: None,
        sha: String::new(),
        is_main: false,
        is_bare,
    }
}

#[test]
fn siblings_are_scanned() {
    let roots = scan_roots(
        &PathSet::from_vec(&paths(&["/a/r", "/b/s", "/"])),
        &PathSet::from_vec(&paths(&["/a/w", "/c/d/w"])),
    );
    assert_eq!(roots.len(), 3);
    for dir in ["/a", "/b", "/c/d"] {
        assert!(roots.contains(&path(dir)));
    }
}

#[test]
fn repositories_are_found_two_levels_deep() {
    let child = |at: &str, there: bool, entries: Vec<SubDir>| ChildDir {
        path: path(at),
        dot_git: dot_git(there),
        entries,
    };
    let sub = |at: &str, there: bool| SubDir {
        path: path(at),
        dot_git: dot_git(there),
    };
    let children = vec![
        child("/a/r", true, vec![sub("/a/r/inner", true)]),
        child("/a/d", false, vec![sub("/a/d/x", true), sub("/a/d/y", false), sub("/a/d/z", true)]),
        child("/a/e", false, Vec::new()),
    ];
    assert!(candidate_dirs(&children) == paths(&["/a/r", "/a/d/x", "/a/d/z"]));
}

#[test]
fn main_paths_are_ordered_and_foreign() {
    let roots = PathSet::from_vec(&paths(&["/a/own"]));
    let found = |texts: &[Option<&str>]| {
        let checkouts: Vec<Option<RepoPath>> =
            texts.iter().map(|text| text.map(path)).collect();
        main_paths(&checkouts, &roots)
    };
    let first = found(&[Some("/b"), None, Some("/a/own"), Some("/a/x"), Some("/b")]);
    assert!(first == paths(&["/a/x", "/b"]));
    let second = found(&[Some("/a/x"), Some("/b"), Some("/a/x")]);
    assert!(first == second);
    assert!(found(&[None]).is_empty());
}

#[test]
fn listings_give_repositories() {
    let unnamed = RepoPath {
        components: vec![
            PathComponent::RootDir,
            PathComponent::Normal(vec![0xc0]),
        ],
    };
    let listings = vec![
        WorktreeListing {
            main_path: path("/a/r"),
            worktrees: Some(vec![worktree("/a/r.git", true), worktree("/a/r", false)]),
        },
        WorktreeListing {
            main_path: path("/a/failed"),
            worktrees: None,
        },
        WorktreeListing {
            main_path: path("/a/bare"),
            worktrees: Some(vec![worktree("/a/bare", true)]),
        },
        WorktreeListing {
            main_path: unnamed,
            worktrees: Some(vec![worktree("/a/u", false)]),
        },
        WorktreeListing {
            main_path: path("/"),
            worktrees: Some(vec![worktree("/", false)]),
        },
        WorktreeListing {
            main_path: path("/b/\u{e4}"),
            worktrees: Some(vec![worktree("/b/w", false)]),
        },
    ];
    let repos = external_repos(&listings);
    assert_eq!(repos.len(), 2);
    assert_eq!(repos[0].name, "r");
    assert!(repos[0].main_path == path("/a/r"));
    assert_eq!(repos[0].worktrees.len(), 1);
    assert!(repos[0].worktrees[0].path == path("/a/r"));
    assert_eq!(repos[1].name, "\u{e4}");
}

#[test]
fn bare_repository_is_listed_with_its_linked_worktrees() {
    let listing = |worktrees: Vec<GitWorktree>| WorktreeListing {
        main_path: path("/root/proj"),
        worktrees: Some(worktrees),
    };
    let own = worktree("/root/proj/.git", true);
    let linked = worktree("/root/proj/main", false);
    let repos = external_repos(&vec![listing(vec![own.clone(), linked])]);
    assert_eq!(repos.len(), 1);
    assert_eq!(repos[0].name, "proj");
    assert_eq!(repos[0].worktrees.len(), 1);
    assert!(repos[0].worktrees[0].path == path("/root/proj/main"));
    assert!(external_repos(&vec![listing(vec![own])]).is_empty());
}

fn run(events: &[RemoteOpenEvent]) -> RemoteOpen {
    let mut open = open_remote_worktree(paths(&["/r"]));
    for event in events {
        open.step(*event);
    }
    open
}

const OK: RemoteOpenEvent = RemoteOpenEvent::Finished { ok: true };
const FAILED: RemoteOpenEvent = RemoteOpenEvent::Finished { ok: false };
const CONNECTED: RemoteOpenEvent = RemoteOpenEvent::Session { connected: true };
const UNCONNECTED: RemoteOpenEvent = RemoteOpenEvent::Session { connected: false };

#[test]
fn remote_worktree_is_opened_over_a_session() {
    let open = run(&[OK, CONNECTED, FAILED, OK, OK, OK, OK, OK, OK]);
    assert!(matches!(open.stage, RemoteOpenStage::Opened));
    assert!(open.paths == paths(&["/r"]));
}

#[test]
fn nothing_is_opened_without_a_session() {
    let open = run(&[OK, UNCONNECTED, OK]);
    assert!(matches!(open.stage, RemoteOpenStage::NotConnected));
    let open = run(&[OK, UNCONNECTED, FAILED, OK, CONNECTED, OK]);
    assert!(matches!(open.stage, RemoteOpenStage::NotConnected));
}

#[test]
fn failures_end_the_opening() {
    let failure = |events: &[RemoteOpenEvent]| match run(events).stage {
        RemoteOpenStage::Failed(failure) => failure,
        _ => panic!("no failure"),
    };
    assert!(matches!(failure(&[FAILED]), RemoteOpenFailure::Connecting));
    assert!(matches!(
        failure(&[OK, CONNECTED, OK, FAILED]),
        RemoteOpenFailure::CreatingProject
    ));
    assert!(matches!(
        failure(&[OK, CONNECTED, OK, OK, FAILED]),
        RemoteOpenFailure::RequestingPosition
    ));
    assert!(matches!(
        failure(&[OK, CONNECTED, OK, OK, OK, FAILED]),
        RemoteOpenFailure::AwaitingPosition
    ));
    assert!(matches!(
        failure(&[OK, CONNECTED, OK, OK, OK, OK, FAILED]),
        RemoteOpenFailure::BuildingOptions
    ));
    assert!(matches!(
        failure(&[OK, CONNECTED, OK, OK, OK, OK, OK, FAILED]),
        RemoteOpenFailure::OpeningWindow
    ));
    assert!(matches!(
        failure(&[OK, CONNECTED, OK, OK, OK, OK, OK, OK, FAILED]),
        RemoteOpenFailure::OpeningProject
    ));
    assert_eq!(
        failure_context(RemoteOpenFailure::AwaitingPosition).as_deref(),
        Some("fetching workspace position from db")
    );
    assert_eq!(failure_context(RemoteOpenFailure::Connecting), None);
}
