use git_ui_core::env_carry::{carry_env_files, CarryAction, CarryEvent, CarryFailure, EnvCarry};
use git_ui_core::env_vault::{
    checkout_of_gitdir, dot_git_path, gitdir_path, gitdir_pointer, is_env_file_name, is_file_like,
    is_pointer_file, is_repo_dir, primary_checkout_at, primary_checkout_dir, repository_dir_of,
    FileMetadata, MetadataReply,
};
use git_ui_core::path::{PathComponent, RepoPath};

#[test]
fn test_is_env_file_name() {
    assert!(is_env_file_name(".env"));
    assert!(is_env_file_name(".env.local"));
    assert!(is_env_file_name(".env.production"));
    assert!(!is_env_file_name(".environment"));
    assert!(!is_env_file_name(".envrc"));
    assert!(!is_env_file_name("env"));
}

fn path(text: &str) -> RepoPath {
    RepoPath::from_posix(text)
}

fn found(is_dir: bool, is_symlink: bool) -> MetadataReply {
    MetadataReply::Found(FileMetadata { is_dir, is_symlink })
}

fn pointer(worktree: &str, contents: &str) -> Option<RepoPath> {
    primary_checkout_dir(
        &path(worktree),
        found(false, false),
        &Some(contents.to_string()),
        false,
    )
}

#[test]
fn checkout_is_its_own_primary() {
    assert!(primary_checkout_dir(&path("/r"), found(true, false), &None, false) == Some(path("/r")));
    assert!(!is_pointer_file(found(true, false)));
    assert!(is_pointer_file(found(true, true)));
    assert!(is_pointer_file(found(false, false)));
    assert!(!is_pointer_file(MetadataReply::Missing));
}

#[test]
fn linked_worktree_leads_to_its_primary() {
    assert!(pointer("/w", "gitdir: /r/.git/worktrees/w\n") == Some(path("/r")));
    assert!(pointer("/a/w", "gitdir:../r/.git/worktrees/w") == Some(path("/a/w/../r")));
    assert!(pointer("/w", "gitdir: /x/.git/modules/y/.git/worktrees/w")
        == Some(path("/x/.git/modules/y")));
}

#[test]
fn other_directories_have_no_primary() {
    assert!(primary_checkout_dir(&path("/r"), MetadataReply::Missing, &None, false).is_none());
    assert!(primary_checkout_dir(&path("/r"), MetadataReply::Failed, &None, false).is_none());
    assert!(primary_checkout_dir(&path("/r"), found(false, false), &None, false).is_none());
    assert!(pointer("/w", "nothing").is_none());
    assert!(pointer("/w", " gitdir: /r/.git").is_none());
    assert!(pointer("/w", "gitdir: /bare.git/worktrees/w").is_none());
    assert!(pointer("/w", "gitdir: /r/.git/../x").is_none());
}

#[test]
fn bare_repositories_have_no_primary() {
    let contents = Some("gitdir: /root/proj/.git/worktrees/main\n".to_string());
    let worktree = path("/root/proj/main");
    let reply = found(false, false);
    assert!(primary_checkout_dir(&worktree, reply, &contents, true).is_none());
    assert!(primary_checkout_dir(&worktree, reply, &contents, false) == Some(path("/root/proj")));
    assert!(primary_checkout_dir(&path("/root/proj"), found(true, false), &None, true).is_none());
    let gitdir = gitdir_path(&contents);
    assert!(gitdir == Some(path("/root/proj/.git/worktrees/main")));
    assert!(primary_checkout_at(&worktree, reply, &gitdir, true).is_none());
    assert!(primary_checkout_at(&worktree, reply, &gitdir, false) == Some(path("/root/proj")));
    assert!(repository_dir_of(&worktree, reply, &gitdir) == Some(path("/root/proj")));
    assert!(repository_dir_of(&worktree, reply, &None).is_none());
    assert!(repository_dir_of(&worktree, MetadataReply::Missing, &gitdir).is_none());
}

#[test]
fn git_directories_read_elsewhere_lead_to_their_repository() {
    let drive = |names: &[&str]| {
        let mut components = vec![PathComponent::Prefix(b"C:".to_vec()), PathComponent::RootDir];
        for name in names {
            components.push(PathComponent::Normal(name.as_bytes().to_vec()));
        }
        RepoPath { components }
    };
    let gitdir = Some(drive(&["r", ".git", "worktrees", "x"]));
    let worktree = drive(&["w"]);
    assert!(repository_dir_of(&worktree, found(false, false), &gitdir) == Some(drive(&["r"])));
}

#[test]
fn git_directories_belong_to_the_checkout_above() {
    assert!(checkout_of_gitdir(&path("/r/.git")) == Some(path("/r")));
    assert!(checkout_of_gitdir(&path(".git/a")) == Some(path("")));
    assert!(checkout_of_gitdir(&path("/r/git")).is_none());
    assert!(dot_git_path(&path("/r")) == path("/r/.git"));
    assert_eq!(gitdir_pointer("gitdir:  x \n").as_deref(), Some("x"));
    assert_eq!(gitdir_pointer("x"), None);
}

#[test]
fn repositories_and_files_are_told_apart() {
    assert!(is_repo_dir(found(true, false)) && is_repo_dir(found(false, false)));
    assert!(!is_repo_dir(MetadataReply::Missing) && !is_repo_dir(MetadataReply::Failed));
    assert!(is_file_like(found(false, false)) && is_file_like(found(false, true)));
    assert!(!is_file_like(found(true, false)) && !is_file_like(MetadataReply::Missing));
    assert!(!is_file_like(MetadataReply::Failed));
}

fn started() -> EnvCarry {
    let mut carry = carry_env_files(&path("/w"), Some(path("/r")));
    assert!(matches!(carry.action(), CarryAction::ReadDir { dir } if dir == path("/r")));
    carry.step(CarryEvent::Listed { ok: true });
    carry
}

fn entry(carry: &mut EnvCarry, source: &str) {
    assert!(matches!(carry.action(), CarryAction::ReadEntry));
    carry.step(CarryEvent::Entry { source: path(source) });
}

fn answer(carry: &mut EnvCarry, at: &str, reply: MetadataReply) {
    match carry.action() {
        CarryAction::Metadata { path: asked } => assert!(asked == path(at)),
        _ => panic!("no question for a file"),
    }
    carry.step(CarryEvent::Metadata { reply });
}

#[test]
fn env_files_are_linked() {
    let mut carry = started();
    entry(&mut carry, "/r/README.md");
    entry(&mut carry, "/r/.env");
    answer(&mut carry, "/r/.env", found(false, false));
    answer(&mut carry, "/w/.env", MetadataReply::Missing);
    match carry.action() {
        CarryAction::Symlink { target, source } => {
            assert!(target == path("/w/.env") && source == path("/r/.env"));
        }
        _ => panic!("no link"),
    }
    carry.step(CarryEvent::Linked { ok: true });
    entry(&mut carry, "/r/.env.local");
    answer(&mut carry, "/r/.env.local", found(false, true));
    answer(&mut carry, "/w/.env.local", MetadataReply::Missing);
    carry.step(CarryEvent::Linked { ok: false });
    match carry.action() {
        CarryAction::Copy { source, target } => {
            assert!(target == path("/w/.env.local") && source == path("/r/.env.local"));
        }
        _ => panic!("no copy"),
    }
    carry.step(CarryEvent::Copied { ok: true });
    carry.step(CarryEvent::NoMoreEntries);
    assert!(matches!(carry.action(), CarryAction::Done { carried: 2 }));
    carry.step(CarryEvent::Entry { source: path("/r/.env") });
    assert!(matches!(carry.action(), CarryAction::Done { carried: 2 }));
}

#[test]
fn present_files_and_directories_are_passed_over() {
    let mut carry = started();
    entry(&mut carry, "/r/.env");
    answer(&mut carry, "/r/.env", found(false, false));
    answer(&mut carry, "/w/.env", found(false, true));
    entry(&mut carry, "/r/.env.d");
    answer(&mut carry, "/r/.env.d", found(true, false));
    entry(&mut carry, "/r/.env.x");
    answer(&mut carry, "/r/.env.x", MetadataReply::Failed);
    carry.step(CarryEvent::NoMoreEntries);
    assert!(matches!(carry.action(), CarryAction::Done { carried: 0 }));
}

#[test]
fn nothing_is_carried_without_a_primary() {
    let mut carry = carry_env_files(&path("/w"), None);
    assert!(matches!(carry.action(), CarryAction::Done { carried: 0 }));
    carry.step(CarryEvent::Listed { ok: true });
    assert!(matches!(carry.action(), CarryAction::Done { carried: 0 }));
}

#[test]
fn failures_end_the_carrying() {
    let failure = |carry: &EnvCarry| match carry.action() {
        CarryAction::Fail { failure } => failure,
        _ => panic!("no failure"),
    };
    let mut carry = carry_env_files(&path("/w"), Some(path("/r")));
    carry.step(CarryEvent::Listed { ok: false });
    assert!(matches!(failure(&carry), CarryFailure::ReadDir));
    let mut carry = started();
    carry.step(CarryEvent::EntryFailed);
    assert!(matches!(failure(&carry), CarryFailure::ReadEntry));
    let mut carry = started();
    entry(&mut carry, "/r/.env");
    answer(&mut carry, "/r/.env", found(false, false));
    answer(&mut carry, "/w/.env", MetadataReply::Failed);
    assert!(matches!(failure(&carry), CarryFailure::TargetMetadata));
    let mut carry = started();
    entry(&mut carry, "/r/.env");
    answer(&mut carry, "/r/.env", found(false, false));
    answer(&mut carry, "/w/.env", MetadataReply::Missing);
    carry.step(CarryEvent::Linked { ok: false });
    carry.step(CarryEvent::Copied { ok: false });
    assert!(matches!(failure(&carry), CarryFailure::Copy));
    carry.step(CarryEvent::NoMoreEntries);
    assert!(matches!(failure(&carry), CarryFailure::Copy));
}

/// Carries over a small file system, whose files are the paths of `files`.
fn carry_over(files: &mut Vec<RepoPath>, worktree: &str, listing: &[&str]) -> usize {
    let mut carry = carry_env_files(&path(worktree), Some(path("/r")));
    let mut entries = listing.iter();
    loop {
        let event = match carry.action() {
            CarryAction::ReadDir { .. } => CarryEvent::Listed { ok: true },
            CarryAction::ReadEntry => match entries.next() {
                Some(entry) => CarryEvent::Entry { source: path(entry) },
                None => CarryEvent::NoMoreEntries,
            },
            CarryAction::Metadata { path } => CarryEvent::Metadata {
                reply: if files.contains(&path) {
                    found(false, false)
                } else {
                    MetadataReply::Missing
                },
            },
            CarryAction::Symlink { target, .. } => {
                files.push(target);
                CarryEvent::Linked { ok: true }
            }
            CarryAction::Copy { .. } => CarryEvent::Copied { ok: false },
            CarryAction::Done { carried } => return carried,
            CarryAction::Fail { .. } => panic!("the carrying failed"),
        };
        carry.step(event);
    }
}

#[test]
fn second_carry_carries_no_file() {
    let listing = ["/r/.env", "/r/.env.local", "/r/README.md"];
    let mut files: Vec<RepoPath> = listing.iter().map(|text| path(text)).collect();
    assert_eq!(carry_over(&mut files, "/w", &listing), 2);
    assert_eq!(carry_over(&mut files, "/w", &listing), 0);
    assert_eq!(files.len(), 5);
    assert_eq!(carry_over(&mut files, "/r", &listing), 0);
}
