use std::path::{Component, Path, PathBuf};

use git_ui_core::model::GitWorktree;
use git_ui_core::naming::{insert_by_name, NamedWorktree};
use git_ui_core::path::{PathComponent, RepoPath};
use git_ui_core::path_order::{insert_sorted, is_path_lt};
use git_ui_core::path_set::PathSet;

const PATHS: [&str; 22] = [
    "",
    "/",
    "//",
    "/a",
    "/a/",
    "/a/b",
    "/a//b",
    "/a/./b",
    "/a/../b",
    "./a",
    ".",
    "..",
    "../a",
    "a",
    "a/.",
    "a/b",
    "a-b",
    "a.b/c",
    "a b",
    "/a/.git/worktrees/w",
    "/\u{e4}/b",
    "/B",
];

fn from_std(path: &Path) -> RepoPath {
    let components = path
        .components()
        .map(|component| match component {
            Component::Prefix(prefix) => {
                PathComponent::Prefix(prefix.as_os_str().as_encoded_bytes().to_vec())
            }
            Component::RootDir => PathComponent::RootDir,
            Component::CurDir => PathComponent::CurDir,
            Component::ParentDir => PathComponent::ParentDir,
            Component::Normal(name) => PathComponent::Normal(name.as_encoded_bytes().to_vec()),
        })
        .collect();
    RepoPath { components }
}

#[test]
fn posix_paths_are_read_as_by_std() {
    for text in PATHS {
        assert!(RepoPath::from_posix(text) == from_std(Path::new(text)), "{text}");
    }
}

#[test]
fn path_functions_are_those_of_std() {
    for text in PATHS {
        let own = RepoPath::from_posix(text);
        let path = Path::new(text);
        assert_eq!(
            own.file_name_text().as_deref(),
            path.file_name().and_then(|name| name.to_str()),
            "{text}"
        );
        assert!(own.parent() == path.parent().map(from_std), "{text}");
        assert_eq!(own.is_relative(), path.is_relative(), "{text}");
    }
}

#[test]
fn joining_and_ordering_are_those_of_std() {
    for a in PATHS {
        for b in PATHS {
            let x = RepoPath::from_posix(a);
            let y = RepoPath::from_posix(b);
            assert_eq!(x == y, Path::new(a) == Path::new(b), "{a} {b}");
            assert_eq!(x.same(&y), Path::new(a) == Path::new(b));
            assert_eq!(is_path_lt(&x, &y), Path::new(a) < Path::new(b), "{a} {b}");
            assert!(x.join(&y) == from_std(&Path::new(a).join(b)), "{a} {b}");
        }
    }
}

#[test]
fn names_that_are_no_text_have_none() {
    let path = RepoPath {
        components: vec![
            PathComponent::RootDir,
            PathComponent::Normal(vec![0x66, 0xff]),
        ],
    };
    assert_eq!(path.file_name_text(), None);
    assert!(path.parent() == Some(RepoPath::from_posix("/")));
}

#[test]
fn sorted_insertion_sorts_and_drops_duplicates() {
    let mut own: Vec<RepoPath> = Vec::new();
    let mut expected: Vec<PathBuf> = Vec::new();
    for text in PATHS.iter().rev().chain(PATHS.iter()) {
        insert_sorted(&mut own, RepoPath::from_posix(text));
        expected.push(PathBuf::from(text));
    }
    expected.sort();
    expected.dedup();
    let expected: Vec<RepoPath> = expected.iter().map(|path| from_std(path)).collect();
    assert!(own == expected);
}

#[test]
fn sets_hold_each_path_once() {
    let a = RepoPath::from_posix("/a");
    let b = RepoPath::from_posix("/b");
    let mut set = PathSet::new();
    assert!(set.is_empty());
    assert!(set.insert(a.clone()));
    assert!(!set.insert(RepoPath::from_posix("//a/")));
    assert_eq!(set.len(), 1);
    set.insert_all(&vec![a.clone(), b.clone(), b.clone()]);
    assert_eq!(set.len(), 2);
    assert_eq!(set.to_vec().len(), 2);
    let copy = set.clone();
    assert!(set.remove(&a));
    assert!(!set.remove(&a));
    assert!(!set.contains(&a) && set.contains(&b));
    assert!(copy.contains(&a));
    assert_eq!(PathSet::from_vec(&vec![a.clone(), a]).len(), 1);
}

#[test]
fn ordering_by_name_is_stable() {
    let item = |name: &str, at: &str| NamedWorktree {
        worktree: GitWorktree {
            path: RepoPath::from_posix(at),
            ref_name: None,
            branch_name: None,
            sha: String::new(),
            is_main: false,
            is_bare: false,
        },
        name: name.to_string(),
    };
    let mut list = Vec::new();
    for (name, at) in [("b", "/1"), ("a", "/2"), ("b", "/3"), ("a", "/4"), ("B", "/5")] {
        insert_by_name(&mut list, item(name, at));
    }
    let order: Vec<RepoPath> = list.iter().map(|item| item.worktree.path.clone()).collect();
    let expected: Vec<RepoPath> = ["/5", "/2", "/4", "/1", "/3"]
        .iter()
        .map(|at| RepoPath::from_posix(at))
        .collect();
    assert!(order == expected);
}
