use git_ui_core::github_link::github_link_branch;
use git_ui_core::prompts::{
    dirty_worktree_force_delete_prompt, force_delete_prompt_for_message,
    force_delete_prompt_for_worktree_remove_error, worktree_remove_force_delete_prompts,
};
use git_ui_core::text;

const TEXTS: [&str; 16] = [
    "",
    " ",
    "a",
    " a b ",
    "\u{a0}\t x\u{3000}\n",
    "a/b//c/",
    "/",
    "//",
    "://",
    "x://y://z",
    "ab\r\ncd",
    "ab\ncd",
    "\r\n",
    "\u{e4}\u{1f600}z",
    "aab",
    "ab\r",
];

#[test]
fn white_space_is_that_of_std() {
    for c in '\0'..=char::MAX {
        assert_eq!(text::is_whitespace(c), c.is_whitespace(), "{c:?}");
    }
}

#[test]
fn trimming_is_that_of_std() {
    for s in TEXTS {
        assert_eq!(text::trim(s), s.trim());
    }
}

#[test]
fn searching_is_that_of_std() {
    for s in TEXTS {
        for pattern in TEXTS {
            assert_eq!(text::contains(s, pattern), s.contains(pattern));
            assert_eq!(text::starts_with(s, pattern), s.starts_with(pattern));
            assert_eq!(text::same_text(s, pattern), s == pattern);
            assert_eq!(
                text::strip_prefix(s, pattern).as_deref(),
                s.strip_prefix(pattern)
            );
            assert_eq!(
                text::split_once(s, pattern),
                s.split_once(pattern)
                    .map(|(a, b)| (a.to_string(), b.to_string()))
            );
            assert_eq!(
                text::before(s, pattern),
                s.split_once(pattern).map(|(a, _)| a).unwrap_or(s)
            );
            assert_eq!(text::is_text_le(s, pattern), s <= pattern, "{s:?} {pattern:?}");
        }
    }
}

#[test]
fn splitting_is_that_of_std() {
    for s in TEXTS {
        let pieces: Vec<String> = s
            .split('/')
            .filter(|piece| !piece.is_empty())
            .map(str::to_string)
            .collect();
        let own = text::split_segments(s, '/');
        assert_eq!(own, pieces);
        assert_eq!(text::join(&own, 0, '/'), pieces.join("/"));
        if own.len() > 1 {
            assert_eq!(text::join(&own, 1, '/'), pieces[1..].join("/"));
        }
        assert_eq!(text::replace(s, '/', '-'), s.replace('/', "-"));
        assert_eq!(text::first_line(s), s.lines().next().unwrap_or(s));
        for count in 0..4 {
            assert_eq!(
                text::shorten(s, count),
                s.chars().take(count).collect::<String>()
            );
        }
    }
}

#[test]
fn branch_links_name_their_branch() {
    let branch = |query: &str| github_link_branch(query);
    assert_eq!(
        branch("https://github.com/owner/repo/tree/branch/name").as_deref(),
        Some("branch/name")
    );
    assert_eq!(branch("  http://h/o/r/tree/x \n").as_deref(), Some("x"));
    assert_eq!(branch("https://h//o//r//tree//a//b/").as_deref(), Some("a/b"));
    assert_eq!(branch("https://h/o/r/tree/a?tab=b#c").as_deref(), Some("a"));
    assert_eq!(branch("https://h/o/r/tree/a#c?d").as_deref(), Some("a"));
    assert_eq!(branch("https://h/o/r/tree/a/?d").as_deref(), Some("a"));
}

#[test]
fn query_strings_make_no_difference() {
    for link in [
        "https://h/o/r/tree/a/b",
        "https://h/o/r/tree/a?x",
        "https://h/o/r/pull/1",
        "https://h/o/r",
        "https://h",
    ] {
        for tail in ["?", "?a=/tree/b", "#L1", "#/tree/b?c", "?x#y "] {
            assert_eq!(
                github_link_branch(&format!("{link}{tail}")),
                github_link_branch(link),
                "{link}{tail}"
            );
        }
    }
}

#[test]
fn other_links_name_no_branch() {
    for query in [
        "",
        "feature",
        "github.com/owner/repo/tree/branch",
        "https://github.com",
        "https://github.com/owner",
        "https://github.com/owner/repo",
        "https://github.com/owner/repo/",
        "https://github.com/owner/repo/pull/12",
        "https://github.com/owner/repo/issues/12",
        "https://github.com/owner/repo/tree",
        "https://github.com/owner/repo/tree/",
        "https://github.com/owner/repo/tree/?x",
        "https://github.com/owner/repo/tree/#x",
        "https://github.com/owner/repo/Tree/x",
        "https://github.com/owner/repo?next=/tree/main",
        "https://github.com/owner/repo#/tree/main",
        "https://github.com/owner/repo/?next=/tree/main",
        "https://github.com?/owner/repo/tree/main",
    ] {
        assert_eq!(github_link_branch(query), None, "{query}");
    }
}

#[test]
fn refusals_lead_to_a_question() {
    let question = "Worktree \"w\" contains modified or untracked files. Force delete it?";
    assert_eq!(dirty_worktree_force_delete_prompt("w"), question);
    let refused = "fatal: 'w' CONTAINS modified or untracked files, Use --FORCE to delete it";
    assert_eq!(
        force_delete_prompt_for_message(refused, "w").as_deref(),
        Some(question)
    );
    let error = anyhow::Error::msg(refused);
    assert_eq!(
        force_delete_prompt_for_worktree_remove_error(&error, "w").as_deref(),
        Some(question)
    );
    // The outermost message alone counts.
    let error = anyhow::Error::msg(refused).context("git failed");
    assert_eq!(force_delete_prompt_for_worktree_remove_error(&error, "w"), None);
    for half in [
        "",
        "contains modified or untracked files",
        "use --force to delete it",
        "is locked",
    ] {
        assert_eq!(force_delete_prompt_for_message(half, "w"), None);
    }
    let prompts = worktree_remove_force_delete_prompts();
    assert_eq!(prompts.len(), 1);
    assert!(prompts[0].matches("use --force to delete it: contains modified or untracked files"));
    assert!(!prompts[0].matches("Contains modified or untracked files, use --force to delete it"));
}
