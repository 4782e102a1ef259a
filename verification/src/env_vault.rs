//! Carries gitignored `.env*` files from a repository's primary checkout into
//! worktrees.
//!
//! Git worktrees check out tracked files only, so a freshly created worktree
//! is missing the gitignored secrets (`.env`, `.env.local`, ...) that the
//! project's tooling expects. Each `.env*` file in the primary checkout is
//! linked into the worktree as a symlink, keeping the primary checkout the
//! single source of truth across all branches. A file already present in the
//! worktree wins, and a symlink failure falls back to a copy.

use vstd::prelude::*;
use vstd::utf8::{encode_utf8, encode_utf8_decode_utf8, is_ascii_chars_encode_utf8};

use crate::path::{
    file_name_of, parent_of, posix_path, posix_piece, posix_pieces, resolved, same_bytes,
    ComponentView, PathComponent, PathView, RepoPath,
};
use crate::seqs::opt_view;
use crate::text;
use crate::text::{
    has_prefix, is_white_space, lemma_one_piece, lemma_pieces_nonempty, lemma_pieces_of_both,
    pieces, trimmed, trimmed_end, trimmed_start, without_prefix,
};

verus! {

broadcast use vstd::string::group_string_axioms;

/// Whether a file name is that of an env file.
pub open spec fn is_env_name(name: Seq<char>) -> bool {
    name == ".env"@ || has_prefix(name, ".env."@)
}

/// Whether a file name is that of an env file.
pub fn is_env_file_name(name: &str) -> (r: bool)
    ensures
        r == is_env_name(name@),
{
    text::same_text(name, ".env") || text::starts_with(name, ".env.")
}

/// What a file is.
#[derive(Debug, Clone, Copy)]
pub struct FileMetadata {
    pub is_dir: bool,
    pub is_symlink: bool,
}

/// The answer to a question for a file.
#[derive(Debug, Clone, Copy)]
pub enum MetadataReply {
    /// The question failed.
    Failed,
    /// There is no such file.
    Missing,
    Found(FileMetadata),
}

/// Whether an answer is that of a file that is no directory.
pub open spec fn file_like(reply: MetadataReply) -> bool {
    reply matches MetadataReply::Found(metadata) && !metadata.is_dir
}

/// Whether an answer is that of a file that is no directory.
pub fn is_file_like(reply: MetadataReply) -> (r: bool)
    ensures
        r == file_like(reply),
{
    match reply {
        MetadataReply::Found(metadata) => !metadata.is_dir,
        _ => false,
    }
}

/// Whether the answer for the `.git` of a directory makes it a repository.
pub fn is_repo_dir(dot_git: MetadataReply) -> (r: bool)
    ensures
        r == (dot_git is Found),
{
    match dot_git {
        MetadataReply::Found(_) => true,
        _ => false,
    }
}

/// The bytes of `.git`.
pub open spec fn dot_git_name() -> Seq<u8> {
    seq![46u8, 103u8, 105u8, 116u8]
}

fn dot_git_bytes() -> (r: Vec<u8>)
    ensures
        r@ == dot_git_name(),
{
    let mut name: Vec<u8> = Vec::new();
    name.push(46);
    name.push(103);
    name.push(105);
    name.push(116);
    assert(name@ =~= dot_git_name());
    name
}

/// The path of the `.git` of a directory.
pub fn dot_git_path(dir: &RepoPath) -> (r: RepoPath)
    ensures
        r@ == dir@.push(ComponentView::Normal(dot_git_name())),
{
    dir.push(&PathComponent::Normal(dot_git_bytes()))
}

/// The directory that holds the innermost `.git` on a path.
pub open spec fn checkout_above(gitdir: PathView) -> Option<PathView>
    decreases gitdir.len(),
{
    match file_name_of(gitdir) {
        Some(name) => if name == dot_git_name() {
            parent_of(gitdir)
        } else {
            checkout_above(gitdir.drop_last())
        },
        None => None,
    }
}

/// The checkout that owns a git directory: the directory that holds the
/// innermost `.git` on its path.
pub fn checkout_of_gitdir(gitdir: &RepoPath) -> (r: Option<RepoPath>)
    ensures
        opt_view(r) == checkout_above(gitdir@),
{
    let dot_git = dot_git_bytes();
    let mut count: usize = gitdir.components.len();
    assert(gitdir@.take(gitdir@.len() as int) =~= gitdir@);
    while count > 0
        invariant
            count <= gitdir.components@.len(),
            dot_git@ == dot_git_name(),
            checkout_above(gitdir@) == checkout_above(gitdir@.take(count as int)),
        decreases count,
    {
        let ghost here = gitdir@.take(count as int);
        assert(here.last() == gitdir.components@[count - 1]@);
        assert(here.drop_last() =~= gitdir@.take(count - 1));
        match &gitdir.components[count - 1] {
            PathComponent::Normal(name) => {
                if same_bytes(name, &dot_git) {
                    return Some(gitdir.first_components(count - 1));
                }
            },
            _ => return None,
        }
        count -= 1;
    }
    None
}

/// The git directory that a pointer file names.
pub open spec fn pointer_target(contents: Seq<char>) -> Option<Seq<char>> {
    match without_prefix(contents, "gitdir:"@) {
        Some(rest) => Some(trimmed(rest)),
        None => None,
    }
}

/// The git directory that a pointer file names.
pub fn gitdir_pointer(contents: &str) -> (r: Option<String>)
    ensures
        opt_view(r) == pointer_target(contents@),
{
    match text::strip_prefix(contents, "gitdir:") {
        Some(rest) => Some(text::trim(rest.as_str())),
        None => None,
    }
}

/// Whether an answer for a `.git` is that of a directory.
pub open spec fn is_git_directory(dot_git: MetadataReply) -> bool {
    dot_git matches MetadataReply::Found(metadata) && metadata.is_dir && !metadata.is_symlink
}

/// Whether the `.git` of a directory has to be read to find its repository.
pub fn is_pointer_file(dot_git: MetadataReply) -> (r: bool)
    ensures
        r == (dot_git is Found && !is_git_directory(dot_git)),
{
    match dot_git {
        MetadataReply::Found(metadata) => !metadata.is_dir || metadata.is_symlink,
        _ => false,
    }
}

/// The path of the git directory that a pointer file names, spelled in the
/// POSIX way.
pub open spec fn pointer_path(contents: Option<Seq<char>>) -> Option<PathView> {
    match contents {
        Some(contents) => match pointer_target(contents) {
            Some(target) => Some(posix_path(encode_utf8(target))),
            None => None,
        },
        None => None,
    }
}

/// The path of the git directory that a pointer file names, spelled in the
/// POSIX way.
pub fn gitdir_path(contents: &Option<String>) -> (r: Option<RepoPath>)
    ensures
        opt_view(r) == pointer_path(opt_view(*contents)),
{
    let contents = match contents {
        Some(contents) => contents,
        None => return None,
    };
    match gitdir_pointer(contents.as_str()) {
        Some(target) => Some(RepoPath::from_posix(target.as_str())),
        None => None,
    }
}

/// The directory that holds the `.git` of the repository behind a directory,
/// given what the directory's own `.git` is and the git directory that it names:
/// the directory itself where its `.git` is a directory, otherwise the one
/// above the git directory.
pub open spec fn repository_dir(
    worktree_path: PathView,
    dot_git: MetadataReply,
    gitdir: Option<PathView>,
) -> Option<PathView> {
    if is_git_directory(dot_git) {
        Some(worktree_path)
    } else if dot_git is Found && gitdir is Some {
        checkout_above(resolved(worktree_path, gitdir->0))
    } else {
        None
    }
}

/// Returns the directory that holds the `.git` of the repository behind
/// `worktree_path`, be that repository bare or not.
pub fn repository_dir_of(
    worktree_path: &RepoPath,
    dot_git: MetadataReply,
    gitdir: &Option<RepoPath>,
) -> (r: Option<RepoPath>)
    ensures
        opt_view(r) == repository_dir(worktree_path@, dot_git, opt_view(*gitdir)),
{
    match dot_git {
        MetadataReply::Found(metadata) => {
            if metadata.is_dir && !metadata.is_symlink {
                return Some(worktree_path.clone());
            }
        },
        _ => return None,
    }
    match gitdir {
        Some(gitdir) => checkout_of_gitdir(&worktree_path.join(gitdir)),
        None => None,
    }
}

/// The primary checkout of the repository behind a directory, given what its
/// `.git` is and holds, and whether the repository is bare.
pub open spec fn primary_checkout(
    worktree_path: PathView,
    dot_git: MetadataReply,
    gitdir: Option<PathView>,
    bare: bool,
) -> Option<PathView> {
    if bare {
        None
    } else {
        repository_dir(worktree_path, dot_git, gitdir)
    }
}

/// Returns the primary checkout of the repository behind `worktree_path`, given
/// the path of the git directory that its `.git` pointer file names.
pub fn primary_checkout_at(
    worktree_path: &RepoPath,
    dot_git: MetadataReply,
    gitdir: &Option<RepoPath>,
    bare: bool,
) -> (r: Option<RepoPath>)
    ensures
        opt_view(r) == primary_checkout(worktree_path@, dot_git, opt_view(*gitdir), bare),
{
    if bare {
        return None;
    }
    repository_dir_of(worktree_path, dot_git, gitdir)
}

/// Returns the primary checkout of the repository behind `worktree_path`: the
/// path itself when it is the primary checkout, otherwise the checkout owning
/// its `.git` pointer file, whose path is spelled in the POSIX way. `None` for
/// non-git paths and bare repositories, which have no checkout to source env
/// files from.
pub fn primary_checkout_dir(
    worktree_path: &RepoPath,
    dot_git: MetadataReply,
    contents: &Option<String>,
    bare: bool,
) -> (r: Option<RepoPath>)
    ensures
        opt_view(r) == primary_checkout(
            worktree_path@,
            dot_git,
            pointer_path(opt_view(*contents)),
            bare,
        ),
{
    primary_checkout_at(worktree_path, dot_git, &gitdir_path(contents), bare)
}

/// The checkout that owns a git directory holds a `.git` on the way to it, and
/// below that `.git` there are only names, none of them another `.git`.
pub proof fn checkout_owns_gitdir(gitdir: PathView)
    ensures
        checkout_above(gitdir) matches Some(checkout) ==> {
            &&& checkout.len() < gitdir.len()
            &&& gitdir.take(checkout.len() as int) == checkout
            &&& gitdir[checkout.len() as int] == ComponentView::Normal(dot_git_name())
            &&& forall|i: int|
                checkout.len() < i < gitdir.len() ==> (#[trigger] gitdir[i]) is Normal && gitdir[i]
                    != ComponentView::Normal(dot_git_name())
        },
    decreases gitdir.len(),
{
    if gitdir.len() > 0 && gitdir.last() is Normal {
        let init = gitdir.drop_last();
        if gitdir.last() == ComponentView::Normal(dot_git_name()) {
            assert(gitdir.take(init.len() as int) =~= init);
        } else {
            checkout_owns_gitdir(init);
            if let Some(checkout) = checkout_above(init) {
                assert(gitdir.take(checkout.len() as int) =~= init.take(checkout.len() as int));
                assert forall|i: int| checkout.len() < i < gitdir.len() implies (
                #[trigger] gitdir[i]) is Normal && gitdir[i] != ComponentView::Normal(
                    dot_git_name(),
                ) by {
                    if i < init.len() {
                        assert(gitdir[i] == init[i]);
                    }
                }
            }
        }
    }
}

/// The path of the git directory of a linked worktree.
pub open spec fn linked_gitdir(primary: PathView, name: Seq<u8>) -> PathView {
    primary + seq![
        ComponentView::Normal(dot_git_name()),
        ComponentView::Normal(encode_utf8("worktrees"@)),
        ComponentView::Normal(name),
    ]
}

proof fn lemma_linked_gitdir(primary: PathView, name: Seq<u8>)
    requires
        name != dot_git_name(),
    ensures
        checkout_above(linked_gitdir(primary, name)) == Some(primary),
{
    let gitdir = linked_gitdir(primary, name);
    let worktrees = gitdir.drop_last();
    let dot_git = worktrees.drop_last();
    lemma_ascii_names();
    assert(worktrees.last() == ComponentView::Normal(encode_utf8("worktrees"@)));
    assert(encode_utf8("worktrees"@).len() != dot_git_name().len());
    assert(dot_git.drop_last() =~= primary);
    reveal_with_fuel(checkout_above, 4);
}

proof fn lemma_ascii_names()
    ensures
        encode_utf8(".git"@) == dot_git_name(),
        encode_utf8("worktrees"@).len() == 9,
        forall|i: int|
            0 <= i < 9 ==> #[trigger] encode_utf8("worktrees"@)[i] == "worktrees"@[i] as u8,
        encode_utf8("/.git/worktrees/"@) == seq![47u8] + dot_git_name() + seq![47u8] + encode_utf8(
            "worktrees"@,
        ) + seq![47u8],
{
    reveal_strlit(".git");
    reveal_strlit("worktrees");
    reveal_strlit("/.git/worktrees/");
    is_ascii_chars_encode_utf8(".git"@);
    is_ascii_chars_encode_utf8("worktrees"@);
    is_ascii_chars_encode_utf8("/.git/worktrees/"@);
    assert(encode_utf8(".git"@) =~= dot_git_name());
    assert(encode_utf8("/.git/worktrees/"@) =~= seq![47u8] + dot_git_name() + seq![47u8]
        + encode_utf8("worktrees"@) + seq![47u8]);
}

proof fn lemma_encode_concat(a: Seq<char>, b: Seq<char>)
    ensures
        encode_utf8(a + b) == encode_utf8(a) + encode_utf8(b),
    decreases a.len(),
{
    if a.len() == 0 {
        assert(a + b =~= b);
        assert(encode_utf8(a) + encode_utf8(b) =~= encode_utf8(b));
    } else {
        lemma_encode_concat(a.drop_first(), b);
        assert((a + b).drop_first() =~= a.drop_first() + b);
        assert(encode_utf8(a + b) =~= encode_utf8(a) + encode_utf8(b));
    }
}

proof fn lemma_linked_path(primary: Seq<u8>, name: Seq<u8>)
    requires
        primary.len() > 0,
        name.len() > 0,
        !name.contains(47u8),
        name != seq![46u8],
        name != seq![46u8, 46u8],
    ensures
        posix_path(primary + encode_utf8("/.git/worktrees/"@) + name) == linked_gitdir(
            posix_path(primary),
            name,
        ),
{
    lemma_ascii_names();
    reveal_strlit("worktrees");
    let dot_git = dot_git_name();
    let worktrees = encode_utf8("worktrees"@);
    let all = primary + encode_utf8("/.git/worktrees/"@) + name;
    assert(all =~= primary.push(47u8) + (dot_git.push(47u8) + (worktrees.push(47u8) + name)));
    lemma_one_piece(dot_git, 47u8);
    lemma_one_piece(worktrees, 47u8);
    lemma_one_piece(name, 47u8);
    lemma_pieces_of_both(worktrees, 47u8, name);
    lemma_pieces_of_both(dot_git, 47u8, worktrees.push(47u8) + name);
    lemma_pieces_of_both(primary, 47u8, dot_git.push(47u8) + (worktrees.push(47u8) + name));
    lemma_pieces_nonempty(primary, 47u8);
    let base = pieces(primary, 47u8);
    let one = base.push(dot_git);
    let two = one.push(worktrees);
    let three = two.push(name);
    assert(pieces(all, 47u8) =~= three);
    assert(three.drop_last() =~= two && two.drop_last() =~= one && one.drop_last() =~= base);
    assert(posix_pieces(one) == posix_pieces(base) + posix_piece(dot_git, false));
    assert(posix_pieces(two) == posix_pieces(one) + posix_piece(worktrees, false));
    assert(posix_pieces(three) == posix_pieces(two) + posix_piece(name, false));
    assert(posix_path(all) =~= linked_gitdir(posix_path(primary), name));
}

proof fn lemma_trim_padding(s: Seq<char>)
    requires
        s.len() > 0,
        !is_white_space(s[0]),
        !is_white_space(s.last()),
    ensures
        trimmed(seq![' '] + s + seq!['\n']) == s,
{
    let padded = seq![' '] + s + seq!['\n'];
    let open = s + seq!['\n'];
    assert(padded.drop_first() =~= open);
    assert(trimmed_start(padded) == trimmed_start(open));
    assert(trimmed_start(open) == open);
    assert(open.drop_last() =~= s);
    assert(trimmed_end(open) == trimmed_end(s));
}

/// The contents of the `.git` file of a linked worktree.
pub open spec fn linked_pointer(primary: Seq<char>, name: Seq<char>) -> Seq<char> {
    "gitdir: "@ + primary + "/.git/worktrees/"@ + name + "\n"@
}

/// The primary checkout of a linked worktree is the checkout that its `.git`
/// file names, seen from the worktree where it is not an absolute path.
pub proof fn linked_worktree_has_its_primary_checkout(
    worktree_path: PathView,
    dot_git: FileMetadata,
    primary: Seq<char>,
    name: Seq<char>,
)
    requires
        !dot_git.is_dir,
        primary.len() > 0,
        !is_white_space(primary[0]),
        name.len() > 0,
        !is_white_space(name.last()),
        !encode_utf8(name).contains(47u8),
        name != "."@,
        name != ".."@,
        name != ".git"@,
    ensures
        primary_checkout(
            worktree_path,
            MetadataReply::Found(dot_git),
            pointer_path(Some(linked_pointer(primary, name))),
            false,
        ) == Some(resolved(worktree_path, posix_path(encode_utf8(primary)))),
{
    reveal_strlit("gitdir:");
    reveal_strlit("gitdir: ");
    reveal_strlit("/.git/worktrees/");
    reveal_strlit("\n");
    let target = primary + "/.git/worktrees/"@ + name;
    let contents = linked_pointer(primary, name);
    assert(contents.take(7) =~= "gitdir:"@);
    assert(contents.skip(7) =~= seq![' '] + target + seq!['\n']);
    lemma_trim_padding(target);
    lemma_encode_concat(primary + "/.git/worktrees/"@, name);
    lemma_encode_concat(primary, "/.git/worktrees/"@);
    lemma_name_bytes(name);
    assert(encode_utf8(primary).len() > 0);
    lemma_linked_path(encode_utf8(primary), encode_utf8(name));
    let base = posix_path(encode_utf8(primary));
    let gitdir = linked_gitdir(base, encode_utf8(name));
    assert(resolved(worktree_path, gitdir) =~= linked_gitdir(
        resolved(worktree_path, base),
        encode_utf8(name),
    ));
    lemma_linked_gitdir(resolved(worktree_path, base), encode_utf8(name));
}

proof fn lemma_name_bytes(name: Seq<char>)
    requires
        name.len() > 0,
        name != "."@,
        name != ".."@,
        name != ".git"@,
    ensures
        encode_utf8(name).len() > 0,
        encode_utf8(name) != seq![46u8],
        encode_utf8(name) != seq![46u8, 46u8],
        encode_utf8(name) != dot_git_name(),
{
    reveal_strlit(".");
    reveal_strlit("..");
    lemma_ascii_names();
    is_ascii_chars_encode_utf8("."@);
    is_ascii_chars_encode_utf8(".."@);
    assert(encode_utf8("."@) =~= seq![46u8]);
    assert(encode_utf8(".."@) =~= seq![46u8, 46u8]);
    encode_utf8_decode_utf8(name);
    encode_utf8_decode_utf8("."@);
    encode_utf8_decode_utf8(".."@);
    encode_utf8_decode_utf8(".git"@);
}

/// A checkout whose `.git` is a directory is its own primary checkout, whatever
/// that directory holds; a directory without a `.git` has none.
pub proof fn plain_checkout_is_its_own_primary(
    worktree_path: PathView,
    dot_git: MetadataReply,
    gitdir: Option<PathView>,
)
    ensures
        is_git_directory(dot_git) ==> primary_checkout(worktree_path, dot_git, gitdir, false)
            == Some(worktree_path),
        !(dot_git is Found) ==> primary_checkout(worktree_path, dot_git, gitdir, false) is None,
{
}

/// A bare repository has no primary checkout, neither at its own directory nor
/// behind a worktree whose `.git` file leads to it.
pub proof fn bare_repository_has_no_primary_checkout(
    worktree_path: PathView,
    dot_git: MetadataReply,
    gitdir: Option<PathView>,
)
    ensures
        primary_checkout(worktree_path, dot_git, gitdir, true) is None,
{
}

} // verus!
