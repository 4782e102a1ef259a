//! What reading a pasted link promises.

use vstd::prelude::*;

use crate::github_link::{
    is_link_host, is_link_part, is_link_scheme, is_plain, lemma_plain_link_to,
    lemma_without_query_of_plain, lemma_without_query_stops, link_branch, link_to, path_branch,
    repository_path, without_query,
};
use crate::laws::text::{
    separators_part_segments, split_is_at_the_first_place, text_without_separator_is_one_segment,
};
use crate::text::{is_white_space, joined, segments, split_at_first, trimmed};

verus! {

/// A query without `://` is no link.
pub proof fn query_without_scheme_names_no_branch(query: Seq<char>)
    requires
        forall|x: Seq<char>, y: Seq<char>| trimmed(query) != #[trigger] (x + "://"@ + y),
    ensures
        link_branch(query) is None,
{
    split_is_at_the_first_place(trimmed(query), "://"@);
}

/// A link without a slash behind its host, before a query string, names no
/// branch.
pub proof fn host_alone_names_no_branch(query: Seq<char>, scheme: Seq<char>, rest: Seq<char>)
    requires
        split_at_first(trimmed(query), "://"@) == Some((scheme, rest)),
        forall|x: Seq<char>, y: Seq<char>| without_query(rest) != #[trigger] (x + "/"@ + y),
    ensures
        link_branch(query) is None,
{
    split_is_at_the_first_place(without_query(rest), "/"@);
}

/// The branch of a link is made of what follows the owner, the repository and
/// `tree`, with slashes between; a link with fewer parts, or another third one,
/// has none.
pub proof fn branch_follows_the_tree(parts: Seq<Seq<char>>)
    ensures
        path_branch(parts) is Some <==> parts.len() > 3 && parts[2] == "tree"@,
        path_branch(parts) is Some ==> path_branch(parts) == Some(
            joined(parts.subrange(3, parts.len() as int), '/'),
        ),
{
    if parts.len() > 3 {
        assert(parts.subrange(3, parts.len() as int) =~= parts.skip(3));
    }
}

/// What a link's path names depends on its non-empty parts alone: doubled
/// slashes, and slashes at its ends, make no difference.
pub proof fn extra_slashes_make_no_difference(
    scheme: Seq<char>,
    host: Seq<char>,
    a: Seq<char>,
    b: Seq<char>,
)
    requires
        is_link_scheme(scheme),
        is_link_host(host),
        is_plain(a),
        is_plain(b),
        a.len() > 0 ==> !is_white_space(a.last()),
        b.len() > 0 ==> !is_white_space(b.last()),
    ensures
        link_branch(link_to(scheme, host, a.push('/').push('/') + b)) == link_branch(
            link_to(scheme, host, a.push('/') + b),
        ),
        link_branch(link_to(scheme, host, a.push('/'))) == link_branch(link_to(scheme, host, a)),
        link_branch(link_to(scheme, host, seq!['/'] + b)) == link_branch(
            link_to(scheme, host, b),
        ),
{
    let empty: Seq<char> = seq![];
    let double = a.push('/').push('/') + b;
    let single = a.push('/') + b;
    lemma_plain_link_to(scheme, host, double);
    lemma_plain_link_to(scheme, host, single);
    lemma_plain_link_to(scheme, host, a.push('/'));
    lemma_plain_link_to(scheme, host, a);
    lemma_plain_link_to(scheme, host, seq!['/'] + b);
    lemma_plain_link_to(scheme, host, b);
    text_without_separator_is_one_segment(empty, '/');
    separators_part_segments(a.push('/'), '/', b);
    separators_part_segments(a, '/', b);
    separators_part_segments(a, '/', empty);
    separators_part_segments(empty, '/', b);
    assert(a.push('/') + empty =~= a.push('/'));
    assert(empty.push('/') + b =~= seq!['/'] + b);
    assert(segments(a, '/') + empty_parts() =~= segments(a, '/'));
    assert(empty_parts() + segments(b, '/') =~= segments(b, '/'));
}

spec fn empty_parts() -> Seq<Seq<char>> {
    seq![]
}

/// A link to the trees of a repository without a branch names none.
pub proof fn tree_without_branch_names_none(
    scheme: Seq<char>,
    host: Seq<char>,
    owner: Seq<char>,
    repo: Seq<char>,
)
    requires
        is_link_scheme(scheme),
        is_link_host(host),
        is_link_part(owner),
        is_link_part(repo),
    ensures
        link_branch(link_to(scheme, host, repository_path(owner, repo, "tree"@))) is None,
        link_branch(link_to(scheme, host, repository_path(owner, repo, "tree/"@))) is None,
{
    reveal_strlit("tree");
    reveal_strlit("tree/");
    let tree = "tree"@;
    let empty: Seq<char> = seq![];
    let path = repository_path(owner, repo, tree);
    assert("tree/"@ =~= tree.push('/'));
    assert(is_plain(tree) && !tree.contains('/'));
    lemma_plain_link_to(scheme, host, path);
    lemma_plain_link_to(scheme, host, path.push('/'));
    assert(repository_path(owner, repo, "tree/"@) =~= path.push('/'));
    text_without_separator_is_one_segment(owner, '/');
    text_without_separator_is_one_segment(repo, '/');
    text_without_separator_is_one_segment(tree, '/');
    text_without_separator_is_one_segment(empty, '/');
    separators_part_segments(repo, '/', tree);
    separators_part_segments(owner, '/', repo.push('/') + tree);
    separators_part_segments(path, '/', empty);
    assert(path.push('/') + empty =~= path.push('/'));
}

/// The query string and the fragment begin at the first `?` or `#`: what comes
/// before that is kept, and nothing of the rest.
pub proof fn query_string_begins_at_its_mark(before: Seq<char>, mark: char, rest: Seq<char>)
    requires
        is_plain(before),
        mark == '?' || mark == '#',
    ensures
        without_query(before + seq![mark] + rest) == before,
        without_query(before) == before,
{
    lemma_without_query_of_plain(before);
    lemma_without_query_stops(before, mark, rest);
    assert(before + seq![mark] + rest =~= before + (seq![mark] + rest));
}

/// A link is read behind its first `://`, before its query string, and there
/// behind the first slash, whatever the scheme and the host are.
pub proof fn link_is_read_behind_its_host(
    query: Seq<char>,
    scheme: Seq<char>,
    rest: Seq<char>,
    host: Seq<char>,
    path: Seq<char>,
)
    requires
        split_at_first(trimmed(query), "://"@) == Some((scheme, rest)),
        split_at_first(without_query(rest), "/"@) == Some((host, path)),
    ensures
        link_branch(query) == path_branch(segments(path, '/')),
{
}

} // verus!
