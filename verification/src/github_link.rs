//! Links to branches on GitHub and the like.

use vstd::prelude::*;

use crate::seqs::opt_view;
use crate::text;
use crate::text::{
    before_first, first_occurrence, first_occurrence_is_first, has_prefix, is_white_space, joined,
    lemma_one_piece, lemma_pieces_nonempty, lemma_pieces_of_both, pieces, segments, split_at_first,
    texts, trimmed, trimmed_end, trimmed_start,
};

verus! {

/// A link without its query string and its fragment: what comes before a `?`
/// and before a `#`.
pub open spec fn without_query(s: Seq<char>) -> Seq<char> {
    before_first(before_first(s, "?"@), "#"@)
}

/// The branch that a link names: in what follows the scheme and the host, up to
/// a query string or a fragment, the parts behind an owner, a repository and
/// `tree`.
pub open spec fn link_branch(query: Seq<char>) -> Option<Seq<char>> {
    match split_at_first(trimmed(query), "://"@) {
        Some((_, rest)) => match split_at_first(without_query(rest), "/"@) {
            Some((_, path)) => path_branch(segments(path, '/')),
            None => None,
        },
        None => None,
    }
}

/// The branch that the parts of a link's path name.
pub open spec fn path_branch(parts: Seq<Seq<char>>) -> Option<Seq<char>> {
    if parts.len() <= 3 || parts[2] != "tree"@ {
        None
    } else {
        Some(joined(parts.skip(3), '/'))
    }
}

/// Extracts the branch name from a GitHub-style branch link like
/// `https://github.com/owner/repo/tree/branch/name`. Returns `None` for
/// anything that isn't a `tree/` link (PRs, issues, plain repo URLs).
pub fn github_link_branch(query: &str) -> (r: Option<String>)
    ensures
        opt_view(r) == link_branch(query@),
{
    let query = text::trim(query);
    let rest = match text::split_once(query.as_str(), "://") {
        Some((_, rest)) => rest,
        None => return None,
    };
    let rest = text::before(rest.as_str(), "?");
    let rest = text::before(rest.as_str(), "#");
    let path = match text::split_once(rest.as_str(), "/") {
        Some((_, path)) => path,
        None => return None,
    };
    let parts = text::split_segments(path.as_str(), '/');
    assert(texts(parts@).len() == parts@.len());
    if parts.len() <= 3 {
        return None;
    }
    assert(texts(parts@)[2] == parts@[2]@);
    if !text::same_text(parts[2].as_str(), "tree") {
        return None;
    }
    Some(text::join(&parts, 3, '/'))
}

proof fn lemma_split_at(before: Seq<char>, pattern: Seq<char>, after: Seq<char>)
    requires
        pattern.len() > 0,
        forall|i: int| 0 <= i < before.len() ==> before[i] != pattern[0],
    ensures
        split_at_first(before + pattern + after, pattern) == Some((before, after)),
{
    let s = before + pattern + after;
    let at = before.len() as int;
    first_occurrence_is_first(s, pattern);
    assert(s.skip(at).take(pattern.len() as int) =~= pattern);
    match first_occurrence(s, pattern) {
        Some(i) => {
            assert(s.skip(i).take(pattern.len() as int)[0] == s[i]);
            assert(i == at) by {
                if i > at {
                    assert(!has_prefix(s.skip(at), pattern));
                }
            }
            assert(s.take(i) =~= before);
            assert(s.skip(i + pattern.len()) =~= after);
        },
        None => {
            assert(!has_prefix(s.skip(at), pattern));
        },
    }
}

proof fn lemma_occurrence_stays(a: Seq<char>, b: Seq<char>, pattern: Seq<char>)
    requires
        first_occurrence(a, pattern) is Some,
    ensures
        first_occurrence(a + b, pattern) == first_occurrence(a, pattern),
{
    let s = a + b;
    let i = first_occurrence(a, pattern)->0;
    first_occurrence_is_first(a, pattern);
    first_occurrence_is_first(s, pattern);
    assert forall|j: int| 0 <= j <= i implies has_prefix(#[trigger] s.skip(j), pattern)
        == has_prefix(a.skip(j), pattern) by {
        assert(s.skip(j).take(pattern.len() as int) =~= a.skip(j).take(pattern.len() as int));
    }
    assert(has_prefix(s.skip(i), pattern));
    match first_occurrence(s, pattern) {
        Some(k) => {
            if k < i {
                assert(!has_prefix(a.skip(k), pattern));
            }
        },
        None => {},
    }
}

proof fn lemma_split_stays(a: Seq<char>, b: Seq<char>, pattern: Seq<char>)
    ensures
        split_at_first(a, pattern) matches Some((before, after)) ==> split_at_first(
            a + b,
            pattern,
        ) == Some((before, after + b)),
{
    if first_occurrence(a, pattern) is Some {
        let i = first_occurrence(a, pattern)->0;
        lemma_occurrence_stays(a, b, pattern);
        first_occurrence_is_first(a, pattern);
        assert((a + b).take(i) =~= a.take(i));
        assert((a + b).skip(i + pattern.len()) =~= a.skip(i + pattern.len()) + b);
    }
}

proof fn lemma_before_mark(a: Seq<char>, mark: char, b: Seq<char>)
    ensures
        before_first(a + (seq![mark] + b), seq![mark]) == before_first(a, seq![mark]),
{
    let pattern = seq![mark];
    let s = a + (pattern + b);
    match first_occurrence(a, pattern) {
        Some(i) => {
            lemma_split_stays(a, pattern + b, pattern);
        },
        None => {
            first_occurrence_is_first(a, pattern);
            assert forall|i: int| 0 <= i < a.len() implies a[i] != pattern[0] by {
                assert(!has_prefix(a.skip(i), pattern));
                if a[i] == mark {
                    assert(a.skip(i).take(1) =~= pattern);
                }
            }
            assert(s =~= a + pattern + b);
            lemma_split_at(a, pattern, b);
        },
    }
}

proof fn lemma_before_behind(a: Seq<char>, b: Seq<char>, mark: char)
    requires
        !a.contains(mark),
    ensures
        before_first(a + b, seq![mark]) == a + before_first(b, seq![mark]),
{
    let pattern = seq![mark];
    let s = a + b;
    first_occurrence_is_first(b, pattern);
    first_occurrence_is_first(s, pattern);
    assert forall|j: int| 0 <= j < a.len() implies !has_prefix(#[trigger] s.skip(j), pattern) by {
        assert(s[j] == a[j]);
        assert(s.skip(j).take(1)[0] == s[j]);
    }
    assert forall|j: int| 0 <= j <= b.len() implies #[trigger] s.skip(a.len() + j) == b.skip(
        j,
    ) by {
        assert(s.skip(a.len() + j) =~= b.skip(j));
    }
    match first_occurrence(b, pattern) {
        Some(i) => {
            assert(has_prefix(s.skip(a.len() + i), pattern));
            let k = first_occurrence(s, pattern)->0;
            assert(k == a.len() + i) by {
                if k < a.len() + i && k >= a.len() {
                    assert(s.skip(a.len() + (k - a.len())) == b.skip(k - a.len()));
                }
            }
            assert(s.take(k) =~= a + b.take(i));
        },
        None => {
            if let Some(k) = first_occurrence(s, pattern) {
                assert(s.skip(a.len() + (k - a.len())) == b.skip(k - a.len()));
            }
        },
    }
}

/// Whether a text holds neither a `?` nor a `#`.
pub open spec fn is_plain(s: Seq<char>) -> bool {
    !s.contains('?') && !s.contains('#')
}

proof fn lemma_query_marks()
    ensures
        "?"@ == seq!['?'],
        "#"@ == seq!['#'],
{
    reveal_strlit("?");
    reveal_strlit("#");
    assert("?"@ =~= seq!['?']);
    assert("#"@ =~= seq!['#']);
}

proof fn lemma_without_query_behind(a: Seq<char>, b: Seq<char>)
    requires
        is_plain(a),
    ensures
        without_query(a + b) == a + without_query(b),
{
    lemma_query_marks();
    lemma_before_behind(a, b, '?');
    lemma_before_behind(a, before_first(b, "?"@), '#');
}

pub(crate) proof fn lemma_without_query_of_plain(s: Seq<char>)
    requires
        is_plain(s),
    ensures
        without_query(s) == s,
{
    lemma_without_query_behind(s, seq![]);
    lemma_query_marks();
    let empty: Seq<char> = seq![];
    first_occurrence_is_first(empty, "?"@);
    first_occurrence_is_first(empty, "#"@);
    assert(s + empty =~= s);
}

pub(crate) proof fn lemma_without_query_stops(a: Seq<char>, mark: char, b: Seq<char>)
    requires
        mark == '?' || mark == '#',
    ensures
        without_query(a + (seq![mark] + b)) == without_query(a),
{
    lemma_query_marks();
    let s = a + (seq![mark] + b);
    if mark == '?' {
        lemma_before_mark(a, '?', b);
    } else if first_occurrence(a, "?"@) is Some {
        lemma_split_stays(a, seq![mark] + b, "?"@);
    } else {
        first_occurrence_is_first(a, "?"@);
        assert(!a.contains('?')) by {
            if a.contains('?') {
                let i = choose|i: int| 0 <= i < a.len() && a[i] == '?';
                assert(a.skip(i).take(1) =~= seq!['?']);
                assert(!has_prefix(a.skip(i), "?"@));
            }
        }
        assert(before_first(a, "?"@) == a);
        lemma_before_behind(a, seq![mark] + b, '?');
        lemma_before_behind(seq![mark], b, '?');
        lemma_before_mark(a, '#', before_first(b, "?"@));
    }
}

proof fn lemma_joined_pieces(s: Seq<char>, separator: char)
    ensures
        joined(pieces(s, separator), separator) == s,
    decreases s.len(),
{
    if s.len() == 0 {
        assert(pieces(s, separator)[0] =~= s);
    } else {
        let ps = pieces(s.drop_last(), separator);
        lemma_pieces_nonempty(s.drop_last(), separator);
        lemma_joined_pieces(s.drop_last(), separator);
        let qs = pieces(s, separator);
        if s.last() == separator {
            assert(qs.drop_last() =~= ps);
            assert(joined(qs, separator) =~= s);
        } else {
            assert(qs.drop_last() =~= ps.drop_last());
            assert(joined(qs, separator) =~= joined(ps, separator).push(s.last()));
            assert(joined(qs, separator) =~= s);
        }
    }
}

proof fn lemma_filter_all(parts: Seq<Seq<char>>)
    requires
        forall|i: int| 0 <= i < parts.len() ==> (#[trigger] parts[i]).len() > 0,
    ensures
        parts.filter(|part: Seq<char>| part.len() > 0) == parts,
    decreases parts.len(),
{
    reveal(Seq::filter);
    if parts.len() > 0 {
        lemma_filter_all(parts.drop_last());
        assert(parts.drop_last().push(parts.last()) =~= parts);
    }
}

proof fn lemma_untouched_by_trim(s: Seq<char>)
    requires
        s.len() > 0,
        !is_white_space(s[0]),
        !is_white_space(s.last()),
    ensures
        trimmed(s) == s,
{
}

/// The link to a path on a host.
pub open spec fn link_to(scheme: Seq<char>, host: Seq<char>, path: Seq<char>) -> Seq<char> {
    scheme + "://"@ + (host + "/"@ + path)
}

/// Whether a text can stand between two slashes of a link.
pub open spec fn is_link_part(part: Seq<char>) -> bool {
    part.len() > 0 && !part.contains('/') && is_plain(part)
}

/// Whether a text can stand before the path of a link as its host.
pub open spec fn is_link_host(host: Seq<char>) -> bool {
    !host.contains('/') && is_plain(host)
}

/// Whether a text can stand before a link's `://`.
pub open spec fn is_link_scheme(scheme: Seq<char>) -> bool {
    !scheme.contains(':') && (scheme.len() > 0 ==> !is_white_space(scheme[0]))
}

proof fn lemma_link_to(scheme: Seq<char>, host: Seq<char>, path: Seq<char>)
    requires
        is_link_scheme(scheme),
        is_link_host(host),
        path.len() > 0 ==> !is_white_space(path.last()),
    ensures
        link_branch(link_to(scheme, host, path)) == path_branch(
            segments(without_query(path), '/'),
        ),
{
    reveal_strlit("://");
    reveal_strlit("/");
    let link = link_to(scheme, host, path);
    let rest = host + "/"@ + path;
    assert(link.last() == rest.last());
    lemma_untouched_by_trim(link);
    lemma_split_at(scheme, "://"@, rest);
    assert(is_plain(host + "/"@)) by {
        let before = host + "/"@;
        assert forall|c: char| before.contains(c) implies host.contains(c) || c == '/' by {
            let i = choose|i: int| 0 <= i < before.len() && before[i] == c;
            if i < host.len() {
                assert(host[i] == c);
            }
        }
    }
    lemma_without_query_behind(host + "/"@, path);
    lemma_split_at(host, "/"@, without_query(path));
}

pub(crate) proof fn lemma_plain_link_to(scheme: Seq<char>, host: Seq<char>, path: Seq<char>)
    requires
        is_link_scheme(scheme),
        is_link_host(host),
        is_plain(path),
        path.len() > 0 ==> !is_white_space(path.last()),
    ensures
        link_branch(link_to(scheme, host, path)) == path_branch(segments(path, '/')),
{
    lemma_link_to(scheme, host, path);
    lemma_without_query_of_plain(path);
}

/// The path of a link, from its first two parts and the rest.
pub open spec fn repository_path(
    owner: Seq<char>,
    repo: Seq<char>,
    rest: Seq<char>,
) -> Seq<char> {
    owner.push('/') + (repo.push('/') + rest)
}

proof fn lemma_part_behind(part: Seq<char>, rest: Seq<char>)
    requires
        is_link_part(part),
    ensures
        without_query(part.push('/') + rest) == part.push('/') + without_query(rest),
        segments(part.push('/') + rest, '/') == seq![part] + segments(rest, '/'),
{
    assert forall|c: char| part.push('/').contains(c) implies part.contains(c) || c == '/' by {
        let i = choose|i: int| 0 <= i < part.push('/').len() && part.push('/')[i] == c;
        if i < part.len() {
            assert(part[i] == c);
        }
    }
    lemma_without_query_behind(part.push('/'), rest);
    lemma_one_piece(part, '/');
    lemma_pieces_of_both(part, '/', rest);
    let keep = |p: Seq<char>| p.len() > 0;
    assert(pieces(part.push('/') + rest, '/') =~= seq![part] + pieces(rest, '/'));
    Seq::filter_distributes_over_add(seq![part], pieces(rest, '/'), keep);
    lemma_filter_all(seq![part]);
}

proof fn lemma_repository_path(owner: Seq<char>, repo: Seq<char>, kind: Seq<char>, rest: Seq<char>)
    requires
        is_link_part(owner),
        is_link_part(repo),
        is_link_part(kind),
    ensures
        segments(
            without_query(repository_path(owner, repo, kind.push('/') + rest)),
            '/',
        ) == seq![owner, repo, kind] + segments(without_query(rest), '/'),
{
    let cut = without_query(rest);
    lemma_part_behind(kind, rest);
    lemma_part_behind(repo, kind.push('/') + rest);
    lemma_part_behind(owner, repo.push('/') + (kind.push('/') + rest));
    lemma_part_behind(kind, cut);
    lemma_part_behind(repo, kind.push('/') + cut);
    lemma_part_behind(owner, repo.push('/') + (kind.push('/') + cut));
    assert(seq![owner] + (seq![repo] + (seq![kind] + segments(cut, '/'))) =~= seq![
        owner,
        repo,
        kind,
    ] + segments(cut, '/'));
}

/// A link to the tree of a branch names that branch, whatever the scheme, the
/// host, the owner and the repository.
pub proof fn tree_link_names_its_branch(
    scheme: Seq<char>,
    host: Seq<char>,
    owner: Seq<char>,
    repo: Seq<char>,
    branch: Seq<char>,
)
    requires
        is_link_scheme(scheme),
        is_link_host(host),
        is_link_part(owner),
        is_link_part(repo),
        forall|i: int|
            0 <= i < pieces(branch, '/').len() ==> (#[trigger] pieces(branch, '/')[i]).len() > 0,
        is_plain(branch),
        !is_white_space(branch.last()),
    ensures
        link_branch(
            link_to(scheme, host, repository_path(owner, repo, "tree/"@ + branch)),
        ) == Some(branch),
{
    reveal_strlit("tree");
    reveal_strlit("tree/");
    let tree = "tree"@;
    assert("tree/"@ =~= tree.push('/'));
    lemma_pieces_nonempty(branch, '/');
    lemma_joined_pieces(branch, '/');
    lemma_filter_all(pieces(branch, '/'));
    lemma_without_query_of_plain(branch);
    assert(branch.len() > 0) by {
        if branch.len() == 0 {
            assert(pieces(branch, '/')[0].len() == 0);
        }
    }
    let path = repository_path(owner, repo, tree.push('/') + branch);
    assert(path.last() == branch.last());
    lemma_link_to(scheme, host, path);
    lemma_repository_path(owner, repo, tree, branch);
    let parts = seq![owner, repo, tree] + pieces(branch, '/');
    assert(parts.skip(3) =~= pieces(branch, '/'));
}

/// A link to anything else of a repository, such as a pull request or an
/// issue, names no branch, whatever follows.
pub proof fn other_link_names_no_branch(
    scheme: Seq<char>,
    host: Seq<char>,
    owner: Seq<char>,
    repo: Seq<char>,
    kind: Seq<char>,
    rest: Seq<char>,
)
    requires
        is_link_scheme(scheme),
        is_link_host(host),
        is_link_part(owner),
        is_link_part(repo),
        is_link_part(kind),
        kind != "tree"@,
        rest.len() > 0 ==> !is_white_space(rest.last()),
    ensures
        link_branch(
            link_to(scheme, host, repository_path(owner, repo, kind.push('/') + rest)),
        ) is None,
{
    let path = repository_path(owner, repo, kind.push('/') + rest);
    assert(path.last() == if rest.len() > 0 {
        rest.last()
    } else {
        '/'
    });
    lemma_link_to(scheme, host, path);
    lemma_repository_path(owner, repo, kind, rest);
}

/// The link to a repository itself names no branch.
pub proof fn repository_link_names_no_branch(
    scheme: Seq<char>,
    host: Seq<char>,
    owner: Seq<char>,
    repo: Seq<char>,
)
    requires
        is_link_scheme(scheme),
        is_link_host(host),
        is_link_part(owner),
        is_link_part(repo),
        !is_white_space(repo.last()),
    ensures
        link_branch(link_to(scheme, host, owner.push('/') + repo)) is None,
{
    let path = owner.push('/') + repo;
    lemma_link_to(scheme, host, path);
    lemma_part_behind(owner, repo);
    lemma_without_query_of_plain(repo);
    lemma_one_piece(repo, '/');
    lemma_filter_all(seq![repo]);
}

proof fn lemma_trimmed_start_of_both(a: Seq<char>, b: Seq<char>)
    requires
        a.len() > 0,
        !is_white_space(a.last()),
    ensures
        trimmed_start(a + b) == trimmed_start(a) + b,
        trimmed_start(a).len() > 0,
        trimmed_start(a).last() == a.last(),
    decreases a.len(),
{
    if is_white_space(a[0]) {
        lemma_trimmed_start_of_both(a.drop_first(), b);
        assert((a + b).drop_first() =~= a.drop_first() + b);
    }
}

proof fn lemma_trimmed_end_of_both(a: Seq<char>, b: Seq<char>)
    requires
        a.len() > 0,
        !is_white_space(a.last()),
    ensures
        trimmed_end(a + b) == a + trimmed_end(b),
    decreases b.len(),
{
    if b.len() == 0 {
        assert(a + b =~= a);
        assert(a + trimmed_end(b) =~= a);
    } else {
        assert((a + b).last() == b.last());
        if is_white_space(b.last()) {
            lemma_trimmed_end_of_both(a, b.drop_last());
            assert((a + b).drop_last() =~= a + b.drop_last());
        }
    }
}

/// A query string or a fragment behind a link makes no difference: a link to
/// the tree of a branch still names that branch, and any other still names
/// none, whatever the query string or fragment holds.
pub proof fn query_string_makes_no_difference(link: Seq<char>, mark: char, tail: Seq<char>)
    requires
        link.len() > 0,
        !is_white_space(link.last()),
        split_at_first(trimmed(link), "://"@) is Some,
        mark == '?' || mark == '#',
    ensures
        link_branch(link + (seq![mark] + tail)) == link_branch(link),
{
    let end = trimmed_end(tail);
    let start = trimmed_start(link);
    let empty: Seq<char> = seq![];
    lemma_trimmed_start_of_both(link, seq![mark] + tail);
    lemma_trimmed_end_of_both(start, empty);
    assert(start + empty =~= start);
    assert(trimmed(link) == start);
    assert(start + (seq![mark] + tail) =~= start.push(mark) + tail);
    lemma_trimmed_end_of_both(start.push(mark), tail);
    assert(start.push(mark) + end =~= start + (seq![mark] + end));
    lemma_split_stays(start, seq![mark] + end, "://"@);
    let (_, rest) = split_at_first(start, "://"@)->0;
    lemma_without_query_stops(rest, mark, end);
}

/// White space around a query does not matter.
pub proof fn link_ignores_surrounding_space(query: Seq<char>)
    ensures
        link_branch(trimmed(query)) == link_branch(query),
{
    lemma_trim_twice(query);
}

proof fn lemma_trimmed_start(s: Seq<char>)
    ensures
        trimmed_start(s).len() > 0 ==> !is_white_space(trimmed_start(s)[0]),
    decreases s.len(),
{
    if s.len() > 0 && is_white_space(s[0]) {
        lemma_trimmed_start(s.drop_first());
    }
}

proof fn lemma_trimmed_end(s: Seq<char>)
    ensures
        trimmed_end(s).len() > 0 ==> !is_white_space(trimmed_end(s).last()) && trimmed_end(s)[0]
            == s[0],
    decreases s.len(),
{
    if s.len() > 0 && is_white_space(s.last()) {
        lemma_trimmed_end(s.drop_last());
    }
}

proof fn lemma_trim_twice(s: Seq<char>)
    ensures
        trimmed(trimmed(s)) == trimmed(s),
{
    lemma_trimmed_start(s);
    lemma_trimmed_end(trimmed_start(s));
    if trimmed(s).len() > 0 {
        lemma_trimmed_len(trimmed_start(s));
        lemma_untouched_by_trim(trimmed(s));
    }
}

proof fn lemma_trimmed_len(s: Seq<char>)
    ensures
        trimmed_end(s).len() <= s.len(),
    decreases s.len(),
{
    if s.len() > 0 && is_white_space(s.last()) {
        lemma_trimmed_len(s.drop_last());
    }
}

} // verus!
