//! Text operations on sequences of characters.

use vstd::prelude::*;

use crate::seqs::opt_view;

verus! {

broadcast use vstd::string::group_string_axioms;

/// `String::push` appends the character at the end.
pub assume_specification[ String::push ](s: &mut String, c: char)
    ensures
        final(s)@ == old(s)@.push(c),
;

/// What `str::to_lowercase` returns for a text.
pub uninterp spec fn lowercase(s: Seq<char>) -> Seq<char>;

/// `str::to_lowercase`: the lowercase equivalent of the text, by the Unicode
/// property `Lowercase`. Which characters that yields is left to the name.
#[verifier::external_body]
pub(crate) fn to_lowercase(s: &str) -> (r: String)
    ensures
        r@ == lowercase(s@),
{
    s.to_lowercase()
}

/// The characters that `char::is_whitespace` accepts: the Unicode property
/// `White_Space`.
pub open spec fn is_white_space(c: char) -> bool {
    ||| '\u{9}' <= c <= '\u{d}'
    ||| c == ' '
    ||| c == '\u{85}'
    ||| c == '\u{a0}'
    ||| c == '\u{1680}'
    ||| '\u{2000}' <= c <= '\u{200a}'
    ||| c == '\u{2028}'
    ||| c == '\u{2029}'
    ||| c == '\u{202f}'
    ||| c == '\u{205f}'
    ||| c == '\u{3000}'
}

/// Whether a character is white space.
pub fn is_whitespace(c: char) -> (r: bool)
    ensures
        r == is_white_space(c),
{
    ('\u{9}' <= c && c <= '\u{d}') || c == ' ' || c == '\u{85}' || c == '\u{a0}' || c == '\u{1680}'
        || ('\u{2000}' <= c && c <= '\u{200a}') || c == '\u{2028}' || c == '\u{2029}' || c
        == '\u{202f}' || c == '\u{205f}' || c == '\u{3000}'
}

/// The characters of a text.
pub(crate) fn chars_of(s: &str) -> (r: Vec<char>)
    ensures
        r@ == s@,
{
    let mut r: Vec<char> = Vec::new();
    for c in it: s.chars()
        invariant
            it.seq() == s@,
            r@ == s@.take(it.index() as int),
    {
        r.push(c);
        assert(r@ =~= s@.take(it.index() as int + 1));
    }
    assert(s@.take(s@.len() as int) =~= s@);
    r
}

/// The text made of the characters from `from` up to `to`.
pub(crate) fn text_range(chars: &Vec<char>, from: usize, to: usize) -> (r: String)
    requires
        from <= to <= chars@.len(),
    ensures
        r@ == chars@.subrange(from as int, to as int),
{
    let mut r = String::new();
    let mut i: usize = from;
    while i < to
        invariant
            from <= i <= to <= chars@.len(),
            r@ == chars@.subrange(from as int, i as int),
        decreases to - i,
    {
        r.push(chars[i]);
        i += 1;
        assert(r@ =~= chars@.subrange(from as int, i as int));
    }
    r
}

/// Whether two texts hold the same characters.
pub fn same_text(a: &str, b: &str) -> (r: bool)
    ensures
        r == (a@ == b@),
{
    a.to_owned() == b.to_owned()
}

/// `s` without its leading white space.
pub open spec fn trimmed_start(s: Seq<char>) -> Seq<char>
    decreases s.len(),
{
    if s.len() > 0 && is_white_space(s[0]) {
        trimmed_start(s.drop_first())
    } else {
        s
    }
}

/// `s` without its trailing white space.
pub open spec fn trimmed_end(s: Seq<char>) -> Seq<char>
    decreases s.len(),
{
    if s.len() > 0 && is_white_space(s.last()) {
        trimmed_end(s.drop_last())
    } else {
        s
    }
}

/// `s` without its leading and trailing white space.
pub open spec fn trimmed(s: Seq<char>) -> Seq<char> {
    trimmed_end(trimmed_start(s))
}

/// The text without leading and trailing white space.
pub fn trim(s: &str) -> (r: String)
    ensures
        r@ == trimmed(s@),
{
    let chars = chars_of(s);
    let mut from: usize = 0;
    assert(s@.skip(0) =~= s@);
    while from < chars.len() && is_whitespace(chars[from])
        invariant
            from <= chars@.len(),
            chars@ == s@,
            trimmed_start(s@) == trimmed_start(s@.skip(from as int)),
        decreases chars@.len() - from,
    {
        assert(s@.skip(from as int).drop_first() =~= s@.skip(from + 1));
        from += 1;
    }
    let ghost start = s@.skip(from as int);
    let mut to: usize = chars.len();
    assert(start.take(start.len() as int) =~= start);
    while from < to && is_whitespace(chars[to - 1])
        invariant
            from <= to <= chars@.len(),
            chars@ == s@,
            start == s@.skip(from as int),
            trimmed_end(start) == trimmed_end(start.take(to - from)),
        decreases to,
    {
        assert(start.take(to - from).drop_last() =~= start.take(to - from - 1));
        to -= 1;
    }
    assert(chars@.subrange(from as int, to as int) =~= start.take(to - from));
    text_range(&chars, from, to)
}

/// Whether `s` begins with `prefix`.
pub open spec fn has_prefix(s: Seq<char>, prefix: Seq<char>) -> bool {
    &&& prefix.len() <= s.len()
    &&& s.take(prefix.len() as int) == prefix
}

fn matches_at(s: &Vec<char>, pattern: &Vec<char>, at: usize) -> (r: bool)
    requires
        at <= s@.len(),
    ensures
        r == has_prefix(s@.skip(at as int), pattern@),
{
    if pattern.len() > s.len() - at {
        return false;
    }
    let mut i: usize = 0;
    while i < pattern.len()
        invariant
            i <= pattern.len() <= s.len() - at,
            at <= s.len(),
            forall|j: int| 0 <= j < i ==> s@[at + j] == pattern@[j],
        decreases pattern@.len() - i,
    {
        if s[at + i] != pattern[i] {
            assert(s@.skip(at as int).take(pattern@.len() as int)[i as int] == s@[at + i]);
            return false;
        }
        i += 1;
    }
    assert(s@.skip(at as int).take(pattern@.len() as int) =~= pattern@);
    true
}

/// Whether the text begins with `prefix`.
pub fn starts_with(s: &str, prefix: &str) -> (r: bool)
    ensures
        r == has_prefix(s@, prefix@),
{
    let chars = chars_of(s);
    assert(s@.skip(0) =~= s@);
    matches_at(&chars, &chars_of(prefix), 0)
}

/// What follows `prefix`, for a text that begins with it.
pub open spec fn without_prefix(s: Seq<char>, prefix: Seq<char>) -> Option<Seq<char>> {
    if has_prefix(s, prefix) {
        Some(s.skip(prefix.len() as int))
    } else {
        None
    }
}

/// What follows `prefix`, for a text that begins with it.
pub fn strip_prefix(s: &str, prefix: &str) -> (r: Option<String>)
    ensures
        opt_view(r) == without_prefix(s@, prefix@),
{
    let chars = chars_of(s);
    let prefix_chars = chars_of(prefix);
    assert(s@.skip(0) =~= s@);
    if matches_at(&chars, &prefix_chars, 0) {
        assert(s@.skip(prefix@.len() as int) =~= s@.subrange(
            prefix@.len() as int,
            s@.len() as int,
        ));
        Some(text_range(&chars, prefix_chars.len(), chars.len()))
    } else {
        None
    }
}

/// The first position of `s` at which `pattern` occurs.
pub open spec fn first_occurrence(s: Seq<char>, pattern: Seq<char>) -> Option<int>
    decreases s.len(),
{
    if has_prefix(s, pattern) {
        Some(0)
    } else if s.len() == 0 {
        None
    } else {
        match first_occurrence(s.drop_first(), pattern) {
            Some(i) => Some(i + 1),
            None => None,
        }
    }
}

/// A first occurrence is an occurrence, and there is none before it; where
/// there is no first occurrence there is none at all.
pub proof fn first_occurrence_is_first(s: Seq<char>, pattern: Seq<char>)
    ensures
        match first_occurrence(s, pattern) {
            Some(i) => {
                &&& 0 <= i <= s.len() - pattern.len()
                &&& has_prefix(s.skip(i), pattern)
                &&& forall|j: int| 0 <= j < i ==> !has_prefix(#[trigger] s.skip(j), pattern)
            },
            None => forall|j: int|
                0 <= j <= s.len() ==> !has_prefix(#[trigger] s.skip(j), pattern),
        },
    decreases s.len(),
{
    assert(s.skip(0) =~= s);
    if !has_prefix(s, pattern) && s.len() > 0 {
        let rest = s.drop_first();
        first_occurrence_is_first(rest, pattern);
        assert forall|j: int| 0 < j <= s.len() implies #[trigger] s.skip(j) == rest.skip(j - 1) by {
            assert(s.skip(j) =~= rest.skip(j - 1));
        }
    }
}

proof fn lemma_first_occurrence_skip(s: Seq<char>, pattern: Seq<char>, at: int)
    requires
        0 <= at <= s.len(),
        forall|j: int| 0 <= j < at ==> !has_prefix(#[trigger] s.skip(j), pattern),
    ensures
        first_occurrence(s, pattern) == match first_occurrence(s.skip(at), pattern) {
            Some(i) => Some(i + at),
            None => None,
        },
    decreases at,
{
    assert(s.skip(0) =~= s);
    if at > 0 {
        let rest = s.drop_first();
        assert forall|j: int| 0 <= j < at - 1 implies !has_prefix(
            #[trigger] rest.skip(j),
            pattern,
        ) by {
            assert(rest.skip(j) =~= s.skip(j + 1));
        }
        lemma_first_occurrence_skip(rest, pattern, at - 1);
        assert(rest.skip(at - 1) =~= s.skip(at));
    }
}

fn find(s: &Vec<char>, pattern: &Vec<char>) -> (r: Option<usize>)
    ensures
        match r {
            Some(i) => first_occurrence(s@, pattern@) == Some(i as int),
            None => first_occurrence(s@, pattern@) is None,
        },
{
    let mut at: usize = 0;
    loop
        invariant
            at <= s@.len(),
            forall|j: int| 0 <= j < at ==> !has_prefix(#[trigger] s@.skip(j), pattern@),
        decreases s@.len() - at,
    {
        proof {
            lemma_first_occurrence_skip(s@, pattern@, at as int);
        }
        if matches_at(s, pattern, at) {
            return Some(at);
        }
        if at == s.len() {
            return None;
        }
        at += 1;
    }
}

/// Whether `pattern` occurs in the text.
pub fn contains(s: &str, pattern: &str) -> (r: bool)
    ensures
        r == (first_occurrence(s@, pattern@) is Some),
{
    find(&chars_of(s), &chars_of(pattern)).is_some()
}

/// The parts before and after the first occurrence of `pattern`.
pub open spec fn split_at_first(s: Seq<char>, pattern: Seq<char>) -> Option<
    (Seq<char>, Seq<char>),
> {
    match first_occurrence(s, pattern) {
        Some(i) => Some((s.take(i), s.skip(i + pattern.len()))),
        None => None,
    }
}

/// The parts before and after the first occurrence of `pattern`.
pub fn split_once(s: &str, pattern: &str) -> (r: Option<(String, String)>)
    ensures
        match r {
            Some((before, after)) => split_at_first(s@, pattern@) == Some((before@, after@)),
            None => split_at_first(s@, pattern@) is None,
        },
{
    let chars = chars_of(s);
    let pattern_chars = chars_of(pattern);
    match find(&chars, &pattern_chars) {
        Some(i) => {
            proof {
                first_occurrence_is_first(s@, pattern@);
            }
            assert(i + pattern_chars.len() <= chars.len());
            let end: usize = i + pattern_chars.len();
            assert(s@.subrange(0, i as int) =~= s@.take(i as int));
            assert(s@.subrange(end as int, s@.len() as int) =~= s@.skip(end as int));
            Some((text_range(&chars, 0, i), text_range(&chars, end, chars.len())))
        },
        None => None,
    }
}

/// The part before the first occurrence of `pattern`, or all of `s` where it
/// does not occur.
pub open spec fn before_first(s: Seq<char>, pattern: Seq<char>) -> Seq<char> {
    match split_at_first(s, pattern) {
        Some((before, _)) => before,
        None => s,
    }
}

/// The part before the first occurrence of `pattern`, or the whole text where
/// it does not occur.
pub fn before(s: &str, pattern: &str) -> (r: String)
    ensures
        r@ == before_first(s@, pattern@),
{
    match split_once(s, pattern) {
        Some((before, _)) => before,
        None => s.to_owned(),
    }
}

/// The pieces of `s` between separators, in order; one more than there are
/// separators.
pub open spec fn pieces<T>(s: Seq<T>, separator: T) -> Seq<Seq<T>>
    decreases s.len(),
{
    if s.len() == 0 {
        seq![seq![]]
    } else {
        let init = pieces(s.drop_last(), separator);
        if s.last() == separator {
            init.push(seq![])
        } else {
            init.drop_last().push(init.last().push(s.last()))
        }
    }
}

pub(crate) proof fn lemma_pieces_nonempty<T>(s: Seq<T>, separator: T)
    ensures
        pieces(s, separator).len() > 0,
    decreases s.len(),
{
    if s.len() > 0 {
        lemma_pieces_nonempty(s.drop_last(), separator);
    }
}

pub(crate) proof fn lemma_one_piece<T>(s: Seq<T>, separator: T)
    requires
        forall|i: int| 0 <= i < s.len() ==> s[i] != separator,
    ensures
        pieces(s, separator) == seq![s],
    decreases s.len(),
{
    if s.len() > 0 {
        lemma_one_piece(s.drop_last(), separator);
        assert(s.drop_last().push(s.last()) =~= s);
    } else {
        assert(s =~= seq![]);
    }
    assert(pieces(s, separator) =~= seq![s]);
}

pub(crate) proof fn lemma_pieces_of_both<T>(a: Seq<T>, separator: T, b: Seq<T>)
    ensures
        pieces(a.push(separator) + b, separator) == pieces(a, separator) + pieces(b, separator),
    decreases b.len(),
{
    let s = a.push(separator) + b;
    let left = pieces(a, separator);
    lemma_pieces_nonempty(b, separator);
    if b.len() == 0 {
        assert(s.drop_last() =~= a);
        assert(pieces(s, separator) =~= left + pieces(b, separator));
    } else {
        let init = b.drop_last();
        lemma_pieces_of_both(a, separator, init);
        lemma_pieces_nonempty(init, separator);
        assert(s.drop_last() =~= a.push(separator) + init);
        assert(pieces(s, separator) =~= left + pieces(b, separator));
    }
}

/// The pieces of `s` between separators without the empty ones.
pub open spec fn segments(s: Seq<char>, separator: char) -> Seq<Seq<char>> {
    pieces(s, separator).filter(|piece: Seq<char>| piece.len() > 0)
}

/// `parts` with a separator between neighbours.
pub open spec fn joined(parts: Seq<Seq<char>>, separator: char) -> Seq<char>
    decreases parts.len(),
{
    if parts.len() == 0 {
        seq![]
    } else if parts.len() == 1 {
        parts[0]
    } else {
        joined(parts.drop_last(), separator).push(separator) + parts.last()
    }
}

/// The texts of a list of strings.
pub open spec fn texts(v: Seq<String>) -> Seq<Seq<char>> {
    v.map_values(|s: String| s@)
}

/// The pieces of the text between separators without the empty ones.
pub fn split_segments(s: &str, separator: char) -> (r: Vec<String>)
    ensures
        texts(r@) == segments(s@, separator),
{
    let chars = chars_of(s);
    let ghost full = |piece: Seq<char>| piece.len() > 0;
    let mut done: Vec<String> = Vec::new();
    let mut current = String::new();
    let mut i: usize = 0;
    proof {
        reveal_with_fuel(Seq::filter, 2);
        assert(pieces(s@.take(0), separator).drop_last() =~= seq![]);
        assert(texts(done@) =~= seq![]);
    }
    while i < chars.len()
        invariant
            i <= chars@.len(),
            chars@ == s@,
            full == (|piece: Seq<char>| piece.len() > 0),
            pieces(s@.take(i as int), separator).len() > 0,
            pieces(s@.take(i as int), separator).last() == current@,
            texts(done@) == pieces(s@.take(i as int), separator).drop_last().filter(full),
        decreases chars@.len() - i,
    {
        let c = chars[i];
        let ghost so_far = pieces(s@.take(i as int), separator);
        assert(s@.take(i + 1).drop_last() =~= s@.take(i as int));
        if c == separator {
            proof {
                reveal(Seq::filter);
                assert(so_far.push(seq![]).drop_last() =~= so_far);
            }
            if !current.as_str().is_empty() {
                assert(texts(done@.push(current)) =~= texts(done@).push(current@));
                done.push(current);
            }
            current = String::new();
        } else {
            current.push(c);
            assert(pieces(s@.take(i + 1), separator).drop_last() =~= so_far.drop_last());
        }
        i += 1;
    }
    assert(s@.take(s@.len() as int) =~= s@);
    proof {
        reveal(Seq::filter);
    }
    if !current.as_str().is_empty() {
        assert(texts(done@.push(current)) =~= texts(done@).push(current@));
        done.push(current);
    }
    done
}

/// The texts from `from` on, with a separator between neighbours.
pub fn join(parts: &Vec<String>, from: usize, separator: char) -> (r: String)
    requires
        from <= parts@.len(),
    ensures
        r@ == joined(texts(parts@).skip(from as int), separator),
{
    let mut r = String::new();
    let mut i: usize = from;
    let ghost rest = texts(parts@).skip(from as int);
    while i < parts.len()
        invariant
            from <= i <= parts@.len(),
            rest == texts(parts@).skip(from as int),
            r@ == joined(rest.take(i - from), separator),
        decreases parts@.len() - i,
    {
        assert(rest.take(i - from + 1).drop_last() =~= rest.take(i - from));
        if i > from {
            r.push(separator);
        }
        r.append(parts[i].as_str());
        assert(r@ =~= joined(rest.take(i - from + 1), separator));
        i += 1;
    }
    assert(rest.take(rest.len() as int) =~= rest);
    r
}

/// `s` with every `from` replaced by `to`.
pub open spec fn replaced(s: Seq<char>, from: char, to: char) -> Seq<char> {
    s.map_values(|c: char| if c == from { to } else { c })
}

/// The text with every `from` replaced by `to`.
pub fn replace(s: &str, from: char, to: char) -> (r: String)
    ensures
        r@ == replaced(s@, from, to),
{
    let chars = chars_of(s);
    let mut r = String::new();
    let mut i: usize = 0;
    while i < chars.len()
        invariant
            i <= chars@.len(),
            chars@ == s@,
            r@ == replaced(s@, from, to).take(i as int),
        decreases chars@.len() - i,
    {
        if chars[i] == from {
            r.push(to);
        } else {
            r.push(chars[i]);
        }
        i += 1;
        assert(r@ =~= replaced(s@, from, to).take(i as int));
    }
    assert(r@ =~= replaced(s@, from, to));
    r
}

/// The first line of `s`, without its line ending: a line feed, or a carriage
/// return and a line feed.
pub open spec fn first_line_of(s: Seq<char>) -> Seq<char> {
    match s.index_of_first('\n') {
        Some(end) => if end > 0 && s[end - 1] == '\r' {
            s.take(end - 1)
        } else {
            s.take(end)
        },
        None => s,
    }
}

/// The first line of the text, without its line ending.
pub fn first_line(s: &str) -> (r: String)
    ensures
        r@ == first_line_of(s@),
{
    let chars = chars_of(s);
    let mut end: usize = 0;
    proof {
        s@.index_of_first_ensures('\n');
    }
    while end < chars.len() && chars[end] != '\n'
        invariant
            end <= chars@.len(),
            chars@ == s@,
            forall|j: int| 0 <= j < end ==> s@[j] != '\n',
        decreases chars@.len() - end,
    {
        end += 1;
    }
    if end < chars.len() {
        assert(s@.contains('\n'));
        assert(s@.index_of_first('\n') == Some(end as int));
        if end > 0 && chars[end - 1] == '\r' {
            end -= 1;
        }
    } else {
        assert(!s@.contains('\n'));
        assert(s@.take(end as int) =~= s@);
    }
    assert(s@.subrange(0, end as int) =~= s@.take(end as int));
    text_range(&chars, 0, end)
}

/// The first `count` characters of `s`, or all of them where there are fewer.
pub open spec fn shortened(s: Seq<char>, count: nat) -> Seq<char> {
    if s.len() <= count {
        s
    } else {
        s.take(count as int)
    }
}

/// The first `count` characters of the text.
pub fn shorten(s: &str, count: usize) -> (r: String)
    ensures
        r@ == shortened(s@, count as nat),
{
    let chars = chars_of(s);
    let end: usize = if chars.len() < count { chars.len() } else { count };
    assert(s@.subrange(0, end as int) =~= shortened(s@, count as nat));
    text_range(&chars, 0, end)
}

/// Whether `a` comes no later than `b`: by the first character in which they
/// differ, a text before its own continuations.
pub open spec fn text_le(a: Seq<char>, b: Seq<char>) -> bool
    decreases a.len(),
{
    if a.len() == 0 {
        true
    } else if b.len() == 0 {
        false
    } else if a[0] == b[0] {
        text_le(a.drop_first(), b.drop_first())
    } else {
        a[0] < b[0]
    }
}

/// Whether `a` comes no later than `b`.
pub fn is_text_le(a: &str, b: &str) -> (r: bool)
    ensures
        r == text_le(a@, b@),
{
    let x = chars_of(a);
    let y = chars_of(b);
    let mut i: usize = 0;
    assert(a@.skip(0) =~= a@ && b@.skip(0) =~= b@);
    while i < x.len() && i < y.len() && x[i] == y[i]
        invariant
            x@ == a@,
            y@ == b@,
            i <= x@.len(),
            i <= y@.len(),
            text_le(a@, b@) == text_le(a@.skip(i as int), b@.skip(i as int)),
        decreases x@.len() - i,
    {
        assert(a@.skip(i as int).drop_first() =~= a@.skip(i + 1));
        assert(b@.skip(i as int).drop_first() =~= b@.skip(i + 1));
        i += 1;
    }
    if i == x.len() {
        true
    } else if i == y.len() {
        false
    } else {
        x[i] < y[i]
    }
}

} // verus!
