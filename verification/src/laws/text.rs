//! What the text operations promise.

use vstd::prelude::*;

use crate::text::{
    before_first, first_line_of, first_occurrence, first_occurrence_is_first, has_prefix,
    is_white_space, joined, lemma_one_piece, lemma_pieces_of_both, pieces, replaced, segments,
    shortened, split_at_first, text_le, trimmed, trimmed_end, trimmed_start, without_prefix,
};

verus! {

/// A text begins with a prefix exactly if it is the prefix and something more.
pub proof fn prefix_is_the_beginning(s: Seq<char>, prefix: Seq<char>)
    ensures
        has_prefix(s, prefix) <==> exists|rest: Seq<char>| s == #[trigger] (prefix + rest),
{
    if has_prefix(s, prefix) {
        assert(s =~= prefix + s.skip(prefix.len() as int));
    }
    if exists|rest: Seq<char>| s == #[trigger] (prefix + rest) {
        let rest = choose|rest: Seq<char>| s == #[trigger] (prefix + rest);
        assert(s.take(prefix.len() as int) =~= prefix);
    }
}

/// Taking a prefix off gives what follows it.
pub proof fn what_follows_a_prefix_is_left(prefix: Seq<char>, rest: Seq<char>)
    ensures
        without_prefix(prefix + rest, prefix) == Some(rest),
{
    assert((prefix + rest).take(prefix.len() as int) =~= prefix);
    assert((prefix + rest).skip(prefix.len() as int) =~= rest);
}

/// Where a text is not the prefix and something more, nothing is left.
pub proof fn other_text_leaves_nothing(s: Seq<char>, prefix: Seq<char>)
    requires
        forall|rest: Seq<char>| s != #[trigger] (prefix + rest),
    ensures
        without_prefix(s, prefix) is None,
{
    prefix_is_the_beginning(s, prefix);
}

/// A text is split around the first place where the pattern stands, and not
/// split only where the pattern stands nowhere in it.
pub proof fn split_is_at_the_first_place(s: Seq<char>, pattern: Seq<char>)
    ensures
        match split_at_first(s, pattern) {
            Some((before, after)) => {
                &&& s == before + pattern + after
                &&& forall|x: Seq<char>, y: Seq<char>|
                    s == #[trigger] (x + pattern + y) ==> before.len() <= x.len()
            },
            None => forall|x: Seq<char>, y: Seq<char>| s != #[trigger] (x + pattern + y),
        },
        first_occurrence(s, pattern) == match split_at_first(s, pattern) {
            Some((before, _)) => Some(before.len() as int),
            None => None,
        },
{
    first_occurrence_is_first(s, pattern);
    assert forall|x: Seq<char>, y: Seq<char>| s == #[trigger] (x + pattern + y) implies has_prefix(
        s.skip(x.len() as int),
        pattern,
    ) by {
        assert(s.skip(x.len() as int).take(pattern.len() as int) =~= pattern);
    }
    if let Some(i) = first_occurrence(s, pattern) {
        assert(s =~= s.take(i) + pattern + s.skip(i + pattern.len())) by {
            assert(s.skip(i).take(pattern.len() as int) =~= pattern);
            assert forall|k: int| i <= k < i + pattern.len() implies s[k] == pattern[k - i] by {
                assert(s.skip(i).take(pattern.len() as int)[k - i] == s[k]);
            }
        }
        assert forall|x: Seq<char>, y: Seq<char>| s == #[trigger] (x + pattern + y) implies i
            <= x.len() by {
            assert(has_prefix(s.skip(x.len() as int), pattern));
        }
    }
}

/// What comes before a pattern is the text up to the first place where the
/// pattern stands, and all of the text where it stands nowhere.
pub proof fn before_a_pattern_is_the_text_up_to_it(s: Seq<char>, pattern: Seq<char>)
    ensures
        exists|after: Seq<char>|
            {
                &&& s == #[trigger] (before_first(s, pattern) + pattern + after)
                &&& forall|x: Seq<char>, y: Seq<char>|
                    s == #[trigger] (x + pattern + y) ==> before_first(s, pattern).len() <= x.len()
            } || {
                &&& before_first(s, pattern) == s
                &&& forall|x: Seq<char>, y: Seq<char>| s != #[trigger] (x + pattern + y)
            },
{
    split_is_at_the_first_place(s, pattern);
    match split_at_first(s, pattern) {
        Some((before, after)) => {
            assert(s == before_first(s, pattern) + pattern + after);
        },
        None => {
            let after: Seq<char> = seq![];
            assert(s != before_first(s, pattern) + pattern + after);
        },
    }
}

/// Whether a text is white space alone.
pub open spec fn is_blank(s: Seq<char>) -> bool {
    forall|i: int| 0 <= i < s.len() ==> is_white_space(#[trigger] s[i])
}

proof fn lemma_trim_blank_start(blank: Seq<char>, s: Seq<char>)
    requires
        is_blank(blank),
    ensures
        trimmed_start(blank + s) == trimmed_start(s),
    decreases blank.len(),
{
    if blank.len() == 0 {
        assert(blank + s =~= s);
    } else {
        assert(is_white_space(blank[0]));
        assert((blank + s).drop_first() =~= blank.drop_first() + s);
        lemma_trim_blank_start(blank.drop_first(), s);
    }
}

proof fn lemma_trim_blank_end(s: Seq<char>, blank: Seq<char>)
    requires
        is_blank(blank),
    ensures
        trimmed_end(s + blank) == trimmed_end(s),
    decreases blank.len(),
{
    if blank.len() == 0 {
        assert(s + blank =~= s);
    } else {
        assert(is_white_space(blank[blank.len() - 1]));
        assert((s + blank).drop_last() =~= s + blank.drop_last());
        lemma_trim_blank_end(s, blank.drop_last());
    }
}

/// Trimming takes off the white space at either end, and nothing else.
pub proof fn trimming_takes_off_the_blanks(before: Seq<char>, s: Seq<char>, after: Seq<char>)
    requires
        is_blank(before),
        is_blank(after),
        s.len() > 0 ==> !is_white_space(s[0]) && !is_white_space(s.last()),
    ensures
        trimmed(before + s + after) == s,
{
    assert(before + s + after =~= before + (s + after));
    lemma_trim_blank_start(before, s + after);
    if s.len() > 0 {
        assert(trimmed_start(s + after) == s + after);
        lemma_trim_blank_end(s, after);
    } else {
        let empty: Seq<char> = seq![];
        assert(s + after =~= after + empty);
        lemma_trim_blank_start(after, empty);
        assert(s =~= empty);
    }
}

/// A text without the separator is its own one segment; the empty text has
/// none.
pub proof fn text_without_separator_is_one_segment(s: Seq<char>, separator: char)
    requires
        !s.contains(separator),
    ensures
        segments(s, separator) == if s.len() == 0 {
            seq![]
        } else {
            seq![s]
        },
        pieces(s, separator) == seq![s],
{
    assert forall|i: int| 0 <= i < s.len() implies s[i] != separator by {
        assert(s.contains(s[i]));
    }
    lemma_one_piece(s, separator);
    reveal_with_fuel(Seq::filter, 2);
    assert(seq![s].drop_last() =~= seq![]);
    assert(segments(s, separator) =~= if s.len() == 0 {
        seq![]
    } else {
        seq![s]
    });
}

/// The segments around a separator are those before it, then those behind it.
pub proof fn separators_part_segments(a: Seq<char>, separator: char, b: Seq<char>)
    ensures
        segments(a.push(separator) + b, separator) == segments(a, separator) + segments(
            b,
            separator,
        ),
        pieces(a.push(separator) + b, separator) == pieces(a, separator) + pieces(b, separator),
{
    lemma_pieces_of_both(a, separator, b);
    Seq::filter_distributes_over_add(
        pieces(a, separator),
        pieces(b, separator),
        |piece: Seq<char>| piece.len() > 0,
    );
}

/// Joining puts one separator between neighbours, and none at the ends.
pub proof fn joining_puts_a_separator_between(
    parts: Seq<Seq<char>>,
    last: Seq<char>,
    separator: char,
)
    ensures
        joined(seq![], separator) == Seq::<char>::empty(),
        joined(seq![last], separator) == last,
        parts.len() > 0 ==> joined(parts.push(last), separator) == joined(parts, separator) + seq![
            separator,
        ] + last,
{
    assert(parts.push(last).drop_last() =~= parts);
    assert(joined(parts, separator).push(separator) + last =~= joined(parts, separator) + seq![
        separator,
    ] + last);
    assert(joined(seq![], separator) =~= Seq::<char>::empty());
}

/// Replacing changes the given character wherever it stands, and no other.
pub proof fn replacing_changes_one_character(s: Seq<char>, from: char, to: char)
    ensures
        replaced(s, from, to).len() == s.len(),
        forall|i: int|
            0 <= i < s.len() ==> (#[trigger] replaced(s, from, to)[i] == if s[i] == from {
                to
            } else {
                s[i]
            }),
{
}

/// The first line is the text up to the first line feed, without a carriage
/// return right before that.
pub proof fn first_line_ends_at_the_line_feed(line: Seq<char>, rest: Seq<char>)
    requires
        !line.contains('\n'),
    ensures
        first_line_of(line) == line,
        line.len() == 0 || line.last() != '\r' ==> first_line_of(line + seq!['\n'] + rest) == line,
        first_line_of(line + seq!['\r', '\n'] + rest) == line,
{
    line.index_of_first_ensures('\n');
    let plain = line + seq!['\n'] + rest;
    let both = line + seq!['\r', '\n'] + rest;
    plain.index_of_first_ensures('\n');
    both.index_of_first_ensures('\n');
    assert forall|i: int| 0 <= i < line.len() implies line[i] != '\n' by {
        assert(line.contains(line[i]));
    }
    assert(plain[line.len() as int] == '\n');
    assert(both[line.len() as int] == '\r');
    assert(both[line.len() + 1int] == '\n');
    assert(plain.contains('\n') && both.contains('\n'));
    let i = plain.index_of_first('\n')->0;
    let j = both.index_of_first('\n')->0;
    assert(i == line.len() as int);
    assert(j == line.len() + 1int) by {
        if j < line.len() {
            assert(both[j] == line[j]);
        }
    }
    assert(plain.take(i) =~= line);
    assert(both.take(j - 1) =~= line);
    if line.len() > 0 {
        assert(plain[i - 1] == line.last());
    }
}

/// A text is shortened to so many of its first characters, and stays where it
/// has no more.
pub proof fn shortening_keeps_the_first(a: Seq<char>, b: Seq<char>)
    ensures
        shortened(a + b, a.len()) == a,
        forall|count: nat| a.len() <= count ==> #[trigger] shortened(a, count) == a,
{
    assert((a + b).take(a.len() as int) =~= a);
    assert(a.take(a.len() as int) =~= a);
    if b.len() == 0 {
        assert(a + b =~= a);
    }
}

/// Texts are ordered by the first character in which they differ; a text comes
/// before its own continuations.
pub proof fn texts_are_ordered_by_the_first_difference(
    same: Seq<char>,
    a: Seq<char>,
    b: Seq<char>,
)
    requires
        a.len() > 0 && b.len() > 0 ==> a[0] != b[0],
    ensures
        text_le(same + a, same + b) == if a.len() == 0 {
            true
        } else if b.len() == 0 {
            false
        } else {
            a[0] < b[0]
        },
    decreases same.len(),
{
    if same.len() == 0 {
        assert(same + a =~= a);
        assert(same + b =~= b);
    } else {
        texts_are_ordered_by_the_first_difference(same.drop_first(), a, b);
        assert((same + a).drop_first() =~= same.drop_first() + a);
        assert((same + b).drop_first() =~= same.drop_first() + b);
    }
}

} // verus!
