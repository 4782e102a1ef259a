//! What the operations on paths promise.

use vstd::prelude::*;
use vstd::utf8::{
    decode_utf8, encode_utf8, encode_utf8_decode_utf8, encode_utf8_valid_utf8, valid_utf8,
};

use crate::path::{
    file_name_of, file_name_text_of, is_rooted, parent_of, posix_path, posix_piece, posix_pieces,
    resolved, ComponentView, PathView,
};
use crate::path_order::{bytes_lt, component_lt, lemma_component_lt_total, path_lt};
use crate::text::{lemma_one_piece, lemma_pieces_nonempty, lemma_pieces_of_both, pieces};

verus! {

/// The spelling of a path without a slash stands for one component: the
/// directory itself, the one above, or a name; the empty one for none.
pub proof fn spelling_without_slash_is_one_component(name: Seq<u8>)
    requires
        !name.contains(47u8),
    ensures
        posix_path(name) == if name.len() == 0 {
            seq![]
        } else if name == seq![46u8] {
            seq![ComponentView::CurDir]
        } else if name == seq![46u8, 46u8] {
            seq![ComponentView::ParentDir]
        } else {
            seq![ComponentView::Normal(name)]
        },
{
    assert forall|i: int| 0 <= i < name.len() implies name[i] != 47u8 by {
        assert(name.contains(name[i]));
    }
    lemma_one_piece(name, 47u8);
    let one = seq![name];
    assert(one.drop_last() =~= seq![]);
    assert(posix_pieces(seq![]) =~= seq![]);
    assert(posix_pieces(one) =~= posix_piece(name, true));
    assert(posix_path(name) =~= posix_piece(name, true));
}

/// What follows the last slash is one more component below what comes before
/// it, or none where it is empty or a single dot; a slash at the start is the
/// root.
pub proof fn slash_leads_one_component_down(before: Seq<u8>, name: Seq<u8>)
    requires
        !name.contains(47u8),
    ensures
        posix_path(before.push(47u8) + name) == (if before.len() == 0 {
            seq![ComponentView::RootDir]
        } else {
            posix_path(before)
        }) + (if name.len() == 0 || name == seq![46u8] {
            seq![]
        } else if name == seq![46u8, 46u8] {
            seq![ComponentView::ParentDir]
        } else {
            seq![ComponentView::Normal(name)]
        }),
{
    let all = before.push(47u8) + name;
    assert forall|i: int| 0 <= i < name.len() implies name[i] != 47u8 by {
        assert(name.contains(name[i]));
    }
    lemma_one_piece(name, 47u8);
    lemma_pieces_of_both(before, 47u8, name);
    lemma_pieces_nonempty(before, 47u8);
    let base = pieces(before, 47u8);
    assert(pieces(all, 47u8) =~= base.push(name));
    assert(base.push(name).drop_last() =~= base);
    assert(posix_pieces(base.push(name)) == posix_pieces(base) + posix_piece(name, false));
    if before.len() == 0 {
        assert(base =~= seq![seq![]]);
        assert(base.drop_last() =~= seq![]);
        assert(posix_pieces(seq![]) =~= seq![]);
        assert(posix_pieces(base) =~= seq![]);
        assert(all[0] == 47u8);
    } else {
        assert(all[0] == before[0]);
    }
    assert(posix_path(all) =~= (if before.len() == 0 {
        seq![ComponentView::RootDir]
    } else {
        posix_path(before)
    }) + posix_piece(name, false));
}

/// A path is rooted exactly if its first component is a root or a prefix.
pub proof fn rooted_paths_begin_at_a_root(first: ComponentView, rest: PathView)
    ensures
        !is_rooted(seq![]),
        is_rooted(seq![first] + rest) <==> (first is RootDir || first is Prefix),
{
    assert((seq![first] + rest)[0] == first);
}

/// A path seen from another goes on below it; one that is rooted, or seen from
/// nowhere, is itself; the directory itself at its start says nothing.
pub proof fn relative_paths_go_on_below(base: PathView, first: ComponentView, rest: PathView)
    ensures
        first is RootDir || first is Prefix ==> resolved(base, seq![first] + rest) == seq![first]
            + rest,
        first is Normal || first is ParentDir ==> resolved(base, seq![first] + rest) == base + (
        seq![first] + rest),
        first is CurDir && base.len() > 0 ==> resolved(base, seq![first] + rest) == base + rest,
        resolved(base, seq![]) == base,
        resolved(seq![], rest) == rest,
{
    let relative = seq![first] + rest;
    assert(relative[0] == first);
    assert(relative.skip(1) =~= rest);
    let empty: PathView = seq![];
    assert(empty + relative =~= relative);
    assert(base + empty =~= base);
    if base.len() == 0 {
        assert(base =~= empty);
    }
}

/// The file name of a path is its last component, where that is a name.
pub proof fn file_name_is_the_last_name(dir: PathView, last: ComponentView)
    ensures
        file_name_of(dir.push(last)) == match last {
            ComponentView::Normal(name) => Some(name),
            _ => None,
        },
        file_name_of(seq![]) is None,
{
}

/// The file name as text is there exactly for a name in UTF-8.
pub proof fn file_name_text_is_the_last_name(dir: PathView, name: Seq<u8>, text: Seq<char>)
    ensures
        file_name_text_of(dir.push(ComponentView::Normal(encode_utf8(text)))) == Some(text),
        file_name_text_of(dir.push(ComponentView::Normal(name))) == if valid_utf8(name) {
            Some(decode_utf8(name))
        } else {
            None
        },
        file_name_text_of(dir.push(ComponentView::RootDir)) is None,
        file_name_text_of(dir.push(ComponentView::CurDir)) is None,
        file_name_text_of(dir.push(ComponentView::ParentDir)) is None,
        file_name_text_of(dir.push(ComponentView::Prefix(name))) is None,
        file_name_text_of(seq![]) is None,
{
    encode_utf8_decode_utf8(text);
    encode_utf8_valid_utf8(text);
}

/// The parent of a path is the path without its last component; a root and a
/// prefix have none.
pub proof fn parent_is_one_component_up(dir: PathView, last: ComponentView)
    ensures
        parent_of(dir.push(last)) == if last is RootDir || last is Prefix {
            None
        } else {
            Some(dir)
        },
        parent_of(seq![]) is None,
{
    assert(dir.push(last).drop_last() =~= dir);
}

/// Byte strings are ordered by the first byte in which they differ; a string
/// comes before its own continuations.
pub proof fn bytes_are_ordered_by_the_first_difference(same: Seq<u8>, a: Seq<u8>, b: Seq<u8>)
    requires
        a.len() > 0 && b.len() > 0 ==> a[0] != b[0],
    ensures
        bytes_lt(same + a, same + b) == if b.len() == 0 {
            false
        } else if a.len() == 0 {
            true
        } else {
            a[0] < b[0]
        },
    decreases same.len(),
{
    if same.len() == 0 {
        assert(same + a =~= a);
        assert(same + b =~= b);
    } else {
        bytes_are_ordered_by_the_first_difference(same.drop_first(), a, b);
        assert((same + a).drop_first() =~= same.drop_first() + a);
        assert((same + b).drop_first() =~= same.drop_first() + b);
    }
}

/// Components are ordered by kind: prefixes, then the root, the directory
/// itself, the one above, and names; prefixes, and names, by their bytes.
pub proof fn components_are_ordered_by_kind(x: Seq<u8>, y: Seq<u8>)
    ensures
        component_lt(ComponentView::Prefix(x), ComponentView::Prefix(y)) == bytes_lt(x, y),
        component_lt(ComponentView::Normal(x), ComponentView::Normal(y)) == bytes_lt(x, y),
        component_lt(ComponentView::Prefix(x), ComponentView::RootDir),
        component_lt(ComponentView::Prefix(x), ComponentView::CurDir),
        component_lt(ComponentView::Prefix(x), ComponentView::ParentDir),
        component_lt(ComponentView::Prefix(x), ComponentView::Normal(y)),
        component_lt(ComponentView::RootDir, ComponentView::CurDir),
        component_lt(ComponentView::RootDir, ComponentView::ParentDir),
        component_lt(ComponentView::RootDir, ComponentView::Normal(y)),
        component_lt(ComponentView::CurDir, ComponentView::ParentDir),
        component_lt(ComponentView::CurDir, ComponentView::Normal(y)),
        component_lt(ComponentView::ParentDir, ComponentView::Normal(y)),
        forall|a: ComponentView, b: ComponentView| #[trigger]
            component_lt(a, b) ==> a != b && !component_lt(b, a),
{
    assert forall|a: ComponentView, b: ComponentView| #[trigger] component_lt(a, b) implies a != b
        && !component_lt(b, a) by {
        lemma_component_lt_total(a, b);
    }
}

/// Paths are ordered by the first component in which they differ; a path comes
/// before the paths below it.
pub proof fn paths_are_ordered_by_the_first_difference(same: PathView, a: PathView, b: PathView)
    requires
        a.len() > 0 && b.len() > 0 ==> a[0] != b[0],
    ensures
        path_lt(same + a, same + b) == if b.len() == 0 {
            false
        } else if a.len() == 0 {
            true
        } else {
            component_lt(a[0], b[0])
        },
    decreases same.len(),
{
    if same.len() == 0 {
        assert(same + a =~= a);
        assert(same + b =~= b);
    } else {
        paths_are_ordered_by_the_first_difference(same.drop_first(), a, b);
        assert((same + a).drop_first() =~= same.drop_first() + a);
        assert((same + b).drop_first() =~= same.drop_first() + b);
    }
}

} // verus!
