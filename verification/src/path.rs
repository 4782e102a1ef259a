//! File paths as sequences of components.
//!
//! Two paths are the same when their components are, whatever their spelling:
//! `/a//b/` and `/a/./b` are the same path.

use vstd::prelude::*;
use vstd::utf8::{decode_utf8, encode_utf8, valid_utf8};

use crate::seqs::opt_view;
use crate::text::pieces;

verus! {

/// One component of a path.
#[derive(Debug)]
pub enum PathComponent {
    /// A Windows path prefix such as a drive, in its canonical spelling.
    Prefix(Vec<u8>),
    /// The root directory.
    RootDir,
    /// A leading `.`.
    CurDir,
    /// A `..`.
    ParentDir,
    /// A file or directory name, in the bytes of the operating system.
    Normal(Vec<u8>),
}

/// The value of a path component.
#[verifier::ext_equal]
pub enum ComponentView {
    Prefix(Seq<u8>),
    RootDir,
    CurDir,
    ParentDir,
    Normal(Seq<u8>),
}

/// The value of a path.
pub type PathView = Seq<ComponentView>;

impl View for PathComponent {
    type V = ComponentView;

    open spec fn view(&self) -> ComponentView {
        match self {
            PathComponent::Prefix(bytes) => ComponentView::Prefix(bytes@),
            PathComponent::RootDir => ComponentView::RootDir,
            PathComponent::CurDir => ComponentView::CurDir,
            PathComponent::ParentDir => ComponentView::ParentDir,
            PathComponent::Normal(bytes) => ComponentView::Normal(bytes@),
        }
    }
}

/// A path, as the sequence of its components.
#[derive(Debug)]
pub struct RepoPath {
    pub components: Vec<PathComponent>,
}

impl View for RepoPath {
    type V = PathView;

    open spec fn view(&self) -> PathView {
        path_of(self.components@)
    }
}

/// The path with the given components.
pub open spec fn path_of(components: Seq<PathComponent>) -> PathView {
    components.map_values(|c: PathComponent| c@)
}

proof fn lemma_path_push(components: Seq<PathComponent>, c: PathComponent)
    ensures
        path_of(components.push(c)) == path_of(components).push(c@),
{
    assert(path_of(components.push(c)) =~= path_of(components).push(c@));
}

fn clone_bytes(bytes: &Vec<u8>) -> (r: Vec<u8>)
    ensures
        r@ == bytes@,
{
    let mut r: Vec<u8> = Vec::new();
    let mut i: usize = 0;
    while i < bytes.len()
        invariant
            i <= bytes@.len(),
            r@ == bytes@.take(i as int),
        decreases bytes@.len() - i,
    {
        r.push(bytes[i]);
        i += 1;
        assert(r@ =~= bytes@.take(i as int));
    }
    assert(r@ =~= bytes@);
    r
}

pub(crate) fn same_bytes(a: &Vec<u8>, b: &Vec<u8>) -> (r: bool)
    ensures
        r == (a@ == b@),
{
    if a.len() != b.len() {
        return false;
    }
    let mut i: usize = 0;
    while i < a.len()
        invariant
            i <= a@.len() == b@.len(),
            forall|j: int| 0 <= j < i ==> a@[j] == b@[j],
        decreases a@.len() - i,
    {
        if a[i] != b[i] {
            return false;
        }
        i += 1;
    }
    assert(a@ =~= b@);
    true
}

impl Clone for PathComponent {
    fn clone(&self) -> (r: Self)
        ensures
            r@ == self@,
    {
        match self {
            PathComponent::Prefix(bytes) => PathComponent::Prefix(clone_bytes(bytes)),
            PathComponent::RootDir => PathComponent::RootDir,
            PathComponent::CurDir => PathComponent::CurDir,
            PathComponent::ParentDir => PathComponent::ParentDir,
            PathComponent::Normal(bytes) => PathComponent::Normal(clone_bytes(bytes)),
        }
    }
}

impl PathComponent {
    /// Whether two components are the same.
    pub fn same(&self, other: &PathComponent) -> (r: bool)
        ensures
            r == (self@ == other@),
    {
        match (self, other) {
            (PathComponent::Prefix(a), PathComponent::Prefix(b)) => same_bytes(a, b),
            (PathComponent::RootDir, PathComponent::RootDir) => true,
            (PathComponent::CurDir, PathComponent::CurDir) => true,
            (PathComponent::ParentDir, PathComponent::ParentDir) => true,
            (PathComponent::Normal(a), PathComponent::Normal(b)) => same_bytes(a, b),
            _ => false,
        }
    }
}

/// `String::from_utf8`: the text that the bytes encode in UTF-8, or nothing
/// where they are not valid UTF-8.
#[verifier::external_body]
fn utf8_text(bytes: Vec<u8>) -> (r: Option<String>)
    ensures
        r is Some <==> valid_utf8(bytes@),
        r matches Some(text) ==> text@ == decode_utf8(bytes@),
{
    String::from_utf8(bytes).ok()
}

/// The last component of a path, where that is a name.
pub open spec fn file_name_of(path: PathView) -> Option<Seq<u8>> {
    if path.len() > 0 {
        match path.last() {
            ComponentView::Normal(name) => Some(name),
            _ => None,
        }
    } else {
        None
    }
}

/// The last component of a path, where that is a name in UTF-8.
pub open spec fn file_name_text_of(path: PathView) -> Option<Seq<char>> {
    match file_name_of(path) {
        Some(name) => if valid_utf8(name) {
            Some(decode_utf8(name))
        } else {
            None
        },
        None => None,
    }
}

/// A path without its last component, where that is neither a root nor a
/// prefix.
pub open spec fn parent_of(path: PathView) -> Option<PathView> {
    if path.len() > 0 && !(path.last() is RootDir) && !(path.last() is Prefix) {
        Some(path.drop_last())
    } else {
        None
    }
}

impl Clone for RepoPath {
    fn clone(&self) -> (r: Self)
        ensures
            r@ == self@,
    {
        self.first_components(self.components.len())
    }
}

impl RepoPath {
    pub(crate) fn first_components(&self, count: usize) -> (r: RepoPath)
        requires
            count <= self.components@.len(),
        ensures
            r@ == self@.take(count as int),
    {
        let mut components: Vec<PathComponent> = Vec::new();
        let mut i: usize = 0;
        while i < count
            invariant
                i <= count <= self.components@.len(),
                path_of(components@) == self@.take(i as int),
            decreases count - i,
        {
            let component = self.components[i].clone();
            proof {
                lemma_path_push(components@, component);
                assert(self@.take(i + 1) =~= self@.take(i as int).push(component@));
            }
            components.push(component);
            i += 1;
        }
        RepoPath { components }
    }

    /// Whether two paths are the same.
    pub fn same(&self, other: &RepoPath) -> (r: bool)
        ensures
            r == (self@ == other@),
    {
        if self.components.len() != other.components.len() {
            assert(self@.len() != other@.len());
            return false;
        }
        let mut i: usize = 0;
        while i < self.components.len()
            invariant
                i <= self.components@.len() == other.components@.len(),
                forall|j: int| 0 <= j < i ==> self@[j] == other@[j],
            decreases self.components@.len() - i,
        {
            if !self.components[i].same(&other.components[i]) {
                assert(self@[i as int] != other@[i as int]);
                return false;
            }
            i += 1;
        }
        assert(self@ =~= other@);
        true
    }

    /// The last component, where that is a name in UTF-8.
    pub fn file_name_text(&self) -> (r: Option<String>)
        ensures
            opt_view(r) == file_name_text_of(self@),
    {
        if self.components.len() == 0 {
            return None;
        }
        assert(self@.last() == self.components@.last()@);
        match &self.components[self.components.len() - 1] {
            PathComponent::Normal(name) => utf8_text(clone_bytes(name)),
            _ => None,
        }
    }

    /// The path without its last component, where that is neither a root nor a
    /// prefix.
    pub fn parent(&self) -> (r: Option<RepoPath>)
        ensures
            opt_view(r) == parent_of(self@),
    {
        if self.components.len() == 0 {
            return None;
        }
        assert(self@.last() == self.components@.last()@);
        match &self.components[self.components.len() - 1] {
            PathComponent::RootDir => None,
            PathComponent::Prefix(_) => None,
            _ => {
                assert(self@.take(self@.len() - 1) =~= self@.drop_last());
                Some(self.first_components(self.components.len() - 1))
            },
        }
    }
}

impl PartialEq for RepoPath {
    fn eq(&self, other: &RepoPath) -> (r: bool) {
        self.same(other)
    }
}

impl vstd::std_specs::cmp::PartialEqSpecImpl for RepoPath {
    open spec fn obeys_eq_spec() -> bool {
        true
    }

    open spec fn eq_spec(&self, other: &RepoPath) -> bool {
        self@ == other@
    }
}

/// What a piece between slashes stands for: nothing where it is empty or a `.`
/// that is not at the start, else one component.
pub open spec fn posix_piece(piece: Seq<u8>, leading: bool) -> PathView {
    if piece.len() == 0 {
        seq![]
    } else if piece == seq![46u8] {
        if leading {
            seq![ComponentView::CurDir]
        } else {
            seq![]
        }
    } else if piece == seq![46u8, 46u8] {
        seq![ComponentView::ParentDir]
    } else {
        seq![ComponentView::Normal(piece)]
    }
}

/// What the pieces between slashes stand for.
pub open spec fn posix_pieces(ps: Seq<Seq<u8>>) -> PathView
    decreases ps.len(),
{
    if ps.len() == 0 {
        seq![]
    } else {
        posix_pieces(ps.drop_last()) + posix_piece(ps.last(), ps.len() == 1)
    }
}

/// The path that a POSIX spelling stands for.
pub open spec fn posix_path(bytes: Seq<u8>) -> PathView {
    let names = posix_pieces(pieces(bytes, 47u8));
    if bytes.len() > 0 && bytes[0] == 47u8 {
        seq![ComponentView::RootDir] + names
    } else {
        names
    }
}

/// Whether a path starts at a root.
pub open spec fn is_rooted(path: PathView) -> bool {
    path.len() > 0 && (path[0] is RootDir || path[0] is Prefix)
}

/// The path `relative`, seen from `base`.
pub open spec fn resolved(base: PathView, relative: PathView) -> PathView {
    if is_rooted(relative) || base.len() == 0 {
        relative
    } else if relative.len() > 0 && relative[0] is CurDir {
        base + relative.skip(1)
    } else {
        base + relative
    }
}

fn push_piece(components: &mut Vec<PathComponent>, piece: Vec<u8>, leading: bool)
    ensures
        path_of(final(components)@) == path_of(old(components)@) + posix_piece(piece@, leading),
{
    let component = if piece.len() == 0 {
        None
    } else if piece.len() == 1 && piece[0] == 46u8 {
        assert(piece@ =~= seq![46u8]);
        if leading {
            Some(PathComponent::CurDir)
        } else {
            None
        }
    } else if piece.len() == 2 && piece[0] == 46u8 && piece[1] == 46u8 {
        assert(piece@ =~= seq![46u8, 46u8]);
        Some(PathComponent::ParentDir)
    } else {
        Some(PathComponent::Normal(piece))
    };
    match component {
        Some(component) => {
            proof {
                lemma_path_push(components@, component);
                assert(posix_piece(piece@, leading) =~= seq![component@]);
            }
            components.push(component);
        },
        None => {
            assert(posix_piece(piece@, leading) =~= seq![]);
        },
    }
    assert(path_of(components@) =~= path_of(old(components)@) + posix_piece(piece@, leading));
}

impl RepoPath {
    /// The path that a POSIX spelling stands for.
    pub fn from_posix(text: &str) -> (r: RepoPath)
        ensures
            r@ == posix_path(encode_utf8(text@)),
    {
        let bytes = text.as_bytes();
        let ghost all = encode_utf8(text@);
        let mut components: Vec<PathComponent> = Vec::new();
        let ghost root: PathView = if all.len() > 0 && all[0] == 47u8 {
            seq![ComponentView::RootDir]
        } else {
            seq![]
        };
        if bytes.len() > 0 && bytes[0] == 47u8 {
            proof {
                lemma_path_push(components@, PathComponent::RootDir);
            }
            components.push(PathComponent::RootDir);
        }
        assert(path_of(components@) =~= root);
        let mut current: Vec<u8> = Vec::new();
        let mut leading: bool = true;
        let mut i: usize = 0;
        assert(pieces(all.take(0), 47u8).drop_last() =~= seq![]);
        assert(path_of(components@) =~= root + posix_pieces(seq![]));
        while i < bytes.len()
            invariant
                i <= bytes@.len(),
                bytes@ == all,
                pieces(all.take(i as int), 47u8).len() > 0,
                pieces(all.take(i as int), 47u8).last() == current@,
                leading == (pieces(all.take(i as int), 47u8).len() == 1),
                path_of(components@) == root + posix_pieces(
                    pieces(all.take(i as int), 47u8).drop_last(),
                ),
            decreases bytes@.len() - i,
        {
            let byte = bytes[i];
            let ghost so_far = pieces(all.take(i as int), 47u8);
            assert(all.take(i + 1).drop_last() =~= all.take(i as int));
            if byte == 47u8 {
                assert(so_far.push(seq![]).drop_last() =~= so_far);
                push_piece(&mut components, current, leading);
                assert(path_of(components@) =~= root + posix_pieces(so_far));
                current = Vec::new();
                leading = false;
            } else {
                current.push(byte);
                assert(pieces(all.take(i + 1), 47u8).drop_last() =~= so_far.drop_last());
            }
            i += 1;
        }
        assert(all.take(all.len() as int) =~= all);
        push_piece(&mut components, current, leading);
        assert(path_of(components@) =~= root + posix_pieces(pieces(all, 47u8)));
        assert(posix_path(all) =~= root + posix_pieces(pieces(all, 47u8)));
        RepoPath { components }
    }

    /// Whether the path does not start at a root.
    pub fn is_relative(&self) -> (r: bool)
        ensures
            r == !is_rooted(self@),
    {
        if self.components.len() == 0 {
            return true;
        }
        assert(self@[0] == self.components@[0]@);
        match &self.components[0] {
            PathComponent::RootDir => false,
            PathComponent::Prefix(_) => false,
            _ => true,
        }
    }

    /// The path `relative`, seen from this one.
    pub fn join(&self, relative: &RepoPath) -> (r: RepoPath)
        ensures
            r@ == resolved(self@, relative@),
    {
        if !relative.is_relative() || self.components.len() == 0 {
            return relative.clone();
        }
        let mut r = self.clone();
        let mut i: usize = 0;
        if relative.components.len() > 0 {
            assert(relative@[0] == relative.components@[0]@);
            if let PathComponent::CurDir = &relative.components[0] {
                i = 1;
            }
        }
        let ghost from = i;
        assert(r@ =~= self@ + relative@.subrange(from as int, i as int));
        while i < relative.components.len()
            invariant
                from <= i <= relative.components@.len(),
                r@ == self@ + relative@.subrange(from as int, i as int),
            decreases relative.components@.len() - i,
        {
            let component = relative.components[i].clone();
            proof {
                lemma_path_push(r.components@, component);
                assert(relative@.subrange(from as int, i + 1) =~= relative@.subrange(
                    from as int,
                    i as int,
                ).push(component@));
            }
            r.components.push(component);
            i += 1;
            assert(r@ =~= self@ + relative@.subrange(from as int, i as int));
        }
        assert(relative@.subrange(from as int, relative@.len() as int) =~= relative@.skip(
            from as int,
        ));
        assert(from == 0 ==> relative@.skip(0) =~= relative@);
        r
    }

    /// The path with one more component.
    pub fn push(&self, component: &PathComponent) -> (r: RepoPath)
        ensures
            r@ == self@.push(component@),
    {
        let mut r = self.clone();
        let component = component.clone();
        proof {
            lemma_path_push(r.components@, component);
        }
        r.components.push(component);
        r
    }
}

} // verus!
