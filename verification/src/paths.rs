//! File-system paths as the crate sees them: a text, and the sequence of
//! components that the text stands for.
//!
//! The caller splits a path into components; the rules on names, parents,
//! prefixes and depth are stated and proved over the components.

use vstd::prelude::*;
use vstd::string::*;
use crate::text::text_eq;

verus! {

/// One component of a path.
#[derive(Debug, Clone)]
pub enum PathPart {
    /// A drive or share in front of the root, where the platform has them.
    Prefix(String),
    /// The root directory.
    RootDir,
    /// The current directory, `.`.
    CurDir,
    /// The parent directory, `..`.
    ParentDir,
    /// The name of a file or folder.
    Normal(String),
}

/// The mathematical value of a [`PathPart`].
pub enum PathPartView {
    Prefix(Seq<char>),
    RootDir,
    CurDir,
    ParentDir,
    Normal(Seq<char>),
}

impl View for PathPart {
    type V = PathPartView;

    open spec fn view(&self) -> PathPartView {
        match self {
            PathPart::Prefix(p) => PathPartView::Prefix(p@),
            PathPart::RootDir => PathPartView::RootDir,
            PathPart::CurDir => PathPartView::CurDir,
            PathPart::ParentDir => PathPartView::ParentDir,
            PathPart::Normal(n) => PathPartView::Normal(n@),
        }
    }
}

/// The values of a list of components, in the same order.
pub open spec fn part_views(parts: Seq<PathPart>) -> Seq<PathPartView> {
    parts.map_values(|p: PathPart| p@)
}

/// A path: its text, and its components in order.
#[derive(Debug, Clone)]
pub struct ParsedPath {
    /// The path as text.
    pub text: String,
    /// The components of the path.
    pub parts: Vec<PathPart>,
}

/// The mathematical value of a [`ParsedPath`].
pub struct ParsedPathView {
    pub text: Seq<char>,
    pub parts: Seq<PathPartView>,
}

impl View for ParsedPath {
    type V = ParsedPathView;

    open spec fn view(&self) -> ParsedPathView {
        ParsedPathView { text: self.text@, parts: part_views(self.parts@) }
    }
}

/// Whether `base` is a prefix of `path`, component by component.
pub open spec fn is_prefix(base: Seq<PathPartView>, path: Seq<PathPartView>) -> bool {
    base.len() <= path.len() && path.subrange(0, base.len() as int) == base
}

/// The number of components of `path` below `root`; 0 where `path` does not
/// lie under `root`.
pub open spec fn components_below(root: Seq<PathPartView>, path: Seq<PathPartView>) -> nat {
    if is_prefix(root, path) {
        (path.len() - root.len()) as nat
    } else {
        0
    }
}

/// The depth of `path` below `root` as an entry records it: the number of
/// components below the root, and the greatest 32-bit number where that
/// number is greater still.
pub open spec fn depth_of(root: Seq<PathPartView>, path: Seq<PathPartView>) -> u32 {
    if components_below(root, path) <= u32::MAX {
        components_below(root, path) as u32
    } else {
        u32::MAX
    }
}

/// The name that a path ends in: its last component, where that is a name.
pub open spec fn file_name_of(path: Seq<PathPartView>) -> Option<Seq<char>> {
    if path.len() == 0 {
        None
    } else {
        match path.last() {
            PathPartView::Normal(name) => Some(name),
            _ => None,
        }
    }
}

/// The path without its last component. A path that is empty or ends in a root
/// or a prefix has no parent.
pub open spec fn parent_of(path: Seq<PathPartView>) -> Option<Seq<PathPartView>> {
    if path.len() == 0 {
        None
    } else {
        match path.last() {
            PathPartView::Prefix(_) => None,
            PathPartView::RootDir => None,
            _ => Some(path.drop_last()),
        }
    }
}

/// A path directly inside `root` lies one component below it.
pub proof fn lemma_child_depth(root: Seq<PathPartView>, name: PathPartView)
    ensures
        components_below(root, root.push(name)) == 1,
        depth_of(root, root.push(name)) == 1,
{
    assert(root.push(name).subrange(0, root.len() as int) =~= root);
}

/// One more component at the end of a path under `root` is one more level of
/// depth.
pub proof fn lemma_nested_depth(
    root: Seq<PathPartView>,
    path: Seq<PathPartView>,
    name: PathPartView,
)
    requires
        is_prefix(root, path),
    ensures
        is_prefix(root, path.push(name)),
        components_below(root, path.push(name)) == components_below(root, path) + 1,
        depth_of(root, path) < u32::MAX ==> depth_of(root, path.push(name)) == depth_of(
            root,
            path,
        ) + 1,
{
    assert(path.push(name).subrange(0, root.len() as int) =~= path.subrange(
        0,
        root.len() as int,
    ));
}

/// A path under the root other than the root itself has a depth of at least
/// 1, and a path of depth 1 is the root with one more component.
pub proof fn lemma_depth_under_root(root: Seq<PathPartView>, path: Seq<PathPartView>)
    ensures
        is_prefix(root, path) && path != root ==> depth_of(root, path) >= 1,
        depth_of(root, path) == 1 ==> path.len() > 0 && path.drop_last() == root,
        depth_of(root, path) == 1 ==> (parent_of(path) is Some ==> parent_of(path) == Some(root)),
{
    if is_prefix(root, path) && path != root {
        if path.len() == root.len() {
            assert(path.subrange(0, root.len() as int) =~= path);
        }
    }
    if depth_of(root, path) == 1 {
        assert(path.drop_last() =~= path.subrange(0, root.len() as int));
    }
}

/// Whether a path starts at a root or at a prefix, and so names the same
/// place wherever it is read.
pub open spec fn is_absolute(path: Seq<PathPartView>) -> bool {
    path.len() > 0 && (path[0] is RootDir || path[0] is Prefix)
}

/// Every path under an absolute root is absolute.
pub proof fn lemma_absolute_under_root(root: Seq<PathPartView>, path: Seq<PathPartView>)
    requires
        is_absolute(root),
        is_prefix(root, path),
    ensures
        is_absolute(path),
{
    assert(path.subrange(0, root.len() as int)[0] == path[0]);
}

/// The root lies zero components below itself, and a path that is not under
/// the root counts as depth zero.
pub proof fn lemma_depth_zero(root: Seq<PathPartView>, path: Seq<PathPartView>)
    ensures
        components_below(root, root) == 0,
        depth_of(root, root) == 0,
        !is_prefix(root, path) ==> components_below(root, path) == 0 && depth_of(root, path) == 0,
{
}

/// Compares two components.
pub fn same_part(a: &PathPart, b: &PathPart) -> (same: bool)
    ensures
        same == (a@ == b@),
{
    match a {
        PathPart::Prefix(x) => match b {
            PathPart::Prefix(y) => text_eq(x.as_str(), y.as_str()),
            _ => false,
        },
        PathPart::RootDir => match b {
            PathPart::RootDir => true,
            _ => false,
        },
        PathPart::CurDir => match b {
            PathPart::CurDir => true,
            _ => false,
        },
        PathPart::ParentDir => match b {
            PathPart::ParentDir => true,
            _ => false,
        },
        PathPart::Normal(x) => match b {
            PathPart::Normal(y) => text_eq(x.as_str(), y.as_str()),
            _ => false,
        },
    }
}

/// Tells whether the first `count` components of both paths are the same.
fn same_head(a: &Vec<PathPart>, b: &Vec<PathPart>, count: usize) -> (same: bool)
    requires
        count <= a@.len(),
        count <= b@.len(),
    ensures
        same == (part_views(a@).subrange(0, count as int) == part_views(b@).subrange(
            0,
            count as int,
        )),
{
    let ghost x = part_views(a@).subrange(0, count as int);
    let ghost y = part_views(b@).subrange(0, count as int);
    let mut i: usize = 0;
    while i < count
        invariant
            i <= count,
            count <= a@.len(),
            count <= b@.len(),
            x == part_views(a@).subrange(0, count as int),
            y == part_views(b@).subrange(0, count as int),
            forall|j: int| 0 <= j < i ==> x[j] == y[j],
        decreases count - i,
    {
        if !same_part(&a[i], &b[i]) {
            assert(x[i as int] == a@[i as int]@);
            assert(y[i as int] == b@[i as int]@);
            return false;
        }
        assert(x[i as int] == a@[i as int]@);
        assert(y[i as int] == b@[i as int]@);
        i += 1;
    }
    assert(x =~= y);
    true
}

/// Compares two paths component by component.
pub fn same_path(a: &Vec<PathPart>, b: &Vec<PathPart>) -> (same: bool)
    ensures
        same == (part_views(a@) == part_views(b@)),
{
    if a.len() != b.len() {
        assert(part_views(a@).len() != part_views(b@).len());
        return false;
    }
    let same = same_head(a, b, a.len());
    assert(part_views(a@).subrange(0, a@.len() as int) =~= part_views(a@));
    assert(part_views(b@).subrange(0, b@.len() as int) =~= part_views(b@));
    same
}

/// Tells whether `path` lies under `base` or is `base` itself.
pub fn starts_with(path: &Vec<PathPart>, base: &Vec<PathPart>) -> (under: bool)
    ensures
        under == is_prefix(part_views(base@), part_views(path@)),
{
    if base.len() > path.len() {
        return false;
    }
    let under = same_head(path, base, base.len());
    assert(part_views(base@).subrange(0, base@.len() as int) =~= part_views(base@));
    under
}

/// The depth of `path` below `root`.
pub fn depth_below(root: &Vec<PathPart>, path: &Vec<PathPart>) -> (depth: u32)
    ensures
        depth == depth_of(part_views(root@), part_views(path@)),
{
    if starts_with(path, root) {
        let below: usize = path.len() - root.len();
        if below > u32::MAX as usize {
            u32::MAX
        } else {
            below as u32
        }
    } else {
        0
    }
}

/// The name that a path ends in, where it ends in one.
pub fn file_name(path: &Vec<PathPart>) -> (name: Option<String>)
    ensures
        match name {
            Some(n) => file_name_of(part_views(path@)) == Some(n@),
            None => file_name_of(part_views(path@)) is None,
        },
{
    if path.len() == 0 {
        return None;
    }
    assert(part_views(path@).last() == path@[path@.len() - 1]@);
    match &path[path.len() - 1] {
        PathPart::Normal(n) => Some(n.clone()),
        _ => None,
    }
}

/// Tells whether `folder` is the parent of `path`.
pub fn is_parent(folder: &Vec<PathPart>, path: &Vec<PathPart>) -> (yes: bool)
    ensures
        yes == (parent_of(part_views(path@)) == Some(part_views(folder@))),
{
    if path.len() == 0 {
        return false;
    }
    assert(part_views(path@).last() == path@[path@.len() - 1]@);
    let has_parent = match &path[path.len() - 1] {
        PathPart::Prefix(_) => false,
        PathPart::RootDir => false,
        _ => true,
    };
    if !has_parent {
        return false;
    }
    let count: usize = path.len() - 1;
    assert(part_views(path@).drop_last() =~= part_views(path@).subrange(0, count as int));
    if folder.len() != count {
        assert(part_views(folder@).len() != part_views(path@).drop_last().len());
        return false;
    }
    let same = same_head(path, folder, count);
    assert(part_views(folder@).subrange(0, count as int) =~= part_views(folder@));
    same
}

} // verus!
