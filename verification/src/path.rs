//! File system paths, and the components they consist of.
//!
//! A `std::path::PathBuf` is opaque to the proofs. [`components`] gives what
//! it consists of, and the functions below make the calls into `std::path`.
//! Where a path with a prefix (such as a drive) comes in, joining may do more
//! than to add a component, and only [`joined_path`] says what it gives.

use vstd::prelude::*;

verus! {

/// An owned path.
#[verifier::external_type_specification]
#[verifier::external_body]
pub struct ExPathBuf(std::path::PathBuf);

/// One component of a path.
pub enum Component {
    /// A prefix such as a drive.
    Prefix(Seq<char>),
    /// The root directory.
    Root,
    /// The current directory, `.`.
    Current,
    /// The parent directory, `..`.
    Parent,
    /// A file or a directory by its name.
    Normal(Seq<char>),
}

/// What a path consists of: what `Path::components` yields. Where a name is not
/// Unicode, what it has instead of characters counts as replacement characters.
pub uninterp spec fn components(path: std::path::PathBuf) -> Seq<Component>;

/// The path of `name` in `base`: what `Path::join` gives.
pub uninterp spec fn joined_path(base: std::path::PathBuf, name: Seq<char>) -> std::path::PathBuf;

/// The parent of a path that has one: what `PathBuf::pop` leaves of it.
pub uninterp spec fn parent_path(path: std::path::PathBuf) -> std::path::PathBuf;

/// The text of a path: what `Path::to_string_lossy` gives.
pub uninterp spec fn lossy(path: std::path::PathBuf) -> Seq<char>;

/// How a path is shown: what `Path::display` writes.
pub uninterp spec fn displayed(path: std::path::PathBuf) -> Seq<char>;

/// `name` is the name of a single file or directory.
pub open spec fn plain_name(name: Seq<char>) -> bool {
    &&& name.len() > 0
    &&& !name.contains('/')
    &&& !name.contains('\\')
    &&& !name.contains(':')
    &&& name != seq!['.']
    &&& name != seq!['.', '.']
}

/// A name of more than two characters is plain unless it holds a separator.
pub(crate) proof fn lemma_plain_name(name: Seq<char>)
    requires
        name.len() > 2,
        forall|i: int|
            0 <= i < name.len() ==> #[trigger] name[i] != '/' && name[i] != '\\' && name[i] != ':',
    ensures
        plain_name(name),
{
    assert(seq!['.'].len() == 1);
    assert(seq!['.', '.'].len() == 2);
}

/// Whether a path has a parent: its last component is neither a root nor a
/// prefix.
pub open spec fn has_parent(path: Seq<Component>) -> bool {
    path.len() > 0 && !(path.last() is Root) && !(path.last() is Prefix)
}

/// Whether a path has a prefix. On platforms without prefixes none has.
pub open spec fn prefixed(path: Seq<Component>) -> bool {
    exists|i: int| 0 <= i < path.len() && (#[trigger] path[i]) is Prefix
}

/// `path` is `base` with the given components behind it, unless it has a
/// prefix.
pub open spec fn extends(
    path: std::path::PathBuf,
    base: std::path::PathBuf,
    below: Seq<Component>,
) -> bool {
    !prefixed(components(path)) ==> components(path) == components(base) + below
}

/// Calls `Path::join`: the path depends on the base and the name alone. The
/// name of a single file or directory becomes one more component, unless the
/// path has a prefix.
#[verifier::external_body]
pub(crate) fn path_join(base: &std::path::PathBuf, name: &str) -> (path: std::path::PathBuf)
    ensures
        path == joined_path(*base, name@),
        plain_name(name@) ==> extends(path, *base, seq![Component::Normal(name@)]),
{
    base.join(name)
}

/// Calls `PathBuf::pop`: what is left depends on the path alone. The last
/// component goes, and nothing happens to a path without a parent.
#[verifier::external_body]
pub(crate) fn path_pop(path: &mut std::path::PathBuf) -> (popped: bool)
    ensures
        popped == has_parent(components(*old(path))),
        popped ==> *final(path) == parent_path(*old(path)),
        popped ==> components(*final(path)) == components(*old(path)).drop_last(),
        !popped ==> *final(path) == *old(path),
{
    path.pop()
}

/// Calls `PathBuf::clone`: the same path.
#[verifier::external_body]
pub(crate) fn path_clone(path: &std::path::PathBuf) -> (copy: std::path::PathBuf)
    ensures
        copy == *path,
{
    path.clone()
}

/// Calls `Path::to_string_lossy`: the text depends on the path alone.
#[verifier::external_body]
pub(crate) fn path_text(path: &std::path::PathBuf) -> (out: String)
    ensures
        out@ == lossy(*path),
{
    path.to_string_lossy().to_string()
}

/// Calls `Path::display`: what is shown depends on the path alone.
#[verifier::external_body]
pub(crate) fn path_display(path: &std::path::PathBuf) -> (out: String)
    ensures
        out@ == displayed(*path),
{
    path.display().to_string()
}

} // verus!
