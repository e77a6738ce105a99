//! Decisions on file-system paths, made on their components: which relative
//! paths a plugin may name, and whether a resolved path stays under a root.
use vstd::prelude::*;

use crate::text::str_eq;

verus! {

/// One component of a path (as `std::path::Component` splits it), with the
/// text of a prefix or a normal component.
#[derive(Debug, Clone)]
pub enum PathPart {
    Prefix(String),
    RootDir,
    CurDir,
    ParentDir,
    Normal(String),
}

/// Whether two components are the same component.
pub open spec fn same_part(a: PathPart, b: PathPart) -> bool {
    match (a, b) {
        (PathPart::Prefix(x), PathPart::Prefix(y)) => x@ == y@,
        (PathPart::RootDir, PathPart::RootDir) => true,
        (PathPart::CurDir, PathPart::CurDir) => true,
        (PathPart::ParentDir, PathPart::ParentDir) => true,
        (PathPart::Normal(x), PathPart::Normal(y)) => x@ == y@,
        _ => false,
    }
}

/// Decides [`same_part`].
fn same_part_exec(a: &PathPart, b: &PathPart) -> (r: bool)
    ensures
        r == same_part(*a, *b),
{
    match (a, b) {
        (PathPart::Prefix(x), PathPart::Prefix(y)) => str_eq(x.as_str(), y.as_str()),
        (PathPart::RootDir, PathPart::RootDir) => true,
        (PathPart::CurDir, PathPart::CurDir) => true,
        (PathPart::ParentDir, PathPart::ParentDir) => true,
        (PathPart::Normal(x), PathPart::Normal(y)) => str_eq(x.as_str(), y.as_str()),
        _ => false,
    }
}

/// The position of the first component of a path under a plugin's
/// configuration directory that is not a plain name (a root, a prefix, `.`
/// or `..`); such a path is refused as a traversal.
pub fn first_disallowed_part(parts: &Vec<PathPart>) -> (r: Option<usize>)
    ensures
        match r {
            Some(i) => i < parts@.len() && !(parts@[i as int] is Normal) && forall|j: int|
                0 <= j < i ==> (#[trigger] parts@[j]) is Normal,
            None => forall|j: int| 0 <= j < parts@.len() ==> (#[trigger] parts@[j]) is Normal,
        },
{
    let mut i: usize = 0;
    while i < parts.len()
        invariant
            i <= parts@.len(),
            forall|j: int| 0 <= j < i ==> (#[trigger] parts@[j]) is Normal,
        decreases parts.len() - i,
    {
        match &parts[i] {
            PathPart::Normal(_) => {},
            _ => return Some(i),
        }
        i = i + 1;
    }
    None
}

/// Whether a path named in an `snb.toml` stays inside the plugin directory:
/// it has no root, no prefix and no `..`.
pub fn plugin_path_admissible(parts: &Vec<PathPart>) -> (r: bool)
    ensures
        r == forall|j: int|
            0 <= j < parts@.len() ==> !((#[trigger] parts@[j]) is ParentDir || parts@[j] is RootDir
                || parts@[j] is Prefix),
{
    let mut i: usize = 0;
    while i < parts.len()
        invariant
            i <= parts@.len(),
            forall|j: int|
                0 <= j < i ==> !((#[trigger] parts@[j]) is ParentDir || parts@[j] is RootDir || parts@[j] is Prefix),
        decreases parts.len() - i,
    {
        match &parts[i] {
            PathPart::ParentDir | PathPart::RootDir | PathPart::Prefix(_) => return false,
            _ => {},
        }
        i = i + 1;
    }
    true
}

/// Whether a plugin argument names a path rather than a plugin: it is
/// absolute, has more than one component, or has a root, a prefix, `.` or `..`.
pub fn is_path_like(absolute: bool, parts: &Vec<PathPart>) -> (r: bool)
    ensures
        r == (absolute || parts@.len() > 1 || exists|j: int|
            0 <= j < parts@.len() && !((#[trigger] parts@[j]) is Normal)),
{
    if absolute || parts.len() > 1 {
        return true;
    }
    match first_disallowed_part(parts) {
        Some(_) => true,
        None => false,
    }
}

/// Whether `path` lies under `root`: the components of `root` begin those of
/// `path` (what `Path::starts_with` tests).
pub fn stays_under(root: &Vec<PathPart>, path: &Vec<PathPart>) -> (r: bool)
    ensures
        r == (root@.len() <= path@.len() && forall|j: int|
            0 <= j < root@.len() ==> same_part(#[trigger] root@[j], path@[j])),
{
    if root.len() > path.len() {
        return false;
    }
    let mut i: usize = 0;
    while i < root.len()
        invariant
            i <= root@.len() <= path@.len(),
            forall|j: int| 0 <= j < i ==> same_part(#[trigger] root@[j], path@[j]),
        decreases root.len() - i,
    {
        if !same_part_exec(&root[i], &path[i]) {
            return false;
        }
        i = i + 1;
    }
    true
}

} // verus!
