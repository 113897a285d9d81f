//! Paths, as the machine that the library runs on understands them.
//!
//! Which paths are absolute, and how a path is joined, differs from one system to
//! another. So what `std::path` answers has no name here: `says_absolute` and
//! `joins` hold of the answers that it may give, and of no others.

use std::path::{Path, PathBuf};

use vstd::prelude::*;

verus! {

/// An owned path of `std::path`.
#[verifier::external_type_specification]
#[verifier::external_body]
pub struct ExPathBuf(std::path::PathBuf);

/// The text of a path, where it is Unicode.
pub uninterp spec fn path_text(path: PathBuf) -> Option<Seq<char>>;

/// `Path::to_str`: the text of the path, where it is Unicode, and `None`
/// otherwise.
#[verifier::external_body]
pub(crate) fn text_of(path: &PathBuf) -> (r: Option<&str>)
    ensures
        r.deep_view() == path_text(*path),
{
    path.to_str()
}

/// `PathBuf::from`: the path whose text this is.
#[verifier::external_body]
pub(crate) fn path_of(text: &str) -> (r: PathBuf)
    ensures
        path_text(r) == Some(text@),
{
    PathBuf::from(text)
}

/// `PathBuf::clone`: the same path.
#[verifier::external_body]
pub(crate) fn same_path(path: &PathBuf) -> (r: PathBuf)
    ensures
        r == *path,
{
    path.clone()
}

/// A path that is relative on every system: it neither starts at a root nor holds
/// any of the characters that a prefix has.
pub open spec fn plainly_relative(path: Seq<char>) -> bool {
    &&& !path.contains('\\')
    &&& !path.contains(':')
    &&& path.len() == 0 || path[0] != '/'
}

/// `Path::is_absolute`: whether the path starts at the root, on Unix, or has a
/// prefix and starts at the root, on Windows. On either system a plainly relative
/// path does not.
#[verifier::external_body]
fn std_is_absolute(path: &str) -> (r: bool)
    ensures
        r ==> !plainly_relative(path@),
{
    Path::new(path).is_absolute()
}

/// Whether `Path::is_absolute` may give `answer` for `path`.
pub closed spec fn says_absolute(path: Seq<char>, answer: bool) -> bool {
    exists|asked: &str| asked@ == path && #[trigger] call_ensures(
        std_is_absolute,
        (asked,),
        answer,
    )
}

/// Whether `path` is absolute on this machine.
pub fn is_absolute(path: &str) -> (r: bool)
    ensures
        says_absolute(path@, r),
{
    std_is_absolute(path)
}

/// A plainly relative path is absolute on no machine.
pub proof fn law_plainly_relative_is_not_absolute(path: Seq<char>)
    requires
        plainly_relative(path),
    ensures
        !says_absolute(path, true),
{
}

/// Whether `whole` is `rest` after `base`, with one separator between them. There
/// is none after an empty base, after one that ends in a separator, and, on
/// Windows, after a bare drive.
pub open spec fn adjoined(base: Seq<char>, rest: Seq<char>, whole: Seq<char>) -> bool {
    ||| whole == base + rest && (base.len() == 0 || base.last() == '/' || base.last() == '\\'
        || base.last() == ':')
    ||| whole == base + seq!['/'] + rest && base.len() > 0 && base.last() != '/'
    ||| whole == base + seq!['\\'] + rest && base.len() > 0 && base.last() != '/' && base.last()
        != '\\'
}

/// What is claimed of the text of a joined path.
pub open spec fn text_is_joined(
    base: Option<Seq<char>>,
    rest: Seq<char>,
    whole: Option<Seq<char>>,
) -> bool {
    base is Some && (base->0.len() == 0 || base->0[0] != '\\') && plainly_relative(rest)
        ==> whole is Some && adjoined(base->0, rest, whole->0)
}

/// `Path::join`: `rest` adjoined to `base`, where `rest` is plainly relative; an
/// absolute `rest` replaces `base`. Of a base that starts with a backslash nothing
/// is claimed: on Windows it can be a verbatim path, which is written anew.
#[verifier::external_body]
fn std_join(base: &PathBuf, rest: &str) -> (r: PathBuf)
    ensures
        text_is_joined(path_text(*base), rest@, path_text(r)),
{
    base.join(rest)
}

/// Whether `Path::join` may give `path` for `rest` below `base`.
pub closed spec fn joins(base: PathBuf, rest: Seq<char>, path: PathBuf) -> bool {
    exists|given: &str| given@ == rest && #[trigger] call_ensures(
        std_join,
        (&base, given),
        path,
    )
}

/// The path `rest` below `base` on this machine.
pub fn join(base: &PathBuf, rest: &str) -> (r: PathBuf)
    ensures
        joins(*base, rest@, r),
{
    std_join(base, rest)
}

/// The text of a joined path is that of the base and what was joined, with one
/// separator between them.
pub proof fn law_joined_text(base: PathBuf, rest: Seq<char>, path: PathBuf)
    requires
        joins(base, rest, path),
    ensures
        text_is_joined(path_text(base), rest, path_text(path)),
{
}

} // verus!
