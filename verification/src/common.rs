//! Where a script's cache directory is, and how a command's end is judged.

use vstd::prelude::*;
use crate::paths::{is_absolute_path, joined_path, lemma_joined_one_to_one};
use crate::text::{chars_of, copy_range, string_of};
use crate::text::opt_view;

verus! {

/// The part of the user's cache directory that holds the script caches.
pub const CACHE_NAMESPACE: &'static str = "scriptisto/bin";

/// Why a script's path or its cache directory cannot be had.
#[derive(Debug, Clone, Copy, PartialEq, Eq)]
pub enum PathError {
    /// The script path begins with neither `.` nor `/`.
    BadStart,
    /// The script path does not lead to a file.
    NotFound,
    /// The script's absolute path does not begin with the root directory and
    /// a component under it.
    NotUnderRoot,
    /// The user has no cache directory.
    NoCacheDir,
}

/// The path begins with `.` or with `/`.
pub open spec fn starts_with_dot_or_slash(path: Seq<char>) -> bool {
    path.len() > 0 && (path[0] == '.' || path[0] == '/')
}

/// The view of a path, or the error in its place.
pub open spec fn path_view(r: Result<String, PathError>) -> Result<Seq<char>, PathError> {
    match r {
        Ok(path) => Ok(path@),
        Err(e) => Err(e),
    }
}

/// The absolute path of a script, given what the file system says its
/// canonical path is: that path, for a script path that begins with `.` or
/// `/` and leads to a file.
pub open spec fn absolute_script_path(script_src: Seq<char>, canonical: Option<Seq<char>>) -> Result<
    Seq<char>,
    PathError,
> {
    if !starts_with_dot_or_slash(script_src) {
        Err(PathError::BadStart)
    } else {
        match canonical {
            Some(path) => Ok(path),
            None => Err(PathError::NotFound),
        }
    }
}

/// An absolute path without the separator that it begins with; none for a
/// path that does not begin with exactly one separator.
pub open spec fn below_root(absolute: Seq<char>) -> Option<Seq<char>> {
    if is_absolute_path(absolute) && !is_absolute_path(absolute.skip(1)) {
        Some(absolute.skip(1))
    } else {
        None
    }
}

/// The cache directory of a script: the user's cache directory, the
/// namespace, and under it the script's absolute path without its root, so
/// that the cache mirrors the place of the script in the file system.
pub open spec fn cache_path_of(
    script_path: Seq<char>,
    canonical: Option<Seq<char>>,
    user_cache: Option<Seq<char>>,
) -> Result<Seq<char>, PathError> {
    match absolute_script_path(script_path, canonical) {
        Err(e) => Err(e),
        Ok(absolute) => match below_root(absolute) {
            None => Err(PathError::NotUnderRoot),
            Some(relative) => match user_cache {
                None => Err(PathError::NoCacheDir),
                Some(root) => Ok(joined_path(joined_path(root, CACHE_NAMESPACE@), relative)),
            },
        },
    }
}

/// Under one user cache directory, two scripts have the same cache
/// directory exactly when they have the same canonical path: different
/// scripts never share a cache, and two ways to write the path of one
/// script lead to one cache.
pub proof fn lemma_cache_path_one_to_one(
    script_path: Seq<char>,
    canonical: Seq<char>,
    other_path: Seq<char>,
    other_canonical: Seq<char>,
    user_cache: Option<Seq<char>>,
)
    requires
        cache_path_of(script_path, Some(canonical), user_cache) is Ok,
        cache_path_of(other_path, Some(other_canonical), user_cache) is Ok,
    ensures
        cache_path_of(script_path, Some(canonical), user_cache) == cache_path_of(
            other_path,
            Some(other_canonical),
            user_cache,
        ) <==> canonical == other_canonical,
{
    let base = joined_path(user_cache->0, CACHE_NAMESPACE@);
    let a = below_root(canonical)->0;
    let b = below_root(other_canonical)->0;
    if joined_path(base, a) == joined_path(base, b) {
        lemma_joined_one_to_one(base, a, b);
        assert(canonical =~= seq![canonical[0]] + a);
        assert(other_canonical =~= seq![other_canonical[0]] + b);
    }
}

/// `dirs::cache_dir`: the user's cache directory, if the environment names
/// one and its path is Unicode. Nothing is claimed of it.
#[verifier::external_body]
fn user_cache_dir() -> Option<String> {
    match dirs::cache_dir() {
        Some(dir) => dir.into_os_string().into_string().ok(),
        None => None,
    }
}

/// Checks the way a script path is written and gives its absolute path.
/// `canonical` is the canonical path that the file system has for
/// `script_src`, or `None` if it has none.
pub fn script_src_to_absolute(script_src: &str, canonical: Option<String>) -> (r: Result<
    String,
    PathError,
>)
    ensures
        path_view(r) == absolute_script_path(script_src@, opt_view(canonical)),
{
    if script_src.unicode_len() == 0 {
        return Err(PathError::BadStart);
    }
    let first = script_src.get_char(0);
    if first != '.' && first != '/' {
        return Err(PathError::BadStart);
    }
    match canonical {
        Some(path) => Ok(path),
        None => Err(PathError::NotFound),
    }
}

/// The cache directory of a script under the given user cache directory.
pub fn cache_path_under(script_path: &str, canonical: Option<String>, user_cache: Option<String>) -> (r:
    Result<String, PathError>)
    ensures
        path_view(r) == cache_path_of(script_path@, opt_view(canonical), opt_view(user_cache)),
{
    let absolute = match script_src_to_absolute(script_path, canonical) {
        Ok(absolute) => absolute,
        Err(e) => {
            return Err(e);
        },
    };
    let chars = chars_of(absolute.as_str());
    if chars.len() == 0 || chars[0] != '/' || (chars.len() > 1 && chars[1] == '/') {
        return Err(PathError::NotUnderRoot);
    }
    let tail = copy_range(chars.as_slice(), 1, chars.len());
    assert(tail@ =~= absolute@.skip(1));
    let relative = string_of(tail.as_slice());
    let root = match user_cache {
        Some(root) => root,
        None => {
            return Err(PathError::NoCacheDir);
        },
    };
    let namespace = crate::paths::join(root.as_str(), CACHE_NAMESPACE);
    Ok(crate::paths::join(namespace.as_str(), relative.as_str()))
}

/// The cache directory of a script under the cache directory of the user
/// who runs this process: that of `cache_path_under` for whatever the
/// user's cache directory is found to be.
pub fn build_cache_path(script_path: &str, canonical: Option<String>) -> (r: Result<String, PathError>)
    ensures
        exists|user_cache: Option<Seq<char>>|
            path_view(r) == #[trigger] cache_path_of(script_path@, opt_view(canonical), user_cache),
{
    let user_cache = user_cache_dir();
    let ghost found = opt_view(user_cache);
    let r = cache_path_under(script_path, canonical, user_cache);
    assert(path_view(r) == cache_path_of(script_path@, opt_view(canonical), found));
    r
}

/// How a command ended badly.
#[derive(Debug, Clone, Copy, PartialEq, Eq)]
pub enum CommandError {
    /// It exited with this code, which is not zero.
    Failed { code: i32 },
    /// A signal ended it; there is no exit code.
    Signalled,
}

/// The verdict on a finished command.
pub open spec fn command_verdict(success: bool, code: Option<i32>) -> Result<(), CommandError> {
    if success {
        Ok(())
    } else {
        match code {
            Some(code) => Err(CommandError::Failed { code }),
            None => Err(CommandError::Signalled),
        }
    }
}

/// Judges a finished command by whether it reports success and by its exit
/// code: a command that did not succeed failed with its code, or was ended
/// by a signal if it has none.
pub fn run_command(success: bool, code: Option<i32>) -> (r: Result<(), CommandError>)
    ensures
        r == command_verdict(success, code),
{
    if success {
        Ok(())
    } else {
        match code {
            Some(code) => Err(CommandError::Failed { code }),
            None => Err(CommandError::Signalled),
        }
    }
}

} // verus!
