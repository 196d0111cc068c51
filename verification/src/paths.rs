//! File-system paths as strings.
//!
//! The library keeps every path as a `String`, in the form that paths have
//! on the Unix-like systems that the program is for: components separated
//! by `/`, absolute if the first character is `/`. Joining two paths and
//! telling whether a path may lead out of a directory are done here, on the
//! characters. What the last component of a path and the directory above
//! it are is asked of `std::path`; each answer is a function of the path
//! text alone, is given a name, and the function that asks is trusted to
//! return the named value.

use vstd::prelude::*;
use crate::text::{chars_of, copy_range, opt_view, string_of};

verus! {

/// What `Path::file_name` answers for a path: its final component, if the
/// path has one and does not end in `..`.
pub uninterp spec fn file_name_of(path: Seq<char>) -> Option<Seq<char>>;

/// What `Path::parent` answers for a path: the path without its final
/// component, if there is one.
pub uninterp spec fn parent_of(path: Seq<char>) -> Option<Seq<char>>;

/// `Path::file_name` of the path, as a string. Trusted to equal
/// `file_name_of`.
#[verifier::external_body]
pub(crate) fn file_name(path: &str) -> (r: Option<String>)
    ensures
        opt_view(r) == file_name_of(path@),
{
    match std::path::Path::new(path).file_name() {
        Some(name) => Some(name.to_string_lossy().into_owned()),
        None => None,
    }
}

/// `Path::parent` of the path, as a string. Trusted to equal `parent_of`.
#[verifier::external_body]
pub(crate) fn parent(path: &str) -> (r: Option<String>)
    ensures
        opt_view(r) == parent_of(path@),
{
    match std::path::Path::new(path).parent() {
        Some(dir) => Some(dir.to_string_lossy().into_owned()),
        None => None,
    }
}

/// The path is absolute: it begins at the root directory.
pub open spec fn is_absolute_path(path: Seq<char>) -> bool {
    path.len() > 0 && path[0] == '/'
}

/// `base` extended by `rel`: an absolute `rel` stands for itself; a
/// relative one follows `base`, after a separator unless `base` is empty or
/// ends in one.
pub open spec fn joined_path(base: Seq<char>, rel: Seq<char>) -> Seq<char> {
    if is_absolute_path(rel) {
        rel
    } else if base.len() > 0 && base.last() != '/' {
        base + seq!['/'] + rel
    } else {
        base + rel
    }
}

/// A component `..` begins at index `i` of the path: two dots, with the
/// start of the path or a separator before them and the end of the path or
/// a separator after them.
pub open spec fn parent_component_at(path: Seq<char>, i: int) -> bool {
    &&& 0 <= i
    &&& i + 2 <= path.len()
    &&& path[i] == '.'
    &&& path[i + 1] == '.'
    &&& (i == 0 || path[i - 1] == '/')
    &&& (i + 2 == path.len() || path[i + 2] == '/')
}

/// The path holds a component `..`, which leads to the directory above.
pub open spec fn has_parent_component(path: Seq<char>) -> bool {
    exists|i: int| parent_component_at(path, i)
}

/// The path may lead out of the directory that it is joined to: it is
/// absolute, or it holds a component `..`.
pub open spec fn escapes(path: Seq<char>) -> bool {
    is_absolute_path(path) || has_parent_component(path)
}

/// A path that does not escape, joined to a directory, is the directory's
/// own text with the path after it.
pub proof fn lemma_joined_inside(base: Seq<char>, rel: Seq<char>)
    requires
        !escapes(rel),
    ensures
        base.is_prefix_of(joined_path(base, rel)),
        rel == joined_path(base, rel).skip(joined_path(base, rel).len() - rel.len()),
        joined_path(base, rel).len() <= base.len() + 1 + rel.len(),
{
    let joined = joined_path(base, rel);
    assert(joined.take(base.len() as int) =~= base);
    assert(joined.skip(joined.len() - rel.len()) =~= rel);
}

/// Joining to one directory keeps relative paths apart: two of them give
/// the same path only if they are the same.
pub proof fn lemma_joined_one_to_one(base: Seq<char>, a: Seq<char>, b: Seq<char>)
    requires
        !is_absolute_path(a),
        !is_absolute_path(b),
        joined_path(base, a) == joined_path(base, b),
    ensures
        a == b,
{
    let ja = joined_path(base, a);
    let jb = joined_path(base, b);
    let head = ja.len() - a.len();
    assert(a =~= ja.skip(head));
    assert(b =~= jb.skip(head));
}

/// Whether the path is absolute.
pub fn is_absolute(path: &str) -> (r: bool)
    ensures
        r == is_absolute_path(path@),
{
    let chars = chars_of(path);
    chars.len() > 0 && chars[0] == '/'
}

/// `base` extended by `rel`.
pub fn join(base: &str, rel: &str) -> (r: String)
    ensures
        r@ == joined_path(base@, rel@),
{
    if is_absolute(rel) {
        return String::from_str(rel);
    }
    let chars = chars_of(base);
    let mut r = String::from_str(base);
    if chars.len() > 0 && chars[chars.len() - 1] != '/' {
        proof {
            reveal_strlit("/");
            assert("/"@ =~= seq!['/']);
        }
        r.append("/");
    }
    r.append(rel);
    r
}

/// Whether the path holds a component `..`.
pub fn holds_parent_component(path: &str) -> (r: bool)
    ensures
        r == has_parent_component(path@),
{
    let chars = chars_of(path);
    if chars.len() < 2 {
        return false;
    }
    let last: usize = chars.len() - 2;
    let mut i: usize = 0;
    loop
        invariant
            i <= last,
            last == chars.len() - 2,
            chars@ == path@,
            forall|k: int| 0 <= k < i ==> !parent_component_at(path@, k),
        decreases last - i,
    {
        if chars[i] == '.' && chars[i + 1] == '.' && (i == 0 || chars[i - 1] == '/') && (i == last
            || chars[i + 2] == '/') {
            assert(parent_component_at(path@, i as int));
            return true;
        }
        if i == last {
            return false;
        }
        i += 1;
    }
}

/// Whether the path may lead out of the directory that it is joined to.
pub fn may_escape(path: &str) -> (r: bool)
    ensures
        r == escapes(path@),
{
    is_absolute(path) || holds_parent_component(path)
}

/// The index of the last dot in a file name, or -1 if it has none.
pub open spec fn last_dot(name: Seq<char>) -> int
    decreases name.len(),
{
    if name.len() == 0 {
        -1
    } else if name.last() == '.' {
        name.len() - 1
    } else {
        last_dot(name.drop_last())
    }
}

/// The stem of a file name, as `Path::file_stem` has it: the whole name if
/// it has no dot, or none but a first one; else what comes before the last
/// dot.
pub open spec fn stem_of_name(name: Seq<char>) -> Seq<char> {
    if last_dot(name) <= 0 {
        name
    } else {
        name.take(last_dot(name))
    }
}

/// The extension of a file name, as `Path::extension` has it: none if the
/// name has no dot, or none but a first one; else what comes after the last
/// dot.
pub open spec fn extension_of_name(name: Seq<char>) -> Option<Seq<char>> {
    if last_dot(name) <= 0 {
        None
    } else {
        Some(name.skip(last_dot(name) + 1))
    }
}

/// `last_dot` is the place of a dot after which no dot comes.
pub proof fn lemma_last_dot(name: Seq<char>)
    ensures
        -1 <= last_dot(name) < name.len(),
        last_dot(name) >= 0 ==> name[last_dot(name)] == '.',
        forall|i: int| last_dot(name) < i < name.len() ==> name[i] != '.',
    decreases name.len(),
{
    if name.len() > 0 && name.last() != '.' {
        let rest = name.drop_last();
        lemma_last_dot(rest);
        assert forall|i: int| last_dot(name) < i < name.len() implies name[i] != '.' by {
            if i < rest.len() {
                assert(name[i] == rest[i]);
            }
        }
        if last_dot(name) >= 0 {
            assert(name[last_dot(name)] == rest[last_dot(name)]);
        }
    }
}

fn last_dot_in(name: &Vec<char>) -> (r: Option<usize>)
    ensures
        match r {
            Some(i) => last_dot(name@) == i && i < name.len(),
            None => last_dot(name@) == -1,
        },
{
    proof {
        lemma_last_dot(name@);
    }
    let mut i: usize = name.len();
    assert(name@.take(i as int) =~= name@);
    while i > 0
        invariant
            i <= name.len(),
            last_dot(name@) == last_dot(name@.take(i as int)),
        decreases i,
    {
        assert(name@.take(i as int).last() == name@[i - 1]);
        assert(name@.take(i as int).drop_last() =~= name@.take(i - 1));
        if name[i - 1] == '.' {
            return Some(i - 1);
        }
        i -= 1;
    }
    None
}

/// The stem of a file name.
pub fn stem(name: &str) -> (r: String)
    ensures
        r@ == stem_of_name(name@),
{
    let chars = chars_of(name);
    match last_dot_in(&chars) {
        Some(dot) => {
            if dot == 0 {
                String::from_str(name)
            } else {
                let head = copy_range(chars.as_slice(), 0, dot);
                assert(head@ =~= name@.take(dot as int));
                string_of(head.as_slice())
            }
        },
        None => String::from_str(name),
    }
}

/// The extension of a file name.
pub fn extension(name: &str) -> (r: Option<String>)
    ensures
        opt_view(r) == extension_of_name(name@),
{
    let chars = chars_of(name);
    match last_dot_in(&chars) {
        Some(dot) => {
            if dot == 0 {
                None
            } else {
                let tail = copy_range(chars.as_slice(), dot + 1, chars.len());
                assert(tail@ =~= name@.skip(dot + 1));
                Some(string_of(tail.as_slice()))
            }
        },
        None => None,
    }
}

} // verus!
