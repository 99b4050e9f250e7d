//! Paths as text with forward slashes: the last component, the path below a
//! root, and the joining of a root with a relative path.

use crate::text::{
    after_last_char, chars_eq, find_after_last, has_prefix, starts_with, string_of_range, to_chars,
};
use vstd::prelude::*;
use vstd::string::StringExecFns;

verus! {

/// The last component of a path: what follows the last slash.
pub open spec fn base_name_of(path: Seq<char>) -> Seq<char> {
    path.subrange(after_last_char(path, '/', path.len() as int), path.len() as int)
}

/// Whether a path starts at the root of the file system.
pub open spec fn is_absolute(path: Seq<char>) -> bool {
    path.len() > 0 && path[0] == '/'
}

/// `root` with a slash at its end.
pub open spec fn with_slash(root: Seq<char>) -> Seq<char> {
    if root.len() > 0 && root.last() == '/' {
        root
    } else {
        root + seq!['/']
    }
}

/// The path `relative` below `root`; an absolute path stands for itself.
pub open spec fn joined(root: Seq<char>, relative: Seq<char>) -> Seq<char> {
    if is_absolute(relative) {
        relative
    } else if root.len() == 0 {
        relative
    } else {
        with_slash(root) + relative
    }
}

/// The path as seen from `root`: what follows the root and its slash where
/// the path lies below the root, nothing where it is the root, else the
/// path itself.
pub open spec fn relative_to(path: Seq<char>, root: Seq<char>) -> Seq<char> {
    if path == root || path + seq!['/'] == root {
        Seq::empty()
    } else if root.len() > 0 && has_prefix(path, with_slash(root)) {
        path.subrange(with_slash(root).len() as int, path.len() as int)
    } else {
        path
    }
}

/// The last component of a path.
pub fn file_name(path: &str) -> (name: String)
    ensures
        name@ == base_name_of(path@),
{
    let chars = to_chars(path);
    let start: usize = find_after_last(&chars, '/');
    string_of_range(&chars, start, chars.len())
}

/// Whether a path starts at the root of the file system.
pub fn path_is_absolute(path: &str) -> (r: bool)
    ensures
        r == is_absolute(path@),
{
    let chars = to_chars(path);
    chars.len() > 0 && chars[0] == '/'
}

/// `root` with a slash at its end.
fn slashed(root: &Vec<char>) -> (r: Vec<char>)
    ensures
        r@ == with_slash(root@),
{
    let mut r: Vec<char> = Vec::new();
    let mut i: usize = 0;
    while i < root.len()
        invariant
            i <= root.len(),
            r@ == root@.take(i as int),
        decreases root.len() - i,
    {
        r.push(root[i]);
        assert(r@ =~= root@.take(i + 1));
        i += 1;
    }
    assert(root@.take(root.len() as int) =~= root@);
    if root.len() == 0 || root[root.len() - 1] != '/' {
        r.push('/');
        assert(r@ =~= root@ + seq!['/']);
    }
    r
}

/// The path `relative` below `root`.
pub fn join_path(root: &str, relative: &str) -> (path: String)
    ensures
        path@ == joined(root@, relative@),
{
    let rel = to_chars(relative);
    if rel.len() > 0 && rel[0] == '/' {
        return String::from_str(relative);
    }
    let base = to_chars(root);
    if base.len() == 0 {
        return String::from_str(relative);
    }
    let head = slashed(&base);
    let mut path: String = string_of_range(&head, 0, head.len());
    assert(head@.subrange(0, head.len() as int) =~= head@);
    path.append(relative);
    path
}

/// The path as seen from `root`.
pub fn strip_root(path: &str, root: &str) -> (rest: String)
    ensures
        rest@ == relative_to(path@, root@),
{
    let chars = to_chars(path);
    let base = to_chars(root);
    if chars_eq(&chars, &base) {
        return String::new();
    }
    let mut with_end: Vec<char> = Vec::new();
    let mut i: usize = 0;
    while i < chars.len()
        invariant
            i <= chars.len(),
            with_end@ == chars@.take(i as int),
        decreases chars.len() - i,
    {
        with_end.push(chars[i]);
        assert(with_end@ =~= chars@.take(i + 1));
        i += 1;
    }
    assert(chars@.take(chars.len() as int) =~= chars@);
    with_end.push('/');
    assert(with_end@ =~= chars@ + seq!['/']);
    if chars_eq(&with_end, &base) {
        return String::new();
    }
    if base.len() == 0 {
        return String::from_str(path);
    }
    let head = slashed(&base);
    if starts_with(&chars, &head) {
        string_of_range(&chars, head.len(), chars.len())
    } else {
        String::from_str(path)
    }
}

} // verus!
