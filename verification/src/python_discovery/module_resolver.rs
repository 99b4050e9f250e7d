//! From a dotted module path to the source file of the module.

use crate::paths::{join_path, joined, relative_to, strip_root};
use crate::python_discovery::stdlib::{in_standard_library, is_stdlib_module_to_skip};
use crate::text::{
    ends_with, has_suffix, join, join_strings, opt_text, split, split_on, str_eq, string_of_range,
    texts, to_chars,
};
use vstd::prelude::*;
use vstd::string::StringExecFns;

verus! {

/// Resolves dotted module paths below a collection root.
#[derive(Debug, Clone)]
pub struct ModuleResolver {
    pub root: String,
}

/// The files that may hold the module, in the order in which they are
/// tried: the module as a file, then the module as a package.
pub open spec fn candidate_files(root: Seq<char>, module: Seq<Seq<char>>) -> Seq<Seq<char>> {
    seq![
        joined(root, join(module, "/"@) + ".py"@),
        joined(root, join(module, "/"@) + "/__init__.py"@),
    ]
}

/// The first of the first `n` candidates that exists; a candidate without
/// a flag counts as missing.
pub open spec fn first_existing(exists: Seq<bool>, n: int) -> Option<int>
    decreases n,
{
    if n <= 0 {
        None
    } else {
        match first_existing(exists, n - 1) {
            Some(i) => Some(i),
            None => if n - 1 < exists.len() && exists[n - 1] {
                Some(n - 1)
            } else {
                None
            },
        }
    }
}

/// The file of a module: none for a module of the standard library, else
/// the first candidate that exists.
pub open spec fn chosen_file(in_stdlib: bool, candidates: Seq<Seq<char>>, exists: Seq<bool>) -> Option<
    Seq<char>,
> {
    if in_stdlib {
        None
    } else {
        match first_existing(exists, candidates.len() as int) {
            Some(i) => Some(candidates[i]),
            None => None,
        }
    }
}

/// A path below the root without the components that name no directory
/// or file: empty ones, `.` and `..`.
pub open spec fn is_normal_component(part: Seq<char>) -> bool {
    part.len() > 0 && part != "."@ && part != ".."@
}

/// The normal components among the first `n`.
pub open spec fn normal_components(parts: Seq<Seq<char>>, n: int) -> Seq<Seq<char>>
    decreases n,
{
    if n <= 0 {
        Seq::empty()
    } else {
        let before = normal_components(parts, n - 1);
        if is_normal_component(parts[n - 1]) {
            before.push(parts[n - 1])
        } else {
            before
        }
    }
}

/// The dotted path of the module that the components name: the last
/// component loses its `.py`, and the `__init__` of a package is left out.
pub open spec fn module_of_components(components: Seq<Seq<char>>) -> Seq<Seq<char>> {
    if components.len() == 0 {
        components
    } else if has_suffix(components.last(), ".py"@) {
        let stem = components.last().subrange(0, components.last().len() - 3);
        if stem == "__init__"@ {
            components.drop_last()
        } else {
            components.drop_last().push(stem)
        }
    } else {
        components
    }
}

/// The dotted path of the module in the file `file`, seen from `root`.
pub open spec fn module_of_file(file: Seq<char>, root: Seq<char>) -> Seq<Seq<char>> {
    let parts = split_on(relative_to(file, root), '/', 0);
    module_of_components(normal_components(parts, parts.len() as int))
}

/// The file among the candidates that holds a module: none for a module
/// of the standard library, which is skipped without error, else the first
/// candidate that exists.
pub fn choose_candidate(in_stdlib: bool, candidates: Vec<String>, exists: &Vec<bool>) -> (file:
    Option<String>)
    ensures
        opt_text(file) == chosen_file(in_stdlib, texts(candidates@), exists@),
{
    if in_stdlib {
        return None;
    }
    let mut i: usize = 0;
    while i < candidates.len()
        invariant
            i <= candidates.len(),
            !in_stdlib,
            first_existing(exists@, i as int) is None,
        decreases candidates.len() - i,
    {
        if i < exists.len() && exists[i] {
            proof {
                assert(first_existing(exists@, i + 1) == Some(i as int));
                lemma_first_existing_stays(exists@, i + 1, candidates@.len() as int);
                assert(texts(candidates@)[i as int] == candidates@[i as int]@);
            }
            return Some(candidates[i].clone());
        }
        i += 1;
    }
    None
}

/// Once a candidate exists, it stays the first that does.
pub proof fn lemma_first_existing_stays(exists: Seq<bool>, n: int, m: int)
    requires
        n <= m,
        first_existing(exists, n) is Some,
    ensures
        first_existing(exists, m) == first_existing(exists, n),
    decreases m - n,
{
    if n < m {
        lemma_first_existing_stays(exists, n, m - 1);
    }
}

impl ModuleResolver {
    /// A resolver for the root.
    pub fn new(root: &str) -> (resolver: ModuleResolver)
        ensures
            resolver.root@ == root@,
    {
        ModuleResolver { root: String::from_str(root) }
    }

    /// The files that may hold the module, in the order in which they are
    /// tried.
    pub fn candidates(&self, module: &Vec<String>) -> (files: Vec<String>)
        ensures
            texts(files@) == candidate_files(self.root@, texts(module@)),
    {
        let stem = join_strings(module, "/");
        let mut as_file = stem.clone();
        as_file.append(".py");
        let mut as_package = stem;
        as_package.append("/__init__.py");
        let mut files: Vec<String> = Vec::new();
        files.push(join_path(self.root.as_str(), as_file.as_str()));
        files.push(join_path(self.root.as_str(), as_package.as_str()));
        assert(texts(files@) =~= candidate_files(self.root@, texts(module@)));
        files
    }

    /// The file of the module, where `exists[i]` tells whether the
    /// candidate number `i` exists.
    pub fn resolve(&self, module: &Vec<String>, exists: &Vec<bool>) -> (file: Option<String>)
        ensures
            opt_text(file) == chosen_file(
                in_standard_library(texts(module@)),
                candidate_files(self.root@, texts(module@)),
                exists@,
            ),
    {
        let in_stdlib: bool = is_stdlib_module_to_skip(module);
        choose_candidate(in_stdlib, self.candidates(module), exists)
    }
}

/// The dotted path of the module in the file `file_path`, seen from
/// `root_path`.
pub fn path_to_module_path(file_path: &str, root_path: &str) -> (module: Vec<String>)
    ensures
        texts(module@) == module_of_file(file_path@, root_path@),
{
    let relative = strip_root(file_path, root_path);
    let parts = split(relative.as_str(), '/');
    let ghost all = texts(parts@);
    let mut components: Vec<String> = Vec::new();
    let mut i: usize = 0;
    assert(texts(components@) =~= normal_components(all, 0));
    while i < parts.len()
        invariant
            i <= parts.len(),
            all == texts(parts@),
            texts(components@) == normal_components(all, i as int),
        decreases parts.len() - i,
    {
        let ghost before = texts(components@);
        assert(all[i as int] == parts@[i as int]@);
        let part = &parts[i];
        let empty: bool = str_eq(part.as_str(), "");
        proof {
            reveal_strlit("");
            assert(""@.len() == 0);
            assert(empty == (part@.len() == 0)) by {
                if part@.len() == 0 {
                    assert(part@ =~= ""@);
                }
            }
        }
        if !empty && !str_eq(part.as_str(), ".") && !str_eq(part.as_str(), "..") {
            components.push(part.clone());
            assert(texts(components@) =~= before.push(part@));
        }
        i += 1;
    }
    if components.len() == 0 {
        return components;
    }
    let last_index: usize = components.len() - 1;
    let last = to_chars(components[last_index].as_str());
    let suffix = to_chars(".py");
    proof {
        reveal_strlit(".py");
        assert(".py"@.len() == 3);
    }
    let ghost full = texts(components@);
    assert(full.last() == last@);
    if ends_with(&last, &suffix) {
        let stem = string_of_range(&last, 0, last.len() - 3);
        let removed = components.pop();
        assert(texts(components@) =~= full.drop_last());
        if !str_eq(stem.as_str(), "__init__") {
            let ghost before = texts(components@);
            components.push(stem);
            assert(texts(components@) =~= before.push(stem@));
        }
    }
    components
}

} // verus!
