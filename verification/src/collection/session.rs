//! The collection session: which paths are looked at, which entries of a
//! directory become collectors, and which items a module gives.
//!
//! The session decides; it reads nothing. The caller lists directories and
//! reads files, and hands the session what it found.

use crate::collection::config::{default_norecursedirs, default_python_files, CollectionConfig};
use crate::collection::types::{CollectorNode, Directory, Function, Location, Module};
use crate::paths::{base_name_of, file_name, join_path, joined, relative_to, strip_root};
use crate::pattern::{any_glob_matches, matches_any};
use crate::scheduler::{file_part, law_file_part_of_nodeid, separator};
use crate::python_discovery::discovery::{TestInfo, TestInfoView};
use crate::text::{
    contains, contains_text, copy_option, copy_strings, opt_text, str_eq, texts, to_chars,
};
use crate::collection::error::CollectionError;
use vstd::prelude::*;
use vstd::std_specs::iter::IteratorSpec;
use vstd::string::StringExecFns;

verus! {

/// What kind of thing a path names.
#[derive(Debug, Clone, Copy, PartialEq, Eq, Structural)]
pub enum PathKind {
    Directory,
    File,
    /// Neither a directory nor a regular file, or nothing at all.
    Other,
}

/// One entry of a directory listing.
#[derive(Debug, Clone)]
pub struct DirEntry {
    pub path: String,
    pub kind: PathKind,
}

/// Why a directory could not be listed.
#[derive(Debug, Clone)]
pub enum ListingFailure {
    /// Reading the directory is not permitted.
    PermissionDenied,
    /// Any other failure, with its text.
    Other(String),
}

/// The root of a collection pass.
#[derive(Debug, Clone)]
pub struct Session {
    pub rootpath: String,
    pub config: CollectionConfig,
}

/// The paths of the first `n` arguments: an absolute path as it is, a
/// relative one below the root.
pub open spec fn argument_paths(root: Seq<char>, args: Seq<Seq<char>>) -> Seq<Seq<char>> {
    Seq::new(args.len(), |i: int| joined(root, args[i]))
}

/// The root paths of a pass: the arguments where there are any; else the
/// test paths of the configuration file, below the root; else the test
/// paths of the session; else the root itself.
pub open spec fn root_paths(
    root: Seq<char>,
    session_paths: Seq<Seq<char>>,
    args: Seq<Seq<char>>,
    file_paths: Seq<Seq<char>>,
) -> Seq<Seq<char>> {
    if args.len() > 0 {
        argument_paths(root, args)
    } else if file_paths.len() > 0 {
        argument_paths(root, file_paths)
    } else if session_paths.len() == 0 {
        seq![root]
    } else {
        session_paths
    }
}

/// Whether the path contains one of the first `n` texts.
pub open spec fn contains_any(path: Seq<char>, patterns: Seq<Seq<char>>, n: int) -> bool {
    exists|i: int| 0 <= i < n && contains_text(path, #[trigger] patterns[i])
}

impl Session {
    /// Whether a path is left out: the bytecode cache, a path that
    /// contains an ignore pattern, and a directory whose name matches a
    /// pattern of directories that are not entered.
    pub open spec fn ignores(self, path: Seq<char>, is_dir: bool) -> bool {
        ||| base_name_of(path) == "__pycache__"@
        ||| contains_any(
            path,
            texts(self.config.ignore_patterns@),
            self.config.ignore_patterns@.len() as int,
        )
        ||| (is_dir && any_glob_matches(texts(self.config.norecursedirs@), base_name_of(path)))
    }

    /// Whether the name of the file matches a pattern of test modules.
    pub open spec fn accepts_file(self, path: Seq<char>) -> bool {
        any_glob_matches(texts(self.config.python_files@), base_name_of(path))
    }

    /// Whether a path becomes a collector: a directory or a test module
    /// that is not left out.
    pub open spec fn collects(self, path: Seq<char>, kind: PathKind) -> bool {
        match kind {
            PathKind::Directory => !self.ignores(path, true),
            PathKind::File => !self.ignores(path, false) && self.accepts_file(path),
            PathKind::Other => false,
        }
    }

    /// A session with the default configuration.
    pub fn new(rootpath: String) -> (session: Session)
        ensures
            session.rootpath == rootpath,
            texts(session.config.python_files@) == default_python_files(),
            texts(session.config.python_classes@) == seq!["Test*"@],
            texts(session.config.python_functions@) == seq!["test*"@],
            texts(session.config.norecursedirs@) == default_norecursedirs(),
            session.config.testpaths@.len() == 0,
            session.config.ignore_patterns@.len() == 0,
    {
        Session { rootpath, config: CollectionConfig::default() }
    }

    /// The root paths of the pass. `file_testpaths` are the test paths that
    /// the configuration file in the root declares.
    pub fn resolve_paths(&self, args: &Vec<String>, file_testpaths: &Vec<String>) -> (paths: Vec<
        String,
    >)
        ensures
            texts(paths@) == root_paths(
                self.rootpath@,
                texts(self.config.testpaths@),
                texts(args@),
                texts(file_testpaths@),
            ),
    {
        if args.len() > 0 {
            below_root(self.rootpath.as_str(), args)
        } else if file_testpaths.len() > 0 {
            below_root(self.rootpath.as_str(), file_testpaths)
        } else if self.config.testpaths.len() == 0 {
            let mut paths: Vec<String> = Vec::new();
            paths.push(self.rootpath.clone());
            assert(texts(paths@) =~= seq![self.rootpath@]);
            paths
        } else {
            copy_strings(&self.config.testpaths)
        }
    }

    /// Whether a path is left out of collection.
    pub fn should_ignore_path(&self, path: &str, is_dir: bool) -> (r: bool)
        ensures
            r == self.ignores(path@, is_dir),
    {
        let name = file_name(path);
        if str_eq(name.as_str(), "__pycache__") {
            return true;
        }
        let chars = to_chars(path);
        let ghost patterns = texts(self.config.ignore_patterns@);
        let mut i: usize = 0;
        while i < self.config.ignore_patterns.len()
            invariant
                i <= self.config.ignore_patterns.len(),
                chars@ == path@,
                patterns == texts(self.config.ignore_patterns@),
                !contains_any(path@, patterns, i as int),
            decreases self.config.ignore_patterns.len() - i,
        {
            let pattern = to_chars(self.config.ignore_patterns[i].as_str());
            assert(patterns[i as int] == pattern@);
            if contains(&chars, &pattern) {
                return true;
            }
            i += 1;
        }
        if is_dir {
            matches_any(&self.config.norecursedirs, name.as_str())
        } else {
            false
        }
    }

    /// Whether the file is a test module by its name.
    pub fn is_python_file(&self, path: &str) -> (r: bool)
        ensures
            r == self.accepts_file(path@),
    {
        let name = file_name(path);
        matches_any(&self.config.python_files, name.as_str())
    }

    /// The collector for a path, if the path becomes one: a directory
    /// collector for a directory, a module collector for a test module.
    pub fn collect_path(&self, path: &str, kind: PathKind) -> (node: Option<CollectorNode>)
        ensures
            node is Some == self.collects(path@, kind),
            match node {
                Some(CollectorNode::Directory(d)) => kind == PathKind::Directory && d.path@
                    == path@ && d.nodeid@ == relative_to(path@, self.rootpath@),
                Some(CollectorNode::Module(m)) => kind == PathKind::File && m.path@ == path@
                    && m.nodeid@ == relative_to(path@, self.rootpath@),
                Some(CollectorNode::Function(_)) => false,
                None => true,
            },
    {
        match kind {
            PathKind::Directory => {
                if self.should_ignore_path(path, true) {
                    None
                } else {
                    Some(
                        CollectorNode::Directory(Directory::new(path, self.rootpath.as_str())),
                    )
                }
            },
            PathKind::File => {
                if !self.should_ignore_path(path, false) && self.is_python_file(path) {
                    Some(CollectorNode::Module(Module::new(path, self.rootpath.as_str())))
                } else {
                    None
                }
            },
            PathKind::Other => None,
        }
    }
}

/// The paths below the root.
fn below_root(root: &str, paths: &Vec<String>) -> (out: Vec<String>)
    ensures
        texts(out@) == argument_paths(root@, texts(paths@)),
{
    let mut out: Vec<String> = Vec::new();
    let mut i: usize = 0;
    while i < paths.len()
        invariant
            i <= paths.len(),
            out.len() == i,
            forall|k: int| 0 <= k < i ==> (#[trigger] out[k])@ == joined(root@, paths[k]@),
        decreases paths.len() - i,
    {
        out.push(join_path(root, paths[i].as_str()));
        i += 1;
    }
    assert(texts(out@) =~= argument_paths(root@, texts(paths@)));
    out
}

impl Directory {
    /// The collector of a directory: its node identifier is its path as
    /// seen from the root.
    pub fn new(path: &str, rootpath: &str) -> (dir: Directory)
        ensures
            dir.path@ == path@,
            dir.nodeid@ == relative_to(path@, rootpath@),
    {
        Directory { path: String::from_str(path), nodeid: strip_root(path, rootpath) }
    }
}

impl Module {
    /// The collector of a module: its node identifier is its path as seen
    /// from the root.
    pub fn new(path: &str, rootpath: &str) -> (module: Module)
        ensures
            module.path@ == path@,
            module.nodeid@ == relative_to(path@, rootpath@),
    {
        Module { path: String::from_str(path), nodeid: strip_root(path, rootpath) }
    }
}

/// The node identifier of an item of a module: the module's identifier,
/// the class if there is one, and the item's name, parted by `::`.
pub open spec fn item_nodeid(module_nodeid: Seq<char>, test: TestInfoView) -> Seq<char> {
    match test.class_name {
        Some(class_name) => module_nodeid + "::"@ + class_name + "::"@ + test.name,
        None => module_nodeid + "::"@ + test.name,
    }
}

/// The file portion of an item's node identifier is the node identifier
/// of its module, provided that the latter holds no separator and does not
/// end in a colon.
pub proof fn law_item_names_its_module(module_nodeid: Seq<char>, test: TestInfoView)
    requires
        !contains_text(module_nodeid, separator()),
        module_nodeid.len() == 0 || module_nodeid.last() != ':',
    ensures
        file_part(item_nodeid(module_nodeid, test)) == module_nodeid,
{
    reveal_strlit("::");
    assert("::"@ =~= separator());
    match test.class_name {
        Some(class_name) => {
            let rest = class_name + "::"@ + test.name;
            law_file_part_of_nodeid(module_nodeid, rest);
            assert(item_nodeid(module_nodeid, test) =~= module_nodeid + separator() + rest);
        },
        None => {
            law_file_part_of_nodeid(module_nodeid, test.name);
        },
    }
}

/// The collector of a discovered item.
pub fn test_info_to_function(test: &TestInfo, module_file: &str, module_nodeid: &str) -> (function:
    Function)
    ensures
        function.name@ == test@.name,
        function.nodeid@ == item_nodeid(module_nodeid@, test@),
        function.location.path@ == module_file@,
        function.location.line == Some(test.line),
        function.location.name@ == test@.name,
        function.is_parametrized == test.is_parametrized,
        function.has_uncertain_params == test.has_uncertain_params,
        opt_text(function.xdist_group) == test@.xdist_group,
{
    let mut nodeid = String::from_str(module_nodeid);
    match &test.class_name {
        Some(class_name) => {
            nodeid.append("::");
            nodeid.append(class_name.as_str());
        },
        None => {},
    }
    nodeid.append("::");
    nodeid.append(test.name.as_str());
    Function {
        name: test.name.clone(),
        nodeid,
        location: Location {
            path: String::from_str(module_file),
            line: Some(test.line),
            name: test.name.clone(),
        },
        is_parametrized: test.is_parametrized,
        has_uncertain_params: test.has_uncertain_params,
        xdist_group: copy_option(&test.xdist_group),
    }
}

/// What collecting one root path gave.
#[derive(Debug)]
pub struct PathResult {
    pub path: String,
    pub result: Result<Vec<CollectorNode>, CollectionError>,
}

/// The collectors of the first `n` root paths that could be collected, in
/// the order of the paths.
pub open spec fn collected_upto(results: Seq<PathResult>, n: int) -> Seq<CollectorNode>
    decreases n,
{
    if n <= 0 {
        Seq::empty()
    } else {
        match results[n - 1].result {
            Ok(nodes) => collected_upto(results, n - 1) + nodes@,
            Err(_) => collected_upto(results, n - 1),
        }
    }
}

/// The first `n` root paths that could not be collected, each with its
/// error, in the order of the paths.
pub open spec fn failed_upto(results: Seq<PathResult>, n: int) -> Seq<(String, CollectionError)>
    decreases n,
{
    if n <= 0 {
        Seq::empty()
    } else {
        match results[n - 1].result {
            Ok(_) => failed_upto(results, n - 1),
            Err(e) => failed_upto(results, n - 1).push((results[n - 1].path, e)),
        }
    }
}

impl Session {
    /// Gathers what collecting the root paths gave: the collectors of all
    /// paths in the order of the paths, and the paths that failed with
    /// their errors. A path that fails does not end the pass.
    pub fn perform_collect(&self, results: Vec<PathResult>) -> (r: (
        Vec<CollectorNode>,
        Vec<(String, CollectionError)>,
    ))
        ensures
            r.0@ == collected_upto(results@, results@.len() as int),
            r.1@ == failed_upto(results@, results@.len() as int),
    {
        let total: usize = results.len();
        let mut collectors: Vec<CollectorNode> = Vec::new();
        let mut errors: Vec<(String, CollectionError)> = Vec::new();
        let mut i: usize = 0;
        for item in it: results
            invariant
                it.seq() == results@,
                it.seq().len() == total,
                i == it.index(),
                collectors@ == collected_upto(results@, i as int),
                errors@ == failed_upto(results@, i as int),
        {
            let PathResult { path, result } = item;
            match result {
                Ok(nodes) => {
                    let ghost before = collectors@;
                    let ghost added = nodes@;
                    let mut nodes = nodes;
                    collectors.append(&mut nodes);
                    assert(collectors@ =~= before + added);
                },
                Err(e) => {
                    errors.push((path, e));
                },
            }
            i += 1;
        }
        (collectors, errors)
    }
}

} // verus!
