//! The names that a module binds to the host test framework by import.

use crate::text::str_eq;
use vstd::prelude::*;
use vstd::string::StringExecFns;

verus! {

/// One recorded import: the local name and the full path it stands for.
#[derive(Debug, Clone)]
pub struct ImportEntry {
    pub alias: String,
    pub target: String,
}

/// The imports of a module in the order in which they were recorded. A
/// later import of a name replaces an earlier one.
#[derive(Debug, Clone)]
pub struct ImportTracker {
    imports: Vec<ImportEntry>,
}

/// Recorded imports in the language of contracts: pairs of the local name
/// and the full path it stands for, oldest first.
pub type ImportLog = Seq<(Seq<char>, Seq<char>)>;

/// What `name` stands for after the first `n` imports of `log`.
pub open spec fn resolved_upto(log: ImportLog, name: Seq<char>, n: int) -> Option<Seq<char>>
    decreases n,
{
    if n <= 0 {
        None
    } else if log[n - 1].0 == name {
        Some(log[n - 1].1)
    } else {
        resolved_upto(log, name, n - 1)
    }
}

/// What `name` stands for: the path of the latest import that binds it.
pub open spec fn resolution(log: ImportLog, name: Seq<char>) -> Option<Seq<char>> {
    resolved_upto(log, name, log.len() as int)
}

/// Whether `name` stands for the host framework's module.
pub open spec fn names_pytest(log: ImportLog, name: Seq<char>) -> bool {
    name == "pytest"@ || resolution(log, name) == Some("pytest"@)
}

/// Whether `name` stands for the host framework's marker namespace: an
/// import binds it to `pytest.mark`, under whatever local name.
pub open spec fn names_pytest_mark(log: ImportLog, name: Seq<char>) -> bool {
    resolution(log, name) == Some("pytest.mark"@)
}

impl ImportTracker {
    /// The recorded imports, oldest first.
    pub closed spec fn log(self) -> ImportLog {
        self.imports@.map_values(|e: ImportEntry| (e.alias@, e.target@))
    }

    /// What `name` stands for: the path of the latest import that binds it.
    pub open spec fn resolution(self, name: Seq<char>) -> Option<Seq<char>> {
        resolution(self.log(), name)
    }

    /// Whether `name` stands for the host framework's module.
    pub open spec fn names_pytest(self, name: Seq<char>) -> bool {
        names_pytest(self.log(), name)
    }

    /// Whether `name` stands for the host framework's marker namespace.
    pub open spec fn names_pytest_mark(self, name: Seq<char>) -> bool {
        names_pytest_mark(self.log(), name)
    }

    /// A tracker without imports.
    pub fn new() -> (tracker: ImportTracker)
        ensures
            tracker.log() == Seq::<(Seq<char>, Seq<char>)>::empty(),
    {
        let tracker = ImportTracker { imports: Vec::new() };
        assert(tracker.log() =~= Seq::<(Seq<char>, Seq<char>)>::empty());
        tracker
    }

    /// Records that `alias` stands for `target` from now on.
    pub fn add_import(&mut self, alias: &str, target: &str)
        ensures
            final(self).log() == old(self).log().push((alias@, target@)),
            final(self).resolution(alias@) == Some(target@),
            forall|other: Seq<char>|
                other != alias@ ==> final(self).resolution(other) == old(self).resolution(other),
    {
        let entry = ImportEntry {
            alias: String::from_str(alias),
            target: String::from_str(target),
        };
        self.imports.push(entry);
        proof {
            let before = old(self).log();
            let after = self.log();
            assert(after =~= before.push((alias@, target@)));
            assert forall|other: Seq<char>| other != alias@ implies self.resolution(other) == old(
                self,
            ).resolution(other) by {
                lemma_resolved_prefix(after, before, other, before.len() as int);
            }
        }
    }

    /// The full path that `name` stands for, if an import binds it.
    pub fn resolve(&self, name: &str) -> (r: Option<&str>)
        ensures
            match r {
                Some(path) => self.resolution(name@) == Some(path@),
                None => self.resolution(name@) is None,
            },
    {
        let mut n: usize = self.imports.len();
        while n > 0
            invariant
                n <= self.imports.len(),
                self.resolution(name@) == resolved_upto(self.log(), name@, n as int),
            decreases n,
        {
            assert(self.log()[n - 1] == (self.imports@[n - 1].alias@, self.imports@[n - 1].target@));
            if str_eq(self.imports[n - 1].alias.as_str(), name) {
                return Some(self.imports[n - 1].target.as_str());
            }
            n -= 1;
        }
        None
    }

    /// Whether `name` stands for the host framework's module: it is
    /// `pytest` itself or an alias of it.
    pub fn is_pytest(&self, name: &str) -> (r: bool)
        ensures
            r == self.names_pytest(name@),
    {
        if str_eq(name, "pytest") {
            return true;
        }
        match self.resolve(name) {
            Some(resolved) => str_eq(resolved, "pytest"),
            None => false,
        }
    }

    /// Whether `name` stands for the marker namespace of the host
    /// framework: `mark` imported from it, or any alias of that.
    pub fn is_pytest_mark(&self, name: &str) -> (r: bool)
        ensures
            r == self.names_pytest_mark(name@),
    {
        match self.resolve(name) {
            Some(resolved) => str_eq(resolved, "pytest.mark"),
            None => false,
        }
    }
}

/// Two logs that agree on their first `n` imports resolve a name alike
/// there.
pub proof fn lemma_resolved_prefix(
    a: ImportLog,
    b: ImportLog,
    name: Seq<char>,
    n: int,
)
    requires
        0 <= n <= a.len(),
        n <= b.len(),
        forall|i: int| 0 <= i < n ==> a[i] == b[i],
    ensures
        resolved_upto(a, name, n) == resolved_upto(b, name, n),
    decreases n,
{
    if n > 0 {
        lemma_resolved_prefix(a, b, name, n - 1);
    }
}

} // verus!
