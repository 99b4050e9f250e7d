//! A service around one collection root: it keeps the root and the
//! configuration, checks paths, and flattens collected trees into node
//! identifiers, items or items with statistics.

use crate::collection::config::{default_norecursedirs, default_python_files, CollectionConfig};
use crate::collection::error::CollectionError;
use crate::collection::session::Session;
use crate::collection::types::Function;
use crate::collection_integration::{
    collect_tests_rust, errors_view, gather, harvest_first, nodeids, pass_files, saturating,
    Collected, CollectionErrors, Gathered,
};
use crate::paths::{join_path, joined};
use crate::text::texts;
use vstd::prelude::*;
use vstd::std_specs::convert::FromSpecImpl;
use vstd::string::StringExecFns;

verus! {

/// What can go wrong in the service.
#[derive(Debug, Clone)]
pub enum ServiceError {
    /// Collection failed.
    Collection(CollectionError),
    /// The service was asked for something that its configuration or its
    /// root does not allow.
    Configuration(String),
    /// Reading failed, with the text of the failure.
    Io(String),
}

impl ServiceError {
    /// The message shown for this error.
    pub open spec fn message(self) -> Seq<char> {
        match self {
            ServiceError::Collection(e) => "Collection error: "@ + e.message(),
            ServiceError::Configuration(text) => "Configuration error: "@ + text@,
            ServiceError::Io(text) => "IO error: "@ + text@,
        }
    }

    /// Renders the message.
    pub fn to_string(&self) -> (s: String)
        ensures
            s@ == self.message(),
    {
        match self {
            ServiceError::Collection(e) => {
                let mut s = String::from_str("Collection error: ");
                s.append(e.to_string().as_str());
                s
            },
            ServiceError::Configuration(text) => {
                let mut s = String::from_str("Configuration error: ");
                s.append(text.as_str());
                s
            },
            ServiceError::Io(text) => {
                let mut s = String::from_str("IO error: ");
                s.append(text.as_str());
                s
            },
        }
    }
}

impl From<CollectionError> for ServiceError {
    fn from(err: CollectionError) -> (r: ServiceError) {
        ServiceError::Collection(err)
    }
}

impl FromSpecImpl<CollectionError> for ServiceError {
    open spec fn obeys_from_spec() -> bool {
        true
    }

    open spec fn from_spec(err: CollectionError) -> ServiceError {
        ServiceError::Collection(err)
    }
}

/// A collected test: its node identifier and the item itself.
#[derive(Debug, Clone)]
pub struct CollectedTest {
    pub nodeid: String,
    pub function: Option<Function>,
}

/// The counts of a collection pass.
#[derive(Debug, Clone)]
pub struct CollectionStats {
    /// The modules met.
    pub total_files: usize,
    /// The items found.
    pub total_tests: usize,
    /// The nodes that could not be collected.
    pub total_errors: usize,
    /// How long the pass took, in milliseconds.
    pub duration_ms: u128,
}

impl Default for CollectionStats {
    fn default() -> (stats: CollectionStats)
        ensures
            stats.total_files == 0,
            stats.total_tests == 0,
            stats.total_errors == 0,
            stats.duration_ms == 0,
    {
        CollectionStats { total_files: 0, total_tests: 0, total_errors: 0, duration_ms: 0 }
    }
}

/// The collection service of one root.
pub struct TestCollectionService {
    rootpath: String,
    config: CollectionConfig,
}

/// The message for a path that does not exist.
pub open spec fn missing_path_message(path: Seq<char>) -> Seq<char> {
    "Path does not exist: "@ + path
}

/// Whether the path number `i` exists; a path without a flag counts as
/// missing.
pub open spec fn path_exists(exists: Seq<bool>, i: int) -> bool {
    0 <= i < exists.len() && exists[i]
}

/// The first of the first `n` paths that does not exist, if there is one.
pub open spec fn first_missing(exists: Seq<bool>, n: int) -> Option<int>
    decreases n,
{
    if n <= 0 {
        None
    } else {
        match first_missing(exists, n - 1) {
            Some(i) => Some(i),
            None => if path_exists(exists, n - 1) {
                None
            } else {
                Some(n - 1)
            },
        }
    }
}

impl TestCollectionService {
    /// The root of the service.
    pub closed spec fn root(self) -> Seq<char> {
        self.rootpath@
    }

    /// The configuration of the service.
    pub closed spec fn settings(self) -> CollectionConfig {
        self.config
    }

    /// A service for `rootpath` with the default configuration.
    pub fn new(rootpath: String) -> (service: TestCollectionService)
        ensures
            service.root() == rootpath@,
            service.settings().testpaths@.len() == 0,
            texts(service.settings().python_files@) == default_python_files(),
            texts(service.settings().python_classes@) == seq!["Test*"@],
            texts(service.settings().python_functions@) == seq!["test*"@],
            texts(service.settings().norecursedirs@) == default_norecursedirs(),
            service.settings().ignore_patterns@.len() == 0,
    {
        TestCollectionService { rootpath, config: CollectionConfig::default() }
    }

    /// A service for `rootpath` with the given configuration.
    pub fn with_config(rootpath: String, config: CollectionConfig) -> (service:
        TestCollectionService)
        ensures
            service.root() == rootpath@,
            service.settings() == config,
    {
        TestCollectionService { rootpath, config }
    }

    /// Replaces the configuration.
    pub fn set_config(&mut self, config: CollectionConfig)
        ensures
            final(self).root() == old(self).root(),
            final(self).settings() == config,
    {
        self.config = config;
    }

    /// The root of the service.
    pub fn rootpath(&self) -> (root: &str)
        ensures
            root@ == self.root(),
    {
        self.rootpath.as_str()
    }

    /// The configuration of the service.
    pub fn config(&self) -> (config: &CollectionConfig)
        ensures
            *config == self.settings(),
    {
        &self.config
    }

    /// A session for the root with the configuration of the service.
    pub fn create_session(&self) -> (session: Session)
        ensures
            session.rootpath@ == self.root(),
            session.config.same_entries(self.settings()),
    {
        Session { rootpath: self.rootpath.clone(), config: self.config.duplicate() }
    }

    /// The node identifiers of the items of the collected trees, with the
    /// errors met.
    pub fn collect_nodeids(&self, collectors: &Vec<Collected>) -> (r: Result<
        (Vec<String>, CollectionErrors),
        ServiceError,
    >)
        ensures
            r is Ok,
            texts(r->Ok_0.0@) == nodeids(
                harvest_first(collectors@, collectors@.len() as int, false).items,
            ),
            errors_view(r->Ok_0.1.errors@) == harvest_first(
                collectors@,
                collectors@.len() as int,
                false,
            ).failures,
            r->Ok_0.1.warnings@.len() == 0,
            texts(r->Ok_0.1.uncertain_files@) == pass_files(
                collectors@,
                collectors@.len() as int,
                false,
            ),
    {
        Ok(collect_tests_rust(collectors))
    }

    /// The items of the collected trees, with the errors met.
    pub fn collect_functions(&self, collectors: &Vec<Collected>) -> (r: Result<
        (Vec<Function>, CollectionErrors),
        ServiceError,
    >)
        ensures
            r is Ok,
            r->Ok_0.0@ == harvest_first(collectors@, collectors@.len() as int, false).items,
            errors_view(r->Ok_0.1.errors@) == harvest_first(
                collectors@,
                collectors@.len() as int,
                false,
            ).failures,
            r->Ok_0.1.warnings@.len() == 0,
            r->Ok_0.1.uncertain_files@.len() == 0,
    {
        let gathered = gather_all(collectors);
        let Gathered { functions, errors, uncertain, modules } = gathered;
        Ok((functions, CollectionErrors { errors, warnings: Vec::new(), uncertain_files: Vec::new() }))
    }

    /// The items of the collected trees with their node identifiers, the
    /// errors met, and the counts of the pass. `duration_ms` is the time
    /// that the pass took.
    pub fn collect_tests(&self, collectors: &Vec<Collected>, duration_ms: u128) -> (r: Result<
        (Vec<CollectedTest>, CollectionErrors, CollectionStats),
        ServiceError,
    >)
        ensures
            r is Ok,
            r->Ok_0.0@.len() == harvest_first(
                collectors@,
                collectors@.len() as int,
                false,
            ).items.len(),
            forall|i: int|
                0 <= i < r->Ok_0.0@.len() ==> {
                    &&& (#[trigger] r->Ok_0.0@[i]).function == Some(
                        harvest_first(collectors@, collectors@.len() as int, false).items[i],
                    )
                    &&& r->Ok_0.0@[i].nodeid@ == harvest_first(
                        collectors@,
                        collectors@.len() as int,
                        false,
                    ).items[i].nodeid@
                },
            errors_view(r->Ok_0.1.errors@) == harvest_first(
                collectors@,
                collectors@.len() as int,
                false,
            ).failures,
            r->Ok_0.1.warnings@.len() == 0,
            r->Ok_0.1.uncertain_files@.len() == 0,
            r->Ok_0.2.total_tests == r->Ok_0.0@.len(),
            r->Ok_0.2.total_errors == r->Ok_0.1.errors@.len(),
            r->Ok_0.2.total_files == saturating(
                harvest_first(collectors@, collectors@.len() as int, false).modules,
            ),
            r->Ok_0.2.duration_ms == duration_ms,
    {
        let gathered = gather_all(collectors);
        let Gathered { functions, errors, uncertain, modules } = gathered;
        let mut tests: Vec<CollectedTest> = Vec::new();
        let mut i: usize = 0;
        while i < functions.len()
            invariant
                i <= functions.len(),
                tests.len() == i,
                forall|k: int|
                    0 <= k < i ==> (#[trigger] tests@[k]).function == Some(functions@[k])
                        && tests@[k].nodeid@ == functions@[k].nodeid@,
            decreases functions.len() - i,
        {
            tests.push(
                CollectedTest {
                    nodeid: functions[i].nodeid.clone(),
                    function: Some(functions[i].duplicate()),
                },
            );
            i += 1;
        }
        let stats = CollectionStats {
            total_files: modules,
            total_tests: tests.len(),
            total_errors: errors.len(),
            duration_ms,
        };
        Ok((tests, CollectionErrors { errors, warnings: Vec::new(), uncertain_files: Vec::new() }, stats))
    }

    /// The paths below the root, if all of them exist. `exists[i]` tells
    /// whether the path number `i`, taken below the root, exists. The
    /// first path that does not exist is the error.
    pub fn validate_paths(&self, paths: &Vec<String>, exists: &Vec<bool>) -> (r: Result<
        Vec<String>,
        ServiceError,
    >)
        ensures
            match first_missing(exists@, paths@.len() as int) {
                None => {
                    &&& r is Ok
                    &&& r->Ok_0@.len() == paths@.len()
                    &&& forall|i: int|
                        0 <= i < paths@.len() ==> (#[trigger] r->Ok_0@[i])@ == joined(
                            self.root(),
                            paths@[i]@,
                        )
                },
                Some(i) => {
                    &&& r is Err
                    &&& r->Err_0 is Configuration
                    &&& r->Err_0->Configuration_0@ == missing_path_message(paths@[i]@)
                },
            },
    {
        let mut validated: Vec<String> = Vec::new();
        let mut i: usize = 0;
        while i < paths.len()
            invariant
                i <= paths.len(),
                validated.len() == i,
                first_missing(exists@, i as int) is None,
                forall|k: int|
                    0 <= k < i ==> (#[trigger] validated@[k])@ == joined(self.root(), paths@[k]@),
            decreases paths.len() - i,
        {
            let there: bool = i < exists.len() && exists[i];
            if !there {
                let mut message = String::from_str("Path does not exist: ");
                message.append(paths[i].as_str());
                proof {
                    lemma_first_missing_stays(exists@, i + 1, paths@.len() as int);
                }
                return Err(ServiceError::Configuration(message));
            }
            validated.push(join_path(self.rootpath.as_str(), paths[i].as_str()));
            i += 1;
        }
        Ok(validated)
    }
}

/// Once a path is missing, it stays the first missing one.
pub proof fn lemma_first_missing_stays(exists: Seq<bool>, n: int, m: int)
    requires
        n <= m,
        first_missing(exists, n) is Some,
    ensures
        first_missing(exists, m) == first_missing(exists, n),
    decreases m - n,
{
    if n < m {
        lemma_first_missing_stays(exists, n, m - 1);
    }
}

/// Walks the trees of a pass.
fn gather_all(collectors: &Vec<Collected>) -> (gathered: Gathered)
    ensures
        gathered.functions@ == harvest_first(collectors@, collectors@.len() as int, false).items,
        errors_view(gathered.errors@) == harvest_first(
            collectors@,
            collectors@.len() as int,
            false,
        ).failures,
        gathered.modules == saturating(
            harvest_first(collectors@, collectors@.len() as int, false).modules,
        ),
{
    let mut gathered = Gathered::new();
    let mut i: usize = 0;
    assert(gathered.functions@ =~= harvest_first(collectors@, 0, false).items);
    while i < collectors.len()
        invariant
            i <= collectors.len(),
            gathered.functions@ == harvest_first(collectors@, i as int, false).items,
            errors_view(gathered.errors@) == harvest_first(collectors@, i as int, false).failures,
            gathered.modules == saturating(harvest_first(collectors@, i as int, false).modules),
        decreases collectors.len() - i,
    {
        gather(&collectors[i], false, &mut gathered);
        i += 1;
    }
    gathered
}

} // verus!
