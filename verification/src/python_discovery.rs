//! Discovery of test items from the syntax tree of a Python module, without
//! running any of its code.

pub mod ast;
pub mod base_resolution;
pub mod cases;
pub mod class_cache;
pub mod discovery;
pub mod ids;
pub mod import_tracker;
pub mod module_resolver;
pub mod parametrize;
pub mod semantic_analyzer;
pub mod stdlib;
pub mod visitor;

use crate::collection::error::CollectionError;
use crate::python_discovery::ast::Module;
use crate::python_discovery::discovery::{tests_view, TestDiscoveryConfig, TestInfo};
use crate::python_discovery::module_resolver::{module_of_file, path_to_module_path};
use crate::python_discovery::semantic_analyzer::{
    discovery_outcome, warnings_view, Discovery, HaltView, SemanticTestDiscovery,
};
use crate::python_discovery::visitor::{
    lemma_items_depend_on_texts, module_items, TestDiscoveryVisitor,
};
use crate::text::texts;
use vstd::prelude::*;
use vstd::string::StringExecFns;

verus! {

/// The message for a file that could not be parsed.
pub open spec fn parse_failure_message(path: Seq<char>, reason: Seq<char>) -> Seq<char> {
    "Failed to parse "@ + path + ": "@ + reason
}

/// The test items of one module, by the module alone. `parsed` is what the
/// parser made of the file at `path`: the module, or the reason why there
/// is none.
pub fn discover_tests(path: &str, parsed: &Result<Module, String>, config: &TestDiscoveryConfig) -> (r:
    Result<Vec<TestInfo>, CollectionError>)
    ensures
        match *parsed {
            Ok(module) => r is Ok && tests_view(r->Ok_0@) == module_items(*config, module),
            Err(reason) => r is Err && r->Err_0 is ParseError && r->Err_0->ParseError_0@
                == parse_failure_message(path@, reason@),
        },
{
    match parsed {
        Ok(module) => {
            let mut visitor = TestDiscoveryVisitor::new(config);
            visitor.visit_module(module);
            let tests = visitor.into_tests();
            proof {
                lemma_same_patterns(*config, visitor.patterns(), *module);
            }
            Ok(tests)
        },
        Err(reason) => {
            let mut message = String::from_str("Failed to parse ");
            message.append(path);
            message.append(": ");
            message.append(reason.as_str());
            Err(CollectionError::ParseError(message))
        },
    }
}

/// Patterns that hold the same texts find the same items.
pub proof fn lemma_same_patterns(a: TestDiscoveryConfig, b: TestDiscoveryConfig, module: Module)
    requires
        texts(a.python_classes@) == texts(b.python_classes@),
        texts(a.python_functions@) == texts(b.python_functions@),
    ensures
        module_items(a, module) == module_items(b, module),
{
    lemma_items_depend_on_texts(a, b, module);
}

/// The test items of the module in the file `path` below `root_path`, with
/// inheritance across modules. The result is that of
/// [`SemanticTestDiscovery::discover_tests`] for the module's dotted path.
pub fn discover_tests_with_inheritance(
    path: &str,
    module: &Module,
    root_path: &str,
    discovery: &mut SemanticTestDiscovery,
) -> (r: Result<Discovery, CollectionError>)
    ensures
        final(discovery).patterns() == old(discovery).patterns(),
        final(discovery).classes() == old(discovery).classes(),
        final(discovery).modules() == old(discovery).modules(),
        ({
            let outcome = discovery_outcome(
                old(discovery).patterns(),
                old(discovery).classes(),
                old(discovery).modules(),
                path@,
                *module,
                module_of_file(path@, root_path@),
            );
            match r {
                Ok(Discovery::Done { tests, warnings }) => {
                    &&& outcome.halt is None
                    &&& tests_view(tests@) == outcome.items
                    &&& warnings_view(warnings@) == outcome.warnings
                },
                Ok(Discovery::NeedModule(needed)) => outcome.halt == Some(
                    HaltView::Need(texts(needed@)),
                ),
                Err(CollectionError::ImportError(reason)) => outcome.halt == Some(
                    HaltView::Fail(reason@),
                ),
                Err(_) => false,
            }
        }),
{
    let module_parts = path_to_module_path(path, root_path);
    discovery.discover_tests(path, module, &module_parts)
}

} // verus!
