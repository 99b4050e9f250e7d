//! Discovery with inheritance across modules.
//!
//! A test class hands its test methods down to its subclasses, also where
//! the subclass lives in another module. Discovery follows base classes
//! through the import table of each module. It reads no file itself: where
//! it meets a module that it has not seen, it says which one, and goes on
//! once the module was handed in.

use crate::collection::error::{CollectionError, CollectionWarning};
use crate::python_discovery::ast::{Alias, ClassDef, Module, Stmt};
use crate::python_discovery::base_resolution::{
    class_view, collect_base_class_names, collect_defined_names, collect_imports_impl, defined_names, describe_class, from_module_parts, import_table, imported_base,
    resolve_relative_module_path, resolved_bases, table_view,
    ImportInfo, ImportView,
};
use crate::python_discovery::class_cache::{
    base_name, bases_view, depth_for, walk_depth, cache_view, is_overridden, keep_not_overridden, kept, law_override, methods_view,
    registry_view, walk_base, walk_from, BaseView, ClassView, MethodView, ModuleRecord,
    ModuleRecordView, ModuleStatus, ModuleStatusView, ResolvedBaseClass, Stop, StopView,
    TestClassInfo, TestMethodInfo, WalkState, WalkView,
};
use crate::python_discovery::discovery::{
    function_items, tests_view, visit_function, TestDiscoveryConfig, TestInfo,
    TestInfoView,
};
use crate::python_discovery::import_tracker::{ImportLog, ImportTracker};
use crate::python_discovery::parametrize::{infos_view, ParametrizeInfo, ParametrizeView};
use crate::python_discovery::stdlib::{is_stdlib_module_to_skip};
use crate::python_discovery::visitor::{
    append_tests, class_has_init, class_methods, collect_imports, collect_own_methods,
    module_imports,
};
use crate::text::{copy_option, copy_strings, split, texts};
use vstd::prelude::*;
use vstd::string::StringExecFns;

verus! {

/// A warning in the language of contracts.
pub struct WarningView {
    pub file_path: Seq<char>,
    pub line: usize,
    pub message: Seq<char>,
}

/// The warnings of a list in the language of contracts.
pub open spec fn warnings_view(warnings: Seq<CollectionWarning>) -> Seq<WarningView> {
    warnings.map_values(
        |w: CollectionWarning|
            WarningView { file_path: w.file_path@, line: w.line, message: w.message@ },
    )
}

/// Why discovery of a module cannot be completed now.
#[derive(Debug, Clone)]
pub enum Halt {
    /// The module named has to be handed in first.
    Need(Vec<String>),
    /// A module that a base class lives in cannot be used, with the reason.
    Fail(String),
}

/// A halt in the language of contracts.
pub enum HaltView {
    Need(Seq<Seq<char>>),
    Fail(Seq<char>),
}

/// What discovery has gathered so far.
#[derive(Debug, Clone)]
pub struct Progress {
    pub tests: Vec<TestInfo>,
    pub warnings: Vec<CollectionWarning>,
    pub halt: Option<Halt>,
}

/// Progress in the language of contracts.
pub struct ProgressView {
    pub items: Seq<TestInfoView>,
    pub warnings: Seq<WarningView>,
    pub halt: Option<HaltView>,
}

/// The halt in the language of contracts, if there is one.
pub open spec fn halt_view(halt: Option<Halt>) -> Option<HaltView> {
    match halt {
        Some(Halt::Need(module)) => Some(HaltView::Need(texts(module@))),
        Some(Halt::Fail(reason)) => Some(HaltView::Fail(reason@)),
        None => None,
    }
}

impl View for Progress {
    type V = ProgressView;

    open spec fn view(&self) -> ProgressView {
        ProgressView {
            items: tests_view(self.tests@),
            warnings: warnings_view(self.warnings@),
            halt: halt_view(self.halt),
        }
    }
}

/// What discovery of one module works with.
pub struct Scene<'a> {
    pub config: &'a TestDiscoveryConfig,
    /// The names bound to the host framework.
    pub tracker: &'a ImportTracker,
    /// The module's imports.
    pub table: &'a Vec<ImportInfo>,
    /// The classes known, those of the module itself last.
    pub cache: &'a Vec<TestClassInfo>,
    /// The modules known.
    pub registry: &'a Vec<ModuleRecord>,
    /// The dotted path of the module.
    pub current: &'a Vec<String>,
    /// The path of the module's file.
    pub path: &'a str,
}

/// A scene in the language of contracts.
pub struct SceneView {
    pub config: TestDiscoveryConfig,
    pub imports: ImportLog,
    pub table: Seq<ImportView>,
    pub cache: Seq<ClassView>,
    pub registry: Seq<ModuleRecordView>,
    pub current: Seq<Seq<char>>,
    pub path: Seq<char>,
}

impl<'a> View for Scene<'a> {
    type V = SceneView;

    open spec fn view(&self) -> SceneView {
        SceneView {
            config: *self.config,
            imports: self.tracker.log(),
            table: table_view(self.table@),
            cache: cache_view(self.cache@),
            registry: registry_view(self.registry@),
            current: texts(self.current@),
            path: self.path@,
        }
    }
}

/// The items of the test functions among the first `n` statements.
pub open spec fn functions_upto(config: TestDiscoveryConfig, imports: ImportLog, body: Seq<Stmt>, n: int) -> Seq<
    TestInfoView,
>
    decreases n,
{
    if n <= 0 {
        Seq::empty()
    } else {
        let before = functions_upto(config, imports, body, n - 1);
        match body[n - 1] {
            Stmt::FunctionDef(func) => if config.accepts_function(func.name@) {
                before + function_items(imports, func, None, Seq::empty(), false, false)
            } else {
                before
            },
            _ => before,
        }
    }
}

/// The walks from the first `n` direct bases of a class, each from a fresh
/// state. The walks end with the first one that finds an initializer or
/// cannot go on.
pub open spec fn direct_walks(
    cache: Seq<ClassView>,
    registry: Seq<ModuleRecordView>,
    bases: Seq<BaseView>,
    n: int,
) -> (Seq<MethodView>, WalkView)
    decreases n,
{
    if n <= 0 {
        (Seq::empty(), WalkView::fresh())
    } else {
        let before = direct_walks(cache, registry, bases, n - 1);
        if before.1.halted() {
            before
        } else {
            let next = walk_from(
                cache,
                registry,
                bases[n - 1],
                WalkView::fresh(),
                walk_depth(cache.len()),
            );
            (before.0 + next.0, next.1)
        }
    }
}

/// A method item collected under the class `class_name`.
pub open spec fn adopted(method: MethodView, class_name: Seq<char>) -> TestInfoView {
    TestInfoView {
        name: method.name,
        line: method.line,
        is_method: true,
        class_name: Some(class_name),
        is_parametrized: method.is_parametrized,
        has_uncertain_params: method.has_uncertain_params,
        xdist_group: method.xdist_group,
    }
}

/// The method items collected under the class `class_name`.
pub open spec fn adopt_all(methods: Seq<MethodView>, class_name: Seq<char>) -> Seq<TestInfoView> {
    methods.map_values(|m: MethodView| adopted(m, class_name))
}

/// The warning that a test class is left out because of its initializer:
/// it points at the line on which the class starts.
pub open spec fn init_warning(path: Seq<char>, class: ClassDef) -> WarningView {
    WarningView {
        file_path: path,
        line: class.line,
        message: "cannot collect test class '"@ + class.name@
            + "' because it has a __init__ constructor"@,
    }
}

/// What a walk's stop means for discovery.
pub open spec fn halt_of(stop: StopView) -> HaltView {
    match stop {
        StopView::NeedModule(module) => HaltView::Need(module),
        StopView::Failed(reason) => HaltView::Fail(reason),
    }
}

/// What a class statement adds.
///
/// A class that is no test class adds nothing. A test class that defines an
/// initializer, or inherits one, adds a warning. Any other test class adds
/// the items that its ancestors hand down, less those that its body
/// overrides, followed by its own.
pub open spec fn class_step(scene: SceneView, class: ClassDef, progress: ProgressView) -> ProgressView {
    if progress.halt is Some || !scene.config.accepts_class(class.name@) {
        progress
    } else if class.has_init() {
        ProgressView { warnings: progress.warnings.push(init_warning(scene.path, class)), ..progress }
    } else {
        match resolved_bases(scene.table, scene.current, class.bases@, class.bases@.len() as int) {
            Err(reason) => ProgressView { halt: Some(HaltView::Fail(reason)), ..progress },
            Ok(bases) => {
                let walked = direct_walks(scene.cache, scene.registry, bases, bases.len() as int);
                match walked.1.stop {
                    Some(stop) => ProgressView { halt: Some(halt_of(stop)), ..progress },
                    None => if walked.1.has_init {
                        ProgressView {
                            warnings: progress.warnings.push(init_warning(scene.path, class)),
                            ..progress
                        }
                    } else {
                        ProgressView {
                            items: progress.items + adopt_all(
                                kept(
                                    walked.0,
                                    defined_names(class),
                                ),
                                class.name@,
                            ) + class_methods(scene.config, scene.imports, class),
                            ..progress
                        }
                    },
                }
            },
        }
    }
}

/// What one imported name adds: where it is the name of a test class that
/// discovery knows, the items of that class, collected under its name.
pub open spec fn imported_step(
    scene: SceneView,
    module: Seq<Seq<char>>,
    level: usize,
    alias: Alias,
    progress: ProgressView,
) -> ProgressView {
    if progress.halt is Some || !scene.config.accepts_class(alias.name@) {
        progress
    } else {
        let import = ImportView {
            local: alias.local_name(),
            module,
            imported_name: alias.name@,
            relative_level: level,
        };
        match imported_base(import, scene.current, alias.name@) {
            Err(_) => progress,
            Ok(base) => {
                let walked = walk_from(
                    scene.cache,
                    scene.registry,
                    base,
                    WalkView::fresh(),
                    walk_depth(scene.cache.len()),
                );
                match walked.1.stop {
                    Some(stop) => ProgressView { halt: Some(halt_of(stop)), ..progress },
                    None => if walked.1.has_init {
                        progress
                    } else {
                        ProgressView {
                            items: progress.items + adopt_all(walked.0, alias.name@),
                            ..progress
                        }
                    },
                }
            },
        }
    }
}

/// What the first `n` names of a `from` import add.
pub open spec fn imported_upto(
    scene: SceneView,
    module: Seq<Seq<char>>,
    level: usize,
    names: Seq<Alias>,
    n: int,
    progress: ProgressView,
) -> ProgressView
    decreases n,
{
    if n <= 0 {
        progress
    } else {
        imported_step(
            scene,
            module,
            level,
            names[n - 1],
            imported_upto(scene, module, level, names, n - 1, progress),
        )
    }
}

/// What a statement adds, functions aside.
pub open spec fn stmt_step(scene: SceneView, stmt: Stmt, progress: ProgressView) -> ProgressView {
    match stmt {
        Stmt::ClassDef(class) => class_step(scene, class, progress),
        Stmt::ImportFrom { module, names, level } => imported_upto(
            scene,
            from_module_parts(module),
            level,
            names@,
            names@.len() as int,
            progress,
        ),
        _ => progress,
    }
}

/// What the first `n` statements add, functions aside.
pub open spec fn steps_upto(scene: SceneView, body: Seq<Stmt>, n: int, progress: ProgressView) -> ProgressView
    decreases n,
{
    if n <= 0 {
        progress
    } else {
        stmt_step(scene, body[n - 1], steps_upto(scene, body, n - 1, progress))
    }
}

/// What discovery gathers from a module in a scene: the items of the test
/// functions first, then what imported test classes and the module's own
/// classes add, in source order.
pub open spec fn scene_outcome(scene: SceneView, body: Seq<Stmt>) -> ProgressView {
    steps_upto(
        scene,
        body,
        body.len() as int,
        ProgressView {
            items: functions_upto(scene.config, scene.imports, body, body.len() as int),
            warnings: Seq::empty(),
            halt: None,
        },
    )
}

/// What discovery knows of the test classes among the first `n`
/// statements; the first failure where a base cannot be resolved. With
/// `every_class`, classes that are no test classes are told too.
pub open spec fn classes_upto(
    config: TestDiscoveryConfig,
    imports: ImportLog,
    table: Seq<ImportView>,
    current: Seq<Seq<char>>,
    body: Seq<Stmt>,
    n: int,
    every_class: bool,
) -> Result<Seq<ClassView>, Seq<char>>
    decreases n,
{
    if n <= 0 {
        Ok(Seq::empty())
    } else {
        match classes_upto(config, imports, table, current, body, n - 1, every_class) {
            Err(e) => Err(e),
            Ok(before) => match body[n - 1] {
                Stmt::ClassDef(class) => if every_class || config.accepts_class(class.name@) {
                    match class_view(config, imports, table, current, class) {
                        Err(e) => Err(e),
                        Ok(info) => Ok(before.push(info)),
                    }
                } else {
                    Ok(before)
                },
                _ => Ok(before),
            },
        }
    }
}

/// What discovery of a module gives, with the classes and modules known
/// so far.
pub open spec fn discovery_outcome(
    config: TestDiscoveryConfig,
    cache: Seq<ClassView>,
    registry: Seq<ModuleRecordView>,
    path: Seq<char>,
    module: Module,
    current: Seq<Seq<char>>,
) -> ProgressView {
    let imports = module_imports(module.body@);
    let table = import_table(module.body@);
    match classes_upto(config, imports, table, current, module.body@, module.body@.len() as int, false) {
        Err(reason) => ProgressView {
            items: Seq::empty(),
            warnings: Seq::empty(),
            halt: Some(HaltView::Fail(reason)),
        },
        Ok(own) => scene_outcome(
            SceneView { config, imports, table, cache: cache + own, registry, current, path },
            module.body@,
        ),
    }
}

/// The method items collected under the class `class_name`.
pub fn adopt(methods: &Vec<TestMethodInfo>, class_name: &str) -> (tests: Vec<TestInfo>)
    ensures
        tests_view(tests@) == adopt_all(methods_view(methods@), class_name@),
{
    let mut tests: Vec<TestInfo> = Vec::new();
    let mut i: usize = 0;
    while i < methods.len()
        invariant
            i <= methods.len(),
            tests.len() == i,
            forall|k: int| 0 <= k < i ==> (#[trigger] tests[k])@ == adopted(methods[k]@, class_name@),
        decreases methods.len() - i,
    {
        let method = &methods[i];
        tests.push(
            TestInfo {
                name: method.name.clone(),
                line: method.line,
                is_method: true,
                class_name: Some(String::from_str(class_name)),
                is_parametrized: method.is_parametrized,
                has_uncertain_params: method.has_uncertain_params,
                xdist_group: copy_option(&method.xdist_group),
            },
        );
        i += 1;
    }
    assert(tests_view(tests@) =~= adopt_all(methods_view(methods@), class_name@));
    tests
}

/// The items of the test functions at the top level of a module.
pub fn collect_module_functions(config: &TestDiscoveryConfig, tracker: &ImportTracker, module: &Module) -> (tests:
    Vec<TestInfo>)
    ensures
        tests_view(tests@) == functions_upto(
            *config,
            tracker.log(),
            module.body@,
            module.body@.len() as int,
        ),
{
    let no_infos: Vec<ParametrizeInfo> = Vec::new();
    assert(infos_view(no_infos@) =~= Seq::empty());
    let mut tests: Vec<TestInfo> = Vec::new();
    let mut i: usize = 0;
    assert(tests_view(tests@) =~= functions_upto(*config, tracker.log(), module.body@, 0));
    while i < module.body.len()
        invariant
            i <= module.body.len(),
            infos_view(no_infos@) == Seq::<ParametrizeView>::empty(),
            tests_view(tests@) == functions_upto(*config, tracker.log(), module.body@, i as int),
        decreases module.body.len() - i,
    {
        match &module.body[i] {
            Stmt::FunctionDef(func) => {
                if config.is_test_function(func.name.as_str()) {
                    let found = visit_function(tracker, func, &None, &no_infos, false, false);
                    append_tests(&mut tests, found);
                }
            },
            _ => {},
        }
        i += 1;
    }
    tests
}

/// The state at the start of a walk.
fn fresh_state() -> (state: WalkState)
    ensures
        state@ == WalkView::fresh(),
{
    let state = WalkState { visited: Vec::new(), has_init: false, stop: None };
    assert(state@.visited =~= Seq::<usize>::empty());
    state
}

/// Walks up from each direct base of a class, from left to right, until a
/// walk finds an initializer or cannot go on.
pub fn walk_direct_bases(
    cache: &Vec<TestClassInfo>,
    registry: &Vec<ModuleRecord>,
    bases: &Vec<ResolvedBaseClass>,
) -> (walked: (Vec<TestMethodInfo>, WalkState))
    ensures
        (methods_view(walked.0@), walked.1@) == direct_walks(
            cache_view(cache@),
            registry_view(registry@),
            bases_view(bases@),
            bases@.len() as int,
        ),
{
    let mut methods: Vec<TestMethodInfo> = Vec::new();
    let mut state = fresh_state();
    let mut i: usize = 0;
    assert(methods_view(methods@) =~= Seq::<MethodView>::empty());
    while i < bases.len()
        invariant
            i <= bases.len(),
            (methods_view(methods@), state@) == direct_walks(
                cache_view(cache@),
                registry_view(registry@),
                bases_view(bases@),
                i as int,
            ),
        decreases bases.len() - i,
    {
        let ghost before = methods_view(methods@);
        assert(bases_view(bases@)[i as int] == bases@[i as int]@);
        if !(state.has_init || state.stop.is_some()) {
            state = fresh_state();
            let mut next = walk_base(cache, registry, &bases[i], &mut state, depth_for(cache));
            let ghost added = methods_view(next@);
            methods.append(&mut next);
            assert(methods_view(methods@) =~= before + added);
        }
        i += 1;
    }
    (methods, state)
}

/// The warning that a test class is left out because of its initializer.
fn warn_about_init(path: &str, class: &ClassDef) -> (warning: CollectionWarning)
    ensures
        warnings_view(seq![warning]) == seq![init_warning(path@, *class)],
{
    let mut message = String::from_str("cannot collect test class '");
    message.append(class.name.as_str());
    message.append("' because it has a __init__ constructor");
    let warning = CollectionWarning { file_path: String::from_str(path), line: class.line, message };
    assert(warnings_view(seq![warning]) =~= seq![init_warning(path@, *class)]);
    warning
}

/// What a walk's stop means for discovery.
fn halt_from(stop: Stop) -> (halt: Halt)
    ensures
        halt_view(Some(halt)) == Some(halt_of(stop@)),
{
    match stop {
        Stop::NeedModule(module) => Halt::Need(module),
        Stop::Failed(reason) => Halt::Fail(reason),
    }
}

impl Progress {
    /// Adds a warning.
    pub fn warn(&mut self, warning: CollectionWarning)
        ensures
            final(self)@.items == old(self)@.items,
            final(self)@.halt == old(self)@.halt,
            final(self)@.warnings == old(self)@.warnings + warnings_view(seq![warning]),
    {
        self.warnings.push(warning);
        assert(warnings_view(self.warnings@) =~= warnings_view(old(self).warnings@) + warnings_view(
            seq![warning],
        ));
    }

    /// Adds items.
    pub fn add(&mut self, tests: Vec<TestInfo>)
        ensures
            final(self)@.warnings == old(self)@.warnings,
            final(self)@.halt == old(self)@.halt,
            final(self)@.items == old(self)@.items + tests_view(tests@),
    {
        append_tests(&mut self.tests, tests);
    }

    /// Ends discovery.
    pub fn stop(&mut self, halt: Halt)
        ensures
            final(self)@.warnings == old(self)@.warnings,
            final(self)@.items == old(self)@.items,
            final(self)@.halt == halt_view(Some(halt)),
    {
        self.halt = Some(halt);
    }
}

/// Adds what a class statement gives: the items that the class inherits
/// and defines, or a warning where the class or an ancestor defines an
/// initializer.
pub fn collect_class_tests(scene: &Scene, class: &ClassDef, progress: &mut Progress)
    ensures
        final(progress)@ == class_step(scene@, *class, old(progress)@),
{
    if progress.halt.is_some() || !scene.config.is_test_class(class.name.as_str()) {
        return ;
    }
    if class_has_init(class) {
        progress.warn(warn_about_init(scene.path, class));
        assert(progress@.warnings =~= old(progress)@.warnings.push(init_warning(scene@.path, *class)));
        return ;
    }
    let bases = match collect_base_class_names(class, scene.current, scene.table) {
        Ok(bases) => bases,
        Err(e) => {
            match e {
                CollectionError::ImportError(reason) => {
                    progress.stop(Halt::Fail(reason));
                },
                _ => {},
            }
            return ;
        },
    };
    let (inherited, state) = walk_direct_bases(scene.cache, scene.registry, &bases);
    match state.stop {
        Some(stop) => {
            progress.stop(halt_from(stop));
            return ;
        },
        None => {},
    }
    if state.has_init {
        progress.warn(warn_about_init(scene.path, class));
        assert(progress@.warnings =~= old(progress)@.warnings.push(init_warning(scene@.path, *class)));
        return ;
    }
    let defined = collect_defined_names(class);
    let handed = keep_not_overridden(inherited, &defined);
    let mut found = adopt(&handed, class.name.as_str());
    let own = collect_own_methods(scene.config, scene.tracker, class);
    append_tests(&mut found, own);
    progress.add(found);
    assert(progress@.items =~= old(progress)@.items + adopt_all(
        kept(methods_view(inherited@), defined_names(*class)),
        class.name@,
    ) + class_methods(scene@.config, scene@.imports, *class));
}

/// Adds what an imported name gives: where it names a test class that
/// discovery knows, the items of that class under its name.
pub fn collect_imported_class(
    scene: &Scene,
    module: &Vec<String>,
    level: usize,
    alias: &Alias,
    progress: &mut Progress,
)
    ensures
        final(progress)@ == imported_step(scene@, texts(module@), level, *alias, old(progress)@),
{
    if progress.halt.is_some() || !scene.config.is_test_class(alias.name.as_str()) {
        return ;
    }
    let target = match resolve_relative_module_path(scene.current, level, module) {
        Ok(target) => target,
        Err(_) => {
            return ;
        },
    };
    let in_stdlib: bool = is_stdlib_module_to_skip(&target);
    let base = ResolvedBaseClass {
        module: target,
        class_name: alias.name.clone(),
        is_local: false,
        in_stdlib,
    };
    let mut state = fresh_state();
    let methods = walk_base(
        scene.cache,
        scene.registry,
        &base,
        &mut state,
        depth_for(scene.cache),
    );
    match state.stop {
        Some(stop) => {
            progress.stop(halt_from(stop));
            return ;
        },
        None => {},
    }
    if state.has_init {
        return ;
    }
    progress.add(adopt(&methods, alias.name.as_str()));
}

/// Adds what a statement gives, functions aside.
pub fn collect_statement(scene: &Scene, stmt: &Stmt, progress: &mut Progress)
    ensures
        final(progress)@ == stmt_step(scene@, *stmt, old(progress)@),
{
    match stmt {
        Stmt::ClassDef(class) => {
            collect_class_tests(scene, class, progress);
        },
        Stmt::ImportFrom { module, names, level } => {
            let parts: Vec<String> = match module {
                Some(m) => split(m.as_str(), '.'),
                None => Vec::new(),
            };
            assert(texts(parts@) =~= from_module_parts(*module));
            let mut i: usize = 0;
            while i < names.len()
                invariant
                    i <= names.len(),
                    texts(parts@) == from_module_parts(*module),
                    progress@ == imported_upto(
                        scene@,
                        texts(parts@),
                        *level,
                        names@,
                        i as int,
                        old(progress)@,
                    ),
                decreases names.len() - i,
            {
                collect_imported_class(scene, &parts, *level, &names[i], progress);
                i += 1;
            }
        },
        _ => {},
    }
}

/// What discovery knows of the test classes of a module, or of all its
/// classes with `every_class`.
pub fn collect_test_classes(
    config: &TestDiscoveryConfig,
    tracker: &ImportTracker,
    table: &Vec<ImportInfo>,
    current: &Vec<String>,
    module: &Module,
    every_class: bool,
) -> (r: Result<Vec<TestClassInfo>, CollectionError>)
    ensures
        match r {
            Ok(classes) => classes_upto(
                *config,
                tracker.log(),
                table_view(table@),
                texts(current@),
                module.body@,
                module.body@.len() as int,
                every_class,
            ) == Ok::<Seq<ClassView>, Seq<char>>(cache_view(classes@)),
            Err(CollectionError::ImportError(reason)) => classes_upto(
                *config,
                tracker.log(),
                table_view(table@),
                texts(current@),
                module.body@,
                module.body@.len() as int,
                every_class,
            ) == Err::<Seq<ClassView>, Seq<char>>(reason@),
            Err(_) => false,
        },
{
    let mut classes: Vec<TestClassInfo> = Vec::new();
    let mut i: usize = 0;
    assert(cache_view(classes@) =~= Seq::<ClassView>::empty());
    while i < module.body.len()
        invariant
            i <= module.body.len(),
            classes_upto(
                *config,
                tracker.log(),
                table_view(table@),
                texts(current@),
                module.body@,
                i as int,
                every_class,
            ) == Ok::<Seq<ClassView>, Seq<char>>(cache_view(classes@)),
        decreases module.body.len() - i,
    {
        let ghost before = cache_view(classes@);
        match &module.body[i] {
            Stmt::ClassDef(class) => {
                if every_class || config.is_test_class(class.name.as_str()) {
                    match describe_class(config, tracker, table, current, class) {
                        Ok(info) => {
                            classes.push(info);
                            assert(cache_view(classes@) =~= before.push(info@));
                        },
                        Err(e) => {
                            proof {
                                lemma_class_failure_stays(
                                    *config,
                                    tracker.log(),
                                    table_view(table@),
                                    texts(current@),
                                    module.body@,
                                    i + 1,
                                    module.body@.len() as int,
                                    every_class,
                                );
                            }
                            return Err(e);
                        },
                    }
                }
            },
            _ => {},
        }
        i += 1;
    }
    Ok(classes)
}

/// Once a class cannot be described, the failure is the result, whatever
/// follows.
pub proof fn lemma_class_failure_stays(
    config: TestDiscoveryConfig,
    imports: ImportLog,
    table: Seq<ImportView>,
    current: Seq<Seq<char>>,
    body: Seq<Stmt>,
    n: int,
    m: int,
    every_class: bool,
)
    requires
        n <= m,
        classes_upto(config, imports, table, current, body, n, every_class) is Err,
    ensures
        classes_upto(config, imports, table, current, body, m, every_class) == classes_upto(
            config,
            imports,
            table,
            current,
            body,
            n,
            every_class,
        ),
    decreases m - n,
{
    if n < m {
        lemma_class_failure_stays(config, imports, table, current, body, n, m - 1, every_class);
    }
}

/// No item that a class takes over from its ancestors has a name that the
/// class body defines itself, whatever the ancestors hand down.
pub proof fn law_inherited_items_not_overridden(
    inherited: Seq<MethodView>,
    defined: Seq<Seq<char>>,
    class_name: Seq<char>,
)
    ensures
        forall|k: int|
            0 <= k < adopt_all(kept(inherited, defined), class_name).len() ==> !defined.contains(
                base_name(
                    (#[trigger] adopt_all(kept(inherited, defined), class_name)[k]).name,
                ),
            ),
{
    law_override(inherited, defined, inherited.len() as int);
    let rest = kept(inherited, defined);
    assert forall|k: int| 0 <= k < adopt_all(rest, class_name).len() implies !defined.contains(
        base_name(
            (#[trigger] adopt_all(rest, class_name)[k]).name,
        ),
    ) by {
        assert(!is_overridden(rest[k], defined));
    }
}

/// What discovery of a module ends with.
#[derive(Debug, Clone)]
pub enum Discovery {
    /// The items and the warnings of the module.
    Done { tests: Vec<TestInfo>, warnings: Vec<CollectionWarning> },
    /// The module named has to be handed in before discovery can go on.
    NeedModule(Vec<String>),
}

/// Discovery of test items with inheritance across modules.
pub struct SemanticTestDiscovery {
    config: TestDiscoveryConfig,
    class_cache: Vec<TestClassInfo>,
    registry: Vec<ModuleRecord>,
}

impl SemanticTestDiscovery {
    /// The classes known.
    pub closed spec fn classes(self) -> Seq<ClassView> {
        cache_view(self.class_cache@)
    }

    /// The modules known.
    pub closed spec fn modules(self) -> Seq<ModuleRecordView> {
        registry_view(self.registry@)
    }

    /// The patterns by which tests are told.
    pub closed spec fn patterns(self) -> TestDiscoveryConfig {
        self.config
    }

    /// A discovery task that knows no class and no module yet.
    pub fn new(config: TestDiscoveryConfig) -> (discovery: SemanticTestDiscovery)
        ensures
            discovery.patterns() == config,
            discovery.classes() == Seq::<ClassView>::empty(),
            discovery.modules() == Seq::<ModuleRecordView>::empty(),
    {
        let discovery = SemanticTestDiscovery {
            config,
            class_cache: Vec::new(),
            registry: Vec::new(),
        };
        assert(discovery.classes() =~= Seq::<ClassView>::empty());
        assert(discovery.modules() =~= Seq::<ModuleRecordView>::empty());
        discovery
    }

    fn record(&mut self, module: &Vec<String>, status: ModuleStatus)
        ensures
            final(self).patterns() == old(self).patterns(),
            final(self).classes() == old(self).classes(),
            final(self).modules() == old(self).modules().push(
                ModuleRecordView { module: texts(module@), status: status@ },
            ),
    {
        let record = ModuleRecord { module: copy_strings(module), status };
        self.registry.push(record);
        assert(self.modules() =~= old(self).modules().push(record@));
    }

    /// Notes that no source file was found for `module`: its classes count
    /// as unknown.
    pub fn mark_unavailable(&mut self, module: &Vec<String>)
        ensures
            final(self).patterns() == old(self).patterns(),
            final(self).classes() == old(self).classes(),
            final(self).modules() == old(self).modules().push(
                ModuleRecordView { module: texts(module@), status: ModuleStatusView::Unavailable },
            ),
    {
        self.record(module, ModuleStatus::Unavailable);
    }

    /// Notes that the source of `module` cannot be used: discovery of a
    /// module that builds on it fails with `reason`.
    pub fn mark_failed(&mut self, module: &Vec<String>, reason: &str)
        ensures
            final(self).patterns() == old(self).patterns(),
            final(self).classes() == old(self).classes(),
            final(self).modules() == old(self).modules().push(
                ModuleRecordView { module: texts(module@), status: ModuleStatusView::Failed(reason@) },
            ),
    {
        self.record(module, ModuleStatus::Failed(String::from_str(reason)));
    }

    /// Hands in a module that discovery asked for: all its classes become
    /// known. Where a base of one of them cannot be resolved, nothing
    /// becomes known and the module counts as failed.
    pub fn load_module(&mut self, module_parts: &Vec<String>, module: &Module) -> (r: Result<
        (),
        CollectionError,
    >)
        ensures
            final(self).patterns() == old(self).patterns(),
            match classes_upto(
                old(self).patterns(),
                module_imports(module.body@),
                import_table(module.body@),
                texts(module_parts@),
                module.body@,
                module.body@.len() as int,
                true,
            ) {
                Ok(classes) => {
                    &&& r is Ok
                    &&& final(self).classes() == old(self).classes() + classes
                    &&& final(self).modules() == old(self).modules().push(
                        ModuleRecordView {
                            module: texts(module_parts@),
                            status: ModuleStatusView::Loaded,
                        },
                    )
                },
                Err(reason) => {
                    &&& r == Err::<(), CollectionError>(
                        CollectionError::ImportError(r->Err_0->ImportError_0),
                    )
                    &&& r->Err_0->ImportError_0@ == reason
                    &&& final(self).classes() == old(self).classes()
                    &&& final(self).modules() == old(self).modules().push(
                        ModuleRecordView {
                            module: texts(module_parts@),
                            status: ModuleStatusView::Failed(reason),
                        },
                    )
                },
            },
    {
        let tracker = collect_imports(module);
        let table = collect_imports_impl(module);
        match collect_test_classes(&self.config, &tracker, &table, module_parts, module, true) {
            Ok(classes) => {
                let ghost added = cache_view(classes@);
                let mut classes = classes;
                self.class_cache.append(&mut classes);
                assert(self.classes() =~= old(self).classes() + added);
                self.record(module_parts, ModuleStatus::Loaded);
                Ok(())
            },
            Err(e) => {
                match e {
                    CollectionError::ImportError(reason) => {
                        self.record(module_parts, ModuleStatus::Failed(reason.clone()));
                        Err(CollectionError::ImportError(reason))
                    },
                    _ => Err(e),
                }
            },
        }
    }

    /// Discovers the test items of a module.
    ///
    /// The result is `Done` with the items in collection order and the
    /// warnings, or `NeedModule` with the module that a base class lives in
    /// and that has to be handed in first, or the failure of a module that
    /// the module builds on. What is known of classes and modules stays as
    /// it was.
    pub fn discover_tests(&mut self, path: &str, module: &Module, module_parts: &Vec<String>) -> (r:
        Result<Discovery, CollectionError>)
        ensures
            final(self).patterns() == old(self).patterns(),
            final(self).classes() == old(self).classes(),
            final(self).modules() == old(self).modules(),
            ({
                let outcome = discovery_outcome(
                    old(self).patterns(),
                    old(self).classes(),
                    old(self).modules(),
                    path@,
                    *module,
                    texts(module_parts@),
                );
                match r {
                    Ok(Discovery::Done { tests, warnings }) => {
                        &&& outcome.halt is None
                        &&& tests_view(tests@) == outcome.items
                        &&& warnings_view(warnings@) == outcome.warnings
                    },
                    Ok(Discovery::NeedModule(needed)) => outcome.halt == Some(
                        HaltView::Need(texts(needed@)),
                    ),
                    Err(CollectionError::ImportError(reason)) => outcome.halt == Some(
                        HaltView::Fail(reason@),
                    ),
                    Err(_) => false,
                }
            }),
    {
        let tracker = collect_imports(module);
        let table = collect_imports_impl(module);
        let own = match collect_test_classes(
            &self.config,
            &tracker,
            &table,
            module_parts,
            module,
            false,
        ) {
            Ok(own) => own,
            Err(e) => {
                return Err(e);
            },
        };
        let known: usize = self.class_cache.len();
        let ghost before = self.classes();
        let ghost added = cache_view(own@);
        let mut own = own;
        self.class_cache.append(&mut own);
        assert(self.classes() =~= before + added);
        let mut progress = Progress {
            tests: collect_module_functions(&self.config, &tracker, module),
            warnings: Vec::new(),
            halt: None,
        };
        assert(progress@.warnings =~= Seq::<WarningView>::empty());
        let scene = Scene {
            config: &self.config,
            tracker: &tracker,
            table: &table,
            cache: &self.class_cache,
            registry: &self.registry,
            current: module_parts,
            path,
        };
        let ghost start = progress@;
        let mut i: usize = 0;
        while i < module.body.len()
            invariant
                i <= module.body.len(),
                scene@ == (SceneView {
                    config: old(self).patterns(),
                    imports: module_imports(module.body@),
                    table: import_table(module.body@),
                    cache: before + added,
                    registry: old(self).modules(),
                    current: texts(module_parts@),
                    path: path@,
                }),
                progress@ == steps_upto(scene@, module.body@, i as int, start),
            decreases module.body.len() - i,
        {
            collect_statement(&scene, &module.body[i], &mut progress);
            i += 1;
        }
        self.class_cache.truncate(known);
        assert(self.classes() =~= before);
        match progress.halt {
            Some(Halt::Need(needed)) => Ok(Discovery::NeedModule(needed)),
            Some(Halt::Fail(reason)) => Err(CollectionError::ImportError(reason)),
            None => Ok(Discovery::Done { tests: progress.tests, warnings: progress.warnings }),
        }
    }
}

} // verus!
