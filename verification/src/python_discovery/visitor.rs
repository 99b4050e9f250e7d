//! Discovery within one module: test functions at the top level, test
//! classes without an initializer, and the methods that a class takes over
//! from a test class of the same module.

use crate::python_discovery::ast::{Alias, ClassDef, Expr, Module, Stmt};
use crate::python_discovery::base_resolution::{collect_defined_names, defined_names};
use crate::python_discovery::class_cache::{base_name, contains_text, method_base_name};
use crate::python_discovery::discovery::{
    expansions, extract_parametrize_decorators, function_items, has_parametrize_decorator,
    has_unreadable, has_unreadable_parametrize, is_marked, tests_view, visit_function, TestDiscoveryConfig,
    TestInfo, TestInfoView,
};
use crate::python_discovery::import_tracker::{ImportLog, ImportTracker};
use crate::python_discovery::parametrize::{infos_view, ParametrizeInfo};
use crate::text::{copy_option, opt_text, str_eq, texts};
use vstd::prelude::*;
use vstd::std_specs::iter::IteratorSpec;
use vstd::string::StringExecFns;

verus! {

/// What the first `n` names of `import ...` bind to the host framework:
/// the framework's module under its local name.
pub open spec fn import_entries(names: Seq<Alias>, n: int) -> ImportLog
    decreases n,
{
    if n <= 0 {
        Seq::empty()
    } else {
        let before = import_entries(names, n - 1);
        if names[n - 1].name@ == "pytest"@ {
            before.push((names[n - 1].local_name(), "pytest"@))
        } else {
            before
        }
    }
}

/// The full path of `name` imported from `module`, where `module` is the
/// host framework's module or its marker namespace.
pub open spec fn from_target(module: Seq<char>, name: Seq<char>) -> Option<Seq<char>> {
    if module == "pytest"@ {
        Some("pytest."@ + name)
    } else if module == "pytest.mark"@ {
        Some("pytest.mark."@ + name)
    } else {
        None
    }
}

/// What the first `n` names of `from module import ...` bind to the host
/// framework.
pub open spec fn from_entries(module: Seq<char>, names: Seq<Alias>, n: int) -> ImportLog
    decreases n,
{
    if n <= 0 {
        Seq::empty()
    } else {
        let before = from_entries(module, names, n - 1);
        match from_target(module, names[n - 1].name@) {
            Some(target) => before.push((names[n - 1].local_name(), target)),
            None => before,
        }
    }
}

/// What a statement binds to the host framework.
pub open spec fn stmt_imports(stmt: Stmt) -> ImportLog {
    match stmt {
        Stmt::Import(names) => import_entries(names@, names@.len() as int),
        Stmt::ImportFrom { module: Some(module), names, level } => from_entries(
            module@,
            names@,
            names@.len() as int,
        ),
        _ => Seq::empty(),
    }
}

/// What the first `n` statements bind to the host framework.
pub open spec fn module_imports_upto(body: Seq<Stmt>, n: int) -> ImportLog
    decreases n,
{
    if n <= 0 {
        Seq::empty()
    } else {
        module_imports_upto(body, n - 1) + stmt_imports(body[n - 1])
    }
}

/// What the module binds to the host framework.
pub open spec fn module_imports(body: Seq<Stmt>) -> ImportLog {
    module_imports_upto(body, body.len() as int)
}

/// A test class of the module with the items of its own methods.
#[derive(Debug, Clone)]
pub struct ClassRecord {
    pub name: String,
    pub methods: Vec<TestInfo>,
    pub has_init: bool,
}

/// A class record in the language of contracts.
pub struct ClassRecordView {
    pub name: Seq<char>,
    pub methods: Seq<TestInfoView>,
    pub has_init: bool,
}

impl View for ClassRecord {
    type V = ClassRecordView;

    open spec fn view(&self) -> ClassRecordView {
        ClassRecordView {
            name: self.name@,
            methods: tests_view(self.methods@),
            has_init: self.has_init,
        }
    }
}

/// The records of a list in the language of contracts.
pub open spec fn records_view(records: Seq<ClassRecord>) -> Seq<ClassRecordView> {
    records.map_values(|r: ClassRecord| r@)
}

/// The items of the test methods among the first `n` functions of a class
/// body, each with the class-level parametrize decorators applied.
pub open spec fn class_methods_upto(
    config: TestDiscoveryConfig,
    imports: ImportLog,
    class: ClassDef,
    n: int,
) -> Seq<TestInfoView>
    decreases n,
{
    if n <= 0 {
        Seq::empty()
    } else {
        let before = class_methods_upto(config, imports, class, n - 1);
        if config.accepts_function(class.body[n - 1].name@) {
            before + function_items(
                imports,
                class.body[n - 1],
                Some(class.name@),
                expansions(imports, class.decorators@),
                is_marked(imports, class.decorators@),
                has_unreadable(imports, class.decorators@),
            )
        } else {
            before
        }
    }
}

/// The items of the test methods that a class defines itself.
pub open spec fn class_methods(
    config: TestDiscoveryConfig,
    imports: ImportLog,
    class: ClassDef,
) -> Seq<TestInfoView> {
    class_methods_upto(config, imports, class, class.body@.len() as int)
}

/// Whether a class named `name` among the first `n` statements defines an
/// initializer.
pub open spec fn named_class_has_init(body: Seq<Stmt>, name: Seq<char>, n: int) -> bool {
    exists|i: int|
        0 <= i < n && (#[trigger] body[i]) is ClassDef && body[i]->ClassDef_0.name@ == name
            && body[i]->ClassDef_0.has_init()
}

/// The records of the test classes among the first `n` statements.
pub open spec fn records_upto(
    config: TestDiscoveryConfig,
    imports: ImportLog,
    body: Seq<Stmt>,
    n: int,
) -> Seq<ClassRecordView>
    decreases n,
{
    if n <= 0 {
        Seq::empty()
    } else {
        let before = records_upto(config, imports, body, n - 1);
        match body[n - 1] {
            Stmt::ClassDef(class) => if config.accepts_class(class.name@) {
                before.push(
                    ClassRecordView {
                        name: class.name@,
                        methods: class_methods(config, imports, class),
                        has_init: named_class_has_init(body, class.name@, body.len() as int),
                    },
                )
            } else {
                before
            },
            _ => before,
        }
    }
}

/// The latest record among the first `n` that has the name `name`.
pub open spec fn find_record(records: Seq<ClassRecordView>, name: Seq<char>, n: int) -> Option<
    ClassRecordView,
>
    decreases n,
{
    if n <= 0 {
        None
    } else if records[n - 1].name == name {
        Some(records[n - 1])
    } else {
        find_record(records, name, n - 1)
    }
}

/// The record of the test class of this module that `base` names.
pub open spec fn base_record(records: Seq<ClassRecordView>, base: Expr) -> Option<ClassRecordView> {
    match base {
        Expr::Name(name) => find_record(records, name@, records.len() as int),
        _ => None,
    }
}

/// Whether one of the first `n` bases is a test class of this module with
/// an initializer.
pub open spec fn parent_has_init(records: Seq<ClassRecordView>, bases: Seq<Expr>, n: int) -> bool {
    exists|i: int|
        0 <= i < n && (#[trigger] base_record(records, bases[i])) is Some && base_record(
            records,
            bases[i],
        )->Some_0.has_init
}

/// An item taken over by the class `child`.
pub open spec fn adopted(item: TestInfoView, child: Seq<char>) -> TestInfoView {
    TestInfoView {
        name: item.name,
        line: item.line,
        is_method: true,
        class_name: Some(child),
        is_parametrized: item.is_parametrized,
        has_uncertain_params: item.has_uncertain_params,
        xdist_group: item.xdist_group,
    }
}

/// The items that `child` takes over from the first `n` of its bases, base
/// by base from left to right.
pub open spec fn inherited_upto(
    records: Seq<ClassRecordView>,
    bases: Seq<Expr>,
    child: Seq<char>,
    n: int,
) -> Seq<TestInfoView>
    decreases n,
{
    if n <= 0 {
        Seq::empty()
    } else {
        let before = inherited_upto(records, bases, child, n - 1);
        match base_record(records, bases[n - 1]) {
            Some(record) => before + record.methods.map_values(
                |item: TestInfoView| adopted(item, child),
            ),
            None => before,
        }
    }
}

/// The items among the first `n` that the class body does not override: an
/// item stays unless the name before its bracket is defined in the class
/// body.
pub open spec fn kept_items_upto(items: Seq<TestInfoView>, defined: Seq<Seq<char>>, n: int) -> Seq<
    TestInfoView,
>
    decreases n,
{
    if n <= 0 {
        Seq::empty()
    } else {
        let before = kept_items_upto(items, defined, n - 1);
        if defined.contains(base_name(items[n - 1].name)) {
            before
        } else {
            before.push(items[n - 1])
        }
    }
}

/// The items that the class body does not override.
pub open spec fn kept_items(items: Seq<TestInfoView>, defined: Seq<Seq<char>>) -> Seq<TestInfoView> {
    kept_items_upto(items, defined, items.len() as int)
}

/// The items that a class gives: none where it is no test class, defines an
/// initializer or has a base in this module that does; else what it takes
/// over from its bases in this module, less what its body overrides, then
/// its own.
pub open spec fn class_items(
    config: TestDiscoveryConfig,
    imports: ImportLog,
    records: Seq<ClassRecordView>,
    class: ClassDef,
) -> Seq<TestInfoView> {
    if !config.accepts_class(class.name@) || class.has_init() || parent_has_init(
        records,
        class.bases@,
        class.bases@.len() as int,
    ) {
        Seq::empty()
    } else {
        kept_items(
            inherited_upto(records, class.bases@, class.name@, class.bases@.len() as int),
            defined_names(class),
        ) + class_methods(config, imports, class)
    }
}

/// The items that a top-level statement gives.
pub open spec fn stmt_items(
    config: TestDiscoveryConfig,
    imports: ImportLog,
    records: Seq<ClassRecordView>,
    stmt: Stmt,
) -> Seq<TestInfoView> {
    match stmt {
        Stmt::FunctionDef(func) => if config.accepts_function(func.name@) {
            function_items(imports, func, None, Seq::empty(), false, false)
        } else {
            Seq::empty()
        },
        Stmt::ClassDef(class) => class_items(config, imports, records, class),
        _ => Seq::empty(),
    }
}

/// The items that the first `n` statements give, in source order.
pub open spec fn module_items_upto(
    config: TestDiscoveryConfig,
    imports: ImportLog,
    records: Seq<ClassRecordView>,
    body: Seq<Stmt>,
    n: int,
) -> Seq<TestInfoView>
    decreases n,
{
    if n <= 0 {
        Seq::empty()
    } else {
        module_items_upto(config, imports, records, body, n - 1) + stmt_items(
            config,
            imports,
            records,
            body[n - 1],
        )
    }
}

/// The items that a module gives, in source order.
pub open spec fn module_items(config: TestDiscoveryConfig, module: Module) -> Seq<TestInfoView> {
    let imports = module_imports(module.body@);
    let records = records_upto(config, imports, module.body@, module.body@.len() as int);
    module_items_upto(config, imports, records, module.body@, module.body@.len() as int)
}

/// Records what `import ...` binds to the host framework.
pub fn visit_import(tracker: &mut ImportTracker, names: &Vec<Alias>)
    ensures
        final(tracker).log() == old(tracker).log() + import_entries(names@, names@.len() as int),
{
    let mut i: usize = 0;
    assert(tracker.log() =~= old(tracker).log() + import_entries(names@, 0));
    while i < names.len()
        invariant
            i <= names.len(),
            tracker.log() == old(tracker).log() + import_entries(names@, i as int),
        decreases names.len() - i,
    {
        let ghost before = tracker.log();
        if str_eq(names[i].name.as_str(), "pytest") {
            tracker.add_import(names[i].bound_name(), "pytest");
            assert(tracker.log() =~= old(tracker).log() + import_entries(names@, i + 1));
        }
        i += 1;
    }
}

/// Records what `from module import ...` binds to the host framework.
pub fn visit_import_from(tracker: &mut ImportTracker, module: &Option<String>, names: &Vec<Alias>)
    ensures
        final(tracker).log() == old(tracker).log() + (match *module {
            Some(m) => from_entries(m@, names@, names@.len() as int),
            None => Seq::empty(),
        }),
{
    let module_name: &String = match module {
        Some(m) => m,
        None => {
            assert(tracker.log() =~= old(tracker).log() + Seq::<(Seq<char>, Seq<char>)>::empty());
            return ;
        },
    };
    let prefix: &str = if str_eq(module_name.as_str(), "pytest") {
        "pytest."
    } else if str_eq(module_name.as_str(), "pytest.mark") {
        "pytest.mark."
    } else {
        proof {
            lemma_from_entries_none(module_name@, names@, names@.len() as int);
            assert(tracker.log() =~= old(tracker).log() + Seq::<(Seq<char>, Seq<char>)>::empty());
        }
        return ;
    };
    let mut i: usize = 0;
    assert(tracker.log() =~= old(tracker).log() + from_entries(module_name@, names@, 0));
    while i < names.len()
        invariant
            i <= names.len(),
            from_target(module_name@, Seq::empty()) is Some,
            forall|name: Seq<char>| from_target(module_name@, name) == Some(prefix@ + name),
            tracker.log() == old(tracker).log() + from_entries(module_name@, names@, i as int),
        decreases names.len() - i,
    {
        let mut target = String::from_str(prefix);
        target.append(names[i].name.as_str());
        tracker.add_import(names[i].bound_name(), target.as_str());
        assert(tracker.log() =~= old(tracker).log() + from_entries(module_name@, names@, i + 1));
        i += 1;
    }
}

/// Imports from any other module bind nothing to the host framework.
pub proof fn lemma_from_entries_none(module: Seq<char>, names: Seq<Alias>, n: int)
    requires
        module != "pytest"@,
        module != "pytest.mark"@,
    ensures
        from_entries(module, names, n) == Seq::<(Seq<char>, Seq<char>)>::empty(),
    decreases n,
{
    if n > 0 {
        lemma_from_entries_none(module, names, n - 1);
    }
}

/// The imports by which a module binds names to the host framework.
pub fn collect_imports(module: &Module) -> (tracker: ImportTracker)
    ensures
        tracker.log() == module_imports(module.body@),
{
    let mut tracker = ImportTracker::new();
    let mut i: usize = 0;
    assert(tracker.log() =~= module_imports_upto(module.body@, 0));
    while i < module.body.len()
        invariant
            i <= module.body.len(),
            tracker.log() == module_imports_upto(module.body@, i as int),
        decreases module.body.len() - i,
    {
        let ghost before = tracker.log();
        match &module.body[i] {
            Stmt::Import(names) => {
                visit_import(&mut tracker, names);
            },
            Stmt::ImportFrom { module: from, names, level } => {
                visit_import_from(&mut tracker, from, names);
            },
            _ => {
                assert(tracker.log() =~= before + stmt_imports(module.body@[i as int]));
            },
        }
        i += 1;
    }
    tracker
}

/// Whether the class body defines an initializer.
pub fn class_has_init(class: &ClassDef) -> (r: bool)
    ensures
        r == class.has_init(),
{
    let mut i: usize = 0;
    while i < class.body.len()
        invariant
            i <= class.body.len(),
            !class.has_init_upto(i as int),
        decreases class.body.len() - i,
    {
        if str_eq(class.body[i].name.as_str(), "__init__") {
            assert(class.has_init_upto(i + 1));
            proof {
                lemma_has_init_grows(*class, i + 1, class.body@.len() as int);
            }
            return true;
        }
        i += 1;
    }
    false
}

/// An initializer among the first `n` functions is one among the first `m`
/// for every `m` from `n` on.
pub proof fn lemma_has_init_grows(class: ClassDef, n: int, m: int)
    requires
        n <= m,
        class.has_init_upto(n),
    ensures
        class.has_init_upto(m),
    decreases m - n,
{
    if n < m {
        lemma_has_init_grows(class, n, m - 1);
    }
}

/// Appends `more` to `tests`.
pub fn append_tests(tests: &mut Vec<TestInfo>, more: Vec<TestInfo>)
    ensures
        tests_view(final(tests)@) == tests_view(old(tests)@) + tests_view(more@),
{
    let ghost added = more@;
    let mut rest = more;
    tests.append(&mut rest);
    assert(tests_view(tests@) =~= tests_view(old(tests)@) + tests_view(added));
}

/// The items of the test methods that a class defines itself.
pub fn collect_own_methods(config: &TestDiscoveryConfig, tracker: &ImportTracker, class: &ClassDef) -> (tests:
    Vec<TestInfo>)
    ensures
        tests_view(tests@) == class_methods(*config, tracker.log(), *class),
{
    let class_infos = extract_parametrize_decorators(tracker, &class.decorators);
    let class_marked: bool = has_parametrize_decorator(tracker, &class.decorators);
    let class_unreadable: bool = has_unreadable_parametrize(tracker, &class.decorators);
    let class_name: Option<String> = Some(class.name.clone());
    let mut tests: Vec<TestInfo> = Vec::new();
    let mut i: usize = 0;
    assert(tests_view(tests@) =~= class_methods_upto(*config, tracker.log(), *class, 0));
    while i < class.body.len()
        invariant
            i <= class.body.len(),
            opt_text(class_name) == Some(class.name@),
            infos_view(class_infos@) == expansions(tracker.log(), class.decorators@),
            class_marked == is_marked(tracker.log(), class.decorators@),
            class_unreadable == has_unreadable(tracker.log(), class.decorators@),
            tests_view(tests@) == class_methods_upto(*config, tracker.log(), *class, i as int),
        decreases class.body.len() - i,
    {
        if config.is_test_function(class.body[i].name.as_str()) {
            let found = visit_function(
                tracker,
                &class.body[i],
                &class_name,
                &class_infos,
                class_marked,
                class_unreadable,
            );
            append_tests(&mut tests, found);
        }
        i += 1;
    }
    tests
}

/// Whether a class named `name` in the module defines an initializer.
fn some_class_has_init(module: &Module, name: &str) -> (r: bool)
    ensures
        r == named_class_has_init(module.body@, name@, module.body@.len() as int),
{
    let mut i: usize = 0;
    while i < module.body.len()
        invariant
            i <= module.body.len(),
            !named_class_has_init(module.body@, name@, i as int),
        decreases module.body.len() - i,
    {
        match &module.body[i] {
            Stmt::ClassDef(class) => {
                if str_eq(class.name.as_str(), name) && class_has_init(class) {
                    assert(module.body@[i as int] is ClassDef);
                    return true;
                }
            },
            _ => {},
        }
        i += 1;
    }
    false
}

/// The test classes of the module with the items of their own methods.
/// Classes with an initializer are recorded too, so that their subclasses
/// can be told.
pub fn collect_class_methods(config: &TestDiscoveryConfig, tracker: &ImportTracker, module: &Module) -> (records:
    Vec<ClassRecord>)
    ensures
        records_view(records@) == records_upto(
            *config,
            tracker.log(),
            module.body@,
            module.body@.len() as int,
        ),
{
    let mut records: Vec<ClassRecord> = Vec::new();
    let mut i: usize = 0;
    assert(records_view(records@) =~= records_upto(*config, tracker.log(), module.body@, 0));
    while i < module.body.len()
        invariant
            i <= module.body.len(),
            records_view(records@) == records_upto(
                *config,
                tracker.log(),
                module.body@,
                i as int,
            ),
        decreases module.body.len() - i,
    {
        let ghost before = records_view(records@);
        match &module.body[i] {
            Stmt::ClassDef(class) => {
                if config.is_test_class(class.name.as_str()) {
                    let record = ClassRecord {
                        name: class.name.clone(),
                        methods: collect_own_methods(config, tracker, class),
                        has_init: some_class_has_init(module, class.name.as_str()),
                    };
                    records.push(record);
                    assert(records_view(records@) =~= before.push(record@));
                }
            },
            _ => {},
        }
        i += 1;
    }
    records
}

/// The latest record with the name `name`.
fn lookup_record<'a>(records: &'a Vec<ClassRecord>, name: &str) -> (r: Option<&'a ClassRecord>)
    ensures
        match r {
            Some(record) => find_record(records_view(records@), name@, records@.len() as int)
                == Some(record@),
            None => find_record(records_view(records@), name@, records@.len() as int) is None,
        },
{
    let ghost views = records_view(records@);
    let mut n: usize = records.len();
    while n > 0
        invariant
            n <= records.len(),
            views == records_view(records@),
            find_record(views, name@, records@.len() as int) == find_record(views, name@, n as int),
        decreases n,
    {
        assert(views[n - 1] == records@[n - 1]@);
        if str_eq(records[n - 1].name.as_str(), name) {
            return Some(&records[n - 1]);
        }
        n -= 1;
    }
    None
}

/// The record of the test class of this module that `base` names.
fn lookup_base<'a>(records: &'a Vec<ClassRecord>, base: &Expr) -> (r: Option<&'a ClassRecord>)
    ensures
        match r {
            Some(record) => base_record(records_view(records@), *base) == Some(record@),
            None => base_record(records_view(records@), *base) is None,
        },
{
    match base {
        Expr::Name(name) => lookup_record(records, name.as_str()),
        _ => None,
    }
}

/// Whether a base of the class is a test class of this module with an
/// initializer.
fn base_has_init(records: &Vec<ClassRecord>, bases: &Vec<Expr>) -> (r: bool)
    ensures
        r == parent_has_init(records_view(records@), bases@, bases@.len() as int),
{
    let mut i: usize = 0;
    while i < bases.len()
        invariant
            i <= bases.len(),
            !parent_has_init(records_view(records@), bases@, i as int),
        decreases bases.len() - i,
    {
        match lookup_base(records, &bases[i]) {
            Some(record) => {
                if record.has_init {
                    assert(base_record(records_view(records@), bases@[i as int]) is Some);
                    return true;
                }
            },
            None => {},
        }
        i += 1;
    }
    false
}

/// The items of `record` as the class `child` takes them over.
fn adopt_methods(record: &ClassRecord, child: &str) -> (tests: Vec<TestInfo>)
    ensures
        tests_view(tests@) == record@.methods.map_values(|item: TestInfoView| adopted(item, child@)),
{
    let mut tests: Vec<TestInfo> = Vec::new();
    let mut i: usize = 0;
    while i < record.methods.len()
        invariant
            i <= record.methods.len(),
            tests.len() == i,
            forall|k: int| 0 <= k < i ==> (#[trigger] tests[k])@ == adopted(record.methods[k]@, child@),
        decreases record.methods.len() - i,
    {
        let method = &record.methods[i];
        tests.push(
            TestInfo {
                name: method.name.clone(),
                line: method.line,
                is_method: true,
                class_name: Some(String::from_str(child)),
                is_parametrized: method.is_parametrized,
                has_uncertain_params: method.has_uncertain_params,
                xdist_group: copy_option(&method.xdist_group),
            },
        );
        i += 1;
    }
    assert(tests_view(tests@) =~= record@.methods.map_values(
        |item: TestInfoView| adopted(item, child@),
    ));
    tests
}

/// The items that the class body does not override.
fn keep_items_not_overridden(items: Vec<TestInfo>, defined: &Vec<String>) -> (rest: Vec<TestInfo>)
    ensures
        tests_view(rest@) == kept_items(tests_view(items@), texts(defined@)),
{
    let ghost all = tests_view(items@);
    let total: usize = items.len();
    let mut rest: Vec<TestInfo> = Vec::new();
    let mut i: usize = 0;
    assert(tests_view(rest@) =~= kept_items_upto(all, texts(defined@), 0));
    for item in it: items
        invariant
            it.seq() == items@,
            it.seq().len() == total,
            i == it.index(),
            all == tests_view(items@),
            tests_view(rest@) == kept_items_upto(all, texts(defined@), i as int),
    {
        let ghost before = tests_view(rest@);
        assert(all[i as int] == item@);
        let own = method_base_name(item.name.as_str());
        if !contains_text(defined, own.as_str()) {
            rest.push(item);
            assert(tests_view(rest@) =~= before.push(all[i as int]));
        }
        i += 1;
    }
    rest
}

/// No item that a class takes over from a base in its module has a name
/// that the class body defines itself.
pub proof fn law_kept_items(items: Seq<TestInfoView>, defined: Seq<Seq<char>>, n: int)
    requires
        0 <= n <= items.len(),
    ensures
        forall|k: int|
            0 <= k < kept_items_upto(items, defined, n).len() ==> !defined.contains(
                base_name((#[trigger] kept_items_upto(items, defined, n)[k]).name),
            ),
    decreases n,
{
    if n > 0 {
        law_kept_items(items, defined, n - 1);
    }
}

/// The items that a class gives: what it takes over from its bases in this
/// module, less what its body overrides, then its own. A class that is no
/// test class, that defines an initializer, or that has a base in this
/// module that does, gives none.
pub fn visit_class(
    config: &TestDiscoveryConfig,
    tracker: &ImportTracker,
    records: &Vec<ClassRecord>,
    class: &ClassDef,
) -> (tests: Vec<TestInfo>)
    ensures
        tests_view(tests@) == class_items(*config, tracker.log(), records_view(records@), *class),
{
    let mut tests: Vec<TestInfo> = Vec::new();
    if !config.is_test_class(class.name.as_str()) || class_has_init(class) || base_has_init(
        records,
        &class.bases,
    ) {
        assert(tests_view(tests@) =~= Seq::<TestInfoView>::empty());
        return tests;
    }
    let ghost views = records_view(records@);
    let mut i: usize = 0;
    assert(tests_view(tests@) =~= inherited_upto(views, class.bases@, class.name@, 0));
    while i < class.bases.len()
        invariant
            i <= class.bases.len(),
            views == records_view(records@),
            tests_view(tests@) == inherited_upto(views, class.bases@, class.name@, i as int),
        decreases class.bases.len() - i,
    {
        match lookup_base(records, &class.bases[i]) {
            Some(record) => {
                let taken = adopt_methods(record, class.name.as_str());
                append_tests(&mut tests, taken);
            },
            None => {},
        }
        i += 1;
    }
    let defined = collect_defined_names(class);
    let mut tests = keep_items_not_overridden(tests, &defined);
    let own = collect_own_methods(config, tracker, class);
    append_tests(&mut tests, own);
    tests
}

/// The items that a top-level statement gives.
pub fn visit_stmt(
    config: &TestDiscoveryConfig,
    tracker: &ImportTracker,
    records: &Vec<ClassRecord>,
    stmt: &Stmt,
) -> (tests: Vec<TestInfo>)
    ensures
        tests_view(tests@) == stmt_items(*config, tracker.log(), records_view(records@), *stmt),
{
    match stmt {
        Stmt::FunctionDef(func) => {
            if config.is_test_function(func.name.as_str()) {
                let no_infos: Vec<ParametrizeInfo> = Vec::new();
                assert(infos_view(no_infos@) =~= Seq::empty());
                visit_function(tracker, func, &None, &no_infos, false, false)
            } else {
                let none: Vec<TestInfo> = Vec::new();
                assert(tests_view(none@) =~= Seq::<TestInfoView>::empty());
                none
            }
        },
        Stmt::ClassDef(class) => visit_class(config, tracker, records, class),
        _ => {
            let none: Vec<TestInfo> = Vec::new();
            assert(tests_view(none@) =~= Seq::<TestInfoView>::empty());
            none
        },
    }
}

/// Walks the top-level statements of modules and gathers their test items.
pub struct TestDiscoveryVisitor {
    config: TestDiscoveryConfig,
    tests: Vec<TestInfo>,
}

impl TestDiscoveryVisitor {
    /// The items gathered so far.
    pub closed spec fn found(self) -> Seq<TestInfoView> {
        tests_view(self.tests@)
    }

    /// The patterns by which the visitor tells tests.
    pub closed spec fn patterns(self) -> TestDiscoveryConfig {
        self.config
    }

    /// A visitor that has seen nothing yet.
    pub fn new(config: &TestDiscoveryConfig) -> (visitor: TestDiscoveryVisitor)
        ensures
            visitor.found() == Seq::<TestInfoView>::empty(),
            texts(visitor.patterns().python_classes@) == texts(config.python_classes@),
            texts(visitor.patterns().python_functions@) == texts(config.python_functions@),
    {
        let visitor = TestDiscoveryVisitor { config: config.duplicate(), tests: Vec::new() };
        assert(visitor.found() =~= Seq::<TestInfoView>::empty());
        visitor
    }

    /// Adds the items of a module, in source order, to those gathered.
    pub fn visit_module(&mut self, module: &Module)
        ensures
            final(self).patterns() == old(self).patterns(),
            final(self).found() == old(self).found() + module_items(old(self).patterns(), *module),
    {
        let tracker = collect_imports(module);
        let records = collect_class_methods(&self.config, &tracker, module);
        let ghost views = records_view(records@);
        let ghost start = self.found();
        let mut i: usize = 0;
        assert(self.found() =~= start + module_items_upto(
            self.config,
            tracker.log(),
            views,
            module.body@,
            0,
        ));
        while i < module.body.len()
            invariant
                i <= module.body.len(),
                self.config == old(self).config,
                views == records_view(records@),
                self.found() == start + module_items_upto(
                    self.config,
                    tracker.log(),
                    views,
                    module.body@,
                    i as int,
                ),
            decreases module.body.len() - i,
        {
            let found = visit_stmt(&self.config, &tracker, &records, &module.body[i]);
            append_tests(&mut self.tests, found);
            assert(self.found() =~= start + module_items_upto(
                self.config,
                tracker.log(),
                views,
                module.body@,
                i + 1,
            ));
            i += 1;
        }
    }

    /// The items gathered, in the order in which they were found.
    pub fn into_tests(self) -> (tests: Vec<TestInfo>)
        ensures
            tests_view(tests@) == self.found(),
    {
        self.tests
    }
}

/// What a module gives depends on the texts of the patterns only.
pub proof fn lemma_items_depend_on_texts(a: TestDiscoveryConfig, b: TestDiscoveryConfig, module: Module)
    requires
        texts(a.python_classes@) == texts(b.python_classes@),
        texts(a.python_functions@) == texts(b.python_functions@),
    ensures
        module_items(a, module) == module_items(b, module),
{
    let imports = module_imports(module.body@);
    let body = module.body@;
    lemma_records_depend_on_texts(a, b, imports, body, body.len() as int);
    let records = records_upto(a, imports, body, body.len() as int);
    lemma_module_items_depend_on_texts(a, b, imports, records, body, body.len() as int);
}

proof fn lemma_class_methods_depend_on_texts(
    a: TestDiscoveryConfig,
    b: TestDiscoveryConfig,
    imports: ImportLog,
    class: ClassDef,
    n: int,
)
    requires
        texts(a.python_classes@) == texts(b.python_classes@),
        texts(a.python_functions@) == texts(b.python_functions@),
    ensures
        class_methods_upto(a, imports, class, n) == class_methods_upto(b, imports, class, n),
    decreases n,
{
    if n > 0 {
        lemma_class_methods_depend_on_texts(a, b, imports, class, n - 1);
    }
}

proof fn lemma_records_depend_on_texts(
    a: TestDiscoveryConfig,
    b: TestDiscoveryConfig,
    imports: ImportLog,
    body: Seq<Stmt>,
    n: int,
)
    requires
        texts(a.python_classes@) == texts(b.python_classes@),
        texts(a.python_functions@) == texts(b.python_functions@),
    ensures
        records_upto(a, imports, body, n) == records_upto(b, imports, body, n),
    decreases n,
{
    if n > 0 {
        lemma_records_depend_on_texts(a, b, imports, body, n - 1);
        match body[n - 1] {
            Stmt::ClassDef(class) => {
                lemma_class_methods_depend_on_texts(
                    a,
                    b,
                    imports,
                    class,
                    class.body@.len() as int,
                );
            },
            _ => {},
        }
    }
}

proof fn lemma_module_items_depend_on_texts(
    a: TestDiscoveryConfig,
    b: TestDiscoveryConfig,
    imports: ImportLog,
    records: Seq<ClassRecordView>,
    body: Seq<Stmt>,
    n: int,
)
    requires
        texts(a.python_classes@) == texts(b.python_classes@),
        texts(a.python_functions@) == texts(b.python_functions@),
    ensures
        module_items_upto(a, imports, records, body, n) == module_items_upto(
            b,
            imports,
            records,
            body,
            n,
        ),
    decreases n,
{
    if n > 0 {
        lemma_module_items_depend_on_texts(a, b, imports, records, body, n - 1);
        match body[n - 1] {
            Stmt::ClassDef(class) => {
                lemma_class_methods_depend_on_texts(
                    a,
                    b,
                    imports,
                    class,
                    class.body@.len() as int,
                );
            },
            _ => {},
        }
    }
}

} // verus!
