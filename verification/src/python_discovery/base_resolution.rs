//! Resolution of base-class expressions through a module's imports.

use crate::collection::error::CollectionError;
use crate::error::PythonError;
use crate::python_discovery::ast::{Alias, ClassDef, Expr, Module, Stmt};
use crate::python_discovery::class_cache::{
    bases_view, methods_view, BaseView, ClassView, MethodView, ResolvedBaseClass, TestClassInfo,
    TestMethodInfo,
};
use crate::python_discovery::discovery::{
    function_items, tests_view, visit_function, TestDiscoveryConfig, TestInfo,
    TestInfoView,
};
use crate::python_discovery::import_tracker::{ImportLog, ImportTracker};
use crate::python_discovery::parametrize::{infos_view, ParametrizeInfo, ParametrizeView};
use crate::python_discovery::visitor::class_has_init;
use crate::python_discovery::stdlib::{in_standard_library, is_stdlib_module_to_skip};
use crate::text::{copy_option, copy_strings, join, join_strings, split, split_on, str_eq, texts};
use vstd::prelude::*;
use vstd::string::StringExecFns;

verus! {

/// What an import binds a local name to.
#[derive(Debug, Clone)]
pub struct ImportInfo {
    /// The local name.
    pub local: String,
    /// The dotted path of the module named in the import.
    pub module: Vec<String>,
    /// The name imported from the module; empty for `import module`.
    pub imported_name: String,
    /// The number of leading dots of a relative import.
    pub relative_level: usize,
}

/// An import in the language of contracts.
pub struct ImportView {
    pub local: Seq<char>,
    pub module: Seq<Seq<char>>,
    pub imported_name: Seq<char>,
    pub relative_level: usize,
}

impl View for ImportInfo {
    type V = ImportView;

    open spec fn view(&self) -> ImportView {
        ImportView {
            local: self.local@,
            module: texts(self.module@),
            imported_name: self.imported_name@,
            relative_level: self.relative_level,
        }
    }
}

/// The imports of a list in the language of contracts.
pub open spec fn table_view(table: Seq<ImportInfo>) -> Seq<ImportView> {
    table.map_values(|i: ImportInfo| i@)
}

/// The components of the module named in `from module import ...`; none
/// for `from . import ...`.
pub open spec fn from_module_parts(module: Option<String>) -> Seq<Seq<char>> {
    match module {
        Some(m) => split_on(m@, '.', 0),
        None => Seq::empty(),
    }
}

/// What the first `n` names of a `from` import bind.
pub open spec fn from_bindings(module: Seq<Seq<char>>, level: usize, names: Seq<Alias>, n: int) -> Seq<
    ImportView,
>
    decreases n,
{
    if n <= 0 {
        Seq::empty()
    } else {
        from_bindings(module, level, names, n - 1).push(
            ImportView {
                local: names[n - 1].local_name(),
                module,
                imported_name: names[n - 1].name@,
                relative_level: level,
            },
        )
    }
}

/// What the first `n` names of a plain import bind.
pub open spec fn plain_bindings(names: Seq<Alias>, n: int) -> Seq<ImportView>
    decreases n,
{
    if n <= 0 {
        Seq::empty()
    } else {
        plain_bindings(names, n - 1).push(
            ImportView {
                local: names[n - 1].local_name(),
                module: split_on(names[n - 1].name@, '.', 0),
                imported_name: Seq::empty(),
                relative_level: 0,
            },
        )
    }
}

/// What a statement binds.
pub open spec fn stmt_bindings(stmt: Stmt) -> Seq<ImportView> {
    match stmt {
        Stmt::Import(names) => plain_bindings(names@, names@.len() as int),
        Stmt::ImportFrom { module, names, level } => from_bindings(
            from_module_parts(module),
            level,
            names@,
            names@.len() as int,
        ),
        _ => Seq::empty(),
    }
}

/// What the first `n` statements bind, oldest first.
pub open spec fn table_upto(body: Seq<Stmt>, n: int) -> Seq<ImportView>
    decreases n,
{
    if n <= 0 {
        Seq::empty()
    } else {
        table_upto(body, n - 1) + stmt_bindings(body[n - 1])
    }
}

/// The import table of a module.
pub open spec fn import_table(body: Seq<Stmt>) -> Seq<ImportView> {
    table_upto(body, body.len() as int)
}

/// The latest of the first `n` imports that binds `name`.
pub open spec fn find_import(table: Seq<ImportView>, name: Seq<char>, n: int) -> Option<ImportView>
    decreases n,
{
    if n <= 0 {
        None
    } else if table[n - 1].local == name {
        Some(table[n - 1])
    } else {
        find_import(table, name, n - 1)
    }
}

/// The module that a relative import of `level` dots names, seen from the
/// module `current`: `level` components up, then `parts` down. There is
/// none where the import would climb above the root.
pub open spec fn relative_target(current: Seq<Seq<char>>, level: usize, parts: Seq<Seq<char>>) -> Option<
    Seq<Seq<char>>,
> {
    if level == 0 {
        Some(parts)
    } else if current.len() < level {
        None
    } else {
        Some(current.take(current.len() - level) + parts)
    }
}

/// The message for a relative import that climbs above the root.
pub open spec fn beyond_root_message(current: Seq<Seq<char>>, parts: Seq<Seq<char>>) -> Seq<char> {
    "Cannot resolve import '"@ + join(parts, "."@) + "' from "@ + join(current, "."@)
}

/// The class `class_name` of the module that `import` names, seen from the
/// module `current`; the message of the failure where a relative import
/// climbs above the root.
pub open spec fn imported_base(import: ImportView, current: Seq<Seq<char>>, class_name: Seq<char>) -> Result<
    BaseView,
    Seq<char>,
> {
    match relative_target(current, import.relative_level, import.module) {
        Some(module) => Ok(
            BaseView {
                module,
                class_name,
                is_local: false,
                in_stdlib: in_standard_library(module),
            },
        ),
        None => Err(beyond_root_message(current, import.module)),
    }
}

/// The class that a base-class expression names.
///
/// A bare name is the imported class where an import binds the name, else a
/// class of the module itself. `module.Class` is the class of the imported
/// module. Anything else, such as a subscripted generic, names no class
/// that discovery can follow.
pub open spec fn resolved_base(table: Seq<ImportView>, current: Seq<Seq<char>>, base: Expr) -> Result<
    Option<BaseView>,
    Seq<char>,
> {
    match base {
        Expr::Name(name) => match find_import(table, name@, table.len() as int) {
            Some(import) => match imported_base(import, current, import.imported_name) {
                Ok(b) => Ok(Some(b)),
                Err(e) => Err(e),
            },
            None => Ok(
                Some(
                    BaseView {
                        module: current,
                        class_name: name@,
                        is_local: true,
                        in_stdlib: in_standard_library(current),
                    },
                ),
            ),
        },
        Expr::Attribute { value, attr } => match *value {
            Expr::Name(module_name) => match find_import(
                table,
                module_name@,
                table.len() as int,
            ) {
                Some(import) => match imported_base(import, current, attr@) {
                    Ok(b) => Ok(Some(b)),
                    Err(e) => Err(e),
                },
                None => Ok(None),
            },
            _ => Ok(None),
        },
        _ => Ok(None),
    }
}

/// The classes that the first `n` base-class expressions name, from left to
/// right, without those that name none; the first failure where there is
/// one.
pub open spec fn resolved_bases(table: Seq<ImportView>, current: Seq<Seq<char>>, bases: Seq<Expr>, n: int) -> Result<
    Seq<BaseView>,
    Seq<char>,
>
    decreases n,
{
    if n <= 0 {
        Ok(Seq::empty())
    } else {
        match resolved_bases(table, current, bases, n - 1) {
            Err(e) => Err(e),
            Ok(before) => match resolved_base(table, current, bases[n - 1]) {
                Err(e) => Err(e),
                Ok(Some(b)) => Ok(before.push(b)),
                Ok(None) => Ok(before),
            },
        }
    }
}

/// A test item as a method item: the same without its class.
pub open spec fn as_method(item: TestInfoView) -> MethodView {
    MethodView {
        name: item.name,
        line: item.line,
        is_parametrized: item.is_parametrized,
        has_uncertain_params: item.has_uncertain_params,
        xdist_group: item.xdist_group,
    }
}

/// The items of the test methods among the first `n` functions of a class
/// body, by the methods' own decorators.
pub open spec fn own_methods_upto(config: TestDiscoveryConfig, imports: ImportLog, class: ClassDef, n: int) -> Seq<
    MethodView,
>
    decreases n,
{
    if n <= 0 {
        Seq::empty()
    } else {
        let before = own_methods_upto(config, imports, class, n - 1);
        if config.accepts_function(class.body[n - 1].name@) {
            before + function_items(
                imports,
                class.body[n - 1],
                None,
                Seq::empty(),
                false,
                false,
            ).map_values(|item: TestInfoView| as_method(item))
        } else {
            before
        }
    }
}

/// The names of the functions defined in a class body.
pub open spec fn defined_names(class: ClassDef) -> Seq<Seq<char>> {
    Seq::new(class.body@.len(), |i: int| class.body@[i].name@)
}

/// What discovery knows of a class of the module `current`; the message of
/// the failure where a base cannot be resolved.
pub open spec fn class_view(
    config: TestDiscoveryConfig,
    imports: ImportLog,
    table: Seq<ImportView>,
    current: Seq<Seq<char>>,
    class: ClassDef,
) -> Result<ClassView, Seq<char>> {
    match resolved_bases(table, current, class.bases@, class.bases@.len() as int) {
        Err(e) => Err(e),
        Ok(bases) => Ok(
            ClassView {
                module: current,
                name: class.name@,
                has_init: class.has_init(),
                methods: own_methods_upto(config, imports, class, class.body@.len() as int),
                bases,
                defined: defined_names(class),
            },
        ),
    }
}

/// The imports of a module: for each local name that an import statement
/// at the top level binds, the module and the name it stands for.
pub fn collect_imports_impl(module: &Module) -> (table: Vec<ImportInfo>)
    ensures
        table_view(table@) == import_table(module.body@),
{
    let mut table: Vec<ImportInfo> = Vec::new();
    let mut i: usize = 0;
    assert(table_view(table@) =~= table_upto(module.body@, 0));
    while i < module.body.len()
        invariant
            i <= module.body.len(),
            table_view(table@) == table_upto(module.body@, i as int),
        decreases module.body.len() - i,
    {
        let ghost start = table_view(table@);
        match &module.body[i] {
            Stmt::ImportFrom { module: from, names, level } => {
                let parts: Vec<String> = match from {
                    Some(m) => split(m.as_str(), '.'),
                    None => Vec::new(),
                };
                assert(texts(parts@) =~= from_module_parts(*from));
                let mut k: usize = 0;
                assert(table_view(table@) =~= start + from_bindings(texts(parts@), *level, names@, 0));
                while k < names.len()
                    invariant
                        k <= names.len(),
                        table_view(table@) == start + from_bindings(
                            texts(parts@),
                            *level,
                            names@,
                            k as int,
                        ),
                    decreases names.len() - k,
                {
                    let ghost before = table_view(table@);
                    let info = ImportInfo {
                        local: String::from_str(names[k].bound_name()),
                        module: copy_strings(&parts),
                        imported_name: names[k].name.clone(),
                        relative_level: *level,
                    };
                    table.push(info);
                    assert(table_view(table@) =~= before.push(info@));
                    assert(table_view(table@) =~= start + from_bindings(
                        texts(parts@),
                        *level,
                        names@,
                        k + 1,
                    ));
                    k += 1;
                }
            },
            Stmt::Import(names) => {
                let mut k: usize = 0;
                assert(table_view(table@) =~= start + plain_bindings(names@, 0));
                while k < names.len()
                    invariant
                        k <= names.len(),
                        table_view(table@) == start + plain_bindings(names@, k as int),
                    decreases names.len() - k,
                {
                    let ghost before = table_view(table@);
                    let info = ImportInfo {
                        local: String::from_str(names[k].bound_name()),
                        module: split(names[k].name.as_str(), '.'),
                        imported_name: String::new(),
                        relative_level: 0,
                    };
                    table.push(info);
                    assert(table_view(table@) =~= before.push(info@));
                    assert(table_view(table@) =~= start + plain_bindings(names@, k + 1));
                    k += 1;
                }
            },
            _ => {
                assert(table_view(table@) =~= start + stmt_bindings(module.body@[i as int]));
            },
        }
        i += 1;
    }
    table
}

/// The latest import that binds `name`.
pub fn lookup_import<'a>(table: &'a Vec<ImportInfo>, name: &str) -> (r: Option<&'a ImportInfo>)
    ensures
        match r {
            Some(import) => find_import(table_view(table@), name@, table@.len() as int) == Some(
                import@,
            ),
            None => find_import(table_view(table@), name@, table@.len() as int) is None,
        },
{
    let ghost views = table_view(table@);
    let mut n: usize = table.len();
    while n > 0
        invariant
            n <= table.len(),
            views == table_view(table@),
            find_import(views, name@, table@.len() as int) == find_import(views, name@, n as int),
        decreases n,
    {
        assert(views[n - 1] == table@[n - 1]@);
        if str_eq(table[n - 1].local.as_str(), name) {
            return Some(&table[n - 1]);
        }
        n -= 1;
    }
    None
}

/// The module that a relative import names, seen from the module
/// `current_module`: level 1 is the package of the module, each further
/// level one package up. An import that would climb above the root fails.
pub fn resolve_relative_module_path(
    current_module: &Vec<String>,
    relative_level: usize,
    module_parts: &Vec<String>,
) -> (r: Result<Vec<String>, PythonError>)
    ensures
        match r {
            Ok(module) => relative_target(texts(current_module@), relative_level, texts(module_parts@))
                == Some(texts(module@)),
            Err(e) => {
                &&& relative_target(
                    texts(current_module@),
                    relative_level,
                    texts(module_parts@),
                ) is None
                &&& e.message() == beyond_root_message(
                    texts(current_module@),
                    texts(module_parts@),
                )
            },
        },
{
    if relative_level == 0 {
        return Ok(copy_strings(module_parts));
    }
    if current_module.len() < relative_level {
        return Err(
            PythonError::ImportResolution {
                module: join_strings(module_parts, "."),
                from_path: join_strings(current_module, "."),
            },
        );
    }
    let keep: usize = current_module.len() - relative_level;
    let mut module: Vec<String> = Vec::new();
    let mut i: usize = 0;
    while i < keep
        invariant
            i <= keep <= current_module.len(),
            texts(module@) == texts(current_module@).take(i as int),
        decreases keep - i,
    {
        let ghost before = texts(module@);
        module.push(current_module[i].clone());
        assert(texts(module@) =~= before.push(current_module@[i as int]@));
        assert(texts(current_module@).take(i + 1) =~= before.push(current_module@[i as int]@));
        i += 1;
    }
    let mut k: usize = 0;
    let ghost head = texts(module@);
    assert(texts(module@) =~= head + texts(module_parts@).take(0));
    while k < module_parts.len()
        invariant
            k <= module_parts.len(),
            texts(module@) == head + texts(module_parts@).take(k as int),
        decreases module_parts.len() - k,
    {
        let ghost before = texts(module@);
        module.push(module_parts[k].clone());
        assert(texts(module@) =~= before.push(module_parts@[k as int]@));
        assert(texts(module_parts@).take(k + 1) =~= texts(module_parts@).take(k as int).push(
            module_parts@[k as int]@,
        ));
        k += 1;
    }
    assert(texts(module_parts@).take(module_parts.len() as int) =~= texts(module_parts@));
    Ok(module)
}

/// The class `class_name` of the module that `import` names.
fn resolve_import(import: &ImportInfo, current_module: &Vec<String>, class_name: &str) -> (r: Result<
    ResolvedBaseClass,
    CollectionError,
>)
    ensures
        match r {
            Ok(base) => imported_base(import@, texts(current_module@), class_name@) == Ok::<
                BaseView,
                Seq<char>,
            >(base@),
            Err(CollectionError::ImportError(message)) => imported_base(
                import@,
                texts(current_module@),
                class_name@,
            ) == Err::<BaseView, Seq<char>>(message@),
            Err(_) => false,
        },
{
    match resolve_relative_module_path(current_module, import.relative_level, &import.module) {
        Ok(module) => {
            let in_stdlib: bool = is_stdlib_module_to_skip(&module);
            Ok(
                ResolvedBaseClass {
                    module,
                    class_name: String::from_str(class_name),
                    is_local: false,
                    in_stdlib,
                },
            )
        },
        Err(e) => Err(CollectionError::ImportError(e.to_string())),
    }
}

/// The class that a base-class expression names, if it names one that
/// discovery can follow.
pub fn resolve_base_class(base_expr: &Expr, current_module: &Vec<String>, table: &Vec<ImportInfo>) -> (r:
    Result<Option<ResolvedBaseClass>, CollectionError>)
    ensures
        match r {
            Ok(Some(base)) => resolved_base(table_view(table@), texts(current_module@), *base_expr)
                == Ok::<Option<BaseView>, Seq<char>>(Some(base@)),
            Ok(None) => resolved_base(table_view(table@), texts(current_module@), *base_expr)
                == Ok::<Option<BaseView>, Seq<char>>(None),
            Err(CollectionError::ImportError(message)) => resolved_base(
                table_view(table@),
                texts(current_module@),
                *base_expr,
            ) == Err::<Option<BaseView>, Seq<char>>(message@),
            Err(_) => false,
        },
{
    match base_expr {
        Expr::Name(name) => {
            match lookup_import(table, name.as_str()) {
                Some(import) => {
                    match resolve_import(import, current_module, import.imported_name.as_str()) {
                        Ok(base) => Ok(Some(base)),
                        Err(e) => Err(e),
                    }
                },
                None => {
                    let in_stdlib: bool = is_stdlib_module_to_skip(current_module);
                    Ok(
                        Some(
                            ResolvedBaseClass {
                                module: copy_strings(current_module),
                                class_name: name.clone(),
                                is_local: true,
                                in_stdlib,
                            },
                        ),
                    )
                },
            }
        },
        Expr::Attribute { value, attr } => {
            match &**value {
                Expr::Name(module_name) => {
                    match lookup_import(table, module_name.as_str()) {
                        Some(import) => {
                            match resolve_import(import, current_module, attr.as_str()) {
                                Ok(base) => Ok(Some(base)),
                                Err(e) => Err(e),
                            }
                        },
                        None => Ok(None),
                    }
                },
                _ => Ok(None),
            }
        },
        _ => Ok(None),
    }
}

/// The classes that the bases of a class name, from left to right. Bases
/// that name no class that discovery can follow are left out.
pub fn collect_base_class_names(class: &ClassDef, current_module: &Vec<String>, table: &Vec<ImportInfo>) -> (r:
    Result<Vec<ResolvedBaseClass>, CollectionError>)
    ensures
        match r {
            Ok(bases) => resolved_bases(
                table_view(table@),
                texts(current_module@),
                class.bases@,
                class.bases@.len() as int,
            ) == Ok::<Seq<BaseView>, Seq<char>>(bases_view(bases@)),
            Err(CollectionError::ImportError(message)) => resolved_bases(
                table_view(table@),
                texts(current_module@),
                class.bases@,
                class.bases@.len() as int,
            ) == Err::<Seq<BaseView>, Seq<char>>(message@),
            Err(_) => false,
        },
{
    let mut bases: Vec<ResolvedBaseClass> = Vec::new();
    let mut i: usize = 0;
    assert(bases_view(bases@) =~= Seq::<BaseView>::empty());
    while i < class.bases.len()
        invariant
            i <= class.bases.len(),
            resolved_bases(table_view(table@), texts(current_module@), class.bases@, i as int)
                == Ok::<Seq<BaseView>, Seq<char>>(bases_view(bases@)),
        decreases class.bases.len() - i,
    {
        let ghost before = bases_view(bases@);
        match resolve_base_class(&class.bases[i], current_module, table) {
            Ok(Some(base)) => {
                bases.push(base);
                assert(bases_view(bases@) =~= before.push(base@));
            },
            Ok(None) => {},
            Err(e) => {
                proof {
                    lemma_first_failure_stays(
                        table_view(table@),
                        texts(current_module@),
                        class.bases@,
                        i + 1,
                        class.bases@.len() as int,
                    );
                }
                return Err(e);
            },
        }
        i += 1;
    }
    Ok(bases)
}

/// Once a base fails to resolve, the failure is the result, whatever
/// follows.
pub proof fn lemma_first_failure_stays(
    table: Seq<ImportView>,
    current: Seq<Seq<char>>,
    bases: Seq<Expr>,
    n: int,
    m: int,
)
    requires
        n <= m,
        resolved_bases(table, current, bases, n) is Err,
    ensures
        resolved_bases(table, current, bases, m) == resolved_bases(table, current, bases, n),
    decreases m - n,
{
    if n < m {
        lemma_first_failure_stays(table, current, bases, n, m - 1);
    }
}

/// The test items as method items.
fn to_methods(tests: &Vec<TestInfo>) -> (methods: Vec<TestMethodInfo>)
    ensures
        methods_view(methods@) == tests_view(tests@).map_values(
            |item: TestInfoView| as_method(item),
        ),
{
    let mut methods: Vec<TestMethodInfo> = Vec::new();
    let mut i: usize = 0;
    while i < tests.len()
        invariant
            i <= tests.len(),
            methods.len() == i,
            forall|k: int| 0 <= k < i ==> (#[trigger] methods[k])@ == as_method(tests[k]@),
        decreases tests.len() - i,
    {
        let test = &tests[i];
        methods.push(
            TestMethodInfo {
                name: test.name.clone(),
                line: test.line,
                is_parametrized: test.is_parametrized,
                has_uncertain_params: test.has_uncertain_params,
                xdist_group: copy_option(&test.xdist_group),
            },
        );
        i += 1;
    }
    assert(methods_view(methods@) =~= tests_view(tests@).map_values(
        |item: TestInfoView| as_method(item),
    ));
    methods
}

/// The items of the test methods that a class defines, by the methods' own
/// decorators.
pub fn collect_test_methods(config: &TestDiscoveryConfig, tracker: &ImportTracker, class: &ClassDef) -> (methods:
    Vec<TestMethodInfo>)
    ensures
        methods_view(methods@) == own_methods_upto(
            *config,
            tracker.log(),
            *class,
            class.body@.len() as int,
        ),
{
    let no_infos: Vec<ParametrizeInfo> = Vec::new();
    assert(infos_view(no_infos@) =~= Seq::empty());
    let mut methods: Vec<TestMethodInfo> = Vec::new();
    let mut i: usize = 0;
    assert(methods_view(methods@) =~= own_methods_upto(*config, tracker.log(), *class, 0));
    while i < class.body.len()
        invariant
            i <= class.body.len(),
            infos_view(no_infos@) == Seq::<ParametrizeView>::empty(),
            methods_view(methods@) == own_methods_upto(*config, tracker.log(), *class, i as int),
        decreases class.body.len() - i,
    {
        let ghost before = methods_view(methods@);
        if config.is_test_function(class.body[i].name.as_str()) {
            let found = visit_function(tracker, &class.body[i], &None, &no_infos, false, false);
            let mut more = to_methods(&found);
            let ghost added = methods_view(more@);
            methods.append(&mut more);
            assert(methods_view(methods@) =~= before + added);
        }
        i += 1;
    }
    methods
}

/// The names of the functions defined in a class body.
pub fn collect_defined_names(class: &ClassDef) -> (names: Vec<String>)
    ensures
        texts(names@) == defined_names(*class),
{
    let mut names: Vec<String> = Vec::new();
    let mut i: usize = 0;
    while i < class.body.len()
        invariant
            i <= class.body.len(),
            names.len() == i,
            forall|k: int| 0 <= k < i ==> (#[trigger] names[k])@ == class.body@[k].name@,
        decreases class.body.len() - i,
    {
        names.push(class.body[i].name.clone());
        i += 1;
    }
    assert(texts(names@) =~= defined_names(*class));
    names
}

/// What discovery knows of a class of the module `current_module`.
pub fn describe_class(
    config: &TestDiscoveryConfig,
    tracker: &ImportTracker,
    table: &Vec<ImportInfo>,
    current_module: &Vec<String>,
    class: &ClassDef,
) -> (r: Result<TestClassInfo, CollectionError>)
    ensures
        match r {
            Ok(info) => class_view(
                *config,
                tracker.log(),
                table_view(table@),
                texts(current_module@),
                *class,
            ) == Ok::<ClassView, Seq<char>>(info@),
            Err(CollectionError::ImportError(message)) => class_view(
                *config,
                tracker.log(),
                table_view(table@),
                texts(current_module@),
                *class,
            ) == Err::<ClassView, Seq<char>>(message@),
            Err(_) => false,
        },
{
    let base_classes = match collect_base_class_names(class, current_module, table) {
        Ok(bases) => bases,
        Err(e) => {
            return Err(e);
        },
    };
    Ok(
        TestClassInfo {
            module: copy_strings(current_module),
            name: class.name.clone(),
            has_init: class_has_init(class),
            test_methods: collect_test_methods(config, tracker, class),
            base_classes,
            defined: collect_defined_names(class),
        },
    )
}

} // verus!
