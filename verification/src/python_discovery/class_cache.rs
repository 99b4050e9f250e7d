//! The classes known to one discovery task and the walk up their
//! inheritance chains.
//!
//! The walk goes depth-first through the bases from left to right. It
//! carries the classes it has seen, so that a class reached twice, as in a
//! diamond or a cycle, contributes once.

use crate::text::{
    copy_option, copy_strings, find_char, index_of_char, opt_text, same_texts, str_eq,
    string_of_range, texts, to_chars,
};
use vstd::prelude::*;

verus! {

/// A base class as the import table resolves it.
#[derive(Debug, Clone)]
pub struct ResolvedBaseClass {
    /// The dotted path of the module that defines the class.
    pub module: Vec<String>,
    pub class_name: String,
    /// Whether the class is defined in the module that names it.
    pub is_local: bool,
    /// Whether the module belongs to the standard library.
    pub in_stdlib: bool,
}

/// One item of a test method, without the class it is collected under.
#[derive(Debug, Clone)]
pub struct TestMethodInfo {
    pub name: String,
    pub line: usize,
    pub is_parametrized: bool,
    pub has_uncertain_params: bool,
    pub xdist_group: Option<String>,
}

/// What discovery knows of one class.
#[derive(Debug, Clone)]
pub struct TestClassInfo {
    /// The dotted path of the module that defines the class.
    pub module: Vec<String>,
    pub name: String,
    /// Whether the class body defines an initializer.
    pub has_init: bool,
    /// The items of the class's own test methods.
    pub test_methods: Vec<TestMethodInfo>,
    /// The bases that could be resolved, from left to right.
    pub base_classes: Vec<ResolvedBaseClass>,
    /// The names of the functions defined in the class body.
    pub defined: Vec<String>,
}

/// A base class in the language of contracts.
pub struct BaseView {
    pub module: Seq<Seq<char>>,
    pub class_name: Seq<char>,
    pub is_local: bool,
    pub in_stdlib: bool,
}

/// A method item in the language of contracts.
pub struct MethodView {
    pub name: Seq<char>,
    pub line: usize,
    pub is_parametrized: bool,
    pub has_uncertain_params: bool,
    pub xdist_group: Option<Seq<char>>,
}

/// A class in the language of contracts.
pub struct ClassView {
    pub module: Seq<Seq<char>>,
    pub name: Seq<char>,
    pub has_init: bool,
    pub methods: Seq<MethodView>,
    pub bases: Seq<BaseView>,
    pub defined: Seq<Seq<char>>,
}

impl View for ResolvedBaseClass {
    type V = BaseView;

    open spec fn view(&self) -> BaseView {
        BaseView {
            module: texts(self.module@),
            class_name: self.class_name@,
            is_local: self.is_local,
            in_stdlib: self.in_stdlib,
        }
    }
}

impl View for TestMethodInfo {
    type V = MethodView;

    open spec fn view(&self) -> MethodView {
        MethodView {
            name: self.name@,
            line: self.line,
            is_parametrized: self.is_parametrized,
            has_uncertain_params: self.has_uncertain_params,
            xdist_group: opt_text(self.xdist_group),
        }
    }
}

/// The methods of a list in the language of contracts.
pub open spec fn methods_view(methods: Seq<TestMethodInfo>) -> Seq<MethodView> {
    methods.map_values(|m: TestMethodInfo| m@)
}

/// The bases of a list in the language of contracts.
pub open spec fn bases_view(bases: Seq<ResolvedBaseClass>) -> Seq<BaseView> {
    bases.map_values(|b: ResolvedBaseClass| b@)
}

impl View for TestClassInfo {
    type V = ClassView;

    open spec fn view(&self) -> ClassView {
        ClassView {
            module: texts(self.module@),
            name: self.name@,
            has_init: self.has_init,
            methods: methods_view(self.test_methods@),
            bases: bases_view(self.base_classes@),
            defined: texts(self.defined@),
        }
    }
}

/// The classes of a list in the language of contracts.
pub open spec fn cache_view(cache: Seq<TestClassInfo>) -> Seq<ClassView> {
    cache.map_values(|c: TestClassInfo| c@)
}

/// What is known of a module that a base class lives in.
#[derive(Debug, Clone)]
pub enum ModuleStatus {
    /// The module's classes are in the cache.
    Loaded,
    /// No source file was found for the module.
    Unavailable,
    /// The module's source could not be used, with the reason.
    Failed(String),
}

/// A module with what is known of it.
#[derive(Debug, Clone)]
pub struct ModuleRecord {
    pub module: Vec<String>,
    pub status: ModuleStatus,
}

/// The state of a module in the language of contracts.
pub enum ModuleStatusView {
    /// Nothing is known of the module yet.
    NotLoaded,
    Loaded,
    Unavailable,
    Failed(Seq<char>),
}

/// A module record in the language of contracts.
pub struct ModuleRecordView {
    pub module: Seq<Seq<char>>,
    pub status: ModuleStatusView,
}

impl View for ModuleStatus {
    type V = ModuleStatusView;

    open spec fn view(&self) -> ModuleStatusView {
        match self {
            ModuleStatus::Loaded => ModuleStatusView::Loaded,
            ModuleStatus::Unavailable => ModuleStatusView::Unavailable,
            ModuleStatus::Failed(reason) => ModuleStatusView::Failed(reason@),
        }
    }
}

impl View for ModuleRecord {
    type V = ModuleRecordView;

    open spec fn view(&self) -> ModuleRecordView {
        ModuleRecordView { module: texts(self.module@), status: self.status@ }
    }
}

/// The module records of a list in the language of contracts.
pub open spec fn registry_view(registry: Seq<ModuleRecord>) -> Seq<ModuleRecordView> {
    registry.map_values(|r: ModuleRecord| r@)
}

/// Why a walk cannot go on.
#[derive(Debug, Clone)]
pub enum Stop {
    /// A module that a base class lives in has to be loaded first.
    NeedModule(Vec<String>),
    /// A module that a base class lives in could not be used.
    Failed(String),
}

/// A stop in the language of contracts.
pub enum StopView {
    NeedModule(Seq<Seq<char>>),
    Failed(Seq<char>),
}

impl View for Stop {
    type V = StopView;

    open spec fn view(&self) -> StopView {
        match self {
            Stop::NeedModule(module) => StopView::NeedModule(texts(module@)),
            Stop::Failed(reason) => StopView::Failed(reason@),
        }
    }
}

/// The stop in the language of contracts, if there is one.
pub open spec fn stop_view(stop: Option<Stop>) -> Option<StopView> {
    match stop {
        Some(s) => Some(s@),
        None => None,
    }
}

/// What a walk up the inheritance chain carries along.
#[derive(Debug, Clone)]
pub struct WalkState {
    /// The positions in the cache of the classes seen so far.
    pub visited: Vec<usize>,
    /// Whether a class with an initializer was met.
    pub has_init: bool,
    /// Why the walk cannot go on, if it cannot.
    pub stop: Option<Stop>,
}

/// The state of a walk in the language of contracts.
pub struct WalkView {
    pub visited: Seq<usize>,
    pub has_init: bool,
    pub stop: Option<StopView>,
}

impl View for WalkState {
    type V = WalkView;

    open spec fn view(&self) -> WalkView {
        WalkView { visited: self.visited@, has_init: self.has_init, stop: stop_view(self.stop) }
    }
}

impl WalkView {
    /// Whether the walk is over: an initializer was found, or the walk
    /// cannot go on.
    pub open spec fn halted(self) -> bool {
        self.has_init || self.stop is Some
    }

    /// The state at the start of a walk.
    pub open spec fn fresh() -> WalkView {
        WalkView { visited: Seq::empty(), has_init: false, stop: None }
    }
}

/// The position of the latest class among the first `n` of the cache that
/// `module` defines under the name `name`.
pub open spec fn find_class(cache: Seq<ClassView>, module: Seq<Seq<char>>, name: Seq<char>, n: int) -> Option<
    int,
>
    decreases n,
{
    if n <= 0 {
        None
    } else if cache[n - 1].module == module && cache[n - 1].name == name {
        Some(n - 1)
    } else {
        find_class(cache, module, name, n - 1)
    }
}

/// What the latest record among the first `n` says of `module`; nothing is
/// known of a module without a record.
pub open spec fn module_status(registry: Seq<ModuleRecordView>, module: Seq<Seq<char>>, n: int) -> ModuleStatusView
    decreases n,
{
    if n <= 0 {
        ModuleStatusView::NotLoaded
    } else if registry[n - 1].module == module {
        registry[n - 1].status
    } else {
        module_status(registry, module, n - 1)
    }
}

/// The name of the function that an item belongs to: what stands before
/// the first `[`.
pub open spec fn base_name(name: Seq<char>) -> Seq<char> {
    name.subrange(0, index_of_char(name, '[', 0))
}

/// Whether the class body that defines `defined` overrides the item.
pub open spec fn is_overridden(method: MethodView, defined: Seq<Seq<char>>) -> bool {
    defined.contains(base_name(method.name))
}

/// The items among the first `n` inherited ones that the class body does
/// not override.
pub open spec fn kept_upto(inherited: Seq<MethodView>, defined: Seq<Seq<char>>, n: int) -> Seq<
    MethodView,
>
    decreases n,
{
    if n <= 0 {
        Seq::empty()
    } else {
        let before = kept_upto(inherited, defined, n - 1);
        if is_overridden(inherited[n - 1], defined) {
            before
        } else {
            before.push(inherited[n - 1])
        }
    }
}

/// The inherited items that the class body does not override.
pub open spec fn kept(inherited: Seq<MethodView>, defined: Seq<Seq<char>>) -> Seq<MethodView> {
    kept_upto(inherited, defined, inherited.len() as int)
}

/// What the state becomes when the walk reaches a class of another module:
/// the walk stops where the module is not loaded yet or could not be used.
pub open spec fn entered(registry: Seq<ModuleRecordView>, base: BaseView, state: WalkView) -> WalkView {
    if base.is_local {
        state
    } else {
        match module_status(registry, base.module, registry.len() as int) {
            ModuleStatusView::NotLoaded => WalkView {
                stop: Some(StopView::NeedModule(base.module)),
                ..state
            },
            ModuleStatusView::Failed(reason) => WalkView {
                stop: Some(StopView::Failed(reason)),
                ..state
            },
            _ => state,
        }
    }
}

/// The walk from one base class: the items that the class hands down and
/// the state after the walk.
///
/// A class of the standard library, a class that is not in the cache and a
/// class seen before hand down nothing. A class with an initializer ends the
/// walk. Any other class hands down what its own bases hand down, less what
/// its body overrides, followed by its own items. `depth` bounds the length
/// of the chain; a chain of classes that were not seen before is never
/// longer than the cache.
pub open spec fn walk_from(
    cache: Seq<ClassView>,
    registry: Seq<ModuleRecordView>,
    base: BaseView,
    state: WalkView,
    depth: nat,
) -> (Seq<MethodView>, WalkView)
    decreases depth, 0int, 0int,
{
    if state.halted() || depth == 0 || base.in_stdlib {
        (Seq::empty(), state)
    } else {
        let arrived = entered(registry, base, state);
        if arrived.halted() {
            (Seq::empty(), arrived)
        } else {
            match find_class(cache, base.module, base.class_name, cache.len() as int) {
                None => (Seq::empty(), arrived),
                Some(at) => if arrived.visited.contains(at as usize) {
                    (Seq::empty(), arrived)
                } else {
                    let seen = WalkView { visited: arrived.visited.push(at as usize), ..arrived };
                    if cache[at].has_init {
                        (Seq::empty(), WalkView { has_init: true, ..seen })
                    } else {
                        let above = walk_bases(
                            cache,
                            registry,
                            cache[at].bases,
                            cache[at].bases.len() as int,
                            seen,
                            (depth - 1) as nat,
                        );
                        (kept(above.0, cache[at].defined) + cache[at].methods, above.1)
                    }
                },
            }
        }
    }
}

/// The walk from the first `n` of `bases`, one after another, each from the
/// state that the one before left.
pub open spec fn walk_bases(
    cache: Seq<ClassView>,
    registry: Seq<ModuleRecordView>,
    bases: Seq<BaseView>,
    n: int,
    state: WalkView,
    depth: nat,
) -> (Seq<MethodView>, WalkView)
    decreases depth, 1int, n,
{
    if n <= 0 {
        (Seq::empty(), state)
    } else {
        let before = walk_bases(cache, registry, bases, n - 1, state, depth);
        let next = walk_from(cache, registry, bases[n - 1], before.1, depth);
        (before.0 + next.0, next.1)
    }
}

/// Whether the list holds the text.
pub fn contains_text(list: &Vec<String>, text: &str) -> (r: bool)
    ensures
        r == texts(list@).contains(text@),
{
    let mut i: usize = 0;
    while i < list.len()
        invariant
            i <= list.len(),
            forall|k: int| 0 <= k < i ==> (#[trigger] texts(list@)[k]) != text@,
        decreases list.len() - i,
    {
        if str_eq(list[i].as_str(), text) {
            assert(texts(list@)[i as int] == text@);
            return true;
        }
        i += 1;
    }
    false
}

/// The name of the function that an item belongs to.
pub fn method_base_name(name: &str) -> (r: String)
    ensures
        r@ == base_name(name@),
{
    let chars = to_chars(name);
    let end: usize = find_char(&chars, '[', 0);
    string_of_range(&chars, 0, end)
}

impl TestMethodInfo {
    /// A copy with the same fields.
    pub fn duplicate(&self) -> (r: TestMethodInfo)
        ensures
            r@ == self@,
    {
        TestMethodInfo {
            name: self.name.clone(),
            line: self.line,
            is_parametrized: self.is_parametrized,
            has_uncertain_params: self.has_uncertain_params,
            xdist_group: copy_option(&self.xdist_group),
        }
    }
}

/// The inherited items that the class body does not override: an item stays
/// unless the name before its bracket is defined in the class body.
pub fn keep_not_overridden(inherited: Vec<TestMethodInfo>, defined: &Vec<String>) -> (rest: Vec<
    TestMethodInfo,
>)
    ensures
        methods_view(rest@) == kept(methods_view(inherited@), texts(defined@)),
{
    let ghost all = methods_view(inherited@);
    let mut rest: Vec<TestMethodInfo> = Vec::new();
    let mut i: usize = 0;
    assert(methods_view(rest@) =~= kept_upto(all, texts(defined@), 0));
    while i < inherited.len()
        invariant
            i <= inherited.len(),
            all == methods_view(inherited@),
            methods_view(rest@) == kept_upto(all, texts(defined@), i as int),
        decreases inherited.len() - i,
    {
        let ghost before = methods_view(rest@);
        assert(all[i as int] == inherited@[i as int]@);
        let own = method_base_name(inherited[i].name.as_str());
        if !contains_text(defined, own.as_str()) {
            rest.push(inherited[i].duplicate());
            assert(methods_view(rest@) =~= before.push(all[i as int]));
        }
        i += 1;
    }
    rest
}

/// No item that the class body overrides is among those kept, and every
/// item kept is one of the inherited ones.
pub proof fn law_override(inherited: Seq<MethodView>, defined: Seq<Seq<char>>, n: int)
    requires
        0 <= n <= inherited.len(),
    ensures
        forall|k: int|
            0 <= k < kept_upto(inherited, defined, n).len() ==> !is_overridden(
                #[trigger] kept_upto(inherited, defined, n)[k],
                defined,
            ),
        forall|k: int|
            0 <= k < kept_upto(inherited, defined, n).len() ==> exists|at: int|
                0 <= at < n && #[trigger] inherited[at] == #[trigger] kept_upto(
                    inherited,
                    defined,
                    n,
                )[k],
    decreases n,
{
    if n > 0 {
        law_override(inherited, defined, n - 1);
        let before = kept_upto(inherited, defined, n - 1);
        let now = kept_upto(inherited, defined, n);
        assert forall|k: int| 0 <= k < now.len() implies exists|at: int|
            0 <= at < n && #[trigger] inherited[at] == #[trigger] now[k] by {
            if k < before.len() {
                let at = choose|at: int| 0 <= at < n - 1 && #[trigger] inherited[at] == before[k];
                assert(inherited[at] == now[k]);
            } else {
                assert(inherited[n - 1] == now[k]);
            }
        }
    }
}

/// The position of the latest class in the cache that `module` defines
/// under the name `name`.
pub fn lookup_class(cache: &Vec<TestClassInfo>, module: &Vec<String>, name: &str) -> (r: Option<
    usize,
>)
    ensures
        match r {
            Some(at) => at < cache.len() && find_class(
                cache_view(cache@),
                texts(module@),
                name@,
                cache@.len() as int,
            ) == Some(at as int),
            None => find_class(cache_view(cache@), texts(module@), name@, cache@.len() as int)
                is None,
        },
{
    let ghost views = cache_view(cache@);
    let mut n: usize = cache.len();
    while n > 0
        invariant
            n <= cache.len(),
            views == cache_view(cache@),
            find_class(views, texts(module@), name@, cache@.len() as int) == find_class(
                views,
                texts(module@),
                name@,
                n as int,
            ),
        decreases n,
    {
        assert(views[n - 1] == cache@[n - 1]@);
        if same_texts(&cache[n - 1].module, module) && str_eq(cache[n - 1].name.as_str(), name) {
            return Some(n - 1);
        }
        n -= 1;
    }
    None
}

/// What the registry says of `module`: `None` where nothing is known yet.
pub fn lookup_module<'a>(registry: &'a Vec<ModuleRecord>, module: &Vec<String>) -> (r: Option<
    &'a ModuleStatus,
>)
    ensures
        match r {
            Some(status) => module_status(
                registry_view(registry@),
                texts(module@),
                registry@.len() as int,
            ) == status@,
            None => module_status(registry_view(registry@), texts(module@), registry@.len() as int)
                is NotLoaded,
        },
{
    let ghost views = registry_view(registry@);
    let mut n: usize = registry.len();
    while n > 0
        invariant
            n <= registry.len(),
            views == registry_view(registry@),
            module_status(views, texts(module@), registry@.len() as int) == module_status(
                views,
                texts(module@),
                n as int,
            ),
        decreases n,
    {
        assert(views[n - 1] == registry@[n - 1]@);
        if same_texts(&registry[n - 1].module, module) {
            return Some(&registry[n - 1].status);
        }
        n -= 1;
    }
    None
}

/// Whether the position is among those seen.
fn was_visited(visited: &Vec<usize>, at: usize) -> (r: bool)
    ensures
        r == visited@.contains(at),
{
    let mut i: usize = 0;
    while i < visited.len()
        invariant
            i <= visited.len(),
            forall|k: int| 0 <= k < i ==> visited@[k] != at,
        decreases visited.len() - i,
    {
        if visited[i] == at {
            return true;
        }
        i += 1;
    }
    false
}

/// Appends copies of `more` to `methods`.
fn append_methods(methods: &mut Vec<TestMethodInfo>, more: &Vec<TestMethodInfo>)
    ensures
        methods_view(final(methods)@) == methods_view(old(methods)@) + methods_view(more@),
{
    let ghost start = methods_view(old(methods)@);
    let mut i: usize = 0;
    assert(methods_view(methods@) =~= start + methods_view(more@).take(0));
    while i < more.len()
        invariant
            i <= more.len(),
            methods_view(methods@) == start + methods_view(more@).take(i as int),
        decreases more.len() - i,
    {
        let ghost before = methods_view(methods@);
        methods.push(more[i].duplicate());
        assert(methods_view(methods@) =~= before.push(more@[i as int]@));
        assert(methods_view(more@).take(i + 1) =~= methods_view(more@).take(i as int).push(
            more@[i as int]@,
        ));
        i += 1;
    }
    assert(methods_view(more@).take(more.len() as int) =~= methods_view(more@));
}

/// Walks up from one base class and gathers the items that it hands down.
///
/// The walk ends where a class with an initializer is met, and stops where
/// a module has to be loaded first or could not be used; `state` tells
/// which. A class reached a second time hands down nothing.
pub fn walk_base(
    cache: &Vec<TestClassInfo>,
    registry: &Vec<ModuleRecord>,
    base: &ResolvedBaseClass,
    state: &mut WalkState,
    depth: usize,
) -> (methods: Vec<TestMethodInfo>)
    ensures
        (methods_view(methods@), final(state)@) == walk_from(
            cache_view(cache@),
            registry_view(registry@),
            base@,
            old(state)@,
            depth as nat,
        ),
    decreases depth,
{
    let ghost views = cache_view(cache@);
    let ghost records = registry_view(registry@);
    let mut methods: Vec<TestMethodInfo> = Vec::new();
    assert(methods_view(methods@) =~= Seq::<MethodView>::empty());
    if state.has_init || state.stop.is_some() || depth == 0 || base.in_stdlib {
        return methods;
    }
    if !base.is_local {
        match lookup_module(registry, &base.module) {
            None => {
                state.stop = Some(Stop::NeedModule(copy_strings(&base.module)));
                return methods;
            },
            Some(ModuleStatus::Failed(reason)) => {
                state.stop = Some(Stop::Failed(reason.clone()));
                return methods;
            },
            Some(_) => {},
        }
    }
    assert(state@ == entered(records, base@, old(state)@));
    let at: usize = match lookup_class(cache, &base.module, base.class_name.as_str()) {
        None => {
            return methods;
        },
        Some(at) => at,
    };
    if was_visited(&state.visited, at) {
        return methods;
    }
    state.visited.push(at);
    let class = &cache[at];
    assert(views[at as int] == class@);
    if class.has_init {
        state.has_init = true;
        return methods;
    }
    let ghost seen = state@;
    let mut above: Vec<TestMethodInfo> = Vec::new();
    let mut i: usize = 0;
    assert(methods_view(above@) =~= Seq::<MethodView>::empty());
    while i < class.base_classes.len()
        invariant
            i <= class.base_classes.len(),
            depth > 0,
            views == cache_view(cache@),
            records == registry_view(registry@),
            (methods_view(above@), state@) == walk_bases(
                views,
                records,
                bases_view(class.base_classes@),
                i as int,
                seen,
                (depth - 1) as nat,
            ),
        decreases class.base_classes.len() - i,
    {
        assert(bases_view(class.base_classes@)[i as int] == class.base_classes@[i as int]@);
        let next = walk_base(cache, registry, &class.base_classes[i], state, depth - 1);
        append_methods(&mut above, &next);
        i += 1;
    }
    let mut handed = keep_not_overridden(above, &class.defined);
    append_methods(&mut handed, &class.test_methods);
    handed
}

/// The depth to which a walk goes: one more than there are classes, so
/// that the depth never ends a walk before the classes do.
pub open spec fn walk_depth(classes: nat) -> nat {
    if classes < usize::MAX {
        classes + 1
    } else {
        classes
    }
}

/// The depth to which a walk through the cache goes.
pub fn depth_for(cache: &Vec<TestClassInfo>) -> (depth: usize)
    ensures
        depth == walk_depth(cache_view(cache@).len()),
{
    if cache.len() < usize::MAX {
        cache.len() + 1
    } else {
        cache.len()
    }
}

/// How many of the first `n` positions were not seen.
pub open spec fn unseen(visited: Seq<usize>, n: int) -> nat
    decreases n,
{
    if n <= 0 {
        0
    } else if visited.contains((n - 1) as usize) {
        unseen(visited, n - 1)
    } else {
        unseen(visited, n - 1) + 1
    }
}

/// A class that is found is one of the cache.
pub proof fn lemma_find_class_bounds(cache: Seq<ClassView>, module: Seq<Seq<char>>, name: Seq<char>, n: int)
    requires
        0 <= n <= cache.len(),
    ensures
        find_class(cache, module, name, n) matches Some(at) ==> 0 <= at < n,
    decreases n,
{
    if n > 0 {
        lemma_find_class_bounds(cache, module, name, n - 1);
    }
}

/// Seeing a position that is not among the first `n` changes nothing among
/// them.
pub proof fn lemma_unseen_beyond(visited: Seq<usize>, at: usize, n: int)
    requires
        0 <= n <= at,
    ensures
        unseen(visited.push(at), n) == unseen(visited, n),
    decreases n,
{
    if n > 0 {
        lemma_unseen_beyond(visited, at, n - 1);
        let p = (n - 1) as usize;
        let grown = visited.push(at);
        if visited.contains(p) {
            let i = choose|i: int| 0 <= i < visited.len() && visited[i] == p;
            assert(grown[i] == p);
        } else if grown.contains(p) {
            let i = choose|i: int| 0 <= i < grown.len() && grown[i] == p;
            assert(visited[i] == p);
        }
    }
}

/// Seeing one more position leaves no more positions unseen than before,
/// and one fewer where the position was unseen and is among the first `n`.
pub proof fn lemma_unseen_after_visit(visited: Seq<usize>, at: usize, n: int)
    requires
        0 <= n <= usize::MAX,
    ensures
        unseen(visited.push(at), n) <= unseen(visited, n),
        at < n && !visited.contains(at) ==> unseen(visited.push(at), n) + 1 == unseen(visited, n),
    decreases n,
{
    if n > 0 {
        lemma_unseen_after_visit(visited, at, n - 1);
        let p = (n - 1) as usize;
        let grown = visited.push(at);
        if visited.contains(p) {
            let i = choose|i: int| 0 <= i < visited.len() && visited[i] == p;
            assert(grown[i] == p);
        } else if p == at {
            assert(grown[visited.len() as int] == p);
            lemma_unseen_beyond(visited, at, n - 1);
        } else {
            if grown.contains(p) {
                let i = choose|i: int| 0 <= i < grown.len() && grown[i] == p;
                assert(visited[i] == p);
            }
        }
    }
}

/// The depth of a walk never decides what the walk gives: every depth
/// above the number of classes not seen yet gives the same, and a walk
/// leaves no more classes unseen than it found.
pub proof fn law_depth_does_not_matter(
    cache: Seq<ClassView>,
    registry: Seq<ModuleRecordView>,
    base: BaseView,
    state: WalkView,
    depth: nat,
    deeper: nat,
)
    requires
        cache.len() <= usize::MAX,
        depth > unseen(state.visited, cache.len() as int),
        deeper > unseen(state.visited, cache.len() as int),
    ensures
        walk_from(cache, registry, base, state, depth) == walk_from(
            cache,
            registry,
            base,
            state,
            deeper,
        ),
        unseen(walk_from(cache, registry, base, state, depth).1.visited, cache.len() as int)
            <= unseen(state.visited, cache.len() as int),
    decreases depth, 0int, 0int,
{
    if state.halted() || base.in_stdlib {
    } else {
        let arrived = entered(registry, base, state);
        if !arrived.halted() {
            lemma_find_class_bounds(cache, base.module, base.class_name, cache.len() as int);
            match find_class(cache, base.module, base.class_name, cache.len() as int) {
                None => {},
                Some(at) => {
                    if !arrived.visited.contains(at as usize) {
                        let seen = WalkView {
                            visited: arrived.visited.push(at as usize),
                            ..arrived
                        };
                        lemma_unseen_after_visit(arrived.visited, at as usize, cache.len() as int);
                        if !cache[at].has_init {
                            law_depth_of_bases_does_not_matter(
                                cache,
                                registry,
                                cache[at].bases,
                                cache[at].bases.len() as int,
                                seen,
                                (depth - 1) as nat,
                                (deeper - 1) as nat,
                            );
                        }
                    }
                },
            }
        }
    }
}

/// The same for the walks from the first `n` of `bases`.
pub proof fn law_depth_of_bases_does_not_matter(
    cache: Seq<ClassView>,
    registry: Seq<ModuleRecordView>,
    bases: Seq<BaseView>,
    n: int,
    state: WalkView,
    depth: nat,
    deeper: nat,
)
    requires
        cache.len() <= usize::MAX,
        depth > unseen(state.visited, cache.len() as int),
        deeper > unseen(state.visited, cache.len() as int),
    ensures
        walk_bases(cache, registry, bases, n, state, depth) == walk_bases(
            cache,
            registry,
            bases,
            n,
            state,
            deeper,
        ),
        unseen(walk_bases(cache, registry, bases, n, state, depth).1.visited, cache.len() as int)
            <= unseen(state.visited, cache.len() as int),
    decreases depth, 1int, n,
{
    if n > 0 {
        law_depth_of_bases_does_not_matter(cache, registry, bases, n - 1, state, depth, deeper);
        let before = walk_bases(cache, registry, bases, n - 1, state, depth);
        law_depth_does_not_matter(cache, registry, bases[n - 1], before.1, depth, deeper);
    }
}

} // verus!
