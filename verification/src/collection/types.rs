//! The collector variants and what identifies them.

use vstd::prelude::*;

verus! {

/// Where a test item lives: its file, its line if known, and its name.
#[derive(Debug, Clone)]
pub struct Location {
    pub path: String,
    pub line: Option<usize>,
    pub name: String,
}

/// A directory of the walked tree.
#[derive(Debug, Clone)]
pub struct Directory {
    pub path: String,
    pub nodeid: String,
}

/// A test module: one source file.
#[derive(Debug, Clone)]
pub struct Module {
    pub path: String,
    pub nodeid: String,
}

/// A test item: one function or method, or one row of a parametrized one.
#[derive(Debug, Clone)]
pub struct Function {
    pub name: String,
    pub nodeid: String,
    pub location: Location,
    /// A parametrize decorator stands on the function or on its class.
    pub is_parametrized: bool,
    /// Some parameter value could not be read as a literal.
    pub has_uncertain_params: bool,
    /// The group tag: items with the same tag run in the same worker under
    /// the group policy.
    pub xdist_group: Option<String>,
}

/// A node of the collection tree.
#[derive(Debug, Clone)]
pub enum CollectorNode {
    Directory(Directory),
    Module(Module),
    Function(Function),
}

/// What every node of the collection tree can tell of itself.
pub trait Collector {
    /// The node identifier as a sequence of characters.
    spec fn nodeid_view(&self) -> Seq<char>;

    /// The node's path as a sequence of characters.
    spec fn path_view(&self) -> Seq<char>;

    /// Whether the node is a leaf, that is a test item.
    spec fn is_leaf(&self) -> bool;

    /// The identifier that names this node within one collection pass.
    fn nodeid(&self) -> (r: &str)
        ensures
            r@ == self.nodeid_view(),
    ;

    /// The path of the file or directory that the node stands for.
    fn path(&self) -> (r: &str)
        ensures
            r@ == self.path_view(),
    ;

    /// Whether the node is a test item.
    fn is_item(&self) -> (r: bool)
        ensures
            r == self.is_leaf(),
    ;
}

impl Collector for Directory {
    open spec fn nodeid_view(&self) -> Seq<char> {
        self.nodeid@
    }

    open spec fn path_view(&self) -> Seq<char> {
        self.path@
    }

    open spec fn is_leaf(&self) -> bool {
        false
    }

    fn nodeid(&self) -> (r: &str) {
        self.nodeid.as_str()
    }

    fn path(&self) -> (r: &str) {
        self.path.as_str()
    }

    fn is_item(&self) -> (r: bool) {
        false
    }
}

impl Collector for Module {
    open spec fn nodeid_view(&self) -> Seq<char> {
        self.nodeid@
    }

    open spec fn path_view(&self) -> Seq<char> {
        self.path@
    }

    open spec fn is_leaf(&self) -> bool {
        false
    }

    fn nodeid(&self) -> (r: &str) {
        self.nodeid.as_str()
    }

    fn path(&self) -> (r: &str) {
        self.path.as_str()
    }

    fn is_item(&self) -> (r: bool) {
        false
    }
}

impl Collector for Function {
    open spec fn nodeid_view(&self) -> Seq<char> {
        self.nodeid@
    }

    open spec fn path_view(&self) -> Seq<char> {
        self.location.path@
    }

    open spec fn is_leaf(&self) -> bool {
        true
    }

    fn nodeid(&self) -> (r: &str) {
        self.nodeid.as_str()
    }

    fn path(&self) -> (r: &str) {
        self.location.path.as_str()
    }

    fn is_item(&self) -> (r: bool) {
        true
    }
}

impl Collector for CollectorNode {
    open spec fn nodeid_view(&self) -> Seq<char> {
        match self {
            CollectorNode::Directory(d) => d.nodeid@,
            CollectorNode::Module(m) => m.nodeid@,
            CollectorNode::Function(f) => f.nodeid@,
        }
    }

    open spec fn path_view(&self) -> Seq<char> {
        match self {
            CollectorNode::Directory(d) => d.path@,
            CollectorNode::Module(m) => m.path@,
            CollectorNode::Function(f) => f.location.path@,
        }
    }

    open spec fn is_leaf(&self) -> bool {
        self is Function
    }

    fn nodeid(&self) -> (r: &str) {
        match self {
            CollectorNode::Directory(d) => d.nodeid.as_str(),
            CollectorNode::Module(m) => m.nodeid.as_str(),
            CollectorNode::Function(f) => f.nodeid.as_str(),
        }
    }

    fn path(&self) -> (r: &str) {
        match self {
            CollectorNode::Directory(d) => d.path.as_str(),
            CollectorNode::Module(m) => m.path.as_str(),
            CollectorNode::Function(f) => f.location.path.as_str(),
        }
    }

    fn is_item(&self) -> (r: bool) {
        match self {
            CollectorNode::Function(_) => true,
            _ => false,
        }
    }
}

impl Location {
    /// A copy with the same fields.
    pub fn duplicate(&self) -> (r: Location)
        ensures
            r == *self,
    {
        Location { path: self.path.clone(), line: self.line, name: self.name.clone() }
    }
}

impl Function {
    /// A copy with the same fields.
    pub fn duplicate(&self) -> (r: Function)
        ensures
            r == *self,
    {
        Function {
            name: self.name.clone(),
            nodeid: self.nodeid.clone(),
            location: self.location.duplicate(),
            is_parametrized: self.is_parametrized,
            has_uncertain_params: self.has_uncertain_params,
            xdist_group: match &self.xdist_group {
                Some(g) => Some(g.clone()),
                None => None,
            },
        }
    }

    /// The key under which the group policy files this item: its group tag,
    /// or its own node identifier where it has none.
    pub open spec fn group_key(self) -> Seq<char> {
        match self.xdist_group {
            Some(g) => g@,
            None => self.nodeid@,
        }
    }
}

impl CollectorNode {
    /// The test item that this node is, if it is one.
    pub fn try_as_function(&self) -> (r: Option<&Function>)
        ensures
            match r {
                Some(f) => *self == CollectorNode::Function(*f),
                None => !(self is Function),
            },
    {
        match self {
            CollectorNode::Function(f) => Some(f),
            _ => None,
        }
    }
}

} // verus!
