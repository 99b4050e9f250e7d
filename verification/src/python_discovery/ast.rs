//! The part of a Python syntax tree that test discovery reads.
//!
//! A parser fills these types; discovery never looks at source text. Numbers
//! are held in their lexical form, so no arithmetic on them is needed here.

use vstd::prelude::*;

verus! {

/// An expression, as far as decorators and base-class lists need it.
#[derive(Debug)]
pub enum Expr {
    /// A bare identifier.
    Name(String),
    /// `value.attr`
    Attribute { value: Box<Expr>, attr: String },
    /// `func(args, keywords)`
    Call { func: Box<Expr>, args: Vec<Expr>, keywords: Vec<Keyword> },
    /// A string literal, by its value.
    StringLiteral(String),
    /// An integer literal, by its decimal form.
    IntLiteral(String),
    /// A float literal, by its shortest exact form.
    FloatLiteral(String),
    /// An imaginary literal.
    ComplexLiteral,
    /// `True` or `False`
    BooleanLiteral(bool),
    /// `None`
    NoneLiteral,
    /// `-operand`
    Negative(Box<Expr>),
    /// `[...]`
    List(Vec<Expr>),
    /// `(...)`
    Tuple(Vec<Expr>),
    /// A list, set or dict comprehension, or a generator expression.
    Comprehension,
    /// Any other expression, by a description of its kind.
    Other(String),
}

/// A keyword argument of a call; `arg` is `None` for `**kwargs`.
#[derive(Debug)]
pub struct Keyword {
    pub arg: Option<String>,
    pub value: Expr,
}

/// A function definition: its name, where it starts, and its decorators from
/// the outermost to the innermost.
#[derive(Debug)]
pub struct FunctionDef {
    pub name: String,
    /// The line of the source on which the definition starts, counted
    /// from 1.
    pub line: usize,
    pub decorators: Vec<Expr>,
}

/// A class definition: its name, where it starts, its decorators, its base
/// classes from left to right, and the functions defined directly in its
/// body.
#[derive(Debug)]
pub struct ClassDef {
    pub name: String,
    /// The line of the source on which the definition starts, counted
    /// from 1.
    pub line: usize,
    pub decorators: Vec<Expr>,
    pub bases: Vec<Expr>,
    pub body: Vec<FunctionDef>,
}

/// One imported name with the name it is bound to, if that differs.
#[derive(Debug, Clone)]
pub struct Alias {
    pub name: String,
    pub asname: Option<String>,
}

/// A statement at the top level of a module.
#[derive(Debug)]
pub enum Stmt {
    FunctionDef(FunctionDef),
    ClassDef(ClassDef),
    /// `import a.b as c, d`
    Import(Vec<Alias>),
    /// `from ..module import name as alias`; `level` counts the leading dots.
    ImportFrom { module: Option<String>, names: Vec<Alias>, level: usize },
    /// Anything else.
    Other,
}

/// A parsed module: its top-level statements in source order.
#[derive(Debug)]
pub struct Module {
    pub body: Vec<Stmt>,
}

impl Alias {
    /// The name that the import binds in the module.
    pub open spec fn local_name(self) -> Seq<char> {
        match self.asname {
            Some(a) => a@,
            None => self.name@,
        }
    }

    /// The name that the import binds in the module.
    pub fn bound_name(&self) -> (r: &str)
        ensures
            r@ == self.local_name(),
    {
        match &self.asname {
            Some(a) => a.as_str(),
            None => self.name.as_str(),
        }
    }
}

impl ClassDef {
    /// Whether the first `n` functions of the body define `__init__`.
    pub open spec fn has_init_upto(self, n: int) -> bool
        decreases n,
    {
        if n <= 0 {
            false
        } else {
            self.has_init_upto(n - 1) || self.body[n - 1].name@ == "__init__"@
        }
    }

    /// Whether the class body defines an initializer.
    pub open spec fn has_init(self) -> bool {
        self.has_init_upto(self.body.len() as int)
    }
}

} // verus!
