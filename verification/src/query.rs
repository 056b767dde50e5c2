//! The typed query specification that parsing produces.
//!
//! A parsed query names its result shape (`FindSpec`), its declared input
//! bindings (`Binding`, from `:in`), and its grouping variables (from
//! `:with`).  Each type carries a mathematical view: a variable is viewed as
//! its name, a find specification as one of four shapes over variable names.

use vstd::prelude::*;

use crate::values::PlainSymbol;

verus! {

/// A logic variable: a `?`-prefixed plain symbol standing for a result slot.
#[derive(Debug, PartialEq, Eq)]
pub struct Variable(pub PlainSymbol);

impl View for Variable {
    type V = Seq<char>;

    open spec fn view(&self) -> Seq<char> {
        self.0@
    }
}

impl Clone for Variable {
    /// A clone carries the same name.
    fn clone(&self) -> (res: Self)
        ensures
            res@ == self@,
    {
        Variable(self.0.clone())
    }
}

/// One element of a `:find` clause.  In this grammar an element is exactly a
/// logic variable; richer kinds (pull expressions, aggregates) are a defined
/// extension point.
#[derive(Debug, PartialEq, Eq)]
pub enum Element {
    Variable(Variable),
}

impl View for Element {
    type V = Seq<char>;

    open spec fn view(&self) -> Seq<char> {
        match self {
            Element::Variable(v) => v@,
        }
    }
}

/// The names of a sequence of elements, in order.
pub open spec fn elem_views(s: Seq<Element>) -> Seq<Seq<char>> {
    Seq::new(s.len(), |i: int| s[i]@)
}

/// The names of a sequence of variables, in order.
pub open spec fn var_views(s: Seq<Variable>) -> Seq<Seq<char>> {
    Seq::new(s.len(), |i: int| s[i]@)
}

/// The mathematical model of a find specification: the classified shape of
/// the query's result set, over variable names.
pub enum SpecFind {
    Scalar(Seq<char>),
    Coll(Seq<char>),
    Tuple(Seq<Seq<char>>),
    Rel(Seq<Seq<char>>),
}

/// The classified shape of a query's result set.
#[derive(Debug, PartialEq, Eq)]
pub enum FindSpec {
    /// Exactly one result value per query evaluation: `?x .`
    FindScalar(Element),
    /// An unbounded sequence of one value's bindings: `[?x ...]`
    FindColl(Element),
    /// Exactly one row of several columns: `[?x ?y]`
    FindTuple(Vec<Element>),
    /// An unbounded sequence of rows: `?x ?y`
    FindRel(Vec<Element>),
}

impl View for FindSpec {
    type V = SpecFind;

    open spec fn view(&self) -> SpecFind {
        match self {
            FindSpec::FindScalar(e) => SpecFind::Scalar(e@),
            FindSpec::FindColl(e) => SpecFind::Coll(e@),
            FindSpec::FindTuple(es) => SpecFind::Tuple(elem_views(es@)),
            FindSpec::FindRel(es) => SpecFind::Rel(elem_views(es@)),
        }
    }
}

/// The mathematical model of one `:in` binding.
pub enum SpecBinding {
    DefaultSource,
    NamedSource(Seq<char>),
    RuleVars(Seq<char>),
    Variable(Seq<char>),
}

/// One `:in`-clause entry: a source, a rule set, or a variable input.
#[derive(Debug, PartialEq, Eq)]
pub enum Binding {
    /// The unnamed source, written `$`.
    DefaultSource,
    /// A named source `$name`; carries the name without its `$` prefix.
    NamedSource(String),
    /// A rule-set variable `%` or `%name`; carries the name without its `%`
    /// prefix (empty for the bare `%`).
    RuleVars(String),
    /// A logic-variable input `?name`.
    Variable(Variable),
}

impl View for Binding {
    type V = SpecBinding;

    open spec fn view(&self) -> SpecBinding {
        match self {
            Binding::DefaultSource => SpecBinding::DefaultSource,
            Binding::NamedSource(n) => SpecBinding::NamedSource(n@),
            Binding::RuleVars(n) => SpecBinding::RuleVars(n@),
            Binding::Variable(v) => SpecBinding::Variable(v@),
        }
    }
}

/// The views of a sequence of bindings, in order.
pub open spec fn binding_views(s: Seq<Binding>) -> Seq<SpecBinding> {
    Seq::new(s.len(), |i: int| s[i]@)
}

/// The mathematical model of a whole parsed query.
pub struct SpecQuery {
    pub find: SpecFind,
    pub inputs: Seq<SpecBinding>,
    pub with: Seq<Seq<char>>,
}

/// A whole parsed query: the find specification, the declared input
/// bindings, and the grouping variables.
#[derive(Debug, PartialEq, Eq)]
pub struct QuerySpec {
    pub find: FindSpec,
    pub inputs: Vec<Binding>,
    pub with: Vec<Element>,
}

impl View for QuerySpec {
    type V = SpecQuery;

    open spec fn view(&self) -> SpecQuery {
        SpecQuery {
            find: self.find@,
            inputs: binding_views(self.inputs@),
            with: elem_views(self.with@),
        }
    }
}

/// Combine the parsed clauses into the final query specification.  Pure
/// construction: no validation happens here, and it never fails.
pub fn assemble(find: FindSpec, inputs: Vec<Binding>, with: Vec<Element>) -> (q: QuerySpec)
    ensures
        q@ == (SpecQuery { find: find@, inputs: binding_views(inputs@), with: elem_views(with@) }),
{
    QuerySpec { find, inputs, with }
}

} // verus!
