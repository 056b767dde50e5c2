//! The tree-value data model the parser consumes.
//!
//! A value is a closed tagged union over scalars, symbols, keywords and the
//! four collection shapes.  Symbols carry a name (plus a namespace for the
//! namespaced form); a plain symbol's leading character gives it its
//! semantic role (`?` logic variable, `$` source, `%` rule set).  Sets keep
//! their elements in insertion order; maps are insertion-ordered pair lists
//! whose keys are expected to be unique.  A float is carried by its bit
//! pattern: this parser never reads one, it only passes it through or
//! rejects it.

use vstd::prelude::*;

verus! {

/// A plain (unqualified) symbol: an identifier token such as `?x`, `$`, or `...`.
#[derive(Debug, PartialEq, Eq)]
pub struct PlainSymbol(pub String);

/// The mathematical model of a tree value.
pub enum SpecValue {
    Nil,
    Boolean(bool),
    Integer(i64),
    Float(u64),
    Text(Seq<char>),
    PlainSymbol(Seq<char>),
    NamespacedSymbol(Seq<char>, Seq<char>),
    Keyword(Seq<char>),
    Vector(Seq<SpecValue>),
    List(Seq<SpecValue>),
    SetOf(Seq<SpecValue>),
    MapOf(Seq<(SpecValue, SpecValue)>),
}

/// One node of the recursive tree of input data.
#[derive(Debug, PartialEq, Eq)]
pub enum Value {
    Nil,
    Boolean(bool),
    Integer(i64),
    /// The bit pattern of a floating-point scalar, carried opaquely.
    Float(u64),
    Text(String),
    PlainSymbol(PlainSymbol),
    NamespacedSymbol(String, String),
    Keyword(Keyword),
    Vector(Vec<Value>),
    List(Vec<Value>),
    SetOf(Vec<Value>),
    MapOf(Vec<(Value, Value)>),
}

/// A keyword such as `:find`: a clause or field marker, distinct from a symbol.
#[derive(Debug, PartialEq, Eq)]
pub struct Keyword(pub String);

impl View for PlainSymbol {
    type V = Seq<char>;

    open spec fn view(&self) -> Seq<char> {
        self.0@
    }
}

impl View for Keyword {
    type V = Seq<char>;

    open spec fn view(&self) -> Seq<char> {
        self.0@
    }
}

/// The views of a sequence of values, in order.
pub open spec fn seq_views(s: Seq<Value>) -> Seq<SpecValue>
    decreases s,
{
    if s.len() == 0 {
        Seq::empty()
    } else {
        seq_views(s.drop_last()).push(s.last()@)
    }
}

/// The views of a sequence of key-value pairs, in order.
pub open spec fn pair_views(s: Seq<(Value, Value)>) -> Seq<(SpecValue, SpecValue)>
    decreases s,
{
    if s.len() == 0 {
        Seq::empty()
    } else {
        pair_views(s.drop_last()).push((s.last().0@, s.last().1@))
    }
}

impl View for Value {
    type V = SpecValue;

    open spec fn view(&self) -> SpecValue
        decreases self,
    {
        match self {
            Value::Nil => SpecValue::Nil,
            Value::Boolean(b) => SpecValue::Boolean(*b),
            Value::Integer(i) => SpecValue::Integer(*i),
            Value::Float(bits) => SpecValue::Float(*bits),
            Value::Text(s) => SpecValue::Text(s@),
            Value::PlainSymbol(s) => SpecValue::PlainSymbol(s@),
            Value::NamespacedSymbol(ns, name) => SpecValue::NamespacedSymbol(ns@, name@),
            Value::Keyword(k) => SpecValue::Keyword(k@),
            Value::Vector(items) => SpecValue::Vector(seq_views(items@)),
            Value::List(items) => SpecValue::List(seq_views(items@)),
            Value::SetOf(items) => SpecValue::SetOf(seq_views(items@)),
            Value::MapOf(pairs) => SpecValue::MapOf(pair_views(pairs@)),
        }
    }
}

/// The name of a logic variable: a plain symbol beginning with `?`.
pub open spec fn is_var_name(n: Seq<char>) -> bool {
    n.len() > 0 && n[0] == '?'
}

/// The name of a source: a plain symbol beginning with `$`.
pub open spec fn is_src_name(n: Seq<char>) -> bool {
    n.len() > 0 && n[0] == '$'
}

/// The name of a rule-set variable: a plain symbol beginning with `%`.
pub open spec fn is_rule_name(n: Seq<char>) -> bool {
    n.len() > 0 && n[0] == '%'
}

/// The scalar marker: the one-character plain symbol `.`.
pub open spec fn is_scalar_marker_name(n: Seq<char>) -> bool {
    n.len() == 1 && n[0] == '.'
}

/// The collection-ellipsis marker: the plain symbol `...`.
pub open spec fn is_ellipsis_name(n: Seq<char>) -> bool {
    n.len() == 3 && n[0] == '.' && n[1] == '.' && n[2] == '.'
}

/// A value that is a logic variable: a `?`-prefixed plain symbol.
pub open spec fn is_logic_var(v: SpecValue) -> bool {
    v matches SpecValue::PlainSymbol(n) && is_var_name(n)
}

/// The name of a logic-variable value.
pub open spec fn var_of(v: SpecValue) -> Seq<char>
    recommends
        is_logic_var(v),
{
    v->PlainSymbol_0
}

/// A value that is the scalar marker symbol `.`.
pub open spec fn is_scalar_marker(v: SpecValue) -> bool {
    v matches SpecValue::PlainSymbol(n) && is_scalar_marker_name(n)
}

/// A value that is the collection-ellipsis marker symbol `...`.
pub open spec fn is_ellipsis(v: SpecValue) -> bool {
    v matches SpecValue::PlainSymbol(n) && is_ellipsis_name(n)
}

impl Keyword {
    /// Make a keyword from its name.
    pub fn new(name: &str) -> (k: Keyword)
        ensures
            k@ == name@,
    {
        Keyword(name.to_owned())
    }
}

impl PlainSymbol {
    /// Make a plain symbol from its name.
    pub fn new(name: &str) -> (s: PlainSymbol)
        ensures
            s@ == name@,
    {
        PlainSymbol(name.to_owned())
    }

    /// Whether this symbol's name begins with the given marker character.
    pub fn starts_with(&self, c: char) -> (r: bool)
        ensures
            r == (self@.len() > 0 && self@[0] == c),
    {
        let s: &str = self.0.as_str();
        s.unicode_len() > 0 && s.get_char(0) == c
    }
}

impl Value {
    /// Whether this value is a keyword.
    pub fn is_keyword(&self) -> (r: bool)
        ensures
            r == (self@ is Keyword),
    {
        match self {
            Value::Keyword(_) => true,
            _ => false,
        }
    }
}

impl Clone for PlainSymbol {
    /// A clone carries the same name.
    fn clone(&self) -> (res: Self)
        ensures
            res@ == self@,
    {
        PlainSymbol(self.0.clone())
    }
}

impl Clone for Keyword {
    /// A clone carries the same name.
    fn clone(&self) -> (res: Self)
        ensures
            res@ == self@,
    {
        Keyword(self.0.clone())
    }
}

impl Clone for Value {
    /// A clone of a tree is a tree with the same view.
    fn clone(&self) -> (res: Self)
        ensures
            res@ == self@,
    {
        clone_value(self)
    }
}

/// Copy a whole tree; the copy has the same view as the original.
fn clone_value(v: &Value) -> (res: Value)
    ensures
        res@ == v@,
    decreases v,
{
    match v {
        Value::Nil => Value::Nil,
        Value::Boolean(b) => Value::Boolean(*b),
        Value::Integer(i) => Value::Integer(*i),
        Value::Float(bits) => Value::Float(*bits),
        Value::Text(s) => Value::Text(s.clone()),
        Value::PlainSymbol(s) => Value::PlainSymbol(s.clone()),
        Value::NamespacedSymbol(ns, name) => Value::NamespacedSymbol(ns.clone(), name.clone()),
        Value::Keyword(k) => Value::Keyword(k.clone()),
        Value::Vector(items) => Value::Vector(clone_values(items)),
        Value::List(items) => Value::List(clone_values(items)),
        Value::SetOf(items) => Value::SetOf(clone_values(items)),
        Value::MapOf(pairs) => Value::MapOf(clone_pairs(pairs)),
    }
}

/// Copy one key-value pair of a map.
fn clone_pair(p: &(Value, Value)) -> (res: (Value, Value))
    ensures
        res.0@ == p.0@,
        res.1@ == p.1@,
    decreases p,
{
    (clone_value(&p.0), clone_value(&p.1))
}

/// Copy the pair list of a map; the copies have the same views, in order.
fn clone_pairs(pairs: &Vec<(Value, Value)>) -> (res: Vec<(Value, Value)>)
    ensures
        pair_views(res@) == pair_views(pairs@),
    decreases pairs,
{
    let mut out: Vec<(Value, Value)> = Vec::new();
    let mut j: usize = 0;
    while j < pairs.len()
        invariant
            j <= pairs.len(),
            out@.len() == j,
            forall|i: int|
                0 <= i < j ==> #[trigger] out@[i].0@ == pairs@[i].0@ && out@[i].1@
                    == pairs@[i].1@,
        decreases pairs.len() - j,
    {
        out.push(clone_pair(&pairs[j]));
        j = j + 1;
    }
    proof {
        lemma_pair_views(out@);
        lemma_pair_views(pairs@);
        assert(pair_views(out@) =~= pair_views(pairs@));
    }
    out
}

/// Copy a vector of trees; the copies have the same views, in order.
pub(crate) fn clone_values(items: &Vec<Value>) -> (res: Vec<Value>)
    ensures
        seq_views(res@) == seq_views(items@),
    decreases items,
{
    let mut out: Vec<Value> = Vec::new();
    let mut j: usize = 0;
    while j < items.len()
        invariant
            j <= items.len(),
            out@.len() == j,
            forall|i: int| 0 <= i < j ==> #[trigger] out@[i]@ == items@[i]@,
        decreases items.len() - j,
    {
        out.push(clone_value(&items[j]));
        j = j + 1;
    }
    proof {
        lemma_seq_views(out@);
        lemma_seq_views(items@);
        assert(seq_views(out@) =~= seq_views(items@));
    }
    out
}

/// `seq_views` is the pointwise view of its argument.
pub broadcast proof fn lemma_seq_views(s: Seq<Value>)
    ensures
        #![trigger seq_views(s)]
        seq_views(s).len() == s.len() && (forall|i: int|
            0 <= i < s.len() ==> seq_views(s)[i] == s[i]@),
    decreases s.len(),
{
    if s.len() > 0 {
        lemma_seq_views(s.drop_last());
        assert(seq_views(s) == seq_views(s.drop_last()).push(s.last()@));
        assert forall|i: int| 0 <= i < s.len() implies seq_views(s)[i] == s[i]@ by {
            if i < s.len() - 1 {
                assert(s.drop_last()[i] == s[i]);
            }
        }
    }
}

/// `pair_views` is the pointwise view of its argument.
pub broadcast proof fn lemma_pair_views(s: Seq<(Value, Value)>)
    ensures
        #![trigger pair_views(s)]
        pair_views(s).len() == s.len() && (forall|i: int|
            0 <= i < s.len() ==> pair_views(s)[i] == (s[i].0@, s[i].1@)),
    decreases s.len(),
{
    if s.len() > 0 {
        lemma_pair_views(s.drop_last());
        assert(pair_views(s) == pair_views(s.drop_last()).push((s.last().0@, s.last().1@)));
        assert forall|i: int| 0 <= i < s.len() implies pair_views(s)[i] == (s[i].0@, s[i].1@) by {
            if i < s.len() - 1 {
                assert(s.drop_last()[i] == s[i]);
            }
        }
    }
}

} // verus!
