//! Parsing a whole query tree into a typed query specification.
//!
//! The query input can be in two forms: a flat human-oriented sequence,
//!
//! ```text
//! [:find ?y :in $ ?x :where [?x :foaf/knows ?y]]
//! ```
//!
//! or a more programmatically generable map,
//!
//! ```text
//! {:find [?y]
//!  :in [$ ?x]
//!  :where [[?x :foaf/knows ?y]]}
//! ```
//!
//! Either form is normalized to the canonical clause map, and the four parts
//! are parsed from there: the `:find` clause is classified into a result
//! shape, `:in` and `:with` yield binding lists (absent `:in` defaults to
//! the unnamed source `$`; absent `:with` to no variables), and `:where` is
//! handed on untouched for the out-of-scope clause compiler.

use vstd::prelude::*;

use crate::error::{FindParseError, SpecParseError};
use crate::parse::{
    elems_res_view, find_res_view, find_seq_to_find_spec, spec_classify, spec_vars,
    values_to_elements, wrap_invalid, FindSp,
};
use crate::query::{
    assemble, binding_views, elem_views, var_views, Binding, Element, FindSpec, QuerySpec,
    SpecBinding, SpecFind, SpecQuery, Variable,
};
use crate::util::{spec_group, vec_to_keyword_map, KeywordMap};
use crate::values::{
    clone_values, is_rule_name, is_src_name, is_var_name, lemma_pair_views, lemma_seq_views,
    pair_views, seq_views, var_of, Keyword, SpecValue, Value,
};

verus! {

broadcast use lemma_seq_views, lemma_pair_views;

/// The binding one `:in` value denotes, if any: the unnamed source `$`, a
/// named source `$name`, a rule set `%name` (bare `%` carries the empty
/// name), or a logic variable `?name`.
pub open spec fn spec_in_binding(v: SpecValue) -> Option<SpecBinding> {
    match v {
        SpecValue::PlainSymbol(n) => if is_src_name(n) {
            if n.len() == 1 {
                Some(SpecBinding::DefaultSource)
            } else {
                Some(SpecBinding::NamedSource(n.skip(1)))
            }
        } else if is_rule_name(n) {
            Some(SpecBinding::RuleVars(n.skip(1)))
        } else if is_var_name(n) {
            Some(SpecBinding::Variable(n))
        } else {
            None
        },
        _ => None,
    }
}

/// Parse an `:in` clause's value list into bindings, keeping order.  The
/// error, if any, is the leftmost value that denotes no binding or repeats
/// an earlier source or rule-set binding.
pub open spec fn spec_inputs(s: Seq<SpecValue>) -> Result<Seq<SpecBinding>, SpecValue>
    decreases s.len(),
{
    if s.len() == 0 {
        Ok(Seq::empty())
    } else {
        match spec_inputs(s.drop_last()) {
            Err(b) => Err(b),
            Ok(bs) => match spec_in_binding(s.last()) {
                None => Err(s.last()),
                Some(b) => if !(b is Variable) && bs.contains(b) {
                    Err(s.last())
                } else {
                    Ok(bs.push(b))
                },
            },
        }
    }
}

/// Normalize an explicit map form's pairs: every key must be a keyword and
/// every value a vector, and no key may repeat.  The error, if any, is the
/// leftmost offending key or value.
pub open spec fn spec_map_clauses(s: Seq<(SpecValue, SpecValue)>) -> Result<
    Map<Seq<char>, Seq<SpecValue>>,
    SpecValue,
>
    decreases s.len(),
{
    if s.len() == 0 {
        Ok(Map::empty())
    } else {
        match spec_map_clauses(s.drop_last()) {
            Err(b) => Err(b),
            Ok(m) => match s.last().0 {
                SpecValue::Keyword(k) => match s.last().1 {
                    SpecValue::Vector(items) => if m.contains_key(k) {
                        Err(s.last().0)
                    } else {
                        Ok(m.insert(k, items))
                    },
                    _ => Err(s.last().1),
                },
                _ => Err(s.last().0),
            },
        }
    }
}

/// Parse the four clause value lists into a query specification: classify
/// `:find`, extract the `:in` bindings (an absent clause is the implicit
/// `:in $`) and the `:with` variables (an absent clause is empty), and
/// assemble.
pub open spec fn from_parts(
    find: Seq<SpecValue>,
    ins: Option<Seq<SpecValue>>,
    with: Option<Seq<SpecValue>>,
) -> Result<SpecQuery, SpecParseError> {
    match spec_classify(find) {
        Err(b) => Err(SpecParseError::Invalid(b)),
        Ok(f) => match (match ins {
            Some(s) => spec_inputs(s),
            None => Ok(seq![SpecBinding::DefaultSource]),
        }) {
            Err(b) => Err(SpecParseError::Invalid(b)),
            Ok(bs) => match (match with {
                Some(s) => spec_vars(s),
                None => Ok(Seq::empty()),
            }) {
                Err(b) => Err(SpecParseError::Invalid(b)),
                Ok(ws) => Ok(SpecQuery { find: f, inputs: bs, with: ws }),
            },
        },
    }
}

/// Parse a canonical clause map: `:find` and `:where` must be present,
/// `:in` and `:with` are optional.
pub open spec fn from_clauses(m: Map<Seq<char>, Seq<SpecValue>>) -> Result<
    SpecQuery,
    SpecParseError,
> {
    if !m.contains_key("find"@) {
        Err(SpecParseError::Missing("find"@))
    } else if !m.contains_key("where"@) {
        Err(SpecParseError::Missing("where"@))
    } else {
        from_parts(
            m["find"@],
            if m.contains_key("in"@) {
                Some(m["in"@])
            } else {
                None
            },
            if m.contains_key("with"@) {
                Some(m["with"@])
            } else {
                None
            },
        )
    }
}

/// Normalize one top-level tree to the canonical clause map: a map form
/// directly, a vector form through grouping; any other top-level shape is
/// invalid.
pub open spec fn spec_normalize(v: SpecValue) -> Result<
    Map<Seq<char>, Seq<SpecValue>>,
    SpecParseError,
> {
    match v {
        SpecValue::MapOf(pairs) => match spec_map_clauses(pairs) {
            Ok(m) => Ok(m),
            Err(b) => Err(SpecParseError::Invalid(b)),
        },
        SpecValue::Vector(items) => match spec_group(items) {
            Some(m) => Ok(m),
            None => Err(SpecParseError::Invalid(v)),
        },
        _ => Err(SpecParseError::Invalid(v)),
    }
}

/// What parsing a whole query tree yields: normalization to the canonical
/// clause map, then clause-by-clause parsing.
pub open spec fn spec_parse_query(v: SpecValue) -> Result<SpecQuery, SpecParseError> {
    match spec_normalize(v) {
        Ok(m) => from_clauses(m),
        Err(e) => Err(e),
    }
}

/// The find specification of a parsed query tree.
pub open spec fn spec_parse_find(v: SpecValue) -> Result<SpecFind, SpecParseError> {
    match spec_parse_query(v) {
        Ok(q) => Ok(q.find),
        Err(e) => Err(e),
    }
}

/// The view of a variable-list parse's result.
pub open spec fn vars_res_view(r: Result<Vec<Variable>, FindParseError>) -> Result<
    Seq<Seq<char>>,
    SpecParseError,
> {
    match r {
        Ok(vs) => Ok(var_views(vs@)),
        Err(e) => Err(e@),
    }
}

/// The view of a binding-list parse's result.
pub open spec fn bindings_res_view(r: Result<Vec<Binding>, FindParseError>) -> Result<
    Seq<SpecBinding>,
    SpecParseError,
> {
    match r {
        Ok(bs) => Ok(binding_views(bs@)),
        Err(e) => Err(e@),
    }
}

/// The view of a whole parse's result.
pub open spec fn query_res_view(r: Result<QuerySpec, FindParseError>) -> Result<
    SpecQuery,
    SpecParseError,
> {
    match r {
        Ok(q) => Ok(q@),
        Err(e) => Err(e@),
    }
}

/// Once a prefix parses as bindings and the next value fails — it denotes no
/// binding, or repeats an earlier source or rule-set binding — the whole
/// list's parse fails on exactly that value.
proof fn lemma_spec_inputs_err(s: Seq<SpecValue>, j: int, m: int)
    requires
        0 <= j < m <= s.len(),
        spec_inputs(s.subrange(0, j)) matches Ok(bs) && (match spec_in_binding(s[j]) {
            None => true,
            Some(b) => !(b is Variable) && bs.contains(b),
        }),
    ensures
        spec_inputs(s.subrange(0, m)) == Err::<Seq<SpecBinding>, SpecValue>(s[j]),
    decreases m - j,
{
    if m == j + 1 {
        assert(s.subrange(0, m).drop_last() =~= s.subrange(0, j));
        assert(s.subrange(0, m).last() == s[j]);
    } else {
        lemma_spec_inputs_err(s, j, m - 1);
        assert(s.subrange(0, m).drop_last() =~= s.subrange(0, m - 1));
    }
}

/// The value on which a clause pair fails: a non-keyword key, a non-vector
/// value, or (for a repeated key) the key.
spec fn clause_pair_err(p: (SpecValue, SpecValue)) -> SpecValue {
    match p.0 {
        SpecValue::Keyword(k) => if p.1 is Vector {
            p.0
        } else {
            p.1
        },
        _ => p.0,
    }
}

/// Once a prefix of the pair list normalizes and the next pair fails, the
/// whole list's normalization fails on exactly that pair.
proof fn lemma_spec_map_clauses_err(s: Seq<(SpecValue, SpecValue)>, j: int, m: int)
    requires
        0 <= j < m <= s.len(),
        spec_map_clauses(s.subrange(0, j)) matches Ok(acc) && (match s[j].0 {
            SpecValue::Keyword(k) => !(s[j].1 is Vector) || acc.contains_key(k),
            _ => true,
        }),
    ensures
        spec_map_clauses(s.subrange(0, m)) == Err::<Map<Seq<char>, Seq<SpecValue>>, SpecValue>(
            clause_pair_err(s[j]),
        ),
    decreases m - j,
{
    if m == j + 1 {
        assert(s.subrange(0, m).drop_last() =~= s.subrange(0, j));
        assert(s.subrange(0, m).last() == s[j]);
    } else {
        lemma_spec_map_clauses_err(s, j, m - 1);
        assert(s.subrange(0, m).drop_last() =~= s.subrange(0, m - 1));
    }
}

/// Parse every value of a list as a logic variable, keeping order.
pub fn values_to_variables(vals: &Vec<Value>) -> (r: Result<Vec<Variable>, FindParseError>)
    ensures
        vars_res_view(r) == wrap_invalid(spec_vars(seq_views(vals@))),
{
    let ghost sv = seq_views(vals@);
    let n = vals.len();
    let mut out: Vec<Variable> = Vec::new();
    let mut j: usize = 0;
    proof {
        assert(sv.subrange(0, 0) =~= Seq::<SpecValue>::empty());
        assert(var_views(out@) =~= Seq::<Seq<char>>::empty());
    }
    while j < n
        invariant
            0 <= j <= n,
            n == vals@.len(),
            sv == seq_views(vals@),
            spec_vars(sv.subrange(0, j as int)) == Ok::<_, SpecValue>(var_views(out@)),
        decreases n - j,
    {
        let ghost old_names = var_views(out@);
        match FindSp::variable(&vals[j]) {
            Some(var) => {
                out.push(var);
            },
            None => {
                proof {
                    crate::parse::lemma_spec_vars_err(sv, j as int, sv.len() as int);
                    assert(sv.subrange(0, sv.len() as int) =~= sv);
                }
                return Err(FindParseError::InvalidInput(vals[j].clone()));
            },
        }
        proof {
            assert(sv.subrange(0, j + 1).drop_last() =~= sv.subrange(0, j as int));
            assert(sv.subrange(0, j + 1).last() == sv[j as int]);
            assert(var_views(out@) =~= old_names.push(var_of(sv[j as int])));
        }
        j = j + 1;
    }
    proof {
        assert(sv.subrange(0, n as int) =~= sv);
    }
    Ok(out)
}

/// Whether two bindings denote the same thing.
fn binding_eq(a: &Binding, b: &Binding) -> (r: bool)
    ensures
        r == (a@ == b@),
{
    match a {
        Binding::DefaultSource => match b {
            Binding::DefaultSource => true,
            _ => false,
        },
        Binding::NamedSource(x) => match b {
            Binding::NamedSource(y) => *x == *y,
            _ => false,
        },
        Binding::RuleVars(x) => match b {
            Binding::RuleVars(y) => *x == *y,
            _ => false,
        },
        Binding::Variable(vx) => match b {
            Binding::Variable(vy) => vx.0.0 == vy.0.0,
            _ => false,
        },
    }
}

/// Whether a list already holds a binding denoting the same thing.
fn contains_binding(bs: &Vec<Binding>, b: &Binding) -> (r: bool)
    ensures
        r == binding_views(bs@).contains(b@),
{
    let n = bs.len();
    let mut i: usize = 0;
    while i < n
        invariant
            0 <= i <= n,
            n == bs@.len(),
            forall|t: int| 0 <= t < i ==> binding_views(bs@)[t] != b@,
        decreases n - i,
    {
        if binding_eq(&bs[i], b) {
            proof {
                assert(binding_views(bs@)[i as int] == b@);
            }
            return true;
        }
        i = i + 1;
    }
    proof {
        assert(forall|t: int| 0 <= t < bs@.len() ==> binding_views(bs@)[t] != b@);
    }
    false
}

/// Parse one `:in` value as a binding, if it denotes one.
fn value_to_binding(v: &Value) -> (r: Option<Binding>)
    ensures
        match spec_in_binding(v@) {
            Some(b) => r matches Some(rb) && rb@ == b,
            None => r is None,
        },
{
    match v {
        Value::PlainSymbol(sym) => {
            let s: &str = sym.0.as_str();
            let len = s.unicode_len();
            if len == 0 {
                return None;
            }
            let c = s.get_char(0);
            if c == '$' {
                if len == 1 {
                    Some(Binding::DefaultSource)
                } else {
                    let rest = s.substring_char(1, len);
                    proof {
                        assert(s@.subrange(1, len as int) =~= sym@.skip(1));
                    }
                    Some(Binding::NamedSource(rest.to_owned()))
                }
            } else if c == '%' {
                let rest = s.substring_char(1, len);
                proof {
                    assert(s@.subrange(1, len as int) =~= sym@.skip(1));
                }
                Some(Binding::RuleVars(rest.to_owned()))
            } else if c == '?' {
                Some(Binding::Variable(Variable(sym.clone())))
            } else {
                None
            }
        },
        _ => None,
    }
}

/// Parse an `:in` clause's value list into bindings, keeping order.  A
/// value that denotes no binding, or a repeated source or rule-set binding,
/// is invalid input.
pub fn extract_inputs(vals: &Vec<Value>) -> (r: Result<Vec<Binding>, FindParseError>)
    ensures
        bindings_res_view(r) == wrap_invalid(spec_inputs(seq_views(vals@))),
{
    let ghost sv = seq_views(vals@);
    let n = vals.len();
    let mut out: Vec<Binding> = Vec::new();
    let mut j: usize = 0;
    proof {
        assert(sv.subrange(0, 0) =~= Seq::<SpecValue>::empty());
        assert(binding_views(out@) =~= Seq::<SpecBinding>::empty());
    }
    while j < n
        invariant
            0 <= j <= n,
            n == vals@.len(),
            sv == seq_views(vals@),
            spec_inputs(sv.subrange(0, j as int)) == Ok::<_, SpecValue>(binding_views(out@)),
        decreases n - j,
    {
        let ghost old_bs = binding_views(out@);
        match value_to_binding(&vals[j]) {
            None => {
                proof {
                    lemma_spec_inputs_err(sv, j as int, sv.len() as int);
                    assert(sv.subrange(0, sv.len() as int) =~= sv);
                }
                return Err(FindParseError::InvalidInput(vals[j].clone()));
            },
            Some(b) => {
                let is_var = matches!(&b, Binding::Variable(_));
                if !is_var && contains_binding(&out, &b) {
                    proof {
                        lemma_spec_inputs_err(sv, j as int, sv.len() as int);
                        assert(sv.subrange(0, sv.len() as int) =~= sv);
                    }
                    return Err(FindParseError::InvalidInput(vals[j].clone()));
                }
                out.push(b);
                proof {
                    assert(sv.subrange(0, j + 1).drop_last() =~= sv.subrange(0, j as int));
                    assert(sv.subrange(0, j + 1).last() == sv[j as int]);
                    assert(binding_views(out@) =~= old_bs.push(
                        spec_in_binding(sv[j as int])->Some_0,
                    ));
                }
            },
        }
        j = j + 1;
    }
    proof {
        assert(sv.subrange(0, n as int) =~= sv);
    }
    Ok(out)
}

/// Parse a `:with` clause's value list: every value must be a logic
/// variable.
pub fn extract_with(vals: &Vec<Value>) -> (r: Result<Vec<Element>, FindParseError>)
    ensures
        elems_res_view(r) == wrap_invalid(spec_vars(seq_views(vals@))),
{
    values_to_elements(vals)
}

/// The value lists handed to `parse_find_parts` for the optional clauses.
pub open spec fn opt_views(o: Option<&Vec<Value>>) -> Option<Seq<SpecValue>> {
    match o {
        Some(v) => Some(seq_views(v@)),
        None => None,
    }
}

/// Parse the four clauses' value lists.  `:where` is carried through
/// unexamined: compiling pattern clauses is the downstream translator's
/// business, not this parser's.
pub fn parse_find_parts(
    find: &Vec<Value>,
    ins: Option<&Vec<Value>>,
    with: Option<&Vec<Value>>,
    wheres: &Vec<Value>,
) -> (r: Result<QuerySpec, FindParseError>)
    ensures
        query_res_view(r) == from_parts(seq_views(find@), opt_views(ins), opt_views(with)),
{
    let f = match find_seq_to_find_spec(find) {
        Ok(f) => f,
        Err(e) => {
            return Err(e);
        },
    };
    let inputs: Vec<Binding> = match ins {
        Some(vs) => match extract_inputs(vs) {
            Ok(bs) => bs,
            Err(e) => {
                return Err(e);
            },
        },
        None => {
            let mut bs: Vec<Binding> = Vec::new();
            bs.push(Binding::DefaultSource);
            proof {
                assert(binding_views(bs@) =~= seq![SpecBinding::DefaultSource]);
            }
            bs
        },
    };
    let withs: Vec<Element> = match with {
        Some(vs) => match extract_with(vs) {
            Ok(es) => es,
            Err(e) => {
                return Err(e);
            },
        },
        None => {
            let es: Vec<Element> = Vec::new();
            proof {
                assert(elem_views(es@) =~= Seq::<Seq<char>>::empty());
            }
            es
        },
    };
    Ok(assemble(f, inputs, withs))
}

/// Parse a canonical clause map: `:find` and `:where` must be present (in
/// that order of checking), `:in` and `:with` are optional.
pub fn parse_find_map(m: &KeywordMap) -> (r: Result<QuerySpec, FindParseError>)
    requires
        m.wf(),
    ensures
        query_res_view(r) == from_clauses(m@),
{
    let kw_find = Keyword::new("find");
    let kw_where = Keyword::new("where");
    let kw_in = Keyword::new("in");
    let kw_with = Keyword::new("with");
    let find = match m.get(&kw_find) {
        Some(f) => f,
        None => {
            return Err(FindParseError::MissingField(kw_find));
        },
    };
    let wheres = match m.get(&kw_where) {
        Some(w) => w,
        None => {
            return Err(FindParseError::MissingField(kw_where));
        },
    };
    parse_find_parts(find, m.get(&kw_in), m.get(&kw_with), wheres)
}

/// Normalize an explicit map form and parse it: every key must be a
/// keyword, every value a vector, and no key may repeat.
pub fn parse_find_edn_map(pairs: &Vec<(Value, Value)>) -> (r: Result<QuerySpec, FindParseError>)
    ensures
        query_res_view(r) == spec_parse_query(SpecValue::MapOf(pair_views(pairs@))),
{
    let ghost pv = pair_views(pairs@);
    let n = pairs.len();
    let mut m = KeywordMap::new();
    let mut j: usize = 0;
    proof {
        assert(pv.subrange(0, 0) =~= Seq::<(SpecValue, SpecValue)>::empty());
    }
    while j < n
        invariant
            0 <= j <= n,
            n == pairs@.len(),
            pv == pair_views(pairs@),
            m.wf(),
            spec_map_clauses(pv.subrange(0, j as int)) == Ok::<_, SpecValue>(m@),
        decreases n - j,
    {
        let p = &pairs[j];
        match (&p.0, &p.1) {
            (Value::Keyword(k), Value::Vector(vec)) => {
                if m.contains_key(k) {
                    proof {
                        lemma_spec_map_clauses_err(pv, j as int, pv.len() as int);
                        assert(pv.subrange(0, pv.len() as int) =~= pv);
                    }
                    return Err(FindParseError::InvalidInput(p.0.clone()));
                }
                m.insert(k.clone(), clone_values(vec));
            },
            (Value::Keyword(_), other) => {
                proof {
                    lemma_spec_map_clauses_err(pv, j as int, pv.len() as int);
                    assert(pv.subrange(0, pv.len() as int) =~= pv);
                }
                return Err(FindParseError::InvalidInput(other.clone()));
            },
            (other, _) => {
                proof {
                    lemma_spec_map_clauses_err(pv, j as int, pv.len() as int);
                    assert(pv.subrange(0, pv.len() as int) =~= pv);
                }
                return Err(FindParseError::InvalidInput(other.clone()));
            },
        }
        proof {
            assert(pv.subrange(0, j + 1).drop_last() =~= pv.subrange(0, j as int));
            assert(pv.subrange(0, j + 1).last() == pv[j as int]);
        }
        j = j + 1;
    }
    proof {
        assert(pv.subrange(0, n as int) =~= pv);
    }
    parse_find_map(&m)
}

/// Parse one query tree — a flat vector form or an explicit map form — into
/// a typed query specification.  Any other top-level shape is invalid
/// input.  Parsing is a pure function of the tree: the result is fully
/// determined by the input's view, so repeated calls agree.
pub fn parse_query(tree: Value) -> (r: Result<QuerySpec, FindParseError>)
    ensures
        query_res_view(r) == spec_parse_query(tree@),
{
    match tree {
        Value::MapOf(pairs) => parse_find_edn_map(&pairs),
        Value::Vector(items) => match vec_to_keyword_map(&items) {
            Some(m) => parse_find_map(&m),
            None => Err(FindParseError::InvalidInput(Value::Vector(items))),
        },
        other => Err(FindParseError::InvalidInput(other)),
    }
}

/// Parse one query tree and keep its find specification: the classified
/// shape of the query's result set.
pub fn parse_find(expr: Value) -> (r: Result<FindSpec, FindParseError>)
    ensures
        find_res_view(r) == spec_parse_find(expr@),
{
    match parse_query(expr) {
        Ok(q) => Ok(q.find),
        Err(e) => Err(e),
    }
}

/// Law: parsing is deterministic.  `parse_query` promises that its result's
/// view equals `spec_parse_query` of the tree's view, so any two results of
/// parsing the same tree agree.
pub proof fn lemma_parse_query_deterministic(
    t: SpecValue,
    r1: Result<QuerySpec, FindParseError>,
    r2: Result<QuerySpec, FindParseError>,
)
    requires
        query_res_view(r1) == spec_parse_query(t),
        query_res_view(r2) == spec_parse_query(t),
    ensures
        query_res_view(r1) == query_res_view(r2),
{
}

/// Law: a query given in the flat surface syntax and one given in the map
/// surface syntax with the same clause contents parse to the same query
/// specification.
pub proof fn lemma_surface_forms_agree(items: Seq<SpecValue>, pairs: Seq<(SpecValue, SpecValue)>)
    requires
        spec_group(items) is Some,
        spec_map_clauses(pairs) is Ok,
        spec_group(items)->Some_0 == spec_map_clauses(pairs)->Ok_0,
    ensures
        spec_parse_query(SpecValue::Vector(items)) == spec_parse_query(SpecValue::MapOf(pairs)),
{
}

} // verus!
