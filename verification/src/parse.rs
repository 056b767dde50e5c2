//! The find-spec classifier: a deterministic, priority-ordered shape
//! dispatch over the `:find` clause's value list.
//!
//! The four result shapes are told apart by pattern, not by tag:
//!
//! ```text
//! ?x ?y ?z     relation
//! [?x ...]     collection
//! ?x .         scalar
//! [?x ?y ?z]   tuple
//! ```

use vstd::prelude::*;

use crate::error::{FindParseError, SpecParseError};
use crate::query::{elem_views, Element, FindSpec, SpecFind, Variable};
use crate::values::{
    is_ellipsis, is_logic_var, is_scalar_marker, lemma_seq_views, seq_views, var_of, SpecValue,
    Value,
};

verus! {

broadcast use lemma_seq_views;

/// Wrap a component's offending-value error as an invalid-input parse error.
pub open spec fn wrap_invalid<T>(r: Result<T, SpecValue>) -> Result<T, SpecParseError> {
    match r {
        Ok(t) => Ok(t),
        Err(v) => Err(SpecParseError::Invalid(v)),
    }
}

/// Parse every value of a list as a logic variable, keeping order; the
/// error, if any, is the leftmost value that is no logic variable.
pub open spec fn spec_vars(s: Seq<SpecValue>) -> Result<Seq<Seq<char>>, SpecValue>
    decreases s.len(),
{
    if s.len() == 0 {
        Ok(Seq::empty())
    } else {
        match spec_vars(s.drop_last()) {
            Err(b) => Err(b),
            Ok(t) => if is_logic_var(s.last()) {
                Ok(t.push(var_of(s.last())))
            } else {
                Err(s.last())
            },
        }
    }
}

/// Classify a `:find` clause's value list into one of the four result
/// shapes, or name the offending value.  Dispatch order: scalar, collection,
/// tuple, relation.  An empty list is itself invalid.
pub open spec fn spec_classify(s: Seq<SpecValue>) -> Result<SpecFind, SpecValue> {
    if s.len() == 0 {
        Err(SpecValue::Vector(s))
    } else if s.len() == 2 && is_scalar_marker(s[1]) {
        if is_logic_var(s[0]) {
            Ok(SpecFind::Scalar(var_of(s[0])))
        } else {
            Err(s[0])
        }
    } else if s.len() == 1 {
        match s[0] {
            SpecValue::Vector(inner) => if inner.len() == 2 && is_ellipsis(inner[1]) {
                if is_logic_var(inner[0]) {
                    Ok(SpecFind::Coll(var_of(inner[0])))
                } else {
                    Err(inner[0])
                }
            } else if inner.len() == 0 {
                Err(s[0])
            } else {
                match spec_vars(inner) {
                    Ok(names) => Ok(SpecFind::Tuple(names)),
                    Err(b) => Err(b),
                }
            },
            _ => match spec_vars(s) {
                Ok(names) => Ok(SpecFind::Rel(names)),
                Err(b) => Err(b),
            },
        }
    } else {
        match spec_vars(s) {
            Ok(names) => Ok(SpecFind::Rel(names)),
            Err(b) => Err(b),
        }
    }
}

/// Once a prefix parses as variables and the next value does not, the whole
/// list's parse fails on exactly that value.
pub(crate) proof fn lemma_spec_vars_err(s: Seq<SpecValue>, j: int, m: int)
    requires
        0 <= j < m <= s.len(),
        spec_vars(s.subrange(0, j)) is Ok,
        !is_logic_var(s[j]),
    ensures
        spec_vars(s.subrange(0, m)) == Err::<Seq<Seq<char>>, SpecValue>(s[j]),
    decreases m - j,
{
    if m == j + 1 {
        assert(s.subrange(0, m).drop_last() =~= s.subrange(0, j));
        assert(s.subrange(0, m).last() == s[j]);
    } else {
        lemma_spec_vars_err(s, j, m - 1);
        assert(s.subrange(0, m).drop_last() =~= s.subrange(0, m - 1));
    }
}

/// The view of an element-list parse's result.
pub open spec fn elems_res_view(r: Result<Vec<Element>, FindParseError>) -> Result<
    Seq<Seq<char>>,
    SpecParseError,
> {
    match r {
        Ok(es) => Ok(elem_views(es@)),
        Err(e) => Err(e@),
    }
}

/// The view of a classification's result.
pub open spec fn find_res_view(r: Result<FindSpec, FindParseError>) -> Result<
    SpecFind,
    SpecParseError,
> {
    match r {
        Ok(f) => Ok(f@),
        Err(e) => Err(e@),
    }
}

/// Parse every value of a list as an element, keeping order.
pub(crate) fn values_to_elements(vals: &Vec<Value>) -> (r: Result<Vec<Element>, FindParseError>)
    ensures
        elems_res_view(r) == wrap_invalid(spec_vars(seq_views(vals@))),
{
    let ghost sv = seq_views(vals@);
    let n = vals.len();
    let mut out: Vec<Element> = Vec::new();
    let mut j: usize = 0;
    proof {
        assert(sv.subrange(0, 0) =~= Seq::<SpecValue>::empty());
        assert(elem_views(out@) =~= Seq::<Seq<char>>::empty());
    }
    while j < n
        invariant
            0 <= j <= n,
            n == vals@.len(),
            sv == seq_views(vals@),
            spec_vars(sv.subrange(0, j as int)) == Ok::<_, SpecValue>(elem_views(out@)),
        decreases n - j,
    {
        let ghost old_names = elem_views(out@);
        match FindSp::variable(&vals[j]) {
            Some(var) => {
                out.push(Element::Variable(var));
            },
            None => {
                proof {
                    lemma_spec_vars_err(sv, j as int, sv.len() as int);
                    assert(sv.subrange(0, sv.len() as int) =~= sv);
                }
                return Err(FindParseError::InvalidInput(vals[j].clone()));
            },
        }
        proof {
            assert(sv.subrange(0, j + 1).drop_last() =~= sv.subrange(0, j as int));
            assert(sv.subrange(0, j + 1).last() == sv[j as int]);
            assert(elem_views(out@) =~= old_names.push(var_of(sv[j as int])));
        }
        j = j + 1;
    }
    proof {
        assert(sv.subrange(0, n as int) =~= sv);
    }
    Ok(out)
}

/// The piecewise parsers over single values and short lists that the
/// classifier is assembled from.
pub struct FindSp;

impl FindSp {
    /// Parse one value as a logic variable: a plain symbol whose name begins
    /// with `?`.
    pub fn variable(v: &Value) -> (r: Option<Variable>)
        ensures
            r is Some <==> is_logic_var(v@),
            r matches Some(var) ==> var@ == var_of(v@),
    {
        match v {
            Value::PlainSymbol(sym) => if sym.starts_with('?') {
                Some(Variable(sym.clone()))
            } else {
                None
            },
            _ => None,
        }
    }

    /// Recognize the scalar marker: the one-character plain symbol `.`.
    pub fn period(v: &Value) -> (r: bool)
        ensures
            r == is_scalar_marker(v@),
    {
        match v {
            Value::PlainSymbol(sym) => {
                let s: &str = sym.0.as_str();
                s.unicode_len() == 1 && s.get_char(0) == '.'
            },
            _ => false,
        }
    }

    /// Parse a whole value list as a scalar find specification `?x .`; any
    /// other shape gives `None`.
    pub fn find_scalar(vals: &Vec<Value>) -> (r: Option<FindSpec>)
        ensures
            r is Some <==> (seq_views(vals@).len() == 2 && is_scalar_marker(seq_views(vals@)[1])
                && is_logic_var(seq_views(vals@)[0])),
            r matches Some(f) ==> f@ == SpecFind::Scalar(var_of(seq_views(vals@)[0])),
    {
        if vals.len() == 2 && FindSp::period(&vals[1]) {
            match FindSp::variable(&vals[0]) {
                Some(var) => Some(FindSpec::FindScalar(Element::Variable(var))),
                None => None,
            }
        } else {
            None
        }
    }
}

/// Recognize the collection-ellipsis marker: the plain symbol `...`.
fn is_ellipsis_value(v: &Value) -> (r: bool)
    ensures
        r == is_ellipsis(v@),
{
    match v {
        Value::PlainSymbol(sym) => {
            let s: &str = sym.0.as_str();
            s.unicode_len() == 3 && s.get_char(0) == '.' && s.get_char(1) == '.' && s.get_char(2)
                == '.'
        },
        _ => false,
    }
}

/// Classify a `:find` clause's value list into one of the four result
/// shapes: scalar `?x .`, collection `[?x ...]`, tuple `[?x ?y]`, or the
/// default, a relation `?x ?y`.  The offending value is named on failure;
/// an empty list is itself invalid.
pub fn find_seq_to_find_spec(find: &Vec<Value>) -> (r: Result<FindSpec, FindParseError>)
    ensures
        find_res_view(r) == wrap_invalid(spec_classify(seq_views(find@))),
{
    let ghost sv = seq_views(find@);
    let n = find.len();
    if n == 0 {
        proof {
            assert(seq_views(Seq::<Value>::empty()) =~= Seq::<SpecValue>::empty());
            assert(sv =~= Seq::<SpecValue>::empty());
        }
        return Err(FindParseError::InvalidInput(Value::Vector(Vec::new())));
    }
    if n == 2 && FindSp::period(&find[1]) {
        return match FindSp::variable(&find[0]) {
            Some(var) => Ok(FindSpec::FindScalar(Element::Variable(var))),
            None => Err(FindParseError::InvalidInput(find[0].clone())),
        };
    }
    if n == 1 {
        match &find[0] {
            Value::Vector(inner) => {
                let ghost isv = seq_views(inner@);
                if inner.len() == 2 && is_ellipsis_value(&inner[1]) {
                    return match FindSp::variable(&inner[0]) {
                        Some(var) => Ok(FindSpec::FindColl(Element::Variable(var))),
                        None => Err(FindParseError::InvalidInput(inner[0].clone())),
                    };
                }
                if inner.len() == 0 {
                    return Err(FindParseError::InvalidInput(find[0].clone()));
                }
                return match values_to_elements(inner) {
                    Ok(es) => Ok(FindSpec::FindTuple(es)),
                    Err(e) => Err(e),
                };
            },
            _ => {},
        }
    }
    match values_to_elements(find) {
        Ok(es) => Ok(FindSpec::FindRel(es)),
        Err(e) => Err(e),
    }
}

} // verus!
