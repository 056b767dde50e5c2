//! The canonical clause map, and the keyword-grouping algorithm that turns a
//! flat marker-delimited sequence such as `[:find ?y :in $ ?x :where [...]]`
//! into the same mapping the explicit map form gives directly.

use vstd::prelude::*;

use crate::values::{lemma_seq_views, seq_views, Keyword, SpecValue, Value};

verus! {

broadcast use lemma_seq_views;

/// The mapping an entry list denotes: later entries would win, but a
/// well-formed list has no repeated keys.
spec fn entries_map(s: Seq<(Keyword, Vec<Value>)>) -> Map<Seq<char>, Seq<SpecValue>>
    decreases s.len(),
{
    if s.len() == 0 {
        Map::empty()
    } else {
        entries_map(s.drop_last()).insert(s.last().0@, seq_views(s.last().1@))
    }
}

/// No key occurs twice in the entry list.
spec fn entries_wf(s: Seq<(Keyword, Vec<Value>)>) -> bool {
    forall|i: int, j: int| 0 <= i < j < s.len() ==> s[i].0@ != s[j].0@
}

/// A key is in the mapping exactly when some entry carries it.
proof fn lemma_entries_contains(s: Seq<(Keyword, Vec<Value>)>, key: Seq<char>)
    ensures
        entries_map(s).contains_key(key) <==> exists|i: int|
            0 <= i < s.len() && s[i].0@ == key,
    decreases s.len(),
{
    if s.len() > 0 {
        let pre = s.drop_last();
        lemma_entries_contains(pre, key);
        assert(forall|i: int| 0 <= i < pre.len() ==> pre[i] == s[i]);
        if s.last().0@ == key {
            assert(s[s.len() - 1].0@ == key);
        } else if exists|i: int| 0 <= i < s.len() && s[i].0@ == key {
            let i = choose|i: int| 0 <= i < s.len() && s[i].0@ == key;
            assert(0 <= i < pre.len() && pre[i].0@ == key);
        }
    }
}

/// In a well-formed entry list, each entry's key maps to that entry's values.
proof fn lemma_entries_get(s: Seq<(Keyword, Vec<Value>)>, i: int)
    requires
        entries_wf(s),
        0 <= i < s.len(),
    ensures
        entries_map(s).contains_key(s[i].0@),
        entries_map(s)[s[i].0@] == seq_views(s[i].1@),
    decreases s.len(),
{
    let pre = s.drop_last();
    if i < s.len() - 1 {
        assert(forall|t: int| 0 <= t < pre.len() ==> pre[t] == s[t]);
        lemma_entries_get(pre, i);
        assert(s[i].0@ != s.last().0@);
    }
}

/// The canonical clause map: an insertion-ordered mapping from clause
/// keywords to their ordered value lists, with unique keys.
#[derive(Debug, PartialEq, Eq)]
pub struct KeywordMap {
    entries: Vec<(Keyword, Vec<Value>)>,
}

impl View for KeywordMap {
    type V = Map<Seq<char>, Seq<SpecValue>>;

    closed spec fn view(&self) -> Map<Seq<char>, Seq<SpecValue>> {
        entries_map(self.entries@)
    }
}

impl KeywordMap {
    /// The map's keys are unique; every map this module hands out satisfies
    /// this.
    pub closed spec fn wf(&self) -> bool {
        entries_wf(self.entries@)
    }

    /// The empty map.
    pub fn new() -> (m: KeywordMap)
        ensures
            m@ == Map::<Seq<char>, Seq<SpecValue>>::empty(),
            m.wf(),
    {
        KeywordMap { entries: Vec::new() }
    }

    /// Whether a keyword with this name is present.
    pub fn contains_key(&self, k: &Keyword) -> (r: bool)
        ensures
            r == self@.contains_key(k@),
    {
        let n = self.entries.len();
        let mut i: usize = 0;
        while i < n
            invariant
                0 <= i <= n,
                n == self.entries@.len(),
                forall|t: int| 0 <= t < i ==> self.entries@[t].0@ != k@,
            decreases n - i,
        {
            if self.entries[i].0.0 == k.0 {
                proof {
                    lemma_entries_contains(self.entries@, k@);
                }
                return true;
            }
            i = i + 1;
        }
        proof {
            lemma_entries_contains(self.entries@, k@);
        }
        false
    }

    /// Look a clause up by its keyword.
    pub fn get(&self, k: &Keyword) -> (r: Option<&Vec<Value>>)
        requires
            self.wf(),
        ensures
            match r {
                Some(vals) => self@.contains_key(k@) && seq_views(vals@) == self@[k@],
                None => !self@.contains_key(k@),
            },
    {
        let n = self.entries.len();
        let mut i: usize = 0;
        while i < n
            invariant
                0 <= i <= n,
                n == self.entries@.len(),
                self.wf(),
                forall|t: int| 0 <= t < i ==> self.entries@[t].0@ != k@,
            decreases n - i,
        {
            if self.entries[i].0.0 == k.0 {
                proof {
                    lemma_entries_get(self.entries@, i as int);
                }
                return Some(&self.entries[i].1);
            }
            i = i + 1;
        }
        proof {
            lemma_entries_contains(self.entries@, k@);
        }
        None
    }

    /// Add a clause under a keyword not yet present.
    pub fn insert(&mut self, k: Keyword, vals: Vec<Value>)
        requires
            old(self).wf(),
            !old(self)@.contains_key(k@),
        ensures
            final(self).wf(),
            final(self)@ == old(self)@.insert(k@, seq_views(vals@)),
    {
        proof {
            lemma_entries_contains(self.entries@, k@);
        }
        let ghost pre = self.entries@;
        self.entries.push((k, vals));
        proof {
            assert(self.entries@.drop_last() =~= pre);
            assert(forall|t: int| 0 <= t < pre.len() ==> pre[t] == self.entries@[t]);
        }
    }
}

/// The grouping algorithm's pass over the tail of a sequence: `cur` is the
/// keyword whose group is open, `vals` the values collected for it so far,
/// and `acc` the groups already closed.
pub open spec fn group_from(
    s: Seq<SpecValue>,
    i: int,
    cur: Seq<char>,
    vals: Seq<SpecValue>,
    acc: Map<Seq<char>, Seq<SpecValue>>,
) -> Option<Map<Seq<char>, Seq<SpecValue>>>
    decreases s.len() - i,
    when 0 <= i <= s.len()
{
    if i >= s.len() {
        if vals.len() == 0 {
            None
        } else if acc.contains_key(cur) {
            None
        } else {
            Some(acc.insert(cur, vals))
        }
    } else {
        match s[i] {
            SpecValue::Keyword(k) => if vals.len() == 0 {
                None
            } else if acc.contains_key(cur) {
                None
            } else {
                group_from(s, i + 1, k, Seq::empty(), acc.insert(cur, vals))
            },
            _ => group_from(s, i + 1, cur, vals.push(s[i]), acc),
        }
    }
}

/// Group a flat marker-delimited sequence into a mapping from keyword names
/// to their ordered value groups.  `None` on any failure: a single value, a
/// non-keyword where a keyword is required, an empty group (two adjacent
/// keywords, or a trailing keyword), or a repeated keyword.
pub open spec fn spec_group(s: Seq<SpecValue>) -> Option<Map<Seq<char>, Seq<SpecValue>>> {
    if s.len() == 0 {
        Some(Map::empty())
    } else {
        match s[0] {
            SpecValue::Keyword(k) => group_from(s, 1, k, Seq::empty(), Map::empty()),
            _ => None,
        }
    }
}

/// Turn a flat vector of values, as extracted from a vector tree node, into
/// the canonical clause map.
///
/// The vector must consist of subsequences of an initial keyword followed by
/// one or more non-keyword values; the keywords become the map's keys and
/// the values are accumulated, in order, into the keyed groups.  Invalid
/// input gives `None`.
pub fn vec_to_keyword_map(vec: &Vec<Value>) -> (r: Option<KeywordMap>)
    ensures
        r is Some <==> spec_group(seq_views(vec@)) is Some,
        r matches Some(m) ==> m.wf() && spec_group(seq_views(vec@)) == Some(m@),
{
    let ghost sv = seq_views(vec@);
    let n = vec.len();
    if n == 0 {
        return Some(KeywordMap::new());
    }
    let mut cur: Keyword = match &vec[0] {
        Value::Keyword(k) => k.clone(),
        _ => {
            return None;
        },
    };
    let mut m = KeywordMap::new();
    let mut vals: Vec<Value> = Vec::new();
    let mut i: usize = 1;
    proof {
        assert(seq_views(vals@) =~= Seq::<SpecValue>::empty());
    }
    while i < n
        invariant
            1 <= i <= n,
            n == vec@.len(),
            sv == seq_views(vec@),
            m.wf(),
            spec_group(sv) == group_from(sv, i as int, cur@, seq_views(vals@), m@),
        decreases n - i,
    {
        match &vec[i] {
            Value::Keyword(k) => {
                if vals.len() == 0 {
                    return None;
                }
                if m.contains_key(&cur) {
                    return None;
                }
                let ghost old_vals = seq_views(vals@);
                m.insert(cur, vals);
                cur = k.clone();
                vals = Vec::new();
                proof {
                    assert(seq_views(vals@) =~= Seq::<SpecValue>::empty());
                }
            },
            other => {
                let ghost old_vals = seq_views(vals@);
                vals.push(other.clone());
                proof {
                    assert(vals@.drop_last() =~= vals@.subrange(0, vals@.len() - 1));
                    assert(seq_views(vals@) == old_vals.push(sv[i as int]));
                }
            },
        }
        i = i + 1;
    }
    if vals.len() == 0 {
        return None;
    }
    if m.contains_key(&cur) {
        return None;
    }
    m.insert(cur, vals);
    Some(m)
}

} // verus!
