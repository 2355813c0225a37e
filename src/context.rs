//! Variables available to template rendering.

use vstd::prelude::*;
use crate::strmap::StrMap;
use crate::text::{push_str, owned};

verus! {

/// Error of a context operation.
#[derive(Debug, PartialEq, Eq)]
pub enum ContextError {
    MergeError(String),
    NotFound(String),
}

impl ContextError {
    /// Human-readable text of the error.
    pub fn message(&self) -> (r: String)
        ensures
            r@ == match self {
                ContextError::MergeError(m) => "Context merge error: "@ + m@,
                ContextError::NotFound(v) => "Variable not found: "@ + v@,
            },
    {
        match self {
            ContextError::MergeError(m) => {
                let mut s = owned("Context merge error: ");
                push_str(&mut s, m.as_str());
                s
            },
            ContextError::NotFound(v) => {
                let mut s = owned("Variable not found: ");
                push_str(&mut s, v.as_str());
                s
            },
        }
    }
}

/// The map that later pairs of `s` override earlier ones in.
pub open spec fn pairs_map(s: Seq<(String, String)>) -> Map<Seq<char>, Seq<char>>
    decreases s.len(),
{
    if s.len() == 0 {
        Map::empty()
    } else {
        pairs_map(s.drop_last()).insert(s.last().0@, s.last().1@)
    }
}

/// A mapping from variable names to their string values.
pub struct Context {
    variables: StrMap,
}

impl View for Context {
    type V = Map<Seq<char>, Seq<char>>;

    closed spec fn view(&self) -> Map<Seq<char>, Seq<char>> {
        self.variables@
    }
}

impl Context {
    /// An empty context.
    pub fn new() -> (r: Context)
        ensures
            r@ == Map::<Seq<char>, Seq<char>>::empty(),
    {
        Context { variables: StrMap::new() }
    }

    /// A context holding `variables`; of two pairs with one name, the later wins.
    pub fn with_variables(variables: Vec<(String, String)>) -> (r: Context)
        ensures
            r@ == pairs_map(variables@),
    {
        let mut c = Context::new();
        let mut i: usize = 0;
        while i < variables.len()
            invariant
                i <= variables@.len(),
                c@ == pairs_map(variables@.subrange(0, i as int)),
            decreases variables@.len() - i,
        {
            let k = variables[i].0.clone();
            let v = variables[i].1.clone();
            c.add_variable(k, v);
            proof {
                assert(variables@.subrange(0, i + 1).drop_last() =~= variables@.subrange(0, i as int));
            }
            i = i + 1;
        }
        assert(variables@.subrange(0, variables@.len() as int) =~= variables@);
        c
    }

    /// Sets a variable, replacing an earlier value.
    pub fn add_variable(&mut self, name: String, value: String)
        ensures
            final(self)@ == old(self)@.insert(name@, value@),
    {
        self.variables.insert(name, value);
    }

    /// Removes a variable, returning its value.
    pub fn remove_variable(&mut self, name: &str) -> (r: Option<String>)
        ensures
            final(self)@ == old(self)@.remove(name@),
            match r {
                Some(v) => old(self)@.contains_key(name@) && old(self)@[name@] == v@,
                None => !old(self)@.contains_key(name@),
            },
    {
        self.variables.remove(name)
    }

    /// The value of a variable.
    pub fn get_variable(&self, name: &str) -> (r: Option<&String>)
        ensures
            match r {
                Some(v) => self@.contains_key(name@) && self@[name@] == v@,
                None => !self@.contains_key(name@),
            },
    {
        self.variables.get(name)
    }

    /// Whether a variable is set.
    pub fn has_variable(&self, name: &str) -> (r: bool)
        ensures
            r == self@.contains_key(name@),
    {
        self.variables.contains_key(name)
    }

    /// All variables.
    pub fn get_variables(&self) -> (r: &StrMap)
        ensures
            r@ == self@,
    {
        &self.variables
    }

    /// Sets every variable of `other` here; `other` wins on shared names.
    pub fn merge(&mut self, other: &Context)
        ensures
            final(self)@ == old(self)@.union_prefer_right(other@),
    {
        let n = other.variables.entry_count();
        let mut i: usize = 0;
        proof {
            use_type_invariant(&other.variables);
            other.variables.lemma_key_order();
        }
        let ghost order = other.variables.key_order();
        while i < n
            invariant
                n == order.len(),
                order == other.variables.key_order(),
                i <= n,
                forall|j: int| 0 <= j < order.len() ==> #[trigger] other@.contains_key(order[j]),
                forall|k: Seq<char>| #[trigger] other@.contains_key(k) ==> order.contains(k),
                self@ =~= old(self)@.union_prefer_right(
                    other@.restrict(order.subrange(0, i as int).to_set()),
                ),
            decreases n - i,
        {
            let (k, v) = other.variables.entry_at(i);
            self.variables.insert(k.clone(), v.clone());
            proof {
                let s1 = order.subrange(0, i as int).to_set();
                let s2 = order.subrange(0, i + 1).to_set();
                assert(s2 =~= s1.insert(order[i as int])) by {
                    assert forall|x: Seq<char>| s2.contains(x) implies s1.insert(order[i as int]).contains(x) by {
                        let j = choose|j: int| 0 <= j < i + 1 && #[trigger] order.subrange(0, i + 1)[j] == x;
                        if j < i {
                            assert(order.subrange(0, i as int)[j] == x);
                        }
                    }
                    assert forall|x: Seq<char>| s1.insert(order[i as int]).contains(x) implies s2.contains(x) by {
                        if x == order[i as int] {
                            assert(order.subrange(0, i + 1)[i as int] == x);
                        } else {
                            let j = choose|j: int| 0 <= j < i && #[trigger] order.subrange(0, i as int)[j] == x;
                            assert(order.subrange(0, i + 1)[j] == x);
                        }
                    }
                }
            }
            i = i + 1;
        }
        proof {
            assert(order.subrange(0, n as int) =~= order);
            assert(other@.restrict(order.to_set()) =~= other@);
        }
    }

    /// A new context: this one's variables overridden by `other`'s.
    pub fn merged_with(&self, other: &Context) -> (r: Context)
        ensures
            r@ == self@.union_prefer_right(other@),
    {
        let mut result = self.create_child();
        result.merge(other);
        result
    }

    /// A copy that can be changed without affecting this context.
    pub fn create_child(&self) -> (r: Context)
        ensures
            r@ == self@,
    {
        Context { variables: self.variables.duplicate() }
    }
}

/// Relies on `chrono::Local::now` and `chrono::DateTime::format`: the local
/// date, time, and date and time now, as `%Y-%m-%d`, `%H:%M:%S` and
/// `%Y-%m-%d %H:%M:%S`. The clock decides the values.
#[verifier::external_body]
fn local_now() -> (r: (String, String, String)) {
    let now = chrono::Local::now();
    (
        now.format("%Y-%m-%d").to_string(),
        now.format("%H:%M:%S").to_string(),
        now.format("%Y-%m-%d %H:%M:%S").to_string(),
    )
}

/// Relies on `uuid::Uuid::new_v4` and its hyphenated `Display`: a random
/// identifier of 36 characters.
#[verifier::external_body]
fn random_uuid() -> (r: String)
    ensures
        r@.len() == 36,
{
    uuid::Uuid::new_v4().to_string()
}

impl Context {
    /// Adds `current_date`, `current_time`, `current_datetime` and `uuid`.
    pub fn add_built_ins(&mut self)
        ensures
            final(self)@.dom() == old(self)@.dom().insert("current_date"@).insert("current_time"@).insert(
                "current_datetime"@,
            ).insert("uuid"@),
            final(self)@["uuid"@].len() == 36,
            forall|k: Seq<char>|
                old(self)@.contains_key(k) && k != "current_date"@ && k != "current_time"@ && k
                    != "current_datetime"@ && k != "uuid"@ ==> #[trigger] final(self)@[k] == old(self)@[k],
    {
        let (date, time, datetime) = local_now();
        self.add_variable(owned("current_date"), date);
        self.add_variable(owned("current_time"), time);
        self.add_variable(owned("current_datetime"), datetime);
        self.add_variable(owned("uuid"), random_uuid());
    }
}

} // verus!
