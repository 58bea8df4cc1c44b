//! The environment: a chain of lexical scopes mapping names to values.
//!
//! The chain is viewed as a sequence of maps, outermost first. Lookup
//! walks from the innermost scope outward, so the nearest definition
//! shadows the rest; storing writes to the innermost scope only.

use vstd::prelude::*;
use crate::value::Value;

verus! {

/// The view of one scope: later insertions shadow earlier ones.
pub open spec fn scope_map(ps: Seq<(String, Value)>) -> Map<Seq<char>, Value>
    decreases ps.len(),
{
    if ps.len() == 0 {
        Map::empty()
    } else {
        scope_map(ps.drop_last()).insert(ps.last().0@, ps.last().1)
    }
}

/// Lookup through a chain of scopes, innermost (last) first.
pub open spec fn lookup(env: Seq<Map<Seq<char>, Value>>, name: Seq<char>) -> Option<Value>
    decreases env.len(),
{
    if env.len() == 0 {
        None
    } else if env.last().contains_key(name) {
        Some(env.last()[name])
    } else {
        lookup(env.drop_last(), name)
    }
}

/// Insert into the innermost scope of a chain.
pub open spec fn store(
    env: Seq<Map<Seq<char>, Value>>,
    name: Seq<char>,
    value: Value,
) -> Seq<Map<Seq<char>, Value>> {
    env.update(env.len() - 1, env.last().insert(name, value))
}

/// The error text for a name no scope in the chain defines.
pub open spec fn not_found_msg(name: Seq<char>) -> Seq<char> {
    "binding with name \u{2018}"@ + name + "\u{2019} does not exist"@
}

/// A chain of lexical scopes. The outermost scope always exists; block
/// evaluation pushes and discards inner ones.
#[derive(Debug)]
pub struct Env {
    base: Vec<(String, Value)>,
    nested: Vec<Vec<(String, Value)>>,
}

impl View for Env {
    type V = Seq<Map<Seq<char>, Value>>;

    closed spec fn view(&self) -> Seq<Map<Seq<char>, Value>> {
        seq![scope_map(self.base@)] + self.nested@.map_values(
            |sc: Vec<(String, Value)>| scope_map(sc@),
        )
    }
}

impl Default for Env {
    /// One empty outermost scope and no parent.
    fn default() -> (r: Env)
        ensures
            r@ =~= seq![Map::<Seq<char>, Value>::empty()],
    {
        Env { base: Vec::new(), nested: Vec::new() }
    }
}

/// Two scopes with the same names and values, element for element.
pub open spec fn same_scope(a: Seq<(String, Value)>, b: Seq<(String, Value)>) -> bool {
    a.len() == b.len() && forall|j: int|
        0 <= j < a.len() ==> a[j].0@ == b[j].0@ && a[j].1 == b[j].1
}

/// The view of a scope depends only on the names and values in it.
proof fn lemma_scope_map_same(a: Seq<(String, Value)>, b: Seq<(String, Value)>)
    requires
        same_scope(a, b),
    ensures
        scope_map(a) == scope_map(b),
    decreases a.len(),
{
    if a.len() > 0 {
        assert(same_scope(a.drop_last(), b.drop_last()));
        lemma_scope_map_same(a.drop_last(), b.drop_last());
    }
}

/// Find a name in one scope, preferring the latest insertion.
fn scope_get(sc: &Vec<(String, Value)>, name: &str) -> (r: Option<Value>)
    ensures
        r == if scope_map(sc@).contains_key(name@) {
            Some(scope_map(sc@)[name@])
        } else {
            None::<Value>
        },
{
    let mut j = sc.len();
    proof {
        assert(sc@.take(sc@.len() as int) =~= sc@);
    }
    loop
        invariant
            j <= sc@.len(),
            scope_map(sc@).contains_key(name@) == scope_map(sc@.take(j as int)).contains_key(
                name@,
            ),
            scope_map(sc@).contains_key(name@) ==> scope_map(sc@)[name@] == scope_map(
                sc@.take(j as int),
            )[name@],
        decreases j,
    {
        if j == 0 {
            return None;
        }
        j = j - 1;
        proof {
            assert(sc@.take(j + 1).drop_last() =~= sc@.take(j as int));
            assert(sc@.take(j + 1).last() == sc@[j as int]);
        }
        if str_eq(sc[j].0.as_str(), name) {
            return Some(sc[j].1);
        }
    }
}

/// Character-by-character string equality.
fn str_eq(a: &str, b: &str) -> (r: bool)
    ensures
        r == (a@ == b@),
{
    let alen = a.unicode_len();
    let blen = b.unicode_len();
    if alen != blen {
        proof {
            assert(a@.len() != b@.len());
        }
        return false;
    }
    let mut i: usize = 0;
    loop
        invariant
            i <= alen,
            alen == a@.len(),
            blen == b@.len(),
            alen == blen,
            forall|j: int| 0 <= j < i ==> a@[j] == b@[j],
        decreases alen - i,
    {
        if i >= alen {
            proof {
                assert(a@ =~= b@);
            }
            return true;
        }
        if a.get_char(i) != b.get_char(i) {
            return false;
        }
        i = i + 1;
    }
}

impl Env {
    /// A fresh environment nested under this one: the same visible
    /// bindings plus one empty innermost scope.
    pub fn create_child(&self) -> (r: Env)
        ensures
            r@ =~= self@.push(Map::empty()),
    {
        let base = copy_scope(&self.base);
        proof {
            lemma_scope_map_same(base@, self.base@);
        }
        let mut nested: Vec<Vec<(String, Value)>> = Vec::new();
        let mut k: usize = 0;
        while k < self.nested.len()
            invariant
                k <= self.nested@.len(),
                nested@.len() == k,
                forall|j: int|
                    0 <= j < k ==> scope_map(#[trigger] nested@[j]@) == scope_map(
                        self.nested@[j]@,
                    ),
            decreases self.nested@.len() - k,
        {
            let sc = copy_scope(&self.nested[k]);
            proof {
                lemma_scope_map_same(sc@, self.nested@[k as int]@);
            }
            nested.push(sc);
            k = k + 1;
        }
        nested.push(Vec::new());
        let r = Env { base, nested };
        proof {
            assert forall|j: int| 0 <= j < r@.len() implies r@[j] == self@.push(
                Map::empty(),
            )[j] by {
                if j == r@.len() - 1 {
                    assert(r.nested@.last()@ =~= Seq::<(String, Value)>::empty());
                    assert(scope_map(r.nested@.last()@) =~= Map::<Seq<char>, Value>::empty());
                }
            }
            assert(r@ =~= self@.push(Map::empty()));
        }
        r
    }

    /// Insert or overwrite a binding in the innermost scope only.
    pub fn store_binding(&mut self, name: String, value: Value)
        ensures
            final(self)@ =~= store(old(self)@, name@, value),
    {
        if self.nested.is_empty() {
            self.base.push((name, value));
            proof {
                assert(self.base@.drop_last() =~= old(self).base@);
                assert(self@ =~= store(old(self)@, name@, value));
            }
        } else {
            let mut sc = match self.nested.pop() {
                Some(sc) => sc,
                None => Vec::new(),
            };
            sc.push((name, value));
            self.nested.push(sc);
            proof {
                assert(sc@.drop_last() =~= old(self).nested@.last()@);
                assert(self.nested@ =~= old(self).nested@.update(
                    old(self).nested@.len() - 1,
                    sc,
                ));
                assert(self@ =~= store(old(self)@, name@, value));
            }
        }
    }

    /// The value of the nearest definition of `name` in the chain, or
    /// an error naming the missing binding.
    pub fn get_binding_value(&self, name: &str) -> (r: Result<Value, String>)
        ensures
            match (r, lookup(self@, name@)) {
                (Ok(v), Some(w)) => v == w,
                (Err(m), None) => m@ == not_found_msg(name@),
                _ => false,
            },
    {
        match self.get_binding_value_without_error_msg(name) {
            Some(v) => Ok(v),
            None => Err(
                String::from_str("binding with name \u{2018}").concat(name).concat(
                    "\u{2019} does not exist",
                ),
            ),
        }
    }

    /// The value of the nearest definition of `name`, if any scope in
    /// the chain has one.
    pub fn get_binding_value_without_error_msg(&self, name: &str) -> (r: Option<Value>)
        ensures
            r == lookup(self@, name@),
    {
        let mut k = self.nested.len();
        proof {
            assert(self@.take(1 + self.nested@.len() as int) =~= self@);
        }
        loop
            invariant
                k <= self.nested@.len(),
                lookup(self@, name@) == lookup(self@.take(1 + k), name@),
            ensures
                k == 0,
                lookup(self@, name@) == lookup(self@.take(1), name@),
            decreases k,
        {
            if k == 0 {
                break;
            }
            k = k - 1;
            proof {
                assert(self@.take(2 + k).drop_last() =~= self@.take(1 + k));
                assert(self@.take(2 + k).last() == scope_map(self.nested@[k as int]@));
            }
            if let Some(v) = scope_get(&self.nested[k], name) {
                return Some(v);
            }
        }
        proof {
            reveal_with_fuel(lookup, 2);
            assert(self@.take(1).drop_last() =~= Seq::<Map<Seq<char>, Value>>::empty());
            assert(self@.take(1).last() == scope_map(self.base@));
        }
        scope_get(&self.base, name)
    }
}

/// An element-for-element copy of one scope.
fn copy_scope(sc: &Vec<(String, Value)>) -> (r: Vec<(String, Value)>)
    ensures
        same_scope(r@, sc@),
{
    let mut r: Vec<(String, Value)> = Vec::new();
    let mut i: usize = 0;
    while i < sc.len()
        invariant
            i <= sc@.len(),
            r@.len() == i,
            forall|j: int| 0 <= j < i ==> r@[j].0@ == sc@[j].0@ && r@[j].1 == sc@[j].1,
        decreases sc@.len() - i,
    {
        let name = sc[i].0.clone();
        let value = sc[i].1;
        r.push((name, value));
        i = i + 1;
    }
    r
}

} // verus!
