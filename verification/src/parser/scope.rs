//! The scope in which placeholders are resolved: a chain of bindings from
//! placeholder names to values, the innermost binding last.

use vstd::prelude::*;

verus! {

/// One binding of a placeholder name to the text that replaces it.
#[derive(Debug)]
pub struct Binding {
    pub name: String,
    pub value: String,
}

/// The active scope at one point of an expansion. Bindings are kept in the
/// order in which they were made; a later binding of a name hides an earlier
/// one.
#[derive(Debug)]
pub struct ArgMap {
    pub bindings: Vec<Binding>,
}

/// The map that a chain of bindings stands for: each name is bound to the
/// value of its last binding.
pub open spec fn bindings_map(bindings: Seq<Binding>) -> Map<Seq<char>, Seq<char>>
    decreases bindings.len(),
{
    if bindings.len() == 0 {
        Map::empty()
    } else {
        bindings_map(bindings.drop_last()).insert(bindings.last().name@, bindings.last().value@)
    }
}

/// One more binding at the end of a chain binds its name in the map.
pub proof fn lemma_bindings_map_push(bindings: Seq<Binding>, binding: Binding)
    ensures
        bindings_map(bindings.push(binding)) == bindings_map(bindings).insert(
            binding.name@,
            binding.value@,
        ),
{
    assert(bindings.push(binding).drop_last() =~= bindings);
}

/// Appending one chain to another gives the map of the first, overridden by
/// the map of the second.
pub proof fn lemma_bindings_map_concat(outer: Seq<Binding>, inner: Seq<Binding>)
    ensures
        bindings_map(outer + inner) == bindings_map(outer).union_prefer_right(bindings_map(inner)),
    decreases inner.len(),
{
    if inner.len() > 0 {
        lemma_bindings_map_concat(outer, inner.drop_last());
        assert((outer + inner).drop_last() =~= outer + inner.drop_last());
    }
}

impl View for ArgMap {
    type V = Map<Seq<char>, Seq<char>>;

    open spec fn view(&self) -> Map<Seq<char>, Seq<char>> {
        bindings_map(self.bindings@)
    }
}

impl ArgMap {
    /// The empty scope, in which every placeholder is unbound.
    pub fn new() -> (scope: ArgMap)
        ensures
            scope@ == Map::<Seq<char>, Seq<char>>::empty(),
    {
        ArgMap { bindings: Vec::new() }
    }

    /// Binds a name to a value. An earlier binding of the same name is
    /// hidden.
    pub fn insert(&mut self, name: String, value: String)
        ensures
            final(self)@ == old(self)@.insert(name@, value@),
    {
        proof {
            lemma_bindings_map_push(self.bindings@, Binding { name, value });
        }
        self.bindings.push(Binding { name, value });
    }

    /// The value that a name is bound to, if it is bound.
    pub fn get(&self, name: &String) -> (found: Option<&String>)
        ensures
            match found {
                Some(value) => self@.contains_key(name@) && value@ == self@[name@],
                None => !self@.contains_key(name@),
            },
    {
        let mut i: usize = self.bindings.len();
        assert(self.bindings@.take(i as int) =~= self.bindings@);
        while i > 0
            invariant
                i <= self.bindings.len(),
                self@.contains_key(name@) <==> bindings_map(
                    self.bindings@.take(i as int),
                ).contains_key(name@),
                self@.contains_key(name@) ==> self@[name@] == bindings_map(
                    self.bindings@.take(i as int),
                )[name@],
            decreases i,
        {
            i -= 1;
            proof {
                assert(self.bindings@.take(i + 1).drop_last() =~= self.bindings@.take(i as int));
            }
            if self.bindings[i].name == *name {
                return Some(&self.bindings[i].value);
            }
        }
        None
    }

    /// This scope with the bindings of `inner` added in front of it: a name
    /// bound in `inner` has its value from there, any other name its value
    /// from this scope.
    pub fn extended(&self, inner: &ArgMap) -> (scope: ArgMap)
        ensures
            scope@ == self@.union_prefer_right(inner@),
    {
        let mut bindings: Vec<Binding> = Vec::new();
        let mut i: usize = 0;
        while i < self.bindings.len()
            invariant
                i <= self.bindings.len(),
                bindings@ == self.bindings@.take(i as int),
            decreases self.bindings.len() - i,
        {
            let copy = Binding {
                name: self.bindings[i].name.clone(),
                value: self.bindings[i].value.clone(),
            };
            bindings.push(copy);
            i += 1;
        }
        let mut j: usize = 0;
        while j < inner.bindings.len()
            invariant
                j <= inner.bindings.len(),
                bindings@ == self.bindings@ + inner.bindings@.take(j as int),
            decreases inner.bindings.len() - j,
        {
            let copy = Binding {
                name: inner.bindings[j].name.clone(),
                value: inner.bindings[j].value.clone(),
            };
            bindings.push(copy);
            j += 1;
        }
        assert(inner.bindings@.take(inner.bindings.len() as int) =~= inner.bindings@);
        proof {
            lemma_bindings_map_concat(self.bindings@, inner.bindings@);
        }
        ArgMap { bindings }
    }
}

} // verus!
