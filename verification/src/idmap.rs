//! A map of identifiable objects that hands out fresh identifiers.

use std::collections::hash_map;
use std::collections::HashMap;

use vstd::prelude::*;
use vstd::std_specs::iter::IteratorSpec;

verus! {

broadcast use vstd::std_specs::hash::group_hash_axioms;

/// `std::collections::hash_map::IterMut`, the iterator of a map's identifiers and objects that
/// hands out each object to change in place.
#[verifier::external_type_specification]
#[verifier::external_body]
#[verifier::reject_recursive_types(K)]
#[verifier::reject_recursive_types(V)]
pub struct ExIterMut<'a, K: 'a, V: 'a>(hash_map::IterMut<'a, K, V>);

/// `std::collections::hash_map::ValuesMut`, the iterator that hands out each object of a map to
/// change in place.
#[verifier::external_type_specification]
#[verifier::external_body]
#[verifier::reject_recursive_types(K)]
#[verifier::reject_recursive_types(V)]
pub struct ExValuesMut<'a, K: 'a, V: 'a>(hash_map::ValuesMut<'a, K, V>);

/// `HashMap::iter_mut`. The iterator can change the objects but not which identifiers are
/// stored, so the identifiers are the same once it is done; what it changes in the objects is
/// not stated.
#[verifier::external_body]
fn map_iter_mut<'a, V>(m: &'a mut HashMap<u32, V>) -> (it: hash_map::IterMut<'a, u32, V>)
    ensures
        final(m)@.dom() == old(m)@.dom(),
{
    m.iter_mut()
}

/// `HashMap::values_mut`. The iterator can change the objects but not which identifiers are
/// stored, so the identifiers are the same once it is done; what it changes in the objects is
/// not stated.
#[verifier::external_body]
fn map_values_mut<'a, V>(m: &'a mut HashMap<u32, V>) -> (it: hash_map::ValuesMut<'a, u32, V>)
    ensures
        final(m)@.dom() == old(m)@.dom(),
{
    m.values_mut()
}

/// An object that carries its own identifier.
pub trait Identifiable {
    /// The identifier of the object.
    spec fn spec_id(&self) -> u32;

    /// The identifier of the object.
    fn id(&self) -> (r: u32)
        ensures
            r == self.spec_id(),
    ;
}

/// A map of identifiable objects.
///
/// Handles the generation of unique identifiers for objects, and provides a way to store and
/// retrieve them. Objects are stored under their own identifier.
#[derive(Debug)]
pub struct IdMap<Value> {
    map: HashMap<u32, Value>,
    next_id: u32,
}

impl<Value> View for IdMap<Value> {
    type V = Map<u32, Value>;

    /// The stored objects by identifier.
    closed spec fn view(&self) -> Map<u32, Value> {
        self.map@
    }
}

impl<Value: Identifiable> IdMap<Value> {
    /// The identifier the next constructed object receives.
    pub closed spec fn spec_next_id(&self) -> u32 {
        self.next_id
    }

    /// An empty map whose first constructed object gets identifier 0.
    pub fn new() -> (m: Self)
        ensures
            m@ == Map::<u32, Value>::empty(),
            m.spec_next_id() == 0,
    {
        IdMap { map: HashMap::new(), next_id: 0 }
    }

    /// The identifiers of the stored objects, each once, in no particular order.
    pub fn ids(&self) -> (ids: Vec<u32>)
        ensures
            ids@.to_set() == self@.dom(),
            ids@.no_duplicates(),
            ids@.len() == self@.dom().len(),
    {
        let mut ids: Vec<u32> = Vec::new();
        let keys = self.map.keys();
        let ghost all: Seq<&u32> = keys.remaining();
        for k in it: keys
            invariant
                it.seq() == all,
                ids@ == all.take(it.index() as int).map_values(|r: &u32| *r),
                all.unref().to_set() == self.map@.dom(),
                all.no_duplicates(),
                all.len() == self.map@.dom().len(),
        {
            ids.push(*k);
            proof {
                assert(ids@ =~= all.take(it.index() + 1).map_values(|r: &u32| *r));
            }
        }
        proof {
            assert(all.take(all.len() as int) =~= all);
            assert(ids@ =~= all.unref());
            assert forall|i: int, j: int|
                0 <= i < ids@.len() && 0 <= j < ids@.len() && i != j implies ids@[i]
                != ids@[j] by {
                assert(all[i] != all[j]);
            }
        }
        ids
    }

    /// Build an object with the next identifier, store it, and return that identifier.
    ///
    /// Each call hands out an identifier one larger than the previous one.
    pub fn construct<F: FnOnce(u32) -> Value>(&mut self, builder: F) -> (id: u32)
        requires
            old(self).spec_next_id() < u32::MAX,
            builder.requires((old(self).spec_next_id(),)),
        ensures
            id == old(self).spec_next_id(),
            final(self).spec_next_id() == id + 1,
            exists|v: Value|
                builder.ensures((id,), v) && final(self)@ == old(self)@.insert(v.spec_id(), v),
    {
        let id = self.next_id;
        self.next_id = id + 1;
        let value = builder(id);
        self.insert(value);
        id
    }

    /// Store an object under its identifier, replacing any object stored there.
    pub fn insert(&mut self, value: Value)
        ensures
            final(self)@ == old(self)@.insert(value.spec_id(), value),
            final(self).spec_next_id() == old(self).spec_next_id(),
            final(self)@.dom().finite(),
            final(self)@.len() == if old(self)@.contains_key(value.spec_id()) {
                old(self)@.len()
            } else {
                old(self)@.len() + 1
            },
    {
        let id = value.id();
        proof {
            lemma_dom_finite(&*self);
        }
        self.map.insert(id, value);
        proof {
            lemma_dom_finite(&*self);
        }
    }

    /// Remove the object stored under an identifier, if any.
    pub fn remove(&mut self, id: u32)
        ensures
            final(self)@ == old(self)@.remove(id),
            final(self).spec_next_id() == old(self).spec_next_id(),
            final(self)@.dom().finite(),
            final(self)@.len() == if old(self)@.contains_key(id) {
                old(self)@.len() - 1
            } else {
                old(self)@.len() as int
            },
    {
        proof {
            lemma_dom_finite(&*self);
        }
        self.map.remove(&id);
        proof {
            lemma_dom_finite(&*self);
        }
    }

    /// Remove the object stored under the identifier of `value`, if any.
    pub fn remove_value(&mut self, value: &Value)
        ensures
            final(self)@ == old(self)@.remove(value.spec_id()),
            final(self).spec_next_id() == old(self).spec_next_id(),
            final(self)@.dom().finite(),
            final(self)@.len() == if old(self)@.contains_key(value.spec_id()) {
                old(self)@.len() - 1
            } else {
                old(self)@.len() as int
            },
    {
        let id = value.id();
        proof {
            lemma_dom_finite(&*self);
        }
        self.map.remove(&id);
        proof {
            lemma_dom_finite(&*self);
        }
    }

    /// The object stored under an identifier.
    pub fn get(&self, id: u32) -> (r: Option<&Value>)
        ensures
            match r {
                Some(v) => self@.contains_key(id) && *v == self@[id],
                None => !self@.contains_key(id),
            },
    {
        self.map.get(&id)
    }

    /// The object stored under an identifier, to change in place.
    pub fn get_mut(&mut self, id: u32) -> (r: Option<&mut Value>)
        ensures
            final(self).spec_next_id() == old(self).spec_next_id(),
            match r {
                Some(v) => old(self)@.contains_key(id) && *v == old(self)@[id] && final(self)@
                    == old(self)@.insert(id, *final(v)),
                None => !old(self)@.contains_key(id) && final(self)@ == old(self)@,
            },
    {
        match self.map.entry(id) {
            hash_map::Entry::Occupied(o) => Some(o.into_mut()),
            hash_map::Entry::Vacant(_) => None,
        }
    }

    /// Iterate over the stored identifiers and objects, in no particular order.
    pub fn iter(&self) -> (it: hash_map::Iter<'_, u32, Value>)
        ensures
            it.remaining().len() == self@.dom().len(),
            forall|k: u32| #[trigger]
                self@.contains_key(k) ==> it.remaining().contains((&k, &self@[k])),
            forall|i: int|
                0 <= i < it.remaining().len() ==> self@.contains_key(*it.remaining()[i].0)
                    && self@[*it.remaining()[i].0] == *it.remaining()[i].1,
            forall|i: int, j: int|
                0 <= i < j < it.remaining().len() ==> *it.remaining()[i].0
                    != *it.remaining()[j].0,
            ids_match(self@) ==> forall|i: int|
                0 <= i < it.remaining().len() ==> (*it.remaining()[i].1).spec_id()
                    == *it.remaining()[i].0,
    {
        let it = self.map.iter();
        proof {
            let r = it.remaining();
            assert forall|i: int, j: int| 0 <= i < j < r.len() implies *r[i].0 != *r[j].0 by {
                if *r[i].0 == *r[j].0 {
                    assert(self.map@.contains_key(*r[i].0));
                    assert(*r[i].1 == self.map@[*r[i].0]);
                    assert(*r[j].1 == self.map@[*r[j].0]);
                    assert(r[i] == r[j]);
                }
            }
            if ids_match(self@) {
                assert forall|i: int| 0 <= i < r.len() implies (*r[i].1).spec_id() == *r[i].0 by {
                    assert(self.map@.contains_key(*r[i].0));
                    assert(*r[i].1 == self.map@[*r[i].0]);
                }
            }
        }
        it
    }

    /// Iterate over the stored identifiers and objects, in no particular order, to change the
    /// objects in place; the stored identifiers stay the same.
    pub fn iter_mut(&mut self) -> (it: hash_map::IterMut<'_, u32, Value>)
        ensures
            final(self)@.dom() == old(self)@.dom(),
            final(self).spec_next_id() == old(self).spec_next_id(),
    {
        map_iter_mut(&mut self.map)
    }

    /// Iterate over the stored objects, in no particular order, to change them in place; the
    /// stored identifiers stay the same.
    pub fn values_mut(&mut self) -> (it: hash_map::ValuesMut<'_, u32, Value>)
        ensures
            final(self)@.dom() == old(self)@.dom(),
            final(self).spec_next_id() == old(self).spec_next_id(),
    {
        map_values_mut(&mut self.map)
    }

    /// The underlying map from identifiers to objects.
    pub fn as_map(&self) -> (m: &HashMap<u32, Value>)
        ensures
            m@ == self@,
    {
        &self.map
    }

    /// The number of stored objects.
    pub fn len(&self) -> (n: usize)
        ensures
            n == self@.len(),
    {
        self.map.len()
    }

    /// Whether no object is stored.
    pub fn is_empty(&self) -> (b: bool)
        ensures
            b == (self@.len() == 0),
    {
        self.map.is_empty()
    }

    /// Remove every object; identifiers already handed out are not handed out again.
    pub fn clear(&mut self)
        ensures
            final(self)@ == Map::<u32, Value>::empty(),
            final(self).spec_next_id() == old(self).spec_next_id(),
    {
        self.map.clear();
    }
}

/// The objects of an identifier map form a finite set.
pub proof fn lemma_dom_finite<Value>(m: &IdMap<Value>)
    ensures
        m@.dom().finite(),
{
}

/// Every stored object is stored under its own identifier.
pub open spec fn ids_match<Value: Identifiable>(m: Map<u32, Value>) -> bool {
    forall|k: u32| #[trigger] m.contains_key(k) ==> m[k].spec_id() == k
}

/// Storing an object under its own identifier (as `insert` and `construct` do), removing an
/// object (`remove`, `remove_value`) and clearing (`clear`) keep every stored object under its
/// own identifier; so does changing an object in place (`get_mut`) when its identifier stays.
pub proof fn lemma_ids_match_kept<Value: Identifiable>(m: Map<u32, Value>, v: Value, k: u32)
    requires
        ids_match(m),
    ensures
        ids_match(m.insert(v.spec_id(), v)),
        ids_match(m.remove(k)),
        ids_match(Map::<u32, Value>::empty()),
        m.contains_key(k) && v.spec_id() == k ==> ids_match(m.insert(k, v)),
{
}

/// Identifiers are never handed out twice: every identifier `construct` returned earlier is
/// below the map's next identifier (each `construct` raises it past the identifier it returns,
/// and no other operation, `clear` included, lowers it), so the next object constructed gets
/// a different identifier.
pub proof fn lemma_construct_fresh<Value: Identifiable>(earlier: u32, m: IdMap<Value>)
    requires
        earlier < m.spec_next_id(),
    ensures
        m.spec_next_id() != earlier,
{
}

/// Along a run of maps in which the next identifier never goes down, it is at least as large
/// later as earlier.
proof fn lemma_next_id_grows<Value: Identifiable>(states: Seq<IdMap<Value>>, i: int, j: int)
    requires
        forall|x: int|
            0 <= x < states.len() - 1 ==> #[trigger] states[x].spec_next_id() <= states[x
                + 1].spec_next_id(),
        0 <= i <= j < states.len(),
    ensures
        states[i].spec_next_id() <= states[j].spec_next_id(),
    decreases j - i,
{
    if i < j {
        lemma_next_id_grows(states, i, j - 1);
        assert(states[j - 1].spec_next_id() <= states[j].spec_next_id());
    }
}

/// Identifiers are never handed out twice over any run of operations on a map, `clear`
/// included. `states` holds the map before each operation and after the last. Every operation
/// leaves the next identifier where it was or raises it (all of them state so). Each entry
/// `(k, id)` of `returned` records that operation `k` was a `construct` that returned `id`,
/// which by its contract is the next identifier, raised by one. Then the identifiers returned,
/// in the order the operations ran, strictly increase, so no two are equal.
pub proof fn lemma_ids_never_repeat<Value: Identifiable>(
    states: Seq<IdMap<Value>>,
    returned: Seq<(int, u32)>,
)
    requires
        forall|x: int|
            0 <= x < states.len() - 1 ==> #[trigger] states[x].spec_next_id() <= states[x
                + 1].spec_next_id(),
        forall|k: int|
            0 <= k < returned.len() ==> 0 <= (#[trigger] returned[k]).0 < states.len() - 1
                && returned[k].1 == states[returned[k].0].spec_next_id() && states[returned[k].0
                + 1].spec_next_id() == returned[k].1 + 1,
        forall|k: int, l: int|
            0 <= k < l < returned.len() ==> (#[trigger] returned[k]).0 < (#[trigger] returned[l]).0,
    ensures
        forall|k: int, l: int|
            0 <= k < l < returned.len() ==> (#[trigger] returned[k]).1 < (#[trigger] returned[l]).1,
{
    assert forall|k: int, l: int| 0 <= k < l < returned.len() implies (
    #[trigger] returned[k]).1 < (#[trigger] returned[l]).1 by {
        lemma_next_id_grows(states, returned[k].0 + 1, returned[l].0);
    }
}

} // verus!
