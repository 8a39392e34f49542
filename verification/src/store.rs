//! Item persistence: the `ItemStore` interface and an in-memory store.

use vstd::prelude::*;

use std::collections::HashMap;

use crate::error::{ServiceError, ServiceResult};
use crate::ids::ItemId;
use crate::model::{Item, ItemView};

verus! {

broadcast use vstd::std_specs::hash::group_hash_axioms;

/// Every stored item sits under its own identifier.
pub open spec fn keyed_by_id(m: Map<u128, ItemView>) -> bool {
    forall|k: u128| #[trigger] m.contains_key(k) ==> m[k].id == k
}

/// `items` lists exactly the items of `m`, each once.
pub open spec fn lists_exactly(items: Seq<ItemView>, m: Map<u128, ItemView>) -> bool {
    &&& items.len() == m.dom().len()
    &&& items.no_duplicates()
    &&& forall|i: int| 0 <= i < items.len() ==> m.values().contains(#[trigger] items[i])
    &&& forall|v: ItemView| #[trigger] m.values().contains(v) ==> items.contains(v)
}

/// The views of a sequence of items.
pub open spec fn views(items: Seq<Item>) -> Seq<ItemView> {
    items.map_values(|i: Item| i@)
}

/// Trait for item persistence.
///
/// Implementations can back onto a database, an in-memory map, or any other
/// storage backend. Every item is held under its own identifier. A backend may
/// fail with `ServiceError::Storage` at any call; the other outcomes are fixed
/// by the contents.
pub trait ItemStore: Send + Sync {
    /// The items held, by identifier.
    spec fn contents(&self) -> Map<u128, ItemView>;

    /// The backend never fails: no call returns `ServiceError::Storage`.
    spec fn reliable(&self) -> bool;

    /// The item with identifier `id`; `NotFound` if there is none.
    fn get(&self, id: ItemId) -> (r: ServiceResult<Item>)
        ensures
            match r {
                Ok(item) => self.contents().contains_key(id@) && item@ == self.contents()[id@],
                Err(ServiceError::NotFound(missing)) => missing == id
                    && !self.contents().contains_key(id@),
                Err(ServiceError::Storage(_)) => true,
                Err(_) => false,
            },
            self.reliable() ==> !(r matches Err(ServiceError::Storage(_))),
            keyed_by_id(self.contents()),
    ;

    /// All the items held, in no particular order.
    fn list(&self) -> (r: ServiceResult<Vec<Item>>)
        ensures
            match r {
                Ok(items) => lists_exactly(views(items@), self.contents()),
                Err(ServiceError::Storage(_)) => true,
                Err(_) => false,
            },
            self.reliable() ==> r is Ok,
            keyed_by_id(self.contents()),
    ;

    /// Store `item` under its identifier, replacing any item held there.
    fn put(&mut self, item: &Item) -> (r: ServiceResult<()>)
        ensures
            match r {
                Ok(()) => final(self).contents() == old(self).contents().insert(item@.id, item@),
                Err(ServiceError::Storage(_)) => true,
                Err(_) => false,
            },
            final(self).reliable() == old(self).reliable(),
            old(self).reliable() ==> r is Ok,
            keyed_by_id(old(self).contents()),
            keyed_by_id(final(self).contents()),
    ;

    /// Remove the item with identifier `id`; `NotFound` if there is none.
    fn delete(&mut self, id: ItemId) -> (r: ServiceResult<()>)
        ensures
            match r {
                Ok(()) => old(self).contents().contains_key(id@) && final(self).contents()
                    == old(self).contents().remove(id@),
                Err(ServiceError::NotFound(missing)) => missing == id && !old(
                    self,
                ).contents().contains_key(id@) && final(self).contents() == old(self).contents(),
                Err(ServiceError::Storage(_)) => true,
                Err(_) => false,
            },
            final(self).reliable() == old(self).reliable(),
            old(self).reliable() ==> !(r matches Err(ServiceError::Storage(_))),
            keyed_by_id(old(self).contents()),
            keyed_by_id(final(self).contents()),
    ;
}

/// In-memory store for local development and testing.
#[derive(Debug)]
pub struct InMemoryStore {
    items: HashMap<u128, Item>,
}

impl InMemoryStore {
    /// The items held, by identifier.
    pub closed spec fn items_view(&self) -> Map<u128, ItemView> {
        self.items@.map_values(|i: Item| i@)
    }

    /// Each item is held under its own identifier.
    #[verifier::type_invariant]
    closed spec fn keyed(self) -> bool {
        keyed_by_id(self.items_view())
    }

    /// An empty store.
    pub fn new() -> (s: InMemoryStore)
        ensures
            s.items_view() == Map::<u128, ItemView>::empty(),
    {
        let s = InMemoryStore { items: HashMap::new() };
        assert(s.items_view() =~= Map::<u128, ItemView>::empty());
        s
    }
}

impl Default for InMemoryStore {
    fn default() -> (s: InMemoryStore)
        ensures
            s.items_view() == Map::<u128, ItemView>::empty(),
    {
        InMemoryStore::new()
    }
}

impl ItemStore for InMemoryStore {
    open spec fn contents(&self) -> Map<u128, ItemView> {
        self.items_view()
    }

    open spec fn reliable(&self) -> bool {
        true
    }

    fn get(&self, id: ItemId) -> (r: ServiceResult<Item>)
        ensures
            r is Ok <==> self.contents().contains_key(id@),
    {
        proof {
            use_type_invariant(self);
        }
        let key = id.as_u128();
        match self.items.get(&key) {
            Some(item) => Ok(item.clone()),
            None => Err(ServiceError::NotFound(id)),
        }
    }

    fn list(&self) -> (r: ServiceResult<Vec<Item>>)
        ensures
            r is Ok,
    {
        proof {
            use_type_invariant(self);
        }
        let mut out: Vec<Item> = Vec::new();
        let ghost m = self.items@;
        let ghost seq = vstd::std_specs::iter::IteratorSpec::remaining(
            &vstd::std_specs::hash::spec_values_iter(&self.items),
        ).unref();
        for item in it: self.items.values()
            invariant
                m == self.items@,
                it.seq().unref() == seq,
                seq.to_set() == m.values(),
                seq.len() == m.dom().len(),
                out.len() == it.index(),
                forall|i: int| 0 <= i < it.index() ==> #[trigger] out@[i]@ == seq[i]@,
        {
            out.push(item.clone());
        }
        proof {
            let c = self.contents();
            assert(c.dom() =~= m.dom());
            let vs = views(out@);
            // Distinct identifiers hold distinct items, so the values are as many as the keys.
            let f = |k: u128| m[k];
            assert(vstd::relations::injective_on(f, m.dom())) by {
                assert forall|k1: u128, k2: u128|
                    m.dom().contains(k1) && m.dom().contains(k2) && #[trigger] f(k1) == #[trigger] f(
                        k2,
                    ) implies k1 == k2 by {
                    assert(c[k1] == m[k1]@ && c[k2] == m[k2]@);
                }
            }
            assert(m.dom().map(f) =~= m.values());
            vstd::set_lib::lemma_map_size(m.dom(), m.values(), f);
            seq.lemma_no_dup_set_cardinality();
            assert(vs.no_duplicates()) by {
                assert forall|i: int, j: int|
                    0 <= i < vs.len() && 0 <= j < vs.len() && i != j implies vs[i] != vs[j] by {
                    assert(seq.to_set().contains(seq[i]));
                    assert(seq.to_set().contains(seq[j]));
                    let ki = choose|k: u128| #[trigger] m.contains_key(k) && m[k] == seq[i];
                    let kj = choose|k: u128| #[trigger] m.contains_key(k) && m[k] == seq[j];
                    assert(c[ki] == vs[i] && c[kj] == vs[j]);
                }
            }
            assert forall|i: int| 0 <= i < vs.len() implies c.values().contains(#[trigger] vs[i]) by {
                assert(seq.to_set().contains(seq[i]));
                let k = choose|k: u128| #[trigger] m.contains_key(k) && m[k] == seq[i];
                assert(c[k] == vs[i]);
            }
            assert forall|v: ItemView| #[trigger] c.values().contains(v) implies vs.contains(v) by {
                let k = choose|k: u128| #[trigger] c.contains_key(k) && c[k] == v;
                assert(m.values().contains(m[k]));
                assert(seq.to_set().contains(m[k]));
                let i = choose|i: int| 0 <= i < seq.len() && seq[i] == m[k];
                assert(vs[i] == v);
            }
        }
        Ok(out)
    }

    fn put(&mut self, item: &Item) -> (r: ServiceResult<()>)
        ensures
            r is Ok,
    {
        proof {
            use_type_invariant(&*self);
        }
        let key = item.id().as_u128();
        let mut items: HashMap<u128, Item> = HashMap::new();
        std::mem::swap(&mut items, &mut self.items);
        items.insert(key, item.clone());
        assert(items@.map_values(|i: Item| i@) =~= old(self).items_view().insert(item@.id, item@));
        self.items = items;
        Ok(())
    }

    fn delete(&mut self, id: ItemId) -> (r: ServiceResult<()>)
        ensures
            r is Ok <==> old(self).contents().contains_key(id@),
    {
        proof {
            use_type_invariant(&*self);
        }
        let key = id.as_u128();
        let mut items: HashMap<u128, Item> = HashMap::new();
        std::mem::swap(&mut items, &mut self.items);
        let removed = items.remove(&key);
        assert(items@.map_values(|i: Item| i@) =~= old(self).items_view().remove(id@));
        self.items = items;
        match removed {
            Some(_) => Ok(()),
            None => {
                assert(self.items_view() =~= old(self).items_view());
                Err(ServiceError::NotFound(id))
            },
        }
    }
}

} // verus!
