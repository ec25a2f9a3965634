//! Entities referred to by identifiers instead of shared pointers: a
//! product repository keyed by id, a sparse set keyed by entity id, an
//! arena, and a component world.
use std::collections::HashMap;
use vstd::prelude::*;
use vstd::string::*;

verus! {

broadcast use vstd::std_specs::hash::group_hash_axioms;

/// A product; the price type is left to the caller.
#[derive(Debug, Clone, PartialEq)]
pub struct Product<P> {
    pub id: u64,
    pub name: String,
    pub price: P,
}

impl<P> Product<P> {
    pub fn new(id: u64, name: &str, price: P) -> (p: Self)
        ensures
            p.id == id,
            p.name@ == name@,
            p.price == price,
    {
        Product { id, name: String::from_str(name), price }
    }
}

/// Products stored once and referred to by their id.
pub struct ProductRepository<P> {
    products: HashMap<u64, Product<P>>,
}

impl<P> View for ProductRepository<P> {
    type V = Map<u64, Product<P>>;

    closed spec fn view(&self) -> Map<u64, Product<P>> {
        self.products@
    }
}

impl<P> ProductRepository<P> {
    pub fn new() -> (r: Self)
        ensures
            r@ == Map::<u64, Product<P>>::empty(),
    {
        ProductRepository { products: HashMap::new() }
    }

    /// Stores `product` under its id, replacing any product with that id.
    pub fn add(&mut self, product: Product<P>)
        ensures
            final(self)@ == old(self)@.insert(product.id, product),
    {
        let id = product.id;
        self.products.insert(id, product);
    }

    /// The product with `id`, if one is stored.
    pub fn get(&self, id: u64) -> (r: Option<&Product<P>>)
        ensures
            r == (if self@.contains_key(id) {
                Some(&self@[id])
            } else {
                None
            }),
    {
        self.products.get(&id)
    }

    /// Sets the price of the product with `id`; without such a product
    /// nothing changes.
    pub fn update_price(&mut self, id: u64, new_price: P)
        ensures
            old(self)@.contains_key(id) ==> final(self)@ == old(self)@.insert(
                id,
                Product { price: new_price, ..old(self)@[id] },
            ),
            !old(self)@.contains_key(id) ==> final(self)@ == old(self)@,
    {
        match self.products.remove(&id) {
            Some(mut product) => {
                product.price = new_price;
                self.products.insert(id, product);
                proof {
                    assert(self.products@ =~= old(self)@.insert(
                        id,
                        Product { price: new_price, ..old(self)@[id] },
                    ));
                }
            },
            None => {},
        }
    }
}

/// Updating a price changes that product's price and nothing else of the
/// repository: its id, its name and every other product stay.
pub proof fn law_update_price_touches_one_price<P>(
    before: Map<u64, Product<P>>,
    id: u64,
    new_price: P,
    k: u64,
)
    requires
        before.contains_key(id),
    ensures
        ({
            let after = before.insert(id, Product { price: new_price, ..before[id] });
            &&& after.dom() == before.dom()
            &&& after[id].price == new_price
            &&& after[id].id == before[id].id
            &&& after[id].name == before[id].name
            &&& (k != id && before.contains_key(k) ==> after[k] == before[k])
        }),
{
    let after = before.insert(id, Product { price: new_price, ..before[id] });
    assert(after.dom() =~= before.dom());
}

/// Component storage indexed by entity id.
///
/// `dense` holds the components contiguously, `entities[i]` is the entity
/// that owns `dense[i]`, and `sparse[e]` is the position of the component
/// of entity `e` in `dense`, or `-1` when `e` has none.
pub struct SparseSet<T> {
    dense: Vec<T>,
    entities: Vec<usize>,
    sparse: Vec<isize>,
}

/// Removing position `i` by moving the last element into it.
pub open spec fn swap_remove_seq<A>(s: Seq<A>, i: int) -> Seq<A> {
    s.update(i, s.last()).drop_last()
}

impl<T> View for SparseSet<T> {
    type V = Map<usize, T>;

    /// The component of every entity that has one.
    closed spec fn view(&self) -> Map<usize, T> {
        Map::new(
            |e: usize| e < self.sparse@.len() && self.sparse@[e as int] != -1,
            |e: usize| self.dense@[self.sparse@[e as int] as int],
        )
    }
}

impl<T> SparseSet<T> {
    /// Internal consistency: every slot of `sparse` is `-1` or points at a
    /// dense position owned by that same entity.
    pub closed spec fn wf(&self) -> bool {
        &&& self.dense@.len() == self.entities@.len()
        &&& self.dense@.len() <= isize::MAX
        &&& forall|i: int|
            0 <= i < self.entities@.len() ==> #[trigger] self.entities@[i] < self.sparse@.len()
        &&& forall|e: int|
            0 <= e < self.sparse@.len() ==> {
                let p = #[trigger] self.sparse@[e];
                p == -1 || (0 <= p < self.dense@.len() && self.entities@[p as int] == e)
            }
    }

    /// Every dense slot is the live component of its entity (no slot was
    /// orphaned by inserting twice for the same entity).
    pub closed spec fn compact(&self) -> bool {
        forall|i: int|
            0 <= i < self.entities@.len() ==> self.sparse@[#[trigger] self.entities@[i] as int] == i
    }

    /// The components in storage order.
    pub closed spec fn values(&self) -> Seq<T> {
        self.dense@
    }

    /// The owner of each stored component, in storage order.
    pub closed spec fn owners(&self) -> Seq<usize> {
        self.entities@
    }

    /// The dense position recorded for entity `e` (`-1` when it has none).
    pub closed spec fn slot(&self, e: usize) -> int {
        self.sparse@[e as int] as int
    }

    /// Number of slots of the sparse index.
    pub closed spec fn capacity(&self) -> nat {
        self.sparse@.len()
    }

    pub fn new() -> (s: Self)
        ensures
            s.wf(),
            s.compact(),
            s@ == Map::<usize, T>::empty(),
            s.values() == Seq::<T>::empty(),
            s.owners() == Seq::<usize>::empty(),
            s.capacity() == 0,
    {
        let s = SparseSet { dense: Vec::new(), entities: Vec::new(), sparse: Vec::new() };
        assert(s@ =~= Map::<usize, T>::empty());
        s
    }

    /// Number of stored components (live or orphaned).
    pub fn len(&self) -> (n: usize)
        ensures
            n == self.values().len(),
    {
        self.dense.len()
    }

    /// The component of `entity_id`, if it has one.
    pub fn get(&self, entity_id: usize) -> (r: Option<&T>)
        requires
            self.wf(),
        ensures
            r == (if self@.contains_key(entity_id) {
                Some(&self@[entity_id])
            } else {
                None
            }),
    {
        if entity_id >= self.sparse.len() {
            return None;
        }
        let idx = self.sparse[entity_id];
        if idx == -1 {
            None
        } else {
            Some(&self.dense[idx as usize])
        }
    }

    /// Stores `data` as the component of `entity_id`, growing the sparse
    /// index with `-1` slots when the id is beyond it. A previous component
    /// of the same entity stays in storage but is no longer reachable.
    pub fn insert(&mut self, entity_id: usize, data: T)
        requires
            old(self).wf(),
            entity_id < usize::MAX,
            old(self).values().len() < isize::MAX,
        ensures
            final(self).wf(),
            final(self)@ == old(self)@.insert(entity_id, data),
            final(self).values() == old(self).values().push(data),
            final(self).owners() == old(self).owners().push(entity_id),
            final(self).capacity() == (if entity_id < old(self).capacity() {
                old(self).capacity() as int
            } else {
                entity_id + 1
            }),
            old(self).compact() && !old(self)@.contains_key(entity_id) ==> final(self).compact(),
            final(self).slot(entity_id) == old(self).values().len(),
            forall|e: usize|
                e != entity_id && e < old(self).capacity() ==> #[trigger] final(self).slot(e)
                    == old(self).slot(e),
            forall|e: usize|
                e != entity_id && old(self).capacity() <= e < final(self).capacity()
                    ==> #[trigger] final(self).slot(e) == -1,
    {
        if entity_id >= self.sparse.len() {
            let old_len = self.sparse.len();
            self.sparse.resize(entity_id + 1, -1isize);
            assert forall|e: int| old_len <= e < self.sparse@.len() implies self.sparse@[e] == -1 by {
                assert(cloned::<isize>(-1isize, self.sparse@[e]));
            }
        }
        let pos = self.dense.len() as isize;
        self.sparse.set(entity_id, pos);
        self.dense.push(data);
        self.entities.push(entity_id);
        proof {
            assert forall|e: int| 0 <= e < self.sparse@.len() implies {
                let p = #[trigger] self.sparse@[e];
                p == -1 || (0 <= p < self.dense@.len() && self.entities@[p as int] == e)
            } by {
                if e != entity_id && e < old(self).sparse@.len() {
                    assert(self.sparse@[e] == old(self).sparse@[e]);
                    let p = self.sparse@[e];
                    if p != -1 {
                        assert(self.entities@[p as int] == old(self).entities@[p as int]);
                    }
                }
            }
            assert forall|i: int| 0 <= i < self.entities@.len() implies #[trigger] self.entities@[i]
                < self.sparse@.len() by {
                if i < old(self).entities@.len() {
                    assert(self.entities@[i] == old(self).entities@[i]);
                }
            }
            if old(self).compact() && !old(self)@.contains_key(entity_id) {
                assert forall|i: int| 0 <= i < self.entities@.len() implies self.sparse@[
                    #[trigger] self.entities@[i] as int] == i by {
                    if i < old(self).entities@.len() {
                        let e = old(self).entities@[i];
                        assert(self.entities@[i] == e);
                        assert(old(self).sparse@[e as int] == i);
                        assert(e != entity_id);
                    }
                }
            }
            let new_map = self@;
            let expected = old(self)@.insert(entity_id, data);
            assert forall|e: usize| #[trigger] new_map.contains_key(e) <==> expected.contains_key(e) by {
                if e != entity_id && e < old(self).sparse@.len() {
                    assert(self.sparse@[e as int] == old(self).sparse@[e as int]);
                }
            }
            assert forall|e: usize| #[trigger] new_map.contains_key(e) implies new_map[e] == expected[e] by {
                if e != entity_id {
                    let p = old(self).sparse@[e as int];
                    assert(self.dense@[p as int] == old(self).dense@[p as int]);
                }
            }
            assert(new_map =~= expected);
        }
    }

    /// Removes the component of `entity_id`: the last stored component is
    /// moved into its slot, the moved entity's index is updated and the
    /// removed entity's slot is reset to `-1`.
    pub fn remove(&mut self, entity_id: usize)
        requires
            old(self).wf(),
            old(self)@.contains_key(entity_id),
        ensures
            final(self).wf(),
            ({
                let idx = old(self).slot(entity_id);
                &&& final(self).values() == swap_remove_seq(old(self).values(), idx)
                &&& final(self).owners() == swap_remove_seq(old(self).owners(), idx)
            }),
            final(self).capacity() == old(self).capacity(),
            !final(self)@.contains_key(entity_id),
            old(self).compact() ==> final(self).compact() && final(self)@ == old(self)@.remove(
                entity_id,
            ),
            final(self).slot(entity_id) == -1,
            old(self).owners().last() != entity_id ==> final(self).slot(old(self).owners().last())
                == old(self).slot(entity_id),
            forall|e: usize|
                e != entity_id && e != old(self).owners().last() && e < old(self).capacity()
                    ==> #[trigger] final(self).slot(e) == old(self).slot(e),
    {
        let idx_i = self.sparse[entity_id];
        let idx = idx_i as usize;
        let last_idx = self.dense.len() - 1;
        let ghost old_entities = self.entities@;
        let ghost old_sparse = self.sparse@;
        let ghost old_dense = self.dense@;
        let _removed = self.dense.swap_remove(idx);
        let _removed_owner = self.entities.swap_remove(idx);
        let moved_entity = if idx < last_idx {
            self.entities[idx]
        } else {
            entity_id
        };
        assert(moved_entity == old_entities[last_idx as int]);
        self.sparse.set(moved_entity, idx as isize);
        self.sparse.set(entity_id, -1isize);
        proof {
            let n = old_dense.len() - 1;
            assert forall|e: int| 0 <= e < self.sparse@.len() implies {
                let p = #[trigger] self.sparse@[e];
                p == -1 || (0 <= p < self.dense@.len() && self.entities@[p as int] == e)
            } by {
                if e != entity_id && e != moved_entity {
                    let p = old_sparse[e];
                    if p != -1 {
                        assert(old_entities[p as int] == e);
                        assert(p != idx);
                        assert(p != last_idx) by {
                            assert(old_entities[last_idx as int] == moved_entity);
                        }
                    }
                }
            }
            assert forall|i: int| 0 <= i < self.entities@.len() implies #[trigger] self.entities@[i]
                < self.sparse@.len() by {
                if i == idx {
                    assert(self.entities@[i] == old_entities[last_idx as int]);
                } else {
                    assert(self.entities@[i] == old_entities[i]);
                }
            }
            if old(self).compact() {
                assert forall|i: int| 0 <= i < self.entities@.len() implies self.sparse@[
                    #[trigger] self.entities@[i] as int] == i by {
                    if i == idx {
                        assert(self.entities@[i] == moved_entity);
                        assert(moved_entity != entity_id) by {
                            assert(old_sparse[old_entities[last_idx as int] as int] == last_idx);
                        }
                    } else {
                        let e = old_entities[i];
                        assert(self.entities@[i] == e);
                        assert(old_sparse[e as int] == i);
                        assert(e != entity_id);
                        assert(e != moved_entity) by {
                            assert(old_sparse[old_entities[last_idx as int] as int] == last_idx);
                        }
                    }
                }
                let expected = old(self)@.remove(entity_id);
                let new_map = self@;
                assert forall|e: usize| #[trigger] new_map.contains_key(e) <==> expected.contains_key(e) by {
                    if e < old_sparse.len() && e != entity_id && e != moved_entity {
                        assert(self.sparse@[e as int] == old_sparse[e as int]);
                    }
                    if e == moved_entity && e != entity_id {
                        assert(old_sparse[e as int] == last_idx) by {
                            assert(old_sparse[old_entities[last_idx as int] as int] == last_idx);
                        }
                    }
                }
                assert forall|e: usize| #[trigger] new_map.contains_key(e) implies new_map[e]
                    == expected[e] by {
                    if e == moved_entity {
                        assert(old_sparse[e as int] == last_idx) by {
                            assert(old_sparse[old_entities[last_idx as int] as int] == last_idx);
                        }
                        assert(self.dense@[idx as int] == old_dense[last_idx as int]);
                    } else {
                        let p = old_sparse[e as int];
                        assert(old_entities[p as int] == e);
                        assert(p != idx);
                        assert(p != last_idx);
                        assert(self.dense@[p as int] == old_dense[p as int]);
                    }
                }
                assert(new_map =~= expected);
            }
        }
    }

    /// The stored components in storage order.
    pub fn iter(&self) -> (r: &[T])
        ensures
            r@ == self.values(),
    {
        self.dense.as_slice()
    }
}

/// Reading an entity after storing a component for it gives that component;
/// every other entity reads as before.
pub proof fn law_get_after_insert<T>(before: Map<usize, T>, e: usize, d: T, k: usize)
    ensures
        before.insert(e, d).contains_key(k) == (k == e || before.contains_key(k)),
        before.insert(e, d).contains_key(k) ==> before.insert(e, d)[k] == (if k == e {
            d
        } else {
            before[k]
        }),
{
}

/// Removing an entity that was just given its first component restores the
/// set's contents.
pub proof fn law_remove_undoes_insert<T>(before: Map<usize, T>, e: usize, d: T)
    requires
        !before.contains_key(e),
    ensures
        before.insert(e, d).remove(e) == before,
{
    assert(before.insert(e, d).remove(e) =~= before);
}

/// In a set where no entity was inserted twice, every stored component is
/// the live component of its owner: iterating the storage visits exactly
/// what `get` answers.
pub proof fn law_stored_are_live<T>(s: SparseSet<T>)
    requires
        s.wf(),
        s.compact(),
    ensures
        forall|i: int|
            0 <= i < s.values().len() ==> s@.contains_key(#[trigger] s.owners()[i]) && s@[s.owners()[i]]
                == s.values()[i],
{
    assert forall|i: int| 0 <= i < s.values().len() implies s@.contains_key(
        #[trigger] s.owners()[i],
    ) && s@[s.owners()[i]] == s.values()[i] by {
        let e = s.entities@[i];
        assert(s.sparse@[e as int] == i);
    }
}

/// Storage that hands out no references: items are appended and looked up
/// by their position.
pub struct Arena<T> {
    items: Vec<T>,
}

impl<T> Arena<T> {
    /// The stored items in allocation order.
    pub closed spec fn contents(&self) -> Seq<T> {
        self.items@
    }

    pub fn new() -> (a: Self)
        ensures
            a.contents() == Seq::<T>::empty(),
    {
        Arena { items: Vec::new() }
    }

    /// Stores `item` after the ones already stored.
    pub fn allocate(&mut self, item: T)
        ensures
            final(self).contents() == old(self).contents().push(item),
    {
        self.items.push(item);
    }

    /// Every stored item, in allocation order.
    pub fn get_all(&self) -> (r: &[T])
        ensures
            r@ == self.contents(),
    {
        self.items.as_slice()
    }

    pub fn len(&self) -> (n: usize)
        ensures
            n == self.contents().len(),
    {
        self.items.len()
    }
}

/// Components kept in parallel vectors: entity `i` owns `names[i]` and
/// `prices[i]`.
pub struct World<P> {
    names: Vec<Option<String>>,
    prices: Vec<Option<P>>,
}

impl<P> World<P> {
    /// The name component of each entity.
    pub closed spec fn names(&self) -> Seq<Option<String>> {
        self.names@
    }

    /// The price component of each entity.
    pub closed spec fn prices(&self) -> Seq<Option<P>> {
        self.prices@
    }

    /// Both component vectors have one slot per entity.
    pub closed spec fn wf(&self) -> bool {
        self.names@.len() == self.prices@.len()
    }

    pub fn new() -> (w: Self)
        ensures
            w.wf(),
            w.names() == Seq::<Option<String>>::empty(),
            w.prices() == Seq::<Option<P>>::empty(),
    {
        World { names: Vec::new(), prices: Vec::new() }
    }

    /// Number of entities.
    pub fn len(&self) -> (n: usize)
        requires
            self.wf(),
        ensures
            n == self.names().len(),
    {
        self.names.len()
    }

    /// Creates an entity with both components; its id is the number of
    /// entities before it.
    pub fn spawn(&mut self, name: &str, price: P) -> (id: usize)
        requires
            old(self).wf(),
        ensures
            final(self).wf(),
            id == old(self).names().len(),
            final(self).names().len() == old(self).names().len() + 1,
            final(self).names().take(id as int) == old(self).names(),
            final(self).names()[id as int] matches Some(n) && n@ == name@,
            final(self).prices() == old(self).prices().push(Some(price)),
    {
        let id = self.names.len();
        self.names.push(Some(String::from_str(name)));
        self.prices.push(Some(price));
        assert(self.names@.take(id as int) =~= old(self).names@);
        id
    }

    /// The price of entity `id`, if it has one.
    pub fn price(&self, id: usize) -> (r: Option<&P>)
        requires
            self.wf(),
        ensures
            r == (if id < self.prices().len() {
                match self.prices()[id as int] {
                    Some(p) => Some(&p),
                    None => None,
                }
            } else {
                None
            }),
    {
        if id < self.prices.len() {
            match &self.prices[id] {
                Some(p) => Some(p),
                None => None,
            }
        } else {
            None
        }
    }

    /// Replaces the price of entity `id`.
    pub fn set_price(&mut self, id: usize, price: P)
        requires
            old(self).wf(),
            id < old(self).prices().len(),
        ensures
            final(self).wf(),
            final(self).names() == old(self).names(),
            final(self).prices() == old(self).prices().update(id as int, Some(price)),
    {
        self.prices.set(id, Some(price));
    }
}

} // verus!
