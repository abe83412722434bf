//! The entity store.
//!
//! An entity is an opaque identifier joining a set of per-identifier
//! components; the [`EntityManager`] exclusively owns one association
//! table per component kind, and systems address entities by identifier,
//! never by retained reference.  An entity has a component exactly when a
//! value exists for its identifier in that component's table.

use vstd::prelude::*;

use crate::input::Input;
use crate::object::{Movement, Object};
use crate::rect::Rect;

verus! {

/// The identifier no live entity carries, returned by lookups that find
/// nothing.
pub const NIL_ENTITY: u64 = 0;

/// An association table from entity identifiers to component values,
/// iterated in insertion order.
#[derive(Debug)]
pub struct Table<V> {
    keys: Vec<u64>,
    vals: Vec<V>,
}

impl<V> Table<V> {
    /// The identifiers, in insertion order.
    pub closed spec fn key_seq(self) -> Seq<u64> {
        self.keys@
    }

    /// The values, in insertion order.
    pub closed spec fn val_seq(self) -> Seq<V> {
        self.vals@
    }

    /// Well-formedness: one value per key, each key at most once.
    pub open spec fn wf(self) -> bool {
        &&& self.key_seq().len() == self.val_seq().len()
        &&& forall|i: int, j: int|
            0 <= i < j < self.key_seq().len() ==> self.key_seq()[i] != self.key_seq()[j]
    }

    /// Whether an identifier has a value.
    pub open spec fn spec_contains(self, id: u64) -> bool {
        self.key_seq().contains(id)
    }

    /// The table as a map from identifier to component value.
    pub open spec fn spec_map(self) -> Map<u64, V> {
        Map::new(
            |id: u64| self.key_seq().contains(id),
            |id: u64| self.val_seq()[self.key_seq().index_of(id)],
        )
    }

    pub fn new() -> (r: Table<V>)
        ensures
            r.wf(),
            r.key_seq() == Seq::<u64>::empty(),
            r.spec_map() == Map::<u64, V>::empty(),
    {
        let r = Table { keys: Vec::new(), vals: Vec::new() };
        proof {
            assert(r.spec_map() =~= Map::<u64, V>::empty());
            assert(r.key_seq() =~= Seq::<u64>::empty());
        }
        r
    }

    /// How many entities have a value.
    pub fn len(&self) -> (r: usize)
        requires
            self.wf(),
        ensures
            r == self.key_seq().len(),
    {
        self.keys.len()
    }

    /// The position of an identifier in insertion order.
    fn index_of(&self, id: u64) -> (r: Option<usize>)
        requires
            self.wf(),
        ensures
            r matches Some(i) ==> i < self.key_seq().len() && self.key_seq()[i as int] == id,
            r is None ==> !self.spec_contains(id),
    {
        let mut i: usize = 0;
        while i < self.keys.len()
            invariant
                self.wf(),
                0 <= i <= self.key_seq().len(),
                forall|j: int| 0 <= j < i ==> self.key_seq()[j] != id,
            decreases self.key_seq().len() - i,
        {
            if self.keys[i] == id {
                return Some(i);
            }
            i = i + 1;
        }
        proof {
            assert(!self.key_seq().contains(id));
        }
        None
    }

    /// Whether an identifier has a value.
    pub fn contains_key(&self, id: u64) -> (r: bool)
        requires
            self.wf(),
        ensures
            r == self.spec_contains(id),
    {
        self.index_of(id).is_some()
    }

    /// The component of an entity, when it has one.
    pub fn get(&self, id: u64) -> (r: Option<&V>)
        requires
            self.wf(),
        ensures
            r matches Some(v) ==> self.spec_contains(id) && *v == self.spec_map()[id],
            r is None ==> !self.spec_contains(id),
    {
        match self.index_of(id) {
            Some(i) => {
                proof {
                    self.lemma_index_of_key(i as int);
                }
                Some(&self.vals[i])
            },
            None => None,
        }
    }

    /// Exclusive access to the component of an entity, when it has one.
    pub fn get_mut(&mut self, id: u64) -> (r: Option<&mut V>)
        requires
            old(self).wf(),
        ensures
            r matches Some(v) ==> {
                &&& old(self).spec_contains(id)
                &&& *v == old(self).spec_map()[id]
                &&& final(self).wf()
                &&& final(self).key_seq() == old(self).key_seq()
                &&& final(self).spec_map() == old(self).spec_map().insert(id, *final(v))
            },
            r is None ==> !old(self).spec_contains(id) && *final(self) == *old(self),
    {
        match self.index_of(id) {
            Some(i) => {
                proof {
                    self.lemma_index_of_key(i as int);
                }
                let v = &mut self.vals[i];
                proof {
                    assert(after_borrow(self).wf());
                    assert(after_borrow(self).spec_map() =~= old(self).spec_map().insert(
                        id,
                        *final(v),
                    ));
                }
                Some(v)
            },
            None => None,
        }
    }

    /// Inserts or replaces the component of an entity.
    pub fn insert(&mut self, id: u64, value: V)
        requires
            old(self).wf(),
        ensures
            final(self).wf(),
            final(self).spec_map() == old(self).spec_map().insert(id, value),
            old(self).spec_contains(id) ==> final(self).key_seq() == old(self).key_seq(),
            !old(self).spec_contains(id) ==> final(self).key_seq() == old(self).key_seq().push(id),
    {
        match self.index_of(id) {
            Some(i) => {
                proof {
                    self.lemma_index_of_key(i as int);
                }
                self.vals[i] = value;
                proof {
                    assert(self.spec_map() =~= old(self).spec_map().insert(id, value));
                }
            },
            None => {
                self.keys.push(id);
                self.vals.push(value);
                proof {
                    let oldk = old(self).key_seq();
                    let newk = self.key_seq();
                    assert forall|i: int, j: int|
                        0 <= i < j < newk.len() implies newk[i] != newk[j] by {
                        if j == newk.len() - 1 {
                            assert(oldk.contains(oldk[i]));
                        }
                    }
                    assert(newk[newk.len() - 1] == id);
                    assert(newk.contains(id));
                    let wi = newk.index_of(id);
                    assert(0 <= wi < newk.len() && newk[wi] == id);
                    assert(wi == newk.len() - 1);
                    assert forall|k: u64| #[trigger] oldk.contains(k) implies newk.contains(k)
                        && newk.index_of(k) == oldk.index_of(k) by {
                        let w = oldk.index_of(k);
                        assert(0 <= w < oldk.len() && oldk[w] == k);
                        assert(newk[w] == k);
                        assert(newk.contains(k));
                        let w2 = newk.index_of(k);
                        assert(0 <= w2 < newk.len() && newk[w2] == k);
                        if w2 != w {
                            assert(false);
                        }
                    }
                    assert forall|k: u64| #[trigger] newk.contains(k) implies k == id
                        || oldk.contains(k) by {
                        let w = choose|w: int| 0 <= w < newk.len() && newk[w] == k;
                        if w < newk.len() - 1 {
                            assert(oldk[w] == k);
                            assert(oldk.contains(k));
                        }
                    }
                    assert(self.spec_map() =~= old(self).spec_map().insert(id, value));
                }
            },
        }
    }

    /// The identifiers that have a value, in insertion order.
    pub fn ids(&self) -> (r: Vec<u64>)
        requires
            self.wf(),
        ensures
            r@ == self.key_seq(),
    {
        let mut out: Vec<u64> = Vec::new();
        let mut i: usize = 0;
        while i < self.keys.len()
            invariant
                self.wf(),
                0 <= i <= self.key_seq().len(),
                out@ == self.key_seq().take(i as int),
            decreases self.key_seq().len() - i,
        {
            out.push(self.keys[i]);
            proof {
                assert(out@ =~= self.key_seq().take(i as int + 1));
            }
            i = i + 1;
        }
        proof {
            assert(self.key_seq().take(self.key_seq().len() as int) =~= self.key_seq());
        }
        out
    }

    /// When a key sits at position `i`, the map sends it to the value at
    /// `i`.
    proof fn lemma_index_of_key(&self, i: int)
        requires
            self.wf(),
            0 <= i < self.key_seq().len(),
        ensures
            self.spec_contains(self.key_seq()[i]),
            self.key_seq().index_of(self.key_seq()[i]) == i,
            self.spec_map()[self.key_seq()[i]] == self.val_seq()[i],
    {
        let id = self.key_seq()[i];
        assert(self.key_seq().contains(id));
        let w = self.key_seq().index_of(id);
        assert(self.key_seq()[w] == id);
        if w != i {
            assert(false);
        }
    }
}

/// An association table from entity names to entity identifiers.
#[derive(Debug)]
pub struct NameTable {
    names: Vec<String>,
    ids: Vec<u64>,
}

impl NameTable {
    /// The names, in insertion order.
    pub closed spec fn name_seq(self) -> Seq<Seq<char>> {
        self.names@.map_values(|s: String| s@)
    }

    /// The identifiers, in insertion order.
    pub closed spec fn id_seq(self) -> Seq<u64> {
        self.ids@
    }

    /// Well-formedness: one identifier per name, each name at most once.
    pub open spec fn wf(self) -> bool {
        &&& self.name_seq().len() == self.id_seq().len()
        &&& forall|i: int, j: int|
            0 <= i < j < self.name_seq().len() ==> self.name_seq()[i] != self.name_seq()[j]
    }

    /// Whether a name is bound.
    pub open spec fn spec_contains(self, name: Seq<char>) -> bool {
        self.name_seq().contains(name)
    }

    /// The table as a map from name to identifier.
    pub open spec fn spec_map(self) -> Map<Seq<char>, u64> {
        Map::new(
            |name: Seq<char>| self.name_seq().contains(name),
            |name: Seq<char>| self.id_seq()[self.name_seq().index_of(name)],
        )
    }

    pub fn new() -> (r: NameTable)
        ensures
            r.wf(),
            r.name_seq() == Seq::<Seq<char>>::empty(),
            r.spec_map() == Map::<Seq<char>, u64>::empty(),
    {
        let r = NameTable { names: Vec::new(), ids: Vec::new() };
        proof {
            assert(r.name_seq() =~= Seq::<Seq<char>>::empty());
            assert(r.spec_map() =~= Map::<Seq<char>, u64>::empty());
        }
        r
    }

    /// The position of a name in insertion order.
    fn index_of(&self, name: &String) -> (r: Option<usize>)
        requires
            self.wf(),
        ensures
            r matches Some(i) ==> i < self.name_seq().len() && self.name_seq()[i as int] == name@,
            r is None ==> !self.spec_contains(name@),
    {
        let mut i: usize = 0;
        while i < self.names.len()
            invariant
                self.wf(),
                0 <= i <= self.name_seq().len(),
                forall|j: int| 0 <= j < i ==> self.name_seq()[j] != name@,
            decreases self.name_seq().len() - i,
        {
            if self.names[i].eq(name) {
                return Some(i);
            }
            i = i + 1;
        }
        proof {
            assert forall|j: int|
                0 <= j < self.name_seq().len() implies self.name_seq()[j] != name@ by {}
            assert(!self.name_seq().contains(name@));
        }
        None
    }

    /// The identifier a name is bound to, when one is.
    pub fn get(&self, name: &String) -> (r: Option<u64>)
        requires
            self.wf(),
        ensures
            r matches Some(id) ==> self.spec_contains(name@) && id == self.spec_map()[name@],
            r is None ==> !self.spec_contains(name@),
    {
        match self.index_of(name) {
            Some(i) => {
                proof {
                    self.lemma_index_of_name(i as int);
                }
                Some(self.ids[i])
            },
            None => None,
        }
    }

    /// Binds a name to an identifier, replacing an earlier binding.
    pub fn insert(&mut self, name: String, id: u64)
        requires
            old(self).wf(),
        ensures
            final(self).wf(),
            final(self).spec_map() == old(self).spec_map().insert(name@, id),
    {
        match self.index_of(&name) {
            Some(i) => {
                proof {
                    self.lemma_index_of_name(i as int);
                }
                self.ids[i] = id;
                proof {
                    assert(self.name_seq() =~= old(self).name_seq());
                    assert(self.spec_map() =~= old(self).spec_map().insert(name@, id));
                }
            },
            None => {
                let ghost n = name@;
                self.names.push(name);
                self.ids.push(id);
                proof {
                    let oldk = old(self).name_seq();
                    let newk = self.name_seq();
                    assert(newk =~= oldk.push(n));
                    assert forall|i: int, j: int|
                        0 <= i < j < newk.len() implies newk[i] != newk[j] by {
                        if j == newk.len() - 1 {
                            assert(oldk.contains(oldk[i]));
                        }
                    }
                    assert(newk[newk.len() - 1] == n);
                    assert(newk.contains(n));
                    let wi = newk.index_of(n);
                    assert(0 <= wi < newk.len() && newk[wi] == n);
                    assert(wi == newk.len() - 1);
                    assert forall|k: Seq<char>| #[trigger] oldk.contains(k) implies newk.contains(
                        k,
                    ) && newk.index_of(k) == oldk.index_of(k) by {
                        let w = oldk.index_of(k);
                        assert(0 <= w < oldk.len() && oldk[w] == k);
                        assert(newk[w] == k);
                        assert(newk.contains(k));
                        let w2 = newk.index_of(k);
                        assert(0 <= w2 < newk.len() && newk[w2] == k);
                        if w2 != w {
                            assert(false);
                        }
                    }
                    assert forall|k: Seq<char>| #[trigger] newk.contains(k) implies k == n
                        || oldk.contains(k) by {
                        let w = choose|w: int| 0 <= w < newk.len() && newk[w] == k;
                        if w < newk.len() - 1 {
                            assert(oldk[w] == k);
                            assert(oldk.contains(k));
                        }
                    }
                    assert(self.spec_map() =~= old(self).spec_map().insert(n, id));
                }
            },
        }
    }

    /// When a name sits at position `i`, the map sends it to the
    /// identifier at `i`.
    proof fn lemma_index_of_name(&self, i: int)
        requires
            self.wf(),
            0 <= i < self.name_seq().len(),
        ensures
            self.spec_contains(self.name_seq()[i]),
            self.name_seq().index_of(self.name_seq()[i]) == i,
            self.spec_map()[self.name_seq()[i]] == self.id_seq()[i],
    {
        let n = self.name_seq()[i];
        assert(self.name_seq().contains(n));
        let w = self.name_seq().index_of(n);
        assert(self.name_seq()[w] == n);
        if w != i {
            assert(false);
        }
    }
}

/// An entity: nothing but its identifier.  Everything else about it lives
/// in the component tables, joined by this identifier.
#[derive(Clone, Copy, Debug, PartialEq, Eq, Structural)]
pub struct Entity {
    pub id: u64,
}

impl Entity {
    pub fn new(id: u64) -> (r: Entity)
        ensures
            r == (Entity { id }),
    {
        Entity { id }
    }
}

/// A configuration of optional components, finalized by
/// [`EntityManager::add`].
#[derive(Debug)]
pub struct EntityBuilder {
    pub name: Option<String>,
    pub asset_name: Option<String>,
    pub object: Option<Object>,
    pub movement: Option<Movement>,
    pub input: Option<Input>,
}

impl EntityBuilder {
    /// Well-formedness: an attached object or movement component keeps its
    /// own invariant.
    pub open spec fn wf(self) -> bool {
        &&& self.object matches Some(o) ==> o.wf()
        &&& self.movement matches Some(m) ==> m.wf()
    }

    /// An empty configuration: no components.
    pub fn new() -> (r: EntityBuilder)
        ensures
            r.name is None,
            r.asset_name is None,
            r.object is None,
            r.movement is None,
            r.input is None,
            r.wf(),
    {
        EntityBuilder { name: None, asset_name: None, object: None, movement: None, input: None }
    }

    /// Attaches a name the entity can be looked up by.
    pub fn with_name(self, name: String) -> (r: EntityBuilder)
        ensures
            r == (EntityBuilder { name: Some(name), ..self }),
    {
        EntityBuilder { name: Some(name), ..self }
    }

    /// Attaches a display asset reference.
    pub fn with_asset(self, asset_name: String) -> (r: EntityBuilder)
        ensures
            r == (EntityBuilder { asset_name: Some(asset_name), ..self }),
    {
        EntityBuilder { asset_name: Some(asset_name), ..self }
    }

    /// Attaches a position/shape component.
    pub fn with_object(self, object: Object) -> (r: EntityBuilder)
        ensures
            r == (EntityBuilder { object: Some(object), ..self }),
    {
        EntityBuilder { object: Some(object), ..self }
    }

    /// Attaches a movement component.
    pub fn with_movement(self, movement: Movement) -> (r: EntityBuilder)
        ensures
            r == (EntityBuilder { movement: Some(movement), ..self }),
    {
        EntityBuilder { movement: Some(movement), ..self }
    }

    /// Attaches an input component.
    pub fn with_input(self, input: Input) -> (r: EntityBuilder)
        ensures
            r == (EntityBuilder { input: Some(input), ..self }),
    {
        EntityBuilder { input: Some(input), ..self }
    }
}

/// The store that owns every per-entity component table, keyed by entity
/// identifier.  Identifiers are assigned by the store, starting at one;
/// [`NIL_ENTITY`] is never assigned.
#[derive(Debug)]
pub struct EntityManager {
    next_id: u64,
    entities: Vec<Entity>,
    names: NameTable,
    objects: Table<Object>,
    assets: Table<String>,
    movements: Table<Movement>,
    inputs: Table<Input>,
    target: Option<String>,
}

impl EntityManager {
    /// The next identifier the store will assign.
    pub closed spec fn spec_next_id(self) -> int {
        self.next_id as int
    }

    /// The entities added so far, in insertion order.
    pub closed spec fn spec_entities(self) -> Seq<Entity> {
        self.entities@
    }

    /// The name table.
    pub closed spec fn spec_names(self) -> NameTable {
        self.names
    }

    /// The position/shape components.
    pub closed spec fn spec_objects(self) -> Table<Object> {
        self.objects
    }

    /// The display asset references.
    pub closed spec fn spec_assets(self) -> Table<String> {
        self.assets
    }

    /// The movement components.
    pub closed spec fn spec_movements(self) -> Table<Movement> {
        self.movements
    }

    /// The input components.
    pub closed spec fn spec_inputs(self) -> Table<Input> {
        self.inputs
    }

    /// The name of the camera-followed entity, if one was set.
    pub closed spec fn spec_target(self) -> Option<String> {
        self.target
    }

    /// Well-formedness: every table keeps its own invariant, every stored
    /// identifier was assigned by the store (so it is neither nil nor a
    /// future identifier), and every stored component keeps its own
    /// invariant.
    pub open spec fn wf(self) -> bool {
        &&& 1 <= self.spec_next_id()
        &&& self.spec_names().wf()
        &&& self.spec_objects().wf()
        &&& self.spec_assets().wf()
        &&& self.spec_movements().wf()
        &&& self.spec_inputs().wf()
        &&& forall|i: int|
            0 <= i < self.spec_entities().len() ==> 1 <= (
            #[trigger] self.spec_entities()[i]).id < self.spec_next_id()
        &&& forall|n: Seq<char>|
            self.spec_names().spec_map().dom().contains(n) ==> 1 <= (
            #[trigger] self.spec_names().spec_map()[n]) < self.spec_next_id()
        &&& forall|id: u64|
            self.spec_objects().spec_contains(id) ==> 1 <= id < self.spec_next_id()
        &&& forall|id: u64| self.spec_assets().spec_contains(id) ==> 1 <= id < self.spec_next_id()
        &&& forall|id: u64|
            self.spec_movements().spec_contains(id) ==> 1 <= id < self.spec_next_id()
        &&& forall|id: u64| self.spec_inputs().spec_contains(id) ==> 1 <= id < self.spec_next_id()
        &&& forall|id: u64|
            self.spec_objects().spec_contains(id) ==> (
            #[trigger] self.spec_objects().spec_map()[id]).wf()
        &&& forall|id: u64|
            self.spec_movements().spec_contains(id) ==> (
            #[trigger] self.spec_movements().spec_map()[id]).wf()
    }

    /// An empty store.
    pub fn new() -> (r: EntityManager)
        ensures
            r.wf(),
            r.spec_next_id() == 1,
            r.spec_entities() == Seq::<Entity>::empty(),
            r.spec_names().spec_map() == Map::<Seq<char>, u64>::empty(),
            r.spec_objects().spec_map() == Map::<u64, Object>::empty(),
            r.spec_assets().spec_map() == Map::<u64, String>::empty(),
            r.spec_movements().spec_map() == Map::<u64, Movement>::empty(),
            r.spec_inputs().spec_map() == Map::<u64, Input>::empty(),
            r.spec_target() is None,
    {
        let r = EntityManager {
            next_id: 1,
            entities: Vec::new(),
            names: NameTable::new(),
            objects: Table::new(),
            assets: Table::new(),
            movements: Table::new(),
            inputs: Table::new(),
            target: None,
        };
        proof {
            assert(r.spec_entities() =~= Seq::<Entity>::empty());
        }
        r
    }

    /// Finalizes a configuration into the store under a fresh identifier
    /// and returns that identifier.  When every identifier is exhausted
    /// the store is left unchanged and [`NIL_ENTITY`] comes back.
    pub fn add(&mut self, entity_builder: EntityBuilder) -> (r: u64)
        requires
            old(self).wf(),
            entity_builder.wf(),
        ensures
            final(self).wf(),
            old(self).spec_next_id() == u64::MAX as int ==> r == NIL_ENTITY && *final(self) == *old(
                self,
            ),
            old(self).spec_next_id() < u64::MAX as int ==> {
                &&& r as int == old(self).spec_next_id()
                &&& final(self).spec_next_id() == old(self).spec_next_id() + 1
                &&& final(self).spec_entities() == old(self).spec_entities().push(Entity { id: r })
                &&& final(self).spec_names().spec_map() == (match entity_builder.name {
                    Some(n) => old(self).spec_names().spec_map().insert(n@, r),
                    None => old(self).spec_names().spec_map(),
                })
                &&& final(self).spec_objects().spec_map() == (match entity_builder.object {
                    Some(o) => old(self).spec_objects().spec_map().insert(r, o),
                    None => old(self).spec_objects().spec_map(),
                })
                &&& final(self).spec_assets().spec_map() == (match entity_builder.asset_name {
                    Some(a) => old(self).spec_assets().spec_map().insert(r, a),
                    None => old(self).spec_assets().spec_map(),
                })
                &&& final(self).spec_movements().spec_map() == (match entity_builder.movement {
                    Some(m) => old(self).spec_movements().spec_map().insert(r, m),
                    None => old(self).spec_movements().spec_map(),
                })
                &&& final(self).spec_inputs().spec_map() == (match entity_builder.input {
                    Some(i) => old(self).spec_inputs().spec_map().insert(r, i),
                    None => old(self).spec_inputs().spec_map(),
                })
                &&& final(self).spec_objects().key_seq() == (match entity_builder.object {
                    Some(o) => old(self).spec_objects().key_seq().push(r),
                    None => old(self).spec_objects().key_seq(),
                })
                &&& final(self).spec_target() == old(self).spec_target()
            },
    {
        let ghost b = entity_builder;
        if self.next_id == u64::MAX {
            return NIL_ENTITY;
        }
        let id = self.next_id;
        self.next_id = self.next_id + 1;
        self.entities.push(Entity { id });

        if let Some(name) = entity_builder.name {
            self.names.insert(name, id);
        }

        if let Some(object) = entity_builder.object {
            self.objects.insert(id, object);
        }

        if let Some(asset_name) = entity_builder.asset_name {
            self.assets.insert(id, asset_name);
        }

        if let Some(movement) = entity_builder.movement {
            self.movements.insert(id, movement);
        }

        if let Some(input) = entity_builder.input {
            self.inputs.insert(id, input);
        }

        proof {
            let old_m = *old(self);
            assert forall|n: Seq<char>|
                self.spec_names().spec_map().dom().contains(n) implies 1 <= (
            #[trigger] self.spec_names().spec_map()[n]) && self.spec_names().spec_map()[n]
                < self.spec_next_id() by {
                match b.name {
                    Some(nm) => {
                        if n != nm@ {
                            assert(old_m.spec_names().spec_map().dom().contains(n));
                        }
                    },
                    None => {
                        assert(old_m.spec_names().spec_map().dom().contains(n));
                    },
                }
            }
            assert forall|k: u64| #[trigger]
                self.spec_objects().spec_contains(k) implies 1 <= k && k < self.spec_next_id()
                && self.spec_objects().spec_map()[k].wf() by {
                assert(self.spec_objects().spec_map().dom().contains(k));
                if k != id {
                    assert(old_m.spec_objects().spec_map().dom().contains(k));
                    assert(old_m.spec_objects().spec_contains(k));
                }
            }
            assert forall|k: u64| #[trigger]
                self.spec_assets().spec_contains(k) implies 1 <= k && k
                < self.spec_next_id() by {
                assert(self.spec_assets().spec_map().dom().contains(k));
                if k != id {
                    assert(old_m.spec_assets().spec_map().dom().contains(k));
                    assert(old_m.spec_assets().spec_contains(k));
                }
            }
            assert forall|k: u64| #[trigger]
                self.spec_movements().spec_contains(k) implies 1 <= k && k < self.spec_next_id()
                && self.spec_movements().spec_map()[k].wf() by {
                assert(self.spec_movements().spec_map().dom().contains(k));
                if k != id {
                    assert(old_m.spec_movements().spec_map().dom().contains(k));
                    assert(old_m.spec_movements().spec_contains(k));
                }
            }
            assert forall|k: u64| #[trigger]
                self.spec_inputs().spec_contains(k) implies 1 <= k && k
                < self.spec_next_id() by {
                assert(self.spec_inputs().spec_map().dom().contains(k));
                if k != id {
                    assert(old_m.spec_inputs().spec_map().dom().contains(k));
                    assert(old_m.spec_inputs().spec_contains(k));
                }
            }
            assert forall|i: int|
                0 <= i < self.spec_entities().len() implies 1 <= (
            #[trigger] self.spec_entities()[i]).id && self.spec_entities()[i].id
                < self.spec_next_id() by {
                if i < old_m.spec_entities().len() {
                    assert(self.spec_entities()[i] == old_m.spec_entities()[i]);
                } else {
                    assert(self.spec_entities()[i] == (Entity { id }));
                }
            }
        }
        id
    }

    /// The identifier bound to a name, or [`NIL_ENTITY`] when the name is
    /// unbound.
    pub fn by_name(&self, name: &String) -> (r: u64)
        requires
            self.wf(),
        ensures
            self.spec_names().spec_contains(name@) ==> r == self.spec_names().spec_map()[name@] && r
                != NIL_ENTITY,
            !self.spec_names().spec_contains(name@) ==> r == NIL_ENTITY,
    {
        match self.names.get(name) {
            Some(id) => id,
            None => NIL_ENTITY,
        }
    }

    /// The identifiers of every entity with a physical presence, in
    /// insertion order; the collision system walks these.
    pub fn get_entities(&self) -> (r: Vec<u64>)
        requires
            self.wf(),
        ensures
            r@ == self.spec_objects().key_seq(),
    {
        self.objects.ids()
    }

    /// The position/shape component of an entity, when it has one.
    pub fn get_object(&self, id: u64) -> (r: Option<&Object>)
        requires
            self.wf(),
        ensures
            r matches Some(o) ==> self.spec_objects().spec_contains(id) && *o
                == self.spec_objects().spec_map()[id],
            r is None ==> !self.spec_objects().spec_contains(id),
    {
        self.objects.get(id)
    }

    /// Exclusive access to the position/shape component of an entity.
    pub fn get_object_mut(&mut self, id: u64) -> (r: Option<&mut Object>)
        requires
            old(self).wf(),
        ensures
            r matches Some(o) ==> {
                &&& old(self).spec_objects().spec_contains(id)
                &&& *o == old(self).spec_objects().spec_map()[id]
                &&& final(self).spec_objects().key_seq() == old(self).spec_objects().key_seq()
                &&& final(self).spec_objects().spec_map() == old(
                    self,
                ).spec_objects().spec_map().insert(id, *final(o))
                &&& final(o).wf() ==> final(self).wf()
                &&& unchanged_but_objects(*old(self), *final(self))
            },
            r is None ==> !old(self).spec_objects().spec_contains(id) && *final(self) == *old(self),
    {
        let r = self.objects.get_mut(id);
        match r {
            Some(o) => {
                proof {
                    assert forall|k: u64| #[trigger]
                        after_borrow(self).spec_objects().spec_contains(k) && final(o).wf() implies
                    1 <= k && k < after_borrow(self).spec_next_id() && after_borrow(
                        self,
                    ).spec_objects().spec_map()[k].wf() by {
                        assert(old(self).spec_objects().spec_contains(k));
                    }
                    assert forall|i: int|
                        0 <= i < after_borrow(self).spec_entities().len() implies 1 <= (
                    #[trigger] after_borrow(self).spec_entities()[i]).id && after_borrow(
                        self,
                    ).spec_entities()[i].id < after_borrow(self).spec_next_id() by {
                        assert(after_borrow(self).spec_entities()[i] == old(
                            self,
                        ).spec_entities()[i]);
                    }
                }
                Some(o)
            },
            None => None,
        }
    }

    /// Every physical entity with its shape, in insertion order.
    pub fn get_objects(&self) -> (r: Vec<(u64, Object)>)
        requires
            self.wf(),
        ensures
            r@.len() == self.spec_objects().key_seq().len(),
            forall|k: int|
                0 <= k < r@.len() ==> #[trigger] r@[k] == (
                self.spec_objects().key_seq()[k],
                self.spec_objects().spec_map()[self.spec_objects().key_seq()[k]],
            ),
    {
        let ids = self.objects.ids();
        let mut out: Vec<(u64, Object)> = Vec::new();
        let mut i: usize = 0;
        while i < ids.len()
            invariant
                self.wf(),
                ids@ == self.spec_objects().key_seq(),
                0 <= i <= ids@.len(),
                out@.len() == i as int,
                forall|k: int|
                    0 <= k < i ==> #[trigger] out@[k] == (
                    self.spec_objects().key_seq()[k],
                    self.spec_objects().spec_map()[self.spec_objects().key_seq()[k]],
                ),
            decreases ids@.len() - i,
        {
            let id = ids[i];
            proof {
                assert(self.spec_objects().key_seq().contains(id));
            }
            match self.objects.get(id) {
                Some(o) => {
                    out.push((id, *o));
                },
                None => {
                    proof {
                        assert(false);
                    }
                },
            }
            i = i + 1;
        }
        out
    }

    /// The display asset reference of an entity, when it has one.
    pub fn get_asset(&self, id: u64) -> (r: Option<&String>)
        requires
            self.wf(),
        ensures
            r matches Some(a) ==> self.spec_assets().spec_contains(id) && *a
                == self.spec_assets().spec_map()[id],
            r is None ==> !self.spec_assets().spec_contains(id),
    {
        self.assets.get(id)
    }

    /// Every entity with a display asset, with the asset name, in
    /// insertion order.
    #[verifier::rlimit(30)]
    pub fn get_assets(&self) -> (r: Vec<(u64, String)>)
        requires
            self.wf(),
        ensures
            r@.len() == self.spec_assets().key_seq().len(),
            forall|k: int|
                0 <= k < r@.len() ==> #[trigger] r@[k].0 == self.spec_assets().key_seq()[k]
                    && r@[k].1 == self.spec_assets().spec_map()[self.spec_assets().key_seq()[k]],
    {
        let ids = self.assets.ids();
        let mut out: Vec<(u64, String)> = Vec::new();
        let mut i: usize = 0;
        while i < ids.len()
            invariant
                self.wf(),
                ids@ == self.spec_assets().key_seq(),
                0 <= i <= ids@.len(),
                out@.len() == i as int,
                forall|k: int|
                    0 <= k < i ==> #[trigger] out@[k].0 == self.spec_assets().key_seq()[k]
                        && out@[k].1 == self.spec_assets().spec_map()[self.spec_assets().key_seq()[k]],
            decreases ids@.len() - i,
        {
            let id = ids[i];
            proof {
                assert(self.spec_assets().key_seq().contains(id));
            }
            match self.assets.get(id) {
                Some(a) => {
                    let ghost prev = out@;
                    out.push((id, a.clone()));
                    proof {
                        assert(out@ =~= prev.push((id, *a)));
                        assert(out@[i as int].0 == self.spec_assets().key_seq()[i as int]);
                        assert(out@[i as int].1 == self.spec_assets().spec_map()[self.spec_assets().key_seq()[i as int]]);
                        assert forall|k: int| 0 <= k < i + 1 implies #[trigger] out@[k].0
                            == self.spec_assets().key_seq()[k] && out@[k].1
                            == self.spec_assets().spec_map()[self.spec_assets().key_seq()[k]] by {
                            if k < i as int {
                                assert(out@[k] == prev[k]);
                            }
                        }
                    }
                },
                None => {
                    proof {
                        assert(false);
                    }
                },
            }
            i = i + 1;
        }
        out
    }

    /// The identifiers of every entity that moves, in insertion order.
    pub fn movement_ids(&self) -> (r: Vec<u64>)
        requires
            self.wf(),
        ensures
            r@ == self.spec_movements().key_seq(),
    {
        self.movements.ids()
    }

    /// The movement component of an entity, when it has one.
    pub fn get_movement(&self, id: u64) -> (r: Option<&Movement>)
        requires
            self.wf(),
        ensures
            r matches Some(m) ==> self.spec_movements().spec_contains(id) && *m
                == self.spec_movements().spec_map()[id] && m.wf(),
            r is None ==> !self.spec_movements().spec_contains(id),
    {
        self.movements.get(id)
    }

    /// Exclusive access to the movement component of an entity.
    pub fn get_movement_mut(&mut self, id: u64) -> (r: Option<&mut Movement>)
        requires
            old(self).wf(),
        ensures
            r matches Some(m) ==> {
                &&& old(self).spec_movements().spec_contains(id)
                &&& *m == old(self).spec_movements().spec_map()[id]
                &&& m.wf()
                &&& final(self).spec_movements().key_seq() == old(
                    self,
                ).spec_movements().key_seq()
                &&& final(self).spec_movements().spec_map() == old(
                    self,
                ).spec_movements().spec_map().insert(id, *final(m))
                &&& final(m).wf() ==> final(self).wf()
                &&& unchanged_but_movements(*old(self), *final(self))
            },
            r is None ==> !old(self).spec_movements().spec_contains(id) && *final(self) == *old(
                self,
            ),
    {
        let r = self.movements.get_mut(id);
        match r {
            Some(m) => {
                proof {
                    assert forall|k: u64| #[trigger]
                        after_borrow(self).spec_movements().spec_contains(k) && final(m).wf()
                        implies 1 <= k && k < after_borrow(self).spec_next_id() && after_borrow(
                        self,
                    ).spec_movements().spec_map()[k].wf() by {
                        assert(old(self).spec_movements().spec_contains(k));
                    }
                    assert forall|i: int|
                        0 <= i < after_borrow(self).spec_entities().len() implies 1 <= (
                    #[trigger] after_borrow(self).spec_entities()[i]).id && after_borrow(
                        self,
                    ).spec_entities()[i].id < after_borrow(self).spec_next_id() by {
                        assert(after_borrow(self).spec_entities()[i] == old(
                            self,
                        ).spec_entities()[i]);
                    }
                }
                Some(m)
            },
            None => None,
        }
    }

    /// The identifiers of every entity that listens to input, in
    /// insertion order.
    pub fn input_ids(&self) -> (r: Vec<u64>)
        requires
            self.wf(),
        ensures
            r@ == self.spec_inputs().key_seq(),
    {
        self.inputs.ids()
    }

    /// The input component of an entity, when it has one.
    pub fn get_input(&self, id: u64) -> (r: Option<&Input>)
        requires
            self.wf(),
        ensures
            r matches Some(v) ==> self.spec_inputs().spec_contains(id) && *v
                == self.spec_inputs().spec_map()[id],
            r is None ==> !self.spec_inputs().spec_contains(id),
    {
        self.inputs.get(id)
    }

    /// Exclusive access to the input component of an entity.
    pub fn get_input_mut(&mut self, id: u64) -> (r: Option<&mut Input>)
        requires
            old(self).wf(),
        ensures
            r matches Some(v) ==> {
                &&& old(self).spec_inputs().spec_contains(id)
                &&& *v == old(self).spec_inputs().spec_map()[id]
                &&& final(self).wf()
                &&& final(self).spec_inputs().key_seq() == old(self).spec_inputs().key_seq()
                &&& final(self).spec_inputs().spec_map() == old(
                    self,
                ).spec_inputs().spec_map().insert(id, *final(v))
                &&& unchanged_but_inputs(*old(self), *final(self))
            },
            r is None ==> !old(self).spec_inputs().spec_contains(id) && *final(self) == *old(self),
    {
        let r = self.inputs.get_mut(id);
        match r {
            Some(v) => {
                proof {
                    assert forall|k: u64| #[trigger]
                        after_borrow(self).spec_inputs().spec_contains(k) implies 1 <= k && k
                        < after_borrow(self).spec_next_id() by {
                        assert(old(self).spec_inputs().spec_contains(k));
                    }
                    assert forall|i: int|
                        0 <= i < after_borrow(self).spec_entities().len() implies 1 <= (
                    #[trigger] after_borrow(self).spec_entities()[i]).id && after_borrow(
                        self,
                    ).spec_entities()[i].id < after_borrow(self).spec_next_id() by {
                        assert(after_borrow(self).spec_entities()[i] == old(
                            self,
                        ).spec_entities()[i]);
                    }
                }
                Some(v)
            },
            None => None,
        }
    }

    /// Chooses, by name, the entity the camera follows.
    pub fn set_target(&mut self, target: String)
        requires
            old(self).wf(),
        ensures
            final(self).wf(),
            final(self).spec_target() matches Some(t) && t@ == target@,
            unchanged_but_target(*old(self), *final(self)),
    {
        self.target = Some(target);
        proof {
            assert forall|i: int|
                0 <= i < self.spec_entities().len() implies 1 <= (
            #[trigger] self.spec_entities()[i]).id && self.spec_entities()[i].id
                < self.spec_next_id() by {
                assert(self.spec_entities()[i] == old(self).spec_entities()[i]);
            }
        }
    }

    /// The rectangle of the camera-followed entity: present exactly when
    /// a target name is set, bound, and the named entity has a shape.
    pub fn get_target_rect(&self) -> (r: Option<Rect>)
        requires
            self.wf(),
        ensures
            r == spec_target_rect(*self),
    {
        match &self.target {
            Some(name) => {
                match self.names.get(name) {
                    Some(id) => {
                        match self.objects.get(id) {
                            Some(o) => Some(o.rect),
                            None => None,
                        }
                    },
                    None => None,
                }
            },
            None => None,
        }
    }
}

/// The rectangle of the store's camera target, when every link of the
/// lookup (a target name, its binding, that entity's shape) exists.
pub open spec fn spec_target_rect(m: EntityManager) -> Option<Rect> {
    match m.spec_target() {
        Some(name) => {
            if m.spec_names().spec_contains(name@) {
                let id = m.spec_names().spec_map()[name@];
                if m.spec_objects().spec_contains(id) {
                    Some(m.spec_objects().spec_map()[id].rect)
                } else {
                    None
                }
            } else {
                None
            }
        },
        None => None,
    }
}

/// Everything except the object table is unchanged.
pub open spec fn unchanged_but_objects(a: EntityManager, b: EntityManager) -> bool {
    &&& b.spec_next_id() == a.spec_next_id()
    &&& b.spec_entities() == a.spec_entities()
    &&& b.spec_names() == a.spec_names()
    &&& b.spec_assets() == a.spec_assets()
    &&& b.spec_movements() == a.spec_movements()
    &&& b.spec_inputs() == a.spec_inputs()
    &&& b.spec_target() == a.spec_target()
}

/// Everything except the movement table is unchanged.
pub open spec fn unchanged_but_movements(a: EntityManager, b: EntityManager) -> bool {
    &&& b.spec_next_id() == a.spec_next_id()
    &&& b.spec_entities() == a.spec_entities()
    &&& b.spec_names() == a.spec_names()
    &&& b.spec_objects() == a.spec_objects()
    &&& b.spec_assets() == a.spec_assets()
    &&& b.spec_inputs() == a.spec_inputs()
    &&& b.spec_target() == a.spec_target()
}

/// Everything except the input table is unchanged.
pub open spec fn unchanged_but_inputs(a: EntityManager, b: EntityManager) -> bool {
    &&& b.spec_next_id() == a.spec_next_id()
    &&& b.spec_entities() == a.spec_entities()
    &&& b.spec_names() == a.spec_names()
    &&& b.spec_objects() == a.spec_objects()
    &&& b.spec_assets() == a.spec_assets()
    &&& b.spec_movements() == a.spec_movements()
    &&& b.spec_target() == a.spec_target()
}

/// Everything except the camera target is unchanged.
pub open spec fn unchanged_but_target(a: EntityManager, b: EntityManager) -> bool {
    &&& b.spec_next_id() == a.spec_next_id()
    &&& b.spec_entities() == a.spec_entities()
    &&& b.spec_names() == a.spec_names()
    &&& b.spec_objects() == a.spec_objects()
    &&& b.spec_assets() == a.spec_assets()
    &&& b.spec_movements() == a.spec_movements()
    &&& b.spec_inputs() == a.spec_inputs()
}

} // verus!
