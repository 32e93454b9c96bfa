//! Named registry of spawned entities, so that tools can address them by name.
use crate::text::framed;
use vstd::prelude::*;

verus! {

/// An engine entity, held as the raw bits of its identifier.
#[derive(Clone, Copy, PartialEq, Eq, Structural, Debug)]
pub struct EntityId {
    pub bits: u64,
}

/// Text of the error returned when a name is registered twice.
pub open spec fn already_exists_text(name: Seq<char>) -> Seq<char> {
    "Entity '"@ + name + "' already exists"@
}

/// The map from names to entities that two parallel sequences describe.
pub open spec fn entries_map(names: Seq<Seq<char>>, entities: Seq<EntityId>) -> Map<Seq<char>, EntityId> {
    Map::new(|k: Seq<char>| names.contains(k), |k: Seq<char>| entities[names.index_of(k)])
}

/// Maps entity names to entities. A name is registered at most once.
pub struct EntityRegistry {
    names: Vec<String>,
    entities: Vec<EntityId>,
}

impl View for EntityRegistry {
    type V = Map<Seq<char>, EntityId>;

    closed spec fn view(&self) -> Map<Seq<char>, EntityId> {
        entries_map(self.name_seq(), self.entities@)
    }
}

impl EntityRegistry {
    /// The registered names, in the order in which they are kept.
    pub closed spec fn name_seq(&self) -> Seq<Seq<char>> {
        self.names@.map_values(|s: String| s@)
    }

    /// Internal consistency: one entity per name, and no name twice.
    pub closed spec fn wf(&self) -> bool {
        &&& self.names.len() == self.entities.len()
        &&& self.name_seq().no_duplicates()
    }

    /// An empty registry.
    pub fn new() -> (r: Self)
        ensures
            r.wf(),
            r@ == Map::<Seq<char>, EntityId>::empty(),
    {
        let r = EntityRegistry { names: Vec::new(), entities: Vec::new() };
        assert(r.name_seq() =~= Seq::<Seq<char>>::empty());
        assert(r@ =~= Map::<Seq<char>, EntityId>::empty());
        r
    }

    /// Position of `name` among the registered names.
    fn position(&self, name: &str) -> (r: Option<usize>)
        requires
            self.wf(),
        ensures
            match r {
                Some(i) => i < self.names.len() && self.name_seq()[i as int] == name@
                    && self.name_seq().index_of(name@) == i,
                None => !self.name_seq().contains(name@),
            },
    {
        let key = name.to_owned();
        let mut i: usize = 0;
        while i < self.names.len()
            invariant
                self.wf(),
                key@ == name@,
                i <= self.names.len(),
                forall|j: int| 0 <= j < i ==> self.name_seq()[j] != name@,
            decreases self.names.len() - i,
        {
            if self.names[i] == key {
                proof {
                    let ns = self.name_seq();
                    assert(ns[i as int] == name@);
                    assert(ns.contains(name@));
                    assert(ns[ns.index_of(name@)] == name@);
                }
                return Some(i);
            }
            i = i + 1;
        }
        proof {
            let ns = self.name_seq();
            assert forall|j: int| 0 <= j < ns.len() implies ns[j] != name@ by {}
        }
        None
    }

    /// Register `entity` under `name`. A name that is taken is refused with a
    /// message and the registry is left as it was.
    pub fn register(&mut self, name: String, entity: EntityId) -> (r: Result<(), String>)
        requires
            old(self).wf(),
        ensures
            final(self).wf(),
            match r {
                Ok(()) => !old(self)@.contains_key(name@) && final(self)@ == old(self)@.insert(name@, entity),
                Err(e) => old(self)@.contains_key(name@) && final(self)@ == old(self)@
                    && e@ == already_exists_text(name@),
            },
    {
        if self.position(name.as_str()).is_some() {
            let msg = framed("Entity '", name.as_str(), "' already exists");
            return Err(msg);
        }
        let ghost old_names = self.name_seq();
        let ghost old_entities = self.entities@;
        let ghost key = name@;
        self.names.push(name);
        self.entities.push(entity);
        proof {
            let ns = self.name_seq();
            assert(ns =~= old_names.push(key));
            lemma_push_fresh_name(old_names, old_entities, key, entity);
        }
        Ok(())
    }

    /// Remove a name and return the entity it held.
    pub fn remove(&mut self, name: &str) -> (r: Option<EntityId>)
        requires
            old(self).wf(),
        ensures
            final(self).wf(),
            final(self)@ == old(self)@.remove(name@),
            r == (if old(self)@.contains_key(name@) { Some(old(self)@[name@]) } else { None }),
    {
        match self.position(name) {
            Some(i) => {
                let ghost old_names = self.name_seq();
                let ghost old_entities = self.entities@;
                self.names.remove(i);
                let entity = self.entities.remove(i);
                proof {
                    assert(self.name_seq() =~= old_names.remove(i as int));
                    lemma_remove_name(old_names, old_entities, i as int);
                }
                Some(entity)
            },
            None => {
                proof {
                    assert(self@ =~= self@.remove(name@));
                }
                None
            },
        }
    }

    /// The entity registered under `name`.
    pub fn get(&self, name: &str) -> (r: Option<EntityId>)
        requires
            self.wf(),
        ensures
            r == (if self@.contains_key(name@) { Some(self@[name@]) } else { None }),
    {
        match self.position(name) {
            Some(i) => Some(self.entities[i]),
            None => None,
        }
    }

    /// All registered names, each once, in no particular order.
    pub fn list(&self) -> (r: Vec<String>)
        requires
            self.wf(),
        ensures
            r@.map_values(|s: String| s@).no_duplicates(),
            r@.map_values(|s: String| s@).to_set() == self@.dom(),
    {
        let mut out: Vec<String> = Vec::new();
        let mut i: usize = 0;
        while i < self.names.len()
            invariant
                self.wf(),
                i <= self.names.len(),
                out@.map_values(|s: String| s@) == self.name_seq().subrange(0, i as int),
            decreases self.names.len() - i,
        {
            let ghost before = out@;
            let copy = self.names[i].clone();
            assert(copy@ == self.name_seq()[i as int]);
            out.push(copy);
            i = i + 1;
            proof {
                assert(out@ == before.push(copy));
                assert(before.map_values(|s: String| s@) == self.name_seq().subrange(0, i - 1));
                assert(out@.map_values(|s: String| s@) =~= self.name_seq().subrange(0, i as int));
            }
        }
        proof {
            let ns = self.name_seq();
            assert(ns.subrange(0, i as int) =~= ns);
            assert(ns.to_set() =~= self@.dom());
        }
        out
    }

    /// Whether `name` is registered.
    pub fn contains(&self, name: &str) -> (r: bool)
        requires
            self.wf(),
        ensures
            r == self@.contains_key(name@),
    {
        self.position(name).is_some()
    }
}

impl Default for EntityRegistry {
    fn default() -> (r: Self)
        ensures
            r.wf(),
            r@ == Map::<Seq<char>, EntityId>::empty(),
    {
        EntityRegistry::new()
    }
}

/// Appending a fresh name with its entity inserts that pair into the map.
proof fn lemma_push_fresh_name(names: Seq<Seq<char>>, entities: Seq<EntityId>, key: Seq<char>, e: EntityId)
    requires
        names.len() == entities.len(),
        names.no_duplicates(),
        !names.contains(key),
    ensures
        names.push(key).no_duplicates(),
        entries_map(names.push(key), entities.push(e)) == entries_map(names, entities).insert(key, e),
{
    let ns = names.push(key);
    let es = entities.push(e);
    assert forall|i: int, j: int| 0 <= i < ns.len() && 0 <= j < ns.len() && i != j implies ns[i] != ns[j] by {
        if i < names.len() && j < names.len() {
        } else if i < names.len() {
            assert(names[i] == ns[i]);
        } else {
            assert(names[j] == ns[j]);
        }
    }
    let m1 = entries_map(ns, es);
    let m2 = entries_map(names, entities).insert(key, e);
    assert forall|k: Seq<char>| #[trigger] m1.contains_key(k) <==> m2.contains_key(k) by {
        if ns.contains(k) && k != key {
            let i = choose|i: int| 0 <= i < ns.len() && ns[i] == k;
            assert(names[i] == k);
        }
        if names.contains(k) {
            let i = choose|i: int| 0 <= i < names.len() && names[i] == k;
            assert(ns[i] == k);
        }
        if k == key {
            assert(ns[names.len() as int] == key);
        }
    }
    assert forall|k: Seq<char>| #[trigger] m1.contains_key(k) implies m1[k] == m2[k] by {
        let i = ns.index_of(k);
        assert(ns[i] == k);
        if k == key {
            assert(ns[names.len() as int] == key);
            assert(i == names.len());
        } else {
            assert(i < names.len());
            assert(names[i] == k);
            assert(names.contains(k));
            let j = names.index_of(k);
            assert(names[j] == k);
            assert(ns[j] == k);
        }
    }
    assert(m1 =~= m2);
}

/// Removing the name at position `i`, with its entity, removes that name from the map.
proof fn lemma_remove_name(names: Seq<Seq<char>>, entities: Seq<EntityId>, i: int)
    requires
        names.len() == entities.len(),
        names.no_duplicates(),
        0 <= i < names.len(),
    ensures
        names.remove(i).no_duplicates(),
        entries_map(names.remove(i), entities.remove(i)) == entries_map(names, entities).remove(names[i]),
        entries_map(names, entities)[names[i]] == entities[i],
        entries_map(names, entities).contains_key(names[i]),
{
    let ns = names.remove(i);
    let es = entities.remove(i);
    let key = names[i];
    assert(names.contains(key));
    assert(names[names.index_of(key)] == key);
    assert forall|a: int, b: int| 0 <= a < ns.len() && 0 <= b < ns.len() && a != b implies ns[a] != ns[b] by {
        let a2 = if a < i { a } else { a + 1 };
        let b2 = if b < i { b } else { b + 1 };
        assert(ns[a] == names[a2]);
        assert(ns[b] == names[b2]);
    }
    let m1 = entries_map(ns, es);
    let m2 = entries_map(names, entities).remove(key);
    assert forall|k: Seq<char>| #[trigger] m1.contains_key(k) <==> m2.contains_key(k) by {
        if ns.contains(k) {
            let a = choose|a: int| 0 <= a < ns.len() && ns[a] == k;
            let a2 = if a < i { a } else { a + 1 };
            assert(names[a2] == k);
            assert(a2 != i);
        }
        if names.contains(k) && k != key {
            let a = choose|a: int| 0 <= a < names.len() && names[a] == k;
            assert(a != i);
            let a1 = if a < i { a } else { a - 1 };
            assert(ns[a1] == k);
        }
    }
    assert forall|k: Seq<char>| #[trigger] m1.contains_key(k) implies m1[k] == m2[k] by {
        let a = ns.index_of(k);
        assert(ns[a] == k);
        let a2 = if a < i { a } else { a + 1 };
        assert(names[a2] == k);
        assert(names.contains(k));
        let b = names.index_of(k);
        assert(names[b] == k);
        assert(b == a2);
        assert(es[a] == entities[a2]);
    }
    assert(m1 =~= m2);
}

/// A name that was registered gives back its entity, and a second registration
/// of it is refused.
pub proof fn law_register_then_get(m: Map<Seq<char>, EntityId>, name: Seq<char>, e: EntityId)
    ensures
        m.insert(name, e).contains_key(name),
        m.insert(name, e)[name] == e,
{
}

/// Registration leaves every other name as it was.
pub proof fn law_register_keeps_others(m: Map<Seq<char>, EntityId>, name: Seq<char>, e: EntityId, other: Seq<char>)
    requires
        other != name,
    ensures
        m.insert(name, e).contains_key(other) == m.contains_key(other),
        m.contains_key(other) ==> m.insert(name, e)[other] == m[other],
{
}

/// After a name is removed it is no longer registered, and removing a fresh
/// registration gives back the registry as it was.
pub proof fn law_remove_undoes_register(m: Map<Seq<char>, EntityId>, name: Seq<char>, e: EntityId)
    requires
        !m.contains_key(name),
    ensures
        !m.remove(name).contains_key(name),
        m.insert(name, e).remove(name) == m,
{
    assert(m.insert(name, e).remove(name) =~= m);
}

} // verus!
