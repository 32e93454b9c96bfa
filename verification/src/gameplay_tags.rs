//! Gameplay tags: a registry that interns hierarchical tag names to ids, and
//! the tag sets that entities carry, with queries that follow the hierarchy.
use std::collections::{HashMap, HashSet};
use vstd::prelude::*;
use vstd::std_specs::hash::spec_hash_keys_iter;
use vstd::std_specs::iter::IteratorSpec;
use crate::tags::{
    DAMAGE, DAMAGE_TYPE, DAMAGE_TYPE_PHYSICAL, DAMAGE_TYPE_FIRE, DAMAGE_TYPE_ICE,
    DAMAGE_TYPE_LIGHTNING, DAMAGE_TYPE_POISON, STATUS, STATUS_STUNNED, STATUS_BURNING,
    STATUS_FROZEN, STATUS_POISONED, STATUS_SLOWED, FACTION, FACTION_PLAYER, FACTION_ENEMY,
    FACTION_NEUTRAL, FACTION_ALLY, ABILITY, ABILITY_MELEE, ABILITY_RANGED, ABILITY_MAGIC,
    RESISTANCE, RESISTANCE_FIRE, RESISTANCE_ICE, RESISTANCE_PHYSICAL,
};

verus! {

/// Abstract state of a [`TagRegistry`]: the name of every tag, indexed by its id,
/// and the parent link of each tag that has one.
pub struct TagRegistryModel {
    pub names: Seq<Seq<char>>,
    pub parents: Map<u32, u32>,
}

/// The text view of an optional string slice.
pub open spec fn opt_text(o: Option<&str>) -> Option<Seq<char>> {
    match o {
        Some(s) => Some(s@),
        None => None,
    }
}

impl TagRegistryModel {
    /// Number of registered tags.
    pub open spec fn count(self) -> nat {
        self.names.len()
    }

    /// The id of a tag name: its position in the registration order.
    pub open spec fn id_of(self, name: Seq<char>) -> Option<u32> {
        if self.names.contains(name) {
            Some(self.names.index_of(name) as u32)
        } else {
            None
        }
    }

    /// The name of a tag id.
    pub open spec fn name_of(self, id: u32) -> Option<Seq<char>> {
        if id < self.names.len() {
            Some(self.names[id as int])
        } else {
            None
        }
    }

    /// The parent id of a tag id.
    pub open spec fn parent_of(self, id: u32) -> Option<u32> {
        if self.parents.contains_key(id) {
            Some(self.parents[id])
        } else {
            None
        }
    }

    /// Ids are handed out in order, names are unique, and a tag's parent was
    /// registered no later than the tag itself.
    pub open spec fn valid(self) -> bool {
        &&& self.names.no_duplicates()
        &&& self.names.len() <= u32::MAX
        &&& forall|k: u32| #[trigger]
            self.parents.contains_key(k) ==> k < self.names.len() && self.parents[k] <= k
    }

    /// The state after registering `tag` under the optional parent name.
    /// A known tag leaves everything unchanged. A new tag gets the next id; the
    /// parent name is looked up after the new tag is added, and an unknown
    /// parent name links nothing.
    pub open spec fn after_register(self, tag: Seq<char>, parent: Option<Seq<char>>) -> Self {
        if self.names.contains(tag) {
            self
        } else {
            let id = self.names.len() as u32;
            let names = self.names.push(tag);
            let grown = TagRegistryModel { names, parents: self.parents };
            match parent {
                Some(p) => match grown.id_of(p) {
                    Some(pid) => TagRegistryModel { names, parents: self.parents.insert(id, pid) },
                    None => grown,
                },
                None => grown,
            }
        }
    }

    /// The state after the common tag hierarchy has been registered, in order:
    /// damage types, status effects, factions, abilities, resistances.
    pub open spec fn after_common_tags(self) -> Self {
        self.after_damage_tags().after_status_tags().after_faction_tags().after_ability_tags()
            .after_resistance_tags()
    }

    /// The damage family registered, root first.
    #[verifier::opaque]
    pub open spec fn after_damage_tags(self) -> Self {
        self.after_register(DAMAGE@, None)
            .after_register(DAMAGE_TYPE@, Some(DAMAGE@))
            .after_register(DAMAGE_TYPE_PHYSICAL@, Some(DAMAGE_TYPE@))
            .after_register(DAMAGE_TYPE_FIRE@, Some(DAMAGE_TYPE@))
            .after_register(DAMAGE_TYPE_ICE@, Some(DAMAGE_TYPE@))
            .after_register(DAMAGE_TYPE_LIGHTNING@, Some(DAMAGE_TYPE@))
            .after_register(DAMAGE_TYPE_POISON@, Some(DAMAGE_TYPE@))
    }

    /// The status family registered, root first.
    #[verifier::opaque]
    pub open spec fn after_status_tags(self) -> Self {
        self.after_register(STATUS@, None)
            .after_register(STATUS_STUNNED@, Some(STATUS@))
            .after_register(STATUS_BURNING@, Some(STATUS@))
            .after_register(STATUS_FROZEN@, Some(STATUS@))
            .after_register(STATUS_POISONED@, Some(STATUS@))
            .after_register(STATUS_SLOWED@, Some(STATUS@))
    }

    /// The faction family registered, root first.
    #[verifier::opaque]
    pub open spec fn after_faction_tags(self) -> Self {
        self.after_register(FACTION@, None)
            .after_register(FACTION_PLAYER@, Some(FACTION@))
            .after_register(FACTION_ENEMY@, Some(FACTION@))
            .after_register(FACTION_NEUTRAL@, Some(FACTION@))
            .after_register(FACTION_ALLY@, Some(FACTION@))
    }

    /// The ability family registered, root first.
    #[verifier::opaque]
    pub open spec fn after_ability_tags(self) -> Self {
        self.after_register(ABILITY@, None)
            .after_register(ABILITY_MELEE@, Some(ABILITY@))
            .after_register(ABILITY_RANGED@, Some(ABILITY@))
            .after_register(ABILITY_MAGIC@, Some(ABILITY@))
    }

    /// The resistance family registered, root first.
    #[verifier::opaque]
    pub open spec fn after_resistance_tags(self) -> Self {
        self.after_register(RESISTANCE@, None)
            .after_register(RESISTANCE_FIRE@, Some(RESISTANCE@))
            .after_register(RESISTANCE_ICE@, Some(RESISTANCE@))
            .after_register(RESISTANCE_PHYSICAL@, Some(RESISTANCE@))
    }

    /// Every parent was registered strictly before its child, so no tag is
    /// its own parent.
    pub open spec fn parents_precede(self) -> bool {
        forall|k: u32| #[trigger] self.parents.contains_key(k) ==> self.parents[k] < k
    }

    /// `ancestor` is reached by following parent links upwards from `child`.
    pub open spec fn is_ancestor(self, child: u32, ancestor: u32) -> bool
        decreases child,
    {
        match self.parent_of(child) {
            Some(p) => p == ancestor || (p < child && self.is_ancestor(p, ancestor)),
            None => false,
        }
    }

    /// Walking up from `child` in search of `ancestor` stops: it meets `ancestor`
    /// or a tag without parent before it meets a tag that is its own parent.
    pub open spec fn search_ends(self, child: u32, ancestor: u32) -> bool
        decreases child,
    {
        match self.parent_of(child) {
            Some(p) => p == ancestor || (p < child && self.search_ends(p, ancestor)),
            None => true,
        }
    }

    /// The chain of parent links above `id` reaches a tag without parent.
    pub open spec fn chain_ends(self, id: u32) -> bool
        decreases id,
    {
        match self.parent_of(id) {
            Some(p) => p < id && self.chain_ends(p),
            None => true,
        }
    }

    /// The ancestors of `id`, nearest first.
    pub open spec fn ancestors(self, id: u32) -> Seq<u32>
        decreases id,
    {
        match self.parent_of(id) {
            Some(p) => if p < id {
                seq![p] + self.ancestors(p)
            } else {
                seq![p]
            },
            None => Seq::empty(),
        }
    }
}

/// Central registry of gameplay tags. Tags are interned to `u32` ids, handed
/// out in registration order, and may be linked to a parent tag.
pub struct TagRegistry {
    next_id: u32,
    names: Vec<String>,
    parent_map: HashMap<u32, u32>,
}

impl View for TagRegistry {
    type V = TagRegistryModel;

    closed spec fn view(&self) -> TagRegistryModel {
        TagRegistryModel {
            names: self.names@.map_values(|s: String| s@),
            parents: self.parent_map@,
        }
    }
}

impl TagRegistry {
    /// Internal consistency of the registry.
    pub closed spec fn wf(&self) -> bool {
        &&& self.next_id == self.names.len()
        &&& self@.valid()
    }

    /// A consistent registry has a valid model: unique names, ids within `u32`,
    /// and each parent registered no later than its child.
    pub proof fn lemma_wf_valid(&self)
        requires
            self.wf(),
        ensures
            self@.valid(),
    {
    }

    /// An empty registry.
    pub fn new() -> (r: Self)
        ensures
            r.wf(),
            r@.names == Seq::<Seq<char>>::empty(),
            r@.parents == Map::<u32, u32>::empty(),
    {
        let r = TagRegistry { next_id: 0, names: Vec::new(), parent_map: HashMap::new() };
        assert(r@.names =~= Seq::<Seq<char>>::empty());
        r
    }

    /// Position of `tag` among the registered names.
    fn find(&self, tag: &str) -> (r: Option<u32>)
        requires
            self.wf(),
        ensures
            r == self@.id_of(tag@),
    {
        let key = tag.to_owned();
        let mut i: usize = 0;
        while i < self.names.len()
            invariant
                self.wf(),
                key@ == tag@,
                i <= self.names.len(),
                forall|j: int| 0 <= j < i ==> self@.names[j] != tag@,
            decreases self.names.len() - i,
        {
            if self.names[i] == key {
                proof {
                    let names = self@.names;
                    assert(names[i as int] == tag@);
                    assert(names.contains(tag@));
                    let k = names.index_of(tag@);
                    assert(names[k] == tag@);
                }
                return Some(i as u32);
            }
            i = i + 1;
        }
        proof {
            let names = self@.names;
            assert forall|j: int| 0 <= j < names.len() implies names[j] != tag@ by {}
        }
        None
    }

    /// Register a tag and return its id. A known tag keeps its id and nothing
    /// changes. A new tag gets the next id and, when `parent` names a registered
    /// tag (looked up after the new tag is added), is linked to it.
    pub fn register(&mut self, tag: &str, parent: Option<&str>) -> (id: u32)
        requires
            old(self).wf(),
            !old(self)@.names.contains(tag@) ==> old(self)@.count() < u32::MAX,
        ensures
            final(self).wf(),
            final(self)@ == old(self)@.after_register(tag@, opt_text(parent)),
            id == (match old(self)@.id_of(tag@) {
                Some(i) => i,
                None => old(self)@.count() as u32,
            }),
            final(self)@.id_of(tag@) == Some(id),
            final(self)@.count() == old(self)@.count() + (if old(self)@.names.contains(tag@) { 0int } else { 1int }),
    {
        if let Some(existing) = self.find(tag) {
            return existing;
        }
        let ghost old_model = self@;
        let id = self.next_id;
        self.next_id = self.next_id + 1;
        self.names.push(tag.to_owned());
        proof {
            assert(self@.names =~= old_model.names.push(tag@));
            lemma_push_fresh_keeps_no_duplicates(old_model.names, tag@);
            assert(self@.parents == old_model.parents);
            assert(self@.valid());
        }
        if let Some(parent_tag) = parent {
            if let Some(parent_id) = self.find(parent_tag) {
                self.parent_map.insert(id, parent_id);
                proof {
                    assert(self@.parents =~= old_model.parents.insert(id, parent_id));
                }
            }
        }
        proof {
            let names = self@.names;
            assert(names[id as int] == tag@);
            assert(names.contains(tag@));
            assert(names[names.index_of(tag@)] == tag@);
        }
        id
    }

    /// The id of a registered tag name.
    pub fn get_id(&self, tag: &str) -> (r: Option<u32>)
        requires
            self.wf(),
        ensures
            r == self@.id_of(tag@),
    {
        self.find(tag)
    }

    /// The name of a tag id.
    pub fn get_name(&self, id: u32) -> (r: Option<&str>)
        requires
            self.wf(),
        ensures
            opt_text(r) == self@.name_of(id),
    {
        if (id as usize) < self.names.len() {
            Some(self.names[id as usize].as_str())
        } else {
            None
        }
    }

    /// The parent id of a tag.
    pub fn get_parent(&self, id: u32) -> (r: Option<u32>)
        requires
            self.wf(),
        ensures
            r == self@.parent_of(id),
    {
        match self.parent_map.get(&id) {
            Some(p) => Some(*p),
            None => None,
        }
    }

    /// Whether `ancestor` lies on the chain of parents above `child`.
    pub fn has_ancestor(&self, child: u32, ancestor: u32) -> (r: bool)
        requires
            self.wf(),
            self@.search_ends(child, ancestor),
        ensures
            r == self@.is_ancestor(child, ancestor),
    {
        let mut current = child;
        loop
            invariant
                self.wf(),
                self@.search_ends(current, ancestor),
                self@.is_ancestor(current, ancestor) == self@.is_ancestor(child, ancestor),
            decreases current,
        {
            match self.parent_map.get(&current) {
                Some(parent) => {
                    let p = *parent;
                    if p == ancestor {
                        return true;
                    }
                    current = p;
                },
                None => {
                    return false;
                },
            }
        }
    }

    /// All ancestors of a tag, nearest first.
    pub fn get_ancestors(&self, id: u32) -> (r: Vec<u32>)
        requires
            self.wf(),
            self@.chain_ends(id),
        ensures
            r@ == self@.ancestors(id),
    {
        let mut ancestors: Vec<u32> = Vec::new();
        let mut current = id;
        loop
            invariant
                self.wf(),
                self@.chain_ends(current),
                ancestors@ + self@.ancestors(current) == self@.ancestors(id),
            decreases current,
        {
            match self.parent_map.get(&current) {
                Some(parent) => {
                    let p = *parent;
                    proof {
                        assert(ancestors@.push(p) + self@.ancestors(p) =~= ancestors@ + self@.ancestors(current));
                    }
                    ancestors.push(p);
                    current = p;
                },
                None => {
                    proof {
                        assert(ancestors@ + self@.ancestors(current) =~= ancestors@);
                    }
                    return ancestors;
                },
            }
        }
    }

    /// The names of all registered tags, in id order.
    pub fn all_tags(&self) -> (r: Vec<&str>)
        requires
            self.wf(),
        ensures
            r@.map_values(|s: &str| s@) == self@.names,
    {
        let mut out: Vec<&str> = Vec::new();
        let mut i: usize = 0;
        while i < self.names.len()
            invariant
                self.wf(),
                i <= self.names.len(),
                out@.map_values(|s: &str| s@) == self@.names.subrange(0, i as int),
            decreases self.names.len() - i,
        {
            let ghost before = out@;
            let s = self.names[i].as_str();
            assert(s@ == self@.names[i as int]);
            out.push(s);
            i = i + 1;
            proof {
                assert(out@ == before.push(s));
                assert(before.map_values(|s: &str| s@) == self@.names.subrange(0, i - 1));
                assert(out@.map_values(|s: &str| s@) =~= self@.names.subrange(0, i as int));
            }
        }
        proof {
            assert(self@.names.subrange(0, i as int) =~= self@.names);
        }
        out
    }

    /// The number of registered tags.
    pub fn len(&self) -> (r: usize)
        requires
            self.wf(),
        ensures
            r == self@.count(),
    {
        self.names.len()
    }

    /// Whether no tag is registered.
    pub fn is_empty(&self) -> (r: bool)
        requires
            self.wf(),
        ensures
            r == (self@.count() == 0),
    {
        self.names.len() == 0
    }
}

impl Default for TagRegistry {
    fn default() -> (r: Self)
        ensures
            r.wf(),
            r@.names == Seq::<Seq<char>>::empty(),
            r@.parents == Map::<u32, u32>::empty(),
    {
        TagRegistry::new()
    }
}


/// The gameplay tags that an entity carries, as a set of tag ids.
#[derive(Debug)]
pub struct GameplayTags {
    tag_ids: HashSet<u32>,
}

impl View for GameplayTags {
    type V = Set<u32>;

    closed spec fn view(&self) -> Set<u32> {
        self.tag_ids@
    }
}

/// `id` is `parent_id` or has `parent_id` among its ancestors.
pub open spec fn matches_parent(registry: TagRegistryModel, id: u32, parent_id: u32) -> bool {
    id == parent_id || registry.is_ancestor(id, parent_id)
}

/// Some tag in `tags` has the name `name` in the registry.
pub open spec fn names_carried(registry: TagRegistryModel, tags: Set<u32>, name: Seq<char>) -> bool {
    exists|t: u32| tags.contains(t) && #[trigger] registry.name_of(t) == Some(name)
}

/// Some tag in `tags` matches one of the first `i` parent ids.
pub open spec fn matched_before(registry: TagRegistryModel, tags: Set<u32>, parent_ids: Seq<u32>, i: int) -> bool {
    exists|j: int, t: u32| 0 <= j < i && tags.contains(t) && #[trigger] matches_parent(registry, t, parent_ids[j])
}

/// Every walk that a hierarchy query over `tags` starts towards `parent_id` stops.
pub open spec fn parent_query_ends(registry: TagRegistryModel, tags: Set<u32>, parent_id: u32) -> bool {
    forall|t: u32| #[trigger] tags.contains(t) ==> t == parent_id || registry.search_ends(t, parent_id)
}

impl GameplayTags {
    /// A tag set is finite.
    #[verifier::type_invariant]
    spec fn finite_tags(self) -> bool {
        self.tag_ids@.finite()
    }

    /// No tags.
    pub fn new() -> (r: Self)
        ensures
            r@ == Set::<u32>::empty(),
            r@.finite(),
    {
        GameplayTags { tag_ids: HashSet::new() }
    }

    /// Tags holding exactly the given ids.
    pub fn from_ids(ids: &[u32]) -> (r: Self)
        ensures
            forall|t: u32| r@.contains(t) <==> ids@.contains(t),
            r@.finite(),
    {
        let mut tag_ids: HashSet<u32> = HashSet::new();
        let mut i: usize = 0;
        while i < ids.len()
            invariant
                i <= ids.len(),
                tag_ids@.finite(),
                forall|t: u32| tag_ids@.contains(t) <==> exists|j: int| 0 <= j < i && ids@[j] == t,
            decreases ids.len() - i,
        {
            tag_ids.insert(ids[i]);
            i = i + 1;
            proof {
                assert forall|t: u32| tag_ids@.contains(t) <==> exists|j: int| 0 <= j < i && ids@[j] == t by {
                    if t == ids@[i - 1] {
                        assert(ids@[i - 1] == t);
                    }
                }
            }
        }
        GameplayTags { tag_ids }
    }

    /// Add a tag id.
    pub fn add(&mut self, tag_id: u32)
        ensures
            final(self)@ == old(self)@.insert(tag_id),
            old(self)@.finite(),
            final(self)@.finite(),
    {
        proof {
            use_type_invariant(&*self);
        }
        let mut tags: HashSet<u32> = HashSet::new();
        std::mem::swap(&mut tags, &mut self.tag_ids);
        tags.insert(tag_id);
        self.tag_ids = tags;
    }

    /// Remove a tag id.
    pub fn remove(&mut self, tag_id: u32)
        ensures
            final(self)@ == old(self)@.remove(tag_id),
            old(self)@.finite(),
            final(self)@.finite(),
    {
        proof {
            use_type_invariant(&*self);
        }
        let mut tags: HashSet<u32> = HashSet::new();
        std::mem::swap(&mut tags, &mut self.tag_ids);
        tags.remove(&tag_id);
        self.tag_ids = tags;
    }

    /// Whether the tag id is carried.
    pub fn has_tag(&self, tag_id: u32) -> (r: bool)
        ensures
            r == self@.contains(tag_id),
            self@.finite(),
    {
        proof {
            use_type_invariant(self);
        }
        self.tag_ids.contains(&tag_id)
    }

    /// Whether at least one of the given ids is carried.
    pub fn has_any_tag(&self, tag_ids: &[u32]) -> (r: bool)
        ensures
            r == exists|i: int| 0 <= i < tag_ids@.len() && self@.contains(#[trigger] tag_ids@[i]),
    {
        let mut i: usize = 0;
        while i < tag_ids.len()
            invariant
                i <= tag_ids.len(),
                forall|j: int| 0 <= j < i ==> !self@.contains(#[trigger] tag_ids@[j]),
            decreases tag_ids.len() - i,
        {
            if self.has_tag(tag_ids[i]) {
                return true;
            }
            i = i + 1;
        }
        false
    }

    /// Whether every one of the given ids is carried.
    pub fn has_all_tags(&self, tag_ids: &[u32]) -> (r: bool)
        ensures
            r == forall|i: int| 0 <= i < tag_ids@.len() ==> self@.contains(#[trigger] tag_ids@[i]),
    {
        let mut i: usize = 0;
        while i < tag_ids.len()
            invariant
                i <= tag_ids.len(),
                forall|j: int| 0 <= j < i ==> self@.contains(#[trigger] tag_ids@[j]),
            decreases tag_ids.len() - i,
        {
            if !self.has_tag(tag_ids[i]) {
                return false;
            }
            i = i + 1;
        }
        true
    }

    /// Whether a carried tag is `parent_id` or lies below it in the hierarchy.
    pub fn has_parent_tag(&self, registry: &TagRegistry, parent_id: u32) -> (r: bool)
        requires
            registry.wf(),
            parent_query_ends(registry@, self@, parent_id),
        ensures
            r == exists|t: u32| self@.contains(t) && #[trigger] matches_parent(registry@, t, parent_id),
            r == exists|t: u32| #[trigger] self@.contains(t) && (t == parent_id || registry@.is_ancestor(t, parent_id)),
    {
        for tag_id in it: self.tag_ids.iter()
            invariant
                registry.wf(),
                parent_query_ends(registry@, self@, parent_id),
                it.seq() == spec_hash_keys_iter(&self.tag_ids).remaining(),
                forall|k: int| 0 <= k < it.index() ==> !matches_parent(registry@, #[trigger] it.seq().unref()[k], parent_id),
        {
            let t = *tag_id;
            proof {
                let ids = it.seq().unref();
                assert(ids[it.index()] == t);
                assert(ids.to_set().contains(t));
            }
            if t == parent_id || registry.has_ancestor(t, parent_id) {
                assert(self@.contains(t) && matches_parent(registry@, t, parent_id));
                return true;
            }
        }
        proof {
            let ids = spec_hash_keys_iter(&self.tag_ids).remaining().unref();
            assert forall|t: u32| self@.contains(t) implies !matches_parent(registry@, t, parent_id) by {
                assert(ids.to_set().contains(t));
                let k = choose|k: int| 0 <= k < ids.len() && ids[k] == t;
                assert(ids[k] == t);
            }
        }
        false
    }

    /// Whether some carried tag matches one of the given parent ids (itself or below it).
    pub fn has_any_parent_tag(&self, registry: &TagRegistry, parent_ids: &[u32]) -> (r: bool)
        requires
            registry.wf(),
            forall|i: int| 0 <= i < parent_ids@.len() ==> parent_query_ends(registry@, self@, #[trigger] parent_ids@[i])
                || matched_before(registry@, self@, parent_ids@, i),
        ensures
            r == exists|i: int, t: u32| 0 <= i < parent_ids@.len() && self@.contains(t)
                && #[trigger] matches_parent(registry@, t, parent_ids@[i]),
    {
        let mut i: usize = 0;
        while i < parent_ids.len()
            invariant
                registry.wf(),
                i <= parent_ids.len(),
                forall|i: int| 0 <= i < parent_ids@.len() ==> parent_query_ends(registry@, self@, #[trigger] parent_ids@[i])
                    || matched_before(registry@, self@, parent_ids@, i),
                forall|j: int, t: u32| 0 <= j < i && self@.contains(t) ==> !#[trigger] matches_parent(registry@, t, parent_ids@[j]),
            decreases parent_ids.len() - i,
        {
            assert(!matched_before(registry@, self@, parent_ids@, i as int));
            assert(parent_query_ends(registry@, self@, parent_ids@[i as int]));
            if self.has_parent_tag(registry, parent_ids[i]) {
                return true;
            }
            i = i + 1;
        }
        false
    }

    /// The carried tag ids.
    pub fn tag_ids(&self) -> (r: &HashSet<u32>)
        ensures
            r@ == self@,
            self@.finite(),
    {
        proof {
            use_type_invariant(self);
        }
        &self.tag_ids
    }

    /// The number of carried tags.
    pub fn len(&self) -> (r: usize)
        ensures
            r == self@.len(),
            self@.finite(),
    {
        proof {
            use_type_invariant(self);
        }
        self.tag_ids.len()
    }

    /// Whether no tag is carried.
    pub fn is_empty(&self) -> (r: bool)
        ensures
            r == self@.is_empty(),
            r == (self@.len() == 0),
            self@.finite(),
    {
        proof {
            use_type_invariant(self);
        }
        self.tag_ids.is_empty()
    }

    /// The names of the carried tags that the registry knows, each once, in
    /// no particular order.
    pub fn tag_names(&self, registry: &TagRegistry) -> (r: Vec<String>)
        requires
            registry.wf(),
        ensures
            r@.map_values(|s: String| s@).no_duplicates(),
            forall|k: int| 0 <= k < r@.len() ==> names_carried(registry@, self@, #[trigger] r@[k]@),
            forall|t: u32| self@.contains(t) && t < registry@.count() ==>
                r@.map_values(|s: String| s@).contains(#[trigger] registry@.names[t as int]),
    {
        let mut names: Vec<String> = Vec::new();
        let ghost mut origin: Seq<int> = Seq::empty();
        for tag_id in it: self.tag_ids.iter()
            invariant
                registry.wf(),
                it.seq() == spec_hash_keys_iter(&self.tag_ids).remaining(),
                names@.map_values(|s: String| s@).no_duplicates(),
                origin.len() == names@.len(),
                it.index() <= it.seq().len(),
                forall|k: int| 0 <= k < names@.len() ==> 0 <= #[trigger] origin[k] < it.index()
                    && registry@.name_of(it.seq().unref()[origin[k]]) == Some(names@[k]@),
                forall|j: int| 0 <= j < it.index() && it.seq().unref()[j] < registry@.count() ==>
                    names@.map_values(|s: String| s@).contains(#[trigger] registry@.names[it.seq().unref()[j] as int]),
        {
            let t = *tag_id;
            let ghost ids = it.seq().unref();
            let ghost idx = it.index();
            proof {
                assert(ids[idx] == t);
                lemma_unref_no_duplicates(it.seq());
            }
            match registry.get_name(t) {
                Some(name) => {
                    let ghost before = names@.map_values(|s: String| s@);
                    let ghost before_raw = names@;
                    let owned = name.to_owned();
                    proof {
                        let reg = registry@;
                        assert forall|k: int| 0 <= k < before.len() implies before[k] != owned@ by {
                            let j = origin[k];
                            assert(reg.name_of(ids[j]) == Some(before[k]));
                            if before[k] == owned@ {
                                assert(reg.names[ids[j] as int] == reg.names[t as int]);
                                assert(ids[j] == t);
                                assert(ids[j] == ids[idx]);
                            }
                        }
                    }
                    names.push(owned);
                    proof {
                        let after = names@.map_values(|s: String| s@);
                        assert(after =~= before.push(owned@));
                        assert(after[before.len() as int] == owned@);
                        assert forall|i: int, j: int| 0 <= i < after.len() && 0 <= j < after.len() && i != j
                            implies after[i] != after[j] by {
                            if i < before.len() && j < before.len() {
                                assert(after[i] == before[i] && after[j] == before[j]);
                            }
                        }
                        origin = origin.push(idx);
                        assert forall|k: int| 0 <= k < names@.len() implies 0 <= #[trigger] origin[k] < idx + 1
                            && registry@.name_of(ids[origin[k]]) == Some(names@[k]@) by {
                            if k < before.len() {
                                assert(names@[k] == before_raw[k]);
                            }
                        }
                        assert forall|j: int| 0 <= j < idx + 1 && ids[j] < registry@.count() implies
                            after.contains(#[trigger] registry@.names[ids[j] as int]) by {
                            if j < idx {
                                let k = choose|k: int| 0 <= k < before.len() && before[k] == registry@.names[ids[j] as int];
                                assert(after[k] == before[k]);
                            } else {
                                assert(after[before.len() as int] == registry@.names[ids[j] as int]);
                            }
                        }
                    }
                },
                None => {},
            }
        }
        proof {
            let ids = spec_hash_keys_iter(&self.tag_ids).remaining().unref();
            assert forall|t: u32| self@.contains(t) && t < registry@.count() implies
                names@.map_values(|s: String| s@).contains(#[trigger] registry@.names[t as int]) by {
                assert(ids.to_set().contains(t));
                let k = choose|k: int| 0 <= k < ids.len() && ids[k] == t;
                assert(ids[k] == t);
            }
            assert forall|k: int| 0 <= k < names@.len() implies names_carried(registry@, self@, #[trigger] names@[k]@) by {
                let j = origin[k];
                assert(0 <= j < ids.len());
                assert(ids.to_set().contains(ids[j]));
                assert(self@.contains(ids[j]) && registry@.name_of(ids[j]) == Some(names@[k]@));
            }
        }
        names
    }
}

impl Clone for GameplayTags {
    /// A copy carrying the same tag ids.
    fn clone(&self) -> (r: Self)
        ensures
            r@ == self@,
            r@.finite(),
    {
        proof {
            use_type_invariant(self);
        }
        let mut tag_ids: HashSet<u32> = HashSet::new();
        for tag_id in it: self.tag_ids.iter()
            invariant
                it.seq() == spec_hash_keys_iter(&self.tag_ids).remaining(),
                it.index() <= it.seq().len(),
                tag_ids@.finite(),
                tag_ids@ == it.seq().unref().subrange(0, it.index()).to_set(),
        {
            let ghost prefix = it.seq().unref().subrange(0, it.index());
            tag_ids.insert(*tag_id);
            proof {
                let next = it.seq().unref().subrange(0, it.index() + 1);
                assert(next =~= prefix.push(*tag_id));
                assert(tag_ids@ =~= next.to_set()) by {
                    assert forall|t: u32| tag_ids@.contains(t) <==> next.contains(t) by {
                        if t == *tag_id {
                            assert(next[prefix.len() as int] == t);
                        }
                        if next.contains(t) && t != *tag_id {
                            let k = choose|k: int| 0 <= k < next.len() && next[k] == t;
                            assert(prefix[k] == t);
                        }
                        if prefix.contains(t) {
                            let k = choose|k: int| 0 <= k < prefix.len() && prefix[k] == t;
                            assert(next[k] == t);
                        }
                    }
                }
            }
        }
        proof {
            let ids = spec_hash_keys_iter(&self.tag_ids).remaining().unref();
            assert(ids.subrange(0, ids.len() as int) =~= ids);
        }
        GameplayTags { tag_ids }
    }
}

impl Default for GameplayTags {
    fn default() -> (r: Self)
        ensures
            r@ == Set::<u32>::empty(),
            r@.finite(),
    {
        GameplayTags::new()
    }
}

/// Collects tag ids and then builds a [`GameplayTags`].
pub struct GameplayTagsBuilder {
    tags: HashSet<u32>,
}

impl View for GameplayTagsBuilder {
    type V = Set<u32>;

    closed spec fn view(&self) -> Set<u32> {
        self.tags@
    }
}

impl GameplayTagsBuilder {
    /// The collected tags are finite.
    #[verifier::type_invariant]
    spec fn finite_tags(self) -> bool {
        self.tags@.finite()
    }

    /// A builder holding no tag.
    pub fn new() -> (r: Self)
        ensures
            r@ == Set::<u32>::empty(),
            r@.finite(),
    {
        GameplayTagsBuilder { tags: HashSet::new() }
    }

    /// The builder with one more tag id.
    pub fn with_tag(self, tag_id: u32) -> (r: Self)
        ensures
            r@ == self@.insert(tag_id),
            r@.finite(),
    {
        proof {
            use_type_invariant(&self);
        }
        let mut tags = self.tags;
        tags.insert(tag_id);
        GameplayTagsBuilder { tags }
    }

    /// The tags collected so far.
    pub fn build(self) -> (r: GameplayTags)
        ensures
            r@ == self@,
            r@.finite(),
    {
        proof {
            use_type_invariant(&self);
        }
        GameplayTags { tag_ids: self.tags }
    }
}

/// Register the common tag hierarchy: damage types, status effects, factions,
/// abilities and resistances, each family under its root tag.
pub fn register_common_tags(registry: &mut TagRegistry)
    requires
        old(registry).wf(),
        old(registry)@.after_common_tags().count() <= u32::MAX,
    ensures
        final(registry).wf(),
        final(registry)@ == old(registry)@.after_common_tags(),
{
    proof {
        lemma_common_tags_count(registry@);
    }
    register_damage_tags(registry);
    register_status_tags(registry);
    register_faction_tags(registry);
    register_ability_tags(registry);
    register_resistance_tags(registry);
}

/// Each family of common tags only adds to the count.
proof fn lemma_common_tags_count(m: TagRegistryModel)
    ensures
        m.count() <= m.after_damage_tags().count(),
        m.after_damage_tags().count() <= m.after_damage_tags().after_status_tags().count(),
        m.after_damage_tags().after_status_tags().count() <= m.after_damage_tags().after_status_tags()
            .after_faction_tags().count(),
        m.after_damage_tags().after_status_tags().after_faction_tags().count() <= m.after_damage_tags()
            .after_status_tags().after_faction_tags().after_ability_tags().count(),
        m.after_damage_tags().after_status_tags().after_faction_tags().after_ability_tags().count()
            <= m.after_common_tags().count(),
{
    reveal(TagRegistryModel::after_damage_tags);
    reveal(TagRegistryModel::after_status_tags);
    reveal(TagRegistryModel::after_faction_tags);
    reveal(TagRegistryModel::after_ability_tags);
    reveal(TagRegistryModel::after_resistance_tags);
    broadcast use lemma_register_count;

}

fn register_damage_tags(registry: &mut TagRegistry)
    requires
        old(registry).wf(),
        old(registry)@.after_damage_tags().count() <= u32::MAX,
    ensures
        final(registry).wf(),
        final(registry)@ == old(registry)@.after_damage_tags(),
{
    proof {
        reveal(TagRegistryModel::after_damage_tags);
    }
    broadcast use lemma_register_count;

    registry.register(DAMAGE, None);
    registry.register(DAMAGE_TYPE, Some(DAMAGE));
    registry.register(DAMAGE_TYPE_PHYSICAL, Some(DAMAGE_TYPE));
    registry.register(DAMAGE_TYPE_FIRE, Some(DAMAGE_TYPE));
    registry.register(DAMAGE_TYPE_ICE, Some(DAMAGE_TYPE));
    registry.register(DAMAGE_TYPE_LIGHTNING, Some(DAMAGE_TYPE));
    registry.register(DAMAGE_TYPE_POISON, Some(DAMAGE_TYPE));
}

fn register_status_tags(registry: &mut TagRegistry)
    requires
        old(registry).wf(),
        old(registry)@.after_status_tags().count() <= u32::MAX,
    ensures
        final(registry).wf(),
        final(registry)@ == old(registry)@.after_status_tags(),
{
    proof {
        reveal(TagRegistryModel::after_status_tags);
    }
    broadcast use lemma_register_count;

    registry.register(STATUS, None);
    registry.register(STATUS_STUNNED, Some(STATUS));
    registry.register(STATUS_BURNING, Some(STATUS));
    registry.register(STATUS_FROZEN, Some(STATUS));
    registry.register(STATUS_POISONED, Some(STATUS));
    registry.register(STATUS_SLOWED, Some(STATUS));
}

fn register_faction_tags(registry: &mut TagRegistry)
    requires
        old(registry).wf(),
        old(registry)@.after_faction_tags().count() <= u32::MAX,
    ensures
        final(registry).wf(),
        final(registry)@ == old(registry)@.after_faction_tags(),
{
    proof {
        reveal(TagRegistryModel::after_faction_tags);
    }
    broadcast use lemma_register_count;

    registry.register(FACTION, None);
    registry.register(FACTION_PLAYER, Some(FACTION));
    registry.register(FACTION_ENEMY, Some(FACTION));
    registry.register(FACTION_NEUTRAL, Some(FACTION));
    registry.register(FACTION_ALLY, Some(FACTION));
}

fn register_ability_tags(registry: &mut TagRegistry)
    requires
        old(registry).wf(),
        old(registry)@.after_ability_tags().count() <= u32::MAX,
    ensures
        final(registry).wf(),
        final(registry)@ == old(registry)@.after_ability_tags(),
{
    proof {
        reveal(TagRegistryModel::after_ability_tags);
    }
    broadcast use lemma_register_count;

    registry.register(ABILITY, None);
    registry.register(ABILITY_MELEE, Some(ABILITY));
    registry.register(ABILITY_RANGED, Some(ABILITY));
    registry.register(ABILITY_MAGIC, Some(ABILITY));
}

fn register_resistance_tags(registry: &mut TagRegistry)
    requires
        old(registry).wf(),
        old(registry)@.after_resistance_tags().count() <= u32::MAX,
    ensures
        final(registry).wf(),
        final(registry)@ == old(registry)@.after_resistance_tags(),
{
    proof {
        reveal(TagRegistryModel::after_resistance_tags);
    }
    broadcast use lemma_register_count;

    registry.register(RESISTANCE, None);
    registry.register(RESISTANCE_FIRE, Some(RESISTANCE));
    registry.register(RESISTANCE_ICE, Some(RESISTANCE));
    registry.register(RESISTANCE_PHYSICAL, Some(RESISTANCE));
}

// Laws of the tag registry and of tag sets.

/// Registering a tag that is already known changes nothing, whatever parent is named.
pub proof fn law_register_known_tag_changes_nothing(
    m: TagRegistryModel,
    tag: Seq<char>,
    parent: Option<Seq<char>>,
)
    requires
        m.valid(),
        m.names.contains(tag),
    ensures
        m.after_register(tag, parent) == m,
{
}

/// Registering is idempotent: a second registration of the same tag changes nothing.
pub proof fn law_register_idempotent(
    m: TagRegistryModel,
    tag: Seq<char>,
    first_parent: Option<Seq<char>>,
    second_parent: Option<Seq<char>>,
)
    requires
        m.valid(),
    ensures
        m.after_register(tag, first_parent).after_register(tag, second_parent) == m.after_register(
            tag,
            first_parent,
        ),
{
    let r = m.after_register(tag, first_parent);
    if !m.names.contains(tag) {
        assert(r.names[m.names.len() as int] == tag);
    }
}

/// After registration the tag has an id, that id names the tag, and a new tag
/// gets the next id.
pub proof fn law_register_then_lookup(m: TagRegistryModel, tag: Seq<char>, parent: Option<Seq<char>>)
    requires
        m.valid(),
        !m.names.contains(tag) ==> m.count() < u32::MAX,
    ensures
        (m.after_register(tag, parent).id_of(tag) is Some),
        m.after_register(tag, parent).name_of(m.after_register(tag, parent).id_of(tag)->0) == Some(tag),
        !m.names.contains(tag) ==> m.after_register(tag, parent).id_of(tag) == Some(m.count() as u32),
{
    let r = m.after_register(tag, parent);
    if !m.names.contains(tag) {
        assert(r.names[m.names.len() as int] == tag);
        lemma_push_fresh_keeps_no_duplicates(m.names, tag);
        let k = r.names.index_of(tag);
        assert(r.names[k] == tag);
    } else {
        let k = m.names.index_of(tag);
        assert(m.names[k] == tag);
    }
}

/// Registration keeps the id of every tag registered before.
pub proof fn law_register_keeps_ids(
    m: TagRegistryModel,
    tag: Seq<char>,
    parent: Option<Seq<char>>,
    other: Seq<char>,
)
    requires
        m.valid(),
        m.names.contains(other),
    ensures
        m.after_register(tag, parent).id_of(other) == m.id_of(other),
        m.after_register(tag, parent).parent_of(m.id_of(other)->0) == m.parent_of(m.id_of(other)->0),
{
    lemma_id_of_after_push(m, tag, other);
}

/// A new tag registered under a known parent has that parent, and the parent
/// is one of its ancestors.
pub proof fn law_register_links_parent(m: TagRegistryModel, tag: Seq<char>, parent: Seq<char>)
    requires
        m.valid(),
        !m.names.contains(tag),
        m.names.contains(parent),
        m.count() < u32::MAX,
    ensures
        m.after_register(tag, Some(parent)).parent_of(m.count() as u32) == m.id_of(parent),
        m.after_register(tag, Some(parent)).is_ancestor(m.count() as u32, m.id_of(parent)->0),
{
    lemma_id_of_after_push(m, tag, parent);
}

/// The id of a known name is unchanged when a new name is appended.
proof fn lemma_id_of_after_push(m: TagRegistryModel, tag: Seq<char>, other: Seq<char>)
    requires
        m.valid(),
        m.names.contains(other),
    ensures
        m.after_register(tag, None).id_of(other) == m.id_of(other),
        (m.id_of(other) is Some),
        (m.id_of(other)->0) < m.count(),
{
    let k = m.names.index_of(other);
    assert(m.names[k] == other);
    if !m.names.contains(tag) {
        let grown = m.names.push(tag);
        lemma_push_fresh_keeps_no_duplicates(m.names, tag);
        assert(grown[k] == other);
        assert(grown.contains(other));
        let g = grown.index_of(other);
        assert(grown[g] == other);
    }
}

/// Ancestry is transitive: an ancestor of an ancestor is an ancestor.
pub proof fn law_ancestor_transitive(m: TagRegistryModel, a: u32, b: u32, c: u32)
    requires
        m.valid(),
        m.is_ancestor(a, b),
        m.is_ancestor(b, c),
    ensures
        m.is_ancestor(a, c),
    decreases a,
{
    let p = m.parents[a];
    if p != b {
        law_ancestor_transitive(m, p, b, c);
    }
}

/// The ancestors listed for a tag are exactly the tags it has as ancestors.
pub proof fn law_ancestors_are_exactly_ancestors(m: TagRegistryModel, id: u32, a: u32)
    requires
        m.valid(),
        m.chain_ends(id),
    ensures
        m.ancestors(id).contains(a) <==> m.is_ancestor(id, a),
    decreases id,
{
    match m.parent_of(id) {
        Some(p) => {
            law_ancestors_are_exactly_ancestors(m, p, a);
            let rest = m.ancestors(p);
            let all = seq![p] + rest;
            assert(all[0] == p);
            if rest.contains(a) {
                let k = choose|k: int| 0 <= k < rest.len() && rest[k] == a;
                assert(all[k + 1] == a);
            }
            if all.contains(a) && a != p {
                let k = choose|k: int| 0 <= k < all.len() && all[k] == a;
                assert(rest[k - 1] == a);
            }
        },
        None => {},
    }
}

/// A search for ancestry ends whenever the chain above the tag ends.
pub proof fn law_chain_end_bounds_search(m: TagRegistryModel, id: u32, a: u32)
    requires
        m.valid(),
        m.chain_ends(id),
    ensures
        m.search_ends(id, a),
    decreases id,
{
    match m.parent_of(id) {
        Some(p) => law_chain_end_bounds_search(m, p, a),
        None => {},
    }
}

/// Carrying all of a non-empty list of tags means carrying at least one of them.
pub proof fn law_all_tags_implies_any_tag(tags: Set<u32>, ids: Seq<u32>)
    requires
        ids.len() > 0,
        forall|i: int| 0 <= i < ids.len() ==> tags.contains(#[trigger] ids[i]),
    ensures
        exists|i: int| 0 <= i < ids.len() && tags.contains(#[trigger] ids[i]),
{
    assert(tags.contains(ids[0]));
}

/// Where every parent precedes its child, every chain of parents ends, and so
/// does every search for an ancestor.
pub proof fn law_preceding_parents_end_walks(m: TagRegistryModel, id: u32, a: u32)
    requires
        m.parents_precede(),
    ensures
        m.chain_ends(id),
        m.search_ends(id, a),
    decreases id,
{
    if m.parents.contains_key(id) {
        law_preceding_parents_end_walks(m, m.parents[id], a);
    }
}

/// Registering a tag under any parent other than itself keeps every parent
/// before its child.
pub proof fn law_register_keeps_parents_preceding(m: TagRegistryModel, tag: Seq<char>, parent: Option<Seq<char>>)
    requires
        m.valid(),
        m.parents_precede(),
        parent != Some(tag),
        !m.names.contains(tag) ==> m.count() < u32::MAX,
    ensures
        m.after_register(tag, parent).parents_precede(),
{
    if !m.names.contains(tag) {
        match parent {
            Some(p) => {
                let names = m.names.push(tag);
                if names.contains(p) {
                    let i = names.index_of(p);
                    assert(names[i] == p);
                    if i == m.names.len() {
                        assert(p == tag);
                    }
                }
            },
            None => {},
        }
    }
}

/// An ancestor of a tag was registered no later than the tag.
pub proof fn law_ancestor_registered_earlier(m: TagRegistryModel, child: u32, ancestor: u32)
    requires
        m.valid(),
        m.is_ancestor(child, ancestor),
    ensures
        ancestor <= child,
    decreases child,
{
    let p = m.parents[child];
    if p != ancestor {
        law_ancestor_registered_earlier(m, p, ancestor);
    }
}

/// A direct parent is an ancestor.
pub proof fn law_parent_is_ancestor(m: TagRegistryModel, child: u32, parent: u32)
    requires
        m.parent_of(child) == Some(parent),
    ensures
        m.is_ancestor(child, parent),
{
}

/// A carried tag matches a queried parent only when it is that tag or lies
/// below it: the queried tag is the carried tag or was registered before it,
/// and a carried tag that lies strictly above the queried tag never matches.
pub proof fn law_match_only_at_or_below(m: TagRegistryModel, carried: u32, queried: u32)
    requires
        m.valid(),
    ensures
        matches_parent(m, carried, queried) ==> queried <= carried,
        matches_parent(m, carried, queried) <==> (carried == queried || m.is_ancestor(carried, queried)),
        carried != queried && m.is_ancestor(queried, carried) ==> !matches_parent(m, carried, queried),
{
    if m.is_ancestor(carried, queried) {
        law_ancestor_registered_earlier(m, carried, queried);
    }
    if carried != queried && m.is_ancestor(queried, carried) {
        law_ancestor_registered_earlier(m, queried, carried);
        if m.is_ancestor(carried, queried) {
            law_ancestor_registered_earlier(m, carried, queried);
        }
    }
}

/// Adding a tag grows a tag set by one exactly when the tag is new, and adding
/// the same tag twice is the same as adding it once.
pub proof fn law_add_counts(tags: Set<u32>, id: u32)
    requires
        tags.finite(),
    ensures
        tags.insert(id).finite(),
        tags.insert(id).len() == tags.len() + (if tags.contains(id) { 0int } else { 1int }),
        tags.insert(id).insert(id) == tags.insert(id),
{
    if tags.contains(id) {
        assert(tags.insert(id) =~= tags);
    }
    assert(tags.insert(id).insert(id) =~= tags.insert(id));
}

/// A tag that was added is carried; one that was removed is not; other tags are untouched.
pub proof fn law_add_remove(tags: Set<u32>, id: u32, other: u32)
    requires
        other != id,
    ensures
        tags.insert(id).contains(id),
        !tags.remove(id).contains(id),
        tags.insert(id).contains(other) == tags.contains(other),
        tags.remove(id).contains(other) == tags.contains(other),
{
}

/// Carrying a tag means carrying a match for the tag itself and for each of its ancestors.
pub proof fn law_carried_tag_matches_its_ancestors(
    registry: TagRegistryModel,
    tags: Set<u32>,
    t: u32,
    a: u32,
)
    requires
        tags.contains(t),
        t == a || registry.is_ancestor(t, a),
    ensures
        exists|u: u32| tags.contains(u) && #[trigger] matches_parent(registry, u, a),
{
    assert(matches_parent(registry, t, a));
}

/// What the common tag names look like where they differ: length, first
/// letter, and the letters at positions 7 and 9.
proof fn lemma_common_tag_texts()
    ensures
        DAMAGE@.len() == 6 && DAMAGE@[0] == 'D',
        DAMAGE_TYPE@.len() == 11 && DAMAGE_TYPE@[0] == 'D' && DAMAGE_TYPE@[7] == 'T' && DAMAGE_TYPE@[9] == 'p',
        DAMAGE_TYPE_PHYSICAL@.len() == 20 && DAMAGE_TYPE_PHYSICAL@[0] == 'D' && DAMAGE_TYPE_PHYSICAL@[7] == 'T' && DAMAGE_TYPE_PHYSICAL@[9] == 'p',
        DAMAGE_TYPE_FIRE@.len() == 16 && DAMAGE_TYPE_FIRE@[0] == 'D' && DAMAGE_TYPE_FIRE@[7] == 'T' && DAMAGE_TYPE_FIRE@[9] == 'p',
        DAMAGE_TYPE_ICE@.len() == 15 && DAMAGE_TYPE_ICE@[0] == 'D' && DAMAGE_TYPE_ICE@[7] == 'T' && DAMAGE_TYPE_ICE@[9] == 'p',
        DAMAGE_TYPE_LIGHTNING@.len() == 21 && DAMAGE_TYPE_LIGHTNING@[0] == 'D' && DAMAGE_TYPE_LIGHTNING@[7] == 'T' && DAMAGE_TYPE_LIGHTNING@[9] == 'p',
        DAMAGE_TYPE_POISON@.len() == 18 && DAMAGE_TYPE_POISON@[0] == 'D' && DAMAGE_TYPE_POISON@[7] == 'T' && DAMAGE_TYPE_POISON@[9] == 'p',
        STATUS@.len() == 6 && STATUS@[0] == 'S',
        STATUS_STUNNED@.len() == 14 && STATUS_STUNNED@[0] == 'S' && STATUS_STUNNED@[7] == 'S' && STATUS_STUNNED@[9] == 'u',
        STATUS_BURNING@.len() == 14 && STATUS_BURNING@[0] == 'S' && STATUS_BURNING@[7] == 'B' && STATUS_BURNING@[9] == 'r',
        STATUS_FROZEN@.len() == 13 && STATUS_FROZEN@[0] == 'S' && STATUS_FROZEN@[7] == 'F' && STATUS_FROZEN@[9] == 'o',
        STATUS_POISONED@.len() == 15 && STATUS_POISONED@[0] == 'S' && STATUS_POISONED@[7] == 'P' && STATUS_POISONED@[9] == 'i',
        STATUS_SLOWED@.len() == 13 && STATUS_SLOWED@[0] == 'S' && STATUS_SLOWED@[7] == 'S' && STATUS_SLOWED@[9] == 'o',
        FACTION@.len() == 7 && FACTION@[0] == 'F',
        FACTION_PLAYER@.len() == 14 && FACTION_PLAYER@[0] == 'F' && FACTION_PLAYER@[7] == '.' && FACTION_PLAYER@[9] == 'l',
        FACTION_ENEMY@.len() == 13 && FACTION_ENEMY@[0] == 'F' && FACTION_ENEMY@[7] == '.' && FACTION_ENEMY@[9] == 'n',
        FACTION_NEUTRAL@.len() == 15 && FACTION_NEUTRAL@[0] == 'F' && FACTION_NEUTRAL@[7] == '.' && FACTION_NEUTRAL@[9] == 'e',
        FACTION_ALLY@.len() == 12 && FACTION_ALLY@[0] == 'F' && FACTION_ALLY@[7] == '.' && FACTION_ALLY@[9] == 'l',
        ABILITY@.len() == 7 && ABILITY@[0] == 'A',
        ABILITY_MELEE@.len() == 13 && ABILITY_MELEE@[0] == 'A' && ABILITY_MELEE@[7] == '.' && ABILITY_MELEE@[9] == 'e',
        ABILITY_RANGED@.len() == 14 && ABILITY_RANGED@[0] == 'A' && ABILITY_RANGED@[7] == '.' && ABILITY_RANGED@[9] == 'a',
        ABILITY_MAGIC@.len() == 13 && ABILITY_MAGIC@[0] == 'A' && ABILITY_MAGIC@[7] == '.' && ABILITY_MAGIC@[9] == 'a',
        RESISTANCE@.len() == 10 && RESISTANCE@[0] == 'R' && RESISTANCE@[7] == 'n' && RESISTANCE@[9] == 'e',
        RESISTANCE_FIRE@.len() == 15 && RESISTANCE_FIRE@[0] == 'R' && RESISTANCE_FIRE@[7] == 'n' && RESISTANCE_FIRE@[9] == 'e',
        RESISTANCE_ICE@.len() == 14 && RESISTANCE_ICE@[0] == 'R' && RESISTANCE_ICE@[7] == 'n' && RESISTANCE_ICE@[9] == 'e',
        RESISTANCE_PHYSICAL@.len() == 19 && RESISTANCE_PHYSICAL@[0] == 'R' && RESISTANCE_PHYSICAL@[7] == 'n' && RESISTANCE_PHYSICAL@[9] == 'e',
{
    reveal_strlit("Damage");
    reveal_strlit("Damage.Type");
    reveal_strlit("Damage.Type.Physical");
    reveal_strlit("Damage.Type.Fire");
    reveal_strlit("Damage.Type.Ice");
    reveal_strlit("Damage.Type.Lightning");
    reveal_strlit("Damage.Type.Poison");
    reveal_strlit("Status");
    reveal_strlit("Status.Stunned");
    reveal_strlit("Status.Burning");
    reveal_strlit("Status.Frozen");
    reveal_strlit("Status.Poisoned");
    reveal_strlit("Status.Slowed");
    reveal_strlit("Faction");
    reveal_strlit("Faction.Player");
    reveal_strlit("Faction.Enemy");
    reveal_strlit("Faction.Neutral");
    reveal_strlit("Faction.Ally");
    reveal_strlit("Ability");
    reveal_strlit("Ability.Melee");
    reveal_strlit("Ability.Ranged");
    reveal_strlit("Ability.Magic");
    reveal_strlit("Resistance");
    reveal_strlit("Resistance.Fire");
    reveal_strlit("Resistance.Ice");
    reveal_strlit("Resistance.Physical");
    assert(DAMAGE@.len() == 6 && DAMAGE@[0] == 'D');
    assert(DAMAGE_TYPE@.len() == 11 && DAMAGE_TYPE@[0] == 'D' && DAMAGE_TYPE@[7] == 'T' && DAMAGE_TYPE@[9] == 'p');
    assert(DAMAGE_TYPE_PHYSICAL@.len() == 20 && DAMAGE_TYPE_PHYSICAL@[0] == 'D' && DAMAGE_TYPE_PHYSICAL@[7] == 'T' && DAMAGE_TYPE_PHYSICAL@[9] == 'p');
    assert(DAMAGE_TYPE_FIRE@.len() == 16 && DAMAGE_TYPE_FIRE@[0] == 'D' && DAMAGE_TYPE_FIRE@[7] == 'T' && DAMAGE_TYPE_FIRE@[9] == 'p');
    assert(DAMAGE_TYPE_ICE@.len() == 15 && DAMAGE_TYPE_ICE@[0] == 'D' && DAMAGE_TYPE_ICE@[7] == 'T' && DAMAGE_TYPE_ICE@[9] == 'p');
    assert(DAMAGE_TYPE_LIGHTNING@.len() == 21 && DAMAGE_TYPE_LIGHTNING@[0] == 'D' && DAMAGE_TYPE_LIGHTNING@[7] == 'T' && DAMAGE_TYPE_LIGHTNING@[9] == 'p');
    assert(DAMAGE_TYPE_POISON@.len() == 18 && DAMAGE_TYPE_POISON@[0] == 'D' && DAMAGE_TYPE_POISON@[7] == 'T' && DAMAGE_TYPE_POISON@[9] == 'p');
    assert(STATUS@.len() == 6 && STATUS@[0] == 'S');
    assert(STATUS_STUNNED@.len() == 14 && STATUS_STUNNED@[0] == 'S' && STATUS_STUNNED@[7] == 'S' && STATUS_STUNNED@[9] == 'u');
    assert(STATUS_BURNING@.len() == 14 && STATUS_BURNING@[0] == 'S' && STATUS_BURNING@[7] == 'B' && STATUS_BURNING@[9] == 'r');
    assert(STATUS_FROZEN@.len() == 13 && STATUS_FROZEN@[0] == 'S' && STATUS_FROZEN@[7] == 'F' && STATUS_FROZEN@[9] == 'o');
    assert(STATUS_POISONED@.len() == 15 && STATUS_POISONED@[0] == 'S' && STATUS_POISONED@[7] == 'P' && STATUS_POISONED@[9] == 'i');
    assert(STATUS_SLOWED@.len() == 13 && STATUS_SLOWED@[0] == 'S' && STATUS_SLOWED@[7] == 'S' && STATUS_SLOWED@[9] == 'o');
    assert(FACTION@.len() == 7 && FACTION@[0] == 'F');
    assert(FACTION_PLAYER@.len() == 14 && FACTION_PLAYER@[0] == 'F' && FACTION_PLAYER@[7] == '.' && FACTION_PLAYER@[9] == 'l');
    assert(FACTION_ENEMY@.len() == 13 && FACTION_ENEMY@[0] == 'F' && FACTION_ENEMY@[7] == '.' && FACTION_ENEMY@[9] == 'n');
    assert(FACTION_NEUTRAL@.len() == 15 && FACTION_NEUTRAL@[0] == 'F' && FACTION_NEUTRAL@[7] == '.' && FACTION_NEUTRAL@[9] == 'e');
    assert(FACTION_ALLY@.len() == 12 && FACTION_ALLY@[0] == 'F' && FACTION_ALLY@[7] == '.' && FACTION_ALLY@[9] == 'l');
    assert(ABILITY@.len() == 7 && ABILITY@[0] == 'A');
    assert(ABILITY_MELEE@.len() == 13 && ABILITY_MELEE@[0] == 'A' && ABILITY_MELEE@[7] == '.' && ABILITY_MELEE@[9] == 'e');
    assert(ABILITY_RANGED@.len() == 14 && ABILITY_RANGED@[0] == 'A' && ABILITY_RANGED@[7] == '.' && ABILITY_RANGED@[9] == 'a');
    assert(ABILITY_MAGIC@.len() == 13 && ABILITY_MAGIC@[0] == 'A' && ABILITY_MAGIC@[7] == '.' && ABILITY_MAGIC@[9] == 'a');
    assert(RESISTANCE@.len() == 10 && RESISTANCE@[0] == 'R' && RESISTANCE@[7] == 'n' && RESISTANCE@[9] == 'e');
    assert(RESISTANCE_FIRE@.len() == 15 && RESISTANCE_FIRE@[0] == 'R' && RESISTANCE_FIRE@[7] == 'n' && RESISTANCE_FIRE@[9] == 'e');
    assert(RESISTANCE_ICE@.len() == 14 && RESISTANCE_ICE@[0] == 'R' && RESISTANCE_ICE@[7] == 'n' && RESISTANCE_ICE@[9] == 'e');
    assert(RESISTANCE_PHYSICAL@.len() == 19 && RESISTANCE_PHYSICAL@[0] == 'R' && RESISTANCE_PHYSICAL@[7] == 'n' && RESISTANCE_PHYSICAL@[9] == 'e');
}

/// Registering a new tag appends it with the next id and links it to the
/// parent at position `pid`, if one is named.
proof fn lemma_register_fresh(m: TagRegistryModel, tag: Seq<char>, parent: Option<Seq<char>>, pid: int)
    requires
        m.valid(),
        !m.names.contains(tag),
        m.count() < u32::MAX,
        (parent is Some) ==> 0 <= pid < m.count() && m.names[pid] == parent->0,
    ensures
        m.after_register(tag, parent).names == m.names.push(tag),
        (parent is Some) ==> m.after_register(tag, parent).parents == m.parents.insert(m.count() as u32, pid as u32),
        (parent is None) ==> m.after_register(tag, parent).parents == m.parents,
        m.after_register(tag, parent).valid(),
{
    lemma_push_fresh_keeps_no_duplicates(m.names, tag);
    let names = m.names.push(tag);
    match parent {
        Some(p) => {
            assert(names[pid] == p);
            assert(names.contains(p));
            let k = names.index_of(p);
            assert(names[k] == p);
            assert(k == pid);
        },
        None => {},
    }
}

/// In a valid registry the tag at position `k` has id `k`.
proof fn lemma_id_at(m: TagRegistryModel, k: int)
    requires
        m.valid(),
        0 <= k < m.count(),
    ensures
        m.id_of(m.names[k]) == Some(k as u32),
{
    assert(m.names.contains(m.names[k]));
    let i = m.names.index_of(m.names[k]);
    assert(m.names[i] == m.names[k]);
}

/// Registering the damage family into a registry that holds none of its names
/// appends the names in order and links each member to its parent.
proof fn lemma_damage_family_fresh(m: TagRegistryModel)
    requires
        m.valid(),
        m.count() + 7 <= u32::MAX,
        !m.names.contains(DAMAGE@),
        !m.names.contains(DAMAGE_TYPE@),
        !m.names.contains(DAMAGE_TYPE_PHYSICAL@),
        !m.names.contains(DAMAGE_TYPE_FIRE@),
        !m.names.contains(DAMAGE_TYPE_ICE@),
        !m.names.contains(DAMAGE_TYPE_LIGHTNING@),
        !m.names.contains(DAMAGE_TYPE_POISON@),
    ensures
        m.after_damage_tags().names == m.names + seq![DAMAGE@, DAMAGE_TYPE@, DAMAGE_TYPE_PHYSICAL@, DAMAGE_TYPE_FIRE@, DAMAGE_TYPE_ICE@, DAMAGE_TYPE_LIGHTNING@, DAMAGE_TYPE_POISON@],
        m.after_damage_tags().parents == m.parents.insert((m.count() + 1) as u32, (m.count() + 0) as u32).insert((m.count() + 2) as u32, (m.count() + 1) as u32).insert((m.count() + 3) as u32, (m.count() + 1) as u32).insert((m.count() + 4) as u32, (m.count() + 1) as u32).insert((m.count() + 5) as u32, (m.count() + 1) as u32).insert((m.count() + 6) as u32, (m.count() + 1) as u32),
        m.after_damage_tags().valid(),
        forall|k: u32| k < m.count() ==> #[trigger] m.after_damage_tags().parent_of(k) == m.parent_of(k),
        m.after_damage_tags().parent_of((m.count() + 0) as u32) == None::<u32>,
        m.after_damage_tags().parent_of((m.count() + 1) as u32) == Some((m.count() + 0) as u32),
        m.after_damage_tags().parent_of((m.count() + 2) as u32) == Some((m.count() + 1) as u32),
        m.after_damage_tags().parent_of((m.count() + 3) as u32) == Some((m.count() + 1) as u32),
        m.after_damage_tags().parent_of((m.count() + 4) as u32) == Some((m.count() + 1) as u32),
        m.after_damage_tags().parent_of((m.count() + 5) as u32) == Some((m.count() + 1) as u32),
        m.after_damage_tags().parent_of((m.count() + 6) as u32) == Some((m.count() + 1) as u32),
{
    reveal(TagRegistryModel::after_damage_tags);
    lemma_common_tag_texts();
    let m0 = m;
    assert(!m0.names.contains(DAMAGE@)) by {
        if m0.names.contains(DAMAGE@) {
            let k = choose|k: int| 0 <= k < m0.names.len() && m0.names[k] == DAMAGE@;
            if k >= m.names.len() { assert(m0.names[k] == seq![DAMAGE@, DAMAGE_TYPE@, DAMAGE_TYPE_PHYSICAL@, DAMAGE_TYPE_FIRE@, DAMAGE_TYPE_ICE@, DAMAGE_TYPE_LIGHTNING@, DAMAGE_TYPE_POISON@][k - m.names.len()]); } else { assert(m0.names[k] == m.names[k]); }
        }
    }
    lemma_register_fresh(m0, DAMAGE@, None, 0);
    let m1 = m0.after_register(DAMAGE@, None);
    assert(m1.names =~= m.names + seq![DAMAGE@, DAMAGE_TYPE@, DAMAGE_TYPE_PHYSICAL@, DAMAGE_TYPE_FIRE@, DAMAGE_TYPE_ICE@, DAMAGE_TYPE_LIGHTNING@, DAMAGE_TYPE_POISON@].subrange(0, 1));
    assert(!m1.names.contains(DAMAGE_TYPE@)) by {
        if m1.names.contains(DAMAGE_TYPE@) {
            let k = choose|k: int| 0 <= k < m1.names.len() && m1.names[k] == DAMAGE_TYPE@;
            if k >= m.names.len() { assert(m1.names[k] == seq![DAMAGE@, DAMAGE_TYPE@, DAMAGE_TYPE_PHYSICAL@, DAMAGE_TYPE_FIRE@, DAMAGE_TYPE_ICE@, DAMAGE_TYPE_LIGHTNING@, DAMAGE_TYPE_POISON@][k - m.names.len()]); } else { assert(m1.names[k] == m.names[k]); }
        }
    }
    assert(m1.names[(m.count() + 0) as int] == DAMAGE@);
    lemma_register_fresh(m1, DAMAGE_TYPE@, Some(DAMAGE@), (m.count() + 0) as int);
    let m2 = m1.after_register(DAMAGE_TYPE@, Some(DAMAGE@));
    assert(m2.names =~= m.names + seq![DAMAGE@, DAMAGE_TYPE@, DAMAGE_TYPE_PHYSICAL@, DAMAGE_TYPE_FIRE@, DAMAGE_TYPE_ICE@, DAMAGE_TYPE_LIGHTNING@, DAMAGE_TYPE_POISON@].subrange(0, 2));
    assert(!m2.names.contains(DAMAGE_TYPE_PHYSICAL@)) by {
        if m2.names.contains(DAMAGE_TYPE_PHYSICAL@) {
            let k = choose|k: int| 0 <= k < m2.names.len() && m2.names[k] == DAMAGE_TYPE_PHYSICAL@;
            if k >= m.names.len() { assert(m2.names[k] == seq![DAMAGE@, DAMAGE_TYPE@, DAMAGE_TYPE_PHYSICAL@, DAMAGE_TYPE_FIRE@, DAMAGE_TYPE_ICE@, DAMAGE_TYPE_LIGHTNING@, DAMAGE_TYPE_POISON@][k - m.names.len()]); } else { assert(m2.names[k] == m.names[k]); }
        }
    }
    assert(m2.names[(m.count() + 1) as int] == DAMAGE_TYPE@);
    lemma_register_fresh(m2, DAMAGE_TYPE_PHYSICAL@, Some(DAMAGE_TYPE@), (m.count() + 1) as int);
    let m3 = m2.after_register(DAMAGE_TYPE_PHYSICAL@, Some(DAMAGE_TYPE@));
    assert(m3.names =~= m.names + seq![DAMAGE@, DAMAGE_TYPE@, DAMAGE_TYPE_PHYSICAL@, DAMAGE_TYPE_FIRE@, DAMAGE_TYPE_ICE@, DAMAGE_TYPE_LIGHTNING@, DAMAGE_TYPE_POISON@].subrange(0, 3));
    assert(!m3.names.contains(DAMAGE_TYPE_FIRE@)) by {
        if m3.names.contains(DAMAGE_TYPE_FIRE@) {
            let k = choose|k: int| 0 <= k < m3.names.len() && m3.names[k] == DAMAGE_TYPE_FIRE@;
            if k >= m.names.len() { assert(m3.names[k] == seq![DAMAGE@, DAMAGE_TYPE@, DAMAGE_TYPE_PHYSICAL@, DAMAGE_TYPE_FIRE@, DAMAGE_TYPE_ICE@, DAMAGE_TYPE_LIGHTNING@, DAMAGE_TYPE_POISON@][k - m.names.len()]); } else { assert(m3.names[k] == m.names[k]); }
        }
    }
    assert(m3.names[(m.count() + 1) as int] == DAMAGE_TYPE@);
    lemma_register_fresh(m3, DAMAGE_TYPE_FIRE@, Some(DAMAGE_TYPE@), (m.count() + 1) as int);
    let m4 = m3.after_register(DAMAGE_TYPE_FIRE@, Some(DAMAGE_TYPE@));
    assert(m4.names =~= m.names + seq![DAMAGE@, DAMAGE_TYPE@, DAMAGE_TYPE_PHYSICAL@, DAMAGE_TYPE_FIRE@, DAMAGE_TYPE_ICE@, DAMAGE_TYPE_LIGHTNING@, DAMAGE_TYPE_POISON@].subrange(0, 4));
    assert(!m4.names.contains(DAMAGE_TYPE_ICE@)) by {
        if m4.names.contains(DAMAGE_TYPE_ICE@) {
            let k = choose|k: int| 0 <= k < m4.names.len() && m4.names[k] == DAMAGE_TYPE_ICE@;
            if k >= m.names.len() { assert(m4.names[k] == seq![DAMAGE@, DAMAGE_TYPE@, DAMAGE_TYPE_PHYSICAL@, DAMAGE_TYPE_FIRE@, DAMAGE_TYPE_ICE@, DAMAGE_TYPE_LIGHTNING@, DAMAGE_TYPE_POISON@][k - m.names.len()]); } else { assert(m4.names[k] == m.names[k]); }
        }
    }
    assert(m4.names[(m.count() + 1) as int] == DAMAGE_TYPE@);
    lemma_register_fresh(m4, DAMAGE_TYPE_ICE@, Some(DAMAGE_TYPE@), (m.count() + 1) as int);
    let m5 = m4.after_register(DAMAGE_TYPE_ICE@, Some(DAMAGE_TYPE@));
    assert(m5.names =~= m.names + seq![DAMAGE@, DAMAGE_TYPE@, DAMAGE_TYPE_PHYSICAL@, DAMAGE_TYPE_FIRE@, DAMAGE_TYPE_ICE@, DAMAGE_TYPE_LIGHTNING@, DAMAGE_TYPE_POISON@].subrange(0, 5));
    assert(!m5.names.contains(DAMAGE_TYPE_LIGHTNING@)) by {
        if m5.names.contains(DAMAGE_TYPE_LIGHTNING@) {
            let k = choose|k: int| 0 <= k < m5.names.len() && m5.names[k] == DAMAGE_TYPE_LIGHTNING@;
            if k >= m.names.len() { assert(m5.names[k] == seq![DAMAGE@, DAMAGE_TYPE@, DAMAGE_TYPE_PHYSICAL@, DAMAGE_TYPE_FIRE@, DAMAGE_TYPE_ICE@, DAMAGE_TYPE_LIGHTNING@, DAMAGE_TYPE_POISON@][k - m.names.len()]); } else { assert(m5.names[k] == m.names[k]); }
        }
    }
    assert(m5.names[(m.count() + 1) as int] == DAMAGE_TYPE@);
    lemma_register_fresh(m5, DAMAGE_TYPE_LIGHTNING@, Some(DAMAGE_TYPE@), (m.count() + 1) as int);
    let m6 = m5.after_register(DAMAGE_TYPE_LIGHTNING@, Some(DAMAGE_TYPE@));
    assert(m6.names =~= m.names + seq![DAMAGE@, DAMAGE_TYPE@, DAMAGE_TYPE_PHYSICAL@, DAMAGE_TYPE_FIRE@, DAMAGE_TYPE_ICE@, DAMAGE_TYPE_LIGHTNING@, DAMAGE_TYPE_POISON@].subrange(0, 6));
    assert(!m6.names.contains(DAMAGE_TYPE_POISON@)) by {
        if m6.names.contains(DAMAGE_TYPE_POISON@) {
            let k = choose|k: int| 0 <= k < m6.names.len() && m6.names[k] == DAMAGE_TYPE_POISON@;
            if k >= m.names.len() { assert(m6.names[k] == seq![DAMAGE@, DAMAGE_TYPE@, DAMAGE_TYPE_PHYSICAL@, DAMAGE_TYPE_FIRE@, DAMAGE_TYPE_ICE@, DAMAGE_TYPE_LIGHTNING@, DAMAGE_TYPE_POISON@][k - m.names.len()]); } else { assert(m6.names[k] == m.names[k]); }
        }
    }
    assert(m6.names[(m.count() + 1) as int] == DAMAGE_TYPE@);
    lemma_register_fresh(m6, DAMAGE_TYPE_POISON@, Some(DAMAGE_TYPE@), (m.count() + 1) as int);
    let m7 = m6.after_register(DAMAGE_TYPE_POISON@, Some(DAMAGE_TYPE@));
    assert(m7.names =~= m.names + seq![DAMAGE@, DAMAGE_TYPE@, DAMAGE_TYPE_PHYSICAL@, DAMAGE_TYPE_FIRE@, DAMAGE_TYPE_ICE@, DAMAGE_TYPE_LIGHTNING@, DAMAGE_TYPE_POISON@].subrange(0, 7));
    assert(m7.names =~= m.names + seq![DAMAGE@, DAMAGE_TYPE@, DAMAGE_TYPE_PHYSICAL@, DAMAGE_TYPE_FIRE@, DAMAGE_TYPE_ICE@, DAMAGE_TYPE_LIGHTNING@, DAMAGE_TYPE_POISON@]);
}

/// Registering the status family into a registry that holds none of its names
/// appends the names in order and links each member to its parent.
proof fn lemma_status_family_fresh(m: TagRegistryModel)
    requires
        m.valid(),
        m.count() + 6 <= u32::MAX,
        !m.names.contains(STATUS@),
        !m.names.contains(STATUS_STUNNED@),
        !m.names.contains(STATUS_BURNING@),
        !m.names.contains(STATUS_FROZEN@),
        !m.names.contains(STATUS_POISONED@),
        !m.names.contains(STATUS_SLOWED@),
    ensures
        m.after_status_tags().names == m.names + seq![STATUS@, STATUS_STUNNED@, STATUS_BURNING@, STATUS_FROZEN@, STATUS_POISONED@, STATUS_SLOWED@],
        m.after_status_tags().parents == m.parents.insert((m.count() + 1) as u32, (m.count() + 0) as u32).insert((m.count() + 2) as u32, (m.count() + 0) as u32).insert((m.count() + 3) as u32, (m.count() + 0) as u32).insert((m.count() + 4) as u32, (m.count() + 0) as u32).insert((m.count() + 5) as u32, (m.count() + 0) as u32),
        m.after_status_tags().valid(),
        forall|k: u32| k < m.count() ==> #[trigger] m.after_status_tags().parent_of(k) == m.parent_of(k),
        m.after_status_tags().parent_of((m.count() + 0) as u32) == None::<u32>,
        m.after_status_tags().parent_of((m.count() + 1) as u32) == Some((m.count() + 0) as u32),
        m.after_status_tags().parent_of((m.count() + 2) as u32) == Some((m.count() + 0) as u32),
        m.after_status_tags().parent_of((m.count() + 3) as u32) == Some((m.count() + 0) as u32),
        m.after_status_tags().parent_of((m.count() + 4) as u32) == Some((m.count() + 0) as u32),
        m.after_status_tags().parent_of((m.count() + 5) as u32) == Some((m.count() + 0) as u32),
{
    reveal(TagRegistryModel::after_status_tags);
    lemma_common_tag_texts();
    let m0 = m;
    assert(!m0.names.contains(STATUS@)) by {
        if m0.names.contains(STATUS@) {
            let k = choose|k: int| 0 <= k < m0.names.len() && m0.names[k] == STATUS@;
            if k >= m.names.len() { assert(m0.names[k] == seq![STATUS@, STATUS_STUNNED@, STATUS_BURNING@, STATUS_FROZEN@, STATUS_POISONED@, STATUS_SLOWED@][k - m.names.len()]); } else { assert(m0.names[k] == m.names[k]); }
        }
    }
    lemma_register_fresh(m0, STATUS@, None, 0);
    let m1 = m0.after_register(STATUS@, None);
    assert(m1.names =~= m.names + seq![STATUS@, STATUS_STUNNED@, STATUS_BURNING@, STATUS_FROZEN@, STATUS_POISONED@, STATUS_SLOWED@].subrange(0, 1));
    assert(!m1.names.contains(STATUS_STUNNED@)) by {
        if m1.names.contains(STATUS_STUNNED@) {
            let k = choose|k: int| 0 <= k < m1.names.len() && m1.names[k] == STATUS_STUNNED@;
            if k >= m.names.len() { assert(m1.names[k] == seq![STATUS@, STATUS_STUNNED@, STATUS_BURNING@, STATUS_FROZEN@, STATUS_POISONED@, STATUS_SLOWED@][k - m.names.len()]); } else { assert(m1.names[k] == m.names[k]); }
        }
    }
    assert(m1.names[(m.count() + 0) as int] == STATUS@);
    lemma_register_fresh(m1, STATUS_STUNNED@, Some(STATUS@), (m.count() + 0) as int);
    let m2 = m1.after_register(STATUS_STUNNED@, Some(STATUS@));
    assert(m2.names =~= m.names + seq![STATUS@, STATUS_STUNNED@, STATUS_BURNING@, STATUS_FROZEN@, STATUS_POISONED@, STATUS_SLOWED@].subrange(0, 2));
    assert(!m2.names.contains(STATUS_BURNING@)) by {
        if m2.names.contains(STATUS_BURNING@) {
            let k = choose|k: int| 0 <= k < m2.names.len() && m2.names[k] == STATUS_BURNING@;
            if k >= m.names.len() { assert(m2.names[k] == seq![STATUS@, STATUS_STUNNED@, STATUS_BURNING@, STATUS_FROZEN@, STATUS_POISONED@, STATUS_SLOWED@][k - m.names.len()]); } else { assert(m2.names[k] == m.names[k]); }
        }
    }
    assert(m2.names[(m.count() + 0) as int] == STATUS@);
    lemma_register_fresh(m2, STATUS_BURNING@, Some(STATUS@), (m.count() + 0) as int);
    let m3 = m2.after_register(STATUS_BURNING@, Some(STATUS@));
    assert(m3.names =~= m.names + seq![STATUS@, STATUS_STUNNED@, STATUS_BURNING@, STATUS_FROZEN@, STATUS_POISONED@, STATUS_SLOWED@].subrange(0, 3));
    assert(!m3.names.contains(STATUS_FROZEN@)) by {
        if m3.names.contains(STATUS_FROZEN@) {
            let k = choose|k: int| 0 <= k < m3.names.len() && m3.names[k] == STATUS_FROZEN@;
            if k >= m.names.len() { assert(m3.names[k] == seq![STATUS@, STATUS_STUNNED@, STATUS_BURNING@, STATUS_FROZEN@, STATUS_POISONED@, STATUS_SLOWED@][k - m.names.len()]); } else { assert(m3.names[k] == m.names[k]); }
        }
    }
    assert(m3.names[(m.count() + 0) as int] == STATUS@);
    lemma_register_fresh(m3, STATUS_FROZEN@, Some(STATUS@), (m.count() + 0) as int);
    let m4 = m3.after_register(STATUS_FROZEN@, Some(STATUS@));
    assert(m4.names =~= m.names + seq![STATUS@, STATUS_STUNNED@, STATUS_BURNING@, STATUS_FROZEN@, STATUS_POISONED@, STATUS_SLOWED@].subrange(0, 4));
    assert(!m4.names.contains(STATUS_POISONED@)) by {
        if m4.names.contains(STATUS_POISONED@) {
            let k = choose|k: int| 0 <= k < m4.names.len() && m4.names[k] == STATUS_POISONED@;
            if k >= m.names.len() { assert(m4.names[k] == seq![STATUS@, STATUS_STUNNED@, STATUS_BURNING@, STATUS_FROZEN@, STATUS_POISONED@, STATUS_SLOWED@][k - m.names.len()]); } else { assert(m4.names[k] == m.names[k]); }
        }
    }
    assert(m4.names[(m.count() + 0) as int] == STATUS@);
    lemma_register_fresh(m4, STATUS_POISONED@, Some(STATUS@), (m.count() + 0) as int);
    let m5 = m4.after_register(STATUS_POISONED@, Some(STATUS@));
    assert(m5.names =~= m.names + seq![STATUS@, STATUS_STUNNED@, STATUS_BURNING@, STATUS_FROZEN@, STATUS_POISONED@, STATUS_SLOWED@].subrange(0, 5));
    assert(!m5.names.contains(STATUS_SLOWED@)) by {
        if m5.names.contains(STATUS_SLOWED@) {
            let k = choose|k: int| 0 <= k < m5.names.len() && m5.names[k] == STATUS_SLOWED@;
            if k >= m.names.len() { assert(m5.names[k] == seq![STATUS@, STATUS_STUNNED@, STATUS_BURNING@, STATUS_FROZEN@, STATUS_POISONED@, STATUS_SLOWED@][k - m.names.len()]); } else { assert(m5.names[k] == m.names[k]); }
        }
    }
    assert(m5.names[(m.count() + 0) as int] == STATUS@);
    lemma_register_fresh(m5, STATUS_SLOWED@, Some(STATUS@), (m.count() + 0) as int);
    let m6 = m5.after_register(STATUS_SLOWED@, Some(STATUS@));
    assert(m6.names =~= m.names + seq![STATUS@, STATUS_STUNNED@, STATUS_BURNING@, STATUS_FROZEN@, STATUS_POISONED@, STATUS_SLOWED@].subrange(0, 6));
    assert(m6.names =~= m.names + seq![STATUS@, STATUS_STUNNED@, STATUS_BURNING@, STATUS_FROZEN@, STATUS_POISONED@, STATUS_SLOWED@]);
}

/// Registering the faction family into a registry that holds none of its names
/// appends the names in order and links each member to its parent.
proof fn lemma_faction_family_fresh(m: TagRegistryModel)
    requires
        m.valid(),
        m.count() + 5 <= u32::MAX,
        !m.names.contains(FACTION@),
        !m.names.contains(FACTION_PLAYER@),
        !m.names.contains(FACTION_ENEMY@),
        !m.names.contains(FACTION_NEUTRAL@),
        !m.names.contains(FACTION_ALLY@),
    ensures
        m.after_faction_tags().names == m.names + seq![FACTION@, FACTION_PLAYER@, FACTION_ENEMY@, FACTION_NEUTRAL@, FACTION_ALLY@],
        m.after_faction_tags().parents == m.parents.insert((m.count() + 1) as u32, (m.count() + 0) as u32).insert((m.count() + 2) as u32, (m.count() + 0) as u32).insert((m.count() + 3) as u32, (m.count() + 0) as u32).insert((m.count() + 4) as u32, (m.count() + 0) as u32),
        m.after_faction_tags().valid(),
        forall|k: u32| k < m.count() ==> #[trigger] m.after_faction_tags().parent_of(k) == m.parent_of(k),
        m.after_faction_tags().parent_of((m.count() + 0) as u32) == None::<u32>,
        m.after_faction_tags().parent_of((m.count() + 1) as u32) == Some((m.count() + 0) as u32),
        m.after_faction_tags().parent_of((m.count() + 2) as u32) == Some((m.count() + 0) as u32),
        m.after_faction_tags().parent_of((m.count() + 3) as u32) == Some((m.count() + 0) as u32),
        m.after_faction_tags().parent_of((m.count() + 4) as u32) == Some((m.count() + 0) as u32),
{
    reveal(TagRegistryModel::after_faction_tags);
    lemma_common_tag_texts();
    let m0 = m;
    assert(!m0.names.contains(FACTION@)) by {
        if m0.names.contains(FACTION@) {
            let k = choose|k: int| 0 <= k < m0.names.len() && m0.names[k] == FACTION@;
            if k >= m.names.len() { assert(m0.names[k] == seq![FACTION@, FACTION_PLAYER@, FACTION_ENEMY@, FACTION_NEUTRAL@, FACTION_ALLY@][k - m.names.len()]); } else { assert(m0.names[k] == m.names[k]); }
        }
    }
    lemma_register_fresh(m0, FACTION@, None, 0);
    let m1 = m0.after_register(FACTION@, None);
    assert(m1.names =~= m.names + seq![FACTION@, FACTION_PLAYER@, FACTION_ENEMY@, FACTION_NEUTRAL@, FACTION_ALLY@].subrange(0, 1));
    assert(!m1.names.contains(FACTION_PLAYER@)) by {
        if m1.names.contains(FACTION_PLAYER@) {
            let k = choose|k: int| 0 <= k < m1.names.len() && m1.names[k] == FACTION_PLAYER@;
            if k >= m.names.len() { assert(m1.names[k] == seq![FACTION@, FACTION_PLAYER@, FACTION_ENEMY@, FACTION_NEUTRAL@, FACTION_ALLY@][k - m.names.len()]); } else { assert(m1.names[k] == m.names[k]); }
        }
    }
    assert(m1.names[(m.count() + 0) as int] == FACTION@);
    lemma_register_fresh(m1, FACTION_PLAYER@, Some(FACTION@), (m.count() + 0) as int);
    let m2 = m1.after_register(FACTION_PLAYER@, Some(FACTION@));
    assert(m2.names =~= m.names + seq![FACTION@, FACTION_PLAYER@, FACTION_ENEMY@, FACTION_NEUTRAL@, FACTION_ALLY@].subrange(0, 2));
    assert(!m2.names.contains(FACTION_ENEMY@)) by {
        if m2.names.contains(FACTION_ENEMY@) {
            let k = choose|k: int| 0 <= k < m2.names.len() && m2.names[k] == FACTION_ENEMY@;
            if k >= m.names.len() { assert(m2.names[k] == seq![FACTION@, FACTION_PLAYER@, FACTION_ENEMY@, FACTION_NEUTRAL@, FACTION_ALLY@][k - m.names.len()]); } else { assert(m2.names[k] == m.names[k]); }
        }
    }
    assert(m2.names[(m.count() + 0) as int] == FACTION@);
    lemma_register_fresh(m2, FACTION_ENEMY@, Some(FACTION@), (m.count() + 0) as int);
    let m3 = m2.after_register(FACTION_ENEMY@, Some(FACTION@));
    assert(m3.names =~= m.names + seq![FACTION@, FACTION_PLAYER@, FACTION_ENEMY@, FACTION_NEUTRAL@, FACTION_ALLY@].subrange(0, 3));
    assert(!m3.names.contains(FACTION_NEUTRAL@)) by {
        if m3.names.contains(FACTION_NEUTRAL@) {
            let k = choose|k: int| 0 <= k < m3.names.len() && m3.names[k] == FACTION_NEUTRAL@;
            if k >= m.names.len() { assert(m3.names[k] == seq![FACTION@, FACTION_PLAYER@, FACTION_ENEMY@, FACTION_NEUTRAL@, FACTION_ALLY@][k - m.names.len()]); } else { assert(m3.names[k] == m.names[k]); }
        }
    }
    assert(m3.names[(m.count() + 0) as int] == FACTION@);
    lemma_register_fresh(m3, FACTION_NEUTRAL@, Some(FACTION@), (m.count() + 0) as int);
    let m4 = m3.after_register(FACTION_NEUTRAL@, Some(FACTION@));
    assert(m4.names =~= m.names + seq![FACTION@, FACTION_PLAYER@, FACTION_ENEMY@, FACTION_NEUTRAL@, FACTION_ALLY@].subrange(0, 4));
    assert(!m4.names.contains(FACTION_ALLY@)) by {
        if m4.names.contains(FACTION_ALLY@) {
            let k = choose|k: int| 0 <= k < m4.names.len() && m4.names[k] == FACTION_ALLY@;
            if k >= m.names.len() { assert(m4.names[k] == seq![FACTION@, FACTION_PLAYER@, FACTION_ENEMY@, FACTION_NEUTRAL@, FACTION_ALLY@][k - m.names.len()]); } else { assert(m4.names[k] == m.names[k]); }
        }
    }
    assert(m4.names[(m.count() + 0) as int] == FACTION@);
    lemma_register_fresh(m4, FACTION_ALLY@, Some(FACTION@), (m.count() + 0) as int);
    let m5 = m4.after_register(FACTION_ALLY@, Some(FACTION@));
    assert(m5.names =~= m.names + seq![FACTION@, FACTION_PLAYER@, FACTION_ENEMY@, FACTION_NEUTRAL@, FACTION_ALLY@].subrange(0, 5));
    assert(m5.names =~= m.names + seq![FACTION@, FACTION_PLAYER@, FACTION_ENEMY@, FACTION_NEUTRAL@, FACTION_ALLY@]);
}

/// Registering the ability family into a registry that holds none of its names
/// appends the names in order and links each member to its parent.
proof fn lemma_ability_family_fresh(m: TagRegistryModel)
    requires
        m.valid(),
        m.count() + 4 <= u32::MAX,
        !m.names.contains(ABILITY@),
        !m.names.contains(ABILITY_MELEE@),
        !m.names.contains(ABILITY_RANGED@),
        !m.names.contains(ABILITY_MAGIC@),
    ensures
        m.after_ability_tags().names == m.names + seq![ABILITY@, ABILITY_MELEE@, ABILITY_RANGED@, ABILITY_MAGIC@],
        m.after_ability_tags().parents == m.parents.insert((m.count() + 1) as u32, (m.count() + 0) as u32).insert((m.count() + 2) as u32, (m.count() + 0) as u32).insert((m.count() + 3) as u32, (m.count() + 0) as u32),
        m.after_ability_tags().valid(),
        forall|k: u32| k < m.count() ==> #[trigger] m.after_ability_tags().parent_of(k) == m.parent_of(k),
        m.after_ability_tags().parent_of((m.count() + 0) as u32) == None::<u32>,
        m.after_ability_tags().parent_of((m.count() + 1) as u32) == Some((m.count() + 0) as u32),
        m.after_ability_tags().parent_of((m.count() + 2) as u32) == Some((m.count() + 0) as u32),
        m.after_ability_tags().parent_of((m.count() + 3) as u32) == Some((m.count() + 0) as u32),
{
    reveal(TagRegistryModel::after_ability_tags);
    lemma_common_tag_texts();
    let m0 = m;
    assert(!m0.names.contains(ABILITY@)) by {
        if m0.names.contains(ABILITY@) {
            let k = choose|k: int| 0 <= k < m0.names.len() && m0.names[k] == ABILITY@;
            if k >= m.names.len() { assert(m0.names[k] == seq![ABILITY@, ABILITY_MELEE@, ABILITY_RANGED@, ABILITY_MAGIC@][k - m.names.len()]); } else { assert(m0.names[k] == m.names[k]); }
        }
    }
    lemma_register_fresh(m0, ABILITY@, None, 0);
    let m1 = m0.after_register(ABILITY@, None);
    assert(m1.names =~= m.names + seq![ABILITY@, ABILITY_MELEE@, ABILITY_RANGED@, ABILITY_MAGIC@].subrange(0, 1));
    assert(!m1.names.contains(ABILITY_MELEE@)) by {
        if m1.names.contains(ABILITY_MELEE@) {
            let k = choose|k: int| 0 <= k < m1.names.len() && m1.names[k] == ABILITY_MELEE@;
            if k >= m.names.len() { assert(m1.names[k] == seq![ABILITY@, ABILITY_MELEE@, ABILITY_RANGED@, ABILITY_MAGIC@][k - m.names.len()]); } else { assert(m1.names[k] == m.names[k]); }
        }
    }
    assert(m1.names[(m.count() + 0) as int] == ABILITY@);
    lemma_register_fresh(m1, ABILITY_MELEE@, Some(ABILITY@), (m.count() + 0) as int);
    let m2 = m1.after_register(ABILITY_MELEE@, Some(ABILITY@));
    assert(m2.names =~= m.names + seq![ABILITY@, ABILITY_MELEE@, ABILITY_RANGED@, ABILITY_MAGIC@].subrange(0, 2));
    assert(!m2.names.contains(ABILITY_RANGED@)) by {
        if m2.names.contains(ABILITY_RANGED@) {
            let k = choose|k: int| 0 <= k < m2.names.len() && m2.names[k] == ABILITY_RANGED@;
            if k >= m.names.len() { assert(m2.names[k] == seq![ABILITY@, ABILITY_MELEE@, ABILITY_RANGED@, ABILITY_MAGIC@][k - m.names.len()]); } else { assert(m2.names[k] == m.names[k]); }
        }
    }
    assert(m2.names[(m.count() + 0) as int] == ABILITY@);
    lemma_register_fresh(m2, ABILITY_RANGED@, Some(ABILITY@), (m.count() + 0) as int);
    let m3 = m2.after_register(ABILITY_RANGED@, Some(ABILITY@));
    assert(m3.names =~= m.names + seq![ABILITY@, ABILITY_MELEE@, ABILITY_RANGED@, ABILITY_MAGIC@].subrange(0, 3));
    assert(!m3.names.contains(ABILITY_MAGIC@)) by {
        if m3.names.contains(ABILITY_MAGIC@) {
            let k = choose|k: int| 0 <= k < m3.names.len() && m3.names[k] == ABILITY_MAGIC@;
            if k >= m.names.len() { assert(m3.names[k] == seq![ABILITY@, ABILITY_MELEE@, ABILITY_RANGED@, ABILITY_MAGIC@][k - m.names.len()]); } else { assert(m3.names[k] == m.names[k]); }
        }
    }
    assert(m3.names[(m.count() + 0) as int] == ABILITY@);
    lemma_register_fresh(m3, ABILITY_MAGIC@, Some(ABILITY@), (m.count() + 0) as int);
    let m4 = m3.after_register(ABILITY_MAGIC@, Some(ABILITY@));
    assert(m4.names =~= m.names + seq![ABILITY@, ABILITY_MELEE@, ABILITY_RANGED@, ABILITY_MAGIC@].subrange(0, 4));
    assert(m4.names =~= m.names + seq![ABILITY@, ABILITY_MELEE@, ABILITY_RANGED@, ABILITY_MAGIC@]);
}

/// Registering the resistance family into a registry that holds none of its names
/// appends the names in order and links each member to its parent.
proof fn lemma_resistance_family_fresh(m: TagRegistryModel)
    requires
        m.valid(),
        m.count() + 4 <= u32::MAX,
        !m.names.contains(RESISTANCE@),
        !m.names.contains(RESISTANCE_FIRE@),
        !m.names.contains(RESISTANCE_ICE@),
        !m.names.contains(RESISTANCE_PHYSICAL@),
    ensures
        m.after_resistance_tags().names == m.names + seq![RESISTANCE@, RESISTANCE_FIRE@, RESISTANCE_ICE@, RESISTANCE_PHYSICAL@],
        m.after_resistance_tags().parents == m.parents.insert((m.count() + 1) as u32, (m.count() + 0) as u32).insert((m.count() + 2) as u32, (m.count() + 0) as u32).insert((m.count() + 3) as u32, (m.count() + 0) as u32),
        m.after_resistance_tags().valid(),
        forall|k: u32| k < m.count() ==> #[trigger] m.after_resistance_tags().parent_of(k) == m.parent_of(k),
        m.after_resistance_tags().parent_of((m.count() + 0) as u32) == None::<u32>,
        m.after_resistance_tags().parent_of((m.count() + 1) as u32) == Some((m.count() + 0) as u32),
        m.after_resistance_tags().parent_of((m.count() + 2) as u32) == Some((m.count() + 0) as u32),
        m.after_resistance_tags().parent_of((m.count() + 3) as u32) == Some((m.count() + 0) as u32),
{
    reveal(TagRegistryModel::after_resistance_tags);
    lemma_common_tag_texts();
    let m0 = m;
    assert(!m0.names.contains(RESISTANCE@)) by {
        if m0.names.contains(RESISTANCE@) {
            let k = choose|k: int| 0 <= k < m0.names.len() && m0.names[k] == RESISTANCE@;
            if k >= m.names.len() { assert(m0.names[k] == seq![RESISTANCE@, RESISTANCE_FIRE@, RESISTANCE_ICE@, RESISTANCE_PHYSICAL@][k - m.names.len()]); } else { assert(m0.names[k] == m.names[k]); }
        }
    }
    lemma_register_fresh(m0, RESISTANCE@, None, 0);
    let m1 = m0.after_register(RESISTANCE@, None);
    assert(m1.names =~= m.names + seq![RESISTANCE@, RESISTANCE_FIRE@, RESISTANCE_ICE@, RESISTANCE_PHYSICAL@].subrange(0, 1));
    assert(!m1.names.contains(RESISTANCE_FIRE@)) by {
        if m1.names.contains(RESISTANCE_FIRE@) {
            let k = choose|k: int| 0 <= k < m1.names.len() && m1.names[k] == RESISTANCE_FIRE@;
            if k >= m.names.len() { assert(m1.names[k] == seq![RESISTANCE@, RESISTANCE_FIRE@, RESISTANCE_ICE@, RESISTANCE_PHYSICAL@][k - m.names.len()]); } else { assert(m1.names[k] == m.names[k]); }
        }
    }
    assert(m1.names[(m.count() + 0) as int] == RESISTANCE@);
    lemma_register_fresh(m1, RESISTANCE_FIRE@, Some(RESISTANCE@), (m.count() + 0) as int);
    let m2 = m1.after_register(RESISTANCE_FIRE@, Some(RESISTANCE@));
    assert(m2.names =~= m.names + seq![RESISTANCE@, RESISTANCE_FIRE@, RESISTANCE_ICE@, RESISTANCE_PHYSICAL@].subrange(0, 2));
    assert(!m2.names.contains(RESISTANCE_ICE@)) by {
        if m2.names.contains(RESISTANCE_ICE@) {
            let k = choose|k: int| 0 <= k < m2.names.len() && m2.names[k] == RESISTANCE_ICE@;
            if k >= m.names.len() { assert(m2.names[k] == seq![RESISTANCE@, RESISTANCE_FIRE@, RESISTANCE_ICE@, RESISTANCE_PHYSICAL@][k - m.names.len()]); } else { assert(m2.names[k] == m.names[k]); }
        }
    }
    assert(m2.names[(m.count() + 0) as int] == RESISTANCE@);
    lemma_register_fresh(m2, RESISTANCE_ICE@, Some(RESISTANCE@), (m.count() + 0) as int);
    let m3 = m2.after_register(RESISTANCE_ICE@, Some(RESISTANCE@));
    assert(m3.names =~= m.names + seq![RESISTANCE@, RESISTANCE_FIRE@, RESISTANCE_ICE@, RESISTANCE_PHYSICAL@].subrange(0, 3));
    assert(!m3.names.contains(RESISTANCE_PHYSICAL@)) by {
        if m3.names.contains(RESISTANCE_PHYSICAL@) {
            let k = choose|k: int| 0 <= k < m3.names.len() && m3.names[k] == RESISTANCE_PHYSICAL@;
            if k >= m.names.len() { assert(m3.names[k] == seq![RESISTANCE@, RESISTANCE_FIRE@, RESISTANCE_ICE@, RESISTANCE_PHYSICAL@][k - m.names.len()]); } else { assert(m3.names[k] == m.names[k]); }
        }
    }
    assert(m3.names[(m.count() + 0) as int] == RESISTANCE@);
    lemma_register_fresh(m3, RESISTANCE_PHYSICAL@, Some(RESISTANCE@), (m.count() + 0) as int);
    let m4 = m3.after_register(RESISTANCE_PHYSICAL@, Some(RESISTANCE@));
    assert(m4.names =~= m.names + seq![RESISTANCE@, RESISTANCE_FIRE@, RESISTANCE_ICE@, RESISTANCE_PHYSICAL@].subrange(0, 4));
    assert(m4.names =~= m.names + seq![RESISTANCE@, RESISTANCE_FIRE@, RESISTANCE_ICE@, RESISTANCE_PHYSICAL@]);
}

/// After the damage family, none of the later families' names is registered yet.
proof fn lemma_later_names_fresh_after_damage(m: TagRegistryModel)
    requires
        m.valid(),
        m.count() + 26 <= u32::MAX,
        !m.names.contains(DAMAGE@),
        !m.names.contains(DAMAGE_TYPE@),
        !m.names.contains(DAMAGE_TYPE_PHYSICAL@),
        !m.names.contains(DAMAGE_TYPE_FIRE@),
        !m.names.contains(DAMAGE_TYPE_ICE@),
        !m.names.contains(DAMAGE_TYPE_LIGHTNING@),
        !m.names.contains(DAMAGE_TYPE_POISON@),
        !m.names.contains(STATUS@),
        !m.names.contains(STATUS_STUNNED@),
        !m.names.contains(STATUS_BURNING@),
        !m.names.contains(STATUS_FROZEN@),
        !m.names.contains(STATUS_POISONED@),
        !m.names.contains(STATUS_SLOWED@),
        !m.names.contains(FACTION@),
        !m.names.contains(FACTION_PLAYER@),
        !m.names.contains(FACTION_ENEMY@),
        !m.names.contains(FACTION_NEUTRAL@),
        !m.names.contains(FACTION_ALLY@),
        !m.names.contains(ABILITY@),
        !m.names.contains(ABILITY_MELEE@),
        !m.names.contains(ABILITY_RANGED@),
        !m.names.contains(ABILITY_MAGIC@),
        !m.names.contains(RESISTANCE@),
        !m.names.contains(RESISTANCE_FIRE@),
        !m.names.contains(RESISTANCE_ICE@),
        !m.names.contains(RESISTANCE_PHYSICAL@),
    ensures
        !m.after_damage_tags().names.contains(STATUS@),
        !m.after_damage_tags().names.contains(STATUS_STUNNED@),
        !m.after_damage_tags().names.contains(STATUS_BURNING@),
        !m.after_damage_tags().names.contains(STATUS_FROZEN@),
        !m.after_damage_tags().names.contains(STATUS_POISONED@),
        !m.after_damage_tags().names.contains(STATUS_SLOWED@),
        !m.after_damage_tags().names.contains(FACTION@),
        !m.after_damage_tags().names.contains(FACTION_PLAYER@),
        !m.after_damage_tags().names.contains(FACTION_ENEMY@),
        !m.after_damage_tags().names.contains(FACTION_NEUTRAL@),
        !m.after_damage_tags().names.contains(FACTION_ALLY@),
        !m.after_damage_tags().names.contains(ABILITY@),
        !m.after_damage_tags().names.contains(ABILITY_MELEE@),
        !m.after_damage_tags().names.contains(ABILITY_RANGED@),
        !m.after_damage_tags().names.contains(ABILITY_MAGIC@),
        !m.after_damage_tags().names.contains(RESISTANCE@),
        !m.after_damage_tags().names.contains(RESISTANCE_FIRE@),
        !m.after_damage_tags().names.contains(RESISTANCE_ICE@),
        !m.after_damage_tags().names.contains(RESISTANCE_PHYSICAL@),
{
    lemma_common_tag_texts();
    let own: Seq<Seq<char>> = seq![DAMAGE@, DAMAGE_TYPE@, DAMAGE_TYPE_PHYSICAL@, DAMAGE_TYPE_FIRE@, DAMAGE_TYPE_ICE@, DAMAGE_TYPE_LIGHTNING@, DAMAGE_TYPE_POISON@];
    assert forall|k: int| 0 <= k < own.len() implies #[trigger] own[k][0] == 'D' && own[k].len() > 0 by {
        if k == 0 { assert(own[k] == DAMAGE@); } else if k == 1 { assert(own[k] == DAMAGE_TYPE@); } else if k == 2 { assert(own[k] == DAMAGE_TYPE_PHYSICAL@); } else if k == 3 { assert(own[k] == DAMAGE_TYPE_FIRE@); } else if k == 4 { assert(own[k] == DAMAGE_TYPE_ICE@); } else if k == 5 { assert(own[k] == DAMAGE_TYPE_LIGHTNING@); } else if k == 6 { assert(own[k] == DAMAGE_TYPE_POISON@); } else {}
    }
    lemma_damage_family_fresh(m);
    let m1 = m.after_damage_tags();
    lemma_fresh_after_family(m.names, own, m1.names, STATUS@);
    lemma_fresh_after_family(m.names, own, m1.names, STATUS_STUNNED@);
    lemma_fresh_after_family(m.names, own, m1.names, STATUS_BURNING@);
    lemma_fresh_after_family(m.names, own, m1.names, STATUS_FROZEN@);
    lemma_fresh_after_family(m.names, own, m1.names, STATUS_POISONED@);
    lemma_fresh_after_family(m.names, own, m1.names, STATUS_SLOWED@);
    lemma_fresh_after_family(m.names, own, m1.names, FACTION@);
    lemma_fresh_after_family(m.names, own, m1.names, FACTION_PLAYER@);
    lemma_fresh_after_family(m.names, own, m1.names, FACTION_ENEMY@);
    lemma_fresh_after_family(m.names, own, m1.names, FACTION_NEUTRAL@);
    lemma_fresh_after_family(m.names, own, m1.names, FACTION_ALLY@);
    lemma_fresh_after_family(m.names, own, m1.names, ABILITY@);
    lemma_fresh_after_family(m.names, own, m1.names, ABILITY_MELEE@);
    lemma_fresh_after_family(m.names, own, m1.names, ABILITY_RANGED@);
    lemma_fresh_after_family(m.names, own, m1.names, ABILITY_MAGIC@);
    lemma_fresh_after_family(m.names, own, m1.names, RESISTANCE@);
    lemma_fresh_after_family(m.names, own, m1.names, RESISTANCE_FIRE@);
    lemma_fresh_after_family(m.names, own, m1.names, RESISTANCE_ICE@);
    lemma_fresh_after_family(m.names, own, m1.names, RESISTANCE_PHYSICAL@);
}

/// Registering the common tag families from the damage family on, into a
/// registry that holds none of their names, appends the names in order and
/// links each one as the hierarchy says.
proof fn lemma_common_suffix_damage(m: TagRegistryModel)
    requires
        m.valid(),
        m.count() + 26 <= u32::MAX,
        !m.names.contains(DAMAGE@),
        !m.names.contains(DAMAGE_TYPE@),
        !m.names.contains(DAMAGE_TYPE_PHYSICAL@),
        !m.names.contains(DAMAGE_TYPE_FIRE@),
        !m.names.contains(DAMAGE_TYPE_ICE@),
        !m.names.contains(DAMAGE_TYPE_LIGHTNING@),
        !m.names.contains(DAMAGE_TYPE_POISON@),
        !m.names.contains(STATUS@),
        !m.names.contains(STATUS_STUNNED@),
        !m.names.contains(STATUS_BURNING@),
        !m.names.contains(STATUS_FROZEN@),
        !m.names.contains(STATUS_POISONED@),
        !m.names.contains(STATUS_SLOWED@),
        !m.names.contains(FACTION@),
        !m.names.contains(FACTION_PLAYER@),
        !m.names.contains(FACTION_ENEMY@),
        !m.names.contains(FACTION_NEUTRAL@),
        !m.names.contains(FACTION_ALLY@),
        !m.names.contains(ABILITY@),
        !m.names.contains(ABILITY_MELEE@),
        !m.names.contains(ABILITY_RANGED@),
        !m.names.contains(ABILITY_MAGIC@),
        !m.names.contains(RESISTANCE@),
        !m.names.contains(RESISTANCE_FIRE@),
        !m.names.contains(RESISTANCE_ICE@),
        !m.names.contains(RESISTANCE_PHYSICAL@),
    ensures
        m.after_damage_tags().after_status_tags().after_faction_tags().after_ability_tags().after_resistance_tags().names == m.names + seq![DAMAGE@, DAMAGE_TYPE@, DAMAGE_TYPE_PHYSICAL@, DAMAGE_TYPE_FIRE@, DAMAGE_TYPE_ICE@, DAMAGE_TYPE_LIGHTNING@, DAMAGE_TYPE_POISON@, STATUS@, STATUS_STUNNED@, STATUS_BURNING@, STATUS_FROZEN@, STATUS_POISONED@, STATUS_SLOWED@, FACTION@, FACTION_PLAYER@, FACTION_ENEMY@, FACTION_NEUTRAL@, FACTION_ALLY@, ABILITY@, ABILITY_MELEE@, ABILITY_RANGED@, ABILITY_MAGIC@, RESISTANCE@, RESISTANCE_FIRE@, RESISTANCE_ICE@, RESISTANCE_PHYSICAL@],
        m.after_damage_tags().after_status_tags().after_faction_tags().after_ability_tags().after_resistance_tags().valid(),
        forall|k: u32| k < m.count() ==> #[trigger] m.after_damage_tags().after_status_tags().after_faction_tags().after_ability_tags().after_resistance_tags().parent_of(k) == m.parent_of(k),
        m.after_damage_tags().after_status_tags().after_faction_tags().after_ability_tags().after_resistance_tags().parent_of((m.count() + 0) as u32) == None::<u32>,
        m.after_damage_tags().after_status_tags().after_faction_tags().after_ability_tags().after_resistance_tags().parent_of((m.count() + 1) as u32) == Some((m.count() + 0) as u32),
        m.after_damage_tags().after_status_tags().after_faction_tags().after_ability_tags().after_resistance_tags().parent_of((m.count() + 2) as u32) == Some((m.count() + 1) as u32),
        m.after_damage_tags().after_status_tags().after_faction_tags().after_ability_tags().after_resistance_tags().parent_of((m.count() + 3) as u32) == Some((m.count() + 1) as u32),
        m.after_damage_tags().after_status_tags().after_faction_tags().after_ability_tags().after_resistance_tags().parent_of((m.count() + 4) as u32) == Some((m.count() + 1) as u32),
        m.after_damage_tags().after_status_tags().after_faction_tags().after_ability_tags().after_resistance_tags().parent_of((m.count() + 5) as u32) == Some((m.count() + 1) as u32),
        m.after_damage_tags().after_status_tags().after_faction_tags().after_ability_tags().after_resistance_tags().parent_of((m.count() + 6) as u32) == Some((m.count() + 1) as u32),
        m.after_damage_tags().after_status_tags().after_faction_tags().after_ability_tags().after_resistance_tags().parent_of((m.count() + 7) as u32) == None::<u32>,
        m.after_damage_tags().after_status_tags().after_faction_tags().after_ability_tags().after_resistance_tags().parent_of((m.count() + 8) as u32) == Some((m.count() + 7) as u32),
        m.after_damage_tags().after_status_tags().after_faction_tags().after_ability_tags().after_resistance_tags().parent_of((m.count() + 9) as u32) == Some((m.count() + 7) as u32),
        m.after_damage_tags().after_status_tags().after_faction_tags().after_ability_tags().after_resistance_tags().parent_of((m.count() + 10) as u32) == Some((m.count() + 7) as u32),
        m.after_damage_tags().after_status_tags().after_faction_tags().after_ability_tags().after_resistance_tags().parent_of((m.count() + 11) as u32) == Some((m.count() + 7) as u32),
        m.after_damage_tags().after_status_tags().after_faction_tags().after_ability_tags().after_resistance_tags().parent_of((m.count() + 12) as u32) == Some((m.count() + 7) as u32),
        m.after_damage_tags().after_status_tags().after_faction_tags().after_ability_tags().after_resistance_tags().parent_of((m.count() + 13) as u32) == None::<u32>,
        m.after_damage_tags().after_status_tags().after_faction_tags().after_ability_tags().after_resistance_tags().parent_of((m.count() + 14) as u32) == Some((m.count() + 13) as u32),
        m.after_damage_tags().after_status_tags().after_faction_tags().after_ability_tags().after_resistance_tags().parent_of((m.count() + 15) as u32) == Some((m.count() + 13) as u32),
        m.after_damage_tags().after_status_tags().after_faction_tags().after_ability_tags().after_resistance_tags().parent_of((m.count() + 16) as u32) == Some((m.count() + 13) as u32),
        m.after_damage_tags().after_status_tags().after_faction_tags().after_ability_tags().after_resistance_tags().parent_of((m.count() + 17) as u32) == Some((m.count() + 13) as u32),
        m.after_damage_tags().after_status_tags().after_faction_tags().after_ability_tags().after_resistance_tags().parent_of((m.count() + 18) as u32) == None::<u32>,
        m.after_damage_tags().after_status_tags().after_faction_tags().after_ability_tags().after_resistance_tags().parent_of((m.count() + 19) as u32) == Some((m.count() + 18) as u32),
        m.after_damage_tags().after_status_tags().after_faction_tags().after_ability_tags().after_resistance_tags().parent_of((m.count() + 20) as u32) == Some((m.count() + 18) as u32),
        m.after_damage_tags().after_status_tags().after_faction_tags().after_ability_tags().after_resistance_tags().parent_of((m.count() + 21) as u32) == Some((m.count() + 18) as u32),
        m.after_damage_tags().after_status_tags().after_faction_tags().after_ability_tags().after_resistance_tags().parent_of((m.count() + 22) as u32) == None::<u32>,
        m.after_damage_tags().after_status_tags().after_faction_tags().after_ability_tags().after_resistance_tags().parent_of((m.count() + 23) as u32) == Some((m.count() + 22) as u32),
        m.after_damage_tags().after_status_tags().after_faction_tags().after_ability_tags().after_resistance_tags().parent_of((m.count() + 24) as u32) == Some((m.count() + 22) as u32),
        m.after_damage_tags().after_status_tags().after_faction_tags().after_ability_tags().after_resistance_tags().parent_of((m.count() + 25) as u32) == Some((m.count() + 22) as u32),
{
    lemma_damage_family_fresh(m);
    let m1 = m.after_damage_tags();
    lemma_later_names_fresh_after_damage(m);
    lemma_common_suffix_status(m1);
    assert(m1.count() == m.count() + 7);
    assert(m1.names + seq![STATUS@, STATUS_STUNNED@, STATUS_BURNING@, STATUS_FROZEN@, STATUS_POISONED@, STATUS_SLOWED@, FACTION@, FACTION_PLAYER@, FACTION_ENEMY@, FACTION_NEUTRAL@, FACTION_ALLY@, ABILITY@, ABILITY_MELEE@, ABILITY_RANGED@, ABILITY_MAGIC@, RESISTANCE@, RESISTANCE_FIRE@, RESISTANCE_ICE@, RESISTANCE_PHYSICAL@] =~= m.names + seq![DAMAGE@, DAMAGE_TYPE@, DAMAGE_TYPE_PHYSICAL@, DAMAGE_TYPE_FIRE@, DAMAGE_TYPE_ICE@, DAMAGE_TYPE_LIGHTNING@, DAMAGE_TYPE_POISON@, STATUS@, STATUS_STUNNED@, STATUS_BURNING@, STATUS_FROZEN@, STATUS_POISONED@, STATUS_SLOWED@, FACTION@, FACTION_PLAYER@, FACTION_ENEMY@, FACTION_NEUTRAL@, FACTION_ALLY@, ABILITY@, ABILITY_MELEE@, ABILITY_RANGED@, ABILITY_MAGIC@, RESISTANCE@, RESISTANCE_FIRE@, RESISTANCE_ICE@, RESISTANCE_PHYSICAL@]);
}

/// After the status family, none of the later families' names is registered yet.
proof fn lemma_later_names_fresh_after_status(m: TagRegistryModel)
    requires
        m.valid(),
        m.count() + 19 <= u32::MAX,
        !m.names.contains(STATUS@),
        !m.names.contains(STATUS_STUNNED@),
        !m.names.contains(STATUS_BURNING@),
        !m.names.contains(STATUS_FROZEN@),
        !m.names.contains(STATUS_POISONED@),
        !m.names.contains(STATUS_SLOWED@),
        !m.names.contains(FACTION@),
        !m.names.contains(FACTION_PLAYER@),
        !m.names.contains(FACTION_ENEMY@),
        !m.names.contains(FACTION_NEUTRAL@),
        !m.names.contains(FACTION_ALLY@),
        !m.names.contains(ABILITY@),
        !m.names.contains(ABILITY_MELEE@),
        !m.names.contains(ABILITY_RANGED@),
        !m.names.contains(ABILITY_MAGIC@),
        !m.names.contains(RESISTANCE@),
        !m.names.contains(RESISTANCE_FIRE@),
        !m.names.contains(RESISTANCE_ICE@),
        !m.names.contains(RESISTANCE_PHYSICAL@),
    ensures
        !m.after_status_tags().names.contains(FACTION@),
        !m.after_status_tags().names.contains(FACTION_PLAYER@),
        !m.after_status_tags().names.contains(FACTION_ENEMY@),
        !m.after_status_tags().names.contains(FACTION_NEUTRAL@),
        !m.after_status_tags().names.contains(FACTION_ALLY@),
        !m.after_status_tags().names.contains(ABILITY@),
        !m.after_status_tags().names.contains(ABILITY_MELEE@),
        !m.after_status_tags().names.contains(ABILITY_RANGED@),
        !m.after_status_tags().names.contains(ABILITY_MAGIC@),
        !m.after_status_tags().names.contains(RESISTANCE@),
        !m.after_status_tags().names.contains(RESISTANCE_FIRE@),
        !m.after_status_tags().names.contains(RESISTANCE_ICE@),
        !m.after_status_tags().names.contains(RESISTANCE_PHYSICAL@),
{
    lemma_common_tag_texts();
    let own: Seq<Seq<char>> = seq![STATUS@, STATUS_STUNNED@, STATUS_BURNING@, STATUS_FROZEN@, STATUS_POISONED@, STATUS_SLOWED@];
    assert forall|k: int| 0 <= k < own.len() implies #[trigger] own[k][0] == 'S' && own[k].len() > 0 by {
        if k == 0 { assert(own[k] == STATUS@); } else if k == 1 { assert(own[k] == STATUS_STUNNED@); } else if k == 2 { assert(own[k] == STATUS_BURNING@); } else if k == 3 { assert(own[k] == STATUS_FROZEN@); } else if k == 4 { assert(own[k] == STATUS_POISONED@); } else if k == 5 { assert(own[k] == STATUS_SLOWED@); } else {}
    }
    lemma_status_family_fresh(m);
    let m1 = m.after_status_tags();
    lemma_fresh_after_family(m.names, own, m1.names, FACTION@);
    lemma_fresh_after_family(m.names, own, m1.names, FACTION_PLAYER@);
    lemma_fresh_after_family(m.names, own, m1.names, FACTION_ENEMY@);
    lemma_fresh_after_family(m.names, own, m1.names, FACTION_NEUTRAL@);
    lemma_fresh_after_family(m.names, own, m1.names, FACTION_ALLY@);
    lemma_fresh_after_family(m.names, own, m1.names, ABILITY@);
    lemma_fresh_after_family(m.names, own, m1.names, ABILITY_MELEE@);
    lemma_fresh_after_family(m.names, own, m1.names, ABILITY_RANGED@);
    lemma_fresh_after_family(m.names, own, m1.names, ABILITY_MAGIC@);
    lemma_fresh_after_family(m.names, own, m1.names, RESISTANCE@);
    lemma_fresh_after_family(m.names, own, m1.names, RESISTANCE_FIRE@);
    lemma_fresh_after_family(m.names, own, m1.names, RESISTANCE_ICE@);
    lemma_fresh_after_family(m.names, own, m1.names, RESISTANCE_PHYSICAL@);
}

/// Registering the common tag families from the status family on, into a
/// registry that holds none of their names, appends the names in order and
/// links each one as the hierarchy says.
proof fn lemma_common_suffix_status(m: TagRegistryModel)
    requires
        m.valid(),
        m.count() + 19 <= u32::MAX,
        !m.names.contains(STATUS@),
        !m.names.contains(STATUS_STUNNED@),
        !m.names.contains(STATUS_BURNING@),
        !m.names.contains(STATUS_FROZEN@),
        !m.names.contains(STATUS_POISONED@),
        !m.names.contains(STATUS_SLOWED@),
        !m.names.contains(FACTION@),
        !m.names.contains(FACTION_PLAYER@),
        !m.names.contains(FACTION_ENEMY@),
        !m.names.contains(FACTION_NEUTRAL@),
        !m.names.contains(FACTION_ALLY@),
        !m.names.contains(ABILITY@),
        !m.names.contains(ABILITY_MELEE@),
        !m.names.contains(ABILITY_RANGED@),
        !m.names.contains(ABILITY_MAGIC@),
        !m.names.contains(RESISTANCE@),
        !m.names.contains(RESISTANCE_FIRE@),
        !m.names.contains(RESISTANCE_ICE@),
        !m.names.contains(RESISTANCE_PHYSICAL@),
    ensures
        m.after_status_tags().after_faction_tags().after_ability_tags().after_resistance_tags().names == m.names + seq![STATUS@, STATUS_STUNNED@, STATUS_BURNING@, STATUS_FROZEN@, STATUS_POISONED@, STATUS_SLOWED@, FACTION@, FACTION_PLAYER@, FACTION_ENEMY@, FACTION_NEUTRAL@, FACTION_ALLY@, ABILITY@, ABILITY_MELEE@, ABILITY_RANGED@, ABILITY_MAGIC@, RESISTANCE@, RESISTANCE_FIRE@, RESISTANCE_ICE@, RESISTANCE_PHYSICAL@],
        m.after_status_tags().after_faction_tags().after_ability_tags().after_resistance_tags().valid(),
        forall|k: u32| k < m.count() ==> #[trigger] m.after_status_tags().after_faction_tags().after_ability_tags().after_resistance_tags().parent_of(k) == m.parent_of(k),
        m.after_status_tags().after_faction_tags().after_ability_tags().after_resistance_tags().parent_of((m.count() + 0) as u32) == None::<u32>,
        m.after_status_tags().after_faction_tags().after_ability_tags().after_resistance_tags().parent_of((m.count() + 1) as u32) == Some((m.count() + 0) as u32),
        m.after_status_tags().after_faction_tags().after_ability_tags().after_resistance_tags().parent_of((m.count() + 2) as u32) == Some((m.count() + 0) as u32),
        m.after_status_tags().after_faction_tags().after_ability_tags().after_resistance_tags().parent_of((m.count() + 3) as u32) == Some((m.count() + 0) as u32),
        m.after_status_tags().after_faction_tags().after_ability_tags().after_resistance_tags().parent_of((m.count() + 4) as u32) == Some((m.count() + 0) as u32),
        m.after_status_tags().after_faction_tags().after_ability_tags().after_resistance_tags().parent_of((m.count() + 5) as u32) == Some((m.count() + 0) as u32),
        m.after_status_tags().after_faction_tags().after_ability_tags().after_resistance_tags().parent_of((m.count() + 6) as u32) == None::<u32>,
        m.after_status_tags().after_faction_tags().after_ability_tags().after_resistance_tags().parent_of((m.count() + 7) as u32) == Some((m.count() + 6) as u32),
        m.after_status_tags().after_faction_tags().after_ability_tags().after_resistance_tags().parent_of((m.count() + 8) as u32) == Some((m.count() + 6) as u32),
        m.after_status_tags().after_faction_tags().after_ability_tags().after_resistance_tags().parent_of((m.count() + 9) as u32) == Some((m.count() + 6) as u32),
        m.after_status_tags().after_faction_tags().after_ability_tags().after_resistance_tags().parent_of((m.count() + 10) as u32) == Some((m.count() + 6) as u32),
        m.after_status_tags().after_faction_tags().after_ability_tags().after_resistance_tags().parent_of((m.count() + 11) as u32) == None::<u32>,
        m.after_status_tags().after_faction_tags().after_ability_tags().after_resistance_tags().parent_of((m.count() + 12) as u32) == Some((m.count() + 11) as u32),
        m.after_status_tags().after_faction_tags().after_ability_tags().after_resistance_tags().parent_of((m.count() + 13) as u32) == Some((m.count() + 11) as u32),
        m.after_status_tags().after_faction_tags().after_ability_tags().after_resistance_tags().parent_of((m.count() + 14) as u32) == Some((m.count() + 11) as u32),
        m.after_status_tags().after_faction_tags().after_ability_tags().after_resistance_tags().parent_of((m.count() + 15) as u32) == None::<u32>,
        m.after_status_tags().after_faction_tags().after_ability_tags().after_resistance_tags().parent_of((m.count() + 16) as u32) == Some((m.count() + 15) as u32),
        m.after_status_tags().after_faction_tags().after_ability_tags().after_resistance_tags().parent_of((m.count() + 17) as u32) == Some((m.count() + 15) as u32),
        m.after_status_tags().after_faction_tags().after_ability_tags().after_resistance_tags().parent_of((m.count() + 18) as u32) == Some((m.count() + 15) as u32),
{
    lemma_status_family_fresh(m);
    let m1 = m.after_status_tags();
    lemma_later_names_fresh_after_status(m);
    lemma_common_suffix_faction(m1);
    assert(m1.count() == m.count() + 6);
    assert(m1.names + seq![FACTION@, FACTION_PLAYER@, FACTION_ENEMY@, FACTION_NEUTRAL@, FACTION_ALLY@, ABILITY@, ABILITY_MELEE@, ABILITY_RANGED@, ABILITY_MAGIC@, RESISTANCE@, RESISTANCE_FIRE@, RESISTANCE_ICE@, RESISTANCE_PHYSICAL@] =~= m.names + seq![STATUS@, STATUS_STUNNED@, STATUS_BURNING@, STATUS_FROZEN@, STATUS_POISONED@, STATUS_SLOWED@, FACTION@, FACTION_PLAYER@, FACTION_ENEMY@, FACTION_NEUTRAL@, FACTION_ALLY@, ABILITY@, ABILITY_MELEE@, ABILITY_RANGED@, ABILITY_MAGIC@, RESISTANCE@, RESISTANCE_FIRE@, RESISTANCE_ICE@, RESISTANCE_PHYSICAL@]);
}

/// After the faction family, none of the later families' names is registered yet.
proof fn lemma_later_names_fresh_after_faction(m: TagRegistryModel)
    requires
        m.valid(),
        m.count() + 13 <= u32::MAX,
        !m.names.contains(FACTION@),
        !m.names.contains(FACTION_PLAYER@),
        !m.names.contains(FACTION_ENEMY@),
        !m.names.contains(FACTION_NEUTRAL@),
        !m.names.contains(FACTION_ALLY@),
        !m.names.contains(ABILITY@),
        !m.names.contains(ABILITY_MELEE@),
        !m.names.contains(ABILITY_RANGED@),
        !m.names.contains(ABILITY_MAGIC@),
        !m.names.contains(RESISTANCE@),
        !m.names.contains(RESISTANCE_FIRE@),
        !m.names.contains(RESISTANCE_ICE@),
        !m.names.contains(RESISTANCE_PHYSICAL@),
    ensures
        !m.after_faction_tags().names.contains(ABILITY@),
        !m.after_faction_tags().names.contains(ABILITY_MELEE@),
        !m.after_faction_tags().names.contains(ABILITY_RANGED@),
        !m.after_faction_tags().names.contains(ABILITY_MAGIC@),
        !m.after_faction_tags().names.contains(RESISTANCE@),
        !m.after_faction_tags().names.contains(RESISTANCE_FIRE@),
        !m.after_faction_tags().names.contains(RESISTANCE_ICE@),
        !m.after_faction_tags().names.contains(RESISTANCE_PHYSICAL@),
{
    lemma_common_tag_texts();
    let own: Seq<Seq<char>> = seq![FACTION@, FACTION_PLAYER@, FACTION_ENEMY@, FACTION_NEUTRAL@, FACTION_ALLY@];
    assert forall|k: int| 0 <= k < own.len() implies #[trigger] own[k][0] == 'F' && own[k].len() > 0 by {
        if k == 0 { assert(own[k] == FACTION@); } else if k == 1 { assert(own[k] == FACTION_PLAYER@); } else if k == 2 { assert(own[k] == FACTION_ENEMY@); } else if k == 3 { assert(own[k] == FACTION_NEUTRAL@); } else if k == 4 { assert(own[k] == FACTION_ALLY@); } else {}
    }
    lemma_faction_family_fresh(m);
    let m1 = m.after_faction_tags();
    lemma_fresh_after_family(m.names, own, m1.names, ABILITY@);
    lemma_fresh_after_family(m.names, own, m1.names, ABILITY_MELEE@);
    lemma_fresh_after_family(m.names, own, m1.names, ABILITY_RANGED@);
    lemma_fresh_after_family(m.names, own, m1.names, ABILITY_MAGIC@);
    lemma_fresh_after_family(m.names, own, m1.names, RESISTANCE@);
    lemma_fresh_after_family(m.names, own, m1.names, RESISTANCE_FIRE@);
    lemma_fresh_after_family(m.names, own, m1.names, RESISTANCE_ICE@);
    lemma_fresh_after_family(m.names, own, m1.names, RESISTANCE_PHYSICAL@);
}

/// Registering the common tag families from the faction family on, into a
/// registry that holds none of their names, appends the names in order and
/// links each one as the hierarchy says.
proof fn lemma_common_suffix_faction(m: TagRegistryModel)
    requires
        m.valid(),
        m.count() + 13 <= u32::MAX,
        !m.names.contains(FACTION@),
        !m.names.contains(FACTION_PLAYER@),
        !m.names.contains(FACTION_ENEMY@),
        !m.names.contains(FACTION_NEUTRAL@),
        !m.names.contains(FACTION_ALLY@),
        !m.names.contains(ABILITY@),
        !m.names.contains(ABILITY_MELEE@),
        !m.names.contains(ABILITY_RANGED@),
        !m.names.contains(ABILITY_MAGIC@),
        !m.names.contains(RESISTANCE@),
        !m.names.contains(RESISTANCE_FIRE@),
        !m.names.contains(RESISTANCE_ICE@),
        !m.names.contains(RESISTANCE_PHYSICAL@),
    ensures
        m.after_faction_tags().after_ability_tags().after_resistance_tags().names == m.names + seq![FACTION@, FACTION_PLAYER@, FACTION_ENEMY@, FACTION_NEUTRAL@, FACTION_ALLY@, ABILITY@, ABILITY_MELEE@, ABILITY_RANGED@, ABILITY_MAGIC@, RESISTANCE@, RESISTANCE_FIRE@, RESISTANCE_ICE@, RESISTANCE_PHYSICAL@],
        m.after_faction_tags().after_ability_tags().after_resistance_tags().valid(),
        forall|k: u32| k < m.count() ==> #[trigger] m.after_faction_tags().after_ability_tags().after_resistance_tags().parent_of(k) == m.parent_of(k),
        m.after_faction_tags().after_ability_tags().after_resistance_tags().parent_of((m.count() + 0) as u32) == None::<u32>,
        m.after_faction_tags().after_ability_tags().after_resistance_tags().parent_of((m.count() + 1) as u32) == Some((m.count() + 0) as u32),
        m.after_faction_tags().after_ability_tags().after_resistance_tags().parent_of((m.count() + 2) as u32) == Some((m.count() + 0) as u32),
        m.after_faction_tags().after_ability_tags().after_resistance_tags().parent_of((m.count() + 3) as u32) == Some((m.count() + 0) as u32),
        m.after_faction_tags().after_ability_tags().after_resistance_tags().parent_of((m.count() + 4) as u32) == Some((m.count() + 0) as u32),
        m.after_faction_tags().after_ability_tags().after_resistance_tags().parent_of((m.count() + 5) as u32) == None::<u32>,
        m.after_faction_tags().after_ability_tags().after_resistance_tags().parent_of((m.count() + 6) as u32) == Some((m.count() + 5) as u32),
        m.after_faction_tags().after_ability_tags().after_resistance_tags().parent_of((m.count() + 7) as u32) == Some((m.count() + 5) as u32),
        m.after_faction_tags().after_ability_tags().after_resistance_tags().parent_of((m.count() + 8) as u32) == Some((m.count() + 5) as u32),
        m.after_faction_tags().after_ability_tags().after_resistance_tags().parent_of((m.count() + 9) as u32) == None::<u32>,
        m.after_faction_tags().after_ability_tags().after_resistance_tags().parent_of((m.count() + 10) as u32) == Some((m.count() + 9) as u32),
        m.after_faction_tags().after_ability_tags().after_resistance_tags().parent_of((m.count() + 11) as u32) == Some((m.count() + 9) as u32),
        m.after_faction_tags().after_ability_tags().after_resistance_tags().parent_of((m.count() + 12) as u32) == Some((m.count() + 9) as u32),
{
    lemma_faction_family_fresh(m);
    let m1 = m.after_faction_tags();
    lemma_later_names_fresh_after_faction(m);
    lemma_common_suffix_ability(m1);
    assert(m1.count() == m.count() + 5);
    assert(m1.names + seq![ABILITY@, ABILITY_MELEE@, ABILITY_RANGED@, ABILITY_MAGIC@, RESISTANCE@, RESISTANCE_FIRE@, RESISTANCE_ICE@, RESISTANCE_PHYSICAL@] =~= m.names + seq![FACTION@, FACTION_PLAYER@, FACTION_ENEMY@, FACTION_NEUTRAL@, FACTION_ALLY@, ABILITY@, ABILITY_MELEE@, ABILITY_RANGED@, ABILITY_MAGIC@, RESISTANCE@, RESISTANCE_FIRE@, RESISTANCE_ICE@, RESISTANCE_PHYSICAL@]);
}

/// After the ability family, none of the later families' names is registered yet.
proof fn lemma_later_names_fresh_after_ability(m: TagRegistryModel)
    requires
        m.valid(),
        m.count() + 8 <= u32::MAX,
        !m.names.contains(ABILITY@),
        !m.names.contains(ABILITY_MELEE@),
        !m.names.contains(ABILITY_RANGED@),
        !m.names.contains(ABILITY_MAGIC@),
        !m.names.contains(RESISTANCE@),
        !m.names.contains(RESISTANCE_FIRE@),
        !m.names.contains(RESISTANCE_ICE@),
        !m.names.contains(RESISTANCE_PHYSICAL@),
    ensures
        !m.after_ability_tags().names.contains(RESISTANCE@),
        !m.after_ability_tags().names.contains(RESISTANCE_FIRE@),
        !m.after_ability_tags().names.contains(RESISTANCE_ICE@),
        !m.after_ability_tags().names.contains(RESISTANCE_PHYSICAL@),
{
    lemma_common_tag_texts();
    let own: Seq<Seq<char>> = seq![ABILITY@, ABILITY_MELEE@, ABILITY_RANGED@, ABILITY_MAGIC@];
    assert forall|k: int| 0 <= k < own.len() implies #[trigger] own[k][0] == 'A' && own[k].len() > 0 by {
        if k == 0 { assert(own[k] == ABILITY@); } else if k == 1 { assert(own[k] == ABILITY_MELEE@); } else if k == 2 { assert(own[k] == ABILITY_RANGED@); } else if k == 3 { assert(own[k] == ABILITY_MAGIC@); } else {}
    }
    lemma_ability_family_fresh(m);
    let m1 = m.after_ability_tags();
    lemma_fresh_after_family(m.names, own, m1.names, RESISTANCE@);
    lemma_fresh_after_family(m.names, own, m1.names, RESISTANCE_FIRE@);
    lemma_fresh_after_family(m.names, own, m1.names, RESISTANCE_ICE@);
    lemma_fresh_after_family(m.names, own, m1.names, RESISTANCE_PHYSICAL@);
}

/// Registering the common tag families from the ability family on, into a
/// registry that holds none of their names, appends the names in order and
/// links each one as the hierarchy says.
proof fn lemma_common_suffix_ability(m: TagRegistryModel)
    requires
        m.valid(),
        m.count() + 8 <= u32::MAX,
        !m.names.contains(ABILITY@),
        !m.names.contains(ABILITY_MELEE@),
        !m.names.contains(ABILITY_RANGED@),
        !m.names.contains(ABILITY_MAGIC@),
        !m.names.contains(RESISTANCE@),
        !m.names.contains(RESISTANCE_FIRE@),
        !m.names.contains(RESISTANCE_ICE@),
        !m.names.contains(RESISTANCE_PHYSICAL@),
    ensures
        m.after_ability_tags().after_resistance_tags().names == m.names + seq![ABILITY@, ABILITY_MELEE@, ABILITY_RANGED@, ABILITY_MAGIC@, RESISTANCE@, RESISTANCE_FIRE@, RESISTANCE_ICE@, RESISTANCE_PHYSICAL@],
        m.after_ability_tags().after_resistance_tags().valid(),
        forall|k: u32| k < m.count() ==> #[trigger] m.after_ability_tags().after_resistance_tags().parent_of(k) == m.parent_of(k),
        m.after_ability_tags().after_resistance_tags().parent_of((m.count() + 0) as u32) == None::<u32>,
        m.after_ability_tags().after_resistance_tags().parent_of((m.count() + 1) as u32) == Some((m.count() + 0) as u32),
        m.after_ability_tags().after_resistance_tags().parent_of((m.count() + 2) as u32) == Some((m.count() + 0) as u32),
        m.after_ability_tags().after_resistance_tags().parent_of((m.count() + 3) as u32) == Some((m.count() + 0) as u32),
        m.after_ability_tags().after_resistance_tags().parent_of((m.count() + 4) as u32) == None::<u32>,
        m.after_ability_tags().after_resistance_tags().parent_of((m.count() + 5) as u32) == Some((m.count() + 4) as u32),
        m.after_ability_tags().after_resistance_tags().parent_of((m.count() + 6) as u32) == Some((m.count() + 4) as u32),
        m.after_ability_tags().after_resistance_tags().parent_of((m.count() + 7) as u32) == Some((m.count() + 4) as u32),
{
    lemma_ability_family_fresh(m);
    let m1 = m.after_ability_tags();
    lemma_later_names_fresh_after_ability(m);
    lemma_common_suffix_resistance(m1);
    assert(m1.count() == m.count() + 4);
    assert(m1.names + seq![RESISTANCE@, RESISTANCE_FIRE@, RESISTANCE_ICE@, RESISTANCE_PHYSICAL@] =~= m.names + seq![ABILITY@, ABILITY_MELEE@, ABILITY_RANGED@, ABILITY_MAGIC@, RESISTANCE@, RESISTANCE_FIRE@, RESISTANCE_ICE@, RESISTANCE_PHYSICAL@]);
}

/// Registering the common tag families from the resistance family on, into a
/// registry that holds none of their names, appends the names in order and
/// links each one as the hierarchy says.
proof fn lemma_common_suffix_resistance(m: TagRegistryModel)
    requires
        m.valid(),
        m.count() + 4 <= u32::MAX,
        !m.names.contains(RESISTANCE@),
        !m.names.contains(RESISTANCE_FIRE@),
        !m.names.contains(RESISTANCE_ICE@),
        !m.names.contains(RESISTANCE_PHYSICAL@),
    ensures
        m.after_resistance_tags().names == m.names + seq![RESISTANCE@, RESISTANCE_FIRE@, RESISTANCE_ICE@, RESISTANCE_PHYSICAL@],
        m.after_resistance_tags().valid(),
        forall|k: u32| k < m.count() ==> #[trigger] m.after_resistance_tags().parent_of(k) == m.parent_of(k),
        m.after_resistance_tags().parent_of((m.count() + 0) as u32) == None::<u32>,
        m.after_resistance_tags().parent_of((m.count() + 1) as u32) == Some((m.count() + 0) as u32),
        m.after_resistance_tags().parent_of((m.count() + 2) as u32) == Some((m.count() + 0) as u32),
        m.after_resistance_tags().parent_of((m.count() + 3) as u32) == Some((m.count() + 0) as u32),
{
    lemma_common_tag_texts();
    let own: Seq<Seq<char>> = seq![RESISTANCE@, RESISTANCE_FIRE@, RESISTANCE_ICE@, RESISTANCE_PHYSICAL@];
    assert forall|k: int| 0 <= k < own.len() implies #[trigger] own[k][0] == 'R' && own[k].len() > 0 by {
        if k == 0 { assert(own[k] == RESISTANCE@); } else if k == 1 { assert(own[k] == RESISTANCE_FIRE@); } else if k == 2 { assert(own[k] == RESISTANCE_ICE@); } else if k == 3 { assert(own[k] == RESISTANCE_PHYSICAL@); } else {}
    }
    lemma_resistance_family_fresh(m);
    let m1 = m.after_resistance_tags();
    assert(m1.names =~= m.names + seq![RESISTANCE@, RESISTANCE_FIRE@, RESISTANCE_ICE@, RESISTANCE_PHYSICAL@]);
}

/// The common tag hierarchy, registered into a registry that holds none of
/// its names, makes each family root a tag without parent and links every
/// other tag to the tag whose name it extends: the damage kinds to
/// `Damage.Type`, `Damage.Type` to `Damage`, and each status, faction, ability
/// and resistance to its family root.
pub proof fn law_common_tags_hierarchy(m: TagRegistryModel)
    requires
        m.valid(),
        m.count() + 26 <= u32::MAX,
        !m.names.contains(DAMAGE@),
        !m.names.contains(DAMAGE_TYPE@),
        !m.names.contains(DAMAGE_TYPE_PHYSICAL@),
        !m.names.contains(DAMAGE_TYPE_FIRE@),
        !m.names.contains(DAMAGE_TYPE_ICE@),
        !m.names.contains(DAMAGE_TYPE_LIGHTNING@),
        !m.names.contains(DAMAGE_TYPE_POISON@),
        !m.names.contains(STATUS@),
        !m.names.contains(STATUS_STUNNED@),
        !m.names.contains(STATUS_BURNING@),
        !m.names.contains(STATUS_FROZEN@),
        !m.names.contains(STATUS_POISONED@),
        !m.names.contains(STATUS_SLOWED@),
        !m.names.contains(FACTION@),
        !m.names.contains(FACTION_PLAYER@),
        !m.names.contains(FACTION_ENEMY@),
        !m.names.contains(FACTION_NEUTRAL@),
        !m.names.contains(FACTION_ALLY@),
        !m.names.contains(ABILITY@),
        !m.names.contains(ABILITY_MELEE@),
        !m.names.contains(ABILITY_RANGED@),
        !m.names.contains(ABILITY_MAGIC@),
        !m.names.contains(RESISTANCE@),
        !m.names.contains(RESISTANCE_FIRE@),
        !m.names.contains(RESISTANCE_ICE@),
        !m.names.contains(RESISTANCE_PHYSICAL@),
    ensures
        (m.after_common_tags().id_of(DAMAGE@) is Some),
        m.after_common_tags().parent_of(m.after_common_tags().id_of(DAMAGE@)->0) == None::<u32>,
        (m.after_common_tags().id_of(DAMAGE_TYPE@) is Some),
        m.after_common_tags().parent_of(m.after_common_tags().id_of(DAMAGE_TYPE@)->0) == m.after_common_tags().id_of(DAMAGE@),
        (m.after_common_tags().id_of(DAMAGE_TYPE_PHYSICAL@) is Some),
        m.after_common_tags().parent_of(m.after_common_tags().id_of(DAMAGE_TYPE_PHYSICAL@)->0) == m.after_common_tags().id_of(DAMAGE_TYPE@),
        (m.after_common_tags().id_of(DAMAGE_TYPE_FIRE@) is Some),
        m.after_common_tags().parent_of(m.after_common_tags().id_of(DAMAGE_TYPE_FIRE@)->0) == m.after_common_tags().id_of(DAMAGE_TYPE@),
        (m.after_common_tags().id_of(DAMAGE_TYPE_ICE@) is Some),
        m.after_common_tags().parent_of(m.after_common_tags().id_of(DAMAGE_TYPE_ICE@)->0) == m.after_common_tags().id_of(DAMAGE_TYPE@),
        (m.after_common_tags().id_of(DAMAGE_TYPE_LIGHTNING@) is Some),
        m.after_common_tags().parent_of(m.after_common_tags().id_of(DAMAGE_TYPE_LIGHTNING@)->0) == m.after_common_tags().id_of(DAMAGE_TYPE@),
        (m.after_common_tags().id_of(DAMAGE_TYPE_POISON@) is Some),
        m.after_common_tags().parent_of(m.after_common_tags().id_of(DAMAGE_TYPE_POISON@)->0) == m.after_common_tags().id_of(DAMAGE_TYPE@),
        (m.after_common_tags().id_of(STATUS@) is Some),
        m.after_common_tags().parent_of(m.after_common_tags().id_of(STATUS@)->0) == None::<u32>,
        (m.after_common_tags().id_of(STATUS_STUNNED@) is Some),
        m.after_common_tags().parent_of(m.after_common_tags().id_of(STATUS_STUNNED@)->0) == m.after_common_tags().id_of(STATUS@),
        (m.after_common_tags().id_of(STATUS_BURNING@) is Some),
        m.after_common_tags().parent_of(m.after_common_tags().id_of(STATUS_BURNING@)->0) == m.after_common_tags().id_of(STATUS@),
        (m.after_common_tags().id_of(STATUS_FROZEN@) is Some),
        m.after_common_tags().parent_of(m.after_common_tags().id_of(STATUS_FROZEN@)->0) == m.after_common_tags().id_of(STATUS@),
        (m.after_common_tags().id_of(STATUS_POISONED@) is Some),
        m.after_common_tags().parent_of(m.after_common_tags().id_of(STATUS_POISONED@)->0) == m.after_common_tags().id_of(STATUS@),
        (m.after_common_tags().id_of(STATUS_SLOWED@) is Some),
        m.after_common_tags().parent_of(m.after_common_tags().id_of(STATUS_SLOWED@)->0) == m.after_common_tags().id_of(STATUS@),
        (m.after_common_tags().id_of(FACTION@) is Some),
        m.after_common_tags().parent_of(m.after_common_tags().id_of(FACTION@)->0) == None::<u32>,
        (m.after_common_tags().id_of(FACTION_PLAYER@) is Some),
        m.after_common_tags().parent_of(m.after_common_tags().id_of(FACTION_PLAYER@)->0) == m.after_common_tags().id_of(FACTION@),
        (m.after_common_tags().id_of(FACTION_ENEMY@) is Some),
        m.after_common_tags().parent_of(m.after_common_tags().id_of(FACTION_ENEMY@)->0) == m.after_common_tags().id_of(FACTION@),
        (m.after_common_tags().id_of(FACTION_NEUTRAL@) is Some),
        m.after_common_tags().parent_of(m.after_common_tags().id_of(FACTION_NEUTRAL@)->0) == m.after_common_tags().id_of(FACTION@),
        (m.after_common_tags().id_of(FACTION_ALLY@) is Some),
        m.after_common_tags().parent_of(m.after_common_tags().id_of(FACTION_ALLY@)->0) == m.after_common_tags().id_of(FACTION@),
        (m.after_common_tags().id_of(ABILITY@) is Some),
        m.after_common_tags().parent_of(m.after_common_tags().id_of(ABILITY@)->0) == None::<u32>,
        (m.after_common_tags().id_of(ABILITY_MELEE@) is Some),
        m.after_common_tags().parent_of(m.after_common_tags().id_of(ABILITY_MELEE@)->0) == m.after_common_tags().id_of(ABILITY@),
        (m.after_common_tags().id_of(ABILITY_RANGED@) is Some),
        m.after_common_tags().parent_of(m.after_common_tags().id_of(ABILITY_RANGED@)->0) == m.after_common_tags().id_of(ABILITY@),
        (m.after_common_tags().id_of(ABILITY_MAGIC@) is Some),
        m.after_common_tags().parent_of(m.after_common_tags().id_of(ABILITY_MAGIC@)->0) == m.after_common_tags().id_of(ABILITY@),
        (m.after_common_tags().id_of(RESISTANCE@) is Some),
        m.after_common_tags().parent_of(m.after_common_tags().id_of(RESISTANCE@)->0) == None::<u32>,
        (m.after_common_tags().id_of(RESISTANCE_FIRE@) is Some),
        m.after_common_tags().parent_of(m.after_common_tags().id_of(RESISTANCE_FIRE@)->0) == m.after_common_tags().id_of(RESISTANCE@),
        (m.after_common_tags().id_of(RESISTANCE_ICE@) is Some),
        m.after_common_tags().parent_of(m.after_common_tags().id_of(RESISTANCE_ICE@)->0) == m.after_common_tags().id_of(RESISTANCE@),
        (m.after_common_tags().id_of(RESISTANCE_PHYSICAL@) is Some),
        m.after_common_tags().parent_of(m.after_common_tags().id_of(RESISTANCE_PHYSICAL@)->0) == m.after_common_tags().id_of(RESISTANCE@),
{
    lemma_common_suffix_damage(m);
    let r = m.after_common_tags();
    assert(r == m.after_damage_tags().after_status_tags().after_faction_tags().after_ability_tags().after_resistance_tags());
    assert(r.names[m.names.len() + 0int] == DAMAGE@);
    lemma_id_at(r, m.names.len() + 0int);
    assert(r.names[m.names.len() + 1int] == DAMAGE_TYPE@);
    lemma_id_at(r, m.names.len() + 1int);
    assert(r.names[m.names.len() + 2int] == DAMAGE_TYPE_PHYSICAL@);
    lemma_id_at(r, m.names.len() + 2int);
    assert(r.names[m.names.len() + 3int] == DAMAGE_TYPE_FIRE@);
    lemma_id_at(r, m.names.len() + 3int);
    assert(r.names[m.names.len() + 4int] == DAMAGE_TYPE_ICE@);
    lemma_id_at(r, m.names.len() + 4int);
    assert(r.names[m.names.len() + 5int] == DAMAGE_TYPE_LIGHTNING@);
    lemma_id_at(r, m.names.len() + 5int);
    assert(r.names[m.names.len() + 6int] == DAMAGE_TYPE_POISON@);
    lemma_id_at(r, m.names.len() + 6int);
    assert(r.names[m.names.len() + 7int] == STATUS@);
    lemma_id_at(r, m.names.len() + 7int);
    assert(r.names[m.names.len() + 8int] == STATUS_STUNNED@);
    lemma_id_at(r, m.names.len() + 8int);
    assert(r.names[m.names.len() + 9int] == STATUS_BURNING@);
    lemma_id_at(r, m.names.len() + 9int);
    assert(r.names[m.names.len() + 10int] == STATUS_FROZEN@);
    lemma_id_at(r, m.names.len() + 10int);
    assert(r.names[m.names.len() + 11int] == STATUS_POISONED@);
    lemma_id_at(r, m.names.len() + 11int);
    assert(r.names[m.names.len() + 12int] == STATUS_SLOWED@);
    lemma_id_at(r, m.names.len() + 12int);
    assert(r.names[m.names.len() + 13int] == FACTION@);
    lemma_id_at(r, m.names.len() + 13int);
    assert(r.names[m.names.len() + 14int] == FACTION_PLAYER@);
    lemma_id_at(r, m.names.len() + 14int);
    assert(r.names[m.names.len() + 15int] == FACTION_ENEMY@);
    lemma_id_at(r, m.names.len() + 15int);
    assert(r.names[m.names.len() + 16int] == FACTION_NEUTRAL@);
    lemma_id_at(r, m.names.len() + 16int);
    assert(r.names[m.names.len() + 17int] == FACTION_ALLY@);
    lemma_id_at(r, m.names.len() + 17int);
    assert(r.names[m.names.len() + 18int] == ABILITY@);
    lemma_id_at(r, m.names.len() + 18int);
    assert(r.names[m.names.len() + 19int] == ABILITY_MELEE@);
    lemma_id_at(r, m.names.len() + 19int);
    assert(r.names[m.names.len() + 20int] == ABILITY_RANGED@);
    lemma_id_at(r, m.names.len() + 20int);
    assert(r.names[m.names.len() + 21int] == ABILITY_MAGIC@);
    lemma_id_at(r, m.names.len() + 21int);
    assert(r.names[m.names.len() + 22int] == RESISTANCE@);
    lemma_id_at(r, m.names.len() + 22int);
    assert(r.names[m.names.len() + 23int] == RESISTANCE_FIRE@);
    lemma_id_at(r, m.names.len() + 23int);
    assert(r.names[m.names.len() + 24int] == RESISTANCE_ICE@);
    lemma_id_at(r, m.names.len() + 24int);
    assert(r.names[m.names.len() + 25int] == RESISTANCE_PHYSICAL@);
    lemma_id_at(r, m.names.len() + 25int);
}

/// A name that is not among `base` and does not start with the letter that
/// every appended name starts with is not among the combined names.
proof fn lemma_fresh_after_family(base: Seq<Seq<char>>, appended: Seq<Seq<char>>, all: Seq<Seq<char>>, x: Seq<char>)
    requires
        all == base + appended,
        !base.contains(x),
        x.len() > 0,
        forall|k: int| 0 <= k < appended.len() ==> appended[k].len() > 0 && #[trigger] appended[k][0] != x[0],
    ensures
        !all.contains(x),
{
    if all.contains(x) {
        let k = choose|k: int| 0 <= k < all.len() && all[k] == x;
        if k < base.len() {
            assert(base[k] == x);
            assert(base.contains(x));
        } else {
            let j = k - base.len();
            assert(appended[j] == x);
            assert(appended[j][0] == x[0]);
        }
    }
}

/// A sequence of references without repeats dereferences to values without repeats.
proof fn lemma_unref_no_duplicates(s: Seq<&u32>)
    requires
        s.no_duplicates(),
    ensures
        s.unref().no_duplicates(),
{
    let u = s.unref();
    assert forall|i: int, j: int| 0 <= i < u.len() && 0 <= j < u.len() && i != j implies u[i] != u[j] by {
        assert(s[i] != s[j]);
    }
}

/// Registration adds one tag exactly when the tag is new.
pub broadcast proof fn lemma_register_count(m: TagRegistryModel, tag: Seq<char>, parent: Option<Seq<char>>)
    ensures
        #[trigger] m.after_register(tag, parent).count() == m.count() + (if m.names.contains(tag) { 0int } else { 1int }),
{
}

/// Appending a name that does not occur keeps the names unique.
proof fn lemma_push_fresh_keeps_no_duplicates(names: Seq<Seq<char>>, tag: Seq<char>)
    requires
        names.no_duplicates(),
        !names.contains(tag),
    ensures
        names.push(tag).no_duplicates(),
{
    let s = names.push(tag);
    assert forall|i: int, j: int| 0 <= i < s.len() && 0 <= j < s.len() && i != j implies s[i] != s[j] by {
        if i < names.len() && j < names.len() {
        } else if i < names.len() {
            assert(names[i] == s[i]);
        } else {
            assert(names[j] == s[j]);
        }
    }
}

} // verus!
