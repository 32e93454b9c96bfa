//! Decisions of the engine's command processor: which command a request
//! names, how it is resolved against the entity registry, and the text of the
//! answers that carry no engine values. Spawning, moving and drawing entities
//! is done by the engine side, which then hands the results back here.
use crate::entity_registry::{already_exists_text, EntityId, EntityRegistry};
use crate::protocol::catalog;
use crate::text::{framed, prefixed, same_text};
use vstd::prelude::*;

verus! {

/// Answer to the screenshot command, which the engine cannot carry out yet.
pub const SCREENSHOT_PENDING: &'static str =
    "Screenshot functionality is not yet implemented. This feature will be added in a future update.";

/// Answer to a listing of an empty registry.
pub const NO_ENTITIES: &'static str = "No entities in scene";

/// The commands that the engine carries out.
#[derive(PartialEq, Eq, Structural, Clone, Copy, Debug)]
pub enum EngineCommand {
    CreateEntity,
    DeleteEntity,
    SetTransform,
    RotateEntity,
    ScaleEntity,
    CreateCube,
    CreateLight,
    CreateCamera,
    ListEntities,
    GetHealth,
    SetHealth,
    Damage,
    Heal,
    Attack,
    Screenshot,
    Unknown,
}

/// The command a command name stands for.
pub open spec fn command_for(name: Seq<char>) -> EngineCommand {
    if name == "create_entity"@ {
        EngineCommand::CreateEntity
    } else if name == "delete_entity"@ {
        EngineCommand::DeleteEntity
    } else if name == "set_transform"@ {
        EngineCommand::SetTransform
    } else if name == "rotate_entity"@ {
        EngineCommand::RotateEntity
    } else if name == "scale_entity"@ {
        EngineCommand::ScaleEntity
    } else if name == "create_cube"@ {
        EngineCommand::CreateCube
    } else if name == "create_light"@ {
        EngineCommand::CreateLight
    } else if name == "create_camera"@ {
        EngineCommand::CreateCamera
    } else if name == "list_entities"@ {
        EngineCommand::ListEntities
    } else if name == "get_health"@ {
        EngineCommand::GetHealth
    } else if name == "set_health"@ {
        EngineCommand::SetHealth
    } else if name == "damage"@ {
        EngineCommand::Damage
    } else if name == "heal"@ {
        EngineCommand::Heal
    } else if name == "attack"@ {
        EngineCommand::Attack
    } else if name == "screenshot"@ {
        EngineCommand::Screenshot
    } else {
        EngineCommand::Unknown
    }
}

/// Read a command name.
pub fn parse_command(name: &str) -> (r: EngineCommand)
    ensures
        r == command_for(name@),
{
    if same_text(name, "create_entity") {
        EngineCommand::CreateEntity
    } else if same_text(name, "delete_entity") {
        EngineCommand::DeleteEntity
    } else if same_text(name, "set_transform") {
        EngineCommand::SetTransform
    } else if same_text(name, "rotate_entity") {
        EngineCommand::RotateEntity
    } else if same_text(name, "scale_entity") {
        EngineCommand::ScaleEntity
    } else if same_text(name, "create_cube") {
        EngineCommand::CreateCube
    } else if same_text(name, "create_light") {
        EngineCommand::CreateLight
    } else if same_text(name, "create_camera") {
        EngineCommand::CreateCamera
    } else if same_text(name, "list_entities") {
        EngineCommand::ListEntities
    } else if same_text(name, "get_health") {
        EngineCommand::GetHealth
    } else if same_text(name, "set_health") {
        EngineCommand::SetHealth
    } else if same_text(name, "damage") {
        EngineCommand::Damage
    } else if same_text(name, "heal") {
        EngineCommand::Heal
    } else if same_text(name, "attack") {
        EngineCommand::Attack
    } else if same_text(name, "screenshot") {
        EngineCommand::Screenshot
    } else {
        EngineCommand::Unknown
    }
}

/// `Entity '<name>'` followed by `rest`.
pub open spec fn entity_text(name: Seq<char>, rest: Seq<char>) -> Seq<char> {
    "Entity '"@ + name + rest
}

/// Answer to a command that names an entity that is not registered.
pub fn not_found_message(name: &str) -> (r: String)
    ensures
        r@ == entity_text(name@, "' not found"@),
{
    framed("Entity '", name, "' not found")
}

/// Answer to a health command on an entity without health.
pub fn no_health_message(name: &str) -> (r: String)
    ensures
        r@ == entity_text(name@, "' has no Health component"@),
{
    framed("Entity '", name, "' has no Health component")
}

/// Answer to an attack by an entity without health.
pub fn attacker_without_health_message(name: &str) -> (r: String)
    ensures
        r@ == "Attacker '"@ + name@ + "' has no Health component"@,
{
    framed("Attacker '", name, "' has no Health component")
}

/// Answer to a command that the engine does not know.
pub fn unknown_command_message(command: &str) -> (r: String)
    ensures
        r@ == "Unknown command: "@ + command@,
{
    prefixed("Unknown command: ", command)
}

/// The entity that a command targets, or the answer that it is not registered.
pub fn find_target(registry: &EntityRegistry, name: &str) -> (r: Result<EntityId, String>)
    requires
        registry.wf(),
    ensures
        match r {
            Ok(e) => registry@.contains_key(name@) && e == registry@[name@],
            Err(msg) => !registry@.contains_key(name@) && msg@ == entity_text(name@, "' not found"@),
        },
{
    match registry.get(name) {
        Some(e) => Ok(e),
        None => Err(not_found_message(name)),
    }
}

/// Record an entity that the engine has just spawned for `create_entity` and
/// answer. A name that is taken is refused with the registry's message.
pub fn create_entity(registry: &mut EntityRegistry, name: String, entity: EntityId) -> (r: String)
    requires
        old(registry).wf(),
    ensures
        final(registry).wf(),
        if old(registry)@.contains_key(name@) {
            &&& final(registry)@ == old(registry)@
            &&& r@ == already_exists_text(name@)
        } else {
            &&& final(registry)@ == old(registry)@.insert(name@, entity)
            &&& r@ == entity_text(name@, "' created"@)
        },
{
    let answer = framed("Entity '", name.as_str(), "' created");
    match registry.register(name, entity) {
        Ok(()) => answer,
        Err(e) => e,
    }
}

/// Outcome of a delete command.
pub enum DeleteOutcome {
    /// The name was registered; the engine despawns this entity.
    Deleted(EntityId, String),
    /// The name was not registered.
    NotFound(String),
}

/// Remove a name from the registry for `delete_entity` and answer.
pub fn delete_entity(registry: &mut EntityRegistry, name: &str) -> (r: DeleteOutcome)
    requires
        old(registry).wf(),
    ensures
        final(registry).wf(),
        final(registry)@ == old(registry)@.remove(name@),
        match r {
            DeleteOutcome::Deleted(e, msg) => old(registry)@.contains_key(name@) && e == old(registry)@[name@]
                && msg@ == entity_text(name@, "' deleted"@),
            DeleteOutcome::NotFound(msg) => !old(registry)@.contains_key(name@) && msg@ == entity_text(
                name@,
                "' not found"@,
            ),
        },
{
    match registry.remove(name) {
        Some(e) => DeleteOutcome::Deleted(e, framed("Entity '", name, "' deleted")),
        None => DeleteOutcome::NotFound(not_found_message(name)),
    }
}

/// The items joined with `sep` between neighbours.
pub open spec fn joined(items: Seq<Seq<char>>, sep: Seq<char>) -> Seq<char>
    decreases items.len(),
{
    if items.len() == 0 {
        Seq::empty()
    } else if items.len() == 1 {
        items[0]
    } else {
        joined(items.drop_last(), sep) + sep + items.last()
    }
}

/// Answer to a listing of the given names.
pub open spec fn listing_text(names: Seq<Seq<char>>) -> Seq<char> {
    if names.len() == 0 {
        NO_ENTITIES@
    } else {
        "Entities: "@ + joined(names, ", "@)
    }
}

/// Answer to `list_entities`: every registered name once, in no particular order.
pub fn list_entities(registry: &EntityRegistry) -> (r: String)
    requires
        registry.wf(),
    ensures
        exists|names: Seq<Seq<char>>| {
            &&& names.no_duplicates()
            &&& names.to_set() == registry@.dom()
            &&& r@ == listing_text(names)
        },
{
    let names = registry.list();
    let ghost items = names@.map_values(|s: String| s@);
    if names.len() == 0 {
        let r = String::from_str(NO_ENTITIES);
        assert(items.len() == 0);
        assert(r@ == listing_text(items));
        return r;
    }
    let mut out = String::from_str("Entities: ");
    out.append(names[0].as_str());
    let mut i: usize = 1;
    proof {
        assert(items.subrange(0, 1).len() == 1);
        assert(items.subrange(0, 1)[0] == items[0]);
        assert(joined(items.subrange(0, 1), ", "@) == items[0]);
    }
    while i < names.len()
        invariant
            1 <= i <= names.len(),
            items == names@.map_values(|s: String| s@),
            out@ == "Entities: "@ + joined(items.subrange(0, i as int), ", "@),
        decreases names.len() - i,
    {
        let ghost before = out@;
        out.append(", ");
        out.append(names[i].as_str());
        proof {
            let next = items.subrange(0, i + 1);
            assert(next.drop_last() =~= items.subrange(0, i as int));
            assert(next.last() == items[i as int]);
            assert(out@ =~= "Entities: "@ + joined(next, ", "@));
        }
        i = i + 1;
    }
    proof {
        assert(items.subrange(0, i as int) =~= items);
        assert(out@ == listing_text(items));
    }
    out
}

/// Each item occurs, whole, in the text that joins the items.
pub proof fn lemma_joined_contains_each(items: Seq<Seq<char>>, sep: Seq<char>, k: int)
    requires
        0 <= k < items.len(),
    ensures
        exists|off: int| #![trigger joined(items, sep).subrange(off, off + items[k].len())]
            0 <= off && off + items[k].len() <= joined(items, sep).len()
            && joined(items, sep).subrange(off, off + items[k].len()) == items[k],
    decreases items.len(),
{
    let j = joined(items, sep);
    if items.len() == 1 {
        assert(k == 0);
        assert(j == items[0]);
        assert(j.subrange(0int, 0int + items[k].len()) =~= items[k]);
    } else {
        let front = items.drop_last();
        let jf = joined(front, sep);
        assert(j == jf + sep + items.last());
        if k == items.len() - 1 {
            let off: int = (jf.len() + sep.len()) as int;
            assert(j.subrange(off, off + items[k].len()) =~= items[k]);
            assert(0 <= off && off + items[k].len() <= j.len());
        } else {
            lemma_joined_contains_each(front, sep, k);
            assert(front[k] == items[k]);
            let off = choose|off: int| #![trigger jf.subrange(off, off + front[k].len())]
                0 <= off && off + front[k].len() <= jf.len() && jf.subrange(off, off + front[k].len()) == front[k];
            assert(j.subrange(off, off + items[k].len()) =~= jf.subrange(off, off + front[k].len()));
            assert(0 <= off && off + items[k].len() <= j.len());
        }
    }
}

/// A listing names every entity it is given: each name occurs, whole, in the
/// answer, and an empty listing says that the scene has no entities.
pub proof fn law_listing_names_every_entity(names: Seq<Seq<char>>, k: int)
    requires
        0 <= k < names.len(),
    ensures
        exists|off: int| #![trigger listing_text(names).subrange(off, off + names[k].len())]
            0 <= off && off + names[k].len() <= listing_text(names).len()
            && listing_text(names).subrange(off, off + names[k].len()) == names[k],
        listing_text(Seq::<Seq<char>>::empty()) == NO_ENTITIES@,
{
    lemma_joined_contains_each(names, ", "@, k);
    let j = joined(names, ", "@);
    let off = choose|off: int| #![trigger j.subrange(off, off + names[k].len())]
        0 <= off && off + names[k].len() <= j.len() && j.subrange(off, off + names[k].len()) == names[k];
    let t = listing_text(names);
    let h = "Entities: "@;
    assert(t == h + j);
    assert(t.subrange(h.len() + off, h.len() + off + names[k].len()) =~= j.subrange(off, off + names[k].len()));
}

/// Of the listing's parts the answer keeps all: its length is that of the
/// heading, every name and a separator between neighbours.
pub proof fn law_listing_length(names: Seq<Seq<char>>)
    requires
        names.len() > 0,
    ensures
        listing_text(names).len() == "Entities: "@.len() + total_len(names) + (names.len() - 1) * 2,
{
    lemma_joined_length(names);
}

/// The summed length of the items.
pub open spec fn total_len(items: Seq<Seq<char>>) -> int
    decreases items.len(),
{
    if items.len() == 0 {
        0
    } else {
        total_len(items.drop_last()) + items.last().len()
    }
}

proof fn lemma_joined_length(items: Seq<Seq<char>>)
    requires
        items.len() > 0,
    ensures
        joined(items, ", "@).len() == total_len(items) + (items.len() - 1) * 2,
    decreases items.len(),
{
    reveal_strlit(", ");
    assert(", "@.len() == 2);
    if items.len() == 1 {
        assert(items.drop_last().len() == 0);
        assert(total_len(items.drop_last()) == 0);
        assert(items.last() == items[0]);
    } else {
        lemma_joined_length(items.drop_last());
    }
}

/// How the two entities of an attack resolve.
pub enum AttackLookup {
    /// Both are registered: attacker and target.
    Found(EntityId, EntityId),
    /// The attacker is not registered; the answer.
    AttackerMissing(String),
    /// The attacker is registered but the target is not; the answer.
    TargetMissing(String),
}

/// Resolve the attacker and the target of an attack.
pub fn find_attack_pair(registry: &EntityRegistry, attacker: &str, target: &str) -> (r: AttackLookup)
    requires
        registry.wf(),
    ensures
        match r {
            AttackLookup::Found(a, t) => registry@.contains_key(attacker@) && registry@.contains_key(target@)
                && a == registry@[attacker@] && t == registry@[target@],
            AttackLookup::AttackerMissing(msg) => !registry@.contains_key(attacker@) && msg@
                == "Attacker '"@ + attacker@ + "' not found"@,
            AttackLookup::TargetMissing(msg) => registry@.contains_key(attacker@) && !registry@.contains_key(
                target@,
            ) && msg@ == "Target '"@ + target@ + "' not found"@,
        },
{
    match (registry.get(attacker), registry.get(target)) {
        (Some(a), Some(t)) => AttackLookup::Found(a, t),
        (None, _) => AttackLookup::AttackerMissing(framed("Attacker '", attacker, "' not found")),
        (_, None) => AttackLookup::TargetMissing(framed("Target '", target, "' not found")),
    }
}

/// Name for what `str::to_lowercase` returns: the text with every character
/// replaced by its lowercase mapping.
pub uninterp spec fn lowercase(text: Seq<char>) -> Seq<char>;

/// Calls `str::to_lowercase`. Claimed: the result is `lowercase` of the
/// argument, a function of the text alone. Nothing more is claimed of it.
#[verifier::external_body]
fn to_lowercase(text: &str) -> (r: String)
    ensures
        r@ == lowercase(text@),
{
    text.to_lowercase()
}

/// The colours a cube can be created with.
#[derive(PartialEq, Eq, Structural, Clone, Copy, Debug)]
pub enum CubeColor {
    Red,
    Green,
    Blue,
    Yellow,
    White,
    Gray,
}

/// The colour that a lowercased colour name selects; unknown names give gray.
pub open spec fn color_for(lower: Seq<char>) -> CubeColor {
    if lower == "red"@ {
        CubeColor::Red
    } else if lower == "green"@ {
        CubeColor::Green
    } else if lower == "blue"@ {
        CubeColor::Blue
    } else if lower == "yellow"@ {
        CubeColor::Yellow
    } else if lower == "white"@ {
        CubeColor::White
    } else {
        CubeColor::Gray
    }
}

/// The colour named by `create_cube`'s colour argument, ignoring case.
pub fn cube_color(name: &str) -> (r: CubeColor)
    ensures
        r == color_for(lowercase(name@)),
{
    let lower = to_lowercase(name);
    color_from_lowercase(lower.as_str())
}

/// The colour that an already lowercased colour name selects.
pub fn color_from_lowercase(lower: &str) -> (r: CubeColor)
    ensures
        r == color_for(lower@),
{
    if same_text(lower, "red") {
        CubeColor::Red
    } else if same_text(lower, "green") {
        CubeColor::Green
    } else if same_text(lower, "blue") {
        CubeColor::Blue
    } else if same_text(lower, "yellow") {
        CubeColor::Yellow
    } else if same_text(lower, "white") {
        CubeColor::White
    } else {
        CubeColor::Gray
    }
}

/// Every tool of the catalogue names a command that the engine carries out.
pub proof fn law_every_tool_reaches_a_command()
    ensures
        forall|i: int| 0 <= i < catalog().len() ==> command_for(#[trigger] catalog()[i].name) != EngineCommand::Unknown,
{
    let c = catalog();
    assert forall|i: int| 0 <= i < c.len() implies command_for(#[trigger] c[i].name) != EngineCommand::Unknown by {
        if i == 0 {} else if i == 1 {} else if i == 2 {} else if i == 3 {} else if i == 4 {}
        else if i == 5 {} else if i == 6 {} else if i == 7 {} else if i == 8 {} else {}
    }
}

/// Each tool of the catalogue is carried out by its own command: tools in
/// order create an entity, delete one, move one, rotate one, scale one, create
/// a cube, a light and a camera, list the entities and take a screenshot, and
/// no two tools reach the same command.
pub proof fn law_tools_reach_distinct_commands()
    ensures
        command_for(catalog()[0].name) == EngineCommand::CreateEntity,
        command_for(catalog()[1].name) == EngineCommand::DeleteEntity,
        command_for(catalog()[2].name) == EngineCommand::SetTransform,
        command_for(catalog()[3].name) == EngineCommand::RotateEntity,
        command_for(catalog()[4].name) == EngineCommand::ScaleEntity,
        command_for(catalog()[5].name) == EngineCommand::CreateCube,
        command_for(catalog()[6].name) == EngineCommand::CreateLight,
        command_for(catalog()[7].name) == EngineCommand::CreateCamera,
        command_for(catalog()[8].name) == EngineCommand::ListEntities,
        command_for(catalog()[9].name) == EngineCommand::Screenshot,
        forall|i: int, j: int|
            0 <= i < catalog().len() && 0 <= j < catalog().len() && i != j ==> command_for(
                #[trigger] catalog()[i].name,
            ) != command_for(#[trigger] catalog()[j].name),
{
    reveal_strlit("create_entity");
    reveal_strlit("delete_entity");
    reveal_strlit("set_transform");
    reveal_strlit("rotate_entity");
    reveal_strlit("scale_entity");
    reveal_strlit("create_cube");
    reveal_strlit("create_light");
    reveal_strlit("create_camera");
    reveal_strlit("list_entities");
    reveal_strlit("get_health");
    reveal_strlit("set_health");
    reveal_strlit("damage");
    reveal_strlit("heal");
    reveal_strlit("attack");
    reveal_strlit("screenshot");
    assert("create_entity"@.len() == 13 && "create_entity"@[0] == 'c' && "create_entity"@[1] == 'r' && "create_entity"@[7] == 'e');
    assert("delete_entity"@.len() == 13 && "delete_entity"@[0] == 'd' && "delete_entity"@[1] == 'e' && "delete_entity"@[7] == 'e');
    assert("set_transform"@.len() == 13 && "set_transform"@[0] == 's' && "set_transform"@[1] == 'e' && "set_transform"@[7] == 'n');
    assert("rotate_entity"@.len() == 13 && "rotate_entity"@[0] == 'r' && "rotate_entity"@[1] == 'o' && "rotate_entity"@[7] == 'e');
    assert("scale_entity"@.len() == 12 && "scale_entity"@[0] == 's' && "scale_entity"@[1] == 'c' && "scale_entity"@[7] == 'n');
    assert("create_cube"@.len() == 11 && "create_cube"@[0] == 'c' && "create_cube"@[1] == 'r' && "create_cube"@[7] == 'c');
    assert("create_light"@.len() == 12 && "create_light"@[0] == 'c' && "create_light"@[1] == 'r' && "create_light"@[7] == 'l');
    assert("create_camera"@.len() == 13 && "create_camera"@[0] == 'c' && "create_camera"@[1] == 'r' && "create_camera"@[7] == 'c');
    assert("list_entities"@.len() == 13 && "list_entities"@[0] == 'l' && "list_entities"@[1] == 'i' && "list_entities"@[7] == 't');
    assert("get_health"@.len() == 10 && "get_health"@[0] == 'g' && "get_health"@[1] == 'e' && "get_health"@[7] == 'l');
    assert("set_health"@.len() == 10 && "set_health"@[0] == 's' && "set_health"@[1] == 'e' && "set_health"@[7] == 'l');
    assert("damage"@.len() == 6 && "damage"@[0] == 'd' && "damage"@[1] == 'a');
    assert("heal"@.len() == 4 && "heal"@[0] == 'h' && "heal"@[1] == 'e');
    assert("attack"@.len() == 6 && "attack"@[0] == 'a' && "attack"@[1] == 't');
    assert("screenshot"@.len() == 10 && "screenshot"@[0] == 's' && "screenshot"@[1] == 'c' && "screenshot"@[7] == 'h');
    let c = catalog();
    assert(command_for(c[0].name) == EngineCommand::CreateEntity);
    assert(command_for(c[1].name) == EngineCommand::DeleteEntity);
    assert(command_for(c[2].name) == EngineCommand::SetTransform);
    assert(command_for(c[3].name) == EngineCommand::RotateEntity);
    assert(command_for(c[4].name) == EngineCommand::ScaleEntity);
    assert(command_for(c[5].name) == EngineCommand::CreateCube);
    assert(command_for(c[6].name) == EngineCommand::CreateLight);
    assert(command_for(c[7].name) == EngineCommand::CreateCamera);
    assert(command_for(c[8].name) == EngineCommand::ListEntities);
    assert(command_for(c[9].name) == EngineCommand::Screenshot);
}

} // verus!
