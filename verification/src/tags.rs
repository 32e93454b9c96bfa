//! Names of the gameplay tags that every game starts with.
use vstd::prelude::*;

verus! {

// Damage types
pub const DAMAGE: &'static str = "Damage";
pub const DAMAGE_TYPE: &'static str = "Damage.Type";
pub const DAMAGE_TYPE_PHYSICAL: &'static str = "Damage.Type.Physical";
pub const DAMAGE_TYPE_FIRE: &'static str = "Damage.Type.Fire";
pub const DAMAGE_TYPE_ICE: &'static str = "Damage.Type.Ice";
pub const DAMAGE_TYPE_LIGHTNING: &'static str = "Damage.Type.Lightning";
pub const DAMAGE_TYPE_POISON: &'static str = "Damage.Type.Poison";

// Status effects
pub const STATUS: &'static str = "Status";
pub const STATUS_STUNNED: &'static str = "Status.Stunned";
pub const STATUS_BURNING: &'static str = "Status.Burning";
pub const STATUS_FROZEN: &'static str = "Status.Frozen";
pub const STATUS_POISONED: &'static str = "Status.Poisoned";
pub const STATUS_SLOWED: &'static str = "Status.Slowed";

// Factions
pub const FACTION: &'static str = "Faction";
pub const FACTION_PLAYER: &'static str = "Faction.Player";
pub const FACTION_ENEMY: &'static str = "Faction.Enemy";
pub const FACTION_NEUTRAL: &'static str = "Faction.Neutral";
pub const FACTION_ALLY: &'static str = "Faction.Ally";

// Abilities
pub const ABILITY: &'static str = "Ability";
pub const ABILITY_MELEE: &'static str = "Ability.Melee";
pub const ABILITY_RANGED: &'static str = "Ability.Ranged";
pub const ABILITY_MAGIC: &'static str = "Ability.Magic";

// Resistances
pub const RESISTANCE: &'static str = "Resistance";
pub const RESISTANCE_FIRE: &'static str = "Resistance.Fire";
pub const RESISTANCE_ICE: &'static str = "Resistance.Ice";
pub const RESISTANCE_PHYSICAL: &'static str = "Resistance.Physical";

} // verus!
