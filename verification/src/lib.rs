//! Verified core of an action-RPG engine driven through a tool protocol:
//! hierarchical gameplay tags, the named entity registry, bounded logs,
//! camera input decisions and the tool catalogue with its command handling.

pub mod gameplay_tags;
pub mod tags;
pub mod text;
pub mod entity_registry;
pub mod message_log;
pub mod camera;
pub mod protocol;
pub mod commands;
