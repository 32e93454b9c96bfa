# ai_native_engine

Verified core of an action-RPG engine that AI agents drive through a
JSON-RPC tool protocol over stdio.

- `src/` is the library, verified with Verus:
  - `gameplay_tags.rs`, `tags.rs`: the tag registry (names interned to ids in
    registration order, optional parent links), tag sets carried by entities,
    hierarchy queries, and the common tag hierarchy.
  - `entity_registry.rs`: names of spawned entities mapped to entity handles.
  - `message_log.rs`: bounded first-in first-out logs.
  - `camera.rs`: camera mode and fly direction chosen from held buttons and keys.
  - `protocol.rs`: request routing, error codes and messages, tool catalogue.
  - `commands.rs`: engine command names, registry-backed command outcomes and
    their answers.
  - `text.rs`: verified string comparison and composition.
- `tests/` exercises the library.
- `app/` is the engine program around it: window, rendering, input, the stdio
  server, JSON, and the floating-point health and camera motion.
