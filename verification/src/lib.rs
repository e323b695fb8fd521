//! Rooms of prefabs that follow their documents: which prefabs of a room
//! are live, what changed between two revisions of a room, and what a host
//! has to spawn, update and despawn to bring its world up to date.

pub mod lifecycle;
pub mod name_map;
pub mod prefab;
pub mod registry;
pub mod room;
pub mod table;
