use crate::room::{RoomId, TrackedRoom};
use vstd::prelude::*;

verus! {

/// The live prefabs of every loaded room, by room identity. The table is
/// the `HashMap` of bevy's `utils`, which is hashbrown's map with a hasher of
/// bevy's choice; nothing here looks inside it, and what the functions below
/// say of it is taken from hashbrown's documentation, not proved.
#[verifier::external_body]
pub struct RoomTable {
    rooms: bevy::utils::HashMap<RoomId, TrackedRoom>,
}

/// What a table holds: under each room's identity, what is live of it.
pub uninterp spec fn table_contents(table: RoomTable) -> Map<RoomId, TrackedRoom>;

/// Calls `HashMap::default` of bevy's `utils`. Claims that the map it makes
/// holds nothing.
#[verifier::external_body]
pub(crate) fn table_new() -> (made: RoomTable)
    ensures
        table_contents(made).dom() == Set::<RoomId>::empty(),
{
    RoomTable { rooms: bevy::utils::HashMap::default() }
}

/// Calls hashbrown's `HashMap::get`. Claims that it finds the value stored
/// under `id` where there is one, and nothing where there is none.
#[verifier::external_body]
pub(crate) fn table_get(table: &RoomTable, id: RoomId) -> (found: Option<&TrackedRoom>)
    ensures
        match found {
            Some(room) => table_contents(*table).dom().contains(id) && *room == table_contents(
                *table,
            )[id],
            None => !table_contents(*table).dom().contains(id),
        },
{
    table.rooms.get(&id)
}

/// Calls hashbrown's `HashMap::insert`. Claims that afterwards `room` is
/// stored under `id` and every other key is as before, and that the value
/// stored under `id` before, if there was one, is returned.
#[verifier::external_body]
pub(crate) fn table_insert(table: &mut RoomTable, id: RoomId, room: TrackedRoom) -> (previous:
    Option<TrackedRoom>)
    ensures
        table_contents(*final(table)) == table_contents(*old(table)).insert(id, room),
        previous == if table_contents(*old(table)).dom().contains(id) {
            Some(table_contents(*old(table))[id])
        } else {
            None
        },
{
    table.rooms.insert(id, room)
}

/// Calls hashbrown's `HashMap::remove`. Claims that afterwards nothing is
/// stored under `id` and every other key is as before, and that the value
/// stored under `id` before, if there was one, is returned.
#[verifier::external_body]
pub(crate) fn table_remove(table: &mut RoomTable, id: RoomId) -> (removed: Option<TrackedRoom>)
    ensures
        table_contents(*final(table)) == table_contents(*old(table)).remove(id),
        removed == if table_contents(*old(table)).dom().contains(id) {
            Some(table_contents(*old(table))[id])
        } else {
            None
        },
{
    table.rooms.remove(&id)
}

} // verus!
