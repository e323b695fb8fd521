use crate::name_map::lemma_index_of_unique;
use crate::prefab::changed_fields;
use crate::registry::Handle;
use crate::room::{
    despawns, fresh_before, lemma_fresh_before_empty, next_state, step_actions, ActionModel,
    EventModel, Live, RoomId, RoomModel, TrackedModel, TrackerModel,
};
use vstd::prelude::*;

verus! {

/// What holds of the value of every `Room`: no name occurs twice, and the
/// names are those that have a description.
pub open spec fn valid_room(room: RoomModel) -> bool {
    &&& room.names.no_duplicates()
    &&& forall|name: Seq<char>| room.prefabs.dom().contains(name) <==> room.names.contains(name)
}

/// The room that an event is about.
pub open spec fn event_room(event: EventModel) -> RoomId {
    match event {
        EventModel::Added { id, room } => id,
        EventModel::Modified { id, room } => id,
        EventModel::Unused { id } => id,
        EventModel::Removed { id } => id,
        EventModel::LoadedWithDependencies { id } => id,
    }
}

/// The despawn of the live prefab at position `i`.
pub open spec fn despawn_at(held: TrackedModel, i: int) -> ActionModel {
    ActionModel::Despawn { name: held.order[i], handle: held.entries[held.order[i]].0 }
}

/// With nothing kept, each of the first `n` live prefabs is despawned once,
/// in order.
pub proof fn lemma_despawns_all(held: TrackedModel, n: int)
    requires
        0 <= n <= held.order.len(),
    ensures
        despawns(held, Set::empty(), n) == Seq::new(n as nat, |i: int| despawn_at(held, i)),
    decreases n,
{
    if n > 0 {
        lemma_despawns_all(held, n - 1);
    }
    assert(despawns(held, Set::empty(), n) =~= Seq::new(n as nat, |i: int| despawn_at(held, i)));
}

/// Where `keep` lacks only the name at position `gone`, that prefab alone is
/// despawned.
pub proof fn lemma_despawns_one(held: TrackedModel, keep: Set<Seq<char>>, gone: int, n: int)
    requires
        0 <= gone < held.order.len(),
        0 <= n <= held.order.len(),
        !keep.contains(held.order[gone]),
        forall|j: int| 0 <= j < held.order.len() && j != gone ==> keep.contains(held.order[j]),
    ensures
        despawns(held, keep, n) == if n > gone {
            seq![despawn_at(held, gone)]
        } else {
            Seq::<ActionModel>::empty()
        },
    decreases n,
{
    if n > 0 {
        lemma_despawns_one(held, keep, gone, n - 1);
        if n - 1 == gone {
            assert(Seq::<ActionModel>::empty().push(despawn_at(held, gone)) =~= seq![
                despawn_at(held, gone),
            ]);
        }
    }
}

/// Where all of `names` but the one at position `come` are live, only what
/// follows that position has a spawn before it.
pub proof fn lemma_fresh_before_one(live: Live, names: Seq<Seq<char>>, come: int, n: int)
    requires
        0 <= come < names.len(),
        0 <= n <= names.len(),
        !live.dom().contains(names[come]),
        forall|j: int| 0 <= j < names.len() && j != come ==> live.dom().contains(names[j]),
    ensures
        fresh_before(live, names, n) == if n > come {
            1int
        } else {
            0int
        },
    decreases n,
{
    if n > 0 {
        lemma_fresh_before_one(live, names, come, n - 1);
    }
}

/// A room that is added and then removed is not known afterwards, and each
/// prefab that the first event spawned is despawned once by the second,
/// under the handle it was spawned with.
pub proof fn law_added_then_removed(
    tracker: TrackerModel,
    id: RoomId,
    room: RoomModel,
    fresh: Seq<Handle>,
    unused: Seq<Handle>,
)
    requires
        valid_room(room),
        fresh.len() >= room.names.len(),
    ensures
        ({
            let added = EventModel::Added { id, room };
            let removed = EventModel::Removed { id };
            let between = next_state(tracker, added, fresh);
            let spawned = step_actions(tracker, added, fresh);
            let despawned = step_actions(between, removed, unused);
            &&& !next_state(between, removed, unused).dom().contains(id)
            &&& spawned.len() == room.names.len()
            &&& despawned.len() == room.names.len()
            &&& forall|i: int|
                0 <= i < room.names.len() ==> #[trigger] spawned[i] == (ActionModel::Spawn {
                    name: room.names[i],
                    handle: fresh[i],
                    prefab: room.prefabs[room.names[i]],
                }) && despawned[i] == (ActionModel::Despawn {
                    name: room.names[i],
                    handle: fresh[i],
                })
        }),
{
    let added = EventModel::Added { id, room };
    let removed = EventModel::Removed { id };
    let between = next_state(tracker, added, fresh);
    let spawned = step_actions(tracker, added, fresh);
    let despawned = step_actions(between, removed, unused);
    let held = between[id];
    let n = room.names.len() as int;
    lemma_despawns_all(held, n);
    assert(despawns(crate::room::nothing_live(), room.prefabs.dom(), 0) =~= Seq::empty());
    assert forall|i: int| 0 <= i < n implies #[trigger] spawned[i] == (ActionModel::Spawn {
        name: room.names[i],
        handle: fresh[i],
        prefab: room.prefabs[room.names[i]],
    }) && despawned[i] == (ActionModel::Despawn { name: room.names[i], handle: fresh[i] }) by {
        lemma_index_of_unique(room.names, i);
        lemma_fresh_before_empty(room.names, i);
        assert(despawned[i] == despawn_at(held, i));
    }
}

/// Where a loaded room is modified so that one name, `come`, is new and one,
/// `gone`, is dropped: the new prefab is spawned with the first fresh handle,
/// every other prefab of the new revision is updated under its old handle
/// with exactly its changed fields, and the one despawn that follows is that
/// of the dropped prefab.
pub proof fn law_one_spawned_one_despawned(
    tracker: TrackerModel,
    id: RoomId,
    room: RoomModel,
    fresh: Seq<Handle>,
    come: Seq<char>,
    gone: Seq<char>,
)
    requires
        tracker.dom().contains(id),
        tracker[id].order.no_duplicates(),
        forall|name: Seq<char>|
            tracker[id].entries.dom().contains(name) <==> tracker[id].order.contains(name),
        valid_room(room),
        fresh.len() >= 1,
        room.names.contains(come),
        !tracker[id].order.contains(come),
        tracker[id].order.contains(gone),
        !room.names.contains(gone),
        forall|name: Seq<char>|
            name != come && name != gone ==> (room.names.contains(name) <==> tracker[id].order.contains(
                name,
            )),
    ensures
        ({
            let held = tracker[id];
            let actions = step_actions(tracker, EventModel::Modified { id, room }, fresh);
            &&& actions.len() == room.names.len() + 1
            &&& forall|i: int|
                0 <= i < room.names.len() ==> #[trigger] actions[i] == if room.names[i] == come {
                    ActionModel::Spawn { name: come, handle: fresh[0], prefab: room.prefabs[come] }
                } else {
                    ActionModel::Update {
                        name: room.names[i],
                        handle: held.entries[room.names[i]].0,
                        prefab_type: room.prefabs[room.names[i]].prefab_type,
                        changed_fields: changed_fields(
                            held.entries[room.names[i]].1,
                            room.prefabs[room.names[i]],
                        ),
                    }
                }
            &&& actions[room.names.len() as int] == (ActionModel::Despawn {
                name: gone,
                handle: held.entries[gone].0,
            })
        }),
{
    let held = tracker[id];
    let actions = step_actions(tracker, EventModel::Modified { id, room }, fresh);
    let at_come = room.names.index_of(come);
    let at_gone = held.order.index_of(gone);
    assert(0 <= at_come < room.names.len() && room.names[at_come] == come);
    assert(0 <= at_gone < held.order.len() && held.order[at_gone] == gone);
    assert forall|j: int| 0 <= j < held.order.len() && j != at_gone implies room.prefabs.dom().contains(
        held.order[j],
    ) by {
        let name = held.order[j];
        assert(held.order.contains(name));
        assert(name != gone);
        assert(name != come);
        assert(room.names.contains(name));
    }
    lemma_despawns_one(held, room.prefabs.dom(), at_gone, held.order.len() as int);
    assert forall|j: int| 0 <= j < room.names.len() && j != at_come implies held.entries.dom().contains(
        room.names[j],
    ) by {
        let name = room.names[j];
        assert(room.names.contains(name));
        assert(name != come);
        assert(name != gone);
        assert(held.order.contains(name));
    }
    assert forall|i: int| 0 <= i < room.names.len() implies #[trigger] actions[i] == if room.names[i]
        == come {
        ActionModel::Spawn { name: come, handle: fresh[0], prefab: room.prefabs[come] }
    } else {
        ActionModel::Update {
            name: room.names[i],
            handle: held.entries[room.names[i]].0,
            prefab_type: room.prefabs[room.names[i]].prefab_type,
            changed_fields: changed_fields(
                held.entries[room.names[i]].1,
                room.prefabs[room.names[i]],
            ),
        }
    } by {
        lemma_fresh_before_one(held.entries, room.names, at_come, i);
        if room.names[i] == come {
            assert(i == at_come);
        } else {
            assert(room.names.contains(room.names[i]));
        }
    }
}

/// Where a room is added and then modified so that one name, `come`, is new
/// and one, `gone`, is dropped: the second event asks for one spawn, that of
/// the new prefab; for one update of every other prefab, under the handle it
/// was spawned with and with exactly the fields that changed between the two
/// revisions; and for one despawn, that of the dropped prefab.
pub proof fn law_added_then_modified(
    tracker: TrackerModel,
    id: RoomId,
    first: RoomModel,
    second: RoomModel,
    fresh_first: Seq<Handle>,
    fresh_second: Seq<Handle>,
    come: Seq<char>,
    gone: Seq<char>,
)
    requires
        valid_room(first),
        valid_room(second),
        fresh_first.len() >= first.names.len(),
        fresh_second.len() >= 1,
        second.names.contains(come),
        !first.names.contains(come),
        first.names.contains(gone),
        !second.names.contains(gone),
        forall|name: Seq<char>|
            name != come && name != gone ==> (second.names.contains(name) <==> first.names.contains(
                name,
            )),
    ensures
        ({
            let between = next_state(tracker, EventModel::Added { id, room: first }, fresh_first);
            let actions = step_actions(
                between,
                EventModel::Modified { id, room: second },
                fresh_second,
            );
            &&& actions.len() == second.names.len() + 1
            &&& forall|i: int|
                0 <= i < second.names.len() ==> #[trigger] actions[i] == if second.names[i] == come {
                    ActionModel::Spawn {
                        name: come,
                        handle: fresh_second[0],
                        prefab: second.prefabs[come],
                    }
                } else {
                    ActionModel::Update {
                        name: second.names[i],
                        handle: fresh_first[first.names.index_of(second.names[i])],
                        prefab_type: second.prefabs[second.names[i]].prefab_type,
                        changed_fields: changed_fields(
                            first.prefabs[second.names[i]],
                            second.prefabs[second.names[i]],
                        ),
                    }
                }
            &&& actions[second.names.len() as int] == (ActionModel::Despawn {
                name: gone,
                handle: fresh_first[first.names.index_of(gone)],
            })
        }),
{
    let between = next_state(tracker, EventModel::Added { id, room: first }, fresh_first);
    let actions = step_actions(between, EventModel::Modified { id, room: second }, fresh_second);
    let held = between[id];
    assert(held.order == first.names);
    assert forall|name: Seq<char>| first.names.contains(name) implies held.entries[name] == (
        fresh_first[first.names.index_of(name)],
        first.prefabs[name],
    ) by {
        let at = first.names.index_of(name);
        lemma_fresh_before_empty(first.names, at);
    }
    law_one_spawned_one_despawned(between, id, second, fresh_second, come, gone);
    assert forall|i: int| 0 <= i < second.names.len() implies #[trigger] actions[i] == if second.names[i]
        == come {
        ActionModel::Spawn { name: come, handle: fresh_second[0], prefab: second.prefabs[come] }
    } else {
        ActionModel::Update {
            name: second.names[i],
            handle: fresh_first[first.names.index_of(second.names[i])],
            prefab_type: second.prefabs[second.names[i]].prefab_type,
            changed_fields: changed_fields(
                first.prefabs[second.names[i]],
                second.prefabs[second.names[i]],
            ),
        }
    } by {
        let name = second.names[i];
        if name != come {
            assert(second.names.contains(name));
            assert(name != gone);
            assert(first.names.contains(name));
        }
    }
}

/// After a loaded room is modified, what is live of it is its new revision:
/// the names are those of the revision, each with the description that the
/// revision gives it, and a prefab that was live before is live under the
/// handle that it had.
pub proof fn law_modified_keeps_handles(
    tracker: TrackerModel,
    id: RoomId,
    room: RoomModel,
    fresh: Seq<Handle>,
    name: Seq<char>,
)
    requires
        tracker.dom().contains(id),
        valid_room(room),
        room.names.contains(name),
    ensures
        ({
            let after = next_state(tracker, EventModel::Modified { id, room }, fresh);
            &&& after.dom().contains(id)
            &&& after[id].order == room.names
            &&& after[id].entries.dom().contains(name)
            &&& after[id].entries[name].1 == room.prefabs[name]
            &&& tracker[id].entries.dom().contains(name) ==> after[id].entries[name].0
                == tracker[id].entries[name].0
        }),
{
    let at = room.names.index_of(name);
    assert(0 <= at < room.names.len() && room.names[at] == name);
}

/// An event about one room leaves every other room as it was: loaded or
/// not, and with the same live prefabs.
pub proof fn law_other_rooms_untouched(
    tracker: TrackerModel,
    event: EventModel,
    fresh: Seq<Handle>,
    other: RoomId,
)
    requires
        other != event_room(event),
    ensures
        next_state(tracker, event, fresh).dom().contains(other) == tracker.dom().contains(other),
        next_state(tracker, event, fresh)[other] == tracker[other],
{
}

/// When a loaded room becomes unused or is removed, it is known no more,
/// and the host is asked for exactly one despawn for each of its live prefabs,
/// under that prefab's handle, and for nothing else.
pub proof fn law_teardown_despawns_each_once(tracker: TrackerModel, id: RoomId, fresh: Seq<Handle>)
    requires
        tracker.dom().contains(id),
    ensures
        !next_state(tracker, EventModel::Unused { id }, fresh).dom().contains(id),
        step_actions(tracker, EventModel::Unused { id }, fresh) == Seq::new(
            tracker[id].order.len(),
            |i: int| despawn_at(tracker[id], i),
        ),
        step_actions(tracker, EventModel::Removed { id }, fresh) == step_actions(
            tracker,
            EventModel::Unused { id },
            fresh,
        ),
        next_state(tracker, EventModel::Removed { id }, fresh) == next_state(
            tracker,
            EventModel::Unused { id },
            fresh,
        ),
{
    lemma_despawns_all(tracker[id], tracker[id].order.len() as int);
}

} // verus!
