use crate::name_map::{lemma_index_of_unique, NameMap};
use crate::prefab::{changed_fields, FieldValue, Fields, PrefabData, PrefabModel};
use crate::registry::Handle;
use crate::table::{table_contents, table_get, table_insert, table_new, table_remove, RoomTable};
use vstd::prelude::*;

verus! {

/// The identity of a loaded room document.
pub type RoomId = u128;

/// The mathematical value of a room: its prefab names in document order and
/// the description under each.
pub struct RoomModel {
    pub names: Seq<Seq<char>>,
    pub prefabs: Map<Seq<char>, PrefabModel>,
}

/// A room: a set of prefab descriptions, each under a name of its own. The
/// name is what identifies a prefab from one revision of a room to the next.
#[derive(Debug)]
pub struct Room {
    pub prefabs: NameMap<PrefabData>,
}

impl View for Room {
    type V = RoomModel;

    open spec fn view(&self) -> RoomModel {
        RoomModel { names: self.prefabs.names(), prefabs: self.prefabs@ }
    }
}

/// What happened to a room document.
#[derive(Debug)]
pub enum RoomEvent {
    /// The document was loaded for the first time.
    Added { id: RoomId, room: Room },
    /// The document changed; `room` is its new revision.
    Modified { id: RoomId, room: Room },
    /// Nothing refers to the document any more.
    Unused { id: RoomId },
    /// The document was removed.
    Removed { id: RoomId },
    /// The document and all it depends on are loaded.
    LoadedWithDependencies { id: RoomId },
}

/// The mathematical value of a `RoomEvent`.
pub enum EventModel {
    Added { id: RoomId, room: RoomModel },
    Modified { id: RoomId, room: RoomModel },
    Unused { id: RoomId },
    Removed { id: RoomId },
    LoadedWithDependencies { id: RoomId },
}

impl View for RoomEvent {
    type V = EventModel;

    open spec fn view(&self) -> EventModel {
        match *self {
            RoomEvent::Added { id, room } => EventModel::Added { id, room: room@ },
            RoomEvent::Modified { id, room } => EventModel::Modified { id, room: room@ },
            RoomEvent::Unused { id } => EventModel::Unused { id },
            RoomEvent::Removed { id } => EventModel::Removed { id },
            RoomEvent::LoadedWithDependencies { id } => EventModel::LoadedWithDependencies { id },
        }
    }
}

/// One thing for the host to do to the live world.
#[derive(Debug)]
pub enum Action {
    /// Bind the behaviour of `prefab` to the fresh live object `handle`.
    Spawn { name: String, handle: Handle, prefab: PrefabData },
    /// Apply `changed_fields` to the live object `handle` through the
    /// behaviour of `prefab_type`.
    Update { name: String, handle: Handle, prefab_type: String, changed_fields: Fields },
    /// Destroy the live object `handle`.
    Despawn { name: String, handle: Handle },
}

/// The mathematical value of an `Action`.
pub enum ActionModel {
    Spawn { name: Seq<char>, handle: Handle, prefab: PrefabModel },
    Update {
        name: Seq<char>,
        handle: Handle,
        prefab_type: Seq<char>,
        changed_fields: Map<Seq<char>, FieldValue>,
    },
    Despawn { name: Seq<char>, handle: Handle },
}

impl View for Action {
    type V = ActionModel;

    open spec fn view(&self) -> ActionModel {
        match *self {
            Action::Spawn { name, handle, prefab } => ActionModel::Spawn {
                name: name@,
                handle,
                prefab: prefab@,
            },
            Action::Update { name, handle, prefab_type, changed_fields } => ActionModel::Update {
                name: name@,
                handle,
                prefab_type: prefab_type@,
                changed_fields: changed_fields@,
            },
            Action::Despawn { name, handle } => ActionModel::Despawn { name: name@, handle },
        }
    }
}

/// The values of a sequence of actions.
pub open spec fn action_models(actions: Seq<Action>) -> Seq<ActionModel> {
    actions.map_values(|a: Action| a@)
}

/// The live prefabs of one room: under each name the handle of the live
/// object and the description last applied to it.
pub type TrackedRoom = NameMap<(Handle, PrefabData)>;

/// What is live of one room, by prefab name.
pub type Live = Map<Seq<char>, (Handle, PrefabModel)>;

/// The mathematical value of a `TrackedRoom`.
pub struct TrackedModel {
    pub order: Seq<Seq<char>>,
    pub entries: Live,
}

/// The mathematical value of `room`: its names in the order in which they
/// were realized, and the handle and description under each.
pub open spec fn tracked_model(room: TrackedRoom) -> TrackedModel {
    TrackedModel { order: room.names(), entries: room@ }
}

/// A room of which nothing is live.
pub open spec fn nothing_live() -> TrackedModel {
    TrackedModel { order: Seq::empty(), entries: Map::empty() }
}

/// How many of the first `n` of `names` are not live, and so need a fresh
/// live object.
pub open spec fn fresh_before(live: Live, names: Seq<Seq<char>>, n: int) -> int
    decreases n,
{
    if n <= 0 {
        0
    } else {
        fresh_before(live, names, n - 1) + if live.dom().contains(names[n - 1]) {
            0int
        } else {
            1int
        }
    }
}

/// The handle under which the prefab at position `i` of `names` is live once
/// the room is realized: the one it has, or else the next unused of `fresh`.
pub open spec fn realized_handle(
    live: Live,
    names: Seq<Seq<char>>,
    fresh: Seq<Handle>,
    i: int,
) -> Handle {
    if live.dom().contains(names[i]) {
        live[names[i]].0
    } else {
        fresh[fresh_before(live, names, i)]
    }
}

/// What realizing the prefab at position `i` of `room` asks of the host: an
/// update with the changed fields where the name is live, a spawn where it is
/// not.
pub open spec fn realize_action(live: Live, room: RoomModel, fresh: Seq<Handle>, i: int) -> ActionModel {
    let name = room.names[i];
    if live.dom().contains(name) {
        ActionModel::Update {
            name,
            handle: live[name].0,
            prefab_type: room.prefabs[name].prefab_type,
            changed_fields: changed_fields(live[name].1, room.prefabs[name]),
        }
    } else {
        ActionModel::Spawn {
            name,
            handle: fresh[fresh_before(live, room.names, i)],
            prefab: room.prefabs[name],
        }
    }
}

/// One update or spawn for each prefab of `room`, in document order.
pub open spec fn realize_actions(live: Live, room: RoomModel, fresh: Seq<Handle>) -> Seq<ActionModel> {
    Seq::new(room.names.len(), |i: int| realize_action(live, room, fresh, i))
}

/// One despawn for each of the first `n` live prefabs whose name is not in
/// `keep`, in the order in which they were realized.
pub open spec fn despawns(held: TrackedModel, keep: Set<Seq<char>>, n: int) -> Seq<ActionModel>
    decreases n,
{
    if n <= 0 {
        Seq::empty()
    } else {
        let name = held.order[n - 1];
        let rest = despawns(held, keep, n - 1);
        if keep.contains(name) {
            rest
        } else {
            rest.push(ActionModel::Despawn { name, handle: held.entries[name].0 })
        }
    }
}

/// What is live of a room once `room` is realized over `held`.
pub open spec fn realized(held: TrackedModel, room: RoomModel, fresh: Seq<Handle>) -> TrackedModel {
    TrackedModel {
        order: room.names,
        entries: Map::new(
            |name: Seq<char>| room.names.contains(name),
            |name: Seq<char>|
                (
                    realized_handle(held.entries, room.names, fresh, room.names.index_of(name)),
                    room.prefabs[name],
                ),
        ),
    }
}

/// All that bringing the live world from `held` to `room` asks of the
/// host: the updates and spawns, then the despawns of what `room` dropped.
pub open spec fn sync_actions(held: TrackedModel, room: RoomModel, fresh: Seq<Handle>) -> Seq<
    ActionModel,
> {
    realize_actions(held.entries, room, fresh) + despawns(
        held,
        room.prefabs.dom(),
        held.order.len() as int,
    )
}

/// The mathematical value of a `RoomTracker`: what is live, by room.
pub type TrackerModel = Map<RoomId, TrackedModel>;

/// Whether `event` may come in state `tracker`: a room is modified only
/// while it is loaded.
pub open spec fn event_allowed(tracker: TrackerModel, event: EventModel) -> bool {
    match event {
        EventModel::Modified { id, room } => tracker.dom().contains(id),
        _ => true,
    }
}

/// The number of fresh handles that handling `event` uses.
pub open spec fn spawns_needed(tracker: TrackerModel, event: EventModel) -> int {
    match event {
        EventModel::Added { id, room } => fresh_before(
            Map::empty(),
            room.names,
            room.names.len() as int,
        ),
        EventModel::Modified { id, room } => fresh_before(
            tracker[id].entries,
            room.names,
            room.names.len() as int,
        ),
        _ => 0,
    }
}

/// The tracker's state after `event`.
pub open spec fn next_state(tracker: TrackerModel, event: EventModel, fresh: Seq<Handle>) -> TrackerModel {
    match event {
        EventModel::Added { id, room } => tracker.insert(id, realized(nothing_live(), room, fresh)),
        EventModel::Modified { id, room } => tracker.insert(id, realized(tracker[id], room, fresh)),
        EventModel::Unused { id } => tracker.remove(id),
        EventModel::Removed { id } => tracker.remove(id),
        EventModel::LoadedWithDependencies { id } => tracker,
    }
}

/// The despawns that tear down all that is live of room `id`.
pub open spec fn teardown_actions(tracker: TrackerModel, id: RoomId) -> Seq<ActionModel> {
    if tracker.dom().contains(id) {
        despawns(tracker[id], Set::empty(), tracker[id].order.len() as int)
    } else {
        Seq::empty()
    }
}

/// What handling `event` in state `tracker` asks of the host.
pub open spec fn step_actions(tracker: TrackerModel, event: EventModel, fresh: Seq<Handle>) -> Seq<
    ActionModel,
> {
    match event {
        EventModel::Added { id, room } => sync_actions(nothing_live(), room, fresh),
        EventModel::Modified { id, room } => sync_actions(tracker[id], room, fresh),
        EventModel::Unused { id } => teardown_actions(tracker, id),
        EventModel::Removed { id } => teardown_actions(tracker, id),
        EventModel::LoadedWithDependencies { id } => Seq::empty(),
    }
}

/// `fresh_before` grows with its bound, by at most one for each name.
pub proof fn lemma_fresh_before_monotone(live: Live, names: Seq<Seq<char>>, m: int, n: int)
    requires
        0 <= m <= n,
    ensures
        0 <= fresh_before(live, names, m) <= fresh_before(live, names, n),
        fresh_before(live, names, n) <= n,
    decreases n,
{
    if n > 0 {
        if m < n {
            lemma_fresh_before_monotone(live, names, m, n - 1);
        } else {
            lemma_fresh_before_monotone(live, names, m - 1, n - 1);
        }
    }
}

/// Remembers which rooms are loaded and what is live of each.
pub struct RoomTracker {
    rooms: RoomTable,
}

impl View for RoomTracker {
    type V = TrackerModel;

    closed spec fn view(&self) -> TrackerModel {
        Map::new(
            |id: RoomId| table_contents(self.rooms).dom().contains(id),
            |id: RoomId| tracked_model(table_contents(self.rooms)[id]),
        )
    }
}

impl RoomTracker {
    /// A tracker that knows no room.
    pub fn new() -> (tracker: Self)
        ensures
            tracker@ == Map::<RoomId, TrackedModel>::empty(),
    {
        let tracker = RoomTracker { rooms: table_new() };
        proof {
            assert(tracker@ =~= Map::<RoomId, TrackedModel>::empty());
        }
        tracker
    }

    /// What is live of room `id`, if the room is loaded.
    pub fn get(&self, id: RoomId) -> (found: Option<&TrackedRoom>)
        ensures
            match found {
                Some(room) => self@.dom().contains(id) && tracked_model(*room) == self@[id],
                None => !self@.dom().contains(id),
            },
    {
        table_get(&self.rooms, id)
    }

    /// Whether room `id` is loaded.
    pub fn is_tracked(&self, id: RoomId) -> (loaded: bool)
        ensures
            loaded == self@.dom().contains(id),
    {
        table_get(&self.rooms, id).is_some()
    }

    /// The number of fresh handles that `room_system` uses for `event`.
    pub fn spawns_needed(&self, event: &RoomEvent) -> (count: usize)
        requires
            event_allowed(self@, event@),
        ensures
            count == spawns_needed(self@, event@),
    {
        match event {
            RoomEvent::Added { id, room } => {
                let n = room.prefabs.len();
                proof {
                    lemma_fresh_before_empty(room.prefabs.names(), n as int);
                }
                n
            },
            RoomEvent::Modified { id, room } => {
                match table_get(&self.rooms, *id) {
                    Some(live) => count_fresh(live, room),
                    None => 0,
                }
            },
            _ => 0,
        }
    }
}

/// Where nothing is live, every name needs a fresh handle.
pub proof fn lemma_fresh_before_empty(names: Seq<Seq<char>>, n: int)
    requires
        0 <= n,
    ensures
        fresh_before(Map::empty(), names, n) == n,
    decreases n,
{
    if n > 0 {
        lemma_fresh_before_empty(names, n - 1);
    }
}

fn count_fresh(live: &TrackedRoom, room: &Room) -> (count: usize)
    ensures
        count == fresh_before(live@, room@.names, room@.names.len() as int),
{
    let n: usize = room.prefabs.len();
    let mut count: usize = 0;
    let mut i: usize = 0;
    while i < n
        invariant
            n == room@.names.len(),
            i <= n,
            count == fresh_before(live@, room@.names, i as int),
            count <= i,
        decreases n - i,
    {
        if !live.contains_name(room.prefabs.name_at(i)) {
            count += 1;
        }
        i += 1;
    }
    count
}

/// Realizes every prefab of `room` over what is `live`: an update for each
/// name that is live, a spawn with the next fresh handle for each that is
/// not.
fn realize(live: &TrackedRoom, room: &Room, fresh: &Vec<Handle>) -> (r: (Vec<Action>, TrackedRoom))
    requires
        fresh@.len() >= fresh_before(live@, room@.names, room@.names.len() as int),
    ensures
        action_models(r.0@) == realize_actions(live@, room@, fresh@),
        tracked_model(r.1) == realized(tracked_model(*live), room@, fresh@),
{
    let n: usize = room.prefabs.len();
    let ghost names = room@.names;
    let mut actions: Vec<Action> = Vec::new();
    let mut entries: TrackedRoom = NameMap::new();
    let mut used: usize = 0;
    let mut i: usize = 0;
    while i < n
        invariant
            n == names.len(),
            names == room.prefabs.names(),
            room.prefabs.values().len() == n,
            names.no_duplicates(),
            i <= n,
            used == fresh_before(live@, names, i as int),
            fresh@.len() >= fresh_before(live@, names, n as int),
            actions@.len() == i,
            forall|j: int|
                0 <= j < i ==> (#[trigger] actions@[j])@ == realize_action(live@, room@, fresh@, j),
            entries.names() == names.take(i as int),
            entries.values().len() == i,
            forall|j: int|
                0 <= j < i ==> (#[trigger] entries.values()[j])@ == (
                    realized_handle(live@, names, fresh@, j),
                    room@.prefabs[names[j]],
                ),
        decreases n - i,
    {
        let name = room.prefabs.name_at(i);
        let prefab = room.prefabs.value_at(i);
        let ghost before = entries;
        proof {
            lemma_index_of_unique(names, i as int);
            lemma_fresh_before_monotone(live@, names, i as int + 1, n as int);
            if before.has(names[i as int]) {
                let j = before.names().index_of(names[i as int]);
                assert(names[j] == names[i as int]);
            }
            assert(names.take(i as int).push(names[i as int]) =~= names.take(i as int + 1));
        }
        let handle: Handle = match live.get(name) {
            Some(entry) => {
                let changed = PrefabData::get_changed_fields(&entry.1, prefab);
                actions.push(
                    Action::Update {
                        name: name.clone(),
                        handle: entry.0,
                        prefab_type: prefab.prefab_type.clone(),
                        changed_fields: changed,
                    },
                );
                entry.0
            },
            None => {
                let handle: Handle = fresh[used];
                used += 1;
                actions.push(Action::Spawn { name: name.clone(), handle, prefab: prefab.clone() });
                handle
            },
        };
        entries.insert(name.clone(), (handle, prefab.clone()));
        i += 1;
    }
    proof {
        assert(names.take(n as int) =~= names);
        assert(action_models(actions@) =~= realize_actions(live@, room@, fresh@));
        let goal = realized(tracked_model(*live), room@, fresh@);
        assert forall|name: Seq<char>| entries@.dom().contains(name) implies entries@[name]
            == goal.entries[name] by {
            let j = names.index_of(name);
            lemma_index_of_unique(names, j);
            assert(entries.values()[j]@ == (
                realized_handle(live@, names, fresh@, j),
                room@.prefabs[names[j]],
            ));
        }
        assert(entries@ =~= goal.entries);
    }
    (actions, entries)
}

/// Appends to `actions` a despawn for each live prefab whose name `keep`
/// does not hold.
fn retire(live: &TrackedRoom, keep: &NameMap<PrefabData>, actions: &mut Vec<Action>)
    ensures
        action_models(final(actions)@) == action_models(old(actions)@) + despawns(
            tracked_model(*live),
            keep@.dom(),
            live.names().len() as int,
        ),
{
    let n: usize = live.len();
    let ghost start = action_models(actions@);
    let ghost held = tracked_model(*live);
    let mut i: usize = 0;
    proof {
        assert(start + despawns(held, keep@.dom(), 0) =~= start);
    }
    while i < n
        invariant
            n == live.names().len(),
            live.values().len() == n,
            live.names().no_duplicates(),
            held == tracked_model(*live),
            i <= n,
            action_models(actions@) == start + despawns(held, keep@.dom(), i as int),
        decreases n - i,
    {
        let name = live.name_at(i);
        let ghost before = action_models(actions@);
        proof {
            lemma_index_of_unique(live.names(), i as int);
        }
        if !keep.contains_name(name) {
            let handle: Handle = live.value_at(i).0;
            let action = Action::Despawn { name: name.clone(), handle };
            actions.push(action);
            proof {
                assert(action_models(actions@) =~= before.push(action@));
                assert(before.push(action@) =~= start + despawns(
                    held,
                    keep@.dom(),
                    i as int + 1,
                ));
            }
        }
        i += 1;
    }
}

/// Handles one event: brings the tracker to its next state and returns, in
/// order, what the host has to do to the live world. `fresh` holds the
/// handles of new empty live objects, one for each spawn; the spawns take
/// them in order.
pub fn room_system(tracker: &mut RoomTracker, event: &RoomEvent, fresh: &Vec<Handle>) -> (actions:
    Vec<Action>)
    requires
        event_allowed(old(tracker)@, event@),
        fresh@.len() >= spawns_needed(old(tracker)@, event@),
    ensures
        final(tracker)@ == next_state(old(tracker)@, event@, fresh@),
        action_models(actions@) == step_actions(old(tracker)@, event@, fresh@),
{
    let ghost before = tracker@;
    match event {
        RoomEvent::Added { id, room } => {
            let nothing: TrackedRoom = NameMap::new();
            proof {
                assert(nothing@ =~= Map::<Seq<char>, (Handle, PrefabModel)>::empty());
            }
            let (actions, entries) = realize(&nothing, room, fresh);
            table_insert(&mut tracker.rooms, *id, entries);
            proof {
                assert(tracked_model(nothing) == nothing_live());
                assert(action_models(actions@) =~= sync_actions(nothing_live(), room@, fresh@));
                assert(tracker@ =~= before.insert(*id, realized(nothing_live(), room@, fresh@)));
            }
            actions
        },
        RoomEvent::Modified { id, room } => {
            let (actions, entries) = match table_get(&tracker.rooms, *id) {
                Some(live) => {
                    let (mut actions, entries) = realize(live, room, fresh);
                    retire(live, &room.prefabs, &mut actions);
                    (actions, entries)
                },
                None => (Vec::new(), NameMap::new()),
            };
            table_insert(&mut tracker.rooms, *id, entries);
            proof {
                assert(tracker@ =~= before.insert(*id, realized(before[*id], room@, fresh@)));
            }
            actions
        },
        RoomEvent::Unused { id } => teardown(tracker, *id),
        RoomEvent::Removed { id } => teardown(tracker, *id),
        RoomEvent::LoadedWithDependencies { id } => {
            let actions: Vec<Action> = Vec::new();
            proof {
                assert(action_models(actions@) =~= Seq::<ActionModel>::empty());
            }
            actions
        },
    }
}

/// Handles `event` as `room_system` does where the event may come and
/// `fresh` holds enough handles, and otherwise does nothing and says so.
pub fn checked_room_system(tracker: &mut RoomTracker, event: &RoomEvent, fresh: &Vec<Handle>) -> (done:
    Option<Vec<Action>>)
    ensures
        done.is_some() == (event_allowed(old(tracker)@, event@) && fresh@.len() >= spawns_needed(
            old(tracker)@,
            event@,
        )),
        done.is_some() ==> final(tracker)@ == next_state(old(tracker)@, event@, fresh@)
            && action_models(done.unwrap()@) == step_actions(old(tracker)@, event@, fresh@),
        done.is_none() ==> final(tracker)@ == old(tracker)@,
{
    let allowed = match event {
        RoomEvent::Modified { id, room } => tracker.is_tracked(*id),
        _ => true,
    };
    if allowed && tracker.spawns_needed(event) <= fresh.len() {
        Some(room_system(tracker, event, fresh))
    } else {
        None
    }
}

/// Stops tracking room `id` and returns a despawn for everything that was
/// live of it.
fn teardown(tracker: &mut RoomTracker, id: RoomId) -> (actions: Vec<Action>)
    ensures
        final(tracker)@ == old(tracker)@.remove(id),
        action_models(actions@) == teardown_actions(old(tracker)@, id),
{
    let ghost before = tracker@;
    let mut actions: Vec<Action> = Vec::new();
    proof {
        assert(action_models(actions@) =~= Seq::<ActionModel>::empty());
    }
    match table_remove(&mut tracker.rooms, id) {
        Some(live) => {
            let keep: NameMap<PrefabData> = NameMap::new();
            proof {
                assert(keep@.dom() =~= Set::<Seq<char>>::empty());
            }
            retire(&live, &keep, &mut actions);
            proof {
                assert(action_models(actions@) =~= teardown_actions(before, id));
            }
        },
        None => {},
    }
    proof {
        assert(tracker@ =~= before.remove(id));
    }
    actions
}

} // verus!
