use hana_prefab::name_map::NameMap;
use hana_prefab::prefab::{Fields, PrefabData, PrefabField};
use hana_prefab::registry::{Handle, Prefab, PrefabRegistry};
use hana_prefab::room::{checked_room_system, room_system, Action, Room, RoomEvent, RoomTracker};

fn number(value: f32) -> PrefabField {
    PrefabField::Number(value.to_bits())
}

fn prefab(prefab_type: &str, entries: Vec<(&str, PrefabField)>) -> PrefabData {
    let mut fields: Fields = NameMap::new();
    for (name, value) in entries {
        fields.insert(name.to_string(), value);
    }
    PrefabData { prefab_type: prefab_type.to_string(), fields }
}

fn room(entries: Vec<(&str, PrefabData)>) -> Room {
    let mut prefabs: NameMap<PrefabData> = NameMap::new();
    for (name, data) in entries {
        prefabs.insert(name.to_string(), data);
    }
    Room { prefabs }
}

fn show_fields(fields: &Fields) -> String {
    let mut out = String::new();
    for i in 0..fields.len() {
        out.push_str(&format!("{}={:?};", fields.name_at(i), fields.value_at(i)));
    }
    out
}

/// Writes down every call it gets.
struct Recorder {
    label: &'static str,
}

impl Prefab<Vec<String>> for Recorder {
    fn spawn_prfab(&self, fields: &Fields, handle: Handle, context: &mut Vec<String>) {
        context.push(format!("{} spawn {} {}", self.label, handle, show_fields(fields)));
    }

    fn update_prfab(&self, changed_fields: &Fields, handle: Handle, context: &mut Vec<String>) {
        context.push(format!("{} update {} {}", self.label, handle, show_fields(changed_fields)));
    }
}

/// Does to the log what a host does to its world.
fn perform(registry: &PrefabRegistry<Recorder>, actions: Vec<Action>, log: &mut Vec<String>) {
    for action in actions {
        match action {
            Action::Spawn { name: _, handle, prefab } => {
                assert!(registry.lookup(&prefab.prefab_type).is_some());
                registry.spawn(&prefab, handle, log);
            }
            Action::Update { name: _, handle, prefab_type, changed_fields } => {
                assert!(registry.lookup(&prefab_type).is_some());
                registry.update(&prefab_type, changed_fields, handle, log);
            }
            Action::Despawn { name, handle } => log.push(format!("despawn {} {}", name, handle)),
        }
    }
}

fn handle_event(
    tracker: &mut RoomTracker,
    registry: &PrefabRegistry<Recorder>,
    event: RoomEvent,
    next_handle: &mut Handle,
) -> Vec<String> {
    let needed = tracker.spawns_needed(&event);
    let mut fresh = Vec::new();
    for _ in 0..needed {
        fresh.push(*next_handle);
        *next_handle += 1;
    }
    let actions = room_system(tracker, &event, &fresh);
    let mut log = Vec::new();
    perform(registry, actions, &mut log);
    log
}

fn registry_with(tags: Vec<&'static str>) -> PrefabRegistry<Recorder> {
    let mut registry = PrefabRegistry::new();
    for tag in tags {
        registry.register_prefab(tag, Recorder { label: tag });
    }
    registry
}

#[test]
fn added_spawns_the_single_prefab_with_its_fields() {
    let registry = registry_with(vec!["T"]);
    let mut tracker = RoomTracker::new();
    let mut next = 100;
    let doc = room(vec![("a", prefab("T", vec![("x", number(1.0))]))]);
    let log = handle_event(&mut tracker, &registry, RoomEvent::Added { id: 1, room: doc }, &mut next);
    assert_eq!(log, vec![format!("T spawn 100 x=Number({});", 1.0f32.to_bits())]);
    assert!(tracker.is_tracked(1));
    let live = tracker.get(1).unwrap();
    assert_eq!(live.len(), 1);
    assert_eq!(live.get(&"a".to_string()).unwrap().0, 100);
}

#[test]
fn modified_updates_with_the_changed_field_under_the_same_handle() {
    let registry = registry_with(vec!["T"]);
    let mut tracker = RoomTracker::new();
    let mut next = 100;
    let doc = room(vec![("a", prefab("T", vec![("x", number(1.0))]))]);
    handle_event(&mut tracker, &registry, RoomEvent::Added { id: 1, room: doc }, &mut next);
    let doc = room(vec![("a", prefab("T", vec![("x", number(2.0))]))]);
    let log = handle_event(&mut tracker, &registry, RoomEvent::Modified { id: 1, room: doc }, &mut next);
    assert_eq!(log, vec![format!("T update 100 x=Number({});", 2.0f32.to_bits())]);
    assert_eq!(next, 101);
    let live = tracker.get(1).unwrap();
    let entry = live.get(&"a".to_string()).unwrap();
    assert_eq!(entry.0, 100);
    assert_eq!(entry.1.fields.get(&"x".to_string()), Some(&number(2.0)));
}

#[test]
fn added_then_removed_despawns_each_spawned_prefab_once() {
    let registry = registry_with(vec!["T", "U"]);
    let mut tracker = RoomTracker::new();
    let mut next = 5;
    let doc = room(vec![
        ("a", prefab("T", vec![])),
        ("b", prefab("U", vec![("on", PrefabField::Bool(true))])),
        ("c", prefab("T", vec![])),
    ]);
    let log = handle_event(&mut tracker, &registry, RoomEvent::Added { id: 9, room: doc }, &mut next);
    assert_eq!(log, vec!["T spawn 5 ", "U spawn 6 on=Bool(true);", "T spawn 7 "]);
    let log = handle_event(&mut tracker, &registry, RoomEvent::Removed { id: 9 }, &mut next);
    assert_eq!(log, vec!["despawn a 5", "despawn b 6", "despawn c 7"]);
    assert!(!tracker.is_tracked(9));
    assert!(tracker.get(9).is_none());
    let log = handle_event(&mut tracker, &registry, RoomEvent::Removed { id: 9 }, &mut next);
    assert!(log.is_empty());
}

#[test]
fn modified_spawns_what_is_new_and_despawns_what_is_gone() {
    let registry = registry_with(vec!["T"]);
    let mut tracker = RoomTracker::new();
    let mut next = 10;
    let doc = room(vec![
        ("keep", prefab("T", vec![("x", number(1.0))])),
        ("same", prefab("T", vec![("y", PrefabField::Null)])),
        ("gone", prefab("T", vec![])),
    ]);
    handle_event(&mut tracker, &registry, RoomEvent::Added { id: 3, room: doc }, &mut next);
    let doc = room(vec![
        ("come", prefab("T", vec![("z", PrefabField::String("hi".to_string()))])),
        ("same", prefab("T", vec![("y", PrefabField::Null)])),
        ("keep", prefab("T", vec![("x", number(4.0))])),
    ]);
    let log = handle_event(&mut tracker, &registry, RoomEvent::Modified { id: 3, room: doc }, &mut next);
    assert_eq!(
        log,
        vec![
            "T spawn 13 z=String(\"hi\");".to_string(),
            "T update 11 ".to_string(),
            format!("T update 10 x=Number({});", 4.0f32.to_bits()),
            "despawn gone 12".to_string(),
        ]
    );
    let live = tracker.get(3).unwrap();
    assert_eq!(live.len(), 3);
    assert_eq!(live.get(&"come".to_string()).unwrap().0, 13);
    assert_eq!(live.get(&"same".to_string()).unwrap().0, 11);
    assert_eq!(live.get(&"keep".to_string()).unwrap().0, 10);
    assert!(live.get(&"gone".to_string()).is_none());
}

#[test]
fn unused_tears_down_only_its_own_room() {
    let registry = registry_with(vec!["T"]);
    let mut tracker = RoomTracker::new();
    let mut next = 0;
    let first = room(vec![("a", prefab("T", vec![])), ("b", prefab("T", vec![]))]);
    let second = room(vec![("a", prefab("T", vec![("x", number(1.0))]))]);
    handle_event(&mut tracker, &registry, RoomEvent::Added { id: 1, room: first }, &mut next);
    handle_event(&mut tracker, &registry, RoomEvent::Added { id: 2, room: second }, &mut next);
    let log = handle_event(&mut tracker, &registry, RoomEvent::Unused { id: 1 }, &mut next);
    assert_eq!(log, vec!["despawn a 0", "despawn b 1"]);
    assert!(!tracker.is_tracked(1));
    assert!(tracker.is_tracked(2));
    let live = tracker.get(2).unwrap();
    assert_eq!(live.len(), 1);
    let entry = live.get(&"a".to_string()).unwrap();
    assert_eq!(entry.0, 2);
    assert_eq!(entry.1.prefab_type, "T");
    assert_eq!(entry.1.fields.get(&"x".to_string()), Some(&number(1.0)));
}

#[test]
fn loaded_with_dependencies_changes_nothing() {
    let registry = registry_with(vec!["T"]);
    let mut tracker = RoomTracker::new();
    let mut next = 0;
    let doc = room(vec![("a", prefab("T", vec![]))]);
    handle_event(&mut tracker, &registry, RoomEvent::Added { id: 1, room: doc }, &mut next);
    let log =
        handle_event(&mut tracker, &registry, RoomEvent::LoadedWithDependencies { id: 1 }, &mut next);
    assert!(log.is_empty());
    let log =
        handle_event(&mut tracker, &registry, RoomEvent::LoadedWithDependencies { id: 8 }, &mut next);
    assert!(log.is_empty());
    assert!(tracker.is_tracked(1));
    assert!(!tracker.is_tracked(8));
    assert_eq!(tracker.get(1).unwrap().get(&"a".to_string()).unwrap().0, 0);
}

#[test]
fn a_changed_type_keeps_the_handle_and_reports_no_field() {
    let registry = registry_with(vec!["T", "U"]);
    let mut tracker = RoomTracker::new();
    let mut next = 0;
    let doc = room(vec![("a", prefab("T", vec![("x", number(1.0))]))]);
    handle_event(&mut tracker, &registry, RoomEvent::Added { id: 1, room: doc }, &mut next);
    let doc = room(vec![("a", prefab("U", vec![("x", number(2.0))]))]);
    let log = handle_event(&mut tracker, &registry, RoomEvent::Modified { id: 1, room: doc }, &mut next);
    assert_eq!(log, vec!["U update 0 "]);
    let entry_type = tracker.get(1).unwrap().get(&"a".to_string()).unwrap().1.prefab_type.clone();
    assert_eq!(entry_type, "U");
}

#[test]
fn spawns_needed_counts_the_names_that_are_not_live() {
    let registry = registry_with(vec!["T"]);
    let mut tracker = RoomTracker::new();
    let mut next = 0;
    let doc = room(vec![("a", prefab("T", vec![])), ("b", prefab("T", vec![]))]);
    let added = RoomEvent::Added { id: 1, room: doc };
    assert_eq!(tracker.spawns_needed(&added), 2);
    handle_event(&mut tracker, &registry, added, &mut next);
    let doc = room(vec![
        ("c", prefab("T", vec![])),
        ("a", prefab("T", vec![])),
        ("d", prefab("T", vec![])),
    ]);
    assert_eq!(tracker.spawns_needed(&RoomEvent::Modified { id: 1, room: doc }), 2);
    assert_eq!(tracker.spawns_needed(&RoomEvent::Unused { id: 1 }), 0);
    assert_eq!(tracker.spawns_needed(&RoomEvent::Removed { id: 1 }), 0);
    assert_eq!(tracker.spawns_needed(&RoomEvent::LoadedWithDependencies { id: 1 }), 0);
}

#[test]
fn room_system_lists_actions_in_document_order() {
    let mut tracker = RoomTracker::new();
    let doc = room(vec![("a", prefab("T", vec![])), ("b", prefab("U", vec![]))]);
    let actions = room_system(&mut tracker, &RoomEvent::Added { id: 4, room: doc }, &vec![30, 40, 50]);
    assert_eq!(actions.len(), 2);
    match &actions[0] {
        Action::Spawn { name, handle, prefab } => {
            assert_eq!(name, "a");
            assert_eq!(*handle, 30);
            assert_eq!(prefab.prefab_type, "T");
        }
        other => panic!("unexpected action {:?}", other),
    }
    match &actions[1] {
        Action::Spawn { name, handle, prefab } => {
            assert_eq!(name, "b");
            assert_eq!(*handle, 40);
            assert_eq!(prefab.prefab_type, "U");
        }
        other => panic!("unexpected action {:?}", other),
    }
}

#[test]
fn registering_twice_keeps_the_last_behaviour() {
    let mut registry = PrefabRegistry::new();
    assert!(registry.lookup(&"T".to_string()).is_none());
    registry.register_prefab("T", Recorder { label: "first" });
    registry.register_prefab("U", Recorder { label: "other" });
    registry.register_prefab("T", Recorder { label: "second" });
    assert_eq!(registry.lookup(&"T".to_string()).unwrap().label, "second");
    assert_eq!(registry.lookup(&"U".to_string()).unwrap().label, "other");
    assert!(registry.lookup(&"V".to_string()).is_none());
    let mut log = Vec::new();
    registry.spawn(&prefab("T", vec![("x", PrefabField::Bool(true))]), 3, &mut log);
    let mut changed: Fields = NameMap::new();
    changed.insert("y".to_string(), PrefabField::Null);
    registry.update(&"U".to_string(), changed, 4, &mut log);
    assert_eq!(log, vec!["second spawn 3 x=Bool(true);", "other update 4 y=Null;"]);
}

#[test]
fn a_new_tracker_knows_no_room() {
    let tracker = RoomTracker::new();
    assert!(!tracker.is_tracked(0));
    assert!(!tracker.is_tracked(1));
    assert!(tracker.get(0).is_none());
    assert_eq!(tracker.spawns_needed(&RoomEvent::Removed { id: 0 }), 0);
}

#[test]
fn adding_a_loaded_room_again_replaces_what_was_live_without_despawns() {
    let registry = registry_with(vec!["T"]);
    let mut tracker = RoomTracker::new();
    let mut next = 0;
    let doc = room(vec![("a", prefab("T", vec![])), ("b", prefab("T", vec![]))]);
    handle_event(&mut tracker, &registry, RoomEvent::Added { id: 1, room: doc }, &mut next);
    let doc = room(vec![("a", prefab("T", vec![]))]);
    let log = handle_event(&mut tracker, &registry, RoomEvent::Added { id: 1, room: doc }, &mut next);
    assert_eq!(log, vec!["T spawn 2 "]);
    let live = tracker.get(1).unwrap();
    assert_eq!(live.len(), 1);
    assert_eq!(live.get(&"a".to_string()).unwrap().0, 2);
}

#[test]
fn an_empty_room_is_loaded_with_nothing_live() {
    let registry = registry_with(vec![]);
    let mut tracker = RoomTracker::new();
    let mut next = 0;
    let log = handle_event(&mut tracker, &registry, RoomEvent::Added { id: 6, room: room(vec![]) }, &mut next);
    assert!(log.is_empty());
    assert!(tracker.is_tracked(6));
    assert_eq!(tracker.get(6).unwrap().len(), 0);
    let log = handle_event(&mut tracker, &registry, RoomEvent::Unused { id: 6 }, &mut next);
    assert!(log.is_empty());
    assert!(!tracker.is_tracked(6));
}

#[test]
fn checked_room_system_refuses_what_room_system_may_not_get() {
    let mut tracker = RoomTracker::new();
    let doc = room(vec![("a", prefab("T", vec![])), ("b", prefab("T", vec![]))]);
    let modified = RoomEvent::Modified { id: 1, room: doc };
    assert!(checked_room_system(&mut tracker, &modified, &vec![1, 2]).is_none());
    assert!(!tracker.is_tracked(1));

    let doc = room(vec![("a", prefab("T", vec![])), ("b", prefab("T", vec![]))]);
    let added = RoomEvent::Added { id: 1, room: doc };
    assert!(checked_room_system(&mut tracker, &added, &vec![7]).is_none());
    assert!(!tracker.is_tracked(1));

    let actions = checked_room_system(&mut tracker, &added, &vec![7, 8]).unwrap();
    assert_eq!(actions.len(), 2);
    assert!(tracker.is_tracked(1));
    assert_eq!(tracker.get(1).unwrap().get(&"b".to_string()).unwrap().0, 8);

    let actions = checked_room_system(&mut tracker, &modified, &vec![]).unwrap();
    assert_eq!(actions.len(), 2);
    assert!(matches!(&actions[0], Action::Update { handle: 7, .. }));
    assert!(matches!(&actions[1], Action::Update { handle: 8, .. }));

    let actions = checked_room_system(&mut tracker, &RoomEvent::Removed { id: 1 }, &vec![]).unwrap();
    assert_eq!(actions.len(), 2);
    assert!(matches!(&actions[0], Action::Despawn { handle: 7, .. }));
    assert!(matches!(&actions[1], Action::Despawn { handle: 8, .. }));
}
