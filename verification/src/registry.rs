use crate::name_map::NameMap;
use crate::prefab::{FieldValue, Fields, PrefabData};
use vstd::prelude::*;

verus! {

/// Opaque reference to a live object owned by the host world.
pub type Handle = u64;

/// The behaviour behind one prefab type. Every prefab that a room may name
/// needs an implementation, registered under its type. `C` is whatever the
/// host hands to a behaviour so that it can reach the world.
pub trait Prefab<C> {
    /// What this behaviour makes of the host's world when it spawns a prefab
    /// with `fields` on the live object `handle`: it is for the behaviour to
    /// say, and one that says nothing promises nothing.
    open spec fn spawns(
        &self,
        fields: Map<Seq<char>, FieldValue>,
        handle: Handle,
        before: C,
        after: C,
    ) -> bool {
        true
    }

    /// What this behaviour makes of the host's world when it applies
    /// `changed_fields` to the live object `handle`: it is for the behaviour
    /// to say, and one that says nothing promises nothing.
    open spec fn updates(
        &self,
        changed_fields: Map<Seq<char>, FieldValue>,
        handle: Handle,
        before: C,
        after: C,
    ) -> bool {
        true
    }

    /// Called when a prefab is realized for the first time: binds the
    /// prefab's state, built from all of its `fields`, to the live object
    /// behind `handle`.
    fn spawn_prfab(&self, fields: &Fields, handle: Handle, context: &mut C)
        ensures
            self.spawns(fields@, handle, *old(context), *final(context)),
    ;

    /// Called when the description of a live prefab changed: applies the
    /// fields in `changed_fields`, and only those, to the live object behind
    /// `handle`.
    fn update_prfab(&self, changed_fields: &Fields, handle: Handle, context: &mut C)
        ensures
            self.updates(changed_fields@, handle, *old(context), *final(context)),
    ;
}

/// The table of behaviours by prefab type.
pub struct PrefabRegistry<P> {
    prefabs: NameMap<P>,
}

impl<P> PrefabRegistry<P> {
    /// Whether a behaviour is registered under `prefab_type`.
    pub closed spec fn registered(self, prefab_type: Seq<char>) -> bool {
        self.prefabs.has(prefab_type)
    }

    /// The behaviour registered under `prefab_type`.
    pub closed spec fn behavior(self, prefab_type: Seq<char>) -> P {
        self.prefabs.value_of(prefab_type)
    }

    /// A registry without behaviours.
    pub fn new() -> (registry: Self)
        ensures
            forall|prefab_type: Seq<char>| !registry.registered(prefab_type),
    {
        PrefabRegistry { prefabs: NameMap::new() }
    }

    /// Registers `prefab` under `name`. A behaviour registered earlier under
    /// the same name is replaced; every other registration stays.
    pub fn register_prefab(&mut self, name: &str, prefab: P)
        ensures
            final(self).registered(name@),
            final(self).behavior(name@) == prefab,
            forall|other: Seq<char>|
                other != name@ ==> final(self).registered(other) == old(self).registered(other),
            forall|other: Seq<char>|
                other != name@ && old(self).registered(other) ==> final(self).behavior(other)
                    == old(self).behavior(other),
    {
        self.prefabs.insert(name.to_owned(), prefab);
    }

    /// The behaviour registered under `prefab_type`, if there is one.
    pub fn lookup(&self, prefab_type: &String) -> (found: Option<&P>)
        ensures
            match found {
                Some(prefab) => self.registered(prefab_type@) && *prefab == self.behavior(
                    prefab_type@,
                ),
                None => !self.registered(prefab_type@),
            },
    {
        self.prefabs.get(prefab_type)
    }

    /// Hands the fields of `prefab_data` to the spawn behaviour registered
    /// under its type. The type must be registered: a room that names an
    /// unknown type is a mistake in the content.
    pub fn spawn<C>(&self, prefab_data: &PrefabData, handle: Handle, context: &mut C) where
        P: Prefab<C>,
        requires
            self.registered(prefab_data@.prefab_type),
        ensures
            self.behavior(prefab_data@.prefab_type).spawns(
                prefab_data@.fields,
                handle,
                *old(context),
                *final(context),
            ),
    {
        match self.prefabs.get(&prefab_data.prefab_type) {
            Some(prefab) => prefab.spawn_prfab(&prefab_data.fields, handle, context),
            None => {},
        }
    }

    /// Hands `changed_fields` to the update behaviour registered under
    /// `prefab_type`, which must be registered.
    pub fn update<C>(
        &self,
        prefab_type: &String,
        changed_fields: Fields,
        handle: Handle,
        context: &mut C,
    ) where P: Prefab<C>,
        requires
            self.registered(prefab_type@),
        ensures
            self.behavior(prefab_type@).updates(
                changed_fields@,
                handle,
                *old(context),
                *final(context),
            ),
    {
        match self.prefabs.get(prefab_type) {
            Some(prefab) => prefab.update_prfab(&changed_fields, handle, context),
            None => {},
        }
    }
}

} // verus!
