use crate::name_map::NameMap;
use vstd::prelude::*;

verus! {

/// The mathematical value of one prefab field.
pub enum FieldValue {
    Number(u32),
    Bool(bool),
    Vec2(u32, u32),
    Text(Seq<char>),
    Null,
}

/// One field of a prefab. Numbers are held as the bit pattern of a
/// single-precision float, so that two numbers are equal exactly when their
/// bits are.
#[derive(Debug, PartialEq)]
pub enum PrefabField {
    Number(u32),
    Bool(bool),
    Vec2(u32, u32),
    String(String),
    Null,
}

impl View for PrefabField {
    type V = FieldValue;

    open spec fn view(&self) -> FieldValue {
        match *self {
            PrefabField::Number(bits) => FieldValue::Number(bits),
            PrefabField::Bool(b) => FieldValue::Bool(b),
            PrefabField::Vec2(x, y) => FieldValue::Vec2(x, y),
            PrefabField::String(s) => FieldValue::Text(s@),
            PrefabField::Null => FieldValue::Null,
        }
    }
}

impl Clone for PrefabField {
    fn clone(&self) -> (r: Self)
        ensures
            r@ == self@,
    {
        match self {
            PrefabField::Number(bits) => PrefabField::Number(*bits),
            PrefabField::Bool(b) => PrefabField::Bool(*b),
            PrefabField::Vec2(x, y) => PrefabField::Vec2(*x, *y),
            PrefabField::String(s) => PrefabField::String(s.clone()),
            PrefabField::Null => PrefabField::Null,
        }
    }
}

impl PrefabField {
    /// Structural equality: same variant, same payload.
    pub fn same(&self, other: &PrefabField) -> (r: bool)
        ensures
            r == (self@ == other@),
    {
        match (self, other) {
            (PrefabField::Number(a), PrefabField::Number(b)) => *a == *b,
            (PrefabField::Bool(a), PrefabField::Bool(b)) => *a == *b,
            (PrefabField::Vec2(a, b), PrefabField::Vec2(c, d)) => *a == *c && *b == *d,
            (PrefabField::String(a), PrefabField::String(b)) => *a == *b,
            (PrefabField::Null, PrefabField::Null) => true,
            _ => false,
        }
    }
}

/// The fields of one prefab, by field name.
pub type Fields = NameMap<PrefabField>;

/// A copy of `fields` with the same names in the same order.
pub fn copy_fields(fields: &Fields) -> (copy: Fields)
    ensures
        copy.names() == fields.names(),
        copy@ == fields@,
{
    let n: usize = fields.len();
    let mut copy: Fields = NameMap::new();
    let mut i: usize = 0;
    while i < n
        invariant
            n == fields.names().len(),
            fields.values().len() == n,
            fields.names().no_duplicates(),
            i <= n,
            copy.names() == fields.names().take(i as int),
            copy.values().len() == i,
            forall|j: int| 0 <= j < i ==> (#[trigger] copy.values()[j])@ == fields.values()[j]@,
        decreases n - i,
    {
        let ghost before = copy;
        proof {
            if before.has(fields.names()[i as int]) {
                let j = before.names().index_of(fields.names()[i as int]);
                assert(fields.names()[j] == fields.names()[i as int]);
            }
        }
        copy.insert(fields.name_at(i).clone(), fields.value_at(i).clone());
        proof {
            assert(fields.names().take(i as int).push(fields.names()[i as int])
                =~= fields.names().take(i as int + 1));
        }
        i += 1;
    }
    proof {
        assert(fields.names().take(n as int) =~= fields.names());
        assert forall|name: Seq<char>| copy.has(name) implies copy.value_of(name)@
            == fields.value_of(name)@ by {
            let j = copy.names().index_of(name);
            assert(copy.values()[j]@ == fields.values()[j]@);
        }
        assert(copy@ =~= fields@);
    }
    copy
}

/// The mathematical value of a prefab description.
pub struct PrefabModel {
    pub prefab_type: Seq<char>,
    pub fields: Map<Seq<char>, FieldValue>,
}

/// The description of a single prefab: the type that decides which behaviour
/// governs it, and its fields.
#[derive(Debug)]
pub struct PrefabData {
    pub prefab_type: String,
    pub fields: Fields,
}

impl View for PrefabData {
    type V = PrefabModel;

    open spec fn view(&self) -> PrefabModel {
        PrefabModel { prefab_type: self.prefab_type@, fields: self.fields@ }
    }
}

impl Clone for PrefabData {
    fn clone(&self) -> (r: Self)
        ensures
            r@ == self@,
    {
        PrefabData { prefab_type: self.prefab_type.clone(), fields: copy_fields(&self.fields) }
    }
}

/// The fields that a change from `old` to `new` touches: those of `new` that
/// `old` lacks or holds with another value, each with its value in `new`.
/// Fields that only `old` has are not reported, and between prefabs of
/// different types nothing is.
pub open spec fn changed_fields(old: PrefabModel, new: PrefabModel) -> Map<Seq<char>, FieldValue> {
    if old.prefab_type != new.prefab_type {
        Map::empty()
    } else {
        Map::new(
            |name: Seq<char>|
                new.fields.dom().contains(name) && !(old.fields.dom().contains(name)
                    && old.fields[name] == new.fields[name]),
            |name: Seq<char>| new.fields[name],
        )
    }
}

/// A field is reported as changed exactly when `new` has it and `old` either
/// lacks it or holds another value under it; the value reported is that of
/// `new`. A field that both hold with the same value is never reported.
pub proof fn law_changed_fields_exact(old: PrefabData, new: PrefabData, name: Seq<char>)
    requires
        old@.prefab_type == new@.prefab_type,
    ensures
        changed_fields(old@, new@).dom().contains(name) <==> new@.fields.dom().contains(name) && (
        !old@.fields.dom().contains(name) || old@.fields[name] != new@.fields[name]),
        changed_fields(old@, new@).dom().contains(name) ==> changed_fields(old@, new@)[name]
            == new@.fields[name],
        old@.fields.dom().contains(name) && new@.fields.dom().contains(name) && old@.fields[name]
            == new@.fields[name] ==> !changed_fields(old@, new@).dom().contains(name),
{
}

/// Between a prefab and itself no field changed.
pub proof fn law_changed_fields_of_same(prefab: PrefabData)
    ensures
        changed_fields(prefab@, prefab@) == Map::<Seq<char>, FieldValue>::empty(),
{
    assert(changed_fields(prefab@, prefab@) =~= Map::<Seq<char>, FieldValue>::empty());
}

/// Whether `old` holds every field of `new`, with the same value.
pub open spec fn carries_fields(old: PrefabModel, new: PrefabModel) -> bool {
    forall|name: Seq<char>| #[trigger]
        new.fields.dom().contains(name) ==> old.fields.dom().contains(name) && old.fields[name]
            == new.fields[name]
}

/// No field is reported exactly when the types differ or `old` holds every
/// field of `new` with the same value.
pub proof fn law_changed_fields_empty(old: PrefabData, new: PrefabData)
    ensures
        changed_fields(old@, new@) == Map::<Seq<char>, FieldValue>::empty() <==> (old@.prefab_type
            != new@.prefab_type || carries_fields(old@, new@)),
{
    let changed = changed_fields(old@, new@);
    let empty = Map::<Seq<char>, FieldValue>::empty();
    if old@.prefab_type == new@.prefab_type {
        if changed == empty {
            assert forall|name: Seq<char>| #[trigger]
                new@.fields.dom().contains(name) implies old@.fields.dom().contains(name)
                && old@.fields[name] == new@.fields[name] by {
                assert(!changed.dom().contains(name));
            }
            assert(carries_fields(old@, new@));
        }
        if carries_fields(old@, new@) {
            assert forall|name: Seq<char>| !changed.dom().contains(name) by {
                if new@.fields.dom().contains(name) {
                    assert(old@.fields.dom().contains(name) && old@.fields[name]
                        == new@.fields[name]);
                }
            }
            assert(changed =~= empty);
        }
    } else {
        assert(changed == empty);
    }
}

impl PrefabData {
    /// Computes the fields that changed from `old_prefab` to `new_prefab`.
    pub fn get_changed_fields(old_prefab: &PrefabData, new_prefab: &PrefabData) -> (changed: Fields)
        ensures
            changed@ == changed_fields(old_prefab@, new_prefab@),
    {
        let mut changed: Fields = NameMap::new();
        if old_prefab.prefab_type != new_prefab.prefab_type {
            proof {
                assert(changed@ =~= Map::<Seq<char>, FieldValue>::empty());
            }
            return changed;
        }
        let n: usize = new_prefab.fields.len();
        let ghost names = new_prefab.fields.names();
        let mut i: usize = 0;
        while i < n
            invariant
                n == names.len(),
                names == new_prefab.fields.names(),
                new_prefab.fields.values().len() == n,
                names.no_duplicates(),
                i <= n,
                old_prefab@.prefab_type == new_prefab@.prefab_type,
                forall|name: Seq<char>|
                    changed.has(name) <==> names.take(i as int).contains(name) && changed_fields(
                        old_prefab@,
                        new_prefab@,
                    ).dom().contains(name),
                forall|name: Seq<char>|
                    changed.has(name) ==> changed.value_of(name)@ == new_prefab@.fields[name],
            decreases n - i,
        {
            let key = new_prefab.fields.name_at(i);
            let field = new_prefab.fields.value_at(i);
            proof {
                crate::name_map::lemma_index_of_unique(names, i as int);
                assert(names.take(i as int + 1) =~= names.take(i as int).push(names[i as int]));
                assert forall|name: Seq<char>|
                    names.take(i as int + 1).contains(name) <==> names.take(i as int).contains(name)
                        || name == names[i as int] by {
                    if names.take(i as int).contains(name) {
                        let j = names.take(i as int).index_of(name);
                        assert(names.take(i as int + 1)[j] == name);
                    }
                    if name == names[i as int] {
                        assert(names.take(i as int + 1)[i as int] == name);
                    }
                }
            }
            let keep = match old_prefab.fields.get(key) {
                Some(other_field) => !other_field.same(field),
                None => true,
            };
            if keep {
                changed.insert(key.clone(), field.clone());
            }
            i += 1;
        }
        proof {
            assert(names.take(n as int) =~= names);
            assert(changed@ =~= changed_fields(old_prefab@, new_prefab@));
        }
        changed
    }
}

} // verus!
