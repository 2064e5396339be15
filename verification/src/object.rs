//! The scriptable object store: an arena of objects addressed by index,
//! each with its own property table, an optional prototype link, and an
//! optional display-object capability.
//!
//! A `&mut` borrow of the arena is the scope-bound mutation capability:
//! every mutating operation takes it, and the borrow checker guarantees no
//! reference into the store outlives the call that was handed it.

use vstd::prelude::*;
use crate::display::DisplayInfo;
use crate::property::{Attributes, NativeGetter, NativeSetter, PropertyEntry, PropertyKind,
    PropertySlot};
use crate::property::{lemma_slots_map_contains, lemma_slots_map_index, lemma_slots_map_remove,
    lemma_slots_map_update, slots_map, unique_names};
use crate::strings::str_eq;
use crate::value::Value;

verus! {

/// One scriptable object: its own property table, its prototype, and what
/// the display subsystem knows of it.
pub struct ScriptObject {
    pub properties: Vec<PropertySlot>,
    /// The prototype's index; always an earlier index, so prototype chains
    /// cannot cycle.
    pub proto: Option<usize>,
    /// Present exactly when the object is a display object.
    pub display: Option<DisplayInfo>,
}

/// The object store.
pub struct ObjectArena {
    pub objects: Vec<ScriptObject>,
}

/// The context-provided singletons the computed properties read.
pub struct ScriptContext {
    pub global_object: Option<usize>,
    pub root_object: Option<usize>,
}

impl ScriptObject {
    /// The object's own property table as a map from name to entry.
    pub open spec fn own_map(self) -> Map<Seq<char>, PropertyEntry> {
        slots_map(self.properties@)
    }

    pub open spec fn wf(self, id: int) -> bool {
        &&& (self.proto matches Some(p) ==> (p as int) < id)
        &&& unique_names(self.properties@)
        &&& crate::display::display_wf(self.display)
    }
}

impl ObjectArena {
    pub open spec fn wf(self) -> bool {
        forall|i: int| 0 <= i < self.objects@.len() ==> (#[trigger] self.objects@[i]).wf(i)
    }

    pub open spec fn valid(self, id: int) -> bool {
        0 <= id < self.objects@.len()
    }

    pub open spec fn own_map_of(self, id: int) -> Map<Seq<char>, PropertyEntry> {
        self.objects@[id].own_map()
    }

    pub fn new() -> (r: ObjectArena)
        ensures
            r.wf(),
            r.objects@.len() == 0,
    {
        ObjectArena { objects: Vec::new() }
    }
}

/// Own-table-first resolution along the prototype chain: the nearest entry
/// wins, so an own entry always shadows an inherited one.
pub open spec fn resolve_spec(arena: ObjectArena, id: int, name: Seq<char>) -> Option<PropertyEntry>
    decreases id,
{
    if arena.wf() && arena.valid(id) {
        let obj = arena.objects@[id];
        if obj.own_map().contains_key(name) {
            Some(obj.own_map()[name])
        } else {
            match obj.proto {
                Some(p) => resolve_spec(arena, p as int, name),
                None => None,
            }
        }
    } else {
        None
    }
}

/// Whether `target` lies on `id`'s prototype chain (including `id` itself).
pub open spec fn on_chain(arena: ObjectArena, id: int, target: int) -> bool
    decreases id,
{
    if arena.wf() && arena.valid(id) {
        id == target || (match arena.objects@[id].proto {
            Some(p) => on_chain(arena, p as int, target),
            None => false,
        })
    } else {
        false
    }
}

fn find_slot(slots: &Vec<PropertySlot>, name: &str) -> (r: Option<usize>)
    ensures
        match r {
            Some(i) => i < slots@.len() && slots@[i as int].name@ == name@,
            None => forall|j: int| 0 <= j < slots@.len() ==> slots@[j].name@ != name@,
        },
{
    let n = slots.len();
    let mut i: usize = 0;
    while i < n
        invariant
            n == slots@.len(),
            0 <= i <= n,
            forall|j: int| 0 <= j < i ==> slots@[j].name@ != name@,
        decreases n - i,
    {
        if str_eq(slots[i].name.as_str(), name) {
            return Some(i);
        }
        i += 1;
    }
    None
}

/// Resolves a member to the nearest entry along the prototype chain.
pub fn lookup<'a>(arena: &'a ObjectArena, this: usize, name: &str) -> (r: Option<&'a PropertyEntry>)
    requires
        arena.wf(),
        arena.valid(this as int),
    ensures
        match r {
            Some(e) => resolve_spec(*arena, this as int, name@) == Some(*e),
            None => resolve_spec(*arena, this as int, name@) is None,
        },
{
    let mut cur: usize = this;
    loop
        invariant
            arena.wf(),
            arena.valid(cur as int),
            resolve_spec(*arena, this as int, name@) == resolve_spec(*arena, cur as int, name@),
        decreases cur,
    {
        let obj = &arena.objects[cur];
        let found = find_slot(&obj.properties, name);
        match found {
            Some(i) => {
                proof {
                    lemma_slots_map_index(obj.properties@, i as int);
                }
                return Some(&obj.properties[i].entry);
            },
            None => {
                proof {
                    lemma_slots_map_contains(obj.properties@, name@);
                }
                match obj.proto {
                    Some(p) => {
                        cur = p;
                    },
                    None => {
                        return None;
                    },
                }
            },
        }
    }
}

/// Installs or replaces a member of the object's own table, unconditionally:
/// re-registration silently overwrites.
pub fn define(arena: &mut ObjectArena, this: usize, name: &str, entry: PropertyEntry)
    requires
        old(arena).wf(),
        old(arena).valid(this as int),
    ensures
        final(arena).wf(),
        final(arena).objects@.len() == old(arena).objects@.len(),
        forall|i: int|
            0 <= i < final(arena).objects@.len() && i != this as int ==> final(arena).objects@[i]
                == old(arena).objects@[i],
        final(arena).objects@[this as int].proto == old(arena).objects@[this as int].proto,
        final(arena).objects@[this as int].display == old(arena).objects@[this as int].display,
        final(arena).own_map_of(this as int) == old(arena).own_map_of(this as int).insert(
            name@,
            entry,
        ),
{
    let ghost old_slots = arena.objects@[this as int].properties@;
    let obj = &mut arena.objects[this];
    let found = find_slot(&obj.properties, name);
    match found {
        Some(i) => {
            let slot = &mut obj.properties[i];
            slot.entry = entry;
            proof {
                assert(obj.properties@ =~= old_slots.update(
                    i as int,
                    PropertySlot { name: old_slots[i as int].name, entry },
                ));
                lemma_slots_map_update(old_slots, i as int, entry);
                assert(unique_names(obj.properties@));
            }
        },
        None => {
            obj.properties.push(PropertySlot { name: name.to_owned(), entry });
            proof {
                assert(obj.properties@.drop_last() =~= old_slots);
                assert(slots_map(obj.properties@) =~= slots_map(old_slots).insert(name@, entry));
                assert(unique_names(obj.properties@));
            }
        },
    }
}

/// Appends a fresh object with an empty own table. The prototype, if given,
/// must already exist, which keeps prototype chains acyclic.
pub fn new_object(
    arena: &mut ObjectArena,
    proto: Option<usize>,
    display: Option<DisplayInfo>,
) -> (id: usize)
    requires
        old(arena).wf(),
        (proto matches Some(p) ==> (p as int) < old(arena).objects@.len()),
        crate::display::display_wf(display),
    ensures
        final(arena).wf(),
        id == old(arena).objects@.len(),
        final(arena).objects@.len() == id + 1,
        forall|i: int| 0 <= i < id ==> final(arena).objects@[i] == old(arena).objects@[i],
        final(arena).own_map_of(id as int) == Map::<Seq<char>, PropertyEntry>::empty(),
        final(arena).objects@[id as int].proto == proto,
        final(arena).objects@[id as int].display == display,
{
    let id = arena.objects.len();
    arena.objects.push(ScriptObject { properties: Vec::new(), proto, display });
    id
}

/// A data entry holding `value`, under the given attributes.
pub open spec fn data_entry(value: Value, attrs: Attributes) -> PropertyEntry {
    PropertyEntry { kind: PropertyKind::Data { value }, attrs }
}

/// The own member each computed-property setter installs.
pub open spec fn setter_target(s: NativeSetter) -> Seq<char> {
    match s {
        NativeSetter::OverwriteRoot => "_root"@,
        NativeSetter::OverwriteGlobal => "_global"@,
    }
}

/// The shadowing write path shared by the computed-property setters:
/// installs a new own data property with the empty attribute set, leaving
/// the prototype's accessor untouched.
pub fn install_shadow(arena: &mut ObjectArena, this: usize, name: &str, value: Value)
    requires
        old(arena).wf(),
        old(arena).valid(this as int),
    ensures
        final(arena).wf(),
        final(arena).objects@.len() == old(arena).objects@.len(),
        forall|i: int|
            0 <= i < final(arena).objects@.len() && i != this as int ==> final(arena).objects@[i]
                == old(arena).objects@[i],
        final(arena).objects@[this as int].proto == old(arena).objects@[this as int].proto,
        final(arena).objects@[this as int].display == old(arena).objects@[this as int].display,
        final(arena).own_map_of(this as int) == old(arena).own_map_of(this as int).insert(
            name@,
            data_entry(value, Attributes::permissive_spec()),
        ),
{
    let entry = PropertyEntry {
        kind: PropertyKind::Data { value },
        attrs: Attributes::permissive(),
    };
    define(arena, this, name, entry);
}

/// The own table `this` is left with after a plain assignment to `name`.
pub open spec fn set_effect(arena: ObjectArena, this: int, name: Seq<char>, value: Value) -> Map<
    Seq<char>,
    PropertyEntry,
> {
    let own = arena.own_map_of(this);
    match resolve_spec(arena, this, name) {
        None => own.insert(name, data_entry(value, Attributes::permissive_spec())),
        Some(e) => match e.kind {
            PropertyKind::Accessor { getter: _, setter: Some(s) } => own.insert(
                setter_target(s),
                data_entry(value, Attributes::permissive_spec()),
            ),
            PropertyKind::Accessor { getter: _, setter: None } => if e.attrs.writable {
                own.insert(name, data_entry(value, Attributes::permissive_spec()))
            } else {
                own
            },
            PropertyKind::Data { value: _ } => if e.attrs.writable {
                if own.contains_key(name) {
                    own.insert(name, data_entry(value, own[name].attrs))
                } else {
                    own.insert(name, data_entry(value, Attributes::permissive_spec()))
                }
            } else {
                own
            },
        },
    }
}

/// Assignment is refused silently exactly when the member resolves to a
/// write-protected entry that has no setter.
pub open spec fn set_is_noop(arena: ObjectArena, this: int, name: Seq<char>) -> bool {
    match resolve_spec(arena, this, name) {
        Some(e) => match e.kind {
            PropertyKind::Accessor { getter: _, setter } => setter is None && !e.attrs.writable,
            PropertyKind::Data { value: _ } => !e.attrs.writable,
        },
        None => false,
    }
}

enum WriteAction {
    Install,
    RunSetter(NativeSetter),
    InstallData,
    Noop,
}

/// Plain assignment to a member. An unknown name gains a fresh own data
/// property; a registered setter runs and installs its shadow; a writable
/// entry is overwritten (an inherited one by an own shadow); and a
/// write-protected entry without a setter refuses the write silently.
pub fn set(arena: &mut ObjectArena, this: usize, name: &str, value: Value)
    requires
        old(arena).wf(),
        old(arena).valid(this as int),
    ensures
        final(arena).wf(),
        final(arena).objects@.len() == old(arena).objects@.len(),
        forall|i: int|
            0 <= i < final(arena).objects@.len() && i != this as int ==> final(arena).objects@[i]
                == old(arena).objects@[i],
        final(arena).objects@[this as int].proto == old(arena).objects@[this as int].proto,
        final(arena).objects@[this as int].display == old(arena).objects@[this as int].display,
        final(arena).own_map_of(this as int) == set_effect(*old(arena), this as int, name@, value),
        set_is_noop(*old(arena), this as int, name@) ==> *final(arena) == *old(arena),
{
    let action = {
        let resolved = lookup(arena, this, name);
        match resolved {
            None => WriteAction::Install,
            Some(e) => match &e.kind {
                PropertyKind::Accessor { getter: _, setter } => match setter {
                    Some(s) => WriteAction::RunSetter(*s),
                    None => if e.attrs.writable {
                        WriteAction::Install
                    } else {
                        WriteAction::Noop
                    },
                },
                PropertyKind::Data { value: _ } => if e.attrs.writable {
                    WriteAction::InstallData
                } else {
                    WriteAction::Noop
                },
            },
        }
    };
    match action {
        WriteAction::Install => {
            install_shadow(arena, this, name, value);
        },
        WriteAction::RunSetter(s) => {
            let mut setter_args: Vec<Value> = Vec::new();
            setter_args.push(value);
            match s {
                NativeSetter::OverwriteRoot => {
                    let _ = crate::proto::overwrite_root(arena, this, &setter_args);
                },
                NativeSetter::OverwriteGlobal => {
                    let _ = crate::proto::overwrite_global(arena, this, &setter_args);
                },
            }
        },
        WriteAction::InstallData => {
            let found = find_slot(&arena.objects[this].properties, name);
            match found {
                Some(i) => {
                    proof {
                        lemma_slots_map_index(
                            arena.objects@[this as int].properties@,
                            i as int,
                        );
                    }
                    let attrs = arena.objects[this].properties[i].entry.attrs;
                    define(
                        arena,
                        this,
                        name,
                        PropertyEntry { kind: PropertyKind::Data { value }, attrs },
                    );
                },
                None => {
                    proof {
                        lemma_slots_map_contains(
                            arena.objects@[this as int].properties@,
                            name@,
                        );
                    }
                    install_shadow(arena, this, name, value);
                },
            }
        },
        WriteAction::Noop => {},
    }
}

/// The own table `this` is left with after a deletion of `name`: the member
/// is removed only if it is an own, configurable one.
pub open spec fn delete_effect(arena: ObjectArena, this: int, name: Seq<char>) -> Map<
    Seq<char>,
    PropertyEntry,
> {
    let own = arena.own_map_of(this);
    if own.contains_key(name) && own[name].attrs.configurable {
        own.remove(name)
    } else {
        own
    }
}

/// Deletion is refused silently unless the member is an own, configurable
/// one. Inherited members are never deletable through an instance.
pub open spec fn delete_is_noop(arena: ObjectArena, this: int, name: Seq<char>) -> bool {
    let own = arena.own_map_of(this);
    !(own.contains_key(name) && own[name].attrs.configurable)
}

/// Deletes an own member, failing silently when the member is absent or
/// delete-protected.
pub fn delete(arena: &mut ObjectArena, this: usize, name: &str)
    requires
        old(arena).wf(),
        old(arena).valid(this as int),
    ensures
        final(arena).wf(),
        final(arena).objects@.len() == old(arena).objects@.len(),
        forall|i: int|
            0 <= i < final(arena).objects@.len() && i != this as int ==> final(arena).objects@[i]
                == old(arena).objects@[i],
        final(arena).objects@[this as int].proto == old(arena).objects@[this as int].proto,
        final(arena).objects@[this as int].display == old(arena).objects@[this as int].display,
        final(arena).own_map_of(this as int) == delete_effect(*old(arena), this as int, name@),
        delete_is_noop(*old(arena), this as int, name@) ==> *final(arena) == *old(arena),
{
    let found = find_slot(&arena.objects[this].properties, name);
    match found {
        Some(i) => {
            proof {
                lemma_slots_map_index(arena.objects@[this as int].properties@, i as int);
            }
            if arena.objects[this].properties[i].entry.attrs.configurable {
                let ghost old_slots = arena.objects@[this as int].properties@;
                let obj = &mut arena.objects[this];
                obj.properties.remove(i);
                proof {
                    lemma_slots_map_remove(old_slots, i as int);
                    assert(obj.properties@ =~= old_slots.remove(i as int));
                    assert(unique_names(obj.properties@)) by {
                        assert forall|a: int, b: int|
                            0 <= a < b < obj.properties@.len() implies obj.properties@[a].name@
                            != obj.properties@[b].name@ by {
                            if a < i as int {
                                assert(obj.properties@[a] == old_slots[a]);
                            } else {
                                assert(obj.properties@[a] == old_slots[a + 1]);
                            }
                            if b < i as int {
                                assert(obj.properties@[b] == old_slots[b]);
                            } else {
                                assert(obj.properties@[b] == old_slots[b + 1]);
                            }
                        }
                    }
                }
            }
        },
        None => {
            proof {
                lemma_slots_map_contains(arena.objects@[this as int].properties@, name@);
            }
        },
    }
}

/// What each computed-property getter yields.
pub open spec fn getter_value_spec(
    arena: ObjectArena,
    ctx: ScriptContext,
    this: int,
    g: NativeGetter,
) -> Value {
    match g {
        NativeGetter::GlobalObject => match ctx.global_object {
            Some(id) => Value::Object(id),
            None => Value::Undefined,
        },
        NativeGetter::RootObject => match ctx.root_object {
            Some(id) => Value::Object(id),
            None => Value::Undefined,
        },
        NativeGetter::Parent => match arena.objects@[this].display {
            Some(d) => match d.parent {
                Some(p) => Value::Object(p),
                None => Value::Undefined,
            },
            None => Value::Undefined,
        },
    }
}

/// What a property read yields: the stored value of the nearest data entry,
/// the getter's value for an accessor, and "undefined" for an absent member.
pub open spec fn get_spec(arena: ObjectArena, ctx: ScriptContext, this: int, name: Seq<char>) -> Value {
    match resolve_spec(arena, this, name) {
        None => Value::Undefined,
        Some(e) => match e.kind {
            PropertyKind::Data { value } => value,
            PropertyKind::Accessor { getter, .. } => getter_value_spec(arena, ctx, this, getter),
        },
    }
}

fn run_getter(arena: &ObjectArena, ctx: &ScriptContext, this: usize, g: NativeGetter) -> (r: Value)
    requires
        arena.wf(),
        arena.valid(this as int),
    ensures
        r == getter_value_spec(*arena, *ctx, this as int, g),
{
    match g {
        NativeGetter::GlobalObject => match ctx.global_object {
            Some(id) => Value::Object(id),
            None => Value::Undefined,
        },
        NativeGetter::RootObject => match ctx.root_object {
            Some(id) => Value::Object(id),
            None => Value::Undefined,
        },
        NativeGetter::Parent => match &arena.objects[this].display {
            Some(d) => match d.parent {
                Some(p) => Value::Object(p),
                None => Value::Undefined,
            },
            None => Value::Undefined,
        },
    }
}

/// The names an enumeration of `this`'s own and inherited members yields:
/// exactly those that resolve to an entry with `enumerable` set.
pub open spec fn enumerable_names(arena: ObjectArena, this: int) -> Set<Seq<char>> {
    Set::new(
        |n: Seq<char>| resolve_spec(arena, this, n) matches Some(e) && e.attrs.enumerable,
    )
}

/// Whether some string of `r` reads `n`.
pub open spec fn seq_has_name(r: Seq<String>, n: Seq<char>) -> bool {
    exists|k: int| 0 <= k < r.len() && r[k]@ == n
}

fn contains_name(r: &Vec<String>, name: &str) -> (b: bool)
    ensures
        b == seq_has_name(r@, name@),
{
    let n = r.len();
    let mut i: usize = 0;
    while i < n
        invariant
            n == r@.len(),
            0 <= i <= n,
            forall|k: int| 0 <= k < i ==> r@[k]@ != name@,
        decreases n - i,
    {
        if str_eq(r[i].as_str(), name) {
            return true;
        }
        i += 1;
    }
    false
}

/// Enumerates the member names visible on `this`: each own or inherited
/// member whose entry is enumerable, once, and nothing else.
pub fn enumerate(arena: &ObjectArena, this: usize) -> (r: Vec<String>)
    requires
        arena.wf(),
        arena.valid(this as int),
    ensures
        forall|k: int|
            0 <= k < r@.len() ==> enumerable_names(*arena, this as int).contains(r@[k]@),
        forall|n: Seq<char>|
            enumerable_names(*arena, this as int).contains(n) ==> seq_has_name(r@, n),
        forall|k1: int, k2: int| 0 <= k1 < k2 < r@.len() ==> r@[k1]@ != r@[k2]@,
{
    let mut r: Vec<String> = Vec::new();
    let mut cur: usize = this;
    loop
        invariant
            arena.wf(),
            arena.valid(this as int),
            arena.valid(cur as int),
            forall|k: int|
                0 <= k < r@.len() ==> enumerable_names(*arena, this as int).contains(r@[k]@),
            forall|n: Seq<char>|
                enumerable_names(*arena, this as int).contains(n) ==> seq_has_name(r@, n)
                    || resolve_spec(*arena, cur as int, n) is Some,
            forall|k1: int, k2: int| 0 <= k1 < k2 < r@.len() ==> r@[k1]@ != r@[k2]@,
        decreases cur,
    {
        let obj = &arena.objects[cur];
        let n_slots = obj.properties.len();
        let mut j: usize = 0;
        while j < n_slots
            invariant
                arena.wf(),
                arena.valid(this as int),
                arena.valid(cur as int),
                obj == &arena.objects@[cur as int],
                n_slots == obj.properties@.len(),
                0 <= j <= n_slots,
                forall|k: int|
                    0 <= k < r@.len() ==> enumerable_names(*arena, this as int).contains(r@[k]@),
                forall|n: Seq<char>|
                    enumerable_names(*arena, this as int).contains(n) ==> seq_has_name(r@, n)
                        || resolve_spec(*arena, cur as int, n) is Some,
                forall|jj: int|
                    0 <= jj < j && enumerable_names(*arena, this as int).contains(
                        obj.properties@[jj].name@,
                    ) ==> seq_has_name(r@, obj.properties@[jj].name@),
                forall|k1: int, k2: int| 0 <= k1 < k2 < r@.len() ==> r@[k1]@ != r@[k2]@,
            decreases n_slots - j,
        {
            let slot_name = &obj.properties[j].name;
            let resolved = lookup(arena, this, slot_name.as_str());
            let visible = match resolved {
                Some(e) => e.attrs.enumerable,
                None => false,
            };
            proof {
                assert(visible == enumerable_names(*arena, this as int).contains(slot_name@));
            }
            let ghost r_before = r@;
            if visible {
                if !contains_name(&r, slot_name.as_str()) {
                    r.push(slot_name.clone());
                    proof {
                        assert(r@[r@.len() - 1]@ == slot_name@);
                        assert(seq_has_name(r@, slot_name@));
                    }
                }
            }
            proof {
                assert forall|n: Seq<char>| seq_has_name(r_before, n) implies seq_has_name(
                    r@,
                    n,
                ) by {
                    let k = choose|k: int| 0 <= k < r_before.len() && r_before[k]@ == n;
                    assert(r@[k]@ == n);
                }
                assert forall|n: Seq<char>|
                    enumerable_names(*arena, this as int).contains(n) && !(resolve_spec(
                        *arena,
                        cur as int,
                        n,
                    ) is Some) implies seq_has_name(r@, n) by {
                    assert(seq_has_name(r_before, n));
                }
            }
            j += 1;
        }
        match obj.proto {
            Some(p) => {
                proof {
                    assert forall|n: Seq<char>|
                        enumerable_names(*arena, this as int).contains(n) && !seq_has_name(
                            r@,
                            n,
                        ) implies resolve_spec(*arena, p as int, n) is Some by {
                        assert(resolve_spec(*arena, cur as int, n) is Some);
                        lemma_slots_map_contains(obj.properties@, n);
                        if obj.own_map().contains_key(n) {
                            let jj = choose|jj: int|
                                0 <= jj < obj.properties@.len() && obj.properties@[jj].name@ == n;
                            assert(seq_has_name(r@, obj.properties@[jj].name@));
                        }
                    }
                }
                cur = p;
            },
            None => {
                proof {
                    assert forall|n: Seq<char>|
                        enumerable_names(*arena, this as int).contains(n) implies seq_has_name(
                        r@,
                        n,
                    ) by {
                        if !seq_has_name(r@, n) {
                            assert(resolve_spec(*arena, cur as int, n) is Some);
                            lemma_slots_map_contains(obj.properties@, n);
                            let jj = choose|jj: int|
                                0 <= jj < obj.properties@.len() && obj.properties@[jj].name@ == n;
                            assert(seq_has_name(r@, obj.properties@[jj].name@));
                        }
                    }
                }
                return r;
            },
        }
    }
}

/// Reads a member: own-table-first resolution, then the data value or the
/// getter's result. Reads never mutate.
pub fn get(arena: &ObjectArena, ctx: &ScriptContext, this: usize, name: &str) -> (r: Value)
    requires
        arena.wf(),
        arena.valid(this as int),
    ensures
        r == get_spec(*arena, *ctx, this as int, name@),
{
    let found = lookup(arena, this, name);
    match found {
        None => Value::Undefined,
        Some(e) => match &e.kind {
            PropertyKind::Data { value } => value.clone(),
            PropertyKind::Accessor { getter, .. } => run_getter(arena, ctx, this, *getter),
        },
    }
}

} // verus!
