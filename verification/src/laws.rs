//! The behavioural laws of the binding layer that relate several
//! operations: shadowing reads, the hidden-member guarantee, and the
//! silence of refused writes and deletes.

use vstd::prelude::*;
use crate::object::{delete_is_noop, enumerable_names, get_spec, on_chain, resolve_spec,
    set_effect, set_is_noop, setter_target, data_entry, ObjectArena, ScriptContext};
use crate::property::{Attributes, NativeGetter, NativeSetter, PropertyEntry, PropertyKind};
use crate::proto::{accessor_entry, proto_map};
use crate::value::Value;

verus! {

/// Resolution reads only the objects on the receiver's prototype chain: two
/// stores that agree on that chain resolve every name alike.
pub proof fn lemma_resolve_depends_on_chain(
    a1: ObjectArena,
    a2: ObjectArena,
    id: int,
    name: Seq<char>,
)
    requires
        a1.wf(),
        a2.wf(),
        a1.objects@.len() == a2.objects@.len(),
        a1.valid(id),
        forall|c: int| on_chain(a1, id, c) ==> a2.objects@[c] == a1.objects@[c],
    ensures
        resolve_spec(a2, id, name) == resolve_spec(a1, id, name),
    decreases id,
{
    assert(on_chain(a1, id, id));
    assert(a2.objects@[id] == a1.objects@[id]);
    if !a1.objects@[id].own_map().contains_key(name) {
        match a1.objects@[id].proto {
            Some(p) => {
                assert forall|c: int| on_chain(a1, p as int, c) implies on_chain(a1, id, c) by {
                    assert(on_chain(a1, id, c));
                }
                lemma_resolve_depends_on_chain(a1, a2, p as int, name);
            },
            None => {},
        }
    }
}

/// Assigning through the root accessor's setter installs an own shadow that
/// every later read on that instance observes, while an instance whose
/// prototype chain does not pass through the receiver still reads the
/// computed root object, exactly as before the write.
pub proof fn lemma_root_overwrite_shadows(
    pre: ObjectArena,
    post: ObjectArena,
    ctx: ScriptContext,
    this: int,
    other: int,
    v: Value,
)
    requires
        pre.wf(),
        post.wf(),
        pre.valid(this),
        resolve_spec(pre, this, "_root"@) == Some(
            accessor_entry(NativeGetter::RootObject, Some(NativeSetter::OverwriteRoot)),
        ),
        post.objects@.len() == pre.objects@.len(),
        forall|i: int|
            0 <= i < post.objects@.len() && i != this ==> post.objects@[i] == pre.objects@[i],
        post.objects@[this].proto == pre.objects@[this].proto,
        post.objects@[this].display == pre.objects@[this].display,
        post.own_map_of(this) == set_effect(pre, this, "_root"@, v),
        pre.valid(other),
        other != this,
        !on_chain(pre, other, this),
    ensures
        get_spec(post, ctx, this, "_root"@) == v,
        get_spec(post, ctx, other, "_root"@) == get_spec(pre, ctx, other, "_root"@),
{
    assert(post.own_map_of(this) == pre.own_map_of(this).insert(
        "_root"@,
        data_entry(v, Attributes::permissive_spec()),
    ));
    assert(resolve_spec(post, this, "_root"@) == Some(
        data_entry(v, Attributes::permissive_spec()),
    ));
    assert forall|c: int| on_chain(pre, other, c) implies post.objects@[c] == pre.objects@[c] by {
        lemma_on_chain_valid(pre, other, c);
    }
    lemma_resolve_depends_on_chain(pre, post, other, "_root"@);
}

/// A chain member is a valid index, and the receiver's own index is never a
/// chain member of an instance whose chain avoids it.
proof fn lemma_on_chain_valid(arena: ObjectArena, id: int, c: int)
    requires
        on_chain(arena, id, c),
    ensures
        arena.valid(c),
    decreases id,
{
    if id != c {
        match arena.objects@[id].proto {
            Some(p) => {
                lemma_on_chain_valid(arena, p as int, c);
            },
            None => {},
        }
    }
}

/// A member that resolves to an entry hidden from enumeration is absent
/// from the names an enumeration of the instance yields.
pub proof fn lemma_hidden_member_not_enumerated(arena: ObjectArena, this: int, n: Seq<char>)
    requires
        resolve_spec(arena, this, n) matches Some(e) && !e.attrs.enumerable,
    ensures
        !enumerable_names(arena, this).contains(n),
{
}

/// `_parent` reads as "undefined" on an instance whose display object has
/// no parent, and on one that is no display object at all.
pub proof fn lemma_parent_absent_undefined(arena: ObjectArena, ctx: ScriptContext, this: int)
    requires
        arena.wf(),
        arena.valid(this),
        resolve_spec(arena, this, "_parent"@) == Some(accessor_entry(NativeGetter::Parent, None)),
        (arena.objects@[this].display matches Some(d) ==> d.parent is None),
    ensures
        get_spec(arena, ctx, this, "_parent"@) == Value::Undefined,
{
}

/// Every member the prototype installs is locked: hidden from enumeration,
/// write-protected and delete-protected.
pub proof fn lemma_proto_members_locked(n: Seq<char>)
    requires
        proto_map().contains_key(n),
    ensures
        proto_map()[n].attrs == Attributes::locked_spec(),
{
}

/// Deleting a member that is not an own, configurable one leaves the store
/// exactly as it was; in particular every built-in member, being
/// delete-protected, survives deletion attempts.
pub proof fn lemma_locked_delete_is_noop(arena: ObjectArena, this: int, n: Seq<char>)
    requires
        arena.own_map_of(this).contains_key(n) ==> arena.own_map_of(this)[n].attrs
            == Attributes::locked_spec(),
    ensures
        delete_is_noop(arena, this, n),
{
}

/// Plain reassignment of a member that resolves to a write-protected entry
/// without a setter leaves the store exactly as it was; in particular the
/// built-in methods and `_parent` cannot be reassigned.
pub proof fn lemma_locked_set_is_noop(arena: ObjectArena, this: int, n: Seq<char>)
    requires
        resolve_spec(arena, this, n) matches Some(e) && !e.attrs.writable && !(e.kind matches
            PropertyKind::Accessor { setter: Some(_), .. }),
    ensures
        set_is_noop(arena, this, n),
{
}

/// On an instance that inherits from the movie-clip prototype, a built-in
/// member the instance does not shadow resolves to the prototype's entry;
/// with the laws above, such a member is hidden from enumeration, and
/// deleting it through the instance is refused silently.
pub proof fn lemma_instance_resolves_builtin(
    arena: ObjectArena,
    proto_id: usize,
    inst: int,
    n: Seq<char>,
)
    requires
        arena.wf(),
        arena.valid(inst),
        arena.objects@[inst].proto == Some(proto_id),
        !arena.own_map_of(inst).contains_key(n),
        arena.own_map_of(proto_id as int) == proto_map(),
        proto_map().contains_key(n),
    ensures
        resolve_spec(arena, inst, n) == Some(proto_map()[n]),
        !enumerable_names(arena, inst).contains(n),
        delete_is_noop(arena, inst, n),
{
    lemma_proto_members_locked(n);
    assert(arena.valid(proto_id as int));
    assert(resolve_spec(arena, inst, n) == resolve_spec(arena, proto_id as int, n));
    assert(resolve_spec(arena, proto_id as int, n) == Some(proto_map()[n]));
}

/// The shadow a computed-property setter installs lands on the member the
/// setter names, with the empty attribute set.
pub proof fn lemma_setter_installs_permissive(
    arena: ObjectArena,
    this: int,
    name: Seq<char>,
    v: Value,
    s: NativeSetter,
)
    requires
        resolve_spec(arena, this, name) matches Some(e) && e.kind matches PropertyKind::Accessor {
            setter: Some(st),
            ..
        } && st == s,
    ensures
        set_effect(arena, this, name, v) == arena.own_map_of(this).insert(
            setter_target(s),
            data_entry(v, Attributes::permissive_spec()),
        ),
{
}

} // verus!
