//! Property attributes, property entries, and the per-object property table.
//!
//! A table is a vector of uniquely-named slots; its mathematical model is a
//! `Map` from the member name (as a sequence of characters) to its entry.

use vstd::prelude::*;
use crate::value::Value;

verus! {

/// The three independent flags governing a member. They are fixed when the
/// member is registered and never change afterwards.
#[derive(PartialEq, Eq, Structural, Clone, Copy, Debug)]
pub struct Attributes {
    /// Whether enumeration of the object's members yields this one.
    pub enumerable: bool,
    /// Whether plain assignment may overwrite this member.
    pub writable: bool,
    /// Whether deletion may remove this member.
    pub configurable: bool,
}

impl Attributes {
    /// The attributes of every built-in member: hidden from enumeration,
    /// write-protected, delete-protected.
    pub fn locked() -> (r: Attributes)
        ensures
            r == Attributes::locked_spec(),
    {
        Attributes { enumerable: false, writable: false, configurable: false }
    }

    pub open spec fn locked_spec() -> Attributes {
        Attributes { enumerable: false, writable: false, configurable: false }
    }

    /// The empty attribute set given to plain members installed by script
    /// assignment, shadowing included: fully enumerable, writable and
    /// configurable.
    pub fn permissive() -> (r: Attributes)
        ensures
            r == Attributes::permissive_spec(),
    {
        Attributes { enumerable: true, writable: true, configurable: true }
    }

    pub open spec fn permissive_spec() -> Attributes {
        Attributes { enumerable: true, writable: true, configurable: true }
    }
}

/// The built-in timeline methods. Handlers form a closed sum so that the
/// dispatcher can be verified against each one's exact behaviour.
#[derive(PartialEq, Eq, Structural, Clone, Copy, Debug)]
pub enum NativeMethod {
    NextFrame,
    PrevFrame,
    Play,
    Stop,
    GotoAndPlay,
    GotoAndStop,
    GetBytesLoaded,
    GetBytesTotal,
    ToStringMethod,
}

/// The computed-property getters.
#[derive(PartialEq, Eq, Structural, Clone, Copy, Debug)]
pub enum NativeGetter {
    /// The context-provided global object.
    GlobalObject,
    /// The context-provided root object.
    RootObject,
    /// The receiver's display-hierarchy parent.
    Parent,
}

/// The computed-property setters. Each installs a shadowing own data
/// property on the receiver rather than mutating any accessor state.
#[derive(PartialEq, Eq, Structural, Clone, Copy, Debug)]
pub enum NativeSetter {
    OverwriteRoot,
    OverwriteGlobal,
}

/// What a member resolves to: a stored value, or getter/setter logic.
pub enum PropertyKind {
    Data { value: Value },
    Accessor { getter: NativeGetter, setter: Option<NativeSetter> },
}

/// A member's entry: its kind together with its immutable attributes.
pub struct PropertyEntry {
    pub kind: PropertyKind,
    pub attrs: Attributes,
}

/// One named slot of an object's own property table.
pub struct PropertySlot {
    pub name: String,
    pub entry: PropertyEntry,
}

/// No two slots carry the same name.
pub open spec fn unique_names(s: Seq<PropertySlot>) -> bool {
    forall|i: int, j: int| 0 <= i < j < s.len() ==> s[i].name@ != s[j].name@
}

/// The mathematical content of a slot vector: a map from name to entry.
/// Later slots win, which is irrelevant once names are unique.
pub open spec fn slots_map(s: Seq<PropertySlot>) -> Map<Seq<char>, PropertyEntry>
    decreases s.len(),
{
    if s.len() == 0 {
        Map::empty()
    } else {
        slots_map(s.drop_last()).insert(s.last().name@, s.last().entry)
    }
}

/// A name is in the map exactly when some slot carries it.
pub proof fn lemma_slots_map_contains(s: Seq<PropertySlot>, n: Seq<char>)
    ensures
        slots_map(s).contains_key(n) <==> exists|i: int| 0 <= i < s.len() && s[i].name@ == n,
    decreases s.len(),
{
    if s.len() > 0 {
        lemma_slots_map_contains(s.drop_last(), n);
        if s.last().name@ == n {
            assert(s[s.len() - 1].name@ == n);
        } else if slots_map(s).contains_key(n) {
            let i = choose|i: int| 0 <= i < s.drop_last().len() && s.drop_last()[i].name@ == n;
            assert(s[i].name@ == n);
        } else if exists|i: int| 0 <= i < s.len() && s[i].name@ == n {
            let i = choose|i: int| 0 <= i < s.len() && s[i].name@ == n;
            assert(s.drop_last()[i].name@ == n);
        }
    }
}

/// Under unique names, the slot carrying a name gives the map's entry.
pub proof fn lemma_slots_map_index(s: Seq<PropertySlot>, i: int)
    requires
        unique_names(s),
        0 <= i < s.len(),
    ensures
        slots_map(s).contains_key(s[i].name@),
        slots_map(s)[s[i].name@] == s[i].entry,
    decreases s.len(),
{
    lemma_slots_map_contains(s, s[i].name@);
    if i < s.len() - 1 {
        assert(s[i].name@ != s.last().name@);
        assert(s.drop_last()[i] == s[i]);
        lemma_slots_map_index(s.drop_last(), i);
    }
}

/// Replacing the entry of slot `i` in place updates the map at its name.
pub proof fn lemma_slots_map_update(s: Seq<PropertySlot>, i: int, e: PropertyEntry)
    requires
        unique_names(s),
        0 <= i < s.len(),
    ensures
        slots_map(s.update(i, PropertySlot { name: s[i].name, entry: e }))
            == slots_map(s).insert(s[i].name@, e),
    decreases s.len(),
{
    let t = s.update(i, PropertySlot { name: s[i].name, entry: e });
    if i == s.len() - 1 {
        assert(t.drop_last() =~= s.drop_last());
        assert(slots_map(t) =~= slots_map(s).insert(s[i].name@, e));
    } else {
        assert(t.drop_last() =~= s.drop_last().update(i, PropertySlot { name: s[i].name, entry: e }));
        lemma_slots_map_update(s.drop_last(), i, e);
        assert(t.last() == s.last());
        assert(s.drop_last()[i].name@ == s[i].name@);
        assert(s[i].name@ != s.last().name@);
        assert(slots_map(t) =~= slots_map(s).insert(s[i].name@, e));
    }
}

/// Removing slot `i` removes its name from the map, the rest unchanged.
pub proof fn lemma_slots_map_remove(s: Seq<PropertySlot>, i: int)
    requires
        unique_names(s),
        0 <= i < s.len(),
    ensures
        slots_map(s.remove(i)) == slots_map(s).remove(s[i].name@),
    decreases s.len(),
{
    lemma_slots_map_index(s, i);
    if i == s.len() - 1 {
        assert(s.remove(i) =~= s.drop_last());
        lemma_slots_map_contains(s.drop_last(), s[i].name@);
        assert(!slots_map(s.drop_last()).contains_key(s[i].name@));
        assert(slots_map(s.remove(i)) =~= slots_map(s).remove(s[i].name@));
    } else {
        let t = s.remove(i);
        assert(t.drop_last() =~= s.drop_last().remove(i));
        lemma_slots_map_remove(s.drop_last(), i);
        assert(t.last() == s.last());
        assert(s[i].name@ != s.last().name@);
        assert(slots_map(t) =~= slots_map(s).remove(s[i].name@));
    }
}

} // verus!
