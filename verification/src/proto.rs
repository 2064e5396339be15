//! The movie-clip prototype: registration of the built-in members, the
//! capability-downcast dispatch, and the computed-property setters.

use vstd::prelude::*;
use crate::display::MovieClipInfo;
use crate::frame::{goto_frame, goto_frame_spec, NavigationCommand};
use crate::object::{data_entry, define, install_shadow, new_object, ObjectArena, ScriptContext};
use crate::property::{Attributes, NativeGetter, NativeMethod, NativeSetter, PropertyEntry,
    PropertyKind};
use crate::value::{ScriptError, Value};

verus! {

/// What one native call hands back: a return value, and the navigation
/// command it asks the display subsystem to perform, if any.
pub struct NativeOutcome {
    pub value: Value,
    pub nav: Option<NavigationCommand>,
}

/// Implements the movie-clip constructor: a plain no-op that yields
/// "undefined".
pub fn constructor(_ctx: &ScriptContext, _this: usize, _args: &Vec<Value>) -> (r: Result<
    Value,
    ScriptError,
>)
    ensures
        r == Ok::<Value, ScriptError>(Value::Undefined),
{
    Ok(Value::Undefined)
}

/// The value the first call argument carries, or "undefined" for a call
/// without arguments.
pub open spec fn first_arg_or_undefined(args: Seq<Value>) -> Value {
    if args.len() > 0 {
        args[0]
    } else {
        Value::Undefined
    }
}

/// The `_root` setter: installs a shadowing own `_root` data property with
/// the empty attribute set, leaving the prototype's accessor untouched.
pub fn overwrite_root(arena: &mut ObjectArena, this: usize, args: &Vec<Value>) -> (r: Result<
    Value,
    ScriptError,
>)
    requires
        old(arena).wf(),
        old(arena).valid(this as int),
    ensures
        final(arena).wf(),
        final(arena).objects@.len() == old(arena).objects@.len(),
        forall|i: int|
            0 <= i < final(arena).objects@.len() && i != this as int ==> final(arena).objects@[i]
                == old(arena).objects@[i],
        final(arena).objects@[this as int].proto == old(arena).objects@[this as int].proto,
        final(arena).objects@[this as int].display == old(arena).objects@[this as int].display,
        final(arena).own_map_of(this as int) == old(arena).own_map_of(this as int).insert(
            "_root"@,
            data_entry(first_arg_or_undefined(args@), Attributes::permissive_spec()),
        ),
        r == Ok::<Value, ScriptError>(Value::Undefined),
{
    let new_val = if args.len() > 0 {
        args[0].clone()
    } else {
        Value::Undefined
    };
    install_shadow(arena, this, "_root", new_val);
    Ok(Value::Undefined)
}

/// The `_global` setter: installs a shadowing own `_global` data property
/// with the empty attribute set, leaving the prototype's accessor untouched.
pub fn overwrite_global(arena: &mut ObjectArena, this: usize, args: &Vec<Value>) -> (r: Result<
    Value,
    ScriptError,
>)
    requires
        old(arena).wf(),
        old(arena).valid(this as int),
    ensures
        final(arena).wf(),
        final(arena).objects@.len() == old(arena).objects@.len(),
        forall|i: int|
            0 <= i < final(arena).objects@.len() && i != this as int ==> final(arena).objects@[i]
                == old(arena).objects@[i],
        final(arena).objects@[this as int].proto == old(arena).objects@[this as int].proto,
        final(arena).objects@[this as int].display == old(arena).objects@[this as int].display,
        final(arena).own_map_of(this as int) == old(arena).own_map_of(this as int).insert(
            "_global"@,
            data_entry(first_arg_or_undefined(args@), Attributes::permissive_spec()),
        ),
        r == Ok::<Value, ScriptError>(Value::Undefined),
{
    let new_val = if args.len() > 0 {
        args[0].clone()
    } else {
        Value::Undefined
    };
    install_shadow(arena, this, "_global", new_val);
    Ok(Value::Undefined)
}

/// A built-in method's entry: a native callable under the locked attributes.
pub open spec fn method_entry(m: NativeMethod) -> PropertyEntry {
    PropertyEntry {
        kind: PropertyKind::Data { value: Value::Native(m) },
        attrs: Attributes::locked_spec(),
    }
}

/// A computed property's entry under the locked attributes.
pub open spec fn accessor_entry(g: NativeGetter, s: Option<NativeSetter>) -> PropertyEntry {
    PropertyEntry { kind: PropertyKind::Accessor { getter: g, setter: s }, attrs: Attributes::locked_spec() }
}

/// The prototype's full member table.
pub open spec fn proto_map() -> Map<Seq<char>, PropertyEntry> {
    Map::empty().insert("nextFrame"@, method_entry(NativeMethod::NextFrame)).insert(
        "prevFrame"@,
        method_entry(NativeMethod::PrevFrame),
    ).insert("play"@, method_entry(NativeMethod::Play)).insert(
        "stop"@,
        method_entry(NativeMethod::Stop),
    ).insert("getBytesLoaded"@, method_entry(NativeMethod::GetBytesLoaded)).insert(
        "getBytesTotal"@,
        method_entry(NativeMethod::GetBytesTotal),
    ).insert("gotoAndPlay"@, method_entry(NativeMethod::GotoAndPlay)).insert(
        "gotoAndStop"@,
        method_entry(NativeMethod::GotoAndStop),
    ).insert("toString"@, method_entry(NativeMethod::ToStringMethod)).insert(
        "_global"@,
        accessor_entry(NativeGetter::GlobalObject, Some(NativeSetter::OverwriteGlobal)),
    ).insert("_root"@, accessor_entry(NativeGetter::RootObject, Some(NativeSetter::OverwriteRoot))).insert(
        "_parent"@,
        accessor_entry(NativeGetter::Parent, None),
    )
}

/// The registration routine: installs one built-in method as a data
/// property whose value is a native callable, under the locked attributes.
fn register_builtin(arena: &mut ObjectArena, proto_id: usize, name: &str, method: NativeMethod)
    requires
        old(arena).wf(),
        old(arena).valid(proto_id as int),
    ensures
        final(arena).wf(),
        final(arena).objects@.len() == old(arena).objects@.len(),
        forall|i: int|
            0 <= i < final(arena).objects@.len() && i != proto_id as int
                ==> final(arena).objects@[i] == old(arena).objects@[i],
        final(arena).objects@[proto_id as int].proto == old(arena).objects@[proto_id as int].proto,
        final(arena).objects@[proto_id as int].display == old(arena).objects@[proto_id as int].display,
        final(arena).own_map_of(proto_id as int) == old(arena).own_map_of(proto_id as int).insert(
            name@,
            method_entry(method),
        ),
{
    let entry = PropertyEntry {
        kind: PropertyKind::Data { value: Value::Native(method) },
        attrs: Attributes::locked(),
    };
    define(arena, proto_id, name, entry);
}

/// Builds the movie-clip prototype object: a fresh object below the given
/// prototype, carrying the fixed table of native methods and the computed
/// `_global`/`_root`/`_parent` properties, all of them non-enumerable,
/// non-writable and non-deletable.
pub fn create_proto(arena: &mut ObjectArena, proto: usize) -> (id: usize)
    requires
        old(arena).wf(),
        old(arena).valid(proto as int),
    ensures
        final(arena).wf(),
        id == old(arena).objects@.len(),
        final(arena).objects@.len() == id + 1,
        forall|i: int| 0 <= i < id ==> final(arena).objects@[i] == old(arena).objects@[i],
        final(arena).objects@[id as int].proto == Some(proto),
        final(arena).objects@[id as int].display is None,
        final(arena).own_map_of(id as int) == proto_map(),
{
    let id = new_object(arena, Some(proto), None);
    register_builtin(arena, id, "nextFrame", NativeMethod::NextFrame);
    register_builtin(arena, id, "prevFrame", NativeMethod::PrevFrame);
    register_builtin(arena, id, "play", NativeMethod::Play);
    register_builtin(arena, id, "stop", NativeMethod::Stop);
    register_builtin(arena, id, "getBytesLoaded", NativeMethod::GetBytesLoaded);
    register_builtin(arena, id, "getBytesTotal", NativeMethod::GetBytesTotal);
    register_builtin(arena, id, "gotoAndPlay", NativeMethod::GotoAndPlay);
    register_builtin(arena, id, "gotoAndStop", NativeMethod::GotoAndStop);
    register_builtin(arena, id, "toString", NativeMethod::ToStringMethod);
    define(
        arena,
        id,
        "_global",
        PropertyEntry {
            kind: PropertyKind::Accessor {
                getter: NativeGetter::GlobalObject,
                setter: Some(NativeSetter::OverwriteGlobal),
            },
            attrs: Attributes::locked(),
        },
    );
    define(
        arena,
        id,
        "_root",
        PropertyEntry {
            kind: PropertyKind::Accessor {
                getter: NativeGetter::RootObject,
                setter: Some(NativeSetter::OverwriteRoot),
            },
            attrs: Attributes::locked(),
        },
    );
    define(
        arena,
        id,
        "_parent",
        PropertyEntry {
            kind: PropertyKind::Accessor { getter: NativeGetter::Parent, setter: None },
            attrs: Attributes::locked(),
        },
    );
    id
}

/// The timeline capability a handle currently exposes, if any: the handle
/// must be a display object, and the display object a movie clip.
pub open spec fn movie_clip_of(arena: ObjectArena, this: int) -> Option<MovieClipInfo> {
    match arena.objects@[this].display {
        Some(d) => d.movie_clip,
        None => None,
    }
}

/// What each built-in method yields once capability narrowing succeeded.
/// The byte-count members are acknowledged placeholders, documented as
/// such, not real byte accounting.
pub open spec fn method_outcome(mc: MovieClipInfo, method: NativeMethod, args: Seq<Value>) -> Result<
    NativeOutcome,
    ScriptError,
> {
    match method {
        NativeMethod::NextFrame => Ok(
            NativeOutcome { value: Value::Undefined, nav: Some(NavigationCommand::NextFrame) },
        ),
        NativeMethod::PrevFrame => Ok(
            NativeOutcome { value: Value::Undefined, nav: Some(NavigationCommand::PrevFrame) },
        ),
        NativeMethod::Play => Ok(
            NativeOutcome { value: Value::Undefined, nav: Some(NavigationCommand::Play) },
        ),
        NativeMethod::Stop => Ok(
            NativeOutcome { value: Value::Undefined, nav: Some(NavigationCommand::Stop) },
        ),
        NativeMethod::GetBytesLoaded => Ok(
            NativeOutcome { value: Value::Int(1), nav: None },
        ),
        NativeMethod::GetBytesTotal => Ok(
            NativeOutcome { value: Value::Int(1), nav: None },
        ),
        NativeMethod::GotoAndPlay => match goto_frame_spec(mc, args, false) {
            Ok(nav) => Ok(NativeOutcome { value: Value::Undefined, nav }),
            Err(e) => Err(e),
        },
        NativeMethod::GotoAndStop => match goto_frame_spec(mc, args, true) {
            Ok(nav) => Ok(NativeOutcome { value: Value::Undefined, nav }),
            Err(e) => Err(e),
        },
        NativeMethod::ToStringMethod => Ok(
            NativeOutcome { value: Value::Str(mc.path), nav: None },
        ),
    }
}

fn invoke_timeline_method(mc: &MovieClipInfo, method: NativeMethod, args: &Vec<Value>) -> (r:
    Result<NativeOutcome, ScriptError>)
    requires
        mc.wf(),
    ensures
        r == method_outcome(*mc, method, args@),
{
    match method {
        NativeMethod::NextFrame => Ok(
            NativeOutcome { value: Value::Undefined, nav: Some(NavigationCommand::NextFrame) },
        ),
        NativeMethod::PrevFrame => Ok(
            NativeOutcome { value: Value::Undefined, nav: Some(NavigationCommand::PrevFrame) },
        ),
        NativeMethod::Play => Ok(
            NativeOutcome { value: Value::Undefined, nav: Some(NavigationCommand::Play) },
        ),
        NativeMethod::Stop => Ok(
            NativeOutcome { value: Value::Undefined, nav: Some(NavigationCommand::Stop) },
        ),
        NativeMethod::GetBytesLoaded => Ok(NativeOutcome { value: Value::Int(1), nav: None }),
        NativeMethod::GetBytesTotal => Ok(NativeOutcome { value: Value::Int(1), nav: None }),
        NativeMethod::GotoAndPlay => match goto_frame(mc, args, false) {
            Ok(nav) => Ok(NativeOutcome { value: Value::Undefined, nav }),
            Err(e) => Err(e),
        },
        NativeMethod::GotoAndStop => match goto_frame(mc, args, true) {
            Ok(nav) => Ok(NativeOutcome { value: Value::Undefined, nav }),
            Err(e) => Err(e),
        },
        NativeMethod::ToStringMethod => Ok(
            NativeOutcome { value: Value::Str(mc.path.clone()), nav: None },
        ),
    }
}

/// The capability-downcast dispatch: runs the method only if the receiver
/// currently exposes timeline capability; otherwise the call is absorbed
/// into an "undefined" result without error — capability absence is a
/// silent no-op, never a failure.
pub fn call_native(arena: &ObjectArena, this: usize, method: NativeMethod, args: &Vec<Value>) -> (r:
    Result<NativeOutcome, ScriptError>)
    requires
        arena.wf(),
        arena.valid(this as int),
    ensures
        movie_clip_of(*arena, this as int) is None ==> r == Ok::<NativeOutcome, ScriptError>(
            NativeOutcome { value: Value::Undefined, nav: None },
        ),
        (movie_clip_of(*arena, this as int) matches Some(mc) ==> r == method_outcome(
            mc,
            method,
            args@,
        )),
{
    match &arena.objects[this].display {
        Some(d) => match &d.movie_clip {
            Some(mc) => invoke_timeline_method(mc, method, args),
            None => Ok(NativeOutcome { value: Value::Undefined, nav: None }),
        },
        None => Ok(NativeOutcome { value: Value::Undefined, nav: None }),
    }
}

} // verus!
