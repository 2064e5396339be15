//! The property table: attributes, shadowing accessors, enumeration
//! hiding, and silent refusal of deletes and plain reassignments.

use movie_clip::{create_proto, delete, enumerate, get, new_object, DisplayInfo, LabelEntry,
    MovieClipInfo, ObjectArena, ScriptContext, Value};



fn clip() -> MovieClipInfo {
    MovieClipInfo {
        total_frames: 10,
        labels: vec![LabelEntry { name: "intro".to_string(), frame: 3 }],
        path: "_level0.clip".to_string(),
    }
}

/// A store with a base object, the movie-clip prototype, a timeline-capable
/// instance and a plain instance, both inheriting from the prototype.
fn setup() -> (ObjectArena, ScriptContext, usize, usize, usize) {
    let mut arena = ObjectArena::new();
    let base = new_object(&mut arena, None, None);
    let proto = create_proto(&mut arena, base);
    let a = new_object(
        &mut arena,
        Some(proto),
        Some(DisplayInfo { parent: None, movie_clip: Some(clip()) }),
    );
    let b = new_object(&mut arena, Some(proto), None);
    let ctx = ScriptContext { global_object: Some(base), root_object: Some(base) };
    (arena, ctx, proto, a, b)
}

#[test]
fn root_reads_computed_root_object() {
    let (arena, ctx, _proto, a, _b) = setup();
    assert!(matches!(get(&arena, &ctx, a, "_root"), Value::Object(id) if id == ctx.root_object.unwrap()));
}

#[test]
fn root_overwrite_shadows_on_that_instance_only() {
    let (mut arena, ctx, _proto, a, b) = setup();
    movie_clip::object::set(&mut arena, a, "_root", Value::Int(42));
    assert!(matches!(get(&arena, &ctx, a, "_root"), Value::Int(42)));
    assert!(matches!(get(&arena, &ctx, b, "_root"), Value::Object(id) if id == ctx.root_object.unwrap()));
}

#[test]
fn global_overwrite_shadows_like_root() {
    let (mut arena, ctx, _proto, a, _b) = setup();
    assert!(matches!(get(&arena, &ctx, a, "_global"), Value::Object(_)));
    movie_clip::object::set(&mut arena, a, "_global", Value::Bool(true));
    assert!(matches!(get(&arena, &ctx, a, "_global"), Value::Bool(true)));
}

#[test]
fn overwrite_root_directly_installs_shadow() {
    let (mut arena, ctx, _proto, a, _b) = setup();
    let r = movie_clip::overwrite_root(&mut arena, a, &vec![Value::Int(7)]);
    assert!(matches!(r, Ok(Value::Undefined)));
    assert!(matches!(get(&arena, &ctx, a, "_root"), Value::Int(7)));
}

#[test]
fn overwrite_global_without_argument_installs_undefined() {
    let (mut arena, ctx, _proto, a, _b) = setup();
    let r = movie_clip::overwrite_global(&mut arena, a, &Vec::new());
    assert!(matches!(r, Ok(Value::Undefined)));
    assert!(matches!(get(&arena, &ctx, a, "_global"), Value::Undefined));
}

#[test]
fn parent_without_display_parent_is_undefined() {
    let (arena, ctx, _proto, a, b) = setup();
    // A display object with no parent, and a plain object that is no
    // display object at all: both read as "undefined".
    assert!(matches!(get(&arena, &ctx, a, "_parent"), Value::Undefined));
    assert!(matches!(get(&arena, &ctx, b, "_parent"), Value::Undefined));
}

#[test]
fn parent_with_display_parent_is_its_handle() {
    let mut arena = ObjectArena::new();
    let base = new_object(&mut arena, None, None);
    let proto = create_proto(&mut arena, base);
    let parent = new_object(
        &mut arena,
        Some(proto),
        Some(DisplayInfo { parent: None, movie_clip: Some(clip()) }),
    );
    let child = new_object(
        &mut arena,
        Some(proto),
        Some(DisplayInfo { parent: Some(parent), movie_clip: Some(clip()) }),
    );
    let ctx = ScriptContext { global_object: None, root_object: None };
    assert!(matches!(get(&arena, &ctx, child, "_parent"), Value::Object(id) if id == parent));
}

#[test]
fn accessors_default_to_undefined_without_context_singletons() {
    let mut arena = ObjectArena::new();
    let base = new_object(&mut arena, None, None);
    let proto = create_proto(&mut arena, base);
    let a = new_object(&mut arena, Some(proto), None);
    let ctx = ScriptContext { global_object: None, root_object: None };
    assert!(matches!(get(&arena, &ctx, a, "_root"), Value::Undefined));
    assert!(matches!(get(&arena, &ctx, a, "_global"), Value::Undefined));
}

const BUILT_INS: [&str; 12] = [
    "nextFrame",
    "prevFrame",
    "play",
    "stop",
    "gotoAndPlay",
    "gotoAndStop",
    "getBytesLoaded",
    "getBytesTotal",
    "toString",
    "_global",
    "_root",
    "_parent",
];

#[test]
fn built_ins_absent_from_enumeration() {
    let (mut arena, _ctx, _proto, a, _b) = setup();
    movie_clip::object::set(&mut arena, a, "score", Value::Int(3));
    let names = enumerate(&arena, a);
    assert!(names.iter().any(|n| n == "score"));
    for m in BUILT_INS {
        assert!(!names.iter().any(|n| n == m));
    }
}

#[test]
fn built_in_delete_fails_silently() {
    let (mut arena, ctx, proto, a, _b) = setup();
    delete(&mut arena, proto, "play");
    delete(&mut arena, a, "play");
    assert!(matches!(get(&arena, &ctx, a, "play"), Value::Native(_)));
    delete(&mut arena, proto, "_root");
    assert!(matches!(get(&arena, &ctx, a, "_root"), Value::Object(_)));
}

#[test]
fn built_in_method_reassignment_fails_silently() {
    let (mut arena, ctx, _proto, a, _b) = setup();
    movie_clip::object::set(&mut arena, a, "play", Value::Int(1));
    assert!(matches!(get(&arena, &ctx, a, "play"), Value::Native(_)));
}

#[test]
fn parent_reassignment_fails_silently() {
    let (mut arena, ctx, _proto, a, _b) = setup();
    movie_clip::object::set(&mut arena, a, "_parent", Value::Int(9));
    assert!(matches!(get(&arena, &ctx, a, "_parent"), Value::Undefined));
}

#[test]
fn shadow_is_plain_and_deletable() {
    let (mut arena, ctx, _proto, a, _b) = setup();
    movie_clip::object::set(&mut arena, a, "_root", Value::Int(42));
    let names = enumerate(&arena, a);
    assert!(names.iter().any(|n| n == "_root"));
    delete(&mut arena, a, "_root");
    // With the shadow gone, reads fall back to the prototype's accessor.
    assert!(matches!(get(&arena, &ctx, a, "_root"), Value::Object(_)));
}

#[test]
fn unknown_member_reads_undefined_and_gains_own_property() {
    let (mut arena, ctx, _proto, a, _b) = setup();
    assert!(matches!(get(&arena, &ctx, a, "score"), Value::Undefined));
    movie_clip::object::set(&mut arena, a, "score", Value::Int(3));
    assert!(matches!(get(&arena, &ctx, a, "score"), Value::Int(3)));
}
