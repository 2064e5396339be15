//! Capability-downcast dispatch: calls on timeline-capable receivers run
//! the handler, calls on anything else are absorbed silently.

use movie_clip::{call_native, constructor, create_proto, get, new_object, DisplayInfo,
    LabelEntry, MovieClipInfo, NativeMethod, NavigationCommand, ObjectArena, ScriptContext,
    ScriptError, Value};

fn clip() -> MovieClipInfo {
    MovieClipInfo {
        total_frames: 10,
        labels: vec![LabelEntry { name: "intro".to_string(), frame: 3 }],
        path: "_level0.clip".to_string(),
    }
}

fn setup() -> (ObjectArena, ScriptContext, usize, usize) {
    let mut arena = ObjectArena::new();
    let base = new_object(&mut arena, None, None);
    let proto = create_proto(&mut arena, base);
    let mc = new_object(
        &mut arena,
        Some(proto),
        Some(DisplayInfo { parent: None, movie_clip: Some(clip()) }),
    );
    let plain = new_object(&mut arena, Some(proto), None);
    let ctx = ScriptContext { global_object: Some(base), root_object: Some(base) };
    (arena, ctx, mc, plain)
}

#[test]
fn constructor_returns_undefined() {
    let (arena, ctx, mc, _plain) = setup();
    let _ = &arena;
    let r = constructor(&ctx, mc, &Vec::new());
    assert!(matches!(r, Ok(Value::Undefined)));
}

#[test]
fn plain_receiver_is_silent_noop() {
    let (arena, _ctx, _mc, plain) = setup();
    let r = call_native(&arena, plain, NativeMethod::NextFrame, &Vec::new()).unwrap();
    assert!(matches!(r.value, Value::Undefined));
    assert!(r.nav.is_none());
}

#[test]
fn display_object_without_timeline_is_silent_noop() {
    let mut arena = ObjectArena::new();
    let base = new_object(&mut arena, None, None);
    let proto = create_proto(&mut arena, base);
    let display_only = new_object(
        &mut arena,
        Some(proto),
        Some(DisplayInfo { parent: None, movie_clip: None }),
    );
    let r = call_native(&arena, display_only, NativeMethod::Play, &Vec::new()).unwrap();
    assert!(matches!(r.value, Value::Undefined));
    assert!(r.nav.is_none());
}

#[test]
fn passthrough_methods_issue_their_commands() {
    let (arena, _ctx, mc, _plain) = setup();
    let cases = [
        (NativeMethod::NextFrame, NavigationCommand::NextFrame),
        (NativeMethod::PrevFrame, NavigationCommand::PrevFrame),
        (NativeMethod::Play, NavigationCommand::Play),
        (NativeMethod::Stop, NavigationCommand::Stop),
    ];
    for (m, cmd) in cases {
        let r = call_native(&arena, mc, m, &Vec::new()).unwrap();
        assert!(matches!(r.value, Value::Undefined));
        assert_eq!(r.nav, Some(cmd));
    }
}

#[test]
fn byte_count_stubs_return_placeholder() {
    let (arena, _ctx, mc, _plain) = setup();
    let loaded = call_native(&arena, mc, NativeMethod::GetBytesLoaded, &Vec::new()).unwrap();
    assert!(matches!(loaded.value, Value::Int(1)));
    assert!(loaded.nav.is_none());
    let total = call_native(&arena, mc, NativeMethod::GetBytesTotal, &Vec::new()).unwrap();
    assert!(matches!(total.value, Value::Int(1)));
    assert!(total.nav.is_none());
}

#[test]
fn to_string_yields_the_timeline_path() {
    let (arena, _ctx, mc, _plain) = setup();
    let r = call_native(&arena, mc, NativeMethod::ToStringMethod, &Vec::new()).unwrap();
    match r.value {
        Value::Str(s) => assert_eq!(s, "_level0.clip"),
        _ => panic!("expected a string"),
    }
    assert!(r.nav.is_none());
}

#[test]
fn goto_methods_resolve_through_dispatch() {
    let (arena, _ctx, mc, _plain) = setup();
    let r = call_native(&arena, mc, NativeMethod::GotoAndStop, &vec![Value::Int(4)]).unwrap();
    assert_eq!(r.nav, Some(NavigationCommand::GotoFrame { frame: 4, stop: true }));
    let r = call_native(
        &arena,
        mc,
        NativeMethod::GotoAndPlay,
        &vec![Value::Str("intro".to_string())],
    )
    .unwrap();
    assert_eq!(r.nav, Some(NavigationCommand::GotoFrame { frame: 3, stop: false }));
}

#[test]
fn goto_coercion_failure_surfaces_through_dispatch() {
    let (arena, _ctx, mc, _plain) = setup();
    let r = call_native(&arena, mc, NativeMethod::GotoAndPlay, &vec![Value::Object(1)]);
    assert!(matches!(r, Err(ScriptError::CoercionFailure)));
}

#[test]
fn members_resolve_to_native_callables() {
    let (arena, ctx, mc, _plain) = setup();
    let v = get(&arena, &ctx, mc, "gotoAndPlay");
    let m = match v {
        Value::Native(m) => m,
        _ => panic!("expected a native callable"),
    };
    assert_eq!(m, NativeMethod::GotoAndPlay);
    let r = call_native(&arena, mc, m, &vec![Value::Int(2)]).unwrap();
    assert_eq!(r.nav, Some(NavigationCommand::GotoFrame { frame: 2, stop: false }));
}
