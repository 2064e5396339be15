//! Frame navigation: numeric targets, labels, clamping, the kept clamp
//! boundary, wraparound, and coercion failure.

use movie_clip::{goto_and_play, goto_and_stop, LabelEntry, MovieClipInfo, NavigationCommand,
    ScriptError, Value};

fn clip_with_ten_frames() -> MovieClipInfo {
    MovieClipInfo {
        total_frames: 10,
        labels: vec![
            LabelEntry { name: "intro".to_string(), frame: 3 },
            LabelEntry { name: "outro".to_string(), frame: 9 },
        ],
        path: "_level0.clip".to_string(),
    }
}

fn one_arg(v: Value) -> Vec<Value> {
    vec![v]
}

#[test]
fn goto_and_stop_in_range_issues_exact_frame() {
    let mc = clip_with_ten_frames();
    let r = goto_and_stop(&mc, &one_arg(Value::Int(5)));
    assert_eq!(
        r.unwrap(),
        Some(NavigationCommand::GotoFrame { frame: 5, stop: true })
    );
}

#[test]
fn goto_and_play_in_range_keeps_stop_false() {
    let mc = clip_with_ten_frames();
    let r = goto_and_play(&mc, &one_arg(Value::Int(7)));
    assert_eq!(
        r.unwrap(),
        Some(NavigationCommand::GotoFrame { frame: 7, stop: false })
    );
}

#[test]
fn goto_zero_is_silent_noop() {
    let mc = clip_with_ten_frames();
    assert_eq!(goto_and_play(&mc, &one_arg(Value::Int(0))).unwrap(), None);
    assert_eq!(goto_and_stop(&mc, &one_arg(Value::Int(0))).unwrap(), None);
}

#[test]
fn goto_negative_is_silent_noop() {
    let mc = clip_with_ten_frames();
    assert_eq!(goto_and_play(&mc, &one_arg(Value::Int(-3))).unwrap(), None);
    assert_eq!(goto_and_stop(&mc, &one_arg(Value::Int(-1))).unwrap(), None);
}

#[test]
fn goto_past_bound_clamps_to_last_frame() {
    let mc = clip_with_ten_frames();
    let r = goto_and_stop(&mc, &one_arg(Value::Int(16)));
    assert_eq!(
        r.unwrap(),
        Some(NavigationCommand::GotoFrame { frame: 10, stop: true })
    );
}

#[test]
fn goto_one_past_last_frame_issues_eleven() {
    // The clamp compares with `>` rather than `>=`: a target of 11 on a
    // ten-frame timeline issues index 11, one past the nominal bound. This
    // literal boundary is kept on purpose.
    let mc = clip_with_ten_frames();
    let r = goto_and_stop(&mc, &one_arg(Value::Int(11)));
    assert_eq!(
        r.unwrap(),
        Some(NavigationCommand::GotoFrame { frame: 11, stop: true })
    );
}

#[test]
fn goto_minimum_int_wraps_and_clamps() {
    // The `- 1` shift wraps at the 32-bit minimum, turning the target into
    // the 32-bit maximum, which then clamps to the last frame.
    let mc = clip_with_ten_frames();
    let r = goto_and_play(&mc, &one_arg(Value::Int(i32::MIN)));
    assert_eq!(
        r.unwrap(),
        Some(NavigationCommand::GotoFrame { frame: 10, stop: false })
    );
}

#[test]
fn goto_at_sixteen_bit_bound_saturates() {
    // On a timeline with the largest possible frame count, a target one
    // past it is not clamped (the `>` boundary again), and the shift back
    // to one-based form saturates at the 16-bit maximum.
    let mc = MovieClipInfo { total_frames: u16::MAX, labels: Vec::new(), path: String::new() };
    let r = goto_and_stop(&mc, &one_arg(Value::Int(65536)));
    assert_eq!(
        r.unwrap(),
        Some(NavigationCommand::GotoFrame { frame: u16::MAX, stop: true })
    );
}

#[test]
fn goto_known_label_issues_its_frame() {
    let mc = clip_with_ten_frames();
    let r = goto_and_play(&mc, &one_arg(Value::Str("intro".to_string())));
    assert_eq!(
        r.unwrap(),
        Some(NavigationCommand::GotoFrame { frame: 3, stop: false })
    );
}

#[test]
fn goto_known_label_with_stop() {
    let mc = clip_with_ten_frames();
    let r = goto_and_stop(&mc, &one_arg(Value::Str("outro".to_string())));
    assert_eq!(
        r.unwrap(),
        Some(NavigationCommand::GotoFrame { frame: 9, stop: true })
    );
}

#[test]
fn goto_missing_label_is_silent_noop() {
    let mc = clip_with_ten_frames();
    let r = goto_and_play(&mc, &one_arg(Value::Str("missing".to_string())));
    assert_eq!(r.unwrap(), None);
}

#[test]
fn goto_without_arguments_is_silent_noop() {
    let mc = clip_with_ten_frames();
    assert_eq!(goto_and_play(&mc, &Vec::new()).unwrap(), None);
}

#[test]
fn goto_undefined_coerces_to_unknown_label() {
    let mc = clip_with_ten_frames();
    assert_eq!(goto_and_play(&mc, &one_arg(Value::Undefined)).unwrap(), None);
}

#[test]
fn goto_undefined_label_matches_literally() {
    let mc = MovieClipInfo {
        total_frames: 10,
        labels: vec![LabelEntry { name: "undefined".to_string(), frame: 4 }],
        path: "_level0.clip".to_string(),
    };
    let r = goto_and_stop(&mc, &one_arg(Value::Undefined));
    assert_eq!(
        r.unwrap(),
        Some(NavigationCommand::GotoFrame { frame: 4, stop: true })
    );
}

#[test]
fn goto_object_argument_fails_coercion() {
    let mc = clip_with_ten_frames();
    let r = goto_and_play(&mc, &one_arg(Value::Object(5)));
    assert_eq!(r.unwrap_err(), ScriptError::CoercionFailure);
}
