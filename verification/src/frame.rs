//! Frame resolution: turning a script-supplied navigation target into a
//! validated navigation command for the timeline.
//!
//! The numeric path keeps the legacy semantics exactly: one-based frame
//! numbers, two's-complement wraparound on the `- 1` shift, a silent no-op
//! for non-positive targets, clamping past the bounds, and saturation of the
//! shift back to one-based form at the 16-bit maximum. The clamp compares
//! with `>` rather than `>=`, so a request exactly one past the last frame
//! issues `total_frames + 1`; that boundary is kept on purpose.

use vstd::prelude::*;
use crate::display::MovieClipInfo;
use crate::display::frame_label_to_number;
use crate::value::{ScriptError, Value};

verus! {

/// What this layer asks of the timeline. Issuing the command is the display
/// subsystem's business; this layer only computes it.
#[derive(PartialEq, Eq, Structural, Clone, Copy, Debug)]
pub enum NavigationCommand {
    GotoFrame { frame: u16, stop: bool },
    NextFrame,
    PrevFrame,
    Play,
    Stop,
}

/// The one-based target shifted down by one, with two's-complement
/// wraparound: the minimum 32-bit value wraps to the maximum.
pub open spec fn wrapped_predecessor(n: i32) -> i32 {
    if n == i32::MIN {
        i32::MAX
    } else {
        (n - 1) as i32
    }
}

/// The command a numeric target resolves to: a no-op below one, a clamp to
/// the last frame strictly past the bound, and otherwise the target itself,
/// shifted back to one-based form with saturation at the 16-bit maximum.
pub open spec fn frame_command_for_number(n: i32, total: u16, stop: bool) -> Option<
    NavigationCommand,
> {
    let frame = wrapped_predecessor(n) as int;
    if frame < 0 {
        None
    } else if frame > total as int {
        Some(NavigationCommand::GotoFrame { frame: total, stop })
    } else if frame + 1 > u16::MAX as int {
        Some(NavigationCommand::GotoFrame { frame: u16::MAX, stop })
    } else {
        Some(NavigationCommand::GotoFrame { frame: (frame + 1) as u16, stop })
    }
}

/// The string a non-numeric navigation target coerces to as a frame label.
/// Coercing an object handle would run script code, which is outside this
/// layer, so it surfaces as the coercion error. This is consulted only for
/// arguments that did not read as a number; a numeric argument takes the
/// numeric path before any coercion.
pub open spec fn coerced_label(v: Value) -> Result<Seq<char>, ScriptError> {
    match v {
        Value::Undefined => Ok("undefined"@),
        Value::Bool(b) => if b {
            Ok("true"@)
        } else {
            Ok("false"@)
        },
        Value::Str(s) => Ok(s@),
        Value::Native(_) => Ok("[type Function]"@),
        Value::Object(_) => Err(ScriptError::CoercionFailure),
        Value::Int(_) => Err(ScriptError::CoercionFailure),
    }
}

/// The full resolution of a navigation call: `Ok(None)` is a silent no-op,
/// `Ok(Some(c))` issues `c`, and the error aborts the call.
pub open spec fn goto_frame_spec(mc: MovieClipInfo, args: Seq<Value>, stop: bool) -> Result<
    Option<NavigationCommand>,
    ScriptError,
> {
    if args.len() == 0 {
        Ok(None)
    } else {
        match args[0] {
            Value::Int(n) => Ok(frame_command_for_number(n, mc.total_frames, stop)),
            v => match coerced_label(v) {
                Ok(label) => if mc.label_map().contains_key(label) {
                    Ok(Some(NavigationCommand::GotoFrame { frame: mc.label_map()[label], stop }))
                } else {
                    Ok(None)
                },
                Err(e) => Err(e),
            },
        }
    }
}

fn coerce_to_label(v: &Value) -> (r: Result<String, ScriptError>)
    ensures
        r matches Ok(s) ==> coerced_label(*v) matches Ok(t) && s@ == t,
        r matches Err(e) ==> coerced_label(*v) == Err::<Seq<char>, ScriptError>(e),
{
    match v {
        Value::Undefined => Ok("undefined".to_owned()),
        Value::Bool(b) => if *b {
            Ok("true".to_owned())
        } else {
            Ok("false".to_owned())
        },
        Value::Str(s) => Ok(s.clone()),
        Value::Native(_) => Ok("[type Function]".to_owned()),
        Value::Object(_) => Err(ScriptError::CoercionFailure),
        Value::Int(_) => Err(ScriptError::CoercionFailure),
    }
}

/// Resolves the first call argument against the timeline's bounds and label
/// table and returns the navigation command to issue, if any.
pub fn goto_frame(mc: &MovieClipInfo, args: &Vec<Value>, stop: bool) -> (r: Result<
    Option<NavigationCommand>,
    ScriptError,
>)
    requires
        mc.wf(),
    ensures
        r == goto_frame_spec(*mc, args@, stop),
{
    if args.len() == 0 {
        return Ok(None);
    }
    match &args[0] {
        Value::Int(n0) => {
            let n: i32 = *n0;
            let frame: i32 = if n == i32::MIN {
                i32::MAX
            } else {
                n - 1
            };
            if frame < 0 {
                Ok(None)
            } else {
                let total = mc.total_frames;
                if frame > total as i32 {
                    Ok(Some(NavigationCommand::GotoFrame { frame: total, stop }))
                } else if frame == u16::MAX as i32 {
                    Ok(Some(NavigationCommand::GotoFrame { frame: u16::MAX, stop }))
                } else {
                    Ok(Some(NavigationCommand::GotoFrame { frame: (frame + 1) as u16, stop }))
                }
            }
        },
        v => {
            match coerce_to_label(v) {
                Ok(label) => match frame_label_to_number(mc, label.as_str()) {
                    Some(f) => Ok(Some(NavigationCommand::GotoFrame { frame: f, stop })),
                    None => Ok(None),
                },
                Err(e) => Err(e),
            }
        },
    }
}

/// The navigation call with playback resuming afterwards.
pub fn goto_and_play(mc: &MovieClipInfo, args: &Vec<Value>) -> (r: Result<
    Option<NavigationCommand>,
    ScriptError,
>)
    requires
        mc.wf(),
    ensures
        r == goto_frame_spec(*mc, args@, false),
{
    goto_frame(mc, args, false)
}

/// The navigation call with playback halted afterwards.
pub fn goto_and_stop(mc: &MovieClipInfo, args: &Vec<Value>) -> (r: Result<
    Option<NavigationCommand>,
    ScriptError,
>)
    requires
        mc.wf(),
    ensures
        r == goto_frame_spec(*mc, args@, true),
{
    goto_frame(mc, args, true)
}

/// Every positive one-based target within the bounds issues a goto of
/// exactly that frame number, with the stop flag honoured. Targets above
/// the 16-bit maximum are the one exception: the shift back to one-based
/// form saturates there.
pub proof fn lemma_goto_number_in_range(mc: MovieClipInfo, n: i32, stop: bool)
    requires
        0 < n,
        n - 1 <= mc.total_frames as int,
        n <= u16::MAX as int,
    ensures
        goto_frame_spec(mc, seq![Value::Int(n)], stop) == Ok::<Option<NavigationCommand>,
            ScriptError,
        >(Some(NavigationCommand::GotoFrame { frame: n as u16, stop })),
{
}

/// Every non-positive numeric target is a silent no-op. The minimum 32-bit
/// value is the one exception: it wraps around to the maximum and clamps to
/// the last frame instead.
pub proof fn lemma_goto_number_nonpositive(mc: MovieClipInfo, n: i32, stop: bool)
    requires
        n <= 0,
        i32::MIN < n,
    ensures
        goto_frame_spec(mc, seq![Value::Int(n)], stop) == Ok::<Option<NavigationCommand>,
            ScriptError,
        >(None),
{
}

/// A numeric target never issues anything but a goto, and the issued frame
/// index never leaves `[1, total_frames + 1]`; the upper end is one past the
/// bound, which is the kept clamp boundary.
pub proof fn lemma_goto_number_bounds(n: i32, total: u16, stop: bool)
    requires
        total >= 1,
    ensures
        (frame_command_for_number(n, total, stop) matches Some(cmd) ==> cmd matches
            NavigationCommand::GotoFrame { frame, stop: s } && 1 <= frame <= total as int + 1
            && s == stop),
{
}

/// A label found in the table issues a goto of the frame it names, with the
/// stop flag honoured.
pub proof fn lemma_goto_label_found(mc: MovieClipInfo, s: String, stop: bool)
    requires
        mc.label_map().contains_key(s@),
    ensures
        goto_frame_spec(mc, seq![Value::Str(s)], stop) == Ok::<Option<NavigationCommand>,
            ScriptError,
        >(Some(NavigationCommand::GotoFrame { frame: mc.label_map()[s@], stop })),
{
}

/// A label missing from the table is a silent no-op.
pub proof fn lemma_goto_label_missing(mc: MovieClipInfo, s: String, stop: bool)
    requires
        !mc.label_map().contains_key(s@),
    ensures
        goto_frame_spec(mc, seq![Value::Str(s)], stop) == Ok::<Option<NavigationCommand>,
            ScriptError,
        >(None),
{
}

} // verus!
