//! A scripting-to-timeline binding layer: exposes control over a frame-based
//! playable object (a movie clip's timeline) as native methods and computed
//! properties on a host-managed scriptable object.
//!
//! The crate models the scriptable object store as an arena of objects
//! addressed by index; a `&mut` borrow of the arena is the scope-bound
//! mutation capability, so no reference to mutable object state can outlive
//! the call that was handed it.

pub mod display;
pub mod frame;
pub mod laws;
pub mod object;
pub mod property;
pub mod proto;
pub mod strings;
pub mod value;

pub use display::{DisplayInfo, LabelEntry, MovieClipInfo};
pub use frame::{goto_and_play, goto_and_stop, goto_frame, NavigationCommand};
pub use object::{define, delete, enumerate, get, lookup, new_object, ObjectArena, ScriptContext,
    ScriptObject};
pub use property::{Attributes, NativeGetter, NativeMethod, NativeSetter, PropertyEntry,
    PropertyKind, PropertySlot};
pub use proto::{call_native, constructor, create_proto, overwrite_global, overwrite_root,
    NativeOutcome};
pub use value::{ScriptError, Value};
