//! Script values and the scripting-level error of this layer.

use vstd::prelude::*;
use crate::property::NativeMethod;

verus! {

/// A dynamically-typed script value, as far as this binding layer needs to
/// see one. Numbers are modelled by their 32-bit integer reading, which is
/// the only reading the frame resolver consumes; everything else a number
/// could do belongs to the surrounding value engine, which is out of scope.
pub enum Value {
    Undefined,
    Bool(bool),
    Int(i32),
    Str(String),
    /// A handle to a scriptable object: an index into the object arena.
    Object(usize),
    /// A native callable installed by the registrar.
    Native(NativeMethod),
}

/// The one error this layer can surface to the calling script: a value that
/// cannot be coerced to a string while resolving a frame label. Capability
/// absence and malformed navigation targets are silent no-ops, not errors.
#[derive(PartialEq, Eq, Structural, Clone, Copy, Debug)]
pub enum ScriptError {
    CoercionFailure,
}

impl Clone for Value {
    fn clone(&self) -> (r: Value)
        ensures
            r == *self,
    {
        match self {
            Value::Undefined => Value::Undefined,
            Value::Bool(b) => Value::Bool(*b),
            Value::Int(n) => Value::Int(*n),
            Value::Str(s) => Value::Str(s.clone()),
            Value::Object(id) => Value::Object(*id),
            Value::Native(m) => Value::Native(*m),
        }
    }
}

} // verus!
