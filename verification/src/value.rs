//! Values that cross the boundary of the execution engine.

use vstd::prelude::*;

use crate::extn::io::IO;

verus! {

/// A Ruby value in a form that the host owns.
#[derive(Clone, Debug, PartialEq, Eq)]
pub enum Value {
    Nil,
    Bool(bool),
    Integer(i64),
    Bytes(Vec<u8>),
    /// An object that carries the native state of an `IO`.
    Io(IO),
    /// A value internal to the execution engine. It is not safe to hand on.
    Unreachable,
}

impl Value {
    /// Whether the value is internal to the execution engine.
    pub fn is_unreachable(&self) -> (unreachable: bool)
        ensures
            unreachable == (self is Unreachable),
    {
        match self {
            Value::Unreachable => true,
            _ => false,
        }
    }
}

} // verus!
