//! Zero-cost typed registers: a register handle carrying, at the type
//! level, what kind of value the register is meant to hold.  The marker
//! is phantom; the runtime representation is the plain register index.

use vstd::prelude::*;

use crate::resources::Reg;

verus! {

/// The marker of a register holding an integer.
#[derive(Debug, Clone, Copy, PartialEq, Eq, Structural)]
pub struct Integer;

/// The marker of a register holding text.
#[derive(Debug, Clone, Copy, PartialEq, Eq, Structural)]
pub struct Text;

/// The marker of a register holding a byte string.
#[derive(Debug, Clone, Copy, PartialEq, Eq, Structural)]
pub struct Blob;

/// The marker of a register holding a real number.
#[derive(Debug, Clone, Copy, PartialEq, Eq, Structural)]
pub struct Real;

/// The marker of a register holding NULL.
#[derive(Debug, Clone, Copy, PartialEq, Eq, Structural)]
pub struct Null;

/// The marker of a register holding a value of any kind.
#[derive(Debug, Clone, Copy, PartialEq, Eq, Structural)]
pub struct Any;

/// The marker of a register holding a packed row record.
#[derive(Debug, Clone, Copy, PartialEq, Eq, Structural)]
pub struct Record;

/// The marker of a register holding a row identifier.
#[derive(Debug, Clone, Copy, PartialEq, Eq, Structural)]
pub struct Rowid;

/// A register handle tagged with the kind of value it holds.
#[verifier::reject_recursive_types(T)]
#[derive(Debug)]
pub struct TypedReg<T> {
    /// The underlying register.
    pub reg: Reg,
    /// The phantom kind marker.
    pub kind: core::marker::PhantomData<T>,
}

impl<T> TypedReg<T> {
    /// Tag a register.
    pub fn new(reg: Reg) -> (r: TypedReg<T>)
        ensures
            r.reg == reg,
    {
        TypedReg { reg, kind: core::marker::PhantomData }
    }

    /// The underlying register index.
    pub fn raw(&self) -> (r: usize)
        ensures
            r == self.reg.0,
    {
        self.reg.index()
    }
}

} // verus!
