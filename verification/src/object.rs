//! The heap-object representation shared by the compiler and the machine.
//!
//! An `Obj` is a closed tagged union over the object kinds, matched
//! exhaustively wherever it is consumed; a type tag (`ObjType`) is still
//! exposed for callers that only want to inspect the kind.  One kind exists
//! at this stage: a string object owning its character content as bytes.

use vstd::prelude::*;

verus! {

/// The type tag carried by every heap object.
#[allow(non_camel_case_types)]
#[derive(Clone, Copy, PartialEq, Eq, Structural, Debug)]
pub enum ObjType {
    OBJ_STRING,
}

/// A heap string object owning its content as a byte sequence.
#[derive(Clone, Debug)]
pub struct ObjString {
    string: Vec<u8>,
}

impl View for ObjString {
    type V = Seq<u8>;

    closed spec fn view(&self) -> Seq<u8> {
        self.string@
    }
}

impl ObjString {
    /// Build a string object that takes ownership of the given content.
    pub fn from(string: Vec<u8>) -> (r: Self)
        ensures
            r@ == string@,
    {
        ObjString { string }
    }


    /// An owned copy of the string object.
    pub fn duplicate(&self) -> (r: ObjString)
        ensures
            r@ == self@,
    {
        ObjString::from(crate::value::clone_bytes(&self.string))
    }

    /// The owned character content of the string object.
    pub fn get_string(&self) -> (r: &Vec<u8>)
        ensures
            r@ == self@,
    {
        &self.string
    }
}

/// The polymorphic heap entity: a closed union over the finite set of object
/// kinds, so that every consumer matches exhaustively and no runtime
/// downcast can fail.
#[derive(Clone, Debug)]
pub enum Obj {
    Str(ObjString),
}

impl View for Obj {
    type V = Seq<u8>;

    open spec fn view(&self) -> Seq<u8> {
        match self {
            Obj::Str(s) => s@,
        }
    }
}

impl Obj {
    /// Wrap a string object as a heap entity.
    pub fn str_obj(s: ObjString) -> (r: Obj)
        ensures
            r@ == s@,
    {
        Obj::Str(s)
    }

    /// The type tag of this object.
    pub fn get_type(&self) -> (t: ObjType)
        ensures
            t == ObjType::OBJ_STRING,
    {
        match self {
            Obj::Str(_) => ObjType::OBJ_STRING,
        }
    }

    /// An owned copy of the object.
    pub fn duplicate(&self) -> (r: Obj)
        ensures
            r@ == self@,
    {
        match self {
            Obj::Str(s) => Obj::Str(s.duplicate()),
        }
    }

    /// The content of a string object.
    pub fn as_string(&self) -> (r: &ObjString)
        ensures
            r@ == self@,
    {
        match self {
            Obj::Str(s) => s,
        }
    }
}

} // verus!
