//! In-place access to the contents of a `Json` value.

use vstd::prelude::*;

use crate::json::{Json, JsonVal};

verus! {

/// Mutable access to the entry list of an object or the element list of
/// an array, for editing a tree after it has been built.  The trait
/// methods promise nothing of an arbitrary implementor; on a `Json`
/// value the inherent methods of the same names resolve first and carry
/// the exact contracts.
pub trait MutableJson {
    /// The entry list of an object, borrowed mutably; `None` for every
    /// other kind of value.
    fn as_object_mut(&mut self) -> Option<&mut Vec<(String, Json)>>;

    /// The element list of an array, borrowed mutably; `None` for every
    /// other kind of value.
    fn as_array_mut(&mut self) -> Option<&mut Vec<Json>>;
}

impl MutableJson for Json {
    fn as_object_mut(&mut self) -> Option<&mut Vec<(String, Json)>> {
        Json::as_object_mut(self)
    }

    fn as_array_mut(&mut self) -> Option<&mut Vec<Json>> {
        Json::as_array_mut(self)
    }
}

impl Json {
    /// The entry list of an `Object` value, borrowed mutably; `None` for
    /// every other kind of value, which is left unchanged.
    pub fn as_object_mut(&mut self) -> (r: Option<&mut Vec<(String, Json)>>)
        ensures
            match r {
                Some(v) => *old(self) matches Json::Object(m) && *v == m && *final(self)
                    == Json::Object(*final(v)),
                None => *final(self) == *old(self) && !(old(self)@ matches JsonVal::Obj(_)),
            },
    {
        match self {
            Json::Object(m) => Some(m),
            _ => None,
        }
    }

    /// The element list of an `Array` value, borrowed mutably; `None` for
    /// every other kind of value, which is left unchanged.
    pub fn as_array_mut(&mut self) -> (r: Option<&mut Vec<Json>>)
        ensures
            match r {
                Some(v) => *old(self) matches Json::Array(m) && *v == m && *final(self)
                    == Json::Array(*final(v)),
                None => *final(self) == *old(self) && !(old(self)@ matches JsonVal::Arr(_)),
            },
    {
        match self {
            Json::Array(m) => Some(m),
            _ => None,
        }
    }
}

} // verus!
