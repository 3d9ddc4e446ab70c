//! Serializer traits: reusable presenters that turn a domain value into a
//! JSON object by composing a build callback with an optional root key.

use vstd::prelude::*;

use crate::json::{Json, str_opt_view, string_opt_view};
use crate::object_builder::ObjectBuilder;

verus! {

/// A presenter that builds one JSON object from its own state.
///
/// `serialize` creates a fresh builder, applies the root key when one is
/// declared, hands the builder to `build` and finalizes it.  The result is
/// therefore the finalized value of whatever builder `build` returned.
pub trait Serializer: Sized {
    /// The root key this serializer declares, if any: none unless
    /// overridden together with `root`.
    open spec fn root_spec(&self) -> Option<Seq<char>> {
        None
    }

    /// The root key, as `serialize` reads it.
    fn root(&self) -> (r: Option<&str>)
        ensures
            str_opt_view(r) == self.root_spec(),
    ;

    /// Populates the builder with the serialized form of `self`.
    fn build(&self, json: ObjectBuilder) -> ObjectBuilder;

    /// Builds and finalizes: the result is the finalized value of the
    /// builder that `build` returned, which started out empty with this
    /// serializer's root key set.
    fn serialize(&mut self) -> (r: Json)
        ensures
            exists|slf: &Self, pre: ObjectBuilder, post: ObjectBuilder|
                {
                    &&& *slf == *old(self)
                    &&& pre.object@.len() == 0
                    &&& !pre.null
                    &&& !pre.skip
                    &&& string_opt_view(pre.root) == old(self).root_spec()
                    &&& #[trigger] call_ensures(Self::build, (slf, pre), post)
                    &&& r@ == post.final_val()
                },
    {
        let mut bldr = ObjectBuilder::new();
        let root = self.root();
        if root.is_some() {
            bldr.root(root.unwrap());
        }
        let bldr = self.build(bldr);
        bldr.unwrap()
    }
}

/// A presenter that builds one JSON object from a borrowed domain value.
pub trait ObjectSerializer<T>: Sized {
    /// The root key this serializer declares, if any: none unless
    /// overridden together with `root`.
    open spec fn root_spec(&self) -> Option<Seq<char>> {
        None
    }

    /// The root key, as `serialize` reads it.
    fn root(&self) -> (r: Option<&str>)
        ensures
            str_opt_view(r) == self.root_spec(),
    ;

    /// Populates the builder with the serialized form of `obj`.
    fn build(&self, obj: &T, json: ObjectBuilder) -> ObjectBuilder;

    /// Builds and finalizes: the result is the finalized value of the
    /// builder that `build` returned, which started out empty with this
    /// serializer's root key set.
    fn serialize(&mut self, obj: &T) -> (r: Json)
        ensures
            exists|slf: &Self, pre: ObjectBuilder, post: ObjectBuilder|
                {
                    &&& *slf == *old(self)
                    &&& pre.object@.len() == 0
                    &&& !pre.null
                    &&& !pre.skip
                    &&& string_opt_view(pre.root) == old(self).root_spec()
                    &&& #[trigger] call_ensures(Self::build, (slf, obj, pre), post)
                    &&& r@ == post.final_val()
                },
    {
        let mut bldr = ObjectBuilder::new();
        let root = self.root();
        if root.is_some() {
            bldr.root(root.unwrap());
        }
        let bldr = self.build(obj, bldr);
        bldr.unwrap()
    }
}

/// A presenter that builds one JSON object from a borrowed domain value
/// together with a scope value (a viewer, a permission context).
pub trait ObjectScopeSerializer<T, S>: Sized {
    /// The root key this serializer declares, if any: none unless
    /// overridden together with `root`.
    open spec fn root_spec(&self) -> Option<Seq<char>> {
        None
    }

    /// The root key, as `serialize` reads it.
    fn root(&self) -> (r: Option<&str>)
        ensures
            str_opt_view(r) == self.root_spec(),
    ;

    /// Populates the builder with the serialized form of `obj` under
    /// `scope`.
    fn build(&self, obj: &T, scope: &S, json: ObjectBuilder) -> ObjectBuilder;

    /// Builds and finalizes: the result is the finalized value of the
    /// builder that `build` returned, which started out empty with this
    /// serializer's root key set.
    fn serialize(&mut self, obj: &T, scope: &S) -> (r: Json)
        ensures
            exists|slf: &Self, pre: ObjectBuilder, post: ObjectBuilder|
                {
                    &&& *slf == *old(self)
                    &&& pre.object@.len() == 0
                    &&& !pre.null
                    &&& !pre.skip
                    &&& string_opt_view(pre.root) == old(self).root_spec()
                    &&& #[trigger] call_ensures(Self::build, (slf, obj, scope, pre), post)
                    &&& r@ == post.final_val()
                },
    {
        let mut bldr = ObjectBuilder::new();
        let root = self.root();
        if root.is_some() {
            bldr.root(root.unwrap());
        }
        let bldr = self.build(obj, scope, bldr);
        bldr.unwrap()
    }
}

} // verus!
