//! `ListSerializer`: a presenter that builds a JSON list and composes it
//! with an optional sibling "meta" block.  It is the older name of the
//! array serializer, kept alongside `ArraySerializer` with the same
//! behaviour.

use vstd::prelude::*;

use crate::list_builder::ListBuilder;
use crate::json::{Json, JsonVal, str_opt_view, string_opt_view};
use crate::object_builder::ObjectBuilder;

verus! {

/// The value `serialize` produces from a built list builder and an
/// optional finalized meta value.  Without meta it is the builder's
/// finalized value.  With meta, the payload and the meta value sit side by
/// side in one object: under the builder's own root key when one is set
/// (the payload is not wrapped again), else under the fixed key `"data"`.
pub open spec fn list_meta_merged_val(b: ListBuilder, meta: Option<JsonVal>) -> JsonVal {
    match meta {
        None => b.final_val(),
        Some(m) => match b.root {
            Some(rt) => JsonVal::Obj(
                Map::empty().insert(rt@, b.inner_val()).insert("meta"@, m),
            ),
            None => JsonVal::Obj(
                Map::empty().insert("data"@, b.final_val()).insert("meta"@, m),
            ),
        },
    }
}

/// A presenter that builds one JSON list from its own state, with an
/// optional metadata block merged in beside the payload.
pub trait ListSerializer: Sized {
    /// The root key this serializer declares, if any: none unless
    /// overridden together with `root`.
    open spec fn root_spec(&self) -> Option<Seq<char>> {
        None
    }

    /// The finalized value of the meta builder this serializer declares,
    /// if any: none unless overridden together with `meta`.
    open spec fn meta_spec(&self) -> Option<JsonVal> {
        None
    }

    /// The root key, as `serialize` reads it.
    fn root(&self) -> (r: Option<&str>)
        ensures
            str_opt_view(r) == self.root_spec(),
    ;

    /// The meta builder, already populated; its finalized value is
    /// `meta_spec`.
    fn meta(&self) -> (r: Option<ObjectBuilder>)
        ensures
            match (r, self.meta_spec()) {
                (Some(b), Some(v)) => b.final_val() == v,
                (None, None) => true,
                _ => false,
            },
    ;

    /// Populates the builder with the serialized form of `self`.
    fn build(&self, json: ListBuilder) -> ListBuilder;

    /// Builds, finalizes and merges: the result is `list_meta_merged_val` of
    /// the builder that `build` returned (which started out empty with
    /// this serializer's root key set) and this serializer's meta value.
    /// Whether the payload sits beside meta under its own root key or
    /// under `"data"` depends only on the built builder's root key.
    fn serialize(&mut self) -> (r: Json)
        ensures
            exists|slf: &Self, pre: ListBuilder, post: ListBuilder|
                {
                    &&& *slf == *old(self)
                    &&& pre.list@.len() == 0
                    &&& !pre.null
                    &&& !pre.skip
                    &&& string_opt_view(pre.root) == old(self).root_spec()
                    &&& #[trigger] call_ensures(Self::build, (slf, pre), post)
                    &&& r@ == list_meta_merged_val(post, old(self).meta_spec())
                },
    {
        let mut bldr = ListBuilder::new();
        let root = self.root();
        if root.is_some() {
            bldr.root(root.unwrap());
        }
        let mut bldr = self.build(bldr);

        match self.meta() {
            Some(meta) => {
                let meta_json = meta.unwrap();
                let mut meta_bldr = if bldr.root.is_some() {
                    ObjectBuilder::from_json(bldr.unwrap()).unwrap()
                } else {
                    let mut meta_bldr = ObjectBuilder::new();
                    meta_bldr.set_json("data".to_owned(), bldr.unwrap());
                    meta_bldr
                };
                meta_bldr.set_json("meta".to_owned(), meta_json);
                meta_bldr.unwrap()
            },
            None => bldr.unwrap(),
        }
    }
}

} // verus!
