//! `ArraySerializer`: a presenter that builds a JSON array and composes it
//! with an optional sibling "meta" block.

use vstd::prelude::*;

use crate::array_builder::ArrayBuilder;
use crate::json::{Json, JsonVal, str_opt_view, string_opt_view};
use crate::object_builder::ObjectBuilder;

verus! {

/// The value `serialize` produces from a built array builder and an
/// optional finalized meta value.  Without meta it is the builder's
/// finalized value.  With meta, the payload and the meta value sit side by
/// side in one object: under the builder's own root key when one is set
/// (the payload is not wrapped again), else under the fixed key `"data"`.
pub open spec fn meta_merged_val(b: ArrayBuilder, meta: Option<JsonVal>) -> JsonVal {
    match meta {
        None => b.final_val(),
        Some(m) => match b.root {
            Some(rt) => JsonVal::Obj(
                Map::empty().insert(rt@, b.inner_val()).insert("meta"@, m),
            ),
            None => JsonVal::Obj(
                Map::empty().insert("data"@, b.final_val()).insert("meta"@, m),
            ),
        },
    }
}

/// A presenter that builds one JSON array from its own state, with an
/// optional metadata block merged in beside the payload.
pub trait ArraySerializer: Sized {
    /// The root key this serializer declares, if any: none unless
    /// overridden together with `root`.
    open spec fn root_spec(&self) -> Option<Seq<char>> {
        None
    }

    /// The finalized value of the meta builder this serializer declares,
    /// if any: none unless overridden together with `meta`.
    open spec fn meta_spec(&self) -> Option<JsonVal> {
        None
    }

    /// The root key, as `serialize` reads it.
    fn root(&self) -> (r: Option<&str>)
        ensures
            str_opt_view(r) == self.root_spec(),
    ;

    /// The meta builder, already populated; its finalized value is
    /// `meta_spec`.
    fn meta(&self) -> (r: Option<ObjectBuilder>)
        ensures
            match (r, self.meta_spec()) {
                (Some(b), Some(v)) => b.final_val() == v,
                (None, None) => true,
                _ => false,
            },
    ;

    /// Populates the builder with the serialized form of `self`.
    fn build(&self, json: ArrayBuilder) -> ArrayBuilder;

    /// Builds, finalizes and merges: the result is `meta_merged_val` of
    /// the builder that `build` returned (which started out empty with
    /// this serializer's root key set) and this serializer's meta value.
    /// Whether the payload sits beside meta under its own root key or
    /// under `"data"` depends only on the built builder's root key.
    fn serialize(&mut self) -> (r: Json)
        ensures
            exists|slf: &Self, pre: ArrayBuilder, post: ArrayBuilder|
                {
                    &&& *slf == *old(self)
                    &&& pre.array@.len() == 0
                    &&& !pre.null
                    &&& !pre.skip
                    &&& string_opt_view(pre.root) == old(self).root_spec()
                    &&& #[trigger] call_ensures(Self::build, (slf, pre), post)
                    &&& r@ == meta_merged_val(post, old(self).meta_spec())
                },
    {
        let mut bldr = ArrayBuilder::new();
        let root = self.root();
        if root.is_some() {
            bldr.root(root.unwrap());
        }
        let mut bldr = self.build(bldr);

        match self.meta() {
            Some(meta) => {
                let meta_json = meta.unwrap();
                let mut meta_bldr = if bldr.has_root() {
                    ObjectBuilder::from_json(bldr.unwrap()).unwrap()
                } else {
                    let mut meta_bldr = ObjectBuilder::new();
                    meta_bldr.set_json("data".to_owned(), bldr.unwrap());
                    meta_bldr
                };
                meta_bldr.set_json("meta".to_owned(), meta_json);
                meta_bldr.unwrap()
            },
            None => bldr.unwrap(),
        }
    }
}

/// Meta composition without a root key: the merged result is an object
/// holding exactly the finalized payload under `"data"` and the meta
/// value under `"meta"`.
pub proof fn lemma_meta_without_root(b: ArrayBuilder, m: JsonVal)
    requires
        b.root is None,
    ensures
        meta_merged_val(b, Some(m)) matches JsonVal::Obj(o) && o.dom() == set!["data"@, "meta"@]
            && o["data"@] == b.final_val() && o["meta"@] == m,
{
    reveal_strlit("data");
    reveal_strlit("meta");
    assert("data"@[0] == 'd' && "meta"@[0] == 'm');
    assert("data"@ != "meta"@);
    let o = Map::empty().insert("data"@, b.final_val()).insert("meta"@, m);
    assert(o.dom() =~= set!["data"@, "meta"@]);
}

/// Meta composition with a root key: the merged result is an object
/// holding exactly the null-resolved payload under the root key and the
/// meta value under `"meta"` — the payload sits beside meta and is not
/// wrapped under an additional `"data"` key.
pub proof fn lemma_meta_with_root(b: ArrayBuilder, m: JsonVal)
    requires
        b.root matches Some(rt) && rt@ != "meta"@,
    ensures
        match b.root {
            Some(rt) => {
                &&& meta_merged_val(b, Some(m)) matches JsonVal::Obj(o) && o.dom() == set![
                    rt@,
                    "meta"@,
                ] && o[rt@] == b.inner_val() && o["meta"@] == m
                &&& rt@ != "data"@ ==> !(meta_merged_val(b, Some(m))->Obj_0).contains_key(
                    "data"@,
                )
            },
            None => false,
        },
{
    reveal_strlit("data");
    reveal_strlit("meta");
    assert("data"@[0] == 'd' && "meta"@[0] == 'm');
    assert("data"@ != "meta"@);
    match b.root {
        Some(rt) => {
            let o = Map::empty().insert(rt@, b.inner_val()).insert("meta"@, m);
            assert(o.dom() =~= set![rt@, "meta"@]);
        },
        None => {},
    }
}

} // verus!
