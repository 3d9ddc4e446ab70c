//! `ObjectBuilder` accumulates a string-keyed mapping to `Json` values.

use vstd::prelude::*;

use crate::json::{
    Json, JsonVal, ToJson, keys_unique, lemma_obj_view_push, lemma_obj_view_update, obj_view,
};

verus! {

/// A mutable, single-use accumulator that produces one JSON object (or
/// `Null`, or a root-wrapped value) via `unwrap`.
pub struct ObjectBuilder {
    /// The accumulated entries.  Methods keep each key unique; the model
    /// mapping `entries()` is the one in which the last write wins.
    pub object: Vec<(String, Json)>,
    /// When set, finalization discards the entries and yields `Null`.
    pub null: bool,
    /// Advisory flag, read by a containing bulk-fill operation to decide
    /// whether to include this builder's output; never read here.
    pub skip: bool,
    /// When present, finalization wraps the result as the sole value under
    /// this key in a fresh single-entry object.
    pub root: Option<String>,
}

impl ObjectBuilder {
    /// Well-formedness: each key occurs at most once in the entry list.
    pub open spec fn inv(&self) -> bool {
        keys_unique(self.object@)
    }

    /// Model of the accumulated entries.
    pub open spec fn entries(&self) -> Map<Seq<char>, JsonVal> {
        obj_view(self.object@)
    }

    /// Model of the value before root wrapping: `null` wins over content.
    pub open spec fn inner_val(&self) -> JsonVal {
        if self.null {
            JsonVal::Null
        } else {
            JsonVal::Obj(self.entries())
        }
    }

    /// Model of the value finalization produces: the root key, when
    /// present, wraps the result of the `null` resolution.
    pub open spec fn final_val(&self) -> JsonVal {
        match self.root {
            Some(r) => JsonVal::Obj(Map::empty().insert(r@, self.inner_val())),
            None => self.inner_val(),
        }
    }

    /// A builder as `new` returns it: empty, no flag set, no root key.
    pub open spec fn is_fresh(&self) -> bool {
        &&& self.object@.len() == 0
        &&& !self.null
        &&& !self.skip
        &&& self.root is None
    }

    /// An empty builder.
    pub fn new() -> (r: ObjectBuilder)
        ensures
            r.is_fresh(),
            r.inv(),
    {
        ObjectBuilder { object: Vec::new(), null: false, skip: false, root: None }
    }

    /// Seeds a builder with the entries of `object` when it is an object;
    /// yields `None` for every other kind of value.
    pub fn from_json(object: Json) -> (r: Option<ObjectBuilder>)
        ensures
            match r {
                Some(b) => {
                    &&& object matches Json::Object(v) && b.object == v
                    &&& !b.null
                    &&& !b.skip
                    &&& b.root is None
                    &&& object@ == JsonVal::Obj(b.entries())
                },
                None => !(object@ matches JsonVal::Obj(_)),
            },
    {
        match object {
            Json::Object(v) => Some(
                ObjectBuilder { object: v, null: false, skip: false, root: None },
            ),
            _ => None,
        }
    }

    /// Creates a fresh builder, hands it to the callback and returns the
    /// callback's result.
    pub fn build<F: FnOnce(ObjectBuilder) -> ObjectBuilder>(builder: F) -> (r: ObjectBuilder)
        requires
            forall|b: ObjectBuilder| b.is_fresh() ==> #[trigger] call_requires(builder, (b,)),
        ensures
            exists|b: ObjectBuilder| b.is_fresh() && #[trigger] call_ensures(builder, (b,), r),
    {
        let bldr = ObjectBuilder::new();
        builder(bldr)
    }

    /// After `null`, this builder finalizes to `Null` (under the root key,
    /// when one is set).
    pub fn null(&mut self)
        ensures
            *final(self) == (ObjectBuilder { null: true, ..*old(self) }),
    {
        self.null = true;
    }

    /// Marks this builder to be skipped by a containing bulk-fill
    /// operation; finalization of this builder itself is unaffected.
    pub fn skip(&mut self)
        ensures
            *final(self) == (ObjectBuilder { skip: true, ..*old(self) }),
    {
        self.skip = true;
    }

    /// Sets the root key under which finalization wraps the result.
    pub fn root(&mut self, root: &str)
        ensures
            final(self).object == old(self).object,
            final(self).null == old(self).null,
            final(self).skip == old(self).skip,
            final(self).root matches Some(r) && r@ == root@,
    {
        self.root = Some(root.to_owned());
    }

    /// Whether a root key is set.
    pub fn has_root(&mut self) -> (r: bool)
        ensures
            *final(self) == *old(self),
            r == (old(self).root is Some),
    {
        self.root.is_some()
    }

    /// Moves the accumulated value out: `null` resolution first, then root
    /// wrapping.  A root-wrapped result is always a single-key object.
    pub fn unwrap(self) -> (r: Json)
        ensures
            r@ == self.final_val(),
            match self.root {
                Some(rt) => r matches Json::Object(v) && v@.len() == 1 && v@[0].0@ == rt@
                    && v@[0].1@ == self.inner_val(),
                None => if self.null {
                    r == Json::Null
                } else {
                    r matches Json::Object(v) && v == self.object
                },
            },
    {
        if self.root.is_some() {
            let mut obj: Vec<(String, Json)> = Vec::new();
            let root: String = self.root.as_ref().unwrap().clone();
            let self_json = self.unwrap_internal();
            obj.push((root, self_json));
            proof {
                assert(obj_view(Seq::<(String, Json)>::empty()) =~= Map::<Seq<char>,
                    JsonVal,
                >::empty());
                assert(obj@.drop_last() =~= Seq::<(String, Json)>::empty());
            }
            Json::Object(obj)
        } else {
            self.unwrap_internal()
        }
    }

    /// The `null` resolution alone: `Null` when the flag is set, else the
    /// accumulated object.
    fn unwrap_internal(self) -> (r: Json)
        ensures
            r@ == self.inner_val(),
            if self.null {
                r == Json::Null
            } else {
                r matches Json::Object(v) && v == self.object
            },
    {
        if self.null {
            Json::Null
        } else {
            Json::Object(self.object)
        }
    }

    /// Converts `value` and inserts it under `name`; an existing entry with
    /// the same key is overwritten (last write wins).
    pub fn set<V: ToJson>(&mut self, name: String, value: V)
        requires
            old(self).inv(),
        ensures
            final(self).inv(),
            final(self).entries() == old(self).entries().insert(name@, value.to_json_val()),
            final(self).null == old(self).null,
            final(self).skip == old(self).skip,
            final(self).root == old(self).root,
    {
        let json = value.to_json();
        self.set_json(name, json);
    }

    /// Alias for `set`, kept as a separate entry point.
    pub fn call<V: ToJson>(&mut self, name: String, value: V)
        requires
            old(self).inv(),
        ensures
            final(self).inv(),
            final(self).entries() == old(self).entries().insert(name@, value.to_json_val()),
            final(self).null == old(self).null,
            final(self).skip == old(self).skip,
            final(self).root == old(self).root,
    {
        self.set(name, value);
    }

    /// Inserts a raw `Json` value under `name`; an existing entry with the
    /// same key is overwritten (last write wins).
    pub fn set_json(&mut self, name: String, value: Json)
        requires
            old(self).inv(),
        ensures
            final(self).inv(),
            final(self).entries() == old(self).entries().insert(name@, value@),
            final(self).null == old(self).null,
            final(self).skip == old(self).skip,
            final(self).root == old(self).root,
    {
        let ghost s = old(self).object@;
        let mut i: usize = 0;
        while i < self.object.len()
            invariant
                s == old(self).object@,
                self.object@ == s,
                self.null == old(self).null,
                self.skip == old(self).skip,
                self.root == old(self).root,
                keys_unique(s),
                0 <= i <= s.len(),
                forall|j: int| 0 <= j < i ==> s[j].0@ != name@,
            decreases s.len() - i,
        {
            if self.object[i].0 == name {
                self.object.remove(i);
                self.object.insert(i, (name, value));
                proof {
                    let t = s.update(i as int, (name, value));
                    assert(self.object@ =~= t);
                    lemma_obj_view_update(s, i as int, (name, value));
                    assert forall|a: int, k: int| 0 <= a < k < t.len() implies t[a].0@
                        != t[k].0@ by {
                        assert(t[a].0@ == s[a].0@);
                        assert(t[k].0@ == s[k].0@);
                    }
                }
                return ;
            }
            i = i + 1;
        }
        self.object.push((name, value));
        proof {
            lemma_obj_view_push(s, (name, value));
            assert(keys_unique(self.object@));
        }
    }

    /// Builds a new array with the callback and sets it under `name`.
    pub fn array<F: FnOnce(crate::array_builder::ArrayBuilder) -> crate::array_builder::ArrayBuilder>(
        &mut self,
        name: String,
        builder: F,
    )
        requires
            old(self).inv(),
            forall|b: crate::array_builder::ArrayBuilder|
                b.is_fresh() ==> #[trigger] call_requires(builder, (b,)),
        ensures
            final(self).inv(),
            final(self).null == old(self).null,
            final(self).skip == old(self).skip,
            final(self).root == old(self).root,
            exists|b0: crate::array_builder::ArrayBuilder, b: crate::array_builder::ArrayBuilder|
                {
                    &&& b0.is_fresh()
                    &&& #[trigger] call_ensures(builder, (b0,), b)
                    &&& final(self).entries() == old(self).entries().insert(
                        name@,
                        b.final_val(),
                    )
                },
    {
        let bldr = crate::array_builder::ArrayBuilder::build(builder);
        let json = bldr.unwrap();
        self.set_json(name, json);
    }

    /// Builds a new object with the callback and sets it under `name`.
    pub fn object<F: FnOnce(ObjectBuilder) -> ObjectBuilder>(&mut self, name: String, builder: F)
        requires
            old(self).inv(),
            forall|b: ObjectBuilder| b.is_fresh() ==> #[trigger] call_requires(builder, (b,)),
        ensures
            final(self).inv(),
            final(self).null == old(self).null,
            final(self).skip == old(self).skip,
            final(self).root == old(self).root,
            exists|b0: ObjectBuilder, b: ObjectBuilder|
                {
                    &&& b0.is_fresh()
                    &&& #[trigger] call_ensures(builder, (b0,), b)
                    &&& final(self).entries() == old(self).entries().insert(
                        name@,
                        b.final_val(),
                    )
                },
    {
        let bldr = ObjectBuilder::build(builder);
        let json = bldr.unwrap();
        self.set_json(name, json);
    }
}

/// Null precedence: a builder whose `null` flag is set finalizes to
/// `Null`, whatever entries it holds — except that a root key, when set,
/// still wraps that `Null` one level deep.
pub proof fn lemma_object_null_precedence(b: ObjectBuilder)
    requires
        b.null,
    ensures
        match b.root {
            Some(rt) => b.final_val() == JsonVal::Obj(Map::empty().insert(rt@, JsonVal::Null)),
            None => b.final_val() == JsonVal::Null,
        },
{
}

/// Root wrapping: a builder with a root key set always finalizes to a
/// single-key object whose sole key is the root key, whether its content
/// is null, empty or populated.
pub proof fn lemma_object_root_single_key(b: ObjectBuilder)
    requires
        b.root is Some,
    ensures
        match b.root {
            Some(rt) => b.final_val() matches JsonVal::Obj(m) && m.dom() == set![rt@]
                && m[rt@] == b.inner_val(),
            None => false,
        },
{
    match b.root {
        Some(rt) => {
            assert(Map::empty().insert(rt@, b.inner_val()).dom() =~= set![rt@]);
        },
        None => {},
    }
}

impl crate::json::ToJson for ObjectBuilder {
    /// A builder converts to a copy of its current content with the
    /// `null` flag resolved; the root key plays no part here.
    open spec fn to_json_val(&self) -> JsonVal {
        self.inner_val()
    }

    fn to_json(&self) -> (r: Json) {
        if self.null {
            Json::Null
        } else {
            Json::Object(crate::json::duplicate_entries(&self.object))
        }
    }
}

} // verus!
