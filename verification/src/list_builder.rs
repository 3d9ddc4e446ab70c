//! `ListBuilder` accumulates an ordered sequence of `Json` values.
//!
//! It is the older name of the array accumulator, kept alongside
//! `ArrayBuilder` with the same behaviour.

use vstd::prelude::*;

use crate::json::{Json, JsonVal, ToJson, arr_view, lemma_arr_view_push};
use crate::array_builder::{kept_object_results, object_fill_output};
use crate::object_builder::ObjectBuilder;

verus! {

/// A mutable, single-use accumulator that produces one JSON list (or
/// `Null`, or a root-wrapped value) via `unwrap`.
pub struct ListBuilder {
    /// The accumulated elements, in insertion order.
    pub list: Vec<Json>,
    /// When set, finalization discards the elements and yields `Null`.
    pub null: bool,
    /// Advisory flag, read by a containing bulk-fill operation to decide
    /// whether to include this builder's output; never read here.
    pub skip: bool,
    /// When present, finalization wraps the result as the sole value under
    /// this key in a fresh single-entry object.
    pub root: Option<String>,
}

/// The values that a bulk fill of list builders appends: the finalized
/// value of each produced builder whose `skip` flag is unset, in order.
pub open spec fn kept_list_results(outs: Seq<ListBuilder>) -> Seq<JsonVal>
    decreases outs,
{
    if outs.len() == 0 {
        Seq::empty()
    } else {
        let rest = kept_list_results(outs.drop_last());
        if outs.last().skip {
            rest
        } else {
            rest.push(outs.last().final_val())
        }
    }
}

/// The relation a bulk fill of lists leaves between an input item and
/// the builder its callback run produced.
pub open spec fn list_fill_output<A, F: Fn(&A, ListBuilder) -> ListBuilder>(
    func: F,
    item: A,
    out: ListBuilder,
) -> bool {
    exists|b: ListBuilder| b.is_fresh() && #[trigger] call_ensures(func, (&item, b), out)
}

impl ListBuilder {
    /// Model of the accumulated element sequence.
    pub open spec fn elements(&self) -> Seq<JsonVal> {
        arr_view(self.list@)
    }

    /// Model of the value before root wrapping: `null` wins over content.
    pub open spec fn inner_val(&self) -> JsonVal {
        if self.null {
            JsonVal::Null
        } else {
            JsonVal::Arr(self.elements())
        }
    }

    /// Model of the value finalization produces: the root key, when
    /// present, wraps the result of the `null` resolution.
    pub open spec fn final_val(&self) -> JsonVal {
        match self.root {
            Some(r) => JsonVal::Obj(Map::empty().insert(r@, self.inner_val())),
            None => self.inner_val(),
        }
    }

    /// A builder as `new` returns it: empty, no flag set, no root key.
    pub open spec fn is_fresh(&self) -> bool {
        &&& self.list@.len() == 0
        &&& !self.null
        &&& !self.skip
        &&& self.root is None
    }

    /// An empty builder.
    pub fn new() -> (r: ListBuilder)
        ensures
            r.is_fresh(),
    {
        ListBuilder { list: Vec::new(), null: false, skip: false, root: None }
    }

    /// Seeds a builder with the elements of `list` when it is an array;
    /// yields `None` for every other kind of value.
    pub fn from_json(list: Json) -> (r: Option<ListBuilder>)
        ensures
            match r {
                Some(b) => {
                    &&& list matches Json::Array(v) && b.list == v
                    &&& !b.null
                    &&& !b.skip
                    &&& b.root is None
                    &&& list@ == JsonVal::Arr(b.elements())
                },
                None => !(list@ matches JsonVal::Arr(_)),
            },
    {
        match list {
            Json::Array(v) => Some(ListBuilder { list: v, null: false, skip: false, root: None }),
            _ => None,
        }
    }

    /// Creates a fresh builder, hands it to the callback and returns the
    /// callback's result.
    pub fn build<F: FnOnce(ListBuilder) -> ListBuilder>(builder: F) -> (r: ListBuilder)
        requires
            forall|b: ListBuilder| b.is_fresh() ==> #[trigger] call_requires(builder, (b,)),
        ensures
            exists|b: ListBuilder| b.is_fresh() && #[trigger] call_ensures(builder, (b,), r),
    {
        let bldr = ListBuilder::new();
        builder(bldr)
    }

    /// Appends a raw `Json` value.
    pub fn push_json(&mut self, value: Json)
        ensures
            final(self).list@ == old(self).list@.push(value),
            final(self).elements() == old(self).elements().push(value@),
            final(self).null == old(self).null,
            final(self).skip == old(self).skip,
            final(self).root == old(self).root,
    {
        proof {
            lemma_arr_view_push(self.list@, value);
        }
        self.list.push(value);
    }

    /// Converts `value` and appends it.
    pub fn push<V: ToJson>(&mut self, value: V)
        ensures
            final(self).elements() == old(self).elements().push(value.to_json_val()),
            final(self).list@.len() == old(self).list@.len() + 1,
            final(self).null == old(self).null,
            final(self).skip == old(self).skip,
            final(self).root == old(self).root,
    {
        let json = value.to_json();
        self.push_json(json);
    }

    /// Builds a new list with the callback and appends it as an element.
    pub fn list<F: FnOnce(ListBuilder) -> ListBuilder>(&mut self, builder: F)
        requires
            forall|b: ListBuilder| b.is_fresh() ==> #[trigger] call_requires(builder, (b,)),
        ensures
            final(self).null == old(self).null,
            final(self).skip == old(self).skip,
            final(self).root == old(self).root,
            exists|b0: ListBuilder, b: ListBuilder|
                {
                    &&& b0.is_fresh()
                    &&& #[trigger] call_ensures(builder, (b0,), b)
                    &&& final(self).elements() == old(self).elements().push(b.final_val())
                },
    {
        let bldr = ListBuilder::build(builder);
        let json = bldr.unwrap();
        self.push_json(json);
    }

    /// Builds a new object with the callback and appends it as an element.
    pub fn object<F: FnOnce(ObjectBuilder) -> ObjectBuilder>(&mut self, builder: F)
        requires
            forall|b: ObjectBuilder| b.is_fresh() ==> #[trigger] call_requires(builder, (b,)),
        ensures
            final(self).null == old(self).null,
            final(self).skip == old(self).skip,
            final(self).root == old(self).root,
            exists|b0: ObjectBuilder, b: ObjectBuilder|
                {
                    &&& b0.is_fresh()
                    &&& #[trigger] call_ensures(builder, (b0,), b)
                    &&& final(self).elements() == old(self).elements().push(b.final_val())
                },
    {
        let bldr = ObjectBuilder::build(builder);
        let json = bldr.unwrap();
        self.push_json(json);
    }

    /// After `null`, this builder finalizes to `Null` (under the root key,
    /// when one is set).
    pub fn null(&mut self)
        ensures
            *final(self) == (ListBuilder { null: true, ..*old(self) }),
    {
        self.null = true;
    }

    /// Marks this builder to be skipped by a containing bulk-fill
    /// operation; finalization of this builder itself is unaffected.
    pub fn skip(&mut self)
        ensures
            *final(self) == (ListBuilder { skip: true, ..*old(self) }),
    {
        self.skip = true;
    }

    /// Sets the root key under which finalization wraps the result.
    pub fn root(&mut self, root: &str)
        ensures
            final(self).list == old(self).list,
            final(self).null == old(self).null,
            final(self).skip == old(self).skip,
            final(self).root matches Some(r) && r@ == root@,
    {
        self.root = Some(root.to_owned());
    }

    /// Moves the accumulated value out: `null` resolution first, then root
    /// wrapping.  A root-wrapped result is always a single-key object.
    pub fn unwrap(self) -> (r: Json)
        ensures
            r@ == self.final_val(),
            match self.root {
                Some(rt) => r matches Json::Object(v) && v@.len() == 1 && v@[0].0@ == rt@
                    && v@[0].1@ == self.inner_val(),
                None => if self.null {
                    r == Json::Null
                } else {
                    r matches Json::Array(v) && v == self.list
                },
            },
    {
        if self.root.is_some() {
            let mut obj: Vec<(String, Json)> = Vec::new();
            let root: String = self.root.as_ref().unwrap().clone();
            let self_json = self.unwrap_internal();
            obj.push((root, self_json));
            proof {
                assert(crate::json::obj_view(Seq::<(String, Json)>::empty()) =~= Map::<
                    Seq<char>,
                    JsonVal,
                >::empty());
                assert(obj@.drop_last() =~= Seq::<(String, Json)>::empty());
            }
            Json::Object(obj)
        } else {
            self.unwrap_internal()
        }
    }

    /// The `null` resolution alone: `Null` when the flag is set, else the
    /// accumulated list.
    fn unwrap_internal(self) -> (r: Json)
        ensures
            r@ == self.inner_val(),
            if self.null {
                r == Json::Null
            } else {
                r matches Json::Array(v) && v == self.list
            },
    {
        if self.null {
            Json::Null
        } else {
            Json::Array(self.list)
        }
    }

    /// Fills this list with objects built from the items, one callback
    /// run per item on a fresh builder.  A builder whose `skip` flag is set
    /// after its run is left out; the rest are finalized and appended in
    /// the order of the items.
    pub fn objects<A, F: Fn(&A, ObjectBuilder) -> ObjectBuilder>(
        &mut self,
        items: &Vec<A>,
        func: F,
    )
        requires
            forall|i: int, b: ObjectBuilder|
                0 <= i < items@.len() && b.is_fresh() && b.inv() ==> #[trigger] call_requires(
                    func,
                    (&items@[i], b),
                ),
        ensures
            final(self).null == old(self).null,
            final(self).skip == old(self).skip,
            final(self).root == old(self).root,
            exists|outs: Seq<ObjectBuilder>|
                {
                    &&& outs.len() == items@.len()
                    &&& forall|i: int|
                        0 <= i < outs.len() ==> #[trigger] object_fill_output(
                            func,
                            items@[i],
                            outs[i],
                        )
                    &&& final(self).elements() == old(self).elements() + kept_object_results(outs)
                },
    {
        let ghost mut outs: Seq<ObjectBuilder> = Seq::empty();
        let mut idx: usize = 0;
        while idx < items.len()
            invariant
                forall|i: int, b: ObjectBuilder|
                    0 <= i < items@.len() && b.is_fresh() && b.inv() ==> #[trigger] call_requires(
                        func,
                        (&items@[i], b),
                    ),
                0 <= idx <= items@.len(),
                outs.len() == idx,
                forall|i: int|
                    0 <= i < outs.len() ==> #[trigger] object_fill_output(
                        func,
                        items@[i],
                        outs[i],
                    ),
                self.elements() == old(self).elements() + kept_object_results(outs),
                self.null == old(self).null,
                self.skip == old(self).skip,
                self.root == old(self).root,
            decreases items@.len() - idx,
        {
            let bldr = ObjectBuilder::new();
            let ghost fresh = bldr;
            let out = func(&items[idx], bldr);
            let ghost prev = outs;
            proof {
                outs = outs.push(out);
                assert(outs.drop_last() =~= prev);
                assert(outs.last() == out);
                assert forall|i: int|
                    0 <= i < outs.len() implies #[trigger] object_fill_output(
                    func,
                    items@[i],
                    outs[i],
                ) by {
                    if i < prev.len() {
                        assert(outs[i] == prev[i]);
                        assert(object_fill_output(func, items@[i], prev[i]));
                    } else {
                        assert(outs[i] == out);
                        assert(fresh.is_fresh() && fresh.inv() && call_ensures(
                            func,
                            (&items@[i], fresh),
                            outs[i],
                        ));
                    }
                }
            }
            if !out.skip {
                let json = out.unwrap();
                self.push_json(json);
                proof {
                    assert(kept_object_results(outs) == kept_object_results(prev).push(
                        out.final_val(),
                    ));
                    assert(old(self).elements() + kept_object_results(outs) =~= (old(
                        self,
                    ).elements() + kept_object_results(prev)).push(out.final_val()));
                }
            } else {
                proof {
                    assert(kept_object_results(outs) == kept_object_results(prev));
                }
            }
            idx = idx + 1;
        }
    }

    /// Fills this list with lists built from the items; same skip
    /// semantics as `objects`.
    pub fn lists<A, F: Fn(&A, ListBuilder) -> ListBuilder>(&mut self, items: &Vec<A>, func: F)
        requires
            forall|i: int, b: ListBuilder|
                0 <= i < items@.len() && b.is_fresh() ==> #[trigger] call_requires(
                    func,
                    (&items@[i], b),
                ),
        ensures
            final(self).null == old(self).null,
            final(self).skip == old(self).skip,
            final(self).root == old(self).root,
            exists|outs: Seq<ListBuilder>|
                {
                    &&& outs.len() == items@.len()
                    &&& forall|i: int|
                        0 <= i < outs.len() ==> #[trigger] list_fill_output(
                            func,
                            items@[i],
                            outs[i],
                        )
                    &&& final(self).elements() == old(self).elements() + kept_list_results(outs)
                },
    {
        let ghost mut outs: Seq<ListBuilder> = Seq::empty();
        let mut idx: usize = 0;
        while idx < items.len()
            invariant
                forall|i: int, b: ListBuilder|
                    0 <= i < items@.len() && b.is_fresh() ==> #[trigger] call_requires(
                        func,
                        (&items@[i], b),
                    ),
                0 <= idx <= items@.len(),
                outs.len() == idx,
                forall|i: int|
                    0 <= i < outs.len() ==> #[trigger] list_fill_output(
                        func,
                        items@[i],
                        outs[i],
                    ),
                self.elements() == old(self).elements() + kept_list_results(outs),
                self.null == old(self).null,
                self.skip == old(self).skip,
                self.root == old(self).root,
            decreases items@.len() - idx,
        {
            let bldr = ListBuilder::new();
            let ghost fresh = bldr;
            let out = func(&items[idx], bldr);
            let ghost prev = outs;
            proof {
                outs = outs.push(out);
                assert(outs.drop_last() =~= prev);
                assert(outs.last() == out);
                assert forall|i: int|
                    0 <= i < outs.len() implies #[trigger] list_fill_output(
                    func,
                    items@[i],
                    outs[i],
                ) by {
                    if i < prev.len() {
                        assert(outs[i] == prev[i]);
                        assert(list_fill_output(func, items@[i], prev[i]));
                    } else {
                        assert(outs[i] == out);
                        assert(fresh.is_fresh() && call_ensures(func, (&items@[i], fresh), outs[i]));
                    }
                }
            }
            if !out.skip {
                let json = out.unwrap();
                self.push_json(json);
                proof {
                    assert(kept_list_results(outs) == kept_list_results(prev).push(
                        out.final_val(),
                    ));
                    assert(old(self).elements() + kept_list_results(outs) =~= (old(
                        self,
                    ).elements() + kept_list_results(prev)).push(out.final_val()));
                }
            } else {
                proof {
                    assert(kept_list_results(outs) == kept_list_results(prev));
                }
            }
            idx = idx + 1;
        }
    }

    /// Fills this list with one value per item, no skip semantics: the
    /// output holds exactly one element for each input item, in order.
    pub fn map<A, F: Fn(&A) -> Json>(&mut self, items: &Vec<A>, func: F)
        requires
            forall|i: int|
                0 <= i < items@.len() ==> #[trigger] call_requires(func, (&items@[i],)),
        ensures
            final(self).null == old(self).null,
            final(self).skip == old(self).skip,
            final(self).root == old(self).root,
            final(self).list@.len() == old(self).list@.len() + items@.len(),
            forall|i: int|
                0 <= i < old(self).list@.len() ==> final(self).list@[i] == old(self).list@[i],
            forall|i: int|
                0 <= i < items@.len() ==> #[trigger] call_ensures(
                    func,
                    (&items@[i],),
                    final(self).list@[old(self).list@.len() + i],
                ),
    {
        let mut idx: usize = 0;
        while idx < items.len()
            invariant
                forall|i: int|
                    0 <= i < items@.len() ==> #[trigger] call_requires(func, (&items@[i],)),
                0 <= idx <= items@.len(),
                self.list@.len() == old(self).list@.len() + idx,
                forall|i: int|
                    0 <= i < old(self).list@.len() ==> self.list@[i] == old(self).list@[i],
                forall|i: int|
                    0 <= i < idx ==> #[trigger] call_ensures(
                        func,
                        (&items@[i],),
                        self.list@[old(self).list@.len() + i],
                    ),
                self.null == old(self).null,
                self.skip == old(self).skip,
                self.root == old(self).root,
            decreases items@.len() - idx,
        {
            let json = func(&items[idx]);
            self.push_json(json);
            idx = idx + 1;
        }
    }
}

impl crate::json::ToJson for ListBuilder {
    /// A builder converts to a copy of its current content with the
    /// `null` flag resolved; the root key plays no part here.
    open spec fn to_json_val(&self) -> JsonVal {
        self.inner_val()
    }

    fn to_json(&self) -> (r: Json) {
        if self.null {
            Json::Null
        } else {
            Json::Array(crate::json::duplicate_elements(&self.list))
        }
    }
}

} // verus!
