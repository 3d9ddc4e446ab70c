//! `ArrayBuilder` accumulates an ordered sequence of `Json` values.

use vstd::prelude::*;

use crate::json::{Json, JsonVal, ToJson, arr_view, lemma_arr_view_push};
use crate::object_builder::ObjectBuilder;

verus! {

/// A mutable, single-use accumulator that produces one JSON array (or
/// `Null`, or a root-wrapped value) via `unwrap`.
pub struct ArrayBuilder {
    /// The accumulated elements, in insertion order.
    pub array: Vec<Json>,
    /// When set, finalization discards the elements and yields `Null`.
    pub null: bool,
    /// Advisory flag, read by a containing bulk-fill operation to decide
    /// whether to include this builder's output; never read here.
    pub skip: bool,
    /// When present, finalization wraps the result as the sole value under
    /// this key in a fresh single-entry object.
    pub root: Option<String>,
}

/// The values that a bulk fill of object builders appends: the finalized
/// value of each produced builder whose `skip` flag is unset, in order.
pub open spec fn kept_object_results(outs: Seq<ObjectBuilder>) -> Seq<JsonVal>
    decreases outs,
{
    if outs.len() == 0 {
        Seq::empty()
    } else {
        let rest = kept_object_results(outs.drop_last());
        if outs.last().skip {
            rest
        } else {
            rest.push(outs.last().final_val())
        }
    }
}

/// The values that a bulk fill of array builders appends: the finalized
/// value of each produced builder whose `skip` flag is unset, in order.
pub open spec fn kept_array_results(outs: Seq<ArrayBuilder>) -> Seq<JsonVal>
    decreases outs,
{
    if outs.len() == 0 {
        Seq::empty()
    } else {
        let rest = kept_array_results(outs.drop_last());
        if outs.last().skip {
            rest
        } else {
            rest.push(outs.last().final_val())
        }
    }
}

/// The relation a bulk fill of objects leaves between an input item and
/// the builder its callback run produced: some fresh builder was handed to
/// the callback together with the item, and `out` is what came back.
pub open spec fn object_fill_output<A, F: Fn(&A, ObjectBuilder) -> ObjectBuilder>(
    func: F,
    item: A,
    out: ObjectBuilder,
) -> bool {
    exists|b: ObjectBuilder|
        b.is_fresh() && b.inv() && #[trigger] call_ensures(func, (&item, b), out)
}

/// The same relation for a bulk fill of arrays.
pub open spec fn array_fill_output<A, F: Fn(&A, ArrayBuilder) -> ArrayBuilder>(
    func: F,
    item: A,
    out: ArrayBuilder,
) -> bool {
    exists|b: ArrayBuilder| b.is_fresh() && #[trigger] call_ensures(func, (&item, b), out)
}

impl ArrayBuilder {
    /// Model of the accumulated element sequence.
    pub open spec fn elements(&self) -> Seq<JsonVal> {
        arr_view(self.array@)
    }

    /// Model of the value before root wrapping: `null` wins over content.
    pub open spec fn inner_val(&self) -> JsonVal {
        if self.null {
            JsonVal::Null
        } else {
            JsonVal::Arr(self.elements())
        }
    }

    /// Model of the value finalization produces: the root key, when
    /// present, wraps the result of the `null` resolution.
    pub open spec fn final_val(&self) -> JsonVal {
        match self.root {
            Some(r) => JsonVal::Obj(Map::empty().insert(r@, self.inner_val())),
            None => self.inner_val(),
        }
    }

    /// A builder as `new` returns it: empty, no flag set, no root key.
    pub open spec fn is_fresh(&self) -> bool {
        &&& self.array@.len() == 0
        &&& !self.null
        &&& !self.skip
        &&& self.root is None
    }

    /// An empty builder.
    pub fn new() -> (r: ArrayBuilder)
        ensures
            r.is_fresh(),
    {
        ArrayBuilder { array: Vec::new(), null: false, skip: false, root: None }
    }

    /// Seeds a builder with the elements of `array` when it is an array;
    /// yields `None` for every other kind of value.
    pub fn from_json(array: Json) -> (r: Option<ArrayBuilder>)
        ensures
            match r {
                Some(b) => {
                    &&& array matches Json::Array(v) && b.array == v
                    &&& !b.null
                    &&& !b.skip
                    &&& b.root is None
                    &&& array@ == JsonVal::Arr(b.elements())
                },
                None => !(array@ matches JsonVal::Arr(_)),
            },
    {
        match array {
            Json::Array(v) => Some(ArrayBuilder { array: v, null: false, skip: false, root: None }),
            _ => None,
        }
    }

    /// Creates a fresh builder, hands it to the callback and returns the
    /// callback's result.
    pub fn build<F: FnOnce(ArrayBuilder) -> ArrayBuilder>(builder: F) -> (r: ArrayBuilder)
        requires
            forall|b: ArrayBuilder| b.is_fresh() ==> #[trigger] call_requires(builder, (b,)),
        ensures
            exists|b: ArrayBuilder| b.is_fresh() && #[trigger] call_ensures(builder, (b,), r),
    {
        let bldr = ArrayBuilder::new();
        builder(bldr)
    }

    /// Appends a raw `Json` value.
    pub fn push_json(&mut self, value: Json)
        ensures
            final(self).array@ == old(self).array@.push(value),
            final(self).elements() == old(self).elements().push(value@),
            final(self).null == old(self).null,
            final(self).skip == old(self).skip,
            final(self).root == old(self).root,
    {
        proof {
            lemma_arr_view_push(self.array@, value);
        }
        self.array.push(value);
    }

    /// Converts `value` and appends it.
    pub fn push<V: ToJson>(&mut self, value: V)
        ensures
            final(self).elements() == old(self).elements().push(value.to_json_val()),
            final(self).array@.len() == old(self).array@.len() + 1,
            final(self).null == old(self).null,
            final(self).skip == old(self).skip,
            final(self).root == old(self).root,
    {
        let json = value.to_json();
        self.push_json(json);
    }

    /// Builds a new array with the callback and appends it as an element.
    pub fn array<F: FnOnce(ArrayBuilder) -> ArrayBuilder>(&mut self, builder: F)
        requires
            forall|b: ArrayBuilder| b.is_fresh() ==> #[trigger] call_requires(builder, (b,)),
        ensures
            final(self).null == old(self).null,
            final(self).skip == old(self).skip,
            final(self).root == old(self).root,
            exists|b0: ArrayBuilder, b: ArrayBuilder|
                {
                    &&& b0.is_fresh()
                    &&& #[trigger] call_ensures(builder, (b0,), b)
                    &&& final(self).elements() == old(self).elements().push(b.final_val())
                },
    {
        let bldr = ArrayBuilder::build(builder);
        let json = bldr.unwrap();
        self.push_json(json);
    }

    /// Builds a new object with the callback and appends it as an element.
    pub fn object<F: FnOnce(ObjectBuilder) -> ObjectBuilder>(&mut self, builder: F)
        requires
            forall|b: ObjectBuilder| b.is_fresh() ==> #[trigger] call_requires(builder, (b,)),
        ensures
            final(self).null == old(self).null,
            final(self).skip == old(self).skip,
            final(self).root == old(self).root,
            exists|b0: ObjectBuilder, b: ObjectBuilder|
                {
                    &&& b0.is_fresh()
                    &&& #[trigger] call_ensures(builder, (b0,), b)
                    &&& final(self).elements() == old(self).elements().push(b.final_val())
                },
    {
        let bldr = ObjectBuilder::build(builder);
        let json = bldr.unwrap();
        self.push_json(json);
    }

    /// After `null`, this builder finalizes to `Null` (under the root key,
    /// when one is set).
    pub fn null(&mut self)
        ensures
            *final(self) == (ArrayBuilder { null: true, ..*old(self) }),
    {
        self.null = true;
    }

    /// Marks this builder to be skipped by a containing bulk-fill
    /// operation; finalization of this builder itself is unaffected.
    pub fn skip(&mut self)
        ensures
            *final(self) == (ArrayBuilder { skip: true, ..*old(self) }),
    {
        self.skip = true;
    }

    /// Sets the root key under which finalization wraps the result.
    pub fn root(&mut self, root: &str)
        ensures
            final(self).array == old(self).array,
            final(self).null == old(self).null,
            final(self).skip == old(self).skip,
            final(self).root matches Some(r) && r@ == root@,
    {
        self.root = Some(root.to_owned());
    }

    /// Whether a root key is set.
    pub fn has_root(&mut self) -> (r: bool)
        ensures
            *final(self) == *old(self),
            r == (old(self).root is Some),
    {
        self.root.is_some()
    }

    /// Moves the accumulated value out: `null` resolution first, then root
    /// wrapping.  A root-wrapped result is always a single-key object.
    pub fn unwrap(self) -> (r: Json)
        ensures
            r@ == self.final_val(),
            match self.root {
                Some(rt) => r matches Json::Object(v) && v@.len() == 1 && v@[0].0@ == rt@
                    && v@[0].1@ == self.inner_val(),
                None => if self.null {
                    r == Json::Null
                } else {
                    r matches Json::Array(v) && v == self.array
                },
            },
    {
        if self.root.is_some() {
            let mut obj: Vec<(String, Json)> = Vec::new();
            let root: String = self.root.as_ref().unwrap().clone();
            let self_json = self.unwrap_internal();
            obj.push((root, self_json));
            proof {
                assert(crate::json::obj_view(Seq::<(String, Json)>::empty()) =~= Map::<
                    Seq<char>,
                    JsonVal,
                >::empty());
                assert(obj@.drop_last() =~= Seq::<(String, Json)>::empty());
            }
            Json::Object(obj)
        } else {
            self.unwrap_internal()
        }
    }

    /// The `null` resolution alone: `Null` when the flag is set, else the
    /// accumulated array.
    fn unwrap_internal(self) -> (r: Json)
        ensures
            r@ == self.inner_val(),
            if self.null {
                r == Json::Null
            } else {
                r matches Json::Array(v) && v == self.array
            },
    {
        if self.null {
            Json::Null
        } else {
            Json::Array(self.array)
        }
    }

    /// Fills this array with objects built from the items, one callback
    /// run per item on a fresh builder.  A builder whose `skip` flag is set
    /// after its run is left out; the rest are finalized and appended in
    /// the order of the items.
    pub fn objects<A, F: Fn(&A, ObjectBuilder) -> ObjectBuilder>(
        &mut self,
        items: &Vec<A>,
        func: F,
    )
        requires
            forall|i: int, b: ObjectBuilder|
                0 <= i < items@.len() && b.is_fresh() && b.inv() ==> #[trigger] call_requires(
                    func,
                    (&items@[i], b),
                ),
        ensures
            final(self).null == old(self).null,
            final(self).skip == old(self).skip,
            final(self).root == old(self).root,
            exists|outs: Seq<ObjectBuilder>|
                {
                    &&& outs.len() == items@.len()
                    &&& forall|i: int|
                        0 <= i < outs.len() ==> #[trigger] object_fill_output(
                            func,
                            items@[i],
                            outs[i],
                        )
                    &&& final(self).elements() == old(self).elements() + kept_object_results(outs)
                },
    {
        let ghost mut outs: Seq<ObjectBuilder> = Seq::empty();
        let mut idx: usize = 0;
        while idx < items.len()
            invariant
                forall|i: int, b: ObjectBuilder|
                    0 <= i < items@.len() && b.is_fresh() && b.inv() ==> #[trigger] call_requires(
                        func,
                        (&items@[i], b),
                    ),
                0 <= idx <= items@.len(),
                outs.len() == idx,
                forall|i: int|
                    0 <= i < outs.len() ==> #[trigger] object_fill_output(
                        func,
                        items@[i],
                        outs[i],
                    ),
                self.elements() == old(self).elements() + kept_object_results(outs),
                self.null == old(self).null,
                self.skip == old(self).skip,
                self.root == old(self).root,
            decreases items@.len() - idx,
        {
            let bldr = ObjectBuilder::new();
            let ghost fresh = bldr;
            let out = func(&items[idx], bldr);
            let ghost prev = outs;
            proof {
                outs = outs.push(out);
                assert(outs.drop_last() =~= prev);
                assert(outs.last() == out);
                assert forall|i: int|
                    0 <= i < outs.len() implies #[trigger] object_fill_output(
                    func,
                    items@[i],
                    outs[i],
                ) by {
                    if i < prev.len() {
                        assert(outs[i] == prev[i]);
                        assert(object_fill_output(func, items@[i], prev[i]));
                    } else {
                        assert(outs[i] == out);
                        assert(fresh.is_fresh() && fresh.inv() && call_ensures(
                            func,
                            (&items@[i], fresh),
                            outs[i],
                        ));
                    }
                }
            }
            if !out.skip {
                let json = out.unwrap();
                self.push_json(json);
                proof {
                    assert(kept_object_results(outs) == kept_object_results(prev).push(
                        out.final_val(),
                    ));
                    assert(old(self).elements() + kept_object_results(outs) =~= (old(
                        self,
                    ).elements() + kept_object_results(prev)).push(out.final_val()));
                }
            } else {
                proof {
                    assert(kept_object_results(outs) == kept_object_results(prev));
                }
            }
            idx = idx + 1;
        }
    }

    /// Fills this array with arrays built from the items; same skip
    /// semantics as `objects`.
    pub fn arrays<A, F: Fn(&A, ArrayBuilder) -> ArrayBuilder>(&mut self, items: &Vec<A>, func: F)
        requires
            forall|i: int, b: ArrayBuilder|
                0 <= i < items@.len() && b.is_fresh() ==> #[trigger] call_requires(
                    func,
                    (&items@[i], b),
                ),
        ensures
            final(self).null == old(self).null,
            final(self).skip == old(self).skip,
            final(self).root == old(self).root,
            exists|outs: Seq<ArrayBuilder>|
                {
                    &&& outs.len() == items@.len()
                    &&& forall|i: int|
                        0 <= i < outs.len() ==> #[trigger] array_fill_output(
                            func,
                            items@[i],
                            outs[i],
                        )
                    &&& final(self).elements() == old(self).elements() + kept_array_results(outs)
                },
    {
        let ghost mut outs: Seq<ArrayBuilder> = Seq::empty();
        let mut idx: usize = 0;
        while idx < items.len()
            invariant
                forall|i: int, b: ArrayBuilder|
                    0 <= i < items@.len() && b.is_fresh() ==> #[trigger] call_requires(
                        func,
                        (&items@[i], b),
                    ),
                0 <= idx <= items@.len(),
                outs.len() == idx,
                forall|i: int|
                    0 <= i < outs.len() ==> #[trigger] array_fill_output(
                        func,
                        items@[i],
                        outs[i],
                    ),
                self.elements() == old(self).elements() + kept_array_results(outs),
                self.null == old(self).null,
                self.skip == old(self).skip,
                self.root == old(self).root,
            decreases items@.len() - idx,
        {
            let bldr = ArrayBuilder::new();
            let ghost fresh = bldr;
            let out = func(&items[idx], bldr);
            let ghost prev = outs;
            proof {
                outs = outs.push(out);
                assert(outs.drop_last() =~= prev);
                assert(outs.last() == out);
                assert forall|i: int|
                    0 <= i < outs.len() implies #[trigger] array_fill_output(
                    func,
                    items@[i],
                    outs[i],
                ) by {
                    if i < prev.len() {
                        assert(outs[i] == prev[i]);
                        assert(array_fill_output(func, items@[i], prev[i]));
                    } else {
                        assert(outs[i] == out);
                        assert(fresh.is_fresh() && call_ensures(func, (&items@[i], fresh), outs[i]));
                    }
                }
            }
            if !out.skip {
                let json = out.unwrap();
                self.push_json(json);
                proof {
                    assert(kept_array_results(outs) == kept_array_results(prev).push(
                        out.final_val(),
                    ));
                    assert(old(self).elements() + kept_array_results(outs) =~= (old(
                        self,
                    ).elements() + kept_array_results(prev)).push(out.final_val()));
                }
            } else {
                proof {
                    assert(kept_array_results(outs) == kept_array_results(prev));
                }
            }
            idx = idx + 1;
        }
    }

    /// Fills this array with one value per item, no skip semantics: the
    /// output holds exactly one element for each input item, in order.
    pub fn map<A, F: Fn(&A) -> Json>(&mut self, items: &Vec<A>, func: F)
        requires
            forall|i: int|
                0 <= i < items@.len() ==> #[trigger] call_requires(func, (&items@[i],)),
        ensures
            final(self).null == old(self).null,
            final(self).skip == old(self).skip,
            final(self).root == old(self).root,
            final(self).array@.len() == old(self).array@.len() + items@.len(),
            forall|i: int|
                0 <= i < old(self).array@.len() ==> final(self).array@[i] == old(self).array@[i],
            forall|i: int|
                0 <= i < items@.len() ==> #[trigger] call_ensures(
                    func,
                    (&items@[i],),
                    final(self).array@[old(self).array@.len() + i],
                ),
    {
        let mut idx: usize = 0;
        while idx < items.len()
            invariant
                forall|i: int|
                    0 <= i < items@.len() ==> #[trigger] call_requires(func, (&items@[i],)),
                0 <= idx <= items@.len(),
                self.array@.len() == old(self).array@.len() + idx,
                forall|i: int|
                    0 <= i < old(self).array@.len() ==> self.array@[i] == old(self).array@[i],
                forall|i: int|
                    0 <= i < idx ==> #[trigger] call_ensures(
                        func,
                        (&items@[i],),
                        self.array@[old(self).array@.len() + i],
                    ),
                self.null == old(self).null,
                self.skip == old(self).skip,
                self.root == old(self).root,
            decreases items@.len() - idx,
        {
            let json = func(&items[idx]);
            self.push_json(json);
            idx = idx + 1;
        }
    }
}

/// Null precedence: a builder whose `null` flag is set finalizes to
/// `Null`, whatever elements it holds — except that a root key, when set,
/// still wraps that `Null` one level deep.
pub proof fn lemma_array_null_precedence(b: ArrayBuilder)
    requires
        b.null,
    ensures
        match b.root {
            Some(rt) => b.final_val() == JsonVal::Obj(Map::empty().insert(rt@, JsonVal::Null)),
            None => b.final_val() == JsonVal::Null,
        },
{
}

/// Root wrapping: a builder with a root key set always finalizes to a
/// single-key object whose sole key is the root key, whether its content
/// is null, empty or populated.
pub proof fn lemma_array_root_single_key(b: ArrayBuilder)
    requires
        b.root is Some,
    ensures
        match b.root {
            Some(rt) => b.final_val() matches JsonVal::Obj(m) && m.dom() == set![rt@]
                && m[rt@] == b.inner_val(),
            None => false,
        },
{
    match b.root {
        Some(rt) => {
            assert(Map::empty().insert(rt@, b.inner_val()).dom() =~= set![rt@]);
        },
        None => {},
    }
}

/// Skip filtering: a bulk fill of objects appends exactly the finalized
/// values of the builders whose `skip` flag is unset, in their original
/// order; with `k` builders skipped out of `n`, `n - k` values remain.
pub proof fn lemma_kept_object_results_filter(outs: Seq<ObjectBuilder>)
    ensures
        kept_object_results(outs) == outs.filter(|b: ObjectBuilder| !b.skip).map_values(
            |b: ObjectBuilder| b.final_val(),
        ),
        kept_object_results(outs).len() + outs.filter(|b: ObjectBuilder| b.skip).len()
            == outs.len(),
    decreases outs,
{
    reveal(Seq::filter);
    let keep = |b: ObjectBuilder| !b.skip;
    let fin = |b: ObjectBuilder| b.final_val();
    if outs.len() == 0 {
        assert(outs.filter(keep).map_values(fin) =~= kept_object_results(outs));
    } else {
        let rest = outs.drop_last();
        lemma_kept_object_results_filter(rest);
        if keep(outs.last()) {
            assert(rest.filter(keep).push(outs.last()).map_values(fin) =~= rest.filter(
                keep,
            ).map_values(fin).push(fin(outs.last())));
        }
    }
}

/// Skip filtering for a bulk fill of arrays: the same statement as
/// `lemma_kept_object_results_filter`.
pub proof fn lemma_kept_array_results_filter(outs: Seq<ArrayBuilder>)
    ensures
        kept_array_results(outs) == outs.filter(|b: ArrayBuilder| !b.skip).map_values(
            |b: ArrayBuilder| b.final_val(),
        ),
        kept_array_results(outs).len() + outs.filter(|b: ArrayBuilder| b.skip).len()
            == outs.len(),
    decreases outs,
{
    reveal(Seq::filter);
    let keep = |b: ArrayBuilder| !b.skip;
    let fin = |b: ArrayBuilder| b.final_val();
    if outs.len() == 0 {
        assert(outs.filter(keep).map_values(fin) =~= kept_array_results(outs));
    } else {
        let rest = outs.drop_last();
        lemma_kept_array_results_filter(rest);
        if keep(outs.last()) {
            assert(rest.filter(keep).push(outs.last()).map_values(fin) =~= rest.filter(
                keep,
            ).map_values(fin).push(fin(outs.last())));
        }
    }
}

impl crate::json::ToJson for ArrayBuilder {
    /// A builder converts to a copy of its current content with the
    /// `null` flag resolved; the root key plays no part here.
    open spec fn to_json_val(&self) -> JsonVal {
        self.inner_val()
    }

    fn to_json(&self) -> (r: Json) {
        if self.null {
            Json::Null
        } else {
            Json::Array(crate::json::duplicate_elements(&self.array))
        }
    }
}

} // verus!
