//! A fluent builder library for constructing tree-shaped JSON values.
//!
//! The two builder types, [`ObjectBuilder`] and [`ArrayBuilder`], accumulate
//! string-keyed mappings and ordered sequences of [`Json`] values.  Each
//! builder carries three finalization controls: a `null` flag (the content is
//! discarded and `Null` is produced), a `skip` flag (advisory, read by a
//! containing bulk-fill operation to elide this builder's output), and an
//! optional `root` key (the content is wrapped one level deeper under that
//! key).  Serializer traits compose a build callback with an optional root
//! key and an optional sibling "meta" block.  [`ListBuilder`] and
//! [`ListSerializer`] are older names of the array accumulator and its
//! serializer, kept with the same behaviour.

use vstd::prelude::*;

pub mod array_builder;
pub mod array_serializer;
pub mod json;
pub mod list_builder;
pub mod list_serializer;
pub mod mutable_json;
pub mod object_builder;
pub mod serializer;

pub use array_builder::ArrayBuilder;
pub use array_serializer::ArraySerializer;
pub use json::{Json, JsonVal, ToJson};
pub use list_builder::ListBuilder;
pub use list_serializer::ListSerializer;
pub use mutable_json::MutableJson;
pub use object_builder::ObjectBuilder;
pub use serializer::{ObjectScopeSerializer, ObjectSerializer, Serializer};

verus! {

/// Creates a fresh `ArrayBuilder`, hands it to the callback and returns
/// the callback's result, ready to be finalized.
pub fn array<F: FnOnce(ArrayBuilder) -> ArrayBuilder>(builder: F) -> (r: ArrayBuilder)
    requires
        forall|b: ArrayBuilder| b.is_fresh() ==> #[trigger] call_requires(builder, (b,)),
    ensures
        exists|b: ArrayBuilder| b.is_fresh() && #[trigger] call_ensures(builder, (b,), r),
{
    ArrayBuilder::build(builder)
}

/// Creates a fresh `ObjectBuilder`, hands it to the callback and returns
/// the callback's result, ready to be finalized.
pub fn object<F: FnOnce(ObjectBuilder) -> ObjectBuilder>(builder: F) -> (r: ObjectBuilder)
    requires
        forall|b: ObjectBuilder| b.is_fresh() ==> #[trigger] call_requires(builder, (b,)),
    ensures
        exists|b: ObjectBuilder| b.is_fresh() && #[trigger] call_ensures(builder, (b,), r),
{
    ObjectBuilder::build(builder)
}

} // verus!
