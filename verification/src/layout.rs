//! The shape of the slot that a cache keeps for each variant.

use vstd::prelude::*;
use crate::partition::{lemma_pick_all, lemma_pick_len, pick};
use crate::schema::{
    curried_count,
    curried_flags,
    view_each,
    FieldView,
    Schema,
    SchemaError,
    TypeDesc,
    TypeDescView,
    VariantSchema,
    VariantView,
};

verus! {

/// The shape of the slot of one variant.
#[derive(Debug, PartialEq, Eq)]
pub enum SlotShape {
    /// At most one handler, which takes `input`.
    Single { input: Vec<TypeDesc> },
    /// One handler for each key of the types `key`; each takes `input`.
    Keyed { key: Vec<TypeDesc>, input: Vec<TypeDesc> },
}

/// A [`SlotShape`] in contracts.
pub enum SlotShapeView {
    Single { input: Seq<TypeDescView> },
    Keyed { key: Seq<TypeDescView>, input: Seq<TypeDescView> },
}

impl View for SlotShape {
    type V = SlotShapeView;

    open spec fn view(&self) -> SlotShapeView {
        match self {
            SlotShape::Single { input } => SlotShapeView::Single { input: view_each(input@) },
            SlotShape::Keyed { key, input } => SlotShapeView::Keyed {
                key: view_each(key@),
                input: view_each(input@),
            },
        }
    }
}

/// The types of the fields, in order.
pub open spec fn field_types(fields: Seq<FieldView>) -> Seq<TypeDescView> {
    Seq::new(fields.len(), |i: int| fields[i].ty)
}

/// Whether a curried field has a type whose values cannot be part of a key.
pub open spec fn has_unusable_key(fields: Seq<FieldView>) -> bool {
    exists|i: int| 0 <= i < fields.len() && (#[trigger] fields[i]).curried && !fields[i].ty.keyable
}

/// The shape of the slot of a variant with these fields.
///
/// Without a curried field the slot is single and its handler takes all the
/// fields. With one or more the slot is keyed by the curried fields, and its
/// handlers take the others; the order of the fields is kept in both.
pub open spec fn shape_of(fields: Seq<FieldView>) -> Result<SlotShapeView, SchemaError> {
    if has_unusable_key(fields) {
        Err(SchemaError::UnhashableCurryKey)
    } else if curried_count(fields) == 0 {
        Ok(SlotShapeView::Single { input: field_types(fields) })
    } else {
        Ok(
            SlotShapeView::Keyed {
                key: pick(curried_flags(fields), field_types(fields), true),
                input: pick(curried_flags(fields), field_types(fields), false),
            },
        )
    }
}

/// The shape of the slot of a variant.
pub fn slot_shape(variant: &VariantSchema) -> (r: Result<SlotShape, SchemaError>)
    ensures
        match shape_of(variant@.fields) {
            Ok(shape) => r is Ok && r->Ok_0@ == shape,
            Err(e) => r is Err && r->Err_0 == e,
        },
{
    let ghost fields = variant@.fields;
    let ghost flags = curried_flags(fields);
    let ghost types = field_types(fields);
    let n = variant.fields.len();
    let mut key: Vec<TypeDesc> = Vec::new();
    let mut input: Vec<TypeDesc> = Vec::new();
    let mut i: usize = 0;
    while i < n
        invariant
            i <= n,
            n == variant.fields.len(),
            fields == variant@.fields,
            flags == curried_flags(fields),
            types == field_types(fields),
            forall|j: int|
                0 <= j < i ==> !((#[trigger] fields[j]).curried && !fields[j].ty.keyable),
            view_each(key@) == pick(flags.take(i as int), types.take(i as int), true),
            view_each(input@) == pick(flags.take(i as int), types.take(i as int), false),
        decreases n - i,
    {
        let field = &variant.fields[i];
        if field.curried && !field.ty.keyable {
            return Err(SchemaError::UnhashableCurryKey);
        }
        proof {
            assert(flags.take(i + 1).drop_last() =~= flags.take(i as int));
            assert(types.take(i + 1).drop_last() =~= types.take(i as int));
        }
        if field.curried {
            key.push(field.ty.clone());
        } else {
            input.push(field.ty.clone());
        }
        i += 1;
    }
    proof {
        assert(flags.take(n as int) =~= flags);
        assert(types.take(n as int) =~= types);
        lemma_pick_len(flags, types);
        if key@.len() == 0 {
            lemma_pick_all(flags, types);
        }
    }
    if key.len() == 0 {
        Ok(SlotShape::Single { input })
    } else {
        Ok(SlotShape::Keyed { key, input })
    }
}

/// The shapes of the slots of the variants, in order; none if the slot of
/// one of them has no shape.
pub open spec fn layout_of(variants: Seq<VariantView>) -> Result<
    Seq<SlotShapeView>,
    SchemaError,
> {
    if exists|i: int| 0 <= i < variants.len() && has_unusable_key((#[trigger] variants[i]).fields) {
        Err(SchemaError::UnhashableCurryKey)
    } else {
        Ok(Seq::new(variants.len(), |i: int| shape_of(variants[i].fields)->Ok_0))
    }
}

/// The shapes of the slots that a cache keeps for a message type, one for
/// each variant.
pub fn cache_layout(schema: &Schema) -> (r: Result<Vec<SlotShape>, SchemaError>)
    ensures
        match layout_of(schema@.variants) {
            Ok(shapes) => r is Ok && view_each(r->Ok_0@) == shapes,
            Err(e) => r is Err && r->Err_0 == e,
        },
{
    let ghost variants = schema@.variants;
    let mut shapes: Vec<SlotShape> = Vec::new();
    let mut i: usize = 0;
    while i < schema.variants.len()
        invariant
            i <= schema.variants.len(),
            variants == schema@.variants,
            shapes@.len() == i,
            forall|j: int| 0 <= j < i ==> !has_unusable_key((#[trigger] variants[j]).fields),
            forall|j: int|
                0 <= j < i ==> (#[trigger] shapes@[j])@ == shape_of(variants[j].fields)->Ok_0,
        decreases schema.variants.len() - i,
    {
        match slot_shape(&schema.variants[i]) {
            Ok(shape) => {
                shapes.push(shape);
            },
            Err(e) => {
                assert(has_unusable_key(variants[i as int].fields));
                return Err(e);
            },
        }
        i += 1;
    }
    Ok(shapes)
}

} // verus!
