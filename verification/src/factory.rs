//! The plan of a cache: for each variant the accessor that hands out its
//! handlers, with the names and the parameters that the accessor has.

use std::rc::Rc;
use vstd::prelude::*;
use crate::layout::{
    field_types,
    has_unusable_key,
    layout_of,
    shape_of,
    slot_shape,
    SlotShape,
    SlotShapeView,
};
use crate::partition::{lemma_pick_all, lemma_pick_len, pick};
use crate::names::{
    accessor_name,
    cache_name,
    cache_name_of,
    positional_ident,
    positional_ident_of,
    slot_name,
    slot_name_of,
    snake_case_of,
};
use crate::schema::{
    curried_count,
    curried_flags,
    view_each,
    FieldView,
    Schema,
    SchemaError,
    SchemaView,
    TypeDesc,
    TypeDescView,
    VariantSchema,
    VariantView,
};

verus! {

/// What an accessor does, by the fields of its variant.
#[derive(Clone, Copy, Debug, PartialEq, Eq, Structural)]
pub enum AccessorKind {
    /// The variant has no fields: the accessor takes nothing, and its one
    /// handler emits the bare variant.
    Bare,
    /// The variant has fields and none is curried: the accessor takes
    /// nothing, and its one handler takes all the fields.
    Plain,
    /// The variant has curried fields: the accessor takes them, and keeps
    /// one handler for each key.
    Curried,
}

/// A parameter of an accessor, or an input of a handler.
#[derive(Debug, PartialEq, Eq)]
pub struct Parameter {
    pub ident: String,
    pub ty: TypeDesc,
}

/// A [`Parameter`] in contracts.
pub struct ParameterView {
    pub ident: Seq<char>,
    pub ty: TypeDescView,
}

impl View for Parameter {
    type V = ParameterView;

    open spec fn view(&self) -> ParameterView {
        ParameterView { ident: self.ident@, ty: self.ty@ }
    }
}

/// The accessor of one variant.
#[derive(Debug, PartialEq, Eq)]
pub struct AccessorPlan {
    /// The variant as it is declared.
    pub variant: Rc<VariantSchema>,
    /// The accessor's name.
    pub accessor: String,
    /// The name of the slot that holds the accessor's handlers.
    pub slot: String,
    /// The shape of that slot.
    pub shape: SlotShape,
    /// The identifier of each field, in the order of the fields.
    pub idents: Vec<String>,
    /// The parameters of the accessor: the curried fields, in order.
    pub params: Vec<Parameter>,
    /// The inputs of a handler: the fields that are not curried, in order.
    pub inputs: Vec<Parameter>,
}

/// An [`AccessorPlan`] in contracts.
pub struct AccessorPlanView {
    pub variant: VariantView,
    pub accessor: Seq<char>,
    pub slot: Seq<char>,
    pub shape: SlotShapeView,
    pub idents: Seq<Seq<char>>,
    pub params: Seq<ParameterView>,
    pub inputs: Seq<ParameterView>,
}

impl View for AccessorPlan {
    type V = AccessorPlanView;

    open spec fn view(&self) -> AccessorPlanView {
        AccessorPlanView {
            variant: self.variant@,
            accessor: self.accessor@,
            slot: self.slot@,
            shape: self.shape@,
            idents: view_each(self.idents@),
            params: view_each(self.params@),
            inputs: view_each(self.inputs@),
        }
    }
}

/// The identifier of the field at a position: its name, or for a field
/// without one `arg_` and the position.
pub open spec fn ident_of(field: FieldView, position: int) -> Seq<char> {
    match field.name {
        Some(name) => name,
        None => positional_ident_of(position as nat),
    }
}

/// The identifiers of the fields, in order.
pub open spec fn idents_of(fields: Seq<FieldView>) -> Seq<Seq<char>> {
    Seq::new(fields.len(), |i: int| ident_of(fields[i], i))
}

/// Each field's identifier with its type, in the order of the fields.
pub open spec fn bindings_of(fields: Seq<FieldView>) -> Seq<ParameterView> {
    Seq::new(
        fields.len(),
        |i: int| ParameterView { ident: ident_of(fields[i], i), ty: fields[i].ty },
    )
}

/// The accessor of a variant whose name in snake case is `accessor` and
/// whose slot has the shape `shape`: its parameters are the curried fields,
/// and its handlers take the others.
pub open spec fn accessor_for(
    variant: VariantView,
    accessor: Seq<char>,
    shape: SlotShapeView,
) -> AccessorPlanView {
    AccessorPlanView {
        variant,
        accessor,
        slot: slot_name_of(accessor),
        shape,
        idents: idents_of(variant.fields),
        params: pick(curried_flags(variant.fields), bindings_of(variant.fields), true),
        inputs: pick(curried_flags(variant.fields), bindings_of(variant.fields), false),
    }
}

impl AccessorPlanView {
    /// The slot has the shape that the fields ask for.
    pub open spec fn wf(self) -> bool {
        shape_of(self.variant.fields) == Ok::<SlotShapeView, SchemaError>(self.shape)
    }

    /// What the accessor does.
    pub open spec fn kind(self) -> AccessorKind {
        if self.variant.fields.len() == 0 {
            AccessorKind::Bare
        } else if self.shape is Single {
            AccessorKind::Plain
        } else {
            AccessorKind::Curried
        }
    }
}

/// The types of parameters, in order.
pub open spec fn types_of(params: Seq<ParameterView>) -> Seq<TypeDescView> {
    Seq::new(params.len(), |i: int| params[i].ty)
}

/// The fields picked as bindings have the types picked from the fields.
pub proof fn lemma_bindings_have_field_types(fields: Seq<FieldView>, curried: bool)
    ensures
        types_of(pick(curried_flags(fields), bindings_of(fields), curried)) == pick(
            curried_flags(fields),
            field_types(fields),
            curried,
        ),
    decreases fields.len(),
{
    if fields.len() > 0 {
        let head = fields.drop_last();
        lemma_bindings_have_field_types(head, curried);
        assert(curried_flags(fields).drop_last() =~= curried_flags(head));
        assert(bindings_of(fields).drop_last() =~= bindings_of(head));
        assert(field_types(fields).drop_last() =~= field_types(head));
    }
}

/// The slot of an accessor agrees with what the accessor binds: its keys
/// have the types of the accessor's parameters, its handlers take the types
/// of the inputs, and it is single exactly when there is no parameter.
pub proof fn lemma_slot_agrees_with_bindings(variant: VariantView, accessor: Seq<char>)
    requires
        shape_of(variant.fields) is Ok,
    ensures
        ({
            let plan = accessor_for(variant, accessor, shape_of(variant.fields)->Ok_0);
            match plan.shape {
                SlotShapeView::Single { input } => plan.params.len() == 0 && input == types_of(
                    plan.inputs,
                ),
                SlotShapeView::Keyed { key, input } => plan.params.len() > 0 && key == types_of(
                    plan.params,
                ) && input == types_of(plan.inputs),
            }
        }),
{
    let flags = curried_flags(variant.fields);
    lemma_bindings_have_field_types(variant.fields, true);
    lemma_bindings_have_field_types(variant.fields, false);
    lemma_pick_len(flags, bindings_of(variant.fields));
    lemma_pick_len(flags, field_types(variant.fields));
    if curried_count(variant.fields) == 0 {
        lemma_pick_all(flags, field_types(variant.fields));
    }
}

impl AccessorPlan {
    /// What the accessor does.
    pub fn kind(&self) -> (r: AccessorKind)
        ensures
            r == self@.kind(),
    {
        if self.variant.fields.len() == 0 {
            AccessorKind::Bare
        } else {
            match &self.shape {
                SlotShape::Single { .. } => AccessorKind::Plain,
                SlotShape::Keyed { .. } => AccessorKind::Curried,
            }
        }
    }
}

/// The fields of a variant that are curried, or those that are not, each as
/// its identifier with its type.
pub fn bindings(variant: &VariantSchema, curried: bool) -> (r: Vec<Parameter>)
    ensures
        view_each(r@) == pick(
            curried_flags(variant@.fields),
            bindings_of(variant@.fields),
            curried,
        ),
{
    let ghost flags = curried_flags(variant@.fields);
    let ghost all = bindings_of(variant@.fields);
    let n = variant.fields.len();
    let mut r: Vec<Parameter> = Vec::new();
    let mut i: usize = 0;
    while i < n
        invariant
            i <= n,
            n == variant.fields.len(),
            flags == curried_flags(variant@.fields),
            all == bindings_of(variant@.fields),
            view_each(r@) == pick(flags.take(i as int), all.take(i as int), curried),
        decreases n - i,
    {
        let field = &variant.fields[i];
        proof {
            assert(flags.take(i + 1).drop_last() =~= flags.take(i as int));
            assert(all.take(i + 1).drop_last() =~= all.take(i as int));
        }
        if field.curried == curried {
            r.push(Parameter { ident: field_ident(variant, i), ty: field.ty.clone() });
        }
        i += 1;
    }
    proof {
        assert(flags.take(n as int) =~= flags);
        assert(all.take(n as int) =~= all);
    }
    r
}

/// The identifier of the field of a variant at a position.
pub fn field_ident(variant: &VariantSchema, position: usize) -> (r: String)
    requires
        position < variant@.fields.len(),
    ensures
        r@ == ident_of(variant@.fields[position as int], position as int),
{
    match &variant.fields[position].name {
        Some(name) => name.clone(),
        None => positional_ident(position),
    }
}

/// The identifiers of the fields of a variant, in order.
pub fn field_idents(variant: &VariantSchema) -> (r: Vec<String>)
    ensures
        view_each(r@) == idents_of(variant@.fields),
{
    let mut r: Vec<String> = Vec::new();
    let mut i: usize = 0;
    while i < variant.fields.len()
        invariant
            i <= variant.fields.len(),
            r@.len() == i,
            forall|j: int| 0 <= j < i ==> (#[trigger] r@[j])@ == ident_of(variant@.fields[j], j),
        decreases variant.fields.len() - i,
    {
        r.push(field_ident(variant, i));
        i += 1;
    }
    r
}

/// The accessor of a variant, from the variant's name in snake case and the
/// shape of its slot.
pub fn plan_accessor(variant: &VariantSchema, accessor: String, shape: SlotShape) -> (r:
    AccessorPlan)
    ensures
        r@ == accessor_for(variant@, accessor@, shape@),
{
    AccessorPlan {
        variant: Rc::new(variant.clone()),
        slot: slot_name(accessor.as_str()),
        accessor,
        shape,
        idents: field_idents(variant),
        params: bindings(variant, true),
        inputs: bindings(variant, false),
    }
}

/// The plan of the cache of a message type.
#[derive(Debug, PartialEq, Eq)]
pub struct CachePlan {
    /// The cache's name.
    pub name: String,
    /// The name of the message type.
    pub message: String,
    /// One accessor for each variant, in the order of the variants.
    pub accessors: Vec<AccessorPlan>,
}

/// A [`CachePlan`] in contracts.
pub struct CachePlanView {
    pub name: Seq<char>,
    pub message: Seq<char>,
    pub accessors: Seq<AccessorPlanView>,
}

impl View for CachePlan {
    type V = CachePlanView;

    open spec fn view(&self) -> CachePlanView {
        CachePlanView {
            name: self.name@,
            message: self.message@,
            accessors: view_each(self.accessors@),
        }
    }
}

impl CachePlanView {
    /// Every accessor of the plan is well formed.
    pub open spec fn wf(self) -> bool {
        forall|i: int| 0 <= i < self.accessors.len() ==> (#[trigger] self.accessors[i]).wf()
    }

    /// Whether the accessor at a position is the first that has a name.
    pub open spec fn first_named(self, accessor: Seq<char>, position: int) -> bool {
        &&& 0 <= position < self.accessors.len()
        &&& self.accessors[position].accessor == accessor
        &&& forall|earlier: int|
            0 <= earlier < position ==> (#[trigger] self.accessors[earlier]).accessor != accessor
    }
}

/// The plan of the cache of a message type: named after the type, with one
/// accessor for each variant, which is named by the variant's name in snake
/// case and has the slot that the layout gives the variant. There is no plan
/// where there is no layout.
pub open spec fn plan_of(schema: SchemaView) -> Result<CachePlanView, SchemaError> {
    match layout_of(schema.variants) {
        Err(e) => Err(e),
        Ok(shapes) => Ok(
            CachePlanView {
                name: cache_name_of(schema.name),
                message: schema.name,
                accessors: Seq::new(
                    schema.variants.len(),
                    |i: int|
                        accessor_for(
                            schema.variants[i],
                            snake_case_of(schema.variants[i].name),
                            shapes[i],
                        ),
                ),
            },
        ),
    }
}

/// Plans the cache of a message type.
pub fn generate(schema: &Schema) -> (r: Result<CachePlan, SchemaError>)
    ensures
        match plan_of(schema@) {
            Ok(plan) => r is Ok && r->Ok_0@ == plan && plan.wf(),
            Err(e) => r is Err && r->Err_0 == e,
        },
{
    let ghost variants = schema@.variants;
    let mut accessors: Vec<AccessorPlan> = Vec::new();
    let mut i: usize = 0;
    while i < schema.variants.len()
        invariant
            i <= schema.variants.len(),
            variants == schema@.variants,
            accessors@.len() == i,
            forall|j: int| 0 <= j < i ==> !has_unusable_key((#[trigger] variants[j]).fields),
            forall|j: int|
                0 <= j < i ==> (#[trigger] accessors@[j])@ == accessor_for(
                    variants[j],
                    snake_case_of(variants[j].name),
                    shape_of(variants[j].fields)->Ok_0,
                ),
        decreases schema.variants.len() - i,
    {
        let variant = &schema.variants[i];
        match slot_shape(variant) {
            Ok(shape) => {
                let accessor = accessor_name(variant.name.as_str());
                accessors.push(plan_accessor(variant, accessor, shape));
            },
            Err(e) => {
                assert(has_unusable_key(variants[i as int].fields));
                return Err(e);
            },
        }
        i += 1;
    }
    let plan = CachePlan {
        name: cache_name(schema.name.as_str()),
        message: schema.name.clone(),
        accessors,
    };
    assert(plan@.accessors =~= plan_of(schema@)->Ok_0.accessors);
    Ok(plan)
}

} // verus!
