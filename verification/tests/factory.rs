use std::rc::Rc;
use yew_callbacks::factory::{
    bindings, field_ident, field_idents, generate, plan_accessor, AccessorKind, AccessorPlan,
    Parameter,
};
use yew_callbacks::layout::SlotShape;
use yew_callbacks::schema::{FieldLayout, FieldSchema, Schema, SchemaError, TypeDesc, VariantSchema};

fn ty(name: &str) -> TypeDesc {
    TypeDesc::new(name, true)
}

fn event(name: &str) -> TypeDesc {
    TypeDesc::new(name, false)
}

fn param(ident: &str, ty: TypeDesc) -> Parameter {
    Parameter { ident: ident.to_string(), ty }
}

fn on_key_press() -> VariantSchema {
    VariantSchema {
        name: "OnKeyPress".to_string(),
        layout: FieldLayout::Positional,
        fields: vec![
            FieldSchema::positional(ty("usize"), true),
            FieldSchema::positional(event("KeyboardEvent"), false),
            FieldSchema::positional(event("InputEvent"), false),
            FieldSchema::positional(ty("String"), true),
        ],
    }
}

fn on_stuff() -> VariantSchema {
    VariantSchema {
        name: "OnStuff".to_string(),
        layout: FieldLayout::Named,
        fields: vec![
            FieldSchema::named("index", ty("usize"), true),
            FieldSchema::named("kb_event", event("KeyboardEvent"), false),
            FieldSchema::named("input_event", event("InputEvent"), false),
            FieldSchema::named("key", ty("String"), true),
        ],
    }
}

fn on_input() -> VariantSchema {
    VariantSchema {
        name: "OnInput".to_string(),
        layout: FieldLayout::Positional,
        fields: vec![
            FieldSchema::positional(event("InputEvent"), false),
            FieldSchema::positional(event("KeyboardEvent"), false),
        ],
    }
}

fn msg() -> Schema {
    Schema {
        name: "Msg".to_string(),
        variants: vec![VariantSchema::unit("OnClick"), on_input(), on_key_press(), on_stuff()],
    }
}

#[test]
fn positional_fields_are_bound_by_their_position() {
    assert_eq!(field_idents(&on_key_press()), vec!["arg_0", "arg_1", "arg_2", "arg_3"]);
    assert_eq!(field_ident(&on_key_press(), 2), "arg_2");
}

#[test]
fn named_fields_are_bound_by_their_name() {
    assert_eq!(field_idents(&on_stuff()), vec!["index", "kb_event", "input_event", "key"]);
    assert_eq!(field_ident(&on_stuff(), 3), "key");
}

#[test]
fn a_variant_without_fields_binds_nothing() {
    assert!(field_idents(&VariantSchema::unit("OnClick")).is_empty());
}

#[test]
fn the_curried_fields_are_the_parameters() {
    assert_eq!(
        bindings(&on_key_press(), true),
        vec![param("arg_0", ty("usize")), param("arg_3", ty("String"))]
    );
    assert_eq!(
        bindings(&on_stuff(), true),
        vec![param("index", ty("usize")), param("key", ty("String"))]
    );
}

#[test]
fn the_other_fields_are_the_inputs() {
    assert_eq!(
        bindings(&on_key_press(), false),
        vec![param("arg_1", event("KeyboardEvent")), param("arg_2", event("InputEvent"))]
    );
    assert_eq!(
        bindings(&on_stuff(), false),
        vec![param("kb_event", event("KeyboardEvent")), param("input_event", event("InputEvent"))]
    );
}

#[test]
fn an_accessor_is_planned_from_the_name_and_the_shape_it_is_given() {
    let shape = || SlotShape::Keyed {
        key: vec![ty("usize"), ty("String")],
        input: vec![event("KeyboardEvent"), event("InputEvent")],
    };
    let plan = plan_accessor(&on_key_press(), "press".to_string(), shape());
    assert_eq!(
        plan,
        AccessorPlan {
            variant: Rc::new(on_key_press()),
            accessor: "press".to_string(),
            slot: "callback_press".to_string(),
            shape: shape(),
            idents: vec![
                "arg_0".to_string(),
                "arg_1".to_string(),
                "arg_2".to_string(),
                "arg_3".to_string()
            ],
            params: vec![param("arg_0", ty("usize")), param("arg_3", ty("String"))],
            inputs: vec![
                param("arg_1", event("KeyboardEvent")),
                param("arg_2", event("InputEvent"))
            ],
        }
    );
}

#[test]
fn the_plan_is_named_after_the_message_type() {
    let plan = generate(&msg()).unwrap();
    assert_eq!(plan.name, "MsgCallbacks");
    assert_eq!(plan.message, "Msg");
}

#[test]
fn the_plan_has_one_accessor_for_each_variant_in_order() {
    let plan = generate(&msg()).unwrap();
    let names: Vec<&str> = plan.accessors.iter().map(|a| a.accessor.as_str()).collect();
    assert_eq!(names, vec!["on_click", "on_input", "on_key_press", "on_stuff"]);
    let slots: Vec<&str> = plan.accessors.iter().map(|a| a.slot.as_str()).collect();
    assert_eq!(
        slots,
        vec!["callback_on_click", "callback_on_input", "callback_on_key_press", "callback_on_stuff"]
    );
    let variants: Vec<&str> = plan.accessors.iter().map(|a| a.variant.name.as_str()).collect();
    assert_eq!(variants, vec!["OnClick", "OnInput", "OnKeyPress", "OnStuff"]);
}

#[test]
fn each_accessor_has_the_slot_of_its_variant() {
    let plan = generate(&msg()).unwrap();
    assert_eq!(plan.accessors[0].shape, SlotShape::Single { input: vec![] });
    assert_eq!(
        plan.accessors[1].shape,
        SlotShape::Single { input: vec![event("InputEvent"), event("KeyboardEvent")] }
    );
    assert_eq!(
        plan.accessors[2].shape,
        SlotShape::Keyed {
            key: vec![ty("usize"), ty("String")],
            input: vec![event("KeyboardEvent"), event("InputEvent")],
        }
    );
}

#[test]
fn a_planned_accessor_takes_the_curried_fields() {
    let plan = generate(&msg()).unwrap();
    assert!(plan.accessors[0].params.is_empty());
    assert!(plan.accessors[0].inputs.is_empty());
    assert!(plan.accessors[1].params.is_empty());
    assert_eq!(
        plan.accessors[1].inputs,
        vec![param("arg_0", event("InputEvent")), param("arg_1", event("KeyboardEvent"))]
    );
    assert_eq!(
        plan.accessors[3].params,
        vec![param("index", ty("usize")), param("key", ty("String"))]
    );
    assert_eq!(
        plan.accessors[3].inputs,
        vec![param("kb_event", event("KeyboardEvent")), param("input_event", event("InputEvent"))]
    );
}

#[test]
fn the_kind_of_an_accessor_follows_the_fields() {
    let plan = generate(&msg()).unwrap();
    assert_eq!(plan.accessors[0].kind(), AccessorKind::Bare);
    assert_eq!(plan.accessors[1].kind(), AccessorKind::Plain);
    assert_eq!(plan.accessors[2].kind(), AccessorKind::Curried);
    assert_eq!(plan.accessors[3].kind(), AccessorKind::Curried);
}

#[test]
fn a_positional_variant_without_fields_is_bare() {
    let schema = Schema {
        name: "Msg".to_string(),
        variants: vec![VariantSchema {
            name: "Tick".to_string(),
            layout: FieldLayout::Positional,
            fields: vec![],
        }],
    };
    let plan = generate(&schema).unwrap();
    assert_eq!(plan.accessors[0].kind(), AccessorKind::Bare);
    assert_eq!(plan.accessors[0].variant.layout, FieldLayout::Positional);
}

#[test]
fn a_message_type_without_variants_has_an_empty_plan() {
    let plan = generate(&Schema { name: "Never".to_string(), variants: vec![] }).unwrap();
    assert_eq!(plan.name, "NeverCallbacks");
    assert!(plan.accessors.is_empty());
}

#[test]
fn there_is_no_plan_with_a_curried_field_that_cannot_be_a_key() {
    let schema = Schema {
        name: "Msg".to_string(),
        variants: vec![
            VariantSchema::unit("OnClick"),
            VariantSchema {
                name: "OnKey".to_string(),
                layout: FieldLayout::Positional,
                fields: vec![FieldSchema::positional(event("KeyboardEvent"), true)],
            },
        ],
    };
    assert_eq!(generate(&schema), Err(SchemaError::UnhashableCurryKey));
}
