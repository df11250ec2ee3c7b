use yew_callbacks::message::{
    fits_curried, fits_plain, reconstruct, same_values, MessageField, MessageValue, Value,
};
use yew_callbacks::schema::{count_curried, FieldLayout, FieldSchema, TypeDesc, VariantSchema};

fn ty(name: &str) -> TypeDesc {
    TypeDesc::new(name, true)
}

fn positional(name: &str, curried: &[bool]) -> VariantSchema {
    VariantSchema {
        name: name.to_string(),
        layout: FieldLayout::Positional,
        fields: curried.iter().map(|c| FieldSchema::positional(ty("T"), *c)).collect(),
    }
}

fn unnamed(values: Vec<Value>) -> Vec<MessageField> {
    values.into_iter().map(|value| MessageField { name: None, value }).collect()
}

fn ints(values: &[i64]) -> Vec<Value> {
    values.iter().map(|n| Value::Integer(*n)).collect()
}

#[test]
fn values_are_equal_by_kind_and_content() {
    assert_eq!(Value::Integer(3), Value::Integer(3));
    assert_ne!(Value::Integer(3), Value::Integer(4));
    assert_eq!(Value::text("foo"), Value::text("foo"));
    assert_ne!(Value::text("foo"), Value::text("fop"));
    assert_eq!(Value::Object(9), Value::Object(9));
    assert_ne!(Value::Object(9), Value::Object(8));
    assert_ne!(Value::Integer(9), Value::Object(9));
    assert_ne!(Value::text("9"), Value::Integer(9));
    assert_ne!(Value::Object(0), Value::text(""));
}

#[test]
fn a_copy_of_a_value_is_equal_to_it() {
    for v in [Value::Integer(-5), Value::text("héllo"), Value::Object(u64::MAX)] {
        assert_eq!(v.clone(), v);
    }
}

#[test]
fn tuples_are_equal_item_by_item() {
    assert!(same_values(&vec![], &vec![]));
    let key = |n: i64, s: &str| vec![Value::Integer(n), Value::text(s)];
    assert!(same_values(&key(0, "foo"), &key(0, "foo")));
    assert!(!same_values(&key(0, "foo"), &key(1, "foo")));
    assert!(!same_values(&key(0, "foo"), &key(0, "bar")));
    assert!(!same_values(&vec![Value::Integer(0)], &vec![Value::Integer(0), Value::Integer(0)]));
    assert!(!same_values(&vec![Value::Integer(0)], &vec![]));
}

#[test]
fn curried_fields_are_counted() {
    assert_eq!(count_curried(&VariantSchema::unit("Click")), 0);
    assert_eq!(count_curried(&positional("A", &[false, false])), 0);
    assert_eq!(count_curried(&positional("B", &[true, false, false, true])), 2);
    assert_eq!(count_curried(&positional("C", &[true, true, true])), 3);
}

#[test]
fn a_key_fits_when_it_has_a_value_for_each_curried_field() {
    let v = positional("KeyPress", &[true, false, false, true]);
    assert!(fits_curried(&v, &ints(&[0, 1])));
    assert!(!fits_curried(&v, &ints(&[0])));
    assert!(!fits_curried(&v, &ints(&[0, 1, 2])));
    assert!(fits_curried(&VariantSchema::unit("Click"), &vec![]));
    assert!(!fits_curried(&VariantSchema::unit("Click"), &ints(&[0])));
}

#[test]
fn arguments_fit_when_there_is_one_for_each_other_field() {
    let v = positional("KeyPress", &[true, false, false, true]);
    assert!(fits_plain(&v, &ints(&[0, 1])));
    assert!(!fits_plain(&v, &ints(&[0, 1, 2, 3])));
    assert!(!fits_plain(&v, &vec![]));
    let all = positional("Pick", &[true]);
    assert!(fits_plain(&all, &vec![]));
    assert!(!fits_plain(&all, &ints(&[0])));
}

#[test]
fn a_variant_without_fields_is_rebuilt_bare() {
    let m = reconstruct(&VariantSchema::unit("Click"), &vec![], &vec![]);
    assert_eq!(
        m,
        MessageValue { variant: "Click".to_string(), layout: FieldLayout::Unit, fields: vec![] }
    );
}

#[test]
fn curried_fields_at_both_ends_go_back_to_the_ends() {
    let v = positional("Variant", &[true, false, false, true]);
    let m = reconstruct(
        &v,
        &vec![Value::Integer(0), Value::text("foo")],
        &vec![Value::Object(1), Value::Object(2)],
    );
    assert_eq!(
        m,
        MessageValue {
            variant: "Variant".to_string(),
            layout: FieldLayout::Positional,
            fields: unnamed(vec![
                Value::Integer(0),
                Value::Object(1),
                Value::Object(2),
                Value::text("foo")
            ]),
        }
    );
}

#[test]
fn a_curried_field_in_the_middle_goes_back_to_the_middle() {
    let v = positional("Mid", &[false, true, false]);
    let m = reconstruct(&v, &ints(&[10]), &ints(&[1, 2]));
    assert_eq!(m.fields, unnamed(ints(&[1, 10, 2])));
}

#[test]
fn alternating_fields_are_rebuilt_in_order() {
    let v = positional("Alt", &[false, true, false, true, false]);
    let m = reconstruct(&v, &ints(&[10, 20]), &ints(&[1, 2, 3]));
    assert_eq!(m.fields, unnamed(ints(&[1, 10, 2, 20, 3])));
}

#[test]
fn fields_that_are_all_curried_come_from_the_key() {
    let v = positional("All", &[true, true]);
    let m = reconstruct(&v, &ints(&[10, 20]), &vec![]);
    assert_eq!(m.fields, unnamed(ints(&[10, 20])));
}

#[test]
fn fields_of_which_none_is_curried_come_from_the_arguments() {
    let v = positional("None", &[false, false, false]);
    let m = reconstruct(&v, &vec![], &ints(&[1, 2, 3]));
    assert_eq!(m.fields, unnamed(ints(&[1, 2, 3])));
}

#[test]
fn a_named_variant_is_rebuilt_with_its_names() {
    let v = VariantSchema {
        name: "Stuff".to_string(),
        layout: FieldLayout::Named,
        fields: vec![
            FieldSchema::named("index", ty("usize"), true),
            FieldSchema::named("kb_event", ty("KbEvent"), false),
            FieldSchema::named("key", ty("String"), true),
        ],
    };
    let m = reconstruct(&v, &vec![Value::Integer(4), Value::text("k")], &vec![Value::Object(7)]);
    assert_eq!(
        m,
        MessageValue {
            variant: "Stuff".to_string(),
            layout: FieldLayout::Named,
            fields: vec![
                MessageField { name: Some("index".to_string()), value: Value::Integer(4) },
                MessageField { name: Some("kb_event".to_string()), value: Value::Object(7) },
                MessageField { name: Some("key".to_string()), value: Value::text("k") },
            ],
        }
    );
}

#[test]
fn rebuilding_twice_gives_the_same_message() {
    let v = positional("Variant", &[true, false]);
    let key = ints(&[1]);
    let args = ints(&[2]);
    assert_eq!(reconstruct(&v, &key, &args), reconstruct(&v, &key, &args));
}

#[test]
fn a_copy_of_a_message_is_equal_to_it() {
    let v = positional("Variant", &[true, false]);
    let m = reconstruct(&v, &vec![Value::text("k")], &vec![Value::Object(2)]);
    assert_eq!(m.clone(), m);
    assert_eq!(m.fields[0].clone(), m.fields[0]);
}
