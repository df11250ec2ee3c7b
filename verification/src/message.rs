//! Message values, and how a handler rebuilds one from the arguments it
//! captured when it was made and those it is invoked with.

use vstd::prelude::*;
use crate::partition::{
    interleave,
    lemma_interleave_curried_ends,
    lemma_pick_of_interleaved,
    lemma_set_before_grows,
    pick,
    set_before,
};
use crate::schema::{
    clone_name,
    count_curried,
    curried_count,
    curried_flags,
    name_view,
    plain_count,
    view_each,
    FieldLayout,
    VariantSchema,
    VariantView,
};

verus! {

/// A value of a field.
#[derive(Debug)]
pub enum Value {
    Integer(i64),
    Text(String),
    /// An object of the host, known by its handle.
    Object(u64),
}

/// A [`Value`] in contracts.
pub enum ValueView {
    Integer(i64),
    Text(Seq<char>),
    Object(u64),
}

impl View for Value {
    type V = ValueView;

    open spec fn view(&self) -> ValueView {
        match self {
            Value::Integer(n) => ValueView::Integer(*n),
            Value::Text(s) => ValueView::Text(s@),
            Value::Object(h) => ValueView::Object(*h),
        }
    }
}

impl Clone for Value {
    fn clone(&self) -> (r: Value)
        ensures
            r@ == self@,
    {
        match self {
            Value::Integer(n) => Value::Integer(*n),
            Value::Text(s) => Value::Text(s.clone()),
            Value::Object(h) => Value::Object(*h),
        }
    }
}

impl PartialEq for Value {
    fn eq(&self, other: &Value) -> (r: bool) {
        match self {
            Value::Integer(a) => match other {
                Value::Integer(b) => *a == *b,
                _ => false,
            },
            Value::Text(a) => match other {
                Value::Text(b) => *a == *b,
                _ => false,
            },
            Value::Object(a) => match other {
                Value::Object(b) => *a == *b,
                _ => false,
            },
        }
    }
}

impl vstd::std_specs::cmp::PartialEqSpecImpl for Value {
    open spec fn obeys_eq_spec() -> bool {
        true
    }

    open spec fn eq_spec(&self, other: &Value) -> bool {
        self@ == other@
    }
}

impl Value {
    /// A text value.
    pub fn text(s: &str) -> (r: Value)
        ensures
            r@ == ValueView::Text(s@),
    {
        Value::Text(s.to_owned())
    }
}

/// Whether two tuples of values are equal.
pub fn same_values(a: &Vec<Value>, b: &Vec<Value>) -> (r: bool)
    ensures
        r == (view_each(a@) == view_each(b@)),
{
    if a.len() != b.len() {
        assert(view_each(a@).len() != view_each(b@).len());
        return false;
    }
    let mut i: usize = 0;
    while i < a.len()
        invariant
            i <= a.len(),
            a.len() == b.len(),
            forall|j: int| 0 <= j < i ==> (#[trigger] a@[j])@ == b@[j]@,
        decreases a.len() - i,
    {
        if a[i] != b[i] {
            assert(view_each(a@)[i as int] != view_each(b@)[i as int]);
            return false;
        }
        i += 1;
    }
    assert(view_each(a@) =~= view_each(b@));
    true
}

/// One field of a message value.
#[derive(Debug, PartialEq)]
pub struct MessageField {
    /// The field's name, if the variant names its fields.
    pub name: Option<String>,
    pub value: Value,
}

/// A [`MessageField`] in contracts.
pub struct MessageFieldView {
    pub name: Option<Seq<char>>,
    pub value: ValueView,
}

impl View for MessageField {
    type V = MessageFieldView;

    open spec fn view(&self) -> MessageFieldView {
        MessageFieldView { name: name_view(self.name), value: self.value@ }
    }
}

impl Clone for MessageField {
    fn clone(&self) -> (r: MessageField)
        ensures
            r@ == self@,
    {
        MessageField { name: clone_name(&self.name), value: self.value.clone() }
    }
}

/// A value of the message type: one variant with a value for each field.
#[derive(Debug, PartialEq)]
pub struct MessageValue {
    pub variant: String,
    pub layout: FieldLayout,
    /// The fields in the order of their declaration.
    pub fields: Vec<MessageField>,
}

/// A [`MessageValue`] in contracts.
pub struct MessageView {
    pub variant: Seq<char>,
    pub layout: FieldLayout,
    pub fields: Seq<MessageFieldView>,
}

impl View for MessageValue {
    type V = MessageView;

    open spec fn view(&self) -> MessageView {
        MessageView {
            variant: self.variant@,
            layout: self.layout,
            fields: view_each(self.fields@),
        }
    }
}

impl Clone for MessageValue {
    fn clone(&self) -> (r: MessageValue)
        ensures
            r@ == self@,
    {
        let mut fields: Vec<MessageField> = Vec::new();
        let mut i: usize = 0;
        while i < self.fields.len()
            invariant
                i <= self.fields.len(),
                fields@.len() == i,
                forall|j: int| 0 <= j < i ==> (#[trigger] fields@[j])@ == self.fields@[j]@,
            decreases self.fields.len() - i,
        {
            fields.push(self.fields[i].clone());
            i += 1;
        }
        let r = MessageValue { variant: self.variant.clone(), layout: self.layout, fields };
        assert(r@.fields =~= self@.fields);
        r
    }
}

impl MessageView {
    /// The layout agrees with the fields: a unit message has none, the
    /// fields of a named one all have names, those of a positional one have
    /// none.
    pub open spec fn wf(self) -> bool {
        match self.layout {
            FieldLayout::Unit => self.fields.len() == 0,
            FieldLayout::Positional => forall|i: int|
                0 <= i < self.fields.len() ==> (#[trigger] self.fields[i]).name is None,
            FieldLayout::Named => forall|i: int|
                0 <= i < self.fields.len() ==> (#[trigger] self.fields[i]).name is Some,
        }
    }
}

/// The values of the fields of a message, in order.
pub open spec fn field_values(message: MessageView) -> Seq<ValueView> {
    Seq::new(message.fields.len(), |i: int| message.fields[i].value)
}

/// The message that a handler of a variant emits: the variant's name and
/// layout, and for each field its name and its value, a curried field
/// taking the next captured value and any other the next supplied one.
pub open spec fn message_of(
    variant: VariantView,
    captured: Seq<ValueView>,
    supplied: Seq<ValueView>,
) -> MessageView {
    MessageView {
        variant: variant.name,
        layout: variant.layout,
        fields: Seq::new(
            variant.fields.len(),
            |i: int|
                MessageFieldView {
                    name: variant.fields[i].name,
                    value: interleave(curried_flags(variant.fields), captured, supplied)[i],
                },
        ),
    }
}

/// A message keeps the shape of its variant: its name, its layout and the
/// names of its fields, so that the message of a well-formed variant is well
/// formed. It holds in the order of the fields what went into it: the
/// captured values at the curried fields, the supplied values at the others,
/// however the two kinds are mixed.
pub proof fn lemma_message_holds_its_arguments(
    variant: VariantView,
    captured: Seq<ValueView>,
    supplied: Seq<ValueView>,
)
    requires
        captured.len() == curried_count(variant.fields),
        supplied.len() == plain_count(variant.fields),
    ensures
        message_of(variant, captured, supplied).variant == variant.name,
        message_of(variant, captured, supplied).layout == variant.layout,
        message_of(variant, captured, supplied).fields.len() == variant.fields.len(),
        variant.wf() ==> message_of(variant, captured, supplied).wf(),
        forall|i: int|
            0 <= i < variant.fields.len() ==> (#[trigger] message_of(
                variant,
                captured,
                supplied,
            ).fields[i]).name == variant.fields[i].name,
        pick(
            curried_flags(variant.fields),
            field_values(message_of(variant, captured, supplied)),
            true,
        ) == captured,
        pick(
            curried_flags(variant.fields),
            field_values(message_of(variant, captured, supplied)),
            false,
        ) == supplied,
{
    let flags = curried_flags(variant.fields);
    let message = message_of(variant, captured, supplied);
    assert forall|i: int| 0 <= i < message.fields.len() implies (
    #[trigger] message.fields[i]).name == variant.fields[i].name by {}
    lemma_set_before_grows(flags, 0, flags.len() as int);
    lemma_pick_of_interleaved(flags, captured, supplied);
    assert(field_values(message) =~= interleave(flags, captured, supplied));
}

/// The message of a variant with four fields of which the first and the
/// last are curried: it holds the first captured value, the two supplied
/// values and the second captured value, in this order.
pub proof fn lemma_message_with_curried_ends(
    variant: VariantView,
    first: ValueView,
    a: ValueView,
    b: ValueView,
    last: ValueView,
)
    requires
        curried_flags(variant.fields) == seq![true, false, false, true],
    ensures
        field_values(message_of(variant, seq![first, last], seq![a, b])) == seq![first, a, b, last],
{
    lemma_interleave_curried_ends(first, a, b, last);
    assert(field_values(message_of(variant, seq![first, last], seq![a, b])) =~= interleave(
        curried_flags(variant.fields),
        seq![first, last],
        seq![a, b],
    ));
}

/// Whether a tuple of values can be the curried arguments of a variant.
pub fn fits_curried(variant: &VariantSchema, captured: &Vec<Value>) -> (r: bool)
    ensures
        r == (captured@.len() == curried_count(variant@.fields)),
{
    count_curried(variant) == captured.len()
}

/// Whether a tuple of values can be the arguments that a handler of a
/// variant is invoked with.
pub fn fits_plain(variant: &VariantSchema, supplied: &Vec<Value>) -> (r: bool)
    ensures
        r == (supplied@.len() == plain_count(variant@.fields)),
{
    proof {
        lemma_set_before_grows(curried_flags(variant@.fields), 0, variant@.fields.len() as int);
    }
    variant.fields.len() - count_curried(variant) == supplied.len()
}

/// Rebuilds the message of a variant from the captured values of its curried
/// fields and the supplied values of the others.
pub fn reconstruct(
    variant: &VariantSchema,
    captured: &Vec<Value>,
    supplied: &Vec<Value>,
) -> (m: MessageValue)
    requires
        captured@.len() == curried_count(variant@.fields),
        supplied@.len() == plain_count(variant@.fields),
    ensures
        m@ == message_of(variant@, view_each(captured@), view_each(supplied@)),
{
    let ghost flags = curried_flags(variant@.fields);
    let ghost want = message_of(variant@, view_each(captured@), view_each(supplied@));
    let n = variant.fields.len();
    let mut fields: Vec<MessageField> = Vec::new();
    let mut taken: usize = 0;
    let mut used: usize = 0;
    let mut i: usize = 0;
    proof {
        lemma_set_before_grows(flags, 0, n as int);
    }
    while i < n
        invariant
            i <= n,
            n == variant.fields.len(),
            flags == curried_flags(variant@.fields),
            want == message_of(variant@, view_each(captured@), view_each(supplied@)),
            captured@.len() == set_before(flags, n as int),
            captured@.len() + supplied@.len() == n,
            taken == set_before(flags, i as int),
            taken + used == i,
            fields@.len() == i,
            forall|j: int| 0 <= j < i ==> (#[trigger] fields@[j])@ == want.fields[j],
        decreases n - i,
    {
        let field = &variant.fields[i];
        proof {
            lemma_set_before_grows(flags, i as int + 1, n as int);
        }
        let value = if field.curried {
            let v = captured[taken].clone();
            taken += 1;
            v
        } else {
            let v = supplied[used].clone();
            used += 1;
            v
        };
        fields.push(MessageField { name: clone_name(&field.name), value });
        i += 1;
    }
    let m = MessageValue { variant: variant.name.clone(), layout: variant.layout, fields };
    assert(m@.fields =~= want.fields);
    m
}

} // verus!
