//! The shape of a message type: its variants, their fields, and which fields
//! are curried.

use vstd::prelude::*;
use crate::partition::set_before;

verus! {

/// The views of the items of a sequence, in order.
pub open spec fn view_each<T: View>(items: Seq<T>) -> Seq<T::V> {
    Seq::new(items.len(), |i: int| items[i]@)
}

/// The view of an optional name.
pub open spec fn name_view(name: Option<String>) -> Option<Seq<char>> {
    match name {
        Some(n) => Some(n@),
        None => None,
    }
}

/// A copy of an optional name.
pub fn clone_name(name: &Option<String>) -> (r: Option<String>)
    ensures
        name_view(r) == name_view(*name),
{
    match name {
        Some(n) => Some(n.clone()),
        None => None,
    }
}

/// What went wrong while a cache was planned for a declaration.
#[derive(Clone, Copy, Debug, PartialEq, Eq, Structural)]
pub enum SchemaError {
    /// The declaration is not a tagged union.
    NotTaggedUnion,
    /// A curried field has a type whose values cannot serve in a key.
    UnhashableCurryKey,
}

/// The kind of a type declaration.
#[derive(Clone, Copy, Debug, PartialEq, Eq, Structural)]
pub enum DeclarationKind {
    Enum,
    Struct,
    Union,
}

/// How the fields of a variant are written.
#[derive(Clone, Copy, Debug, PartialEq, Eq, Structural)]
pub enum FieldLayout {
    /// No field list at all.
    Unit,
    /// Fields told apart by position.
    Positional,
    /// Fields told apart by name.
    Named,
}

/// The type of a field.
#[derive(Debug, PartialEq, Eq)]
pub struct TypeDesc {
    /// The type as it is written.
    pub name: String,
    /// Whether values of the type can be compared, hashed and duplicated
    /// cheaply, so that they can be part of a key.
    pub keyable: bool,
}

/// A [`TypeDesc`] in contracts.
pub struct TypeDescView {
    pub name: Seq<char>,
    pub keyable: bool,
}

impl View for TypeDesc {
    type V = TypeDescView;

    open spec fn view(&self) -> TypeDescView {
        TypeDescView { name: self.name@, keyable: self.keyable }
    }
}

impl Clone for TypeDesc {
    fn clone(&self) -> (r: TypeDesc)
        ensures
            r@ == self@,
    {
        TypeDesc { name: self.name.clone(), keyable: self.keyable }
    }
}

impl TypeDesc {
    /// A type by its name and whether its values can be part of a key.
    pub fn new(name: &str, keyable: bool) -> (r: TypeDesc)
        ensures
            r@ == (TypeDescView { name: name@, keyable }),
    {
        TypeDesc { name: name.to_owned(), keyable }
    }
}

/// One field of a variant.
#[derive(Debug, PartialEq, Eq)]
pub struct FieldSchema {
    /// The field's name; a positional field has none.
    pub name: Option<String>,
    pub ty: TypeDesc,
    /// Whether the field's value is fixed when a handler is made, not when
    /// it is invoked.
    pub curried: bool,
}

/// A [`FieldSchema`] in contracts.
pub struct FieldView {
    pub name: Option<Seq<char>>,
    pub ty: TypeDescView,
    pub curried: bool,
}

impl View for FieldSchema {
    type V = FieldView;

    open spec fn view(&self) -> FieldView {
        FieldView { name: name_view(self.name), ty: self.ty@, curried: self.curried }
    }
}

impl Clone for FieldSchema {
    fn clone(&self) -> (r: FieldSchema)
        ensures
            r@ == self@,
    {
        FieldSchema { name: clone_name(&self.name), ty: self.ty.clone(), curried: self.curried }
    }
}

/// Whether one of the markers on a field is the single word `curry`.
///
/// A marker that is not a single word is given as `None`.
pub open spec fn has_curry_marker(markers: Seq<Option<String>>) -> bool {
    exists|i: int| 0 <= i < markers.len() && name_view(#[trigger] markers[i]) == Some("curry"@)
}

/// Whether a field that carries these markers is curried.
pub fn is_curried(markers: &Vec<Option<String>>) -> (r: bool)
    ensures
        r == has_curry_marker(markers@),
{
    let curry = "curry".to_owned();
    let mut i: usize = 0;
    while i < markers.len()
        invariant
            i <= markers.len(),
            curry@ == "curry"@,
            forall|j: int| 0 <= j < i ==> name_view(#[trigger] markers@[j]) != Some("curry"@),
        decreases markers.len() - i,
    {
        let found = match &markers[i] {
            Some(word) => *word == curry,
            None => false,
        };
        if found {
            return true;
        }
        i += 1;
    }
    false
}

impl FieldSchema {
    /// A positional field.
    pub fn positional(ty: TypeDesc, curried: bool) -> (r: FieldSchema)
        ensures
            r@ == (FieldView { name: None, ty: ty@, curried }),
    {
        FieldSchema { name: None, ty, curried }
    }

    /// A named field.
    pub fn named(name: &str, ty: TypeDesc, curried: bool) -> (r: FieldSchema)
        ensures
            r@ == (FieldView { name: Some(name@), ty: ty@, curried }),
    {
        FieldSchema { name: Some(name.to_owned()), ty, curried }
    }

    /// A field as it is declared: curried if and only if one of its markers
    /// is the word `curry`.
    pub fn declared(name: Option<String>, ty: TypeDesc, markers: &Vec<Option<String>>) -> (r:
        FieldSchema)
        ensures
            r@ == (FieldView {
                name: name_view(name),
                ty: ty@,
                curried: has_curry_marker(markers@),
            }),
    {
        let curried = is_curried(markers);
        FieldSchema { name, ty, curried }
    }
}

/// One variant of a message type.
#[derive(Debug, PartialEq, Eq)]
pub struct VariantSchema {
    pub name: String,
    pub layout: FieldLayout,
    /// The fields in the order of their declaration.
    pub fields: Vec<FieldSchema>,
}

/// A [`VariantSchema`] in contracts.
pub struct VariantView {
    pub name: Seq<char>,
    pub layout: FieldLayout,
    pub fields: Seq<FieldView>,
}

impl View for VariantSchema {
    type V = VariantView;

    open spec fn view(&self) -> VariantView {
        VariantView { name: self.name@, layout: self.layout, fields: view_each(self.fields@) }
    }
}

impl VariantView {
    /// The layout agrees with the fields: a unit variant has none, the
    /// fields of a named variant all have names, those of a positional one
    /// have none.
    pub open spec fn wf(self) -> bool {
        match self.layout {
            FieldLayout::Unit => self.fields.len() == 0,
            FieldLayout::Positional => forall|i: int|
                0 <= i < self.fields.len() ==> (#[trigger] self.fields[i]).name is None,
            FieldLayout::Named => forall|i: int|
                0 <= i < self.fields.len() ==> (#[trigger] self.fields[i]).name is Some,
        }
    }
}

impl VariantSchema {
    /// A variant without a field list.
    pub fn unit(name: &str) -> (r: VariantSchema)
        ensures
            r@ == (VariantView {
                name: name@,
                layout: FieldLayout::Unit,
                fields: Seq::<FieldView>::empty(),
            }),
            r@.wf(),
    {
        let r = VariantSchema {
            name: name.to_owned(),
            layout: FieldLayout::Unit,
            fields: Vec::new(),
        };
        assert(r@.fields =~= Seq::<FieldView>::empty());
        r
    }

    /// Whether the layout agrees with the fields.
    pub fn is_well_formed(&self) -> (r: bool)
        ensures
            r == self@.wf(),
    {
        match self.layout {
            FieldLayout::Unit => self.fields.len() == 0,
            FieldLayout::Positional => {
                let mut i: usize = 0;
                while i < self.fields.len()
                    invariant
                        i <= self.fields.len(),
                        self.layout == FieldLayout::Positional,
                        forall|j: int| 0 <= j < i ==> (#[trigger] self@.fields[j]).name is None,
                    decreases self.fields.len() - i,
                {
                    if self.fields[i].name.is_some() {
                        return false;
                    }
                    assert(self@.fields[i as int].name is None);
                    i += 1;
                }
                true
            },
            FieldLayout::Named => {
                let mut i: usize = 0;
                while i < self.fields.len()
                    invariant
                        i <= self.fields.len(),
                        self.layout == FieldLayout::Named,
                        forall|j: int| 0 <= j < i ==> (#[trigger] self@.fields[j]).name is Some,
                    decreases self.fields.len() - i,
                {
                    if self.fields[i].name.is_none() {
                        return false;
                    }
                    assert(self@.fields[i as int].name is Some);
                    i += 1;
                }
                true
            },
        }
    }
}

impl Clone for VariantSchema {
    fn clone(&self) -> (r: VariantSchema)
        ensures
            r@ == self@,
    {
        let mut fields: Vec<FieldSchema> = Vec::new();
        let mut i: usize = 0;
        while i < self.fields.len()
            invariant
                i <= self.fields.len(),
                fields@.len() == i,
                forall|j: int| 0 <= j < i ==> (#[trigger] fields@[j])@ == self.fields@[j]@,
            decreases self.fields.len() - i,
        {
            fields.push(self.fields[i].clone());
            i += 1;
        }
        let r = VariantSchema { name: self.name.clone(), layout: self.layout, fields };
        assert(r@.fields =~= self@.fields);
        r
    }
}

/// For each field, whether it is curried.
pub open spec fn curried_flags(fields: Seq<FieldView>) -> Seq<bool> {
    Seq::new(fields.len(), |i: int| fields[i].curried)
}

/// How many of the fields are curried.
pub open spec fn curried_count(fields: Seq<FieldView>) -> nat {
    set_before(curried_flags(fields), fields.len() as int)
}

/// How many of the fields are not curried.
pub open spec fn plain_count(fields: Seq<FieldView>) -> nat {
    (fields.len() - curried_count(fields)) as nat
}

/// The number of curried fields of a variant.
pub fn count_curried(variant: &VariantSchema) -> (r: usize)
    ensures
        r == curried_count(variant@.fields),
{
    let ghost flags = curried_flags(variant@.fields);
    let mut count: usize = 0;
    let mut i: usize = 0;
    while i < variant.fields.len()
        invariant
            i <= variant.fields.len(),
            flags == curried_flags(variant@.fields),
            count == set_before(flags, i as int),
            count <= i,
        decreases variant.fields.len() - i,
    {
        if variant.fields[i].curried {
            count += 1;
        }
        i += 1;
    }
    count
}

/// A message type: a tagged union and its variants.
#[derive(Debug, PartialEq, Eq)]
pub struct Schema {
    pub name: String,
    /// The variants in the order of their declaration.
    pub variants: Vec<VariantSchema>,
}

/// A [`Schema`] in contracts.
pub struct SchemaView {
    pub name: Seq<char>,
    pub variants: Seq<VariantView>,
}

impl View for Schema {
    type V = SchemaView;

    open spec fn view(&self) -> SchemaView {
        SchemaView { name: self.name@, variants: view_each(self.variants@) }
    }
}

impl Schema {
    /// The schema of a declaration, which has to be an enum.
    pub fn of_declaration(
        kind: DeclarationKind,
        name: String,
        variants: Vec<VariantSchema>,
    ) -> (r: Result<Schema, SchemaError>)
        ensures
            kind == DeclarationKind::Enum ==> r is Ok && r->Ok_0@ == (SchemaView {
                name: name@,
                variants: view_each(variants@),
            }),
            kind != DeclarationKind::Enum ==> r == Err::<Schema, SchemaError>(
                SchemaError::NotTaggedUnion,
            ),
    {
        match kind {
            DeclarationKind::Enum => Ok(Schema { name, variants }),
            _ => Err(SchemaError::NotTaggedUnion),
        }
    }
}

} // verus!
