//! How a generated struct writer writes each field: as the struct's text, as elements, as
//! nested structs, as attributes of the struct's start tag, or not at all, by the field's
//! kind and settings.

use vstd::prelude::*;
use crate::derive::field::{Field, YaSerdeField};

verus! {

/// How a field that is not an attribute is written.
#[derive(Clone, Copy, Debug, PartialEq, Eq, Structural)]
pub enum FieldWriting {
    /// As the text of the struct's element; an optional value writes its text or nothing.
    Text { optional: bool },
    /// A simple value, as an element named after the field that holds its text.
    Element,
    /// An optional simple value, as such an element when it is there.
    OptionalElement,
    /// An optional list of values, as one such element per item when it is there.
    OptionalList,
    /// A list of simple values, as one such element per item.
    List,
    /// A struct (when `optional`, one that is there; when `list`, each item of a list) written
    /// by its own writer: under the field's name when `named`, else under its own; without
    /// its start and end tags when `skip_start_end`.
    Nested { optional: bool, list: bool, named: bool, skip_start_end: bool },
    /// A kind that is not written.
    Unsupported,
}

/// How a field that is an attribute, or a flattened field, adds to the struct's start tag.
#[derive(Clone, Copy, Debug, PartialEq, Eq, Structural)]
pub enum AttributeWriting {
    /// A simple value, as an attribute named after the field.
    Value,
    /// An optional string, as such an attribute when it is there.
    OptionalString,
    /// An optional simple value, as such an attribute when it is there.
    OptionalValue,
    /// An optional list, as one such attribute per item when it is there.
    OptionalList,
    /// An optional struct, as such an attribute holding its content when it is there.
    OptionalStruct,
    /// A struct, as such an attribute holding its content.
    Struct,
    /// A flattened struct that is not an attribute: the attributes and namespaces its own
    /// writer gives are added to those of the start tag.
    ChildAttributes,
    /// Nothing is added.
    Nothing,
    /// A kind that is not written.
    Unsupported,
}

/// Whether a kind is a simple one: not an `Option`, a `Vec` or a struct.
pub open spec fn simple_kind(kind: Field) -> bool {
    !(kind is FieldOption || kind is FieldVec || kind is FieldStruct)
}

/// How a field of kind `kind` that is not an attribute is written, when it is the struct's
/// text (`text`) or flattened (`flatten`).
pub open spec fn writing_of(kind: Field, text: bool, flatten: bool) -> FieldWriting {
    if text {
        FieldWriting::Text { optional: kind is FieldOption }
    } else {
        match kind {
            Field::FieldOption { data_type } => match *data_type {
                Field::FieldVec { .. } => FieldWriting::OptionalList,
                Field::FieldStruct { .. } => FieldWriting::Nested {
                    optional: true,
                    list: false,
                    named: !flatten,
                    skip_start_end: flatten,
                },
                Field::FieldOption { .. } => FieldWriting::Unsupported,
                _ => FieldWriting::OptionalElement,
            },
            Field::FieldStruct { .. } => FieldWriting::Nested {
                optional: false,
                list: false,
                named: !flatten,
                skip_start_end: flatten,
            },
            Field::FieldVec { data_type } => match *data_type {
                Field::FieldOption { .. } => FieldWriting::Nested {
                    optional: true,
                    list: true,
                    named: false,
                    skip_start_end: false,
                },
                Field::FieldStruct { .. } => FieldWriting::Nested {
                    optional: false,
                    list: true,
                    named: !flatten,
                    skip_start_end: flatten,
                },
                Field::FieldVec { .. } => FieldWriting::Unsupported,
                _ => FieldWriting::List,
            },
            _ => FieldWriting::Element,
        }
    }
}

/// How a field of kind `kind` adds to the struct's start tag, when it is an attribute
/// (`attribute`).
pub open spec fn attribute_writing_of(kind: Field, attribute: bool) -> AttributeWriting {
    if attribute {
        match kind {
            Field::FieldOption { data_type } => match *data_type {
                Field::FieldString => AttributeWriting::OptionalString,
                Field::FieldVec { .. } => AttributeWriting::OptionalList,
                Field::FieldStruct { .. } => AttributeWriting::OptionalStruct,
                Field::FieldOption { .. } => AttributeWriting::Unsupported,
                _ => AttributeWriting::OptionalValue,
            },
            Field::FieldStruct { .. } => AttributeWriting::Struct,
            Field::FieldVec { .. } => AttributeWriting::Nothing,
            _ => AttributeWriting::Value,
        }
    } else {
        match kind {
            Field::FieldStruct { .. } => AttributeWriting::ChildAttributes,
            _ => AttributeWriting::Nothing,
        }
    }
}

/// How `field`, which is not an attribute, is written.
pub fn field_writing(field: &YaSerdeField) -> (r: FieldWriting)
    ensures
        r == writing_of(field.field_type_view(), field.attributes_view().text, field.attributes_view().flatten),
{
    let flatten = field.is_flatten();
    if field.is_text_content() {
        let optional = match field.get_type() {
            Field::FieldOption { .. } => true,
            _ => false,
        };
        return FieldWriting::Text { optional };
    }
    match field.get_type() {
        Field::FieldOption { data_type } => match &**data_type {
            Field::FieldVec { .. } => FieldWriting::OptionalList,
            Field::FieldStruct { .. } => FieldWriting::Nested {
                optional: true,
                list: false,
                named: !flatten,
                skip_start_end: flatten,
            },
            Field::FieldOption { .. } => FieldWriting::Unsupported,
            _ => FieldWriting::OptionalElement,
        },
        Field::FieldStruct { .. } => FieldWriting::Nested {
            optional: false,
            list: false,
            named: !flatten,
            skip_start_end: flatten,
        },
        Field::FieldVec { data_type } => match &**data_type {
            Field::FieldOption { .. } => FieldWriting::Nested {
                optional: true,
                list: true,
                named: false,
                skip_start_end: false,
            },
            Field::FieldStruct { .. } => FieldWriting::Nested {
                optional: false,
                list: true,
                named: !flatten,
                skip_start_end: flatten,
            },
            Field::FieldVec { .. } => FieldWriting::Unsupported,
            _ => FieldWriting::List,
        },
        _ => FieldWriting::Element,
    }
}

/// How `field`, an attribute or a flattened field, adds to the struct's start tag.
pub fn attribute_writing(field: &YaSerdeField) -> (r: AttributeWriting)
    ensures
        r == attribute_writing_of(field.field_type_view(), field.attributes_view().attribute),
{
    if field.is_attribute() {
        match field.get_type() {
            Field::FieldOption { data_type } => match &**data_type {
                Field::FieldString => AttributeWriting::OptionalString,
                Field::FieldVec { .. } => AttributeWriting::OptionalList,
                Field::FieldStruct { .. } => AttributeWriting::OptionalStruct,
                Field::FieldOption { .. } => AttributeWriting::Unsupported,
                _ => AttributeWriting::OptionalValue,
            },
            Field::FieldStruct { .. } => AttributeWriting::Struct,
            Field::FieldVec { .. } => AttributeWriting::Nothing,
            _ => AttributeWriting::Value,
        }
    } else {
        match field.get_type() {
            Field::FieldStruct { .. } => AttributeWriting::ChildAttributes,
            _ => AttributeWriting::Nothing,
        }
    }
}

/// How a field of a variant with named fields, that is not an attribute, is written.
#[derive(Clone, Copy, Debug, PartialEq, Eq, Structural)]
pub enum NamedVariantFieldWriting {
    /// As text of the enum's element.
    Text,
    /// A simple value, as an element named after the field that holds its text.
    Element,
    /// A struct, by its own writer under the field's name.
    Nested,
    /// Each struct of a list, by its own writer under the field's name.
    NestedList,
    /// Nothing is written.
    Nothing,
}

/// How a field of a tuple variant, that is not an attribute, is written.
#[derive(Clone, Copy, Debug, PartialEq, Eq, Structural)]
pub enum TupleVariantFieldWriting {
    /// Each value (the field's own, the one an option holds when there, or each item of a
    /// list) in an element named after the variant: as its text when `text`, else by its own
    /// writer without its own start and end tags.
    InElement { optional: bool, list: bool, text: bool },
    /// A struct of a flattened variant or field, by its own writer as it stands.
    Flattened,
}

/// How a field of kind `kind` of a variant with named fields is written, when it is the
/// text (`text`).
pub open spec fn named_variant_writing_of(kind: Field, text: bool) -> NamedVariantFieldWriting {
    if text {
        NamedVariantFieldWriting::Text
    } else {
        match kind {
            Field::FieldStruct { .. } => NamedVariantFieldWriting::Nested,
            Field::FieldVec { .. } => NamedVariantFieldWriting::NestedList,
            Field::FieldOption { .. } => NamedVariantFieldWriting::Nothing,
            _ => NamedVariantFieldWriting::Element,
        }
    }
}

/// How a field of kind `kind` of a tuple variant is written, when the variant or the field
/// is flattened (`flatten`).
pub open spec fn tuple_variant_writing_of(kind: Field, flatten: bool) -> TupleVariantFieldWriting {
    match kind {
        Field::FieldOption { data_type } => TupleVariantFieldWriting::InElement {
            optional: true,
            list: false,
            text: *data_type is FieldString,
        },
        Field::FieldVec { data_type } => TupleVariantFieldWriting::InElement {
            optional: false,
            list: true,
            text: *data_type is FieldString,
        },
        Field::FieldStruct { .. } => if flatten {
            TupleVariantFieldWriting::Flattened
        } else {
            TupleVariantFieldWriting::InElement { optional: false, list: false, text: false }
        },
        _ => TupleVariantFieldWriting::InElement { optional: false, list: false, text: true },
    }
}

/// How `field`, a field of a variant with named fields that is not an attribute, is
/// written.
pub fn named_variant_field_writing(field: &YaSerdeField) -> (r: NamedVariantFieldWriting)
    ensures
        r == named_variant_writing_of(field.field_type_view(), field.attributes_view().text),
{
    if field.is_text_content() {
        return NamedVariantFieldWriting::Text;
    }
    match field.get_type() {
        Field::FieldStruct { .. } => NamedVariantFieldWriting::Nested,
        Field::FieldVec { .. } => NamedVariantFieldWriting::NestedList,
        Field::FieldOption { .. } => NamedVariantFieldWriting::Nothing,
        _ => NamedVariantFieldWriting::Element,
    }
}

/// How `field`, a field of a tuple variant that is not an attribute, is written, when the
/// variant is flattened (`variant_flatten`).
pub fn tuple_variant_field_writing(field: &YaSerdeField, variant_flatten: bool) -> (r: TupleVariantFieldWriting)
    ensures
        r == tuple_variant_writing_of(field.field_type_view(), variant_flatten || field.attributes_view().flatten),
{
    match field.get_type() {
        Field::FieldOption { data_type } => TupleVariantFieldWriting::InElement {
            optional: true,
            list: false,
            text: match &**data_type {
                Field::FieldString => true,
                _ => false,
            },
        },
        Field::FieldVec { data_type } => TupleVariantFieldWriting::InElement {
            optional: false,
            list: true,
            text: match &**data_type {
                Field::FieldString => true,
                _ => false,
            },
        },
        Field::FieldStruct { .. } => {
            if variant_flatten || field.is_flatten() {
                TupleVariantFieldWriting::Flattened
            } else {
                TupleVariantFieldWriting::InElement { optional: false, list: false, text: false }
            }
        },
        _ => TupleVariantFieldWriting::InElement { optional: false, list: false, text: true },
    }
}

/// Whether a field of kind `kind` holds a struct: alone, in an `Option` or in a `Vec`.
pub open spec fn holds_struct(kind: Field) -> bool {
    match kind {
        Field::FieldStruct { .. } => true,
        Field::FieldOption { data_type } => *data_type is FieldStruct,
        Field::FieldVec { data_type } => *data_type is FieldStruct,
        _ => false,
    }
}

/// README rules for fields that are not attributes: a field marked `text` is written as
/// the struct's text, whatever its kind; no kind of field is written as text otherwise; a
/// flattened struct (alone or in an `Option` or a `Vec`) is written by its own writer
/// without its own tags and not under the field's name, and a struct that is not flattened
/// is written under the field's name with its own tags.
pub proof fn law_field_writing_rules(kind: Field, text: bool, flatten: bool)
    ensures
        text ==> writing_of(kind, text, flatten) is Text,
        !text ==> !(writing_of(kind, text, flatten) is Text),
        !text && holds_struct(kind) ==> (
            writing_of(kind, text, flatten) matches FieldWriting::Nested { named, skip_start_end, .. }
                && named == !flatten && skip_start_end == flatten),
{
}

/// README rules for the start tag: a field marked `attribute` is written as an attribute of
/// the start tag (nothing for a list), never as attributes of a child; a field that is not
/// an attribute adds to the start tag only the attributes of a struct, which happens for a
/// flattened struct.
pub proof fn law_attribute_writing_rules(kind: Field, attribute: bool)
    ensures
        attribute ==> !(attribute_writing_of(kind, attribute) is ChildAttributes),
        attribute && !(kind is FieldVec) ==> !(attribute_writing_of(kind, attribute) is Nothing),
        !attribute ==> (attribute_writing_of(kind, attribute) is ChildAttributes <==> kind is FieldStruct),
        !attribute ==> (attribute_writing_of(kind, attribute) is ChildAttributes
            || attribute_writing_of(kind, attribute) is Nothing),
{
}

/// How a field that is not the struct's text is written, by its kind: a simple value as a
/// plain element; an `Option` of a simple value as an optional element (never as a plain
/// one); an `Option` of a list as an optional list; a list of simple values as a list; a
/// struct, alone, in an `Option` or in a `Vec`, or a list of options, by its own writer,
/// optional exactly for an `Option` or a list of options and repeated exactly for a list;
/// and nested options or lists of lists not at all.
pub proof fn law_field_writing_by_kind(kind: Field, flatten: bool)
    ensures
        writing_of(kind, false, flatten) is Element <==> !(kind is FieldOption || kind is FieldVec
            || kind is FieldStruct),
        writing_of(kind, false, flatten) is OptionalElement <==> (kind matches Field::FieldOption { data_type }
            && !(*data_type is FieldOption || *data_type is FieldVec || *data_type is FieldStruct)),
        kind is FieldOption ==> !(writing_of(kind, false, flatten) is Element),
        writing_of(kind, false, flatten) is OptionalList <==> (kind matches Field::FieldOption { data_type }
            && *data_type is FieldVec),
        writing_of(kind, false, flatten) is List <==> (kind matches Field::FieldVec { data_type }
            && !(*data_type is FieldOption || *data_type is FieldVec || *data_type is FieldStruct)),
        writing_of(kind, false, flatten) is Unsupported <==> ((kind matches Field::FieldOption { data_type }
            && *data_type is FieldOption) || (kind matches Field::FieldVec { data_type } && *data_type is FieldVec)),
        writing_of(kind, false, flatten) is Nested <==> (holds_struct(kind) || (kind matches Field::FieldVec {
            data_type } && *data_type is FieldOption)),
        writing_of(kind, false, flatten) matches FieldWriting::Nested { optional, list, .. } ==> (
            list == kind is FieldVec && optional == (kind is FieldOption || (kind matches Field::FieldVec {
                data_type } && *data_type is FieldOption))),
        !(writing_of(kind, false, flatten) is Text),
{
}

/// How an attribute field is written, by its kind: a simple value as an attribute; an
/// `Option` of a string, of a simple value, of a list or of a struct as an attribute when it
/// is there; a struct as an attribute holding its content; a list not at all; nested
/// options are refused.
pub proof fn law_attribute_writing_by_kind(kind: Field)
    ensures
        attribute_writing_of(kind, true) is Value <==> !(kind is FieldOption || kind is FieldVec
            || kind is FieldStruct),
        attribute_writing_of(kind, true) is OptionalString <==> (kind matches Field::FieldOption { data_type }
            && *data_type is FieldString),
        attribute_writing_of(kind, true) is OptionalValue <==> (kind matches Field::FieldOption { data_type }
            && !(*data_type is FieldOption || *data_type is FieldVec || *data_type is FieldStruct
            || *data_type is FieldString)),
        attribute_writing_of(kind, true) is OptionalList <==> (kind matches Field::FieldOption { data_type }
            && *data_type is FieldVec),
        attribute_writing_of(kind, true) is OptionalStruct <==> (kind matches Field::FieldOption { data_type }
            && *data_type is FieldStruct),
        attribute_writing_of(kind, true) is Struct <==> kind is FieldStruct,
        attribute_writing_of(kind, true) is Nothing <==> kind is FieldVec,
        attribute_writing_of(kind, true) is Unsupported <==> (kind matches Field::FieldOption { data_type }
            && *data_type is FieldOption),
{
}

/// How a field of a tuple variant is written, by its kind: each value goes in an element
/// named after the variant, optional exactly for an `Option` and repeated exactly for a
/// `Vec`; the values of an `Option` or a `Vec` are written as the element's text exactly
/// when they are strings, other simple values always are, and a struct never is; a struct is
/// written as it stands exactly when the variant or the field is flattened.
pub proof fn law_tuple_variant_writing_by_kind(kind: Field, flatten: bool)
    ensures
        tuple_variant_writing_of(kind, flatten) is Flattened <==> (kind is FieldStruct && flatten),
        tuple_variant_writing_of(kind, flatten) matches TupleVariantFieldWriting::InElement { optional, list, text }
            ==> {
            &&& optional == kind is FieldOption
            &&& list == kind is FieldVec
            &&& (kind matches Field::FieldOption { data_type } ==> text == *data_type is FieldString)
            &&& (kind matches Field::FieldVec { data_type } ==> text == *data_type is FieldString)
            &&& (kind is FieldStruct ==> !text)
            &&& (!(kind is FieldOption || kind is FieldVec || kind is FieldStruct) ==> text)
        },
{
}

/// How a field of a variant with named fields is written, by its kind: a field marked
/// `text` as the enum's text; otherwise a simple value as an element, a struct by its own
/// writer, each struct of a list by its own writer, and an `Option` not at all.
pub proof fn law_named_variant_writing_by_kind(kind: Field, text: bool)
    ensures
        named_variant_writing_of(kind, text) is Text <==> text,
        !text ==> (named_variant_writing_of(kind, text) is Element <==> !(kind is FieldOption
            || kind is FieldVec || kind is FieldStruct)),
        !text ==> (named_variant_writing_of(kind, text) is Nested <==> kind is FieldStruct),
        !text ==> (named_variant_writing_of(kind, text) is NestedList <==> kind is FieldVec),
        !text ==> (named_variant_writing_of(kind, text) is Nothing <==> kind is FieldOption),
{
}

} // verus!
