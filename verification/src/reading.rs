//! How a generated struct reader walks the events of its element: for each event it peeks,
//! which field the event belongs to, what is consumed, skipped or kept, and when the walk
//! ends. The generated code performs the actions; the decisions are made here.

use vstd::prelude::*;
use crate::derive::field::{Field, YaSerdeField};
use crate::event::ReaderEvent;
use crate::text::str_eq;

verus! {

/// How a child element named like a field is read.
#[derive(Clone, Copy, Debug, PartialEq, Eq, Structural)]
pub enum ChildReading {
    /// The field holds a struct (alone, in an `Option` or in a `Vec`): the struct reads the
    /// child element itself.
    Nested,
    /// The field holds a value of a simple type, read from the text of the child element.
    Text,
}

/// A field that child elements are read into: the name its elements carry, and how they
/// are read.
#[derive(Debug)]
pub struct FieldReading {
    pub label: String,
    pub reading: ChildReading,
}

impl View for FieldReading {
    type V = (Seq<char>, ChildReading);

    open spec fn view(&self) -> (Seq<char>, ChildReading) {
        (self.label@, self.reading)
    }
}

/// How the child elements of a field of kind `kind` are read.
pub open spec fn reading_of(kind: Field) -> ChildReading {
    match kind {
        Field::FieldStruct { .. } => ChildReading::Nested,
        Field::FieldOption { data_type } => if *data_type is FieldStruct {
            ChildReading::Nested
        } else {
            ChildReading::Text
        },
        Field::FieldVec { data_type } => if *data_type is FieldStruct {
            ChildReading::Nested
        } else {
            ChildReading::Text
        },
        _ => ChildReading::Text,
    }
}

/// How child elements are read, by the kind of the field: a field that holds a struct,
/// alone, in an `Option` or in a `Vec`, has its elements read by the struct's own reader;
/// every other kind (a simple type, or an `Option` or `Vec` of one) is read from the
/// element's text.
pub proof fn law_child_reading_by_kind(kind: Field)
    ensures
        reading_of(kind) is Nested <==> (kind is FieldStruct
            || (kind matches Field::FieldOption { data_type } && *data_type is FieldStruct)
            || (kind matches Field::FieldVec { data_type } && *data_type is FieldStruct)),
        reading_of(kind) is Text <==> !(reading_of(kind) is Nested),
        kind matches Field::FieldOption { data_type } ==> (*data_type is FieldStruct ==> reading_of(kind)
            == reading_of(*data_type)),
{
}

/// How child elements are read into `field`: under the name the field is read under, as
/// its kind says; none are for a field that is both an attribute and flattened.
pub fn field_reading(field: &YaSerdeField) -> (r: Option<FieldReading>)
    requires
        field.attributes_view().rename is Some || field.label_view() is Some,
    ensures
        field.attributes_view().attribute && field.attributes_view().flatten ==> r is None,
        !(field.attributes_view().attribute && field.attributes_view().flatten) ==> (r matches Some(f) && f@ == (
            match field.attributes_view().rename {
                Some(n) => n@,
                None => field.label_view().unwrap(),
            },
            reading_of(field.field_type_view()),
        )),
{
    if field.is_attribute() && field.is_flatten() {
        return None;
    }
    let reading = match field.get_type() {
        Field::FieldStruct { .. } => ChildReading::Nested,
        Field::FieldOption { data_type } | Field::FieldVec { data_type } => match &**data_type {
            Field::FieldStruct { .. } => ChildReading::Nested,
            _ => ChildReading::Text,
        },
        _ => ChildReading::Text,
    };
    Some(FieldReading { label: field.renamed_label_without_namespace(), reading })
}

/// Where a struct reader stands in its element: the balance of the start tags it has met
/// over the end tags it has consumed, which starts at zero.
#[derive(Clone, Copy, Debug, PartialEq, Eq, Structural)]
pub struct StructReadState {
    pub depth: i64,
}

/// What a struct reader does with the event it peeked.
#[derive(Clone, Copy, Debug, PartialEq, Eq, Structural)]
pub enum ReadAction {
    /// A start tag named like the field at `field`, which holds a struct. When `own_start`,
    /// the struct's own start tag is consumed first; the nested struct then reads the
    /// element if a start tag follows. When `attributes`, the struct's attributes are read
    /// from the peeked tag.
    ReadNested { field: usize, own_start: bool, attributes: bool },
    /// A start tag named like the field at `field`, whose value is read from the element's
    /// text; when `attributes`, the struct's attributes are read from the peeked tag.
    ReadText { field: usize, attributes: bool },
    /// A start tag named like no field, at the struct's own level or above it: it is
    /// consumed, and when `attributes` the struct's attributes are read from it.
    TakeStart { attributes: bool },
    /// A start tag named like no field, inside the struct's element: it is consumed and its
    /// element skipped whole.
    SkipChild,
    /// An end tag that does not close the struct's element: it is consumed.
    CloseChild,
    /// Text: the struct's text field takes it, and it is consumed.
    TakeText,
    /// The struct's element is closed, or the document ends for a flattened struct: the
    /// walk is over and nothing is consumed.
    Finish,
    /// The document ends for a struct that is not flattened: nothing is consumed and the
    /// same event is peeked again.
    Wait,
    /// Any other event: the read fails.
    Unknown,
}

/// Whether `i` is the position of the first field named `name`.
pub open spec fn is_first_field(fields: Seq<(Seq<char>, ChildReading)>, name: Seq<char>, i: int) -> bool {
    &&& 0 <= i < fields.len()
    &&& fields[i].0 == name
    &&& forall|j: int| 0 <= j < i ==> fields[j].0 != name
}

/// The position of the first field named `name`, if any is.
pub open spec fn field_for(fields: Seq<(Seq<char>, ChildReading)>, name: Seq<char>) -> Option<int> {
    if exists|i: int| is_first_field(fields, name, i) {
        Some(choose|i: int| is_first_field(fields, name, i))
    } else {
        None
    }
}

/// One step of a struct reader at depth `depth` whose element is named `named`: the depth
/// it moves to and what it does with the peeked event `event`.
pub open spec fn read_step_spec(
    depth: int,
    event: ReaderEvent,
    named: Seq<char>,
    flatten: bool,
    fields: Seq<(Seq<char>, ChildReading)>,
) -> (int, ReadAction) {
    match event {
        ReaderEvent::StartElement { name, .. } => (
            depth + 1,
            match field_for(fields, name.local_name@) {
                Some(i) => if fields[i].1 is Nested {
                    ReadAction::ReadNested { field: i as usize, own_start: depth == 0, attributes: depth == 0 }
                } else {
                    ReadAction::ReadText { field: i as usize, attributes: depth == 0 }
                },
                None => if depth > 0 {
                    ReadAction::SkipChild
                } else {
                    ReadAction::TakeStart { attributes: depth == 0 }
                },
            },
        ),
        ReaderEvent::EndElement { name } => if name.local_name@ == named {
            (depth, ReadAction::Finish)
        } else {
            (depth - 1, ReadAction::CloseChild)
        },
        ReaderEvent::EndDocument => (depth, if flatten { ReadAction::Finish } else { ReadAction::Wait }),
        ReaderEvent::Characters(_) => (depth, ReadAction::TakeText),
        _ => (depth, ReadAction::Unknown),
    }
}

/// The decisions a struct reader makes on a peeked event: it reads its attributes only from
/// a start tag met at its own level (depth zero); it hands a start tag named like a field to
/// the first such field; it skips whole exactly the start tags named like no field that it
/// meets inside its element; and it stops only at the end tag of its own element, or at the
/// end of the document when it is flattened.
pub proof fn law_read_step_decisions(
    depth: int,
    event: ReaderEvent,
    named: Seq<char>,
    flatten: bool,
    fields: Seq<(Seq<char>, ChildReading)>,
)
    requires
        fields.len() <= usize::MAX,
    ensures
        ({
            let action = read_step_spec(depth, event, named, flatten, fields).1;
            (action matches ReadAction::ReadNested { attributes, .. } && attributes)
                || (action matches ReadAction::ReadText { attributes, .. } && attributes)
                || (action matches ReadAction::TakeStart { attributes } && attributes)
            ==> depth == 0 && event is StartElement
        }),
        event matches ReaderEvent::StartElement { name, .. } ==> ({
            let action = read_step_spec(depth, event, named, flatten, fields).1;
            &&& (action is SkipChild <==> depth > 0 && field_for(fields, name.local_name@) is None)
            &&& (field_for(fields, name.local_name@) matches Some(i) ==> 0 <= i < fields.len()
                && fields[i].0 == name.local_name@
                && ((action matches ReadAction::ReadNested { field, .. } && field == i)
                    || (action matches ReadAction::ReadText { field, .. } && field == i)))
        }),
        read_step_spec(depth, event, named, flatten, fields).1 is Finish ==> (
            (event matches ReaderEvent::EndElement { name } && name.local_name@ == named)
            || (event is EndDocument && flatten)
        ),
{
    if let ReaderEvent::StartElement { name, .. } = event {
        if let Some(i) = field_for(fields, name.local_name@) {
            assert(is_first_field(fields, name.local_name@, i));
        }
    }
}

/// The position of the first field named `name`.
fn find_field(fields: &Vec<FieldReading>, name: &str) -> (r: Option<usize>)
    ensures
        match r {
            Some(i) => i < fields.len() && field_for(fields@.map_values(|f: FieldReading| f@), name@) == Some(i as int),
            None => field_for(fields@.map_values(|f: FieldReading| f@), name@) is None,
        },
{
    let ghost view = fields@.map_values(|f: FieldReading| f@);
    let mut i: usize = 0;
    while i < fields.len()
        invariant
            i <= fields.len(),
            view == fields@.map_values(|f: FieldReading| f@),
            forall|j: int| 0 <= j < i ==> view[j].0 != name@,
        decreases fields.len() - i,
    {
        if str_eq(fields[i].label.as_str(), name) {
            assert(is_first_field(view, name@, i as int));
            assert forall|k: int| is_first_field(view, name@, k) implies k == i by {}
            return Some(i);
        }
        i += 1;
    }
    assert forall|k: int| !is_first_field(view, name@, k) by {}
    None
}

/// One step of a struct reader: the state it moves to and what it does with the event it
/// peeked, for a struct whose element is named `named_element` and whose fields read child
/// elements as `fields` says.
pub fn struct_read_step(
    state: &StructReadState,
    event: &ReaderEvent,
    named_element: &str,
    flatten: bool,
    fields: &Vec<FieldReading>,
) -> (r: (StructReadState, ReadAction))
    requires
        i64::MIN < state.depth < i64::MAX,
    ensures
        (r.0.depth as int, r.1) == read_step_spec(
            state.depth as int,
            *event,
            named_element@,
            flatten,
            fields@.map_values(|f: FieldReading| f@),
        ),
{
    let depth = state.depth;
    match event {
        ReaderEvent::StartElement { name, .. } => {
            let action = match find_field(fields, name.local_name.as_str()) {
                Some(i) => {
                    assert(fields@.map_values(|f: FieldReading| f@)[i as int].1 == fields@[i as int].reading);
                    match fields[i].reading {
                    ChildReading::Nested => ReadAction::ReadNested { field: i, own_start: depth == 0, attributes: depth == 0 },
                    ChildReading::Text => ReadAction::ReadText { field: i, attributes: depth == 0 },
                    }
                },
                None => if depth > 0 {
                    ReadAction::SkipChild
                } else {
                    ReadAction::TakeStart { attributes: depth == 0 }
                },
            };
            (StructReadState { depth: depth + 1 }, action)
        },
        ReaderEvent::EndElement { name } => {
            if str_eq(name.local_name.as_str(), named_element) {
                (StructReadState { depth }, ReadAction::Finish)
            } else {
                (StructReadState { depth: depth - 1 }, ReadAction::CloseChild)
            }
        },
        ReaderEvent::EndDocument => {
            if flatten {
                (StructReadState { depth }, ReadAction::Finish)
            } else {
                (StructReadState { depth }, ReadAction::Wait)
            }
        },
        ReaderEvent::Characters(_) => (StructReadState { depth }, ReadAction::TakeText),
        _ => (StructReadState { depth }, ReadAction::Unknown),
    }
}


/// What an enum reader does with the event it peeked.
#[derive(Clone, Copy, Debug, PartialEq, Eq, Structural)]
pub enum EnumReadAction {
    /// A start tag: when `variant` is some, the variant at that position, the first named
    /// like the tag, is read; else the tag is consumed. Either way, text that follows and
    /// names a variant then selects it.
    StartTag { variant: Option<usize> },
    /// An end tag that does not close the enum's element, or text: it is consumed.
    Consume,
    /// The enum's element is closed, or the document ends for a flattened enum: the walk is
    /// over and nothing is consumed.
    Finish,
    /// The document ends for an enum that is not flattened: the read fails.
    MissingContent,
    /// Any other event: the read fails.
    Unknown,
}

/// Whether `i` is the position of the first of `names` that is `name`.
pub open spec fn is_first_name(names: Seq<Seq<char>>, name: Seq<char>, i: int) -> bool {
    &&& 0 <= i < names.len()
    &&& names[i] == name
    &&& forall|j: int| 0 <= j < i ==> names[j] != name
}

/// The position of the first of `names` that is `name`, if any is.
pub open spec fn name_index(names: Seq<Seq<char>>, name: Seq<char>) -> Option<int> {
    if exists|i: int| is_first_name(names, name, i) {
        Some(choose|i: int| is_first_name(names, name, i))
    } else {
        None
    }
}

/// The position of the first variant named `name`, among the names `variants` that an
/// enum's variants are read under.
pub fn variant_named(variants: &Vec<String>, name: &str) -> (r: Option<usize>)
    ensures
        match r {
            Some(i) => i < variants.len() && name_index(variants@.map_values(|s: String| s@), name@) == Some(
                i as int,
            ),
            None => name_index(variants@.map_values(|s: String| s@), name@) is None,
        },
{
    let ghost view = variants@.map_values(|s: String| s@);
    let mut i: usize = 0;
    while i < variants.len()
        invariant
            i <= variants.len(),
            view == variants@.map_values(|s: String| s@),
            forall|j: int| 0 <= j < i ==> view[j] != name@,
        decreases variants.len() - i,
    {
        if str_eq(variants[i].as_str(), name) {
            assert(is_first_name(view, name@, i as int));
            assert forall|k: int| is_first_name(view, name@, k) implies k == i by {}
            return Some(i);
        }
        i += 1;
    }
    assert forall|k: int| !is_first_name(view, name@, k) by {}
    None
}

/// What an enum reader whose element is named `named` and whose variants are read under
/// the names `variants` does with the peeked event `event`.
pub open spec fn enum_step_spec(
    event: ReaderEvent,
    named: Seq<char>,
    flatten: bool,
    variants: Seq<Seq<char>>,
) -> EnumReadAction {
    match event {
        ReaderEvent::StartElement { name, .. } => EnumReadAction::StartTag {
            variant: match name_index(variants, name.local_name@) {
                Some(i) => Some(i as usize),
                None => None,
            },
        },
        ReaderEvent::EndElement { name } => if name.local_name@ == named {
            EnumReadAction::Finish
        } else {
            EnumReadAction::Consume
        },
        ReaderEvent::Characters(_) => EnumReadAction::Consume,
        ReaderEvent::EndDocument => if flatten {
            EnumReadAction::Finish
        } else {
            EnumReadAction::MissingContent
        },
        _ => EnumReadAction::Unknown,
    }
}

/// A name found at `j` has a first position.
proof fn lemma_first_name_exists(names: Seq<Seq<char>>, name: Seq<char>, j: int)
    requires
        0 <= j < names.len(),
        names[j] == name,
    ensures
        exists|i: int| is_first_name(names, name, i),
    decreases j,
{
    if exists|m: int| 0 <= m < j && names[m] == name {
        let m = choose|m: int| 0 <= m < j && names[m] == name;
        lemma_first_name_exists(names, name, m);
    } else {
        assert(is_first_name(names, name, j));
    }
}

/// The decisions an enum reader makes on a peeked event: a start tag selects the first
/// variant named like it, or none when no variant is; and the walk stops only at the end
/// tag of the enum's own element, or at the end of the document when it is flattened.
pub proof fn law_enum_step_decisions(
    event: ReaderEvent,
    named: Seq<char>,
    flatten: bool,
    variants: Seq<Seq<char>>,
)
    requires
        variants.len() <= usize::MAX,
    ensures
        event matches ReaderEvent::StartElement { name, .. } ==> match enum_step_spec(event, named, flatten, variants) {
            EnumReadAction::StartTag { variant: Some(i) } => i < variants.len() && variants[i as int] == name.local_name@
                && forall|j: int| 0 <= j < i ==> variants[j] != name.local_name@,
            EnumReadAction::StartTag { variant: None } => forall|j: int| 0 <= j < variants.len() ==> variants[j]
                != name.local_name@,
            _ => false,
        },
        enum_step_spec(event, named, flatten, variants) is Finish ==> (
            (event matches ReaderEvent::EndElement { name } && name.local_name@ == named)
            || (event is EndDocument && flatten)
        ),
{
    if let ReaderEvent::StartElement { name, .. } = event {
        if let Some(i) = name_index(variants, name.local_name@) {
            assert(is_first_name(variants, name.local_name@, i));
        } else {
            assert forall|j: int| 0 <= j < variants.len() implies variants[j] != name.local_name@ by {
                if variants[j] == name.local_name@ {
                    lemma_first_name_exists(variants, name.local_name@, j);
                }
            }
        }
    }
}

/// One step of an enum reader: what it does with the event it peeked, for an enum whose
/// element is named `named_element` and whose variants are read under the names `variants`.
pub fn enum_read_step(
    event: &ReaderEvent,
    named_element: &str,
    flatten: bool,
    variants: &Vec<String>,
) -> (r: EnumReadAction)
    ensures
        r == enum_step_spec(*event, named_element@, flatten, variants@.map_values(|s: String| s@)),
{
    match event {
        ReaderEvent::StartElement { name, .. } => EnumReadAction::StartTag {
            variant: variant_named(variants, name.local_name.as_str()),
        },
        ReaderEvent::EndElement { name } => {
            if str_eq(name.local_name.as_str(), named_element) {
                EnumReadAction::Finish
            } else {
                EnumReadAction::Consume
            }
        },
        ReaderEvent::Characters(_) => EnumReadAction::Consume,
        ReaderEvent::EndDocument => {
            if flatten {
                EnumReadAction::Finish
            } else {
                EnumReadAction::MissingContent
            }
        },
        _ => EnumReadAction::Unknown,
    }
}

} // verus!
