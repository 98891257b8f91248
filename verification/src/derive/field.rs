//! The fields of a type that a (de)serializer is generated for, and the names and checks
//! that come from them.

use heck::CamelCase;
use vstd::prelude::*;
use crate::derive::attribute::{prefix_text, AttrToken, NamespaceMatching, YaSerdeAttribute};
use crate::text::{push_char, str_eq};

verus! {

/// A segment of a type path: its identifier and, when it has angle-bracketed arguments whose
/// first one is a type path, that path.
#[derive(Debug)]
pub struct PathSegment {
    pub ident: String,
    pub argument: Option<Box<TypePath>>,
}

/// A type written as a path, such as `Option<String>` or `crate::module::Type`.
#[derive(Debug)]
pub struct TypePath {
    pub segments: Vec<PathSegment>,
}

/// The kind of a field's type, as far as (de)serialization tells kinds apart.
#[derive(Debug)]
pub enum Field {
    FieldString,
    FieldBool,
    FieldI8,
    FieldU8,
    FieldI16,
    FieldU16,
    FieldI32,
    FieldU32,
    FieldI64,
    FieldU64,
    FieldF32,
    FieldF64,
    FieldOption { data_type: Box<Field> },
    FieldVec { data_type: Box<Field> },
    FieldStruct { struct_name: TypePath },
}

/// The kind a simple type's name stands for, if it names one.
pub open spec fn simple_field(name: Seq<char>) -> Option<Field> {
    if name == "String"@ {
        Some(Field::FieldString)
    } else if name == "bool"@ {
        Some(Field::FieldBool)
    } else if name == "i8"@ {
        Some(Field::FieldI8)
    } else if name == "u8"@ {
        Some(Field::FieldU8)
    } else if name == "i16"@ {
        Some(Field::FieldI16)
    } else if name == "u16"@ {
        Some(Field::FieldU16)
    } else if name == "i32"@ {
        Some(Field::FieldI32)
    } else if name == "u32"@ {
        Some(Field::FieldU32)
    } else if name == "i64"@ {
        Some(Field::FieldI64)
    } else if name == "u64"@ {
        Some(Field::FieldU64)
    } else if name == "f32"@ {
        Some(Field::FieldF32)
    } else if name == "f64"@ {
        Some(Field::FieldF64)
    } else {
        None
    }
}

/// Whether a path's kind can be told: where its last segment is `Option` or `Vec`, that
/// segment has a type argument whose kind can be told.
pub open spec fn classifiable(path: TypePath) -> bool
    decreases path,
{
    if path.segments@.len() == 0 {
        true
    } else {
        let last = path.segments@.last();
        if last.ident@ == "Option"@ || last.ident@ == "Vec"@ {
            match last.argument {
                Some(arg) => {
                    proof {
                        assert(decreases_to!(path.segments => path.segments@[path.segments@.len() - 1]));
                    }
                    classifiable(*arg)
                },
                None => false,
            }
        } else {
            true
        }
    }
}

/// The kind of the type `path`: by the name of its last segment, a simple type, an option
/// or a list of the kind of its argument, and otherwise a structure.
pub open spec fn field_of(path: TypePath) -> Field
    decreases path,
{
    if path.segments@.len() == 0 {
        Field::FieldStruct { struct_name: path }
    } else {
        let last = path.segments@.last();
        match simple_field(last.ident@) {
            Some(f) => f,
            None => if last.ident@ == "Option"@ || last.ident@ == "Vec"@ {
                match last.argument {
                    Some(arg) => {
                        proof {
                            assert(decreases_to!(path.segments => path.segments@[path.segments@.len() - 1]));
                        }
                        let inner = Box::new(field_of(*arg));
                        if last.ident@ == "Option"@ {
                            Field::FieldOption { data_type: inner }
                        } else {
                            Field::FieldVec { data_type: inner }
                        }
                    },
                    None => Field::FieldStruct { struct_name: path },
                }
            } else {
                Field::FieldStruct { struct_name: path }
            },
        }
    }
}

/// The kind a simple type's name stands for, if it names one.
fn simple_field_named(name: &str) -> (r: Option<Field>)
    ensures
        r == simple_field(name@),
{
    if str_eq(name, "String") {
        Some(Field::FieldString)
    } else if str_eq(name, "bool") {
        Some(Field::FieldBool)
    } else if str_eq(name, "i8") {
        Some(Field::FieldI8)
    } else if str_eq(name, "u8") {
        Some(Field::FieldU8)
    } else if str_eq(name, "i16") {
        Some(Field::FieldI16)
    } else if str_eq(name, "u16") {
        Some(Field::FieldU16)
    } else if str_eq(name, "i32") {
        Some(Field::FieldI32)
    } else if str_eq(name, "u32") {
        Some(Field::FieldU32)
    } else if str_eq(name, "i64") {
        Some(Field::FieldI64)
    } else if str_eq(name, "u64") {
        Some(Field::FieldU64)
    } else if str_eq(name, "f32") {
        Some(Field::FieldF32)
    } else if str_eq(name, "f64") {
        Some(Field::FieldF64)
    } else {
        None
    }
}

impl Field {
    /// The kind of the type `path`.
    pub fn from_path(path: TypePath) -> (r: Field)
        requires
            classifiable(path),
        ensures
            r == field_of(path),
        decreases path,
    {
        let n = path.segments.len();
        if n == 0 {
            return Field::FieldStruct { struct_name: path };
        }
        let ident = path.segments[n - 1].ident.as_str();
        if let Some(f) = simple_field_named(ident) {
            return f;
        }
        let is_option = str_eq(ident, "Option");
        let is_vec = str_eq(ident, "Vec");
        if !is_option && !is_vec {
            return Field::FieldStruct { struct_name: path };
        }
        let ghost whole = path;
        let mut segments = path.segments;
        let last = segments.pop().unwrap();
        match last.argument {
            Some(arg) => {
                proof {
                    assert(decreases_to!(whole.segments => whole.segments@[whole.segments@.len() - 1]));
                }
                let inner = Box::new(Field::from_path(*arg));
                if is_option {
                    Field::FieldOption { data_type: inner }
                } else {
                    Field::FieldVec { data_type: inner }
                }
            },
            None => {
                proof {
                    assert(false);
                }
                Field::FieldString
            },
        }
    }

    /// Whether this is the kind of a simple type.
    pub open spec fn is_simple(&self) -> bool {
        !(self is FieldOption || self is FieldVec || self is FieldStruct)
    }

    /// The name a simple kind is known by in visitor methods.
    pub open spec fn simple_name(&self) -> Seq<char> {
        match self {
            Field::FieldString => "str"@,
            Field::FieldBool => "bool"@,
            Field::FieldI8 => "i8"@,
            Field::FieldU8 => "u8"@,
            Field::FieldI16 => "i16"@,
            Field::FieldU16 => "u16"@,
            Field::FieldI32 => "i32"@,
            Field::FieldU32 => "u32"@,
            Field::FieldI64 => "i64"@,
            Field::FieldU64 => "u64"@,
            Field::FieldF32 => "f32"@,
            Field::FieldF64 => "f64"@,
            _ => Seq::empty(),
        }
    }

    /// The name a simple kind is known by in visitor methods.
    pub fn kind_name(&self) -> (r: String)
        requires
            self.is_simple(),
        ensures
            r@ == self.simple_name(),
    {
        let name = match self {
            Field::FieldString => "str",
            Field::FieldBool => "bool",
            Field::FieldI8 => "i8",
            Field::FieldU8 => "u8",
            Field::FieldI16 => "i16",
            Field::FieldU16 => "u16",
            Field::FieldI32 => "i32",
            Field::FieldU32 => "u32",
            Field::FieldI64 => "i64",
            Field::FieldU64 => "u64",
            Field::FieldF32 => "f32",
            Field::FieldF64 => "f64",
            _ => "",
        };
        String::from_str(name)
    }

    /// The visitor method that reads a simple kind: `visit_` and its name.
    pub fn get_simple_type_visitor(&self) -> (r: String)
        requires
            self.is_simple(),
        ensures
            r@ == "visit_"@ + self.simple_name(),
    {
        let mut r = String::from_str("visit_");
        let name = self.kind_name();
        r.append(name.as_str());
        r
    }
}

/// The identifier without its raw marker `r#`, if it has one.
pub open spec fn unraw(ident: Seq<char>) -> Seq<char> {
    if ident.len() >= 2 && ident[0] == 'r' && ident[1] == '#' {
        ident.skip(2)
    } else {
        ident
    }
}

/// The text with every `.` turned into `_`.
pub open spec fn dots_to_underscores(s: Seq<char>) -> Seq<char> {
    s.map_values(|c: char| if c == '.' { '_' } else { c })
}

/// The upper camel case form of a text (words split at case changes, spaces, `_` and `-`,
/// each word capitalized, separators dropped), as `heck` computes it.
pub uninterp spec fn camel_case(s: Seq<char>) -> Seq<char>;

/// Converts to upper camel case (`heck::CamelCase::to_camel_case`).
#[verifier::external_body]
fn to_camel_case(s: &str) -> (r: String)
    ensures
        r@ == camel_case(s@),
{
    s.to_camel_case()
}

/// The identifiers of a path's segments, one after the other.
pub open spec fn path_id(segments: Seq<PathSegment>) -> Seq<char>
    decreases segments.len(),
{
    if segments.len() == 0 {
        Seq::empty()
    } else {
        path_id(segments.drop_last()) + segments.last().ident@
    }
}

/// The identifiers of a path's segments, one after the other.
pub fn path_identifier(path: &TypePath) -> (r: String)
    ensures
        r@ == path_id(path.segments@),
{
    let mut r = String::new();
    let mut i: usize = 0;
    while i < path.segments.len()
        invariant
            i <= path.segments@.len(),
            r@ == path_id(path.segments@.take(i as int)),
        decreases path.segments@.len() - i,
    {
        assert(path.segments@.take(i + 1).drop_last() =~= path.segments@.take(i as int));
        r.append(path.segments[i].ident.as_str());
        i = i + 1;
    }
    assert(path.segments@.take(path.segments@.len() as int) =~= path.segments@);
    r
}

/// The text with every `.` turned into `_`.
pub fn replace_dots(s: &str) -> (r: String)
    ensures
        r@ == dots_to_underscores(s@),
{
    let n = s.unicode_len();
    let mut r = String::new();
    let mut i: usize = 0;
    while i < n
        invariant
            n == s@.len(),
            i <= n,
            r@ == dots_to_underscores(s@.take(i as int)),
        decreases n - i,
    {
        let c = s.get_char(i);
        push_char(&mut r, if c == '.' { '_' } else { c });
        assert(dots_to_underscores(s@.take(i + 1)) =~= dots_to_underscores(s@.take(i as int)).push(if c == '.' { '_' } else { c }));
        i = i + 1;
    }
    assert(s@.take(n as int) =~= s@);
    r
}

/// The name of the visitor type that reads a field read under `label`: `__Visitor_`, the
/// camel case form of the label with dots turned into underscores, `_`, and the
/// identifiers of the structure the field holds (`struct_id`, empty for none).
pub open spec fn visitor_name(label: Seq<char>, struct_id: Seq<char>) -> Seq<char> {
    "__Visitor_"@ + camel_case(dots_to_underscores(label)) + "_"@ + struct_id
}

/// The name of the visitor type that a generated deserializer reads a field's element or
/// attribute with, for the label the field is read under; it is the name that
/// `YaSerdeField::get_visitor_ident` gives the field's visitor type.
pub fn build_visitor_ident(label: &str, struct_name: Option<&TypePath>) -> (r: String)
    ensures
        r@ == visitor_name(label@, match struct_name {
            Some(p) => path_id(p.segments@),
            None => Seq::empty(),
        }),
{
    let plain = replace_dots(label);
    let camel = to_camel_case(plain.as_str());
    let mut r = String::from_str("__Visitor_");
    r.append(camel.as_str());
    r.append("_");
    if let Some(path) = struct_name {
        let id = path_identifier(path);
        r.append(id.as_str());
    }
    r
}

/// A field of a type: its name (absent for a tuple field), the kind of its type and the
/// settings of its `yaserde` attributes.
pub struct YaSerdeField {
    label: Option<String>,
    field_type: Field,
    attributes: YaSerdeAttribute,
}

/// When a field is written: never (it is skipped), always, or unless a function given by
/// name says to skip its value, or unless its value is the one a default function gives, or
/// unless either holds.
#[derive(Debug, PartialEq, Eq)]
pub enum SerializationCondition {
    Never,
    Always,
    UnlessSkipped { skip_if: String },
    UnlessDefault { default: String },
    UnlessSkippedOrDefault { skip_if: String, default: String },
}

/// The condition under which a field with these settings is written.
pub open spec fn condition_of(
    skip: bool,
    skip_if: Option<Seq<char>>,
    default: Option<Seq<char>>,
    c: SerializationCondition,
) -> bool {
    if skip {
        c is Never
    } else {
        match (skip_if, default) {
            (None, None) => c is Always,
            (Some(s), None) => c matches SerializationCondition::UnlessSkipped { skip_if } && skip_if@ == s,
            (None, Some(d)) => c matches SerializationCondition::UnlessDefault { default } && default@ == d,
            (Some(s), Some(d)) => c matches SerializationCondition::UnlessSkippedOrDefault { skip_if, default }
                && skip_if@ == s && default@ == d,
        }
    }
}

impl YaSerdeField {
    /// The field's name, if it has one.
    pub closed spec fn label_view(&self) -> Option<Seq<char>> {
        self.label.deep_view()
    }

    /// The kind of the field's type.
    pub closed spec fn field_type_view(&self) -> Field {
        self.field_type
    }

    /// The settings of the field's attributes.
    pub closed spec fn attributes_view(&self) -> YaSerdeAttribute {
        self.attributes
    }

    /// A field named `label` (none for a tuple field) of type `ty`, with the attributes
    /// `attrs`.
    pub fn new(label: Option<String>, ty: TypePath, attrs: &Vec<Vec<AttrToken>>) -> (r: Self)
        requires
            classifiable(ty),
        ensures
            r.label_view() == label.deep_view(),
            r.field_type_view() == field_of(ty),
            r.attributes_view().namespaces.wf(),
            r.attributes_view().parsed() == crate::derive::attribute::parse_attributes(
                crate::derive::attribute::no_settings(),
                attrs@,
            ),
    {
        YaSerdeField { label, field_type: Field::from_path(ty), attributes: YaSerdeAttribute::parse(attrs) }
    }

    /// A field with settings given directly.
    pub fn with_attributes(label: Option<String>, ty: TypePath, attributes: YaSerdeAttribute) -> (r: Self)
        requires
            classifiable(ty),
        ensures
            r.label_view() == label.deep_view(),
            r.field_type_view() == field_of(ty),
            r.attributes_view() == attributes,
    {
        YaSerdeField { label, field_type: Field::from_path(ty), attributes }
    }

    pub fn is_attribute(&self) -> (r: bool)
        ensures
            r == self.attributes_view().attribute,
    {
        self.attributes.attribute
    }

    pub fn is_text_content(&self) -> (r: bool)
        ensures
            r == self.attributes_view().text,
    {
        self.attributes.text
    }

    pub fn is_cdata(&self) -> (r: bool)
        ensures
            r == self.attributes_view().cdata,
    {
        self.attributes.cdata
    }

    pub fn is_flatten(&self) -> (r: bool)
        ensures
            r == self.attributes_view().flatten,
    {
        self.attributes.flatten
    }

    pub fn label(&self) -> (r: Option<String>)
        ensures
            r.deep_view() == self.label_view(),
    {
        self.label.clone()
    }

    /// The name of the variable that holds the field's value while it is read:
    /// `__`, the name without a raw marker, `_value`.
    pub fn get_value_label(&self) -> (r: Option<String>)
        ensures
            match self.label_view() {
                Some(l) => r matches Some(v) && v@ == "__"@ + unraw(l) + "_value"@,
                None => r is None,
            },
    {
        match &self.label {
            Some(ident) => {
                let text = ident.as_str();
                let n = text.unicode_len();
                let mut r = String::from_str("__");
                if n >= 2 && text.get_char(0) == 'r' && text.get_char(1) == '#' {
                    r.append(text.substring_char(2, n));
                    assert(text@.subrange(2, n as int) =~= text@.skip(2));
                } else {
                    r.append(text);
                }
                r.append("_value");
                Some(r)
            },
            None => None,
        }
    }

    /// The name the field is read under: the new name if one is set, else its own name.
    pub fn renamed_label_without_namespace(&self) -> (r: String)
        requires
            self.attributes_view().rename is Some || self.label_view() is Some,
        ensures
            r@ == match self.attributes_view().rename {
                Some(n) => n@,
                None => self.label_view().unwrap(),
            },
    {
        match &self.attributes.rename {
            Some(name) => name.clone(),
            None => match &self.label {
                Some(label) => label.clone(),
                None => String::new(),
            },
        }
    }

    /// The name the field is written under: the prefix (unless it is the root's default
    /// namespace), then the name it is read under.
    pub fn renamed_label(&self, root_attributes: &YaSerdeAttribute) -> (r: String)
        requires
            self.attributes_view().rename is Some || self.label_view() is Some,
        ensures
            r@ == prefix_text(root_attributes.default_namespace.deep_view(), self.attributes_view().prefix.deep_view())
                + match self.attributes_view().rename {
                Some(n) => n@,
                None => self.label_view().unwrap(),
            },
    {
        let mut r = crate::derive::attribute::prefix_string(&root_attributes.default_namespace, &self.attributes.prefix);
        let label = self.renamed_label_without_namespace();
        r.append(label.as_str());
        r
    }

    /// The name of the visitor type that reads the field: `__Visitor_`, the camel case form
    /// of the name it is read under with dots turned into underscores, `_`, and the
    /// identifiers of `struct_name` if one is given.
    pub fn get_visitor_ident(&self, struct_name: Option<&TypePath>) -> (r: String)
        requires
            self.attributes_view().rename is Some || self.label_view() is Some,
        ensures
            ({
                let label = match self.attributes_view().rename {
                    Some(n) => n@,
                    None => self.label_view().unwrap(),
                };
                let struct_id = match struct_name {
                    Some(p) => path_id(p.segments@),
                    None => Seq::empty(),
                };
                r@ == visitor_name(label, struct_id)
            }),
    {
        let label = self.renamed_label_without_namespace();
        build_visitor_ident(label.as_str(), struct_name)
    }

    /// The kind of the field's type.
    pub fn get_type(&self) -> (r: &Field)
        ensures
            *r == self.field_type_view(),
    {
        &self.field_type
    }

    /// The name of the function that gives the field's default value, if one is set.
    pub fn get_default_function(&self) -> (r: Option<String>)
        ensures
            r.deep_view() == self.attributes_view().default.deep_view(),
    {
        self.attributes.default.clone()
    }

    /// The name of the function that says whether to skip the field's value, if one is set.
    pub fn get_skip_serializing_if_function(&self) -> (r: Option<String>)
        ensures
            r.deep_view() == self.attributes_view().skip_serializing_if.deep_view(),
    {
        self.attributes.skip_serializing_if.clone()
    }

    /// The namespaces the field's element may be in: the one the root binds to the field's
    /// prefix.
    pub fn get_namespace_matching(&self, root_attributes: &YaSerdeAttribute) -> (r: NamespaceMatching)
        requires
            root_attributes.namespaces.wf(),
        ensures
            match self.attributes_view().prefix.deep_view() {
                Some(p) => if root_attributes.namespaces.binds(p) {
                    r.accepted@.len() == 1 && r.accepted@[0]@ == root_attributes.namespaces.uri_of(p)
                } else {
                    r.accepted@.len() == 0
                },
                None => r.accepted@.len() == 0,
            },
    {
        root_attributes.get_namespace_matching(&self.attributes.prefix, false)
    }

    /// When the field is written as an attribute.
    pub fn ser_wrap_default_attribute(&self) -> (r: SerializationCondition)
        ensures
            condition_of(
                self.attributes_view().skip_serializing,
                self.attributes_view().skip_serializing_if.deep_view(),
                self.attributes_view().default.deep_view(),
                r,
            ),
    {
        condition_generator(self)
    }
}

/// When a field is written as an element.
pub fn condition_generator(field: &YaSerdeField) -> (r: SerializationCondition)
    ensures
        condition_of(
            field.attributes_view().skip_serializing,
            field.attributes_view().skip_serializing_if.deep_view(),
            field.attributes_view().default.deep_view(),
            r,
        ),
{
    if field.attributes.skip_serializing {
        return SerializationCondition::Never;
    }
    match (field.get_skip_serializing_if_function(), field.get_default_function()) {
        (None, None) => SerializationCondition::Always,
        (Some(skip_if), None) => SerializationCondition::UnlessSkipped { skip_if },
        (None, Some(default)) => SerializationCondition::UnlessDefault { default },
        (Some(skip_if), Some(default)) => SerializationCondition::UnlessSkippedOrDefault { skip_if, default },
    }
}

/// What a field's value starts as while it is read: what its default function gives, if
/// one is set, else the default of its type.
#[derive(Debug, PartialEq, Eq)]
pub enum DefaultValue {
    DefaultFunction(String),
    TypeDefault,
}

/// What a field's value starts as while it is read.
pub fn build_default_value(field: &YaSerdeField) -> (r: DefaultValue)
    ensures
        match field.attributes_view().default {
            Some(f) => r matches DefaultValue::DefaultFunction(g) && g@ == f@,
            None => r is TypeDefault,
        },
{
    match field.get_default_function() {
        Some(function) => DefaultValue::DefaultFunction(function),
        None => DefaultValue::TypeDefault,
    }
}

/// README rule: a field marked `skip_serializing` is never written, whatever else is set;
/// a field without it and without conditions is always written.
pub proof fn law_skipped_fields_are_never_written(
    skip_if: Option<Seq<char>>,
    default: Option<Seq<char>>,
    c: SerializationCondition,
)
    ensures
        condition_of(true, skip_if, default, c) <==> c is Never,
        condition_of(false, None, None, c) <==> c is Always,
{
}

} // verus!
