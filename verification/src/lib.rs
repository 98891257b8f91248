//! XML serialization and deserialization driven by an event stream.
//!
//! Reading goes through a [`de::Deserializer`], which hands out the events of an XML
//! document with one event of look-ahead and counts the element depth; writing goes through
//! a [`ser::Serializer`], which hands events to an XML writer and records those it accepted.
//! Types take part by implementing [`YaDeserialize`] and [`YaSerialize`].

pub mod de;
pub mod derive;
pub mod event;
pub mod primitives;
pub mod reading;
pub mod ser;
pub mod text;
pub mod writing;
pub mod xml_io;

use std::io::Write;
use vstd::prelude::*;
use crate::de::Deserializer;
use crate::event::XmlAttribute;
use crate::ser::Serializer;
use crate::text::{debug_quoted, str_debug};

verus! {

/// A data structure that can be read from the events of a [`Deserializer`].
pub trait YaDeserialize: Sized {
    fn deserialize(reader: &mut Deserializer) -> (r: Result<Self, String>)
        requires
            old(reader).wf(),
        ensures
            final(reader).wf(),
    ;
}

/// A data structure that can be written as events to a [`Serializer`].
pub trait YaSerialize: Sized {
    fn serialize<W: Write>(&self, writer: &mut Serializer<W>) -> Result<(), String>;

    /// Adds this value's attributes and namespace bindings to those given.
    fn serialize_attributes(
        &self,
        attributes: Vec<XmlAttribute>,
        namespace: Vec<(String, String)>,
    ) -> Result<(Vec<XmlAttribute>, Vec<(String, String)>), String>;
}

/// The message a visitor gives for a value it does not take: `Unexpected`, the kind of value,
/// and the text it was given, quoted.
pub open spec fn unexpected_message(kind: Seq<char>, v: Seq<char>) -> Seq<char> {
    "Unexpected "@ + kind + " "@ + str_debug(v)
}

fn unexpected<T>(kind: &str, v: &str) -> (r: Result<T, String>)
    ensures
        r matches Err(m) && m@ == unexpected_message(kind@, v@),
{
    let mut message = String::from_str("Unexpected ");
    message.append(kind);
    message.append(" ");
    let quoted = debug_quoted(v);
    message.append(quoted.as_str());
    Err(message)
}

/// Turns the text of an XML value into a value of type `Value`. Each method takes the text
/// of one kind of value; one that a visitor does not override refuses the text.
pub trait Visitor<'de>: Sized {
    /// The value produced by this visitor.
    type Value;

    fn visit_bool(self, v: &str) -> (r: Result<Self::Value, String>)
        default_ensures
            r matches Err(m) && m@ == unexpected_message("bool"@, v@),
    {
        unexpected("bool", v)
    }

    fn visit_i8(self, v: &str) -> (r: Result<Self::Value, String>)
        default_ensures
            r matches Err(m) && m@ == unexpected_message("i8"@, v@),
    {
        unexpected("i8", v)
    }

    fn visit_u8(self, v: &str) -> (r: Result<Self::Value, String>)
        default_ensures
            r matches Err(m) && m@ == unexpected_message("u8"@, v@),
    {
        unexpected("u8", v)
    }

    fn visit_i16(self, v: &str) -> (r: Result<Self::Value, String>)
        default_ensures
            r matches Err(m) && m@ == unexpected_message("i16"@, v@),
    {
        unexpected("i16", v)
    }

    fn visit_u16(self, v: &str) -> (r: Result<Self::Value, String>)
        default_ensures
            r matches Err(m) && m@ == unexpected_message("u16"@, v@),
    {
        unexpected("u16", v)
    }

    fn visit_i32(self, v: &str) -> (r: Result<Self::Value, String>)
        default_ensures
            r matches Err(m) && m@ == unexpected_message("i32"@, v@),
    {
        unexpected("i32", v)
    }

    fn visit_u32(self, v: &str) -> (r: Result<Self::Value, String>)
        default_ensures
            r matches Err(m) && m@ == unexpected_message("u32"@, v@),
    {
        unexpected("u32", v)
    }

    fn visit_i64(self, v: &str) -> (r: Result<Self::Value, String>)
        default_ensures
            r matches Err(m) && m@ == unexpected_message("i64"@, v@),
    {
        unexpected("i64", v)
    }

    fn visit_u64(self, v: &str) -> (r: Result<Self::Value, String>)
        default_ensures
            r matches Err(m) && m@ == unexpected_message("u64"@, v@),
    {
        unexpected("u64", v)
    }

    fn visit_f32(self, v: &str) -> (r: Result<Self::Value, String>)
        default_ensures
            r matches Err(m) && m@ == unexpected_message("f32"@, v@),
    {
        unexpected("f32", v)
    }

    fn visit_f64(self, v: &str) -> (r: Result<Self::Value, String>)
        default_ensures
            r matches Err(m) && m@ == unexpected_message("f64"@, v@),
    {
        unexpected("f64", v)
    }

    fn visit_str(self, v: &str) -> (r: Result<Self::Value, String>)
        default_ensures
            r matches Err(m) && m@ == unexpected_message("str"@, v@),
    {
        unexpected("str", v)
    }
}

} // verus!
