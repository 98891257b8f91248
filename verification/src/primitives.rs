//! Reading and writing values that are a single piece of text, and the decimal text of
//! integers.

use std::io::Write;
use vstd::prelude::*;
use crate::de::{pull_outcome, Deserializer};
use crate::event::{ReaderEvent, WriterEvent, XmlAttribute};
use crate::ser::Serializer;
use crate::text::{debug_quoted, push_char, str_debug};
use crate::YaSerialize;

verus! {

/// The decimal digit character for `d`, which is below ten.
pub open spec fn digit_char(d: nat) -> char {
    (48 + d) as char
}

/// The decimal digits of `n`, most significant first, without leading zeros.
pub open spec fn digits_of(n: nat) -> Seq<char>
    decreases n,
{
    if n < 10 {
        seq![digit_char(n)]
    } else {
        digits_of(n / 10).push(digit_char(n % 10))
    }
}

/// The decimal text of `i`: a minus sign for a negative number, then the digits of its
/// magnitude.
pub open spec fn decimal_text(i: int) -> Seq<char> {
    if i < 0 {
        seq!['-'] + digits_of((-i) as nat)
    } else {
        digits_of(i as nat)
    }
}

fn push_digits(s: &mut String, n: u64)
    ensures
        final(s)@ == old(s)@ + digits_of(n as nat),
    decreases n,
{
    if n >= 10 {
        push_digits(s, n / 10);
    }
    let d = (n % 10) as u8;
    push_char(s, (48u8 + d) as char);
}

/// The decimal text of an unsigned number.
pub fn format_unsigned(n: u64) -> (s: String)
    ensures
        s@ == decimal_text(n as int),
{
    let mut s = String::new();
    push_digits(&mut s, n);
    s
}

/// The decimal text of a signed number.
pub fn format_signed(n: i64) -> (s: String)
    ensures
        s@ == decimal_text(n as int),
{
    let mut s = String::new();
    if n < 0 {
        push_char(&mut s, '-');
        let magnitude = (0i128 - n as i128) as u64;
        push_digits(&mut s, magnitude);
    } else {
        push_digits(&mut s, n as u64);
    }
    s
}

/// The number that decimal digits stand for.
pub open spec fn digits_value(s: Seq<char>) -> int
    decreases s.len(),
{
    if s.len() == 0 {
        0
    } else {
        digits_value(s.drop_last()) * 10 + (s.last() as int - 48)
    }
}

proof fn lemma_digits_of(n: nat)
    ensures
        digits_of(n).len() > 0,
        digits_value(digits_of(n)) == n,
        48 <= digits_of(n)[0] as int <= 57,
    decreases n,
{
    if n >= 10 {
        lemma_digits_of(n / 10);
        let d = digits_of(n / 10).push(digit_char(n % 10));
        assert(d.drop_last() =~= digits_of(n / 10));
        assert((digit_char(n % 10) as int) == 48 + n % 10);
        assert(digits_of(n) == d);
        assert(n == (n / 10) * 10 + n % 10) by (nonlinear_arith);
        assert(digits_value(d) == digits_value(digits_of(n / 10)) * 10 + (n % 10));
    } else {
        assert((digit_char(n) as int) == 48 + n);
        assert(digits_of(n).drop_last() =~= Seq::<char>::empty());
        assert(digits_value(Seq::<char>::empty()) == 0);
    }
}

/// Different integers have different decimal text: the text gives the number back.
pub proof fn law_decimal_text_injective(a: int, b: int)
    requires
        decimal_text(a) == decimal_text(b),
    ensures
        a == b,
{
    if a < 0 {
        lemma_digits_of((-a) as nat);
    } else {
        lemma_digits_of(a as nat);
    }
    if b < 0 {
        lemma_digits_of((-b) as nat);
    } else {
        lemma_digits_of(b as nat);
    }
    if a < 0 && b < 0 {
        assert(decimal_text(a).drop_first() =~= digits_of((-a) as nat));
        assert(decimal_text(b).drop_first() =~= digits_of((-b) as nat));
    } else if a < 0 && b >= 0 {
        assert(decimal_text(a)[0] == '-');
    } else if a >= 0 && b < 0 {
        assert(decimal_text(b)[0] == '-');
    }
}

/// The text of a boolean: `true` or `false`.
pub open spec fn bool_text(b: bool) -> Seq<char> {
    if b { "true"@ } else { "false"@ }
}

/// The message for a failed write of the `j`th event of a text element named `name` (its
/// start tag, its characters, its end tag).
pub open spec fn text_element_failure(j: int, name: Seq<char>) -> Seq<char> {
    (if j == 0 {
        "Start element "@
    } else if j == 1 {
        "Element value "@
    } else {
        "End element "@
    }) + str_debug(name) + " write failed"@
}

/// Writes a value as characters (`serialize_function` turns it into text), inside a start
/// and end tag unless the serializer is set to leave them out. The tag's name is the one
/// set on the serializer, or `default_name`. The events are handed to the writer in turn,
/// up to the first one it refuses, whose failure is reported; `serialize_function` is called
/// once the start tag is accepted.
pub fn serialize_primitives<S, W: Write, F: FnOnce(&S) -> String>(
    self_bypass: &S,
    default_name: &str,
    writer: &mut Serializer<W>,
    serialize_function: F,
) -> (r: Result<(), String>)
    requires
        call_requires(serialize_function, (self_bypass,)),
    ensures
        final(writer).skip_view() == old(writer).skip_view(),
        final(writer).start_name_view() == old(writer).start_name_view(),
        ({
            let name = match old(writer).start_name_view() {
                Some(n) => n,
                None => default_name@,
            };
            let skip = old(writer).skip_view();
            let first = if skip { 1int } else { 0int };
            let full = if skip { 1int } else { 3int };
            let tried = final(writer).attempted().skip(old(writer).attempted().len() as int);
            let kept = final(writer).written().skip(old(writer).written().len() as int);
            &&& old(writer).attempted().len() <= final(writer).attempted().len()
            &&& final(writer).attempted().take(old(writer).attempted().len() as int) == old(writer).attempted()
            &&& old(writer).written().len() <= final(writer).written().len()
            &&& final(writer).written().take(old(writer).written().len() as int) == old(writer).written()
            &&& 1 <= tried.len() <= full
            &&& (!skip ==> (tried[0] matches WriterEvent::StartElement { name: n, attributes, namespace } && n@ == name
                && attributes@.len() == 0 && namespace@.len() == 0))
            &&& (tried.len() > 1 - first ==> exists|text: String| #[trigger] call_ensures(serialize_function, (self_bypass,), text)
                && tried[1 - first] == WriterEvent::Characters(text))
            &&& (tried.len() == 3 ==> tried[2] == WriterEvent::EndElement { name: None })
            &&& match r {
                Ok(()) => tried.len() == full && kept == tried,
                Err(m) => kept == tried.drop_last() && m@ == text_element_failure(tried.len() - 1 + first, name),
            }
        }),
{
    let name = match writer.get_start_event_name() {
        Some(name) => name,
        None => String::from_str(default_name),
    };
    let ghost wa = writer.attempted();
    let ghost ww = writer.written();
    let skip = writer.skip_start_end();
    if !skip {
        let start = WriterEvent::StartElement { name: name.clone(), attributes: Vec::new(), namespace: Vec::new() };
        if writer.write(start).is_err() {
            let m = write_failure("Start element ", &name);
            proof {
                assert(writer.attempted().skip(wa.len() as int) =~= seq![writer.attempted().last()]);
                assert(writer.written().skip(ww.len() as int) =~= Seq::<WriterEvent>::empty());
                assert(writer.attempted().take(wa.len() as int) =~= wa);
                assert(writer.written().take(ww.len() as int) =~= ww);
            }
            return Err(m);
        }
    }
    let ghost wa1 = writer.attempted();
    let ghost ww1 = writer.written();
    let text = serialize_function(self_bypass);
    let ghost text_spec = text;
    if writer.write(WriterEvent::Characters(text)).is_err() {
        let m = write_failure("Element value ", &name);
        proof {
            assert(writer.attempted().skip(wa.len() as int) =~= wa1.skip(wa.len() as int).push(WriterEvent::Characters(text_spec)));
            assert(writer.written().skip(ww.len() as int) =~= ww1.skip(ww.len() as int));
            assert(writer.attempted().take(wa.len() as int) =~= wa);
            assert(writer.written().take(ww.len() as int) =~= ww);
            assert(call_ensures(serialize_function, (self_bypass,), text_spec));
        }
        return Err(m);
    }
    let ghost wa2 = writer.attempted();
    let ghost ww2 = writer.written();
    if !skip {
        if writer.write(WriterEvent::EndElement { name: None }).is_err() {
            let m = write_failure("End element ", &name);
            proof {
                assert(writer.attempted().skip(wa.len() as int) =~= wa2.skip(wa.len() as int).push(WriterEvent::EndElement { name: None }));
                assert(writer.written().skip(ww.len() as int) =~= ww2.skip(ww.len() as int));
                assert(writer.attempted().take(wa.len() as int) =~= wa);
                assert(writer.written().take(ww.len() as int) =~= ww);
                assert(call_ensures(serialize_function, (self_bypass,), text_spec));
            }
            return Err(m);
        }
    }
    proof {
        assert(writer.attempted().take(wa.len() as int) =~= wa);
        assert(writer.written().take(ww.len() as int) =~= ww);
        assert(writer.attempted().skip(wa.len() as int) =~= writer.written().skip(ww.len() as int)) by {
            if skip {
                assert(writer.attempted().skip(wa.len() as int) =~= seq![WriterEvent::Characters(text_spec)]);
                assert(writer.written().skip(ww.len() as int) =~= seq![WriterEvent::Characters(text_spec)]);
            } else {
                assert(writer.attempted().skip(wa.len() as int) =~= seq![wa1.last(), WriterEvent::Characters(text_spec), WriterEvent::EndElement { name: None }]);
                assert(writer.written().skip(ww.len() as int) =~= seq![ww1.last(), WriterEvent::Characters(text_spec), WriterEvent::EndElement { name: None }]);
                assert(wa1.last() == ww1.last());
            }
        }
        assert(call_ensures(serialize_function, (self_bypass,), text_spec));
    }
    Ok(())
}

fn write_failure(what: &str, name: &String) -> (m: String)
    ensures
        m@ == what@ + str_debug(name@) + " write failed"@,
{
    let mut message = String::from_str(what);
    let quoted = debug_quoted(name.as_str());
    message.append(quoted.as_str());
    message.append(" write failed");
    message
}

/// Reads a value that is the text of one element: the next event must be a start tag,
/// which is handed out; then the next event is read ahead (not handed out), and
/// `deserialize_function` turns it, when it is characters, or else the empty text, into the
/// value.
pub fn deserialize_primitives<S, F: FnOnce(&str) -> Result<S, String>>(
    reader: &mut Deserializer,
    deserialize_function: F,
) -> (r: Result<S, String>)
    requires
        old(reader).wf(),
        forall|text: &str| call_requires(deserialize_function, (text,)),
    ensures
        final(reader).wf(),
        ({
            let before = old(reader).consumed();
            let after = final(reader).consumed();
            if after.len() == before.len() {
                &&& after == before
                &&& r matches Err(m) && m@ == "Start element not found"@
                &&& {
                    ||| final(reader).peeked() matches Some(e) && !(e is StartElement)
                        && Deserializer::read_outcome(*old(reader), *final(reader), Ok(e))
                    ||| final(reader).peeked() is None && exists|m: Seq<char>|
                        #[trigger] Deserializer::read_outcome(*old(reader), *final(reader), Err(m))
                }
            } else {
                &&& after.len() == before.len() + 1
                &&& after.drop_last() == before
                &&& after.last() is StartElement
                &&& exists|k: int| #![trigger start_then_next(*old(reader), *final(reader), k)]
                    start_then_next(*old(reader), *final(reader), k)
                &&& exists|text: &str| #![trigger call_ensures(deserialize_function, (text,), r)] {
                    &&& call_ensures(deserialize_function, (text,), r)
                    &&& match final(reader).peeked() {
                        Some(ReaderEvent::Characters(t)) => text@ == t@,
                        _ => text@ == Seq::<char>::empty(),
                    }
                }
            }
        }),
{
    let ghost s0 = *reader;
    let is_start = match reader.peek() {
        Ok(ReaderEvent::StartElement { .. }) => true,
        Ok(_) => false,
        Err(message) => {
            proof {
                assert(Deserializer::read_outcome(s0, *reader, Err(message@)));
            }
            false
        },
    };
    if !is_start {
        return Err(String::from_str("Start element not found"));
    }
    let ghost s1 = *reader;
    let _start = reader.next_event();
    let ghost s2 = *reader;
    let ghost k = s1.pulled().len() as int;
    let r = match reader.peek() {
        Ok(ReaderEvent::Characters(text)) => deserialize_function(text.as_str()),
        _ => {
            let empty = "";
            proof {
                reveal_strlit("");
            }
            deserialize_function(empty)
        },
    };
    proof {
        assert(s2.pulled() == s1.pulled());
        assert(reader.pulled().take(k) == s2.pulled());
        assert(start_then_next(s0, *reader, k));
    }
    r
}

/// How the start tag that was handed out and the event read ahead after it came from the
/// parser, where the results received before the event read ahead are the first `k`: the
/// start tag is the event that was read ahead before, if any, else the next meaningful
/// result received from the parser; then the event read ahead, if any, is the next
/// meaningful result received, and when none is read ahead the parser failed.
pub open spec fn start_then_next(before: Deserializer, after: Deserializer, k: int) -> bool {
    let pulled = after.pulled();
    let start = after.consumed().last();
    &&& before.pulled().len() <= k <= pulled.len()
    &&& match before.peeked() {
        Some(p) => start == p && k == before.pulled().len(),
        None => pull_outcome(before.pulled(), pulled.take(k), Ok::<ReaderEvent, Seq<char>>(start)),
    }
    &&& match after.peeked() {
        Some(e) => pull_outcome(pulled.take(k), pulled, Ok::<ReaderEvent, Seq<char>>(e)),
        None => exists|m: Seq<char>| #[trigger] pull_outcome(pulled.take(k), pulled, Err::<ReaderEvent, Seq<char>>(m)),
    }
}

/// Hands `text` to the writer as characters; the writer may refuse it, and that is not
/// reported.
fn write_characters<W: Write>(writer: &mut Serializer<W>, text: String)
    ensures
        final(writer).attempted() == old(writer).attempted().push(WriterEvent::Characters(text)),
        final(writer).skip_view() == old(writer).skip_view(),
        final(writer).start_name_view() == old(writer).start_name_view(),
        final(writer).written() == old(writer).written()
            || final(writer).written() == old(writer).written().push(WriterEvent::Characters(text)),
{
    let _ret = writer.write(WriterEvent::Characters(text));
}

/// Whether `after` is `before`, or `before` followed by the characters `text`.
pub open spec fn wrote_text(before: Seq<WriterEvent>, after: Seq<WriterEvent>, text: Seq<char>) -> bool {
    ||| after == before
    ||| {
        &&& after.len() == before.len() + 1
        &&& after.drop_last() == before
        &&& after.last() matches WriterEvent::Characters(t) && t@ == text
    }
}

/// Whether `after` is `before` followed by the characters `text`.
pub open spec fn attempted_text(before: Seq<WriterEvent>, after: Seq<WriterEvent>, text: Seq<char>) -> bool {
    &&& after.len() == before.len() + 1
    &&& after.drop_last() == before
    &&& after.last() matches WriterEvent::Characters(t) && t@ == text
}

/// The text of a boolean.
pub fn format_bool(b: bool) -> (s: String)
    ensures
        s@ == bool_text(b),
{
    if b {
        String::from_str("true")
    } else {
        String::from_str("false")
    }
}

/// The text of a character: the character alone.
pub fn format_char(c: char) -> (s: String)
    ensures
        s@ == seq![c],
{
    let mut s = String::new();
    push_char(&mut s, c);
    s
}

impl YaSerialize for bool {
    /// Writes the value's text as characters; a refused write is not reported.
    fn serialize<W: Write>(&self, writer: &mut Serializer<W>) -> (r: Result<(), String>)
        ensures
            r is Ok,
            final(writer).skip_view() == old(writer).skip_view(),
            final(writer).start_name_view() == old(writer).start_name_view(),
            wrote_text(old(writer).written(), final(writer).written(), bool_text(*self)),
            attempted_text(old(writer).attempted(), final(writer).attempted(), bool_text(*self)),
    {
        let text = format_bool(*self);
        let ghost before = writer.written();
        let ghost before_attempts = writer.attempted();
        write_characters(writer, text);
        assert(writer.written() == before || writer.written().drop_last() =~= before);
        assert(writer.attempted().drop_last() =~= before_attempts);
        Ok(())
    }

    /// A value of this type adds no attributes and no bindings.
    fn serialize_attributes(
        &self,
        attributes: Vec<XmlAttribute>,
        namespace: Vec<(String, String)>,
    ) -> (r: Result<(Vec<XmlAttribute>, Vec<(String, String)>), String>)
        ensures
            r == Ok::<(Vec<XmlAttribute>, Vec<(String, String)>), String>((attributes, namespace)),
    {
        Ok((attributes, namespace))
    }
}

impl YaSerialize for char {
    /// Writes the value's text as characters; a refused write is not reported.
    fn serialize<W: Write>(&self, writer: &mut Serializer<W>) -> (r: Result<(), String>)
        ensures
            r is Ok,
            final(writer).skip_view() == old(writer).skip_view(),
            final(writer).start_name_view() == old(writer).start_name_view(),
            wrote_text(old(writer).written(), final(writer).written(), seq![*self]),
            attempted_text(old(writer).attempted(), final(writer).attempted(), seq![*self]),
    {
        let text = format_char(*self);
        let ghost before = writer.written();
        let ghost before_attempts = writer.attempted();
        write_characters(writer, text);
        assert(writer.written() == before || writer.written().drop_last() =~= before);
        assert(writer.attempted().drop_last() =~= before_attempts);
        Ok(())
    }

    /// A value of this type adds no attributes and no bindings.
    fn serialize_attributes(
        &self,
        attributes: Vec<XmlAttribute>,
        namespace: Vec<(String, String)>,
    ) -> (r: Result<(Vec<XmlAttribute>, Vec<(String, String)>), String>)
        ensures
            r == Ok::<(Vec<XmlAttribute>, Vec<(String, String)>), String>((attributes, namespace)),
    {
        Ok((attributes, namespace))
    }
}

impl YaSerialize for usize {
    /// Writes the value's text as characters; a refused write is not reported.
    fn serialize<W: Write>(&self, writer: &mut Serializer<W>) -> (r: Result<(), String>)
        ensures
            r is Ok,
            final(writer).skip_view() == old(writer).skip_view(),
            final(writer).start_name_view() == old(writer).start_name_view(),
            wrote_text(old(writer).written(), final(writer).written(), decimal_text(*self as int)),
            attempted_text(old(writer).attempted(), final(writer).attempted(), decimal_text(*self as int)),
    {
        let text = format_unsigned(*self as u64);
        let ghost before = writer.written();
        let ghost before_attempts = writer.attempted();
        write_characters(writer, text);
        assert(writer.written() == before || writer.written().drop_last() =~= before);
        assert(writer.attempted().drop_last() =~= before_attempts);
        Ok(())
    }

    /// A value of this type adds no attributes and no bindings.
    fn serialize_attributes(
        &self,
        attributes: Vec<XmlAttribute>,
        namespace: Vec<(String, String)>,
    ) -> (r: Result<(Vec<XmlAttribute>, Vec<(String, String)>), String>)
        ensures
            r == Ok::<(Vec<XmlAttribute>, Vec<(String, String)>), String>((attributes, namespace)),
    {
        Ok((attributes, namespace))
    }
}

impl YaSerialize for u8 {
    /// Writes the value's text as characters; a refused write is not reported.
    fn serialize<W: Write>(&self, writer: &mut Serializer<W>) -> (r: Result<(), String>)
        ensures
            r is Ok,
            final(writer).skip_view() == old(writer).skip_view(),
            final(writer).start_name_view() == old(writer).start_name_view(),
            wrote_text(old(writer).written(), final(writer).written(), decimal_text(*self as int)),
            attempted_text(old(writer).attempted(), final(writer).attempted(), decimal_text(*self as int)),
    {
        let text = format_unsigned(*self as u64);
        let ghost before = writer.written();
        let ghost before_attempts = writer.attempted();
        write_characters(writer, text);
        assert(writer.written() == before || writer.written().drop_last() =~= before);
        assert(writer.attempted().drop_last() =~= before_attempts);
        Ok(())
    }

    /// A value of this type adds no attributes and no bindings.
    fn serialize_attributes(
        &self,
        attributes: Vec<XmlAttribute>,
        namespace: Vec<(String, String)>,
    ) -> (r: Result<(Vec<XmlAttribute>, Vec<(String, String)>), String>)
        ensures
            r == Ok::<(Vec<XmlAttribute>, Vec<(String, String)>), String>((attributes, namespace)),
    {
        Ok((attributes, namespace))
    }
}

impl YaSerialize for u16 {
    /// Writes the value's text as characters; a refused write is not reported.
    fn serialize<W: Write>(&self, writer: &mut Serializer<W>) -> (r: Result<(), String>)
        ensures
            r is Ok,
            final(writer).skip_view() == old(writer).skip_view(),
            final(writer).start_name_view() == old(writer).start_name_view(),
            wrote_text(old(writer).written(), final(writer).written(), decimal_text(*self as int)),
            attempted_text(old(writer).attempted(), final(writer).attempted(), decimal_text(*self as int)),
    {
        let text = format_unsigned(*self as u64);
        let ghost before = writer.written();
        let ghost before_attempts = writer.attempted();
        write_characters(writer, text);
        assert(writer.written() == before || writer.written().drop_last() =~= before);
        assert(writer.attempted().drop_last() =~= before_attempts);
        Ok(())
    }

    /// A value of this type adds no attributes and no bindings.
    fn serialize_attributes(
        &self,
        attributes: Vec<XmlAttribute>,
        namespace: Vec<(String, String)>,
    ) -> (r: Result<(Vec<XmlAttribute>, Vec<(String, String)>), String>)
        ensures
            r == Ok::<(Vec<XmlAttribute>, Vec<(String, String)>), String>((attributes, namespace)),
    {
        Ok((attributes, namespace))
    }
}

impl YaSerialize for u32 {
    /// Writes the value's text as characters; a refused write is not reported.
    fn serialize<W: Write>(&self, writer: &mut Serializer<W>) -> (r: Result<(), String>)
        ensures
            r is Ok,
            final(writer).skip_view() == old(writer).skip_view(),
            final(writer).start_name_view() == old(writer).start_name_view(),
            wrote_text(old(writer).written(), final(writer).written(), decimal_text(*self as int)),
            attempted_text(old(writer).attempted(), final(writer).attempted(), decimal_text(*self as int)),
    {
        let text = format_unsigned(*self as u64);
        let ghost before = writer.written();
        let ghost before_attempts = writer.attempted();
        write_characters(writer, text);
        assert(writer.written() == before || writer.written().drop_last() =~= before);
        assert(writer.attempted().drop_last() =~= before_attempts);
        Ok(())
    }

    /// A value of this type adds no attributes and no bindings.
    fn serialize_attributes(
        &self,
        attributes: Vec<XmlAttribute>,
        namespace: Vec<(String, String)>,
    ) -> (r: Result<(Vec<XmlAttribute>, Vec<(String, String)>), String>)
        ensures
            r == Ok::<(Vec<XmlAttribute>, Vec<(String, String)>), String>((attributes, namespace)),
    {
        Ok((attributes, namespace))
    }
}

impl YaSerialize for u64 {
    /// Writes the value's text as characters; a refused write is not reported.
    fn serialize<W: Write>(&self, writer: &mut Serializer<W>) -> (r: Result<(), String>)
        ensures
            r is Ok,
            final(writer).skip_view() == old(writer).skip_view(),
            final(writer).start_name_view() == old(writer).start_name_view(),
            wrote_text(old(writer).written(), final(writer).written(), decimal_text(*self as int)),
            attempted_text(old(writer).attempted(), final(writer).attempted(), decimal_text(*self as int)),
    {
        let text = format_unsigned(*self as u64);
        let ghost before = writer.written();
        let ghost before_attempts = writer.attempted();
        write_characters(writer, text);
        assert(writer.written() == before || writer.written().drop_last() =~= before);
        assert(writer.attempted().drop_last() =~= before_attempts);
        Ok(())
    }

    /// A value of this type adds no attributes and no bindings.
    fn serialize_attributes(
        &self,
        attributes: Vec<XmlAttribute>,
        namespace: Vec<(String, String)>,
    ) -> (r: Result<(Vec<XmlAttribute>, Vec<(String, String)>), String>)
        ensures
            r == Ok::<(Vec<XmlAttribute>, Vec<(String, String)>), String>((attributes, namespace)),
    {
        Ok((attributes, namespace))
    }
}

impl YaSerialize for isize {
    /// Writes the value's text as characters; a refused write is not reported.
    fn serialize<W: Write>(&self, writer: &mut Serializer<W>) -> (r: Result<(), String>)
        ensures
            r is Ok,
            final(writer).skip_view() == old(writer).skip_view(),
            final(writer).start_name_view() == old(writer).start_name_view(),
            wrote_text(old(writer).written(), final(writer).written(), decimal_text(*self as int)),
            attempted_text(old(writer).attempted(), final(writer).attempted(), decimal_text(*self as int)),
    {
        let text = format_signed(*self as i64);
        let ghost before = writer.written();
        let ghost before_attempts = writer.attempted();
        write_characters(writer, text);
        assert(writer.written() == before || writer.written().drop_last() =~= before);
        assert(writer.attempted().drop_last() =~= before_attempts);
        Ok(())
    }

    /// A value of this type adds no attributes and no bindings.
    fn serialize_attributes(
        &self,
        attributes: Vec<XmlAttribute>,
        namespace: Vec<(String, String)>,
    ) -> (r: Result<(Vec<XmlAttribute>, Vec<(String, String)>), String>)
        ensures
            r == Ok::<(Vec<XmlAttribute>, Vec<(String, String)>), String>((attributes, namespace)),
    {
        Ok((attributes, namespace))
    }
}

impl YaSerialize for i8 {
    /// Writes the value's text as characters; a refused write is not reported.
    fn serialize<W: Write>(&self, writer: &mut Serializer<W>) -> (r: Result<(), String>)
        ensures
            r is Ok,
            final(writer).skip_view() == old(writer).skip_view(),
            final(writer).start_name_view() == old(writer).start_name_view(),
            wrote_text(old(writer).written(), final(writer).written(), decimal_text(*self as int)),
            attempted_text(old(writer).attempted(), final(writer).attempted(), decimal_text(*self as int)),
    {
        let text = format_signed(*self as i64);
        let ghost before = writer.written();
        let ghost before_attempts = writer.attempted();
        write_characters(writer, text);
        assert(writer.written() == before || writer.written().drop_last() =~= before);
        assert(writer.attempted().drop_last() =~= before_attempts);
        Ok(())
    }

    /// A value of this type adds no attributes and no bindings.
    fn serialize_attributes(
        &self,
        attributes: Vec<XmlAttribute>,
        namespace: Vec<(String, String)>,
    ) -> (r: Result<(Vec<XmlAttribute>, Vec<(String, String)>), String>)
        ensures
            r == Ok::<(Vec<XmlAttribute>, Vec<(String, String)>), String>((attributes, namespace)),
    {
        Ok((attributes, namespace))
    }
}

impl YaSerialize for i16 {
    /// Writes the value's text as characters; a refused write is not reported.
    fn serialize<W: Write>(&self, writer: &mut Serializer<W>) -> (r: Result<(), String>)
        ensures
            r is Ok,
            final(writer).skip_view() == old(writer).skip_view(),
            final(writer).start_name_view() == old(writer).start_name_view(),
            wrote_text(old(writer).written(), final(writer).written(), decimal_text(*self as int)),
            attempted_text(old(writer).attempted(), final(writer).attempted(), decimal_text(*self as int)),
    {
        let text = format_signed(*self as i64);
        let ghost before = writer.written();
        let ghost before_attempts = writer.attempted();
        write_characters(writer, text);
        assert(writer.written() == before || writer.written().drop_last() =~= before);
        assert(writer.attempted().drop_last() =~= before_attempts);
        Ok(())
    }

    /// A value of this type adds no attributes and no bindings.
    fn serialize_attributes(
        &self,
        attributes: Vec<XmlAttribute>,
        namespace: Vec<(String, String)>,
    ) -> (r: Result<(Vec<XmlAttribute>, Vec<(String, String)>), String>)
        ensures
            r == Ok::<(Vec<XmlAttribute>, Vec<(String, String)>), String>((attributes, namespace)),
    {
        Ok((attributes, namespace))
    }
}

impl YaSerialize for i32 {
    /// Writes the value's text as characters; a refused write is not reported.
    fn serialize<W: Write>(&self, writer: &mut Serializer<W>) -> (r: Result<(), String>)
        ensures
            r is Ok,
            final(writer).skip_view() == old(writer).skip_view(),
            final(writer).start_name_view() == old(writer).start_name_view(),
            wrote_text(old(writer).written(), final(writer).written(), decimal_text(*self as int)),
            attempted_text(old(writer).attempted(), final(writer).attempted(), decimal_text(*self as int)),
    {
        let text = format_signed(*self as i64);
        let ghost before = writer.written();
        let ghost before_attempts = writer.attempted();
        write_characters(writer, text);
        assert(writer.written() == before || writer.written().drop_last() =~= before);
        assert(writer.attempted().drop_last() =~= before_attempts);
        Ok(())
    }

    /// A value of this type adds no attributes and no bindings.
    fn serialize_attributes(
        &self,
        attributes: Vec<XmlAttribute>,
        namespace: Vec<(String, String)>,
    ) -> (r: Result<(Vec<XmlAttribute>, Vec<(String, String)>), String>)
        ensures
            r == Ok::<(Vec<XmlAttribute>, Vec<(String, String)>), String>((attributes, namespace)),
    {
        Ok((attributes, namespace))
    }
}

impl YaSerialize for i64 {
    /// Writes the value's text as characters; a refused write is not reported.
    fn serialize<W: Write>(&self, writer: &mut Serializer<W>) -> (r: Result<(), String>)
        ensures
            r is Ok,
            final(writer).skip_view() == old(writer).skip_view(),
            final(writer).start_name_view() == old(writer).start_name_view(),
            wrote_text(old(writer).written(), final(writer).written(), decimal_text(*self as int)),
            attempted_text(old(writer).attempted(), final(writer).attempted(), decimal_text(*self as int)),
    {
        let text = format_signed(*self as i64);
        let ghost before = writer.written();
        let ghost before_attempts = writer.attempted();
        write_characters(writer, text);
        assert(writer.written() == before || writer.written().drop_last() =~= before);
        assert(writer.attempted().drop_last() =~= before_attempts);
        Ok(())
    }

    /// A value of this type adds no attributes and no bindings.
    fn serialize_attributes(
        &self,
        attributes: Vec<XmlAttribute>,
        namespace: Vec<(String, String)>,
    ) -> (r: Result<(Vec<XmlAttribute>, Vec<(String, String)>), String>)
        ensures
            r == Ok::<(Vec<XmlAttribute>, Vec<(String, String)>), String>((attributes, namespace)),
    {
        Ok((attributes, namespace))
    }
}

} // verus!
