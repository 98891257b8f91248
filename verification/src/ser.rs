//! Writing events to an XML document.

use std::io::Write;
use vstd::prelude::*;
use crate::event::WriterEvent;
use crate::text::string_from_utf8;
use crate::YaSerialize;
use crate::xml_io::{
    document_writer, emit, fragment_writer, start_element, start_tag_event, with_attribute, with_namespace,
    writer_error_message, writer_event_to_xml, writer_into_inner,
};

verus! {

/// A serializer with nothing handed to its writer and no start tag name set, which leaves
/// out the start and end tags of the value it is given when `skip` holds.
pub open spec fn fresh_state(skip: bool) -> SerializerState {
    SerializerState {
        written: Seq::empty(),
        attempted: Seq::empty(),
        skip_start_end: skip,
        start_event_name: None,
    }
}

/// Writes `model` with `writer` (the type's `YaSerialize::serialize`), taking the serializer
/// and giving it back with the result. Nothing is stated of it: the type's writing is a
/// method with a type parameter of its own, and Verus fails on a `call_ensures` over such a
/// method, so what it gives back cannot be tied to the call here.
pub fn serialize_with<W: Write, T: YaSerialize>(model: &T, writer: Serializer<W>) -> (r: (Result<(), String>, Serializer<W>)) {
    let mut writer = writer;
    let result = model.serialize(&mut writer);
    (result, writer)
}

/// Whether writing `model` with a fresh serializer over a sink of type `W` (leaving out its
/// start and end tags when `skip` holds) can give back `sr`.
pub open spec fn wrote_model<W: Write, T: YaSerialize>(model: &T, skip: bool, sr: Result<(), String>) -> bool {
    exists|before: Serializer<W>, after: Serializer<W>|
        before.state() == fresh_state(skip) && #[trigger] call_ensures(serialize_with::<W, T>, (model, before), (sr, after))
}

/// The writer's outcome `sr` passed on as the result `r`: its error unchanged, else success.
pub open spec fn passed_on<X>(sr: Result<(), String>, r: Result<X, String>) -> bool {
    match sr {
        Ok(()) => r is Ok,
        Err(m) => r == Err::<X, String>(m),
    }
}

/// Whether `r` is the text result of writing that gave back `sr`: the writing's error
/// unchanged, else the text of the bytes written, refused only if they are not UTF-8.
pub open spec fn text_result(sr: Result<(), String>, r: Result<String, String>) -> bool {
    match sr {
        Ok(()) => r is Ok || (r matches Err(m) && m@ == "Found invalid UTF-8"@),
        Err(m) => r == Err::<String, String>(m),
    }
}

/// Writes `model` as an XML document, declaration included, and gives back its text.
pub fn to_string<T: YaSerialize>(model: &T) -> (r: Result<String, String>)
    ensures
        exists|sr: Result<(), String>| #[trigger] wrote_model::<Vec<u8>, T>(model, false, sr) && text_result(sr, r),
{
    let buffer: Vec<u8> = Vec::new();
    let written = serialize_with_writer(model, buffer);
    let ghost sr = choose|sr: Result<(), String>| #[trigger] wrote_model::<Vec<u8>, T>(model, false, sr) && passed_on(sr, written);
    let bytes = match written {
        Ok(bytes) => bytes,
        Err(message) => {
            assert(wrote_model::<Vec<u8>, T>(model, false, sr) && text_result(sr, Err::<String, String>(message)));
            return Err(message);
        },
    };
    let r = text_of(bytes);
    assert(wrote_model::<Vec<u8>, T>(model, false, sr) && text_result(sr, r));
    r
}

/// Writes `model` as an XML document, declaration included, to `writer`, and gives the
/// writer back. The value's writing is handed a fresh serializer that writes its start and
/// end tags; its error comes back unchanged.
pub fn serialize_with_writer<W: Write, T: YaSerialize>(model: &T, writer: W) -> (r: Result<W, String>)
    ensures
        exists|sr: Result<(), String>| #[trigger] wrote_model::<W, T>(model, false, sr) && passed_on(sr, r),
{
    let mut serializer = Serializer::new_from_writer(writer);
    let ghost start = serializer;
    assert(start.state() == fresh_state(false));
    let write = serialize_with::<W, T>;
    let (result, serializer) = write(model, serializer);
    assert(start.state() == fresh_state(false) && call_ensures(serialize_with::<W, T>, (model, start), (result, serializer)));
    assert(wrote_model::<W, T>(model, false, result));
    match result {
        Ok(()) => Ok(serializer.into_inner()),
        Err(msg) => Err(msg),
    }
}

/// Writes the content of `model`, without its own start and end tags and without a
/// declaration, and gives back its text.
pub fn to_string_content<T: YaSerialize>(model: &T) -> (r: Result<String, String>)
    ensures
        exists|sr: Result<(), String>| #[trigger] wrote_model::<Vec<u8>, T>(model, true, sr) && text_result(sr, r),
{
    let buffer: Vec<u8> = Vec::new();
    let written = serialize_with_writer_content(model, buffer);
    let ghost sr = choose|sr: Result<(), String>| #[trigger] wrote_model::<Vec<u8>, T>(model, true, sr) && passed_on(sr, written);
    let bytes = match written {
        Ok(bytes) => bytes,
        Err(message) => {
            assert(wrote_model::<Vec<u8>, T>(model, true, sr) && text_result(sr, Err::<String, String>(message)));
            return Err(message);
        },
    };
    let r = text_of(bytes);
    assert(wrote_model::<Vec<u8>, T>(model, true, sr) && text_result(sr, r));
    r
}

/// Writes the content of `model`, without its own start and end tags and without a
/// declaration, to `writer`, and gives the writer back. The value's writing is handed a
/// fresh serializer that leaves out its start and end tags; its error comes back unchanged.
pub fn serialize_with_writer_content<W: Write, T: YaSerialize>(model: &T, writer: W) -> (r: Result<W, String>)
    ensures
        exists|sr: Result<(), String>| #[trigger] wrote_model::<W, T>(model, true, sr) && passed_on(sr, r),
{
    let mut serializer = Serializer::new_for_inner(writer);
    serializer.set_skip_start_end(true);
    let ghost start = serializer;
    assert(start.state() == fresh_state(true));
    let write = serialize_with::<W, T>;
    let (result, serializer) = write(model, serializer);
    assert(start.state() == fresh_state(true) && call_ensures(serialize_with::<W, T>, (model, start), (result, serializer)));
    assert(wrote_model::<W, T>(model, true, result));
    match result {
        Ok(()) => Ok(serializer.into_inner()),
        Err(msg) => Err(msg),
    }
}

/// The text that written bytes hold; bytes that are not UTF-8 are refused.
pub fn text_of(bytes: Vec<u8>) -> (r: Result<String, String>)
    ensures
        r is Ok <==> vstd::utf8::valid_utf8(bytes@),
        r matches Ok(s) ==> s@ == vstd::utf8::decode_utf8(bytes@),
        r matches Err(m) ==> m@ == "Found invalid UTF-8"@,
{
    match string_from_utf8(bytes) {
        Some(text) => Ok(text),
        None => Err(String::from_str("Found invalid UTF-8")),
    }
}

/// Whether the builders `steps` come from adding, to the first of them, the `(name, value)`
/// pairs `pairs` in order, one pair at a time, each to the builder the previous step gave,
/// the pair being handed over as the strings `keys[i]` and `values[i]`: with
/// `StartElementBuilder::attr` when `bindings` is false, and as namespace bindings with
/// `StartElementBuilder::ns` when it is true.
spec fn builds_pairs<'a>(
    steps: Seq<xml::writer::events::StartElementBuilder<'a>>,
    pairs: Seq<(String, String)>,
    keys: Seq<&'a str>,
    values: Seq<&'a str>,
    bindings: bool,
) -> bool {
    &&& steps.len() == pairs.len() + 1
    &&& keys.len() == pairs.len()
    &&& values.len() == pairs.len()
    &&& forall|i: int|
        #![trigger pairs[i]]
        0 <= i < pairs.len() ==> keys[i]@ == pairs[i].0@ && values[i]@ == pairs[i].1@ && pair_step(
            steps[i],
            keys[i],
            values[i],
            steps[i + 1],
            bindings,
        )
}

/// Whether `after` is what adding the pair `(k, v)` to `before` gave: as a namespace binding
/// (`StartElementBuilder::ns`) when `bindings` holds, else as an attribute
/// (`StartElementBuilder::attr`).
spec fn pair_step<'a>(
    before: xml::writer::events::StartElementBuilder<'a>,
    k: &'a str,
    v: &'a str,
    after: xml::writer::events::StartElementBuilder<'a>,
    bindings: bool,
) -> bool {
    if bindings {
        call_ensures(with_namespace, (before, k, v), after)
    } else {
        call_ensures(with_attribute, (before, k, v), after)
    }
}

/// One more pair added to the last builder extends the steps by the builder it gave.
proof fn lemma_builds_pairs_push<'a>(
    steps: Seq<xml::writer::events::StartElementBuilder<'a>>,
    pairs: Seq<(String, String)>,
    keys: Seq<&'a str>,
    values: Seq<&'a str>,
    bindings: bool,
    next: xml::writer::events::StartElementBuilder<'a>,
    k: &'a str,
    v: &'a str,
    pair: (String, String),
)
    requires
        builds_pairs(steps, pairs, keys, values, bindings),
        k@ == pair.0@,
        v@ == pair.1@,
        pair_step(steps.last(), k, v, next, bindings),
    ensures
        builds_pairs(steps.push(next), pairs.push(pair), keys.push(k), values.push(v), bindings),
{
    let s2 = steps.push(next);
    let p2 = pairs.push(pair);
    assert forall|i: int| #![trigger p2[i]] 0 <= i < p2.len() implies keys.push(k)[i]@ == p2[i].0@
        && values.push(v)[i]@ == p2[i].1@ && pair_step(s2[i], keys.push(k)[i], values.push(v)[i], s2[i + 1], bindings) by {
        if i < pairs.len() {
            assert(p2[i] == pairs[i]);
            assert(s2[i + 1] == steps[i + 1]);
        }
    }
}

/// The writer event of a start tag named `name` with the attributes `attributes`, given as
/// (name, value) pairs, and the bindings `namespace`, given as (prefix, URI) pairs: a start
/// tag named `name` is begun, every attribute is added to it in order, then every binding in
/// order, each to the builder the previous step gave, and the last builder becomes the event.
fn start_tag<'a>(
    name: &'a String,
    attributes: &'a Vec<(String, String)>,
    namespace: &'a Vec<(String, String)>,
) -> (r: xml::writer::XmlEvent<'a>)
    ensures
        exists|
            steps: Seq<xml::writer::events::StartElementBuilder<'a>>,
            keys: Seq<&'a str>,
            values: Seq<&'a str>,
            more: Seq<xml::writer::events::StartElementBuilder<'a>>,
            prefixes: Seq<&'a str>,
            uris: Seq<&'a str>,
        |
            #![trigger builds_pairs(steps, attributes@, keys, values, false), builds_pairs(more, namespace@, prefixes, uris, true)]
        {
            &&& builds_pairs(steps, attributes@, keys, values, false)
            &&& builds_pairs(more, namespace@, prefixes, uris, true)
            &&& more[0] == steps.last()
            &&& (exists|n: &'a str| n@ == name@ && #[trigger] call_ensures(start_element, (n,), steps[0]))
            &&& call_ensures(start_tag_event, (more.last(),), r)
        },
{
    let begin = start_element;
    let n: &str = name.as_str();
    let mut builder = begin(n);
    let ghost mut steps = seq![builder];
    let ghost mut keys: Seq<&str> = Seq::empty();
    let ghost mut values: Seq<&str> = Seq::empty();
    assert(call_ensures(start_element, (n,), steps[0]));
    let mut i: usize = 0;
    while i < attributes.len()
        invariant
            i <= attributes@.len(),
            steps.len() == i + 1,
            steps.last() == builder,
            builds_pairs(steps, attributes@.take(i as int), keys, values, false),
            call_ensures(start_element, (n,), steps[0]),
        decreases attributes@.len() - i,
    {
        let (key, value) = &attributes[i];
        let attach = with_attribute;
        let k: &str = key.as_str();
        let v: &str = value.as_str();
        let ghost prev = builder;
        builder = attach(builder, k, v);
        proof {
            assert(call_ensures(with_attribute, (prev, k, v), builder));
            lemma_builds_pairs_push(steps, attributes@.take(i as int), keys, values, false, builder, k, v, attributes@[i as int]);
            assert(attributes@.take(i as int).push(attributes@[i as int]) =~= attributes@.take(i + 1));
            steps = steps.push(builder);
            keys = keys.push(k);
            values = values.push(v);
        }
        i = i + 1;
    }
    assert(attributes@.take(attributes@.len() as int) =~= attributes@);
    let ghost mut more = seq![builder];
    let ghost mut prefixes: Seq<&str> = Seq::empty();
    let ghost mut uris: Seq<&str> = Seq::empty();
    let mut j: usize = 0;
    while j < namespace.len()
        invariant
            j <= namespace@.len(),
            more.len() == j + 1,
            more.last() == builder,
            more[0] == steps.last(),
            builds_pairs(more, namespace@.take(j as int), prefixes, uris, true),
            builds_pairs(steps, attributes@, keys, values, false),
            call_ensures(start_element, (n,), steps[0]),
        decreases namespace@.len() - j,
    {
        let (prefix, uri) = &namespace[j];
        let bind = with_namespace;
        let p: &str = prefix.as_str();
        let u: &str = uri.as_str();
        let ghost prev = builder;
        builder = bind(builder, p, u);
        proof {
            assert(call_ensures(with_namespace, (prev, p, u), builder));
            lemma_builds_pairs_push(more, namespace@.take(j as int), prefixes, uris, true, builder, p, u, namespace@[j as int]);
            assert(namespace@.take(j as int).push(namespace@[j as int]) =~= namespace@.take(j + 1));
            more = more.push(builder);
            prefixes = prefixes.push(p);
            uris = uris.push(u);
        }
        j = j + 1;
    }
    assert(namespace@.take(namespace@.len() as int) =~= namespace@);
    let finish = start_tag_event;
    let ghost last = builder;
    let r = finish(builder);
    assert(call_ensures(start_tag_event, (last,), r));
    assert(more.last() == last);
    r
}

/// What can be known of a serializer: the events handed to its writer and those the writer
/// accepted, in order, and the settings that a type's serializer reads.
pub struct SerializerState {
    pub written: Seq<WriterEvent>,
    pub attempted: Seq<WriterEvent>,
    pub skip_start_end: bool,
    pub start_event_name: Option<Seq<char>>,
}

/// Writes events to an XML writer, and carries the settings that a type's serializer reads:
/// whether to leave out its own start and end tags, and the name to give its start tag.
#[verifier::reject_recursive_types(W)]
pub struct Serializer<W> {
    writer: xml::writer::EventWriter<W>,
    skip_start_end: bool,
    start_event_name: Option<String>,
    written: Ghost<Seq<WriterEvent>>,
    attempted: Ghost<Seq<WriterEvent>>,
}

impl<W: Write> Serializer<W> {
    /// The events the writer has accepted so far, in order.
    pub closed spec fn written(&self) -> Seq<WriterEvent> {
        self.written@
    }

    /// What can be known of this serializer.
    pub open spec fn state(&self) -> SerializerState {
        SerializerState {
            written: self.written(),
            attempted: self.attempted(),
            skip_start_end: self.skip_view(),
            start_event_name: self.start_name_view(),
        }
    }

    /// The events handed to the writer so far, in order, whether it accepted them or not.
    pub closed spec fn attempted(&self) -> Seq<WriterEvent> {
        self.attempted@
    }

    /// Whether a type's serializer is to leave out its own start and end tags.
    pub closed spec fn skip_view(&self) -> bool {
        self.skip_start_end
    }

    /// The name a type's serializer is to give its start tag, if one is set.
    pub closed spec fn start_name_view(&self) -> Option<Seq<char>> {
        self.start_event_name.deep_view()
    }

    /// A serializer over `writer`, with nothing written, start and end tags written and no
    /// start tag name set.
    pub fn new(writer: xml::writer::EventWriter<W>) -> (s: Self)
        ensures
            s.written() == Seq::<WriterEvent>::empty(),
            s.attempted() == Seq::<WriterEvent>::empty(),
            !s.skip_view(),
            s.start_name_view() is None,
    {
        Serializer {
            writer,
            skip_start_end: false,
            start_event_name: None,
            written: Ghost(Seq::empty()),
            attempted: Ghost(Seq::empty()),
        }
    }

    /// A serializer that writes a whole document, declaration included, to `writer`.
    pub fn new_from_writer(writer: W) -> (s: Self)
        ensures
            s.written() == Seq::<WriterEvent>::empty(),
            s.attempted() == Seq::<WriterEvent>::empty(),
            !s.skip_view(),
            s.start_name_view() is None,
    {
        Self::new(document_writer(writer))
    }

    /// A serializer that writes a fragment, without the document declaration, to `writer`.
    pub fn new_for_inner(writer: W) -> (s: Self)
        ensures
            s.written() == Seq::<WriterEvent>::empty(),
            s.attempted() == Seq::<WriterEvent>::empty(),
            !s.skip_view(),
            s.start_name_view() is None,
    {
        Self::new(fragment_writer(writer))
    }

    /// Gives back the sink that the text was written to.
    pub fn into_inner(self) -> W {
        writer_into_inner(self.writer)
    }

    pub fn skip_start_end(&self) -> (r: bool)
        ensures
            r == self.skip_view(),
    {
        self.skip_start_end
    }

    pub fn set_skip_start_end(&mut self, state: bool)
        ensures
            final(self).skip_view() == state,
            final(self).start_name_view() == old(self).start_name_view(),
            final(self).written() == old(self).written(),
            final(self).attempted() == old(self).attempted(),
    {
        self.skip_start_end = state;
    }

    pub fn get_start_event_name(&self) -> (r: Option<String>)
        ensures
            r.deep_view() == self.start_name_view(),
    {
        self.start_event_name.clone()
    }

    pub fn set_start_event_name(&mut self, name: Option<String>)
        ensures
            final(self).start_name_view() == name.deep_view(),
            final(self).skip_view() == old(self).skip_view(),
            final(self).written() == old(self).written(),
            final(self).attempted() == old(self).attempted(),
    {
        self.start_event_name = name;
    }

    /// Hands one event to the writer; the event joins the written ones exactly when the writer
    /// accepts it.
    pub fn write(&mut self, event: WriterEvent) -> (r: Result<(), xml::writer::Error>)
        ensures
            final(self).attempted() == old(self).attempted().push(event),
            final(self).skip_view() == old(self).skip_view(),
            final(self).start_name_view() == old(self).start_name_view(),
            r is Ok ==> final(self).written() == old(self).written().push(event),
            r is Err ==> final(self).written() == old(self).written(),
    {
        let xml_event = match &event {
            WriterEvent::StartElement { name, attributes, namespace } => start_tag(name, attributes, namespace),
            other => writer_event_to_xml(other),
        };
        let result = emit(&mut self.writer, xml_event);
        self.attempted = Ghost(self.attempted@.push(event));
        if result.is_ok() {
            self.written = Ghost(self.written@.push(event));
        }
        result
    }
}

/// Whether a struct written with `writer` writes its own start and end tags: unless it is
/// flattened, or the serializer says to leave them out.
pub fn writes_own_tags<W: Write>(writer: &Serializer<W>, flatten: bool) -> (r: bool)
    ensures
        r == (!flatten && !writer.skip_view()),
{
    !flatten && !writer.skip_start_end()
}

/// The name a struct's start tag gets from a serializer whose start tag name is `start_name`:
/// that name if one is set, else `root`.
pub open spec fn struct_tag_name(start_name: Option<Seq<char>>, root: Seq<char>) -> Seq<char> {
    match start_name {
        Some(n) => n,
        None => root,
    }
}

/// Starts the element of a struct. When the struct writes its own tags (see
/// `writes_own_tags`), a start tag named as `struct_tag_name` says, with `attributes` and the
/// bindings `namespace`, is handed to the writer, and the result says whether it was
/// accepted, with the writer's error text if not; otherwise nothing is written and the
/// result is `Ok(false)`.
pub fn write_struct_start<W: Write>(
    writer: &mut Serializer<W>,
    root: &str,
    flatten: bool,
    attributes: Vec<(String, String)>,
    namespace: Vec<(String, String)>,
) -> (r: Result<bool, String>)
    ensures
        final(writer).skip_view() == old(writer).skip_view(),
        final(writer).start_name_view() == old(writer).start_name_view(),
        flatten || old(writer).skip_view() ==> {
            &&& r == Ok::<bool, String>(false)
            &&& final(writer).attempted() == old(writer).attempted()
            &&& final(writer).written() == old(writer).written()
        },
        !(flatten || old(writer).skip_view()) ==> {
            let event = final(writer).attempted().last();
            &&& final(writer).attempted() == old(writer).attempted().push(event)
            &&& event matches WriterEvent::StartElement { name: n, attributes: a, namespace: ns }
                && n@ == struct_tag_name(old(writer).start_name_view(), root@) && a == attributes && ns == namespace
            &&& match r {
                Ok(b) => b && final(writer).written() == old(writer).written().push(event),
                Err(m) => final(writer).written() == old(writer).written() && "emitter error: "@.is_prefix_of(m@),
            }
        },
{
    if !writes_own_tags(writer, flatten) {
        return Ok(false);
    }
    let name = match writer.get_start_event_name() {
        Some(name) => name,
        None => String::from_str(root),
    };
    match writer.write(WriterEvent::StartElement { name, attributes, namespace }) {
        Ok(()) => Ok(true),
        Err(error) => Err(writer_error_message(error)),
    }
}

/// Ends the element of a struct: when its start tag was written (`wrote_start`), an end tag
/// is handed to the writer, and the result says whether it was accepted, with the writer's
/// error text if not; otherwise nothing is written.
pub fn write_struct_end<W: Write>(writer: &mut Serializer<W>, wrote_start: bool) -> (r: Result<(), String>)
    ensures
        final(writer).skip_view() == old(writer).skip_view(),
        final(writer).start_name_view() == old(writer).start_name_view(),
        !wrote_start ==> {
            &&& r is Ok
            &&& final(writer).attempted() == old(writer).attempted()
            &&& final(writer).written() == old(writer).written()
        },
        wrote_start ==> {
            let event = WriterEvent::EndElement { name: None };
            &&& final(writer).attempted() == old(writer).attempted().push(event)
            &&& match r {
                Ok(()) => final(writer).written() == old(writer).written().push(event),
                Err(m) => final(writer).written() == old(writer).written() && "emitter error: "@.is_prefix_of(m@),
            }
        },
{
    if !wrote_start {
        return Ok(());
    }
    match writer.write(WriterEvent::EndElement { name: None }) {
        Ok(()) => Ok(()),
        Err(error) => Err(writer_error_message(error)),
    }
}

} // verus!
