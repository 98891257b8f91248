//! Pulling events from an XML document, one element at a time.

use std::io::Read;
use vstd::prelude::*;
use vstd::string::StringSliceAdditionalSpecFns;
use crate::event::{counts_in_range, depth_after, lemma_depth_after_counts, open_count, same_name, NameView, ReaderEvent, XmlName};
use crate::YaDeserialize;
use crate::event::XmlAttribute;
use crate::xml_io::{
    attribute_from_xml, configured_source, error_message, event_from_xml, name_from_xml, pull_event, ParsedEvent,
    XmlSource,
};

verus! {

/// Reads a value of type `T` with `reader` (the type's `YaDeserialize::deserialize`), taking
/// the deserializer and giving it back with the result.
pub fn deserialize_with<'a, T: YaDeserialize>(reader: Deserializer<'a>) -> (r: (Result<T, String>, Deserializer<'a>))
    requires
        reader.wf(),
    ensures
        r.1.wf(),
        exists|m: &mut Deserializer<'a>|
            *m == reader && *final(m) == r.1 && #[trigger] call_ensures(T::deserialize, (m,), r.0),
{
    let mut reader = reader;
    let ghost before = reader;
    let read = T::deserialize;
    let value = read(&mut reader);
    let ghost after = reader;
    // the deserializer that was handed to the reading is the one given, and it comes back
    assert(exists|x: &mut Deserializer<'a>|
        *x == before && *final(x) == after && #[trigger] call_ensures(T::deserialize, (x,), value));
    let ghost handed = choose|x: &mut Deserializer<'a>|
        *x == before && *final(x) == after && #[trigger] call_ensures(T::deserialize, (x,), value);
    let r = (value, reader);
    assert(*handed == before && *final(handed) == r.1 && call_ensures(T::deserialize, (handed,), r.0));
    r
}

/// Reads a value of type `T` from the XML text `s`: what reading it from the bytes of `s`
/// gives, which is what the type's reading gives on a fresh deserializer.
pub fn from_str<T: YaDeserialize>(s: &str) -> (r: Result<T, String>)
    ensures
        exists|bytes: &[u8]| bytes@ == s.spec_bytes() && #[trigger] call_ensures(from_reader::<&[u8], T>, (bytes,), r),
        exists|m: &mut Deserializer| (*m).is_fresh() && #[trigger] call_ensures(T::deserialize, (m,), r),
{
    let bytes = s.as_bytes();
    let read = from_reader::<&[u8], T>;
    let r = read(bytes);
    assert(bytes@ == s.spec_bytes() && call_ensures(from_reader::<&[u8], T>, (bytes,), r));
    r
}

/// Reads a value of type `T` from the XML text that `reader` yields: the type's reading is
/// handed a deserializer with nothing read yet, and what it gives back comes back unchanged.
pub fn from_reader<'a, R: Read + 'a, T: YaDeserialize>(reader: R) -> (r: Result<T, String>)
    ensures
        exists|m: &mut Deserializer<'a>| (*m).is_fresh() && #[trigger] call_ensures(T::deserialize, (m,), r),
{
    let deserializer = Deserializer::new_from_reader(reader);
    let (r, _after) = deserialize_with::<T>(deserializer);
    r
}

/// The attributes that the parser read, in order, in the library's attribute type.
fn attributes_from_xml(raw: Vec<xml::attribute::OwnedAttribute>) -> (r: Vec<XmlAttribute>)
    ensures
        r@.len() == raw@.len(),
{
    let mut raw = raw;
    let ghost n = raw@.len();
    let mut converted: Vec<XmlAttribute> = Vec::new();
    while raw.len() > 0
        invariant
            converted@.len() + raw@.len() == n,
        decreases raw@.len(),
    {
        let attribute = raw.remove(0);
        converted.push(attribute_from_xml(attribute));
    }
    converted
}

/// A result of reading, with the error message as characters.
pub open spec fn result_view(r: Result<ReaderEvent, String>) -> Result<ReaderEvent, Seq<char>> {
    match r {
        Ok(e) => Ok(e),
        Err(m) => Err(m@),
    }
}

/// Whether every result in `s` is a declaration, an instruction or a comment.
pub open spec fn all_ignorable(s: Seq<Result<ReaderEvent, Seq<char>>>) -> bool {
    forall|i: int| 0 <= i < s.len() ==> (#[trigger] s[i] matches Ok(e) && e.is_ignorable())
}

/// What reading the next meaningful event did, from the results received from the parser
/// before (`before`) and after (`after`): the results received meanwhile are declarations,
/// instructions or comments, and then the result given back, which is an event of another
/// kind or the parser's error; or, after `u64::MAX` results of those kinds, reading gives up.
pub open spec fn pull_outcome(
    before: Seq<Result<ReaderEvent, Seq<char>>>,
    after: Seq<Result<ReaderEvent, Seq<char>>>,
    r: Result<ReaderEvent, Seq<char>>,
) -> bool {
    let added = after.skip(before.len() as int);
    &&& before.len() <= after.len()
    &&& after.take(before.len() as int) == before
    &&& {
        ||| {
            &&& added.len() >= 1
            &&& all_ignorable(added.drop_last())
            &&& added.last() == r
            &&& (r matches Ok(e) ==> !e.is_ignorable())
        }
        ||| {
            &&& r == Err::<ReaderEvent, Seq<char>>("event limit reached"@)
            &&& all_ignorable(added)
            &&& added.len() == u64::MAX
        }
    }
}

/// The results in `s` that are not declarations, instructions or comments, in order.
pub open spec fn meaningful(s: Seq<Result<ReaderEvent, Seq<char>>>) -> Seq<Result<ReaderEvent, Seq<char>>>
    decreases s.len(),
{
    if s.len() == 0 {
        s
    } else if s.last() matches Ok(e) && e.is_ignorable() {
        meaningful(s.drop_last())
    } else {
        meaningful(s.drop_last()).push(s.last())
    }
}

/// Results that are all ignorable add nothing meaningful.
proof fn lemma_meaningful_ignorable(s: Seq<Result<ReaderEvent, Seq<char>>>, added: Seq<Result<ReaderEvent, Seq<char>>>)
    requires
        all_ignorable(added),
    ensures
        meaningful(s + added) == meaningful(s),
    decreases added.len(),
{
    if added.len() > 0 {
        assert((s + added).drop_last() =~= s + added.drop_last());
        assert(all_ignorable(added.drop_last()));
        lemma_meaningful_ignorable(s, added.drop_last());
        assert((s + added).last() == added.last());
        assert(added[added.len() - 1] == added.last());
    } else {
        assert(s + added =~= s);
    }
}

/// The meaningful results of a prefix are a prefix of the meaningful results of the whole.
proof fn lemma_meaningful_prefix(s: Seq<Result<ReaderEvent, Seq<char>>>, j: int)
    requires
        0 <= j <= s.len(),
    ensures
        meaningful(s.take(j)).len() <= meaningful(s).len(),
        meaningful(s.take(j)) == meaningful(s).take(meaningful(s.take(j)).len() as int),
    decreases s.len() - j,
{
    if j == s.len() {
        assert(s.take(j) =~= s);
        assert(meaningful(s).take(meaningful(s).len() as int) =~= meaningful(s));
    } else {
        lemma_meaningful_prefix(s, j + 1);
        let t = s.take(j + 1);
        assert(t.drop_last() =~= s.take(j));
        let m = meaningful(s);
        let mt = meaningful(t);
        let mj = meaningful(s.take(j));
        if t.last() matches Ok(e) && e.is_ignorable() {
            assert(mj == mt);
        } else {
            assert(mt == mj.push(t.last()));
            assert(m.take(mj.len() as int) =~= m.take(mt.len() as int).take(mj.len() as int));
            assert(mt.take(mj.len() as int) =~= mj);
        }
    }
}

/// A read that did not give up adds exactly its result to the meaningful results.
proof fn lemma_pull_adds_result(
    before: Seq<Result<ReaderEvent, Seq<char>>>,
    after: Seq<Result<ReaderEvent, Seq<char>>>,
    r: Result<ReaderEvent, Seq<char>>,
)
    requires
        pull_outcome(before, after, r),
        after.len() - before.len() < u64::MAX,
    ensures
        meaningful(after) == meaningful(before).push(r),
{
    let added = after.skip(before.len() as int);
    assert(after =~= before + added);
    assert(after.drop_last() =~= before + added.drop_last());
    lemma_meaningful_ignorable(before, added.drop_last());
    assert(after.last() == added.last());
}

/// Declarations, processing instructions and comments never decide what a read gives back.
/// Take two streams of parser results whose other results are the same, and a read on
/// each, started where both have seen the same other results: where neither read gives
/// up, both give back the same result, and afterwards both have again seen the same other
/// results. So two documents that differ only by such events are read alike, read after
/// read.
pub proof fn law_ignorable_events_read_alike(
    stream1: Seq<Result<ReaderEvent, Seq<char>>>,
    stream2: Seq<Result<ReaderEvent, Seq<char>>>,
    i1: int,
    j1: int,
    i2: int,
    j2: int,
    r1: Result<ReaderEvent, Seq<char>>,
    r2: Result<ReaderEvent, Seq<char>>,
)
    requires
        meaningful(stream1) == meaningful(stream2),
        0 <= i1 <= j1 <= stream1.len(),
        0 <= i2 <= j2 <= stream2.len(),
        meaningful(stream1.take(i1)) == meaningful(stream2.take(i2)),
        pull_outcome(stream1.take(i1), stream1.take(j1), r1),
        pull_outcome(stream2.take(i2), stream2.take(j2), r2),
        j1 - i1 < u64::MAX,
        j2 - i2 < u64::MAX,
    ensures
        r1 == r2,
        meaningful(stream1.take(j1)) == meaningful(stream2.take(j2)),
{
    lemma_pull_adds_result(stream1.take(i1), stream1.take(j1), r1);
    lemma_pull_adds_result(stream2.take(i2), stream2.take(j2), r2);
    lemma_meaningful_prefix(stream1, j1);
    lemma_meaningful_prefix(stream2, j2);
    let m = meaningful(stream1);
    let k = meaningful(stream1.take(i1)).len() as int;
    assert(meaningful(stream1.take(j1))[k] == r1);
    assert(meaningful(stream2.take(j2))[k] == r2);
    assert(m[k] == r1);
    assert(m[k] == r2);
}

/// What is done with one result received from the parser: a declaration, an instruction or
/// a comment is passed over (`None`); any other event, and an error, is given back.
pub fn pull_step(pulled: Result<ReaderEvent, String>) -> (r: Option<Result<ReaderEvent, String>>)
    ensures
        r == (if (pulled matches Ok(e) && e.is_ignorable()) {
            None
        } else {
            Some(pulled)
        }),
{
    match pulled {
        Ok(ReaderEvent::StartDocument) | Ok(ReaderEvent::ProcessingInstruction { .. }) | Ok(ReaderEvent::Comment(_)) => None,
        other => Some(other),
    }
}

/// The library's event for an event read by the parser.
fn event_of(raw: xml::reader::XmlEvent) -> ReaderEvent {
    match event_from_xml(raw) {
        ParsedEvent::Start { name, attributes, namespace } => ReaderEvent::StartElement {
            name: name_from_xml(name),
            attributes: attributes_from_xml(attributes),
            namespace,
        },
        ParsedEvent::End { name } => ReaderEvent::EndElement { name: name_from_xml(name) },
        ParsedEvent::Other(event) => event,
    }
}

/// Reads events from an XML parser with one event of look-ahead, and counts how deep in
/// the element tree the events it has handed out have gone.
pub struct Deserializer<'a> {
    depth: usize,
    source: XmlSource<'a>,
    peeked: Option<ReaderEvent>,
    consumed: Ghost<Seq<ReaderEvent>>,
    pulled: Ghost<Seq<Result<ReaderEvent, Seq<char>>>>,
}

impl<'a> Deserializer<'a> {
    /// The depth is the one the handed-out events lead to from zero.
    pub closed spec fn wf(&self) -> bool {
        &&& self.depth as nat == depth_after(0, self.consumed@)
        &&& self.peeked matches Some(e) ==> !e.is_ignorable()
    }

    /// Whether nothing has been read yet: well-formed, at depth zero, with nothing read
    /// ahead, handed out or received from the parser.
    pub open spec fn is_fresh(&self) -> bool {
        &&& self.wf()
        &&& self.depth_view() == 0
        &&& self.peeked() is None
        &&& self.consumed() == Seq::<ReaderEvent>::empty()
        &&& self.pulled() == Seq::<Result<ReaderEvent, Seq<char>>>::empty()
    }

    /// The events handed out by `next_event` so far, in order.
    pub closed spec fn consumed(&self) -> Seq<ReaderEvent> {
        self.consumed@
    }

    /// The current element depth.
    pub closed spec fn depth_view(&self) -> nat {
        self.depth as nat
    }

    /// The event read ahead and not handed out yet, if any.
    pub closed spec fn peeked(&self) -> Option<ReaderEvent> {
        self.peeked
    }

    /// What has been received from the parser so far, in order: each event, as the library's
    /// event, or the message of the parser's error.
    pub closed spec fn pulled(&self) -> Seq<Result<ReaderEvent, Seq<char>>> {
        self.pulled@
    }

    /// A deserializer over `source`, at depth zero, with nothing read.
    pub fn new(source: XmlSource<'a>) -> (d: Self)
        ensures
            d.wf(),
            d.depth_view() == 0,
            d.peeked() is None,
            d.consumed() == Seq::<ReaderEvent>::empty(),
            d.pulled() == Seq::<Result<ReaderEvent, Seq<char>>>::empty(),
    {
        Deserializer { depth: 0, source, peeked: None, consumed: Ghost(Seq::empty()), pulled: Ghost(Seq::empty()) }
    }

    /// A deserializer over the XML text that `reader` yields.
    pub fn new_from_reader<R: Read + 'a>(reader: R) -> (d: Self)
        ensures
            d.wf(),
            d.depth_view() == 0,
            d.peeked() is None,
            d.consumed() == Seq::<ReaderEvent>::empty(),
            d.pulled() == Seq::<Result<ReaderEvent, Seq<char>>>::empty(),
    {
        Self::new(configured_source(reader))
    }

    /// Pulls events from the parser, passing over the document declaration, processing
    /// instructions and comments, and gives back the first other event; a parse error comes
    /// back as its message.
    pub fn inner_next(&mut self) -> (r: Result<ReaderEvent, String>)
        requires
            old(self).wf(),
        ensures
            final(self).wf(),
            final(self).depth_view() == old(self).depth_view(),
            final(self).peeked() == old(self).peeked(),
            final(self).consumed() == old(self).consumed(),
            pull_outcome(old(self).pulled(), final(self).pulled(), result_view(r)),
    {
        let mut fuel: u64 = u64::MAX;
        let ghost start = self.pulled@;
        loop
            invariant
                self.wf(),
                self.depth == old(self).depth,
                self.peeked == old(self).peeked,
                self.consumed == old(self).consumed,
                start == old(self).pulled(),
                start.len() <= self.pulled@.len(),
                self.pulled@.take(start.len() as int) == start,
                all_ignorable(self.pulled@.skip(start.len() as int)),
                self.pulled@.len() - start.len() == u64::MAX - fuel,
            decreases fuel,
        {
            if fuel == 0 {
                return Err("event limit reached".to_string());
            }
            fuel = fuel - 1;
            let pulled: Result<ReaderEvent, String> = match pull_event(&mut self.source) {
                Ok(raw) => Ok(event_of(raw)),
                Err(error) => Err(error_message(error)),
            };
            let ghost before = self.pulled@;
            let ghost received = result_view(pulled);
            self.pulled = Ghost(before.push(received));
            proof {
                assert(self.pulled@.take(start.len() as int) =~= start);
                assert(self.pulled@.skip(start.len() as int) =~= before.skip(start.len() as int).push(received));
                assert(self.pulled@.skip(start.len() as int).drop_last() =~= before.skip(start.len() as int));
            }
            match pull_step(pulled) {
                None => {},
                Some(result) => {
                    return result;
                },
            }
        }
    }

    /// What `peek` does, given the event it returns (`None` for an error): nothing is handed
    /// out and the depth stays; the event returned is read ahead (the one already read ahead,
    /// if any) and is never a declaration, instruction or comment; an error only comes when
    /// nothing was read ahead, and leaves nothing read ahead.
    pub open spec fn peek_outcome(before: Self, after: Self, result: Option<ReaderEvent>) -> bool {
        &&& after.depth_view() == before.depth_view()
        &&& after.consumed() == before.consumed()
        &&& match result {
            Some(e) => {
                &&& after.peeked() == Some(e)
                &&& !e.is_ignorable()
                &&& before.peeked() matches Some(p) ==> e == p
            },
            None => before.peeked() is None && after.peeked() is None,
        }
    }

    /// What `next_event` does, given the event it returns (`None` for an error): nothing is
    /// left read ahead; the event handed out is the one read ahead, if any, joins the handed-out
    /// events and moves the depth; an error only comes when nothing was read ahead, and hands
    /// nothing out.
    pub open spec fn next_outcome(before: Self, after: Self, result: Option<ReaderEvent>) -> bool {
        &&& after.peeked() is None
        &&& match result {
            Some(e) => {
                &&& !e.is_ignorable()
                &&& before.peeked() matches Some(p) ==> e == p
                &&& after.consumed() == before.consumed().push(e)
                &&& after.depth_view() == e.depth_step(before.depth_view())
            },
            None => {
                &&& before.peeked() is None
                &&& after.consumed() == before.consumed()
                &&& after.depth_view() == before.depth_view()
            },
        }
    }

    /// Where the event that `peek` or `next_event` gives back comes from: the event read
    /// ahead, if any, with nothing received from the parser; else the next meaningful
    /// result received from the parser, as `inner_next` gives it.
    pub open spec fn read_outcome(before: Self, after: Self, r: Result<ReaderEvent, Seq<char>>) -> bool {
        match before.peeked() {
            Some(p) => r == Ok::<ReaderEvent, Seq<char>>(p) && after.pulled() == before.pulled(),
            None => pull_outcome(before.pulled(), after.pulled(), r),
        }
    }

    /// Whether a read made after `before` failed with `m`, leaving the deserializer as
    /// `after`: from some point at or after the results that `before` had received, the
    /// parser gave declarations, instructions or comments and then the error `m`, or reading
    /// gave up with `m` after `u64::MAX` of them.
    pub open spec fn pull_failed_since(before: Self, after: Self, m: Seq<char>) -> bool {
        exists|k: int|
            before.pulled().len() <= k <= after.pulled().len() && #[trigger] pull_outcome(
                after.pulled().take(k),
                after.pulled(),
                Err::<ReaderEvent, Seq<char>>(m),
            )
    }

    /// The next event, read ahead without handing it out: a second call gives the same
    /// event back until `next_event` takes it.
    pub fn peek(&mut self) -> (r: Result<&ReaderEvent, String>)
        requires
            old(self).wf(),
        ensures
            final(self).wf(),
            Self::peek_outcome(*old(self), *final(self), match r {
                Ok(e) => Some(*e),
                Err(_) => None,
            }),
            Self::read_outcome(*old(self), *final(self), match r {
                Ok(e) => Ok(*e),
                Err(m) => Err(m@),
            }),
    {
        if self.peeked.is_none() {
            let event = self.inner_next()?;
            self.peeked = Some(event);
        }
        match &self.peeked {
            Some(next) => Ok(next),
            None => Err("unable to peek next item".to_string()),
        }
    }

    /// Hands out the next event (the one read ahead, if any) and moves the depth by it.
    pub fn next_event(&mut self) -> (r: Result<ReaderEvent, String>)
        requires
            old(self).wf(),
        ensures
            final(self).wf(),
            Self::next_outcome(*old(self), *final(self), match r {
                Ok(e) => Some(e),
                Err(_) => None,
            }),
            Self::read_outcome(*old(self), *final(self), result_view(r)),
            r matches Err(m) ==> Self::pull_failed_since(*old(self), *final(self), m@),
    {
        let next_event = match self.peeked.take() {
            Some(peeked) => peeked,
            None => match self.inner_next() {
                Ok(event) => event,
                Err(message) => {
                    proof {
                        let k = old(self).pulled@.len() as int;
                        assert(self.pulled@.take(k) == old(self).pulled@);
                        assert(pull_outcome(self.pulled@.take(k), self.pulled@, Err::<ReaderEvent, Seq<char>>(message@)));
                    }
                    return Err(message);
                },
            },
        };
        match next_event {
            ReaderEvent::StartElement { .. } => {
                if self.depth < usize::MAX {
                    self.depth = self.depth + 1;
                }
            },
            ReaderEvent::EndElement { .. } => {
                if self.depth > 0 {
                    self.depth = self.depth - 1;
                }
            },
            _ => {},
        }
        let ghost before = self.consumed@;
        self.consumed = Ghost(before.push(next_event));
        assert(self.consumed@.drop_last() =~= before);
        Ok(next_event)
    }

    /// The current element depth.
    pub fn depth(&self) -> (r: usize)
        ensures
            r == self.depth_view(),
    {
        self.depth
    }

    /// What a failed `skip_element` did: it handed out `handed` and moved the depth by them,
    /// without ever going above the element that was open; its last read failed with nothing
    /// read ahead, so nothing is left read ahead, and an event that was read ahead was handed
    /// out first.
    pub open spec fn skip_failure(before: Self, after: Self, handed: Seq<ReaderEvent>) -> bool {
        &&& after.consumed() == before.consumed() + handed
        &&& after.depth_view() == depth_after(before.depth_view(), handed)
        &&& forall|k: int|
            0 <= k <= handed.len() ==> depth_after(before.depth_view(), #[trigger] handed.take(k))
                >= before.depth_view()
        &&& after.peeked() is None
        &&& before.peeked() is Some ==> handed.len() > 0
    }

    /// Hands out events until the element that is open at the current depth has closed, and
    /// gives them back in order; the last one is that element's end tag.
    pub fn skip_element(&mut self) -> (r: Result<Vec<ReaderEvent>, String>)
        requires
            old(self).wf(),
        ensures
            final(self).wf(),
            r matches Ok(skipped) ==> {
                &&& old(self).depth_view() > 0
                &&& skipped@.len() > 0
                &&& final(self).consumed() == old(self).consumed() + skipped@
                &&& final(self).depth_view() == old(self).depth_view() - 1
                &&& depth_after(old(self).depth_view(), skipped@) == final(self).depth_view()
                &&& forall|k: int|
                    0 <= k < skipped@.len() ==> depth_after(old(self).depth_view(), #[trigger] skipped@.take(k))
                        >= old(self).depth_view()
            },
            r matches Err(m) ==> exists|handed: Seq<ReaderEvent>| #[trigger]
                Self::skip_failure(*old(self), *final(self), handed) && {
                    ||| handed.len() == u64::MAX && m@ == "event limit reached"@
                    ||| Self::pull_failed_since(*old(self), *final(self), m@)
                },
    {
        let depth = self.depth;
        let mut skipped: Vec<ReaderEvent> = Vec::new();
        let mut fuel: u64 = u64::MAX;
        assert(skipped@.take(0) =~= skipped@);
        loop
            invariant
                self.wf(),
                depth == old(self).depth,
                self.consumed() == old(self).consumed() + skipped@,
                self.depth_view() == depth_after(depth as nat, skipped@),
                forall|k: int|
                    0 <= k < skipped@.len() ==> depth_after(depth as nat, #[trigger] skipped@.take(k)) >= depth,
                skipped@.len() == u64::MAX - fuel,
                skipped@.len() == 0 ==> self.peeked() == old(self).peeked(),
                skipped@.len() > 0 ==> self.peeked() is None,
                old(self).pulled().len() <= self.pulled().len(),
            ensures
                self.depth < depth,
            decreases fuel,
        {
            if self.depth < depth {
                break;
            }
            proof {
                assert(skipped@.take(skipped@.len() as int) =~= skipped@);
            }
            if fuel == 0 {
                assert(Self::skip_failure(*old(self), *self, skipped@));
                return Err("event limit reached".to_string());
            }
            fuel = fuel - 1;
            let ghost before = skipped@;
            let ghost mid = *self;
            let event = match self.next_event() {
                Ok(event) => event,
                Err(message) => {
                    assert(Self::skip_failure(*old(self), *self, skipped@));
                    proof {
                        let k = choose|k: int|
                            mid.pulled().len() <= k <= self.pulled().len() && #[trigger] pull_outcome(
                                self.pulled().take(k),
                                self.pulled(),
                                Err::<ReaderEvent, Seq<char>>(message@),
                            );
                        assert(old(self).pulled().len() <= k);
                        assert(Self::pull_failed_since(*old(self), *self, message@));
                    }
                    return Err(message);
                },
            };
            skipped.push(event);
            proof {
                assert(skipped@.drop_last() =~= before);
                assert(old(self).consumed() + skipped@ =~= (old(self).consumed() + before).push(event));
                assert forall|k: int| 0 <= k < skipped@.len() implies depth_after(depth as nat, #[trigger] skipped@.take(k)) >= depth by {
                    if k < before.len() {
                        assert(skipped@.take(k) =~= before.take(k));
                    } else {
                        assert(skipped@.take(k) =~= before);
                    }
                }
            }
        }
        proof {
            assert(skipped@.len() > 0) by {
                if skipped@.len() == 0 {
                    assert(depth_after(depth as nat, skipped@) == depth);
                }
            }
            let n = skipped@.len() as int;
            let prefix = skipped@.drop_last();
            assert(skipped@.take(n - 1) =~= prefix);
            assert(depth_after(depth as nat, prefix) >= depth);
            assert(depth_after(depth as nat, skipped@) == skipped@.last().depth_step(depth_after(depth as nat, prefix)));
        }
        Ok(skipped)
    }

    /// The outcome of checking that `event` closes the element opened under `start`.
    pub open spec fn end_check(event: ReaderEvent, start: NameView) -> Result<(), Seq<char>> {
        match event {
            ReaderEvent::EndElement { name } => if name@ == start {
                Ok(())
            } else {
                Err("End tag </"@ + name.local_name@ + "> didn't match the start tag <"@ + start.local_name + ">"@)
            },
            _ => Err("Unexpected token </"@ + start.local_name + ">"@),
        }
    }

    /// Takes the next event and checks that it is the end tag of the element opened under
    /// `start_name`.
    pub fn expect_end_element(&mut self, start_name: &XmlName) -> (r: Result<(), String>)
        requires
            old(self).wf(),
        ensures
            final(self).wf(),
            final(self).peeked() is None,
            match r {
                Ok(()) => {
                    &&& final(self).consumed().len() == old(self).consumed().len() + 1
                    &&& final(self).consumed() == old(self).consumed().push(final(self).consumed().last())
                    &&& Self::read_outcome(*old(self), *final(self), Ok(final(self).consumed().last()))
                    &&& Self::end_check(final(self).consumed().last(), start_name@) == Ok::<(), Seq<char>>(())
                },
                Err(m) => {
                    ||| final(self).consumed() == old(self).consumed()
                        && Self::read_outcome(*old(self), *final(self), Err(m@))
                    ||| {
                        &&& final(self).consumed().len() == old(self).consumed().len() + 1
                        &&& final(self).consumed() == old(self).consumed().push(final(self).consumed().last())
                        &&& Self::read_outcome(*old(self), *final(self), Ok(final(self).consumed().last()))
                        &&& Self::end_check(final(self).consumed().last(), start_name@) == Err::<(), Seq<char>>(m@)
                    }
                },
            },
    {
        let event = self.next_event()?;
        match event {
            ReaderEvent::EndElement { name } => {
                if same_name(&name, start_name) {
                    Ok(())
                } else {
                    let mut message = String::from_str("End tag </");
                    message.append(name.local_name.as_str());
                    message.append("> didn't match the start tag <");
                    message.append(start_name.local_name.as_str());
                    message.append(">");
                    Err(message)
                }
            },
            _ => {
                let mut message = String::from_str("Unexpected token </");
                message.append(start_name.local_name.as_str());
                message.append(">");
                Err(message)
            },
        }
    }

    /// What `read_inner_value` did after the start tag `after[n]` was handed out and `f` was
    /// called once, on `given` (the characters that followed the start tag, handed out
    /// after the call, or none), giving `v`: an error of `f` comes back as it is; else the
    /// end tag is checked, and its error or `f`'s value comes back.
    pub open spec fn inner_value_outcome<T>(
        before: Self,
        after: Self,
        n: int,
        given: Option<&String>,
        v: Result<T, String>,
        r: Result<T, String>,
    ) -> bool {
        let events = after.consumed();
        let k = if given is Some { n + 2 } else { n + 1 };
        &&& (given matches Some(t) ==> events.len() >= n + 2 && events[n + 1] == ReaderEvent::Characters(*t))
        &&& k <= events.len() <= k + 1
        &&& match v {
            Err(m) => r == Err::<T, String>(m) && events.len() == k,
            Ok(x) => if events.len() == k {
                r matches Err(m) && Self::pull_failed_since(before, after, m@)
            } else {
                match Self::end_check(events[k], events[n]->StartElement_name@) {
                    Ok(()) => r == Ok::<T, String>(x),
                    Err(m) => r matches Err(e) && e@ == m,
                }
            },
        }
    }

    /// Reads one element that holds a simple value: it hands out the start tag, calls `f` once
    /// on the characters that follow it (handing them out after the call), or on nothing when
    /// no characters follow, and then takes the end tag.
    pub fn read_inner_value<T, F: FnOnce(Option<&String>) -> Result<T, String>>(&mut self, f: F) -> (r: Result<T, String>)
        requires
            old(self).wf(),
            forall|given: Option<&String>| call_requires(f, (given,)),
        ensures
            final(self).wf(),
            ({
                let before = old(self).consumed();
                let after = final(self).consumed();
                let n = before.len() as int;
                &&& n <= after.len()
                &&& after.take(n) == before
                &&& if after.len() == n || !(after[n] is StartElement) {
                    &&& after.len() <= n + 1
                    &&& r matches Err(m) && m@ == "Internal error: Bad Event"@
                    &&& if after.len() == n {
                        exists|m: Seq<char>| #[trigger] Self::read_outcome(*old(self), *final(self), Err(m))
                    } else {
                        Self::read_outcome(*old(self), *final(self), Ok(after[n]))
                    }
                } else {
                    exists|given: Option<&String>, v: Result<T, String>|
                        #[trigger] call_ensures(f, (given,), v) && Self::inner_value_outcome(*old(self), *final(self), n, given, v, r)
                }
            }),
    {
        let ghost n = self.consumed@.len() as int;
        let ghost start = self.consumed@;
        let first = self.next_event();
        let name = match first {
            Ok(ReaderEvent::StartElement { name, .. }) => name,
            _ => {
                assert(self.consumed@.take(n) =~= start);
                proof {
                    if let Err(m) = first {
                        assert(Self::read_outcome(*old(self), *self, Err(m@)));
                    }
                }
                return Err(String::from_str("Internal error: Bad Event"));
            },
        };
        let ghost mid = self.consumed@;
        assert(mid[n] is StartElement);
        let ghost mut witness_given: Option<&String> = None;
        let ghost mut witness_value: Result<T, String> = vstd::pervasive::arbitrary();
        let value = match self.peek() {
            Ok(ReaderEvent::Characters(text)) => {
                let ghost given = Some(text);
                let value = f(Some(text));
                let ghost gv = value;
                proof {
                    witness_given = given;
                    witness_value = gv;
                }
                let _event = match self.next_event() {
                    Ok(event) => event,
                    Err(message) => {
                        assert(false);
                        return Err(message);
                    },
                };
                proof {
                    assert(call_ensures(f, (given,), gv));
                }
                value
            },
            _ => {
                let value = f(None);
                proof {
                    witness_given = None;
                    witness_value = value;
                }
                value
            },
        };
        assert(call_ensures(f, (witness_given,), witness_value));
        let ghost after_value = self.consumed@;
        assert(after_value.take(n) =~= start);
        assert(after_value[n] == mid[n]);
        proof {
            if witness_given is Some {
                assert(self.consumed@.len() == n + 2);
                assert(self.consumed@[n + 1] == ReaderEvent::Characters(*witness_given->Some_0));
            } else {
                assert(self.consumed@.len() == n + 1);
            }
        }
        let value = match value {
            Ok(value) => value,
            Err(message) => {
                assert(Self::inner_value_outcome(*old(self), *self, n, witness_given, witness_value, Err::<T, String>(message)));
                assert(self.consumed@.take(n) =~= start);
                assert(exists|given: Option<&String>, v: Result<T, String>|
                    #[trigger] call_ensures(f, (given,), v) && Self::inner_value_outcome(*old(self), *self, n, given, v, Err::<T, String>(message)));
                return Err(message);
            },
        };
        match self.expect_end_element(&name) {
            Ok(()) => {},
            Err(message) => {
                assert(self.consumed@.take(n) =~= start);
                assert(Self::inner_value_outcome(*old(self), *self, n, witness_given, witness_value, Err::<T, String>(message)));
                return Err(message);
            },
        }
        assert(self.consumed@.take(n) =~= start);
        assert(Self::inner_value_outcome(*old(self), *self, n, witness_given, witness_value, Ok::<T, String>(value)));
        Ok(value)
    }

    /// What `read_text_value` did after the start tag `after.consumed()[n]` was handed out,
    /// when `f` was not called: reading the next event failed, or the next event was neither
    /// characters nor an end tag, and it was handed out.
    pub open spec fn text_value_uncalled<T>(before: Self, after: Self, n: int, label: Seq<char>, r: Result<T, String>) -> bool {
        let events = after.consumed();
        ||| {
            &&& events.len() == n + 1
            &&& after.peeked() is None
            &&& r matches Err(m) && Self::pull_failed_since(before, after, m@)
        }
        ||| {
            &&& events.len() == n + 2
            &&& !(events[n + 1] is Characters)
            &&& !(events[n + 1] is EndElement)
            &&& r matches Err(m) && m@ == "unable to parse content for "@ + label
        }
    }

    /// What `read_text_value` did after the start tag `after.consumed()[n]` was handed out,
    /// when `f` was called once on `text`, giving `v`: the text of characters that followed
    /// the start tag (handed out before the call), or the empty text when an end tag followed
    /// (left read ahead); an error of `f` comes back as it is; else the end tag is taken and
    /// checked, and its error, or `f`'s value, comes back.
    pub open spec fn text_value_called<T>(
        before: Self,
        after: Self,
        n: int,
        text: Seq<char>,
        v: Result<T, String>,
        r: Result<T, String>,
    ) -> bool {
        let events = after.consumed();
        let k = if events.len() >= n + 2 && events[n + 1] is Characters { n + 2 } else { n + 1 };
        &&& (k == n + 2 ==> (events[n + 1] matches ReaderEvent::Characters(t) && t@ == text))
        &&& (k == n + 1 ==> text == Seq::<char>::empty())
        &&& k <= events.len() <= k + 1
        &&& match v {
            Err(m) => {
                &&& r == Err::<T, String>(m)
                &&& events.len() == k
                &&& (k == n + 1 ==> (after.peeked() matches Some(e) && e is EndElement))
            },
            Ok(x) => if events.len() == k {
                &&& k == n + 2
                &&& r matches Err(m) && Self::pull_failed_since(before, after, m@)
            } else {
                &&& (k == n + 1 ==> events[k] is EndElement)
                &&& match Self::end_check(events[k], events[n]->StartElement_name@) {
                    Ok(()) => r == Ok::<T, String>(x),
                    Err(m) => r matches Err(e) && e@ == m,
                }
            },
        }
    }

    /// Reads one element that holds a simple value, as a tuple variant's field is read: it
    /// hands out the start tag; when an end tag follows, `f` gets the empty text; when
    /// characters follow, they are handed out and `f` gets them; any other event is handed
    /// out and refused with a message naming `label`; then the end tag is taken.
    pub fn read_text_value<T, F: FnOnce(&str) -> Result<T, String>>(&mut self, label: &str, f: F) -> (r: Result<T, String>)
        requires
            old(self).wf(),
            forall|text: &str| call_requires(f, (text,)),
        ensures
            final(self).wf(),
            ({
                let before = old(self).consumed();
                let after = final(self).consumed();
                let n = before.len() as int;
                &&& n <= after.len()
                &&& after.take(n) == before
                &&& if after.len() == n || !(after[n] is StartElement) {
                    &&& after.len() <= n + 1
                    &&& r matches Err(m) && m@ == "Internal error: Bad Event"@
                    &&& if after.len() == n {
                        exists|m: Seq<char>| #[trigger] Self::read_outcome(*old(self), *final(self), Err(m))
                    } else {
                        Self::read_outcome(*old(self), *final(self), Ok(after[n]))
                    }
                } else {
                    ||| Self::text_value_uncalled(*old(self), *final(self), n, label@, r)
                    ||| exists|text: &str, v: Result<T, String>|
                        #[trigger] call_ensures(f, (text,), v) && Self::text_value_called(*old(self), *final(self), n, text@, v, r)
                }
            }),
    {
        let ghost n = self.consumed@.len() as int;
        let ghost start = self.consumed@;
        let first = self.next_event();
        let name = match first {
            Ok(ReaderEvent::StartElement { name, .. }) => name,
            _ => {
                assert(self.consumed@.take(n) =~= start);
                proof {
                    if let Err(m) = first {
                        assert(Self::read_outcome(*old(self), *self, Err(m@)));
                    }
                }
                return Err(String::from_str("Internal error: Bad Event"));
            },
        };
        let ghost mid = *self;
        assert(mid.consumed()[n] is StartElement);
        let is_end = match self.peek() {
            Ok(ReaderEvent::EndElement { .. }) => true,
            Ok(_) => false,
            Err(message) => {
                proof {
                    let k = mid.pulled().len() as int;
                    assert(self.pulled().take(k) == mid.pulled());
                    assert(pull_outcome(self.pulled().take(k), self.pulled(), Err::<ReaderEvent, Seq<char>>(message@)));
                    assert(self.consumed@.take(n) =~= start);
                    assert(Self::text_value_uncalled(*old(self), *self, n, label@, Err::<T, String>(message)));
                }
                return Err(message);
            },
        };
        let ghost mut given: Seq<char> = Seq::empty();
        let ghost mut given_str: &str = "";
        let value = if is_end {
            let empty = "";
            proof {
                reveal_strlit("");
                given_str = empty;
            }
            f(empty)
        } else {
            let next = self.next_event();
            match next {
                Ok(ReaderEvent::Characters(text)) => {
                    proof {
                        given = text@;
                    }
                    let t: &str = text.as_str();
                    let v = f(t);
                    proof {
                        given_str = t;
                    }
                    v
                },
                _ => {
                    let mut message = String::from_str("unable to parse content for ");
                    message.append(label);
                    proof {
                        assert(self.consumed@.take(n) =~= start);
                        assert(Self::text_value_uncalled(*old(self), *self, n, label@, Err::<T, String>(message)));
                    }
                    return Err(message);
                },
            }
        };
        let ghost witness_value = value;
        assert(call_ensures(f, (given_str,), witness_value));
        assert(given_str@ == given);
        let ghost after_value = *self;
        assert(after_value.consumed().take(n) =~= start);
        let value = match value {
            Ok(value) => value,
            Err(message) => {
                assert(Self::text_value_called(*old(self), *self, n, given, witness_value, Err::<T, String>(message)));
                return Err(message);
            },
        };
        match self.expect_end_element(&name) {
            Ok(()) => {},
            Err(message) => {
                assert(self.consumed@.take(n) =~= start);
                assert(Self::text_value_called(*old(self), *self, n, given, witness_value, Err::<T, String>(message)));
                return Err(message);
            },
        }
        assert(self.consumed@.take(n) =~= start);
        assert(Self::text_value_called(*old(self), *self, n, given, witness_value, Ok::<T, String>(value)));
        Ok(value)
    }
}

/// The depth of a deserializer is the number of elements that the events it has handed out
/// leave open (counted from zero, never below zero).
pub proof fn law_depth_counts_open_elements(d: &Deserializer)
    requires
        d.wf(),
    ensures
        d.depth_view() == depth_after(0, d.consumed()),
{
}

/// While the events handed out never close more elements than are open and never leave
/// more open than a `usize` counts, the depth of a deserializer is the number of start tags
/// it has handed out less the number of end tags.
pub proof fn law_depth_is_starts_less_ends(d: &Deserializer)
    requires
        d.wf(),
        counts_in_range(0, d.consumed()),
    ensures
        d.depth_view() == open_count(d.consumed()),
{
    lemma_depth_after_counts(0, d.consumed());
}

/// Peeking twice gives the same event both times, and hands nothing out.
pub proof fn law_peek_is_stable(
    d0: Deserializer,
    d1: Deserializer,
    e1: ReaderEvent,
    d2: Deserializer,
    r2: Option<ReaderEvent>,
)
    requires
        Deserializer::peek_outcome(d0, d1, Some(e1)),
        Deserializer::peek_outcome(d1, d2, r2),
    ensures
        r2 == Some(e1),
        d2.consumed() == d0.consumed(),
        d2.depth_view() == d0.depth_view(),
{
}

/// The event that `next_event` hands out after a successful `peek` is the peeked one, and it
/// is the only event handed out.
pub proof fn law_next_event_after_peek(
    d0: Deserializer,
    d1: Deserializer,
    e: ReaderEvent,
    d2: Deserializer,
    r: Option<ReaderEvent>,
)
    requires
        Deserializer::peek_outcome(d0, d1, Some(e)),
        Deserializer::next_outcome(d1, d2, r),
    ensures
        r == Some(e),
        d2.consumed() == d0.consumed().push(e),
        d2.depth_view() == e.depth_step(d0.depth_view()),
{
}

} // verus!
