//! Plain-value models of the XML events that are read and written.

use vstd::prelude::*;

verus! {

/// A qualified XML name as it is read: local part, bound namespace URI and prefix.
#[derive(Clone, Debug, PartialEq, Eq)]
pub struct XmlName {
    pub local_name: String,
    pub namespace: Option<String>,
    pub prefix: Option<String>,
}

/// The characters of a name's three parts.
pub struct NameView {
    pub local_name: Seq<char>,
    pub namespace: Option<Seq<char>>,
    pub prefix: Option<Seq<char>>,
}

impl View for XmlName {
    type V = NameView;

    open spec fn view(&self) -> NameView {
        NameView {
            local_name: self.local_name@,
            namespace: self.namespace.deep_view(),
            prefix: self.prefix.deep_view(),
        }
    }
}

/// An attribute of a start tag, as it is read.
#[derive(Clone, Debug, PartialEq, Eq)]
pub struct XmlAttribute {
    pub name: XmlName,
    pub value: String,
}

/// An event of the stream that a reader produces.
#[derive(Clone, Debug, PartialEq, Eq)]
#[allow(inconsistent_fields)]
pub enum ReaderEvent {
    StartDocument,
    EndDocument,
    ProcessingInstruction { name: String, data: Option<String> },
    StartElement { name: XmlName, attributes: Vec<XmlAttribute>, namespace: Vec<(String, String)> },
    EndElement { name: XmlName },
    CData(String),
    Comment(String),
    Characters(String),
    Whitespace(String),
}

/// An event handed to a writer.
#[derive(Clone, Debug, PartialEq, Eq)]
#[allow(inconsistent_fields)]
pub enum WriterEvent {
    ProcessingInstruction { name: String, data: Option<String> },
    /// A start tag: its qualified name (`prefix:local` or `local`), its attributes as
    /// (qualified name, value) pairs and the namespace bindings it declares as (prefix, URI)
    /// pairs, where the empty prefix binds the default namespace.
    StartElement { name: String, attributes: Vec<(String, String)>, namespace: Vec<(String, String)> },
    /// An end tag, optionally with the name it must close.
    EndElement { name: Option<String> },
    CData(String),
    Comment(String),
    Characters(String),
}

impl ReaderEvent {
    /// Events that carry nothing for a deserializer: the document declaration, processing
    /// instructions and comments.
    pub open spec fn is_ignorable(&self) -> bool {
        self is StartDocument || self is ProcessingInstruction || self is Comment
    }

    /// How an event moves the element depth: one down on a start tag, one up on an end tag
    /// (never below zero, never above `usize::MAX`), unchanged otherwise.
    pub open spec fn depth_step(&self, depth: nat) -> nat {
        match self {
            ReaderEvent::StartElement { .. } => if depth < usize::MAX { depth + 1 } else { depth },
            ReaderEvent::EndElement { .. } => if depth > 0 { (depth - 1) as nat } else { 0 },
            _ => depth,
        }
    }
}

/// The depth reached from `depth` after the events `events`, taken in order.
pub open spec fn depth_after(depth: nat, events: Seq<ReaderEvent>) -> nat
    decreases events.len(),
{
    if events.len() == 0 {
        depth
    } else {
        events.last().depth_step(depth_after(depth, events.drop_last()))
    }
}

/// The number of start tags among `events` less the number of end tags.
pub open spec fn open_count(events: Seq<ReaderEvent>) -> int
    decreases events.len(),
{
    if events.len() == 0 {
        0
    } else {
        open_count(events.drop_last()) + match events.last() {
            ReaderEvent::StartElement { .. } => 1int,
            ReaderEvent::EndElement { .. } => -1int,
            _ => 0int,
        }
    }
}

/// Counting from `depth`, the depth after every prefix of `events` counted as start tags
/// less end tags stays between zero and `usize::MAX`: no end tag closes more elements than
/// are open, and no more elements are open than a `usize` counts.
pub open spec fn counts_in_range(depth: nat, events: Seq<ReaderEvent>) -> bool {
    forall|k: int| 0 <= k <= events.len() ==> 0 <= depth + open_count(#[trigger] events.take(k)) <= usize::MAX
}

/// Where the counts stay in range, the depth reached is the starting depth plus the start
/// tags less the end tags.
pub proof fn lemma_depth_after_counts(depth: nat, events: Seq<ReaderEvent>)
    requires
        counts_in_range(depth, events),
    ensures
        depth_after(depth, events) == depth + open_count(events),
    decreases events.len(),
{
    if events.len() > 0 {
        let prefix = events.drop_last();
        assert forall|k: int| 0 <= k <= prefix.len() implies 0 <= depth + open_count(#[trigger] prefix.take(k))
            <= usize::MAX by {
            assert(prefix.take(k) =~= events.take(k));
        }
        lemma_depth_after_counts(depth, prefix);
        assert(events.take(events.len() as int) =~= events);
        assert(events.take(prefix.len() as int) =~= prefix);
    }
}

/// How a name is written: `prefix:local`, or the local name alone when there is no prefix.
pub open spec fn qualified(name: NameView) -> Seq<char> {
    match name.prefix {
        Some(p) => p + ":"@ + name.local_name,
        None => name.local_name,
    }
}

/// Whether `i` is the position of the first colon of `s`.
pub open spec fn first_colon_at(s: Seq<char>, i: int) -> bool {
    0 <= i < s.len() && s[i] == ':' && forall|j: int| 0 <= j < i ==> s[j] != ':'
}

/// The name that a written name stands for: what comes before the first colon is the prefix
/// and what follows it the local name; without a colon, all of it is the local name.
pub open spec fn name_of_qualified(s: Seq<char>) -> NameView {
    if exists|i: int| #[trigger] first_colon_at(s, i) {
        let i = choose|i: int| #[trigger] first_colon_at(s, i);
        NameView { local_name: s.skip(i + 1), namespace: None, prefix: Some(s.take(i)) }
    } else {
        NameView { local_name: s, namespace: None, prefix: None }
    }
}

impl XmlName {
    /// How this name is written.
    pub fn qualified_name(&self) -> (r: String)
        ensures
            r@ == qualified(self@),
    {
        match &self.prefix {
            Some(p) => {
                let mut r = p.clone();
                r.append(":");
                r.append(self.local_name.as_str());
                r
            },
            None => self.local_name.clone(),
        }
    }

    /// The name that the written name `s` stands for, in no namespace.
    pub fn from_qualified(s: &str) -> (r: XmlName)
        ensures
            r@ == name_of_qualified(s@),
    {
        let n = s.unicode_len();
        let mut i: usize = 0;
        while i < n
            invariant
                n == s@.len(),
                i <= n,
                forall|j: int| 0 <= j < i ==> s@[j] != ':',
            decreases n - i,
        {
            if s.get_char(i) == ':' {
                proof {
                    assert(first_colon_at(s@, i as int));
                    let c = choose|c: int| #[trigger] first_colon_at(s@, c);
                    assert(c == i) by {
                        if c < i {
                            assert(s@[c] != ':');
                        } else if c > i {
                            assert(s@[i as int] != ':');
                        }
                    }
                    assert(s@.subrange(0, i as int) =~= s@.take(i as int));
                    assert(s@.subrange(i + 1, n as int) =~= s@.skip(i + 1));
                }
                let prefix = String::from_str(s.substring_char(0, i));
                let local_name = String::from_str(s.substring_char(i + 1, n));
                return XmlName { local_name, namespace: None, prefix: Some(prefix) };
            }
            i = i + 1;
        }
        assert(!exists|c: int| #[trigger] first_colon_at(s@, c));
        XmlName { local_name: String::from_str(s), namespace: None, prefix: None }
    }
}

/// Reading a written name back and writing it again gives the same text.
pub proof fn law_written_name_round_trip(s: Seq<char>)
    ensures
        qualified(name_of_qualified(s)) == s,
{
    if exists|i: int| #[trigger] first_colon_at(s, i) {
        let i = choose|i: int| #[trigger] first_colon_at(s, i);
        assert(s.take(i) + ":"@ + s.skip(i + 1) =~= s) by {
            reveal_strlit(":");
        }
    }
}

/// Whether `w` is how the event `event` is written back: a start tag under its written name,
/// with its attributes under their written names and the same bindings; an end tag under its
/// written name; whitespace as characters; text, comments and instructions unchanged; and the
/// start and end of the document not at all.
pub open spec fn writes_as(event: ReaderEvent, w: Option<WriterEvent>) -> bool {
    match event {
        ReaderEvent::ProcessingInstruction { name, data } => w matches Some(
            WriterEvent::ProcessingInstruction { name: n, data: d },
        ) && n@ == name@ && d.deep_view() == data.deep_view(),
        ReaderEvent::StartElement { name, attributes, namespace } => w matches Some(
            WriterEvent::StartElement { name: n, attributes: a, namespace: ns },
        ) && n@ == qualified(name@) && a@.len() == attributes@.len() && (forall|i: int|
            0 <= i < a@.len() ==> #[trigger] a@[i].0@ == qualified(attributes@[i].name@) && a@[i].1@
                == attributes@[i].value@) && same_pairs(ns@, namespace@),
        ReaderEvent::EndElement { name } => w matches Some(WriterEvent::EndElement { name: n })
            && n.deep_view() == Some(qualified(name@)),
        ReaderEvent::CData(s) => w matches Some(WriterEvent::CData(t)) && t@ == s@,
        ReaderEvent::Comment(s) => w matches Some(WriterEvent::Comment(t)) && t@ == s@,
        ReaderEvent::Characters(s) => w matches Some(WriterEvent::Characters(t)) && t@ == s@,
        ReaderEvent::Whitespace(s) => w matches Some(WriterEvent::Characters(t)) && t@ == s@,
        ReaderEvent::StartDocument => w is None,
        ReaderEvent::EndDocument => w is None,
    }
}

/// Whether two lists of pairs of strings hold the same characters, pair for pair.
pub open spec fn same_pairs(a: Seq<(String, String)>, b: Seq<(String, String)>) -> bool {
    &&& a.len() == b.len()
    &&& forall|k: int| 0 <= k < a.len() ==> #[trigger] a[k].0@ == b[k].0@ && a[k].1@ == b[k].1@
}

fn copy_pairs(pairs: &Vec<(String, String)>) -> (r: Vec<(String, String)>)
    ensures
        same_pairs(r@, pairs@),
{
    let mut r: Vec<(String, String)> = Vec::new();
    let mut i: usize = 0;
    while i < pairs.len()
        invariant
            i <= pairs@.len(),
            r@.len() == i,
            forall|k: int| 0 <= k < i ==> #[trigger] r@[k].0@ == pairs@[k].0@ && r@[k].1@ == pairs@[k].1@,
        decreases pairs@.len() - i,
    {
        let pair = &pairs[i];
        let first = pair.0.clone();
        let second = pair.1.clone();
        let ghost before = r@;
        r.push((first, second));
        proof {
            assert forall|k: int| 0 <= k < i + 1 implies #[trigger] r@[k].0@ == pairs@[k].0@ && r@[k].1@ == pairs@[k].1@ by {
                if k < i {
                    assert(before[k].0@ == pairs@[k].0@);
                    assert(r@[k] == before[k]);
                }
            }
        }
        i = i + 1;
    }
    r
}

impl ReaderEvent {
    /// How this event is written back to a writer, if it is written at all.
    pub fn as_writer_event(&self) -> (r: Option<WriterEvent>)
        ensures
            writes_as(*self, r),
    {
        match self {
            ReaderEvent::ProcessingInstruction { name, data } => {
                let data = match data {
                    Some(d) => Some(d.clone()),
                    None => None,
                };
                Some(WriterEvent::ProcessingInstruction { name: name.clone(), data })
            },
            ReaderEvent::StartElement { name, attributes, namespace } => {
                let mut written: Vec<(String, String)> = Vec::new();
                let mut i: usize = 0;
                while i < attributes.len()
                    invariant
                        i <= attributes@.len(),
                        written@.len() == i,
                        forall|k: int| 0 <= k < i ==> #[trigger] written@[k].0@ == qualified(attributes@[k].name@)
                            && written@[k].1@ == attributes@[k].value@,
                    decreases attributes@.len() - i,
                {
                    let attribute = &attributes[i];
                    let qualified_attribute = attribute.name.qualified_name();
                    let value = attribute.value.clone();
                    let ghost before = written@;
                    written.push((qualified_attribute, value));
                    assert(written@[i as int].0@ == qualified(attributes@[i as int].name@));
                    assert forall|k: int| 0 <= k < i + 1 implies #[trigger] written@[k].0@ == qualified(attributes@[k].name@)
                        && written@[k].1@ == attributes@[k].value@ by {
                        if k < i {
                            assert(before[k].0@ == qualified(attributes@[k].name@));
                            assert(written@[k] == before[k]);
                        }
                    }
                    i = i + 1;
                }
                Some(WriterEvent::StartElement {
                    name: name.qualified_name(),
                    attributes: written,
                    namespace: copy_pairs(namespace),
                })
            },
            ReaderEvent::EndElement { name } => Some(WriterEvent::EndElement { name: Some(name.qualified_name()) }),
            ReaderEvent::CData(s) => Some(WriterEvent::CData(s.clone())),
            ReaderEvent::Comment(s) => Some(WriterEvent::Comment(s.clone())),
            ReaderEvent::Characters(s) => Some(WriterEvent::Characters(s.clone())),
            ReaderEvent::Whitespace(s) => Some(WriterEvent::Characters(s.clone())),
            ReaderEvent::StartDocument => None,
            ReaderEvent::EndDocument => None,
        }
    }
}

/// Two names are the same when all three parts agree.
pub fn same_name(a: &XmlName, b: &XmlName) -> (r: bool)
    ensures
        r == (a@ == b@),
{
    let same_local = a.local_name == b.local_name;
    let same_namespace = same_optional(&a.namespace, &b.namespace);
    let same_prefix = same_optional(&a.prefix, &b.prefix);
    proof {
        if same_local && same_namespace && same_prefix {
            assert(a@ == b@);
        }
    }
    same_local && same_namespace && same_prefix
}

/// Two optional strings are the same when both are absent or both hold the same characters.
pub fn same_optional(a: &Option<String>, b: &Option<String>) -> (r: bool)
    ensures
        r == (a.deep_view() == b.deep_view()),
{
    match (a, b) {
        (Some(x), Some(y)) => *x == *y,
        (None, None) => true,
        _ => false,
    }
}

} // verus!
