//! The settings that `yaserde` attributes give a type, a field or a variant.

use vstd::prelude::*;
use crate::derive::namespaces::Namespaces;
use crate::text::str_eq;

verus! {

/// A token inside an attribute's parentheses, as plain values.
#[derive(Debug)]
pub enum AttrToken {
    /// An identifier, such as `rename`.
    Ident(String),
    /// A punctuation character, and whether it stands alone (is not joined to the next one).
    Punct { ch: char, alone: bool },
    /// A literal, as its source text (a string literal keeps its quotes).
    Literal(String),
    /// A delimited group of tokens, and whether its delimiters are parentheses.
    Group { parenthesis: bool, tokens: Vec<AttrToken> },
}

/// The settings given by `yaserde` attributes.
pub struct YaSerdeAttribute {
    /// Set this field as an XML attribute.
    pub attribute: bool,
    /// Set default callback function.
    pub default: Option<String>,
    /// Set the default namespace.
    pub default_namespace: Option<String>,
    /// Flatten child fields.
    pub flatten: bool,
    /// Declare all namespaces with prefix/URL.
    pub namespaces: Namespaces,
    /// Set the prefix for the scope.
    pub prefix: Option<String>,
    /// Rename the field/struct/enum name.
    pub rename: Option<String>,
    /// The element name of the document's root.
    pub root: Option<String>,
    pub tag: Option<String>,
    /// Disable the serialization for the field.
    pub skip_serializing: bool,
    /// Disable the serialization for the field based on a condition.
    pub skip_serializing_if: Option<String>,
    /// Set the field as an XML text content.
    pub text: bool,
    /// Set the field as an XML CDATA content.
    pub cdata: bool,
}

/// Whether the separator `": "` starts at `i` in `s`.
pub open spec fn separator_at(s: Seq<char>, i: int) -> bool {
    0 <= i && i + 1 < s.len() && s[i] == ':' && s[i + 1] == ' '
}

/// What a namespace declaration `"prefix: URI"` binds: with no separator `": "`, the whole
/// text is the URI of the default (empty) prefix; with one, the parts before and after it;
/// with more than one, nothing.
pub open spec fn namespace_declaration(s: Seq<char>) -> Option<(Seq<char>, Seq<char>)> {
    if forall|i: int| !#[trigger] separator_at(s, i) {
        Some((Seq::empty(), s))
    } else {
        let i = choose|i: int| #[trigger] separator_at(s, i);
        if forall|j: int| #[trigger] separator_at(s, j) ==> j == i {
            Some((s.take(i), s.skip(i + 2)))
        } else {
            None
        }
    }
}

/// Splits a namespace declaration `"prefix: URI"` at its separator `": "`.
pub fn split_namespace_declaration(s: &str) -> (r: Option<(String, String)>)
    ensures
        match namespace_declaration(s@) {
            Some((p, u)) => r matches Some(pair) && pair.0@ == p && pair.1@ == u,
            None => r is None,
        },
{
    let n = s.unicode_len();
    let mut i: usize = 0;
    let mut found: Option<usize> = None;
    while i < n && n - i >= 2
        invariant
            n == s@.len(),
            i <= n,
            match found {
                Some(k) => {
                    &&& separator_at(s@, k as int)
                    &&& k < i
                    &&& forall|j: int| j < i && #[trigger] separator_at(s@, j) ==> j == k
                },
                None => forall|j: int| j < i ==> !#[trigger] separator_at(s@, j),
            },
        decreases n - i,
    {
        if s.get_char(i) == ':' && s.get_char(i + 1) == ' ' {
            if found.is_some() {
                proof {
                    let k = found.unwrap();
                    assert(separator_at(s@, k as int) && separator_at(s@, i as int));
                    assert(!(forall|i: int| !#[trigger] separator_at(s@, i)));
                    let c = choose|i: int| #[trigger] separator_at(s@, i);
                    if c == k {
                        assert(!(forall|j: int| #[trigger] separator_at(s@, j) ==> j == c));
                    } else {
                        assert(!(forall|j: int| #[trigger] separator_at(s@, j) ==> j == c));
                    }
                }
                return None;
            }
            found = Some(i);
        }
        i = i + 1;
    }
    assert forall|j: int| j >= i implies !#[trigger] separator_at(s@, j) by {}
    match found {
        None => {
            let whole = String::from_str(s);
            let empty = String::new();
            Some((empty, whole))
        },
        Some(k) => {
            proof {
                assert(separator_at(s@, k as int));
                assert(!(forall|i: int| !#[trigger] separator_at(s@, i)));
                let c = choose|i: int| #[trigger] separator_at(s@, i);
                assert(c == k);
            }
            let prefix = String::from_str(s.substring_char(0, k));
            let uri = String::from_str(s.substring_char(k + 2, n));
            proof {
                assert(s@.subrange(0, k as int) =~= s@.take(k as int));
                assert(s@.subrange(k + 2, n as int) =~= s@.skip(k + 2));
            }
            Some((prefix, uri))
        },
    }
}

/// The text of a literal with every double quote taken out.
pub open spec fn unquoted(s: Seq<char>) -> Seq<char> {
    s.filter(|c: char| c != '"')
}

fn remove_quotes(s: &String) -> (r: String)
    ensures
        r@ == unquoted(s@),
{
    let n = s.as_str().unicode_len();
    let mut r = String::new();
    let mut i: usize = 0;
    while i < n
        invariant
            n == s@.len(),
            i <= n,
            r@ == unquoted(s@.take(i as int)),
        decreases n - i,
    {
        let c = s.as_str().get_char(i);
        proof {
            assert(s@.take(i + 1).drop_last() =~= s@.take(i as int));
            reveal_with_fuel(Seq::<char>::filter, 1);
        }
        if c != '"' {
            crate::text::push_char(&mut r, c);
        }
        i = i + 1;
    }
    assert(s@.take(n as int) =~= s@);
    r
}

/// What `name = "value"` gives after the name: the two tokens that follow are taken, and
/// the value is there when they are a lone `=` and a literal.
pub open spec fn value_after(tokens: Seq<AttrToken>) -> (Option<Seq<char>>, Seq<AttrToken>) {
    if tokens.len() >= 2 {
        (
            match (tokens[0], tokens[1]) {
                (AttrToken::Punct { ch: '=', alone: true }, AttrToken::Literal(l)) => Some(unquoted(l@)),
                _ => None,
            },
            tokens.skip(2),
        )
    } else {
        (None, Seq::empty())
    }
}

/// The settings read so far from attribute tokens.
pub struct ParsedAttributes {
    pub attribute: bool,
    pub cdata: bool,
    pub default: Option<Seq<char>>,
    pub default_namespace: Option<Seq<char>>,
    pub flatten: bool,
    pub namespaces: Map<Seq<char>, Seq<char>>,
    pub prefix: Option<Seq<char>>,
    pub rename: Option<Seq<char>>,
    pub root: Option<Seq<char>>,
    pub skip_serializing: bool,
    pub skip_serializing_if: Option<Seq<char>>,
    pub tag: Option<Seq<char>>,
    pub text: bool,
}

/// The settings before any attribute is read.
pub open spec fn no_settings() -> ParsedAttributes {
    ParsedAttributes {
        attribute: false,
        cdata: false,
        default: None,
        default_namespace: None,
        flatten: false,
        namespaces: Map::empty(),
        prefix: None,
        rename: None,
        root: None,
        skip_serializing: false,
        skip_serializing_if: None,
        tag: None,
        text: false,
    }
}

/// The names of the settings that are flags.
pub open spec fn is_flag(name: Seq<char>) -> bool {
    name == "attribute"@ || name == "cdata"@ || name == "flatten"@ || name == "skip_serializing"@ || name
        == "text"@
}

/// The names of the settings that take a text.
pub open spec fn is_text_setting(name: Seq<char>) -> bool {
    name == "default"@ || name == "default_namespace"@ || name == "prefix"@ || name == "rename"@ || name
        == "root"@ || name == "skip_serializing_if"@ || name == "tag"@
}

/// What a flag is set to by the tokens that follow its name, and the tokens left after it:
/// `= true` and `= false` give their value; a flag without them is set.
pub open spec fn flag_value(rest: Seq<AttrToken>) -> (bool, Seq<AttrToken>) {
    if rest.len() >= 2 {
        match (rest[0], rest[1]) {
            (AttrToken::Punct { ch: '=', alone: true }, AttrToken::Ident(v)) => if v@ == "true"@ {
                (true, rest.skip(2))
            } else if v@ == "false"@ {
                (false, rest.skip(2))
            } else {
                (true, rest)
            },
            _ => (true, rest),
        }
    } else {
        (true, rest)
    }
}

/// The settings with the flag `name` set to `value`.
pub open spec fn with_flag(st: ParsedAttributes, name: Seq<char>, value: bool) -> ParsedAttributes {
    if name == "attribute"@ {
        ParsedAttributes { attribute: value, ..st }
    } else if name == "cdata"@ {
        ParsedAttributes { cdata: value, ..st }
    } else if name == "flatten"@ {
        ParsedAttributes { flatten: value, ..st }
    } else if name == "skip_serializing"@ {
        ParsedAttributes { skip_serializing: value, ..st }
    } else {
        ParsedAttributes { text: value, ..st }
    }
}

/// The settings with the text setting `name` set to `value`.
pub open spec fn with_text(st: ParsedAttributes, name: Seq<char>, value: Option<Seq<char>>) -> ParsedAttributes {
    if name == "default"@ {
        ParsedAttributes { default: value, ..st }
    } else if name == "default_namespace"@ {
        ParsedAttributes { default_namespace: value, ..st }
    } else if name == "prefix"@ {
        ParsedAttributes { prefix: value, ..st }
    } else if name == "rename"@ {
        ParsedAttributes { rename: value, ..st }
    } else if name == "root"@ {
        ParsedAttributes { root: value, ..st }
    } else if name == "skip_serializing_if"@ {
        ParsedAttributes { skip_serializing_if: value, ..st }
    } else {
        ParsedAttributes { tag: value, ..st }
    }
}

/// The bindings after reading `"prefix" = "uri"` entries from `tokens`, in order, starting
/// from `m`; tokens that do not start an entry (such as the commas between entries) are
/// passed over.
pub open spec fn map_bindings(m: Map<Seq<char>, Seq<char>>, tokens: Seq<AttrToken>) -> Map<Seq<char>, Seq<char>>
    decreases tokens.len(),
{
    if tokens.len() >= 3 {
        match (tokens[0], tokens[1], tokens[2]) {
            (AttrToken::Literal(k), AttrToken::Punct { ch: '=', alone: true }, AttrToken::Literal(v)) => map_bindings(
                m.insert(unquoted(k@), unquoted(v@)),
                tokens.skip(3),
            ),
            _ => map_bindings(m, tokens.drop_first()),
        }
    } else {
        m
    }
}

/// The entries of a `namespaces = { ... }` setting, when the tokens after the name are `=`
/// and a group that is not in parentheses.
pub open spec fn bindings_group(rest: Seq<AttrToken>) -> Option<Seq<AttrToken>> {
    if rest.len() >= 2 {
        match (rest[0], rest[1]) {
            (AttrToken::Punct { ch: '=', alone: true }, AttrToken::Group { parenthesis: false, tokens }) => Some(
                tokens@,
            ),
            _ => None,
        }
    } else {
        None
    }
}

/// The settings after the tokens inside one attribute's parentheses. A flag (`attribute`,
/// `cdata`, `flatten`, `skip_serializing`, `text`) is set, or takes the `= true` or `= false`
/// that follows it; a text setting (`default`, `default_namespace`, `prefix`, `rename`,
/// `root`, `skip_serializing_if`, `tag`) takes the `= "..."` that follows it (absent when
/// that is not there); `namespace` adds the binding its value declares and `namespaces`
/// the entries of the group that follows it; other tokens are passed over.
pub open spec fn parse_tokens(st: ParsedAttributes, tokens: Seq<AttrToken>) -> ParsedAttributes
    decreases tokens.len(),
{
    if tokens.len() == 0 {
        st
    } else {
        let rest = tokens.drop_first();
        let (value, after) = value_after(rest);
        match tokens[0] {
            AttrToken::Ident(t) => {
                if is_flag(t@) {
                    let (flag, left) = flag_value(rest);
                    parse_tokens(with_flag(st, t@, flag), left)
                } else if t@ == "namespace"@ {
                    let namespaces = match value {
                        Some(v) => match namespace_declaration(v) {
                            Some((p, u)) => st.namespaces.insert(p, u),
                            None => st.namespaces,
                        },
                        None => st.namespaces,
                    };
                    parse_tokens(ParsedAttributes { namespaces, ..st }, after)
                } else if t@ == "namespaces"@ {
                    let namespaces = match bindings_group(rest) {
                        Some(entries) => map_bindings(st.namespaces, entries),
                        None => st.namespaces,
                    };
                    parse_tokens(ParsedAttributes { namespaces, ..st }, after)
                } else if is_text_setting(t@) {
                    parse_tokens(with_text(st, t@, value), after)
                } else {
                    parse_tokens(st, rest)
                }
            },
            _ => parse_tokens(st, rest),
        }
    }
}

/// The settings after the attributes `attrs`: each whose first token is a parenthesized
/// group is read, in order; others are passed over.
pub open spec fn parse_attributes(st: ParsedAttributes, attrs: Seq<Vec<AttrToken>>) -> ParsedAttributes
    decreases attrs.len(),
{
    if attrs.len() == 0 {
        st
    } else {
        let last = attrs.last();
        let before = parse_attributes(st, attrs.drop_last());
        if last@.len() > 0 {
            match last@[0] {
                AttrToken::Group { parenthesis: true, tokens } => parse_tokens(before, tokens@),
                _ => before,
            }
        } else {
            before
        }
    }
}

impl YaSerdeAttribute {
    /// The settings that have been read, as plain values.
    pub open spec fn parsed(&self) -> ParsedAttributes {
        ParsedAttributes {
            attribute: self.attribute,
            cdata: self.cdata,
            default: self.default.deep_view(),
            default_namespace: self.default_namespace.deep_view(),
            flatten: self.flatten,
            namespaces: self.namespaces.as_map(),
            prefix: self.prefix.deep_view(),
            rename: self.rename.deep_view(),
            root: self.root.deep_view(),
            skip_serializing: self.skip_serializing,
            skip_serializing_if: self.skip_serializing_if.deep_view(),
            tag: self.tag.deep_view(),
            text: self.text,
        }
    }

    /// No setting given.
    pub fn empty() -> (r: Self)
        ensures
            r.namespaces.wf(),
            r.parsed() == no_settings(),
    {
        YaSerdeAttribute {
            attribute: false,
            default: None,
            default_namespace: None,
            flatten: false,
            namespaces: Namespaces::new(),
            prefix: None,
            rename: None,
            root: None,
            tag: None,
            skip_serializing: false,
            skip_serializing_if: None,
            text: false,
            cdata: false,
        }
    }

    /// Reads the settings of the attributes `attrs`, in order; settings that they do not
    /// give keep their default.
    pub fn parse(attrs: &Vec<Vec<AttrToken>>) -> (r: Self)
        ensures
            r.namespaces.wf(),
            r.parsed() == parse_attributes(no_settings(), attrs@),
    {
        let mut r = Self::empty();
        let mut k: usize = 0;
        while k < attrs.len()
            invariant
                k <= attrs@.len(),
                r.namespaces.wf(),
                r.parsed() == parse_attributes(no_settings(), attrs@.take(k as int)),
            decreases attrs@.len() - k,
        {
            let attr = &attrs[k];
            proof {
                assert(attrs@.take(k + 1).drop_last() =~= attrs@.take(k as int));
            }
            if attr.len() > 0 {
                match &attr[0] {
                    AttrToken::Group { parenthesis: true, tokens } => {
                        r.parse_group(tokens);
                    },
                    _ => {},
                }
            }
            k = k + 1;
        }
        assert(attrs@.take(attrs@.len() as int) =~= attrs@);
        r
    }

    /// Sets the flag named `name`.
    fn set_flag(&mut self, name: &str, value: bool)
        requires
            is_flag(name@),
        ensures
            final(self).parsed() == with_flag(old(self).parsed(), name@, value),
            final(self).namespaces == old(self).namespaces,
    {
        if str_eq(name, "attribute") {
            self.attribute = value;
        } else if str_eq(name, "cdata") {
            self.cdata = value;
        } else if str_eq(name, "flatten") {
            self.flatten = value;
        } else if str_eq(name, "skip_serializing") {
            self.skip_serializing = value;
        } else {
            self.text = value;
        }
    }

    /// Sets the text setting named `name`.
    fn set_text(&mut self, name: &str, value: Option<String>)
        requires
            is_text_setting(name@),
        ensures
            final(self).parsed() == with_text(old(self).parsed(), name@, value.deep_view()),
            final(self).namespaces == old(self).namespaces,
    {
        if str_eq(name, "default") {
            self.default = value;
        } else if str_eq(name, "default_namespace") {
            self.default_namespace = value;
        } else if str_eq(name, "prefix") {
            self.prefix = value;
        } else if str_eq(name, "rename") {
            self.rename = value;
        } else if str_eq(name, "root") {
            self.root = value;
        } else if str_eq(name, "skip_serializing_if") {
            self.skip_serializing_if = value;
        } else {
            self.tag = value;
        }
    }

    /// Adds the `"prefix" = "uri"` entries of `entries`, in order.
    fn add_bindings(&mut self, entries: &Vec<AttrToken>)
        requires
            old(self).namespaces.wf(),
        ensures
            final(self).namespaces.wf(),
            final(self).parsed() == (ParsedAttributes {
                namespaces: map_bindings(old(self).parsed().namespaces, entries@),
                ..old(self).parsed()
            }),
    {
        let n = entries.len();
        let mut j: usize = 0;
        assert(entries@.skip(0) =~= entries@);
        while j < n
            invariant
                n == entries@.len(),
                j <= n,
                self.namespaces.wf(),
                map_bindings(old(self).parsed().namespaces, entries@) == map_bindings(
                    self.namespaces.as_map(),
                    entries@.skip(j as int),
                ),
                self.parsed() == (ParsedAttributes { namespaces: self.namespaces.as_map(), ..old(self).parsed() }),
            decreases n - j,
        {
            let ghost tail = entries@.skip(j as int);
            if n - j >= 3 {
                assert(tail[0] == entries@[j as int] && tail[1] == entries@[j + 1] && tail[2] == entries@[j + 2]);
                match (&entries[j], &entries[j + 1], &entries[j + 2]) {
                    (AttrToken::Literal(k), AttrToken::Punct { ch: '=', alone: true }, AttrToken::Literal(v)) => {
                        let prefix = remove_quotes(k);
                        let uri = remove_quotes(v);
                        assert(tail.skip(3) =~= entries@.skip(j + 3));
                        self.namespaces.insert(prefix, uri);
                        j = j + 3;
                    },
                    _ => {
                        assert(tail.drop_first() =~= entries@.skip(j + 1));
                        j = j + 1;
                    },
                }
            } else {
                proof {
                    assert(map_bindings(self.namespaces.as_map(), tail) == self.namespaces.as_map());
                    assert(entries@.skip(n as int) =~= Seq::<AttrToken>::empty());
                }
                j = n;
            }
        }
        assert(entries@.skip(n as int) =~= Seq::<AttrToken>::empty());
    }

    /// Reads the tokens inside one attribute's parentheses.
    fn parse_group(&mut self, tokens: &Vec<AttrToken>)
        requires
            old(self).namespaces.wf(),
        ensures
            final(self).namespaces.wf(),
            final(self).parsed() == parse_tokens(old(self).parsed(), tokens@),
    {
        let n = tokens.len();
        let mut i: usize = 0;
        assert(tokens@.skip(0) =~= tokens@);
        while i < n
            invariant
                n == tokens@.len(),
                i <= n,
                self.namespaces.wf(),
                parse_tokens(old(self).parsed(), tokens@) == parse_tokens(self.parsed(), tokens@.skip(i as int)),
            decreases n - i,
        {
            let ghost rest = tokens@.skip(i + 1);
            assert(tokens@.skip(i as int).drop_first() =~= rest);
            proof {
                lemma_skip_value(tokens@, i + 1);
            }
            match &tokens[i] {
                AttrToken::Ident(term) => {
                    let term = term.as_str();
                    if is_flag_name(term) {
                        let mut value = true;
                        let mut next = i + 1;
                        if n - (i + 1) >= 2 {
                            assert(rest[0] == tokens@[i + 1] && rest[1] == tokens@[i + 2]);
                            assert(rest.skip(2) =~= tokens@.skip(i + 3));
                            match (&tokens[i + 1], &tokens[i + 2]) {
                                (AttrToken::Punct { ch: '=', alone: true }, AttrToken::Ident(v)) => {
                                    if str_eq(v.as_str(), "true") {
                                        next = i + 3;
                                    } else if str_eq(v.as_str(), "false") {
                                        value = false;
                                        next = i + 3;
                                    }
                                },
                                _ => {},
                            }
                        }
                        assert(flag_value(rest) == (value, tokens@.skip(next as int)));
                        self.set_flag(term, value);
                        i = next;
                    } else if str_eq(term, "namespace") {
                        let value = get_value(tokens, i + 1);
                        if let Some(namespace) = value {
                            if let Some((prefix, uri)) = split_namespace_declaration(namespace.as_str()) {
                                self.namespaces.insert(prefix, uri);
                            }
                        }
                        i = skip_value(n, i + 1);
                    } else if str_eq(term, "namespaces") {
                        if n - (i + 1) >= 2 {
                            assert(rest[0] == tokens@[i + 1] && rest[1] == tokens@[i + 2]);
                            match (&tokens[i + 1], &tokens[i + 2]) {
                                (AttrToken::Punct { ch: '=', alone: true }, AttrToken::Group { parenthesis: false, tokens: entries }) => {
                                    self.add_bindings(entries);
                                },
                                _ => {},
                            }
                        }
                        i = skip_value(n, i + 1);
                    } else if is_text_setting_name(term) {
                        let value = get_value(tokens, i + 1);
                        self.set_text(term, value);
                        i = skip_value(n, i + 1);
                    } else {
                        i = i + 1;
                    }
                },
                _ => {
                    i = i + 1;
                },
            }
        }
    }
}

/// Whether `name` is the name of a flag.
fn is_flag_name(name: &str) -> (r: bool)
    ensures
        r == is_flag(name@),
{
    str_eq(name, "attribute") || str_eq(name, "cdata") || str_eq(name, "flatten") || str_eq(name, "skip_serializing")
        || str_eq(name, "text")
}

/// Whether `name` is the name of a text setting.
fn is_text_setting_name(name: &str) -> (r: bool)
    ensures
        r == is_text_setting(name@),
{
    str_eq(name, "default") || str_eq(name, "default_namespace") || str_eq(name, "prefix") || str_eq(name, "rename")
        || str_eq(name, "root") || str_eq(name, "skip_serializing_if") || str_eq(name, "tag")
}

proof fn lemma_skip_value(tokens: Seq<AttrToken>, j: int)
    requires
        0 <= j <= tokens.len(),
    ensures
        value_after(tokens.skip(j)).1 == tokens.skip(if tokens.len() - j >= 2 { j + 2 } else { tokens.len() as int }),
{
    if tokens.len() - j >= 2 {
        assert(tokens.skip(j).skip(2) =~= tokens.skip(j + 2));
    } else {
        assert(tokens.skip(tokens.len() as int) =~= Seq::<AttrToken>::empty());
    }
}

/// Where reading resumes after the value that follows a name at `i - 1`.
fn skip_value(n: usize, i: usize) -> (r: usize)
    requires
        i <= n,
    ensures
        r == if n - i >= 2 { i + 2 } else { n as int },
{
    if n - i >= 2 {
        i + 2
    } else {
        n
    }
}

/// The value that the tokens from `i` give, as `value_after` says.
fn get_value(tokens: &Vec<AttrToken>, i: usize) -> (r: Option<String>)
    requires
        i <= tokens@.len(),
    ensures
        r.deep_view() == value_after(tokens@.skip(i as int)).0,
{
    if tokens.len() - i >= 2 {
        match (&tokens[i], &tokens[i + 1]) {
            (AttrToken::Punct { ch: '=', alone: true }, AttrToken::Literal(l)) => Some(remove_quotes(l)),
            _ => None,
        }
    } else {
        None
    }
}

/// The prefix that a name is written with: nothing when the prefix is the default namespace
/// (or when there is none), else the prefix and a colon.
pub open spec fn prefix_text(default_namespace: Option<Seq<char>>, prefix: Option<Seq<char>>) -> Seq<char> {
    if default_namespace == prefix {
        Seq::empty()
    } else {
        match prefix {
            Some(p) => p + ":"@,
            None => Seq::empty(),
        }
    }
}

/// A name is written with its prefix and a colon, unless there is no prefix or the prefix
/// is the default namespace's, in which case it is written bare.
pub proof fn law_prefix_written_unless_default(default_namespace: Option<Seq<char>>, prefix: Option<Seq<char>>)
    ensures
        prefix matches Some(p) ==> (default_namespace != Some(p) ==> prefix_text(default_namespace, prefix) == p
            + ":"@),
        (prefix is None || default_namespace == prefix) ==> prefix_text(default_namespace, prefix) == Seq::<
            char,
        >::empty(),
{
}

/// The prefix that a name is written with.
pub fn prefix_string(default_namespace: &Option<String>, prefix: &Option<String>) -> (r: String)
    ensures
        r@ == prefix_text(default_namespace.deep_view(), prefix.deep_view()),
{
    if crate::event::same_optional(default_namespace, prefix) {
        String::new()
    } else {
        match prefix {
            Some(p) => {
                let mut r = p.clone();
                r.append(":");
                r
            },
            None => String::new(),
        }
    }
}

/// The namespaces an element may be in: those bound to one prefix, if it is bound.
pub struct NamespaceMatching {
    pub accepted: Vec<String>,
}

/// The message for an element in a namespace it may not be in.
pub open spec fn bad_namespace_message(element_name: Seq<char>, namespace: Seq<char>) -> Seq<char> {
    "bad namespace for "@ + element_name + ", found "@ + namespace
}

impl NamespaceMatching {
    /// Whether `namespace` is one of the accepted ones.
    pub open spec fn accepts(&self, namespace: Seq<char>) -> bool {
        exists|i: int| 0 <= i < self.accepted@.len() && #[trigger] self.accepted@[i]@ == namespace
    }

    /// Checks the namespace of an element named `element_name`: an element in no namespace
    /// passes, and one in a namespace passes when it is accepted.
    pub fn check(&self, element_namespace: &Option<String>, element_name: &str) -> (r: Result<(), String>)
        ensures
            match *element_namespace {
                None => r is Ok,
                Some(ns) => if self.accepts(ns@) {
                    r is Ok
                } else {
                    r matches Err(m) && m@ == bad_namespace_message(element_name@, ns@)
                },
            },
    {
        match element_namespace {
            None => Ok(()),
            Some(namespace) => {
                let mut i: usize = 0;
                while i < self.accepted.len()
                    invariant
                        *element_namespace == Some(*namespace),
                        i <= self.accepted@.len(),
                        forall|k: int| 0 <= k < i ==> #[trigger] self.accepted@[k]@ != namespace@,
                    decreases self.accepted@.len() - i,
                {
                    if self.accepted[i] == *namespace {
                        assert(self.accepted@[i as int]@ == namespace@);
                        return Ok(());
                    }
                    i = i + 1;
                }
                let mut message = String::from_str("bad namespace for ");
                message.append(element_name);
                message.append(", found ");
                message.append(namespace.as_str());
                Err(message)
            },
        }
    }
}

/// A namespace binding to declare on a start tag.
#[derive(Debug, PartialEq, Eq)]
pub enum NamespaceDefinition {
    /// The default namespace.
    Default(String),
    /// A prefix and the namespace it stands for.
    Prefixed(String, String),
}

impl YaSerdeAttribute {
    /// The element name: the renamed one if a new name is set, else `ident`.
    pub fn xml_element_name(&self, ident: &str) -> (r: String)
        ensures
            r@ == match self.rename {
                Some(n) => n@,
                None => ident@,
            },
    {
        match &self.rename {
            Some(name) => name.clone(),
            None => String::from_str(ident),
        }
    }

    /// The prefix that names in this scope are written with.
    pub fn prefix_namespace(&self) -> (r: String)
        ensures
            r@ == prefix_text(self.default_namespace.deep_view(), self.prefix.deep_view()),
    {
        prefix_string(&self.default_namespace, &self.prefix)
    }

    /// The namespaces an element may be in: the one bound to the scope's own prefix when
    /// `take_root_prefix`, else the one bound to `prefix`; none when that prefix is absent or
    /// not bound.
    pub fn get_namespace_matching(&self, prefix: &Option<String>, take_root_prefix: bool) -> (r: NamespaceMatching)
        requires
            self.namespaces.wf(),
        ensures
            ({
                let configured = if take_root_prefix { self.prefix.deep_view() } else { prefix.deep_view() };
                match configured {
                    Some(p) => if self.namespaces.binds(p) {
                        r.accepted@.len() == 1 && r.accepted@[0]@ == self.namespaces.uri_of(p)
                    } else {
                        r.accepted@.len() == 0
                    },
                    None => r.accepted@.len() == 0,
                }
            }),
    {
        let configured = if take_root_prefix { &self.prefix } else { prefix };
        let mut accepted: Vec<String> = Vec::new();
        if let Some(p) = configured {
            if let Some(uri) = self.namespaces.get(p.as_str()) {
                accepted.push(uri.clone());
            }
        }
        NamespaceMatching { accepted }
    }
}

/// The name a field or variant is written under: the prefix unless it is the default
/// namespace, then the new name if one is set, else `label`.
pub open spec fn label_name(label: Seq<char>, field_attrs: &YaSerdeAttribute, default_namespace: Option<Seq<char>>) -> Seq<char> {
    prefix_text(default_namespace, field_attrs.prefix.deep_view()) + match field_attrs.rename {
        Some(n) => n@,
        None => label,
    }
}

/// The name a field or variant is written under is its element name (the new name if one
/// is set, else its own), after its prefix and a colon when it has a prefix other than the
/// default namespace's, and bare otherwise.
pub proof fn law_label_name_prefix(label: Seq<char>, field_attrs: &YaSerdeAttribute, default_namespace: Option<Seq<char>>)
    ensures
        field_attrs.prefix.deep_view() matches Some(p) ==> (default_namespace != Some(p) ==> label_name(
            label,
            field_attrs,
            default_namespace,
        ) == p + ":"@ + element_name(label, field_attrs)),
        field_attrs.prefix is None || default_namespace == field_attrs.prefix.deep_view() ==> label_name(
            label,
            field_attrs,
            default_namespace,
        ) == element_name(label, field_attrs),
{
    assert(Seq::<char>::empty() + element_name(label, field_attrs) =~= element_name(label, field_attrs));
}

/// The element name of a field or variant called `label`: the new name if one is set, else
/// `label`.
pub open spec fn element_name(label: Seq<char>, field_attrs: &YaSerdeAttribute) -> Seq<char> {
    match field_attrs.rename {
        Some(n) => n@,
        None => label,
    }
}

/// The name a field or variant is written under.
pub fn build_label_name(label: &str, field_attrs: &YaSerdeAttribute, default_namespace: &Option<String>) -> (r: String)
    ensures
        r@ == label_name(label@, field_attrs, default_namespace.deep_view()),
{
    let mut r = prefix_string(default_namespace, &field_attrs.prefix);
    let name = field_attrs.xml_element_name(label);
    r.append(name.as_str());
    r
}

/// The bindings a start tag declares for `attributes`, in order of prefix: the one bound to
/// the default namespace's prefix as the default namespace, the others with their prefix.
pub fn generate_namespaces_definition(attributes: &YaSerdeAttribute) -> (r: Vec<NamespaceDefinition>)
    ensures
        r@.len() == attributes.namespaces.entries_view().len(),
        forall|i: int| 0 <= i < r@.len() ==> {
            let (p, u) = #[trigger] attributes.namespaces.entries_view()[i];
            if attributes.default_namespace.deep_view() == Some(p) {
                r@[i] matches NamespaceDefinition::Default(d) && d@ == u
            } else {
                r@[i] matches NamespaceDefinition::Prefixed(q, d) && q@ == p && d@ == u
            }
        },
{
    let entries = attributes.namespaces.entries();
    let mut r: Vec<NamespaceDefinition> = Vec::new();
    let mut i: usize = 0;
    while i < entries.len()
        invariant
            entries@.map_values(|e: (String, String)| (e.0@, e.1@)) == attributes.namespaces.entries_view(),
            i <= entries@.len(),
            r@.len() == i,
            forall|k: int| 0 <= k < i ==> {
                let (p, u) = #[trigger] attributes.namespaces.entries_view()[k];
                if attributes.default_namespace.deep_view() == Some(p) {
                    r@[k] matches NamespaceDefinition::Default(d) && d@ == u
                } else {
                    r@[k] matches NamespaceDefinition::Prefixed(q, d) && q@ == p && d@ == u
                }
            },
        decreases entries@.len() - i,
    {
        let (prefix, namespace) = &entries[i];
        let is_default = match &attributes.default_namespace {
            Some(d) => *d == *prefix,
            None => false,
        };
        if is_default {
            r.push(NamespaceDefinition::Default(namespace.clone()));
        } else {
            r.push(NamespaceDefinition::Prefixed(prefix.clone(), namespace.clone()));
        }
        i = i + 1;
    }
    r
}

/// Attributes are read one after the other: reading a list of attributes that is the
/// concatenation of two lists reads the first list, then the second from where it left off.
pub proof fn law_parse_attributes_concatenation(
    st: ParsedAttributes,
    a: Seq<Vec<AttrToken>>,
    b: Seq<Vec<AttrToken>>,
)
    ensures
        parse_attributes(st, a + b) == parse_attributes(parse_attributes(st, a), b),
    decreases b.len(),
{
    if b.len() == 0 {
        assert(a + b =~= a);
    } else {
        law_parse_attributes_concatenation(st, a, b.drop_last());
        assert((a + b).drop_last() =~= a + b.drop_last());
        assert((a + b).last() == b.last());
    }
}

/// The tokens `name = value`.
pub open spec fn setting_tokens(name: String, value: String) -> Seq<AttrToken> {
    seq![AttrToken::Ident(name), AttrToken::Punct { ch: '=', alone: true }, AttrToken::Literal(value)]
}

/// The settings `st` with the new name `rename`.
pub open spec fn with_rename(st: ParsedAttributes, rename: Seq<char>) -> ParsedAttributes {
    ParsedAttributes { rename: Some(rename), ..st }
}

/// A `rename = "..."` setting gives the new name (with its quotes taken out), whatever was
/// read before it; it changes nothing else.
pub proof fn law_rename_setting(st: ParsedAttributes, name: String, value: String)
    requires
        name@ == "rename"@,
    ensures
        parse_tokens(st, setting_tokens(name, value)) == with_rename(st, unquoted(value@)),
{
    let tokens = setting_tokens(name, value);
    reveal_strlit("rename");
    reveal_strlit("attribute");
    reveal_strlit("cdata");
    reveal_strlit("flatten");
    reveal_strlit("skip_serializing");
    reveal_strlit("text");
    reveal_strlit("namespace");
    reveal_strlit("namespaces");
    reveal_strlit("default");
    reveal_strlit("default_namespace");
    reveal_strlit("prefix");
    assert("rename"@.len() != "attribute"@.len());
    assert("rename"@.len() != "cdata"@.len());
    assert("rename"@.len() != "flatten"@.len());
    assert("rename"@.len() != "skip_serializing"@.len());
    assert("rename"@.len() != "text"@.len());
    assert("rename"@.len() != "namespace"@.len());
    assert("rename"@.len() != "namespaces"@.len());
    assert("rename"@.len() != "default"@.len());
    assert("rename"@.len() != "default_namespace"@.len());
    assert("rename"@[0] != "prefix"@[0]);
    assert(!is_flag(name@));
    assert(is_text_setting(name@));
    assert(with_text(st, name@, Some(unquoted(value@))) == with_rename(st, unquoted(value@)));
    let rest = tokens.drop_first();
    assert(rest.skip(2) =~= Seq::<AttrToken>::empty());
    assert(value_after(rest) == (Some(unquoted(value@)), Seq::<AttrToken>::empty()));
    let next = with_rename(st, unquoted(value@));
    assert(parse_tokens(next, Seq::<AttrToken>::empty()) == next);
}

/// The tokens `name = value` where `value` is an identifier.
pub open spec fn flag_tokens(name: String, value: String) -> Seq<AttrToken> {
    seq![AttrToken::Ident(name), AttrToken::Punct { ch: '=', alone: true }, AttrToken::Ident(value)]
}

/// A flag named alone is set; followed by `= true` or `= false` it takes that value,
/// whatever was read before it.
pub proof fn law_flag_setting(st: ParsedAttributes, name: String, value: String)
    requires
        is_flag(name@),
        value@ == "true"@ || value@ == "false"@,
    ensures
        parse_tokens(st, seq![AttrToken::Ident(name)]) == with_flag(st, name@, true),
        parse_tokens(st, flag_tokens(name, value)) == with_flag(st, name@, value@ == "true"@),
{
    reveal_strlit("true");
    reveal_strlit("false");
    assert("true"@.len() != "false"@.len());
    let alone = seq![AttrToken::Ident(name)];
    assert(alone.drop_first() =~= Seq::<AttrToken>::empty());
    let flagged = with_flag(st, name@, true);
    assert(parse_tokens(flagged, Seq::<AttrToken>::empty()) == flagged);
    let tokens = flag_tokens(name, value);
    let rest = tokens.drop_first();
    assert(rest.skip(2) =~= Seq::<AttrToken>::empty());
    assert(flag_value(rest) == (value@ == "true"@, Seq::<AttrToken>::empty()));
    let set = with_flag(st, name@, value@ == "true"@);
    assert(parse_tokens(set, Seq::<AttrToken>::empty()) == set);
}

/// A declaration `prefix: uri` binds `prefix` to `uri` when neither part holds the separator
/// `": "`; a declaration without the separator binds the default (empty) prefix.
pub proof fn law_namespace_declaration(p: Seq<char>, u: Seq<char>)
    requires
        forall|i: int| !#[trigger] separator_at(p, i),
        forall|i: int| !#[trigger] separator_at(u, i),
    ensures
        namespace_declaration(p + ": "@ + u) == Some((p, u)),
        namespace_declaration(u) == Some((Seq::<char>::empty(), u)),
{
    reveal_strlit(": ");
    let s = p + ": "@ + u;
    let k = p.len() as int;
    assert(s[k] == ':' && s[k + 1] == ' ');
    assert(separator_at(s, k));
    assert forall|j: int| #[trigger] separator_at(s, j) implies j == k by {
        if j < k - 1 {
            assert(s[j] == p[j] && s[j + 1] == p[j + 1]);
            assert(separator_at(p, j));
        } else if j == k - 1 {
            assert(s[j + 1] == ':');
        } else if j == k + 1 {
            assert(s[j] == ' ');
        } else if j > k + 1 {
            assert(s[j] == u[j - k - 2] && s[j + 1] == u[j - k - 1]);
            assert(separator_at(u, j - k - 2));
        }
    }
    assert(!(forall|i: int| !#[trigger] separator_at(s, i)));
    let c = choose|i: int| #[trigger] separator_at(s, i);
    assert(c == k);
    assert(s.take(k) =~= p);
    assert(s.skip(k + 2) =~= u);
}

/// The name a field is written under, as `build_label_name` gives it for the field's own
/// name, is the one `YaSerdeField::renamed_label` gives.
pub proof fn law_label_name_is_renamed_label(
    label: Seq<char>,
    field_attrs: &YaSerdeAttribute,
    root_attributes: &YaSerdeAttribute,
)
    ensures
        label_name(label, field_attrs, root_attributes.default_namespace.deep_view())
            == prefix_text(root_attributes.default_namespace.deep_view(), field_attrs.prefix.deep_view())
            + match field_attrs.rename {
            Some(n) => n@,
            None => label,
        },
{
}

} // verus!
