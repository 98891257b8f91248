use yaserde::derive::attribute::{
  build_label_name, generate_namespaces_definition, split_namespace_declaration, AttrToken, NamespaceDefinition,
  YaSerdeAttribute,
};
use yaserde::derive::namespaces::Namespaces;

fn ident(s: &str) -> AttrToken {
  AttrToken::Ident(s.to_string())
}

fn equals() -> AttrToken {
  AttrToken::Punct { ch: '=', alone: true }
}

fn comma() -> AttrToken {
  AttrToken::Punct { ch: ',', alone: true }
}

fn literal(s: &str) -> AttrToken {
  AttrToken::Literal(format!("\"{}\"", s))
}

fn group(tokens: Vec<AttrToken>) -> Vec<AttrToken> {
  vec![AttrToken::Group { parenthesis: true, tokens }]
}

#[test]
fn a_namespace_declaration_splits_at_its_separator() {
  assert_eq!(
    split_namespace_declaration("ns: http://example.com/ns"),
    Some(("ns".to_string(), "http://example.com/ns".to_string()))
  );
  assert_eq!(
    split_namespace_declaration("http://example.com/ns"),
    Some((String::new(), "http://example.com/ns".to_string()))
  );
  assert_eq!(split_namespace_declaration("a: b: c"), None);
  assert_eq!(split_namespace_declaration("a:b"), Some((String::new(), "a:b".to_string())));
  assert_eq!(split_namespace_declaration(": x"), Some((String::new(), "x".to_string())));
}

#[test]
fn no_attribute_gives_no_setting() {
  let settings = YaSerdeAttribute::parse(&vec![]);
  assert!(!settings.attribute);
  assert!(!settings.text);
  assert_eq!(settings.prefix, None);
  assert_eq!(settings.rename, None);
  assert_eq!(settings.root, None);
  assert!(settings.namespaces.entries().is_empty());
  assert_eq!(settings.default, None);
  assert!(!settings.flatten);
}

#[test]
fn settings_are_read_from_the_tokens() {
  let attrs = vec![group(vec![
    ident("rename"),
    equals(),
    literal("new_name"),
    comma(),
    ident("prefix"),
    equals(),
    literal("p"),
    comma(),
    ident("root"),
    equals(),
    literal("doc"),
    comma(),
    ident("attribute"),
    comma(),
    ident("text"),
    comma(),
    ident("namespace"),
    equals(),
    literal("p: urn:p"),
    comma(),
    ident("namespace"),
    equals(),
    literal("urn:default"),
  ])];
  let settings = YaSerdeAttribute::parse(&attrs);
  assert_eq!(settings.rename, Some("new_name".to_string()));
  assert_eq!(settings.prefix, Some("p".to_string()));
  assert_eq!(settings.root, Some("doc".to_string()));
  assert!(settings.attribute);
  assert!(settings.text);
  assert_eq!(
    settings.namespaces.entries(),
    &vec![(String::new(), "urn:default".to_string()), ("p".to_string(), "urn:p".to_string())]
  );
}

#[test]
fn settings_of_later_attributes_win() {
  let attrs = vec![
    group(vec![ident("rename"), equals(), literal("first")]),
    vec![ident("doc")],
    group(vec![ident("rename"), equals(), literal("second")]),
  ];
  let settings = YaSerdeAttribute::parse(&attrs);
  assert_eq!(settings.rename, Some("second".to_string()));
}

#[test]
fn a_name_without_a_value_gives_none() {
  let attrs = vec![group(vec![ident("rename"), comma(), ident("attribute")])];
  let settings = YaSerdeAttribute::parse(&attrs);
  assert_eq!(settings.rename, None);
  assert!(!settings.attribute);
}

#[test]
fn unknown_names_and_other_groups_are_passed_over() {
  let attrs = vec![
    group(vec![ident("unknown"), comma(), ident("attribute")]),
    vec![AttrToken::Group { parenthesis: false, tokens: vec![ident("text")] }],
  ];
  let settings = YaSerdeAttribute::parse(&attrs);
  assert!(settings.attribute);
  assert!(!settings.text);
}

#[test]
fn quotes_are_taken_out_of_values() {
  let attrs = vec![group(vec![ident("rename"), equals(), AttrToken::Literal("\"a\"b\"".to_string())])];
  let settings = YaSerdeAttribute::parse(&attrs);
  assert_eq!(settings.rename, Some("ab".to_string()));
}

#[test]
fn a_namespace_table_keeps_one_uri_per_prefix_in_order() {
  let mut table = Namespaces::new();
  table.insert("b".to_string(), "urn:b".to_string());
  table.insert("a".to_string(), "urn:a".to_string());
  table.insert(String::new(), "urn:default".to_string());
  table.insert("b".to_string(), "urn:b2".to_string());
  assert_eq!(
    table.entries(),
    &vec![
      (String::new(), "urn:default".to_string()),
      ("a".to_string(), "urn:a".to_string()),
      ("b".to_string(), "urn:b2".to_string()),
    ]
  );
  assert_eq!(table.get("b"), Some(&"urn:b2".to_string()));
  assert_eq!(table.get(""), Some(&"urn:default".to_string()));
  assert_eq!(table.get("c"), None);
}

#[test]
fn element_name_and_prefix() {
  let mut settings = YaSerdeAttribute::empty();
  assert_eq!(settings.xml_element_name("Ident"), "Ident");
  assert_eq!(settings.prefix_namespace(), "");
  settings.rename = Some("renamed".to_string());
  settings.prefix = Some("p".to_string());
  assert_eq!(settings.xml_element_name("Ident"), "renamed");
  assert_eq!(settings.prefix_namespace(), "p:");
  settings.default_namespace = Some("p".to_string());
  assert_eq!(settings.prefix_namespace(), "");
}

#[test]
fn namespace_matching_accepts_the_bound_namespace() {
  let attrs = vec![group(vec![
    ident("prefix"),
    equals(),
    literal("a"),
    comma(),
    ident("namespace"),
    equals(),
    literal("a: urn:a"),
    comma(),
    ident("namespace"),
    equals(),
    literal("b: urn:b"),
  ])];
  let settings = YaSerdeAttribute::parse(&attrs);
  let own = settings.get_namespace_matching(&None, true);
  assert_eq!(own.accepted, vec!["urn:a".to_string()]);
  assert_eq!(own.check(&None, "x"), Ok(()));
  assert_eq!(own.check(&Some("urn:a".to_string()), "x"), Ok(()));
  assert_eq!(
    own.check(&Some("urn:b".to_string()), "x"),
    Err("bad namespace for x, found urn:b".to_string())
  );
  let other = settings.get_namespace_matching(&Some("b".to_string()), false);
  assert_eq!(other.accepted, vec!["urn:b".to_string()]);
  let unbound = settings.get_namespace_matching(&Some("c".to_string()), false);
  assert!(unbound.accepted.is_empty());
  assert_eq!(
    unbound.check(&Some("urn:a".to_string()), "y"),
    Err("bad namespace for y, found urn:a".to_string())
  );
  let none = settings.get_namespace_matching(&None, false);
  assert!(none.accepted.is_empty());
}

#[test]
fn label_names_carry_the_prefix_unless_it_is_the_default_namespace() {
  let mut field = YaSerdeAttribute::empty();
  assert_eq!(build_label_name("item", &field, &None), "item");
  field.prefix = Some("p".to_string());
  assert_eq!(build_label_name("item", &field, &None), "p:item");
  field.rename = Some("other".to_string());
  assert_eq!(build_label_name("item", &field, &None), "p:other");
  assert_eq!(build_label_name("item", &field, &Some("p".to_string())), "other");
}

#[test]
fn namespace_definitions_follow_the_table() {
  let mut settings = YaSerdeAttribute::empty();
  settings.namespaces.insert("b".to_string(), "urn:b".to_string());
  settings.namespaces.insert("a".to_string(), "urn:a".to_string());
  settings.default_namespace = Some("b".to_string());
  assert_eq!(
    generate_namespaces_definition(&settings),
    vec![
      NamespaceDefinition::Prefixed("a".to_string(), "urn:a".to_string()),
      NamespaceDefinition::Default("urn:b".to_string()),
    ]
  );
}

fn true_or_false(value: bool) -> AttrToken {
  ident(if value { "true" } else { "false" })
}

#[test]
fn flags_are_set_alone_or_by_a_boolean() {
  let attrs = vec![group(vec![
    ident("attribute"),
    comma(),
    ident("flatten"),
    equals(),
    true_or_false(true),
    comma(),
    ident("cdata"),
    equals(),
    true_or_false(false),
    comma(),
    ident("skip_serializing"),
    comma(),
    ident("text"),
    equals(),
    true_or_false(false),
  ])];
  let settings = YaSerdeAttribute::parse(&attrs);
  assert!(settings.attribute);
  assert!(settings.flatten);
  assert!(!settings.cdata);
  assert!(settings.skip_serializing);
  assert!(!settings.text);
}

#[test]
fn a_later_false_clears_a_flag() {
  let attrs = vec![
    group(vec![ident("attribute")]),
    group(vec![ident("attribute"), equals(), true_or_false(false)]),
  ];
  assert!(!YaSerdeAttribute::parse(&attrs).attribute);
}

#[test]
fn text_settings_take_their_value() {
  let attrs = vec![group(vec![
    ident("default"),
    equals(),
    literal("default_value"),
    comma(),
    ident("default_namespace"),
    equals(),
    literal("ttml"),
    comma(),
    ident("skip_serializing_if"),
    equals(),
    literal("check"),
    comma(),
    ident("tag"),
    equals(),
    literal("kind"),
  ])];
  let settings = YaSerdeAttribute::parse(&attrs);
  assert_eq!(settings.default, Some("default_value".to_string()));
  assert_eq!(settings.default_namespace, Some("ttml".to_string()));
  assert_eq!(settings.skip_serializing_if, Some("check".to_string()));
  assert_eq!(settings.tag, Some("kind".to_string()));
  assert_eq!(settings.rename, None);
}

#[test]
fn a_namespaces_group_binds_each_entry() {
  let attrs = vec![group(vec![
    ident("namespaces"),
    equals(),
    AttrToken::Group {
      parenthesis: false,
      tokens: vec![
        literal(""),
        equals(),
        literal("urn:default"),
        comma(),
        literal("ttm"),
        equals(),
        literal("urn:ttm"),
        comma(),
      ],
    },
    comma(),
    ident("prefix"),
    equals(),
    literal("ttm"),
  ])];
  let settings = YaSerdeAttribute::parse(&attrs);
  assert_eq!(
    settings.namespaces.entries(),
    &vec![(String::new(), "urn:default".to_string()), ("ttm".to_string(), "urn:ttm".to_string())]
  );
  assert_eq!(settings.prefix, Some("ttm".to_string()));
}

#[test]
fn a_namespaces_setting_without_a_group_binds_nothing() {
  let attrs = vec![group(vec![ident("namespaces"), equals(), literal("p: urn:p"), comma(), ident("attribute")])];
  let settings = YaSerdeAttribute::parse(&attrs);
  assert!(settings.namespaces.entries().is_empty());
  assert!(settings.attribute);
}

#[test]
fn attributes_are_read_one_after_the_other() {
  let first = || group(vec![ident("rename"), equals(), literal("a"), comma(), ident("attribute")]);
  let second = || group(vec![ident("prefix"), equals(), literal("p"), comma(), ident("rename"), equals(), literal("b")]);
  let together = YaSerdeAttribute::parse(&vec![first(), second()]);
  assert_eq!(together.rename, Some("b".to_string()));
  assert_eq!(together.prefix, Some("p".to_string()));
  assert!(together.attribute);
  let only_first = YaSerdeAttribute::parse(&vec![first()]);
  assert_eq!(only_first.rename, Some("a".to_string()));
  assert_eq!(only_first.prefix, None);
}
