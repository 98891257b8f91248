use yaserde::derive::attribute::{AttrToken, YaSerdeAttribute};
use yaserde::derive::field::{
  build_default_value, build_visitor_ident, condition_generator, path_identifier, replace_dots, DefaultValue, Field,
  PathSegment, SerializationCondition, TypePath, YaSerdeField,
};

fn segment(ident: &str) -> PathSegment {
  PathSegment { ident: ident.to_string(), argument: None }
}

fn path(idents: &[&str]) -> TypePath {
  TypePath { segments: idents.iter().map(|i| segment(i)).collect() }
}

fn generic(ident: &str, argument: TypePath) -> TypePath {
  TypePath { segments: vec![PathSegment { ident: ident.to_string(), argument: Some(Box::new(argument)) }] }
}

fn rename(name: &str) -> Vec<Vec<AttrToken>> {
  vec![vec![AttrToken::Group {
    parenthesis: true,
    tokens: vec![
      AttrToken::Ident("rename".to_string()),
      AttrToken::Punct { ch: '=', alone: true },
      AttrToken::Literal(format!("\"{}\"", name)),
    ],
  }]]
}

#[test]
fn simple_types_are_told_by_their_last_segment() {
  assert!(matches!(Field::from_path(path(&["String"])), Field::FieldString));
  assert!(matches!(Field::from_path(path(&["std", "string", "String"])), Field::FieldString));
  assert!(matches!(Field::from_path(path(&["bool"])), Field::FieldBool));
  assert!(matches!(Field::from_path(path(&["u8"])), Field::FieldU8));
  assert!(matches!(Field::from_path(path(&["i64"])), Field::FieldI64));
  assert!(matches!(Field::from_path(path(&["f32"])), Field::FieldF32));
}

#[test]
fn options_and_lists_hold_the_kind_of_their_argument() {
  match Field::from_path(generic("Option", path(&["String"]))) {
    Field::FieldOption { data_type } => assert!(matches!(*data_type, Field::FieldString)),
    other => panic!("unexpected {:?}", other),
  }
  match Field::from_path(generic("Vec", path(&["crate", "Item"]))) {
    Field::FieldVec { data_type } => match *data_type {
      Field::FieldStruct { struct_name } => assert_eq!(path_identifier(&struct_name), "crateItem"),
      other => panic!("unexpected {:?}", other),
    },
    other => panic!("unexpected {:?}", other),
  }
  match Field::from_path(generic("Vec", generic("Option", path(&["u16"])))) {
    Field::FieldVec { data_type } => match *data_type {
      Field::FieldOption { data_type } => assert!(matches!(*data_type, Field::FieldU16)),
      other => panic!("unexpected {:?}", other),
    },
    other => panic!("unexpected {:?}", other),
  }
}

#[test]
fn other_types_are_structures() {
  match Field::from_path(path(&["module", "Type"])) {
    Field::FieldStruct { struct_name } => assert_eq!(path_identifier(&struct_name), "moduleType"),
    other => panic!("unexpected {:?}", other),
  }
}

#[test]
fn simple_kinds_have_visitor_names() {
  assert_eq!(Field::FieldString.kind_name(), "str");
  assert_eq!(Field::FieldString.get_simple_type_visitor(), "visit_str");
  assert_eq!(Field::FieldBool.get_simple_type_visitor(), "visit_bool");
  assert_eq!(Field::FieldU32.get_simple_type_visitor(), "visit_u32");
  assert_eq!(Field::FieldF64.get_simple_type_visitor(), "visit_f64");
}

#[test]
fn dots_become_underscores() {
  assert_eq!(replace_dots("a.b.c"), "a_b_c");
  assert_eq!(replace_dots("plain"), "plain");
}

#[test]
fn field_names() {
  let field = YaSerdeField::new(Some("r#type".to_string()), path(&["u8"]), &vec![]);
  assert_eq!(field.label(), Some("r#type".to_string()));
  assert_eq!(field.get_value_label(), Some("__type_value".to_string()));
  assert_eq!(field.renamed_label_without_namespace(), "r#type");
  assert!(!field.is_attribute());
  assert!(!field.is_text_content());
  assert!(!field.is_flatten());
  assert!(matches!(field.get_type(), Field::FieldU8));

  let renamed = YaSerdeField::new(Some("value".to_string()), path(&["String"]), &rename("my.field_name"));
  assert_eq!(renamed.get_value_label(), Some("__value_value".to_string()));
  assert_eq!(renamed.renamed_label_without_namespace(), "my.field_name");

  let tuple_field = YaSerdeField::new(None, path(&["String"]), &vec![]);
  assert_eq!(tuple_field.get_value_label(), None);
}

#[test]
fn the_written_name_carries_the_prefix() {
  let mut attributes = YaSerdeAttribute::empty();
  attributes.prefix = Some("p".to_string());
  let field = YaSerdeField::with_attributes(Some("item".to_string()), path(&["u8"]), attributes);
  let mut root = YaSerdeAttribute::empty();
  assert_eq!(field.renamed_label(&root), "p:item");
  root.default_namespace = Some("p".to_string());
  assert_eq!(field.renamed_label(&root), "item");
}

#[test]
fn visitor_names_use_the_camel_case_label() {
  let renamed = YaSerdeField::new(Some("value".to_string()), path(&["String"]), &rename("my.field_name"));
  assert_eq!(renamed.get_visitor_ident(None), "__Visitor_MyFieldName_");
  assert_eq!(renamed.get_visitor_ident(Some(&path(&["a", "Foo"]))), "__Visitor_MyFieldName_aFoo");
  let plain = YaSerdeField::new(Some("item".to_string()), path(&["u8"]), &vec![]);
  assert_eq!(plain.get_visitor_ident(None), "__Visitor_Item_");
  assert_eq!(build_visitor_ident("my.label", None), "__Visitor_MyLabel_");
  assert_eq!(build_visitor_ident("sub", Some(&path(&["x", "Sub"]))), "__Visitor_Sub_xSub");
  assert_eq!(build_visitor_ident("my.field_name", None), renamed.get_visitor_ident(None));
}

#[test]
fn the_namespace_of_a_field_is_the_one_the_root_binds_to_its_prefix() {
  let mut attributes = YaSerdeAttribute::empty();
  attributes.prefix = Some("q".to_string());
  let field = YaSerdeField::with_attributes(Some("item".to_string()), path(&["u8"]), attributes);
  let mut root = YaSerdeAttribute::empty();
  assert!(field.get_namespace_matching(&root).accepted.is_empty());
  root.namespaces.insert("q".to_string(), "urn:q".to_string());
  assert_eq!(field.get_namespace_matching(&root).accepted, vec!["urn:q".to_string()]);
}

#[test]
fn conditions_and_defaults_follow_the_settings() {
  let field = YaSerdeField::with_attributes(Some("a".to_string()), path(&["u8"]), YaSerdeAttribute::empty());
  assert_eq!(condition_generator(&field), SerializationCondition::Always);
  assert_eq!(field.ser_wrap_default_attribute(), SerializationCondition::Always);
  assert_eq!(build_default_value(&field), DefaultValue::TypeDefault);
  assert_eq!(field.get_default_function(), None);
  assert_eq!(field.get_skip_serializing_if_function(), None);

  let mut attributes = YaSerdeAttribute::empty();
  attributes.skip_serializing_if = Some("is_empty".to_string());
  let field = YaSerdeField::with_attributes(Some("a".to_string()), path(&["u8"]), attributes);
  assert_eq!(
    condition_generator(&field),
    SerializationCondition::UnlessSkipped { skip_if: "is_empty".to_string() }
  );

  let mut attributes = YaSerdeAttribute::empty();
  attributes.default = Some("default_a".to_string());
  let field = YaSerdeField::with_attributes(Some("a".to_string()), path(&["u8"]), attributes);
  assert_eq!(
    condition_generator(&field),
    SerializationCondition::UnlessDefault { default: "default_a".to_string() }
  );
  assert_eq!(build_default_value(&field), DefaultValue::DefaultFunction("default_a".to_string()));
  assert_eq!(field.get_default_function(), Some("default_a".to_string()));

  let mut attributes = YaSerdeAttribute::empty();
  attributes.default = Some("default_a".to_string());
  attributes.skip_serializing_if = Some("skip_a".to_string());
  let field = YaSerdeField::with_attributes(Some("a".to_string()), path(&["u8"]), attributes);
  assert_eq!(
    field.ser_wrap_default_attribute(),
    SerializationCondition::UnlessSkippedOrDefault { skip_if: "skip_a".to_string(), default: "default_a".to_string() }
  );
}

#[test]
fn a_skipped_field_is_never_written() {
  let mut attributes = YaSerdeAttribute::empty();
  attributes.skip_serializing = true;
  attributes.default = Some("default_a".to_string());
  let field = YaSerdeField::with_attributes(Some("a".to_string()), path(&["String"]), attributes);
  assert_eq!(condition_generator(&field), SerializationCondition::Never);
  assert_eq!(field.ser_wrap_default_attribute(), SerializationCondition::Never);

  let skipped = YaSerdeField::new(
    Some("b".to_string()),
    path(&["u8"]),
    &vec![vec![AttrToken::Group { parenthesis: true, tokens: vec![AttrToken::Ident("skip_serializing".to_string())] }]],
  );
  assert_eq!(condition_generator(&skipped), SerializationCondition::Never);
}
