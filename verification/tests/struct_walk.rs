use yaserde::derive::attribute::AttrToken;
use yaserde::derive::field::{PathSegment, TypePath, YaSerdeField};
use yaserde::event::{ReaderEvent, XmlName};
use yaserde::reading::{
  enum_read_step, field_reading, struct_read_step, variant_named, ChildReading, EnumReadAction, FieldReading,
  ReadAction, StructReadState,
};

fn name(local: &str) -> XmlName {
  XmlName { local_name: local.to_string(), namespace: None, prefix: None }
}

fn start(local: &str) -> ReaderEvent {
  ReaderEvent::StartElement { name: name(local), attributes: vec![], namespace: vec![] }
}

fn end(local: &str) -> ReaderEvent {
  ReaderEvent::EndElement { name: name(local) }
}

fn fields() -> Vec<FieldReading> {
  vec![
    FieldReading { label: "title".to_string(), reading: ChildReading::Text },
    FieldReading { label: "author".to_string(), reading: ChildReading::Nested },
    FieldReading { label: "title".to_string(), reading: ChildReading::Nested },
  ]
}

fn step(depth: i64, event: &ReaderEvent, flatten: bool) -> (i64, ReadAction) {
  let (state, action) = struct_read_step(&StructReadState { depth }, event, "book", flatten, &fields());
  (state.depth, action)
}

fn path(idents: &[&str]) -> TypePath {
  TypePath { segments: idents.iter().map(|i| PathSegment { ident: i.to_string(), argument: None }).collect() }
}

fn generic(ident: &str, argument: TypePath) -> TypePath {
  TypePath { segments: vec![PathSegment { ident: ident.to_string(), argument: Some(Box::new(argument)) }] }
}

fn flags(names: &[&str]) -> Vec<Vec<AttrToken>> {
  let mut tokens = Vec::new();
  for (i, n) in names.iter().enumerate() {
    if i > 0 {
      tokens.push(AttrToken::Punct { ch: ',', alone: true });
    }
    tokens.push(AttrToken::Ident(n.to_string()));
  }
  vec![vec![AttrToken::Group { parenthesis: true, tokens }]]
}

#[test]
fn a_start_tag_named_like_a_field_goes_to_the_first_such_field() {
  assert_eq!(step(1, &start("title"), false), (2, ReadAction::ReadText { field: 0, attributes: false }));
  assert_eq!(
    step(1, &start("author"), false),
    (2, ReadAction::ReadNested { field: 1, own_start: false, attributes: false })
  );
}

#[test]
fn a_field_named_like_the_struct_element_reads_the_attributes_of_its_start_tag() {
  assert_eq!(step(0, &start("title"), false), (1, ReadAction::ReadText { field: 0, attributes: true }));
  assert_eq!(
    step(0, &start("author"), false),
    (1, ReadAction::ReadNested { field: 1, own_start: true, attributes: true })
  );
}

#[test]
fn the_struct_start_tag_is_taken_with_its_attributes() {
  assert_eq!(step(0, &start("book"), false), (1, ReadAction::TakeStart { attributes: true }));
  assert_eq!(step(-1, &start("book"), false), (0, ReadAction::TakeStart { attributes: false }));
}

#[test]
fn unknown_children_are_skipped_whole() {
  assert_eq!(step(1, &start("isbn"), false), (2, ReadAction::SkipChild));
  assert_eq!(step(3, &start("book"), false), (4, ReadAction::SkipChild));
}

#[test]
fn the_walk_ends_at_the_struct_end_tag() {
  assert_eq!(step(2, &end("book"), false), (2, ReadAction::Finish));
  assert_eq!(step(2, &end("title"), false), (1, ReadAction::CloseChild));
  assert_eq!(step(0, &end("title"), false), (-1, ReadAction::CloseChild));
}

#[test]
fn the_end_of_the_document_ends_only_a_flattened_walk() {
  assert_eq!(step(1, &ReaderEvent::EndDocument, true), (1, ReadAction::Finish));
  assert_eq!(step(1, &ReaderEvent::EndDocument, false), (1, ReadAction::Wait));
}

#[test]
fn text_is_taken_and_other_events_are_refused() {
  assert_eq!(step(1, &ReaderEvent::Characters("x".to_string()), false), (1, ReadAction::TakeText));
  assert_eq!(step(1, &ReaderEvent::CData("x".to_string()), false), (1, ReadAction::Unknown));
  assert_eq!(step(1, &ReaderEvent::Whitespace(" ".to_string()), false), (1, ReadAction::Unknown));
}

#[test]
fn field_reading_follows_the_field_kind() {
  let nested = YaSerdeField::new(Some("author".to_string()), path(&["Person"]), &vec![]);
  let reading = field_reading(&nested).unwrap();
  assert_eq!(reading.label, "author");
  assert_eq!(reading.reading, ChildReading::Nested);

  let listed = YaSerdeField::new(Some("authors".to_string()), generic("Vec", path(&["Person"])), &vec![]);
  assert_eq!(field_reading(&listed).unwrap().reading, ChildReading::Nested);

  let text = YaSerdeField::new(Some("pages".to_string()), generic("Option", path(&["u32"])), &vec![]);
  let reading = field_reading(&text).unwrap();
  assert_eq!(reading.label, "pages");
  assert_eq!(reading.reading, ChildReading::Text);
}

#[test]
fn field_reading_has_no_child_elements_for_a_flattened_attribute() {
  let field = YaSerdeField::new(Some("id".to_string()), path(&["String"]), &flags(&["attribute", "flatten"]));
  assert!(field_reading(&field).is_none());
  let attribute = YaSerdeField::new(Some("id".to_string()), path(&["String"]), &flags(&["attribute"]));
  assert_eq!(field_reading(&attribute).unwrap().label, "id");
}

fn variants() -> Vec<String> {
  vec!["Red".to_string(), "Green".to_string(), "Red".to_string()]
}

#[test]
fn an_enum_start_tag_selects_the_first_variant_named_like_it() {
  assert_eq!(
    enum_read_step(&start("Red"), "color", false, &variants()),
    EnumReadAction::StartTag { variant: Some(0) }
  );
  assert_eq!(
    enum_read_step(&start("Green"), "color", false, &variants()),
    EnumReadAction::StartTag { variant: Some(1) }
  );
  assert_eq!(
    enum_read_step(&start("color"), "color", false, &variants()),
    EnumReadAction::StartTag { variant: None }
  );
}

#[test]
fn an_enum_walk_consumes_text_and_other_end_tags_and_stops_at_its_own() {
  assert_eq!(enum_read_step(&end("color"), "color", false, &variants()), EnumReadAction::Finish);
  assert_eq!(enum_read_step(&end("Red"), "color", false, &variants()), EnumReadAction::Consume);
  assert_eq!(
    enum_read_step(&ReaderEvent::Characters("Red".to_string()), "color", false, &variants()),
    EnumReadAction::Consume
  );
  assert_eq!(enum_read_step(&ReaderEvent::EndDocument, "color", true, &variants()), EnumReadAction::Finish);
  assert_eq!(
    enum_read_step(&ReaderEvent::EndDocument, "color", false, &variants()),
    EnumReadAction::MissingContent
  );
  assert_eq!(
    enum_read_step(&ReaderEvent::Comment("c".to_string()), "color", false, &variants()),
    EnumReadAction::Unknown
  );
}

#[test]
fn variant_named_finds_the_first_match() {
  assert_eq!(variant_named(&variants(), "Red"), Some(0));
  assert_eq!(variant_named(&variants(), "Green"), Some(1));
  assert_eq!(variant_named(&variants(), "Blue"), None);
}
