use yaserde::de::{from_str, Deserializer};
use yaserde::event::{ReaderEvent, XmlName};
use yaserde::primitives::deserialize_primitives;
use yaserde::{Visitor, YaDeserialize};

fn reader_over(text: &'static str) -> Deserializer<'static> {
  Deserializer::new_from_reader(text.as_bytes())
}

fn plain_name(local: &str) -> XmlName {
  XmlName { local_name: local.to_string(), namespace: None, prefix: None }
}

fn start_name(event: &ReaderEvent) -> Option<String> {
  match event {
    ReaderEvent::StartElement { name, .. } => Some(name.local_name.clone()),
    _ => None,
  }
}

fn end_name(event: &ReaderEvent) -> Option<String> {
  match event {
    ReaderEvent::EndElement { name } => Some(name.local_name.clone()),
    _ => None,
  }
}

#[test]
fn peek_gives_the_same_event_until_it_is_taken() {
  let mut reader = reader_over("<a><b/></a>");
  let first = reader.peek().unwrap().clone();
  let second = reader.peek().unwrap().clone();
  assert_eq!(first, second);
  assert_eq!(start_name(&first), Some("a".to_string()));
  assert_eq!(reader.depth(), 0);
  let taken = reader.next_event().unwrap();
  assert_eq!(taken, first);
  assert_eq!(reader.depth(), 1);
  assert_eq!(start_name(reader.peek().unwrap()), Some("b".to_string()));
}

#[test]
fn depth_counts_the_open_elements() {
  let mut reader = reader_over("<a><b></b><c>text</c></a>");
  let mut depths = Vec::new();
  for _ in 0..7 {
    reader.next_event().unwrap();
    depths.push(reader.depth());
  }
  assert_eq!(depths, vec![1, 2, 1, 2, 2, 1, 0]);
  assert_eq!(reader.next_event().unwrap(), ReaderEvent::EndDocument);
  assert_eq!(reader.depth(), 0);
}

#[test]
fn declaration_instructions_and_comments_are_passed_over() {
  let mut reader = reader_over("<?xml version=\"1.0\"?><!-- note --><?target data?><a>x<!-- c --></a>");
  assert_eq!(start_name(&reader.next_event().unwrap()), Some("a".to_string()));
  assert_eq!(reader.next_event().unwrap(), ReaderEvent::Characters("x".to_string()));
  assert_eq!(end_name(&reader.next_event().unwrap()), Some("a".to_string()));
}

#[test]
fn start_tag_carries_its_attributes_and_namespace() {
  let mut reader = reader_over("<p:a xmlns:p=\"urn:p\" k=\"v\"/>");
  match reader.next_event().unwrap() {
    ReaderEvent::StartElement { name, attributes, namespace } => {
      assert_eq!(name.local_name, "a");
      assert_eq!(name.prefix, Some("p".to_string()));
      assert_eq!(name.namespace, Some("urn:p".to_string()));
      assert_eq!(attributes.len(), 1);
      assert_eq!(attributes[0].name.local_name, "k");
      assert_eq!(attributes[0].value, "v");
      assert!(namespace.contains(&("p".to_string(), "urn:p".to_string())));
    }
    other => panic!("unexpected {:?}", other),
  }
}

#[test]
fn skip_element_hands_out_the_rest_of_the_open_element() {
  let mut reader = reader_over("<root><skip><x>1</x><y/></skip><keep/></root>");
  reader.next_event().unwrap();
  reader.next_event().unwrap();
  assert_eq!(reader.depth(), 2);
  let skipped = reader.skip_element().unwrap();
  assert_eq!(skipped.len(), 6);
  assert_eq!(start_name(&skipped[0]), Some("x".to_string()));
  assert_eq!(skipped[1], ReaderEvent::Characters("1".to_string()));
  assert_eq!(end_name(&skipped[2]), Some("x".to_string()));
  assert_eq!(start_name(&skipped[3]), Some("y".to_string()));
  assert_eq!(end_name(&skipped[4]), Some("y".to_string()));
  assert_eq!(end_name(&skipped[5]), Some("skip".to_string()));
  assert_eq!(reader.depth(), 1);
  assert_eq!(start_name(reader.peek().unwrap()), Some("keep".to_string()));
}

#[test]
fn expect_end_element_takes_the_matching_end_tag() {
  let mut reader = reader_over("<a></a>");
  reader.next_event().unwrap();
  assert_eq!(reader.expect_end_element(&plain_name("a")), Ok(()));
  assert_eq!(reader.depth(), 0);
}

#[test]
fn expect_end_element_refuses_another_event() {
  let mut reader = reader_over("<a><b/></a>");
  reader.next_event().unwrap();
  assert_eq!(reader.expect_end_element(&plain_name("a")), Err("Unexpected token </a>".to_string()));
}

#[test]
fn expect_end_element_refuses_another_name() {
  let mut reader = reader_over("<a></a>");
  reader.next_event().unwrap();
  assert_eq!(
    reader.expect_end_element(&plain_name("z")),
    Err("End tag </a> didn't match the start tag <z>".to_string())
  );
}

#[test]
fn read_inner_value_reads_the_text_of_one_element() {
  let mut reader = reader_over("<r><v>42</v><w/></r>");
  reader.next_event().unwrap();
  let value = reader.read_inner_value(|text: Option<&String>| text.unwrap().parse::<u32>().map_err(|e| e.to_string()));
  assert_eq!(value, Ok(42));
  assert_eq!(reader.depth(), 1);
  assert_eq!(start_name(reader.peek().unwrap()), Some("w".to_string()));
}

#[test]
fn read_inner_value_without_text_calls_the_conversion_on_nothing() {
  let mut reader = reader_over("<r><v></v><w/></r>");
  reader.next_event().unwrap();
  let value = reader.read_inner_value(|text: Option<&String>| Ok::<Option<String>, String>(text.cloned()));
  assert_eq!(value, Ok(None));
  assert_eq!(start_name(reader.peek().unwrap()), Some("w".to_string()));
}

#[test]
fn read_inner_value_needs_a_start_tag() {
  let mut reader = reader_over("<r>text</r>");
  reader.next_event().unwrap();
  let mut called = false;
  let value = reader.read_inner_value(|text: Option<&String>| {
    called = true;
    Ok::<Option<String>, String>(text.cloned())
  });
  assert_eq!(value, Err("Internal error: Bad Event".to_string()));
  assert!(!called);
}

#[test]
fn read_inner_value_passes_on_the_error_of_the_conversion() {
  let mut reader = reader_over("<r><v>abc</v></r>");
  reader.next_event().unwrap();
  let value = reader.read_inner_value(|text: Option<&String>| Err::<u8, String>(format!("bad {}", text.unwrap())));
  assert_eq!(value, Err("bad abc".to_string()));
}

#[test]
fn parse_errors_come_back_as_their_message() {
  let mut reader = reader_over("<a></b>");
  reader.next_event().unwrap();
  assert_eq!(reader.next_event(), Err("Unexpected closing tag: b, expected a".to_string()));
}

#[test]
fn deserialize_primitives_reads_the_text_after_a_start_tag() {
  let mut reader = reader_over("<v>12</v>");
  let value = deserialize_primitives(&mut reader, |text: &str| text.parse::<i32>().map_err(|e| e.to_string()));
  assert_eq!(value, Ok(12));
  assert_eq!(reader.depth(), 1);
}

#[test]
fn deserialize_primitives_gives_the_empty_text_to_an_empty_element() {
  let mut reader = reader_over("<v/>");
  let value = deserialize_primitives(&mut reader, |text: &str| Ok::<String, String>(text.to_string()));
  assert_eq!(value, Ok(String::new()));
}

#[test]
fn deserialize_primitives_needs_a_start_tag() {
  let mut reader = reader_over("<v>12</v>");
  reader.next_event().unwrap();
  let value = deserialize_primitives(&mut reader, |text: &str| Ok::<String, String>(text.to_string()));
  assert_eq!(value, Err("Start element not found".to_string()));
}

#[derive(PartialEq, Debug)]
pub struct Book {
  author: String,
  title: String,
}

struct TextVisitor;

impl<'de> Visitor<'de> for TextVisitor {
  type Value = String;

  fn visit_str(self, v: &str) -> Result<String, String> {
    Ok(v.to_string())
  }
}

fn text_value(text: Option<&String>) -> Result<String, String> {
  match text {
    Some(s) => TextVisitor.visit_str(s),
    None => Err("unable to parse content".to_string()),
  }
}

impl YaDeserialize for Book {
  fn deserialize(reader: &mut Deserializer) -> Result<Self, String> {
    let named_element = match reader.peek()?.clone() {
      ReaderEvent::StartElement { name, .. } => name.local_name,
      _ => "book".to_string(),
    };
    let mut author_value = String::default();
    let mut title_value = String::default();
    let mut depth = 0;
    loop {
      let event = reader.peek()?.clone();
      match event {
        ReaderEvent::StartElement { ref name, .. } => {
          match name.local_name.as_str() {
            "author" => {
              if let Ok(value) = reader.read_inner_value(|text: Option<&String>| text_value(text)) {
                author_value = value;
              }
            }
            "title" => {
              if let Ok(value) = reader.read_inner_value(|text: Option<&String>| text_value(text)) {
                title_value = value;
              }
            }
            _ => {
              reader.next_event()?;
              if depth > 0 {
                reader.skip_element()?;
              }
            }
          }
          depth += 1;
        }
        ReaderEvent::EndElement { ref name } => {
          if name.local_name == named_element {
            break;
          }
          reader.next_event()?;
          depth -= 1;
        }
        ReaderEvent::EndDocument => {}
        ReaderEvent::Characters(_) => {
          reader.next_event()?;
        }
        event => return Err(format!("unknown event {:?}", event)),
      }
    }
    Ok(Book { author: author_value, title: title_value })
  }
}

#[test]
fn de_no_content() {
  let content = "";
  let loaded: Result<Book, String> = from_str(content);
  assert_eq!(loaded, Err(String::from("Unexpected end of stream: no root element found")));
}

#[test]
fn de_wrong_end_balise() {
  let content = "<book><author>Antoine de Saint-Exupéry<title>Little prince</title></book>";
  let loaded: Result<Book, String> = from_str(content);
  assert_eq!(loaded, Err(String::from("Unexpected closing tag: book, expected author")));
}

#[test]
fn a_whole_book_is_read() {
  let content = "<?xml version=\"1.0\"?><book><author>Antoine</author><title>Little prince</title></book>";
  let loaded: Result<Book, String> = from_str(content);
  assert_eq!(loaded, Ok(Book { author: "Antoine".to_string(), title: "Little prince".to_string() }));
}

#[test]
fn cdata_is_read_as_characters() {
  let mut reader = reader_over("<msgdata><![CDATA[<tag>Some unescaped content</tag>]]></msgdata>");
  reader.next_event().unwrap();
  assert_eq!(
    reader.next_event().unwrap(),
    ReaderEvent::Characters("<tag>Some unescaped content</tag>".to_string())
  );
}

fn number(text: &str) -> Result<u32, String> {
  text.parse::<u32>().map_err(|_| format!("not a number: {:?}", text))
}

#[test]
fn read_text_value_reads_the_text_of_one_element() {
  let mut reader = reader_over("<v>12</v>");
  assert_eq!(reader.read_text_value("field_0", number), Ok(12));
  assert_eq!(reader.depth(), 0);
}

#[test]
fn read_text_value_gives_the_empty_text_for_an_empty_element() {
  let mut reader = reader_over("<v></v>");
  assert_eq!(
    reader.read_text_value("field_0", |text: &str| Ok::<String, String>(text.to_string())),
    Ok(String::new())
  );
  assert_eq!(reader.depth(), 0);
}

#[test]
fn read_text_value_refuses_an_element_inside() {
  let mut reader = reader_over("<v><x/></v>");
  assert_eq!(
    reader.read_text_value("field_0", number),
    Err("unable to parse content for field_0".to_string())
  );
  assert_eq!(reader.depth(), 2);
}

#[test]
fn read_text_value_checks_the_end_tag() {
  let mut reader = reader_over("<v>1<x/></v>");
  assert_eq!(reader.read_text_value("field_0", number), Err("Unexpected token </v>".to_string()));
}

#[test]
fn read_text_value_passes_on_the_conversion_error() {
  let mut reader = reader_over("<v>abc</v>");
  assert_eq!(reader.read_text_value("field_0", number), Err("not a number: \"abc\"".to_string()));
}

#[test]
fn read_text_value_needs_a_start_tag() {
  let mut reader = reader_over("<a>1</a>");
  reader.next_event().unwrap();
  reader.next_event().unwrap();
  assert_eq!(
    reader.read_text_value("field_0", number),
    Err("Internal error: Bad Event".to_string())
  );
}
