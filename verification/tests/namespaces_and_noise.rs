use yaserde::de::{from_str, Deserializer};
use yaserde::derive::attribute::{AttrToken, YaSerdeAttribute};
use yaserde::event::ReaderEvent;
use yaserde::reading::{struct_read_step, ChildReading, FieldReading, ReadAction, StructReadState};
use yaserde::YaDeserialize;

fn key_value(key: &str, value: &str) -> Vec<AttrToken> {
  vec![
    AttrToken::Ident(key.to_string()),
    AttrToken::Punct { ch: '=', alone: true },
    AttrToken::Literal(format!("\"{}\"", value)),
  ]
}

fn yaserde_attribute(settings: Vec<Vec<AttrToken>>) -> Vec<Vec<AttrToken>> {
  if settings.is_empty() {
    return vec![];
  }
  let mut tokens = Vec::new();
  for (i, setting) in settings.into_iter().enumerate() {
    if i > 0 {
      tokens.push(AttrToken::Punct { ch: ',', alone: true });
    }
    tokens.extend(setting);
  }
  vec![vec![AttrToken::Group { parenthesis: true, tokens }]]
}

/// The reading of a struct with two text fields, `author` and `title`, as the derive writes it,
/// with the given settings for the struct and for each field.
fn read_book(
  reader: &mut Deserializer,
  root_settings: Vec<Vec<AttrToken>>,
  author_settings: Vec<Vec<AttrToken>>,
  title_settings: Vec<Vec<AttrToken>>,
) -> Result<(String, String), String> {
  let root_attributes = YaSerdeAttribute::parse(&yaserde_attribute(root_settings));
  let field_attributes = [
    YaSerdeAttribute::parse(&yaserde_attribute(author_settings)),
    YaSerdeAttribute::parse(&yaserde_attribute(title_settings)),
  ];
  let (named_element, struct_namespace) = match reader.peek()?.clone() {
    ReaderEvent::StartElement { name, .. } => (name.local_name, name.namespace),
    _ => ("book".to_string(), None),
  };
  if reader.depth() == 0 {
    root_attributes
      .get_namespace_matching(&None, true)
      .check(&struct_namespace, &named_element)?;
  }
  let mut values = [String::new(), String::new()];
  let fields = vec![
    FieldReading { label: "author".to_string(), reading: ChildReading::Text },
    FieldReading { label: "title".to_string(), reading: ChildReading::Text },
  ];
  let mut state = StructReadState { depth: 0 };
  loop {
    let event = reader.peek()?.clone();
    let (next_state, action) = struct_read_step(&state, &event, &named_element, false, &fields);
    state = next_state;
    match action {
      ReadAction::ReadText { field, .. } => {
        if let ReaderEvent::StartElement { ref name, .. } = event {
          root_attributes
            .get_namespace_matching(&field_attributes[field].prefix, false)
            .check(&name.namespace, &name.local_name)?;
          let label = fields[field].label.clone();
          let result = reader.read_inner_value(|text: Option<&String>| match text {
            Some(s) => Ok(s.to_string()),
            None => Err(format!("unable to parse content for {}", label)),
          });
          if let Ok(value) = result {
            values[field] = value;
          }
        }
      }
      ReadAction::TakeStart { .. } | ReadAction::CloseChild | ReadAction::TakeText => {
        let _event = reader.next_event()?;
      }
      ReadAction::SkipChild => {
        let _event = reader.next_event()?;
        reader.skip_element()?;
      }
      ReadAction::Finish => break,
      ReadAction::Wait | ReadAction::ReadNested { .. } => {}
      ReadAction::Unknown => return Err(format!("unknown event {:?}", event)),
    }
  }
  let [author, title] = values;
  Ok((author, title))
}

#[derive(PartialEq, Debug)]
pub struct Book {
  author: String,
  title: String,
}

impl YaDeserialize for Book {
  fn deserialize(reader: &mut Deserializer) -> Result<Self, String> {
    let (author, title) = read_book(reader, vec![key_value("root", "book")], vec![], vec![])?;
    Ok(Book { author, title })
  }
}

#[derive(PartialEq, Debug)]
pub struct NamespacedBook {
  author: String,
  title: String,
}

impl YaDeserialize for NamespacedBook {
  fn deserialize(reader: &mut Deserializer) -> Result<Self, String> {
    let (author, title) = read_book(
      reader,
      vec![
        key_value("root", "book"),
        key_value("prefix", "ns"),
        key_value("namespace", "ns: http://www.sample.com/ns/domain"),
        key_value("namespace", "ns2: http://www.sample.com/ns/domain_2"),
      ],
      vec![key_value("prefix", "ns")],
      vec![key_value("prefix", "ns2")],
    )?;
    Ok(NamespacedBook { author, title })
  }
}

#[test]
fn de_namespace_de_struct_namespace() {
  let expected = || NamespacedBook {
    author: String::from("Antoine de Saint-Exupéry"),
    title: String::from("Little prince"),
  };

  let content = r#"<?xml version="1.0" encoding="utf-8"?>
    <ns:book xmlns:ns="http://www.sample.com/ns/domain" xmlns:ns2="http://www.sample.com/ns/domain_2">
      <ns:author>Antoine de Saint-Exupéry</ns:author>
      <ns2:title>Little prince</ns2:title>
    </ns:book>
  "#;
  let loaded: Result<NamespacedBook, String> = from_str(content);
  assert_eq!(loaded, Ok(expected()));

  let content = r#"<?xml version="1.0" encoding="utf-8"?>
    <ns:book xmlns:ns="http://www.sample.com/ns/domain">
      <ns:author>Antoine de Saint-Exupéry</ns:author>
      <ns2:title xmlns:ns2="http://www.sample.com/ns/domain_2">Little prince</ns2:title>
    </ns:book>
  "#;
  let loaded: Result<NamespacedBook, String> = from_str(content);
  assert_eq!(loaded, Ok(expected()));

  let content = r#"<?xml version="1.0" encoding="utf-8"?>
    <book xmlns="http://www.sample.com/ns/domain">
      <author>Antoine de Saint-Exupéry</author>
      <ns2:title xmlns:ns2="http://www.sample.com/ns/domain_2">Little prince</ns2:title>
    </book>
  "#;
  let loaded: Result<NamespacedBook, String> = from_str(content);
  assert_eq!(loaded, Ok(expected()));

  let content = r#"<?xml version="1.0" encoding="utf-8"?>
  <ns:book xmlns:ns="http://www.sample.com/ns/domain2">
    <ns:author>Antoine de Saint-Exupéry</ns:author>
    <ns:title>Little prince</ns:title>
  </ns:book>"#;
  let loaded: Result<NamespacedBook, String> = from_str(content);
  assert_eq!(
    loaded,
    Err("bad namespace for book, found http://www.sample.com/ns/domain2".to_string())
  );
}

#[test]
fn comments_and_instructions_are_read_past() {
  let plain = "<book><author>A</author><title>T</title></book>";
  let noisy = "<?xml version=\"1.0\"?><!-- c --><book><?pi x?><author>A</author><!-- d --><title>T</title></book>";
  let a: Result<Book, String> = from_str(plain);
  let b: Result<Book, String> = from_str(noisy);
  assert_eq!(a, b);
  assert_eq!(a, Ok(Book { author: "A".to_string(), title: "T".to_string() }));
}
