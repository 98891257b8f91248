use yaserde::de::Deserializer;
use yaserde::event::{same_name, same_optional, ReaderEvent, WriterEvent, XmlAttribute, XmlName};
use yaserde::ser::Serializer;

fn name(local: &str, prefix: Option<&str>) -> XmlName {
  XmlName { local_name: local.to_string(), namespace: None, prefix: prefix.map(|p| p.to_string()) }
}

#[test]
fn a_written_name_is_split_at_its_first_colon() {
  assert_eq!(XmlName::from_qualified("p:item"), name("item", Some("p")));
  assert_eq!(XmlName::from_qualified("a:b:c"), name("b:c", Some("a")));
  assert_eq!(XmlName::from_qualified("item"), name("item", None));
  assert_eq!(XmlName::from_qualified(":x"), name("x", Some("")));
}

#[test]
fn a_name_is_written_with_its_prefix() {
  assert_eq!(name("item", Some("p")).qualified_name(), "p:item");
  assert_eq!(name("item", None).qualified_name(), "item");
  for written in ["p:item", "item", "a:b:c"] {
    assert_eq!(XmlName::from_qualified(written).qualified_name(), written);
  }
}

#[test]
fn names_are_the_same_when_all_parts_agree() {
  assert!(same_name(&name("a", Some("p")), &name("a", Some("p"))));
  assert!(!same_name(&name("a", Some("p")), &name("a", None)));
  assert!(!same_name(&name("a", None), &name("b", None)));
  let mut other = name("a", None);
  other.namespace = Some("urn:x".to_string());
  assert!(!same_name(&name("a", None), &other));
  assert!(same_optional(&None, &None));
  assert!(same_optional(&Some("x".to_string()), &Some("x".to_string())));
  assert!(!same_optional(&Some("x".to_string()), &None));
}

#[test]
fn events_are_written_back_as_they_were_read() {
  let content = "<p:a xmlns:p=\"urn:p\" k=\"v\"><b>t</b></p:a>";
  let mut reader = Deserializer::new_from_reader(content.as_bytes());
  let mut serializer = Serializer::new_for_inner(Vec::new());
  loop {
    let event = reader.next_event().unwrap();
    if event == ReaderEvent::EndDocument {
      assert_eq!(event.as_writer_event(), None);
      break;
    }
    let written = event.as_writer_event().unwrap();
    assert!(serializer.write(written).is_ok());
  }
  assert_eq!(String::from_utf8(serializer.into_inner()).unwrap(), content);
}

#[test]
fn a_start_tag_is_written_under_its_written_names() {
  let event = ReaderEvent::StartElement {
    name: name("a", Some("p")),
    attributes: vec![XmlAttribute { name: name("k", Some("q")), value: "v".to_string() }],
    namespace: vec![("p".to_string(), "urn:p".to_string())],
  };
  assert_eq!(
    event.as_writer_event(),
    Some(WriterEvent::StartElement {
      name: "p:a".to_string(),
      attributes: vec![("q:k".to_string(), "v".to_string())],
      namespace: vec![("p".to_string(), "urn:p".to_string())],
    })
  );
  assert_eq!(
    ReaderEvent::EndElement { name: name("a", Some("p")) }.as_writer_event(),
    Some(WriterEvent::EndElement { name: Some("p:a".to_string()) })
  );
  assert_eq!(
    ReaderEvent::Whitespace(" ".to_string()).as_writer_event(),
    Some(WriterEvent::Characters(" ".to_string()))
  );
  assert_eq!(ReaderEvent::StartDocument.as_writer_event(), None);
}
