use yaserde::de::{from_str, Deserializer};
use yaserde::derive::attribute::{AttrToken, YaSerdeAttribute};
use yaserde::event::ReaderEvent;
use yaserde::YaDeserialize;

fn key_value(key: &str, value: &str) -> Vec<AttrToken> {
  vec![
    AttrToken::Ident(key.to_string()),
    AttrToken::Punct { ch: '=', alone: true },
    AttrToken::Literal(format!("\"{}\"", value)),
  ]
}

fn yaserde_attribute(settings: Vec<Vec<AttrToken>>) -> Vec<Vec<AttrToken>> {
  let mut tokens = Vec::new();
  for (i, setting) in settings.into_iter().enumerate() {
    if i > 0 {
      tokens.push(AttrToken::Punct { ch: ',', alone: true });
    }
    tokens.extend(setting);
  }
  vec![vec![AttrToken::Group { parenthesis: true, tokens }]]
}

#[derive(PartialEq, Debug)]
pub enum XmlStruct {
  Item,
}

impl Default for XmlStruct {
  fn default() -> XmlStruct {
    XmlStruct::Item
  }
}

impl YaDeserialize for XmlStruct {
  fn deserialize(reader: &mut Deserializer) -> Result<Self, String> {
    let root_attributes = YaSerdeAttribute::parse(&yaserde_attribute(vec![
      key_value("root", "root"),
      key_value("prefix", "ns"),
      key_value("namespace", "ns: http://www.sample.com/ns/domain"),
    ]));
    let item_attributes = YaSerdeAttribute::parse(&yaserde_attribute(vec![key_value("prefix", "ns")]));
    let item_name = item_attributes.xml_element_name("Item");
    let (named_element, enum_namespace) = match reader.peek()?.clone() {
      ReaderEvent::StartElement { name, .. } => (name.local_name, name.namespace),
      _ => ("root".to_string(), None),
    };
    root_attributes
      .get_namespace_matching(&None, true)
      .check(&enum_namespace, &named_element)?;
    let mut enum_value = None;
    loop {
      let event = reader.peek()?.clone();
      match event {
        ReaderEvent::StartElement { ref name, .. } => {
          if name.local_name == item_name {
            enum_value = Some(XmlStruct::Item);
          } else {
            let _root = reader.next_event();
          }
          if let ReaderEvent::Characters(content) = reader.peek()?.clone() {
            if content == item_name {
              enum_value = Some(XmlStruct::Item);
            }
          }
        }
        ReaderEvent::EndElement { ref name } => {
          if name.local_name == named_element {
            break;
          }
          let _root = reader.next_event();
        }
        ReaderEvent::Characters(_) => {
          let _root = reader.next_event();
        }
        ReaderEvent::EndDocument => {
          return Err("End of document, missing some content ?".to_string());
        }
        event => return Err(format!("unknown event {:?}", event)),
      }
    }
    match enum_value {
      Some(value) => Ok(value),
      None => Ok(XmlStruct::default()),
    }
  }
}

#[test]
fn der_namespace_de_enum_namespace() {
  let content = "<?xml version=\"1.0\" encoding=\"utf-8\"?><ns:root xmlns:ns=\"http://www.sample.com/ns/domain\">ns:Item</ns:root>";
  let loaded: Result<XmlStruct, String> = from_str(content);
  assert_eq!(loaded, Ok(XmlStruct::Item));
}
