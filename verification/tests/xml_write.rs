use webdav::xml::elements::{Href, Multistatus};
use webdav::xml::properties::DisplayName;
use webdav::xml::write::{list_document_events, render, write_xml, WriteEvent};
use webdav::xml::{ElementName, Value, ValueMap, XmlError};

fn name(namespace: Option<&str>, prefix: Option<&str>, local_name: &str) -> ElementName {
    ElementName {
        namespace: namespace.map(String::from),
        prefix: prefix.map(String::from),
        local_name: local_name.into(),
    }
}

fn written<E: webdav::xml::Element>(value: &Value) -> String {
    String::from_utf8(write_xml::<E>(value).unwrap()).unwrap()
}

#[test]
fn text_root() {
    assert_eq!(
        written::<DisplayName>(&Value::Text("a".into())),
        "<?xml version=\"1.0\" encoding=\"utf-8\"?>\n<d:displayname xmlns:d=\"DAV:\">a</d:displayname>"
    );
}

#[test]
fn map_root_is_indented_by_two_spaces() {
    let mut inner = ValueMap::new();
    inner.insert_raw(name(None, None, "leaf"), Value::Empty);
    let mut map = ValueMap::new();
    map.insert_raw(name(Some("DAV:"), Some("D"), "href"), Value::Text("/a".into()));
    map.insert_raw(name(Some("urn:x"), Some("x"), "box"), Value::Elements(inner));
    map.insert_raw(name(Some("urn:y"), None, "item"), Value::Empty);
    map.insert_raw(name(Some("urn:y"), None, "item"), Value::Text("t".into()));
    let expected = "<?xml version=\"1.0\" encoding=\"utf-8\"?>\n<d:multistatus xmlns:d=\"DAV:\" xmlns:x=\"urn:x\" xmlns:NS=\"urn:y\">\n  <d:href>/a</d:href>\n  <x:box>\n    <leaf/>\n  </x:box>\n  <NS:item/>\n  <NS:item>t</NS:item>\n</d:multistatus>";
    assert_eq!(written::<Multistatus>(&Value::Elements(map)), expected);
}

#[test]
fn first_prefix_of_a_namespace_wins() {
    let mut map = ValueMap::new();
    map.insert_raw(name(Some("urn:x"), Some("a"), "one"), Value::Empty);
    map.insert_raw(name(Some("urn:x"), Some("b"), "two"), Value::Empty);
    let text = written::<Href>(&Value::Elements(map));
    assert!(text.contains("xmlns:a=\"urn:x\""));
    assert!(!text.contains("xmlns:b"));
    assert!(text.contains("<a:one/>"));
    assert!(text.contains("<a:two/>"));
}

#[test]
fn text_is_escaped() {
    let text = written::<DisplayName>(&Value::Text("<a> & \"b\" 'c'".into()));
    assert!(text.ends_with(">&lt;a&gt; &amp; \"b\" 'c'</d:displayname>"));
}

#[test]
fn root_must_be_a_map_or_a_text() {
    assert!(matches!(
        write_xml::<Href>(&Value::Empty),
        Err(XmlError::UnsupportedRoot)
    ));
    assert!(matches!(
        write_xml::<Href>(&Value::List(vec![Value::Empty])),
        Err(XmlError::UnsupportedRoot)
    ));
    assert_eq!(
        XmlError::UnsupportedRoot.message(),
        "the root value must be a map or a text"
    );
    assert_eq!(
        XmlError::InvalidNamespace(b"a\"".to_vec()).message(),
        "invalid namespace declaration: b\"a\\\"\""
    );
    assert_eq!(
        XmlError::UnsupportedCData.message(),
        "CDATA sections are not supported"
    );
}

#[test]
fn events_of_a_document() {
    let mut map = ValueMap::new();
    map.insert_raw(
        name(Some("urn:x"), Some("x"), "item"),
        Value::List(vec![Value::Empty, Value::Text("<".into())]),
    );
    let events = list_document_events(&name(Some("DAV:"), Some("d"), "prop"), &Value::Elements(map))
        .unwrap();
    assert_eq!(events.len(), 7);
    assert!(matches!(
        &events[0],
        WriteEvent::Decl { version, encoding: Some(encoding), standalone: None }
            if version == "1.0" && encoding == "utf-8"
    ));
    match &events[1] {
        WriteEvent::Start { name, attributes } => {
            assert_eq!(name, "d:prop");
            assert_eq!(
                attributes,
                &vec![
                    ("xmlns:d".to_string(), "DAV:".to_string()),
                    ("xmlns:x".to_string(), "urn:x".to_string()),
                ]
            );
        }
        other => panic!("unexpected event {other:?}"),
    }
    assert!(matches!(&events[2], WriteEvent::Empty { name } if name == "x:item"));
    assert!(matches!(
        &events[3],
        WriteEvent::Start { name, attributes } if name == "x:item" && attributes.is_empty()
    ));
    assert!(matches!(&events[4], WriteEvent::Text { escaped } if escaped == "&lt;"));
    assert!(matches!(&events[5], WriteEvent::End { name } if name == "x:item"));
    assert!(matches!(&events[6], WriteEvent::End { name } if name == "d:prop"));
    let text = String::from_utf8(render(&events).unwrap()).unwrap();
    assert_eq!(
        text,
        "<?xml version=\"1.0\" encoding=\"utf-8\"?>\n<d:prop xmlns:d=\"DAV:\" xmlns:x=\"urn:x\">\n  <x:item/>\n  <x:item>&lt;</x:item>\n</d:prop>"
    );
}

#[test]
fn root_without_namespace() {
    let events = list_document_events(&name(None, None, "root"), &Value::Text("t".into())).unwrap();
    assert!(matches!(
        &events[1],
        WriteEvent::Start { name, attributes } if name == "root" && attributes.is_empty()
    ));
    assert_eq!(render(&Vec::new()).unwrap(), Vec::<u8>::new());
}

#[test]
fn attribute_values_are_escaped_by_the_writer() {
    let events = vec![WriteEvent::Start {
        name: "a".into(),
        attributes: vec![("k".into(), "1 < 2 \"q\"".into())],
    }];
    assert_eq!(
        String::from_utf8(render(&events).unwrap()).unwrap(),
        "<a k=\"1 &lt; 2 &quot;q&quot;\">"
    );
}

#[test]
fn bytes_in_messages_are_shown_as_a_byte_string() {
    for b in 0u8..=255 {
        let shown = match b {
            b'\n' => "\\n".to_string(),
            b'\r' => "\\r".to_string(),
            b'\t' => "\\t".to_string(),
            b'\\' => "\\\\".to_string(),
            b'"' => "\\\"".to_string(),
            0 => "\\0".to_string(),
            0x20..=0x7e => (b as char).to_string(),
            _ => {
                let digit = |n: u8| if n < 10 { (b'0' + n) as char } else { (b'a' + n - 10) as char };
                format!("\\x{}{}", digit(b / 16), digit(b % 16))
            }
        };
        assert_eq!(
            XmlError::UnknownPrefix(vec![b'p', b, b]).message(),
            format!("unknown namespace prefix: b\"p{shown}{shown}\""),
        );
    }
    assert_eq!(
        XmlError::InvalidNamespace(Vec::new()).message(),
        "invalid namespace declaration: b\"\""
    );
}
