use webdav::xml::read::{build_value, read_tokens, read_xml, Namespace, XmlToken};
use webdav::xml::{ElementName, Value, ValueMap, XmlError};

fn value_map(entries: Vec<(&str, Value)>) -> ValueMap {
    let mut map = ValueMap::new();
    for (key, value) in entries {
        map.insert_raw(ElementName::local(key), value);
    }
    map
}

#[test]
fn empty() {
    let xml = r#"<foo/>"#;
    let value = Value::Elements(value_map(vec![("foo", Value::Empty)]));
    assert_eq!(value, read_xml(xml.as_bytes()).unwrap());
}

#[test]
fn text() {
    let xml = r#"<foo>bar</foo>"#;
    let value = Value::Elements(value_map(vec![("foo", Value::Text("bar".into()))]));
    assert_eq!(value, read_xml(xml.as_bytes()).unwrap());
}

#[test]
fn map() {
    let xml = r#"<foo><bar /></foo>"#;
    let value = Value::Elements(value_map(vec![(
        "foo",
        Value::Elements(value_map(vec![("bar", Value::Empty)])),
    )]));
    assert_eq!(value, read_xml(xml.as_bytes()).unwrap());
}

#[test]
fn list() {
    let xml = r#"<foo /><foo />"#;
    let mut expected = ValueMap::new();
    expected.entries.push((
        ElementName::local("foo"),
        Value::List(vec![Value::Empty, Value::Empty]),
    ));
    assert_eq!(Value::Elements(expected), read_xml(xml.as_bytes()).unwrap());
}

#[test]
fn list_long() {
    let xml = r#"<foo /><foo /><foo /><foo /><foo />"#;
    let mut expected = ValueMap::new();
    expected.entries.push((
        ElementName::local("foo"),
        Value::List(vec![
            Value::Empty,
            Value::Empty,
            Value::Empty,
            Value::Empty,
            Value::Empty,
        ]),
    ));
    assert_eq!(Value::Elements(expected), read_xml(xml.as_bytes()).unwrap());
}

#[test]
fn single_child_is_stored_bare() {
    let value = read_xml(b"<a><b/></a>").unwrap();
    let Value::Elements(root) = value else { panic!("root is a map") };
    let Value::Elements(a) = &root.entries[0].1 else { panic!("a is a map") };
    assert_eq!(a.entries.len(), 1);
    assert_eq!(a.entries[0].1, Value::Empty);
}

#[test]
fn children_of_one_name_are_grouped_in_order() {
    let value = read_xml(b"<p><c>1</c><d/><c>2</c><c>3</c></p>").unwrap();
    let Value::Elements(root) = value else { panic!("root is a map") };
    let Value::Elements(p) = &root.entries[0].1 else { panic!("p is a map") };
    assert_eq!(p.entries.len(), 2);
    assert_eq!(p.entries[0].0.local_name, "c");
    assert_eq!(
        p.entries[0].1,
        Value::List(vec![
            Value::Text("1".into()),
            Value::Text("2".into()),
            Value::Text("3".into()),
        ])
    );
    assert_eq!(p.entries[1].0.local_name, "d");
    assert_eq!(p.entries[1].1, Value::Empty);
}

#[test]
fn namespaces_are_resolved() {
    let value = read_xml(br#"<D:a xmlns:D="DAV:" xmlns="urn:x"><b/><D:c/></D:a>"#).unwrap();
    let Value::Elements(root) = value else { panic!("root is a map") };
    assert_eq!(root.entries[0].0.namespace.as_deref(), Some("DAV:"));
    assert_eq!(root.entries[0].0.local_name, "a");
    let Value::Elements(a) = &root.entries[0].1 else { panic!("a is a map") };
    assert_eq!(a.entries[0].0.namespace.as_deref(), Some("urn:x"));
    assert_eq!(a.entries[0].0.local_name, "b");
    assert_eq!(a.entries[1].0.namespace.as_deref(), Some("DAV:"));
    assert_eq!(a.entries[1].0.local_name, "c");
}

#[test]
fn undeclared_prefix_is_an_error() {
    assert!(matches!(
        read_xml(b"<x:a/>"),
        Err(XmlError::UnknownPrefix(prefix)) if prefix == b"x"
    ));
    assert!(matches!(
        read_xml(b"<a><x:b>text</x:b></a>"),
        Err(XmlError::UnknownPrefix(prefix)) if prefix == b"x"
    ));
    assert!(matches!(
        read_xml(br#"<a><b xmlns:x="urn:x"/><x:c/></a>"#),
        Err(XmlError::UnknownPrefix(prefix)) if prefix == b"x"
    ));
    assert_eq!(
        XmlError::UnknownPrefix(b"x".to_vec()).message(),
        "unknown namespace prefix: b\"x\""
    );
}

#[test]
fn entities_in_text_are_resolved() {
    let value = read_xml(b"<a>1 &lt; 2 &amp; 3</a>").unwrap();
    let Value::Elements(root) = value else { panic!("root is a map") };
    assert_eq!(root.entries[0].1, Value::Text("1 < 2 & 3".into()));
}

#[test]
fn white_space_comments_and_declarations_are_skipped() {
    let xml = "<?xml version=\"1.0\"?>\n<!DOCTYPE a>\n<a>\n  <!-- c -->\n  <?pi x?>\n  <b/>\n</a>\n";
    let value = read_xml(xml.as_bytes()).unwrap();
    let expected = Value::Elements(value_map(vec![(
        "a",
        Value::Elements(value_map(vec![("b", Value::Empty)])),
    )]));
    assert_eq!(expected, value);
}

#[test]
fn text_behind_children_is_rejected() {
    assert!(matches!(read_xml(b"<a><b/>text</a>"), Err(XmlError::MixedContent)));
    assert!(matches!(read_xml(b"<a/>text"), Err(XmlError::MixedContent)));
}

#[test]
fn anything_but_the_end_tag_behind_text_is_rejected() {
    assert!(matches!(read_xml(b"<a>text<b/></a>"), Err(XmlError::MixedContent)));
    assert!(matches!(read_xml(b"<a>text<b>x</b></a>"), Err(XmlError::MixedContent)));
    assert!(matches!(read_xml(b"<a>text<!-- c --></a>"), Err(XmlError::MixedContent)));
    assert!(matches!(read_xml(b"text<b/>"), Err(XmlError::MixedContent)));
    assert_eq!(read_xml(b"text").unwrap(), Value::Text("text".into()));
    assert_eq!(XmlError::MixedContent.message(), "text beside other content");
}

#[test]
fn unclosed_start_tag_is_an_error() {
    assert!(read_xml(b"<foo>").is_err());
    assert!(matches!(read_xml(b"<foo><bar/>"), Err(XmlError::UnexpectedTag)));
}

#[test]
fn mismatched_end_tag_is_an_error() {
    assert!(matches!(read_xml(b"<foo></bar>"), Err(XmlError::Xml(_))));
}

#[test]
fn cdata_is_not_supported() {
    assert!(matches!(
        read_xml(b"<a><![CDATA[x]]></a>"),
        Err(XmlError::UnsupportedCData)
    ));
}

#[test]
fn invalid_entity_is_an_error() {
    assert!(matches!(read_xml(b"<a>&nope;</a>"), Err(XmlError::Xml(_))));
}

#[test]
fn name_that_is_not_utf8_is_an_error() {
    assert!(matches!(read_xml(b"<a\xff/>"), Err(XmlError::Utf8(_))));
}

#[test]
fn tokens_of_a_document() {
    let tokens = read_tokens(br#"<D:a xmlns:D="DAV:">x</D:a><b/>"#);
    assert_eq!(tokens.len(), 4);
    match &tokens[0] {
        XmlToken::Start { namespace, name, local_name, empty_namespace } => {
            assert!(matches!(namespace, Namespace::Bound(ns) if ns == b"DAV:"));
            assert_eq!(name, b"D:a");
            assert_eq!(local_name, b"a");
            assert!(!empty_namespace);
        }
        other => panic!("unexpected token {other:?}"),
    }
    match &tokens[1] {
        XmlToken::Text { raw, unescaped } => {
            assert_eq!(raw, b"x");
            assert_eq!(unescaped.as_deref().unwrap(), "x");
        }
        other => panic!("unexpected token {other:?}"),
    }
    assert!(matches!(&tokens[2], XmlToken::End { name } if name == b"D:a"));
    match &tokens[3] {
        XmlToken::Empty { namespace, name, local_name, empty_namespace } => {
            assert!(matches!(namespace, Namespace::Unbound));
            assert_eq!(name, b"b");
            assert_eq!(local_name, b"b");
            assert!(!empty_namespace);
        }
        other => panic!("unexpected token {other:?}"),
    }
}

fn empty_tag(namespace: Namespace, name: &str) -> XmlToken {
    XmlToken::Empty {
        namespace,
        name: name.as_bytes().to_vec(),
        local_name: name.as_bytes().to_vec(),
        empty_namespace: false,
    }
}

#[test]
fn empty_namespace_is_rejected() {
    for xml in [
        &br#"<a:foo xmlns:a=''/>"#[..],
        br#"<a:foo xmlns:a="">x</a:foo>"#,
        br#"<b xmlns=""/>"#,
        br#"<a xmlns="urn:x"><b xmlns=""/></a>"#,
        br#"<a xmlns="urn:x"><b xmlns="">x</b></a>"#,
        br#"<a xmlns:p="urn:p" xmlns:q=""/>"#,
        br#"<a k="v" xmlns = "" />"#,
    ] {
        assert!(
            matches!(read_xml(xml), Err(XmlError::InvalidNamespace(ns)) if ns.is_empty()),
            "{}",
            String::from_utf8_lossy(xml)
        );
    }
    for xml in [
        &br#"<a xmlns="urn:x" k=""/>"#[..],
        br#"<a xmlnsx=""/>"#,
        br#"<a xmln=""/>"#,
        br#"<a xmlns:p="urn:p"><p:b xmlns:q="urn:q" x=""/></a>"#,
    ] {
        assert!(read_xml(xml).is_ok(), "{}", String::from_utf8_lossy(xml));
    }
    let tokens = read_tokens(br#"<b xmlns=""/>"#);
    assert!(matches!(tokens[0], XmlToken::Empty { empty_namespace: true, .. }));
    let mut declared = empty_tag(Namespace::Unbound, "a");
    if let XmlToken::Empty { empty_namespace, .. } = &mut declared {
        *empty_namespace = true;
    }
    assert!(matches!(
        build_value(&[declared]),
        Err(XmlError::InvalidNamespace(ns)) if ns.is_empty()
    ));
    let bound = vec![empty_tag(Namespace::Bound(Vec::new()), "a")];
    assert!(matches!(
        build_value(&bound),
        Err(XmlError::InvalidNamespace(ns)) if ns.is_empty()
    ));
    let unknown = vec![empty_tag(Namespace::Unknown(b"p".to_vec()), "p:a")];
    assert!(matches!(
        build_value(&unknown),
        Err(XmlError::UnknownPrefix(prefix)) if prefix == b"p"
    ));
}

#[test]
fn grouping_of_tokens() {
    let one = vec![empty_tag(Namespace::Unbound, "a")];
    assert_eq!(
        build_value(&one).unwrap(),
        Value::Elements(value_map(vec![("a", Value::Empty)]))
    );
    let three = vec![
        empty_tag(Namespace::Unbound, "a"),
        empty_tag(Namespace::Unbound, "a"),
        empty_tag(Namespace::Unbound, "a"),
    ];
    let mut expected = ValueMap::new();
    expected.entries.push((
        ElementName::local("a"),
        Value::List(vec![Value::Empty, Value::Empty, Value::Empty]),
    ));
    assert_eq!(build_value(&three).unwrap(), Value::Elements(expected));
}

#[test]
fn start_without_end_in_tokens() {
    let tokens = vec![
        XmlToken::Start {
            namespace: Namespace::Unbound,
            name: b"a".to_vec(),
            local_name: b"a".to_vec(),
            empty_namespace: false,
        },
        empty_tag(Namespace::Unbound, "b"),
    ];
    assert!(matches!(build_value(&tokens), Err(XmlError::UnexpectedTag)));
}

#[test]
fn end_tag_of_another_name_in_tokens() {
    let tokens = vec![
        XmlToken::Start {
            namespace: Namespace::Unbound,
            name: b"a".to_vec(),
            local_name: b"a".to_vec(),
            empty_namespace: false,
        },
        XmlToken::End { name: b"b".to_vec() },
    ];
    assert!(matches!(build_value(&tokens), Err(XmlError::UnexpectedTag)));
}
