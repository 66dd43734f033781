use webdav::xml::elements::{Href, Properties};
use webdav::xml::properties::{Collection, ContentLength, DisplayName, ResourceType};
use webdav::xml::{
    Element, ElementName, ExtractElementErrorKind, FromValue, IntoValue, Value, ValueMap,
};

#[test]
fn names_are_equal_whatever_the_prefix() {
    let a = ElementName {
        namespace: Some("DAV:".into()),
        prefix: Some("d".into()),
        local_name: "href".into(),
    };
    let b = ElementName {
        namespace: Some("DAV:".into()),
        prefix: Some("D".into()),
        local_name: "href".into(),
    };
    let c = ElementName {
        namespace: None,
        prefix: Some("d".into()),
        local_name: "href".into(),
    };
    assert_eq!(a, b);
    assert_ne!(a, c);
    assert!(a.is(Some("DAV:"), "href"));
    assert!(!a.is(None, "href"));
    assert!(a.is_element::<Href>());
    assert_eq!(ElementName::of::<Href>(), a);
    assert_eq!(Href::NAMESPACE, "DAV:");
    assert_eq!(Href::PREFIX, "d");
    assert_eq!(Href::LOCAL_NAME, "href");
}

#[test]
fn second_insert_turns_the_value_into_a_list() {
    let mut map = ValueMap::new();
    map.insert_raw(ElementName::local("a"), Value::Text("1".into()));
    assert_eq!(map.entries.len(), 1);
    assert_eq!(map.entries[0].1, Value::Text("1".into()));
    map.insert_raw(ElementName::local("b"), Value::Empty);
    map.insert_raw(ElementName::local("a"), Value::Text("2".into()));
    assert_eq!(map.entries.len(), 2);
    assert_eq!(
        map.entries[0].1,
        Value::List(vec![Value::Text("1".into()), Value::Text("2".into())])
    );
    map.insert_raw(ElementName::local("a"), Value::Empty);
    assert_eq!(
        map.entries[0].1,
        Value::List(vec![
            Value::Text("1".into()),
            Value::Text("2".into()),
            Value::Empty
        ])
    );
    assert_eq!(map.entries[1].0.local_name, "b");
}

#[test]
fn lookup_tells_absent_empty_and_present_apart() {
    let mut map = ValueMap::new();
    assert!(map.get_optional::<DisplayName>().is_none());
    map.insert::<DisplayName>(Value::Empty);
    assert!(matches!(map.get_optional::<DisplayName>(), Some(None)));
    let mut map = ValueMap::new();
    map.insert::<DisplayName>(Value::Text("x".into()));
    match map.get_optional::<DisplayName>() {
        Some(Some(Ok(name))) => assert_eq!(name, DisplayName("x".into())),
        _ => panic!("the name is there"),
    }
    let mut map = ValueMap::new();
    map.insert::<DisplayName>(Value::Elements(ValueMap::new()));
    match map.get_optional::<DisplayName>() {
        Some(Some(Err(e))) => assert!(matches!(
            e.kind,
            ExtractElementErrorKind::InvalidValueType { expected: "text", got: "map" }
        )),
        _ => panic!("the name is there and is no text"),
    }
}

#[test]
fn get_gives_what_extracting_gives() {
    let mut map = ValueMap::new();
    assert!(map.get::<ContentLength>().is_none());
    map.insert::<ContentLength>(Value::Text("12".into()));
    assert_eq!(map.get::<ContentLength>().unwrap().unwrap(), ContentLength(12));
    assert!(map.contains::<ContentLength>());
    assert!(!map.contains::<DisplayName>());
    assert_eq!(
        map.get_raw(Some("DAV:"), "getcontentlength"),
        Some(&Value::Text("12".into()))
    );
}

#[test]
fn iter_all_gives_none_one_or_many() {
    let mut map = ValueMap::new();
    assert_eq!(map.iter_all::<ContentLength>().len(), 0);
    map.insert::<ContentLength>(Value::Text("1".into()));
    let one = map.iter_all::<ContentLength>();
    assert_eq!(one.len(), 1);
    assert_eq!(*one[0].as_ref().unwrap(), ContentLength(1));
    map.insert::<ContentLength>(Value::Text("x".into()));
    map.insert::<ContentLength>(Value::Text("3".into()));
    let all = map.iter_all::<ContentLength>();
    assert_eq!(all.len(), 3);
    assert_eq!(*all[0].as_ref().unwrap(), ContentLength(1));
    assert!(all[1].is_err());
    assert_eq!(*all[2].as_ref().unwrap(), ContentLength(3));
    assert!(map.get_all::<ContentLength>().is_err());
}

#[test]
fn get_all_collects_in_order() {
    let mut map = ValueMap::new();
    assert_eq!(map.get_all::<ContentLength>().unwrap(), vec![]);
    map.insert::<ContentLength>(Value::Text("1".into()));
    map.insert::<ContentLength>(Value::Text("2".into()));
    assert_eq!(
        map.get_all::<ContentLength>().unwrap(),
        vec![ContentLength(1), ContentLength(2)]
    );
}

#[test]
fn shapes_and_their_errors() {
    assert_eq!(Value::Text("a".into()).to_str().unwrap(), "a");
    let e = Value::Empty.to_str().unwrap_err();
    assert!(matches!(
        e.kind,
        ExtractElementErrorKind::InvalidValueType { expected: "text", got: "empty" }
    ));
    assert_eq!(e.message(), "expected value of type `text`, got `empty`");
    let e = Value::List(vec![Value::Empty]).to_map().unwrap_err();
    assert!(matches!(
        e.kind,
        ExtractElementErrorKind::InvalidValueType { expected: "map", got: "list" }
    ));
    assert!(Value::Elements(ValueMap::new()).to_map().is_ok());
    assert_eq!(Value::from("x".to_string()), Value::Text("x".into()));
    assert_eq!(Value::default(), Value::Empty);
}

#[test]
fn clone_is_deep() {
    let mut inner = ValueMap::new();
    inner.insert_raw(ElementName::local("x"), Value::List(vec![Value::Empty, Value::Text("t".into())]));
    let mut map = ValueMap::new();
    map.insert_raw(ElementName::local("a"), Value::Elements(inner));
    let value = Value::Elements(map);
    assert_eq!(value.clone(), value);
}

#[test]
fn properties_are_built_and_read() {
    let prop = Properties::new()
        .with(DisplayName("n".into()))
        .with(ContentLength(7))
        .with_name::<ResourceType>();
    let names: Vec<String> = prop.names().iter().map(|n| n.local_name.clone()).collect();
    assert_eq!(names, vec!["displayname", "getcontentlength", "resourcetype"]);
    assert_eq!(prop.displayname().unwrap().unwrap().unwrap(), DisplayName("n".into()));
    assert_eq!(prop.getcontentlength().unwrap().unwrap().unwrap(), ContentLength(7));
    assert!(matches!(prop.resourcetype(), Some(None)));
    assert!(prop.getetag().is_none());
    assert!(prop.lockdiscovery().is_none());
    let value = prop.clone().into_value();
    assert_eq!(Properties::from_value(&value).unwrap(), prop);
}

#[test]
fn resource_type_of_a_collection() {
    assert!(!ResourceType::empty().is_collection());
    let collection = ResourceType::collection();
    assert!(collection.is_collection());
    assert_eq!(collection.0.entries.len(), 1);
    assert!(collection.0.entries[0].0.is_element::<Collection>());
    assert_eq!(collection.0.entries[0].1, Value::Empty);
    assert!(collection.get::<DisplayName>().is_none());
    let value = collection.clone().into_value();
    assert_eq!(ResourceType::from_value(&value).unwrap(), collection);
}
