use http::StatusCode;
use std::time::SystemTime;
use webdav::xml::elements::{
    Allprop, Href, Include, InvalidStatus, Multistatus, Propfind, Properties, Propname, Propstat,
    Response, ResponseDescription, Status,
};
use webdav::xml::error::ConversionError;
use webdav::xml::properties::{
    ContentLanguage, ContentLength, ContentType, CreationDate, DisplayName, ETag, LastModified,
    LockDiscovery, ResourceType, SupportedLock,
};
use webdav::xml::{
    Element, Error, ExtractElementErrorKind, FromValue, FromXml, IntoValue, IntoXml, Value,
    ValueMap, XmlError,
};

fn trim_xml(xml: &str) -> &str {
    xml.trim()
        .trim_start_matches(r#"<?xml version="1.0" encoding="utf-8"?>"#)
        .trim()
}

fn check_serialize<E: IntoXml>(expected_xml: &str, element: E) {
    let xml = String::from_utf8(element.into_xml().unwrap()).unwrap();
    assert_eq!(trim_xml(expected_xml), trim_xml(&xml));
}

fn check_deserialize<E: FromXml + PartialEq + std::fmt::Debug>(expected: &E, xml: &str) {
    assert_eq!(expected, &E::from_xml(xml.as_bytes()).unwrap());
}

#[test]
fn parse_propfind_example() {
    let xml = r#"
        <?xml version="1.0" encoding="utf-8" ?>
        <D:multistatus xmlns:D="DAV:">
          <D:response xmlns:R="http://ns.example.com/boxschema/">
            <D:href>http://www.example.com/file</D:href>
            <D:propstat>
              <D:prop>
                <R:bigbox>
                  <R:BoxType>Box type A</R:BoxType>
                </R:bigbox>
                <R:author>
                  <R:Name>J.J. Johnson</R:Name>
                </R:author>
              </D:prop>
              <D:status>HTTP/1.1 200 OK</D:status>
            </D:propstat>
            <D:propstat>
              <D:prop><R:DingALing/><R:Random/></D:prop>
              <D:status>HTTP/1.1 403 Forbidden</D:status>
              <D:responsedescription> The user does not have access to the
         DingALing property.
              </D:responsedescription>
            </D:propstat>
          </D:response>
          <D:responsedescription> There has been an access violation error.
          </D:responsedescription>
        </D:multistatus>
        "#;
    let multistatus = Multistatus::from_xml(xml.as_bytes()).unwrap();

    assert!(matches!(
      &multistatus.response[0],
        Response::Propstat {
            href, propstat,
            responsedescription: None,
            ..
        } if href == &Href(http::Uri::from_static("http://www.example.com/file"))
          && propstat[0].status == Status(StatusCode::OK)
          && propstat[1].status == Status(StatusCode::FORBIDDEN)
          && propstat[1].responsedescription.is_some()
    ));
    let Response::Propstat { propstat, .. } = &multistatus.response[0] else {
        panic!("the response has propstat elements")
    };
    assert_eq!(multistatus.response.len(), 1);
    assert_eq!(propstat.len(), 2);
    assert!(propstat[0].responsedescription.is_none());
    assert_eq!(propstat[0].prop.names().len(), 2);
    assert_eq!(propstat[1].prop.names().len(), 2);
    assert!(multistatus.responsedescription.is_some());
}

#[test]
fn parse_multiple_responses() {
    let response = r#"
        <?xml version="1.0" encoding="utf-8"?>
        <D:multistatus xmlns:D="DAV:">
          <D:response>
            <D:href>/foo/</D:href>
            <D:propstat>
              <D:prop>
              </D:prop>
              <D:status>HTTP/1.1 200 OK</D:status>
            </D:propstat>
          </D:response>
          <D:response>
            <D:href>/bar/</D:href>
            <D:propstat>
              <D:prop>
              </D:prop>
              <D:status>HTTP/1.1 200 OK</D:status>
            </D:propstat>
          </D:response>
          <D:response>
            <D:href>/baz/</D:href>
            <D:propstat>
              <D:prop>
              </D:prop>
              <D:status>HTTP/1.1 200 OK</D:status>
            </D:propstat>
          </D:response>
        </D:multistatus>  
        "#;

    let multistatus = Multistatus::from_xml(response.as_bytes()).unwrap();
    assert_eq!(multistatus.response.len(), 3);
}

#[test]
fn test_deserialize() {
    let xml = r#"
    <d:prop xmlns:d="DAV:">
        <d:getlastmodified>Mon, 30 Sep 2019 12:13:02 GMT</d:getlastmodified>
        <d:getcontentlength>0</d:getcontentlength>
        <d:resourcetype/>
        <d:getetag>&quot;a28785e285ce0de0738676814705c4e1&quot;</d:getetag>
        <d:getcontenttype>text/plain</d:getcontenttype>
    </d:prop>
    "#;

    let prop = Properties::from_xml(xml.as_bytes()).unwrap();

    assert_eq!(
        prop.getlastmodified().unwrap().unwrap().unwrap(),
        LastModified("Mon, 30 Sep 2019 12:13:02 GMT".parse().unwrap())
    );
    assert_eq!(
        prop.getcontentlength().unwrap().unwrap().unwrap(),
        ContentLength(0)
    );
    assert!(prop.resourcetype().unwrap().is_none());
    assert_eq!(
        prop.getetag().unwrap().unwrap().unwrap(),
        ETag(r#""a28785e285ce0de0738676814705c4e1""#.into())
    );
    assert_eq!(
        prop.getcontenttype().unwrap().unwrap().unwrap(),
        ContentType(mime::TEXT_PLAIN)
    );
}

#[test]
fn status_test() {
    assert_eq!("HTTP/1.1 200 OK", Status(http::StatusCode::OK).to_text());
    assert_eq!(
        "HTTP/1.1 200 OK".parse::<Status>().unwrap(),
        Status(http::StatusCode::OK)
    );
}

#[test]
fn creationdate_test() {
    let xml = r#"<d:creationdate xmlns:d="DAV:">1997-12-01T17:42:21-08:00</d:creationdate>"#;
    let creation_date = CreationDate(time::OffsetDateTime::new_in_offset(
        time::Date::from_calendar_date(1997, time::Month::December, 1).unwrap(),
        time::Time::from_hms(17, 42, 21).unwrap(),
        time::UtcOffset::from_hms(-8, 0, 0).unwrap(),
    ));

    check_deserialize(&creation_date, xml);
    check_serialize(xml, creation_date);
}

#[test]
fn displayname_test() {
    let xml = r#"<d:displayname xmlns:d="DAV:">Example HTML resource</d:displayname>"#;
    let display_name = DisplayName("Example HTML resource".into());

    check_deserialize(&display_name, xml);
    check_serialize(xml, display_name);
}

#[test]
fn getcontentlanguage_test() {
    let xml = r#"<d:getcontentlanguage xmlns:d="DAV:">de-DE, en-CA</d:getcontentlanguage>"#;
    let content_language = ContentLanguage("de-DE, en-CA".into());

    check_deserialize(&content_language, xml);
    check_serialize(xml, content_language);
}

#[test]
fn getetag_test() {
    let xml = r#"<d:getetag xmlns:d="DAV:">"10c24bc-4ab-457e1c1f"</d:getetag>"#;
    let etag = ETag(r#""10c24bc-4ab-457e1c1f""#.into());

    check_deserialize(&etag, xml);
    check_serialize(xml, etag);
}

#[test]
fn getlastmodified_test() {
    let xml =
        r#"<d:getlastmodified xmlns:d="DAV:">Mon, 12 Jan 1998 09:25:56 GMT</d:getlastmodified>"#;
    let last_modified = LastModified(httpdate::HttpDate::from(SystemTime::from(
        time::OffsetDateTime::new_utc(
            time::Date::from_calendar_date(1998, time::Month::January, 12).unwrap(),
            time::Time::from_hms(9, 25, 56).unwrap(),
        ),
    )));

    check_deserialize(&last_modified, xml);
    check_serialize(xml, last_modified);
}

#[test]
fn getcontentlength_round_trip() {
    let xml = r#"<d:getcontentlength xmlns:d="DAV:">18446744073709551615</d:getcontentlength>"#;
    check_deserialize(&ContentLength(u64::MAX), xml);
    check_serialize(xml, ContentLength(u64::MAX));
    let zero = r#"<d:getcontentlength xmlns:d="DAV:">0</d:getcontentlength>"#;
    check_deserialize(&ContentLength(0), zero);
    check_serialize(zero, ContentLength(0));
}

#[test]
fn getcontenttype_round_trip() {
    let xml = r#"<d:getcontenttype xmlns:d="DAV:">text/html; charset=utf-8</d:getcontenttype>"#;
    let content_type = ContentType("text/html; charset=utf-8".parse().unwrap());
    check_deserialize(&content_type, xml);
    check_serialize(xml, content_type);
}

#[test]
fn href_round_trip() {
    let xml = r#"<d:href xmlns:d="DAV:">http://www.example.com/file</d:href>"#;
    let href = Href(http::Uri::from_static("http://www.example.com/file"));
    check_deserialize(&href, xml);
    check_serialize(xml, href);
    assert_eq!(Href::parse("/a/b").unwrap(), Href(http::Uri::from_static("/a/b")));
    assert!(Href::parse("a b").is_err());
}

#[test]
fn status_round_trip() {
    let xml = r#"<d:status xmlns:d="DAV:">HTTP/1.1 423 Locked</d:status>"#;
    let status = Status(http::StatusCode::LOCKED);
    check_deserialize(&status, xml);
    check_serialize(xml, status);
}

#[test]
fn content_length_is_a_decimal_number() {
    let parse = |text: &str| ContentLength::from_value(&Value::Text(text.into()));
    assert_eq!(parse("42").unwrap(), ContentLength(42));
    assert_eq!(parse("+42").unwrap(), ContentLength(42));
    assert_eq!(parse("007").unwrap(), ContentLength(7));
    for bad in ["", "+", "-1", "1 ", " 1", "1.0", "0x10", "18446744073709551616", "++1"] {
        let e = parse(bad).unwrap_err();
        match e.kind {
            ExtractElementErrorKind::Other(ConversionError::Number(kept)) => assert_eq!(kept, bad),
            other => panic!("unexpected error {other:?}"),
        }
    }
    let e = ContentLength::from_value(&Value::Empty).unwrap_err();
    assert!(matches!(
        e.kind,
        ExtractElementErrorKind::InvalidValueType { expected: "text", got: "empty" }
    ));
    assert_eq!(ContentLength(1234567890).into_value(), Value::Text("1234567890".into()));
}

#[test]
fn status_line_is_read_by_its_second_field() {
    assert_eq!(
        Status::parse("HTTP/1.1 404").unwrap(),
        Status(http::StatusCode::NOT_FOUND)
    );
    assert_eq!(
        Status::parse("anything 207 Multi-Status and more").unwrap(),
        Status(http::StatusCode::MULTI_STATUS)
    );
    for bad in ["", "200", "HTTP/1.1", "HTTP/1.1  200", "HTTP/1.1 20", "HTTP/1.1 2000", "HTTP/1.1 099", "HTTP/1.1 2x0"] {
        let InvalidStatus(line) = Status::parse(bad).unwrap_err();
        assert_eq!(line, bad);
    }
    assert_eq!(
        Status::parse("x").unwrap_err().message(),
        "invalid status: x"
    );
    let e = Status::from_value(&Value::Text("nonsense".into())).unwrap_err();
    assert!(matches!(
        e.kind,
        ExtractElementErrorKind::Other(ConversionError::Status(_))
    ));
    assert_eq!(e.message(), "invalid status: nonsense");
    assert_eq!(
        Status(http::StatusCode::from_u16(599).unwrap()).to_text(),
        "HTTP/1.1 599 <unknown status code>"
    );
}

#[test]
fn leaf_conversion_errors() {
    let text = |t: &str| Value::Text(t.into());
    assert!(matches!(
        Href::from_value(&text("a b")).unwrap_err().kind,
        ExtractElementErrorKind::Other(ConversionError::Uri(_))
    ));
    assert!(matches!(
        CreationDate::from_value(&text("yesterday")).unwrap_err().kind,
        ExtractElementErrorKind::Other(ConversionError::Date(_))
    ));
    assert!(matches!(
        LastModified::from_value(&text("yesterday")).unwrap_err().kind,
        ExtractElementErrorKind::Other(ConversionError::HttpDate(_))
    ));
    assert!(matches!(
        ContentType::from_value(&text("nonsense")).unwrap_err().kind,
        ExtractElementErrorKind::Other(ConversionError::Mime(_))
    ));
    assert!(!ContentType::from_value(&text("nonsense")).unwrap_err().message().is_empty());
    assert!(matches!(
        LockDiscovery::from_value(&text("x")).unwrap_err().kind,
        ExtractElementErrorKind::Unsupported("lockdiscovery")
    ));
    assert!(matches!(
        SupportedLock::from_value(&Value::Empty).unwrap_err().kind,
        ExtractElementErrorKind::Unsupported("supportedlock")
    ));
    let e = Include::from_value(&Value::Empty).unwrap_err();
    assert!(matches!(e.kind, ExtractElementErrorKind::Unsupported("include")));
    assert_eq!(e.message(), "the `include` element is not supported");
}

#[test]
fn creation_date_that_cannot_be_written() {
    let far = time::OffsetDateTime::new_in_offset(
        time::Date::from_calendar_date(2000, time::Month::January, 1).unwrap(),
        time::Time::from_hms(0, 0, 0).unwrap(),
        time::UtcOffset::from_hms(1, 0, 30).unwrap(),
    );
    assert!(CreationDate(far).try_into_value().is_none());
    let near = time::OffsetDateTime::new_utc(
        time::Date::from_calendar_date(2000, time::Month::January, 1).unwrap(),
        time::Time::from_hms(0, 0, 0).unwrap(),
    );
    assert_eq!(
        CreationDate(near).try_into_value(),
        Some(Value::Text("2000-01-01T00:00:00Z".into()))
    );
}

#[test]
fn missing_root_element() {
    let e = DisplayName::from_xml(br#"<d:getetag xmlns:d="DAV:">x</d:getetag>"#).unwrap_err();
    match e {
        Error::ExtractElement(e) => {
            assert!(matches!(e.kind, ExtractElementErrorKind::MissingElement("displayname")));
            assert_eq!(e.message(), "missing `displayname` element");
        }
        other => panic!("unexpected error {other:?}"),
    }
    assert!(matches!(
        DisplayName::from_xml(b"just text"),
        Err(Error::ExtractElement(_))
    ));
    let e = DisplayName::from_xml(b"<a>").unwrap_err();
    assert!(matches!(e, Error::Xml(XmlError::UnexpectedTag)));
    assert_eq!(e.message(), "unexpected tag");
    assert!(matches!(Value::from_xml(b"<a/>"), Ok(Value::Elements(_))));
    assert!(matches!(Value::from_xml(b"<a></b>"), Err(Error::Xml(_))));
}

fn propfind(xml: &str) -> Result<Propfind, Error> {
    Propfind::from_xml(xml.as_bytes())
}

#[test]
fn propfind_holds_exactly_one_choice() {
    assert_eq!(
        propfind(r#"<propfind xmlns="DAV:"><propname/></propfind>"#).unwrap(),
        Propfind::Propname
    );
    assert_eq!(
        propfind(r#"<propfind xmlns="DAV:"><allprop/></propfind>"#).unwrap(),
        Propfind::Allprop { included: None }
    );
    let prop = propfind(r#"<propfind xmlns="DAV:"><prop><getetag/></prop></propfind>"#).unwrap();
    assert_eq!(prop, Propfind::Prop(Properties::new().with_name::<ETag>()));
    for conflict in [
        r#"<propfind xmlns="DAV:"><propname/><allprop/></propfind>"#,
        r#"<propfind xmlns="DAV:"><allprop/><prop/></propfind>"#,
        r#"<propfind xmlns="DAV:"><other/></propfind>"#,
    ] {
        match propfind(conflict).unwrap_err() {
            Error::ExtractElement(e) => {
                assert!(matches!(
                    e.kind,
                    ExtractElementErrorKind::ConflictingElements(names)
                        if names == ["propname", "allprop", "include"]
                ));
                assert_eq!(
                    e.message(),
                    "`propname`, `allprop`, `include` must not be used at the same time"
                );
            }
            other => panic!("unexpected error {other:?}"),
        }
    }
    assert!(matches!(
        propfind(r#"<propfind xmlns="DAV:"><allprop/><include/></propfind>"#),
        Err(Error::ExtractElement(e)) if matches!(e.kind, ExtractElementErrorKind::Unsupported("include"))
    ));
    assert!(matches!(
        propfind(r#"<propfind xmlns="DAV:"><prop>text</prop></propfind>"#),
        Err(Error::ExtractElement(e)) if matches!(
            e.kind,
            ExtractElementErrorKind::InvalidValueType { expected: "map", got: "text" }
        )
    ));
    assert!(Propname::from_value(&Value::Text("x".into())).is_ok());
    assert!(Allprop::from_value(&Value::Empty).is_ok());
}

fn ok_status() -> Status {
    Status(http::StatusCode::OK)
}

#[test]
fn propstat_to_value_and_back() {
    let propstat = Propstat {
        prop: Properties::new().with(DisplayName("n".into())),
        status: ok_status(),
        responsedescription: Some(ResponseDescription("fine".into())),
    };
    let value = propstat.clone().into_value();
    let Value::Elements(map) = &value else { panic!("a propstat is a map") };
    let names: Vec<&str> = map.entries.iter().map(|e| e.0.local_name.as_str()).collect();
    assert_eq!(names, vec!["prop", "status", "responsedescription"]);
    assert_eq!(map.entries[1].1, Value::Text("HTTP/1.1 200 OK".into()));
    assert_eq!(Propstat::from_value(&value).unwrap(), propstat);

    let mut missing = ValueMap::new();
    missing.insert::<Properties>(Value::Elements(ValueMap::new()));
    let e = Propstat::from_value(&Value::Elements(missing)).unwrap_err();
    assert!(matches!(e.kind, ExtractElementErrorKind::MissingElement("status")));
    let e = Propstat::from_value(&Value::Elements(ValueMap::new())).unwrap_err();
    assert!(matches!(e.kind, ExtractElementErrorKind::MissingElement("prop")));
}

#[test]
fn response_to_value_and_back() {
    let with_propstat = Response::Propstat {
        href: Href(http::Uri::from_static("/a")),
        propstat: vec![
            Propstat { prop: Properties::new(), status: ok_status(), responsedescription: None },
            Propstat {
                prop: Properties::new().with(ContentLength(1)),
                status: Status(http::StatusCode::NOT_FOUND),
                responsedescription: None,
            },
        ],
        responsedescription: None,
    };
    let value = with_propstat.clone().into_value();
    let Value::Elements(map) = &value else { panic!("a response is a map") };
    assert_eq!(map.entries.len(), 2);
    assert!(matches!(&map.entries[1].1, Value::List(items) if items.len() == 2));
    assert_eq!(Response::from_value(&value).unwrap(), with_propstat);

    let with_status = Response::Status {
        href: vec![
            Href(http::Uri::from_static("/a")),
            Href(http::Uri::from_static("/b")),
        ],
        status: ok_status(),
        responsedescription: Some(ResponseDescription("both".into())),
    };
    let value = with_status.clone().into_value();
    assert_eq!(Response::from_value(&value).unwrap(), with_status);

    let e = Response::from_value(&Value::Elements(ValueMap::new())).unwrap_err();
    assert!(matches!(e.kind, ExtractElementErrorKind::MissingElement("href")));
    let mut no_status = ValueMap::new();
    no_status.insert::<Href>(Value::Text("/a".into()));
    let e = Response::from_value(&Value::Elements(no_status)).unwrap_err();
    assert!(matches!(e.kind, ExtractElementErrorKind::MissingElement("status")));
    let mut no_href = ValueMap::new();
    no_href.insert::<Propstat>(Propstat {
        prop: Properties::new(),
        status: ok_status(),
        responsedescription: None,
    }.into_value());
    let e = Response::from_value(&Value::Elements(no_href)).unwrap_err();
    assert!(matches!(e.kind, ExtractElementErrorKind::MissingElement("href")));
}

#[test]
fn multistatus_to_xml_and_back() {
    let multistatus = Multistatus {
        response: vec![
            Response::Propstat {
                href: Href(http::Uri::from_static("/a")),
                propstat: vec![Propstat {
                    prop: Properties::new()
                        .with(DisplayName("a < b & c".into()))
                        .with(ResourceType::collection()),
                    status: ok_status(),
                    responsedescription: None,
                }],
                responsedescription: None,
            },
            Response::Status {
                href: vec![Href(http::Uri::from_static("/b"))],
                status: Status(http::StatusCode::LOCKED),
                responsedescription: None,
            },
        ],
        responsedescription: Some(ResponseDescription("done".into())),
    };
    let xml = multistatus.clone().into_xml().unwrap();
    let text = String::from_utf8(xml.clone()).unwrap();
    assert!(text.contains("<d:displayname>a &lt; b &amp; c</d:displayname>"));
    assert_eq!(Multistatus::from_xml(&xml).unwrap(), multistatus);
    assert_eq!(Multistatus::default().response.len(), 0);
}

#[test]
fn status_numbers_are_three_digits() {
    for n in 0u32..=1100 {
        let text = n.to_string();
        let line = format!("HTTP/1.1 {text} x");
        let parsed = Status::parse(&line);
        if (100..=999).contains(&n) {
            let status = parsed.unwrap();
            assert_eq!(u32::from(status.0.as_u16()), n);
            assert!(status.to_text().starts_with(&format!("HTTP/1.1 {n} ")));
            assert_eq!(Status::parse(&status.to_text()).unwrap(), status);
        } else {
            assert!(parsed.is_err(), "{line}");
        }
    }
}

#[test]
fn elements_that_cannot_be_written_are_told_apart() {
    let unwritable = time::OffsetDateTime::new_in_offset(
        time::Date::from_calendar_date(2000, time::Month::January, 1).unwrap(),
        time::Time::from_hms(0, 0, 0).unwrap(),
        time::UtcOffset::from_hms(1, 0, 30).unwrap(),
    );
    assert!(!CreationDate(unwritable).is_encodable());
    assert!(!CreationDate(unwritable).is_writable());
    assert!(DisplayName("n".into()).is_writable());
    let empty = Response::Propstat {
        href: Href(http::Uri::from_static("/a")),
        propstat: vec![],
        responsedescription: None,
    };
    assert!(!empty.is_encodable());
    let no_href = Response::Status {
        href: vec![],
        status: ok_status(),
        responsedescription: None,
    };
    assert!(!no_href.is_encodable());
    let whole = Response::Status {
        href: vec![Href(http::Uri::from_static("/a"))],
        status: ok_status(),
        responsedescription: None,
    };
    assert!(whole.is_encodable());
    assert!(Multistatus { response: vec![whole.clone()], responsedescription: None }.is_writable());
    assert!(!Multistatus { response: vec![whole, empty], responsedescription: None }.is_writable());
    assert!(Multistatus::default().is_writable());
}
