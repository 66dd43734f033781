use webdav::headers::{
    CodedUrl, ComplianceClass, Condition, Dav, Depth, Destination, If, InvalidCodedUrl,
    InvalidComplianceClass, InvalidHeader, InvalidIf, LockToken, Overwrite, ResourceTag, Timeout,
    Tokens,
};

fn one(value: &str) -> Vec<Vec<u8>> {
    vec![value.as_bytes().to_vec()]
}

fn coded(uri: &str) -> CodedUrl {
    CodedUrl(uniresid::AbsoluteUri::parse(uri).unwrap())
}

#[test]
fn dav_test() {
    let text = "1,2,3,<https://example.com/foo>,foobar";
    let header = Dav(vec![
        ComplianceClass::One,
        ComplianceClass::Two,
        ComplianceClass::Three,
        ComplianceClass::CodedUrl(Box::new(CodedUrl(
            uniresid::AbsoluteUri::parse("https://example.com/foo").unwrap(),
        ))),
        ComplianceClass::Tokens("foobar".parse().unwrap()),
    ]);
    assert_eq!(Ok(header.clone()), Dav::decode(&one(text)));
    assert_eq!(text, header.encode());
}

#[test]
fn depth_test() {
    for (text, header) in [
        ("0", Depth::Zero),
        ("1", Depth::One),
        ("infinity", Depth::Infinity),
    ] {
        assert_eq!(Ok(header.clone()), Depth::decode(&one(text)));
        assert_eq!(text, header.encode());
    }
}

#[test]
fn destination_test() {
    for (text, header) in [
        (
            "https://example.com/foo",
            Destination("https://example.com/foo".parse().unwrap()),
        ),
        ("/foo/bar/123", Destination("/foo/bar/123".parse().unwrap())),
    ] {
        assert_eq!(Ok(header.clone()), Destination::decode(&one(text)));
        assert_eq!(text, header.encode());
    }
}

#[test]
fn if__test() {
    let cases = [
        (
            r#"(<urn:uuid:181d4fae-7d8c-11d0-a765-00a0c91e6bf2> ["I am an ETag"]) (["I am another ETag"])"#,
            If::NoTagList(vec![
                vec![
                    Condition::StateToken {
                        not: false,
                        coded_url: CodedUrl(
                            uniresid::AbsoluteUri::parse(
                                "urn:uuid:181d4fae-7d8c-11d0-a765-00a0c91e6bf2",
                            )
                            .unwrap(),
                        ),
                    },
                    Condition::ETag {
                        not: false,
                        etag: r#""I am an ETag""#.into(),
                    },
                ],
                vec![Condition::ETag {
                    not: false,
                    etag: r#""I am another ETag""#.into(),
                }],
            ]),
        ),
        (
            "(Not <urn:uuid:181d4fae-7d8c-11d0-a765-00a0c91e6bf2> <urn:uuid:58f202ac-22cf-11d1-b12d-002035b29092>)",
            If::NoTagList(vec![vec![
                Condition::StateToken {
                    not: true,
                    coded_url: CodedUrl(
                        uniresid::AbsoluteUri::parse(
                            "urn:uuid:181d4fae-7d8c-11d0-a765-00a0c91e6bf2",
                        )
                        .unwrap(),
                    ),
                },
                Condition::StateToken {
                    not: false,
                    coded_url: CodedUrl(
                        uniresid::AbsoluteUri::parse(
                            "urn:uuid:58f202ac-22cf-11d1-b12d-002035b29092",
                        )
                        .unwrap(),
                    ),
                },
            ]]),
        ),
        (
            r#"</resource1> (<urn:uuid:181d4fae-7d8c-11d0-a765-00a0c91e6bf2> [W/"A weak ETag"]) (["strong ETag"])"#,
            If::TaggedList(vec![(
                ResourceTag("/resource1".parse().unwrap()),
                vec![
                    vec![
                        Condition::StateToken {
                            not: false,
                            coded_url: CodedUrl(
                                uniresid::AbsoluteUri::parse(
                                    "urn:uuid:181d4fae-7d8c-11d0-a765-00a0c91e6bf2",
                                )
                                .unwrap(),
                            ),
                        },
                        Condition::ETag {
                            not: false,
                            etag: r#"W/"A weak ETag""#.into(),
                        },
                    ],
                    vec![Condition::ETag {
                        not: false,
                        etag: r#""strong ETag""#.into(),
                    }],
                ],
            )]),
        ),
    ];
    for (text, header) in cases {
        assert_eq!(Ok(header.clone()), If::decode(&one(text)));
        assert_eq!(text, header.encode());
    }
}

#[test]
fn overwrite_test() {
    for (text, header) in [("F", Overwrite::F), ("T", Overwrite::T)] {
        assert_eq!(Ok(header), Overwrite::decode(&one(text)));
        assert_eq!(text, header.encode());
    }
}

#[test]
fn timeout_test() {
    for (text, header) in [
        ("Second-123", Timeout::Seconds(123)),
        ("Infinite", Timeout::Infinite),
    ] {
        assert_eq!(Ok(header), Timeout::decode(&one(text)));
        assert_eq!(text, header.encode());
    }
}

#[test]
fn header_names() {
    assert_eq!(Dav::name(), "dav");
    assert_eq!(Depth::name(), "depth");
    assert_eq!(Destination::name(), "destination");
    assert_eq!(LockToken::name(), "lock-token");
    assert_eq!(Overwrite::name(), "overwrite");
    assert_eq!(Timeout::name(), "timeout");
    assert_eq!(webdav::headers::IF, "if");
    assert_eq!(webdav::methods::PROPFIND, "PROPFIND");
    assert_eq!(webdav::methods::UNLOCK, "UNLOCK");
}

#[test]
fn a_header_must_have_one_value() {
    assert_eq!(Depth::decode(&[]), Err(InvalidHeader));
    assert_eq!(
        Depth::decode(&[b"0".to_vec(), b"1".to_vec()]),
        Err(InvalidHeader)
    );
    assert_eq!(Timeout::decode(&[]), Err(InvalidHeader));
    assert_eq!(
        Timeout::decode(&[b"Infinite".to_vec(), b"Infinite".to_vec()]),
        Err(InvalidHeader)
    );
    assert_eq!(Depth::decode(&one("Infinity")), Err(InvalidHeader));
    assert_eq!(Depth::decode(&one("2")), Err(InvalidHeader));
}

#[test]
fn overwrite_reads_the_first_value_in_either_case() {
    assert_eq!(Overwrite::decode(&one("f")), Ok(Overwrite::F));
    assert_eq!(Overwrite::decode(&one("t")), Ok(Overwrite::T));
    assert_eq!(
        Overwrite::decode(&[b"T".to_vec(), b"nonsense".to_vec()]),
        Ok(Overwrite::T)
    );
    assert_eq!(Overwrite::decode(&one("true")), Err(InvalidHeader));
    assert_eq!(Overwrite::decode(&[]), Err(InvalidHeader));
    assert_eq!(Overwrite::default(), Overwrite::T);
}

#[test]
fn timeout_words_in_any_case_and_numbers_in_range() {
    assert_eq!(Timeout::decode(&one("infinite")), Ok(Timeout::Infinite));
    assert_eq!(Timeout::decode(&one("SECOND-0")), Ok(Timeout::Seconds(0)));
    assert_eq!(Timeout::decode(&one("second-+7")), Ok(Timeout::Seconds(7)));
    assert_eq!(
        Timeout::decode(&one("Second-4294967295")),
        Ok(Timeout::Seconds(4294967295))
    );
    assert_eq!(Timeout::decode(&one("Second-4294967296")), Err(InvalidHeader));
    assert_eq!(Timeout::decode(&one("Second-")), Err(InvalidHeader));
    assert_eq!(Timeout::decode(&one("Second-1x")), Err(InvalidHeader));
    assert_eq!(Timeout::decode(&one("Infinite ")), Err(InvalidHeader));
    assert_eq!(Timeout::decode(&one("Seconds-1")), Err(InvalidHeader));
    assert_eq!(
        Timeout::decode(&[vec![b'S', 0x80]]),
        Err(InvalidHeader)
    );
    assert_eq!(Timeout::Seconds(4294967295).encode(), "Second-4294967295");
    assert_eq!(Timeout::Seconds(0).encode(), "Second-0");
}

#[test]
fn coded_url_is_a_uri_between_brackets() {
    let url = CodedUrl::parse("<https://example.com/a>rest").unwrap();
    assert_eq!(url, coded("https://example.com/a"));
    assert_eq!(url.to_text(), "<https://example.com/a>");
    assert_eq!("<urn:x:y>".parse::<CodedUrl>().unwrap(), coded("urn:x:y"));
    assert!(matches!(
        CodedUrl::parse("https://example.com/a>"),
        Err(InvalidCodedUrl::ExpectedChar('<'))
    ));
    assert!(matches!(
        CodedUrl::parse("<https://example.com/a"),
        Err(InvalidCodedUrl::ExpectedChar('>'))
    ));
    assert!(matches!(CodedUrl::parse(""), Err(InvalidCodedUrl::ExpectedChar('<'))));
    assert!(matches!(CodedUrl::parse("<no scheme>"), Err(InvalidCodedUrl::Uri(_))));
    assert_eq!(InvalidCodedUrl::ExpectedChar('<').message(), "expected '<'");
    let chars: Vec<char> = "ab<urn:x:y>c".chars().collect();
    assert_eq!(CodedUrl::peek(&chars, 2).unwrap(), (coded("urn:x:y"), 11));
}

#[test]
fn lock_token_reads_the_coded_url_at_the_start() {
    let token = LockToken::decode(&one("<urn:uuid:1234>")).unwrap();
    assert_eq!(token, LockToken(coded("urn:uuid:1234")));
    assert_eq!(token.encode(), "<urn:uuid:1234>");
    assert_eq!(
        LockToken::decode(&one("<urn:uuid:1234> more")),
        Ok(LockToken(coded("urn:uuid:1234")))
    );
    assert_eq!(LockToken::decode(&one("urn:uuid:1234")), Err(InvalidHeader));
}

#[test]
fn destination_must_be_a_uri() {
    assert_eq!(Destination::decode(&one("")), Err(InvalidHeader));
    assert_eq!(Destination::decode(&one("a b")), Err(InvalidHeader));
    assert_eq!(Destination::decode(&[]), Err(InvalidHeader));
}

#[test]
fn compliance_classes() {
    assert_eq!("1".parse::<ComplianceClass>().unwrap(), ComplianceClass::One);
    assert_eq!("2".parse::<ComplianceClass>().unwrap(), ComplianceClass::Two);
    assert_eq!("3".parse::<ComplianceClass>().unwrap(), ComplianceClass::Three);
    assert!(matches!(
        "".parse::<ComplianceClass>(),
        Err(InvalidComplianceClass::Empty)
    ));
    assert!(matches!(
        "a-b".parse::<ComplianceClass>(),
        Err(InvalidComplianceClass::InvalidChar('-'))
    ));
    assert!(matches!(
        "caf\u{e9}".parse::<Tokens>(),
        Err(InvalidComplianceClass::InvalidChar('\u{e9}'))
    ));
    let tokens = "access2".parse::<Tokens>().unwrap();
    assert_eq!(tokens.as_str(), "access2");
    assert_eq!(tokens.clone().into_string(), "access2");
    assert_eq!(
        "12".parse::<ComplianceClass>().unwrap(),
        ComplianceClass::Tokens(tokens_of("12"))
    );
    assert_eq!(InvalidComplianceClass::Empty.message(), "empty compliance class");
    assert_eq!(
        InvalidComplianceClass::InvalidChar('-').message(),
        "invalid character in compliance class '-'"
    );
}

fn tokens_of(text: &str) -> Tokens {
    text.parse().unwrap()
}

#[test]
fn dav_fields_are_trimmed_and_none_may_be_empty() {
    assert_eq!(
        Dav::decode(&one(" 1 ,\t2, extended ")),
        Ok(Dav(vec![
            ComplianceClass::One,
            ComplianceClass::Two,
            ComplianceClass::Tokens(tokens_of("extended")),
        ]))
    );
    assert_eq!(Dav::decode(&one("")), Err(InvalidHeader));
    assert_eq!(Dav::decode(&one("1,")), Err(InvalidHeader));
    assert_eq!(Dav::decode(&one("1,,2")), Err(InvalidHeader));
    assert_eq!(Dav(vec![]).encode(), "");
    assert_eq!(Dav(vec![ComplianceClass::Three]).encode(), "3");
}

#[test]
fn conditions() {
    let chars: Vec<char> = "not  [x] <urn:a:b>".chars().collect();
    let (condition, next) = Condition::peek(&chars, 0).unwrap();
    assert_eq!(condition, Condition::ETag { not: true, etag: "x".into() });
    assert_eq!(next, 8);
    assert_eq!(condition.to_text(), "Not [x]");
    let (condition, next) = Condition::peek(&chars, 9).unwrap();
    assert_eq!(
        condition,
        Condition::StateToken { not: false, coded_url: coded("urn:a:b") }
    );
    assert_eq!(next, 18);
    assert_eq!(condition.to_text(), "<urn:a:b>");
    let open: Vec<char> = "[x".chars().collect();
    assert!(matches!(
        Condition::peek(&open, 0),
        Err(InvalidIf::ExpectedChar(']'))
    ));
    let none: Vec<char> = "x".chars().collect();
    assert!(matches!(
        Condition::peek(&none, 0),
        Err(InvalidIf::CodedUrl(InvalidCodedUrl::ExpectedChar('<')))
    ));
}

#[test]
fn if_header_errors() {
    assert!(matches!(If::parse(""), Err(InvalidIf::EmptyConditionList)));
    assert!(matches!(If::parse("   "), Err(InvalidIf::EmptyConditionList)));
    assert!(matches!(If::parse("()"), Err(InvalidIf::EmptyConditionList)));
    assert!(matches!(If::parse("[x]"), Err(InvalidIf::ExpectedChar('('))));
    assert!(matches!(
        If::parse("([x]"),
        Err(InvalidIf::CodedUrl(InvalidCodedUrl::ExpectedChar('<')))
    ));
    assert!(matches!(If::parse("</a>"), Err(InvalidIf::EmptyConditionList)));
    assert!(matches!(
        If::parse("</a> ([x]) <b c> ([y])"),
        Err(InvalidIf::Uri(_))
    ));
    assert!(matches!(
        If::parse("(<nouri>)"),
        Err(InvalidIf::CodedUrl(InvalidCodedUrl::Uri(_)))
    ));
    assert_eq!(If::decode(&[]), Err(InvalidHeader));
    assert_eq!(If::decode(&one("(")), Err(InvalidHeader));
    assert_eq!(InvalidIf::EmptyConditionList.message(), "empty condition list");
    assert_eq!(InvalidIf::EmptyResourceList.message(), "empty resource list");
    assert_eq!(InvalidIf::ExpectedChar(')').message(), "expected ')'");
}

#[test]
fn if_header_with_several_resources() {
    let text = "  </a> ([x])  ( Not [y] [z] ) </b> ([w])  ";
    let header = If::parse(text).unwrap();
    let expected = If::TaggedList(vec![
        (
            ResourceTag("/a".parse().unwrap()),
            vec![
                vec![Condition::ETag { not: false, etag: "x".into() }],
                vec![
                    Condition::ETag { not: true, etag: "y".into() },
                    Condition::ETag { not: false, etag: "z".into() },
                ],
            ],
        ),
        (
            ResourceTag("/b".parse().unwrap()),
            vec![vec![Condition::ETag { not: false, etag: "w".into() }]],
        ),
    ]);
    assert_eq!(header, expected);
    assert_eq!(header.to_text(), "</a> ([x]) (Not [y] [z])</b> ([w])");
    assert_eq!(text.parse::<If>().unwrap(), expected);
    assert_eq!(
        "</r>x".parse::<ResourceTag>().unwrap(),
        ResourceTag("/r".parse().unwrap())
    );
    assert_eq!(ResourceTag("/r".parse().unwrap()).to_text(), "</r>");
}
