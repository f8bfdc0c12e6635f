use jsonapi::decode;
use jsonapi::encode;
use jsonapi::json::JsonValue;
use jsonapi::model::Document;
use jsonapi::model::PrimaryData;
use jsonapi::ErrorKind;

fn obj(pairs: Vec<(&str, JsonValue)>) -> JsonValue {
    JsonValue::Obj(pairs.into_iter().map(|(k, v)| (k.to_string(), v)).collect())
}

fn arr(items: Vec<JsonValue>) -> JsonValue {
    JsonValue::Arr(items)
}

fn text(s: &str) -> JsonValue {
    JsonValue::Text(s.to_string())
}

fn article_with_author() -> JsonValue {
    obj(vec![(
        "data",
        obj(vec![
            ("type", text("articles")),
            ("id", text("1")),
            (
                "relationships",
                obj(vec![(
                    "author",
                    obj(vec![(
                        "data",
                        obj(vec![("type", text("people")), ("id", text("9"))]),
                    )]),
                )]),
            ),
        ]),
    )])
}

fn with_included(mut doc: JsonValue, included: JsonValue) -> JsonValue {
    match &mut doc {
        JsonValue::Obj(fields) => fields.push(("included".to_string(), included)),
        _ => panic!("not an object"),
    }
    doc
}

#[test]
fn both_data_and_errors_is_ambiguous() {
    let doc = obj(vec![("data", JsonValue::Null), ("errors", arr(vec![]))]);
    let e = decode(doc, true).unwrap_err();
    assert_eq!(e.kind, ErrorKind::AmbiguousOrEmptyDocument);
}

#[test]
fn both_data_and_errors_with_extra_member_is_still_ambiguous() {
    let doc = obj(vec![
        ("bogus", text("x")),
        ("data", JsonValue::Null),
        ("errors", arr(vec![])),
    ]);
    let e = decode(doc, true).unwrap_err();
    assert_eq!(e.kind, ErrorKind::AmbiguousOrEmptyDocument);
}

#[test]
fn included_without_data_is_rejected() {
    let doc = obj(vec![
        ("meta", obj(vec![])),
        ("included", arr(vec![])),
    ]);
    let e = decode(doc, true).unwrap_err();
    assert_eq!(e.kind, ErrorKind::IncludedWithoutData);
}

#[test]
fn included_with_errors_is_rejected() {
    let doc = obj(vec![
        ("errors", arr(vec![])),
        ("included", arr(vec![])),
    ]);
    let e = decode(doc, true).unwrap_err();
    assert_eq!(e.kind, ErrorKind::IncludedWithoutData);
}

#[test]
fn empty_document_is_rejected() {
    let e = decode(obj(vec![]), true).unwrap_err();
    assert_eq!(e.kind, ErrorKind::AmbiguousOrEmptyDocument);
}

#[test]
fn meta_only_document_is_accepted() {
    let doc = obj(vec![("meta", obj(vec![("count", JsonValue::Number("3".to_string()))]))]);
    let d = decode(doc, true).unwrap();
    assert!(matches!(d, Document::Info { .. }));
}

#[test]
fn empty_data_array_is_distinct_from_null() {
    let d = decode(obj(vec![("data", arr(vec![]))]), true).unwrap();
    match d {
        Document::Data { data: PrimaryData::Array(ros), .. } => assert_eq!(ros.len(), 0),
        other => panic!("expected an empty to-many document, got {:?}", other),
    }
    let d2 = decode(obj(vec![("data", JsonValue::Null)]), true).unwrap();
    assert!(matches!(d2, Document::Data { data: PrimaryData::Null, .. }));
}

#[test]
fn mixed_identifier_and_resource_array_is_rejected() {
    let doc = obj(vec![(
        "data",
        arr(vec![
            obj(vec![("type", text("a")), ("id", text("1"))]),
            obj(vec![("type", text("b")), ("id", text("2")), ("attributes", obj(vec![]))]),
        ]),
    )]);
    let e = decode(doc, true).unwrap_err();
    assert_eq!(e.kind, ErrorKind::InconsistentResourceShape);
}

#[test]
fn uniform_identifier_array_decodes_as_identifiers() {
    let doc = obj(vec![(
        "data",
        arr(vec![
            obj(vec![("type", text("a")), ("id", text("1"))]),
            obj(vec![("type", text("a")), ("id", text("2"))]),
        ]),
    )]);
    let d = decode(doc, true).unwrap();
    match d {
        Document::Data { data: PrimaryData::ArrayIdentifier(xs), .. } => assert_eq!(xs.len(), 2),
        other => panic!("expected identifiers, got {:?}", other),
    }
}

#[test]
fn fully_linked_included_is_accepted() {
    let doc = with_included(
        article_with_author(),
        arr(vec![obj(vec![("type", text("people")), ("id", text("9"))])]),
    );
    let d = decode(doc, true).unwrap();
    match d {
        Document::Data { included, .. } => assert_eq!(included.len(), 1),
        other => panic!("expected a data document, got {:?}", other),
    }
}

#[test]
fn unreferenced_included_is_rejected_when_enforced() {
    let doc = with_included(
        article_with_author(),
        arr(vec![obj(vec![("type", text("comments")), ("id", text("5"))])]),
    );
    let e = decode(doc, true).unwrap_err();
    assert_eq!(e.kind, ErrorKind::UnlinkedIncludedResource);
}

#[test]
fn unreferenced_included_is_accepted_when_not_enforced() {
    let doc = with_included(
        article_with_author(),
        arr(vec![obj(vec![("type", text("comments")), ("id", text("5"))])]),
    );
    assert!(decode(doc, false).is_ok());
}

#[test]
fn transitively_linked_included_is_accepted() {
    let doc = with_included(
        article_with_author(),
        arr(vec![
            obj(vec![
                ("type", text("people")),
                ("id", text("9")),
                (
                    "relationships",
                    obj(vec![(
                        "employer",
                        obj(vec![(
                            "data",
                            obj(vec![("type", text("firms")), ("id", text("7"))]),
                        )]),
                    )]),
                ),
            ]),
            obj(vec![("type", text("firms")), ("id", text("7"))]),
        ]),
    );
    assert!(decode(doc, true).is_ok());
}

#[test]
fn error_document_round_trips() {
    let doc = obj(vec![(
        "errors",
        arr(vec![obj(vec![
            ("status", text("404")),
            ("title", text("not found")),
            (
                "source",
                obj(vec![("pointer", text("/data"))]),
            ),
        ])]),
    )]);
    let d = decode(doc, true).unwrap();
    match &d {
        Document::Errors { errors, .. } => {
            assert_eq!(errors.len(), 1);
            assert_eq!(errors[0].status.as_deref(), Some("404"));
            assert_eq!(errors[0].title.as_deref(), Some("not found"));
        },
        other => panic!("expected an error document, got {:?}", other),
    }
    let d2 = decode(encode(d), true).unwrap();
    match d2 {
        Document::Errors { errors, .. } => assert_eq!(errors[0].status.as_deref(), Some("404")),
        other => panic!("expected an error document, got {:?}", other),
    }
}

#[test]
fn decode_encode_decode_is_identity() {
    let make = || {
        with_included(
            obj(vec![
                (
                    "data",
                    obj(vec![
                        ("type", text("articles")),
                        ("id", text("1")),
                        ("attributes", obj(vec![("title", text("Rails is Omakase"))])),
                        (
                            "relationships",
                            obj(vec![(
                                "author",
                                obj(vec![
                                    (
                                        "data",
                                        obj(vec![("type", text("people")), ("id", text("9"))]),
                                    ),
                                    (
                                        "links",
                                        obj(vec![("self", text("/articles/1/relationships/author"))]),
                                    ),
                                ]),
                            )]),
                        ),
                        ("links", obj(vec![("self", text("/articles/1"))])),
                    ]),
                ),
                ("meta", obj(vec![("copyright", text("CC0"))])),
                ("jsonapi", obj(vec![("version", text("1.0"))])),
            ]),
            arr(vec![obj(vec![
                ("type", text("people")),
                ("id", text("9")),
                ("attributes", obj(vec![("name", text("DHH"))])),
            ])]),
        )
    };
    let d1 = decode(make(), true).unwrap();
    let d2 = decode(make(), true).unwrap();
    let d3 = decode(encode(d1), true).unwrap();
    assert_eq!(d2, d3);
}

#[test]
fn unknown_top_level_member_is_rejected() {
    let doc = obj(vec![("data", JsonValue::Null), ("bogus", text("x"))]);
    let e = decode(doc, true).unwrap_err();
    assert_eq!(e.kind, ErrorKind::UnknownFieldRejected);
    assert_eq!(e.pointer(), "/bogus");
}

#[test]
fn non_object_root_is_rejected() {
    let e = decode(arr(vec![]), true).unwrap_err();
    assert_eq!(e.kind, ErrorKind::UnexpectedJsonType);
}

#[test]
fn link_object_without_href_is_malformed() {
    let doc = obj(vec![
        ("data", JsonValue::Null),
        ("links", obj(vec![("self", obj(vec![("meta", obj(vec![]))]))])),
    ]);
    let e = decode(doc, true).unwrap_err();
    assert_eq!(e.kind, ErrorKind::MalformedLink);
    assert_eq!(e.pointer(), "/links/self");
}

#[test]
fn reserved_attribute_key_reports_its_path() {
    let doc = obj(vec![(
        "data",
        obj(vec![
            ("type", text("articles")),
            ("id", text("1")),
            ("attributes", obj(vec![("links", JsonValue::Null)])),
        ]),
    )]);
    let e = decode(doc, true).unwrap_err();
    assert_eq!(e.kind, ErrorKind::ReservedAttributeKey);
    assert_eq!(e.pointer(), "/data/attributes/links");
}

#[test]
fn missing_resource_type_is_rejected() {
    let doc = obj(vec![(
        "data",
        obj(vec![("id", text("1")), ("attributes", obj(vec![]))]),
    )]);
    let e = decode(doc, true).unwrap_err();
    assert_eq!(e.kind, ErrorKind::MissingMember);
    assert_eq!(e.pointer(), "/data/type");
}

#[test]
fn invalid_member_name_in_data_is_rejected() {
    let doc = obj(vec![(
        "data",
        obj(vec![("type", text("bad.name")), ("id", text("1"))]),
    )]);
    let e = decode(doc, true).unwrap_err();
    assert_eq!(e.kind, ErrorKind::InvalidMemberName);
}

#[test]
fn invalid_relationship_name_is_rejected() {
    let doc = obj(vec![(
        "data",
        obj(vec![
            ("type", text("articles")),
            ("id", text("1")),
            (
                "relationships",
                obj(vec![("bad/name", obj(vec![("data", JsonValue::Null)]))]),
            ),
        ]),
    )]);
    let e = decode(doc, true).unwrap_err();
    assert_eq!(e.kind, ErrorKind::InvalidRelationshipName);
}

#[test]
fn array_index_appears_in_error_path() {
    let doc = obj(vec![(
        "data",
        arr(vec![
            obj(vec![("type", text("a")), ("id", text("1"))]),
            obj(vec![("type", text("a")), ("id", text("bad.id"))]),
        ]),
    )]);
    let e = decode(doc, true).unwrap_err();
    assert_eq!(e.kind, ErrorKind::InvalidMemberName);
    assert_eq!(e.pointer(), "/data/1/id");
}

#[test]
fn single_identifier_document_round_trips() {
    let make = || {
        obj(vec![(
            "data",
            obj(vec![
                ("type", text("people")),
                ("id", text("9")),
                ("meta", obj(vec![("note", text("by reference"))])),
            ]),
        )])
    };
    let d1 = decode(make(), true).unwrap();
    assert!(matches!(
        d1,
        Document::Data { data: PrimaryData::SingleIdentifier(_), .. }
    ));
    let d2 = decode(encode(d1), true).unwrap();
    let d3 = decode(make(), true).unwrap();
    assert_eq!(d2, d3);
}
