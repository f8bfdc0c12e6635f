use jsonapi::encode;
use jsonapi::json::JsonValue;
use jsonapi::model::Attributes;
use jsonapi::model::Document;
use jsonapi::model::Link;
use jsonapi::model::PrimaryData;
use jsonapi::model::Relationship;
use jsonapi::model::Relationships;
use jsonapi::model::ResourceIdentifierObject;
use jsonapi::model::ResourceLinkage;
use jsonapi::model::ResourceObject;
use jsonapi::ErrorKind;
use jsonapi::Name;

#[test]
fn empty_name_is_rejected() {
    let e = Name::new(String::new()).unwrap_err();
    assert_eq!(e.kind, ErrorKind::InvalidMemberName);
}

#[test]
fn single_disallowed_characters_are_rejected() {
    for bad in [".", "+", "!", "-", "_", " ", "~", "\\"] {
        assert!(Name::new(bad.to_string()).is_err(), "accepted {:?}", bad);
    }
}

#[test]
fn single_allowed_characters_are_accepted() {
    for good in ["a", "Z", "0", "é"] {
        assert!(Name::new(good.to_string()).is_ok(), "rejected {:?}", good);
    }
}

#[test]
fn typical_names_validate() {
    assert!(Name::new("valid-name_1".to_string()).is_ok());
    assert!(Name::new("with space inside".to_string()).is_ok());
    assert!(Name::new("-leading".to_string()).is_err());
    assert!(Name::new("trailing-".to_string()).is_err());
    assert!(Name::new("with.dot".to_string()).is_err());
    assert!(Name::new("with@sign".to_string()).is_err());
}

#[test]
fn reserved_attribute_keys_are_rejected() {
    for reserved in ["links", "relationships"] {
        let e = Attributes::new(vec![(reserved.to_string(), JsonValue::Null)]).unwrap_err();
        assert_eq!(e.kind, ErrorKind::ReservedAttributeKey);
    }
}

#[test]
fn invalid_attribute_key_is_rejected_as_name() {
    let e = Attributes::new(vec![("bad.key".to_string(), JsonValue::Null)]).unwrap_err();
    assert_eq!(e.kind, ErrorKind::InvalidMemberName);
}

#[test]
fn ordinary_attribute_keys_are_accepted() {
    let a = Attributes::new(vec![
        ("title".to_string(), JsonValue::Text("t".to_string())),
        ("word-count".to_string(), JsonValue::Number("7".to_string())),
    ])
    .unwrap();
    assert_eq!(a.entries().len(), 2);
}

#[test]
fn relationship_names_are_validated() {
    let rel = Relationship { links: None, data: Some(ResourceLinkage::Null), meta: None };
    let e = Relationships::new(vec![("bad,name".to_string(), rel)]).unwrap_err();
    assert_eq!(e.kind, ErrorKind::InvalidRelationshipName);
}

#[test]
fn identifier_constructor_validates_type_and_id() {
    assert!(ResourceIdentifierObject::new("people".to_string(), "9".to_string(), None).is_ok());
    let e = ResourceIdentifierObject::new("pe:ople".to_string(), "9".to_string(), None)
        .unwrap_err();
    assert_eq!(e.kind, ErrorKind::InvalidMemberName);
    assert_eq!(e.pointer(), "/type");
}

fn article() -> ResourceObject {
    ResourceObject::new(
        "articles".to_string(),
        Some("1".to_string()),
        Some(Attributes::new(vec![(
            "title".to_string(),
            JsonValue::Text("t".to_string()),
        )])
        .unwrap()),
        None,
        None,
        None,
    )
    .unwrap()
}

#[test]
fn encode_never_emits_errors_beside_data() {
    let d = Document::Data {
        jsonapi: None,
        data: PrimaryData::Single(article()),
        links: None,
        meta: None,
        included: vec![],
    };
    match encode(d) {
        JsonValue::Obj(fields) => {
            assert!(fields.iter().any(|(k, _)| k == "data"));
            assert!(!fields.iter().any(|(k, _)| k == "errors"));
            assert!(!fields.iter().any(|(k, _)| k == "included"));
        },
        other => panic!("expected an object, got {:?}", other),
    }
}

#[test]
fn encode_never_emits_data_beside_errors() {
    let d = Document::Errors { jsonapi: None, errors: vec![], links: None, meta: None };
    match encode(d) {
        JsonValue::Obj(fields) => {
            assert!(fields.iter().any(|(k, _)| k == "errors"));
            assert!(!fields.iter().any(|(k, _)| k == "data"));
            assert!(!fields.iter().any(|(k, _)| k == "included"));
        },
        other => panic!("expected an object, got {:?}", other),
    }
}

#[test]
fn empty_to_one_and_empty_to_many_encode_differently() {
    let rels = Relationships::new(vec![
        (
            "author".to_string(),
            Relationship { links: None, data: Some(ResourceLinkage::Null), meta: None },
        ),
        (
            "comments".to_string(),
            Relationship { links: None, data: Some(ResourceLinkage::Array(vec![])), meta: None },
        ),
    ])
    .unwrap();
    let ro = ResourceObject::new(
        "articles".to_string(),
        Some("1".to_string()),
        None,
        Some(rels),
        None,
        None,
    )
    .unwrap();
    let d = Document::Data {
        jsonapi: None,
        data: PrimaryData::Single(ro),
        links: None,
        meta: None,
        included: vec![],
    };
    let v = encode(d);
    let fields = match v {
        JsonValue::Obj(fields) => fields,
        other => panic!("expected an object, got {:?}", other),
    };
    let data = &fields.iter().find(|(k, _)| k == "data").unwrap().1;
    let rfields = match data {
        JsonValue::Obj(fs) => match &fs.iter().find(|(k, _)| k == "relationships").unwrap().1 {
            JsonValue::Obj(rs) => rs,
            other => panic!("expected an object, got {:?}", other),
        },
        other => panic!("expected an object, got {:?}", other),
    };
    let author = &rfields.iter().find(|(k, _)| k == "author").unwrap().1;
    let comments = &rfields.iter().find(|(k, _)| k == "comments").unwrap().1;
    assert_eq!(rel_data_shape(author), "null");
    assert_eq!(rel_data_shape(comments), "empty-array");
}

fn rel_data_shape(v: &JsonValue) -> &'static str {
    match v {
        JsonValue::Obj(fs) => match fs.iter().find(|(k, _)| k == "data") {
            Some((_, JsonValue::Null)) => "null",
            Some((_, JsonValue::Arr(a))) if a.is_empty() => "empty-array",
            _ => "other",
        },
        _ => "other",
    }
}

#[test]
fn bare_url_link_survives_encoding() {
    let links = jsonapi::model::Links {
        entries: vec![(
            Name::new("self".to_string()).unwrap(),
            Link::Url("/articles/1".to_string()),
        )],
    };
    let d = Document::Data {
        jsonapi: None,
        data: PrimaryData::Null,
        links: Some(links),
        meta: None,
        included: vec![],
    };
    let v = encode(d);
    let fields = match v {
        JsonValue::Obj(fields) => fields,
        other => panic!("expected an object, got {:?}", other),
    };
    match &fields.iter().find(|(k, _)| k == "links").unwrap().1 {
        JsonValue::Obj(ls) => {
            assert_eq!(ls[0].0, "self");
            assert_eq!(ls[0].1, JsonValue::Text("/articles/1".to_string()));
        },
        other => panic!("expected an object, got {:?}", other),
    }
}

#[test]
fn self_link_lookup() {
    let n = Name::new("self".to_string()).unwrap();
    n.check_valid();
    let links = jsonapi::model::Links {
        entries: vec![(n, Link::Url("/things/1".to_string()))],
    };
    assert!(matches!(links.self_(), Some(Link::Url(u)) if u == "/things/1"));
    let empty = jsonapi::model::Links { entries: vec![] };
    assert!(empty.self_().is_none());
}
