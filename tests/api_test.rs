use jsonapi::api::{
    IdentifierData, Links, Relationship, ResourceIdentifier,
    DocumentData, DocumentError, DocumentValidationError, JsonApiDocument, JsonApiError, Meta,
    PrimaryData, Relationships, Resource, ResourceAttributes,
};

fn test_resource() -> Resource {
    Resource {
        _type: "test".into(),
        id: Some("123".into()),
        attributes: ResourceAttributes::new(),
        relationships: Some(Relationships::new()),
        links: None,
        meta: Some(Meta::new()),
    }
}

#[test]
fn it_works_with_ids_present() {
    let resource = test_resource();

    assert_eq!(resource.id, Some("123".into()));

    let serialized = resource.to_json_string();
    let parsed: serde_json::Value = serde_json::from_str(&serialized).unwrap();

    assert_eq!(parsed["id"].as_str(), Some("123"));

    let jsonapidocument = JsonApiDocument::Data(DocumentData {
        data: Some(PrimaryData::Null),
        ..Default::default()
    });

    assert_eq!(jsonapidocument.is_valid(), true);
}

#[test]
fn it_works_with_ids_absent() {
    let resource = Resource {
        _type: "test".into(),
        id: None,
        attributes: ResourceAttributes::new(),
        relationships: Some(Relationships::new()),
        links: None,
        meta: Some(Meta::new()),
    };

    assert_eq!(resource.id, None);

    let serialized = resource.to_json_string();
    let parsed: serde_json::Value = serde_json::from_str(&serialized).unwrap();

    assert!(parsed.get("id").is_none());

    let jsonapidocument = JsonApiDocument::Data(DocumentData {
        data: Some(PrimaryData::Null),
        ..Default::default()
    });

    assert_eq!(jsonapidocument.is_valid(), true);
}

#[test]
fn jsonapi_document_can_be_valid() {
    let resource = test_resource();

    let jsonapi_document_with_data = JsonApiDocument::Data(DocumentData {
        data: Some(PrimaryData::Single(Box::new(resource))),
        ..Default::default()
    });

    assert_eq!(jsonapi_document_with_data.is_valid(), true);
}

#[test]
fn jsonapi_document_invalid_errors() {
    let included_resource = test_resource();

    let no_content_document = JsonApiDocument::Data(DocumentData {
        data: None,
        ..Default::default()
    });

    match no_content_document.validate() {
        None => assert!(false),
        Some(errors) => {
            assert!(errors.contains(&DocumentValidationError::MissingContent));
        }
    }

    let null_data_content_document = JsonApiDocument::Data(DocumentData {
        data: Some(PrimaryData::Null),
        ..Default::default()
    });

    match null_data_content_document.validate() {
        None => assert!(true),
        Some(_) => assert!(false),
    }

    let included_without_data_document = JsonApiDocument::Data(DocumentData {
        included: Some(vec![included_resource]),
        ..Default::default()
    });

    match included_without_data_document.validate() {
        None => assert!(false),
        Some(errors) => {
            assert!(errors.contains(&DocumentValidationError::IncludedWithoutData));
        }
    }
}

#[test]
fn it_omits_empty_document_and_primary_data_keys() {
    let resource = Resource {
        _type: "test".into(),
        id: Some("123".into()),
        attributes: ResourceAttributes::new(),
        ..Default::default()
    };
    let doc = JsonApiDocument::Data(DocumentData {
        data: Some(PrimaryData::Single(Box::new(resource))),
        ..Default::default()
    });

    assert_eq!(
        doc.to_json_string(),
        r#"{"data":{"type":"test","id":"123","attributes":{}}}"#
    );
}

#[test]
fn it_does_not_omit_an_empty_primary_data() {
    let doc = JsonApiDocument::Data(DocumentData {
        data: Some(PrimaryData::Null),
        ..Default::default()
    });

    assert_eq!(doc.to_json_string(), r#"{"data":null}"#);
}

#[test]
fn it_omits_empty_error_keys() {
    let error = JsonApiError {
        id: Some("error_id".to_string()),
        ..Default::default()
    };
    let doc = JsonApiDocument::Error(DocumentError {
        errors: vec![error],
        ..Default::default()
    });
    assert_eq!(doc.to_json_string(), r#"{"errors":[{"id":"error_id"}]}"#);
}

#[test]
fn empty_data_document_encodes_as_empty_object() {
    let doc = DocumentData::default();
    assert_eq!(doc.to_json_string(), "{}");
}

#[test]
fn validate_reports_both_rules_in_order() {
    let doc = DocumentData {
        included: Some(vec![test_resource()]),
        ..Default::default()
    };
    assert_eq!(
        doc.validate(),
        Some(vec![
            DocumentValidationError::MissingContent,
            DocumentValidationError::IncludedWithoutData
        ])
    );
    assert!(!doc.is_valid());
}

#[test]
fn validate_accepts_multiple_data_and_error_documents() {
    let doc = DocumentData {
        data: Some(PrimaryData::Multiple(vec![test_resource(), test_resource()])),
        ..Default::default()
    };
    assert_eq!(doc.validate(), None);
    let err = JsonApiDocument::Error(DocumentError::default());
    assert_eq!(err.validate(), None);
    assert!(err.is_valid());
}

#[test]
fn can_get_attribute() {
    let mut attributes = ResourceAttributes::new();
    attributes.insert("likes".into(), "250".into());
    attributes.insert("title".into(), r#""Rails is Omakase""#.into());
    attributes.insert("published".into(), "true".into());
    attributes.insert("tags".into(), r#"["rails","news"]"#.into());
    let res = Resource {
        _type: "posts".into(),
        id: Some("1".into()),
        attributes,
        ..Default::default()
    };

    let likes: serde_json::Value = serde_json::from_str(res.get_attribute("likes").unwrap()).unwrap();
    assert_eq!(likes.as_i64(), Some(250));
    let title: serde_json::Value = serde_json::from_str(res.get_attribute("title").unwrap()).unwrap();
    assert_eq!(title.as_str(), Some("Rails is Omakase"));
    let published: serde_json::Value =
        serde_json::from_str(res.get_attribute("published").unwrap()).unwrap();
    assert_eq!(published.as_bool(), Some(true));
    let tags: serde_json::Value = serde_json::from_str(res.get_attribute("tags").unwrap()).unwrap();
    let arr = tags.as_array().unwrap();
    assert_eq!(arr[0], "rails");
    assert_eq!(arr[1], "news");
    assert_eq!(res.get_attribute("Likes"), None);
    assert_eq!(res.get_attribute("missing"), None);
}

#[test]
fn attribute_insert_replaces_in_place() {
    let mut attributes = ResourceAttributes::new();
    attributes.insert("a".into(), "1".into());
    attributes.insert("b".into(), "2".into());
    attributes.insert("a".into(), "3".into());
    assert_eq!(attributes.len(), 2);
    let (k, v) = attributes.entry(0);
    assert_eq!((k.as_str(), v.as_str()), ("a", "3"));
    let (k, v) = attributes.entry(1);
    assert_eq!((k.as_str(), v.as_str()), ("b", "2"));
}

#[test]
fn resources_compare_equal_regardless_of_attribute_order() {
    let mut a = ResourceAttributes::new();
    a.insert("title".into(), r#""Rails is Omakase""#.into());
    a.insert("likes".into(), "250".into());
    let mut b = ResourceAttributes::new();
    b.insert("likes".into(), "250".into());
    b.insert("title".into(), r#""Rails is Omakase""#.into());
    let r1 = Resource { _type: "posts".into(), id: Some("1".into()), attributes: a, ..Default::default() };
    let r2 = Resource { _type: "posts".into(), id: Some("1".into()), attributes: b, ..Default::default() };
    assert!(r1 == r2);
    let mut r3 = r2.clone();
    r3.attributes.insert("likes".into(), "251".into());
    assert!(r1 != r3);
    let mut r4 = r2.clone();
    r4.id = Some("2".into());
    assert!(r1 != r4);
}

#[test]
fn strings_are_escaped_in_json_text() {
    let resource = Resource {
        _type: "say \"hi\"".into(),
        ..Default::default()
    };
    assert_eq!(
        resource.to_json_string(),
        r#"{"type":"say \"hi\"","attributes":{}}"#
    );
}

#[test]
fn resource_with_all_members_encodes_in_order() {
    let mut attributes = ResourceAttributes::new();
    attributes.insert("title".into(), r#""JSON""#.into());
    let mut links = ResourceAttributes::new();
    links.insert("self".into(), r#""/posts/1""#.into());
    let mut meta = Meta::new();
    meta.insert("count".into(), "2".into());
    let mut rels = Relationships::new();
    rels.insert(
        "author".into(),
        jsonapi::template::build_has_one(&jsonapi::api::ResourceIdentifier {
            _type: "people".into(),
            id: "9".into(),
        }),
    );
    let resource = Resource {
        _type: "posts".into(),
        id: Some("1".into()),
        attributes,
        relationships: Some(rels),
        links: Some(links),
        meta: Some(meta),
    };
    assert_eq!(
        resource.to_json_string(),
        r#"{"type":"posts","id":"1","attributes":{"title":"JSON"},"relationships":{"author":{"data":{"type":"people","id":"9"}}},"links":{"self":"/posts/1"},"meta":{"count":2}}"#
    );
}

fn post_document(attributes_first: bool, tags_first: bool) -> JsonApiDocument {
    let mut attributes = ResourceAttributes::new();
    attributes.insert("title".into(), r#""Rails is Omakase""#.into());
    let rel = |t: &str, id: &str, self_link: &str, related: &str| {
        let mut links = Links::new();
        links.insert("self".into(), format!("{:?}", self_link));
        links.insert("related".into(), format!("{:?}", related));
        Relationship {
            data: Some(IdentifierData::Single(ResourceIdentifier { _type: t.into(), id: id.into() })),
            links: Some(links),
        }
    };
    let author = rel("people", "9", "/posts/1/relationships/author", "/posts/1/author");
    let tags = rel("tags", "99", "/posts/1/relationships/tags", "/posts/1/tags");
    let mut relationships = Relationships::new();
    if tags_first {
        relationships.insert("tags".into(), tags);
        relationships.insert("author".into(), author);
    } else {
        relationships.insert("author".into(), author);
        relationships.insert("tags".into(), tags);
    }
    let mut links = Links::new();
    links.insert("self".into(), r#""http://example.com/posts/1""#.into());
    let mut resource = Resource {
        _type: "posts".into(),
        id: Some("1".into()),
        relationships: Some(relationships),
        links: Some(links),
        ..Default::default()
    };
    if attributes_first {
        resource.attributes = attributes;
    } else {
        for i in 0..attributes.len() {
            let (k, v) = attributes.entry(i);
            resource.attributes.insert(k.clone(), v.clone());
        }
    }
    JsonApiDocument::Data(DocumentData {
        data: Some(PrimaryData::Single(Box::new(resource))),
        ..Default::default()
    })
}

#[test]
fn it_validates_partialeq_when_compariing_documents() {
    let doc1 = post_document(true, false);
    let doc2 = post_document(false, true);
    assert!(doc1 == doc2);
    assert_ne!(doc1.to_json_string(), doc2.to_json_string());
}

#[test]
fn documents_with_different_data_differ() {
    let doc1 = post_document(true, false);
    let doc2 = JsonApiDocument::Data(DocumentData {
        data: Some(PrimaryData::Null),
        ..Default::default()
    });
    assert!(doc1 != doc2);
    let err = JsonApiDocument::Error(DocumentError::default());
    assert!(err != doc2);
    assert!(err == JsonApiDocument::Error(DocumentError::default()));
}
