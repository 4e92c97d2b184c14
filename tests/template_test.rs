use jsonapi::api::{
    DocumentData, IdentifierData, JsonApiDocument, PrimaryData, Relationships, Resource,
    ResourceAttributes, ResourceIdentifier, ResourceTemplate,
};
use jsonapi::template::{
    build_has_many, build_has_one, document_template_fields, extract_attributes,
    resource_template_to_attrs, template_to_document, templates_to_document, JsonApiTemplateRelationship,
    TemplateError, TemplateFields,
};

fn chapter(id: &str) -> ResourceIdentifier {
    ResourceIdentifier { id: id.into(), _type: "chapters".into() }
}

fn chapter_template(title: &str, ordering: i32) -> ResourceTemplate {
    let mut attributes = ResourceAttributes::new();
    attributes.insert("title".into(), serde_json::to_string(title).unwrap());
    attributes.insert("ordering".into(), ordering.to_string());
    ResourceTemplate { _type: "chapters".into(), attributes, ..Default::default() }
}

#[test]
fn test_template_vec_to_jsonapi_document() {
    let chapters = vec![
        chapter_template("The Passing of the Grey Company", 2),
        chapter_template("The Muster of Rohan", 3),
    ];

    let doc = templates_to_document(chapters);
    assert!(doc.is_valid());
    assert_eq!(
        doc.to_json_string(),
        r#"{"data":[{"type":"chapters","attributes":{"title":"The Passing of the Grey Company","ordering":2}},{"type":"chapters","attributes":{"title":"The Muster of Rohan","ordering":3}}]}"#
    );
}

#[test]
fn identifier_names_its_type_and_id() {
    let c = chapter("7");
    assert_eq!(c.jsonapi_type(), "chapters");
    assert_eq!(c.jsonapi_id(), "7");
}

#[test]
fn has_one_and_has_many_build_relationships() {
    let one = build_has_one(&chapter("1"));
    assert!(one.links.is_none());
    match one.data {
        Some(IdentifierData::Single(i)) => assert_eq!((i._type.as_str(), i.id.as_str()), ("chapters", "1")),
        _ => panic!("expected a single identifier"),
    }
    let many = build_has_many(&[chapter("1"), chapter("2")]);
    match many.data {
        Some(IdentifierData::Multiple(v)) => {
            assert_eq!(v.len(), 2);
            assert_eq!(v[1].id, "2");
        }
        _ => panic!("expected identifiers"),
    }
}

#[test]
fn extract_attributes_drops_relationship_fields() {
    let mut attrs = ResourceAttributes::new();
    attrs.insert("title".into(), r#""The Fellowship of the Ring""#.into());
    attrs.insert("first_chapter".into(), r#"{"id":"1","type":"chapters"}"#.into());
    attrs.insert("chapters".into(), "[]".into());
    let fields: &[&str] = &["first_chapter", "chapters"];
    let kept = extract_attributes(&attrs, Some(fields));
    assert_eq!(kept.len(), 1);
    assert!(kept.contains_key("title"));
    let all = extract_attributes(&attrs, None);
    assert_eq!(all.len(), 3);
}

#[test]
fn template_fields_include_relationship_data() {
    let mut rels = Relationships::new();
    rels.insert("first_chapter".into(), build_has_one(&chapter("1")));
    rels.insert("chapters".into(), build_has_many(&[chapter("1"), chapter("2")]));
    let mut t = chapter_template("The Fellowship of the Ring", 1);
    t._type = "books".into();
    t.relationships = Some(rels);
    let fields = resource_template_to_attrs(&t);
    assert_eq!(fields.len(), 4);
    assert_eq!(
        fields.get("first_chapter").unwrap(),
        r#"{"type":"chapters","id":"1"}"#
    );
    assert_eq!(
        fields.get("chapters").unwrap(),
        r#"[{"type":"chapters","id":"1"},{"type":"chapters","id":"2"}]"#
    );
    let doc = template_to_document(t);
    assert!(doc.is_valid());
    match doc {
        JsonApiDocument::Data(d) => match document_template_fields(&d) {
            Ok(TemplateFields::Single(m)) => assert_eq!(m.len(), 4),
            _ => panic!("expected one template"),
        },
        JsonApiDocument::Error(_) => panic!("expected data"),
    }
}

#[test]
fn document_without_templates_is_refused() {
    let none = DocumentData::default();
    assert_eq!(document_template_fields(&none).err(), Some(TemplateError::NoData));
    let null = DocumentData { data: Some(PrimaryData::Null), ..Default::default() };
    assert_eq!(document_template_fields(&null).err(), Some(TemplateError::NoData));
    let single = DocumentData {
        data: Some(PrimaryData::Single(Box::new(Resource::default()))),
        ..Default::default()
    };
    assert_eq!(document_template_fields(&single).err(), Some(TemplateError::FullResource));
    let multiple = DocumentData {
        data: Some(PrimaryData::Multiple(vec![])),
        ..Default::default()
    };
    assert_eq!(document_template_fields(&multiple).err(), Some(TemplateError::FullResources));
    assert_eq!(TemplateError::NoData.message(), "Document had no data");
}

#[test]
fn multiple_templates_give_fields_in_order() {
    let d = DocumentData {
        data: Some(PrimaryData::MultipleTemplates(vec![
            chapter_template("a", 1),
            chapter_template("b", 2),
        ])),
        ..Default::default()
    };
    match document_template_fields(&d) {
        Ok(TemplateFields::Multiple(v)) => {
            assert_eq!(v.len(), 2);
            assert_eq!(v[1].get("title").unwrap(), r#""b""#);
        }
        _ => panic!("expected templates"),
    }
}
