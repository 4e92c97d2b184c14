use jsonapi::api::{Relationships, Resource, ResourceAttributes, ResourceIdentifier};
use jsonapi::diff::Patch;
use jsonapi::template::{build_has_many, build_has_one};

fn post(attrs: &[(&str, &str)]) -> Resource {
    let mut attributes = ResourceAttributes::new();
    for (k, v) in attrs {
        attributes.insert(k.to_string(), v.to_string());
    }
    Resource {
        _type: "posts".into(),
        id: Some("1".into()),
        attributes,
        ..Default::default()
    }
}

fn ident(t: &str, id: &str) -> ResourceIdentifier {
    ResourceIdentifier { _type: t.into(), id: id.into() }
}

#[test]
fn diff_of_a_resource_with_itself_is_empty() {
    let a = post(&[("title", r#""x""#), ("likes", "3")]);
    let patchset = a.diff(a.clone()).unwrap();
    assert_eq!(patchset.patches.len(), 0);
}

#[test]
fn diff_is_deterministic() {
    let a = post(&[("a", "1"), ("b", "2"), ("c", "3")]);
    let b = post(&[("c", "4"), ("d", "5"), ("a", "1")]);
    let first = format!("{:?}", a.diff(b.clone()).unwrap());
    let second = format!("{:?}", a.diff(b).unwrap());
    assert_eq!(first, second);
}

#[test]
fn diff_reports_one_changed_attribute() {
    let a = post(&[("title", r#""old""#), ("likes", "3")]);
    let b = post(&[("likes", "3"), ("title", r#""new""#)]);
    let patchset = a.diff(b).unwrap();
    assert_eq!(patchset.patches.len(), 1);
    match &patchset.patches[0] {
        Patch::AttributeChanged { name, previous, next } => {
            assert_eq!(name, "title");
            assert_eq!(previous, r#""old""#);
            assert_eq!(next, r#""new""#);
        }
        other => panic!("unexpected patch {:?}", other),
    }
}

#[test]
fn diff_reports_removed_changed_added() {
    let old = post(&[("a", "1"), ("b", "2")]);
    let new = post(&[("b", "20"), ("c", "3")]);
    let patches = old.diff(new).unwrap().patches;
    assert_eq!(patches.len(), 3);
    assert!(matches!(&patches[0], Patch::AttributeRemoved { name, value } if name == "a" && value == "1"));
    assert!(matches!(&patches[1], Patch::AttributeChanged { name, previous, next } if name == "b" && previous == "2" && next == "20"));
    assert!(matches!(&patches[2], Patch::AttributeAdded { name, value } if name == "c" && value == "3"));
}

#[test]
fn diff_reports_relationship_patches_after_attributes() {
    let mut old = post(&[("a", "1")]);
    let mut new = post(&[("a", "2")]);
    let mut r_old = Relationships::new();
    r_old.insert("author".into(), build_has_one(&ident("people", "9")));
    r_old.insert("tags".into(), build_has_many(&[ident("tags", "1")]));
    r_old.insert("editor".into(), build_has_one(&ident("people", "3")));
    let mut r_new = Relationships::new();
    r_new.insert("author".into(), build_has_one(&ident("people", "10")));
    r_new.insert("tags".into(), build_has_many(&[ident("tags", "1")]));
    r_new.insert("comments".into(), build_has_many(&[]));
    old.relationships = Some(r_old);
    new.relationships = Some(r_new);
    let patches = old.diff(new).unwrap().patches;
    assert_eq!(patches.len(), 4);
    assert!(matches!(&patches[0], Patch::AttributeChanged { name, .. } if name == "a"));
    assert!(matches!(&patches[1], Patch::RelationshipChanged { name, .. } if name == "author"));
    assert!(matches!(&patches[2], Patch::RelationshipRemoved { name, .. } if name == "editor"));
    assert!(matches!(&patches[3], Patch::RelationshipAdded { name, .. } if name == "comments"));
}

#[test]
fn diff_treats_absent_relationships_as_none() {
    let old = post(&[]);
    let mut new = post(&[]);
    let mut rels = Relationships::new();
    rels.insert("author".into(), build_has_one(&ident("people", "9")));
    new.relationships = Some(rels);
    let patches = old.diff(new).unwrap().patches;
    assert_eq!(patches.len(), 1);
    assert!(matches!(&patches[0], Patch::RelationshipAdded { name, .. } if name == "author"));
}
