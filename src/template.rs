//! The part of the mapping between typed records and resources that does not
//! depend on how a record is serialized: relationship construction, the
//! split of a record's fields into attributes and relationships, and the
//! documents that carry resource templates.
use vstd::prelude::*;
use crate::api::{
    identifiers_view, copy_identifiers, DocumentData, IdentifierData, IdentifierDataView,
    JsonApiDocument, PrimaryData, Relationship, RelationshipView, ResourceIdentifier,
    ResourceTemplate, ResourceTemplates,
};
use crate::encode::{identifier_data_json, identifier_data_to_json};
use crate::map::JsonMap;

verus! {

/// A value that stands for a related resource.
pub trait JsonApiTemplateRelationship {
    fn jsonapi_type(&self) -> String;

    fn jsonapi_id(&self) -> String;
}

impl JsonApiTemplateRelationship for ResourceIdentifier {
    fn jsonapi_type(&self) -> String {
        self._type.clone()
    }

    fn jsonapi_id(&self) -> String {
        self.id.clone()
    }
}

/// A relationship to one resource.
pub fn build_has_one(model: &ResourceIdentifier) -> (r: Relationship)
    ensures
        r@ == (RelationshipView { data: Some(IdentifierDataView::Single(model@)), links: None }),
{
    Relationship { data: Some(IdentifierData::Single(model.duplicate())), links: None }
}

/// A relationship to a list of resources, in the given order.
pub fn build_has_many(models: &[ResourceIdentifier]) -> (r: Relationship)
    ensures
        r@ == (RelationshipView {
            data: Some(IdentifierDataView::Multiple(identifiers_view(models@))),
            links: None,
        }),
{
    Relationship { data: Some(IdentifierData::Multiple(copy_identifiers(models))), links: None }
}

/// True when `name` is one of `fields`.
pub open spec fn is_field(fields: Seq<&str>, name: Seq<char>) -> bool {
    exists|i: int| 0 <= i < fields.len() && fields[i]@ == name
}

/// The entries of `s` whose keys are not relationship fields, in order.
pub open spec fn non_field_entries(
    s: Seq<(Seq<char>, Seq<char>)>,
    fields: Seq<&str>,
) -> Seq<(Seq<char>, Seq<char>)>
    decreases s.len(),
{
    if s.len() == 0 {
        Seq::empty()
    } else {
        let before = non_field_entries(s.drop_last(), fields);
        if is_field(fields, s.last().0) {
            before
        } else {
            before.push(s.last())
        }
    }
}

fn is_listed(fields: &[&str], name: &String) -> (r: bool)
    ensures
        r == is_field(fields@, name@),
{
    let mut i: usize = 0;
    while i < fields.len()
        invariant
            i <= fields@.len(),
            forall|j: int| 0 <= j < i ==> fields@[j]@ != name@,
        decreases fields@.len() - i,
    {
        let f: String = fields[i].to_owned();
        if f == *name {
            return true;
        }
        i = i + 1;
    }
    false
}

/// The attributes of a serialized record: every entry but those whose key
/// names a relationship field.
pub fn extract_attributes(attrs: &JsonMap, relationship_fields: Option<&[&str]>) -> (r: JsonMap)
    ensures
        match relationship_fields {
            Some(f) => r.entry_seq() == non_field_entries(attrs.entry_seq(), f@),
            None => r.entry_seq() == attrs.entry_seq(),
        },
{
    let fields: &[&str] = match relationship_fields {
        Some(f) => f,
        None => &[],
    };
    let n = attrs.len();
    let mut r = JsonMap::new();
    let mut i: usize = 0;
    while i < n
        invariant
            i <= n,
            n == attrs.entry_seq().len(),
            crate::map::keys_unique(attrs.entry_seq()),
            r.entry_seq() == non_field_entries(attrs.entry_seq().take(i as int), fields@),
            forall|t: int| 0 <= t < r.entry_seq().len() ==> exists|u: int| 0 <= u < i && #[trigger] r.entry_seq()[t] == attrs.entry_seq()[u],
        decreases n - i,
    {
        let (k, v) = attrs.entry(i);
        let ghost prefix = attrs.entry_seq().take(i + 1);
        assert(prefix.drop_last() =~= attrs.entry_seq().take(i as int));
        assert(prefix.last() == (k@, v@));
        if !is_listed(fields, k) {
            proof {
                if crate::map::has_key(r.entry_seq(), k@) {
                    let t = choose|t: int| 0 <= t < r.entry_seq().len() && r.entry_seq()[t].0 == k@;
                    let u = choose|u: int| 0 <= u < i && r.entry_seq()[t] == attrs.entry_seq()[u];
                }
            }
            r.insert(k.clone(), v.clone());
        }
        assert(r.entry_seq() =~= non_field_entries(prefix, fields@));
        i = i + 1;
    }
    assert(attrs.entry_seq().take(n as int) =~= attrs.entry_seq());
    proof {
        if relationship_fields is None {
            lemma_no_fields_keeps_all(attrs.entry_seq(), fields@);
        }
    }
    r
}

proof fn lemma_no_fields_keeps_all(s: Seq<(Seq<char>, Seq<char>)>, fields: Seq<&str>)
    requires
        fields.len() == 0,
    ensures
        non_field_entries(s, fields) == s,
    decreases s.len(),
{
    if s.len() > 0 {
        lemma_no_fields_keeps_all(s.drop_last(), fields);
        assert(s.drop_last().push(s.last()) =~= s);
    }
}

/// The JSON text that stands for a relationship among a record's fields:
/// its identifier data, or `null` when it has none.
pub open spec fn relationship_value_json(r: Relationship) -> Seq<char> {
    match r.data {
        Some(d) => identifier_data_json(d),
        None => "null"@,
    }
}

/// `m` with each relationship of `rels`, in order, set to its JSON text.
pub open spec fn with_relationship_values(
    m: Map<Seq<char>, Seq<char>>,
    rels: Seq<(String, Relationship)>,
) -> Map<Seq<char>, Seq<char>>
    decreases rels.len(),
{
    if rels.len() == 0 {
        m
    } else {
        with_relationship_values(m, rels.drop_last()).insert(
            rels.last().0@,
            relationship_value_json(rels.last().1),
        )
    }
}

/// The fields of the record that a template stands for: its attributes, and
/// each relationship as the JSON text of its identifier data.
pub open spec fn template_fields(t: ResourceTemplate) -> Map<Seq<char>, Seq<char>> {
    match t.relationships {
        Some(rs) => with_relationship_values(t.attributes@, rs.raw_entries()),
        None => t.attributes@,
    }
}

/// The fields of the record that `resource_template` stands for.
pub fn resource_template_to_attrs(resource_template: &ResourceTemplate) -> (r: JsonMap)
    ensures
        r@ == template_fields(*resource_template),
{
    let mut r = resource_template.attributes.duplicate();
    match &resource_template.relationships {
        None => {},
        Some(rels) => {
            let n = rels.len();
            proof { rels.lemma_raw_entries(); }
            let mut i: usize = 0;
            while i < n
                invariant
                    i <= n,
                    n == rels.entry_seq().len(),
                    n == rels.raw_entries().len(),
                    r@ == with_relationship_values(
                        resource_template.attributes@,
                        rels.raw_entries().take(i as int),
                    ),
                decreases n - i,
            {
                let (name, relation) = rels.entry(i);
                let ghost prefix = rels.raw_entries().take(i + 1);
                assert(prefix.drop_last() =~= rels.raw_entries().take(i as int));
                let value = match &relation.data {
                    Some(d) => identifier_data_to_json(d),
                    None => "null".to_owned(),
                };
                r.insert(name.clone(), value);
                i = i + 1;
            }
            assert(rels.raw_entries().take(n as int) =~= rels.raw_entries());
        },
    }
    r
}

/// A data document whose primary data is the one template.
pub fn template_to_document(resource_template: ResourceTemplate) -> (r: JsonApiDocument)
    ensures
        r matches JsonApiDocument::Data(d) && d.data == Some(
            PrimaryData::SingleTemplate(Box::new(resource_template)),
        ) && d.included is None && d.links is None && d.meta is None && d.jsonapi is None,
{
    JsonApiDocument::Data(
        DocumentData {
            data: Some(PrimaryData::SingleTemplate(Box::new(resource_template))),
            included: None,
            links: None,
            meta: None,
            jsonapi: None,
        },
    )
}

/// A data document whose primary data is the list of templates.
pub fn templates_to_document(resource_templates: ResourceTemplates) -> (r: JsonApiDocument)
    ensures
        r matches JsonApiDocument::Data(d) && d.data == Some(
            PrimaryData::MultipleTemplates(resource_templates),
        ) && d.included is None && d.links is None && d.meta is None && d.jsonapi is None,
{
    JsonApiDocument::Data(
        DocumentData {
            data: Some(PrimaryData::MultipleTemplates(resource_templates)),
            included: None,
            links: None,
            meta: None,
            jsonapi: None,
        },
    )
}

/// The record fields that a document's templates carry.
#[derive(Debug)]
pub enum TemplateFields {
    Single(JsonMap),
    Multiple(Vec<JsonMap>),
}

/// Why a document holds no template to build a record from.
#[derive(Clone, Copy, Debug, PartialEq, Eq, Structural)]
pub enum TemplateError {
    /// The document has no primary data, or it is null.
    NoData,
    /// The primary data is a resource, not a template.
    FullResource,
    /// The primary data is a list of resources, not of templates.
    FullResources,
}

impl TemplateError {
    /// A sentence that says what went wrong.
    pub fn message(&self) -> (r: &'static str)
        ensures
            *self == TemplateError::NoData ==> r@ == "Document had no data"@,
            *self == TemplateError::FullResource ==> r@
                == "Document had no template but a fully qualified resource"@,
            *self == TemplateError::FullResources ==> r@
                == "Document had no templates but fully qualified resources"@,
    {
        match self {
            TemplateError::NoData => "Document had no data",
            TemplateError::FullResource => "Document had no template but a fully qualified resource",
            TemplateError::FullResources => "Document had no templates but fully qualified resources",
        }
    }
}

/// The record fields carried by the primary data of `doc`: those of its one
/// template, or of each of its templates in order.
pub fn document_template_fields(doc: &DocumentData) -> (r: Result<TemplateFields, TemplateError>)
    ensures
        match doc.data {
            None => r == Err::<TemplateFields, TemplateError>(TemplateError::NoData),
            Some(PrimaryData::Null) => r == Err::<TemplateFields, TemplateError>(TemplateError::NoData),
            Some(PrimaryData::Single(_)) => r == Err::<TemplateFields, TemplateError>(TemplateError::FullResource),
            Some(PrimaryData::Multiple(_)) => r == Err::<TemplateFields, TemplateError>(TemplateError::FullResources),
            Some(PrimaryData::SingleTemplate(t)) => r matches Ok(TemplateFields::Single(m)) && m@ == template_fields(*t),
            Some(PrimaryData::MultipleTemplates(v)) => r matches Ok(TemplateFields::Multiple(ms))
                && ms@.len() == v@.len()
                && forall|i: int| 0 <= i < v@.len() ==> #[trigger] ms@[i]@ == template_fields(v@[i]),
        },
{
    match &doc.data {
        None => Err(TemplateError::NoData),
        Some(PrimaryData::Null) => Err(TemplateError::NoData),
        Some(PrimaryData::Single(_)) => Err(TemplateError::FullResource),
        Some(PrimaryData::Multiple(_)) => Err(TemplateError::FullResources),
        Some(PrimaryData::SingleTemplate(t)) => Ok(TemplateFields::Single(resource_template_to_attrs(t))),
        Some(PrimaryData::MultipleTemplates(v)) => {
            let mut all: Vec<JsonMap> = Vec::new();
            let mut i: usize = 0;
            while i < v.len()
                invariant
                    i <= v@.len(),
                    all@.len() == i,
                    forall|j: int| 0 <= j < i ==> #[trigger] all@[j]@ == template_fields(v@[j]),
                decreases v@.len() - i,
            {
                all.push(resource_template_to_attrs(&v[i]));
                i = i + 1;
            }
            Ok(TemplateFields::Multiple(all))
        },
    }
}

} // verus!
