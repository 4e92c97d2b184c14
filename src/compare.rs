//! Equality of templates, primary data, error objects and documents. Maps
//! compare as maps, so the order of attributes, relationships, links and meta
//! members does not count; sequences compare element by element.
use vstd::prelude::*;
use crate::api::{
    opt_view, same_opt_map, same_opt_relationships, DocumentData, DocumentError, ErrorSource,
    JsonApiDocument, JsonApiError, JsonApiInfo, PrimaryData, RelationshipView, Resource,
    ResourceTemplate, ResourceView,
};

verus! {

/// The view of a `ResourceTemplate`.
pub struct TemplateView {
    pub _type: Seq<char>,
    pub attributes: Map<Seq<char>, Seq<char>>,
    pub relationships: Option<Map<Seq<char>, RelationshipView>>,
    pub links: Option<Map<Seq<char>, Seq<char>>>,
    pub meta: Option<Map<Seq<char>, Seq<char>>>,
}

impl View for ResourceTemplate {
    type V = TemplateView;

    open spec fn view(&self) -> TemplateView {
        TemplateView {
            _type: self._type@,
            attributes: self.attributes@,
            relationships: opt_view(self.relationships),
            links: opt_view(self.links),
            meta: opt_view(self.meta),
        }
    }
}

pub open spec fn resources_view(v: Seq<Resource>) -> Seq<ResourceView> {
    v.map_values(|r: Resource| r@)
}

pub open spec fn templates_view(v: Seq<ResourceTemplate>) -> Seq<TemplateView> {
    v.map_values(|t: ResourceTemplate| t@)
}

/// The view of `PrimaryData`.
pub enum PrimaryDataView {
    Null,
    Single(ResourceView),
    Multiple(Seq<ResourceView>),
    SingleTemplate(TemplateView),
    MultipleTemplates(Seq<TemplateView>),
}

impl View for PrimaryData {
    type V = PrimaryDataView;

    open spec fn view(&self) -> PrimaryDataView {
        match self {
            PrimaryData::Null => PrimaryDataView::Null,
            PrimaryData::Single(r) => PrimaryDataView::Single((**r)@),
            PrimaryData::Multiple(v) => PrimaryDataView::Multiple(resources_view(v@)),
            PrimaryData::SingleTemplate(t) => PrimaryDataView::SingleTemplate((**t)@),
            PrimaryData::MultipleTemplates(v) => PrimaryDataView::MultipleTemplates(templates_view(v@)),
        }
    }
}

/// The view of `JsonApiInfo`.
pub struct InfoView {
    pub version: Option<Seq<char>>,
    pub meta: Option<Map<Seq<char>, Seq<char>>>,
}

impl View for JsonApiInfo {
    type V = InfoView;

    open spec fn view(&self) -> InfoView {
        InfoView { version: opt_view(self.version), meta: opt_view(self.meta) }
    }
}

impl View for ErrorSource {
    /// (pointer, parameter)
    type V = (Option<Seq<char>>, Option<Seq<char>>);

    open spec fn view(&self) -> (Option<Seq<char>>, Option<Seq<char>>) {
        (opt_view(self.pointer), opt_view(self.parameter))
    }
}

/// The view of `JsonApiError`.
pub struct ErrorView {
    pub id: Option<Seq<char>>,
    pub links: Option<Map<Seq<char>, Seq<char>>>,
    pub status: Option<Seq<char>>,
    pub code: Option<Seq<char>>,
    pub title: Option<Seq<char>>,
    pub detail: Option<Seq<char>>,
    pub source: Option<(Option<Seq<char>>, Option<Seq<char>>)>,
    pub meta: Option<Map<Seq<char>, Seq<char>>>,
}

impl View for JsonApiError {
    type V = ErrorView;

    open spec fn view(&self) -> ErrorView {
        ErrorView {
            id: opt_view(self.id),
            links: opt_view(self.links),
            status: opt_view(self.status),
            code: opt_view(self.code),
            title: opt_view(self.title),
            detail: opt_view(self.detail),
            source: opt_view(self.source),
            meta: opt_view(self.meta),
        }
    }
}

pub open spec fn errors_view(v: Seq<JsonApiError>) -> Seq<ErrorView> {
    v.map_values(|e: JsonApiError| e@)
}

/// The view of `DocumentData`.
pub struct DocumentDataView {
    pub data: Option<PrimaryDataView>,
    pub included: Option<Seq<ResourceView>>,
    pub links: Option<Map<Seq<char>, Seq<char>>>,
    pub meta: Option<Map<Seq<char>, Seq<char>>>,
    pub jsonapi: Option<InfoView>,
}

impl View for DocumentData {
    type V = DocumentDataView;

    open spec fn view(&self) -> DocumentDataView {
        DocumentDataView {
            data: opt_view(self.data),
            included: match self.included {
                Some(v) => Some(resources_view(v@)),
                None => None,
            },
            links: opt_view(self.links),
            meta: opt_view(self.meta),
            jsonapi: opt_view(self.jsonapi),
        }
    }
}

/// The view of `DocumentError`.
pub struct DocumentErrorView {
    pub errors: Seq<ErrorView>,
    pub links: Option<Map<Seq<char>, Seq<char>>>,
    pub meta: Option<Map<Seq<char>, Seq<char>>>,
    pub jsonapi: Option<InfoView>,
}

impl View for DocumentError {
    type V = DocumentErrorView;

    open spec fn view(&self) -> DocumentErrorView {
        DocumentErrorView {
            errors: errors_view(self.errors@),
            links: opt_view(self.links),
            meta: opt_view(self.meta),
            jsonapi: opt_view(self.jsonapi),
        }
    }
}

/// The view of `JsonApiDocument`.
pub enum DocumentView {
    Data(DocumentDataView),
    Error(DocumentErrorView),
}

impl View for JsonApiDocument {
    type V = DocumentView;

    open spec fn view(&self) -> DocumentView {
        match self {
            JsonApiDocument::Data(d) => DocumentView::Data(d@),
            JsonApiDocument::Error(e) => DocumentView::Error(e@),
        }
    }
}

fn same_opt_string(a: &Option<String>, b: &Option<String>) -> (r: bool)
    ensures
        r == (opt_view(*a) == opt_view(*b)),
{
    match (a, b) {
        (Some(x), Some(y)) => *x == *y,
        (None, None) => true,
        _ => false,
    }
}

impl ResourceTemplate {
    /// Equality of templates, attributes and relationships as maps.
    pub fn same_as(&self, other: &ResourceTemplate) -> (r: bool)
        ensures
            r == (self@ == other@),
    {
        self._type == other._type && self.attributes.same_as(&other.attributes)
            && same_opt_relationships(&self.relationships, &other.relationships)
            && same_opt_map(&self.links, &other.links) && same_opt_map(&self.meta, &other.meta)
    }
}

fn same_resources(a: &Vec<Resource>, b: &Vec<Resource>) -> (r: bool)
    ensures
        r == (resources_view(a@) == resources_view(b@)),
{
    if a.len() != b.len() {
        assert(resources_view(a@).len() != resources_view(b@).len());
        return false;
    }
    let mut i: usize = 0;
    while i < a.len()
        invariant
            i <= a@.len(),
            a@.len() == b@.len(),
            forall|j: int| 0 <= j < i ==> #[trigger] a@[j]@ == b@[j]@,
        decreases a@.len() - i,
    {
        if !a[i].same_as(&b[i]) {
            assert(resources_view(a@)[i as int] != resources_view(b@)[i as int]);
            return false;
        }
        i = i + 1;
    }
    assert(resources_view(a@) =~= resources_view(b@));
    true
}

fn same_templates(a: &Vec<ResourceTemplate>, b: &Vec<ResourceTemplate>) -> (r: bool)
    ensures
        r == (templates_view(a@) == templates_view(b@)),
{
    if a.len() != b.len() {
        assert(templates_view(a@).len() != templates_view(b@).len());
        return false;
    }
    let mut i: usize = 0;
    while i < a.len()
        invariant
            i <= a@.len(),
            a@.len() == b@.len(),
            forall|j: int| 0 <= j < i ==> #[trigger] a@[j]@ == b@[j]@,
        decreases a@.len() - i,
    {
        if !a[i].same_as(&b[i]) {
            assert(templates_view(a@)[i as int] != templates_view(b@)[i as int]);
            return false;
        }
        i = i + 1;
    }
    assert(templates_view(a@) =~= templates_view(b@));
    true
}

impl PrimaryData {
    pub fn same_as(&self, other: &PrimaryData) -> (r: bool)
        ensures
            r == (self@ == other@),
    {
        match (self, other) {
            (PrimaryData::Null, PrimaryData::Null) => true,
            (PrimaryData::Single(a), PrimaryData::Single(b)) => a.same_as(b),
            (PrimaryData::Multiple(a), PrimaryData::Multiple(b)) => same_resources(a, b),
            (PrimaryData::SingleTemplate(a), PrimaryData::SingleTemplate(b)) => a.same_as(b),
            (PrimaryData::MultipleTemplates(a), PrimaryData::MultipleTemplates(b)) => same_templates(a, b),
            _ => false,
        }
    }
}

impl JsonApiInfo {
    pub fn same_as(&self, other: &JsonApiInfo) -> (r: bool)
        ensures
            r == (self@ == other@),
    {
        same_opt_string(&self.version, &other.version) && same_opt_map(&self.meta, &other.meta)
    }
}

fn same_opt_info(a: &Option<JsonApiInfo>, b: &Option<JsonApiInfo>) -> (r: bool)
    ensures
        r == (opt_view(*a) == opt_view(*b)),
{
    match (a, b) {
        (Some(x), Some(y)) => x.same_as(y),
        (None, None) => true,
        _ => false,
    }
}

impl JsonApiError {
    pub fn same_as(&self, other: &JsonApiError) -> (r: bool)
        ensures
            r == (self@ == other@),
    {
        let same_source = match (&self.source, &other.source) {
            (Some(x), Some(y)) => same_opt_string(&x.pointer, &y.pointer) && same_opt_string(
                &x.parameter,
                &y.parameter,
            ),
            (None, None) => true,
            _ => false,
        };
        same_opt_string(&self.id, &other.id) && same_opt_map(&self.links, &other.links)
            && same_opt_string(&self.status, &other.status) && same_opt_string(&self.code, &other.code)
            && same_opt_string(&self.title, &other.title) && same_opt_string(&self.detail, &other.detail)
            && same_source && same_opt_map(&self.meta, &other.meta)
    }
}

fn same_errors(a: &Vec<JsonApiError>, b: &Vec<JsonApiError>) -> (r: bool)
    ensures
        r == (errors_view(a@) == errors_view(b@)),
{
    if a.len() != b.len() {
        assert(errors_view(a@).len() != errors_view(b@).len());
        return false;
    }
    let mut i: usize = 0;
    while i < a.len()
        invariant
            i <= a@.len(),
            a@.len() == b@.len(),
            forall|j: int| 0 <= j < i ==> #[trigger] a@[j]@ == b@[j]@,
        decreases a@.len() - i,
    {
        if !a[i].same_as(&b[i]) {
            assert(errors_view(a@)[i as int] != errors_view(b@)[i as int]);
            return false;
        }
        i = i + 1;
    }
    assert(errors_view(a@) =~= errors_view(b@));
    true
}

impl DocumentData {
    pub fn same_as(&self, other: &DocumentData) -> (r: bool)
        ensures
            r == (self@ == other@),
    {
        let same_data = match (&self.data, &other.data) {
            (Some(x), Some(y)) => x.same_as(y),
            (None, None) => true,
            _ => false,
        };
        let same_included = match (&self.included, &other.included) {
            (Some(x), Some(y)) => same_resources(x, y),
            (None, None) => true,
            _ => false,
        };
        same_data && same_included && same_opt_map(&self.links, &other.links) && same_opt_map(
            &self.meta,
            &other.meta,
        ) && same_opt_info(&self.jsonapi, &other.jsonapi)
    }
}

impl DocumentError {
    pub fn same_as(&self, other: &DocumentError) -> (r: bool)
        ensures
            r == (self@ == other@),
    {
        same_errors(&self.errors, &other.errors) && same_opt_map(&self.links, &other.links)
            && same_opt_map(&self.meta, &other.meta) && same_opt_info(&self.jsonapi, &other.jsonapi)
    }
}

impl JsonApiDocument {
    /// Equality of documents, with maps compared as maps.
    pub fn same_as(&self, other: &JsonApiDocument) -> (r: bool)
        ensures
            r == (self@ == other@),
    {
        match (self, other) {
            (JsonApiDocument::Data(a), JsonApiDocument::Data(b)) => a.same_as(b),
            (JsonApiDocument::Error(a), JsonApiDocument::Error(b)) => a.same_as(b),
            _ => false,
        }
    }
}

impl PartialEq for JsonApiDocument {
    fn eq(&self, other: &JsonApiDocument) -> (r: bool) {
        self.same_as(other)
    }
}

impl vstd::std_specs::cmp::PartialEqSpecImpl for JsonApiDocument {
    open spec fn obeys_eq_spec() -> bool {
        true
    }

    open spec fn eq_spec(&self, other: &JsonApiDocument) -> bool {
        self@ == other@
    }
}

impl PartialEq for DocumentData {
    fn eq(&self, other: &DocumentData) -> (r: bool) {
        self.same_as(other)
    }
}

impl vstd::std_specs::cmp::PartialEqSpecImpl for DocumentData {
    open spec fn obeys_eq_spec() -> bool {
        true
    }

    open spec fn eq_spec(&self, other: &DocumentData) -> bool {
        self@ == other@
    }
}

} // verus!
