//! The document model: identifiers, relationships, resources, primary data,
//! documents and errors, with their structural validator.
use vstd::prelude::*;
use crate::map::{JsonMap, NameMap, keys_unique, lemma_entries_map_at};

verus! {

/// Attributes of a resource: attribute name to JSON text.
pub type ResourceAttributes = JsonMap;

/// Links: link name to JSON text (a URL string or a link object).
pub type Links = JsonMap;

/// Free-form metadata: member name to JSON text.
pub type Meta = JsonMap;

/// Relationships of a resource, by name.
pub type Relationships = NameMap<Relationship>;

/// Resources in document order.
pub type Resources = Vec<Resource>;

/// A reference to a resource by its type and id.
#[derive(Clone, Debug)]
pub struct ResourceIdentifier {
    pub _type: String,
    pub id: String,
}

impl View for ResourceIdentifier {
    /// (type, id)
    type V = (Seq<char>, Seq<char>);

    open spec fn view(&self) -> (Seq<char>, Seq<char>) {
        (self._type@, self.id@)
    }
}

impl ResourceIdentifier {
    pub fn duplicate(&self) -> (r: ResourceIdentifier)
        ensures
            r@ == self@,
    {
        ResourceIdentifier { _type: self._type.clone(), id: self.id.clone() }
    }

    pub fn same_as(&self, other: &ResourceIdentifier) -> (r: bool)
        ensures
            r == (self@ == other@),
    {
        self._type == other._type && self.id == other.id
    }
}

/// The views of a sequence of identifiers.
pub open spec fn identifiers_view(v: Seq<ResourceIdentifier>) -> Seq<(Seq<char>, Seq<char>)> {
    v.map_values(|i: ResourceIdentifier| i@)
}

/// Copies a sequence of identifiers.
pub fn copy_identifiers(v: &[ResourceIdentifier]) -> (r: Vec<ResourceIdentifier>)
    ensures
        identifiers_view(r@) == identifiers_view(v@),
{
    let mut r: Vec<ResourceIdentifier> = Vec::new();
    let mut i: usize = 0;
    while i < v.len()
        invariant
            i <= v@.len(),
            r@.len() == i,
            forall|j: int| 0 <= j < i ==> #[trigger] r@[j]@ == v@[j]@,
        decreases v@.len() - i,
    {
        r.push(v[i].duplicate());
        i = i + 1;
    }
    assert(identifiers_view(r@) =~= identifiers_view(v@));
    r
}

/// Compares two sequences of identifiers element by element.
pub fn same_identifiers(a: &[ResourceIdentifier], b: &[ResourceIdentifier]) -> (r: bool)
    ensures
        r == (identifiers_view(a@) == identifiers_view(b@)),
{
    if a.len() != b.len() {
        proof {
            assert(identifiers_view(a@).len() != identifiers_view(b@).len());
        }
        return false;
    }
    let mut i: usize = 0;
    while i < a.len()
        invariant
            i <= a@.len(),
            a@.len() == b@.len(),
            forall|j: int| 0 <= j < i ==> #[trigger] a@[j]@ == b@[j]@,
        decreases a@.len() - i,
    {
        if !a[i].same_as(&b[i]) {
            proof {
                assert(identifiers_view(a@)[i as int] != identifiers_view(b@)[i as int]);
            }
            return false;
        }
        i = i + 1;
    }
    assert(identifiers_view(a@) =~= identifiers_view(b@));
    true
}

/// What a relationship points at: explicitly nothing, one identifier, or a
/// list of identifiers.
#[derive(Clone, Debug)]
pub enum IdentifierData {
    Null,
    Single(ResourceIdentifier),
    Multiple(Vec<ResourceIdentifier>),
}

/// The view of `IdentifierData`.
pub enum IdentifierDataView {
    Null,
    Single((Seq<char>, Seq<char>)),
    Multiple(Seq<(Seq<char>, Seq<char>)>),
}

impl View for IdentifierData {
    type V = IdentifierDataView;

    open spec fn view(&self) -> IdentifierDataView {
        match self {
            IdentifierData::Null => IdentifierDataView::Null,
            IdentifierData::Single(i) => IdentifierDataView::Single(i@),
            IdentifierData::Multiple(v) => IdentifierDataView::Multiple(identifiers_view(v@)),
        }
    }
}

impl IdentifierData {
    pub fn duplicate(&self) -> (r: IdentifierData)
        ensures
            r@ == self@,
    {
        match self {
            IdentifierData::Null => IdentifierData::Null,
            IdentifierData::Single(i) => IdentifierData::Single(i.duplicate()),
            IdentifierData::Multiple(v) => IdentifierData::Multiple(copy_identifiers(v.as_slice())),
        }
    }

    pub fn same_as(&self, other: &IdentifierData) -> (r: bool)
        ensures
            r == (self@ == other@),
    {
        match (self, other) {
            (IdentifierData::Null, IdentifierData::Null) => true,
            (IdentifierData::Single(a), IdentifierData::Single(b)) => a.same_as(b),
            (IdentifierData::Multiple(a), IdentifierData::Multiple(b)) => same_identifiers(
                a.as_slice(),
                b.as_slice(),
            ),
            _ => false,
        }
    }
}

/// The view of an optional value that has one.
pub open spec fn opt_view<T: View>(o: Option<T>) -> Option<T::V> {
    match o {
        Some(x) => Some(x@),
        None => None,
    }
}

/// Compares two optional identifier data.
pub fn same_opt_data(a: &Option<IdentifierData>, b: &Option<IdentifierData>) -> (r: bool)
    ensures
        r == (opt_view(*a) == opt_view(*b)),
{
    match (a, b) {
        (Some(x), Some(y)) => x.same_as(y),
        (None, None) => true,
        _ => false,
    }
}

/// Compares two optional JSON maps as maps: entry order does not matter.
pub fn same_opt_map(a: &Option<JsonMap>, b: &Option<JsonMap>) -> (r: bool)
    ensures
        r == (opt_view(*a) == opt_view(*b)),
{
    match (a, b) {
        (Some(x), Some(y)) => x.same_as(y),
        (None, None) => true,
        _ => false,
    }
}

/// A named link from one resource to others.
#[derive(Clone, Debug)]
pub struct Relationship {
    pub data: Option<IdentifierData>,
    pub links: Option<Links>,
}

/// The view of a `Relationship`.
pub struct RelationshipView {
    pub data: Option<IdentifierDataView>,
    pub links: Option<Map<Seq<char>, Seq<char>>>,
}

impl View for Relationship {
    type V = RelationshipView;

    open spec fn view(&self) -> RelationshipView {
        RelationshipView { data: opt_view(self.data), links: opt_view(self.links) }
    }
}

impl Relationship {
    pub fn duplicate(&self) -> (r: Relationship)
        ensures
            r@ == self@,
    {
        let data = match &self.data {
            Some(d) => Some(d.duplicate()),
            None => None,
        };
        let links = match &self.links {
            Some(l) => Some(l.duplicate()),
            None => None,
        };
        Relationship { data, links }
    }
}

/// Compares two optional relationship maps as maps.
pub fn same_opt_relationships(a: &Option<Relationships>, b: &Option<Relationships>) -> (r: bool)
    ensures
        r == (opt_view(*a) == opt_view(*b)),
{
    match (a, b) {
        (Some(x), Some(y)) => x.same_as(y),
        (None, None) => true,
        _ => false,
    }
}

impl NameMap<Relationship> {
    /// Compares as maps: the same names with equal relationships, in any order.
    pub fn same_as(&self, other: &Relationships) -> (r: bool)
        ensures
            r == (self@ == other@),
    {
        let n = self.len();
        let m = other.len();
        let mut i: usize = 0;
        while i < n
            invariant
                i <= n,
                n == self.entry_seq().len(),
                keys_unique(self.entry_seq()),
                forall|j: int|
                    0 <= j < i ==> other@.contains_key(#[trigger] self.entry_seq()[j].0)
                        && other@[self.entry_seq()[j].0] == self.entry_seq()[j].1,
            decreases n - i,
        {
            let (k, v) = self.entry(i);
            proof { lemma_entries_map_at(self.entry_seq(), i as int); }
            match other.get(k.as_str()) {
                Some(w) => {
                    if !(same_opt_data(&w.data, &v.data) && same_opt_map(&w.links, &v.links)) {
                        return false;
                    }
                },
                None => {
                    return false;
                },
            }
            i = i + 1;
        }
        let mut j: usize = 0;
        while j < m
            invariant
                j <= m,
                m == other.entry_seq().len(),
                keys_unique(other.entry_seq()),
                forall|t: int| 0 <= t < j ==> self@.contains_key(#[trigger] other.entry_seq()[t].0),
            decreases m - j,
        {
            let (k, _) = other.entry(j);
            if !self.contains_key(k.as_str()) {
                proof { lemma_entries_map_at(other.entry_seq(), j as int); }
                return false;
            }
            j = j + 1;
        }
        proof {
            assert forall|k: Seq<char>| self@.contains_key(k) implies other@.contains_key(k)
                && other@[k] == self@[k] by {
                let t = choose|t: int| 0 <= t < self.entry_seq().len() && self.entry_seq()[t].0 == k;
                lemma_entries_map_at(self.entry_seq(), t);
            }
            assert forall|k: Seq<char>| other@.contains_key(k) implies self@.contains_key(k) by {
                let t = choose|t: int| 0 <= t < other.entry_seq().len() && other.entry_seq()[t].0 == k;
            }
            assert(self@ =~= other@);
        }
        true
    }
}

impl NameMap<Relationship> {
    /// A copy with the same entries in the same order.
    pub fn duplicate(&self) -> (r: Relationships)
        ensures
            r.entry_seq() == self.entry_seq(),
            r@ == self@,
    {
        let n = self.len();
        let mut r: Relationships = NameMap::new();
        let mut i: usize = 0;
        while i < n
            invariant
                i <= n,
                n == self.entry_seq().len(),
                keys_unique(self.entry_seq()),
                r.entry_seq() == self.entry_seq().take(i as int),
            decreases n - i,
        {
            let (k, v) = self.entry(i);
            proof {
                if crate::map::has_key(r.entry_seq(), k@) {
                    let t = choose|t: int| 0 <= t < r.entry_seq().len() && r.entry_seq()[t].0 == k@;
                    assert(self.entry_seq()[t].0 == self.entry_seq()[i as int].0);
                }
            }
            r.insert(k.clone(), v.duplicate());
            assert(r.entry_seq() =~= self.entry_seq().take(i + 1));
            i = i + 1;
        }
        assert(r.entry_seq() =~= self.entry_seq());
        r
    }
}

impl Clone for NameMap<Relationship> {
    fn clone(&self) -> Self {
        self.duplicate()
    }
}

/// A typed, optionally identified bundle of attributes and relationships.
#[derive(Clone, Debug)]
pub struct Resource {
    pub _type: String,
    pub id: Option<String>,
    pub attributes: ResourceAttributes,
    pub relationships: Option<Relationships>,
    pub links: Option<Links>,
    pub meta: Option<Meta>,
}

/// The view of a `Resource`: maps in place of entry lists, so that the
/// order of attributes and relationships does not count.
pub struct ResourceView {
    pub _type: Seq<char>,
    pub id: Option<Seq<char>>,
    pub attributes: Map<Seq<char>, Seq<char>>,
    pub relationships: Option<Map<Seq<char>, RelationshipView>>,
    pub links: Option<Map<Seq<char>, Seq<char>>>,
    pub meta: Option<Map<Seq<char>, Seq<char>>>,
}

impl View for Resource {
    type V = ResourceView;

    open spec fn view(&self) -> ResourceView {
        ResourceView {
            _type: self._type@,
            id: opt_view(self.id),
            attributes: self.attributes@,
            relationships: opt_view(self.relationships),
            links: opt_view(self.links),
            meta: opt_view(self.meta),
        }
    }
}

impl Resource {
    /// The JSON text of attribute `name`, if the resource has it.
    pub fn get_attribute(&self, name: &str) -> (r: Option<&String>)
        ensures
            match r {
                Some(v) => self.attributes@.contains_key(name@) && self.attributes@[name@] == v@,
                None => !self.attributes@.contains_key(name@),
            },
    {
        self.attributes.get(name)
    }

    /// Equality of resources: type, id, links and meta equal, attributes and
    /// relationships equal as maps.
    pub fn same_as(&self, other: &Resource) -> (r: bool)
        ensures
            r == (self@ == other@),
    {
        let same_id = match (&self.id, &other.id) {
            (Some(a), Some(b)) => *a == *b,
            (None, None) => true,
            _ => false,
        };
        self._type == other._type && same_id && self.attributes.same_as(&other.attributes)
            && same_opt_relationships(&self.relationships, &other.relationships)
            && same_opt_map(&self.links, &other.links) && same_opt_map(&self.meta, &other.meta)
    }
}

impl Default for Resource {
    fn default() -> (r: Resource)
        ensures
            r._type@ == Seq::<char>::empty(),
            r.id is None,
            r.attributes@ == Map::<Seq<char>, Seq<char>>::empty(),
            r.relationships is None,
            r.links is None,
            r.meta is None,
    {
        Resource {
            _type: String::new(),
            id: None,
            attributes: JsonMap::new(),
            relationships: None,
            links: None,
            meta: None,
        }
    }
}

impl PartialEq for Resource {
    fn eq(&self, other: &Resource) -> (r: bool) {
        self.same_as(other)
    }
}

impl vstd::std_specs::cmp::PartialEqSpecImpl for Resource {
    open spec fn obeys_eq_spec() -> bool {
        true
    }

    open spec fn eq_spec(&self, other: &Resource) -> bool {
        self@ == other@
    }
}

/// A resource as the mapping layer produces it: no id yet.
#[derive(Clone, Debug)]
pub struct ResourceTemplate {
    pub _type: String,
    pub attributes: ResourceAttributes,
    pub relationships: Option<Relationships>,
    pub links: Option<Links>,
    pub meta: Option<Meta>,
}

impl Default for ResourceTemplate {
    fn default() -> (r: ResourceTemplate)
        ensures
            r._type@ == Seq::<char>::empty(),
            r.attributes@ == Map::<Seq<char>, Seq<char>>::empty(),
            r.relationships is None,
            r.links is None,
            r.meta is None,
    {
        ResourceTemplate {
            _type: String::new(),
            attributes: JsonMap::new(),
            relationships: None,
            links: None,
            meta: None,
        }
    }
}

/// Templates in document order.
pub type ResourceTemplates = Vec<ResourceTemplate>;

/// The `data` member of a document.
#[derive(Clone, Debug)]
pub enum PrimaryData {
    /// Explicitly no resource: encoded as `null`.
    Null,
    Single(Box<Resource>),
    Multiple(Resources),
    SingleTemplate(Box<ResourceTemplate>),
    MultipleTemplates(ResourceTemplates),
}

/// Version information about the implementation that produced a document.
#[derive(Clone, Debug)]
pub struct JsonApiInfo {
    pub version: Option<String>,
    pub meta: Option<Meta>,
}

/// Where in the request an error came from.
#[derive(Clone, Debug)]
pub struct ErrorSource {
    pub pointer: Option<String>,
    pub parameter: Option<String>,
}

/// One error object of an error document.
#[derive(Clone, Debug)]
pub struct JsonApiError {
    pub id: Option<String>,
    pub links: Option<Links>,
    pub status: Option<String>,
    pub code: Option<String>,
    pub title: Option<String>,
    pub detail: Option<String>,
    pub source: Option<ErrorSource>,
    pub meta: Option<Meta>,
}

impl Default for JsonApiError {
    fn default() -> (r: JsonApiError)
        ensures
            r.id is None,
            r.links is None,
            r.status is None,
            r.code is None,
            r.title is None,
            r.detail is None,
            r.source is None,
            r.meta is None,
    {
        JsonApiError {
            id: None,
            links: None,
            status: None,
            code: None,
            title: None,
            detail: None,
            source: None,
            meta: None,
        }
    }
}

/// The members of a data document.
#[derive(Clone, Debug)]
pub struct DocumentData {
    pub data: Option<PrimaryData>,
    pub included: Option<Resources>,
    pub links: Option<Links>,
    pub meta: Option<Meta>,
    pub jsonapi: Option<JsonApiInfo>,
}

impl Default for DocumentData {
    fn default() -> (r: DocumentData)
        ensures
            r.data is None,
            r.included is None,
            r.links is None,
            r.meta is None,
            r.jsonapi is None,
    {
        DocumentData { data: None, included: None, links: None, meta: None, jsonapi: None }
    }
}

/// The members of an error document.
#[derive(Clone, Debug)]
pub struct DocumentError {
    pub errors: Vec<JsonApiError>,
    pub links: Option<Links>,
    pub meta: Option<Meta>,
    pub jsonapi: Option<JsonApiInfo>,
}

impl Default for DocumentError {
    fn default() -> (r: DocumentError)
        ensures
            r.errors@.len() == 0,
            r.links is None,
            r.meta is None,
            r.jsonapi is None,
    {
        DocumentError { errors: Vec::new(), links: None, meta: None, jsonapi: None }
    }
}

/// A top-level document: data or errors, never both.
#[derive(Clone, Debug)]
pub enum JsonApiDocument {
    Data(DocumentData),
    Error(DocumentError),
}

/// A structural rule that a data document breaks.
#[derive(Clone, Copy, Debug, PartialEq, Eq, Structural)]
pub enum DocumentValidationError {
    /// `data` is absent (an explicit null is not absent).
    MissingContent,
    /// `included` is present while `data` is absent.
    IncludedWithoutData,
}

/// The rules that `d` breaks, in the order the rules are listed.
pub open spec fn violations(d: DocumentData) -> Seq<DocumentValidationError> {
    (if d.data is None {
        seq![DocumentValidationError::MissingContent]
    } else {
        Seq::empty()
    }) + (if d.included is Some && d.data is None {
        seq![DocumentValidationError::IncludedWithoutData]
    } else {
        Seq::empty()
    })
}

/// What `validate` returns for the rules `v` that a document breaks.
pub open spec fn validation_result(
    v: Seq<DocumentValidationError>,
    r: Option<Vec<DocumentValidationError>>,
) -> bool {
    if v.len() == 0 {
        r is None
    } else {
        r is Some && r->Some_0@ == v
    }
}

impl DocumentData {
    /// All rules that the document breaks, or `None` when it breaks none.
    pub fn validate(&self) -> (r: Option<Vec<DocumentValidationError>>)
        ensures
            validation_result(violations(*self), r),
    {
        let mut errors: Vec<DocumentValidationError> = Vec::new();
        if self.data.is_none() {
            errors.push(DocumentValidationError::MissingContent);
        }
        if self.included.is_some() && self.data.is_none() {
            errors.push(DocumentValidationError::IncludedWithoutData);
        }
        assert(errors@ =~= violations(*self));
        if errors.len() == 0 {
            None
        } else {
            Some(errors)
        }
    }

    /// True when the document breaks no rule.
    pub fn is_valid(&self) -> (r: bool)
        ensures
            r == (violations(*self).len() == 0),
    {
        match self.validate() {
            Some(v) => v.len() == 0,
            None => true,
        }
    }
}

/// The rules that a document breaks: an error document breaks none.
pub open spec fn document_violations(d: JsonApiDocument) -> Seq<DocumentValidationError> {
    match d {
        JsonApiDocument::Data(x) => violations(x),
        JsonApiDocument::Error(_) => Seq::empty(),
    }
}

impl JsonApiDocument {
    /// All rules that the document breaks, or `None` when it breaks none.
    pub fn validate(&self) -> (r: Option<Vec<DocumentValidationError>>)
        ensures
            validation_result(document_violations(*self), r),
    {
        match self {
            JsonApiDocument::Data(d) => d.validate(),
            JsonApiDocument::Error(_) => None,
        }
    }

    /// True when the document breaks no rule.
    pub fn is_valid(&self) -> (r: bool)
        ensures
            r == (document_violations(*self).len() == 0),
    {
        match self.validate() {
            Some(v) => v.len() == 0,
            None => true,
        }
    }
}

/// The validator's cases: data present (null included) and no `included`
/// breaks no rule; `included` without `data` breaks `IncludedWithoutData`;
/// neither breaks `MissingContent`.
pub proof fn lemma_validation_cases(d: DocumentData)
    ensures
        d.data is Some && d.included is None ==> violations(d).len() == 0,
        d.data is None && d.included is Some ==> violations(d).contains(
            DocumentValidationError::IncludedWithoutData,
        ),
        d.data is None && d.included is None ==> violations(d).contains(
            DocumentValidationError::MissingContent,
        ),
{
    if d.data is None {
        assert(violations(d)[0] == DocumentValidationError::MissingContent);
        if d.included is Some {
            assert(violations(d)[1] == DocumentValidationError::IncludedWithoutData);
        }
    }
}

/// Resources that differ only in the order of their attribute entries and of
/// their relationship entries compare equal.
pub proof fn lemma_entry_order_irrelevant(a: Resource, b: Resource)
    requires
        keys_unique(a.attributes.entry_seq()),
        keys_unique(b.attributes.entry_seq()),
        forall|e: (Seq<char>, Seq<char>)|
            a.attributes.entry_seq().contains(e) <==> b.attributes.entry_seq().contains(e),
        a.relationships is Some <==> b.relationships is Some,
        a.relationships is Some ==> {
            &&& keys_unique(a.relationships->Some_0.entry_seq())
            &&& keys_unique(b.relationships->Some_0.entry_seq())
            &&& forall|e: (Seq<char>, RelationshipView)|
                a.relationships->Some_0.entry_seq().contains(e)
                    <==> b.relationships->Some_0.entry_seq().contains(e)
        },
        a._type@ == b._type@,
        opt_view(a.id) == opt_view(b.id),
        opt_view(a.links) == opt_view(b.links),
        opt_view(a.meta) == opt_view(b.meta),
    ensures
        a@ == b@,
{
    crate::map::lemma_reordered_entries_same_map(a.attributes.entry_seq(), b.attributes.entry_seq());
    if a.relationships is Some {
        crate::map::lemma_reordered_entries_same_map(
            a.relationships->Some_0.entry_seq(),
            b.relationships->Some_0.entry_seq(),
        );
    }
}

} // verus!
