//! JSON text of documents and their parts.
//!
//! Members come in declaration order. An optional member without a value is
//! left out; the one `null` written is for primary data that is explicitly
//! `PrimaryData::Null` (and identifier data that is `IdentifierData::Null`).
//! The texts of attribute, link and meta values are written as they are held.
use vstd::prelude::*;
use vstd::string::StringExecFns;
use crate::api::{
    DocumentData, DocumentError, ErrorSource, IdentifierData, JsonApiDocument, JsonApiError,
    JsonApiInfo, PrimaryData, Relationship, Relationships, Resource, ResourceIdentifier,
    ResourceTemplate,
};
use crate::map::JsonMap;

verus! {

/// The JSON string literal for `s`: quotes around it, special characters escaped.
pub uninterp spec fn json_quoted(s: Seq<char>) -> Seq<char>;

/// Relies on serde_json's serializer for `Value::String`, through its
/// `Display`: it writes the JSON string literal of `s`.
#[verifier::external_body]
fn quote(s: &str) -> (r: String)
    ensures
        r@ == json_quoted(s@),
{
    serde_json::Value::String(s.to_owned()).to_string()
}

/// The texts `parts` separated by commas.
pub open spec fn join(parts: Seq<Seq<char>>) -> Seq<char>
    decreases parts.len(),
{
    if parts.len() == 0 {
        Seq::empty()
    } else if parts.len() == 1 {
        parts[0]
    } else {
        join(parts.drop_last()) + ","@ + parts.last()
    }
}

/// A JSON object whose members have the texts `parts`.
pub open spec fn braces(parts: Seq<Seq<char>>) -> Seq<char> {
    "{"@ + join(parts) + "}"@
}

/// A JSON array whose elements have the texts `parts`.
pub open spec fn brackets(parts: Seq<Seq<char>>) -> Seq<char> {
    "["@ + join(parts) + "]"@
}

/// The member `name` with the value text `value`.
pub open spec fn member(name: Seq<char>, value: Seq<char>) -> Seq<char> {
    json_quoted(name) + ":"@ + value
}

/// The member `name` when there is a value text; nothing otherwise.
pub open spec fn opt_member(name: Seq<char>, value: Option<Seq<char>>) -> Seq<Seq<char>> {
    match value {
        Some(v) => seq![member(name, v)],
        None => Seq::empty(),
    }
}

pub open spec fn strings_view(v: Seq<String>) -> Seq<Seq<char>> {
    v.map_values(|s: String| s@)
}

pub open spec fn opt_quoted(o: Option<String>) -> Option<Seq<char>> {
    match o {
        Some(s) => Some(json_quoted(s@)),
        None => None,
    }
}

/// The JSON object of a name-to-JSON-text map, in entry order.
pub open spec fn map_json(m: JsonMap) -> Seq<char> {
    braces(m.entry_seq().map_values(|e: (Seq<char>, Seq<char>)| member(e.0, e.1)))
}

pub open spec fn opt_map_json(o: Option<JsonMap>) -> Option<Seq<char>> {
    match o {
        Some(m) => Some(map_json(m)),
        None => None,
    }
}

pub open spec fn identifier_json(i: ResourceIdentifier) -> Seq<char> {
    braces(seq![member("type"@, json_quoted(i._type@)), member("id"@, json_quoted(i.id@))])
}

pub open spec fn identifier_data_json(d: IdentifierData) -> Seq<char> {
    match d {
        IdentifierData::Null => "null"@,
        IdentifierData::Single(i) => identifier_json(i),
        IdentifierData::Multiple(v) => brackets(v@.map_values(|i: ResourceIdentifier| identifier_json(i))),
    }
}

pub open spec fn relationship_json(r: Relationship) -> Seq<char> {
    braces(
        opt_member(
            "data"@,
            match r.data {
                Some(d) => Some(identifier_data_json(d)),
                None => None,
            },
        ) + opt_member("links"@, opt_map_json(r.links)),
    )
}

pub open spec fn relationships_json(m: Relationships) -> Seq<char> {
    braces(m.raw_entries().map_values(|e: (String, Relationship)| member(e.0@, relationship_json(e.1))))
}

pub open spec fn resource_json(r: Resource) -> Seq<char> {
    braces(
        seq![member("type"@, json_quoted(r._type@))] + opt_member("id"@, opt_quoted(r.id)) + seq![
            member("attributes"@, map_json(r.attributes)),
        ] + opt_member(
            "relationships"@,
            match r.relationships {
                Some(m) => Some(relationships_json(m)),
                None => None,
            },
        ) + opt_member("links"@, opt_map_json(r.links)) + opt_member("meta"@, opt_map_json(r.meta)),
    )
}

pub open spec fn template_json(r: ResourceTemplate) -> Seq<char> {
    braces(
        seq![member("type"@, json_quoted(r._type@)), member("attributes"@, map_json(r.attributes))]
            + opt_member(
            "relationships"@,
            match r.relationships {
                Some(m) => Some(relationships_json(m)),
                None => None,
            },
        ) + opt_member("links"@, opt_map_json(r.links)) + opt_member("meta"@, opt_map_json(r.meta)),
    )
}

pub open spec fn resources_json(v: Seq<Resource>) -> Seq<char> {
    brackets(v.map_values(|r: Resource| resource_json(r)))
}

pub open spec fn primary_data_json(p: PrimaryData) -> Seq<char> {
    match p {
        PrimaryData::Null => "null"@,
        PrimaryData::Single(r) => resource_json(*r),
        PrimaryData::Multiple(v) => resources_json(v@),
        PrimaryData::SingleTemplate(t) => template_json(*t),
        PrimaryData::MultipleTemplates(v) => brackets(v@.map_values(|t: ResourceTemplate| template_json(t))),
    }
}

pub open spec fn info_json(i: JsonApiInfo) -> Seq<char> {
    braces(opt_member("version"@, opt_quoted(i.version)) + opt_member("meta"@, opt_map_json(i.meta)))
}

pub open spec fn opt_info_json(o: Option<JsonApiInfo>) -> Option<Seq<char>> {
    match o {
        Some(i) => Some(info_json(i)),
        None => None,
    }
}

pub open spec fn source_json(s: ErrorSource) -> Seq<char> {
    braces(opt_member("pointer"@, opt_quoted(s.pointer)) + opt_member("parameter"@, opt_quoted(s.parameter)))
}

pub open spec fn error_json(e: JsonApiError) -> Seq<char> {
    braces(
        opt_member("id"@, opt_quoted(e.id)) + opt_member("links"@, opt_map_json(e.links))
            + opt_member("status"@, opt_quoted(e.status)) + opt_member("code"@, opt_quoted(e.code))
            + opt_member("title"@, opt_quoted(e.title)) + opt_member("detail"@, opt_quoted(e.detail))
            + opt_member(
            "source"@,
            match e.source {
                Some(s) => Some(source_json(s)),
                None => None,
            },
        ) + opt_member("meta"@, opt_map_json(e.meta)),
    )
}

pub open spec fn document_data_json(d: DocumentData) -> Seq<char> {
    braces(
        opt_member(
            "data"@,
            match d.data {
                Some(p) => Some(primary_data_json(p)),
                None => None,
            },
        ) + opt_member(
            "included"@,
            match d.included {
                Some(v) => Some(resources_json(v@)),
                None => None,
            },
        ) + opt_member("links"@, opt_map_json(d.links)) + opt_member("meta"@, opt_map_json(d.meta))
            + opt_member("jsonapi"@, opt_info_json(d.jsonapi)),
    )
}

pub open spec fn document_error_json(d: DocumentError) -> Seq<char> {
    braces(
        seq![member("errors"@, brackets(d.errors@.map_values(|e: JsonApiError| error_json(e))))]
            + opt_member("links"@, opt_map_json(d.links)) + opt_member("meta"@, opt_map_json(d.meta))
            + opt_member("jsonapi"@, opt_info_json(d.jsonapi)),
    )
}

pub open spec fn document_json(d: JsonApiDocument) -> Seq<char> {
    match d {
        JsonApiDocument::Data(x) => document_data_json(x),
        JsonApiDocument::Error(x) => document_error_json(x),
    }
}

/// Joins texts with commas between `open` and `close`.
fn enclose(open: &str, parts: &Vec<String>, close: &str) -> (r: String)
    ensures
        r@ == open@ + join(strings_view(parts@)) + close@,
{
    let ghost pv = strings_view(parts@);
    let mut out = String::new();
    out.append(open);
    let mut i: usize = 0;
    while i < parts.len()
        invariant
            i <= parts@.len(),
            pv == strings_view(parts@),
            out@ == open@ + join(pv.take(i as int)),
        decreases parts@.len() - i,
    {
        assert(pv.take(i + 1).drop_last() =~= pv.take(i as int));
        if i > 0 {
            out.append(",");
        }
        out.append(parts[i].as_str());
        proof {
            if i == 0 {
                assert(join(pv.take(0)) =~= Seq::<char>::empty());
            }
        }
        assert(out@ =~= open@ + join(pv.take(i + 1)));
        i = i + 1;
    }
    assert(pv.take(parts@.len() as int) =~= pv);
    out.append(close);
    out
}

fn object(parts: &Vec<String>) -> (r: String)
    ensures
        r@ == braces(strings_view(parts@)),
{
    enclose("{", parts, "}")
}

fn array(parts: &Vec<String>) -> (r: String)
    ensures
        r@ == brackets(strings_view(parts@)),
{
    enclose("[", parts, "]")
}

fn push_member(parts: &mut Vec<String>, name: &str, value: String)
    ensures
        strings_view(final(parts)@) == strings_view(old(parts)@).push(member(name@, value@)),
{
    let mut m = quote(name);
    m.append(":");
    m.append(value.as_str());
    parts.push(m);
    assert(strings_view(parts@) =~= strings_view(old(parts)@).push(member(name@, value@)));
}

fn push_text(parts: &mut Vec<String>, text: String)
    ensures
        strings_view(final(parts)@) == strings_view(old(parts)@).push(text@),
{
    parts.push(text);
    assert(strings_view(parts@) =~= strings_view(old(parts)@).push(text@));
}

fn push_opt_member(parts: &mut Vec<String>, name: &str, value: Option<String>)
    ensures
        strings_view(final(parts)@) == strings_view(old(parts)@) + opt_member(
            name@,
            match value {
                Some(v) => Some(v@),
                None => None,
            },
        ),
{
    match value {
        Some(v) => {
            push_member(parts, name, v);
            assert(strings_view(parts@) =~= strings_view(old(parts)@) + opt_member(name@, Some(v@)));
        },
        None => {
            assert(strings_view(parts@) =~= strings_view(old(parts)@) + Seq::<Seq<char>>::empty());
        },
    }
}

fn quoted_opt(o: &Option<String>) -> (r: Option<String>)
    ensures
        match r {
            Some(v) => opt_quoted(*o) == Some(v@),
            None => opt_quoted(*o) is None,
        },
{
    match o {
        Some(s) => Some(quote(s.as_str())),
        None => None,
    }
}

/// The JSON object of a name-to-JSON-text map.
pub fn map_to_json(m: &JsonMap) -> (r: String)
    ensures
        r@ == map_json(*m),
{
    let ghost want = m.entry_seq().map_values(|e: (Seq<char>, Seq<char>)| member(e.0, e.1));
    let n = m.len();
    let mut parts: Vec<String> = Vec::new();
    let mut i: usize = 0;
    while i < n
        invariant
            i <= n,
            n == m.entry_seq().len(),
            want == m.entry_seq().map_values(|e: (Seq<char>, Seq<char>)| member(e.0, e.1)),
            strings_view(parts@) == want.take(i as int),
        decreases n - i,
    {
        let (k, v) = m.entry(i);
        push_member(&mut parts, k.as_str(), v.clone());
        assert(strings_view(parts@) =~= want.take(i + 1));
        i = i + 1;
    }
    assert(want.take(n as int) =~= want);
    object(&parts)
}

fn opt_map_to_json(o: &Option<JsonMap>) -> (r: Option<String>)
    ensures
        match r {
            Some(v) => opt_map_json(*o) == Some(v@),
            None => opt_map_json(*o) is None,
        },
{
    match o {
        Some(m) => Some(map_to_json(m)),
        None => None,
    }
}

fn identifier_to_json(i: &ResourceIdentifier) -> (r: String)
    ensures
        r@ == identifier_json(*i),
{
    let mut parts: Vec<String> = Vec::new();
    push_member(&mut parts, "type", quote(i._type.as_str()));
    push_member(&mut parts, "id", quote(i.id.as_str()));
    assert(strings_view(parts@) =~= seq![member("type"@, json_quoted(i._type@)), member("id"@, json_quoted(i.id@))]);
    object(&parts)
}

pub(crate) fn identifier_data_to_json(d: &IdentifierData) -> (r: String)
    ensures
        r@ == identifier_data_json(*d),
{
    match d {
        IdentifierData::Null => "null".to_owned(),
        IdentifierData::Single(i) => identifier_to_json(i),
        IdentifierData::Multiple(v) => {
            let ghost want = v@.map_values(|i: ResourceIdentifier| identifier_json(i));
            let mut parts: Vec<String> = Vec::new();
            let mut i: usize = 0;
            while i < v.len()
                invariant
                    i <= v@.len(),
                    want == v@.map_values(|i: ResourceIdentifier| identifier_json(i)),
                    strings_view(parts@) == want.take(i as int),
                decreases v@.len() - i,
            {
                push_text(&mut parts, identifier_to_json(&v[i]));
                assert(strings_view(parts@) =~= want.take(i + 1));
                i = i + 1;
            }
            assert(want.take(v@.len() as int) =~= want);
            array(&parts)
        },
    }
}

fn relationship_to_json(r: &Relationship) -> (t: String)
    ensures
        t@ == relationship_json(*r),
{
    let mut parts: Vec<String> = Vec::new();
    let data = match &r.data {
        Some(d) => Some(identifier_data_to_json(d)),
        None => None,
    };
    push_opt_member(&mut parts, "data", data);
    push_opt_member(&mut parts, "links", opt_map_to_json(&r.links));
    assert(strings_view(parts@) =~= opt_member(
        "data"@,
        match r.data {
            Some(d) => Some(identifier_data_json(d)),
            None => None,
        },
    ) + opt_member("links"@, opt_map_json(r.links)));
    object(&parts)
}

fn relationships_to_json(m: &Relationships) -> (r: String)
    ensures
        r@ == relationships_json(*m),
{
    let ghost want = m.raw_entries().map_values(
        |e: (String, Relationship)| member(e.0@, relationship_json(e.1)),
    );
    proof { m.lemma_raw_entries(); }
    let n = m.len();
    let mut parts: Vec<String> = Vec::new();
    let mut i: usize = 0;
    while i < n
        invariant
            i <= n,
            n == m.raw_entries().len(),
            n == m.entry_seq().len(),
            want == m.raw_entries().map_values(
                |e: (String, Relationship)| member(e.0@, relationship_json(e.1)),
            ),
            strings_view(parts@) == want.take(i as int),
        decreases n - i,
    {
        let (k, v) = m.entry(i);
        push_member(&mut parts, k.as_str(), relationship_to_json(v));
        assert(strings_view(parts@) =~= want.take(i + 1));
        i = i + 1;
    }
    assert(want.take(n as int) =~= want);
    object(&parts)
}

fn opt_relationships_to_json(o: &Option<Relationships>) -> (r: Option<String>)
    ensures
        match r {
            Some(v) => Some(v@) == match *o {
                Some(m) => Some(relationships_json(m)),
                None => None,
            },
            None => o is None,
        },
{
    match o {
        Some(m) => Some(relationships_to_json(m)),
        None => None,
    }
}

fn resource_to_json(r: &Resource) -> (t: String)
    ensures
        t@ == resource_json(*r),
{
    let mut parts: Vec<String> = Vec::new();
    push_member(&mut parts, "type", quote(r._type.as_str()));
    push_opt_member(&mut parts, "id", quoted_opt(&r.id));
    push_member(&mut parts, "attributes", map_to_json(&r.attributes));
    push_opt_member(&mut parts, "relationships", opt_relationships_to_json(&r.relationships));
    push_opt_member(&mut parts, "links", opt_map_to_json(&r.links));
    push_opt_member(&mut parts, "meta", opt_map_to_json(&r.meta));
    assert(strings_view(parts@) =~= seq![member("type"@, json_quoted(r._type@))] + opt_member("id"@, opt_quoted(r.id)) + seq![
        member("attributes"@, map_json(r.attributes)),
    ] + opt_member(
        "relationships"@,
        match r.relationships {
            Some(m) => Some(relationships_json(m)),
            None => None,
        },
    ) + opt_member("links"@, opt_map_json(r.links)) + opt_member("meta"@, opt_map_json(r.meta)));
    object(&parts)
}

fn template_to_json(r: &ResourceTemplate) -> (t: String)
    ensures
        t@ == template_json(*r),
{
    let mut parts: Vec<String> = Vec::new();
    push_member(&mut parts, "type", quote(r._type.as_str()));
    push_member(&mut parts, "attributes", map_to_json(&r.attributes));
    push_opt_member(&mut parts, "relationships", opt_relationships_to_json(&r.relationships));
    push_opt_member(&mut parts, "links", opt_map_to_json(&r.links));
    push_opt_member(&mut parts, "meta", opt_map_to_json(&r.meta));
    assert(strings_view(parts@) =~= seq![member("type"@, json_quoted(r._type@)), member("attributes"@, map_json(r.attributes))]
        + opt_member(
        "relationships"@,
        match r.relationships {
            Some(m) => Some(relationships_json(m)),
            None => None,
        },
    ) + opt_member("links"@, opt_map_json(r.links)) + opt_member("meta"@, opt_map_json(r.meta)));
    object(&parts)
}

fn resources_to_json(v: &Vec<Resource>) -> (r: String)
    ensures
        r@ == resources_json(v@),
{
    let ghost want = v@.map_values(|r: Resource| resource_json(r));
    let mut parts: Vec<String> = Vec::new();
    let mut i: usize = 0;
    while i < v.len()
        invariant
            i <= v@.len(),
            want == v@.map_values(|r: Resource| resource_json(r)),
            strings_view(parts@) == want.take(i as int),
        decreases v@.len() - i,
    {
        push_text(&mut parts, resource_to_json(&v[i]));
        assert(strings_view(parts@) =~= want.take(i + 1));
        i = i + 1;
    }
    assert(want.take(v@.len() as int) =~= want);
    array(&parts)
}

fn templates_to_json(v: &Vec<ResourceTemplate>) -> (r: String)
    ensures
        r@ == brackets(v@.map_values(|t: ResourceTemplate| template_json(t))),
{
    let ghost want = v@.map_values(|t: ResourceTemplate| template_json(t));
    let mut parts: Vec<String> = Vec::new();
    let mut i: usize = 0;
    while i < v.len()
        invariant
            i <= v@.len(),
            want == v@.map_values(|t: ResourceTemplate| template_json(t)),
            strings_view(parts@) == want.take(i as int),
        decreases v@.len() - i,
    {
        push_text(&mut parts, template_to_json(&v[i]));
        assert(strings_view(parts@) =~= want.take(i + 1));
        i = i + 1;
    }
    assert(want.take(v@.len() as int) =~= want);
    array(&parts)
}

fn primary_data_to_json(p: &PrimaryData) -> (r: String)
    ensures
        r@ == primary_data_json(*p),
{
    match p {
        PrimaryData::Null => "null".to_owned(),
        PrimaryData::Single(r) => resource_to_json(r),
        PrimaryData::Multiple(v) => resources_to_json(v),
        PrimaryData::SingleTemplate(t) => template_to_json(t),
        PrimaryData::MultipleTemplates(v) => templates_to_json(v),
    }
}

fn info_to_json(i: &JsonApiInfo) -> (r: String)
    ensures
        r@ == info_json(*i),
{
    let mut parts: Vec<String> = Vec::new();
    push_opt_member(&mut parts, "version", quoted_opt(&i.version));
    push_opt_member(&mut parts, "meta", opt_map_to_json(&i.meta));
    assert(strings_view(parts@) =~= opt_member("version"@, opt_quoted(i.version)) + opt_member("meta"@, opt_map_json(i.meta)));
    object(&parts)
}

fn opt_info_to_json(o: &Option<JsonApiInfo>) -> (r: Option<String>)
    ensures
        match r {
            Some(v) => opt_info_json(*o) == Some(v@),
            None => opt_info_json(*o) is None,
        },
{
    match o {
        Some(i) => Some(info_to_json(i)),
        None => None,
    }
}

fn source_to_json(s: &ErrorSource) -> (r: String)
    ensures
        r@ == source_json(*s),
{
    let mut parts: Vec<String> = Vec::new();
    push_opt_member(&mut parts, "pointer", quoted_opt(&s.pointer));
    push_opt_member(&mut parts, "parameter", quoted_opt(&s.parameter));
    assert(strings_view(parts@) =~= opt_member("pointer"@, opt_quoted(s.pointer)) + opt_member("parameter"@, opt_quoted(s.parameter)));
    object(&parts)
}

fn error_to_json(e: &JsonApiError) -> (r: String)
    ensures
        r@ == error_json(*e),
{
    let mut parts: Vec<String> = Vec::new();
    push_opt_member(&mut parts, "id", quoted_opt(&e.id));
    push_opt_member(&mut parts, "links", opt_map_to_json(&e.links));
    push_opt_member(&mut parts, "status", quoted_opt(&e.status));
    push_opt_member(&mut parts, "code", quoted_opt(&e.code));
    push_opt_member(&mut parts, "title", quoted_opt(&e.title));
    push_opt_member(&mut parts, "detail", quoted_opt(&e.detail));
    let source = match &e.source {
        Some(s) => Some(source_to_json(s)),
        None => None,
    };
    push_opt_member(&mut parts, "source", source);
    push_opt_member(&mut parts, "meta", opt_map_to_json(&e.meta));
    assert(strings_view(parts@) =~= opt_member("id"@, opt_quoted(e.id)) + opt_member("links"@, opt_map_json(e.links))
        + opt_member("status"@, opt_quoted(e.status)) + opt_member("code"@, opt_quoted(e.code))
        + opt_member("title"@, opt_quoted(e.title)) + opt_member("detail"@, opt_quoted(e.detail))
        + opt_member(
        "source"@,
        match e.source {
            Some(s) => Some(source_json(s)),
            None => None,
        },
    ) + opt_member("meta"@, opt_map_json(e.meta)));
    object(&parts)
}

fn document_data_to_json(d: &DocumentData) -> (r: String)
    ensures
        r@ == document_data_json(*d),
{
    let mut parts: Vec<String> = Vec::new();
    let data = match &d.data {
        Some(p) => Some(primary_data_to_json(p)),
        None => None,
    };
    push_opt_member(&mut parts, "data", data);
    let included = match &d.included {
        Some(v) => Some(resources_to_json(v)),
        None => None,
    };
    push_opt_member(&mut parts, "included", included);
    push_opt_member(&mut parts, "links", opt_map_to_json(&d.links));
    push_opt_member(&mut parts, "meta", opt_map_to_json(&d.meta));
    push_opt_member(&mut parts, "jsonapi", opt_info_to_json(&d.jsonapi));
    assert(strings_view(parts@) =~= opt_member(
        "data"@,
        match d.data {
            Some(p) => Some(primary_data_json(p)),
            None => None,
        },
    ) + opt_member(
        "included"@,
        match d.included {
            Some(v) => Some(resources_json(v@)),
            None => None,
        },
    ) + opt_member("links"@, opt_map_json(d.links)) + opt_member("meta"@, opt_map_json(d.meta))
        + opt_member("jsonapi"@, opt_info_json(d.jsonapi)));
    object(&parts)
}

fn document_error_to_json(d: &DocumentError) -> (r: String)
    ensures
        r@ == document_error_json(*d),
{
    let ghost want = d.errors@.map_values(|e: JsonApiError| error_json(e));
    let mut items: Vec<String> = Vec::new();
    let mut i: usize = 0;
    while i < d.errors.len()
        invariant
            i <= d.errors@.len(),
            want == d.errors@.map_values(|e: JsonApiError| error_json(e)),
            strings_view(items@) == want.take(i as int),
        decreases d.errors@.len() - i,
    {
        push_text(&mut items, error_to_json(&d.errors[i]));
        assert(strings_view(items@) =~= want.take(i + 1));
        i = i + 1;
    }
    assert(want.take(d.errors@.len() as int) =~= want);
    let mut parts: Vec<String> = Vec::new();
    push_member(&mut parts, "errors", array(&items));
    push_opt_member(&mut parts, "links", opt_map_to_json(&d.links));
    push_opt_member(&mut parts, "meta", opt_map_to_json(&d.meta));
    push_opt_member(&mut parts, "jsonapi", opt_info_to_json(&d.jsonapi));
    assert(strings_view(parts@) =~= seq![member("errors"@, brackets(want))]
        + opt_member("links"@, opt_map_json(d.links)) + opt_member("meta"@, opt_map_json(d.meta))
        + opt_member("jsonapi"@, opt_info_json(d.jsonapi)));
    object(&parts)
}

impl Resource {
    /// The JSON text of the resource.
    pub fn to_json_string(&self) -> (r: String)
        ensures
            r@ == resource_json(*self),
    {
        resource_to_json(self)
    }
}

impl JsonApiError {
    /// The JSON text of the error object.
    pub fn to_json_string(&self) -> (r: String)
        ensures
            r@ == error_json(*self),
    {
        error_to_json(self)
    }
}

impl DocumentData {
    /// The JSON text of the data document.
    pub fn to_json_string(&self) -> (r: String)
        ensures
            r@ == document_data_json(*self),
    {
        document_data_to_json(self)
    }
}

impl DocumentError {
    /// The JSON text of the error document.
    pub fn to_json_string(&self) -> (r: String)
        ensures
            r@ == document_error_json(*self),
    {
        document_error_to_json(self)
    }
}

impl JsonApiDocument {
    /// The JSON text of the document.
    pub fn to_json_string(&self) -> (r: String)
        ensures
            r@ == document_json(*self),
    {
        match self {
            JsonApiDocument::Data(d) => document_data_to_json(d),
            JsonApiDocument::Error(e) => document_error_to_json(e),
        }
    }
}

/// Absent optional members are left out of the text. A data document with
/// no member at all is `{}`; one whose only member is explicitly null primary
/// data is `{"data":null}`; a resource, a relationship, an error object and
/// an error document keep only the members they have.
pub proof fn lemma_absent_members_omitted(
    d: DocumentData,
    r: Resource,
    rel: Relationship,
    e: JsonApiError,
    de: DocumentError,
)
    ensures
        d.data is None && d.included is None && d.links is None && d.meta is None
            && d.jsonapi is None ==> document_data_json(d) == braces(Seq::empty()),
        d.data == Some(PrimaryData::Null) && d.included is None && d.links is None
            && d.meta is None && d.jsonapi is None ==> document_data_json(d) == braces(
            seq![member("data"@, "null"@)],
        ),
        r.id is None && r.relationships is None && r.links is None && r.meta is None
            ==> resource_json(r) == braces(
            seq![
                member("type"@, json_quoted(r._type@)),
                member("attributes"@, map_json(r.attributes)),
            ],
        ),
        rel.data is None && rel.links is None ==> relationship_json(rel) == braces(Seq::empty()),
        e.links is None && e.status is None && e.code is None && e.title is None
            && e.detail is None && e.source is None && e.meta is None ==> error_json(e) == braces(
            opt_member("id"@, opt_quoted(e.id)),
        ),
        de.links is None && de.meta is None && de.jsonapi is None ==> document_error_json(de)
            == braces(
            seq![member("errors"@, brackets(de.errors@.map_values(|x: JsonApiError| error_json(x))))],
        ),
{
    let none = Seq::<Seq<char>>::empty();
    assert(none + none + none + none + none =~= none);
    assert(seq![member("data"@, "null"@)] + none + none + none + none =~= seq![member("data"@, "null"@)]);
    assert(seq![member("type"@, json_quoted(r._type@))] + none + seq![member("attributes"@, map_json(r.attributes))] + none + none + none
        =~= seq![member("type"@, json_quoted(r._type@)), member("attributes"@, map_json(r.attributes))]);
    assert(none + none =~= none);
    let id = opt_member("id"@, opt_quoted(e.id));
    assert(id + none + none + none + none + none + none + none =~= id);
    let errs = seq![member("errors"@, brackets(de.errors@.map_values(|x: JsonApiError| error_json(x))))];
    assert(errs + none + none + none =~= errs);
}

} // verus!
