//! Encoding: from a typed [`Document`] back to the JSON value tree.
//!
//! The encoder mirrors the decoder and never reproduces an invalid
//! document: it emits `data` exactly for data documents and `errors`
//! exactly for error documents (so never both), emits `included` only
//! alongside `data` and only when non-empty, prints an empty to-one
//! linkage as JSON `null`, and prints an empty to-many linkage as `[]`.

use vstd::prelude::*;

use crate::json::has_key;
use crate::json::JsonValue;
use crate::decode::id_shaped;
use crate::decode::jsonapi_repr;
use crate::decode::link_repr;
use crate::decode::links_repr;
use crate::decode::linkage_repr;
use crate::decode::relationship_repr;
use crate::decode::relationships_repr;
use crate::decode::rio_members;
use crate::decode::source_repr;
use crate::json::first_entry;
use crate::json::lemma_first_entry_absent;
use crate::json::lemma_first_entry_unique;
use crate::model::Attributes;
use crate::model::Document;
use crate::model::ErrorObject;
use crate::model::ErrorSource;
use crate::model::JsonApiObject;
use crate::model::Link;
use crate::model::Links;
use crate::model::Meta;
use crate::model::PrimaryData;
use crate::model::Relationship;
use crate::model::Relationships;
use crate::model::ResourceIdentifierObject;
use crate::model::ResourceLinkage;
use crate::model::ResourceObject;

verus! {

/// Encodes a meta object: its members, verbatim.
pub fn encode_meta(m: Meta) -> (r: JsonValue)
    ensures
        r == JsonValue::Obj(m.entries),
{
    JsonValue::Obj(m.entries)
}

/// Encodes a link: a bare URL string stays a string, a link object gets
/// its `href` and optional `meta`.
pub fn encode_link(l: Link) -> (r: JsonValue)
    ensures
        l matches Link::Url(s) ==> r == JsonValue::Text(s),
        l matches Link::Object { .. } ==> r matches JsonValue::Obj(_),
        link_repr(l, r),
{
    match l {
        Link::Url(s) => JsonValue::Text(s),
        Link::Object { href, meta } => {
            let ghost meta0 = meta;
            let mut fs: Vec<(String, JsonValue)> = Vec::new();
            fs.push((String::from_str("href"), JsonValue::Text(href)));
            if let Some(m) = meta {
                fs.push((String::from_str("meta"), encode_meta(m)));
            }
            proof {
                crate::json::lemma_misc_keys();
                assert(first_entry(fs@, "href"@) == Some(fs@[0].1));
                if meta0 is Some {
                    lemma_first_entry_unique(fs@, 1, "meta"@);
                } else {
                    lemma_first_entry_absent(fs@, "meta"@);
                }
            }
            JsonValue::Obj(fs)
        },
    }
}

/// Encodes a links object.
#[verifier::loop_isolation(false)]
pub fn encode_links(ls: Links) -> (r: JsonValue)
    ensures
        r matches JsonValue::Obj(_),
        links_repr(ls, r),
{
    let ghost ls0 = ls;
    let mut entries = ls.entries;
    let ghost orig = entries@;
    let mut fs: Vec<(String, JsonValue)> = Vec::new();
    while entries.len() > 0
        invariant
            fs@.len() + entries@.len() == orig.len(),
            forall|j: int|
                0 <= j < entries@.len() ==> #[trigger] entries@[j] == orig[j + fs@.len()],
            forall|j: int|
                0 <= j < fs@.len() ==> (#[trigger] fs@[j]).0@ == orig[j].0@ && link_repr(
                    orig[j].1,
                    fs@[j].1,
                ),
        decreases entries@.len(),
    {
        let ghost done = fs@.len() as int;
        let ghost prev = entries@;
        let (name, link) = entries.remove(0);
        proof {
            assert(name == orig[done].0 && link == orig[done].1);
            assert(forall|j: int| 0 <= j < entries@.len() ==> #[trigger] entries@[j] == prev[j + 1]);
        }
        fs.push((name.as_str().to_owned(), encode_link(link)));
    }
    proof {
        assert(links_repr(ls0, JsonValue::Obj(fs)));
    }
    JsonValue::Obj(fs)
}

/// Encodes the `jsonapi` object.
pub fn encode_jsonapi(j: JsonApiObject) -> (r: JsonValue)
    ensures
        r matches JsonValue::Obj(_),
        jsonapi_repr(j, r),
{
    let ghost j0 = j;
    let mut fs: Vec<(String, JsonValue)> = Vec::new();
    if let Some(version) = j.version {
        fs.push((String::from_str("version"), JsonValue::Text(version)));
    }
    if let Some(m) = j.meta {
        fs.push((String::from_str("meta"), encode_meta(m)));
    }
    proof {
        crate::json::lemma_misc_keys();
        if j0.version is Some {
            lemma_first_entry_unique(fs@, 0, "version"@);
        } else {
            lemma_first_entry_absent(fs@, "version"@);
        }
        if j0.meta is Some {
            lemma_first_entry_unique(fs@, fs@.len() - 1, "meta"@);
        } else {
            lemma_first_entry_absent(fs@, "meta"@);
        }
    }
    JsonValue::Obj(fs)
}

/// Encodes an attributes object: each validated key with its value, in
/// order.
#[verifier::loop_isolation(false)]
pub fn encode_attributes(a: Attributes) -> (r: JsonValue)
    ensures
        r matches JsonValue::Obj(fs) && fs@.map_values(|e: (String, JsonValue)| (e.0@, e.1)) == a@,
{
    let ghost av = a@;
    let mut entries = a.into_entries();
    let mut fs: Vec<(String, JsonValue)> = Vec::new();
    while entries.len() > 0
        invariant
            fs@.len() + entries@.len() == av.len(),
            forall|j: int|
                0 <= j < entries@.len() ==> (#[trigger] entries@[j]).0@ == av[j + fs@.len()].0
                    && entries@[j].1 == av[j + fs@.len()].1,
            forall|j: int|
                0 <= j < fs@.len() ==> (#[trigger] fs@[j]).0@ == av[j].0 && fs@[j].1 == av[j].1,
        decreases entries@.len(),
    {
        let ghost prev = entries@;
        let (name, value) = entries.remove(0);
        proof {
            assert(forall|j: int|
                0 <= j < entries@.len() ==> #[trigger] entries@[j] == prev[j + 1]);
        }
        fs.push((name.as_str().to_owned(), value));
    }
    proof {
        assert(fs@.map_values(|e: (String, JsonValue)| (e.0@, e.1)) =~= av);
    }
    JsonValue::Obj(fs)
}

/// Encodes a resource identifier object.  The result is always
/// identifier-shaped, so decoding dispatches it back to an identifier, and
/// it carries exactly the identifier's members.
pub fn encode_rio(x: ResourceIdentifierObject) -> (r: JsonValue)
    ensures
        r matches JsonValue::Obj(fs) && id_shaped(fs@),
        rio_members(x, r),
{
    let mut fs: Vec<(String, JsonValue)> = Vec::new();
    fs.push((String::from_str("type"), JsonValue::Text(x.rtype.as_str().to_owned())));
    fs.push((String::from_str("id"), JsonValue::Text(x.id.as_str().to_owned())));
    proof {
        crate::json::lemma_identifier_keys();
        let fs1 = fs@.drop_first();
        assert(fs1[0] == fs@[1]);
        assert(first_entry(fs@, "type"@) == Some(fs@[0].1));
        assert(first_entry(fs1, "id"@) == Some(fs1[0].1));
        assert(first_entry(fs@, "id"@) == Some(fs@[1].1));
        assert(fs1.drop_first().len() == 0);
        assert(first_entry(fs1.drop_first(), "meta"@) is None);
        assert(first_entry(fs1, "meta"@) is None);
        assert(first_entry(fs@, "meta"@) is None);
    }
    match x.meta {
        Some(m) => {
            fs.push((String::from_str("meta"), encode_meta(m)));
            proof {
                let fs1 = fs@.drop_first();
                let fs2 = fs1.drop_first();
                assert(fs1[0] == fs@[1]);
                assert(fs2[0] == fs@[2]);
                assert(first_entry(fs@, "type"@) == Some(fs@[0].1));
                assert(first_entry(fs1, "id"@) == Some(fs1[0].1));
                assert(first_entry(fs@, "id"@) == Some(fs@[1].1));
                assert(first_entry(fs2, "meta"@) == Some(fs2[0].1));
                assert(first_entry(fs1, "meta"@) == Some(fs@[2].1));
                assert(first_entry(fs@, "meta"@) == Some(fs@[2].1));
                assert(id_shaped(fs@));
            }
        },
        None => {
            proof {
                assert(id_shaped(fs@));
            }
        },
    }
    JsonValue::Obj(fs)
}

/// Encodes resource linkage: an empty to-one as JSON `null`, a to-many as
/// an array that keeps its length, so an empty to-many stays `[]`,
/// distinct from `null`.
#[verifier::loop_isolation(false)]
pub fn encode_linkage(l: ResourceLinkage) -> (r: JsonValue)
    ensures
        l == ResourceLinkage::Null ==> r == JsonValue::Null,
        l matches ResourceLinkage::Single(_) ==> (r matches JsonValue::Obj(fs) && id_shaped(fs@)),
        l matches ResourceLinkage::Array(xs) ==> (r matches JsonValue::Arr(es) && es@.len()
            == xs@.len()),
        linkage_repr(l, r),
{
    match l {
        ResourceLinkage::Null => JsonValue::Null,
        ResourceLinkage::Single(x) => encode_rio(x),
        ResourceLinkage::Array(xs) => {
            let ghost orig = xs@;
            let ghost total = xs@.len();
            let mut rest = xs;
            let mut es: Vec<JsonValue> = Vec::new();
            while rest.len() > 0
                invariant
                    es@.len() + rest@.len() == total,
                    forall|j: int|
                        0 <= j < rest@.len() ==> #[trigger] rest@[j] == orig[j + es@.len()],
                    forall|j: int|
                        0 <= j < es@.len() ==> rio_members(#[trigger] orig[j], es@[j]),
                decreases rest@.len(),
            {
                let ghost done = es@.len() as int;
                let ghost prev = rest@;
                let x = rest.remove(0);
                proof {
                    assert(x == orig[done]);
                    assert(forall|j: int|
                        0 <= j < rest@.len() ==> #[trigger] rest@[j] == prev[j + 1]);
                }
                es.push(encode_rio(x));
            }
            JsonValue::Arr(es)
        },
    }
}

/// Encodes one relationship object.
pub fn encode_relationship(rel: Relationship) -> (r: JsonValue)
    ensures
        r matches JsonValue::Obj(_),
        relationship_repr(rel, r),
{
    let ghost rel0 = rel;
    let mut fs: Vec<(String, JsonValue)> = Vec::new();
    if let Some(ls) = rel.links {
        fs.push((String::from_str("links"), encode_links(ls)));
    }
    let ghost n_links = fs@.len() as int;
    if let Some(d) = rel.data {
        fs.push((String::from_str("data"), encode_linkage(d)));
    }
    let ghost n_data = fs@.len() as int;
    if let Some(m) = rel.meta {
        fs.push((String::from_str("meta"), encode_meta(m)));
    }
    proof {
        crate::json::lemma_top_level_keys();
        if rel0.links is Some {
            lemma_first_entry_unique(fs@, 0, "links"@);
        } else {
            lemma_first_entry_absent(fs@, "links"@);
        }
        if rel0.data is Some {
            lemma_first_entry_unique(fs@, n_data - 1, "data"@);
        } else {
            lemma_first_entry_absent(fs@, "data"@);
        }
        if rel0.meta is Some {
            lemma_first_entry_unique(fs@, fs@.len() - 1, "meta"@);
        } else {
            lemma_first_entry_absent(fs@, "meta"@);
        }
    }
    JsonValue::Obj(fs)
}

/// Encodes a relationships object.
#[verifier::loop_isolation(false)]
pub fn encode_relationships(rels: Relationships) -> (r: JsonValue)
    ensures
        r matches JsonValue::Obj(_),
        relationships_repr(rels, r),
{
    let ghost rels0 = rels;
    let mut entries = rels.entries;
    let ghost orig = entries@;
    let mut fs: Vec<(String, JsonValue)> = Vec::new();
    while entries.len() > 0
        invariant
            fs@.len() + entries@.len() == orig.len(),
            forall|j: int|
                0 <= j < entries@.len() ==> #[trigger] entries@[j] == orig[j + fs@.len()],
            forall|j: int|
                0 <= j < fs@.len() ==> (#[trigger] fs@[j]).0@ == orig[j].0@ && relationship_repr(
                    orig[j].1,
                    fs@[j].1,
                ),
        decreases entries@.len(),
    {
        let ghost done = fs@.len() as int;
        let ghost prev = entries@;
        let (name, rel) = entries.remove(0);
        proof {
            assert(name == orig[done].0 && rel == orig[done].1);
            assert(forall|j: int| 0 <= j < entries@.len() ==> #[trigger] entries@[j] == prev[j + 1]);
        }
        fs.push((name.as_str().to_owned(), encode_relationship(rel)));
    }
    proof {
        assert(relationships_repr(rels0, JsonValue::Obj(fs)));
    }
    JsonValue::Obj(fs)
}

/// Encodes a full resource object.  When the resource carries
/// attributes, relationships or links, the result is not
/// identifier-shaped, so decoding dispatches it back to a full resource;
/// a resource carrying only identifier members encodes identifier-shaped
/// and is read back as an identifier.
pub fn encode_resource(ro: ResourceObject) -> (r: JsonValue)
    ensures
        r matches JsonValue::Obj(fs) && has_key(fs@, "type"@),
        (ro.attributes is Some || ro.relationships is Some || ro.links is Some) ==> (r matches
            JsonValue::Obj(fs) && !id_shaped(fs@)),
        crate::decode::resource_repr(ro, r),
{
    let ghost ro0 = ro;
    let mut fs: Vec<(String, JsonValue)> = Vec::new();
    fs.push((String::from_str("type"), JsonValue::Text(ro.rtype.as_str().to_owned())));
    if let Some(id) = ro.id {
        fs.push((String::from_str("id"), JsonValue::Text(id.as_str().to_owned())));
    }
    let ghost n_id = fs@.len() as int;
    if let Some(a) = ro.attributes {
        fs.push((String::from_str("attributes"), encode_attributes(a)));
        proof {
            assert(fs@[fs@.len() - 1].0@ == "attributes"@);
            assert(has_key(fs@, "attributes"@));
        }
    }
    let ghost n_attrs = fs@.len() as int;
    let ghost f1 = fs@;
    if let Some(rels) = ro.relationships {
        let e = (String::from_str("relationships"), encode_relationships(rels));
        let ghost ge = e;
        fs.push(e);
        proof {
            assert(fs@[fs@.len() - 1].0@ == "relationships"@);
            assert(has_key(fs@, "relationships"@));
            if ro0.attributes is Some {
                crate::json::lemma_has_key_push(f1, ge, "attributes"@);
            }
        }
    }
    let ghost n_rels = fs@.len() as int;
    let ghost f2 = fs@;
    if let Some(ls) = ro.links {
        let e = (String::from_str("links"), encode_links(ls));
        let ghost ge = e;
        fs.push(e);
        proof {
            assert(fs@[fs@.len() - 1].0@ == "links"@);
            assert(has_key(fs@, "links"@));
            if ro0.attributes is Some {
                crate::json::lemma_has_key_push(f2, ge, "attributes"@);
            }
            if ro0.relationships is Some {
                crate::json::lemma_has_key_push(f2, ge, "relationships"@);
            }
        }
    }
    let ghost n_links = fs@.len() as int;
    let ghost f3 = fs@;
    if let Some(m) = ro.meta {
        let e = (String::from_str("meta"), encode_meta(m));
        let ghost ge = e;
        fs.push(e);
        proof {
            if ro0.attributes is Some {
                crate::json::lemma_has_key_push(f3, ge, "attributes"@);
            }
            if ro0.relationships is Some {
                crate::json::lemma_has_key_push(f3, ge, "relationships"@);
            }
            if ro0.links is Some {
                crate::json::lemma_has_key_push(f3, ge, "links"@);
            }
        }
    }
    proof {
        assert(fs@[0].0@ == "type"@);
        crate::json::lemma_resource_keys();
        crate::json::lemma_identifier_keys();
        assert(first_entry(fs@, "type"@) == Some(fs@[0].1));
        if ro0.id is Some {
            lemma_first_entry_unique(fs@, 1, "id"@);
        } else {
            lemma_first_entry_absent(fs@, "id"@);
        }
        if ro0.attributes is Some {
            lemma_first_entry_unique(fs@, n_attrs - 1, "attributes"@);
        } else {
            lemma_first_entry_absent(fs@, "attributes"@);
        }
        if ro0.relationships is Some {
            lemma_first_entry_unique(fs@, n_rels - 1, "relationships"@);
        } else {
            lemma_first_entry_absent(fs@, "relationships"@);
        }
        if ro0.links is Some {
            lemma_first_entry_unique(fs@, n_links - 1, "links"@);
        } else {
            lemma_first_entry_absent(fs@, "links"@);
        }
        if ro0.meta is Some {
            lemma_first_entry_unique(fs@, fs@.len() - 1, "meta"@);
        } else {
            lemma_first_entry_absent(fs@, "meta"@);
        }
        if ro0.attributes is Some {
            assert(has_key(fs@, "attributes"@));
            let j = choose|j: int|
                0 <= j < fs@.len() && (#[trigger] fs@[j].0)@ == "attributes"@;
            assert(!id_shaped(fs@));
        }
        if ro0.relationships is Some {
            assert(has_key(fs@, "relationships"@));
            let j = choose|j: int|
                0 <= j < fs@.len() && (#[trigger] fs@[j].0)@ == "relationships"@;
            assert(!id_shaped(fs@));
        }
        if ro0.links is Some {
            assert(has_key(fs@, "links"@));
            let j = choose|j: int| 0 <= j < fs@.len() && (#[trigger] fs@[j].0)@ == "links"@;
            assert(!id_shaped(fs@));
        }
    }
    JsonValue::Obj(fs)
}

/// Encodes an array of resource objects, keeping its length.
#[verifier::loop_isolation(false)]
pub fn encode_resources(ros: Vec<ResourceObject>) -> (r: Vec<JsonValue>)
    ensures
        r@.len() == ros@.len(),
        forall|i: int|
            0 <= i < ros@.len() ==> crate::decode::resource_repr(#[trigger] ros@[i], r@[i]),
{
    let ghost orig = ros@;
    let ghost total = ros@.len();
    let mut rest = ros;
    let mut es: Vec<JsonValue> = Vec::new();
    while rest.len() > 0
        invariant
            es@.len() + rest@.len() == total,
            forall|j: int| 0 <= j < rest@.len() ==> #[trigger] rest@[j] == orig[j + es@.len()],
            forall|j: int|
                0 <= j < es@.len() ==> crate::decode::resource_repr(#[trigger] orig[j], es@[j]),
        decreases rest@.len(),
    {
        let ghost done = es@.len() as int;
        let ghost prev = rest@;
        let ro = rest.remove(0);
        proof {
            assert(ro == orig[done]);
            assert(forall|j: int| 0 <= j < rest@.len() ==> #[trigger] rest@[j] == prev[j + 1]);
        }
        es.push(encode_resource(ro));
    }
    es
}

/// Encodes the source of an error object.
pub fn encode_error_source(s: ErrorSource) -> (r: JsonValue)
    ensures
        r matches JsonValue::Obj(_),
        source_repr(s, r),
{
    let ghost s0 = s;
    let mut fs: Vec<(String, JsonValue)> = Vec::new();
    if let Some(p) = s.pointer {
        fs.push((String::from_str("pointer"), JsonValue::Text(p)));
    }
    if let Some(p) = s.parameter {
        fs.push((String::from_str("parameter"), JsonValue::Text(p)));
    }
    proof {
        crate::json::lemma_misc_keys();
        if s0.pointer is Some {
            lemma_first_entry_unique(fs@, 0, "pointer"@);
        } else {
            lemma_first_entry_absent(fs@, "pointer"@);
        }
        if s0.parameter is Some {
            lemma_first_entry_unique(fs@, fs@.len() - 1, "parameter"@);
        } else {
            lemma_first_entry_absent(fs@, "parameter"@);
        }
    }
    JsonValue::Obj(fs)
}

/// Encodes one member of the `errors` array.
pub fn encode_error_object(e: ErrorObject) -> (r: JsonValue)
    ensures
        r matches JsonValue::Obj(_),
        crate::decode::error_repr(e, r),
{
    let ghost e0 = e;
    let mut fs: Vec<(String, JsonValue)> = Vec::new();
    if let Some(id) = e.id {
        fs.push((String::from_str("id"), JsonValue::Text(id)));
    }
    let ghost n_id = fs@.len() as int;
    if let Some(ls) = e.links {
        fs.push((String::from_str("links"), encode_links(ls)));
    }
    let ghost n_links = fs@.len() as int;
    if let Some(s) = e.status {
        fs.push((String::from_str("status"), JsonValue::Text(s)));
    }
    let ghost n_status = fs@.len() as int;
    if let Some(s) = e.code {
        fs.push((String::from_str("code"), JsonValue::Text(s)));
    }
    let ghost n_code = fs@.len() as int;
    if let Some(s) = e.title {
        fs.push((String::from_str("title"), JsonValue::Text(s)));
    }
    let ghost n_title = fs@.len() as int;
    if let Some(s) = e.detail {
        fs.push((String::from_str("detail"), JsonValue::Text(s)));
    }
    let ghost n_detail = fs@.len() as int;
    if let Some(s) = e.source {
        fs.push((String::from_str("source"), encode_error_source(s)));
    }
    let ghost n_source = fs@.len() as int;
    if let Some(m) = e.meta {
        fs.push((String::from_str("meta"), encode_meta(m)));
    }
    proof {
        crate::json::lemma_error_keys();
        if e0.id is Some {
            lemma_first_entry_unique(fs@, 0, "id"@);
        } else {
            lemma_first_entry_absent(fs@, "id"@);
        }
        if e0.links is Some {
            lemma_first_entry_unique(fs@, n_links - 1, "links"@);
        } else {
            lemma_first_entry_absent(fs@, "links"@);
        }
        if e0.status is Some {
            lemma_first_entry_unique(fs@, n_status - 1, "status"@);
        } else {
            lemma_first_entry_absent(fs@, "status"@);
        }
        if e0.code is Some {
            lemma_first_entry_unique(fs@, n_code - 1, "code"@);
        } else {
            lemma_first_entry_absent(fs@, "code"@);
        }
        if e0.title is Some {
            lemma_first_entry_unique(fs@, n_title - 1, "title"@);
        } else {
            lemma_first_entry_absent(fs@, "title"@);
        }
        if e0.detail is Some {
            lemma_first_entry_unique(fs@, n_detail - 1, "detail"@);
        } else {
            lemma_first_entry_absent(fs@, "detail"@);
        }
        if e0.source is Some {
            lemma_first_entry_unique(fs@, n_source - 1, "source"@);
        } else {
            lemma_first_entry_absent(fs@, "source"@);
        }
        if e0.meta is Some {
            lemma_first_entry_unique(fs@, fs@.len() - 1, "meta"@);
        } else {
            lemma_first_entry_absent(fs@, "meta"@);
        }
    }
    JsonValue::Obj(fs)
}

/// Encodes the `errors` array, keeping its order and length.
#[verifier::loop_isolation(false)]
pub fn encode_errors(errs: Vec<ErrorObject>) -> (r: Vec<JsonValue>)
    ensures
        r@.len() == errs@.len(),
        crate::decode::errors_repr(errs@, JsonValue::Arr(r)),
{
    let ghost orig = errs@;
    let ghost total = errs@.len();
    let mut rest = errs;
    let mut es: Vec<JsonValue> = Vec::new();
    while rest.len() > 0
        invariant
            es@.len() + rest@.len() == total,
            forall|j: int| 0 <= j < rest@.len() ==> #[trigger] rest@[j] == orig[j + es@.len()],
            forall|j: int|
                0 <= j < es@.len() ==> crate::decode::error_repr(#[trigger] orig[j], es@[j]),
        decreases rest@.len(),
    {
        let ghost done = es@.len() as int;
        let ghost prev = rest@;
        let e = rest.remove(0);
        proof {
            assert(e == orig[done]);
            assert(forall|j: int| 0 <= j < rest@.len() ==> #[trigger] rest@[j] == prev[j + 1]);
        }
        es.push(encode_error_object(e));
    }
    es
}

/// Encodes the primary data: `null` stays `null`, single forms become
/// objects, array forms become arrays of the same length, so an empty
/// collection stays `[]`.
#[verifier::loop_isolation(false)]
pub fn encode_primary(pd: PrimaryData) -> (r: JsonValue)
    ensures
        pd == PrimaryData::Null ==> r == JsonValue::Null,
        pd matches PrimaryData::Single(ro) ==> (r matches JsonValue::Obj(_) && ((ro.attributes
            is Some || ro.relationships is Some || ro.links is Some) ==> (r matches JsonValue::Obj(
            fs,
        ) && !id_shaped(fs@)))),
        pd matches PrimaryData::SingleIdentifier(_) ==> (r matches JsonValue::Obj(fs) && id_shaped(
            fs@,
        )),
        pd matches PrimaryData::Array(ros) ==> (r matches JsonValue::Arr(es) && es@.len()
            == ros@.len()),
        pd matches PrimaryData::ArrayIdentifier(xs) ==> (r matches JsonValue::Arr(es) && es@.len()
            == xs@.len()),
        !(pd matches PrimaryData::Single(_)) ==> crate::decode::primary_repr(pd, r),
        pd matches PrimaryData::Single(ro) ==> ((ro.attributes is Some || ro.relationships is Some
            || ro.links is Some) ==> crate::decode::primary_repr(pd, r)),
{
    match pd {
        PrimaryData::Null => JsonValue::Null,
        PrimaryData::Single(ro) => encode_resource(ro),
        PrimaryData::SingleIdentifier(x) => encode_rio(x),
        PrimaryData::Array(ros) => JsonValue::Arr(encode_resources(ros)),
        PrimaryData::ArrayIdentifier(xs) => {
            let ghost orig = xs@;
            let ghost total = xs@.len();
            let mut rest = xs;
            let mut es: Vec<JsonValue> = Vec::new();
            while rest.len() > 0
                invariant
                    es@.len() + rest@.len() == total,
                    forall|j: int|
                        0 <= j < rest@.len() ==> #[trigger] rest@[j] == orig[j + es@.len()],
                    forall|j: int|
                        0 <= j < es@.len() ==> rio_members(#[trigger] orig[j], es@[j])
                            && crate::decode::value_id_shaped(es@[j]),
                decreases rest@.len(),
            {
                let ghost done = es@.len() as int;
                let ghost prev = rest@;
                let x = rest.remove(0);
                proof {
                    assert(x == orig[done]);
                    assert(forall|j: int|
                        0 <= j < rest@.len() ==> #[trigger] rest@[j] == prev[j + 1]);
                }
                es.push(encode_rio(x));
            }
            JsonValue::Arr(es)
        },
    }
}

/// Encodes a whole document.
///
/// The result is always a JSON object; it carries `data` exactly for a
/// data document and `errors` exactly for an error document, so the two
/// never coexist, and it carries `included` only for a data document with
/// a non-empty `included` array.
pub fn encode(d: Document) -> (r: JsonValue)
    ensures
        r matches JsonValue::Obj(_),
        r matches JsonValue::Obj(fs) ==> {
            &&& (has_key(fs@, "data"@) <==> d matches Document::Data { .. })
            &&& (has_key(fs@, "errors"@) <==> d matches Document::Errors { .. })
            &&& !(has_key(fs@, "data"@) && has_key(fs@, "errors"@))
            &&& (has_key(fs@, "included"@) ==> has_key(fs@, "data"@))
            &&& (d matches Document::Data { included, .. } ==> (has_key(fs@, "included"@)
                <==> included@.len() > 0))
        },
        d matches Document::Errors { .. } ==> crate::decode::doc_repr(d, r),
        d matches Document::Info { .. } ==> crate::decode::doc_repr(d, r),
        d matches Document::Data { data, .. } ==> ((data matches PrimaryData::Single(ro) ==> (
        ro.attributes is Some || ro.relationships is Some || ro.links is Some))
            ==> crate::decode::doc_repr(d, r)),
{
    proof {
        crate::json::lemma_top_level_keys();
    }
    match d {
        Document::Data { jsonapi, data, links, meta, included } => {
            let ghost gjsonapi = jsonapi;
            let ghost glinks = links;
            let ghost gmeta = meta;
            let ghost gincluded = included@;
            let mut fs: Vec<(String, JsonValue)> = Vec::new();
            fs.push((String::from_str("data"), encode_primary(data)));
            if let Some(j) = jsonapi {
                fs.push((String::from_str("jsonapi"), encode_jsonapi(j)));
            }
            let ghost n_jsonapi = fs@.len() as int;
            if let Some(ls) = links {
                fs.push((String::from_str("links"), encode_links(ls)));
            }
            let ghost n_links = fs@.len() as int;
            if let Some(m) = meta {
                fs.push((String::from_str("meta"), encode_meta(m)));
            }
            let ghost n_meta = fs@.len() as int;
            let emit_included = included.len() > 0;
            if emit_included {
                let ghost gfs = fs@;
                fs.push((String::from_str("included"), JsonValue::Arr(encode_resources(included))));
                proof {
                    assert(fs@[gfs.len() as int].0@ == "included"@);
                }
            }
            proof {
                assert(fs@[0].0@ == "data"@);
                assert(forall|j: int|
                    0 <= j < fs@.len() ==> (#[trigger] fs@[j].0)@ != "errors"@);
                if !emit_included {
                    assert(forall|j: int|
                        0 <= j < fs@.len() ==> (#[trigger] fs@[j].0)@ != "included"@);
                }
                assert(first_entry(fs@, "data"@) == Some(fs@[0].1));
                if gjsonapi is Some {
                    lemma_first_entry_unique(fs@, n_jsonapi - 1, "jsonapi"@);
                } else {
                    lemma_first_entry_absent(fs@, "jsonapi"@);
                }
                if glinks is Some {
                    lemma_first_entry_unique(fs@, n_links - 1, "links"@);
                } else {
                    lemma_first_entry_absent(fs@, "links"@);
                }
                if gmeta is Some {
                    lemma_first_entry_unique(fs@, n_meta - 1, "meta"@);
                } else {
                    lemma_first_entry_absent(fs@, "meta"@);
                }
                if emit_included {
                    lemma_first_entry_unique(fs@, fs@.len() - 1, "included"@);
                } else {
                    lemma_first_entry_absent(fs@, "included"@);
                }
            }
            JsonValue::Obj(fs)
        },
        Document::Errors { jsonapi, errors, links, meta } => {
            let ghost gjsonapi = jsonapi;
            let ghost glinks = links;
            let ghost gmeta = meta;
            let mut fs: Vec<(String, JsonValue)> = Vec::new();
            fs.push((String::from_str("errors"), JsonValue::Arr(encode_errors(errors))));
            if let Some(j) = jsonapi {
                fs.push((String::from_str("jsonapi"), encode_jsonapi(j)));
            }
            let ghost n_jsonapi = fs@.len() as int;
            if let Some(ls) = links {
                fs.push((String::from_str("links"), encode_links(ls)));
            }
            let ghost n_links = fs@.len() as int;
            if let Some(m) = meta {
                fs.push((String::from_str("meta"), encode_meta(m)));
            }
            proof {
                assert(fs@[0].0@ == "errors"@);
                assert(forall|j: int| 0 <= j < fs@.len() ==> (#[trigger] fs@[j].0)@ != "data"@);
                assert(forall|j: int|
                    0 <= j < fs@.len() ==> (#[trigger] fs@[j].0)@ != "included"@);
                assert(first_entry(fs@, "errors"@) == Some(fs@[0].1));
                if gjsonapi is Some {
                    lemma_first_entry_unique(fs@, n_jsonapi - 1, "jsonapi"@);
                } else {
                    lemma_first_entry_absent(fs@, "jsonapi"@);
                }
                if glinks is Some {
                    lemma_first_entry_unique(fs@, n_links - 1, "links"@);
                } else {
                    lemma_first_entry_absent(fs@, "links"@);
                }
                if gmeta is Some {
                    lemma_first_entry_unique(fs@, fs@.len() - 1, "meta"@);
                } else {
                    lemma_first_entry_absent(fs@, "meta"@);
                }
            }
            JsonValue::Obj(fs)
        },
        Document::Info { jsonapi, meta, links } => {
            let ghost gjsonapi = jsonapi;
            let ghost glinks = links;
            let mut fs: Vec<(String, JsonValue)> = Vec::new();
            fs.push((String::from_str("meta"), encode_meta(meta)));
            if let Some(j) = jsonapi {
                fs.push((String::from_str("jsonapi"), encode_jsonapi(j)));
            }
            let ghost n_jsonapi = fs@.len() as int;
            if let Some(ls) = links {
                fs.push((String::from_str("links"), encode_links(ls)));
            }
            proof {
                assert(forall|j: int| 0 <= j < fs@.len() ==> (#[trigger] fs@[j].0)@ != "data"@);
                assert(forall|j: int|
                    0 <= j < fs@.len() ==> (#[trigger] fs@[j].0)@ != "errors"@);
                assert(forall|j: int|
                    0 <= j < fs@.len() ==> (#[trigger] fs@[j].0)@ != "included"@);
                assert(first_entry(fs@, "meta"@) == Some(fs@[0].1));
                if gjsonapi is Some {
                    lemma_first_entry_unique(fs@, n_jsonapi - 1, "jsonapi"@);
                } else {
                    lemma_first_entry_absent(fs@, "jsonapi"@);
                }
                if glinks is Some {
                    lemma_first_entry_unique(fs@, fs@.len() - 1, "links"@);
                } else {
                    lemma_first_entry_absent(fs@, "links"@);
                }
            }
            JsonValue::Obj(fs)
        },
    }
}

} // verus!
