//! The typed document model: primitive values, resources, and the
//! top-level document union.
//!
//! Every composite type validates its own invariant at construction, so an
//! invalid value is unrepresentable afterwards.  Cross-field rules that
//! span several members (`data` xor `errors`, `included` requires `data`)
//! are enforced by the shape of [`Document`] itself.

use vstd::prelude::*;

use crate::error::DocError;
use crate::error::ErrorKind;
use crate::json::JsonValue;
use crate::name::valid_name;
use crate::name::is_valid_name;
use crate::name::Name;
use crate::json::str_eq;

verus! {

/// Non-standard meta-information: an arbitrary member list, carried
/// verbatim.
#[derive(Debug, PartialEq, Eq)]
pub struct Meta {
    pub entries: Vec<(String, JsonValue)>,
}

/// A link: a bare URL string, or a link object with an `href` and optional
/// meta.  The URL format is advisory and not enforced beyond being a
/// string.
#[derive(Debug, PartialEq, Eq)]
pub enum Link {
    Url(String),
    Object { href: String, meta: Option<Meta> },
}

/// A links object: member names (`self`, `related`, pagination keys, or
/// extensions) mapped to links.
#[derive(Debug, PartialEq, Eq)]
pub struct Links {
    pub entries: Vec<(Name, Link)>,
}

impl Links {
    /// The `self` link, when one is present: the first member named
    /// `self`.
    pub fn self_(&self) -> (r: Option<&Link>)
        ensures
            r matches Some(l) ==> exists|i: int|
                {
                    &&& 0 <= i < self.entries@.len()
                    &&& (#[trigger] self.entries@[i].0)@ == "self"@
                    &&& self.entries@[i].1 == *l
                    &&& forall|j: int| 0 <= j < i ==> (#[trigger] self.entries@[j].0)@ != "self"@
                },
            r is None ==> forall|i: int|
                0 <= i < self.entries@.len() ==> (#[trigger] self.entries@[i].0)@ != "self"@,
    {
        let mut i: usize = 0;
        while i < self.entries.len()
            invariant
                i <= self.entries@.len(),
                forall|j: int|
                    0 <= j < i ==> (#[trigger] self.entries@[j].0)@ != "self"@,
            decreases self.entries@.len() - i,
        {
            if str_eq(self.entries[i].0.as_str(), "self") {
                return Some(&self.entries[i].1);
            }
            i += 1;
        }
        None
    }
}

/// The `jsonapi` object describing the producer's implementation.
#[derive(Debug, PartialEq, Eq)]
pub struct JsonApiObject {
    pub version: Option<String>,
    pub meta: Option<Meta>,
}

/// Whether `k` may be an attribute key: it must satisfy the member-name
/// grammar and must not be the reserved `links` or `relationships`.
pub open spec fn attr_key_ok(k: Seq<char>) -> bool {
    &&& valid_name(k)
    &&& k != "links"@
    &&& k != "relationships"@
}

/// An attributes object: validated member names mapped to arbitrary JSON
/// values, with the reserved keys `links` and `relationships` excluded.
#[derive(Debug, PartialEq, Eq)]
pub struct Attributes {
    entries: Vec<(Name, JsonValue)>,
}

impl View for Attributes {
    type V = Seq<(Seq<char>, JsonValue)>;

    closed spec fn view(&self) -> Seq<(Seq<char>, JsonValue)> {
        self.entries@.map_values(|e: (Name, JsonValue)| (e.0@, e.1))
    }
}

impl Attributes {
    #[verifier::type_invariant]
    closed spec fn inv(self) -> bool {
        forall|i: int| 0 <= i < self.entries@.len() ==> attr_key_ok((#[trigger] self.entries@[i].0)@)
    }

    /// Validates every key against [`attr_key_ok`].  Succeeds exactly when
    /// all keys pass; otherwise reports the first offending key, as
    /// `ReservedAttributeKey` when the key is a well-formed name and
    /// `InvalidMemberName` when it is not.
    #[verifier::loop_isolation(false)]
    pub fn new(entries: Vec<(String, JsonValue)>) -> (r: Result<Attributes, DocError>)
        ensures
            (forall|i: int|
                0 <= i < entries@.len() ==> attr_key_ok(#[trigger] entries@[i].0@)) <==> r is Ok,
            r matches Ok(a) ==> a@ == entries@.map_values(|e: (String, JsonValue)| (e.0@, e.1)),
            r matches Err(e) ==> exists|i: int|
                {
                    &&& 0 <= i < entries@.len()
                    &&& !attr_key_ok((#[trigger] entries@[i].0)@)
                    &&& forall|j: int| 0 <= j < i ==> attr_key_ok((#[trigger] entries@[j].0)@)
                    &&& e.kind == (if valid_name(entries@[i].0@) {
                        ErrorKind::ReservedAttributeKey
                    } else {
                        ErrorKind::InvalidMemberName
                    })
                    &&& e.path@.len() == 1
                    &&& e.path@[0]@ == entries@[i].0@
                },
    {
        let ghost orig = entries@;
        let mut rest = entries;
        let mut out: Vec<(Name, JsonValue)> = Vec::new();
        while rest.len() > 0
            invariant
                out@.len() + rest@.len() == orig.len(),
                forall|j: int| 0 <= j < rest@.len() ==> #[trigger] rest@[j] == orig[j + out@.len()],
                forall|j: int|
                    0 <= j < out@.len() ==> attr_key_ok((#[trigger] orig[j].0)@) && out@[j].0@
                        == orig[j].0@ && out@[j].1 == orig[j].1,
            decreases rest@.len(),
        {
            let ghost done = out@.len() as int;
            let ghost prev = rest@;
            let (k, v) = rest.remove(0);
            proof {
                assert(k == orig[done].0);
                assert(forall|j: int|
                    0 <= j < rest@.len() ==> #[trigger] rest@[j] == prev[j + 1]);
            }
            if !is_valid_name(k.as_str()) {
                proof {
                    assert(!attr_key_ok((orig[done].0)@));
                    assert(!(forall|i: int|
                        0 <= i < orig.len() ==> attr_key_ok(#[trigger] orig[i].0@)));
                }
                let mut path: Vec<String> = Vec::new();
                path.push(k);
                return Err(DocError { kind: ErrorKind::InvalidMemberName, path });
            }
            if str_eq(k.as_str(), "links") || str_eq(k.as_str(), "relationships") {
                proof {
                    assert(!attr_key_ok((orig[done].0)@));
                    assert(!(forall|i: int|
                        0 <= i < orig.len() ==> attr_key_ok(#[trigger] orig[i].0@)));
                }
                let mut path: Vec<String> = Vec::new();
                path.push(k);
                return Err(DocError { kind: ErrorKind::ReservedAttributeKey, path });
            }
            let n = match Name::new(k) {
                Ok(n) => n,
                Err(e) => {
                    return Err(e);
                },
            };
            out.push((n, v));
        }
        proof {
            assert forall|i: int| 0 <= i < out@.len() implies attr_key_ok(
                (#[trigger] out@[i].0)@,
            ) by {
                assert(attr_key_ok((orig[i].0)@));
            }
        }
        let a = Attributes { entries: out };
        proof {
            assert(a@ =~= orig.map_values(|e: (String, JsonValue)| (e.0@, e.1)));
        }
        Ok(a)
    }

    /// The validated entries, by value.
    pub fn into_entries(self) -> (r: Vec<(Name, JsonValue)>)
        ensures
            r@.len() == self@.len(),
            forall|i: int|
                0 <= i < r@.len() ==> (#[trigger] r@[i]).0@ == self@[i].0 && r@[i].1 == self@[i].1,
            forall|i: int| 0 <= i < r@.len() ==> attr_key_ok((#[trigger] r@[i]).0@),
    {
        proof {
            use_type_invariant(&self);
        }
        self.entries
    }

    /// The validated entries.
    pub fn entries(&self) -> (r: &Vec<(Name, JsonValue)>)
        ensures
            r@.len() == self@.len(),
            forall|i: int|
                0 <= i < r@.len() ==> (#[trigger] r@[i]).0@ == self@[i].0 && r@[i].1 == self@[i].1,
            forall|i: int| 0 <= i < r@.len() ==> attr_key_ok((#[trigger] r@[i]).0@),
    {
        proof {
            use_type_invariant(self);
        }
        &self.entries
    }
}

/// Resource linkage: an empty to-one (`Null`), a non-empty to-one, or a
/// to-many array which may be empty.
#[derive(Debug, PartialEq, Eq)]
pub enum ResourceLinkage {
    Null,
    Single(ResourceIdentifierObject),
    Array(Vec<ResourceIdentifierObject>),
}

/// One relationship: at least one of `links`, `data` and `meta` is
/// expected by the originating format, but an empty relationship object is
/// deliberately accepted here, matching the model's current behavior.
#[derive(Debug, PartialEq, Eq)]
pub struct Relationship {
    pub links: Option<Links>,
    pub data: Option<ResourceLinkage>,
    pub meta: Option<Meta>,
}

/// A relationships object: validated member names mapped to relationship
/// objects.
#[derive(Debug, PartialEq, Eq)]
pub struct Relationships {
    pub entries: Vec<(Name, Relationship)>,
}

impl Relationships {
    /// Validates every key against the member-name grammar.  Succeeds
    /// exactly when all keys pass; otherwise reports the first offending
    /// key as `InvalidRelationshipName`.
    #[verifier::loop_isolation(false)]
    pub fn new(entries: Vec<(String, Relationship)>) -> (r: Result<Relationships, DocError>)
        ensures
            (forall|i: int|
                0 <= i < entries@.len() ==> valid_name((#[trigger] entries@[i].0)@)) <==> r is Ok,
            r matches Ok(rel) ==> {
                &&& rel.entries@.len() == entries@.len()
                &&& forall|i: int|
                    0 <= i < entries@.len() ==> (#[trigger] rel.entries@[i]).0@ == entries@[i].0@
                        && rel.entries@[i].1 == entries@[i].1
            },
            r matches Err(e) ==> exists|i: int|
                {
                    &&& 0 <= i < entries@.len()
                    &&& !valid_name((#[trigger] entries@[i].0)@)
                    &&& forall|j: int| 0 <= j < i ==> valid_name((#[trigger] entries@[j].0)@)
                    &&& e.kind == ErrorKind::InvalidRelationshipName
                    &&& e.path@.len() == 1
                    &&& e.path@[0]@ == entries@[i].0@
                },
    {
        let ghost orig = entries@;
        let mut rest = entries;
        let mut out: Vec<(Name, Relationship)> = Vec::new();
        while rest.len() > 0
            invariant
                out@.len() + rest@.len() == orig.len(),
                forall|j: int| 0 <= j < rest@.len() ==> #[trigger] rest@[j] == orig[j + out@.len()],
                forall|j: int|
                    0 <= j < out@.len() ==> valid_name((#[trigger] orig[j].0)@) && out@[j].0@
                        == orig[j].0@ && out@[j].1 == orig[j].1,
            decreases rest@.len(),
        {
            let ghost done = out@.len() as int;
            let ghost prev = rest@;
            let (k, v) = rest.remove(0);
            proof {
                assert(k == orig[done].0);
                assert(forall|j: int|
                    0 <= j < rest@.len() ==> #[trigger] rest@[j] == prev[j + 1]);
            }
            if !is_valid_name(k.as_str()) {
                proof {
                    assert(!valid_name((orig[done].0)@));
                    assert(!(forall|i: int|
                        0 <= i < orig.len() ==> valid_name((#[trigger] orig[i].0)@)));
                }
                let mut path: Vec<String> = Vec::new();
                path.push(k);
                return Err(DocError { kind: ErrorKind::InvalidRelationshipName, path });
            }
            let n = match Name::new(k) {
                Ok(n) => n,
                Err(e) => {
                    return Err(e);
                },
            };
            out.push((n, v));
        }
        Ok(Relationships { entries: out })
    }
}

/// A resource identifier object: the minimal `{type, id}` reference to a
/// resource, with optional meta.  Two identifiers refer to the same
/// resource exactly when their `type` and `id` match.
#[derive(Debug, PartialEq, Eq)]
pub struct ResourceIdentifierObject {
    pub rtype: Name,
    pub id: Name,
    pub meta: Option<Meta>,
}

impl ResourceIdentifierObject {
    /// Validates `rtype` and `id` as member names.  Succeeds exactly when
    /// both pass; otherwise reports `InvalidMemberName` at `type` or `id`.
    pub fn new(rtype: String, id: String, meta: Option<Meta>) -> (r: Result<
        ResourceIdentifierObject,
        DocError,
    >)
        ensures
            (valid_name(rtype@) && valid_name(id@)) <==> r is Ok,
            r matches Ok(x) ==> x.rtype@ == rtype@ && x.id@ == id@ && x.meta == meta,
            r matches Err(e) ==> {
                &&& e.kind == ErrorKind::InvalidMemberName
                &&& e.path@.len() == 1
                &&& e.path@[0]@ == (if !valid_name(rtype@) {
                    "type"@
                } else {
                    "id"@
                })
            },
    {
        let rtype = match Name::new(rtype) {
            Ok(n) => n,
            Err(e) => {
                return Err(e.under(String::from_str("type")));
            },
        };
        let id = match Name::new(id) {
            Ok(n) => n,
            Err(e) => {
                return Err(e.under(String::from_str("id")));
            },
        };
        Ok(ResourceIdentifierObject { rtype, id, meta })
    }
}

/// A resource object.  `id` is optional only for client-originated
/// creation documents; the model accepts that case unconditionally since
/// it cannot know the request direction.
#[derive(Debug, PartialEq, Eq)]
pub struct ResourceObject {
    pub rtype: Name,
    pub id: Option<Name>,
    pub attributes: Option<Attributes>,
    pub relationships: Option<Relationships>,
    pub links: Option<Links>,
    pub meta: Option<Meta>,
}

impl ResourceObject {
    /// Validates `rtype`, and `id` when present, as member names.
    pub fn new(
        rtype: String,
        id: Option<String>,
        attributes: Option<Attributes>,
        relationships: Option<Relationships>,
        links: Option<Links>,
        meta: Option<Meta>,
    ) -> (r: Result<ResourceObject, DocError>)
        ensures
            (valid_name(rtype@) && (id matches Some(i) ==> valid_name(i@))) <==> r is Ok,
            r matches Ok(x) ==> {
                &&& x.rtype@ == rtype@
                &&& (match (x.id, id) {
                    (Some(n), Some(s)) => n@ == s@,
                    (None, None) => true,
                    _ => false,
                })
                &&& x.attributes == attributes
                &&& x.relationships == relationships
                &&& x.links == links
                &&& x.meta == meta
            },
            r matches Err(e) ==> {
                &&& e.kind == ErrorKind::InvalidMemberName
                &&& e.path@.len() == 1
                &&& e.path@[0]@ == (if !valid_name(rtype@) {
                    "type"@
                } else {
                    "id"@
                })
            },
    {
        let rtype = match Name::new(rtype) {
            Ok(n) => n,
            Err(e) => {
                return Err(e.under(String::from_str("type")));
            },
        };
        let id = match id {
            Some(s) => match Name::new(s) {
                Ok(n) => Some(n),
                Err(e) => {
                    return Err(e.under(String::from_str("id")));
                },
            },
            None => None,
        };
        Ok(ResourceObject { rtype, id, attributes, relationships, links, meta })
    }
}

/// The document's primary data: null, one resource, one identifier, an
/// array of resources, or an array of identifiers.  An empty array is
/// distinct from null.
#[derive(Debug, PartialEq, Eq)]
pub enum PrimaryData {
    Null,
    Single(ResourceObject),
    SingleIdentifier(ResourceIdentifierObject),
    Array(Vec<ResourceObject>),
    ArrayIdentifier(Vec<ResourceIdentifierObject>),
}

/// The source of an error object.
#[derive(Debug, PartialEq, Eq)]
pub struct ErrorSource {
    pub pointer: Option<String>,
    pub parameter: Option<String>,
}

/// One member of a document's `errors` array.  Every field is optional; an
/// empty error object is valid.
#[derive(Debug, PartialEq, Eq, Default)]
pub struct ErrorObject {
    pub id: Option<String>,
    pub links: Option<Links>,
    pub status: Option<String>,
    pub code: Option<String>,
    pub title: Option<String>,
    pub detail: Option<String>,
    pub source: Option<ErrorSource>,
    pub meta: Option<Meta>,
}

/// The top-level document.  The union itself enforces that `data` and
/// `errors` cannot coexist and that `included` can only accompany `data`;
/// a document with neither carries only `meta`.
#[derive(Debug, PartialEq, Eq)]
pub enum Document {
    Data {
        jsonapi: Option<JsonApiObject>,
        data: PrimaryData,
        links: Option<Links>,
        meta: Option<Meta>,
        included: Vec<ResourceObject>,
    },
    Errors {
        jsonapi: Option<JsonApiObject>,
        errors: Vec<ErrorObject>,
        links: Option<Links>,
        meta: Option<Meta>,
    },
    Info { jsonapi: Option<JsonApiObject>, meta: Meta, links: Option<Links> },
}

} // verus!
