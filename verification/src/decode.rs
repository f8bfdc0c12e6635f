//! Decoding: from the untyped JSON value tree to a validated [`Document`].
//!
//! The decoder either returns a fully valid document or fails atomically
//! with the first violation it meets, reporting the violation's kind and
//! the path to the offending member.  The top-level rules are checked
//! before any member is decoded: `data` and `errors` must not coexist, one
//! of `data`, `errors` and `meta` is required, and `included` is rejected
//! without `data`.

use vstd::prelude::*;

use crate::error::DocError;
use crate::error::ErrorKind;
use crate::json::first_entry;
use crate::json::has_key;
use crate::json::str_eq;
use crate::json::JsonValue;
use crate::linkage::check_full_linkage;
use crate::linkage::fully_linked;
use crate::model::Attributes;
use crate::model::Document;
use crate::model::ErrorObject;
use crate::model::ErrorSource;
use crate::model::JsonApiObject;
use crate::model::Link;
use crate::model::Links;
use crate::model::Meta;
use crate::model::PrimaryData;
use crate::model::Relationship;
use crate::model::Relationships;
use crate::model::ResourceIdentifierObject;
use crate::model::ResourceLinkage;
use crate::model::ResourceObject;
use crate::json::remove_first;
use crate::model::attr_key_ok;
use crate::name::is_valid_name;
use crate::name::valid_name;
use crate::name::Name;

verus! {

broadcast use vstd::string::group_string_axioms;

/// An object is identifier-shaped when its keys are a subset of `type`,
/// `id` and `meta`.
pub open spec fn id_shaped(fs: Seq<(String, JsonValue)>) -> bool {
    forall|i: int|
        0 <= i < fs.len() ==> {
            ||| (#[trigger] fs[i].0@) == "type"@
            ||| fs[i].0@ == "id"@
            ||| fs[i].0@ == "meta"@
        }
}

/// An element of a `data` array is identifier-shaped when it is an
/// identifier-shaped object.
pub open spec fn value_id_shaped(v: JsonValue) -> bool {
    match v {
        JsonValue::Obj(fs) => id_shaped(fs@),
        _ => false,
    }
}

/// A member value that is a string spelling a valid member name.
pub open spec fn is_valid_name_text(v: JsonValue) -> bool {
    v matches JsonValue::Text(t) && valid_name(t@)
}

/// An optional meta value against an optional `meta` member: present on
/// both sides with the same members, or absent on both.
pub open spec fn opt_meta_entry(m: Option<Meta>, e: Option<JsonValue>) -> bool {
    match (m, e) {
        (Some(m2), Some(w)) => w == JsonValue::Obj(m2.entries),
        (None, None) => true,
        _ => false,
    }
}

/// The inputs a resource identifier object decodes from: required `type`
/// and `id` members spelling valid names, an optional `meta` object, and
/// nothing else.
pub open spec fn rio_ok(v: JsonValue) -> bool {
    match v {
        JsonValue::Obj(fs) => {
            &&& (first_entry(fs@, "type"@) matches Some(tv) && is_valid_name_text(tv))
            &&& (first_entry(fs@, "id"@) matches Some(iv) && is_valid_name_text(iv))
            &&& (first_entry(fs@, "meta"@) matches Some(mv) ==> mv matches JsonValue::Obj(_))
            &&& remove_first(remove_first(remove_first(fs@, "type"@), "id"@), "meta"@).len() == 0
        },
        _ => false,
    }
}

/// The inputs a link decodes from: a URL string, or a link object with a
/// required string `href`, an optional `meta` object, and nothing else.
pub open spec fn link_ok(v: JsonValue) -> bool {
    match v {
        JsonValue::Text(_) => true,
        JsonValue::Obj(fs) => {
            &&& (first_entry(fs@, "href"@) matches Some(hv) && hv matches JsonValue::Text(_))
            &&& (first_entry(fs@, "meta"@) matches Some(mv) ==> mv matches JsonValue::Obj(_))
            &&& remove_first(remove_first(fs@, "href"@), "meta"@).len() == 0
        },
        _ => false,
    }
}

/// How a link relates to the value that carries it.
pub open spec fn link_repr(l: Link, v: JsonValue) -> bool {
    match l {
        Link::Url(s) => v == JsonValue::Text(s),
        Link::Object { href, meta } => match v {
            JsonValue::Obj(fs) => {
                &&& (first_entry(fs@, "href"@) matches Some(hv) && hv matches JsonValue::Text(h)
                    && h@ == href@)
                &&& opt_meta_entry(meta, first_entry(fs@, "meta"@))
            },
            _ => false,
        },
    }
}

/// The inputs a `jsonapi` object decodes from.
pub open spec fn jsonapi_ok(v: JsonValue) -> bool {
    match v {
        JsonValue::Obj(fs) => {
            &&& (first_entry(fs@, "version"@) matches Some(sv) ==> sv matches JsonValue::Text(_))
            &&& (first_entry(fs@, "meta"@) matches Some(mv) ==> mv matches JsonValue::Obj(_))
            &&& remove_first(remove_first(fs@, "version"@), "meta"@).len() == 0
        },
        _ => false,
    }
}

/// How a `jsonapi` object relates to the value that carries it.
pub open spec fn jsonapi_repr(j: JsonApiObject, v: JsonValue) -> bool {
    match v {
        JsonValue::Obj(fs) => {
            &&& (match j.version {
                Some(s) => first_entry(fs@, "version"@) matches Some(sv) && sv matches
                    JsonValue::Text(t) && t@ == s@,
                None => first_entry(fs@, "version"@) is None,
            })
            &&& opt_meta_entry(j.meta, first_entry(fs@, "meta"@))
        },
        _ => false,
    }
}

/// The inputs an error source decodes from.
pub open spec fn source_ok(v: JsonValue) -> bool {
    match v {
        JsonValue::Obj(fs) => {
            &&& (first_entry(fs@, "pointer"@) matches Some(sv) ==> sv matches JsonValue::Text(_))
            &&& (first_entry(fs@, "parameter"@) matches Some(sv) ==> sv matches JsonValue::Text(_))
            &&& remove_first(remove_first(fs@, "pointer"@), "parameter"@).len() == 0
        },
        _ => false,
    }
}

/// An optional string field against an optional string member.
pub open spec fn opt_text_entry(s: Option<String>, e: Option<JsonValue>) -> bool {
    match (s, e) {
        (Some(t), Some(w)) => w == JsonValue::Text(t),
        (None, None) => true,
        _ => false,
    }
}

/// How an error source relates to the value that carries it.
pub open spec fn source_repr(s: ErrorSource, v: JsonValue) -> bool {
    match v {
        JsonValue::Obj(fs) => {
            &&& opt_text_entry(s.pointer, first_entry(fs@, "pointer"@))
            &&& opt_text_entry(s.parameter, first_entry(fs@, "parameter"@))
        },
        _ => false,
    }
}

/// The inputs an attributes object decodes from: an object whose every
/// key is a valid, non-reserved member name.
pub open spec fn attrs_ok(v: JsonValue) -> bool {
    match v {
        JsonValue::Obj(fs) => forall|i: int|
            0 <= i < fs@.len() ==> attr_key_ok((#[trigger] fs@[i].0)@),
        _ => false,
    }
}

/// How an attributes object relates to the value that carries it.
pub open spec fn attrs_repr(a: Attributes, v: JsonValue) -> bool {
    match v {
        JsonValue::Obj(fs) => a@ == fs@.map_values(|e: (String, JsonValue)| (e.0@, e.1)),
        _ => false,
    }
}

/// The inputs a resource linkage decodes from: `null`, one identifier
/// object, or an array of identifier objects.
pub open spec fn linkage_ok(v: JsonValue) -> bool {
    match v {
        JsonValue::Null => true,
        JsonValue::Obj(_) => rio_ok(v),
        JsonValue::Arr(es) => forall|i: int| 0 <= i < es@.len() ==> rio_ok(#[trigger] es@[i]),
        _ => false,
    }
}

/// How a resource linkage relates to the value that carries it.
pub open spec fn linkage_repr(l: ResourceLinkage, v: JsonValue) -> bool {
    match l {
        ResourceLinkage::Null => v == JsonValue::Null,
        ResourceLinkage::Single(x) => rio_members(x, v),
        ResourceLinkage::Array(xs) => match v {
            JsonValue::Arr(es) => xs@.len() == es@.len() && forall|i: int|
                0 <= i < xs@.len() ==> rio_members(#[trigger] xs@[i], es@[i]),
            _ => false,
        },
    }
}

/// The inputs a links object decodes from: every member name valid,
/// every value a link.
pub open spec fn links_ok(v: JsonValue) -> bool {
    match v {
        JsonValue::Obj(fs) => forall|i: int|
            0 <= i < fs@.len() ==> valid_name((#[trigger] fs@[i].0)@) && link_ok(fs@[i].1),
        _ => false,
    }
}

/// How a links object relates to the value that carries it: same names in
/// the same order, each value the member's link.
pub open spec fn links_repr(ls: Links, v: JsonValue) -> bool {
    match v {
        JsonValue::Obj(fs) => ls.entries@.len() == fs@.len() && forall|i: int|
            0 <= i < fs@.len() ==> (#[trigger] ls.entries@[i]).0@ == fs@[i].0@ && link_repr(
                ls.entries@[i].1,
                fs@[i].1,
            ),
        _ => false,
    }
}

/// An optional links object against an optional `links` member.
pub open spec fn opt_links_entry(ls: Option<Links>, e: Option<JsonValue>) -> bool {
    match (ls, e) {
        (Some(l2), Some(w)) => links_repr(l2, w),
        (None, None) => true,
        _ => false,
    }
}

/// The inputs one relationship object decodes from: optional `links`,
/// `data` and `meta` members, each well formed, and nothing else.
pub open spec fn relationship_ok(v: JsonValue) -> bool {
    match v {
        JsonValue::Obj(fs) => {
            &&& (first_entry(fs@, "links"@) matches Some(lv) ==> links_ok(lv))
            &&& (first_entry(fs@, "data"@) matches Some(dv) ==> linkage_ok(dv))
            &&& (first_entry(fs@, "meta"@) matches Some(mv) ==> mv matches JsonValue::Obj(_))
            &&& remove_first(remove_first(remove_first(fs@, "links"@), "data"@), "meta"@).len()
                == 0
        },
        _ => false,
    }
}

/// An optional linkage against an optional `data` member.
pub open spec fn opt_linkage_entry(l: Option<ResourceLinkage>, e: Option<JsonValue>) -> bool {
    match (l, e) {
        (Some(l2), Some(w)) => linkage_repr(l2, w),
        (None, None) => true,
        _ => false,
    }
}

/// How a relationship object relates to the value that carries it.
pub open spec fn relationship_repr(rel: Relationship, v: JsonValue) -> bool {
    match v {
        JsonValue::Obj(fs) => {
            &&& opt_links_entry(rel.links, first_entry(fs@, "links"@))
            &&& opt_linkage_entry(rel.data, first_entry(fs@, "data"@))
            &&& opt_meta_entry(rel.meta, first_entry(fs@, "meta"@))
        },
        _ => false,
    }
}

/// The inputs a relationships object decodes from.
pub open spec fn relationships_ok(v: JsonValue) -> bool {
    match v {
        JsonValue::Obj(fs) => forall|i: int|
            0 <= i < fs@.len() ==> valid_name((#[trigger] fs@[i].0)@) && relationship_ok(
                fs@[i].1,
            ),
        _ => false,
    }
}

/// How a relationships object relates to the value that carries it.
pub open spec fn relationships_repr(rels: Relationships, v: JsonValue) -> bool {
    match v {
        JsonValue::Obj(fs) => rels.entries@.len() == fs@.len() && forall|i: int|
            0 <= i < fs@.len() ==> (#[trigger] rels.entries@[i]).0@ == fs@[i].0@
                && relationship_repr(rels.entries@[i].1, fs@[i].1),
        _ => false,
    }
}

/// An optional source against an optional `source` member.
pub open spec fn opt_source_entry(s: Option<ErrorSource>, e: Option<JsonValue>) -> bool {
    match (s, e) {
        (Some(s2), Some(w)) => source_repr(s2, w),
        (None, None) => true,
        _ => false,
    }
}

/// The members left after taking an error object's eight members.
pub open spec fn error_rest(fs: Seq<(String, JsonValue)>) -> Seq<(String, JsonValue)> {
    remove_first(
        remove_first(
            remove_first(
                remove_first(
                    remove_first(
                        remove_first(
                            remove_first(remove_first(fs, "id"@), "links"@),
                            "status"@,
                        ),
                        "code"@,
                    ),
                    "title"@,
                ),
                "detail"@,
            ),
            "source"@,
        ),
        "meta"@,
    )
}

/// The inputs one error object decodes from: its five string members,
/// `links`, `source` and `meta` all optional and well formed, nothing
/// else.
pub open spec fn error_ok(v: JsonValue) -> bool {
    match v {
        JsonValue::Obj(fs) => {
            &&& (first_entry(fs@, "id"@) matches Some(w) ==> w matches JsonValue::Text(_))
            &&& (first_entry(fs@, "status"@) matches Some(w) ==> w matches JsonValue::Text(_))
            &&& (first_entry(fs@, "code"@) matches Some(w) ==> w matches JsonValue::Text(_))
            &&& (first_entry(fs@, "title"@) matches Some(w) ==> w matches JsonValue::Text(_))
            &&& (first_entry(fs@, "detail"@) matches Some(w) ==> w matches JsonValue::Text(_))
            &&& (first_entry(fs@, "links"@) matches Some(w) ==> links_ok(w))
            &&& (first_entry(fs@, "source"@) matches Some(w) ==> source_ok(w))
            &&& (first_entry(fs@, "meta"@) matches Some(w) ==> w matches JsonValue::Obj(_))
            &&& error_rest(fs@).len() == 0
        },
        _ => false,
    }
}

/// How an error object relates to the value that carries it.
pub open spec fn error_repr(e: ErrorObject, v: JsonValue) -> bool {
    match v {
        JsonValue::Obj(fs) => {
            &&& opt_text_entry(e.id, first_entry(fs@, "id"@))
            &&& opt_text_entry(e.status, first_entry(fs@, "status"@))
            &&& opt_text_entry(e.code, first_entry(fs@, "code"@))
            &&& opt_text_entry(e.title, first_entry(fs@, "title"@))
            &&& opt_text_entry(e.detail, first_entry(fs@, "detail"@))
            &&& opt_links_entry(e.links, first_entry(fs@, "links"@))
            &&& opt_source_entry(e.source, first_entry(fs@, "source"@))
            &&& opt_meta_entry(e.meta, first_entry(fs@, "meta"@))
        },
        _ => false,
    }
}

/// The inputs the `errors` array decodes from.
pub open spec fn errors_ok(v: JsonValue) -> bool {
    match v {
        JsonValue::Arr(es) => forall|i: int| 0 <= i < es@.len() ==> error_ok(#[trigger] es@[i]),
        _ => false,
    }
}

/// How a decoded `errors` array relates to the value that carries it.
pub open spec fn errors_repr(errs: Seq<ErrorObject>, v: JsonValue) -> bool {
    match v {
        JsonValue::Arr(es) => errs.len() == es@.len() && forall|i: int|
            0 <= i < errs.len() ==> error_repr(#[trigger] errs[i], es@[i]),
        _ => false,
    }
}

/// The members left after taking a resource object's six members.
pub open spec fn resource_rest(fs: Seq<(String, JsonValue)>) -> Seq<(String, JsonValue)> {
    remove_first(
        remove_first(
            remove_first(
                remove_first(remove_first(remove_first(fs, "type"@), "id"@), "attributes"@),
                "relationships"@,
            ),
            "links"@,
        ),
        "meta"@,
    )
}

/// The inputs a full resource object decodes from: a required `type`
/// name, an optional `id` name, optional well-formed `attributes`,
/// `relationships`, `links` and `meta`, and nothing else.
pub open spec fn resource_ok(v: JsonValue) -> bool {
    match v {
        JsonValue::Obj(fs) => {
            &&& (first_entry(fs@, "type"@) matches Some(tv) && is_valid_name_text(tv))
            &&& (first_entry(fs@, "id"@) matches Some(iv) ==> is_valid_name_text(iv))
            &&& (first_entry(fs@, "attributes"@) matches Some(av) ==> attrs_ok(av))
            &&& (first_entry(fs@, "relationships"@) matches Some(rv) ==> relationships_ok(rv))
            &&& (first_entry(fs@, "links"@) matches Some(lv) ==> links_ok(lv))
            &&& (first_entry(fs@, "meta"@) matches Some(mv) ==> mv matches JsonValue::Obj(_))
            &&& resource_rest(fs@).len() == 0
        },
        _ => false,
    }
}

/// An optional attributes object against an optional `attributes` member.
pub open spec fn opt_attrs_entry(a: Option<Attributes>, e: Option<JsonValue>) -> bool {
    match (a, e) {
        (Some(a2), Some(w)) => attrs_repr(a2, w),
        (None, None) => true,
        _ => false,
    }
}

/// An optional relationships object against an optional `relationships`
/// member.
pub open spec fn opt_rels_entry(rels: Option<Relationships>, e: Option<JsonValue>) -> bool {
    match (rels, e) {
        (Some(r2), Some(w)) => relationships_repr(r2, w),
        (None, None) => true,
        _ => false,
    }
}

/// How a full resource object relates to the value that carries it.
pub open spec fn resource_repr(ro: ResourceObject, v: JsonValue) -> bool {
    match v {
        JsonValue::Obj(fs) => {
            &&& (first_entry(fs@, "type"@) matches Some(tv) && tv matches JsonValue::Text(t) && t@
                == ro.rtype@)
            &&& (match ro.id {
                Some(n) => first_entry(fs@, "id"@) matches Some(iv) && iv matches JsonValue::Text(
                    u,
                ) && u@ == n@,
                None => first_entry(fs@, "id"@) is None,
            })
            &&& opt_attrs_entry(ro.attributes, first_entry(fs@, "attributes"@))
            &&& opt_rels_entry(ro.relationships, first_entry(fs@, "relationships"@))
            &&& opt_links_entry(ro.links, first_entry(fs@, "links"@))
            &&& opt_meta_entry(ro.meta, first_entry(fs@, "meta"@))
        },
        _ => false,
    }
}

/// The inputs an array of full resource objects decodes from.
pub open spec fn resources_ok(v: JsonValue) -> bool {
    match v {
        JsonValue::Arr(es) => forall|i: int| 0 <= i < es@.len() ==> resource_ok(#[trigger] es@[i]),
        _ => false,
    }
}

/// How a decoded resource array relates to the value that carries it.
pub open spec fn resources_repr(ros: Seq<ResourceObject>, v: JsonValue) -> bool {
    match v {
        JsonValue::Arr(es) => ros.len() == es@.len() && forall|i: int|
            0 <= i < ros.len() ==> resource_repr(#[trigger] ros[i], es@[i]),
        _ => false,
    }
}

/// Removes and returns the first member named `k`, leaving every other
/// member name's presence unchanged.
#[verifier::loop_isolation(false)]
fn take_key(fields: &mut Vec<(String, JsonValue)>, k: &str) -> (r: Option<JsonValue>)
    ensures
        (r is Some) == has_key(old(fields)@, k@),
        r == first_entry(old(fields)@, k@),
        final(fields)@ == crate::json::remove_first(old(fields)@, k@),
        forall|k2: Seq<char>|
            k2 != k@ ==> has_key(final(fields)@, k2) == has_key(old(fields)@, k2),
        forall|k2: Seq<char>|
            k2 != k@ ==> first_entry(final(fields)@, k2) == first_entry(old(fields)@, k2),
{
    let mut i: usize = 0;
    proof {
        assert(old(fields)@.skip(0) =~= old(fields)@);
    }
    while i < fields.len()
        invariant
            i <= fields@.len(),
            fields@ == old(fields)@,
            forall|j: int| 0 <= j < i ==> (#[trigger] fields@[j].0)@ != k@,
            first_entry(old(fields)@, k@) == first_entry(old(fields)@.skip(i as int), k@),
        decreases fields@.len() - i,
    {
        if str_eq(fields[i].0.as_str(), k) {
            let ghost pre = fields@;
            let ghost ii = i as int;
            let (_, val) = fields.remove(i);
            proof {
                assert(has_key(old(fields)@, k@));
                assert(pre.skip(ii)[0] == pre[ii]);
                assert(first_entry(pre.skip(ii), k@) == Some(pre[ii].1));
                crate::json::lemma_remove_at_first_match(pre, ii, k@);
                assert forall|k2: Seq<char>| k2 != k@ implies has_key(fields@, k2) == has_key(
                    pre,
                    k2,
                ) && first_entry(fields@, k2) == first_entry(pre, k2) by {
                    assert(fields@ == pre.remove(ii));
                    crate::json::lemma_first_entry_remove(pre, ii, k2);
                    if has_key(pre, k2) {
                        let j = choose|j: int| 0 <= j < pre.len() && (#[trigger] pre[j].0)@ == k2;
                        if j < ii {
                            assert(fields@[j].0@ == k2);
                        } else {
                            assert(j != ii);
                            assert(fields@[j - 1] == pre[j]);
                            assert(fields@[j - 1].0@ == k2);
                        }
                    }
                    if has_key(fields@, k2) {
                        let j = choose|j: int|
                            0 <= j < fields@.len() && (#[trigger] fields@[j].0)@ == k2;
                        if j < ii {
                            assert(pre[j].0@ == k2);
                        } else {
                            assert(pre[j + 1].0@ == k2);
                        }
                    }
                }
            }
            return Some(val);
        }
        proof {
            let ghost ii = i as int;
            assert(fields@.skip(ii)[0] == fields@[ii]);
            assert(fields@.skip(ii).drop_first() =~= fields@.skip(ii + 1));
        }
        i += 1;
    }
    proof {
        assert(fields@.skip(fields@.len() as int) =~= Seq::<(String, JsonValue)>::empty());
        crate::json::lemma_remove_first_absent(fields@, k@);
        if has_key(fields@, k@) {
            let j = choose|j: int|
                0 <= j < fields@.len() && (#[trigger] fields@[j].0)@ == k@;
            assert(false);
        }
    }
    None
}

/// The character of one decimal digit.
pub open spec fn dec_digit(d: int) -> char {
    if d == 0 {
        '0'
    } else if d == 1 {
        '1'
    } else if d == 2 {
        '2'
    } else if d == 3 {
        '3'
    } else if d == 4 {
        '4'
    } else if d == 5 {
        '5'
    } else if d == 6 {
        '6'
    } else if d == 7 {
        '7'
    } else if d == 8 {
        '8'
    } else {
        '9'
    }
}

/// The decimal text of a non-negative number.
pub open spec fn dec_text(n: int) -> Seq<char>
    decreases n,
{
    if n < 10 {
        seq![dec_digit(n)]
    } else {
        dec_text(n / 10) + seq![dec_digit(n % 10)]
    }
}

/// The text read off a digit stack, last pushed first.
spec fn stack_text(s: Seq<&str>) -> Seq<char>
    decreases s.len(),
{
    if s.len() == 0 {
        Seq::empty()
    } else {
        s.last()@ + stack_text(s.drop_last())
    }
}

/// The decimal text of an array index, for error paths.
#[verifier::loop_isolation(false)]
fn seg_of_index(n: usize) -> (r: String)
    ensures
        r@ == dec_text(n as int),
{
    proof {
        reveal_strlit("0");
        reveal_strlit("1");
        reveal_strlit("2");
        reveal_strlit("3");
        reveal_strlit("4");
        reveal_strlit("5");
        reveal_strlit("6");
        reveal_strlit("7");
        reveal_strlit("8");
        reveal_strlit("9");
        assert("0"@ =~= seq!['0']);
        assert("1"@ =~= seq!['1']);
        assert("2"@ =~= seq!['2']);
        assert("3"@ =~= seq!['3']);
        assert("4"@ =~= seq!['4']);
        assert("5"@ =~= seq!['5']);
        assert("6"@ =~= seq!['6']);
        assert("7"@ =~= seq!['7']);
        assert("8"@ =~= seq!['8']);
        assert("9"@ =~= seq!['9']);
    }
    if n == 0 {
        proof {
            assert(dec_text(0) =~= "0"@);
        }
        return String::from_str("0");
    }
    let mut m = n;
    let mut stack: Vec<&str> = Vec::new();
    proof {
        assert(dec_text(n as int) =~= dec_text(n as int) + stack_text(stack@));
    }
    while m > 0
        invariant
            dec_text(n as int) =~= (if m > 0 {
                dec_text(m as int) + stack_text(stack@)
            } else {
                stack_text(stack@)
            }),
        decreases m,
    {
        let ghost m0 = m as int;
        let ghost st0 = stack@;
        let d = m % 10;
        let ds = if d == 0 {
            "0"
        } else if d == 1 {
            "1"
        } else if d == 2 {
            "2"
        } else if d == 3 {
            "3"
        } else if d == 4 {
            "4"
        } else if d == 5 {
            "5"
        } else if d == 6 {
            "6"
        } else if d == 7 {
            "7"
        } else if d == 8 {
            "8"
        } else {
            "9"
        };
        proof {
            assert(ds@ =~= seq![dec_digit(m0 % 10)]);
        }
        stack.push(ds);
        m = m / 10;
        proof {
            assert(stack@.drop_last() =~= st0);
            assert(stack_text(stack@) =~= ds@ + stack_text(st0));
            if m > 0 {
                assert(dec_text(m0) =~= dec_text(m as int) + seq![dec_digit(m0 % 10)]);
                assert(dec_text(n as int) =~= dec_text(m as int) + stack_text(stack@));
            } else {
                assert(dec_text(m0) =~= seq![dec_digit(m0)]);
                assert(dec_text(n as int) =~= stack_text(stack@));
            }
        }
    }
    let mut s = String::new();
    while stack.len() > 0
        invariant
            dec_text(n as int) =~= s@ + stack_text(stack@),
        decreases stack@.len(),
    {
        let ghost st0 = stack@;
        let d = stack.pop().unwrap();
        s.append(d);
        proof {
            assert(stack_text(st0) =~= d@ + stack_text(stack@));
            assert(dec_text(n as int) =~= s@ + stack_text(stack@));
        }
    }
    proof {
        assert(dec_text(n as int) =~= s@);
    }
    s
}

/// Decodes a meta object: any JSON object, carried verbatim.
pub fn decode_meta(v: JsonValue) -> (r: Result<Meta, DocError>)
    ensures
        v matches JsonValue::Obj(fs) ==> r == Ok::<Meta, DocError>(Meta { entries: fs }),
        !(v matches JsonValue::Obj(_)) ==> (r matches Err(e) && e.kind == ErrorKind::UnexpectedJsonType),
        r matches Err(e) ==> e.kind != ErrorKind::UnlinkedIncludedResource,
{
    match v {
        JsonValue::Obj(fs) => Ok(Meta { entries: fs }),
        _ => Err(DocError::at_root(ErrorKind::UnexpectedJsonType)),
    }
}

/// Decodes a link: a URL string, or a link object whose `href` is
/// required (`MalformedLink` otherwise) and whose only other member may be
/// `meta`.
pub fn decode_link(v: JsonValue) -> (r: Result<Link, DocError>)
    ensures
        v matches JsonValue::Text(s) ==> r == Ok::<Link, DocError>(Link::Url(s)),
        !(v matches JsonValue::Text(_) || v matches JsonValue::Obj(_)) ==> (r matches Err(e) && e.kind
            == ErrorKind::UnexpectedJsonType),
        r is Ok <==> link_ok(v),
        r matches Ok(l) ==> link_repr(l, v),
        r matches Err(e) ==> e.kind != ErrorKind::UnlinkedIncludedResource,
{
    let ghost v0 = v;
    match v {
        JsonValue::Text(s) => Ok(Link::Url(s)),
        JsonValue::Obj(mut fields) => {
            let ghost g = fields@;
            let href_v = take_key(&mut fields, "href");
            let meta_v = take_key(&mut fields, "meta");
            proof {
                crate::json::lemma_misc_keys();
                assert(href_v == first_entry(g, "href"@));
                assert(meta_v == first_entry(g, "meta"@));
                assert(fields@ == remove_first(remove_first(g, "href"@), "meta"@));
            }
            if fields.len() > 0 {
                let (k, _) = fields.remove(0);
                let mut path: Vec<String> = Vec::new();
                path.push(k);
                return Err(DocError { kind: ErrorKind::UnknownFieldRejected, path });
            }
            let href = match href_v {
                Some(JsonValue::Text(s)) => s,
                Some(_) => {
                    return Err(
                        DocError::at_root(ErrorKind::UnexpectedJsonType).under(
                            String::from_str("href"),
                        ),
                    );
                },
                None => {
                    return Err(DocError::at_root(ErrorKind::MalformedLink));
                },
            };
            let meta = match meta_v {
                Some(mv) => {
                    let ghost gmv = mv;
                    match decode_meta(mv) {
                        Ok(m) => {
                            proof {
                                assert(gmv matches JsonValue::Obj(_));
                                assert(JsonValue::Obj(m.entries) == gmv);
                            }
                            Some(m)
                        },
                        Err(e) => {
                            return Err(e.under(String::from_str("meta")));
                        },
                    }
                },
                None => None,
            };
            Ok(Link::Object { href, meta })
        },
        _ => Err(DocError::at_root(ErrorKind::UnexpectedJsonType)),
    }
}

/// Decodes a links object: member names validated against the grammar,
/// each value a link.
#[verifier::loop_isolation(false)]
pub fn decode_links(v: JsonValue) -> (r: Result<Links, DocError>)
    ensures
        !(v matches JsonValue::Obj(_)) ==> (r matches Err(e) && e.kind == ErrorKind::UnexpectedJsonType),
        r is Ok ==> links_ok(v),
        links_ok(v) ==> r is Ok,
        r matches Ok(ls) ==> links_repr(ls, v),
        r matches Err(e) ==> e.kind != ErrorKind::UnlinkedIncludedResource,
{
    let ghost v0 = v;
    let mut fields = match v {
        JsonValue::Obj(fs) => fs,
        _ => {
            return Err(DocError::at_root(ErrorKind::UnexpectedJsonType));
        },
    };
    let ghost orig = fields@;
    let mut entries: Vec<(Name, Link)> = Vec::new();
    while fields.len() > 0
        invariant
            entries@.len() + fields@.len() == orig.len(),
            forall|j: int|
                0 <= j < fields@.len() ==> #[trigger] fields@[j] == orig[j + entries@.len()],
            forall|j: int|
                0 <= j < entries@.len() ==> valid_name((#[trigger] orig[j].0)@) && link_ok(
                    orig[j].1,
                ) && entries@[j].0@ == orig[j].0@ && link_repr(entries@[j].1, orig[j].1),
        decreases fields@.len(),
    {
        let ghost done = entries@.len() as int;
        let ghost prev = fields@;
        let (k, lv) = fields.remove(0);
        proof {
            assert(k == orig[done].0 && lv == orig[done].1);
            assert(forall|j: int| 0 <= j < fields@.len() ==> #[trigger] fields@[j] == prev[j + 1]);
        }
        if !is_valid_name(k.as_str()) {
            proof {
                assert(!valid_name((orig[done].0)@));
            }
            let mut path: Vec<String> = Vec::new();
            path.push(k);
            return Err(DocError { kind: ErrorKind::InvalidMemberName, path });
        }
        let link = match decode_link(lv) {
            Ok(l) => l,
            Err(e) => {
                proof {
                    assert(!link_ok(orig[done].1));
                }
                return Err(e.under(k));
            },
        };
        let name = match Name::new(k) {
            Ok(n) => n,
            Err(e) => {
                return Err(e);
            },
        };
        entries.push((name, link));
    }
    proof {
        assert forall|i: int| 0 <= i < entries@.len() implies (#[trigger] entries@[i]).0@
            == orig[i].0@ && link_repr(entries@[i].1, orig[i].1) by {
            assert(valid_name((orig[i].0)@));
        }
    }
    Ok(Links { entries })
}

/// Decodes the `jsonapi` object: an optional `version` string and
/// optional meta, nothing else.
pub fn decode_jsonapi(v: JsonValue) -> (r: Result<JsonApiObject, DocError>)
    ensures
        !(v matches JsonValue::Obj(_)) ==> (r matches Err(e) && e.kind == ErrorKind::UnexpectedJsonType),
        r is Ok <==> jsonapi_ok(v),
        r matches Ok(j) ==> jsonapi_repr(j, v),
        r matches Err(e) ==> e.kind != ErrorKind::UnlinkedIncludedResource,
{
    let ghost v0 = v;
    let mut fields = match v {
        JsonValue::Obj(fs) => fs,
        _ => {
            return Err(DocError::at_root(ErrorKind::UnexpectedJsonType));
        },
    };
    let ghost g = fields@;
    let version_v = take_key(&mut fields, "version");
    let meta_v = take_key(&mut fields, "meta");
    proof {
        crate::json::lemma_misc_keys();
        assert(version_v == first_entry(g, "version"@));
        assert(meta_v == first_entry(g, "meta"@));
        assert(fields@ == remove_first(remove_first(g, "version"@), "meta"@));
    }
    if fields.len() > 0 {
        let (k, _) = fields.remove(0);
        let mut path: Vec<String> = Vec::new();
        path.push(k);
        return Err(DocError { kind: ErrorKind::UnknownFieldRejected, path });
    }
    let version = match version_v {
        Some(JsonValue::Text(s)) => Some(s),
        Some(_) => {
            return Err(
                DocError::at_root(ErrorKind::UnexpectedJsonType).under(String::from_str("version")),
            );
        },
        None => None,
    };
    let meta = match meta_v {
        Some(mv) => {
            let ghost gmv = mv;
            match decode_meta(mv) {
                Ok(m) => {
                    proof {
                        assert(gmv matches JsonValue::Obj(_));
                        assert(JsonValue::Obj(m.entries) == gmv);
                    }
                    Some(m)
                },
                Err(e) => {
                    return Err(e.under(String::from_str("meta")));
                },
            }
        },
        None => None,
    };
    Ok(JsonApiObject { version, meta })
}

/// Takes an optional string member out of its decoded JSON value.
fn expect_opt_string(v: Option<JsonValue>, seg: &str) -> (r: Result<Option<String>, DocError>)
    ensures
        r is Ok <==> (v matches Some(w) ==> w matches JsonValue::Text(_)),
        r matches Ok(o) ==> opt_text_entry(o, v),
        r matches Err(e) ==> e.kind != ErrorKind::UnlinkedIncludedResource,
{
    match v {
        Some(JsonValue::Text(s)) => Ok(Some(s)),
        Some(_) => Err(DocError::at_root(ErrorKind::UnexpectedJsonType).under(String::from_str(seg))),
        None => Ok(None),
    }
}

/// Decodes an error object's `source`.
pub fn decode_error_source(v: JsonValue) -> (r: Result<ErrorSource, DocError>)
    ensures
        !(v matches JsonValue::Obj(_)) ==> (r matches Err(e) && e.kind == ErrorKind::UnexpectedJsonType),
        r is Ok <==> source_ok(v),
        r matches Ok(es) ==> source_repr(es, v),
        r matches Err(e) ==> e.kind != ErrorKind::UnlinkedIncludedResource,
{
    let ghost v0 = v;
    let mut fields = match v {
        JsonValue::Obj(fs) => fs,
        _ => {
            return Err(DocError::at_root(ErrorKind::UnexpectedJsonType));
        },
    };
    let ghost g = fields@;
    let pointer_v = take_key(&mut fields, "pointer");
    let parameter_v = take_key(&mut fields, "parameter");
    proof {
        crate::json::lemma_misc_keys();
        assert(pointer_v == first_entry(g, "pointer"@));
        assert(parameter_v == first_entry(g, "parameter"@));
        assert(fields@ == remove_first(remove_first(g, "pointer"@), "parameter"@));
    }
    if fields.len() > 0 {
        let (k, _) = fields.remove(0);
        let mut path: Vec<String> = Vec::new();
        path.push(k);
        return Err(DocError { kind: ErrorKind::UnknownFieldRejected, path });
    }
    let pointer = match expect_opt_string(pointer_v, "pointer") {
        Ok(p) => p,
        Err(e) => {
            return Err(e);
        },
    };
    let parameter = match expect_opt_string(parameter_v, "parameter") {
        Ok(p) => p,
        Err(e) => {
            return Err(e);
        },
    };
    Ok(ErrorSource { pointer, parameter })
}

/// Decodes one member of the `errors` array.  Every field is optional.
pub fn decode_error_object(v: JsonValue) -> (r: Result<ErrorObject, DocError>)
    ensures
        !(v matches JsonValue::Obj(_)) ==> (r matches Err(e) && e.kind == ErrorKind::UnexpectedJsonType),
        r is Ok <==> error_ok(v),
        r matches Ok(eo) ==> error_repr(eo, v),
        r matches Err(e) ==> e.kind != ErrorKind::UnlinkedIncludedResource,
{
    let ghost v0 = v;
    let mut fields = match v {
        JsonValue::Obj(fs) => fs,
        _ => {
            return Err(DocError::at_root(ErrorKind::UnexpectedJsonType));
        },
    };
    let ghost g = fields@;
    let id_v = take_key(&mut fields, "id");
    let links_v = take_key(&mut fields, "links");
    let status_v = take_key(&mut fields, "status");
    let code_v = take_key(&mut fields, "code");
    let title_v = take_key(&mut fields, "title");
    let detail_v = take_key(&mut fields, "detail");
    let source_v = take_key(&mut fields, "source");
    let meta_v = take_key(&mut fields, "meta");
    proof {
        crate::json::lemma_error_keys();
        assert(id_v == first_entry(g, "id"@));
        assert(links_v == first_entry(g, "links"@));
        assert(status_v == first_entry(g, "status"@));
        assert(code_v == first_entry(g, "code"@));
        assert(title_v == first_entry(g, "title"@));
        assert(detail_v == first_entry(g, "detail"@));
        assert(source_v == first_entry(g, "source"@));
        assert(meta_v == first_entry(g, "meta"@));
        assert(fields@ == error_rest(g));
    }
    if fields.len() > 0 {
        let (k, _) = fields.remove(0);
        let mut path: Vec<String> = Vec::new();
        path.push(k);
        return Err(DocError { kind: ErrorKind::UnknownFieldRejected, path });
    }
    let id = match expect_opt_string(id_v, "id") {
        Ok(p) => p,
        Err(e) => {
            return Err(e);
        },
    };
    let status = match expect_opt_string(status_v, "status") {
        Ok(p) => p,
        Err(e) => {
            return Err(e);
        },
    };
    let code = match expect_opt_string(code_v, "code") {
        Ok(p) => p,
        Err(e) => {
            return Err(e);
        },
    };
    let title = match expect_opt_string(title_v, "title") {
        Ok(p) => p,
        Err(e) => {
            return Err(e);
        },
    };
    let detail = match expect_opt_string(detail_v, "detail") {
        Ok(p) => p,
        Err(e) => {
            return Err(e);
        },
    };
    let links = match links_v {
        Some(lv) => {
            let ghost glv = lv;
            match decode_links(lv) {
                Ok(l) => {
                    proof {
                        assert(links_ok(glv) && links_repr(l, glv));
                    }
                    Some(l)
                },
                Err(e) => {
                    return Err(e.under(String::from_str("links")));
                },
            }
        },
        None => None,
    };
    let source = match source_v {
        Some(sv) => {
            let ghost gsv = sv;
            match decode_error_source(sv) {
                Ok(s) => {
                    proof {
                        assert(source_ok(gsv) && source_repr(s, gsv));
                    }
                    Some(s)
                },
                Err(e) => {
                    return Err(e.under(String::from_str("source")));
                },
            }
        },
        None => None,
    };
    let meta = match meta_v {
        Some(mv) => {
            let ghost gmv = mv;
            match decode_meta(mv) {
                Ok(m) => {
                    proof {
                        assert(gmv matches JsonValue::Obj(_));
                        assert(JsonValue::Obj(m.entries) == gmv);
                    }
                    Some(m)
                },
                Err(e) => {
                    return Err(e.under(String::from_str("meta")));
                },
            }
        },
        None => None,
    };
    Ok(ErrorObject { id, links, status, code, title, detail, source, meta })
}

/// Decodes the `errors` array.
#[verifier::loop_isolation(false)]
pub fn decode_error_array(v: JsonValue) -> (r: Result<Vec<ErrorObject>, DocError>)
    ensures
        !(v matches JsonValue::Arr(_)) ==> (r matches Err(e) && e.kind == ErrorKind::UnexpectedJsonType),
        r is Ok <==> errors_ok(v),
        r matches Ok(es) ==> errors_repr(es@, v),
        r matches Err(e) ==> e.kind != ErrorKind::UnlinkedIncludedResource,
{
    let ghost v0 = v;
    let mut elems = match v {
        JsonValue::Arr(es) => es,
        _ => {
            return Err(DocError::at_root(ErrorKind::UnexpectedJsonType));
        },
    };
    let ghost orig = elems@;
    let mut out: Vec<ErrorObject> = Vec::new();
    let mut idx: usize = 0;
    let _n = elems.len();
    let ghost total = elems@.len();
    while elems.len() > 0
        invariant
            total <= usize::MAX,
            idx + elems@.len() == total,
            out@.len() == idx,
            forall|j: int| 0 <= j < elems@.len() ==> #[trigger] elems@[j] == orig[j + idx],
            forall|j: int|
                0 <= j < idx ==> error_ok(#[trigger] orig[j]) && error_repr(out@[j], orig[j]),
        decreases elems@.len(),
    {
        let ghost prev = elems@;
        let ev = elems.remove(0);
        proof {
            assert(ev == orig[idx as int]);
            assert(forall|j: int| 0 <= j < elems@.len() ==> #[trigger] elems@[j] == prev[j + 1]);
        }
        match decode_error_object(ev) {
            Ok(e) => {
                out.push(e);
            },
            Err(e) => {
                proof {
                    assert(!error_ok(orig[idx as int]));
                }
                return Err(e.under(seg_of_index(idx)));
            },
        }
        idx += 1;
    }
    Ok(out)
}

/// How an identifier relates to an object that carries it: the first
/// `type` and `id` members are strings spelling its names, and the first
/// `meta` member is exactly its meta object, present iff the identifier
/// has one.
pub open spec fn rio_members(x: ResourceIdentifierObject, v: JsonValue) -> bool {
    match v {
        JsonValue::Obj(fs) => {
            &&& (first_entry(fs@, "type"@) matches Some(tv) && tv matches JsonValue::Text(t) && t@
                == x.rtype@)
            &&& (first_entry(fs@, "id"@) matches Some(iv) && iv matches JsonValue::Text(u) && u@
                == x.id@)
            &&& (match x.meta {
                Some(m) => first_entry(fs@, "meta"@) == Some(JsonValue::Obj(m.entries)),
                None => first_entry(fs@, "meta"@) is None,
            })
        },
        _ => false,
    }
}

/// Round trip for resource identifier objects: an object determines the
/// identifier it carries, so the identifier the decoder reads off an
/// encoded identifier is the encoded one, member for member.
pub proof fn lemma_rio_round_trip(
    x: ResourceIdentifierObject,
    y: ResourceIdentifierObject,
    v: JsonValue,
)
    requires
        rio_members(x, v),
        rio_members(y, v),
    ensures
        x.rtype@ == y.rtype@,
        x.id@ == y.id@,
        match (x.meta, y.meta) {
            (Some(a), Some(b)) => a == b,
            (None, None) => true,
            _ => false,
        },
{
}

/// Decodes a resource identifier object: exactly `type` and `id` (both
/// required member names) and an optional `meta`.
pub fn decode_rio(v: JsonValue) -> (r: Result<ResourceIdentifierObject, DocError>)
    ensures
        !(v matches JsonValue::Obj(_)) ==> (r matches Err(e) && e.kind == ErrorKind::UnexpectedJsonType),
        r is Ok <==> rio_ok(v),
        r matches Ok(y) ==> rio_members(y, v),
        r matches Err(e) ==> e.kind != ErrorKind::UnlinkedIncludedResource,
{
    let ghost v0 = v;
    let mut fields = match v {
        JsonValue::Obj(fs) => fs,
        _ => {
            return Err(DocError::at_root(ErrorKind::UnexpectedJsonType));
        },
    };
    let type_v = take_key(&mut fields, "type");
    let id_v = take_key(&mut fields, "id");
    let meta_v = take_key(&mut fields, "meta");
    proof {
        crate::json::lemma_identifier_keys();
        assert(v0 matches JsonValue::Obj(g) ==> type_v == first_entry(g@, "type"@));
        assert(v0 matches JsonValue::Obj(g) ==> id_v == first_entry(g@, "id"@));
        assert(v0 matches JsonValue::Obj(g) ==> meta_v == first_entry(g@, "meta"@));
        assert(v0 matches JsonValue::Obj(g) ==> fields@ == remove_first(
            remove_first(remove_first(g@, "type"@), "id"@),
            "meta"@,
        ));
    }
    if fields.len() > 0 {
        let (k, _) = fields.remove(0);
        let mut path: Vec<String> = Vec::new();
        path.push(k);
        return Err(DocError { kind: ErrorKind::UnknownFieldRejected, path });
    }
    let rtype = match type_v {
        Some(JsonValue::Text(s)) => s,
        Some(_) => {
            return Err(
                DocError::at_root(ErrorKind::UnexpectedJsonType).under(String::from_str("type")),
            );
        },
        None => {
            return Err(DocError::at_root(ErrorKind::MissingMember).under(String::from_str("type")));
        },
    };
    let id = match id_v {
        Some(JsonValue::Text(s)) => s,
        Some(_) => {
            return Err(
                DocError::at_root(ErrorKind::UnexpectedJsonType).under(String::from_str("id")),
            );
        },
        None => {
            return Err(DocError::at_root(ErrorKind::MissingMember).under(String::from_str("id")));
        },
    };
    let ghost gt = rtype@;
    let ghost gi = id@;
    let meta = match meta_v {
        Some(mv) => {
            let ghost gmv = mv;
            match decode_meta(mv) {
                Ok(m) => {
                    proof {
                        assert(gmv matches JsonValue::Obj(_));
                        assert(JsonValue::Obj(m.entries) == gmv);
                    }
                    Some(m)
                },
                Err(e) => {
                    return Err(e.under(String::from_str("meta")));
                },
            }
        },
        None => None,
    };
    let ghost gmeta = meta;
    let r = ResourceIdentifierObject::new(rtype, id, meta);
    proof {
        if r is Ok {
            let y = r->Ok_0;
            assert(y.rtype@ == gt && y.id@ == gi && y.meta == gmeta);
            assert(rio_members(y, v0));
        }
    }
    r
}

/// Decodes the attributes object of a resource.
pub fn decode_attributes(v: JsonValue) -> (r: Result<Attributes, DocError>)
    ensures
        !(v matches JsonValue::Obj(_)) ==> (r matches Err(e) && e.kind == ErrorKind::UnexpectedJsonType),
        r is Ok <==> attrs_ok(v),
        r matches Ok(a) ==> attrs_repr(a, v),
        r matches Err(e) ==> e.kind != ErrorKind::UnlinkedIncludedResource,
{
    match v {
        JsonValue::Obj(fs) => Attributes::new(fs),
        _ => Err(DocError::at_root(ErrorKind::UnexpectedJsonType)),
    }
}

/// Decodes resource linkage: `null`, one identifier, or an array of
/// identifiers.
#[verifier::loop_isolation(false)]
pub fn decode_linkage(v: JsonValue) -> (r: Result<ResourceLinkage, DocError>)
    ensures
        v matches JsonValue::Null ==> r == Ok::<ResourceLinkage, DocError>(ResourceLinkage::Null),
        (v matches JsonValue::Bool(_) || v matches JsonValue::Number(_) || v matches JsonValue::Text(_))
            ==> (r matches Err(e) && e.kind == ErrorKind::UnexpectedJsonType),
        r is Ok <==> linkage_ok(v),
        r matches Ok(l) ==> linkage_repr(l, v),
        r matches Err(e) ==> e.kind != ErrorKind::UnlinkedIncludedResource,
{
    let ghost v0 = v;
    match v {
        JsonValue::Null => Ok(ResourceLinkage::Null),
        JsonValue::Obj(fs) => {
            match decode_rio(JsonValue::Obj(fs)) {
                Ok(x) => Ok(ResourceLinkage::Single(x)),
                Err(e) => Err(e),
            }
        },
        JsonValue::Arr(mut elems) => {
            let ghost orig = elems@;
            let mut out: Vec<ResourceIdentifierObject> = Vec::new();
            let mut idx: usize = 0;
            let _n = elems.len();
            let ghost total = elems@.len();
            while elems.len() > 0
                invariant
                    total <= usize::MAX,
                    idx + elems@.len() == total,
                    out@.len() == idx,
                    forall|j: int| 0 <= j < elems@.len() ==> #[trigger] elems@[j] == orig[j + idx],
                    forall|j: int|
                        0 <= j < idx ==> rio_ok(#[trigger] orig[j]) && rio_members(
                            out@[j],
                            orig[j],
                        ),
                decreases elems@.len(),
            {
                let ghost prev = elems@;
                let ev = elems.remove(0);
                proof {
                    assert(ev == orig[idx as int]);
                    assert(forall|j: int|
                        0 <= j < elems@.len() ==> #[trigger] elems@[j] == prev[j + 1]);
                }
                match decode_rio(ev) {
                    Ok(x) => {
                        out.push(x);
                    },
                    Err(e) => {
                        proof {
                            assert(!rio_ok(orig[idx as int]));
                        }
                        return Err(e.under(seg_of_index(idx)));
                    },
                }
                idx += 1;
            }
            Ok(ResourceLinkage::Array(out))
        },
        _ => Err(DocError::at_root(ErrorKind::UnexpectedJsonType)),
    }
}

/// Decodes one relationship object: optional `links`, `data` and `meta`,
/// nothing else.  An empty relationship object is accepted.
pub fn decode_relationship(v: JsonValue) -> (r: Result<Relationship, DocError>)
    ensures
        !(v matches JsonValue::Obj(_)) ==> (r matches Err(e) && e.kind == ErrorKind::UnexpectedJsonType),
        r is Ok <==> relationship_ok(v),
        r matches Ok(rel) ==> relationship_repr(rel, v),
        r matches Err(e) ==> e.kind != ErrorKind::UnlinkedIncludedResource,
{
    let ghost v0 = v;
    let mut fields = match v {
        JsonValue::Obj(fs) => fs,
        _ => {
            return Err(DocError::at_root(ErrorKind::UnexpectedJsonType));
        },
    };
    let ghost g = fields@;
    let links_v = take_key(&mut fields, "links");
    let data_v = take_key(&mut fields, "data");
    let meta_v = take_key(&mut fields, "meta");
    proof {
        crate::json::lemma_top_level_keys();
        assert(links_v == first_entry(g, "links"@));
        assert(data_v == first_entry(g, "data"@));
        assert(meta_v == first_entry(g, "meta"@));
        assert(fields@ == remove_first(remove_first(remove_first(g, "links"@), "data"@), "meta"@));
    }
    if fields.len() > 0 {
        let (k, _) = fields.remove(0);
        let mut path: Vec<String> = Vec::new();
        path.push(k);
        return Err(DocError { kind: ErrorKind::UnknownFieldRejected, path });
    }
    let links = match links_v {
        Some(lv) => {
            let ghost glv = lv;
            match decode_links(lv) {
                Ok(l) => {
                    proof {
                        assert(links_ok(glv) && links_repr(l, glv));
                    }
                    Some(l)
                },
                Err(e) => {
                    return Err(e.under(String::from_str("links")));
                },
            }
        },
        None => None,
    };
    let data = match data_v {
        Some(dv) => {
            let ghost gdv = dv;
            match decode_linkage(dv) {
                Ok(l) => {
                    proof {
                        assert(linkage_ok(gdv) && linkage_repr(l, gdv));
                    }
                    Some(l)
                },
                Err(e) => {
                    return Err(e.under(String::from_str("data")));
                },
            }
        },
        None => None,
    };
    let meta = match meta_v {
        Some(mv) => {
            let ghost gmv = mv;
            match decode_meta(mv) {
                Ok(m) => {
                    proof {
                        assert(gmv matches JsonValue::Obj(_));
                        assert(JsonValue::Obj(m.entries) == gmv);
                    }
                    Some(m)
                },
                Err(e) => {
                    return Err(e.under(String::from_str("meta")));
                },
            }
        },
        None => None,
    };
    Ok(Relationship { links, data, meta })
}

/// Decodes a relationships object: member names validated against the
/// grammar (`InvalidRelationshipName` otherwise), each value a
/// relationship object.
#[verifier::loop_isolation(false)]
pub fn decode_relationships(v: JsonValue) -> (r: Result<Relationships, DocError>)
    ensures
        !(v matches JsonValue::Obj(_)) ==> (r matches Err(e) && e.kind == ErrorKind::UnexpectedJsonType),
        r is Ok <==> relationships_ok(v),
        r matches Ok(rels) ==> relationships_repr(rels, v),
        r matches Err(e) ==> e.kind != ErrorKind::UnlinkedIncludedResource,
{
    let ghost v0 = v;
    let mut fields = match v {
        JsonValue::Obj(fs) => fs,
        _ => {
            return Err(DocError::at_root(ErrorKind::UnexpectedJsonType));
        },
    };
    let ghost orig = fields@;
    let mut entries: Vec<(Name, Relationship)> = Vec::new();
    while fields.len() > 0
        invariant
            entries@.len() + fields@.len() == orig.len(),
            forall|j: int|
                0 <= j < fields@.len() ==> #[trigger] fields@[j] == orig[j + entries@.len()],
            forall|j: int|
                0 <= j < entries@.len() ==> valid_name((#[trigger] orig[j].0)@)
                    && relationship_ok(orig[j].1) && entries@[j].0@ == orig[j].0@
                    && relationship_repr(entries@[j].1, orig[j].1),
        decreases fields@.len(),
    {
        let ghost done = entries@.len() as int;
        let ghost prev = fields@;
        let (k, rv) = fields.remove(0);
        proof {
            assert(k == orig[done].0 && rv == orig[done].1);
            assert(forall|j: int| 0 <= j < fields@.len() ==> #[trigger] fields@[j] == prev[j + 1]);
        }
        if !is_valid_name(k.as_str()) {
            proof {
                assert(!valid_name((orig[done].0)@));
            }
            let mut path: Vec<String> = Vec::new();
            path.push(k);
            return Err(DocError { kind: ErrorKind::InvalidRelationshipName, path });
        }
        let rel = match decode_relationship(rv) {
            Ok(rel) => rel,
            Err(e) => {
                proof {
                    assert(!relationship_ok(orig[done].1));
                }
                return Err(e.under(k));
            },
        };
        let name = match Name::new(k) {
            Ok(n) => n,
            Err(e) => {
                return Err(e);
            },
        };
        entries.push((name, rel));
    }
    Ok(Relationships { entries })
}

/// Decodes a full resource object: a required `type`, optional `id`,
/// `attributes`, `relationships`, `links` and `meta`, nothing else.
pub fn decode_resource(v: JsonValue) -> (r: Result<ResourceObject, DocError>)
    ensures
        !(v matches JsonValue::Obj(_)) ==> (r matches Err(e) && e.kind == ErrorKind::UnexpectedJsonType),
        r is Ok <==> resource_ok(v),
        r matches Ok(ro) ==> resource_repr(ro, v),
        r matches Err(e) ==> e.kind != ErrorKind::UnlinkedIncludedResource,
{
    let ghost v0 = v;
    let mut fields = match v {
        JsonValue::Obj(fs) => fs,
        _ => {
            return Err(DocError::at_root(ErrorKind::UnexpectedJsonType));
        },
    };
    let ghost g = fields@;
    let type_v = take_key(&mut fields, "type");
    let id_v = take_key(&mut fields, "id");
    let attributes_v = take_key(&mut fields, "attributes");
    let relationships_v = take_key(&mut fields, "relationships");
    let links_v = take_key(&mut fields, "links");
    let meta_v = take_key(&mut fields, "meta");
    proof {
        crate::json::lemma_identifier_keys();
        crate::json::lemma_resource_keys();
        assert(type_v == first_entry(g, "type"@));
        assert(id_v == first_entry(g, "id"@));
        assert(attributes_v == first_entry(g, "attributes"@));
        assert(relationships_v == first_entry(g, "relationships"@));
        assert(links_v == first_entry(g, "links"@));
        assert(meta_v == first_entry(g, "meta"@));
        assert(fields@ == resource_rest(g));
    }
    if fields.len() > 0 {
        let (k, _) = fields.remove(0);
        let mut path: Vec<String> = Vec::new();
        path.push(k);
        return Err(DocError { kind: ErrorKind::UnknownFieldRejected, path });
    }
    let rtype = match type_v {
        Some(JsonValue::Text(s)) => s,
        Some(_) => {
            return Err(
                DocError::at_root(ErrorKind::UnexpectedJsonType).under(String::from_str("type")),
            );
        },
        None => {
            return Err(DocError::at_root(ErrorKind::MissingMember).under(String::from_str("type")));
        },
    };
    let id = match id_v {
        Some(JsonValue::Text(s)) => Some(s),
        Some(_) => {
            return Err(
                DocError::at_root(ErrorKind::UnexpectedJsonType).under(String::from_str("id")),
            );
        },
        None => None,
    };
    let ghost gt = rtype@;
    let attributes = match attributes_v {
        Some(av) => {
            let ghost gav = av;
            match decode_attributes(av) {
                Ok(a) => {
                    proof {
                        assert(attrs_ok(gav) && attrs_repr(a, gav));
                    }
                    Some(a)
                },
                Err(e) => {
                    return Err(e.under(String::from_str("attributes")));
                },
            }
        },
        None => None,
    };
    let relationships = match relationships_v {
        Some(rv) => {
            let ghost grv = rv;
            match decode_relationships(rv) {
                Ok(rel) => {
                    proof {
                        assert(relationships_ok(grv) && relationships_repr(rel, grv));
                    }
                    Some(rel)
                },
                Err(e) => {
                    return Err(e.under(String::from_str("relationships")));
                },
            }
        },
        None => None,
    };
    let links = match links_v {
        Some(lv) => {
            let ghost glv = lv;
            match decode_links(lv) {
                Ok(l) => {
                    proof {
                        assert(links_ok(glv) && links_repr(l, glv));
                    }
                    Some(l)
                },
                Err(e) => {
                    return Err(e.under(String::from_str("links")));
                },
            }
        },
        None => None,
    };
    let meta = match meta_v {
        Some(mv) => {
            let ghost gmv = mv;
            match decode_meta(mv) {
                Ok(m) => {
                    proof {
                        assert(gmv matches JsonValue::Obj(_));
                        assert(JsonValue::Obj(m.entries) == gmv);
                    }
                    Some(m)
                },
                Err(e) => {
                    return Err(e.under(String::from_str("meta")));
                },
            }
        },
        None => None,
    };
    let ghost gid = id;
    let ghost gattrs = attributes;
    let ghost grels = relationships;
    let ghost glinks = links;
    let ghost gmeta = meta;
    let r = ResourceObject::new(rtype, id, attributes, relationships, links, meta);
    proof {
        if r is Ok {
            let y = r->Ok_0;
            assert(y.rtype@ == gt && y.attributes == gattrs && y.relationships == grels
                && y.links == glinks && y.meta == gmeta);
            assert(resource_repr(y, v0));
            assert(resource_ok(v0));
        }
    }
    r
}

/// Decodes the `included` array of full resource objects.
#[verifier::loop_isolation(false)]
pub fn decode_resource_array(v: JsonValue) -> (r: Result<Vec<ResourceObject>, DocError>)
    ensures
        !(v matches JsonValue::Arr(_)) ==> (r matches Err(e) && e.kind == ErrorKind::UnexpectedJsonType),
        r is Ok <==> resources_ok(v),
        r matches Ok(ros) ==> resources_repr(ros@, v),
        r matches Err(e) ==> e.kind != ErrorKind::UnlinkedIncludedResource,
{
    let ghost v0 = v;
    let mut elems = match v {
        JsonValue::Arr(es) => es,
        _ => {
            return Err(DocError::at_root(ErrorKind::UnexpectedJsonType));
        },
    };
    let ghost orig = elems@;
    let mut out: Vec<ResourceObject> = Vec::new();
    let mut idx: usize = 0;
    let _n = elems.len();
    let ghost total = elems@.len();
    while elems.len() > 0
        invariant
            total <= usize::MAX,
            idx + elems@.len() == total,
            out@.len() == idx,
            forall|j: int| 0 <= j < elems@.len() ==> #[trigger] elems@[j] == orig[j + idx],
            forall|j: int|
                0 <= j < idx ==> resource_ok(#[trigger] orig[j]) && resource_repr(
                    out@[j],
                    orig[j],
                ),
        decreases elems@.len(),
    {
        let ghost prev = elems@;
        let ev = elems.remove(0);
        proof {
            assert(ev == orig[idx as int]);
            assert(forall|j: int| 0 <= j < elems@.len() ==> #[trigger] elems@[j] == prev[j + 1]);
        }
        match decode_resource(ev) {
            Ok(ro) => {
                out.push(ro);
            },
            Err(e) => {
                proof {
                    assert(!resource_ok(orig[idx as int]));
                }
                return Err(e.under(seg_of_index(idx)));
            },
        }
        idx += 1;
    }
    Ok(out)
}

/// Whether every member of an object is named `type`, `id` or `meta`.
#[verifier::loop_isolation(false)]
fn is_identifier_shaped(fs: &Vec<(String, JsonValue)>) -> (r: bool)
    ensures
        r == id_shaped(fs@),
{
    let mut i: usize = 0;
    while i < fs.len()
        invariant
            i <= fs@.len(),
            forall|j: int|
                0 <= j < i ==> {
                    ||| (#[trigger] fs@[j].0)@ == "type"@
                    ||| fs@[j].0@ == "id"@
                    ||| fs@[j].0@ == "meta"@
                },
        decreases fs@.len() - i,
    {
        let k = fs[i].0.as_str();
        if !(str_eq(k, "type") || str_eq(k, "id") || str_eq(k, "meta")) {
            return false;
        }
        i += 1;
    }
    true
}

/// The inputs the `data` member decodes from: `null`, one object
/// dispatched by the identifier-shape rule, or an array of objects that
/// is uniformly identifiers or uniformly full resources.
pub open spec fn primary_ok(v: JsonValue) -> bool {
    match v {
        JsonValue::Null => true,
        JsonValue::Obj(fs) => if id_shaped(fs@) {
            rio_ok(v)
        } else {
            resource_ok(v)
        },
        JsonValue::Arr(es) => {
            &&& forall|i: int|
                0 <= i < es@.len() ==> ((#[trigger] es@[i]) matches JsonValue::Obj(_))
            &&& ((forall|i: int|
                0 <= i < es@.len() ==> value_id_shaped(#[trigger] es@[i]) && rio_ok(es@[i])) || (
            forall|i: int|
                0 <= i < es@.len() ==> !value_id_shaped(#[trigger] es@[i]) && resource_ok(
                    es@[i],
                )))
        },
        _ => false,
    }
}

/// How decoded primary data relates to the `data` member that carries it.
pub open spec fn primary_repr(pd: PrimaryData, v: JsonValue) -> bool {
    match pd {
        PrimaryData::Null => v matches JsonValue::Null,
        PrimaryData::Single(ro) => (v matches JsonValue::Obj(fs) && !id_shaped(fs@))
            && resource_repr(ro, v),
        PrimaryData::SingleIdentifier(x) => (v matches JsonValue::Obj(fs) && id_shaped(fs@))
            && rio_members(x, v),
        PrimaryData::Array(ros) => match v {
            JsonValue::Arr(es) => ros@.len() == es@.len() && forall|i: int|
                0 <= i < ros@.len() ==> resource_repr(#[trigger] ros@[i], es@[i]),
            _ => false,
        },
        PrimaryData::ArrayIdentifier(xs) => match v {
            JsonValue::Arr(es) => xs@.len() == es@.len() && forall|i: int|
                0 <= i < xs@.len() ==> rio_members(#[trigger] xs@[i], es@[i]) && value_id_shaped(
                    es@[i],
                ),
            _ => false,
        },
    }
}

/// Decodes the `data` member.  The shape dispatch follows the
/// disambiguation rule: `null` is the empty to-one form; an object is an
/// identifier exactly when its keys are a subset of `type`/`id`/`meta`; an
/// array must be uniformly identifiers or uniformly full resources
/// (`InconsistentResourceShape` otherwise), and an empty array is a
/// to-many form distinct from `null`.
#[verifier::loop_isolation(false)]
pub fn decode_primary(v: JsonValue) -> (r: Result<PrimaryData, DocError>)
    ensures
        v matches JsonValue::Null ==> r == Ok::<PrimaryData, DocError>(PrimaryData::Null),
        (v matches JsonValue::Bool(_) || v matches JsonValue::Number(_) || v matches JsonValue::Text(_))
            ==> (r matches Err(e) && e.kind == ErrorKind::UnexpectedJsonType),
        v matches JsonValue::Arr(es) && es@.len() == 0 ==> (r matches Ok(pd) && pd matches
            PrimaryData::Array(ros) && ros@.len() == 0),
        (v matches JsonValue::Arr(es) && (forall|i: int|
            0 <= i < es@.len() ==> #[trigger] es@[i] matches JsonValue::Obj(_)) && (exists|i: int|
            0 <= i < es@.len() && value_id_shaped(#[trigger] es@[i])) && (exists|i: int|
            0 <= i < es@.len() && !value_id_shaped(#[trigger] es@[i]))) ==> (r matches Err(e)
            && e.kind == ErrorKind::InconsistentResourceShape),
        r matches Ok(pd) ==> match pd {
            PrimaryData::Null => v matches JsonValue::Null,
            PrimaryData::Single(_) => v matches JsonValue::Obj(fs) && !id_shaped(fs@),
            PrimaryData::SingleIdentifier(_) => v matches JsonValue::Obj(fs) && id_shaped(fs@),
            PrimaryData::Array(ros) => v matches JsonValue::Arr(es) && ros@.len() == es@.len(),
            PrimaryData::ArrayIdentifier(xs) => v matches JsonValue::Arr(es) && xs@.len()
                == es@.len(),
        },
        r is Ok <==> primary_ok(v),
        r matches Ok(pd) ==> primary_repr(pd, v),
        r matches Err(e) ==> e.kind != ErrorKind::UnlinkedIncludedResource,
{
    let ghost v0 = v;
    match v {
        JsonValue::Null => Ok(PrimaryData::Null),
        JsonValue::Obj(fs) => {
            let shaped = is_identifier_shaped(&fs);
            let vv = JsonValue::Obj(fs);
            proof {
                assert(vv == v0);
            }
            if shaped {
                match decode_rio(vv) {
                    Ok(x) => Ok(PrimaryData::SingleIdentifier(x)),
                    Err(e) => Err(e),
                }
            } else {
                match decode_resource(vv) {
                    Ok(ro) => Ok(PrimaryData::Single(ro)),
                    Err(e) => Err(e),
                }
            }
        },
        JsonValue::Arr(elems) => {
            let ghost orig = elems@;
            if elems.len() == 0 {
                return Ok(PrimaryData::Array(Vec::new()));
            }
            let mut any_id = false;
            let mut any_full = false;
            let mut i: usize = 0;
            while i < elems.len()
                invariant
                    i <= elems@.len(),
                    any_id == exists|j: int|
                        0 <= j < i && value_id_shaped(#[trigger] elems@[j]),
                    any_full == exists|j: int|
                        0 <= j < i && !value_id_shaped(#[trigger] elems@[j]) && elems@[j]
                            matches JsonValue::Obj(_),
                    forall|j: int| 0 <= j < i ==> #[trigger] elems@[j] matches JsonValue::Obj(_),
                decreases elems@.len() - i,
            {
                match &elems[i] {
                    JsonValue::Obj(fs) => {
                        if is_identifier_shaped(fs) {
                            any_id = true;
                        } else {
                            any_full = true;
                        }
                    },
                    _ => {
                        return Err(
                            DocError::at_root(ErrorKind::UnexpectedJsonType).under(
                                seg_of_index(i),
                            ),
                        );
                    },
                }
                i += 1;
            }
            if any_id && any_full {
                return Err(DocError::at_root(ErrorKind::InconsistentResourceShape));
            }
            if any_id {
                proof {
                    assert(forall|j: int|
                        0 <= j < orig.len() ==> value_id_shaped(#[trigger] orig[j]));
                }
                let mut rest = elems;
                let mut out: Vec<ResourceIdentifierObject> = Vec::new();
                let mut idx: usize = 0;
                let _n = rest.len();
                let ghost total = rest@.len();
                while rest.len() > 0
                    invariant
                        total <= usize::MAX,
                        idx + rest@.len() == total,
                        out@.len() == idx,
                        forall|j: int|
                            0 <= j < rest@.len() ==> #[trigger] rest@[j] == orig[j + idx],
                        forall|j: int|
                            0 <= j < idx ==> rio_ok(#[trigger] orig[j]) && rio_members(
                                out@[j],
                                orig[j],
                            ),
                    decreases rest@.len(),
                {
                    let ghost prev = rest@;
                    let ev = rest.remove(0);
                    proof {
                        assert(ev == orig[idx as int]);
                        assert(forall|j: int|
                            0 <= j < rest@.len() ==> #[trigger] rest@[j] == prev[j + 1]);
                    }
                    match decode_rio(ev) {
                        Ok(x) => {
                            out.push(x);
                        },
                        Err(e) => {
                            proof {
                                assert(!rio_ok(orig[idx as int]));
                            }
                            return Err(e.under(seg_of_index(idx)));
                        },
                    }
                    idx += 1;
                }
                Ok(PrimaryData::ArrayIdentifier(out))
            } else {
                proof {
                    assert(forall|j: int|
                        0 <= j < orig.len() ==> !value_id_shaped(#[trigger] orig[j]));
                }
                let mut rest = elems;
                let mut out: Vec<ResourceObject> = Vec::new();
                let mut idx: usize = 0;
                let _n = rest.len();
                let ghost total = rest@.len();
                while rest.len() > 0
                    invariant
                        total <= usize::MAX,
                        idx + rest@.len() == total,
                        out@.len() == idx,
                        forall|j: int|
                            0 <= j < rest@.len() ==> #[trigger] rest@[j] == orig[j + idx],
                        forall|j: int|
                            0 <= j < idx ==> resource_ok(#[trigger] orig[j]) && resource_repr(
                                out@[j],
                                orig[j],
                            ),
                    decreases rest@.len(),
                {
                    let ghost prev = rest@;
                    let ev = rest.remove(0);
                    proof {
                        assert(ev == orig[idx as int]);
                        assert(forall|j: int|
                            0 <= j < rest@.len() ==> #[trigger] rest@[j] == prev[j + 1]);
                    }
                    match decode_resource(ev) {
                        Ok(ro) => {
                            out.push(ro);
                        },
                        Err(e) => {
                            proof {
                                assert(!resource_ok(orig[idx as int]));
                            }
                            return Err(e.under(seg_of_index(idx)));
                        },
                    }
                    idx += 1;
                }
                Ok(PrimaryData::Array(out))
            }
        },
        _ => Err(DocError::at_root(ErrorKind::UnexpectedJsonType)),
    }
}

/// The members left after taking a document's six top-level members.
pub open spec fn doc_rest(fs: Seq<(String, JsonValue)>) -> Seq<(String, JsonValue)> {
    remove_first(
        remove_first(
            remove_first(
                remove_first(remove_first(remove_first(fs, "data"@), "errors"@), "meta"@),
                "links"@,
            ),
            "jsonapi"@,
        ),
        "included"@,
    )
}

/// An optional `jsonapi` object against an optional `jsonapi` member.
pub open spec fn opt_jsonapi_entry(j: Option<JsonApiObject>, e: Option<JsonValue>) -> bool {
    match (j, e) {
        (Some(j2), Some(w)) => jsonapi_repr(j2, w),
        (None, None) => true,
        _ => false,
    }
}

/// A document's structural validity: every rule but full linkage.  `data`
/// and `errors` do not coexist, one of `data`, `errors` and `meta` is
/// present, `included` only accompanies `data`, no member beyond the six
/// stands at the top level, and every present member is itself well
/// formed.
pub open spec fn doc_ok(v: JsonValue) -> bool {
    match v {
        JsonValue::Obj(fs) => {
            &&& !(first_entry(fs@, "data"@) is Some && first_entry(fs@, "errors"@) is Some)
            &&& (first_entry(fs@, "data"@) is Some || first_entry(fs@, "errors"@) is Some
                || first_entry(fs@, "meta"@) is Some)
            &&& (first_entry(fs@, "included"@) is Some ==> first_entry(fs@, "data"@) is Some)
            &&& doc_rest(fs@).len() == 0
            &&& (first_entry(fs@, "jsonapi"@) matches Some(jv) ==> jsonapi_ok(jv))
            &&& (first_entry(fs@, "links"@) matches Some(lv) ==> links_ok(lv))
            &&& (first_entry(fs@, "meta"@) matches Some(mv) ==> mv matches JsonValue::Obj(_))
            &&& (first_entry(fs@, "errors"@) matches Some(ev) ==> errors_ok(ev))
            &&& (first_entry(fs@, "data"@) matches Some(dv) ==> primary_ok(dv))
            &&& (first_entry(fs@, "included"@) matches Some(iv) ==> resources_ok(iv))
        },
        _ => false,
    }
}

/// How a decoded document relates to the object that carries it, member
/// by member.
pub open spec fn doc_repr(d: Document, v: JsonValue) -> bool {
    match v {
        JsonValue::Obj(fs) => match d {
            Document::Data { jsonapi, data, links, meta, included } => {
                &&& opt_jsonapi_entry(jsonapi, first_entry(fs@, "jsonapi"@))
                &&& (first_entry(fs@, "data"@) matches Some(dv) && primary_repr(data, dv))
                &&& opt_links_entry(links, first_entry(fs@, "links"@))
                &&& opt_meta_entry(meta, first_entry(fs@, "meta"@))
                &&& (match first_entry(fs@, "included"@) {
                    Some(iv) => resources_repr(included@, iv),
                    None => included@.len() == 0,
                })
            },
            Document::Errors { jsonapi, errors, links, meta } => {
                &&& opt_jsonapi_entry(jsonapi, first_entry(fs@, "jsonapi"@))
                &&& (first_entry(fs@, "errors"@) matches Some(ev) && errors_repr(errors@, ev))
                &&& opt_links_entry(links, first_entry(fs@, "links"@))
                &&& opt_meta_entry(meta, first_entry(fs@, "meta"@))
            },
            Document::Info { jsonapi, meta, links } => {
                &&& opt_jsonapi_entry(jsonapi, first_entry(fs@, "jsonapi"@))
                &&& (first_entry(fs@, "meta"@) matches Some(mv) && mv == JsonValue::Obj(
                    meta.entries,
                ))
                &&& opt_links_entry(links, first_entry(fs@, "links"@))
            },
        },
        _ => false,
    }
}

/// Decodes a whole document from its JSON value tree.
///
/// The top-level rules are enforced for every input object: `data` and
/// `errors` must not coexist; `included` requires `data`; and one of
/// `data`, `errors` and `meta` must be present.  When
/// `enforce_full_linkage` is set, a non-empty `included` array must be
/// fully linked, and `UnlinkedIncludedResource` is never reported when it
/// is not set.
#[verifier::loop_isolation(false)]
pub fn decode(v: JsonValue, enforce_full_linkage: bool) -> (r: Result<Document, DocError>)
    ensures
        !(v matches JsonValue::Obj(_)) ==> (r matches Err(e) && e.kind == ErrorKind::UnexpectedJsonType),
        v matches JsonValue::Obj(fs) ==> {
            &&& (has_key(fs@, "data"@) && has_key(fs@, "errors"@)) ==> (r matches Err(e) && e.kind
                == ErrorKind::AmbiguousOrEmptyDocument)
            &&& (!has_key(fs@, "data"@) && has_key(fs@, "included"@)) ==> (r matches Err(e)
                && e.kind == ErrorKind::IncludedWithoutData)
            &&& (!has_key(fs@, "data"@) && !has_key(fs@, "errors"@) && !has_key(fs@, "meta"@)
                && !has_key(fs@, "included"@)) ==> (r matches Err(e) && e.kind
                == ErrorKind::AmbiguousOrEmptyDocument)
            &&& (r matches Ok(d) ==> {
                &&& (d matches Document::Data { .. } ==> has_key(fs@, "data"@))
                &&& (d matches Document::Errors { .. } ==> has_key(fs@, "errors"@) && !has_key(
                    fs@,
                    "data"@,
                ))
                &&& (d matches Document::Info { .. } ==> has_key(fs@, "meta"@) && !has_key(
                    fs@,
                    "data"@,
                ) && !has_key(fs@, "errors"@))
            })
        },
        (r matches Err(e) && e.kind == ErrorKind::UnlinkedIncludedResource) ==> enforce_full_linkage,
        r matches Ok(d) ==> (d matches Document::Data { data, included, .. } ==> (
        enforce_full_linkage ==> fully_linked(data, included@))),
        r is Ok ==> doc_ok(v),
        doc_ok(v) && !enforce_full_linkage ==> r is Ok,
        (r matches Err(e) && e.kind == ErrorKind::UnlinkedIncludedResource) ==> (v matches
            JsonValue::Obj(fs) && first_entry(fs@, "included"@) is Some && first_entry(
            fs@,
            "data"@,
        ) is Some),
        (r matches Err(e) && e.kind == ErrorKind::UnlinkedIncludedResource) ==> (v matches
            JsonValue::Obj(fs) ==> (first_entry(fs@, "data"@) matches Some(dv) ==> (first_entry(
            fs@,
            "included"@,
        ) matches Some(iv) ==> exists|pd: PrimaryData, ros: Vec<ResourceObject>|
            {
                &&& #[trigger] primary_repr(pd, dv)
                &&& #[trigger] resources_repr(ros@, iv)
                &&& ros@.len() > 0
                &&& !fully_linked(pd, ros@)
            }))),
        doc_ok(v) && enforce_full_linkage ==> (r is Ok || (r matches Err(e) && e.kind
            == ErrorKind::UnlinkedIncludedResource)),
        r matches Ok(d) ==> doc_repr(d, v),
{
    let ghost v0 = v;
    let mut fields = match v {
        JsonValue::Obj(fs) => fs,
        _ => {
            return Err(DocError::at_root(ErrorKind::UnexpectedJsonType));
        },
    };
    proof {
        assert(v0 matches JsonValue::Obj(fs0) && fields@ == fs0@);
    }
    let data_v = take_key(&mut fields, "data");
    let errors_v = take_key(&mut fields, "errors");
    let meta_v = take_key(&mut fields, "meta");
    let links_v = take_key(&mut fields, "links");
    let jsonapi_v = take_key(&mut fields, "jsonapi");
    let included_v = take_key(&mut fields, "included");
    proof {
        crate::json::lemma_top_level_keys();
        assert(v0 matches JsonValue::Obj(fs0) ==> ((data_v is Some) == has_key(fs0@, "data"@)));
        assert(v0 matches JsonValue::Obj(fs0) ==> ((errors_v is Some) == has_key(fs0@, "errors"@)));
        assert(v0 matches JsonValue::Obj(fs0) ==> ((meta_v is Some) == has_key(fs0@, "meta"@)));
        assert(v0 matches JsonValue::Obj(fs0) ==> ((included_v is Some) == has_key(
            fs0@,
            "included"@,
        )));
        assert(v0 matches JsonValue::Obj(fs0) ==> data_v == first_entry(fs0@, "data"@));
        assert(v0 matches JsonValue::Obj(fs0) ==> errors_v == first_entry(fs0@, "errors"@));
        assert(v0 matches JsonValue::Obj(fs0) ==> meta_v == first_entry(fs0@, "meta"@));
        assert(v0 matches JsonValue::Obj(fs0) ==> links_v == first_entry(fs0@, "links"@));
        assert(v0 matches JsonValue::Obj(fs0) ==> jsonapi_v == first_entry(fs0@, "jsonapi"@));
        assert(v0 matches JsonValue::Obj(fs0) ==> included_v == first_entry(fs0@, "included"@));
        assert(v0 matches JsonValue::Obj(fs0) ==> fields@ == doc_rest(fs0@));
    }
    if data_v.is_some() && errors_v.is_some() {
        return Err(DocError::at_root(ErrorKind::AmbiguousOrEmptyDocument));
    }
    if data_v.is_none() && included_v.is_some() {
        return Err(DocError::at_root(ErrorKind::IncludedWithoutData));
    }
    if data_v.is_none() && errors_v.is_none() && meta_v.is_none() {
        return Err(DocError::at_root(ErrorKind::AmbiguousOrEmptyDocument));
    }
    if fields.len() > 0 {
        let (k, _) = fields.remove(0);
        let mut path: Vec<String> = Vec::new();
        path.push(k);
        return Err(DocError { kind: ErrorKind::UnknownFieldRejected, path });
    }
    let jsonapi = match jsonapi_v {
        Some(jv) => {
            let ghost gjv = jv;
            match decode_jsonapi(jv) {
                Ok(j) => {
                    proof {
                        assert(jsonapi_ok(gjv) && jsonapi_repr(j, gjv));
                    }
                    Some(j)
                },
                Err(e) => {
                    return Err(e.under(String::from_str("jsonapi")));
                },
            }
        },
        None => None,
    };
    let links = match links_v {
        Some(lv) => {
            let ghost glv = lv;
            match decode_links(lv) {
                Ok(l) => {
                    proof {
                        assert(links_ok(glv) && links_repr(l, glv));
                    }
                    Some(l)
                },
                Err(e) => {
                    return Err(e.under(String::from_str("links")));
                },
            }
        },
        None => None,
    };
    let meta = match meta_v {
        Some(mv) => {
            let ghost gmv = mv;
            match decode_meta(mv) {
                Ok(m) => {
                    proof {
                        assert(gmv matches JsonValue::Obj(_));
                        assert(JsonValue::Obj(m.entries) == gmv);
                    }
                    Some(m)
                },
                Err(e) => {
                    return Err(e.under(String::from_str("meta")));
                },
            }
        },
        None => None,
    };
    if let Some(ev) = errors_v {
        let ghost gev = ev;
        let errors = match decode_error_array(ev) {
            Ok(errs) => errs,
            Err(e) => {
                return Err(e.under(String::from_str("errors")));
            },
        };
        proof {
            assert(errors_ok(gev) && errors_repr(errors@, gev));
        }
        return Ok(Document::Errors { jsonapi, errors, links, meta });
    }
    if let Some(dv) = data_v {
        let ghost gdv = dv;
        let data = match decode_primary(dv) {
            Ok(pd) => pd,
            Err(e) => {
                return Err(e.under(String::from_str("data")));
            },
        };
        proof {
            assert(primary_ok(gdv) && primary_repr(data, gdv));
        }
        let included = match included_v {
            Some(iv) => {
                let ghost giv = iv;
                match decode_resource_array(iv) {
                    Ok(ros) => {
                        proof {
                            assert(resources_ok(giv) && resources_repr(ros@, giv));
                        }
                        ros
                    },
                    Err(e) => {
                        return Err(e.under(String::from_str("included")));
                    },
                }
            },
            None => Vec::new(),
        };
        if enforce_full_linkage && included.len() > 0 {
            if !check_full_linkage(&data, &included) {
                proof {
                    assert(primary_repr(data, gdv) && !fully_linked(data, included@));
                }
                return Err(
                    DocError::at_root(ErrorKind::UnlinkedIncludedResource).under(
                        String::from_str("included"),
                    ),
                );
            }
        }
        if enforce_full_linkage && included.len() == 0 {
            proof {
                assert(fully_linked(data, included@));
            }
        }
        return Ok(Document::Data { jsonapi, data, links, meta, included });
    }
    let m = match meta {
        Some(m) => m,
        None => {
            return Err(DocError::at_root(ErrorKind::AmbiguousOrEmptyDocument));
        },
    };
    Ok(Document::Info { jsonapi, meta: m, links })
}

} // verus!
