//! Full linkage of compound documents.
//!
//! Every resource in `included` must be reachable from the primary data:
//! the identifiers named by `data` itself and by the relationships of
//! primary resources seed a set of `(type, id)` keys, and the
//! relationships of a reached included resource extend it, transitively
//! through the included set.  The closure is computed as a fixed point:
//! one pass per included resource suffices, since every pass that changes
//! anything reaches at least one more included resource.

use vstd::prelude::*;

use crate::model::PrimaryData;
use crate::model::Relationships;
use crate::model::ResourceIdentifierObject;
use crate::model::ResourceLinkage;
use crate::model::ResourceObject;
use crate::json::str_eq;

verus! {

/// The `(type, id)` key of a resource identifier object.
pub open spec fn rio_key(x: ResourceIdentifierObject) -> (Seq<char>, Seq<char>) {
    (x.rtype@, x.id@)
}

/// The keys named by one resource linkage.
pub open spec fn linkage_keys(l: Option<ResourceLinkage>) -> Seq<(Seq<char>, Seq<char>)> {
    match l {
        None => Seq::empty(),
        Some(ResourceLinkage::Null) => Seq::empty(),
        Some(ResourceLinkage::Single(x)) => seq![rio_key(x)],
        Some(ResourceLinkage::Array(xs)) => xs@.map_values(|x: ResourceIdentifierObject| rio_key(x)),
    }
}

/// The keys named by the first `upto` relationships of a relationships
/// object.
pub open spec fn rel_keys_upto(rel: Relationships, upto: int) -> Seq<(Seq<char>, Seq<char>)>
    decreases upto,
{
    if upto <= 0 {
        Seq::empty()
    } else {
        rel_keys_upto(rel, upto - 1) + linkage_keys(rel.entries@[upto - 1].1.data)
    }
}

/// The keys named by a resource object's relationships.
pub open spec fn resource_keys(ro: ResourceObject) -> Seq<(Seq<char>, Seq<char>)> {
    match ro.relationships {
        None => Seq::empty(),
        Some(rel) => rel_keys_upto(rel, rel.entries@.len() as int),
    }
}

/// The keys named by the first `upto` resource objects of an array.
pub open spec fn resources_keys_upto(ros: Seq<ResourceObject>, upto: int) -> Seq<
    (Seq<char>, Seq<char>),
>
    decreases upto,
{
    if upto <= 0 {
        Seq::empty()
    } else {
        resources_keys_upto(ros, upto - 1) + resource_keys(ros[upto - 1])
    }
}

/// The seed keys of the primary data: identifier objects stand for
/// themselves, resource objects contribute their relationships' linkage.
pub open spec fn primary_keys(d: PrimaryData) -> Seq<(Seq<char>, Seq<char>)> {
    match d {
        PrimaryData::Null => Seq::empty(),
        PrimaryData::Single(ro) => resource_keys(ro),
        PrimaryData::SingleIdentifier(x) => seq![rio_key(x)],
        PrimaryData::Array(ros) => resources_keys_upto(ros@, ros@.len() as int),
        PrimaryData::ArrayIdentifier(xs) => xs@.map_values(
            |x: ResourceIdentifierObject| rio_key(x),
        ),
    }
}

/// Whether an included resource is reached by a key set: it carries an
/// `id` and its `(type, id)` key is in the set.
pub open spec fn reached(acc: Seq<(Seq<char>, Seq<char>)>, ro: ResourceObject) -> bool {
    match ro.id {
        Some(id) => acc.contains((ro.rtype@, id@)),
        None => false,
    }
}

/// One pass over the first `upto` included resources against a fixed key
/// set: the additions contributed by every reached resource, in order.
pub open spec fn pass_keys_upto(
    acc: Seq<(Seq<char>, Seq<char>)>,
    inc: Seq<ResourceObject>,
    upto: int,
) -> Seq<(Seq<char>, Seq<char>)>
    decreases upto,
{
    if upto <= 0 {
        Seq::empty()
    } else {
        pass_keys_upto(acc, inc, upto - 1) + (if reached(acc, inc[upto - 1]) {
            resource_keys(inc[upto - 1])
        } else {
            Seq::empty()
        })
    }
}

/// The key set after `n` passes of the closure.
pub open spec fn reach_keys(d: PrimaryData, inc: Seq<ResourceObject>, n: nat) -> Seq<
    (Seq<char>, Seq<char>),
>
    decreases n,
{
    if n == 0 {
        primary_keys(d)
    } else {
        let prev = reach_keys(d, inc, (n - 1) as nat);
        prev + pass_keys_upto(prev, inc, inc.len() as int)
    }
}

/// Full linkage: every included resource carries an `id` and is reached
/// after as many passes as there are included resources.
pub open spec fn fully_linked(d: PrimaryData, inc: Seq<ResourceObject>) -> bool {
    forall|i: int| 0 <= i < inc.len() ==> reached(reach_keys(d, inc, inc.len()), #[trigger] inc[i])
}

/// The view of an accumulated key vector.
pub open spec fn keys_of(s: Seq<(String, String)>) -> Seq<(Seq<char>, Seq<char>)> {
    s.map_values(|p: (String, String)| (p.0@, p.1@))
}

/// Whether the key `(t, id)` is in the accumulated vector.
#[verifier::loop_isolation(false)]
fn key_member(acc: &Vec<(String, String)>, t: &str, id: &str) -> (r: bool)
    ensures
        r == keys_of(acc@).contains((t@, id@)),
{
    let mut i: usize = 0;
    while i < acc.len()
        invariant
            i <= acc@.len(),
            forall|j: int| 0 <= j < i ==> keys_of(acc@)[j] != (t@, id@),
        decreases acc@.len() - i,
    {
        if str_eq(acc[i].0.as_str(), t) && str_eq(acc[i].1.as_str(), id) {
            proof {
                assert(keys_of(acc@)[i as int] == (t@, id@));
            }
            return true;
        }
        proof {
            assert(keys_of(acc@)[i as int] == (acc@[i as int].0@, acc@[i as int].1@));
        }
        i += 1;
    }
    proof {
        if keys_of(acc@).contains((t@, id@)) {
            let j = choose|j: int|
                0 <= j < keys_of(acc@).len() && keys_of(acc@)[j] == (t@, id@);
            assert(false);
        }
    }
    false
}

/// Appends one identifier's key to the accumulator.
fn push_key(out: &mut Vec<(String, String)>, x: &ResourceIdentifierObject)
    ensures
        keys_of(final(out)@) == keys_of(old(out)@) + seq![rio_key(*x)],
{
    out.push((x.rtype.as_str().to_owned(), x.id.as_str().to_owned()));
    proof {
        assert(keys_of(out@) =~= keys_of(old(out)@) + seq![rio_key(*x)]);
    }
}

/// Appends the keys of one linkage to the accumulator.
#[verifier::loop_isolation(false)]
fn push_linkage_keys(out: &mut Vec<(String, String)>, l: &Option<ResourceLinkage>)
    ensures
        keys_of(final(out)@) == keys_of(old(out)@) + linkage_keys(*l),
{
    let ghost base = out@;
    match l {
        None => {
            proof {
                assert(keys_of(out@) =~= keys_of(base) + linkage_keys(*l));
            }
        },
        Some(ResourceLinkage::Null) => {
            proof {
                assert(keys_of(out@) =~= keys_of(base) + linkage_keys(*l));
            }
        },
        Some(ResourceLinkage::Single(x)) => {
            push_key(out, x);
            proof {
                assert(keys_of(out@) =~= keys_of(base) + linkage_keys(*l));
            }
        },
        Some(ResourceLinkage::Array(xs)) => {
            let mut i: usize = 0;
            while i < xs.len()
                invariant
                    i <= xs@.len(),
                    keys_of(out@) == keys_of(base) + xs@.take(i as int).map_values(
                        |x: ResourceIdentifierObject| rio_key(x),
                    ),
                decreases xs@.len() - i,
            {
                push_key(out, &xs[i]);
                i += 1;
                proof {
                    assert(keys_of(out@) =~= keys_of(base) + xs@.take(i as int).map_values(
                        |x: ResourceIdentifierObject| rio_key(x),
                    ));
                }
            }
            proof {
                assert(xs@.take(xs@.len() as int) =~= xs@);
                assert(keys_of(out@) =~= keys_of(base) + linkage_keys(*l));
            }
        },
    }
}

/// Appends the keys named by a resource object's relationships.
#[verifier::loop_isolation(false)]
fn push_resource_keys(out: &mut Vec<(String, String)>, ro: &ResourceObject)
    ensures
        keys_of(final(out)@) == keys_of(old(out)@) + resource_keys(*ro),
{
    let ghost base = out@;
    match &ro.relationships {
        None => {
            proof {
                assert(keys_of(out@) =~= keys_of(base) + resource_keys(*ro));
            }
        },
        Some(rel) => {
            let mut i: usize = 0;
            while i < rel.entries.len()
                invariant
                    i <= rel.entries@.len(),
                    keys_of(out@) == keys_of(base) + rel_keys_upto(*rel, i as int),
                decreases rel.entries@.len() - i,
            {
                push_linkage_keys(out, &rel.entries[i].1.data);
                i += 1;
            }
        },
    }
}

/// The seed vector for the closure: the keys of the primary data.
#[verifier::loop_isolation(false)]
fn primary_seed_keys(data: &PrimaryData) -> (out: Vec<(String, String)>)
    ensures
        keys_of(out@) == primary_keys(*data),
{
    let mut out: Vec<(String, String)> = Vec::new();
    proof {
        assert(keys_of(out@) =~= Seq::<(Seq<char>, Seq<char>)>::empty());
    }
    match data {
        PrimaryData::Null => {
        },
        PrimaryData::Single(ro) => {
            push_resource_keys(&mut out, ro);
            proof {
                assert(keys_of(out@) =~= primary_keys(*data));
            }
        },
        PrimaryData::SingleIdentifier(x) => {
            push_key(&mut out, x);
            proof {
                assert(keys_of(out@) =~= primary_keys(*data));
            }
        },
        PrimaryData::Array(ros) => {
            let mut i: usize = 0;
            while i < ros.len()
                invariant
                    i <= ros@.len(),
                    keys_of(out@) == resources_keys_upto(ros@, i as int),
                decreases ros@.len() - i,
            {
                push_resource_keys(&mut out, &ros[i]);
                i += 1;
            }
        },
        PrimaryData::ArrayIdentifier(xs) => {
            let mut i: usize = 0;
            while i < xs.len()
                invariant
                    i <= xs@.len(),
                    keys_of(out@) == xs@.take(i as int).map_values(
                        |x: ResourceIdentifierObject| rio_key(x),
                    ),
                decreases xs@.len() - i,
            {
                push_key(&mut out, &xs[i]);
                i += 1;
                proof {
                    assert(keys_of(out@) =~= xs@.take(i as int).map_values(
                        |x: ResourceIdentifierObject| rio_key(x),
                    ));
                }
            }
            proof {
                assert(xs@.take(xs@.len() as int) =~= xs@);
            }
        },
    }
    out
}

/// One pass: the additions contributed by the resources of `inc` that the
/// fixed set `acc` reaches.
#[verifier::loop_isolation(false)]
fn linkage_pass(acc: &Vec<(String, String)>, inc: &Vec<ResourceObject>) -> (adds: Vec<
    (String, String),
>)
    ensures
        keys_of(adds@) == pass_keys_upto(keys_of(acc@), inc@, inc@.len() as int),
{
    let mut adds: Vec<(String, String)> = Vec::new();
    proof {
        assert(keys_of(adds@) =~= pass_keys_upto(keys_of(acc@), inc@, 0));
    }
    let mut i: usize = 0;
    while i < inc.len()
        invariant
            i <= inc@.len(),
            keys_of(adds@) == pass_keys_upto(keys_of(acc@), inc@, i as int),
        decreases inc@.len() - i,
    {
        let ghost before = adds@;
        let ro = &inc[i];
        let hit = match &ro.id {
            Some(id) => key_member(acc, ro.rtype.as_str(), id.as_str()),
            None => false,
        };
        if hit {
            push_resource_keys(&mut adds, ro);
        }
        proof {
            assert(keys_of(adds@) =~= pass_keys_upto(keys_of(acc@), inc@, i + 1));
        }
        i += 1;
    }
    adds
}

/// Decides full linkage: whether every resource of `included` is
/// reachable, through identifiers in the primary data and the
/// relationships of reached resources, transitively through the included
/// set itself.
#[verifier::loop_isolation(false)]
pub fn check_full_linkage(data: &PrimaryData, included: &Vec<ResourceObject>) -> (ok: bool)
    ensures
        ok == fully_linked(*data, included@),
{
    let mut acc = primary_seed_keys(data);
    let mut pass: usize = 0;
    while pass < included.len()
        invariant
            pass <= included@.len(),
            keys_of(acc@) == reach_keys(*data, included@, pass as nat),
        decreases included@.len() - pass,
    {
        let mut adds = linkage_pass(&acc, included);
        acc.append(&mut adds);
        pass += 1;
        proof {
            assert(keys_of(acc@) =~= reach_keys(*data, included@, pass as nat));
        }
    }
    let mut i: usize = 0;
    while i < included.len()
        invariant
            i <= included@.len(),
            keys_of(acc@) == reach_keys(*data, included@, included@.len() as nat),
            forall|j: int| 0 <= j < i ==> reached(keys_of(acc@), #[trigger] included@[j]),
        decreases included@.len() - i,
    {
        let ro = &included[i];
        let hit = match &ro.id {
            Some(id) => key_member(&acc, ro.rtype.as_str(), id.as_str()),
            None => false,
        };
        if !hit {
            return false;
        }
        i += 1;
    }
    true
}

} // verus!
