//! Validation failures and their JSON-pointer locations.

use vstd::prelude::*;

verus! {

/// The kind of a validation failure.
///
/// The first nine kinds follow the document-validity rules directly; the
/// last two cover malformed input that fits no rule: a member whose JSON
/// type cannot be decoded at its position, and a required member that is
/// absent (other than a link object's `href`, which has its own kind).
#[derive(Clone, Copy, Debug, PartialEq, Eq, Structural)]
pub enum ErrorKind {
    InvalidMemberName,
    ReservedAttributeKey,
    InvalidRelationshipName,
    AmbiguousOrEmptyDocument,
    IncludedWithoutData,
    InconsistentResourceShape,
    UnlinkedIncludedResource,
    MalformedLink,
    UnknownFieldRejected,
    UnexpectedJsonType,
    MissingMember,
}

/// A validation failure: its kind and the path of member names and array
/// indices from the document root to the offending member.
#[derive(Clone, Debug, PartialEq, Eq)]
pub struct DocError {
    pub kind: ErrorKind,
    pub path: Vec<String>,
}

/// The JSON-pointer text of a path: one `/`-prefixed segment per element.
pub open spec fn pointer_of(segs: Seq<Seq<char>>) -> Seq<char>
    decreases segs.len(),
{
    if segs.len() == 0 {
        Seq::<char>::empty()
    } else {
        pointer_of(segs.drop_last()) + "/"@ + segs.last()
    }
}

impl DocError {
    /// A failure at the document root, with an empty path.
    pub fn at_root(kind: ErrorKind) -> (r: DocError)
        ensures
            r.kind == kind,
            r.path@.len() == 0,
    {
        DocError { kind, path: Vec::new() }
    }

    /// Prefixes `seg` to the path, for a caller that found the failure one
    /// level below `seg`.
    pub fn under(self, seg: String) -> (r: DocError)
        ensures
            r.kind == self.kind,
            r.path@ == seq![seg].add(self.path@),
    {
        let mut path = self.path;
        path.insert(0, seg);
        let r = DocError { kind: self.kind, path };
        proof {
            assert(r.path@ =~= seq![seg].add(self.path@));
        }
        r
    }

    /// The JSON-pointer text of the failure's path.
    pub fn pointer(&self) -> (r: String)
        ensures
            r@ == pointer_of(self.path@.map_values(|s: String| s@)),
    {
        let ghost segs = self.path@.map_values(|s: String| s@);
        let mut r = String::new();
        let mut i: usize = 0;
        proof {
            assert(segs.take(0) =~= Seq::<Seq<char>>::empty());
        }
        while i < self.path.len()
            invariant
                i <= self.path@.len(),
                segs == self.path@.map_values(|s: String| s@),
                r@ == pointer_of(segs.take(i as int)),
            decreases self.path@.len() - i,
        {
            r.append("/");
            r.append(self.path[i].as_str());
            i += 1;
            proof {
                assert(segs.take(i as int).drop_last() =~= segs.take(i as int - 1));
            }
        }
        proof {
            assert(segs.take(segs.len() as int) =~= segs);
        }
        r
    }
}

} // verus!
