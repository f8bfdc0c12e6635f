//! The untyped JSON value tree that documents are decoded from and encoded
//! into.
//!
//! Lexing and printing are out of scope: an external codec produces and
//! consumes this tree.  Numbers are held as their literal text so that no
//! precision is lost in transit; the document-validity rules never inspect
//! a number's value.  Objects hold their members in order as key/value
//! pairs.

use vstd::prelude::*;

verus! {

/// One JSON value.
#[derive(Debug, PartialEq, Eq)]
pub enum JsonValue {
    Null,
    Bool(bool),
    /// The literal text of a JSON number, as the codec read or will print it.
    Number(String),
    Text(String),
    Arr(Vec<JsonValue>),
    Obj(Vec<(String, JsonValue)>),
}

/// Whether an object's members contain the key `k`.
pub open spec fn has_key(fs: Seq<(String, JsonValue)>, k: Seq<char>) -> bool {
    exists|i: int| 0 <= i < fs.len() && #[trigger] fs[i].0@ == k
}

/// Compares two strings character by character.
pub fn str_eq(a: &str, b: &str) -> (r: bool)
    ensures
        r == (a@ == b@),
{
    let alen = a.unicode_len();
    let blen = b.unicode_len();
    if alen != blen {
        return false;
    }
    let mut i: usize = 0;
    while i < alen
        invariant
            i <= alen,
            alen == a@.len(),
            alen == b@.len(),
            forall|j: int| 0 <= j < i ==> a@[j] == b@[j],
        decreases alen - i,
    {
        if a.get_char(i) != b.get_char(i) {
            return false;
        }
        i += 1;
    }
    proof {
        assert(a@ =~= b@);
    }
    true
}

/// The value of the first member named `k`, if any.
pub open spec fn first_entry(fs: Seq<(String, JsonValue)>, k: Seq<char>) -> Option<JsonValue>
    decreases fs.len(),
{
    if fs.len() == 0 {
        None
    } else if fs[0].0@ == k {
        Some(fs[0].1)
    } else {
        first_entry(fs.drop_first(), k)
    }
}

/// The members left after removing the first member named `k`, if any.
pub open spec fn remove_first(fs: Seq<(String, JsonValue)>, k: Seq<char>) -> Seq<
    (String, JsonValue),
>
    decreases fs.len(),
{
    if fs.len() == 0 {
        fs
    } else if fs[0].0@ == k {
        fs.drop_first()
    } else {
        seq![fs[0]] + remove_first(fs.drop_first(), k)
    }
}

/// Removing an absent member changes nothing.
pub proof fn lemma_remove_first_absent(fs: Seq<(String, JsonValue)>, k: Seq<char>)
    requires
        forall|j: int| 0 <= j < fs.len() ==> (#[trigger] fs[j].0)@ != k,
    ensures
        remove_first(fs, k) == fs,
    decreases fs.len(),
{
    if fs.len() > 0 {
        lemma_remove_first_absent(fs.drop_first(), k);
        assert(seq![fs[0]] + fs.drop_first() =~= fs);
    }
}

/// Removing at the index of the first match is removing the first match.
pub proof fn lemma_remove_at_first_match(fs: Seq<(String, JsonValue)>, i: int, k: Seq<char>)
    requires
        0 <= i < fs.len(),
        fs[i].0@ == k,
        forall|j: int| 0 <= j < i ==> (#[trigger] fs[j].0)@ != k,
    ensures
        fs.remove(i) == remove_first(fs, k),
    decreases i,
{
    if i == 0 {
        assert(fs.remove(0) =~= fs.drop_first());
    } else {
        lemma_remove_at_first_match(fs.drop_first(), i - 1, k);
        assert(fs.remove(i) =~= seq![fs[0]] + fs.drop_first().remove(i - 1));
    }
}

/// Removing the first member named `k` leaves the first member named any
/// other `k2` unchanged.
pub proof fn lemma_first_entry_remove_first(
    fs: Seq<(String, JsonValue)>,
    k: Seq<char>,
    k2: Seq<char>,
)
    requires
        k2 != k,
    ensures
        first_entry(remove_first(fs, k), k2) == first_entry(fs, k2),
    decreases fs.len(),
{
    if fs.len() == 0 {
    } else if fs[0].0@ == k {
    } else {
        lemma_first_entry_remove_first(fs.drop_first(), k, k2);
        assert((seq![fs[0]] + remove_first(fs.drop_first(), k))[0] == fs[0]);
        assert((seq![fs[0]] + remove_first(fs.drop_first(), k)).drop_first() =~= remove_first(
            fs.drop_first(),
            k,
        ));
    }
}

/// The first member named `k`, when the members at all other indices are
/// named otherwise.
pub proof fn lemma_first_entry_unique(fs: Seq<(String, JsonValue)>, i: int, k: Seq<char>)
    requires
        0 <= i < fs.len(),
        fs[i].0@ == k,
        forall|j: int| 0 <= j < i ==> (#[trigger] fs[j].0)@ != k,
    ensures
        first_entry(fs, k) == Some(fs[i].1),
    decreases i,
{
    if i > 0 {
        lemma_first_entry_unique(fs.drop_first(), i - 1, k);
    }
}

/// No member named `k` means no first member named `k`.
pub proof fn lemma_first_entry_absent(fs: Seq<(String, JsonValue)>, k: Seq<char>)
    requires
        forall|j: int| 0 <= j < fs.len() ==> (#[trigger] fs[j].0)@ != k,
    ensures
        first_entry(fs, k) is None,
    decreases fs.len(),
{
    if fs.len() > 0 {
        lemma_first_entry_absent(fs.drop_first(), k);
    }
}

/// Removing a member whose name is not `k2` leaves the first member named
/// `k2` unchanged.
pub proof fn lemma_first_entry_remove(fs: Seq<(String, JsonValue)>, i: int, k2: Seq<char>)
    requires
        0 <= i < fs.len(),
        fs[i].0@ != k2,
    ensures
        first_entry(fs.remove(i), k2) == first_entry(fs, k2),
    decreases i,
{
    if i == 0 {
        assert(fs.remove(0) =~= fs.drop_first());
    } else {
        assert(fs.remove(i).drop_first() =~= fs.drop_first().remove(i - 1));
        lemma_first_entry_remove(fs.drop_first(), i - 1, k2);
    }
}

/// A key stays present when a member is appended.
pub proof fn lemma_has_key_push(fs: Seq<(String, JsonValue)>, x: (String, JsonValue), k: Seq<char>)
    requires
        has_key(fs, k),
    ensures
        has_key(fs.push(x), k),
{
    let j = choose|j: int| 0 <= j < fs.len() && (#[trigger] fs[j].0)@ == k;
    assert(fs.push(x)[j] == fs[j]);
}

/// The member names of a full resource object that are not identifier
/// members differ from all three identifier member names.
pub proof fn lemma_resource_keys()
    ensures
        "attributes"@ != "type"@ && "attributes"@ != "id"@ && "attributes"@ != "meta"@,
        "relationships"@ != "type"@ && "relationships"@ != "id"@ && "relationships"@ != "meta"@,
        "links"@ != "type"@ && "links"@ != "id"@ && "links"@ != "meta"@,
        "attributes"@ != "relationships"@ && "attributes"@ != "links"@,
        "relationships"@ != "links"@,
{
    broadcast use vstd::string::group_string_axioms;

    reveal_strlit("attributes");
    reveal_strlit("relationships");
    reveal_strlit("links");
    reveal_strlit("type");
    reveal_strlit("id");
    reveal_strlit("meta");
    assert("attributes"@.len() == 10);
    assert("relationships"@.len() == 13);
    assert("links"@.len() == 5);
    assert("type"@.len() == 4);
    assert("id"@.len() == 2);
    assert("meta"@.len() == 4);
}

/// The eight member names of an error object are pairwise distinct.
pub proof fn lemma_error_keys()
    ensures
        "id"@ != "links"@,
        "id"@ != "status"@,
        "id"@ != "code"@,
        "id"@ != "title"@,
        "id"@ != "detail"@,
        "id"@ != "source"@,
        "id"@ != "meta"@,
        "links"@ != "status"@,
        "links"@ != "code"@,
        "links"@ != "title"@,
        "links"@ != "detail"@,
        "links"@ != "source"@,
        "links"@ != "meta"@,
        "status"@ != "code"@,
        "status"@ != "title"@,
        "status"@ != "detail"@,
        "status"@ != "source"@,
        "status"@ != "meta"@,
        "code"@ != "title"@,
        "code"@ != "detail"@,
        "code"@ != "source"@,
        "code"@ != "meta"@,
        "title"@ != "detail"@,
        "title"@ != "source"@,
        "title"@ != "meta"@,
        "detail"@ != "source"@,
        "detail"@ != "meta"@,
        "source"@ != "meta"@,
{
    broadcast use vstd::string::group_string_axioms;

    reveal_strlit("id");
    reveal_strlit("links");
    reveal_strlit("status");
    reveal_strlit("code");
    reveal_strlit("title");
    reveal_strlit("detail");
    reveal_strlit("source");
    reveal_strlit("meta");
    assert("id"@.len() == 2);
    assert("links"@.len() == 5);
    assert("status"@.len() == 6);
    assert("code"@.len() == 4);
    assert("title"@.len() == 5);
    assert("detail"@.len() == 6);
    assert("source"@.len() == 6);
    assert("meta"@.len() == 4);
    assert("links"@[0] == 'l');
    assert("title"@[0] == 't');
    assert("code"@[0] == 'c');
    assert("meta"@[0] == 'm');
    assert("detail"@[0] == 'd');
    assert("status"@[1] == 't');
    assert("source"@[1] == 'o');
}

/// The distinctness of the remaining member-name pairs that share an
/// object: a link object's, the `jsonapi` object's, and an error
/// source's.
pub proof fn lemma_misc_keys()
    ensures
        "href"@ != "meta"@,
        "version"@ != "meta"@,
        "pointer"@ != "parameter"@,
{
    broadcast use vstd::string::group_string_axioms;

    reveal_strlit("href");
    reveal_strlit("meta");
    reveal_strlit("version");
    reveal_strlit("pointer");
    reveal_strlit("parameter");
    assert("href"@.len() == 4);
    assert("meta"@.len() == 4);
    assert("version"@.len() == 7);
    assert("pointer"@.len() == 7);
    assert("parameter"@.len() == 9);
    assert("href"@[0] == 'h');
    assert("meta"@[0] == 'm');
}

/// The three member names of a resource identifier object are pairwise
/// distinct.
pub proof fn lemma_identifier_keys()
    ensures
        "type"@ != "id"@,
        "type"@ != "meta"@,
        "id"@ != "meta"@,
{
    broadcast use vstd::string::group_string_axioms;

    reveal_strlit("type");
    reveal_strlit("id");
    reveal_strlit("meta");
    assert("type"@.len() == 4);
    assert("id"@.len() == 2);
    assert("meta"@.len() == 4);
    assert("type"@[0] == 't');
    assert("meta"@[0] == 'm');
}

/// The six top-level member names of a document are pairwise distinct.
pub proof fn lemma_top_level_keys()
    ensures
        "data"@ != "errors"@,
        "data"@ != "meta"@,
        "data"@ != "links"@,
        "data"@ != "jsonapi"@,
        "data"@ != "included"@,
        "errors"@ != "meta"@,
        "errors"@ != "links"@,
        "errors"@ != "jsonapi"@,
        "errors"@ != "included"@,
        "meta"@ != "links"@,
        "meta"@ != "jsonapi"@,
        "meta"@ != "included"@,
        "links"@ != "jsonapi"@,
        "links"@ != "included"@,
        "jsonapi"@ != "included"@,
{
    broadcast use vstd::string::group_string_axioms;

    reveal_strlit("data");
    reveal_strlit("errors");
    reveal_strlit("meta");
    reveal_strlit("links");
    reveal_strlit("jsonapi");
    reveal_strlit("included");
    assert("data"@.len() == 4);
    assert("errors"@.len() == 6);
    assert("meta"@.len() == 4);
    assert("links"@.len() == 5);
    assert("jsonapi"@.len() == 7);
    assert("included"@.len() == 8);
    assert("data"@[0] == 'd');
    assert("meta"@[0] == 'm');
}

/// Whether the members `fs` contain the key `k`.
pub fn obj_has_key(fs: &Vec<(String, JsonValue)>, k: &str) -> (r: bool)
    ensures
        r == has_key(fs@, k@),
{
    let mut i: usize = 0;
    while i < fs.len()
        invariant
            i <= fs@.len(),
            forall|j: int| 0 <= j < i ==> #[trigger] fs@[j].0@ != k@,
        decreases fs@.len() - i,
    {
        if str_eq(fs[i].0.as_str(), k) {
            return true;
        }
        i += 1;
    }
    false
}

} // verus!
