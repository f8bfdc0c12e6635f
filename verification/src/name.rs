//! Member names: the allowed-character grammar and the validated `Name` type.
//!
//! A member name must contain at least one character, must start and end
//! with a globally allowed character (an ASCII letter, an ASCII digit, or
//! any code point at or above U+0080), and may additionally contain `-`,
//! `_` and space in interior positions.  Every other ASCII character is
//! forbidden everywhere.  Names are case sensitive; no normalization is
//! performed.

use vstd::prelude::*;

use crate::error::DocError;
use crate::error::ErrorKind;

verus! {

/// A character that may appear anywhere in a member name: ASCII letters,
/// ASCII digits, and every code point at or above U+0080.
pub open spec fn globally_allowed(c: char) -> bool {
    ||| 'a' <= c && c <= 'z'
    ||| 'A' <= c && c <= 'Z'
    ||| '0' <= c && c <= '9'
    ||| c as u32 >= 0x80
}

/// A character that may appear in an interior position of a member name.
pub open spec fn interior_allowed(c: char) -> bool {
    ||| globally_allowed(c)
    ||| c == '-'
    ||| c == '_'
    ||| c == ' '
}

/// The member-name grammar: non-empty, globally allowed first and last
/// character, interior characters drawn from the interior set.
pub open spec fn valid_name(s: Seq<char>) -> bool {
    &&& s.len() >= 1
    &&& globally_allowed(s[0])
    &&& globally_allowed(s[s.len() - 1])
    &&& forall|i: int| 0 < i < s.len() - 1 ==> interior_allowed(#[trigger] s[i])
}

/// Decides `globally_allowed` for one character.
pub fn is_globally_allowed(c: char) -> (r: bool)
    ensures
        r == globally_allowed(c),
{
    ('a' <= c && c <= 'z') || ('A' <= c && c <= 'Z') || ('0' <= c && c <= '9') || (c as u32
        >= 0x80)
}

/// Decides `interior_allowed` for one character.
pub fn is_interior_allowed(c: char) -> (r: bool)
    ensures
        r == interior_allowed(c),
{
    is_globally_allowed(c) || c == '-' || c == '_' || c == ' '
}

/// Decides the member-name grammar for a whole string.
pub fn is_valid_name(s: &str) -> (r: bool)
    ensures
        r == valid_name(s@),
{
    let n = s.unicode_len();
    if n == 0 {
        return false;
    }
    if !is_globally_allowed(s.get_char(0)) {
        return false;
    }
    if !is_globally_allowed(s.get_char(n - 1)) {
        return false;
    }
    let mut i: usize = 1;
    while i < n - 1
        invariant
            1 <= i,
            i <= n,
            n == s@.len(),
            n >= 1,
            globally_allowed(s@[0]),
            globally_allowed(s@[n - 1]),
            forall|j: int| 0 < j < i ==> interior_allowed(#[trigger] s@[j]),
        decreases n - i,
    {
        if !is_interior_allowed(s.get_char(i)) {
            return false;
        }
        i += 1;
    }
    true
}

/// A validated member name.  Construction through [`Name::new`] is the only
/// validation point; a `Name` always satisfies the grammar.
#[derive(Debug, PartialEq, Eq)]
pub struct Name {
    s: String,
}

impl View for Name {
    type V = Seq<char>;

    closed spec fn view(&self) -> Seq<char> {
        self.s@
    }
}

impl Name {
    #[verifier::type_invariant]
    closed spec fn inv(self) -> bool {
        valid_name(self.s@)
    }

    /// Validates `s` against the member-name grammar.  Returns the name
    /// exactly when the grammar holds; otherwise reports
    /// `InvalidMemberName`.
    pub fn new(s: String) -> (r: Result<Name, DocError>)
        ensures
            valid_name(s@) <==> r is Ok,
            r matches Ok(n) ==> n@ == s@,
            r matches Err(e) ==> e.kind == ErrorKind::InvalidMemberName && e.path@.len() == 0,
    {
        if is_valid_name(s.as_str()) {
            Ok(Name { s })
        } else {
            Err(DocError::at_root(ErrorKind::InvalidMemberName))
        }
    }

    /// The underlying string.
    pub fn as_str(&self) -> (r: &str)
        ensures
            r@ == self@,
    {
        self.s.as_str()
    }

    /// A `Name` satisfies the grammar by construction.
    pub fn check_valid(&self)
        ensures
            valid_name(self@),
    {
        proof {
            use_type_invariant(self);
        }
    }
}

/// The grammar rejects the empty string, rejects every single character
/// that is not globally allowed, and accepts every single character that
/// is.
pub proof fn lemma_name_grammar_edges(s: Seq<char>)
    ensures
        s.len() == 0 ==> !valid_name(s),
        s.len() == 1 && !globally_allowed(s[0]) ==> !valid_name(s),
        s.len() == 1 && globally_allowed(s[0]) ==> valid_name(s),
{
}

} // verus!
