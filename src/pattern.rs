use vstd::prelude::*;
use vstd::string::StrSliceExecFns;

verus! {

/// A namespace path such as `/a/b`, compared byte for byte.
#[derive(Clone, Debug, Eq, Hash, PartialEq)]
pub struct Pattern(String);

impl View for Pattern {
    type V = Seq<char>;

    closed spec fn view(&self) -> Seq<char> {
        self.0@
    }
}

/// `a` contains `b` when they are equal, or when `b` extends `a` at a segment
/// boundary: either `a` is the one-character root, or the character of `b`
/// right after the shared prefix is `/`.
pub open spec fn pattern_contains(a: Seq<char>, b: Seq<char>) -> bool {
    a == b || (a.len() < b.len() && b.take(a.len() as int) == a && (a.len() == 1
        || b[a.len() as int] == '/'))
}

/// Every pattern contains itself.
pub proof fn lemma_contains_itself(a: Seq<char>)
    ensures
        pattern_contains(a, a),
{
}

impl Pattern {
    /// Wraps the text as it is.
    pub fn new(pattern: &str) -> (r: Pattern)
        ensures
            r@ == pattern@,
    {
        Pattern(pattern.to_owned())
    }

    /// Wraps an owned string as it is.
    pub fn from_string(pattern: String) -> (r: Pattern)
        ensures
            r@ == pattern@,
    {
        Pattern(pattern)
    }

    /// The namespace text.
    pub fn as_str(&self) -> (r: &str)
        ensures
            r@ == self@,
    {
        self.0.as_str()
    }

    /// The more generic pattern contains the more specific one.
    pub fn contains(&self, other: &Pattern) -> (r: bool)
        ensures
            r == pattern_contains(self@, other@),
    {
        let a = self.0.as_str();
        let b = other.0.as_str();
        let la = a.unicode_len();
        let lb = b.unicode_len();
        if la > lb {
            return false;
        }
        let mut i: usize = 0;
        while i < la
            invariant
                a@ == self@,
                b@ == other@,
                la == a@.len(),
                lb == b@.len(),
                la <= lb,
                i <= la,
                forall|j: int| 0 <= j < i ==> a@[j] == b@[j],
            decreases la - i,
        {
            if a.get_char(i) != b.get_char(i) {
                assert(b@.take(la as int)[i as int] != a@[i as int]);
                return false;
            }
            i = i + 1;
        }
        assert(b@.take(la as int) =~= a@);
        if la == lb {
            assert(a@ =~= b@);
            return true;
        }
        la == 1 || b.get_char(la) == '/'
    }
}

impl core::ops::Deref for Pattern {
    type Target = String;

    fn deref(&self) -> &String {
        &self.0
    }
}

impl<'a> From<&'a str> for Pattern {
    fn from(s: &'a str) -> Pattern {
        Pattern::new(s)
    }
}

impl<'a> vstd::std_specs::convert::FromSpecImpl<&'a str> for Pattern {
    open spec fn obeys_from_spec() -> bool {
        false
    }

    open spec fn from_spec(v: &'a str) -> Pattern {
        arbitrary()
    }
}

impl From<String> for Pattern {
    fn from(s: String) -> Pattern {
        Pattern::from_string(s)
    }
}

impl vstd::std_specs::convert::FromSpecImpl<String> for Pattern {
    open spec fn obeys_from_spec() -> bool {
        false
    }

    open spec fn from_spec(v: String) -> Pattern {
        arbitrary()
    }
}

} // verus!
