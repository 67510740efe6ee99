//! A validated name token, the key for rules, node types, and fields.
use vstd::prelude::*;
use vstd::string::StrSliceExecFns;

verus! {

/// A character that may open an identifier: a letter or an underscore.
pub open spec fn is_ident_start(c: char) -> bool {
    ('a' <= c && c <= 'z') || ('A' <= c && c <= 'Z') || c == '_'
}

/// A character that may continue an identifier: a letter, a digit, or an
/// underscore.
pub open spec fn is_ident_continue(c: char) -> bool {
    is_ident_start(c) || ('0' <= c && c <= '9')
}

/// A well-formed identifier: non-empty, opening with a letter or an
/// underscore, continuing with letters, digits, or underscores.
pub open spec fn valid_ident(s: Seq<char>) -> bool {
    &&& s.len() > 0
    &&& is_ident_start(s[0])
    &&& forall|i: int| 1 <= i < s.len() ==> is_ident_continue(#[trigger] s[i])
}

/// The views of a list of identifiers.
pub open spec fn view_idents(s: Seq<Identifier>) -> Seq<Seq<char>> {
    s.map_values(|x: Identifier| x@)
}

/// Decides `valid_ident` on a string slice.
pub fn is_valid_identifier(s: &str) -> (r: bool)
    ensures
        r == valid_ident(s@),
{
    let len = s.unicode_len();
    if len == 0 {
        return false;
    }
    let first = s.get_char(0);
    if !(('a' <= first && first <= 'z') || ('A' <= first && first <= 'Z') || first == '_') {
        return false;
    }
    let mut i: usize = 1;
    while i < len
        invariant
            1 <= i <= len,
            len == s@.len(),
            is_ident_start(s@[0]),
            forall|j: int| 1 <= j < i ==> is_ident_continue(#[trigger] s@[j]),
        decreases len - i,
    {
        let c = s.get_char(i);
        if !(('a' <= c && c <= 'z') || ('A' <= c && c <= 'Z') || c == '_' || ('0' <= c && c <= '9')) {
            return false;
        }
        i = i + 1;
    }
    true
}

/// A validated name token; immutable once constructed; equality by exact
/// string.  Used as the unique key for rules, node types, and fields.
#[derive(Clone, Debug)]
pub struct Identifier {
    text: String,
}

impl View for Identifier {
    type V = Seq<char>;

    closed spec fn view(&self) -> Seq<char> {
        self.text@
    }
}

impl Identifier {
    /// Every constructed identifier satisfies `valid_ident`.
    pub open spec fn wf(self) -> bool {
        valid_ident(self@)
    }

    /// Validates and wraps a name; returns `None` exactly when the text is
    /// not a well-formed identifier.
    pub fn new(text: String) -> (r: Option<Identifier>)
        ensures
            match r {
                Some(id) => valid_ident(text@) && id@ == text@,
                None => !valid_ident(text@),
            },
    {
        if is_valid_identifier(text.as_str()) {
            Some(Identifier { text })
        } else {
            None
        }
    }

    /// A copy whose model equals this identifier's.
    pub fn duplicate(&self) -> (r: Identifier)
        ensures
            r@ == self@,
    {
        Identifier { text: self.text.clone() }
    }

    /// The identifier's text.
    pub fn as_str(&self) -> (r: &str)
        ensures
            r@ == self@,
    {
        self.text.as_str()
    }

    /// True exactly when the two identifiers hold the same text.
    pub fn same_as(&self, other: &Identifier) -> (r: bool)
        ensures
            r == (self@ == other@),
    {
        self.text == other.text
    }

    /// True exactly when the identifier's text equals the given string.
    pub fn text_is(&self, other: &str) -> (r: bool)
        ensures
            r == (self@ == other@),
    {
        let len = self.text.as_str().unicode_len();
        let olen = other.unicode_len();
        if len != olen {
            return false;
        }
        let mut i: usize = 0;
        while i < len
            invariant
                0 <= i <= len,
                len == self@.len(),
                len == other@.len(),
                forall|j: int| 0 <= j < i ==> self@[j] == other@[j],
            decreases len - i,
        {
            if self.text.as_str().get_char(i) != other.get_char(i) {
                return false;
            }
            i = i + 1;
        }
        proof {
            assert(self@ =~= other@);
        }
        true
    }
}

} // verus!
