//! Validated identifiers naming a scope.

use vstd::prelude::*;

verus! {

/// A character accepted inside a plain identifier: an ASCII letter, an
/// ASCII digit, or an underscore.
pub open spec fn is_ident_char(c: char) -> bool {
    ('a' as u32 <= c as u32 && c as u32 <= 'z' as u32)
        || ('A' as u32 <= c as u32 && c as u32 <= 'Z' as u32)
        || ('0' as u32 <= c as u32 && c as u32 <= '9' as u32)
        || c == '_'
}

/// A name accepted by the identifier grammar: non-empty, and made of
/// identifier characters only.
pub open spec fn valid_ident(s: Seq<char>) -> bool {
    s.len() > 0 && forall|k: int| 0 <= k < s.len() ==> is_ident_char(s[k])
}

/// Decides [`is_ident_char`].
pub fn ident_char(c: char) -> (r: bool)
    ensures
        r == is_ident_char(c),
{
    let u = c as u32;
    ('a' as u32 <= u && u <= 'z' as u32) || ('A' as u32 <= u && u <= 'Z' as u32) || ('0' as u32
        <= u && u <= '9' as u32) || c == '_'
}

/// An identifier: an opaque validated name string.
///
/// Values built by [`Ident::new`] or by the statement grammar satisfy
/// [`Ident::wf`]; the canonical renderer and the executor accept any value,
/// so a default (empty) identifier is representable but never parses.
#[derive(Debug, Hash)]
pub struct Ident(pub String);

impl View for Ident {
    type V = Seq<char>;

    open spec fn view(&self) -> Seq<char> {
        self.0@
    }
}

impl Ident {
    /// The identifier grammar's invariant.
    pub open spec fn wf(&self) -> bool {
        valid_ident(self@)
    }

    /// Validates `s` against the identifier grammar.
    pub fn new(s: String) -> (r: Option<Ident>)
        ensures
            r is Some <==> valid_ident(s@),
            r matches Some(id) ==> id@ == s@ && id.wf(),
    {
        let n = s.as_str().unicode_len();
        if n == 0 {
            return None;
        }
        let mut i: usize = 0;
        while i < n
            invariant
                i <= n,
                n == s@.len(),
                forall|k: int| 0 <= k < i ==> is_ident_char(s@[k]),
            decreases n - i,
        {
            if !ident_char(s.as_str().get_char(i)) {
                return None;
            }
            i += 1;
        }
        Some(Ident(s))
    }
}

impl Clone for Ident {
    fn clone(&self) -> (r: Self)
        ensures
            r == *self,
    {
        Ident(self.0.clone())
    }
}

impl PartialEq for Ident {
    fn eq(&self, other: &Ident) -> (r: bool) {
        self.0 == other.0
    }
}

impl Eq for Ident {

}

impl vstd::std_specs::cmp::PartialEqSpecImpl for Ident {
    open spec fn obeys_eq_spec() -> bool {
        true
    }

    open spec fn eq_spec(&self, other: &Ident) -> bool {
        self.0@ == other.0@
    }
}

impl Default for Ident {
    /// The default identifier is empty and therefore not well-formed.
    fn default() -> (r: Self)
        ensures
            r@ == Seq::<char>::empty(),
    {
        Ident(String::new())
    }
}

} // verus!
