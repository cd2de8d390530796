//! The statement grammar: `REMOVE <ws> SCOPE <ws> <identifier>`, keywords
//! case-insensitive, `<ws>` one or more whitespace characters.

use crate::err::Error;
use crate::ident::{ident_char, is_ident_char, valid_ident, Ident};
use crate::statement::{rendered, RemoveScopeStatement};
use vstd::prelude::*;

verus! {

/// A whitespace character the grammar accepts between tokens.
pub open spec fn is_space_char(c: char) -> bool {
    c == ' ' || c == '\t' || c == '\r' || c == '\n'
}

/// The code point of `c` with an ASCII capital letter folded to lower case.
pub open spec fn lower_code(c: char) -> u32 {
    if 'A' as u32 <= c as u32 && c as u32 <= 'Z' as u32 {
        ((c as u32) + 32) as u32
    } else {
        c as u32
    }
}

/// The keyword `REMOVE` stands at position `i` of `s`, in any case.
pub open spec fn remove_keyword_at(s: Seq<char>, i: int) -> bool {
    &&& i + 6 <= s.len()
    &&& lower_code(s[i]) == 'r' as u32
    &&& lower_code(s[i + 1]) == 'e' as u32
    &&& lower_code(s[i + 2]) == 'm' as u32
    &&& lower_code(s[i + 3]) == 'o' as u32
    &&& lower_code(s[i + 4]) == 'v' as u32
    &&& lower_code(s[i + 5]) == 'e' as u32
}

/// The keyword `SCOPE` stands at position `i` of `s`, in any case.
pub open spec fn scope_keyword_at(s: Seq<char>, i: int) -> bool {
    &&& i + 5 <= s.len()
    &&& lower_code(s[i]) == 's' as u32
    &&& lower_code(s[i + 1]) == 'c' as u32
    &&& lower_code(s[i + 2]) == 'o' as u32
    &&& lower_code(s[i + 3]) == 'p' as u32
    &&& lower_code(s[i + 4]) == 'e' as u32
}

/// The first position at or after `i` that does not continue a whitespace
/// run begun at `i`.
pub open spec fn space_run_end(s: Seq<char>, i: int) -> int
    decreases s.len() - i when 0 <= i <= s.len()
{
    if i < s.len() && is_space_char(s[i]) {
        space_run_end(s, i + 1)
    } else {
        i
    }
}

/// The first position at or after `i` that does not continue an identifier
/// run begun at `i`.
pub open spec fn ident_run_end(s: Seq<char>, i: int) -> int
    decreases s.len() - i when 0 <= i <= s.len()
{
    if i < s.len() && is_ident_char(s[i]) {
        ident_run_end(s, i + 1)
    } else {
        i
    }
}

/// What the grammar makes of `s`: the scope name and the unconsumed
/// remainder when `s` begins with a removal statement, nothing otherwise.
pub open spec fn spec_scope(s: Seq<char>) -> Option<(Seq<char>, Seq<char>)> {
    if !remove_keyword_at(s, 0) {
        None
    } else {
        let b = space_run_end(s, 6);
        if b == 6 || !scope_keyword_at(s, b) {
            None
        } else {
            let d = space_run_end(s, b + 5);
            if d == b + 5 {
                None
            } else {
                let e = ident_run_end(s, d);
                if e == d {
                    None
                } else {
                    Some((s.subrange(d, e), s.subrange(e, s.len() as int)))
                }
            }
        }
    }
}

proof fn lemma_space_run_end(s: Seq<char>, i: int, j: int)
    requires
        0 <= i <= j <= s.len(),
        forall|k: int| i <= k < j ==> is_space_char(s[k]),
        j == s.len() || !is_space_char(s[j]),
    ensures
        space_run_end(s, i) == j,
    decreases j - i,
{
    if i < j {
        lemma_space_run_end(s, i + 1, j);
    }
}

proof fn lemma_ident_run_end(s: Seq<char>, i: int, j: int)
    requires
        0 <= i <= j <= s.len(),
        forall|k: int| i <= k < j ==> is_ident_char(s[k]),
        j == s.len() || !is_ident_char(s[j]),
    ensures
        ident_run_end(s, i) == j,
    decreases j - i,
{
    if i < j {
        lemma_ident_run_end(s, i + 1, j);
    }
}

proof fn lemma_ident_char_not_space(c: char)
    requires
        is_ident_char(c),
    ensures
        !is_space_char(c),
{
}

/// Decides [`is_space_char`].
pub fn space_char(c: char) -> (r: bool)
    ensures
        r == is_space_char(c),
{
    c == ' ' || c == '\t' || c == '\r' || c == '\n'
}

/// Folds an ASCII capital letter to lower case, as [`lower_code`] does.
pub fn lower(c: char) -> (r: u32)
    ensures
        r == lower_code(c),
{
    let u = c as u32;
    if 'A' as u32 <= u && u <= 'Z' as u32 {
        u + 32
    } else {
        u
    }
}

/// Walks the whitespace run of `i` that begins at `from`.
fn space_run(i: &str, from: usize, n: usize) -> (end: usize)
    requires
        n == i@.len(),
        from <= n,
    ensures
        from <= end <= n,
        end == space_run_end(i@, from as int),
        forall|k: int| from <= k < end ==> is_space_char(i@[k]),
{
    let mut pos = from;
    while pos < n && space_char(i.get_char(pos))
        invariant
            from <= pos <= n,
            n == i@.len(),
            forall|k: int| from <= k < pos ==> is_space_char(i@[k]),
        decreases n - pos,
    {
        pos = pos + 1;
    }
    proof {
        lemma_space_run_end(i@, from as int, pos as int);
    }
    pos
}

/// Walks the identifier run of `i` that begins at `from`.
fn ident_run(i: &str, from: usize, n: usize) -> (end: usize)
    requires
        n == i@.len(),
        from <= n,
    ensures
        from <= end <= n,
        end == ident_run_end(i@, from as int),
        forall|k: int| from <= k < end ==> is_ident_char(i@[k]),
{
    let mut pos = from;
    while pos < n && ident_char(i.get_char(pos))
        invariant
            from <= pos <= n,
            n == i@.len(),
            forall|k: int| from <= k < pos ==> is_ident_char(i@[k]),
        decreases n - pos,
    {
        pos = pos + 1;
    }
    proof {
        lemma_ident_run_end(i@, from as int, pos as int);
    }
    pos
}

/// Recognizes a removal statement at the head of `i`: the case-insensitive
/// keyword `REMOVE`, mandatory whitespace, the case-insensitive keyword
/// `SCOPE`, mandatory whitespace, and one identifier. Returns the
/// unconsumed remainder beside the command value; any input the grammar
/// does not accept yields a parse error and nothing else.
pub fn scope<'a>(i: &'a str) -> (r: Result<(&'a str, RemoveScopeStatement), Error>)
    ensures
        r matches Ok(p) ==> spec_scope(i@) == Some((p.1.name@, p.0@)) && p.1.name.wf(),
        r is Err ==> spec_scope(i@) is None && r->Err_0 == Error::Parse,
{
    let n = i.unicode_len();
    if n < 6 {
        return Err(Error::Parse);
    }
    if !(lower(i.get_char(0)) == 'r' as u32 && lower(i.get_char(1)) == 'e' as u32 && lower(
        i.get_char(2),
    ) == 'm' as u32 && lower(i.get_char(3)) == 'o' as u32 && lower(i.get_char(4)) == 'v' as u32
        && lower(i.get_char(5)) == 'e' as u32) {
        return Err(Error::Parse);
    }
    let b = space_run(i, 6, n);
    if b == 6 {
        return Err(Error::Parse);
    }
    if n - b < 5 {
        return Err(Error::Parse);
    }
    if !(lower(i.get_char(b)) == 's' as u32 && lower(i.get_char(b + 1)) == 'c' as u32 && lower(
        i.get_char(b + 2),
    ) == 'o' as u32 && lower(i.get_char(b + 3)) == 'p' as u32 && lower(i.get_char(b + 4))
        == 'e' as u32) {
        return Err(Error::Parse);
    }
    let d = space_run(i, b + 5, n);
    if d == b + 5 {
        return Err(Error::Parse);
    }
    let e = ident_run(i, d, n);
    if e == d {
        return Err(Error::Parse);
    }
    let name_part = i.substring_char(d, e);
    let remainder = i.substring_char(e, n);
    let stmt = RemoveScopeStatement { name: Ident(name_part.to_owned()) };
    Ok((remainder, stmt))
}

/// Law: an input missing any piece of the statement is rejected whole —
/// no partial command comes out. Whatever the grammar does accept begins
/// with the keyword `REMOVE`, mandatory whitespace, the keyword `SCOPE`,
/// mandatory whitespace, and a name the identifier grammar accepts.
pub proof fn lemma_grammar_rejection(s: Seq<char>)
    ensures
        !remove_keyword_at(s, 0) ==> spec_scope(s) is None,
        space_run_end(s, 6) == 6 ==> spec_scope(s) is None,
        !scope_keyword_at(s, space_run_end(s, 6)) ==> spec_scope(s) is None,
        space_run_end(s, space_run_end(s, 6) + 5) == space_run_end(s, 6) + 5 ==> spec_scope(s)
            is None,
        ident_run_end(s, space_run_end(s, space_run_end(s, 6) + 5)) == space_run_end(
            s,
            space_run_end(s, 6) + 5,
        ) ==> spec_scope(s) is None,
        spec_scope(s) matches Some(p) ==> valid_ident(p.0),
{
    if spec_scope(s) is Some {
        let b = space_run_end(s, 6);
        let d = space_run_end(s, b + 5);
        let e = ident_run_end(s, d);
        lemma_space_run_bounds(s, 6);
        lemma_space_run_bounds(s, b + 5);
        lemma_ident_run_bounds(s, d);
        assert forall|k: int| 0 <= k < s.subrange(d, e).len() implies is_ident_char(
            #[trigger] s.subrange(d, e)[k],
        ) by {
            lemma_ident_run_chars(s, d, d + k);
        }
    }
}

proof fn lemma_space_run_bounds(s: Seq<char>, i: int)
    requires
        0 <= i <= s.len(),
    ensures
        i <= space_run_end(s, i) <= s.len(),
    decreases s.len() - i,
{
    if i < s.len() && is_space_char(s[i]) {
        lemma_space_run_bounds(s, i + 1);
    }
}

proof fn lemma_ident_run_bounds(s: Seq<char>, i: int)
    requires
        0 <= i <= s.len(),
    ensures
        i <= ident_run_end(s, i) <= s.len(),
    decreases s.len() - i,
{
    if i < s.len() && is_ident_char(s[i]) {
        lemma_ident_run_bounds(s, i + 1);
    }
}

proof fn lemma_ident_run_chars(s: Seq<char>, i: int, k: int)
    requires
        0 <= i <= s.len(),
        i <= k < ident_run_end(s, i),
    ensures
        is_ident_char(s[k]),
    decreases s.len() - i,
{
    if i < s.len() && is_ident_char(s[i]) {
        if k > i {
            lemma_ident_run_chars(s, i + 1, k);
        }
    } else {
        lemma_ident_run_bounds(s, i);
    }
}

/// Law: rendering a command and parsing the text gives the command back.
/// For every name the identifier grammar accepts, the canonical text
/// `REMOVE SCOPE <name>` parses to exactly that name, with nothing left
/// unconsumed.
pub proof fn lemma_parse_render_round_trip(name: Seq<char>)
    requires
        valid_ident(name),
    ensures
        spec_scope(rendered(name)) == Some((name, Seq::<char>::empty())),
{
    reveal_strlit("REMOVE SCOPE ");
    let s = rendered(name);
    assert(s.len() == 13 + name.len());
    assert(remove_keyword_at(s, 0));
    lemma_space_run_end(s, 6, 7);
    assert(scope_keyword_at(s, 7));
    lemma_ident_char_not_space(name[0]);
    lemma_space_run_end(s, 12, 13);
    assert forall|k: int| 13 <= k < s.len() implies is_ident_char(s[k]) by {
        assert(s[k] == name[k - 13]);
    }
    lemma_ident_run_end(s, 13, s.len() as int);
    assert(s.subrange(13, s.len() as int) =~= name);
    assert(s.subrange(s.len() as int, s.len() as int) =~= Seq::<char>::empty());
}

} // verus!
