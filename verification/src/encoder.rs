//! Identifier encoding: user text is filtered down to the characters that are
//! safe inside a physical SQL identifier.

use vstd::prelude::*;
use crate::text::push_char;

verus! {

/// The characters that may appear in a physical identifier: `A-Z`, `a-z`, `0-9` and `_`.
pub open spec fn is_allowed(c: char) -> bool {
    ||| 'A' <= c <= 'Z'
    ||| 'a' <= c <= 'z'
    ||| '0' <= c <= '9'
    ||| c == '_'
}

/// The allowed characters of `s`, in the order in which they stand in `s`.
pub open spec fn sanitized(s: Seq<char>) -> Seq<char>
    decreases s.len(),
{
    if s.len() == 0 {
        Seq::empty()
    } else if is_allowed(s.last()) {
        sanitized(s.drop_last()).push(s.last())
    } else {
        sanitized(s.drop_last())
    }
}

/// Every character of `s` is allowed.
pub open spec fn all_allowed(s: Seq<char>) -> bool {
    forall|i: int| 0 <= i < s.len() ==> is_allowed(#[trigger] s[i])
}

/// `s` can stand as a physical identifier: it is not empty and every character
/// of it is allowed.
pub open spec fn identifier(s: Seq<char>) -> bool {
    s.len() > 0 && all_allowed(s)
}

/// Decides whether one character may appear in a physical identifier.
pub fn allowed_char(c: char) -> (ok: bool)
    ensures
        ok == is_allowed(c),
{
    (c >= 'A' && c <= 'Z') || (c >= 'a' && c <= 'z') || (c >= '0' && c <= '9') || c == '_'
}

/// Sanitizing keeps a string that is already clean, and only such a string, at its length.
pub proof fn lemma_sanitized_shape(s: Seq<char>)
    ensures
        all_allowed(sanitized(s)),
        sanitized(s).len() <= s.len(),
        all_allowed(s) <==> sanitized(s) == s,
        all_allowed(s) <==> sanitized(s).len() == s.len(),
    decreases s.len(),
{
    if s.len() > 0 {
        let front = s.drop_last();
        lemma_sanitized_shape(front);
        if all_allowed(s) {
            assert forall|i: int| 0 <= i < front.len() implies is_allowed(#[trigger] front[i]) by {
                assert(front[i] == s[i]);
            }
            assert(front.push(s.last()) =~= s);
        }
        if sanitized(s).len() == s.len() {
            assert(is_allowed(s.last()));
            assert(all_allowed(front));
            assert(front.push(s.last()) =~= s);
            assert forall|i: int| 0 <= i < s.len() implies is_allowed(#[trigger] s[i]) by {
                if i < front.len() {
                    assert(front[i] == s[i]);
                }
            }
        }
    } else {
        assert(sanitized(s) =~= s);
    }
}

/// Encodes a string for use as an SQL identifier.
///
/// The result holds the allowed characters of `input` in order. It comes back
/// as `Ok` when nothing was dropped and as `Err` when at least one character was.
pub fn sql_encode(input: &str) -> (r: Result<String, String>)
    ensures
        r is Ok <==> all_allowed(input@),
        r matches Ok(out) ==> out@ == sanitized(input@) && out@ == input@,
        r matches Err(out) ==> out@ == sanitized(input@),
{
    let mut output = String::new();
    let mut safe = true;
    let n = input.unicode_len();
    let mut i: usize = 0;
    while i < n
        invariant
            n == input@.len(),
            i <= n,
            output@ == sanitized(input@.take(i as int)),
            safe <==> all_allowed(input@.take(i as int)),
        decreases n - i,
    {
        let c = input.get_char(i);
        proof {
            let next = input@.take(i + 1);
            assert(next.drop_last() =~= input@.take(i as int));
            assert(next.last() == c);
            lemma_sanitized_shape(next);
            lemma_sanitized_shape(input@.take(i as int));
        }
        if allowed_char(c) {
            push_char(&mut output, c);
        } else {
            safe = false;
        }
        i += 1;
    }
    proof {
        assert(input@.take(n as int) =~= input@);
        lemma_sanitized_shape(input@);
    }
    if safe {
        Ok(output)
    } else {
        Err(output)
    }
}

/// The outcome of encoding: the identifier, and whether any character of the
/// input was dropped on the way.
#[derive(Debug, PartialEq, Eq)]
pub struct Encoding {
    pub sanitized: String,
    pub lossy: bool,
}

/// Sanitizes `input`. This never fails: an input without an allowed character
/// gives the empty string, which callers have to refuse before they use it.
pub fn encode(input: &str) -> (e: Encoding)
    ensures
        e.sanitized@ == sanitized(input@),
        e.lossy == !all_allowed(input@),
        e.lossy == (sanitized(input@) != input@),
{
    proof {
        lemma_sanitized_shape(input@);
    }
    match sql_encode(input) {
        Ok(clean) => Encoding { sanitized: clean, lossy: false },
        Err(kept) => Encoding { sanitized: kept, lossy: true },
    }
}

/// Decides whether `s` can stand as a physical identifier.
pub fn is_identifier(s: &str) -> (ok: bool)
    ensures
        ok == identifier(s@),
{
    match sql_encode(s) {
        Ok(_) => s.unicode_len() > 0,
        Err(_) => false,
    }
}

} // verus!
