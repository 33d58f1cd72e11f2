//! Tool call ids.
//!
//! The Messages API takes a `tool_use.id` of ASCII letters, digits, `_` and
//! `-` only. Upstreams also send ids with dots, colons, slashes or other
//! characters in them, and empty ids.

use vstd::prelude::*;

use crate::text::{chars_of, is_ascii_alphanumeric};
use crate::util::random::{is_lower_hex, is_uuid_text, new_uuid};

verus! {

/// The characters that an id may have.
pub open spec fn is_id_char(c: char) -> bool {
    is_ascii_alphanumeric(c) || c == '_' || c == '-'
}

/// An id that the Messages API takes.
pub open spec fn is_id(s: Seq<char>) -> bool {
    s.len() > 0 && forall|i: int| 0 <= i < s.len() ==> is_id_char(#[trigger] s[i])
}

/// `s` with an underscore in place of each character that no id may have.
pub open spec fn cleaned(s: Seq<char>) -> Seq<char> {
    s.map_values(
        |c: char|
            if is_id_char(c) {
                c
            } else {
                '_'
            },
    )
}

/// The id under which a call with the upstream's id `s` goes to the client;
/// `fallback` serves where that is empty.
pub open spec fn id_or(s: Seq<char>, fallback: Seq<char>) -> Seq<char> {
    if s.len() == 0 {
        fallback
    } else {
        cleaned(s)
    }
}

/// A generated id: `toolu_` and a UUID.
pub open spec fn is_generated_id(s: Seq<char>) -> bool {
    s.len() == 38 && s.take(6) == "toolu_"@ && is_uuid_text(s.skip(6))
}

/// Puts an underscore in place of each character that no id may have; an
/// empty id becomes `fallback`.
pub fn sanitize_or(id: &str, fallback: &str) -> (r: String)
    ensures
        r@ == id_or(id@, fallback@),
{
    let chars = chars_of(id);
    if chars.len() == 0 {
        return fallback.to_string();
    }
    let mut out = String::new();
    let mut i: usize = 0;
    while i < chars.len()
        invariant
            chars@ == id@,
            i <= chars@.len(),
            out@ == cleaned(chars@.take(i as int)),
        decreases chars.len() - i,
    {
        let c = chars[i];
        if ('a' <= c && c <= 'z') || ('A' <= c && c <= 'Z') || ('0' <= c && c <= '9') || c == '_'
            || c == '-' {
            out.push(c);
        } else {
            out.push('_');
        }
        assert(out@ =~= cleaned(chars@.take(i + 1)));
        i += 1;
    }
    assert(chars@.take(i as int) =~= chars@);
    out
}

/// A fresh id.
pub fn generate() -> (r: String)
    ensures
        is_generated_id(r@),
        is_id(r@),
{
    let uuid = new_uuid();
    let mut out = String::new();
    out.push_str("toolu_");
    out.push_str(uuid.as_str());
    proof {
        reveal_strlit("toolu_");
        assert(out@.take(6) =~= "toolu_"@);
        assert(out@.skip(6) =~= uuid@);
        assert forall|i: int| 0 <= i < out@.len() implies is_id_char(#[trigger] out@[i]) by {
            if i >= 6 {
                assert(is_lower_hex(uuid@[i - 6]));
            }
        }
    }
    out
}

/// Puts an underscore in place of each character that no id may have; an
/// empty id becomes a fresh `toolu_` id.
pub fn sanitize(id: &str) -> (r: String)
    ensures
        id@.len() > 0 ==> r@ == cleaned(id@),
        id@.len() == 0 ==> is_generated_id(r@),
        is_id(r@),
{
    let fallback = generate();
    let out = sanitize_or(id, fallback.as_str());
    proof {
        cleaned_is_an_id(id@);
    }
    out
}

/// What cleaning makes of a text that is not empty, is an id.
pub proof fn cleaned_is_an_id(s: Seq<char>)
    ensures
        s.len() > 0 ==> is_id(cleaned(s)),
{
    assert forall|i: int| 0 <= i < s.len() implies is_id_char(#[trigger] cleaned(s)[i]) by {}
}

/// Cleaning keeps an id as it is; so an id that was cleaned once comes back
/// unchanged.
pub proof fn ids_are_kept(s: Seq<char>)
    requires
        is_id(s),
    ensures
        cleaned(s) == s,
{
    assert(cleaned(s) =~= s) by {
        assert forall|i: int| 0 <= i < s.len() implies cleaned(s)[i] == s[i] by {
            assert(is_id_char(s[i]));
        }
    }
}

} // verus!
