//! Text that is safe as one segment of a path, on any common filesystem.

use vstd::prelude::*;

verus! {

/// Whether `c` may not stand in a path segment on some common filesystem:
/// one of `\ / : * ? " < > |`.
pub open spec fn is_reserved(c: char) -> bool {
    c == '\\' || c == '/' || c == ':' || c == '*' || c == '?' || c == '"' || c == '<' || c == '>'
        || c == '|'
}

/// Whether `c` is kept in a path segment: ASCII, and not reserved.
pub open spec fn is_path_safe(c: char) -> bool {
    c as u32 <= 0x7f && !is_reserved(c)
}

/// [`is_path_safe`], as a predicate to filter by.
pub open spec fn path_safe() -> spec_fn(char) -> bool {
    |c: char| is_path_safe(c)
}

/// Whether every character of `s` is kept in a path segment.
pub open spec fn all_path_safe(s: Seq<char>) -> bool {
    forall|i: int| 0 <= i < s.len() ==> is_path_safe(#[trigger] s[i])
}

/// `text` with its HTML character references replaced by the characters they
/// stand for, as `html_escape::decode_html_entities_to_string` replaces them.
pub uninterp spec fn entities_decoded(text: Seq<char>) -> Seq<char>;

/// The path segment made from `text`: its character references decoded, then
/// every character dropped that is not ASCII or is reserved. It may be empty.
pub open spec fn sanitized(text: Seq<char>) -> Seq<char> {
    entities_decoded(text).filter(path_safe())
}

/// Calls `html_escape::decode_html_entities_to_string` on `text` with an
/// empty output string, and returns that string. The call appends the decoded
/// text to its output, so the string then holds the decoded text and nothing
/// else. The decoding is not stated here, only named.
#[verifier::external_body]
pub(crate) fn decode_entities(text: &str) -> (decoded: String)
    ensures
        decoded@ == entities_decoded(text@),
{
    let mut decoded = String::new();
    html_escape::decode_html_entities_to_string(text, &mut decoded);
    decoded
}

/// Whether `c` is kept in a path segment.
pub fn path_safe_char(c: char) -> (safe: bool)
    ensures
        safe == is_path_safe(c),
{
    c as u32 <= 0x7f && !(c == '\\' || c == '/' || c == ':' || c == '*' || c == '?' || c == '"'
        || c == '<' || c == '>' || c == '|')
}

/// Drops from `text` every character that is not ASCII or is reserved, and
/// keeps the others in their order.
pub fn strip_unsafe(text: &str) -> (kept: String)
    ensures
        kept@ == text@.filter(path_safe()),
        all_path_safe(kept@),
{
    let mut kept = String::new();
    let chars = text.chars();
    proof {
        reveal(Seq::filter);
    }
    for c in it: chars
        invariant
            it.seq() == text@,
            kept@ == text@.take(it.index()).filter(path_safe()),
            all_path_safe(kept@),
    {
        proof {
            let seen = text@.take(it.index());
            assert(text@.take(it.index() + 1) =~= seen.push(c));
            seen.lemma_filter_push(c, path_safe());
        }
        if path_safe_char(c) {
            kept.push(c);
        }
    }
    proof {
        assert(text@.take(text@.len() as int) =~= text@);
    }
    kept
}

/// Makes a path segment of `text`: decodes its HTML character references,
/// then drops every character that is not ASCII or is reserved. The result is
/// empty where nothing is left.
pub fn sanitize_string(text: &str) -> (segment: String)
    ensures
        segment@ == sanitized(text@),
        all_path_safe(segment@),
{
    let decoded = decode_entities(text);
    strip_unsafe(decoded.as_str())
}

/// A sanitized text holds no reserved and no non-ASCII character, whatever
/// the text was.
pub proof fn lemma_sanitized_is_path_safe(text: Seq<char>)
    ensures
        all_path_safe(sanitized(text)),
        forall|i: int|
            0 <= i < sanitized(text).len() ==> !is_reserved(#[trigger] sanitized(text)[i])
                && sanitized(text)[i] as u32 <= 0x7f,
        sanitized(text).len() <= entities_decoded(text).len(),
{
    let decoded = entities_decoded(text);
    assert forall|i: int| 0 <= i < sanitized(text).len() implies is_path_safe(
        #[trigger] sanitized(text)[i],
    ) by {
        decoded.lemma_filter_pred(path_safe(), i);
    }
    decoded.lemma_filter_len(path_safe());
}

} // verus!
