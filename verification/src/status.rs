use vstd::prelude::*;
use crate::text::{contains, has_seq, lowercase, to_lowercase, to_uppercase, uppercase, underscored, replace_spaces};
use crate::json::{Json, JsonV, ObjectBuilder, jobj1, juint, juint_of, jstring, jview, object1};

verus! {

/// The HTTP status that an upstream error message calls for, read from the
/// lowercased message; `too_many` says whether the words "too many requests"
/// also mean a rate limit.
pub open spec fn status_for(lower: Seq<char>, too_many: bool) -> u16 {
    if has_seq(lower, "429"@) || has_seq(lower, "rate limit"@) || (too_many && has_seq(lower, "too many requests"@)) {
        429
    } else if has_seq(lower, "401"@) || has_seq(lower, "unauthorized"@) {
        401
    } else if has_seq(lower, "403"@) || has_seq(lower, "forbidden"@) {
        403
    } else if has_seq(lower, "404"@) || has_seq(lower, "not found"@) {
        404
    } else {
        502
    }
}

fn status_of_lower(lower: &str, too_many: bool) -> (s: u16)
    ensures
        s == status_for(lower@, too_many),
{
    if contains(lower, "429") || contains(lower, "rate limit") || (too_many && contains(lower, "too many requests")) {
        429
    } else if contains(lower, "401") || contains(lower, "unauthorized") {
        401
    } else if contains(lower, "403") || contains(lower, "forbidden") {
        403
    } else if contains(lower, "404") || contains(lower, "not found") {
        404
    } else {
        502
    }
}

/// The status that the OpenAI and Anthropic front ends answer an upstream
/// failure with.
pub fn status_from_error(message: &str) -> (s: u16)
    ensures
        s == status_for(lowercase(message@), true),
{
    let lower = to_lowercase(message);
    status_of_lower(lower.as_str(), true)
}

/// The status that the Gemini front end answers an upstream failure with; it
/// does not read "too many requests" as a rate limit.
pub fn gemini_status_from_error(message: &str) -> (s: u16)
    ensures
        s == status_for(lowercase(message@), false),
{
    let lower = to_lowercase(message);
    status_of_lower(lower.as_str(), false)
}

} // verus!

verus! {

/// The reason phrase that the `http` crate's `StatusCode::canonical_reason`
/// gives a code, where `StatusCode::from_u16` accepts it.
pub uninterp spec fn canonical_reason(code: u16) -> Option<Seq<char>>;

/// Calls `StatusCode::from_u16` and then `canonical_reason`; the result is named
/// `canonical_reason` of the code.
#[verifier::external_body]
fn reason_phrase(code: u16) -> (r: Option<&'static str>)
    ensures
        match r {
            Some(s) => canonical_reason(code) == Some(s@),
            None => canonical_reason(code) is None,
        },
{
    axum::http::StatusCode::from_u16(code).ok().and_then(|s| s.canonical_reason())
}

/// The status text of a Gemini error: the reason phrase in capitals with
/// underscores for spaces, or `UNKNOWN`.
pub open spec fn gemini_status_text(code: u16) -> Seq<char> {
    uppercase(underscored(match canonical_reason(code) {
        Some(s) => s,
        None => "UNKNOWN"@,
    }))
}

/// An error in the Gemini wire format.
pub open spec fn gemini_error_json(code: u16, message: Seq<char>) -> JsonV {
    jobj1("error"@, JsonV::Object(Seq::empty()
        .push(("code"@, juint(code as nat)))
        .push(("message"@, JsonV::Str(message)))
        .push(("status"@, JsonV::Str(gemini_status_text(code))))))
}

/// An error body in the Gemini wire format for the status `code`.
pub fn gemini_error_body(code: u16, message: String) -> (r: Json)
    ensures
        jview(r) == gemini_error_json(code, message@),
{
    let reason = match reason_phrase(code) {
        Some(s) => s,
        None => "UNKNOWN",
    };
    let status = to_uppercase(replace_spaces(reason).as_str());
    let inner = ObjectBuilder::new()
        .with("code", juint_of(code as u128))
        .with("message", jstring(message))
        .with("status", jstring(status))
        .build();
    object1("error", inner)
}


/// A lowered message that names a rate limit ("429" or "rate limit", and also
/// "too many requests" where that counts) is answered with 429, and only such a
/// message is.
pub proof fn law_rate_limit_gives_429(lower: Seq<char>, too_many: bool)
    ensures
        status_for(lower, too_many) == 429 <==> (
            (exists|i: int| crate::text::occurs_at(lower, "429"@, i))
            || (exists|i: int| crate::text::occurs_at(lower, "rate limit"@, i))
            || (too_many && exists|i: int| crate::text::occurs_at(lower, "too many requests"@, i))
        ),
        status_for(lower, too_many) == 429 || status_for(lower, too_many) == 401 || status_for(lower, too_many) == 403
            || status_for(lower, too_many) == 404 || status_for(lower, too_many) == 502,
{
    crate::text::lemma_has_seq(lower, "429"@);
    crate::text::lemma_has_seq(lower, "rate limit"@);
    crate::text::lemma_has_seq(lower, "too many requests"@);
}


/// Below a rate limit, the words of a message decide in a fixed order: a
/// message that names "401" or "unauthorized" is answered with 401, else one
/// that names "403" or "forbidden" with 403, else one that names "404" or
/// "not found" with 404, and any other with 502.
pub proof fn law_status_order(lower: Seq<char>, too_many: bool)
    requires
        status_for(lower, too_many) != 429,
    ensures
        (exists|i: int| crate::text::occurs_at(lower, "401"@, i))
            || (exists|i: int| crate::text::occurs_at(lower, "unauthorized"@, i))
            <==> status_for(lower, too_many) == 401,
        status_for(lower, too_many) != 401 ==> (
            (exists|i: int| crate::text::occurs_at(lower, "403"@, i))
                || (exists|i: int| crate::text::occurs_at(lower, "forbidden"@, i))
                <==> status_for(lower, too_many) == 403),
        status_for(lower, too_many) != 401 && status_for(lower, too_many) != 403 ==> (
            (exists|i: int| crate::text::occurs_at(lower, "404"@, i))
                || (exists|i: int| crate::text::occurs_at(lower, "not found"@, i))
                <==> status_for(lower, too_many) == 404),
{
    crate::text::lemma_has_seq(lower, "401"@);
    crate::text::lemma_has_seq(lower, "unauthorized"@);
    crate::text::lemma_has_seq(lower, "403"@);
    crate::text::lemma_has_seq(lower, "forbidden"@);
    crate::text::lemma_has_seq(lower, "404"@);
    crate::text::lemma_has_seq(lower, "not found"@);
}

} // verus!
