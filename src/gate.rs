use crate::claims::Claims;
use crate::credential::{
    ascii_text, bearer_scheme, credential, has_scheme, is_header_text, skip_blanks, token_of,
    MALFORMED_HEADER, MISSING_HEADER,
};
use crate::error::{challenge, is_plain, lemma_escape_plain, AuthError, REALM};
use vstd::prelude::*;

verus! {

/// The validator's answer for a token, as the library sees it: the claims in
/// the requested shape, or the validator's reason for refusing the token
/// (a bad signature, an expired token, claims that do not fit the shape).
pub open spec fn answer_view<T>(answer: Result<T, String>) -> Result<T, Seq<char>> {
    match answer {
        Ok(c) => Ok(c),
        Err(m) => Err(m@),
    }
}

/// The claims that the validation step delivered, or the reason it gave.
pub open spec fn claims_result<T>(r: Result<Claims<T>, AuthError>) -> Result<T, Seq<char>> {
    match r {
        Ok(k) => Ok(k@),
        Err(e) => Err(e.spec_description()),
    }
}

/// The outcome for one request: the credential step on the value of its
/// `Authorization` header, then, where that yields a token, the answer that
/// the validator gave for it.
pub open spec fn gate<T>(header: Option<Seq<u8>>, answer: Result<T, Seq<char>>) -> Result<
    T,
    Seq<char>,
> {
    match credential(header) {
        Err(d) => Err(d),
        Ok(_) => answer,
    }
}

/// Turns the validator's answer into the claims handed to the request
/// handler, or into the failure that refuses the request. The claims are
/// exactly those that the validator returned, and a refusal carries the
/// validator's reason unchanged.
pub fn claims_from_outcome<T>(outcome: Result<T, String>) -> (r: Result<Claims<T>, AuthError>)
    ensures
        claims_result(r) == answer_view(outcome),
{
    match outcome {
        Ok(c) => Ok(Claims::accepted(c)),
        Err(m) => Err(AuthError::InvalidToken(m)),
    }
}

/// The header value `Bearer <token>`.
pub open spec fn bearer_header(token: Seq<u8>) -> Seq<u8> {
    bearer_scheme() + seq![32u8] + token
}

/// The start of every challenge: the realm and the `invalid_token` code.
pub open spec fn challenge_lead() -> Seq<char> {
    "Bearer realm=\""@ + REALM@ + "\" error=\"invalid_token\""@
}

/// Every challenge names the realm and the error code `invalid_token`
/// before anything else.
pub proof fn lemma_challenge_lead(description: Seq<char>)
    ensures
        challenge(description).len() >= challenge_lead().len(),
        challenge(description).subrange(0, challenge_lead().len() as int) == challenge_lead(),
{
    reveal_strlit("\" error=\"invalid_token\" error_description=\"");
    reveal_strlit("\" error=\"invalid_token\"");
    let head = "Bearer realm=\""@ + REALM@;
    let tail = "\" error=\"invalid_token\" error_description=\""@;
    let code = "\" error=\"invalid_token\""@;
    assert(tail.subrange(0, code.len() as int) =~= code);
    let c = challenge(description);
    assert(c.subrange(0, challenge_lead().len() as int) =~= head + code);
}

/// A request that presents `Bearer <token>`, with a token that is header
/// text and does not start with a blank, gets exactly that token validated;
/// where the validator accepts it with claims `c`, the request gets `c`.
pub proof fn lemma_accepted_bearer_yields_claims<T>(token: Seq<u8>, c: T)
    requires
        is_header_text(token),
        token.len() > 0 ==> token[0] != 32 && token[0] != 9,
    ensures
        credential(Some(bearer_header(token))) == Ok::<Seq<char>, Seq<char>>(ascii_text(token)),
        gate(Some(bearer_header(token)), Ok::<T, Seq<char>>(c)) == Ok::<T, Seq<char>>(c),
{
    let v = bearer_header(token);
    assert(v.subrange(7, v.len() as int) =~= token);
    assert(skip_blanks(token) == token);
    assert(has_scheme(v));
    assert forall|i: int| 0 <= i < v.len() implies ((32 <= #[trigger] v[i] && v[i] < 127) || v[i]
        == 9) by {
        if i >= 7 {
            assert(v[i] == token[i - 7]);
        }
    }
}

/// A request without an `Authorization` header is refused, whatever the
/// validator would have said, with the missing-header reason; its challenge
/// carries the `invalid_token` code.
pub proof fn lemma_missing_header_refused<T>(answer: Result<T, Seq<char>>)
    ensures
        gate(None, answer) == Err::<T, Seq<char>>(MISSING_HEADER@),
        challenge(MISSING_HEADER@).subrange(0, challenge_lead().len() as int) == challenge_lead(),
{
    lemma_challenge_lead(MISSING_HEADER@);
}

/// A request whose `Authorization` header does not start with `Bearer `
/// (another scheme, such as `Basic`) is refused with the malformed-header
/// reason, whatever the validator would have said; its challenge carries
/// the `invalid_token` code.
pub proof fn lemma_other_scheme_refused<T>(header: Seq<u8>, answer: Result<T, Seq<char>>)
    requires
        !has_scheme(header),
    ensures
        gate(Some(header), answer) == Err::<T, Seq<char>>(MALFORMED_HEADER@),
        challenge(MALFORMED_HEADER@).subrange(0, challenge_lead().len() as int)
            == challenge_lead(),
{
    lemma_challenge_lead(MALFORMED_HEADER@);
}

/// Where the validator refuses the token of a well-formed request (an
/// expired token, claims that do not fit the shape), the request is refused
/// with the validator's reason; a reason without quotes, backslashes or
/// control characters stands in the challenge as it is.
pub proof fn lemma_validator_reason_reported<T>(header: Seq<u8>, reason: Seq<char>)
    requires
        has_scheme(header),
        is_header_text(header),
    ensures
        gate(Some(header), Err::<T, Seq<char>>(reason)) == Err::<T, Seq<char>>(reason),
        is_plain(reason) ==> challenge(reason) == "Bearer realm=\""@ + REALM@
            + "\" error=\"invalid_token\" error_description=\""@ + reason + "\""@,
{
    if is_plain(reason) {
        lemma_escape_plain(reason);
    }
}

/// Two requests that present the same token, each accepted by the validator
/// with claims `c`, both get `c`: the outcome of one request depends on its
/// own header and answer alone.
pub proof fn lemma_same_token_same_claims<T>(first: Seq<u8>, second: Seq<u8>, c: T)
    requires
        has_scheme(first),
        is_header_text(first),
        has_scheme(second),
        is_header_text(second),
        token_of(first) == token_of(second),
    ensures
        credential(Some(first)) == credential(Some(second)),
        gate(Some(first), Ok::<T, Seq<char>>(c)) == Ok::<T, Seq<char>>(c),
        gate(Some(second), Ok::<T, Seq<char>>(c)) == Ok::<T, Seq<char>>(c),
{
}

} // verus!
