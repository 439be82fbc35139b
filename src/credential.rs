use crate::error::AuthError;
use axum::http::HeaderValue;
use axum_extra::headers::authorization::Bearer;
use axum_extra::headers::{Authorization, Header};
use vstd::prelude::*;

verus! {

/// The reason given when the request has no `Authorization` header.
pub const MISSING_HEADER: &'static str = "Header of type `authorization` was missing";

/// The reason given when the `Authorization` header is not a bearer
/// credential.
pub const MALFORMED_HEADER: &'static str = "invalid HTTP header (authorization)";

/// The scheme name: the ASCII codes of `B`, `e`, `a`, `r`, `e`, `r`.
pub open spec fn bearer_scheme() -> Seq<u8> {
    seq![66u8, 101u8, 97u8, 114u8, 101u8, 114u8]
}

/// Every byte is visible ASCII (32 to 126) or a horizontal tab (9): the
/// value reads as text.
pub open spec fn is_header_text(v: Seq<u8>) -> bool {
    forall|i: int| 0 <= i < v.len() ==> ((32 <= #[trigger] v[i] && v[i] < 127) || v[i] == 9)
}

/// An ASCII capital letter as its small letter; other bytes as they are.
pub open spec fn ascii_lower(b: u8) -> u8 {
    if 65 <= b && b <= 90 {
        (b + 32) as u8
    } else {
        b
    }
}

/// The value starts with `Bearer` in any letter case, then a space.
pub open spec fn has_scheme_any_case(v: Seq<u8>) -> bool {
    &&& v.len() > 6
    &&& v[6] == 32
    &&& forall|i: int| 0 <= i < 6 ==> ascii_lower(#[trigger] v[i]) == ascii_lower(bearer_scheme()[i])
}

/// The value starts with `Bearer`, exactly so, then a space.
pub open spec fn has_scheme(v: Seq<u8>) -> bool {
    &&& v.len() > 6
    &&& v[6] == 32
    &&& forall|i: int| 0 <= i < 6 ==> #[trigger] v[i] == bearer_scheme()[i]
}

/// `s` without the spaces (32) and tabs (9) it starts with.
pub open spec fn skip_blanks(s: Seq<u8>) -> Seq<u8>
    decreases s.len(),
{
    if s.len() > 0 && (s[0] == 32 || s[0] == 9) {
        skip_blanks(s.drop_first())
    } else {
        s
    }
}

/// ASCII bytes read as characters.
pub open spec fn ascii_text(b: Seq<u8>) -> Seq<char> {
    b.map_values(|x: u8| x as char)
}

/// The token of a bearer credential: what follows `Bearer `, without the
/// blanks before it.
pub open spec fn token_of(v: Seq<u8>) -> Seq<char> {
    ascii_text(skip_blanks(v.subrange(7, v.len() as int)))
}

/// What the credential step yields for the value of the `Authorization`
/// header (`None` where the request has none): the token, or the reason for
/// refusing the request.
pub open spec fn credential(header: Option<Seq<u8>>) -> Result<Seq<char>, Seq<char>> {
    match header {
        None => Err(MISSING_HEADER@),
        Some(v) => if has_scheme(v) && is_header_text(v) {
            Ok(token_of(v))
        } else {
            Err(MALFORMED_HEADER@)
        },
    }
}

/// The token or the reason that a credential step returned, as text.
pub open spec fn token_result(r: Result<String, AuthError>) -> Result<Seq<char>, Seq<char>> {
    match r {
        Ok(t) => Ok(t@),
        Err(e) => Err(e.spec_description()),
    }
}

/// Relies on `HeaderValue::from_bytes` and the headers crate's decoding of
/// `Authorization<Bearer>`: a value is accepted where it starts with
/// `Bearer` in any letter case and a space and each byte is visible ASCII or
/// a tab; `Bearer::token` is what follows, with leading blanks trimmed.
#[verifier::external_body]
fn decode_bearer(value: &[u8]) -> (r: Option<String>)
    ensures
        r.is_some() == (has_scheme_any_case(value@) && is_header_text(value@)),
        r.is_some() ==> r.unwrap()@ == token_of(value@),
{
    let value = HeaderValue::from_bytes(value).ok()?;
    let auth = Authorization::<Bearer>::decode(&mut std::iter::once(&value)).ok()?;
    Some(auth.token().to_string())
}

fn starts_with_scheme(v: &[u8]) -> (r: bool)
    ensures
        r == has_scheme(v@),
{
    let r = v.len() > 6 && v[0] == 66 && v[1] == 101 && v[2] == 97 && v[3] == 114 && v[4]
        == 101 && v[5] == 114 && v[6] == 32;
    proof {
        if r {
            assert forall|i: int| 0 <= i < 6 implies #[trigger] v@[i] == bearer_scheme()[i] by {
                assert(0 <= i < 6);
            }
        }
        if has_scheme(v@) {
            assert(v@[0] == bearer_scheme()[0]);
            assert(v@[1] == bearer_scheme()[1]);
            assert(v@[2] == bearer_scheme()[2]);
            assert(v@[3] == bearer_scheme()[3]);
            assert(v@[4] == bearer_scheme()[4]);
            assert(v@[5] == bearer_scheme()[5]);
        }
    }
    r
}

/// Takes the bearer token out of the value of the `Authorization` header
/// (`None` where the request has none). The scheme name must be `Bearer`,
/// letter case included.
pub fn bearer_token(authorization: Option<&[u8]>) -> (r: Result<String, AuthError>)
    ensures
        token_result(r) == credential(
            match authorization {
                Some(v) => Some(v@),
                None => None,
            },
        ),
{
    match authorization {
        None => Err(AuthError::InvalidToken(String::from_str(MISSING_HEADER))),
        Some(v) => {
            if !starts_with_scheme(v) {
                return Err(AuthError::InvalidToken(String::from_str(MALFORMED_HEADER)));
            }
            match decode_bearer(v) {
                Some(token) => Ok(token),
                None => Err(AuthError::InvalidToken(String::from_str(MALFORMED_HEADER))),
            }
        },
    }
}

} // verus!
