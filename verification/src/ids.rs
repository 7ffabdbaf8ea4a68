//! Identifiers shared by the modules. An id is carried as the 128-bit value
//! of its UUID (`uuid::Uuid::as_u128`), compared with `==`, and read from
//! text and from the trusted identity headers of a request.

use vstd::prelude::*;
use vstd::string::*;

use crate::errors::ApiError;
use crate::text::owned;

verus! {

/// The 128-bit value of the UUID written in `text`, as
/// `uuid::Uuid::parse_str` reads it, or `None` when the text is not
/// accepted.
pub uninterp spec fn uuid_value(text: Seq<char>) -> Option<u128>;

/// `uuid::Uuid::parse_str` followed by `Uuid::as_u128`: the value of the
/// UUID written in the text, or `None` when the text is refused.
#[verifier::external_body]
pub(crate) fn parse_uuid(text: &str) -> (r: Option<u128>)
    ensures
        r == uuid_value(text@),
{
    match uuid::Uuid::parse_str(text) {
        Ok(u) => Some(u.as_u128()),
        Err(_) => None,
    }
}

/// The id written in a header value (present and readable as text).
pub open spec fn header_id(value: Option<&str>) -> Option<u128> {
    match value {
        Some(v) => uuid_value(v@),
        None => None,
    }
}

/// Whether a header value holds an id.
pub open spec fn header_has_id(value: Option<&str>) -> bool {
    header_id(value) is Some
}

/// The id of a header value.
fn id_of_header(value: Option<&str>) -> (r: Option<u128>)
    ensures
        r == header_id(value),
{
    match value {
        Some(v) => parse_uuid(v),
        None => None,
    }
}

/// The authenticated user of a request, from its `X-User-Id` header (the
/// header's value when present and readable as text).
pub fn user_id_from_header(value: Option<&str>) -> (r: Result<u128, ApiError>)
    ensures
        r is Ok <==> header_has_id(value),
        r matches Ok(u) ==> header_id(value) == Some(u),
        !header_has_id(value) ==> (r matches Err(ApiError::Unauthorized(m)) && m@
            == "Missing or invalid X-User-Id header"@),
{
    match id_of_header(value) {
        Some(u) => Ok(u),
        None => Err(ApiError::Unauthorized(owned("Missing or invalid X-User-Id header"))),
    }
}

/// The project of a request, from its `X-Project-Id` header.
pub fn project_id_from_header(value: Option<&str>) -> (r: Result<u128, ApiError>)
    ensures
        r is Ok <==> header_has_id(value),
        r matches Ok(u) ==> header_id(value) == Some(u),
        !header_has_id(value) ==> (r matches Err(ApiError::Unauthorized(m)) && m@
            == "Missing or invalid X-Project-Id header"@),
{
    match id_of_header(value) {
        Some(u) => Ok(u),
        None => Err(ApiError::Unauthorized(owned("Missing or invalid X-Project-Id header"))),
    }
}

/// The organisation of a request, from its `X-Organization-Id` header, if
/// it carries a readable one.
pub fn organization_id_from_header(value: Option<&str>) -> (r: Option<u128>)
    ensures
        r == header_id(value),
{
    id_of_header(value)
}

} // verus!
