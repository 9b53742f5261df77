//! Bearer-only authentication: the `Authorization` header is the only
//! credential source.  A missing header and an unusable one are distinct
//! failures, so a client can tell "send a token" from "fix your token".

use vstd::prelude::*;
use crate::claims::{Claims, ClaimsView};
use crate::codec::{spec_genuine, DecodeError};
use crate::extract::spec_bearer;

verus! {

/// An authenticated identity obtained from a bearer token.
#[derive(Debug)]
pub struct JwtAuth(pub Claims);

/// Why bearer authentication failed.
#[derive(Debug, PartialEq, Eq, Structural)]
pub enum AuthError {
    MissingToken,
    InvalidToken,
}

impl AuthError {
    /// The HTTP status this failure maps to.
    pub fn status_code(&self) -> (r: u16)
        ensures
            r == 401,
    {
        401
    }

    /// The short reason sent to the client.
    pub fn message(&self) -> (r: String)
        ensures
            self is MissingToken ==> r@ == "Missing authorization token"@,
            self is InvalidToken ==> r@ == "Invalid token"@,
    {
        match self {
            AuthError::MissingToken => String::from_str("Missing authorization token"),
            AuthError::InvalidToken => String::from_str("Invalid token"),
        }
    }
}

/// The bearer token offered by the `Authorization` header, if any.
pub open spec fn spec_bearer_of(auth_header: Option<&str>) -> Option<Seq<char>> {
    match auth_header {
        Some(h) => spec_bearer(h@),
        None => None,
    }
}

/// Authenticates a request from its `Authorization` header alone: the
/// header must be present, carry the `"Bearer "` prefix, and hold a genuine
/// unexpired token.  The error says which of the first two was violated;
/// every token failure is collapsed into `InvalidToken`.
pub fn jwt_authenticate(auth_header: Option<&str>, secret: &str, now: i64) -> (r: Result<
    JwtAuth,
    AuthError,
>)
    ensures
        (r matches Err(e) && e == AuthError::MissingToken) <==> auth_header is None,
        auth_header matches Some(h) && spec_bearer(h@) is None ==> r == Err::<
            JwtAuth,
            AuthError,
        >(AuthError::InvalidToken),
        r matches Ok(j) ==> (auth_header matches Some(h) && spec_bearer(h@) matches Some(t)
            && spec_genuine(j.0@, t, secret@) && now <= j.0@.exp),
        forall|cv: ClaimsView|
            (spec_bearer_of(auth_header) is Some && #[trigger] spec_genuine(
                cv,
                spec_bearer_of(auth_header)->0,
                secret@,
            ) && now <= cv.exp) ==> (r matches Ok(j) && j.0@ == cv),
        forall|cv: ClaimsView|
            (spec_bearer_of(auth_header) is Some && #[trigger] spec_genuine(
                cv,
                spec_bearer_of(auth_header)->0,
                secret@,
            ) && cv.exp < now) ==> r == Err::<JwtAuth, AuthError>(AuthError::InvalidToken),
{
    let h = match auth_header {
        Some(h) => h,
        None => {
            return Err(AuthError::MissingToken);
        },
    };
    let t = match crate::extract::bearer_token(h) {
        Some(t) => t,
        None => {
            return Err(AuthError::InvalidToken);
        },
    };
    match Claims::decode(t.as_str(), secret, now) {
        Ok(c) => Ok(JwtAuth(c)),
        Err(DecodeError::Invalid) => Err(AuthError::InvalidToken),
    }
}

} // verus!
