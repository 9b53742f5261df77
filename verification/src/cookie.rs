//! Cookie-only authentication: the `auth` cookie is the only credential
//! source.

use vstd::prelude::*;
use crate::claims::{Claims, ClaimsView};
use crate::codec::{spec_genuine, DecodeError};
use crate::extract::spec_cookie_token;

verus! {

/// An authenticated identity obtained from the `auth` cookie.
#[derive(Debug)]
pub struct CookieAuth(pub Claims);

/// Why cookie authentication failed.
#[derive(Debug, PartialEq, Eq, Structural)]
pub enum CookieAuthError {
    MissingCookie,
    InvalidToken,
}

impl CookieAuthError {
    /// The HTTP status this failure maps to.
    pub fn status_code(&self) -> (r: u16)
        ensures
            r == 401,
    {
        401
    }

    /// The short reason sent to the client.
    pub fn message(&self) -> (r: String)
        ensures
            self is MissingCookie ==> r@ == "Missing auth cookie"@,
            self is InvalidToken ==> r@ == "Invalid token"@,
    {
        match self {
            CookieAuthError::MissingCookie => String::from_str("Missing auth cookie"),
            CookieAuthError::InvalidToken => String::from_str("Invalid token"),
        }
    }
}

/// The token offered by the `Cookie` header, if any.
pub open spec fn spec_cookie_of(cookie_header: Option<&str>) -> Option<Seq<char>> {
    match cookie_header {
        Some(h) => spec_cookie_token(h@),
        None => None,
    }
}

/// Authenticates a request from its `Cookie` header alone: the `auth`
/// cookie must be present and hold a genuine unexpired token.  A missing
/// cookie is reported as such; every token failure is collapsed into
/// `InvalidToken`.
pub fn cookie_authenticate(cookie_header: Option<&str>, secret: &str, now: i64) -> (r: Result<
    CookieAuth,
    CookieAuthError,
>)
    ensures
        (r matches Err(e) && e == CookieAuthError::MissingCookie) <==> spec_cookie_of(
            cookie_header,
        ) is None,
        r matches Ok(a) ==> (spec_cookie_of(cookie_header) matches Some(t) && spec_genuine(
            a.0@,
            t,
            secret@,
        ) && now <= a.0@.exp),
        forall|cv: ClaimsView|
            (spec_cookie_of(cookie_header) is Some && #[trigger] spec_genuine(
                cv,
                spec_cookie_of(cookie_header)->0,
                secret@,
            ) && now <= cv.exp) ==> (r matches Ok(a) && a.0@ == cv),
        forall|cv: ClaimsView|
            (spec_cookie_of(cookie_header) is Some && #[trigger] spec_genuine(
                cv,
                spec_cookie_of(cookie_header)->0,
                secret@,
            ) && cv.exp < now) ==> r == Err::<CookieAuth, CookieAuthError>(
                CookieAuthError::InvalidToken,
            ),
{
    let h = match cookie_header {
        Some(h) => h,
        None => {
            return Err(CookieAuthError::MissingCookie);
        },
    };
    let t = match crate::extract::cookie_token(h) {
        Some(t) => t,
        None => {
            return Err(CookieAuthError::MissingCookie);
        },
    };
    match Claims::decode(t.as_str(), secret, now) {
        Ok(c) => Ok(CookieAuth(c)),
        Err(DecodeError::Invalid) => Err(CookieAuthError::InvalidToken),
    }
}

} // verus!
