//! The composed authentication and authorization guard: extract a credential
//! (bearer header first, then cookie), decode it, evaluate the route's
//! requirement, and either hand back the claims or reject with a typed
//! failure.  Every failure is terminal for the request and maps to 401 or
//! 403; authorization uses OR semantics over roles and AND semantics over
//! policies, and an absent requirement restricts nothing.

use vstd::prelude::*;
use crate::claims::{names_contain, spec_has_all, spec_has_any, Claims, ClaimsView};
use crate::codec::{spec_genuine, DecodeError};
use crate::extract::{extract_token, opt_view, spec_extract};

verus! {

/// An authenticated identity obtained from either credential source.
#[derive(Debug, Clone)]
pub struct Authorize(pub Claims);

/// Why the guard rejected a request.
#[derive(Debug, PartialEq, Eq, Structural)]
pub enum AuthorizeError {
    MissingCredentials,
    InvalidToken,
    Forbidden,
}

impl AuthorizeError {
    /// The HTTP status this failure maps to: 401 until authentication
    /// succeeds, 403 for an authenticated but unauthorized request.
    pub fn status_code(&self) -> (r: u16)
        ensures
            self is MissingCredentials ==> r == 401,
            self is InvalidToken ==> r == 401,
            self is Forbidden ==> r == 403,
    {
        match self {
            AuthorizeError::MissingCredentials => 401,
            AuthorizeError::InvalidToken => 401,
            AuthorizeError::Forbidden => 403,
        }
    }

    /// The short reason sent to the client.
    pub fn message(&self) -> (r: String)
        ensures
            self is MissingCredentials ==> r@ == "Missing authentication credentials"@,
            self is InvalidToken ==> r@ == "Invalid token"@,
            self is Forbidden ==> r@ == "Insufficient permissions"@,
    {
        match self {
            AuthorizeError::MissingCredentials => String::from_str(
                "Missing authentication credentials",
            ),
            AuthorizeError::InvalidToken => String::from_str("Invalid token"),
            AuthorizeError::Forbidden => String::from_str("Insufficient permissions"),
        }
    }
}

/// The token found by the fixed-precedence extractor, if any.
pub open spec fn spec_found(auth_header: Option<&str>, cookie_header: Option<&str>) -> Option<
    Seq<char>,
> {
    match spec_extract(opt_view(auth_header), opt_view(cookie_header)) {
        Some((src, t)) => Some(t),
        None => None,
    }
}

/// Whether claims satisfy a requirement: at least one required role (OR)
/// and every required policy (AND); an empty list restricts nothing.
pub open spec fn spec_passes(cv: ClaimsView, roles: Seq<Seq<char>>, policies: Seq<Seq<char>>)
    -> bool {
    spec_has_any(cv.roles, roles) && spec_has_all(cv.policies, policies)
}

pub(crate) fn check_requirement(c: &Claims, roles: &[&str], policies: &[&str]) -> (r: bool)
    ensures
        r == spec_passes(c@, roles.deep_view(), policies.deep_view()),
{
    let role_ok = c.has_any_role(roles);
    let policy_ok = c.has_all_policies(policies);
    role_ok && policy_ok
}

/// Authentication alone, with no role or policy checks: runs the extractor and the codec and
/// hands back the claims for handlers that need identity only.  No input
/// is ever rejected with `Forbidden`.
pub fn authenticate(
    auth_header: Option<&str>,
    cookie_header: Option<&str>,
    secret: &str,
    now: i64,
) -> (r: Result<Authorize, AuthorizeError>)
    ensures
        (r matches Err(e) && e == AuthorizeError::MissingCredentials) <==> spec_found(
            auth_header,
            cookie_header,
        ) is None,
        r matches Ok(a) ==> (spec_found(auth_header, cookie_header) is Some && spec_genuine(
            a.0@,
            spec_found(auth_header, cookie_header)->0,
            secret@,
        ) && now <= a.0@.exp),
        forall|cv: ClaimsView|
            (spec_found(auth_header, cookie_header) is Some && #[trigger] spec_genuine(
                cv,
                spec_found(auth_header, cookie_header)->0,
                secret@,
            ) && now <= cv.exp) ==> (r matches Ok(a) && a.0@ == cv),
        forall|cv: ClaimsView|
            (spec_found(auth_header, cookie_header) is Some && #[trigger] spec_genuine(
                cv,
                spec_found(auth_header, cookie_header)->0,
                secret@,
            ) && cv.exp < now) ==> r == Err::<Authorize, AuthorizeError>(
                AuthorizeError::InvalidToken,
            ),
        !(r matches Err(e) && e == AuthorizeError::Forbidden),
{
    let (_, token) = match extract_token(auth_header, cookie_header) {
        Some(found) => found,
        None => {
            return Err(AuthorizeError::MissingCredentials);
        },
    };
    match Claims::decode(token.as_str(), secret, now) {
        Ok(c) => Ok(Authorize(c)),
        Err(DecodeError::Invalid) => Err(AuthorizeError::InvalidToken),
    }
}

/// The whole guard: extraction, decoding, then the requirement declared for
/// the route.  The contract walks the state machine: no credential means
/// `MissingCredentials`; a credential that is not a genuine unexpired token
/// means `InvalidToken`; genuine claims that miss the requirement mean
/// `Forbidden`; and genuine claims that meet it are handed back unchanged.
pub fn authorize_request(
    auth_header: Option<&str>,
    cookie_header: Option<&str>,
    secret: &str,
    now: i64,
    required_roles: &[&str],
    required_policies: &[&str],
) -> (r: Result<Claims, AuthorizeError>)
    ensures
        (r matches Err(e) && e == AuthorizeError::MissingCredentials) <==> spec_found(
            auth_header,
            cookie_header,
        ) is None,
        r matches Ok(c) ==> (spec_found(auth_header, cookie_header) is Some && spec_genuine(
            c@,
            spec_found(auth_header, cookie_header)->0,
            secret@,
        ) && now <= c@.exp && spec_passes(
            c@,
            required_roles.deep_view(),
            required_policies.deep_view(),
        )),
        forall|cv: ClaimsView|
            (spec_found(auth_header, cookie_header) is Some && #[trigger] spec_genuine(
                cv,
                spec_found(auth_header, cookie_header)->0,
                secret@,
            ) && now <= cv.exp && spec_passes(
                cv,
                required_roles.deep_view(),
                required_policies.deep_view(),
            )) ==> (r matches Ok(c) && c@ == cv),
        forall|cv: ClaimsView|
            (spec_found(auth_header, cookie_header) is Some && #[trigger] spec_genuine(
                cv,
                spec_found(auth_header, cookie_header)->0,
                secret@,
            ) && now <= cv.exp && !spec_passes(
                cv,
                required_roles.deep_view(),
                required_policies.deep_view(),
            )) ==> r == Err::<Claims, AuthorizeError>(AuthorizeError::Forbidden),
        forall|cv: ClaimsView|
            (spec_found(auth_header, cookie_header) is Some && #[trigger] spec_genuine(
                cv,
                spec_found(auth_header, cookie_header)->0,
                secret@,
            ) && cv.exp < now) ==> r == Err::<Claims, AuthorizeError>(AuthorizeError::InvalidToken),
{
    let (_, token) = match extract_token(auth_header, cookie_header) {
        Some(found) => found,
        None => {
            return Err(AuthorizeError::MissingCredentials);
        },
    };
    let c = match Claims::decode(token.as_str(), secret, now) {
        Ok(c) => c,
        Err(DecodeError::Invalid) => {
            return Err(AuthorizeError::InvalidToken);
        },
    };
    if check_requirement(&c, required_roles, required_policies) {
        Ok(c)
    } else {
        Err(AuthorizeError::Forbidden)
    }
}

} // verus!
