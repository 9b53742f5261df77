//! The session issuer: validates login input, aggregating every violated
//! rule into one response, then builds claims for the subject and hands the
//! signed token back, either as a response body or as cookie settings.

use vstd::prelude::*;
use crate::claims::{Claims, ClaimsView};
use crate::codec::{spec_genuine, EncodeError, DEFAULT_TTL_HOURS};
use crate::extract::{lemma_trim_len, spec_trim, trim_str};

verus! {

/// A login attempt.
pub struct LoginRequest {
    pub username: String,
    pub password: String,
}

/// The token, delivered in the response body.
pub struct LoginResponse {
    pub token: String,
}

/// A human-readable outcome message.
pub struct MessageResponse {
    pub message: String,
}

/// Every validation rule the login input violated, together.
#[derive(Debug)]
pub struct ValidationError {
    pub errors: Vec<String>,
}

impl ValidationError {
    /// The HTTP status this failure maps to.
    pub fn status_code(&self) -> (r: u16)
        ensures
            r == 400,
    {
        400
    }
}

/// Why a login failed.
#[derive(Debug)]
pub enum LoginError {
    Validation(ValidationError),
    Internal(&'static str),
}

/// Cookie settings for delivering or clearing the session token, as plain
/// values; the HTTP layer renders them into a `Set-Cookie` header.
pub struct SetCookie {
    pub name: String,
    pub value: String,
    pub path: String,
    pub http_only: bool,
    pub same_site_strict: bool,
    pub max_age_seconds: i64,
}

/// The messages owed for a login attempt, in order: a username that is
/// empty after trimming, then a password that is empty or shorter than six
/// characters.
pub open spec fn spec_login_errors(u: Seq<char>, p: Seq<char>) -> Seq<Seq<char>> {
    (if spec_trim(u).len() == 0 {
        seq!["username is required"@]
    } else {
        Seq::<Seq<char>>::empty()
    }) + (if p.len() == 0 {
        seq!["password is required"@]
    } else if p.len() < 6 {
        seq!["password must be at least 6 characters"@]
    } else {
        Seq::<Seq<char>>::empty()
    })
}

impl LoginRequest {
    /// Checks the input rules and collects every violated one, so a client
    /// can render all form errors in one round trip; succeeds exactly when
    /// no rule is violated.
    pub fn validate(&self) -> (r: Result<(), ValidationError>)
        ensures
            r is Ok <==> spec_login_errors(self.username@, self.password@).len() == 0,
            r matches Err(e) ==> e.errors.deep_view() == spec_login_errors(
                self.username@,
                self.password@,
            ),
    {
        let mut errors: Vec<String> = Vec::new();
        let ut = trim_str(self.username.as_str());
        if ut.unicode_len() == 0 {
            let ghost pre = errors.deep_view();
            errors.push(String::from_str("username is required"));
            proof {
                assert(errors.deep_view() =~= pre.push("username is required"@));
            }
        }
        let pl = self.password.as_str().unicode_len();
        if pl == 0 {
            let ghost pre = errors.deep_view();
            errors.push(String::from_str("password is required"));
            proof {
                assert(errors.deep_view() =~= pre.push("password is required"@));
            }
        } else if pl < 6 {
            let ghost pre = errors.deep_view();
            errors.push(String::from_str("password must be at least 6 characters"));
            proof {
                assert(errors.deep_view() =~= pre.push("password must be at least 6 characters"@));
            }
        }
        proof {
            assert(errors.deep_view() =~= spec_login_errors(self.username@, self.password@));
        }
        if errors.len() == 0 {
            Ok(())
        } else {
            Err(ValidationError { errors })
        }
    }
}

/// What the issuer promises of a freshly issued token: it is the canonical
/// token of claims whose subject is the validated username, which hold no
/// roles and no policies, and which expire the default time-to-live after
/// their issue time.
pub open spec fn spec_issued(token: Seq<char>, username: Seq<char>, secret: Seq<char>) -> bool {
    exists|cv: ClaimsView|
        {
            &&& #[trigger] spec_genuine(cv, token, secret)
            &&& cv.sub == username
            &&& cv.roles.len() == 0
            &&& cv.policies.len() == 0
            &&& cv.exp == cv.iat + DEFAULT_TTL_HOURS * 3600
        }
}

/// Validates the attempt and, on success, issues a signed token in the
/// response body.  Exactly the attempts with a violated rule are rejected,
/// carrying all violated rules; every valid attempt yields a token.
pub fn login_jwt(payload: &LoginRequest, secret: &str) -> (r: Result<LoginResponse, LoginError>)
    ensures
        r is Ok <==> spec_login_errors(payload.username@, payload.password@).len() == 0,
        r matches Err(e) ==> (e matches LoginError::Validation(v) && v.errors.deep_view()
            == spec_login_errors(payload.username@, payload.password@)),
        r matches Ok(resp) ==> spec_issued(resp.token@, payload.username@, secret@),
{
    match payload.validate() {
        Err(e) => Err(LoginError::Validation(e)),
        Ok(()) => {
            proof {
                lemma_trim_len(payload.username@);
            }
            let claims = Claims::new(payload.username.clone(), None, None, None);
            match claims.encode(secret) {
                Err(EncodeError::Signing) => Err(LoginError::Internal("Failed to generate token")),
                Ok(token) => {
                    proof {
                        assert(spec_genuine(claims@, token@, secret@));
                    }
                    Ok(LoginResponse { token })
                },
            }
        },
    }
}

/// Validates the attempt and, on success, issues the token as a session
/// cookie: name `auth`, path `/`, `HttpOnly`, `SameSite=Strict`, and a
/// max-age matching the token's time-to-live.
pub fn login_cookie(payload: &LoginRequest, secret: &str) -> (r: Result<
    (SetCookie, MessageResponse),
    LoginError,
>)
    ensures
        r is Ok <==> spec_login_errors(payload.username@, payload.password@).len() == 0,
        r matches Err(e) ==> (e matches LoginError::Validation(v) && v.errors.deep_view()
            == spec_login_errors(payload.username@, payload.password@)),
        r matches Ok(out) ==> {
            &&& spec_issued(out.0.value@, payload.username@, secret@)
            &&& out.0.name@ == "auth"@
            &&& out.0.path@ == "/"@
            &&& out.0.http_only
            &&& out.0.same_site_strict
            &&& out.0.max_age_seconds == DEFAULT_TTL_HOURS * 3600
            &&& out.1.message@ == "Login successful"@
        },
{
    match login_jwt(payload, secret) {
        Err(e) => Err(e),
        Ok(resp) => Ok(
            (
                SetCookie {
                    name: String::from_str("auth"),
                    value: resp.token,
                    path: String::from_str("/"),
                    http_only: true,
                    same_site_strict: true,
                    max_age_seconds: DEFAULT_TTL_HOURS * 3600,
                },
                MessageResponse { message: String::from_str("Login successful") },
            ),
        ),
    }
}

/// Clears the session cookie at the same path by re-setting it empty and
/// already expired.  Nothing is invalidated server-side: a token captured
/// before logout stays valid until its natural expiry.
pub fn logout_cookie() -> (r: (SetCookie, MessageResponse))
    ensures
        r.0.name@ == "auth"@,
        r.0.value@.len() == 0,
        r.0.path@ == "/"@,
        r.0.max_age_seconds == 0,
        r.1.message@ == "Logout successful"@,
{
    (
        SetCookie {
            name: String::from_str("auth"),
            value: String::new(),
            path: String::from_str("/"),
            http_only: true,
            same_site_strict: true,
            max_age_seconds: 0,
        },
        MessageResponse { message: String::from_str("Logout successful") },
    )
}

} // verus!
