//! The token codec: a claims value is written in its canonical byte form,
//! carried base64url-encoded, and signed with HMAC-SHA256 under a shared
//! secret.  A token is `<message>.<signature>`, where the message is the
//! base64url image of the payload and the signature is the base64url image
//! of the message's HMAC tag.
//!
//! The byte form and its parser are verified ([`crate::payload`]); only the
//! base64 transport and the keyed hash stand behind trusted contracts.

use vstd::prelude::*;
use crate::claims::{Claims, ClaimsView};
use crate::payload::{encode_payload, fits, parse_payload, spec_payload,
    lemma_payload_complete, lemma_payload_sound};

verus! {

/// Fallback time-to-live applied when the caller supplies none.
pub const DEFAULT_TTL_HOURS: i64 = 24;

/// Largest accepted time-to-live, so that expiry arithmetic cannot overflow.
pub const MAX_TTL_HOURS: i64 = 24000000;

/// Largest accepted clock reading (far future), for the same reason.
pub const MAX_CLOCK: i64 = 4000000000000;

/// Names the unpadded base64url image of a byte string.
pub uninterp spec fn b64url_of(b: Seq<u8>) -> Seq<char>;

/// Names the base64url-encoded HMAC-SHA256 tag of a message under a secret.
pub uninterp spec fn hs256_sig_of(msg: Seq<char>, secret: Seq<char>) -> Seq<char>;

/// No `'.'` occurs among the first `k` characters of `s`.
pub open spec fn no_dot_before(s: Seq<char>, k: int) -> bool {
    forall|j: int| 0 <= j < k ==> s[j] != '.'
}

/// The message part of the token carrying `c`.
pub open spec fn spec_msg(c: ClaimsView) -> Seq<char> {
    b64url_of(spec_payload(c))
}

/// The whole token carrying `c` under `secret`.
pub open spec fn spec_token(c: ClaimsView, secret: Seq<char>) -> Seq<char> {
    spec_msg(c) + seq!['.'] + hs256_sig_of(spec_msg(c), secret)
}

/// The message part never contains the `'.'` separator.  This holds of
/// every token, because the base64url alphabet has no `'.'`; the encoder's
/// contract restates it for each token the codec issues, and decoding
/// contracts carry it as a hypothesis since the verifier treats the
/// base64url image as opaque.
pub open spec fn msg_dot_free(c: ClaimsView) -> bool {
    no_dot_before(spec_msg(c), spec_msg(c).len() as int)
}

/// `token` is the canonical token of the well-formed claims view `cv` under
/// `secret`: what [`Claims::encode`] produces and the only shape
/// [`Claims::decode`] accepts.
pub open spec fn spec_genuine(cv: ClaimsView, token: Seq<char>, secret: Seq<char>) -> bool {
    &&& cv.wf()
    &&& fits(cv)
    &&& msg_dot_free(cv)
    &&& token == spec_token(cv, secret)
}

/// Why encoding failed.  Signing cannot in fact fail for an HMAC secret,
/// which the encoder's contract records.
#[derive(Debug, PartialEq, Eq, Structural)]
pub enum EncodeError {
    Signing,
}

/// Why decoding failed.  Signature, structure and expiry failures are
/// deliberately collapsed into one kind, so that a caller learns nothing
/// about the cause.
#[derive(Debug, PartialEq, Eq, Structural)]
pub enum DecodeError {
    Invalid,
}

/// Relies on base64's `URL_SAFE_NO_PAD` engine: the unpadded base64url
/// image of the input, a pure function of the bytes, drawn from the
/// URL-safe alphabet, which does not contain `'.'`.
#[verifier::external_body]
fn b64_encode(b: &Vec<u8>) -> (r: String)
    ensures
        r@ == b64url_of(b@),
        no_dot_before(r@, r@.len() as int),
{
    base64::Engine::encode(&base64::engine::general_purpose::URL_SAFE_NO_PAD, b)
}

/// Relies on the same engine's decoder, which is strict (it refuses padding
/// and non-canonical trailing bits): it accepts exactly the strings the
/// encoder produces and returns the bytes they encode.
#[verifier::external_body]
fn b64_decode(s: &str) -> (r: Option<Vec<u8>>)
    ensures
        r matches Some(v) ==> s@ == b64url_of(v@),
        forall|b: Seq<u8>| s@ == b64url_of(b) ==> r is Some,
        forall|b: Seq<u8>| s@ == b64url_of(b) ==> (r->0)@ == b,
{
    base64::Engine::decode(&base64::engine::general_purpose::URL_SAFE_NO_PAD, s).ok()
}

/// Relies on jsonwebtoken::crypto::sign with HS256 and a key from
/// `EncodingKey::from_secret`: it returns the base64url-encoded HMAC-SHA256
/// tag of the message, a pure function of message and secret, and cannot
/// fail for an HMAC key.
#[verifier::external_body]
fn sign_hs256(msg: &str, secret: &str) -> (r: Option<String>)
    ensures
        r is Some,
        (r->0)@ == hs256_sig_of(msg@, secret@),
{
    let key = jsonwebtoken::EncodingKey::from_secret(secret.as_bytes());
    jsonwebtoken::crypto::sign(msg.as_bytes(), &key, jsonwebtoken::Algorithm::HS256).ok()
}

/// Relies on jsonwebtoken::crypto::verify with HS256 and a key from
/// `DecodingKey::from_secret`: it recomputes the tag of the message and
/// compares; since its base64url decoding of the signature is strict, it
/// returns true for exactly the one string that `sign` would produce.
#[verifier::external_body]
fn verify_hs256(sig: &str, msg: &str, secret: &str) -> (r: bool)
    ensures
        r == (sig@ == hs256_sig_of(msg@, secret@)),
{
    let key = jsonwebtoken::DecodingKey::from_secret(secret.as_bytes());
    match jsonwebtoken::crypto::verify(sig, msg.as_bytes(), &key, jsonwebtoken::Algorithm::HS256) {
        Ok(v) => v,
        Err(_) => false,
    }
}

/// Relies on chrono::Utc::now: the clock's current reading in whole seconds
/// since the epoch.  Nothing is promised of the value.
#[verifier::external_body]
fn now_seconds() -> i64 {
    chrono::Utc::now().timestamp()
}

fn find_dot(s: &str) -> (r: Option<usize>)
    ensures
        r matches Some(k) ==> k < s@.len() && s@[k as int] == '.' && no_dot_before(s@, k as int),
        r is None ==> no_dot_before(s@, s@.len() as int),
{
    let n = s.unicode_len();
    let mut i: usize = 0;
    while i < n
        invariant
            i <= n,
            n == s@.len(),
            no_dot_before(s@, i as int),
        decreases n - i,
    {
        if s.get_char(i) == '.' {
            return Some(i);
        }
        i += 1;
    }
    None
}

proof fn lemma_split_token(t: Seq<char>, cv: ClaimsView, secret: Seq<char>, k: int)
    requires
        t == spec_token(cv, secret),
        msg_dot_free(cv),
        0 <= k < t.len(),
        t[k] == '.',
        no_dot_before(t, k),
    ensures
        k == spec_msg(cv).len(),
        t.subrange(0, k) == spec_msg(cv),
        t.subrange(k + 1, t.len() as int) == hs256_sig_of(spec_msg(cv), secret),
{
    let m = spec_msg(cv);
    let g = hs256_sig_of(m, secret);
    assert(t.len() == m.len() + 1 + g.len());
    assert(t[m.len() as int] == '.');
    if k < m.len() {
        assert(t[k] == m[k]);
        assert(m[k] != '.');
        assert(false);
    }
    if k > m.len() {
        assert(t[m.len() as int] != '.');
        assert(false);
    }
    assert(t.subrange(0, k) =~= m);
    assert(t.subrange(k + 1, t.len() as int) =~= g);
}

impl Claims {
    /// Serializes and signs this claims value: the message part is the
    /// base64url image of the canonical payload, the signature part the
    /// HMAC-SHA256 tag of the message under `secret`.  Signing an HMAC
    /// secret cannot fail, so the token is always produced.
    pub fn encode(&self, secret: &str) -> (r: Result<String, EncodeError>)
        ensures
            r matches Ok(t) && t@ == spec_token(self@, secret@),
            fits(self@),
            msg_dot_free(self@),
    {
        let v = encode_payload(self);
        let msg = b64_encode(&v);
        match sign_hs256(msg.as_str(), secret) {
            None => Err(EncodeError::Signing),
            Some(sig) => {
                proof {
                    reveal_strlit(".");
                    assert("."@ =~= seq!['.']);
                }
                let token = msg.concat(".").concat(sig.as_str());
                Ok(token)
            },
        }
    }

    /// Checks the signature against `secret`, parses the canonical payload,
    /// and checks expiry against `now`.  Every genuine unexpired token
    /// decodes to exactly the claims it was made from (the round-trip law);
    /// a genuine but expired token is refused; and whatever is accepted is
    /// a well-formed claims value whose canonical token the input is.
    pub fn decode(token: &str, secret: &str, now: i64) -> (r: Result<Claims, DecodeError>)
        ensures
            r matches Ok(c) ==> spec_genuine(c@, token@, secret@) && now <= c@.exp,
            forall|cv: ClaimsView|
                spec_genuine(cv, token@, secret@) && now <= cv.exp ==> (r matches Ok(c) && c@
                    == cv),
            forall|cv: ClaimsView| spec_genuine(cv, token@, secret@) && cv.exp < now ==> r is Err,
    {
        let n = token.unicode_len();
        let k = match find_dot(token) {
            Some(k) => k,
            None => {
                proof {
                    assert forall|cv: ClaimsView|
                        cv.wf() && fits(cv) && msg_dot_free(cv) && token@ == spec_token(
                            cv,
                            secret@,
                        ) implies false by {
                        let m = spec_msg(cv);
                        assert(token@[m.len() as int] == '.');
                    }
                }
                return Err(DecodeError::Invalid);
            },
        };
        let msg = token.substring_char(0, k);
        let sig = token.substring_char(k + 1, n);
        proof {
            assert forall|cv: ClaimsView|
                cv.wf() && fits(cv) && msg_dot_free(cv) && token@ == spec_token(
                    cv,
                    secret@,
                ) implies msg@ == spec_msg(cv) && sig@ == hs256_sig_of(spec_msg(cv), secret@) by {
                lemma_split_token(token@, cv, secret@, k as int);
            }
        }
        if !verify_hs256(sig, msg, secret) {
            return Err(DecodeError::Invalid);
        }
        let v = match b64_decode(msg) {
            Some(v) => v,
            None => {
                return Err(DecodeError::Invalid);
            },
        };
        let c = match parse_payload(&v) {
            Some(c) => c,
            None => {
                proof {
                    assert forall|cv: ClaimsView|
                        cv.wf() && fits(cv) && msg_dot_free(cv) && token@ == spec_token(
                            cv,
                            secret@,
                        ) implies false by {
                        lemma_payload_complete(cv);
                        assert(v@ == spec_payload(cv));
                    }
                }
                return Err(DecodeError::Invalid);
            },
        };
        proof {
            broadcast use vstd::std_specs::vec::axiom_spec_len;

            assert(vstd::std_specs::vec::spec_vec_len(&v) == v@.len());
            assert(v@.len() <= u64::MAX);
            lemma_payload_sound(v@);
            assert forall|cv: ClaimsView|
                cv.wf() && fits(cv) && msg_dot_free(cv) && token@ == spec_token(
                    cv,
                    secret@,
                ) implies c@ == cv by {
                lemma_payload_complete(cv);
                assert(v@ == spec_payload(cv));
            }
            assert(token@ =~= msg@ + seq!['.'] + sig@);
        }
        if now <= c.exp {
            Ok(c)
        } else {
            Err(DecodeError::Invalid)
        }
    }

    /// Clamps a clock reading into the representable window.
    pub open spec fn clamp_time(t: i64) -> i64 {
        if t < 0 {
            0
        } else if t > MAX_CLOCK {
            MAX_CLOCK
        } else {
            t
        }
    }

    /// Clamps a requested time-to-live into the accepted window.
    pub open spec fn clamp_ttl(h: Option<i64>) -> i64 {
        match h {
            Some(h) => if h < 1 {
                1
            } else if h > MAX_TTL_HOURS {
                MAX_TTL_HOURS
            } else {
                h
            },
            None => DEFAULT_TTL_HOURS,
        }
    }

    /// Builds a claims value issued at `now` and expiring after the given
    /// number of hours (default when absent); readings and spans outside
    /// the representable window are clamped so that expiry arithmetic
    /// cannot overflow.
    pub fn new_at(
        sub: String,
        now: i64,
        duration_hours: Option<i64>,
        roles: Option<Vec<String>>,
        policies: Option<Vec<String>>,
    ) -> (r: Self)
        ensures
            r@.sub == sub@,
            r@.iat == Self::clamp_time(now) as int,
            r@.exp == Self::clamp_time(now) + Self::clamp_ttl(duration_hours) * 3600,
            r@.roles == (match roles {
                Some(v) => v.deep_view(),
                None => Seq::<Seq<char>>::empty(),
            }),
            r@.policies == (match policies {
                Some(v) => v.deep_view(),
                None => Seq::<Seq<char>>::empty(),
            }),
            r@.iat < r@.exp,
    {
        let t = if now < 0 {
            0
        } else if now > MAX_CLOCK {
            MAX_CLOCK
        } else {
            now
        };
        let h = match duration_hours {
            Some(h) => if h < 1 {
                1
            } else if h > MAX_TTL_HOURS {
                MAX_TTL_HOURS
            } else {
                h
            },
            None => DEFAULT_TTL_HOURS,
        };
        let r = match roles {
            Some(v) => v,
            None => Vec::new(),
        };
        let p = match policies {
            Some(v) => v,
            None => Vec::new(),
        };
        Claims { sub, iat: t, exp: t + h * 3600, roles: r, policies: p }
    }

    /// Builds a claims value issued now, reading the process clock.  The
    /// clock value itself cannot be promised; everything else is pinned:
    /// the expiry lies the requested (or default) span after the issue
    /// time, and subject, roles and policies are carried unchanged.
    pub fn new(
        sub: String,
        duration_hours: Option<i64>,
        roles: Option<Vec<String>>,
        policies: Option<Vec<String>>,
    ) -> (r: Self)
        ensures
            r@.sub == sub@,
            0 <= r@.iat <= MAX_CLOCK,
            r@.exp == r@.iat + Self::clamp_ttl(duration_hours) * 3600,
            r@.roles == (match roles {
                Some(v) => v.deep_view(),
                None => Seq::<Seq<char>>::empty(),
            }),
            r@.policies == (match policies {
                Some(v) => v.deep_view(),
                None => Seq::<Seq<char>>::empty(),
            }),
            r@.iat < r@.exp,
    {
        let now = now_seconds();
        Self::new_at(sub, now, duration_hours, roles, policies)
    }
}

} // verus!

