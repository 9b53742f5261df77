use auth_core::claims::Claims;
use auth_core::codec::DecodeError;

const SECRET: &str = "test-secret";

fn sample_claims() -> Claims {
    Claims {
        sub: "alice".to_string(),
        iat: 1000,
        exp: 2000,
        roles: vec!["editor".to_string()],
        policies: vec!["read".to_string()],
    }
}

#[test]
fn round_trip_restores_claims() {
    let c = sample_claims();
    let token = c.encode(SECRET).unwrap();
    let d = Claims::decode(&token, SECRET, 1500).unwrap();
    assert_eq!(d.sub, "alice");
    assert_eq!(d.iat, 1000);
    assert_eq!(d.exp, 2000);
    assert_eq!(d.roles, vec!["editor".to_string()]);
    assert_eq!(d.policies, vec!["read".to_string()]);
}

#[test]
fn round_trip_with_unicode_and_many_names() {
    let c = Claims {
        sub: "hétérogène 団体".to_string(),
        iat: -50,
        exp: 50,
        roles: vec!["".to_string(), "rôle;un".to_string(), "admin".to_string()],
        policies: vec!["p=1".to_string(), "p.2".to_string()],
    };
    let token = c.encode(SECRET).unwrap();
    let d = Claims::decode(&token, SECRET, 0).unwrap();
    assert_eq!(d.sub, c.sub);
    assert_eq!(d.iat, c.iat);
    assert_eq!(d.exp, c.exp);
    assert_eq!(d.roles, c.roles);
    assert_eq!(d.policies, c.policies);
}

#[test]
fn expired_token_is_refused_even_with_correct_signature() {
    let c = sample_claims();
    let token = c.encode(SECRET).unwrap();
    assert_eq!(Claims::decode(&token, SECRET, 2001).unwrap_err(), DecodeError::Invalid);
    // the boundary itself is still valid: expiry means now beyond exp
    assert!(Claims::decode(&token, SECRET, 2000).is_ok());
}

#[test]
fn wrong_secret_is_refused() {
    let token = sample_claims().encode(SECRET).unwrap();
    assert_eq!(
        Claims::decode(&token, "other-secret", 1500).unwrap_err(),
        DecodeError::Invalid
    );
}

#[test]
fn flipping_any_byte_makes_decode_fail() {
    let token = sample_claims().encode(SECRET).unwrap();
    let bytes = token.as_bytes();
    for i in 0..bytes.len() {
        for replacement in [b'A', b'B'] {
            if bytes[i] == replacement {
                continue;
            }
            let mut tampered = bytes.to_vec();
            tampered[i] = replacement;
            let tampered = String::from_utf8(tampered).unwrap();
            assert_eq!(
                Claims::decode(&tampered, SECRET, 1500).unwrap_err(),
                DecodeError::Invalid,
                "tampered byte {} was accepted",
                i
            );
        }
    }
}

#[test]
fn token_is_base64url_message_dot_signature() {
    let token = sample_claims().encode(SECRET).unwrap();
    let dots = token.chars().filter(|c| *c == '.').count();
    assert_eq!(dots, 1);
    let is_b64url =
        |c: char| c.is_ascii_alphanumeric() || c == '-' || c == '_';
    let (msg, sig) = token.split_once('.').unwrap();
    assert!(!msg.is_empty());
    assert!(msg.chars().all(is_b64url));
    // an HMAC-SHA256 tag is 32 bytes: 43 base64url characters
    assert_eq!(sig.len(), 43);
    assert!(sig.chars().all(is_b64url));
}

#[test]
fn distinct_claims_give_distinct_tokens() {
    let a = sample_claims();
    let mut b = sample_claims();
    b.sub = "bob".to_string();
    assert_ne!(a.encode(SECRET).unwrap(), b.encode(SECRET).unwrap());
}

#[test]
fn garbage_tokens_are_refused() {
    for t in ["", ".", "abc", "abc.def", "a.b.c", "!!!.???"] {
        assert_eq!(Claims::decode(t, SECRET, 0).unwrap_err(), DecodeError::Invalid);
    }
}

#[test]
fn structurally_invalid_claims_are_refused() {
    // exp not after iat: the payload is rejected even though it is signed
    let c = Claims {
        sub: "alice".to_string(),
        iat: 2000,
        exp: 1000,
        roles: vec![],
        policies: vec![],
    };
    let token = c.encode(SECRET).unwrap();
    assert_eq!(Claims::decode(&token, SECRET, 0).unwrap_err(), DecodeError::Invalid);
    // empty subject likewise
    let c = Claims {
        sub: "".to_string(),
        iat: 0,
        exp: 10,
        roles: vec![],
        policies: vec![],
    };
    let token = c.encode(SECRET).unwrap();
    assert_eq!(Claims::decode(&token, SECRET, 5).unwrap_err(), DecodeError::Invalid);
}

#[test]
fn new_at_builds_exact_timestamps() {
    let c = Claims::new_at("alice".to_string(), 5000, Some(2), None, None);
    assert_eq!(c.sub, "alice");
    assert_eq!(c.iat, 5000);
    assert_eq!(c.exp, 5000 + 2 * 3600);
    assert!(c.roles.is_empty());
    assert!(c.policies.is_empty());
}

#[test]
fn new_at_clamps_clock_and_ttl() {
    let c = Claims::new_at("a".to_string(), -7, Some(0), None, None);
    assert_eq!(c.iat, 0);
    assert_eq!(c.exp, 3600);
    let c = Claims::new_at("a".to_string(), 0, None, None, None);
    assert_eq!(c.exp, 24 * 3600);
}

#[test]
fn new_reads_the_clock() {
    let c = Claims::new("alice".to_string(), None, None, None);
    // issued no earlier than the moment this test was written
    assert!(c.iat > 1_700_000_000);
    assert_eq!(c.exp, c.iat + 24 * 3600);
}

#[test]
fn with_roles_and_policies_replace_only_their_field() {
    let c = sample_claims()
        .with_roles(vec!["admin".to_string()])
        .with_policies(vec!["write".to_string()]);
    assert_eq!(c.sub, "alice");
    assert_eq!(c.roles, vec!["admin".to_string()]);
    assert_eq!(c.policies, vec!["write".to_string()]);
}
