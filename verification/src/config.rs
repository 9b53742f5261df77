//! Process configuration as plain values: the shared signing secret, the
//! token time-to-live, the listen addresses, and the allowed CORS origins.
//! The surrounding process reads its environment once at start and hands
//! the raw values in; every default is applied here, exactly.

use vstd::prelude::*;
use crate::extract::{find_char, lemma_find, spec_find, spec_trim, trim_str};

verus! {

/// The process-wide configuration, loaded once and then immutable.
#[derive(Clone)]
pub struct Config {
    pub host: String,
    pub http_port: u16,
    pub grpc_port: u16,
    pub jwt_secret: String,
    pub jwt_ttl: u64,
    pub cors_origins: Vec<String>,
}

/// The documented non-production fallback secret.  Running with it voids
/// every security guarantee; a deployment must set its own.
pub fn default_secret() -> (r: String)
    ensures
        r@ == "default-secret-change-in-production"@,
{
    String::from_str("default-secret-change-in-production")
}

/// The comma-separated origin list, split, trimmed, empty entries dropped.
pub open spec fn spec_origins(s: Seq<char>) -> Seq<Seq<char>>
    decreases s.len(),
    via spec_origins_decreases
{
    let e = spec_find(s, ',');
    let t = spec_trim(s.subrange(0, e));
    (if t.len() > 0 {
        seq![t]
    } else {
        Seq::<Seq<char>>::empty()
    }) + (if e == s.len() {
        Seq::<Seq<char>>::empty()
    } else {
        spec_origins(s.subrange(e + 1, s.len() as int))
    })
}

#[via_fn]
proof fn spec_origins_decreases(s: Seq<char>) {
    lemma_find(s, ',');
}

/// Splits an origin list on `','`, trims each entry, and keeps the
/// non-empty ones, in order.
pub fn parse_origins(s: &str) -> (r: Vec<String>)
    ensures
        r.deep_view() == spec_origins(s@),
    decreases s@.len(),
{
    let n = s.unicode_len();
    let e = find_char(s, ',');
    let seg = s.substring_char(0, e);
    let t = trim_str(seg);
    let mut out: Vec<String> = Vec::new();
    if t.unicode_len() > 0 {
        out.push(t.to_owned());
        proof {
            assert(out.deep_view() =~= seq![t@]);
        }
    } else {
        proof {
            assert(out.deep_view() =~= Seq::<Seq<char>>::empty());
        }
    }
    proof {
        lemma_find(s@, ',');
    }
    if e < n {
        let ghost head = out.deep_view();
        let rest_str = s.substring_char(e + 1, n);
        let mut rest = parse_origins(rest_str);
        let ghost tail = rest.deep_view();
        out.append(&mut rest);
        proof {
            assert(out.deep_view() =~= head + tail);
            assert(out.deep_view() =~= spec_origins(s@));
        }
    } else {
        proof {
            assert(out.deep_view() + Seq::<Seq<char>>::empty() =~= out.deep_view());
            assert(out.deep_view() =~= spec_origins(s@));
        }
    }
    out
}

impl Config {
    /// Assembles the configuration from whatever the process environment
    /// offered, applying every documented default: host `127.0.0.1`, HTTP
    /// port 8080, RPC port 50051, time-to-live 3600 seconds, the fallback
    /// secret, and an empty origin list.
    pub fn from_parts(
        host: Option<String>,
        http_port: Option<u16>,
        grpc_port: Option<u16>,
        jwt_secret: Option<String>,
        jwt_ttl: Option<u64>,
        cors_origin: Option<&str>,
    ) -> (r: Config)
        ensures
            r.host@ == (match host {
                Some(h) => h@,
                None => "127.0.0.1"@,
            }),
            r.http_port == (match http_port {
                Some(p) => p,
                None => 8080u16,
            }),
            r.grpc_port == (match grpc_port {
                Some(p) => p,
                None => 50051u16,
            }),
            r.jwt_secret@ == (match jwt_secret {
                Some(sec) => sec@,
                None => "default-secret-change-in-production"@,
            }),
            r.jwt_ttl == (match jwt_ttl {
                Some(t) => t,
                None => 3600u64,
            }),
            r.cors_origins.deep_view() == (match cors_origin {
                Some(s) => spec_origins(s@),
                None => Seq::<Seq<char>>::empty(),
            }),
    {
        let host = match host {
            Some(h) => h,
            None => String::from_str("127.0.0.1"),
        };
        let http_port = match http_port {
            Some(p) => p,
            None => 8080,
        };
        let grpc_port = match grpc_port {
            Some(p) => p,
            None => 50051,
        };
        let jwt_secret = match jwt_secret {
            Some(sec) => sec,
            None => default_secret(),
        };
        let jwt_ttl = match jwt_ttl {
            Some(t) => t,
            None => 3600,
        };
        let cors_origins = match cors_origin {
            Some(s) => parse_origins(s),
            None => {
                let v: Vec<String> = Vec::new();
                proof {
                    assert(v.deep_view() =~= Seq::<Seq<char>>::empty());
                }
                v
            },
        };
        Config { host, http_port, grpc_port, jwt_secret, jwt_ttl, cors_origins }
    }
}

} // verus!
