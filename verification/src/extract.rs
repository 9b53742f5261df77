//! Credential extraction from an inbound request's headers: the
//! `Authorization` header is consulted first and, when it carries a bearer
//! token, always wins; otherwise the `Cookie` header is searched for the
//! fixed cookie name `auth`.  Absence of both is an absence, not an error.

use vstd::prelude::*;

verus! {

/// Where a token was found.
#[derive(Clone, Copy, Debug, PartialEq, Eq, Structural)]
pub enum CredentialSource {
    Header,
    Cookie,
}

/// The characters of `"Bearer "`, the prefix a bearer header must carry.
pub open spec fn bearer_prefix() -> Seq<char> {
    seq!['B', 'e', 'a', 'r', 'e', 'r', ' ']
}

/// The characters of `"auth="`, the prefix a matching cookie segment must
/// carry after trimming.
pub open spec fn cookie_prefix() -> Seq<char> {
    seq!['a', 'u', 't', 'h', '=']
}

/// The token carried by an `Authorization` header value: whatever follows
/// the `"Bearer "` prefix, if the prefix is there.
pub open spec fn spec_bearer(h: Seq<char>) -> Option<Seq<char>> {
    if h.len() >= 7 && h.subrange(0, 7) == bearer_prefix() {
        Some(h.subrange(7, h.len() as int))
    } else {
        None
    }
}

/// The Unicode white-space characters, as `str::trim` removes them.
pub open spec fn spec_is_whitespace(c: char) -> bool {
    ||| c == ' '
    ||| c == '\t'
    ||| c == '\n'
    ||| c == '\u{b}'
    ||| c == '\u{c}'
    ||| c == '\r'
    ||| c == '\u{85}'
    ||| c == '\u{a0}'
    ||| c == '\u{1680}'
    ||| ('\u{2000}' <= c && c <= '\u{200a}')
    ||| c == '\u{2028}'
    ||| c == '\u{2029}'
    ||| c == '\u{202f}'
    ||| c == '\u{205f}'
    ||| c == '\u{3000}'
}

/// White space stripped from both ends.
pub open spec fn spec_trim(s: Seq<char>) -> Seq<char>
    decreases s.len(),
{
    if s.len() == 0 {
        s
    } else if spec_is_whitespace(s[0]) {
        spec_trim(s.drop_first())
    } else if spec_is_whitespace(s[s.len() - 1]) {
        spec_trim(s.drop_last())
    } else {
        s
    }
}

/// Index of the first occurrence of `c`, or the length when there is none.
pub open spec fn spec_find(s: Seq<char>, c: char) -> int
    decreases s.len(),
{
    if s.len() == 0 {
        0
    } else if s[0] == c {
        0
    } else {
        1 + spec_find(s.drop_first(), c)
    }
}

pub proof fn lemma_find(s: Seq<char>, c: char)
    ensures
        0 <= spec_find(s, c) <= s.len(),
        spec_find(s, c) < s.len() ==> s[spec_find(s, c)] == c,
        forall|j: int| 0 <= j < spec_find(s, c) ==> s[j] != c,
    decreases s.len(),
{
    if s.len() == 0 {
    } else if s[0] == c {
    } else {
        lemma_find(s.drop_first(), c);
        assert(forall|j: int| 0 <= j < spec_find(s, c) - 1 ==> s.drop_first()[j] != c);
        assert(forall|j: int| 1 <= j < spec_find(s, c) ==> s[j] == s.drop_first()[j - 1]);
    }
}

/// The value of the first cookie segment that, after trimming, starts with
/// `"auth="`; segments are separated by `';'`.
pub open spec fn spec_cookie_token(s: Seq<char>) -> Option<Seq<char>>
    decreases s.len(),
    via spec_cookie_token_decreases
{
    let e = spec_find(s, ';');
    let t = spec_trim(s.subrange(0, e));
    if t.len() >= 5 && t.subrange(0, 5) == cookie_prefix() {
        Some(t.subrange(5, t.len() as int))
    } else if e == s.len() {
        None
    } else {
        spec_cookie_token(s.subrange(e + 1, s.len() as int))
    }
}

#[via_fn]
proof fn spec_cookie_token_decreases(s: Seq<char>) {
    lemma_find(s, ';');
}

/// View of an optional borrowed header value.
pub open spec fn opt_view(o: Option<&str>) -> Option<Seq<char>> {
    match o {
        Some(s) => Some(s@),
        None => None,
    }
}

/// The fixed extraction precedence: a non-empty bearer token always wins;
/// otherwise a non-empty `auth` cookie value; otherwise nothing.
pub open spec fn spec_extract(auth: Option<Seq<char>>, cookie: Option<Seq<char>>) -> Option<
    (CredentialSource, Seq<char>),
> {
    let b = match auth {
        Some(h) => spec_bearer(h),
        None => None,
    };
    match b {
        Some(t) => if t.len() > 0 {
            Some((CredentialSource::Header, t))
        } else {
            spec_extract_cookie(cookie)
        },
        None => spec_extract_cookie(cookie),
    }
}

/// The cookie half of [`spec_extract`].
pub open spec fn spec_extract_cookie(cookie: Option<Seq<char>>) -> Option<
    (CredentialSource, Seq<char>),
> {
    match cookie {
        Some(h) => match spec_cookie_token(h) {
            Some(v) => if v.len() > 0 {
                Some((CredentialSource::Cookie, v))
            } else {
                None
            },
            None => None,
        },
        None => None,
    }
}

fn is_whitespace_char(c: char) -> (r: bool)
    ensures
        r == spec_is_whitespace(c),
{
    c == ' ' || c == '\t' || c == '\n' || c == '\u{b}' || c == '\u{c}' || c == '\r'
        || c == '\u{85}' || c == '\u{a0}' || c == '\u{1680}' || ('\u{2000}' <= c && c
        <= '\u{200a}') || c == '\u{2028}' || c == '\u{2029}' || c == '\u{202f}' || c == '\u{205f}'
        || c == '\u{3000}'
}

proof fn lemma_trim_range(s: Seq<char>, a: int, b: int)
    requires
        0 <= a <= b <= s.len(),
        forall|j: int| 0 <= j < a ==> spec_is_whitespace(#[trigger] s[j]),
        forall|j: int| b <= j < s.len() ==> spec_is_whitespace(#[trigger] s[j]),
        a < b ==> !spec_is_whitespace(s[a]),
        a < b ==> !spec_is_whitespace(s[b - 1]),
    ensures
        spec_trim(s) == s.subrange(a, b),
    decreases s.len(),
{
    if s.len() == 0 {
        assert(s.subrange(a, b) =~= s);
    } else if spec_is_whitespace(s[0]) {
        assert(a > 0 || b == a) by {
            if a == 0 && a < b {
                assert(!spec_is_whitespace(s[0]));
            }
        }
        if a == b {
            // all of s is white space on both sides of an empty middle
            let d = s.drop_first();
            assert(forall|j: int| 0 <= j < d.len() ==> d[j] == s[j + 1]);
            lemma_trim_range(d, 0, 0);
            assert(s.subrange(a, b) =~= d.subrange(0, 0));
        } else {
            let d = s.drop_first();
            assert(forall|j: int| 0 <= j < d.len() ==> d[j] == s[j + 1]);
            lemma_trim_range(d, a - 1, b - 1);
            assert(s.subrange(a, b) =~= d.subrange(a - 1, b - 1));
        }
    } else if spec_is_whitespace(s[s.len() - 1]) {
        assert(b < s.len() || a == b) by {
            if b == s.len() && a < b {
                assert(!spec_is_whitespace(s[b - 1]));
            }
        }
        let d = s.drop_last();
        assert(forall|j: int| 0 <= j < d.len() ==> d[j] == s[j]);
        if a == b && b == s.len() {
            lemma_trim_range(d, a - 1, b - 1);
            assert(s.subrange(a, b) =~= d.subrange(a - 1, b - 1));
        } else {
            lemma_trim_range(d, a, b);
            assert(s.subrange(a, b) =~= d.subrange(a, b));
        }
    } else {
        assert(a == 0 && b == s.len()) by {
            if a > 0 {
                assert(spec_is_whitespace(s[0]));
            }
            if b < s.len() {
                assert(spec_is_whitespace(s[s.len() - 1]));
            }
        }
        assert(s.subrange(a, b) =~= s);
    }
}

/// White space from both ends of a string is no part of its content;
/// trimming never lengthens it.
pub proof fn lemma_trim_len(s: Seq<char>)
    ensures
        spec_trim(s).len() <= s.len(),
    decreases s.len(),
{
    if s.len() == 0 {
    } else if spec_is_whitespace(s[0]) {
        lemma_trim_len(s.drop_first());
    } else if spec_is_whitespace(s[s.len() - 1]) {
        lemma_trim_len(s.drop_last());
    }
}

pub(crate) fn trim_str<'a>(s: &'a str) -> (r: &'a str)
    ensures
        r@ == spec_trim(s@),
{
    let n = s.unicode_len();
    let mut a: usize = 0;
    while a < n && is_whitespace_char(s.get_char(a))
        invariant
            0 <= a <= n,
            n == s@.len(),
            forall|j: int| 0 <= j < a ==> spec_is_whitespace(#[trigger] s@[j]),
        decreases n - a,
    {
        a += 1;
    }
    let mut b: usize = n;
    while b > a && is_whitespace_char(s.get_char(b - 1))
        invariant
            a <= b <= n,
            n == s@.len(),
            forall|j: int| 0 <= j < a ==> spec_is_whitespace(#[trigger] s@[j]),
            forall|j: int| b <= j < n ==> spec_is_whitespace(#[trigger] s@[j]),
        decreases b,
    {
        b -= 1;
    }
    proof {
        lemma_trim_range(s@, a as int, b as int);
    }
    s.substring_char(a, b)
}

pub(crate) fn find_char(s: &str, c: char) -> (r: usize)
    ensures
        r as int == spec_find(s@, c),
        r <= s@.len(),
{
    let n = s.unicode_len();
    let mut i: usize = 0;
    while i < n
        invariant
            0 <= i <= n,
            n == s@.len(),
            forall|j: int| 0 <= j < i ==> s@[j] != c,
        decreases n - i,
    {
        if s.get_char(i) == c {
            proof {
                lemma_find(s@, c);
                if spec_find(s@, c) < i {
                    assert(s@[spec_find(s@, c)] != c);
                }
                if spec_find(s@, c) > i {
                    assert(s@[i as int] != c);
                }
            }
            return i;
        }
        i += 1;
    }
    proof {
        lemma_find(s@, c);
        if spec_find(s@, c) < n {
            assert(s@[spec_find(s@, c)] != c);
        }
    }
    n
}

/// The token in an `Authorization` header value, when the header carries
/// the `"Bearer "` prefix: exactly the characters after the prefix.
pub fn bearer_token(h: &str) -> (r: Option<String>)
    ensures
        r matches Some(t) ==> spec_bearer(h@) == Some(t@),
        r is None ==> spec_bearer(h@) is None,
{
    let n = h.unicode_len();
    if n < 7 {
        return None;
    }
    let pre = h.substring_char(0, 7).to_owned();
    let pat: String = "Bearer ".to_owned();
    proof {
        reveal_strlit("Bearer ");
        assert("Bearer "@ =~= bearer_prefix());
    }
    if pre.eq(&pat) {
        let rest = h.substring_char(7, n);
        Some(rest.to_owned())
    } else {
        None
    }
}

/// The value of the `auth` cookie in a `Cookie` header value, found by
/// splitting on `';'`, trimming each segment, and taking the remainder of
/// the first segment that starts with `"auth="`.
pub fn cookie_token(h: &str) -> (r: Option<String>)
    ensures
        r matches Some(t) ==> spec_cookie_token(h@) == Some(t@),
        r is None ==> spec_cookie_token(h@) is None,
    decreases h@.len(),
{
    let n = h.unicode_len();
    let e = find_char(h, ';');
    let seg = h.substring_char(0, e);
    let t = trim_str(seg);
    let tl = t.unicode_len();
    if tl >= 5 {
        let pre = t.substring_char(0, 5).to_owned();
        let pat: String = "auth=".to_owned();
        proof {
            reveal_strlit("auth=");
            assert("auth="@ =~= cookie_prefix());
        }
        if pre.eq(&pat) {
            let v = t.substring_char(5, tl);
            return Some(v.to_owned());
        }
    }
    proof {
        lemma_find(h@, ';');
    }
    if e == n {
        None
    } else {
        let rest = h.substring_char(e + 1, n);
        cookie_token(rest)
    }
}

/// Locates a candidate token: the bearer header first, then the `auth`
/// cookie, in that fixed order; a source only counts when its token is
/// non-empty.
pub fn extract_token(authorization: Option<&str>, cookie_header: Option<&str>) -> (r: Option<
    (CredentialSource, String),
>)
    ensures
        r matches Some((src, t)) ==> spec_extract(opt_view(authorization), opt_view(cookie_header))
            == Some((src, t@)),
        r is None ==> spec_extract(opt_view(authorization), opt_view(cookie_header)) is None,
{
    if let Some(h) = authorization {
        if let Some(t) = bearer_token(h) {
            if t.as_str().unicode_len() > 0 {
                return Some((CredentialSource::Header, t));
            }
        }
    }
    if let Some(h) = cookie_header {
        if let Some(v) = cookie_token(h) {
            if v.as_str().unicode_len() > 0 {
                return Some((CredentialSource::Cookie, v));
            }
        }
    }
    None
}

/// The bearer header always takes priority: whenever the `Authorization`
/// header carries a non-empty bearer token, extraction returns it, whatever
/// the `Cookie` header holds.
pub proof fn lemma_header_precedence(h: Seq<char>, cookie: Option<Seq<char>>)
    requires
        spec_bearer(h) matches Some(t) && t.len() > 0,
    ensures
        spec_extract(Some(h), cookie) == Some(
            (CredentialSource::Header, spec_bearer(h)->0),
        ),
{
}

} // verus!
