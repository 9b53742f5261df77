//! The attachable form of the guard: a route or route group wraps a
//! [`JwtAuth`] value that carries its own requirement — authentication
//! only, a role list (OR), a policy list (AND), or both — and every request
//! through it runs the same extract–decode–evaluate pipeline.

use vstd::prelude::*;
use crate::authorize::{authorize_request, spec_found, spec_passes, AuthorizeError};
use crate::claims::{Claims, ClaimsView};
use crate::codec::spec_genuine;

verus! {

/// A declared requirement for a route: which roles (any one suffices) and
/// which policies (all are needed) a caller must hold.  `None` means the
/// check is not installed at all; an empty list restricts nothing either.
pub struct JwtAuth {
    roles: Option<Vec<String>>,
    policies: Option<Vec<String>>,
}

impl JwtAuth {
    /// The declared role requirement, as a sequence of names.
    pub closed spec fn spec_roles(&self) -> Seq<Seq<char>> {
        match self.roles {
            Some(v) => v.deep_view(),
            None => Seq::empty(),
        }
    }

    /// The declared policy requirement, as a sequence of names.
    pub closed spec fn spec_policies(&self) -> Seq<Seq<char>> {
        match self.policies {
            Some(v) => v.deep_view(),
            None => Seq::empty(),
        }
    }

    /// Authentication only: no role and no policy requirement.
    pub fn new() -> (r: Self)
        ensures
            r.spec_roles() == Seq::<Seq<char>>::empty(),
            r.spec_policies() == Seq::<Seq<char>>::empty(),
    {
        JwtAuth { roles: None, policies: None }
    }

    /// Authentication plus a role requirement.
    pub fn with_roles(roles: Vec<&str>) -> (r: Self)
        ensures
            r.spec_roles() == roles.deep_view(),
            r.spec_policies() == Seq::<Seq<char>>::empty(),
    {
        JwtAuth { roles: Some(owned_names(&roles)), policies: None }
    }

    /// Authentication plus a policy requirement.
    pub fn with_policies(policies: Vec<&str>) -> (r: Self)
        ensures
            r.spec_roles() == Seq::<Seq<char>>::empty(),
            r.spec_policies() == policies.deep_view(),
    {
        JwtAuth { roles: None, policies: Some(owned_names(&policies)) }
    }

    /// Authentication plus both requirements.
    pub fn with_rules(roles: Vec<&str>, policies: Vec<&str>) -> (r: Self)
        ensures
            r.spec_roles() == roles.deep_view(),
            r.spec_policies() == policies.deep_view(),
    {
        JwtAuth { roles: Some(owned_names(&roles)), policies: Some(owned_names(&policies)) }
    }

    /// Runs the guard for one request under this requirement; the decisions
    /// are exactly those of [`authorize_request`].
    pub fn authorize(
        &self,
        auth_header: Option<&str>,
        cookie_header: Option<&str>,
        secret: &str,
        now: i64,
    ) -> (r: Result<Claims, AuthorizeError>)
        ensures
            (r matches Err(e) && e == AuthorizeError::MissingCredentials) <==> spec_found(
                auth_header,
                cookie_header,
            ) is None,
            r matches Ok(c) ==> (spec_found(auth_header, cookie_header) is Some && spec_genuine(
                c@,
                spec_found(auth_header, cookie_header)->0,
                secret@,
            ) && now <= c@.exp && spec_passes(c@, self.spec_roles(), self.spec_policies())),
            forall|cv: ClaimsView|
                (spec_found(auth_header, cookie_header) is Some && #[trigger] spec_genuine(
                    cv,
                    spec_found(auth_header, cookie_header)->0,
                    secret@,
                ) && now <= cv.exp && spec_passes(cv, self.spec_roles(), self.spec_policies()))
                    ==> (r matches Ok(c) && c@ == cv),
            forall|cv: ClaimsView|
                (spec_found(auth_header, cookie_header) is Some && #[trigger] spec_genuine(
                    cv,
                    spec_found(auth_header, cookie_header)->0,
                    secret@,
                ) && now <= cv.exp && !spec_passes(cv, self.spec_roles(), self.spec_policies()))
                    ==> r == Err::<Claims, AuthorizeError>(AuthorizeError::Forbidden),
            forall|cv: ClaimsView|
                (spec_found(auth_header, cookie_header) is Some && #[trigger] spec_genuine(
                    cv,
                    spec_found(auth_header, cookie_header)->0,
                    secret@,
                ) && cv.exp < now) ==> r == Err::<Claims, AuthorizeError>(
                    AuthorizeError::InvalidToken,
                ),
    {
        let roles = borrowed_names(&self.roles);
        let policies = borrowed_names(&self.policies);
        authorize_request(
            auth_header,
            cookie_header,
            secret,
            now,
            roles.as_slice(),
            policies.as_slice(),
        )
    }
}

/// Owned copies of a list of borrowed names.
fn owned_names(xs: &Vec<&str>) -> (r: Vec<String>)
    ensures
        r.deep_view() == xs.deep_view(),
{
    let mut r: Vec<String> = Vec::new();
    let mut i: usize = 0;
    while i < xs.len()
        invariant
            0 <= i <= xs.len(),
            r.deep_view() =~= xs.deep_view().take(i as int),
        decreases xs.len() - i,
    {
        let ghost pre = r.deep_view();
        r.push(xs[i].to_owned());
        proof {
            assert(r.deep_view() =~= pre.push(xs@[i as int]@));
            assert(pre.push(xs@[i as int]@) =~= xs.deep_view().take(i + 1));
        }
        i += 1;
    }
    proof {
        assert(xs.deep_view().take(xs@.len() as int) =~= xs.deep_view());
    }
    r
}

/// Borrowed views of an optional list of owned names; an absent list
/// becomes the empty list, which restricts nothing.
fn borrowed_names<'a>(xs: &'a Option<Vec<String>>) -> (r: Vec<&'a str>)
    ensures
        r.deep_view() == (match xs {
            Some(v) => v.deep_view(),
            None => Seq::<Seq<char>>::empty(),
        }),
{
    let mut r: Vec<&str> = Vec::new();
    match xs {
        None => r,
        Some(v) => {
            let mut i: usize = 0;
            while i < v.len()
                invariant
                    0 <= i <= v.len(),
                    r.deep_view() =~= v.deep_view().take(i as int),
                decreases v.len() - i,
            {
                let ghost pre = r.deep_view();
                r.push(v[i].as_str());
                proof {
                    assert(r.deep_view() =~= pre.push(v@[i as int]@));
                    assert(pre.push(v@[i as int]@) =~= v.deep_view().take(i + 1));
                }
                i += 1;
            }
            proof {
                assert(v.deep_view().take(v@.len() as int) =~= v.deep_view());
            }
            r
        },
    }
}

} // verus!
