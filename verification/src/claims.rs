//! The decoded, validated identity and authorization payload carried by a
//! session token, together with the pure authorization predicates over it
//! (roles are checked with OR semantics, policies with AND semantics).

use vstd::prelude::*;

verus! {

/// Mathematical model of a [`Claims`] value.
#[verifier::ext_equal]
pub struct ClaimsView {
    pub sub: Seq<char>,
    pub exp: int,
    pub iat: int,
    pub roles: Seq<Seq<char>>,
    pub policies: Seq<Seq<char>>,
}

impl ClaimsView {
    /// Validity of a claims payload: a non-empty subject, an expiry strictly
    /// after the issue time, and timestamps that fit their 64-bit fields.
    pub open spec fn wf(self) -> bool {
        &&& self.sub.len() > 0
        &&& self.iat < self.exp
        &&& i64::MIN <= self.iat <= i64::MAX
        &&& i64::MIN <= self.exp <= i64::MAX
    }
}

/// The authenticated identity: subject, issue and expiry timestamps
/// (seconds since the epoch), and the role and policy names held.
#[derive(Clone, Debug)]
pub struct Claims {
    pub sub: String,
    pub exp: i64,
    pub iat: i64,
    pub roles: Vec<String>,
    pub policies: Vec<String>,
}

impl View for Claims {
    type V = ClaimsView;

    open spec fn view(&self) -> ClaimsView {
        ClaimsView {
            sub: self.sub@,
            exp: self.exp as int,
            iat: self.iat as int,
            roles: self.roles.deep_view(),
            policies: self.policies.deep_view(),
        }
    }
}

/// Whether some name in `want` occurs in `have` (OR semantics); an empty
/// `want` places no restriction.
pub open spec fn spec_has_any(have: Seq<Seq<char>>, want: Seq<Seq<char>>) -> bool {
    want.len() == 0 || exists|i: int| 0 <= i < want.len() && have.contains(want[i])
}

/// Whether every name in `want` occurs in `have` (AND semantics); an empty
/// `want` places no restriction.
pub open spec fn spec_has_all(have: Seq<Seq<char>>, want: Seq<Seq<char>>) -> bool {
    forall|i: int| 0 <= i < want.len() ==> have.contains(#[trigger] want[i])
}

/// String comparison against a borrowed slice, stated over the views.
fn string_eq_str(a: &String, b: &str) -> (r: bool)
    ensures
        r == (a@ == b@),
{
    let b_owned: String = b.to_owned();
    a.eq(&b_owned)
}

/// Membership of `s` among the names in `v`, stated over the views.
pub(crate) fn names_contain(v: &Vec<String>, s: &str) -> (r: bool)
    ensures
        r == v.deep_view().contains(s@),
{
    let mut i: usize = 0;
    while i < v.len()
        invariant
            0 <= i <= v.len(),
            forall|j: int| 0 <= j < i ==> v.deep_view()[j] != s@,
        decreases v.len() - i,
    {
        if string_eq_str(&v[i], s) {
            assert(v.deep_view()[i as int] == s@);
            return true;
        }
        i += 1;
    }
    false
}

impl Claims {
    /// Replaces the role names, leaving everything else unchanged.
    pub fn with_roles(self, roles: Vec<String>) -> (r: Self)
        ensures
            r@ == (ClaimsView { roles: roles.deep_view(), ..self@ }),
    {
        Claims { roles, ..self }
    }

    /// Replaces the policy names, leaving everything else unchanged.
    pub fn with_policies(self, policies: Vec<String>) -> (r: Self)
        ensures
            r@ == (ClaimsView { policies: policies.deep_view(), ..self@ }),
    {
        Claims { policies, ..self }
    }

    /// True when the bearer holds at least one of the required roles, or
    /// when no role is required (OR semantics).
    pub fn has_any_role(&self, required_roles: &[&str]) -> (r: bool)
        ensures
            r == spec_has_any(self@.roles, required_roles.deep_view()),
    {
        if required_roles.len() == 0 {
            return true;
        }
        let mut i: usize = 0;
        while i < required_roles.len()
            invariant
                0 <= i <= required_roles.len(),
                forall|j: int| 0 <= j < i ==> !self@.roles.contains(required_roles.deep_view()[j]),
            decreases required_roles.len() - i,
        {
            if names_contain(&self.roles, required_roles[i]) {
                assert(self@.roles.contains(required_roles.deep_view()[i as int]));
                return true;
            }
            i += 1;
        }
        false
    }

    /// True when the bearer holds every required policy, or when no policy
    /// is required (AND semantics).
    pub fn has_all_policies(&self, required_policies: &[&str]) -> (r: bool)
        ensures
            r == spec_has_all(self@.policies, required_policies.deep_view()),
    {
        let mut i: usize = 0;
        while i < required_policies.len()
            invariant
                0 <= i <= required_policies.len(),
                forall|j: int| 0 <= j < i ==> self@.policies.contains(
                    #[trigger] required_policies.deep_view()[j],
                ),
            decreases required_policies.len() - i,
        {
            if !names_contain(&self.policies, required_policies[i]) {
                assert(!self@.policies.contains(required_policies.deep_view()[i as int]));
                return false;
            }
            i += 1;
        }
        true
    }
}

} // verus!
