//! Identity claims and the authorization gate.
//!
//! A claim set is the decoded, verified payload of a signed bearer
//! token. Verifying the signature is the token layer's job; everything
//! decided from a verified claim set — role membership, expiry,
//! bearer-header parsing — is proved here.

use vstd::prelude::*;
use vstd::string::StrSliceExecFns;
use crate::errors::ApiError;
use crate::strutil::{eq_ignore_case, opt_string_view, str_eq_ignore_ascii_case};

verus! {

/// A stateless, short-lived identity assertion: subject id, email,
/// role, expiry (seconds since the epoch), and an optional restaurant
/// scope for restaurant-role subjects.
#[derive(Clone, Debug, PartialEq, Eq)]
pub struct Claims {
    pub sub: String,
    pub email: String,
    pub role: String,
    pub exp: usize,
    pub restaurant_id: Option<String>,
}

pub ghost struct ClaimsModel {
    pub sub: Seq<char>,
    pub email: Seq<char>,
    pub role: Seq<char>,
    pub exp: usize,
    pub restaurant_id: Option<Seq<char>>,
}

impl View for Claims {
    type V = ClaimsModel;

    open spec fn view(&self) -> ClaimsModel {
        ClaimsModel {
            sub: self.sub@,
            email: self.email@,
            role: self.role@,
            exp: self.exp,
            restaurant_id: opt_string_view(self.restaurant_id),
        }
    }
}

/// Claims for a token issued at `now_secs` with a time-to-live in
/// hours: the expiry is exactly `now_secs + ttl_hours * 3600`.
pub fn issue_claims(
    sub: String,
    email: String,
    role: String,
    restaurant_id: Option<String>,
    now_secs: usize,
    ttl_hours: usize,
) -> (r: Claims)
    requires
        now_secs + ttl_hours * 3600 <= usize::MAX,
    ensures
        r@ == (ClaimsModel {
            sub: sub@,
            email: email@,
            role: role@,
            exp: (now_secs + ttl_hours * 3600) as usize,
            restaurant_id: opt_string_view(restaurant_id),
        }),
{
    Claims { sub, email, role, exp: now_secs + ttl_hours * 3600, restaurant_id }
}

/// A claim set is expired once the current time reaches its expiry;
/// there is no grace period.
pub fn claims_expired(claims: &Claims, now_secs: usize) -> (r: bool)
    ensures
        r == (claims@.exp <= now_secs),
{
    claims.exp <= now_secs
}

/// The subject asserts this role (role names compare ASCII
/// case-insensitively).
pub open spec fn spec_has_role(c: ClaimsModel, role: Seq<char>) -> bool {
    eq_ignore_case(c.role, role)
}

pub fn has_role(claims: &Claims, role: &str) -> (r: bool)
    ensures
        r == spec_has_role(claims@, role@),
{
    str_eq_ignore_ascii_case(claims.role.as_str(), role)
}

/// The asserted role is one of the allowed roles.
pub open spec fn spec_role_allowed(c: ClaimsModel, allowed: Seq<&str>) -> bool {
    exists|i: int| 0 <= i < allowed.len() && eq_ignore_case(c.role, allowed[i]@)
}

/// The authorization gate: pass exactly when the asserted role is
/// (case-insensitively) a member of the allowed set; otherwise the
/// caller holds a valid credential with insufficient privilege, which
/// is `Forbidden`, distinct from `Unauthenticated`.
pub fn require_role(claims: &Claims, allowed_roles: &[&str]) -> (r: Result<(), ApiError>)
    ensures
        r is Ok <==> spec_role_allowed(claims@, allowed_roles@),
        r is Err ==> r == Err::<(), ApiError>(ApiError::Forbidden),
{
    let n = allowed_roles.len();
    let mut i: usize = 0;
    while i < n
        invariant
            i <= n,
            n == allowed_roles@.len(),
            forall|j: int| 0 <= j < i ==> !eq_ignore_case(claims@.role, (#[trigger] allowed_roles@[j])@),
        decreases n - i,
    {
        if str_eq_ignore_ascii_case(claims.role.as_str(), allowed_roles[i]) {
            return Ok(());
        }
        i = i + 1;
    }
    proof {
        if spec_role_allowed(claims@, allowed_roles@) {
            let k = choose|k: int|
                0 <= k < allowed_roles@.len() && eq_ignore_case(claims@.role, allowed_roles@[k]@);
            assert(!eq_ignore_case(claims@.role, allowed_roles@[k]@));
        }
    }
    Err(ApiError::Forbidden)
}

/// The restaurant scope a login resolves for its token: only a
/// restaurant-role subject carries one, taken from the profile's
/// restaurant id, else its shop id, else the user id itself.
pub open spec fn spec_restaurant_scope(
    role: Seq<char>,
    restaurant_id: Option<Seq<char>>,
    shop_id: Option<Seq<char>>,
    user_id: Seq<char>,
) -> Option<Seq<char>> {
    if eq_ignore_case(role, "restaurant"@) {
        match restaurant_id {
            Some(r) => Some(r),
            None => match shop_id {
                Some(sh) => Some(sh),
                None => Some(user_id),
            },
        }
    } else {
        None
    }
}

/// Resolve the restaurant scope to put in a freshly issued claim set.
pub fn resolve_restaurant_scope(
    role: &str,
    restaurant_id: Option<String>,
    shop_id: Option<String>,
    user_id: String,
) -> (r: Option<String>)
    ensures
        opt_string_view(r) == spec_restaurant_scope(
            role@,
            opt_string_view(restaurant_id),
            opt_string_view(shop_id),
            user_id@,
        ),
{
    if !str_eq_ignore_ascii_case(role, "restaurant") {
        return None;
    }
    match restaurant_id {
        Some(r) => Some(r),
        None => match shop_id {
            Some(sh) => Some(sh),
            None => Some(user_id),
        },
    }
}

/// What a well-formed authorization header value yields: the text
/// after the exact prefix `Bearer `, or nothing.
pub open spec fn spec_bearer_token(h: Seq<char>) -> Option<Seq<char>> {
    if h.len() >= 7 && h.subrange(0, 7) == "Bearer "@ {
        Some(h.subrange(7, h.len() as int))
    } else {
        None
    }
}

/// Extract the bearer credential from an authorization header value.
pub fn bearer_token(header: &str) -> (r: Option<String>)
    ensures
        match r {
            Some(t) => spec_bearer_token(header@) == Some(t@),
            None => spec_bearer_token(header@) is None,
        },
{
    proof {
        reveal_strlit("Bearer ");
    }
    let prefix = "Bearer ";
    let n = header.unicode_len();
    if n < 7 {
        return None;
    }
    let mut i: usize = 0;
    while i < 7
        invariant
            i <= 7,
            n == header@.len(),
            7 <= n,
            prefix@ == "Bearer "@,
            prefix@.len() == 7,
            forall|j: int| 0 <= j < i ==> header@[j] == prefix@[j],
        decreases 7 - i,
    {
        if header.get_char(i) != prefix.get_char(i) {
            proof {
                assert(header@.subrange(0, 7)[i as int] != "Bearer "@[i as int]);
            }
            return None;
        }
        i = i + 1;
    }
    let rest = header.substring_char(7, n);
    proof {
        assert(header@.subrange(0, 7) =~= "Bearer "@);
    }
    Some(rest.to_owned())
}

} // verus!
