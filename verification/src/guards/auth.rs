//! The authorization guard: from the `Authorization` header of a request to
//! a verified claim that has the capability the operation asks for.

use core::marker::PhantomData;
use vstd::prelude::*;
use vstd::string::*;

use crate::crypto::{current_timestamp, decode_claim, decoded_claim};
use crate::error::HttpStatus;

verus! {

/// The secret that tokens are signed with and verified against.
pub struct SecretKeyWrapper {
    pub key: String,
}

/// The claim that a token carries: until when it holds, for whom, and
/// whether that is an administrator.
#[derive(Debug, PartialEq, Eq)]
pub struct WebUIUserAuthorization {
    pub exp: u64,
    pub name: String,
    pub is_admin: bool,
}

/// The claim as mathematics.
pub struct ClaimView {
    pub exp: u64,
    pub name: Seq<char>,
    pub is_admin: bool,
}

impl View for WebUIUserAuthorization {
    type V = ClaimView;

    open spec fn view(&self) -> ClaimView {
        ClaimView { exp: self.exp, name: self.name@, is_admin: self.is_admin }
    }
}

/// The token was malformed, its signature did not match, or its payload is
/// no claim.
#[derive(Clone, Copy, Debug, PartialEq, Eq, Structural)]
pub struct Rejected;

/// A capability: what a claim must show for an operation to go ahead.
pub trait AuthorizationProvider {
    /// Whether the claim has the capability.
    spec fn authorizes(auth: ClaimView) -> bool;

    fn authorize(auth: &WebUIUserAuthorization) -> (ok: bool)
        ensures
            ok == Self::authorizes(auth@),
    ;
}

/// Any authenticated caller.
pub struct OperatorUser;

/// Administrators only.
pub struct AdminUser;

impl AuthorizationProvider for OperatorUser {
    open spec fn authorizes(auth: ClaimView) -> bool {
        true
    }

    fn authorize(_auth: &WebUIUserAuthorization) -> (ok: bool) {
        true
    }
}

impl AuthorizationProvider for AdminUser {
    open spec fn authorizes(auth: ClaimView) -> bool {
        auth.is_admin
    }

    fn authorize(auth: &WebUIUserAuthorization) -> (ok: bool) {
        auth.is_admin
    }
}

/// A claim that passed the guard for the capability `T`. It is made by the
/// guard only, and cannot be changed once it is made.
pub struct Auth<T: AuthorizationProvider> {
    auth_provider: PhantomData<T>,
    claim: WebUIUserAuthorization,
}

impl<T: AuthorizationProvider> View for Auth<T> {
    type V = ClaimView;

    closed spec fn view(&self) -> ClaimView {
        self.claim@
    }
}

/// The position of the first space in `s`, or the length of `s` where it
/// has none.
pub open spec fn first_space(s: Seq<char>) -> int
    decreases s.len(),
{
    if s.len() == 0 {
        0
    } else if s[0] == ' ' {
        0
    } else {
        1 + first_space(s.drop_first())
    }
}

/// The token of an `Authorization` header. The header is cut at its spaces:
/// the first piece has to be `Bearer`, and the second piece, which has to be
/// there, is the token. Further pieces are not looked at.
pub open spec fn spec_bearer_token(header: Seq<char>) -> Option<Seq<char>> {
    let cut = first_space(header);
    if header.take(cut) == "Bearer"@ && cut < header.len() {
        let rest = header.skip(cut + 1);
        Some(rest.take(first_space(rest)))
    } else {
        None
    }
}

/// Why a claim is turned away at the time `now`, if it is: it has expired,
/// or it lacks the capability.
pub open spec fn rejection<T: AuthorizationProvider>(claim: ClaimView, now: u64) -> Option<
    HttpStatus,
> {
    if claim.exp <= now {
        Some(HttpStatus::Unauthorized)
    } else if !T::authorizes(claim) {
        Some(HttpStatus::Forbidden)
    } else {
        None
    }
}

/// The whole guard at the time `now`: how a request with this header fares,
/// and the claim it yields where it passes.
pub open spec fn spec_guard<T: AuthorizationProvider>(
    authorization: Option<Seq<char>>,
    secret: Seq<char>,
    now: u64,
) -> Result<ClaimView, HttpStatus> {
    match authorization {
        None => Err(HttpStatus::Unauthorized),
        Some(header) => match spec_bearer_token(header) {
            None => Err(HttpStatus::BadRequest),
            Some(token) => match decoded_claim(token, secret) {
                None => Err(HttpStatus::Unauthorized),
                Some((exp, name, is_admin)) => {
                    let claim = ClaimView { exp, name, is_admin };
                    match rejection::<T>(claim, now) {
                        Some(status) => Err(status),
                        None => Ok(claim),
                    }
                },
            },
        },
    }
}

/// `first_space` is the first position that holds a space.
pub proof fn lemma_first_space(s: Seq<char>, at: int)
    requires
        0 <= at <= s.len(),
        forall|k: int| 0 <= k < at ==> s[k] != ' ',
        at < s.len() ==> s[at] == ' ',
    ensures
        first_space(s) == at,
    decreases s.len(),
{
    if s.len() > 0 && s[0] != ' ' {
        let t = s.drop_first();
        assert forall|k: int| 0 <= k < at - 1 implies t[k] != ' ' by {
            assert(t[k] == s[k + 1]);
        }
        lemma_first_space(t, at - 1);
    }
}

/// The position of the first space in `s`, or its length in characters.
fn find_space(s: &str) -> (at: usize)
    ensures
        at == first_space(s@),
        at <= s@.len(),
{
    let n = s.unicode_len();
    let mut at: usize = 0;
    for c in it: s.chars()
        invariant
            it.seq() == s@,
            at == it.index(),
            n == s@.len(),
            forall|k: int| 0 <= k < at ==> s@[k] != ' ',
    {
        if c == ' ' {
            proof {
                lemma_first_space(s@, at as int);
            }
            return at;
        }
        at += 1;
    }
    proof {
        lemma_first_space(s@, at as int);
    }
    at
}

/// Takes the token out of an `Authorization` header.
pub fn bearer_token(header: &str) -> (r: Result<&str, HttpStatus>)
    ensures
        match spec_bearer_token(header@) {
            Some(token) => r matches Ok(t) && t@ == token,
            None => r == Err::<&str, HttpStatus>(HttpStatus::BadRequest),
        },
{
    let n = header.unicode_len();
    let cut = find_space(header);
    let scheme = String::from_str(header.substring_char(0, cut));
    if scheme != String::from_str("Bearer") || cut >= n {
        return Err(HttpStatus::BadRequest);
    }
    let rest = header.substring_char(cut + 1, n);
    let end = find_space(rest);
    Ok(rest.substring_char(0, end))
}

/// Verifies a token against the secret and decodes its claim. The expiry
/// is not looked at here.
pub fn verify(token: &str, secret: &SecretKeyWrapper) -> (r: Result<
    WebUIUserAuthorization,
    Rejected,
>)
    ensures
        match decoded_claim(token@, secret.key@) {
            Some((exp, name, is_admin)) => r matches Ok(c) && c@ == (ClaimView {
                exp,
                name,
                is_admin,
            }),
            None => r == Err::<WebUIUserAuthorization, Rejected>(Rejected),
        },
{
    match decode_claim(token, secret.key.as_str()) {
        Some(claim) => Ok(claim),
        None => Err(Rejected),
    }
}

impl<T: AuthorizationProvider> Auth<T> {
    /// Lets a verified claim through at the time `now`, if it has not
    /// expired and has the capability `T`.
    pub fn check(claim: WebUIUserAuthorization, now: u64) -> (r: Result<Auth<T>, HttpStatus>)
        ensures
            match rejection::<T>(claim@, now) {
                Some(status) => r == Err::<Auth<T>, HttpStatus>(status),
                None => r matches Ok(auth) && auth@ == claim@,
            },
    {
        if claim.exp <= now {
            return Err(HttpStatus::Unauthorized);
        }
        if !T::authorize(&claim) {
            return Err(HttpStatus::Forbidden);
        }
        Ok(Auth { auth_provider: PhantomData, claim })
    }

    /// The claim that passed.
    pub fn claim(&self) -> (claim: &WebUIUserAuthorization)
        ensures
            claim@ == self@,
    {
        &self.claim
    }

    /// Gives up the proof of passage for the claim itself.
    pub fn into_claim(self) -> (claim: WebUIUserAuthorization)
        ensures
            claim@ == self@,
    {
        self.claim
    }

    /// The guard: `authorization` is the value of the `Authorization`
    /// header, if the request has one. The time is read from the system
    /// clock; the outcome is that of `spec_guard` at that time.
    pub fn from_request(authorization: Option<&str>, secret: &SecretKeyWrapper) -> (r: Result<
        Auth<T>,
        HttpStatus,
    >)
        ensures
            exists|now: u64|
                match #[trigger] spec_guard::<T>(view_of(authorization), secret.key@, now) {
                    Ok(claim) => r matches Ok(auth) && auth@ == claim,
                    Err(status) => r == Err::<Auth<T>, HttpStatus>(status),
                },
    {
        let header = match authorization {
            Some(header) => header,
            None => {
                assert(spec_guard::<T>(view_of(authorization), secret.key@, 0) == Err::<
                    ClaimView,
                    HttpStatus,
                >(HttpStatus::Unauthorized));
                return Err(HttpStatus::Unauthorized);
            },
        };
        let token = match bearer_token(header) {
            Ok(token) => token,
            Err(status) => {
                assert(spec_guard::<T>(view_of(authorization), secret.key@, 0) == Err::<
                    ClaimView,
                    HttpStatus,
                >(HttpStatus::BadRequest));
                return Err(status);
            },
        };
        let claim = match verify(token, secret) {
            Ok(claim) => claim,
            Err(_) => {
                assert(spec_guard::<T>(view_of(authorization), secret.key@, 0) == Err::<
                    ClaimView,
                    HttpStatus,
                >(HttpStatus::Unauthorized));
                return Err(HttpStatus::Unauthorized);
            },
        };
        let now = current_timestamp();
        let ghost seen = claim@;
        let r = Auth::<T>::check(claim, now);
        proof {
            let g = spec_guard::<T>(view_of(authorization), secret.key@, now);
            assert(g == match rejection::<T>(seen, now) {
                Some(status) => Err::<ClaimView, HttpStatus>(status),
                None => Ok::<ClaimView, HttpStatus>(seen),
            });
        }
        r
    }
}

/// The header as a sequence of characters, if there is one.
pub open spec fn view_of(authorization: Option<&str>) -> Option<Seq<char>> {
    match authorization {
        Some(header) => Some(header@),
        None => None,
    }
}

/// A claim that has not expired and is no administrator's passes as an
/// operator and is forbidden as an administrator.
pub proof fn lemma_operator_passes_admin_is_forbidden(claim: ClaimView, now: u64)
    requires
        claim.exp > now,
        !claim.is_admin,
    ensures
        rejection::<OperatorUser>(claim, now) is None,
        rejection::<AdminUser>(claim, now) == Some(HttpStatus::Forbidden),
{
}

/// A claim that has expired is unauthorized, whatever the capability.
pub proof fn lemma_expired_is_unauthorized<T: AuthorizationProvider>(claim: ClaimView, now: u64)
    requires
        claim.exp <= now,
    ensures
        rejection::<T>(claim, now) == Some(HttpStatus::Unauthorized),
{
}

/// The two laws above, for the whole guard: of a request whose token
/// decodes to a claim, the guard says `Unauthorized` once the claim has
/// expired, whatever the capability; before that, and for a claim that is
/// no administrator's, it passes the claim as an operator and says
/// `Forbidden` where an administrator is asked for.
pub proof fn lemma_guard_on_decoded_token<T: AuthorizationProvider>(
    header: Seq<char>,
    secret: Seq<char>,
    now: u64,
)
    requires
        spec_bearer_token(header) is Some,
        decoded_claim(spec_bearer_token(header)->Some_0, secret) is Some,
    ensures
        ({
            let (exp, name, is_admin) = decoded_claim(
                spec_bearer_token(header)->Some_0,
                secret,
            )->Some_0;
            let claim = ClaimView { exp, name, is_admin };
            &&& exp <= now ==> spec_guard::<T>(Some(header), secret, now) == Err::<
                ClaimView,
                HttpStatus,
            >(HttpStatus::Unauthorized)
            &&& exp > now && !is_admin ==> spec_guard::<OperatorUser>(Some(header), secret, now)
                == Ok::<ClaimView, HttpStatus>(claim) && spec_guard::<AdminUser>(
                Some(header),
                secret,
                now,
            ) == Err::<ClaimView, HttpStatus>(HttpStatus::Forbidden)
        }),
{
}

} // verus!
