//! Per-request session resolution and route guards.
//!
//! Each request owns one `SessionContext` value, resolved once from its own
//! cookie before the guards run; no state is shared between requests, so two
//! concurrently processed requests each observe exactly their own identity.

use vstd::prelude::*;

use crate::claims::{ClaimsView, Purpose};
use crate::cookie::{cookie_lookup, extract_cookie_value};
use crate::store::{check_email, has_email, UserStore};
use crate::token::{decode_token, good_token};

verus! {

/// The caller identity a request resolved to.
#[derive(Debug)]
pub struct AuthenticatedUser {
    pub email: String,
    pub purpose: Purpose,
}

/// The mathematical content of a resolved identity.
pub struct AuthenticatedUserView {
    pub email: Seq<char>,
    pub purpose: Purpose,
}

impl View for AuthenticatedUser {
    type V = AuthenticatedUserView;

    open spec fn view(&self) -> AuthenticatedUserView {
        AuthenticatedUserView { email: self.email@, purpose: self.purpose }
    }
}

/// The request-scoped holder of "who is the caller": empty until the
/// cookie, token, claims, and user-lookup chain succeeds, then holding that
/// one identity until the request ends.
#[derive(Debug)]
pub struct SessionContext {
    current: Option<AuthenticatedUser>,
}

impl View for SessionContext {
    type V = Option<AuthenticatedUserView>;

    closed spec fn view(&self) -> Option<AuthenticatedUserView> {
        match self.current {
            Some(ref u) => Some(u@),
            None => None,
        }
    }
}

impl SessionContext {
    /// The state every request starts from.
    pub fn empty() -> (r: SessionContext)
        ensures
            r@ is None,
    {
        SessionContext { current: None }
    }

    /// Resets the held identity to empty.
    pub fn clear(&mut self)
        ensures
            final(self)@ is None,
    {
        self.current = None;
    }

    /// Replaces the held identity.
    pub fn populate(&mut self, user: AuthenticatedUser)
        ensures
            final(self)@ == Some(user@),
    {
        self.current = Some(user);
    }

    /// A read-only view of the held identity.
    pub fn current(&self) -> (r: &Option<AuthenticatedUser>)
        ensures
            (r matches Some(u) ==> self@ == Some(u@)),
            (r is None <==> self@ is None),
    {
        &self.current
    }
}

/// Whether a session context carries an authenticated caller: an identity
/// resolved from a token minted for authentication, not for email
/// verification or password reset.
pub open spec fn is_authenticated(s: Option<AuthenticatedUserView>) -> bool {
    s matches Some(u) && u.purpose == Purpose::Auth
}

/// Purpose isolation at the session level: an identity that did not come
/// from an auth-purpose token never counts as authenticated, whatever its
/// email; neither does an empty context.
pub proof fn lemma_purpose_isolation(s: Option<AuthenticatedUserView>)
    requires
        s matches Some(u) ==> u.purpose != Purpose::Auth,
    ensures
        !is_authenticated(s),
{
}

/// Resolves the caller of one request from its `Cookie` header: the `visit`
/// cookie is read, its token checked against the secret and the clock, the
/// claims' purpose must be `Auth`, and the subject must still exist in the
/// user store; on any failure the request proceeds anonymously. A fresh
/// context is returned for this request alone.
pub fn cookie_to_state(store: &UserStore, cookie_header: &str, secret: &str, now: u64) -> (r:
    SessionContext)
    ensures
        (r@ matches Some(u) ==> u.purpose == Purpose::Auth && has_email(store@, u.email) && (
        exists|tok: Seq<char>, c: ClaimsView|
            cookie_lookup(cookie_header@, "visit"@) == Some(tok) && #[trigger] good_token(
                tok,
                secret@,
                c,
            ) && c.purpose == Purpose::Auth && c.exp > now && c.email == u.email)),
        cookie_lookup(cookie_header@, "visit"@) is None ==> r@ is None,
        forall|c: ClaimsView|
            (cookie_lookup(cookie_header@, "visit"@) matches Some(tok) && good_token(
                tok,
                secret@,
                c,
            )) ==> {
                if c.purpose == Purpose::Auth && c.exp > now && has_email(store@, c.email) {
                    r@ == Some(AuthenticatedUserView { email: c.email, purpose: Purpose::Auth })
                } else {
                    r@ is None
                }
            },
{
    let mut ctx = SessionContext::empty();
    let token = match extract_cookie_value(cookie_header, "visit") {
        Some(t) => t,
        None => {
            return ctx;
        },
    };
    let claims = match decode_token(token.as_str(), secret, now) {
        Ok(c) => c,
        Err(_) => {
            return ctx;
        },
    };
    if !matches!(claims.purpose, Purpose::Auth) {
        return ctx;
    }
    let ghost cv = claims@;
    if !check_email(store, claims.email.as_str()) {
        return ctx;
    }
    ctx.populate(AuthenticatedUser { email: claims.email, purpose: Purpose::Auth });
    proof {
        assert(cookie_lookup(cookie_header@, "visit"@) == Some(token@));
        assert(good_token(token@, secret@, cv) && cv.purpose == Purpose::Auth && cv.exp > now);
    }
    ctx
}

/// Allows the request through only for an authenticated caller; anyone else
/// is redirected to the login entry point.
pub fn require_auth(ctx: &SessionContext) -> (r: Option<&'static str>)
    ensures
        is_authenticated(ctx@) <==> r is None,
        r matches Some(p) ==> p@ == "/account/login"@,
{
    match ctx.current() {
        Some(u) => {
            if matches!(u.purpose, Purpose::Auth) {
                None
            } else {
                Some("/account/login")
            }
        },
        None => Some("/account/login"),
    }
}

/// Allows the request through only for an anonymous caller; an authenticated
/// one is redirected to the logout entry point.
pub fn require_guest(ctx: &SessionContext) -> (r: Option<&'static str>)
    ensures
        is_authenticated(ctx@) <==> (r matches Some(p) && p@ == "/account/logout"@),
        r is None <==> !is_authenticated(ctx@),
{
    match ctx.current() {
        Some(u) => {
            if matches!(u.purpose, Purpose::Auth) {
                Some("/account/logout")
            } else {
                None
            }
        },
        None => None,
    }
}

} // verus!
