//! The account flows: signup, login, logout, email verification, and
//! password reset, each a pipeline of validate, check, hash or verify,
//! persist, and issue-or-redirect over the user store.

use vstd::prelude::*;

use crate::claims::{ClaimsView, Purpose};
use crate::cookie::{set_cookie_chars, set_cookie_value};
use crate::crypto::{password_matches, usable_hash};
use crate::password::ar_hash_password;
use crate::password::ar_verify_password;
use crate::store::{
    check_email, check_username, get_user, has_email, has_username, query_new_user,
    query_update_password, query_update_user, wf_store, NewUser, PasswordChange,
    UpdateUserEmailVerify, UserStore, UserView,
};
use crate::token::{decode_token, encode_jwt, good_token, issued_claims, token_chars};

verus! {

/// A user-facing notice, as the form pages render it.
#[derive(Debug)]
pub struct Message {
    pub content: String,
    pub tags: String,
}

/// The form a login submits.
#[derive(Debug)]
pub struct FormLogin {
    pub email: String,
    pub password: String,
}

/// The form a signup submits.
#[derive(Debug)]
pub struct FormSingUpUser {
    pub email: String,
    pub username: String,
    pub password: String,
}

/// The form that asks for a verification or reset mail.
#[derive(Debug)]
pub struct FormVerifyEmail {
    pub email: String,
}

/// The form that sets the new password of a reset.
#[derive(Debug)]
pub struct FormPasswordChange {
    pub password: String,
}

/// The query parameter that carries a token to the verification and reset
/// endpoints.
#[derive(Debug)]
pub struct GetEmailVerify {
    pub token: String,
}

// ---------------------------------------------------------------------------
// Input shape validation
// ---------------------------------------------------------------------------
/// A character an email address may hold: printable ASCII, no space, and no
/// double quote, so a valid email can always be framed in a token payload.
pub open spec fn email_char_ok(c: char) -> bool {
    33 <= c as u32 <= 126 && c != '"'
}

/// A valid email: at least three characters, every character allowed, and
/// exactly one `'@'`, standing strictly inside.
pub open spec fn valid_email(s: Seq<char>) -> bool {
    &&& 3 <= s.len()
    &&& (forall|i: int| 0 <= i < s.len() ==> email_char_ok(#[trigger] s[i]))
    &&& (exists|i: int| 0 < i < s.len() - 1 && s[i] == '@')
    &&& (forall|i: int, j: int|
        0 <= i < j < s.len() ==> !(#[trigger] s[i] == '@' && #[trigger] s[j] == '@'))
}

/// A valid password: at least eight characters.
pub open spec fn valid_password(s: Seq<char>) -> bool {
    8 <= s.len()
}

/// A valid username: between three and twenty characters.
pub open spec fn valid_username(s: Seq<char>) -> bool {
    3 <= s.len() <= 20
}

/// Checks the email shape.
pub fn validate_email(s: &str) -> (r: bool)
    ensures
        r == valid_email(s@),
{
    let n = s.unicode_len();
    if n < 3 {
        return false;
    }
    let mut i: usize = 0;
    let mut at: Option<usize> = None;
    while i < n
        invariant
            0 <= i <= n,
            n == s@.len(),
            forall|k: int| 0 <= k < i ==> email_char_ok(#[trigger] s@[k]),
            match at {
                Some(a) => a < i && s@[a as int] == '@' && forall|k: int|
                    0 <= k < i && k != a ==> s@[k] != '@',
                None => forall|k: int| 0 <= k < i ==> s@[k] != '@',
            },
        decreases n - i,
    {
        let c = s.get_char(i);
        let v = c as u32;
        if v < 33 || v > 126 || c == '"' {
            return false;
        }
        if c == '@' {
            if at.is_some() {
                return false;
            }
            at = Some(i);
        }
        i += 1;
    }
    match at {
        Some(a) => a > 0 && a < n - 1,
        None => false,
    }
}

/// Checks the password shape.
pub fn validate_password(s: &str) -> (r: bool)
    ensures
        r == valid_password(s@),
{
    s.unicode_len() >= 8
}

/// Checks the username shape.
pub fn validate_username(s: &str) -> (r: bool)
    ensures
        r == valid_username(s@),
{
    let n = s.unicode_len();
    3 <= n && n <= 20
}

// ---------------------------------------------------------------------------
// Signup
// ---------------------------------------------------------------------------
/// Why a signup was refused.
#[derive(Clone, Copy, Debug, PartialEq, Eq, Structural)]
pub enum SignupError {
    InvalidEmail,
    InvalidUsername,
    InvalidPassword,
    EmailExists,
    UsernameExists,
    Hashing,
}

/// What a successful signup leaves in the store: one appended record, for
/// this email and username, unverified, created now, never updated, whose
/// stored hash verifies against the submitted password.
pub open spec fn signup_persisted(
    old_store: Seq<UserView>,
    new_store: Seq<UserView>,
    email: Seq<char>,
    username: Seq<char>,
    password: Seq<char>,
    now: u64,
) -> bool {
    &&& new_store.len() == old_store.len() + 1
    &&& new_store == old_store.push(new_store.last())
    &&& new_store.last().email == email
    &&& new_store.last().username == username
    &&& new_store.last().is_verify == false
    &&& new_store.last().created_at == now
    &&& new_store.last().updated_at is None
    &&& password_matches(password, new_store.last().password)
    &&& usable_hash(new_store.last().password)
}

/// Signup: validate the form, refuse a taken email or username, hash the
/// password, persist the new unverified account, and mint a one-hour
/// email-verification token for it.
pub fn post_signup(store: &mut UserStore, form: &FormSingUpUser, now: u64, secret: &str) -> (r:
    Result<String, SignupError>)
    requires
        wf_store(old(store)@),
        now + 3600 <= u64::MAX,
    ensures
        wf_store(final(store)@),
        r is Err ==> final(store)@ == old(store)@,
        !valid_email(form.email@) <==> r == Err::<String, SignupError>(SignupError::InvalidEmail),
        valid_email(form.email@) && !valid_username(form.username@) <==> r == Err::<
            String,
            SignupError,
        >(SignupError::InvalidUsername),
        valid_email(form.email@) && valid_username(form.username@) && !valid_password(
            form.password@,
        ) <==> r == Err::<String, SignupError>(SignupError::InvalidPassword),
        valid_email(form.email@) && valid_username(form.username@) && valid_password(form.password@)
            && has_email(old(store)@, form.email@) <==> r == Err::<String, SignupError>(
            SignupError::EmailExists,
        ),
        valid_email(form.email@) && valid_username(form.username@) && valid_password(form.password@)
            && !has_email(old(store)@, form.email@) && has_username(old(store)@, form.username@)
            <==> r == Err::<String, SignupError>(SignupError::UsernameExists),
        r matches Ok(tok) ==> signup_persisted(
            old(store)@,
            final(store)@,
            form.email@,
            form.username@,
            form.password@,
            now,
        ) && tok@ == token_chars(
            issued_claims(form.email@, Purpose::EmailVerify, 1, now),
            secret@,
        ),
{
    if !validate_email(form.email.as_str()) {
        return Err(SignupError::InvalidEmail);
    }
    if !validate_username(form.username.as_str()) {
        return Err(SignupError::InvalidUsername);
    }
    if !validate_password(form.password.as_str()) {
        return Err(SignupError::InvalidPassword);
    }
    if check_email(store, form.email.as_str()) {
        return Err(SignupError::EmailExists);
    }
    if check_username(store, form.username.as_str()) {
        return Err(SignupError::UsernameExists);
    }
    let hashed = match ar_hash_password(form.password.as_str()) {
        Ok(h) => h,
        Err(_) => {
            return Err(SignupError::Hashing);
        },
    };
    let record = NewUser {
        email: form.email.clone(),
        username: form.username.clone(),
        password: hashed,
        is_verify: false,
        created_at: now,
    };
    if query_new_user(store, record).is_err() {
        proof {
            assert(false);
        }
        return Err(SignupError::Hashing);
    }
    Ok(encode_jwt(form.email.as_str(), Purpose::EmailVerify, 1, now, secret))
}

// ---------------------------------------------------------------------------
// Login
// ---------------------------------------------------------------------------
/// How a login attempt ends. `Unverified` redirects to the resend page and
/// carries no token; only `Success` carries the twelve-hour auth token.
#[derive(Debug)]
pub enum LoginOutcome {
    InvalidEmail,
    InvalidPassword,
    NotFound,
    BadStoredHash,
    Unauthorized,
    Unverified,
    Success(String),
}

/// Login: validate the form, look the account up, check the password, turn
/// unverified accounts away without a token, and mint a twelve-hour
/// auth-purpose token for everyone else.
pub fn post_login(store: &UserStore, form: &FormLogin, now: u64, secret: &str) -> (r: LoginOutcome)
    requires
        wf_store(store@),
        now + 43200 <= u64::MAX,
    ensures
        !valid_email(form.email@) <==> r == LoginOutcome::InvalidEmail,
        valid_email(form.email@) && !valid_password(form.password@) <==> r
            == LoginOutcome::InvalidPassword,
        valid_email(form.email@) && valid_password(form.password@) && !has_email(
            store@,
            form.email@,
        ) <==> r == LoginOutcome::NotFound,
        forall|i: int|
            0 <= i < store@.len() && store@[i].email == form.email@ && valid_email(form.email@)
                && valid_password(form.password@) ==> {
                let u = store@[i];
                &&& (!usable_hash(u.password) ==> r == LoginOutcome::BadStoredHash)
                &&& (usable_hash(u.password) && !password_matches(form.password@, u.password) ==> r
                    == LoginOutcome::Unauthorized)
                &&& (usable_hash(u.password) && password_matches(form.password@, u.password)
                    && !u.is_verify ==> r == LoginOutcome::Unverified)
                &&& (usable_hash(u.password) && password_matches(form.password@, u.password)
                    && u.is_verify ==> (r matches LoginOutcome::Success(tok) && tok@
                    == token_chars(issued_claims(form.email@, Purpose::Auth, 12, now), secret@)))
            },
{
    if !validate_email(form.email.as_str()) {
        return LoginOutcome::InvalidEmail;
    }
    if !validate_password(form.password.as_str()) {
        return LoginOutcome::InvalidPassword;
    }
    let user = match get_user(store, form.email.as_str()) {
        Ok(u) => u,
        Err(_) => {
            return LoginOutcome::NotFound;
        },
    };
    proof {
        assert forall|i: int|
            0 <= i < store@.len() && store@[i].email == form.email@ implies store@[i]
            == user@ by {
            let j = choose|j: int| 0 <= j < store@.len() && store@[j] == user@;
            assert(store@[j].email == form.email@);
        }
    }
    let verdict = match ar_verify_password(form.password.as_str(), user.password.as_str()) {
        Ok(b) => b,
        Err(_) => {
            return LoginOutcome::BadStoredHash;
        },
    };
    if !verdict {
        return LoginOutcome::Unauthorized;
    }
    if !user.is_verify {
        return LoginOutcome::Unverified;
    }
    LoginOutcome::Success(encode_jwt(form.email.as_str(), Purpose::Auth, 12, now, secret))
}

// ---------------------------------------------------------------------------
// Logout
// ---------------------------------------------------------------------------
/// Logout: no token is verified and none is revoked; the response only
/// clears the client's cookie (empty value, zero lifetime). A previously
/// issued auth token stays valid until its natural expiry.
pub fn post_logout() -> (r: String)
    ensures
        r@ == set_cookie_chars(""@, "0"@),
{
    set_cookie_value("", "0")
}

// ---------------------------------------------------------------------------
// Email verification
// ---------------------------------------------------------------------------
/// Where the email-verification endpoint sends the caller.
#[derive(Clone, Copy, Debug, PartialEq, Eq, Structural)]
pub enum VerifyEmailOutcome {
    RedirectLogin,
    RedirectResend,
}

/// What a successful verification leaves in the store: the one record for
/// this email now carries `is_verify` and a fresh update stamp; nothing else
/// changed.
pub open spec fn verify_persisted(
    old_store: Seq<UserView>,
    new_store: Seq<UserView>,
    email: Seq<char>,
    now: u64,
) -> bool {
    exists|i: int|
        0 <= i < old_store.len() && old_store[i].email == email && new_store == old_store.update(
            i,
            UserView { is_verify: true, updated_at: Some(now), ..old_store[i] },
        )
}

/// Email verification: the token comes from the query string; it must be
/// well-signed, unexpired, and minted for email verification, and its
/// subject must exist; then the account is marked verified and stamped.
/// Every failure redirects to the resend page rather than an error page.
pub fn get_verify_email(
    store: &mut UserStore,
    token_param: Option<&str>,
    now: u64,
    secret: &str,
) -> (r: VerifyEmailOutcome)
    requires
        wf_store(old(store)@),
    ensures
        wf_store(final(store)@),
        r == VerifyEmailOutcome::RedirectResend ==> final(store)@ == old(store)@,
        token_param is None ==> r == VerifyEmailOutcome::RedirectResend,
        forall|c: ClaimsView|
            (token_param matches Some(t) && good_token(t@, secret@, c)) ==> {
                if c.purpose == Purpose::EmailVerify && c.exp > now && has_email(
                    old(store)@,
                    c.email,
                ) {
                    r == VerifyEmailOutcome::RedirectLogin && verify_persisted(
                        old(store)@,
                        final(store)@,
                        c.email,
                        now,
                    )
                } else {
                    r == VerifyEmailOutcome::RedirectResend
                }
            },
        r == VerifyEmailOutcome::RedirectLogin ==> exists|c: ClaimsView|
            (token_param matches Some(t) && good_token(t@, secret@, c)) && c.purpose
                == Purpose::EmailVerify && c.exp > now && has_email(old(store)@, c.email)
                && verify_persisted(old(store)@, final(store)@, c.email, now),
{
    let t = match token_param {
        Some(t) => t,
        None => {
            return VerifyEmailOutcome::RedirectResend;
        },
    };
    let claims = match decode_token(t, secret, now) {
        Ok(c) => c,
        Err(_) => {
            return VerifyEmailOutcome::RedirectResend;
        },
    };
    if !matches!(claims.purpose, Purpose::EmailVerify) {
        return VerifyEmailOutcome::RedirectResend;
    }
    let ghost cv = claims@;
    let update = UpdateUserEmailVerify {
        email: claims.email,
        is_verify: true,
        updated_at: Some(now),
    };
    match query_update_user(store, update) {
        Ok(()) => {
            proof {
                assert(good_token(t@, secret@, cv) && cv.purpose == Purpose::EmailVerify && cv.exp
                    > now);
                assert(verify_persisted(old(store)@, store@, cv.email, now));
            }
            VerifyEmailOutcome::RedirectLogin
        },
        Err(_) => VerifyEmailOutcome::RedirectResend,
    }
}

/// Why a resend or reset request was refused.
#[derive(Clone, Copy, Debug, PartialEq, Eq, Structural)]
pub enum ResendError {
    InvalidEmail,
    EmailNotFound,
}

/// Resending the verification mail: validate the email, tell an unknown
/// email apart, and mint a fresh one-hour email-verification token.
pub fn post_verify_email_resend(store: &UserStore, form: &FormVerifyEmail, now: u64, secret: &str) -> (r:
    Result<String, ResendError>)
    requires
        now + 3600 <= u64::MAX,
    ensures
        !valid_email(form.email@) <==> r == Err::<String, ResendError>(ResendError::InvalidEmail),
        valid_email(form.email@) && !has_email(store@, form.email@) <==> r == Err::<
            String,
            ResendError,
        >(ResendError::EmailNotFound),
        r matches Ok(tok) ==> tok@ == token_chars(
            issued_claims(form.email@, Purpose::EmailVerify, 1, now),
            secret@,
        ) && valid_email(form.email@) && has_email(store@, form.email@),
{
    if !validate_email(form.email.as_str()) {
        return Err(ResendError::InvalidEmail);
    }
    if !check_email(store, form.email.as_str()) {
        return Err(ResendError::EmailNotFound);
    }
    Ok(encode_jwt(form.email.as_str(), Purpose::EmailVerify, 1, now, secret))
}

// ---------------------------------------------------------------------------
// Password reset
// ---------------------------------------------------------------------------
/// Requesting a reset: validate the email, tell an unknown email apart, and
/// mint a one-hour reset-purpose token.
pub fn post_password_reset(store: &UserStore, form: &FormVerifyEmail, now: u64, secret: &str) -> (r:
    Result<String, ResendError>)
    requires
        now + 3600 <= u64::MAX,
    ensures
        !valid_email(form.email@) <==> r == Err::<String, ResendError>(ResendError::InvalidEmail),
        valid_email(form.email@) && !has_email(store@, form.email@) <==> r == Err::<
            String,
            ResendError,
        >(ResendError::EmailNotFound),
        r matches Ok(tok) ==> tok@ == token_chars(
            issued_claims(form.email@, Purpose::ResetPassword, 1, now),
            secret@,
        ) && valid_email(form.email@) && has_email(store@, form.email@),
{
    if !validate_email(form.email.as_str()) {
        return Err(ResendError::InvalidEmail);
    }
    if !check_email(store, form.email.as_str()) {
        return Err(ResendError::EmailNotFound);
    }
    Ok(encode_jwt(form.email.as_str(), Purpose::ResetPassword, 1, now, secret))
}

/// What the reset-confirmation page shows for a presented token.
#[derive(Clone, Copy, Debug, PartialEq, Eq, Structural)]
pub enum ResetConfirmPage {
    ShowForm,
    RedirectReset,
    WrongPurpose,
}

/// The reset-confirmation page: show the form only for a well-signed,
/// unexpired, reset-purpose token; a token for anything else is turned away.
pub fn get_reset_password_confirm(token_param: Option<&str>, now: u64, secret: &str) -> (r:
    ResetConfirmPage)
    ensures
        token_param is None ==> r == ResetConfirmPage::RedirectReset,
        forall|c: ClaimsView|
            (token_param matches Some(t) && good_token(t@, secret@, c)) ==> {
                if c.exp <= now {
                    r == ResetConfirmPage::RedirectReset
                } else if c.purpose == Purpose::ResetPassword {
                    r == ResetConfirmPage::ShowForm
                } else {
                    r == ResetConfirmPage::WrongPurpose
                }
            },
        r == ResetConfirmPage::ShowForm ==> exists|c: ClaimsView|
            (token_param matches Some(t) && good_token(t@, secret@, c)) && c.purpose
                == Purpose::ResetPassword && c.exp > now,
        r == ResetConfirmPage::WrongPurpose ==> exists|c: ClaimsView|
            (token_param matches Some(t) && good_token(t@, secret@, c)) && c.purpose
                != Purpose::ResetPassword && c.exp > now,
{
    let t = match token_param {
        Some(t) => t,
        None => {
            return ResetConfirmPage::RedirectReset;
        },
    };
    let claims = match decode_token(t, secret, now) {
        Ok(c) => c,
        Err(_) => {
            return ResetConfirmPage::RedirectReset;
        },
    };
    proof {
        assert(good_token(t@, secret@, claims@) && claims@.exp > now);
    }
    if matches!(claims.purpose, Purpose::ResetPassword) {
        ResetConfirmPage::ShowForm
    } else {
        ResetConfirmPage::WrongPurpose
    }
}

/// How a reset confirmation ends.
#[derive(Clone, Copy, Debug, PartialEq, Eq, Structural)]
pub enum ResetConfirmOutcome {
    RedirectLogin,
    InvalidPassword,
    RedirectReset,
    NotFound,
    Hashing,
}

/// What a successful reset leaves in the store: the one record for this
/// email now carries a hash that verifies against the new password, and a
/// fresh update stamp; nothing else changed.
pub open spec fn reset_persisted(
    old_store: Seq<UserView>,
    new_store: Seq<UserView>,
    email: Seq<char>,
    password: Seq<char>,
    now: u64,
) -> bool {
    exists|i: int|
        0 <= i < old_store.len() && old_store[i].email == email && new_store == old_store.update(
            i,
            UserView {
                password: new_store[i].password,
                updated_at: Some(now),
                ..old_store[i]
            },
        ) && password_matches(password, new_store[i].password) && usable_hash(
            new_store[i].password,
        )
}

/// Confirming a reset: validate the new password, demand a well-signed,
/// unexpired, reset-purpose token, look its subject up, hash the new
/// password, and persist it with a fresh update stamp.
pub fn post_reset_password_confirm(
    store: &mut UserStore,
    token_param: Option<&str>,
    form: &FormPasswordChange,
    now: u64,
    secret: &str,
) -> (r: ResetConfirmOutcome)
    requires
        wf_store(old(store)@),
    ensures
        wf_store(final(store)@),
        r != ResetConfirmOutcome::RedirectLogin ==> final(store)@ == old(store)@,
        !valid_password(form.password@) <==> r == ResetConfirmOutcome::InvalidPassword,
        valid_password(form.password@) && token_param is None ==> r
            == ResetConfirmOutcome::RedirectReset,
        forall|c: ClaimsView|
            (token_param matches Some(t) && good_token(t@, secret@, c) && valid_password(
                form.password@,
            )) ==> {
                if c.exp <= now || c.purpose != Purpose::ResetPassword {
                    r == ResetConfirmOutcome::RedirectReset
                } else if !has_email(old(store)@, c.email) {
                    r == ResetConfirmOutcome::NotFound
                } else {
                    r == ResetConfirmOutcome::RedirectLogin || r == ResetConfirmOutcome::Hashing
                }
            },
        r == ResetConfirmOutcome::RedirectLogin ==> exists|c: ClaimsView|
            (token_param matches Some(t) && good_token(t@, secret@, c)) && c.purpose
                == Purpose::ResetPassword && c.exp > now && reset_persisted(
                old(store)@,
                final(store)@,
                c.email,
                form.password@,
                now,
            ),
{
    if !validate_password(form.password.as_str()) {
        return ResetConfirmOutcome::InvalidPassword;
    }
    let t = match token_param {
        Some(t) => t,
        None => {
            return ResetConfirmOutcome::RedirectReset;
        },
    };
    let claims = match decode_token(t, secret, now) {
        Ok(c) => c,
        Err(_) => {
            return ResetConfirmOutcome::RedirectReset;
        },
    };
    if !matches!(claims.purpose, Purpose::ResetPassword) {
        return ResetConfirmOutcome::RedirectReset;
    }
    let user = match get_user(store, claims.email.as_str()) {
        Ok(u) => u,
        Err(_) => {
            return ResetConfirmOutcome::NotFound;
        },
    };
    let hashed = match ar_hash_password(form.password.as_str()) {
        Ok(h) => h,
        Err(_) => {
            return ResetConfirmOutcome::Hashing;
        },
    };
    let ghost cv = claims@;
    let ghost hview = hashed@;
    let change = PasswordChange { email: claims.email, password: hashed, updated_at: Some(now) };
    if query_update_password(store, change).is_err() {
        proof {
            assert(false);
        }
        return ResetConfirmOutcome::NotFound;
    }
    proof {
        let i = choose|i: int|
            0 <= i < old(store)@.len() && old(store)@[i].email == cv.email && final(store)@
                == old(store)@.update(
                i,
                UserView { password: hview, updated_at: Some(now), ..old(store)@[i] },
            );
        assert(final(store)@[i].password == hview);
        assert(reset_persisted(old(store)@, final(store)@, cv.email, form.password@, now));
    }
    ResetConfirmOutcome::RedirectLogin
}

} // verus!
