//! The account flows and per-request sessions, run against the in-memory
//! user store.

use account_auth::claims::Purpose;
use account_auth::flows::{
    get_reset_password_confirm, get_verify_email, post_login, post_logout, post_password_reset,
    post_reset_password_confirm, post_signup, post_verify_email_resend, FormLogin,
    FormPasswordChange, FormSingUpUser, FormVerifyEmail, LoginOutcome, ResendError,
    ResetConfirmOutcome, ResetConfirmPage, SignupError, VerifyEmailOutcome,
};
use account_auth::password::ar_verify_password;
use account_auth::session::{cookie_to_state, require_auth, require_guest};
use account_auth::store::{get_user, UserStore};
use account_auth::token::{decode_token, encode_jwt};

const SECRET: &str = "a-test-signing-secret";
const NOW: u64 = 1_700_000_000;

fn signup_form(email: &str, username: &str, password: &str) -> FormSingUpUser {
    FormSingUpUser {
        email: String::from(email),
        username: String::from(username),
        password: String::from(password),
    }
}

fn store_with_alice(verified: bool) -> UserStore {
    let mut store = UserStore::new();
    let token = post_signup(&mut store, &signup_form("a@b.com", "alice", "password1"), NOW, SECRET)
        .expect("signup must succeed on an empty store");
    if verified {
        let out = get_verify_email(&mut store, Some(token.as_str()), NOW, SECRET);
        assert!(out == VerifyEmailOutcome::RedirectLogin);
    }
    store
}

#[test]
fn signup_persists_unverified_and_issues_verify_token() {
    let mut store = UserStore::new();
    let form = signup_form("a@b.com", "alice", "password1");
    let token = post_signup(&mut store, &form, NOW, SECRET).expect("signup must succeed");
    assert_eq!(store.len(), 1);
    let user = get_user(&store, "a@b.com").expect("the account must be stored");
    assert!(!user.is_verify);
    assert_eq!(user.username, "alice");
    assert_eq!(user.created_at, NOW);
    assert!(user.updated_at.is_none());
    assert_eq!(ar_verify_password("password1", &user.password), Ok(true));
    let claims = decode_token(&token, SECRET, NOW + 1).expect("verify token must decode");
    assert!(claims.purpose == Purpose::EmailVerify);
    assert_eq!(claims.email, "a@b.com");
    assert_eq!(claims.exp, NOW + 3600);
}

#[test]
fn second_signup_with_same_email_is_a_conflict() {
    let mut store = UserStore::new();
    post_signup(&mut store, &signup_form("a@b.com", "alice", "password1"), NOW, SECRET).unwrap();
    let again = post_signup(&mut store, &signup_form("a@b.com", "bob", "password2"), NOW, SECRET);
    assert_eq!(again, Err(SignupError::EmailExists));
    assert_eq!(store.len(), 1);
    let by_name = post_signup(&mut store, &signup_form("c@d.com", "alice", "password2"), NOW, SECRET);
    assert_eq!(by_name, Err(SignupError::UsernameExists));
    assert_eq!(store.len(), 1);
}

#[test]
fn signup_rejects_bad_shapes() {
    let mut store = UserStore::new();
    assert_eq!(
        post_signup(&mut store, &signup_form("no-at-sign", "alice", "password1"), NOW, SECRET),
        Err(SignupError::InvalidEmail)
    );
    assert_eq!(
        post_signup(&mut store, &signup_form("a@b.com", "al", "password1"), NOW, SECRET),
        Err(SignupError::InvalidUsername)
    );
    assert_eq!(
        post_signup(&mut store, &signup_form("a@b.com", "alice", "short"), NOW, SECRET),
        Err(SignupError::InvalidPassword)
    );
    assert_eq!(store.len(), 0);
}

#[test]
fn login_succeeds_for_verified_account() {
    let store = store_with_alice(true);
    let form = FormLogin { email: String::from("a@b.com"), password: String::from("password1") };
    match post_login(&store, &form, NOW, SECRET) {
        LoginOutcome::Success(token) => {
            let claims = decode_token(&token, SECRET, NOW + 1).expect("auth token must decode");
            assert!(claims.purpose == Purpose::Auth);
            assert_eq!(claims.email, "a@b.com");
            assert_eq!(claims.exp, NOW + 12 * 3600);
        },
        other => panic!("expected a login grant, got {:?}", other),
    }
}

#[test]
fn unverified_login_is_redirected_without_a_token() {
    let store = store_with_alice(false);
    let form = FormLogin { email: String::from("a@b.com"), password: String::from("password1") };
    assert!(matches!(post_login(&store, &form, NOW, SECRET), LoginOutcome::Unverified));
}

#[test]
fn login_error_paths() {
    let store = store_with_alice(true);
    let bad_shape = FormLogin { email: String::from("x"), password: String::from("password1") };
    assert!(matches!(post_login(&store, &bad_shape, NOW, SECRET), LoginOutcome::InvalidEmail));
    let short = FormLogin { email: String::from("a@b.com"), password: String::from("short") };
    assert!(matches!(post_login(&store, &short, NOW, SECRET), LoginOutcome::InvalidPassword));
    let unknown = FormLogin { email: String::from("z@z.com"), password: String::from("password1") };
    assert!(matches!(post_login(&store, &unknown, NOW, SECRET), LoginOutcome::NotFound));
    let wrong = FormLogin { email: String::from("a@b.com"), password: String::from("password2") };
    assert!(matches!(post_login(&store, &wrong, NOW, SECRET), LoginOutcome::Unauthorized));
}

#[test]
fn logout_clears_the_cookie_without_touching_tokens() {
    assert_eq!(
        post_logout(),
        "visit=; Path=/; HttpOnly; Secure; SameSite=Lax; Max-Age=0"
    );
}

#[test]
fn email_verification_marks_the_account() {
    let mut store = UserStore::new();
    let token =
        post_signup(&mut store, &signup_form("a@b.com", "alice", "password1"), NOW, SECRET).unwrap();
    let out = get_verify_email(&mut store, Some(token.as_str()), NOW + 10, SECRET);
    assert_eq!(out, VerifyEmailOutcome::RedirectLogin);
    let user = get_user(&store, "a@b.com").unwrap();
    assert!(user.is_verify);
    assert_eq!(user.updated_at, Some(NOW + 10));
}

#[test]
fn email_verification_rejects_wrong_purpose_and_expiry() {
    let mut store = store_with_alice(false);
    // An auth-purpose token must not verify the email.
    let auth_token = encode_jwt("a@b.com", Purpose::Auth, 1, NOW, SECRET);
    assert_eq!(
        get_verify_email(&mut store, Some(auth_token.as_str()), NOW + 1, SECRET),
        VerifyEmailOutcome::RedirectResend
    );
    // An expired verification token fails too.
    let verify_token = encode_jwt("a@b.com", Purpose::EmailVerify, 1, NOW, SECRET);
    assert_eq!(
        get_verify_email(&mut store, Some(verify_token.as_str()), NOW + 3600, SECRET),
        VerifyEmailOutcome::RedirectResend
    );
    // A missing token redirects rather than crashing.
    assert_eq!(
        get_verify_email(&mut store, None, NOW, SECRET),
        VerifyEmailOutcome::RedirectResend
    );
    // An undecodable token redirects too, and writes nothing.
    assert_eq!(
        get_verify_email(&mut store, Some("not-a-token"), NOW, SECRET),
        VerifyEmailOutcome::RedirectResend
    );
    assert!(!get_user(&store, "a@b.com").unwrap().is_verify);
}

#[test]
fn resend_verification_distinguishes_unknown_email() {
    let store = store_with_alice(false);
    let known = FormVerifyEmail { email: String::from("a@b.com") };
    let token = post_verify_email_resend(&store, &known, NOW, SECRET).unwrap();
    let claims = decode_token(&token, SECRET, NOW + 1).unwrap();
    assert!(claims.purpose == Purpose::EmailVerify);
    let unknown = FormVerifyEmail { email: String::from("z@z.com") };
    assert_eq!(
        post_verify_email_resend(&store, &unknown, NOW, SECRET),
        Err(ResendError::EmailNotFound)
    );
    let invalid = FormVerifyEmail { email: String::from("nope") };
    assert_eq!(
        post_verify_email_resend(&store, &invalid, NOW, SECRET),
        Err(ResendError::InvalidEmail)
    );
}

#[test]
fn password_reset_round_trip() {
    let mut store = store_with_alice(true);
    let request = FormVerifyEmail { email: String::from("a@b.com") };
    let token = post_password_reset(&store, &request, NOW, SECRET).expect("reset token issued");
    let claims = decode_token(&token, SECRET, NOW + 1).unwrap();
    assert!(claims.purpose == Purpose::ResetPassword);
    assert_eq!(
        get_reset_password_confirm(Some(token.as_str()), NOW + 1, SECRET),
        ResetConfirmPage::ShowForm
    );
    let form = FormPasswordChange { password: String::from("fresh-password") };
    let out = post_reset_password_confirm(&mut store, Some(token.as_str()), &form, NOW + 2, SECRET);
    assert_eq!(out, ResetConfirmOutcome::RedirectLogin);
    let user = get_user(&store, "a@b.com").unwrap();
    // The old password no longer verifies; the new one does.
    assert_eq!(ar_verify_password("password1", &user.password), Ok(false));
    assert_eq!(ar_verify_password("fresh-password", &user.password), Ok(true));
    assert_eq!(user.updated_at, Some(NOW + 2));
}

#[test]
fn password_reset_refuses_wrong_purpose_tokens() {
    let mut store = store_with_alice(true);
    let auth_token = encode_jwt("a@b.com", Purpose::Auth, 1, NOW, SECRET);
    assert_eq!(
        get_reset_password_confirm(Some(auth_token.as_str()), NOW + 1, SECRET),
        ResetConfirmPage::WrongPurpose
    );
    let form = FormPasswordChange { password: String::from("fresh-password") };
    assert_eq!(
        post_reset_password_confirm(&mut store, Some(auth_token.as_str()), &form, NOW + 1, SECRET),
        ResetConfirmOutcome::RedirectReset
    );
    let short = FormPasswordChange { password: String::from("short") };
    assert_eq!(
        post_reset_password_confirm(&mut store, Some(auth_token.as_str()), &short, NOW + 1, SECRET),
        ResetConfirmOutcome::InvalidPassword
    );
    assert_eq!(
        post_reset_password_confirm(&mut store, None, &form, NOW + 1, SECRET),
        ResetConfirmOutcome::RedirectReset
    );
    // An undecodable token never reaches the form.
    assert_eq!(
        get_reset_password_confirm(Some("not-a-token"), NOW + 1, SECRET),
        ResetConfirmPage::RedirectReset
    );
    assert_eq!(
        post_reset_password_confirm(&mut store, Some("not-a-token"), &form, NOW + 1, SECRET),
        ResetConfirmOutcome::RedirectReset
    );
    // The stored password is untouched.
    let user = get_user(&store, "a@b.com").unwrap();
    assert_eq!(ar_verify_password("password1", &user.password), Ok(true));
}

#[test]
fn password_reset_request_for_unknown_email_is_refused() {
    let store = store_with_alice(true);
    let unknown = FormVerifyEmail { email: String::from("z@z.com") };
    assert_eq!(
        post_password_reset(&store, &unknown, NOW, SECRET),
        Err(ResendError::EmailNotFound)
    );
}

#[test]
fn auth_cookie_authenticates_the_request() {
    let store = store_with_alice(true);
    let token = encode_jwt("a@b.com", Purpose::Auth, 12, NOW, SECRET);
    let header = format!("visit={}", token);
    let ctx = cookie_to_state(&store, &header, SECRET, NOW + 5);
    match ctx.current() {
        Some(user) => {
            assert_eq!(user.email, "a@b.com");
            assert!(user.purpose == Purpose::Auth);
        },
        None => panic!("a valid auth cookie must authenticate"),
    }
    assert!(require_auth(&ctx).is_none());
    assert_eq!(require_guest(&ctx), Some("/account/logout"));
}

#[test]
fn verify_purpose_cookie_never_authenticates() {
    // Purpose isolation: an email-verification token presented as the auth
    // cookie must not satisfy the authenticated-only guard.
    let store = store_with_alice(true);
    let token = encode_jwt("a@b.com", Purpose::EmailVerify, 1, NOW, SECRET);
    let header = format!("visit={}", token);
    let ctx = cookie_to_state(&store, &header, SECRET, NOW + 5);
    assert!(ctx.current().is_none());
    assert_eq!(require_auth(&ctx), Some("/account/login"));
    assert!(require_guest(&ctx).is_none());
}

#[test]
fn expired_or_unknown_cookies_leave_the_request_anonymous() {
    let store = store_with_alice(true);
    let token = encode_jwt("a@b.com", Purpose::Auth, 1, NOW, SECRET);
    let header = format!("visit={}", token);
    // Expired.
    assert!(cookie_to_state(&store, &header, SECRET, NOW + 3600).current().is_none());
    // Subject no longer in the store.
    let gone = encode_jwt("z@z.com", Purpose::Auth, 1, NOW, SECRET);
    let header_gone = format!("visit={}", gone);
    assert!(cookie_to_state(&store, &header_gone, SECRET, NOW + 5).current().is_none());
    // No cookie at all.
    assert!(cookie_to_state(&store, "theme=dark", SECRET, NOW + 5).current().is_none());
}

#[test]
fn concurrent_requests_observe_their_own_identity() {
    // Session isolation: each request resolves its own context from its own
    // cookie; neither observes the other's identity.
    let store = store_with_alice(true);
    let token = encode_jwt("a@b.com", Purpose::Auth, 12, NOW, SECRET);
    let header_a = format!("visit={}", token);
    let header_b = "";
    let ctx_a = cookie_to_state(&store, &header_a, SECRET, NOW + 5);
    let ctx_b = cookie_to_state(&store, header_b, SECRET, NOW + 5);
    match ctx_a.current() {
        Some(user) => assert_eq!(user.email, "a@b.com"),
        None => panic!("request A carries a valid token"),
    }
    assert!(ctx_b.current().is_none());
    assert!(require_auth(&ctx_a).is_none());
    assert_eq!(require_auth(&ctx_b), Some("/account/login"));
}
