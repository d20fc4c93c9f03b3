//! The form-shape validators and the plain form carriers.

use account_auth::flows::{
    validate_email, validate_password, validate_username, FormVerifyEmail, GetEmailVerify, Message,
};

#[test]
fn email_shapes() {
    assert!(validate_email("a@b.c"));
    assert!(validate_email("first.last@example.co.uk"));
    // The separator must stand strictly inside.
    assert!(!validate_email("@b.com"));
    assert!(!validate_email("ab.com@"));
    // Exactly one separator.
    assert!(!validate_email("a@@b.com"));
    assert!(!validate_email("a@b@c.com"));
    assert!(!validate_email("nothing-here"));
    // No blanks, no quotes, no short strings.
    assert!(!validate_email("a b@c.d"));
    assert!(!validate_email("a\"b@c.d"));
    assert!(!validate_email("a@"));
    assert!(!validate_email(""));
}

#[test]
fn password_shapes() {
    assert!(validate_password("12345678"));
    assert!(!validate_password("1234567"));
    assert!(!validate_password(""));
}

#[test]
fn username_shapes() {
    assert!(validate_username("abc"));
    assert!(validate_username("exactly-twenty-chars"));
    assert!(!validate_username("ab"));
    assert!(!validate_username("far-too-long-for-a-username"));
}

#[test]
fn form_carriers_hold_their_fields() {
    let form = FormVerifyEmail { email: String::from("a@b.com") };
    assert_eq!(form.email, "a@b.com");
    let q = GetEmailVerify { token: String::from("tok") };
    assert_eq!(q.token, "tok");
    let msg = Message { content: String::from("Email is not valid"), tags: String::from("danger") };
    assert_eq!(msg.content, "Email is not valid");
    assert_eq!(msg.tags, "danger");
}
