//! The cryptographic primitives the library relies on, each behind a trusted
//! wrapper whose contract states what the outside crate's source shows.

use vstd::prelude::*;

use argon2::password_hash::rand_core::OsRng;
use argon2::password_hash::{PasswordHash, SaltString};
use argon2::{Argon2, PasswordHasher, PasswordVerifier};
use base64::Engine;

verus! {

/// The base64url (no padding) rendering of a string's UTF-8 bytes, as the
/// `base64` crate's `URL_SAFE_NO_PAD` engine produces it.
pub uninterp spec fn b64_of(s: Seq<char>) -> Seq<char>;

/// The base64url rendering of the HMAC-SHA256 digest of `message` under
/// `secret`, as `jsonwebtoken::crypto::sign` with HS256 produces it.
pub uninterp spec fn sig_of(message: Seq<char>, secret: Seq<char>) -> Seq<char>;

/// Whether argon2 password verification of `password` against the PHC string
/// `hash` reports a match. The salt and parameters are embedded in `hash`, so
/// this is a function of the two strings alone.
pub uninterp spec fn password_matches(password: Seq<char>, hash: Seq<char>) -> bool;

/// Whether the PHC string `hash` parses and carries parameters argon2 can
/// verify against, so that verification reports match or mismatch rather than
/// an error. A function of the string alone.
pub uninterp spec fn usable_hash(hash: Seq<char>) -> bool;

/// No output of the base64url encoder contains a `'.'`: its alphabet is
/// `A-Z a-z 0-9 - _`.
pub open spec fn b64_dot_free() -> bool {
    forall|t: Seq<char>, i: int| 0 <= i < b64_of(t).len() ==> #[trigger] b64_of(t)[i] != '.'
}

/// No signature contains a `'.'`: signatures are base64url text.
pub open spec fn sig_dot_free() -> bool {
    forall|m: Seq<char>, k: Seq<char>, i: int|
        0 <= i < sig_of(m, k).len() ==> #[trigger] sig_of(m, k)[i] != '.'
}

/// What decoding promises: a success is the preimage of the input under
/// `b64_of`, and every `b64_of` image decodes back to its preimage.
pub open spec fn b64_decodes_to(s: Seq<char>, r: Option<String>) -> bool {
    &&& (r matches Some(x) ==> s == b64_of(x@))
    &&& (forall|d: Seq<char>| s == b64_of(d) ==> (r matches Some(y) && y@ == d))
}

/// What encoding promises: the result is the image of the input, and no
/// image holds a `'.'`.
pub open spec fn b64_encoded(s: Seq<char>, r: Seq<char>) -> bool {
    r == b64_of(s) && b64_dot_free()
}

/// What decoding promises, together with the alphabet fact.
pub open spec fn b64_decoded(s: Seq<char>, r: Option<String>) -> bool {
    b64_decodes_to(s, r) && b64_dot_free()
}

/// What signing promises: the result is the signature of the message under
/// the secret, and no signature holds a `'.'`.
pub open spec fn sig_signed(m: Seq<char>, k: Seq<char>, r: Seq<char>) -> bool {
    r == sig_of(m, k) && sig_dot_free()
}

/// What signature checking promises: true exactly for the signature of the
/// message under the secret.
pub open spec fn sig_checked(sig: Seq<char>, m: Seq<char>, k: Seq<char>, r: bool) -> bool {
    r == (sig == sig_of(m, k)) && sig_dot_free()
}

/// What password verification promises: a definite answer agrees with
/// `password_matches`, and a usable hash always gets a definite answer.
pub open spec fn pw_verify_outcome(
    password: Seq<char>,
    hash: Seq<char>,
    r: Result<bool, argon2::password_hash::Error>,
) -> bool {
    &&& (r matches Ok(b) ==> b == password_matches(password, hash) && usable_hash(hash))
    &&& (usable_hash(hash) ==> (r matches Ok(b) && b == password_matches(password, hash)))
}

#[verifier::external_type_specification]
#[verifier::external_body]
pub struct ExPasswordHashError(argon2::password_hash::Error);

/// Relies on the `base64` crate's `URL_SAFE_NO_PAD` engine: `encode` is a
/// pure function of the input bytes, and every output character comes from
/// the URL-safe alphabet (`A-Z a-z 0-9 - _`), which has no `'.'`.
#[verifier::external_body]
pub(crate) fn b64url_encode(s: &str) -> (r: String)
    ensures
        r@ == b64_of(s@),
        b64_encoded(s@, r@),
{
    base64::engine::general_purpose::URL_SAFE_NO_PAD.encode(s.as_bytes())
}

/// Relies on the `base64` crate's `URL_SAFE_NO_PAD` engine: `decode` accepts
/// exactly the canonical unpadded encodings (it refuses padding and nonzero
/// trailing bits) and inverts `encode`; `String::from_utf8` converts the
/// decoded bytes back to the characters the encoder consumed.
#[verifier::external_body]
pub(crate) fn b64url_decode(s: &str) -> (r: Option<String>)
    ensures
        b64_decoded(s@, r),
{
    match base64::engine::general_purpose::URL_SAFE_NO_PAD.decode(s.as_bytes()) {
        Ok(bytes) => String::from_utf8(bytes).ok(),
        Err(_) => None,
    }
}

/// Relies on `jsonwebtoken::crypto::sign` with HS256: the result is the
/// base64url (URL-safe alphabet, so dot-free) encoding of the HMAC-SHA256
/// digest, a pure function of message and secret; the HMAC arm never fails,
/// so the unwrap cannot panic.
#[verifier::external_body]
pub(crate) fn hmac_sign(message: &str, secret: &str) -> (r: String)
    ensures
        r@ == sig_of(message@, secret@),
        sig_signed(message@, secret@, r@),
{
    jsonwebtoken::crypto::sign(
        message.as_bytes(),
        &jsonwebtoken::EncodingKey::from_secret(secret.as_bytes()),
        jsonwebtoken::Algorithm::HS256,
    ).unwrap()
}

/// Relies on `jsonwebtoken::crypto::verify` with HS256: it re-signs the
/// message with the secret and compares the two signature strings byte for
/// byte, so it returns true exactly when the given signature is the one
/// `sign` produces; the HMAC arm never fails, so the unwrap cannot panic.
#[verifier::external_body]
pub(crate) fn hmac_verify(signature: &str, message: &str, secret: &str) -> (r: bool)
    ensures
        sig_checked(signature@, message@, secret@, r),
{
    jsonwebtoken::crypto::verify(
        signature,
        message.as_bytes(),
        &jsonwebtoken::DecodingKey::from_secret(secret.as_bytes()),
        jsonwebtoken::Algorithm::HS256,
    ).unwrap()
}

/// Relies on argon2's `PasswordHasher::hash_password` with a fresh `OsRng`
/// salt: whatever salt is drawn, the returned PHC string embeds the salt and
/// parameters that produced it, so verifying the same password against it
/// must recompute the same digest, and the string parses and verifies without
/// error.
#[verifier::external_body]
pub(crate) fn hash_password_raw(password: &str) -> (r: Result<
    String,
    argon2::password_hash::Error,
>)
    ensures
        r matches Ok(h) ==> password_matches(password@, h@) && usable_hash(h@),
{
    let salt = SaltString::generate(&mut OsRng);
    match Argon2::default().hash_password(password.as_bytes(), &salt) {
        Ok(h) => Ok(h.to_string()),
        Err(e) => Err(e),
    }
}

/// Relies on argon2's `PasswordVerifier::verify_password`: for a fixed PHC
/// string the outcome is a pure function of the password, since salt and
/// parameters come from the string; `Error::Password` reports a mismatch, and
/// every other error means the string cannot be used for verification at all.
#[verifier::external_body]
pub(crate) fn verify_password_raw(password: &str, hash: &str) -> (r: Result<
    bool,
    argon2::password_hash::Error,
>)
    ensures
        pw_verify_outcome(password@, hash@, r),
{
    let parsed = match PasswordHash::new(hash) {
        Ok(p) => p,
        Err(e) => return Err(e),
    };
    match Argon2::default().verify_password(password.as_bytes(), &parsed) {
        Ok(()) => Ok(true),
        Err(argon2::password_hash::Error::Password) => Ok(false),
        Err(e) => Err(e),
    }
}

} // verus!
