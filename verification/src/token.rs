//! Issuance and verification of signed, time-boxed, purpose-tagged tokens.
//!
//! A token is `base64url(header) "." base64url(payload) "." signature`, the
//! signature an HMAC-SHA256 over the first two parts under a shared secret.

use vstd::prelude::*;

use crate::claims::{Claims, ClaimsView, Purpose, valid_claims, wire_claims};
use crate::codec::{find_char, idx_of, lemma_idx_of_is, str_eq};
use crate::crypto::{
    b64_dot_free, b64_of, b64url_decode, b64url_encode, hmac_sign, hmac_verify, sig_of,
};
use crate::payload::{claims_payload, parse_payload, payload_chars};

verus! {

/// The fixed header every token of this library is signed under.
pub open spec fn header_chars() -> Seq<char> {
    "{\"alg\":\"HS256\",\"typ\":\"JWT\"}"@
}

/// The signing input: base64url header, a dot, base64url payload.
pub open spec fn signing_chars(c: ClaimsView) -> Seq<char> {
    b64_of(header_chars()) + seq!['.'] + b64_of(payload_chars(c))
}

/// The complete token text for a claims value under a secret.
pub open spec fn token_chars(c: ClaimsView, secret: Seq<char>) -> Seq<char> {
    signing_chars(c) + seq!['.'] + sig_of(signing_chars(c), secret)
}

/// Where a token's first dot stands (its length if it has none).
pub open spec fn token_dot1(token: Seq<char>) -> int {
    idx_of(token, '.')
}

/// Where a token's second dot stands (its length if it has no second dot).
pub open spec fn token_dot2(token: Seq<char>) -> int {
    let d1 = token_dot1(token);
    if d1 >= token.len() {
        token.len() as int
    } else {
        d1 + 1 + idx_of(token.subrange(d1 + 1, token.len() as int), '.')
    }
}

/// The middle part of a token, between its first two dots.
pub open spec fn token_payload_part(token: Seq<char>) -> Seq<char> {
    if token_dot1(token) >= token.len() {
        Seq::empty()
    } else {
        token.subrange(token_dot1(token) + 1, token_dot2(token))
    }
}

/// Whether a token passes the structural and signature check: it splits at
/// its first two dots into header, payload and trailing part; the header part
/// is this library's encoded header; and the trailing part is the signature,
/// under `secret`, of everything before it.
pub open spec fn token_well_signed(token: Seq<char>, secret: Seq<char>) -> bool {
    let d1 = token_dot1(token);
    let d2 = token_dot2(token);
    &&& d1 < token.len()
    &&& d2 < token.len()
    &&& token.subrange(0, d1) == b64_of(header_chars())
    &&& token.subrange(d2 + 1, token.len() as int) == sig_of(token.subrange(0, d2), secret)
}

/// Whether a token's payload part is the canonical encoding of some claims.
pub open spec fn token_carries_claims(token: Seq<char>) -> bool {
    exists|c: ClaimsView|
        wire_claims(c) && token_payload_part(token) == b64_of(payload_chars(c))
}

spec fn hlen() -> int {
    b64_of(header_chars()).len() as int
}

spec fn plen(c: ClaimsView) -> int {
    b64_of(payload_chars(c)).len() as int
}

/// A well-signed token for `c` under `secret` carried by the text `token`.
pub open spec fn good_token(token: Seq<char>, secret: Seq<char>, c: ClaimsView) -> bool {
    wire_claims(c) && token == token_chars(c, secret)
}

/// A token whose first two parts are the signing input for `c` but whose
/// trailing part is not the signature of that input under `secret`.
pub open spec fn forged_token(
    token: Seq<char>,
    secret: Seq<char>,
    c: ClaimsView,
    rest: Seq<char>,
) -> bool {
    &&& wire_claims(c)
    &&& token == signing_chars(c) + seq!['.'] + rest
    &&& rest != sig_of(signing_chars(c), secret)
}

/// Why a presented token was rejected: a bad or missing signature, a payload
/// that does not decode to claims, or a validity window that has closed.
#[derive(Clone, Copy, Debug, PartialEq, Eq, Structural)]
pub enum DecodeTokenError {
    InvalidSignature,
    MalformedClaims,
    Expired,
}

/// Where the dots of the signing input lie.
proof fn lemma_signing_shape(c: ClaimsView)
    requires
        b64_dot_free(),
    ensures
        signing_chars(c).len() == hlen() + 1 + plen(c),
        signing_chars(c)[hlen()] == '.',
        forall|i: int| 0 <= i < hlen() ==> #[trigger] signing_chars(c)[i] != '.',
        forall|i: int|
            hlen() < i < signing_chars(c).len() ==> #[trigger] signing_chars(c)[i] != '.',
        signing_chars(c).subrange(0, hlen()) == b64_of(header_chars()),
        signing_chars(c).subrange(hlen() + 1, hlen() + 1 + plen(c)) == b64_of(payload_chars(c)),
{
    let s = signing_chars(c);
    assert(s.subrange(0, hlen()) =~= b64_of(header_chars()));
    assert(s.subrange(hlen() + 1, hlen() + 1 + plen(c)) =~= b64_of(payload_chars(c)));
    assert forall|i: int| 0 <= i < hlen() implies #[trigger] s[i] != '.' by {
        assert(s[i] == b64_of(header_chars())[i]);
    }
    assert forall|i: int| hlen() < i < s.len() implies #[trigger] s[i] != '.' by {
        assert(s[i] == b64_of(payload_chars(c))[i - hlen() - 1]);
    }
}

/// Where the dots and parts of a token `signing "." rest` lie.
proof fn lemma_token_shape(token: Seq<char>, c: ClaimsView, rest: Seq<char>)
    requires
        b64_dot_free(),
        token == signing_chars(c) + seq!['.'] + rest,
    ensures
        token.len() == hlen() + plen(c) + 2 + rest.len(),
        token[hlen()] == '.',
        token[hlen() + 1 + plen(c)] == '.',
        forall|i: int| 0 <= i < hlen() ==> #[trigger] token[i] != '.',
        forall|i: int| hlen() < i < hlen() + 1 + plen(c) ==> #[trigger] token[i] != '.',
        token.subrange(0, hlen()) == b64_of(header_chars()),
        token.subrange(0, hlen() + 1 + plen(c)) == signing_chars(c),
        token.subrange(hlen() + 1, hlen() + 1 + plen(c)) == b64_of(payload_chars(c)),
        token.subrange(hlen() + plen(c) + 2, token.len() as int) == rest,
{
    lemma_signing_shape(c);
    let s = signing_chars(c);
    assert(token.len() == s.len() + 1 + rest.len());
    assert forall|i: int| 0 <= i < s.len() implies token[i] == s[i] by {}
    assert(token[s.len() as int] == '.');
    assert(token.subrange(0, hlen()) =~= s.subrange(0, hlen()));
    assert(token.subrange(0, s.len() as int) =~= s);
    assert(token.subrange(hlen() + 1, hlen() + 1 + plen(c)) =~= s.subrange(
        hlen() + 1,
        hlen() + 1 + plen(c),
    ));
    assert(token.subrange(hlen() + plen(c) + 2, token.len() as int) =~= rest);
}

/// Signs the given claims under `secret` and returns the token text.
pub fn issue_with(c: &Claims, secret: &str) -> (r: String)
    ensures
        r@ == token_chars(c@, secret@),
{
    let header64 = b64url_encode("{\"alg\":\"HS256\",\"typ\":\"JWT\"}");
    let payload = claims_payload(c);
    let payload64 = b64url_encode(payload.as_str());
    let mut msg = header64;
    msg.append(".");
    msg.append(payload64.as_str());
    proof {
        reveal_strlit(".");
        assert("."@ =~= seq!['.']);
        assert(msg@ =~= signing_chars(c@));
    }
    let sig = hmac_sign(msg.as_str(), secret);
    let mut tok = msg;
    tok.append(".");
    tok.append(sig.as_str());
    proof {
        assert(tok@ =~= token_chars(c@, secret@));
    }
    tok
}

/// The claims a fresh issuance carries: issued at `now`, expiring
/// `validity_hours` hours later.
pub open spec fn issued_claims(
    email: Seq<char>,
    purpose: Purpose,
    validity_hours: u64,
    now: u64,
) -> ClaimsView {
    ClaimsView { email, exp: (now + 3600 * validity_hours) as u64, iat: now, purpose }
}

/// Mints a purpose-scoped token for `email`, issued at `now` and valid for
/// `validity_hours` hours, signed under `secret`.
pub fn encode_jwt(email: &str, purpose: Purpose, validity_hours: u64, now: u64, secret: &str) -> (r:
    String)
    requires
        1 <= validity_hours,
        now + 3600 * validity_hours <= u64::MAX,
        forall|i: int| 0 <= i < email@.len() ==> email@[i] != '"',
    ensures
        r@ == token_chars(issued_claims(email@, purpose, validity_hours, now), secret@),
        valid_claims(issued_claims(email@, purpose, validity_hours, now)),
{
    let exp = now + 3600 * validity_hours;
    let c = Claims { email: String::from_str(email), exp, iat: now, purpose };
    issue_with(&c, secret)
}

/// The token round trip: issuing any wire-safe claims and verifying the
/// result under the same secret gives those claims back exactly, whenever the
/// clock still stands before their expiry.
pub fn token_round_trip(c: &Claims, secret: &str, now: u64) -> (r: Result<
    Claims,
    DecodeTokenError,
>)
    requires
        wire_claims(c@),
        c@.exp > now,
    ensures
        r matches Ok(x) && x@ == c@,
{
    let token = issue_with(c, secret);
    proof {
        assert(good_token(token@, secret@, c@));
    }
    decode_token(token.as_str(), secret, now)
}

/// Checks a presented token against the secret and the clock, in this order:
/// structure and signature (`InvalidSignature`), payload decoding
/// (`MalformedClaims`), then expiry, which must lie strictly in the future
/// (`Expired`). The contract pins the outcome for every well-signed token
/// (accepted exactly while unexpired, `Expired` afterwards, whatever the
/// claims) and for every token whose signature part was altered
/// (`InvalidSignature`, whatever the claims).
pub fn decode_token(token: &str, secret: &str, now: u64) -> (r: Result<Claims, DecodeTokenError>)
    ensures
        (r matches Ok(c) ==> good_token(token@, secret@, c@) && c@.exp > now),
        forall|c: ClaimsView|
            good_token(token@, secret@, c) && c.exp > now ==> (r matches Ok(x) && x@ == c),
        forall|c: ClaimsView|
            good_token(token@, secret@, c) && c.exp <= now ==> r == Err::<
                Claims,
                DecodeTokenError,
            >(DecodeTokenError::Expired),
        forall|c: ClaimsView, rest: Seq<char>|
            forged_token(token@, secret@, c, rest) ==> r == Err::<Claims, DecodeTokenError>(
                DecodeTokenError::InvalidSignature,
            ),
        r == Err::<Claims, DecodeTokenError>(DecodeTokenError::InvalidSignature)
            <==> !token_well_signed(token@, secret@),
        r == Err::<Claims, DecodeTokenError>(DecodeTokenError::MalformedClaims)
            <==> token_well_signed(token@, secret@) && !token_carries_claims(token@),
{
    let n = token.unicode_len();
    let expected_header = b64url_encode("{\"alg\":\"HS256\",\"typ\":\"JWT\"}");
    let dot1 = match find_char(token, 0, '.') {
        Some(i) => i,
        None => {
            proof {
                assert forall|c: ClaimsView| good_token(token@, secret@, c) implies false by {
                    lemma_token_shape(token@, c, sig_of(signing_chars(c), secret@));
                }
                assert forall|c: ClaimsView, rest: Seq<char>|
                    forged_token(token@, secret@, c, rest) implies false by {
                    lemma_token_shape(token@, c, rest);
                }
                lemma_idx_of_is(token@, '.', n as int);
                assert(!token_well_signed(token@, secret@));
            }
            return Err(DecodeTokenError::InvalidSignature);
        },
    };
    proof {
        lemma_idx_of_is(token@, '.', dot1 as int);
    }
    let dot2 = match find_char(token, dot1 + 1, '.') {
        Some(i) => i,
        None => {
            proof {
                assert forall|c: ClaimsView| good_token(token@, secret@, c) implies false by {
                    lemma_token_shape(token@, c, sig_of(signing_chars(c), secret@));
                }
                assert forall|c: ClaimsView, rest: Seq<char>|
                    forged_token(token@, secret@, c, rest) implies false by {
                    lemma_token_shape(token@, c, rest);
                }
                let tail = token@.subrange(dot1 + 1, n as int);
                assert forall|k: int| 0 <= k < tail.len() implies tail[k] != '.' by {
                    assert(tail[k] == token@[dot1 + 1 + k]);
                }
                lemma_idx_of_is(tail, '.', tail.len() as int);
                assert(token_dot2(token@) == n);
                assert(!token_well_signed(token@, secret@));
            }
            return Err(DecodeTokenError::InvalidSignature);
        },
    };
    proof {
        let tail = token@.subrange(dot1 + 1, n as int);
        assert forall|k: int| 0 <= k < dot2 - dot1 - 1 implies tail[k] != '.' by {
            assert(tail[k] == token@[dot1 + 1 + k]);
        }
        assert(tail[dot2 - dot1 - 1] == token@[dot2 as int]);
        lemma_idx_of_is(tail, '.', dot2 - dot1 - 1);
        assert(token_dot2(token@) == dot2);
    }
    let header = token.substring_char(0, dot1);
    let payload64 = token.substring_char(dot1 + 1, dot2);
    let sigpart = token.substring_char(dot2 + 1, n);
    let msg = token.substring_char(0, dot2);
    proof {
        assert forall|c: ClaimsView, rest: Seq<char>|
            token@ == signing_chars(c) + seq!['.'] + rest implies dot1 == hlen() && dot2 == hlen()
                + 1 + plen(c) by {
            lemma_token_shape(token@, c, rest);
            if dot1 < hlen() {
                assert(token@[dot1 as int] != '.');
            }
            if dot1 > hlen() {
                assert(token@[hlen()] == '.');
            }
            if dot2 < hlen() + 1 + plen(c) {
                assert(token@[dot2 as int] != '.');
            }
            if dot2 > hlen() + 1 + plen(c) {
                assert(token@[hlen() + 1 + plen(c)] == '.');
            }
        }
    }
    if !str_eq(header, expected_header.as_str()) {
        proof {
            assert forall|c: ClaimsView| good_token(token@, secret@, c) implies false by {
                lemma_token_shape(token@, c, sig_of(signing_chars(c), secret@));
            }
            assert forall|c: ClaimsView, rest: Seq<char>|
                forged_token(token@, secret@, c, rest) implies false by {
                lemma_token_shape(token@, c, rest);
            }
            assert(!token_well_signed(token@, secret@));
        }
        return Err(DecodeTokenError::InvalidSignature);
    }
    if !hmac_verify(sigpart, msg, secret) {
        proof {
            assert forall|c: ClaimsView| good_token(token@, secret@, c) implies false by {
                lemma_token_shape(token@, c, sig_of(signing_chars(c), secret@));
                assert(msg@ =~= signing_chars(c));
                assert(sigpart@ =~= sig_of(signing_chars(c), secret@));
            }
            assert(!token_well_signed(token@, secret@));
        }
        return Err(DecodeTokenError::InvalidSignature);
    }
    proof {
        assert(token_well_signed(token@, secret@));
        assert(token_payload_part(token@) =~= payload64@);
    }
    let payload = match b64url_decode(payload64) {
        Some(p) => p,
        None => {
            proof {
                assert forall|c: ClaimsView| good_token(token@, secret@, c) implies false by {
                    lemma_token_shape(token@, c, sig_of(signing_chars(c), secret@));
                    assert(payload64@ =~= b64_of(payload_chars(c)));
                }
                assert forall|c: ClaimsView, rest: Seq<char>|
                    forged_token(token@, secret@, c, rest) implies false by {
                    lemma_token_shape(token@, c, rest);
                    assert(msg@ =~= signing_chars(c));
                    assert(sigpart@ =~= rest);
                }
                assert(!token_carries_claims(token@));
            }
            return Err(DecodeTokenError::MalformedClaims);
        },
    };
    let claims = match parse_payload(payload.as_str()) {
        Some(c) => c,
        None => {
            proof {
                assert forall|c: ClaimsView| good_token(token@, secret@, c) implies false by {
                    lemma_token_shape(token@, c, sig_of(signing_chars(c), secret@));
                    assert(payload64@ =~= b64_of(payload_chars(c)));
                }
                assert forall|c: ClaimsView, rest: Seq<char>|
                    forged_token(token@, secret@, c, rest) implies false by {
                    lemma_token_shape(token@, c, rest);
                    assert(msg@ =~= signing_chars(c));
                    assert(sigpart@ =~= rest);
                }
                assert forall|c: ClaimsView| wire_claims(c) implies token_payload_part(token@)
                    != b64_of(payload_chars(c)) by {
                    if token_payload_part(token@) == b64_of(payload_chars(c)) {
                        assert(payload64@ == b64_of(payload_chars(c)));
                        assert(payload@ == payload_chars(c));
                    }
                }
                assert(!token_carries_claims(token@));
            }
            return Err(DecodeTokenError::MalformedClaims);
        },
    };
    proof {
        // The accepted parts reassemble into exactly the presented token.
        assert(token@ =~= token@.subrange(0, dot1 as int) + seq![token@[dot1 as int]]
            + token@.subrange(dot1 + 1, dot2 as int) + seq![token@[dot2 as int]] + token@.subrange(
            dot2 + 1,
            n as int,
        ));
        assert(msg@ =~= header@ + seq!['.'] + payload64@);
        assert(msg@ =~= signing_chars(claims@));
        assert(token@ =~= token_chars(claims@, secret@));
        assert forall|c: ClaimsView| good_token(token@, secret@, c) implies claims@ == c by {
            lemma_token_shape(token@, c, sig_of(signing_chars(c), secret@));
            assert(payload64@ =~= b64_of(payload_chars(c)));
        }
        assert forall|c: ClaimsView, rest: Seq<char>|
            forged_token(token@, secret@, c, rest) implies false by {
            lemma_token_shape(token@, c, rest);
            assert(msg@ =~= signing_chars(c));
            assert(sigpart@ =~= rest);
        }
        assert(token_payload_part(token@) == b64_of(payload_chars(claims@)));
        assert(token_carries_claims(token@));
    }
    if claims.exp > now {
        Ok(claims)
    } else {
        Err(DecodeTokenError::Expired)
    }
}

} // verus!
