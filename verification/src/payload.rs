use vstd::prelude::*;

use crate::claims::{Claims, ClaimsView, Purpose, wire_claims};
use crate::codec::{
    dec_of, is_digit, lemma_dec_of_digits, lemma_dec_value_of, parse_digits,
    scan_digits, find_char, starts_with_at, str_eq, u64_to_string,
};

verus! {

// The claims payload is a single JSON object with a fixed key order:
// `{"email":"<email>","exp":<exp>,"iat":<iat>,"purpose":"<purpose>"}`.
// The five literal fragments around the four fields:
pub open spec fn lit_head() -> Seq<char> {
    "{\"email\":\""@
}

pub open spec fn lit_exp() -> Seq<char> {
    "\",\"exp\":"@
}

pub open spec fn lit_iat() -> Seq<char> {
    ",\"iat\":"@
}

pub open spec fn lit_purpose() -> Seq<char> {
    ",\"purpose\":\""@
}

pub open spec fn lit_tail() -> Seq<char> {
    "\"}"@
}

/// The payload text that carries a claims value.
pub open spec fn payload_chars(c: ClaimsView) -> Seq<char> {
    lit_head() + c.email + lit_exp() + dec_of(c.exp as int) + lit_iat() + dec_of(c.iat as int)
        + lit_purpose() + c.purpose.spec_str() + lit_tail()
}

// Field offsets within the payload of a given claims value.
pub open spec fn off_email_end(c: ClaimsView) -> int {
    10 + c.email.len() as int
}

pub open spec fn off_exp_start(c: ClaimsView) -> int {
    off_email_end(c) + 8
}

pub open spec fn off_exp_end(c: ClaimsView) -> int {
    off_exp_start(c) + dec_of(c.exp as int).len() as int
}

pub open spec fn off_iat_start(c: ClaimsView) -> int {
    off_exp_end(c) + 7
}

pub open spec fn off_iat_end(c: ClaimsView) -> int {
    off_iat_start(c) + dec_of(c.iat as int).len() as int
}

pub open spec fn off_p_start(c: ClaimsView) -> int {
    off_iat_end(c) + 12
}

pub open spec fn off_p_end(c: ClaimsView) -> int {
    off_p_start(c) + c.purpose.spec_str().len() as int
}

proof fn lits_facts()
    ensures
        lit_head().len() == 10,
        lit_exp().len() == 8,
        lit_iat().len() == 7,
        lit_purpose().len() == 12,
        lit_tail().len() == 2,
        lit_exp()[0] == '"',
        lit_iat()[0] == ',',
        lit_purpose()[0] == ',',
        lit_tail()[0] == '"',
{
    reveal_strlit("{\"email\":\"");
    reveal_strlit("\",\"exp\":");
    reveal_strlit(",\"iat\":");
    reveal_strlit(",\"purpose\":\"");
    reveal_strlit("\"}");
}

/// Where each fragment of the payload lies.
proof fn lemma_payload_shape(c: ClaimsView)
    ensures
        payload_chars(c).len() == off_p_end(c) + 2,
        payload_chars(c).subrange(0, 10) == lit_head(),
        payload_chars(c).subrange(10, off_email_end(c)) == c.email,
        payload_chars(c).subrange(off_email_end(c), off_exp_start(c)) == lit_exp(),
        payload_chars(c).subrange(off_exp_start(c), off_exp_end(c)) == dec_of(c.exp as int),
        payload_chars(c).subrange(off_exp_end(c), off_iat_start(c)) == lit_iat(),
        payload_chars(c).subrange(off_iat_start(c), off_iat_end(c)) == dec_of(c.iat as int),
        payload_chars(c).subrange(off_iat_end(c), off_p_start(c)) == lit_purpose(),
        payload_chars(c).subrange(off_p_start(c), off_p_end(c)) == c.purpose.spec_str(),
        payload_chars(c).subrange(off_p_end(c), off_p_end(c) + 2) == lit_tail(),
{
    lits_facts();
    let s = payload_chars(c);
    assert(s.subrange(0, 10) =~= lit_head());
    assert(s.subrange(10, off_email_end(c)) =~= c.email);
    assert(s.subrange(off_email_end(c), off_exp_start(c)) =~= lit_exp());
    assert(s.subrange(off_exp_start(c), off_exp_end(c)) =~= dec_of(c.exp as int));
    assert(s.subrange(off_exp_end(c), off_iat_start(c)) =~= lit_iat());
    assert(s.subrange(off_iat_start(c), off_iat_end(c)) =~= dec_of(c.iat as int));
    assert(s.subrange(off_iat_end(c), off_p_start(c)) =~= lit_purpose());
    assert(s.subrange(off_p_start(c), off_p_end(c)) =~= c.purpose.spec_str());
    assert(s.subrange(off_p_end(c), off_p_end(c) + 2) =~= lit_tail());
}

/// The boundary characters a scan relies on: the first `'"'` at or past the
/// email ends the email, the first non-digit ends each numeral, and the first
/// `'"'` at or past the purpose ends the purpose.
proof fn lemma_payload_scan(c: ClaimsView)
    requires
        wire_claims(c),
    ensures
        payload_chars(c).len() == off_p_end(c) + 2,
        forall|k: int| 10 <= k < off_email_end(c) ==> #[trigger] payload_chars(c)[k] != '"',
        payload_chars(c)[off_email_end(c)] == '"',
        forall|k: int|
            off_exp_start(c) <= k < off_exp_end(c) ==> is_digit(#[trigger] payload_chars(c)[k]),
        !is_digit(payload_chars(c)[off_exp_end(c)]),
        forall|k: int|
            off_iat_start(c) <= k < off_iat_end(c) ==> is_digit(#[trigger] payload_chars(c)[k]),
        !is_digit(payload_chars(c)[off_iat_end(c)]),
        forall|k: int|
            off_p_start(c) <= k < off_p_end(c) ==> #[trigger] payload_chars(c)[k] != '"',
        payload_chars(c)[off_p_end(c)] == '"',
{
    lits_facts();
    lemma_payload_shape(c);
    lemma_dec_of_digits(c.exp as int);
    lemma_dec_of_digits(c.iat as int);
    crate::claims::lemma_purpose_str_quote_free(c.purpose);
    let s = payload_chars(c);
    assert forall|k: int| 10 <= k < off_email_end(c) implies #[trigger] s[k] != '"' by {
        assert(s[k] == s.subrange(10, off_email_end(c))[k - 10]);
    }
    assert(s[off_email_end(c)] == s.subrange(off_email_end(c), off_exp_start(c))[0]);
    assert forall|k: int|
        off_exp_start(c) <= k < off_exp_end(c) implies is_digit(#[trigger] s[k]) by {
        assert(s[k] == s.subrange(off_exp_start(c), off_exp_end(c))[k - off_exp_start(c)]);
    }
    assert(s[off_exp_end(c)] == s.subrange(off_exp_end(c), off_iat_start(c))[0]);
    assert forall|k: int|
        off_iat_start(c) <= k < off_iat_end(c) implies is_digit(#[trigger] s[k]) by {
        assert(s[k] == s.subrange(off_iat_start(c), off_iat_end(c))[k - off_iat_start(c)]);
    }
    assert(s[off_iat_end(c)] == s.subrange(off_iat_end(c), off_p_start(c))[0]);
    assert forall|k: int|
        off_p_start(c) <= k < off_p_end(c) implies #[trigger] s[k] != '"' by {
        assert(s[k] == s.subrange(off_p_start(c), off_p_end(c))[k - off_p_start(c)]);
    }
    assert(s[off_p_end(c)] == s.subrange(off_p_end(c), off_p_end(c) + 2)[0]);
}

/// Renders a claims value as its payload text.
pub fn claims_payload(c: &Claims) -> (r: String)
    ensures
        r@ == payload_chars(c@),
{
    let mut s = String::from_str("{\"email\":\"");
    s.append(c.email.as_str());
    s.append("\",\"exp\":");
    let exp_s = u64_to_string(c.exp);
    s.append(exp_s.as_str());
    s.append(",\"iat\":");
    let iat_s = u64_to_string(c.iat);
    s.append(iat_s.as_str());
    s.append(",\"purpose\":\"");
    s.append(c.purpose.as_str());
    s.append("\"}");
    proof {
        assert(s@ =~= payload_chars(c@));
    }
    s
}

/// Reads the purpose tag out of its wire spelling.
fn parse_purpose(s: &str) -> (r: Option<Purpose>)
    ensures
        match r {
            Some(p) => s@ == p.spec_str(),
            None => forall|p: Purpose| s@ != p.spec_str(),
        },
{
    if str_eq(s, "auth") {
        Some(Purpose::Auth)
    } else if str_eq(s, "email-verify") {
        Some(Purpose::EmailVerify)
    } else if str_eq(s, "reset-password") {
        Some(Purpose::ResetPassword)
    } else {
        assert forall|p: Purpose| s@ != p.spec_str() by {
            match p {
                Purpose::Auth => {},
                Purpose::EmailVerify => {},
                Purpose::ResetPassword => {},
            }
        }
        None
    }
}

/// Reads a payload back into a claims value. Exactly the texts produced by
/// [`claims_payload`] are accepted: on success the input is the payload of
/// the returned claims, and every wire-safe claims value's payload parses
/// back to that value.
#[verifier::rlimit(60)]
pub fn parse_payload(s: &str) -> (r: Option<Claims>)
    ensures
        match r {
            Some(c) => s@ == payload_chars(c@) && wire_claims(c@),
            None => forall|c: ClaimsView| wire_claims(c) ==> s@ != payload_chars(c),
        },
        forall|c: ClaimsView|
            wire_claims(c) && s@ == payload_chars(c) ==> (r matches Some(x) && x@ == c),
{
    let ghost hyp = |c: ClaimsView| wire_claims(c) && s@ == payload_chars(c);
    let n = s.unicode_len();
    if !starts_with_at(s, "{\"email\":\"", 0) {
        proof {
            assert forall|c: ClaimsView| wire_claims(c) implies s@ != payload_chars(c) by {
                if s@ == payload_chars(c) {
                    lits_facts();
                    lemma_payload_shape(c);
                    reveal_strlit("{\"email\":\"");
                }
            }
        }
        return None;
    }
    proof {
        reveal_strlit("{\"email\":\"");
    }
    let e_end = match find_char(s, 10, '"') {
        Some(j) => j,
        None => {
            proof {
                assert forall|c: ClaimsView| wire_claims(c) implies s@ != payload_chars(c) by {
                    if s@ == payload_chars(c) {
                        lemma_payload_scan(c);
                    }
                }
            }
            return None;
        },
    };
    proof {
        assert forall|c: ClaimsView| #[trigger] hyp(c) implies e_end == off_email_end(c) by {
            lemma_payload_scan(c);
            if e_end < off_email_end(c) {
                assert(s@[e_end as int] != '"');
            }
            if e_end > off_email_end(c) {
                assert(s@[off_email_end(c)] == '"');
            }
        }
    }
    let email = s.substring_char(10, e_end);
    if !starts_with_at(s, "\",\"exp\":", e_end) {
        proof {
            assert forall|c: ClaimsView| wire_claims(c) implies s@ != payload_chars(c) by {
                if s@ == payload_chars(c) {
                    assert(hyp(c));
                    lits_facts();
                    lemma_payload_shape(c);
                }
            }
        }
        return None;
    }
    proof {
        reveal_strlit("\",\"exp\":");
    }
    let d1 = e_end + 8;
    let d1e = scan_digits(s, d1);
    proof {
        assert forall|c: ClaimsView| #[trigger] hyp(c) implies d1e == off_exp_end(c) by {
            lemma_payload_scan(c);
            if d1e < off_exp_end(c) {
                assert(is_digit(s@[d1e as int]));
            }
            if d1e > off_exp_end(c) {
                assert(!is_digit(s@[off_exp_end(c)]));
            }
        }
    }
    if d1e == d1 {
        proof {
            assert forall|c: ClaimsView| wire_claims(c) implies s@ != payload_chars(c) by {
                if s@ == payload_chars(c) {
                    assert(hyp(c));
                    lemma_dec_of_digits(c.exp as int);
                }
            }
        }
        return None;
    }
    let exp = match parse_digits(s, d1, d1e) {
        Some(v) => v,
        None => {
            proof {
                assert forall|c: ClaimsView| wire_claims(c) implies s@ != payload_chars(c) by {
                    if s@ == payload_chars(c) {
                        assert(hyp(c));
                        lemma_payload_shape(c);
                        lemma_dec_value_of(c.exp as int);
                    }
                }
            }
            return None;
        },
    };
    if !starts_with_at(s, ",\"iat\":", d1e) {
        proof {
            assert forall|c: ClaimsView| wire_claims(c) implies s@ != payload_chars(c) by {
                if s@ == payload_chars(c) {
                    assert(hyp(c));
                    lits_facts();
                    lemma_payload_shape(c);
                }
            }
        }
        return None;
    }
    proof {
        reveal_strlit(",\"iat\":");
    }
    let d2 = d1e + 7;
    let d2e = scan_digits(s, d2);
    proof {
        assert forall|c: ClaimsView| #[trigger] hyp(c) implies d2e == off_iat_end(c) by {
            lemma_payload_scan(c);
            if d2e < off_iat_end(c) {
                assert(is_digit(s@[d2e as int]));
            }
            if d2e > off_iat_end(c) {
                assert(!is_digit(s@[off_iat_end(c)]));
            }
        }
    }
    if d2e == d2 {
        proof {
            assert forall|c: ClaimsView| wire_claims(c) implies s@ != payload_chars(c) by {
                if s@ == payload_chars(c) {
                    assert(hyp(c));
                    lemma_dec_of_digits(c.iat as int);
                }
            }
        }
        return None;
    }
    let iat = match parse_digits(s, d2, d2e) {
        Some(v) => v,
        None => {
            proof {
                assert forall|c: ClaimsView| wire_claims(c) implies s@ != payload_chars(c) by {
                    if s@ == payload_chars(c) {
                        assert(hyp(c));
                        lemma_payload_shape(c);
                        lemma_dec_value_of(c.iat as int);
                    }
                }
            }
            return None;
        },
    };
    if !starts_with_at(s, ",\"purpose\":\"", d2e) {
        proof {
            assert forall|c: ClaimsView| wire_claims(c) implies s@ != payload_chars(c) by {
                if s@ == payload_chars(c) {
                    assert(hyp(c));
                    lits_facts();
                    lemma_payload_shape(c);
                }
            }
        }
        return None;
    }
    proof {
        reveal_strlit(",\"purpose\":\"");
    }
    let p_start = d2e + 12;
    let p_end = match find_char(s, p_start, '"') {
        Some(j) => j,
        None => {
            proof {
                assert forall|c: ClaimsView| wire_claims(c) implies s@ != payload_chars(c) by {
                    if s@ == payload_chars(c) {
                        assert(hyp(c));
                        lemma_payload_scan(c);
                    }
                }
            }
            return None;
        },
    };
    proof {
        assert forall|c: ClaimsView| #[trigger] hyp(c) implies p_end == off_p_end(c) by {
            lemma_payload_scan(c);
            if p_end < off_p_end(c) {
                assert(s@[p_end as int] != '"');
            }
            if p_end > off_p_end(c) {
                assert(s@[off_p_end(c)] == '"');
            }
        }
    }
    let pseg = s.substring_char(p_start, p_end);
    let purpose = match parse_purpose(pseg) {
        Some(p) => p,
        None => {
            proof {
                assert forall|c: ClaimsView| wire_claims(c) implies s@ != payload_chars(c) by {
                    if s@ == payload_chars(c) {
                        assert(hyp(c));
                        lemma_payload_shape(c);
                        assert(pseg@ =~= c.purpose.spec_str());
                    }
                }
            }
            return None;
        },
    };
    let out = Claims { email: String::from_str(email), exp, iat, purpose };
    proof {
        assert forall|c: ClaimsView| #[trigger] hyp(c) implies out@ == c by {
            lemma_payload_shape(c);
            lemma_dec_value_of(c.exp as int);
            lemma_dec_value_of(c.iat as int);
            assert(out@.email =~= c.email);
            assert(s@.subrange(d1 as int, d1e as int) == dec_of(c.exp as int));
            assert(s@.subrange(d2 as int, d2e as int) == dec_of(c.iat as int));
            assert(pseg@ =~= c.purpose.spec_str());
            crate::claims::lemma_purpose_str_injective(out@.purpose, c.purpose);
        }
    }
    let rendered = claims_payload(&out);
    if !str_eq(rendered.as_str(), s) {
        proof {
            assert forall|c: ClaimsView| wire_claims(c) implies s@ != payload_chars(c) by {
                if s@ == payload_chars(c) {
                    assert(hyp(c));
                    assert(out@ == c);
                    assert(rendered@ == s@);
                }
            }
        }
        return None;
    }
    proof {
        assert forall|k: int| 0 <= k < out@.email.len() implies out@.email[k] != '"' by {
            assert(out@.email[k] == s@[10 + k]);
        }
        assert forall|c: ClaimsView| wire_claims(c) && s@ == payload_chars(c) implies out@ == c by {
            assert(hyp(c));
        }
    }
    Some(out)
}

} // verus!
