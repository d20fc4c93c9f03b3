use vstd::prelude::*;

verus! {

/// The operation a token is allowed to authorize. Claims carry exactly one
/// purpose, and every consumer matches it against the purpose it expects.
#[derive(Clone, Copy, Debug, PartialEq, Eq, Structural)]
pub enum Purpose {
    Auth,
    EmailVerify,
    ResetPassword,
}

impl Purpose {
    /// The wire spelling of each purpose tag.
    pub open spec fn spec_str(self) -> Seq<char> {
        match self {
            Purpose::Auth => "auth"@,
            Purpose::EmailVerify => "email-verify"@,
            Purpose::ResetPassword => "reset-password"@,
        }
    }

    pub fn as_str(self) -> (r: &'static str)
        ensures
            r@ == self.spec_str(),
    {
        match self {
            Purpose::Auth => "auth",
            Purpose::EmailVerify => "email-verify",
            Purpose::ResetPassword => "reset-password",
        }
    }
}

/// The three purpose spellings are pairwise distinct.
pub proof fn lemma_purpose_str_injective(a: Purpose, b: Purpose)
    ensures
        a.spec_str() == b.spec_str() ==> a == b,
{
    reveal_strlit("auth");
    reveal_strlit("email-verify");
    reveal_strlit("reset-password");
    if a.spec_str() == b.spec_str() {
        assert(a.spec_str().len() == b.spec_str().len());
    }
}

/// No purpose spelling contains a double quote, so a purpose can stand
/// unescaped between quotes in the claims payload.
pub proof fn lemma_purpose_str_quote_free(p: Purpose)
    ensures
        forall|i: int| 0 <= i < p.spec_str().len() ==> p.spec_str()[i] != '"',
{
    reveal_strlit("auth");
    reveal_strlit("email-verify");
    reveal_strlit("reset-password");
}

/// The payload embedded in every token: who it is for, what it may authorize,
/// and the window in which it is good.
#[derive(Debug)]
pub struct Claims {
    pub email: String,
    pub exp: u64,
    pub iat: u64,
    pub purpose: Purpose,
}

/// The mathematical content of a `Claims` value.
pub struct ClaimsView {
    pub email: Seq<char>,
    pub exp: u64,
    pub iat: u64,
    pub purpose: Purpose,
}

impl View for Claims {
    type V = ClaimsView;

    open spec fn view(&self) -> ClaimsView {
        ClaimsView { email: self.email@, exp: self.exp, iat: self.iat, purpose: self.purpose }
    }
}

/// A claims value that can cross the wire and come back unchanged: its email
/// holds no double quote, so the payload text determines the claims uniquely.
pub open spec fn wire_claims(c: ClaimsView) -> bool {
    forall|i: int| 0 <= i < c.email.len() ==> c.email[i] != '"'
}

/// The invariant every minted claims value satisfies: the validity window is
/// nonempty and the subject email can be framed.
pub open spec fn valid_claims(c: ClaimsView) -> bool {
    &&& wire_claims(c)
    &&& c.iat < c.exp
}

} // verus!
