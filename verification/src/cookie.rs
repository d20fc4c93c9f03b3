//! The `visit` cookie: looking a cookie's value up in a `Cookie` request
//! header, and rendering the `Set-Cookie` value a response carries.

use vstd::prelude::*;

use crate::codec::{dec_of, find_char, idx_of, lemma_idx_of, str_eq, u64_to_string};

verus! {

/// `s` without leading spaces.
pub open spec fn trim_front(s: Seq<char>) -> Seq<char>
    decreases s.len(),
{
    if s.len() > 0 && s[0] == ' ' {
        trim_front(s.drop_first())
    } else {
        s
    }
}

/// `s` without trailing spaces.
pub open spec fn trim_back(s: Seq<char>) -> Seq<char>
    decreases s.len(),
{
    if s.len() > 0 && s.last() == ' ' {
        trim_back(s.drop_last())
    } else {
        s
    }
}

/// `s` without leading and trailing spaces.
pub open spec fn trim_spaces(s: Seq<char>) -> Seq<char> {
    trim_back(trim_front(s))
}

/// The value a single trimmed `name=value` segment yields for `name`:
/// everything after the first `'='`, if what stands before it is `name`.
pub open spec fn segment_value(t: Seq<char>, name: Seq<char>) -> Option<Seq<char>> {
    let e = idx_of(t, '=');
    if e == t.len() {
        None
    } else if t.subrange(0, e) == name {
        Some(t.subrange(e + 1, t.len() as int))
    } else {
        None
    }
}

/// The value of the first `;`-separated segment of a `Cookie` header whose
/// (space-trimmed) name is `name`.
pub open spec fn cookie_lookup(s: Seq<char>, name: Seq<char>) -> Option<Seq<char>>
    decreases s.len(),
    via cookie_lookup_decreases
{
    let j = idx_of(s, ';');
    let hit = segment_value(trim_spaces(s.subrange(0, j)), name);
    if hit is Some {
        hit
    } else if j == s.len() {
        None
    } else {
        cookie_lookup(s.subrange(j + 1, s.len() as int), name)
    }
}

#[via_fn]
proof fn cookie_lookup_decreases(s: Seq<char>, name: Seq<char>) {
    lemma_idx_of(s, ';');
}

/// Trimming only removes leading and trailing spaces: the trimmed text is the
/// slice between the first and last non-space characters.
proof fn lemma_trim_front_subrange(s: Seq<char>, a: int)
    requires
        0 <= a <= s.len(),
        forall|k: int| 0 <= k < a ==> s[k] == ' ',
        a < s.len() ==> s[a] != ' ',
    ensures
        trim_front(s) == s.subrange(a, s.len() as int),
    decreases s.len(),
{
    if a == 0 {
        assert(s.subrange(0, s.len() as int) =~= s);
    } else {
        let t = s.drop_first();
        assert forall|k: int| 0 <= k < a - 1 implies t[k] == ' ' by {
            assert(t[k] == s[k + 1]);
        }
        lemma_trim_front_subrange(t, a - 1);
        assert(t.subrange(a - 1, t.len() as int) =~= s.subrange(a, s.len() as int));
    }
}

proof fn lemma_trim_back_subrange(s: Seq<char>, b: int)
    requires
        0 <= b <= s.len(),
        forall|k: int| b <= k < s.len() ==> s[k] == ' ',
        b > 0 ==> s[b - 1] != ' ',
    ensures
        trim_back(s) == s.subrange(0, b),
    decreases s.len(),
{
    if b == s.len() {
        assert(s.subrange(0, b) =~= s);
    } else {
        let t = s.drop_last();
        lemma_trim_back_subrange(t, b);
        assert(t.subrange(0, b) =~= s.subrange(0, b));
    }
}

/// The space-trimmed copy of `s`.
fn trim_str<'a>(s: &'a str) -> (r: &'a str)
    ensures
        r@ == trim_spaces(s@),
{
    let n = s.unicode_len();
    let mut a: usize = 0;
    while a < n && s.get_char(a) == ' '
        invariant
            0 <= a <= n,
            n == s@.len(),
            forall|k: int| 0 <= k < a ==> s@[k] == ' ',
        decreases n - a,
    {
        a += 1;
    }
    let mut b: usize = n;
    while b > a && s.get_char(b - 1) == ' '
        invariant
            a <= b <= n,
            n == s@.len(),
            forall|k: int| b <= k < n ==> s@[k] == ' ',
        decreases b,
    {
        b -= 1;
    }
    proof {
        lemma_trim_front_subrange(s@, a as int);
        let f = s@.subrange(a as int, n as int);
        if b == a {
            lemma_trim_back_subrange(f, 0);
        } else {
            lemma_trim_back_subrange(f, b - a);
        }
        assert(f.subrange(0, b - a) =~= s@.subrange(a as int, b as int));
    }
    s.substring_char(a, b)
}

/// Looks up `cookie_name` in a `Cookie` request header: the header is split
/// on `';'`, each segment is trimmed of spaces and read as `name=value`, and
/// the value of the first segment whose name matches is returned.
pub fn extract_cookie_value(cookie_str: &str, cookie_name: &str) -> (r: Option<String>)
    ensures
        match r {
            Some(v) => cookie_lookup(cookie_str@, cookie_name@) == Some(v@),
            None => cookie_lookup(cookie_str@, cookie_name@) is None,
        },
    decreases cookie_str@.len(),
{
    let n = cookie_str.unicode_len();
    proof {
        lemma_idx_of(cookie_str@, ';');
    }
    let j = match find_char(cookie_str, 0, ';') {
        Some(j) => {
            proof {
                lemma_idx_of(cookie_str@, ';');
                if idx_of(cookie_str@, ';') < j as int {
                    assert(cookie_str@[idx_of(cookie_str@, ';')] == ';');
                }
            }
            j
        },
        None => n,
    };
    proof {
        assert(j as int == idx_of(cookie_str@, ';'));
    }
    let seg = cookie_str.substring_char(0, j);
    let t = trim_str(seg);
    let e = match find_char(t, 0, '=') {
        Some(e) => {
            proof {
                lemma_idx_of(t@, '=');
                if idx_of(t@, '=') < e as int {
                    assert(t@[idx_of(t@, '=')] == '=');
                }
            }
            e
        },
        None => t.unicode_len(),
    };
    proof {
        lemma_idx_of(t@, '=');
        assert(e as int == idx_of(t@, '='));
    }
    let tn = t.unicode_len();
    if e < tn {
        let name_part = t.substring_char(0, e);
        if str_eq(name_part, cookie_name) {
            let value = t.substring_char(e + 1, tn);
            return Some(String::from_str(value));
        }
    }
    if j == n {
        return None;
    }
    let rest = cookie_str.substring_char(j + 1, n);
    extract_cookie_value(rest, cookie_name)
}

/// The `Set-Cookie` value that carries `token` for `max_age` seconds.
pub open spec fn set_cookie_chars(token: Seq<char>, max_age: Seq<char>) -> Seq<char> {
    "visit="@ + token + "; Path=/; HttpOnly; Secure; SameSite=Lax; Max-Age="@ + max_age
}

/// Renders the `Set-Cookie` header value carrying `token` with the cookie
/// attributes every response of this service uses.
pub fn set_cookie_value(token: &str, max_age: &str) -> (r: String)
    ensures
        r@ == set_cookie_chars(token@, max_age@),
{
    let mut s = String::from_str("visit=");
    s.append(token);
    s.append("; Path=/; HttpOnly; Secure; SameSite=Lax; Max-Age=");
    s.append(max_age);
    proof {
        assert(s@ =~= set_cookie_chars(token@, max_age@));
    }
    s
}

/// The cookie lifetime, in seconds, for a lifetime configured in hours,
/// rendered in decimal as it stands in the cookie header.
pub fn get_max_age_seconds(hours: u64) -> (r: String)
    requires
        3600 * hours <= u64::MAX,
    ensures
        r@ == dec_of(3600 * hours as int),
{
    u64_to_string(3600 * hours)
}

} // verus!
