use vstd::prelude::*;

verus! {

// ---------------------------------------------------------------------------
// Decimal numerals
// ---------------------------------------------------------------------------
/// Whether `c` is an ASCII decimal digit.
pub open spec fn is_digit(c: char) -> bool {
    48 <= c as u32 <= 57
}

/// The digit character for a value below ten.
pub open spec fn digit_char(d: int) -> char {
    if d == 0 {
        '0'
    } else if d == 1 {
        '1'
    } else if d == 2 {
        '2'
    } else if d == 3 {
        '3'
    } else if d == 4 {
        '4'
    } else if d == 5 {
        '5'
    } else if d == 6 {
        '6'
    } else if d == 7 {
        '7'
    } else if d == 8 {
        '8'
    } else {
        '9'
    }
}

/// The canonical decimal numeral of a nonnegative integer: no sign, no
/// leading zeros (a single `'0'` for zero).
pub open spec fn dec_of(n: int) -> Seq<char>
    decreases n,
{
    if n < 10 {
        seq![digit_char(n)]
    } else {
        dec_of(n / 10).push(digit_char(n % 10))
    }
}

/// The integer a digit string denotes.
pub open spec fn dec_value(s: Seq<char>) -> int
    decreases s.len(),
{
    if s.len() == 0 {
        0
    } else {
        dec_value(s.drop_last()) * 10 + (s.last() as u32 - 48)
    }
}

pub proof fn lemma_digit_char_is_digit(d: int)
    requires
        0 <= d < 10,
    ensures
        is_digit(digit_char(d)),
        digit_char(d) as u32 - 48 == d,
{
}

/// Every character of a canonical numeral is a digit.
pub proof fn lemma_dec_of_digits(n: int)
    requires
        n >= 0,
    ensures
        dec_of(n).len() >= 1,
        forall|i: int| 0 <= i < dec_of(n).len() ==> is_digit(#[trigger] dec_of(n)[i]),
    decreases n,
{
    if n < 10 {
        lemma_digit_char_is_digit(n);
    } else {
        lemma_dec_of_digits(n / 10);
        lemma_digit_char_is_digit(n % 10);
    }
}

/// Reading a canonical numeral back gives the number it was made from.
pub proof fn lemma_dec_value_of(n: int)
    requires
        n >= 0,
    ensures
        dec_value(dec_of(n)) == n,
    decreases n,
{
    if n < 10 {
        lemma_digit_char_is_digit(n);
        let s = dec_of(n);
        assert(s == seq![digit_char(n)]);
        assert(s.drop_last() =~= Seq::<char>::empty());
        assert(dec_value(s.drop_last()) == 0);
        assert(s.last() == digit_char(n));
        assert(dec_value(s) == dec_value(s.drop_last()) * 10 + (s.last() as u32 - 48));
    } else {
        lemma_dec_value_of(n / 10);
        lemma_digit_char_is_digit(n % 10);
        let s = dec_of(n);
        assert(s == dec_of(n / 10).push(digit_char(n % 10)));
        assert(s.drop_last() =~= dec_of(n / 10));
        assert(s.last() == digit_char(n % 10));
        assert(dec_value(s) == dec_value(s.drop_last()) * 10 + (s.last() as u32 - 48));
        assert(dec_value(s) == (n / 10) * 10 + n % 10);
        vstd::arithmetic::div_mod::lemma_fundamental_div_mod(n, 10);
        assert(n == 10 * (n / 10) + n % 10);
    }
}

/// A digit string's value only grows as more digits are appended.
pub proof fn lemma_dec_value_prefix_le(s: Seq<char>, i: int)
    requires
        0 <= i <= s.len(),
        forall|k: int| 0 <= k < s.len() ==> is_digit(#[trigger] s[k]),
    ensures
        0 <= dec_value(s.subrange(0, i)) <= dec_value(s),
    decreases s.len() - i,
{
    if i == s.len() {
        assert(s.subrange(0, i) =~= s);
        lemma_dec_value_nonneg(s);
    } else {
        lemma_dec_value_prefix_le(s, i + 1);
        let p = s.subrange(0, i + 1);
        assert(p.drop_last() =~= s.subrange(0, i));
        assert(dec_value(p) == dec_value(s.subrange(0, i)) * 10 + (p.last() as u32 - 48));
        lemma_dec_value_nonneg(s.subrange(0, i));
    }
}

pub proof fn lemma_dec_value_nonneg(s: Seq<char>)
    requires
        forall|k: int| 0 <= k < s.len() ==> is_digit(#[trigger] s[k]),
    ensures
        dec_value(s) >= 0,
    decreases s.len(),
{
    if s.len() > 0 {
        assert(forall|k: int|
            0 <= k < s.drop_last().len() ==> is_digit(#[trigger] s.drop_last()[k]));
        lemma_dec_value_nonneg(s.drop_last());
    }
}

/// The one-character string for a digit value.
pub(crate) fn digit_str(d: u64) -> (r: &'static str)
    requires
        d < 10,
    ensures
        r@ =~= seq![digit_char(d as int)],
{
    proof {
        reveal_strlit("0");
        reveal_strlit("1");
        reveal_strlit("2");
        reveal_strlit("3");
        reveal_strlit("4");
        reveal_strlit("5");
        reveal_strlit("6");
        reveal_strlit("7");
        reveal_strlit("8");
        reveal_strlit("9");
    }
    if d == 0 {
        "0"
    } else if d == 1 {
        "1"
    } else if d == 2 {
        "2"
    } else if d == 3 {
        "3"
    } else if d == 4 {
        "4"
    } else if d == 5 {
        "5"
    } else if d == 6 {
        "6"
    } else if d == 7 {
        "7"
    } else if d == 8 {
        "8"
    } else {
        "9"
    }
}

/// Renders `n` as its canonical decimal numeral.
pub fn u64_to_string(n: u64) -> (r: String)
    ensures
        r@ == dec_of(n as int),
    decreases n,
{
    if n < 10 {
        String::from_str(digit_str(n))
    } else {
        let mut s = u64_to_string(n / 10);
        s.append(digit_str(n % 10));
        assert(s@ =~= dec_of(n as int));
        s
    }
}

// ---------------------------------------------------------------------------
// String scanning helpers
// ---------------------------------------------------------------------------
/// Whether the two string slices hold the same characters.
pub fn str_eq(a: &str, b: &str) -> (r: bool)
    ensures
        r == (a@ == b@),
{
    let an = a.unicode_len();
    let bn = b.unicode_len();
    if an != bn {
        return false;
    }
    let mut i: usize = 0;
    while i < an
        invariant
            0 <= i <= an,
            an == a@.len(),
            an == b@.len(),
            forall|k: int| 0 <= k < i ==> a@[k] == b@[k],
        decreases an - i,
    {
        if a.get_char(i) != b.get_char(i) {
            return false;
        }
        i += 1;
    }
    proof {
        assert(a@ =~= b@);
    }
    true
}

/// The index of the first occurrence of `target` in `s` at or after `from`.
pub(crate) fn find_char(s: &str, from: usize, target: char) -> (r: Option<usize>)
    requires
        from <= s@.len(),
    ensures
        match r {
            Some(j) => from <= j < s@.len() && s@[j as int] == target && forall|k: int|
                from <= k < j ==> s@[k] != target,
            None => forall|k: int| from <= k < s@.len() ==> s@[k] != target,
        },
{
    let n = s.unicode_len();
    let mut i: usize = from;
    while i < n
        invariant
            from <= i <= n,
            n == s@.len(),
            forall|k: int| from <= k < i ==> s@[k] != target,
        decreases n - i,
    {
        if s.get_char(i) == target {
            return Some(i);
        }
        i += 1;
    }
    None
}

/// The index of the first character at or after `from` that is not a digit
/// (the end of the string if all remaining characters are digits).
pub(crate) fn scan_digits(s: &str, from: usize) -> (r: usize)
    requires
        from <= s@.len(),
    ensures
        from <= r <= s@.len(),
        forall|k: int| from <= k < r ==> is_digit(#[trigger] s@[k]),
        r < s@.len() ==> !is_digit(s@[r as int]),
{
    let n = s.unicode_len();
    let mut i: usize = from;
    while i < n
        invariant
            from <= i <= n,
            n == s@.len(),
            forall|k: int| from <= k < i ==> is_digit(#[trigger] s@[k]),
        decreases n - i,
    {
        let c = s.get_char(i);
        let v = c as u32;
        if v < 48 || v > 57 {
            return i;
        }
        i += 1;
    }
    n
}

/// Whether `lit` occurs in `s` starting at position `at`.
pub(crate) fn starts_with_at(s: &str, lit: &str, at: usize) -> (r: bool)
    requires
        at <= s@.len(),
    ensures
        r == (at + lit@.len() <= s@.len() && s@.subrange(
            at as int,
            at + lit@.len(),
        ) == lit@),
{
    let n = s.unicode_len();
    let m = lit.unicode_len();
    if m > n - at {
        return false;
    }
    let mut i: usize = 0;
    while i < m
        invariant
            0 <= i <= m,
            n == s@.len(),
            m == lit@.len(),
            at + m <= n,
            forall|k: int| 0 <= k < i ==> s@[at + k] == lit@[k],
        decreases m - i,
    {
        if s.get_char(at + i) != lit.get_char(i) {
            return false;
        }
        i += 1;
    }
    proof {
        assert(s@.subrange(at as int, at + lit@.len()) =~= lit@);
    }
    true
}

/// Reads the value of the digit run `s[from..to]`, refusing values that do
/// not fit in a `u64`.
pub(crate) fn parse_digits(s: &str, from: usize, to: usize) -> (r: Option<u64>)
    requires
        from <= to <= s@.len(),
        forall|k: int| from <= k < to ==> is_digit(#[trigger] s@[k]),
    ensures
        match r {
            Some(v) => v as int == dec_value(s@.subrange(from as int, to as int)),
            None => dec_value(s@.subrange(from as int, to as int)) > u64::MAX,
        },
{
    let mut acc: u64 = 0;
    let mut i: usize = from;
    proof {
        assert(s@.subrange(from as int, from as int) =~= Seq::<char>::empty());
    }
    while i < to
        invariant
            from <= i <= to <= s@.len(),
            forall|k: int| from <= k < to ==> is_digit(#[trigger] s@[k]),
            acc as int == dec_value(s@.subrange(from as int, i as int)),
        decreases to - i,
    {
        let c = s.get_char(i);
        let d = (c as u32 - 48) as u64;
        proof {
            assert(s@.subrange(from as int, i + 1).drop_last() =~= s@.subrange(
                from as int,
                i as int,
            ));
            assert(s@.subrange(from as int, i + 1).last() == s@[i as int]);
        }
        if acc > (u64::MAX - d) / 10 {
            proof {
                let full = s@.subrange(from as int, to as int);
                assert(forall|k: int| 0 <= k < full.len() ==> is_digit(#[trigger] full[k]));
                assert(full.subrange(0, i + 1 - from) =~= s@.subrange(from as int, i + 1));
                lemma_dec_value_prefix_le(full, i + 1 - from);
            }
            return None;
        }
        acc = acc * 10 + d;
        i += 1;
    }
    proof {
        assert(s@.subrange(from as int, to as int) =~= s@.subrange(from as int, i as int));
    }
    Some(acc)
}


// ---------------------------------------------------------------------------
// First occurrences
// ---------------------------------------------------------------------------
/// The index of the first occurrence of `ch` in `s`, or `s.len()` if none.
pub open spec fn idx_of(s: Seq<char>, ch: char) -> int
    decreases s.len(),
{
    if s.len() == 0 {
        0
    } else if s[0] == ch {
        0
    } else {
        1 + idx_of(s.drop_first(), ch)
    }
}

pub proof fn lemma_idx_of(s: Seq<char>, ch: char)
    ensures
        0 <= idx_of(s, ch) <= s.len(),
        idx_of(s, ch) < s.len() ==> s[idx_of(s, ch)] == ch,
        forall|k: int| 0 <= k < idx_of(s, ch) ==> s[k] != ch,
    decreases s.len(),
{
    if s.len() > 0 && s[0] != ch {
        lemma_idx_of(s.drop_first(), ch);
        assert forall|k: int| 0 <= k < idx_of(s, ch) implies s[k] != ch by {
            if k > 0 {
                assert(s[k] == s.drop_first()[k - 1]);
            }
        }
    }
}

/// A position with no occurrence before it, holding one itself (or the end),
/// is exactly the first occurrence.
pub proof fn lemma_idx_of_is(s: Seq<char>, ch: char, j: int)
    requires
        0 <= j <= s.len(),
        forall|k: int| 0 <= k < j ==> s[k] != ch,
        j < s.len() ==> s[j] == ch,
    ensures
        idx_of(s, ch) == j,
{
    lemma_idx_of(s, ch);
    if idx_of(s, ch) < j {
        assert(s[idx_of(s, ch)] == ch);
    }
    if idx_of(s, ch) > j {
        assert(j < s.len());
        assert(s[j] != ch);
    }
}

} // verus!
