//! Decimal text for 64-bit integers: formatting and parsing, both verified
//! against one spec-level description of decimal notation.
//!
//! A numeric token is an optional leading `-` followed by one or more ASCII
//! digits, whose value fits in an `i64`. `int_str` is the canonical decimal
//! rendering (no sign for zero, no leading zeros).

use vstd::prelude::*;

verus! {

/// Is `c` an ASCII digit?
pub open spec fn is_digit(c: char) -> bool {
    48 <= c as u32 && c as u32 <= 57
}

/// Value of one ASCII digit.
pub open spec fn digit_val(c: char) -> int {
    c as u32 - 48
}

/// The ASCII digit for a value below ten.
pub open spec fn digit_char(d: int) -> char {
    if d == 0 {
        '0'
    } else if d == 1 {
        '1'
    } else if d == 2 {
        '2'
    } else if d == 3 {
        '3'
    } else if d == 4 {
        '4'
    } else if d == 5 {
        '5'
    } else if d == 6 {
        '6'
    } else if d == 7 {
        '7'
    } else if d == 8 {
        '8'
    } else {
        '9'
    }
}

/// Decimal digits of a non-negative number, most significant first.
pub open spec fn dec_digits(n: nat) -> Seq<char>
    decreases n,
{
    if n < 10 {
        seq![digit_char(n as int)]
    } else {
        dec_digits(n / 10).push(digit_char((n % 10) as int))
    }
}

/// Canonical decimal rendering of an integer, with `-` for negatives.
pub open spec fn int_str(n: int) -> Seq<char> {
    if n < 0 {
        seq!['-'] + dec_digits((-n) as nat)
    } else {
        dec_digits(n as nat)
    }
}

/// Numeric value of a digit string, most significant first.
pub open spec fn digits_val(s: Seq<char>) -> int
    decreases s.len(),
{
    if s.len() == 0 {
        0
    } else {
        digits_val(s.drop_last()) * 10 + digit_val(s.last())
    }
}

/// Are all characters ASCII digits?
pub open spec fn all_digits(s: Seq<char>) -> bool {
    forall|i: int| 0 <= i < s.len() ==> is_digit(s[i])
}

/// Does this token denote a number that fits in an `i64`?
pub open spec fn token_is_number(s: Seq<char>) -> bool {
    if s.len() > 0 && s[0] == '-' {
        s.len() > 1 && all_digits(s.skip(1)) && digits_val(s.skip(1)) <= 0x8000_0000_0000_0000
    } else {
        s.len() > 0 && all_digits(s) && digits_val(s) <= 0x7fff_ffff_ffff_ffff
    }
}

/// The value a numeric token denotes.
pub open spec fn token_number_val(s: Seq<char>) -> int {
    if s.len() > 0 && s[0] == '-' {
        -digits_val(s.skip(1))
    } else {
        digits_val(s)
    }
}

/// A digit string's value only grows as digits are appended.
pub proof fn lemma_digits_val_prefix(s: Seq<char>, k: int)
    requires
        0 <= k <= s.len(),
        all_digits(s),
    ensures
        digits_val(s.take(k)) <= digits_val(s),
        digits_val(s) >= 0,
    decreases s.len() - k,
{
    if s.len() == 0 {
    } else {
        lemma_digits_val_nonneg(s);
        if k < s.len() {
            lemma_digits_val_prefix(s, k + 1);
            assert(s.take(k + 1).drop_last() =~= s.take(k));
            lemma_digits_val_nonneg(s.take(k));
        } else {
            assert(s.take(k) =~= s);
        }
    }
}

/// Digit strings have non-negative values.
pub proof fn lemma_digits_val_nonneg(s: Seq<char>)
    requires
        all_digits(s),
    ensures
        digits_val(s) >= 0,
    decreases s.len(),
{
    if s.len() > 0 {
        assert(all_digits(s.drop_last()));
        lemma_digits_val_nonneg(s.drop_last());
    }
}

/// The literal for one decimal digit.
fn digit_str(d: u64) -> (r: &'static str)
    requires
        d < 10,
    ensures
        r@ =~= seq![digit_char(d as int)],
{
    proof {
        reveal_strlit("0");
        reveal_strlit("1");
        reveal_strlit("2");
        reveal_strlit("3");
        reveal_strlit("4");
        reveal_strlit("5");
        reveal_strlit("6");
        reveal_strlit("7");
        reveal_strlit("8");
        reveal_strlit("9");
    }
    if d == 0 {
        "0"
    } else if d == 1 {
        "1"
    } else if d == 2 {
        "2"
    } else if d == 3 {
        "3"
    } else if d == 4 {
        "4"
    } else if d == 5 {
        "5"
    } else if d == 6 {
        "6"
    } else if d == 7 {
        "7"
    } else if d == 8 {
        "8"
    } else {
        "9"
    }
}

/// Decimal rendering of a non-negative number.
pub fn u64_to_string(n: u64) -> (s: String)
    ensures
        s@ == dec_digits(n as nat),
    decreases n,
{
    if n < 10 {
        let s = digit_str(n).to_owned();
        assert(s@ =~= dec_digits(n as nat));
        s
    } else {
        let mut s = u64_to_string(n / 10);
        s.append(digit_str(n % 10));
        assert(s@ =~= dec_digits(n as nat));
        s
    }
}

/// Decimal rendering of an integer, with `-` for negatives.
pub fn i64_to_string(n: i64) -> (s: String)
    ensures
        s@ == int_str(n as int),
{
    if n >= 0 {
        u64_to_string(n as u64)
    } else {
        let mag: u64 = if n == i64::MIN {
            0x8000_0000_0000_0000u64
        } else {
            (-n) as u64
        };
        let mut s = String::new();
        s.append("-");
        let digits = u64_to_string(mag);
        s.append(digits.as_str());
        proof {
            reveal_strlit("-");
            assert(s@ =~= int_str(n as int));
        }
        s
    }
}

/// Parse a decimal token; `Some` exactly when the token denotes an
/// `i64`-sized number, in which case the value is the token's value.
pub fn parse_i64(token: &str) -> (r: Option<i64>)
    ensures
        r is Some <==> token_is_number(token@),
        r matches Some(v) ==> v as int == token_number_val(token@),
{
    let n = token.unicode_len();
    if n == 0 {
        return None;
    }
    let neg = token.get_char(0) == '-';
    let start: usize = if neg { 1 } else { 0 };
    if n == start {
        return None;
    }
    let ghost body: Seq<char> = if neg { token@.skip(1) } else { token@ };
    let bound: u64 = if neg { 0x8000_0000_0000_0000u64 } else { 0x7fff_ffff_ffff_ffffu64 };
    let mut acc: u64 = 0;
    let mut i: usize = start;
    while i < n
        invariant
            start <= i <= n,
            n == token@.len(),
            start == if neg { 1int } else { 0int },
            neg ==> token@[0] == '-',
            !neg ==> !(token@.len() > 0 && token@[0] == '-'),
            body == (if neg { token@.skip(1) } else { token@ }),
            bound == (if neg { 0x8000_0000_0000_0000u64 } else { 0x7fff_ffff_ffff_ffffu64 }),
            all_digits(body.take(i - start)),
            acc as int == digits_val(body.take(i - start)),
            acc <= bound,
        decreases n - i,
    {
        let c = token.get_char(i);
        let code = c as u32;
        if code < 48 || code > 57 {
            // a non-digit: the token denotes no number at all
            assert(body[i - start] == token@[i as int]);
            assert(!all_digits(body));
            return None;
        }
        let d: u64 = (code - 48) as u64;
        let wide: u128 = acc as u128 * 10 + d as u128;
        proof {
            assert(body.take(i - start + 1).drop_last() =~= body.take(i - start));
            assert(body.take(i - start + 1).last() == body[i - start]);
        }
        if wide > bound as u128 {
            // too large already; appending digits can only grow the value
            proof {
                if all_digits(body) {
                    lemma_digits_val_prefix(body, i - start + 1);
                }
            }
            return None;
        }
        acc = wide as u64;
        i += 1;
    }
    proof {
        assert(body.take(n - start) =~= body);
    }
    if neg {
        if acc == 0x8000_0000_0000_0000u64 {
            Some(i64::MIN)
        } else {
            Some(-(acc as i64))
        }
    } else {
        Some(acc as i64)
    }
}

} // verus!
