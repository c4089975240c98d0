//! Decimal notation for unsigned 64-bit integers: a spec-level definition of
//! the digit string of a number, an executable formatter, and an executable
//! parser, each proved against the definition.

use vstd::prelude::*;

verus! {

/// The character for a single decimal digit value.
pub open spec fn digit_char(d: int) -> char {
    if d == 0 {
        '0'
    } else if d == 1 {
        '1'
    } else if d == 2 {
        '2'
    } else if d == 3 {
        '3'
    } else if d == 4 {
        '4'
    } else if d == 5 {
        '5'
    } else if d == 6 {
        '6'
    } else if d == 7 {
        '7'
    } else if d == 8 {
        '8'
    } else {
        '9'
    }
}

/// Whether a character is a decimal digit.
pub open spec fn is_digit(c: char) -> bool {
    48 <= c as int && c as int <= 57
}

/// The numeric value of a decimal digit character.
pub open spec fn digit_val(c: char) -> int {
    c as int - 48
}

/// The number denoted by a sequence of decimal digit characters,
/// most significant digit first.
pub open spec fn dec_val(s: Seq<char>) -> nat
    recommends
        forall|i: int| 0 <= i < s.len() ==> is_digit(s[i]),
    decreases s.len(),
{
    if s.len() == 0 {
        0
    } else {
        (10 * dec_val(s.drop_last()) + digit_val(s.last())) as nat
    }
}

/// Whether a sequence of characters is a non-empty run of decimal digits.
pub open spec fn is_dec_seq(s: Seq<char>) -> bool {
    s.len() > 0 && forall|i: int| 0 <= i < s.len() ==> is_digit(s[i])
}

/// The canonical decimal digit string of a number: no sign, no leading
/// zeros (except for the number zero itself).
pub open spec fn dec_of(n: nat) -> Seq<char>
    decreases n,
{
    if n < 10 {
        seq![digit_char(n as int)]
    } else {
        dec_of(n / 10) + seq![digit_char((n % 10) as int)]
    }
}

/// Each digit value in range names a digit character, and `digit_val`
/// inverts `digit_char` on it.
pub proof fn lemma_digit_char_val(d: int)
    requires
        0 <= d < 10,
    ensures
        is_digit(digit_char(d)),
        digit_val(digit_char(d)) == d,
{
}

/// Formatting a number and reading the digits back yields the number:
/// `dec_of(n)` is a non-empty digit run and `dec_val` inverts it.
pub proof fn lemma_dec_of_round_trip(n: nat)
    ensures
        is_dec_seq(dec_of(n)),
        dec_val(dec_of(n)) == n,
    decreases n,
{
    if n < 10 {
        lemma_digit_char_val(n as int);
        let s = dec_of(n);
        assert(s.drop_last() =~= Seq::<char>::empty());
        assert(dec_val(s.drop_last()) == 0);
        assert(dec_val(s) == n);
    } else {
        lemma_dec_of_round_trip(n / 10);
        lemma_digit_char_val((n % 10) as int);
        let s = dec_of(n);
        assert(s.drop_last() =~= dec_of(n / 10));
        assert(n == 10 * (n / 10) + n % 10) by (nonlinear_arith);
        assert(dec_val(s) == n);
    }
}

/// The one-character string for a single decimal digit value.
fn digit_str(d: u64) -> (s: &'static str)
    requires
        d < 10,
    ensures
        s@ == seq![digit_char(d as int)],
{
    proof {
        reveal_strlit("0");
        reveal_strlit("1");
        reveal_strlit("2");
        reveal_strlit("3");
        reveal_strlit("4");
        reveal_strlit("5");
        reveal_strlit("6");
        reveal_strlit("7");
        reveal_strlit("8");
        reveal_strlit("9");
    }
    let s = match d {
        0 => "0",
        1 => "1",
        2 => "2",
        3 => "3",
        4 => "4",
        5 => "5",
        6 => "6",
        7 => "7",
        8 => "8",
        _ => "9",
    };
    proof {
        assert(s@ =~= seq![digit_char(d as int)]);
    }
    s
}

/// Formats a number in decimal notation.
pub fn u64_to_string(n: u64) -> (s: String)
    ensures
        s@ == dec_of(n as nat),
    decreases n,
{
    if n < 10 {
        String::from_str(digit_str(n))
    } else {
        let mut s = u64_to_string(n / 10);
        let d = digit_str(n % 10);
        s.append(d);
        proof {
            assert(s@ =~= dec_of(n as nat));
        }
        s
    }
}

/// Parses a string as a decimal number. Returns the number exactly when the
/// whole string is a non-empty run of decimal digits whose value fits in a
/// `u64`; leading zeros are accepted, signs and any other character are not.
pub fn parse_u64(s: &str) -> (r: Option<u64>)
    ensures
        r is Some <==> is_dec_seq(s@) && dec_val(s@) <= u64::MAX,
        r matches Some(v) ==> v == dec_val(s@),
{
    let n = s.unicode_len();
    if n == 0 {
        return None;
    }
    let mut i: usize = 0;
    let mut acc: u64 = 0;
    let mut overflow = false;
    while i < n
        invariant
            n == s@.len(),
            0 < n,
            i <= n,
            forall|j: int| 0 <= j < i ==> is_digit(s@[j]),
            !overflow ==> acc == dec_val(s@.subrange(0, i as int)),
            overflow ==> dec_val(s@.subrange(0, i as int)) > u64::MAX,
        decreases n - i,
    {
        let c = s.get_char(i);
        let cv = c as u32;
        if cv < 48 || cv > 57 {
            assert(!is_digit(s@[i as int]));
            return None;
        }
        let d = (cv - 48) as u64;
        proof {
            assert(s@.subrange(0, (i + 1) as int).drop_last() =~= s@.subrange(0, i as int));
            assert(s@.subrange(0, (i + 1) as int).last() == s@[i as int]);
        }
        if overflow {
            proof {
                assert(dec_val(s@.subrange(0, (i + 1) as int)) > u64::MAX);
            }
        } else if acc > (u64::MAX - d) / 10 {
            proof {
                lemma_mul_ten_plus_digit_overflows(acc, d);
            }
            overflow = true;
        } else {
            proof {
                lemma_mul_ten_plus_digit_fits(acc, d);
            }
            acc = acc * 10 + d;
        }
        i += 1;
    }
    proof {
        assert(s@.subrange(0, n as int) =~= s@);
    }
    if overflow {
        None
    } else {
        Some(acc)
    }
}

/// If an accumulated value exceeds `(u64::MAX - d) / 10`, appending the
/// digit `d` takes the denoted number past `u64::MAX`.
proof fn lemma_mul_ten_plus_digit_overflows(acc: u64, d: u64)
    requires
        d < 10,
        acc > (u64::MAX - d) / 10,
    ensures
        10 * (acc as int) + d > u64::MAX,
{
    let m = (u64::MAX - d) as int;
    assert(m == 10 * (m / 10) + m % 10) by (nonlinear_arith);
    assert(0 <= m % 10 < 10) by (nonlinear_arith);
    assert(acc as int >= m / 10 + 1);
    assert(10 * (acc as int) >= 10 * (m / 10 + 1)) by (nonlinear_arith)
        requires
            acc as int >= m / 10 + 1,
    ;
}

/// If an accumulated value is at most `(u64::MAX - d) / 10`, appending the
/// digit `d` keeps the denoted number within `u64::MAX`.
proof fn lemma_mul_ten_plus_digit_fits(acc: u64, d: u64)
    requires
        d < 10,
        acc <= (u64::MAX - d) / 10,
    ensures
        10 * (acc as int) + d <= u64::MAX,
{
    let m = (u64::MAX - d) as int;
    assert(m == 10 * (m / 10) + m % 10) by (nonlinear_arith);
    assert(0 <= m % 10 < 10) by (nonlinear_arith);
    assert(10 * (acc as int) <= 10 * (m / 10)) by (nonlinear_arith)
        requires
            acc as int <= m / 10,
    ;
}

} // verus!
