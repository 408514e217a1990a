//! Decimal numerals over characters: the spec-level meaning of digit
//! sequences and verified formatting and parsing of unsigned numbers.

use vstd::prelude::*;
use vstd::string::{StrSliceExecFns, StringExecFns};

verus! {

/// The decimal digit character for `d`, meaningful when `0 <= d <= 9`.
pub open spec fn digit_char(d: int) -> char {
    if d == 0 {
        '0'
    } else if d == 1 {
        '1'
    } else if d == 2 {
        '2'
    } else if d == 3 {
        '3'
    } else if d == 4 {
        '4'
    } else if d == 5 {
        '5'
    } else if d == 6 {
        '6'
    } else if d == 7 {
        '7'
    } else if d == 8 {
        '8'
    } else {
        '9'
    }
}

/// The value of a decimal digit character, or a negative number for any
/// other character.
pub open spec fn char_digit(c: char) -> int {
    if c == '0' {
        0
    } else if c == '1' {
        1
    } else if c == '2' {
        2
    } else if c == '3' {
        3
    } else if c == '4' {
        4
    } else if c == '5' {
        5
    } else if c == '6' {
        6
    } else if c == '7' {
        7
    } else if c == '8' {
        8
    } else if c == '9' {
        9
    } else {
        -1
    }
}

/// Every character of `s` is a decimal digit.
pub open spec fn all_digits(s: Seq<char>) -> bool {
    forall|i: int| 0 <= i < s.len() ==> char_digit(s[i]) >= 0
}

/// The number denoted by a sequence of decimal digit characters, most
/// significant digit first.
pub open spec fn digits_val(s: Seq<char>) -> int
    decreases s.len(),
{
    if s.len() == 0 {
        0
    } else {
        digits_val(s.drop_last()) * 10 + char_digit(s.last())
    }
}

/// The canonical decimal numeral of a non-negative number.
pub open spec fn dec_chars(n: int) -> Seq<char>
    decreases n,
{
    if n <= 9 {
        seq![digit_char(n)]
    } else {
        dec_chars(n / 10).push(digit_char(n % 10))
    }
}

/// A digit sequence denotes a non-negative number.
pub proof fn lemma_digits_val_nonneg(s: Seq<char>)
    requires
        all_digits(s),
    ensures
        digits_val(s) >= 0,
    decreases s.len(),
{
    if s.len() > 0 {
        assert(forall|i: int| 0 <= i < s.drop_last().len() ==> s.drop_last()[i] == s[i]);
        lemma_digits_val_nonneg(s.drop_last());
    }
}

/// Reading only a prefix of a digit sequence never yields a larger number.
pub proof fn lemma_digits_val_prefix_le(s: Seq<char>, i: int)
    requires
        all_digits(s),
        0 <= i <= s.len(),
    ensures
        digits_val(s.take(i)) <= digits_val(s),
    decreases s.len() - i,
{
    if i == s.len() {
        assert(s.take(i) =~= s);
    } else {
        assert(s.take(i + 1).drop_last() =~= s.take(i));
        assert(s.take(i + 1).last() == s[i]);
        assert(forall|j: int| 0 <= j < i ==> s.take(i)[j] == s[j]);
        lemma_digits_val_nonneg(s.take(i));
        lemma_digits_val_prefix_le(s, i + 1);
    }
}

/// The canonical numeral of `n` consists of digits and denotes `n` again.
pub proof fn lemma_dec_chars_val(n: int)
    requires
        n >= 0,
    ensures
        all_digits(dec_chars(n)),
        digits_val(dec_chars(n)) == n,
        dec_chars(n).len() >= 1,
    decreases n,
{
    if n <= 9 {
        let s = dec_chars(n);
        assert(s =~= seq![digit_char(n)]);
        assert(s.len() == 1);
        assert(s.drop_last() =~= Seq::<char>::empty());
        assert(s.last() == digit_char(n));
        assert(digits_val(Seq::<char>::empty()) == 0);
        assert(digits_val(s) == digits_val(s.drop_last()) * 10 + char_digit(s.last()));
        assert(char_digit(digit_char(n)) == n);
    } else {
        lemma_dec_chars_val(n / 10);
        let s = dec_chars(n / 10);
        let t = s.push(digit_char(n % 10));
        assert(t.drop_last() =~= s);
        assert(t.last() == digit_char(n % 10));
        assert(digits_val(t) == digits_val(s) * 10 + char_digit(digit_char(n % 10)));
        assert(char_digit(digit_char(n % 10)) == n % 10);
        vstd::arithmetic::div_mod::lemma_fundamental_div_mod(n, 10);
        assert(digits_val(t) == n);
        assert forall|i: int| 0 <= i < t.len() implies char_digit(t[i]) >= 0 by {
            if i < s.len() {
                assert(t[i] == s[i]);
            } else {
                assert(t[i] == digit_char(n % 10));
            }
        }
    }
}

/// The digit character for a small number, as a one-character string.
pub fn digit_str(d: u8) -> (r: &'static str)
    requires
        d <= 9,
    ensures
        r@ == seq![digit_char(d as int)],
{
    proof {
        reveal_strlit("0");
        reveal_strlit("1");
        reveal_strlit("2");
        reveal_strlit("3");
        reveal_strlit("4");
        reveal_strlit("5");
        reveal_strlit("6");
        reveal_strlit("7");
        reveal_strlit("8");
        reveal_strlit("9");
    }
    let r = if d == 0 {
        "0"
    } else if d == 1 {
        "1"
    } else if d == 2 {
        "2"
    } else if d == 3 {
        "3"
    } else if d == 4 {
        "4"
    } else if d == 5 {
        "5"
    } else if d == 6 {
        "6"
    } else if d == 7 {
        "7"
    } else if d == 8 {
        "8"
    } else {
        "9"
    };
    proof {
        assert(r@ =~= seq![digit_char(d as int)]);
    }
    r
}

/// Formats a number below one hundred as exactly two decimal digits.
pub fn two_digits(n: u8) -> (r: String)
    requires
        n <= 99,
    ensures
        r@ == seq![digit_char(n as int / 10), digit_char(n as int % 10)],
{
    let mut s = String::from_str(digit_str(n / 10));
    s.append(digit_str(n % 10));
    proof {
        assert(s@ =~= seq![digit_char(n as int / 10), digit_char(n as int % 10)]);
    }
    s
}

/// Formats a number as its canonical decimal numeral.
pub fn format_u64(n: u64) -> (r: String)
    ensures
        r@ == dec_chars(n as int),
    decreases n,
{
    if n <= 9 {
        String::from_str(digit_str(n as u8))
    } else {
        let mut s = format_u64(n / 10);
        s.append(digit_str((n % 10) as u8));
        proof {
            assert(s@ =~= dec_chars(n as int / 10).push(digit_char(n as int % 10)));
        }
        s
    }
}

/// Maps a decimal digit character to its value, and any other character to
/// nothing.
pub fn digit_of(c: char) -> (r: Option<u8>)
    ensures
        match r {
            Some(d) => d <= 9 && char_digit(c) == d as int,
            None => char_digit(c) < 0,
        },
{
    match c {
        '0' => Some(0),
        '1' => Some(1),
        '2' => Some(2),
        '3' => Some(3),
        '4' => Some(4),
        '5' => Some(5),
        '6' => Some(6),
        '7' => Some(7),
        '8' => Some(8),
        '9' => Some(9),
        _ => None,
    }
}

/// Reads a whole string of decimal digits as a number. Fails on an empty
/// string, on any non-digit character, and on a value that does not fit.
pub fn parse_u64(v: &str) -> (r: Option<u64>)
    ensures
        match r {
            Some(x) => all_digits(v@) && v@.len() >= 1 && digits_val(v@) == x as int,
            None => !(all_digits(v@) && v@.len() >= 1 && digits_val(v@) <= u64::MAX),
        },
{
    let n = v.unicode_len();
    if n == 0 {
        return None;
    }
    let mut acc: u64 = 0;
    let mut i: usize = 0;
    while i < n
        invariant
            0 <= i <= n,
            n == v@.len(),
            all_digits(v@.take(i as int)),
            acc as int == digits_val(v@.take(i as int)),
        decreases n - i,
    {
        let c = v.get_char(i);
        let d = match digit_of(c) {
            None => {
                proof {
                    assert(char_digit(v@[i as int]) < 0);
                }
                return None;
            },
            Some(d) => d,
        };
        proof {
            assert(v@.take(i as int + 1).drop_last() =~= v@.take(i as int));
            assert(v@.take(i as int + 1).last() == v@[i as int]);
            assert forall|j: int| 0 <= j < i + 1 implies char_digit(
                #[trigger] v@.take(i as int + 1)[j],
            ) >= 0 by {
                assert(v@.take(i as int + 1)[j] == v@[j]);
                if j < i {
                    assert(v@.take(i as int)[j] == v@[j]);
                }
            }
        }
        let shifted = match acc.checked_mul(10) {
            None => {
                proof {
                    if all_digits(v@) {
                        lemma_digits_val_prefix_le(v@, i as int + 1);
                    }
                }
                return None;
            },
            Some(m) => m,
        };
        acc = match shifted.checked_add(d as u64) {
            None => {
                proof {
                    if all_digits(v@) {
                        lemma_digits_val_prefix_le(v@, i as int + 1);
                    }
                }
                return None;
            },
            Some(a) => a,
        };
        i += 1;
    }
    proof {
        assert(v@.take(n as int) =~= v@);
    }
    Some(acc)
}

} // verus!
