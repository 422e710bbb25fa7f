//! Decimal numerals: printing unsigned and signed integers and parsing
//! signed integers, with exact specifications relating the two.

use vstd::prelude::*;
use vstd::string::StringExecFns;

verus! {

/// The character for one decimal digit value.
pub open spec fn digit_char(d: int) -> char {
    if d == 0 {
        '0'
    } else if d == 1 {
        '1'
    } else if d == 2 {
        '2'
    } else if d == 3 {
        '3'
    } else if d == 4 {
        '4'
    } else if d == 5 {
        '5'
    } else if d == 6 {
        '6'
    } else if d == 7 {
        '7'
    } else if d == 8 {
        '8'
    } else {
        '9'
    }
}

/// The decimal numeral of a natural number, most significant digit first,
/// with no leading zeros (the numeral of zero is "0").
pub open spec fn dec_of_nat(n: nat) -> Seq<char>
    decreases n,
{
    if n < 10 {
        seq![digit_char(n as int)]
    } else {
        dec_of_nat(n / 10) + seq![digit_char((n % 10) as int)]
    }
}

/// The decimal numeral of an integer: a minus sign before the magnitude of
/// a negative number, the plain numeral otherwise.
pub open spec fn dec_of_int(n: int) -> Seq<char> {
    if n < 0 {
        seq!['-'] + dec_of_nat((-n) as nat)
    } else {
        dec_of_nat(n as nat)
    }
}

/// True for the ten decimal digit characters.
pub open spec fn is_dec_digit(c: char) -> bool {
    '0' <= c && c <= '9'
}

/// The value of one decimal digit character.
pub open spec fn digit_value(c: char) -> int {
    c as int - '0' as int
}

/// True when every character of `s` is a decimal digit.
pub open spec fn all_digits(s: Seq<char>) -> bool {
    forall|i: int| 0 <= i < s.len() ==> is_dec_digit(#[trigger] s[i])
}

/// The value of a digit string read as a base-ten numeral.
pub open spec fn digits_value(s: Seq<char>) -> int
    decreases s.len(),
{
    if s.len() == 0 {
        0
    } else {
        digits_value(s.drop_last()) * 10 + digit_value(s.last())
    }
}

/// What parsing a signed decimal numeral accepts: an optional sign followed
/// by one or more digits, with the value within the range of `i64`. This is
/// the shape `str::parse::<i64>` accepts.
pub open spec fn parse_i64_spec(s: Seq<char>) -> Option<i64> {
    let signed = s.len() > 0 && (s[0] == '+' || s[0] == '-');
    let negative = s.len() > 0 && s[0] == '-';
    let digits = if signed {
        s.subrange(1, s.len() as int)
    } else {
        s
    };
    if digits.len() > 0 && all_digits(digits) {
        let v = if negative {
            -digits_value(digits)
        } else {
            digits_value(digits)
        };
        if i64::MIN <= v <= i64::MAX {
            Some(v as i64)
        } else {
            None
        }
    } else {
        None
    }
}

/// The value of a digit string is never negative.
pub proof fn lemma_digits_value_nonneg(s: Seq<char>)
    requires
        all_digits(s),
    ensures
        digits_value(s) >= 0,
    decreases s.len(),
{
    if s.len() > 0 {
        assert(all_digits(s.drop_last())) by {
            assert(forall|i: int|
                0 <= i < s.drop_last().len() ==> #[trigger] s.drop_last()[i] == s[i]);
        }
        lemma_digits_value_nonneg(s.drop_last());
        assert(is_dec_digit(s.last()));
    }
}

/// Extending a digit string on the right never lowers its value: the value
/// of any prefix is at most the value of the whole string.
pub proof fn lemma_digits_value_prefix(s: Seq<char>, i: int)
    requires
        all_digits(s),
        0 <= i <= s.len(),
    ensures
        digits_value(s.take(i)) <= digits_value(s),
    decreases s.len() - i,
{
    if i < s.len() {
        lemma_digits_value_prefix(s, i + 1);
        let t = s.take(i + 1);
        assert(t.drop_last() =~= s.take(i));
        assert(all_digits(s.take(i))) by {
            assert(forall|j: int|
                0 <= j < s.take(i).len() ==> #[trigger] s.take(i)[j] == s[j]);
        }
        lemma_digits_value_nonneg(s.take(i));
        assert(is_dec_digit(t.last()));
        assert(digits_value(t) == digits_value(s.take(i)) * 10 + digit_value(t.last()));
        assert(digits_value(s.take(i)) * 10 >= digits_value(s.take(i)));
    } else {
        assert(s.take(i) =~= s);
    }
}

/// A one-character string for one decimal digit value.
fn digit_str(d: u64) -> (r: &'static str)
    requires
        d < 10,
    ensures
        r@ =~= seq![digit_char(d as int)],
{
    proof {
        reveal_strlit("0");
        reveal_strlit("1");
        reveal_strlit("2");
        reveal_strlit("3");
        reveal_strlit("4");
        reveal_strlit("5");
        reveal_strlit("6");
        reveal_strlit("7");
        reveal_strlit("8");
        reveal_strlit("9");
    }
    match d {
        0 => "0",
        1 => "1",
        2 => "2",
        3 => "3",
        4 => "4",
        5 => "5",
        6 => "6",
        7 => "7",
        8 => "8",
        _ => "9",
    }
}

/// Prints an unsigned number as its decimal numeral.
pub fn u64_to_string(n: u64) -> (r: String)
    ensures
        r@ == dec_of_nat(n as nat),
    decreases n,
{
    if n < 10 {
        String::from_str(digit_str(n))
    } else {
        let mut s = u64_to_string(n / 10);
        s.append(digit_str(n % 10));
        s
    }
}

/// Prints a signed number as its decimal numeral.
pub fn i64_to_string(n: i64) -> (r: String)
    ensures
        r@ == dec_of_int(n as int),
{
    if n >= 0 {
        u64_to_string(n as u64)
    } else {
        let magnitude: u64 = if n == i64::MIN {
            9223372036854775808
        } else {
            (-n) as u64
        };
        let mut s = String::from_str("-");
        proof {
            reveal_strlit("-");
            assert(s@ =~= seq!['-']);
        }
        let digits = u64_to_string(magnitude);
        s.append(digits.as_str());
        s
    }
}

/// Reads one character as a decimal digit value.
fn digit_of_char(c: char) -> (r: u64)
    requires
        is_dec_digit(c),
    ensures
        r == digit_value(c),
        r < 10,
{
    (c as u64) - 48
}

/// Parses a signed decimal numeral, accepting exactly what
/// [`parse_i64_spec`] describes: an optional sign and one or more digits,
/// with the value in range for `i64`.
pub fn parse_i64(s: &str) -> (r: Option<i64>)
    ensures
        r == parse_i64_spec(s@),
{
    let len = s.unicode_len();
    if len == 0 {
        return None;
    }
    let first = s.get_char(0);
    let signed = first == '+' || first == '-';
    let negative = first == '-';
    let start: usize = if signed {
        1
    } else {
        0
    };
    let ghost digits = if signed {
        s@.subrange(1, s@.len() as int)
    } else {
        s@
    };
    if start == len {
        // A sign with no digits after it.
        assert(digits.len() == 0);
        return None;
    }
    proof {
        assert(digits =~= s@.subrange(start as int, len as int));
        assert(all_digits(s@.subrange(start as int, start as int))) by {
            assert(s@.subrange(start as int, start as int).len() == 0);
        }
    }
    // The magnitude fits in u128 throughout: the loop stops as soon as it
    // exceeds the largest magnitude an i64 can carry.
    let mut value: u128 = 0;
    let mut i: usize = start;
    while i < len
        invariant
            start < len,
            start <= i <= len,
            len == s@.len(),
            signed == (s@.len() > 0 && (s@[0] == '+' || s@[0] == '-')),
            negative == (s@.len() > 0 && s@[0] == '-'),
            start == if signed { 1int } else { 0int },
            digits == s@.subrange(start as int, len as int),
            digits == (if signed { s@.subrange(1, s@.len() as int) } else { s@ }),
            all_digits(s@.subrange(start as int, i as int)),
            value == digits_value(s@.subrange(start as int, i as int)),
            value <= 0x8000_0000_0000_0000,
        decreases len - i,
    {
        let c = s.get_char(i);
        if !(c >= '0' && c <= '9') {
            proof {
                assert(digits[i - start] == s@[i as int]);
                assert(!is_dec_digit(digits[i - start]));
                assert(!all_digits(digits));
            }
            return None;
        }
        let d = digit_of_char(c);
        value = value * 10 + (d as u128);
        i = i + 1;
        proof {
            let prefix = s@.subrange(start as int, i as int);
            assert(prefix.drop_last() =~= s@.subrange(start as int, i as int - 1));
            assert(prefix.last() == c);
            assert(is_dec_digit(c));
            assert forall|j: int| 0 <= j < prefix.len() implies is_dec_digit(#[trigger] prefix[j]) by {
                if j < prefix.len() - 1 {
                    assert(prefix[j] == s@.subrange(start as int, i as int - 1)[j]);
                } else {
                    assert(prefix[j] == c);
                }
            }
            assert(digits_value(prefix) == digits_value(prefix.drop_last()) * 10 + digit_value(c));
        }
        if value > 0x8000_0000_0000_0000 {
            // Any later digits only grow the magnitude, so the value cannot
            // fit in an i64 whatever follows.
            proof {
                let prefix = s@.subrange(start as int, i as int);
                assert(value == digits_value(prefix));
                if all_digits(digits) {
                    assert(prefix =~= digits.take(i - start));
                    lemma_digits_value_prefix(digits, i - start);
                    assert(digits_value(digits) >= digits_value(prefix));
                    assert(digits_value(digits) > 0x8000_0000_0000_0000);
                }
            }
            return None;
        }
    }
    proof {
        assert(s@.subrange(start as int, i as int) =~= digits);
        lemma_digits_value_nonneg(digits);
    }
    if negative {
        if value > 0x8000_0000_0000_0000 {
            return None;
        }
        if value == 0x8000_0000_0000_0000 {
            return Some(i64::MIN);
        }
        Some(-((value as u64) as i64))
    } else {
        if value > 0x7fff_ffff_ffff_ffff {
            return None;
        }
        Some((value as u64) as i64)
    }
}

/// Parses a signed decimal numeral, falling back to zero where the text is
/// not a numeral in range, as the protocol's quality field demands.
pub fn parse_i64_or_zero(s: &str) -> (r: i64)
    ensures
        r == match parse_i64_spec(s@) {
            Some(v) => v,
            None => 0i64,
        },
{
    match parse_i64(s) {
        Some(v) => v,
        None => 0,
    }
}

/// Every character of a printed numeral of a natural number is a digit,
/// and there is at least one.
pub proof fn lemma_dec_of_nat_digits(n: nat)
    ensures
        dec_of_nat(n).len() >= 1,
        all_digits(dec_of_nat(n)),
    decreases n,
{
    if n < 10 {
        assert(is_dec_digit(digit_char(n as int)));
        assert(all_digits(seq![digit_char(n as int)])) by {
            assert(seq![digit_char(n as int)][0] == digit_char(n as int));
        }
    } else {
        lemma_dec_of_nat_digits(n / 10);
        let w = dec_of_nat(n);
        let head = dec_of_nat(n / 10);
        assert forall|i: int| 0 <= i < w.len() implies is_dec_digit(#[trigger] w[i]) by {
            if i < head.len() {
                assert(w[i] == head[i]);
            } else {
                assert(w[i] == digit_char((n % 10) as int));
            }
        }
    }
}

/// A printed numeral reads back as its number.
pub proof fn lemma_dec_of_nat_value(n: nat)
    ensures
        digits_value(dec_of_nat(n)) == n,
    decreases n,
{
    if n < 10 {
        let w = dec_of_nat(n);
        assert(w.drop_last() =~= Seq::<char>::empty());
        assert(digits_value(Seq::<char>::empty()) == 0);
        assert(w.last() == digit_char(n as int));
        assert(digit_value(digit_char(n as int)) == n);
    } else {
        lemma_dec_of_nat_value(n / 10);
        let w = dec_of_nat(n);
        let head = dec_of_nat(n / 10);
        lemma_dec_of_nat_digits(n / 10);
        assert(w.drop_last() =~= head);
        assert(w.last() == digit_char((n % 10) as int));
        assert(digit_value(digit_char((n % 10) as int)) == n % 10);
    }
}

/// Parsing inverts printing on every `i64` value.
pub proof fn lemma_parse_dec_of_int(n: int)
    requires
        i64::MIN <= n <= i64::MAX,
    ensures
        parse_i64_spec(dec_of_int(n)) == Some(n as i64),
{
    if n >= 0 {
        let w = dec_of_nat(n as nat);
        lemma_dec_of_nat_digits(n as nat);
        lemma_dec_of_nat_value(n as nat);
        assert(is_dec_digit(w[0]));
        assert(w[0] != '+' && w[0] != '-');
        assert(parse_i64_spec(w) == Some(n as i64));
    } else {
        let m = (-n) as nat;
        let w = dec_of_int(n);
        lemma_dec_of_nat_digits(m);
        lemma_dec_of_nat_value(m);
        assert(w[0] == '-');
        let digits = w.subrange(1, w.len() as int);
        assert(digits =~= dec_of_nat(m));
        assert(parse_i64_spec(w) == Some(n as i64));
    }
}

/// A printed numeral never holds a markup character: every character is a
/// digit or the minus sign.
pub proof fn lemma_dec_of_int_chars(n: int)
    ensures
        dec_of_int(n).len() >= 1,
        forall|i: int| 0 <= i < dec_of_int(n).len() ==> (is_dec_digit(#[trigger] dec_of_int(n)[i])
            || dec_of_int(n)[i] == '-'),
{
    if n >= 0 {
        lemma_dec_of_nat_digits(n as nat);
    } else {
        let w = dec_of_int(n);
        let tail = dec_of_nat((-n) as nat);
        lemma_dec_of_nat_digits((-n) as nat);
        assert forall|i: int| 0 <= i < w.len() implies (is_dec_digit(#[trigger] w[i]) || w[i]
            == '-') by {
            if i > 0 {
                assert(w[i] == tail[i - 1]);
            }
        }
    }
}

} // verus!
