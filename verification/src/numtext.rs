//! Decimal text: formatting integers, parsing client-supplied values.
//!
//! Property values travel as text between clients and the driver, so the
//! store needs an exact account of which strings denote integers and of
//! the decimal form of every integer it renders.

use vstd::prelude::*;
use vstd::string::StringExecFns;

verus! {

/// The character for one decimal digit.
pub open spec fn digit_char(d: int) -> char
    recommends
        0 <= d < 10,
{
    if d == 0 {
        '0'
    } else if d == 1 {
        '1'
    } else if d == 2 {
        '2'
    } else if d == 3 {
        '3'
    } else if d == 4 {
        '4'
    } else if d == 5 {
        '5'
    } else if d == 6 {
        '6'
    } else if d == 7 {
        '7'
    } else if d == 8 {
        '8'
    } else {
        '9'
    }
}

/// Decimal representation of a natural number, most significant digit
/// first, with no leading zeros (a single `'0'` for zero).
pub open spec fn dec_chars(n: nat) -> Seq<char>
    decreases n,
{
    if n < 10 {
        seq![digit_char(n as int)]
    } else {
        dec_chars(n / 10).push(digit_char((n % 10) as int))
    }
}

/// Decimal representation of an integer: a minus sign for negatives.
pub open spec fn int_chars(n: int) -> Seq<char> {
    if n < 0 {
        seq!['-'] + dec_chars((-n) as nat)
    } else {
        dec_chars(n as nat)
    }
}

/// Whether `c` is a decimal digit.
pub open spec fn is_dec_digit(c: char) -> bool {
    '0' as int <= c as int && c as int <= '9' as int
}

/// The value of a digit character.
pub open spec fn digit_value(c: char) -> int {
    c as int - '0' as int
}

/// Whether every character of `s` is a decimal digit.
pub open spec fn all_digits(s: Seq<char>) -> bool {
    forall|i: int| 0 <= i < s.len() ==> is_dec_digit(#[trigger] s[i])
}

/// The number denoted by a sequence of digit characters.
pub open spec fn dec_value(s: Seq<char>) -> int
    decreases s.len(),
{
    if s.len() == 0 {
        0
    } else {
        dec_value(s.drop_last()) * 10 + digit_value(s.last())
    }
}

/// The integer a string denotes: an optional minus sign followed by at
/// least one digit.  `None` for any other shape.
pub open spec fn int_literal(s: Seq<char>) -> Option<int> {
    if s.len() >= 2 && s[0] == '-' && all_digits(s.skip(1)) {
        Some(-dec_value(s.skip(1)))
    } else if s.len() >= 1 && all_digits(s) {
        Some(dec_value(s))
    } else {
        None
    }
}

/// A one-character string for a decimal digit.
fn digit_str(d: u8) -> (r: &'static str)
    requires
        d < 10,
    ensures
        r@ == seq![digit_char(d as int)],
{
    proof {
        reveal_strlit("0");
        reveal_strlit("1");
        reveal_strlit("2");
        reveal_strlit("3");
        reveal_strlit("4");
        reveal_strlit("5");
        reveal_strlit("6");
        reveal_strlit("7");
        reveal_strlit("8");
        reveal_strlit("9");
    }
    match d {
        0 => "0",
        1 => "1",
        2 => "2",
        3 => "3",
        4 => "4",
        5 => "5",
        6 => "6",
        7 => "7",
        8 => "8",
        _ => "9",
    }
}

/// Render a natural number in decimal.
pub fn u64_to_string(n: u64) -> (r: String)
    ensures
        r@ == dec_chars(n as nat),
    decreases n,
{
    if n < 10 {
        digit_str(n as u8).to_owned()
    } else {
        let mut s = u64_to_string(n / 10);
        s.append(digit_str((n % 10) as u8));
        s
    }
}

/// Render a signed integer in decimal.
pub fn i64_to_string(n: i64) -> (r: String)
    ensures
        r@ == int_chars(n as int),
{
    if n >= 0 {
        u64_to_string(n as u64)
    } else {
        let magnitude: u64 = if n == i64::MIN {
            9223372036854775808u64
        } else {
            (-n) as u64
        };
        let mut s = String::from_str("-");
        proof {
            reveal_strlit("-");
        }
        s.append(u64_to_string(magnitude).as_str());
        s
    }
}

/// A temperature the hardware reports in tenths of a degree,
/// rendered as a decimal: the whole degrees, then the tenth digit
/// unless it is zero.
pub open spec fn tenths_chars(t: int) -> Seq<char> {
    let m = if t < 0 {
        -t
    } else {
        t
    };
    let sign: Seq<char> = if t < 0 {
        seq!['-']
    } else {
        Seq::empty()
    };
    if m % 10 == 0 {
        sign + dec_chars((m / 10) as nat)
    } else {
        sign + dec_chars((m / 10) as nat) + seq!['.'] + seq![digit_char(m % 10)]
    }
}

/// Render a value reported in tenths as a decimal: `235` becomes
/// `23.5`, `-51` becomes `-5.1`, and a whole number of degrees drops
/// the fraction, as `230` becomes `23`.
pub fn tenths_to_string(t: i64) -> (r: String)
    ensures
        r@ == tenths_chars(t as int),
{
    proof {
        reveal_strlit("-");
        reveal_strlit(".");
    }
    let magnitude: u64 = if t == i64::MIN {
        9223372036854775808u64
    } else if t < 0 {
        (-t) as u64
    } else {
        t as u64
    };
    let mut s = String::new();
    if t < 0 {
        s.append("-");
    }
    s.append(u64_to_string(magnitude / 10).as_str());
    let frac: u64 = magnitude % 10;
    if frac != 0 {
        s.append(".");
        s.append(digit_str(frac as u8));
    }
    s
}

/// String equality by contents.
pub fn str_eq(a: &str, b: &str) -> (r: bool)
    ensures
        r == (a@ == b@),
{
    a.to_owned().eq(&b.to_owned())
}

/// The boolean a string denotes.
pub open spec fn bool_literal(s: Seq<char>) -> Option<bool> {
    if s == "true"@ {
        Some(true)
    } else if s == "false"@ {
        Some(false)
    } else {
        None
    }
}

/// Parse `"true"` or `"false"`; any other string is refused.
pub fn parse_bool(s: &str) -> (r: Option<bool>)
    ensures
        r == bool_literal(s@),
{
    if str_eq(s, "true") {
        Some(true)
    } else if str_eq(s, "false") {
        Some(false)
    } else {
        None
    }
}

proof fn lemma_dec_value_nonneg(s: Seq<char>)
    requires
        all_digits(s),
    ensures
        dec_value(s) >= 0,
    decreases s.len(),
{
    if s.len() > 0 {
        assert(all_digits(s.drop_last())) by {
            assert(forall|i: int|
                0 <= i < s.drop_last().len() ==> #[trigger] s.drop_last()[i] == s[i]);
        }
        lemma_dec_value_nonneg(s.drop_last());
    }
}

/// A digit string is worth at least any of its prefixes.
proof fn lemma_dec_value_take(s: Seq<char>, k: int)
    requires
        all_digits(s),
        0 <= k <= s.len(),
    ensures
        dec_value(s.take(k)) <= dec_value(s),
    decreases s.len(),
{
    if k == s.len() {
        assert(s.take(k) =~= s);
    } else {
        assert(all_digits(s.drop_last())) by {
            assert(forall|i: int|
                0 <= i < s.drop_last().len() ==> #[trigger] s.drop_last()[i] == s[i]);
        }
        assert(s.drop_last().take(k) =~= s.take(k));
        lemma_dec_value_take(s.drop_last(), k);
        lemma_dec_value_nonneg(s.drop_last());
    }
}

proof fn lemma_non_ascii_no_int_literal(s: Seq<char>)
    requires
        !vstd::utf8::is_ascii_chars(s),
    ensures
        int_literal(s) is None,
{
    let i = choose|i| 0 <= i < s.len() && !('\0' <= #[trigger] s[i] <= '\u{7f}');
    assert(!is_dec_digit(s[i]));
    if s.len() >= 2 && s[0] == '-' && all_digits(s.skip(1)) {
        assert('\0' <= '-' <= '\u{7f}');
        assert(i >= 1);
        assert(s.skip(1)[i - 1] == s[i]);
        assert(false);
    }
}

/// Parse a signed decimal integer.  Returns `None` exactly when the
/// string does not denote an integer or the integer does not fit in an
/// `i64`.
pub fn parse_i64(s: &str) -> (r: Option<i64>)
    ensures
        match r {
            Some(v) => int_literal(s@) == Some(v as int),
            None => match int_literal(s@) {
                Some(v) => v < i64::MIN || v > i64::MAX,
                None => true,
            },
        },
{
    broadcast use vstd::string::is_ascii_spec_bytes;

    if !s.is_ascii() {
        proof {
            lemma_non_ascii_no_int_literal(s@);
        }
        return None;
    }
    let b: &[u8] = s.as_bytes();
    let n: usize = b.len();
    if n == 0 {
        return None;
    }
    let neg: bool = b[0] == 45;
    proof {
        assert(('-' as int) == 45);
        assert(b@[0] == s@[0] as u8);
        assert(neg == (s@[0] == '-'));
    }
    let start: usize = if neg {
        1
    } else {
        0
    };
    if n == start {
        // the string is just a minus sign
        proof {
            assert(!is_dec_digit('-'));
            assert(!all_digits(s@));
        }
        return None;
    }
    let ghost digs: Seq<char> = s@.subrange(start as int, n as int);
    proof {
        if neg {
            assert(digs =~= s@.skip(1));
        } else {
            assert(digs =~= s@);
        }
    }
    let mut i: usize = start;
    let mut acc: u64 = 0;
    while i < n
        invariant
            vstd::utf8::is_ascii_chars(s@),
            b@.len() == s@.len(),
            forall|j: int| 0 <= j < s@.len() ==> #[trigger] b@[j] == s@[j] as u8,
            n == s@.len(),
            start <= i <= n,
            start <= 1,
            n >= start + 1,
            neg <==> s@[0] == '-',
            neg ==> start == 1 && digs == s@.skip(1),
            !neg ==> start == 0 && digs == s@,
            digs == s@.subrange(start as int, n as int),
            forall|j: int| 0 <= j < i - start ==> is_dec_digit(#[trigger] digs[j]),
            acc as int == dec_value(digs.take(i - start)),
        decreases n - i,
    {
        let c: u8 = b[i];
        proof {
            assert(s@[i as int] as int <= 127);
            assert(c as int == s@[i as int] as int);
            assert(digs[i - start] == s@[i as int]);
        }
        if c < 48 || c > 57 {
            proof {
                assert(('0' as int) == 48 && ('9' as int) == 57);
                assert(!is_dec_digit(digs[i - start]));
                if neg {
                    assert(!all_digits(s@.skip(1)));
                    assert(!is_dec_digit('-'));
                    assert(!all_digits(s@));
                } else {
                    assert(!all_digits(s@));
                    if s@.len() >= 2 && s@[0] == '-' && all_digits(s@.skip(1)) {
                        assert(false);
                    }
                }
            }
            return None;
        }
        let d: u64 = (c - 48) as u64;
        proof {
            assert(is_dec_digit(digs[i - start]));
            assert(d as int == digit_value(digs[i - start]));
        }
        if acc > (u64::MAX - d) / 10 {
            // the value no longer fits in 64 bits, so it cannot fit in an i64
            proof {
                let pre = digs.take(i - start + 1);
                assert(pre.drop_last() =~= digs.take(i - start));
                assert(pre.last() == digs[i - start]);
                assert(acc * 10 + d > u64::MAX) by (nonlinear_arith)
                    requires
                        acc > (u64::MAX - d) / 10,
                        d <= 9,
                ;
                assert(dec_value(pre) == acc * 10 + d);
                if neg {
                    if s@.len() >= 2 && s@[0] == '-' && all_digits(s@.skip(1)) {
                        lemma_dec_value_take(digs, i - start + 1);
                    }
                } else {
                    if s@.len() >= 1 && all_digits(s@) {
                        lemma_dec_value_take(digs, i - start + 1);
                    }
                }
            }
            return None;
        }
        proof {
            assert(acc * 10 + d <= u64::MAX) by (nonlinear_arith)
                requires
                    acc <= (u64::MAX - d) / 10,
                    d <= 9,
            ;
            let pre = digs.take(i - start + 1);
            assert(pre.drop_last() =~= digs.take(i - start));
            assert(pre.last() == digs[i - start]);
        }
        acc = acc * 10 + d;
        i += 1;
    }
    proof {
        assert(digs.take(n - start) =~= digs);
        assert(all_digits(digs));
        if neg {
            assert(int_literal(s@) == Some(-dec_value(digs)));
        } else {
            if s@.len() >= 2 && s@[0] == '-' {
                assert(false);
            }
            assert(int_literal(s@) == Some(dec_value(digs)));
        }
    }
    if neg {
        if acc > 9223372036854775808u64 {
            return None;
        }
        if acc == 9223372036854775808u64 {
            return Some(i64::MIN);
        }
        Some(-(acc as i64))
    } else {
        if acc > 9223372036854775807u64 {
            return None;
        }
        Some(acc as i64)
    }
}

} // verus!
