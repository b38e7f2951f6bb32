//! Decimal text: the value of a run of digits, the parse rule of unsigned
//! integers, and the decimal writing of a number.
use vstd::prelude::*;

verus! {

/// `c` is one of the ASCII digits `0`..`9`.
pub open spec fn is_digit(c: char) -> bool {
    '0' <= c && c <= '9'
}

/// The value of the ASCII digit `c`.
pub open spec fn digit_value(c: char) -> nat {
    (c as int - '0' as int) as nat
}

/// Every character of `s` is an ASCII digit.
pub open spec fn all_digits(s: Seq<char>) -> bool {
    forall|i: int| 0 <= i < s.len() ==> is_digit(#[trigger] s[i])
}

/// The number that the digits `s` write in base ten (0 for no digit).
pub open spec fn digits_value(s: Seq<char>) -> nat
    decreases s.len(),
{
    if s.len() == 0 {
        0
    } else {
        digits_value(s.drop_last()) * 10 + digit_value(s.last())
    }
}

/// What std's `str::parse` gives for an unsigned integer type whose largest
/// value is `max`: an optional leading `+`, then at least one digit and
/// nothing else, and a value that fits.
pub open spec fn parse_unsigned(s: Seq<char>, max: nat) -> Option<nat> {
    let d = if s.len() > 0 && s[0] == '+' { s.drop_first() } else { s };
    if d.len() > 0 && all_digits(d) && digits_value(d) <= max {
        Some(digits_value(d))
    } else {
        None
    }
}

/// The ASCII digit whose value is `d` (for `d < 10`).
pub open spec fn digit_char(d: nat) -> char {
    (d + '0' as nat) as char
}

/// The decimal writing of `n`, without leading zeros.
pub open spec fn decimal(n: nat) -> Seq<char>
    decreases n,
{
    if n < 10 {
        seq![digit_char(n)]
    } else {
        decimal(n / 10).push(digit_char(n % 10))
    }
}

proof fn lemma_digit_char(d: nat)
    requires
        d < 10,
    ensures
        is_digit(digit_char(d)),
        digit_value(digit_char(d)) == d,
        digit_char(d) != '+',
{
}

/// The decimal writing of `n` is digits only, at least one, and their value
/// is `n`.
pub proof fn decimal_digits(n: nat)
    ensures
        decimal(n).len() > 0,
        all_digits(decimal(n)),
        digits_value(decimal(n)) == n,
    decreases n,
{
    if n < 10 {
        lemma_digit_char(n);
        assert(seq![digit_char(n)].drop_last() =~= Seq::<char>::empty());
        assert(digits_value(Seq::<char>::empty()) == 0);
        assert(digits_value(decimal(n)) == digits_value(Seq::<char>::empty()) * 10 + digit_value(
            digit_char(n),
        ));
    } else {
        decimal_digits(n / 10);
        lemma_digit_char(n % 10);
        let p = decimal(n / 10);
        let q = p.push(digit_char(n % 10));
        assert(q.drop_last() =~= p);
        assert(digits_value(q) == digits_value(p) * 10 + digit_value(digit_char(n % 10)));
        assert(n == (n / 10) * 10 + n % 10);
        assert forall|i: int| 0 <= i < q.len() implies is_digit(#[trigger] q[i]) by {
            if i < p.len() {
                assert(q[i] == p[i]);
            }
        }
    }
}

/// A number written in decimal parses back to itself, as std's `parse`
/// reads it, wherever it fits.
pub proof fn decimal_parses_back(n: nat, max: nat)
    requires
        n <= max,
    ensures
        parse_unsigned(decimal(n), max) == Some(n),
{
    decimal_digits(n);
    let d = decimal(n);
    assert(is_digit(d[0]));
}

/// std's `String::push`: appends the character `c` to the end of `s`.
#[verifier::external_body]
pub(crate) fn push_char(s: &mut String, c: char)
    ensures
        final(s)@ == old(s)@.push(c),
{
    s.push(c);
}

/// Appends the decimal writing of `n` to `s`.
pub fn push_decimal(s: &mut String, n: u64)
    ensures
        final(s)@ == old(s)@ + decimal(n as nat),
    decreases n,
{
    if n >= 10 {
        push_decimal(s, n / 10);
    }
    let d: u64 = n % 10;
    let c = digit_to_char(d);
    push_char(s, c);
    proof {
        assert(old(s)@ + decimal(n as nat) =~= old(s)@ + decimal((n / 10) as nat) + seq![c]
            || n < 10);
    }
}

fn digit_to_char(d: u64) -> (c: char)
    requires
        d < 10,
    ensures
        c == digit_char(d as nat),
        is_digit(c),
        digit_value(c) == d,
{
    let c: char = match d {
        0 => '0',
        1 => '1',
        2 => '2',
        3 => '3',
        4 => '4',
        5 => '5',
        6 => '6',
        7 => '7',
        8 => '8',
        _ => '9',
    };
    c
}

/// The decimal writing of `n` as a new string.
pub fn to_decimal(n: u64) -> (s: String)
    ensures
        s@ == decimal(n as nat),
{
    let mut s = String::new();
    push_decimal(&mut s, n);
    assert(s@ =~= decimal(n as nat));
    s
}


proof fn lemma_value_push(p: Seq<char>, c: char)
    ensures
        digits_value(p.push(c)) == digits_value(p) * 10 + digit_value(c),
{
    assert(p.push(c).drop_last() =~= p);
}

/// std's `str::parse::<u64>`: an optional leading `+`, then only digits, at
/// least one, with a value that fits in a `u64`; `None` where std gives an
/// error.
#[verifier::rlimit(40)]
pub fn parse_u64(s: &str) -> (r: Option<u64>)
    ensures
        r matches Some(v) ==> parse_unsigned(s@, u64::MAX as nat) == Some(v as nat),
        r is None ==> parse_unsigned(s@, u64::MAX as nat) is None,
{
    let n = s.unicode_len();
    let start: usize = if n > 0 && s.get_char(0) == '+' { 1 } else { 0 };
    let ghost d = if s@.len() > 0 && s@[0] == '+' { s@.drop_first() } else { s@ };
    if start == n {
        return None;
    }
    let mut v: u64 = 0;
    let mut too_big = false;
    let mut i: usize = start;
    proof {
        assert(d.take(0) =~= Seq::<char>::empty());
    }
    while i < n
        invariant
            n == s@.len(),
            start <= i <= n,
            d.len() == n - start,
            d == (if s@.len() > 0 && s@[0] == '+' { s@.drop_first() } else { s@ }),
            forall|k: int| 0 <= k < d.len() ==> d[k] == s@[k + start],
            all_digits(d.take(i - start)),
            too_big == (digits_value(d.take(i - start)) > u64::MAX),
            !too_big ==> v == digits_value(d.take(i - start)),
        decreases n - i,
    {
        let c = s.get_char(i);
        let ghost j: int = i - start;
        if !('0' <= c && c <= '9') {
            proof {
                assert(d[j] == c);
                assert(!is_digit(d[j]));
                assert(!all_digits(d));
            }
            return None;
        }
        proof {
            assert(d.take(j + 1) =~= d.take(j).push(c));
            lemma_value_push(d.take(j), c);
            assert forall|k: int| 0 <= k < d.take(j + 1).len() implies is_digit(
                #[trigger] d.take(j + 1)[k],
            ) by {
                if k < j {
                    assert(d.take(j + 1)[k] == d.take(j)[k]);
                }
            }
        }
        if !too_big {
            let digit: u64 = (c as u64) - ('0' as u64);
            proof {
                assert(v > (u64::MAX - digit) / 10 <==> v * 10 + digit > u64::MAX)
                    by (nonlinear_arith)
                    requires
                        digit < 10,
                ;
            }
            if v > (u64::MAX - digit) / 10 {
                too_big = true;
            } else {
                v = v * 10 + digit;
            }
        }
        i = i + 1;
    }
    proof {
        assert(d.take(n - start) =~= d);
    }
    if too_big {
        None
    } else {
        Some(v)
    }
}

} // verus!
