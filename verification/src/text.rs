//! Texts as sequences of characters: comparison, and decimal numerals
//! written and read.

use vstd::prelude::*;

verus! {

/// The characters of a text, in order.
pub fn chars_of(s: &str) -> (v: Vec<char>)
    ensures
        v@ == s@,
{
    let mut v: Vec<char> = Vec::new();
    for c in it: s.chars()
        invariant
            v@ == it.seq().take(it.index() as int),
    {
        v.push(c);
    }
    v
}

/// Whether two texts hold the same characters.
pub fn same_text(a: &str, b: &str) -> (r: bool)
    ensures
        r == (a@ == b@),
{
    String::from_str(a) == String::from_str(b)
}

/// `text` in front of `rest`.
pub fn prepend(text: &str, rest: String) -> (r: String)
    ensures
        r@ == text@ + rest@,
{
    let mut r = String::from_str(text);
    r.append(rest.as_str());
    r
}

/// The decimal digit that stands for `d`, for `0 <= d <= 9`.
pub open spec fn digit(d: int) -> char {
    if d == 0 {
        '0'
    } else if d == 1 {
        '1'
    } else if d == 2 {
        '2'
    } else if d == 3 {
        '3'
    } else if d == 4 {
        '4'
    } else if d == 5 {
        '5'
    } else if d == 6 {
        '6'
    } else if d == 7 {
        '7'
    } else if d == 8 {
        '8'
    } else {
        '9'
    }
}

/// The decimal numeral of a natural number, without leading zeros.
pub open spec fn digits(n: nat) -> Seq<char>
    decreases n,
{
    if n < 10 {
        seq![digit(n as int)]
    } else {
        digits(n / 10).push(digit((n % 10) as int))
    }
}

/// The canonical decimal text of an integer: its numeral, after `-` where
/// it is negative.
pub open spec fn decimal(i: int) -> Seq<char> {
    if i < 0 {
        seq!['-'] + digits((-i) as nat)
    } else {
        digits(i as nat)
    }
}

/// A numeral is never empty.
pub proof fn lemma_digits_len(n: nat)
    ensures
        digits(n).len() > 0,
    decreases n,
{
    if n >= 10 {
        lemma_digits_len(n / 10);
    }
}

/// The canonical decimal text of an integer is never empty.
pub proof fn lemma_decimal_len(i: int)
    ensures
        decimal(i).len() > 0,
{
    if i < 0 {
        lemma_digits_len((-i) as nat);
    } else {
        lemma_digits_len(i as nat);
    }
}

fn digit_text(d: u64) -> (r: &'static str)
    requires
        d < 10,
    ensures
        r@ == seq![digit(d as int)],
{
    proof {
        reveal_strlit("0");
        reveal_strlit("1");
        reveal_strlit("2");
        reveal_strlit("3");
        reveal_strlit("4");
        reveal_strlit("5");
        reveal_strlit("6");
        reveal_strlit("7");
        reveal_strlit("8");
        reveal_strlit("9");
    }
    let r = if d == 0 {
        "0"
    } else if d == 1 {
        "1"
    } else if d == 2 {
        "2"
    } else if d == 3 {
        "3"
    } else if d == 4 {
        "4"
    } else if d == 5 {
        "5"
    } else if d == 6 {
        "6"
    } else if d == 7 {
        "7"
    } else if d == 8 {
        "8"
    } else {
        "9"
    };
    assert(r@ =~= seq![digit(d as int)]);
    r
}

/// The decimal numeral of `n`.
pub fn u64_to_string(n: u64) -> (r: String)
    ensures
        r@ == digits(n as nat),
{
    let mut out = String::from_str(digit_text(n % 10));
    let mut rest: u64 = n / 10;
    assert(n < 10 ==> out@ =~= digits(n as nat));
    while rest > 0
        invariant
            rest > 0 ==> digits(n as nat) == digits(rest as nat) + out@,
            rest == 0 ==> digits(n as nat) == out@,
        decreases rest,
    {
        let d: u64 = rest % 10;
        let ghost before = out@;
        out = prepend(digit_text(d), out);
        proof {
            assert(out@ =~= seq![digit(d as int)] + before);
            if rest >= 10 {
                assert(digits(rest as nat) =~= digits((rest / 10) as nat).push(digit(d as int)));
                assert(digits(n as nat) =~= digits((rest / 10) as nat) + out@);
            } else {
                assert(digits(rest as nat) =~= seq![digit(d as int)]);
                assert(digits(n as nat) =~= out@);
            }
        }
        rest = rest / 10;
    }
    out
}

/// The canonical decimal text of `i`.
pub fn i64_to_string(i: i64) -> (r: String)
    ensures
        r@ == decimal(i as int),
        r@.len() > 0,
{
    if i < 0 {
        let magnitude: u64 = (-(i + 1)) as u64 + 1;
        proof {
            reveal_strlit("-");
            lemma_digits_len(magnitude as nat);
            assert("-"@ =~= seq!['-']);
        }
        prepend("-", u64_to_string(magnitude))
    } else {
        proof {
            lemma_digits_len(i as nat);
        }
        u64_to_string(i as u64)
    }
}

/// Whether `c` is one of the ten decimal digits.
pub open spec fn is_digit(c: char) -> bool {
    '0' <= c && c <= '9'
}

/// The number that a decimal digit stands for.
pub open spec fn digit_value(c: char) -> int {
    c as int - '0' as int
}

/// Whether every character of `s` is a decimal digit.
pub open spec fn all_digits(s: Seq<char>) -> bool {
    forall|i: int| 0 <= i < s.len() ==> is_digit(#[trigger] s[i])
}

/// The number that a run of decimal digits stands for.
pub open spec fn digits_value(s: Seq<char>) -> nat
    decreases s.len(),
{
    if s.len() == 0 {
        0
    } else {
        (digits_value(s.drop_last()) * 10 + digit_value(s.last())) as nat
    }
}

/// The integer that `s` denotes, where `s` is an integer literal: an
/// optional `+` or `-` and then one or more decimal digits, nothing else.
pub open spec fn int_literal(s: Seq<char>) -> Option<int> {
    let signed = s.len() > 0 && (s[0] == '-' || s[0] == '+');
    let body = if signed {
        s.subrange(1, s.len() as int)
    } else {
        s
    };
    if body.len() > 0 && all_digits(body) {
        if s[0] == '-' {
            Some(-(digits_value(body) as int))
        } else {
            Some(digits_value(body) as int)
        }
    } else {
        None
    }
}

/// The integer that `s` denotes, where `s` is an integer literal whose value
/// fits in 64 bits with a sign.
pub open spec fn i64_literal(s: Seq<char>) -> Option<i64> {
    match int_literal(s) {
        Some(v) => if i64::MIN <= v <= i64::MAX {
            Some(v as i64)
        } else {
            None
        },
        None => None,
    }
}

/// A run of digits stands for at least as much as each of its prefixes.
pub proof fn lemma_digits_value_grows(s: Seq<char>, k: int)
    requires
        0 <= k <= s.len(),
        all_digits(s),
    ensures
        digits_value(s.take(k)) <= digits_value(s),
    decreases s.len() - k,
{
    if k < s.len() {
        lemma_digits_value_grows(s, k + 1);
        assert(s.take(k + 1).drop_last() =~= s.take(k));
        assert(is_digit(s[k]));
        assert(s.take(k + 1).last() == s[k]);
    } else {
        assert(s.take(k) =~= s);
    }
}

fn digit_of(c: char) -> (r: Option<u64>)
    ensures
        r is Some == is_digit(c),
        r is Some ==> r.unwrap() == digit_value(c),
{
    if '0' <= c && c <= '9' {
        Some((c as u32 - '0' as u32) as u64)
    } else {
        None
    }
}

/// Reads `field` as an integer literal of 64 bits with a sign.
#[verifier::loop_isolation(false)]
pub fn parse_i64(field: &str) -> (r: Option<i64>)
    ensures
        r == i64_literal(field@),
{
    let chars = chars_of(field);
    let n = chars.len();
    if n == 0 {
        return None;
    }
    let negative = chars[0] == '-';
    let start: usize = if chars[0] == '-' || chars[0] == '+' {
        1
    } else {
        0
    };
    let ghost body = chars@.subrange(start as int, n as int);
    assert(start == 0 ==> body =~= field@);
    if start == n {
        return None;
    }
    let limit: u64 = if negative {
        9223372036854775808
    } else {
        9223372036854775807
    };
    let mut acc: u64 = 0;
    let mut i: usize = start;
    while i < n
        invariant
            start <= i <= n,
            n == chars@.len(),
            body == chars@.subrange(start as int, n as int),
            all_digits(body.take(i - start)),
            acc == digits_value(body.take(i - start)),
            acc <= limit,
            limit <= 9223372036854775808,
        decreases n - i,
    {
        let ghost prefix = body.take(i - start);
        let ghost next = body.take(i + 1 - start);
        proof {
            assert(next.drop_last() =~= prefix);
            assert(next.last() == chars@[i as int]);
        }
        match digit_of(chars[i]) {
            None => {
                assert(!is_digit(body[i - start]));
                return None;
            },
            Some(d) => {
                assert(is_digit(chars@[i as int]));
                assert(d <= 9);
                assert(all_digits(next));
                if acc > (limit - d) / 10 {
                    proof {
                        assert(digits_value(next) > limit);
                        if all_digits(body) {
                            lemma_digits_value_grows(body, i + 1 - start);
                        }
                    }
                    return None;
                }
                acc = acc * 10 + d;
            },
        }
        i += 1;
    }
    assert(body.take(n - start) =~= body);
    if negative {
        if acc == 9223372036854775808 {
            Some(i64::MIN)
        } else {
            Some(-(acc as i64))
        }
    } else {
        Some(acc as i64)
    }
}

} // verus!
