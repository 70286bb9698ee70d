//! Whole numbers written in decimal.
use crate::text::{chars_of, has_prefix, starts_with, text_from};
use vstd::prelude::*;

verus! {

/// The character of a decimal digit.
pub open spec fn digit_char(d: nat) -> char {
    ((48 + d) as u8) as char
}

/// Whether `c` is one of `0` to `9`.
pub open spec fn is_digit(c: char) -> bool {
    '0' <= c <= '9'
}

/// The decimal digits of `n`, without leading zeros.
pub open spec fn decimal(n: nat) -> Seq<char>
    decreases n,
{
    if n < 10 {
        seq![digit_char(n)]
    } else {
        decimal(n / 10).push(digit_char(n % 10))
    }
}

/// The decimal digits of `n`.
pub fn decimal_text(n: u64) -> (r: String)
    ensures
        r@ == decimal(n as nat),
    decreases n,
{
    let digit: u8 = (n % 10) as u8;
    let mut out = if n < 10 {
        String::new()
    } else {
        decimal_text(n / 10)
    };
    out.push((48 + digit) as char);
    out
}

/// The number that a text of digits stands for.
pub open spec fn digits_value(s: Seq<char>) -> nat
    decreases s.len(),
{
    if s.len() == 0 {
        0
    } else {
        10 * digits_value(s.drop_last()) + ((s.last() as nat) - 48) as nat
    }
}

/// Whether `s` is one digit or more, and nothing else.
pub open spec fn all_digits(s: Seq<char>) -> bool {
    s.len() > 0 && forall|i: int| 0 <= i < s.len() ==> is_digit(#[trigger] s[i])
}

/// A text read as a number with an optional sign: digits, after at most one
/// `+` or `-`.
pub open spec fn signed_value(s: Seq<char>) -> Option<int> {
    if has_prefix(s, seq!['-']) {
        if all_digits(s.skip(1)) {
            Some(-(digits_value(s.skip(1)) as int))
        } else {
            None
        }
    } else {
        match unsigned_value(s) {
            Some(n) => Some(n as int),
            None => None,
        }
    }
}

/// A text read as a number without a minus sign: digits, after at most one `+`.
pub open spec fn unsigned_value(s: Seq<char>) -> Option<nat> {
    let d = if has_prefix(s, seq!['+']) {
        s.skip(1)
    } else {
        s
    };
    if all_digits(d) {
        Some(digits_value(d))
    } else {
        None
    }
}

proof fn lemma_digits_grow(s: Seq<char>, i: int)
    requires
        0 <= i <= s.len(),
    ensures
        digits_value(s.take(i)) <= digits_value(s),
    decreases s.len() - i,
{
    if i == s.len() {
        assert(s.take(i) == s);
    } else {
        lemma_digits_grow(s, i + 1);
        assert(s.take(i + 1).drop_last() == s.take(i));
    }
}

/// Reads digits as a number of at most `max`; nothing where a character is not
/// a digit, where there is none, or where the number is larger.
fn parse_digits(s: &str, max: u64) -> (r: Option<u64>)
    ensures
        r is Some <==> all_digits(s@) && digits_value(s@) <= max,
        r matches Some(n) ==> n == digits_value(s@),
{
    let chars = chars_of(s);
    if chars.len() == 0 {
        return None;
    }
    let mut total: u64 = 0;
    let mut i: usize = 0;
    while i < chars.len()
        invariant
            i <= chars@.len(),
            chars@ == s@,
            forall|j: int| 0 <= j < i ==> is_digit(#[trigger] s@[j]),
            total == digits_value(s@.take(i as int)),
            total <= max,
        decreases chars@.len() - i,
    {
        let c: char = chars[i];
        if !('0' <= c && c <= '9') {
            assert(!is_digit(s@[i as int]));
            return None;
        }
        let d: u64 = (c as u32 - 48) as u64;
        assert(s@.take(i + 1).drop_last() == s@.take(i as int));
        proof {
            lemma_digits_grow(s@, i + 1);
        }
        if d > max || total > (max - d) / 10 {
            return None;
        }
        total = total * 10 + d;
        i += 1;
    }
    assert(s@.take(s@.len() as int) == s@);
    Some(total)
}

/// Reads a number without a minus sign; nothing where the text is not one or
/// where it does not fit.
pub fn parse_u64(s: &str) -> (r: Option<u64>)
    ensures
        r is Some <==> (unsigned_value(s@) matches Some(n) && n <= u64::MAX),
        r matches Some(n) ==> unsigned_value(s@) == Some(n as nat),
{
    proof {
        reveal_strlit("+");
        assert("+"@ =~= seq!['+']);
    }
    if starts_with(s, "+") {
        parse_digits(text_from(s, 1), u64::MAX)
    } else {
        parse_digits(s, u64::MAX)
    }
}

/// Reads a number with an optional sign; nothing where the text is not one or
/// where it does not fit.
pub fn parse_i64(s: &str) -> (r: Option<i64>)
    ensures
        r is Some <==> (signed_value(s@) matches Some(n) && i64::MIN <= n <= i64::MAX),
        r matches Some(n) ==> signed_value(s@) == Some(n as int),
{
    proof {
        reveal_strlit("-");
        assert("-"@ =~= seq!['-']);
    }
    if starts_with(s, "-") {
        match parse_digits(text_from(s, 1), 0x8000_0000_0000_0000) {
            Some(n) => if n == 0x8000_0000_0000_0000 {
                Some(i64::MIN)
            } else {
                Some(-(n as i64))
            },
            None => None,
        }
    } else {
        match parse_u64(s) {
            Some(n) => if n <= 0x7fff_ffff_ffff_ffff {
                Some(n as i64)
            } else {
                None
            },
            None => None,
        }
    }
}

proof fn lemma_decimal_digits(n: nat)
    ensures
        all_digits(decimal(n)),
        digits_value(decimal(n)) == n,
    decreases n,
{
    if n < 10 {
        assert(decimal(n).drop_last() =~= seq![]);
        assert(digits_value(decimal(n).drop_last()) == 0);
    } else {
        lemma_decimal_digits(n / 10);
        assert(decimal(n).drop_last() =~= decimal(n / 10));
    }
}

/// Reading back a number that was written in decimal gives that number.
pub proof fn law_decimal_reads_back(n: nat)
    ensures
        unsigned_value(decimal(n)) == Some(n),
        signed_value(decimal(n)) == Some(n as int),
{
    lemma_decimal_digits(n);
    let s = decimal(n);
    assert(is_digit(s[0]));
    if has_prefix(s, seq!['+']) {
        assert(s.take(1)[0] == '+');
    }
    if has_prefix(s, seq!['-']) {
        assert(s.take(1)[0] == '-');
    }
}

/// Two numbers that are written alike are the same.
pub proof fn law_decimal_injective(m: nat, n: nat)
    requires
        decimal(m) == decimal(n),
    ensures
        m == n,
{
    lemma_decimal_digits(m);
    lemma_decimal_digits(n);
}

/// A number is written in digits, without a zero before others.
pub proof fn law_decimal_is_plain(n: nat)
    ensures
        all_digits(decimal(n)),
        decimal(n).len() > 1 ==> decimal(n)[0] != '0',
        n < 10 ==> decimal(n).len() == 1,
    decreases n,
{
    lemma_decimal_digits(n);
    if n >= 10 {
        law_decimal_is_plain(n / 10);
        assert(decimal(n)[0] == decimal(n / 10)[0]);
        if n / 10 < 10 {
            assert(decimal(n / 10) =~= seq![digit_char(n / 10)]);
            assert(1 <= n / 10 <= 9);
            assert(digit_char(n / 10) as nat == 48 + n / 10);
        } else {
            lemma_longer(n / 10);
        }
    }
}

proof fn lemma_longer(n: nat)
    requires
        n >= 10,
    ensures
        decimal(n).len() > 1,
{
    lemma_decimal_digits(n / 10);
}

/// Digits are read as a number in tens, with a sign before them or none; zeros before
/// them make no difference. A minus sign makes the number negative.
pub proof fn law_digits_are_read(s: Seq<char>, c: char)
    requires
        all_digits(s),
        is_digit(c),
    ensures
        unsigned_value(s) matches Some(n) && unsigned_value(s.push(c)) == Some(
            (10 * n + (c as nat - 48)) as nat,
        ) && unsigned_value(seq!['+'] + s) == Some(n) && signed_value(seq!['-'] + s) == Some(
            -(n as int),
        ) && signed_value(s) == Some(n as int),
        unsigned_value(seq![c]) == Some((c as nat - 48) as nat),
        unsigned_value(seq!['-'] + s) is None,
{
    let t = s.push(c);
    assert(is_digit(s[0]));
    assert forall|i: int| 0 <= i < t.len() implies is_digit(#[trigger] t[i]) by {
        if i < s.len() {
            assert(t[i] == s[i]);
        }
    }
    assert(t.drop_last() =~= s);
    lemma_no_sign(s);
    lemma_no_sign(t);
    let one = seq![c];
    lemma_no_sign(one);
    assert(one.drop_last() =~= seq![]);
    assert(digits_value(one.drop_last()) == 0);
    let plus = seq!['+'] + s;
    assert(plus.take(1) =~= seq!['+']);
    assert(plus.skip(1) =~= s);
    let minus = seq!['-'] + s;
    assert(minus.take(1) =~= seq!['-']);
    assert(minus.skip(1) =~= s);
    if has_prefix(minus, seq!['+']) {
        assert(minus.take(1)[0] == '+');
    }
    assert(minus[0] == '-');
    assert(!is_digit(minus[0]));
}

proof fn lemma_no_sign(s: Seq<char>)
    requires
        s.len() > 0,
        is_digit(s[0]),
    ensures
        !has_prefix(s, seq!['+']),
        !has_prefix(s, seq!['-']),
{
    if has_prefix(s, seq!['+']) {
        assert(s.take(1)[0] == '+');
    }
    if has_prefix(s, seq!['-']) {
        assert(s.take(1)[0] == '-');
    }
}

} // verus!
