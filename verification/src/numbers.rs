//! Decimal integers read from text the way `str::parse` reads them.

use vstd::prelude::*;

use crate::text::{chars_of, decimal, digit_char, signed_decimal};

verus! {

/// Whether `c` is an ASCII decimal digit.
pub open spec fn is_digit(c: char) -> bool {
    '0' <= c <= '9'
}

/// The value of a run of decimal digits.
pub open spec fn digits_value(s: Seq<char>) -> nat
    decreases s.len(),
{
    if s.len() == 0 {
        0
    } else {
        digits_value(s.drop_last()) * 10 + (s.last() as int - '0' as int) as nat
    }
}

/// Whether `s` is a non-empty run of decimal digits.
pub open spec fn is_digit_run(s: Seq<char>) -> bool {
    s.len() > 0 && forall|i: int| 0 <= i < s.len() ==> is_digit(#[trigger] s[i])
}

/// The value of `s` read as an unsigned number: an optional `+`, then one or
/// more digits. `None` when `s` has any other shape.
pub open spec fn unsigned_value(s: Seq<char>) -> Option<nat> {
    let body = if s.len() > 0 && s[0] == '+' {
        s.drop_first()
    } else {
        s
    };
    if is_digit_run(body) {
        Some(digits_value(body))
    } else {
        None
    }
}

/// The value of `s` read as a signed number: an optional `+` or `-`, then
/// one or more digits.
pub open spec fn signed_value(s: Seq<char>) -> Option<int> {
    if s.len() > 0 && s[0] == '-' {
        if is_digit_run(s.drop_first()) {
            Some(-digits_value(s.drop_first()))
        } else {
            None
        }
    } else {
        match unsigned_value(s) {
            Some(v) => Some(v as int),
            None => None,
        }
    }
}

/// What `str::parse::<usize>` gives: the value when it fits in a `usize`.
pub open spec fn parse_usize_spec(s: Seq<char>) -> Option<usize> {
    match unsigned_value(s) {
        Some(v) => if v <= usize::MAX {
            Some(v as usize)
        } else {
            None
        },
        None => None,
    }
}

/// What `str::parse::<i64>` gives: the value when it fits in an `i64`.
pub open spec fn parse_i64_spec(s: Seq<char>) -> Option<i64> {
    match signed_value(s) {
        Some(v) => if i64::MIN <= v <= i64::MAX {
            Some(v as i64)
        } else {
            None
        },
        None => None,
    }
}

proof fn lemma_digits_value_grows(s: Seq<char>, j: int, k: int)
    requires
        0 <= j <= k <= s.len(),
    ensures
        digits_value(s.subrange(0, j)) <= digits_value(s.subrange(0, k)),
    decreases k - j,
{
    if j < k {
        lemma_digits_value_grows(s, j, k - 1);
        assert(s.subrange(0, k).drop_last() =~= s.subrange(0, k - 1));
    }
}

/// Reads the digits `chars[from..]` as a number no larger than `limit`.
fn digits_at_most(chars: &Vec<char>, from: usize, limit: u64) -> (r: Option<u64>)
    requires
        from <= chars.len(),
    ensures
        ({
            let body = chars@.subrange(from as int, chars.len() as int);
            match r {
                Some(v) => is_digit_run(body) && v == digits_value(body) && v <= limit,
                None => !is_digit_run(body) || digits_value(body) > limit,
            }
        }),
{
    let ghost body = chars@.subrange(from as int, chars.len() as int);
    let n = chars.len();
    if from == n {
        return None;
    }
    let mut value: u64 = 0;
    let mut i = from;
    assert(body.subrange(0, 0) =~= Seq::<char>::empty());
    while i < n
        invariant
            from <= i <= n == chars.len(),
            body == chars@.subrange(from as int, n as int),
            value == digits_value(body.subrange(0, i - from)),
            value <= limit,
            forall|k: int| 0 <= k < i - from ==> is_digit(#[trigger] body[k]),
        decreases n - i,
    {
        let c = chars[i];
        assert(body[i - from] == c);
        if !('0' <= c && c <= '9') {
            return None;
        }
        let d = (c as u32 - 48) as u64;
        assert(body.subrange(0, i - from + 1).drop_last() =~= body.subrange(0, i - from));
        if d > limit || value > (limit - d) / 10 {
            proof {
                if d <= limit {
                    assert(value * 10 + d > limit) by (nonlinear_arith)
                        requires
                            value > (limit - d) / 10,
                            d <= limit,
                    ;
                }
                lemma_digits_value_grows(body, i - from + 1, body.len() as int);
                assert(body.subrange(0, body.len() as int) =~= body);
            }
            return None;
        }
        assert(value * 10 + d <= limit) by (nonlinear_arith)
            requires
                value <= (limit - d) / 10,
                d <= limit,
        ;
        value = value * 10 + d;
        i = i + 1;
    }
    assert(body.subrange(0, n - from) =~= body);
    Some(value)
}


/// Reads `s` as a `usize`, as `str::parse::<usize>` does.
pub fn parse_usize(s: &str) -> (r: Option<usize>)
    ensures
        r == parse_usize_spec(s@),
{
    let chars = chars_of(s);
    let from: usize = if chars.len() > 0 && chars[0] == '+' {
        1
    } else {
        0
    };
    assert(chars@.subrange(from as int, chars.len() as int) =~= (if s@.len() > 0 && s@[0] == '+' {
        s@.drop_first()
    } else {
        s@
    }));
    match digits_at_most(&chars, from, usize::MAX as u64) {
        Some(v) => Some(v as usize),
        None => None,
    }
}

/// Reads `s` as an `i64`, as `str::parse::<i64>` does.
pub fn parse_i64(s: &str) -> (r: Option<i64>)
    ensures
        r == parse_i64_spec(s@),
{
    let chars = chars_of(s);
    if chars.len() > 0 && chars[0] == '-' {
        assert(chars@.subrange(1, chars.len() as int) =~= s@.drop_first());
        match digits_at_most(&chars, 1, 0x8000_0000_0000_0000u64) {
            Some(v) => if v == 0x8000_0000_0000_0000u64 {
                Some(i64::MIN)
            } else {
                Some(-(v as i64))
            },
            None => None,
        }
    } else {
        let from: usize = if chars.len() > 0 && chars[0] == '+' {
            1
        } else {
            0
        };
        assert(chars@.subrange(from as int, chars.len() as int) =~= (if s@.len() > 0 && s@[0]
            == '+' {
            s@.drop_first()
        } else {
            s@
        }));
        match digits_at_most(&chars, from, i64::MAX as u64) {
            Some(v) => Some(v as i64),
            None => None,
        }
    }
}


/// Decimal notation reads back: the notation of `n` is a run of digits whose
/// value is `n`.
pub proof fn lemma_decimal_reads_back(n: nat)
    ensures
        is_digit_run(decimal(n)),
        digits_value(decimal(n)) == n,
        unsigned_value(decimal(n)) == Some(n),
    decreases n,
{
    let s = decimal(n);
    if n < 10 {
        assert(s == seq![digit_char(n)]);
        assert(digit_char(n) as int == '0' as int + n);
        assert(s.drop_last() =~= Seq::<char>::empty());
        assert(digits_value(s.drop_last()) == 0);
        assert(digits_value(s) == digits_value(s.drop_last()) * 10 + (s.last() as int - '0' as int) as nat);
    } else {
        lemma_decimal_reads_back(n / 10);
        let d = (n % 10) as nat;
        assert(s == decimal(n / 10).push(digit_char(d)));
        assert(digit_char(d) as int == '0' as int + d);
        assert(s.drop_last() =~= decimal(n / 10));
        assert(s.last() == digit_char(d));
        assert(digits_value(s) == digits_value(s.drop_last()) * 10 + (s.last() as int - '0' as int) as nat);
        assert(digits_value(s) == (n / 10) * 10 + d);
        assert forall|i: int| 0 <= i < s.len() implies is_digit(#[trigger] s[i]) by {
            if i < s.len() - 1 {
                assert(s[i] == decimal(n / 10)[i]);
            }
        }
    }
    assert(s[0] != '+');
    assert(is_digit_run(s));
}

/// Signed decimal notation reads back: read as a signed number, the
/// notation of `n` is `n`.
pub proof fn lemma_signed_decimal_reads_back(n: int)
    ensures
        signed_value(signed_decimal(n)) == Some(n),
{
    if n < 0 {
        let m = (-n) as nat;
        lemma_decimal_reads_back(m);
        let s = signed_decimal(n);
        assert(s == seq!['-'] + decimal(m));
        assert(s.drop_first() =~= decimal(m));
    } else {
        lemma_decimal_reads_back(n as nat);
        assert(decimal(n as nat)[0] != '-');
    }
}


/// Parsing undoes writing: the decimal notation of any `usize` parses back
/// to it, and so does the signed notation of any `i64`.
pub proof fn lemma_parse_reads_notation(n: usize, v: i64)
    ensures
        parse_usize_spec(decimal(n as nat)) == Some(n),
        parse_i64_spec(signed_decimal(v as int)) == Some(v),
{
    lemma_decimal_reads_back(n as nat);
    lemma_signed_decimal_reads_back(v as int);
}

/// A text parses only when it is an optional sign and a run of digits, and
/// then to the value of those digits: anything else (white space, other
/// characters, an empty text, a lone sign) is refused.
pub proof fn lemma_parse_needs_digits(s: Seq<char>)
    ensures
        parse_usize_spec(s) matches Some(n) ==> ({
            let body = if s[0] == '+' { s.drop_first() } else { s };
            &&& s.len() > 0
            &&& forall|i: int| 0 <= i < body.len() ==> '0' <= #[trigger] body[i] <= '9'
            &&& body.len() > 0
            &&& digits_value(body) == n
        }),
        parse_i64_spec(s) matches Some(v) ==> ({
            let body = if s[0] == '+' || s[0] == '-' { s.drop_first() } else { s };
            &&& s.len() > 0
            &&& forall|i: int| 0 <= i < body.len() ==> '0' <= #[trigger] body[i] <= '9'
            &&& body.len() > 0
            &&& (if s[0] == '-' { -digits_value(body) } else { digits_value(body) as int }) == v
        }),
{
}

} // verus!
