//! Reading and writing decimal numbers.
use vstd::prelude::*;

use crate::text::to_chars;

verus! {

/// Whether `c` is one of the ten ASCII digits.
pub open spec fn is_digit(c: char) -> bool {
    '0' <= c <= '9'
}

/// The number that a run of digits spells.
pub open spec fn digits_value(s: Seq<char>) -> nat
    decreases s.len(),
{
    if s.len() == 0 {
        0
    } else {
        digits_value(s.drop_last()) * 10 + (s.last() as nat - '0' as nat) as nat
    }
}

/// The value of a non-empty run of digits; `None` for anything else.
pub open spec fn magnitude(s: Seq<char>) -> Option<nat> {
    if s.len() > 0 && forall|i: int| 0 <= i < s.len() ==> is_digit(#[trigger] s[i]) {
        Some(digits_value(s))
    } else {
        None
    }
}

/// An optional `+` and digits.
pub open spec fn unsigned_value(s: Seq<char>) -> Option<nat> {
    if s.len() > 0 && s[0] == '+' {
        magnitude(s.skip(1))
    } else {
        magnitude(s)
    }
}

/// An optional sign and digits.
pub open spec fn signed_value(s: Seq<char>) -> Option<int> {
    if s.len() > 0 && s[0] == '-' {
        match magnitude(s.skip(1)) {
            Some(v) => Some(-v),
            None => None,
        }
    } else {
        match unsigned_value(s) {
            Some(v) => Some(v as int),
            None => None,
        }
    }
}

/// The unsigned number that `s` spells, if it spells one no larger than
/// `max`.
pub open spec fn unsigned_up_to(s: Seq<char>, max: int) -> Option<int> {
    match unsigned_value(s) {
        Some(v) => if v <= max {
            Some(v as int)
        } else {
            None
        },
        None => None,
    }
}

/// The signed number that `s` spells, if it lies within `min..=max`.
pub open spec fn signed_within(s: Seq<char>, min: int, max: int) -> Option<int> {
    match signed_value(s) {
        Some(v) => if min <= v <= max {
            Some(v)
        } else {
            None
        },
        None => None,
    }
}

proof fn lemma_digits_prefix(s: Seq<char>, n: int)
    requires
        0 <= n <= s.len(),
        forall|i: int| 0 <= i < s.len() ==> is_digit(#[trigger] s[i]),
    ensures
        digits_value(s.take(n)) <= digits_value(s),
    decreases s.len(),
{
    if n == s.len() {
        assert(s.take(n) =~= s);
    } else {
        assert(s.drop_last().take(n) =~= s.take(n));
        lemma_digits_prefix(s.drop_last(), n);
    }
}

/// Reads `text[from..]` as a run of digits no larger than `max`.
fn read_digits(text: &Vec<char>, from: usize, max: u64) -> (value: Option<u64>)
    requires
        from <= text@.len(),
    ensures
        match magnitude(text@.skip(from as int)) {
            Some(v) => if v <= max {
                value == Some(v as u64)
            } else {
                value is None
            },
            None => value is None,
        },
{
    let ghost digits = text@.skip(from as int);
    if from == text.len() {
        return None;
    }
    let mut value: u64 = 0;
    let mut too_large: bool = false;
    let mut i: usize = from;
    proof {
        assert(digits.take(0) =~= Seq::<char>::empty());
    }
    while i < text.len()
        invariant
            from <= i <= text@.len(),
            digits == text@.skip(from as int),
            forall|j: int| 0 <= j < i - from ==> is_digit(#[trigger] digits[j]),
            too_large ==> digits_value(digits.take(i - from)) > max,
            !too_large ==> value == digits_value(digits.take(i - from)) && value <= max,
        decreases text@.len() - i,
    {
        let c = text[i];
        assert(digits[i - from] == c);
        if !('0' <= c && c <= '9') {
            return None;
        }
        let d: u64 = c as u64 - 48;
        proof {
            let head = digits.take(i - from);
            let more = digits.take(i - from + 1);
            assert(more.drop_last() =~= head);
            assert(more.last() == c);
            assert(digits_value(more) == digits_value(head) * 10 + d);
        }
        if !too_large {
            if value <= (u64::MAX - d) / 10 && value * 10 + d <= max {
                value = value * 10 + d;
            } else {
                too_large = true;
            }
        }
        i = i + 1;
    }
    assert(digits.take(text@.len() - from) =~= digits);
    if too_large {
        None
    } else {
        Some(value)
    }
}

/// Reads an optional `+` and digits, rejecting values above `max`.
pub fn parse_unsigned(s: &str, max: u64) -> (value: Option<u64>)
    ensures
        match unsigned_up_to(s@, max as int) {
            Some(v) => value == Some(v as u64),
            None => value is None,
        },
{
    let text = to_chars(s);
    if text.len() > 0 && text[0] == '+' {
        read_digits(&text, 1, max)
    } else {
        assert(text@.skip(0) =~= text@);
        read_digits(&text, 0, max)
    }
}

/// Reads a `u32`.
pub fn parse_u32(s: &str) -> (value: Option<u32>)
    ensures
        match unsigned_up_to(s@, u32::MAX as int) {
            Some(v) => value == Some(v as u32),
            None => value is None,
        },
{
    match parse_unsigned(s, u32::MAX as u64) {
        Some(v) => Some(v as u32),
        None => None,
    }
}

/// Reads a `u16`.
pub fn parse_u16(s: &str) -> (value: Option<u16>)
    ensures
        match unsigned_up_to(s@, u16::MAX as int) {
            Some(v) => value == Some(v as u16),
            None => value is None,
        },
{
    match parse_unsigned(s, u16::MAX as u64) {
        Some(v) => Some(v as u16),
        None => None,
    }
}

/// Reads an `isize`.
pub fn parse_isize(s: &str) -> (value: Option<isize>)
    ensures
        match signed_within(s@, isize::MIN as int, isize::MAX as int) {
            Some(v) => value == Some(v as isize),
            None => value is None,
        },
{
    let text = to_chars(s);
    if text.len() > 0 && text[0] == '-' {
        let limit: u64 = isize::MAX as u64 + 1;
        match read_digits(&text, 1, limit) {
            Some(v) => {
                if v == limit {
                    Some(isize::MIN)
                } else {
                    Some(-(v as isize))
                }
            },
            None => None,
        }
    } else {
        match parse_unsigned(s, isize::MAX as u64) {
            Some(v) => Some(v as isize),
            None => None,
        }
    }
}

/// The shortest decimal spelling of `n`.
pub open spec fn decimal(n: nat) -> Seq<char>
    decreases n,
{
    if n < 10 {
        seq![digit(n)]
    } else {
        decimal(n / 10).push(digit(n % 10))
    }
}

/// The digit for a number below ten.
pub open spec fn digit(d: nat) -> char {
    (48 + d) as char
}

/// The decimal spelling of `n`, with a `-` in front of a negative number.
pub open spec fn signed_decimal(n: int) -> Seq<char> {
    if n < 0 {
        seq!['-'] + decimal((-n) as nat)
    } else {
        decimal(n as nat)
    }
}

/// Writes `n` in decimal.
pub fn decimal_string(n: u64) -> (s: String)
    ensures
        s@ == decimal(n as nat),
    decreases n,
{
    let d: u8 = 48 + (n % 10) as u8;
    let mut s = if n < 10 {
        String::new()
    } else {
        decimal_string(n / 10)
    };
    s.push(d as char);
    proof {
        if n < 10 {
            assert(s@ =~= seq![digit(n as nat)]);
        }
    }
    s
}

/// Writes `n` in decimal, with its sign.
pub fn signed_decimal_string(n: i64) -> (s: String)
    ensures
        s@ == signed_decimal(n as int),
{
    if n >= 0 {
        return decimal_string(n as u64);
    }
    let magnitude: u64 = if n == i64::MIN {
        9223372036854775808
    } else {
        (-n) as u64
    };
    let mut s = String::new();
    s.push('-');
    assert(s@ =~= seq!['-']);
    s.concat(decimal_string(magnitude).as_str())
}

proof fn lemma_decimal(n: nat)
    ensures
        decimal(n).len() > 0,
        forall|i: int| 0 <= i < decimal(n).len() ==> is_digit(#[trigger] decimal(n)[i]),
        digits_value(decimal(n)) == n,
    decreases n,
{
    reveal_with_fuel(digits_value, 2);
    if n < 10 {
        assert(decimal(n).drop_last() =~= Seq::<char>::empty());
        assert(is_digit(digit(n)));
    } else {
        lemma_decimal(n / 10);
        assert(decimal(n).drop_last() =~= decimal(n / 10));
        assert(is_digit(digit(n % 10)));
    }
}

/// A number written in decimal reads back as itself.
pub proof fn lemma_decimal_reads_back(n: nat)
    ensures
        unsigned_value(decimal(n)) == Some(n),
{
    lemma_decimal(n);
    assert(is_digit(decimal(n)[0]));
}

/// A number written in decimal is made of digits.
pub proof fn lemma_decimal_is_digits(n: nat)
    ensures
        decimal(n).len() > 0,
        forall|i: int| 0 <= i < decimal(n).len() ==> is_digit(#[trigger] decimal(n)[i]),
{
    lemma_decimal(n);
}

/// A signed number written in decimal reads back as itself.
pub proof fn lemma_signed_decimal_reads_back(n: int)
    ensures
        signed_value(signed_decimal(n)) == Some(n),
{
    if n < 0 {
        lemma_decimal((-n) as nat);
        assert(signed_decimal(n).skip(1) =~= decimal((-n) as nat));
    } else {
        lemma_decimal_reads_back(n as nat);
        lemma_decimal(n as nat);
        assert(is_digit(decimal(n as nat)[0]));
    }
}

/// A number that was written reads back as itself, in every type that it
/// fits into and in none that it does not.
pub proof fn law_written_numbers_read_back(
    n: u64,
    written: String,
    text: &str,
    as_u32: Option<u32>,
    as_u16: Option<u16>,
    max: u64,
    up_to: Option<u64>,
)
    requires
        call_ensures(decimal_string, (n,), written),
        text@ == written@,
        call_ensures(parse_u32, (text,), as_u32),
        call_ensures(parse_u16, (text,), as_u16),
        call_ensures(parse_unsigned, (text, max), up_to),
    ensures
        n <= 4_294_967_295 ==> as_u32 == Some(n as u32),
        n > 4_294_967_295 ==> as_u32 is None,
        n <= 65_535 ==> as_u16 == Some(n as u16),
        n > 65_535 ==> as_u16 is None,
        n <= max ==> up_to == Some(n),
        n > max ==> up_to is None,
{
    lemma_decimal_reads_back(n as nat);
}

/// A handle that was written reads back as itself, sign and all.
pub proof fn law_written_handles_read_back(
    n: i64,
    written: String,
    text: &str,
    handle: Option<isize>,
)
    requires
        call_ensures(signed_decimal_string, (n,), written),
        text@ == written@,
        call_ensures(parse_isize, (text,), handle),
    ensures
        isize::MIN <= n <= isize::MAX ==> handle == Some(n as isize),
        !(isize::MIN <= n <= isize::MAX) ==> handle is None,
        n < 0 ==> written@[0] == '-',
        n >= 0 ==> written@[0] != '-',
{
    lemma_signed_decimal_reads_back(n as int);
    if n >= 0 {
        lemma_decimal(n as nat);
        assert(is_digit(decimal(n as nat)[0]));
    }
}

/// A number is written with digits only, as few of them as will do: only
/// zero itself starts with a zero.
pub proof fn law_numbers_are_written_briefly(n: u64, written: String)
    requires
        call_ensures(decimal_string, (n,), written),
    ensures
        written@.len() > 0,
        forall|i: int| 0 <= i < written@.len() ==> '0' <= #[trigger] written@[i] <= '9',
        written@[0] == '0' <==> n == 0,
{
    lemma_decimal(n as nat);
    assert forall|i: int| 0 <= i < written@.len() implies '0' <= #[trigger] written@[i] <= '9' by {
        assert(is_digit(decimal(n as nat)[i]));
    }
    lemma_first_digit(n as nat);
}

proof fn lemma_first_digit(n: nat)
    ensures
        decimal(n).len() > 0,
        decimal(n)[0] == '0' <==> n == 0,
    decreases n,
{
    if n >= 10 {
        lemma_first_digit(n / 10);
    }
}

/// How numbers are read: each further digit counts the ones before it ten
/// times. A `+` in front changes nothing, and anything that is no digit makes
/// the text no number at all.
pub proof fn law_digits_count_tenfold(
    text: &str,
    value: Option<u32>,
    d: u32,
    longer: &str,
    more: Option<u32>,
    plus: &str,
    positive: Option<u32>,
)
    requires
        call_ensures(parse_u32, (text,), value),
        d < 10,
        longer@ == text@.push((48 + d) as char),
        call_ensures(parse_u32, (longer,), more),
        plus@ == seq!['+'] + text@,
        call_ensures(parse_u32, (plus,), positive),
    ensures
        value matches Some(v) ==> more == if v * 10 + d <= 4_294_967_295 {
            Some((v * 10 + d) as u32)
        } else {
            None
        },
        text@.len() == 0 ==> more == Some(d),
        value is Some && text@[0] != '+' ==> positive == value,
        (exists|i: int| 0 < i < text@.len() && !('0' <= #[trigger] text@[i] <= '9')) ==> value
            is None && more is None,
        text@.len() == 0 ==> value is None,
        text@.len() > 0 && text@[0] == '-' ==> value is None,
{
    let c = (48 + d) as char;
    let s = text@;
    let t = longer@;
    let signed = s.len() > 0 && s[0] == '+';
    let digits = if signed {
        s.skip(1)
    } else {
        s
    };
    let more_digits = digits.push(c);
    assert(is_digit(c));
    if s.len() > 0 {
        assert(t[0] == s[0]);
    }
    if signed {
        assert(t.skip(1) =~= more_digits);
    } else {
        assert(t =~= more_digits);
    }
    assert(more_digits.drop_last() =~= digits);
    assert(more_digits.last() == c);
    if magnitude(digits) is Some {
        assert forall|i: int| 0 <= i < more_digits.len() implies is_digit(
            #[trigger] more_digits[i],
        ) by {
            if i < digits.len() {
                assert(is_digit(digits[i]));
            }
        }
    }
    if s.len() == 0 {
        reveal_with_fuel(digits_value, 2);
        assert(more_digits.drop_last() =~= Seq::<char>::empty());
    }
    assert(plus@.skip(1) =~= s);
    if exists|i: int| 0 < i < s.len() && !('0' <= #[trigger] s[i] <= '9') {
        let i = choose|i: int| 0 < i < s.len() && !('0' <= #[trigger] s[i] <= '9');
        let at = if signed {
            i - 1
        } else {
            i
        };
        assert(digits[at] == s[i]);
        assert(!is_digit(digits[at]));
        assert(!is_digit(more_digits[at]));
    }
    if s.len() > 0 && s[0] == '-' {
        assert(!is_digit(digits[0]));
    }
}

/// A `-` in front turns a handle into its negative.
pub proof fn law_minus_negates(
    text: &str,
    value: Option<isize>,
    minus: &str,
    negative: Option<isize>,
)
    requires
        text@.len() > 0 && '0' <= text@[0] <= '9',
        call_ensures(parse_isize, (text,), value),
        minus@ == seq!['-'] + text@,
        call_ensures(parse_isize, (minus,), negative),
    ensures
        value matches Some(v) ==> negative == Some((-v) as isize),
{
    assert(minus@.skip(1) =~= text@);
}

} // verus!
