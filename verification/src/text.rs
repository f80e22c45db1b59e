//! Text assembly: decimal rendering of integers and joining of string pieces.

use vstd::prelude::*;
use vstd::string::*;
use vstd::utf8::*;

verus! {

/// Calls `String::push`: one character is appended at the end of the string.
#[verifier::external_body]
pub(crate) fn push_char(s: &mut String, c: char)
    ensures
        final(s)@ == old(s)@.push(c),
{
    s.push(c);
}

/// Calls `std::str::from_utf8`: the text that the bytes encode, where they are valid UTF-8, and
/// nothing where they are not.
#[verifier::external_body]
pub(crate) fn utf8_text(bytes: &[u8]) -> (r: Option<&str>)
    ensures
        r is Some <==> valid_utf8(bytes@),
        r matches Some(s) ==> encode_utf8(s@) == bytes@,
{
    std::str::from_utf8(bytes).ok()
}

/// What `str::to_lowercase` makes of a text.
pub uninterp spec fn lowercase(s: Seq<char>) -> Seq<char>;

/// An ASCII capital as a small letter, and any other character as it is.
pub open spec fn small_letter(c: char) -> char {
    if 'A' <= c <= 'Z' {
        (c as int + 32) as char
    } else {
        c
    }
}

/// Calls `str::to_lowercase`: what comes out depends on the text alone, and of a text in ASCII it
/// is the text with each capital turned into the small letter.
#[verifier::external_body]
pub(crate) fn to_lowercase(s: &str) -> (r: String)
    ensures
        r@ == lowercase(s@),
        (forall|i: int| 0 <= i < s@.len() ==> (#[trigger] s@[i] as int) < 128) ==> r@ == s@.map_values(
            |c: char| small_letter(c),
        ),
{
    s.to_lowercase()
}

/// The character of the decimal digit `d`.
pub open spec fn digit_char(d: int) -> char
    recommends
        0 <= d < 10,
{
    ('0' as int + d) as char
}

/// `n` written in decimal, most significant digit first, without leading zeros.
pub open spec fn decimal(n: nat) -> Seq<char>
    decreases n,
{
    if n < 10 {
        seq![digit_char(n as int)]
    } else {
        decimal(n / 10).push(digit_char((n % 10) as int))
    }
}

/// `n` written in decimal, with a leading `-` where it is negative.
pub open spec fn signed_decimal(n: int) -> Seq<char> {
    if n < 0 {
        seq!['-'] + decimal((-n) as nat)
    } else {
        decimal(n as nat)
    }
}

/// Appends `n` in decimal to `out`.
pub fn push_decimal(out: &mut String, n: u64)
    ensures
        final(out)@ == old(out)@ + decimal(n as nat),
    decreases n,
{
    if n >= 10 {
        push_decimal(out, n / 10);
    }
    let d: u8 = (n % 10) as u8;
    let c: char = (48u8 + d) as char;
    assert(c == digit_char((n % 10) as int));
    push_char(out, c);
}

/// Appends `n` in decimal to `out`, with its sign where it is negative.
pub fn push_signed_decimal(out: &mut String, n: i64)
    ensures
        final(out)@ == old(out)@ + signed_decimal(n as int),
{
    if n < 0 {
        push_char(out, '-');
        if n == i64::MIN {
            push_decimal(out, 9223372036854775808u64);
        } else {
            push_decimal(out, (-n) as u64);
        }
    } else {
        push_decimal(out, n as u64);
    }
}


/// Whether two texts are the same.
pub fn same_text(a: &str, b: &str) -> (same: bool)
    ensures
        same == (a@ == b@),
{
    a.to_owned() == b.to_owned()
}

/// The first piece followed by the second.
pub fn join2(a: &str, b: &str) -> (s: String)
    ensures
        s@ == a@ + b@,
{
    let mut s = a.to_owned();
    s.append(b);
    s
}


/// The characters that count as white space.
pub open spec fn is_white_space(c: char) -> bool {
    let n = c as int;
    ||| 0x09 <= n <= 0x0d
    ||| n == 0x20
    ||| n == 0x85
    ||| n == 0xa0
    ||| n == 0x1680
    ||| 0x2000 <= n <= 0x200a
    ||| n == 0x2028
    ||| n == 0x2029
    ||| n == 0x202f
    ||| n == 0x205f
    ||| n == 0x3000
}

/// The text without white space at its end.
pub open spec fn trimmed_end(s: Seq<char>) -> Seq<char>
    decreases s.len(),
{
    if s.len() > 0 && is_white_space(s.last()) {
        trimmed_end(s.drop_last())
    } else {
        s
    }
}

/// The text without white space at its start.
pub open spec fn trimmed_start(s: Seq<char>) -> Seq<char>
    decreases s.len(),
{
    if s.len() > 0 && is_white_space(s[0]) {
        trimmed_start(s.drop_first())
    } else {
        s
    }
}

/// The text without white space at its start and at its end.
pub open spec fn trimmed(s: Seq<char>) -> Seq<char> {
    trimmed_end(trimmed_start(s))
}

/// Whether a character is white space.
pub(crate) fn white_space(c: char) -> (b: bool)
    ensures
        b == is_white_space(c),
{
    let n: u32 = c as u32;
    (0x09 <= n && n <= 0x0d) || n == 0x20 || n == 0x85 || n == 0xa0 || n == 0x1680 || (0x2000 <= n
        && n <= 0x200a) || n == 0x2028 || n == 0x2029 || n == 0x202f || n == 0x205f || n == 0x3000
}

/// The text without white space at its start and at its end.
pub fn trim(s: &str) -> (t: &str)
    ensures
        t@ == trimmed(s@),
{
    let n: usize = s.unicode_len();
    let mut a: usize = 0;
    assert(s@.skip(0) =~= s@);
    while a < n && white_space(s.get_char(a))
        invariant
            a <= n,
            n == s@.len(),
            trimmed_start(s@) == trimmed_start(s@.skip(a as int)),
        decreases n - a,
    {
        assert(s@.skip(a as int).drop_first() =~= s@.skip(a + 1));
        a += 1;
    }
    let ghost rest = s@.skip(a as int);
    assert(trimmed_start(s@) == rest);
    let mut b: usize = n;
    assert(rest.take(rest.len() as int) =~= rest);
    while b > a && white_space(s.get_char(b - 1))
        invariant
            a <= b <= n,
            n == s@.len(),
            rest == s@.skip(a as int),
            trimmed_end(rest) == trimmed_end(rest.take(b - a)),
        decreases b,
    {
        assert(rest.take(b - a).last() == s@[b - 1]);
        assert(rest.take(b - a).drop_last() =~= rest.take(b - a - 1));
        b -= 1;
    }
    proof {
        if b > a {
            assert(rest.take(b - a).last() == s@[b - 1]);
        }
        assert(s@.subrange(a as int, b as int) =~= rest.take(b - a));
    }
    s.substring_char(a, b)
}

/// Whether a character is a decimal digit.
pub open spec fn is_digit(c: char) -> bool {
    '0' <= c <= '9'
}

/// The number that decimal digits write.
pub open spec fn digits_value(s: Seq<char>) -> int
    decreases s.len(),
{
    if s.len() == 0 {
        0
    } else {
        digits_value(s.drop_last()) * 10 + (s.last() as int - '0' as int)
    }
}

/// At least one digit and nothing else.
pub open spec fn all_digits(s: Seq<char>) -> bool {
    s.len() > 0 && forall|i: int| 0 <= i < s.len() ==> is_digit(#[trigger] s[i])
}

/// The number that a text writes: decimal digits, with a sign in front or without one, in the
/// range of the type.
pub open spec fn parsed_i32(s: Seq<char>) -> Option<i32> {
    let signed = s.len() > 0 && (s[0] == '-' || s[0] == '+');
    let digits = if signed {
        s.drop_first()
    } else {
        s
    };
    let value = if signed && s[0] == '-' {
        -digits_value(digits)
    } else {
        digits_value(digits)
    };
    if all_digits(digits) && i32::MIN <= value <= i32::MAX {
        Some(value as i32)
    } else {
        None
    }
}

proof fn digits_value_grows(s: Seq<char>, i: int)
    requires
        0 <= i <= s.len(),
        forall|k: int| 0 <= k < s.len() ==> is_digit(#[trigger] s[k]),
    ensures
        0 <= digits_value(s.take(i)) <= digits_value(s),
    decreases s.len(),
{
    if i == s.len() {
        assert(s.take(i) =~= s);
        if i > 0 {
            digits_value_grows(s.drop_last(), i - 1);
            assert(s.drop_last().take(i - 1) =~= s.drop_last());
            assert(is_digit(s[i - 1]));
        }
    } else {
        digits_value_grows(s.drop_last(), i);
        assert(s.drop_last().take(i) =~= s.take(i));
        assert(is_digit(s[s.len() - 1]));
    }
}

/// Reads the number that a text writes.
pub fn parse_i32(s: &str) -> (r: Option<i32>)
    ensures
        r == parsed_i32(s@),
{
    let n: usize = s.unicode_len();
    let mut start: usize = 0;
    let mut negative: bool = false;
    if n > 0 {
        let c: char = s.get_char(0);
        if c == '-' || c == '+' {
            start = 1;
            negative = c == '-';
        }
    }
    let ghost digits = if start == 1 {
        s@.drop_first()
    } else {
        s@
    };
    if start == n {
        assert(digits.len() == 0);
        return None;
    }
    let mut value: i64 = 0;
    let mut i: usize = start;
    assert(digits.take(0) =~= seq![]);
    while i < n
        invariant
            start <= i <= n,
            start <= 1,
            n == s@.len(),
            digits == (if start == 1 {
                s@.drop_first()
            } else {
                s@
            }),
            start == 1 <==> s@.len() > 0 && (s@[0] == '-' || s@[0] == '+'),
            negative <==> start == 1 && s@[0] == '-',
            forall|k: int| 0 <= k < i - start ==> is_digit(#[trigger] digits[k]),
            value == digits_value(digits.take(i - start)),
            0 <= value <= 2147483648,
        decreases n - i,
    {
        let c: char = s.get_char(i);
        assert(c == digits[i - start]);
        if c < '0' || c > '9' {
            assert(!is_digit(digits[i - start]));
            return None;
        }
        proof {
            let longer = digits.take(i - start + 1);
            assert(longer.drop_last() =~= digits.take(i - start));
            assert(longer.last() == c);
        }
        value = value * 10 + (c as u32 as i64 - 48);
        i += 1;
        if value > 2147483648 {
            proof {
                if all_digits(digits) {
                    digits_value_grows(digits, i - start);
                }
            }
            return None;
        }
    }
    assert(digits.take(i - start) =~= digits);
    let signed: i64 = if negative {
        -value
    } else {
        value
    };
    if signed > 2147483647 {
        None
    } else {
        Some(signed as i32)
    }
}

/// Decimal digits write the number that they were made from.
pub proof fn digits_write_their_number(n: nat)
    ensures
        all_digits(decimal(n)),
        digits_value(decimal(n)) == n,
    decreases n,
{
    if n < 10 {
        let s = decimal(n);
        assert(s.drop_last() =~= seq![]);
        assert(digits_value(s.drop_last()) == 0);
        assert(s.last() as int == 48 + n);
    } else {
        let before = decimal(n / 10);
        digits_write_their_number(n / 10);
        let s = decimal(n);
        assert(s.drop_last() =~= before);
        assert(s.last() as int == 48 + n % 10);
        assert forall|i: int| 0 <= i < s.len() implies is_digit(#[trigger] s[i]) by {
            if i < before.len() {
                assert(s[i] == before[i]);
            }
        }
    }
}

/// Different numbers are written differently.
pub proof fn numbers_are_written_apart(a: int, b: int)
    requires
        signed_decimal(a) == signed_decimal(b),
    ensures
        a == b,
{
    let m = if a < 0 {
        -a
    } else {
        a
    };
    let n = if b < 0 {
        -b
    } else {
        b
    };
    digits_write_their_number(m as nat);
    digits_write_their_number(n as nat);
    assert(is_digit(decimal(m as nat)[0]));
    assert(is_digit(decimal(n as nat)[0]));
    if a < 0 {
        assert(signed_decimal(a)[0] == '-');
        assert(signed_decimal(a).skip(1) =~= decimal(m as nat));
    }
    if b < 0 {
        assert(signed_decimal(b)[0] == '-');
        assert(signed_decimal(b).skip(1) =~= decimal(n as nat));
    }
}

/// A number is written with digits, and a minus sign in front where it is negative.
pub proof fn numbers_are_written_with_digits(n: int)
    ensures
        signed_decimal(n).len() > 0,
        forall|i: int|
            0 <= i < signed_decimal(n).len() ==> is_digit(#[trigger] signed_decimal(n)[i]) || (i == 0
                && n < 0 && signed_decimal(n)[i] == '-'),
{
    let s = signed_decimal(n);
    if n < 0 {
        let d = decimal((-n) as nat);
        digits_write_their_number((-n) as nat);
        assert forall|i: int| 0 <= i < s.len() implies is_digit(#[trigger] s[i]) || (i == 0
            && s[i] == '-') by {
            if i > 0 {
                assert(s[i] == d[i - 1]);
                assert(is_digit(d[i - 1]));
            }
        }
    } else {
        digits_write_their_number(n as nat);
    }
}

/// A number that was written into an empty text is what is read from it.
pub proof fn written_number_is_read(out: &mut String, n: i32, text: &str, r: Option<i32>)
    requires
        call_ensures(push_signed_decimal, (out, n as i64), ()),
        old(out)@.len() == 0,
        text@ == final(out)@,
        call_ensures(parse_i32, (text,), r),
    ensures
        r == Some(n),
{
    let s = signed_decimal(n as int);
    assert(text@ =~= s);
    if n < 0 {
        digits_write_their_number((-n) as nat);
        assert(s.drop_first() =~= decimal((-n) as nat));
    } else {
        digits_write_their_number(n as nat);
        assert(is_digit(s[0]));
    }
}

/// What was read as a number, written again and read again, is the same number; and only digits
/// with a sign in front are read.
pub proof fn only_numbers_are_read(text: &str, r: Option<i32>)
    requires
        call_ensures(parse_i32, (text,), r),
    ensures
        text@.len() == 0 ==> r is None,
        r is Some ==> forall|i: int|
            0 <= i < text@.len() ==> '0' <= #[trigger] text@[i] <= '9' || (i == 0 && (text@[i] == '-'
                || text@[i] == '+')),
        r matches Some(n) ==> (n < 0 ==> text@[0] == '-'),
{
    if r is Some {
        let s = text@;
        let signed = s[0] == '-' || s[0] == '+';
        let digits = if signed {
            s.drop_first()
        } else {
            s
        };
        assert forall|i: int| 0 <= i < s.len() implies '0' <= #[trigger] s[i] <= '9' || (i == 0 && (
        s[i] == '-' || s[i] == '+')) by {
            if signed && i > 0 {
                assert(is_digit(digits[i - 1]));
            } else if !signed {
                assert(is_digit(digits[i]));
            }
        }
        digits_value_grows(digits, digits.len() as int);
        assert(digits.take(digits.len() as int) =~= digits);
    }
}

/// Trimming takes away white space at both ends, all of it and nothing else: blanks, tabs and
/// line breaks are white space, letters, digits and punctuation are not.
pub proof fn trimming_takes_white_space(s: &str, t: &str)
    requires
        call_ensures(trim, (s,), t),
    ensures
        exists|a: int, b: int|
            #![trigger s@.subrange(a, b)]
            0 <= a <= b <= s@.len() && t@ == s@.subrange(a, b) && (forall|i: int|
                0 <= i < a ==> is_white_space(#[trigger] s@[i])) && (forall|i: int|
                b <= i < s@.len() ==> is_white_space(#[trigger] s@[i])),
        t@.len() > 0 ==> t@[0] != ' ' && t@[0] as int != 9 && t@[0] as int != 10 && t@[0] as int
            != 13,
        t@.len() > 0 ==> t@.last() != ' ' && t@.last() as int != 9 && t@.last() as int != 10
            && t@.last() as int != 13,
        forall|c: char| 0x21 <= c as int <= 0x7e ==> !#[trigger] is_white_space(c),
{
    let a = trimmed_start_holds(s@);
    let rest = s@.skip(a);
    let b = trimmed_end_holds(rest);
    assert(t@ =~= s@.subrange(a, a + b));
    assert forall|i: int| a + b <= i < s@.len() implies is_white_space(#[trigger] s@[i]) by {
        assert(s@[i] == rest[i - a]);
    }
}

proof fn trimmed_start_holds(s: Seq<char>) -> (a: int)
    ensures
        0 <= a <= s.len(),
        trimmed_start(s) == s.skip(a),
        forall|i: int| 0 <= i < a ==> is_white_space(#[trigger] s[i]),
        a < s.len() ==> !is_white_space(s[a]),
    decreases s.len(),
{
    if s.len() > 0 && is_white_space(s[0]) {
        let a = trimmed_start_holds(s.drop_first());
        assert(s.drop_first().skip(a) =~= s.skip(a + 1));
        assert forall|i: int| 0 <= i < a + 1 implies is_white_space(#[trigger] s[i]) by {
            if i > 0 {
                assert(s[i] == s.drop_first()[i - 1]);
            }
        }
        a + 1
    } else {
        assert(s.skip(0) =~= s);
        0
    }
}

proof fn trimmed_end_holds(s: Seq<char>) -> (b: int)
    ensures
        0 <= b <= s.len(),
        trimmed_end(s) == s.take(b),
        forall|i: int| b <= i < s.len() ==> is_white_space(#[trigger] s[i]),
        b > 0 ==> !is_white_space(s[b - 1]),
        b > 0 ==> s[0] == trimmed_end(s)[0],
    decreases s.len(),
{
    if s.len() > 0 && is_white_space(s.last()) {
        let b = trimmed_end_holds(s.drop_last());
        assert(s.drop_last().take(b) =~= s.take(b));
        assert forall|i: int| b <= i < s.len() implies is_white_space(#[trigger] s[i]) by {
            if i < s.len() - 1 {
                assert(s[i] == s.drop_last()[i]);
            }
        }
        b
    } else {
        assert(s.take(s.len() as int) =~= s);
        s.len() as int
    }
}

/// A number is read the same with a plus before it, and none is read that is too large or too
/// small.
pub proof fn numbers_are_read_in_range(
    out: &mut String,
    n: i64,
    text: &str,
    r: Option<i32>,
    plus: &str,
    s: Option<i32>,
)
    requires
        call_ensures(push_signed_decimal, (out, n), ()),
        old(out)@.len() == 0,
        text@ == final(out)@,
        call_ensures(parse_i32, (text,), r),
        n >= 0 ==> plus@ == seq!['+'] + text@,
        call_ensures(parse_i32, (plus,), s),
    ensures
        r matches Some(m) ==> m == n,
        r is Some <==> -0x8000_0000 <= n <= 0x7fff_ffff,
        n >= 0 ==> s == r,
{
    if n >= 0 {
        digits_write_their_number(n as nat);
        assert(text@ =~= decimal(n as nat));
        assert(is_digit(text@[0]));
        assert(plus@.skip(1) =~= text@);
    } else {
        digits_write_their_number((-n) as nat);
        assert(text@ =~= seq!['-'] + decimal((-n) as nat));
        assert(text@.skip(1) =~= decimal((-n) as nat));
    }
    assert(text@.skip(0) =~= text@);
}

} // verus!
