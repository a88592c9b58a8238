//! The number syntax of kernel files and of user input, and the number
//! formats of labels and identifiers.

use vstd::prelude::*;
use crate::text::{cat2, cat3, chars_of};

verus! {

/// Whether `c` is one of the ten ASCII digits.
pub open spec fn is_digit(c: char) -> bool {
    '0' <= c <= '9'
}

/// The value of a digit.
pub open spec fn digit_value(c: char) -> nat {
    (c as u32 - '0' as u32) as nat
}

/// Whether `s` is a non-empty run of digits.
pub open spec fn is_digits(s: Seq<char>) -> bool {
    s.len() > 0 && forall|i: int| 0 <= i < s.len() ==> is_digit(#[trigger] s[i])
}

/// The number that a run of decimal digits writes.
pub open spec fn decimal(s: Seq<char>) -> nat
    decreases s.len(),
{
    if s.len() == 0 {
        0
    } else {
        decimal(s.drop_last()) * 10 + digit_value(s.last())
    }
}

/// The number that `s` writes: digits, with one plus sign before them allowed,
/// and no more than `max`.
pub open spec fn parsed_unsigned(s: Seq<char>, max: nat) -> Option<nat> {
    let d = if s.len() > 0 && s[0] == '+' {
        s.drop_first()
    } else {
        s
    };
    if is_digits(d) && decimal(d) <= max {
        Some(decimal(d))
    } else {
        None
    }
}

/// The signed number that `s` writes, in the range of an `i64`.
pub open spec fn parsed_i64(s: Seq<char>) -> Option<int> {
    if s.len() > 0 && s[0] == '-' {
        let d = s.drop_first();
        if is_digits(d) && decimal(d) <= 0x8000_0000_0000_0000 {
            Some(-(decimal(d) as int))
        } else {
            None
        }
    } else {
        match parsed_unsigned(s, i64::MAX as nat) {
            Some(n) => Some(n as int),
            None => None,
        }
    }
}

/// Leading digits never outweigh the whole number.
proof fn decimal_grows(s: Seq<char>, k: int)
    requires
        0 <= k <= s.len(),
    ensures
        decimal(s.take(k)) <= decimal(s),
    decreases s.len(),
{
    if k == s.len() {
        assert(s.take(k) =~= s);
    } else {
        decimal_grows(s.drop_last(), k);
        assert(s.drop_last().take(k) =~= s.take(k));
    }
}

/// The number that `chars[from..]` writes, where it is a run of digits and no
/// more than `max`.
fn parse_digits(chars: &Vec<char>, from: usize, max: u64) -> (r: Option<u64>)
    requires
        from <= chars@.len(),
    ensures
        r == ({
            let d = chars@.skip(from as int);
            if is_digits(d) && decimal(d) <= max {
                Some(decimal(d) as u64)
            } else {
                None
            }
        }),
{
    let ghost d = chars@.skip(from as int);
    if from == chars.len() {
        return None;
    }
    let mut value: u64 = 0;
    let mut i: usize = from;
    assert(d.take(0) =~= Seq::empty());
    while i < chars.len()
        invariant
            from <= i <= chars@.len(),
            d == chars@.skip(from as int),
            value == decimal(d.take(i - from)),
            value <= max,
            forall|j: int| 0 <= j < i - from ==> is_digit(#[trigger] d[j]),
        decreases chars@.len() - i,
    {
        let c = chars[i];
        assert(d[i - from] == c);
        if !('0' <= c && c <= '9') {
            return None;
        }
        let digit: u64 = (c as u32 - '0' as u32) as u64;
        proof {
            assert(d.take(i - from + 1).drop_last() =~= d.take(i - from));
            assert(d.take(i - from + 1).last() == c);
            decimal_grows(d, i - from + 1);
        }
        if value > (max - (if digit <= max { digit } else { max })) / 10 || digit > max {
            return None;
        }
        value = value * 10 + digit;
        i = i + 1;
    }
    assert(d.take(d.len() as int) =~= d);
    Some(value)
}

/// `str::parse` for an unsigned integer with the largest value `max`.
pub fn parse_unsigned(s: &str, max: u64) -> (r: Option<u64>)
    ensures
        match r {
            Some(n) => parsed_unsigned(s@, max as nat) == Some(n as nat),
            None => parsed_unsigned(s@, max as nat) is None,
        },
{
    let chars = chars_of(s);
    assert(chars@.skip(0) =~= chars@);
    assert(chars@.len() > 0 ==> chars@.skip(1) =~= chars@.drop_first());
    if chars.len() > 0 && chars[0] == '+' {
        parse_digits(&chars, 1, max)
    } else {
        parse_digits(&chars, 0, max)
    }
}

/// `str::parse::<u64>`.
pub fn parse_u64(s: &str) -> (r: Option<u64>)
    ensures
        match r {
            Some(n) => parsed_unsigned(s@, u64::MAX as nat) == Some(n as nat),
            None => parsed_unsigned(s@, u64::MAX as nat) is None,
        },
{
    parse_unsigned(s, u64::MAX)
}

/// `str::parse::<u32>`.
pub fn parse_u32(s: &str) -> (r: Option<u32>)
    ensures
        match r {
            Some(n) => parsed_unsigned(s@, u32::MAX as nat) == Some(n as nat),
            None => parsed_unsigned(s@, u32::MAX as nat) is None,
        },
{
    match parse_unsigned(s, u32::MAX as u64) {
        Some(n) => Some(n as u32),
        None => None,
    }
}

/// `str::parse::<i64>`.
pub fn parse_i64(s: &str) -> (r: Option<i64>)
    ensures
        match r {
            Some(n) => parsed_i64(s@) == Some(n as int),
            None => parsed_i64(s@) is None,
        },
{
    let chars = chars_of(s);
    assert(chars@.len() > 0 ==> chars@.skip(1) =~= chars@.drop_first());
    if chars.len() > 0 && chars[0] == '-' {
        match parse_digits(&chars, 1, 0x8000_0000_0000_0000) {
            Some(n) => if n == 0x8000_0000_0000_0000 {
                Some(i64::MIN)
            } else {
                Some(-(n as i64))
            },
            None => None,
        }
    } else {
        match parse_unsigned(s, i64::MAX as u64) {
            Some(n) => Some(n as i64),
            None => None,
        }
    }
}

/// The digit that writes `n`.
pub open spec fn digit_char(n: nat) -> char {
    if n < 10 {
        ('0' as u32 + n) as char
    } else {
        ('a' as u32 + (n - 10)) as char
    }
}

/// `n` in decimal, without leading zeros.
pub open spec fn decimal_text(n: nat) -> Seq<char>
    decreases n,
{
    if n < 10 {
        seq![digit_char(n)]
    } else {
        decimal_text(n / 10).push(digit_char(n % 10))
    }
}

/// The lower-case digit for `n`, in a base up to sixteen.
fn digit_of(n: u64) -> (c: char)
    requires
        n < 16,
    ensures
        c == digit_char(n as nat),
{
    match n {
        0 => '0',
        1 => '1',
        2 => '2',
        3 => '3',
        4 => '4',
        5 => '5',
        6 => '6',
        7 => '7',
        8 => '8',
        9 => '9',
        10 => 'a',
        11 => 'b',
        12 => 'c',
        13 => 'd',
        14 => 'e',
        _ => 'f',
    }
}

/// `u64::to_string`.
pub fn format_u64(n: u64) -> (out: String)
    ensures
        out@ == decimal_text(n as nat),
    decreases n,
{
    if n < 10 {
        let mut out = String::new();
        out.push(digit_of(n));
        assert(out@ =~= seq![digit_char(n as nat)]);
        out
    } else {
        let mut out = format_u64(n / 10);
        out.push(digit_of(n % 10));
        out
    }
}

/// A number is read back from its decimal text.
pub proof fn decimal_text_reads_back(n: nat)
    ensures
        is_digits(decimal_text(n)),
        decimal(decimal_text(n)) == n,
    decreases n,
{
    let t = decimal_text(n);
    if n < 10 {
        assert(t.drop_last() =~= Seq::empty());
        assert(decimal(t.drop_last()) == 0);
    } else {
        decimal_text_reads_back(n / 10);
        assert(t.drop_last() =~= decimal_text(n / 10));
    }
}

/// Different numbers have different decimal texts.
pub proof fn decimal_text_injective(a: nat, b: nat)
    requires
        decimal_text(a) == decimal_text(b),
    ensures
        a == b,
{
    decimal_text_reads_back(a);
    decimal_text_reads_back(b);
}

/// The low `width` hexadecimal digits of `n`, leading zeros included.
pub open spec fn hex_text(n: nat, width: nat) -> Seq<char>
    decreases width,
{
    if width == 0 {
        Seq::empty()
    } else {
        hex_text(n / 16, (width - 1) as nat).push(digit_char(n % 16))
    }
}

/// `n` as hexadecimal digits, padded with zeros to `width`.
pub fn format_hex(n: u64, width: u32) -> (out: String)
    ensures
        out@ == hex_text(n as nat, width as nat),
    decreases width,
{
    if width == 0 {
        String::new()
    } else {
        let mut out = format_hex(n / 16, width - 1);
        out.push(digit_of(n % 16));
        out
    }
}

/// The low `width` decimal digits of `n`, leading zeros included.
pub open spec fn fixed_digits(n: nat, width: nat) -> Seq<char>
    decreases width,
{
    if width == 0 {
        Seq::empty()
    } else {
        fixed_digits(n / 10, (width - 1) as nat).push(digit_char(n % 10))
    }
}

/// The low `width` decimal digits of `n`, trailing zeros left out.
pub open spec fn fraction_digits(n: nat, width: nat) -> Seq<char>
    decreases width,
{
    if width > 0 && n % 10 == 0 {
        fraction_digits(n / 10, (width - 1) as nat)
    } else {
        fixed_digits(n, width)
    }
}

/// A number of billionths as a decimal fraction, as short as it gets.
pub open spec fn billionths_text(n: nat) -> Seq<char> {
    if n % 1_000_000_000 == 0 {
        decimal_text(n / 1_000_000_000)
    } else {
        decimal_text(n / 1_000_000_000) + "."@ + fraction_digits(n % 1_000_000_000, 9)
    }
}

fn format_fixed(n: u64, width: u32) -> (out: String)
    ensures
        out@ == fixed_digits(n as nat, width as nat),
    decreases width,
{
    if width == 0 {
        let out = String::new();
        assert(out@ =~= Seq::<char>::empty());
        out
    } else {
        let mut out = format_fixed(n / 10, width - 1);
        out.push(digit_of(n % 10));
        out
    }
}

fn format_fraction(n: u64, width: u32) -> (out: String)
    ensures
        out@ == fraction_digits(n as nat, width as nat),
    decreases width,
{
    if width > 0 && n % 10 == 0 {
        format_fraction(n / 10, width - 1)
    } else {
        format_fixed(n, width)
    }
}

/// A number of billionths as a decimal fraction, as short as it gets.
pub fn format_billionths(n: u64) -> (out: String)
    ensures
        out@ == billionths_text(n as nat),
{
    let whole = format_u64(n / 1_000_000_000);
    if n % 1_000_000_000 == 0 {
        whole
    } else {
        let fraction = format_fraction(n % 1_000_000_000, 9);
        cat3(whole.as_str(), ".", fraction.as_str())
    }
}

/// Whether `c` is a hexadecimal digit of either case.
pub open spec fn is_hex_digit(c: char) -> bool {
    ('0' <= c && c <= '9') || ('a' <= c && c <= 'f') || ('A' <= c && c <= 'F')
}

/// The value of a hexadecimal digit.
pub open spec fn hex_value(c: char) -> nat {
    if '0' <= c && c <= '9' {
        (c as u32 - '0' as u32) as nat
    } else if 'a' <= c && c <= 'f' {
        (c as u32 - 'a' as u32 + 10) as nat
    } else {
        (c as u32 - 'A' as u32 + 10) as nat
    }
}

/// The number that a run of hexadecimal digits writes.
pub open spec fn hexadecimal(s: Seq<char>) -> nat
    decreases s.len(),
{
    if s.len() == 0 {
        0
    } else {
        hexadecimal(s.drop_last()) * 16 + hex_value(s.last())
    }
}

/// A text without the plus sign that it may begin with.
pub open spec fn without_plus(s: Seq<char>) -> Seq<char> {
    if s.len() > 0 && s[0] == '+' {
        s.drop_first()
    } else {
        s
    }
}

/// Whether a text holds hexadecimal digits only.
pub open spec fn all_hex(d: Seq<char>) -> bool {
    forall|i: int| 0 <= i < d.len() ==> is_hex_digit(#[trigger] d[i])
}

/// The number that `s` writes in hexadecimal, with one plus sign before it
/// allowed, where it fits 64 bits.
pub open spec fn parsed_hex(s: Seq<char>) -> Option<u64> {
    let d = without_plus(s);
    if d.len() > 0 && all_hex(d) && hexadecimal(d) <= u64::MAX {
        Some(hexadecimal(d) as u64)
    } else {
        None
    }
}

/// Leading digits never outweigh the whole number.
proof fn hexadecimal_grows(s: Seq<char>, k: int)
    requires
        0 <= k <= s.len(),
    ensures
        hexadecimal(s.take(k)) <= hexadecimal(s),
    decreases s.len(),
{
    if k == s.len() {
        assert(s.take(k) =~= s);
    } else {
        hexadecimal_grows(s.drop_last(), k);
        assert(s.drop_last().take(k) =~= s.take(k));
    }
}

/// `u64::from_str_radix` in base sixteen.
pub fn parse_hex(s: &str) -> (r: Option<u64>)
    ensures
        r == parsed_hex(s@),
{
    let chars = chars_of(s);
    let from: usize = if chars.len() > 0 && chars[0] == '+' {
        1
    } else {
        0
    };
    let ghost d = without_plus(s@);
    assert(d =~= chars@.skip(from as int));
    if from == chars.len() {
        return None;
    }
    let mut value: u64 = 0;
    let mut i: usize = from;
    assert(d.take(0) =~= Seq::empty());
    while i < chars.len()
        invariant
            from <= i <= chars@.len(),
            d == chars@.skip(from as int),
            d == without_plus(s@),
            value == hexadecimal(d.take(i - from)),
            forall|j: int| 0 <= j < i - from ==> is_hex_digit(#[trigger] d[j]),
        decreases chars@.len() - i,
    {
        let c = chars[i];
        assert(d[i - from] == c);
        let digit: u64 = if '0' <= c && c <= '9' {
            (c as u32 - '0' as u32) as u64
        } else if 'a' <= c && c <= 'f' {
            (c as u32 - 'a' as u32 + 10) as u64
        } else if 'A' <= c && c <= 'F' {
            (c as u32 - 'A' as u32 + 10) as u64
        } else {
            assert(0 <= i - from < d.len() && d[i - from] == c);
            assert(!is_hex_digit(c));
            assert(!all_hex(d));
            return None;
        };
        proof {
            assert(d.take(i - from + 1).drop_last() =~= d.take(i - from));
            assert(d.take(i - from + 1).last() == c);
            hexadecimal_grows(d, i - from + 1);
        }
        if value > (u64::MAX - digit) / 16 {
            assert(value * 16 + digit > u64::MAX);
            return None;
        }
        value = value * 16 + digit;
        i = i + 1;
    }
    assert(d.take(d.len() as int) =~= d);
    Some(value)
}

/// The number of digits that `s` begins with.
pub open spec fn leading_digits(s: Seq<char>) -> nat
    decreases s.len(),
{
    if s.len() > 0 && is_digit(s[0]) {
        1 + leading_digits(s.drop_first())
    } else {
        0
    }
}

/// Why `s` writes no unsigned number up to `max`: nothing is there, a digit is
/// missing, or the digits before the first other character are too many.
pub open spec fn unsigned_error(s: Seq<char>, max: nat) -> Seq<char> {
    let d = if s.len() > 0 && s[0] == '+' {
        s.drop_first()
    } else {
        s
    };
    if s.len() == 0 {
        "cannot parse integer from empty string"@
    } else if decimal(d.take(leading_digits(d) as int)) > max {
        "number too large to fit in target type"@
    } else {
        "invalid digit found in string"@
    }
}

/// Why `s` writes no unsigned number up to `max`.
pub fn unsigned_error_text(s: &str, max: u64) -> (out: &'static str)
    ensures
        out@ == unsigned_error(s@, max as nat),
{
    let chars = chars_of(s);
    if chars.len() == 0 {
        return "cannot parse integer from empty string";
    }
    let from: usize = if chars[0] == '+' {
        1
    } else {
        0
    };
    let ghost d = if s@[0] == '+' {
        s@.drop_first()
    } else {
        s@
    };
    assert(d =~= chars@.skip(from as int));
    let ghost k = leading_digits(d);
    proof {
        leading_digits_within(d);
        assert(d.take(0) =~= Seq::empty());
        assert(d.skip(0) =~= d);
    }
    let mut value: u64 = 0;
    let mut i: usize = from;
    while i < chars.len() && ('0' <= chars[i] && chars[i] <= '9')
        invariant
            from <= i <= chars@.len(),
            d == chars@.skip(from as int),
            i - from <= k <= d.len(),
            k == leading_digits(d),
            k == (i - from) + leading_digits(d.skip(i - from)),
            value == decimal(d.take(i - from)),
            value <= max,
            chars@ == s@,
            s@.len() > 0,
            d == (if s@[0] == '+' {
                s@.drop_first()
            } else {
                s@
            }),
        decreases chars@.len() - i,
    {
        let c = chars[i];
        let digit: u64 = (c as u32 - '0' as u32) as u64;
        proof {
            assert(d[i - from] == c);
            assert(d.skip(i - from).drop_first() =~= d.skip(i - from + 1));
            assert(d.skip(i - from)[0] == c);
            assert(d.take(i - from + 1).drop_last() =~= d.take(i - from));
            assert(d.take(i - from + 1).last() == c);
            decimal_grows(d.take(k as int), i - from + 1);
            assert(d.take(k as int).take(i - from + 1) =~= d.take(i - from + 1));
        }
        if value > (max - (if digit <= max { digit } else { max })) / 10 || digit > max {
            return "number too large to fit in target type";
        }
        value = value * 10 + digit;
        i = i + 1;
    }
    proof {
        if i < chars@.len() {
            assert(d.skip(i - from)[0] == chars@[i as int]);
        }
    }
    "invalid digit found in string"
}

/// There are no more leading digits than characters.
proof fn leading_digits_within(s: Seq<char>)
    ensures
        leading_digits(s) <= s.len(),
    decreases s.len(),
{
    if s.len() > 0 && is_digit(s[0]) {
        leading_digits_within(s.drop_first());
    }
}

/// `n` in decimal, with a sign where it is negative.
pub open spec fn signed_text(n: int) -> Seq<char> {
    if n < 0 {
        "-"@ + decimal_text((-n) as nat)
    } else {
        decimal_text(n as nat)
    }
}

/// `i64::to_string`.
pub fn format_i64(n: i64) -> (out: String)
    ensures
        out@ == signed_text(n as int),
{
    if n < 0 {
        let magnitude: u64 = if n == i64::MIN {
            0x8000_0000_0000_0000
        } else {
            (-n) as u64
        };
        cat2("-", format_u64(magnitude).as_str())
    } else {
        format_u64(n as u64)
    }
}

/// How an optional number is shown in diagnostics.
pub open spec fn opt_number_text(n: Option<u64>) -> Seq<char> {
    match n {
        Some(x) => "Some("@ + decimal_text(x as nat) + ")"@,
        None => "None"@,
    }
}

/// An optional number for diagnostics.
pub fn format_opt_u64(n: Option<u64>) -> (out: String)
    ensures
        out@ == opt_number_text(n),
{
    match n {
        Some(x) => cat3("Some(", format_u64(x).as_str(), ")"),
        None => "None".to_owned(),
    }
}

} // verus!
