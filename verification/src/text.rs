//! Decimal text for the numbers that appear in engine arguments, and small
//! helpers for building argument lists.

use vstd::prelude::*;
use vstd::string::StringSliceAdditionalSpecFns;
use vstd::utf8::encode_utf8_decode_utf8;

verus! {

/// Microseconds in one second. Every time in this crate is a whole number of
/// microseconds, the unit of the engine's progress channel.
pub const MICROS_PER_SECOND: u64 = 1_000_000;

/// The character that writes the digit `d` in base ten.
pub open spec fn digit_char(d: nat) -> char {
    if d == 0 {
        '0'
    } else if d == 1 {
        '1'
    } else if d == 2 {
        '2'
    } else if d == 3 {
        '3'
    } else if d == 4 {
        '4'
    } else if d == 5 {
        '5'
    } else if d == 6 {
        '6'
    } else if d == 7 {
        '7'
    } else if d == 8 {
        '8'
    } else {
        '9'
    }
}

/// The decimal numeral of `n`, without sign or leading zeros.
pub open spec fn decimal(n: nat) -> Seq<char>
    decreases n,
{
    if n < 10 {
        seq![digit_char(n)]
    } else {
        decimal(n / 10).push(digit_char(n % 10))
    }
}

/// The last `width` decimal digits of `n`, zeros included.
pub open spec fn padded_decimal(n: nat, width: nat) -> Seq<char>
    decreases width,
{
    if width == 0 {
        Seq::empty()
    } else {
        padded_decimal(n / 10, (width - 1) as nat).push(digit_char(n % 10))
    }
}

/// The digits after the decimal point of `n / 10^width`, with the zeros at
/// the end left out; empty where the fraction is zero.
pub open spec fn fraction_digits(n: nat, width: nat) -> Seq<char>
    decreases width,
{
    if width == 0 || n == 0 {
        Seq::empty()
    } else if n % 10 == 0 {
        fraction_digits(n / 10, (width - 1) as nat)
    } else {
        padded_decimal(n, width)
    }
}

/// A time of `micros` microseconds written in seconds: the whole seconds,
/// then, unless the rest is zero, a point and up to six digits.
pub open spec fn seconds_text(micros: nat) -> Seq<char> {
    let whole = micros / (MICROS_PER_SECOND as nat);
    let rest = micros % (MICROS_PER_SECOND as nat);
    if rest == 0 {
        decimal(whole)
    } else {
        decimal(whole) + seq!['.'] + fraction_digits(rest, 6)
    }
}

/// Whether `c` is one of the ten digits.
pub open spec fn is_digit(c: char) -> bool {
    '0' <= c && c <= '9'
}

/// The value of the digit `c`.
pub open spec fn digit_of(c: char) -> nat {
    (c as int - '0' as int) as nat
}

/// Whether `text` is a numeral: one digit or more, and nothing else.
pub open spec fn is_numeral(text: Seq<char>) -> bool {
    text.len() > 0 && forall|i: int| 0 <= i < text.len() ==> is_digit(#[trigger] text[i])
}

/// The number that the digits of `text` write in base ten.
pub open spec fn numeral_value(text: Seq<char>) -> nat
    decreases text.len(),
{
    if text.len() == 0 {
        0
    } else {
        numeral_value(text.drop_last()) * 10 + digit_of(text.last())
    }
}

/// The integer that `text` writes: a numeral, with or without one sign in
/// front. Anything else, a blank among it, writes no integer.
pub open spec fn integer_of(text: Seq<char>) -> Option<int> {
    if text.len() > 0 && (text[0] == '-' || text[0] == '+') {
        if is_numeral(text.skip(1)) {
            if text[0] == '-' {
                Some(-(numeral_value(text.skip(1)) as int))
            } else {
                Some(numeral_value(text.skip(1)) as int)
            }
        } else {
            None
        }
    } else if is_numeral(text) {
        Some(numeral_value(text) as int)
    } else {
        None
    }
}

/// The integer that `text` writes, if it is one of 64 bits.
pub open spec fn i64_of(text: Seq<char>) -> Option<i64> {
    match integer_of(text) {
        Some(value) => if i64::MIN <= value <= i64::MAX {
            Some(value as i64)
        } else {
            None
        },
        None => None,
    }
}

/// The texts of a list of strings.
pub open spec fn texts(list: Seq<String>) -> Seq<Seq<char>> {
    Seq::new(list.len(), |i: int| list[i]@)
}

/// The one-character string for a single digit.
fn digit_str(d: u64) -> (s: &'static str)
    requires
        d < 10,
    ensures
        s@ == seq![digit_char(d as nat)],
{
    proof {
        reveal_strlit("0");
        reveal_strlit("1");
        reveal_strlit("2");
        reveal_strlit("3");
        reveal_strlit("4");
        reveal_strlit("5");
        reveal_strlit("6");
        reveal_strlit("7");
        reveal_strlit("8");
        reveal_strlit("9");
    }
    if d == 0 {
        "0"
    } else if d == 1 {
        "1"
    } else if d == 2 {
        "2"
    } else if d == 3 {
        "3"
    } else if d == 4 {
        "4"
    } else if d == 5 {
        "5"
    } else if d == 6 {
        "6"
    } else if d == 7 {
        "7"
    } else if d == 8 {
        "8"
    } else {
        "9"
    }
}

/// Writes `n` in base ten.
pub fn decimal_string(n: u64) -> (s: String)
    ensures
        s@ == decimal(n as nat),
    decreases n,
{
    if n < 10 {
        String::from_str(digit_str(n))
    } else {
        let mut s = decimal_string(n / 10);
        s.append(digit_str(n % 10));
        s
    }
}

/// Writes the last `width` digits of `n`.
fn padded_decimal_string(n: u64, width: u32) -> (s: String)
    ensures
        s@ == padded_decimal(n as nat, width as nat),
    decreases width,
{
    if width == 0 {
        String::new()
    } else {
        let mut s = padded_decimal_string(n / 10, width - 1);
        s.append(digit_str(n % 10));
        s
    }
}

/// Writes the fraction `n / 10^width` without its point and without zeros at
/// the end.
fn fraction_string(n: u64, width: u32) -> (s: String)
    ensures
        s@ == fraction_digits(n as nat, width as nat),
    decreases width,
{
    if width == 0 || n == 0 {
        String::new()
    } else if n % 10 == 0 {
        fraction_string(n / 10, width - 1)
    } else {
        padded_decimal_string(n, width)
    }
}

/// Writes a time in seconds, as the engine reads it on its command line:
/// `2000000` gives `2`, `2500000` gives `2.5`, `1` gives `0.000001`.
pub fn seconds_string(micros: u64) -> (s: String)
    ensures
        s@ == seconds_text(micros as nat),
{
    let whole = micros / MICROS_PER_SECOND;
    let rest = micros % MICROS_PER_SECOND;
    let mut s = decimal_string(whole);
    if rest != 0 {
        let fraction = fraction_string(rest, 6);
        proof {
            reveal_strlit(".");
        }
        s.append(".");
        s.append(fraction.as_str());
        assert(s@ =~= decimal(whole as nat) + seq!['.'] + fraction_digits(rest as nat, 6));
    }
    s
}

/// Whether two strings hold the same text.
pub fn same_text(a: &str, b: &str) -> (same: bool)
    ensures
        same == (a@ == b@),
{
    let x = a.as_bytes();
    let y = b.as_bytes();
    proof {
        encode_utf8_decode_utf8(a@);
        encode_utf8_decode_utf8(b@);
    }
    if x.len() != y.len() {
        return false;
    }
    let mut i: usize = 0;
    while i < x.len()
        invariant
            i <= x.len(),
            x@.len() == y@.len(),
            forall|k: int| 0 <= k < i ==> x@[k] == y@[k],
            x@ == a.spec_bytes(),
            y@ == b.spec_bytes(),
            a@ == b@ ==> x@ == y@,
        decreases x.len() - i,
    {
        if x[i] != y[i] {
            return false;
        }
        i = i + 1;
    }
    assert(x@ =~= y@);
    true
}

/// Appends a copy of `text` to an argument list.
pub fn push_text(list: &mut Vec<String>, text: &str)
    ensures
        texts(final(list)@) == texts(old(list)@).push(text@),
{
    list.push(String::from_str(text));
    assert(texts(list@) =~= texts(old(list)@).push(text@));
}

/// Appends `text` itself to an argument list.
pub fn push_string(list: &mut Vec<String>, text: String)
    ensures
        texts(final(list)@) == texts(old(list)@).push(text@),
{
    list.push(text);
    assert(texts(list@) =~= texts(old(list)@).push(text@));
}

/// What `decimal` writes is a numeral, and it reads back as the number
/// written.
pub proof fn lemma_decimal_reads_back(n: nat)
    ensures
        is_numeral(decimal(n)),
        numeral_value(decimal(n)) == n,
    decreases n,
{
    let text = decimal(n);
    if n < 10 {
        assert(text.drop_last() =~= Seq::<char>::empty());
        assert(text.last() == digit_char(n));
        assert(numeral_value(text.drop_last()) == 0);
    } else {
        lemma_decimal_reads_back(n / 10);
        assert(text.drop_last() =~= decimal(n / 10));
        assert(text.last() == digit_char(n % 10));
        assert forall|i: int| 0 <= i < text.len() implies is_digit(#[trigger] text[i]) by {
            if i < text.len() - 1 {
                assert(text[i] == decimal(n / 10)[i]);
            }
        }
    }
}

/// The characters of a string.
pub fn text_chars(text: &str) -> (chars: Vec<char>)
    ensures
        chars@ == text@,
{
    let mut chars: Vec<char> = Vec::new();
    for c in it: text.chars()
        invariant
            it.seq() == text@,
            chars@ == text@.take(it.index() as int),
    {
        chars.push(c);
        assert(text@.take(it.index() + 1) =~= text@.take(it.index() as int).push(c));
    }
    assert(text@.take(text@.len() as int) =~= text@);
    chars
}

/// Whether `chars` begins with the characters of `prefix`.
pub fn starts_with(chars: &Vec<char>, prefix: &Vec<char>) -> (yes: bool)
    ensures
        yes == prefix@.is_prefix_of(chars@),
{
    if prefix.len() > chars.len() {
        return false;
    }
    let mut i: usize = 0;
    while i < prefix.len()
        invariant
            i <= prefix.len() <= chars.len(),
            forall|k: int| 0 <= k < i ==> chars@[k] == prefix@[k],
        decreases prefix.len() - i,
    {
        if chars[i] != prefix[i] {
            assert(chars@.subrange(0, prefix@.len() as int)[i as int] != prefix@[i as int]);
            return false;
        }
        i = i + 1;
    }
    assert(chars@.subrange(0, prefix@.len() as int) =~= prefix@);
    true
}

/// A longer numeral writes no smaller number than its beginning.
pub proof fn lemma_numeral_value_grows(text: Seq<char>, shorter: int)
    requires
        0 <= shorter <= text.len(),
    ensures
        numeral_value(text.take(shorter)) <= numeral_value(text),
    decreases text.len(),
{
    if shorter < text.len() {
        lemma_numeral_value_grows(text.drop_last(), shorter);
        assert(text.drop_last().take(shorter) =~= text.take(shorter));
    } else {
        assert(text.take(shorter) =~= text);
    }
}

/// Reads the number that the characters from `from` on write, where they
/// are a numeral of a number no larger than 2^63.
fn parse_magnitude(chars: &Vec<char>, from: usize) -> (value: Option<u128>)
    requires
        from <= chars@.len(),
    ensures
        value is Some <==> is_numeral(chars@.skip(from as int)) && numeral_value(
            chars@.skip(from as int),
        ) <= 0x8000_0000_0000_0000,
        value matches Some(v) ==> v == numeral_value(chars@.skip(from as int)),
{
    let ghost digits = chars@.skip(from as int);
    let n = chars.len();
    if from == n {
        return None;
    }
    let mut at = from;
    let mut magnitude: u128 = 0;
    while at < n
        invariant
            from <= at <= n,
            n == chars@.len(),
            digits == chars@.skip(from as int),
            magnitude == numeral_value(digits.take(at - from)),
            magnitude <= 0x8000_0000_0000_0000,
            forall|k: int| 0 <= k < at - from ==> is_digit(#[trigger] digits[k]),
        decreases n - at,
    {
        let c = chars[at];
        if !('0' <= c && c <= '9') {
            assert(!is_digit(digits[at - from]));
            return None;
        }
        let ghost longer = digits.take(at - from + 1);
        assert(longer.drop_last() =~= digits.take(at - from));
        assert(longer.last() == c);
        magnitude = magnitude * 10 + (c as u32 - '0' as u32) as u128;
        if magnitude > 0x8000_0000_0000_0000 {
            proof {
                lemma_numeral_value_grows(digits, at - from + 1);
            }
            return None;
        }
        at = at + 1;
    }
    assert(digits.take(at - from) =~= digits);
    Some(magnitude)
}

/// Reads the integer of 64 bits that the characters from `from` on write:
/// a numeral, with or without one sign in front.
pub fn parse_i64(chars: &Vec<char>, from: usize) -> (value: Option<i64>)
    requires
        from <= chars@.len(),
    ensures
        value == i64_of(chars@.skip(from as int)),
{
    let ghost text = chars@.skip(from as int);
    let signed = from < chars.len() && (chars[from] == '-' || chars[from] == '+');
    let negative = signed && chars[from] == '-';
    let start = if signed {
        from + 1
    } else {
        from
    };
    assert(signed ==> chars@.skip(start as int) =~= text.skip(1));
    match parse_magnitude(chars, start) {
        None => None,
        Some(magnitude) => {
            if negative {
                if magnitude == 0x8000_0000_0000_0000 {
                    Some(i64::MIN)
                } else {
                    Some(-(magnitude as i64))
                }
            } else if magnitude == 0x8000_0000_0000_0000 {
                None
            } else {
                Some(magnitude as i64)
            }
        },
    }
}

} // verus!
