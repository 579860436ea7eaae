use vstd::prelude::*;
use vstd::string::*;
use vstd::utf8::*;

verus! {

/// The upper-case form of a text, as the standard library's Unicode case
/// mapping computes it.
pub uninterp spec fn uppercase(text: Seq<char>) -> Seq<char>;

/// The lower-case form of a text, as the standard library's Unicode case
/// mapping computes it.
pub uninterp spec fn lowercase(text: Seq<char>) -> Seq<char>;

/// Calls `str::to_uppercase`. Trusted: the result is the upper-case form of
/// the argument, which depends on the argument alone.
#[verifier::external_body]
pub(crate) fn to_uppercase(text: &str) -> (upper: String)
    ensures
        upper@ == uppercase(text@),
{
    text.to_uppercase()
}

/// Calls `str::to_lowercase`. Trusted: the result is the lower-case form of
/// the argument, which depends on the argument alone.
#[verifier::external_body]
pub(crate) fn to_lowercase(text: &str) -> (lower: String)
    ensures
        lower@ == lowercase(text@),
{
    text.to_lowercase()
}

/// The texts of a list of strings, in order.
pub open spec fn texts(items: Seq<String>) -> Seq<Seq<char>> {
    Seq::new(items.len(), |i: int| items[i]@)
}

/// The upper-case forms of a list of texts, in order.
pub open spec fn uppercased(items: Seq<Seq<char>>) -> Seq<Seq<char>> {
    Seq::new(items.len(), |i: int| uppercase(items[i]))
}

/// The lower-case forms of a list of texts, in order.
pub open spec fn lowercased(items: Seq<Seq<char>>) -> Seq<Seq<char>> {
    Seq::new(items.len(), |i: int| lowercase(items[i]))
}

/// The upper-case form of each string, in order.
pub fn all_to_uppercase(items: &[String]) -> (upper: Vec<String>)
    ensures
        texts(upper@) == uppercased(texts(items@)),
{
    let mut upper: Vec<String> = Vec::new();
    let mut i: usize = 0;
    while i < items.len()
        invariant
            i <= items.len(),
            upper.len() == i,
            forall|j: int| 0 <= j < i ==> upper[j]@ == uppercase(items[j]@),
        decreases items.len() - i,
    {
        upper.push(to_uppercase(items[i].as_str()));
        i += 1;
    }
    upper
}

/// The lower-case form of each string, in order.
pub fn all_to_lowercase(items: &[String]) -> (lower: Vec<String>)
    ensures
        texts(lower@) == lowercased(texts(items@)),
{
    let mut lower: Vec<String> = Vec::new();
    let mut i: usize = 0;
    while i < items.len()
        invariant
            i <= items.len(),
            lower.len() == i,
            forall|j: int| 0 <= j < i ==> lower[j]@ == lowercase(items[j]@),
        decreases items.len() - i,
    {
        lower.push(to_lowercase(items[i].as_str()));
        i += 1;
    }
    lower
}

/// Two string slices hold the same text exactly when their UTF-8 encodings
/// agree byte for byte.
pub fn str_eq(a: &str, b: &str) -> (same: bool)
    ensures
        same == (a@ == b@),
{
    let x = a.as_bytes();
    let y = b.as_bytes();
    proof {
        encode_utf8_decode_utf8(a@);
        encode_utf8_decode_utf8(b@);
    }
    if x.len() != y.len() {
        return false;
    }
    let mut i: usize = 0;
    while i < x.len()
        invariant
            i <= x.len(),
            x.len() == y.len(),
            x@ == encode_utf8(a@),
            y@ == encode_utf8(b@),
            forall|j: int| 0 <= j < i ==> x@[j] == y@[j],
        decreases x.len() - i,
    {
        if x[i] != y[i] {
            return false;
        }
        i += 1;
    }
    assert(x@ =~= y@);
    true
}

/// The parts written one after another, with the separator between each two
/// neighbours.
pub open spec fn joined(parts: Seq<Seq<char>>, separator: Seq<char>) -> Seq<char>
    decreases parts.len(),
{
    if parts.len() == 0 {
        Seq::empty()
    } else if parts.len() == 1 {
        parts[0]
    } else {
        joined(parts.drop_last(), separator) + separator + parts.last()
    }
}

/// Joins the strings with the separator between each two neighbours.
pub fn join(parts: &Vec<String>, separator: &str) -> (text: String)
    ensures
        text@ == joined(texts(parts@), separator@),
{
    let mut text = String::new();
    let mut i: usize = 0;
    while i < parts.len()
        invariant
            i <= parts.len(),
            text@ == joined(texts(parts@).take(i as int), separator@),
        decreases parts.len() - i,
    {
        let ghost before = texts(parts@).take(i as int);
        let ghost after = texts(parts@).take(i + 1);
        proof {
            assert(after.drop_last() =~= before);
        }
        if i > 0 {
            text.append(separator);
        } else {
            assert(text@ + parts@[i as int]@ =~= parts@[i as int]@);
        }
        text.append(parts[i].as_str());
        i += 1;
    }
    assert(texts(parts@).take(parts.len() as int) =~= texts(parts@));
    text
}

/// The decimal digit that stands for a value below ten.
pub open spec fn digit_char(value: nat) -> char {
    if value == 0 {
        '0'
    } else if value == 1 {
        '1'
    } else if value == 2 {
        '2'
    } else if value == 3 {
        '3'
    } else if value == 4 {
        '4'
    } else if value == 5 {
        '5'
    } else if value == 6 {
        '6'
    } else if value == 7 {
        '7'
    } else if value == 8 {
        '8'
    } else {
        '9'
    }
}

/// The decimal numeral of a natural number: no sign, no leading zero but
/// for zero itself.
pub open spec fn decimal(value: nat) -> Seq<char>
    decreases value,
{
    if value < 10 {
        seq![digit_char(value)]
    } else {
        decimal(value / 10).push(digit_char(value % 10))
    }
}

/// The decimal digit of a value below ten, as a string.
fn digit_str(value: u64) -> (digit: &'static str)
    requires
        value < 10,
    ensures
        digit@ == seq![digit_char(value as nat)],
{
    proof {
        reveal_strlit("0");
        reveal_strlit("1");
        reveal_strlit("2");
        reveal_strlit("3");
        reveal_strlit("4");
        reveal_strlit("5");
        reveal_strlit("6");
        reveal_strlit("7");
        reveal_strlit("8");
        reveal_strlit("9");
    }
    let digit = if value == 0 {
        "0"
    } else if value == 1 {
        "1"
    } else if value == 2 {
        "2"
    } else if value == 3 {
        "3"
    } else if value == 4 {
        "4"
    } else if value == 5 {
        "5"
    } else if value == 6 {
        "6"
    } else if value == 7 {
        "7"
    } else if value == 8 {
        "8"
    } else {
        "9"
    };
    digit
}

/// Writes a number as its decimal numeral.
pub fn decimal_string(value: u64) -> (text: String)
    ensures
        text@ == decimal(value as nat),
    decreases value,
{
    if value < 10 {
        String::from_str(digit_str(value))
    } else {
        let head = decimal_string(value / 10);
        let text = head.concat(digit_str(value % 10));
        text
    }
}

/// Whether a character is one of the ten decimal digits.
pub open spec fn is_digit(c: char) -> bool {
    '0' <= c <= '9'
}

/// The value of a decimal digit.
pub open spec fn digit_value(c: char) -> nat {
    (c as u32 - '0' as u32) as nat
}

/// The number that a run of decimal digits writes.
pub open spec fn digits_value(digits: Seq<char>) -> nat
    decreases digits.len(),
{
    if digits.len() == 0 {
        0
    } else {
        digits_value(digits.drop_last()) * 10 + digit_value(digits.last())
    }
}

/// The digits of an unsigned numeral: the text without one leading `+`.
pub open spec fn unsigned_digits(text: Seq<char>) -> Seq<char> {
    if text.len() > 0 && text[0] == '+' {
        text.subrange(1, text.len() as int)
    } else {
        text
    }
}

/// The number that a text writes as an unsigned 64-bit decimal numeral: an
/// optional `+`, then at least one digit and nothing but digits, of a value
/// that fits. Any other text writes none.
pub open spec fn parsed_u64(text: Seq<char>) -> Option<u64> {
    let digits = unsigned_digits(text);
    if digits.len() > 0 && (forall|i: int| 0 <= i < digits.len() ==> is_digit(#[trigger] digits[i]))
        && digits_value(digits) <= u64::MAX {
        Some(digits_value(digits) as u64)
    } else {
        None
    }
}

/// A run of digits is worth at least as much as any run it begins with.
proof fn lemma_digits_value_grows(digits: Seq<char>, n: int)
    requires
        0 <= n <= digits.len(),
    ensures
        digits_value(digits.take(n)) <= digits_value(digits),
    decreases digits.len() - n,
{
    if n == digits.len() {
        assert(digits.take(n) =~= digits);
    } else {
        lemma_digits_value_grows(digits, n + 1);
        assert(digits.take(n + 1).drop_last() =~= digits.take(n));
    }
}

/// Reads an unsigned 64-bit decimal numeral.
pub fn parse_u64(text: &str) -> (number: Option<u64>)
    ensures
        number == parsed_u64(text@),
{
    let len = text.unicode_len();
    let start: usize = if len > 0 && text.get_char(0) == '+' {
        1
    } else {
        0
    };
    let ghost digits = unsigned_digits(text@);
    if start == len {
        return None;
    }
    let mut value: u64 = 0;
    let mut i: usize = start;
    while i < len
        invariant
            start <= i <= len,
            len == text@.len(),
            digits == text@.subrange(start as int, len as int),
            digits == unsigned_digits(text@),
            forall|j: int| 0 <= j < i - start ==> is_digit(#[trigger] digits[j]),
            value == digits_value(digits.take(i - start)),
        decreases len - i,
    {
        let c = text.get_char(i);
        let ghost k = i - start;
        assert(digits[k] == c);
        if !(c >= '0' && c <= '9') {
            return None;
        }
        let digit: u64 = (c as u32 - '0' as u32) as u64;
        proof {
            assert(digits.take(k + 1).drop_last() =~= digits.take(k));
            lemma_digits_value_grows(digits, k + 1);
        }
        let scaled = match value.checked_mul(10) {
            Some(scaled) => scaled,
            None => {
                return None;
            },
        };
        value = match scaled.checked_add(digit) {
            Some(sum) => sum,
            None => {
                return None;
            },
        };
        i += 1;
    }
    assert(digits.take(len - start) =~= digits);
    Some(value)
}

} // verus!
