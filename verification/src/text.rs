//! Text: equality, hexadecimal digits and UTF-8.

use vstd::prelude::*;
use vstd::string::StringExecFns;
use vstd::utf8::{decode_utf8, valid_utf8};

verus! {

/// Whether two texts are the same.
pub fn text_equal(a: &str, b: &str) -> (same: bool)
    ensures
        same == (a@ == b@),
{
    a.to_owned() == b.to_owned()
}

/// `String::from_utf8` of the standard library: the text whose UTF-8 encoding
/// the bytes are, or nothing if they encode no text.
#[verifier::external_body]
pub(crate) fn text_from_utf8(bytes: Vec<u8>) -> (text: Option<String>)
    ensures
        match text {
            Some(t) => valid_utf8(bytes@) && t@ == decode_utf8(bytes@),
            None => !valid_utf8(bytes@),
        },
{
    String::from_utf8(bytes).ok()
}

/// Whether a character may stand in a name: a lower-case letter, a digit, `-` or `_`.
pub open spec fn name_char(c: char) -> bool {
    ('a' <= c && c <= 'z') || ('0' <= c && c <= '9') || c == '-' || c == '_'
}

/// Whether `s` is a name: not empty, and of name characters only.
pub open spec fn is_name_text(s: Seq<char>) -> bool {
    s.len() > 0 && forall|i: int| 0 <= i < s.len() ==> name_char(#[trigger] s[i])
}

/// Whether `s` is a row of names with single dots between them.
pub open spec fn is_dotted_text(s: Seq<char>) -> bool {
    &&& s.len() > 0
    &&& s[0] != '.'
    &&& s[s.len() - 1] != '.'
    &&& forall|i: int| 0 <= i < s.len() ==> s[i] == '.' || name_char(#[trigger] s[i])
    &&& forall|i: int| 0 <= i < s.len() - 1 ==> !(#[trigger] s[i] == '.' && s[i + 1] == '.')
}

fn is_name_byte(b: u8) -> (ok: bool)
    requires
        b < 128,
    ensures
        ok == name_char(b as char),
{
    (0x61 <= b && b <= 0x7a) || (0x30 <= b && b <= 0x39) || b == 0x2d || b == 0x5f
}

/// Whether `value` is a name.
pub fn is_name(value: &str) -> (ok: bool)
    ensures
        ok == is_name_text(value@),
{
    if !value.is_ascii() {
        proof {
            lemma_name_is_ascii(value@);
        }
        return false;
    }
    let bytes = value.as_bytes();
    proof {
        vstd::string::is_ascii_spec_bytes(value);
    }
    if bytes.len() == 0 {
        return false;
    }
    let mut i: usize = 0;
    while i < bytes.len()
        invariant
            i <= bytes@.len(),
            bytes@.len() == value@.len(),
            vstd::utf8::is_ascii_chars(value@),
            forall|j: int| 0 <= j < value@.len() ==> bytes@[j] == value@[j] as u8,
            forall|j: int| 0 <= j < i ==> name_char(#[trigger] value@[j]),
        decreases bytes@.len() - i,
    {
        proof {
            lemma_ascii_char(value@, i as int);
        }
        if !is_name_byte(bytes[i]) {
            return false;
        }
        i = i + 1;
    }
    true
}

/// Whether `value` is a row of names with single dots between them.
pub fn is_dotted(value: &str) -> (ok: bool)
    ensures
        ok == is_dotted_text(value@),
{
    if !value.is_ascii() {
        proof {
            lemma_dotted_is_ascii(value@);
        }
        return false;
    }
    let bytes = value.as_bytes();
    proof {
        vstd::string::is_ascii_spec_bytes(value);
    }
    if bytes.len() == 0 {
        return false;
    }
    let mut after_dot = true;
    let mut i: usize = 0;
    while i < bytes.len()
        invariant
            i <= bytes@.len(),
            bytes@.len() == value@.len(),
            vstd::utf8::is_ascii_chars(value@),
            forall|j: int| 0 <= j < value@.len() ==> bytes@[j] == value@[j] as u8,
            forall|j: int| 0 <= j < i ==> value@[j] == '.' || name_char(#[trigger] value@[j]),
            forall|j: int| 0 <= j < i - 1 ==> !(#[trigger] value@[j] == '.' && value@[j + 1] == '.'),
            i > 0 ==> value@[0] != '.',
            after_dot == (i == 0 || value@[i - 1] == '.'),
        decreases bytes@.len() - i,
    {
        proof {
            lemma_ascii_char(value@, i as int);
        }
        if bytes[i] == 0x2e {
            if after_dot {
                assert(value@[i as int] == '.');
                assert(i > 0 ==> value@[i - 1] == '.');
                return false;
            }
            after_dot = true;
        } else {
            if !is_name_byte(bytes[i]) {
                return false;
            }
            after_dot = false;
        }
        i = i + 1;
    }
    !after_dot
}

pub proof fn lemma_ascii_char(s: Seq<char>, i: int)
    requires
        vstd::utf8::is_ascii_chars(s),
        0 <= i < s.len(),
    ensures
        (s[i] as u8) < 128,
        s[i] as u8 as char == s[i],
        s[i] as u8 == '.' as u8 <==> s[i] == '.',
{
    vstd::utf8::is_ascii_chars_nat_bound(s);
}

proof fn lemma_name_is_ascii(s: Seq<char>)
    ensures
        is_name_text(s) ==> vstd::utf8::is_ascii_chars(s),
{
}

pub proof fn lemma_dotted_is_ascii(s: Seq<char>)
    ensures
        is_dotted_text(s) ==> vstd::utf8::is_ascii_chars(s),
{
}

/// The hexadecimal digit of a number below sixteen.
pub open spec fn hex_digit(n: int) -> char {
    if n < 10 {
        (n + 48) as char
    } else {
        (n + 87) as char
    }
}

/// Different numbers have different digits.
pub proof fn hex_digit_injective(a: int, b: int)
    requires
        0 <= a < 16,
        0 <= b < 16,
        hex_digit(a) == hex_digit(b),
    ensures
        a == b,
{
}

/// Two hexadecimal digits for each byte, in lower case.
pub open spec fn hex_text(bytes: Seq<u8>) -> Seq<char> {
    Seq::new(
        2 * bytes.len(),
        |i: int|
            if i % 2 == 0 {
                hex_digit(bytes[i / 2] as int / 16)
            } else {
                hex_digit(bytes[i / 2] as int % 16)
            },
    )
}

fn digit_text(n: u8) -> (text: &'static str)
    requires
        n < 16,
    ensures
        text@ == seq![hex_digit(n as int)],
{
    proof {
        reveal_strlit("0");
        reveal_strlit("1");
        reveal_strlit("2");
        reveal_strlit("3");
        reveal_strlit("4");
        reveal_strlit("5");
        reveal_strlit("6");
        reveal_strlit("7");
        reveal_strlit("8");
        reveal_strlit("9");
        reveal_strlit("a");
        reveal_strlit("b");
        reveal_strlit("c");
        reveal_strlit("d");
        reveal_strlit("e");
        reveal_strlit("f");
    }
    let text = match n {
        0 => "0",
        1 => "1",
        2 => "2",
        3 => "3",
        4 => "4",
        5 => "5",
        6 => "6",
        7 => "7",
        8 => "8",
        9 => "9",
        10 => "a",
        11 => "b",
        12 => "c",
        13 => "d",
        14 => "e",
        _ => "f",
    };
    assert(text@ =~= seq![hex_digit(n as int)]);
    text
}

/// The decimal digit of a number below ten.
pub open spec fn decimal_digit(n: int) -> char {
    (n + 48) as char
}

/// Appends a decimal digit.
pub fn push_decimal_digit(out: &mut String, n: u8)
    requires
        n < 10,
    ensures
        final(out)@ == old(out)@.push(decimal_digit(n as int)),
{
    out.append(digit_text(n));
    assert(out@ =~= old(out)@.push(decimal_digit(n as int)));
}

/// A number in decimal digits.
pub open spec fn decimal_text(n: nat) -> Seq<char>
    decreases n,
{
    if n < 10 {
        seq![decimal_digit(n as int)]
    } else {
        decimal_text(n / 10).push(decimal_digit((n % 10) as int))
    }
}

/// Appends a number in decimal digits.
pub fn push_decimal(out: &mut String, n: u64)
    ensures
        final(out)@ == old(out)@ + decimal_text(n as nat),
    decreases n,
{
    let ghost before = out@;
    if n >= 10 {
        push_decimal(out, n / 10);
    }
    push_decimal_digit(out, (n % 10) as u8);
    assert(out@ =~= before + decimal_text(n as nat));
}

/// Whether a text has no character.
pub fn is_empty_text(text: &str) -> (empty: bool)
    ensures
        empty == (text@.len() == 0),
{
    proof {
        reveal_strlit("");
    }
    let empty = text_equal(text, "");
    proof {
        if text@.len() == 0 {
            assert(text@ =~= ""@);
        }
    }
    empty
}

/// Appends the hexadecimal digits of `bytes`.
pub fn push_hex(out: &mut String, bytes: &[u8])
    ensures
        final(out)@ == old(out)@ + hex_text(bytes@),
{
    let mut i: usize = 0;
    proof {
        assert(hex_text(bytes@.subrange(0, 0)) =~= Seq::<char>::empty());
    }
    while i < bytes.len()
        invariant
            i <= bytes@.len(),
            out@ == old(out)@ + hex_text(bytes@.subrange(0, i as int)),
        decreases bytes@.len() - i,
    {
        out.append(digit_text(bytes[i] / 16));
        out.append(digit_text(bytes[i] % 16));
        proof {
            let before = bytes@.subrange(0, i as int);
            let after = bytes@.subrange(0, i + 1);
            let b = bytes@[i as int];
            assert(hex_text(after) =~= hex_text(before) + seq![hex_digit(b as int / 16)] + seq![
                hex_digit(b as int % 16),
            ]);
        }
        i = i + 1;
    }
    assert(bytes@.subrange(0, i as int) =~= bytes@);
}

/// A name has small letters, digits, dashes and underscores, at least one of them.
pub proof fn names_are_plain(s: Seq<char>, i: int)
    ensures
        s.len() == 0 ==> !is_name_text(s),
        is_name_text(s) && 0 <= i < s.len() ==> ('a' <= s[i] <= 'z') || ('0' <= s[i] <= '9') || s[i]
            == '-' || s[i] == '_',
        0 <= i < s.len() && !('a' <= s[i] <= 'z') && !('0' <= s[i] <= '9') && s[i] != '-' && s[i] != '_'
            ==> !is_name_text(s),
        s.len() > 0 && (forall|j: int|
            0 <= j < s.len() ==> ('a' <= #[trigger] s[j] <= 'z') || ('0' <= s[j] <= '9') || s[j] == '-'
                || s[j] == '_') ==> is_name_text(s),
{
    if s.len() > 0 && (forall|j: int|
        0 <= j < s.len() ==> ('a' <= #[trigger] s[j] <= 'z') || ('0' <= s[j] <= '9') || s[j] == '-' || s[j]
            == '_') {
        assert forall|j: int| 0 <= j < s.len() implies name_char(#[trigger] s[j]) by {}
    }
}

/// Names with single dots between them are a dotted text, and nothing else is: a name is
/// one, two of them with a dot between them are, and none begins or ends with a dot or has
/// two in a row.
pub proof fn dotted_texts_are_names_with_dots(a: Seq<char>, b: Seq<char>, i: int)
    ensures
        is_name_text(a) ==> is_dotted_text(a),
        is_dotted_text(a) && is_dotted_text(b) ==> is_dotted_text(a.push('.') + b),
        is_dotted_text(a) ==> a[0] != '.' && a[a.len() - 1] != '.',
        is_dotted_text(a) && 0 <= i < a.len() - 1 && a[i] == '.' ==> a[i + 1] != '.',
        is_dotted_text(a) && 0 <= i < a.len() ==> a[i] == '.' || ('a' <= a[i] <= 'z') || ('0' <= a[i]
            <= '9') || a[i] == '-' || a[i] == '_',
        !is_dotted_text(Seq::empty()),
{
    if is_name_text(a) {
        assert(name_char(a[0]));
        assert(name_char(a[a.len() - 1]));
        assert forall|j: int| 0 <= j < a.len() - 1 implies !(#[trigger] a[j] == '.' && a[j + 1] == '.') by {
            assert(name_char(a[j]));
        }
    }
    if is_dotted_text(a) && is_dotted_text(b) {
        let s = a.push('.') + b;
        let n = a.len() as int;
        assert forall|j: int| 0 <= j < s.len() implies s[j] == '.' || name_char(#[trigger] s[j]) by {
            if j < n {
                assert(s[j] == a[j]);
                assert(a[j] == '.' || name_char(a[j]));
            } else if j > n {
                assert(s[j] == b[j - n - 1]);
                assert(b[j - n - 1] == '.' || name_char(b[j - n - 1]));
            }
        }
        assert(s[0] == a[0]);
        assert(s[s.len() - 1] == b[b.len() - 1]);
        assert forall|j: int| 0 <= j < s.len() - 1 implies !(#[trigger] s[j] == '.' && s[j + 1] == '.') by {
            if j < n - 1 {
                assert(s[j] == a[j] && s[j + 1] == a[j + 1]);
                assert(!(a[j] == '.' && a[j + 1] == '.'));
            } else if j == n - 1 {
                assert(s[j] == a[n - 1]);
            } else if j == n {
                assert(s[j + 1] == b[0]);
            } else {
                assert(s[j] == b[j - n - 1] && s[j + 1] == b[j - n]);
                assert(!(b[j - n - 1] == '.' && b[j - n - 1 + 1] == '.'));
            }
        }
    }
}

/// A byte is written as two digits, sixteens first, from 0 to 9 and from a to f.
pub proof fn bytes_are_written_as_two_digits(bytes: Seq<u8>, i: int)
    requires
        0 <= i < bytes.len(),
    ensures
        hex_text(bytes).len() == 2 * bytes.len(),
        ({
            let high = bytes[i] as int / 16;
            let low = bytes[i] as int % 16;
            &&& high < 10 ==> hex_text(bytes)[2 * i] as int == '0' as int + high
            &&& high >= 10 ==> hex_text(bytes)[2 * i] as int == 'a' as int + high - 10
            &&& low < 10 ==> hex_text(bytes)[2 * i + 1] as int == '0' as int + low
            &&& low >= 10 ==> hex_text(bytes)[2 * i + 1] as int == 'a' as int + low - 10
        }),
{
    assert((2 * i) / 2 == i && (2 * i) % 2 == 0);
    assert((2 * i + 1) / 2 == i && (2 * i + 1) % 2 == 1);
}

/// A number is written in digits, tens before ones, without a zero in front.
pub proof fn numbers_are_written_in_digits(n: nat)
    ensures
        n < 10 ==> decimal_text(n).len() == 1,
        n >= 10 ==> decimal_text(n) == decimal_text(n / 10).push(decimal_digit((n % 10) as int)),
        decimal_text(n).last() as int == '0' as int + n % 10,
        n > 0 ==> decimal_text(n)[0] != '0',
    decreases n,
{
    if n >= 10 {
        numbers_are_written_in_digits(n / 10);
        assert(decimal_text(n)[0] == decimal_text(n / 10)[0]) by {
            assert(decimal_text(n / 10).len() > 0) by {
                lemma_decimal_not_empty(n / 10);
            }
        }
    }
}

proof fn lemma_decimal_not_empty(n: nat)
    ensures
        decimal_text(n).len() > 0,
{
}

} // verus!
