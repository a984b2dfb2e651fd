//! Character-level helpers shared by the parser and the emitter: whitespace,
//! ASCII case folding, and unsigned decimal numerals.

use vstd::prelude::*;

verus! {

/// `String::push` appends exactly one character to the end of the string.
pub assume_specification[ String::push ](s: &mut String, c: char)
    ensures
        final(s)@ == old(s)@.push(c),
;

/// The characters with the Unicode `White_Space` property.
pub open spec fn is_space(c: char) -> bool {
    ||| '\u{9}' <= c <= '\u{D}'
    ||| c == ' '
    ||| c == '\u{85}'
    ||| c == '\u{A0}'
    ||| c == '\u{1680}'
    ||| '\u{2000}' <= c <= '\u{200A}'
    ||| c == '\u{2028}'
    ||| c == '\u{2029}'
    ||| c == '\u{202F}'
    ||| c == '\u{205F}'
    ||| c == '\u{3000}'
}

/// Whether a character is whitespace.
pub fn is_whitespace(c: char) -> (b: bool)
    ensures
        b == is_space(c),
{
    (c >= '\u{9}' && c <= '\u{D}') || c == ' ' || c == '\u{85}' || c == '\u{A0}' || c
        == '\u{1680}' || (c >= '\u{2000}' && c <= '\u{200A}') || c == '\u{2028}' || c
        == '\u{2029}' || c == '\u{202F}' || c == '\u{205F}' || c == '\u{3000}'
}

/// An ASCII capital letter becomes its small letter; every other character stays.
pub open spec fn lower_char(c: char) -> char {
    if 'A' <= c <= 'Z' {
        ((c as int) + 32) as char
    } else {
        c
    }
}

/// A text with its ASCII capital letters made small.
pub open spec fn lower(s: Seq<char>) -> Seq<char> {
    Seq::new(s.len(), |i: int| lower_char(s[i]))
}

/// The small letter of an ASCII capital letter; any other character as it is.
pub fn to_lower_char(c: char) -> (l: char)
    ensures
        l == lower_char(c),
{
    if c >= 'A' && c <= 'Z' {
        let code: u8 = (c as u32 + 32) as u8;
        code as char
    } else {
        c
    }
}

/// The characters with the ASCII capital letters among them made small.
pub fn to_lower(s: &Vec<char>) -> (l: Vec<char>)
    ensures
        l@ == lower(s@),
{
    let mut l: Vec<char> = Vec::new();
    let mut i: usize = 0;
    while i < s.len()
        invariant
            i <= s.len(),
            l@ == lower(s@.take(i as int)),
        decreases s.len() - i,
    {
        l.push(to_lower_char(s[i]));
        i += 1;
    }
    l
}

/// The characters of a string slice, in order.
pub fn chars_of(s: &str) -> (v: Vec<char>)
    ensures
        v@ == s@,
{
    let mut v: Vec<char> = Vec::new();
    for c in it: s.chars()
        invariant
            v@ == s@.take(it.index() as int),
            it.seq() == s@,
    {
        v.push(c);
    }
    v
}

/// A string made of the given characters, in order.
pub fn string_of(v: &Vec<char>) -> (s: String)
    ensures
        s@ == v@,
{
    let mut s = String::new();
    let mut i: usize = 0;
    while i < v.len()
        invariant
            i <= v.len(),
            s@ == v@.take(i as int),
        decreases v.len() - i,
    {
        s.push(v[i]);
        i += 1;
    }
    s
}

/// Whether the characters spell exactly the given word.
pub fn spells(v: &Vec<char>, word: &str) -> (b: bool)
    ensures
        b == (v@ == word@),
{
    let w = chars_of(word);
    if w.len() != v.len() {
        return false;
    }
    let mut i: usize = 0;
    while i < v.len()
        invariant
            i <= v.len(),
            w.len() == v.len(),
            w@ == word@,
            v@.take(i as int) == w@.take(i as int),
        decreases v.len() - i,
    {
        if v[i] != w[i] {
            return false;
        }
        i += 1;
    }
    assert(v@.take(v.len() as int) =~= v@);
    assert(w@.take(w.len() as int) =~= w@);
    true
}

/// Whether a character is one of the ten decimal digits.
pub open spec fn is_digit(c: char) -> bool {
    '0' <= c <= '9'
}

/// The number that a decimal digit stands for.
pub open spec fn digit_value(c: char) -> nat {
    (c as int - 48) as nat
}

/// The decimal digit that stands for a number below ten.
pub open spec fn digit_char(d: nat) -> char {
    (48 + d) as char
}

/// Whether a text holds decimal digits only.
pub open spec fn all_digits(s: Seq<char>) -> bool {
    forall|i: int| 0 <= i < s.len() ==> is_digit(#[trigger] s[i])
}

/// The number that a run of decimal digits denotes, most significant digit first.
pub open spec fn digits_value(s: Seq<char>) -> nat
    decreases s.len(),
{
    if s.len() == 0 {
        0
    } else {
        digits_value(s.drop_last()) * 10 + digit_value(s.last())
    }
}

/// The decimal numeral of `n`, without sign or leading zeros.
pub open spec fn decimal(n: nat) -> Seq<char>
    decreases n,
{
    if n < 10 {
        seq![digit_char(n)]
    } else {
        decimal(n / 10).push(digit_char(n % 10))
    }
}

/// A numeral is never empty and holds digits only.
pub proof fn lemma_decimal_digits(n: nat)
    ensures
        decimal(n).len() >= 1,
        all_digits(decimal(n)),
    decreases n,
{
    if n >= 10 {
        lemma_decimal_digits(n / 10);
    }
}

/// Reading a numeral gives back the number it was written from.
pub proof fn lemma_decimal_value(n: nat)
    ensures
        digits_value(decimal(n)) == n,
    decreases n,
{
    if n < 10 {
        assert(digits_value(decimal(n).drop_last()) == 0);
    } else {
        lemma_decimal_value(n / 10);
        assert(decimal(n).drop_last() =~= decimal(n / 10));
    }
}

/// Different numbers have different numerals.
pub proof fn lemma_decimal_injective(a: nat, b: nat)
    requires
        decimal(a) == decimal(b),
    ensures
        a == b,
{
    lemma_decimal_value(a);
    lemma_decimal_value(b);
}

/// Appends the decimal numeral of `n`.
pub fn push_decimal(out: &mut String, n: u64)
    ensures
        final(out)@ == old(out)@ + decimal(n as nat),
    decreases n,
{
    if n >= 10 {
        push_decimal(out, n / 10);
    }
    let d: u8 = (n % 10) as u8;
    let code: u8 = 48 + d;
    out.push(code as char);
}

/// What a token denotes as a 16-bit unsigned number: an optional `+`, then one
/// or more decimal digits whose value is at most 65535. Anything else denotes
/// no number.
pub open spec fn number_of(token: Seq<char>) -> Option<u16> {
    let body = if token.len() > 0 && token[0] == '+' {
        token.drop_first()
    } else {
        token
    };
    if body.len() > 0 && all_digits(body) && digits_value(body) <= 0xFFFF {
        Some(digits_value(body) as u16)
    } else {
        None
    }
}

/// Reads a token as a 16-bit unsigned number.
pub fn parse_number(token: &Vec<char>) -> (number: Option<u16>)
    ensures
        number == number_of(token@),
{
    let start: usize = if token.len() > 0 && token[0] == '+' {
        1
    } else {
        0
    };
    let ghost body = if token@.len() > 0 && token@[0] == '+' {
        token@.drop_first()
    } else {
        token@
    };
    if token.len() == start {
        return None;
    }
    let mut value: u32 = 0;
    let mut fits = true;
    let mut i: usize = start;
    while i < token.len()
        invariant
            start <= i <= token.len(),
            body == token@.skip(start as int),
            number_of(token@) == if body.len() > 0 && all_digits(body) && digits_value(body)
                <= 0xFFFF {
                Some(digits_value(body) as u16)
            } else {
                None
            },
            all_digits(body.take(i - start)),
            fits ==> value == digits_value(body.take(i - start)) && value <= 0xFFFF,
            !fits ==> digits_value(body.take(i - start)) > 0xFFFF,
        decreases token.len() - i,
    {
        let c = token[i];
        if !(c >= '0' && c <= '9') {
            assert(!is_digit(body[i - start]));
            return None;
        }
        let ghost before = body.take(i - start);
        let ghost after = body.take(i - start + 1);
        assert(after.drop_last() =~= before);
        if fits {
            let digit: u32 = c as u32 - 48;
            let next: u32 = value * 10 + digit;
            if next > 0xFFFF {
                fits = false;
            } else {
                value = next;
            }
        }
        i += 1;
    }
    assert(body.take(i - start) =~= body);
    if fits {
        Some(value as u16)
    } else {
        None
    }
}

} // verus!
