//! Number formatting for the emitted assembly text.

use vstd::prelude::*;
use vstd::string::StringExecFns;

verus! {

/// `String::push` appends the character to the end of the string and leaves
/// the characters before it as they were.
pub assume_specification[ String::push ](s: &mut String, c: char)
    ensures
        final(s)@ == old(s)@.push(c),
;

/// The lower-case digit that stands for `d` in bases up to sixteen.
pub open spec fn digit_char(d: nat) -> char {
    if d == 0 {
        '0'
    } else if d == 1 {
        '1'
    } else if d == 2 {
        '2'
    } else if d == 3 {
        '3'
    } else if d == 4 {
        '4'
    } else if d == 5 {
        '5'
    } else if d == 6 {
        '6'
    } else if d == 7 {
        '7'
    } else if d == 8 {
        '8'
    } else if d == 9 {
        '9'
    } else if d == 10 {
        'a'
    } else if d == 11 {
        'b'
    } else if d == 12 {
        'c'
    } else if d == 13 {
        'd'
    } else if d == 14 {
        'e'
    } else {
        'f'
    }
}

/// The decimal numeral of `n`, without leading zeros.
pub open spec fn decimal(n: nat) -> Seq<char>
    decreases n,
{
    if n < 10 {
        seq![digit_char(n)]
    } else {
        decimal(n / 10).push(digit_char(n % 10))
    }
}

/// The lower-case hexadecimal numeral of `n`, padded on the left with zeros
/// to at least `width` digits.
pub open spec fn hex_padded(n: nat, width: nat) -> Seq<char>
    decreases n, width,
{
    if n >= 16 || width > 1 {
        hex_padded(
            n / 16,
            if width > 0 {
                (width - 1) as nat
            } else {
                0
            },
        ).push(digit_char(n % 16))
    } else {
        seq![digit_char(n)]
    }
}

/// The digit for a value below sixteen.
pub fn digit(d: u64) -> (c: char)
    requires
        d < 16,
    ensures
        c == digit_char(d as nat),
{
    if d == 0 {
        '0'
    } else if d == 1 {
        '1'
    } else if d == 2 {
        '2'
    } else if d == 3 {
        '3'
    } else if d == 4 {
        '4'
    } else if d == 5 {
        '5'
    } else if d == 6 {
        '6'
    } else if d == 7 {
        '7'
    } else if d == 8 {
        '8'
    } else if d == 9 {
        '9'
    } else if d == 10 {
        'a'
    } else if d == 11 {
        'b'
    } else if d == 12 {
        'c'
    } else if d == 13 {
        'd'
    } else if d == 14 {
        'e'
    } else {
        'f'
    }
}

/// Writes `n` in decimal.
pub fn decimal_string(n: u64) -> (s: String)
    ensures
        s@ == decimal(n as nat),
    decreases n,
{
    if n < 10 {
        let mut s = String::new();
        s.push(digit(n));
        s
    } else {
        let mut s = decimal_string(n / 10);
        s.push(digit(n % 10));
        s
    }
}

/// Writes `n` in lower-case hexadecimal with at least `width` digits.
pub fn hex_string(n: u64, width: u64) -> (s: String)
    ensures
        s@ == hex_padded(n as nat, width as nat),
    decreases n, width,
{
    if n >= 16 || width > 1 {
        let shorter: u64 = if width > 0 {
            width - 1
        } else {
            0
        };
        let mut s = hex_string(n / 16, shorter);
        s.push(digit(n % 16));
        s
    } else {
        let mut s = String::new();
        s.push(digit(n));
        s
    }
}

/// `prefix`, `operand` and `suffix` in one string.
pub fn framed(prefix: &str, operand: &str, suffix: &str) -> (line: String)
    ensures
        line@ == prefix@ + operand@ + suffix@,
{
    let mut line = String::from_str(prefix);
    line.append(operand);
    line.append(suffix);
    line
}

/// Appends `text` to `code`.
pub fn put(code: &mut String, text: &str)
    ensures
        final(code)@ == old(code)@ + text@,
{
    code.append(text);
}

/// Appends `prefix`, `operand` and `suffix` to `code`, as one piece.
pub fn put_framed(code: &mut String, prefix: &str, operand: &str, suffix: &str)
    ensures
        final(code)@ == old(code)@ + (prefix@ + operand@ + suffix@),
{
    let piece = framed(prefix, operand, suffix);
    code.append(piece.as_str());
}

/// A hexadecimal numeral has a digit, and more than one where the number
/// or the width asks for it.
pub proof fn lemma_hex_padded_len(n: nat, width: nat)
    ensures
        hex_padded(n, width).len() >= 1,
        hex_padded(n, width).len() >= width,
        n >= 16 || width > 1 ==> hex_padded(n, width).len() >= 2,
    decreases n, width,
{
    if n >= 16 || width > 1 {
        lemma_hex_padded_len(
            n / 16,
            if width > 0 {
                (width - 1) as nat
            } else {
                0
            },
        );
    }
}

/// Different numbers have different hexadecimal numerals of one width.
pub proof fn lemma_hex_padded_is_injective(a: nat, b: nat, width: nat)
    requires
        hex_padded(a, width) == hex_padded(b, width),
    ensures
        a == b,
    decreases a, width,
{
    lemma_hex_padded_len(a, width);
    lemma_hex_padded_len(b, width);
    let shorter: nat = if width > 0 {
        (width - 1) as nat
    } else {
        0
    };
    if a >= 16 || width > 1 {
        if b >= 16 || width > 1 {
            let front_a = hex_padded(a / 16, shorter);
            let front_b = hex_padded(b / 16, shorter);
            assert(front_a =~= hex_padded(a, width).drop_last());
            assert(front_b =~= hex_padded(b, width).drop_last());
            assert(digit_char(a % 16) == hex_padded(a, width).last());
            assert(digit_char(b % 16) == hex_padded(b, width).last());
            lemma_hex_padded_is_injective(a / 16, b / 16, shorter);
            assert(a % 16 == b % 16);
        }
    } else {
        assert(digit_char(a) == hex_padded(a, width)[0]);
        assert(digit_char(b) == hex_padded(b, width)[0]);
    }
}

} // verus!
