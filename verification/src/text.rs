use vstd::prelude::*;
use vstd::string::{StrSliceExecFns, StringExecFns};
use crate::allocator::{BrilPointer, Value};
use crate::semantics::{decimal, is_scalar, pointer_text, value_text};

verus! {

/// `itoa::Buffer::format`: the decimal text of an integer, with a minus sign
/// if it is negative and without leading zeros.
#[verifier::external_body]
fn format_int(i: i128) -> (r: String)
    ensures
        r@ == decimal(i as int),
{
    itoa::Buffer::new().format(i).to_string()
}

/// `String::push`: the string with one more character at its end.
#[verifier::external_body]
fn push_char(s: &mut String, c: char)
    ensures
        final(s)@ == old(s)@.push(c),
{
    s.push(c);
}

/// `char::from_u32`: the character with the code point `u`, if `u` is the
/// code point of a character, that is, a Unicode scalar value.
#[verifier::external_body]
fn char_from_u32(u: u32) -> (r: Option<char>)
    ensures
        r == (if is_scalar(u as int) {
            Some(u as char)
        } else {
            None
        }),
{
    char::from_u32(u)
}

/// The character with the code point `i`, if there is one.
pub fn int_to_char(i: i64) -> (r: Option<char>)
    ensures
        r == (if is_scalar(i as int) {
            Some(i as u32 as char)
        } else {
            None
        }),
{
    if i < 0 || i > 0x10FFFF {
        None
    } else {
        char_from_u32(i as u32)
    }
}

/// Appends one character to `out`.
pub fn append_char(out: &mut String, c: char)
    ensures
        final(out)@ == old(out)@.push(c),
{
    push_char(out, c);
}

/// Appends the decimal text of `i` to `out`.
pub fn append_int(out: &mut String, i: i64)
    ensures
        final(out)@ == old(out)@ + decimal(i as int),
{
    let text = format_int(i as i128);
    out.append(text.as_str());
}

/// Appends the decimal text of `n` to `out`.
pub fn append_usize(out: &mut String, n: usize)
    ensures
        final(out)@ == old(out)@ + decimal(n as int),
{
    let text = format_int(n as i128);
    out.append(text.as_str());
}

/// Appends the text of a pointer to `out`.
pub fn append_pointer<P: BrilPointer>(out: &mut String, p: &P)
    ensures
        final(out)@ == old(out)@ + pointer_text(*p),
{
    out.append("Pointer { base: ");
    append_usize(out, p.base());
    out.append(", offset: ");
    append_int(out, p.offset());
    out.append(" }");
    assert(out@ =~= old(out)@ + pointer_text(*p));
}

/// Writes `val` to `out` as `print` shows it: an integer in decimal, a boolean
/// as `true` or `false`, a character as itself, and a floating point number as
/// `float_text` has it.
pub fn optimized_val_output<P: BrilPointer>(out: &mut String, val: &Value<P>, float_text: &str)
    requires
        *val != Value::<P>::Uninitialized,
    ensures
        final(out)@ == old(out)@ + (if *val is Float {
            float_text@
        } else {
            value_text(*val)
        }),
{
    match val {
        Value::Int(i) => append_int(out, *i),
        Value::Bool(b) => {
            if *b {
                out.append("true");
            } else {
                out.append("false");
            }
        },
        Value::Float(_) => out.append(float_text),
        Value::Char(c) => {
            append_char(out, *c);
            assert(out@ =~= old(out)@ + seq![*c]);
        },
        Value::Pointer(p) => append_pointer(out, p),
        Value::Uninitialized => {},
    }
}

/// Whether `c` is a decimal digit.
pub open spec fn is_digit(c: char) -> bool {
    '0' <= c <= '9'
}

/// Whether `s` is one or more decimal digits.
pub open spec fn all_digits(s: Seq<char>) -> bool {
    s.len() > 0 && forall|i: int| 0 <= i < s.len() ==> is_digit(#[trigger] s[i])
}

/// The number that the decimal digits `s` stand for.
pub open spec fn digits_value(s: Seq<char>) -> nat
    decreases s.len(),
{
    if s.len() == 0 {
        0
    } else {
        (digits_value(s.drop_last()) * 10 + (s.last() as u32 - '0' as u32)) as nat
    }
}

/// The integer that `s` stands for: an optional `+` or `-`, then one or more
/// decimal digits and nothing else, for a number that fits in 64 bits.
pub open spec fn parsed_int(s: Seq<char>) -> Option<i64> {
    let negative = s.len() > 0 && s[0] == '-';
    let signed = s.len() > 0 && (s[0] == '-' || s[0] == '+');
    let digits = if signed {
        s.skip(1)
    } else {
        s
    };
    let value = if negative {
        -(digits_value(digits) as int)
    } else {
        digits_value(digits) as int
    };
    if all_digits(digits) && i64::MIN <= value <= i64::MAX {
        Some(value as i64)
    } else {
        None
    }
}

/// `str::parse::<i64>`: the integer that a text stands for, which is an
/// optional sign followed by decimal digits; `None` for any other text and
/// for a number that does not fit.
#[verifier::external_body]
fn parse_i64(s: &str) -> (r: Option<i64>)
    ensures
        r == parsed_int(s@),
{
    s.parse::<i64>().ok()
}

/// The integer that `s` stands for, if it stands for one.
pub fn parse_int(s: &str) -> (r: Option<i64>)
    ensures
        r == parsed_int(s@),
{
    parse_i64(s)
}

/// The truth value that `s` stands for: `true` or `false`, spelled exactly so.
pub open spec fn parsed_bool(s: Seq<char>) -> Option<bool> {
    if s == seq!['t', 'r', 'u', 'e'] {
        Some(true)
    } else if s == seq!['f', 'a', 'l', 's', 'e'] {
        Some(false)
    } else {
        None
    }
}

/// The truth value that `s` stands for, if it stands for one.
pub fn parse_bool(s: &str) -> (r: Option<bool>)
    ensures
        r == parsed_bool(s@),
{
    let n = s.unicode_len();
    if n == 4 && s.get_char(0) == 't' && s.get_char(1) == 'r' && s.get_char(2) == 'u' && s.get_char(
        3,
    ) == 'e' {
        assert(s@ =~= seq!['t', 'r', 'u', 'e']);
        Some(true)
    } else if n == 5 && s.get_char(0) == 'f' && s.get_char(1) == 'a' && s.get_char(2) == 'l'
        && s.get_char(3) == 's' && s.get_char(4) == 'e' {
        assert(s@ =~= seq!['f', 'a', 'l', 's', 'e']);
        Some(false)
    } else {
        proof {
            if s@ == seq!['t', 'r', 'u', 'e'] {
                assert(s@.len() == 4 && s@[0] == 't' && s@[1] == 'r' && s@[2] == 'u' && s@[3] == 'e');
            }
            if s@ == seq!['f', 'a', 'l', 's', 'e'] {
                assert(s@.len() == 5 && s@[0] == 'f' && s@[1] == 'a' && s@[2] == 'l' && s@[3] == 's'
                    && s@[4] == 'e');
            }
        }
        None
    }
}

/// The control character that the letter after a backslash stands for.
pub open spec fn escaped(c: char) -> Option<char> {
    if c == '0' {
        Some('\u{0}')
    } else if c == 'a' {
        Some('\u{7}')
    } else if c == 'b' {
        Some('\u{8}')
    } else if c == 't' {
        Some('\u{9}')
    } else if c == 'n' {
        Some('\u{A}')
    } else if c == 'v' {
        Some('\u{B}')
    } else if c == 'f' {
        Some('\u{C}')
    } else if c == 'r' {
        Some('\u{D}')
    } else {
        None
    }
}

/// The character that `s` stands for: a backslash and one of `0 a b t n v f r`
/// stand for a control character, and any single character for itself.
pub open spec fn escaped_char(s: Seq<char>) -> Option<char> {
    if s.len() == 2 && s[0] == '\\' && escaped(s[1]) is Some {
        escaped(s[1])
    } else if s.len() == 1 {
        Some(s[0])
    } else {
        None
    }
}

/// The character that `s` stands for, if it stands for one.
pub fn escape_control_chars(s: &str) -> (r: Option<char>)
    ensures
        r == escaped_char(s@),
{
    let n = s.unicode_len();
    if n == 1 {
        Some(s.get_char(0))
    } else if n == 2 && s.get_char(0) == '\\' {
        let c = s.get_char(1);
        if c == '0' {
            Some('\u{0}')
        } else if c == 'a' {
            Some('\u{7}')
        } else if c == 'b' {
            Some('\u{8}')
        } else if c == 't' {
            Some('\u{9}')
        } else if c == 'n' {
            Some('\u{A}')
        } else if c == 'v' {
            Some('\u{B}')
        } else if c == 'f' {
            Some('\u{C}')
        } else if c == 'r' {
            Some('\u{D}')
        } else {
            None
        }
    } else {
        None
    }
}

} // verus!
