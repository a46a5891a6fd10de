//! Text utilities shared by the scanner and its specification: character
//! classes, decimal digit sequences, and verified string building.

use vstd::prelude::*;
use vstd::string::StringExecFns;

verus! {

/// Whether `c` is alphabetic in the sense of `char::is_alphabetic`.
pub uninterp spec fn alpha_char(c: char) -> bool;

/// Whether `c` is alphanumeric in the sense of `char::is_alphanumeric`.
pub uninterp spec fn alnum_char(c: char) -> bool;

/// Whether `c` is whitespace in the sense of `char::is_whitespace`.
pub uninterp spec fn white_char(c: char) -> bool;

/// Relies on char::is_alphabetic: the result depends on the character alone.
#[verifier::external_body]
pub(crate) fn is_alphabetic_char(c: char) -> (r: bool)
    ensures
        r == alpha_char(c),
{
    c.is_alphabetic()
}

/// Relies on char::is_alphanumeric: the result depends on the character alone.
#[verifier::external_body]
pub(crate) fn is_alphanumeric_char(c: char) -> (r: bool)
    ensures
        r == alnum_char(c),
{
    c.is_alphanumeric()
}

/// Relies on char::is_whitespace: the result depends on the character alone.
#[verifier::external_body]
pub(crate) fn is_whitespace_char(c: char) -> (r: bool)
    ensures
        r == white_char(c),
{
    c.is_whitespace()
}

/// Relies on String::push: appends the given character to the end of the
/// string.
#[verifier::external_body]
pub(crate) fn string_push(s: &mut String, c: char)
    ensures
        final(s)@ == old(s)@.push(c),
{
    s.push(c);
}

/// The character of `text` at position `i`.
pub open spec fn char_at(text: Seq<char>, i: int) -> char {
    text[i]
}

/// Whether `c` is a decimal digit (`0` through `9`).
pub open spec fn is_dec_digit(c: char) -> bool {
    48 <= (c as u32) && (c as u32) <= 57
}

/// Executable check for [`is_dec_digit`].
pub(crate) fn dec_digit(c: char) -> (r: bool)
    ensures
        r == is_dec_digit(c),
{
    let u = c as u32;
    48 <= u && u <= 57
}

/// The numeric value of a decimal digit character.
pub open spec fn digit_val(c: char) -> nat {
    ((c as u32) - 48) as nat
}

/// The numeric value of a sequence of decimal digit characters, most
/// significant first.
pub open spec fn dec_val(s: Seq<char>) -> nat
    decreases s.len(),
{
    if s.len() == 0 {
        0
    } else {
        dec_val(s.drop_last()) * 10 + digit_val(s.last())
    }
}

/// The decimal digit character for a value below ten.
pub open spec fn digit_char(d: nat) -> char {
    ((48 + d) as u8) as char
}

/// The canonical decimal rendering of `n`: no sign, no leading zero except
/// for `n == 0` itself.
pub open spec fn dec_digits(n: nat) -> Seq<char>
    decreases n,
{
    if n < 10 {
        seq![digit_char(n)]
    } else {
        dec_digits(n / 10).push(digit_char(n % 10))
    }
}

/// Renders `n` in decimal, matching [`dec_digits`].
pub fn u32_to_string(n: u32) -> (s: String)
    ensures
        s@ == dec_digits(n as nat),
    decreases n,
{
    if n < 10 {
        let mut s = String::new();
        string_push(&mut s, (48 + n as u8) as char);
        proof {
            assert(s@ =~= dec_digits(n as nat));
        }
        s
    } else {
        let mut s = u32_to_string(n / 10);
        string_push(&mut s, (48 + (n % 10) as u8) as char);
        s
    }
}

/// Extending a digit sequence on the right never decreases its value.
proof fn lemma_dec_val_push(s: Seq<char>, c: char)
    ensures
        dec_val(s.push(c)) == dec_val(s) * 10 + digit_val(c),
        dec_val(s.push(c)) >= dec_val(s),
{
    assert(s.push(c).drop_last() =~= s);
    assert(s.push(c).last() == c);
}

/// Reads the decimal digits `text[start..end]` as a 32-bit signed integer,
/// reporting `None` exactly when the value does not fit.
pub(crate) fn parse_i32_digits(text: &Vec<char>, start: usize, end: usize) -> (r: Option<i32>)
    requires
        start <= end <= text@.len(),
        forall|k: int| start <= k < end ==> is_dec_digit(text@[k]),
    ensures
        match r {
            Some(v) => dec_val(text@.subrange(start as int, end as int)) <= i32::MAX
                && v == dec_val(text@.subrange(start as int, end as int)),
            None => dec_val(text@.subrange(start as int, end as int)) > i32::MAX,
        },
{
    let mut acc: u64 = 0;
    let mut overflow = false;
    let mut i = start;
    proof {
        assert(text@.subrange(start as int, start as int) =~= Seq::<char>::empty());
    }
    while i < end
        invariant
            start <= i <= end <= text@.len(),
            forall|k: int| start <= k < end ==> is_dec_digit(text@[k]),
            !overflow ==> acc == dec_val(text@.subrange(start as int, i as int))
                && acc <= i32::MAX,
            overflow ==> dec_val(text@.subrange(start as int, i as int)) > i32::MAX,
        decreases end - i,
    {
        let c = text[i];
        let d = (c as u32 - 48) as u64;
        proof {
            assert(text@.subrange(start as int, i as int + 1) =~= text@.subrange(
                start as int,
                i as int,
            ).push(text@[i as int]));
            lemma_dec_val_push(text@.subrange(start as int, i as int), text@[i as int]);
        }
        if overflow {
        } else {
            let next = acc * 10 + d;
            if next > i32::MAX as u64 {
                overflow = true;
            } else {
                acc = next;
            }
        }
        i = i + 1;
    }
    if overflow {
        None
    } else {
        Some(acc as i32)
    }
}

/// Copies `text[a..b]` into a fresh string.
pub(crate) fn copy_range(text: &Vec<char>, a: usize, b: usize) -> (s: String)
    requires
        a <= b <= text@.len(),
    ensures
        s@ == text@.subrange(a as int, b as int),
{
    let mut s = String::new();
    let mut j = a;
    while j < b
        invariant
            a <= j <= b <= text@.len(),
            s@ == text@.subrange(a as int, j as int),
        decreases b - j,
    {
        string_push(&mut s, text[j]);
        proof {
            assert(text@.subrange(a as int, j as int).push(text@[j as int]) =~= text@.subrange(
                a as int,
                j as int + 1,
            ));
        }
        j = j + 1;
    }
    s
}

} // verus!
