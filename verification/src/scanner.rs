//! The lexical scanner: turns source text into the ordered token sequence, or
//! the full list of lexical errors found.
//!
//! The scanner walks the text left to right, one lexical unit at a time,
//! tracking the line (starting at 1, advanced by `\n`) and the column (the
//! count of characters consumed on the current line; it resets on `\n` and
//! advances on every consumed character, including characters inside string
//! literals). It never stops at the first problem: each unrecognized
//! character, invalid numeric literal, unterminated string or bad escape
//! records one descriptive error and scanning resumes at the next input
//! position, so a single call can surface several independent errors.
//!
//! The whole behaviour is specified by [`scan_at`], a recursive model of the
//! lexical grammar; [`read_str_scan`] is proved to return exactly what the
//! model says.

use vstd::prelude::*;
use vstd::string::StrSliceExecFns;
use vstd::string::StringExecFns;

use crate::text::alnum_char;
use crate::text::char_at;
use crate::text::alpha_char;
use crate::text::copy_range;
use crate::text::dec_digit;
use crate::text::dec_digits;
use crate::text::dec_val;
use crate::text::is_alphabetic_char;
use crate::text::is_alphanumeric_char;
use crate::text::is_dec_digit;
use crate::text::is_whitespace_char;
use crate::text::parse_i32_digits;
use crate::text::string_push;
use crate::text::u32_to_string;
use crate::text::white_char;
use crate::token::Token;
use crate::token::TokenType;
use crate::token::TokenTypeV;
use crate::token::TokenV;

verus! {

/// What a scan produces: the tokens and the errors found, each in order of
/// discovery.
#[verifier::ext_equal]
pub struct ScanV {
    pub tokens: Seq<TokenV>,
    pub errors: Seq<Seq<char>>,
}

/// The message recorded for an unknown escape sequence `\c`.
pub open spec fn msg_unknown_escape(c: char, line: nat, col: nat) -> Seq<char> {
    "Unknown escape sequence \\"@ + seq![c] + " at line "@ + dec_digits(line) + ", column "@
        + dec_digits(col)
}

/// The message recorded when the input ends right after a backslash.
pub open spec fn msg_incomplete_escape(line: nat, col: nat) -> Seq<char> {
    "Incomplete escape sequence at line "@ + dec_digits(line) + ", column "@ + dec_digits(col)
}

/// The message recorded for a string whose closing quote never comes; the
/// position is that of the opening quote.
pub open spec fn msg_unterminated_string(line: nat, col: nat) -> Seq<char> {
    "Unterminated string starting at line "@ + dec_digits(line) + ", column "@ + dec_digits(col)
}

/// The message recorded when the input ends inside a `#\` character literal.
pub open spec fn msg_invalid_char_literal(line: nat, col: nat) -> Seq<char> {
    "Invalid character literal at line "@ + dec_digits(line) + " column "@ + dec_digits(col)
}

/// The message recorded for a character no lexical rule accepts.
pub open spec fn msg_unexpected_char(c: char, line: nat, col: nat) -> Seq<char> {
    "Unexpected character '"@ + seq![c] + "' at line "@ + dec_digits(line) + " column "@
        + dec_digits(col)
}

/// The message recorded for an integer literal that overflows 32 bits.
pub open spec fn msg_invalid_int(line: nat) -> Seq<char> {
    "Invalid integer number at line "@ + dec_digits(line)
        + ": number too large to fit in target type"@
}

/// The symbolic characters that may start or continue an identifier-like
/// token; this is what lets operators such as `+` or `set!` be ordinary
/// symbols.
pub open spec fn is_symbolic_char(c: char) -> bool {
    c == '+' || c == '-' || c == '*' || c == '/' || c == '>' || c == '<' || c == '=' || c == '!'
        || c == '?'
}

/// Whether `c` may start an identifier-like token.
pub open spec fn is_ident_start(c: char) -> bool {
    alpha_char(c) || c == '_' || is_symbolic_char(c)
}

/// Whether `c` may continue an identifier-like token.
pub open spec fn is_ident_cont(c: char) -> bool {
    alnum_char(c) || c == '_' || is_symbolic_char(c)
}

/// Whether `c` ends a `:keyword` atom.
pub open spec fn is_keyword_end(c: char) -> bool {
    white_char(c) || c == '(' || c == ')'
}

/// How many consecutive decimal digits start at position `j`.
pub open spec fn count_digits(text: Seq<char>, j: nat) -> nat
    decreases text.len() - j,
{
    if j < text.len() && is_dec_digit(text[j as int]) {
        (1 + count_digits(text, j + 1)) as nat
    } else {
        0
    }
}

/// How many consecutive identifier-continuation characters start at `j`.
pub open spec fn count_ident(text: Seq<char>, j: nat) -> nat
    decreases text.len() - j,
{
    if j < text.len() && is_ident_cont(text[j as int]) {
        (1 + count_ident(text, j + 1)) as nat
    } else {
        0
    }
}

/// How many characters the keyword body starting at `j` spans.
pub open spec fn count_keyword(text: Seq<char>, j: nat) -> nat
    decreases text.len() - j,
{
    if j < text.len() && !is_keyword_end(text[j as int]) {
        (1 + count_keyword(text, j + 1)) as nat
    } else {
        0
    }
}

/// The token an identifier-like word maps to: a reserved word where one
/// matches, else a generic symbol.
pub open spec fn reserved_or_symbol(word: Seq<char>) -> TokenTypeV {
    if word == "def"@ {
        TokenTypeV::Var
    } else if word == "fn"@ {
        TokenTypeV::Func
    } else if word == "macro"@ {
        TokenTypeV::Macro
    } else if word == "quote"@ {
        TokenTypeV::Quote
    } else if word == "true"@ {
        TokenTypeV::Bool(true)
    } else if word == "false"@ {
        TokenTypeV::Bool(false)
    } else {
        TokenTypeV::Symbol(word)
    }
}

/// What scanning the body of a string literal yields. `consumed` counts the
/// characters consumed after the opening quote, the closing quote included
/// when one was found (`terminated`); a newline or the end of input stops the
/// body without being consumed.
#[verifier::ext_equal]
pub struct StrBodyV {
    pub content: Seq<char>,
    pub errors: Seq<Seq<char>>,
    pub consumed: nat,
    pub terminated: bool,
}

/// The model of scanning a string-literal body from position `j`, whose
/// character would carry column `col`. Recognized escapes are `\"`, `\n`,
/// `\t` and `\\`; an unrecognized escape records an error but the string goes
/// on.
pub open spec fn str_body(text: Seq<char>, j: nat, line: nat, col: nat) -> StrBodyV
    decreases text.len() - j,
{
    if j >= text.len() {
        StrBodyV { content: Seq::empty(), errors: Seq::empty(), consumed: 0, terminated: false }
    } else {
        let c = char_at(text, j as int);
        if c == '"' {
            StrBodyV { content: Seq::empty(), errors: Seq::empty(), consumed: 1, terminated: true }
        } else if c == '\\' {
            if j + 1 >= text.len() {
                StrBodyV {
                    content: Seq::empty(),
                    errors: seq![msg_incomplete_escape(line, col)],
                    consumed: 1,
                    terminated: false,
                }
            } else {
                let e = char_at(text, j as int + 1);
                let rest = str_body(text, j + 2, line, col + 2);
                if e == '"' || e == 'n' || e == 't' || e == '\\' {
                    let unescaped = if e == '"' {
                        '"'
                    } else if e == 'n' {
                        '\n'
                    } else if e == 't' {
                        '\t'
                    } else {
                        '\\'
                    };
                    StrBodyV {
                        content: seq![unescaped] + rest.content,
                        errors: rest.errors,
                        consumed: 2 + rest.consumed,
                        terminated: rest.terminated,
                    }
                } else {
                    StrBodyV {
                        content: rest.content,
                        errors: seq![msg_unknown_escape(e, line, col)] + rest.errors,
                        consumed: 2 + rest.consumed,
                        terminated: rest.terminated,
                    }
                }
            }
        } else if c == '\n' {
            StrBodyV { content: Seq::empty(), errors: Seq::empty(), consumed: 0, terminated: false }
        } else {
            let rest = str_body(text, j + 1, line, col + 1);
            StrBodyV {
                content: seq![c] + rest.content,
                errors: rest.errors,
                consumed: 1 + rest.consumed,
                terminated: rest.terminated,
            }
        }
    }
}

/// Prepends one token to a scan result.
pub open spec fn cons_token(k: TokenTypeV, line: nat, col: nat, rest: ScanV) -> ScanV {
    ScanV {
        tokens: seq![TokenV { token_type: k, line, column: col }] + rest.tokens,
        errors: rest.errors,
    }
}

/// Prepends one error to a scan result.
pub open spec fn cons_error(m: Seq<char>, rest: ScanV) -> ScanV {
    ScanV { tokens: rest.tokens, errors: seq![m] + rest.errors }
}

/// The model of the scanner from position `i`, on line `line`, with `col`
/// characters already consumed on that line. Each token records the position
/// of the first character of its lexeme.
pub open spec fn scan_at(text: Seq<char>, i: nat, line: nat, col: nat) -> ScanV
    decreases text.len() - i,
{
    if i >= text.len() {
        ScanV { tokens: Seq::empty(), errors: Seq::empty() }
    } else {
        let c = char_at(text, i as int);
        if c == '(' {
            cons_token(TokenTypeV::LeftParen, line, col + 1, scan_at(text, i + 1, line, col + 1))
        } else if c == ')' {
            cons_token(TokenTypeV::RightParen, line, col + 1, scan_at(text, i + 1, line, col + 1))
        } else if c == '{' {
            cons_token(TokenTypeV::LeftBrace, line, col + 1, scan_at(text, i + 1, line, col + 1))
        } else if c == '}' {
            cons_token(TokenTypeV::RightBrace, line, col + 1, scan_at(text, i + 1, line, col + 1))
        } else if c == '/' {
            cons_token(
                TokenTypeV::Symbol("/"@),
                line,
                col + 1,
                scan_at(text, i + 1, line, col + 1),
            )
        } else if c == '*' {
            cons_token(
                TokenTypeV::Symbol("*"@),
                line,
                col + 1,
                scan_at(text, i + 1, line, col + 1),
            )
        } else if c == '!' {
            if i + 1 < text.len() && text[i as int + 1] == '=' {
                cons_token(TokenTypeV::BangEqual, line, col + 1, scan_at(text, i + 2, line, col + 2))
            } else {
                cons_token(TokenTypeV::Bang, line, col + 1, scan_at(text, i + 1, line, col + 1))
            }
        } else if c == '=' {
            if i + 1 < text.len() && text[i as int + 1] == '=' {
                cons_token(
                    TokenTypeV::Symbol("=="@),
                    line,
                    col + 1,
                    scan_at(text, i + 2, line, col + 2),
                )
            } else {
                cons_token(
                    TokenTypeV::Symbol("="@),
                    line,
                    col + 1,
                    scan_at(text, i + 1, line, col + 1),
                )
            }
        } else if c == '>' {
            if i + 1 < text.len() && text[i as int + 1] == '=' {
                cons_token(
                    TokenTypeV::Symbol(">="@),
                    line,
                    col + 1,
                    scan_at(text, i + 2, line, col + 2),
                )
            } else {
                cons_token(
                    TokenTypeV::Symbol(">"@),
                    line,
                    col + 1,
                    scan_at(text, i + 1, line, col + 1),
                )
            }
        } else if c == '<' {
            if i + 1 < text.len() && text[i as int + 1] == '=' {
                cons_token(
                    TokenTypeV::Symbol("<="@),
                    line,
                    col + 1,
                    scan_at(text, i + 2, line, col + 2),
                )
            } else {
                cons_token(
                    TokenTypeV::Symbol("<"@),
                    line,
                    col + 1,
                    scan_at(text, i + 1, line, col + 1),
                )
            }
        } else if c == '\'' {
            cons_token(TokenTypeV::Quote, line, col + 1, scan_at(text, i + 1, line, col + 1))
        } else if c == ':' {
            let n = count_keyword(text, i + 1);
            let next = if i + 1 + n <= text.len() {
                i + 1 + n
            } else {
                text.len()
            };
            cons_token(
                TokenTypeV::Keyword(text.subrange(i as int + 1, (i + 1 + n) as int)),
                line,
                col + 1,
                scan_at(text, next, line, col + 1 + n),
            )
        } else if c == '"' {
            let b = str_body(text, i + 1, line, col + 2);
            let next = if i + 1 + b.consumed <= text.len() {
                i + 1 + b.consumed
            } else {
                text.len()
            };
            let rest = scan_at(text, next, line, col + 1 + b.consumed);
            ScanV {
                tokens: seq![
                    TokenV { token_type: TokenTypeV::String(b.content), line, column: col + 1 },
                ] + rest.tokens,
                errors: b.errors + (if b.terminated {
                    Seq::<Seq<char>>::empty()
                } else {
                    seq![msg_unterminated_string(line, col + 1)]
                }) + rest.errors,
            }
        } else if c == '#' {
            if i + 1 < text.len() && text[i as int + 1] == 't' {
                cons_token(
                    TokenTypeV::Bool(true),
                    line,
                    col + 1,
                    scan_at(text, i + 2, line, col + 2),
                )
            } else if i + 1 < text.len() && text[i as int + 1] == 'f' {
                cons_token(
                    TokenTypeV::Bool(false),
                    line,
                    col + 1,
                    scan_at(text, i + 2, line, col + 2),
                )
            } else if i + 1 < text.len() && text[i as int + 1] == '\\' {
                if i + 2 < text.len() {
                    cons_token(
                        TokenTypeV::Character(char_at(text, i as int + 2)),
                        line,
                        col + 1,
                        scan_at(text, i + 3, line, col + 3),
                    )
                } else {
                    cons_error(
                        msg_invalid_char_literal(line, col + 1),
                        scan_at(text, i + 2, line, col + 2),
                    )
                }
            } else {
                cons_error(
                    msg_unexpected_char('#', line, col + 1),
                    scan_at(text, i + 1, line, col + 1),
                )
            }
        } else if c == '`' || c == ',' {
            cons_token(
                TokenTypeV::Symbol(seq![c]),
                line,
                col + 1,
                scan_at(text, i + 1, line, col + 1),
            )
        } else if c == ' ' || c == '\r' || c == '\t' {
            scan_at(text, i + 1, line, col + 1)
        } else if c == '\n' {
            scan_at(text, i + 1, line + 1, 0)
        } else if is_dec_digit(c) {
            let d1 = 1 + count_digits(text, i + 1);
            if i + d1 < text.len() && text[(i + d1) as int] == '.' {
                let d2 = count_digits(text, i + d1 + 1);
                let k = d1 + 1 + d2;
                let next = if i + k <= text.len() {
                    i + k
                } else {
                    text.len()
                };
                cons_token(
                    TokenTypeV::Float32(text.subrange(i as int, (i + k) as int)),
                    line,
                    col + 1,
                    scan_at(text, next, line, col + k),
                )
            } else {
                let v = dec_val(text.subrange(i as int, (i + d1) as int));
                let next = if i + d1 <= text.len() {
                    i + d1
                } else {
                    text.len()
                };
                if v <= i32::MAX {
                    cons_token(
                        TokenTypeV::Int32(v as i32),
                        line,
                        col + 1,
                        scan_at(text, next, line, col + d1),
                    )
                } else {
                    cons_error(msg_invalid_int(line), scan_at(text, next, line, col + d1))
                }
            }
        } else if is_ident_start(c) {
            let k = 1 + count_ident(text, i + 1);
            let next = if i + k <= text.len() {
                i + k
            } else {
                text.len()
            };
            cons_token(
                reserved_or_symbol(text.subrange(i as int, (i + k) as int)),
                line,
                col + 1,
                scan_at(text, next, line, col + k),
            )
        } else {
            cons_error(msg_unexpected_char(c, line, col + 1), scan_at(text, i + 1, line, col + 1))
        }
    }
}

/// The scan of a whole text: position 0, line 1, nothing consumed yet.
pub open spec fn scan_chars(text: Seq<char>) -> ScanV {
    scan_at(text, 0, 1, 0)
}

/// What scanning returns: the tokens when no error was found, otherwise every
/// error, with the tokens discarded.
pub open spec fn scan_result(text: Seq<char>) -> Result<Seq<TokenV>, Seq<Seq<char>>> {
    let s = scan_chars(text);
    if s.errors.len() == 0 {
        Ok(s.tokens)
    } else {
        Err(s.errors)
    }
}

/// A run of digits from `j` up to `e`, with `e` at the end of the text or at
/// a non-digit, is counted exactly by [`count_digits`].
proof fn lemma_count_digits_run(text: Seq<char>, j: nat, e: nat)
    requires
        j <= e <= text.len(),
        forall|k: int| j <= k < e ==> is_dec_digit(#[trigger] text[k]),
        e == text.len() || !is_dec_digit(text[e as int]),
    ensures
        count_digits(text, j) == e - j,
    decreases e - j,
{
    if j < e {
        lemma_count_digits_run(text, j + 1, e);
    }
}

/// Law: scanning a plain decimal digit sequence whose value fits in 32 bits
/// yields exactly one token, an `Int32` holding that value, at line 1,
/// column 1, and no error.
pub proof fn lemma_scan_int_literal(text: Seq<char>)
    requires
        text.len() > 0,
        forall|k: int| 0 <= k < text.len() ==> is_dec_digit(#[trigger] text[k]),
        dec_val(text) <= i32::MAX,
    ensures
        scan_result(text) == Ok::<Seq<TokenV>, Seq<Seq<char>>>(
            seq![
                TokenV {
                    token_type: TokenTypeV::Int32(dec_val(text) as i32),
                    line: 1,
                    column: 1,
                },
            ],
        ),
{
    reveal_with_fuel(scan_at, 2);
    assert(is_dec_digit(text[0]));
    lemma_count_digits_run(text, 1, text.len() as nat);
    assert(text.subrange(0, text.len() as int) =~= text);
    assert(scan_chars(text).tokens =~= seq![
        TokenV { token_type: TokenTypeV::Int32(dec_val(text) as i32), line: 1, column: 1 },
    ]);
    assert(scan_chars(text).errors =~= Seq::<Seq<char>>::empty());
}

/// Law: a digit sequence with exactly one `.` followed by at least one more
/// digit scans to exactly one `Float32` token carrying the literal's text, at
/// line 1, column 1, and never to an error, whatever its magnitude.
pub proof fn lemma_scan_float_literal(whole: Seq<char>, frac: Seq<char>)
    requires
        whole.len() > 0,
        frac.len() > 0,
        forall|k: int| 0 <= k < whole.len() ==> is_dec_digit(#[trigger] whole[k]),
        forall|k: int| 0 <= k < frac.len() ==> is_dec_digit(#[trigger] frac[k]),
    ensures
        scan_result(whole + seq!['.'] + frac) == Ok::<Seq<TokenV>, Seq<Seq<char>>>(
            seq![
                TokenV {
                    token_type: TokenTypeV::Float32(whole + seq!['.'] + frac),
                    line: 1,
                    column: 1,
                },
            ],
        ),
{
    let text = whole + seq!['.'] + frac;
    let w = whole.len() as int;
    reveal_with_fuel(scan_at, 2);
    assert(text[w] == '.');
    assert(forall|k: int| 0 <= k < w ==> text[k] == whole[k]);
    assert(forall|k: int| w < k < text.len() ==> text[k] == frac[k - w - 1]);
    assert(is_dec_digit(text[0]));
    assert(!is_dec_digit(text[w]));
    lemma_count_digits_run(text, 1, whole.len());
    lemma_count_digits_run(text, whole.len() + 1, text.len() as nat);
    assert(text.subrange(0, text.len() as int) =~= text);
    assert(scan_chars(text).tokens =~= seq![
        TokenV { token_type: TokenTypeV::Float32(text), line: 1, column: 1 },
    ]);
    assert(scan_chars(text).errors =~= Seq::<Seq<char>>::empty());
}

fn build_msg_unknown_escape(c: char, line: u32, col: u32) -> (m: String)
    ensures
        m@ == msg_unknown_escape(c, line as nat, col as nat),
{
    let mut m = String::from_str("Unknown escape sequence \\");
    string_push(&mut m, c);
    proof {
        assert(m@ =~= "Unknown escape sequence \\"@ + seq![c]);
    }
    m.append(" at line ");
    let ls = u32_to_string(line);
    m.append(ls.as_str());
    m.append(", column ");
    let cs = u32_to_string(col);
    m.append(cs.as_str());
    m
}

fn build_msg_incomplete_escape(line: u32, col: u32) -> (m: String)
    ensures
        m@ == msg_incomplete_escape(line as nat, col as nat),
{
    let mut m = String::from_str("Incomplete escape sequence at line ");
    let ls = u32_to_string(line);
    m.append(ls.as_str());
    m.append(", column ");
    let cs = u32_to_string(col);
    m.append(cs.as_str());
    m
}

fn build_msg_unterminated_string(line: u32, col: u32) -> (m: String)
    ensures
        m@ == msg_unterminated_string(line as nat, col as nat),
{
    let mut m = String::from_str("Unterminated string starting at line ");
    let ls = u32_to_string(line);
    m.append(ls.as_str());
    m.append(", column ");
    let cs = u32_to_string(col);
    m.append(cs.as_str());
    m
}

fn build_msg_invalid_char_literal(line: u32, col: u32) -> (m: String)
    ensures
        m@ == msg_invalid_char_literal(line as nat, col as nat),
{
    let mut m = String::from_str("Invalid character literal at line ");
    let ls = u32_to_string(line);
    m.append(ls.as_str());
    m.append(" column ");
    let cs = u32_to_string(col);
    m.append(cs.as_str());
    m
}

fn build_msg_unexpected_char(c: char, line: u32, col: u32) -> (m: String)
    ensures
        m@ == msg_unexpected_char(c, line as nat, col as nat),
{
    let mut m = String::from_str("Unexpected character '");
    string_push(&mut m, c);
    proof {
        assert(m@ =~= "Unexpected character '"@ + seq![c]);
    }
    m.append("' at line ");
    let ls = u32_to_string(line);
    m.append(ls.as_str());
    m.append(" column ");
    let cs = u32_to_string(col);
    m.append(cs.as_str());
    m
}

fn build_msg_invalid_int(line: u32) -> (m: String)
    ensures
        m@ == msg_invalid_int(line as nat),
{
    let mut m = String::from_str("Invalid integer number at line ");
    let ls = u32_to_string(line);
    m.append(ls.as_str());
    m.append(": number too large to fit in target type");
    m
}

/// Executable check for [`is_symbolic_char`].
fn symbolic_char(c: char) -> (r: bool)
    ensures
        r == is_symbolic_char(c),
{
    c == '+' || c == '-' || c == '*' || c == '/' || c == '>' || c == '<' || c == '=' || c == '!'
        || c == '?'
}

/// Counts the decimal digit run starting at `j`, as [`count_digits`] does.
fn count_digits_exec(text: &Vec<char>, j: usize) -> (n: usize)
    requires
        j <= text@.len(),
    ensures
        n == count_digits(text@, j as nat),
        j + n <= text@.len(),
    decreases text@.len() - j,
{
    if j < text.len() && dec_digit(text[j]) {
        let m = count_digits_exec(text, j + 1);
        1 + m
    } else {
        0
    }
}

/// Counts the identifier-continuation run starting at `j`, as [`count_ident`]
/// does.
fn count_ident_exec(text: &Vec<char>, j: usize) -> (n: usize)
    requires
        j <= text@.len(),
    ensures
        n == count_ident(text@, j as nat),
        j + n <= text@.len(),
    decreases text@.len() - j,
{
    if j < text.len() && {
        let c = text[j];
        is_alphanumeric_char(c) || c == '_' || symbolic_char(c)
    } {
        let m = count_ident_exec(text, j + 1);
        1 + m
    } else {
        0
    }
}

/// Counts the keyword body starting at `j`, as [`count_keyword`] does.
fn count_keyword_exec(text: &Vec<char>, j: usize) -> (n: usize)
    requires
        j <= text@.len(),
    ensures
        n == count_keyword(text@, j as nat),
        j + n <= text@.len(),
    decreases text@.len() - j,
{
    if j < text.len() && {
        let c = text[j];
        !(is_whitespace_char(c) || c == '(' || c == ')')
    } {
        let m = count_keyword_exec(text, j + 1);
        1 + m
    } else {
        0
    }
}

/// The digit run counted by [`count_digits`] consists of digits.
proof fn lemma_count_digits_chars(text: Seq<char>, j: nat)
    requires
        j <= text.len(),
    ensures
        forall|k: int| j <= k < j + count_digits(text, j) ==> is_dec_digit(text[k]),
    decreases text.len() - j,
{
    if j < text.len() && is_dec_digit(text[j as int]) {
        lemma_count_digits_chars(text, j + 1);
    }
}

/// Scans a string-literal body, mirroring [`str_body`]: appends the decoded
/// content to `content`, the errors to `errors`, and reports how many
/// characters were consumed and whether the closing quote was found.
fn scan_str_body(
    text: &Vec<char>,
    j: usize,
    line: u32,
    col: u32,
    content: &mut String,
    errors: &mut Vec<String>,
) -> (r: (usize, bool))
    requires
        j <= text@.len() < u32::MAX,
        col as nat <= j + 1,
    ensures
        ({
            let b = str_body(text@, j as nat, line as nat, col as nat);
            &&& final(content)@ == old(content)@ + b.content
            &&& final(errors).deep_view() == old(errors).deep_view() + b.errors
            &&& r.0 == b.consumed
            &&& r.1 == b.terminated
            &&& j + b.consumed <= text@.len()
        }),
    decreases text@.len() - j,
{
    let ghost b = str_body(text@, j as nat, line as nat, col as nat);
    if j >= text.len() {
        proof {
            assert(final(content)@ =~= old(content)@ + b.content);
            assert(final(errors).deep_view() =~= old(errors).deep_view() + b.errors);
        }
        (0, false)
    } else {
        let c = text[j];
        if c == '"' {
            proof {
                assert(content@ =~= old(content)@ + b.content);
                assert(errors.deep_view() =~= old(errors).deep_view() + b.errors);
            }
            (1, true)
        } else if c == '\\' {
            if j + 1 >= text.len() {
                let m = build_msg_incomplete_escape(line, col);
                errors.push(m);
                proof {
                    assert(content@ =~= old(content)@ + b.content);
                    assert(errors.deep_view() =~= old(errors).deep_view() + b.errors);
                }
                (1, false)
            } else {
                let e = text[j + 1];
                let ghost rest = str_body(text@, j as nat + 2, line as nat, col as nat + 2);
                if e == '"' || e == 'n' || e == 't' || e == '\\' {
                    let unescaped = if e == '"' {
                        '"'
                    } else if e == 'n' {
                        '\n'
                    } else if e == 't' {
                        '\t'
                    } else {
                        '\\'
                    };
                    string_push(content, unescaped);
                    let (consumed, terminated) = scan_str_body(
                        text,
                        j + 2,
                        line,
                        col + 2,
                        content,
                        errors,
                    );
                    proof {
                        assert(content@ =~= old(content)@ + b.content);
                        assert(errors.deep_view() =~= old(errors).deep_view() + b.errors);
                    }
                    (2 + consumed, terminated)
                } else {
                    let m = build_msg_unknown_escape(e, line, col);
                    errors.push(m);
                    proof {
                        assert(errors.deep_view() =~= old(errors).deep_view() + seq![
                            msg_unknown_escape(e, line as nat, col as nat),
                        ]);
                    }
                    let (consumed, terminated) = scan_str_body(
                        text,
                        j + 2,
                        line,
                        col + 2,
                        content,
                        errors,
                    );
                    proof {
                        assert(content@ =~= old(content)@ + b.content);
                        assert(errors.deep_view() =~= old(errors).deep_view() + b.errors);
                    }
                    (2 + consumed, terminated)
                }
            }
        } else if c == '\n' {
            proof {
                assert(content@ =~= old(content)@ + b.content);
                assert(errors.deep_view() =~= old(errors).deep_view() + b.errors);
            }
            (0, false)
        } else {
            string_push(content, c);
            let (consumed, terminated) = scan_str_body(text, j + 1, line, col + 1, content, errors);
            proof {
                assert(content@ =~= old(content)@ + b.content);
                assert(errors.deep_view() =~= old(errors).deep_view() + b.errors);
            }
            (1 + consumed, terminated)
        }
    }
}

/// Maps an identifier-like word to its token, as [`reserved_or_symbol`] does.
fn reserved_lookup(word: String) -> (t: TokenType)
    ensures
        t.deep_view() == reserved_or_symbol(word@),
{
    if word == String::from_str("def") {
        TokenType::Var
    } else if word == String::from_str("fn") {
        TokenType::Func
    } else if word == String::from_str("macro") {
        TokenType::Macro
    } else if word == String::from_str("quote") {
        TokenType::Quote
    } else if word == String::from_str("true") {
        TokenType::Bool(true)
    } else if word == String::from_str("false") {
        TokenType::Bool(false)
    } else {
        TokenType::Symbol(word)
    }
}

/// Scans the string literal whose opening quote stands at position `i`,
/// appending its token and errors, then goes on scanning, as the string case
/// of [`scan_at`] says.
fn scan_string_exec(
    text: &Vec<char>,
    i: usize,
    line: u32,
    col: u32,
    tokens: &mut Vec<Token>,
    errors: &mut Vec<String>,
)
    requires
        i < text@.len() < u32::MAX,
        1 <= line,
        line as nat <= 1 + i,
        col as nat <= i,
        text@[i as int] == '"',
    ensures
        final(tokens).deep_view() == old(tokens).deep_view() + scan_at(
            text@,
            i as nat,
            line as nat,
            col as nat,
        ).tokens,
        final(errors).deep_view() == old(errors).deep_view() + scan_at(
            text@,
            i as nat,
            line as nat,
            col as nat,
        ).errors,
    decreases text@.len() - i, 0int,
{
    let ghost s = scan_at(text@, i as nat, line as nat, col as nat);
    let ghost b = str_body(text@, i as nat + 1, line as nat, col as nat + 2);
    let mut content = String::new();
    let (consumed, terminated) = scan_str_body(text, i + 1, line, col + 2, &mut content, errors);
    proof {
        assert(content@ =~= b.content);
    }
    let ghost tv = TokenV {
        token_type: TokenTypeV::String(b.content),
        line: line as nat,
        column: col as nat + 1,
    };
    let ghost mid = old(errors).deep_view() + b.errors + (if b.terminated {
        Seq::<Seq<char>>::empty()
    } else {
        seq![msg_unterminated_string(line as nat, col as nat + 1)]
    });
    tokens.push(Token { token_type: TokenType::String(content), line, column: col + 1 });
    proof {
        assert(tokens.deep_view() =~= old(tokens).deep_view() + seq![tv]);
    }
    if !terminated {
        let m = build_msg_unterminated_string(line, col + 1);
        errors.push(m);
    }
    proof {
        assert(errors.deep_view() =~= mid);
    }
    scan_at_exec(text, i + 1 + consumed, line, col + 1 + (consumed as u32), tokens, errors);
    proof {
        let rest = scan_at(
            text@,
            i as nat + 1 + b.consumed,
            line as nat,
            col as nat + 1 + b.consumed,
        );
        assert(tokens.deep_view() =~= (old(tokens).deep_view() + seq![tv]) + rest.tokens);
        assert(errors.deep_view() =~= mid + rest.errors);
        assert(tokens.deep_view() =~= old(tokens).deep_view() + s.tokens);
        assert(errors.deep_view() =~= old(errors).deep_view() + s.errors);
    }
}

/// Scans the `#` form at position `i`: a boolean `#t`/`#f`, a character
/// literal `#\c`, or the errors for anything else, then goes on scanning, as
/// the `#` case of [`scan_at`] says.
fn scan_hash_exec(
    text: &Vec<char>,
    i: usize,
    line: u32,
    col: u32,
    tokens: &mut Vec<Token>,
    errors: &mut Vec<String>,
)
    requires
        i < text@.len() < u32::MAX,
        1 <= line,
        line as nat <= 1 + i,
        col as nat <= i,
        text@[i as int] == '#',
    ensures
        final(tokens).deep_view() == old(tokens).deep_view() + scan_at(
            text@,
            i as nat,
            line as nat,
            col as nat,
        ).tokens,
        final(errors).deep_view() == old(errors).deep_view() + scan_at(
            text@,
            i as nat,
            line as nat,
            col as nat,
        ).errors,
    decreases text@.len() - i, 0int,
{
    let ghost s = scan_at(text@, i as nat, line as nat, col as nat);
    if i + 1 < text.len() && text[i + 1] == 't' {
        tokens.push(Token { token_type: TokenType::Bool(true), line, column: col + 1 });
        scan_at_exec(text, i + 2, line, col + 2, tokens, errors);
        proof {
            assert(tokens.deep_view() =~= old(tokens).deep_view() + s.tokens);
            assert(errors.deep_view() =~= old(errors).deep_view() + s.errors);
        }
    } else if i + 1 < text.len() && text[i + 1] == 'f' {
        tokens.push(Token { token_type: TokenType::Bool(false), line, column: col + 1 });
        scan_at_exec(text, i + 2, line, col + 2, tokens, errors);
        proof {
            assert(tokens.deep_view() =~= old(tokens).deep_view() + s.tokens);
            assert(errors.deep_view() =~= old(errors).deep_view() + s.errors);
        }
    } else if i + 1 < text.len() && text[i + 1] == '\\' {
        if i + 2 < text.len() {
            tokens.push(
                Token { token_type: TokenType::Character(text[i + 2]), line, column: col + 1 },
            );
            scan_at_exec(text, i + 3, line, col + 3, tokens, errors);
            proof {
                assert(tokens.deep_view() =~= old(tokens).deep_view() + s.tokens);
                assert(errors.deep_view() =~= old(errors).deep_view() + s.errors);
            }
        } else {
            let m = build_msg_invalid_char_literal(line, col + 1);
            errors.push(m);
            scan_at_exec(text, i + 2, line, col + 2, tokens, errors);
            proof {
                assert(tokens.deep_view() =~= old(tokens).deep_view() + s.tokens);
                assert(errors.deep_view() =~= old(errors).deep_view() + s.errors);
            }
        }
    } else {
        let m = build_msg_unexpected_char('#', line, col + 1);
        errors.push(m);
        scan_at_exec(text, i + 1, line, col + 1, tokens, errors);
        proof {
            assert(tokens.deep_view() =~= old(tokens).deep_view() + s.tokens);
            assert(errors.deep_view() =~= old(errors).deep_view() + s.errors);
        }
    }
}

/// Scans the numeric literal whose first digit stands at position `i`,
/// appending its token or error, then goes on scanning, as the number case of
/// [`scan_at`] says.
fn scan_number_exec(
    text: &Vec<char>,
    i: usize,
    line: u32,
    col: u32,
    tokens: &mut Vec<Token>,
    errors: &mut Vec<String>,
)
    requires
        i < text@.len() < u32::MAX,
        1 <= line,
        line as nat <= 1 + i,
        col as nat <= i,
        is_dec_digit(text@[i as int]),
    ensures
        final(tokens).deep_view() == old(tokens).deep_view() + scan_at(
            text@,
            i as nat,
            line as nat,
            col as nat,
        ).tokens,
        final(errors).deep_view() == old(errors).deep_view() + scan_at(
            text@,
            i as nat,
            line as nat,
            col as nat,
        ).errors,
    decreases text@.len() - i, 0int,
{
    let ghost s = scan_at(text@, i as nat, line as nat, col as nat);
    let n1 = count_digits_exec(text, i + 1);
    let d1 = 1 + n1;
    if i + d1 < text.len() && text[i + d1] == '.' {
        let n2 = count_digits_exec(text, i + d1 + 1);
        let k = d1 + 1 + n2;
        let lexeme = copy_range(text, i, i + k);
        tokens.push(Token { token_type: TokenType::Float32(lexeme), line, column: col + 1 });
        scan_at_exec(text, i + k, line, col + (k as u32), tokens, errors);
        proof {
            assert(tokens.deep_view() =~= old(tokens).deep_view() + s.tokens);
            assert(errors.deep_view() =~= old(errors).deep_view() + s.errors);
        }
    } else {
        proof {
            lemma_count_digits_chars(text@, i as nat + 1);
        }
        match parse_i32_digits(text, i, i + d1) {
            Some(v) => {
                tokens.push(Token { token_type: TokenType::Int32(v), line, column: col + 1 });
                scan_at_exec(text, i + d1, line, col + (d1 as u32), tokens, errors);
                proof {
                    assert(tokens.deep_view() =~= old(tokens).deep_view() + s.tokens);
                    assert(errors.deep_view() =~= old(errors).deep_view() + s.errors);
                }
            },
            None => {
                let m = build_msg_invalid_int(line);
                errors.push(m);
                scan_at_exec(text, i + d1, line, col + (d1 as u32), tokens, errors);
                proof {
                    assert(tokens.deep_view() =~= old(tokens).deep_view() + s.tokens);
                    assert(errors.deep_view() =~= old(errors).deep_view() + s.errors);
                }
            },
        }
    }
}

/// Scans the identifier-like token starting at position `i` and maps it to a
/// reserved word or a symbol, then goes on scanning, as the identifier case
/// of [`scan_at`] says.
fn scan_ident_exec(
    text: &Vec<char>,
    i: usize,
    line: u32,
    col: u32,
    tokens: &mut Vec<Token>,
    errors: &mut Vec<String>,
)
    requires
        i < text@.len() < u32::MAX,
        1 <= line,
        line as nat <= 1 + i,
        col as nat <= i,
        is_ident_start(text@[i as int]),
        !is_dec_digit(text@[i as int]),
        text@[i as int] != '(' && text@[i as int] != ')' && text@[i as int] != '{'
            && text@[i as int] != '}' && text@[i as int] != '/' && text@[i as int] != '*'
            && text@[i as int] != '!' && text@[i as int] != '=' && text@[i as int] != '>'
            && text@[i as int] != '<' && text@[i as int] != '\'' && text@[i as int] != ':'
            && text@[i as int] != '"' && text@[i as int] != '#' && text@[i as int] != '`'
            && text@[i as int] != ',' && text@[i as int] != ' ' && text@[i as int] != '\r'
            && text@[i as int] != '\t' && text@[i as int] != '\n',
    ensures
        final(tokens).deep_view() == old(tokens).deep_view() + scan_at(
            text@,
            i as nat,
            line as nat,
            col as nat,
        ).tokens,
        final(errors).deep_view() == old(errors).deep_view() + scan_at(
            text@,
            i as nat,
            line as nat,
            col as nat,
        ).errors,
    decreases text@.len() - i, 0int,
{
    let ghost s = scan_at(text@, i as nat, line as nat, col as nat);
    let n = count_ident_exec(text, i + 1);
    let k = 1 + n;
    let word = copy_range(text, i, i + k);
    let tt = reserved_lookup(word);
    tokens.push(Token { token_type: tt, line, column: col + 1 });
    scan_at_exec(text, i + k, line, col + (k as u32), tokens, errors);
    proof {
        assert(tokens.deep_view() =~= old(tokens).deep_view() + s.tokens);
        assert(errors.deep_view() =~= old(errors).deep_view() + s.errors);
    }
}

/// Scans the text from position `i` on line `line`, with `col` characters
/// already consumed on that line, appending every token and error found, as
/// the model [`scan_at`] says.
#[verifier::rlimit(100)]
fn scan_at_exec(
    text: &Vec<char>,
    i: usize,
    line: u32,
    col: u32,
    tokens: &mut Vec<Token>,
    errors: &mut Vec<String>,
)
    requires
        i <= text@.len() < u32::MAX,
        1 <= line,
        line as nat <= 1 + i,
        col as nat <= i,
    ensures
        final(tokens).deep_view() == old(tokens).deep_view() + scan_at(
            text@,
            i as nat,
            line as nat,
            col as nat,
        ).tokens,
        final(errors).deep_view() == old(errors).deep_view() + scan_at(
            text@,
            i as nat,
            line as nat,
            col as nat,
        ).errors,
    decreases text@.len() - i, 1int,
{
    let ghost s = scan_at(text@, i as nat, line as nat, col as nat);
    if i >= text.len() {
        proof {
            assert(final(tokens).deep_view() =~= old(tokens).deep_view() + s.tokens);
            assert(final(errors).deep_view() =~= old(errors).deep_view() + s.errors);
        }
        return ;
    }
    let c = text[i];
    if c == '(' {
        tokens.push(Token { token_type: TokenType::LeftParen, line, column: col + 1 });
        scan_at_exec(text, i + 1, line, col + 1, tokens, errors);
        proof {
            assert(tokens.deep_view() =~= old(tokens).deep_view() + s.tokens);
            assert(errors.deep_view() =~= old(errors).deep_view() + s.errors);
        }
    } else if c == ')' {
        tokens.push(Token { token_type: TokenType::RightParen, line, column: col + 1 });
        scan_at_exec(text, i + 1, line, col + 1, tokens, errors);
        proof {
            assert(tokens.deep_view() =~= old(tokens).deep_view() + s.tokens);
            assert(errors.deep_view() =~= old(errors).deep_view() + s.errors);
        }
    } else if c == '{' {
        tokens.push(Token { token_type: TokenType::LeftBrace, line, column: col + 1 });
        scan_at_exec(text, i + 1, line, col + 1, tokens, errors);
        proof {
            assert(tokens.deep_view() =~= old(tokens).deep_view() + s.tokens);
            assert(errors.deep_view() =~= old(errors).deep_view() + s.errors);
        }
    } else if c == '}' {
        tokens.push(Token { token_type: TokenType::RightBrace, line, column: col + 1 });
        scan_at_exec(text, i + 1, line, col + 1, tokens, errors);
        proof {
            assert(tokens.deep_view() =~= old(tokens).deep_view() + s.tokens);
            assert(errors.deep_view() =~= old(errors).deep_view() + s.errors);
        }
    } else if c == '/' {
        tokens.push(
            Token { token_type: TokenType::Symbol(String::from_str("/")), line, column: col + 1 },
        );
        scan_at_exec(text, i + 1, line, col + 1, tokens, errors);
        proof {
            assert(tokens.deep_view() =~= old(tokens).deep_view() + s.tokens);
            assert(errors.deep_view() =~= old(errors).deep_view() + s.errors);
        }
    } else if c == '*' {
        tokens.push(
            Token { token_type: TokenType::Symbol(String::from_str("*")), line, column: col + 1 },
        );
        scan_at_exec(text, i + 1, line, col + 1, tokens, errors);
        proof {
            assert(tokens.deep_view() =~= old(tokens).deep_view() + s.tokens);
            assert(errors.deep_view() =~= old(errors).deep_view() + s.errors);
        }
    } else if c == '!' {
        if i + 1 < text.len() && text[i + 1] == '=' {
            tokens.push(Token { token_type: TokenType::BangEqual, line, column: col + 1 });
            scan_at_exec(text, i + 2, line, col + 2, tokens, errors);
        } else {
            tokens.push(Token { token_type: TokenType::Bang, line, column: col + 1 });
            scan_at_exec(text, i + 1, line, col + 1, tokens, errors);
        }
        proof {
            assert(tokens.deep_view() =~= old(tokens).deep_view() + s.tokens);
            assert(errors.deep_view() =~= old(errors).deep_view() + s.errors);
        }
    } else if c == '=' {
        if i + 1 < text.len() && text[i + 1] == '=' {
            tokens.push(
                Token {
                    token_type: TokenType::Symbol(String::from_str("==")),
                    line,
                    column: col + 1,
                },
            );
            scan_at_exec(text, i + 2, line, col + 2, tokens, errors);
        } else {
            tokens.push(
                Token {
                    token_type: TokenType::Symbol(String::from_str("=")),
                    line,
                    column: col + 1,
                },
            );
            scan_at_exec(text, i + 1, line, col + 1, tokens, errors);
        }
        proof {
            assert(tokens.deep_view() =~= old(tokens).deep_view() + s.tokens);
            assert(errors.deep_view() =~= old(errors).deep_view() + s.errors);
        }
    } else if c == '>' {
        if i + 1 < text.len() && text[i + 1] == '=' {
            tokens.push(
                Token {
                    token_type: TokenType::Symbol(String::from_str(">=")),
                    line,
                    column: col + 1,
                },
            );
            scan_at_exec(text, i + 2, line, col + 2, tokens, errors);
        } else {
            tokens.push(
                Token {
                    token_type: TokenType::Symbol(String::from_str(">")),
                    line,
                    column: col + 1,
                },
            );
            scan_at_exec(text, i + 1, line, col + 1, tokens, errors);
        }
        proof {
            assert(tokens.deep_view() =~= old(tokens).deep_view() + s.tokens);
            assert(errors.deep_view() =~= old(errors).deep_view() + s.errors);
        }
    } else if c == '<' {
        if i + 1 < text.len() && text[i + 1] == '=' {
            tokens.push(
                Token {
                    token_type: TokenType::Symbol(String::from_str("<=")),
                    line,
                    column: col + 1,
                },
            );
            scan_at_exec(text, i + 2, line, col + 2, tokens, errors);
        } else {
            tokens.push(
                Token {
                    token_type: TokenType::Symbol(String::from_str("<")),
                    line,
                    column: col + 1,
                },
            );
            scan_at_exec(text, i + 1, line, col + 1, tokens, errors);
        }
        proof {
            assert(tokens.deep_view() =~= old(tokens).deep_view() + s.tokens);
            assert(errors.deep_view() =~= old(errors).deep_view() + s.errors);
        }
    } else if c == '\'' {
        tokens.push(Token { token_type: TokenType::Quote, line, column: col + 1 });
        scan_at_exec(text, i + 1, line, col + 1, tokens, errors);
        proof {
            assert(tokens.deep_view() =~= old(tokens).deep_view() + s.tokens);
            assert(errors.deep_view() =~= old(errors).deep_view() + s.errors);
        }
    } else if c == ':' {
        let n = count_keyword_exec(text, i + 1);
        let kw = copy_range(text, i + 1, i + 1 + n);
        tokens.push(Token { token_type: TokenType::Keyword(kw), line, column: col + 1 });
        scan_at_exec(text, i + 1 + n, line, col + 1 + (n as u32), tokens, errors);
        proof {
            assert(tokens.deep_view() =~= old(tokens).deep_view() + s.tokens);
            assert(errors.deep_view() =~= old(errors).deep_view() + s.errors);
        }
    } else if c == '"' {
        scan_string_exec(text, i, line, col, tokens, errors);
    } else if c == '#' {
        scan_hash_exec(text, i, line, col, tokens, errors);
    } else if c == '`' || c == ',' {
        let mut sym = String::new();
        string_push(&mut sym, c);
        proof {
            assert(sym@ =~= seq![c]);
        }
        tokens.push(Token { token_type: TokenType::Symbol(sym), line, column: col + 1 });
        scan_at_exec(text, i + 1, line, col + 1, tokens, errors);
        proof {
            assert(tokens.deep_view() =~= old(tokens).deep_view() + s.tokens);
            assert(errors.deep_view() =~= old(errors).deep_view() + s.errors);
        }
    } else if c == ' ' || c == '\r' || c == '\t' {
        scan_at_exec(text, i + 1, line, col + 1, tokens, errors);
        proof {
            assert(tokens.deep_view() =~= old(tokens).deep_view() + s.tokens);
            assert(errors.deep_view() =~= old(errors).deep_view() + s.errors);
        }
    } else if c == '\n' {
        scan_at_exec(text, i + 1, line + 1, 0, tokens, errors);
        proof {
            assert(tokens.deep_view() =~= old(tokens).deep_view() + s.tokens);
            assert(errors.deep_view() =~= old(errors).deep_view() + s.errors);
        }
    } else if dec_digit(c) {
        scan_number_exec(text, i, line, col, tokens, errors);
    } else if is_alphabetic_char(c) || c == '_' || symbolic_char(c) {
        scan_ident_exec(text, i, line, col, tokens, errors);
    } else {
        let m = build_msg_unexpected_char(c, line, col + 1);
        errors.push(m);
        scan_at_exec(text, i + 1, line, col + 1, tokens, errors);
        proof {
            assert(tokens.deep_view() =~= old(tokens).deep_view() + s.tokens);
            assert(errors.deep_view() =~= old(errors).deep_view() + s.errors);
        }
    }
}

/// Collects the characters of `text`, in order.
fn string_to_chars(text: &String) -> (chars: Vec<char>)
    ensures
        chars@ == text@,
{
    let s = text.as_str();
    let n = s.unicode_len();
    let mut chars: Vec<char> = Vec::new();
    let mut idx: usize = 0;
    while idx < n
        invariant
            s@ == text@,
            n == text@.len(),
            idx <= n,
            chars@ == text@.subrange(0, idx as int),
        decreases n - idx,
    {
        let c = s.get_char(idx);
        chars.push(c);
        proof {
            assert(text@.subrange(0, idx as int).push(text@[idx as int]) =~= text@.subrange(
                0,
                idx as int + 1,
            ));
        }
        idx = idx + 1;
    }
    proof {
        assert(text@.subrange(0, n as int) =~= text@);
    }
    chars
}

/// Scans `text` into its token sequence, or into the full list of lexical
/// errors when any were found: exactly [`scan_result`] of the text.
///
/// The length bound keeps the line and column counters within 32 bits.
pub fn read_str_scan(text: String) -> (r: Result<Vec<Token>, Vec<String>>)
    requires
        text@.len() < u32::MAX,
    ensures
        match r {
            Ok(tokens) => scan_result(text@) == Ok::<Seq<TokenV>, Seq<Seq<char>>>(
                tokens.deep_view(),
            ),
            Err(errors) => scan_result(text@) == Err::<Seq<TokenV>, Seq<Seq<char>>>(
                errors.deep_view(),
            ),
        },
{
    let chars = string_to_chars(&text);
    let mut tokens: Vec<Token> = Vec::new();
    let mut errors: Vec<String> = Vec::new();
    scan_at_exec(&chars, 0, 1, 0, &mut tokens, &mut errors);
    proof {
        assert(tokens.deep_view() =~= scan_chars(text@).tokens);
        assert(errors.deep_view() =~= scan_chars(text@).errors);
        assert(errors@.len() == errors.deep_view().len());
    }
    if errors.len() == 0 {
        Ok(tokens)
    } else {
        Err(errors)
    }
}

} // verus!

