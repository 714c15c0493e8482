//! The scanner: a pull-based cursor over the input characters.
//!
//! The whole scanner is modelled by `spec_next`, a function from the input
//! and a cursor position to the next token and the position after it. Every
//! scanning method is proved to follow that model exactly, so producing a
//! token is deterministic: it depends on the input and the position alone.

use vstd::prelude::*;
use vstd::string::StrSliceExecFns;
use vstd::string::StringExecFns;

use crate::chars::char_alphabetic;
use crate::chars::char_alphanumeric;
use crate::chars::char_whitespace;
use crate::chars::bin_digit;
use crate::chars::dec_digit;
use crate::chars::hex_digit;
use crate::chars::is_alphabetic_char;
use crate::chars::is_alphanumeric_char;
use crate::chars::is_whitespace_char;
use crate::chars::is_dec_digit;
use crate::chars::push_char;
use crate::tokens::Keywords;
use crate::tokens::Symbols;
use crate::tokens::Token;
use crate::tokens::TokenV;
use crate::tokens::Types;
use crate::tokens::spec_parse_keyword;
use crate::tokens::spec_parse_type;

verus! {

// ---------------------------------------------------------------------------
// Character runs
// ---------------------------------------------------------------------------

/// The position where the maximal run of characters satisfying `p`,
/// starting at `i`, ends.
pub open spec fn run_end(s: Seq<char>, i: int, p: spec_fn(char) -> bool) -> int
    decreases s.len() - i,
{
    if i < s.len() && p(s[i]) {
        run_end(s, i + 1, p)
    } else {
        i
    }
}

/// `s` with every carriage return removed: the scanner treats `\r` as
/// zero-width noise wherever it accumulates text.
pub open spec fn strip_cr(s: Seq<char>) -> Seq<char>
    decreases s.len(),
{
    if s.len() == 0 {
        Seq::empty()
    } else if s.last() == '\r' {
        strip_cr(s.drop_last())
    } else {
        strip_cr(s.drop_last()).push(s.last())
    }
}

/// Whitespace the scanner skips silently: whitespace other than the newline
/// and the tab, which both carry meaning.
pub open spec fn skippable_space(c: char) -> bool {
    char_whitespace(c) && c != '\n' && c != '\t'
}

pub open spec fn ident_char(c: char) -> bool {
    char_alphanumeric(c) || c == '_'
}

pub open spec fn dec_or_und(c: char) -> bool {
    dec_digit(c) || c == '_'
}

pub open spec fn hex_or_und(c: char) -> bool {
    hex_digit(c) || c == '_'
}

pub open spec fn bin_or_und(c: char) -> bool {
    bin_digit(c) || c == '_'
}

pub open spec fn skippable_space_p() -> spec_fn(char) -> bool {
    |c: char| skippable_space(c)
}

pub open spec fn ident_char_p() -> spec_fn(char) -> bool {
    |c: char| ident_char(c)
}

pub open spec fn dec_or_und_p() -> spec_fn(char) -> bool {
    |c: char| dec_or_und(c)
}

pub open spec fn hex_or_und_p() -> spec_fn(char) -> bool {
    |c: char| hex_or_und(c)
}

pub open spec fn bin_or_und_p() -> spec_fn(char) -> bool {
    |c: char| bin_or_und(c)
}

pub open spec fn tab_p() -> spec_fn(char) -> bool {
    |c: char| c == '\t'
}

pub open spec fn not_newline_p() -> spec_fn(char) -> bool {
    |c: char| c != '\n'
}

// ---------------------------------------------------------------------------
// Positions
// ---------------------------------------------------------------------------

/// The 1-based line number after `i` characters of `s` are consumed: the
/// line count grows exactly when a newline is consumed.
pub open spec fn line_of(s: Seq<char>, i: int) -> int
    decreases i,
{
    if i <= 0 {
        1
    } else if s[i - 1] == '\n' {
        line_of(s, i - 1) + 1
    } else {
        line_of(s, i - 1)
    }
}

/// The 1-based column number after `i` characters of `s` are consumed:
/// every consumed character moves the column, and a newline resets it.
pub open spec fn col_of(s: Seq<char>, i: int) -> int
    decreases i,
{
    if i <= 0 {
        1
    } else if s[i - 1] == '\n' {
        1
    } else {
        col_of(s, i - 1) + 1
    }
}

proof fn lemma_position_bounds(s: Seq<char>, i: int)
    requires
        0 <= i,
    ensures
        1 <= line_of(s, i) <= i + 1,
        1 <= col_of(s, i) <= i + 1,
    decreases i,
{
    if i > 0 {
        lemma_position_bounds(s, i - 1);
    }
}


/// Every character inside a maximal run satisfies the run's predicate.
proof fn lemma_run_range(s: Seq<char>, i: int, p: spec_fn(char) -> bool)
    requires
        0 <= i <= s.len(),
    ensures
        i <= run_end(s, i, p) <= s.len(),
        forall|j: int| i <= j < run_end(s, i, p) ==> p(s[j]),
    decreases s.len() - i,
{
    if i < s.len() && p(s[i]) {
        lemma_run_range(s, i + 1, p);
    }
}

/// Dropping carriage returns from a text that has none leaves it unchanged.
proof fn lemma_strip_cr_id(t: Seq<char>)
    requires
        forall|j: int| 0 <= j < t.len() ==> t[j] != '\r',
    ensures
        strip_cr(t) == t,
    decreases t.len(),
{
    if t.len() > 0 {
        lemma_strip_cr_id(t.drop_last());
        assert(strip_cr(t.drop_last()).push(t.last()) =~= t);
    }
}

/// A maximal run of characters that can hold no carriage return reads back
/// exactly as it stands in the input.
proof fn lemma_run_strip(s: Seq<char>, i: int, p: spec_fn(char) -> bool)
    requires
        0 <= i <= s.len(),
        forall|c: char| #[trigger] p(c) ==> c != '\r',
    ensures
        i <= run_end(s, i, p) <= s.len(),
        strip_cr(s.subrange(i, run_end(s, i, p))) == s.subrange(i, run_end(s, i, p)),
{
    lemma_run_range(s, i, p);
    let t = s.subrange(i, run_end(s, i, p));
    assert forall|j: int| 0 <= j < t.len() implies t[j] != '\r' by {
        assert(p(s[i + j]));
    }
    lemma_strip_cr_id(t);
}

/// Bounds of the multi-line comment scan: it ends inside the input only on
/// the third consecutive `<`, and then at least two characters into the
/// body.
proof fn lemma_mlc_bounds(s: Seq<char>, p: int, n: int)
    requires
        0 <= p <= s.len(),
        0 <= n <= 2,
    ensures
        p <= mlc_end(s, p, n) <= s.len(),
        mlc_end(s, p, n) < s.len() ==> s[mlc_end(s, p, n)] == '<' && mlc_end(s, p, n) + n >= p
            + 2,
    decreases s.len() - p,
{
    if p < s.len() {
        if s[p] == '<' {
            if n + 1 != 3 {
                lemma_mlc_bounds(s, p + 1, n + 1);
            }
        } else {
            lemma_mlc_bounds(s, p + 1, 0);
        }
    }
}

/// How an executable escape resolution reads as the model's result.
pub open spec fn escape_result_view(r: Result<char, String>) -> Result<char, Seq<char>> {
    match r {
        Ok(c) => Ok(c),
        Err(m) => Err(m@),
    }
}

/// How an executable suffix scan reads as the model's result.
pub open spec fn suffix_result_view(r: Result<String, String>) -> Result<Seq<char>, Seq<char>> {
    match r {
        Ok(x) => Ok(x@),
        Err(m) => Err(m@),
    }
}

// ---------------------------------------------------------------------------
// Diagnostic texts
// ---------------------------------------------------------------------------

pub open spec fn msg_unknown_char(c: char) -> Seq<char> {
    "Unknown character ("@.push(c) + ")."@
}

pub open spec fn msg_invalid_number(next: Option<char>) -> Seq<char> {
    match next {
        Some(c) => "Invalid number type Some('"@.push(c) + "')"@,
        None => "Invalid number type None"@,
    }
}

pub open spec fn msg_invalid_int_suffix(c: char) -> Seq<char> {
    "Invalid suffix "@.push(c) + ". Did you mean u32, u64, i32, or i64?"@
}

pub open spec fn msg_invalid_float_suffix(c: char) -> Seq<char> {
    "Invalid suffix "@.push(c) + ". Did you mean f32, f64?"@
}

pub open spec fn msg_unknown_escape(c: char) -> Seq<char> {
    "Unknown character escape: \\"@.push(c)
}

/// `Invalid suffix {p}. Did you mean {p}32 or {p}64?`
pub open spec fn msg_suffix_lone(p: char) -> Seq<char> {
    "Invalid suffix "@.push(p) + ". Did you mean "@.push(p) + "32 or "@.push(p) + "64?"@
}

/// `Invalid suffix {p}{c}. Did you mean {p}32 or {p}64?`
pub open spec fn msg_suffix_wrong_first(p: char, c: char) -> Seq<char> {
    "Invalid suffix "@.push(p).push(c) + ". Did you mean "@.push(p) + "32 or "@.push(p)
        + "64?"@
}

/// `Hit EOF when looking for a suffix {p}32 or {p}64.`
pub open spec fn msg_suffix_eof_lone(p: char) -> Seq<char> {
    "Hit EOF when looking for a suffix "@.push(p) + "32 or "@.push(p) + "64."@
}

/// `Invalid suffix {p}{d}. Did you mean {p}{d}{e}?`
pub open spec fn msg_suffix_cut(p: char, d: char, e: char) -> Seq<char> {
    "Invalid suffix "@.push(p).push(d) + ". Did you mean "@.push(p).push(d).push(e) + "?"@
}

/// `Invalid suffix {p}{d}{c}. Did you mean {p}{d}{e}?`
pub open spec fn msg_suffix_wrong_second(p: char, d: char, e: char, c: char) -> Seq<char> {
    "Invalid suffix "@.push(p).push(d).push(c) + ". Did you mean "@.push(p).push(d).push(e)
        + "?"@
}

/// `Hit EOF when looking for suffix {p}{d}{e}.`
pub open spec fn msg_suffix_eof_cut(p: char, d: char, e: char) -> Seq<char> {
    "Hit EOF when looking for suffix "@.push(p).push(d).push(e) + "."@
}

// ---------------------------------------------------------------------------
// The token model
// ---------------------------------------------------------------------------

/// The `32`/`64` tail of a numeric suffix, after its prefix letter (`i`,
/// `u` or `f`) was consumed at position `p - 1`. Yields the suffix text or
/// a diagnostic, and the position after what the scan consumed.
pub open spec fn spec_suffix32_64(s: Seq<char>, p: int, prefix: char) -> (Result<
    Seq<char>,
    Seq<char>,
>, int) {
    if p >= s.len() {
        (Err(msg_suffix_eof_lone(prefix)), p)
    } else if s[p] == '3' {
        if p + 1 >= s.len() {
            (Err(msg_suffix_eof_cut(prefix, '3', '2')), p + 1)
        } else if s[p + 1] == '2' {
            (Ok(Seq::empty().push(prefix).push('3').push('2')), p + 2)
        } else if s[p + 1] == '\n' || s[p + 1] == '\r' {
            (Err(msg_suffix_cut(prefix, '3', '2')), p + 1)
        } else {
            (Err(msg_suffix_wrong_second(prefix, '3', '2', s[p + 1])), p + 2)
        }
    } else if s[p] == '6' {
        if p + 1 >= s.len() {
            (Err(msg_suffix_eof_cut(prefix, '6', '4')), p + 1)
        } else if s[p + 1] == '4' {
            (Ok(Seq::empty().push(prefix).push('6').push('4')), p + 2)
        } else if s[p + 1] == '\n' || s[p + 1] == '\r' {
            (Err(msg_suffix_cut(prefix, '6', '4')), p + 1)
        } else {
            (Err(msg_suffix_wrong_second(prefix, '6', '4', s[p + 1])), p + 2)
        }
    } else if s[p] == '\n' || s[p] == '\r' {
        (Err(msg_suffix_lone(prefix)), p)
    } else {
        (Err(msg_suffix_wrong_first(prefix, s[p])), p + 1)
    }
}

/// The optional suffix after a numeric body ending at `k`. `float` selects
/// the `f` suffix family instead of `u`/`i`; `guard_alnum` widens the
/// invalid-suffix guard from alphabetic to alphanumeric, as the hexadecimal
/// branch has it.
pub open spec fn spec_num_suffix(
    s: Seq<char>,
    k: int,
    number: Seq<char>,
    float: bool,
    guard_alnum: bool,
) -> (TokenV, int) {
    if k < s.len() && (if float {
        s[k] == 'f'
    } else {
        s[k] == 'u' || s[k] == 'i'
    }) {
        let step = spec_suffix32_64(s, k + 1, s[k]);
        match step.0 {
            Ok(suffix) => (TokenV::Numeric(number, spec_parse_type(suffix)), step.1),
            Err(m) => (TokenV::Error(m), step.1),
        }
    } else if k < s.len() && (if guard_alnum {
        char_alphanumeric(s[k])
    } else {
        char_alphabetic(s[k])
    }) {
        if float {
            (TokenV::Error(msg_invalid_float_suffix(s[k])), k + 1)
        } else {
            (TokenV::Error(msg_invalid_int_suffix(s[k])), k + 1)
        }
    } else {
        (TokenV::Numeric(number, None), k)
    }
}

/// A numeric literal whose first digit stands at `j`.
pub open spec fn spec_numeric(s: Seq<char>, j: int) -> (TokenV, int) {
    if s[j] == '0' {
        if j + 1 < s.len() && s[j + 1] == 'x' {
            let k = run_end(s, j + 2, hex_or_und_p());
            if k == j + 2 {
                (TokenV::Error("No hexadecimal value was found."@), j + 2)
            } else {
                spec_num_suffix(s, k, "0x"@ + s.subrange(j + 2, k), false, true)
            }
        } else if j + 1 < s.len() && s[j + 1] == 'b' {
            let k = run_end(s, j + 2, bin_or_und_p());
            if k == j + 2 {
                (TokenV::Error("No binary value was found."@), j + 2)
            } else {
                spec_num_suffix(s, k, "0b"@ + s.subrange(j + 2, k), false, false)
            }
        } else {
            let next = if j + 1 < s.len() {
                Some(s[j + 1])
            } else {
                None
            };
            (TokenV::Error(msg_invalid_number(next)), j + 1)
        }
    } else {
        let k = run_end(s, j, dec_or_und_p());
        if k < s.len() && s[k] == '.' {
            let m = run_end(s, k + 1, dec_or_und_p());
            if m == k + 1 {
                (TokenV::Error("No numbers found after the decimal point."@), k + 1)
            } else {
                spec_num_suffix(
                    s,
                    m,
                    s.subrange(j, k).push('.') + s.subrange(k + 1, m),
                    true,
                    false,
                )
            }
        } else {
            spec_num_suffix(s, k, s.subrange(j, k), false, false)
        }
    }
}

/// An identifier, keyword or boolean literal starting at `j`.
pub open spec fn spec_ident(s: Seq<char>, j: int) -> (TokenV, int) {
    let k = run_end(s, j, ident_char_p());
    let text = s.subrange(j, k);
    if text == "True"@ {
        (TokenV::BoolLiteral(true), k)
    } else if text == "False"@ {
        (TokenV::BoolLiteral(false), k)
    } else {
        match spec_parse_keyword(text) {
            Some(kw) => (TokenV::Keyword(kw), k),
            None => (TokenV::Identifier(text), k),
        }
    }
}

/// The newline at `j` and the tab run after it.
pub open spec fn spec_indent(s: Seq<char>, j: int) -> (TokenV, int) {
    let k = run_end(s, j + 1, tab_p());
    (TokenV::Indent((k - (j + 1)) as u64), k)
}

/// The position where the body of a multi-line comment ends: the first
/// position holding the third of three consecutive `<` characters, counting
/// from `n` already seen, or the input's end if there is none.
pub open spec fn mlc_end(s: Seq<char>, p: int, n: int) -> int
    decreases s.len() - p,
{
    if p >= s.len() {
        s.len() as int
    } else if s[p] == '<' {
        if n + 1 == 3 {
            p
        } else {
            mlc_end(s, p + 1, n + 1)
        }
    } else {
        mlc_end(s, p + 1, 0)
    }
}

/// A comment whose two opening `>` characters end at `d`: a third `>` opens
/// a multi-line body closed by `<<<`; anything else is a single-line body
/// running up to, and not including, the next newline.
pub open spec fn spec_comment(s: Seq<char>, d: int) -> (TokenV, int) {
    if d < s.len() && s[d] == '>' {
        let q = mlc_end(s, d + 1, 0);
        if q >= s.len() {
            (TokenV::Error("Hit eof before end of multi-line comment."@), s.len() as int)
        } else {
            (TokenV::Comment(strip_cr(s.subrange(d + 1, q - 2))), q + 1)
        }
    } else if d < s.len() {
        let r = run_end(s, d, not_newline_p());
        (TokenV::Comment(strip_cr(s.subrange(d, r))), r)
    } else {
        (TokenV::Comment(Seq::empty()), d)
    }
}

/// The escape table shared by character and string literals.
pub open spec fn spec_escape(c: char) -> Result<char, Seq<char>> {
    if c == '\'' {
        Ok('\'')
    } else if c == '"' {
        Ok('"')
    } else if c == '\\' {
        Ok('\\')
    } else if c == 'n' {
        Ok('\n')
    } else if c == 'r' {
        Ok('\r')
    } else if c == 't' {
        Ok('\t')
    } else if c == '\n' {
        Ok(' ')
    } else {
        Err(msg_unknown_escape(c))
    }
}

/// The closing quote check of a character literal, at `q`, carrying the
/// resolved character `ch`.
pub open spec fn spec_char_close(s: Seq<char>, q: int, ch: char) -> (TokenV, int) {
    if q < s.len() && s[q] == '\'' {
        (TokenV::CharLiteral(ch), q + 1)
    } else if q < s.len() {
        (TokenV::Error("Char literal was not closed with a '"@), q + 1)
    } else {
        (TokenV::Error("Char literal was not closed with a '"@), s.len() as int)
    }
}

/// A character literal whose opening quote stands at `j`.
pub open spec fn spec_char_lit(s: Seq<char>, j: int) -> (TokenV, int) {
    let p = j + 1;
    if p >= s.len() {
        (TokenV::Error("Hit eof before end of character literal."@), s.len() as int)
    } else if s[p] == '\\' {
        if p + 1 >= s.len() {
            (TokenV::Error("Hit eof before end of character literal."@), s.len() as int)
        } else {
            match spec_escape(s[p + 1]) {
                Ok(e) => spec_char_close(s, p + 2, e),
                Err(m) => (TokenV::Error(m), p + 2),
            }
        }
    } else if s[p] == '\'' {
        (TokenV::Error("Empty character literal is invalid."@), p + 1)
    } else {
        spec_char_close(s, p + 1, s[p])
    }
}

/// The body of a string literal, scanned from `p` with `acc` accumulated:
/// carriage returns are dropped, escapes are resolved, a quote closes the
/// literal, and the input's end without one is an error.
pub open spec fn spec_str_body(s: Seq<char>, p: int, acc: Seq<char>) -> (TokenV, int)
    decreases s.len() - p,
{
    if p >= s.len() {
        (TokenV::Error("Hit EOF before end of string literal."@), s.len() as int)
    } else if s[p] == '\r' {
        spec_str_body(s, p + 1, acc)
    } else if s[p] == '\\' {
        if p + 1 >= s.len() {
            (TokenV::Error("Hit EOF before end of string literal."@), s.len() as int)
        } else {
            match spec_escape(s[p + 1]) {
                Ok(e) => spec_str_body(s, p + 2, acc.push(e)),
                Err(m) => (TokenV::Error(m), p + 2),
            }
        }
    } else if s[p] == '"' {
        (TokenV::StrLiteral(acc), p + 1)
    } else {
        spec_str_body(s, p + 1, acc.push(s[p]))
    }
}

/// Whether `c` resolves through the symbol table on its own.
pub open spec fn single_symbol(c: char) -> bool {
    c == '(' || c == ')' || c == '[' || c == ']' || c == '{' || c == '}' || c == '.' || c == ','
        || c == ':' || c == '^' || c == '~' || c == '='
}

/// The symbol table's entry for a one-character symbol.
pub open spec fn sym_of_char(c: char) -> Symbols {
    if c == '(' {
        Symbols::ParenOpen
    } else if c == ')' {
        Symbols::ParenClose
    } else if c == '[' {
        Symbols::SBracketOpen
    } else if c == ']' {
        Symbols::SBracketClose
    } else if c == '{' {
        Symbols::CBracketOpen
    } else if c == '}' {
        Symbols::CBracketClose
    } else if c == '.' {
        Symbols::Period
    } else if c == ',' {
        Symbols::Comma
    } else if c == ':' {
        Symbols::Colon
    } else if c == '^' {
        Symbols::Caret
    } else if c == '~' {
        Symbols::Tilde
    } else if c == '=' {
        Symbols::Equals
    } else if c == '+' {
        Symbols::Plus
    } else if c == '*' {
        Symbols::Asterisk
    } else if c == '/' {
        Symbols::Slash
    } else if c == '%' {
        Symbols::Percent
    } else {
        Symbols::Minus
    }
}

/// The symbol table's entry for `{c}=`.
pub open spec fn sym_compound_eq(c: char) -> Symbols {
    if c == '+' {
        Symbols::PlusEquals
    } else if c == '*' {
        Symbols::AsteriskEquals
    } else if c == '/' {
        Symbols::SlashEquals
    } else {
        Symbols::PercentEquals
    }
}

/// The scanner's single step: from the input and a cursor position to the
/// next token and the position after it. Dispatch follows the first
/// character after the skipped whitespace.
pub open spec fn spec_next(s: Seq<char>, i: int) -> (TokenV, int) {
    let j = run_end(s, i, skippable_space_p());
    if j >= s.len() {
        (TokenV::EOF, j)
    } else {
        let c = s[j];
        if char_alphabetic(c) || c == '_' {
            spec_ident(s, j)
        } else if dec_digit(c) {
            spec_numeric(s, j)
        } else if c == '\n' {
            spec_indent(s, j)
        } else if c == '\t' {
            (TokenV::Error("Found an out of place tab."@), j + 1)
        } else if single_symbol(c) {
            (TokenV::Symbol(sym_of_char(c)), j + 1)
        } else if c == '+' || c == '*' || c == '/' || c == '%' {
            if j + 1 < s.len() && s[j + 1] == '=' {
                (TokenV::Symbol(sym_compound_eq(c)), j + 2)
            } else {
                (TokenV::Symbol(sym_of_char(c)), j + 1)
            }
        } else if c == '-' {
            if j + 1 < s.len() && s[j + 1] == '=' {
                (TokenV::Symbol(Symbols::MinusEquals), j + 2)
            } else if j + 1 < s.len() && s[j + 1] == '>' {
                (TokenV::Symbol(Symbols::RightThinArrow), j + 2)
            } else {
                (TokenV::Symbol(Symbols::Minus), j + 1)
            }
        } else if c == '>' {
            if j + 1 < s.len() && s[j + 1] == '>' {
                spec_comment(s, j + 2)
            } else if j + 1 < s.len() && s[j + 1] == '=' {
                (TokenV::Symbol(Symbols::GreaterThanEqual), j + 2)
            } else {
                (TokenV::Symbol(Symbols::GreaterThan), j + 1)
            }
        } else if c == '<' {
            if j + 1 < s.len() && s[j + 1] == '=' {
                (TokenV::Symbol(Symbols::LessThanEqual), j + 2)
            } else {
                (TokenV::Symbol(Symbols::LessThan), j + 1)
            }
        } else if c == '\'' {
            spec_char_lit(s, j)
        } else if c == '"' {
            spec_str_body(s, j + 1, Seq::empty())
        } else {
            (TokenV::Error(msg_unknown_char(c)), j + 1)
        }
    }
}

// ---------------------------------------------------------------------------
// The cursor
// ---------------------------------------------------------------------------

/// A scanner that keeps the current line and column position as well as the
/// position in the character input.
pub struct Lexer {
    input: Vec<char>,
    pos: usize,
    line: usize,
    col: usize,
}

/// The classes of characters the scanner consumes in maximal runs.
#[derive(Debug, PartialEq, Eq, Clone, Copy, Structural)]
enum CharClass {
    Skippable,
    IdentChar,
    DecOrUnd,
    HexOrUnd,
    BinOrUnd,
    Tab,
    NotNewline,
}

impl CharClass {
    spec fn pred(self) -> spec_fn(char) -> bool {
        match self {
            CharClass::Skippable => skippable_space_p(),
            CharClass::IdentChar => ident_char_p(),
            CharClass::DecOrUnd => dec_or_und_p(),
            CharClass::HexOrUnd => hex_or_und_p(),
            CharClass::BinOrUnd => bin_or_und_p(),
            CharClass::Tab => tab_p(),
            CharClass::NotNewline => not_newline_p(),
        }
    }

    fn matches(self, c: char) -> (r: bool)
        ensures
            r == self.pred()(c),
    {
        match self {
            CharClass::Skippable => {
                let w = is_whitespace_char(c);
                w && c != '\n' && c != '\t'
            },
            CharClass::IdentChar => {
                let a = is_alphanumeric_char(c);
                a || c == '_'
            },
            CharClass::DecOrUnd => is_dec_digit(c) || c == '_',
            CharClass::HexOrUnd => {
                is_dec_digit(c) || ('a' <= c && c <= 'f') || ('A' <= c && c <= 'F') || c == '_'
            },
            CharClass::BinOrUnd => c == '0' || c == '1' || c == '_',
            CharClass::Tab => c == '\t',
            CharClass::NotNewline => c != '\n',
        }
    }
}

impl Lexer {
    /// The input characters.
    pub closed spec fn src(self) -> Seq<char> {
        self.input@
    }

    /// How many characters are consumed.
    pub closed spec fn cursor(self) -> int {
        self.pos as int
    }

    /// The cursor sits inside the input, and the line and column counters
    /// agree with the consumed prefix.
    pub closed spec fn wf(self) -> bool {
        &&& self.pos <= self.input@.len()
        &&& self.input@.len() < usize::MAX
        &&& self.line as int == line_of(self.input@, self.pos as int)
        &&& self.col as int == col_of(self.input@, self.pos as int)
    }

    /// Create a scanner over `input` with nothing consumed.
    pub fn new(input: &str) -> (l: Lexer)
        requires
            input@.len() < usize::MAX,
        ensures
            l.wf(),
            l.src() == input@,
            l.cursor() == 0,
    {
        let n = input.unicode_len();
        let mut v: Vec<char> = Vec::new();
        let mut i: usize = 0;
        while i < n
            invariant
                n == input@.len() < usize::MAX,
                i <= n,
                v@ =~= input@.subrange(0, i as int),
            decreases n - i,
        {
            v.push(input.get_char(i));
            i = i + 1;
        }
        proof {
            assert(v@ =~= input@);
        }
        Lexer { input: v, pos: 0, line: 1, col: 1 }
    }

    /// The current position: 1-based line and column of the next character.
    pub fn position(&self) -> (r: (usize, usize))
        requires
            self.wf(),
        ensures
            r.0 as int == line_of(self.src(), self.cursor()),
            r.1 as int == col_of(self.src(), self.cursor()),
    {
        (self.line, self.col)
    }

    /// The next character, if any, without consuming it.
    fn next_char(&self) -> (r: Option<char>)
        ensures
            r == (if self.cursor() < self.src().len() {
                Some(self.src()[self.cursor()])
            } else {
                None::<char>
            }),
    {
        if self.pos < self.input.len() {
            Some(self.input[self.pos])
        } else {
            None
        }
    }

    /// Consume one character, moving the line and column counters.
    fn consume_char(&mut self) -> (r: Option<char>)
        requires
            old(self).wf(),
        ensures
            final(self).wf(),
            final(self).src() == old(self).src(),
            old(self).cursor() < old(self).src().len() ==> {
                &&& r == Some(old(self).src()[old(self).cursor()])
                &&& final(self).cursor() == old(self).cursor() + 1
            },
            old(self).cursor() >= old(self).src().len() ==> {
                &&& r == None::<char>
                &&& final(self).cursor() == old(self).cursor()
            },
    {
        if self.pos < self.input.len() {
            let c = self.input[self.pos];
            proof {
                lemma_position_bounds(self.input@, self.pos as int);
            }
            self.pos = self.pos + 1;
            if c == '\n' {
                self.line = self.line + 1;
                self.col = 1;
            } else {
                self.col = self.col + 1;
            }
            Some(c)
        } else {
            None
        }
    }

    /// Consume the maximal run of characters of class `cc`, returning the
    /// consumed text with carriage returns dropped.
    fn consume_while(&mut self, cc: CharClass) -> (out: String)
        requires
            old(self).wf(),
        ensures
            final(self).wf(),
            final(self).src() == old(self).src(),
            final(self).cursor() == run_end(old(self).src(), old(self).cursor(), cc.pred()),
            out@ == strip_cr(old(self).src().subrange(old(self).cursor(), final(self).cursor())),
    {
        let mut out = String::new();
        let ghost s = self.src();
        let ghost start = self.cursor();
        loop
            invariant
                self.wf(),
                self.src() == s,
                0 <= start <= self.cursor() <= s.len(),
                run_end(s, start, cc.pred()) == run_end(s, self.cursor(), cc.pred()),
                out@ == strip_cr(s.subrange(start, self.cursor())),
            ensures
                self.wf(),
                self.src() == s,
                0 <= start <= self.cursor() <= s.len(),
                run_end(s, start, cc.pred()) == run_end(s, self.cursor(), cc.pred()),
                out@ == strip_cr(s.subrange(start, self.cursor())),
                self.cursor() == s.len() || !cc.pred()(s[self.cursor()]),
            decreases s.len() - self.cursor(),
        {
            let c = match self.next_char() {
                Some(c) => c,
                None => { break ; },
            };
            if !cc.matches(c) {
                break ;
            }
            let ghost before = self.cursor();
            self.consume_char();
            proof {
                assert(s.subrange(start, before + 1) =~= s.subrange(start, before).push(c));
                assert(s.subrange(start, before).push(c).drop_last() =~= s.subrange(
                    start,
                    before,
                ));
            }
            if c != '\r' {
                push_char(&mut out, c);
            }
        }
        out
    }

    /// Consume non-newline whitespace.
    fn consume_whitespace(&mut self)
        requires
            old(self).wf(),
        ensures
            final(self).wf(),
            final(self).src() == old(self).src(),
            final(self).cursor() == run_end(
                old(self).src(),
                old(self).cursor(),
                skippable_space_p(),
            ),
    {
        self.consume_while(CharClass::Skippable);
    }

    /// The escape table shared by character and string literals.
    fn escape_char(c: char) -> (r: Result<char, String>)
        ensures
            escape_result_view(r) == spec_escape(c),
    {
        if c == '\'' {
            Ok('\'')
        } else if c == '"' {
            Ok('"')
        } else if c == '\\' {
            Ok('\\')
        } else if c == 'n' {
            Ok('\n')
        } else if c == 'r' {
            Ok('\r')
        } else if c == 't' {
            Ok('\t')
        } else if c == '\n' {
            Ok(' ')
        } else {
            let mut m = String::from_str("Unknown character escape: \\");
            push_char(&mut m, c);
            Err(m)
        }
    }

    /// Identifiers: a maximal run of alphanumeric and underscore
    /// characters, then resolved against the boolean spellings and the
    /// keyword table.
    fn consume_identifier(&mut self) -> (r: Token)
        requires
            old(self).wf(),
        ensures
            final(self).wf(),
            final(self).src() == old(self).src(),
            (r@, final(self).cursor()) == spec_ident(old(self).src(), old(self).cursor()),
    {
        proof {
            assert forall|c: char| #[trigger] ident_char_p()(c) implies c != '\r' by {}
            lemma_run_strip(self.src(), self.cursor(), ident_char_p());
        }
        let ident = self.consume_while(CharClass::IdentChar);
        if ident == String::from_str("True") {
            return Token::BoolLiteral(true);
        }
        if ident == String::from_str("False") {
            return Token::BoolLiteral(false);
        }
        match Keywords::lookup(&ident) {
            Some(kw) => Token::Keyword(kw),
            None => Token::Identifier(ident),
        }
    }

    /// Consume the newline, then count the run of tabs after it.
    fn consume_tabs(&mut self) -> (r: Token)
        requires
            old(self).wf(),
            old(self).cursor() < old(self).src().len(),
            old(self).src()[old(self).cursor()] == '\n',
        ensures
            final(self).wf(),
            final(self).src() == old(self).src(),
            (r@, final(self).cursor()) == spec_indent(old(self).src(), old(self).cursor()),
    {
        let ghost s = self.src();
        self.consume_char();
        let ghost start = self.cursor();
        let mut count: u64 = 0;
        loop
            invariant
                self.wf(),
                self.src() == s,
                0 <= start <= self.cursor() <= s.len(),
                run_end(s, start, tab_p()) == run_end(s, self.cursor(), tab_p()),
                count as int == self.cursor() - start,
            ensures
                self.wf(),
                self.src() == s,
                0 <= start <= self.cursor() <= s.len(),
                count as int == self.cursor() - start,
                self.cursor() == run_end(s, start, tab_p()),
            decreases s.len() - self.cursor(),
        {
            let c = match self.next_char() {
                Some(c) => c,
                None => { break ; },
            };
            if c != '\t' {
                break ;
            }
            self.consume_char();
            count = count + 1;
        }
        Token::Indent(count)
    }

    /// A character literal: an opening quote, one possibly escaped
    /// character, and a closing quote.
    fn consume_char_literal(&mut self) -> (r: Token)
        requires
            old(self).wf(),
            old(self).cursor() < old(self).src().len(),
        ensures
            final(self).wf(),
            final(self).src() == old(self).src(),
            (r@, final(self).cursor()) == spec_char_lit(old(self).src(), old(self).cursor()),
    {
        self.consume_char();
        let ch = match self.consume_char() {
            None => {
                return Token::Error(
                    String::from_str("Hit eof before end of character literal."),
                );
            },
            Some(c0) => {
                if c0 == '\\' {
                    match self.consume_char() {
                        None => {
                            return Token::Error(
                                String::from_str("Hit eof before end of character literal."),
                            );
                        },
                        Some(c2) => {
                            match Self::escape_char(c2) {
                                Ok(e) => e,
                                Err(m) => {
                                    return Token::Error(m);
                                },
                            }
                        },
                    }
                } else if c0 == '\'' {
                    return Token::Error(
                        String::from_str("Empty character literal is invalid."),
                    );
                } else {
                    c0
                }
            },
        };
        match self.consume_char() {
            Some(q) => {
                if q == '\'' {
                    Token::CharLiteral(ch)
                } else {
                    Token::Error(String::from_str("Char literal was not closed with a '"))
                }
            },
            None => Token::Error(String::from_str("Char literal was not closed with a '")),
        }
    }

    /// A string literal: everything up to the closing quote, with escapes
    /// resolved and carriage returns dropped; literal newlines are legal.
    fn consume_string_literal(&mut self) -> (r: Token)
        requires
            old(self).wf(),
            old(self).cursor() < old(self).src().len(),
        ensures
            final(self).wf(),
            final(self).src() == old(self).src(),
            (r@, final(self).cursor()) == spec_str_body(
                old(self).src(),
                old(self).cursor() + 1,
                Seq::empty(),
            ),
    {
        let ghost s = self.src();
        self.consume_char();
        let ghost start = self.cursor();
        let mut result = String::new();
        loop
            invariant
                self.wf(),
                self.src() == s,
                s == old(self).src(),
                start == old(self).cursor() + 1,
                0 <= start <= self.cursor() <= s.len(),
                spec_str_body(s, self.cursor(), result@) == spec_str_body(
                    s,
                    start,
                    Seq::empty(),
                ),
            decreases s.len() - self.cursor(),
        {
            match self.consume_char() {
                None => {
                    return Token::Error(
                        String::from_str("Hit EOF before end of string literal."),
                    );
                },
                Some(c) => {
                    if c == '\r' {
                    } else if c == '\\' {
                        match self.consume_char() {
                            None => {
                                return Token::Error(
                                    String::from_str("Hit EOF before end of string literal."),
                                );
                            },
                            Some(c2) => {
                                match Self::escape_char(c2) {
                                    Ok(e) => {
                                        push_char(&mut result, e);
                                    },
                                    Err(m) => {
                                        return Token::Error(m);
                                    },
                                }
                            },
                        }
                    } else if c == '"' {
                        return Token::StrLiteral(result);
                    } else {
                        push_char(&mut result, c);
                    }
                },
            }
        }
    }
    /// A comment, after its first `>` was consumed and with the cursor on
    /// the second: three `>` open a multi-line body closed by `<<<`;
    /// anything else is a single-line body running to the next newline.
    fn consume_comment(&mut self) -> (r: Token)
        requires
            old(self).wf(),
            old(self).cursor() < old(self).src().len(),
            old(self).src()[old(self).cursor()] == '>',
        ensures
            final(self).wf(),
            final(self).src() == old(self).src(),
            (r@, final(self).cursor()) == spec_comment(old(self).src(), old(self).cursor() + 1),
    {
        let ghost s = self.src();
        self.consume_char();
        match self.next_char() {
            Some(c3) => {
                if c3 == '>' {
                    self.consume_char();
                    let body_start: usize = self.pos;
                    let mut seqn: u8 = 0;
                    loop
                        invariant
                            self.wf(),
                            self.src() == s,
                            s == old(self).src(),
                            0 <= body_start as int <= self.cursor() <= s.len(),
                            0 <= seqn <= 2,
                            mlc_end(s, body_start as int, 0) == mlc_end(
                                s,
                                self.cursor(),
                                seqn as int,
                            ),
                        ensures
                            self.wf(),
                            self.src() == s,
                            body_start as int <= self.cursor() <= s.len(),
                            self.cursor() == mlc_end(s, body_start as int, 0),
                        decreases s.len() - self.cursor(),
                    {
                        let c = match self.next_char() {
                            Some(c) => c,
                            None => { break ; },
                        };
                        if c == '<' {
                            if seqn == 2 {
                                break ;
                            }
                            seqn = seqn + 1;
                        } else {
                            seqn = 0;
                        }
                        self.consume_char();
                    }
                    if self.next_char().is_none() {
                        return Token::Error(
                            String::from_str("Hit eof before end of multi-line comment."),
                        );
                    }
                    proof {
                        lemma_mlc_bounds(s, body_start as int, 0);
                    }
                    let q: usize = self.pos;
                    let stop: usize = q - 2;
                    let mut body = String::new();
                    let mut i: usize = body_start;
                    while i < stop
                        invariant
                            self.wf(),
                            self.src() == s,
                            s == old(self).src(),
                            self.cursor() == q as int,
                            q as int == mlc_end(s, body_start as int, 0),
                            q < s.len(),
                            body_start <= stop < q,
                            stop as int == q - 2,
                            body_start <= i <= stop,
                            body@ == strip_cr(s.subrange(body_start as int, i as int)),
                        decreases stop - i,
                    {
                        let c = self.input[i];
                        proof {
                            assert(s.subrange(body_start as int, i + 1) =~= s.subrange(
                                body_start as int,
                                i as int,
                            ).push(c));
                            assert(s.subrange(body_start as int, i as int).push(c).drop_last()
                                =~= s.subrange(body_start as int, i as int));
                        }
                        if c != '\r' {
                            push_char(&mut body, c);
                        }
                        i = i + 1;
                    }
                    self.consume_char();
                    Token::Comment(body)
                } else {
                    let text = self.consume_while(CharClass::NotNewline);
                    Token::Comment(text)
                }
            },
            None => Token::Comment(String::new()),
        }
    }

    /// The `32`/`64` tail of a numeric suffix whose prefix letter (`i`, `u`
    /// or `f`) was already consumed. The two-level scan names the most
    /// probable typo in its diagnostics.
    fn consume_32_64(&mut self, prefix: char) -> (r: Result<String, String>)
        requires
            old(self).wf(),
        ensures
            final(self).wf(),
            final(self).src() == old(self).src(),
            (suffix_result_view(r), final(self).cursor()) == spec_suffix32_64(
                old(self).src(),
                old(self).cursor(),
                prefix,
            ),
    {
        match self.next_char() {
            None => {
                let mut m = String::from_str("Hit EOF when looking for a suffix ");
                push_char(&mut m, prefix);
                m.append("32 or ");
                push_char(&mut m, prefix);
                m.append("64.");
                proof {
                    assert(m@ =~= msg_suffix_eof_lone(prefix));
                }
                Err(m)
            },
            Some(d) => {
                if d == '3' || d == '6' {
                    self.consume_char();
                    let e: char = if d == '3' {
                        '2'
                    } else {
                        '4'
                    };
                    match self.next_char() {
                        None => {
                            let mut m = String::from_str("Hit EOF when looking for suffix ");
                            push_char(&mut m, prefix);
                            push_char(&mut m, d);
                            push_char(&mut m, e);
                            m.append(".");
                            proof {
                                assert(m@ =~= msg_suffix_eof_cut(prefix, d, e));
                            }
                            Err(m)
                        },
                        Some(c2) => {
                            if c2 == e {
                                self.consume_char();
                                let mut suf = String::new();
                                push_char(&mut suf, prefix);
                                push_char(&mut suf, d);
                                push_char(&mut suf, e);
                                Ok(suf)
                            } else if c2 == '\n' || c2 == '\r' {
                                let mut m = String::from_str("Invalid suffix ");
                                push_char(&mut m, prefix);
                                push_char(&mut m, d);
                                m.append(". Did you mean ");
                                push_char(&mut m, prefix);
                                push_char(&mut m, d);
                                push_char(&mut m, e);
                                m.append("?");
                                proof {
                                    assert(m@ =~= msg_suffix_cut(prefix, d, e));
                                }
                                Err(m)
                            } else {
                                self.consume_char();
                                let mut m = String::from_str("Invalid suffix ");
                                push_char(&mut m, prefix);
                                push_char(&mut m, d);
                                push_char(&mut m, c2);
                                m.append(". Did you mean ");
                                push_char(&mut m, prefix);
                                push_char(&mut m, d);
                                push_char(&mut m, e);
                                m.append("?");
                                proof {
                                    assert(m@ =~= msg_suffix_wrong_second(prefix, d, e, c2));
                                }
                                Err(m)
                            }
                        },
                    }
                } else if d == '\n' || d == '\r' {
                    let mut m = String::from_str("Invalid suffix ");
                    push_char(&mut m, prefix);
                    m.append(". Did you mean ");
                    push_char(&mut m, prefix);
                    m.append("32 or ");
                    push_char(&mut m, prefix);
                    m.append("64?");
                    proof {
                        assert(m@ =~= msg_suffix_lone(prefix));
                    }
                    Err(m)
                } else {
                    self.consume_char();
                    let mut m = String::from_str("Invalid suffix ");
                    push_char(&mut m, prefix);
                    push_char(&mut m, d);
                    m.append(". Did you mean ");
                    push_char(&mut m, prefix);
                    m.append("32 or ");
                    push_char(&mut m, prefix);
                    m.append("64?");
                    proof {
                        assert(m@ =~= msg_suffix_wrong_first(prefix, d));
                    }
                    Err(m)
                }
            },
        }
    }

    /// The optional suffix after a numeric body: resolve a suffix against
    /// the builtin-type table, or diagnose an invalid one.
    fn finish_numeric(&mut self, number: String, float: bool, guard_alnum: bool) -> (r: Token)
        requires
            old(self).wf(),
        ensures
            final(self).wf(),
            final(self).src() == old(self).src(),
            (r@, final(self).cursor()) == spec_num_suffix(
                old(self).src(),
                old(self).cursor(),
                number@,
                float,
                guard_alnum,
            ),
    {
        match self.next_char() {
            Some(c) => {
                let prefixed = if float {
                    c == 'f'
                } else {
                    c == 'u' || c == 'i'
                };
                if prefixed {
                    self.consume_char();
                    match self.consume_32_64(c) {
                        Ok(suf) => Token::Numeric(number, Types::lookup(&suf)),
                        Err(m) => Token::Error(m),
                    }
                } else {
                    let guarded = if guard_alnum {
                        is_alphanumeric_char(c)
                    } else {
                        is_alphabetic_char(c)
                    };
                    if guarded {
                        self.consume_char();
                        let mut m = String::from_str("Invalid suffix ");
                        push_char(&mut m, c);
                        if float {
                            m.append(". Did you mean f32, f64?");
                        } else {
                            m.append(". Did you mean u32, u64, i32, or i64?");
                        }
                        Token::Error(m)
                    } else {
                        Token::Numeric(number, None)
                    }
                }
            },
            None => Token::Numeric(number, None),
        }
    }

    /// A numeric literal: decimal, hexadecimal, binary or float, with an
    /// optional type suffix.
    fn consume_numeric(&mut self) -> (r: Token)
        requires
            old(self).wf(),
            old(self).cursor() < old(self).src().len(),
            dec_digit(old(self).src()[old(self).cursor()]),
        ensures
            final(self).wf(),
            final(self).src() == old(self).src(),
            (r@, final(self).cursor()) == spec_numeric(old(self).src(), old(self).cursor()),
    {
        let ghost s = self.src();
        let ghost j = self.cursor();
        let c0 = self.next_char().unwrap();
        if c0 == '0' {
            self.consume_char();
            match self.next_char() {
                Some(c1) => {
                    if c1 == 'x' {
                        self.consume_char();
                        proof {
                            assert forall|c: char| #[trigger] hex_or_und_p()(c) implies c
                                != '\r' by {}
                            lemma_run_strip(s, self.cursor(), hex_or_und_p());
                        }
                        let digits = self.consume_while(CharClass::HexOrUnd);
                        if digits.as_str().is_empty() {
                            return Token::Error(
                                String::from_str("No hexadecimal value was found."),
                            );
                        }
                        let mut number = String::from_str("0x");
                        number.append(digits.as_str());
                        self.finish_numeric(number, false, true)
                    } else if c1 == 'b' {
                        self.consume_char();
                        proof {
                            assert forall|c: char| #[trigger] bin_or_und_p()(c) implies c
                                != '\r' by {}
                            lemma_run_strip(s, self.cursor(), bin_or_und_p());
                        }
                        let digits = self.consume_while(CharClass::BinOrUnd);
                        if digits.as_str().is_empty() {
                            return Token::Error(
                                String::from_str("No binary value was found."),
                            );
                        }
                        let mut number = String::from_str("0b");
                        number.append(digits.as_str());
                        self.finish_numeric(number, false, false)
                    } else {
                        let mut m = String::from_str("Invalid number type Some('");
                        push_char(&mut m, c1);
                        m.append("')");
                        proof {
                            assert(m@ =~= msg_invalid_number(Some(c1)));
                        }
                        Token::Error(m)
                    }
                },
                None => Token::Error(String::from_str("Invalid number type None")),
            }
        } else {
            proof {
                assert forall|c: char| #[trigger] dec_or_und_p()(c) implies c != '\r' by {}
                lemma_run_strip(s, self.cursor(), dec_or_und_p());
            }
            let digits = self.consume_while(CharClass::DecOrUnd);
            let dot = match self.next_char() {
                Some(d) => d == '.',
                None => false,
            };
            if dot {
                self.consume_char();
                proof {
                    assert forall|c: char| #[trigger] dec_or_und_p()(c) implies c != '\r' by {}
                    lemma_run_strip(s, self.cursor(), dec_or_und_p());
                }
                let frac = self.consume_while(CharClass::DecOrUnd);
                if frac.as_str().is_empty() {
                    return Token::Error(
                        String::from_str("No numbers found after the decimal point."),
                    );
                }
                let mut number = digits;
                push_char(&mut number, '.');
                number.append(frac.as_str());
                self.finish_numeric(number, true, false)
            } else {
                self.finish_numeric(digits, false, false)
            }
        }
    }

    /// The symbol table's entry for a one-character symbol.
    fn single_symbol_token(c: char) -> (r: Symbols)
        requires
            single_symbol(c) || c == '+' || c == '*' || c == '/' || c == '%' || c == '-',
        ensures
            r == sym_of_char(c),
    {
        if c == '(' {
            Symbols::ParenOpen
        } else if c == ')' {
            Symbols::ParenClose
        } else if c == '[' {
            Symbols::SBracketOpen
        } else if c == ']' {
            Symbols::SBracketClose
        } else if c == '{' {
            Symbols::CBracketOpen
        } else if c == '}' {
            Symbols::CBracketClose
        } else if c == '.' {
            Symbols::Period
        } else if c == ',' {
            Symbols::Comma
        } else if c == ':' {
            Symbols::Colon
        } else if c == '^' {
            Symbols::Caret
        } else if c == '~' {
            Symbols::Tilde
        } else if c == '=' {
            Symbols::Equals
        } else if c == '+' {
            Symbols::Plus
        } else if c == '*' {
            Symbols::Asterisk
        } else if c == '/' {
            Symbols::Slash
        } else if c == '%' {
            Symbols::Percent
        } else {
            Symbols::Minus
        }
    }

    /// Produce the next token, consuming exactly its characters. The result
    /// and the new cursor position are the model's: they depend on the
    /// input and the old position alone.
    pub fn next_token(&mut self) -> (r: Token)
        requires
            old(self).wf(),
        ensures
            final(self).wf(),
            final(self).src() == old(self).src(),
            (r@, final(self).cursor()) == spec_next(old(self).src(), old(self).cursor()),
    {
        self.consume_whitespace();
        let c = match self.next_char() {
            Some(c) => c,
            None => { return Token::EOF; },
        };
        if is_alphabetic_char(c) || c == '_' {
            self.consume_identifier()
        } else if is_dec_digit(c) {
            self.consume_numeric()
        } else if c == '\n' {
            self.consume_tabs()
        } else if c == '\t' {
            self.consume_char();
            Token::Error(String::from_str("Found an out of place tab."))
        } else if c == '(' || c == ')' || c == '[' || c == ']' || c == '{' || c == '}' || c
            == '.' || c == ',' || c == ':' || c == '^' || c == '~' || c == '=' {
            self.consume_char();
            Token::Symbol(Self::single_symbol_token(c))
        } else if c == '+' || c == '*' || c == '/' || c == '%' {
            self.consume_char();
            let two = match self.next_char() {
                Some(e) => e == '=',
                None => false,
            };
            if two {
                self.consume_char();
                let r = if c == '+' {
                    Symbols::PlusEquals
                } else if c == '*' {
                    Symbols::AsteriskEquals
                } else if c == '/' {
                    Symbols::SlashEquals
                } else {
                    Symbols::PercentEquals
                };
                Token::Symbol(r)
            } else {
                Token::Symbol(Self::single_symbol_token(c))
            }
        } else if c == '-' {
            self.consume_char();
            match self.next_char() {
                Some(e) => {
                    if e == '=' {
                        self.consume_char();
                        Token::Symbol(Symbols::MinusEquals)
                    } else if e == '>' {
                        self.consume_char();
                        Token::Symbol(Symbols::RightThinArrow)
                    } else {
                        Token::Symbol(Symbols::Minus)
                    }
                },
                None => Token::Symbol(Symbols::Minus),
            }
        } else if c == '>' {
            self.consume_char();
            match self.next_char() {
                Some(e) => {
                    if e == '>' {
                        self.consume_comment()
                    } else if e == '=' {
                        self.consume_char();
                        Token::Symbol(Symbols::GreaterThanEqual)
                    } else {
                        Token::Symbol(Symbols::GreaterThan)
                    }
                },
                None => Token::Symbol(Symbols::GreaterThan),
            }
        } else if c == '<' {
            self.consume_char();
            let two = match self.next_char() {
                Some(e) => e == '=',
                None => false,
            };
            if two {
                self.consume_char();
                Token::Symbol(Symbols::LessThanEqual)
            } else {
                Token::Symbol(Symbols::LessThan)
            }
        } else if c == '\'' {
            self.consume_char_literal()
        } else if c == '"' {
            self.consume_string_literal()
        } else {
            self.consume_char();
            let mut m = String::from_str("Unknown character (");
            push_char(&mut m, c);
            m.append(").");
            proof {
                assert(m@ =~= msg_unknown_char(c));
            }
            Token::Error(m)
        }
    }

    /// The sequence interface: the next token, or nothing once the end of
    /// the input is reached. The end token itself is never surfaced, and
    /// after it the sequence stays exhausted.
    pub fn next(&mut self) -> (r: Option<Token>)
        requires
            old(self).wf(),
        ensures
            final(self).wf(),
            final(self).src() == old(self).src(),
            final(self).cursor() == spec_next(old(self).src(), old(self).cursor()).1,
            match r {
                Some(t) => t@ == spec_next(old(self).src(), old(self).cursor()).0 && !(spec_next(
                    old(self).src(),
                    old(self).cursor(),
                ).0 is EOF),
                None => spec_next(old(self).src(), old(self).cursor()).0 is EOF,
            },
            spec_tokens(old(self).src(), old(self).cursor()) == (match r {
                Some(t) => seq![t@] + spec_tokens(final(self).src(), final(self).cursor()),
                None => Seq::<TokenV>::empty(),
            }),
    {
        proof {
            lemma_tokens_step(self.src(), self.cursor());
        }
        let t = self.next_token();
        match t {
            Token::EOF => None,
            other => Some(other),
        }
    }
}


/// A run over characters that all satisfy its predicate spans the rest of
/// the input.
proof fn lemma_run_full(s: Seq<char>, i: int, p: spec_fn(char) -> bool)
    requires
        0 <= i <= s.len(),
        forall|j: int| i <= j < s.len() ==> p(s[j]),
    ensures
        run_end(s, i, p) == s.len(),
    decreases s.len() - i,
{
    if i < s.len() {
        lemma_run_full(s, i + 1, p);
    }
}

/// Scanning a decimal integer written as a bare digit run (no leading
/// zero) yields exactly that spelling as a `Numeric` token with no suffix,
/// consuming the whole input.
pub proof fn lemma_decimal_literal(s: Seq<char>)
    requires
        s.len() > 0,
        forall|i: int| 0 <= i < s.len() ==> dec_digit(#[trigger] s[i]),
        s[0] != '0',
    ensures
        spec_next(s, 0) == (TokenV::Numeric(s, None::<Types>), s.len() as int),
{
    assert(!skippable_space_p()(s[0]));
    assert(run_end(s, 0, skippable_space_p()) == 0);
    assert(!char_alphabetic(s[0]));
    assert forall|j: int| 0 <= j < s.len() implies dec_or_und_p()(s[j]) by {
        assert(dec_digit(s[j]));
    }
    lemma_run_full(s, 0, dec_or_und_p());
    assert(s.subrange(0, s.len() as int) =~= s);
}

/// Scanning `0x` followed by a non-empty run of hexadecimal digits yields
/// the whole spelling as a `Numeric` token with no suffix, consuming the
/// whole input.
pub proof fn lemma_hex_literal(h: Seq<char>)
    requires
        h.len() > 0,
        forall|i: int| 0 <= i < h.len() ==> hex_digit(#[trigger] h[i]),
    ensures
        spec_next("0x"@ + h, 0) == (TokenV::Numeric("0x"@ + h, None::<Types>), ("0x"@
            + h).len() as int),
{
    reveal_strlit("0x");
    let s = "0x"@ + h;
    assert(s[0] == '0');
    assert(s[1] == 'x');
    assert(!skippable_space_p()(s[0]));
    assert(run_end(s, 0, skippable_space_p()) == 0);
    assert(!char_alphabetic(s[0]));
    assert(dec_digit(s[0]));
    assert forall|j: int| 2 <= j < s.len() implies hex_or_und_p()(s[j]) by {
        assert(hex_digit(h[j - 2]));
        assert(s[j] == h[j - 2]);
    }
    lemma_run_full(s, 2, hex_or_und_p());
    assert(s.subrange(2, s.len() as int) =~= h);
}

/// Scanning `0x` alone is a diagnostic: no hexadecimal digit follows the
/// prefix.
pub proof fn lemma_hex_empty()
    ensures
        spec_next("0x"@, 0) == (TokenV::Error("No hexadecimal value was found."@), 2int),
{
    reveal_strlit("0x");
    let s = "0x"@;
    assert(s[0] == '0');
    assert(s[1] == 'x');
    assert(!skippable_space_p()(s[0]));
    assert(run_end(s, 0, skippable_space_p()) == 0);
    assert(!char_alphabetic(s[0]));
    assert(dec_digit(s[0]));
    assert(run_end(s, 2, hex_or_und_p()) == 2);
}


/// A maximal run ends exactly at the first position that fails its
/// predicate.
proof fn lemma_run_end_at(s: Seq<char>, i: int, p: spec_fn(char) -> bool, e: int)
    requires
        0 <= i <= e <= s.len(),
        forall|j: int| i <= j < e ==> p(s[j]),
        e == s.len() || !p(s[e]),
    ensures
        run_end(s, i, p) == e,
    decreases e - i,
{
    if i < e {
        assert(p(s[i]));
        lemma_run_end_at(s, i + 1, p, e);
    }
}

/// Bounds of the suffix tail scan.
proof fn lemma_suffix32_64_bounds(s: Seq<char>, p: int, prefix: char)
    requires
        0 <= p <= s.len(),
    ensures
        p <= spec_suffix32_64(s, p, prefix).1 <= s.len(),
{
}

/// Bounds of the optional-suffix scan.
proof fn lemma_num_suffix_bounds(s: Seq<char>, k: int, number: Seq<char>, float: bool, g: bool)
    requires
        0 <= k <= s.len(),
    ensures
        k <= spec_num_suffix(s, k, number, float, g).1 <= s.len(),
        !(spec_num_suffix(s, k, number, float, g).0 is EOF),
{
    if k < s.len() {
        lemma_suffix32_64_bounds(s, k + 1, s[k]);
    }
}

/// A numeric literal consumes at least its first digit and stays inside
/// the input.
proof fn lemma_numeric_bounds(s: Seq<char>, j: int)
    requires
        0 <= j < s.len(),
        dec_digit(s[j]),
    ensures
        j < spec_numeric(s, j).1 <= s.len(),
        !(spec_numeric(s, j).0 is EOF),
{
    if s[j] == '0' {
        if j + 1 < s.len() && s[j + 1] == 'x' {
            lemma_run_range(s, j + 2, hex_or_und_p());
            let k = run_end(s, j + 2, hex_or_und_p());
            lemma_num_suffix_bounds(s, k, "0x"@ + s.subrange(j + 2, k), false, true);
        } else if j + 1 < s.len() && s[j + 1] == 'b' {
            lemma_run_range(s, j + 2, bin_or_und_p());
            let k = run_end(s, j + 2, bin_or_und_p());
            lemma_num_suffix_bounds(s, k, "0b"@ + s.subrange(j + 2, k), false, false);
        }
    } else {
        assert(dec_or_und_p()(s[j]));
        lemma_run_range(s, j + 1, dec_or_und_p());
        let k = run_end(s, j, dec_or_und_p());
        if k < s.len() && s[k] == '.' {
            lemma_run_range(s, k + 1, dec_or_und_p());
            let m = run_end(s, k + 1, dec_or_und_p());
            lemma_num_suffix_bounds(
                s,
                m,
                s.subrange(j, k).push('.') + s.subrange(k + 1, m),
                true,
                false,
            );
        } else {
            lemma_num_suffix_bounds(s, k, s.subrange(j, k), false, false);
        }
    }
}

/// Bounds of the string-literal body scan.
proof fn lemma_str_body_bounds(s: Seq<char>, p: int, acc: Seq<char>)
    requires
        0 <= p <= s.len(),
    ensures
        p <= spec_str_body(s, p, acc).1 <= s.len(),
        !(spec_str_body(s, p, acc).0 is EOF),
    decreases s.len() - p,
{
    if p < s.len() {
        if s[p] == '\r' {
            lemma_str_body_bounds(s, p + 1, acc);
        } else if s[p] == '\\' {
            if p + 1 < s.len() {
                match spec_escape(s[p + 1]) {
                    Ok(e) => lemma_str_body_bounds(s, p + 2, acc.push(e)),
                    Err(_) => {},
                }
            }
        } else if s[p] != '"' {
            lemma_str_body_bounds(s, p + 1, acc.push(s[p]));
        }
    }
}

/// Bounds of a comment scan.
proof fn lemma_comment_bounds(s: Seq<char>, d: int)
    requires
        0 <= d <= s.len(),
    ensures
        d <= spec_comment(s, d).1 <= s.len(),
        !(spec_comment(s, d).0 is EOF),
{
    if d < s.len() && s[d] == '>' {
        lemma_mlc_bounds(s, d + 1, 0);
    } else if d < s.len() {
        lemma_run_range(s, d, not_newline_p());
    }
}

/// The scanner makes progress: a step never leaves the input, and every
/// token but the end-of-input one consumes at least one character.
pub proof fn lemma_next_progress(s: Seq<char>, i: int)
    requires
        0 <= i <= s.len(),
    ensures
        i <= spec_next(s, i).1 <= s.len(),
        !(spec_next(s, i).0 is EOF) ==> i < spec_next(s, i).1,
        spec_next(s, i).0 is EOF ==> spec_next(s, i).1 == s.len(),
{
    lemma_run_range(s, i, skippable_space_p());
    let j = run_end(s, i, skippable_space_p());
    if j < s.len() {
        let c = s[j];
        if char_alphabetic(c) || c == '_' {
            assert(ident_char_p()(s[j]));
            lemma_run_range(s, j + 1, ident_char_p());
        } else if dec_digit(c) {
            lemma_numeric_bounds(s, j);
        } else if c == '\n' {
            lemma_run_range(s, j + 1, tab_p());
        } else if c == '\t' || single_symbol(c) || c == '+' || c == '*' || c == '/' || c == '%'
            || c == '-' || c == '<' {
        } else if c == '>' {
            if j + 1 < s.len() && s[j + 1] == '>' {
                lemma_comment_bounds(s, j + 2);
            }
        } else if c == '\'' {
        } else if c == '"' {
            lemma_str_body_bounds(s, j + 1, Seq::empty());
        }
    }
}

/// The whole token sequence of `s` from position `i` on: what pulling
/// tokens until the end of the input yields. It is a function of the input
/// alone, so re-scanning the same text replays the same sequence.
pub open spec fn spec_tokens(s: Seq<char>, i: int) -> Seq<TokenV>
    decreases s.len() - i when 0 <= i <= s.len() via spec_tokens_decreases
{
    if 0 <= i <= s.len() {
        let step = spec_next(s, i);
        if step.0 is EOF {
            Seq::empty()
        } else {
            seq![step.0] + spec_tokens(s, step.1)
        }
    } else {
        Seq::empty()
    }
}

#[via_fn]
proof fn spec_tokens_decreases(s: Seq<char>, i: int) {
    lemma_next_progress(s, i);
}


/// One step of the token sequence: the next token the scanner hands out
/// is the head of `spec_tokens`, and the sequence after it continues from
/// the position the token ends at.
pub proof fn lemma_tokens_step(s: Seq<char>, i: int)
    requires
        0 <= i <= s.len(),
    ensures
        spec_next(s, i).0 is EOF ==> spec_tokens(s, i) == Seq::<TokenV>::empty(),
        !(spec_next(s, i).0 is EOF) ==> spec_tokens(s, i) == seq![spec_next(s, i).0]
            + spec_tokens(s, spec_next(s, i).1),
{
    lemma_next_progress(s, i);
}

/// Scanning a digit run followed by a bare decimal point is a diagnostic:
/// a float requires at least one fractional digit.
pub proof fn lemma_float_needs_fraction(s: Seq<char>, n: int)
    requires
        0 < n < s.len(),
        forall|i: int| 0 <= i < n ==> dec_digit(#[trigger] s[i]),
        s[0] != '0',
        s[n] == '.',
        n + 1 == s.len() || !dec_or_und(s[n + 1]),
    ensures
        spec_next(s, 0) == (TokenV::Error("No numbers found after the decimal point."@), n + 1),
{
    assert(!skippable_space_p()(s[0]));
    assert(run_end(s, 0, skippable_space_p()) == 0);
    assert(!char_alphabetic(s[0]));
    assert forall|j: int| 0 <= j < n implies dec_or_und_p()(s[j]) by {
        assert(dec_digit(s[j]));
    }
    assert(!dec_or_und_p()(s[n]));
    lemma_run_end_at(s, 0, dec_or_und_p(), n);
    if n + 1 < s.len() {
        assert(!dec_or_und_p()(s[n + 1]));
    }
}


/// Once the scan reports the end of the input it does so permanently: the
/// position it stops at reports the end again.
pub proof fn lemma_end_is_permanent(s: Seq<char>, i: int)
    requires
        0 <= i <= s.len(),
        spec_next(s, i).0 is EOF,
    ensures
        spec_next(s, spec_next(s, i).1).0 is EOF,
        spec_next(s, spec_next(s, i).1).1 == spec_next(s, i).1,
{
    lemma_next_progress(s, i);
}

/// Scanning is deterministic: two scanners over the same text at the same
/// position agree on the next token — its payload and any diagnostic text
/// included — and on the position after it. Re-scanning identical input
/// therefore replays the identical token sequence.
pub proof fn lemma_relex_deterministic(a: Lexer, b: Lexer)
    requires
        a.src() == b.src(),
        a.cursor() == b.cursor(),
    ensures
        spec_next(a.src(), a.cursor()) == spec_next(b.src(), b.cursor()),
        spec_tokens(a.src(), a.cursor()) == spec_tokens(b.src(), b.cursor()),
{
}

/// A scanner is one source of tokens.
pub trait Tokenizer {
}

impl Tokenizer for Lexer {
}



} // verus!
