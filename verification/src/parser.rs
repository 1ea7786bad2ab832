//! The recursive-descent parser: from source text to a syntax tree.
//!
//! The grammar is written twice, in the same shape: once as specification
//! functions over a byte sequence (`spec_factor` … `spec_stmts`, composed
//! into `parse_spec`), and once as executable functions proved to return
//! exactly what the specification functions say.  `parse`'s contract then
//! fixes the returned tree, or the error, as a function of the source text
//! alone.
//!
//! Lexical rules: identifiers are an ASCII letter followed by letters and
//! digits; integer literals are one or more decimal digits, and a literal
//! beyond the 64-bit range is a parse error; string literals are
//! double-quoted with no escape processing and no embedded quote; line
//! comments run from `//` to the end of the line; whitespace and comments
//! may stand between any two tokens.
//!
//! Binary operators are right-associative: each precedence level parses
//! its left operand at the next-higher level and then recurses into itself
//! on the right operand.  Levels, lowest to highest: comparison, additive,
//! logical (`&&`, `||`, `^`, unary `!`), multiplicative, factor.  Unary
//! `!x` is read as `x <= 0` and a leading `-` as `0 - x`, which give
//! exactly the documented operator semantics.
//!
//! Two budgets keep parsing total and the machine stack safe, exactly as
//! the evaluator's budgets do: `depth` falls by one for every level of
//! nesting, so source nested more deeply than the budget is reported as a
//! parse error instead of exhausting the stack, and `fuel` falls by one
//! per statement, which no input can exhaust under the default since every
//! statement consumes at least one byte.
//!
//! The parser consumes the entire input: trailing text that is not
//! whitespace or a comment is a `TrailingInput` error, never a silent
//! success.  There is no error recovery; the first failure aborts the
//! whole parse.

use vstd::prelude::*;
use vstd::string::StringSliceAdditionalSpecFns;
use crate::ast::{Block, Node, OpTag};
use crate::syntax::{lemma_seq_deep_push, seq_deep, BlockS, NodeS};

verus! {

/// What the parser was looking for when it failed.
#[derive(Clone, Copy, PartialEq, Eq, Structural, Debug)]
pub enum Expected {
    /// Any expression: a parenthesized expression, a number or a name.
    Expression,
    /// An identifier that is not a keyword.
    Identifier,
    /// A decimal integer literal.
    Number,
    /// A decimal integer literal within the signed 64-bit range.
    NumberInRange,
    /// An opening parenthesis.
    OpenParen,
    /// A closing parenthesis.
    CloseParen,
    /// An opening brace.
    OpenBrace,
    /// A closing brace.
    CloseBrace,
    /// The `=` of a binding, assignment or loop update.
    EqualsSign,
    /// The `;` between the headers of a `for` statement.
    Semicolon,
    /// Nesting within the parser's budget: the construct ended too deep.
    ShallowerNesting,
}

/// A parse error.  One error aborts parsing of the whole input.
#[derive(Clone, Copy, PartialEq, Eq, Structural, Debug)]
pub enum ParseError {
    /// A rule failed to match at the given byte offset.
    UnexpectedToken { offset: usize, expected: Expected },
    /// The input ended in the middle of a construct.
    UnexpectedEndOfInput,
    /// The grammar matched a prefix, but text that is not whitespace or a
    /// comment follows at the given byte offset.
    TrailingInput { offset: usize },
}

/// A parse error in specification form, with offsets as mathematical
/// integers.
pub enum ParseErrorSpec {
    /// A rule failed to match at the given byte offset.
    UnexpectedToken { offset: int, expected: Expected },
    /// The input ended in the middle of a construct.
    UnexpectedEndOfInput,
    /// Text that is not whitespace or a comment follows the program.
    TrailingInput { offset: int },
}

impl View for ParseError {
    type V = ParseErrorSpec;

    open spec fn view(&self) -> ParseErrorSpec {
        match self {
            ParseError::UnexpectedToken { offset, expected } => ParseErrorSpec::UnexpectedToken {
                offset: *offset as int,
                expected: *expected,
            },
            ParseError::UnexpectedEndOfInput => ParseErrorSpec::UnexpectedEndOfInput,
            ParseError::TrailingInput { offset } => ParseErrorSpec::TrailingInput {
                offset: *offset as int,
            },
        }
    }
}

/// The nesting budget `parse` runs with: how deeply nested source may be
/// before the parser reports an error instead of exhausting the machine
/// stack.
pub const DEFAULT_PARSE_DEPTH: u64 = 2048;

/// Byte values of the characters the grammar reads.
pub const B_TAB: u8 = 9;

pub const B_LF: u8 = 10;

pub const B_CR: u8 = 13;

pub const B_SPACE: u8 = 32;

pub const B_BANG: u8 = 33;

pub const B_QUOTE: u8 = 34;

pub const B_PERCENT: u8 = 37;

pub const B_AMP: u8 = 38;

pub const B_LPAREN: u8 = 40;

pub const B_RPAREN: u8 = 41;

pub const B_STAR: u8 = 42;

pub const B_PLUS: u8 = 43;

pub const B_MINUS: u8 = 45;

pub const B_SLASH: u8 = 47;

pub const B_SEMI: u8 = 59;

pub const B_LT: u8 = 60;

pub const B_EQ: u8 = 61;

pub const B_GT: u8 = 62;

pub const B_CARET: u8 = 94;

pub const B_LBRACE: u8 = 123;

pub const B_PIPE: u8 = 124;

pub const B_RBRACE: u8 = 125;

/// Whether a byte is whitespace: space, tab, newline, carriage return.
pub open spec fn ws_b(c: u8) -> bool {
    c == B_SPACE || c == B_TAB || c == B_LF || c == B_CR
}

/// Whether a byte is an ASCII decimal digit.
pub open spec fn digit_b(c: u8) -> bool {
    48 <= c <= 57
}

/// Whether a byte is an ASCII letter.
pub open spec fn alpha_b(c: u8) -> bool {
    97 <= c <= 122 || 65 <= c <= 90
}

/// Whether a byte is an ASCII letter or digit.
pub open spec fn alnum_b(c: u8) -> bool {
    alpha_b(c) || digit_b(c)
}

/// Whether a byte is an ASCII letter or digit, the characters that may
/// continue an identifier.
fn is_alnum_b(c: u8) -> (r: bool)
    ensures
        r == alnum_b(c),
{
    (c >= 97 && c <= 122) || (c >= 65 && c <= 90) || (c >= 48 && c <= 57)
}

/// Whether a byte is an ASCII letter, the characters that may start an
/// identifier.
fn is_alpha_b(c: u8) -> (r: bool)
    ensures
        r == alpha_b(c),
{
    (c >= 97 && c <= 122) || (c >= 65 && c <= 90)
}

/// Whether whitespace or a line comment starts at `p`.
pub open spec fn is_trivia_start(s: Seq<u8>, p: int) -> bool {
    0 <= p < s.len() && (ws_b(s[p]) || (s[p] == B_SLASH && p + 1 < s.len() && s[p + 1]
        == B_SLASH))
}

/// Where skipping whitespace and comments from `pos` ends.
pub open spec fn spec_skip(s: Seq<u8>, pos: int) -> int
    decreases s.len() - pos, 1int,
{
    if !(0 <= pos < s.len()) {
        pos
    } else if ws_b(s[pos]) {
        spec_skip(s, pos + 1)
    } else if s[pos] == B_SLASH && pos + 1 < s.len() && s[pos + 1] == B_SLASH {
        spec_comment(s, pos + 2)
    } else {
        pos
    }
}

/// Where skipping the rest of a line comment, and whatever trivia follows
/// it, ends.
pub open spec fn spec_comment(s: Seq<u8>, pos: int) -> int
    decreases s.len() - pos, 0int,
{
    if !(0 <= pos < s.len()) {
        pos
    } else if s[pos] == B_LF {
        spec_skip(s, pos + 1)
    } else {
        spec_comment(s, pos + 1)
    }
}

/// Skipping never moves backwards and never leaves the input.
pub proof fn lemma_spec_skip_bounds(s: Seq<u8>, pos: int)
    requires
        0 <= pos <= s.len(),
    ensures
        pos <= spec_skip(s, pos) <= s.len(),
    decreases s.len() - pos, 1int,
{
    if pos < s.len() {
        if ws_b(s[pos]) {
            lemma_spec_skip_bounds(s, pos + 1);
        } else if s[pos] == B_SLASH && pos + 1 < s.len() && s[pos + 1] == B_SLASH {
            lemma_spec_comment_bounds(s, pos + 2);
        }
    }
}

/// Comment skipping never moves backwards and never leaves the input.
pub proof fn lemma_spec_comment_bounds(s: Seq<u8>, pos: int)
    requires
        0 <= pos <= s.len(),
    ensures
        pos <= spec_comment(s, pos) <= s.len(),
    decreases s.len() - pos, 0int,
{
    if pos < s.len() {
        if s[pos] == B_LF {
            lemma_spec_skip_bounds(s, pos + 1);
        } else {
            lemma_spec_comment_bounds(s, pos + 1);
        }
    }
}

/// Advances past whitespace (space, tab, carriage return, newline) and
/// line comments.
fn skip_trivia(s: &[u8], pos: usize) -> (p: usize)
    requires
        pos <= s@.len(),
    ensures
        pos <= p <= s@.len(),
        !is_trivia_start(s@, p as int),
        p as int == spec_skip(s@, pos as int),
{
    let mut p = pos;
    loop
        invariant
            pos <= p <= s@.len(),
            spec_skip(s@, pos as int) == spec_skip(s@, p as int),
        decreases s@.len() - p,
    {
        if p >= s.len() {
            return p;
        }
        let c = s[p];
        if c == B_SPACE || c == B_TAB || c == B_LF || c == B_CR {
            p = p + 1;
        } else if c == B_SLASH && p + 1 < s.len() && s[p + 1] == B_SLASH {
            let mut q = p + 2;
            while q < s.len() && s[q] != B_LF
                invariant
                    p + 2 <= q <= s@.len(),
                    spec_skip(s@, pos as int) == spec_comment(s@, q as int),
                decreases s@.len() - q,
            {
                q = q + 1;
            }
            p = q;
        } else {
            return p;
        }
    }
}

/// Whether the two given bytes stand at `p`, ending the word there.
pub open spec fn spec_kw2(s: Seq<u8>, p: int, c0: u8, c1: u8) -> bool {
    0 <= p < s.len() && p + 1 < s.len() && s[p] == c0 && s[p + 1] == c1 && (p + 2 == s.len()
        || !alnum_b(s[p + 2]))
}

/// Whether the three given bytes stand at `p`, ending the word there.
pub open spec fn spec_kw3(s: Seq<u8>, p: int, c0: u8, c1: u8, c2: u8) -> bool {
    0 <= p < s.len() && p + 1 < s.len() && p + 2 < s.len() && s[p] == c0 && s[p + 1] == c1
        && s[p + 2] == c2 && (p + 3 == s.len() || !alnum_b(s[p + 3]))
}

/// Whether the four given bytes stand at `p`, ending the word there.
pub open spec fn spec_kw4(s: Seq<u8>, p: int, c0: u8, c1: u8, c2: u8, c3: u8) -> bool {
    0 <= p < s.len() && p + 1 < s.len() && p + 2 < s.len() && p + 3 < s.len() && s[p] == c0
        && s[p + 1] == c1 && s[p + 2] == c2 && s[p + 3] == c3 && (p + 4 == s.len() || !alnum_b(
        s[p + 4],
    ))
}

/// Whether the five given bytes stand at `p`, ending the word there.
pub open spec fn spec_kw5(s: Seq<u8>, p: int, c0: u8, c1: u8, c2: u8, c3: u8, c4: u8) -> bool {
    0 <= p < s.len() && p + 1 < s.len() && p + 2 < s.len() && p + 3 < s.len() && p + 4
        < s.len() && s[p] == c0 && s[p + 1] == c1 && s[p + 2] == c2 && s[p + 3] == c3 && s[p + 4]
        == c4 && (p + 5 == s.len() || !alnum_b(s[p + 5]))
}

/// Whether the keyword `let` stands at `p`, ending the word there.
pub open spec fn spec_kw_let(s: Seq<u8>, p: int) -> bool {
    spec_kw3(s, p, 108, 101, 116)
}

/// Whether the keyword `const` stands at `p`, ending the word there.
pub open spec fn spec_kw_const(s: Seq<u8>, p: int) -> bool {
    spec_kw5(s, p, 99, 111, 110, 115, 116)
}

/// Whether the keyword `print` stands at `p`, ending the word there.
pub open spec fn spec_kw_print(s: Seq<u8>, p: int) -> bool {
    spec_kw5(s, p, 112, 114, 105, 110, 116)
}

/// Whether the keyword `if` stands at `p`, ending the word there.
pub open spec fn spec_kw_if(s: Seq<u8>, p: int) -> bool {
    spec_kw2(s, p, 105, 102)
}

/// Whether the keyword `else` stands at `p`, ending the word there.
pub open spec fn spec_kw_else(s: Seq<u8>, p: int) -> bool {
    spec_kw4(s, p, 101, 108, 115, 101)
}

/// Whether the keyword `while` stands at `p`, ending the word there.
pub open spec fn spec_kw_while(s: Seq<u8>, p: int) -> bool {
    spec_kw5(s, p, 119, 104, 105, 108, 101)
}

/// Whether the keyword `for` stands at `p`, ending the word there.
pub open spec fn spec_kw_for(s: Seq<u8>, p: int) -> bool {
    spec_kw3(s, p, 102, 111, 114)
}

/// Whether the keyword `let` stands at `p`.
fn kw_let(s: &[u8], p: usize) -> (r: bool)
    requires
        p <= s@.len(),
    ensures
        r == spec_kw_let(s@, p as int),
        r ==> p + 3 <= s@.len(),
{
    p < s.len() && p + 1 < s.len() && p + 2 < s.len() && s[p] == 108 && s[p + 1] == 101 && s[p
        + 2] == 116 && (p + 3 == s.len() || !is_alnum_b(s[p + 3]))
}

/// Whether the keyword `const` stands at `p`.
fn kw_const(s: &[u8], p: usize) -> (r: bool)
    requires
        p <= s@.len(),
    ensures
        r == spec_kw_const(s@, p as int),
        r ==> p + 5 <= s@.len(),
{
    p < s.len() && p + 1 < s.len() && p + 2 < s.len() && p + 3 < s.len() && p + 4 < s.len()
        && s[p] == 99 && s[p + 1] == 111 && s[p + 2] == 110 && s[p + 3] == 115 && s[p + 4] == 116
        && (p + 5 == s.len() || !is_alnum_b(s[p + 5]))
}

/// Whether the keyword `print` stands at `p`.
fn kw_print(s: &[u8], p: usize) -> (r: bool)
    requires
        p <= s@.len(),
    ensures
        r == spec_kw_print(s@, p as int),
        r ==> p + 5 <= s@.len(),
{
    p < s.len() && p + 1 < s.len() && p + 2 < s.len() && p + 3 < s.len() && p + 4 < s.len()
        && s[p] == 112 && s[p + 1] == 114 && s[p + 2] == 105 && s[p + 3] == 110 && s[p + 4]
        == 116 && (p + 5 == s.len() || !is_alnum_b(s[p + 5]))
}

/// Whether the keyword `if` stands at `p`.
fn kw_if(s: &[u8], p: usize) -> (r: bool)
    requires
        p <= s@.len(),
    ensures
        r == spec_kw_if(s@, p as int),
        r ==> p + 2 <= s@.len(),
{
    p < s.len() && p + 1 < s.len() && s[p] == 105 && s[p + 1] == 102 && (p + 2 == s.len()
        || !is_alnum_b(s[p + 2]))
}

/// Whether the keyword `else` stands at `p`.
fn kw_else(s: &[u8], p: usize) -> (r: bool)
    requires
        p <= s@.len(),
    ensures
        r == spec_kw_else(s@, p as int),
        r ==> p + 4 <= s@.len(),
{
    p < s.len() && p + 1 < s.len() && p + 2 < s.len() && p + 3 < s.len() && s[p] == 101 && s[p
        + 1] == 108 && s[p + 2] == 115 && s[p + 3] == 101 && (p + 4 == s.len() || !is_alnum_b(
        s[p + 4],
    ))
}

/// Whether the keyword `while` stands at `p`.
fn kw_while(s: &[u8], p: usize) -> (r: bool)
    requires
        p <= s@.len(),
    ensures
        r == spec_kw_while(s@, p as int),
        r ==> p + 5 <= s@.len(),
{
    p < s.len() && p + 1 < s.len() && p + 2 < s.len() && p + 3 < s.len() && p + 4 < s.len()
        && s[p] == 119 && s[p + 1] == 104 && s[p + 2] == 105 && s[p + 3] == 108 && s[p + 4]
        == 101 && (p + 5 == s.len() || !is_alnum_b(s[p + 5]))
}

/// Whether the keyword `for` stands at `p`.
fn kw_for(s: &[u8], p: usize) -> (r: bool)
    requires
        p <= s@.len(),
    ensures
        r == spec_kw_for(s@, p as int),
        r ==> p + 3 <= s@.len(),
{
    p < s.len() && p + 1 < s.len() && p + 2 < s.len() && s[p] == 102 && s[p + 1] == 111 && s[p
        + 2] == 114 && (p + 3 == s.len() || !is_alnum_b(s[p + 3]))
}

/// Whether the word spanning `i..e` is one of the reserved keywords:
/// `let`, `const`, `print`, `if`, `else`, `while`, `for`.
pub open spec fn spec_is_keyword(s: Seq<u8>, i: int, e: int) -> bool {
    let n = e - i;
    if n == 2 {
        s[i] == 105 && s[i + 1] == 102
    } else if n == 3 {
        (s[i] == 108 && s[i + 1] == 101 && s[i + 2] == 116) || (s[i] == 102 && s[i + 1] == 111
            && s[i + 2] == 114)
    } else if n == 4 {
        s[i] == 101 && s[i + 1] == 108 && s[i + 2] == 115 && s[i + 3] == 101
    } else if n == 5 {
        (s[i] == 99 && s[i + 1] == 111 && s[i + 2] == 110 && s[i + 3] == 115 && s[i + 4] == 116)
            || (s[i] == 112 && s[i + 1] == 114 && s[i + 2] == 105 && s[i + 3] == 110 && s[i + 4]
            == 116) || (s[i] == 119 && s[i + 1] == 104 && s[i + 2] == 105 && s[i + 3] == 108
            && s[i + 4] == 101)
    } else {
        false
    }
}

/// Whether the word spanning `i..e` is a reserved keyword.
fn is_keyword(s: &[u8], i: usize, e: usize) -> (r: bool)
    requires
        i <= e <= s@.len(),
    ensures
        r == spec_is_keyword(s@, i as int, e as int),
{
    let n = e - i;
    if n == 2 {
        s[i] == 105 && s[i + 1] == 102
    } else if n == 3 {
        (s[i] == 108 && s[i + 1] == 101 && s[i + 2] == 116) || (s[i] == 102 && s[i + 1] == 111
            && s[i + 2] == 114)
    } else if n == 4 {
        s[i] == 101 && s[i + 1] == 108 && s[i + 2] == 115 && s[i + 3] == 101
    } else if n == 5 {
        (s[i] == 99 && s[i + 1] == 111 && s[i + 2] == 110 && s[i + 3] == 115 && s[i + 4] == 116)
            || (s[i] == 112 && s[i + 1] == 114 && s[i + 2] == 105 && s[i + 3] == 110 && s[i + 4]
            == 116) || (s[i] == 119 && s[i + 1] == 104 && s[i + 2] == 105 && s[i + 3] == 108
            && s[i + 4] == 101)
    } else {
        false
    }
}

/// What requiring one given byte at `pos` yields.
pub open spec fn spec_expect(s: Seq<u8>, pos: int, c: u8, exp: Expected) -> Result<
    int,
    ParseErrorSpec,
> {
    if !(0 <= pos < s.len()) {
        Err(ParseErrorSpec::UnexpectedEndOfInput)
    } else if s[pos] != c {
        Err(ParseErrorSpec::UnexpectedToken { offset: pos, expected: exp })
    } else {
        Ok(pos + 1)
    }
}

/// Requires one given byte at `pos` and steps over it.
fn expect_byte(s: &[u8], pos: usize, c: u8, exp: Expected) -> (r: Result<usize, ParseError>)
    requires
        pos <= s@.len(),
    ensures
        r matches Ok(p) ==> pos < p <= s@.len(),
        r matches Err(e) ==> !(e is TrailingInput),
        ({
            let sp = spec_expect(s@, pos as int, c, exp);
            match r {
                Ok(p) => sp == Ok::<int, ParseErrorSpec>(p as int),
                Err(e) => sp == Err::<int, ParseErrorSpec>(e@),
            }
        }),
{
    if pos >= s.len() {
        Err(ParseError::UnexpectedEndOfInput)
    } else if s[pos] != c {
        Err(ParseError::UnexpectedToken { offset: pos, expected: exp })
    } else {
        Ok(pos + 1)
    }
}

/// Where the run of identifier characters starting at `pos` ends.
pub open spec fn spec_word_end(s: Seq<u8>, pos: int) -> int
    decreases s.len() - pos,
{
    if 0 <= pos < s.len() && alnum_b(s[pos]) {
        spec_word_end(s, pos + 1)
    } else {
        pos
    }
}

/// What reading an identifier at `pos` yields: a letter followed by
/// letters and digits, not a keyword.
pub open spec fn spec_ident(s: Seq<u8>, pos: int) -> Result<(Seq<u8>, int), ParseErrorSpec> {
    if !(0 <= pos < s.len()) {
        Err(ParseErrorSpec::UnexpectedEndOfInput)
    } else if !alpha_b(s[pos]) {
        Err(ParseErrorSpec::UnexpectedToken { offset: pos, expected: Expected::Identifier })
    } else {
        let e = spec_word_end(s, pos + 1);
        if spec_is_keyword(s, pos, e) {
            Err(ParseErrorSpec::UnexpectedToken { offset: pos, expected: Expected::Identifier })
        } else {
            Ok((s.subrange(pos, e), e))
        }
    }
}

/// Reads an identifier.
fn parse_ident(s: &[u8], pos: usize) -> (r: Result<(Vec<u8>, usize), ParseError>)
    requires
        pos <= s@.len(),
    ensures
        r matches Ok(t) ==> pos < t.1 <= s@.len(),
        r matches Err(e) ==> !(e is TrailingInput),
        ({
            let sp = spec_ident(s@, pos as int);
            match r {
                Ok(t) => sp == Ok::<(Seq<u8>, int), ParseErrorSpec>((t.0@, t.1 as int)),
                Err(e) => sp == Err::<(Seq<u8>, int), ParseErrorSpec>(e@),
            }
        }),
{
    if pos >= s.len() {
        return Err(ParseError::UnexpectedEndOfInput);
    }
    if !is_alpha_b(s[pos]) {
        return Err(ParseError::UnexpectedToken { offset: pos, expected: Expected::Identifier });
    }
    let mut e = pos + 1;
    while e < s.len() && is_alnum_b(s[e])
        invariant
            pos < e <= s@.len(),
            spec_word_end(s@, pos as int + 1) == spec_word_end(s@, e as int),
        decreases s@.len() - e,
    {
        e = e + 1;
    }
    if is_keyword(s, pos, e) {
        return Err(ParseError::UnexpectedToken { offset: pos, expected: Expected::Identifier });
    }
    Ok((vstd::slice::slice_to_vec(vstd::slice::slice_subrange(s, pos, e)), e))
}

/// Where the run of digits starting at `pos` ends.
pub open spec fn spec_digits_end(s: Seq<u8>, pos: int) -> int
    decreases s.len() - pos,
{
    if 0 <= pos < s.len() && digit_b(s[pos]) {
        spec_digits_end(s, pos + 1)
    } else {
        pos
    }
}

/// The decimal value of the digits spanning `i..e`.
pub open spec fn spec_digits_value(s: Seq<u8>, i: int, e: int) -> int
    decreases e - i,
{
    if e <= i {
        0
    } else {
        spec_digits_value(s, i, e - 1) * 10 + (s[e - 1] - 48)
    }
}

/// What reading a decimal integer literal at `pos` yields.  A run of
/// digits whose value exceeds the signed 64-bit range is an explicit
/// parse error, not a wraparound.
pub open spec fn spec_number(s: Seq<u8>, pos: int) -> Result<(i64, int), ParseErrorSpec> {
    if !(0 <= pos < s.len()) {
        Err(ParseErrorSpec::UnexpectedEndOfInput)
    } else if !digit_b(s[pos]) {
        Err(ParseErrorSpec::UnexpectedToken { offset: pos, expected: Expected::Number })
    } else {
        let e = spec_digits_end(s, pos);
        let v = spec_digits_value(s, pos, e);
        if v > i64::MAX {
            Err(ParseErrorSpec::UnexpectedToken { offset: pos, expected: Expected::NumberInRange })
        } else {
            Ok((v as i64, e))
        }
    }
}

/// Reads a decimal integer literal.
fn parse_number(s: &[u8], pos: usize) -> (r: Result<(i64, usize), ParseError>)
    requires
        pos <= s@.len(),
    ensures
        r matches Ok(t) ==> pos < t.1 <= s@.len(),
        r matches Err(e) ==> !(e is TrailingInput),
        ({
            let sp = spec_number(s@, pos as int);
            match r {
                Ok(t) => sp == Ok::<(i64, int), ParseErrorSpec>((t.0, t.1 as int)),
                Err(e) => sp == Err::<(i64, int), ParseErrorSpec>(e@),
            }
        }),
{
    if pos >= s.len() {
        return Err(ParseError::UnexpectedEndOfInput);
    }
    if !(s[pos] >= 48 && s[pos] <= 57) {
        return Err(ParseError::UnexpectedToken { offset: pos, expected: Expected::Number });
    }
    let mut e = pos;
    let mut val: i64 = 0;
    let mut over = false;
    while e < s.len() && s[e] >= 48 && s[e] <= 57
        invariant
            pos <= e <= s@.len(),
            0 <= val,
            spec_digits_end(s@, pos as int) == spec_digits_end(s@, e as int),
            !over ==> val == spec_digits_value(s@, pos as int, e as int),
            over ==> spec_digits_value(s@, pos as int, e as int) > i64::MAX,
        decreases s@.len() - e,
    {
        let d = (s[e] - 48) as i64;
        let ghost vprev = spec_digits_value(s@, pos as int, e as int);
        if val <= (i64::MAX - d) / 10 {
            proof {
                assert(val * 10 + d <= i64::MAX) by (nonlinear_arith)
                    requires
                        0 <= val,
                        0 <= d <= 9,
                        val <= (i64::MAX - d) / 10,
                {
                }
                if over {
                    assert(vprev * 10 + d > i64::MAX) by (nonlinear_arith)
                        requires
                            vprev > i64::MAX,
                            0 <= d,
                    {
                    }
                }
            }
            val = val * 10 + d;
        } else {
            proof {
                if !over {
                    assert(val * 10 + d > i64::MAX) by (nonlinear_arith)
                        requires
                            0 <= val,
                            0 <= d <= 9,
                            val > (i64::MAX - d) / 10,
                    {
                    }
                } else {
                    assert(vprev * 10 + d > i64::MAX) by (nonlinear_arith)
                        requires
                            vprev > i64::MAX,
                            0 <= d,
                    {
                    }
                }
            }
            over = true;
        }
        e = e + 1;
    }
    if over {
        Err(ParseError::UnexpectedToken { offset: pos, expected: Expected::NumberInRange })
    } else {
        Ok((val, e))
    }
}

/// Where skipping trivia and any number of semicolons from `pos` ends.
pub open spec fn spec_seps(s: Seq<u8>, pos: int) -> int
    decreases s.len() - pos,
    via spec_seps_decreases
{
    if !(0 <= pos <= s.len()) {
        pos
    } else {
        let q = spec_skip(s, pos);
        if 0 <= q < s.len() && s[q] == B_SEMI {
            spec_seps(s, q + 1)
        } else {
            q
        }
    }
}

#[via_fn]
proof fn spec_seps_decreases(s: Seq<u8>, pos: int) {
    if 0 <= pos <= s.len() {
        lemma_spec_skip_bounds(s, pos);
    }
}

/// Steps over trivia and statement separators: any number of semicolons,
/// with trivia around them.
fn skip_separators(s: &[u8], pos: usize) -> (q: usize)
    requires
        pos <= s@.len(),
    ensures
        pos <= q <= s@.len(),
        q as int == spec_seps(s@, pos as int),
        !is_trivia_start(s@, q as int),
{
    let mut q = skip_trivia(s, pos);
    loop
        invariant
            pos <= q <= s@.len(),
            !is_trivia_start(s@, q as int),
            spec_seps(s@, pos as int) == (if 0 <= (q as int) < s@.len() && s@[q as int]
                == B_SEMI {
                spec_seps(s@, q as int + 1)
            } else {
                q as int
            }),
        decreases s@.len() - q,
    {
        if q < s.len() && s[q] == B_SEMI {
            let q2 = skip_trivia(s, q + 1);
            proof {
                assert(spec_skip(s@, q as int + 1) == q2 as int);
            }
            q = q2;
        } else {
            return q;
        }
    }
}

// ---------------------------------------------------------------------
// Expressions.  Each specification function mirrors its executable
// counterpart; `d` falls by one for every level of nesting.
// ---------------------------------------------------------------------

/// What a factor at `pos` yields: a parenthesized expression, a negated
/// factor, an integer literal, or a variable reference.
pub open spec fn spec_factor(s: Seq<u8>, pos: int, d: nat) -> Result<
    (NodeS, int),
    ParseErrorSpec,
>
    decreases d, 1int,
{
    if d == 0 {
        Err(ParseErrorSpec::UnexpectedToken { offset: pos, expected: Expected::ShallowerNesting })
    } else if !(0 <= pos < s.len()) {
        Err(ParseErrorSpec::UnexpectedEndOfInput)
    } else if s[pos] == B_LPAREN {
        let p1 = spec_skip(s, pos + 1);
        match spec_comparison(s, p1, (d - 1) as nat) {
            Err(e) => Err(e),
            Ok((n, p2)) => {
                let p3 = spec_skip(s, p2);
                match spec_expect(s, p3, B_RPAREN, Expected::CloseParen) {
                    Err(e) => Err(e),
                    Ok(p4) => Ok((n, p4)),
                }
            },
        }
    } else if s[pos] == B_MINUS {
        let p1 = spec_skip(s, pos + 1);
        match spec_factor(s, p1, (d - 1) as nat) {
            Err(e) => Err(e),
            Ok((n, p2)) => Ok((
                NodeS::BinaryOp(
                    OpTag::Sub,
                    Box::new(NodeS::NumberLiteral(0)),
                    Box::new(n),
                ),
                p2,
            )),
        }
    } else if digit_b(s[pos]) {
        match spec_number(s, pos) {
            Err(e) => Err(e),
            Ok((v, p1)) => Ok((NodeS::NumberLiteral(v), p1)),
        }
    } else if alpha_b(s[pos]) {
        match spec_ident(s, pos) {
            Err(e) => Err(e),
            Ok((w, p1)) => Ok((NodeS::VariableRef(w), p1)),
        }
    } else {
        Err(ParseErrorSpec::UnexpectedToken { offset: pos, expected: Expected::Expression })
    }
}

/// What the multiplicative level (`*`, `/`, `%`, right-associative)
/// yields.
pub open spec fn spec_mult(s: Seq<u8>, pos: int, d: nat) -> Result<(NodeS, int), ParseErrorSpec>
    decreases d, 2int,
{
    if d == 0 {
        Err(ParseErrorSpec::UnexpectedToken { offset: pos, expected: Expected::ShallowerNesting })
    } else {
        match spec_factor(s, pos, (d - 1) as nat) {
            Err(e) => Err(e),
            Ok((l, p1)) => {
                let q = spec_skip(s, p1);
                if 0 <= q < s.len() && (s[q] == B_STAR || s[q] == B_SLASH || s[q]
                    == B_PERCENT) {
                    let tag = if s[q] == B_STAR {
                        OpTag::Mul
                    } else if s[q] == B_SLASH {
                        OpTag::Div
                    } else {
                        OpTag::Mod
                    };
                    let p2 = spec_skip(s, q + 1);
                    match spec_mult(s, p2, (d - 1) as nat) {
                        Err(e) => Err(e),
                        Ok((r, p3)) => Ok((NodeS::BinaryOp(tag, Box::new(l), Box::new(r)), p3)),
                    }
                } else {
                    Ok((l, p1))
                }
            },
        }
    }
}

/// What unary `!`, read as `operand <= 0`, yields.
pub open spec fn spec_negation(s: Seq<u8>, pos: int, d: nat) -> Result<
    (NodeS, int),
    ParseErrorSpec,
>
    decreases d, 3int,
{
    if d == 0 {
        Err(ParseErrorSpec::UnexpectedToken { offset: pos, expected: Expected::ShallowerNesting })
    } else if 0 <= pos < s.len() && s[pos] == B_BANG && !(pos + 1 < s.len() && s[pos + 1]
        == B_EQ) {
        let p1 = spec_skip(s, pos + 1);
        match spec_negation(s, p1, (d - 1) as nat) {
            Err(e) => Err(e),
            Ok((n, p2)) => Ok((
                NodeS::BinaryOp(OpTag::Le, Box::new(n), Box::new(NodeS::NumberLiteral(0))),
                p2,
            )),
        }
    } else {
        spec_mult(s, pos, (d - 1) as nat)
    }
}

/// What the logical level (`&&`, `||`, `^`, right-associative) yields.
pub open spec fn spec_logical(s: Seq<u8>, pos: int, d: nat) -> Result<
    (NodeS, int),
    ParseErrorSpec,
>
    decreases d, 4int,
{
    if d == 0 {
        Err(ParseErrorSpec::UnexpectedToken { offset: pos, expected: Expected::ShallowerNesting })
    } else {
        match spec_negation(s, pos, (d - 1) as nat) {
            Err(e) => Err(e),
            Ok((l, p1)) => {
                let q = spec_skip(s, p1);
                if 0 <= q < s.len() && q + 1 < s.len() && s[q] == B_AMP && s[q + 1] == B_AMP {
                    let p2 = spec_skip(s, q + 2);
                    match spec_logical(s, p2, (d - 1) as nat) {
                        Err(e) => Err(e),
                        Ok((r, p3)) => Ok((
                            NodeS::BinaryOp(OpTag::And, Box::new(l), Box::new(r)),
                            p3,
                        )),
                    }
                } else if 0 <= q < s.len() && q + 1 < s.len() && s[q] == B_PIPE && s[q + 1]
                    == B_PIPE {
                    let p2 = spec_skip(s, q + 2);
                    match spec_logical(s, p2, (d - 1) as nat) {
                        Err(e) => Err(e),
                        Ok((r, p3)) => Ok((
                            NodeS::BinaryOp(OpTag::Or, Box::new(l), Box::new(r)),
                            p3,
                        )),
                    }
                } else if 0 <= q < s.len() && s[q] == B_CARET {
                    let p2 = spec_skip(s, q + 1);
                    match spec_logical(s, p2, (d - 1) as nat) {
                        Err(e) => Err(e),
                        Ok((r, p3)) => Ok((
                            NodeS::BinaryOp(OpTag::Xor, Box::new(l), Box::new(r)),
                            p3,
                        )),
                    }
                } else {
                    Ok((l, p1))
                }
            },
        }
    }
}

/// What the additive level (`+`, `-`, right-associative) yields.
pub open spec fn spec_additive(s: Seq<u8>, pos: int, d: nat) -> Result<
    (NodeS, int),
    ParseErrorSpec,
>
    decreases d, 5int,
{
    if d == 0 {
        Err(ParseErrorSpec::UnexpectedToken { offset: pos, expected: Expected::ShallowerNesting })
    } else {
        match spec_logical(s, pos, (d - 1) as nat) {
            Err(e) => Err(e),
            Ok((l, p1)) => {
                let q = spec_skip(s, p1);
                if 0 <= q < s.len() && (s[q] == B_PLUS || s[q] == B_MINUS) {
                    let tag = if s[q] == B_PLUS {
                        OpTag::Add
                    } else {
                        OpTag::Sub
                    };
                    let p2 = spec_skip(s, q + 1);
                    match spec_additive(s, p2, (d - 1) as nat) {
                        Err(e) => Err(e),
                        Ok((r, p3)) => Ok((NodeS::BinaryOp(tag, Box::new(l), Box::new(r)), p3)),
                    }
                } else {
                    Ok((l, p1))
                }
            },
        }
    }
}

/// What the comparison level (`==`, `!=`, `<`, `>`, `<=`, `>=`,
/// right-associative), the lowest, yields.
pub open spec fn spec_comparison(s: Seq<u8>, pos: int, d: nat) -> Result<
    (NodeS, int),
    ParseErrorSpec,
>
    decreases d, 6int,
{
    if d == 0 {
        Err(ParseErrorSpec::UnexpectedToken { offset: pos, expected: Expected::ShallowerNesting })
    } else {
        match spec_additive(s, pos, (d - 1) as nat) {
            Err(e) => Err(e),
            Ok((l, p1)) => {
                let q = spec_skip(s, p1);
                if 0 <= q < s.len() && q + 1 < s.len() && (s[q] == B_EQ || s[q] == B_BANG
                    || s[q] == B_LT || s[q] == B_GT) && s[q + 1] == B_EQ {
                    let tag = if s[q] == B_EQ {
                        OpTag::Eq
                    } else if s[q] == B_BANG {
                        OpTag::Ne
                    } else if s[q] == B_LT {
                        OpTag::Le
                    } else {
                        OpTag::Ge
                    };
                    let p2 = spec_skip(s, q + 2);
                    match spec_comparison(s, p2, (d - 1) as nat) {
                        Err(e) => Err(e),
                        Ok((r, p3)) => Ok((NodeS::BinaryOp(tag, Box::new(l), Box::new(r)), p3)),
                    }
                } else if 0 <= q < s.len() && (s[q] == B_LT || s[q] == B_GT) {
                    let tag = if s[q] == B_LT {
                        OpTag::Lt
                    } else {
                        OpTag::Gt
                    };
                    let p2 = spec_skip(s, q + 1);
                    match spec_comparison(s, p2, (d - 1) as nat) {
                        Err(e) => Err(e),
                        Ok((r, p3)) => Ok((NodeS::BinaryOp(tag, Box::new(l), Box::new(r)), p3)),
                    }
                } else {
                    Ok((l, p1))
                }
            },
        }
    }
}

/// What an expression yields: the comparison level downward.
pub open spec fn spec_expression(s: Seq<u8>, pos: int, d: nat) -> Result<
    (NodeS, int),
    ParseErrorSpec,
>
    decreases d, 7int,
{
    if d == 0 {
        Err(ParseErrorSpec::UnexpectedToken { offset: pos, expected: Expected::ShallowerNesting })
    } else {
        spec_comparison(s, pos, (d - 1) as nat)
    }
}

/// Factor: a parenthesized expression, a negated factor, an integer
/// literal, or a variable reference.
fn parse_factor(s: &[u8], pos: usize, depth: u64) -> (r: Result<(Node, usize), ParseError>)
    requires
        pos <= s@.len(),
    ensures
        r matches Ok(t) ==> pos < t.1 <= s@.len(),
        r matches Err(e) ==> !(e is TrailingInput),
        ({
            let sp = spec_factor(s@, pos as int, depth as nat);
            match r {
                Ok(t) => sp == Ok::<(NodeS, int), ParseErrorSpec>((t.0.deep(), t.1 as int)),
                Err(e) => sp == Err::<(NodeS, int), ParseErrorSpec>(e@),
            }
        }),
    decreases depth, 1int,
{
    if depth == 0 {
        return Err(ParseError::UnexpectedToken {
            offset: pos,
            expected: Expected::ShallowerNesting,
        });
    }
    if pos >= s.len() {
        return Err(ParseError::UnexpectedEndOfInput);
    }
    let c = s[pos];
    if c == B_LPAREN {
        let p1 = skip_trivia(s, pos + 1);
        let (e, p2) = parse_comparison(s, p1, depth - 1)?;
        let p3 = skip_trivia(s, p2);
        let p4 = expect_byte(s, p3, B_RPAREN, Expected::CloseParen)?;
        Ok((e, p4))
    } else if c == B_MINUS {
        let p1 = skip_trivia(s, pos + 1);
        let (e, p2) = parse_factor(s, p1, depth - 1)?;
        proof {
            assert((Node::NumberLiteral(0i64)).deep() == NodeS::NumberLiteral(0i64));
        }
        Ok((Node::BinaryOp(OpTag::Sub, Box::new(Node::NumberLiteral(0)), Box::new(e)), p2))
    } else if c >= 48 && c <= 57 {
        let (v, p1) = parse_number(s, pos)?;
        Ok((Node::NumberLiteral(v), p1))
    } else if is_alpha_b(c) {
        let (name, p1) = parse_ident(s, pos)?;
        Ok((Node::VariableRef(name), p1))
    } else {
        Err(ParseError::UnexpectedToken { offset: pos, expected: Expected::Expression })
    }
}

/// Multiplicative level: `*`, `/`, `%`, right-associative.
fn parse_mult(s: &[u8], pos: usize, depth: u64) -> (r: Result<(Node, usize), ParseError>)
    requires
        pos <= s@.len(),
    ensures
        r matches Ok(t) ==> pos < t.1 <= s@.len(),
        r matches Err(e) ==> !(e is TrailingInput),
        ({
            let sp = spec_mult(s@, pos as int, depth as nat);
            match r {
                Ok(t) => sp == Ok::<(NodeS, int), ParseErrorSpec>((t.0.deep(), t.1 as int)),
                Err(e) => sp == Err::<(NodeS, int), ParseErrorSpec>(e@),
            }
        }),
    decreases depth, 2int,
{
    if depth == 0 {
        return Err(ParseError::UnexpectedToken {
            offset: pos,
            expected: Expected::ShallowerNesting,
        });
    }
    let (l, p1) = parse_factor(s, pos, depth - 1)?;
    let q = skip_trivia(s, p1);
    if q < s.len() && (s[q] == B_STAR || s[q] == B_SLASH || s[q] == B_PERCENT) {
        let tag = if s[q] == B_STAR {
            OpTag::Mul
        } else if s[q] == B_SLASH {
            OpTag::Div
        } else {
            OpTag::Mod
        };
        let p2 = skip_trivia(s, q + 1);
        let (rr, p3) = parse_mult(s, p2, depth - 1)?;
        Ok((Node::BinaryOp(tag, Box::new(l), Box::new(rr)), p3))
    } else {
        Ok((l, p1))
    }
}

/// Unary `!`, read as `operand <= 0`, over the multiplicative level.
fn parse_negation(s: &[u8], pos: usize, depth: u64) -> (r: Result<(Node, usize), ParseError>)
    requires
        pos <= s@.len(),
    ensures
        r matches Ok(t) ==> pos < t.1 <= s@.len(),
        r matches Err(e) ==> !(e is TrailingInput),
        ({
            let sp = spec_negation(s@, pos as int, depth as nat);
            match r {
                Ok(t) => sp == Ok::<(NodeS, int), ParseErrorSpec>((t.0.deep(), t.1 as int)),
                Err(e) => sp == Err::<(NodeS, int), ParseErrorSpec>(e@),
            }
        }),
    decreases depth, 3int,
{
    if depth == 0 {
        return Err(ParseError::UnexpectedToken {
            offset: pos,
            expected: Expected::ShallowerNesting,
        });
    }
    if pos < s.len() && s[pos] == B_BANG && !(pos + 1 < s.len() && s[pos + 1] == B_EQ) {
        let p1 = skip_trivia(s, pos + 1);
        let (e, p2) = parse_negation(s, p1, depth - 1)?;
        proof {
            assert((Node::NumberLiteral(0i64)).deep() == NodeS::NumberLiteral(0i64));
        }
        Ok((Node::BinaryOp(OpTag::Le, Box::new(e), Box::new(Node::NumberLiteral(0))), p2))
    } else {
        parse_mult(s, pos, depth - 1)
    }
}

/// Logical level: `&&`, `||`, `^`, right-associative, with unary `!`.
fn parse_logical(s: &[u8], pos: usize, depth: u64) -> (r: Result<(Node, usize), ParseError>)
    requires
        pos <= s@.len(),
    ensures
        r matches Ok(t) ==> pos < t.1 <= s@.len(),
        r matches Err(e) ==> !(e is TrailingInput),
        ({
            let sp = spec_logical(s@, pos as int, depth as nat);
            match r {
                Ok(t) => sp == Ok::<(NodeS, int), ParseErrorSpec>((t.0.deep(), t.1 as int)),
                Err(e) => sp == Err::<(NodeS, int), ParseErrorSpec>(e@),
            }
        }),
    decreases depth, 4int,
{
    if depth == 0 {
        return Err(ParseError::UnexpectedToken {
            offset: pos,
            expected: Expected::ShallowerNesting,
        });
    }
    let (l, p1) = parse_negation(s, pos, depth - 1)?;
    let q = skip_trivia(s, p1);
    if q < s.len() && q + 1 < s.len() && s[q] == B_AMP && s[q + 1] == B_AMP {
        let p2 = skip_trivia(s, q + 2);
        let (rr, p3) = parse_logical(s, p2, depth - 1)?;
        Ok((Node::BinaryOp(OpTag::And, Box::new(l), Box::new(rr)), p3))
    } else if q < s.len() && q + 1 < s.len() && s[q] == B_PIPE && s[q + 1] == B_PIPE {
        let p2 = skip_trivia(s, q + 2);
        let (rr, p3) = parse_logical(s, p2, depth - 1)?;
        Ok((Node::BinaryOp(OpTag::Or, Box::new(l), Box::new(rr)), p3))
    } else if q < s.len() && s[q] == B_CARET {
        let p2 = skip_trivia(s, q + 1);
        let (rr, p3) = parse_logical(s, p2, depth - 1)?;
        Ok((Node::BinaryOp(OpTag::Xor, Box::new(l), Box::new(rr)), p3))
    } else {
        Ok((l, p1))
    }
}

/// Additive level: `+`, `-`, right-associative.
fn parse_additive(s: &[u8], pos: usize, depth: u64) -> (r: Result<(Node, usize), ParseError>)
    requires
        pos <= s@.len(),
    ensures
        r matches Ok(t) ==> pos < t.1 <= s@.len(),
        r matches Err(e) ==> !(e is TrailingInput),
        ({
            let sp = spec_additive(s@, pos as int, depth as nat);
            match r {
                Ok(t) => sp == Ok::<(NodeS, int), ParseErrorSpec>((t.0.deep(), t.1 as int)),
                Err(e) => sp == Err::<(NodeS, int), ParseErrorSpec>(e@),
            }
        }),
    decreases depth, 5int,
{
    if depth == 0 {
        return Err(ParseError::UnexpectedToken {
            offset: pos,
            expected: Expected::ShallowerNesting,
        });
    }
    let (l, p1) = parse_logical(s, pos, depth - 1)?;
    let q = skip_trivia(s, p1);
    if q < s.len() && (s[q] == B_PLUS || s[q] == B_MINUS) {
        let tag = if s[q] == B_PLUS {
            OpTag::Add
        } else {
            OpTag::Sub
        };
        let p2 = skip_trivia(s, q + 1);
        let (rr, p3) = parse_additive(s, p2, depth - 1)?;
        Ok((Node::BinaryOp(tag, Box::new(l), Box::new(rr)), p3))
    } else {
        Ok((l, p1))
    }
}

/// Comparison level, the lowest: `==`, `!=`, `<`, `>`, `<=`, `>=`,
/// right-associative.
fn parse_comparison(s: &[u8], pos: usize, depth: u64) -> (r: Result<(Node, usize), ParseError>)
    requires
        pos <= s@.len(),
    ensures
        r matches Ok(t) ==> pos < t.1 <= s@.len(),
        r matches Err(e) ==> !(e is TrailingInput),
        ({
            let sp = spec_comparison(s@, pos as int, depth as nat);
            match r {
                Ok(t) => sp == Ok::<(NodeS, int), ParseErrorSpec>((t.0.deep(), t.1 as int)),
                Err(e) => sp == Err::<(NodeS, int), ParseErrorSpec>(e@),
            }
        }),
    decreases depth, 6int,
{
    if depth == 0 {
        return Err(ParseError::UnexpectedToken {
            offset: pos,
            expected: Expected::ShallowerNesting,
        });
    }
    let (l, p1) = parse_additive(s, pos, depth - 1)?;
    let q = skip_trivia(s, p1);
    if q < s.len() && q + 1 < s.len() && (s[q] == B_EQ || s[q] == B_BANG || s[q] == B_LT
        || s[q] == B_GT) && s[q + 1] == B_EQ {
        let tag = if s[q] == B_EQ {
            OpTag::Eq
        } else if s[q] == B_BANG {
            OpTag::Ne
        } else if s[q] == B_LT {
            OpTag::Le
        } else {
            OpTag::Ge
        };
        let p2 = skip_trivia(s, q + 2);
        let (rr, p3) = parse_comparison(s, p2, depth - 1)?;
        Ok((Node::BinaryOp(tag, Box::new(l), Box::new(rr)), p3))
    } else if q < s.len() && (s[q] == B_LT || s[q] == B_GT) {
        let tag = if s[q] == B_LT {
            OpTag::Lt
        } else {
            OpTag::Gt
        };
        let p2 = skip_trivia(s, q + 1);
        let (rr, p3) = parse_comparison(s, p2, depth - 1)?;
        Ok((Node::BinaryOp(tag, Box::new(l), Box::new(rr)), p3))
    } else {
        Ok((l, p1))
    }
}

/// An expression: the comparison level downward.
fn parse_expression(s: &[u8], pos: usize, depth: u64) -> (r: Result<(Node, usize), ParseError>)
    requires
        pos <= s@.len(),
    ensures
        r matches Ok(t) ==> pos < t.1 <= s@.len(),
        r matches Err(e) ==> !(e is TrailingInput),
        ({
            let sp = spec_expression(s@, pos as int, depth as nat);
            match r {
                Ok(t) => sp == Ok::<(NodeS, int), ParseErrorSpec>((t.0.deep(), t.1 as int)),
                Err(e) => sp == Err::<(NodeS, int), ParseErrorSpec>(e@),
            }
        }),
    decreases depth, 7int,
{
    if depth == 0 {
        return Err(ParseError::UnexpectedToken {
            offset: pos,
            expected: Expected::ShallowerNesting,
        });
    }
    parse_comparison(s, pos, depth - 1)
}

// ---------------------------------------------------------------------
// Statements.
// ---------------------------------------------------------------------

/// What a `let` or `const` binding after its keyword of length `kw_len`
/// yields.
pub open spec fn spec_bind(s: Seq<u8>, pos: int, kw_len: int, mutable: bool, d: nat) -> Result<
    (NodeS, int),
    ParseErrorSpec,
> {
    if d == 0 {
        Err(ParseErrorSpec::UnexpectedToken { offset: pos, expected: Expected::ShallowerNesting })
    } else {
        let p0 = spec_skip(s, pos + kw_len);
        match spec_ident(s, p0) {
            Err(e) => Err(e),
            Ok((w, p1)) => {
                let p2 = spec_skip(s, p1);
                match spec_expect(s, p2, B_EQ, Expected::EqualsSign) {
                    Err(e) => Err(e),
                    Ok(p3) => {
                        let p4 = spec_skip(s, p3);
                        match spec_expression(s, p4, (d - 1) as nat) {
                            Err(e) => Err(e),
                            Ok((v, p5)) => Ok((NodeS::Bind(w, mutable, Box::new(v)), p5)),
                        }
                    },
                }
            },
        }
    }
}

/// A `let` or `const` binding after its keyword of length `kw_len`.
fn parse_bind(s: &[u8], pos: usize, kw_len: usize, mutable: bool, depth: u64) -> (r: Result<
    (Node, usize),
    ParseError,
>)
    requires
        pos + kw_len <= s.len(),
    ensures
        r matches Ok(t) ==> pos < t.1 <= s@.len(),
        r matches Err(e) ==> !(e is TrailingInput),
        ({
            let sp = spec_bind(s@, pos as int, kw_len as int, mutable, depth as nat);
            match r {
                Ok(t) => sp == Ok::<(NodeS, int), ParseErrorSpec>((t.0.deep(), t.1 as int)),
                Err(e) => sp == Err::<(NodeS, int), ParseErrorSpec>(e@),
            }
        }),
{
    if depth == 0 {
        return Err(ParseError::UnexpectedToken {
            offset: pos,
            expected: Expected::ShallowerNesting,
        });
    }
    let p0 = skip_trivia(s, pos + kw_len);
    let (name, p1) = parse_ident(s, p0)?;
    let p2 = skip_trivia(s, p1);
    let p3 = expect_byte(s, p2, B_EQ, Expected::EqualsSign)?;
    let p4 = skip_trivia(s, p3);
    let (v, p5) = parse_expression(s, p4, depth - 1)?;
    Ok((Node::Bind(name, mutable, Box::new(v)), p5))
}

/// Where the text of a string literal opened before `pos` ends: the next
/// double quote.
pub open spec fn spec_quote_end(s: Seq<u8>, pos: int) -> int
    decreases s.len() - pos,
{
    if 0 <= pos < s.len() && s[pos] != B_QUOTE {
        spec_quote_end(s, pos + 1)
    } else {
        pos
    }
}

/// What a `print` statement after its keyword yields: either a
/// double-quoted literal or an expression.
pub open spec fn spec_print(s: Seq<u8>, pos: int, d: nat) -> Result<(NodeS, int), ParseErrorSpec> {
    if d == 0 {
        Err(ParseErrorSpec::UnexpectedToken { offset: pos, expected: Expected::ShallowerNesting })
    } else {
        let p0 = spec_skip(s, pos + 5);
        if 0 <= p0 < s.len() && s[p0] == B_QUOTE {
            let e = spec_quote_end(s, p0 + 1);
            if !(0 <= e < s.len()) {
                Err(ParseErrorSpec::UnexpectedEndOfInput)
            } else {
                Ok((NodeS::PrintLiteral(s.subrange(p0 + 1, e)), e + 1))
            }
        } else {
            match spec_expression(s, p0, (d - 1) as nat) {
                Err(e) => Err(e),
                Ok((v, p1)) => Ok((NodeS::Print(Box::new(v)), p1)),
            }
        }
    }
}

/// A `print` statement after its keyword.
fn parse_print(s: &[u8], pos: usize, depth: u64) -> (r: Result<(Node, usize), ParseError>)
    requires
        pos + 5 <= s.len(),
    ensures
        r matches Ok(t) ==> pos < t.1 <= s@.len(),
        r matches Err(e) ==> !(e is TrailingInput),
        ({
            let sp = spec_print(s@, pos as int, depth as nat);
            match r {
                Ok(t) => sp == Ok::<(NodeS, int), ParseErrorSpec>((t.0.deep(), t.1 as int)),
                Err(e) => sp == Err::<(NodeS, int), ParseErrorSpec>(e@),
            }
        }),
{
    if depth == 0 {
        return Err(ParseError::UnexpectedToken {
            offset: pos,
            expected: Expected::ShallowerNesting,
        });
    }
    let p0 = skip_trivia(s, pos + 5);
    if p0 < s.len() && s[p0] == B_QUOTE {
        let mut e = p0 + 1;
        while e < s.len() && s[e] != B_QUOTE
            invariant
                p0 < e <= s@.len(),
                spec_quote_end(s@, p0 as int + 1) == spec_quote_end(s@, e as int),
            decreases s@.len() - e,
        {
            e = e + 1;
        }
        if e >= s.len() {
            return Err(ParseError::UnexpectedEndOfInput);
        }
        let text = vstd::slice::slice_to_vec(vstd::slice::slice_subrange(s, p0 + 1, e));
        Ok((Node::PrintLiteral(text), e + 1))
    } else {
        let (v, p1) = parse_expression(s, p0, depth - 1)?;
        Ok((Node::Print(Box::new(v)), p1))
    }
}

/// What an `if` statement with its `else if` chain yields, desugared into
/// right-nested conditionals.
pub open spec fn spec_if(s: Seq<u8>, pos: int, d: nat, f: nat) -> Result<
    (NodeS, int),
    ParseErrorSpec,
>
    decreases f, d, 1int,
{
    if d == 0 {
        Err(ParseErrorSpec::UnexpectedToken { offset: pos, expected: Expected::ShallowerNesting })
    } else {
        let p0 = spec_skip(s, pos + 2);
        match spec_expect(s, p0, B_LPAREN, Expected::OpenParen) {
            Err(e) => Err(e),
            Ok(p1) => {
                let p2 = spec_skip(s, p1);
                match spec_expression(s, p2, (d - 1) as nat) {
                    Err(e) => Err(e),
                    Ok((cond, p3)) => {
                        let p4 = spec_skip(s, p3);
                        match spec_expect(s, p4, B_RPAREN, Expected::CloseParen) {
                            Err(e) => Err(e),
                            Ok(p5) => {
                                let p6 = spec_skip(s, p5);
                                match spec_block(s, p6, (d - 1) as nat, f) {
                                    Err(e) => Err(e),
                                    Ok((cons, p7)) => {
                                        let q = spec_skip(s, p7);
                                        if spec_kw_else(s, q) {
                                            let r0 = spec_skip(s, q + 4);
                                            if spec_kw_if(s, r0) {
                                                match spec_if(s, r0, (d - 1) as nat, f) {
                                                    Err(e) => Err(e),
                                                    Ok((nested, p8)) => Ok((
                                                        NodeS::If(
                                                            Box::new(cond),
                                                            cons,
                                                            BlockS { stmts: seq![nested] },
                                                        ),
                                                        p8,
                                                    )),
                                                }
                                            } else {
                                                match spec_block(s, r0, (d - 1) as nat, f) {
                                                    Err(e) => Err(e),
                                                    Ok((alt, p8)) => Ok((
                                                        NodeS::If(Box::new(cond), cons, alt),
                                                        p8,
                                                    )),
                                                }
                                            }
                                        } else {
                                            Ok((
                                                NodeS::If(
                                                    Box::new(cond),
                                                    cons,
                                                    BlockS { stmts: Seq::empty() },
                                                ),
                                                p7,
                                            ))
                                        }
                                    },
                                }
                            },
                        }
                    },
                }
            },
        }
    }
}

/// What a `while` statement after its keyword yields.
pub open spec fn spec_while(s: Seq<u8>, pos: int, d: nat, f: nat) -> Result<
    (NodeS, int),
    ParseErrorSpec,
>
    decreases f, d, 1int,
{
    if d == 0 {
        Err(ParseErrorSpec::UnexpectedToken { offset: pos, expected: Expected::ShallowerNesting })
    } else {
        let p0 = spec_skip(s, pos + 5);
        match spec_expect(s, p0, B_LPAREN, Expected::OpenParen) {
            Err(e) => Err(e),
            Ok(p1) => {
                let p2 = spec_skip(s, p1);
                match spec_expression(s, p2, (d - 1) as nat) {
                    Err(e) => Err(e),
                    Ok((cond, p3)) => {
                        let p4 = spec_skip(s, p3);
                        match spec_expect(s, p4, B_RPAREN, Expected::CloseParen) {
                            Err(e) => Err(e),
                            Ok(p5) => {
                                let p6 = spec_skip(s, p5);
                                match spec_block(s, p6, (d - 1) as nat, f) {
                                    Err(e) => Err(e),
                                    Ok((body, p7)) => Ok((
                                        NodeS::While(Box::new(cond), body),
                                        p7,
                                    )),
                                }
                            },
                        }
                    },
                }
            },
        }
    }
}

/// What a `for` statement after its keyword yields:
/// `for ( <bind-or-assign> ; <expr> ; <assign> ) <block>`.  A bare
/// `name = expr` initializer declares a fresh mutable binding.
pub open spec fn spec_for(s: Seq<u8>, pos: int, d: nat, f: nat) -> Result<
    (NodeS, int),
    ParseErrorSpec,
>
    decreases f, d, 1int,
{
    if d == 0 {
        Err(ParseErrorSpec::UnexpectedToken { offset: pos, expected: Expected::ShallowerNesting })
    } else {
        let p0 = spec_skip(s, pos + 3);
        match spec_expect(s, p0, B_LPAREN, Expected::OpenParen) {
            Err(e) => Err(e),
            Ok(p1) => {
                let p2 = spec_skip(s, p1);
                let init_r = if spec_kw_let(s, p2) {
                    spec_bind(s, p2, 3, true, d)
                } else if spec_kw_const(s, p2) {
                    spec_bind(s, p2, 5, false, d)
                } else {
                    match spec_ident(s, p2) {
                        Err(e) => Err(e),
                        Ok((w, q1)) => {
                            let q2 = spec_skip(s, q1);
                            match spec_expect(s, q2, B_EQ, Expected::EqualsSign) {
                                Err(e) => Err(e),
                                Ok(q3) => {
                                    let q4 = spec_skip(s, q3);
                                    match spec_expression(s, q4, (d - 1) as nat) {
                                        Err(e) => Err(e),
                                        Ok((v, q5)) => Ok((
                                            NodeS::Bind(w, true, Box::new(v)),
                                            q5,
                                        )),
                                    }
                                },
                            }
                        },
                    }
                };
                match init_r {
                    Err(e) => Err(e),
                    Ok((init, p3)) => {
                        let p4 = spec_skip(s, p3);
                        match spec_expect(s, p4, B_SEMI, Expected::Semicolon) {
                            Err(e) => Err(e),
                            Ok(p5) => {
                                let p6 = spec_skip(s, p5);
                                match spec_expression(s, p6, (d - 1) as nat) {
                                    Err(e) => Err(e),
                                    Ok((cond, p7)) => {
                                        let p8 = spec_skip(s, p7);
                                        match spec_expect(s, p8, B_SEMI, Expected::Semicolon) {
                                            Err(e) => Err(e),
                                            Ok(p9) => {
                                                let p10 = spec_skip(s, p9);
                                                match spec_ident(s, p10) {
                                                    Err(e) => Err(e),
                                                    Ok((uname, p11)) => {
                                                        let p12 = spec_skip(s, p11);
                                                        match spec_expect(
                                                            s,
                                                            p12,
                                                            B_EQ,
                                                            Expected::EqualsSign,
                                                        ) {
                                                            Err(e) => Err(e),
                                                            Ok(p13) => {
                                                                let p14 = spec_skip(s, p13);
                                                                match spec_expression(
                                                                    s,
                                                                    p14,
                                                                    (d - 1) as nat,
                                                                ) {
                                                                    Err(e) => Err(e),
                                                                    Ok((uval, p15)) => {
                                                                        let p16 = spec_skip(
                                                                            s,
                                                                            p15,
                                                                        );
                                                                        match spec_expect(
                                                                            s,
                                                                            p16,
                                                                            B_RPAREN,
                                                                            Expected::CloseParen,
                                                                        ) {
                                                                            Err(e) => Err(e),
                                                                            Ok(p17) => {
                                                                                let p18 =
                                                                                    spec_skip(
                                                                                    s,
                                                                                    p17,
                                                                                );
                                                                                match spec_block(
                                                                                    s,
                                                                                    p18,
                                                                                    (d - 1) as nat,
                                                                                    f,
                                                                                ) {
                                                                                    Err(e) => Err(
                                                                                        e,
                                                                                    ),
                                                                                    Ok(
                                                                                        (body, p19),
                                                                                    ) => Ok((
                                                                                        NodeS::For(
                                                                                            Box::new(init),
                                                                                            Box::new(cond),
                                                                                            Box::new(NodeS::Assign(uname, Box::new(uval))),
                                                                                            body,
                                                                                        ),
                                                                                        p19,
                                                                                    )),
                                                                                }
                                                                            },
                                                                        }
                                                                    },
                                                                }
                                                            },
                                                        }
                                                    },
                                                }
                                            },
                                        }
                                    },
                                }
                            },
                        }
                    },
                }
            },
        }
    }
}

/// What a braced block yields.
pub open spec fn spec_block(s: Seq<u8>, pos: int, d: nat, f: nat) -> Result<
    (BlockS, int),
    ParseErrorSpec,
>
    decreases f, d, 1int,
{
    if d == 0 {
        Err(ParseErrorSpec::UnexpectedToken { offset: pos, expected: Expected::ShallowerNesting })
    } else {
        match spec_expect(s, pos, B_LBRACE, Expected::OpenBrace) {
            Err(e) => Err(e),
            Ok(p0) => match spec_stmts(s, p0, (d - 1) as nat, f) {
                Err(e) => Err(e),
                Ok((ns, p1)) => match spec_expect(s, p1, B_RBRACE, Expected::CloseBrace) {
                    Err(e) => Err(e),
                    Ok(p2) => Ok((BlockS { stmts: ns }, p2)),
                },
            },
        }
    }
}

/// What one statement yields.
pub open spec fn spec_stmt(s: Seq<u8>, pos: int, d: nat, f: nat) -> Result<
    (NodeS, int),
    ParseErrorSpec,
>
    decreases f, d, 2int,
{
    if d == 0 {
        Err(ParseErrorSpec::UnexpectedToken { offset: pos, expected: Expected::ShallowerNesting })
    } else if spec_kw_let(s, pos) {
        spec_bind(s, pos, 3, true, d)
    } else if spec_kw_const(s, pos) {
        spec_bind(s, pos, 5, false, d)
    } else if spec_kw_print(s, pos) {
        spec_print(s, pos, d)
    } else if spec_kw_if(s, pos) {
        spec_if(s, pos, d, f)
    } else if spec_kw_while(s, pos) {
        spec_while(s, pos, d, f)
    } else if spec_kw_for(s, pos) {
        spec_for(s, pos, d, f)
    } else if 0 <= pos < s.len() && s[pos] == B_LBRACE {
        match spec_block(s, pos, d, f) {
            Err(e) => Err(e),
            Ok((b, p1)) => Ok((NodeS::Block(b), p1)),
        }
    } else if 0 <= pos < s.len() && alpha_b(s[pos]) {
        match spec_ident(s, pos) {
            Ok((w, p1)) => {
                let q = spec_skip(s, p1);
                if 0 <= q < s.len() && s[q] == B_EQ && !(q + 1 < s.len() && s[q + 1] == B_EQ) {
                    let p2 = spec_skip(s, q + 1);
                    match spec_expression(s, p2, (d - 1) as nat) {
                        Err(e) => Err(e),
                        Ok((v, p3)) => Ok((NodeS::Assign(w, Box::new(v)), p3)),
                    }
                } else {
                    spec_expression(s, pos, (d - 1) as nat)
                }
            },
            Err(_) => spec_expression(s, pos, (d - 1) as nat),
        }
    } else {
        spec_expression(s, pos, (d - 1) as nat)
    }
}

/// Whether an error from `spec_stmt` says only that nothing resembling a
/// statement starts at `p`: a failed match for an expression or an
/// identifier exactly there, with nothing consumed.
pub open spec fn spec_no_stmt(e: ParseErrorSpec, p: int) -> bool {
    match e {
        ParseErrorSpec::UnexpectedToken { offset, expected } => offset == p && (expected
            == Expected::Expression || expected == Expected::Identifier),
        ParseErrorSpec::UnexpectedEndOfInput => false,
        ParseErrorSpec::TrailingInput { offset: _ } => false,
    }
}

/// What a statement list yields: zero or more statements, each optionally
/// followed by semicolons, ending in front of a closing brace, at the end
/// of the input, or where no statement starts.
pub open spec fn spec_stmts(s: Seq<u8>, pos: int, d: nat, f: nat) -> Result<
    (Seq<NodeS>, int),
    ParseErrorSpec,
>
    decreases f, d, 3int,
{
    if f == 0 {
        Err(ParseErrorSpec::UnexpectedToken { offset: pos, expected: Expected::ShallowerNesting })
    } else {
        let p = spec_skip(s, pos);
        if !(0 <= p < s.len()) || s[p] == B_RBRACE {
            Ok((Seq::empty(), p))
        } else {
            match spec_stmt(s, p, d, f) {
                Ok((n, p2)) => {
                    let q = spec_seps(s, p2);
                    match spec_stmts(s, q, d, (f - 1) as nat) {
                        Ok((ns, pe)) => Ok((seq![n].add(ns), pe)),
                        Err(e) => Err(e),
                    }
                },
                Err(e) => if spec_no_stmt(e, p) {
                    Ok((Seq::empty(), p))
                } else {
                    Err(e)
                },
            }
        }
    }
}

/// Whether an error from `parse_stmt` says only that nothing resembling a
/// statement starts at `p`.
fn no_statement_here(e: &ParseError, p: usize) -> (r: bool)
    ensures
        r == spec_no_stmt(e@, p as int),
{
    match e {
        ParseError::UnexpectedToken { offset, expected } => *offset == p && (*expected
            == Expected::Expression || *expected == Expected::Identifier),
        ParseError::UnexpectedEndOfInput => false,
        ParseError::TrailingInput { offset: _ } => false,
    }
}

/// An `if` statement with its `else if` chain, desugared into right-nested
/// conditionals: each `else if` becomes the alternate of the previous one,
/// a trailing bare `else` the innermost alternate, and a missing `else` an
/// empty block.
fn parse_if(s: &[u8], pos: usize, depth: u64, fuel: u64) -> (r: Result<(Node, usize), ParseError>)
    requires
        pos + 2 <= s.len(),
    ensures
        r matches Ok(t) ==> pos < t.1 <= s@.len(),
        r matches Err(e) ==> !(e is TrailingInput),
        ({
            let sp = spec_if(s@, pos as int, depth as nat, fuel as nat);
            match r {
                Ok(t) => sp == Ok::<(NodeS, int), ParseErrorSpec>((t.0.deep(), t.1 as int)),
                Err(e) => sp == Err::<(NodeS, int), ParseErrorSpec>(e@),
            }
        }),
    decreases fuel, depth, 1int,
{
    if depth == 0 {
        return Err(ParseError::UnexpectedToken {
            offset: pos,
            expected: Expected::ShallowerNesting,
        });
    }
    let p0 = skip_trivia(s, pos + 2);
    let p1 = expect_byte(s, p0, B_LPAREN, Expected::OpenParen)?;
    let p2 = skip_trivia(s, p1);
    let (cond, p3) = parse_expression(s, p2, depth - 1)?;
    let p4 = skip_trivia(s, p3);
    let p5 = expect_byte(s, p4, B_RPAREN, Expected::CloseParen)?;
    let p6 = skip_trivia(s, p5);
    let (cons, p7) = parse_block(s, p6, depth - 1, fuel)?;
    let q = skip_trivia(s, p7);
    if kw_else(s, q) {
        let r0 = skip_trivia(s, q + 4);
        if kw_if(s, r0) {
            let (nested, p8) = parse_if(s, r0, depth - 1, fuel)?;
            let ghost nsnap = nested;
            let mut stmts: Vec<Node> = Vec::new();
            proof {
                assert(stmts@ =~= Seq::<Node>::empty());
            }
            stmts.push(nested);
            let b = Block { stmts };
            proof {
                lemma_seq_deep_push(Seq::<Node>::empty(), nsnap);
                assert(seq_deep(Seq::<Node>::empty()) =~= Seq::<NodeS>::empty());
                assert(seq_deep(b.stmts@) =~= seq![nsnap.deep()]);
                assert(b.deep() == (BlockS { stmts: seq![nsnap.deep()] }));
            }
            Ok((Node::If(Box::new(cond), cons, b), p8))
        } else {
            let (alt, p8) = parse_block(s, r0, depth - 1, fuel)?;
            Ok((Node::If(Box::new(cond), cons, alt), p8))
        }
    } else {
        let b = Block { stmts: Vec::new() };
        proof {
            assert(seq_deep(b.stmts@) =~= Seq::<NodeS>::empty());
            assert(b.deep() == (BlockS { stmts: Seq::<NodeS>::empty() }));
        }
        Ok((Node::If(Box::new(cond), cons, b), p7))
    }
}

/// A `while` statement after its keyword.
fn parse_while(s: &[u8], pos: usize, depth: u64, fuel: u64) -> (r: Result<
    (Node, usize),
    ParseError,
>)
    requires
        pos + 5 <= s.len(),
    ensures
        r matches Ok(t) ==> pos < t.1 <= s@.len(),
        r matches Err(e) ==> !(e is TrailingInput),
        ({
            let sp = spec_while(s@, pos as int, depth as nat, fuel as nat);
            match r {
                Ok(t) => sp == Ok::<(NodeS, int), ParseErrorSpec>((t.0.deep(), t.1 as int)),
                Err(e) => sp == Err::<(NodeS, int), ParseErrorSpec>(e@),
            }
        }),
    decreases fuel, depth, 1int,
{
    if depth == 0 {
        return Err(ParseError::UnexpectedToken {
            offset: pos,
            expected: Expected::ShallowerNesting,
        });
    }
    let p0 = skip_trivia(s, pos + 5);
    let p1 = expect_byte(s, p0, B_LPAREN, Expected::OpenParen)?;
    let p2 = skip_trivia(s, p1);
    let (cond, p3) = parse_expression(s, p2, depth - 1)?;
    let p4 = skip_trivia(s, p3);
    let p5 = expect_byte(s, p4, B_RPAREN, Expected::CloseParen)?;
    let p6 = skip_trivia(s, p5);
    let (body, p7) = parse_block(s, p6, depth - 1, fuel)?;
    Ok((Node::While(Box::new(cond), body), p7))
}

/// A `for` statement after its keyword.
fn parse_for(s: &[u8], pos: usize, depth: u64, fuel: u64) -> (r: Result<(Node, usize), ParseError>)
    requires
        pos + 3 <= s.len(),
    ensures
        r matches Ok(t) ==> pos < t.1 <= s@.len(),
        r matches Err(e) ==> !(e is TrailingInput),
        ({
            let sp = spec_for(s@, pos as int, depth as nat, fuel as nat);
            match r {
                Ok(t) => sp == Ok::<(NodeS, int), ParseErrorSpec>((t.0.deep(), t.1 as int)),
                Err(e) => sp == Err::<(NodeS, int), ParseErrorSpec>(e@),
            }
        }),
    decreases fuel, depth, 1int,
{
    if depth == 0 {
        return Err(ParseError::UnexpectedToken {
            offset: pos,
            expected: Expected::ShallowerNesting,
        });
    }
    let p0 = skip_trivia(s, pos + 3);
    let p1 = expect_byte(s, p0, B_LPAREN, Expected::OpenParen)?;
    let p2 = skip_trivia(s, p1);
    let (init, p3) = if kw_let(s, p2) {
        parse_bind(s, p2, 3, true, depth)?
    } else if kw_const(s, p2) {
        parse_bind(s, p2, 5, false, depth)?
    } else {
        let (name, q1) = parse_ident(s, p2)?;
        let q2 = skip_trivia(s, q1);
        let q3 = expect_byte(s, q2, B_EQ, Expected::EqualsSign)?;
        let q4 = skip_trivia(s, q3);
        let (v, q5) = parse_expression(s, q4, depth - 1)?;
        (Node::Bind(name, true, Box::new(v)), q5)
    };
    let p4 = skip_trivia(s, p3);
    let p5 = expect_byte(s, p4, B_SEMI, Expected::Semicolon)?;
    let p6 = skip_trivia(s, p5);
    let (cond, p7) = parse_expression(s, p6, depth - 1)?;
    let p8 = skip_trivia(s, p7);
    let p9 = expect_byte(s, p8, B_SEMI, Expected::Semicolon)?;
    let p10 = skip_trivia(s, p9);
    let (uname, p11) = parse_ident(s, p10)?;
    let p12 = skip_trivia(s, p11);
    let p13 = expect_byte(s, p12, B_EQ, Expected::EqualsSign)?;
    let p14 = skip_trivia(s, p13);
    let (uval, p15) = parse_expression(s, p14, depth - 1)?;
    let ghost unsnap = uname;
    let ghost uvsnap = uval;
    let update = Node::Assign(uname, Box::new(uval));
    let ghost updsnap = update;
    proof {
        assert(updsnap.deep() == NodeS::Assign(unsnap@, Box::new(uvsnap.deep())));
    }
    let p16 = skip_trivia(s, p15);
    let p17 = expect_byte(s, p16, B_RPAREN, Expected::CloseParen)?;
    let p18 = skip_trivia(s, p17);
    let (body, p19) = parse_block(s, p18, depth - 1, fuel)?;
    Ok((Node::For(Box::new(init), Box::new(cond), Box::new(update), body), p19))
}

/// A braced block.
fn parse_block(s: &[u8], pos: usize, depth: u64, fuel: u64) -> (r: Result<
    (Block, usize),
    ParseError,
>)
    requires
        pos <= s@.len(),
    ensures
        r matches Ok(t) ==> pos < t.1 <= s@.len(),
        r matches Err(e) ==> !(e is TrailingInput),
        ({
            let sp = spec_block(s@, pos as int, depth as nat, fuel as nat);
            match r {
                Ok(t) => sp == Ok::<(BlockS, int), ParseErrorSpec>((t.0.deep(), t.1 as int)),
                Err(e) => sp == Err::<(BlockS, int), ParseErrorSpec>(e@),
            }
        }),
    decreases fuel, depth, 1int,
{
    if depth == 0 {
        return Err(ParseError::UnexpectedToken {
            offset: pos,
            expected: Expected::ShallowerNesting,
        });
    }
    let p0 = expect_byte(s, pos, B_LBRACE, Expected::OpenBrace)?;
    let (stmts, p1) = parse_stmts(s, p0, depth - 1, fuel)?;
    let p2 = expect_byte(s, p1, B_RBRACE, Expected::CloseBrace)?;
    Ok((Block { stmts }, p2))
}

/// One statement.
fn parse_stmt(s: &[u8], pos: usize, depth: u64, fuel: u64) -> (r: Result<
    (Node, usize),
    ParseError,
>)
    requires
        pos < s@.len(),
    ensures
        r matches Ok(t) ==> pos < t.1 <= s@.len(),
        r matches Err(e) ==> !(e is TrailingInput),
        ({
            let sp = spec_stmt(s@, pos as int, depth as nat, fuel as nat);
            match r {
                Ok(t) => sp == Ok::<(NodeS, int), ParseErrorSpec>((t.0.deep(), t.1 as int)),
                Err(e) => sp == Err::<(NodeS, int), ParseErrorSpec>(e@),
            }
        }),
    decreases fuel, depth, 2int,
{
    if depth == 0 {
        return Err(ParseError::UnexpectedToken {
            offset: pos,
            expected: Expected::ShallowerNesting,
        });
    }
    if kw_let(s, pos) {
        parse_bind(s, pos, 3, true, depth)
    } else if kw_const(s, pos) {
        parse_bind(s, pos, 5, false, depth)
    } else if kw_print(s, pos) {
        parse_print(s, pos, depth)
    } else if kw_if(s, pos) {
        parse_if(s, pos, depth, fuel)
    } else if kw_while(s, pos) {
        parse_while(s, pos, depth, fuel)
    } else if kw_for(s, pos) {
        parse_for(s, pos, depth, fuel)
    } else if s[pos] == B_LBRACE {
        match parse_block(s, pos, depth, fuel) {
            Ok((b, p1)) => Ok((Node::Block(b), p1)),
            Err(e) => Err(e),
        }
    } else if is_alpha_b(s[pos]) {
        // An identifier followed by a single `=` is an assignment; any
        // other shape falls back to an expression statement.
        let assign = match parse_ident(s, pos) {
            Ok((name, p1)) => {
                let q = skip_trivia(s, p1);
                if q < s.len() && s[q] == B_EQ && !(q + 1 < s.len() && s[q + 1] == B_EQ) {
                    Some((name, q))
                } else {
                    None
                }
            },
            Err(_) => None,
        };
        match assign {
            Some((name, q)) => {
                let p2 = skip_trivia(s, q + 1);
                let (v, p3) = parse_expression(s, p2, depth - 1)?;
                Ok((Node::Assign(name, Box::new(v)), p3))
            },
            None => {
                let (e, p1) = parse_expression(s, pos, depth - 1)?;
                Ok((e, p1))
            },
        }
    } else {
        let (e, p1) = parse_expression(s, pos, depth - 1)?;
        Ok((e, p1))
    }
}

/// Zero or more statements, each optionally followed by semicolons; stops
/// in front of a closing brace or at the end of the input, or where no
/// statement starts.
fn parse_stmts(s: &[u8], pos: usize, depth: u64, fuel: u64) -> (r: Result<
    (Vec<Node>, usize),
    ParseError,
>)
    requires
        pos <= s@.len(),
    ensures
        r matches Ok(t) ==> pos <= t.1 <= s@.len(),
        r matches Ok(t) ==> !is_trivia_start(s@, t.1 as int),
        r matches Err(e) ==> !(e is TrailingInput),
        ({
            let sp = spec_stmts(s@, pos as int, depth as nat, fuel as nat);
            match r {
                Ok(t) => sp == Ok::<(Seq<NodeS>, int), ParseErrorSpec>((
                    seq_deep(t.0@),
                    t.1 as int,
                )),
                Err(e) => sp == Err::<(Seq<NodeS>, int), ParseErrorSpec>(e@),
            }
        }),
    decreases fuel, depth, 3int,
{
    let mut p = pos;
    let mut fl = fuel;
    let mut nodes: Vec<Node> = Vec::new();
    proof {
        let sp0 = spec_stmts(s@, pos as int, depth as nat, fuel as nat);
        match sp0 {
            Ok(t) => {
                assert(seq_deep(nodes@) =~= Seq::<NodeS>::empty());
                assert(seq_deep(nodes@).add(t.0) =~= t.0);
            },
            Err(_) => {},
        }
    }
    loop
        invariant
            pos <= p <= s@.len(),
            fl <= fuel,
            ({
                let sp0 = spec_stmts(s@, pos as int, depth as nat, fuel as nat);
                let sp = spec_stmts(s@, p as int, depth as nat, fl as nat);
                match sp {
                    Ok(t) => sp0 == Ok::<(Seq<NodeS>, int), ParseErrorSpec>((
                        seq_deep(nodes@).add(t.0),
                        t.1,
                    )),
                    Err(e) => sp0 == Err::<(Seq<NodeS>, int), ParseErrorSpec>(e),
                }
            }),
        decreases fl,
    {
        if fl == 0 {
            return Err(ParseError::UnexpectedToken {
                offset: p,
                expected: Expected::ShallowerNesting,
            });
        }
        let p1 = skip_trivia(s, p);
        if p1 >= s.len() || s[p1] == B_RBRACE {
            proof {
                assert(seq_deep(nodes@).add(Seq::<NodeS>::empty()) =~= seq_deep(nodes@));
            }
            return Ok((nodes, p1));
        }
        match parse_stmt(s, p1, depth, fl) {
            Ok((n, p2)) => {
                let q = skip_separators(s, p2);
                let ghost nodes0 = nodes@;
                let ghost nsnap = n;
                nodes.push(n);
                proof {
                    lemma_seq_deep_push(nodes0, nsnap);
                    let sp_next = spec_stmts(s@, q as int, depth as nat, (fl - 1) as nat);
                    match sp_next {
                        Ok(t2) => {
                            assert(seq_deep(nodes0).add(seq![nsnap.deep()].add(t2.0))
                                =~= seq_deep(nodes@).add(t2.0));
                        },
                        Err(_) => {},
                    }
                }
                p = q;
                fl = fl - 1;
            },
            Err(e) => {
                // A failed match exactly where the statement would have
                // begun means no statement starts here: the list ends, and
                // the caller decides whether what follows is acceptable.
                if no_statement_here(&e, p1) {
                    proof {
                        assert(seq_deep(nodes@).add(Seq::<NodeS>::empty()) =~= seq_deep(
                            nodes@,
                        ));
                    }
                    return Ok((nodes, p1));
                }
                return Err(e);
            },
        }
    }
}

/// What parsing a whole program yields: the top-level statements as a
/// block, a `TrailingInput` error when text is left over after the last
/// statement, or the first rule failure.  The budgets are fixed: the
/// default nesting budget, and one unit of statement fuel per input byte,
/// which no input can exhaust.
pub open spec fn parse_spec(s: Seq<u8>) -> Result<BlockS, ParseErrorSpec> {
    match spec_stmts(s, 0, DEFAULT_PARSE_DEPTH as nat, u64::MAX as nat) {
        Err(e) => Err(e),
        Ok(t) => if t.1 < s.len() {
            Err(ParseErrorSpec::TrailingInput { offset: t.1 })
        } else {
            Ok(BlockS { stmts: t.0 })
        },
    }
}

/// Parses a whole program.
///
/// The returned block holds the top-level statements, exactly the tree
/// `parse_spec` derives from the bytes of the source: the contract fixes
/// the result, success or failure, as a function of the source text
/// alone.  The parser must consume the entire input: text left over after
/// the last statement is a `TrailingInput` error carrying its byte
/// offset.  The first rule that fails to match aborts the parse with an
/// error carrying the byte offset and what was expected there.  Source
/// nested more deeply than the parser's budget is reported as an error
/// instead of exhausting the machine stack.
pub fn parse(source: &str) -> (r: Result<Block, ParseError>)
    ensures
        r matches Ok(b) ==> parse_spec(source.spec_bytes()) == Ok::<BlockS, ParseErrorSpec>(
            b.deep(),
        ),
        r matches Err(e) ==> parse_spec(source.spec_bytes()) == Err::<BlockS, ParseErrorSpec>(
            e@,
        ),
        r matches Err(ParseError::TrailingInput { offset }) ==> offset
            < source.spec_bytes().len() && !is_trivia_start(source.spec_bytes(), offset as int),
{
    let s: &[u8] = source.as_bytes();
    let (nodes, p) = match parse_stmts(s, 0, DEFAULT_PARSE_DEPTH, u64::MAX) {
        Ok(t) => t,
        Err(e) => {
            return Err(e);
        },
    };
    if p < s.len() {
        return Err(ParseError::TrailingInput { offset: p });
    }
    Ok(Block { stmts: nodes })
}

} // verus!
