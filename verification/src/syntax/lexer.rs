//! From source text to tokens.
//!
//! White space and line comments separate tokens and are not tokens. A string
//! literal stays on one line.

use crate::syntax::span::Span;
use crate::syntax::token::{ContextualKeyword, Lexeme, Token};
use vstd::prelude::*;
use vstd::string::StringSliceAdditionalSpecFns;

verus! {

pub open spec fn is_space(b: u8) -> bool {
    b == 32 || b == 9 || b == 10 || b == 12 || b == 13
}

/// Whether a byte ends a line.
pub open spec fn is_line_end(b: u8) -> bool {
    b == 10 || b == 13
}

pub open spec fn is_digit(b: u8) -> bool {
    48 <= b <= 57
}

/// A byte that can begin an identifier.
pub open spec fn is_word_start(b: u8) -> bool {
    65 <= b <= 90 || 97 <= b <= 122 || b == 95
}

/// A byte that can go on in an identifier.
pub open spec fn is_word(b: u8) -> bool {
    is_word_start(b) || is_digit(b)
}

/// A byte that can go on in a run of digits.
pub open spec fn is_digit_or_separator(b: u8) -> bool {
    is_digit(b) || b == 95
}

/// The first position from `p` on whose byte is not accepted by `f`.
pub open spec fn run_end(bytes: Seq<u8>, p: int, f: spec_fn(u8) -> bool) -> int
    decreases bytes.len() - p,
{
    if 0 <= p < bytes.len() && f(bytes[p]) {
        run_end(bytes, p + 1, f)
    } else {
        p
    }
}

/// Whether a line comment begins at `p`.
pub open spec fn comment_at(bytes: Seq<u8>, p: int) -> bool {
    0 <= p && p + 1 < bytes.len() && bytes[p] == 47 && bytes[p + 1] == 47
}

/// The first position from `p` on that is neither white space nor inside a
/// line comment.
pub open spec fn trivia_end(bytes: Seq<u8>, p: int) -> int
    decreases bytes.len() - p,
{
    let q = run_end(bytes, p, |b: u8| is_space(b));
    if comment_at(bytes, q) && q >= p {
        let line = run_end(bytes, q, |b: u8| !is_line_end(b));
        if q < line <= bytes.len() {
            trivia_end(bytes, line)
        } else {
            q
        }
    } else {
        q
    }
}

/// The end of the number that begins at `p`: digits, then a fraction, then an
/// exponent, as far as they are there.
pub open spec fn number_end(bytes: Seq<u8>, p: int) -> int {
    let whole = run_end(bytes, p, |b: u8| is_digit_or_separator(b));
    let mantissa = if whole + 1 < bytes.len() && bytes[whole] == 46 && is_digit(bytes[whole + 1]) {
        run_end(bytes, whole + 1, |b: u8| is_digit_or_separator(b))
    } else {
        whole
    };
    if mantissa < bytes.len() && (bytes[mantissa] == 101 || bytes[mantissa] == 69) {
        let sign = if mantissa + 1 < bytes.len() && (bytes[mantissa + 1] == 43 || bytes[mantissa + 1] == 45) {
            mantissa + 2
        } else {
            mantissa + 1
        };
        if sign < bytes.len() && is_digit(bytes[sign]) {
            run_end(bytes, sign, |b: u8| is_digit_or_separator(b))
        } else {
            mantissa
        }
    } else {
        mantissa
    }
}

/// The token that a word is.
pub open spec fn word_token(w: Seq<u8>) -> Token {
    if w == "param".spec_bytes() {
        Token::Param
    } else if w == "node".spec_bytes() {
        Token::Node
    } else if w == "const".spec_bytes() {
        Token::Const
    } else if w == "index".spec_bytes() {
        Token::Index
    } else if w == "type".spec_bytes() {
        Token::Type
    } else if w == "base".spec_bytes() {
        Token::Base
    } else if w == "dim".spec_bytes() {
        Token::Dim
    } else if w == "unit".spec_bytes() {
        Token::Unit
    } else if w == "pub".spec_bytes() {
        Token::Pub
    } else if w == "import".spec_bytes() {
        Token::Import
    } else if w == "as".spec_bytes() {
        Token::As
    } else if w == "table".spec_bytes() {
        Token::Table
    } else if w == "for".spec_bytes() {
        Token::For
    } else if w == "match".spec_bytes() {
        Token::Match
    } else if w == "if".spec_bytes() {
        Token::If
    } else if w == "else".spec_bytes() {
        Token::Else
    } else if w == "true".spec_bytes() {
        Token::True
    } else if w == "false".spec_bytes() {
        Token::False
    } else if w == "scan".spec_bytes() {
        Token::ContextualKeyword(ContextualKeyword::Scan)
    } else if w == "unfold".spec_bytes() {
        Token::ContextualKeyword(ContextualKeyword::Unfold)
    } else if w == "key".spec_bytes() {
        Token::ContextualKeyword(ContextualKeyword::Key)
    } else if w == "fin_key".spec_bytes() {
        Token::ContextualKeyword(ContextualKeyword::FinKey)
    } else if w == "floor_key".spec_bytes() {
        Token::ContextualKeyword(ContextualKeyword::FloorKey)
    } else if w == "ceil_key".spec_bytes() {
        Token::ContextualKeyword(ContextualKeyword::CeilKey)
    } else if w == "nearest_key".spec_bytes() {
        Token::ContextualKeyword(ContextualKeyword::NearestKey)
    } else if w == "Fin".spec_bytes() {
        Token::ContextualKeyword(ContextualKeyword::Fin)
    } else if w == "range".spec_bytes() {
        Token::ContextualKeyword(ContextualKeyword::Range)
    } else if w == "linspace".spec_bytes() {
        Token::ContextualKeyword(ContextualKeyword::Linspace)
    } else if w == "step".spec_bytes() {
        Token::ContextualKeyword(ContextualKeyword::Step)
    } else if w == "points".spec_bytes() {
        Token::ContextualKeyword(ContextualKeyword::Points)
    } else if w == "_".spec_bytes() {
        Token::Underscore
    } else {
        Token::Ident
    }
}

/// The token that two bytes form, if they form one.
pub open spec fn pair_token(a: u8, b: u8) -> Option<Token> {
    if a == 45 && b == 62 {
        Some(Token::Arrow)
    } else if a == 61 && b == 62 {
        Some(Token::FatArrow)
    } else if a == 61 && b == 61 {
        Some(Token::EqEq)
    } else if a == 33 && b == 61 {
        Some(Token::BangEq)
    } else if a == 60 && b == 61 {
        Some(Token::LtEq)
    } else if a == 62 && b == 61 {
        Some(Token::GtEq)
    } else if a == 38 && b == 38 {
        Some(Token::AmpAmp)
    } else if a == 124 && b == 124 {
        Some(Token::PipePipe)
    } else {
        None
    }
}

/// The token that one byte forms.
pub open spec fn byte_token(a: u8) -> Token {
    if a == 43 {
        Token::Plus
    } else if a == 45 {
        Token::Minus
    } else if a == 42 {
        Token::Star
    } else if a == 47 {
        Token::Slash
    } else if a == 37 {
        Token::Percent
    } else if a == 94 {
        Token::Caret
    } else if a == 61 {
        Token::Eq
    } else if a == 60 {
        Token::Lt
    } else if a == 62 {
        Token::Gt
    } else if a == 33 {
        Token::Bang
    } else if a == 64 {
        Token::At
    } else if a == 35 {
        Token::Hash
    } else if a == 124 {
        Token::Pipe
    } else if a == 40 {
        Token::LParen
    } else if a == 41 {
        Token::RParen
    } else if a == 91 {
        Token::LBracket
    } else if a == 93 {
        Token::RBracket
    } else if a == 123 {
        Token::LBrace
    } else if a == 125 {
        Token::RBrace
    } else if a == 44 {
        Token::Comma
    } else if a == 58 {
        Token::Colon
    } else if a == 59 {
        Token::Semicolon
    } else if a == 46 {
        Token::Dot
    } else {
        Token::Unknown
    }
}

/// The token that begins at `p`, and where it ends.
pub open spec fn token_from(bytes: Seq<u8>, p: int) -> (Token, int) {
    let a = bytes[p];
    if is_word_start(a) {
        let end = run_end(bytes, p, |b: u8| is_word(b));
        (word_token(bytes.subrange(p, end)), end)
    } else if is_digit(a) {
        (Token::Number, number_end(bytes, p))
    } else if a == 34 {
        let close = run_end(bytes, p + 1, |b: u8| b != 34 && !is_line_end(b));
        if close < bytes.len() && bytes[close] == 34 {
            (Token::StringLiteral, close + 1)
        } else {
            (Token::Unknown, p + 1)
        }
    } else if p + 1 < bytes.len() && pair_token(a, bytes[p + 1]) is Some {
        (pair_token(a, bytes[p + 1])->0, p + 2)
    } else {
        (byte_token(a), p + 1)
    }
}

/// The tokens from `p` on.
pub open spec fn lexemes_from(bytes: Seq<u8>, p: int) -> Seq<Lexeme>
    decreases bytes.len() - p,
{
    let start = trivia_end(bytes, p);
    if p < 0 || start < p || start >= bytes.len() {
        Seq::empty()
    } else {
        let (token, end) = token_from(bytes, start);
        if end <= start || end > bytes.len() {
            Seq::empty()
        } else {
            seq![Lexeme { token, span: Span { offset: start as usize, len: (end - start) as usize } }]
                + lexemes_from(bytes, end)
        }
    }
}

pub proof fn lemma_run_end(bytes: Seq<u8>, p: int, f: spec_fn(u8) -> bool)
    ensures
        run_end(bytes, p, f) >= p,
        p <= bytes.len() ==> run_end(bytes, p, f) <= bytes.len(),
        0 <= p < bytes.len() && f(bytes[p]) ==> run_end(bytes, p, f) > p,
    decreases bytes.len() - p,
{
    if 0 <= p < bytes.len() && f(bytes[p]) {
        lemma_run_end(bytes, p + 1, f);
    }
}

pub proof fn lemma_trivia_end(bytes: Seq<u8>, p: int)
    ensures
        trivia_end(bytes, p) >= p,
        p <= bytes.len() ==> trivia_end(bytes, p) <= bytes.len(),
    decreases bytes.len() - p,
{
    lemma_run_end(bytes, p, |b: u8| is_space(b));
    let q = run_end(bytes, p, |b: u8| is_space(b));
    if comment_at(bytes, q) {
        lemma_run_end(bytes, q, |b: u8| !is_line_end(b));
        lemma_trivia_end(bytes, run_end(bytes, q, |b: u8| !is_line_end(b)));
    }
}

fn space_end(bytes: &[u8], p: usize) -> (r: usize)
    requires
        p <= bytes@.len(),
    ensures
        r == run_end(bytes@, p as int, |b: u8| is_space(b)),
        p <= r <= bytes@.len(),
{
    let mut q: usize = p;
    while q < bytes.len() && (bytes[q] == 32 || bytes[q] == 9 || bytes[q] == 10 || bytes[q] == 12 || bytes[q] == 13)
        invariant
            p <= q <= bytes@.len(),
            run_end(bytes@, p as int, |b: u8| is_space(b)) == run_end(bytes@, q as int, |b: u8| is_space(b)),
        decreases bytes@.len() - q,
    {
        q = q + 1;
    }
    q
}

/// The end of the line that `p` is on.
pub fn line_end(bytes: &[u8], p: usize) -> (r: usize)
    requires
        p <= bytes@.len(),
    ensures
        r == run_end(bytes@, p as int, |b: u8| !is_line_end(b)),
        p <= r <= bytes@.len(),
        p < bytes@.len() && !is_line_end(bytes@[p as int]) ==> p < r,
{
    let mut q: usize = p;
    while q < bytes.len() && bytes[q] != 10 && bytes[q] != 13
        invariant
            p <= q <= bytes@.len(),
            run_end(bytes@, p as int, |b: u8| !is_line_end(b)) == run_end(bytes@, q as int, |b: u8| !is_line_end(b)),
            q > p || p >= bytes@.len() || q == p,
        decreases bytes@.len() - q,
    {
        q = q + 1;
    }
    q
}

/// The first position from `pos` on that is neither white space nor inside a
/// line comment.
pub fn skip_ws_and_line_comments(bytes: &[u8], pos: usize) -> (r: usize)
    requires
        pos <= bytes@.len(),
    ensures
        r == trivia_end(bytes@, pos as int),
        pos <= r <= bytes@.len(),
{
    let mut p: usize = pos;
    loop
        invariant
            pos <= p <= bytes@.len(),
            trivia_end(bytes@, pos as int) == trivia_end(bytes@, p as int),
        decreases bytes@.len() - p,
    {
        let q = space_end(bytes, p);
        if q < bytes.len() && bytes.len() - q > 1 && bytes[q] == 47 && bytes[q + 1] == 47 {
            p = line_end(bytes, q);
        } else {
            return q;
        }
    }
}

/// The end of the identifier that begins at `pos`, if one does.
pub fn scan_ascii_ident(bytes: &[u8], pos: usize) -> (r: Option<usize>)
    requires
        pos <= bytes@.len(),
    ensures
        r is Some == (pos < bytes@.len() && is_word_start(bytes@[pos as int])),
        r is Some ==> r->0 == run_end(bytes@, pos as int, |b: u8| is_word(b)) && pos < r->0 <= bytes@.len(),
{
    if pos >= bytes.len() || !word_start(bytes[pos]) {
        return None;
    }
    let mut end: usize = pos + 1;
    while end < bytes.len() && word_byte(bytes[end])
        invariant
            pos < end <= bytes@.len(),
            run_end(bytes@, pos as int, |b: u8| is_word(b)) == run_end(bytes@, end as int, |b: u8| is_word(b)),
        decreases bytes@.len() - end,
    {
        end = end + 1;
    }
    Some(end)
}

fn word_start(b: u8) -> (r: bool)
    ensures
        r == is_word_start(b),
{
    (65 <= b && b <= 90) || (97 <= b && b <= 122) || b == 95
}

fn word_byte(b: u8) -> (r: bool)
    ensures
        r == is_word(b),
{
    word_start(b) || (48 <= b && b <= 57)
}

fn digits_end(bytes: &[u8], p: usize) -> (r: usize)
    requires
        p <= bytes@.len(),
    ensures
        r == run_end(bytes@, p as int, |b: u8| is_digit_or_separator(b)),
        p <= r <= bytes@.len(),
{
    let mut q: usize = p;
    while q < bytes.len() && ((48 <= bytes[q] && bytes[q] <= 57) || bytes[q] == 95)
        invariant
            p <= q <= bytes@.len(),
            run_end(bytes@, p as int, |b: u8| is_digit_or_separator(b)) == run_end(
                bytes@,
                q as int,
                |b: u8| is_digit_or_separator(b),
            ),
        decreases bytes@.len() - q,
    {
        q = q + 1;
    }
    q
}

fn digit_at(bytes: &[u8], p: usize) -> (r: bool)
    ensures
        r == (p < bytes@.len() && is_digit(bytes@[p as int])),
{
    p < bytes.len() && 48 <= bytes[p] && bytes[p] <= 57
}

fn scan_number(bytes: &[u8], p: usize) -> (r: usize)
    requires
        p < bytes@.len(),
        is_digit(bytes@[p as int]),
    ensures
        r == number_end(bytes@, p as int),
        p < r <= bytes@.len(),
{
    proof {
        lemma_run_end(bytes@, p as int, |b: u8| is_digit_or_separator(b));
    }
    let whole = digits_end(bytes, p);
    let mut mantissa: usize = whole;
    if whole < bytes.len() && bytes[whole] == 46 && digit_at(bytes, whole + 1) {
        mantissa = digits_end(bytes, whole + 1);
    }
    if mantissa < bytes.len() && (bytes[mantissa] == 101 || bytes[mantissa] == 69) {
        let mut sign: usize = mantissa + 1;
        if sign < bytes.len() && (bytes[sign] == 43 || bytes[sign] == 45) {
            sign = sign + 1;
        }
        if digit_at(bytes, sign) {
            return digits_end(bytes, sign);
        }
    }
    mantissa
}

fn word_is(bytes: &[u8], start: usize, end: usize, word: &str) -> (r: bool)
    requires
        start <= end <= bytes@.len(),
    ensures
        r == (bytes@.subrange(start as int, end as int) == word.spec_bytes()),
{
    let wanted = word.as_bytes();
    let ghost text = bytes@.subrange(start as int, end as int);
    if wanted.len() != end - start {
        assert(text.len() != word.spec_bytes().len());
        return false;
    }
    for i in 0..wanted.len()
        invariant
            start <= end <= bytes@.len(),
            wanted@ == word.spec_bytes(),
            wanted@.len() == end - start,
            text == bytes@.subrange(start as int, end as int),
            forall|j: int| 0 <= j < i ==> text[j] == wanted@[j],
    {
        if bytes[start + i] != wanted[i] {
            assert(text[i as int] != wanted@[i as int]);
            return false;
        }
    }
    assert(text =~= wanted@);
    true
}

fn classify_word(bytes: &[u8], start: usize, end: usize) -> (r: Token)
    requires
        start <= end <= bytes@.len(),
    ensures
        r == word_token(bytes@.subrange(start as int, end as int)),
{
    if word_is(bytes, start, end, "param") {
        Token::Param
    } else if word_is(bytes, start, end, "node") {
        Token::Node
    } else if word_is(bytes, start, end, "const") {
        Token::Const
    } else if word_is(bytes, start, end, "index") {
        Token::Index
    } else if word_is(bytes, start, end, "type") {
        Token::Type
    } else if word_is(bytes, start, end, "base") {
        Token::Base
    } else if word_is(bytes, start, end, "dim") {
        Token::Dim
    } else if word_is(bytes, start, end, "unit") {
        Token::Unit
    } else if word_is(bytes, start, end, "pub") {
        Token::Pub
    } else if word_is(bytes, start, end, "import") {
        Token::Import
    } else if word_is(bytes, start, end, "as") {
        Token::As
    } else if word_is(bytes, start, end, "table") {
        Token::Table
    } else if word_is(bytes, start, end, "for") {
        Token::For
    } else if word_is(bytes, start, end, "match") {
        Token::Match
    } else if word_is(bytes, start, end, "if") {
        Token::If
    } else if word_is(bytes, start, end, "else") {
        Token::Else
    } else if word_is(bytes, start, end, "true") {
        Token::True
    } else if word_is(bytes, start, end, "false") {
        Token::False
    } else if word_is(bytes, start, end, "scan") {
        Token::ContextualKeyword(ContextualKeyword::Scan)
    } else if word_is(bytes, start, end, "unfold") {
        Token::ContextualKeyword(ContextualKeyword::Unfold)
    } else if word_is(bytes, start, end, "key") {
        Token::ContextualKeyword(ContextualKeyword::Key)
    } else if word_is(bytes, start, end, "fin_key") {
        Token::ContextualKeyword(ContextualKeyword::FinKey)
    } else if word_is(bytes, start, end, "floor_key") {
        Token::ContextualKeyword(ContextualKeyword::FloorKey)
    } else if word_is(bytes, start, end, "ceil_key") {
        Token::ContextualKeyword(ContextualKeyword::CeilKey)
    } else if word_is(bytes, start, end, "nearest_key") {
        Token::ContextualKeyword(ContextualKeyword::NearestKey)
    } else if word_is(bytes, start, end, "Fin") {
        Token::ContextualKeyword(ContextualKeyword::Fin)
    } else if word_is(bytes, start, end, "range") {
        Token::ContextualKeyword(ContextualKeyword::Range)
    } else if word_is(bytes, start, end, "linspace") {
        Token::ContextualKeyword(ContextualKeyword::Linspace)
    } else if word_is(bytes, start, end, "step") {
        Token::ContextualKeyword(ContextualKeyword::Step)
    } else if word_is(bytes, start, end, "points") {
        Token::ContextualKeyword(ContextualKeyword::Points)
    } else if word_is(bytes, start, end, "_") {
        Token::Underscore
    } else {
        Token::Ident
    }
}

fn classify_pair(a: u8, b: u8) -> (r: Option<Token>)
    ensures
        r == pair_token(a, b),
{
    if a == 45 && b == 62 {
        Some(Token::Arrow)
    } else if a == 61 && b == 62 {
        Some(Token::FatArrow)
    } else if a == 61 && b == 61 {
        Some(Token::EqEq)
    } else if a == 33 && b == 61 {
        Some(Token::BangEq)
    } else if a == 60 && b == 61 {
        Some(Token::LtEq)
    } else if a == 62 && b == 61 {
        Some(Token::GtEq)
    } else if a == 38 && b == 38 {
        Some(Token::AmpAmp)
    } else if a == 124 && b == 124 {
        Some(Token::PipePipe)
    } else {
        None
    }
}

fn classify_byte(a: u8) -> (r: Token)
    ensures
        r == byte_token(a),
{
    if a == 43 {
        Token::Plus
    } else if a == 45 {
        Token::Minus
    } else if a == 42 {
        Token::Star
    } else if a == 47 {
        Token::Slash
    } else if a == 37 {
        Token::Percent
    } else if a == 94 {
        Token::Caret
    } else if a == 61 {
        Token::Eq
    } else if a == 60 {
        Token::Lt
    } else if a == 62 {
        Token::Gt
    } else if a == 33 {
        Token::Bang
    } else if a == 64 {
        Token::At
    } else if a == 35 {
        Token::Hash
    } else if a == 124 {
        Token::Pipe
    } else if a == 40 {
        Token::LParen
    } else if a == 41 {
        Token::RParen
    } else if a == 91 {
        Token::LBracket
    } else if a == 93 {
        Token::RBracket
    } else if a == 123 {
        Token::LBrace
    } else if a == 125 {
        Token::RBrace
    } else if a == 44 {
        Token::Comma
    } else if a == 58 {
        Token::Colon
    } else if a == 59 {
        Token::Semicolon
    } else if a == 46 {
        Token::Dot
    } else {
        Token::Unknown
    }
}

fn string_end(bytes: &[u8], p: usize) -> (r: usize)
    requires
        p <= bytes@.len(),
    ensures
        r == run_end(bytes@, p as int, |b: u8| b != 34 && !is_line_end(b)),
        p <= r <= bytes@.len(),
{
    let mut q: usize = p;
    while q < bytes.len() && bytes[q] != 34 && bytes[q] != 10 && bytes[q] != 13
        invariant
            p <= q <= bytes@.len(),
            run_end(bytes@, p as int, |b: u8| b != 34 && !is_line_end(b)) == run_end(
                bytes@,
                q as int,
                |b: u8| b != 34 && !is_line_end(b),
            ),
        decreases bytes@.len() - q,
    {
        q = q + 1;
    }
    q
}

fn next_token(bytes: &[u8], p: usize) -> (r: (Token, usize))
    requires
        p < bytes@.len(),
    ensures
        r.0 == token_from(bytes@, p as int).0,
        r.1 == token_from(bytes@, p as int).1,
        p < r.1 <= bytes@.len(),
{
    let a: u8 = bytes[p];
    match scan_ascii_ident(bytes, p) {
        Some(end) => {
            return (classify_word(bytes, p, end), end);
        },
        None => {},
    }
    if 48 <= a && a <= 57 {
        return (Token::Number, scan_number(bytes, p));
    }
    if a == 34 {
        let close = string_end(bytes, p + 1);
        if close < bytes.len() && bytes[close] == 34 {
            return (Token::StringLiteral, close + 1);
        }
        return (Token::Unknown, p + 1);
    }
    if bytes.len() - p > 1 {
        match classify_pair(a, bytes[p + 1]) {
            Some(token) => {
                return (token, p + 2);
            },
            None => {},
        }
    }
    (classify_byte(a), p + 1)
}

/// The tokens of some source text.
pub fn lex(source: &str) -> (r: Vec<Lexeme>)
    ensures
        r@ == lexemes_from(source.spec_bytes(), 0),
{
    let bytes = source.as_bytes();
    let mut out: Vec<Lexeme> = Vec::new();
    let mut p: usize = 0;
    assert(out@ + lexemes_from(bytes@, 0) =~= lexemes_from(bytes@, 0));
    loop
        invariant
            bytes@ == source.spec_bytes(),
            p <= bytes@.len(),
            out@ + lexemes_from(bytes@, p as int) == lexemes_from(bytes@, 0),
        decreases bytes@.len() - p,
    {
        proof {
            lemma_trivia_end(bytes@, p as int);
        }
        let start = skip_ws_and_line_comments(bytes, p);
        if start >= bytes.len() {
            assert(out@ =~= lexemes_from(bytes@, 0));
            return out;
        }
        let (token, end) = next_token(bytes, start);
        let ghost before = out@;
        let lexeme = Lexeme { token, span: Span { offset: start, len: end - start } };
        out.push(lexeme);
        assert(out@ + lexemes_from(bytes@, end as int) =~= before + lexemes_from(bytes@, p as int));
        p = end;
    }
}

} // verus!
