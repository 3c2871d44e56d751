//! What is read is what the source text spells.

use crate::syntax::ast::{
    BinOp, BindableVisibility, DomainBoundKind, KeyFormKind, MulDivOp, MultiSlotKind, TypeExprKind, UnaryOp,
};
use crate::syntax::lexer::{
    is_digit, is_digit_or_separator, is_line_end, is_word, is_word_start, lemma_run_end, lemma_trivia_end,
    lexemes_from, number_end, pair_token, run_end, token_from, trivia_end, word_token,
};
use crate::syntax::parser::expr_grammar::{base_type, bound_kind, key_form_kind, prefix_op};
use crate::syntax::parser::grammar::{additive_op, comparison_op, joining_op, multiplicative_op, Input, Parse};
use crate::syntax::parser::multi_grammar::{slot_kind, visibility_prefix, Part};
use crate::syntax::term::Reading;
use crate::syntax::token::{ContextualKeyword, Token};
use vstd::prelude::*;
use vstd::utf8::encode_utf8;

verus! {

/// The bytes that an operator is written with.
pub open spec fn operator_bytes(op: BinOp) -> Seq<u8> {
    match op {
        BinOp::Add => seq![43u8],
        BinOp::Sub => seq![45u8],
        BinOp::Mul => seq![42u8],
        BinOp::Div => seq![47u8],
        BinOp::Mod => seq![37u8],
        BinOp::Pow(_) => seq![94u8],
        BinOp::Eq => seq![61u8, 61u8],
        BinOp::Ne => seq![33u8, 61u8],
        BinOp::Lt => seq![60u8],
        BinOp::Gt => seq![62u8],
        BinOp::Le => seq![60u8, 61u8],
        BinOp::Ge => seq![62u8, 61u8],
        BinOp::And => seq![38u8, 38u8],
        BinOp::Or => seq![124u8, 124u8],
    }
}

/// The text that an operator is written with.
pub open spec fn operator_text(op: BinOp) -> Seq<char> {
    match op {
        BinOp::Add => "+"@,
        BinOp::Sub => "-"@,
        BinOp::Mul => "*"@,
        BinOp::Div => "/"@,
        BinOp::Mod => "%"@,
        BinOp::Pow(_) => "^"@,
        BinOp::Eq => "=="@,
        BinOp::Ne => "!="@,
        BinOp::Lt => "<"@,
        BinOp::Gt => ">"@,
        BinOp::Le => "<="@,
        BinOp::Ge => ">="@,
        BinOp::And => "&&"@,
        BinOp::Or => "||"@,
    }
}

/// The bytes of a token that is always written the same and is no word.
pub open spec fn mark_bytes(token: Token) -> Option<Seq<u8>> {
    match token {
        Token::Arrow => Some(seq![45u8, 62u8]),
        Token::FatArrow => Some(seq![61u8, 62u8]),
        Token::EqEq => Some(seq![61u8, 61u8]),
        Token::BangEq => Some(seq![33u8, 61u8]),
        Token::LtEq => Some(seq![60u8, 61u8]),
        Token::GtEq => Some(seq![62u8, 61u8]),
        Token::AmpAmp => Some(seq![38u8, 38u8]),
        Token::PipePipe => Some(seq![124u8, 124u8]),
        Token::Plus => Some(seq![43u8]),
        Token::Minus => Some(seq![45u8]),
        Token::Star => Some(seq![42u8]),
        Token::Slash => Some(seq![47u8]),
        Token::Percent => Some(seq![37u8]),
        Token::Caret => Some(seq![94u8]),
        Token::Eq => Some(seq![61u8]),
        Token::Lt => Some(seq![60u8]),
        Token::Gt => Some(seq![62u8]),
        Token::Bang => Some(seq![33u8]),
        Token::At => Some(seq![64u8]),
        Token::Hash => Some(seq![35u8]),
        Token::Pipe => Some(seq![124u8]),
        Token::LParen => Some(seq![40u8]),
        Token::RParen => Some(seq![41u8]),
        Token::LBracket => Some(seq![91u8]),
        Token::RBracket => Some(seq![93u8]),
        Token::LBrace => Some(seq![123u8]),
        Token::RBrace => Some(seq![125u8]),
        Token::Comma => Some(seq![44u8]),
        Token::Colon => Some(seq![58u8]),
        Token::Semicolon => Some(seq![59u8]),
        Token::Dot => Some(seq![46u8]),
        _ => None,
    }
}

/// The operator that a token is read as, between two operands or before one, is
/// the one that the token spells.
pub proof fn law_operators_are_spelled(token: Token)
    ensures
        comparison_op(Some(token)) is Some ==> {
            &&& operator_text(comparison_op(Some(token))->0) == token.label()
            &&& mark_bytes(token) == Some(operator_bytes(comparison_op(Some(token))->0))
        },
        additive_op(Some(token)) is Some ==> {
            &&& operator_text(additive_op(Some(token))->0) == token.label()
            &&& mark_bytes(token) == Some(operator_bytes(additive_op(Some(token))->0))
        },
        multiplicative_op(Some(token)) is Some ==> {
            &&& operator_text(multiplicative_op(Some(token))->0) == token.label()
            &&& mark_bytes(token) == Some(operator_bytes(multiplicative_op(Some(token))->0))
        },
        prefix_op(Some(token)) == Some(UnaryOp::Neg) <==> mark_bytes(token) == Some(seq![45u8]),
        prefix_op(Some(token)) == Some(UnaryOp::Not) <==> mark_bytes(token) == Some(seq![33u8]),
{
    reveal(Token::label);
    lemma_marks(token);
}

/// Tokens that are written the same are the same.
proof fn lemma_marks(token: Token)
    ensures
        mark_bytes(token) == Some(seq![45u8]) <==> token == Token::Minus,
        mark_bytes(token) == Some(seq![33u8]) <==> token == Token::Bang,
{
    match mark_bytes(token) {
        Some(bytes) => {
            let a = bytes[0];
            assert(seq![45u8][0] == 45u8 && seq![33u8][0] == 33u8);
            assert(seq![45u8].len() == 1 && seq![33u8].len() == 1);
        },
        None => {},
    }
}

/// Every operator but the power can be written: some token is read as it, at
/// the level that the operator binds at, and no other token is.
pub proof fn law_every_operator_can_be_written(op: BinOp, a: Token, b: Token)
    ensures
        (op == BinOp::Eq || op == BinOp::Ne || op == BinOp::Lt || op == BinOp::Gt || op == BinOp::Le || op
            == BinOp::Ge) ==> exists|t: Token| #[trigger] comparison_op(Some(t)) == Some(op),
        (op == BinOp::Add || op == BinOp::Sub) ==> exists|t: Token| #[trigger] additive_op(Some(t)) == Some(op),
        (op == BinOp::Mul || op == BinOp::Div || op == BinOp::Mod) ==> exists|t: Token| #[trigger]
            multiplicative_op(Some(t)) == Some(op),
        comparison_op(Some(a)) is Some && comparison_op(Some(a)) == comparison_op(Some(b)) ==> a == b,
        additive_op(Some(a)) is Some && additive_op(Some(a)) == additive_op(Some(b)) ==> a == b,
        multiplicative_op(Some(a)) is Some && multiplicative_op(Some(a)) == multiplicative_op(Some(b)) ==> a == b,
{
    assert(comparison_op(Some(Token::EqEq)) is Some && comparison_op(Some(Token::BangEq)) is Some);
    assert(comparison_op(Some(Token::Lt)) is Some && comparison_op(Some(Token::Gt)) is Some);
    assert(comparison_op(Some(Token::LtEq)) is Some && comparison_op(Some(Token::GtEq)) is Some);
    assert(additive_op(Some(Token::Plus)) is Some && additive_op(Some(Token::Minus)) is Some);
    assert(multiplicative_op(Some(Token::Star)) is Some && multiplicative_op(Some(Token::Slash)) is Some);
    assert(multiplicative_op(Some(Token::Percent)) is Some);
}

/// In units and dimensions, `*` multiplies and `/` divides.
pub proof fn law_factors_are_spelled(g: Input, p: int)
    ensures
        match joining_op(g, p) {
            Some(MulDivOp::Mul) => g.token(p) is Some && mark_bytes(g.token(p)->0) == Some(seq![42u8]),
            Some(MulDivOp::Div) => g.token(p) is Some && mark_bytes(g.token(p)->0) == Some(seq![47u8]),
            None => true,
        },
{
}

/// The word that begins a key form.
pub open spec fn key_form_text(kind: KeyFormKind) -> Seq<char> {
    match kind {
        KeyFormKind::Static => "key"@,
        KeyFormKind::Fin => "fin_key"@,
        KeyFormKind::Floor => "floor_key"@,
        KeyFormKind::Ceil => "ceil_key"@,
        KeyFormKind::Nearest => "nearest_key"@,
    }
}

/// A key form is the one that its word spells.
pub proof fn law_key_forms_are_spelled(word: ContextualKeyword)
    ensures
        key_form_kind(word) is Some ==> key_form_text(key_form_kind(word)->0) == Token::ContextualKeyword(
            word,
        ).label(),
{
    reveal(Token::label);
}

/// The word that a bound is written with.
pub open spec fn bound_text(kind: DomainBoundKind) -> Seq<char> {
    match kind {
        DomainBoundKind::Min => "min"@,
        DomainBoundKind::Max => "max"@,
    }
}

/// A bound is the one that its word spells.
pub proof fn law_bounds_are_spelled(g: Input, p: int, kind: DomainBoundKind)
    ensures
        bound_kind(g, p) is Some ==> g.named(p) && g.text(p) == bound_text(bound_kind(g, p)->0),
        g.named(p) && g.text(p) == bound_text(kind) ==> bound_kind(g, p) is Some,
{
}

/// A visibility is the one that its tokens spell: none, `pub`, or `pub(bind)`.
pub proof fn law_visibilities_are_spelled(g: Input, p: int)
    ensures
        match visibility_prefix(g, p) {
            Part::Read((visibility, span), q) => {
                &&& span is Some <==> p < q
                &&& g.is(p, Token::Pub) <==> p < q
                &&& match visibility {
                    BindableVisibility::Private => q == p,
                    BindableVisibility::Public => q == p + 1 && !g.is(q, Token::LParen),
                    BindableVisibility::PublicBind => {
                        &&& q == p + 4
                        &&& g.is(p + 1, Token::LParen)
                        &&& g.text(p + 2) == "bind"@
                        &&& g.is(p + 3, Token::RParen)
                    },
                }
            },
            Part::Refused(_) => g.is(p, Token::Pub) && g.is(p + 1, Token::LParen),
        },
{
}

/// The words that a kind of declaration is written with.
pub open spec fn slot_words(kind: MultiSlotKind) -> Seq<Seq<char>> {
    match kind {
        MultiSlotKind::Param => seq!["param"@],
        MultiSlotKind::Node => seq!["node"@],
        MultiSlotKind::ConstNode => seq!["const"@, "node"@],
    }
}

/// The kind of a declaration is the one that its words spell.
pub proof fn law_declaration_kinds_are_spelled(g: Input, p: int)
    ensures
        match slot_kind(g, p) {
            Part::Read((kind, _), q) => {
                &&& q == p + slot_words(kind).len()
                &&& forall|i: int|
                    p <= i < q ==> (#[trigger] g.token(i)) is Some && g.token(i)->0.label() == slot_words(kind)[i - p]
            },
            Part::Refused(_) => true,
        },
{
    reveal(Token::label);
}

/// The word that a type without parts is written with.
pub open spec fn type_text(kind: TypeExprKind) -> Option<Seq<char>> {
    match kind {
        TypeExprKind::Dimensionless => Some("Dimensionless"@),
        TypeExprKind::Bool => Some("Bool"@),
        TypeExprKind::Int => Some("Int"@),
        TypeExprKind::Datetime => Some("Datetime"@),
        _ => None,
    }
}

/// A type without parts is the one that its word spells.
pub proof fn law_types_are_spelled(g: Input, p: int, d: nat, q: int, kind: TypeExprKind)
    requires
        base_type(g, p, d) == Parse::Read(kind.to_term(Reading::Exact), q),
    ensures
        type_text(kind) is Some ==> q == p + 1 && type_text(kind) == Some(g.text(p)),
{
}

/// Whether some bytes are those of a token.
pub open spec fn is_spelled(token: Token, bytes: Seq<u8>) -> bool {
    match token {
        Token::Ident => bytes.len() > 0 && is_word_start(bytes[0]),
        Token::Number => bytes.len() > 0 && is_digit(bytes[0]),
        Token::StringLiteral => bytes.len() > 1 && bytes[0] == 34 && bytes.last() == 34,
        Token::Unknown => bytes.len() == 1,
        _ => match mark_bytes(token) {
            Some(mark) => bytes == mark,
            None => bytes == encode_utf8(token.label()),
        },
    }
}

#[verifier::rlimit(100)]
proof fn lemma_word(w: Seq<u8>)
    ensures
        word_token(w) == Token::Ident || (mark_bytes(word_token(w)) is None && !(word_token(w) is Number)
            && !(word_token(w) is StringLiteral) && !(word_token(w) is Unknown) && w == encode_utf8(
            word_token(w).label(),
        )),
{
    reveal(Token::label);
}

proof fn lemma_number_end(bytes: Seq<u8>, p: int)
    requires
        0 <= p < bytes.len(),
        is_digit(bytes[p]),
    ensures
        p < number_end(bytes, p) <= bytes.len(),
{
    let digits = |b: u8| is_digit_or_separator(b);
    lemma_run_end(bytes, p, digits);
    let whole = run_end(bytes, p, digits);
    lemma_run_end(bytes, whole + 1, digits);
    lemma_run_end(bytes, whole, digits);
    let mantissa = if whole + 1 < bytes.len() && bytes[whole] == 46 && is_digit(bytes[whole + 1]) {
        run_end(bytes, whole + 1, digits)
    } else {
        whole
    };
    lemma_run_end(bytes, mantissa + 1, digits);
    lemma_run_end(bytes, mantissa + 2, digits);
}

/// A token is written with the bytes that stand where it is.
pub proof fn law_tokens_are_spelled(bytes: Seq<u8>, p: int)
    requires
        0 <= p < bytes.len(),
    ensures
        ({
            let (token, end) = token_from(bytes, p);
            &&& p < end <= bytes.len()
            &&& is_spelled(token, bytes.subrange(p, end))
        }),
{
    let a = bytes[p];
    let (token, end) = token_from(bytes, p);
    let part = bytes.subrange(p, end);
    if is_word_start(a) {
        lemma_run_end(bytes, p, |b: u8| is_word(b));
        lemma_word(part);
        assert(part[0] == a);
    } else if is_digit(a) {
        lemma_number_end(bytes, p);
        assert(part[0] == a);
    } else if a == 34 {
        lemma_run_end(bytes, p + 1, |b: u8| b != 34 && !is_line_end(b));
        if token is StringLiteral {
            assert(part[0] == 34 && part.last() == 34);
        }
    } else if p + 1 < bytes.len() && pair_token(a, bytes[p + 1]) is Some {
        assert(part =~= seq![a, bytes[p + 1]]);
    } else {
        assert(part =~= seq![a]);
    }
}

/// Every token of a text is written with the bytes that stand where it is.
pub proof fn law_text_is_spelled(bytes: Seq<u8>, p: int, i: int)
    requires
        0 <= p <= bytes.len() <= usize::MAX,
        0 <= i < lexemes_from(bytes, p).len(),
    ensures
        ({
            let lexeme = lexemes_from(bytes, p)[i];
            let end = lexeme.span.offset + lexeme.span.len;
            &&& end <= bytes.len()
            &&& is_spelled(lexeme.token, bytes.subrange(lexeme.span.offset as int, end))
        }),
    decreases i,
{
    let start = trivia_end(bytes, p);
    lemma_trivia_end(bytes, p);
    law_tokens_are_spelled(bytes, start);
    let (token, end) = token_from(bytes, start);
    let rest = lexemes_from(bytes, end);
    if i > 0 {
        law_text_is_spelled(bytes, end, i - 1);
        assert(lexemes_from(bytes, p)[i] == rest[i - 1]);
    }
}

} // verus!
