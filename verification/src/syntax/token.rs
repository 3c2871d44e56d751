//! Tokens of the surface language.

use crate::syntax::span::Span;
use vstd::prelude::*;

verus! {

/// A word that is special only in some places and an identifier elsewhere.
#[derive(Clone, Copy, Debug, PartialEq, Eq, Structural)]
pub enum ContextualKeyword {
    Scan,
    Unfold,
    Key,
    FinKey,
    FloorKey,
    CeilKey,
    NearestKey,
    Fin,
    Range,
    Linspace,
    Step,
    Points,
}

/// The kind of a lexeme.
#[derive(Clone, Copy, Debug, PartialEq, Eq, Structural)]
pub enum Token {
    Ident,
    ContextualKeyword(ContextualKeyword),
    Number,
    StringLiteral,
    Param,
    Node,
    Const,
    Index,
    Type,
    Base,
    Dim,
    Unit,
    Pub,
    Import,
    As,
    Table,
    For,
    Match,
    If,
    Else,
    True,
    False,
    Underscore,
    Arrow,
    FatArrow,
    EqEq,
    BangEq,
    LtEq,
    GtEq,
    AmpAmp,
    PipePipe,
    Plus,
    Minus,
    Star,
    Slash,
    Percent,
    Caret,
    Eq,
    Lt,
    Gt,
    Bang,
    At,
    Hash,
    Pipe,
    LParen,
    RParen,
    LBracket,
    RBracket,
    LBrace,
    RBrace,
    Comma,
    Colon,
    Semicolon,
    Dot,
    /// Text that begins no token.
    Unknown,
}

/// A token and where it stands.
#[derive(Clone, Copy, Debug, PartialEq, Eq, Structural)]
pub struct Lexeme {
    pub token: Token,
    pub span: Span,
}

impl Token {
    /// Whether the token can be used as a name.
    pub open spec fn names(self) -> bool {
        self == Token::Ident || self is ContextualKeyword
    }

    pub fn is_identifier(&self) -> (r: bool)
        ensures
            r == self.names(),
    {
        match self {
            Token::Ident => true,
            Token::ContextualKeyword(_) => true,
            _ => false,
        }
    }

    /// How the token is named in messages.
    #[verifier::opaque]
    pub open spec fn label(self) -> Seq<char> {
        match self {
            Token::Ident => "identifier"@,
            Token::Number => "number"@,
            Token::StringLiteral => "string literal"@,
            Token::Param => "param"@,
            Token::Node => "node"@,
            Token::Const => "const"@,
            Token::Index => "index"@,
            Token::Type => "type"@,
            Token::Base => "base"@,
            Token::Dim => "dim"@,
            Token::Unit => "unit"@,
            Token::Pub => "pub"@,
            Token::Import => "import"@,
            Token::As => "as"@,
            Token::Table => "table"@,
            Token::For => "for"@,
            Token::Match => "match"@,
            Token::If => "if"@,
            Token::Else => "else"@,
            Token::True => "true"@,
            Token::False => "false"@,
            Token::Underscore => "_"@,
            Token::Arrow => "->"@,
            Token::FatArrow => "=>"@,
            Token::EqEq => "=="@,
            Token::BangEq => "!="@,
            Token::LtEq => "<="@,
            Token::GtEq => ">="@,
            Token::AmpAmp => "&&"@,
            Token::PipePipe => "||"@,
            Token::Plus => "+"@,
            Token::Minus => "-"@,
            Token::Star => "*"@,
            Token::Slash => "/"@,
            Token::Percent => "%"@,
            Token::Caret => "^"@,
            Token::Eq => "="@,
            Token::Lt => "<"@,
            Token::Gt => ">"@,
            Token::Bang => "!"@,
            Token::At => "@"@,
            Token::Hash => "#"@,
            Token::Pipe => "|"@,
            Token::LParen => "("@,
            Token::RParen => ")"@,
            Token::LBracket => "["@,
            Token::RBracket => "]"@,
            Token::LBrace => "{"@,
            Token::RBrace => "}"@,
            Token::Comma => ","@,
            Token::Colon => ":"@,
            Token::Semicolon => ";"@,
            Token::Dot => "."@,
            Token::Unknown => "unknown token"@,
            Token::ContextualKeyword(ContextualKeyword::Scan) => "scan"@,
            Token::ContextualKeyword(ContextualKeyword::Unfold) => "unfold"@,
            Token::ContextualKeyword(ContextualKeyword::Key) => "key"@,
            Token::ContextualKeyword(ContextualKeyword::FinKey) => "fin_key"@,
            Token::ContextualKeyword(ContextualKeyword::FloorKey) => "floor_key"@,
            Token::ContextualKeyword(ContextualKeyword::CeilKey) => "ceil_key"@,
            Token::ContextualKeyword(ContextualKeyword::NearestKey) => "nearest_key"@,
            Token::ContextualKeyword(ContextualKeyword::Fin) => "Fin"@,
            Token::ContextualKeyword(ContextualKeyword::Range) => "range"@,
            Token::ContextualKeyword(ContextualKeyword::Linspace) => "linspace"@,
            Token::ContextualKeyword(ContextualKeyword::Step) => "step"@,
            Token::ContextualKeyword(ContextualKeyword::Points) => "points"@,
        }
    }

    /// The name of the token in messages.
    pub fn to_str(&self) -> (r: &'static str)
        ensures
            r@ == self.label(),
    {
        proof {
            reveal(Token::label);
        }
        match self {
            Token::Ident => "identifier",
            Token::Number => "number",
            Token::StringLiteral => "string literal",
            Token::Param => "param",
            Token::Node => "node",
            Token::Const => "const",
            Token::Index => "index",
            Token::Type => "type",
            Token::Base => "base",
            Token::Dim => "dim",
            Token::Unit => "unit",
            Token::Pub => "pub",
            Token::Import => "import",
            Token::As => "as",
            Token::Table => "table",
            Token::For => "for",
            Token::Match => "match",
            Token::If => "if",
            Token::Else => "else",
            Token::True => "true",
            Token::False => "false",
            Token::Underscore => "_",
            Token::Arrow => "->",
            Token::FatArrow => "=>",
            Token::EqEq => "==",
            Token::BangEq => "!=",
            Token::LtEq => "<=",
            Token::GtEq => ">=",
            Token::AmpAmp => "&&",
            Token::PipePipe => "||",
            Token::Plus => "+",
            Token::Minus => "-",
            Token::Star => "*",
            Token::Slash => "/",
            Token::Percent => "%",
            Token::Caret => "^",
            Token::Eq => "=",
            Token::Lt => "<",
            Token::Gt => ">",
            Token::Bang => "!",
            Token::At => "@",
            Token::Hash => "#",
            Token::Pipe => "|",
            Token::LParen => "(",
            Token::RParen => ")",
            Token::LBracket => "[",
            Token::RBracket => "]",
            Token::LBrace => "{",
            Token::RBrace => "}",
            Token::Comma => ",",
            Token::Colon => ":",
            Token::Semicolon => ";",
            Token::Dot => ".",
            Token::Unknown => "unknown token",
            Token::ContextualKeyword(ContextualKeyword::Scan) => "scan",
            Token::ContextualKeyword(ContextualKeyword::Unfold) => "unfold",
            Token::ContextualKeyword(ContextualKeyword::Key) => "key",
            Token::ContextualKeyword(ContextualKeyword::FinKey) => "fin_key",
            Token::ContextualKeyword(ContextualKeyword::FloorKey) => "floor_key",
            Token::ContextualKeyword(ContextualKeyword::CeilKey) => "ceil_key",
            Token::ContextualKeyword(ContextualKeyword::NearestKey) => "nearest_key",
            Token::ContextualKeyword(ContextualKeyword::Fin) => "Fin",
            Token::ContextualKeyword(ContextualKeyword::Range) => "range",
            Token::ContextualKeyword(ContextualKeyword::Linspace) => "linspace",
            Token::ContextualKeyword(ContextualKeyword::Step) => "step",
            Token::ContextualKeyword(ContextualKeyword::Points) => "points",
        }
    }
}

} // verus!
