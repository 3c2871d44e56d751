//! Looking ahead in the bytes of the source.

use crate::syntax::lexer::{line_end, scan_ascii_ident, skip_ws_and_line_comments};
use crate::syntax::parser::grammar::{
    closed_before, generic_args_followed_by, named_args_at, tuple_key_at, tuple_key_from,
};
use crate::syntax::parser::state::Parser;
use crate::syntax::token::Token;
use vstd::prelude::*;

verus! {

impl Parser {
    /// The byte behind the token at a place, where it lies inside the source.
    fn behind(&self, p: usize) -> (r: Option<usize>)
        ensures
            r is Some == (self@.span(p as int).offset + self@.span(p as int).len <= self@.bytes.len()),
            r is Some ==> r->0 == self@.span(p as int).offset + self@.span(p as int).len,
    {
        let span = self.span(p);
        let n = self.source_len();
        if span.len <= n && span.offset <= n - span.len {
            Some(span.offset + span.len)
        } else {
            None
        }
    }

    /// Whether the `<` at a place opens generic arguments that `expected`
    /// follows.
    pub(crate) fn are_generic_args_followed_by(&self, p: usize, expected: u8) -> (r: bool)
        ensures
            r == generic_args_followed_by(self@, p as int, expected),
    {
        if !self.is(p, Token::Lt) {
            return false;
        }
        let bytes = self.source.as_str().as_bytes();
        let start = match self.behind(p) {
            Some(start) => start,
            None => {
                return false;
            },
        };
        let mut pos: usize = start;
        let mut depth: u128 = 1;
        let n: usize = bytes.len();
        assert(n == bytes@.len());
        while pos < bytes.len()
            invariant
                bytes@ == self@.bytes,
                self@.is(p as int, Token::Lt),
                start == self@.span(p as int).offset + self@.span(p as int).len,
                pos <= bytes@.len(),
                1 <= depth <= pos + 1,
                bytes@.len() <= usize::MAX,
                closed_before(self@, start as int, 1, expected) == closed_before(
                    self@,
                    pos as int,
                    depth as int,
                    expected,
                ),
            decreases bytes@.len() - pos,
        {
            let b: u8 = bytes[pos];
            if b == 60 {
                depth = depth + 1;
                pos = pos + 1;
            } else if b == 62 {
                if depth == 1 {
                    let q = skip_ws_and_line_comments(bytes, pos + 1);
                    return q < bytes.len() && bytes[q] == expected;
                }
                depth = depth - 1;
                pos = pos + 1;
            } else if b == 47 && bytes.len() - pos > 1 && bytes[pos + 1] == 47 {
                pos = line_end(bytes, pos);
            } else if b == 38 || b == 124 || b == 59 || b == 61 || b == 123 || b == 125 || b == 34 || b == 64
                || b == 33 {
                return false;
            } else {
                pos = pos + 1;
            }
        }
        false
    }

    /// Whether `<...>` at a place is followed by `(`.
    pub(crate) fn is_generic_args_followed_by_paren(&self, p: usize) -> (r: bool)
        ensures
            r == generic_args_followed_by(self@, p as int, 40),
    {
        self.are_generic_args_followed_by(p, 40)
    }

    /// Whether `(` at a place opens a tuple of names that `=>` follows.
    pub(crate) fn is_tuple_key_sugar(&self, p: usize) -> (r: bool)
        ensures
            r == tuple_key_at(self@, p as int),
    {
        if !self.is(p, Token::LParen) {
            return false;
        }
        let bytes = self.source.as_str().as_bytes();
        let start = match self.behind(p) {
            Some(start) => start,
            None => {
                proof {
                    crate::syntax::lexer::lemma_trivia_end(
                        self@.bytes,
                        self@.span(p as int).offset + self@.span(p as int).len,
                    );
                }
                return false;
            },
        };
        let mut pos: usize = start;
        loop
            invariant
                bytes@ == self@.bytes,
                self@.is(p as int, Token::LParen),
                start == self@.span(p as int).offset + self@.span(p as int).len,
                pos <= bytes@.len(),
                tuple_key_from(self@, start as int) == tuple_key_from(self@, pos as int),
            decreases bytes@.len() - pos,
        {
            let word = skip_ws_and_line_comments(bytes, pos);
            if word >= bytes.len() {
                return false;
            }
            if bytes[word] == 41 {
                let q = skip_ws_and_line_comments(bytes, word + 1);
                return q < bytes.len() && bytes.len() - q > 1 && bytes[q] == 61 && bytes[q + 1] == 62;
            }
            let end = match scan_ascii_ident(bytes, word) {
                Some(end) => end,
                None => {
                    return false;
                },
            };
            let next = skip_ws_and_line_comments(bytes, end);
            if next >= bytes.len() {
                return false;
            }
            if bytes[next] == 44 {
                pos = next + 1;
            } else if bytes[next] != 41 {
                return false;
            } else {
                pos = next;
            }
        }
    }

    /// Whether `(` at a place opens named arguments: a name and a single `:`.
    pub(crate) fn is_named_arg_call(&self, p: usize) -> (r: bool)
        ensures
            r == named_args_at(self@, p as int),
    {
        if !self.is(p, Token::LParen) {
            return false;
        }
        let bytes = self.source.as_str().as_bytes();
        let start = match self.behind(p) {
            Some(start) => start,
            None => {
                proof {
                    crate::syntax::lexer::lemma_trivia_end(
                        self@.bytes,
                        self@.span(p as int).offset + self@.span(p as int).len,
                    );
                }
                return false;
            },
        };
        let word = skip_ws_and_line_comments(bytes, start);
        if word >= bytes.len() {
            return false;
        }
        let end = match scan_ascii_ident(bytes, word) {
            Some(end) => end,
            None => {
                return false;
            },
        };
        let next = skip_ws_and_line_comments(bytes, end);
        if next >= bytes.len() {
            return false;
        }
        bytes[next] == 58 && !(bytes.len() - next > 1 && bytes[next + 1] == 58)
    }
}

} // verus!
