//! Why source text does not parse.

use crate::syntax::span::Span;
use crate::syntax::term::{node1, node2, node3, node4, Tag, Term};
use vstd::prelude::*;

verus! {

/// Why source text does not parse, and where.
#[derive(Debug)]
pub enum ParseError {
    UnexpectedToken { expected: String, found: String, span: Span },
    UnexpectedEof { expected: String, span: Span },
    UnknownToken { span: Span },
    TooDeeplyNested { span: Span },
    InvalidNumber { reason: String, span: Span },
    UnitReferenceTooDeep { span: Span },
    DuplicateDagBinding { name: String, span: Span },
    InlineDagCallMissingProjection { span: Span },
    ExpectedIndexFoundNat { expression: String, suggestion: String, span: Span },
    TableRowLengthMismatch { expected: u64, got: u64, span: Span },
    MultiDeclSingleSlot { span: Span },
    MultiDeclTupleArity { slot_count: usize, tuple_count: usize, span: Span },
    MultiDeclNoSharedAxis { span: Span },
    MultiDeclUnsupportedShape { reason: String, span: Span },
    MultiDeclHeaderArity { slot_count: usize, header_count: usize, span: Span },
    MultiDeclRowArity { expected_count: usize, got: usize, row_label: String, span: Span },
}

impl ParseError {
    /// The error as a term.
    #[verifier::opaque]
    pub open spec fn to_term(self) -> Term {
        match self {
            ParseError::UnexpectedToken { expected, found, span } => unexpected(expected@, found@, span),
            ParseError::UnexpectedEof { expected, span } => node2(
                Tag::UnexpectedEof,
                Term::Text(expected@),
                Term::At(span),
            ),
            ParseError::UnknownToken { span } => node1(Tag::UnknownToken, Term::At(span)),
            ParseError::TooDeeplyNested { span } => node1(Tag::TooDeeplyNested, Term::At(span)),
            ParseError::InvalidNumber { reason, span } => invalid_number(reason@, span),
            ParseError::UnitReferenceTooDeep { span } => node1(Tag::UnitReferenceTooDeep, Term::At(span)),
            ParseError::DuplicateDagBinding { name, span } => node2(
                Tag::DuplicateDagBinding,
                Term::Text(name@),
                Term::At(span),
            ),
            ParseError::InlineDagCallMissingProjection { span } => node1(
                Tag::InlineDagCallMissingProjection,
                Term::At(span),
            ),
            ParseError::ExpectedIndexFoundNat { expression, suggestion, span } => node3(
                Tag::ExpectedIndexFoundNat,
                Term::Text(expression@),
                Term::Text(suggestion@),
                Term::At(span),
            ),
            ParseError::TableRowLengthMismatch { expected, got, span } => row_length_mismatch(
                expected as int,
                got as int,
                span,
            ),
            ParseError::MultiDeclTupleArity { slot_count, tuple_count, span } => node3(
                Tag::MultiDeclTupleArity,
                Term::Int(slot_count as int),
                Term::Int(tuple_count as int),
                Term::At(span),
            ),
            ParseError::MultiDeclSingleSlot { span } => node1(Tag::MultiDeclSingleSlot, Term::At(span)),
            ParseError::MultiDeclNoSharedAxis { span } => node1(Tag::MultiDeclNoSharedAxis, Term::At(span)),
            ParseError::MultiDeclUnsupportedShape { reason, span } => unsupported_shape(reason@, span),
            ParseError::MultiDeclHeaderArity { slot_count, header_count, span } => header_arity(
                slot_count as int,
                header_count as int,
                span,
            ),
            ParseError::MultiDeclRowArity { expected_count, got, row_label, span } => node4(
                Tag::MultiDeclRowArity,
                Term::Int(expected_count as int),
                Term::Int(got as int),
                Term::Text(row_label@),
                Term::At(span),
            ),
        }
    }
}

impl ParseError {
    pub(crate) fn unexpected(expected: String, found: String, span: Span) -> (r: ParseError)
        ensures
            r.to_term() == unexpected(expected@, found@, span),
    {
        proof {
            reveal(ParseError::to_term);
        }
        ParseError::UnexpectedToken { expected, found, span }
    }

    pub(crate) fn eof(expected: String, span: Span) -> (r: ParseError)
        ensures
            r.to_term() == node2(Tag::UnexpectedEof, Term::Text(expected@), Term::At(span)),
    {
        proof {
            reveal(ParseError::to_term);
        }
        ParseError::UnexpectedEof { expected, span }
    }

    pub(crate) fn unknown(span: Span) -> (r: ParseError)
        ensures
            r.to_term() == node1(Tag::UnknownToken, Term::At(span)),
    {
        proof {
            reveal(ParseError::to_term);
        }
        ParseError::UnknownToken { span }
    }

    pub(crate) fn too_deep(span: Span) -> (r: ParseError)
        ensures
            r.to_term() == node1(Tag::TooDeeplyNested, Term::At(span)),
    {
        proof {
            reveal(ParseError::to_term);
        }
        ParseError::TooDeeplyNested { span }
    }

    pub(crate) fn invalid_number(reason: String, span: Span) -> (r: ParseError)
        ensures
            r.to_term() == invalid_number(reason@, span),
    {
        proof {
            reveal(ParseError::to_term);
        }
        ParseError::InvalidNumber { reason, span }
    }

    pub(crate) fn unit_too_deep(span: Span) -> (r: ParseError)
        ensures
            r.to_term() == node1(Tag::UnitReferenceTooDeep, Term::At(span)),
    {
        proof {
            reveal(ParseError::to_term);
        }
        ParseError::UnitReferenceTooDeep { span }
    }

    pub(crate) fn duplicate_binding(name: String, span: Span) -> (r: ParseError)
        ensures
            r.to_term() == node2(Tag::DuplicateDagBinding, Term::Text(name@), Term::At(span)),
    {
        proof {
            reveal(ParseError::to_term);
        }
        ParseError::DuplicateDagBinding { name, span }
    }

    pub(crate) fn missing_projection(span: Span) -> (r: ParseError)
        ensures
            r.to_term() == node1(Tag::InlineDagCallMissingProjection, Term::At(span)),
    {
        proof {
            reveal(ParseError::to_term);
        }
        ParseError::InlineDagCallMissingProjection { span }
    }

    pub(crate) fn found_nat(expression: String, suggestion: String, span: Span) -> (r: ParseError)
        ensures
            r.to_term() == node3(
                Tag::ExpectedIndexFoundNat,
                Term::Text(expression@),
                Term::Text(suggestion@),
                Term::At(span),
            ),
    {
        proof {
            reveal(ParseError::to_term);
        }
        ParseError::ExpectedIndexFoundNat { expression, suggestion, span }
    }

    pub(crate) fn row_length(expected: u64, got: u64, span: Span) -> (r: ParseError)
        ensures
            r.to_term() == row_length_mismatch(expected as int, got as int, span),
    {
        proof {
            reveal(ParseError::to_term);
        }
        ParseError::TableRowLengthMismatch { expected, got, span }
    }

    pub(crate) fn tuple_arity(slot_count: usize, tuple_count: usize, span: Span) -> (r: ParseError)
        ensures
            r.to_term() == node3(
                Tag::MultiDeclTupleArity,
                Term::Int(slot_count as int),
                Term::Int(tuple_count as int),
                Term::At(span),
            ),
    {
        proof {
            reveal(ParseError::to_term);
        }
        ParseError::MultiDeclTupleArity { slot_count, tuple_count, span }
    }

    pub(crate) fn single_slot(span: Span) -> (r: ParseError)
        ensures
            r.to_term() == node1(Tag::MultiDeclSingleSlot, Term::At(span)),
    {
        proof {
            reveal(ParseError::to_term);
        }
        ParseError::MultiDeclSingleSlot { span }
    }

    pub(crate) fn no_shared_axis(span: Span) -> (r: ParseError)
        ensures
            r.to_term() == node1(Tag::MultiDeclNoSharedAxis, Term::At(span)),
    {
        proof {
            reveal(ParseError::to_term);
        }
        ParseError::MultiDeclNoSharedAxis { span }
    }

    pub(crate) fn unsupported(reason: String, span: Span) -> (r: ParseError)
        ensures
            r.to_term() == unsupported_shape(reason@, span),
    {
        proof {
            reveal(ParseError::to_term);
        }
        ParseError::MultiDeclUnsupportedShape { reason, span }
    }

    pub(crate) fn header_count(slot_count: usize, header_count: usize, span: Span) -> (r: ParseError)
        ensures
            r.to_term() == header_arity(slot_count as int, header_count as int, span),
    {
        proof {
            reveal(ParseError::to_term);
        }
        ParseError::MultiDeclHeaderArity { slot_count, header_count, span }
    }

    pub(crate) fn row_arity(expected_count: usize, got: usize, row_label: String, span: Span) -> (r: ParseError)
        ensures
            r.to_term() == node4(
                Tag::MultiDeclRowArity,
                Term::Int(expected_count as int),
                Term::Int(got as int),
                Term::Text(row_label@),
                Term::At(span),
            ),
    {
        proof {
            reveal(ParseError::to_term);
        }
        ParseError::MultiDeclRowArity { expected_count, got, row_label, span }
    }
}

/// A token stands where another was expected.
pub open spec fn unexpected(expected: Seq<char>, found: Seq<char>, span: Span) -> Term {
    node3(Tag::UnexpectedToken, Term::Text(expected), Term::Text(found), Term::At(span))
}

/// A number that cannot be taken.
pub open spec fn invalid_number(reason: Seq<char>, span: Span) -> Term {
    node2(Tag::InvalidNumber, Term::Text(reason), Term::At(span))
}

/// A table row, or a table, of the wrong length.
pub open spec fn row_length_mismatch(expected: int, got: int, span: Span) -> Term {
    node3(Tag::TableRowLengthMismatch, Term::Int(expected), Term::Int(got), Term::At(span))
}

/// A multi-declaration of a shape that is not supported.
pub open spec fn unsupported_shape(reason: Seq<char>, span: Span) -> Term {
    node2(Tag::MultiDeclUnsupportedShape, Term::Text(reason), Term::At(span))
}

/// A header row with the wrong number of cells.
pub open spec fn header_arity(slot_count: int, header_count: int, span: Span) -> Term {
    node3(Tag::MultiDeclHeaderArity, Term::Int(slot_count), Term::Int(header_count), Term::At(span))
}

} // verus!
