//! What is said about source text that does not parse.

use crate::syntax::parser::error::ParseError;
use crate::syntax::text::{decimal, decimal_string};
use vstd::prelude::*;
use vstd::string::StringExecFns;

verus! {

impl ParseError {
    /// The message.
    pub open spec fn text(self) -> Seq<char> {
        match self {
            ParseError::UnexpectedToken {
                expected,
                found,
                span,
            } => "expected "@ + expected@ + ", found `"@ + found@ + "`"@,
            ParseError::UnexpectedEof {
                expected,
                span,
            } => "expected "@ + expected@ + ", found the end of the input"@,
            ParseError::UnknownToken { span } => "unknown token"@,
            ParseError::TooDeeplyNested { span } => "expression is nested too deeply"@,
            ParseError::InvalidNumber { reason, span } => "invalid number: "@ + reason@,
            ParseError::UnitReferenceTooDeep { span } => "a unit reference has at most one qualifier"@,
            ParseError::DuplicateDagBinding { name, span } => "`"@ + name@ + "` is bound twice"@,
            ParseError::InlineDagCallMissingProjection { span } => "an inline DAG call needs an output: write `.name` behind it"@,
            ParseError::ExpectedIndexFoundNat {
                expression,
                suggestion,
                span,
            } => "expected an index, found natural number `"@ + expression@ + "`; write `"@ + suggestion@ + "`"@,
            ParseError::TableRowLengthMismatch { expected, got, span } => "expected "@ + decimal(expected as nat) + " table value(s), got "@ + decimal(got as nat),
            ParseError::MultiDeclTupleArity {
                slot_count,
                tuple_count,
                span,
            } => "there are "@ + decimal(slot_count as nat) + " slot(s), but "@ + decimal(tuple_count as nat) + " in the slot tuple"@,
            ParseError::MultiDeclSingleSlot { span } => "a multi-declaration needs two slots or more"@,
            ParseError::MultiDeclNoSharedAxis { span } => "a multi-declaration needs a shared axis"@,
            ParseError::MultiDeclUnsupportedShape { reason, span } => "unsupported multi-declaration: "@ + reason@,
            ParseError::MultiDeclHeaderArity {
                slot_count,
                header_count,
                span,
            } => "the header row has "@ + decimal(header_count as nat) + " cell(s) for "@ + decimal(slot_count as nat) + " slot(s)"@,
            ParseError::MultiDeclRowArity {
                expected_count,
                got,
                row_label,
                span,
            } => "row `"@ + row_label@ + "` has "@ + decimal(got as nat) + " value(s), expected "@ + decimal(expected_count as nat),
        }
    }

    /// The message.
    pub fn message(&self) -> (r: String)
        ensures
            r@ == self.text(),
    {
        match self {
            ParseError::UnexpectedToken { expected, found, span } => {
                let mut text: String = "expected ".to_owned();
                text.append(expected.as_str());
                text.append(", found `");
                text.append(found.as_str());
                text.append("`");
                text
            },
            ParseError::UnexpectedEof { expected, span } => {
                let mut text: String = "expected ".to_owned();
                text.append(expected.as_str());
                text.append(", found the end of the input");
                text
            },
            ParseError::UnknownToken { span } => "unknown token".to_owned(),
            ParseError::TooDeeplyNested { span } => "expression is nested too deeply".to_owned(),
            ParseError::InvalidNumber { reason, span } => {
                let mut text: String = "invalid number: ".to_owned();
                text.append(reason.as_str());
                text
            },
            ParseError::UnitReferenceTooDeep { span } => "a unit reference has at most one qualifier".to_owned(),
            ParseError::DuplicateDagBinding { name, span } => {
                let mut text: String = "`".to_owned();
                text.append(name.as_str());
                text.append("` is bound twice");
                text
            },
            ParseError::InlineDagCallMissingProjection { span } => "an inline DAG call needs an output: write `.name` behind it".to_owned(),
            ParseError::ExpectedIndexFoundNat { expression, suggestion, span } => {
                let mut text: String = "expected an index, found natural number `".to_owned();
                text.append(expression.as_str());
                text.append("`; write `");
                text.append(suggestion.as_str());
                text.append("`");
                text
            },
            ParseError::TableRowLengthMismatch { expected, got, span } => {
                let mut text: String = "expected ".to_owned();
                text.append(decimal_string(*expected as u64).as_str());
                text.append(" table value(s), got ");
                text.append(decimal_string(*got as u64).as_str());
                text
            },
            ParseError::MultiDeclTupleArity { slot_count, tuple_count, span } => {
                let mut text: String = "there are ".to_owned();
                text.append(decimal_string(*slot_count as u64).as_str());
                text.append(" slot(s), but ");
                text.append(decimal_string(*tuple_count as u64).as_str());
                text.append(" in the slot tuple");
                text
            },
            ParseError::MultiDeclSingleSlot { span } => "a multi-declaration needs two slots or more".to_owned(),
            ParseError::MultiDeclNoSharedAxis { span } => "a multi-declaration needs a shared axis".to_owned(),
            ParseError::MultiDeclUnsupportedShape { reason, span } => {
                let mut text: String = "unsupported multi-declaration: ".to_owned();
                text.append(reason.as_str());
                text
            },
            ParseError::MultiDeclHeaderArity { slot_count, header_count, span } => {
                let mut text: String = "the header row has ".to_owned();
                text.append(decimal_string(*header_count as u64).as_str());
                text.append(" cell(s) for ");
                text.append(decimal_string(*slot_count as u64).as_str());
                text.append(" slot(s)");
                text
            },
            ParseError::MultiDeclRowArity { expected_count, got, row_label, span } => {
                let mut text: String = "row `".to_owned();
                text.append(row_label.as_str());
                text.append("` has ");
                text.append(decimal_string(*got as u64).as_str());
                text.append(" value(s), expected ");
                text.append(decimal_string(*expected_count as u64).as_str());
                text
            },
        }
    }
}

} // verus!
