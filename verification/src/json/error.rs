//! Why JSON gives no parameter values.

use crate::syntax::parser::error::ParseError;
use crate::syntax::term::Term;
use crate::syntax::text::{decimal, decimal_string, joined};
use vstd::prelude::*;
use vstd::string::StringExecFns;

verus! {

/// A step into a JSON value.
#[derive(Debug, Clone, PartialEq, Eq)]
pub enum JsonPathSegment {
    ObjectKey(String),
    ArrayIndex(usize),
}

/// A place in a JSON value.
#[derive(Debug, Clone, PartialEq, Eq)]
pub struct JsonPath {
    pub segments: Vec<JsonPathSegment>,
}

/// A step into a JSON value.
pub enum Step {
    Key(Seq<char>),
    Index(nat),
}

pub open spec fn step_of(segment: JsonPathSegment) -> Step {
    match segment {
        JsonPathSegment::ObjectKey(key) => Step::Key(key@),
        JsonPathSegment::ArrayIndex(index) => Step::Index(index as nat),
    }
}

impl View for JsonPath {
    type V = Seq<Step>;

    open spec fn view(&self) -> Seq<Step> {
        Seq::new(self.segments@.len(), |i: int| step_of(self.segments@[i]))
    }
}

/// A text as `std` writes it for debugging: between quotes, with what is
/// special escaped.
pub uninterp spec fn debug_text(text: Seq<char>) -> Seq<char>;

/// Trusted: the `Debug` form of a string. It depends on the string alone.
#[verifier::external_body]
pub(crate) fn debug_string(text: &str) -> (r: String)
    ensures
        r@ == debug_text(text@),
{
    format!("{text:?}")
}

/// How a step is written.
pub open spec fn step_text(step: Step) -> Seq<char> {
    match step {
        Step::Key(key) => "["@ + debug_text(key) + "]"@,
        Step::Index(index) => "["@ + decimal(index) + "]"@,
    }
}

/// How the first `n` steps of a place are written.
pub open spec fn steps_text(steps: Seq<Step>, n: nat) -> Seq<char>
    decreases n,
{
    if n == 0 || n > steps.len() {
        "$"@
    } else {
        steps_text(steps, (n - 1) as nat) + step_text(steps[n - 1])
    }
}

impl JsonPath {
    /// The whole value.
    pub fn root() -> (r: JsonPath)
        ensures
            r@ == Seq::<Step>::empty(),
    {
        let r = JsonPath { segments: Vec::new() };
        assert(r@ =~= Seq::empty());
        r
    }

    pub fn copy(&self) -> (r: JsonPath)
        ensures
            r@ == self@,
    {
        let mut segments: Vec<JsonPathSegment> = Vec::new();
        for i in 0..self.segments.len()
            invariant
                segments@.len() == i,
                forall|j: int| 0 <= j < i ==> step_of(#[trigger] segments@[j]) == step_of(self.segments@[j]),
        {
            segments.push(
                match &self.segments[i] {
                    JsonPathSegment::ObjectKey(key) => JsonPathSegment::ObjectKey(key.clone()),
                    JsonPathSegment::ArrayIndex(index) => JsonPathSegment::ArrayIndex(*index),
                },
            );
        }
        let r = JsonPath { segments };
        assert(r@ =~= self@);
        r
    }

    /// The member of the object at this place.
    pub fn object_key(&self, key: &String) -> (r: JsonPath)
        ensures
            r@ == self@.push(Step::Key(key@)),
    {
        let mut r = self.copy();
        let ghost before = r@;
        r.segments.push(JsonPathSegment::ObjectKey(key.clone()));
        assert(r@ =~= before.push(Step::Key(key@)));
        r
    }

    /// The item of the array at this place.
    pub fn array_index(&self, index: usize) -> (r: JsonPath)
        ensures
            r@ == self@.push(Step::Index(index as nat)),
    {
        let mut r = self.copy();
        let ghost before = r@;
        r.segments.push(JsonPathSegment::ArrayIndex(index));
        assert(r@ =~= before.push(Step::Index(index as nat)));
        r
    }

    /// The place in messages.
    pub fn display(&self) -> (r: String)
        ensures
            r@ == steps_text(self@, self@.len()),
    {
        let mut text: String = "$".to_owned();
        for i in 0..self.segments.len()
            invariant
                text@ == steps_text(self@, i as nat),
        {
            let inside = match &self.segments[i] {
                JsonPathSegment::ObjectKey(key) => debug_string(key.as_str()),
                JsonPathSegment::ArrayIndex(index) => decimal_string(*index as u64),
            };
            let opened = joined("[", inside.as_str());
            let step = joined(opened.as_str(), "]");
            assert(step@ == step_text(self@[i as int]));
            text.append(step.as_str());
        }
        text
    }
}

/// Why a number is not accepted.
#[derive(Clone, Copy, Debug, PartialEq, Eq, Structural)]
pub enum JsonNumberError {
    /// An integer outside the signed 64-bit range.
    IntegerOutOfRange,
    /// A decimal without a finite value.
    FloatOutOfRange,
    /// A decimal that is not zero but rounds to it.
    FloatUnderflow,
}

impl JsonNumberError {
    pub open spec fn text(self) -> Seq<char> {
        match self {
            JsonNumberError::IntegerOutOfRange => "integer is outside the signed 64-bit range"@,
            JsonNumberError::FloatOutOfRange => "decimal/exponent value is outside the finite binary64 range"@,
            JsonNumberError::FloatUnderflow => "nonzero decimal/exponent value underflows to binary64 zero"@,
        }
    }

    pub fn as_str(&self) -> (r: &'static str)
        ensures
            r@ == self.text(),
    {
        match self {
            JsonNumberError::IntegerOutOfRange => "integer is outside the signed 64-bit range",
            JsonNumberError::FloatOutOfRange => "decimal/exponent value is outside the finite binary64 range",
            JsonNumberError::FloatUnderflow => "nonzero decimal/exponent value underflows to binary64 zero",
        }
    }
}

/// Why a text is no name.
#[derive(Clone, Copy, Debug, PartialEq, Eq, Structural)]
pub enum NameAtomError {
    Empty,
    /// The text has a dot in it.
    PathSeparator,
}

/// Why JSON gives no parameter values.
#[derive(Debug)]
pub enum JsonInputError {
    /// The text is no JSON.
    Json { message: String },
    TopLevelNotObject,
    InvalidName { param: String, role: &'static str, value: String, reason: NameAtomError },
    /// A string is no expression.
    ParseFailed { param: String, source: Box<ParseError> },
    /// An object has a key twice.
    DuplicateKey { path: JsonPath, key: String },
    InvalidNumber { path: JsonPath, value: String, reason: JsonNumberError },
    EmptyRawValue,
    UnsupportedJsonType { param: String, kind: &'static str },
    /// `variant` is no string.
    InvalidVariant { param: String },
    /// `fields` is no object.
    InvalidFields { param: String },
    /// `type` is no string.
    InvalidType { param: String },
    /// There is `fields` without `type`.
    MissingTypeKey { param: String },
    /// `index` is no string.
    InvalidIndex { param: String },
    /// `entries` is no object.
    InvalidEntries { param: String },
    AmbiguousObject { param: String },
    ConflictingObjectKeys { param: String },
    UnknownObjectKey { param: String, key: String },
}

/// Why JSON gives no parameter values.
pub enum Fault {
    Json(Seq<char>),
    TopLevelNotObject,
    InvalidName { param: Seq<char>, role: Seq<char>, value: Seq<char>, reason: NameAtomError },
    ParseFailed(Seq<char>, Term),
    DuplicateKey(Seq<Step>, Seq<char>),
    InvalidNumber(Seq<Step>, Seq<char>, JsonNumberError),
    EmptyRawValue,
    UnsupportedJsonType(Seq<char>, Seq<char>),
    InvalidVariant(Seq<char>),
    InvalidFields(Seq<char>),
    InvalidType(Seq<char>),
    MissingTypeKey(Seq<char>),
    InvalidIndex(Seq<char>),
    InvalidEntries(Seq<char>),
    AmbiguousObject(Seq<char>),
    ConflictingObjectKeys(Seq<char>),
    UnknownObjectKey(Seq<char>, Seq<char>),
}

impl View for JsonInputError {
    type V = Fault;

    open spec fn view(&self) -> Fault {
        match *self {
            JsonInputError::Json { message } => Fault::Json(message@),
            JsonInputError::TopLevelNotObject => Fault::TopLevelNotObject,
            JsonInputError::InvalidName { param, role, value, reason } => Fault::InvalidName {
                param: param@,
                role: role@,
                value: value@,
                reason,
            },
            JsonInputError::ParseFailed { param, source } => Fault::ParseFailed(param@, source.to_term()),
            JsonInputError::DuplicateKey { path, key } => Fault::DuplicateKey(path@, key@),
            JsonInputError::InvalidNumber { path, value, reason } => Fault::InvalidNumber(path@, value@, reason),
            JsonInputError::EmptyRawValue => Fault::EmptyRawValue,
            JsonInputError::UnsupportedJsonType { param, kind } => Fault::UnsupportedJsonType(param@, kind@),
            JsonInputError::InvalidVariant { param } => Fault::InvalidVariant(param@),
            JsonInputError::InvalidFields { param } => Fault::InvalidFields(param@),
            JsonInputError::InvalidType { param } => Fault::InvalidType(param@),
            JsonInputError::MissingTypeKey { param } => Fault::MissingTypeKey(param@),
            JsonInputError::InvalidIndex { param } => Fault::InvalidIndex(param@),
            JsonInputError::InvalidEntries { param } => Fault::InvalidEntries(param@),
            JsonInputError::AmbiguousObject { param } => Fault::AmbiguousObject(param@),
            JsonInputError::ConflictingObjectKeys { param } => Fault::ConflictingObjectKeys(param@),
            JsonInputError::UnknownObjectKey { param, key } => Fault::UnknownObjectKey(param@, key@),
        }
    }
}

} // verus!
