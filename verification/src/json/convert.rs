//! From JSON values to expressions.

use crate::json::error::{Fault, JsonInputError, JsonPath, NameAtomError};
use crate::json::exact::{
    decimal_value, exact_value, parse_exact_value, DecimalValue, DecimalValues, ExactJsonEntry, ExactJsonNumber,
    ExactJsonObject, ExactJsonValue, Json, Member, RawJson,
};
use crate::syntax::ast::{
    Expr, FieldInit, GenericArg, Ident, IdentPath, IndexEntryKey, MapEntry, MapEntryIndex, MapEntryKey, NamePath,
};
use crate::syntax::lexer::lexemes_from;
use crate::syntax::names::{DeclName, FieldName, IndexVariantName, NameAtom};
use crate::syntax::non_empty::NonEmpty;
use crate::syntax::parser::decl_grammar::single_expression;
use crate::syntax::parser::grammar::{expr as expr_term, Input, Parse};
use crate::syntax::parser::nodes::{boolean, constructor_call, integer, map_literal, number};
use crate::syntax::parser::state::{lemma_non_empty_term, Parser};
use crate::syntax::desugar::discrete_key;
use crate::syntax::span::{Span, Spanned};
use crate::syntax::term::{node1, node2, node3, pair, prepend, seq_terms, DeepClone, Reading, Spans, Syntax, Tag, Term};
use crate::syntax::text::joined;
use crate::syntax::token::Token;
use vstd::prelude::*;
use vstd::string::{StrSliceExecFns, StringSliceAdditionalSpecFns};
use vstd::utf8::encode_utf8;

verus! {

/// The place of what stands in no source text.
pub open spec fn nowhere() -> Span {
    Span { offset: 0, len: 0 }
}

fn synth_span() -> (r: Span)
    ensures
        r == nowhere(),
{
    Span { offset: 0, len: 0 }
}

// Names.

/// Why a text is no name, if it is none.
pub open spec fn name_error(text: Seq<char>) -> Option<NameAtomError> {
    if text.len() == 0 {
        Some(NameAtomError::Empty)
    } else if text.contains('.') {
        Some(NameAtomError::PathSeparator)
    } else {
        None
    }
}

impl NameAtom {
    /// A text as a name.
    pub fn parse(text: &String) -> (r: Result<NameAtom, NameAtomError>)
        ensures
            match r {
                Ok(name) => name_error(text@) is None && name.text@ == text@,
                Err(reason) => name_error(text@) == Some(reason),
            },
    {
        let n = text.as_str().unicode_len();
        if n == 0 {
            return Err(NameAtomError::Empty);
        }
        for i in 0..n
            invariant
                n == text@.len(),
                forall|j: int| 0 <= j < i ==> text@[j] != '.',
        {
            if text.as_str().get_char(i) == '.' {
                assert(text@[i as int] == '.');
                return Err(NameAtomError::PathSeparator);
            }
        }
        Ok(NameAtom { text: text.clone() })
    }
}

/// The parts of a text between its dots, from `start` on, where there is no
/// dot from `start` up to `i`.
pub open spec fn dot_parts(text: Seq<char>, start: int, i: int) -> Seq<Seq<char>>
    decreases text.len() - i,
{
    if i >= text.len() {
        seq![text.subrange(start, text.len() as int)]
    } else if text[i] == '.' {
        seq![text.subrange(start, i)] + dot_parts(text, i + 1, i + 1)
    } else {
        dot_parts(text, start, i + 1)
    }
}

/// The names of a path.
pub open spec fn path_parts(text: Seq<char>) -> Seq<Seq<char>> {
    dot_parts(text, 0, 0)
}

/// Why a text is no path, if it is none.
pub open spec fn path_fault(text: Seq<char>, param: Seq<char>, role: Seq<char>) -> Option<Fault> {
    if exists|i: int| 0 <= i < path_parts(text).len() && (#[trigger] path_parts(text)[i]).len() == 0 {
        Some(Fault::InvalidName { param, role, value: text, reason: NameAtomError::Empty })
    } else {
        None
    }
}

fn split_dots(text: &String) -> (r: Vec<NameAtom>)
    ensures
        r@.len() > 0,
        r@.map_values(|name: NameAtom| name.text@) == path_parts(text@),
{
    let n = text.as_str().unicode_len();
    let mut parts: Vec<NameAtom> = Vec::new();
    let mut start: usize = 0;
    assert(parts@.map_values(|name: NameAtom| name.text@) + dot_parts(text@, 0, 0) =~= path_parts(text@));
    for i in 0..n
        invariant
            n == text@.len(),
            start <= i,
            parts@.map_values(|name: NameAtom| name.text@) + dot_parts(text@, start as int, i as int) == path_parts(
                text@,
            ),
    {
        if text.as_str().get_char(i) == '.' {
            let ghost before = parts@.map_values(|name: NameAtom| name.text@);
            let part = text.as_str().substring_char(start, i).to_owned();
            parts.push(NameAtom { text: part });
            proof {
                let part_text = text@.subrange(start as int, i as int);
                assert(parts@.map_values(|name: NameAtom| name.text@) =~= before.push(part_text));
                assert(before + (seq![part_text] + dot_parts(text@, i as int + 1, i as int + 1)) =~= before.push(
                    part_text,
                ) + dot_parts(text@, i as int + 1, i as int + 1));
            }
            start = i + 1;
        }
    }
    let ghost before = parts@.map_values(|name: NameAtom| name.text@);
    let last = text.as_str().substring_char(start, n).to_owned();
    parts.push(NameAtom { text: last });
    assert(parts@.map_values(|name: NameAtom| name.text@) =~= before + seq![text@.subrange(start as int, n as int)]);
    parts
}

/// The names of a path that is written as text.
fn parse_name_atoms(text: &String, param: &String, role: &'static str) -> (r: Result<
    NonEmpty<NameAtom>,
    JsonInputError,
>)
    ensures
        match r {
            Ok(names) => path_fault(text@, param@, role@) is None && names@.map_values(|name: NameAtom| name.text@)
                == path_parts(text@),
            Err(error) => path_fault(text@, param@, role@) == Some(error@),
        },
{
    let parts = split_dots(text);
    for i in 0..parts.len()
        invariant
            parts@.map_values(|name: NameAtom| name.text@) == path_parts(text@),
            forall|j: int| 0 <= j < i ==> (#[trigger] path_parts(text@)[j]).len() > 0,
    {
        assert(path_parts(text@)[i as int] == parts@[i as int].text@);
        if parts[i].text.as_str().unicode_len() == 0 {
            return Err(
                JsonInputError::InvalidName {
                    param: param.clone(),
                    role,
                    value: text.clone(),
                    reason: NameAtomError::Empty,
                },
            );
        }
    }
    match NonEmpty::try_from_vec(parts) {
        Some(names) => Ok(names),
        None => Err(
            JsonInputError::InvalidName {
                param: param.clone(),
                role,
                value: text.clone(),
                reason: NameAtomError::Empty,
            },
        ),
    }
}

/// A path of identifiers that stands nowhere.
pub open spec fn ident_path_term(names: Seq<Seq<char>>) -> Term {
    node1(
        Tag::IdentPath,
        Term::List(Seq::new(names.len(), |i: int| node2(Tag::Ident, Term::Text(names[i]), Term::At(nowhere())))),
    )
}

/// A path of names.
pub open spec fn name_path_term(names: Seq<Seq<char>>) -> Term {
    Term::List(Seq::new(names.len(), |i: int| Term::Text(names[i])))
}

fn synth_ident_path(text: &String, param: &String, role: &'static str) -> (r: Result<IdentPath, JsonInputError>)
    ensures
        match r {
            Ok(path) => path_fault(text@, param@, role@) is None && path.term(Spans::Kept) == ident_path_term(
                path_parts(text@),
            ),
            Err(error) => path_fault(text@, param@, role@) == Some(error@),
        },
{
    let names = match parse_name_atoms(text, param, role) {
        Ok(names) => names,
        Err(error) => return Err(error),
    };
    let span = synth_span();
    let ghost texts = names@.map_values(|name: NameAtom| name.text@);
    let mut rest: Vec<Ident> = Vec::new();
    for i in 0..names.rest.len()
        invariant
            span == nowhere(),
            rest@.len() == i,
            forall|j: int|
                0 <= j < i ==> (#[trigger] rest@[j]).name.text@ == names.rest@[j].text@ && rest@[j].span == nowhere(),
    {
        rest.push(Ident { name: names.rest[i].deep_clone(), span });
    }
    let first = Ident { name: names.first.deep_clone(), span };
    let path = IdentPath { segments: NonEmpty::new(first, rest) };
    proof {
        lemma_non_empty_term(path.segments, Spans::Kept);
        assert(seq_terms(path.segments@, Spans::Kept) =~= Seq::new(
            texts.len(),
            |i: int| node2(Tag::Ident, Term::Text(texts[i]), Term::At(nowhere())),
        )) by {
            assert forall|i: int| 0 <= i < texts.len() implies #[trigger] path.segments@[i].name.text@ == texts[i]
                && path.segments@[i].span == nowhere() by {
                assert(texts[i] == names@[i].text@);
            }
        }
    }
    Ok(path)
}

fn synth_name_path(text: &String, param: &String, role: &'static str) -> (r: Result<NamePath, JsonInputError>)
    ensures
        match r {
            Ok(path) => path_fault(text@, param@, role@) is None && path.term(Spans::Kept) == name_path_term(
                path_parts(text@),
            ),
            Err(error) => path_fault(text@, param@, role@) == Some(error@),
        },
{
    match parse_name_atoms(text, param, role) {
        Ok(names) => {
            let ghost texts = names@.map_values(|name: NameAtom| name.text@);
            let path = NamePath { segments: names };
            proof {
                lemma_non_empty_term(path.segments, Spans::Kept);
                assert(seq_terms(path.segments@, Spans::Kept) =~= Seq::new(
                    texts.len(),
                    |i: int| Term::Text(texts[i]),
                ));
            }
            Ok(path)
        },
        Err(error) => Err(error),
    }
}

// Values.

/// Source text with the values of its decimal literals.
pub open spec fn source_input(text: Seq<char>, values: Seq<DecimalValue>) -> Input {
    let bare = Input { bytes: encode_utf8(text), lexemes: lexemes_from(encode_utf8(text), 0), floats: Seq::empty() };
    Input {
        floats: Seq::new(
            bare.lexemes.len(),
            |i: int| if bare.is(i, Token::Number) { decimal_value(values, bare.text(i), 0) } else { None },
        ),
        ..bare
    }
}

/// The expression that a text denotes.
pub open spec fn converted_text(text: Seq<char>, param: Seq<char>, values: Seq<DecimalValue>) -> Result<Term, Fault> {
    match single_expression(source_input(text, values)) {
        Parse::Read(e, _) => Ok(e),
        Parse::Refused(error) => Err(Fault::ParseFailed(param, error)),
    }
}

/// The place of the member with a key.
pub open spec fn member_at(members: Seq<Member>, key: Seq<char>, i: int) -> Option<int>
    decreases members.len() - i,
{
    if i < 0 || i >= members.len() {
        None
    } else if members[i].key == key {
        Some(i)
    } else {
        member_at(members, key, i + 1)
    }
}

pub open spec fn has_member(members: Seq<Member>, key: Seq<char>) -> bool {
    member_at(members, key, 0) is Some
}

/// The string that is the member with a key.
pub open spec fn text_member(members: Seq<Member>, key: Seq<char>) -> Option<Seq<char>> {
    match member_at(members, key, 0) {
        Some(i) => match members[i].value {
            Json::Text(text) => Some(text),
            _ => None,
        },
        None => None,
    }
}

/// The first key that is neither of two.
pub open spec fn unknown_key(members: Seq<Member>, a: Seq<char>, b: Seq<char>, i: int) -> Option<Seq<char>>
    decreases members.len() - i,
{
    if i < 0 || i >= members.len() {
        None
    } else if members[i].key != a && members[i].key != b {
        Some(members[i].key)
    } else {
        unknown_key(members, a, b, i + 1)
    }
}

/// The expression that a JSON value denotes.
pub open spec fn converted(json: Json, param: Seq<char>, values: Seq<DecimalValue>) -> Result<Term, Fault>
    decreases json, 0nat,
{
    match json {
        Json::Text(text) => converted_text(text, param, values),
        Json::Flag(value) => Ok(expr_term(node1(Tag::ExprBool, Term::Flag(value)), nowhere())),
        Json::Number(ExactJsonNumber::Integer(n)) => Ok(
            expr_term(node1(Tag::ExprInteger, Term::Int(n as int)), nowhere()),
        ),
        Json::Number(ExactJsonNumber::FiniteFloat(value)) => Ok(
            expr_term(node1(Tag::ExprNumber, Term::Int(value.bits as int)), nowhere()),
        ),
        Json::Object(members) => converted_object(members, param, values),
        Json::Null => Err(Fault::UnsupportedJsonType(param, "null"@)),
        Json::Array => Err(Fault::UnsupportedJsonType(param, "array"@)),
    }
}

/// The expression that a JSON object denotes: which, its keys say.
pub open spec fn converted_object(members: Seq<Member>, param: Seq<char>, values: Seq<DecimalValue>) -> Result<
    Term,
    Fault,
>
    decreases members, members.len() + 2,
{
    let variant = has_member(members, "variant"@);
    let typed = has_member(members, "type"@);
    let index = has_member(members, "index"@);
    let fields = has_member(members, "fields"@);
    if (variant && typed) || (variant && index) || (typed && index) {
        Err(Fault::ConflictingObjectKeys(param))
    } else if variant {
        match unknown_key(members, "variant"@, "fields"@, 0) {
            Some(key) => Err(Fault::UnknownObjectKey(param, key)),
            None => converted_constructor(members, "variant"@, Fault::InvalidVariant(param), param, values),
        }
    } else if typed && fields {
        match unknown_key(members, "type"@, "fields"@, 0) {
            Some(key) => Err(Fault::UnknownObjectKey(param, key)),
            None => converted_constructor(members, "type"@, Fault::InvalidType(param), param, values),
        }
    } else if fields {
        Err(Fault::MissingTypeKey(param))
    } else if index && has_member(members, "entries"@) {
        match unknown_key(members, "index"@, "entries"@, 0) {
            Some(key) => Err(Fault::UnknownObjectKey(param, key)),
            None => converted_indexed(members, param, values),
        }
    } else {
        Err(Fault::AmbiguousObject(param))
    }
}

/// A constructor call: its name stands under a key, its fields under `fields`.
pub open spec fn converted_constructor(
    members: Seq<Member>,
    key: Seq<char>,
    otherwise: Fault,
    param: Seq<char>,
    values: Seq<DecimalValue>,
) -> Result<Term, Fault>
    decreases members, members.len() + 1,
{
    match text_member(members, key) {
        None => Err(otherwise),
        Some(name) => {
            let fields = match member_at(members, "fields"@, 0) {
                None => Ok(Seq::empty()),
                Some(i) => if 0 <= i < members.len() {
                    match members[i].value {
                        Json::Object(fields) => converted_fields(fields, fields.len(), param, values),
                        _ => Err(Fault::InvalidFields(param)),
                    }
                } else {
                    Ok(Seq::empty())
                },
            };
            match fields {
                Err(fault) => Err(fault),
                Ok(fields) => match path_fault(name, param, "constructor"@) {
                    Some(fault) => Err(fault),
                    None => Ok(
                        expr_term(
                            node3(
                                Tag::ExprConstructorCall,
                                ident_path_term(path_parts(name)),
                                Term::List(Seq::empty()),
                                Term::List(fields),
                            ),
                            nowhere(),
                        ),
                    ),
                },
            }
        },
    }
}

/// A field of a constructor call.
pub open spec fn converted_field(member: Member, param: Seq<char>, values: Seq<DecimalValue>) -> Result<Term, Fault>
    decreases member,
{
    match converted(member.value, param + "."@ + member.key, values) {
        Err(fault) => Err(fault),
        Ok(value) => match name_error(member.key) {
            Some(reason) => Err(Fault::InvalidName { param, role: "field"@, value: member.key, reason }),
            None => Ok(node2(Tag::FieldInit, pair(Term::Text(member.key), Term::At(nowhere())), value)),
        },
    }
}

pub open spec fn converted_fields(
    members: Seq<Member>,
    n: nat,
    param: Seq<char>,
    values: Seq<DecimalValue>,
) -> Result<
    Seq<Term>,
    Fault,
>
    decreases members, n,
{
    if n == 0 || n > members.len() {
        Ok(Seq::empty())
    } else {
        match converted_fields(members, (n - 1) as nat, param, values) {
            Err(fault) => Err(fault),
            Ok(before) => match converted_field(members[n - 1], param, values) {
                Err(fault) => Err(fault),
                Ok(field) => Ok(before.push(field)),
            },
        }
    }
}

/// A map over an index: its name stands under `index`, its entries under
/// `entries`.
pub open spec fn converted_indexed(members: Seq<Member>, param: Seq<char>, values: Seq<DecimalValue>) -> Result<
    Term,
    Fault,
>
    decreases members, members.len() + 1,
{
    match text_member(members, "index"@) {
        None => Err(Fault::InvalidIndex(param)),
        Some(name) => match path_fault(name, param, "index"@) {
            Some(fault) => Err(fault),
            None => {
                let entries = match member_at(members, "entries"@, 0) {
                    None => Err(Fault::InvalidEntries(param)),
                    Some(i) => if 0 <= i < members.len() {
                        match members[i].value {
                            Json::Object(entries) => converted_entries(
                                entries,
                                entries.len(),
                                name_path_term(path_parts(name)),
                                param,
                                values,
                            ),
                            _ => Err(Fault::InvalidEntries(param)),
                        }
                    } else {
                        Err(Fault::InvalidEntries(param))
                    },
                };
                match entries {
                    Err(fault) => Err(fault),
                    Ok(entries) => Ok(expr_term(node1(Tag::ExprMapLiteral, Term::List(entries)), nowhere())),
                }
            },
        },
    }
}

/// An entry of a map over an index.
pub open spec fn converted_entry(member: Member, index: Term, param: Seq<char>, values: Seq<DecimalValue>) -> Result<
    Term,
    Fault,
>
    decreases member,
{
    let place = param + "["@ + member.key + "]"@;
    match converted(member.value, place, values) {
        Err(fault) => Err(fault),
        Ok(value) => match name_error(member.key) {
            Some(reason) => Err(
                Fault::InvalidName { param: place, role: "index variant"@, value: member.key, reason },
            ),
            None => Ok(
                node2(
                    Tag::MapEntry,
                    Term::List(
                        prepend(
                            discrete_key(
                                pair(node1(Tag::MapEntryIndexNamed, index), Term::At(nowhere())),
                                Seq::empty(),
                                pair(node1(Tag::IndexEntryKeyNamed, Term::Text(member.key)), Term::At(nowhere())),
                            ),
                            Seq::empty(),
                        ),
                    ),
                    value,
                ),
            ),
        },
    }
}

pub open spec fn converted_entries(
    members: Seq<Member>,
    n: nat,
    index: Term,
    param: Seq<char>,
    values: Seq<DecimalValue>,
) -> Result<Seq<Term>, Fault>
    decreases members, n,
{
    if n == 0 || n > members.len() {
        Ok(Seq::empty())
    } else {
        match converted_entries(members, (n - 1) as nat, index, param, values) {
            Err(fault) => Err(fault),
            Ok(before) => match converted_entry(members[n - 1], index, param, values) {
                Err(fault) => Err(fault),
                Ok(entry) => Ok(before.push(entry)),
            },
        }
    }
}

/// What converting a value gave.
pub open spec fn converted_result(r: Result<Expr, JsonInputError>) -> Result<Term, Fault> {
    match r {
        Ok(e) => Ok(e.to_term(Reading::Exact)),
        Err(error) => Err(error@),
    }
}

fn float_values(parser: &Parser, values: &DecimalValues) -> (r: Vec<Option<u64>>)
    ensures
        r@ == Seq::new(
            parser@.lexemes.len(),
            |i: int|
                if parser@.is(i, Token::Number) {
                    decimal_value(values.values@, parser@.text(i), 0)
                } else {
                    None
                },
        ),
{
    let literals = parser.decimal_literals();
    let mut out: Vec<Option<u64>> = Vec::new();
    for i in 0..literals.len()
        invariant
            literals@.len() == parser@.lexemes.len(),
            forall|j: int|
                0 <= j < literals@.len() ==> match #[trigger] literals@[j] {
                    Some(text) => parser@.is(j, Token::Number) && text@ == parser@.text(j),
                    None => !parser@.is(j, Token::Number),
                },
            out@.len() == i,
            forall|j: int|
                0 <= j < i ==> #[trigger] out@[j] == if parser@.is(j, Token::Number) {
                    decimal_value(values.values@, parser@.text(j), 0)
                } else {
                    None
                },
    {
        out.push(
            match &literals[i] {
                Some(text) => values.get(text),
                None => None,
            },
        );
    }
    assert(out@ =~= Seq::new(
        parser@.lexemes.len(),
        |i: int|
            if parser@.is(i, Token::Number) {
                decimal_value(values.values@, parser@.text(i), 0)
            } else {
                None
            },
    ));
    out
}

/// The expression that a text denotes.
pub fn convert_string(text: &String, param: &String, values: &DecimalValues) -> (r: Result<Expr, JsonInputError>)
    ensures
        converted_result(r) == converted_text(text@, param@, values.values@),
{
    let bare = Parser::new(text.as_str());
    assert(bare@.floats =~= Seq::empty());
    let floats = float_values(&bare, values);
    let ghost known = Input {
        bytes: encode_utf8(text@),
        lexemes: lexemes_from(encode_utf8(text@), 0),
        floats: Seq::empty(),
    };
    assert(bare@ == known);
    let parser = bare.with_float_values(floats);
    assert(parser@ == source_input(text@, values.values@));
    match parser.parse_single_expr() {
        Ok(e) => Ok(e),
        Err(error) => Err(JsonInputError::ParseFailed { param: param.clone(), source: Box::new(error) }),
    }
}

/// The literal of a number.
pub fn convert_number(value: ExactJsonNumber) -> (r: Expr)
    ensures
        r.to_term(Reading::Exact) == match value {
            ExactJsonNumber::Integer(n) => expr_term(node1(Tag::ExprInteger, Term::Int(n as int)), nowhere()),
            ExactJsonNumber::FiniteFloat(f) => expr_term(node1(Tag::ExprNumber, Term::Int(f.bits as int)), nowhere()),
        },
{
    match value {
        ExactJsonNumber::Integer(n) => integer(n, synth_span()),
        ExactJsonNumber::FiniteFloat(f) => number(f, synth_span()),
    }
}

impl ExactJsonObject {
    fn find(&self, key: &str) -> (r: Option<usize>)
        ensures
            match r {
                Some(i) => i < self.entries@.len() && member_at(self.members(), key@, 0) == Some(i as int),
                None => member_at(self.members(), key@, 0) is None,
            },
    {
        let wanted = key.to_owned();
        for i in 0..self.entries.len()
            invariant
                wanted@ == key@,
                member_at(self.members(), key@, 0) == member_at(self.members(), key@, i as int),
        {
            assert(self.members()[i as int] == self.entries[i as int].to_member());
            if self.entries[i].key == wanted {
                return Some(i);
            }
        }
        None
    }

    /// Whether the object has a key.
    pub fn contains_key(&self, key: &str) -> (r: bool)
        ensures
            r == has_member(self.members(), key@),
    {
        self.find(key).is_some()
    }

    /// The string under a key.
    fn text(&self, key: &str) -> (r: Option<&String>)
        ensures
            match r {
                Some(text) => text_member(self.members(), key@) == Some(text@),
                None => text_member(self.members(), key@) is None,
            },
    {
        match self.find(key) {
            Some(i) => {
                assert(self.members()[i as int] == self.entries[i as int].to_member());
                match &self.entries[i].value {
                    ExactJsonValue::String(text) => Some(text),
                    _ => None,
                }
            },
            None => None,
        }
    }

    /// The first key that is neither of two.
    fn find_unknown(&self, a: &str, b: &str) -> (r: Option<String>)
        ensures
            match r {
                Some(key) => unknown_key(self.members(), a@, b@, 0) == Some(key@),
                None => unknown_key(self.members(), a@, b@, 0) is None,
            },
    {
        let first = a.to_owned();
        let second = b.to_owned();
        for i in 0..self.entries.len()
            invariant
                first@ == a@,
                second@ == b@,
                unknown_key(self.members(), a@, b@, 0) == unknown_key(self.members(), a@, b@, i as int),
        {
            assert(self.members()[i as int] == self.entries[i as int].to_member());
            if self.entries[i].key != first && self.entries[i].key != second {
                return Some(self.entries[i].key.clone());
            }
        }
        None
    }
}

/// Refuses a key that is neither of two.
fn reject_unknown_keys(object: &ExactJsonObject, param: &String, a: &str, b: &str) -> (r: Result<(), JsonInputError>)
    ensures
        match r {
            Ok(_) => unknown_key(object.members(), a@, b@, 0) is None,
            Err(error) => match unknown_key(object.members(), a@, b@, 0) {
                Some(key) => error@ == Fault::UnknownObjectKey(param@, key),
                None => false,
            },
        },
{
    match object.find_unknown(a, b) {
        Some(key) => Err(JsonInputError::UnknownObjectKey { param: param.clone(), key }),
        None => Ok(()),
    }
}

/// The expression that a JSON value denotes.
pub fn convert_value(value: &ExactJsonValue, param: &String, values: &DecimalValues) -> (r: Result<
    Expr,
    JsonInputError,
>)
    ensures
        converted_result(r) == converted(value.to_json(), param@, values.values@),
    decreases value, 0nat,
{
    match value {
        ExactJsonValue::String(text) => convert_string(text, param, values),
        ExactJsonValue::Bool(value) => Ok(boolean(*value, synth_span())),
        ExactJsonValue::Number(value) => Ok(convert_number(*value)),
        ExactJsonValue::Object(object) => convert_object(object, param, values),
        ExactJsonValue::Null => Err(JsonInputError::UnsupportedJsonType { param: param.clone(), kind: "null" }),
        ExactJsonValue::Array => Err(JsonInputError::UnsupportedJsonType { param: param.clone(), kind: "array" }),
    }
}

/// The expression that a JSON object denotes.
fn convert_object(object: &ExactJsonObject, param: &String, values: &DecimalValues) -> (r: Result<
    Expr,
    JsonInputError,
>)
    ensures
        converted_result(r) == converted_object(object.members(), param@, values.values@),
    decreases object, 3nat,
{
    let variant = object.contains_key("variant");
    let typed = object.contains_key("type");
    let index = object.contains_key("index");
    let fields = object.contains_key("fields");
    if (variant && typed) || (variant && index) || (typed && index) {
        return Err(JsonInputError::ConflictingObjectKeys { param: param.clone() });
    }
    if variant {
        match reject_unknown_keys(object, param, "variant", "fields") {
            Ok(_) => convert_tagged_union(object, param, values),
            Err(error) => Err(error),
        }
    } else if typed && fields {
        match reject_unknown_keys(object, param, "type", "fields") {
            Ok(_) => convert_struct(object, param, values),
            Err(error) => Err(error),
        }
    } else if fields {
        Err(JsonInputError::MissingTypeKey { param: param.clone() })
    } else if index && object.contains_key("entries") {
        match reject_unknown_keys(object, param, "index", "entries") {
            Ok(_) => convert_indexed(object, param, values),
            Err(error) => Err(error),
        }
    } else {
        Err(JsonInputError::AmbiguousObject { param: param.clone() })
    }
}

/// `{"variant": name, "fields": {..}}`, with or without fields.
fn convert_tagged_union(object: &ExactJsonObject, param: &String, values: &DecimalValues) -> (r: Result<
    Expr,
    JsonInputError,
>)
    ensures
        converted_result(r) == converted_constructor(
            object.members(),
            "variant"@,
            Fault::InvalidVariant(param@),
            param@,
            values.values@,
        ),
    decreases object, 2nat,
{
    match object.text("variant") {
        Some(name) => convert_named(object, name, param, values),
        None => Err(JsonInputError::InvalidVariant { param: param.clone() }),
    }
}

/// `{"type": name, "fields": {..}}`.
fn convert_struct(object: &ExactJsonObject, param: &String, values: &DecimalValues) -> (r: Result<
    Expr,
    JsonInputError,
>)
    ensures
        converted_result(r) == converted_constructor(
            object.members(),
            "type"@,
            Fault::InvalidType(param@),
            param@,
            values.values@,
        ),
    decreases object, 2nat,
{
    match object.text("type") {
        Some(name) => convert_named(object, name, param, values),
        None => Err(JsonInputError::InvalidType { param: param.clone() }),
    }
}

/// A constructor call with the fields of an object.
fn convert_named(object: &ExactJsonObject, name: &String, param: &String, values: &DecimalValues) -> (r: Result<
    Expr,
    JsonInputError,
>)
    ensures
        forall|key: Seq<char>, otherwise: Fault|
            text_member(object.members(), key) == Some(name@) ==> converted_result(r)
                == #[trigger] converted_constructor(object.members(), key, otherwise, param@, values.values@),
    decreases object, 1nat,
{
    let fields = match object.find("fields") {
        Some(i) => {
            assert(object.members()[i as int] == object.entries[i as int].to_member());
            match &object.entries[i].value {
                ExactJsonValue::Object(fields) => match convert_field_inits(fields, param, values) {
                    Ok(fields) => fields,
                    Err(error) => return Err(error),
                },
                _ => return Err(JsonInputError::InvalidFields { param: param.clone() }),
            }
        },
        None => {
            let fields: Vec<FieldInit> = Vec::new();
            assert(FieldInit::terms(fields, Reading::Exact) =~= Seq::empty());
            fields
        },
    };
    match synth_ident_path(name, param, "constructor") {
        Ok(callee) => {
            let generic_args: Vec<GenericArg> = Vec::new();
            assert(GenericArg::terms(generic_args, Reading::Exact) =~= Seq::empty());
            Ok(constructor_call(callee, generic_args, fields, synth_span()))
        },
        Err(error) => Err(error),
    }
}

fn convert_field_init(entry: &ExactJsonEntry, param: &String, values: &DecimalValues) -> (r: Result<
    FieldInit,
    JsonInputError,
>)
    ensures
        match r {
            Ok(field) => converted_field(entry.to_member(), param@, values.values@) == Ok::<Term, Fault>(
                field.to_term(Reading::Exact),
            ),
            Err(error) => converted_field(entry.to_member(), param@, values.values@) == Err::<Term, Fault>(error@),
        },
    decreases entry,
{
    let dotted = joined(param.as_str(), ".");
    let place = joined(dotted.as_str(), entry.key.as_str());
    let value = match convert_value(&entry.value, &place, values) {
        Ok(value) => value,
        Err(error) => return Err(error),
    };
    match NameAtom::parse(&entry.key) {
        Ok(atom) => Ok(FieldInit { name: Spanned { value: FieldName { atom }, span: synth_span() }, value }),
        Err(reason) => Err(
            JsonInputError::InvalidName { param: param.clone(), role: "field", value: entry.key.clone(), reason },
        ),
    }
}

proof fn lemma_fields_fail(members: Seq<Member>, n: nat, param: Seq<char>, values: Seq<DecimalValue>)
    requires
        converted_fields(members, n, param, values) is Err,
        n <= members.len(),
    ensures
        converted_fields(members, members.len(), param, values) == converted_fields(members, n, param, values),
    decreases members.len() - n,
{
    if n < members.len() {
        lemma_fields_fail(members, n + 1, param, values);
    }
}

proof fn lemma_entries_fail(members: Seq<Member>, n: nat, index: Term, param: Seq<char>, values: Seq<DecimalValue>)
    requires
        converted_entries(members, n, index, param, values) is Err,
        n <= members.len(),
    ensures
        converted_entries(members, members.len(), index, param, values) == converted_entries(
            members,
            n,
            index,
            param,
            values,
        ),
    decreases members.len() - n,
{
    if n < members.len() {
        lemma_entries_fail(members, n + 1, index, param, values);
    }
}

/// The fields of a constructor call.
fn convert_field_inits(object: &ExactJsonObject, param: &String, values: &DecimalValues) -> (r: Result<
    Vec<FieldInit>,
    JsonInputError,
>)
    ensures
        match r {
            Ok(fields) => converted_fields(object.members(), object.members().len(), param@, values.values@) == Ok::<
                Seq<Term>,
                Fault,
            >(FieldInit::terms(fields, Reading::Exact)),
            Err(error) => converted_fields(object.members(), object.members().len(), param@, values.values@) == Err::<
                Seq<Term>,
                Fault,
            >(error@),
        },
    decreases object, 0nat,
{
    let mut fields: Vec<FieldInit> = Vec::new();
    assert(FieldInit::terms(fields, Reading::Exact) =~= Seq::empty());
    for i in 0..object.entries.len()
        invariant
            converted_fields(object.members(), i as nat, param@, values.values@) == Ok::<Seq<Term>, Fault>(
                FieldInit::terms(fields, Reading::Exact),
            ),
    {
        assert(object.members()[i as int] == object.entries[i as int].to_member());
        match convert_field_init(&object.entries[i], param, values) {
            Ok(field) => {
                let ghost before = fields;
                fields.push(field);
                assert(FieldInit::terms(fields, Reading::Exact) =~= FieldInit::terms(before, Reading::Exact).push(
                    field.to_term(Reading::Exact),
                ));
            },
            Err(error) => {
                proof {
                    lemma_fields_fail(object.members(), (i + 1) as nat, param@, values.values@);
                }
                return Err(error);
            },
        }
    }
    Ok(fields)
}

/// `{"index": name, "entries": {..}}`.
fn convert_indexed(object: &ExactJsonObject, param: &String, values: &DecimalValues) -> (r: Result<
    Expr,
    JsonInputError,
>)
    ensures
        converted_result(r) == converted_indexed(object.members(), param@, values.values@),
    decreases object, 2nat,
{
    let name = match object.text("index") {
        Some(name) => name,
        None => return Err(JsonInputError::InvalidIndex { param: param.clone() }),
    };
    let index = match synth_name_path(name, param, "index") {
        Ok(index) => index,
        Err(error) => return Err(error),
    };
    match object.find("entries") {
        None => Err(JsonInputError::InvalidEntries { param: param.clone() }),
        Some(i) => {
            assert(object.members()[i as int] == object.entries[i as int].to_member());
            match &object.entries[i].value {
                ExactJsonValue::Object(entries) => match convert_entries(entries, &index, param, values) {
                    Ok(entries) => Ok(map_literal(entries, synth_span())),
                    Err(error) => Err(error),
                },
                _ => Err(JsonInputError::InvalidEntries { param: param.clone() }),
            }
        },
    }
}

fn convert_entry(entry: &ExactJsonEntry, index: &NamePath, param: &String, values: &DecimalValues) -> (r: Result<
    MapEntry,
    JsonInputError,
>)
    ensures
        match r {
            Ok(e) => converted_entry(entry.to_member(), index.term(Spans::Kept), param@, values.values@) == Ok::<
                Term,
                Fault,
            >(e.to_term(Reading::Exact)),
            Err(error) => converted_entry(
                entry.to_member(),
                index.term(Spans::Kept),
                param@,
                values.values@,
            ) == Err::<
                Term,
                Fault,
            >(error@),
        },
    decreases entry,
{
    let opened = joined(param.as_str(), "[");
    let named = joined(opened.as_str(), entry.key.as_str());
    let place = joined(named.as_str(), "]");
    let value = match convert_value(&entry.value, &place, values) {
        Ok(value) => value,
        Err(error) => return Err(error),
    };
    match NameAtom::parse(&entry.key) {
        Ok(atom) => {
            let key = MapEntryKey::Discrete {
                index: Spanned { value: MapEntryIndex::Named(index.deep_clone()), span: synth_span() },
                additional_index_spans: Vec::new(),
                entry: Spanned { value: IndexEntryKey::Named(IndexVariantName { atom }), span: synth_span() },
            };
            assert(key->Discrete_additional_index_spans@ =~= Seq::<Span>::empty());
            let r = MapEntry { keys: NonEmpty::singleton(key), value };
            assert(MapEntryKey::terms(r.keys.rest, Reading::Exact) =~= Seq::empty());
            Ok(r)
        },
        Err(reason) => Err(
            JsonInputError::InvalidName { param: place, role: "index variant", value: entry.key.clone(), reason },
        ),
    }
}

fn convert_entries(object: &ExactJsonObject, index: &NamePath, param: &String, values: &DecimalValues) -> (r: Result<
    Vec<MapEntry>,
    JsonInputError,
>)
    ensures
        match r {
            Ok(entries) => converted_entries(
                object.members(),
                object.members().len(),
                index.term(Spans::Kept),
                param@,
                values.values@,
            ) == Ok::<Seq<Term>, Fault>(MapEntry::terms(entries, Reading::Exact)),
            Err(error) => converted_entries(
                object.members(),
                object.members().len(),
                index.term(Spans::Kept),
                param@,
                values.values@,
            ) == Err::<Seq<Term>, Fault>(error@),
        },
    decreases object, 0nat,
{
    let ghost name = index.term(Spans::Kept);
    let mut entries: Vec<MapEntry> = Vec::new();
    assert(MapEntry::terms(entries, Reading::Exact) =~= Seq::empty());
    for i in 0..object.entries.len()
        invariant
            name == index.term(Spans::Kept),
            converted_entries(object.members(), i as nat, name, param@, values.values@) == Ok::<Seq<Term>, Fault>(
                MapEntry::terms(entries, Reading::Exact),
            ),
    {
        assert(object.members()[i as int] == object.entries[i as int].to_member());
        match convert_entry(&object.entries[i], index, param, values) {
            Ok(entry) => {
                let ghost before = entries;
                entries.push(entry);
                assert(MapEntry::terms(entries, Reading::Exact) =~= MapEntry::terms(before, Reading::Exact).push(
                    entry.to_term(Reading::Exact),
                ));
            },
            Err(error) => {
                proof {
                    lemma_entries_fail(object.members(), (i + 1) as nat, name, param@, values.values@);
                }
                return Err(error);
            },
        }
    }
    Ok(entries)
}

// Parameter values.

/// The value of a parameter.
#[derive(Debug)]
pub struct Override {
    pub name: DeclName,
    pub value: Expr,
}

/// The values of parameters, each parameter once.
#[derive(Debug)]
pub struct Overrides {
    pub entries: Vec<Override>,
}

pub open spec fn overrides_view(entries: Seq<Override>) -> Seq<(Seq<char>, Term)> {
    entries.map_values(|o: Override| (o.name.atom.text@, o.value.to_term(Reading::Exact)))
}

/// The value that a member of the JSON object gives a parameter.
pub open spec fn override_of(member: Member, values: Seq<DecimalValue>) -> Result<(Seq<char>, Term), Fault> {
    match converted(member.value, member.key, values) {
        Err(fault) => Err(fault),
        Ok(value) => match name_error(member.key) {
            Some(reason) => Err(
                Fault::InvalidName { param: member.key, role: "parameter"@, value: member.key, reason },
            ),
            None => Ok((member.key, value)),
        },
    }
}

pub open spec fn overrides_of(members: Seq<Member>, n: nat, values: Seq<DecimalValue>) -> Result<
    Seq<(Seq<char>, Term)>,
    Fault,
>
    decreases n,
{
    if n == 0 || n > members.len() {
        Ok(Seq::empty())
    } else {
        match overrides_of(members, (n - 1) as nat, values) {
            Err(fault) => Err(fault),
            Ok(before) => match override_of(members[n - 1], values) {
                Err(fault) => Err(fault),
                Ok(item) => Ok(before.push(item)),
            },
        }
    }
}

/// The parameter values that some JSON gives.
pub open spec fn overrides(raw: RawJson, values: Seq<DecimalValue>) -> Result<Seq<(Seq<char>, Term)>, Fault> {
    match exact_value(raw, Seq::empty(), values) {
        Err(fault) => Err(fault),
        Ok(Json::Object(members)) => overrides_of(members, members.len(), values),
        Ok(_) => Err(Fault::TopLevelNotObject),
    }
}

proof fn lemma_overrides_fail(members: Seq<Member>, n: nat, values: Seq<DecimalValue>)
    requires
        overrides_of(members, n, values) is Err,
        n <= members.len(),
    ensures
        overrides_of(members, members.len(), values) == overrides_of(members, n, values),
    decreases members.len() - n,
{
    if n < members.len() {
        lemma_overrides_fail(members, n + 1, values);
    }
}

fn convert_override(entry: &ExactJsonEntry, values: &DecimalValues) -> (r: Result<Override, JsonInputError>)
    ensures
        match r {
            Ok(o) => override_of(entry.to_member(), values.values@) == Ok::<(Seq<char>, Term), Fault>(
                (o.name.atom.text@, o.value.to_term(Reading::Exact)),
            ),
            Err(error) => override_of(entry.to_member(), values.values@) == Err::<(Seq<char>, Term), Fault>(error@),
        },
{
    let value = match convert_value(&entry.value, &entry.key, values) {
        Ok(value) => value,
        Err(error) => return Err(error),
    };
    match NameAtom::parse(&entry.key) {
        Ok(atom) => Ok(Override { name: DeclName { atom }, value }),
        Err(reason) => Err(
            JsonInputError::InvalidName {
                param: entry.key.clone(),
                role: "parameter",
                value: entry.key.clone(),
                reason,
            },
        ),
    }
}

/// The parameter values that some JSON gives.
pub fn json_to_overrides(raw: &RawJson, values: &DecimalValues) -> (r: Result<Overrides, JsonInputError>)
    ensures
        match r {
            Ok(found) => overrides(*raw, values.values@) == Ok::<Seq<(Seq<char>, Term)>, Fault>(
                overrides_view(found.entries@),
            ),
            Err(error) => overrides(*raw, values.values@) == Err::<Seq<(Seq<char>, Term)>, Fault>(error@),
        },
{
    let root = JsonPath::root();
    let object = match parse_exact_value(raw, &root, values) {
        Ok(ExactJsonValue::Object(object)) => object,
        Ok(_) => return Err(JsonInputError::TopLevelNotObject),
        Err(error) => return Err(error),
    };
    let ghost members = object.members();
    let mut entries: Vec<Override> = Vec::new();
    assert(overrides_view(entries@) =~= Seq::empty());
    for i in 0..object.entries.len()
        invariant
            members == object.members(),
            exact_value(*raw, Seq::empty(), values.values@) == Ok::<Json, Fault>(Json::Object(members)),
            overrides_of(members, i as nat, values.values@) == Ok::<Seq<(Seq<char>, Term)>, Fault>(
                overrides_view(entries@),
            ),
    {
        assert(members[i as int] == object.entries[i as int].to_member());
        match convert_override(&object.entries[i], values) {
            Ok(item) => {
                let ghost before = overrides_view(entries@);
                entries.push(item);
                assert(overrides_view(entries@) =~= before.push(
                    (item.name.atom.text@, item.value.to_term(Reading::Exact)),
                ));
            },
            Err(error) => {
                proof {
                    lemma_overrides_fail(members, (i + 1) as nat, values.values@);
                }
                return Err(error);
            },
        }
    }
    Ok(Overrides { entries })
}

impl Overrides {
    /// The value of a parameter.
    pub fn get(&self, name: &String) -> (r: Option<&Expr>)
        ensures
            match r {
                Some(value) => exists|i: int|
                    0 <= i < self.entries@.len() && (#[trigger] self.entries@[i]).name.atom.text@ == name@
                        && self.entries@[i].value == *value && forall|j: int|
                        0 <= j < i ==> (#[trigger] self.entries@[j]).name.atom.text@ != name@,
                None => forall|i: int|
                    0 <= i < self.entries@.len() ==> (#[trigger] self.entries@[i]).name.atom.text@ != name@,
            },
    {
        for i in 0..self.entries.len()
            invariant
                forall|j: int| 0 <= j < i ==> (#[trigger] self.entries@[j]).name.atom.text@ != name@,
        {
            if self.entries[i].name.atom.text == *name {
                return Some(&self.entries[i].value);
            }
        }
        None
    }
}

} // verus!
