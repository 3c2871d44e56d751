//! What JSON values mean as parameter values.

use crate::json::convert::{
    converted, converted_constructor, converted_entries, converted_entry, converted_field, converted_fields,
    converted_indexed, converted_object, converted_text, dot_parts, ident_path_term, member_at, name_path_term,
    overrides, overrides_of, path_parts, source_input, text_member, Override,
};
use crate::json::error::{Fault, Step};
use crate::json::exact::{
    decimal_value, exact_members, exact_value, has_fraction, DecimalValue, ExactJsonNumber, Json, Member, RawEntry,
    RawJson,
};
use crate::syntax::ast::{Expr, ExprKind, FieldInit, FloatBits, GenericArg, MapEntry, MapEntryIndex, MapEntryKey};
use crate::syntax::parser::grammar::Parse;
use crate::syntax::term::{node1, node3, Reading, Spans, Syntax, Tag, Term};
use crate::syntax::text::{all_digits, digits_value};
use vstd::prelude::*;
use vstd::utf8::encode_utf8;

verus! {

/// Names with dots between them.
pub open spec fn joined(names: Seq<Seq<char>>) -> Seq<char>
    decreases names.len(),
{
    if names.len() == 0 {
        Seq::empty()
    } else if names.len() == 1 {
        names[0]
    } else {
        names[0] + seq!['.'] + joined(names.skip(1))
    }
}

proof fn lemma_joined(text: Seq<char>, start: int, i: int)
    requires
        0 <= start <= i <= text.len(),
        forall|j: int| start <= j < i ==> text[j] != '.',
    ensures
        dot_parts(text, start, i).len() > 0,
        joined(dot_parts(text, start, i)) == text.subrange(start, text.len() as int),
        forall|k: int, j: int|
            0 <= k < dot_parts(text, start, i).len() && 0 <= j < dot_parts(text, start, i)[k].len()
                ==> #[trigger] dot_parts(text, start, i)[k][j] != '.',
    decreases text.len() - i,
{
    let all = dot_parts(text, start, i);
    if i >= text.len() {
        assert(all[0] == text.subrange(start, text.len() as int));
    } else if text[i] == '.' {
        lemma_joined(text, i + 1, i + 1);
        let rest = dot_parts(text, i + 1, i + 1);
        let first = text.subrange(start, i);
        assert(all == seq![first] + rest);
        assert(all.skip(1) =~= rest);
        assert(first + seq!['.'] + text.subrange(i + 1, text.len() as int) =~= text.subrange(
            start,
            text.len() as int,
        ));
        assert forall|k: int, j: int| 0 <= k < all.len() && 0 <= j < all[k].len() implies #[trigger] all[k][j]
            != '.' by {
            if k > 0 {
                assert(all[k] == rest[k - 1]);
                assert(rest[k - 1][j] != '.');
            } else {
                assert(all[k] == first);
            }
        }
    } else {
        lemma_joined(text, start, i + 1);
    }
}

/// The names of a path, with dots between them, are the text of the path; no
/// name has a dot in it.
pub proof fn law_paths_are_split_at_their_dots(text: Seq<char>)
    ensures
        joined(path_parts(text)) == text,
        forall|k: int, j: int|
            0 <= k < path_parts(text).len() && 0 <= j < path_parts(text)[k].len() ==> #[trigger] path_parts(text)[k][j]
                != '.',
{
    lemma_joined(text, 0, 0);
    assert(text.subrange(0, text.len() as int) =~= text);
}

/// Whether a member with a key stands at a place.
pub open spec fn stands_at(members: Seq<Member>, key: Seq<char>, i: int) -> bool {
    0 <= i < members.len() && members[i].key == key
}

proof fn lemma_member(members: Seq<Member>, key: Seq<char>, i: int)
    requires
        0 <= i <= members.len(),
    ensures
        match member_at(members, key, i) {
            Some(k) => i <= k && stands_at(members, key, k),
            None => forall|k: int| i <= k < members.len() ==> (#[trigger] members[k]).key != key,
        },
    decreases members.len() - i,
{
    if i < members.len() {
        lemma_member(members, key, i + 1);
    }
}

/// Whether an object gives a text under a key.
pub open spec fn gives_text(members: Seq<Member>, key: Seq<char>, text: Seq<char>) -> bool {
    exists|i: int| #[trigger] stands_at(members, key, i) && members[i].value == Json::Text(text)
}

/// The names of an identifier path.
pub open spec fn path_text(path: crate::syntax::ast::IdentPath) -> Seq<char> {
    joined(Seq::new(path.segments@.len(), |i: int| path.segments@[i].name.text@))
}

/// The names of a path.
pub open spec fn index_text(path: crate::syntax::ast::NamePath) -> Seq<char> {
    joined(Seq::new(path.segments@.len(), |i: int| path.segments@[i].text@))
}

/// Whether an expression is what a JSON value means: a truth value or a number
/// is the literal with that value, a text is the expression that it spells, and
/// an object is a constructor call or a map whose parts are what the members
/// mean, each under its own key.
pub open spec fn denotes(json: Json, values: Seq<DecimalValue>, e: Expr) -> bool
    decreases json, 0nat,
{
    match json {
        Json::Flag(value) => e.kind == ExprKind::Bool(value),
        Json::Number(ExactJsonNumber::Integer(n)) => e.kind == ExprKind::Integer(n),
        Json::Number(ExactJsonNumber::FiniteFloat(value)) => e.kind == ExprKind::Number(value),
        Json::Text(text) => spells(text, values, e.to_term(Reading::Exact)),
        Json::Object(members) => match e.kind {
            ExprKind::ConstructorCall { callee, generic_args, fields } => {
                &&& generic_args@.len() == 0
                &&& names_constructor(members, path_text(callee))
                &&& denotes_call(members, values, fields@)
            },
            ExprKind::MapLiteral { entries } => denotes_map(members, values, entries@),
            _ => false,
        },
        Json::Null => false,
        Json::Array => false,
    }
}

/// Whether a text, read as source text, is an expression.
#[verifier::opaque]
pub open spec fn spells(text: Seq<char>, values: Seq<DecimalValue>, t: Term) -> bool {
    match crate::syntax::parser::decl_grammar::single_expression(source_input(text, values)) {
        Parse::Read(found, _) => found == t,
        Parse::Refused(_) => false,
    }
}

/// Whether an object names a constructor.
pub open spec fn names_constructor(members: Seq<Member>, name: Seq<char>) -> bool {
    gives_text(members, "variant"@, name) || gives_text(members, "type"@, name)
}

pub open spec fn denotes_call(members: Seq<Member>, values: Seq<DecimalValue>, fields: Seq<FieldInit>) -> bool
    decreases members, 1nat,
{
    ||| fields.len() == 0 && forall|i: int| !(#[trigger] stands_at(members, "fields"@, i))
    ||| exists|i: int| #[trigger]
        stands_at(members, "fields"@, i) && 0 <= i < members.len() && denotes_fields(members[i], values, fields)
}

pub open spec fn denotes_map(members: Seq<Member>, values: Seq<DecimalValue>, entries: Seq<MapEntry>) -> bool
    decreases members, 1nat,
{
    exists|i: int| #[trigger]
        stands_at(members, "entries"@, i) && 0 <= i < members.len() && denotes_entries(
            members[i],
            members,
            values,
            entries,
        )
}

pub open spec fn denotes_fields(member: Member, values: Seq<DecimalValue>, fields: Seq<FieldInit>) -> bool
    decreases member,
{
    match member.value {
        Json::Object(of) => denotes_each_field(of, values, fields),
        _ => false,
    }
}

pub open spec fn denotes_each_field(of: Seq<Member>, values: Seq<DecimalValue>, fields: Seq<FieldInit>) -> bool
    decreases of,
{
    fields.len() == of.len() && forall|i: int|
        0 <= i < of.len() ==> (#[trigger] of[i]).key == fields[i].name.value.atom.text@ && denotes(
            of[i].value,
            values,
            fields[i].value,
        )
}

/// Whether the key of an entry is a variant of an index.
pub open spec fn is_variant_of(members: Seq<Member>, key: MapEntryKey, variant: Seq<char>) -> bool {
    &&& key is Discrete
    &&& key->index.value is Named
    &&& gives_text(members, "index"@, index_text(key->index.value->Named_0))
    &&& key->entry.value is Named
    &&& key->entry.value->Named_0.atom.text@ == variant
}

pub open spec fn denotes_entries(
    member: Member,
    members: Seq<Member>,
    values: Seq<DecimalValue>,
    entries: Seq<MapEntry>,
) -> bool
    decreases member,
{
    match member.value {
        Json::Object(of) => denotes_each_entry(of, members, values, entries),
        _ => false,
    }
}

pub open spec fn denotes_each_entry(
    of: Seq<Member>,
    members: Seq<Member>,
    values: Seq<DecimalValue>,
    entries: Seq<MapEntry>,
) -> bool
    decreases of,
{
    entries.len() == of.len() && forall|i: int|
        0 <= i < of.len() ==> {
            &&& entries[i].keys@.len() == 1
            &&& is_variant_of(members, entries[i].keys@[0], (#[trigger] of[i]).key)
            &&& denotes(of[i].value, values, entries[i].value)
        }
}

proof fn lemma_path(path: crate::syntax::ast::IdentPath, text: Seq<char>)
    requires
        path.term(Spans::Kept) == ident_path_term(path_parts(text)),
    ensures
        path_text(path) == text,
{
    law_paths_are_split_at_their_dots(text);
    crate::syntax::parser::state::lemma_non_empty_term(path.segments, Spans::Kept);
    let names = Seq::new(path.segments@.len(), |i: int| path.segments@[i].name.text@);
    let mine = crate::syntax::term::seq_terms(path.segments@, Spans::Kept);
    let parts = path_parts(text);
    assert(mine.len() == parts.len());
    assert forall|i: int| 0 <= i < parts.len() implies names[i] == parts[i] by {
        assert(mine[i] == path.segments@[i].term(Spans::Kept));
    }
    assert(names =~= parts);
}

proof fn lemma_index_path(path: crate::syntax::ast::NamePath, text: Seq<char>)
    requires
        path.term(Spans::Kept) == name_path_term(path_parts(text)),
    ensures
        index_text(path) == text,
{
    law_paths_are_split_at_their_dots(text);
    crate::syntax::parser::state::lemma_non_empty_term(path.segments, Spans::Kept);
    let names = Seq::new(path.segments@.len(), |i: int| path.segments@[i].text@);
    let mine = crate::syntax::term::seq_terms(path.segments@, Spans::Kept);
    let parts = path_parts(text);
    assert(mine.len() == parts.len());
    assert forall|i: int| 0 <= i < parts.len() implies names[i] == parts[i] by {
        assert(mine[i] == path.segments@[i].term(Spans::Kept));
    }
    assert(names =~= parts);
}

proof fn lemma_literal_kind(kind: ExprKind, flag: bool, n: i64, value: FloatBits)
    ensures
        kind.to_term(Reading::Exact) == node1(Tag::ExprBool, Term::Flag(flag)) ==> kind == ExprKind::Bool(flag),
        kind.to_term(Reading::Exact) == node1(Tag::ExprInteger, Term::Int(n as int)) ==> kind == ExprKind::Integer(n),
        kind.to_term(Reading::Exact) == node1(Tag::ExprNumber, Term::Int(value.bits as int)) ==> kind
            == ExprKind::Number(value),
{
    reveal(ExprKind::to_term);
    match kind {
        ExprKind::Sugar(sugar) => {
            assert(kind.to_term(Reading::Exact) == sugar.to_term(Reading::Exact));
        },
        _ => {},
    }
}

proof fn lemma_constructor_kind(kind: ExprKind, callee: Term, generics: Seq<Term>, fields: Seq<Term>)
    requires
        kind.to_term(Reading::Exact) == node3(
            Tag::ExprConstructorCall,
            callee,
            Term::List(generics),
            Term::List(fields),
        ),
    ensures
        kind is ConstructorCall,
        kind->ConstructorCall_callee.term(Spans::Kept) == callee,
        GenericArg::terms(kind->ConstructorCall_generic_args, Reading::Exact) == generics,
        FieldInit::terms(kind->ConstructorCall_fields, Reading::Exact) == fields,
{
    reveal(ExprKind::to_term);
    match kind {
        ExprKind::Sugar(sugar) => {
            assert(kind.to_term(Reading::Exact) == sugar.to_term(Reading::Exact));
        },
        _ => {},
    }
}

proof fn lemma_map_kind(kind: ExprKind, entries: Seq<Term>)
    requires
        kind.to_term(Reading::Exact) == node1(Tag::ExprMapLiteral, Term::List(entries)),
    ensures
        kind is MapLiteral,
        MapEntry::terms(kind->entries, Reading::Exact) == entries,
{
    reveal(ExprKind::to_term);
    match kind {
        ExprKind::Sugar(sugar) => {
            assert(kind.to_term(Reading::Exact) == sugar.to_term(Reading::Exact));
        },
        _ => {},
    }
}

/// An expression that a JSON value is converted to is what the value means.
#[verifier::spinoff_prover]
#[verifier::rlimit(100)]
pub proof fn law_conversion_keeps_the_meaning(json: Json, param: Seq<char>, values: Seq<DecimalValue>, e: Expr)
    requires
        converted(json, param, values) == Ok::<Term, Fault>(e.to_term(Reading::Exact)),
    ensures
        denotes(json, values, e),
    decreases json, 0nat,
{
    match json {
        Json::Object(members) => lemma_object(members, param, values, e),
        Json::Text(text) => lemma_spelled(text, param, values, e.to_term(Reading::Exact)),
        Json::Null => {},
        Json::Array => {},
        Json::Flag(value) => lemma_literal_kind(e.kind, value, 0, FloatBits { bits: 0 }),
        Json::Number(ExactJsonNumber::Integer(n)) => lemma_literal_kind(e.kind, false, n, FloatBits { bits: 0 }),
        Json::Number(ExactJsonNumber::FiniteFloat(value)) => lemma_literal_kind(e.kind, false, 0, value),
    }
}

proof fn lemma_spelled(text: Seq<char>, param: Seq<char>, values: Seq<DecimalValue>, t: Term)
    requires
        converted_text(text, param, values) == Ok::<Term, Fault>(t),
    ensures
        spells(text, values, t),
{
    reveal(spells);
}

proof fn lemma_object(members: Seq<Member>, param: Seq<char>, values: Seq<DecimalValue>, e: Expr)
    requires
        converted_object(members, param, values) == Ok::<Term, Fault>(e.to_term(Reading::Exact)),
    ensures
        denotes(Json::Object(members), values, e),
    decreases members, members.len() + 2,
{
    let json = Json::Object(members);
    if crate::json::convert::has_member(members, "variant"@) {
        lemma_constructor(
            members,
            "variant"@,
            Fault::InvalidVariant(param),
            param,
            values,
            e,
        );
    } else if crate::json::convert::has_member(members, "type"@) {
        lemma_constructor(members, "type"@, Fault::InvalidType(param), param, values, e);
    } else {
        lemma_indexed(members, param, values, e);
    }
}

proof fn lemma_text(members: Seq<Member>, key: Seq<char>)
    ensures
        text_member(members, key) is Some ==> gives_text(members, key, text_member(members, key)->0),
{
    lemma_member(members, key, 0);
}

#[verifier::spinoff_prover]
#[verifier::rlimit(100)]
proof fn lemma_constructor(
    members: Seq<Member>,
    key: Seq<char>,
    otherwise: Fault,
    param: Seq<char>,
    values: Seq<DecimalValue>,
    e: Expr,
)
    requires
        key == "variant"@ || key == "type"@,
        converted_constructor(members, key, otherwise, param, values) == Ok::<Term, Fault>(e.to_term(Reading::Exact)),
    ensures
        e.kind is ConstructorCall,
        e.kind->ConstructorCall_generic_args@.len() == 0,
        names_constructor(members, path_text(e.kind->ConstructorCall_callee)),
        denotes_call(members, values, e.kind->ConstructorCall_fields@),
    decreases members, members.len() + 1,
{
    lemma_text(members, key);
    lemma_member(members, "fields"@, 0);
    let fields_term = match member_at(members, "fields"@, 0) {
        Some(i) => match members[i].value {
            Json::Object(of) => converted_fields(of, of.len(), param, values)->Ok_0,
            _ => Seq::empty(),
        },
        None => Seq::empty(),
    };
    lemma_constructor_kind(
        e.kind,
        ident_path_term(path_parts(text_member(members, key)->0)),
        Seq::empty(),
        fields_term,
    );
    match e.kind {
        ExprKind::ConstructorCall { callee, generic_args, fields } => {
            lemma_path(callee, text_member(members, key)->0);
            assert(GenericArg::terms(generic_args, Reading::Exact).len() == generic_args@.len());
            assert(FieldInit::terms(fields, Reading::Exact).len() == fields@.len());
            match member_at(members, "fields"@, 0) {
                Some(i) => match members[i].value {
                    Json::Object(of) => {
                        lemma_fields(of, of.len(), param, values, fields);
                        assert(stands_at(members, "fields"@, i));
                        assert(denotes_fields(members[i], values, fields@));
                    },
                    _ => {},
                },
                None => {
                    assert forall|i: int| !(#[trigger] stands_at(members, "fields"@, i)) by {}
                },
            }
        },
        _ => {},
    }
}

proof fn lemma_fields(of: Seq<Member>, n: nat, param: Seq<char>, values: Seq<DecimalValue>, fields: Vec<FieldInit>)
    requires
        n <= of.len(),
        converted_fields(of, n, param, values) is Ok,
        converted_fields(of, n, param, values)->Ok_0.len() <= fields@.len(),
        forall|i: int|
            0 <= i < converted_fields(of, n, param, values)->Ok_0.len() ==> converted_fields(
                of,
                n,
                param,
                values,
            )->Ok_0[i] == (#[trigger] fields@[i]).to_term(Reading::Exact),
    ensures
        converted_fields(of, n, param, values)->Ok_0.len() == n,
        forall|i: int|
            0 <= i < n ==> (#[trigger] of[i]).key == fields@[i].name.value.atom.text@ && denotes(
                of[i].value,
                values,
                fields@[i].value,
            ),
    decreases of, n,
{
    if n > 0 {
        let before = converted_fields(of, (n - 1) as nat, param, values)->Ok_0;
        let all = converted_fields(of, n, param, values)->Ok_0;
        let item = converted_field(of[n - 1], param, values)->Ok_0;
        assert(all == before.push(item));
        assert forall|i: int| 0 <= i < before.len() implies before[i] == (#[trigger] fields@[i]).to_term(
            Reading::Exact,
        ) by {
            assert(all[i] == before[i]);
        }
        lemma_fields(of, (n - 1) as nat, param, values, fields);
        assert(all[n - 1] == item);
        assert(fields@[n - 1].to_term(Reading::Exact) == item);
        law_conversion_keeps_the_meaning(
            of[n - 1].value,
            param + "."@ + of[n - 1].key,
            values,
            fields@[n - 1].value,
        );
    }
}

#[verifier::spinoff_prover]
#[verifier::rlimit(100)]
proof fn lemma_indexed(members: Seq<Member>, param: Seq<char>, values: Seq<DecimalValue>, e: Expr)
    requires
        converted_indexed(members, param, values) == Ok::<Term, Fault>(e.to_term(Reading::Exact)),
    ensures
        e.kind is MapLiteral,
        denotes_map(members, values, e.kind->entries@),
    decreases members, members.len() + 1,
{
    lemma_text(members, "index"@);
    lemma_member(members, "entries"@, 0);
    let name = text_member(members, "index"@)->0;
    let entries_term = match members[member_at(members, "entries"@, 0)->0].value {
        Json::Object(of) => converted_entries(of, of.len(), name_path_term(path_parts(name)), param, values)->Ok_0,
        _ => Seq::empty(),
    };
    lemma_map_kind(e.kind, entries_term);
    match e.kind {
        ExprKind::MapLiteral { entries } => {
            assert(MapEntry::terms(entries, Reading::Exact).len() == entries@.len());
            match member_at(members, "entries"@, 0) {
                Some(i) => match members[i].value {
                    Json::Object(of) => {
                        lemma_entries(of, of.len(), members, name, param, values, entries);
                        assert(stands_at(members, "entries"@, i));
                        assert(denotes_entries(members[i], members, values, entries@));
                    },
                    _ => {},
                },
                None => {},
            }
        },
        _ => {},
    }
}

proof fn lemma_entries(
    of: Seq<Member>,
    n: nat,
    members: Seq<Member>,
    name: Seq<char>,
    param: Seq<char>,
    values: Seq<DecimalValue>,
    entries: Vec<MapEntry>,
)
    requires
        n <= of.len(),
        gives_text(members, "index"@, name),
        converted_entries(of, n, name_path_term(path_parts(name)), param, values) is Ok,
        converted_entries(of, n, name_path_term(path_parts(name)), param, values)->Ok_0.len() <= entries@.len(),
        forall|i: int|
            0 <= i < converted_entries(of, n, name_path_term(path_parts(name)), param, values)->Ok_0.len()
                ==> converted_entries(of, n, name_path_term(path_parts(name)), param, values)->Ok_0[i] == (
            #[trigger] entries@[i]).to_term(Reading::Exact),
    ensures
        converted_entries(of, n, name_path_term(path_parts(name)), param, values)->Ok_0.len() == n,
        forall|i: int|
            0 <= i < n ==> {
                &&& entries@[i].keys@.len() == 1
                &&& is_variant_of(members, entries@[i].keys@[0], (#[trigger] of[i]).key)
                &&& denotes(of[i].value, values, entries@[i].value)
            },
    decreases of, n,
{
    if n > 0 {
        let index = name_path_term(path_parts(name));
        let before = converted_entries(of, (n - 1) as nat, index, param, values)->Ok_0;
        let all = converted_entries(of, n, index, param, values)->Ok_0;
        let item = converted_entry(of[n - 1], index, param, values)->Ok_0;
        assert(all == before.push(item));
        assert forall|i: int| 0 <= i < before.len() implies before[i] == (#[trigger] entries@[i]).to_term(
            Reading::Exact,
        ) by {
            assert(all[i] == before[i]);
        }
        lemma_entries(of, (n - 1) as nat, members, name, param, values, entries);
        assert(all[n - 1] == item);
        assert(entries@[n - 1].to_term(Reading::Exact) == item);
        lemma_one_entry(of[n - 1], members, name, param, values, entries@[n - 1]);
    }
}

proof fn lemma_one_entry(
    member: Member,
    members: Seq<Member>,
    name: Seq<char>,
    param: Seq<char>,
    values: Seq<DecimalValue>,
    m: MapEntry,
)
    requires
        gives_text(members, "index"@, name),
        converted_entry(member, name_path_term(path_parts(name)), param, values) == Ok::<Term, Fault>(
            m.to_term(Reading::Exact),
        ),
    ensures
        m.keys@.len() == 1,
        is_variant_of(members, m.keys@[0], member.key),
        denotes(member.value, values, m.value),
    decreases member,
{
    let place = param + "["@ + member.key + "]"@;
    law_conversion_keeps_the_meaning(member.value, place, values, m.value);
    let first = m.keys.first.to_term(Reading::Exact);
    let rest = MapEntryKey::terms(m.keys.rest, Reading::Exact);
    let keys = crate::syntax::term::prepend(first, rest);
    assert(keys.len() == 1);
    assert(rest.len() == m.keys.rest@.len());
    assert(keys[0] == first);
    assert(m.keys@[0] == *m.keys.first);
    match *m.keys.first {
        MapEntryKey::Discrete { index, additional_index_spans, entry } => match index.value {
            MapEntryIndex::Named(path) => lemma_index_path(path, name),
            _ => {},
        },
        _ => {},
    }
}

/// Truth values and numbers that differ are converted to expressions that
/// differ.
pub proof fn law_scalars_stay_apart(a: Json, b: Json, param: Seq<char>, values: Seq<DecimalValue>, e: Expr)
    requires
        a is Flag || a is Number,
        b is Flag || b is Number,
        converted(a, param, values) == Ok::<Term, Fault>(e.to_term(Reading::Exact)),
        converted(b, param, values) == Ok::<Term, Fault>(e.to_term(Reading::Exact)),
    ensures
        a == b,
{
    law_conversion_keeps_the_meaning(a, param, values, e);
    law_conversion_keeps_the_meaning(b, param, values, e);
}

// Values as they are written.

/// `true`, `false` and `null` as they are written.
pub open spec fn true_bytes() -> Seq<u8> {
    seq![116u8, 114, 117, 101]
}

pub open spec fn false_bytes() -> Seq<u8> {
    seq![102u8, 97, 108, 115, 101]
}

pub open spec fn null_bytes() -> Seq<u8> {
    seq![110u8, 117, 108, 108]
}

/// A scalar is read as what is written: a truth value, nothing, a whole number
/// in the range of 64 bits with its sign, or a decimal number with the value
/// that is listed for its text.
pub proof fn law_scalars_are_read_as_written(raw: RawJson, path: Seq<Step>, values: Seq<DecimalValue>)
    ensures
        ({
            let bytes = encode_utf8(raw.text@);
            let found = exact_value(raw, path, values);
            let n = digits_value(bytes);
            let m = digits_value(bytes.skip(1));
            &&& bytes == true_bytes() ==> found == Ok::<Json, Fault>(Json::Flag(true))
            &&& bytes == false_bytes() ==> found == Ok::<Json, Fault>(Json::Flag(false))
            &&& bytes == null_bytes() ==> found == Ok::<Json, Fault>(Json::Null)
            &&& all_digits(bytes) && n <= i64::MAX ==> found == Ok::<Json, Fault>(
                Json::Number(ExactJsonNumber::Integer(n as i64)),
            )
            &&& all_digits(bytes) && n > i64::MAX ==> found is Err
            &&& bytes.len() > 0 && bytes[0] == 45 && all_digits(bytes.skip(1)) && -m >= i64::MIN ==> found == Ok::<Json, Fault>(Json::Number(ExactJsonNumber::Integer((-m) as i64)))
            &&& bytes.len() > 0 && bytes[0] == 45 && all_digits(bytes.skip(1)) && -m < i64::MIN ==> found is Err
            &&& found is Ok && found->Ok_0 is Number && has_fraction(bytes) ==> exists|i: int|
                0 <= i < values.len() && (#[trigger] values[i]).text@ == raw.text@ && found == Ok::<Json, Fault>(
                    Json::Number(ExactJsonNumber::FiniteFloat(FloatBits { bits: values[i].bits })),
                )
        }),
{
    let bytes = encode_utf8(raw.text@);
    lemma_listed(values, raw.text@, 0);
    if all_digits(bytes) {
        assert(crate::syntax::lexer::is_digit(bytes[0]));
        assert(!has_fraction(bytes)) by {
            if has_fraction(bytes) {
                let i = choose|i: int| 0 <= i < bytes.len() && crate::json::exact::fraction_mark(#[trigger] bytes[i]);
                assert(crate::syntax::lexer::is_digit(bytes[i]));
            }
        }
    }
    if bytes.len() > 0 && bytes[0] == 45 && all_digits(bytes.skip(1)) {
        assert(bytes.skip(1) =~= bytes.subrange(1, bytes.len() as int));
        assert(!has_fraction(bytes)) by {
            if has_fraction(bytes) {
                let i = choose|i: int| 0 <= i < bytes.len() && crate::json::exact::fraction_mark(#[trigger] bytes[i]);
                if i > 0 {
                    assert(bytes.skip(1)[i - 1] == bytes[i]);
                    assert(crate::syntax::lexer::is_digit(bytes.skip(1)[i - 1]));
                }
            }
        }
    }
}

proof fn lemma_listed(values: Seq<DecimalValue>, text: Seq<char>, i: int)
    requires
        0 <= i <= values.len(),
    ensures
        match decimal_value(values, text, i) {
            Some(bits) => exists|k: int|
                i <= k < values.len() && (#[trigger] values[k]).text@ == text && values[k].bits == bits,
            None => forall|k: int| i <= k < values.len() ==> (#[trigger] values[k]).text@ != text,
        },
    decreases values.len() - i,
{
    if i < values.len() {
        lemma_listed(values, text, i + 1);
    }
}

proof fn lemma_exact_members(v: Vec<RawEntry>, n: nat, path: Seq<Step>, values: Seq<DecimalValue>)
    requires
        n <= v.len(),
        exact_members(v, n, path, values) is Ok,
    ensures
        exact_members(v, n, path, values)->Ok_0.len() == n,
        forall|i: int|
            0 <= i < n ==> {
                let member = #[trigger] exact_members(v, n, path, values)->Ok_0[i];
                &&& member.key == v[i].key@
                &&& exact_value(v[i].value, path.push(Step::Key(v[i].key@)), values) == Ok::<Json, Fault>(member.value)
            },
    decreases n,
{
    if n > 0 {
        lemma_exact_members(v, (n - 1) as nat, path, values);
    }
}

proof fn lemma_overrides(members: Seq<Member>, n: nat, values: Seq<DecimalValue>)
    requires
        n <= members.len(),
        overrides_of(members, n, values) is Ok,
    ensures
        overrides_of(members, n, values)->Ok_0.len() == n,
        forall|i: int|
            0 <= i < n ==> {
                let item = #[trigger] overrides_of(members, n, values)->Ok_0[i];
                &&& item.0 == members[i].key
                &&& converted(members[i].value, members[i].key, values) == Ok::<Term, Fault>(item.1)
            },
    decreases n,
{
    if n > 0 {
        lemma_overrides(members, (n - 1) as nat, values);
    }
}

/// Each member of the JSON object gives the parameter of its key the value that
/// it means, in order: there are as many values as members.
pub proof fn law_each_parameter_gets_its_own_value(
    raw: RawJson,
    values: Seq<DecimalValue>,
    i: int,
    o: Override,
)
    requires
        overrides(raw, values) is Ok,
        0 <= i < overrides(raw, values)->Ok_0.len(),
        (o.name.atom.text@, o.value.to_term(Reading::Exact)) == overrides(raw, values)->Ok_0[i],
    ensures
        raw.object is Ok,
        ({
            let entries = raw.object->Ok_0;
            let json = exact_value(entries@[i].value, seq![Step::Key(entries@[i].key@)], values);
            &&& entries@.len() == overrides(raw, values)->Ok_0.len()
            &&& o.name.atom.text@ == entries@[i].key@
            &&& json is Ok
            &&& denotes(json->Ok_0, values, o.value)
        }),
{
    let root = Seq::<Step>::empty();
    match exact_value(raw, root, values) {
        Ok(Json::Object(members)) => {
            let entries = raw.object->Ok_0;
            lemma_exact_members(entries, entries.len() as nat, root, values);
            lemma_overrides(members, members.len(), values);
            assert(members == exact_members(entries, entries.len() as nat, root, values)->Ok_0);
            assert(members[i].key == entries@[i].key@);
            assert(root.push(Step::Key(entries@[i].key@)) =~= seq![Step::Key(entries@[i].key@)]);
            law_conversion_keeps_the_meaning(members[i].value, members[i].key, values, o.value);
        },
        _ => {},
    }
}

} // verus!
