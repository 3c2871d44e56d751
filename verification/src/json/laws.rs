//! What holds of parameter values from JSON as a whole.

use crate::json::convert::{
    converted, converted_constructor, converted_entries, converted_entry, converted_field, converted_fields,
    converted_indexed, converted_object, converted_text, member_at, name_path_term, overrides, overrides_of,
    path_parts, source_input, text_member,
};
use crate::json::decimals::{decimals, entry_decimals, item_decimals, text_decimals, token_decimals};
use crate::json::error::{Fault, Step};
use crate::json::exact::{
    array_fault, decimal_value, exact_members, exact_object, exact_value, first_repeated, repeated, DecimalValue,
    Json, Member, RawEntry, RawJson,
};
use crate::syntax::lexer::lexemes_from;
use crate::syntax::parser::grammar::Input;
use crate::syntax::term::Term;
use crate::syntax::token::Token;
use vstd::prelude::*;
use vstd::utf8::encode_utf8;

verus! {

/// Whether no key occurs twice in a list of members.
pub open spec fn keys_distinct(members: Seq<Member>) -> bool {
    forall|i: int, j: int| 0 <= i < j < members.len() ==> (#[trigger] members[i]).key != (#[trigger] members[j]).key
}

/// Whether no object in a value has a key twice.
pub open spec fn all_distinct(json: Json) -> bool
    decreases json,
{
    match json {
        Json::Object(members) => keys_distinct(members) && members_distinct(members),
        _ => true,
    }
}

pub open spec fn members_distinct(members: Seq<Member>) -> bool
    decreases members,
{
    forall|i: int| 0 <= i < members.len() ==> all_distinct((#[trigger] members[i]).value)
}

proof fn lemma_no_repeats(entries: Seq<RawEntry>, n: int)
    requires
        0 <= n,
        first_repeated(entries, n) is None,
    ensures
        forall|i: int| n <= i < entries.len() ==> !#[trigger] repeated(entries, i),
    decreases entries.len() - n,
{
    if n < entries.len() {
        lemma_no_repeats(entries, n + 1);
    }
}

proof fn lemma_members(v: Vec<RawEntry>, n: nat, path: Seq<Step>, values: Seq<DecimalValue>)
    requires
        n <= v.len(),
        exact_members(v, n, path, values) is Ok,
    ensures
        exact_members(v, n, path, values)->Ok_0.len() == n,
        forall|i: int| 0 <= i < n ==> (#[trigger] exact_members(v, n, path, values)->Ok_0[i]).key == v[i].key@,
        members_distinct(exact_members(v, n, path, values)->Ok_0),
    decreases v, n,
{
    if n > 0 {
        lemma_members(v, (n - 1) as nat, path, values);
        law_keys_are_distinct(v[n - 1].value, path.push(Step::Key(v[n - 1].key@)), values);
    }
}

/// A JSON value that is accepted has no object with a key twice, at any depth.
pub proof fn law_keys_are_distinct(raw: RawJson, path: Seq<Step>, values: Seq<DecimalValue>)
    ensures
        match exact_value(raw, path, values) {
            Ok(json) => all_distinct(json),
            Err(_) => true,
        },
    decreases raw,
{
    match exact_value(raw, path, values) {
        Ok(Json::Object(members)) => {
            let entries = raw.object->Ok_0;
            lemma_no_repeats(entries@, 0);
            lemma_members(entries, entries.len() as nat, path, values);
            assert forall|i: int, j: int| 0 <= i < j < members.len() implies (#[trigger] members[i]).key != (
            #[trigger] members[j]).key by {
                assert(!repeated(entries@, j));
                assert(members[i].key == entries[i].key@);
                assert(members[j].key == entries[j].key@);
            }
        },
        _ => {},
    }
}

/// An object with a key twice is refused, whatever else it holds.
pub proof fn law_repeated_keys_are_refused(raw: RawJson, path: Seq<Step>, values: Seq<DecimalValue>, i: int, j: int)
    requires
        raw.object is Ok,
        0 <= i < j < raw.object->Ok_0.len(),
        raw.object->Ok_0[i].key@ == raw.object->Ok_0[j].key@,
    ensures
        exact_object(raw, path, values) is Err,
        exact_object(raw, path, values)->Err_0 is DuplicateKey,
{
    let entries = raw.object->Ok_0;
    if first_repeated(entries@, 0) is None {
        lemma_no_repeats(entries@, 0);
        assert(entries@[i].key@ == entries@[j].key@);
        assert(repeated(entries@, j));
    }
}

proof fn lemma_overrides(members: Seq<Member>, n: nat, values: Seq<DecimalValue>)
    requires
        n <= members.len(),
        overrides_of(members, n, values) is Ok,
    ensures
        overrides_of(members, n, values)->Ok_0.len() == n,
        forall|i: int| 0 <= i < n ==> (#[trigger] overrides_of(members, n, values)->Ok_0[i]).0 == members[i].key,
    decreases n,
{
    if n > 0 {
        lemma_overrides(members, (n - 1) as nat, values);
    }
}

/// No parameter is given a value twice.
pub proof fn law_parameters_are_distinct(raw: RawJson, values: Seq<DecimalValue>)
    ensures
        match overrides(raw, values) {
            Ok(found) => forall|i: int, j: int|
                0 <= i < j < found.len() ==> (#[trigger] found[i]).0 != (#[trigger] found[j]).0,
            Err(_) => true,
        },
{
    law_keys_are_distinct(raw, Seq::empty(), values);
    match overrides(raw, values) {
        Ok(found) => {
            let members = exact_value(raw, Seq::empty(), values)->Ok_0->Object_0;
            lemma_overrides(members, members.len(), values);
            assert forall|i: int, j: int| 0 <= i < j < found.len() implies (#[trigger] found[i]).0 != (
            #[trigger] found[j]).0 by {
                assert(members[i].key != members[j].key);
            }
        },
        Err(_) => {},
    }
}

/// Whether two tables of values agree on some literals.
pub open spec fn agree(literals: Seq<Seq<char>>, a: Seq<DecimalValue>, b: Seq<DecimalValue>) -> bool {
    forall|i: int|
        0 <= i < literals.len() ==> decimal_value(a, #[trigger] literals[i], 0) == decimal_value(b, literals[i], 0)
}

proof fn lemma_agree(x: Seq<Seq<char>>, y: Seq<Seq<char>>, a: Seq<DecimalValue>, b: Seq<DecimalValue>)
    ensures
        agree(x + y, a, b) == (agree(x, a, b) && agree(y, a, b)),
{
    if agree(x + y, a, b) {
        assert forall|i: int| 0 <= i < x.len() implies decimal_value(a, #[trigger] x[i], 0) == decimal_value(
            b,
            x[i],
            0,
        ) by {
            assert((x + y)[i] == x[i]);
        }
        assert forall|i: int| 0 <= i < y.len() implies decimal_value(a, #[trigger] y[i], 0) == decimal_value(
            b,
            y[i],
            0,
        ) by {
            assert((x + y)[x.len() + i] == y[i]);
        }
    }
    if agree(x, a, b) && agree(y, a, b) {
        assert forall|i: int| 0 <= i < (x + y).len() implies decimal_value(a, #[trigger] (x + y)[i], 0)
            == decimal_value(b, (x + y)[i], 0) by {
            if i < x.len() {
                assert((x + y)[i] == x[i]);
            } else {
                assert((x + y)[i] == y[i - x.len()]);
            }
        }
    }
}

/// The literals in the strings of a value.
pub open spec fn json_decimals_agree(json: Json, a: Seq<DecimalValue>, b: Seq<DecimalValue>) -> bool
    decreases json,
{
    match json {
        Json::Text(text) => agree(text_decimals(text), a, b),
        Json::Object(members) => members_agree(members, a, b),
        _ => true,
    }
}

pub open spec fn members_agree(members: Seq<Member>, a: Seq<DecimalValue>, b: Seq<DecimalValue>) -> bool
    decreases members,
{
    forall|i: int| 0 <= i < members.len() ==> json_decimals_agree((#[trigger] members[i]).value, a, b)
}

proof fn lemma_exact_agrees(raw: RawJson, path: Seq<Step>, a: Seq<DecimalValue>, b: Seq<DecimalValue>)
    requires
        agree(decimals(raw), a, b),
    ensures
        exact_value(raw, path, a) == exact_value(raw, path, b),
        match exact_value(raw, path, a) {
            Ok(json) => json_decimals_agree(json, a, b),
            Err(_) => true,
        },
    decreases raw,
{
    let bytes = encode_utf8(raw.text@);
    if bytes.len() > 0 && bytes[0] != 34 {
        if bytes[0] == 123 {
            match raw.object {
                Ok(entries) => lemma_members_agree(entries, entries.len() as nat, path, a, b),
                Err(_) => {},
            }
        } else if bytes[0] == 91 {
            match raw.array {
                Ok(items) => lemma_items_agree(items, items.len() as nat, path, a, b),
                Err(_) => {},
            }
        } else {
            assert(decimals(raw)[0] == raw.text@);
        }
    }
}

proof fn lemma_members_agree(
    v: Vec<RawEntry>,
    n: nat,
    path: Seq<Step>,
    a: Seq<DecimalValue>,
    b: Seq<DecimalValue>,
)
    requires
        n <= v.len(),
        agree(entry_decimals(v, n), a, b),
    ensures
        exact_members(v, n, path, a) == exact_members(v, n, path, b),
        match exact_members(v, n, path, a) {
            Ok(members) => members_agree(members, a, b),
            Err(_) => true,
        },
    decreases v, n,
{
    if n > 0 {
        lemma_agree(entry_decimals(v, (n - 1) as nat), decimals(v[n - 1].value), a, b);
        lemma_members_agree(v, (n - 1) as nat, path, a, b);
        lemma_exact_agrees(v[n - 1].value, path.push(Step::Key(v[n - 1].key@)), a, b);
    }
}

proof fn lemma_items_agree(v: Vec<RawJson>, n: nat, path: Seq<Step>, a: Seq<DecimalValue>, b: Seq<DecimalValue>)
    requires
        n <= v.len(),
        agree(item_decimals(v, n), a, b),
    ensures
        array_fault(v, n, path, a) == array_fault(v, n, path, b),
    decreases v, n,
{
    if n > 0 {
        lemma_agree(item_decimals(v, (n - 1) as nat), decimals(v[n - 1]), a, b);
        lemma_items_agree(v, (n - 1) as nat, path, a, b);
        lemma_exact_agrees(v[n - 1], path.push(Step::Index((n - 1) as nat)), a, b);
    }
}

proof fn lemma_token_decimals(g: Input, n: nat, i: int, a: Seq<DecimalValue>, b: Seq<DecimalValue>)
    requires
        agree(token_decimals(g, n), a, b),
        0 <= i < n,
        g.is(i, Token::Number),
    ensures
        decimal_value(a, g.text(i), 0) == decimal_value(b, g.text(i), 0),
    decreases n,
{
    let before = token_decimals(g, (n - 1) as nat);
    if i == n - 1 {
        assert(token_decimals(g, n)[before.len() as int] == g.text(i));
    } else {
        if g.is(n - 1, Token::Number) {
            lemma_agree(before, seq![g.text(n - 1)], a, b);
            assert(before + seq![g.text(n - 1)] =~= before.push(g.text(n - 1)));
        }
        lemma_token_decimals(g, (n - 1) as nat, i, a, b);
    }
}

proof fn lemma_text_agrees(text: Seq<char>, param: Seq<char>, a: Seq<DecimalValue>, b: Seq<DecimalValue>)
    requires
        agree(text_decimals(text), a, b),
    ensures
        converted_text(text, param, a) == converted_text(text, param, b),
{
    let g = Input { bytes: encode_utf8(text), lexemes: lexemes_from(encode_utf8(text), 0), floats: Seq::empty() };
    assert forall|i: int| 0 <= i < g.lexemes.len() implies #[trigger] source_input(text, a).floats[i]
        == source_input(text, b).floats[i] by {
        if g.is(i, Token::Number) {
            lemma_token_decimals(g, g.lexemes.len(), i, a, b);
        }
    }
    assert(source_input(text, a).floats =~= source_input(text, b).floats);
}

proof fn lemma_member_at(members: Seq<Member>, key: Seq<char>, i: int)
    requires
        0 <= i,
    ensures
        match member_at(members, key, i) {
            Some(k) => i <= k < members.len(),
            None => true,
        },
    decreases members.len() - i,
{
    if i < members.len() {
        lemma_member_at(members, key, i + 1);
    }
}

proof fn lemma_converted_agrees(json: Json, param: Seq<char>, a: Seq<DecimalValue>, b: Seq<DecimalValue>)
    requires
        json_decimals_agree(json, a, b),
    ensures
        converted(json, param, a) == converted(json, param, b),
    decreases json, 0nat,
{
    match json {
        Json::Text(text) => lemma_text_agrees(text, param, a, b),
        Json::Object(members) => lemma_object_agrees(members, param, a, b),
        _ => {},
    }
}

proof fn lemma_object_agrees(members: Seq<Member>, param: Seq<char>, a: Seq<DecimalValue>, b: Seq<DecimalValue>)
    requires
        members_agree(members, a, b),
    ensures
        converted_object(members, param, a) == converted_object(members, param, b),
    decreases members, members.len() + 2,
{
    lemma_member_at(members, "fields"@, 0);
    lemma_member_at(members, "entries"@, 0);
    match member_at(members, "fields"@, 0) {
        Some(i) => {
            assert(json_decimals_agree(members[i].value, a, b));
            match members[i].value {
                Json::Object(fields) => lemma_fields_agree(fields, fields.len(), param, a, b),
                _ => {},
            }
        },
        None => {},
    }
    lemma_constructor_agrees(members, "variant"@, Fault::InvalidVariant(param), param, a, b);
    lemma_constructor_agrees(members, "type"@, Fault::InvalidType(param), param, a, b);
    lemma_indexed_agrees(members, param, a, b);
}

proof fn lemma_constructor_agrees(
    members: Seq<Member>,
    key: Seq<char>,
    otherwise: Fault,
    param: Seq<char>,
    a: Seq<DecimalValue>,
    b: Seq<DecimalValue>,
)
    requires
        members_agree(members, a, b),
    ensures
        converted_constructor(members, key, otherwise, param, a) == converted_constructor(
            members,
            key,
            otherwise,
            param,
            b,
        ),
    decreases members, members.len() + 1,
{
    lemma_member_at(members, "fields"@, 0);
    match member_at(members, "fields"@, 0) {
        Some(i) => {
            assert(json_decimals_agree(members[i].value, a, b));
            match members[i].value {
                Json::Object(fields) => lemma_fields_agree(fields, fields.len(), param, a, b),
                _ => {},
            }
        },
        None => {},
    }
}

proof fn lemma_indexed_agrees(members: Seq<Member>, param: Seq<char>, a: Seq<DecimalValue>, b: Seq<DecimalValue>)
    requires
        members_agree(members, a, b),
    ensures
        converted_indexed(members, param, a) == converted_indexed(members, param, b),
    decreases members, members.len() + 1,
{
    lemma_member_at(members, "entries"@, 0);
    match (text_member(members, "index"@), member_at(members, "entries"@, 0)) {
        (Some(name), Some(i)) => {
            assert(json_decimals_agree(members[i].value, a, b));
            match members[i].value {
                Json::Object(entries) => lemma_entries_agree(
                    entries,
                    entries.len(),
                    name_path_term(path_parts(name)),
                    param,
                    a,
                    b,
                ),
                _ => {},
            }
        },
        _ => {},
    }
}

proof fn lemma_field_agrees(member: Member, param: Seq<char>, a: Seq<DecimalValue>, b: Seq<DecimalValue>)
    requires
        json_decimals_agree(member.value, a, b),
    ensures
        converted_field(member, param, a) == converted_field(member, param, b),
    decreases member,
{
    lemma_converted_agrees(member.value, param + "."@ + member.key, a, b);
}

proof fn lemma_fields_agree(
    members: Seq<Member>,
    n: nat,
    param: Seq<char>,
    a: Seq<DecimalValue>,
    b: Seq<DecimalValue>,
)
    requires
        members_agree(members, a, b),
        n <= members.len(),
    ensures
        converted_fields(members, n, param, a) == converted_fields(members, n, param, b),
    decreases members, n,
{
    if n > 0 {
        lemma_fields_agree(members, (n - 1) as nat, param, a, b);
        lemma_field_agrees(members[n - 1], param, a, b);
    }
}

proof fn lemma_entry_agrees(
    member: Member,
    index: Term,
    param: Seq<char>,
    a: Seq<DecimalValue>,
    b: Seq<DecimalValue>,
)
    requires
        json_decimals_agree(member.value, a, b),
    ensures
        converted_entry(member, index, param, a) == converted_entry(member, index, param, b),
    decreases member,
{
    lemma_converted_agrees(member.value, param + "["@ + member.key + "]"@, a, b);
}

proof fn lemma_entries_agree(
    members: Seq<Member>,
    n: nat,
    index: Term,
    param: Seq<char>,
    a: Seq<DecimalValue>,
    b: Seq<DecimalValue>,
)
    requires
        members_agree(members, a, b),
        n <= members.len(),
    ensures
        converted_entries(members, n, index, param, a) == converted_entries(members, n, index, param, b),
    decreases members, n,
{
    if n > 0 {
        lemma_entries_agree(members, (n - 1) as nat, index, param, a, b);
        lemma_entry_agrees(members[n - 1], index, param, a, b);
    }
}

proof fn lemma_overrides_agree(members: Seq<Member>, n: nat, a: Seq<DecimalValue>, b: Seq<DecimalValue>)
    requires
        members_agree(members, a, b),
        n <= members.len(),
    ensures
        overrides_of(members, n, a) == overrides_of(members, n, b),
    decreases n,
{
    if n > 0 {
        lemma_overrides_agree(members, (n - 1) as nat, a, b);
        assert(json_decimals_agree(members[n - 1].value, a, b));
        lemma_converted_agrees(members[n - 1].value, members[n - 1].key, a, b);
    }
}

/// The parameter values depend only on the values of the listed literals:
/// two tables of values that agree on those give the same result.
pub proof fn law_listed_literals_suffice(raw: RawJson, a: Seq<DecimalValue>, b: Seq<DecimalValue>)
    requires
        agree(decimals(raw), a, b),
    ensures
        overrides(raw, a) == overrides(raw, b),
{
    lemma_exact_agrees(raw, Seq::empty(), a, b);
    match exact_value(raw, Seq::empty(), a) {
        Ok(Json::Object(members)) => lemma_overrides_agree(members, members.len(), a, b),
        _ => {},
    }
}

} // verus!
