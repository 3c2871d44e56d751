//! Which decimal literals the value of some JSON depends on.

use crate::json::exact::{json_string, json_text, RawEntry, RawJson};
use crate::syntax::lexer::lexemes_from;
use crate::syntax::parser::grammar::Input;
use crate::syntax::parser::state::Parser;
use crate::syntax::token::Token;
use vstd::prelude::*;
use vstd::string::{StrSliceExecFns, StringSliceAdditionalSpecFns};
use vstd::utf8::encode_utf8;

verus! {

/// The numbers among the first `n` tokens.
pub open spec fn token_decimals(g: Input, n: nat) -> Seq<Seq<char>>
    decreases n,
{
    if n == 0 {
        Seq::empty()
    } else if g.is(n - 1, Token::Number) {
        token_decimals(g, (n - 1) as nat).push(g.text(n - 1))
    } else {
        token_decimals(g, (n - 1) as nat)
    }
}

/// The numbers in the source of an expression.
pub open spec fn text_decimals(text: Seq<char>) -> Seq<Seq<char>> {
    let g = Input { bytes: encode_utf8(text), lexemes: lexemes_from(encode_utf8(text), 0), floats: Seq::empty() };
    token_decimals(g, g.lexemes.len())
}

/// The numbers in some JSON, and in the expressions that its strings are.
pub open spec fn decimals(raw: RawJson) -> Seq<Seq<char>>
    decreases raw,
{
    let bytes = encode_utf8(raw.text@);
    if bytes.len() == 0 {
        Seq::empty()
    } else if bytes[0] == 34 {
        match json_text(raw.text@) {
            Ok(text) => text_decimals(text),
            Err(_) => Seq::empty(),
        }
    } else if bytes[0] == 123 {
        match raw.object {
            Ok(entries) => entry_decimals(entries, entries.len() as nat),
            Err(_) => Seq::empty(),
        }
    } else if bytes[0] == 91 {
        match raw.array {
            Ok(items) => item_decimals(items, items.len() as nat),
            Err(_) => Seq::empty(),
        }
    } else {
        seq![raw.text@]
    }
}

pub open spec fn entry_decimals(v: Vec<RawEntry>, n: nat) -> Seq<Seq<char>>
    decreases v, n,
{
    if n == 0 || n > v.len() {
        Seq::empty()
    } else {
        entry_decimals(v, (n - 1) as nat) + decimals(v[n - 1].value)
    }
}

pub open spec fn item_decimals(v: Vec<RawJson>, n: nat) -> Seq<Seq<char>>
    decreases v, n,
{
    if n == 0 || n > v.len() {
        Seq::empty()
    } else {
        item_decimals(v, (n - 1) as nat) + decimals(v[n - 1])
    }
}

/// Texts by what they say.
pub open spec fn texts(v: Seq<String>) -> Seq<Seq<char>> {
    v.map_values(|s: String| s@)
}

fn push_text(out: &mut Vec<String>, text: String)
    ensures
        texts(final(out)@) == texts(old(out)@).push(text@),
{
    let ghost before = out@;
    out.push(text);
    assert(texts(out@) =~= texts(before).push(text@));
}

fn push_text_decimals(text: &String, out: &mut Vec<String>)
    ensures
        texts(final(out)@) == texts(old(out)@) + text_decimals(text@),
{
    let parser = Parser::new(text.as_str());
    let literals = parser.decimal_literals();
    let ghost start = texts(out@);
    let ghost g = Input {
        bytes: encode_utf8(text@),
        lexemes: lexemes_from(encode_utf8(text@), 0),
        floats: Seq::empty(),
    };
    proof {
        assert(parser@.floats =~= Seq::empty());
        assert(parser@ == g);
        assert(start =~= start + Seq::empty());
    }
    for i in 0..literals.len()
        invariant
            literals@.len() == g.lexemes.len(),
            forall|j: int|
                0 <= j < literals@.len() ==> match #[trigger] literals@[j] {
                    Some(text) => g.is(j, Token::Number) && text@ == g.text(j),
                    None => !g.is(j, Token::Number),
                },
            texts(out@) == start + token_decimals(g, i as nat),
    {
        let ghost sofar = token_decimals(g, i as nat);
        assert(match literals@[i as int] {
            Some(text) => g.is(i as int, Token::Number) && text@ == g.text(i as int),
            None => !g.is(i as int, Token::Number),
        });
        match &literals[i] {
            Some(literal) => {
                push_text(out, literal.clone());
                assert((start + sofar).push(literal@) =~= start + sofar.push(literal@));
            },
            None => {},
        }
    }
}

/// The numbers in some JSON, and in the expressions that its strings are: the
/// texts whose values its conversion asks for.
pub fn decimal_literals(raw: &RawJson) -> (r: Vec<String>)
    ensures
        texts(r@) == decimals(*raw),
{
    let mut out: Vec<String> = Vec::new();
    assert(texts(out@) =~= Seq::empty());
    push_decimals(raw, &mut out);
    assert(texts(out@) =~= decimals(*raw));
    out
}

fn push_decimals(raw: &RawJson, out: &mut Vec<String>)
    ensures
        texts(final(out)@) == texts(old(out)@) + decimals(*raw),
    decreases raw,
{
    let ghost start = texts(out@);
    let bytes = raw.text.as_str().as_bytes();
    if bytes.len() == 0 {
        assert(start =~= start + decimals(*raw));
    } else if bytes[0] == 34 {
        match json_string(raw.text.as_str()) {
            Ok(text) => push_text_decimals(&text, out),
            Err(_) => {
                assert(start =~= start + decimals(*raw));
            },
        }
    } else if bytes[0] == 123 {
        match &raw.object {
            Ok(entries) => push_entry_decimals(entries, out),
            Err(_) => {
                assert(start =~= start + decimals(*raw));
            },
        }
    } else if bytes[0] == 91 {
        match &raw.array {
            Ok(items) => push_item_decimals(items, out),
            Err(_) => {
                assert(start =~= start + decimals(*raw));
            },
        }
    } else {
        push_text(out, raw.text.clone());
        assert(start.push(raw.text@) =~= start + decimals(*raw));
    }
}

fn push_entry_decimals(v: &Vec<RawEntry>, out: &mut Vec<String>)
    ensures
        texts(final(out)@) == texts(old(out)@) + entry_decimals(*v, v.len() as nat),
    decreases v,
{
    let ghost start = texts(out@);
    assert(start =~= start + Seq::empty());
    for i in 0..v.len()
        invariant
            texts(out@) == start + entry_decimals(*v, i as nat),
    {
        let ghost sofar = entry_decimals(*v, i as nat);
        push_decimals(&v[i].value, out);
        assert(start + sofar + decimals(v[i as int].value) =~= start + (sofar + decimals(v[i as int].value)));
    }
}

fn push_item_decimals(v: &Vec<RawJson>, out: &mut Vec<String>)
    ensures
        texts(final(out)@) == texts(old(out)@) + item_decimals(*v, v.len() as nat),
    decreases v,
{
    let ghost start = texts(out@);
    assert(start =~= start + Seq::empty());
    for i in 0..v.len()
        invariant
            texts(out@) == start + item_decimals(*v, i as nat),
    {
        let ghost sofar = item_decimals(*v, i as nat);
        push_decimals(&v[i], out);
        assert(start + sofar + decimals(v[i as int]) =~= start + (sofar + decimals(v[i as int])));
    }
}

} // verus!
