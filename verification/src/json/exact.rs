//! JSON values with distinct keys and representable numbers.

use crate::json::error::{Fault, JsonInputError, JsonNumberError, JsonPath, Step};
use crate::syntax::ast::FloatBits;
use crate::syntax::text::{bounded_number, parse_bounded};
use vstd::prelude::*;
use vstd::string::{StrSliceExecFns, StringSliceAdditionalSpecFns};
use vstd::utf8::encode_utf8;

verus! {

/// A member of a JSON object: the decoded key and the value.
#[derive(Debug)]
pub struct RawEntry {
    pub key: String,
    pub value: RawJson,
}

/// The text of a JSON value, without space in front, and what it gives when
/// it is read as an object and as an array: its parts, or the message that it
/// is refused with.
#[derive(Debug)]
pub struct RawJson {
    pub text: String,
    pub object: Result<Vec<RawEntry>, String>,
    pub array: Result<Vec<RawJson>, String>,
}

/// The value of a decimal literal.
#[derive(Debug)]
pub struct DecimalValue {
    pub text: String,
    /// The bits of the nearest binary64 number.
    pub bits: u64,
}

/// The values of decimal literals; one that is not listed has no finite value.
#[derive(Debug)]
pub struct DecimalValues {
    pub values: Vec<DecimalValue>,
}

/// The value of a decimal literal, if it has a finite one.
pub open spec fn decimal_value(values: Seq<DecimalValue>, text: Seq<char>, i: int) -> Option<u64>
    decreases values.len() - i,
{
    if i < 0 || i >= values.len() {
        None
    } else if values[i].text@ == text {
        Some(values[i].bits)
    } else {
        decimal_value(values, text, i + 1)
    }
}

impl DecimalValues {
    pub fn get(&self, text: &String) -> (r: Option<u64>)
        ensures
            r == decimal_value(self.values@, text@, 0),
    {
        for i in 0..self.values.len()
            invariant
                decimal_value(self.values@, text@, 0) == decimal_value(self.values@, text@, i as int),
        {
            if self.values[i].text == *text {
                return Some(self.values[i].bits);
            }
        }
        None
    }
}

/// A JSON number.
#[derive(Clone, Copy, Debug, PartialEq, Eq, Structural)]
pub enum ExactJsonNumber {
    Integer(i64),
    FiniteFloat(FloatBits),
}

/// A JSON value. The items of an array are checked and not kept.
#[derive(Debug)]
pub enum ExactJsonValue {
    String(String),
    Bool(bool),
    Number(ExactJsonNumber),
    Object(ExactJsonObject),
    Null,
    Array,
}

/// A member of a JSON object.
#[derive(Debug)]
pub struct ExactJsonEntry {
    pub key: String,
    pub value: ExactJsonValue,
}

/// A JSON object.
#[derive(Debug)]
pub struct ExactJsonObject {
    pub entries: Vec<ExactJsonEntry>,
}

/// What a JSON value is.
pub enum Json {
    Text(Seq<char>),
    Flag(bool),
    Number(ExactJsonNumber),
    Object(Seq<Member>),
    Null,
    Array,
}

/// A member of a JSON object.
pub struct Member {
    pub key: Seq<char>,
    pub value: Json,
}

impl ExactJsonValue {
    pub open spec fn to_json(self) -> Json
        decreases self,
    {
        match self {
            ExactJsonValue::String(text) => Json::Text(text@),
            ExactJsonValue::Bool(value) => Json::Flag(value),
            ExactJsonValue::Number(number) => Json::Number(number),
            ExactJsonValue::Object(object) => Json::Object(object.members()),
            ExactJsonValue::Null => Json::Null,
            ExactJsonValue::Array => Json::Array,
        }
    }
}

impl ExactJsonEntry {
    pub open spec fn to_member(self) -> Member
        decreases self,
    {
        Member { key: self.key@, value: self.value.to_json() }
    }

    pub open spec fn members(v: Vec<ExactJsonEntry>) -> Seq<Member>
        decreases v,
    {
        Seq::new(
            v.len() as nat,
            |i: int| if 0 <= i < v.len() { v[i].to_member() } else { Member { key: Seq::empty(), value: Json::Null } },
        )
    }
}

impl ExactJsonObject {
    pub open spec fn members(self) -> Seq<Member>
        decreases self,
    {
        ExactJsonEntry::members(self.entries)
    }
}

/// The text that a JSON string denotes, or the message that it is refused
/// with: what `serde_json` gives for it.
pub uninterp spec fn json_text(source: Seq<char>) -> Result<Seq<char>, Seq<char>>;

/// Trusted: `serde_json::from_str` into a `String`. The result is the decoded
/// text, or serde_json's message; it depends on the source alone.
#[verifier::external_body]
pub(crate) fn json_string(source: &str) -> (r: Result<String, String>)
    ensures
        match r {
            Ok(text) => json_text(source@) == Ok::<Seq<char>, Seq<char>>(text@),
            Err(message) => json_text(source@) == Err::<Seq<char>, Seq<char>>(message@),
        },
{
    match serde_json::from_str::<String>(source) {
        Ok(text) => Ok(text),
        Err(error) => Err(error.to_string()),
    }
}

/// Whether some bytes hold a decimal point or an exponent.
pub open spec fn has_fraction(bytes: Seq<u8>) -> bool {
    exists|i: int| 0 <= i < bytes.len() && fraction_mark(#[trigger] bytes[i])
}

/// Whether a byte is a decimal point or starts an exponent.
pub open spec fn fraction_mark(b: u8) -> bool {
    b == 46 || exponent_mark(b)
}

pub open spec fn exponent_mark(b: u8) -> bool {
    b == 69 || b == 101
}

/// The integer that some bytes denote, where it is in the signed 64-bit range.
pub open spec fn integer_value(bytes: Seq<u8>) -> Option<int> {
    if bytes.len() > 0 && bytes[0] == 45 {
        match bounded_number(bytes.subrange(1, bytes.len() as int), 0x8000_0000_0000_0000) {
            Some(n) => Some(-n),
            None => None,
        }
    } else if bytes.len() > 0 && bytes[0] == 43 {
        bounded_number(bytes.subrange(1, bytes.len() as int), 0x7fff_ffff_ffff_ffff)
    } else {
        bounded_number(bytes, 0x7fff_ffff_ffff_ffff)
    }
}

/// Whether a digit before the exponent is not zero.
pub open spec fn nonzero_significand(bytes: Seq<u8>) -> bool {
    exists|i: int|
        0 <= i < bytes.len() && 49 <= #[trigger] bytes[i] <= 57 && forall|j: int|
            0 <= j < i ==> !exponent_mark(#[trigger] bytes[j])
}

/// Whether some bits are those of a zero.
pub open spec fn is_zero(bits: u64) -> bool {
    bits == 0 || bits == 0x8000_0000_0000_0000
}

/// The number that a JSON number denotes, or why it is not accepted.
pub open spec fn number_value(
    text: Seq<char>,
    values: Seq<DecimalValue>,
) -> Result<ExactJsonNumber, JsonNumberError> {
    let bytes = encode_utf8(text);
    if !has_fraction(bytes) {
        match integer_value(bytes) {
            Some(n) => Ok(ExactJsonNumber::Integer(n as i64)),
            None => Err(JsonNumberError::IntegerOutOfRange),
        }
    } else {
        match decimal_value(values, text, 0) {
            None => Err(JsonNumberError::FloatOutOfRange),
            Some(bits) => if is_zero(bits) && nonzero_significand(bytes) {
                Err(JsonNumberError::FloatUnderflow)
            } else {
                Ok(ExactJsonNumber::FiniteFloat(FloatBits { bits }))
            },
        }
    }
}

/// Whether the key of the `n`th entry occurs before it.
pub open spec fn repeated(entries: Seq<RawEntry>, n: int) -> bool {
    exists|i: int| 0 <= i < n && (#[trigger] entries[i]).key@ == entries[n].key@
}

/// The first key, from the `n`th on, that occurs before.
pub open spec fn first_repeated(entries: Seq<RawEntry>, n: int) -> Option<Seq<char>>
    decreases entries.len() - n,
{
    if n < 0 || n >= entries.len() {
        None
    } else if repeated(entries, n) {
        Some(entries[n].key@)
    } else {
        first_repeated(entries, n + 1)
    }
}

/// The value that some JSON denotes.
pub open spec fn exact_value(raw: RawJson, path: Seq<Step>, values: Seq<DecimalValue>) -> Result<Json, Fault>
    decreases raw, 1nat,
{
    let bytes = encode_utf8(raw.text@);
    if bytes.len() == 0 {
        Err(Fault::EmptyRawValue)
    } else if bytes[0] == 34 {
        match json_text(raw.text@) {
            Ok(text) => Ok(Json::Text(text)),
            Err(message) => Err(Fault::Json(message)),
        }
    } else if bytes[0] == 123 {
        match exact_object(raw, path, values) {
            Ok(members) => Ok(Json::Object(members)),
            Err(fault) => Err(fault),
        }
    } else if bytes[0] == 91 {
        match raw.array {
            Err(message) => Err(Fault::Json(message@)),
            Ok(items) => match array_fault(items, items.len() as nat, path, values) {
                Some(fault) => Err(fault),
                None => Ok(Json::Array),
            },
        }
    } else if bytes[0] == 116 {
        Ok(Json::Flag(true))
    } else if bytes[0] == 102 {
        Ok(Json::Flag(false))
    } else if bytes[0] == 110 {
        Ok(Json::Null)
    } else {
        match number_value(raw.text@, values) {
            Ok(number) => Ok(Json::Number(number)),
            Err(reason) => Err(Fault::InvalidNumber(path, raw.text@, reason)),
        }
    }
}

/// The members that a JSON object has. Repeated keys are refused before any
/// value is read.
pub open spec fn exact_object(raw: RawJson, path: Seq<Step>, values: Seq<DecimalValue>) -> Result<Seq<Member>, Fault>
    decreases raw, 0nat,
{
    match raw.object {
        Err(message) => Err(Fault::Json(message@)),
        Ok(entries) => match first_repeated(entries@, 0) {
            Some(key) => Err(Fault::DuplicateKey(path, key)),
            None => exact_members(entries, entries.len() as nat, path, values),
        },
    }
}

pub open spec fn exact_members(v: Vec<RawEntry>, n: nat, path: Seq<Step>, values: Seq<DecimalValue>) -> Result<
    Seq<Member>,
    Fault,
>
    decreases v, n,
{
    if n == 0 || n > v.len() {
        Ok(Seq::empty())
    } else {
        match exact_members(v, (n - 1) as nat, path, values) {
            Err(fault) => Err(fault),
            Ok(before) => match exact_value(v[n - 1].value, path.push(Step::Key(v[n - 1].key@)), values) {
                Err(fault) => Err(fault),
                Ok(value) => Ok(before.push(Member { key: v[n - 1].key@, value })),
            },
        }
    }
}

/// What is wrong with the first `n` items of an array, if anything is.
pub open spec fn array_fault(v: Vec<RawJson>, n: nat, path: Seq<Step>, values: Seq<DecimalValue>) -> Option<Fault>
    decreases v, n,
{
    if n == 0 || n > v.len() {
        None
    } else {
        match array_fault(v, (n - 1) as nat, path, values) {
            Some(fault) => Some(fault),
            None => match exact_value(v[n - 1], path.push(Step::Index((n - 1) as nat)), values) {
                Err(fault) => Some(fault),
                Ok(_) => None,
            },
        }
    }
}

fn find_fraction(bytes: &[u8]) -> (r: bool)
    ensures
        r == has_fraction(bytes@),
{
    for i in 0..bytes.len()
        invariant
            forall|j: int| 0 <= j < i ==> !fraction_mark(#[trigger] bytes@[j]),
    {
        if bytes[i] == 46 || bytes[i] == 69 || bytes[i] == 101 {
            return true;
        }
    }
    false
}

fn find_nonzero_significand(bytes: &[u8]) -> (r: bool)
    ensures
        r == nonzero_significand(bytes@),
{
    for i in 0..bytes.len()
        invariant
            forall|j: int| 0 <= j < i ==> !exponent_mark(#[trigger] bytes@[j]) && !(49 <= bytes@[j] <= 57),
    {
        if bytes[i] == 69 || bytes[i] == 101 {
            assert(exponent_mark(bytes@[i as int]));
            return false;
        }
        if 49 <= bytes[i] && bytes[i] <= 57 {
            return true;
        }
    }
    false
}

fn parse_integer(bytes: &Vec<u8>) -> (r: Option<i64>)
    ensures
        match r {
            Some(n) => integer_value(bytes@) == Some(n as int),
            None => integer_value(bytes@) is None,
        },
{
    let len = bytes.len();
    assert(bytes@.subrange(0, len as int) =~= bytes@);
    if len > 0 && bytes[0] == 45 {
        return match parse_bounded(bytes, 1, len, 0x8000_0000_0000_0000) {
            Some(n) => Some((-(n as i128)) as i64),
            None => None,
        };
    }
    let start: usize = if len > 0 && bytes[0] == 43 { 1 } else { 0 };
    match parse_bounded(bytes, start, len, 0x7fff_ffff_ffff_ffff) {
        Some(n) => Some(n as i64),
        None => None,
    }
}

/// The number that a JSON number denotes.
pub fn parse_exact_number(text: &String, path: &JsonPath, values: &DecimalValues) -> (r: Result<
    ExactJsonNumber,
    JsonInputError,
>)
    ensures
        match r {
            Ok(number) => number_value(text@, values.values@) == Ok::<ExactJsonNumber, JsonNumberError>(number),
            Err(error) => match number_value(text@, values.values@) {
                Ok(_) => false,
                Err(reason) => error@ == Fault::InvalidNumber(path@, text@, reason),
            },
        },
{
    let bytes = text.as_str().as_bytes_vec();
    let reason = if !find_fraction(bytes.as_slice()) {
        match parse_integer(&bytes) {
            Some(n) => return Ok(ExactJsonNumber::Integer(n)),
            None => JsonNumberError::IntegerOutOfRange,
        }
    } else {
        match values.get(text) {
            None => JsonNumberError::FloatOutOfRange,
            Some(bits) => {
                let zero = bits == 0 || bits == 0x8000_0000_0000_0000;
                if !(zero && find_nonzero_significand(bytes.as_slice())) {
                    return Ok(ExactJsonNumber::FiniteFloat(FloatBits { bits }));
                }
                JsonNumberError::FloatUnderflow
            },
        }
    };
    Err(JsonInputError::InvalidNumber { path: path.copy(), value: text.clone(), reason })
}

fn is_repeated(entries: &Vec<RawEntry>, n: usize) -> (r: bool)
    requires
        n < entries@.len(),
    ensures
        r == repeated(entries@, n as int),
{
    for i in 0..n
        invariant
            n < entries@.len(),
            forall|j: int| 0 <= j < i ==> (#[trigger] entries@[j]).key@ != entries@[n as int].key@,
    {
        if entries[i].key == entries[n].key {
            return true;
        }
    }
    false
}

/// The first key that occurs a second time.
pub fn duplicate_key(entries: &Vec<RawEntry>) -> (r: Option<String>)
    ensures
        match r {
            Some(key) => first_repeated(entries@, 0) == Some(key@),
            None => first_repeated(entries@, 0) is None,
        },
{
    for n in 0..entries.len()
        invariant
            first_repeated(entries@, 0) == first_repeated(entries@, n as int),
    {
        if is_repeated(entries, n) {
            return Some(entries[n].key.clone());
        }
    }
    None
}

/// What reading a value gave.
pub open spec fn exact_result(r: Result<ExactJsonValue, JsonInputError>) -> Result<Json, Fault> {
    match r {
        Ok(value) => Ok(value.to_json()),
        Err(error) => Err(error@),
    }
}

/// The value that some JSON denotes.
pub fn parse_exact_value(raw: &RawJson, path: &JsonPath, values: &DecimalValues) -> (r: Result<
    ExactJsonValue,
    JsonInputError,
>)
    ensures
        exact_result(r) == exact_value(*raw, path@, values.values@),
    decreases raw, 1nat,
{
    let bytes = raw.text.as_str().as_bytes();
    if bytes.len() == 0 {
        return Err(JsonInputError::EmptyRawValue);
    }
    let first = bytes[0];
    if first == 34 {
        match json_string(raw.text.as_str()) {
            Ok(text) => Ok(ExactJsonValue::String(text)),
            Err(message) => Err(JsonInputError::Json { message }),
        }
    } else if first == 123 {
        match parse_exact_object(raw, path, values) {
            Ok(object) => Ok(ExactJsonValue::Object(object)),
            Err(error) => Err(error),
        }
    } else if first == 91 {
        match &raw.array {
            Err(message) => Err(JsonInputError::Json { message: message.clone() }),
            Ok(items) => match check_array(items, path, values) {
                Ok(_) => Ok(ExactJsonValue::Array),
                Err(error) => Err(error),
            },
        }
    } else if first == 116 {
        Ok(ExactJsonValue::Bool(true))
    } else if first == 102 {
        Ok(ExactJsonValue::Bool(false))
    } else if first == 110 {
        Ok(ExactJsonValue::Null)
    } else {
        match parse_exact_number(&raw.text, path, values) {
            Ok(number) => Ok(ExactJsonValue::Number(number)),
            Err(error) => Err(error),
        }
    }
}

proof fn lemma_members_fail(v: Vec<RawEntry>, n: nat, path: Seq<Step>, values: Seq<DecimalValue>)
    requires
        exact_members(v, n, path, values) is Err,
        n <= v.len(),
    ensures
        exact_members(v, v.len() as nat, path, values) == exact_members(v, n, path, values),
    decreases v.len() - n,
{
    if n < v.len() {
        lemma_members_fail(v, n + 1, path, values);
    }
}

proof fn lemma_array_fail(v: Vec<RawJson>, n: nat, path: Seq<Step>, values: Seq<DecimalValue>)
    requires
        array_fault(v, n, path, values) is Some,
        n <= v.len(),
    ensures
        array_fault(v, v.len() as nat, path, values) == array_fault(v, n, path, values),
    decreases v.len() - n,
{
    if n < v.len() {
        lemma_array_fail(v, n + 1, path, values);
    }
}

/// The object that some JSON denotes.
pub fn parse_exact_object(raw: &RawJson, path: &JsonPath, values: &DecimalValues) -> (r: Result<
    ExactJsonObject,
    JsonInputError,
>)
    ensures
        match r {
            Ok(object) => exact_object(*raw, path@, values.values@) == Ok::<Seq<Member>, Fault>(object.members()),
            Err(error) => exact_object(*raw, path@, values.values@) == Err::<Seq<Member>, Fault>(error@),
        },
    decreases raw, 0nat,
{
    match &raw.object {
        Err(message) => Err(JsonInputError::Json { message: message.clone() }),
        Ok(entries) => {
            match duplicate_key(entries) {
                Some(key) => return Err(JsonInputError::DuplicateKey { path: path.copy(), key }),
                None => {},
            }
            parse_members(entries, path, values)
        },
    }
}

fn parse_members(v: &Vec<RawEntry>, path: &JsonPath, values: &DecimalValues) -> (r: Result<
    ExactJsonObject,
    JsonInputError,
>)
    ensures
        match r {
            Ok(object) => exact_members(*v, v.len() as nat, path@, values.values@) == Ok::<Seq<Member>, Fault>(
                object.members(),
            ),
            Err(error) => exact_members(*v, v.len() as nat, path@, values.values@) == Err::<Seq<Member>, Fault>(
                error@,
            ),
        },
    decreases v,
{
    let mut entries: Vec<ExactJsonEntry> = Vec::new();
    assert(ExactJsonEntry::members(entries) =~= Seq::empty());
    for i in 0..v.len()
        invariant
            exact_members(*v, i as nat, path@, values.values@) == Ok::<Seq<Member>, Fault>(
                ExactJsonEntry::members(entries),
            ),
    {
        let place = path.object_key(&v[i].key);
        match parse_exact_value(&v[i].value, &place, values) {
            Ok(value) => {
                let entry = ExactJsonEntry { key: v[i].key.clone(), value };
                let ghost before = entries;
                entries.push(entry);
                assert(ExactJsonEntry::members(entries) =~= ExactJsonEntry::members(before).push(
                    entry.to_member(),
                ));
            },
            Err(error) => {
                proof {
                    lemma_members_fail(*v, (i + 1) as nat, path@, values.values@);
                }
                return Err(error);
            },
        }
    }
    Ok(ExactJsonObject { entries })
}

fn check_array(v: &Vec<RawJson>, path: &JsonPath, values: &DecimalValues) -> (r: Result<(), JsonInputError>)
    ensures
        match r {
            Ok(_) => array_fault(*v, v.len() as nat, path@, values.values@) is None,
            Err(error) => array_fault(*v, v.len() as nat, path@, values.values@) == Some(error@),
        },
    decreases v,
{
    for i in 0..v.len()
        invariant
            array_fault(*v, i as nat, path@, values.values@) is None,
    {
        let place = path.array_index(i);
        match parse_exact_value(&v[i], &place, values) {
            Ok(_) => {},
            Err(error) => {
                proof {
                    lemma_array_fail(*v, (i + 1) as nat, path@, values.values@);
                }
                return Err(error);
            },
        }
    }
    Ok(())
}

} // verus!
