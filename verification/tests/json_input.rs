use std::fmt;

use graphcal::json::convert::Overrides;
use graphcal::json::decimals::decimal_literals;
use graphcal::json::error::{JsonInputError, JsonNumberError, JsonPath};
use graphcal::json::exact::{DecimalValue, DecimalValues, RawEntry, RawJson};
use graphcal::syntax::ast::{Expr, ExprKind, MapEntryIndex, MapEntryKey};
use serde::de::{Deserialize, Deserializer, MapAccess, Visitor};
use serde_json::value::RawValue;

struct Entries<'a>(Vec<(String, &'a RawValue)>);

struct EntriesVisitor;

impl<'de> Visitor<'de> for EntriesVisitor {
    type Value = Entries<'de>;

    fn expecting(&self, formatter: &mut fmt::Formatter<'_>) -> fmt::Result {
        formatter.write_str("a JSON object")
    }

    fn visit_map<A: MapAccess<'de>>(self, mut map: A) -> Result<Self::Value, A::Error> {
        let mut entries = Vec::new();
        while let Some(key) = map.next_key::<String>()? {
            entries.push((key, map.next_value::<&'de RawValue>()?));
        }
        Ok(Entries(entries))
    }
}

impl<'de> Deserialize<'de> for Entries<'de> {
    fn deserialize<D: Deserializer<'de>>(deserializer: D) -> Result<Self, D::Error> {
        deserializer.deserialize_map(EntriesVisitor)
    }
}

/// A JSON text with the texts of its parts.
fn raw_json(text: &str) -> RawJson {
    let text = text.trim_start();
    RawJson {
        text: text.to_string(),
        object: serde_json::from_str::<Entries<'_>>(text)
            .map(|entries| {
                entries
                    .0
                    .into_iter()
                    .map(|(key, value)| RawEntry { key, value: raw_json(value.get()) })
                    .collect()
            })
            .map_err(|error| error.to_string()),
        array: serde_json::from_str::<Vec<&RawValue>>(text)
            .map(|items| items.into_iter().map(|item| raw_json(item.get())).collect())
            .map_err(|error| error.to_string()),
    }
}

fn json_to_overrides(text: &str) -> Result<Overrides, JsonInputError> {
    let whole: &RawValue =
        serde_json::from_str(text).map_err(|error| JsonInputError::Json { message: error.to_string() })?;
    let raw = raw_json(whole.get());
    let values = decimal_literals(&raw)
        .into_iter()
        .filter_map(|text| {
            let value = text.replace('_', "").parse::<f64>().ok().filter(|value| value.is_finite())?;
            Some(DecimalValue { bits: value.to_bits(), text })
        })
        .collect();
    graphcal::json::convert::json_to_overrides(&raw, &DecimalValues { values })
}

fn value_of<'a>(overrides: &'a Overrides, name: &str) -> &'a Expr {
    overrides.get(&name.to_string()).unwrap()
}

fn index_text(index: &MapEntryIndex) -> String {
    match index {
        MapEntryIndex::Named(path) => path.display_path(),
        MapEntryIndex::Finite(size) => format!("Fin({size})"),
    }
}

#[test]
fn quantity_with_units() {
    let overrides = json_to_overrides(r#"{"dry_mass": "1500.0 kg"}"#).unwrap();
    assert!(overrides.get(&"dry_mass".to_string()).is_some());
    let expr = value_of(&overrides, "dry_mass");
    assert!(matches!(expr.kind, ExprKind::QuantityLiteral { .. }));
}

#[test]
fn bool_value() {
    let overrides = json_to_overrides(r#"{"enabled": false}"#).unwrap();
    let expr = value_of(&overrides, "enabled");
    assert!(matches!(expr.kind, ExprKind::Bool(false)));
}

#[test]
fn integer_value() {
    let overrides = json_to_overrides(r#"{"count": 42}"#).unwrap();
    let expr = value_of(&overrides, "count");
    assert!(matches!(expr.kind, ExprKind::Integer(42)));
}

#[test]
fn dimensionless_float() {
    let overrides = json_to_overrides(r#"{"ratio": 3.33}"#).unwrap();
    let expr = value_of(&overrides, "ratio");
    assert!(matches!(expr.kind, ExprKind::Number(f) if (f64::from_bits(f.bits) - 3.33).abs() < f64::EPSILON));
}

#[test]
fn struct_single_variant() {
    let json = r#"{"transfer": {"type": "TransferResult", "fields": {"dv1": "150.0 m/s", "dv2": "250.0 m/s"}}}"#;
    let overrides = json_to_overrides(json).unwrap();
    let expr = value_of(&overrides, "transfer");
    match &expr.kind {
        ExprKind::ConstructorCall { callee, fields, .. } => {
            assert_eq!(callee.as_bare().unwrap().name.text, "TransferResult");
            assert_eq!(fields.len(), 2);
        }
        other => panic!("expected ConstructorCall, got {other:?}"),
    }
}

#[test]
fn struct_missing_type_key() {
    let json = r#"{"transfer": {"fields": {"dv1": "150.0 m/s"}}}"#;
    let result = json_to_overrides(json);
    assert!(result.is_err());
    let err = result.unwrap_err();
    assert!(
        matches!(err, JsonInputError::MissingTypeKey { .. }),
        "expected MissingTypeKey, got {err:?}"
    );
}

#[test]
fn object_unknown_key_errors() {
    let json = r#"{"transfer": {"type": "TransferResult", "fields": {}, "extra": 1}}"#;
    let err = json_to_overrides(json).unwrap_err();
    assert!(matches!(err, JsonInputError::UnknownObjectKey { key, .. } if key == "extra"));
}

#[test]
fn object_conflicting_shape_keys_error() {
    let json = r#"{"value": {"variant": "Ok", "type": "Result", "fields": {}}}"#;
    let err = json_to_overrides(json).unwrap_err();
    assert!(matches!(err, JsonInputError::ConflictingObjectKeys { .. }));
}

#[test]
fn tagged_union_with_fields() {
    let json = r#"{"maneuver": {"variant": "LowThrust", "fields": {"thrust": "0.5 N", "duration": "3600.0 s"}}}"#;
    let overrides = json_to_overrides(json).unwrap();
    let expr = value_of(&overrides, "maneuver");
    match &expr.kind {
        ExprKind::ConstructorCall { callee, fields, .. } => {
            assert_eq!(callee.as_bare().unwrap().name.text, "LowThrust");
            assert_eq!(fields.len(), 2);
        }
        other => panic!("expected ConstructorCall, got {other:?}"),
    }
}

#[test]
fn bare_variant_object() {
    let json = r#"{"status": {"variant": "Nominal"}}"#;
    let overrides = json_to_overrides(json).unwrap();
    let expr = value_of(&overrides, "status");
    match &expr.kind {
        ExprKind::ConstructorCall { callee, fields, .. } => {
            assert_eq!(callee.as_bare().unwrap().name.text, "Nominal");
            assert!(fields.is_empty());
        }
        other => panic!("expected ConstructorCall, got {other:?}"),
    }
}

#[test]
fn bare_variant_string() {
    // String "Nominal" is parsed as a GCL expression, which produces a ConstRef
    // (PascalCase identifier). The evaluator handles this as a bare variant.
    let json = r#"{"status": "Nominal"}"#;
    let overrides = json_to_overrides(json).unwrap();
    assert!(overrides.get(&"status".to_string()).is_some());
}

#[test]
fn named_label_indexed() {
    let json = r#"{"delta_v": {"index": "Maneuver", "entries": {"Departure": "3.0 km/s", "Correction": "0.2 km/s", "Insertion": "2.0 km/s"}}}"#;
    let overrides = json_to_overrides(json).unwrap();
    let expr = value_of(&overrides, "delta_v");
    match &expr.kind {
        ExprKind::MapLiteral { entries } => {
            assert_eq!(entries.len(), 3);
            let MapEntryKey::Discrete { index, .. } = entries[0].keys.get(0) else {
                panic!("expected a discrete map key")
            };
            assert_eq!(index_text(&index.value), "Maneuver");
        }
        other => panic!("expected MapLiteral, got {other:?}"),
    }
}

#[test]
fn ambiguous_object_rejected() {
    // A plain object with unrecognized keys should be rejected
    let json = r#"{"y": {"Departure": "10.0", "Correction": "9.5"}}"#;
    let result = json_to_overrides(json);
    assert!(result.is_err());
    let err = result.unwrap_err();
    assert!(
        matches!(err, JsonInputError::AmbiguousObject { .. }),
        "expected AmbiguousObject, got {err:?}"
    );
}

#[test]
fn unsupported_null() {
    let result = json_to_overrides(r#"{"x": null}"#);
    assert!(result.is_err());
}

#[test]
fn unsupported_array() {
    let result = json_to_overrides(r#"{"x": [1, 2, 3]}"#);
    assert!(result.is_err());
}

#[test]
fn top_level_not_object() {
    let result = json_to_overrides(r#""not an object""#);
    assert!(matches!(result, Err(JsonInputError::TopLevelNotObject)));
}

#[test]
fn expression_string_with_arithmetic() {
    let overrides = json_to_overrides(r#"{"x": "2.0 + 3.0"}"#).unwrap();
    let expr = value_of(&overrides, "x");
    assert!(matches!(expr.kind, ExprKind::BinOp { .. }));
}

#[test]
fn structured_json_accepts_qualified_constructor_and_index_paths() {
    let json = r#"{
            "status": {"variant": "lib.Pick", "fields": {"distance": 1}},
            "series": {"index": "lib.Phase", "entries": {"Burn": 1, "Coast": 2}}
        }"#;
    let overrides = json_to_overrides(json).unwrap();

    match &value_of(&overrides, "status").kind {
        ExprKind::ConstructorCall { callee, .. } => {
            let segments: Vec<_> = (0..callee.segments.len()).map(|i| callee.segments.get(i).name.as_str()).collect();
            assert_eq!(segments, ["lib", "Pick"]);
        }
        other => panic!("expected ConstructorCall, got {other:?}"),
    }

    match &value_of(&overrides, "series").kind {
        ExprKind::MapLiteral { entries } => {
            let MapEntryKey::Discrete { index, .. } = entries[0].keys.get(0) else {
                panic!("expected a discrete map key")
            };
            assert_eq!(index_text(&index.value), "lib.Phase");
        }
        other => panic!("expected MapLiteral, got {other:?}"),
    }
}

#[test]
fn duplicate_keys_are_rejected_at_every_object_level() {
    let top_level = json_to_overrides(r#"{"x": 1, "x": 2}"#).unwrap_err();
    assert!(matches!(
        top_level,
        JsonInputError::DuplicateKey { path, key }
            if path == JsonPath::root() && key == "x"
    ));

    let nested =
        json_to_overrides(r#"{"record": {"type": "Pair", "fields": {"x": 1, "x": 2}}}"#)
            .unwrap_err();
    assert!(matches!(
        nested,
        JsonInputError::DuplicateKey { path, key }
            if path.display() == "$[\"record\"][\"fields\"]" && key == "x"
    ));

    let decoded_duplicate = json_to_overrides(r#"{"x": 1, "\u0078": 2}"#).unwrap_err();
    assert!(matches!(
        decoded_duplicate,
        JsonInputError::DuplicateKey { path, key }
            if path == JsonPath::root() && key == "x"
    ));
}

#[test]
fn integer_tokens_are_accepted_only_in_the_i64_domain() {
    for (source, expected) in [
        (r#"{"x": -9223372036854775808}"#, i64::MIN),
        (r#"{"x": 9223372036854775807}"#, i64::MAX),
    ] {
        let overrides = json_to_overrides(source).unwrap();
        assert!(
            matches!(value_of(&overrides, "x").kind, ExprKind::Integer(value) if value == expected)
        );
    }

    for source in [
        r#"{"x": -9223372036854775809}"#,
        r#"{"x": 9223372036854775808}"#,
        r#"{"x": 18446744073709551615}"#,
        r#"{"x": -18446744073709551617}"#,
    ] {
        let error = json_to_overrides(source).unwrap_err();
        assert!(matches!(
            error,
            JsonInputError::InvalidNumber {
                reason: JsonNumberError::IntegerOutOfRange,
                ..
            }
        ));
    }
}

#[test]
fn decimal_tokens_require_a_finite_non_underflowing_binary64_value() {
    let rounded = json_to_overrides(r#"{"x": 9223372036854775808.0}"#).unwrap();
    assert!(matches!(
        value_of(&rounded, "x").kind,
        ExprKind::Number(value)
            if value.bits == 9_223_372_036_854_775_808.0_f64.to_bits()
    ));

    assert!(matches!(
        json_to_overrides(r#"{"x": 1e309}"#).unwrap_err(),
        JsonInputError::InvalidNumber {
            reason: JsonNumberError::FloatOutOfRange,
            ..
        }
    ));
    assert!(matches!(
        json_to_overrides(r#"{"x": 1e-400}"#).unwrap_err(),
        JsonInputError::InvalidNumber {
            reason: JsonNumberError::FloatUnderflow,
            ..
        }
    ));
    assert!(json_to_overrides(r#"{"x": 0e-400}"#).is_ok());
}

#[test]
fn duplicates_inside_an_unsupported_array_are_still_detected() {
    let error = json_to_overrides(r#"{"x": [{"field": 1, "field": 2}]}"#).unwrap_err();
    assert!(matches!(
        error,
        JsonInputError::DuplicateKey { path, key }
            if path.display() == "$[\"x\"][0]" && key == "field"
    ));
}

#[test]
fn dotted_parameter_names_are_reported_not_panicked() {
    let result = json_to_overrides(r#"{"module.x": 1}"#);
    assert!(
        matches!(
            result,
            Err(JsonInputError::InvalidName {
                role: "parameter",
                ..
            })
        ),
        "expected InvalidName for dotted parameter key, got {result:?}",
    );
}

#[test]
fn each_mistake_has_its_error() {
    let error = |text: &str| json_to_overrides(text).unwrap_err();
    assert!(matches!(error("{"), JsonInputError::Json { .. }));
    assert!(matches!(error(r#"{"x": "1 +"}"#), JsonInputError::ParseFailed { param, .. } if param == "x"));
    assert!(matches!(error(r#"{"x": {"variant": 1}}"#), JsonInputError::InvalidVariant { .. }));
    assert!(matches!(error(r#"{"x": {"variant": "V", "fields": 1}}"#), JsonInputError::InvalidFields { .. }));
    assert!(matches!(error(r#"{"x": {"type": 1, "fields": {}}}"#), JsonInputError::InvalidType { .. }));
    assert!(matches!(error(r#"{"x": {"index": 1, "entries": {}}}"#), JsonInputError::InvalidIndex { .. }));
    assert!(matches!(error(r#"{"x": {"index": "I", "entries": 1}}"#), JsonInputError::InvalidEntries { .. }));
    assert!(matches!(
        error(r#"{"x": {"variant": "a..b"}}"#),
        JsonInputError::InvalidName { role: "constructor", .. }
    ));
    assert!(matches!(
        error(r#"{"x": {"index": "I", "entries": {"a.b": 1}}}"#),
        JsonInputError::InvalidName { role: "index variant", .. }
    ));
    assert!(matches!(
        error(r#"{"x": {"variant": "V", "fields": {"": 1}}}"#),
        JsonInputError::InvalidName { role: "field", .. }
    ));
    assert!(matches!(error(r#"{"x": null}"#), JsonInputError::UnsupportedJsonType { kind: "null", .. }));
    assert!(matches!(error(r#"{"x": []}"#), JsonInputError::UnsupportedJsonType { kind: "array", .. }));
    let empty = RawJson { text: String::new(), object: Err(String::new()), array: Err(String::new()) };
    assert!(matches!(
        graphcal::json::convert::json_to_overrides(&empty, &DecimalValues { values: Vec::new() }),
        Err(JsonInputError::EmptyRawValue)
    ));
}

#[test]
fn messages_name_the_place() {
    let message = |text: &str| json_to_overrides(text).unwrap_err().message();
    assert_eq!(
        message(r#"{"a\\b": {"x": 1, "x": 2}}"#),
        "duplicate JSON key \"x\" in object at $[\"a\\\\b\"]"
    );
    assert_eq!(
        message(r#"{"x": [1, 9223372036854775808]}"#),
        "invalid JSON number \"9223372036854775808\" at $[\"x\"][1]: integer is outside the signed 64-bit range"
    );
    assert_eq!(message(r#"[]"#), "top-level JSON value must be an object");
    assert_eq!(
        message(r#"{"a.b": 1}"#),
        "invalid parameter name `a.b` for `a.b`: a name must not contain `.`"
    );
}

#[test]
fn strings_are_decoded_before_they_are_parsed() {
    let overrides = json_to_overrides(r#"{"x": "\u0040p + 1.5"}"#).unwrap();
    let ExprKind::BinOp { lhs, rhs, .. } = &value_of(&overrides, "x").kind else { panic!() };
    assert!(matches!(lhs.kind, ExprKind::GraphRef(_)));
    assert!(matches!(rhs.kind, ExprKind::Number(value) if value.bits == 1.5_f64.to_bits()));
}

#[test]
fn only_the_listed_literals_are_asked_for() {
    let raw = raw_json(r#"{"x": "2.5 km + f(1_0.5)", "y": [3e4, {"z": 7}], "w": 0.125}"#);
    assert_eq!(decimal_literals(&raw), ["2.5", "1_0.5", "3e4", "7", "0.125"]);
}
