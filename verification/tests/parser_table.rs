use graphcal::syntax::ast::{DeclKind, ExprKind, MapEntryIndex, MapEntryKey, TableIndexSpec};
use graphcal::syntax::parser::error::ParseError;
use graphcal::syntax::parser::state::Parser;

/// A parser with the values of the decimal literals in the source.
fn parser(source: &str) -> Parser {
    let parser = Parser::new(source);
    let values = parser
        .decimal_literals()
        .into_iter()
        .map(|text| {
            text.and_then(|text| text.replace('_', "").parse::<f64>().ok())
                .filter(|value| value.is_finite())
                .map(f64::to_bits)
        })
        .collect();
    parser.with_float_values(values)
}

fn key_index(key: &MapEntryKey) -> String {
    match key {
        MapEntryKey::Discrete { index, .. } => match &index.value {
            MapEntryIndex::Named(path) => path.display_path(),
            MapEntryIndex::Finite(size) => format!("Fin({size})"),
        },
        MapEntryKey::Expression { .. } => panic!("expected a discrete key"),
    }
}

fn key_entry(key: &MapEntryKey) -> String {
    match key {
        MapEntryKey::Discrete { entry, .. } => entry.value.to_label(),
        MapEntryKey::Expression { .. } => panic!("expected a discrete key"),
    }
}

#[test]
fn parse_map_literal() {
    let source = "param dv: Velocity[Maneuver] = { Maneuver.Departure: 2.0 km/s, Maneuver.Correction: 0.05 km/s };";
    let file = parser(source).parse_file().unwrap();
    match &file.declarations[0].kind {
        DeclKind::Param(p) => match &p.value.as_ref().unwrap().kind {
            ExprKind::MapLiteral { entries } => {
                assert_eq!(entries.len(), 2);
                assert_eq!(
                    key_index(entries[0].keys.get(0)),
                    "Maneuver"
                );
                assert_eq!(
                    key_entry(entries[0].keys.get(0)),
                    "Departure"
                );
                assert_eq!(
                    key_index(entries[1].keys.get(0)),
                    "Maneuver"
                );
                assert_eq!(
                    key_entry(entries[1].keys.get(0)),
                    "Correction"
                );
            }
            other => panic!("expected MapLiteral, got {other:?}"),
        },
        _ => panic!("expected param"),
    }
}

fn named_index_name(spec: &TableIndexSpec) -> &str {
    match spec {
        TableIndexSpec::Named(s) => s.value.leaf().as_str(),
        TableIndexSpec::Finite { .. } => panic!("expected Named spec"),
    }
}

fn finite_index_size(spec: &TableIndexSpec) -> u64 {
    match spec {
        TableIndexSpec::Finite { cardinality, .. } => *cardinality,
        TableIndexSpec::Named(_) => panic!("expected Finite spec"),
    }
}

#[test]
fn parse_table_1d() {
    let source = r"param v: Velocity[Maneuver] = table[Maneuver] {
        Departure: 2.46 km/s;
        Correction: 0.12 km/s;
        Insertion: 1.83 km/s;
    };";
    let file = parser(source).parse_file().unwrap();
    match &file.declarations[0].kind {
        DeclKind::Param(p) => match &p.value.as_ref().unwrap().kind {
            ExprKind::Sugar(graphcal::syntax::ast::RawExprSugar::TableLiteral {
                indexes,
                entries,
            }) => {
                assert_eq!(indexes.len(), 1);
                assert_eq!(named_index_name(&indexes[0]), "Maneuver");
                assert_eq!(entries.len(), 3);
                assert_eq!(entries[0].keys.len(), 1);
                assert_eq!(
                    key_index(entries[0].keys.get(0)),
                    "Maneuver"
                );
                assert_eq!(
                    key_entry(entries[0].keys.get(0)),
                    "Departure"
                );
                assert_eq!(
                    key_entry(entries[1].keys.get(0)),
                    "Correction"
                );
                assert_eq!(
                    key_entry(entries[2].keys.get(0)),
                    "Insertion"
                );
            }
            other => panic!("expected TableLiteral, got {other:?}"),
        },
        _ => panic!("expected param"),
    }
}

fn additional_spans(key: &MapEntryKey) -> Vec<graphcal::syntax::span::Span> {
    match key {
        MapEntryKey::Discrete { additional_index_spans, .. } => additional_index_spans.clone(),
        MapEntryKey::Expression { .. } => panic!("expected a discrete key"),
    }
}

#[test]
fn parse_table_1d_finite() {
    let source = r"param v: Dimensionless[Fin(3)] = table[Fin(3)] {
        1.0;
        2.0;
        3.0;
    };";
    let file = parser(source).parse_file().unwrap();
    match &file.declarations[0].kind {
        DeclKind::Param(p) => match &p.value.as_ref().unwrap().kind {
            ExprKind::Sugar(graphcal::syntax::ast::RawExprSugar::TableLiteral {
                indexes,
                entries,
            }) => {
                assert_eq!(indexes.len(), 1);
                assert_eq!(finite_index_size(&indexes[0]), 3);
                assert_eq!(entries.len(), 3);
                assert_eq!(
                    key_index(entries[0].keys.get(0)),
                    "Fin(3)"
                );
                assert_eq!(key_entry(entries[0].keys.get(0)), "#0");
                assert_eq!(key_entry(entries[1].keys.get(0)), "#1");
                assert_eq!(key_entry(entries[2].keys.get(0)), "#2");
            }
            other => panic!("expected TableLiteral, got {other:?}"),
        },
        _ => panic!("expected param"),
    }
}

#[test]
fn table_rejects_bare_nat_axis_with_fin_suggestion() {
    let source = "param v: Dimensionless[Fin(3)] = table[3] { 1.0; 2.0; 3.0; };";
    let error = parser(source).parse_file().unwrap_err();
    assert!(
        matches!(
            error,
            ParseError::ExpectedIndexFoundNat { ref expression, .. } if expression == "3"
        ),
        "unexpected error: {error:?}"
    );
}

#[test]
fn parse_table_2d() {
    let source = r"param m: Mass[Phase, Maneuver] = table[Phase, Maneuver] {
        : Departure, Correction, Insertion;
        Launch:  5000.0 kg, 0.0 kg, 0.0 kg;
        Cruise:  0.0 kg, 4500.0 kg, 0.0 kg;
        Arrival: 0.0 kg, 0.0 kg, 4000.0 kg;
    };";
    let file = parser(source).parse_file().unwrap();
    match &file.declarations[0].kind {
        DeclKind::Param(p) => match &p.value.as_ref().unwrap().kind {
            ExprKind::Sugar(graphcal::syntax::ast::RawExprSugar::TableLiteral {
                indexes,
                entries,
            }) => {
                assert_eq!(indexes.len(), 2);
                assert_eq!(named_index_name(&indexes[0]), "Phase");
                assert_eq!(named_index_name(&indexes[1]), "Maneuver");
                assert_eq!(entries.len(), 9);
                assert_eq!(entries[0].keys.len(), 2);
                assert_eq!(
                    key_index(entries[0].keys.get(0)),
                    "Phase"
                );
                assert_eq!(
                    key_entry(entries[0].keys.get(0)),
                    "Launch"
                );
                assert_eq!(
                    key_index(entries[0].keys.get(1)),
                    "Maneuver"
                );
                assert_eq!(
                    key_entry(entries[0].keys.get(1)),
                    "Departure"
                );
                assert_eq!(
                    key_entry(entries[1].keys.get(1)),
                    "Correction"
                );
                assert_eq!(
                    key_entry(entries[8].keys.get(0)),
                    "Arrival"
                );
                assert_eq!(
                    key_entry(entries[8].keys.get(1)),
                    "Insertion"
                );
            }
            other => panic!("expected TableLiteral, got {other:?}"),
        },
        _ => panic!("expected param"),
    }
}

#[test]
fn parse_table_index_list_allows_trailing_comma() {
    let source = r"param m: Mass[Phase, Maneuver] = table[Phase, Maneuver,] {
        : Departure, Correction;
        Launch:  5000.0 kg, 0.0 kg;
        Cruise:  0.0 kg, 4500.0 kg;
    };";
    let file = parser(source).parse_file().unwrap();
    match &file.declarations[0].kind {
        DeclKind::Param(p) => match &p.value.as_ref().unwrap().kind {
            ExprKind::Sugar(graphcal::syntax::ast::RawExprSugar::TableLiteral {
                indexes,
                entries,
            }) => {
                assert_eq!(indexes.len(), 2);
                assert_eq!(named_index_name(&indexes[0]), "Phase");
                assert_eq!(named_index_name(&indexes[1]), "Maneuver");
                assert_eq!(entries.len(), 4);
            }
            other => panic!("expected TableLiteral, got {other:?}"),
        },
        _ => panic!("expected param"),
    }
}

#[test]
fn parse_table_2d_all_finite() {
    let source = r"param m: Dimensionless[Fin(2), Fin(3)] = table[Fin(2), Fin(3)] {
        1.0, 2.0, 3.0;
        4.0, 5.0, 6.0;
    };";
    let file = parser(source).parse_file().unwrap();
    match &file.declarations[0].kind {
        DeclKind::Param(p) => match &p.value.as_ref().unwrap().kind {
            ExprKind::Sugar(graphcal::syntax::ast::RawExprSugar::TableLiteral {
                indexes,
                entries,
            }) => {
                assert_eq!(indexes.len(), 2);
                assert_eq!(finite_index_size(&indexes[0]), 2);
                assert_eq!(finite_index_size(&indexes[1]), 3);
                assert_eq!(entries.len(), 6);
                assert_eq!(
                    key_index(entries[0].keys.get(0)),
                    "Fin(2)"
                );
                assert_eq!(key_entry(entries[0].keys.get(0)), "#0");
                assert_eq!(
                    key_index(entries[0].keys.get(1)),
                    "Fin(3)"
                );
                assert_eq!(key_entry(entries[0].keys.get(1)), "#0");
                assert_eq!(key_entry(entries[5].keys.get(0)), "#1");
                assert_eq!(key_entry(entries[5].keys.get(1)), "#2");
            }
            other => panic!("expected TableLiteral, got {other:?}"),
        },
        _ => panic!("expected param"),
    }
}

#[test]
fn parse_table_2d_finite_cols() {
    let source = r"param m: Dimensionless[Phase, Fin(3)] = table[Phase, Fin(3)] {
        Launch: 1.0, 2.0, 3.0;
        Cruise: 4.0, 5.0, 6.0;
    };";
    let file = parser(source).parse_file().unwrap();
    match &file.declarations[0].kind {
        DeclKind::Param(p) => match &p.value.as_ref().unwrap().kind {
            ExprKind::Sugar(graphcal::syntax::ast::RawExprSugar::TableLiteral {
                indexes,
                entries,
            }) => {
                assert_eq!(indexes.len(), 2);
                assert_eq!(named_index_name(&indexes[0]), "Phase");
                assert_eq!(finite_index_size(&indexes[1]), 3);
                assert_eq!(entries.len(), 6);
                assert_eq!(
                    key_index(entries[0].keys.get(0)),
                    "Phase"
                );
                assert_eq!(
                    key_entry(entries[0].keys.get(0)),
                    "Launch"
                );
                assert_eq!(
                    key_index(entries[0].keys.get(1)),
                    "Fin(3)"
                );
                assert_eq!(key_entry(entries[0].keys.get(1)), "#0");
                assert_eq!(key_entry(entries[2].keys.get(1)), "#2");
            }
            other => panic!("expected TableLiteral, got {other:?}"),
        },
        _ => panic!("expected param"),
    }
}

#[test]
fn parse_table_2d_finite_rows() {
    let source = r"param m: Dimensionless[Fin(2), Maneuver] = table[Fin(2), Maneuver] {
        : Departure, Correction;
        1.0, 2.0;
        3.0, 4.0;
    };";
    let file = parser(source).parse_file().unwrap();
    match &file.declarations[0].kind {
        DeclKind::Param(p) => match &p.value.as_ref().unwrap().kind {
            ExprKind::Sugar(graphcal::syntax::ast::RawExprSugar::TableLiteral {
                indexes,
                entries,
            }) => {
                assert_eq!(indexes.len(), 2);
                assert_eq!(finite_index_size(&indexes[0]), 2);
                assert_eq!(named_index_name(&indexes[1]), "Maneuver");
                assert_eq!(entries.len(), 4);
                assert_eq!(
                    key_index(entries[0].keys.get(0)),
                    "Fin(2)"
                );
                assert_eq!(key_entry(entries[0].keys.get(0)), "#0");
                assert_eq!(
                    key_index(entries[0].keys.get(1)),
                    "Maneuver"
                );
                assert_eq!(
                    key_entry(entries[0].keys.get(1)),
                    "Departure"
                );
                assert_eq!(key_entry(entries[3].keys.get(0)), "#1");
                assert_eq!(
                    key_entry(entries[3].keys.get(1)),
                    "Correction"
                );
            }
            other => panic!("expected TableLiteral, got {other:?}"),
        },
        _ => panic!("expected param"),
    }
}

#[test]
fn parse_table_3d() {
    let source = r"param m: Mass[Time, Phase, Maneuver] = table[Time, Phase, Maneuver] {
        [Time.T1]
        : Departure, Correction;
        Launch: 5000.0 kg, 0.0 kg;
        Cruise: 0.0 kg, 4500.0 kg;

        [Time.T2]
        : Departure, Correction;
        Launch: 4800.0 kg, 0.0 kg;
        Cruise: 0.0 kg, 4300.0 kg;
    };";
    let file = parser(source).parse_file().unwrap();
    match &file.declarations[0].kind {
        DeclKind::Param(p) => match &p.value.as_ref().unwrap().kind {
            ExprKind::Sugar(graphcal::syntax::ast::RawExprSugar::TableLiteral {
                indexes,
                entries,
            }) => {
                assert_eq!(indexes.len(), 3);
                assert_eq!(named_index_name(&indexes[0]), "Time");
                assert_eq!(named_index_name(&indexes[1]), "Phase");
                assert_eq!(named_index_name(&indexes[2]), "Maneuver");
                assert_eq!(entries.len(), 8);
                assert_eq!(entries[0].keys.len(), 3);
                assert_eq!(
                    key_index(entries[0].keys.get(0)),
                    "Time"
                );
                assert_eq!(key_entry(entries[0].keys.get(0)), "T1");
                assert_eq!(
                    key_index(entries[0].keys.get(1)),
                    "Phase"
                );
                assert_eq!(
                    key_entry(entries[0].keys.get(1)),
                    "Launch"
                );
                assert_eq!(
                    key_index(entries[0].keys.get(2)),
                    "Maneuver"
                );
                assert_eq!(
                    key_entry(entries[0].keys.get(2)),
                    "Departure"
                );
                assert_eq!(key_entry(entries[4].keys.get(0)), "T2");
                assert_eq!(
                    key_entry(entries[4].keys.get(1)),
                    "Launch"
                );
                assert_eq!(
                    key_entry(entries[4].keys.get(2)),
                    "Departure"
                );
            }
            other => panic!("expected TableLiteral, got {other:?}"),
        },
        _ => panic!("expected param"),
    }
}

#[test]
fn parse_table_qualified_axis_path() {
    let source = r"param v: Dimensionless[mission.Maneuver] = table[mission.Maneuver] {
        Departure: 2.46;
    };";
    let file = parser(source).parse_file().unwrap();
    match &file.declarations[0].kind {
        DeclKind::Param(p) => match &p.value.as_ref().unwrap().kind {
            ExprKind::Sugar(graphcal::syntax::ast::RawExprSugar::TableLiteral {
                indexes,
                entries,
            }) => {
                let TableIndexSpec::Named(axis) = &indexes[0] else {
                    panic!("expected named axis")
                };
                assert_eq!(axis.value.display_path(), "mission.Maneuver");
                assert_eq!(
                    key_index(entries[0].keys.get(0)),
                    "mission.Maneuver"
                );
            }
            other => panic!("expected TableLiteral, got {other:?}"),
        },
        _ => panic!("expected param"),
    }
}

#[test]
fn parse_table_qualified_slice_path() {
    let source = r"param m: Dimensionless[mission.Time, Phase, Maneuver] = table[mission.Time, Phase, Maneuver] {
        [mission.Time.T1]
        : Departure;
        Launch: 1.0;
    };";
    let file = parser(source).parse_file().unwrap();
    match &file.declarations[0].kind {
        DeclKind::Param(p) => match &p.value.as_ref().unwrap().kind {
            ExprKind::Sugar(graphcal::syntax::ast::RawExprSugar::TableLiteral {
                indexes,
                entries,
            }) => {
                let TableIndexSpec::Named(axis) = &indexes[0] else {
                    panic!("expected named axis")
                };
                assert_eq!(axis.value.display_path(), "mission.Time");
                assert_eq!(
                    key_index(entries[0].keys.get(0)),
                    "mission.Time"
                );
                assert_eq!(key_entry(entries[0].keys.get(0)), "T1");
                assert_eq!(
                    additional_spans(entries[0].keys.get(0)),
                    vec![axis.span]
                );
            }
            other => panic!("expected TableLiteral, got {other:?}"),
        },
        _ => panic!("expected param"),
    }
}

#[test]
fn parse_table_contextual_keyword_index_name() {
    let source = r"param m: Dimensionless[step] = table[step] {
        A: 1.0;
    };";
    let file = parser(source).parse_file().unwrap();
    match &file.declarations[0].kind {
        DeclKind::Param(p) => match &p.value.as_ref().unwrap().kind {
            ExprKind::Sugar(graphcal::syntax::ast::RawExprSugar::TableLiteral {
                indexes,
                entries,
            }) => {
                assert_eq!(indexes.len(), 1);
                assert_eq!(named_index_name(&indexes[0]), "step");
                assert_eq!(
                    key_index(entries[0].keys.get(0)),
                    "step"
                );
            }
            other => panic!("expected TableLiteral, got {other:?}"),
        },
        _ => panic!("expected param"),
    }
}

#[test]
fn parse_table_rejects_qualified_ordinary_labels() {
    let qualified_column = r"param m: Dimensionless[Phase, Maneuver] = table[Phase, Maneuver] {
        : Maneuver.Departure;
        Launch: 1.0;
    };";
    assert!(parser(qualified_column).parse_file().is_err());

    let qualified_row = r"param m: Dimensionless[Phase] = table[Phase] {
        Phase.Launch: 1.0;
    };";
    assert!(parser(qualified_row).parse_file().is_err());
}

#[test]
fn parse_table_3d_rejects_wrong_slice_axis_qualifier() {
    let source = r"param m: Mass[Time, Phase, Maneuver] = table[Time, Phase, Maneuver] {
        [Phase.T1]
        : Departure;
        Launch: 5000.0 kg;
    };";
    let err = parser(source).parse_file().unwrap_err();
    assert!(matches!(
        err,
        ParseError::UnexpectedToken { expected, found, .. }
            if expected == "slice axis `Time`" && found == "Phase"
    ));
}

#[test]
fn parse_table_3d_rejects_wrong_qualified_slice_path_with_same_leaf() {
    let source = r"param m: Mass[a.Time, Phase, Maneuver] = table[a.Time, Phase, Maneuver] {
        [b.Time.T1]
        : Departure;
        Launch: 5000.0 kg;
    };";
    let err = parser(source).parse_file().unwrap_err();
    assert!(matches!(
        err,
        ParseError::UnexpectedToken { expected, found, .. }
            if expected == "slice axis `a.Time`" && found == "b.Time"
    ));
}

#[test]
fn parse_table_3d_finite_slice() {
    let source = r"param m: Dimensionless[Fin(2), Phase, Maneuver] = table[Fin(2), Phase, Maneuver] {
        [#0]
        : Departure, Correction;
        Launch: 1.0, 2.0;
        Cruise: 3.0, 4.0;

        [#1]
        : Departure, Correction;
        Launch: 5.0, 6.0;
        Cruise: 7.0, 8.0;
    };";
    let file = parser(source).parse_file().unwrap();
    match &file.declarations[0].kind {
        DeclKind::Param(p) => match &p.value.as_ref().unwrap().kind {
            ExprKind::Sugar(graphcal::syntax::ast::RawExprSugar::TableLiteral {
                indexes,
                entries,
            }) => {
                assert_eq!(indexes.len(), 3);
                assert_eq!(finite_index_size(&indexes[0]), 2);
                assert_eq!(named_index_name(&indexes[1]), "Phase");
                assert_eq!(named_index_name(&indexes[2]), "Maneuver");
                assert_eq!(entries.len(), 8);
                assert_eq!(
                    key_index(entries[0].keys.get(0)),
                    "Fin(2)"
                );
                assert_eq!(key_entry(entries[0].keys.get(0)), "#0");
                assert_eq!(
                    key_entry(entries[0].keys.get(1)),
                    "Launch"
                );
                assert_eq!(
                    key_entry(entries[0].keys.get(2)),
                    "Departure"
                );
                assert_eq!(key_entry(entries[4].keys.get(0)), "#1");
            }
            other => panic!("expected TableLiteral, got {other:?}"),
        },
        _ => panic!("expected param"),
    }
}

#[test]
fn huge_finite_column_cardinality_is_rejected_without_materializing_keys() {
    let source = "param m: Dimensionless[Fin(1), Fin(18446744073709551615)] = table[Fin(1), Fin(18446744073709551615)] { 1.0; };";
    let error = parser(source).parse_file().unwrap_err();
    match error {
        ParseError::TableRowLengthMismatch { expected, got, .. } => {
            let expected: u64 = expected;
            let got: u64 = got;
            assert_eq!(expected, u64::MAX);
            assert_eq!(got, 1);
        }
        other => panic!("unexpected error: {other:?}"),
    }
}

#[test]
fn parse_table_row_length_mismatch() {
    let source = r"param m: Mass[Phase, Maneuver] = table[Phase, Maneuver] {
        : Departure, Correction, Insertion;
        Launch: 5000.0 kg, 0.0 kg;
    };";
    let err = parser(source).parse_file().unwrap_err();
    assert!(matches!(
        err,
        ParseError::TableRowLengthMismatch {
            expected: 3,
            got: 2,
            ..
        }
    ));
}
