use graphcal::syntax::ast;
use graphcal::syntax::ast::{
    DeclKind, Declaration, ExprKind, File, IndexEntryKey, MapEntryIndex, MapEntryKey, MultiDecl, MultiSlotKind,
    RawDeclSugar, TableIndexSpec, Visibility,
};
use graphcal::syntax::desugar::expand_multi_decl;
use graphcal::syntax::parser::error::ParseError;
use graphcal::syntax::parser::state::Parser;

/// A parser with the values of the decimal literals in the source.
fn parser(source: &str) -> Parser {
    let parser = Parser::new(source);
    let values = parser
        .decimal_literals()
        .into_iter()
        .map(|text| {
            text.and_then(|text| text.replace('_', "").parse::<f64>().ok())
                .filter(|value| value.is_finite())
                .map(f64::to_bits)
        })
        .collect();
    parser.with_float_values(values)
}

fn key_index(key: &MapEntryKey) -> String {
    match key {
        MapEntryKey::Discrete { index, .. } => match &index.value {
            MapEntryIndex::Named(path) => path.display_path(),
            MapEntryIndex::Finite(size) => format!("Fin({size})"),
        },
        MapEntryKey::Expression { .. } => panic!("expected a discrete key"),
    }
}

fn key_entry(key: &MapEntryKey) -> String {
    match key {
        MapEntryKey::Discrete { entry, .. } => entry.value.to_label(),
        MapEntryKey::Expression { .. } => panic!("expected a discrete key"),
    }
}

fn sole_multi_decl(file: &ast::File) -> &ast::MultiDecl {
    file.declarations
        .iter()
        .find_map(|d| match &d.kind {
            DeclKind::Sugar(graphcal::syntax::ast::RawDeclSugar::Multi(m)) => Some(m),
            _ => None,
        })
        .expect("file has one multi-decl")
}

fn node_visibility(decl: &ast::Declaration) -> Visibility {
    match &decl.kind {
        DeclKind::Node(node) => node.visibility,
        other => panic!("expected Node, got {other:?}"),
    }
}

#[test]
fn multi_decl_supports_finite_shared_row_axis() {
    let source = r"
param x: Dimensionless[Fin(2)],
param y: Dimensionless[Fin(2)]
  = table[Fin(2), (_, _)] {
      : _, _;
      1.0, 2.0;
      3.0, 4.0;
  };
";
    let file = parser(source).parse_file().unwrap();
    let multi = sole_multi_decl(&file);
    assert!(multi.shared_axes().row_axis().is_finite_index());
    assert_eq!(
        multi.slices()[0]
            .rows()
            .iter()
            .map(|row| row.label().value.clone())
            .collect::<Vec<_>>(),
        vec![IndexEntryKey::Position(0), IndexEntryKey::Position(1)]
    );

    let expanded = expand_multi_decl(multi);
    assert_eq!(expanded.len(), 2);
}

#[test]
fn huge_finite_multi_row_cardinality_preserves_u64_diagnostic_count() {
    let source = r"
param x: Dimensionless[Fin(18446744073709551615)],
param y: Dimensionless[Fin(18446744073709551615)]
  = table[Fin(18446744073709551615), (_, _)] {
      : _, _;
      1.0, 2.0;
  };
";
    let error = parser(source).parse_file().unwrap_err();
    match error {
        ParseError::TableRowLengthMismatch { expected, got, .. } => {
            let expected: u64 = expected;
            let got: u64 = got;
            assert_eq!(expected, u64::MAX);
            assert_eq!(got, 1);
        }
        other => panic!("unexpected error: {other:?}"),
    }
}

#[test]
fn multi_decl_homogeneous_1d() {
    let source = r"
index Component = { ComponentA, ComponentB };

param power_consumption: Power[Component],
param n_installed:       Int[Component]
  = table[Component, (_, _)] {
      :           _,       _;
      ComponentA: 10.0 W,  1;
      ComponentB: 12.0 W,  2;
  };
";
    let file = parser(source).parse_file().unwrap();
    // Parser emits: [index, multi-decl] — 2 top-level declarations.
    assert_eq!(file.declarations.len(), 2);

    let multi = sole_multi_decl(&file);
    assert_eq!(multi.slots().len(), 2);
    assert_eq!(multi.slots()[0].name.value.as_str(), "power_consumption");
    assert_eq!(multi.slots()[1].name.value.as_str(), "n_installed");
    assert_eq!(multi.slot_axes().len(), 2);
    assert!(matches!(
        multi.slot_axes()[0],
        ast::MultiSlotAxis::Underscore
    ));
    assert!(matches!(
        multi.slot_axes()[1],
        ast::MultiSlotAxis::Underscore
    ));
    assert_eq!(multi.slices().len(), 1);
    assert_eq!(multi.slices()[0].rows().len(), 2);

    // The desugar pass expands this to two separate Param decls each
    // carrying a 1-D TableLiteral.
    let desugared: Vec<_> = expand_multi_decl(multi)
        .into_iter()
        .map(graphcal::syntax::desugar::ExpandedSlotDecl::into_declaration)
        .collect();
    assert_eq!(desugared.len(), 2);
    let DeclKind::Param(first) = &desugared[0].kind else {
        panic!("expected Param")
    };
    match &first.value.as_ref().unwrap().kind {
        ExprKind::Sugar(graphcal::syntax::ast::RawExprSugar::TableLiteral {
            indexes,
            entries,
        }) => {
            assert_eq!(indexes.len(), 1);
            assert_eq!(entries.len(), 2);
        }
        other => panic!("expected TableLiteral, got {other:?}"),
    }
}

#[test]
fn multi_decl_mixed_kinds_param_node_const_node() {
    let source = r"
index Component = { ComponentA, ComponentB };

param      power_consumption: Power[Component],
node       installed_mass:    Mass[Component],
const node mass_per_unit:     Mass[Component]
  = table[Component, (_, _, _)] {
      :           _,       _,      _;
      ComponentA: 10.0 W,  2.5 kg, 1.2 kg;
      ComponentB: 12.0 W,  3.1 kg, 1.5 kg;
  };
";
    let file = parser(source).parse_file().unwrap();
    let multi = sole_multi_decl(&file);
    assert_eq!(multi.slots().len(), 3);
    assert_eq!(multi.slots()[0].kind, MultiSlotKind::Param);
    assert_eq!(multi.slots()[1].kind, MultiSlotKind::Node);
    assert_eq!(multi.slots()[2].kind, MultiSlotKind::ConstNode);
}

#[test]
fn multi_decl_requires_comma_before_slot_tuple() {
    let source = r"
param a: Int[I], param b: Int[I]
  = table[I (_, _)] {
      : _, _;
      X: 1, 2;
  };
";
    let err = parser(source).parse_file().unwrap_err();
    match err {
        ParseError::UnexpectedToken {
            expected, found, ..
        } => {
            assert_eq!(expected, "`,`");
            assert_eq!(found, "(");
        }
        other => panic!("expected a missing-comma diagnostic, got {other:?}"),
    }

    let valid_source = source.replace("table[I (", "table[I, (");
    parser(&valid_source).parse_file().unwrap();
}

#[test]
fn multi_decl_tuple_arity_mismatch() {
    let source = r"
param a: Int[Component], param b: Int[Component]
  = table[Component, (_,)] {
      : _, _;
      X: 1, 2;
  };
";
    let err = parser(source).parse_file().unwrap_err();
    assert!(
        matches!(
            err,
            ParseError::MultiDeclTupleArity {
                slot_count: 2,
                tuple_count: 1,
                ..
            }
        ),
        "expected MultiDeclTupleArity, got {err:?}",
    );
}

#[test]
fn multi_decl_row_arity_mismatch_names_slot() {
    let source = r"
param a: Int[Component], param b: Int[Component]
  = table[Component, (_, _)] {
      : _, _;
      X: 1;
  };
";
    let err = parser(source).parse_file().unwrap_err();
    match err {
        ParseError::MultiDeclRowArity {
            expected_count,
            got,
            row_label,
            ..
        } => {
            assert_eq!(expected_count, 2);
            assert_eq!(got, 1);
            assert_eq!(row_label, "X");
        }
        other => panic!("expected MultiDeclRowArity, got {other:?}"),
    }
}

#[test]
fn multi_decl_rejects_attributes() {
    let source = r"
#[hidden]
param a: Int[Component], param b: Int[Component]
  = table[Component, (_, _)] {
      : _, _;
      X: 1, 2;
  };
";
    let err = parser(source).parse_file().unwrap_err();
    assert!(
        matches!(err, ParseError::UnexpectedToken { .. }),
        "expected UnexpectedToken (attributes forbidden), got {err:?}",
    );
}

#[test]
fn multi_decl_first_slot_pub_param_still_rejected() {
    // `pub` on `param` is invalid per-slot — params are implicitly
    // visible+bindable and never carry an annotation. The leading `pub`
    // here applies to the first slot, so the error fires with that slot's
    // kind even though the multi-decl shape isn't recognized until the
    // first comma.
    let source = r"
pub param a: Int[Component], param b: Int[Component]
  = table[Component, (_, _)] {
      : _, _;
      X: 1, 2;
  };
";
    let err = parser(source).parse_file().unwrap_err();
    assert!(matches!(err, ParseError::UnexpectedToken { .. }));
}

#[test]
fn multi_decl_first_slot_pub_node_accepted() {
    // The leading `pub` becomes the first slot's visibility; the second
    // slot stays private.
    let source = r"
index Component = { ComponentA, ComponentB };

pub node a: Int[Component], node b: Int[Component]
  = table[Component, (_, _)] {
      :           _, _;
      ComponentA: 1, 2;
      ComponentB: 3, 4;
  };
";
    let file = parser(source).parse_file().unwrap();
    let multi = sole_multi_decl(&file);
    assert_eq!(multi.slots()[0].visibility, Visibility::Public);
    assert_eq!(multi.slots()[1].visibility, Visibility::Private);

    let desugared: Vec<_> = expand_multi_decl(multi)
        .into_iter()
        .map(graphcal::syntax::desugar::ExpandedSlotDecl::into_declaration)
        .collect();
    assert_eq!(node_visibility(&desugared[0]), Visibility::Public);
    assert_eq!(node_visibility(&desugared[1]), Visibility::Private);
}

#[test]
fn multi_decl_per_slot_visibility_mixed() {
    // First private, second pub via per-slot prefix after the comma.
    let source = r"
index Component = { ComponentA, ComponentB };

node a: Int[Component], pub node b: Int[Component]
  = table[Component, (_, _)] {
      :           _, _;
      ComponentA: 1, 2;
      ComponentB: 3, 4;
  };
";
    let file = parser(source).parse_file().unwrap();
    let multi = sole_multi_decl(&file);
    assert_eq!(multi.slots()[0].visibility, Visibility::Private);
    assert_eq!(multi.slots()[1].visibility, Visibility::Public);

    let desugared: Vec<_> = expand_multi_decl(multi)
        .into_iter()
        .map(graphcal::syntax::desugar::ExpandedSlotDecl::into_declaration)
        .collect();
    assert_eq!(node_visibility(&desugared[0]), Visibility::Private);
    assert_eq!(node_visibility(&desugared[1]), Visibility::Public);
}

#[test]
fn multi_decl_per_slot_pub_param_still_rejected() {
    // The per-slot rule fires for non-first slots too.
    let source = r"
index Component = { ComponentA, ComponentB };

node a: Int[Component], pub param b: Int[Component]
  = table[Component, (_, _)] {
      :           _, _;
      ComponentA: 1, 2;
      ComponentB: 3, 4;
  };
";
    let err = parser(source).parse_file().unwrap_err();
    assert!(matches!(err, ParseError::UnexpectedToken { .. }));
}

#[test]
fn multi_decl_per_slot_pub_bind_node_rejected() {
    // pub(bind) is meaningless on node / const node — same per-slot.
    let source = r"
index Component = { ComponentA, ComponentB };

node a: Int[Component], pub(bind) node b: Int[Component]
  = table[Component, (_, _)] {
      :           _, _;
      ComponentA: 1, 2;
      ComponentB: 3, 4;
  };
";
    let err = parser(source).parse_file().unwrap_err();
    assert!(matches!(err, ParseError::UnexpectedToken { .. }));
}

#[test]
fn multi_decl_v2_heterogeneous_accepted() {
    // v2: one extra-axis slot alongside multiple 1-D slots.
    let source = r"
index Component = { ComponentA, ComponentB };
index OperationMode = { Safe, Nominal };

param      power_consumption: Power[Component],
param      n_installed:       Int[Component],
const node mass_per_unit:     Mass[Component],
param      power_mode:        Bool[Component, OperationMode]
  = table[Component, (_, _, _, OperationMode)] {
      :            _,       _, _,      OperationMode.Safe,  OperationMode.Nominal;
      ComponentA:  10.0 W,  1, 2.5 kg,                true,                   true;
      ComponentB:  12.0 W,  2, 3.1 kg,               false,                   true;
  };
";
    let file = parser(source).parse_file().unwrap();
    let multi = sole_multi_decl(&file);
    assert_eq!(multi.slots().len(), 4);
    assert!(matches!(multi.slot_axes()[3], ast::MultiSlotAxis::Axis(_)));

    // After desugar, the 4th slot (`power_mode`) becomes a Param with a
    // 2-D TableLiteral over Component × OperationMode.
    let desugared: Vec<_> = expand_multi_decl(multi)
        .into_iter()
        .map(graphcal::syntax::desugar::ExpandedSlotDecl::into_declaration)
        .collect();
    assert_eq!(desugared.len(), 4);
    match &desugared[3].kind {
        DeclKind::Param(p) => match &p.value.as_ref().unwrap().kind {
            ExprKind::Sugar(graphcal::syntax::ast::RawExprSugar::TableLiteral {
                indexes,
                entries,
            }) => {
                assert_eq!(indexes.len(), 2);
                assert_eq!(entries.len(), 4); // 2 components × 2 modes
                assert_eq!(
                    key_index(entries[0].keys.get(0)),
                    "Component"
                );
                assert_eq!(
                    key_index(entries[0].keys.get(1)),
                    "OperationMode"
                );
            }
            other => panic!("expected TableLiteral, got {other:?}"),
        },
        other => panic!("expected Param, got {other:?}"),
    }
}

#[test]
fn multi_decl_v3_two_extra_axis_slots_rejected() {
    // v2 supports at most one extra-axis slot; two adjacent extra-axis
    // slots are v3 territory and must be rejected with a clear error.
    let source = r"
param a: Bool[Component, OperationMode],
param b: Bool[Component, OperationMode]
  = table[Component, (OperationMode, OperationMode)] {
      :           OperationMode.Safe, OperationMode.Nominal, OperationMode.Safe, OperationMode.Nominal;
      ComponentA:               true,                 false,               false,                  true;
  };
";
    let err = parser(source).parse_file().unwrap_err();
    assert!(
        matches!(err, ParseError::MultiDeclUnsupportedShape { .. }),
        "expected MultiDeclUnsupportedShape for two extra-axis slots, got {err:?}",
    );
}

#[test]
fn multi_decl_v3_sliced_shared_axes() {
    let source = r"
index Phase = { Launch, Cruise };
index Component = { ComponentA };

param p: Int[Phase, Component],
param q: Int[Phase, Component]
  = table[Phase, Component, (_, _)] {
      [Phase.Launch]
      :           _, _;
      ComponentA: 1, 2;

      [Phase.Cruise]
      :           _, _;
      ComponentA: 3, 4;
  };
";
    let file = parser(source).parse_file().unwrap();
    let multi = sole_multi_decl(&file);
    assert_eq!(multi.shared_axes().slice_axes().len() + 1, 2);
    assert_eq!(multi.slices().len(), 2);
    assert_eq!(multi.slices()[0].prefix_keys().len(), 1);
    assert_eq!(
        key_index(&multi.slices()[0].prefix_keys()[0]),
        "Phase"
    );

    // Desugared: each slot becomes a Param with a 2-D TableLiteral
    // keyed by (Phase, Component).
    let desugared: Vec<_> = expand_multi_decl(multi)
        .into_iter()
        .map(graphcal::syntax::desugar::ExpandedSlotDecl::into_declaration)
        .collect();
    assert_eq!(desugared.len(), 2);
    match &desugared[0].kind {
        DeclKind::Param(p) => match &p.value.as_ref().unwrap().kind {
            ExprKind::Sugar(graphcal::syntax::ast::RawExprSugar::TableLiteral {
                indexes,
                entries,
            }) => {
                assert_eq!(indexes.len(), 2);
                assert_eq!(entries.len(), 2); // 2 phases × 1 component
                for e in entries {
                    assert_eq!(e.keys.len(), 2);
                    assert_eq!(key_index(e.keys.get(0)), "Phase");
                    assert_eq!(key_index(e.keys.get(1)), "Component");
                }
            }
            other => panic!("expected TableLiteral, got {other:?}"),
        },
        other => panic!("expected Param, got {other:?}"),
    }
}

#[test]
fn multi_decl_v3_slice_axis_mismatch() {
    let source = r"
param p: Int[Phase, Component],
param q: Int[Phase, Component]
  = table[Phase, Component, (_, _)] {
      [Foo.Launch]
      :           _, _;
      ComponentA: 1, 2;
  };
";
    let err = parser(source).parse_file().unwrap_err();
    assert!(
        matches!(err, ParseError::MultiDeclUnsupportedShape { .. }),
        "expected MultiDeclUnsupportedShape for wrong slice axis, got {err:?}",
    );
}

#[test]
fn multi_decl_v2_canonical_qualified_header_cells_accepted() {
    // Heterogeneous header labels must retain the extra-axis owner.
    let source = r"
index Component = { ComponentA };
index OpMode = { Safe, Nominal };

param p: Power[Component],
param m: Bool[Component, OpMode]
  = table[Component, (_, OpMode)] {
      :           _,      OpMode.Safe, OpMode.Nominal;
      ComponentA: 10.0 W, true,         false;
  };
";
    let file = parser(source).parse_file().unwrap();
    // 2 index decls + 1 multi-decl.
    assert_eq!(file.declarations.len(), 3);
    let multi = sole_multi_decl(&file);
    assert_eq!(multi.slots().len(), 2);
}

#[test]
fn multi_decl_v2_bare_header_cells_rejected() {
    let source = r"
param p: Power[Component],
param m: Bool[Component, OpMode]
  = table[Component, (_, OpMode)] {
      :           _,      Safe, Nominal;
      ComponentA: 10.0 W, true, false;
  };
";
    assert!(parser(source).parse_file().is_err());
}

#[test]
fn multi_decl_preserves_qualified_axis_and_label_paths() {
    let source = r"
param p: Int[mission.Phase, mission.Component],
param m: Bool[mission.Phase, mission.Component, mission.Mode]
  = table[mission.Phase, mission.Component, (_, mission.Mode)] {
      [mission.Phase.Launch]
      :           _, mission.Mode.Safe;
      ComponentA: 1, true;
  };
";
    let file = parser(source).parse_file().unwrap();
    let multi = sole_multi_decl(&file);

    let TableIndexSpec::Named(slice_axis) = &multi.shared_axes().slice_axes()[0] else {
        panic!("expected named slice axis")
    };
    assert_eq!(slice_axis.value.display_path(), "mission.Phase");
    let TableIndexSpec::Named(row_axis) = multi.shared_axes().row_axis() else {
        panic!("expected named row axis")
    };
    assert_eq!(row_axis.value.display_path(), "mission.Component");
    let ast::MultiSlotAxis::Axis(slot_axis) = &multi.slot_axes()[1] else {
        panic!("expected named slot axis")
    };
    assert_eq!(slot_axis.value.display_path(), "mission.Mode");
    let ast::MultiHeaderCell::Variant { axis, variant, .. } =
        &multi.slices()[0].header_cells()[1]
    else {
        panic!("expected qualified header variant")
    };
    assert_eq!(axis.value.display_path(), "mission.Mode");
    assert_eq!(variant.value.as_str(), "Safe");
    assert_eq!(
        key_index(&multi.slices()[0].prefix_keys()[0]),
        "mission.Phase"
    );
}

#[test]
fn an_expanded_declaration_starts_at_its_own_header() {
    let source = "
param x: Dimensionless[Fin(2)],
pub node y: Dimensionless[Fin(2)],
const node z: Dimensionless[Fin(2)]
  = table[Fin(2), (_, _, _)] {
      : _, _, _;
      1.0, 2.0, 3.0;
      4.0, 5.0, 6.0;
  };
";
    let file = parser(source).parse_file().unwrap();
    let multi = sole_multi_decl(&file);
    let expanded: Vec<Declaration> = expand_multi_decl(multi).into_iter().map(|d| d.into_declaration()).collect();
    let close = source.rfind(';').unwrap() + 1;
    for (decl, keyword) in expanded.iter().zip(["param x", "node y", "const node z"]) {
        assert_eq!(decl.span.offset(), source.find(keyword).unwrap());
        assert_eq!(decl.span.end(), close);
    }
}
