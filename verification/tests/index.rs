use graphcal::registry::dimension::{BaseDimId, Dimension, PreludeBaseDimension};
use graphcal::registry::index::{
    CoordinateIndexData, CoordinateSpacing, IndexBindingCategory, IndexBindingContract, IndexBindingContractError,
    IndexCardinality, IndexCategory, IndexDef, IndexKind,
};
use graphcal::syntax::ast::{FloatBits, IndexEntryKey};
use graphcal::syntax::names::{IndexName, IndexVariantName, NameAtom};

fn index_name(text: &str) -> IndexName {
    IndexName::from_atom(NameAtom::new(text.to_string()))
}

fn variant_name(text: &str) -> IndexVariantName {
    IndexVariantName::from_atom(NameAtom::new(text.to_string()))
}

fn float(value: f64) -> FloatBits {
    FloatBits { bits: value.to_bits() }
}

#[test]
fn required_indexes_have_no_concrete_cardinality() {
    let definition = IndexDef {
        name: index_name("Axis"),
        kind: IndexKind::RequiredNamed,
    };
    assert_eq!(definition.concrete_cardinality(), None);
    assert_eq!(definition.cardinality(), 0);
}

#[test]
fn binding_contract_accepts_compatible_required_forwarding() {
    let time = Dimension::base(BaseDimId::Prelude(PreludeBaseDimension::Time));
    let contract = IndexBindingContract::Coordinate {
        dimension: time.copy(),
    };
    let candidate = IndexDef {
        name: index_name("OuterStep"),
        kind: IndexKind::RequiredCoordinate { dimension: time },
    };

    assert_eq!(contract.validate(&candidate), Ok(()));
}

#[test]
fn discrete_binding_contract_accepts_named_and_finite_axes() {
    let contract = IndexBindingContract::Discrete;
    let named = IndexDef {
        name: index_name("Phase"),
        kind: IndexKind::Named {
            variants: vec![variant_name("Only")],
        },
    };
    let finite = IndexDef {
        name: index_name("Fin(3)"),
        kind: IndexKind::Finite {
            cardinality: IndexCardinality::try_from_u64(3).unwrap(),
        },
    };

    assert_eq!(contract.validate(&named), Ok(()));
    assert_eq!(contract.validate(&finite), Ok(()));
    assert_eq!(
        IndexBindingContract::Named.validate(&finite),
        Err(IndexBindingContractError::KindMismatch {
            expected: IndexBindingCategory::Named,
            found: IndexCategory::Finite,
        })
    );
}

#[test]
fn binding_contract_preserves_kind_and_dimension_errors() {
    let time = Dimension::base(BaseDimId::Prelude(PreludeBaseDimension::Time));
    let length = Dimension::base(BaseDimId::Prelude(PreludeBaseDimension::Length));
    let contract = IndexBindingContract::Coordinate {
        dimension: time.copy(),
    };
    let named = IndexDef {
        name: index_name("Phase"),
        kind: IndexKind::Named {
            variants: vec![variant_name("Only")],
        },
    };
    assert_eq!(
        contract.validate(&named),
        Err(IndexBindingContractError::KindMismatch {
            expected: IndexBindingCategory::Coordinate,
            found: IndexCategory::Named,
        })
    );

    let coordinate = IndexDef {
        name: index_name("DistanceStep"),
        kind: IndexKind::RequiredCoordinate {
            dimension: length.copy(),
        },
    };
    assert_eq!(
        contract.validate(&coordinate),
        Err(IndexBindingContractError::DimensionMismatch {
            expected: time,
            found: length,
        })
    );
}

#[test]
fn finite_and_coordinate_entry_keys_are_typed_positions() {
    let cardinality = IndexCardinality::try_from_u64(3).unwrap();
    for kind in [
        IndexKind::Finite { cardinality },
        IndexKind::Coordinate(CoordinateIndexData {
            start: float(0.0),
                end: float(2.0),
            spacing: CoordinateSpacing::Step { step: float(1.0) },
            cardinality,
            dimension: Dimension::dimensionless(),
            display_label: None,
            display_scale: float(1.0),
        }),
    ] {
        let definition = IndexDef {
            name: index_name("Axis"),
            kind,
        };
        assert_eq!(
            definition.entry_keys(),
            vec![
                IndexEntryKey::Position(0),
                IndexEntryKey::Position(1),
                IndexEntryKey::Position(2),
            ]
        );
    }
}
