use graphcal::exact_rational::{ExactRational, ExactRationalError};
use graphcal::hir::local_env::LocalEnv;
use graphcal::hir::tree::LocalId;
use graphcal::registry::dimension::Dimension;
use graphcal::registry::index::{
    CoordinateIndexData, CoordinateRule, CoordinateSpacing, FiniteIndex, FiniteIndexError, IndexBindingCategory, IndexBindingTarget, IndexCardinality, IndexCardinalityError,
    IndexCategory, IndexDef, IndexKind, IndexRegistry, MAX_INDEX_CARDINALITY,
};
use graphcal::syntax::ast::{
    FloatBits, IndexEntryKey, MultiDataRow, MultiDeclSlice, MultiHeaderCell, MultiSlotColumnSpan,
};
use graphcal::syntax::exact_decimal::exact_decimal_literal;
use graphcal::syntax::multi_decl::MultiDeclShapeError;
use graphcal::syntax::names::{IndexName, IndexVariantName, NameAtom};
use graphcal::syntax::span::{Span, Spanned};

fn index_name(text: &str) -> IndexName {
    IndexName::from_atom(NameAtom::new(text.to_string()))
}

fn variant(text: &str) -> IndexVariantName {
    IndexVariantName::from_atom(NameAtom::new(text.to_string()))
}

#[test]
fn quotients_are_reduced() {
    let r = ExactRational::try_new(-6, 4).unwrap();
    assert_eq!((r.numerator, r.denominator), (-3, 2));
    let r = ExactRational::try_new(6, -4).unwrap();
    assert_eq!((r.numerator, r.denominator), (-3, 2));
    let r = ExactRational::try_new(0, -7).unwrap();
    assert_eq!((r.numerator, r.denominator), (0, 1));
    assert_eq!(ExactRational::try_new(1, 0), Err(ExactRationalError::ZeroDenominator));
    assert_eq!(ExactRational::try_new(i64::MIN, -1), Err(ExactRationalError::Overflow));
    let r = ExactRational::try_new(i64::MIN, i64::MIN).unwrap();
    assert_eq!((r.numerator, r.denominator), (1, 1));
    assert_eq!(ExactRational::from_integer(i64::MIN).checked_neg(), Err(ExactRationalError::Overflow));
}

#[test]
fn cardinalities_are_bounded() {
    assert_eq!(IndexCardinality::try_from_u64(0), Err(IndexCardinalityError::Empty));
    assert_eq!(IndexCardinality::try_from_u64(1_000_000).unwrap().get(), MAX_INDEX_CARDINALITY);
    assert_eq!(
        IndexCardinality::try_from_u64(1_000_001),
        Err(IndexCardinalityError::TooLarge { value: 1_000_001, maximum: 1_000_000 })
    );
    assert_eq!(IndexCardinality::try_from_u64(7).unwrap().non_zero(), 7);
    assert_eq!(FiniteIndex::try_from_u64(0), Err(FiniteIndexError::Empty));
    assert_eq!(
        FiniteIndex::try_from_u64(1_000_001),
        Err(FiniteIndexError::TooLarge { size: 1_000_001, maximum: 1_000_000 })
    );
    let index = FiniteIndex::try_from_u64(12).unwrap();
    assert_eq!(index.display_name().as_str(), "Fin(12)");
    assert_eq!(index.size_u64(), 12);
    assert_eq!(IndexBindingTarget::Finite(index).display(), "Fin(12)");
    assert_eq!(IndexBindingTarget::Declared(index_name("Phase")).display(), "Phase");
    assert!(IndexBindingTarget::Finite(index).declared_name().is_none());
}

#[test]
fn categories_have_names() {
    assert_eq!(IndexCategory::Finite.as_str(), "finite");
    assert_eq!(IndexBindingCategory::Discrete.as_str(), "named or finite");
}

#[test]
fn named_indexes_list_their_labels() {
    let def = IndexDef {
        name: index_name("Phase"),
        kind: IndexKind::Named { variants: vec![variant("Burn"), variant("Coast")] },
    };
    assert_eq!(def.entry_keys(), [IndexEntryKey::Named(variant("Burn")), IndexEntryKey::Named(variant("Coast"))]);
    assert_eq!(def.cardinality(), 2);
    assert_eq!(def.concrete_cardinality().unwrap().get(), 2);
    assert!(def.is_named() && !def.is_coordinate() && !def.is_required());
    assert_eq!(def.finite_index_size(), None);
    let empty = IndexDef { name: index_name("Empty"), kind: IndexKind::Named { variants: Vec::new() } };
    assert_eq!(empty.concrete_cardinality(), None);
}

#[test]
fn a_registry_keeps_the_last_definition_of_a_name() {
    let finite = FiniteIndex::try_from_u64(3).unwrap();
    let def = |name: &str| IndexDef { name: index_name(name), kind: IndexKind::RequiredNamed };
    let mut registry = IndexRegistry::new();
    assert!(registry.insert_index(index_name("A"), def("A")).is_none());
    assert!(registry.insert_index(index_name("B"), def("B")).is_none());
    assert_eq!(registry.insert_index(index_name("A"), def("A2")), Some(def("A")));
    assert_eq!(registry.get_index(&"A".to_string()), Some(&def("A2")));
    assert_eq!(registry.get_index(&"C".to_string()), None);
    assert_eq!(registry.declared_indexes().len(), 2);
    assert!(registry.insert_finite_index(finite, def("Fin(3)")).is_none());
    assert_eq!(registry.get_finite_index(finite), Some(&def("Fin(3)")));
    assert_eq!(registry.finite_indexes(), [finite]);
}

#[test]
fn inner_frames_hide_outer_ones() {
    let a = LocalId { id: 0 };
    let outer = LocalEnv::from_bindings(vec![(a, "outer")]);
    let mut inner = outer.child(vec![(a, "inner")]);
    assert_eq!(inner.get(a), Some(&"inner"));
    inner.bind(a, "again");
    assert_eq!(inner.get(a), Some(&"again"));
    assert_eq!(outer.get(a), Some(&"outer"));
}

#[test]
fn a_slice_has_one_value_per_column() {
    let span = Span::new(0, 0);
    let row = || MultiDataRow::new(Spanned::new(IndexEntryKey::Position(0), span), Vec::new());
    let header = || vec![MultiHeaderCell::Underscore { span }];
    assert_eq!(
        MultiDeclSlice::new(Vec::new(), header(), vec![MultiSlotColumnSpan::Single(0)], vec![row()]).unwrap_err(),
        MultiDeclShapeError::RowArity
    );
    assert_eq!(
        MultiDeclSlice::new(Vec::new(), header(), vec![MultiSlotColumnSpan::Single(1)], Vec::new()).unwrap_err(),
        MultiDeclShapeError::ColumnOutOfRange
    );
    assert!(MultiDeclSlice::new(Vec::new(), header(), vec![MultiSlotColumnSpan::Single(0)], Vec::new()).is_ok());
}

#[test]
fn spans_merge_to_what_covers_both() {
    let a = Span::new(3, 4);
    let b = Span::new(10, 2);
    assert_eq!(a.merge(b), Span::new(3, 9));
    assert_eq!(b.merge(a), Span::new(3, 9));
    assert_eq!(Span::new(0, 20).merge(a), Span::new(0, 20));
}

#[test]
fn coordinates_are_computed_from_the_ends() {
    let float = |value: f64| FloatBits { bits: value.to_bits() };
    let data = |spacing: CoordinateSpacing, count: u64| CoordinateIndexData {
        start: float(0.0),
        end: float(2.0),
        spacing,
        cardinality: IndexCardinality::try_from_u64(count).unwrap(),
        dimension: Dimension::dimensionless(),
        display_label: None,
        display_scale: float(1.0),
    };
    let even = data(CoordinateSpacing::Linspace, 5);
    assert_eq!(even.coordinate_value(0), CoordinateRule::Start);
    assert_eq!(even.coordinate_value(3), CoordinateRule::Between { parts: 3, of: 4 });
    assert_eq!(even.coordinate_value(4), CoordinateRule::End);
    let step = float(0.5);
    let stepped = data(CoordinateSpacing::Step { step }, 5);
    assert_eq!(stepped.coordinate_value(0), CoordinateRule::Stepped { steps: 0, step });
    assert_eq!(stepped.coordinate_value(4), CoordinateRule::End);
    let alone = data(CoordinateSpacing::Linspace, 1);
    assert_eq!(alone.coordinate_value(0), CoordinateRule::Start);
    assert_eq!(stepped.position_of(&vec![false, false, true, true, false]), Some(2));
    assert_eq!(stepped.position_of(&vec![false; 5]), None);
    assert_eq!(stepped.nearest_coordinate(&vec![9, 3, 5, 3, 4]), Some(1));
}

fn exact(text: &str) -> Option<(i64, i64)> {
    let bytes = text.as_bytes();
    exact_decimal_literal(bytes, 0, bytes.len()).map(|r| (r.numerator, r.denominator))
}

#[test]
fn decimal_literals_are_exact_where_the_reduced_value_fits() {
    assert_eq!(exact("2.5e-1"), Some((1, 4)));
    assert_eq!(exact("1_000.50"), Some((2001, 2)));
    assert_eq!(exact("0.0e-39"), Some((0, 1)));
    assert_eq!(exact("0e99999999999999999999999999999999999999999"), Some((0, 1)));
    assert_eq!(exact(&format!("1.{}", "0".repeat(40))), Some((1, 1)));
    assert_eq!(exact(&format!("3{}e-60", "0".repeat(60))), Some((3, 1)));
    assert_eq!(exact("9223372036854775807"), Some((i64::MAX, 1)));
    assert_eq!(exact("9223372036854775808"), None);
    assert_eq!(exact("9223372036854775.807e+3"), Some((i64::MAX, 1)));
    assert_eq!(exact("1e18"), Some((1_000_000_000_000_000_000, 1)));
    assert_eq!(exact("1e19"), None);
    assert_eq!(exact("1e-18"), Some((1, 1_000_000_000_000_000_000)));
    assert_eq!(exact("1e-19"), None);
    assert_eq!(exact("1e99999999999999999999999999999999999999999"), None);
    assert_eq!(exact("1e-99999999999999999999999999999999999999999"), None);
    assert_eq!(exact("1e"), None);
    assert_eq!(exact("."), None);
}

#[test]
fn the_digits_of_an_exact_literal_may_exceed_any_machine_number() {
    // Five to the sixty-second over ten to the sixty-second.
    let digits = "2168404344971008868014905601739883422851562500";
    let text = format!("0.{}{}", "0".repeat(62 - 44), &digits[..44]);
    assert_eq!(exact(&text), Some((1, 1 << 62)));
    // Two to the twenty-seventh over ten to the twenty-seventh.
    assert_eq!(exact("134217728e-27"), Some((1, 7_450_580_596_923_828_125)));
    // One more of either does not fit.
    assert_eq!(exact("268435456e-28"), None);
}

#[test]
fn a_registry_lists_a_definition_once_per_name() {
    let def = |name: &str| IndexDef { name: index_name(name), kind: IndexKind::RequiredNamed };
    let mut registry = IndexRegistry::new();
    registry.insert_index(index_name("P"), def("A"));
    registry.insert_index(index_name("Q"), def("A"));
    registry.insert_index(index_name("R"), def("B"));
    let listed = registry.declared_indexes();
    assert_eq!(listed.len(), 3);
    assert_eq!(listed.iter().filter(|d| ***d == def("A")).count(), 2);
    assert_eq!(listed.iter().filter(|d| ***d == def("B")).count(), 1);
}

#[test]
fn a_span_reaches_from_its_own_start_to_the_end_of_another() {
    assert_eq!(Span::new(10, 2).through(Span::new(3, 20)), Span::new(10, 13));
    assert_eq!(Span::new(3, 4).through(Span::new(10, 2)), Span::new(3, 9));
    assert_eq!(Span::new(30, 4).through(Span::new(10, 2)), Span::new(30, 0));
}
