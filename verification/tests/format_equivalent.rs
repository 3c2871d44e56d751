use graphcal::syntax::ast::{DeclKind, ExprKind, File, MapEntry, RawExprSugar};
use graphcal::syntax::format_equivalent::table_entries_format_equivalent_counted;
use graphcal::syntax::parser::state::Parser;
use graphcal::syntax::format_equivalent::FormatEquivalent;

/// A parser with the values of the decimal literals in the source.
fn parser(source: &str) -> Parser {
    let parser = Parser::new(source);
    let values = parser
        .decimal_literals()
        .into_iter()
        .map(|text| {
            text.and_then(|text| text.replace('_', "").parse::<f64>().ok())
                .filter(|value| value.is_finite())
                .map(f64::to_bits)
        })
        .collect();
    parser.with_float_values(values)
}

fn parse(source: &str) -> File {
    parser(source)
        .parse_file()
        .unwrap_or_else(|err| panic!("test source should parse: {err:?}\n---\n{source}"))
}

fn table_entries(file: &File) -> &Vec<MapEntry> {
    let DeclKind::Param(param) = &file.declarations[0].kind else {
        panic!("expected a param declaration");
    };
    let value = param.value.as_ref().expect("expected a param value");
    let ExprKind::Sugar(RawExprSugar::TableLiteral { entries, .. }) = &value.kind else {
        panic!("expected a table literal");
    };
    entries
}

fn large_finite_table(entry_count: usize) -> File {
    let rows = (0..entry_count)
        .map(|value| format!("{value}.0;"))
        .collect::<Vec<_>>()
        .join("\n");
    parse(&format!(
        "param values: Dimensionless[Fin({entry_count})] = \
             table[Fin({entry_count})] {{\n{rows}\n}};"
    ))
}

/// Two parses of the same text are equivalent — reflexivity over real spans.
#[test]
fn identical_sources_are_equivalent() {
    let source = "node x: Dimensionless = 1.0 + 2.0 * 3.0;\n";
    assert!(parse(source).format_equivalent(&parse(source)));
}

/// Layout-only differences (whitespace, newlines) move every span but must
/// not change equivalence — this is the property the formatter relies on.
#[test]
fn whitespace_differences_are_equivalent() {
    let dense = "node x:Dimensionless=1.0+2.0*3.0;node y:Dimensionless=@x;";
    let spaced = "
            node x: Dimensionless = 1.0 + 2.0 * 3.0;

            node y: Dimensionless = @x;
        ";
    assert!(parse(dense).format_equivalent(&parse(spaced)));
}

/// Comments live in source metadata, not the AST, so they never affect
/// equivalence.
#[test]
fn comment_differences_are_equivalent() {
    let bare = "node x: Dimensionless = 1.0;\n";
    let commented = "// leading\nnode x: Dimensionless = 1.0; // trailing\n";
    assert!(parse(bare).format_equivalent(&parse(commented)));
}

#[test]
fn number_literal_difference_is_not_equivalent() {
    let a = "node x: Dimensionless = 1.0;\n";
    let b = "node x: Dimensionless = 2.0;\n";
    assert!(!parse(a).format_equivalent(&parse(b)));
}

#[test]
fn reordered_duplicate_table_keys_retain_multiset_semantics() {
    let ordered = "param x: Dimensionless[Axis] = table[Axis] {\nA: 1.0;\nA: 2.0;\n};\n";
    let reordered = "param x: Dimensionless[Axis] = table[Axis] {\nA: 2.0;\nA: 1.0;\n};\n";
    assert!(parse(ordered).format_equivalent(&parse(reordered)));
}

#[test]
fn changed_value_in_duplicate_table_key_bucket_is_not_equivalent() {
    let original = "param x: Dimensionless[Axis] = table[Axis] {\nA: 1.0;\nA: 2.0;\n};\n";
    let changed = "param x: Dimensionless[Axis] = table[Axis] {\nA: 2.0;\nA: 3.0;\n};\n";
    assert!(!parse(original).format_equivalent(&parse(changed)));
}

#[test]
fn ordered_large_table_uses_linear_entry_comparisons() {
    const ENTRY_COUNT: usize = 1_024;
    let table = large_finite_table(ENTRY_COUNT);
    let entries = table_entries(&table);
    let (equivalent, comparison_count) = table_entries_format_equivalent_counted(entries, entries);
    assert!(equivalent);
    assert_eq!(comparison_count, ENTRY_COUNT);
}

#[test]
fn reordered_large_table_uses_linear_entry_comparisons() {
    const ENTRY_COUNT: usize = 1_024;
    let table = large_finite_table(ENTRY_COUNT);
    let entries = table_entries(&table);
    let mut reordered = entries.iter().map(MapEntry::duplicate).collect::<Vec<_>>();
    reordered.reverse();
    let (equivalent, comparison_count) = table_entries_format_equivalent_counted(entries, &reordered);
    assert!(equivalent);
    assert!(
        comparison_count <= ENTRY_COUNT + 1,
        "expected linear comparison work, got {comparison_count} comparisons for \
             {ENTRY_COUNT} entries"
    );
}

#[test]
fn operator_difference_is_not_equivalent() {
    let a = "node x: Dimensionless = 1.0 + 2.0;\n";
    let b = "node x: Dimensionless = 1.0 - 2.0;\n";
    assert!(!parse(a).format_equivalent(&parse(b)));
}

#[test]
fn name_difference_is_not_equivalent() {
    let a = "node x: Dimensionless = 1.0;\n";
    let b = "node y: Dimensionless = 1.0;\n";
    assert!(!parse(a).format_equivalent(&parse(b)));
}

/// Operand order is structural: `a - b` differs from `b - a` even though
/// the spans cover the same ranges.
#[test]
fn operand_order_is_not_equivalent() {
    let a = "node x: Dimensionless = 1.0 - 2.0;\n";
    let b = "node x: Dimensionless = 2.0 - 1.0;\n";
    assert!(!parse(a).format_equivalent(&parse(b)));
}

/// A dropped declaration must be caught — the canonical "formatting changed
    /// the program" failure.
#[test]
fn missing_declaration_is_not_equivalent() {
    let a = "node x: Dimensionless = 1.0;\nnode y: Dimensionless = 2.0;\n";
    let b = "node x: Dimensionless = 1.0;\n";
    assert!(!parse(a).format_equivalent(&parse(b)));
}

#[test]
fn a_table_with_two_entries_swapped_takes_one_comparison_more() {
    let table = large_finite_table(100);
    let entries = table_entries(&table);
    let mut swapped = entries.iter().map(MapEntry::duplicate).collect::<Vec<_>>();
    swapped.swap(40, 90);
    assert_eq!(table_entries_format_equivalent_counted(entries, &swapped), (true, 101));
    let named = |source: &str| {
        let file = parse(source);
        table_entries(&file).iter().map(MapEntry::duplicate).collect::<Vec<_>>()
    };
    let a = named("param x: Dimensionless[Axis] = table[Axis] {\nA: 1.0;\nB: 2.0;\nC: 3.0;\n};\n");
    let b = named("param x: Dimensionless[Axis] = table[Axis] {\nC: 3.0;\nA: 1.0;\nB: 2.0;\n};\n");
    let c = named("param x: Dimensionless[Axis] = table[Axis] {\nC: 3.0;\nA: 1.0;\nD: 2.0;\n};\n");
    assert_eq!(table_entries_format_equivalent_counted(&a, &b), (true, 4));
    assert_eq!(table_entries_format_equivalent_counted(&a, &c), (false, 2));
}
