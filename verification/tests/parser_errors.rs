use graphcal::syntax::ast::{BinOp, DeclKind, Expr, ExprKind, UnaryOp};
use graphcal::syntax::format_equivalent::FormatEquivalent;
use graphcal::syntax::lexer::lex;
use graphcal::syntax::parser::error::ParseError;
use graphcal::syntax::parser::state::Parser;
use graphcal::syntax::token::Token;

fn expression(source: &str) -> Result<Expr, ParseError> {
    Parser::new(source).parse_single_expr()
}

fn declaration_error(source: &str) -> ParseError {
    Parser::new(source).parse_file().unwrap_err()
}

#[test]
fn the_end_of_the_source_is_reported() {
    let error = declaration_error("node x: Dimensionless =");
    assert!(matches!(&error, ParseError::UnexpectedEof { .. }));
    assert_eq!(error.message(), "expected expression, found the end of the input");
}

#[test]
fn a_byte_that_begins_no_token_is_reported() {
    assert!(matches!(expression("1 + $"), Err(ParseError::UnknownToken { .. })));
}

#[test]
fn integers_have_to_fit() {
    assert!(matches!(expression("9223372036854775807"), Ok(e) if matches!(e.kind, ExprKind::Integer(i64::MAX))));
    assert!(matches!(expression("9223372036854775808"), Err(ParseError::InvalidNumber { .. })));
}

#[test]
fn a_decimal_without_a_finite_value_is_refused() {
    assert!(matches!(expression("1.5"), Err(ParseError::InvalidNumber { .. })));
    let parser = Parser::new("1.5");
    assert_eq!(parser.decimal_literals(), [Some("1.5".to_string())]);
    let parser = parser.with_float_values(vec![Some(1.5_f64.to_bits())]);
    assert!(matches!(
        parser.parse_single_expr().unwrap().kind,
        ExprKind::Number(value) if value.bits == 1.5_f64.to_bits()
    ));
}

#[test]
fn an_inline_dag_call_needs_an_output() {
    assert!(matches!(
        expression("@dag(x: 1) + 2"),
        Err(ParseError::InlineDagCallMissingProjection { .. })
    ));
}

#[test]
fn a_binding_may_not_be_repeated() {
    let error = expression("@dag(x: 1, x: 2).y").unwrap_err();
    assert!(matches!(&error, ParseError::DuplicateDagBinding { name, .. } if name == "x"));
    assert_eq!(error.message(), "`x` is bound twice");
}

#[test]
fn multi_declarations_need_a_shared_axis_and_a_full_header() {
    assert!(matches!(
        declaration_error("param a: Int[I], param b: Int[I] = table[(_, _)] { : _, _; X: 1, 2; };"),
        ParseError::MultiDeclNoSharedAxis { .. }
    ));
    assert!(matches!(
        declaration_error("param a: Int[I], param b: Int[I] = table[I, (_, _)] { : _; X: 1; };"),
        ParseError::MultiDeclHeaderArity { .. }
    ));
}

#[test]
fn nesting_is_bounded_by_depth_and_not_by_length() {
    let deep = format!("{}1{}", "(".repeat(300), ")".repeat(300));
    assert!(matches!(expression(&deep), Err(ParseError::TooDeeplyNested { .. })));
    let long = vec!["1"; 300].join(" * ");
    assert!(expression(&long).is_ok());
}

#[test]
fn operators_bind_by_their_rank() {
    let e = expression("a || b && !c == 1 + 2 * -3 ^ 4").unwrap();
    let ExprKind::BinOp { op: BinOp::Or, rhs, .. } = e.kind else { panic!() };
    let ExprKind::BinOp { op: BinOp::And, rhs, .. } = rhs.kind else { panic!() };
    let ExprKind::BinOp { op: BinOp::Eq, lhs, rhs } = rhs.kind else { panic!() };
    assert!(matches!(lhs.kind, ExprKind::UnaryOp { op: UnaryOp::Not, .. }));
    let ExprKind::BinOp { op: BinOp::Add, rhs, .. } = rhs.kind else { panic!() };
    let ExprKind::BinOp { op: BinOp::Mul, rhs, .. } = rhs.kind else { panic!() };
    let ExprKind::UnaryOp { op: UnaryOp::Neg, operand } = rhs.kind else { panic!() };
    assert!(matches!(operand.kind, ExprKind::BinOp { op: BinOp::Pow(_), .. }));
}

#[test]
fn tokens_follow_each_other_in_the_text() {
    let source = "node x: Dimensionless = 1.0 // one\n + \"Δ\" ;";
    let lexemes = lex(source);
    let mut end = 0;
    for lexeme in &lexemes {
        assert!(lexeme.span.len() > 0);
        assert!(lexeme.span.offset() >= end);
        end = lexeme.span.end();
    }
    assert!(end <= source.len());
    assert_eq!(lexemes.last().unwrap().token, Token::Semicolon);
    assert!(lexemes.iter().any(|lexeme| lexeme.token == Token::StringLiteral));
}

#[test]
fn a_string_does_not_reach_over_its_line() {
    let lexemes = lex("\"a\nb\"");
    assert!(lexemes.iter().all(|lexeme| lexeme.token != Token::StringLiteral));
}

#[test]
fn equivalence_does_not_see_layout_or_the_order_of_table_entries() {
    let parse = |source: &str| Parser::new(source).parse_file().unwrap();
    let a = parse("param x: Int[A, B] = table[A, B] { : P, Q; R: 1, 2; S: 3, 4; };");
    let b = parse("param x:Int[A,B]=table[A,B]{:P,Q;S:3,4;R:1,2;};");
    let c = parse("param x: Int[A, B] = table[A, B] { : P, Q; R: 1, 2; S: 3, 5; };");
    assert!(a.format_equivalent(&a));
    assert!(a.format_equivalent(&b) && b.format_equivalent(&a));
    assert!(!a.format_equivalent(&c) && !b.format_equivalent(&c));
    // A map literal is a list of entries in order.
    let m = expression("{ A.P: 1, A.Q: 2 }").unwrap();
    let n = expression("{ A.Q: 2, A.P: 1 }").unwrap();
    assert!(!m.format_equivalent(&n));
}

#[test]
fn a_multi_declaration_becomes_one_declaration_per_slot() {
    let file = Parser::new(
        "index I = { X }; param a: Int[I], node b: Int[I], const node c: Int[I] \
         = table[I, (_, _, _)] { : _, _, _; X: 1, 2, 3; }; node z: Int = 1;",
    )
    .parse_file()
    .unwrap();
    assert_eq!(file.declarations.len(), 3);
    let desugared = graphcal::syntax::desugar::desugar_multi_decls_in_file(file);
    assert_eq!(desugared.declarations.len(), 5);
    let names: Vec<_> = desugared
        .declarations
        .iter()
        .map(|decl| match &decl.kind {
            graphcal::desugar::desugared_ast::DeclKind::Index(d) => d.name.value.as_str(),
            graphcal::desugar::desugared_ast::DeclKind::Param(d) => d.name.value.as_str(),
            graphcal::desugar::desugared_ast::DeclKind::Node(d) => d.name.value.as_str(),
            graphcal::desugar::desugared_ast::DeclKind::ConstNode(d) => d.name.value.as_str(),
            other => panic!("unexpected {other:?}"),
        })
        .collect();
    assert_eq!(names, ["I", "a", "b", "c", "z"]);
}

#[test]
fn copies_are_equal_to_their_originals() {
    let e = expression("f(@a, { A.P: 1 })[i] -> \"Europe/Berlin\"").unwrap();
    assert!(e.duplicate().format_equivalent(&e));
    assert_eq!(e.duplicate().span, e.span);
}

#[test]
fn qualified_labels_are_refused_in_tables_and_not_in_maps() {
    let error = declaration_error("param x: Int[A] = table[A] { A.P: 1; };");
    assert!(matches!(&error, ParseError::UnexpectedToken { found, .. } if found == "."));
    let file = Parser::new("param x: Int[A] = { A.P: 1 };").parse_file().unwrap();
    assert!(matches!(&file.declarations[0].kind, DeclKind::Param(_)));
}

#[test]
fn one_slot_is_no_multi_declaration() {
    let error = ParseError::MultiDeclSingleSlot { span: graphcal::syntax::span::Span::new(3, 4) };
    assert_eq!(error.message(), "a multi-declaration needs two slots or more");
}
