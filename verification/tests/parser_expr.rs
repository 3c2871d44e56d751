use graphcal::exact_rational::ExactRational;
use graphcal::syntax::ast::{BinOp, DeclKind, ExprKind, PowerExponent, UnaryOp};
use graphcal::syntax::parser::error::ParseError;
use graphcal::syntax::parser::state::Parser;

/// A parser with the values of the decimal literals in the source.
fn parser(source: &str) -> Parser {
    let parser = Parser::new(source);
    let values = parser
        .decimal_literals()
        .into_iter()
        .map(|text| {
            text.and_then(|text| text.replace('_', "").parse::<f64>().ok())
                .filter(|value| value.is_finite())
                .map(f64::to_bits)
        })
        .collect();
    parser.with_float_values(values)
}

fn parse_node_expr(input: &str) -> graphcal::syntax::ast::Expr {
    let full = format!("node x: Dimensionless = {input};");
    let file = parser(&full).parse_file().unwrap();
    match file.declarations.into_iter().next().unwrap().kind {
        DeclKind::Node(n) => n.value,
        _ => panic!("expected node"),
    }
}

#[test]
fn deeply_nested_parens_error_instead_of_stack_overflow() {
    let depth = 100_000;
    let src = format!(
        "node x: Dimensionless = {}1.0{};",
        "(".repeat(depth),
        ")".repeat(depth)
    );
    let err = parser(&src).parse_file().unwrap_err();
    assert!(matches!(err, ParseError::TooDeeplyNested { .. }), "{err:?}");
}

#[test]
fn deeply_nested_unary_chain_errors_instead_of_stack_overflow() {
    let src = format!("node x: Dimensionless = {}1.0;", "-".repeat(100_000));
    let err = parser(&src).parse_file().unwrap_err();
    assert!(matches!(err, ParseError::TooDeeplyNested { .. }), "{err:?}");
}

#[test]
fn reasonable_nesting_stays_below_the_depth_limit() {
    // Realistic engineering formulas nest a few dozen levels at most;
    // 60 nested parens must keep parsing fine.
    let depth = 60;
    let src = format!(
        "node x: Dimensionless = {}1.0{};",
        "(".repeat(depth),
        ")".repeat(depth)
    );
    parser(&src).parse_file().unwrap();
}

#[test]
fn long_operator_chains_are_not_depth_limited() {
    // Left-nested chains are parsed iteratively; a 10k-term sum must not
    // trip the nesting bound.
    let src = format!(
        "node x: Dimensionless = {};",
        vec!["1.0"; 10_000].join(" + ")
    );
    parser(&src).parse_file().unwrap();
}

#[test]
fn brace_expr_error_points_at_offending_token() {
    let source = "node x: Dimensionless = { nope };";
    let err = parser(source).parse_file().unwrap_err();
    match err {
        ParseError::UnexpectedToken { found, span, .. } => {
            assert_eq!(found, "nope");
            assert_eq!(span.offset(), source.find("nope").unwrap());
        }
        other => panic!("expected UnexpectedToken, got {other:?}"),
    }
}

#[test]
fn parse_same_line_unicode_string_literal() {
    let expr = parse_node_expr(r#""Δv 🚀""#);
    assert!(matches!(
        expr.kind,
        ExprKind::StringLiteral(ref text) if text == "Δv 🚀"
    ));
}

#[test]
fn reject_string_literals_with_physical_line_breaks() {
    for line_ending in ["\n", "\r", "\r\n"] {
        let source = format!("node label: Dimensionless = \"first{line_ending}second\";");
        let error = parser(&source).parse_file().unwrap_err();
        assert!(
            matches!(error, ParseError::UnknownToken { .. }),
            "line ending {line_ending:?} produced {error:?}"
        );
    }
}

#[test]
fn parse_quantity_literal() {
    let file = parser("param alt: Length = 400.0 km;")
        .parse_file()
        .unwrap();
    match &file.declarations[0].kind {
        DeclKind::Param(p) => match &p.value.as_ref().unwrap().kind {
            ExprKind::QuantityLiteral { value, unit } => {
                assert!((f64::from_bits(value.bits) - 400.0).abs() < f64::EPSILON);
                assert_eq!(unit.terms.len(), 1);
                assert_eq!(unit.terms[0].name.value.display_path(), "km");
            }
            _ => panic!("expected QuantityLiteral"),
        },
        _ => panic!("expected param"),
    }
}

#[test]
fn parse_compound_quantity_literal() {
    let file = parser("const node g0: Acceleration = 9.80665 m/s^2;")
        .parse_file()
        .unwrap();
    match &file.declarations[0].kind {
        DeclKind::ConstNode(c) => match &c.value.kind {
            ExprKind::QuantityLiteral { value, unit } => {
                assert!((f64::from_bits(value.bits) - 9.80665).abs() < f64::EPSILON);
                assert_eq!(unit.terms.len(), 2);
                assert_eq!(unit.terms[0].name.value.display_path(), "m");
                assert_eq!(unit.terms[1].op, graphcal::syntax::ast::MulDivOp::Div);
                assert_eq!(unit.terms[1].name.value.display_path(), "s");
                assert_eq!(
                    unit.terms[1].power,
                    Some(ExactRational::from_integer(2))
                );
            }
            _ => panic!("expected QuantityLiteral"),
        },
        _ => panic!("expected const"),
    }
}

#[test]
fn parse_reciprocal_quantity_literal() {
    let expr = parser("2.0 1/s").parse_single_expr().unwrap();
    let ExprKind::QuantityLiteral { value, unit } = &expr.kind else {
        panic!("expected reciprocal QuantityLiteral");
    };
    assert!((f64::from_bits(value.bits) - 2.0).abs() < f64::EPSILON);
    assert_eq!(unit.terms.len(), 1);
    assert_eq!(unit.terms[0].op, graphcal::syntax::ast::MulDivOp::Div);
    assert_eq!(unit.terms[0].name.value.display_path(), "s");
}

#[test]
fn parse_grouped_quantity_literal() {
    let expr = parser("3.0 (m/s)").parse_single_expr().unwrap();
    let ExprKind::QuantityLiteral { value, unit } = &expr.kind else {
        panic!("expected grouped QuantityLiteral");
    };
    assert!((f64::from_bits(value.bits) - 3.0).abs() < f64::EPSILON);
    assert_eq!(unit.terms.len(), 2);
    assert_eq!(unit.terms[0].op, graphcal::syntax::ast::MulDivOp::Mul);
    assert_eq!(unit.terms[0].name.value.display_path(), "m");
    assert_eq!(unit.terms[1].op, graphcal::syntax::ast::MulDivOp::Div);
    assert_eq!(unit.terms[1].name.value.display_path(), "s");
}

#[test]
fn division_by_parenthesized_quantity_literal_remains_arithmetic() {
    let expr = parser("1.0 / (2.0 m)").parse_single_expr().unwrap();
    let ExprKind::BinOp { op, lhs, rhs } = &expr.kind else {
        panic!("expected arithmetic division");
    };
    assert_eq!(*op, BinOp::Div);
    assert!(matches!(lhs.kind, ExprKind::Number(value) if (f64::from_bits(value.bits) - 1.0).abs() < f64::EPSILON));
    assert!(matches!(rhs.kind, ExprKind::QuantityLiteral { .. }));
}

#[test]
fn reciprocal_quantity_literal_requires_exact_integer_one() {
    for source in ["2.0 1.0/s", "2.0 1_0/s"] {
        let error = parser(source).parse_single_expr().unwrap_err();
        assert!(
            matches!(error, ParseError::UnexpectedToken { .. }),
            "`{source}` must not be classified as a reciprocal unit suffix: {error:?}"
        );
    }
}

#[test]
fn parse_conversion() {
    let file = parser("node speed_kmh: Velocity = @speed -> km/h;")
        .parse_file()
        .unwrap();
    match &file.declarations[0].kind {
        DeclKind::Node(n) => match &n.value.kind {
            ExprKind::Convert { expr, target } => {
                assert!(
                    matches!(&expr.kind, ExprKind::GraphRef(id) if id.value.member.text == "speed")
                );
                assert_eq!(target.terms.len(), 2);
                assert_eq!(target.terms[0].name.value.display_path(), "km");
                assert_eq!(target.terms[1].op, graphcal::syntax::ast::MulDivOp::Div);
                assert_eq!(target.terms[1].name.value.display_path(), "h");
            }
            _ => panic!("expected Convert"),
        },
        _ => panic!("expected node"),
    }
}

#[test]
fn parse_conversion_with_qualified_unit() {
    let file = parser("node b: Length = @a -> u.mile;")
        .parse_file()
        .unwrap();
    match &file.declarations[0].kind {
        DeclKind::Node(n) => match &n.value.kind {
            ExprKind::Convert { target, .. } => {
                assert_eq!(target.terms.len(), 1);
                let unit_ref = &target.terms[0].name.value;
                assert_eq!(
                    unit_ref.qualifier.as_ref().map(|q| q.text.as_str()),
                    Some("u")
                );
                assert_eq!(unit_ref.name.as_str(), "mile");
            }
            _ => panic!("expected Convert"),
        },
        _ => panic!("expected node"),
    }
}

#[test]
fn parse_qualified_quantity_literal() {
    let file = parser("node d: Length = 2.0 u.mile;")
        .parse_file()
        .unwrap();
    match &file.declarations[0].kind {
        DeclKind::Node(n) => match &n.value.kind {
            ExprKind::QuantityLiteral { unit, .. } => {
                assert_eq!(unit.terms[0].name.value.display_path(), "u.mile");
            }
            _ => panic!("expected QuantityLiteral"),
        },
        _ => panic!("expected node"),
    }
}

#[test]
fn parse_unit_path_deeper_than_alias_is_rejected() {
    // Module aliases are single segments, so `a.b.mile` can never resolve
    // as a unit reference (P017).
    let err = parser("node b: Length = @a -> app.units.mile;")
        .parse_file()
        .unwrap_err();
    assert!(
        matches!(err, ParseError::UnitReferenceTooDeep { .. }),
        "expected UnitReferenceTooDeep, got {err:?}"
    );
}

#[test]
fn parse_convert_binds_loosely() {
    let file = parser("node x: Length = @a + @b -> km;")
        .parse_file()
        .unwrap();
    match &file.declarations[0].kind {
        DeclKind::Node(n) => match &n.value.kind {
            ExprKind::Convert { expr, target } => {
                assert!(matches!(expr.kind, ExprKind::BinOp { op: BinOp::Add, .. }));
                assert_eq!(target.terms[0].name.value.display_path(), "km");
            }
            _ => panic!("expected Convert"),
        },
        _ => panic!("expected node"),
    }
}

#[test]
fn parse_arithmetic_precedence() {
    let expr = parse_node_expr("1.0 + 2.0 * 3.0");
    assert!(matches!(expr.kind, ExprKind::BinOp { op: BinOp::Add, .. }));
    if let ExprKind::BinOp { rhs, .. } = &expr.kind {
        assert!(matches!(rhs.kind, ExprKind::BinOp { op: BinOp::Mul, .. }));
    }
}

#[test]
fn parse_left_associative_add() {
    let expr = parse_node_expr("1.0 - 2.0 - 3.0");
    if let ExprKind::BinOp { op, lhs, .. } = &expr.kind {
        assert_eq!(*op, BinOp::Sub);
        assert!(matches!(lhs.kind, ExprKind::BinOp { op: BinOp::Sub, .. }));
    } else {
        panic!("expected BinOp");
    }
}

#[test]
fn parse_power_right_assoc() {
    let expr = parse_node_expr("2.0 ^ 3.0 ^ 2.0");
    if let ExprKind::BinOp { op, rhs, .. } = &expr.kind {
        assert!(matches!(op, BinOp::Pow(PowerExponent::Runtime)));
        assert!(matches!(
            rhs.kind,
            ExprKind::BinOp {
                op: BinOp::Pow(PowerExponent::FloatSyntax { .. }),
                ..
            }
        ));
    } else {
        panic!("expected Pow");
    }
}

#[test]
fn parse_power_preserves_exact_rational_and_decimal_syntax() {
    let rational = parse_node_expr("@x ^ (-6/4)");
    assert!(matches!(
        rational.kind,
        ExprKind::BinOp {
            op: BinOp::Pow(PowerExponent::Exact(value)),
            ..
        } if value == ExactRational::try_new(-3, 2).unwrap()
    ));

    let decimal = parse_node_expr("@x ^ 2.5e-1");
    assert!(matches!(
        decimal.kind,
        ExprKind::BinOp {
            op: BinOp::Pow(PowerExponent::FloatSyntax {
                exact: Some(value)
            }),
            ..
        } if value == ExactRational::try_new(1, 4).unwrap()
    ));
}

#[test]
fn parse_neg_power_precedence() {
    let expr = parse_node_expr("-@x ^ 2.0");
    if let ExprKind::UnaryOp {
        op: UnaryOp::Neg,
        operand,
    } = &expr.kind
    {
        assert!(matches!(
            operand.kind,
            ExprKind::BinOp {
                op: BinOp::Pow(_),
                ..
            }
        ));
    } else {
        panic!("expected Neg(Pow(...))");
    }
}

#[test]
fn parse_graph_ref() {
    let expr = parse_node_expr("@x + 1.0");
    if let ExprKind::BinOp { lhs, .. } = &expr.kind {
        assert!(matches!(&lhs.kind, ExprKind::GraphRef(id) if id.value.member.text == "x"));
    } else {
        panic!("expected BinOp");
    }
}

#[test]
fn parse_name_ref() {
    let expr = parse_node_expr("PI * 2.0");
    if let ExprKind::BinOp { lhs, .. } = &expr.kind {
        assert!(matches!(
            &lhs.kind,
            ExprKind::UnresolvedRef(graphcal::syntax::ast::UnresolvedRef::Path(path))
                if path.as_bare().is_some_and(|id| id.name.text == "PI")
        ));
    } else {
        panic!("expected BinOp");
    }
}

#[test]
fn parse_function_call_one_arg() {
    let expr = parse_node_expr("sqrt(@x)");
    if let ExprKind::FnCall { callee, args, .. } = &expr.kind {
        assert_eq!(callee.as_bare().unwrap().name.text, "sqrt");
        assert_eq!(args.len(), 1);
        assert!(matches!(&args[0].kind, ExprKind::GraphRef(id) if id.value.member.text == "x"));
    } else {
        panic!("expected FnCall");
    }
}

#[test]
fn parse_qualified_function_call_preserves_callee_path() {
    let expr = parse_node_expr("module.sqrt(@x)");
    if let ExprKind::FnCall { callee, args, .. } = &expr.kind {
        assert_eq!(callee.segments.len(), 2);
        assert_eq!(callee.segments.get(0).name.text, "module");
        assert_eq!(callee.segments.get(1).name.text, "sqrt");
        assert_eq!(args.len(), 1);
    } else {
        panic!("expected FnCall");
    }
}

#[test]
fn qualified_contextual_keyword_call_is_ordinary_call() {
    let expr = parse_node_expr("plugin.scan(1.0)");
    match &expr.kind {
        ExprKind::FnCall { callee, args, .. } => {
            assert_eq!(callee.display_path(), "plugin.scan");
            assert_eq!(args.len(), 1);
        }
        other => panic!("expected ordinary FnCall, got {other:?}"),
    }
}

#[test]
fn contextual_keyword_paths_and_generic_calls_are_ordinary_expressions() {
    let path_call = parse_node_expr("scan.unfold.linspace.step()");
    assert!(
        matches!(&path_call.kind, ExprKind::FnCall { callee, .. } if callee.display_path() == "scan.unfold.linspace.step")
    );

    let generic_call = parse_node_expr("scan<Length>()");
    assert!(matches!(generic_call.kind, ExprKind::FnCall { .. }));

    for name in ["range", "linspace", "step", "points", "Fin"] {
        let ordinary_call = parse_node_expr(&format!("{name}()"));
        assert!(
            matches!(ordinary_call.kind, ExprKind::FnCall { .. }),
            "`{name}(` must be an ordinary call outside an index declaration"
        );
    }
}

#[test]
fn raw_lookahead_treats_lf_cr_and_crlf_comments_consistently() {
    for line_ending in ["\n", "\r", "\r\n"] {
        let constructor = parse_node_expr(&format!(
            "Point(// constructor lookahead{line_ending}value: 1.0)"
        ));
        assert!(
            matches!(constructor.kind, ExprKind::ConstructorCall { .. }),
            "constructor lookahead failed for {line_ending:?}"
        );

        let generic_call = parse_node_expr(&format!(
            "make<Length // generic lookahead{line_ending}>(@x)"
        ));
        assert!(
            matches!(generic_call.kind, ExprKind::FnCall { .. }),
            "generic-call lookahead failed for {line_ending:?}"
        );

        let tuple_source = format!(
            "node x: Dimensionless[Phase, Mode] = for p: Phase, m: Mode {{ (p, // tuple lookahead{line_ending}m) => 1.0 }};"
        );
        parser(&tuple_source)
            .parse_file()
            .unwrap_or_else(|error| {
                panic!("tuple-sugar lookahead failed for {line_ending:?}: {error:?}")
            });
    }
}

#[test]
fn parse_function_call_two_args() {
    let expr = parse_node_expr("atan2(@a, @b)");
    if let ExprKind::FnCall { callee, args, .. } = &expr.kind {
        assert_eq!(callee.as_bare().unwrap().name.text, "atan2");
        assert_eq!(args.len(), 2);
    } else {
        panic!("expected FnCall");
    }
}

#[test]
fn parse_function_call_zero_args() {
    let expr = parse_node_expr("foo()");
    if let ExprKind::FnCall { callee, args, .. } = &expr.kind {
        assert_eq!(callee.as_bare().unwrap().name.text, "foo");
        assert_eq!(args.len(), 0);
    } else {
        panic!("expected FnCall");
    }
}

#[test]
fn parse_turbofish_nat_arg() {
    let expr = parse_node_expr("eye<3>()");
    if let ExprKind::FnCall {
        callee,
        generic_args,
        args,
    } = &expr.kind
    {
        assert_eq!(callee.as_bare().unwrap().name.text, "eye");
        assert_eq!(generic_args.len(), 1);
        assert!(matches!(
            &generic_args[0],
            graphcal::syntax::ast::GenericArg::Nat(graphcal::syntax::ast::NatExpr::Literal(3, _))
        ));
        assert_eq!(args.len(), 0);
    } else {
        panic!("expected FnCall, got {:?}", expr.kind);
    }
}

#[test]
fn parse_turbofish_nat_arg_with_separators() {
    let expr = parse_node_expr("eye<1_000>()");
    if let ExprKind::FnCall { generic_args, .. } = &expr.kind {
        assert!(matches!(
            &generic_args[0],
            graphcal::syntax::ast::GenericArg::Nat(graphcal::syntax::ast::NatExpr::Literal(1000, _))
        ));
    } else {
        panic!("expected FnCall, got {:?}", expr.kind);
    }
}

#[test]
fn parse_turbofish_type_arg() {
    let expr = parse_node_expr("make<Length>(@x)");
    if let ExprKind::FnCall {
        callee,
        generic_args,
        args,
    } = &expr.kind
    {
        assert_eq!(callee.as_bare().unwrap().name.text, "make");
        assert_eq!(generic_args.len(), 1);
        assert!(matches!(
            &generic_args[0],
            graphcal::syntax::ast::GenericArg::Ambiguous(
                graphcal::syntax::ast::AmbiguousGenericArg::Name(_)
            )
        ));
        assert_eq!(args.len(), 1);
    } else {
        panic!("expected FnCall, got {:?}", expr.kind);
    }
}

#[test]
fn parse_turbofish_multiple_args() {
    let expr = parse_node_expr("foo<3, Length>(@x)");
    if let ExprKind::FnCall {
        callee,
        generic_args,
        args,
    } = &expr.kind
    {
        assert_eq!(callee.as_bare().unwrap().name.text, "foo");
        assert_eq!(generic_args.len(), 2);
        assert!(matches!(
            &generic_args[0],
            graphcal::syntax::ast::GenericArg::Nat(graphcal::syntax::ast::NatExpr::Literal(3, _))
        ));
        assert!(matches!(
            &generic_args[1],
            graphcal::syntax::ast::GenericArg::Ambiguous(
                graphcal::syntax::ast::AmbiguousGenericArg::Name(_)
            )
        ));
        assert_eq!(args.len(), 1);
    } else {
        panic!("expected FnCall, got {:?}", expr.kind);
    }
}

#[test]
fn parse_comparison_not_turbofish() {
    // `f < x` should NOT be parsed as turbofish since `x` is not followed by `>`+`(`
    let expr = parse_node_expr("@a < @b");
    assert!(
        matches!(&expr.kind, ExprKind::BinOp { op: BinOp::Lt, .. }),
        "expected comparison, got {:?}",
        expr.kind
    );
}

#[test]
fn comparison_with_and_then_gt_paren_is_not_turbofish() {
    let expr = parse_node_expr("@limit < @threshold && @other > (1.0)");
    assert!(
        matches!(&expr.kind, ExprKind::BinOp { op: BinOp::And, .. }),
        "expected `&&` at the top, got {:?}",
        expr.kind
    );
}

#[test]
fn comparison_with_comment_containing_gt_paren_is_not_turbofish() {
    let expr = parse_node_expr("@a < @b // note: > (\n || @c");
    assert!(
        matches!(&expr.kind, ExprKind::BinOp { op: BinOp::Or, .. }),
        "expected `||` at the top, got {:?}",
        expr.kind
    );
}

#[test]
fn parse_if_else() {
    let expr = parse_node_expr("if @x > 0.0 { @x } else { 0.0 }");
    if let ExprKind::If {
        condition,
        then_branch,
        else_branch,
    } = &expr.kind
    {
        assert!(matches!(
            condition.kind,
            ExprKind::BinOp { op: BinOp::Gt, .. }
        ));
        assert!(matches!(
            &then_branch.kind,
            ExprKind::GraphRef(id) if id.value.member.text == "x"
        ));
        assert!(matches!(else_branch.kind, ExprKind::Number(_)));
    } else {
        panic!("expected If");
    }
}

#[test]
fn parse_nested_parens() {
    let expr = parse_node_expr("(1.0 + 2.0) * 3.0");
    if let ExprKind::BinOp { op, lhs, .. } = &expr.kind {
        assert_eq!(*op, BinOp::Mul);
        assert!(matches!(lhs.kind, ExprKind::BinOp { op: BinOp::Add, .. }));
    } else {
        panic!("expected Mul");
    }
}

#[test]
fn parse_boolean_and() {
    let expr = parse_node_expr("@a > 0.0 && @b > 0.0");
    if let ExprKind::BinOp { op, lhs, rhs } = &expr.kind {
        assert_eq!(*op, BinOp::And);
        assert!(matches!(lhs.kind, ExprKind::BinOp { op: BinOp::Gt, .. }));
        assert!(matches!(rhs.kind, ExprKind::BinOp { op: BinOp::Gt, .. }));
    } else {
        panic!("expected And");
    }
}

#[test]
fn parse_boolean_or() {
    let expr = parse_node_expr("@a > 0.0 || @b > 0.0");
    assert!(matches!(expr.kind, ExprKind::BinOp { op: BinOp::Or, .. }));
}

#[test]
fn parse_unary_neg() {
    let expr = parse_node_expr("-1.0");
    assert!(matches!(
        expr.kind,
        ExprKind::UnaryOp {
            op: UnaryOp::Neg,
            ..
        }
    ));
}

#[test]
fn parse_unary_not() {
    let expr = parse_node_expr("!true");
    assert!(matches!(
        expr.kind,
        ExprKind::UnaryOp {
            op: UnaryOp::Not,
            ..
        }
    ));
}

#[test]
fn parse_complex_expression() {
    let expr = parse_node_expr("@v_exhaust * ln(@mass_ratio)");
    if let ExprKind::BinOp { op, lhs, rhs } = &expr.kind {
        assert_eq!(*op, BinOp::Mul);
        assert!(
            matches!(&lhs.kind, ExprKind::GraphRef(id) if id.value.member.text == "v_exhaust")
        );
        assert!(
            matches!(&rhs.kind, ExprKind::FnCall { callee, .. } if callee.as_bare().is_some_and(|name| name.name.text == "ln"))
        );
    } else {
        panic!("expected Mul");
    }
}

#[test]
fn parse_comparison_eq() {
    let expr = parse_node_expr("@x == 1.0");
    assert!(matches!(expr.kind, ExprKind::BinOp { op: BinOp::Eq, .. }));
}

#[test]
fn parse_comparison_ne() {
    let expr = parse_node_expr("@x != 1.0");
    assert!(matches!(expr.kind, ExprKind::BinOp { op: BinOp::Ne, .. }));
}

#[test]
fn parse_field_access() {
    let source = "node x: Dimensionless = @transfer.dv1;";
    let file = parser(source).parse_file().unwrap();
    match &file.declarations[0].kind {
        DeclKind::Node(n) => match &n.value.kind {
            ExprKind::FieldAccess { expr, field } => {
                assert!(
                    matches!(&expr.kind, ExprKind::GraphRef(ident) if ident.value.member.text == "transfer")
                );
                assert_eq!(field.value.as_str(), "dv1");
            }
            other => panic!("expected FieldAccess, got {other:?}"),
        },
        _ => panic!("expected node"),
    }
}

#[test]
fn parse_chained_field_access() {
    let source = "node x: Dimensionless = @mission.transfer.dv1;";
    let file = parser(source).parse_file().unwrap();
    match &file.declarations[0].kind {
        DeclKind::Node(n) => match &n.value.kind {
            ExprKind::FieldAccess { expr, field } => {
                assert_eq!(field.value.as_str(), "dv1");
                match &expr.kind {
                    ExprKind::FieldAccess {
                        expr: inner,
                        field: mid_field,
                    } => {
                        assert_eq!(mid_field.value.as_str(), "transfer");
                        assert!(
                            matches!(&inner.kind, ExprKind::GraphRef(ident) if ident.value.member.text == "mission")
                        );
                    }
                    other => panic!("expected inner FieldAccess, got {other:?}"),
                }
            }
            other => panic!("expected FieldAccess, got {other:?}"),
        },
        _ => panic!("expected node"),
    }
}

#[test]
fn parse_at_with_field_access_parses_as_field_chain() {
    // `@instance.field` is valid: `instance` is a single in-scope ident
    // (typically an include's instance alias), and `.field` is postfix
    // field access producing the instance's projected output value.
    let file = parser("node x: Dimensionless = @stage.delta_v;")
        .parse_file()
        .unwrap();
    let decl = &file.declarations[0].kind;
    let DeclKind::Node(node) = decl else {
        panic!("expected Node");
    };
    // The expression should be `FieldAccess(GraphRef(stage), delta_v)`,
    // not a qualified-graph-ref construct.
    match &node.value.kind {
        ExprKind::FieldAccess { expr: inner, field } => {
            assert!(
                matches!(&inner.kind, ExprKind::GraphRef(id) if id.value.member.text == "stage")
            );
            assert_eq!(field.value.as_str(), "delta_v");
        }
        other => panic!("expected FieldAccess on GraphRef, got {other:?}"),
    }
}

#[test]
fn parse_inline_dag_ref_basic() {
    let file = parser("node y: Length = @clamp(x: @p).result;")
        .parse_file()
        .unwrap();
    let decl = &file.declarations[0].kind;
    let DeclKind::Node(node) = decl else {
        panic!("expected Node");
    };
    match &node.value.kind {
        ExprKind::InlineDagRef { path, args, output } => {
            assert_eq!(path.segments.len(), 1);
            assert_eq!(path.segments.get(0).name.text, "clamp");
            assert_eq!(args.len(), 1);
            assert_eq!(args[0].name.name.text, "x");
            assert!(
                matches!(&args[0].value.kind, ExprKind::GraphRef(id) if id.value.member.text == "p")
            );
            assert_eq!(output.value.as_str(), "result");
        }
        other => panic!("expected InlineDagRef, got {other:?}"),
    }
}

#[test]
fn parse_inline_dag_ref_multi_arg() {
    let file = parser("node y: Velocity = @scale(factor: 2.0, v: @speed).out;")
        .parse_file()
        .unwrap();
    let decl = &file.declarations[0].kind;
    let DeclKind::Node(node) = decl else {
        panic!("expected Node");
    };
    match &node.value.kind {
        ExprKind::InlineDagRef { path, args, output } => {
            assert_eq!(path.segments.len(), 1);
            assert_eq!(path.segments.get(0).name.text, "scale");
            assert_eq!(args.len(), 2);
            assert_eq!(args[0].name.name.text, "factor");
            assert_eq!(args[1].name.name.text, "v");
            assert_eq!(output.value.as_str(), "out");
        }
        other => panic!("expected InlineDagRef, got {other:?}"),
    }
}

#[test]
fn duplicate_inline_dag_binding_is_rejected() {
    let err = parser("node y: Dimensionless = @combine(a: 1.0, a: 2.0).result;")
        .parse_file()
        .unwrap_err();
    assert!(
        matches!(err, ParseError::DuplicateDagBinding { name, .. } if name.as_str() == "a")
    );
}

#[test]
fn parse_inline_dag_ref_qualified_accepted() {
    // `@<module>.<dag>(args).<out>` projects a graph value from a DAG
    // brought into scope via `import path as module` (or `import path;`).
    // The value may be an explicit node export or a param input port.
    let file = parser("node y: Length = @geom.clamp(x: @p).result;")
        .parse_file()
        .expect("qualified inline DAG call should parse");
    let decl = &file.declarations[0].kind;
    let DeclKind::Node(node) = decl else {
        panic!("expected Node");
    };
    match &node.value.kind {
        ExprKind::InlineDagRef { path, args, output } => {
            assert_eq!(path.segments.len(), 2);
            assert_eq!(path.segments.get(0).name.text, "geom");
            assert_eq!(path.segments.get(1).name.text, "clamp");
            assert_eq!(path.display_path(), "geom.clamp");
            assert_eq!(args.len(), 1);
            assert_eq!(args[0].name.name.text, "x");
            assert_eq!(output.value.as_str(), "result");
        }
        other => panic!("expected InlineDagRef, got {other:?}"),
    }
}

#[test]
fn parse_at_field_access_still_works() {
    // `@orbit.altitude` is a struct-field projection on a graph reference,
    // not an inline DAG call (no `(...)` follows). It must still parse as
    // `FieldAccess(GraphRef("orbit"), "altitude")` — the path-greedy
    // `@`-parser falls back to this shape when no `(` is found.
    let file = parser("node y: Length = @orbit.altitude;")
        .parse_file()
        .expect("graph-ref field access should parse");
    let decl = &file.declarations[0].kind;
    let DeclKind::Node(node) = decl else {
        panic!("expected Node");
    };
    match &node.value.kind {
        ExprKind::FieldAccess { expr, field } => {
            assert_eq!(field.value.as_str(), "altitude");
            match &expr.kind {
                ExprKind::GraphRef(name) => assert_eq!(name.value.member.text, "orbit"),
                other => panic!("expected inner GraphRef, got {other:?}"),
            }
        }
        other => panic!("expected FieldAccess, got {other:?}"),
    }
}

#[test]
fn parse_at_field_access_chain_still_works() {
    // `@a.b.c` (no parens) → `FieldAccess(FieldAccess(GraphRef(a), b), c)`.
    // The path-greedy parser must rebuild this chain when no `(` follows.
    let file = parser("node y: Length = @a.b.c;")
        .parse_file()
        .expect("graph-ref field access chain should parse");
    let decl = &file.declarations[0].kind;
    let DeclKind::Node(node) = decl else {
        panic!("expected Node");
    };
    // Outer: FieldAccess(.., c)
    let ExprKind::FieldAccess {
        expr: outer_inner,
        field: c,
    } = &node.value.kind
    else {
        panic!("expected outer FieldAccess");
    };
    assert_eq!(c.value.as_str(), "c");
    let ExprKind::FieldAccess {
        expr: inner,
        field: b,
    } = &outer_inner.kind
    else {
        panic!("expected inner FieldAccess");
    };
    assert_eq!(b.value.as_str(), "b");
    let ExprKind::GraphRef(a) = &inner.kind else {
        panic!("expected innermost GraphRef");
    };
    assert_eq!(a.value.member.text, "a");
}

#[test]
fn parse_inline_dag_ref_no_projection_rejected() {
    // `@dag(args)` (no `.<out>` projection) is rejected because an
    // unprojected DAG instance is not a graph value.
    let result = parser("node y: Length = @dag(x: @p);").parse_file();
    assert!(
        result.is_err(),
        "@dag(args) without .<out> projection must be rejected"
    );
}

#[test]
fn parse_inline_dag_ref_qualified_no_projection_rejected() {
    // `@module.dag(args)` (no `.<out>` projection) is rejected for the
    // same reason — same rule, applied to a qualified path.
    let result = parser("node y: Length = @geom.clamp(x: @p);").parse_file();
    assert!(
        result.is_err(),
        "@module.dag(args) without .<out> projection must be rejected"
    );
}


#[test]
fn parse_dotted_identifier_path_ref() {
    let file = parser("node x: Dimensionless = constants.physics.G0;")
        .parse_file()
        .unwrap();
    let decl = &file.declarations[0].kind;
    let DeclKind::Node(node) = decl else {
        panic!("expected Node");
    };
    match &node.value.kind {
        ExprKind::UnresolvedRef(graphcal::syntax::ast::UnresolvedRef::Path(path)) => {
            let names = (0..path.segments.len())
                .map(|i| path.segments.get(i).name.as_str())
                .collect::<Vec<_>>();
            assert_eq!(names, vec!["constants", "physics", "G0"]);
        }
        other => panic!("expected unresolved path, got {other:?}"),
    }
}

#[test]
fn empty_call_generic_arguments_are_rejected() {
    for source in ["sqrt<>(4.0)", "Wrapper<>(value: 4.0)"] {
        let error = parser(source).parse_single_expr().unwrap_err();
        assert!(
            matches!(error, ParseError::UnexpectedToken { .. }),
            "unexpected error for `{source}`: {error:?}"
        );
    }
}

#[test]
fn empty_index_access_is_rejected() {
    let error = parser("@values[]").parse_single_expr().unwrap_err();
    assert!(matches!(error, ParseError::UnexpectedToken { .. }));
}

#[test]
fn single_expr_quantity_literal() {
    let expr = parser("450.0 s").parse_single_expr().unwrap();
    assert!(matches!(expr.kind, ExprKind::QuantityLiteral { .. }));
}

#[test]
fn single_expr_integer_with_unit_errors() {
    let result = parser("450 s").parse_single_expr();
    assert!(
        result.is_err(),
        "integer literal with unit should be an error"
    );
}

#[test]
fn single_expr_number() {
    let expr = parser("3.0").parse_single_expr().unwrap();
    assert!(matches!(expr.kind, ExprKind::Number(n) if (f64::from_bits(n.bits) - 3.0).abs() < f64::EPSILON));
}

#[test]
fn single_expr_compound_quantity_literal() {
    let expr = parser("9.80665 m/s^2").parse_single_expr().unwrap();
    assert!(matches!(expr.kind, ExprKind::QuantityLiteral { .. }));
}

#[test]
fn single_expr_arithmetic_with_const() {
    let expr = parser("2.0 * PI").parse_single_expr().unwrap();
    assert!(matches!(expr.kind, ExprKind::BinOp { .. }));
}

#[test]
fn single_expr_trailing_tokens_error() {
    let result = parser("450.0 s; extra").parse_single_expr();
    assert!(result.is_err());
}

#[test]
fn a_product_of_names_stays_open_until_the_parameter_is_known() {
    let expr = parse_node_expr("foo<M * N * K, Length, A * 2, M + 1>(@x)");
    let ExprKind::FnCall { generic_args, .. } = &expr.kind else { panic!("{:?}", expr.kind) };
    assert!(matches!(
        &generic_args[0],
        graphcal::syntax::ast::GenericArg::Ambiguous(graphcal::syntax::ast::AmbiguousGenericArg::Mul(operands, _))
            if operands.len() == 3
    ));
    assert!(matches!(
        &generic_args[1],
        graphcal::syntax::ast::GenericArg::Ambiguous(graphcal::syntax::ast::AmbiguousGenericArg::Name(_))
    ));
    assert!(matches!(&generic_args[2], graphcal::syntax::ast::GenericArg::Nat(_)));
    assert!(matches!(&generic_args[3], graphcal::syntax::ast::GenericArg::Nat(_)));
    let expr = parse_node_expr("foo<M^2 * N>(@x)");
    let ExprKind::FnCall { generic_args, .. } = &expr.kind else { panic!("{:?}", expr.kind) };
    assert!(matches!(&generic_args[0], graphcal::syntax::ast::GenericArg::Type(_)));
}
