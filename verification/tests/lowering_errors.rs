use graphcal::desugar::desugared_ast as ast;
use graphcal::hir::context::{
    DeclBinding, ExprLoweringContext, GenericBinding, GenericScope, PreludeTypeScope, UnitRegistry,
};
use graphcal::hir::datetime::{TimeZoneRegistry, ZonedResult};
use graphcal::hir::error::ExprLowerError;
use graphcal::hir::lower::{lower_assert_body, lower_expr, lower_expr_tolerant};
use graphcal::hir::resolve::{ModuleResolveError, ModuleResolver};
use graphcal::hir::tree::{
    AssertBody, CivilDateTimeLiteral, ConstRef, DagId, DimExpr, DimRef, Expr, ExprKind, ForBindingIndex, FunctionRef,
    GenericArg, IanaTimeZoneId, IndexRef, MatchPattern, NatExpr, OffsetDateTimeLiteral, ResolvedDeclName, TimeScale,
    TypeExprKind, TypeSystemRef,
};
use graphcal::hir::visit::collect_expr_dependencies;
use graphcal::syntax::ast::{GenericConstraint, IndexEntryKey, MapEntryIndex, MulDivOp, PluginPath, ScopedName};
use graphcal::syntax::desugar::desugar_multi_decls_in_file;
use graphcal::syntax::names::{
    ConstructorName, DeclName, DimName, FnName, GenericParamName, IndexVariantName, ModuleAliasName, NameAtom,
    StructTypeName, UnitName,
};
use graphcal::syntax::non_empty::NonEmpty;
use graphcal::syntax::parser::state::Parser;
use graphcal::syntax::span::{Span, Spanned};

fn parser(source: &str) -> Parser {
    let parser = Parser::new(source);
    let values = parser
        .decimal_literals()
        .into_iter()
        .map(|text| {
            text.and_then(|text| text.replace('_', "").parse::<f64>().ok())
                .filter(|value| value.is_finite())
                .map(f64::to_bits)
        })
        .collect();
    parser.with_float_values(values)
}

fn file(source: &str) -> ast::File {
    desugar_multi_decls_in_file(parser(source).parse_file().unwrap())
}

fn value<'a>(file: &'a ast::File, name: &str) -> &'a ast::Expr {
    file.declarations
        .iter()
        .find_map(|decl| match &decl.kind {
            ast::DeclKind::Node(node) if node.name.value.as_str() == name => Some(&node.value),
            _ => None,
        })
        .unwrap()
}

fn atom(text: &str) -> NameAtom {
    NameAtom::new(text.to_string())
}

fn main_id() -> DagId {
    DagId::root_in_package("test", "main")
}

/// Resolves the node `out` of a file.
fn tolerant(source: &str) -> (Expr, Vec<ExprLowerError>) {
    let owner = main_id();
    let file = file(source);
    let mut resolver = ModuleResolver::default();
    resolver.add_module(owner.copy(), &file.declarations).unwrap();
    let scope = GenericScope::new();
    lower_expr_tolerant(
        value(&file, "out"),
        ExprLoweringContext::new(&owner, &resolver, &scope, &TimeZoneRegistry::bundled()),
    )
}

fn first_error(expression: &str) -> ExprLowerError {
    let (tree, errors) = tolerant(&format!(
        "index Axis = {{ X, Y }}; index Other = {{ Z }}; type State {{ Good, Bad }} param p: Dimensionless; \
         node out: Dimensionless = {expression};"
    ));
    assert!(matches!(tree.kind, ExprKind::Error { .. }) || !errors.is_empty());
    errors.into_iter().next().unwrap()
}

#[test]
fn unknown_names_are_reported_by_what_they_should_be() {
    assert!(matches!(first_error("@missing"), ExprLowerError::UnknownGraphRef { name, .. } if name.member.text == "missing"));
    assert!(matches!(
        first_error("missing"),
        ExprLowerError::ModuleResolve { source: ModuleResolveError::UnknownName { name, .. }, .. } if name == "missing"
    ));
    assert!(matches!(
        first_error("alias.missing"),
        ExprLowerError::ModuleResolve { source: ModuleResolveError::UnknownModuleAlias { alias, .. }, .. } if alias == "alias"
    ));
    assert!(matches!(first_error("@p[i]"), ExprLowerError::UnknownLocalRef { name, .. } if name.as_str() == "i"));
    assert!(matches!(first_error("mystery(1)"), ExprLowerError::UnknownFunction { path, .. } if path == "mystery"));
    assert!(matches!(first_error("a.b.c(1)"), ExprLowerError::UnknownFunction { path, .. } if path == "a.b.c"));
    assert!(matches!(first_error("1.0 parsec"), ExprLowerError::UnknownUnit { name, .. } if name.display_path() == "parsec"));
    assert!(matches!(
        first_error("match @p { Missing => 1 }"),
        ExprLowerError::UnknownPattern { path, .. } if path == "Missing"
    ));
    assert!(matches!(
        first_error("for i: Fin(N) { 1.0 }"),
        ExprLowerError::UnknownNatParam { name, .. } if name == "N"
    ));
}

#[test]
fn index_variants_are_checked() {
    assert!(matches!(
        first_error("Axis.Missing"),
        ExprLowerError::ModuleResolve { source: ModuleResolveError::UnknownIndexVariant { variant, .. }, .. }
            if variant.as_str() == "Missing"
    ));
    assert!(matches!(
        first_error("{ Axis.X: 1, Axis.W: 2 }"),
        ExprLowerError::ExtraMapVariant { index_name, variant_name, .. } if index_name.as_str() == "Axis" && variant_name.as_str() == "W"
    ));
}

#[test]
fn locals_of_one_scope_have_distinct_names() {
    let error = first_error("for i: Axis, i: Other { 1.0 }");
    let ExprLowerError::DuplicateLocalBinding { name, first, duplicate } = error else {
        panic!("unexpected {error:?}");
    };
    assert_eq!(name.as_str(), "i");
    assert!(first.offset() < duplicate.offset());
}

#[test]
fn inner_locals_hide_outer_ones() {
    let (tree, errors) = tolerant(
        "index Axis = { X }; node out: Dimensionless = for i: Axis { for i: Axis { i } };",
    );
    assert!(errors.is_empty());
    let ExprKind::ForComp { bindings, body } = tree.kind else { panic!() };
    let ExprKind::ForComp { bindings: inner, body } = body.kind else { panic!() };
    let ExprKind::LocalRef(local) = body.kind else { panic!() };
    assert_eq!(bindings[0].local.id.index(), 0);
    assert_eq!(inner[0].local.id.index(), 1);
    assert_eq!(local.value.index(), 1);
}

#[test]
fn folds_number_their_locals() {
    let (tree, errors) = tolerant(
        "index Axis = { X }; param p: Dimensionless; \
         node out: Dimensionless = scan(@p, 0.0, |a, v| a + v) + unfold(Axis, 0.0, |s, b, n| s);",
    );
    assert!(errors.is_empty(), "{errors:?}");
    let ExprKind::BinOp { lhs, rhs, .. } = tree.kind else { panic!() };
    let ExprKind::Scan { acc, val, .. } = lhs.kind else { panic!() };
    let ExprKind::Unfold { recurrence, .. } = rhs.kind else { panic!() };
    assert_eq!((acc.id.index(), val.id.index()), (0, 1));
    assert_eq!(recurrence.previous_state.id.index(), 2);
    assert_eq!(recurrence.previous_index.id.index(), 3);
    assert_eq!(recurrence.current_index.id.index(), 4);
}

#[test]
fn calls_are_checked() {
    assert!(matches!(
        first_error("sqrt(1.0, 2.0)"),
        ExprLowerError::WrongArity { name, expected: 1, got: 2, .. } if name.as_str() == "sqrt"
    ));
    assert!(matches!(
        first_error("atan2(1.0)"),
        ExprLowerError::WrongArity { expected: 2, got: 1, .. }
    ));
    assert!(matches!(
        first_error("sqrt<Length>(1.0)"),
        ExprLowerError::UnsupportedFunctionGenericArgs { path, .. } if path == "sqrt"
    ));
    let error = first_error("sqrt(value: 1.0)");
    let ExprLowerError::NamedArgumentsOnFunction { function, argument_names, .. } = &error else {
        panic!("unexpected {error:?}");
    };
    assert_eq!(function.display(), "sqrt");
    assert_eq!(argument_names[0].as_str(), "value");
    assert_eq!(error.message(), "function `sqrt` uses positional arguments");
}

#[test]
fn epoch_takes_one_time_scale() {
    assert!(matches!(
        first_error("epoch(\"2024-01-01T00:00:00\")"),
        ExprLowerError::EpochTimeScaleArgumentCount { got: 0, .. }
    ));
    assert!(matches!(
        first_error("epoch<TT, UTC>(\"2024-01-01T00:00:00\")"),
        ExprLowerError::EpochTimeScaleArgumentCount { got: 2, .. }
    ));
    assert!(matches!(
        first_error("epoch<3>(\"2024-01-01T00:00:00\")"),
        ExprLowerError::InvalidEpochTimeScaleArgument { .. }
    ));
    assert!(matches!(
        first_error("epoch<Noon>(\"2024-01-01T00:00:00\")"),
        ExprLowerError::UnsupportedEpochTimeScale { name, .. } if name.as_str() == "Noon"
    ));
}

#[test]
fn dates_and_times_are_checked() {
    assert!(matches!(
        first_error("datetime(\"soon\")"),
        ExprLowerError::InvalidDatetimeLiteral { .. }
    ));
    assert!(matches!(
        first_error("datetime(\"2024-07-15T17:30:00\", \"Mars/Base\")"),
        ExprLowerError::InvalidTimezone { timezone, .. } if timezone == "Mars/Base"
    ));
    let error = first_error("datetime(\"2024-03-10T02:30:00\", \"America/New_York\")");
    let ExprLowerError::NonexistentCivilDateTime { before, after, .. } = &error else {
        panic!("unexpected {error:?}");
    };
    assert_eq!((*before, *after), (-5 * 3600, -4 * 3600));
    assert_eq!(
        error.message(),
        "local civil datetime `2024-03-10T02:30:00` does not exist in timezone `America/New_York`"
    );
    let error = first_error("datetime(\"2024-11-03T01:30:00\", \"America/New_York\")");
    let ExprLowerError::RepeatedCivilDateTime { before, after, .. } = &error else {
        panic!("unexpected {error:?}");
    };
    assert_eq!((*before, *after), (-4 * 3600, -5 * 3600));
    assert!(matches!(
        first_error("@p -> \"Nowhere\""),
        ExprLowerError::InvalidTimezone { .. } | ExprLowerError::UnknownUnit { .. }
    ));
}

#[test]
fn date_literals_are_read_by_their_parts() {
    let civil = CivilDateTimeLiteral::parse(&"2024-02-29T12:34:56.5".to_string()).unwrap();
    assert_eq!((civil.year, civil.month, civil.day), (2024, 2, 29));
    assert_eq!((civil.hour, civil.minute, civil.second, civil.nanosecond), (12, 34, 56, 500_000_000));
    assert_eq!(civil.display(), "2024-02-29T12:34:56.5");
    assert!(CivilDateTimeLiteral::parse(&"2023-02-29T00:00:00".to_string()).is_err());
    let offset = OffsetDateTimeLiteral::parse(&"1970-01-02T01:00:00+01:00".to_string()).unwrap();
    assert_eq!((offset.second, offset.nanosecond), (86_400, 0));
    let registry = TimeZoneRegistry::bundled();
    let zone = registry.parse_iana_id(&"europe/berlin".to_string()).unwrap();
    assert_eq!(zone.name, "Europe/Berlin");
    assert!(registry.parse_iana_id(&"Mars/Base".to_string()).is_none());
    let noon = CivilDateTimeLiteral::parse(&"1970-01-01T12:00:00".to_string()).unwrap();
    assert_eq!(noon.in_zone(&zone), ZonedResult::Instant(11 * 3600, 0));
    assert_eq!(noon.in_zone(&IanaTimeZoneId { name: "Mars/Base".to_string() }), ZonedResult::NoZone);
}

#[test]
fn key_forms_take_an_index() {
    assert!(matches!(
        first_error("key(3, 1)"),
        ExprLowerError::ExpectedIndexFoundNat { expression, .. } if expression == "3"
    ));
}

#[test]
fn an_error_node_stands_for_each_error_and_only_there() {
    let (tree, errors) = tolerant("param p: Dimensionless; node out: Dimensionless = @p + missing * gone;");
    assert_eq!(errors.len(), 2);
    let ExprKind::BinOp { lhs, rhs, .. } = tree.kind else { panic!() };
    assert!(matches!(lhs.kind, ExprKind::GraphRef(_)));
    let ExprKind::BinOp { lhs, rhs, .. } = rhs.kind else { panic!() };
    assert!(matches!(lhs.kind, ExprKind::Error { .. }));
    assert!(matches!(rhs.kind, ExprKind::Error { .. }));
}

fn span() -> Span {
    Span::new(0, 0)
}

fn spanned<T>(value: T) -> Spanned<T> {
    Spanned::new(value, span())
}

fn declaration(kind: ast::DeclKind) -> ast::Declaration {
    ast::Declaration { attributes: Vec::new(), kind, span: span() }
}

#[test]
fn plugin_functions_are_called_by_their_alias() {
    let owner = main_id();
    let source = file("node out: Dimensionless = geo.area(1.0); node bad: Dimensionless = geo.volume(1.0);");
    let mut declarations = source.declarations;
    declarations.push(declaration(ast::DeclKind::PluginImport(ast::PluginImportDecl {
        path: spanned(PluginPath { text: "plugins/geo.wasm".to_string() }),
        alias: spanned(ModuleAliasName::from_atom(atom("geo"))),
        functions: vec![ast::ExternFnDecl {
            name: spanned(FnName::from_atom(atom("area"))),
            generics: Vec::new(),
            params: Vec::new(),
            result: ast::TypeExpr { kind: ast::TypeExprKind::Dimensionless, constraints: Vec::new(), span: span() },
            span: span(),
        }],
    })));
    let whole = ast::File { declarations };
    let mut resolver = ModuleResolver::default();
    resolver.add_module(owner.copy(), &whole.declarations).unwrap();
    let scope = GenericScope::new();
    let zones = TimeZoneRegistry::bundled();
    let context = ExprLoweringContext::new(&owner, &resolver, &scope, &zones);
    let tree = lower_expr(value(&whole, "out"), context).unwrap();
    let ExprKind::FnCall { callee, .. } = tree.kind else { panic!() };
    let FunctionRef::External(target) = callee.value else { panic!() };
    assert_eq!(target.display(), "geo.area");
    let key = target.key();
    assert_eq!((key.plugin.text.as_str(), key.name.as_str()), ("plugins/geo.wasm", "area"));
    let error = lower_expr(value(&whole, "bad"), context).unwrap_err();
    assert!(matches!(
        &error,
        ExprLowerError::UnknownExternFunction { alias, name, .. } if alias.as_str() == "geo" && name.as_str() == "volume"
    ));
    assert_eq!(error.message(), "plugin alias `geo` does not declare a function `volume`");
}

fn generic_type(name: &str, constructor: &str, constraints: Vec<(&str, GenericConstraint)>) -> ast::Declaration {
    declaration(ast::DeclKind::Type(ast::TypeDecl {
        visibility: graphcal::syntax::ast::BindableVisibility::Private,
        name: spanned(StructTypeName::from_atom(atom(name))),
        generic_params: constraints
            .into_iter()
            .map(|(name, constraint)| ast::GenericParam {
                name: spanned(GenericParamName::from_atom(atom(name))),
                constraint,
                default: None,
            })
            .collect(),
        body: ast::TypeDeclBody::Constructors(vec![ast::UnionMember {
            name: spanned(ConstructorName::from_atom(atom(constructor))),
            payload: None,
            span: span(),
        }]),
    }))
}

fn lower_in_generic_type(expression: &str) -> Result<Expr, ExprLowerError> {
    let owner = main_id();
    let mut whole = file(&format!(
        "base dim Length; index Axis = {{ X }}; type State {{ Good }} node out: Dimensionless = {expression};"
    ));
    whole.declarations.push(generic_type(
        "Boxed",
        "Wrap",
        vec![
            ("D", GenericConstraint::Dim),
            ("I", GenericConstraint::Index),
            ("N", GenericConstraint::Nat),
        ],
    ));
    whole.declarations.push(generic_type("Held", "Hold", vec![("T", GenericConstraint::Type)]));
    let mut resolver = ModuleResolver::default();
    resolver.add_module(owner.copy(), &whole.declarations).unwrap();
    let scope = GenericScope {
        params: [
            ("M", GenericConstraint::Nat),
            ("N", GenericConstraint::Nat),
            ("Dim", GenericConstraint::Dim),
            ("Idx", GenericConstraint::Index),
            ("Ty", GenericConstraint::Type),
        ]
        .into_iter()
        .map(|(name, constraint)| GenericBinding { name: GenericParamName::from_atom(atom(name)), constraint })
        .collect(),
    };
    let prelude = PreludeTypeScope {
        owner: DagId::root_in_package("std", "prelude"),
        units: Vec::new(),
        dimensions: vec![DimName::from_atom(atom("Mass")), DimName::from_atom(atom("Length"))],
    };
    lower_expr(
        value(&whole, "out"),
        ExprLoweringContext::new(&owner, &resolver, &scope, &TimeZoneRegistry::bundled()).with_prelude(&prelude),
    )
}

fn generic_args_of(expression: &str) -> Vec<GenericArg> {
    let tree = lower_in_generic_type(expression).unwrap();
    let ExprKind::ConstructorCall { generic_args, .. } = tree.kind else { panic!() };
    generic_args
}

/// The owners and names of the factors of a dimension, with their powers.
fn factors(dim: &DimExpr) -> Vec<(String, i64)> {
    dim.items
        .iter()
        .map(|item| {
            let name = match &item.dimension.value {
                DimRef::Named(name) => {
                    format!("{}.{}", name.owner.segments.last().unwrap(), name.name.as_str())
                }
                DimRef::Param(param) => format!("<{}>", param.name.as_str()),
            };
            let sign = if item.op == MulDivOp::Div { -1 } else { 1 };
            (name, sign * item.power.numerator)
        })
        .collect()
}

fn dimension_of(expression: &str) -> Vec<(String, i64)> {
    let args = generic_args_of(expression);
    let GenericArg::Dimension(dim) = &args[0] else { panic!("{args:?}") };
    factors(dim)
}

fn type_of(expression: &str) -> TypeExprKind {
    let mut args = generic_args_of(expression);
    let GenericArg::Type(t) = args.remove(0) else { panic!() };
    t.kind
}

#[test]
fn dimension_arguments_know_the_prelude() {
    let named = |pairs: &[(&str, i64)]| pairs.iter().map(|(n, p)| (n.to_string(), *p)).collect::<Vec<_>>();
    assert_eq!(dimension_of("Wrap<Mass, Axis, 1>(x: 1)"), named(&[("prelude.Mass", 1)]));
    assert_eq!(dimension_of("Wrap<Length, Axis, 1>(x: 1)"), named(&[("main.Length", 1)]));
    assert_eq!(dimension_of("Wrap<Dim, Axis, 1>(x: 1)"), named(&[("<Dim>", 1)]));
    assert_eq!(
        dimension_of("Wrap<Length * Mass * Dim, Axis, 1>(x: 1)"),
        named(&[("main.Length", 1), ("prelude.Mass", 1), ("<Dim>", 1)])
    );
    assert_eq!(
        dimension_of("Wrap<Mass^2 / Length, Axis, 1>(x: 1)"),
        named(&[("prelude.Mass", 2), ("main.Length", -1)])
    );
    assert!(matches!(
        lower_in_generic_type("Wrap<Time, Axis, 1>(x: 1)"),
        Err(ExprLowerError::ModuleResolve { source: ModuleResolveError::UnknownName { name, .. }, .. }) if name == "Time"
    ));
}

#[test]
fn index_arguments_can_be_finite() {
    let index = |text: &str| {
        let mut args = generic_args_of(&format!("Wrap<Length, {text}, 1>(x: 1)"));
        let GenericArg::Index(index) = args.remove(1) else { panic!() };
        index
    };
    assert!(matches!(index("Axis"), IndexRef::Axis(ForBindingIndex::Named(name)) if name.value.name.as_str() == "Axis"));
    assert!(matches!(
        index("Fin(3)"),
        IndexRef::Axis(ForBindingIndex::Finite { cardinality: NatExpr::Literal(3, _), .. })
    ));
    assert!(matches!(index("Idx"), IndexRef::Param(name, _) if name.name.as_str() == "Idx"));
    assert!(matches!(
        lower_in_generic_type("Wrap<Length, 3, 1>(x: 1)"),
        Err(ExprLowerError::ExpectedIndexFoundNat { expression, .. }) if expression == "3"
    ));
}

#[test]
fn number_arguments_can_be_products_of_parameters() {
    let number = |text: &str| {
        let mut args = generic_args_of(&format!("Wrap<Length, Axis, {text}>(x: 1)"));
        let GenericArg::Nat(n) = args.remove(2) else { panic!() };
        n
    };
    assert!(matches!(number("M"), NatExpr::Param(_, _)));
    assert!(matches!(
        number("M * N"),
        NatExpr::Mul(items, _) if matches!(&items[..], [NatExpr::Param(_, _), NatExpr::Param(_, _)])
    ));
    assert!(matches!(number("M + 1"), NatExpr::Add(_, _)));
    assert!(matches!(number("M * 2"), NatExpr::Mul(_, _)));
    assert!(matches!(
        lower_in_generic_type("Wrap<Length, Axis, M * Length>(x: 1)"),
        Err(ExprLowerError::UnknownNatParam { name, .. }) if name == "Length"
    ));
}

#[test]
fn type_arguments_are_resolved() {
    assert!(matches!(type_of("Hold<Bool>(x: 1)"), TypeExprKind::Bool));
    assert!(matches!(
        type_of("Hold<State>(x: 1)"),
        TypeExprKind::Struct { name, generic_args } if name.name.as_str() == "State" && generic_args.is_empty()
    ));
    assert!(matches!(type_of("Hold<Ty>(x: 1)"), TypeExprKind::Param(_)));
    let TypeExprKind::Quantity(dim) = type_of("Hold<Mass>(x: 1)") else { panic!() };
    assert_eq!(factors(&dim), [("prelude.Mass".to_string(), 1)]);
    let TypeExprKind::Quantity(dim) = type_of("Hold<Mass * Length>(x: 1)") else { panic!() };
    assert_eq!(factors(&dim).len(), 2);
    let TypeExprKind::Indexed { base, indexes } = type_of("Hold<Length[Axis, Fin(2)]>(x: 1)") else { panic!() };
    assert!(matches!(base.kind, TypeExprKind::Quantity(_)));
    assert_eq!(indexes.len(), 2);
    let TypeExprKind::DatetimeApplication { type_args } = type_of("Hold<Datetime<TAI>>(x: 1)") else { panic!() };
    assert!(matches!(type_args[0].kind, TypeExprKind::TimeScale(TimeScale::TAI)));
    let TypeExprKind::Struct { name, generic_args } = type_of("Hold<Boxed<Mass, Fin(2), M * N>>(x: 1)") else {
        panic!()
    };
    assert_eq!(name.name.as_str(), "Boxed");
    assert!(matches!(
        &generic_args[..],
        [GenericArg::Dimension(_), GenericArg::Index(_), GenericArg::Nat(NatExpr::Mul(_, _))]
    ));
    assert!(matches!(type_of("Hold<Complex<Mass>>(x: 1)"), TypeExprKind::ComplexApplication { generic_args }
        if matches!(&generic_args[..], [GenericArg::Dimension(_)])));
    assert!(matches!(type_of("Hold<Key<Axis>>(x: 1)"), TypeExprKind::KeyApplication { generic_args }
        if matches!(&generic_args[..], [GenericArg::Index(_)])));
    assert!(matches!(
        lower_in_generic_type("Hold<Boxed<Mass>>(x: 1)"),
        Err(ExprLowerError::GenericArgCount { expected: 3, got: 1, .. })
    ));
    assert!(matches!(
        lower_in_generic_type("Hold<Missing>(x: 1)"),
        Err(ExprLowerError::ModuleResolve { source: ModuleResolveError::UnknownName { name, .. }, .. })
            if name == "Missing"
    ));
}

#[test]
fn arguments_of_the_wrong_kind_are_refused() {
    let mismatch = |expression: &str| match lower_in_generic_type(expression) {
        Err(ExprLowerError::GenericArgMismatch { expected, .. }) => expected,
        other => panic!("{other:?}"),
    };
    assert_eq!(mismatch("Wrap<3, Axis, 1>(x: 1)"), GenericConstraint::Dim);
    assert_eq!(mismatch("Wrap<Length[Axis], Axis, 1>(x: 1)"), GenericConstraint::Dim);
    assert_eq!(mismatch("Wrap<Length, M * N, 1>(x: 1)"), GenericConstraint::Index);
    assert_eq!(mismatch("Wrap<Length, Axis, Fin(2)>(x: 1)"), GenericConstraint::Nat);
    assert_eq!(mismatch("Hold<3>(x: 1)"), GenericConstraint::Type);
    let error = lower_in_generic_type("Hold<3>(x: 1)").unwrap_err();
    assert_eq!(error.message(), "generic argument is no type");
}

#[test]
fn generic_arguments_go_by_the_parameters_of_the_type() {
    let tree = lower_in_generic_type("Wrap<Length, Axis, M>(x: 1)").unwrap();
    let ExprKind::ConstructorCall { generic_args, .. } = tree.kind else { panic!() };
    assert!(matches!(generic_args[0], graphcal::hir::tree::GenericArg::Dimension(_)));
    assert!(matches!(generic_args[1], graphcal::hir::tree::GenericArg::Index(_)));
    assert!(matches!(
        generic_args[2],
        graphcal::hir::tree::GenericArg::Nat(graphcal::hir::tree::NatExpr::Param(_, _))
    ));
    assert!(matches!(
        lower_in_generic_type("Wrap<Length>(x: 1)"),
        Err(ExprLowerError::GenericArgCount { expected: 3, got: 1, .. })
    ));
    assert!(matches!(
        lower_in_generic_type("Wrap<Length * Length, Axis, 3>(x: 1)"),
        Ok(_)
    ));
    assert!(matches!(
        lower_in_generic_type("Wrap<Length, Axis, K>(x: 1)"),
        Err(ExprLowerError::UnknownNatParam { .. })
    ));
    // A generic parameter that stands for a number is a constant.
    let tree = lower_in_generic_type("M").unwrap();
    let ExprKind::ConstRef(target) = tree.kind else { panic!() };
    assert!(matches!(target.value, ConstRef::GenericNatParam(_)));
}

#[test]
fn map_keys_have_to_go_with_their_index() {
    let owner = main_id();
    let whole = file("index Axis = { X }; node out: Dimensionless = 1.0;");
    let mut resolver = ModuleResolver::default();
    resolver.add_module(owner.copy(), &whole.declarations).unwrap();
    let scope = GenericScope::new();
    let zones = TimeZoneRegistry::bundled();
    let context = ExprLoweringContext::new(&owner, &resolver, &scope, &zones);
    let map = |index: MapEntryIndex, entry: IndexEntryKey| ast::Expr {
        kind: ast::ExprKind::MapLiteral {
            entries: vec![ast::MapEntry {
                keys: NonEmpty::singleton(ast::MapEntryKey::Discrete {
                    index: spanned(index),
                    additional_index_spans: Vec::new(),
                    entry: spanned(entry),
                }),
                value: ast::Expr { kind: ast::ExprKind::Integer(1), span: span() },
            }],
        },
        span: span(),
    };
    let named = || IndexEntryKey::Named(IndexVariantName::from_atom(atom("X")));
    assert!(matches!(
        lower_expr(&map(MapEntryIndex::Finite(2), named()), context),
        Err(ExprLowerError::InvalidMapEntryKey { .. })
    ));
    assert!(lower_expr(&map(MapEntryIndex::Finite(2), IndexEntryKey::Position(0)), context).is_ok());
}

#[test]
fn prelude_registry_and_bindings_are_consulted() {
    let owner = main_id();
    let whole = file(
        "node a: Dimensionless = 1.0 km; node b: Dimensionless = 1.0 mile; node c: Dimensionless = @outer; \
         node d: Dimensionless = Speed;",
    );
    let mut resolver = ModuleResolver::default();
    resolver.add_module(owner.copy(), &whole.declarations).unwrap();
    let scope = GenericScope::new();
    let zones = TimeZoneRegistry::bundled();
    let prelude = PreludeTypeScope {
        owner: DagId::root_in_package("std", "prelude"),
        units: vec![UnitName::from_atom(atom("km"))],
        dimensions: vec![DimName::from_atom(atom("Speed"))],
    };
    let registry = UnitRegistry { units: vec![UnitName::from_atom(atom("mile"))] };
    let bindings = vec![DeclBinding {
        name: ScopedName { qualifier: Vec::new(), member: atom("outer") },
        target: ResolvedDeclName {
            owner: DagId::root_in_package("test", "elsewhere"),
            name: DeclName::from_atom(atom("inner")),
        },
    }];
    let context = ExprLoweringContext::new(&owner, &resolver, &scope, &zones)
        .with_prelude(&prelude)
        .with_unit_registry(&registry)
        .with_decl_bindings(&bindings);
    let unit_owner = |name: &str| {
        let ExprKind::QuantityLiteral { unit, .. } = lower_expr(value(&whole, name), context).unwrap().kind else {
            panic!()
        };
        unit.terms[0].name.value.resolved().owner.display()
    };
    assert_eq!(unit_owner("a"), "prelude");
    assert_eq!(unit_owner("b"), "main");
    let ExprKind::GraphRef(target) = lower_expr(value(&whole, "c"), context).unwrap().kind else { panic!() };
    assert_eq!((target.value.owner.display().as_str(), target.value.name.as_str()), ("elsewhere", "inner"));
    let ExprKind::TypeSystemRef(found) = lower_expr(value(&whole, "d"), context).unwrap().kind else { panic!() };
    assert!(matches!(found.value, TypeSystemRef::Dimension(_)));
    assert_eq!(found.value.value_position_error(), "dimension `Speed` cannot be used as a value");
}

#[test]
fn private_names_stay_private_and_own_names_come_first() {
    let lib_id = DagId::root_in_package("test", "lib");
    let owner = main_id();
    let lib = file("node secret: Dimensionless = 1.0; pub node open: Dimensionless = 2.0;");
    let whole = file(
        "import lib as l; import lib.{open}; node open: Dimensionless = 3.0; \
         node a: Dimensionless = @l.secret; node b: Dimensionless = @l.open; node c: Dimensionless = @open;",
    );
    let mut resolver = ModuleResolver::default();
    resolver.add_module(lib_id.copy(), &lib.declarations).unwrap();
    resolver.add_module(owner.copy(), &whole.declarations).unwrap();
    for decl in &whole.declarations {
        if let ast::DeclKind::Import(import) = &decl.kind {
            resolver.register_import(&owner, &import.path, &import.kind, &lib_id).unwrap();
        }
    }
    let scope = GenericScope::new();
    let zones = TimeZoneRegistry::bundled();
    let context = ExprLoweringContext::new(&owner, &resolver, &scope, &zones);
    // A private member is not promoted: the access stays a field of `@l`, which is no declaration.
    assert!(matches!(
        lower_expr(value(&whole, "a"), context),
        Err(ExprLowerError::UnknownGraphRef { .. })
    ));
    let ExprKind::GraphRef(b) = lower_expr(value(&whole, "b"), context).unwrap().kind else { panic!() };
    assert_eq!(b.value.owner, lib_id);
    let ExprKind::GraphRef(c) = lower_expr(value(&whole, "c"), context).unwrap().kind else { panic!() };
    assert_eq!(c.value.owner, owner);
    assert!(matches!(
        resolver.add_module(lib_id.copy(), &lib.declarations),
        Err(ModuleResolveError::DuplicateModule { .. })
    ));
    let stranger = DagId::root_in_package("test", "stranger");
    let ast::DeclKind::Import(import) = &whole.declarations[0].kind else { panic!() };
    assert!(matches!(
        resolver.register_import(&owner, &import.path, &import.kind, &stranger),
        Err(ModuleResolveError::UnknownModule { .. })
    ));
}

#[test]
fn an_index_label_shared_by_two_indexes_is_ambiguous() {
    let (_, errors) = tolerant("index A = { X }; index B = { X }; node out: Dimensionless = X;");
    assert!(matches!(
        errors[0],
        ExprLowerError::ModuleResolve { source: ModuleResolveError::AmbiguousIndexVariant { .. }, .. }
    ));
}

#[test]
fn the_parts_of_an_assertion_are_resolved_on_their_own() {
    let owner = main_id();
    let whole = file("param p: Dimensionless; node out: Dimensionless = 1.0;");
    let mut resolver = ModuleResolver::default();
    resolver.add_module(owner.copy(), &whole.declarations).unwrap();
    let scope = GenericScope::new();
    let zones = TimeZoneRegistry::bundled();
    let context = ExprLoweringContext::new(&owner, &resolver, &scope, &zones);
    let part = |text: &str| Box::new(parser(text).parse_single_expr().unwrap().desugar());
    let body = ast::AssertBody::Tolerance { actual: part("@p"), expected: part("1.0"), tolerance: part("0.1") };
    assert!(matches!(lower_assert_body(&body, context), Ok(AssertBody::Tolerance { .. })));
    let body = ast::AssertBody::Tolerance { actual: part("@p"), expected: part("@gone"), tolerance: part("@lost") };
    assert!(matches!(
        lower_assert_body(&body, context),
        Err(ExprLowerError::UnknownGraphRef { name, .. }) if name.member.text == "gone"
    ));
}

#[test]
fn the_index_of_a_bare_label_in_a_pattern_is_inferred() {
    let (tree, errors) = tolerant(
        "index Axis = { X, Y }; index Other = { Z }; param p: Dimensionless; \
         node out: Dimensionless = match @p { X => 1.0, Other.Z => 2.0 };",
    );
    assert!(errors.is_empty(), "{errors:?}");
    let ExprKind::Match { arms, .. } = tree.kind else { panic!() };
    let MatchPattern::IndexLabel { variant, .. } = &arms[0].pattern else { panic!("{:?}", arms[0].pattern) };
    assert_eq!(variant.variant.index.name.as_str(), "Axis");
    assert_eq!(variant.variant.variant.as_str(), "X");
    assert_eq!(variant.index_span, None);
    assert_eq!(variant.path_span(), variant.variant_span);
    let MatchPattern::IndexLabel { variant, .. } = &arms[1].pattern else { panic!("{:?}", arms[1].pattern) };
    assert!(variant.index_span.is_some());
}

#[test]
fn a_bare_label_that_two_indexes_have_is_no_pattern() {
    let (_, errors) = tolerant(
        "index Axis = { X }; index Other = { X }; param p: Dimensionless; \
         node out: Dimensionless = match @p { X => 1.0 };",
    );
    assert!(matches!(&errors[..], [ExprLowerError::UnknownPattern { path, .. }] if path == "X"));
}

fn error_nodes(e: &Expr) -> usize {
    match &e.kind {
        ExprKind::Error { children } => 1 + children.iter().map(error_nodes).sum::<usize>(),
        ExprKind::BinOp { lhs, rhs, .. } => error_nodes(lhs) + error_nodes(rhs),
        ExprKind::FnCall { args, .. } => args.iter().map(error_nodes).sum(),
        _ => 0,
    }
}

#[test]
fn each_error_node_has_one_error() {
    for (source, expected) in [
        ("@p + 1.0", 0),
        ("@a + sqrt(@b) + @p", 2),
        ("mystery(@a, nothing + @p, @b)", 4),
    ] {
        let (tree, errors) = tolerant(&format!("param p: Dimensionless; node out: Dimensionless = {source};"));
        assert_eq!(errors.len(), expected);
        assert_eq!(error_nodes(&tree), expected);
    }
}

#[test]
fn the_error_of_a_failed_expression_comes_first() {
    let (tree, errors) = tolerant("param p: Dimensionless; node out: Dimensionless = mystery(@a);");
    assert!(matches!(tree.kind, ExprKind::Error { .. }));
    assert!(matches!(&errors[0], ExprLowerError::UnknownFunction { path, .. } if path == "mystery"));
    assert!(matches!(&errors[1], ExprLowerError::UnknownGraphRef { .. }));
    assert_eq!(errors.len(), 2);
}

#[test]
fn dependencies_are_listed_in_order() {
    let (tree, errors) = tolerant(
        "param b: Dimensionless; param a: Dimensionless; param ab: Dimensionless; \
         node out: Dimensionless = @b + @ab + @a + @b;",
    );
    assert!(errors.is_empty());
    let names: Vec<_> = collect_expr_dependencies(&tree)
        .graph_refs
        .iter()
        .map(|name| name.name.as_str().to_string())
        .collect();
    assert_eq!(names, ["a", "ab", "b"]);
}
