use std::collections::BTreeSet;

use graphcal::desugar::desugared_ast as ast;
use graphcal::hir::context::{ExprLoweringContext, GenericScope};
use graphcal::hir::datetime::TimeZoneRegistry;
use graphcal::hir::error::ExprLowerError;
use graphcal::hir::local_env::LocalEnv;
use graphcal::hir::lower::{lower_expr, lower_expr_tolerant};
use graphcal::hir::resolve::{ModuleResolveError, ModuleResolver};
use graphcal::hir::tree::{
    ConstRef, DagId, Expr, ExprKind, FunctionRef, LocalId, MatchPattern, PatternBinding, TimeScale,
};
use graphcal::hir::visit::collect_expr_dependencies;
use graphcal::syntax::desugar::desugar_multi_decls_in_file;
use graphcal::syntax::parser::state::Parser;

/// A parser with the values of the decimal literals in the source.
fn parser(source: &str) -> Parser {
    let parser = Parser::new(source);
    let values = parser
        .decimal_literals()
        .into_iter()
        .map(|text| {
            text.and_then(|text| text.replace('_', "").parse::<f64>().ok())
                .filter(|value| value.is_finite())
                .map(f64::to_bits)
        })
        .collect();
    parser.with_float_values(values)
}

fn desugared_source(source: &str) -> ast::File {
    let raw = parser(source).parse_file().unwrap();
    desugar_multi_decls_in_file(raw)
}

#[test]
fn local_env_layers_frames_without_cloning() {
    let a = LocalId { id: 0 };
    let b = LocalId { id: 1 };
    let c = LocalId { id: 2 };

    let root: LocalEnv<'_, i32> = LocalEnv::root();
    assert_eq!(root.get(a), None);

    let outer = root.child(vec![(a, 1)]);
    assert_eq!(outer.get(a), Some(&1));
    assert_eq!(outer.get(b), None);

    let inner = outer.child(vec![(b, 2)]);
    assert_eq!(inner.get(a), Some(&1));
    assert_eq!(inner.get(b), Some(&2));

    // A child frame never leaks into its parent.
    assert_eq!(outer.get(b), None);

    let seeded = LocalEnv::from_bindings(vec![(c, 7)]);
    assert_eq!(seeded.get(c), Some(&7));
}

#[test]
fn local_env_bind_rebinds_in_place() {
    let a = LocalId { id: 0 };
    let b = LocalId { id: 1 };
    let root: LocalEnv<'_, i32> = LocalEnv::root();
    let mut frame = root.child(Vec::new());

    // Iterating binders rebind the same id once per element.
    for value in 0..3 {
        frame.bind(a, value);
        assert_eq!(frame.get(a), Some(&value));
    }
    frame.bind(b, 10);
    assert_eq!(frame.get(a), Some(&2));
    assert_eq!(frame.get(b), Some(&10));
}

fn node_value<'a>(file: &'a ast::File, name: &str) -> &'a ast::Expr {
    file.declarations
        .iter()
        .find_map(|decl| match &decl.kind {
            ast::DeclKind::Node(node) if node.name.value.as_str() == name => Some(&node.value),
            _ => None,
        })
        .expect("source should contain requested node")
}

fn resolver_with_import(
    lib_id: &DagId,
    main_id: &DagId,
    lib: &ast::File,
    main: &ast::File,
) -> ModuleResolver {
    let mut resolver = ModuleResolver::default();
    resolver
        .add_module(lib_id.copy(), &lib.declarations)
        .unwrap();
    resolver
        .add_module(main_id.copy(), &main.declarations)
        .unwrap();
    for decl in &main.declarations {
        let ast::DeclKind::Import(import) = &decl.kind else {
            continue;
        };
        resolver
            .register_import(main_id, &import.path, &import.kind, lib_id)
            .unwrap();
    }
    resolver
}

#[test]
fn lowers_qualified_index_variant_literal_to_canonical_owner() {
    let lib_id = DagId::root_in_package("test", "lib");
    let main_id = DagId::root_in_package("test", "main");
    let lib = desugared_source("pub index Phase = { Burn, Coast };");
    let main_source = "import lib as mission; node phase: Dimensionless = mission.Phase.Burn;";
    let main = desugared_source(main_source);
    let resolver = resolver_with_import(&lib_id, &main_id, &lib, &main);
    let scope = GenericScope::new();

    let expr = lower_expr(
        node_value(&main, "phase"),
        ExprLoweringContext::new(&main_id, &resolver, &scope, &TimeZoneRegistry::bundled()),
    )
    .unwrap();

    let ExprKind::VariantLiteral(variant) = expr.kind else {
        panic!("expected variant literal, got {expr:?}");
    };
    assert_eq!(variant.variant.index.owner, lib_id);
    assert_eq!(variant.variant.index.name.as_str(), "Phase");
    assert_eq!(variant.variant.variant.as_str(), "Burn");
    // Segment spans address exactly the written path parts.
    let slice = |span: graphcal::syntax::span::Span| {
        &main_source[span.offset()..span.offset() + span.len()]
    };
    assert_eq!(slice(variant.variant_span), "Burn");
    assert_eq!(
        slice(variant.index_span.expect("written index path")),
        "mission.Phase"
    );
}

#[test]
fn lowers_qualified_quantity_literal_to_canonical_owner() {
    let lib_id = DagId::root_in_package("test", "lib");
    let main_id = DagId::root_in_package("test", "main");
    let lib = desugared_source("pub base dim Currency; pub base unit credit: Currency;");
    let main = desugared_source(
        "import lib as schema; node amount: Dimensionless = 1.0 schema.credit;",
    );
    let resolver = resolver_with_import(&lib_id, &main_id, &lib, &main);
    let scope = GenericScope::new();

    let expr = lower_expr(
        node_value(&main, "amount"),
        ExprLoweringContext::new(&main_id, &resolver, &scope, &TimeZoneRegistry::bundled()),
    )
    .unwrap();

    let ExprKind::QuantityLiteral { unit, .. } = expr.kind else {
        panic!("expected quantity literal, got {expr:?}");
    };
    let [term] = unit.terms.as_slice() else {
        panic!("expected one unit term, got {:?}", unit.terms);
    };
    assert_eq!(term.name.value.spelling().display_path(), "schema.credit");
    assert_eq!(term.name.value.resolved().owner, lib_id);
    assert_eq!(term.name.value.resolved().name.as_str(), "credit");
}

#[test]
fn lowers_qualified_nullary_constructor_const_ref_to_canonical_owner() {
    let lib_id = DagId::root_in_package("test", "lib");
    let main_id = DagId::root_in_package("test", "main");
    let lib = desugared_source("pub type BurnKind { Impulsive, Coast }");
    let main = desugared_source(
        "import lib as mission; node burn: Dimensionless = mission.Impulsive;",
    );
    let resolver = resolver_with_import(&lib_id, &main_id, &lib, &main);
    let scope = GenericScope::new();

    let expr = lower_expr(
        node_value(&main, "burn"),
        ExprLoweringContext::new(&main_id, &resolver, &scope, &TimeZoneRegistry::bundled()),
    )
    .unwrap();

    let ExprKind::ConstRef(target) = expr.kind else {
        panic!("expected const-like ref, got {expr:?}");
    };
    let ConstRef::Constructor(constructor) = target.value else {
        panic!("expected constructor, got {target:?}");
    };
    assert_eq!(constructor.owner, lib_id);
    assert_eq!(constructor.name.as_str(), "Impulsive");
}

#[test]
fn lowers_unambiguous_timezone_datetime_to_resolved_hir() {
    let owner = DagId::root_in_package("test", "main");
    let file = desugared_source(
        "node t: Datetime = datetime(\"2024-07-15T17:30:00\", \"America/New_York\");",
    );
    let mut resolver = ModuleResolver::default();
    resolver
        .add_module(owner.copy(), &file.declarations)
        .unwrap();
    let scope = GenericScope::new();

    let expr = lower_expr(
        node_value(&file, "t"),
        ExprLoweringContext::new(&owner, &resolver, &scope, &TimeZoneRegistry::bundled()),
    )
    .unwrap();

    let ExprKind::FnCall { args, .. } = expr.kind else {
        panic!("expected function call, got {expr:?}");
    };
    let [
        Expr {
            kind: ExprKind::ZonedDateTimeLiteral(datetime),
            ..
        },
        Expr {
            kind: ExprKind::IanaTimeZoneLiteral(time_zone),
            ..
        },
    ] = args.as_slice()
    else {
        panic!("expected resolved datetime and timezone arguments, got {args:?}");
    };
    assert_eq!(&datetime.time_zone, time_zone);
    assert_eq!(
        jiff::Timestamp::new(datetime.second, datetime.nanosecond).unwrap(),
        "2024-07-15T21:30:00Z".parse::<jiff::Timestamp>().unwrap()
    );
}

#[test]
fn lowers_epoch_static_scale_and_civil_literal_to_typed_hir() {
    let owner = DagId::root_in_package("test", "main");
    let file = desugared_source("node t: Datetime<TT> = epoch<TT>(\"2024-11-05T12:00:00\");");
    let mut resolver = ModuleResolver::default();
    resolver
        .add_module(owner.copy(), &file.declarations)
        .unwrap();
    let scope = GenericScope::new();

    let expr = lower_expr(
        node_value(&file, "t"),
        ExprLoweringContext::new(&owner, &resolver, &scope, &TimeZoneRegistry::bundled()),
    )
    .unwrap();

    let ExprKind::FnCall { callee, args } = expr.kind else {
        panic!("expected function call, got {expr:?}");
    };
    let FunctionRef::Epoch { scale } = callee.value else {
        panic!("expected typed epoch reference, got {callee:?}");
    };
    assert_eq!(scale.value, TimeScale::TT);
    assert!(matches!(
        args.as_slice(),
        [Expr {
            kind: ExprKind::CivilDateTimeLiteral(_),
            ..
        }]
    ));
}

#[test]
fn lowers_for_locals_to_lexical_ids() {
    let owner = DagId::root_in_package("test", "main");
    let file = desugared_source(
        "index Phase = { Burn }; node x: Dimensionless[Phase] = for p: Phase { p };",
    );
    let mut resolver = ModuleResolver::default();
    resolver
        .add_module(owner.copy(), &file.declarations)
        .unwrap();
    let scope = GenericScope::new();

    let expr = lower_expr(
        node_value(&file, "x"),
        ExprLoweringContext::new(&owner, &resolver, &scope, &TimeZoneRegistry::bundled()),
    )
    .unwrap();

    let ExprKind::ForComp { bindings, body } = expr.kind else {
        panic!("expected for comp, got {expr:?}");
    };
    let [binding] = bindings.as_slice() else {
        panic!("expected one binding, got {bindings:?}");
    };
    let ExprKind::LocalRef(local) = body.kind else {
        panic!("expected local ref, got {body:?}");
    };
    assert_eq!(binding.local.id, local.value);
}

#[test]
fn lowers_qualified_constructor_match_pattern_and_binding() {
    let lib_id = DagId::root_in_package("test", "lib");
    let main_id = DagId::root_in_package("test", "main");
    let lib =
        desugared_source("pub type BurnKind { Impulsive(delta_v: Dimensionless), Coast }");
    let main = desugared_source(
        "import lib as mission; param burn: Dimensionless; \
             node dv: Dimensionless = match @burn { mission.Impulsive(delta_v: dv) => dv, mission.Coast => 0.0 };",
    );
    let resolver = resolver_with_import(&lib_id, &main_id, &lib, &main);
    let scope = GenericScope::new();

    let expr = lower_expr(
        node_value(&main, "dv"),
        ExprLoweringContext::new(&main_id, &resolver, &scope, &TimeZoneRegistry::bundled()),
    )
    .unwrap();

    let ExprKind::Match { arms, .. } = expr.kind else {
        panic!("expected match, got {expr:?}");
    };
    let [first, _second] = arms.as_slice() else {
        panic!("expected two arms, got {arms:?}");
    };
    let MatchPattern::Constructor {
        constructor,
        bindings,
        ..
    } = &first.pattern
    else {
        panic!("expected constructor pattern, got {:?}", first.pattern);
    };
    assert_eq!(constructor.value.owner, lib_id);
    assert_eq!(constructor.value.name.as_str(), "Impulsive");
    let [PatternBinding::Bind { local, .. }] = bindings.as_slice() else {
        panic!("expected one field binding, got {bindings:?}");
    };
    let ExprKind::LocalRef(body_ref) = &first.body.kind else {
        panic!("expected local ref body, got {:?}", first.body);
    };
    assert_eq!(local.id, body_ref.value);
}

#[test]
fn collects_canonical_decl_dependencies_from_hir_expr() {
    let lib_id = DagId::root_in_package("test", "lib");
    let main_id = DagId::root_in_package("test", "main");
    let lib =
        desugared_source("pub const node C: Dimensionless = 1.0; param p: Dimensionless;");
    let main = desugared_source(
        "import lib as mission; import lib.{p}; node x: Dimensionless = @p + mission.C;",
    );
    let resolver = resolver_with_import(&lib_id, &main_id, &lib, &main);
    let scope = GenericScope::new();

    let expr = lower_expr(
        node_value(&main, "x"),
        ExprLoweringContext::new(&main_id, &resolver, &scope, &TimeZoneRegistry::bundled()),
    )
    .unwrap();
    let deps = collect_expr_dependencies(&expr);

    let graph_refs = deps.graph_refs.into_iter().collect::<Vec<_>>();
    let const_refs = deps.const_refs.into_iter().collect::<Vec<_>>();
    let [graph_ref] = graph_refs.as_slice() else {
        panic!("expected one graph dep, got {graph_refs:?}");
    };
    let [const_ref] = const_refs.as_slice() else {
        panic!("expected one const dep, got {const_refs:?}");
    };
    assert_eq!(graph_ref.owner, lib_id);
    assert_eq!(graph_ref.name.as_str(), "p");
    assert_eq!(const_ref.owner, lib_id);
    assert_eq!(const_ref.name.as_str(), "C");
}

fn lower_tolerant_node(source: &str, name: &str) -> (Expr, Vec<ExprLowerError>) {
    let owner = DagId::root_in_package("test", "main");
    let file = desugared_source(source);
    let mut resolver = ModuleResolver::default();
    resolver
        .add_module(owner.copy(), &file.declarations)
        .unwrap();
    let scope = GenericScope::new();
    lower_expr_tolerant(
        node_value(&file, name),
        ExprLoweringContext::new(&owner, &resolver, &scope, &TimeZoneRegistry::bundled()),
    )
}

fn graph_dependency_names(expr: &Expr) -> BTreeSet<String> {
    collect_expr_dependencies(expr)
        .graph_refs
        .into_iter()
        .map(|name| name.name.as_str().to_string())
        .collect()
}

#[test]
fn failed_parent_nodes_retain_every_independent_expression_child() {
    let cases = [
        (
            "param a: Dimensionless; param b: Dimensionless; \
                 node out: Dimensionless = mystery(@a, @b);",
            2,
            BTreeSet::from(["a".to_string(), "b".to_string()]),
        ),
        (
            "param a: Dimensionless; param b: Dimensionless; \
                 node out: Dimensionless = Missing(first: @a, second: @b);",
            2,
            BTreeSet::from(["a".to_string(), "b".to_string()]),
        ),
        (
            "index Axis = { Good }; param a: Dimensionless; param b: Dimensionless; \
                 node out: Dimensionless[Axis] = \
                     { Axis.Missing: @a, Axis.Good: @b };",
            2,
            BTreeSet::from(["a".to_string(), "b".to_string()]),
        ),
        (
            "type State { Good } param state: State; \
                 param a: Dimensionless; param b: Dimensionless; \
                 node out: Dimensionless = match @state { \
                     Missing => @a, Good => @b \
                 };",
            3,
            BTreeSet::from(["state".to_string(), "a".to_string(), "b".to_string()]),
        ),
        (
            "param a: Dimensionless; param b: Dimensionless; \
                 node out: Dimensionless = @missing(first: @a, second: @b).result;",
            2,
            BTreeSet::from(["a".to_string(), "b".to_string()]),
        ),
    ];

    for (source, expected_children, expected_dependencies) in cases {
        let (expr, diagnostics) = lower_tolerant_node(source, "out");
        let ExprKind::Error { children } = &expr.kind else {
            panic!("expected failed parent node, got {expr:?}");
        };
        assert_eq!(children.len(), expected_children, "source: {source}");
        assert!(!diagnostics.is_empty(), "source: {source}");
        assert_eq!(
            graph_dependency_names(&expr),
            expected_dependencies,
            "source: {source}"
        );
    }
}

#[test]
fn failed_parent_accumulates_nested_diagnostics_without_duplicates() {
    let (expr, diagnostics) =
        lower_tolerant_node("node out: Dimensionless = mystery(also_missing);", "out");

    assert!(matches!(expr.kind, ExprKind::Error { .. }));
    assert_eq!(diagnostics.len(), 2, "diagnostics: {diagnostics:?}");
    assert!(matches!(
        diagnostics[0],
        ExprLowerError::UnknownFunction { .. }
    ));
    assert!(matches!(
        diagnostics[1],
        ExprLowerError::ModuleResolve {
            source: ModuleResolveError::UnknownName { .. },
            ..
        }
    ));
}

#[test]
fn failed_binder_does_not_fabricate_lexical_locals_for_retained_body() {
    let (expr, diagnostics) = lower_tolerant_node(
        "param known: Dimensionless; \
             node out: Dimensionless = for item: Missing { item + @known };",
        "out",
    );

    assert!(matches!(expr.kind, ExprKind::Error { .. }));
    assert!(diagnostics.iter().any(|error| matches!(
        error,
        ExprLowerError::ModuleResolve {
            source: ModuleResolveError::UnknownName { name, .. },
            ..
        } if name == "item"
    )));
    assert_eq!(
        graph_dependency_names(&expr),
        BTreeSet::from(["known".to_string()])
    );
}

#[test]
fn const_ref_to_runtime_decl_is_rejected_by_decl_kind() {
    let owner = DagId::root_in_package("test", "main");
    let file = desugared_source("param p: Dimensionless; node x: Dimensionless = p;");
    let mut resolver = ModuleResolver::default();
    resolver
        .add_module(owner.copy(), &file.declarations)
        .unwrap();
    let scope = GenericScope::new();

    let err = lower_expr(
        node_value(&file, "x"),
        ExprLoweringContext::new(&owner, &resolver, &scope, &TimeZoneRegistry::bundled()),
    )
    .unwrap_err();

    assert!(
        err.message()
            .contains("expected const declaration `main.p`, found param"),
        "unexpected error: {err:?}"
    );
}
