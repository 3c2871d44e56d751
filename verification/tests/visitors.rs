use graphcal::syntax::ast::{Expr, ExprKind};
use graphcal::syntax::parser::state::Parser;
use graphcal::syntax::visitor::{visit_expr, ExprVisitor};
use graphcal::syntax::visitor_mut::{visit_expr_mut, ExprVisitorMut};

fn expression(source: &str) -> Expr {
    Parser::new(source).parse_single_expr().unwrap()
}

/// Collects the names of graph references, and may leave out conditionals.
struct GraphRefs {
    names: Vec<String>,
    seen: usize,
    depth: usize,
    deepest: usize,
    skip_conditionals: bool,
    refused: Option<&'static str>,
}

impl GraphRefs {
    fn new() -> Self {
        Self { names: Vec::new(), seen: 0, depth: 0, deepest: 0, skip_conditionals: false, refused: None }
    }
}

impl ExprVisitor for GraphRefs {
    type Error = String;

    fn visit(&mut self, expr: &Expr) -> Result<bool, String> {
        self.seen += 1;
        self.depth += 1;
        self.deepest = self.deepest.max(self.depth);
        if let ExprKind::GraphRef(name) = &expr.kind {
            if self.refused == Some(name.value.member.as_str()) {
                return Err(name.value.member.text.clone());
            }
            self.names.push(name.value.member.text.clone());
        }
        Ok(!(self.skip_conditionals && matches!(expr.kind, ExprKind::If { .. })))
    }

    fn leave(&mut self, _expr: &Expr) {
        self.depth -= 1;
    }
}

#[test]
fn expressions_are_visited_from_left_to_right_before_their_parts() {
    let expr = expression("if @a > 0 { f(@b, { Axis.X: @c }) } else { @d[@e + 1] }");
    let mut visitor = GraphRefs::new();
    visit_expr(&mut visitor, &expr).unwrap();
    assert_eq!(visitor.names, ["a", "b", "c", "d", "e"]);
    // if, >, @a, 0, f(..), @b, {..}, @c, @d[..], @d, +, @e, 1
    assert_eq!(visitor.seen, 13);
}

#[test]
fn the_parts_of_a_skipped_expression_are_left_out() {
    let expr = expression("@x + (if @a { @b } else { @c }) + @y");
    let mut visitor = GraphRefs::new();
    visitor.skip_conditionals = true;
    visit_expr(&mut visitor, &expr).unwrap();
    assert_eq!(visitor.names, ["x", "y"]);
}

#[test]
fn a_refused_expression_ends_the_visit() {
    let expr = expression("@a + @b + @c");
    let mut visitor = GraphRefs::new();
    visitor.refused = Some("b");
    assert_eq!(visit_expr(&mut visitor, &expr), Err("b".to_string()));
    assert_eq!(visitor.names, ["a"]);
}

#[test]
fn scans_matches_and_keys_are_visited() {
    let expr = expression("match scan(@s, @i, |a, v| @b) { Good => @g, Bad => @h }");
    let mut visitor = GraphRefs::new();
    visit_expr(&mut visitor, &expr).unwrap();
    assert_eq!(visitor.names, ["s", "i", "b", "g", "h"]);
}

/// Puts a prefix before the names of graph references.
struct Prefix {
    prefix: &'static str,
}

impl ExprVisitorMut for Prefix {
    type Error = String;

    fn rewrite(&mut self, expr: &mut Expr) -> Result<(), String> {
        match &mut expr.kind {
            ExprKind::GraphRef(name) => {
                name.value.member.text = format!("{}{}", self.prefix, name.value.member.text);
                Ok(())
            }
            ExprKind::UnresolvedRef(_) => Err("no names".to_string()),
            _ => Ok(()),
        }
    }

    fn enter(&mut self, expr: &Expr) -> Result<bool, String> {
        match &expr.kind {
            ExprKind::Bool(_) => Err("no truth".to_string()),
            ExprKind::If { .. } => Ok(false),
            _ => Ok(true),
        }
    }

    fn leave(&mut self, expr: &mut Expr) {
        if let ExprKind::ForComp { bindings, .. } = &mut expr.kind {
            for binding in bindings {
                let var = &mut binding.var.value.atom.text;
                *var = format!("{}{}", self.prefix, var);
            }
        }
    }
}

#[test]
fn references_are_rewritten_in_place() {
    let mut expr = expression("-@a * f(@b)[@c + 1]");
    visit_expr_mut(&mut Prefix { prefix: "p_" }, &mut expr).unwrap();
    let mut visitor = GraphRefs::new();
    visit_expr(&mut visitor, &expr).unwrap();
    assert_eq!(visitor.names, ["p_a", "p_b", "p_c"]);
}

#[test]
fn a_refused_rewrite_is_reported() {
    let mut expr = expression("@a + name");
    assert_eq!(
        visit_expr_mut(&mut Prefix { prefix: "p_" }, &mut expr),
        Err("no names".to_string())
    );
    // What comes before is rewritten already.
    let ExprKind::BinOp { lhs, .. } = expr.kind else { panic!() };
    let ExprKind::GraphRef(name) = lhs.kind else { panic!() };
    assert_eq!(name.value.member.text, "p_a");
}

#[test]
fn an_expression_is_left_after_its_parts() {
    let expr = expression("-(@a + @b) * @c");
    let mut visitor = GraphRefs::new();
    visit_expr(&mut visitor, &expr).unwrap();
    // *, -, +, @a
    assert_eq!(visitor.deepest, 4);
    assert_eq!(visitor.depth, 0);
}

#[test]
fn the_names_that_an_expression_binds_can_be_rewritten_too() {
    let mut expr = expression("for i: Axis { @a }");
    visit_expr_mut(&mut Prefix { prefix: "p_" }, &mut expr).unwrap();
    let ExprKind::ForComp { bindings, body } = expr.kind else { panic!() };
    assert_eq!(bindings[0].var.value.as_str(), "p_i");
    let ExprKind::GraphRef(name) = body.kind else { panic!() };
    assert_eq!(name.value.member.text, "p_a");
}

#[test]
fn the_parts_of_an_expression_can_be_left_as_they_are() {
    let mut expr = expression("@x + (if @a { @b } else { @c }) + @y");
    visit_expr_mut(&mut Prefix { prefix: "p_" }, &mut expr).unwrap();
    let mut visitor = GraphRefs::new();
    visit_expr(&mut visitor, &expr).unwrap();
    assert_eq!(visitor.names, ["p_x", "a", "b", "c", "p_y"]);
}

#[test]
fn an_expression_can_be_refused_before_its_parts() {
    let mut expr = expression("@a == true");
    assert_eq!(
        visit_expr_mut(&mut Prefix { prefix: "p_" }, &mut expr),
        Err("no truth".to_string())
    );
}
