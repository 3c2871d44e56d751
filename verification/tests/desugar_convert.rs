use graphcal::desugar::desugared_ast as desugared;
use graphcal::syntax::ast::{BinOp, Expr, ExprKind};
use graphcal::syntax::span::Span;

const LONG_CHAIN_TERM_COUNT: usize = 512;

fn term_span(index: usize) -> Span {
    Span::new(index * 4, 1)
}

fn chain_span(last_term_index: usize) -> Span {
    Span::new(0, last_term_index * 4 + 1)
}

#[test]
fn long_expression_conversion_moves_payloads_once_and_preserves_spans() {
    let terms_with_allocations = (0..LONG_CHAIN_TERM_COUNT).map(|index| {
        let value = format!("term-{index:04}-payload");
        let allocation = value.as_ptr() as usize;
        (
            Expr::new(ExprKind::StringLiteral(value), term_span(index)),
            allocation,
        )
    });
    let (terms, original_allocations): (Vec<Expr>, Vec<usize>) = terms_with_allocations.unzip();

    let mut terms = terms.into_iter();
    let first = terms.next().expect("long chain has a first term");
    let raw = terms.enumerate().fold(first, |lhs, (offset, rhs)| {
        let term_index = offset + 1;
        Expr::new(
            ExprKind::BinOp {
                op: BinOp::Add,
                lhs: Box::new(lhs),
                rhs: Box::new(rhs),
            },
            chain_span(term_index),
        )
    });

    let desugared: desugared::Expr = raw.desugar();

    let mut current = &desugared;
    for term_index in (1..LONG_CHAIN_TERM_COUNT).rev() {
        assert_eq!(current.span, chain_span(term_index));
        let desugared::ExprKind::BinOp {
            op: BinOp::Add,
            lhs,
            rhs,
        } = &current.kind
        else {
            panic!("expected left-nested addition at term {term_index}");
        };
        assert_eq!(rhs.span, term_span(term_index));
        let desugared::ExprKind::StringLiteral(value) = &rhs.kind else {
            panic!("expected string term {term_index}");
        };
        assert_eq!(
            value.as_ptr() as usize,
            original_allocations[term_index],
            "term {term_index} payload was cloned"
        );
        current = lhs;
    }

    assert_eq!(current.span, term_span(0));
    let desugared::ExprKind::StringLiteral(value) = &current.kind else {
        panic!("expected first string term");
    };
    assert_eq!(
        value.as_ptr() as usize,
        original_allocations[0],
        "first term payload was cloned"
    );
}
