use powdr::analyzed::{
    AlgebraicBinaryOperation, AlgebraicBinaryOperator, AlgebraicExpression, AlgebraicReference,
    Analyzed, Identity, PolyID, PolynomialType, SourceRef, Symbol, SymbolKind,
};
use powdr::dead_column_checker::isolated_committed_columns;
use powdr::parsed::SelectedExpressions;

fn declared(name: &str, id: u64, ptype: PolynomialType) -> (String, Symbol) {
    (
        name.to_string(),
        Symbol {
            id,
            source: SourceRef { file_name: None, start: 0, end: 0 },
            absolute_name: name.to_string(),
            kind: SymbolKind::Poly(ptype),
            length: None,
        },
    )
}

fn column(name: &str, id: u64, ptype: PolynomialType) -> AlgebraicExpression<u64> {
    AlgebraicExpression::Reference(AlgebraicReference {
        name: name.to_string(),
        poly_id: PolyID { id, ptype },
        next: false,
    })
}

fn op(
    left: AlgebraicExpression<u64>,
    op: AlgebraicBinaryOperator,
    right: AlgebraicExpression<u64>,
) -> AlgebraicExpression<u64> {
    AlgebraicExpression::BinaryOperation(AlgebraicBinaryOperation {
        left: Box::new(left),
        op,
        right: Box::new(right),
    })
}

fn zero_identity(e: AlgebraicExpression<u64>) -> Identity<u64> {
    Identity {
        left: SelectedExpressions { selector: Some(e), expressions: vec![] },
        right: SelectedExpressions { selector: None, expressions: vec![] },
    }
}

fn file(definitions: Vec<(String, Symbol)>, identities: Vec<Identity<u64>>) -> Analyzed<u64> {
    Analyzed {
        definitions,
        auto_added_symbols: vec![],
        public_declarations: vec![],
        identities_with_inlined_intermediates: identities,
    }
}

#[test]
fn isolated_if_only_self_constrained() {
    // namespace N(16);
    // pol commit a;
    // (a - 1) * a = 0;
    let a = || column("N.a", 0, PolynomialType::Committed);
    let analyzed = file(
        vec![declared("N.a", 0, PolynomialType::Committed)],
        vec![zero_identity(op(
            op(a(), AlgebraicBinaryOperator::Sub, AlgebraicExpression::Number(1)),
            AlgebraicBinaryOperator::Mul,
            a(),
        ))],
    );
    let isolated = isolated_committed_columns(&analyzed);

    assert!(isolated.len() == 1, "expected 1 isolated column, got: {isolated:?}");
    assert!(isolated[0].name == "N.a", "expected N.a to be isolated, got: {isolated:?}");
}

#[test]
fn not_isolated_when_constrained_with_other_committed() {
    // pol commit a; pol commit b; a - b = 0;
    let analyzed = file(
        vec![
            declared("N.a", 0, PolynomialType::Committed),
            declared("N.b", 1, PolynomialType::Committed),
        ],
        vec![zero_identity(op(
            column("N.a", 0, PolynomialType::Committed),
            AlgebraicBinaryOperator::Sub,
            column("N.b", 1, PolynomialType::Committed),
        ))],
    );
    let isolated = isolated_committed_columns(&analyzed);

    assert!(isolated.len() == 0, "expected no isolated columns, got: {isolated:?}");
}

#[test]
fn not_isolated_when_constrained_with_fixed() {
    // pol constant c; pol commit a; a - c = 0;
    let analyzed = file(
        vec![
            declared("N.c", 0, PolynomialType::Constant),
            declared("N.a", 0, PolynomialType::Committed),
        ],
        vec![zero_identity(op(
            column("N.a", 0, PolynomialType::Committed),
            AlgebraicBinaryOperator::Sub,
            column("N.c", 0, PolynomialType::Constant),
        ))],
    );
    let isolated = isolated_committed_columns(&analyzed);

    assert!(isolated.len() == 0, "expected no isolated columns, got: {isolated:?}");
}

#[test]
fn isolated_if_only_used_in_unused_intermediate() {
    // pol commit a; pol X = a + 1; (X is used by no identity)
    let analyzed = file(
        vec![
            declared("N.a", 0, PolynomialType::Committed),
            declared("N.X", 0, PolynomialType::Intermediate),
        ],
        vec![],
    );
    let isolated = isolated_committed_columns(&analyzed);

    assert!(isolated.len() == 1, "expected 1 isolated column, got: {isolated:?}");
    assert!(isolated[0].name == "N.a", "expected N.a to be isolated, got: {isolated:?}");
}

#[test]
fn not_isolated_when_used_in_lookup_identity() {
    // pol commit sel; pol commit a; pol commit table;
    // sel { a } in table { table };
    let analyzed = file(
        vec![
            declared("N.sel", 0, PolynomialType::Committed),
            declared("N.a", 1, PolynomialType::Committed),
            declared("N.table", 2, PolynomialType::Committed),
        ],
        vec![Identity {
            left: SelectedExpressions {
                selector: Some(column("N.sel", 0, PolynomialType::Committed)),
                expressions: vec![column("N.a", 1, PolynomialType::Committed)],
            },
            right: SelectedExpressions {
                selector: Some(column("N.table", 2, PolynomialType::Committed)),
                expressions: vec![column("N.table", 2, PolynomialType::Committed)],
            },
        }],
    );
    let isolated = isolated_committed_columns(&analyzed);

    assert!(isolated.len() == 0, "expected no isolated columns, got: {isolated:?}");
}

#[test]
fn dead_columns_are_isolated_but_not_the_other_way_round() {
    // pol commit a; pol commit b; pol commit c; a * a = 0; (b, c unused)
    let analyzed = file(
        vec![
            declared("N.a", 0, PolynomialType::Committed),
            declared("N.b", 1, PolynomialType::Committed),
            declared("N.c", 2, PolynomialType::Committed),
        ],
        vec![zero_identity(op(
            column("N.a", 0, PolynomialType::Committed),
            AlgebraicBinaryOperator::Mul,
            column("N.a", 0, PolynomialType::Committed),
        ))],
    );
    let isolated: Vec<String> =
        isolated_committed_columns(&analyzed).into_iter().map(|c| c.name).collect();
    assert_eq!(isolated, vec!["N.a", "N.b", "N.c"]);
}
