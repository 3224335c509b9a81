use powdr::analyzed::{
    AlgebraicBinaryOperation, AlgebraicBinaryOperator, AlgebraicExpression, AlgebraicReference,
    Analyzed, Identity, PolyID, PolynomialReference, PolynomialType, PublicDeclaration, SourceRef,
    Symbol, SymbolKind,
};
use powdr::dead_column_checker::{check_no_dead_committed_columns, dead_committed_columns};
use powdr::parsed::SelectedExpressions;

fn source(start: usize, end: usize) -> SourceRef {
    SourceRef { file_name: None, start, end }
}

fn symbol(name: &str, id: u64, ptype: PolynomialType, length: Option<u64>) -> (String, Symbol) {
    (
        name.to_string(),
        Symbol {
            id,
            source: source(0, 0),
            absolute_name: name.to_string(),
            kind: SymbolKind::Poly(ptype),
            length,
        },
    )
}

fn committed(name: &str, id: u64) -> (String, Symbol) {
    symbol(name, id, PolynomialType::Committed, None)
}

fn poly(id: u64, ptype: PolynomialType) -> PolyID {
    PolyID { id, ptype }
}

fn reference(name: &str, id: u64) -> AlgebraicExpression<u64> {
    AlgebraicExpression::Reference(AlgebraicReference {
        name: name.to_string(),
        poly_id: poly(id, PolynomialType::Committed),
        next: false,
    })
}

fn binary(
    left: AlgebraicExpression<u64>,
    op: AlgebraicBinaryOperator,
    right: AlgebraicExpression<u64>,
) -> AlgebraicExpression<u64> {
    AlgebraicExpression::BinaryOperation(AlgebraicBinaryOperation {
        left: Box::new(left),
        op,
        right: Box::new(right),
    })
}

/// A polynomial identity `e = 0`.
fn polynomial_identity(e: AlgebraicExpression<u64>) -> Identity<u64> {
    Identity {
        left: SelectedExpressions { selector: Some(e), expressions: vec![] },
        right: SelectedExpressions { selector: None, expressions: vec![] },
    }
}

fn analyzed(
    definitions: Vec<(String, Symbol)>,
    identities: Vec<Identity<u64>>,
) -> Analyzed<u64> {
    Analyzed {
        definitions,
        auto_added_symbols: vec![],
        public_declarations: vec![],
        identities_with_inlined_intermediates: identities,
    }
}

#[test]
fn dead_committed_columns_basic() {
    // namespace N(16);
    // pol commit a;
    // pol commit b;
    // a = 1;
    let analyzed = analyzed(
        vec![committed("N.a", 0), committed("N.b", 1)],
        vec![polynomial_identity(binary(
            reference("N.a", 0),
            AlgebraicBinaryOperator::Sub,
            AlgebraicExpression::Number(1),
        ))],
    );
    let dead = dead_committed_columns(&analyzed);

    assert!(dead.len() == 1, "expected 1 dead column, got: {dead:?}");
    assert!(dead[0].name == "N.b", "expected N.b to be dead, got: {dead:?}");
}

#[test]
fn dead_commited_test_1() {
    // pol commit secret_value;
    let analyzed = analyzed(vec![committed("secret_value", 0)], vec![]);
    let dead = dead_committed_columns(&analyzed);

    assert!(dead.len() == 1, "expected 1 dead column, got: {dead:?}");
    assert!(dead[0].name == "secret_value", "expected secret_value to be dead, got: {dead:?}");
}

#[test]
fn dead_commited_test_2() {
    // pol commit secret_value;
    // pol commit other_value;
    let analyzed = analyzed(
        vec![committed("secret_value", 0), committed("other_value", 1)],
        vec![],
    );
    let dead = dead_committed_columns(&analyzed);
    assert!(dead.len() == 2, "expected 1 dead column, got: {dead:?}");
    assert!(dead[0].name == "secret_value", "expected secret_value to be dead, got: {dead:?}");
    assert!(dead[1].name == "other_value", "expected other_value to be dead, got: {dead:?}");
}

#[test]
fn used_in_itermidiate_then_constrained() {
    // pol commit sel;
    // pol commit expected;
    // pol commit raw_value;
    // pol PROCESSED = raw_value * raw_value;
    // sel * (PROCESSED - expected) = 0;  // raw_value is constrained through PROCESSED
    let processed = binary(
        reference("raw_value", 2),
        AlgebraicBinaryOperator::Mul,
        reference("raw_value", 2),
    );
    let analyzed = analyzed(
        vec![
            committed("sel", 0),
            committed("expected", 1),
            committed("raw_value", 2),
            symbol("PROCESSED", 0, PolynomialType::Intermediate, None),
        ],
        vec![polynomial_identity(binary(
            reference("sel", 0),
            AlgebraicBinaryOperator::Mul,
            binary(processed, AlgebraicBinaryOperator::Sub, reference("expected", 1)),
        ))],
    );
    let dead = dead_committed_columns(&analyzed);

    assert!(dead.len() == 0, "expected no dead columns, got: {dead:?}");
}

#[test]
fn used_in_intermediate_then_not_constrained() {
    // pol commit raw_value;
    // pol PROCESSED = raw_value * raw_value;
    let analyzed = analyzed(
        vec![
            committed("raw_value", 0),
            symbol("PROCESSED", 0, PolynomialType::Intermediate, None),
        ],
        vec![],
    );
    let dead = dead_committed_columns(&analyzed);

    assert!(dead.len() == 1, "expected 1 dead column, got: {dead:?}");
    assert!(dead[0].name == "raw_value", "expected raw_value to be dead, got: {dead:?}");
}

#[test]
fn used_as_lookup_key_or_destination_is_not_dead() {
    // namespace N(16);
    // pol commit sel;
    // pol commit query_value;
    // pol commit precomputed_value;
    // sel { query_value } in precomputed_value { precomputed_value };
    let analyzed = analyzed(
        vec![
            committed("N.sel", 0),
            committed("N.query_value", 1),
            committed("N.precomputed_value", 2),
        ],
        vec![Identity {
            left: SelectedExpressions {
                selector: Some(reference("N.sel", 0)),
                expressions: vec![reference("N.query_value", 1)],
            },
            right: SelectedExpressions {
                selector: Some(reference("N.precomputed_value", 2)),
                expressions: vec![reference("N.precomputed_value", 2)],
            },
        }],
    );
    let dead = dead_committed_columns(&analyzed);

    assert!(
        dead.len() == 0,
        "expected no dead columns, got: {dead:?}"
    );
}

#[test]
fn array_elements_are_reported_one_by_one() {
    // pol commit x[3]; only x[1] is constrained.
    let analyzed = analyzed(
        vec![symbol("N.x", 4, PolynomialType::Committed, Some(3))],
        vec![polynomial_identity(reference("N.x[1]", 5))],
    );
    let dead = dead_committed_columns(&analyzed);
    let names: Vec<&str> = dead.iter().map(|d| d.name.as_str()).collect();
    assert_eq!(names, vec!["N.x[0]", "N.x[2]"]);
}

#[test]
fn public_declaration_counts_as_use() {
    let mut analyzed = analyzed(vec![committed("N.a", 0), committed("N.b", 1)], vec![]);
    analyzed.public_declarations.push(PublicDeclaration {
        name: "out".to_string(),
        polynomial: PolynomialReference {
            name: "N.a".to_string(),
            poly_id: Some(poly(0, PolynomialType::Committed)),
        },
    });
    // Before condensation the id is not filled in: no use.
    analyzed.public_declarations.push(PublicDeclaration {
        name: "out2".to_string(),
        polynomial: PolynomialReference { name: "N.b".to_string(), poly_id: None },
    });
    let dead = dead_committed_columns(&analyzed);
    assert_eq!(dead.len(), 1);
    assert_eq!(dead[0].name, "N.b");
}

#[test]
fn auto_added_and_other_symbols_are_skipped() {
    let mut analyzed = analyzed(
        vec![
            committed("N.a", 0),
            symbol("N.c", 0, PolynomialType::Constant, None),
            (
                "N.k".to_string(),
                Symbol {
                    id: 0,
                    source: source(0, 0),
                    absolute_name: "N.k".to_string(),
                    kind: SymbolKind::Constant,
                    length: None,
                },
            ),
        ],
        vec![],
    );
    analyzed.auto_added_symbols.push("N.a".to_string());
    assert!(dead_committed_columns(&analyzed).is_empty());
}

#[test]
fn a_reference_of_another_type_is_no_use() {
    // A constant column with the same number does not use the committed one.
    let analyzed = analyzed(
        vec![committed("N.a", 0)],
        vec![polynomial_identity(AlgebraicExpression::Reference(AlgebraicReference {
            name: "N.c".to_string(),
            poly_id: poly(0, PolynomialType::Constant),
            next: false,
        }))],
    );
    assert_eq!(dead_committed_columns(&analyzed).len(), 1);
}

#[test]
fn check_reports_each_dead_column_with_its_source() {
    let mut analyzed = analyzed(vec![committed("N.a", 0), committed("N.b", 1)], vec![]);
    analyzed.definitions[0].1.source =
        SourceRef { file_name: Some("main.pil".to_string()), start: 12, end: 30 };
    analyzed.definitions[1].1.source = source(31, 47);
    let message = check_no_dead_committed_columns(&analyzed).unwrap_err();
    assert_eq!(
        message,
        "Dead committed columns detected (declared but never referenced by any constraint/lookup/permutation/public declaration):\n\
         - N.a (main.pil:12..30)\n\
         - N.b (<unknown>:31..47)"
    );
}

#[test]
fn check_passes_when_every_column_is_used() {
    let analyzed = analyzed(
        vec![committed("N.a", 0)],
        vec![polynomial_identity(reference("N.a", 0))],
    );
    assert_eq!(check_no_dead_committed_columns(&analyzed), Ok(()));
}

#[test]
fn dead_names_are_distinct_across_arrays_and_plain_columns() {
    // pol commit x[2]; pol commit y; pol commit z[11]; nothing is used.
    let analyzed = analyzed(
        vec![
            symbol("N.x", 0, PolynomialType::Committed, Some(2)),
            committed("N.y", 2),
            symbol("N.z", 3, PolynomialType::Committed, Some(11)),
        ],
        vec![],
    );
    let names: Vec<String> = dead_committed_columns(&analyzed).into_iter().map(|d| d.name).collect();
    assert_eq!(names.len(), 14);
    let mut sorted = names.clone();
    sorted.sort();
    sorted.dedup();
    assert_eq!(sorted.len(), names.len());
    assert_eq!(names[0], "N.x[0]");
    assert_eq!(names[2], "N.y");
    assert_eq!(names[13], "N.z[10]");
}

#[test]
fn adding_an_identity_leaves_fewer_dead_columns() {
    let defs = || vec![committed("N.a", 0), committed("N.b", 1), committed("N.c", 2)];
    let before = analyzed(defs(), vec![polynomial_identity(reference("N.a", 0))]);
    let after = analyzed(
        defs(),
        vec![
            polynomial_identity(reference("N.a", 0)),
            polynomial_identity(reference("N.c", 2)),
        ],
    );
    let names = |a: &Analyzed<u64>| -> Vec<String> {
        dead_committed_columns(a).into_iter().map(|d| d.name).collect()
    };
    assert_eq!(names(&before), vec!["N.b", "N.c"]);
    assert_eq!(names(&after), vec!["N.b"]);
}
