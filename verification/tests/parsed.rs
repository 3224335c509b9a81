use powdr::parsed::{
    ArrayExpression, BinaryOperator, Expression, FunctionCall, FunctionDefinition,
    IndexedPolynomialReference, PilStatement, PolynomialName,
    LambdaExpression, MatchArm, MatchPattern, NamespacedPolynomialReference, PolynomialReference,
    SelectedExpressions, UnaryOperator,
};

type Expr = Expression<u64>;

fn num(n: u64) -> Expr {
    Expression::Number(n)
}

fn reference(name: &str) -> Expr {
    Expression::Reference(PolynomialReference::new(name).single().local())
}

#[test]
fn new_binary_builds_the_operation() {
    let e = Expr::new_binary(num(1), BinaryOperator::Mul, num(2));
    assert_eq!(e, Expression::BinaryOperation(Box::new(num(1)), BinaryOperator::Mul, Box::new(num(2))));
}

#[test]
fn operators_build_binary_operations() {
    assert_eq!(num(1) + num(2), Expr::new_binary(num(1), BinaryOperator::Add, num(2)));
    assert_eq!(num(1) - num(2), Expr::new_binary(num(1), BinaryOperator::Sub, num(2)));
    assert_eq!(num(1) * num(2), Expr::new_binary(num(1), BinaryOperator::Mul, num(2)));
    let from_number: Expr = 7u64.into();
    assert_eq!(from_number, num(7));
    let r = PolynomialReference::new("x").single().local();
    let from_reference: Expr = r.clone().into();
    assert_eq!(from_reference, Expression::Reference(r));
}

#[test]
fn sum_adds_from_the_left() {
    assert_eq!(Expr::sum(vec![]), num(0));
    assert_eq!(Expr::sum(vec![num(5)]), num(5));
    assert_eq!(Expr::sum(vec![num(1), num(2), num(3)]), (num(1) + num(2)) + num(3));
}

#[test]
fn any_finds_nested_expressions() {
    let e = Expression::Tuple(vec![
        num(1),
        Expression::UnaryOperation(UnaryOperator::Minus, Box::new(num(2) * reference("x"))),
    ]);
    assert!(e.any(|e| matches!(e, Expression::Reference(_))));
    assert!(e.any(|e| *e == num(2)));
    assert!(!e.any(|e| *e == num(3)));
    assert!(!e.any(|e| matches!(e, Expression::String(_))));
}

#[test]
fn any_visits_in_pre_order_and_stops_at_the_first_match() {
    let e = Expression::FunctionCall(FunctionCall {
        id: "f".to_string(),
        arguments: vec![num(1) + num(2), Expression::FreeInput(Box::new(num(3))), num(4)],
    });
    let mut seen = Vec::new();
    let found = e.any(|e| {
        seen.push(format!("{e:?}"));
        *e == num(3)
    });
    assert!(found);
    // The call, the sum, its two operands, the free input, and its operand.
    assert_eq!(seen.len(), 6);
    assert_eq!(seen[5], format!("{:?}", num(3)));

    let mut count = 0;
    assert!(!e.any(|_| {
        count += 1;
        false
    }));
    assert_eq!(count, 7);
}

#[test]
fn any_visits_match_patterns_and_lambda_bodies() {
    let e = Expression::MatchExpression(
        Box::new(reference("x")),
        vec![
            MatchArm { pattern: MatchPattern::Pattern(num(1)), value: num(10) },
            MatchArm { pattern: MatchPattern::CatchAll, value: Expression::LambdaExpression(
                LambdaExpression { params: vec!["i".to_string()], body: Box::new(num(20)) },
            ) },
        ],
    );
    assert!(e.any(|e| *e == num(1)));
    assert!(e.any(|e| *e == num(20)));
    let mut count = 0;
    e.any(|_| {
        count += 1;
        false
    });
    // match, scrutinee, pattern 1, value 10, lambda, body 20
    assert_eq!(count, 6);
}

#[test]
fn references_give_back_their_parts() {
    let r = PolynomialReference::new("pc").indexed(num(3)).namespaced("main".to_string());
    assert_eq!(r.name(), "pc");
    assert_eq!(r.namespace(), &Some("main".to_string()));
    assert_eq!(r.index(), &Some(Box::new(num(3))));

    let local: NamespacedPolynomialReference<u64> = PolynomialReference::new("a").single().local();
    assert_eq!(local.namespace(), &None);
    assert_eq!(local.index(), &None);

    let indexed: IndexedPolynomialReference<u64> =
        PolynomialReference::new("b").with_index(Some(num(0)));
    assert_eq!(indexed.name(), "b");
    assert_eq!(indexed.index(), &Some(Box::new(num(0))));
    let with_ns = indexed.with_namespace(Some("N".to_string()));
    assert_eq!(with_ns.namespace(), &Some("N".to_string()));
    assert_eq!(with_ns.name(), "b");
}

#[test]
fn name_mut_changes_only_the_name() {
    let mut r = PolynomialReference::new("a").indexed(num(1)).namespaced("N".to_string());
    r.name_mut().push_str("_new");
    assert_eq!(r.name(), "a_new");
    assert_eq!(r.namespace(), &Some("N".to_string()));
    assert_eq!(r.index(), &Some(Box::new(num(1))));

    let mut p = PolynomialReference::new("q");
    *p.name_mut() = "z".to_string();
    assert_eq!(p.name(), "z");
}

#[test]
fn is_prefix() {
    assert!(UnaryOperator::Plus.is_prefix());
    assert!(UnaryOperator::Minus.is_prefix());
    assert!(UnaryOperator::LogicalNot.is_prefix());
    assert!(!UnaryOperator::Next.is_prefix());
}

#[test]
fn selected_expressions_default_is_empty() {
    let s: SelectedExpressions<Expr> = SelectedExpressions::default();
    assert_eq!(s.selector, None);
    assert!(s.expressions.is_empty());
}

#[test]
fn clone_copies_the_whole_tree() {
    let e = Expression::MatchExpression(
        Box::new(PolynomialReference::new("x").indexed(num(2) + num(1)).namespaced("N".to_string()).into()),
        vec![MatchArm { pattern: MatchPattern::Pattern(Expression::String("s".to_string())), value: num(1) }],
    );
    assert_eq!(e.clone(), e);
}

#[test]
fn array_expression_builders() {
    let a: ArrayExpression<u64> = ArrayExpression::value(vec![num(1), num(2)]);
    assert_eq!(a, ArrayExpression::Value(vec![num(1), num(2)]));
    let r: ArrayExpression<u64> = ArrayExpression::repeated_value(vec![num(7)]);
    assert_eq!(r, ArrayExpression::RepeatedValue(vec![num(7)]));
    let c = ArrayExpression::value(vec![num(1)]).concat(ArrayExpression::repeated_value(vec![num(0)]));
    assert_eq!(
        c,
        ArrayExpression::Concat(
            Box::new(ArrayExpression::Value(vec![num(1)])),
            Box::new(ArrayExpression::RepeatedValue(vec![num(0)]))
        )
    );
}

#[test]
fn pad_with_zeroes_appends_a_repeated_zero() {
    let a: ArrayExpression<u64> = ArrayExpression::value(vec![num(1), num(2)]);
    assert_eq!(
        a.pad_with_zeroes(),
        ArrayExpression::Concat(
            Box::new(ArrayExpression::Value(vec![num(1), num(2)])),
            Box::new(ArrayExpression::RepeatedValue(vec![num(0)]))
        )
    );
}

#[test]
fn pad_with_last_repeats_the_last_item() {
    let a: ArrayExpression<u64> = ArrayExpression::value(vec![num(1), num(2)]);
    assert_eq!(
        a.pad_with_last(),
        Some(ArrayExpression::Concat(
            Box::new(ArrayExpression::Value(vec![num(1), num(2)])),
            Box::new(ArrayExpression::RepeatedValue(vec![num(2)]))
        ))
    );
    // The last item is that of the rightmost part.
    let b = ArrayExpression::value(vec![num(1)]).concat(ArrayExpression::repeated_value(vec![num(5), num(6)]));
    let padded = b.pad_with_last().unwrap();
    match padded {
        ArrayExpression::Concat(_, right) => {
            assert_eq!(*right, ArrayExpression::RepeatedValue(vec![num(6)]))
        }
        _ => panic!("expected a concatenation"),
    }
}

#[test]
fn pad_with_last_of_empty_is_none() {
    let a: ArrayExpression<u64> = ArrayExpression::value(vec![]);
    assert_eq!(a.pad_with_last(), None);
    let e: ArrayExpression<u64> = ArrayExpression::value(vec![]).concat(ArrayExpression::repeated_value(vec![]));
    assert_eq!(e.pad_with_last(), None);
}

#[test]
fn pad_with_last_looks_left_past_an_empty_part() {
    let b = ArrayExpression::value(vec![num(1)]).concat(ArrayExpression::value(vec![]));
    let expected = ArrayExpression::value(vec![num(1)])
        .concat(ArrayExpression::value(vec![]))
        .concat(ArrayExpression::repeated_value(vec![num(1)]));
    assert_eq!(b.pad_with_last(), Some(expected));
}

#[test]
fn constant_length_adds_up_the_listed_parts() {
    let a: ArrayExpression<u64> = ArrayExpression::value(vec![num(1), num(2)]);
    let b: ArrayExpression<u64> = ArrayExpression::repeated_value(vec![num(3)]);
    let c: ArrayExpression<u64> = ArrayExpression::value(vec![num(4)]);
    assert_eq!(a.constant_length(), 2);
    assert_eq!(b.constant_length(), 0);
    assert_eq!(a.concat(b).concat(c).constant_length(), 3);
}

#[test]
fn solve_fills_the_remaining_rows() {
    let a: ArrayExpression<u64> = ArrayExpression::value(vec![num(1), num(2), num(3)])
        .concat(ArrayExpression::repeated_value(vec![num(0)]))
        .concat(ArrayExpression::value(vec![num(9)]));
    assert_eq!(a.solve(16), 12);
    let exact: ArrayExpression<u64> = ArrayExpression::value(vec![num(1), num(2)]);
    assert_eq!(exact.solve(2), 0);
}

#[test]
fn repetitions_are_counted() {
    let a: ArrayExpression<u64> = ArrayExpression::value(vec![num(1)])
        .concat(ArrayExpression::repeated_value(vec![num(0)]))
        .concat(ArrayExpression::repeated_value(vec![num(2)]));
    assert_eq!(a.number_of_repetitions(), 2);
    let b: ArrayExpression<u64> = ArrayExpression::value(vec![num(1)]);
    assert_eq!(b.number_of_repetitions(), 0);
}

#[test]
fn padded_arrays_can_be_solved() {
    let a: ArrayExpression<u64> = ArrayExpression::value(vec![num(1), num(2), num(3)]);
    let padded = a.pad_with_zeroes();
    assert_eq!(padded.number_of_repetitions(), 1);
    assert_eq!(padded.solve(8), 5);
    let b: ArrayExpression<u64> = ArrayExpression::value(vec![num(4)]);
    let padded = b.pad_with_last().unwrap();
    assert_eq!(padded.number_of_repetitions(), 1);
    assert_eq!(padded.solve(4), 3);
}

#[test]
fn parsed_parts_clone_to_equal_values() {
    let selected = SelectedExpressions { selector: Some(reference("s")), expressions: vec![num(1), reference("a")] };
    assert_eq!(selected.clone(), selected);
    let array = ArrayExpression::value(vec![num(1), num(2)])
        .concat(ArrayExpression::repeated_value(vec![reference("x")]));
    assert_eq!(array.clone(), array);
    let mapping = FunctionDefinition::Mapping(vec!["i".to_string()], reference("i") + num(1));
    assert_eq!(mapping.clone(), mapping);
    let defined = FunctionDefinition::Array(array.clone());
    assert_eq!(defined.clone(), defined);
    let query: FunctionDefinition<u64> = FunctionDefinition::Query(vec![], num(3));
    assert_eq!(query.clone(), query);
    let name = PolynomialName { name: "x".to_string(), array_size: Some(num(4)) };
    assert_eq!(name.clone(), name);
}

#[test]
fn expression_parts_and_statements_clone_to_equal_values() {
    let lambda = LambdaExpression { params: vec!["i".to_string()], body: Box::new(reference("i")) };
    assert_eq!(lambda.clone(), lambda);
    let call = FunctionCall { id: "f".to_string(), arguments: vec![num(1), num(2)] };
    assert_eq!(call.clone(), call);
    let arm = MatchArm { pattern: MatchPattern::Pattern(num(0)), value: num(1) };
    assert_eq!(arm.clone(), arm);
    let catch_all: MatchPattern<u64> = MatchPattern::CatchAll;
    assert_eq!(catch_all.clone(), catch_all);
    let statements: Vec<PilStatement<u64>> = vec![
        PilStatement::Namespace(0, "N".to_string(), num(16)),
        PilStatement::PolynomialCommitDeclaration(
            1,
            vec![PolynomialName { name: "a".to_string(), array_size: None }],
            Some(FunctionDefinition::Query(vec!["i".to_string()], num(0))),
        ),
        PilStatement::PlookupIdentity(
            2,
            SelectedExpressions { selector: None, expressions: vec![reference("a")] },
            SelectedExpressions { selector: Some(num(1)), expressions: vec![reference("b")] },
        ),
        PilStatement::MacroDefinition(
            3,
            "m".to_string(),
            vec!["x".to_string()],
            vec![PilStatement::PolynomialIdentity(4, reference("x") - num(1))],
            Some(reference("x")),
        ),
    ];
    for statement in &statements {
        assert_eq!(statement.clone(), *statement);
    }
}
