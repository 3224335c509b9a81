use std::collections::HashMap;

use powdr::witness_generator::{
    empty_columns, generate, has_column, push_row, set_column, witness_columns,
    wrap_around_mismatches, BitConstraint, Constraint, FixedData, FunctionValueDefinition,
    RecordedRows, WitnessColumn, assemble,
};

#[test]
fn witness_column_keeps_only_queries() {
    let query: Option<FunctionValueDefinition<&str>> = Some(FunctionValueDefinition::Query("q"));
    let mapping: Option<FunctionValueDefinition<&str>> = Some(FunctionValueDefinition::Mapping("m"));
    let none: Option<FunctionValueDefinition<&str>> = None;
    let a = WitnessColumn::new(0, "a", &query);
    assert_eq!(a.id, 0);
    assert_eq!(a.name, "a");
    assert_eq!(a.query, Some(&"q"));
    assert_eq!(WitnessColumn::new(1, "b", &mapping).query, None);
    assert_eq!(WitnessColumn::new(2, "c", &none).query, None);
}

#[test]
fn witness_columns_are_numbered_in_order() {
    let names = vec!["x".to_string(), "y".to_string()];
    let values: Vec<Option<FunctionValueDefinition<u64>>> =
        vec![None, Some(FunctionValueDefinition::Query(5))];
    let cols = witness_columns(&names, &values);
    assert_eq!(cols.len(), 2);
    assert_eq!((cols[0].id, cols[0].name, cols[0].query), (0, "x", None));
    assert_eq!((cols[1].id, cols[1].name, cols[1].query), (1, "y", Some(&5)));
}

#[test]
fn fixed_data_holds_its_parts() {
    let names = vec!["x".to_string(), "y".to_string()];
    let values: Vec<Option<FunctionValueDefinition<u64>>> = vec![None, None];
    let cols = witness_columns(&names, &values);
    let constants: HashMap<String, u64> = HashMap::new();
    let fixed_col = vec![1u64, 2];
    let mut fixed_cols = HashMap::new();
    fixed_cols.insert("f", &fixed_col);
    let ids: HashMap<&str, usize> = cols.iter().map(|w| (w.name, w.id)).collect();
    let fixed = FixedData::new(8, &constants, fixed_cols, &cols, ids);
    assert_eq!(fixed.witness_cols().len(), 2);
    assert_eq!(fixed.name(1), "y");
}

#[test]
fn rows_become_columns() {
    let names = vec!["x".to_string(), "y".to_string()];
    let values: Vec<Option<FunctionValueDefinition<u64>>> = vec![None, None];
    let cols = witness_columns(&names, &values);
    let mut table: Vec<(&str, Vec<u64>)> = empty_columns(&cols);
    push_row(&mut table, vec![1, 2]);
    push_row(&mut table, vec![3, 4]);
    push_row(&mut table, vec![5]);
    assert_eq!(table, vec![("x", vec![1, 3, 5]), ("y", vec![2, 4])]);
}

#[test]
fn wrap_around_mismatches_are_found() {
    let table: Vec<(&str, Vec<u64>)> = vec![("x", vec![1, 3]), ("y", vec![2, 4]), ("z", vec![0])];
    assert_eq!(wrap_around_mismatches(&table, &vec![1, 5, 7]), vec![(1, 5, 2), (2, 7, 0)]);
    assert_eq!(wrap_around_mismatches(&table, &vec![1, 2]), Vec::<(usize, u64, u64)>::new());
}

#[test]
fn wrap_around_skips_columns_without_values() {
    let table: Vec<(&str, Vec<u64>)> = vec![("x", vec![]), ("y", vec![4])];
    assert_eq!(wrap_around_mismatches(&table, &vec![1, 5, 7]), vec![(1, 5, 4)]);
}

#[test]
fn machine_columns_replace_the_first_of_their_name() {
    let mut table: Vec<(&str, Vec<u64>)> = vec![("x", vec![1]), ("y", vec![2]), ("y", vec![3])];
    set_column(&mut table, "y", vec![9, 9]);
    assert_eq!(table, vec![("x", vec![1]), ("y", vec![9, 9]), ("y", vec![3])]);
    assert!(has_column(&table, "x"));
    assert!(!has_column(&table, "z"));
}

/// The rows `10 * r + col` for `r` in `0..rows`, then a wrap-around row
/// that repeats row 0 with 100 added to its last value.
fn recorded(columns: u64, rows: u64, machine: Vec<(String, Vec<u64>)>) -> RecordedRows<u64> {
    let mut answers: Vec<Vec<u64>> =
        (0..rows).map(|r| (0..columns).map(|c| 10 * r + c).collect()).collect();
    let mut wrap: Vec<u64> = (0..columns).collect();
    if let Some(last) = wrap.last_mut() {
        *last += 100;
    }
    answers.push(wrap);
    RecordedRows::new(answers, machine)
}

#[test]
fn generate_fills_the_rows_and_applies_the_machines() {
    let names = vec!["a".to_string(), "b".to_string(), "c".to_string()];
    let lengths = vec![None, None, None];
    let mut generator = recorded(
        3,
        3,
        vec![("b".to_string(), vec![7, 7, 7]), ("nowhere".to_string(), vec![1])],
    );
    let (columns, mismatches) = generate(&names, &lengths, 3, &mut generator).unwrap();
    assert_eq!(
        columns,
        vec![("a", vec![0, 10, 20]), ("b", vec![7, 7, 7]), ("c", vec![2, 12, 22])]
    );
    assert_eq!(mismatches, vec![(2, 102, 2)]);
    assert_eq!(generator.position, 4);
    assert!(generator.machine.is_empty());
}

#[test]
fn generate_puts_degree_values_in_each_column() {
    let names = vec!["a".to_string(), "b".to_string()];
    let lengths = vec![None, None];
    let mut generator = recorded(2, 4, vec![]);
    let (columns, mismatches) = generate(&names, &lengths, 4, &mut generator).unwrap();
    assert_eq!(columns, vec![("a", vec![0, 10, 20, 30]), ("b", vec![1, 11, 21, 31])]);
    assert_eq!(mismatches, vec![(1, 101, 1)]);
}

#[test]
fn generate_refuses_committed_arrays() {
    let names = vec!["a".to_string(), "b".to_string()];
    let lengths = vec![None, Some(2)];
    let mut generator = recorded(2, 3, vec![("a".to_string(), vec![1])]);
    assert!(generate(&names, &lengths, 3, &mut generator).is_none());
    assert_eq!(generator.position, 0);
    assert_eq!(generator.machine.len(), 1);
}

#[test]
fn generate_on_no_rows_gives_empty_columns() {
    let names = vec!["a".to_string()];
    let lengths = vec![None];
    let mut generator = recorded(1, 0, vec![]);
    let (columns, mismatches) = generate(&names, &lengths, 0, &mut generator).unwrap();
    assert_eq!(columns, vec![("a", vec![])]);
    assert!(mismatches.is_empty());
}

#[test]
fn assemble_builds_columns_from_given_rows() {
    let names = vec!["x".to_string(), "y".to_string()];
    let rows = vec![vec![1u64, 2], vec![3, 4, 99], vec![5]];
    let (columns, mismatches) =
        assemble(&names, &rows, &vec![1, 9], vec![("x".to_string(), vec![0])]);
    assert_eq!(columns, vec![("x", vec![0]), ("y", vec![2, 4])]);
    assert_eq!(mismatches, vec![(1, 9, 2)]);
}
