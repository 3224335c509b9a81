use vstd::prelude::*;

use std::collections::HashMap;

use crate::number::FieldElement;
use crate::parsed::DegreeType;
use crate::text::{str_equal, strings_view};

verus! {

/// The bits that a value is known to occupy.
#[derive(Debug, Clone, Copy, PartialEq, Eq)]
pub struct BitConstraint {
    pub min_bit: u64,
    pub max_bit: u64,
}

/// New assignments or constraints for witness columns.
#[derive(Debug, PartialEq)]
pub enum Constraint<T> {
    Assignment(T),
    BitConstraint(BitConstraint),
}

impl<T: Copy> Clone for Constraint<T> {
    fn clone(&self) -> (r: Self)
        ensures
            r == *self,
    {
        match self {
            Constraint::Assignment(a) => Constraint::Assignment(*a),
            Constraint::BitConstraint(b) => Constraint::BitConstraint(*b),
        }
    }
}

/// The value of a declared function, as the analyzer gives it.
#[derive(Debug)]
pub enum FunctionValueDefinition<E> {
    /// Parameter-value-mapping.
    Mapping(E),
    /// Array expression.
    Array(Vec<E>),
    /// Prover query.
    Query(E),
}

/// Data that is fixed for witness generation.
pub struct FixedData<'a, T, E> {
    degree: DegreeType,
    constants: &'a HashMap<String, T>,
    fixed_cols: HashMap<&'a str, &'a Vec<T>>,
    witness_cols: &'a Vec<WitnessColumn<'a, E>>,
    witness_ids: HashMap<&'a str, usize>,
}

impl<'a, T, E> FixedData<'a, T, E> {
    pub closed spec fn degree_spec(self) -> DegreeType {
        self.degree
    }

    pub closed spec fn constants_spec(self) -> &'a HashMap<String, T> {
        self.constants
    }

    pub closed spec fn fixed_cols_spec(self) -> HashMap<&'a str, &'a Vec<T>> {
        self.fixed_cols
    }

    pub closed spec fn witness_cols_spec(self) -> &'a Vec<WitnessColumn<'a, E>> {
        self.witness_cols
    }

    pub closed spec fn witness_ids_spec(self) -> HashMap<&'a str, usize> {
        self.witness_ids
    }

    pub fn new(
        degree: DegreeType,
        constants: &'a HashMap<String, T>,
        fixed_cols: HashMap<&'a str, &'a Vec<T>>,
        witness_cols: &'a Vec<WitnessColumn<'a, E>>,
        witness_ids: HashMap<&'a str, usize>,
    ) -> (r: Self)
        ensures
            r.degree_spec() == degree,
            r.constants_spec() == constants,
            r.fixed_cols_spec() == fixed_cols,
            r.witness_cols_spec() == witness_cols,
            r.witness_ids_spec() == witness_ids,
    {
        FixedData { degree, constants, fixed_cols, witness_cols, witness_ids }
    }

    /// The witness columns, in source order.
    pub fn witness_cols(&self) -> (r: &'a Vec<WitnessColumn<'a, E>>)
        ensures
            r == self.witness_cols_spec(),
    {
        self.witness_cols
    }

    /// The name of the witness column `i`.
    pub fn name(&self, i: usize) -> (r: String)
        requires
            i < self.witness_cols_spec()@.len(),
        ensures
            r@ == self.witness_cols_spec()@[i as int].name@,
    {
        String::from_str(self.witness_cols[i].name)
    }
}

/// A witness column: its number, its name and the query that fills it, if any.
pub struct WitnessColumn<'a, E> {
    pub id: usize,
    pub name: &'a str,
    pub query: Option<&'a E>,
}

impl<'a, E> WitnessColumn<'a, E> {
    pub fn new(id: usize, name: &'a str, value: &'a Option<FunctionValueDefinition<E>>) -> (r:
        WitnessColumn<'a, E>)
        ensures
            r.id == id,
            r.name == name,
            r.query == match *value {
                Some(FunctionValueDefinition::Query(query)) => Some(&query),
                _ => None::<&E>,
            },
    {
        let query = if let Some(FunctionValueDefinition::Query(query)) = value {
            Some(query)
        } else {
            None
        };
        WitnessColumn { id, name, query }
    }
}

/// The witness columns of the committed polynomials `names`, numbered in
/// source order, each with the value definition at the same position.
pub fn witness_columns<'a, E>(
    names: &'a [String],
    values: &'a [Option<FunctionValueDefinition<E>>],
) -> (r: Vec<WitnessColumn<'a, E>>)
    requires
        names@.len() == values@.len(),
    ensures
        r@.len() == names@.len(),
        forall|i: int|
            0 <= i < r@.len() ==> (#[trigger] r@[i]).id == i && r@[i].name@ == names@[i]@
                && r@[i].query == match values@[i] {
                Some(FunctionValueDefinition::Query(query)) => Some(&query),
                _ => None::<&E>,
            },
{
    let mut r: Vec<WitnessColumn<'a, E>> = Vec::new();
    let mut i: usize = 0;
    while i < names.len()
        invariant
            i <= names@.len(),
            names@.len() == values@.len(),
            r@.len() == i,
            forall|k: int|
                0 <= k < i ==> (#[trigger] r@[k]).id == k && r@[k].name@ == names@[k]@
                    && r@[k].query == match values@[k] {
                    Some(FunctionValueDefinition::Query(query)) => Some(&query),
                    _ => None::<&E>,
                },
        decreases names@.len() - i,
    {
        r.push(WitnessColumn::new(i, names[i].as_str(), &values[i]));
        i = i + 1;
    }
    r
}

/// One empty list of values per witness column, under the column's name.
pub fn empty_columns<'a, E, T>(witness_cols: &[WitnessColumn<'a, E>]) -> (r: Vec<(&'a str, Vec<T>)>)
    ensures
        r@.len() == witness_cols@.len(),
        forall|i: int|
            0 <= i < r@.len() ==> (#[trigger] r@[i]).0 == witness_cols@[i].name && r@[i].1@.len()
                == 0,
{
    let mut r: Vec<(&'a str, Vec<T>)> = Vec::new();
    let mut i: usize = 0;
    while i < witness_cols.len()
        invariant
            i <= witness_cols@.len(),
            r@.len() == i,
            forall|k: int|
                0 <= k < i ==> (#[trigger] r@[k]).0 == witness_cols@[k].name && r@[k].1@.len() == 0,
        decreases witness_cols@.len() - i,
    {
        r.push((witness_cols[i].name, Vec::new()));
        i = i + 1;
    }
    r
}

/// Appends the values of one row: the value `row[col]` to the column `col`.
pub fn push_row<T>(values: &mut Vec<(&str, Vec<T>)>, row: Vec<T>)
    requires
        row@.len() <= old(values)@.len(),
    ensures
        final(values)@.len() == old(values)@.len(),
        forall|col: int|
            0 <= col < final(values)@.len() ==> (#[trigger] final(values)@[col]).0 == old(
                values,
            )@[col].0 && final(values)@[col].1@ == if col < row@.len() {
                old(values)@[col].1@.push(row@[col])
            } else {
                old(values)@[col].1@
            },
{
    let ghost initial = values@;
    let ghost row_values = row@;
    let mut row = row;
    let n = row.len();
    // Take the values out from the last column to the first.
    let mut col = n;
    while col > 0
        invariant
            col <= n,
            n == row_values.len(),
            row@ == row_values.take(col as int),
            values@.len() == initial.len(),
            n <= initial.len(),
            forall|c: int|
                0 <= c < values@.len() ==> (#[trigger] values@[c]).0 == initial[c].0 && values@[c].1@
                    == if col <= c < n {
                    initial[c].1@.push(row_values[c])
                } else {
                    initial[c].1@
                },
        decreases col,
    {
        col = col - 1;
        let v = row.pop().unwrap();
        assert(row_values.take(col + 1).drop_last() =~= row_values.take(col as int));
        let ghost before = values@;
        let mut entry: (&str, Vec<T>) = ("", Vec::new());
        std::mem::swap(&mut entry, &mut values[col]);
        entry.1.push(v);
        values.set(col, entry);
        assert forall|c: int| 0 <= c < values@.len() implies (#[trigger] values@[c]).0 == initial[c].0
            && values@[c].1@ == if col <= c < n {
            initial[c].1@.push(row_values[c])
        } else {
            initial[c].1@
        } by {
            if c != col {
                assert(values@[c] == before[c]);
            }
        }
    }
}

/// The names and values of a table of columns.
pub open spec fn columns_view<T>(values: Seq<(&str, Vec<T>)>) -> Seq<(Seq<char>, Seq<T>)> {
    values.map_values(|p: (&str, Vec<T>)| (p.0@, p.1@))
}

/// The columns whose first value differs from the value that the
/// wrap-around row gives them, in increasing order, each with the
/// wrap-around value and the first value. A column that has no value yet,
/// or that the row does not reach, is not compared.
pub open spec fn wrap_mismatches<T>(columns: Seq<(Seq<char>, Seq<T>)>, wrap_row: Seq<T>) -> Seq<
    (usize, T, T),
>
    decreases wrap_row.len(),
{
    if wrap_row.len() == 0 {
        Seq::empty()
    } else {
        let col = wrap_row.len() - 1;
        wrap_mismatches(columns, wrap_row.drop_last()) + if col < columns.len()
            && columns[col].1.len() > 0 && wrap_row[col] != columns[col].1[0] {
            seq![(col as usize, wrap_row[col], columns[col].1[0])]
        } else {
            Seq::empty()
        }
    }
}

/// The columns whose first value does not match the value that generating
/// the row after the last row (the wrap-around) gave them, with both values.
pub fn wrap_around_mismatches<T: FieldElement>(values: &Vec<(&str, Vec<T>)>, wrap_row: &Vec<T>) -> (r:
    Vec<(usize, T, T)>)
    ensures
        r@ == wrap_mismatches(columns_view(values@), wrap_row@),
{
    let ghost columns = columns_view(values@);
    let mut r: Vec<(usize, T, T)> = Vec::new();
    let mut col: usize = 0;
    while col < wrap_row.len()
        invariant
            col <= wrap_row@.len(),
            columns == columns_view(values@),
            r@ == wrap_mismatches(columns, wrap_row@.take(col as int)),
        decreases wrap_row@.len() - col,
    {
        assert(wrap_row@.take(col + 1).drop_last() =~= wrap_row@.take(col as int));
        assert(wrap_row@.take(col + 1)[col as int] == wrap_row@[col as int]);
        if col < values.len() && values[col].1.len() > 0 {
            assert(columns[col as int] == (values@[col as int].0@, values@[col as int].1@));
            if !wrap_row[col].equals(&values[col].1[0]) {
                r.push((col, wrap_row[col], values[col].1[0]));
            }
        }
        col = col + 1;
    }
    assert(wrap_row@.take(col as int) =~= wrap_row@);
    r
}

/// The first column named `name`.
pub open spec fn first_column_named<T>(columns: Seq<(Seq<char>, Seq<T>)>, name: Seq<char>) -> int {
    choose|col: int|
        0 <= col < columns.len() && columns[col].0 == name && forall|c: int|
            0 <= c < col ==> (#[trigger] columns[c]).0 != name
}

proof fn lemma_first_named_below<T>(columns: Seq<(Seq<char>, Seq<T>)>, name: Seq<char>, n: int)
    requires
        n <= columns.len(),
        exists|col: int| 0 <= col < n && (#[trigger] columns[col]).0 == name,
    ensures
        exists|col: int|
            0 <= col < columns.len() && columns[col].0 == name && forall|c: int|
                0 <= c < col ==> (#[trigger] columns[c]).0 != name,
    decreases n,
{
    if exists|col: int| 0 <= col < n - 1 && (#[trigger] columns[col]).0 == name {
        lemma_first_named_below(columns, name, n - 1);
    } else {
        let col = n - 1;
        assert(columns[col].0 == name);
        assert(forall|c: int| 0 <= c < col ==> (#[trigger] columns[c]).0 != name);
    }
}

/// Where some column is named `name`, `first_column_named` is the first of them.
pub proof fn lemma_first_column_named<T>(columns: Seq<(Seq<char>, Seq<T>)>, name: Seq<char>)
    requires
        has_column_named(columns, name),
    ensures
        ({
            let target = first_column_named(columns, name);
            &&& 0 <= target < columns.len()
            &&& columns[target].0 == name
            &&& forall|c: int| 0 <= c < target ==> (#[trigger] columns[c]).0 != name
        }),
{
    lemma_first_named_below(columns, name, columns.len() as int);
}

/// Some column is named `name`.
pub open spec fn has_column_named<T>(columns: Seq<(Seq<char>, Seq<T>)>, name: Seq<char>) -> bool {
    exists|col: int| 0 <= col < columns.len() && (#[trigger] columns[col]).0 == name
}

/// Replaces the values of the first column named `name` with `data`.
pub fn set_column<T>(values: &mut Vec<(&str, Vec<T>)>, name: &str, data: Vec<T>)
    requires
        has_column_named(columns_view(old(values)@), name@),
    ensures
        final(values)@.len() == old(values)@.len(),
        ({
            let target = first_column_named(columns_view(old(values)@), name@);
            forall|col: int|
                0 <= col < final(values)@.len() ==> (#[trigger] final(values)@[col]).0 == old(
                    values,
                )@[col].0 && final(values)@[col].1 == if col == target {
                    data
                } else {
                    old(values)@[col].1
                }
        }),
{
    let ghost initial = values@;
    let ghost columns = columns_view(initial);
    let mut col: usize = 0;
    let mut found = false;
    while !found && col < values.len()
        invariant
            values@ == initial,
            columns == columns_view(initial),
            col <= initial.len(),
            found ==> col < initial.len() && columns[col as int].0 == name@,
            has_column_named(columns, name@),
            forall|c: int| 0 <= c < col ==> (#[trigger] columns[c]).0 != name@,
        decreases initial.len() - col + if found { 0int } else { 1int },
    {
        if str_equal(values[col].0, name) {
            found = true;
        } else {
            col = col + 1;
        }
    }
    assert(col < initial.len()) by {
        if col >= initial.len() {
            let c = choose|c: int| 0 <= c < columns.len() && (#[trigger] columns[c]).0 == name@;
        }
    }
    assert(first_column_named(columns, name@) == col) by {
        let target = first_column_named(columns, name@);
        assert(0 <= col < columns.len() && columns[col as int].0 == name@ && forall|c: int|
            0 <= c < col ==> (#[trigger] columns[c]).0 != name@);
        if target < col {
            assert(columns[target].0 != name@);
        } else if target > col {
            assert(columns[col as int].0 != name@);
        }
    }
    let column_name = values[col].0;
    values.set(col, (column_name, data));
}

/// Returns true if some column of `values` is named `name`.
pub fn has_column<T>(values: &Vec<(&str, Vec<T>)>, name: &str) -> (r: bool)
    ensures
        r == has_column_named(columns_view(values@), name@),
{
    let ghost columns = columns_view(values@);
    let mut col: usize = 0;
    while col < values.len()
        invariant
            col <= values@.len(),
            columns == columns_view(values@),
            forall|c: int| 0 <= c < col ==> (#[trigger] columns[c]).0 != name@,
        decreases values@.len() - col,
    {
        if str_equal(values[col].0, name) {
            assert(columns[col as int].0 == name@);
            return true;
        }
        col = col + 1;
    }
    false
}

/// The values that the rows `rows` give the column `col`, in order: a row
/// too short to reach the column gives it none.
pub open spec fn column_of<T>(rows: Seq<Seq<T>>, col: int) -> Seq<T>
    decreases rows.len(),
{
    if rows.len() == 0 {
        Seq::empty()
    } else {
        let last = rows.last();
        column_of(rows.drop_last(), col) + if col < last.len() {
            seq![last[col]]
        } else {
            Seq::empty()
        }
    }
}

/// The columns named `names`, filled with the rows `rows`.
pub open spec fn filled_columns<T>(names: Seq<Seq<char>>, rows: Seq<Seq<T>>) -> Seq<
    (Seq<char>, Seq<T>),
> {
    Seq::new(names.len(), |col: int| (names[col], column_of(rows, col)))
}

/// `columns` with the values of the first column named `name` replaced by
/// `data`; unchanged where no column has that name.
pub open spec fn replace_named<T>(
    columns: Seq<(Seq<char>, Seq<T>)>,
    name: Seq<char>,
    data: Seq<T>,
) -> Seq<(Seq<char>, Seq<T>)> {
    if has_column_named(columns, name) {
        columns.update(first_column_named(columns, name), (name, data))
    } else {
        columns
    }
}

/// `columns` after the columns `machine` computed, by name, replaced
/// theirs one after the other.
pub open spec fn apply_machines<T>(
    columns: Seq<(Seq<char>, Seq<T>)>,
    machine: Seq<(Seq<char>, Seq<T>)>,
) -> Seq<(Seq<char>, Seq<T>)>
    decreases machine.len(),
{
    if machine.len() == 0 {
        columns
    } else {
        let (name, data) = machine.last();
        replace_named(apply_machines(columns, machine.drop_last()), name, data)
    }
}

/// A row reaching every column adds one value to each: `n` such rows fill
/// each column with `n` values.
pub proof fn lemma_full_rows_fill_columns<T>(rows: Seq<Seq<T>>, col: int)
    requires
        0 <= col,
        forall|r: int| 0 <= r < rows.len() ==> col < (#[trigger] rows[r]).len(),
    ensures
        column_of(rows, col).len() == rows.len(),
        forall|r: int| 0 <= r < rows.len() ==> (#[trigger] column_of(rows, col)[r]) == rows[r][col],
    decreases rows.len(),
{
    if rows.len() > 0 {
        let prefix = rows.drop_last();
        assert forall|r: int| 0 <= r < prefix.len() implies col < (#[trigger] prefix[r]).len() by {
            assert(prefix[r] == rows[r]);
        }
        lemma_full_rows_fill_columns(prefix, col);
        assert(col < rows[rows.len() - 1].len());
        assert forall|r: int| 0 <= r < rows.len() implies (#[trigger] column_of(rows, col)[r])
            == rows[r][col] by {
            if r < prefix.len() {
                assert(column_of(prefix, col)[r] == prefix[r][col]);
            }
        }
    }
}

/// Replacing columns by name keeps the names of all columns.
pub proof fn lemma_machines_keep_names<T>(
    columns: Seq<(Seq<char>, Seq<T>)>,
    machine: Seq<(Seq<char>, Seq<T>)>,
)
    ensures
        apply_machines(columns, machine).len() == columns.len(),
        forall|col: int|
            0 <= col < columns.len() ==> (#[trigger] apply_machines(columns, machine)[col]).0
                == columns[col].0,
    decreases machine.len(),
{
    if machine.len() > 0 {
        let (name, data) = machine.last();
        let before = apply_machines(columns, machine.drop_last());
        lemma_machines_keep_names(columns, machine.drop_last());
        if has_column_named(before, name) {
            lemma_first_column_named(before, name);
        }
    }
}

/// No entry of `machine` is named `name`.
pub open spec fn no_machine_named<T>(machine: Seq<(Seq<char>, Seq<T>)>, name: Seq<char>) -> bool {
    forall|j: int| 0 <= j < machine.len() ==> (#[trigger] machine[j]).0 != name
}

/// A column whose name no machine column has keeps its values.
pub proof fn lemma_machines_keep_other_columns<T>(
    columns: Seq<(Seq<char>, Seq<T>)>,
    machine: Seq<(Seq<char>, Seq<T>)>,
    col: int,
)
    requires
        0 <= col < columns.len(),
        no_machine_named(machine, columns[col].0),
    ensures
        apply_machines(columns, machine)[col] == columns[col],
    decreases machine.len(),
{
    if machine.len() > 0 {
        let (name, data) = machine.last();
        let before = apply_machines(columns, machine.drop_last());
        assert(no_machine_named(machine.drop_last(), columns[col].0)) by {
            assert forall|j: int| 0 <= j < machine.drop_last().len() implies (
            #[trigger] machine.drop_last()[j]).0 != columns[col].0 by {
                assert(machine.drop_last()[j] == machine[j]);
            }
        }
        lemma_machines_keep_other_columns(columns, machine.drop_last(), col);
        lemma_machines_keep_names(columns, machine.drop_last());
        assert(machine[machine.len() - 1].0 != columns[col].0);
        if has_column_named(before, name) {
            lemma_first_column_named(before, name);
        }
    }
}

/// What computes the witness rows: the identities, the bit constraints and
/// the machines that it was set up with stay on its side. Its state is its
/// value: what it gives is a function of its state and of what it is asked.
pub trait RowGenerator<T>: Sized {
    /// The values that `compute_next_row(row)` gives in this state.
    spec fn next_row(&self, row: DegreeType) -> Seq<T>;

    /// The state after `compute_next_row(row)`.
    spec fn after_row(&self, row: DegreeType) -> Self;

    /// The columns that `machine_witness_col_values` gives in this state,
    /// by name.
    spec fn machine_columns(&self) -> Seq<(Seq<char>, Seq<T>)>;

    /// The values of the witness columns on the row `row`, in source order.
    fn compute_next_row(&mut self, row: DegreeType) -> (r: Vec<T>)
        ensures
            r@ == old(self).next_row(row),
            *final(self) == old(self).after_row(row),
    ;

    /// The columns that the machines computed on their own, by name.
    fn machine_witness_col_values(&mut self) -> (r: Vec<(String, Vec<T>)>)
        ensures
            machine_view(r@) == old(self).machine_columns(),
    ;
}

/// A generator that gives back rows computed before, in the order they were
/// recorded, whatever row is asked for: the rows of an earlier run, replayed.
pub struct RecordedRows<T> {
    /// The rows, in the order they are given out.
    pub answers: Vec<Vec<T>>,
    /// How many rows were given out so far.
    pub position: usize,
    /// The columns that the machines computed, by name.
    pub machine: Vec<(String, Vec<T>)>,
}

impl<T: Copy> RecordedRows<T> {
    pub fn new(answers: Vec<Vec<T>>, machine: Vec<(String, Vec<T>)>) -> (r: Self)
        ensures
            r.answers == answers,
            r.position == 0,
            r.machine == machine,
    {
        RecordedRows { answers, position: 0, machine }
    }
}

impl<T: Copy> RowGenerator<T> for RecordedRows<T> {
    open spec fn next_row(&self, row: DegreeType) -> Seq<T> {
        if self.position < self.answers@.len() {
            self.answers@[self.position as int]@
        } else {
            Seq::empty()
        }
    }

    open spec fn after_row(&self, row: DegreeType) -> Self {
        RecordedRows {
            answers: self.answers,
            position: if self.position < self.answers@.len() {
                (self.position + 1) as usize
            } else {
                self.position
            },
            machine: self.machine,
        }
    }

    open spec fn machine_columns(&self) -> Seq<(Seq<char>, Seq<T>)> {
        machine_view(self.machine@)
    }

    fn compute_next_row(&mut self, row: DegreeType) -> (r: Vec<T>) {
        if self.position < self.answers.len() {
            let values = row_prefix(&self.answers[self.position], self.answers[self.position].len());
            self.position = self.position + 1;
            values
        } else {
            Vec::new()
        }
    }

    fn machine_witness_col_values(&mut self) -> (r: Vec<(String, Vec<T>)>) {
        let mut machine: Vec<(String, Vec<T>)> = Vec::new();
        std::mem::swap(&mut machine, &mut self.machine);
        machine
    }
}

/// The names and values of the columns that machines computed.
pub open spec fn machine_view<T>(machine: Seq<(String, Vec<T>)>) -> Seq<(Seq<char>, Seq<T>)> {
    machine.map_values(|p: (String, Vec<T>)| (p.0@, p.1@))
}

/// The values of a list of rows.
pub open spec fn rows_view<T>(rows: Seq<Vec<T>>) -> Seq<Seq<T>> {
    rows.map_values(|v: Vec<T>| v@)
}

/// The state of `generator` once it computed the rows `0..n`, in order.
pub open spec fn state_after_rows<T, G: RowGenerator<T>>(generator: G, n: nat) -> G
    decreases n,
{
    if n == 0 {
        generator
    } else {
        state_after_rows(generator, (n - 1) as nat).after_row((n - 1) as DegreeType)
    }
}

/// The rows `0..n` that `generator` computes, asked for them in order.
pub open spec fn rows_computed<T, G: RowGenerator<T>>(generator: G, n: nat) -> Seq<Seq<T>>
    decreases n,
{
    if n == 0 {
        Seq::empty()
    } else {
        rows_computed(generator, (n - 1) as nat).push(
            state_after_rows(generator, (n - 1) as nat).next_row((n - 1) as DegreeType),
        )
    }
}

/// Asked for `n` rows, a generator gives `n` rows.
pub proof fn lemma_rows_computed_len<T, G: RowGenerator<T>>(generator: G, n: nat)
    ensures
        rows_computed(generator, n).len() == n,
    decreases n,
{
    if n > 0 {
        lemma_rows_computed_len(generator, (n - 1) as nat);
    }
}

/// One empty column per name, in order.
fn named_empty_columns<'a, T>(names: &'a [String]) -> (r: Vec<(&'a str, Vec<T>)>)
    ensures
        r@.len() == names@.len(),
        forall|col: int| 0 <= col < r@.len() ==> (#[trigger] r@[col]).0@ == names@[col]@,
        columns_view(r@) == filled_columns(strings_view(names@), Seq::<Seq<T>>::empty()),
{
    let mut r: Vec<(&'a str, Vec<T>)> = Vec::new();
    let mut i: usize = 0;
    while i < names.len()
        invariant
            i <= names@.len(),
            r@.len() == i,
            forall|k: int| 0 <= k < i ==> (#[trigger] r@[k]).0@ == names@[k]@ && r@[k].1@.len()
                == 0,
        decreases names@.len() - i,
    {
        r.push((names[i].as_str(), Vec::new()));
        i = i + 1;
    }
    assert forall|col: int| 0 <= col < r@.len() implies #[trigger] columns_view(r@)[col]
        == filled_columns(strings_view(names@), Seq::<Seq<T>>::empty())[col] by {
        assert(r@[col].1@ =~= Seq::<T>::empty());
    }
    assert(columns_view(r@) =~= filled_columns(strings_view(names@), Seq::<Seq<T>>::empty()));
    r
}

/// The first `n` values of `row`, or all of them where it has fewer.
fn row_prefix<T: Copy>(row: &Vec<T>, n: usize) -> (r: Vec<T>)
    ensures
        r@ == if row@.len() <= n {
            row@
        } else {
            row@.take(n as int)
        },
{
    let mut r: Vec<T> = Vec::new();
    let mut i: usize = 0;
    while i < row.len() && i < n
        invariant
            i <= row@.len(),
            i <= n,
            r@ == row@.take(i as int),
        decreases row@.len() - i,
    {
        r.push(row[i]);
        assert(row@.take(i + 1) =~= row@.take(i as int).push(row@[i as int]));
        i = i + 1;
    }
    assert(row@.len() <= n ==> row@.take(i as int) =~= row@);
    r
}

/// Puts together the columns named `names` from the rows `rows` (each row
/// gives its value `col` to the column `col`), lets the columns that the
/// machines computed replace theirs, one after the other, and lists the
/// columns whose first value the wrap-around row `wrap_row` does not
/// reproduce.
pub fn assemble<'a, T: FieldElement>(
    names: &'a [String],
    rows: &[Vec<T>],
    wrap_row: &Vec<T>,
    machine: Vec<(String, Vec<T>)>,
) -> (r: (Vec<(&'a str, Vec<T>)>, Vec<(usize, T, T)>))
    ensures
        r.0@.len() == names@.len(),
        forall|col: int| 0 <= col < r.0@.len() ==> (#[trigger] r.0@[col]).0@ == names@[col]@,
        columns_view(r.0@) == apply_machines(
            filled_columns(strings_view(names@), rows_view(rows@)),
            machine_view(machine@),
        ),
        r.1@ == wrap_mismatches(filled_columns(strings_view(names@), rows_view(rows@)), wrap_row@),
{
    let ghost names_view = strings_view(names@);
    let mut table: Vec<(&'a str, Vec<T>)> = named_empty_columns(names);
    let mut k: usize = 0;
    while k < rows.len()
        invariant
            k <= rows@.len(),
            names_view == strings_view(names@),
            table@.len() == names@.len(),
            forall|col: int| 0 <= col < table@.len() ==> (#[trigger] table@[col]).0@ == names@[col]@,
            columns_view(table@) == filled_columns(names_view, rows_view(rows@.take(k as int))),
        decreases rows@.len() - k,
    {
        let ghost before = table@;
        let ghost done = rows_view(rows@.take(k as int));
        let ghost next = rows_view(rows@.take(k + 1));
        let row = row_prefix(&rows[k], table.len());
        push_row(&mut table, row);
        proof {
            assert(next =~= done.push(rows@[k as int]@));
            assert(next.drop_last() =~= done);
            assert forall|col: int| 0 <= col < table@.len() implies #[trigger] columns_view(
                table@,
            )[col] == filled_columns(names_view, next)[col] by {
                assert(columns_view(before)[col] == filled_columns(names_view, done)[col]);
            }
            assert(columns_view(table@) =~= filled_columns(names_view, next));
        }
        k = k + 1;
    }
    assert(rows@.take(k as int) =~= rows@);
    let mismatches = wrap_around_mismatches(&table, wrap_row);
    let ghost filled = columns_view(table@);
    let ghost machines = machine_view(machine@);
    let mut machine = machine;
    assert(apply_machines(filled, machines.take(0)) == filled);
    let mut m: usize = 0;
    while m < machine.len()
        invariant
            m <= machine@.len(),
            machine@.len() == machines.len(),
            forall|j: int|
                m <= j < machine@.len() ==> ((#[trigger] machine@[j]).0@, machine@[j].1@)
                    == machines[j],
            table@.len() == names@.len(),
            forall|col: int| 0 <= col < table@.len() ==> (#[trigger] table@[col]).0@ == names@[col]@,
            columns_view(table@) == apply_machines(filled, machines.take(m as int)),
        decreases machine@.len() - m,
    {
        let mut entry: (String, Vec<T>) = (String::new(), Vec::new());
        let ghost before_machine = machine@;
        std::mem::swap(&mut entry, &mut machine[m]);
        assert forall|j: int| m < j < machine@.len() implies ((#[trigger] machine@[j]).0@,
            machine@[j].1@) == machines[j] by {
            assert(machine@[j] == before_machine[j]);
        }
        let ghost before = table@;
        let (name, data) = entry;
        assert(machines.take(m + 1).drop_last() =~= machines.take(m as int));
        assert(machines.take(m + 1).last() == (name@, data@));
        if has_column(&table, name.as_str()) {
            set_column(&mut table, name.as_str(), data);
            assert(columns_view(table@) =~= columns_view(before).update(
                first_column_named(columns_view(before), name@),
                (name@, data@),
            )) by {
                lemma_first_column_named(columns_view(before), name@);
            }
        }
        m = m + 1;
    }
    assert(machines.take(m as int) =~= machines);
    (table, mismatches)
}

/// Generates the values of the committed polynomials `names` (in source
/// order, each with its array length) on `degree` rows: asks `generator`
/// for the rows `0..degree`, in order, then for row 0 once more (the
/// wrap-around), then for the columns its machines computed. Gives `None`,
/// without asking the generator anything, where a polynomial is an array,
/// which is not supported. Otherwise gives the columns, after the machines
/// replaced theirs, and the columns whose first value the wrap-around row
/// does not reproduce.
pub fn generate<'a, T: FieldElement, G: RowGenerator<T>>(
    names: &'a [String],
    lengths: &[Option<u64>],
    degree: DegreeType,
    generator: &mut G,
) -> (r: Option<(Vec<(&'a str, Vec<T>)>, Vec<(usize, T, T)>)>)
    ensures
        r is None <==> exists|i: int| 0 <= i < lengths@.len() && (#[trigger] lengths@[i]) is Some,
        r is None ==> *final(generator) == *old(generator),
        r matches Some((columns, mismatches)) ==> {
            let rows = rows_computed(*old(generator), degree as nat);
            let after = state_after_rows(*old(generator), degree as nat);
            let machine = after.after_row(0).machine_columns();
            let filled = filled_columns(strings_view(names@), rows);
            &&& columns@.len() == names@.len()
            &&& forall|col: int|
                0 <= col < columns@.len() ==> (#[trigger] columns@[col]).0@ == names@[col]@
            &&& columns_view(columns@) == apply_machines(filled, machine)
            &&& mismatches@ == wrap_mismatches(filled, after.next_row(0))
            &&& forall|col: int|
                0 <= col < names@.len() && no_machine_named(machine, names@[col]@)
                    ==> (#[trigger] columns@[col]).1@ == column_of(rows, col)
            &&& (forall|row: int| 0 <= row < rows.len() ==> (#[trigger] rows[row]).len() == names@.len())
                ==> forall|col: int|
                0 <= col < names@.len() && no_machine_named(machine, names@[col]@)
                    ==> (#[trigger] columns@[col]).1@.len() == degree
        },
{
    let mut i: usize = 0;
    while i < lengths.len()
        invariant
            i <= lengths@.len(),
            forall|j: int| 0 <= j < i ==> (#[trigger] lengths@[j]) is None,
        decreases lengths@.len() - i,
    {
        if lengths[i].is_some() {
            return None;
        }
        i = i + 1;
    }
    let ghost start = *generator;
    let mut rows: Vec<Vec<T>> = Vec::new();
    let mut row: DegreeType = 0;
    while row < degree
        invariant
            row <= degree,
            rows_view(rows@) == rows_computed(start, row as nat),
            *generator == state_after_rows(start, row as nat),
        decreases degree - row,
    {
        let values = generator.compute_next_row(row);
        let ghost before = rows@;
        rows.push(values);
        assert(rows_view(rows@) =~= rows_view(before).push(values@));
        row = row + 1;
    }
    let wrap_row = generator.compute_next_row(0);
    let machine = generator.machine_witness_col_values();
    let (columns, mismatches) = assemble(names, rows.as_slice(), &wrap_row, machine);
    proof {
        let rows_seq = rows_computed(start, degree as nat);
        let machines = state_after_rows(start, degree as nat).after_row(0).machine_columns();
        let filled = filled_columns(strings_view(names@), rows_seq);
        assert(rows_view(rows@) == rows_seq);
        assert forall|col: int|
            0 <= col < names@.len() && no_machine_named(machines, names@[col]@) implies (
            #[trigger] columns@[col]).1@ == column_of(rows_seq, col) by {
            assert(filled[col].0 == names@[col]@);
            lemma_machines_keep_other_columns(filled, machines, col);
            assert(columns_view(columns@)[col] == filled[col]);
        }
        lemma_rows_computed_len(start, degree as nat);
        if forall|r: int| 0 <= r < rows_seq.len() ==> (#[trigger] rows_seq[r]).len() == names@.len() {
            assert forall|col: int|
                0 <= col < names@.len() && no_machine_named(machines, names@[col]@) implies (
                #[trigger] columns@[col]).1@.len() == degree by {
                lemma_full_rows_fill_columns(rows_seq, col);
                assert(columns@[col].1@ == column_of(rows_seq, col));
            }
        }
    }
    Some((columns, mismatches))
}

} // verus!
