use vstd::prelude::*;
use vstd::std_specs::convert::FromSpecImpl;
use vstd::std_specs::ops::{AddSpecImpl, MulSpecImpl, SubSpecImpl};

use crate::number::FieldElement;

verus! {

/// The degree (number of rows) of a polynomial.
pub type DegreeType = u64;

#[derive(Debug, PartialEq, Eq)]
pub struct PILFile<T>(pub Vec<PilStatement<T>>);

#[derive(Debug, PartialEq, Eq, PartialOrd, Ord)]
pub enum PilStatement<T> {
    /// File name
    Include(usize, String),
    /// Name of namespace and polynomial degree (constant)
    Namespace(usize, String, Expression<T>),
    LetStatement(usize, String, Option<Expression<T>>),
    PolynomialDefinition(usize, String, Expression<T>),
    PublicDeclaration(usize, String, NamespacedPolynomialReference<T>, Expression<T>),
    PolynomialConstantDeclaration(usize, Vec<PolynomialName<T>>),
    PolynomialConstantDefinition(usize, String, FunctionDefinition<T>),
    PolynomialCommitDeclaration(usize, Vec<PolynomialName<T>>, Option<FunctionDefinition<T>>),
    PolynomialIdentity(usize, Expression<T>),
    PlookupIdentity(usize, SelectedExpressions<Expression<T>>, SelectedExpressions<Expression<T>>),
    PermutationIdentity(
        usize,
        SelectedExpressions<Expression<T>>,
        SelectedExpressions<Expression<T>>,
    ),
    ConnectIdentity(usize, Vec<Expression<T>>, Vec<Expression<T>>),
    ConstantDefinition(usize, String, Expression<T>),
    MacroDefinition(usize, String, Vec<String>, Vec<PilStatement<T>>, Option<Expression<T>>),
    FunctionCall(usize, String, Vec<Expression<T>>),
}

#[derive(Debug, PartialEq, Eq, PartialOrd, Ord)]
pub struct SelectedExpressions<Expr> {
    pub selector: Option<Expr>,
    pub expressions: Vec<Expr>,
}

impl<Expr> Default for SelectedExpressions<Expr> {
    fn default() -> (s: Self)
        ensures
            s.selector is None,
            s.expressions@ == Seq::<Expr>::empty(),
    {
        Self { selector: None, expressions: Vec::new() }
    }
}

#[derive(Debug, PartialEq, Eq, PartialOrd, Ord)]
pub enum Expression<T, Ref = NamespacedPolynomialReference<T>> {
    Reference(Ref),
    PublicReference(String),
    Number(T),
    String(String),
    Tuple(Vec<Expression<T, Ref>>),
    LambdaExpression(LambdaExpression<T, Ref>),
    ArrayLiteral(ArrayLiteral<T, Ref>),
    BinaryOperation(Box<Expression<T, Ref>>, BinaryOperator, Box<Expression<T, Ref>>),
    UnaryOperation(UnaryOperator, Box<Expression<T, Ref>>),
    FunctionCall(FunctionCall<T, Ref>),
    FreeInput(Box<Expression<T, Ref>>),
    MatchExpression(Box<Expression<T, Ref>>, Vec<MatchArm<T, Ref>>),
}

#[derive(Debug, PartialEq, Eq, PartialOrd, Ord, Default)]
pub struct PolynomialName<T> {
    pub name: String,
    pub array_size: Option<Expression<T>>,
}

/// A polynomial with an optional namespace
#[derive(Debug, PartialEq, Eq, Default, PartialOrd, Ord)]
pub struct NamespacedPolynomialReference<T> {
    /// The optional namespace, if `None` then this polynomial inherits the next enclosing namespace, if any
    namespace: Option<String>,
    /// The underlying polynomial
    pol: IndexedPolynomialReference<T>,
}

/// A polynomial with an optional index to support unidimensional arrays of polynomials
#[derive(Debug, PartialEq, Eq, Default, PartialOrd, Ord)]
pub struct IndexedPolynomialReference<T> {
    /// The optional index, is `Some` iff the declaration of this polynomial is an array
    index: Option<Box<Expression<T>>>,
    /// The underlying polynomial
    pol: PolynomialReference,
}

/// A polynomial or array of polynomials
#[derive(Debug, PartialEq, Eq, Default, PartialOrd, Ord)]
pub struct PolynomialReference {
    /// The name of this polynomial or array of polynomials
    name: String,
}

#[derive(Debug, PartialEq, Eq, PartialOrd, Ord)]
pub struct LambdaExpression<T, Ref = NamespacedPolynomialReference<T>> {
    pub params: Vec<String>,
    pub body: Box<Expression<T, Ref>>,
}

#[derive(Debug, PartialEq, Eq, PartialOrd, Ord)]
pub struct ArrayLiteral<T, Ref = NamespacedPolynomialReference<T>> {
    pub items: Vec<Expression<T, Ref>>,
}

#[derive(Debug, PartialEq, Eq, PartialOrd, Ord, Clone, Copy)]
pub enum UnaryOperator {
    Plus,
    Minus,
    LogicalNot,
    Next,
}

#[derive(Debug, PartialEq, Eq, PartialOrd, Ord, Clone, Copy)]
pub enum BinaryOperator {
    Add,
    Sub,
    Mul,
    Div,
    Mod,
    Pow,
    BinaryAnd,
    BinaryXor,
    BinaryOr,
    ShiftLeft,
    ShiftRight,
    LogicalOr,
    LogicalAnd,
    Less,
    LessEqual,
    Equal,
    NotEqual,
    GreaterEqual,
    Greater,
}

#[derive(Debug, PartialEq, Eq, PartialOrd, Ord)]
pub struct FunctionCall<T, Ref = NamespacedPolynomialReference<T>> {
    pub id: String,
    pub arguments: Vec<Expression<T, Ref>>,
}

#[derive(Debug, PartialEq, Eq, PartialOrd, Ord)]
pub struct MatchArm<T, Ref = NamespacedPolynomialReference<T>> {
    pub pattern: MatchPattern<T, Ref>,
    pub value: Expression<T, Ref>,
}

/// A pattern for a match arm. We could extend this in the future.
#[derive(Debug, PartialEq, Eq, PartialOrd, Ord)]
pub enum MatchPattern<T, Ref = NamespacedPolynomialReference<T>> {
    CatchAll,
    Pattern(Expression<T, Ref>),
}

/// The definition of a function (excluding its name):
#[derive(Debug, PartialEq, Eq, PartialOrd, Ord)]
pub enum FunctionDefinition<T> {
    /// Parameter-value-mapping.
    Mapping(Vec<String>, Expression<T>),
    /// Array expression.
    Array(ArrayExpression<T>),
    /// Prover query.
    Query(Vec<String>, Expression<T>),
    /// Expression, for intermediate polynomials
    Expression(Expression<T>),
}

#[derive(Debug, PartialEq, Eq, PartialOrd, Ord)]
pub enum ArrayExpression<T> {
    Value(Vec<Expression<T>>),
    RepeatedValue(Vec<Expression<T>>),
    Concat(Box<ArrayExpression<T>>, Box<ArrayExpression<T>>),
}

impl<T, Ref> core::ops::Add for Expression<T, Ref> {
    type Output = Expression<T, Ref>;

    fn add(self, rhs: Self) -> (r: Self::Output) {
        Self::new_binary(self, BinaryOperator::Add, rhs)
    }
}

impl<T, Ref> AddSpecImpl for Expression<T, Ref> {
    open spec fn obeys_add_spec() -> bool {
        true
    }

    open spec fn add_req(self, rhs: Self) -> bool {
        true
    }

    open spec fn add_spec(self, rhs: Self) -> Self {
        Expression::BinaryOperation(Box::new(self), BinaryOperator::Add, Box::new(rhs))
    }
}

impl<T, Ref> core::ops::Sub for Expression<T, Ref> {
    type Output = Expression<T, Ref>;

    fn sub(self, rhs: Self) -> (r: Self::Output) {
        Self::new_binary(self, BinaryOperator::Sub, rhs)
    }
}

impl<T, Ref> SubSpecImpl for Expression<T, Ref> {
    open spec fn obeys_sub_spec() -> bool {
        true
    }

    open spec fn sub_req(self, rhs: Self) -> bool {
        true
    }

    open spec fn sub_spec(self, rhs: Self) -> Self {
        Expression::BinaryOperation(Box::new(self), BinaryOperator::Sub, Box::new(rhs))
    }
}

impl<T, Ref> core::ops::Mul for Expression<T, Ref> {
    type Output = Expression<T, Ref>;

    fn mul(self, rhs: Self) -> (r: Self::Output) {
        Self::new_binary(self, BinaryOperator::Mul, rhs)
    }
}

impl<T, Ref> MulSpecImpl for Expression<T, Ref> {
    open spec fn obeys_mul_spec() -> bool {
        true
    }

    open spec fn mul_req(self, rhs: Self) -> bool {
        true
    }

    open spec fn mul_spec(self, rhs: Self) -> Self {
        Expression::BinaryOperation(Box::new(self), BinaryOperator::Mul, Box::new(rhs))
    }
}

impl<T: FieldElement, Ref> From<T> for Expression<T, Ref> {
    fn from(value: T) -> (r: Self) {
        Expression::Number(value)
    }
}

impl<T: FieldElement, Ref> FromSpecImpl<T> for Expression<T, Ref> {
    open spec fn obeys_from_spec() -> bool {
        true
    }

    open spec fn from_spec(value: T) -> Self {
        Expression::Number(value)
    }
}

impl<T> From<NamespacedPolynomialReference<T>> for Expression<T> {
    fn from(value: NamespacedPolynomialReference<T>) -> (r: Self) {
        Self::Reference(value)
    }
}

impl<T> FromSpecImpl<NamespacedPolynomialReference<T>> for Expression<T> {
    open spec fn obeys_from_spec() -> bool {
        true
    }

    open spec fn from_spec(value: NamespacedPolynomialReference<T>) -> Self {
        Expression::Reference(value)
    }
}

/// The sum of `items`, added from left to right: zero where there are none.
pub open spec fn sum_spec<T: FieldElement, Ref>(items: Seq<Expression<T, Ref>>) -> Expression<T, Ref>
    decreases items.len(),
{
    if items.len() == 0 {
        Expression::Number(T::from_u32_spec(0))
    } else if items.len() == 1 {
        items[0]
    } else {
        Expression::BinaryOperation(
            Box::new(sum_spec(items.drop_last())),
            BinaryOperator::Add,
            Box::new(items.last()),
        )
    }
}

impl<T: FieldElement, Ref> Expression<T, Ref> {
    /// Adds up `items` from left to right; the sum of no items is zero.
    pub fn sum(items: Vec<Self>) -> (r: Self)
        ensures
            r == sum_spec(items@),
    {
        let mut items = items;
        let ghost initial = items@;
        let mut reversed: Vec<Self> = Vec::new();
        while items.len() > 0
            invariant
                items@.len() + reversed@.len() == initial.len(),
                forall|k: int| 0 <= k < items@.len() ==> items@[k] == initial[k],
                forall|k: int| 0 <= k < reversed@.len() ==> #[trigger] reversed@[k]
                    == initial[initial.len() - 1 - k],
            decreases items@.len(),
        {
            let x = items.pop().unwrap();
            reversed.push(x);
        }
        let mut acc: Option<Self> = None;
        let ghost done: int = 0;
        while reversed.len() > 0
            invariant
                reversed@.len() + done == initial.len(),
                0 <= done <= initial.len(),
                forall|k: int| 0 <= k < reversed@.len() ==> #[trigger] reversed@[k]
                    == initial[initial.len() - 1 - k],
                done == 0 <==> acc is None,
                acc matches Some(a) ==> a == sum_spec(initial.take(done)),
            decreases reversed@.len(),
        {
            let x = reversed.pop().unwrap();
            proof {
                assert(x == initial[done]);
                assert(initial.take(done + 1).drop_last() =~= initial.take(done));
                assert(initial.take(done + 1).last() == x);
            }
            acc = match acc {
                None => {
                    assert(initial.take(1) =~= seq![x]);
                    Some(x)
                },
                Some(a) => Some(a + x),
            };
            proof {
                done = done + 1;
            }
        }
        assert(initial.take(done) =~= initial);
        match acc {
            Some(a) => a,
            None => Expression::Number(T::from_u32(0)),
        }
    }
}

/// All the expressions of `e` in the order in which a pre-order walk visits
/// them: `e` itself first, then the expressions below it, left to right.
pub open spec fn pre_order<T, Ref>(e: Expression<T, Ref>) -> Seq<Expression<T, Ref>>
    decreases e,
{
    seq![e] + match e {
        Expression::Tuple(items) => pre_order_list(items@),
        Expression::LambdaExpression(lambda) => pre_order(*lambda.body),
        Expression::ArrayLiteral(array) => pre_order_list(array.items@),
        Expression::BinaryOperation(left, _, right) => pre_order(*left) + pre_order(*right),
        Expression::UnaryOperation(_, inner) => pre_order(*inner),
        Expression::FunctionCall(call) => pre_order_list(call.arguments@),
        Expression::FreeInput(inner) => pre_order(*inner),
        Expression::MatchExpression(scrutinee, arms) => pre_order(*scrutinee) + pre_order_arms(
            arms@,
        ),
        _ => Seq::empty(),
    }
}

/// The pre-order walks of the expressions of `items`, one after the other.
pub open spec fn pre_order_list<T, Ref>(items: Seq<Expression<T, Ref>>) -> Seq<
    Expression<T, Ref>,
>
    decreases items,
{
    if items.len() == 0 {
        Seq::empty()
    } else {
        pre_order(items[0]) + pre_order_list(items.drop_first())
    }
}

/// The pre-order walks of the arms of a match: for each arm, its pattern
/// (where it is not the catch-all) and then its value.
pub open spec fn pre_order_arms<T, Ref>(arms: Seq<MatchArm<T, Ref>>) -> Seq<Expression<T, Ref>>
    decreases arms,
{
    if arms.len() == 0 {
        Seq::empty()
    } else {
        pre_order_pattern(arms[0].pattern) + pre_order(arms[0].value) + pre_order_arms(
            arms.drop_first(),
        )
    }
}

/// The pre-order walk of a match pattern: nothing for the catch-all.
pub open spec fn pre_order_pattern<T, Ref>(pattern: MatchPattern<T, Ref>) -> Seq<
    Expression<T, Ref>,
>
    decreases pattern,
{
    match pattern {
        MatchPattern::CatchAll => Seq::empty(),
        MatchPattern::Pattern(p) => pre_order(p),
    }
}


proof fn lemma_pre_order_list_reaches<T, Ref>(items: Seq<Expression<T, Ref>>, i: int)
    requires
        0 <= i < items.len(),
    ensures
        forall|x: Expression<T, Ref>|
            #[trigger] pre_order(items[i]).contains(x) ==> pre_order_list(items).contains(x),
    decreases items.len(),
{
    assert forall|x: Expression<T, Ref>| #[trigger]
        pre_order(items[i]).contains(x) implies pre_order_list(items).contains(x) by {
        let a = pre_order(items[0]);
        let b = pre_order_list(items.drop_first());
        if i == 0 {
            let p = choose|p: int| 0 <= p < a.len() && a[p] == x;
            assert((a + b)[p] == x);
        } else {
            lemma_pre_order_list_reaches(items.drop_first(), i - 1);
            assert(items.drop_first()[i - 1] == items[i]);
            let p = choose|p: int| 0 <= p < b.len() && b[p] == x;
            assert((a + b)[a.len() + p] == x);
        }
    }
}

proof fn lemma_pre_order_arms_reaches<T, Ref>(arms: Seq<MatchArm<T, Ref>>, i: int)
    requires
        0 <= i < arms.len(),
    ensures
        forall|x: Expression<T, Ref>|
            #[trigger] arm_reaches(arms[i], x) ==> pre_order_arms(arms).contains(x),
    decreases arms.len(),
{
    let a = pre_order_pattern(arms[0].pattern);
    let v = pre_order(arms[0].value);
    let b = pre_order_arms(arms.drop_first());
    if i > 0 {
        lemma_pre_order_arms_reaches(arms.drop_first(), i - 1);
        assert(arms.drop_first()[i - 1] == arms[i]);
    }
    assert forall|x: Expression<T, Ref>| #[trigger] arm_reaches(arms[i], x) implies pre_order_arms(
        arms,
    ).contains(x) by {
        if i == 0 {
            if a.contains(x) {
                let q = choose|q: int| 0 <= q < a.len() && a[q] == x;
                assert((a + v + b)[q] == x);
            } else {
                let q = choose|q: int| 0 <= q < v.len() && v[q] == x;
                assert((a + v + b)[a.len() + q] == x);
            }
        } else {
            assert(b.contains(x));
            let q = choose|q: int| 0 <= q < b.len() && b[q] == x;
            assert((a + v + b)[a.len() + v.len() + q] == x);
        }
    }
}

/// The walk of the pattern or of the value of `arm` reaches `x`.
pub open spec fn arm_reaches<T, Ref>(arm: MatchArm<T, Ref>, x: Expression<T, Ref>) -> bool {
    pre_order_pattern(arm.pattern).contains(x) || pre_order(arm.value).contains(x)
}

proof fn lemma_tail_reaches<A>(head: A, rest: Seq<A>, x: A)
    requires
        rest.contains(x),
    ensures
        (seq![head] + rest).contains(x),
{
    let q = choose|q: int| 0 <= q < rest.len() && rest[q] == x;
    assert((seq![head] + rest)[1 + q] == x);
}

proof fn lemma_pair_reaches<A>(a: Seq<A>, b: Seq<A>, x: A)
    requires
        a.contains(x) || b.contains(x),
    ensures
        (a + b).contains(x),
{
    if a.contains(x) {
        let q = choose|q: int| 0 <= q < a.len() && a[q] == x;
        assert((a + b)[q] == x);
    } else {
        let q = choose|q: int| 0 <= q < b.len() && b[q] == x;
        assert((a + b)[a.len() + q] == x);
    }
}

/// Something that the walk of one of the direct parts of `e` reaches: the
/// items of a tuple, an array literal or a call, the body of a lambda,
/// either operand of an operation, the operand of a unary operation or a
/// free input, the scrutinee of a match or the pattern or value of one of
/// its arms. A leaf has no parts.
pub open spec fn part_reaches<T, Ref>(e: Expression<T, Ref>, x: Expression<T, Ref>) -> bool {
    match e {
        Expression::Tuple(items) => exists|i: int|
            0 <= i < items@.len() && #[trigger] pre_order(items@[i]).contains(x),
        Expression::LambdaExpression(lambda) => pre_order(*lambda.body).contains(x),
        Expression::ArrayLiteral(array) => exists|i: int|
            0 <= i < array.items@.len() && #[trigger] pre_order(array.items@[i]).contains(x),
        Expression::BinaryOperation(left, _, right) => pre_order(*left).contains(x) || pre_order(
            *right,
        ).contains(x),
        Expression::UnaryOperation(_, inner) => pre_order(*inner).contains(x),
        Expression::FunctionCall(call) => exists|i: int|
            0 <= i < call.arguments@.len() && #[trigger] pre_order(call.arguments@[i]).contains(x),
        Expression::FreeInput(inner) => pre_order(*inner).contains(x),
        Expression::MatchExpression(scrutinee, arms) => pre_order(*scrutinee).contains(x)
            || exists|i: int| 0 <= i < arms@.len() && #[trigger] arm_reaches(arms@[i], x),
        _ => false,
    }
}

/// The walk of `e` starts at `e` and reaches everything that the walk of any
/// of its direct parts reaches, so every expression below `e`, at any
/// depth, is visited.
pub proof fn lemma_walk_reaches_every_part<T, Ref>(e: Expression<T, Ref>)
    ensures
        pre_order(e).len() > 0,
        pre_order(e)[0] == e,
        forall|x: Expression<T, Ref>| part_reaches(e, x) ==> #[trigger] pre_order(e).contains(x),
{
    assert forall|x: Expression<T, Ref>| part_reaches(e, x) implies #[trigger] pre_order(
        e,
    ).contains(x) by {
        match e {
            Expression::Tuple(items) => {
                let i = choose|i: int| 0 <= i < items@.len() && #[trigger] pre_order(items@[i]).contains(x);
                lemma_pre_order_list_reaches(items@, i);
                lemma_tail_reaches(e, pre_order_list(items@), x);
            },
            Expression::LambdaExpression(lambda) => {
                lemma_tail_reaches(e, pre_order(*lambda.body), x);
            },
            Expression::ArrayLiteral(array) => {
                let i = choose|i: int| 0 <= i < array.items@.len() && #[trigger] pre_order(array.items@[i]).contains(x);
                lemma_pre_order_list_reaches(array.items@, i);
                lemma_tail_reaches(e, pre_order_list(array.items@), x);
            },
            Expression::BinaryOperation(left, _, right) => {
                lemma_pair_reaches(pre_order(*left), pre_order(*right), x);
                lemma_tail_reaches(e, pre_order(*left) + pre_order(*right), x);
            },
            Expression::UnaryOperation(_, inner) => {
                lemma_tail_reaches(e, pre_order(*inner), x);
            },
            Expression::FunctionCall(call) => {
                let i = choose|i: int| 0 <= i < call.arguments@.len() && #[trigger] pre_order(call.arguments@[i]).contains(x);
                lemma_pre_order_list_reaches(call.arguments@, i);
                lemma_tail_reaches(e, pre_order_list(call.arguments@), x);
            },
            Expression::FreeInput(inner) => {
                lemma_tail_reaches(e, pre_order(*inner), x);
            },
            Expression::MatchExpression(scrutinee, arms) => {
                if !pre_order(*scrutinee).contains(x) {
                    let i = choose|i: int| 0 <= i < arms@.len() && #[trigger] arm_reaches(arms@[i], x);
                    lemma_pre_order_arms_reaches(arms@, i);
                }
                lemma_pair_reaches(pre_order(*scrutinee), pre_order_arms(arms@), x);
                lemma_tail_reaches(e, pre_order(*scrutinee) + pre_order_arms(arms@), x);
            },
            _ => {},
        }
    }
}

/// The walk of each kind of expression, constructor by constructor, reaches
/// what the walks of its parts reach.
pub proof fn lemma_walk_reaches_parts_by_constructor<T, Ref>()
    ensures
        forall|items: Vec<Expression<T, Ref>>, i: int, x: Expression<T, Ref>|
            #![trigger pre_order(items@[i]).contains(x), pre_order(Expression::Tuple(items))]
            0 <= i < items@.len() && pre_order(items@[i]).contains(x) ==> pre_order(
                Expression::Tuple(items),
            ).contains(x),
        forall|a: ArrayLiteral<T, Ref>, i: int, x: Expression<T, Ref>|
            #![trigger pre_order(a.items@[i]).contains(x), pre_order(Expression::ArrayLiteral(a))]
            0 <= i < a.items@.len() && pre_order(a.items@[i]).contains(x) ==> pre_order(
                Expression::ArrayLiteral(a),
            ).contains(x),
        forall|c: FunctionCall<T, Ref>, i: int, x: Expression<T, Ref>|
            #![trigger pre_order(c.arguments@[i]).contains(x), pre_order(Expression::FunctionCall(c))]
            0 <= i < c.arguments@.len() && pre_order(c.arguments@[i]).contains(x)
                ==> pre_order(Expression::FunctionCall(c)).contains(x),
        forall|l: LambdaExpression<T, Ref>, x: Expression<T, Ref>|
            pre_order(*l.body).contains(x) ==> #[trigger] pre_order(
                Expression::LambdaExpression(l),
            ).contains(x),
        forall|
            left: Box<Expression<T, Ref>>,
            op: BinaryOperator,
            right: Box<Expression<T, Ref>>,
            x: Expression<T, Ref>,
        |
            pre_order(*left).contains(x) || pre_order(*right).contains(x) ==> #[trigger] pre_order(
                Expression::BinaryOperation(left, op, right),
            ).contains(x),
        forall|op: UnaryOperator, inner: Box<Expression<T, Ref>>, x: Expression<T, Ref>|
            pre_order(*inner).contains(x) ==> #[trigger] pre_order(
                Expression::UnaryOperation(op, inner),
            ).contains(x),
        forall|inner: Box<Expression<T, Ref>>, x: Expression<T, Ref>|
            pre_order(*inner).contains(x) ==> #[trigger] pre_order(
                Expression::FreeInput(inner),
            ).contains(x),
        forall|
            scrutinee: Box<Expression<T, Ref>>,
            arms: Vec<MatchArm<T, Ref>>,
            i: int,
            x: Expression<T, Ref>,
        |
            #![trigger arms@[i], pre_order(Expression::MatchExpression(scrutinee, arms)).contains(x)]
            pre_order(*scrutinee).contains(x) || (0 <= i < arms@.len() && (pre_order(
                arms@[i].value,
            ).contains(x) || arms@[i].pattern == MatchPattern::Pattern(x))) ==> pre_order(
                Expression::MatchExpression(scrutinee, arms),
            ).contains(x),
{
    assert forall|items: Vec<Expression<T, Ref>>, i: int, x: Expression<T, Ref>|
            #![trigger pre_order(items@[i]).contains(x), pre_order(Expression::Tuple(items))]
        0 <= i < items@.len() && pre_order(items@[i]).contains(x) implies pre_order(
            Expression::Tuple(items),
        ).contains(x) by {
        lemma_walk_reaches_every_part(Expression::<T, Ref>::Tuple(items));
        assert(part_reaches(Expression::<T, Ref>::Tuple(items), x));
    }
    assert forall|a: ArrayLiteral<T, Ref>, i: int, x: Expression<T, Ref>|
            #![trigger pre_order(a.items@[i]).contains(x), pre_order(Expression::ArrayLiteral(a))]
        0 <= i < a.items@.len() && pre_order(a.items@[i]).contains(x) implies pre_order(
            Expression::ArrayLiteral(a),
        ).contains(x) by {
        lemma_walk_reaches_every_part(Expression::<T, Ref>::ArrayLiteral(a));
        assert(part_reaches(Expression::<T, Ref>::ArrayLiteral(a), x));
    }
    assert forall|c: FunctionCall<T, Ref>, i: int, x: Expression<T, Ref>|
            #![trigger pre_order(c.arguments@[i]).contains(x), pre_order(Expression::FunctionCall(c))]
        0 <= i < c.arguments@.len() && pre_order(c.arguments@[i]).contains(x)
            implies pre_order(Expression::FunctionCall(c)).contains(x) by {
        lemma_walk_reaches_every_part(Expression::<T, Ref>::FunctionCall(c));
        assert(part_reaches(Expression::<T, Ref>::FunctionCall(c), x));
    }
    assert forall|l: LambdaExpression<T, Ref>, x: Expression<T, Ref>|
        pre_order(*l.body).contains(x) implies #[trigger] pre_order(
            Expression::LambdaExpression(l),
        ).contains(x) by {
        lemma_walk_reaches_every_part(Expression::<T, Ref>::LambdaExpression(l));
    }
    assert forall|
        left: Box<Expression<T, Ref>>,
        op: BinaryOperator,
        right: Box<Expression<T, Ref>>,
        x: Expression<T, Ref>,
    |
        pre_order(*left).contains(x) || pre_order(*right).contains(x) implies #[trigger] pre_order(
            Expression::BinaryOperation(left, op, right),
        ).contains(x) by {
        lemma_walk_reaches_every_part(Expression::<T, Ref>::BinaryOperation(left, op, right));
    }
    assert forall|op: UnaryOperator, inner: Box<Expression<T, Ref>>, x: Expression<T, Ref>|
        pre_order(*inner).contains(x) implies #[trigger] pre_order(
            Expression::UnaryOperation(op, inner),
        ).contains(x) by {
        lemma_walk_reaches_every_part(Expression::<T, Ref>::UnaryOperation(op, inner));
    }
    assert forall|inner: Box<Expression<T, Ref>>, x: Expression<T, Ref>|
        pre_order(*inner).contains(x) implies #[trigger] pre_order(
            Expression::FreeInput(inner),
        ).contains(x) by {
        lemma_walk_reaches_every_part(Expression::<T, Ref>::FreeInput(inner));
    }
    assert forall|
        scrutinee: Box<Expression<T, Ref>>,
        arms: Vec<MatchArm<T, Ref>>,
        i: int,
        x: Expression<T, Ref>,
    |
        #![trigger arms@[i], pre_order(Expression::MatchExpression(scrutinee, arms)).contains(x)]
        pre_order(*scrutinee).contains(x) || (0 <= i < arms@.len() && (pre_order(
            arms@[i].value,
        ).contains(x) || arms@[i].pattern == MatchPattern::Pattern(x))) implies pre_order(
            Expression::MatchExpression(scrutinee, arms),
        ).contains(x) by {
        let e = Expression::<T, Ref>::MatchExpression(scrutinee, arms);
        lemma_walk_reaches_every_part(e);
        if !pre_order(*scrutinee).contains(x) {
            if arms@[i].pattern == MatchPattern::Pattern(x) {
                lemma_walk_reaches_every_part(x);
                assert(pre_order(x)[0] == x);
                assert(pre_order_pattern(arms@[i].pattern).contains(x));
            }
            assert(arm_reaches(arms@[i], x));
            assert(part_reaches(e, x));
        }
    }
}

/// `f` may answer `b` on `e`.
pub open spec fn answers<A, F: FnMut(&A) -> bool>(f: F, e: A, b: bool) -> bool {
    call_ensures(f, (&e,), b)
}

/// `f` may answer `false` on each element of `s`.
pub open spec fn all_false<A, F: FnMut(&A) -> bool>(f: F, s: Seq<A>) -> bool {
    forall|i: int| 0 <= i < s.len() ==> #[trigger] answers(f, s[i], false)
}

/// Some element of `s` is one on which `f` may answer `true`, and `f` may
/// answer `false` on every element before it.
pub open spec fn first_true<A, F: FnMut(&A) -> bool>(f: F, s: Seq<A>) -> bool {
    exists|i: int|
        0 <= i < s.len() && #[trigger] answers(f, s[i], true) && all_false(f, s.take(i))
}

/// For a function that answers each expression in exactly one way, `any`'s
/// two outcomes mean: some expression of the walk is one on which `f`
/// answers `true`, or none is.
pub proof fn lemma_any_of_deterministic<A, F: FnMut(&A) -> bool>(f: F, s: Seq<A>)
    requires
        forall|e: A| #[trigger] answers(f, e, true) || answers(f, e, false),
        forall|e: A| !(#[trigger] answers(f, e, true) && answers(f, e, false)),
    ensures
        first_true(f, s) <==> exists|i: int| 0 <= i < s.len() && #[trigger] answers(f, s[i], true),
        all_false(f, s) <==> !exists|i: int| 0 <= i < s.len() && #[trigger] answers(f, s[i], true),
{
    if exists|i: int| 0 <= i < s.len() && #[trigger] answers(f, s[i], true) {
        let j = choose|j: int| 0 <= j < s.len() && #[trigger] answers(f, s[j], true);
        lemma_first_answer_true(f, s, j);
        assert(!answers(f, s[j], false));
    } else {
        assert forall|i: int| 0 <= i < s.len() implies #[trigger] answers(f, s[i], false) by {
            assert(answers(f, s[i], true) || answers(f, s[i], false));
        }
    }
}

proof fn lemma_first_answer_true<A, F: FnMut(&A) -> bool>(f: F, s: Seq<A>, j: int)
    requires
        forall|e: A| #[trigger] answers(f, e, true) || answers(f, e, false),
        0 <= j < s.len(),
        answers(f, s[j], true),
    ensures
        first_true(f, s),
    decreases j,
{
    if all_false(f, s.take(j)) {
        assert(0 <= j < s.len() && answers(f, s[j], true) && all_false(f, s.take(j)));
    } else {
        let k = choose|k: int| 0 <= k < s.take(j).len() && !#[trigger] answers(f, s.take(j)[k], false);
        assert(s.take(j)[k] == s[k]);
        assert(answers(f, s[k], true));
        lemma_first_answer_true(f, s, k);
    }
}

proof fn lemma_all_false_concat<A, F: FnMut(&A) -> bool>(f: F, a: Seq<A>, b: Seq<A>)
    requires
        all_false(f, a),
        all_false(f, b),
    ensures
        all_false(f, a + b),
{
    assert forall|i: int| 0 <= i < (a + b).len() implies #[trigger] answers(f, (a + b)[i], false) by {
        if i < a.len() {
            assert((a + b)[i] == a[i]);
        } else {
            assert((a + b)[i] == b[i - a.len()]);
        }
    }
}

proof fn lemma_first_true_concat<A, F: FnMut(&A) -> bool>(f: F, a: Seq<A>, b: Seq<A>)
    requires
        first_true(f, a) || (all_false(f, a) && first_true(f, b)),
    ensures
        first_true(f, a + b),
{
    if first_true(f, a) {
        let i = choose|i: int|
            0 <= i < a.len() && #[trigger] answers(f, a[i], true) && all_false(f, a.take(i));
        assert((a + b).take(i) =~= a.take(i));
        assert((a + b)[i] == a[i]);
    } else {
        let j = choose|j: int|
            0 <= j < b.len() && #[trigger] answers(f, b[j], true) && all_false(f, b.take(j));
        let i = a.len() + j;
        assert((a + b).take(i) =~= a + b.take(j));
        lemma_all_false_concat(f, a, b.take(j));
        assert((a + b)[i] == b[j]);
    }
}

proof fn lemma_pre_order_list_concat<T, Ref>(a: Seq<Expression<T, Ref>>, b: Seq<Expression<T, Ref>>)
    ensures
        pre_order_list(a + b) == pre_order_list(a) + pre_order_list(b),
    decreases a.len(),
{
    if a.len() == 0 {
        assert(a + b =~= b);
        assert(pre_order_list(a) + pre_order_list(b) =~= pre_order_list(b));
    } else {
        assert((a + b).drop_first() =~= a.drop_first() + b);
        assert((a + b)[0] == a[0]);
        lemma_pre_order_list_concat(a.drop_first(), b);
        assert(pre_order_list(a + b) =~= pre_order_list(a) + pre_order_list(b));
    }
}

proof fn lemma_pre_order_list_single<T, Ref>(e: Expression<T, Ref>)
    ensures
        pre_order_list(seq![e]) == pre_order(e),
{
    let empty = Seq::<Expression<T, Ref>>::empty();
    assert(seq![e].drop_first() =~= empty);
    assert(seq![e][0] == e);
    assert(pre_order_list(empty) == empty);
    assert(pre_order_list(seq![e]) =~= pre_order(e) + empty);
}

proof fn lemma_pre_order_arms_concat<T, Ref>(a: Seq<MatchArm<T, Ref>>, b: Seq<MatchArm<T, Ref>>)
    ensures
        pre_order_arms(a + b) == pre_order_arms(a) + pre_order_arms(b),
    decreases a.len(),
{
    if a.len() == 0 {
        assert(a + b =~= b);
        assert(pre_order_arms(a) + pre_order_arms(b) =~= pre_order_arms(b));
    } else {
        assert((a + b).drop_first() =~= a.drop_first() + b);
        assert((a + b)[0] == a[0]);
        lemma_pre_order_arms_concat(a.drop_first(), b);
        assert(pre_order_arms(a + b) =~= pre_order_arms(a) + pre_order_arms(b));
    }
}

proof fn lemma_pre_order_arms_single<T, Ref>(arm: MatchArm<T, Ref>)
    ensures
        pre_order_arms(seq![arm]) == pre_order_pattern(arm.pattern) + pre_order(arm.value),
{
    let empty = Seq::<MatchArm<T, Ref>>::empty();
    assert(seq![arm].drop_first() =~= empty);
    assert(seq![arm][0] == arm);
    assert(pre_order_arms(empty) == Seq::<Expression<T, Ref>>::empty());
    assert(pre_order_arms(seq![arm]) =~= pre_order_pattern(arm.pattern) + pre_order(arm.value)
        + Seq::<Expression<T, Ref>>::empty());
}

impl<T, Ref> Expression<T, Ref> {
    pub fn new_binary(left: Self, op: BinaryOperator, right: Self) -> (e: Self)
        ensures
            e == Expression::BinaryOperation(Box::new(left), op, Box::new(right)),
    {
        Expression::BinaryOperation(Box::new(left), op, Box::new(right))
    }

    /// Visits this expression and all of its sub-expressions and returns true
    /// if `f` returns true on any of them.
    ///
    /// The walk is pre-order and stops at the first expression on which `f`
    /// returns true.
    pub fn any(&self, f: impl FnMut(&Self) -> bool) -> (r: bool)
        requires
            forall|e: &Self| call_requires(f, (e,)),
        ensures
            r ==> first_true(f, pre_order(*self)),
            !r ==> all_false(f, pre_order(*self)),
    {
        let mut f = f;
        self.visit_any(&mut f)
    }

    fn visit_any<F: FnMut(&Self) -> bool>(&self, f: &mut F) -> (r: bool)
        requires
            forall|e: &Self| call_requires(*old(f), (e,)),
        ensures
            *final(f) == *old(f),
            r ==> first_true(*old(f), pre_order(*self)),
            !r ==> all_false(*old(f), pre_order(*self)),
        decreases self,
    {
        let ghost g = *f;
        let ghost whole = pre_order(*self);
        if f(self) {
            proof {
                assert(whole[0] == *self);
                assert(answers(g, whole[0], true));
                assert(all_false(g, whole.take(0)));
            }
            return true;
        }
        assert(answers(g, *self, false));
        assert(all_false(g, seq![*self]));
        let ghost rest = whole.drop_first();
        assert(whole =~= seq![*self] + rest);
        let r = match self {
            Expression::Tuple(items) => {
                assert(rest =~= pre_order_list(items@));
                Self::visit_list(items, f)
            },
            Expression::LambdaExpression(lambda) => {
                assert(rest =~= pre_order(*lambda.body));
                lambda.body.visit_any(f)
            },
            Expression::ArrayLiteral(array) => {
                assert(rest =~= pre_order_list(array.items@));
                Self::visit_list(&array.items, f)
            },
            Expression::BinaryOperation(left, _, right) => {
                assert(rest =~= pre_order(**left) + pre_order(**right));
                if left.visit_any(f) {
                    proof { lemma_first_true_concat(g, pre_order(**left), pre_order(**right)); }
                    true
                } else {
                    let r = right.visit_any(f);
                    proof {
                        if r {
                            lemma_first_true_concat(g, pre_order(**left), pre_order(**right));
                        } else {
                            lemma_all_false_concat(g, pre_order(**left), pre_order(**right));
                        }
                    }
                    r
                }
            },
            Expression::UnaryOperation(_, inner) => {
                assert(rest =~= pre_order(**inner));
                inner.visit_any(f)
            },
            Expression::FunctionCall(call) => {
                assert(rest =~= pre_order_list(call.arguments@));
                Self::visit_list(&call.arguments, f)
            },
            Expression::FreeInput(inner) => {
                assert(rest =~= pre_order(**inner));
                inner.visit_any(f)
            },
            Expression::MatchExpression(scrutinee, arms) => {
                assert(rest =~= pre_order(**scrutinee) + pre_order_arms(arms@));
                if scrutinee.visit_any(f) {
                    proof { lemma_first_true_concat(g, pre_order(**scrutinee), pre_order_arms(arms@)); }
                    true
                } else {
                    let r = Self::visit_arms(arms, f);
                    proof {
                        if r {
                            lemma_first_true_concat(g, pre_order(**scrutinee), pre_order_arms(arms@));
                        } else {
                            lemma_all_false_concat(g, pre_order(**scrutinee), pre_order_arms(arms@));
                        }
                    }
                    r
                }
            },
            _ => {
                assert(rest =~= Seq::<Self>::empty());
                false
            },
        };
        proof {
            if r {
                lemma_first_true_concat(g, seq![*self], rest);
            } else {
                lemma_all_false_concat(g, seq![*self], rest);
            }
        }
        r
    }

    fn visit_list<F: FnMut(&Self) -> bool>(items: &Vec<Self>, f: &mut F) -> (r: bool)
        requires
            forall|e: &Self| call_requires(*old(f), (e,)),
        ensures
            *final(f) == *old(f),
            r ==> first_true(*old(f), pre_order_list(items@)),
            !r ==> all_false(*old(f), pre_order_list(items@)),
        decreases items,
    {
        let ghost g = *f;
        let mut i: usize = 0;
        proof {
            assert(items@.take(0) =~= Seq::<Self>::empty());
            assert(all_false(g, pre_order_list(items@.take(0))));
        }
        while i < items.len()
            invariant
                i <= items@.len(),
                *f == g,
                g == *old(f),
                forall|e: &Self| call_requires(g, (e,)),
                all_false(g, pre_order_list(items@.take(i as int))),
            decreases items@.len() - i,
        {
            proof {
                assert(decreases_to!(items => items@));
                assert(decreases_to!(items@ => items@[i as int]));
            }
            let found = items[i].visit_any(f);
            proof {
                lemma_pre_order_list_concat(items@.take(i as int), seq![items@[i as int]]);
                lemma_pre_order_list_single(items@[i as int]);
                assert(items@.take(i as int) + seq![items@[i as int]] =~= items@.take(i + 1));
            }
            if found {
                proof {
                    let done = items@.take(i + 1);
                    lemma_first_true_concat(g, pre_order_list(items@.take(i as int)), pre_order(items@[i as int]));
                    lemma_pre_order_list_concat(done, items@.skip(i + 1));
                    assert(done + items@.skip(i + 1) =~= items@);
                    lemma_first_true_concat(g, pre_order_list(done), pre_order_list(items@.skip(i + 1)));
                }
                return true;
            }
            proof {
                lemma_all_false_concat(g, pre_order_list(items@.take(i as int)), pre_order(items@[i as int]));
            }
            i = i + 1;
        }
        assert(items@.take(i as int) =~= items@);
        false
    }

    fn visit_arms<F: FnMut(&Self) -> bool>(arms: &Vec<MatchArm<T, Ref>>, f: &mut F) -> (r: bool)
        requires
            forall|e: &Self| call_requires(*old(f), (e,)),
        ensures
            *final(f) == *old(f),
            r ==> first_true(*old(f), pre_order_arms(arms@)),
            !r ==> all_false(*old(f), pre_order_arms(arms@)),
        decreases arms,
    {
        let ghost g = *f;
        let mut i: usize = 0;
        proof {
            assert(arms@.take(0) =~= Seq::<MatchArm<T, Ref>>::empty());
            assert(all_false(g, pre_order_arms(arms@.take(0))));
        }
        while i < arms.len()
            invariant
                i <= arms@.len(),
                *f == g,
                g == *old(f),
                forall|e: &Self| call_requires(g, (e,)),
                all_false(g, pre_order_arms(arms@.take(i as int))),
            decreases arms@.len() - i,
        {
            let arm = &arms[i];
            let ghost pattern_part = pre_order_pattern(arm.pattern);
            proof {
                assert(decreases_to!(arms => arms@));
                assert(decreases_to!(arms@ => arms@[i as int]));
                lemma_pre_order_arms_concat(arms@.take(i as int), seq![arms@[i as int]]);
                lemma_pre_order_arms_single(arms@[i as int]);
                assert(arms@.take(i as int) + seq![arms@[i as int]] =~= arms@.take(i + 1));
            }
            let in_pattern = match &arm.pattern {
                MatchPattern::CatchAll => {
                    assert(all_false(g, pattern_part));
                    false
                },
                MatchPattern::Pattern(p) => p.visit_any(f),
            };
            let found = if in_pattern {
                proof { lemma_first_true_concat(g, pattern_part, pre_order(arm.value)); }
                true
            } else {
                let found_value = arm.value.visit_any(f);
                proof {
                    if found_value {
                        lemma_first_true_concat(g, pattern_part, pre_order(arm.value));
                    } else {
                        lemma_all_false_concat(g, pattern_part, pre_order(arm.value));
                    }
                }
                found_value
            };
            let ghost this_arm = pattern_part + pre_order(arm.value);
            if found {
                proof {
                    let done = arms@.take(i + 1);
                    lemma_first_true_concat(g, pre_order_arms(arms@.take(i as int)), this_arm);
                    lemma_pre_order_arms_concat(done, arms@.skip(i + 1));
                    assert(done + arms@.skip(i + 1) =~= arms@);
                    lemma_first_true_concat(g, pre_order_arms(done), pre_order_arms(arms@.skip(i + 1)));
                }
                return true;
            }
            proof {
                lemma_all_false_concat(g, pre_order_arms(arms@.take(i as int)), this_arm);
            }
            i = i + 1;
        }
        assert(arms@.take(i as int) =~= arms@);
        false
    }
}

impl<T> NamespacedPolynomialReference<T> {
    /// The optional namespace of this polynomial.
    pub closed spec fn namespace_spec(self) -> Option<String> {
        self.namespace
    }

    /// The underlying polynomial, with its optional index.
    pub closed spec fn pol_spec(self) -> IndexedPolynomialReference<T> {
        self.pol
    }

    /// Returns the optional namespace of this polynomial
    pub fn namespace(&self) -> (r: &Option<String>)
        ensures
            *r == self.namespace_spec(),
    {
        &self.namespace
    }

    /// Returns the optional index of the underlying polynomial in its declaration array
    pub fn index(&self) -> (r: &Option<Box<Expression<T>>>)
        ensures
            *r == self.pol_spec().index_spec(),
    {
        self.pol.index()
    }

    /// Returns the name of the declared polynomial or array of polynomials
    pub fn name(&self) -> (r: &str)
        ensures
            r@ == self.pol_spec().pol_spec().name_view(),
    {
        self.pol.name()
    }

    /// Returns a mutable reference to the declared polynomial or array of polynomials
    pub fn name_mut(&mut self) -> (r: &mut String)
        ensures
            (*r)@ == old(self).pol_spec().pol_spec().name_view(),
            final(self).namespace_spec() == old(self).namespace_spec(),
            final(self).pol_spec().index_spec() == old(self).pol_spec().index_spec(),
            final(self).pol_spec().pol_spec().name_view() == (*final(r))@,
    {
        self.pol.name_mut()
    }
}

impl<T> IndexedPolynomialReference<T> {
    /// The optional index of this polynomial in its declaration array.
    pub closed spec fn index_spec(self) -> Option<Box<Expression<T>>> {
        self.index
    }

    /// The declared polynomial or array of polynomials.
    pub closed spec fn pol_spec(self) -> PolynomialReference {
        self.pol
    }

    /// Return a namespaced polynomial based on this polynomial and an optional namespace
    pub fn with_namespace(self, namespace: Option<String>) -> (r: NamespacedPolynomialReference<T>)
        ensures
            r.pol_spec() == self,
            r.namespace_spec() == namespace,
    {
        NamespacedPolynomialReference { pol: self, namespace }
    }

    /// Returns a mutable reference to the name of the declared polynomial or array of polynomials
    pub fn name_mut(&mut self) -> (r: &mut String)
        ensures
            (*r)@ == old(self).pol_spec().name_view(),
            final(self).index_spec() == old(self).index_spec(),
            final(self).pol_spec().name_view() == (*final(r))@,
    {
        self.pol.name_mut()
    }

    /// Returns the optional index of this polynomial in its declaration array
    pub fn index(&self) -> (r: &Option<Box<Expression<T>>>)
        ensures
            *r == self.index_spec(),
    {
        &self.index
    }

    /// Returns the name of the declared polynomial or array of polynomials
    pub fn name(&self) -> (r: &str)
        ensures
            r@ == self.pol_spec().name_view(),
    {
        self.pol.name()
    }

    /// Return a namespaced polynomial based on this polynomial and a namespace
    pub fn namespaced(self, namespace: String) -> (r: NamespacedPolynomialReference<T>)
        ensures
            r.pol_spec() == self,
            r.namespace_spec() == Some(namespace),
    {
        self.with_namespace(Some(namespace))
    }

    /// Return a namespaced polynomial based on this polynomial and no namespace, defaulting to the closest enclosing namespace, if any
    pub fn local(self) -> (r: NamespacedPolynomialReference<T>)
        ensures
            r.pol_spec() == self,
            r.namespace_spec() is None,
    {
        self.with_namespace(None)
    }
}

impl PolynomialReference {
    /// The name of this polynomial or array of polynomials.
    pub closed spec fn name_view(self) -> Seq<char> {
        self.name@
    }

    /// Returns an indexed polynomial using this polynomial and an optional index
    pub fn with_index<T>(self, index: Option<Expression<T>>) -> (r: IndexedPolynomialReference<T>)
        ensures
            r.pol_spec() == self,
            r.index_spec() == match index {
                Some(e) => Some(Box::new(e)),
                None => None::<Box<Expression<T>>>,
            },
    {
        IndexedPolynomialReference {
            pol: self,
            index: match index {
                Some(e) => Some(Box::new(e)),
                None => None,
            },
        }
    }

    /// Returns the name of this polynomial or array of polynomials
    pub fn name(&self) -> (r: &str)
        ensures
            r@ == self.name_view(),
    {
        self.name.as_str()
    }

    /// Returns a mutable reference to the name of this polynomial or array of polynomials
    pub fn name_mut(&mut self) -> (r: &mut String)
        ensures
            (*r)@ == old(self).name_view(),
            final(self).name_view() == (*final(r))@,
    {
        &mut self.name
    }

    /// The name of this polynomial or array of polynomials, as a string.
    pub closed spec fn name_string(self) -> String {
        self.name
    }

    /// Returns a new polynomial or array of polynomials given a name
    pub fn new<S: Into<String>>(name: S) -> (r: Self)
        ensures
            call_ensures(S::into, (name,), r.name_string()),
            r.name_view() == r.name_string()@,
    {
        let into = S::into;
        Self { name: into(name) }
    }

    /// Returns an indexed polynomial using this polynomial and an index. Used for polynomial array members.
    pub fn indexed<T>(self, index: Expression<T>) -> (r: IndexedPolynomialReference<T>)
        ensures
            r.pol_spec() == self,
            r.index_spec() == Some(Box::new(index)),
    {
        self.with_index(Some(index))
    }

    /// Returns an indexed polynomial using this polynomial and an index. Used for polynomials which are not declared in arrays.
    pub fn single<T>(self) -> (r: IndexedPolynomialReference<T>)
        ensures
            r.pol_spec() == self,
            r.index_spec() is None,
    {
        self.with_index(None)
    }
}

impl UnaryOperator {
    /// Returns true if the operator is a prefix-operator and false if it is a postfix operator.
    pub fn is_prefix(&self) -> (r: bool)
        ensures
            r == !(*self is Next),
    {
        match self {
            UnaryOperator::Plus | UnaryOperator::Minus | UnaryOperator::LogicalNot => true,
            UnaryOperator::Next => false,
        }
    }
}

/// `a` and `b` are the same expression: they have the same shape, the same
/// numbers and operators, and strings with the same characters.
pub open spec fn same_expr<T>(a: Expression<T>, b: Expression<T>) -> bool
    decreases a,
{
    match a {
        Expression::Reference(r) => b matches Expression::Reference(s) && same_namespaced(r, s),
        Expression::PublicReference(n) => b matches Expression::PublicReference(m) && n@ == m@,
        Expression::Number(x) => b matches Expression::Number(y) && x == y,
        Expression::String(x) => b matches Expression::String(y) && x@ == y@,
        Expression::Tuple(items) => b matches Expression::Tuple(others) && same_list(
            items@,
            others@,
        ),
        Expression::LambdaExpression(l) => b matches Expression::LambdaExpression(m) && same_strings(
            l.params@,
            m.params@,
        ) && same_expr(*l.body, *m.body),
        Expression::ArrayLiteral(x) => b matches Expression::ArrayLiteral(y) && same_list(
            x.items@,
            y.items@,
        ),
        Expression::BinaryOperation(l, op, r) => b matches Expression::BinaryOperation(l2, op2, r2)
            && op == op2 && same_expr(*l, *l2) && same_expr(*r, *r2),
        Expression::UnaryOperation(op, e) => b matches Expression::UnaryOperation(op2, e2) && op
            == op2 && same_expr(*e, *e2),
        Expression::FunctionCall(c) => b matches Expression::FunctionCall(d) && c.id@ == d.id@
            && same_list(c.arguments@, d.arguments@),
        Expression::FreeInput(e) => b matches Expression::FreeInput(e2) && same_expr(*e, *e2),
        Expression::MatchExpression(e, arms) => b matches Expression::MatchExpression(e2, arms2)
            && same_expr(*e, *e2) && same_arms(arms@, arms2@),
    }
}

/// Element by element, `a` and `b` hold the same expressions.
pub open spec fn same_list<T>(a: Seq<Expression<T>>, b: Seq<Expression<T>>) -> bool
    decreases a,
{
    &&& a.len() == b.len()
    &&& a.len() > 0 ==> same_expr(a[0], b[0]) && same_list(a.drop_first(), b.drop_first())
}

/// Arm by arm, `a` and `b` hold the same patterns and values.
pub open spec fn same_arms<T>(a: Seq<MatchArm<T>>, b: Seq<MatchArm<T>>) -> bool
    decreases a,
{
    &&& a.len() == b.len()
    &&& a.len() > 0 ==> same_pattern(a[0].pattern, b[0].pattern) && same_expr(a[0].value, b[0].value)
        && same_arms(a.drop_first(), b.drop_first())
}

pub open spec fn same_pattern<T>(a: MatchPattern<T>, b: MatchPattern<T>) -> bool
    decreases a,
{
    match a {
        MatchPattern::CatchAll => b is CatchAll,
        MatchPattern::Pattern(e) => b matches MatchPattern::Pattern(f) && same_expr(e, f),
    }
}

/// `a` and `b` name the same polynomial, with the same namespace and index.
pub open spec fn same_namespaced<T>(
    a: NamespacedPolynomialReference<T>,
    b: NamespacedPolynomialReference<T>,
) -> bool
    decreases a,
{
    &&& same_optional_string(a.namespace_spec(), b.namespace_spec())
    &&& same_indexed(a.pol_spec(), b.pol_spec())
}

pub open spec fn same_indexed<T>(
    a: IndexedPolynomialReference<T>,
    b: IndexedPolynomialReference<T>,
) -> bool
    decreases a,
{
    &&& a.pol_spec().name_view() == b.pol_spec().name_view()
    &&& match a.index_spec() {
        None => b.index_spec() is None,
        Some(i) => b.index_spec() matches Some(j) && same_expr(*i, *j),
    }
}

pub open spec fn same_optional_string(a: Option<String>, b: Option<String>) -> bool {
    match a {
        None => b is None,
        Some(x) => b matches Some(y) && x@ == y@,
    }
}

/// Element by element, `a` and `b` hold strings with the same characters.
pub open spec fn same_strings(a: Seq<String>, b: Seq<String>) -> bool {
    &&& a.len() == b.len()
    &&& forall|i: int| 0 <= i < a.len() ==> (#[trigger] a[i])@ == b[i]@
}

proof fn lemma_same_list_push<T>(a: Seq<Expression<T>>, b: Seq<Expression<T>>, x: Expression<T>, y: Expression<T>)
    requires
        same_list(a, b),
        same_expr(x, y),
    ensures
        same_list(a.push(x), b.push(y)),
    decreases a.len(),
{
    if a.len() > 0 {
        assert(a.push(x).drop_first() =~= a.drop_first().push(x));
        assert(b.push(y).drop_first() =~= b.drop_first().push(y));
        assert(a.push(x)[0] == a[0]);
        assert(b.push(y)[0] == b[0]);
        lemma_same_list_push(a.drop_first(), b.drop_first(), x, y);
    } else {
        assert(a.push(x).drop_first() =~= Seq::<Expression<T>>::empty());
        assert(b.push(y).drop_first() =~= Seq::<Expression<T>>::empty());
        assert(a.push(x)[0] == x);
        assert(b.push(y)[0] == y);
        assert(same_list(Seq::<Expression<T>>::empty(), Seq::<Expression<T>>::empty()));
    }
}

proof fn lemma_same_arms_push<T>(a: Seq<MatchArm<T>>, b: Seq<MatchArm<T>>, x: MatchArm<T>, y: MatchArm<T>)
    requires
        same_arms(a, b),
        same_pattern(x.pattern, y.pattern),
        same_expr(x.value, y.value),
    ensures
        same_arms(a.push(x), b.push(y)),
    decreases a.len(),
{
    if a.len() > 0 {
        assert(a.push(x).drop_first() =~= a.drop_first().push(x));
        assert(b.push(y).drop_first() =~= b.drop_first().push(y));
        assert(a.push(x)[0] == a[0]);
        assert(b.push(y)[0] == b[0]);
        lemma_same_arms_push(a.drop_first(), b.drop_first(), x, y);
    } else {
        assert(a.push(x).drop_first() =~= Seq::<MatchArm<T>>::empty());
        assert(b.push(y).drop_first() =~= Seq::<MatchArm<T>>::empty());
        assert(a.push(x)[0] == x);
        assert(b.push(y)[0] == y);
        assert(same_arms(Seq::<MatchArm<T>>::empty(), Seq::<MatchArm<T>>::empty()));
    }
}

fn copy_strings(v: &Vec<String>) -> (r: Vec<String>)
    ensures
        same_strings(v@, r@),
{
    let mut r: Vec<String> = Vec::new();
    let mut i: usize = 0;
    while i < v.len()
        invariant
            i <= v@.len(),
            r@.len() == i,
            forall|k: int| 0 <= k < i ==> (#[trigger] r@[k])@ == v@[k]@,
        decreases v@.len() - i,
    {
        r.push(v[i].clone());
        i = i + 1;
    }
    r
}

fn copy_expr<T: Copy>(e: &Expression<T>) -> (r: Expression<T>)
    ensures
        same_expr(*e, r),
    decreases e,
{
    match e {
        Expression::Reference(r) => Expression::Reference(copy_namespaced(r)),
        Expression::PublicReference(n) => Expression::PublicReference(n.clone()),
        Expression::Number(x) => Expression::Number(*x),
        Expression::String(x) => Expression::String(x.clone()),
        Expression::Tuple(items) => Expression::Tuple(copy_list(items)),
        Expression::LambdaExpression(l) => Expression::LambdaExpression(
            LambdaExpression { params: copy_strings(&l.params), body: Box::new(copy_expr(&l.body)) },
        ),
        Expression::ArrayLiteral(a) => Expression::ArrayLiteral(
            ArrayLiteral { items: copy_list(&a.items) },
        ),
        Expression::BinaryOperation(l, op, r) => Expression::BinaryOperation(
            Box::new(copy_expr(l)),
            *op,
            Box::new(copy_expr(r)),
        ),
        Expression::UnaryOperation(op, inner) => Expression::UnaryOperation(
            *op,
            Box::new(copy_expr(inner)),
        ),
        Expression::FunctionCall(c) => Expression::FunctionCall(
            FunctionCall { id: c.id.clone(), arguments: copy_list(&c.arguments) },
        ),
        Expression::FreeInput(inner) => Expression::FreeInput(Box::new(copy_expr(inner))),
        Expression::MatchExpression(scrutinee, arms) => Expression::MatchExpression(
            Box::new(copy_expr(scrutinee)),
            copy_arms(arms),
        ),
    }
}

fn copy_list<T: Copy>(v: &Vec<Expression<T>>) -> (r: Vec<Expression<T>>)
    ensures
        same_list(v@, r@),
    decreases v,
{
    let mut r: Vec<Expression<T>> = Vec::new();
    let mut i: usize = 0;
    proof {
        assert(v@.take(0) =~= Seq::<Expression<T>>::empty());
    }
    while i < v.len()
        invariant
            i <= v@.len(),
            same_list(v@.take(i as int), r@),
        decreases v@.len() - i,
    {
        proof {
            assert(decreases_to!(v => v@));
            assert(decreases_to!(v@ => v@[i as int]));
        }
        let c = copy_expr(&v[i]);
        proof {
            lemma_same_list_push(v@.take(i as int), r@, v@[i as int], c);
            assert(v@.take(i as int).push(v@[i as int]) =~= v@.take(i + 1));
        }
        r.push(c);
        i = i + 1;
    }
    assert(v@.take(i as int) =~= v@);
    r
}

fn copy_arms<T: Copy>(v: &Vec<MatchArm<T>>) -> (r: Vec<MatchArm<T>>)
    ensures
        same_arms(v@, r@),
    decreases v,
{
    let mut r: Vec<MatchArm<T>> = Vec::new();
    let mut i: usize = 0;
    proof {
        assert(v@.take(0) =~= Seq::<MatchArm<T>>::empty());
    }
    while i < v.len()
        invariant
            i <= v@.len(),
            same_arms(v@.take(i as int), r@),
        decreases v@.len() - i,
    {
        proof {
            assert(decreases_to!(v => v@));
            assert(decreases_to!(v@ => v@[i as int]));
        }
        let arm = &v[i];
        let pattern = match &arm.pattern {
            MatchPattern::CatchAll => MatchPattern::CatchAll,
            MatchPattern::Pattern(p) => MatchPattern::Pattern(copy_expr(p)),
        };
        let c = MatchArm { pattern, value: copy_expr(&arm.value) };
        proof {
            lemma_same_arms_push(v@.take(i as int), r@, v@[i as int], c);
            assert(v@.take(i as int).push(v@[i as int]) =~= v@.take(i + 1));
        }
        r.push(c);
        i = i + 1;
    }
    assert(v@.take(i as int) =~= v@);
    r
}

fn copy_namespaced<T: Copy>(r: &NamespacedPolynomialReference<T>) -> (c: NamespacedPolynomialReference<T>)
    ensures
        same_namespaced(*r, c),
    decreases r,
{
    let namespace = match &r.namespace {
        Some(n) => Some(n.clone()),
        None => None,
    };
    NamespacedPolynomialReference { namespace, pol: copy_indexed(&r.pol) }
}

fn copy_indexed<T: Copy>(r: &IndexedPolynomialReference<T>) -> (c: IndexedPolynomialReference<T>)
    ensures
        same_indexed(*r, c),
    decreases r,
{
    let index = match &r.index {
        Some(i) => Some(Box::new(copy_expr(i))),
        None => None,
    };
    IndexedPolynomialReference { index, pol: PolynomialReference { name: r.pol.name.clone() } }
}

impl<T: Copy> Clone for Expression<T> {
    fn clone(&self) -> (r: Self)
        ensures
            same_expr(*self, r),
    {
        copy_expr(self)
    }
}

impl<T: Copy> Clone for NamespacedPolynomialReference<T> {
    fn clone(&self) -> (r: Self)
        ensures
            same_namespaced(*self, r),
    {
        copy_namespaced(self)
    }
}

impl<T: Copy> Clone for IndexedPolynomialReference<T> {
    fn clone(&self) -> (r: Self)
        ensures
            same_indexed(*self, r),
    {
        copy_indexed(self)
    }
}

impl Clone for PolynomialReference {
    fn clone(&self) -> (r: Self)
        ensures
            r == *self,
    {
        PolynomialReference { name: self.name.clone() }
    }
}

/// `a` and `b` have the same selector and the same expressions.
pub open spec fn same_selected<T>(
    a: SelectedExpressions<Expression<T>>,
    b: SelectedExpressions<Expression<T>>,
) -> bool {
    &&& match a.selector {
        None => b.selector is None,
        Some(e) => b.selector matches Some(f) && same_expr(e, f),
    }
    &&& same_list(a.expressions@, b.expressions@)
}

/// `a` and `b` are the same array expression.
pub open spec fn same_array<T>(a: ArrayExpression<T>, b: ArrayExpression<T>) -> bool
    decreases a,
{
    match a {
        ArrayExpression::Value(v) => b matches ArrayExpression::Value(w) && same_list(v@, w@),
        ArrayExpression::RepeatedValue(v) => b matches ArrayExpression::RepeatedValue(w)
            && same_list(v@, w@),
        ArrayExpression::Concat(l, r) => b matches ArrayExpression::Concat(l2, r2) && same_array(
            *l,
            *l2,
        ) && same_array(*r, *r2),
    }
}

/// `a` and `b` are the same function definition.
pub open spec fn same_function_definition<T>(
    a: FunctionDefinition<T>,
    b: FunctionDefinition<T>,
) -> bool {
    match a {
        FunctionDefinition::Mapping(p, e) => b matches FunctionDefinition::Mapping(q, f)
            && same_strings(p@, q@) && same_expr(e, f),
        FunctionDefinition::Array(x) => b matches FunctionDefinition::Array(y) && same_array(x, y),
        FunctionDefinition::Query(p, e) => b matches FunctionDefinition::Query(q, f)
            && same_strings(p@, q@) && same_expr(e, f),
        FunctionDefinition::Expression(e) => b matches FunctionDefinition::Expression(f)
            && same_expr(e, f),
    }
}

fn copy_array<T: Copy>(a: &ArrayExpression<T>) -> (r: ArrayExpression<T>)
    ensures
        same_array(*a, r),
    decreases a,
{
    match a {
        ArrayExpression::Value(v) => ArrayExpression::Value(copy_list(v)),
        ArrayExpression::RepeatedValue(v) => ArrayExpression::RepeatedValue(copy_list(v)),
        ArrayExpression::Concat(l, r) => ArrayExpression::Concat(
            Box::new(copy_array(l)),
            Box::new(copy_array(r)),
        ),
    }
}

impl<T: Copy> Clone for SelectedExpressions<Expression<T>> {
    fn clone(&self) -> (r: Self)
        ensures
            same_selected(*self, r),
    {
        copy_selected(self)
    }
}

impl<T: Copy> Clone for ArrayExpression<T> {
    fn clone(&self) -> (r: Self)
        ensures
            same_array(*self, r),
    {
        copy_array(self)
    }
}

impl<T: Copy> Clone for FunctionDefinition<T> {
    fn clone(&self) -> (r: Self)
        ensures
            same_function_definition(*self, r),
    {
        copy_function_definition(self)
    }
}

/// `a` and `b` are both absent or the same expression.
pub open spec fn same_optional_expr<T>(a: Option<Expression<T>>, b: Option<Expression<T>>) -> bool {
    match a {
        None => b is None,
        Some(e) => b matches Some(f) && same_expr(e, f),
    }
}

/// Name by name, `a` and `b` declare the same polynomials.
pub open spec fn same_names<T>(a: Seq<PolynomialName<T>>, b: Seq<PolynomialName<T>>) -> bool {
    &&& a.len() == b.len()
    &&& forall|i: int|
        0 <= i < a.len() ==> (#[trigger] a[i]).name@ == b[i].name@ && same_optional_expr(
            a[i].array_size,
            b[i].array_size,
        )
}

/// `a` and `b` are the same statement.
pub open spec fn same_statement<T>(a: PilStatement<T>, b: PilStatement<T>) -> bool
    decreases a,
{
    match a {
        PilStatement::Include(l, f) => b matches PilStatement::Include(l2, f2) && l == l2 && f@
            == f2@,
        PilStatement::Namespace(l, n, e) => b matches PilStatement::Namespace(l2, n2, e2) && l
            == l2 && n@ == n2@ && same_expr(e, e2),
        PilStatement::LetStatement(l, n, e) => b matches PilStatement::LetStatement(l2, n2, e2)
            && l == l2 && n@ == n2@ && same_optional_expr(e, e2),
        PilStatement::PolynomialDefinition(l, n, e) => b matches PilStatement::PolynomialDefinition(
            l2,
            n2,
            e2,
        ) && l == l2 && n@ == n2@ && same_expr(e, e2),
        PilStatement::PublicDeclaration(l, n, r, e) => b matches PilStatement::PublicDeclaration(
            l2,
            n2,
            r2,
            e2,
        ) && l == l2 && n@ == n2@ && same_namespaced(r, r2) && same_expr(e, e2),
        PilStatement::PolynomialConstantDeclaration(l, names) => b matches PilStatement::PolynomialConstantDeclaration(l2, names2) && l == l2 && same_names(names@, names2@),
        PilStatement::PolynomialConstantDefinition(l, n, f) => b matches PilStatement::PolynomialConstantDefinition(l2, n2, f2) && l == l2 && n@ == n2@ && same_function_definition(f, f2),
        PilStatement::PolynomialCommitDeclaration(l, names, f) => b matches PilStatement::PolynomialCommitDeclaration(l2, names2, f2) && l == l2 && same_names(names@, names2@) && match f {
            None => f2 is None,
            Some(d) => f2 matches Some(d2) && same_function_definition(d, d2),
        },
        PilStatement::PolynomialIdentity(l, e) => b matches PilStatement::PolynomialIdentity(l2, e2)
            && l == l2 && same_expr(e, e2),
        PilStatement::PlookupIdentity(l, x, y) => b matches PilStatement::PlookupIdentity(l2, x2, y2)
            && l == l2 && same_selected(x, x2) && same_selected(y, y2),
        PilStatement::PermutationIdentity(l, x, y) => b matches PilStatement::PermutationIdentity(
            l2,
            x2,
            y2,
        ) && l == l2 && same_selected(x, x2) && same_selected(y, y2),
        PilStatement::ConnectIdentity(l, x, y) => b matches PilStatement::ConnectIdentity(l2, x2, y2)
            && l == l2 && same_list(x@, x2@) && same_list(y@, y2@),
        PilStatement::ConstantDefinition(l, n, e) => b matches PilStatement::ConstantDefinition(
            l2,
            n2,
            e2,
        ) && l == l2 && n@ == n2@ && same_expr(e, e2),
        PilStatement::MacroDefinition(l, n, params, body, e) => b matches PilStatement::MacroDefinition(l2, n2, params2, body2, e2) && l == l2 && n@ == n2@ && same_strings(params@, params2@) && same_statements(body@, body2@) && same_optional_expr(e, e2),
        PilStatement::FunctionCall(l, n, args) => b matches PilStatement::FunctionCall(l2, n2, args2)
            && l == l2 && n@ == n2@ && same_list(args@, args2@),
    }
}

/// Statement by statement, `a` and `b` are the same.
pub open spec fn same_statements<T>(a: Seq<PilStatement<T>>, b: Seq<PilStatement<T>>) -> bool
    decreases a,
{
    &&& a.len() == b.len()
    &&& a.len() > 0 ==> same_statement(a[0], b[0]) && same_statements(a.drop_first(), b.drop_first())
}

proof fn lemma_same_statements_push<T>(
    a: Seq<PilStatement<T>>,
    b: Seq<PilStatement<T>>,
    x: PilStatement<T>,
    y: PilStatement<T>,
)
    requires
        same_statements(a, b),
        same_statement(x, y),
    ensures
        same_statements(a.push(x), b.push(y)),
    decreases a.len(),
{
    if a.len() > 0 {
        assert(a.push(x).drop_first() =~= a.drop_first().push(x));
        assert(b.push(y).drop_first() =~= b.drop_first().push(y));
        assert(a.push(x)[0] == a[0]);
        assert(b.push(y)[0] == b[0]);
        lemma_same_statements_push(a.drop_first(), b.drop_first(), x, y);
    } else {
        assert(a.push(x).drop_first() =~= Seq::<PilStatement<T>>::empty());
        assert(b.push(y).drop_first() =~= Seq::<PilStatement<T>>::empty());
        assert(a.push(x)[0] == x);
        assert(b.push(y)[0] == y);
        assert(same_statements(Seq::<PilStatement<T>>::empty(), Seq::<PilStatement<T>>::empty()));
    }
}

fn copy_optional_expr<T: Copy>(e: &Option<Expression<T>>) -> (r: Option<Expression<T>>)
    ensures
        same_optional_expr(*e, r),
{
    match e {
        Some(e) => Some(copy_expr(e)),
        None => None,
    }
}

fn copy_names<T: Copy>(v: &Vec<PolynomialName<T>>) -> (r: Vec<PolynomialName<T>>)
    ensures
        same_names(v@, r@),
{
    let mut r: Vec<PolynomialName<T>> = Vec::new();
    let mut i: usize = 0;
    while i < v.len()
        invariant
            i <= v@.len(),
            r@.len() == i,
            forall|k: int|
                0 <= k < i ==> (#[trigger] v@[k]).name@ == r@[k].name@ && same_optional_expr(
                    v@[k].array_size,
                    r@[k].array_size,
                ),
        decreases v@.len() - i,
    {
        let name = &v[i];
        r.push(PolynomialName { name: name.name.clone(), array_size: copy_optional_expr(&name.array_size) });
        i = i + 1;
    }
    r
}

fn copy_function_definition<T: Copy>(d: &FunctionDefinition<T>) -> (r: FunctionDefinition<T>)
    ensures
        same_function_definition(*d, r),
{
    match d {
        FunctionDefinition::Mapping(p, e) => FunctionDefinition::Mapping(copy_strings(p), copy_expr(e)),
        FunctionDefinition::Array(a) => FunctionDefinition::Array(copy_array(a)),
        FunctionDefinition::Query(p, e) => FunctionDefinition::Query(copy_strings(p), copy_expr(e)),
        FunctionDefinition::Expression(e) => FunctionDefinition::Expression(copy_expr(e)),
    }
}

fn copy_selected<T: Copy>(s: &SelectedExpressions<Expression<T>>) -> (r: SelectedExpressions<
    Expression<T>,
>)
    ensures
        same_selected(*s, r),
{
    SelectedExpressions {
        selector: copy_optional_expr(&s.selector),
        expressions: copy_list(&s.expressions),
    }
}

fn copy_statement<T: Copy>(s: &PilStatement<T>) -> (r: PilStatement<T>)
    ensures
        same_statement(*s, r),
    decreases s,
{
    match s {
        PilStatement::Include(l, f) => PilStatement::Include(*l, f.clone()),
        PilStatement::Namespace(l, n, e) => PilStatement::Namespace(*l, n.clone(), copy_expr(e)),
        PilStatement::LetStatement(l, n, e) => PilStatement::LetStatement(
            *l,
            n.clone(),
            copy_optional_expr(e),
        ),
        PilStatement::PolynomialDefinition(l, n, e) => PilStatement::PolynomialDefinition(
            *l,
            n.clone(),
            copy_expr(e),
        ),
        PilStatement::PublicDeclaration(l, n, r, e) => PilStatement::PublicDeclaration(
            *l,
            n.clone(),
            copy_namespaced(r),
            copy_expr(e),
        ),
        PilStatement::PolynomialConstantDeclaration(l, names) => PilStatement::PolynomialConstantDeclaration(*l, copy_names(names)),
        PilStatement::PolynomialConstantDefinition(l, n, f) => PilStatement::PolynomialConstantDefinition(*l, n.clone(), copy_function_definition(f)),
        PilStatement::PolynomialCommitDeclaration(l, names, f) => {
            let definition = match f {
                Some(d) => Some(copy_function_definition(d)),
                None => None,
            };
            PilStatement::PolynomialCommitDeclaration(*l, copy_names(names), definition)
        },
        PilStatement::PolynomialIdentity(l, e) => PilStatement::PolynomialIdentity(*l, copy_expr(e)),
        PilStatement::PlookupIdentity(l, x, y) => PilStatement::PlookupIdentity(
            *l,
            copy_selected(x),
            copy_selected(y),
        ),
        PilStatement::PermutationIdentity(l, x, y) => PilStatement::PermutationIdentity(
            *l,
            copy_selected(x),
            copy_selected(y),
        ),
        PilStatement::ConnectIdentity(l, x, y) => PilStatement::ConnectIdentity(
            *l,
            copy_list(x),
            copy_list(y),
        ),
        PilStatement::ConstantDefinition(l, n, e) => PilStatement::ConstantDefinition(
            *l,
            n.clone(),
            copy_expr(e),
        ),
        PilStatement::MacroDefinition(l, n, params, body, e) => PilStatement::MacroDefinition(
            *l,
            n.clone(),
            copy_strings(params),
            copy_statements(body),
            copy_optional_expr(e),
        ),
        PilStatement::FunctionCall(l, n, args) => PilStatement::FunctionCall(
            *l,
            n.clone(),
            copy_list(args),
        ),
    }
}

fn copy_statements<T: Copy>(v: &Vec<PilStatement<T>>) -> (r: Vec<PilStatement<T>>)
    ensures
        same_statements(v@, r@),
    decreases v,
{
    let mut r: Vec<PilStatement<T>> = Vec::new();
    let mut i: usize = 0;
    proof {
        assert(v@.take(0) =~= Seq::<PilStatement<T>>::empty());
    }
    while i < v.len()
        invariant
            i <= v@.len(),
            same_statements(v@.take(i as int), r@),
        decreases v@.len() - i,
    {
        proof {
            assert(decreases_to!(v => v@));
            assert(decreases_to!(v@ => v@[i as int]));
        }
        let c = copy_statement(&v[i]);
        proof {
            lemma_same_statements_push(v@.take(i as int), r@, v@[i as int], c);
            assert(v@.take(i as int).push(v@[i as int]) =~= v@.take(i + 1));
        }
        r.push(c);
        i = i + 1;
    }
    assert(v@.take(i as int) =~= v@);
    r
}

impl<T: Copy> Clone for PilStatement<T> {
    fn clone(&self) -> (r: Self)
        ensures
            same_statement(*self, r),
    {
        copy_statement(self)
    }
}

impl<T: Copy> Clone for LambdaExpression<T> {
    fn clone(&self) -> (r: Self)
        ensures
            same_strings(self.params@, r.params@),
            same_expr(*self.body, *r.body),
    {
        LambdaExpression { params: copy_strings(&self.params), body: Box::new(copy_expr(&self.body)) }
    }
}

impl<T: Copy> Clone for ArrayLiteral<T> {
    fn clone(&self) -> (r: Self)
        ensures
            same_list(self.items@, r.items@),
    {
        ArrayLiteral { items: copy_list(&self.items) }
    }
}

impl<T: Copy> Clone for FunctionCall<T> {
    fn clone(&self) -> (r: Self)
        ensures
            r.id@ == self.id@,
            same_list(self.arguments@, r.arguments@),
    {
        FunctionCall { id: self.id.clone(), arguments: copy_list(&self.arguments) }
    }
}

impl<T: Copy> Clone for MatchPattern<T> {
    fn clone(&self) -> (r: Self)
        ensures
            same_pattern(*self, r),
    {
        match self {
            MatchPattern::CatchAll => MatchPattern::CatchAll,
            MatchPattern::Pattern(p) => MatchPattern::Pattern(copy_expr(p)),
        }
    }
}

impl<T: Copy> Clone for MatchArm<T> {
    fn clone(&self) -> (r: Self)
        ensures
            same_pattern(self.pattern, r.pattern),
            same_expr(self.value, r.value),
    {
        let pattern = match &self.pattern {
            MatchPattern::CatchAll => MatchPattern::CatchAll,
            MatchPattern::Pattern(p) => MatchPattern::Pattern(copy_expr(p)),
        };
        MatchArm { pattern, value: copy_expr(&self.value) }
    }
}

impl<T: Copy> Clone for PolynomialName<T> {
    fn clone(&self) -> (r: Self)
        ensures
            r.name@ == self.name@,
            same_optional_expr(self.array_size, r.array_size),
    {
        PolynomialName { name: self.name.clone(), array_size: copy_optional_expr(&self.array_size) }
    }
}

impl<T: FieldElement> ArrayExpression<T> {
    pub fn value(v: Vec<Expression<T>>) -> (r: Self)
        ensures
            r == ArrayExpression::Value(v),
    {
        Self::Value(v)
    }

    pub fn repeated_value(v: Vec<Expression<T>>) -> (r: Self)
        ensures
            r == ArrayExpression::RepeatedValue(v),
    {
        Self::RepeatedValue(v)
    }

    pub fn concat(self, other: Self) -> (r: Self)
        ensures
            r == ArrayExpression::Concat(Box::new(self), Box::new(other)),
    {
        Self::Concat(Box::new(self), Box::new(other))
    }

    fn pad_with(self, pad: Expression<T>) -> (r: Self)
        ensures
            r.is_padded(self, pad),
    {
        let mut v = Vec::new();
        v.push(pad);
        assert(v@ =~= seq![pad]);
        Self::concat(self, Self::repeated_value(v))
    }

    /// `self` is `array` followed by `pad`, repeated to fill the remaining space.
    pub open spec fn is_padded(self, array: Self, pad: Expression<T>) -> bool {
        &&& self matches ArrayExpression::Concat(left, right)
        &&& *left == array
        &&& *right matches ArrayExpression::RepeatedValue(items)
        &&& items@ == seq![pad]
    }

    /// `self` is `array` followed by a copy of `pad`, repeated to fill the
    /// remaining space.
    pub open spec fn is_padded_with_copy(self, array: Self, pad: Expression<T>) -> bool {
        &&& self matches ArrayExpression::Concat(left, right)
        &&& *left == array
        &&& *right matches ArrayExpression::RepeatedValue(items)
        &&& items@.len() == 1
        &&& same_expr(pad, items@[0])
    }

    pub fn pad_with_zeroes(self) -> (r: Self)
        ensures
            r.is_padded(self, Expression::Number(T::from_u32_spec(0))),
    {
        self.pad_with(Expression::Number(T::from_u32(0)))
    }

    fn last(&self) -> (r: Option<&Expression<T>>)
        ensures
            r == match self.last_spec() {
                Some(e) => Some(&e),
                None => None::<&Expression<T>>,
            },
        decreases self,
    {
        match self {
            ArrayExpression::Value(v) => v.last(),
            ArrayExpression::RepeatedValue(v) => v.last(),
            ArrayExpression::Concat(left, right) => match right.last() {
                Some(e) => Some(e),
                None => left.last(),
            },
        }
    }

    // return None if `self` is empty
    pub fn pad_with_last(self) -> (r: Option<Self>)
        ensures
            r is None <==> self.element_count() == 0,
            match self.last_spec() {
                Some(e) => r matches Some(p) && p.is_padded_with_copy(self, e),
                None => r is None,
            },
    {
        proof {
            self.lemma_last_exactly_when_not_empty();
        }
        match self.last() {
            Some(e) => {
                let last = e.clone();
                Some(self.pad_with(last))
            },
            None => None,
        }
    }
}

/// Padding an array adds one use of `*` and leaves its constant-size part
/// as it was: so an array without `*`, once padded, is one that `solve`
/// accepts, and `solve` gives the rows that the padding fills.
pub proof fn lemma_padding_is_solvable<T: FieldElement>(
    padded: ArrayExpression<T>,
    array: ArrayExpression<T>,
    pad: Expression<T>,
)
    requires
        padded.is_padded(array, pad) || padded.is_padded_with_copy(array, pad),
    ensures
        padded.repetitions() == array.repetitions() + 1,
        padded.constant_length_spec() == array.constant_length_spec(),
{
    if let ArrayExpression::Concat(left, right) = padded {
        assert(*left == array);
        assert(right.repetitions() == 1);
        assert(right.constant_length_spec() == 0);
    }
}

impl<T> ArrayExpression<T> {
    /// The last item of the array, if its rightmost part has items.
    pub open spec fn last_spec(self) -> Option<Expression<T>>
        decreases self,
    {
        match self {
            ArrayExpression::Value(v) => if v@.len() == 0 { None } else { Some(v@.last()) },
            ArrayExpression::RepeatedValue(v) => if v@.len() == 0 { None } else { Some(v@.last()) },
            ArrayExpression::Concat(left, right) => match right.last_spec() {
                Some(e) => Some(e),
                None => left.last_spec(),
            },
        }
    }

    /// The number of items that the array lists, in all its parts.
    pub open spec fn element_count(self) -> nat
        decreases self,
    {
        match self {
            ArrayExpression::Value(v) => v@.len(),
            ArrayExpression::RepeatedValue(v) => v@.len(),
            ArrayExpression::Concat(left, right) => left.element_count() + right.element_count(),
        }
    }

    /// An array has a last item exactly when it lists some item.
    pub proof fn lemma_last_exactly_when_not_empty(self)
        ensures
            self.last_spec() is None <==> self.element_count() == 0,
        decreases self,
    {
        if let ArrayExpression::Concat(left, right) = self {
            left.lemma_last_exactly_when_not_empty();
            right.lemma_last_exactly_when_not_empty();
        }
    }

    /// The constant-size length of a concatenation is the sum of those of
    /// its parts; a listed part counts its items, a repeated part nothing.
    pub proof fn lemma_constant_length_of_parts(
        left: ArrayExpression<T>,
        right: ArrayExpression<T>,
        items: Vec<Expression<T>>,
    )
        ensures
            ArrayExpression::Concat(Box::new(left), Box::new(right)).constant_length_spec()
                == left.constant_length_spec() + right.constant_length_spec(),
            ArrayExpression::Value(items).constant_length_spec() == items@.len(),
            ArrayExpression::RepeatedValue(items).constant_length_spec() == 0,
    {
    }

    /// The number of times the `*` operator is used.
    pub open spec fn repetitions(self) -> nat
        decreases self,
    {
        match self {
            ArrayExpression::RepeatedValue(_) => 1,
            ArrayExpression::Value(_) => 0,
            ArrayExpression::Concat(left, right) => left.repetitions() + right.repetitions(),
        }
    }

    /// The combined length of the constant-size parts of the array expression.
    pub open spec fn constant_length_spec(self) -> nat
        decreases self,
    {
        match self {
            ArrayExpression::RepeatedValue(_) => 0,
            ArrayExpression::Value(e) => e@.len(),
            ArrayExpression::Concat(left, right) => left.constant_length_spec()
                + right.constant_length_spec(),
        }
    }

    /// solve for `*`
    pub fn solve(&self, degree: DegreeType) -> (r: DegreeType)
        requires
            self.repetitions() <= 1,
            self.constant_length_spec() <= degree,
        ensures
            r == degree - self.constant_length_spec(),
    {
        let len = self.constant_length();
        // Fill up the remaining space with the repeated array
        degree - len
    }

    /// The number of times the `*` operator is used
    pub fn number_of_repetitions(&self) -> (r: usize)
        requires
            self.repetitions() <= usize::MAX,
        ensures
            r == self.repetitions(),
        decreases self,
    {
        match self {
            ArrayExpression::RepeatedValue(_) => 1,
            ArrayExpression::Value(_) => 0,
            ArrayExpression::Concat(left, right) => {
                left.number_of_repetitions() + right.number_of_repetitions()
            },
        }
    }

    /// The combined length of the constant-size parts of the array expression.
    pub fn constant_length(&self) -> (r: DegreeType)
        requires
            self.constant_length_spec() <= DegreeType::MAX,
        ensures
            r == self.constant_length_spec(),
        decreases self,
    {
        match self {
            ArrayExpression::RepeatedValue(_) => 0,
            ArrayExpression::Value(e) => e.len() as DegreeType,
            ArrayExpression::Concat(left, right) => {
                left.constant_length() + right.constant_length()
            },
        }
    }
}

} // verus!
