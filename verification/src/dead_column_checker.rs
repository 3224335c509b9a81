use vstd::prelude::*;

use crate::analyzed::{
    AlgebraicBinaryOperation, AlgebraicExpression, AlgebraicReference, AlgebraicUnaryOperation,
    Challenge, Analyzed, Identity, PolyID, PolynomialType, PublicDeclaration, SourceRef,
    Symbol, SymbolKind,
};
use crate::parsed::SelectedExpressions;
use crate::text::{decimal, decimal_string, join, join_spec, lemma_decimal_injective, strings_view};

verus! {

/// A committed column that nothing refers to.
#[derive(Debug, PartialEq, Eq)]
pub struct DeadColumn {
    pub name: String,
    pub source: SourceRef,
}

impl View for DeadColumn {
    type V = (Seq<char>, (Option<Seq<char>>, usize, usize));

    open spec fn view(&self) -> Self::V {
        (self.name@, self.source@)
    }
}

/// `e` refers to the polynomial `id` somewhere.
pub open spec fn references<T>(e: AlgebraicExpression<T>, id: PolyID) -> bool
    decreases e,
{
    match e {
        AlgebraicExpression::Reference(r) => r.poly_id == id,
        AlgebraicExpression::BinaryOperation(op) => references(*op.left, id) || references(
            *op.right,
            id,
        ),
        AlgebraicExpression::UnaryOperation(op) => references(*op.expr, id),
        _ => false,
    }
}

/// The selector of `s` refers to `id`.
pub open spec fn selector_references<T>(
    s: SelectedExpressions<AlgebraicExpression<T>>,
    id: PolyID,
) -> bool {
    match s.selector {
        Some(e) => references(e, id),
        None => false,
    }
}

/// The selector or one of the expressions of `s` refers to `id`.
pub open spec fn selected_references<T>(
    s: SelectedExpressions<AlgebraicExpression<T>>,
    id: PolyID,
) -> bool {
    ||| selector_references(s, id)
    ||| any_references(s.expressions@, id)
}

/// One side or the other of `identity` refers to `id`.
pub open spec fn identity_references<T>(identity: Identity<T>, id: PolyID) -> bool {
    selected_references(identity.left, id) || selected_references(identity.right, id)
}

/// A public declaration names `id`.
pub open spec fn publicly_declared<T>(analyzed: Analyzed<T>, id: PolyID) -> bool {
    exists|i: int|
        0 <= i < analyzed.public_declarations@.len()
            && (#[trigger] analyzed.public_declarations@[i]).polynomial.poly_id == Some(id)
}

/// An identity (after inlining intermediate polynomials) refers to `id`.
pub open spec fn constrained<T>(analyzed: Analyzed<T>, id: PolyID) -> bool {
    exists|i: int|
        0 <= i < analyzed.identities_with_inlined_intermediates@.len() && identity_references(
            #[trigger] analyzed.identities_with_inlined_intermediates@[i],
            id,
        )
}

/// The polynomial `id` is used: by a public declaration or by an identity.
pub open spec fn is_used<T>(analyzed: Analyzed<T>, id: PolyID) -> bool {
    publicly_declared(analyzed, id) || constrained(analyzed, id)
}

/// The analyzer added the symbol `name` on its own.
pub open spec fn auto_added<T>(analyzed: Analyzed<T>, name: Seq<char>) -> bool {
    exists|j: int|
        0 <= j < analyzed.auto_added_symbols@.len() && (#[trigger] analyzed.auto_added_symbols@[j])@
            == name
}

/// The definition `k` is a committed polynomial that the source declared.
pub open spec fn is_declared_committed<T>(analyzed: Analyzed<T>, k: int) -> bool {
    let (name, sym) = analyzed.definitions@[k];
    sym.kind == SymbolKind::Poly(PolynomialType::Committed) && !auto_added(analyzed, name@)
}

/// The elements `0..n` of the committed symbol `sym` that are not used,
/// in order, each with its name and the source of `sym`.
pub open spec fn dead_elements<T>(analyzed: Analyzed<T>, sym: Symbol, n: nat) -> Seq<
    (Seq<char>, (Option<Seq<char>>, usize, usize)),
>
    decreases n,
{
    if n == 0 {
        Seq::empty()
    } else {
        let i = (n - 1) as nat;
        dead_elements(analyzed, sym, i) + if is_used(
            analyzed,
            sym.element_id(PolynomialType::Committed, i),
        ) {
            Seq::empty()
        } else {
            seq![(sym.element_name(i), sym.source@)]
        }
    }
}

/// The dead columns of the definitions `0..k`, in order.
pub open spec fn dead_columns_upto<T>(analyzed: Analyzed<T>, k: nat) -> Seq<
    (Seq<char>, (Option<Seq<char>>, usize, usize)),
>
    decreases k,
{
    if k == 0 {
        Seq::empty()
    } else {
        let sym = analyzed.definitions@[k - 1].1;
        dead_columns_upto(analyzed, (k - 1) as nat) + if is_declared_committed(
            analyzed,
            k - 1,
        ) {
            dead_elements(analyzed, sym, sym.element_count())
        } else {
            Seq::empty()
        }
    }
}

/// The committed columns (array elements one by one) that the source
/// declared and that neither an identity nor a public declaration uses, in
/// the order of their declarations.
pub open spec fn dead_columns<T>(analyzed: Analyzed<T>) -> Seq<
    (Seq<char>, (Option<Seq<char>>, usize, usize)),
> {
    dead_columns_upto(analyzed, analyzed.definitions@.len())
}

/// Every element of every committed column that the source declared is
/// used by an identity or a public declaration.
pub open spec fn all_committed_used<T>(analyzed: Analyzed<T>) -> bool {
    forall|k: int, i: nat|
        0 <= k < analyzed.definitions@.len() && is_declared_committed(analyzed, k) && i
            < analyzed.definitions@[k].1.element_count() ==> is_used(
            analyzed,
            #[trigger] analyzed.definitions@[k].1.element_id(PolynomialType::Committed, i),
        )
}

proof fn lemma_dead_elements_empty<T>(analyzed: Analyzed<T>, sym: Symbol, n: nat)
    ensures
        dead_elements(analyzed, sym, n).len() == 0 <==> forall|i: nat|
            i < n ==> is_used(analyzed, #[trigger] sym.element_id(PolynomialType::Committed, i)),
    decreases n,
{
    if n > 0 {
        lemma_dead_elements_empty(analyzed, sym, (n - 1) as nat);
        if dead_elements(analyzed, sym, n).len() == 0 {
            assert forall|i: nat| i < n implies is_used(
                analyzed,
                #[trigger] sym.element_id(PolynomialType::Committed, i),
            ) by {
                if i < n - 1 {
                } else {
                    assert(i == n - 1);
                }
            }
        }
    }
}

proof fn lemma_dead_columns_upto_empty<T>(analyzed: Analyzed<T>, k: nat)
    requires
        k <= analyzed.definitions@.len(),
    ensures
        dead_columns_upto(analyzed, k).len() == 0 <==> forall|j: int, i: nat|
            0 <= j < k && is_declared_committed(analyzed, j) && i
                < analyzed.definitions@[j].1.element_count() ==> is_used(
                analyzed,
                #[trigger] analyzed.definitions@[j].1.element_id(PolynomialType::Committed, i),
            ),
    decreases k,
{
    if k > 0 {
        let sym = analyzed.definitions@[k - 1].1;
        lemma_dead_columns_upto_empty(analyzed, (k - 1) as nat);
        lemma_dead_elements_empty(analyzed, sym, sym.element_count());
        if dead_columns_upto(analyzed, k).len() == 0 {
            assert forall|j: int, i: nat|
                0 <= j < k && is_declared_committed(analyzed, j) && i
                    < analyzed.definitions@[j].1.element_count() implies is_used(
                analyzed,
                #[trigger] analyzed.definitions@[j].1.element_id(PolynomialType::Committed, i),
            ) by {
                if j < k - 1 {
                } else {
                    assert(j == k - 1);
                    assert(sym.element_id(PolynomialType::Committed, i)
                        == analyzed.definitions@[j].1.element_id(PolynomialType::Committed, i));
                }
            }
        } else {
            if dead_columns_upto(analyzed, (k - 1) as nat).len() == 0 {
                assert(is_declared_committed(analyzed, k - 1));
                assert(dead_elements(analyzed, sym, sym.element_count()).len() != 0);
                let i = choose|i: nat|
                    i < sym.element_count() && !is_used(
                        analyzed,
                        #[trigger] sym.element_id(PolynomialType::Committed, i),
                    );
                assert(!is_used(
                    analyzed,
                    analyzed.definitions@[k - 1].1.element_id(PolynomialType::Committed, i),
                ));
            }
        }
    }
}

/// There is no dead column exactly when every element of every committed
/// column that the source declared is used by an identity or a public
/// declaration.
pub proof fn lemma_no_dead_columns_iff_all_used<T>(analyzed: Analyzed<T>)
    ensures
        dead_columns(analyzed).len() == 0 <==> all_committed_used(analyzed),
{
    lemma_dead_columns_upto_empty(analyzed, analyzed.definitions@.len());
}

/// A dead column of the listing: its name and the source of its symbol.
pub type DeadColumnView = (Seq<char>, (Option<Seq<char>>, usize, usize));

/// The element `i` of the definition `k` is a committed column that the
/// source declared and that nothing uses.
pub open spec fn is_dead_element<T>(analyzed: Analyzed<T>, k: int, i: nat) -> bool {
    &&& 0 <= k < analyzed.definitions@.len()
    &&& is_declared_committed(analyzed, k)
    &&& i < analyzed.definitions@[k].1.element_count()
    &&& !is_used(analyzed, analyzed.definitions@[k].1.element_id(PolynomialType::Committed, i))
}

/// How the element `i` of the definition `k` is listed.
pub open spec fn dead_entry<T>(analyzed: Analyzed<T>, k: int, i: nat) -> DeadColumnView {
    let sym = analyzed.definitions@[k].1;
    (sym.element_name(i), sym.source@)
}

/// The names are those of a PIL file: each definition under its own
/// absolute name, no two alike, and none holding a `[`.
pub open spec fn names_well_formed<T>(analyzed: Analyzed<T>) -> bool {
    &&& forall|k1: int, k2: int|
        0 <= k1 < analyzed.definitions@.len() && 0 <= k2 < analyzed.definitions@.len() && k1 != k2
            ==> (#[trigger] analyzed.definitions@[k1]).0@ != (#[trigger] analyzed.definitions@[k2]).0@
    &&& forall|k: int|
        0 <= k < analyzed.definitions@.len() ==> (#[trigger] analyzed.definitions@[k]).0@
            == analyzed.definitions@[k].1.absolute_name@ && !analyzed.definitions@[k].0@.contains('[')
}

/// No two entries of `dead` have the same name.
pub open spec fn distinct_names(dead: Seq<DeadColumnView>) -> bool {
    forall|i: int, j: int| 0 <= i < j < dead.len() ==> (#[trigger] dead[i]).0 != (#[trigger] dead[j]).0
}

proof fn lemma_dead_elements_members<T>(analyzed: Analyzed<T>, sym: Symbol, n: nat)
    ensures
        forall|e: DeadColumnView|
            #[trigger] dead_elements(analyzed, sym, n).contains(e) <==> exists|i: nat|
                i < n && !is_used(analyzed, sym.element_id(PolynomialType::Committed, i)) && e == (
                #[trigger] sym.element_name(i),
                sym.source@,
            ),
    decreases n,
{
    if n > 0 {
        let m = (n - 1) as nat;
        lemma_dead_elements_members(analyzed, sym, m);
        let prev = dead_elements(analyzed, sym, m);
        let tail = if is_used(analyzed, sym.element_id(PolynomialType::Committed, m)) {
            Seq::<DeadColumnView>::empty()
        } else {
            seq![(sym.element_name(m), sym.source@)]
        };
        assert(dead_elements(analyzed, sym, n) == prev + tail);
        assert forall|e: DeadColumnView|
            #[trigger] dead_elements(analyzed, sym, n).contains(e) <==> exists|i: nat|
                i < n && !is_used(analyzed, sym.element_id(PolynomialType::Committed, i)) && e == (
                #[trigger] sym.element_name(i),
                sym.source@,
            ) by {
            if (prev + tail).contains(e) {
                let j = choose|j: int| 0 <= j < (prev + tail).len() && (prev + tail)[j] == e;
                if j < prev.len() {
                    assert(prev[j] == e);
                    assert(prev.contains(e));
                } else {
                    assert(tail[j - prev.len()] == e);
                    assert(e == (sym.element_name(m), sym.source@));
                }
            }
            if exists|i: nat|
                i < n && !is_used(analyzed, sym.element_id(PolynomialType::Committed, i)) && e == (
                #[trigger] sym.element_name(i),
                sym.source@,
            ) {
                let i = choose|i: nat|
                    i < n && !is_used(analyzed, sym.element_id(PolynomialType::Committed, i)) && e == (
                    #[trigger] sym.element_name(i),
                    sym.source@,
                );
                if i < m {
                    assert(prev.contains(e));
                    let j = choose|j: int| 0 <= j < prev.len() && prev[j] == e;
                    assert((prev + tail)[j] == e);
                } else {
                    assert((prev + tail)[prev.len() as int] == e);
                }
            }
        }
    }
}

proof fn lemma_dead_columns_upto_members<T>(analyzed: Analyzed<T>, k: nat)
    requires
        k <= analyzed.definitions@.len(),
    ensures
        forall|e: DeadColumnView|
            #[trigger] dead_columns_upto(analyzed, k).contains(e) <==> exists|j: int, i: nat|
                j < k && is_dead_element(analyzed, j, i) && e == #[trigger] dead_entry(analyzed, j, i),
    decreases k,
{
    if k > 0 {
        let m = (k - 1) as nat;
        let sym = analyzed.definitions@[m as int].1;
        lemma_dead_columns_upto_members(analyzed, m);
        lemma_dead_elements_members(analyzed, sym, sym.element_count());
        let prev = dead_columns_upto(analyzed, m);
        let tail = if is_declared_committed(analyzed, m as int) {
            dead_elements(analyzed, sym, sym.element_count())
        } else {
            Seq::<DeadColumnView>::empty()
        };
        assert(dead_columns_upto(analyzed, k) == prev + tail);
        assert forall|e: DeadColumnView|
            #[trigger] dead_columns_upto(analyzed, k).contains(e) <==> exists|j: int, i: nat|
                j < k && is_dead_element(analyzed, j, i) && e == #[trigger] dead_entry(analyzed, j, i) by {
            if (prev + tail).contains(e) {
                let x = choose|x: int| 0 <= x < (prev + tail).len() && (prev + tail)[x] == e;
                if x < prev.len() {
                    assert(prev[x] == e);
                    assert(prev.contains(e));
                } else {
                    assert(tail[x - prev.len()] == e);
                    assert(tail.contains(e));
                    let i = choose|i: nat|
                        i < sym.element_count() && !is_used(
                            analyzed,
                            sym.element_id(PolynomialType::Committed, i),
                        ) && e == (#[trigger] sym.element_name(i), sym.source@);
                    assert(is_dead_element(analyzed, m as int, i));
                    assert(e == dead_entry(analyzed, m as int, i));
                }
            }
            if exists|j: int, i: nat|
                j < k && is_dead_element(analyzed, j, i) && e == #[trigger] dead_entry(analyzed, j, i) {
                let (j, i) = choose|j: int, i: nat|
                    j < k && is_dead_element(analyzed, j, i) && e == #[trigger] dead_entry(
                        analyzed,
                        j,
                        i,
                    );
                if j < m {
                    assert(prev.contains(e));
                    let x = choose|x: int| 0 <= x < prev.len() && prev[x] == e;
                    assert((prev + tail)[x] == e);
                } else {
                    assert(j == m);
                    assert(e == (sym.element_name(i), sym.source@));
                    assert(tail.contains(e));
                    let x = choose|x: int| 0 <= x < tail.len() && tail[x] == e;
                    assert((prev + tail)[prev.len() + x] == e);
                }
            }
        }
    }
}

/// The listing holds exactly the dead elements: the committed columns
/// (array elements one by one) that the source declared and that nothing
/// uses, each under its name and with the source of its symbol.
pub proof fn lemma_dead_columns_members<T>(analyzed: Analyzed<T>)
    ensures
        forall|e: DeadColumnView|
            #[trigger] dead_columns(analyzed).contains(e) <==> exists|k: int, i: nat|
                is_dead_element(analyzed, k, i) && e == #[trigger] dead_entry(analyzed, k, i),
{
    lemma_dead_columns_upto_members(analyzed, analyzed.definitions@.len());
}

/// More uses make no new dead column: where two analyzed files declare the
/// same symbols and everything used in the first is used in the second,
/// every dead column of the second is one of the first.
pub proof fn lemma_more_uses_no_new_dead_columns<T>(a1: Analyzed<T>, a2: Analyzed<T>)
    requires
        a1.definitions@ == a2.definitions@,
        a1.auto_added_symbols@ == a2.auto_added_symbols@,
        forall|id: PolyID| is_used(a1, id) ==> is_used(a2, id),
    ensures
        forall|e: DeadColumnView|
            #[trigger] dead_columns(a2).contains(e) ==> dead_columns(a1).contains(e),
{
    lemma_dead_columns_members(a1);
    lemma_dead_columns_members(a2);
    assert forall|e: DeadColumnView| #[trigger] dead_columns(a2).contains(e) implies dead_columns(
        a1,
    ).contains(e) by {
        let (k, i) = choose|k: int, i: nat|
            is_dead_element(a2, k, i) && e == #[trigger] dead_entry(a2, k, i);
        assert(is_declared_committed(a1, k) == is_declared_committed(a2, k));
        assert(is_dead_element(a1, k, i));
        assert(e == dead_entry(a1, k, i));
    }
}

/// Adding an identity makes no new dead column, and no column that the
/// identity refers to is dead afterwards.
pub proof fn lemma_adding_an_identity<T>(a1: Analyzed<T>, a2: Analyzed<T>, identity: Identity<T>)
    requires
        a1.definitions@ == a2.definitions@,
        a1.auto_added_symbols@ == a2.auto_added_symbols@,
        a1.public_declarations@ == a2.public_declarations@,
        a2.identities_with_inlined_intermediates@ == a1.identities_with_inlined_intermediates@.push(
            identity,
        ),
    ensures
        forall|e: DeadColumnView|
            #[trigger] dead_columns(a2).contains(e) ==> dead_columns(a1).contains(e),
        forall|e: DeadColumnView|
            #[trigger] dead_columns(a2).contains(e) ==> exists|k: int, i: nat|
                is_dead_element(a2, k, i) && e == #[trigger] dead_entry(a2, k, i)
                    && !identity_references(
                    identity,
                    a2.definitions@[k].1.element_id(PolynomialType::Committed, i),
                ),
{
    let ids1 = a1.identities_with_inlined_intermediates@;
    let ids2 = a2.identities_with_inlined_intermediates@;
    assert forall|id: PolyID| is_used(a1, id) implies is_used(a2, id) by {
        if constrained(a1, id) {
            let j = choose|j: int| 0 <= j < ids1.len() && identity_references(#[trigger] ids1[j], id);
            assert(ids2[j] == ids1[j]);
        }
        if publicly_declared(a1, id) {
            let j = choose|j: int|
                0 <= j < a1.public_declarations@.len()
                    && (#[trigger] a1.public_declarations@[j]).polynomial.poly_id == Some(id);
            assert(a2.public_declarations@[j] == a1.public_declarations@[j]);
        }
    }
    lemma_more_uses_no_new_dead_columns(a1, a2);
    lemma_dead_columns_members(a2);
    assert forall|e: DeadColumnView| #[trigger] dead_columns(a2).contains(e) implies exists|
        k: int,
        i: nat,
    |
        is_dead_element(a2, k, i) && e == #[trigger] dead_entry(a2, k, i) && !identity_references(
            identity,
            a2.definitions@[k].1.element_id(PolynomialType::Committed, i),
        ) by {
        let (k, i) = choose|k: int, i: nat|
            is_dead_element(a2, k, i) && e == #[trigger] dead_entry(a2, k, i);
        let id = a2.definitions@[k].1.element_id(PolynomialType::Committed, i);
        if identity_references(identity, id) {
            assert(ids2[ids1.len() as int] == identity);
            assert(constrained(a2, id));
        }
    }
}

/// Adding a public declaration makes no new dead column, and the column
/// that it declares is not dead afterwards.
pub proof fn lemma_adding_a_public_declaration<T>(
    a1: Analyzed<T>,
    a2: Analyzed<T>,
    declaration: PublicDeclaration,
)
    requires
        a1.definitions@ == a2.definitions@,
        a1.auto_added_symbols@ == a2.auto_added_symbols@,
        a2.public_declarations@ == a1.public_declarations@.push(declaration),
        a1.identities_with_inlined_intermediates@ == a2.identities_with_inlined_intermediates@,
    ensures
        forall|e: DeadColumnView|
            #[trigger] dead_columns(a2).contains(e) ==> dead_columns(a1).contains(e),
        forall|e: DeadColumnView|
            #[trigger] dead_columns(a2).contains(e) ==> exists|k: int, i: nat|
                is_dead_element(a2, k, i) && e == #[trigger] dead_entry(a2, k, i)
                    && declaration.polynomial.poly_id != Some(
                    a2.definitions@[k].1.element_id(PolynomialType::Committed, i),
                ),
{
    let decls1 = a1.public_declarations@;
    let decls2 = a2.public_declarations@;
    assert forall|id: PolyID| is_used(a1, id) implies is_used(a2, id) by {
        if constrained(a1, id) {
            let j = choose|j: int|
                0 <= j < a1.identities_with_inlined_intermediates@.len() && identity_references(
                    #[trigger] a1.identities_with_inlined_intermediates@[j],
                    id,
                );
            assert(a2.identities_with_inlined_intermediates@[j]
                == a1.identities_with_inlined_intermediates@[j]);
        }
        if publicly_declared(a1, id) {
            let j = choose|j: int|
                0 <= j < decls1.len() && (#[trigger] decls1[j]).polynomial.poly_id == Some(id);
            assert(decls2[j] == decls1[j]);
        }
    }
    lemma_more_uses_no_new_dead_columns(a1, a2);
    lemma_dead_columns_members(a2);
    assert forall|e: DeadColumnView| #[trigger] dead_columns(a2).contains(e) implies exists|
        k: int,
        i: nat,
    |
        is_dead_element(a2, k, i) && e == #[trigger] dead_entry(a2, k, i)
            && declaration.polynomial.poly_id != Some(
            a2.definitions@[k].1.element_id(PolynomialType::Committed, i),
        ) by {
        let (k, i) = choose|k: int, i: nat|
            is_dead_element(a2, k, i) && e == #[trigger] dead_entry(a2, k, i);
        let id = a2.definitions@[k].1.element_id(PolynomialType::Committed, i);
        if declaration.polynomial.poly_id == Some(id) {
            assert(decls2[decls1.len() as int] == declaration);
            assert(publicly_declared(a2, id));
        }
    }
}

/// Two elements of symbols whose names hold no `[` have different names,
/// unless they are the same element of one symbol.
proof fn lemma_element_names_differ(s1: Symbol, i1: nat, s2: Symbol, i2: nat)
    requires
        !s1.absolute_name@.contains('['),
        !s2.absolute_name@.contains('['),
        i1 < s1.element_count(),
        i2 < s2.element_count(),
        s1.absolute_name@ != s2.absolute_name@ || (s1 == s2 && i1 != i2),
    ensures
        s1.element_name(i1) != s2.element_name(i2),
{
    reveal_strlit("[");
    reveal_strlit("]");
    let a1 = s1.absolute_name@;
    let a2 = s2.absolute_name@;
    let n1 = s1.element_name(i1);
    let n2 = s2.element_name(i2);
    if n1 == n2 {
        if a1 == a2 {
            // One symbol, two indices: the decimals between the brackets differ.
            assert(s1.length is Some);
            let d1 = decimal(i1);
            let d2 = decimal(i2);
            assert(n1 == a1 + seq!['['] + d1 + seq![']']);
            assert(n2 == a1 + seq!['['] + d2 + seq![']']);
            assert(d1.len() == d2.len());
            assert(d1 =~= n1.subrange(a1.len() + 1int, a1.len() + 1 + d1.len() as int));
            assert(d2 =~= n2.subrange(a1.len() + 1int, a1.len() + 1 + d2.len() as int));
            lemma_decimal_injective(i1, i2);
        } else {
            assert(a1 =~= n1.take(a1.len() as int));
            assert(a2 =~= n2.take(a2.len() as int));
            if a1.len() == a2.len() {
                assert(a1 =~= a2);
            } else if a1.len() < a2.len() {
                assert(n1[a1.len() as int] == a2[a1.len() as int]);
                assert(a2.contains(a2[a1.len() as int]));
                if s1.length is Some {
                    assert(n1[a1.len() as int] == '[');
                }
            } else {
                assert(n2[a2.len() as int] == a1[a2.len() as int]);
                assert(a1.contains(a1[a2.len() as int]));
                if s2.length is Some {
                    assert(n2[a2.len() as int] == '[');
                }
            }
        }
    }
}

proof fn lemma_dead_elements_distinct<T>(analyzed: Analyzed<T>, sym: Symbol, n: nat)
    requires
        !sym.absolute_name@.contains('['),
        n <= sym.element_count(),
    ensures
        distinct_names(dead_elements(analyzed, sym, n)),
    decreases n,
{
    if n > 0 {
        let m = (n - 1) as nat;
        lemma_dead_elements_distinct(analyzed, sym, m);
        lemma_dead_elements_members(analyzed, sym, m);
        let prev = dead_elements(analyzed, sym, m);
        let tail = if is_used(analyzed, sym.element_id(PolynomialType::Committed, m)) {
            Seq::<DeadColumnView>::empty()
        } else {
            seq![(sym.element_name(m), sym.source@)]
        };
        let all = prev + tail;
        assert(dead_elements(analyzed, sym, n) == all);
        assert forall|i: int, j: int| 0 <= i < j < all.len() implies (#[trigger] all[i]).0 != (
        #[trigger] all[j]).0 by {
            if j < prev.len() {
                assert(all[i] == prev[i] && all[j] == prev[j]);
            } else {
                assert(all[j] == tail[0]);
                assert(all[i] == prev[i]);
                assert(prev.contains(prev[i]));
                let x = choose|x: nat|
                    x < m && !is_used(analyzed, sym.element_id(PolynomialType::Committed, x))
                        && prev[i] == (#[trigger] sym.element_name(x), sym.source@);
                lemma_element_names_differ(sym, x, sym, m);
            }
        }
    }
}

proof fn lemma_dead_columns_upto_distinct<T>(analyzed: Analyzed<T>, k: nat)
    requires
        names_well_formed(analyzed),
        k <= analyzed.definitions@.len(),
    ensures
        distinct_names(dead_columns_upto(analyzed, k)),
    decreases k,
{
    if k > 0 {
        let m = (k - 1) as nat;
        let sym = analyzed.definitions@[m as int].1;
        assert(analyzed.definitions@[m as int].0@ == sym.absolute_name@);
        lemma_dead_columns_upto_distinct(analyzed, m);
        lemma_dead_columns_upto_members(analyzed, m);
        lemma_dead_elements_members(analyzed, sym, sym.element_count());
        lemma_dead_elements_distinct(analyzed, sym, sym.element_count());
        let prev = dead_columns_upto(analyzed, m);
        let tail = if is_declared_committed(analyzed, m as int) {
            dead_elements(analyzed, sym, sym.element_count())
        } else {
            Seq::<DeadColumnView>::empty()
        };
        let all = prev + tail;
        assert(dead_columns_upto(analyzed, k) == all);
        assert forall|i: int, j: int| 0 <= i < j < all.len() implies (#[trigger] all[i]).0 != (
        #[trigger] all[j]).0 by {
            if j < prev.len() {
                assert(all[i] == prev[i] && all[j] == prev[j]);
            } else if i >= prev.len() {
                assert(all[i] == tail[i - prev.len()] && all[j] == tail[j - prev.len()]);
            } else {
                let e1 = prev[i];
                let e2 = tail[j - prev.len()];
                assert(all[i] == e1 && all[j] == e2);
                assert(prev.contains(e1));
                assert(tail.contains(e2));
                let (j1, i1) = choose|j1: int, i1: nat|
                    j1 < m && is_dead_element(analyzed, j1, i1) && e1 == #[trigger] dead_entry(
                        analyzed,
                        j1,
                        i1,
                    );
                let i2 = choose|i2: nat|
                    i2 < sym.element_count() && !is_used(
                        analyzed,
                        sym.element_id(PolynomialType::Committed, i2),
                    ) && e2 == (#[trigger] sym.element_name(i2), sym.source@);
                let sym1 = analyzed.definitions@[j1].1;
                assert(analyzed.definitions@[j1].0@ == sym1.absolute_name@);
                assert(analyzed.definitions@[j1].0@ != analyzed.definitions@[m as int].0@);
                lemma_element_names_differ(sym1, i1, sym, i2);
            }
        }
    }
}

/// In a file whose definitions have distinct names, as a PIL file's do, no
/// two dead columns share a name.
pub proof fn lemma_dead_column_names_distinct<T>(analyzed: Analyzed<T>)
    requires
        names_well_formed(analyzed),
    ensures
        distinct_names(dead_columns(analyzed)),
{
    lemma_dead_columns_upto_distinct(analyzed, analyzed.definitions@.len());
}

/// The ids of the elements of every symbol fit into a `u64`.
pub open spec fn ids_fit<T>(analyzed: Analyzed<T>) -> bool {
    forall|k: int| 0 <= k < analyzed.definitions@.len() ==> (#[trigger] analyzed.definitions@[k]).1.ids_fit()
}

/// Returns committed/witness columns (including array elements) that are declared but never used
/// by any identity (constraints/lookups/permutations), nor by public declarations.
pub fn dead_committed_columns<T>(analyzed: &Analyzed<T>) -> (r: Vec<DeadColumn>)
    requires
        ids_fit(*analyzed),
    ensures
        r@.map_values(|d: DeadColumn| d@) == dead_columns(*analyzed),
        names_well_formed(*analyzed) ==> distinct_names(r@.map_values(|d: DeadColumn| d@)),
{
    proof {
        if names_well_formed(*analyzed) {
            lemma_dead_column_names_distinct(*analyzed);
        }
    }
    let used_poly_ids = used_poly_ids(analyzed);
    let mut dead: Vec<DeadColumn> = Vec::new();
    let mut k: usize = 0;
    while k < analyzed.definitions.len()
        invariant
            k <= analyzed.definitions@.len(),
            ids_fit(*analyzed),
            forall|id: PolyID| used_poly_ids@.contains(id) <==> is_used(*analyzed, id),
            dead@.map_values(|d: DeadColumn| d@) == dead_columns_upto(*analyzed, k as nat),
        decreases analyzed.definitions@.len() - k,
    {
        let (name, sym) = &analyzed.definitions[k];
        let ghost before = dead@.map_values(|d: DeadColumn| d@);
        let committed = match sym.kind {
            SymbolKind::Poly(PolynomialType::Committed) => true,
            _ => false,
        };
        if committed && !contains_name(&analyzed.auto_added_symbols, name) {
            assert(analyzed.definitions@[k as int].1.ids_fit());
            let count: u64 = match sym.length {
                Some(n) => n,
                None => 1,
            };
            let mut i: u64 = 0;
            while i < count
                invariant
                    i <= count,
                    count == sym.element_count(),
                    sym.ids_fit(),
                    forall|id: PolyID| used_poly_ids@.contains(id) <==> is_used(*analyzed, id),
                    dead@.map_values(|d: DeadColumn| d@) == before + dead_elements(
                        *analyzed,
                        *sym,
                        i as nat,
                    ),
                decreases count - i,
            {
                let poly_id = PolyID { id: sym.id + i, ptype: PolynomialType::Committed };
                let ghost prev = dead@.map_values(|d: DeadColumn| d@);
                if !contains_id(&used_poly_ids, poly_id) {
                    let elem_name = element_name(sym, i);
                    dead.push(DeadColumn { name: elem_name, source: sym.source.clone() });
                    assert(dead@.map_values(|d: DeadColumn| d@) =~= prev.push(
                        (sym.element_name(i as nat), sym.source@),
                    ));
                } else {
                    assert(dead@.map_values(|d: DeadColumn| d@) =~= prev);
                }
                proof {
                    assert(sym.element_id(PolynomialType::Committed, i as nat) == poly_id);
                    let next = dead_elements(*analyzed, *sym, (i + 1) as nat);
                    assert(before + next =~= before + dead_elements(*analyzed, *sym, i as nat) + (
                    if is_used(*analyzed, poly_id) {
                        Seq::empty()
                    } else {
                        seq![(sym.element_name(i as nat), sym.source@)]
                    }));
                }
                i = i + 1;
            }
            assert(is_declared_committed(*analyzed, k as int));
        } else {
            assert(!is_declared_committed(*analyzed, k as int));
            assert(dead_columns_upto(*analyzed, (k + 1) as nat) =~= before);
        }
        k = k + 1;
    }
    dead
}

/// `names` holds a string with the characters of `name`.
fn contains_name(names: &Vec<String>, name: &String) -> (r: bool)
    ensures
        r == exists|j: int| 0 <= j < names@.len() && (#[trigger] names@[j])@ == name@,
{
    let mut j: usize = 0;
    while j < names.len()
        invariant
            j <= names@.len(),
            forall|l: int| 0 <= l < j ==> (#[trigger] names@[l])@ != name@,
        decreases names@.len() - j,
    {
        if names[j] == *name {
            return true;
        }
        j = j + 1;
    }
    false
}

fn contains_id(ids: &Vec<PolyID>, id: PolyID) -> (r: bool)
    ensures
        r == ids@.contains(id),
{
    let mut j: usize = 0;
    while j < ids.len()
        invariant
            j <= ids@.len(),
            forall|l: int| 0 <= l < j ==> ids@[l] != id,
        decreases ids@.len() - j,
    {
        if ids[j] == id {
            assert(ids@[j as int] == id);
            return true;
        }
        j = j + 1;
    }
    false
}

/// The name of the element `i` of `sym`: `name[i]` in an array.
fn element_name(sym: &Symbol, i: u64) -> (r: String)
    ensures
        r@ == sym.element_name(i as nat),
{
    if sym.length.is_some() {
        let mut r = sym.absolute_name.clone();
        r.append("[");
        r.append(decimal_string(i).as_str());
        r.append("]");
        r
    } else {
        sym.absolute_name.clone()
    }
}

/// The report line of one dead column.
pub open spec fn dead_column_line(d: (Seq<char>, (Option<Seq<char>>, usize, usize))) -> Seq<char> {
    "- "@ + d.0 + " ("@ + source_text(d.1) + ")"@
}

/// The error message that lists the dead columns `dead`.
pub open spec fn dead_columns_report(dead: Seq<(Seq<char>, (Option<Seq<char>>, usize, usize))>) -> Seq<
    char,
> {
    "Dead committed columns detected (declared but never referenced by any constraint/lookup/permutation/public declaration):\n"@
        + join_spec(dead.map_values(|d: (Seq<char>, (Option<Seq<char>>, usize, usize))| dead_column_line(d)), "\n"@)
}

pub fn check_no_dead_committed_columns<T>(analyzed: &Analyzed<T>) -> (r: Result<(), String>)
    requires
        ids_fit(*analyzed),
    ensures
        dead_columns(*analyzed).len() == 0 <==> r is Ok,
        all_committed_used(*analyzed) <==> r is Ok,
        r matches Err(message) ==> message@ == dead_columns_report(dead_columns(*analyzed)),
{
    proof {
        lemma_no_dead_columns_iff_all_used(*analyzed);
    }
    let dead = dead_committed_columns(analyzed);
    if dead.len() == 0 {
        return Ok(());
    }
    let mut lines: Vec<String> = Vec::new();
    let mut i: usize = 0;
    while i < dead.len()
        invariant
            i <= dead@.len(),
            lines@.len() == i,
            forall|k: int| 0 <= k < i ==> (#[trigger] lines@[k])@ == dead_column_line(dead@[k]@),
        decreases dead@.len() - i,
    {
        let mut line = String::from_str("- ");
        line.append(dead[i].name.as_str());
        line.append(" (");
        line.append(format_source(&dead[i].source).as_str());
        line.append(")");
        lines.push(line);
        i = i + 1;
    }
    let formatted = join(lines.as_slice(), "\n");
    let ghost views = dead@.map_values(|d: DeadColumn| d@);
    assert(strings_view(lines@) =~= views.map_values(
        |d: (Seq<char>, (Option<Seq<char>>, usize, usize))| dead_column_line(d),
    ));
    let mut message = String::from_str(
        "Dead committed columns detected (declared but never referenced by any constraint/lookup/permutation/public declaration):\n",
    );
    message.append(formatted.as_str());
    Err(message)
}

/// The text of a source reference: `file:start..end`.
pub open spec fn source_text(source: (Option<Seq<char>>, usize, usize)) -> Seq<char> {
    let file = match source.0 {
        Some(f) => f,
        None => "<unknown>"@,
    };
    file + ":"@ + decimal(source.1 as nat) + ".."@ + decimal(source.2 as nat)
}

fn format_source(source: &SourceRef) -> (r: String)
    ensures
        r@ == source_text(source@),
{
    let mut r = match &source.file_name {
        Some(f) => f.clone(),
        None => String::from_str("<unknown>"),
    };
    r.append(":");
    r.append(decimal_string(source.start as u64).as_str());
    r.append("..");
    r.append(decimal_string(source.end as u64).as_str());
    r
}

fn used_poly_ids<T>(analyzed: &Analyzed<T>) -> (used: Vec<PolyID>)
    ensures
        forall|id: PolyID| used@.contains(id) <==> is_used(*analyzed, id),
{
    let mut used: Vec<PolyID> = Vec::new();

    // Count usage from public declarations.
    let mut i: usize = 0;
    while i < analyzed.public_declarations.len()
        invariant
            i <= analyzed.public_declarations@.len(),
            forall|id: PolyID|
                used@.contains(id) <==> exists|j: int|
                    0 <= j < i && (#[trigger] analyzed.public_declarations@[j]).polynomial.poly_id
                        == Some(id),
        decreases analyzed.public_declarations@.len() - i,
    {
        used_from_public_declaration(&analyzed.public_declarations[i], &mut used);
        proof {
            assert forall|id: PolyID| used@.contains(id) <==> exists|j: int|
                0 <= j < i + 1 && (#[trigger] analyzed.public_declarations@[j]).polynomial.poly_id
                    == Some(id) by {
                if analyzed.public_declarations@[i as int].polynomial.poly_id == Some(id) {
                    assert(0 <= i < i + 1);
                }
            }
        }
        i = i + 1;
    }

    // Count usage from identities, after inlining intermediates.
    let mut i: usize = 0;
    while i < analyzed.identities_with_inlined_intermediates.len()
        invariant
            i <= analyzed.identities_with_inlined_intermediates@.len(),
            forall|id: PolyID|
                used@.contains(id) <==> publicly_declared(*analyzed, id) || exists|j: int|
                    0 <= j < i && identity_references(
                        #[trigger] analyzed.identities_with_inlined_intermediates@[j],
                        id,
                    ),
        decreases analyzed.identities_with_inlined_intermediates@.len() - i,
    {
        let identity = &analyzed.identities_with_inlined_intermediates[i];
        let ghost before = used@;
        collect_selected(&identity.left, &mut used);
        let ghost mid = used@;
        collect_selected(&identity.right, &mut used);
        proof {
            assert forall|id: PolyID| used@.contains(id) <==> before.contains(id) || identity_references(*identity, id) by {
                assert(mid.contains(id) <==> before.contains(id) || selected_references(identity.left, id));
                assert(used@.contains(id) <==> mid.contains(id) || selected_references(identity.right, id));
            }
            assert forall|id: PolyID| used@.contains(id) <==> publicly_declared(*analyzed, id)
                || exists|j: int|
                0 <= j < i + 1 && identity_references(
                    #[trigger] analyzed.identities_with_inlined_intermediates@[j],
                    id,
                ) by {
                assert(analyzed.identities_with_inlined_intermediates@[i as int] == *identity);
                if identity_references(*identity, id) {
                    assert(0 <= i < i + 1);
                }
            }
        }
        i = i + 1;
    }

    used
}

fn collect_selected<T>(
    selected: &SelectedExpressions<AlgebraicExpression<T>>,
    used: &mut Vec<PolyID>,
)
    ensures
        forall|id: PolyID|
            #![trigger final(used)@.contains(id)]
            #![trigger old(used)@.contains(id)]
            #![trigger selected_references(*selected, id)]
            final(used)@.contains(id) <==> old(used)@.contains(id) || selected_references(
                *selected,
                id,
            ),
{
    let ghost start = used@;
    let selector_ids: Vec<PolyID> = match &selected.selector {
        Some(e) => poly_ids_of(e),
        None => Vec::new(),
    };
    assert(forall|id: PolyID| selector_ids@.contains(id) <==> selector_references(*selected, id));
    insert_all(used, &selector_ids);
    let ghost after_selector = used@;
    let ghost exprs = selected.expressions@;
    let mut k: usize = 0;
    while k < selected.expressions.len()
        invariant
            k <= exprs.len(),
            exprs == selected.expressions@,
            forall|id: PolyID|
                #![trigger after_selector.contains(id)]
                after_selector.contains(id) <==> start.contains(id) || selector_references(
                    *selected,
                    id,
                ),
            forall|id: PolyID|
                #![trigger used@.contains(id)]
                used@.contains(id) <==> after_selector.contains(id) || any_references(
                    exprs.take(k as int),
                    id,
                ),
        decreases exprs.len() - k,
    {
        let ghost before = used@;
        collect_poly_ids(&selected.expressions[k], used);
        proof {
            assert(exprs.take(k + 1) =~= exprs.take(k as int).push(exprs[k as int]));
            assert forall|id: PolyID| #![trigger used@.contains(id)] used@.contains(id) <==> after_selector.contains(id)
                || any_references(exprs.take(k + 1), id) by {
                lemma_any_references_push(exprs.take(k as int), exprs[k as int], id);
                assert(used@.contains(id) <==> before.contains(id) || references(exprs[k as int], id));
            }
        }
        k = k + 1;
    }
    assert(exprs.take(k as int) =~= exprs);
}

/// Some expression of `s` refers to `id`.
pub open spec fn any_references<T>(s: Seq<AlgebraicExpression<T>>, id: PolyID) -> bool {
    exists|l: int| 0 <= l < s.len() && references(#[trigger] s[l], id)
}

proof fn lemma_any_references_push<T>(s: Seq<AlgebraicExpression<T>>, e: AlgebraicExpression<T>, id: PolyID)
    ensures
        any_references(s.push(e), id) <==> any_references(s, id) || references(e, id),
{
    if references(e, id) {
        assert(s.push(e)[s.len() as int] == e);
    }
    if any_references(s, id) {
        let l = choose|l: int| 0 <= l < s.len() && references(#[trigger] s[l], id);
        assert(s.push(e)[l] == s[l]);
    }
    if any_references(s.push(e), id) {
        let l = choose|l: int| 0 <= l < s.push(e).len() && references(#[trigger] s.push(e)[l], id);
        if l < s.len() {
            assert(s[l] == s.push(e)[l]);
        }
    }
}

proof fn lemma_push_contains(s: Seq<PolyID>, x: PolyID)
    ensures
        forall|id: PolyID| #[trigger] s.push(x).contains(id) <==> s.contains(id) || id == x,
{
    assert forall|id: PolyID| s.push(x).contains(id) <==> s.contains(id) || id == x by {
        if s.contains(id) {
            let j = choose|j: int| 0 <= j < s.len() && s[j] == id;
            assert(s.push(x)[j] == id);
        }
        if id == x {
            assert(s.push(x)[s.len() as int] == id);
        }
        if s.push(x).contains(id) && id != x {
            let j = choose|j: int| 0 <= j < s.push(x).len() && s.push(x)[j] == id;
            assert(s[j] == id);
        }
    }
}

fn insert_id(used: &mut Vec<PolyID>, poly_id: PolyID)
    ensures
        forall|id: PolyID|
            #![trigger final(used)@.contains(id)]
            #![trigger old(used)@.contains(id)]
            final(used)@.contains(id) <==> old(used)@.contains(id) || id == poly_id,
{
    used.push(poly_id);
    proof {
        lemma_push_contains(old(used)@, poly_id);
        assert forall|id: PolyID| used@.contains(id) <==> old(used)@.contains(id) || id == poly_id by {
            assert(old(used)@.push(poly_id).contains(id) <==> old(used)@.contains(id) || id == poly_id);
        }
    }
}

fn used_from_public_declaration(decl: &PublicDeclaration, used: &mut Vec<PolyID>)
    ensures
        forall|id: PolyID|
            #![trigger final(used)@.contains(id)]
            #![trigger old(used)@.contains(id)]
            final(used)@.contains(id) <==> old(used)@.contains(id) || decl.polynomial.poly_id == Some(
                id,
            ),
{
    // Note: poly_id is filled in during condensation.
    if let Some(poly_id) = decl.polynomial.poly_id {
        insert_id(used, poly_id);
    }
}

fn collect_poly_ids<T>(expr: &AlgebraicExpression<T>, used: &mut Vec<PolyID>)
    ensures
        forall|id: PolyID|
            #![trigger final(used)@.contains(id)]
            #![trigger old(used)@.contains(id)]
            #![trigger references(*expr, id)]
            final(used)@.contains(id) <==> old(used)@.contains(id) || references(*expr, id),
{
    let ids = poly_ids_of(expr);
    insert_all(used, &ids);
}

/// Adds `ids` to `used`.
fn insert_all(used: &mut Vec<PolyID>, ids: &Vec<PolyID>)
    ensures
        forall|id: PolyID|
            #![trigger final(used)@.contains(id)]
            #![trigger old(used)@.contains(id)]
            #![trigger ids@.contains(id)]
            final(used)@.contains(id) <==> old(used)@.contains(id) || ids@.contains(id),
{
    let ghost found = ids@;
    let mut k: usize = 0;
    while k < ids.len()
        invariant
            k <= ids@.len(),
            found == ids@,
            forall|id: PolyID|
                used@.contains(id) <==> old(used)@.contains(id) || found.take(k as int).contains(id),
        decreases ids@.len() - k,
    {
        proof {
            assert(found.take(k + 1) =~= found.take(k as int).push(found[k as int]));
            lemma_push_contains(found.take(k as int), found[k as int]);
        }
        insert_id(used, ids[k]);
        k = k + 1;
    }
    assert(found.take(k as int) =~= found);
}

proof fn lemma_concat_contains<A>(a: Seq<A>, b: Seq<A>, id: A)
    ensures
        (a + b).contains(id) <==> a.contains(id) || b.contains(id),
{
    if a.contains(id) {
        let j = choose|j: int| 0 <= j < a.len() && a[j] == id;
        assert((a + b)[j] == id);
    }
    if b.contains(id) {
        let j = choose|j: int| 0 <= j < b.len() && b[j] == id;
        assert((a + b)[a.len() + j] == id);
    }
    if (a + b).contains(id) {
        let j = choose|j: int| 0 <= j < (a + b).len() && (a + b)[j] == id;
        if j < a.len() {
            assert(a[j] == id);
        } else {
            assert(b[j - a.len()] == id);
        }
    }
}

/// The polynomials that `expr` refers to, each at least once.
fn poly_ids_of<T>(expr: &AlgebraicExpression<T>) -> (ids: Vec<PolyID>)
    ensures
        forall|id: PolyID|
            #![trigger ids@.contains(id)]
            #![trigger references(*expr, id)]
            ids@.contains(id) <==> references(*expr, id),
    decreases expr,
{
    match expr {
        AlgebraicExpression::Reference(r) => {
            let mut ids = Vec::new();
            ids.push(r.poly_id);
            proof {
                assert forall|id: PolyID| ids@.contains(id) <==> references(*expr, id) by {
                    if id == r.poly_id {
                        assert(ids@[0] == id);
                    }
                }
            }
            ids
        },
        AlgebraicExpression::BinaryOperation(op) => {
            let mut ids = poly_ids_of(&op.left);
            let mut right = poly_ids_of(&op.right);
            let ghost (l, r) = (ids@, right@);
            ids.append(&mut right);
            proof {
                assert forall|id: PolyID| ids@.contains(id) <==> references(*expr, id) by {
                    lemma_concat_contains(l, r, id);
                }
            }
            ids
        },
        AlgebraicExpression::UnaryOperation(op) => poly_ids_of(&op.expr),
        AlgebraicExpression::PublicReference(_)
        | AlgebraicExpression::Challenge(_)
        | AlgebraicExpression::Number(_) => Vec::new(),
    }
}

/// A committed column that no identity relates to another column.
#[derive(Debug, PartialEq, Eq)]
pub struct IsolatedColumn {
    pub name: String,
    pub source: SourceRef,
}

impl View for IsolatedColumn {
    type V = (Seq<char>, (Option<Seq<char>>, usize, usize));

    open spec fn view(&self) -> Self::V {
        (self.name@, self.source@)
    }
}

/// Some identity refers both to `id` and to another polynomial.
pub open spec fn shares_an_identity<T>(analyzed: Analyzed<T>, id: PolyID) -> bool {
    exists|j: int, other: PolyID|
        #![trigger identity_references(analyzed.identities_with_inlined_intermediates@[j], other)]
        0 <= j < analyzed.identities_with_inlined_intermediates@.len() && identity_references(
            analyzed.identities_with_inlined_intermediates@[j],
            id,
        ) && other != id && identity_references(
            analyzed.identities_with_inlined_intermediates@[j],
            other,
        )
}

/// The elements `0..n` of the committed symbol `sym` that share no identity
/// with another polynomial, in order, each with its name and the source of
/// `sym`.
pub open spec fn isolated_elements<T>(analyzed: Analyzed<T>, sym: Symbol, n: nat) -> Seq<
    DeadColumnView,
>
    decreases n,
{
    if n == 0 {
        Seq::empty()
    } else {
        let i = (n - 1) as nat;
        isolated_elements(analyzed, sym, i) + if shares_an_identity(
            analyzed,
            sym.element_id(PolynomialType::Committed, i),
        ) {
            Seq::empty()
        } else {
            seq![(sym.element_name(i), sym.source@)]
        }
    }
}

/// The isolated columns of the definitions `0..k`, in order.
pub open spec fn isolated_columns_upto<T>(analyzed: Analyzed<T>, k: nat) -> Seq<DeadColumnView>
    decreases k,
{
    if k == 0 {
        Seq::empty()
    } else {
        let sym = analyzed.definitions@[k - 1].1;
        isolated_columns_upto(analyzed, (k - 1) as nat) + if is_declared_committed(
            analyzed,
            k - 1,
        ) {
            isolated_elements(analyzed, sym, sym.element_count())
        } else {
            Seq::empty()
        }
    }
}

/// The committed columns (array elements one by one) that the source
/// declared and that no identity (after inlining intermediate polynomials)
/// relates to another polynomial, in the order of their declarations. A
/// column that no identity mentions is isolated too.
pub open spec fn isolated_columns<T>(analyzed: Analyzed<T>) -> Seq<DeadColumnView> {
    isolated_columns_upto(analyzed, analyzed.definitions@.len())
}

/// The polynomials that `identity` refers to, each at least once.
fn identity_poly_ids<T>(identity: &Identity<T>) -> (ids: Vec<PolyID>)
    ensures
        forall|id: PolyID| #[trigger] ids@.contains(id) <==> identity_references(*identity, id),
{
    let mut ids: Vec<PolyID> = Vec::new();
    collect_selected(&identity.left, &mut ids);
    let ghost mid = ids@;
    collect_selected(&identity.right, &mut ids);
    proof {
        assert forall|id: PolyID| #[trigger] ids@.contains(id) <==> identity_references(
            *identity,
            id,
        ) by {
            assert(mid.contains(id) <==> Seq::<PolyID>::empty().contains(id) || selected_references(
                identity.left,
                id,
            ));
            assert(ids@.contains(id) <==> mid.contains(id) || selected_references(
                identity.right,
                id,
            ));
        }
    }
    ids
}

/// `ids` holds a polynomial other than `id`.
fn contains_other(ids: &Vec<PolyID>, id: PolyID) -> (r: bool)
    ensures
        r == exists|other: PolyID| #[trigger] ids@.contains(other) && other != id,
{
    let mut j: usize = 0;
    while j < ids.len()
        invariant
            j <= ids@.len(),
            forall|l: int| 0 <= l < j ==> ids@[l] == id,
        decreases ids@.len() - j,
    {
        if ids[j] != id {
            assert(ids@.contains(ids@[j as int]));
            return true;
        }
        j = j + 1;
    }
    assert forall|other: PolyID| #[trigger] ids@.contains(other) implies other == id by {
        let l = choose|l: int| 0 <= l < ids@.len() && ids@[l] == other;
    }
    false
}

/// Returns true if some identity refers both to `id` and to another polynomial.
fn shares_identity<T>(analyzed: &Analyzed<T>, id: PolyID) -> (r: bool)
    ensures
        r == shares_an_identity(*analyzed, id),
{
    let identities = &analyzed.identities_with_inlined_intermediates;
    let mut j: usize = 0;
    while j < identities.len()
        invariant
            j <= identities@.len(),
            identities == &analyzed.identities_with_inlined_intermediates,
            forall|l: int, other: PolyID|
                #![trigger identity_references(identities@[l], other)]
                0 <= l < j && identity_references(identities@[l], id) && other != id
                    ==> !identity_references(identities@[l], other),
        decreases identities@.len() - j,
    {
        let ids = identity_poly_ids(&identities[j]);
        if contains_id(&ids, id) && contains_other(&ids, id) {
            proof {
                let other = choose|other: PolyID| #[trigger] ids@.contains(other) && other != id;
                assert(identity_references(identities@[j as int], other));
            }
            return true;
        }
        proof {
            assert forall|l: int, other: PolyID|
                #![trigger identity_references(identities@[l], other)]
                0 <= l < j + 1 && identity_references(identities@[l], id) && other != id
                    implies !identity_references(identities@[l], other) by {
                if l == j {
                    if identity_references(identities@[l], other) {
                        assert(ids@.contains(other));
                    }
                }
            }
        }
        j = j + 1;
    }
    false
}

/// Returns the committed columns (array elements one by one) that no
/// identity relates to any other polynomial: each one is constrained, if
/// at all, only on its own.
pub fn isolated_committed_columns<T>(analyzed: &Analyzed<T>) -> (r: Vec<IsolatedColumn>)
    requires
        ids_fit(*analyzed),
    ensures
        r@.map_values(|c: IsolatedColumn| c@) == isolated_columns(*analyzed),
{
    let mut isolated: Vec<IsolatedColumn> = Vec::new();
    let mut k: usize = 0;
    while k < analyzed.definitions.len()
        invariant
            k <= analyzed.definitions@.len(),
            ids_fit(*analyzed),
            isolated@.map_values(|c: IsolatedColumn| c@) == isolated_columns_upto(
                *analyzed,
                k as nat,
            ),
        decreases analyzed.definitions@.len() - k,
    {
        let (name, sym) = &analyzed.definitions[k];
        let ghost before = isolated@.map_values(|c: IsolatedColumn| c@);
        let committed = match sym.kind {
            SymbolKind::Poly(PolynomialType::Committed) => true,
            _ => false,
        };
        if committed && !contains_name(&analyzed.auto_added_symbols, name) {
            assert(analyzed.definitions@[k as int].1.ids_fit());
            let count: u64 = match sym.length {
                Some(n) => n,
                None => 1,
            };
            let mut i: u64 = 0;
            while i < count
                invariant
                    i <= count,
                    count == sym.element_count(),
                    sym.ids_fit(),
                    isolated@.map_values(|c: IsolatedColumn| c@) == before + isolated_elements(
                        *analyzed,
                        *sym,
                        i as nat,
                    ),
                decreases count - i,
            {
                let poly_id = PolyID { id: sym.id + i, ptype: PolynomialType::Committed };
                let ghost prev = isolated@.map_values(|c: IsolatedColumn| c@);
                if !shares_identity(analyzed, poly_id) {
                    let elem_name = element_name(sym, i);
                    isolated.push(IsolatedColumn { name: elem_name, source: sym.source.clone() });
                    assert(isolated@.map_values(|c: IsolatedColumn| c@) =~= prev.push(
                        (sym.element_name(i as nat), sym.source@),
                    ));
                } else {
                    assert(isolated@.map_values(|c: IsolatedColumn| c@) =~= prev);
                }
                proof {
                    assert(sym.element_id(PolynomialType::Committed, i as nat) == poly_id);
                    let next = isolated_elements(*analyzed, *sym, (i + 1) as nat);
                    assert(before + next =~= before + isolated_elements(*analyzed, *sym, i as nat)
                        + (if shares_an_identity(*analyzed, poly_id) {
                        Seq::empty()
                    } else {
                        seq![(sym.element_name(i as nat), sym.source@)]
                    }));
                }
                i = i + 1;
            }
            assert(is_declared_committed(*analyzed, k as int));
        } else {
            assert(!is_declared_committed(*analyzed, k as int));
            assert(isolated_columns_upto(*analyzed, (k + 1) as nat) =~= before);
        }
        k = k + 1;
    }
    isolated
}

proof fn lemma_dead_elements_isolated<T>(analyzed: Analyzed<T>, sym: Symbol, n: nat)
    ensures
        forall|e: DeadColumnView|
            #[trigger] dead_elements(analyzed, sym, n).contains(e) ==> isolated_elements(
                analyzed,
                sym,
                n,
            ).contains(e),
    decreases n,
{
    if n > 0 {
        let m = (n - 1) as nat;
        lemma_dead_elements_isolated(analyzed, sym, m);
        let id = sym.element_id(PolynomialType::Committed, m);
        if !is_used(analyzed, id) && shares_an_identity(analyzed, id) {
            let (j, other) = choose|j: int, other: PolyID|
                #![trigger identity_references(analyzed.identities_with_inlined_intermediates@[j], other)]
                0 <= j < analyzed.identities_with_inlined_intermediates@.len()
                    && identity_references(analyzed.identities_with_inlined_intermediates@[j], id)
                    && other != id && identity_references(
                    analyzed.identities_with_inlined_intermediates@[j],
                    other,
                );
            assert(constrained(analyzed, id));
        }
        let dead_tail = if is_used(analyzed, id) {
            Seq::<DeadColumnView>::empty()
        } else {
            seq![(sym.element_name(m), sym.source@)]
        };
        let isolated_tail = if shares_an_identity(analyzed, id) {
            Seq::<DeadColumnView>::empty()
        } else {
            seq![(sym.element_name(m), sym.source@)]
        };
        assert forall|e: DeadColumnView| #[trigger]
            dead_elements(analyzed, sym, n).contains(e) implies isolated_elements(
            analyzed,
            sym,
            n,
        ).contains(e) by {
            lemma_concat_contains(dead_elements(analyzed, sym, m), dead_tail, e);
            lemma_concat_contains(isolated_elements(analyzed, sym, m), isolated_tail, e);
            if dead_tail.contains(e) {
                assert(isolated_tail.contains(e));
            }
        }
    }
}

proof fn lemma_dead_columns_upto_isolated<T>(analyzed: Analyzed<T>, k: nat)
    requires
        k <= analyzed.definitions@.len(),
    ensures
        forall|e: DeadColumnView|
            #[trigger] dead_columns_upto(analyzed, k).contains(e) ==> isolated_columns_upto(
                analyzed,
                k,
            ).contains(e),
    decreases k,
{
    if k > 0 {
        let m = (k - 1) as nat;
        let sym = analyzed.definitions@[m as int].1;
        lemma_dead_columns_upto_isolated(analyzed, m);
        lemma_dead_elements_isolated(analyzed, sym, sym.element_count());
        let committed = is_declared_committed(analyzed, m as int);
        let dead_tail = if committed {
            dead_elements(analyzed, sym, sym.element_count())
        } else {
            Seq::<DeadColumnView>::empty()
        };
        let isolated_tail = if committed {
            isolated_elements(analyzed, sym, sym.element_count())
        } else {
            Seq::<DeadColumnView>::empty()
        };
        assert forall|e: DeadColumnView| #[trigger]
            dead_columns_upto(analyzed, k).contains(e) implies isolated_columns_upto(
            analyzed,
            k,
        ).contains(e) by {
            lemma_concat_contains(dead_columns_upto(analyzed, m), dead_tail, e);
            lemma_concat_contains(isolated_columns_upto(analyzed, m), isolated_tail, e);
        }
    }
}

/// Every dead column is isolated: a column that nothing uses shares no
/// identity with another one.
pub proof fn lemma_dead_columns_are_isolated<T>(analyzed: Analyzed<T>)
    ensures
        forall|e: DeadColumnView|
            #[trigger] dead_columns(analyzed).contains(e) ==> isolated_columns(analyzed).contains(e),
{
    lemma_dead_columns_upto_isolated(analyzed, analyzed.definitions@.len());
}

/// What `references` means, constructor by constructor: a reference refers
/// to its own polynomial, an operation to whatever its operands refer to
/// (under a unary minus as much as anywhere), and the other leaves to
/// nothing.
pub proof fn lemma_references_by_constructor<T>()
    ensures
        forall|r: AlgebraicReference, id: PolyID|
            #[trigger] references(AlgebraicExpression::<T>::Reference(r), id) <==> r.poly_id == id,
        forall|op: AlgebraicBinaryOperation<T>, id: PolyID|
            #[trigger] references(AlgebraicExpression::BinaryOperation(op), id) <==> references(
                *op.left,
                id,
            ) || references(*op.right, id),
        forall|op: AlgebraicUnaryOperation<T>, id: PolyID|
            #[trigger] references(AlgebraicExpression::UnaryOperation(op), id) <==> references(
                *op.expr,
                id,
            ),
        forall|name: String, id: PolyID|
            !#[trigger] references(AlgebraicExpression::<T>::PublicReference(name), id),
        forall|c: Challenge, id: PolyID|
            !#[trigger] references(AlgebraicExpression::<T>::Challenge(c), id),
        forall|n: T, id: PolyID| !#[trigger] references(AlgebraicExpression::<T>::Number(n), id),
{
}

/// An identity refers to every polynomial that its selectors or any of its
/// expressions refer to, on either side, and to no other.
pub proof fn lemma_identity_references_by_parts<T>()
    ensures
        forall|
            left: SelectedExpressions<AlgebraicExpression<T>>,
            right: SelectedExpressions<AlgebraicExpression<T>>,
            id: PolyID,
        |
            #[trigger] identity_references(Identity { left, right }, id) <==> {
                ||| left.selector matches Some(e) && references(e, id)
                ||| right.selector matches Some(e) && references(e, id)
                ||| exists|i: int|
                    0 <= i < left.expressions@.len() && references(
                        #[trigger] left.expressions@[i],
                        id,
                    )
                ||| exists|i: int|
                    0 <= i < right.expressions@.len() && references(
                        #[trigger] right.expressions@[i],
                        id,
                    )
            },
{
}

/// A polynomial that an identity refers to is used, so no column of it is
/// dead.
pub proof fn lemma_referenced_columns_are_not_dead<T>(
    analyzed: Analyzed<T>,
    j: int,
    k: int,
    i: nat,
)
    requires
        0 <= j < analyzed.identities_with_inlined_intermediates@.len(),
        identity_references(
            analyzed.identities_with_inlined_intermediates@[j],
            analyzed.definitions@[k].1.element_id(PolynomialType::Committed, i),
        ),
    ensures
        !is_dead_element(analyzed, k, i),
{
}

/// The element `i` of the definition `k` is a committed column that the
/// source declared and that no identity relates to another polynomial.
pub open spec fn is_isolated_element<T>(analyzed: Analyzed<T>, k: int, i: nat) -> bool {
    &&& 0 <= k < analyzed.definitions@.len()
    &&& is_declared_committed(analyzed, k)
    &&& i < analyzed.definitions@[k].1.element_count()
    &&& !shares_an_identity(
        analyzed,
        analyzed.definitions@[k].1.element_id(PolynomialType::Committed, i),
    )
}

proof fn lemma_isolated_elements_members<T>(analyzed: Analyzed<T>, sym: Symbol, n: nat)
    ensures
        forall|e: DeadColumnView|
            #[trigger] isolated_elements(analyzed, sym, n).contains(e) ==> exists|i: nat|
                i < n && !shares_an_identity(analyzed, sym.element_id(PolynomialType::Committed, i))
                    && e == (#[trigger] sym.element_name(i), sym.source@),
    decreases n,
{
    if n > 0 {
        let m = (n - 1) as nat;
        lemma_isolated_elements_members(analyzed, sym, m);
        let prev = isolated_elements(analyzed, sym, m);
        let tail = if shares_an_identity(analyzed, sym.element_id(PolynomialType::Committed, m)) {
            Seq::<DeadColumnView>::empty()
        } else {
            seq![(sym.element_name(m), sym.source@)]
        };
        assert forall|e: DeadColumnView| #[trigger]
            isolated_elements(analyzed, sym, n).contains(e) implies exists|i: nat|
            i < n && !shares_an_identity(analyzed, sym.element_id(PolynomialType::Committed, i))
                && e == (#[trigger] sym.element_name(i), sym.source@) by {
            lemma_concat_contains(prev, tail, e);
            if tail.contains(e) {
                assert(e == (sym.element_name(m), sym.source@));
            }
        }
    }
}

proof fn lemma_isolated_columns_upto_members<T>(analyzed: Analyzed<T>, k: nat)
    requires
        k <= analyzed.definitions@.len(),
    ensures
        forall|e: DeadColumnView|
            #[trigger] isolated_columns_upto(analyzed, k).contains(e) ==> exists|j: int, i: nat|
                j < k && is_isolated_element(analyzed, j, i) && e == #[trigger] dead_entry(
                    analyzed,
                    j,
                    i,
                ),
    decreases k,
{
    if k > 0 {
        let m = (k - 1) as nat;
        let sym = analyzed.definitions@[m as int].1;
        lemma_isolated_columns_upto_members(analyzed, m);
        lemma_isolated_elements_members(analyzed, sym, sym.element_count());
        let prev = isolated_columns_upto(analyzed, m);
        let tail = if is_declared_committed(analyzed, m as int) {
            isolated_elements(analyzed, sym, sym.element_count())
        } else {
            Seq::<DeadColumnView>::empty()
        };
        assert forall|e: DeadColumnView| #[trigger]
            isolated_columns_upto(analyzed, k).contains(e) implies exists|j: int, i: nat|
            j < k && is_isolated_element(analyzed, j, i) && e == #[trigger] dead_entry(
                analyzed,
                j,
                i,
            ) by {
            lemma_concat_contains(prev, tail, e);
            if tail.contains(e) {
                let i = choose|i: nat|
                    i < sym.element_count() && !shares_an_identity(
                        analyzed,
                        sym.element_id(PolynomialType::Committed, i),
                    ) && e == (#[trigger] sym.element_name(i), sym.source@);
                assert(is_isolated_element(analyzed, m as int, i));
                assert(e == dead_entry(analyzed, m as int, i));
            }
        }
    }
}

/// Every isolated column is a committed column that the source declared and
/// that no identity of the file, wherever it stands, refers to together
/// with another polynomial.
pub proof fn lemma_isolated_columns_share_no_identity<T>(analyzed: Analyzed<T>)
    ensures
        forall|e: DeadColumnView|
            #[trigger] isolated_columns(analyzed).contains(e) ==> exists|k: int, i: nat|
                #![trigger dead_entry(analyzed, k, i)]
                {
                    let id = analyzed.definitions@[k].1.element_id(PolynomialType::Committed, i);
                    &&& 0 <= k < analyzed.definitions@.len()
                    &&& is_declared_committed(analyzed, k)
                    &&& i < analyzed.definitions@[k].1.element_count()
                    &&& e == dead_entry(analyzed, k, i)
                    &&& forall|j: int, other: PolyID|
                        #![trigger identity_references(analyzed.identities_with_inlined_intermediates@[j], other)]
                        0 <= j < analyzed.identities_with_inlined_intermediates@.len()
                            && identity_references(
                            analyzed.identities_with_inlined_intermediates@[j],
                            id,
                        ) && identity_references(
                            analyzed.identities_with_inlined_intermediates@[j],
                            other,
                        ) ==> other == id
                }
        ,
{
    lemma_isolated_columns_upto_members(analyzed, analyzed.definitions@.len());
    assert forall|e: DeadColumnView| #[trigger] isolated_columns(analyzed).contains(e) implies exists|
        k: int,
        i: nat,
    |
        #![trigger dead_entry(analyzed, k, i)]
        {
            let id = analyzed.definitions@[k].1.element_id(PolynomialType::Committed, i);
            &&& 0 <= k < analyzed.definitions@.len()
            &&& is_declared_committed(analyzed, k)
            &&& i < analyzed.definitions@[k].1.element_count()
            &&& e == dead_entry(analyzed, k, i)
            &&& forall|j: int, other: PolyID|
                #![trigger identity_references(analyzed.identities_with_inlined_intermediates@[j], other)]
                0 <= j < analyzed.identities_with_inlined_intermediates@.len()
                    && identity_references(analyzed.identities_with_inlined_intermediates@[j], id)
                    && identity_references(analyzed.identities_with_inlined_intermediates@[j], other)
                    ==> other == id
        } by {
        let (k, i) = choose|k: int, i: nat|
            k < analyzed.definitions@.len() && is_isolated_element(analyzed, k, i) && e
                == #[trigger] dead_entry(analyzed, k, i);
        let id = analyzed.definitions@[k].1.element_id(PolynomialType::Committed, i);
        assert forall|j: int, other: PolyID|
            #![trigger identity_references(analyzed.identities_with_inlined_intermediates@[j], other)]
            0 <= j < analyzed.identities_with_inlined_intermediates@.len() && identity_references(
                analyzed.identities_with_inlined_intermediates@[j],
                id,
            ) && identity_references(analyzed.identities_with_inlined_intermediates@[j], other)
                implies other == id by {
            if other != id {
                assert(shares_an_identity(analyzed, id));
            }
        }
    }
}

} // verus!
