use vstd::prelude::*;

use crate::parsed::SelectedExpressions;
use crate::text::decimal;

verus! {

/// A reference to a span of a source file.
#[derive(Debug, PartialEq, Eq)]
pub struct SourceRef {
    pub file_name: Option<String>,
    pub start: usize,
    pub end: usize,
}

impl View for SourceRef {
    type V = (Option<Seq<char>>, usize, usize);

    open spec fn view(&self) -> Self::V {
        (
            match self.file_name {
                Some(f) => Some(f@),
                None => None,
            },
            self.start,
            self.end,
        )
    }
}

impl Clone for SourceRef {
    fn clone(&self) -> (r: Self)
        ensures
            r@ == self@,
    {
        SourceRef {
            file_name: match &self.file_name {
                Some(f) => Some(f.clone()),
                None => None,
            },
            start: self.start,
            end: self.end,
        }
    }
}

#[derive(Debug, PartialEq, Eq, Structural, Clone, Copy)]
pub enum PolynomialType {
    Committed,
    Constant,
    Intermediate,
}

/// The identity of a polynomial: its number and its type.
#[derive(Debug, PartialEq, Eq, Structural, Clone, Copy)]
pub struct PolyID {
    pub id: u64,
    pub ptype: PolynomialType,
}

#[derive(Debug, PartialEq, Eq, Structural, Clone, Copy)]
pub enum SymbolKind {
    /// A polynomial (column).
    Poly(PolynomialType),
    /// A constant value.
    Constant,
    /// Any other symbol.
    Other,
}

/// A declared symbol: a polynomial, an array of polynomials or another name.
#[derive(Debug)]
pub struct Symbol {
    pub id: u64,
    pub source: SourceRef,
    pub absolute_name: String,
    pub kind: SymbolKind,
    pub length: Option<u64>,
}

impl Symbol {
    /// The number of elements: the length of an array, one otherwise.
    pub open spec fn element_count(self) -> nat {
        match self.length {
            Some(n) => n as nat,
            None => 1,
        }
    }

    /// The ids of all elements fit into a `u64`.
    pub open spec fn ids_fit(self) -> bool {
        self.id + self.element_count() <= u64::MAX + 1
    }

    /// The name of the element `i`: `name[i]` in an array, the plain name otherwise.
    pub open spec fn element_name(self, i: nat) -> Seq<char> {
        if self.length is Some {
            self.absolute_name@ + "["@ + decimal(i) + "]"@
        } else {
            self.absolute_name@
        }
    }

    /// The polynomial of the element `i` of a polynomial symbol of type `ptype`.
    pub open spec fn element_id(self, ptype: PolynomialType, i: nat) -> PolyID {
        PolyID { id: (self.id + i) as u64, ptype }
    }
}

#[derive(Debug, PartialEq, Eq, Structural, Clone, Copy)]
pub enum AlgebraicBinaryOperator {
    Add,
    Sub,
    Mul,
    Pow,
}

#[derive(Debug, PartialEq, Eq, Structural, Clone, Copy)]
pub enum AlgebraicUnaryOperator {
    Minus,
}

/// A reference to a polynomial, possibly on the next row.
#[derive(Debug)]
pub struct AlgebraicReference {
    pub name: String,
    pub poly_id: PolyID,
    pub next: bool,
}

#[derive(Debug, PartialEq, Eq, Structural, Clone, Copy)]
pub struct Challenge {
    pub id: u64,
    pub stage: u32,
}

#[derive(Debug)]
pub struct AlgebraicBinaryOperation<T> {
    pub left: Box<AlgebraicExpression<T>>,
    pub op: AlgebraicBinaryOperator,
    pub right: Box<AlgebraicExpression<T>>,
}

#[derive(Debug)]
pub struct AlgebraicUnaryOperation<T> {
    pub op: AlgebraicUnaryOperator,
    pub expr: Box<AlgebraicExpression<T>>,
}

/// An expression over the columns of an analyzed file.
#[derive(Debug)]
pub enum AlgebraicExpression<T> {
    Reference(AlgebraicReference),
    PublicReference(String),
    Challenge(Challenge),
    Number(T),
    BinaryOperation(AlgebraicBinaryOperation<T>),
    UnaryOperation(AlgebraicUnaryOperation<T>),
}

/// A constraint between two selected lists of expressions: a polynomial
/// identity (left side only), a lookup, a permutation or a connection.
#[derive(Debug)]
pub struct Identity<T> {
    pub left: SelectedExpressions<AlgebraicExpression<T>>,
    pub right: SelectedExpressions<AlgebraicExpression<T>>,
}

/// A reference to a polynomial by name; the id is filled in on condensation.
#[derive(Debug)]
pub struct PolynomialReference {
    pub name: String,
    pub poly_id: Option<PolyID>,
}

/// A public declaration: a polynomial's value on one row is made public.
#[derive(Debug)]
pub struct PublicDeclaration {
    pub name: String,
    pub polynomial: PolynomialReference,
}

/// What the column analyses read of an analyzed PIL file.
#[derive(Debug)]
pub struct Analyzed<T> {
    /// The declared symbols, under their absolute names, in source order.
    pub definitions: Vec<(String, Symbol)>,
    /// The names of the symbols that the analyzer added on its own.
    pub auto_added_symbols: Vec<String>,
    pub public_declarations: Vec<PublicDeclaration>,
    /// The identities, with intermediate polynomials replaced by their
    /// definitions.
    pub identities_with_inlined_intermediates: Vec<Identity<T>>,
}

} // verus!
