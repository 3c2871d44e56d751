//! Physical dimensions.

use crate::exact_rational::ExactRational;
use crate::hir::tree::DagId;
use crate::hir::visit::{owner_of, same_dag};
use crate::syntax::names::{DimName, NameAtom};
use vstd::prelude::*;

verus! {

/// The base dimensions that every program knows.
#[derive(Clone, Copy, Debug, PartialEq, Eq, Structural, Hash)]
pub enum PreludeBaseDimension {
    Length,
    Time,
    Mass,
    Temperature,
    Current,
    Amount,
    LuminousIntensity,
}

/// A base dimension: a known one, or one that a module declares.
#[derive(Debug, PartialEq, Eq)]
pub enum BaseDimId {
    Prelude(PreludeBaseDimension),
    Declared { owner: DagId, name: DimName },
}

/// What a base dimension is.
pub enum Base {
    Prelude(PreludeBaseDimension),
    Declared(Seq<Seq<char>>, Seq<char>),
}

impl View for BaseDimId {
    type V = Base;

    open spec fn view(&self) -> Base {
        match *self {
            BaseDimId::Prelude(base) => Base::Prelude(base),
            BaseDimId::Declared { owner, name } => Base::Declared(owner_of(owner), name.atom.text@),
        }
    }
}

impl BaseDimId {
    pub fn copy(&self) -> (r: BaseDimId)
        ensures
            r@ == self@,
    {
        match self {
            BaseDimId::Prelude(base) => BaseDimId::Prelude(*base),
            BaseDimId::Declared { owner, name } => BaseDimId::Declared {
                owner: owner.copy(),
                name: DimName { atom: NameAtom { text: name.atom.text.clone() } },
            },
        }
    }

    pub fn same(&self, other: &BaseDimId) -> (r: bool)
        ensures
            r == (self@ == other@),
    {
        match (self, other) {
            (BaseDimId::Prelude(a), BaseDimId::Prelude(b)) => *a == *b,
            (
                BaseDimId::Declared { owner: a, name: x },
                BaseDimId::Declared { owner: b, name: y },
            ) => same_dag(a, b) && x.atom.same(&y.atom),
            _ => false,
        }
    }
}

/// A power of a base dimension.
#[derive(Debug, PartialEq, Eq)]
pub struct BasePower {
    pub base: BaseDimId,
    pub power: ExactRational,
}

/// A product of powers of base dimensions, in a fixed order.
#[derive(Debug, PartialEq, Eq)]
pub struct Dimension {
    pub powers: Vec<BasePower>,
}

impl View for Dimension {
    type V = Seq<(Base, ExactRational)>;

    open spec fn view(&self) -> Seq<(Base, ExactRational)> {
        Seq::new(self.powers@.len(), |i: int| (self.powers@[i].base@, self.powers@[i].power))
    }
}

impl Dimension {
    /// The dimension of plain numbers.
    pub fn dimensionless() -> (r: Dimension)
        ensures
            r@ == Seq::<(Base, ExactRational)>::empty(),
    {
        let r = Dimension { powers: Vec::new() };
        assert(r@ =~= Seq::empty());
        r
    }

    /// A base dimension to the first power.
    pub fn base(base: BaseDimId) -> (r: Dimension)
        ensures
            r@.len() == 1,
            r@[0].0 == base@,
            r@[0].1.numerator == 1,
            r@[0].1.denominator == 1,
    {
        let mut powers: Vec<BasePower> = Vec::new();
        powers.push(BasePower { base, power: ExactRational::from_integer(1) });
        Dimension { powers }
    }

    pub fn copy(&self) -> (r: Dimension)
        ensures
            r@ == self@,
    {
        let mut powers: Vec<BasePower> = Vec::new();
        for i in 0..self.powers.len()
            invariant
                powers@.len() == i,
                forall|j: int|
                    0 <= j < i ==> (#[trigger] powers@[j]).base@ == self.powers@[j].base@ && powers@[j].power
                        == self.powers@[j].power,
        {
            powers.push(BasePower { base: self.powers[i].base.copy(), power: self.powers[i].power });
        }
        let r = Dimension { powers };
        assert(r@ =~= self@);
        r
    }

    pub fn same(&self, other: &Dimension) -> (r: bool)
        ensures
            r == (self@ == other@),
    {
        if self.powers.len() != other.powers.len() {
            assert(self@.len() != other@.len());
            return false;
        }
        for i in 0..self.powers.len()
            invariant
                self.powers@.len() == other.powers@.len(),
                forall|j: int| 0 <= j < i ==> #[trigger] self@[j] == other@[j],
        {
            if !self.powers[i].base.same(&other.powers[i].base) || self.powers[i].power != other.powers[i].power {
                assert(self@[i as int] != other@[i as int]);
                return false;
            }
        }
        assert(self@ =~= other@);
        true
    }
}

} // verus!
