//! Indexes: what an axis of an indexed value runs over.

use crate::registry::dimension::{Base, Dimension};
use crate::syntax::ast::{FloatBits, IndexEntryKey};
use crate::syntax::names::{IndexName, IndexVariantName, NameAtom};
use crate::syntax::text::{decimal, decimal_string, joined};
use vstd::prelude::*;

verus! {

/// The largest index that is materialized.
pub const MAX_INDEX_CARDINALITY: usize = 1_000_000;

/// How many entries an index has: at least one.
#[derive(Clone, Copy, Debug, PartialEq, Eq, Structural, Hash, PartialOrd, Ord)]
pub struct IndexCardinality {
    value: usize,
}

/// Why a number is no cardinality.
#[derive(Clone, Copy, Debug, PartialEq, Eq, Structural)]
pub enum IndexCardinalityError {
    Empty,
    DoesNotFitUsize { value: u64 },
    TooLarge { value: usize, maximum: usize },
}

/// Why a number is no cardinality, if it is none.
pub open spec fn cardinality_error(value: u64) -> Option<IndexCardinalityError> {
    if value == 0 {
        Some(IndexCardinalityError::Empty)
    } else if value > usize::MAX {
        Some(IndexCardinalityError::DoesNotFitUsize { value })
    } else if value > MAX_INDEX_CARDINALITY {
        Some(IndexCardinalityError::TooLarge { value: value as usize, maximum: MAX_INDEX_CARDINALITY })
    } else {
        None
    }
}

impl View for IndexCardinality {
    type V = nat;

    closed spec fn view(&self) -> nat {
        self.value as nat
    }
}

impl IndexCardinality {
    #[verifier::type_invariant]
    spec fn positive(self) -> bool {
        self.value > 0
    }

    /// Checks a number before anything is allocated for it.
    pub fn try_from_u64(value: u64) -> (r: Result<IndexCardinality, IndexCardinalityError>)
        ensures
            match r {
                Ok(cardinality) => cardinality_error(value) is None && cardinality@ == value,
                Err(error) => cardinality_error(value) == Some(error),
            },
    {
        if value == 0 {
            return Err(IndexCardinalityError::Empty);
        }
        if value > usize::MAX as u64 {
            return Err(IndexCardinalityError::DoesNotFitUsize { value });
        }
        let value = value as usize;
        if value > MAX_INDEX_CARDINALITY {
            return Err(IndexCardinalityError::TooLarge { value, maximum: MAX_INDEX_CARDINALITY });
        }
        Ok(IndexCardinality { value })
    }

    /// The number of entries.
    pub fn get(self) -> (r: usize)
        ensures
            r == self@,
    {
        self.value
    }

    /// The number of entries, which is not zero.
    pub fn non_zero(self) -> (r: usize)
        ensures
            r == self@,
            r > 0,
    {
        proof {
            use_type_invariant(self);
        }
        self.value
    }

    /// The cardinality of a list of variants, if there is one.
    fn of_len(len: usize) -> (r: Option<IndexCardinality>)
        ensures
            r is Some == (len > 0),
            r is Some ==> r->0@ == len,
    {
        if len == 0 {
            None
        } else {
            Some(IndexCardinality { value: len })
        }
    }
}

/// How the coordinates of a coordinate index are spaced.
#[derive(Clone, Copy, Debug, PartialEq, Eq, Structural)]
pub enum CoordinateSpacing {
    /// By an increment.
    Step { step: FloatBits },
    /// Evenly, with a given number of points.
    Linspace,
}

/// A coordinate index.
#[derive(Debug, PartialEq, Eq)]
pub struct CoordinateIndexData {
    pub start: FloatBits,
    pub end: FloatBits,
    pub spacing: CoordinateSpacing,
    pub cardinality: IndexCardinality,
    pub dimension: Dimension,
    /// The unit that coordinates are shown in.
    pub display_label: Option<String>,
    /// What a coordinate is divided by to be shown.
    pub display_scale: FloatBits,
}

/// How the coordinate at a position comes about.
#[derive(Clone, Copy, Debug, PartialEq, Eq, Structural)]
pub enum CoordinateRule {
    /// It is the start.
    Start,
    /// It is the end.
    End,
    /// It is the start and this many steps.
    Stepped { steps: usize, step: FloatBits },
    /// It is this many of so many equal parts of the way from the start to the
    /// end.
    Between { parts: usize, of: usize },
}

/// How the coordinate at a position comes about: never by adding up others.
/// The ends are taken as they are.
pub open spec fn coordinate_rule(spacing: CoordinateSpacing, count: nat, i: nat) -> CoordinateRule {
    match spacing {
        CoordinateSpacing::Step { step } => if i + 1 == count {
            CoordinateRule::End
        } else {
            CoordinateRule::Stepped { steps: i as usize, step }
        },
        CoordinateSpacing::Linspace => if i == 0 {
            CoordinateRule::Start
        } else if i + 1 == count {
            CoordinateRule::End
        } else {
            CoordinateRule::Between { parts: i as usize, of: (count - 1) as usize }
        },
    }
}

/// Whether the `i`th of some numbers is less than those before it and not more
/// than those behind it.
pub open spec fn is_first_least(keys: Seq<u64>, i: int) -> bool {
    &&& 0 <= i < keys.len()
    &&& forall|j: int| 0 <= j < i ==> keys[i] < #[trigger] keys[j]
    &&& forall|j: int| i <= j < keys.len() ==> keys[i] <= #[trigger] keys[j]
}

impl CoordinateIndexData {
    /// The number of coordinates.
    pub fn cardinality(&self) -> (r: usize)
        ensures
            r == self.cardinality@,
    {
        self.cardinality.get()
    }

    /// How the coordinate at a position comes about.
    pub fn coordinate_value(&self, i: usize) -> (r: CoordinateRule)
        requires
            i < usize::MAX,
        ensures
            r == coordinate_rule(self.spacing, self.cardinality@, i as nat),
    {
        let count = self.cardinality.non_zero();
        match self.spacing {
            CoordinateSpacing::Step { step } => if i == count - 1 {
                CoordinateRule::End
            } else {
                CoordinateRule::Stepped { steps: i, step }
            },
            CoordinateSpacing::Linspace => if i == 0 {
                CoordinateRule::Start
            } else if i + 1 == count {
                CoordinateRule::End
            } else {
                CoordinateRule::Between { parts: i, of: count - 1 }
            },
        }
    }

    /// The first position whose coordinate is a value, by which coordinates
    /// are equal to it.
    pub fn position_of(&self, equal: &Vec<bool>) -> (r: Option<usize>)
        requires
            equal@.len() == self.cardinality@,
        ensures
            match r {
                Some(i) => i < self.cardinality@ && equal@[i as int] && forall|j: int|
                    0 <= j < i ==> !#[trigger] equal@[j],
                None => forall|j: int| 0 <= j < equal@.len() ==> !#[trigger] equal@[j],
            },
    {
        for i in 0..equal.len()
            invariant
                equal@.len() == self.cardinality@,
                forall|j: int| 0 <= j < i ==> !#[trigger] equal@[j],
        {
            if equal[i] {
                return Some(i);
            }
        }
        None
    }

    /// The first position whose coordinate is nearest to a value, by numbers
    /// that are ordered as the distances from it.
    pub fn nearest_coordinate(&self, distances: &Vec<u64>) -> (r: Option<usize>)
        requires
            distances@.len() == self.cardinality@,
        ensures
            r is Some,
            is_first_least(distances@, r->0 as int),
    {
        let count = self.cardinality.non_zero();
        let mut best: usize = 0;
        for i in 1..count
            invariant
                count == distances@.len(),
                best < i <= count,
                is_first_least(distances@.take(i as int), best as int),
        {
            let ghost sofar = distances@.take(i as int);
            let ghost more = distances@.take(i as int + 1);
            proof {
                assert forall|j: int| 0 <= j < i implies #[trigger] more[j] == sofar[j] by {}
                assert forall|j: int| 0 <= j < i implies sofar[best as int] <= #[trigger] sofar[j] by {}
            }
            if distances[i] < distances[best] {
                best = i;
            }
            assert(is_first_least(more, best as int));
        }
        assert(distances@.take(count as int) =~= distances@);
        Some(best)
    }
}

/// A coordinate index reaches exactly from its start to its end: its last
/// coordinate is the end as it is given, and if it is evenly spaced and has
/// more than one, its first is the start.
pub proof fn law_ends_are_exact(spacing: CoordinateSpacing, count: nat)
    requires
        0 < count <= usize::MAX,
    ensures
        spacing is Step || count > 1 ==> coordinate_rule(spacing, count, (count - 1) as nat) == CoordinateRule::End,
        spacing is Linspace ==> coordinate_rule(spacing, count, 0) == CoordinateRule::Start,
{
}

/// The coordinates of a stepped index before the last lie one step apart, from
/// none at the start on, and each step is the one that was given. So no two of
/// them are the same.
pub proof fn law_stepped_coordinates_lie_one_step_apart(data: CoordinateIndexData, step: FloatBits, i: nat, j: nat)
    requires
        data.spacing == (CoordinateSpacing::Step { step }),
        i + 1 < data.cardinality@,
        j + 1 < data.cardinality@,
    ensures
        ({
            let at = |k: nat| coordinate_rule(data.spacing, data.cardinality@, k);
            &&& at(0) == (CoordinateRule::Stepped { steps: 0, step })
            &&& at(i) is Stepped && at(j) is Stepped
            &&& at(i)->Stepped_step == step
            &&& at(i)->Stepped_steps - at(j)->Stepped_steps == i - j
            &&& at(i) == at(j) ==> i == j
        }),
{
}

/// The inner coordinates of an evenly spaced index lie one part of the way
/// apart, and as far from the end as the mirrored ones from the start.
pub proof fn law_even_coordinates_lie_one_part_apart(data: CoordinateIndexData, i: nat, j: nat)
    requires
        data.spacing is Linspace,
        0 < i,
        i + 1 < data.cardinality@,
        0 < j,
        j + 1 < data.cardinality@,
    ensures
        ({
            let count = data.cardinality@;
            let at = |k: nat| coordinate_rule(data.spacing, count, k);
            let mirrored = at((count - 1 - i) as nat);
            &&& at(i) is Between && at(j) is Between && mirrored is Between
            &&& at(i)->of == at(j)->of
            &&& at(i)->parts - at(j)->parts == i - j
            &&& at(i)->parts + mirrored->parts == at(i)->of
            &&& 0 < at(i)->parts < at(i)->of
            &&& at(i) == at(j) ==> i == j
        }),
{
}

fn index_position_key(position: usize) -> (r: IndexEntryKey)
    ensures
        r == IndexEntryKey::Position(position as u64),
{
    IndexEntryKey::Position(position as u64)
}

/// What an index is.
#[derive(Clone, Copy, Debug, PartialEq, Eq, Structural)]
pub enum IndexCategory {
    Named,
    Coordinate,
    Finite,
}

impl IndexCategory {
    pub open spec fn text(self) -> Seq<char> {
        match self {
            IndexCategory::Named => "named"@,
            IndexCategory::Coordinate => "coordinate"@,
            IndexCategory::Finite => "finite"@,
        }
    }

    pub fn as_str(&self) -> (r: &'static str)
        ensures
            r@ == self.text(),
    {
        match self {
            IndexCategory::Named => "named",
            IndexCategory::Coordinate => "coordinate",
            IndexCategory::Finite => "finite",
        }
    }
}

/// What an index binding accepts.
#[derive(Clone, Copy, Debug, PartialEq, Eq, Structural)]
pub enum IndexBindingCategory {
    /// Only named axes.
    Named,
    /// Named and finite axes.
    Discrete,
    /// Only coordinate axes of the same dimension.
    Coordinate,
}

impl IndexBindingCategory {
    pub open spec fn text(self) -> Seq<char> {
        match self {
            IndexBindingCategory::Named => "named"@,
            IndexBindingCategory::Discrete => "named or finite"@,
            IndexBindingCategory::Coordinate => "coordinate"@,
        }
    }

    pub fn as_str(&self) -> (r: &'static str)
        ensures
            r@ == self.text(),
    {
        match self {
            IndexBindingCategory::Named => "named",
            IndexBindingCategory::Discrete => "named or finite",
            IndexBindingCategory::Coordinate => "coordinate",
        }
    }

    /// Whether an index of a category may be bound.
    pub open spec fn accepts(self, found: IndexCategory) -> bool {
        match self {
            IndexBindingCategory::Named => found == IndexCategory::Named,
            IndexBindingCategory::Discrete => found != IndexCategory::Coordinate,
            IndexBindingCategory::Coordinate => found == IndexCategory::Coordinate,
        }
    }
}

/// What may be bound to a declared index.
#[derive(Debug, PartialEq, Eq)]
pub enum IndexBindingContract {
    /// Another named axis.
    Named,
    /// A named or finite axis.
    Discrete,
    /// A coordinate axis of this dimension.
    Coordinate { dimension: Dimension },
}

/// Why an index may not be bound.
#[derive(Debug, PartialEq, Eq)]
pub enum IndexBindingContractError {
    KindMismatch { expected: IndexBindingCategory, found: IndexCategory },
    DimensionMismatch { expected: Dimension, found: Dimension },
}

impl IndexBindingContract {
    pub open spec fn category_of(self) -> IndexBindingCategory {
        match self {
            IndexBindingContract::Named => IndexBindingCategory::Named,
            IndexBindingContract::Discrete => IndexBindingCategory::Discrete,
            IndexBindingContract::Coordinate { dimension } => IndexBindingCategory::Coordinate,
        }
    }

    /// The category that the contract asks for.
    pub fn category(&self) -> (r: IndexBindingCategory)
        ensures
            r == self.category_of(),
    {
        match self {
            IndexBindingContract::Named => IndexBindingCategory::Named,
            IndexBindingContract::Discrete => IndexBindingCategory::Discrete,
            IndexBindingContract::Coordinate { .. } => IndexBindingCategory::Coordinate,
        }
    }

    /// The dimension that the contract asks for, if it asks for one.
    pub open spec fn dimension_of(self) -> Option<Seq<(Base, crate::exact_rational::ExactRational)>> {
        match self {
            IndexBindingContract::Coordinate { dimension } => Some(dimension@),
            _ => None,
        }
    }

    /// Checks an index that is to be bound: its category first, then the
    /// dimension of a coordinate index. A required index may be bound too.
    pub fn validate(&self, candidate: &IndexDef) -> (r: Result<(), IndexBindingContractError>)
        ensures
            match r {
                Ok(_) => self.category_of().accepts(candidate.category_of()) && (self.dimension_of() is Some
                    ==> self.dimension_of() == candidate.dimension_of()),
                Err(IndexBindingContractError::KindMismatch { expected, found }) => expected == self.category_of()
                    && found == candidate.category_of() && !expected.accepts(found),
                Err(IndexBindingContractError::DimensionMismatch { expected, found }) => {
                    &&& self.category_of().accepts(candidate.category_of())
                    &&& self.dimension_of() == Some(expected@)
                    &&& candidate.dimension_of() == Some(found@)
                    &&& expected@ != found@
                },
            },
    {
        let found = candidate.category();
        let expected = self.category();
        let kind_matches = match expected {
            IndexBindingCategory::Named => found == IndexCategory::Named,
            IndexBindingCategory::Discrete => found == IndexCategory::Named || found == IndexCategory::Finite,
            IndexBindingCategory::Coordinate => found == IndexCategory::Coordinate,
        };
        if !kind_matches {
            return Err(IndexBindingContractError::KindMismatch { expected, found });
        }
        match (self, &candidate.kind) {
            (IndexBindingContract::Coordinate { dimension: expected }, IndexKind::Coordinate(data)) => {
                check_dimension(expected, &data.dimension)
            },
            (
                IndexBindingContract::Coordinate { dimension: expected },
                IndexKind::RequiredCoordinate { dimension: found },
            ) => check_dimension(expected, found),
            _ => Ok(()),
        }
    }
}

fn check_dimension(expected: &Dimension, found: &Dimension) -> (r: Result<(), IndexBindingContractError>)
    ensures
        match r {
            Ok(_) => expected@ == found@,
            Err(IndexBindingContractError::DimensionMismatch { expected: e, found: f }) => e@ == expected@ && f@
                == found@ && e@ != f@,
            Err(_) => false,
        },
{
    if expected.same(found) {
        Ok(())
    } else {
        Err(IndexBindingContractError::DimensionMismatch { expected: expected.copy(), found: found.copy() })
    }
}

/// The kinds of indexes.
#[derive(Debug, PartialEq, Eq)]
pub enum IndexKind {
    /// A list of labels.
    Named { variants: Vec<IndexVariantName> },
    /// A list of coordinates.
    Coordinate(CoordinateIndexData),
    /// A named index that has to be bound.
    RequiredNamed,
    /// A coordinate index that has to be bound.
    RequiredCoordinate { dimension: Dimension },
    /// The positions below a number.
    Finite { cardinality: IndexCardinality },
}

/// An index.
#[derive(Debug, PartialEq, Eq)]
pub struct IndexDef {
    pub name: IndexName,
    pub kind: IndexKind,
}

/// An entry of an index.
pub enum Entry {
    Label(Seq<char>),
    Position(nat),
}

/// What an entry key denotes.
pub open spec fn entry_of(key: IndexEntryKey) -> Entry {
    match key {
        IndexEntryKey::Named(name) => Entry::Label(name.atom.text@),
        IndexEntryKey::Position(position) => Entry::Position(position as nat),
    }
}

/// The positions below a number.
pub open spec fn positions(n: nat) -> Seq<Entry> {
    Seq::new(n, |i: int| Entry::Position(i as nat))
}

fn position_keys(n: usize) -> (r: Vec<IndexEntryKey>)
    ensures
        r@.map_values(|key: IndexEntryKey| entry_of(key)) == positions(n as nat),
{
    let mut keys: Vec<IndexEntryKey> = Vec::new();
    for i in 0..n
        invariant
            keys@.len() == i,
            forall|j: int| 0 <= j < i ==> entry_of(#[trigger] keys@[j]) == Entry::Position(j as nat),
    {
        keys.push(index_position_key(i));
    }
    assert(keys@.map_values(|key: IndexEntryKey| entry_of(key)) =~= positions(n as nat));
    keys
}

impl IndexDef {
    pub open spec fn category_of(self) -> IndexCategory {
        match self.kind {
            IndexKind::Named { variants } => IndexCategory::Named,
            IndexKind::RequiredNamed => IndexCategory::Named,
            IndexKind::Coordinate(_) => IndexCategory::Coordinate,
            IndexKind::RequiredCoordinate { dimension } => IndexCategory::Coordinate,
            IndexKind::Finite { cardinality } => IndexCategory::Finite,
        }
    }

    /// The dimension of the coordinates, if it has any.
    pub open spec fn dimension_of(self) -> Option<Seq<(Base, crate::exact_rational::ExactRational)>> {
        match self.kind {
            IndexKind::Coordinate(data) => Some(data.dimension@),
            IndexKind::RequiredCoordinate { dimension } => Some(dimension@),
            _ => None,
        }
    }

    /// The entries, in order.
    pub open spec fn entries(self) -> Seq<Entry> {
        match self.kind {
            IndexKind::Named { variants } => Seq::new(
                variants@.len(),
                |i: int| Entry::Label(variants@[i].atom.text@),
            ),
            IndexKind::Coordinate(data) => positions(data.cardinality@),
            IndexKind::Finite { cardinality } => positions(cardinality@),
            _ => Seq::empty(),
        }
    }

    /// Whether the index has to be bound.
    pub open spec fn required(self) -> bool {
        self.kind is RequiredNamed || self.kind is RequiredCoordinate
    }

    /// What the index is.
    pub fn category(&self) -> (r: IndexCategory)
        ensures
            r == self.category_of(),
    {
        match &self.kind {
            IndexKind::Named { .. } => IndexCategory::Named,
            IndexKind::RequiredNamed => IndexCategory::Named,
            IndexKind::Coordinate(_) => IndexCategory::Coordinate,
            IndexKind::RequiredCoordinate { .. } => IndexCategory::Coordinate,
            IndexKind::Finite { .. } => IndexCategory::Finite,
        }
    }

    /// The keys of the entries, in order: labels of a named index, positions
    /// of the others. A required index has none.
    pub fn entry_keys(&self) -> (r: Vec<IndexEntryKey>)
        ensures
            r@.map_values(|key: IndexEntryKey| entry_of(key)) == self.entries(),
    {
        match &self.kind {
            IndexKind::Named { variants } => {
                let mut keys: Vec<IndexEntryKey> = Vec::new();
                for i in 0..variants.len()
                    invariant
                        keys@.len() == i,
                        forall|j: int|
                            0 <= j < i ==> entry_of(#[trigger] keys@[j]) == Entry::Label(variants@[j].atom.text@),
                {
                    keys.push(
                        IndexEntryKey::Named(
                            IndexVariantName { atom: NameAtom { text: variants[i].atom.text.clone() } },
                        ),
                    );
                }
                assert(keys@.map_values(|key: IndexEntryKey| entry_of(key)) =~= self.entries());
                keys
            },
            IndexKind::Coordinate(data) => position_keys(data.cardinality()),
            IndexKind::Finite { cardinality } => position_keys(cardinality.get()),
            IndexKind::RequiredNamed => {
                let keys: Vec<IndexEntryKey> = Vec::new();
                assert(keys@.map_values(|key: IndexEntryKey| entry_of(key)) =~= Seq::empty());
                keys
            },
            IndexKind::RequiredCoordinate { .. } => {
                let keys: Vec<IndexEntryKey> = Vec::new();
                assert(keys@.map_values(|key: IndexEntryKey| entry_of(key)) =~= Seq::empty());
                keys
            },
        }
    }

    /// The number of entries, where there are any: a required index has none
    /// before it is bound.
    pub fn concrete_cardinality(&self) -> (r: Option<IndexCardinality>)
        ensures
            r is Some == (self.entries().len() > 0),
            r is Some ==> r->0@ == self.entries().len(),
    {
        match &self.kind {
            IndexKind::Named { variants } => IndexCardinality::of_len(variants.len()),
            IndexKind::Coordinate(data) => {
                let n = data.cardinality.non_zero();
                Some(data.cardinality)
            },
            IndexKind::Finite { cardinality } => {
                let n = cardinality.non_zero();
                Some(*cardinality)
            },
            IndexKind::RequiredNamed => None,
            IndexKind::RequiredCoordinate { .. } => None,
        }
    }

    /// The number of entries; none for a required index.
    pub fn cardinality(&self) -> (r: usize)
        ensures
            r == self.entries().len(),
    {
        match &self.kind {
            IndexKind::Named { variants } => variants.len(),
            IndexKind::Coordinate(data) => data.cardinality(),
            IndexKind::Finite { cardinality } => cardinality.get(),
            IndexKind::RequiredNamed => 0,
            IndexKind::RequiredCoordinate { .. } => 0,
        }
    }

    /// The coordinates, if the index has any.
    pub fn coordinate_data(&self) -> (r: Option<&CoordinateIndexData>)
        ensures
            match r {
                Some(data) => self.kind == IndexKind::Coordinate(*data),
                None => !(self.kind is Coordinate),
            },
    {
        match &self.kind {
            IndexKind::Coordinate(data) => Some(data),
            _ => None,
        }
    }

    pub fn is_coordinate(&self) -> (r: bool)
        ensures
            r == (self.category_of() == IndexCategory::Coordinate),
    {
        match &self.kind {
            IndexKind::Coordinate(_) => true,
            IndexKind::RequiredCoordinate { .. } => true,
            _ => false,
        }
    }

    pub fn is_named(&self) -> (r: bool)
        ensures
            r == (self.category_of() == IndexCategory::Named),
    {
        match &self.kind {
            IndexKind::Named { .. } => true,
            IndexKind::RequiredNamed => true,
            _ => false,
        }
    }

    /// The number of positions of a finite index.
    pub fn finite_index_size(&self) -> (r: Option<u64>)
        ensures
            r is Some == (self.kind is Finite),
            r is Some ==> r->0 == self.entries().len(),
    {
        match &self.kind {
            IndexKind::Finite { cardinality } => Some(cardinality.get() as u64),
            _ => None,
        }
    }

    /// Whether the index has to be bound.
    pub fn is_required(&self) -> (r: bool)
        ensures
            r == self.required(),
    {
        match &self.kind {
            IndexKind::RequiredNamed => true,
            IndexKind::RequiredCoordinate { .. } => true,
            _ => false,
        }
    }
}

/// Why `Fin(N)` is no index.
#[derive(Clone, Copy, Debug, PartialEq, Eq, Structural)]
pub enum FiniteIndexError {
    Empty,
    DoesNotFitUsize { size: u64 },
    TooLarge { size: usize, maximum: usize },
}

/// Why a number is no size of a finite index, if it is none.
pub open spec fn finite_error(size: u64) -> Option<FiniteIndexError> {
    match cardinality_error(size) {
        None => None,
        Some(IndexCardinalityError::Empty) => Some(FiniteIndexError::Empty),
        Some(IndexCardinalityError::DoesNotFitUsize { value }) => Some(
            FiniteIndexError::DoesNotFitUsize { size: value },
        ),
        Some(IndexCardinalityError::TooLarge { value, maximum }) => Some(
            FiniteIndexError::TooLarge { size: value, maximum },
        ),
    }
}

/// A finite index `Fin(N)`.
#[derive(Clone, Copy, Debug, PartialEq, Eq, Structural, Hash, PartialOrd, Ord)]
pub struct FiniteIndex {
    pub cardinality: IndexCardinality,
}

/// How a finite index is written.
pub open spec fn finite_name(size: nat) -> Seq<char> {
    "Fin("@ + decimal(size) + ")"@
}

impl FiniteIndex {
    pub fn new(cardinality: IndexCardinality) -> (r: FiniteIndex)
        ensures
            r.cardinality == cardinality,
    {
        FiniteIndex { cardinality }
    }

    /// The finite index of a size.
    pub fn try_from_u64(size: u64) -> (r: Result<FiniteIndex, FiniteIndexError>)
        ensures
            match r {
                Ok(index) => finite_error(size) is None && index.cardinality@ == size,
                Err(error) => finite_error(size) == Some(error),
            },
    {
        match IndexCardinality::try_from_u64(size) {
            Ok(cardinality) => Ok(FiniteIndex::new(cardinality)),
            Err(IndexCardinalityError::Empty) => Err(FiniteIndexError::Empty),
            Err(IndexCardinalityError::DoesNotFitUsize { value }) => Err(
                FiniteIndexError::DoesNotFitUsize { size: value },
            ),
            Err(IndexCardinalityError::TooLarge { value, maximum }) => Err(
                FiniteIndexError::TooLarge { size: value, maximum },
            ),
        }
    }

    pub fn cardinality(self) -> (r: IndexCardinality)
        ensures
            r == self.cardinality,
    {
        self.cardinality
    }

    pub fn size_u64(self) -> (r: u64)
        ensures
            r == self.cardinality@,
    {
        self.cardinality.get() as u64
    }

    /// How the index is written.
    pub fn display_name(self) -> (r: IndexName)
        ensures
            r.atom.text@ == finite_name(self.cardinality@),
    {
        let digits = decimal_string(self.size_u64());
        let opened = joined("Fin(", digits.as_str());
        IndexName { atom: NameAtom { text: joined(opened.as_str(), ")") } }
    }
}

/// What is bound to an index of an included module.
#[derive(Debug, PartialEq, Eq)]
pub enum IndexBindingTarget {
    /// A declared index.
    Declared(IndexName),
    /// A finite index.
    Finite(FiniteIndex),
}

impl IndexBindingTarget {
    /// How the target is written.
    pub open spec fn text(self) -> Seq<char> {
        match self {
            IndexBindingTarget::Declared(name) => name.atom.text@,
            IndexBindingTarget::Finite(index) => finite_name(index.cardinality@),
        }
    }

    /// The name of a declared index.
    pub fn declared_name(&self) -> (r: Option<&IndexName>)
        ensures
            match r {
                Some(name) => *self == IndexBindingTarget::Declared(*name),
                None => *self is Finite,
            },
    {
        match self {
            IndexBindingTarget::Declared(name) => Some(name),
            IndexBindingTarget::Finite(_) => None,
        }
    }

    /// How the target is written.
    pub fn display(&self) -> (r: String)
        ensures
            r@ == self.text(),
    {
        match self {
            IndexBindingTarget::Declared(name) => name.atom.text.clone(),
            IndexBindingTarget::Finite(index) => index.display_name().atom.text,
        }
    }
}

/// A declared index under its name.
#[derive(Debug, PartialEq, Eq)]
pub struct DeclaredEntry {
    pub name: IndexName,
    pub def: IndexDef,
}

/// A finite index with its definition.
#[derive(Debug, PartialEq, Eq)]
pub struct FiniteEntry {
    pub index: FiniteIndex,
    pub def: IndexDef,
}

/// Whether no name occurs twice.
pub open spec fn names_distinct(entries: Seq<DeclaredEntry>) -> bool {
    forall|i: int, j: int|
        0 <= i < j < entries.len() ==> (#[trigger] entries[i]).name.atom.text@ != (
        #[trigger] entries[j]).name.atom.text@
}

/// Whether no finite index occurs twice.
pub open spec fn finite_distinct(entries: Seq<FiniteEntry>) -> bool {
    forall|i: int, j: int|
        0 <= i < j < entries.len() ==> (#[trigger] entries[i]).index != (#[trigger] entries[j]).index
}

/// Whether the entry at `i` has a name.
pub open spec fn names(entries: Seq<DeclaredEntry>, i: int, name: Seq<char>) -> bool {
    0 <= i < entries.len() && entries[i].name.atom.text@ == name
}

/// Whether the entry at `i` is for a finite index.
pub open spec fn holds(entries: Seq<FiniteEntry>, i: int, index: FiniteIndex) -> bool {
    0 <= i < entries.len() && entries[i].index == index
}

/// The definition of each name.
pub open spec fn declared_map(entries: Seq<DeclaredEntry>) -> Map<Seq<char>, IndexDef> {
    Map::new(
        |name: Seq<char>| exists|i: int| names(entries, i, name),
        |name: Seq<char>| entries[choose|i: int| names(entries, i, name)].def,
    )
}

/// The definition of each finite index.
pub open spec fn finite_map(entries: Seq<FiniteEntry>) -> Map<FiniteIndex, IndexDef> {
    Map::new(
        |index: FiniteIndex| exists|i: int| holds(entries, i, index),
        |index: FiniteIndex| entries[choose|i: int| holds(entries, i, index)].def,
    )
}

proof fn lemma_declared(entries: Seq<DeclaredEntry>, i: int, name: Seq<char>)
    requires
        names_distinct(entries),
        names(entries, i, name),
    ensures
        declared_map(entries).dom().contains(name),
        declared_map(entries)[name] == entries[i].def,
{
    let k = choose|k: int| names(entries, k, name);
    assert(names(entries, k, name));
    assert(k == i);
}

/// The definitions that a list refers to.
pub open spec fn definitions(list: Seq<&IndexDef>) -> Seq<IndexDef> {
    Seq::new(list.len(), |i: int| *list[i])
}

/// The first `n` definitions.
spec fn stored(entries: Seq<DeclaredEntry>, n: nat) -> Seq<IndexDef> {
    Seq::new(n, |i: int| entries[i].def)
}

/// The names of a definition among the first `n` entries.
spec fn stored_names(entries: Seq<DeclaredEntry>, n: nat, def: IndexDef) -> Set<Seq<char>>
    decreases n,
{
    if n == 0 || n > entries.len() {
        Set::empty()
    } else if entries[n - 1].def == def {
        stored_names(entries, (n - 1) as nat, def).insert(entries[n - 1].name.atom.text@)
    } else {
        stored_names(entries, (n - 1) as nat, def)
    }
}

proof fn lemma_stored(entries: Seq<DeclaredEntry>, n: nat, def: IndexDef)
    requires
        names_distinct(entries),
        n <= entries.len(),
    ensures
        stored_names(entries, n, def).finite(),
        stored(entries, n).to_multiset().count(def) == stored_names(entries, n, def).len(),
        forall|name: Seq<char>| #[trigger]
            stored_names(entries, n, def).contains(name) == exists|k: int|
                0 <= k < n && names(entries, k, name) && entries[k].def == def,
    decreases n,
{
    broadcast use vstd::seq_lib::group_to_multiset_ensures;
    broadcast use vstd::multiset::group_multiset_axioms;

    if n == 0 {
        assert(stored(entries, 0) =~= Seq::empty());
    } else {
        let m = (n - 1) as nat;
        let last = entries[n - 1];
        lemma_stored(entries, m, def);
        assert(stored(entries, n) =~= stored(entries, m).push(last.def));
        assert(names(entries, n - 1, last.name.atom.text@));
        assert(!stored_names(entries, m, def).contains(last.name.atom.text@));
        assert forall|name: Seq<char>| #[trigger]
            stored_names(entries, n, def).contains(name) == exists|k: int|
                0 <= k < n && names(entries, k, name) && entries[k].def == def by {
            if stored_names(entries, n, def).contains(name) && !stored_names(entries, m, def).contains(name) {
                assert(names(entries, n - 1, name) && entries[n - 1].def == def);
            }
        }
    }
}

proof fn lemma_finite(entries: Seq<FiniteEntry>, i: int, index: FiniteIndex)
    requires
        finite_distinct(entries),
        holds(entries, i, index),
    ensures
        finite_map(entries).dom().contains(index),
        finite_map(entries)[index] == entries[i].def,
{
    let k = choose|k: int| holds(entries, k, index);
    assert(holds(entries, k, index));
    assert(k == i);
}

/// Storing a definition under a name leaves the other names alone.
proof fn lemma_declared_insert(before: Seq<DeclaredEntry>, i: int, entry: DeclaredEntry, after: Seq<DeclaredEntry>)
    requires
        names_distinct(before),
        0 <= i <= before.len(),
        i < before.len() ==> after == before.update(i, entry) && before[i].name.atom.text@ == entry.name.atom.text@,
        i == before.len() ==> after == before.push(entry) && (forall|k: int|
            !names(before, k, entry.name.atom.text@)),
    ensures
        names_distinct(after),
        declared_map(after) == declared_map(before).insert(entry.name.atom.text@, entry.def),
{
    let key = entry.name.atom.text@;
    assert forall|a: int, b: int| 0 <= a < b < after.len() implies (#[trigger] after[a]).name.atom.text@ != (
    #[trigger] after[b]).name.atom.text@ by {
        if i == before.len() {
            assert(!names(before, a, key));
        }
    }
    assert forall|name: Seq<char>| declared_map(after).dom().contains(name) == #[trigger] declared_map(before).insert(
        key,
        entry.def,
    ).dom().contains(name) by {
        if exists|k: int| names(before, k, name) {
            let k = choose|k: int| names(before, k, name);
            assert(names(after, k, name));
        }
        if exists|k: int| names(after, k, name) {
            let k = choose|k: int| names(after, k, name);
            if k != i {
                assert(names(before, k, name));
            }
        }
        assert(names(after, i, key));
    }
    assert forall|name: Seq<char>| #[trigger] declared_map(after).dom().contains(name) implies declared_map(after)[name]
        == declared_map(before).insert(key, entry.def)[name] by {
        let k = choose|k: int| names(after, k, name);
        lemma_declared(after, k, name);
        if name == key {
            assert(names(after, i, key));
            lemma_declared(after, i, name);
        } else {
            assert(names(before, k, name));
            lemma_declared(before, k, name);
        }
    }
    assert(declared_map(after) =~= declared_map(before).insert(key, entry.def));
}

proof fn lemma_finite_insert(before: Seq<FiniteEntry>, i: int, entry: FiniteEntry, after: Seq<FiniteEntry>)
    requires
        finite_distinct(before),
        0 <= i <= before.len(),
        i < before.len() ==> after == before.update(i, entry) && before[i].index == entry.index,
        i == before.len() ==> after == before.push(entry) && (forall|k: int| !holds(before, k, entry.index)),
    ensures
        finite_distinct(after),
        finite_map(after) == finite_map(before).insert(entry.index, entry.def),
{
    let key = entry.index;
    assert forall|a: int, b: int| 0 <= a < b < after.len() implies (#[trigger] after[a]).index != (
    #[trigger] after[b]).index by {
        if i == before.len() {
            assert(!holds(before, a, key));
        }
    }
    assert forall|index: FiniteIndex| finite_map(after).dom().contains(index) == #[trigger] finite_map(before).insert(
        key,
        entry.def,
    ).dom().contains(index) by {
        if exists|k: int| holds(before, k, index) {
            let k = choose|k: int| holds(before, k, index);
            assert(holds(after, k, index));
        }
        if exists|k: int| holds(after, k, index) {
            let k = choose|k: int| holds(after, k, index);
            if k != i {
                assert(holds(before, k, index));
            }
        }
        assert(holds(after, i, key));
    }
    assert forall|index: FiniteIndex| #[trigger] finite_map(after).dom().contains(index) implies finite_map(after)[index]
        == finite_map(before).insert(key, entry.def)[index] by {
        let k = choose|k: int| holds(after, k, index);
        lemma_finite(after, k, index);
        if index == key {
            assert(holds(after, i, key));
            lemma_finite(after, i, index);
        } else {
            assert(holds(before, k, index));
            lemma_finite(before, k, index);
        }
    }
    assert(finite_map(after) =~= finite_map(before).insert(key, entry.def));
}

/// The indexes of a program. No name and no finite index occurs twice.
#[derive(Debug)]
pub struct IndexRegistry {
    indexes: Vec<DeclaredEntry>,
    finite_indexes: Vec<FiniteEntry>,
}

impl IndexRegistry {
    /// Whether no name and no finite index occurs twice.
    pub closed spec fn wf(self) -> bool {
        names_distinct(self.indexes@) && finite_distinct(self.finite_indexes@)
    }

    /// The definition of each name.
    pub closed spec fn declared(self) -> Map<Seq<char>, IndexDef> {
        declared_map(self.indexes@)
    }

    /// The names that stand for a definition.
    pub open spec fn names_for(self, def: IndexDef) -> Set<Seq<char>> {
        self.declared().dom().filter(|name: Seq<char>| self.declared()[name] == def)
    }

    /// The definition of each finite index.
    pub closed spec fn finite(self) -> Map<FiniteIndex, IndexDef> {
        finite_map(self.finite_indexes@)
    }

    /// A registry without indexes.
    pub fn new() -> (r: IndexRegistry)
        ensures
            r.wf(),
            r.declared() == Map::<Seq<char>, IndexDef>::empty(),
            r.finite() == Map::<FiniteIndex, IndexDef>::empty(),
    {
        let r = IndexRegistry { indexes: Vec::new(), finite_indexes: Vec::new() };
        assert(r.declared() =~= Map::empty());
        assert(r.finite() =~= Map::empty());
        r
    }

    fn find_index(&self, name: &String) -> (r: Option<usize>)
        ensures
            match r {
                Some(i) => names(self.indexes@, i as int, name@),
                None => forall|k: int| !names(self.indexes@, k, name@),
            },
    {
        for i in 0..self.indexes.len()
            invariant
                forall|k: int| 0 <= k < i ==> !names(self.indexes@, k, name@),
        {
            if self.indexes[i].name.atom.text == *name {
                return Some(i);
            }
        }
        None
    }

    fn find_finite(&self, index: FiniteIndex) -> (r: Option<usize>)
        ensures
            match r {
                Some(i) => holds(self.finite_indexes@, i as int, index),
                None => forall|k: int| !holds(self.finite_indexes@, k, index),
            },
    {
        for i in 0..self.finite_indexes.len()
            invariant
                forall|k: int| 0 <= k < i ==> !holds(self.finite_indexes@, k, index),
        {
            if self.finite_indexes[i].index == index {
                return Some(i);
            }
        }
        None
    }

    /// Stores a definition under a name; what the name stood for before.
    pub fn insert_index(&mut self, name: IndexName, def: IndexDef) -> (r: Option<IndexDef>)
        requires
            old(self).wf(),
        ensures
            final(self).wf(),
            final(self).declared() == old(self).declared().insert(name.atom.text@, def),
            final(self).finite() == old(self).finite(),
            r is Some == old(self).declared().dom().contains(name.atom.text@),
            r is Some ==> r->0 == old(self).declared()[name.atom.text@],
    {
        let ghost before = self.indexes@;
        let entry = DeclaredEntry { name, def };
        match self.find_index(&entry.name.atom.text) {
            Some(i) => {
                proof {
                    lemma_declared(before, i as int, entry.name.atom.text@);
                    lemma_declared_insert(before, i as int, entry, before.update(i as int, entry));
                }
                let previous = self.indexes.remove(i);
                self.indexes.insert(i, entry);
                assert(self.indexes@ =~= before.update(i as int, entry));
                Some(previous.def)
            },
            None => {
                proof {
                    lemma_declared_insert(before, before.len() as int, entry, before.push(entry));
                }
                self.indexes.push(entry);
                None
            },
        }
    }

    /// Stores the definition of a finite index; what it stood for before.
    pub fn insert_finite_index(&mut self, index: FiniteIndex, def: IndexDef) -> (r: Option<IndexDef>)
        requires
            old(self).wf(),
        ensures
            final(self).wf(),
            final(self).finite() == old(self).finite().insert(index, def),
            final(self).declared() == old(self).declared(),
            r is Some == old(self).finite().dom().contains(index),
            r is Some ==> r->0 == old(self).finite()[index],
    {
        let ghost before = self.finite_indexes@;
        let entry = FiniteEntry { index, def };
        match self.find_finite(index) {
            Some(i) => {
                proof {
                    lemma_finite(before, i as int, index);
                    lemma_finite_insert(before, i as int, entry, before.update(i as int, entry));
                }
                let previous = self.finite_indexes.remove(i);
                self.finite_indexes.insert(i, entry);
                assert(self.finite_indexes@ =~= before.update(i as int, entry));
                Some(previous.def)
            },
            None => {
                proof {
                    lemma_finite_insert(before, before.len() as int, entry, before.push(entry));
                }
                self.finite_indexes.push(entry);
                None
            },
        }
    }

    /// The definition of a name.
    pub fn get_index(&self, name: &String) -> (r: Option<&IndexDef>)
        requires
            self.wf(),
        ensures
            r is Some == self.declared().dom().contains(name@),
            r is Some ==> *r->0 == self.declared()[name@],
    {
        match self.find_index(name) {
            Some(i) => {
                proof {
                    lemma_declared(self.indexes@, i as int, name@);
                }
                Some(&self.indexes[i].def)
            },
            None => None,
        }
    }

    /// The definition of a finite index.
    pub fn get_finite_index(&self, index: FiniteIndex) -> (r: Option<&IndexDef>)
        requires
            self.wf(),
        ensures
            r is Some == self.finite().dom().contains(index),
            r is Some ==> *r->0 == self.finite()[index],
    {
        match self.find_finite(index) {
            Some(i) => {
                proof {
                    lemma_finite(self.finite_indexes@, i as int, index);
                }
                Some(&self.finite_indexes[i].def)
            },
            None => None,
        }
    }

    /// The declared definitions: each as often as names stand for it.
    pub fn declared_indexes(&self) -> (r: Vec<&IndexDef>)
        requires
            self.wf(),
        ensures
            self.declared().dom().len() == r@.len(),
            forall|def: IndexDef| #[trigger] definitions(r@).to_multiset().count(def) == self.names_for(def).len(),
    {
        let mut defs: Vec<&IndexDef> = Vec::new();
        for i in 0..self.indexes.len()
            invariant
                defs@.len() == i,
                forall|j: int| 0 <= j < i ==> *(#[trigger] defs@[j]) == self.indexes@[j].def,
        {
            defs.push(&self.indexes[i].def);
        }
        proof {
            lemma_declared_all(self.indexes@);
            let all = self.indexes@;
            assert(definitions(defs@) =~= stored(all, all.len()));
            assert forall|def: IndexDef| #[trigger] definitions(defs@).to_multiset().count(def) == self.names_for(
                def,
            ).len() by {
                lemma_stored(all, all.len(), def);
                assert forall|name: Seq<char>|
                    stored_names(all, all.len(), def).contains(name) == #[trigger] self.names_for(def).contains(
                        name,
                    ) by {
                    if self.declared().dom().contains(name) {
                        let k = choose|k: int| names(all, k, name);
                        lemma_declared(all, k, name);
                    }
                    if stored_names(all, all.len(), def).contains(name) {
                        let k = choose|k: int| 0 <= k < all.len() && names(all, k, name) && all[k].def == def;
                        lemma_declared(all, k, name);
                    }
                }
                assert(stored_names(all, all.len(), def) =~= self.names_for(def));
            }
        }
        defs
    }

    /// The finite indexes, each once.
    pub fn finite_indexes(&self) -> (r: Vec<FiniteIndex>)
        requires
            self.wf(),
        ensures
            r@.no_duplicates(),
            r@.to_set() == self.finite().dom(),
    {
        let mut found: Vec<FiniteIndex> = Vec::new();
        for i in 0..self.finite_indexes.len()
            invariant
                found@.len() == i,
                forall|j: int| 0 <= j < i ==> #[trigger] found@[j] == self.finite_indexes@[j].index,
        {
            found.push(self.finite_indexes[i].index);
        }
        proof {
            assert forall|index: FiniteIndex| found@.to_set().contains(index) == #[trigger]
                self.finite().dom().contains(index) by {
                if self.finite().dom().contains(index) {
                    let i = choose|i: int| holds(self.finite_indexes@, i, index);
                    assert(found@[i] == index);
                }
                if found@.to_set().contains(index) {
                    let i = choose|i: int| 0 <= i < found@.len() && found@[i] == index;
                    assert(holds(self.finite_indexes@, i, index));
                }
            }
            assert(found@.to_set() =~= self.finite().dom());
        }
        found
    }
}

/// There are as many names as entries.
proof fn lemma_declared_all(entries: Seq<DeclaredEntry>)
    requires
        names_distinct(entries),
    ensures
        declared_map(entries).dom().finite(),
        declared_map(entries).dom().len() == entries.len(),
    decreases entries.len(),
{
    if entries.len() == 0 {
        assert(declared_map(entries).dom() =~= Set::empty());
    } else {
        let front = entries.drop_last();
        let last = entries.last();
        assert forall|k: int| !names(front, k, last.name.atom.text@) by {
            if 0 <= k < front.len() {
                assert(front[k] == entries[k]);
            }
        }
        lemma_declared_all(front);
        assert(entries =~= front.push(last));
        lemma_declared_insert(front, front.len() as int, last, entries);
        assert(declared_map(entries).dom() =~= declared_map(front).dom().insert(last.name.atom.text@));
        assert(!declared_map(front).dom().contains(last.name.atom.text@));
    }
}

/// A required index has no entries; a finite one has the positions below its
/// size, each once.
pub proof fn law_entries(def: IndexDef)
    ensures
        def.required() ==> def.entries().len() == 0,
        def.kind is Finite || def.kind is Coordinate ==> def.entries().no_duplicates() && forall|i: int|
            0 <= i < def.entries().len() ==> #[trigger] def.entries()[i] == Entry::Position(i as nat),
{
}

/// What may be bound to a required index may be bound in its place: a required
/// index of the kind that a contract asks for meets the contract.
pub proof fn law_forwarding(contract: IndexBindingContract, def: IndexDef)
    requires
        match contract {
            IndexBindingContract::Coordinate { dimension } => match def.kind {
                IndexKind::RequiredCoordinate { dimension: found } => dimension@ == found@,
                _ => false,
            },
            _ => def.kind is RequiredNamed,
        },
    ensures
        contract.category_of().accepts(def.category_of()),
        contract.dimension_of() is Some ==> contract.dimension_of() == def.dimension_of(),
{
}

} // verus!
