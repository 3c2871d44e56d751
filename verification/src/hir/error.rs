//! Why an expression does not resolve.

use crate::hir::datetime::DatetimeLiteralExpectation;
use crate::hir::resolve::ModuleResolveError;
use crate::hir::tree::{CivilDateTimeLiteral, FunctionRef, IanaTimeZoneId};
use crate::syntax::ast::{GenericConstraint, ScopedName, UnitRef};
use crate::syntax::names::{FieldName, FnName, IndexName, IndexVariantName, LocalName, ModuleAliasName, NameAtom};
use crate::syntax::span::Span;
use crate::syntax::term::{node0, node1, node2, node3, node4, node6, Spans, Symbol, Syntax, Tag, Term};
use vstd::prelude::*;

verus! {

/// Why an expression does not resolve, and where.
#[derive(Debug)]
pub enum ExprLowerError {
    ModuleResolve { source: ModuleResolveError, span: Span },
    UnknownNatParam { name: String, span: Span },
    ExpectedIndexFoundNat { expression: String, span: Span },
    GenericArgCount { name: String, expected: usize, got: usize, span: Span },
    GenericArgMismatch { expected: GenericConstraint, span: Span },
    UnknownLocalRef { name: LocalName, span: Span },
    UnknownGraphRef { name: ScopedName, span: Span },
    TooManyLocals { span: Span },
    InvalidMapEntryKey { span: Span },
    ExtraMapVariant { index_name: IndexName, variant_name: IndexVariantName, span: Span },
    DuplicateLocalBinding { name: LocalName, first: Span, duplicate: Span },
    UnknownFunction { path: String, span: Span },
    UnknownExternFunction { alias: ModuleAliasName, name: FnName, span: Span },
    NamedArgumentsOnFunction { function: FunctionRef, argument_names: Vec<FieldName>, span: Span },
    UnsupportedFunctionGenericArgs { path: String, span: Span },
    WrongArity { name: FnName, expected: usize, got: usize, span: Span },
    InvalidTimezone { timezone: String, tzdb_version: String, span: Span },
    EpochTimeScaleArgumentCount { got: usize, span: Span },
    InvalidEpochTimeScaleArgument { span: Span },
    UnsupportedEpochTimeScale { name: NameAtom, span: Span },
    InvalidDatetimeLiteral { expectation: DatetimeLiteralExpectation, reason: String, span: Span },
    NonexistentCivilDateTime {
        datetime: CivilDateTimeLiteral,
        time_zone: IanaTimeZoneId,
        before: i32,
        after: i32,
        datetime_span: Span,
        time_zone_span: Span,
    },
    RepeatedCivilDateTime {
        datetime: CivilDateTimeLiteral,
        time_zone: IanaTimeZoneId,
        before: i32,
        after: i32,
        datetime_span: Span,
        time_zone_span: Span,
    },
    TimeZoneRegistryInvariant { time_zone: IanaTimeZoneId, reason: String, span: Span },
    UnknownUnit { name: UnitRef, span: Span },
    UnknownPattern { path: String, span: Span },
}

pub open spec fn expectation_term(expectation: DatetimeLiteralExpectation) -> Term {
    match expectation {
        DatetimeLiteralExpectation::OffsetDateTime => node0(Tag::ExpectOffsetDateTime),
        DatetimeLiteralExpectation::ZonedCivilDateTime => node0(Tag::ExpectZonedCivilDateTime),
        DatetimeLiteralExpectation::Epoch(scale) => node1(
            Tag::ExpectEpoch,
            Term::Symbol(Symbol::TimeScale(scale)),
        ),
    }
}

pub open spec fn module_resolve(source: Term, span: Span) -> Term {
    node2(Tag::LowerModuleResolve, source, Term::At(span))
}

pub open spec fn unknown_nat_param(name: Seq<char>, span: Span) -> Term {
    node2(Tag::LowerUnknownNatParam, Term::Text(name), Term::At(span))
}

pub open spec fn expected_index_found_nat(expression: Seq<char>, span: Span) -> Term {
    node2(Tag::LowerExpectedIndexFoundNat, Term::Text(expression), Term::At(span))
}

pub open spec fn generic_arg_count(name: Seq<char>, expected: int, got: int, span: Span) -> Term {
    node4(Tag::LowerGenericArgCount, Term::Text(name), Term::Int(expected), Term::Int(got), Term::At(span))
}

pub open spec fn generic_arg_mismatch(expected: GenericConstraint, span: Span) -> Term {
    node2(Tag::LowerGenericArgMismatch, Term::Symbol(Symbol::GenericConstraint(expected)), Term::At(span))
}

pub open spec fn unknown_local_ref(name: Seq<char>, span: Span) -> Term {
    node2(Tag::LowerUnknownLocalRef, Term::Text(name), Term::At(span))
}

pub open spec fn unknown_graph_ref(name: Term, span: Span) -> Term {
    node2(Tag::LowerUnknownGraphRef, name, Term::At(span))
}

pub open spec fn too_many_locals(span: Span) -> Term {
    node1(Tag::LowerTooManyLocals, Term::At(span))
}

pub open spec fn invalid_map_entry_key(span: Span) -> Term {
    node1(Tag::LowerInvalidMapEntryKey, Term::At(span))
}

pub open spec fn extra_map_variant(index_name: Seq<char>, variant_name: Seq<char>, span: Span) -> Term {
    node3(Tag::LowerExtraMapVariant, Term::Text(index_name), Term::Text(variant_name), Term::At(span))
}

pub open spec fn duplicate_local_binding(name: Seq<char>, first: Span, duplicate: Span) -> Term {
    node3(Tag::LowerDuplicateLocalBinding, Term::Text(name), Term::At(first), Term::At(duplicate))
}

pub open spec fn unknown_function(path: Seq<char>, span: Span) -> Term {
    node2(Tag::LowerUnknownFunction, Term::Text(path), Term::At(span))
}

pub open spec fn unknown_extern_function(alias: Seq<char>, name: Seq<char>, span: Span) -> Term {
    node3(Tag::LowerUnknownExternFunction, Term::Text(alias), Term::Text(name), Term::At(span))
}

pub open spec fn named_arguments_on_function(function: Term, argument_names: Term, span: Span) -> Term {
    node3(Tag::LowerNamedArgumentsOnFunction, function, argument_names, Term::At(span))
}

pub open spec fn unsupported_function_generic_args(path: Seq<char>, span: Span) -> Term {
    node2(Tag::LowerUnsupportedFunctionGenericArgs, Term::Text(path), Term::At(span))
}

pub open spec fn wrong_arity(name: Seq<char>, expected: int, got: int, span: Span) -> Term {
    node4(Tag::LowerWrongArity, Term::Text(name), Term::Int(expected), Term::Int(got), Term::At(span))
}

pub open spec fn invalid_timezone(timezone: Seq<char>, tzdb_version: Seq<char>, span: Span) -> Term {
    node3(Tag::LowerInvalidTimezone, Term::Text(timezone), Term::Text(tzdb_version), Term::At(span))
}

pub open spec fn epoch_time_scale_argument_count(got: int, span: Span) -> Term {
    node2(Tag::LowerEpochTimeScaleArgumentCount, Term::Int(got), Term::At(span))
}

pub open spec fn invalid_epoch_time_scale_argument(span: Span) -> Term {
    node1(Tag::LowerInvalidEpochTimeScaleArgument, Term::At(span))
}

pub open spec fn unsupported_epoch_time_scale(name: Seq<char>, span: Span) -> Term {
    node2(Tag::LowerUnsupportedEpochTimeScale, Term::Text(name), Term::At(span))
}

pub open spec fn invalid_datetime_literal(
    expectation: DatetimeLiteralExpectation,
    reason: Seq<char>,
    span: Span,
) -> Term {
    node3(Tag::LowerInvalidDatetimeLiteral, expectation_term(expectation), Term::Text(reason), Term::At(span))
}

pub open spec fn nonexistent_civil_date_time(
    datetime: Term,
    time_zone: Seq<char>,
    before: int,
    after: int,
    datetime_span: Span,
    time_zone_span: Span,
) -> Term {
    node6(
        Tag::LowerNonexistentCivilDateTime,
        datetime,
        Term::Text(time_zone),
        Term::Int(before),
        Term::Int(after),
        Term::At(datetime_span),
        Term::At(time_zone_span),
    )
}

pub open spec fn repeated_civil_date_time(
    datetime: Term,
    time_zone: Seq<char>,
    before: int,
    after: int,
    datetime_span: Span,
    time_zone_span: Span,
) -> Term {
    node6(
        Tag::LowerRepeatedCivilDateTime,
        datetime,
        Term::Text(time_zone),
        Term::Int(before),
        Term::Int(after),
        Term::At(datetime_span),
        Term::At(time_zone_span),
    )
}

pub open spec fn time_zone_registry_invariant(time_zone: Seq<char>, reason: Seq<char>, span: Span) -> Term {
    node3(Tag::LowerTimeZoneRegistryInvariant, Term::Text(time_zone), Term::Text(reason), Term::At(span))
}

pub open spec fn unknown_unit(name: Term, span: Span) -> Term {
    node2(Tag::LowerUnknownUnit, name, Term::At(span))
}

pub open spec fn unknown_pattern(path: Seq<char>, span: Span) -> Term {
    node2(Tag::LowerUnknownPattern, Term::Text(path), Term::At(span))
}

impl ExprLowerError {
    #[verifier::opaque]
    pub open spec fn to_term(self) -> Term {
        match self {
            ExprLowerError::ModuleResolve { source, span } => module_resolve(source.to_term(), span),
            ExprLowerError::UnknownNatParam { name, span } => unknown_nat_param(name@, span),
            ExprLowerError::ExpectedIndexFoundNat { expression, span } => expected_index_found_nat(expression@, span),
            ExprLowerError::GenericArgCount { name, expected, got, span } => generic_arg_count(
                name@,
                expected as int,
                got as int,
                span,
            ),
            ExprLowerError::GenericArgMismatch { expected, span } => generic_arg_mismatch(expected, span),
            ExprLowerError::UnknownLocalRef { name, span } => unknown_local_ref(name.atom.text@, span),
            ExprLowerError::UnknownGraphRef { name, span } => unknown_graph_ref(name.term(Spans::Kept), span),
            ExprLowerError::TooManyLocals { span } => too_many_locals(span),
            ExprLowerError::InvalidMapEntryKey { span } => invalid_map_entry_key(span),
            ExprLowerError::ExtraMapVariant {
                index_name,
                variant_name,
                span,
            } => extra_map_variant(index_name.atom.text@, variant_name.atom.text@, span),
            ExprLowerError::DuplicateLocalBinding {
                name,
                first,
                duplicate,
            } => duplicate_local_binding(name.atom.text@, first, duplicate),
            ExprLowerError::UnknownFunction { path, span } => unknown_function(path@, span),
            ExprLowerError::UnknownExternFunction {
                alias,
                name,
                span,
            } => unknown_extern_function(alias.atom.text@, name.atom.text@, span),
            ExprLowerError::NamedArgumentsOnFunction {
                function,
                argument_names,
                span,
            } => named_arguments_on_function(function.term(Spans::Kept), argument_names.term(Spans::Kept), span),
            ExprLowerError::UnsupportedFunctionGenericArgs { path, span } => unsupported_function_generic_args(path@, span),
            ExprLowerError::WrongArity { name, expected, got, span } => wrong_arity(
                name.atom.text@,
                expected as int,
                got as int,
                span,
            ),
            ExprLowerError::InvalidTimezone {
                timezone,
                tzdb_version,
                span,
            } => invalid_timezone(timezone@, tzdb_version@, span),
            ExprLowerError::EpochTimeScaleArgumentCount { got, span } => epoch_time_scale_argument_count(
                got as int,
                span,
            ),
            ExprLowerError::InvalidEpochTimeScaleArgument { span } => invalid_epoch_time_scale_argument(span),
            ExprLowerError::UnsupportedEpochTimeScale { name, span } => unsupported_epoch_time_scale(name.text@, span),
            ExprLowerError::InvalidDatetimeLiteral {
                expectation,
                reason,
                span,
            } => invalid_datetime_literal(expectation, reason@, span),
            ExprLowerError::NonexistentCivilDateTime {
                datetime,
                time_zone,
                before,
                after,
                datetime_span,
                time_zone_span,
            } => nonexistent_civil_date_time(
                datetime.term(Spans::Kept),
                time_zone.name@,
                before as int,
                after as int,
                datetime_span,
                time_zone_span,
            ),
            ExprLowerError::RepeatedCivilDateTime {
                datetime,
                time_zone,
                before,
                after,
                datetime_span,
                time_zone_span,
            } => repeated_civil_date_time(
                datetime.term(Spans::Kept),
                time_zone.name@,
                before as int,
                after as int,
                datetime_span,
                time_zone_span,
            ),
            ExprLowerError::TimeZoneRegistryInvariant { time_zone, reason, span } => time_zone_registry_invariant(
                time_zone.name@,
                reason@,
                span,
            ),
            ExprLowerError::UnknownUnit { name, span } => unknown_unit(name.term(Spans::Kept), span),
            ExprLowerError::UnknownPattern { path, span } => unknown_pattern(path@, span),
        }
    }

    pub(crate) fn module_resolve(source: ModuleResolveError, span: Span) -> (r: ExprLowerError)
        ensures
            r.to_term() == module_resolve(source.to_term(), span),
    {
        proof {
            reveal(ExprLowerError::to_term);
        }
        ExprLowerError::ModuleResolve { source, span }
    }

    pub(crate) fn unknown_nat_param(name: String, span: Span) -> (r: ExprLowerError)
        ensures
            r.to_term() == unknown_nat_param(name@, span),
    {
        proof {
            reveal(ExprLowerError::to_term);
        }
        ExprLowerError::UnknownNatParam { name, span }
    }

    pub(crate) fn expected_index_found_nat(expression: String, span: Span) -> (r: ExprLowerError)
        ensures
            r.to_term() == expected_index_found_nat(expression@, span),
    {
        proof {
            reveal(ExprLowerError::to_term);
        }
        ExprLowerError::ExpectedIndexFoundNat { expression, span }
    }

    pub(crate) fn generic_arg_count(name: String, expected: usize, got: usize, span: Span) -> (r: ExprLowerError)
        ensures
            r.to_term() == generic_arg_count(name@, expected as int, got as int, span),
    {
        proof {
            reveal(ExprLowerError::to_term);
        }
        ExprLowerError::GenericArgCount { name, expected, got, span }
    }

    pub(crate) fn generic_arg_mismatch(expected: GenericConstraint, span: Span) -> (r: ExprLowerError)
        ensures
            r.to_term() == generic_arg_mismatch(expected, span),
    {
        proof {
            reveal(ExprLowerError::to_term);
        }
        ExprLowerError::GenericArgMismatch { expected, span }
    }

    pub(crate) fn unknown_local_ref(name: String, span: Span) -> (r: ExprLowerError)
        ensures
            r.to_term() == unknown_local_ref(name@, span),
    {
        proof {
            reveal(ExprLowerError::to_term);
        }
        ExprLowerError::UnknownLocalRef { name: LocalName { atom: NameAtom::new(name) }, span }
    }

    pub(crate) fn unknown_graph_ref(name: ScopedName, span: Span) -> (r: ExprLowerError)
        ensures
            r.to_term() == unknown_graph_ref(name.term(Spans::Kept), span),
    {
        proof {
            reveal(ExprLowerError::to_term);
        }
        ExprLowerError::UnknownGraphRef { name, span }
    }

    pub(crate) fn too_many_locals(span: Span) -> (r: ExprLowerError)
        ensures
            r.to_term() == too_many_locals(span),
    {
        proof {
            reveal(ExprLowerError::to_term);
        }
        ExprLowerError::TooManyLocals { span }
    }

    pub(crate) fn invalid_map_entry_key(span: Span) -> (r: ExprLowerError)
        ensures
            r.to_term() == invalid_map_entry_key(span),
    {
        proof {
            reveal(ExprLowerError::to_term);
        }
        ExprLowerError::InvalidMapEntryKey { span }
    }

    pub(crate) fn extra_map_variant(index_name: String, variant_name: String, span: Span) -> (r: ExprLowerError)
        ensures
            r.to_term() == extra_map_variant(index_name@, variant_name@, span),
    {
        proof {
            reveal(ExprLowerError::to_term);
        }
        ExprLowerError::ExtraMapVariant {
            index_name: IndexName { atom: NameAtom::new(index_name) },
            variant_name: IndexVariantName { atom: NameAtom::new(variant_name) },
            span,
        }
    }

    pub(crate) fn duplicate_local_binding(name: String, first: Span, duplicate: Span) -> (r: ExprLowerError)
        ensures
            r.to_term() == duplicate_local_binding(name@, first, duplicate),
    {
        proof {
            reveal(ExprLowerError::to_term);
        }
        ExprLowerError::DuplicateLocalBinding { name: LocalName { atom: NameAtom::new(name) }, first, duplicate }
    }

    pub(crate) fn unknown_function(path: String, span: Span) -> (r: ExprLowerError)
        ensures
            r.to_term() == unknown_function(path@, span),
    {
        proof {
            reveal(ExprLowerError::to_term);
        }
        ExprLowerError::UnknownFunction { path, span }
    }

    pub(crate) fn unknown_extern_function(alias: String, name: String, span: Span) -> (r: ExprLowerError)
        ensures
            r.to_term() == unknown_extern_function(alias@, name@, span),
    {
        proof {
            reveal(ExprLowerError::to_term);
        }
        ExprLowerError::UnknownExternFunction {
            alias: ModuleAliasName { atom: NameAtom::new(alias) },
            name: FnName { atom: NameAtom::new(name) },
            span,
        }
    }

    pub(crate) fn named_arguments_on_function(
        function: FunctionRef,
        argument_names: Vec<FieldName>,
        span: Span,
    ) -> (r: ExprLowerError)
        ensures
            r.to_term() == named_arguments_on_function(
                function.term(Spans::Kept),
                argument_names.term(Spans::Kept),
                span,
            ),
    {
        proof {
            reveal(ExprLowerError::to_term);
        }
        ExprLowerError::NamedArgumentsOnFunction { function, argument_names, span }
    }

    pub(crate) fn unsupported_function_generic_args(path: String, span: Span) -> (r: ExprLowerError)
        ensures
            r.to_term() == unsupported_function_generic_args(path@, span),
    {
        proof {
            reveal(ExprLowerError::to_term);
        }
        ExprLowerError::UnsupportedFunctionGenericArgs { path, span }
    }

    pub(crate) fn wrong_arity(name: String, expected: usize, got: usize, span: Span) -> (r: ExprLowerError)
        ensures
            r.to_term() == wrong_arity(name@, expected as int, got as int, span),
    {
        proof {
            reveal(ExprLowerError::to_term);
        }
        ExprLowerError::WrongArity { name: FnName { atom: NameAtom::new(name) }, expected, got, span }
    }

    pub(crate) fn invalid_timezone(timezone: String, tzdb_version: String, span: Span) -> (r: ExprLowerError)
        ensures
            r.to_term() == invalid_timezone(timezone@, tzdb_version@, span),
    {
        proof {
            reveal(ExprLowerError::to_term);
        }
        ExprLowerError::InvalidTimezone { timezone, tzdb_version, span }
    }

    pub(crate) fn epoch_time_scale_argument_count(got: usize, span: Span) -> (r: ExprLowerError)
        ensures
            r.to_term() == epoch_time_scale_argument_count(got as int, span),
    {
        proof {
            reveal(ExprLowerError::to_term);
        }
        ExprLowerError::EpochTimeScaleArgumentCount { got, span }
    }

    pub(crate) fn invalid_epoch_time_scale_argument(span: Span) -> (r: ExprLowerError)
        ensures
            r.to_term() == invalid_epoch_time_scale_argument(span),
    {
        proof {
            reveal(ExprLowerError::to_term);
        }
        ExprLowerError::InvalidEpochTimeScaleArgument { span }
    }

    pub(crate) fn unsupported_epoch_time_scale(name: String, span: Span) -> (r: ExprLowerError)
        ensures
            r.to_term() == unsupported_epoch_time_scale(name@, span),
    {
        proof {
            reveal(ExprLowerError::to_term);
        }
        ExprLowerError::UnsupportedEpochTimeScale { name: NameAtom::new(name), span }
    }

    pub(crate) fn invalid_datetime_literal(
        expectation: DatetimeLiteralExpectation,
        reason: String,
        span: Span,
    ) -> (r: ExprLowerError)
        ensures
            r.to_term() == invalid_datetime_literal(expectation, reason@, span),
    {
        proof {
            reveal(ExprLowerError::to_term);
        }
        ExprLowerError::InvalidDatetimeLiteral { expectation, reason, span }
    }

    pub(crate) fn nonexistent_civil_date_time(
        datetime: CivilDateTimeLiteral,
        time_zone: IanaTimeZoneId,
        before: i32,
        after: i32,
        datetime_span: Span,
        time_zone_span: Span,
    ) -> (r: ExprLowerError)
        ensures
            r.to_term() == nonexistent_civil_date_time(
                datetime.term(Spans::Kept),
                time_zone.name@,
                before as int,
                after as int,
                datetime_span,
                time_zone_span,
            ),
    {
        proof {
            reveal(ExprLowerError::to_term);
        }
        ExprLowerError::NonexistentCivilDateTime { datetime, time_zone, before, after, datetime_span, time_zone_span }
    }

    pub(crate) fn repeated_civil_date_time(
        datetime: CivilDateTimeLiteral,
        time_zone: IanaTimeZoneId,
        before: i32,
        after: i32,
        datetime_span: Span,
        time_zone_span: Span,
    ) -> (r: ExprLowerError)
        ensures
            r.to_term() == repeated_civil_date_time(
                datetime.term(Spans::Kept),
                time_zone.name@,
                before as int,
                after as int,
                datetime_span,
                time_zone_span,
            ),
    {
        proof {
            reveal(ExprLowerError::to_term);
        }
        ExprLowerError::RepeatedCivilDateTime { datetime, time_zone, before, after, datetime_span, time_zone_span }
    }

    pub(crate) fn time_zone_registry_invariant(
        time_zone: IanaTimeZoneId,
        reason: String,
        span: Span,
    ) -> (r: ExprLowerError)
        ensures
            r.to_term() == time_zone_registry_invariant(time_zone.name@, reason@, span),
    {
        proof {
            reveal(ExprLowerError::to_term);
        }
        ExprLowerError::TimeZoneRegistryInvariant { time_zone, reason, span }
    }

    pub(crate) fn unknown_unit(name: UnitRef, span: Span) -> (r: ExprLowerError)
        ensures
            r.to_term() == unknown_unit(name.term(Spans::Kept), span),
    {
        proof {
            reveal(ExprLowerError::to_term);
        }
        ExprLowerError::UnknownUnit { name, span }
    }

    pub(crate) fn unknown_pattern(path: String, span: Span) -> (r: ExprLowerError)
        ensures
            r.to_term() == unknown_pattern(path@, span),
    {
        proof {
            reveal(ExprLowerError::to_term);
        }
        ExprLowerError::UnknownPattern { path, span }
    }
}

} // verus!
