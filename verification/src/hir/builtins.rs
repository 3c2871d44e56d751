//! Names that the language itself knows.

use crate::hir::tree::{BuiltinConst, BuiltinFnName, TimeScale};
use vstd::prelude::*;

verus! {

/// The constant of a name, if it is one.
pub open spec fn builtin_const(name: Seq<char>) -> Option<BuiltinConst> {
    if name == "PI"@ {
        Some(BuiltinConst::Pi)
    } else if name == "TAU"@ {
        Some(BuiltinConst::Tau)
    } else if name == "E"@ {
        Some(BuiltinConst::E)
    } else {
        None
    }
}

impl BuiltinConst {
    /// The constant of a name, if it is one.
    pub fn parse(name: &String) -> (r: Option<BuiltinConst>)
        ensures
            r == builtin_const(name@),
    {
        if *name == "PI".to_owned() {
            Some(BuiltinConst::Pi)
        } else if *name == "TAU".to_owned() {
            Some(BuiltinConst::Tau)
        } else if *name == "E".to_owned() {
            Some(BuiltinConst::E)
        } else {
            None
        }
    }

    /// The name of the constant.
    pub fn as_str(&self) -> (r: &'static str)
        ensures
            r@ == self.text(),
    {
        match self {
            BuiltinConst::Pi => "PI",
            BuiltinConst::Tau => "TAU",
            BuiltinConst::E => "E",
        }
    }

    pub open spec fn text(self) -> Seq<char> {
        match self {
            BuiltinConst::Pi => "PI"@,
            BuiltinConst::Tau => "TAU"@,
            BuiltinConst::E => "E"@,
        }
    }
}

/// The time scale of a name, if it is one.
pub open spec fn time_scale(name: Seq<char>) -> Option<TimeScale> {
    if name == "UTC"@ {
        Some(TimeScale::UTC)
    } else if name == "TAI"@ {
        Some(TimeScale::TAI)
    } else if name == "TT"@ {
        Some(TimeScale::TT)
    } else if name == "TDB"@ {
        Some(TimeScale::TDB)
    } else if name == "GPST"@ {
        Some(TimeScale::GPST)
    } else {
        None
    }
}

impl TimeScale {
    /// The time scale of a name, if it is one.
    pub fn parse(name: &String) -> (r: Option<TimeScale>)
        ensures
            r == time_scale(name@),
    {
        if *name == "UTC".to_owned() {
            Some(TimeScale::UTC)
        } else if *name == "TAI".to_owned() {
            Some(TimeScale::TAI)
        } else if *name == "TT".to_owned() {
            Some(TimeScale::TT)
        } else if *name == "TDB".to_owned() {
            Some(TimeScale::TDB)
        } else if *name == "GPST".to_owned() {
            Some(TimeScale::GPST)
        } else {
            None
        }
    }

    /// The name of the time scale.
    pub fn as_str(&self) -> (r: &'static str)
        ensures
            r@ == self.text(),
    {
        match self {
            TimeScale::UTC => "UTC",
            TimeScale::TAI => "TAI",
            TimeScale::TT => "TT",
            TimeScale::TDB => "TDB",
            TimeScale::GPST => "GPST",
        }
    }

    pub open spec fn text(self) -> Seq<char> {
        match self {
            TimeScale::UTC => "UTC"@,
            TimeScale::TAI => "TAI"@,
            TimeScale::TT => "TT"@,
            TimeScale::TDB => "TDB"@,
            TimeScale::GPST => "GPST"@,
        }
    }
}

/// The function of a name, if it is one.
pub open spec fn builtin_fn(name: Seq<char>) -> Option<BuiltinFnName> {
    if name == "sqrt"@ {
        Some(BuiltinFnName::Sqrt)
    } else if name == "abs"@ {
        Some(BuiltinFnName::Abs)
    } else if name == "sign"@ {
        Some(BuiltinFnName::Sign)
    } else if name == "exp"@ {
        Some(BuiltinFnName::Exp)
    } else if name == "ln"@ {
        Some(BuiltinFnName::Ln)
    } else if name == "log10"@ {
        Some(BuiltinFnName::Log10)
    } else if name == "sin"@ {
        Some(BuiltinFnName::Sin)
    } else if name == "cos"@ {
        Some(BuiltinFnName::Cos)
    } else if name == "tan"@ {
        Some(BuiltinFnName::Tan)
    } else if name == "asin"@ {
        Some(BuiltinFnName::Asin)
    } else if name == "acos"@ {
        Some(BuiltinFnName::Acos)
    } else if name == "atan"@ {
        Some(BuiltinFnName::Atan)
    } else if name == "atan2"@ {
        Some(BuiltinFnName::Atan2)
    } else if name == "min"@ {
        Some(BuiltinFnName::Min)
    } else if name == "max"@ {
        Some(BuiltinFnName::Max)
    } else if name == "floor"@ {
        Some(BuiltinFnName::Floor)
    } else if name == "ceil"@ {
        Some(BuiltinFnName::Ceil)
    } else if name == "round"@ {
        Some(BuiltinFnName::Round)
    } else if name == "sum"@ {
        Some(BuiltinFnName::Sum)
    } else if name == "mean"@ {
        Some(BuiltinFnName::Mean)
    } else if name == "count"@ {
        Some(BuiltinFnName::Count)
    } else if name == "dot"@ {
        Some(BuiltinFnName::Dot)
    } else if name == "matmul"@ {
        Some(BuiltinFnName::Matmul)
    } else if name == "transpose"@ {
        Some(BuiltinFnName::Transpose)
    } else if name == "eye"@ {
        Some(BuiltinFnName::Eye)
    } else if name == "datetime"@ {
        Some(BuiltinFnName::Datetime)
    } else if name == "epoch"@ {
        Some(BuiltinFnName::Epoch)
    } else {
        None
    }
}

impl BuiltinFnName {
    /// The function of a name, if it is one.
    pub fn parse(name: &String) -> (r: Option<BuiltinFnName>)
        ensures
            r == builtin_fn(name@),
    {
        if *name == "sqrt".to_owned() {
            Some(BuiltinFnName::Sqrt)
        } else if *name == "abs".to_owned() {
            Some(BuiltinFnName::Abs)
        } else if *name == "sign".to_owned() {
            Some(BuiltinFnName::Sign)
        } else if *name == "exp".to_owned() {
            Some(BuiltinFnName::Exp)
        } else if *name == "ln".to_owned() {
            Some(BuiltinFnName::Ln)
        } else if *name == "log10".to_owned() {
            Some(BuiltinFnName::Log10)
        } else if *name == "sin".to_owned() {
            Some(BuiltinFnName::Sin)
        } else if *name == "cos".to_owned() {
            Some(BuiltinFnName::Cos)
        } else if *name == "tan".to_owned() {
            Some(BuiltinFnName::Tan)
        } else if *name == "asin".to_owned() {
            Some(BuiltinFnName::Asin)
        } else if *name == "acos".to_owned() {
            Some(BuiltinFnName::Acos)
        } else if *name == "atan".to_owned() {
            Some(BuiltinFnName::Atan)
        } else if *name == "atan2".to_owned() {
            Some(BuiltinFnName::Atan2)
        } else if *name == "min".to_owned() {
            Some(BuiltinFnName::Min)
        } else if *name == "max".to_owned() {
            Some(BuiltinFnName::Max)
        } else if *name == "floor".to_owned() {
            Some(BuiltinFnName::Floor)
        } else if *name == "ceil".to_owned() {
            Some(BuiltinFnName::Ceil)
        } else if *name == "round".to_owned() {
            Some(BuiltinFnName::Round)
        } else if *name == "sum".to_owned() {
            Some(BuiltinFnName::Sum)
        } else if *name == "mean".to_owned() {
            Some(BuiltinFnName::Mean)
        } else if *name == "count".to_owned() {
            Some(BuiltinFnName::Count)
        } else if *name == "dot".to_owned() {
            Some(BuiltinFnName::Dot)
        } else if *name == "matmul".to_owned() {
            Some(BuiltinFnName::Matmul)
        } else if *name == "transpose".to_owned() {
            Some(BuiltinFnName::Transpose)
        } else if *name == "eye".to_owned() {
            Some(BuiltinFnName::Eye)
        } else if *name == "datetime".to_owned() {
            Some(BuiltinFnName::Datetime)
        } else if *name == "epoch".to_owned() {
            Some(BuiltinFnName::Epoch)
        } else {
            None
        }
    }

    /// The name of the function.
    pub fn as_str(&self) -> (r: &'static str)
        ensures
            r@ == self.text(),
    {
        match self {
            BuiltinFnName::Sqrt => "sqrt",
            BuiltinFnName::Abs => "abs",
            BuiltinFnName::Sign => "sign",
            BuiltinFnName::Exp => "exp",
            BuiltinFnName::Ln => "ln",
            BuiltinFnName::Log10 => "log10",
            BuiltinFnName::Sin => "sin",
            BuiltinFnName::Cos => "cos",
            BuiltinFnName::Tan => "tan",
            BuiltinFnName::Asin => "asin",
            BuiltinFnName::Acos => "acos",
            BuiltinFnName::Atan => "atan",
            BuiltinFnName::Atan2 => "atan2",
            BuiltinFnName::Min => "min",
            BuiltinFnName::Max => "max",
            BuiltinFnName::Floor => "floor",
            BuiltinFnName::Ceil => "ceil",
            BuiltinFnName::Round => "round",
            BuiltinFnName::Sum => "sum",
            BuiltinFnName::Mean => "mean",
            BuiltinFnName::Count => "count",
            BuiltinFnName::Dot => "dot",
            BuiltinFnName::Matmul => "matmul",
            BuiltinFnName::Transpose => "transpose",
            BuiltinFnName::Eye => "eye",
            BuiltinFnName::Datetime => "datetime",
            BuiltinFnName::Epoch => "epoch",
        }
    }

    pub open spec fn text(self) -> Seq<char> {
        match self {
            BuiltinFnName::Sqrt => "sqrt"@,
            BuiltinFnName::Abs => "abs"@,
            BuiltinFnName::Sign => "sign"@,
            BuiltinFnName::Exp => "exp"@,
            BuiltinFnName::Ln => "ln"@,
            BuiltinFnName::Log10 => "log10"@,
            BuiltinFnName::Sin => "sin"@,
            BuiltinFnName::Cos => "cos"@,
            BuiltinFnName::Tan => "tan"@,
            BuiltinFnName::Asin => "asin"@,
            BuiltinFnName::Acos => "acos"@,
            BuiltinFnName::Atan => "atan"@,
            BuiltinFnName::Atan2 => "atan2"@,
            BuiltinFnName::Min => "min"@,
            BuiltinFnName::Max => "max"@,
            BuiltinFnName::Floor => "floor"@,
            BuiltinFnName::Ceil => "ceil"@,
            BuiltinFnName::Round => "round"@,
            BuiltinFnName::Sum => "sum"@,
            BuiltinFnName::Mean => "mean"@,
            BuiltinFnName::Count => "count"@,
            BuiltinFnName::Dot => "dot"@,
            BuiltinFnName::Matmul => "matmul"@,
            BuiltinFnName::Transpose => "transpose"@,
            BuiltinFnName::Eye => "eye"@,
            BuiltinFnName::Datetime => "datetime"@,
            BuiltinFnName::Epoch => "epoch"@,
        }
    }
}

/// Functions whose number of arguments depends on their types.
pub open spec fn has_type_checker_arity(function: BuiltinFnName) -> bool {
    match function {
        BuiltinFnName::Sum => true,
        BuiltinFnName::Mean => true,
        BuiltinFnName::Count => true,
        BuiltinFnName::Dot => true,
        BuiltinFnName::Matmul => true,
        BuiltinFnName::Transpose => true,
        BuiltinFnName::Eye => true,
        _ => false,
    }
}

/// How many arguments a function takes, where that is fixed.
pub open spec fn fixed_arity(function: BuiltinFnName) -> Option<int> {
    match function {
        BuiltinFnName::Atan2 => Some(2),
        BuiltinFnName::Min => Some(2),
        BuiltinFnName::Max => Some(2),
        BuiltinFnName::Datetime => None,
        _ => if has_type_checker_arity(function) { None } else { Some(1) },
    }
}

/// Whether the number of arguments depends on their types.
pub fn builtin_has_type_checker_arity(function: BuiltinFnName) -> (r: bool)
    ensures
        r == has_type_checker_arity(function),
{
    match function {
        BuiltinFnName::Sum => true,
        BuiltinFnName::Mean => true,
        BuiltinFnName::Count => true,
        BuiltinFnName::Dot => true,
        BuiltinFnName::Matmul => true,
        BuiltinFnName::Transpose => true,
        BuiltinFnName::Eye => true,
        _ => false,
    }
}

/// How many arguments a function takes, where that is fixed.
pub fn builtin_arity(function: BuiltinFnName) -> (r: Option<usize>)
    ensures
        match r {
            Some(n) => fixed_arity(function) == Some(n as int),
            None => fixed_arity(function) is None,
        },
{
    match function {
        BuiltinFnName::Atan2 => Some(2),
        BuiltinFnName::Min => Some(2),
        BuiltinFnName::Max => Some(2),
        BuiltinFnName::Datetime => None,
        _ => if builtin_has_type_checker_arity(function) {
            None
        } else {
            Some(1)
        },
    }
}

/// A name that the language knows stands for what bears it, and everything that
/// bears a name is found under it.
pub proof fn law_builtins_are_found_by_their_names(
    name: Seq<char>,
    constant: BuiltinConst,
    scale: TimeScale,
    function: BuiltinFnName,
)
    ensures
        builtin_const(name) is Some ==> builtin_const(name)->0.text() == name,
        builtin_const(constant.text()) is Some,
        time_scale(name) is Some ==> time_scale(name)->0.text() == name,
        time_scale(scale.text()) is Some,
        builtin_fn(name) is Some ==> builtin_fn(name)->0.text() == name,
        builtin_fn(function.text()) is Some,
{
}

} // verus!
