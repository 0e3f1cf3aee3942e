//! The ways in which an evaluation ends without a value.

use crate::ir::class::ClassMemberId;
use crate::ir::expr::ExprId;
use crate::ir::function::FunctionId;
use crate::ir::pattern::PatternId;
use vstd::prelude::*;

verus! {

#[derive(Debug, Clone, Copy, PartialEq, Eq, Structural)]
pub enum EvalError {
    /// The evaluation nested deeper than the limit it was given.
    DepthLimitExceeded,
    /// An id without an entry in its table.
    MissingExpr(ExprId),
    MissingPattern(PatternId),
    MissingFunction(FunctionId),
    MissingClassMember(ClassMemberId),
    /// An id that inference attached no type to.
    UntypedExpr(ExprId),
    UntypedFunction(FunctionId),
    UntypedClassMember(ClassMemberId),
    /// The substitution context leaves a variable of the expression's type
    /// unbound.
    UnboundTypeVariable(ExprId),
    /// The types at a call do not fit the callee's schematic type, or leave
    /// a variable of it unbound.
    InvalidCallTypes,
    /// An argument reference behind the arguments that were passed.
    MissingArgument(ExprId),
    /// A reference to a pattern that nothing was bound to.
    UnboundPattern(PatternId),
    /// A call of a value that is no callable.
    NotCallable,
    /// A value of another shape than the expression needs.
    WrongShape(ExprId),
    /// A pattern with more sub-patterns than the value has items.
    InvalidPattern(PatternId),
    /// A guard that gave no boolean.
    InvalidGuard(PatternId),
    /// The pattern of a binding did not match.
    BindFailed(ExprId),
    /// No case of a case expression matched.
    NoMatchingCase(ExprId),
    /// A constructor called for a type or a variant that the tables lack, or
    /// with too few arguments.
    InvalidConstructor(FunctionId),
    /// A function without a body for which no built-in is registered.
    MissingExtern(FunctionId),
    /// No instance of the member's class at the selected type.
    MissingInstance(ClassMemberId),
    /// The instance does not implement the member and the class gives no default.
    MissingImplementation(ClassMemberId),
    /// A built-in class or member that the program lacks.
    MissingBuiltin,
    /// The function `main` of module `Main` is missing: what running a
    /// program without it comes to. The functions that run a program leave
    /// such programs out.
    MainNotFound,
    /// A built-in was called on arguments that it is not defined on.
    InvalidExternArguments,
    /// The result of a built-in does not fit the integers.
    IntegerOverflow,
    DivisionByZero,
    /// A built-in ended the evaluation.
    AbortCalled,
    /// A built-in found an assertion of the program to fail.
    AssertionFailed,
}

} // verus!
