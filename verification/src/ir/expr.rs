//! Expressions.

use crate::ir::class::ClassMemberId;
use crate::ir::data::TypeDefId;
use crate::ir::function::FunctionId;
use crate::ir::pattern::PatternId;
use vstd::prelude::*;

verus! {

#[derive(Debug, Clone, Copy, PartialEq, Eq, PartialOrd, Ord, Structural)]
pub struct ExprId {
    pub id: usize,
}

/// A reference to an argument of a function: a captured (implicit) one by
/// its position among the implicit arguments, an explicit one by its position
/// among the explicit ones.
#[derive(Debug, Clone, Copy, PartialEq, Eq, Structural)]
pub struct FunctionArgumentRef {
    pub captured: bool,
    pub id: FunctionId,
    pub index: usize,
}

/// One record that a field name may belong to, with the field's position in it.
#[derive(Debug, Clone, Copy, PartialEq, Eq, Structural)]
pub struct FieldAccessInfo {
    pub record_id: TypeDefId,
    pub index: usize,
}

#[derive(Debug, Clone, Copy, PartialEq, Eq, Structural)]
pub struct Case {
    pub pattern_id: PatternId,
    pub body: ExprId,
}

/// The expression that gives the field at position `index` its value.
#[derive(Debug, Clone, Copy, PartialEq, Eq, Structural)]
pub struct RecordFieldValueExpr {
    pub expr_id: ExprId,
    pub index: usize,
}

#[derive(Debug, Clone)]
pub struct RecordUpdateInfo {
    pub record_id: TypeDefId,
    pub items: Vec<RecordFieldValueExpr>,
}

/// An expression; its sub-expressions are other expressions, by id. A float
/// literal is held as the bits of its IEEE 754 binary64 form.
#[derive(Debug, Clone)]
pub enum Expr {
    StaticFunctionCall(FunctionId, Vec<ExprId>),
    DynamicFunctionCall(ExprId, Vec<ExprId>),
    ClassFunctionCall(ClassMemberId, Vec<ExprId>),
    If(ExprId, ExprId, ExprId),
    Tuple(Vec<ExprId>),
    List(Vec<ExprId>),
    IntegerLiteral(i64),
    FloatLiteral(u64),
    BoolLiteral(bool),
    StringLiteral(String),
    Do(Vec<ExprId>),
    Bind(PatternId, ExprId),
    ArgRef(FunctionArgumentRef),
    ExprValue(ExprId, PatternId),
    FieldAccess(Vec<FieldAccessInfo>, ExprId),
    TupleFieldAccess(usize, ExprId),
    Formatter(String, Vec<ExprId>),
    CaseOf(ExprId, Vec<Case>),
    RecordInitialization(TypeDefId, Vec<RecordFieldValueExpr>),
    RecordUpdate(ExprId, Vec<RecordUpdateInfo>),
}

} // verus!
