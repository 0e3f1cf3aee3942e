//! Patterns.

use crate::ir::data::TypeDefId;
use crate::ir::expr::ExprId;
use crate::ir::type_signature::TypeSignatureId;
use crate::location_info::LocationId;
use vstd::prelude::*;

verus! {

#[derive(Debug, Clone, Copy, PartialEq, Eq, PartialOrd, Ord, Structural)]
pub struct PatternId {
    pub id: usize,
}

/// A pattern; its sub-patterns are other patterns, by id. A float literal is
/// held as the bits of its IEEE 754 binary64 form.
#[derive(Debug, Clone)]
pub enum Pattern {
    Binding(String),
    Tuple(Vec<PatternId>),
    Record(TypeDefId, Vec<PatternId>),
    Variant(TypeDefId, usize, Vec<PatternId>),
    Guarded(PatternId, ExprId),
    Wildcard,
    IntegerLiteral(i64),
    FloatLiteral(u64),
    StringLiteral(String),
    BoolLiteral(bool),
    Typed(PatternId, TypeSignatureId),
}

#[derive(Debug, Clone)]
pub struct PatternInfo {
    pub pattern: Pattern,
    pub location_id: LocationId,
}

#[derive(Debug, Clone)]
pub struct BindGroup {
    pub patterns: Vec<PatternId>,
}

} // verus!
