//! Functions: named ones, lambdas and the constructors of data types.

use crate::ir::class::ClassMemberId;
use crate::ir::data::TypeDefId;
use crate::ir::expr::ExprId;
use crate::ir::type_signature::TypeSignatureId;
use crate::location_info::LocationId;
use vstd::prelude::*;

verus! {

#[derive(Debug, Clone, Copy, PartialEq, Eq, PartialOrd, Ord, Structural)]
pub struct FunctionId {
    pub id: usize,
}

#[derive(Debug, Clone)]
pub struct LambdaInfo {
    pub body: ExprId,
    pub host_info: String,
    pub host_function: FunctionId,
    pub index: usize,
    pub location_id: LocationId,
}

/// What a named function is: a free function, the default implementation of
/// a class member, or a member of an instance.
#[derive(Debug, Clone, Copy, PartialEq, Eq, Structural)]
pub enum NamedFunctionKind {
    Free,
    DefaultClassMember(ClassMemberId),
    InstanceMember,
}

/// A named function. One without a body is a built-in, looked up by module
/// and name.
#[derive(Debug, Clone)]
pub struct NamedFunctionInfo {
    pub body: Option<ExprId>,
    pub module: String,
    pub name: String,
    pub type_signature: Option<TypeSignatureId>,
    pub location_id: LocationId,
    pub kind: NamedFunctionKind,
}

#[derive(Debug, Clone, Copy, PartialEq, Eq, Structural)]
pub struct RecordConstructorInfo {
    pub type_id: TypeDefId,
}

#[derive(Debug, Clone, Copy, PartialEq, Eq, Structural)]
pub struct VariantConstructorInfo {
    pub type_id: TypeDefId,
    pub index: usize,
}

#[derive(Debug, Clone)]
pub enum FunctionInfo {
    Lambda(LambdaInfo),
    NamedFunction(NamedFunctionInfo),
    RecordConstructor(RecordConstructorInfo),
    VariantConstructor(VariantConstructorInfo),
}

/// A function: the places of its explicit arguments, and the number of
/// implicit (captured) arguments that precede them.
#[derive(Debug, Clone)]
pub struct Function {
    pub id: FunctionId,
    pub arg_locations: Vec<LocationId>,
    pub implicit_arg_count: usize,
    pub info: FunctionInfo,
}

impl Function {
    /// The number of arguments that one execution of the function takes:
    /// the implicit ones and the explicit ones.
    pub open spec fn arity(&self) -> nat {
        self.arg_locations@.len() + self.implicit_arg_count as nat
    }
}

} // verus!
