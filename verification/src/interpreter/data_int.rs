//! The built-in functions of integers.

use crate::constants::INT_MODULE_NAME;
use crate::interpreter::environment::Environment;
use crate::interpreter::error::EvalError;
use crate::interpreter::extern_function::explicit_args;
use crate::interpreter::extern_function::variant_index;
use crate::interpreter::extern_function::ExternFunction;
use crate::interpreter::extern_function::TypeDefIdCache;
use crate::interpreter::interpreter::Interpreter;
use crate::interpreter::show::int_text;
use crate::interpreter::show::show_int;
use crate::interpreter::value::value_models;
use crate::interpreter::value::CoreModel;
use crate::interpreter::value::Value;
use crate::interpreter::value::ValueCore;
use crate::interpreter::value::ValueModel;
use crate::ir::concrete::concrete_models;
use crate::ir::concrete::ConcreteModel;
use crate::ir::concrete::ConcreteType;
use crate::ir::expr::ExprId;
use crate::ir::function::NamedFunctionKind;
use crate::ir::program::Program;
use crate::constants::MAIN_FUNCTION;
use crate::constants::MAIN_MODULE;
use crate::interpreter::semantics::function_named;
use crate::ir::function::FunctionInfo;
use crate::typechecker::typechecker::has_main;
use crate::interpreter::show::lemma_int_text_round_trip;
use crate::interpreter::show::text_int;
use crate::interpreter::extern_function::ExternEntry;
use crate::interpreter::interpreter::typedef_cache_of;
use crate::interpreter::extern_function::DispatchRequest;
use crate::interpreter::extern_function::RequestModel;
use crate::constants::SHOW_CLASS_NAME;
use crate::constants::SHOW_MEMBER_NAME;
use crate::interpreter::environment::explicit_of;
use crate::interpreter::extern_function::extern_position;
use crate::interpreter::semantics::call;
use crate::interpreter::semantics::call_class_member;
use crate::interpreter::semantics::call_show;
use crate::interpreter::semantics::callee_context;
use crate::interpreter::semantics::class_member_named;
use crate::interpreter::semantics::execute;
use crate::interpreter::semantics::extern_result;
use crate::interpreter::semantics::member_function;
use crate::interpreter::semantics::string_type;
use crate::ir::class::ClassMemberId;
use crate::ir::function::FunctionId;
use vstd::prelude::*;

verus! {

/// The integer that is the explicit argument at position `index`, if there
/// is an argument there and it is an integer.
pub open spec fn int_arg(args: Seq<ValueModel>, index: int) -> Option<i64> {
    if 0 <= index < args.len() {
        match args[index].core {
            CoreModel::Int(v) => Some(v),
            _ => None,
        }
    } else {
        None
    }
}

/// Reads the integer at position `index` among the explicit arguments.
fn get_int_arg(environment: &Environment, index: usize) -> (r: Option<i64>)
    ensures
        r == int_arg(explicit_args(environment), index as int),
{
    match environment.get_arg_by_index(index) {
        Some(v) => match v.core {
            ValueCore::Int(i) => Some(i),
            _ => None,
        },
        None => None,
    }
}

/// An integer value of type `ty`, where `v` is one that an `i64` holds.
pub open spec fn int_result(v: int, ty: ConcreteModel) -> Result<ValueModel, EvalError> {
    if i64::MIN <= v <= i64::MAX {
        Ok(ValueModel { core: CoreModel::Int(v as i64), ty })
    } else {
        Err(EvalError::IntegerOverflow)
    }
}

/// The quotient of two integers, rounded towards zero.
pub open spec fn truncated_quotient(l: int, r: int) -> int {
    if l >= 0 && r > 0 {
        l / r
    } else if l >= 0 && r < 0 {
        -(l / (-r))
    } else if l < 0 && r > 0 {
        -((-l) / r)
    } else {
        (-l) / (-r)
    }
}

/// The sum of two integers; `IntegerOverflow` where an `i64` does not hold it.
pub struct IntAdd {}

impl ExternFunction for IntAdd {
    open spec fn requested(
        &self,
        args: Seq<ValueModel>,
        kind: NamedFunctionKind,
        ty: ConcreteModel,
        cache: &Option<TypeDefIdCache>,
        answers: Seq<ValueModel>,
    ) -> Option<RequestModel> {
        None
    }

    fn request(
        &self,
        environment: &Environment,
        kind: &NamedFunctionKind,
        ty: &ConcreteType,
        cache: &Option<TypeDefIdCache>,
        answers: &Vec<Value>,
    ) -> (r: Option<DispatchRequest>) {
        None
    }

    open spec fn result(
        &self,
        args: Seq<ValueModel>,
        kind: NamedFunctionKind,
        ty: ConcreteModel,
        cache: &Option<TypeDefIdCache>,
        answers: Seq<ValueModel>,
    ) -> Result<ValueModel, EvalError> {
        match (int_arg(args, 0), int_arg(args, 1)) {
            (Some(l), Some(r)) => int_result(l + r, ty),
            _ => Err(EvalError::InvalidExternArguments),
        }
    }

    fn call(
        &self,
        environment: &Environment,
        current_expr: Option<ExprId>,
        kind: &NamedFunctionKind,
        ty: ConcreteType,
        cache: &Option<TypeDefIdCache>,
        answers: &Vec<Value>,
    ) -> (r: Result<Value, EvalError>) {
        match (get_int_arg(environment, 0), get_int_arg(environment, 1)) {
            (Some(l), Some(r)) => match l.checked_add(r) {
                Some(v) => Ok(Value { core: ValueCore::Int(v), ty }),
                None => Err(EvalError::IntegerOverflow),
            },
            _ => Err(EvalError::InvalidExternArguments),
        }
    }
}

/// The difference of two integers; `IntegerOverflow` where an `i64` does not
/// hold it.
pub struct IntSub {}

impl ExternFunction for IntSub {
    open spec fn requested(
        &self,
        args: Seq<ValueModel>,
        kind: NamedFunctionKind,
        ty: ConcreteModel,
        cache: &Option<TypeDefIdCache>,
        answers: Seq<ValueModel>,
    ) -> Option<RequestModel> {
        None
    }

    fn request(
        &self,
        environment: &Environment,
        kind: &NamedFunctionKind,
        ty: &ConcreteType,
        cache: &Option<TypeDefIdCache>,
        answers: &Vec<Value>,
    ) -> (r: Option<DispatchRequest>) {
        None
    }

    open spec fn result(
        &self,
        args: Seq<ValueModel>,
        kind: NamedFunctionKind,
        ty: ConcreteModel,
        cache: &Option<TypeDefIdCache>,
        answers: Seq<ValueModel>,
    ) -> Result<ValueModel, EvalError> {
        match (int_arg(args, 0), int_arg(args, 1)) {
            (Some(l), Some(r)) => int_result(l - r, ty),
            _ => Err(EvalError::InvalidExternArguments),
        }
    }

    fn call(
        &self,
        environment: &Environment,
        current_expr: Option<ExprId>,
        kind: &NamedFunctionKind,
        ty: ConcreteType,
        cache: &Option<TypeDefIdCache>,
        answers: &Vec<Value>,
    ) -> (r: Result<Value, EvalError>) {
        match (get_int_arg(environment, 0), get_int_arg(environment, 1)) {
            (Some(l), Some(r)) => match l.checked_sub(r) {
                Some(v) => Ok(Value { core: ValueCore::Int(v), ty }),
                None => Err(EvalError::IntegerOverflow),
            },
            _ => Err(EvalError::InvalidExternArguments),
        }
    }
}

/// The product of two integers; `IntegerOverflow` where an `i64` does not
/// hold it.
pub struct IntMul {}

impl ExternFunction for IntMul {
    open spec fn requested(
        &self,
        args: Seq<ValueModel>,
        kind: NamedFunctionKind,
        ty: ConcreteModel,
        cache: &Option<TypeDefIdCache>,
        answers: Seq<ValueModel>,
    ) -> Option<RequestModel> {
        None
    }

    fn request(
        &self,
        environment: &Environment,
        kind: &NamedFunctionKind,
        ty: &ConcreteType,
        cache: &Option<TypeDefIdCache>,
        answers: &Vec<Value>,
    ) -> (r: Option<DispatchRequest>) {
        None
    }

    open spec fn result(
        &self,
        args: Seq<ValueModel>,
        kind: NamedFunctionKind,
        ty: ConcreteModel,
        cache: &Option<TypeDefIdCache>,
        answers: Seq<ValueModel>,
    ) -> Result<ValueModel, EvalError> {
        match (int_arg(args, 0), int_arg(args, 1)) {
            (Some(l), Some(r)) => int_result(l * r, ty),
            _ => Err(EvalError::InvalidExternArguments),
        }
    }

    fn call(
        &self,
        environment: &Environment,
        current_expr: Option<ExprId>,
        kind: &NamedFunctionKind,
        ty: ConcreteType,
        cache: &Option<TypeDefIdCache>,
        answers: &Vec<Value>,
    ) -> (r: Result<Value, EvalError>) {
        match (get_int_arg(environment, 0), get_int_arg(environment, 1)) {
            (Some(l), Some(r)) => match l.checked_mul(r) {
                Some(v) => Ok(Value { core: ValueCore::Int(v), ty }),
                None => Err(EvalError::IntegerOverflow),
            },
            _ => Err(EvalError::InvalidExternArguments),
        }
    }
}

/// The quotient of two integers, rounded towards zero; `DivisionByZero`
/// where the divisor is zero, `IntegerOverflow` where an `i64` does not hold
/// the quotient.
pub struct IntDiv {}

impl ExternFunction for IntDiv {
    open spec fn requested(
        &self,
        args: Seq<ValueModel>,
        kind: NamedFunctionKind,
        ty: ConcreteModel,
        cache: &Option<TypeDefIdCache>,
        answers: Seq<ValueModel>,
    ) -> Option<RequestModel> {
        None
    }

    fn request(
        &self,
        environment: &Environment,
        kind: &NamedFunctionKind,
        ty: &ConcreteType,
        cache: &Option<TypeDefIdCache>,
        answers: &Vec<Value>,
    ) -> (r: Option<DispatchRequest>) {
        None
    }

    open spec fn result(
        &self,
        args: Seq<ValueModel>,
        kind: NamedFunctionKind,
        ty: ConcreteModel,
        cache: &Option<TypeDefIdCache>,
        answers: Seq<ValueModel>,
    ) -> Result<ValueModel, EvalError> {
        match (int_arg(args, 0), int_arg(args, 1)) {
            (Some(l), Some(r)) => if r == 0 {
                Err(EvalError::DivisionByZero)
            } else {
                int_result(truncated_quotient(l as int, r as int), ty)
            },
            _ => Err(EvalError::InvalidExternArguments),
        }
    }

    fn call(
        &self,
        environment: &Environment,
        current_expr: Option<ExprId>,
        kind: &NamedFunctionKind,
        ty: ConcreteType,
        cache: &Option<TypeDefIdCache>,
        answers: &Vec<Value>,
    ) -> (r: Result<Value, EvalError>) {
        match (get_int_arg(environment, 0), get_int_arg(environment, 1)) {
            (Some(l), Some(r)) => {
                if r == 0 {
                    Err(EvalError::DivisionByZero)
                } else if l == i64::MIN && r == -1 {
                    assert(truncated_quotient(l as int, r as int) == 0x8000_0000_0000_0000int);
                    Err(EvalError::IntegerOverflow)
                } else {
                    let l_size: i128 = if l < 0 {
                        -(l as i128)
                    } else {
                        l as i128
                    };
                    let r_size: i128 = if r < 0 {
                        -(r as i128)
                    } else {
                        r as i128
                    };
                    let q_size: i128 = l_size / r_size;
                    assert(0 <= q_size <= l_size) by (nonlinear_arith)
                        requires
                            l_size >= 0,
                            r_size >= 1,
                            q_size == l_size / r_size,
                    ;
                    if l == i64::MIN && r < -1 {
                        assert(q_size < l_size) by (nonlinear_arith)
                            requires
                                l_size > 0,
                                r_size >= 2,
                                q_size == l_size / r_size,
                        ;
                    }
                    let q: i128 = if (l < 0) != (r < 0) {
                        -q_size
                    } else {
                        q_size
                    };
                    assert(q == truncated_quotient(l as int, r as int));
                    assert(i64::MIN <= q <= i64::MAX);
                    Ok(Value { core: ValueCore::Int(q as i64), ty })
                }
            },
            _ => Err(EvalError::InvalidExternArguments),
        }
    }
}

/// Whether two integers are equal, as a boolean of the expected type.
pub struct IntPartialEq {}

impl ExternFunction for IntPartialEq {
    open spec fn requested(
        &self,
        args: Seq<ValueModel>,
        kind: NamedFunctionKind,
        ty: ConcreteModel,
        cache: &Option<TypeDefIdCache>,
        answers: Seq<ValueModel>,
    ) -> Option<RequestModel> {
        None
    }

    fn request(
        &self,
        environment: &Environment,
        kind: &NamedFunctionKind,
        ty: &ConcreteType,
        cache: &Option<TypeDefIdCache>,
        answers: &Vec<Value>,
    ) -> (r: Option<DispatchRequest>) {
        None
    }

    open spec fn result(
        &self,
        args: Seq<ValueModel>,
        kind: NamedFunctionKind,
        ty: ConcreteModel,
        cache: &Option<TypeDefIdCache>,
        answers: Seq<ValueModel>,
    ) -> Result<ValueModel, EvalError> {
        match (int_arg(args, 0), int_arg(args, 1)) {
            (Some(l), Some(r)) => Ok(ValueModel { core: CoreModel::Bool(l == r), ty }),
            _ => Err(EvalError::InvalidExternArguments),
        }
    }

    fn call(
        &self,
        environment: &Environment,
        current_expr: Option<ExprId>,
        kind: &NamedFunctionKind,
        ty: ConcreteType,
        cache: &Option<TypeDefIdCache>,
        answers: &Vec<Value>,
    ) -> (r: Result<Value, EvalError>) {
        match (get_int_arg(environment, 0), get_int_arg(environment, 1)) {
            (Some(l), Some(r)) => Ok(Value { core: ValueCore::Bool(l == r), ty }),
            _ => Err(EvalError::InvalidExternArguments),
        }
    }
}

/// How a first integer stands to a second.
#[derive(Debug, Clone, Copy, PartialEq, Eq, Structural)]
pub enum Relation {
    Less,
    Equal,
    Greater,
}

/// How `l` stands to `r`.
pub open spec fn relation_of(l: int, r: int) -> Relation {
    if l < r {
        Relation::Less
    } else if l == r {
        Relation::Equal
    } else {
        Relation::Greater
    }
}

/// The name of the variant of the built-in ordering type that stands for a
/// relation.
pub open spec fn relation_name(relation: Relation) -> Seq<char> {
    match relation {
        Relation::Less => "Less"@,
        Relation::Equal => "Equal"@,
        Relation::Greater => "Greater"@,
    }
}

/// The value of the built-in ordering type that stands for `relation`, at
/// type `ty`.
pub open spec fn relation_value(cache: &Option<TypeDefIdCache>, relation: Relation, ty: ConcreteModel) -> Result<
    ValueModel,
    EvalError,
> {
    match cache {
        Some(c) => match variant_index(c.ordering_variants.variants@, relation_name(relation)) {
            Some(index) => Ok(
                ValueModel { core: CoreModel::Variant(c.ordering_id, index, Seq::empty()), ty },
            ),
            None => Err(EvalError::MissingBuiltin),
        },
        None => Err(EvalError::MissingBuiltin),
    }
}

/// The value `Some(relation)` of the built-in option type, at type `ty`,
/// which must be a named type with one argument: the type of the relation.
pub open spec fn some_relation_value(
    cache: &Option<TypeDefIdCache>,
    relation: Relation,
    ty: ConcreteModel,
) -> Result<ValueModel, EvalError> {
    match (cache, ty) {
        (Some(c), ConcreteModel::Named(_, _, type_args)) => if type_args.len() == 1 {
            match (
                variant_index(c.option_variants.variants@, "Some"@),
                relation_value(cache, relation, type_args[0]),
            ) {
                (Some(index), Ok(inner)) => Ok(
                    ValueModel { core: CoreModel::Variant(c.option_id, index, seq![inner]), ty },
                ),
                _ => Err(EvalError::MissingBuiltin),
            }
        } else {
            Err(EvalError::InvalidExternArguments)
        },
        (Some(_), _) => Err(EvalError::InvalidExternArguments),
        (None, _) => Err(EvalError::MissingBuiltin),
    }
}

/// How `l` stands to `r`.
fn relate(l: i64, r: i64) -> (relation: Relation)
    ensures
        relation == relation_of(l as int, r as int),
{
    if l < r {
        Relation::Less
    } else if l == r {
        Relation::Equal
    } else {
        Relation::Greater
    }
}

/// The value of the built-in ordering type that stands for `relation`.
pub fn get_ordering_value(cache: &Option<TypeDefIdCache>, relation: Relation, ty: ConcreteType) -> (r:
    Result<Value, EvalError>)
    ensures
        match r {
            Ok(v) => relation_value(cache, relation, ty@) == Ok::<ValueModel, EvalError>(v@),
            Err(e) => relation_value(cache, relation, ty@) == Err::<ValueModel, EvalError>(e),
        },
{
    match cache {
        Some(c) => {
            let name = match relation {
                Relation::Less => "Less",
                Relation::Equal => "Equal",
                Relation::Greater => "Greater",
            };
            match c.ordering_variants.find_index(name) {
                Some(index) => {
                    let items: Vec<Value> = Vec::new();
                    assert(value_models(items@) =~= Seq::<ValueModel>::empty());
                    Ok(Value { core: ValueCore::Variant(c.ordering_id, index, items), ty })
                },
                None => Err(EvalError::MissingBuiltin),
            }
        },
        None => Err(EvalError::MissingBuiltin),
    }
}

/// The value `Some(relation)` of the built-in option type.
pub fn get_opt_ordering_value(cache: &Option<TypeDefIdCache>, relation: Relation, ty: ConcreteType) -> (r:
    Result<Value, EvalError>)
    ensures
        match r {
            Ok(v) => some_relation_value(cache, relation, ty@) == Ok::<ValueModel, EvalError>(v@),
            Err(e) => some_relation_value(cache, relation, ty@) == Err::<ValueModel, EvalError>(e),
        },
{
    match cache {
        Some(c) => {
            let inner_ty = match &ty {
                ConcreteType::Named(_, _, type_args) => {
                    assert(ty@ matches ConcreteModel::Named(_, _, ms) ==> ms == concrete_models(
                        type_args@,
                    ));
                    if type_args.len() == 1 {
                        type_args[0].copy()
                    } else {
                        return Err(EvalError::InvalidExternArguments);
                    }
                },
                _ => {
                    return Err(EvalError::InvalidExternArguments);
                },
            };
            let some_index = c.option_variants.find_index("Some");
            let inner = get_ordering_value(cache, relation, inner_ty);
            match (some_index, inner) {
                (Some(index), Ok(inner)) => {
                    let mut items: Vec<Value> = Vec::new();
                    items.push(inner);
                    assert(value_models(items@) =~= seq![inner@]);
                    Ok(Value { core: ValueCore::Variant(c.option_id, index, items), ty })
                },
                _ => Err(EvalError::MissingBuiltin),
            }
        },
        None => Err(EvalError::MissingBuiltin),
    }
}

/// How a first integer stands to a second, as `Some` of a value of the
/// built-in ordering type.
pub struct IntPartialOrd {}

impl ExternFunction for IntPartialOrd {
    open spec fn requested(
        &self,
        args: Seq<ValueModel>,
        kind: NamedFunctionKind,
        ty: ConcreteModel,
        cache: &Option<TypeDefIdCache>,
        answers: Seq<ValueModel>,
    ) -> Option<RequestModel> {
        None
    }

    fn request(
        &self,
        environment: &Environment,
        kind: &NamedFunctionKind,
        ty: &ConcreteType,
        cache: &Option<TypeDefIdCache>,
        answers: &Vec<Value>,
    ) -> (r: Option<DispatchRequest>) {
        None
    }

    open spec fn result(
        &self,
        args: Seq<ValueModel>,
        kind: NamedFunctionKind,
        ty: ConcreteModel,
        cache: &Option<TypeDefIdCache>,
        answers: Seq<ValueModel>,
    ) -> Result<ValueModel, EvalError> {
        match (int_arg(args, 0), int_arg(args, 1)) {
            (Some(l), Some(r)) => some_relation_value(cache, relation_of(l as int, r as int), ty),
            _ => Err(EvalError::InvalidExternArguments),
        }
    }

    fn call(
        &self,
        environment: &Environment,
        current_expr: Option<ExprId>,
        kind: &NamedFunctionKind,
        ty: ConcreteType,
        cache: &Option<TypeDefIdCache>,
        answers: &Vec<Value>,
    ) -> (r: Result<Value, EvalError>) {
        match (get_int_arg(environment, 0), get_int_arg(environment, 1)) {
            (Some(l), Some(r)) => get_opt_ordering_value(cache, relate(l, r), ty),
            _ => Err(EvalError::InvalidExternArguments),
        }
    }
}

/// How a first integer stands to a second, as a value of the built-in
/// ordering type.
pub struct IntOrd {}

impl ExternFunction for IntOrd {
    open spec fn requested(
        &self,
        args: Seq<ValueModel>,
        kind: NamedFunctionKind,
        ty: ConcreteModel,
        cache: &Option<TypeDefIdCache>,
        answers: Seq<ValueModel>,
    ) -> Option<RequestModel> {
        None
    }

    fn request(
        &self,
        environment: &Environment,
        kind: &NamedFunctionKind,
        ty: &ConcreteType,
        cache: &Option<TypeDefIdCache>,
        answers: &Vec<Value>,
    ) -> (r: Option<DispatchRequest>) {
        None
    }

    open spec fn result(
        &self,
        args: Seq<ValueModel>,
        kind: NamedFunctionKind,
        ty: ConcreteModel,
        cache: &Option<TypeDefIdCache>,
        answers: Seq<ValueModel>,
    ) -> Result<ValueModel, EvalError> {
        match (int_arg(args, 0), int_arg(args, 1)) {
            (Some(l), Some(r)) => relation_value(cache, relation_of(l as int, r as int), ty),
            _ => Err(EvalError::InvalidExternArguments),
        }
    }

    fn call(
        &self,
        environment: &Environment,
        current_expr: Option<ExprId>,
        kind: &NamedFunctionKind,
        ty: ConcreteType,
        cache: &Option<TypeDefIdCache>,
        answers: &Vec<Value>,
    ) -> (r: Result<Value, EvalError>) {
        match (get_int_arg(environment, 0), get_int_arg(environment, 1)) {
            (Some(l), Some(r)) => get_ordering_value(cache, relate(l, r), ty),
            _ => Err(EvalError::InvalidExternArguments),
        }
    }
}

/// The decimal text of an integer.
pub struct IntShow {}

impl ExternFunction for IntShow {
    open spec fn requested(
        &self,
        args: Seq<ValueModel>,
        kind: NamedFunctionKind,
        ty: ConcreteModel,
        cache: &Option<TypeDefIdCache>,
        answers: Seq<ValueModel>,
    ) -> Option<RequestModel> {
        None
    }

    fn request(
        &self,
        environment: &Environment,
        kind: &NamedFunctionKind,
        ty: &ConcreteType,
        cache: &Option<TypeDefIdCache>,
        answers: &Vec<Value>,
    ) -> (r: Option<DispatchRequest>) {
        None
    }

    open spec fn result(
        &self,
        args: Seq<ValueModel>,
        kind: NamedFunctionKind,
        ty: ConcreteModel,
        cache: &Option<TypeDefIdCache>,
        answers: Seq<ValueModel>,
    ) -> Result<ValueModel, EvalError> {
        match int_arg(args, 0) {
            Some(v) => Ok(ValueModel { core: CoreModel::String(int_text(v as int)), ty }),
            None => Err(EvalError::InvalidExternArguments),
        }
    }

    fn call(
        &self,
        environment: &Environment,
        current_expr: Option<ExprId>,
        kind: &NamedFunctionKind,
        ty: ConcreteType,
        cache: &Option<TypeDefIdCache>,
        answers: &Vec<Value>,
    ) -> (r: Result<Value, EvalError>) {
        match get_int_arg(environment, 0) {
            Some(v) => Ok(Value { core: ValueCore::String(show_int(v)), ty }),
            None => Err(EvalError::InvalidExternArguments),
        }
    }
}

/// What the built-in `show` of integers makes of an integer is a string
/// of the expected type that reads back as the integer.
pub proof fn lemma_int_show_round_trip(
    args: Seq<ValueModel>,
    kind: NamedFunctionKind,
    ty: ConcreteModel,
    cache: &Option<TypeDefIdCache>,
    answers: Seq<ValueModel>,
    v: i64,
)
    requires
        int_arg(args, 0) == Some(v),
    ensures
        (IntShow {  }).result(args, kind, ty, cache, answers) matches Ok(shown) && shown.ty == ty && (
        shown.core matches CoreModel::String(text) && text_int(text) == Some(v as int)),
{
    lemma_int_text_round_trip(v as int);
}

/// Whether the member `show` of the class `Show`, called on `value`,
/// comes to the built-in `show` of integers: the call finds the member
/// `member_id`, a context for it, and through the instance at the selector
/// the function `function_id`, which takes one argument, has no body, and
/// is registered at `position` as the built-in `show` of integers.
pub open spec fn shown_by_builtin(
    interp: &Interpreter<IntExtern>,
    value: ValueModel,
    member_id: ClassMemberId,
    function_id: FunctionId,
    position: int,
) -> bool {
    &&& string_type(interp) is Some
    &&& class_member_named(interp, SHOW_CLASS_NAME@, SHOW_MEMBER_NAME@) == Some(member_id)
    &&& interp.program.class_members.contains(member_id.id)
    &&& interp.program.class_member_types.contains(member_id.id)
    &&& {
        let member_ty = interp.program.class_member_types.item(member_id.id).0@;
        let class_arg_ty = interp.program.class_member_types.item(member_id.id).1@;
        match callee_context(member_ty, seq![value], string_type(interp).unwrap()) {
            Some(ctx) => match (class_arg_ty.concretize(ctx), member_ty.concretize(ctx)) {
                (Some(selector), Some(_)) => member_function(interp, member_id, selector) == Ok::<
                    FunctionId,
                    EvalError,
                >(function_id),
                _ => false,
            },
            None => false,
        }
    }
    &&& interp.program.functions.contains(function_id.id)
    &&& interp.program.functions.item(function_id.id).arity() == 1
    &&& interp.program.functions.item(function_id.id).implicit_arg_count == 0
    &&& interp.program.functions.item(function_id.id).info matches FunctionInfo::NamedFunction(info)
        && info.body is None && extern_position(interp.extern_functions@, info.module@, info.name@)
        == Some(position)
    &&& 0 <= position < interp.extern_functions@.len()
    &&& interp.extern_functions@[position].function is Show
}

/// The round trip at the evaluator: where `show` of an integer comes to
/// the built-in `show` of integers, what the evaluator makes of it is the
/// decimal text of the integer, which reads back as the integer.
pub proof fn lemma_show_of_integer_round_trip(
    interp: &Interpreter<IntExtern>,
    value: ValueModel,
    v: i64,
    member_id: ClassMemberId,
    function_id: FunctionId,
    position: int,
    depth: nat,
)
    requires
        value.core == CoreModel::Int(v),
        depth > 0,
        shown_by_builtin(interp, value, member_id, function_id, position),
    ensures
        call_show(interp, value, depth) == Ok::<Seq<char>, EvalError>(int_text(v as int)),
        text_int(int_text(v as int)) == Some(v as int),
{
    lemma_int_text_round_trip(v as int);
    let string_ty = string_type(interp).unwrap();
    let member_ty = interp.program.class_member_types.item(member_id.id).0@;
    let class_arg_ty = interp.program.class_member_types.item(member_id.id).1@;
    let ctx = callee_context(member_ty, seq![value], string_ty).unwrap();
    let function_ty = member_ty.concretize(ctx).unwrap();
    let args = seq![value];
    let function = interp.program.functions.item(function_id.id);
    let callable = ValueModel {
        core: CoreModel::Callable(function_id, Seq::empty(), ctx),
        ty: function_ty,
    };
    let all = Seq::<ValueModel>::empty() + args;
    assert(all =~= args);
    assert(all.take(1) =~= args);
    let explicit = explicit_of(args, function.implicit_arg_count as nat);
    assert(explicit =~= args);
    assert(int_arg(explicit, 0) == Some(v));
    let result_ty = function_ty.strip(1);
    let shown = ValueModel { core: CoreModel::String(int_text(v as int)), ty: result_ty };
    assert(interp.extern_functions@[position].function.requested(
        explicit,
        function.info->NamedFunction_0.kind,
        result_ty,
        &interp.typedefid_cache,
        Seq::empty(),
    ) is None);
    assert(extern_result(
        interp,
        position,
        explicit,
        function.info->NamedFunction_0.kind,
        result_ty,
        Seq::empty(),
        depth,
        depth,
    ) == Ok::<ValueModel, EvalError>(shown));
    assert(execute(interp, function_id, args, ctx, result_ty, depth) == Ok::<ValueModel, EvalError>(
        shown,
    ));
    assert(call(interp, callable, args, depth) == Ok::<ValueModel, EvalError>(shown));
    assert(call_class_member(interp, member_id, args, string_ty, depth) == Ok::<
        ValueModel,
        EvalError,
    >(shown));
}

/// Any one of the built-in functions of integers.
pub enum IntExtern {
    Add(IntAdd),
    Sub(IntSub),
    Mul(IntMul),
    Div(IntDiv),
    PartialEq(IntPartialEq),
    PartialOrd(IntPartialOrd),
    Ord(IntOrd),
    Show(IntShow),
}

impl ExternFunction for IntExtern {
    open spec fn requested(
        &self,
        args: Seq<ValueModel>,
        kind: NamedFunctionKind,
        ty: ConcreteModel,
        cache: &Option<TypeDefIdCache>,
        answers: Seq<ValueModel>,
    ) -> Option<RequestModel> {
        None
    }

    fn request(
        &self,
        environment: &Environment,
        kind: &NamedFunctionKind,
        ty: &ConcreteType,
        cache: &Option<TypeDefIdCache>,
        answers: &Vec<Value>,
    ) -> (r: Option<DispatchRequest>) {
        None
    }

    open spec fn result(
        &self,
        args: Seq<ValueModel>,
        kind: NamedFunctionKind,
        ty: ConcreteModel,
        cache: &Option<TypeDefIdCache>,
        answers: Seq<ValueModel>,
    ) -> Result<ValueModel, EvalError> {
        match self {
            IntExtern::Add(f) => f.result(args, kind, ty, cache, answers),
            IntExtern::Sub(f) => f.result(args, kind, ty, cache, answers),
            IntExtern::Mul(f) => f.result(args, kind, ty, cache, answers),
            IntExtern::Div(f) => f.result(args, kind, ty, cache, answers),
            IntExtern::PartialEq(f) => f.result(args, kind, ty, cache, answers),
            IntExtern::PartialOrd(f) => f.result(args, kind, ty, cache, answers),
            IntExtern::Ord(f) => f.result(args, kind, ty, cache, answers),
            IntExtern::Show(f) => f.result(args, kind, ty, cache, answers),
        }
    }

    fn call(
        &self,
        environment: &Environment,
        current_expr: Option<ExprId>,
        kind: &NamedFunctionKind,
        ty: ConcreteType,
        cache: &Option<TypeDefIdCache>,
        answers: &Vec<Value>,
    ) -> (r: Result<Value, EvalError>) {
        match self {
            IntExtern::Add(f) => f.call(environment, current_expr, kind, ty, cache, answers),
            IntExtern::Sub(f) => f.call(environment, current_expr, kind, ty, cache, answers),
            IntExtern::Mul(f) => f.call(environment, current_expr, kind, ty, cache, answers),
            IntExtern::Div(f) => f.call(environment, current_expr, kind, ty, cache, answers),
            IntExtern::PartialEq(f) => f.call(environment, current_expr, kind, ty, cache, answers),
            IntExtern::PartialOrd(f) => f.call(environment, current_expr, kind, ty, cache, answers),
            IntExtern::Ord(f) => f.call(environment, current_expr, kind, ty, cache, answers),
            IntExtern::Show(f) => f.call(environment, current_expr, kind, ty, cache, answers),
        }
    }
}

/// Whether a registry holds, from position `n` on and to its end, the
/// eight built-in functions of integers, each under the integer module and
/// its name: addition, subtraction, multiplication, division, equality,
/// the two comparisons and the text.
pub open spec fn int_externs_at(fs: Seq<ExternEntry<IntExtern>>, n: int) -> bool {
    &&& fs.len() == n + 8
    &&& forall|k: int| n <= k < n + 8 ==> (#[trigger] fs[k]).module@ == INT_MODULE_NAME@
    &&& fs[n].name@ == "opAdd"@ && fs[n].function is Add
    &&& fs[n + 1].name@ == "opSub"@ && fs[n + 1].function is Sub
    &&& fs[n + 2].name@ == "opMul"@ && fs[n + 2].function is Mul
    &&& fs[n + 3].name@ == "opDiv"@ && fs[n + 3].function is Div
    &&& fs[n + 4].name@ == "opEq"@ && fs[n + 4].function is PartialEq
    &&& fs[n + 5].name@ == "partialCmp"@ && fs[n + 5].function is PartialOrd
    &&& fs[n + 6].name@ == "cmp"@ && fs[n + 6].function is Ord
    &&& fs[n + 7].name@ == "show"@ && fs[n + 7].function is Show
}

/// Registers the built-in functions of integers, each under the integer
/// module and its name, behind what is registered.
pub fn register_extern_functions(interpreter: &mut Interpreter<IntExtern>)
    ensures
        final(interpreter).program == old(interpreter).program,
        final(interpreter).typedefid_cache == old(interpreter).typedefid_cache,
        final(interpreter).depth_limit == old(interpreter).depth_limit,
        final(interpreter).extern_functions@.take(old(interpreter).extern_functions@.len() as int)
            == old(interpreter).extern_functions@,
        int_externs_at(
            final(interpreter).extern_functions@,
            old(interpreter).extern_functions@.len() as int,
        ),
{
    let ghost before = interpreter.extern_functions@;
    interpreter.add_extern_function(INT_MODULE_NAME, "opAdd", IntExtern::Add(IntAdd {  }));
    interpreter.add_extern_function(INT_MODULE_NAME, "opSub", IntExtern::Sub(IntSub {  }));
    interpreter.add_extern_function(INT_MODULE_NAME, "opMul", IntExtern::Mul(IntMul {  }));
    interpreter.add_extern_function(INT_MODULE_NAME, "opDiv", IntExtern::Div(IntDiv {  }));
    interpreter.add_extern_function(INT_MODULE_NAME, "opEq", IntExtern::PartialEq(IntPartialEq {  }));
    interpreter.add_extern_function(
        INT_MODULE_NAME,
        "partialCmp",
        IntExtern::PartialOrd(IntPartialOrd {  }),
    );
    interpreter.add_extern_function(INT_MODULE_NAME, "cmp", IntExtern::Ord(IntOrd {  }));
    interpreter.add_extern_function(INT_MODULE_NAME, "show", IntExtern::Show(IntShow {  }));
    assert(interpreter.extern_functions@.take(before.len() as int) =~= before);
}

/// A program that has the function `main` of module `Main` at or behind
/// position `from` is one in which the interpreter finds it there.
pub proof fn lemma_main_is_found<F: ExternFunction>(interp: &Interpreter<F>, from: int)
    requires
        has_main(interp.program.declarations(), from),
    ensures
        function_named(interp, MAIN_MODULE@, MAIN_FUNCTION@, from) is Some,
    decreases interp.program.functions.allocated() - from,
{
    if 0 <= from < interp.program.functions.allocated() {
        if !(interp.program.functions.contains(from as usize) && (interp.program.functions.item(
            from as usize,
        ).info matches FunctionInfo::NamedFunction(info) && info.module@ == MAIN_MODULE@
            && info.name@ == MAIN_FUNCTION@)) {
            lemma_main_is_found(interp, from + 1);
        }
    }
}

impl Interpreter<IntExtern> {
    /// Runs a program with the built-in functions of integers: one execution
    /// of the function `main` of module `Main`, which the program must have,
    /// without arguments and at the type of the empty tuple. An evaluation
    /// may nest `depth_limit` deep. The interpreter that is returned holds
    /// the eight built-in functions of integers and nothing else, and what
    /// the program has of the built-in option and ordering types.
    pub fn run(program: Program, depth_limit: usize) -> (r: (Interpreter<IntExtern>, Result<
        Value,
        EvalError,
    >))
        requires
            has_main(program.declarations(), 0),
        ensures
            r.0.program == program,
            r.0.depth_limit == depth_limit,
            int_externs_at(r.0.extern_functions@, 0),
            typedef_cache_of(&program, r.0.typedefid_cache),
            function_named(&r.0, MAIN_MODULE@, MAIN_FUNCTION@, 0) is Some,
            crate::interpreter::interpreter::value_result(
                r.1,
                crate::interpreter::semantics::run_main(&r.0),
            ),
    {
        let mut interpreter: Interpreter<IntExtern> = Interpreter::new(program, depth_limit);
        register_extern_functions(&mut interpreter);
        interpreter.build_typedefid_cache();
        proof {
            lemma_main_is_found(&interpreter, 0);
        }
        let result = interpreter.execute_main();
        (interpreter, result)
    }
}

} // verus!
