//! What an evaluation yields, stated over the models of values and
//! environments. Every function here takes the depth to which the evaluation
//! may still nest; an evaluation that would nest deeper ends in
//! `DepthLimitExceeded`.

use crate::constants::SHOW_CLASS_NAME;
use crate::constants::SHOW_MEMBER_NAME;
use crate::constants::STRING_MODULE_NAME;
use crate::constants::STRING_TYPE_NAME;
use crate::interpreter::environment::explicit_of;
use crate::interpreter::environment::EnvModel;
use crate::interpreter::error::EvalError;
use crate::interpreter::extern_function::extern_position;
use crate::interpreter::extern_function::ExternFunction;
use crate::interpreter::interpreter::Interpreter;
use crate::interpreter::value::float_bits_equal;
use crate::interpreter::value::CoreModel;
use crate::interpreter::value::ValueModel;
use crate::ir::class::member_named;
use crate::ir::class::ClassMemberId;
use crate::ir::concrete::match_generic_items;
use crate::ir::concrete::ConcreteModel;
use crate::ir::data::TypeDef;
use crate::ir::expr::Case;
use crate::ir::expr::Expr;
use crate::ir::expr::ExprId;
use crate::ir::expr::FieldAccessInfo;
use crate::ir::expr::RecordFieldValueExpr;
use crate::ir::expr::RecordUpdateInfo;
use crate::ir::function::FunctionId;
use crate::ir::function::FunctionInfo;
use crate::ir::pattern::Pattern;
use crate::ir::pattern::PatternId;
use crate::ir::program::class_named;
use crate::ir::program::named_type_of;
use crate::ir::types::TypeModel;
use vstd::prelude::*;

verus! {

/// The empty tuple, at type `ty`.
pub open spec fn unit_value(ty: ConcreteModel) -> ValueModel {
    ValueModel { core: CoreModel::Tuple(Seq::empty()), ty }
}

/// The types of the first `count` arguments of a curried function type, and
/// what is left behind them. A type that runs out of arrows early gives fewer.
pub open spec fn func_arg_types(ty: TypeModel, count: nat) -> (Seq<TypeModel>, TypeModel)
    decreases count,
{
    if count == 0 {
        (Seq::empty(), ty)
    } else {
        match ty {
            TypeModel::Function(from, to) => {
                let (rest, ret) = func_arg_types(*to, (count - 1) as nat);
                (seq![*from] + rest, ret)
            },
            _ => (Seq::empty(), ty),
        }
    }
}

/// The concrete types of a list of values.
pub open spec fn value_types(values: Seq<ValueModel>) -> Seq<ConcreteModel> {
    Seq::new(values.len(), |i: int| values[i].ty)
}

/// The argument types that have an argument: all of them, or as many from
/// the first on as there are arguments.
pub open spec fn paired_types(arg_types: Seq<TypeModel>, args: Seq<ValueModel>) -> Seq<TypeModel> {
    if arg_types.len() > args.len() {
        arg_types.take(args.len() as int)
    } else {
        arg_types
    }
}

/// The substitution context of a call: what the variables of the callee's
/// argument types and result type stand for, given the arguments passed and
/// the concrete type expected of the result. The argument types are paired
/// off with the arguments as far as the arguments go. Each variable must
/// stand for one concrete type at all its occurrences.
pub open spec fn substitution_context(
    arg_types: Seq<TypeModel>,
    args: Seq<ValueModel>,
    ret_type: TypeModel,
    expected: ConcreteModel,
) -> Option<Map<usize, ConcreteModel>> {
    match match_generic_items(paired_types(arg_types, args), value_types(args), 0, Map::empty()) {
        Some(m) => ret_type.match_generic(expected, m),
        None => None,
    }
}

/// The callee's context at a call of a function of schematic type `ty` on
/// `args`, where a result of type `expected` is wanted.
pub open spec fn callee_context(ty: TypeModel, args: Seq<ValueModel>, expected: ConcreteModel) -> Option<
    Map<usize, ConcreteModel>,
> {
    let (arg_types, ret_type) = func_arg_types(ty, args.len());
    substitution_context(arg_types, args, ret_type, expected)
}

/// The pieces of a format string between its `{}` markers, from `position`
/// on, the current piece having begun at `start`.
pub open spec fn format_pieces(fmt: Seq<char>, start: int, position: int) -> Seq<Seq<char>>
    decreases fmt.len() - position,
{
    if position < 0 || start < 0 || start > position {
        Seq::empty()
    } else if position + 1 < fmt.len() && fmt[position] == '{' && fmt[position + 1] == '}' {
        seq![fmt.subrange(start, position)] + format_pieces(fmt, position + 2, position + 2)
    } else if position >= fmt.len() {
        seq![fmt.subrange(start, fmt.len() as int)]
    } else {
        format_pieces(fmt, start, position + 1)
    }
}

/// The concrete type of strings in the program.
pub open spec fn string_type<F: ExternFunction>(interp: &Interpreter<F>) -> Option<ConcreteModel> {
    match named_type_of(interp.program.named_types@, STRING_MODULE_NAME@, STRING_TYPE_NAME@) {
        Some(id) => Some(ConcreteModel::Named(STRING_TYPE_NAME@, id, Seq::empty())),
        None => None,
    }
}

/// The member called `member_name` of the class called `class_name`.
pub open spec fn class_member_named<F: ExternFunction>(
    interp: &Interpreter<F>,
    class_name: Seq<char>,
    member_name: Seq<char>,
) -> Option<ClassMemberId> {
    match class_named(interp.program.class_names@, class_name) {
        Some(class_id) => if interp.program.classes.contains(class_id.id) {
            member_named(interp.program.classes.item(class_id.id).members@, member_name)
        } else {
            None
        },
        None => None,
    }
}

/// The value of an expression, and the environment it leaves. The value
/// has the concrete type that the context makes of the type attached to
/// the expression; the value of a format is a string whatever type is
/// attached to it.
pub open spec fn eval_expr<F: ExternFunction>(
    interp: &Interpreter<F>,
    expr_id: ExprId,
    env: EnvModel,
    ctx: Map<usize, ConcreteModel>,
    depth: nat,
) -> Result<(ValueModel, EnvModel), EvalError>
    decreases depth, 3nat, 0nat,
{
    if depth == 0 {
        Err(EvalError::DepthLimitExceeded)
    } else if !interp.program.exprs.contains(expr_id.id) {
        Err(EvalError::MissingExpr(expr_id))
    } else if interp.program.exprs.item(expr_id.id).item is Formatter {
        match string_type(interp) {
            None => Err(EvalError::MissingBuiltin),
            Some(ty) => eval_typed_expr(interp, expr_id, ty, env, ctx, depth),
        }
    } else if !interp.program.expr_types.contains(expr_id.id) {
        Err(EvalError::UntypedExpr(expr_id))
    } else {
        match interp.program.expr_types.item(expr_id.id)@.concretize(ctx) {
            None => Err(EvalError::UnboundTypeVariable(expr_id)),
            Some(ty) => eval_typed_expr(interp, expr_id, ty, env, ctx, depth),
        }
    }
}

/// The value of an expression whose concrete type is `ty`.
pub open spec fn eval_typed_expr<F: ExternFunction>(
    interp: &Interpreter<F>,
    expr_id: ExprId,
    ty: ConcreteModel,
    env: EnvModel,
    ctx: Map<usize, ConcreteModel>,
    depth: nat,
) -> Result<(ValueModel, EnvModel), EvalError>
    decreases depth, 2nat, 0nat,
{
    let inner = (depth - 1) as nat;
    if depth == 0 || !interp.program.exprs.contains(expr_id.id) {
        Err(EvalError::DepthLimitExceeded)
    } else {
        match interp.program.exprs.item(expr_id.id).item {
            Expr::IntegerLiteral(v) => Ok((ValueModel { core: CoreModel::Int(v), ty }, env)),
            Expr::FloatLiteral(v) => Ok((ValueModel { core: CoreModel::Float(v), ty }, env)),
            Expr::BoolLiteral(v) => Ok((ValueModel { core: CoreModel::Bool(v), ty }, env)),
            Expr::StringLiteral(v) => Ok((ValueModel { core: CoreModel::String(v@), ty }, env)),
            Expr::ArgRef(arg_ref) => if env.arg_position(arg_ref) < env.args.len() {
                Ok((env.args[env.arg_position(arg_ref) as int], env))
            } else {
                Err(EvalError::MissingArgument(expr_id))
            },
            Expr::StaticFunctionCall(function_id, args) => {
                if !interp.program.function_types.contains(function_id.id) {
                    Err(EvalError::UntypedFunction(function_id))
                } else {
                    let func_ty = interp.program.function_types.item(function_id.id)@;
                    match eval_exprs(interp, args@, 0, Seq::empty(), env, ctx, inner) {
                        Err(e) => Err(e),
                        Ok((values, env1)) => match callee_context(func_ty, values, ty) {
                            None => Err(EvalError::InvalidCallTypes),
                            Some(callee_ctx) => match func_ty.concretize(callee_ctx) {
                                None => Err(EvalError::InvalidCallTypes),
                                Some(concrete_ty) => {
                                    let callable = ValueModel {
                                        core: CoreModel::Callable(
                                            function_id,
                                            Seq::empty(),
                                            callee_ctx,
                                        ),
                                        ty: concrete_ty,
                                    };
                                    match call(interp, callable, values, inner) {
                                        Err(e) => Err(e),
                                        Ok(v) => Ok((v, env1)),
                                    }
                                },
                            },
                        },
                    }
                }
            },
            Expr::DynamicFunctionCall(function_expr, args) => match eval_expr(
                interp,
                function_expr,
                env,
                ctx,
                inner,
            ) {
                Err(e) => Err(e),
                Ok((callable, env1)) => match eval_exprs(interp, args@, 0, Seq::empty(), env1, ctx, inner) {
                    Err(e) => Err(e),
                    Ok((values, env2)) => match call(interp, callable, values, inner) {
                        Err(e) => Err(e),
                        Ok(v) => Ok((v, env2)),
                    },
                },
            },
            Expr::ClassFunctionCall(member_id, args) => match eval_exprs(
                interp,
                args@,
                0,
                Seq::empty(),
                env,
                ctx,
                inner,
            ) {
                Err(e) => Err(e),
                Ok((values, env1)) => match call_class_member(interp, member_id, values, ty, inner) {
                    Err(e) => Err(e),
                    Ok(v) => Ok((v, env1)),
                },
            },
            Expr::Do(items) => match eval_do(interp, items@, 0, unit_value(ty), env, ctx, inner) {
                Err(e) => Err(e),
                Ok(v) => Ok((v, env)),
            },
            Expr::Bind(pattern_id, rhs) => match eval_expr(interp, rhs, env, ctx, inner) {
                Err(e) => Err(e),
                Ok((value, env1)) => match match_pattern(interp, pattern_id, value, env1, ctx, inner) {
                    Err(e) => Err(e),
                    Ok((matched, env2)) => if matched {
                        Ok((unit_value(ty), env2))
                    } else {
                        Err(EvalError::BindFailed(expr_id))
                    },
                },
            },
            Expr::ExprValue(_, pattern_id) => match env.lookup(pattern_id) {
                Some(v) => Ok((v, env)),
                None => Err(EvalError::UnboundPattern(pattern_id)),
            },
            Expr::If(cond, true_branch, false_branch) => match eval_expr(
                interp,
                cond,
                env,
                ctx,
                inner,
            ) {
                Err(e) => Err(e),
                Ok((cond_value, env1)) => match cond_value.core {
                    CoreModel::Bool(b) => if b {
                        eval_expr(interp, true_branch, env1, ctx, inner)
                    } else {
                        eval_expr(interp, false_branch, env1, ctx, inner)
                    },
                    _ => Err(EvalError::WrongShape(expr_id)),
                },
            },
            Expr::Tuple(items) => match eval_exprs(interp, items@, 0, Seq::empty(), env, ctx, inner) {
                Err(e) => Err(e),
                Ok((values, env1)) => Ok((ValueModel { core: CoreModel::Tuple(values), ty }, env1)),
            },
            Expr::List(items) => match eval_exprs(interp, items@, 0, Seq::empty(), env, ctx, inner) {
                Err(e) => Err(e),
                Ok((values, env1)) => Ok((ValueModel { core: CoreModel::List(values), ty }, env1)),
            },
            Expr::TupleFieldAccess(index, tuple) => match eval_expr(interp, tuple, env, ctx, inner) {
                Err(e) => Err(e),
                Ok((tuple_value, env1)) => match tuple_value.core {
                    CoreModel::Tuple(items) => if index < items.len() {
                        Ok((items[index as int], env1))
                    } else {
                        Err(EvalError::WrongShape(expr_id))
                    },
                    _ => Err(EvalError::WrongShape(expr_id)),
                },
            },
            Expr::FieldAccess(infos, record_expr) => match eval_expr(
                interp,
                record_expr,
                env,
                ctx,
                inner,
            ) {
                Err(e) => Err(e),
                Ok((record, env1)) => match record.core {
                    CoreModel::Record(id, items) => match field_of(infos@, id, 0) {
                        Some(index) => if index < items.len() {
                            Ok((items[index as int], env1))
                        } else {
                            Err(EvalError::WrongShape(expr_id))
                        },
                        None => Err(EvalError::WrongShape(expr_id)),
                    },
                    _ => Err(EvalError::WrongShape(expr_id)),
                },
            },
            Expr::CaseOf(body, cases) => match eval_expr(interp, body, env, ctx, inner) {
                Err(e) => Err(e),
                Ok((case_value, env1)) => match eval_cases(
                    interp,
                    expr_id,
                    cases@,
                    0,
                    case_value,
                    env1,
                    ctx,
                    inner,
                ) {
                    Err(e) => Err(e),
                    Ok(v) => Ok((v, env1)),
                },
            },
            Expr::Formatter(fmt, args) => match eval_exprs(interp, args@, 0, Seq::empty(), env, ctx, inner) {
                Err(e) => Err(e),
                Ok((values, env1)) => match format_values(
                    interp,
                    format_pieces(fmt@, 0, 0),
                    values,
                    0,
                    Seq::empty(),
                    inner,
                ) {
                    Err(e) => Err(e),
                    Ok(text) => Ok((ValueModel { core: CoreModel::String(text), ty }, env1)),
                },
            },
            Expr::RecordInitialization(type_id, items) => match eval_record_items(
                interp,
                expr_id,
                items@,
                0,
                Seq::new(
                    items@.len(),
                    |i: int| ValueModel { core: CoreModel::Bool(false), ty },
                ),
                env,
                ctx,
                inner,
            ) {
                Err(e) => Err(e),
                Ok((values, env1)) => Ok(
                    (ValueModel { core: CoreModel::Record(type_id, values), ty }, env1),
                ),
            },
            Expr::RecordUpdate(record_expr, updates) => match eval_expr(
                interp,
                record_expr,
                env,
                ctx,
                inner,
            ) {
                Err(e) => Err(e),
                Ok((record, env1)) => match record.core {
                    CoreModel::Record(id, values) => match update_of(updates@, id, 0) {
                        Some(position) => match eval_record_items(
                            interp,
                            expr_id,
                            updates@[position].items@,
                            0,
                            values,
                            env1,
                            ctx,
                            inner,
                        ) {
                            Err(e) => Err(e),
                            Ok((new_values, env2)) => Ok(
                                (
                                    ValueModel { core: CoreModel::Record(id, new_values), ty },
                                    env2,
                                ),
                            ),
                        },
                        None => Err(EvalError::WrongShape(expr_id)),
                    },
                    _ => Err(EvalError::WrongShape(expr_id)),
                },
            },
        }
    }
}

/// The position of the field in the first record of `infos`, from `from` on,
/// that is the record `id`.
pub open spec fn field_of(infos: Seq<FieldAccessInfo>, id: crate::ir::data::TypeDefId, from: int) -> Option<
    usize,
>
    decreases infos.len() - from,
{
    if from < 0 || from >= infos.len() {
        None
    } else if infos[from].record_id == id {
        Some(infos[from].index)
    } else {
        field_of(infos, id, from + 1)
    }
}

/// The position in `updates`, from `from` on, of the first update that is
/// for the record `id`.
pub open spec fn update_of(updates: Seq<RecordUpdateInfo>, id: crate::ir::data::TypeDefId, from: int) -> Option<
    int,
>
    decreases updates.len() - from,
{
    if from < 0 || from >= updates.len() {
        None
    } else if updates[from].record_id == id {
        Some(from)
    } else {
        update_of(updates, id, from + 1)
    }
}

/// The values of a list of expressions: `values`, then the values of the
/// expressions of `exprs` from position `from` on, evaluated left to right,
/// each in the environment that the one before it left.
pub open spec fn eval_exprs<F: ExternFunction>(
    interp: &Interpreter<F>,
    exprs: Seq<ExprId>,
    from: int,
    values: Seq<ValueModel>,
    env: EnvModel,
    ctx: Map<usize, ConcreteModel>,
    depth: nat,
) -> Result<(Seq<ValueModel>, EnvModel), EvalError>
    decreases depth, 4nat, exprs.len() - from,
{
    if from < 0 || from >= exprs.len() {
        Ok((values, env))
    } else {
        match eval_expr(interp, exprs[from], env, ctx, depth) {
            Err(e) => Err(e),
            Ok((v, env1)) => eval_exprs(interp, exprs, from + 1, values.push(v), env1, ctx, depth),
        }
    }
}

/// The value of a block from position `from` on: that of its last
/// expression, or `last` where none is left.
pub open spec fn eval_do<F: ExternFunction>(
    interp: &Interpreter<F>,
    items: Seq<ExprId>,
    from: int,
    last: ValueModel,
    env: EnvModel,
    ctx: Map<usize, ConcreteModel>,
    depth: nat,
) -> Result<ValueModel, EvalError>
    decreases depth, 4nat, items.len() - from,
{
    if from < 0 || from >= items.len() {
        Ok(last)
    } else {
        match eval_expr(interp, items[from], env, ctx, depth) {
            Err(e) => Err(e),
            Ok((v, env1)) => eval_do(interp, items, from + 1, v, env1, ctx, depth),
        }
    }
}

/// The value of a case expression from its case at position `from` on: the
/// body of the first case whose pattern matches, evaluated with what the
/// pattern bound.
pub open spec fn eval_cases<F: ExternFunction>(
    interp: &Interpreter<F>,
    expr_id: ExprId,
    cases: Seq<Case>,
    from: int,
    value: ValueModel,
    env: EnvModel,
    ctx: Map<usize, ConcreteModel>,
    depth: nat,
) -> Result<ValueModel, EvalError>
    decreases depth, 4nat, cases.len() - from,
{
    if from < 0 || from >= cases.len() {
        Err(EvalError::NoMatchingCase(expr_id))
    } else {
        match match_pattern(interp, cases[from].pattern_id, value, env, ctx, depth) {
            Err(e) => Err(e),
            Ok((matched, env1)) => if matched {
                match eval_expr(interp, cases[from].body, env1, ctx, depth) {
                    Err(e) => Err(e),
                    Ok((v, _)) => Ok(v),
                }
            } else {
                eval_cases(interp, expr_id, cases, from + 1, value, env, ctx, depth)
            },
        }
    }
}

/// The fields of a record after the items from position `from` on were
/// evaluated in order and each stored at its position.
pub open spec fn eval_record_items<F: ExternFunction>(
    interp: &Interpreter<F>,
    expr_id: ExprId,
    items: Seq<RecordFieldValueExpr>,
    from: int,
    values: Seq<ValueModel>,
    env: EnvModel,
    ctx: Map<usize, ConcreteModel>,
    depth: nat,
) -> Result<(Seq<ValueModel>, EnvModel), EvalError>
    decreases depth, 4nat, items.len() - from,
{
    if from < 0 || from >= items.len() {
        Ok((values, env))
    } else {
        match eval_expr(interp, items[from].expr_id, env, ctx, depth) {
            Err(e) => Err(e),
            Ok((v, env1)) => if items[from].index < values.len() {
                eval_record_items(
                    interp,
                    expr_id,
                    items,
                    from + 1,
                    values.update(items[from].index as int, v),
                    env1,
                    ctx,
                    depth,
                )
            } else {
                Err(EvalError::WrongShape(expr_id))
            },
        }
    }
}

/// The text of a format: `text`, then each piece from position `from` on,
/// each followed by what `show` makes of the value at its position, where
/// there is one.
pub open spec fn format_values<F: ExternFunction>(
    interp: &Interpreter<F>,
    pieces: Seq<Seq<char>>,
    values: Seq<ValueModel>,
    from: int,
    text: Seq<char>,
    depth: nat,
) -> Result<Seq<char>, EvalError>
    decreases depth, 9nat, pieces.len() - from,
{
    if from < 0 || from >= pieces.len() {
        Ok(text)
    } else if from < values.len() {
        match call_show(interp, values[from], depth) {
            Err(e) => Err(e),
            Ok(shown) => format_values(
                interp,
                pieces,
                values,
                from + 1,
                text + pieces[from] + shown,
                depth,
            ),
        }
    } else {
        format_values(interp, pieces, values, from + 1, text + pieces[from], depth)
    }
}

/// What the member `show` of the class `Show` makes of a value.
pub open spec fn call_show<F: ExternFunction>(interp: &Interpreter<F>, value: ValueModel, depth: nat) -> Result<
    Seq<char>,
    EvalError,
>
    decreases depth, 8nat, 0nat,
{
    match (string_type(interp), class_member_named(interp, SHOW_CLASS_NAME@, SHOW_MEMBER_NAME@)) {
        (Some(string_ty), Some(member_id)) => match call_class_member(
            interp,
            member_id,
            seq![value],
            string_ty,
            depth,
        ) {
            Err(e) => Err(e),
            Ok(v) => match v.core {
                CoreModel::String(text) => Ok(text),
                _ => Err(EvalError::MissingBuiltin),
            },
        },
        _ => Err(EvalError::MissingBuiltin),
    }
}

/// What calling `callable` on `args` yields. The arguments join those
/// collected before. Where the function needs more, the result is a callable
/// that holds them all, at the callable's type shortened by the arguments
/// passed. Otherwise the function runs on as many as it needs, and what it
/// returns is called on the rest, if any is left.
pub open spec fn call<F: ExternFunction>(interp: &Interpreter<F>, callable: ValueModel, args: Seq<ValueModel>, depth: nat) -> Result<
    ValueModel,
    EvalError,
>
    decreases depth, 6nat, 0nat,
{
    match callable.core {
        CoreModel::Callable(function_id, collected, sub_context) => {
            if !interp.program.functions.contains(function_id.id) {
                Err(EvalError::MissingFunction(function_id))
            } else {
                let all = collected + args;
                let needed = interp.program.functions.item(function_id.id).arity();
                if needed > all.len() {
                    Ok(
                        ValueModel {
                            core: CoreModel::Callable(function_id, all, sub_context),
                            ty: callable.ty.strip(args.len()),
                        },
                    )
                } else {
                    let supplied = if needed >= collected.len() {
                        (needed - collected.len()) as nat
                    } else {
                        0nat
                    };
                    let result_ty = callable.ty.strip(supplied);
                    match execute(
                        interp,
                        function_id,
                        all.take(needed as int),
                        sub_context,
                        result_ty,
                        depth,
                    ) {
                        Err(e) => Err(e),
                        Ok(result) => if all.len() == needed {
                            Ok(result)
                        } else if depth == 0 {
                            Err(EvalError::DepthLimitExceeded)
                        } else {
                            call(interp, result, all.skip(needed as int), (depth - 1) as nat)
                        },
                    }
                }
            }
        },
        _ => Err(EvalError::NotCallable),
    }
}

/// What a call of the built-in function at `position` of the registry
/// yields, given the answers to what it asked for so far. While the
/// built-in asks for a call of a class member, at most `rounds` times, the
/// call is made, one level deeper, and its value added to the answers; when
/// it asks for no more, its result with these answers is the value.
pub open spec fn extern_result<F: ExternFunction>(
    interp: &Interpreter<F>,
    position: int,
    args: Seq<ValueModel>,
    kind: crate::ir::function::NamedFunctionKind,
    expected: ConcreteModel,
    answers: Seq<ValueModel>,
    rounds: nat,
    depth: nat,
) -> Result<ValueModel, EvalError>
    decreases depth, 4nat, rounds,
{
    let function = interp.extern_functions@[position].function;
    match function.requested(args, kind, expected, &interp.typedefid_cache, answers) {
        None => function.result(args, kind, expected, &interp.typedefid_cache, answers),
        Some(request) => if rounds == 0 || depth == 0 {
            Err(EvalError::DepthLimitExceeded)
        } else {
            match class_member_named(interp, request.class_name, request.member_name) {
                None => Err(EvalError::MissingBuiltin),
                Some(member_id) => match call_class_member(
                    interp,
                    member_id,
                    request.args,
                    request.expected,
                    (depth - 1) as nat,
                ) {
                    Err(e) => Err(e),
                    Ok(answer) => extern_result(
                        interp,
                        position,
                        args,
                        kind,
                        expected,
                        answers.push(answer),
                        (rounds - 1) as nat,
                        depth,
                    ),
                },
            }
        },
    }
}

/// What one execution of a function on `args` yields.
pub open spec fn execute<F: ExternFunction>(
    interp: &Interpreter<F>,
    function_id: FunctionId,
    args: Seq<ValueModel>,
    sub_context: Map<usize, ConcreteModel>,
    expected: ConcreteModel,
    depth: nat,
) -> Result<ValueModel, EvalError>
    decreases depth, 5nat, 0nat,
{
    if depth == 0 {
        Err(EvalError::DepthLimitExceeded)
    } else if !interp.program.functions.contains(function_id.id) {
        Err(EvalError::MissingFunction(function_id))
    } else {
        let function = interp.program.functions.item(function_id.id);
        let env = EnvModel {
            args,
            implicit_arg_count: function.implicit_arg_count as nat,
            bindings: Seq::empty(),
        };
        let explicit = explicit_of(args, function.implicit_arg_count as nat);
        match function.info {
            FunctionInfo::NamedFunction(info) => match info.body {
                Some(body) => match eval_expr(interp, body, env, sub_context, (depth - 1) as nat) {
                    Err(e) => Err(e),
                    Ok((v, _)) => Ok(v),
                },
                None => match extern_position(interp.extern_functions@, info.module@, info.name@) {
                    Some(position) => extern_result(
                        interp,
                        position,
                        explicit,
                        info.kind,
                        expected,
                        Seq::empty(),
                        depth,
                        depth,
                    ),
                    None => Err(EvalError::MissingExtern(function_id)),
                },
            },
            FunctionInfo::Lambda(info) => match eval_expr(
                interp,
                info.body,
                env,
                sub_context,
                (depth - 1) as nat,
            ) {
                Err(e) => Err(e),
                Ok((v, _)) => Ok(v),
            },
            FunctionInfo::VariantConstructor(info) => {
                if !interp.program.typedefs.contains(info.type_id.id) {
                    Err(EvalError::InvalidConstructor(function_id))
                } else {
                    match interp.program.typedefs.item(info.type_id.id) {
                        TypeDef::Adt(adt) => if info.index < adt.variants@.len()
                            && adt.variants@[info.index as int].items@.len() <= explicit.len() {
                            Ok(
                                ValueModel {
                                    core: CoreModel::Variant(
                                        info.type_id,
                                        info.index,
                                        explicit.take(
                                            adt.variants@[info.index as int].items@.len() as int,
                                        ),
                                    ),
                                    ty: expected,
                                },
                            )
                        } else {
                            Err(EvalError::InvalidConstructor(function_id))
                        },
                        TypeDef::Record(_) => Err(EvalError::InvalidConstructor(function_id)),
                    }
                }
            },
            FunctionInfo::RecordConstructor(info) => {
                if !interp.program.typedefs.contains(info.type_id.id) {
                    Err(EvalError::InvalidConstructor(function_id))
                } else {
                    match interp.program.typedefs.item(info.type_id.id) {
                        TypeDef::Record(record) => if record.fields@.len() <= explicit.len() {
                            Ok(
                                ValueModel {
                                    core: CoreModel::Record(
                                        info.type_id,
                                        explicit.take(record.fields@.len() as int),
                                    ),
                                    ty: expected,
                                },
                            )
                        } else {
                            Err(EvalError::InvalidConstructor(function_id))
                        },
                        TypeDef::Adt(_) => Err(EvalError::InvalidConstructor(function_id)),
                    }
                }
            },
        }
    }
}

/// What a call of a class member on `args` yields, where a result of type
/// `expected` is wanted. The call's context binds the variable that stands
/// for the class's argument to the instance selector; the instance of the
/// member's class at the selector gives the function to call, or, where it
/// does not implement the member, the member's default does.
pub open spec fn call_class_member<F: ExternFunction>(
    interp: &Interpreter<F>,
    member_id: ClassMemberId,
    args: Seq<ValueModel>,
    expected: ConcreteModel,
    depth: nat,
) -> Result<ValueModel, EvalError>
    decreases depth, 7nat, 0nat,
{
    if !interp.program.class_members.contains(member_id.id) {
        Err(EvalError::MissingClassMember(member_id))
    } else if !interp.program.class_member_types.contains(member_id.id) {
        Err(EvalError::UntypedClassMember(member_id))
    } else {
        let member = interp.program.class_members.item(member_id.id);
        let member_ty = interp.program.class_member_types.item(member_id.id).0@;
        let class_arg_ty = interp.program.class_member_types.item(member_id.id).1@;
        match callee_context(member_ty, args, expected) {
            None => Err(EvalError::InvalidCallTypes),
            Some(callee_ctx) => match (
                class_arg_ty.concretize(callee_ctx),
                member_ty.concretize(callee_ctx),
            ) {
                (Some(selector), Some(function_ty)) => match member_function(
                    interp,
                    member_id,
                    selector,
                ) {
                    Err(e) => Err(e),
                    Ok(function_id) => call(
                        interp,
                        ValueModel {
                            core: CoreModel::Callable(function_id, Seq::empty(), callee_ctx),
                            ty: function_ty,
                        },
                        args,
                        depth,
                    ),
                },
                _ => Err(EvalError::InvalidCallTypes),
            },
        }
    }
}

/// Whether the call of a class member on `args`, where a result of type
/// `expected` is wanted, finds a function to call: the instance of the
/// member's class at the selector of the call implements the member, or
/// the member has a default. A call whose selector cannot be told is not
/// judged here.
pub open spec fn member_is_implemented<F: ExternFunction>(
    interp: &Interpreter<F>,
    member_id: ClassMemberId,
    args: Seq<ValueModel>,
    expected: ConcreteModel,
) -> bool {
    if interp.program.class_members.contains(member_id.id)
        && interp.program.class_member_types.contains(member_id.id) {
        let member_ty = interp.program.class_member_types.item(member_id.id).0@;
        let class_arg_ty = interp.program.class_member_types.item(member_id.id).1@;
        match callee_context(member_ty, args, expected) {
            None => true,
            Some(callee_ctx) => match (
                class_arg_ty.concretize(callee_ctx),
                member_ty.concretize(callee_ctx),
            ) {
                (Some(selector), Some(_)) => member_function(interp, member_id, selector) is Ok,
                _ => true,
            },
        }
    } else {
        true
    }
}

/// The function that implements a class member at the instance selector
/// `selector`.
pub open spec fn member_function<F: ExternFunction>(interp: &Interpreter<F>, member_id: ClassMemberId, selector: ConcreteModel) -> Result<
    FunctionId,
    EvalError,
> {
    let member = interp.program.class_members.item(member_id.id);
    match interp.program.type_instance_resolver.instance(member.class_id, selector) {
        None => Err(EvalError::MissingInstance(member_id)),
        Some(instance_id) => if !interp.program.instances.contains(instance_id.id) {
            Err(EvalError::MissingInstance(member_id))
        } else {
            match member_named(interp.program.instances.item(instance_id.id).members@, member.name@) {
                Some(instance_member) => Ok(instance_member.function_id),
                None => match member.default_implementation {
                    Some(function_id) => Ok(function_id),
                    None => Err(EvalError::MissingImplementation(member_id)),
                },
            }
        },
    }
}

/// Whether a pattern matches a value, and the environment that the match
/// leaves: `env` with what the pattern bound where it matches, and `env`
/// itself where it does not.
pub open spec fn match_pattern<F: ExternFunction>(
    interp: &Interpreter<F>,
    pattern_id: PatternId,
    value: ValueModel,
    env: EnvModel,
    ctx: Map<usize, ConcreteModel>,
    depth: nat,
) -> Result<(bool, EnvModel), EvalError>
    decreases depth, 3nat, 0nat,
{
    let inner = (depth - 1) as nat;
    if depth == 0 {
        Err(EvalError::DepthLimitExceeded)
    } else if !interp.program.patterns.contains(pattern_id.id) {
        Err(EvalError::MissingPattern(pattern_id))
    } else {
        match interp.program.patterns.item(pattern_id.id).item {
            Pattern::Binding(_) => Ok((true, env.add(pattern_id, value))),
            Pattern::Tuple(ids) => match value.core {
                CoreModel::Tuple(items) => match_patterns(
                    interp,
                    pattern_id,
                    ids@,
                    items,
                    0,
                    env,
                    env,
                    ctx,
                    inner,
                ),
                _ => Ok((false, env)),
            },
            Pattern::Record(type_id, ids) => match value.core {
                CoreModel::Record(id, items) => if id == type_id {
                    match_patterns(interp, pattern_id, ids@, items, 0, env, env, ctx, inner)
                } else {
                    Ok((false, env))
                },
                _ => Ok((false, env)),
            },
            Pattern::Variant(type_id, index, ids) => match value.core {
                CoreModel::Variant(id, value_index, items) => if id == type_id && value_index
                    == index {
                    match_patterns(interp, pattern_id, ids@, items, 0, env, env, ctx, inner)
                } else {
                    Ok((false, env))
                },
                _ => Ok((false, env)),
            },
            Pattern::Guarded(inner_id, guard) => match match_pattern(
                interp,
                inner_id,
                value,
                env,
                ctx,
                inner,
            ) {
                Err(e) => Err(e),
                Ok((matched, env1)) => if !matched {
                    Ok((false, env))
                } else {
                    match eval_expr(interp, guard, env1, ctx, inner) {
                        Err(e) => Err(e),
                        Ok((guard_value, env2)) => match guard_value.core {
                            CoreModel::Bool(b) => if b {
                                Ok((true, env2))
                            } else {
                                Ok((false, env))
                            },
                            _ => Err(EvalError::InvalidGuard(pattern_id)),
                        },
                    }
                },
            },
            Pattern::Typed(inner_id, _) => match_pattern(interp, inner_id, value, env, ctx, inner),
            Pattern::Wildcard => Ok((true, env)),
            Pattern::IntegerLiteral(v) => Ok((value.core == CoreModel::Int(v), env)),
            Pattern::FloatLiteral(v) => match value.core {
                CoreModel::Float(w) => Ok((float_bits_equal(v, w), env)),
                _ => Ok((false, env)),
            },
            Pattern::StringLiteral(v) => Ok((value.core == CoreModel::String(v@), env)),
            Pattern::BoolLiteral(v) => Ok((value.core == CoreModel::Bool(v), env)),
        }
    }
}

/// Matches the sub-patterns `ids` from position `from` on against the items
/// at their positions, in order, each in the environment that the one before
/// it left. Where one does not match, the result is `start`, the environment
/// from before the first.
pub open spec fn match_patterns<F: ExternFunction>(
    interp: &Interpreter<F>,
    pattern_id: PatternId,
    ids: Seq<PatternId>,
    items: Seq<ValueModel>,
    from: int,
    start: EnvModel,
    env: EnvModel,
    ctx: Map<usize, ConcreteModel>,
    depth: nat,
) -> Result<(bool, EnvModel), EvalError>
    decreases depth, 4nat, ids.len() - from,
{
    if from < 0 || from >= ids.len() {
        Ok((true, env))
    } else if from >= items.len() {
        Err(EvalError::InvalidPattern(pattern_id))
    } else {
        match match_pattern(interp, ids[from], items[from], env, ctx, depth) {
            Err(e) => Err(e),
            Ok((matched, env1)) => if matched {
                match_patterns(interp, pattern_id, ids, items, from + 1, start, env1, ctx, depth)
            } else {
                Ok((false, start))
            },
        }
    }
}

/// Where one of the sub-patterns does not match, the environment is the
/// one from before the first of them.
pub proof fn lemma_failed_matches_keep_environment<F: ExternFunction>(
    interp: &Interpreter<F>,
    pattern_id: PatternId,
    ids: Seq<PatternId>,
    items: Seq<ValueModel>,
    from: int,
    start: EnvModel,
    env: EnvModel,
    ctx: Map<usize, ConcreteModel>,
    depth: nat,
)
    ensures
        match_patterns(interp, pattern_id, ids, items, from, start, env, ctx, depth) matches Ok(
            (matched, left),
        ) ==> matched || left == start,
    decreases ids.len() - from,
{
    if 0 <= from < ids.len() && from < items.len() {
        match match_pattern(interp, ids[from], items[from], env, ctx, depth) {
            Ok((matched, env1)) => {
                if matched {
                    lemma_failed_matches_keep_environment(
                        interp,
                        pattern_id,
                        ids,
                        items,
                        from + 1,
                        start,
                        env1,
                        ctx,
                        depth,
                    );
                }
            },
            Err(_) => {},
        }
    }
}

/// Pattern matching rolls back: where a pattern does not match a value,
/// the environment that the match leaves is the environment it began with.
pub proof fn lemma_failed_match_keeps_environment<F: ExternFunction>(
    interp: &Interpreter<F>,
    pattern_id: PatternId,
    value: ValueModel,
    env: EnvModel,
    ctx: Map<usize, ConcreteModel>,
    depth: nat,
)
    ensures
        match_pattern(interp, pattern_id, value, env, ctx, depth) matches Ok((matched, left))
            ==> matched || left == env,
    decreases depth,
{
    if depth > 0 && interp.program.patterns.contains(pattern_id.id) {
        let inner = (depth - 1) as nat;
        match interp.program.patterns.item(pattern_id.id).item {
            Pattern::Tuple(ids) => match value.core {
                CoreModel::Tuple(items) => {
                    lemma_failed_matches_keep_environment(
                        interp,
                        pattern_id,
                        ids@,
                        items,
                        0,
                        env,
                        env,
                        ctx,
                        inner,
                    );
                },
                _ => {},
            },
            Pattern::Record(_, ids) => match value.core {
                CoreModel::Record(_, items) => {
                    lemma_failed_matches_keep_environment(
                        interp,
                        pattern_id,
                        ids@,
                        items,
                        0,
                        env,
                        env,
                        ctx,
                        inner,
                    );
                },
                _ => {},
            },
            Pattern::Variant(_, _, ids) => match value.core {
                CoreModel::Variant(_, _, items) => {
                    lemma_failed_matches_keep_environment(
                        interp,
                        pattern_id,
                        ids@,
                        items,
                        0,
                        env,
                        env,
                        ctx,
                        inner,
                    );
                },
                _ => {},
            },
            Pattern::Typed(inner_id, _) => {
                lemma_failed_match_keeps_environment(interp, inner_id, value, env, ctx, inner);
            },
            _ => {},
        }
    }
}

/// A machine number as a natural number.
pub open spec fn nat_of(n: usize) -> nat {
    n as nat
}

/// The concrete type without arguments that `module` declares under `name`.
pub open spec fn plain_type<F: ExternFunction>(
    interp: &Interpreter<F>,
    module: Seq<char>,
    name: Seq<char>,
) -> Option<ConcreteModel> {
    match named_type_of(interp.program.named_types@, module, name) {
        Some(id) => Some(ConcreteModel::Named(name, id, Seq::empty())),
        None => None,
    }
}

/// The concrete type that `module` declares under `name`, at one argument.
pub open spec fn unary_type<F: ExternFunction>(
    interp: &Interpreter<F>,
    module: Seq<char>,
    name: Seq<char>,
    arg: ConcreteModel,
) -> Option<ConcreteModel> {
    match named_type_of(interp.program.named_types@, module, name) {
        Some(id) => Some(ConcreteModel::Named(name, id, seq![arg])),
        None => None,
    }
}

/// What a call of the member `member_name` of the class `class_name` on
/// `args` yields.
pub open spec fn call_named_member<F: ExternFunction>(
    interp: &Interpreter<F>,
    args: Seq<ValueModel>,
    class_name: Seq<char>,
    member_name: Seq<char>,
    expected: ConcreteModel,
    depth: nat,
) -> Result<ValueModel, EvalError> {
    match class_member_named(interp, class_name, member_name) {
        Some(member_id) => call_class_member(interp, member_id, args, expected, depth),
        None => Err(EvalError::MissingBuiltin),
    }
}

/// The first function at or behind position `from` that is the named
/// function `name` of module `module`.
pub open spec fn function_named<F: ExternFunction>(
    interp: &Interpreter<F>,
    module: Seq<char>,
    name: Seq<char>,
    from: int,
) -> Option<FunctionId>
    decreases interp.program.functions.allocated() - from,
{
    if from < 0 || from >= interp.program.functions.allocated() {
        None
    } else if interp.program.functions.contains(from as usize) && (
    interp.program.functions.item(from as usize).info matches FunctionInfo::NamedFunction(info)
        && info.module@ == module && info.name@ == name) {
        Some(FunctionId { id: from as usize })
    } else {
        function_named(interp, module, name, from + 1)
    }
}

/// What running the program yields: one execution of the function `main` of
/// module `Main`, without arguments, at the type of the empty tuple.
pub open spec fn run_main<F: ExternFunction>(interp: &Interpreter<F>) -> Result<ValueModel, EvalError> {
    match function_named(interp, crate::constants::MAIN_MODULE@, crate::constants::MAIN_FUNCTION@, 0) {
        Some(id) => execute(
            interp,
            id,
            Seq::empty(),
            Map::empty(),
            ConcreteModel::Tuple(Seq::empty()),
            interp.depth_limit as nat,
        ),
        None => Err(EvalError::MainNotFound),
    }
}

/// Supplying the arguments of a function type in two goes leaves what
/// supplying them in one go leaves.
pub proof fn lemma_strip_twice(ty: ConcreteModel, first: nat, second: nat)
    ensures
        ty.strip(first).strip(second) == ty.strip(first + second),
    decreases first,
{
    if first > 0 {
        match ty {
            ConcreteModel::Function(_, to) => {
                lemma_strip_twice(*to, (first - 1) as nat, second);
            },
            _ => {
                lemma_strip_stays(ty, second);
                lemma_strip_stays(ty, first + second);
            },
        }
    }
}

/// A type that is no function is left as it is, whatever the number of
/// arguments.
pub proof fn lemma_strip_stays(ty: ConcreteModel, count: nat)
    requires
        !(ty is Function),
    ensures
        ty.strip(count) == ty,
{
}

/// Partial application: calling a callable on fewer arguments than it still
/// needs, and the result on further arguments, yields what calling it on
/// all of them at once yields.
pub proof fn lemma_partial_application<F: ExternFunction>(
    interp: &Interpreter<F>,
    callable: ValueModel,
    first: Seq<ValueModel>,
    rest: Seq<ValueModel>,
    first_depth: nat,
    depth: nat,
)
    requires
        callable.core matches CoreModel::Callable(function_id, collected, _)
            && interp.program.functions.contains(function_id.id) && collected.len() + first.len()
            < interp.program.functions.item(function_id.id).arity(),
    ensures
        call(interp, callable, first, first_depth).is_ok(),
        call(interp, call(interp, callable, first, first_depth).unwrap(), rest, depth) == call(
            interp,
            callable,
            first + rest,
            depth,
        ),
{
    match callable.core {
        CoreModel::Callable(function_id, collected, sub_context) => {
            let needed = interp.program.functions.item(function_id.id).arity();
            let partial = call(interp, callable, first, first_depth).unwrap();
            assert(partial.core == CoreModel::Callable(function_id, collected + first, sub_context));
            assert((collected + first) + rest =~= collected + (first + rest));
            lemma_strip_twice(callable.ty, first.len(), rest.len());
            if needed <= (collected + first + rest).len() {
                lemma_strip_twice(
                    callable.ty,
                    first.len(),
                    (needed - (collected + first).len()) as nat,
                );
            }
        },
        _ => {},
    }
}

/// At a call, the types seen at run time give back the context of type
/// checking: where a context `full` makes of each argument type of the
/// callee that has an argument the concrete type of the argument passed,
/// and of the result type the concrete type expected, the substitution
/// context of the call is `full` on the variables that stand in those
/// types, and binds no others.
pub proof fn lemma_call_site_context(
    arg_types: Seq<TypeModel>,
    args: Seq<ValueModel>,
    ret_type: TypeModel,
    expected: ConcreteModel,
    full: Map<usize, ConcreteModel>,
)
    requires
        args.len() <= arg_types.len(),
        forall|i: int|
            0 <= i < args.len() ==> (#[trigger] arg_types[i]).concretize(full) == Some(args[i].ty),
        ret_type.concretize(full) == Some(expected),
    ensures
        substitution_context(arg_types, args, ret_type, expected).is_some(),
        crate::ir::concrete::within(
            substitution_context(arg_types, args, ret_type, expected).unwrap(),
            full,
        ),
        forall|k: usize| #[trigger]
            substitution_context(arg_types, args, ret_type, expected).unwrap().contains_key(k)
                <==> (ret_type.mentions(k) || exists|i: int|
                0 <= i < args.len() && (#[trigger] arg_types[i]).mentions(k)),
{
    let empty = Map::<usize, ConcreteModel>::empty();
    let paired = paired_types(arg_types, args);
    assert(paired.len() == args.len());
    assert forall|i: int| 0 <= i < paired.len() implies (#[trigger] paired[i]).concretize(full)
        == Some(args[i].ty) by {
        assert(paired[i] == arg_types[i]);
    }
    assert(crate::ir::concrete::concretize_items(paired, full).is_some());
    assert(crate::ir::concrete::concretize_items(paired, full).unwrap() =~= value_types(args));
    crate::ir::concrete::lemma_match_items_recovers_context(paired, full, empty, 0);
    let m = match_generic_items(paired, value_types(args), 0, empty).unwrap();
    crate::ir::concrete::lemma_match_recovers_context(ret_type, full, m);
    let r = ret_type.match_generic(expected, m).unwrap();
    assert forall|k: usize| #[trigger]
        r.contains_key(k) <==> (ret_type.mentions(k) || exists|i: int|
            0 <= i < args.len() && (#[trigger] arg_types[i]).mentions(k)) by {
        assert(m.contains_key(k) <==> (empty.contains_key(k) || exists|i: int|
            0 <= i < paired.len() && (#[trigger] paired[i]).mentions(k)));
        if exists|i: int| 0 <= i < paired.len() && (#[trigger] paired[i]).mentions(k) {
            let i = choose|i: int| 0 <= i < paired.len() && (#[trigger] paired[i]).mentions(k);
            assert(paired[i] == arg_types[i]);
            assert(arg_types[i].mentions(k));
        }
        if exists|i: int| 0 <= i < args.len() && (#[trigger] arg_types[i]).mentions(k) {
            let i = choose|i: int| 0 <= i < args.len() && (#[trigger] arg_types[i]).mentions(k);
            assert(paired[i] == arg_types[i]);
            assert(paired[i].mentions(k));
        }
    }
}

} // verus!
