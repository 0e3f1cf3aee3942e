//! The evaluator proper.

use crate::constants::BOOL_MODULE_NAME;
use crate::constants::MAIN_FUNCTION;
use crate::constants::MAIN_MODULE;
use crate::constants::BOOL_TYPE_NAME;
use crate::constants::OPTION_MODULE_NAME;
use crate::constants::OPTION_TYPE_NAME;
use crate::constants::ORDERING_MODULE_NAME;
use crate::constants::ORDERING_TYPE_NAME;
use crate::constants::ORD_CLASS_NAME;
use crate::constants::ORD_MEMBER_NAME;
use crate::constants::PARTIALEQ_CLASS_NAME;
use crate::constants::PARTIALEQ_MEMBER_NAME;
use crate::constants::PARTIALORD_CLASS_NAME;
use crate::constants::PARTIALORD_MEMBER_NAME;
use crate::constants::SHOW_CLASS_NAME;
use crate::constants::SHOW_MEMBER_NAME;
use crate::constants::STRING_MODULE_NAME;
use crate::constants::STRING_TYPE_NAME;
use crate::interpreter::environment::lemma_extends_itself;
use crate::interpreter::environment::lemma_extends_truncated;
use crate::interpreter::environment::lemma_truncate_of_extension;
use crate::interpreter::environment::EnvModel;
use crate::interpreter::environment::Environment;
use crate::interpreter::error::EvalError;
use crate::interpreter::extern_function::explicit_args;
use crate::interpreter::extern_function::extern_position;
use crate::interpreter::extern_function::ExternEntry;
use crate::interpreter::extern_function::ExternFunction;
use crate::interpreter::extern_function::TypeDefIdCache;
use crate::interpreter::extern_function::VariantCache;
use crate::interpreter::semantics;
use crate::interpreter::value::float_equal;
use crate::interpreter::value::value_models;
use crate::interpreter::value::Callable;
use crate::interpreter::value::CoreModel;
use crate::interpreter::value::Value;
use crate::interpreter::value::ValueCore;
use crate::interpreter::value::ValueModel;
use crate::ir::class::find_member;
use crate::ir::class::ClassMemberId;
use crate::ir::concrete::concrete_models;
use crate::ir::concrete::match_generic_items;
use crate::ir::concrete::ConcreteModel;
use crate::ir::concrete::ConcreteType;
use crate::ir::concrete::SubstitutionContext;
use crate::ir::data::Adt;
use crate::ir::data::TypeDef;
use crate::ir::data::TypeDefId;
use crate::ir::expr::Case;
use crate::ir::expr::Expr;
use crate::ir::expr::ExprId;
use crate::ir::expr::FieldAccessInfo;
use crate::ir::expr::RecordFieldValueExpr;
use crate::ir::expr::RecordUpdateInfo;
use crate::ir::function::FunctionId;
use crate::ir::function::FunctionInfo;
use crate::ir::function::NamedFunctionKind;
use crate::ir::pattern::Pattern;
use crate::ir::pattern::PatternId;
use crate::ir::program::named_type_of;
use crate::ir::program::Program;
use crate::location_info::LocationId;
use crate::util::str_equal;
use crate::ir::types::type_models;
use crate::ir::types::Type;
use crate::ir::types::TypeModel;
use vstd::prelude::*;
use vstd::string::*;

verus! {

broadcast use {
    crate::interpreter::environment::lemma_extends_itself,
    crate::interpreter::environment::lemma_extends_chain,
    crate::interpreter::environment::lemma_add_extends,
};

/// The evaluator: the program it runs, the built-in functions registered
/// with it, the built-in types it hands to them, and the depth to which an
/// evaluation may nest.
pub struct Interpreter<F: ExternFunction> {
    pub program: Program,
    pub typedefid_cache: Option<TypeDefIdCache>,
    pub extern_functions: Vec<ExternEntry<F>>,
    pub depth_limit: usize,
}

/// Whether what an evaluation returned is what `expected` says.
pub open spec fn value_result(r: Result<Value, EvalError>, expected: Result<ValueModel, EvalError>) -> bool {
    match r {
        Ok(v) => expected == Ok::<ValueModel, EvalError>(v@),
        Err(e) => expected == Err::<ValueModel, EvalError>(e),
    }
}

/// Whether what an evaluation returned, and the environment it left, are
/// what `expected` says; and the environment it left holds the one it began
/// with.
pub open spec fn env_result(
    r: Result<Value, EvalError>,
    before: EnvModel,
    after: EnvModel,
    expected: Result<(ValueModel, EnvModel), EvalError>,
) -> bool {
    match r {
        Ok(v) => expected == Ok::<(ValueModel, EnvModel), EvalError>((v@, after)) && after.extends(
            before,
        ),
        Err(e) => expected == Err::<(ValueModel, EnvModel), EvalError>(e),
    }
}

/// The same of a list of values.
pub open spec fn values_result(
    r: Result<Vec<Value>, EvalError>,
    before: EnvModel,
    after: EnvModel,
    expected: Result<(Seq<ValueModel>, EnvModel), EvalError>,
) -> bool {
    match r {
        Ok(vs) => expected == Ok::<(Seq<ValueModel>, EnvModel), EvalError>(
            (value_models(vs@), after),
        ) && after.extends(before),
        Err(e) => expected == Err::<(Seq<ValueModel>, EnvModel), EvalError>(e),
    }
}

/// The same of a pattern match.
pub open spec fn match_result(
    r: Result<bool, EvalError>,
    before: EnvModel,
    after: EnvModel,
    expected: Result<(bool, EnvModel), EvalError>,
) -> bool {
    match r {
        Ok(matched) => expected == Ok::<(bool, EnvModel), EvalError>((matched, after))
            && after.extends(before),
        Err(e) => expected == Err::<(bool, EnvModel), EvalError>(e),
    }
}

/// The types of the first `arg_count` arguments of a curried function type,
/// and what is left behind them.
pub fn get_func_arg_types(ty: &Type, arg_count: usize) -> (r: (Vec<Type>, Type))
    ensures
        type_models(r.0@) == semantics::func_arg_types(ty@, arg_count as nat).0,
        r.1@ == semantics::func_arg_types(ty@, arg_count as nat).1,
    decreases arg_count,
{
    if arg_count == 0 {
        let v: Vec<Type> = Vec::new();
        assert(type_models(v@) =~= Seq::<TypeModel>::empty());
        (v, ty.copy())
    } else {
        match ty {
            Type::Function(from, to) => {
                let (mut rest, ret) = get_func_arg_types(to, arg_count - 1);
                let ghost rest_before = rest@;
                rest.insert(0, from.copy());
                assert(type_models(rest@) =~= seq![from@] + type_models(rest_before));
                (rest, ret)
            },
            _ => {
                let v: Vec<Type> = Vec::new();
                assert(type_models(v@) =~= Seq::<TypeModel>::empty());
                (v, ty.copy())
            },
        }
    }
}

/// The substitution context of a call: what the variables of the callee's
/// argument types and result type stand for. The argument types are paired
/// off with the arguments as far as the arguments go.
pub fn get_subtitution_context(
    func_arg_types: &Vec<Type>,
    args: &Vec<Value>,
    return_type: &ConcreteType,
    func_return_type: &Type,
) -> (r: Option<SubstitutionContext>)
    ensures
        match r {
            Some(c) => semantics::substitution_context(
                type_models(func_arg_types@),
                value_models(args@),
                func_return_type@,
                return_type@,
            ) == Some(c@),
            None => semantics::substitution_context(
                type_models(func_arg_types@),
                value_models(args@),
                func_return_type@,
                return_type@,
            ).is_none(),
        },
{
    let count = if func_arg_types.len() > args.len() {
        args.len()
    } else {
        func_arg_types.len()
    };
    let mut sub_context = SubstitutionContext::new();
    let mut i: usize = 0;
    let ghost xs = semantics::paired_types(type_models(func_arg_types@), value_models(args@));
    let ghost cs = semantics::value_types(value_models(args@));
    assert(xs.len() == count);
    while i < count
        invariant
            i <= count,
            count <= func_arg_types.len(),
            count <= args.len(),
            xs.len() == count,
            xs == semantics::paired_types(type_models(func_arg_types@), value_models(args@)),
            cs == semantics::value_types(value_models(args@)),
            match_generic_items(xs, cs, 0, Map::empty()) == match_generic_items(
                xs,
                cs,
                i as int,
                sub_context@,
            ),
        decreases count - i,
    {
        assert(cs[i as int] == args@[i as int].ty@);
        assert(xs[i as int] == func_arg_types@[i as int]@);
        if !func_arg_types[i].match_generic_types(&args[i].ty, &mut sub_context) {
            return None;
        }
        i = i + 1;
    }
    if func_return_type.match_generic_types(return_type, &mut sub_context) {
        Some(sub_context)
    } else {
        None
    }
}

/// The callee's context at a call of a function of schematic type `ty` on
/// `args`, where a result of type `expected` is wanted.
pub fn get_callee_context(ty: &Type, args: &Vec<Value>, expected: &ConcreteType) -> (r: Option<
    SubstitutionContext,
>)
    ensures
        match r {
            Some(c) => semantics::callee_context(ty@, value_models(args@), expected@) == Some(c@),
            None => semantics::callee_context(ty@, value_models(args@), expected@).is_none(),
        },
{
    let (arg_types, ret_type) = get_func_arg_types(ty, args.len());
    get_subtitution_context(&arg_types, args, expected, &ret_type)
}

/// The empty tuple at type `ty`.
pub fn unit_value(ty: ConcreteType) -> (v: Value)
    ensures
        v@ == semantics::unit_value(ty@),
{
    let items: Vec<Value> = Vec::new();
    assert(value_models(items@) =~= Seq::<ValueModel>::empty());
    Value { core: ValueCore::Tuple(items), ty }
}

impl<F: ExternFunction> Interpreter<F> {
    /// An evaluator for `program` without built-in functions, which lets an
    /// evaluation nest `depth_limit` deep.
    pub fn new(program: Program, depth_limit: usize) -> (interp: Interpreter<F>)
        ensures
            interp.program == program,
            interp.typedefid_cache.is_none(),
            interp.extern_functions@.len() == 0,
            interp.depth_limit == depth_limit,
    {
        Interpreter { program, typedefid_cache: None, extern_functions: Vec::new(), depth_limit }
    }

    /// Registers a built-in function under a module and a name, in place of
    /// one registered there before.
    pub fn add_extern_function(&mut self, module: &str, name: &str, extern_function: F)
        ensures
            final(self).extern_functions@.len() == old(self).extern_functions@.len() + 1,
            final(self).extern_functions@.drop_last() == old(self).extern_functions@,
            final(self).extern_functions@.last().module@ == module@,
            final(self).extern_functions@.last().name@ == name@,
            final(self).extern_functions@.last().function == extern_function,
            final(self).program == old(self).program,
            final(self).typedefid_cache == old(self).typedefid_cache,
            final(self).depth_limit == old(self).depth_limit,
    {
        self.extern_functions.push(
            ExternEntry {
                module: String::from_str(module),
                name: String::from_str(name),
                function: extern_function,
            },
        );
        assert(self.extern_functions@.drop_last() =~= old(self).extern_functions@);
    }

    /// The built-in types, which `build_typedefid_cache` must have found.
    pub fn get_typedef_id_cache(&self) -> (r: &TypeDefIdCache)
        requires
            self.typedefid_cache is Some,
        ensures
            Some(*r) == self.typedefid_cache,
    {
        match &self.typedefid_cache {
            Some(cache) => cache,
            None => vstd::pervasive::unreached(),
        }
    }

    /// Calls `callable_value` on `args`.
    pub fn call(&self, callable_value: Value, args: Vec<Value>, expr_id: Option<ExprId>, depth: usize) -> (r:
        Result<Value, EvalError>)
        ensures
            value_result(
                r,
                semantics::call(self, callable_value@, value_models(args@), depth as nat),
            ),
        decreases depth, 6nat, 0nat,
    {
        let ghost args_model = value_models(args@);
        let Value { core, ty } = callable_value;
        match core {
            ValueCore::Callable(callable) => {
                let Callable { function_id, values, sub_context } = callable;
                let function = match self.program.functions.get(function_id.id) {
                    Some(f) => f,
                    None => {
                        return Err(EvalError::MissingFunction(function_id));
                    },
                };
                let collected_len = values.len();
                let args_len = args.len();
                let ghost collected_model = value_models(values@);
                let mut all = values;
                let mut args = args;
                all.append(&mut args);
                assert(value_models(all@) =~= collected_model + args_model);
                let explicit = function.arg_locations.len();
                if !(explicit <= all.len() && function.implicit_arg_count <= all.len() - explicit) {
                    return Ok(
                        Value {
                            core: ValueCore::Callable(
                                Callable { function_id, values: all, sub_context },
                            ),
                            ty: ty.get_func_type(args_len),
                        },
                    );
                }
                let needed = explicit + function.implicit_arg_count;
                let ghost all_model = value_models(all@);
                let rest = all.split_off(needed);
                assert(value_models(all@) =~= all_model.take(needed as int));
                assert(value_models(rest@) =~= all_model.skip(needed as int));
                let supplied = if needed >= collected_len {
                    needed - collected_len
                } else {
                    0
                };
                let result_ty = ty.get_func_type(supplied);
                let result = match self.execute(
                    function_id,
                    all,
                    &sub_context,
                    result_ty,
                    expr_id,
                    depth,
                ) {
                    Ok(v) => v,
                    Err(e) => {
                        return Err(e);
                    },
                };
                if rest.len() == 0 {
                    Ok(result)
                } else if depth == 0 {
                    Err(EvalError::DepthLimitExceeded)
                } else {
                    self.call(result, rest, expr_id, depth - 1)
                }
            },
            _ => Err(EvalError::NotCallable),
        }
    }

    /// The position of the built-in registered last under `module` and `name`.
    fn find_extern(&self, module: &String, name: &String) -> (r: Option<usize>)
        ensures
            match r {
                Some(i) => extern_position(self.extern_functions@, module@, name@) == Some(i as int)
                    && i < self.extern_functions@.len(),
                None => extern_position(self.extern_functions@, module@, name@).is_none(),
            },
    {
        let mut j: usize = self.extern_functions.len();
        assert(self.extern_functions@.subrange(0, j as int) =~= self.extern_functions@);
        while j > 0
            invariant
                j <= self.extern_functions.len(),
                extern_position(self.extern_functions@, module@, name@) == extern_position(
                    self.extern_functions@.subrange(0, j as int),
                    module@,
                    name@,
                ),
            decreases j,
        {
            let ghost prefix = self.extern_functions@.subrange(0, j as int);
            assert(prefix.drop_last() =~= self.extern_functions@.subrange(0, j - 1));
            if self.extern_functions[j - 1].module == *module && self.extern_functions[j
                - 1].name == *name {
                return Some(j - 1);
            }
            j = j - 1;
        }
        None
    }

    /// The first `count` explicit arguments of an environment.
    fn collect_args(environment: &Environment, count: usize) -> (r: Option<Vec<Value>>)
        ensures
            match r {
                Some(vs) => count <= explicit_args(environment).len() && value_models(vs@)
                    == explicit_args(environment).take(count as int),
                None => count > explicit_args(environment).len(),
            },
    {
        let mut values: Vec<Value> = Vec::new();
        let mut index: usize = 0;
        while index < count
            invariant
                index <= count,
                values.len() == index,
                index <= explicit_args(environment).len(),
                forall|k: int|
                    0 <= k < index ==> (#[trigger] values@[k])@ == explicit_args(environment)[k],
            decreases count - index,
        {
            match environment.get_arg_by_index(index) {
                Some(v) => {
                    values.push(v);
                },
                None => {
                    return None;
                },
            }
            index = index + 1;
        }
        assert(value_models(values@) =~= explicit_args(environment).take(count as int));
        Some(values)
    }

    /// Calls the built-in function at `position` of the registry: while it
    /// asks for a call of a class member, at most `rounds` times, the call
    /// is made and its value added to the answers; then the built-in is
    /// called with the answers.
    fn run_extern(
        &self,
        position: usize,
        environment: &Environment,
        current_expr: Option<ExprId>,
        kind: &NamedFunctionKind,
        expr_ty: ConcreteType,
        answers: Vec<Value>,
        rounds: usize,
        depth: usize,
    ) -> (r: Result<Value, EvalError>)
        requires
            position < self.extern_functions@.len(),
        ensures
            value_result(
                r,
                semantics::extern_result(
                    self,
                    position as int,
                    explicit_args(environment),
                    *kind,
                    expr_ty@,
                    value_models(answers@),
                    rounds as nat,
                    depth as nat,
                ),
            ),
        decreases depth, 4nat, rounds,
    {
        let function = &self.extern_functions[position].function;
        match function.request(environment, kind, &expr_ty, &self.typedefid_cache, &answers) {
            None => function.call(
                environment,
                current_expr,
                kind,
                expr_ty,
                &self.typedefid_cache,
                &answers,
            ),
            Some(request) => {
                if rounds == 0 || depth == 0 {
                    return Err(EvalError::DepthLimitExceeded);
                }
                let member_id = match self.get_class_member(
                    request.class_name.as_str(),
                    request.member_name.as_str(),
                ) {
                    Some(member_id) => member_id,
                    None => {
                        return Err(EvalError::MissingBuiltin);
                    },
                };
                let answer = match self.dispatch_class_member(
                    &member_id,
                    request.args,
                    current_expr,
                    request.expected,
                    depth - 1,
                ) {
                    Ok(answer) => answer,
                    Err(e) => {
                        return Err(e);
                    },
                };
                let mut answers = answers;
                let ghost before = value_models(answers@);
                let ghost added = answer@;
                answers.push(answer);
                assert(value_models(answers@) =~= before.push(added));
                self.run_extern(
                    position,
                    environment,
                    current_expr,
                    kind,
                    expr_ty,
                    answers,
                    rounds - 1,
                    depth,
                )
            },
        }
    }

    /// Runs the function `id` once on `args`.
    pub fn execute(
        &self,
        id: FunctionId,
        args: Vec<Value>,
        sub_context: &SubstitutionContext,
        expr_ty: ConcreteType,
        current_expr: Option<ExprId>,
        depth: usize,
    ) -> (r: Result<Value, EvalError>)
        ensures
            value_result(
                r,
                semantics::execute(
                    self,
                    id,
                    value_models(args@),
                    sub_context@,
                    expr_ty@,
                    depth as nat,
                ),
            ),
        decreases depth, 5nat, 0nat,
    {
        if depth == 0 {
            return Err(EvalError::DepthLimitExceeded);
        }
        let function = match self.program.functions.get(id.id) {
            Some(f) => f,
            None => {
                return Err(EvalError::MissingFunction(id));
            },
        };
        let mut environment = Environment::new(id, args, function.implicit_arg_count);
        match &function.info {
            FunctionInfo::NamedFunction(info) => match info.body {
                Some(body) => self.eval_expr(body, &mut environment, sub_context, depth - 1),
                None => match self.find_extern(&info.module, &info.name) {
                    Some(position) => {
                        let answers: Vec<Value> = Vec::new();
                        assert(value_models(answers@) =~= Seq::<ValueModel>::empty());
                        self.run_extern(
                            position,
                            &environment,
                            current_expr,
                            &info.kind,
                            expr_ty,
                            answers,
                            depth,
                            depth,
                        )
                    },
                    None => Err(EvalError::MissingExtern(id)),
                },
            },
            FunctionInfo::Lambda(info) => self.eval_expr(
                info.body,
                &mut environment,
                sub_context,
                depth - 1,
            ),
            FunctionInfo::VariantConstructor(info) => {
                match self.program.typedefs.get(info.type_id.id) {
                    Some(TypeDef::Adt(adt)) => {
                        if info.index >= adt.variants.len() {
                            return Err(EvalError::InvalidConstructor(id));
                        }
                        match Self::collect_args(
                            &environment,
                            adt.variants[info.index].items.len(),
                        ) {
                            Some(values) => Ok(
                                Value {
                                    core: ValueCore::Variant(info.type_id, info.index, values),
                                    ty: expr_ty,
                                },
                            ),
                            None => Err(EvalError::InvalidConstructor(id)),
                        }
                    },
                    _ => Err(EvalError::InvalidConstructor(id)),
                }
            },
            FunctionInfo::RecordConstructor(info) => {
                match self.program.typedefs.get(info.type_id.id) {
                    Some(TypeDef::Record(record)) => {
                        match Self::collect_args(&environment, record.fields.len()) {
                            Some(values) => Ok(
                                Value { core: ValueCore::Record(info.type_id, values), ty: expr_ty },
                            ),
                            None => Err(EvalError::InvalidConstructor(id)),
                        }
                    },
                    _ => Err(EvalError::InvalidConstructor(id)),
                }
            },
        }
    }

    /// The function that implements a class member at an instance selector.
    pub fn member_function(&self, member_id: ClassMemberId, selector: &ConcreteType) -> (r: Result<
        FunctionId,
        EvalError,
    >)
        requires
            self.program.class_members.contains(member_id.id),
        ensures
            r == semantics::member_function(self, member_id, selector@),
    {
        let member = match self.program.class_members.get(member_id.id) {
            Some(m) => m,
            None => {
                return Err(EvalError::MissingClassMember(member_id));
            },
        };
        match self.program.type_instance_resolver.get(member.class_id, selector) {
            None => Err(EvalError::MissingInstance(member_id)),
            Some(instance_id) => match self.program.instances.get(instance_id.id) {
                None => Err(EvalError::MissingInstance(member_id)),
                Some(instance) => match find_member(&instance.members, member.name.as_str()) {
                    Some(instance_member) => Ok(instance_member.function_id),
                    None => match member.default_implementation {
                        Some(function_id) => Ok(function_id),
                        None => Err(EvalError::MissingImplementation(member_id)),
                    },
                },
            },
        }
    }

    /// Calls a class member on `arg_values`, where a result of type `expr_ty`
    /// is wanted: the instance of the member's class at the instance selector
    /// gives the function to call, or the member's default does. The member
    /// must be implemented at the selector of the call: a call for which
    /// neither the instance nor a default gives a function is no call that a
    /// checked program makes.
    pub fn call_class_member(
        &self,
        class_member_id: &ClassMemberId,
        arg_values: Vec<Value>,
        expr_id: Option<ExprId>,
        expr_ty: ConcreteType,
        depth: usize,
    ) -> (r: Result<Value, EvalError>)
        requires
            semantics::member_is_implemented(
                self,
                *class_member_id,
                value_models(arg_values@),
                expr_ty@,
            ),
        ensures
            value_result(
                r,
                semantics::call_class_member(
                    self,
                    *class_member_id,
                    value_models(arg_values@),
                    expr_ty@,
                    depth as nat,
                ),
            ),
    {
        self.dispatch_class_member(class_member_id, arg_values, expr_id, expr_ty, depth)
    }

    /// Calls a class member on `arg_values`, where a result of type `expr_ty`
    /// is wanted, as `call_class_member` does; where neither the instance
    /// at the selector nor a default gives a function to call, that is the
    /// error returned.
    pub fn dispatch_class_member(
        &self,
        class_member_id: &ClassMemberId,
        arg_values: Vec<Value>,
        expr_id: Option<ExprId>,
        expr_ty: ConcreteType,
        depth: usize,
    ) -> (r: Result<Value, EvalError>)
        ensures
            value_result(
                r,
                semantics::call_class_member(
                    self,
                    *class_member_id,
                    value_models(arg_values@),
                    expr_ty@,
                    depth as nat,
                ),
            ),
        decreases depth, 7nat, 0nat,
    {
        if self.program.class_members.get(class_member_id.id).is_none() {
            return Err(EvalError::MissingClassMember(*class_member_id));
        }
        let types = match self.program.class_member_types.get(class_member_id.id) {
            Some(t) => t,
            None => {
                return Err(EvalError::UntypedClassMember(*class_member_id));
            },
        };
        let callee_sub_context = match get_callee_context(&types.0, &arg_values, &expr_ty) {
            Some(c) => c,
            None => {
                return Err(EvalError::InvalidCallTypes);
            },
        };
        let instance_selector_ty = types.1.to_concrete_type(&callee_sub_context);
        let concrete_function_type = types.0.to_concrete_type(&callee_sub_context);
        match (instance_selector_ty, concrete_function_type) {
            (Some(selector), Some(function_ty)) => {
                let member_function_id = match self.member_function(*class_member_id, &selector) {
                    Ok(f) => f,
                    Err(e) => {
                        return Err(e);
                    },
                };
                let values: Vec<Value> = Vec::new();
                assert(value_models(values@) =~= Seq::<ValueModel>::empty());
                let callable = Value {
                    core: ValueCore::Callable(
                        Callable {
                            function_id: member_function_id,
                            values,
                            sub_context: callee_sub_context,
                        },
                    ),
                    ty: function_ty,
                };
                self.call(callable, arg_values, expr_id, depth)
            },
            _ => Err(EvalError::InvalidCallTypes),
        }
    }

    /// Evaluates an expression in an environment, under a substitution context.
    pub fn eval_expr(
        &self,
        expr_id: ExprId,
        environment: &mut Environment,
        sub_context: &SubstitutionContext,
        depth: usize,
    ) -> (r: Result<Value, EvalError>)
        ensures
            env_result(
                r,
                old(environment)@,
                final(environment)@,
                semantics::eval_expr(self, expr_id, old(environment)@, sub_context@, depth as nat),
            ),
        decreases depth, 3nat, 0nat,
    {
        if depth == 0 {
            return Err(EvalError::DepthLimitExceeded);
        }
        let expr_info = match self.program.exprs.get(expr_id.id) {
            Some(e) => e,
            None => {
                return Err(EvalError::MissingExpr(expr_id));
            },
        };
        let expr_ty = match &expr_info.item {
            Expr::Formatter(_, _) => match self.find_string_concrete_type() {
                Some(t) => t,
                None => {
                    return Err(EvalError::MissingBuiltin);
                },
            },
            _ => {
                let schematic = match self.program.expr_types.get(expr_id.id) {
                    Some(t) => t,
                    None => {
                        return Err(EvalError::UntypedExpr(expr_id));
                    },
                };
                match schematic.to_concrete_type(sub_context) {
                    Some(t) => t,
                    None => {
                        return Err(EvalError::UnboundTypeVariable(expr_id));
                    },
                }
            },
        };
        self.eval_typed_expr(expr_id, &expr_info.item, expr_ty, environment, sub_context, depth)
    }

    /// Evaluates an expression whose concrete type is `expr_ty`.
    #[verifier::loop_isolation(false)]
    fn eval_typed_expr(
        &self,
        expr_id: ExprId,
        expr: &Expr,
        expr_ty: ConcreteType,
        environment: &mut Environment,
        sub_context: &SubstitutionContext,
        depth: usize,
    ) -> (r: Result<Value, EvalError>)
        requires
            depth > 0,
            self.program.exprs.contains(expr_id.id),
            *expr == self.program.exprs.item(expr_id.id).item,
        ensures
            env_result(
                r,
                old(environment)@,
                final(environment)@,
                semantics::eval_typed_expr(
                    self,
                    expr_id,
                    expr_ty@,
                    old(environment)@,
                    sub_context@,
                    depth as nat,
                ),
            ),
        decreases depth, 2nat, 0nat,
    {
        let inner: usize = depth - 1;
        let ghost env0 = environment@;
        match expr {
            Expr::IntegerLiteral(v) => Ok(Value { core: ValueCore::Int(*v), ty: expr_ty }),
            Expr::FloatLiteral(v) => Ok(Value { core: ValueCore::Float(*v), ty: expr_ty }),
            Expr::BoolLiteral(v) => Ok(Value { core: ValueCore::Bool(*v), ty: expr_ty }),
            Expr::StringLiteral(v) => Ok(Value { core: ValueCore::String(v.clone()), ty: expr_ty }),
            Expr::ArgRef(arg_ref) => match environment.get_arg(arg_ref) {
                Some(v) => Ok(v),
                None => Err(EvalError::MissingArgument(expr_id)),
            },
            Expr::StaticFunctionCall(function_id, args) => {
                let func_ty = match self.program.function_types.get(function_id.id) {
                    Some(t) => t,
                    None => {
                        return Err(EvalError::UntypedFunction(*function_id));
                    },
                };
                let arg_values = match self.eval_exprs(args, environment, sub_context, inner) {
                    Ok(vs) => vs,
                    Err(e) => {
                        return Err(e);
                    },
                };
                let callee_sub_context = match get_callee_context(func_ty, &arg_values, &expr_ty) {
                    Some(c) => c,
                    None => {
                        return Err(EvalError::InvalidCallTypes);
                    },
                };
                let concrete_function_type = match func_ty.to_concrete_type(&callee_sub_context) {
                    Some(t) => t,
                    None => {
                        return Err(EvalError::InvalidCallTypes);
                    },
                };
                let values: Vec<Value> = Vec::new();
                assert(value_models(values@) =~= Seq::<ValueModel>::empty());
                let callable = Value {
                    core: ValueCore::Callable(
                        Callable {
                            function_id: *function_id,
                            values,
                            sub_context: callee_sub_context,
                        },
                    ),
                    ty: concrete_function_type,
                };
                self.call(callable, arg_values, Some(expr_id), inner)
            },
            Expr::DynamicFunctionCall(function_expr_id, args) => {
                let callable = match self.eval_expr(
                    *function_expr_id,
                    environment,
                    sub_context,
                    inner,
                ) {
                    Ok(v) => v,
                    Err(e) => {
                        return Err(e);
                    },
                };
                let arg_values = match self.eval_exprs(args, environment, sub_context, inner) {
                    Ok(vs) => vs,
                    Err(e) => {
                        return Err(e);
                    },
                };
                self.call(callable, arg_values, Some(expr_id), inner)
            },
            Expr::ClassFunctionCall(class_member_id, args) => {
                let arg_values = match self.eval_exprs(args, environment, sub_context, inner) {
                    Ok(vs) => vs,
                    Err(e) => {
                        return Err(e);
                    },
                };
                self.dispatch_class_member(class_member_id, arg_values, Some(expr_id), expr_ty, inner)
            },
            Expr::Do(items) => {
                let mark = environment.block_child();
                let mut result = unit_value(expr_ty);
                let mut i: usize = 0;
                while i < items.len()
                    invariant
                        i <= items.len(),
                        environment@.extends(env0),
                        semantics::eval_do(
                            self,
                            items@,
                            0,
                            semantics::unit_value(expr_ty@),
                            env0,
                            sub_context@,
                            inner as nat,
                        ) == semantics::eval_do(
                            self,
                            items@,
                            i as int,
                            result@,
                            environment@,
                            sub_context@,
                            inner as nat,
                        ),
                    decreases items.len() - i,
                {
                    result = match self.eval_expr(items[i], environment, sub_context, inner) {
                        Ok(v) => v,
                        Err(e) => {
                            return Err(e);
                        },
                    };
                    i = i + 1;
                }
                environment.leave_block(mark);
                Ok(result)
            },
            Expr::Bind(pattern_id, rhs) => {
                let value = match self.eval_expr(*rhs, environment, sub_context, inner) {
                    Ok(v) => v,
                    Err(e) => {
                        return Err(e);
                    },
                };
                match self.match_pattern(pattern_id, &value, environment, sub_context, inner) {
                    Ok(true) => Ok(unit_value(expr_ty)),
                    Ok(false) => Err(EvalError::BindFailed(expr_id)),
                    Err(e) => Err(e),
                }
            },
            Expr::ExprValue(_, pattern_id) => match environment.get_value(*pattern_id) {
                Some(v) => Ok(v),
                None => Err(EvalError::UnboundPattern(*pattern_id)),
            },
            Expr::If(cond, true_branch, false_branch) => {
                let cond_value = match self.eval_expr(*cond, environment, sub_context, inner) {
                    Ok(v) => v,
                    Err(e) => {
                        return Err(e);
                    },
                };
                match cond_value.core {
                    ValueCore::Bool(b) => if b {
                        self.eval_expr(*true_branch, environment, sub_context, inner)
                    } else {
                        self.eval_expr(*false_branch, environment, sub_context, inner)
                    },
                    _ => Err(EvalError::WrongShape(expr_id)),
                }
            },
            Expr::Tuple(exprs) => {
                match self.eval_exprs(exprs, environment, sub_context, inner) {
                    Ok(values) => Ok(Value { core: ValueCore::Tuple(values), ty: expr_ty }),
                    Err(e) => Err(e),
                }
            },
            Expr::List(exprs) => {
                match self.eval_exprs(exprs, environment, sub_context, inner) {
                    Ok(values) => Ok(Value { core: ValueCore::List(values), ty: expr_ty }),
                    Err(e) => Err(e),
                }
            },
            Expr::TupleFieldAccess(index, tuple) => {
                let tuple_value = match self.eval_expr(*tuple, environment, sub_context, inner) {
                    Ok(v) => v,
                    Err(e) => {
                        return Err(e);
                    },
                };
                match &tuple_value.core {
                    ValueCore::Tuple(items) => if *index < items.len() {
                        Ok(items[*index].copy())
                    } else {
                        Err(EvalError::WrongShape(expr_id))
                    },
                    _ => Err(EvalError::WrongShape(expr_id)),
                }
            },
            Expr::FieldAccess(infos, record_expr) => {
                let record = match self.eval_expr(*record_expr, environment, sub_context, inner) {
                    Ok(v) => v,
                    Err(e) => {
                        return Err(e);
                    },
                };
                match &record.core {
                    ValueCore::Record(id, values) => {
                        let mut i: usize = 0;
                        while i < infos.len()
                            invariant
                                i <= infos.len(),
                                semantics::field_of(infos@, *id, 0) == semantics::field_of(
                                    infos@,
                                    *id,
                                    i as int,
                                ),
                            decreases infos.len() - i,
                        {
                            if infos[i].record_id.id == id.id {
                                if infos[i].index < values.len() {
                                    return Ok(values[infos[i].index].copy());
                                } else {
                                    return Err(EvalError::WrongShape(expr_id));
                                }
                            }
                            i = i + 1;
                        }
                        Err(EvalError::WrongShape(expr_id))
                    },
                    _ => Err(EvalError::WrongShape(expr_id)),
                }
            },
            Expr::CaseOf(body, cases) => {
                let case_value = match self.eval_expr(*body, environment, sub_context, inner) {
                    Ok(v) => v,
                    Err(e) => {
                        return Err(e);
                    },
                };
                let ghost env1 = environment@;
                let mut i: usize = 0;
                while i < cases.len()
                    invariant
                        i <= cases.len(),
                        environment@ == env1,
                        semantics::eval_cases(
                            self,
                            expr_id,
                            cases@,
                            0,
                            case_value@,
                            env1,
                            sub_context@,
                            inner as nat,
                        ) == semantics::eval_cases(
                            self,
                            expr_id,
                            cases@,
                            i as int,
                            case_value@,
                            env1,
                            sub_context@,
                            inner as nat,
                        ),
                    decreases cases.len() - i,
                {
                    let mark = environment.block_child();
                    match self.match_pattern(
                        &cases[i].pattern_id,
                        &case_value,
                        environment,
                        sub_context,
                        inner,
                    ) {
                        Err(e) => {
                            return Err(e);
                        },
                        Ok(true) => {
                            let value = match self.eval_expr(
                                cases[i].body,
                                environment,
                                sub_context,
                                inner,
                            ) {
                                Ok(v) => v,
                                Err(e) => {
                                    return Err(e);
                                },
                            };
                            environment.leave_block(mark);
                            return Ok(value);
                        },
                        Ok(false) => {},
                    }
                    i = i + 1;
                }
                Err(EvalError::NoMatchingCase(expr_id))
            },
            Expr::Formatter(fmt, args) => {
                let values = match self.eval_exprs(args, environment, sub_context, inner) {
                    Ok(vs) => vs,
                    Err(e) => {
                        return Err(e);
                    },
                };
                let pieces = split_format(fmt.as_str());
                let mut text = String::new();
                let mut i: usize = 0;
                while i < pieces.len()
                    invariant
                        i <= pieces.len(),
                        semantics::format_values(
                            self,
                            piece_views(pieces@),
                            value_models(values@),
                            0,
                            Seq::empty(),
                            inner as nat,
                        ) == semantics::format_values(
                            self,
                            piece_views(pieces@),
                            value_models(values@),
                            i as int,
                            text@,
                            inner as nat,
                        ),
                    decreases pieces.len() - i,
                {
                    text.append(pieces[i].as_str());
                    if i < values.len() {
                        let shown = match self.call_show(values[i].copy(), inner) {
                            Ok(s) => s,
                            Err(e) => {
                                return Err(e);
                            },
                        };
                        text.append(shown.as_str());
                    }
                    i = i + 1;
                }
                Ok(Value { core: ValueCore::String(text), ty: expr_ty })
            },
            Expr::RecordInitialization(type_id, items) => {
                let mut values: Vec<Value> = Vec::new();
                let mut i: usize = 0;
                while i < items.len()
                    invariant
                        i <= items.len(),
                        values.len() == i,
                        forall|k: int|
                            0 <= k < i ==> (#[trigger] values@[k])@ == (ValueModel {
                                core: CoreModel::Bool(false),
                                ty: expr_ty@,
                            }),
                    decreases items.len() - i,
                {
                    values.push(Value { core: ValueCore::Bool(false), ty: expr_ty.copy() });
                    i = i + 1;
                }
                assert(value_models(values@) =~= Seq::new(
                    items@.len(),
                    |i: int| ValueModel { core: CoreModel::Bool(false), ty: expr_ty@ },
                ));
                match self.eval_record_items(
                    expr_id,
                    items,
                    values,
                    environment,
                    sub_context,
                    inner,
                ) {
                    Ok(values) => Ok(Value { core: ValueCore::Record(*type_id, values), ty: expr_ty }),
                    Err(e) => Err(e),
                }
            },
            Expr::RecordUpdate(record_expr_id, updates) => {
                let record = match self.eval_expr(
                    *record_expr_id,
                    environment,
                    sub_context,
                    inner,
                ) {
                    Ok(v) => v,
                    Err(e) => {
                        return Err(e);
                    },
                };
                let Value { core, ty: _ } = record;
                match core {
                    ValueCore::Record(id, values) => {
                        let mut i: usize = 0;
                        while i < updates.len()
                            invariant
                                i <= updates.len(),
                                semantics::update_of(updates@, id, 0) == semantics::update_of(
                                    updates@,
                                    id,
                                    i as int,
                                ),
                            decreases updates.len() - i,
                        {
                            if updates[i].record_id.id == id.id {
                                break ;
                            }
                            i = i + 1;
                        }
                        if i >= updates.len() {
                            return Err(EvalError::WrongShape(expr_id));
                        }
                        match self.eval_record_items(
                            expr_id,
                            &updates[i].items,
                            values,
                            environment,
                            sub_context,
                            inner,
                        ) {
                            Ok(values) => Ok(
                                Value { core: ValueCore::Record(id, values), ty: expr_ty },
                            ),
                            Err(e) => Err(e),
                        }
                    },
                    _ => Err(EvalError::WrongShape(expr_id)),
                }
            },
        }
    }

    /// Evaluates a list of expressions left to right.
    #[verifier::loop_isolation(false)]
    pub fn eval_exprs(
        &self,
        exprs: &Vec<ExprId>,
        environment: &mut Environment,
        sub_context: &SubstitutionContext,
        depth: usize,
    ) -> (r: Result<Vec<Value>, EvalError>)
        ensures
            values_result(
                r,
                old(environment)@,
                final(environment)@,
                semantics::eval_exprs(
                    self,
                    exprs@,
                    0,
                    Seq::empty(),
                    old(environment)@,
                    sub_context@,
                    depth as nat,
                ),
            ),
        decreases depth, 4nat, exprs.len(),
    {
        let ghost env0 = environment@;
        let mut values: Vec<Value> = Vec::new();
        assert(value_models(values@) =~= Seq::<ValueModel>::empty());
        let mut i: usize = 0;
        while i < exprs.len()
            invariant
                i <= exprs.len(),
                environment@.extends(env0),
                semantics::eval_exprs(
                    self,
                    exprs@,
                    0,
                    Seq::empty(),
                    env0,
                    sub_context@,
                    depth as nat,
                ) == semantics::eval_exprs(
                    self,
                    exprs@,
                    i as int,
                    value_models(values@),
                    environment@,
                    sub_context@,
                    depth as nat,
                ),
            decreases exprs.len() - i,
        {
            let ghost before = value_models(values@);
            match self.eval_expr(exprs[i], environment, sub_context, depth) {
                Ok(v) => {
                    values.push(v);
                    assert(value_models(values@) =~= before.push(v@));
                },
                Err(e) => {
                    return Err(e);
                },
            }
            i = i + 1;
        }
        Ok(values)
    }

    /// Evaluates the items of a record expression in order and stores each
    /// at its position in `values`.
    #[verifier::loop_isolation(false)]
    fn eval_record_items(
        &self,
        expr_id: ExprId,
        items: &Vec<RecordFieldValueExpr>,
        values: Vec<Value>,
        environment: &mut Environment,
        sub_context: &SubstitutionContext,
        depth: usize,
    ) -> (r: Result<Vec<Value>, EvalError>)
        ensures
            values_result(
                r,
                old(environment)@,
                final(environment)@,
                semantics::eval_record_items(
                    self,
                    expr_id,
                    items@,
                    0,
                    value_models(values@),
                    old(environment)@,
                    sub_context@,
                    depth as nat,
                ),
            ),
        decreases depth, 4nat, items.len(),
    {
        let ghost env0 = environment@;
        let ghost values0 = value_models(values@);
        let mut values = values;
        let mut i: usize = 0;
        while i < items.len()
            invariant
                i <= items.len(),
                environment@.extends(env0),
                semantics::eval_record_items(
                    self,
                    expr_id,
                    items@,
                    0,
                    values0,
                    env0,
                    sub_context@,
                    depth as nat,
                ) == semantics::eval_record_items(
                    self,
                    expr_id,
                    items@,
                    i as int,
                    value_models(values@),
                    environment@,
                    sub_context@,
                    depth as nat,
                ),
            decreases items.len() - i,
        {
            let ghost before = value_models(values@);
            let value = match self.eval_expr(items[i].expr_id, environment, sub_context, depth) {
                Ok(v) => v,
                Err(e) => {
                    return Err(e);
                },
            };
            if items[i].index < values.len() {
                let ghost value_model = value@;
                values.set(items[i].index, value);
                assert(value_models(values@) =~= before.update(items@[i as int].index as int, value_model));
            } else {
                return Err(EvalError::WrongShape(expr_id));
            }
            i = i + 1;
        }
        Ok(values)
    }

    /// Matches a value against a pattern, and binds in the environment what
    /// the pattern binds. Where the pattern does not match, the environment
    /// is left as it was.
    #[verifier::loop_isolation(false)]
    pub fn match_pattern(
        &self,
        pattern_id: &PatternId,
        value: &Value,
        environment: &mut Environment,
        sub_context: &SubstitutionContext,
        depth: usize,
    ) -> (r: Result<bool, EvalError>)
        ensures
            match_result(
                r,
                old(environment)@,
                final(environment)@,
                semantics::match_pattern(
                    self,
                    *pattern_id,
                    value@,
                    old(environment)@,
                    sub_context@,
                    depth as nat,
                ),
            ),
            r == Ok::<bool, EvalError>(false) ==> final(environment)@ == old(environment)@,
        decreases depth, 3nat, 0nat,
    {
        if depth == 0 {
            return Err(EvalError::DepthLimitExceeded);
        }
        let inner: usize = depth - 1;
        let pattern = match self.program.patterns.get(pattern_id.id) {
            Some(p) => &p.item,
            None => {
                return Err(EvalError::MissingPattern(*pattern_id));
            },
        };
        let mark = environment.block_child();
        let ghost env0 = environment@;
        proof {
            lemma_extends_itself(env0);
            assert(env0.truncate(mark as nat) == env0);
        }
        match pattern {
            Pattern::Binding(_) => {
                environment.add(*pattern_id, value.copy());
                Ok(true)
            },
            Pattern::Tuple(ids) => match &value.core {
                ValueCore::Tuple(vs) => self.match_patterns(
                    pattern_id,
                    ids,
                    vs,
                    mark,
                    environment,
                    sub_context,
                    inner,
                ),
                _ => Ok(false),
            },
            Pattern::Record(p_type_id, p_ids) => match &value.core {
                ValueCore::Record(type_id, vs) => {
                    if type_id.id == p_type_id.id {
                        self.match_patterns(
                            pattern_id,
                            p_ids,
                            vs,
                            mark,
                            environment,
                            sub_context,
                            inner,
                        )
                    } else {
                        Ok(false)
                    }
                },
                _ => Ok(false),
            },
            Pattern::Variant(p_type_id, p_index, p_ids) => match &value.core {
                ValueCore::Variant(type_id, index, vs) => {
                    if type_id.id == p_type_id.id && *index == *p_index {
                        self.match_patterns(
                            pattern_id,
                            p_ids,
                            vs,
                            mark,
                            environment,
                            sub_context,
                            inner,
                        )
                    } else {
                        Ok(false)
                    }
                },
                _ => Ok(false),
            },
            Pattern::Guarded(id, guard_expr_id) => {
                match self.match_pattern(id, value, environment, sub_context, inner) {
                    Err(e) => Err(e),
                    Ok(false) => Ok(false),
                    Ok(true) => {
                        let guard_value = match self.eval_expr(
                            *guard_expr_id,
                            environment,
                            sub_context,
                            inner,
                        ) {
                            Ok(v) => v,
                            Err(e) => {
                                return Err(e);
                            },
                        };
                        match guard_value.core {
                            ValueCore::Bool(b) => if b {
                                Ok(true)
                            } else {
                                proof {
                                    lemma_truncate_of_extension(environment@, env0, mark as nat);
                                }
                                environment.leave_block(mark);
                                Ok(false)
                            },
                            _ => Err(EvalError::InvalidGuard(*pattern_id)),
                        }
                    },
                }
            },
            Pattern::Typed(id, _) => self.match_pattern(id, value, environment, sub_context, inner),
            Pattern::Wildcard => Ok(true),
            Pattern::IntegerLiteral(p_v) => match &value.core {
                ValueCore::Int(v) => Ok(*p_v == *v),
                _ => Ok(false),
            },
            Pattern::FloatLiteral(p_v) => match &value.core {
                ValueCore::Float(v) => Ok(float_equal(*p_v, *v)),
                _ => Ok(false),
            },
            Pattern::StringLiteral(p_v) => match &value.core {
                ValueCore::String(v) => Ok(*p_v == *v),
                _ => Ok(false),
            },
            Pattern::BoolLiteral(p_v) => match &value.core {
                ValueCore::Bool(v) => Ok(*p_v == *v),
                _ => Ok(false),
            },
        }
    }

    /// Matches the items of a value against the sub-patterns of a pattern,
    /// in order. Where one does not match, the environment is cut back to
    /// its first `mark` bindings.
    #[verifier::loop_isolation(false)]
    fn match_patterns(
        &self,
        pattern_id: &PatternId,
        ids: &Vec<PatternId>,
        items: &Vec<Value>,
        mark: usize,
        environment: &mut Environment,
        sub_context: &SubstitutionContext,
        depth: usize,
    ) -> (r: Result<bool, EvalError>)
        requires
            mark <= old(environment)@.bindings.len(),
        ensures
            match_result(
                r,
                old(environment)@.truncate(mark as nat),
                final(environment)@,
                semantics::match_patterns(
                    self,
                    *pattern_id,
                    ids@,
                    value_models(items@),
                    0,
                    old(environment)@.truncate(mark as nat),
                    old(environment)@,
                    sub_context@,
                    depth as nat,
                ),
            ),
            r == Ok::<bool, EvalError>(false) ==> final(environment)@ == old(
                environment,
            )@.truncate(mark as nat),
            r == Ok::<bool, EvalError>(true) ==> final(environment)@.extends(old(environment)@),
        decreases depth, 4nat, ids.len(),
    {
        let ghost env0 = environment@;
        let ghost start = environment@.truncate(mark as nat);
        let mut i: usize = 0;
        while i < ids.len()
            invariant
                i <= ids.len(),
                environment@.extends(env0),
                mark <= env0.bindings.len(),
                semantics::match_patterns(
                    self,
                    *pattern_id,
                    ids@,
                    value_models(items@),
                    0,
                    start,
                    env0,
                    sub_context@,
                    depth as nat,
                ) == semantics::match_patterns(
                    self,
                    *pattern_id,
                    ids@,
                    value_models(items@),
                    i as int,
                    start,
                    environment@,
                    sub_context@,
                    depth as nat,
                ),
            decreases ids.len() - i,
        {
            if i >= items.len() {
                return Err(EvalError::InvalidPattern(*pattern_id));
            }
            match self.match_pattern(&ids[i], &items[i], environment, sub_context, depth) {
                Err(e) => {
                    return Err(e);
                },
                Ok(false) => {
                    proof {
                        lemma_truncate_of_extension(environment@, env0, mark as nat);
                        lemma_extends_itself(start);
                    }
                    environment.leave_block(mark);
                    return Ok(false);
                },
                Ok(true) => {},
            }
            i = i + 1;
        }
        proof {
            lemma_extends_truncated(env0, mark as nat);
        }
        Ok(true)
    }

    /// The concrete type without arguments that `module` declares under `name`.
    fn get_plain_type(&self, module: &str, name: &str) -> (r: Option<ConcreteType>)
        ensures
            match r {
                Some(t) => semantics::plain_type(self, module@, name@) == Some(t@),
                None => semantics::plain_type(self, module@, name@).is_none(),
            },
    {
        match self.program.find_named_type(module, name) {
            Some(id) => {
                let args: Vec<ConcreteType> = Vec::new();
                assert(concrete_models(args@) =~= Seq::<ConcreteModel>::empty());
                Some(ConcreteType::Named(String::from_str(name), id, args))
            },
            None => None,
        }
    }

    /// The concrete type of strings.
    pub fn find_string_concrete_type(&self) -> (r: Option<ConcreteType>)
        ensures
            match r {
                Some(t) => semantics::string_type(self) == Some(t@),
                None => semantics::string_type(self).is_none(),
            },
    {
        self.get_plain_type(STRING_MODULE_NAME, STRING_TYPE_NAME)
    }

    /// The concrete type of booleans.
    pub fn find_bool_concrete_type(&self) -> (r: Option<ConcreteType>)
        ensures
            match r {
                Some(t) => semantics::plain_type(self, BOOL_MODULE_NAME@, BOOL_TYPE_NAME@) == Some(
                    t@,
                ),
                None => semantics::plain_type(self, BOOL_MODULE_NAME@, BOOL_TYPE_NAME@).is_none(),
            },
    {
        self.get_plain_type(BOOL_MODULE_NAME, BOOL_TYPE_NAME)
    }

    /// The concrete type of the built-in ordering type.
    pub fn find_ordering_concrete_type(&self) -> (r: Option<ConcreteType>)
        ensures
            match r {
                Some(t) => semantics::plain_type(self, ORDERING_MODULE_NAME@, ORDERING_TYPE_NAME@)
                    == Some(t@),
                None => semantics::plain_type(
                    self,
                    ORDERING_MODULE_NAME@,
                    ORDERING_TYPE_NAME@,
                ).is_none(),
            },
    {
        self.get_plain_type(ORDERING_MODULE_NAME, ORDERING_TYPE_NAME)
    }

    /// The concrete type of an optional value of the built-in ordering type.
    pub fn find_optional_ordering_concrete_type(&self) -> (r: Option<ConcreteType>)
        ensures
            match r {
                Some(t) => semantics::plain_type(
                    self,
                    ORDERING_MODULE_NAME@,
                    ORDERING_TYPE_NAME@,
                ).is_some() && semantics::unary_type(
                    self,
                    OPTION_MODULE_NAME@,
                    OPTION_TYPE_NAME@,
                    semantics::plain_type(self, ORDERING_MODULE_NAME@, ORDERING_TYPE_NAME@).unwrap(),
                ) == Some(t@),
                None => semantics::plain_type(
                    self,
                    ORDERING_MODULE_NAME@,
                    ORDERING_TYPE_NAME@,
                ).is_none() || semantics::unary_type(
                    self,
                    OPTION_MODULE_NAME@,
                    OPTION_TYPE_NAME@,
                    semantics::plain_type(self, ORDERING_MODULE_NAME@, ORDERING_TYPE_NAME@).unwrap(),
                ).is_none(),
            },
    {
        let inner = match self.get_plain_type(ORDERING_MODULE_NAME, ORDERING_TYPE_NAME) {
            Some(t) => t,
            None => {
                return None;
            },
        };
        match self.program.find_named_type(OPTION_MODULE_NAME, OPTION_TYPE_NAME) {
            Some(id) => {
                let mut args: Vec<ConcreteType> = Vec::new();
                args.push(inner);
                assert(concrete_models(args@) =~= seq![inner@]);
                Some(ConcreteType::Named(String::from_str(OPTION_TYPE_NAME), id, args))
            },
            None => None,
        }
    }

    /// The concrete type of strings, which the program must have.
    pub fn get_string_concrete_type(&self) -> (r: ConcreteType)
        requires
            semantics::string_type(self) is Some,
        ensures
            semantics::string_type(self) == Some(r@),
    {
        match self.find_string_concrete_type() {
            Some(t) => t,
            None => vstd::pervasive::unreached(),
        }
    }

    /// The concrete type of booleans, which the program must have.
    pub fn get_bool_concrete_type(&self) -> (r: ConcreteType)
        requires
            semantics::plain_type(self, BOOL_MODULE_NAME@, BOOL_TYPE_NAME@) is Some,
        ensures
            semantics::plain_type(self, BOOL_MODULE_NAME@, BOOL_TYPE_NAME@) == Some(r@),
    {
        match self.find_bool_concrete_type() {
            Some(t) => t,
            None => vstd::pervasive::unreached(),
        }
    }

    /// The concrete type of the built-in ordering type, which the program
    /// must have.
    pub fn get_ordering_concrete_type(&self) -> (r: ConcreteType)
        requires
            semantics::plain_type(self, ORDERING_MODULE_NAME@, ORDERING_TYPE_NAME@) is Some,
        ensures
            semantics::plain_type(self, ORDERING_MODULE_NAME@, ORDERING_TYPE_NAME@) == Some(r@),
    {
        match self.find_ordering_concrete_type() {
            Some(t) => t,
            None => vstd::pervasive::unreached(),
        }
    }

    /// The concrete type of an optional value of the built-in ordering
    /// type, in a program that has the ordering type and the option type.
    pub fn get_optional_ordering_concrete_type(&self) -> (r: ConcreteType)
        requires
            semantics::plain_type(self, ORDERING_MODULE_NAME@, ORDERING_TYPE_NAME@) is Some,
            semantics::unary_type(
                self,
                OPTION_MODULE_NAME@,
                OPTION_TYPE_NAME@,
                semantics::plain_type(self, ORDERING_MODULE_NAME@, ORDERING_TYPE_NAME@).unwrap(),
            ) is Some,
        ensures
            semantics::unary_type(
                self,
                OPTION_MODULE_NAME@,
                OPTION_TYPE_NAME@,
                semantics::plain_type(self, ORDERING_MODULE_NAME@, ORDERING_TYPE_NAME@).unwrap(),
            ) == Some(r@),
    {
        match self.find_optional_ordering_concrete_type() {
            Some(t) => t,
            None => vstd::pervasive::unreached(),
        }
    }

    /// The member called `member_name` of the class called `class_name`.
    pub fn get_class_member(&self, class_name: &str, member_name: &str) -> (r: Option<ClassMemberId>)
        ensures
            r == semantics::class_member_named(self, class_name@, member_name@),
    {
        match find_member(&self.program.class_names, class_name) {
            Some(class_id) => match self.program.classes.get(class_id.id) {
                Some(class) => find_member(&class.members, member_name),
                None => None,
            },
            None => None,
        }
    }

    /// What `show` of class `Show` makes of a value.
    pub fn call_show(&self, arg: Value, depth: usize) -> (r: Result<String, EvalError>)
        ensures
            match r {
                Ok(s) => semantics::call_show(self, arg@, depth as nat) == Ok::<
                    Seq<char>,
                    EvalError,
                >(s@),
                Err(e) => semantics::call_show(self, arg@, depth as nat) == Err::<
                    Seq<char>,
                    EvalError,
                >(e),
            },
        decreases depth, 8nat, 0nat,
    {
        let string_ty = self.find_string_concrete_type();
        let member = self.get_class_member(SHOW_CLASS_NAME, SHOW_MEMBER_NAME);
        match (string_ty, member) {
            (Some(string_ty), Some(member_id)) => {
                let mut args: Vec<Value> = Vec::new();
                args.push(arg);
                assert(value_models(args@) =~= seq![arg@]);
                match self.dispatch_class_member(&member_id, args, None, string_ty, depth) {
                    Ok(v) => match v.core {
                        ValueCore::String(s) => Ok(s),
                        _ => Err(EvalError::MissingBuiltin),
                    },
                    Err(e) => Err(e),
                }
            },
            _ => Err(EvalError::MissingBuiltin),
        }
    }

    /// Calls the member `member_name` of the class `class_name` on `args`,
    /// where a result of type `expr_ty` is wanted.
    pub fn call_specific_class_member(
        &self,
        args: Vec<Value>,
        class_name: &str,
        member_name: &str,
        expr_ty: ConcreteType,
        depth: usize,
    ) -> (r: Result<Value, EvalError>)
        ensures
            value_result(
                r,
                semantics::call_named_member(
                    self,
                    value_models(args@),
                    class_name@,
                    member_name@,
                    expr_ty@,
                    semantics::nat_of(depth),
                ),
            ),
    {
        match self.get_class_member(class_name, member_name) {
            Some(member_id) => self.dispatch_class_member(&member_id, args, None, expr_ty, depth),
            None => Err(EvalError::MissingBuiltin),
        }
    }

    /// Calls a member of a class on two arguments.
    fn call_binary_member(
        &self,
        arg1: Value,
        arg2: Value,
        class_name: &str,
        member_name: &str,
        expr_ty: ConcreteType,
        depth: usize,
    ) -> (r: Result<Value, EvalError>)
        ensures
            value_result(
                r,
                semantics::call_named_member(
                    self,
                    seq![arg1@, arg2@],
                    class_name@,
                    member_name@,
                    expr_ty@,
                    semantics::nat_of(depth),
                ),
            ),
    {
        let mut args: Vec<Value> = Vec::new();
        args.push(arg1);
        args.push(arg2);
        assert(value_models(args@) =~= seq![arg1@, arg2@]);
        self.call_specific_class_member(args, class_name, member_name, expr_ty, depth)
    }

    /// Whether two values are equal, by the member `opEq` of class `PartialEq`.
    pub fn call_op_eq(&self, arg1: Value, arg2: Value, depth: usize) -> (r: Result<Value, EvalError>)
        ensures
            match semantics::plain_type(self, BOOL_MODULE_NAME@, BOOL_TYPE_NAME@) {
                Some(ty) => value_result(
                    r,
                    semantics::call_named_member(
                        self,
                        seq![arg1@, arg2@],
                        PARTIALEQ_CLASS_NAME@,
                        PARTIALEQ_MEMBER_NAME@,
                        ty,
                        semantics::nat_of(depth),
                    ),
                ),
                None => r == Err::<Value, EvalError>(EvalError::MissingBuiltin),
            },
    {
        match self.find_bool_concrete_type() {
            Some(ty) => self.call_binary_member(
                arg1,
                arg2,
                PARTIALEQ_CLASS_NAME,
                PARTIALEQ_MEMBER_NAME,
                ty,
                depth,
            ),
            None => Err(EvalError::MissingBuiltin),
        }
    }

    /// How a first value stands to a second, if they can be compared, by the
    /// member `partialCmp` of class `PartialOrd`.
    pub fn call_op_partial_cmp(&self, arg1: Value, arg2: Value, depth: usize) -> (r: Result<
        Value,
        EvalError,
    >)
        ensures
            match self.optional_ordering_type() {
                Some(ty) => value_result(
                    r,
                    semantics::call_named_member(
                        self,
                        seq![arg1@, arg2@],
                        PARTIALORD_CLASS_NAME@,
                        PARTIALORD_MEMBER_NAME@,
                        ty,
                        semantics::nat_of(depth),
                    ),
                ),
                None => r == Err::<Value, EvalError>(EvalError::MissingBuiltin),
            },
    {
        match self.find_optional_ordering_concrete_type() {
            Some(ty) => self.call_binary_member(
                arg1,
                arg2,
                PARTIALORD_CLASS_NAME,
                PARTIALORD_MEMBER_NAME,
                ty,
                depth,
            ),
            None => Err(EvalError::MissingBuiltin),
        }
    }

    /// How a first value stands to a second, by the member `cmp` of class `Ord`.
    pub fn call_op_cmp(&self, arg1: Value, arg2: Value, depth: usize) -> (r: Result<Value, EvalError>)
        ensures
            match semantics::plain_type(self, ORDERING_MODULE_NAME@, ORDERING_TYPE_NAME@) {
                Some(ty) => value_result(
                    r,
                    semantics::call_named_member(
                        self,
                        seq![arg1@, arg2@],
                        ORD_CLASS_NAME@,
                        ORD_MEMBER_NAME@,
                        ty,
                        semantics::nat_of(depth),
                    ),
                ),
                None => r == Err::<Value, EvalError>(EvalError::MissingBuiltin),
            },
    {
        match self.find_ordering_concrete_type() {
            Some(ty) => self.call_binary_member(
                arg1,
                arg2,
                ORD_CLASS_NAME,
                ORD_MEMBER_NAME,
                ty,
                depth,
            ),
            None => Err(EvalError::MissingBuiltin),
        }
    }

    /// The concrete type of an optional value of the built-in ordering type.
    pub open spec fn optional_ordering_type(&self) -> Option<ConcreteModel> {
        match semantics::plain_type(self, ORDERING_MODULE_NAME@, ORDERING_TYPE_NAME@) {
            Some(inner) => semantics::unary_type(
                self,
                OPTION_MODULE_NAME@,
                OPTION_TYPE_NAME@,
                inner,
            ),
            None => None,
        }
    }

    /// The place of the expression at which the program asked to be aborted,
    /// for the diagnostic; the evaluation ends with `AbortCalled`.
    pub fn call_abort(&self, current_expr: ExprId) -> (r: (Option<LocationId>, EvalError))
        ensures
            r.1 == EvalError::AbortCalled,
            self.program.exprs.contains(current_expr.id) ==> r.0 == Some(
                self.program.exprs.item(current_expr.id).location_id,
            ),
            !self.program.exprs.contains(current_expr.id) ==> r.0.is_none(),
    {
        match self.program.exprs.get(current_expr.id) {
            Some(info) => (Some(info.location_id), EvalError::AbortCalled),
            None => (None, EvalError::AbortCalled),
        }
    }

    /// Finds the built-in option and ordering types and keeps what built-in
    /// functions need of them. Where the program lacks one of them, nothing
    /// is kept.
    pub fn build_typedefid_cache(&mut self)
        ensures
            final(self).program == old(self).program,
            final(self).extern_functions == old(self).extern_functions,
            final(self).depth_limit == old(self).depth_limit,
            typedef_cache_of(&old(self).program, final(self).typedefid_cache),
    {
        let option_id = self.program.find_named_type(OPTION_MODULE_NAME, OPTION_TYPE_NAME);
        let ordering_id = self.program.find_named_type(ORDERING_MODULE_NAME, ORDERING_TYPE_NAME);
        let cache = match (option_id, ordering_id) {
            (Some(option_id), Some(ordering_id)) => {
                match (
                    self.program.typedefs.get(option_id.id),
                    self.program.typedefs.get(ordering_id.id),
                ) {
                    (Some(TypeDef::Adt(option)), Some(TypeDef::Adt(ordering))) => Some(
                        TypeDefIdCache {
                            option_id,
                            ordering_id,
                            option_variants: VariantCache::new(option),
                            ordering_variants: VariantCache::new(ordering),
                        },
                    ),
                    _ => None,
                }
            },
            _ => None,
        };
        self.typedefid_cache = cache;
    }

    /// The function `main` of module `Main`, if the program has one.
    pub fn find_main(&self) -> (r: Option<FunctionId>)
        ensures
            r == semantics::function_named(self, MAIN_MODULE@, MAIN_FUNCTION@, 0),
    {
        let mut i: usize = 0;
        while i < self.program.functions.len()
            invariant
                i <= self.program.functions.allocated(),
                semantics::function_named(self, MAIN_MODULE@, MAIN_FUNCTION@, 0)
                    == semantics::function_named(self, MAIN_MODULE@, MAIN_FUNCTION@, i as int),
            decreases self.program.functions.allocated() - i,
        {
            match self.program.functions.get(i) {
                Some(function) => match &function.info {
                    FunctionInfo::NamedFunction(info) => {
                        if str_equal(info.module.as_str(), MAIN_MODULE) && str_equal(
                            info.name.as_str(),
                            MAIN_FUNCTION,
                        ) {
                            return Some(FunctionId { id: i });
                        }
                    },
                    _ => {},
                },
                None => {},
            }
            i = i + 1;
        }
        None
    }

    /// Runs the function `main` of module `Main`, which the program must
    /// have: one execution of it, without arguments, under the empty
    /// context and at the type of the empty tuple.
    pub fn execute_main(&self) -> (r: Result<Value, EvalError>)
        requires
            semantics::function_named(self, MAIN_MODULE@, MAIN_FUNCTION@, 0) is Some,
        ensures
            value_result(r, semantics::run_main(self)),
            value_result(
                r,
                semantics::execute(
                    self,
                    semantics::function_named(self, MAIN_MODULE@, MAIN_FUNCTION@, 0).unwrap(),
                    Seq::empty(),
                    Map::empty(),
                    ConcreteModel::Tuple(Seq::empty()),
                    self.depth_limit as nat,
                ),
            ),
    {
        match self.find_main() {
            Some(id) => {
                let args: Vec<Value> = Vec::new();
                assert(value_models(args@) =~= Seq::<ValueModel>::empty());
                let items: Vec<ConcreteType> = Vec::new();
                assert(concrete_models(items@) =~= Seq::<ConcreteModel>::empty());
                let sub_context = SubstitutionContext::new();
                self.execute(
                    id,
                    args,
                    &sub_context,
                    ConcreteType::Tuple(items),
                    None,
                    self.depth_limit,
                )
            },
            None => vstd::pervasive::unreached(),
        }
    }
}

/// Whether `cache` is what a program has of the built-in option and
/// ordering types: something where the program declares both as algebraic
/// data types, and then their ids and, of each, every variant with its
/// position; nothing where it lacks one of them.
pub open spec fn typedef_cache_of(program: &Program, cache: Option<TypeDefIdCache>) -> bool {
    &&& cache.is_some() == (builtin_adt(program, OPTION_MODULE_NAME@, OPTION_TYPE_NAME@).is_some()
        && builtin_adt(program, ORDERING_MODULE_NAME@, ORDERING_TYPE_NAME@).is_some())
    &&& match cache {
        Some(cache) => {
            &&& builtin_adt(program, OPTION_MODULE_NAME@, OPTION_TYPE_NAME@) matches Some((id, adt))
                && cache.option_id == id && variants_cached(cache.option_variants, adt)
            &&& builtin_adt(program, ORDERING_MODULE_NAME@, ORDERING_TYPE_NAME@) matches Some(
                (id, adt),
            ) && cache.ordering_id == id && variants_cached(cache.ordering_variants, adt)
        },
        None => true,
    }
}

/// The algebraic data type that `module` declares under `name`, with its id.
pub open spec fn builtin_adt(program: &Program, module: Seq<char>, name: Seq<char>) -> Option<
    (TypeDefId, Adt),
> {
    match named_type_of(program.named_types@, module, name) {
        Some(id) => if program.typedefs.contains(id.id) {
            match program.typedefs.item(id.id) {
                TypeDef::Adt(adt) => Some((id, adt)),
                TypeDef::Record(_) => None,
            }
        } else {
            None
        },
        None => None,
    }
}

/// Whether `cache` holds each variant of `adt`, in order, with its position.
pub open spec fn variants_cached(cache: VariantCache, adt: Adt) -> bool {
    cache.variants@.len() == adt.variants@.len() && forall|i: int|
        0 <= i < adt.variants@.len() ==> (#[trigger] cache.variants@[i]).0@
            == adt.variants@[i].name@ && cache.variants@[i].1 == i
}

/// The characters of each of a list of strings.
pub open spec fn piece_views(pieces: Seq<String>) -> Seq<Seq<char>> {
    Seq::new(pieces.len(), |i: int| pieces[i]@)
}

/// The pieces of a format string between its `{}` markers.
pub fn split_format(fmt: &str) -> (pieces: Vec<String>)
    ensures
        piece_views(pieces@) == semantics::format_pieces(fmt@, 0, 0),
{
    let mut pieces: Vec<String> = Vec::new();
    let len = fmt.unicode_len();
    let mut start: usize = 0;
    let mut position: usize = 0;
    assert(piece_views(pieces@) =~= Seq::<Seq<char>>::empty());
    while position < len
        invariant
            len == fmt@.len(),
            start <= position,
            position <= len,
            semantics::format_pieces(fmt@, 0, 0) == piece_views(pieces@) + semantics::format_pieces(
                fmt@,
                start as int,
                position as int,
            ),
        decreases len - position,
    {
        if position + 1 < len && fmt.get_char(position) == '{' && fmt.get_char(position + 1) == '}' {
            let ghost before = piece_views(pieces@);
            pieces.push(String::from_str(fmt.substring_char(start, position)));
            assert(piece_views(pieces@) =~= before.push(fmt@.subrange(start as int, position as int)));
            assert(before + (seq![fmt@.subrange(start as int, position as int)]
                + semantics::format_pieces(fmt@, position + 2, position + 2)) =~= before.push(
                fmt@.subrange(start as int, position as int),
            ) + semantics::format_pieces(fmt@, position + 2, position + 2));
            position = position + 2;
            start = position;
        } else {
            position = position + 1;
        }
    }
    let ghost before = piece_views(pieces@);
    pieces.push(String::from_str(fmt.substring_char(start, len)));
    assert(piece_views(pieces@) =~= before + seq![fmt@.subrange(start as int, len as int)]);
    pieces
}

} // verus!
