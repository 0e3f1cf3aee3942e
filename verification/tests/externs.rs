use siko::interpreter::data_int::IntExtern;
use siko::interpreter::data_int::IntShow;
use siko::interpreter::environment::Environment;
use siko::interpreter::error::EvalError;
use siko::interpreter::extern_function::DispatchRequest;
use siko::interpreter::extern_function::ExternFunction;
use siko::interpreter::extern_function::RequestModel;
use siko::interpreter::extern_function::TypeDefIdCache;
use siko::interpreter::interpreter::Interpreter;
use siko::interpreter::value::Value;
use siko::interpreter::value::ValueCore;
use siko::interpreter::value::ValueModel;
use siko::ir::class::Class;
use siko::ir::class::ClassId;
use siko::ir::class::ClassMember;
use siko::ir::class::ClassMemberId;
use siko::ir::class::Instance;
use siko::ir::class::InstanceId;
use siko::ir::class::InstanceMember;
use siko::ir::concrete::ConcreteModel;
use siko::ir::concrete::ConcreteType;
use siko::ir::data::Adt;
use siko::ir::data::TypeDef;
use siko::ir::data::TypeDefId;
use siko::ir::expr::Expr;
use siko::ir::expr::ExprId;
use siko::ir::function::Function;
use siko::ir::function::FunctionId;
use siko::ir::function::FunctionInfo;
use siko::ir::function::NamedFunctionInfo;
use siko::ir::function::NamedFunctionKind;
use siko::ir::program::NamedType;
use siko::ir::program::Program;
use siko::ir::type_signature::TypeSignature;
use siko::ir::type_signature::TypeSignatureId;
use siko::ir::type_var_generator::TypeVarGenerator;
use siko::location_info::ItemInfo;
use siko::location_info::LocationId;
use siko::typechecker::typechecker::Typechecker;

const DEPTH: usize = 200;

/// The built-in `show` of integers, and a built-in that puts what `show`
/// makes of its argument between angle brackets.
enum TestExtern {
    Show(IntExtern),
    Describe,
}

impl ExternFunction for TestExtern {
    // The two that follow only state what the others do; nothing runs them.
    fn requested(
        &self,
        _args: vstd::seq::Seq<ValueModel>,
        _kind: NamedFunctionKind,
        _ty: ConcreteModel,
        _cache: &Option<TypeDefIdCache>,
        _answers: vstd::seq::Seq<ValueModel>,
    ) -> Option<RequestModel> {
        unreachable!()
    }

    fn result(
        &self,
        _args: vstd::seq::Seq<ValueModel>,
        _kind: NamedFunctionKind,
        _ty: ConcreteModel,
        _cache: &Option<TypeDefIdCache>,
        _answers: vstd::seq::Seq<ValueModel>,
    ) -> Result<ValueModel, EvalError> {
        unreachable!()
    }

    fn request(
        &self,
        environment: &Environment,
        kind: &NamedFunctionKind,
        ty: &ConcreteType,
        cache: &Option<TypeDefIdCache>,
        answers: &Vec<Value>,
    ) -> Option<DispatchRequest> {
        match self {
            TestExtern::Show(f) => f.request(environment, kind, ty, cache, answers),
            TestExtern::Describe => {
                if answers.is_empty() {
                    Some(DispatchRequest {
                        class_name: "Show".to_string(),
                        member_name: "show".to_string(),
                        args: vec![environment.get_arg_by_index(0).unwrap()],
                        expected: ty.copy(),
                    })
                } else {
                    None
                }
            },
        }
    }

    fn call(
        &self,
        environment: &Environment,
        current_expr: Option<ExprId>,
        kind: &NamedFunctionKind,
        ty: ConcreteType,
        cache: &Option<TypeDefIdCache>,
        answers: &Vec<Value>,
    ) -> Result<Value, EvalError> {
        match self {
            TestExtern::Show(f) => f.call(environment, current_expr, kind, ty, cache, answers),
            TestExtern::Describe => match &answers[0].core {
                ValueCore::String(text) => Ok(Value::new(ValueCore::String(format!("<{}>", text)), ty)),
                _ => Err(EvalError::InvalidExternArguments),
            },
        }
    }
}

fn plain_type(program: &mut Program, module: &str, name: &str) -> TypeDefId {
    let id = program.get_typedef_id();
    let adt = Adt {
        name: name.to_string(),
        module: module.to_string(),
        id,
        type_args: Vec::new(),
        variants: Vec::new(),
    };
    program.add_typedef(id, TypeDef::Adt(adt));
    program.named_types.push(NamedType { module: module.to_string(), name: name.to_string(), id });
    id
}

fn signature(program: &mut Program, signature: TypeSignature) -> TypeSignatureId {
    let id = program.get_type_signature_id();
    program.add_type_signature(id, ItemInfo::new(signature, LocationId { id: 0 }));
    id
}

fn expr(program: &mut Program, expr: Expr) -> ExprId {
    let id = program.get_expr_id();
    program.add_expr(id, ItemInfo::new(expr, LocationId { id: id.id + 1 }));
    id
}

fn function(
    program: &mut Program,
    module: &str,
    name: &str,
    arg_count: usize,
    body: Option<ExprId>,
    type_signature: Option<TypeSignatureId>,
) -> FunctionId {
    let id = program.get_function_id();
    let info = NamedFunctionInfo {
        body,
        module: module.to_string(),
        name: name.to_string(),
        type_signature,
        location_id: LocationId { id: 0 },
        kind: NamedFunctionKind::Free,
    };
    let function = Function {
        id,
        arg_locations: (0..arg_count).map(|_| LocationId { id: 0 }).collect(),
        implicit_arg_count: 0,
        info: FunctionInfo::NamedFunction(info),
    };
    program.add_function(id, function);
    id
}

/// `main = describe 42`, with `Show Int` given by the built-in `show`.
fn program() -> Program {
    let mut program = Program::new(TypeVarGenerator::new());
    let int_id = plain_type(&mut program, "Data.Int", "Int");
    let string_id = plain_type(&mut program, "Data.String", "String");
    let int = |p: &mut Program| signature(p, TypeSignature::Named("Int".to_string(), int_id, Vec::new()));
    let string =
        |p: &mut Program| signature(p, TypeSignature::Named("String".to_string(), string_id, Vec::new()));
    let from = int(&mut program);
    let to = string(&mut program);
    let show_signature = signature(&mut program, TypeSignature::Function(from, to));
    let int_show = function(&mut program, "Data.Int", "show", 1, None, Some(show_signature));
    let from = int(&mut program);
    let to = string(&mut program);
    let describe_signature = signature(&mut program, TypeSignature::Function(from, to));
    let describe = function(&mut program, "Std.Util", "describe", 1, None, Some(describe_signature));
    let class_id = ClassId { id: program.classes.get_id() };
    let member_id = ClassMemberId { id: program.class_members.get_id() };
    let arg = signature(&mut program, TypeSignature::TypeArgument(0, "a".to_string(), vec![class_id]));
    let result = string(&mut program);
    let member_signature = signature(&mut program, TypeSignature::Function(arg, result));
    program.class_members.add_item(
        member_id.id,
        ClassMember {
            id: member_id,
            class_id,
            name: "show".to_string(),
            type_signature: member_signature,
            default_implementation: None,
            location_id: LocationId { id: 0 },
        },
    );
    program.classes.add_item(
        class_id.id,
        Class {
            id: class_id,
            name: "Show".to_string(),
            type_arg: 0,
            members: vec![("show".to_string(), member_id)],
            constraints: Vec::new(),
            location_id: LocationId { id: 0 },
        },
    );
    program.class_names.push(("Show".to_string(), class_id));
    let head = int(&mut program);
    let instance_id = InstanceId { id: program.instances.get_id() };
    program.instances.add_item(
        instance_id.id,
        Instance {
            id: instance_id,
            class_id,
            type_signature: head,
            members: vec![("show".to_string(), InstanceMember { function_id: int_show })],
            location_id: LocationId { id: 0 },
        },
    );
    // A use of the class at integers, which files the instance for run time.
    let seven = expr(&mut program, Expr::IntegerLiteral(7));
    let shown = expr(&mut program, Expr::ClassFunctionCall(member_id, vec![seven]));
    function(&mut program, "Main", "user", 0, Some(shown), None);
    let number = expr(&mut program, Expr::IntegerLiteral(42));
    let body = expr(&mut program, Expr::StaticFunctionCall(describe, vec![number]));
    function(&mut program, "Main", "main", 0, Some(body), None);
    program
}

fn interpreter(with_describe: bool) -> Interpreter<TestExtern> {
    let mut program = program();
    match Typechecker::new().check(&mut program, DEPTH) {
        Ok(()) => {},
        Err(errors) => panic!("type errors: {:?}", errors),
    }
    let mut interpreter: Interpreter<TestExtern> = Interpreter::new(program, DEPTH);
    interpreter.add_extern_function("Data.Int", "show", TestExtern::Show(IntExtern::Show(IntShow {})));
    if with_describe {
        interpreter.add_extern_function("Std.Util", "describe", TestExtern::Describe);
    }
    interpreter.build_typedefid_cache();
    interpreter
}

#[test]
fn built_in_gets_the_answer_of_the_class_member_it_asks_for() {
    let interpreter = interpreter(true);
    assert!(interpreter.find_main().is_some());
    match interpreter.execute_main().unwrap().core {
        ValueCore::String(text) => assert_eq!(text, "<42>"),
        other => panic!("unexpected value {:?}", other),
    }
}

#[test]
fn built_in_that_is_not_registered_is_missing() {
    let interpreter = interpreter(false);
    assert!(interpreter.find_main().is_some());
    assert!(matches!(interpreter.execute_main().unwrap_err(), EvalError::MissingExtern(_)));
}
