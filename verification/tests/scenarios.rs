use siko::interpreter::data_int::register_extern_functions;
use siko::interpreter::data_int::IntExtern;
use siko::interpreter::environment::Environment;
use siko::interpreter::error::EvalError;
use siko::interpreter::interpreter::get_subtitution_context;
use siko::interpreter::interpreter::Interpreter;
use siko::interpreter::value::Callable;
use siko::interpreter::value::Value;
use siko::interpreter::value::ValueCore;
use siko::ir::class::Class;
use siko::ir::class::ClassId;
use siko::ir::class::ClassMember;
use siko::ir::class::ClassMemberId;
use siko::ir::class::Instance;
use siko::ir::class::InstanceId;
use siko::ir::class::InstanceMember;
use siko::ir::concrete::ConcreteType;
use siko::ir::concrete::SubstitutionContext;
use siko::ir::data::Adt;
use siko::ir::data::Record;
use siko::ir::data::RecordField;
use siko::ir::data::TypeDef;
use siko::ir::data::TypeDefId;
use siko::ir::data::Variant;
use siko::ir::data::VariantItem;
use siko::ir::expr::Case;
use siko::ir::expr::Expr;
use siko::ir::expr::ExprId;
use siko::ir::expr::FieldAccessInfo;
use siko::ir::expr::FunctionArgumentRef;
use siko::ir::function::Function;
use siko::ir::function::FunctionId;
use siko::ir::function::FunctionInfo;
use siko::ir::function::NamedFunctionInfo;
use siko::ir::function::NamedFunctionKind;
use siko::ir::function::RecordConstructorInfo;
use siko::ir::function::VariantConstructorInfo;
use siko::ir::pattern::Pattern;
use siko::ir::pattern::PatternId;
use siko::ir::program::NamedType;
use siko::ir::program::Program;
use siko::ir::type_signature::TypeSignature;
use siko::ir::type_signature::TypeSignatureId;
use siko::ir::type_var_generator::TypeVarGenerator;
use siko::ir::types::Type;
use siko::location_info::ItemInfo;
use siko::location_info::LocationId;
use siko::typechecker::error::TypecheckError;
use siko::typechecker::dependency_processor::build_call_graph;
use siko::typechecker::dependency_processor::collect_calls;
use siko::typechecker::dependency_processor::dependency_groups;
use siko::typechecker::dependency_processor::group_by_rank;
use siko::typechecker::dependency_processor::reachability;
use siko::typechecker::expression_checker::DependencyGroup;
use siko::typechecker::typechecker::Typechecker;

const DEPTH: usize = 400;

struct Builder {
    program: Program,
    next_location: usize,
    groups: Vec<DependencyGroup>,
    int_id: TypeDefId,
    bool_id: TypeDefId,
    string_id: TypeDefId,
}

impl Builder {
    fn new() -> Builder {
        let mut b = Builder {
            program: Program::new(TypeVarGenerator::new()),
            next_location: 1,
            groups: Vec::new(),
            int_id: TypeDefId { id: 0 },
            bool_id: TypeDefId { id: 0 },
            string_id: TypeDefId { id: 0 },
        };
        b.int_id = b.plain_type("Data.Int", "Int");
        b.bool_id = b.plain_type("Data.Bool", "Bool");
        b.string_id = b.plain_type("Data.String", "String");
        b.plain_type("Data.Float", "Float");
        b
    }

    fn location(&mut self) -> LocationId {
        let id = self.next_location;
        self.next_location += 1;
        LocationId { id }
    }

    fn plain_type(&mut self, module: &str, name: &str) -> TypeDefId {
        let id = TypeDefId { id: self.program.typedefs.get_id() };
        let adt = Adt {
            name: name.to_string(),
            module: module.to_string(),
            id,
            type_args: Vec::new(),
            variants: Vec::new(),
        };
        self.program.typedefs.add_item(id.id, TypeDef::Adt(adt));
        self.program.named_types.push(
            NamedType { module: module.to_string(), name: name.to_string(), id },
        );
        id
    }

    fn signature(&mut self, signature: TypeSignature) -> TypeSignatureId {
        let id = self.program.type_signatures.get_id();
        let location = self.location();
        self.program.type_signatures.add_item(id, ItemInfo::new(signature, location));
        TypeSignatureId { id }
    }

    fn named_signature(&mut self, name: &str, id: TypeDefId) -> TypeSignatureId {
        self.signature(TypeSignature::Named(name.to_string(), id, Vec::new()))
    }

    fn int_signature(&mut self) -> TypeSignatureId {
        let id = self.int_id;
        self.named_signature("Int", id)
    }

    fn bool_signature(&mut self) -> TypeSignatureId {
        let id = self.bool_id;
        self.named_signature("Bool", id)
    }

    fn string_signature(&mut self) -> TypeSignatureId {
        let id = self.string_id;
        self.named_signature("String", id)
    }

    fn function_signature(&mut self, parts: Vec<TypeSignatureId>) -> TypeSignatureId {
        let mut current = parts[parts.len() - 1];
        for part in parts[..parts.len() - 1].iter().rev() {
            current = self.signature(TypeSignature::Function(*part, current));
        }
        current
    }

    fn expr(&mut self, expr: Expr) -> ExprId {
        let id = self.program.exprs.get_id();
        let location = self.location();
        self.program.exprs.add_item(id, ItemInfo::new(expr, location));
        ExprId { id }
    }

    fn pattern(&mut self, pattern: Pattern) -> PatternId {
        let id = self.program.patterns.get_id();
        let location = self.location();
        self.program.patterns.add_item(id, ItemInfo::new(pattern, location));
        PatternId { id }
    }

    fn literal(&mut self, value: i64) -> ExprId {
        self.expr(Expr::IntegerLiteral(value))
    }

    fn arg(&mut self, function: FunctionId, index: usize) -> ExprId {
        self.expr(Expr::ArgRef(FunctionArgumentRef { captured: false, id: function, index }))
    }

    fn call(&mut self, function: FunctionId, args: Vec<ExprId>) -> ExprId {
        self.expr(Expr::StaticFunctionCall(function, args))
    }

    fn declare(&mut self) -> FunctionId {
        FunctionId { id: self.program.functions.get_id() }
    }

    fn define(
        &mut self,
        id: FunctionId,
        module: &str,
        name: &str,
        arg_count: usize,
        body: Option<ExprId>,
        type_signature: Option<TypeSignatureId>,
        kind: NamedFunctionKind,
    ) {
        let location_id = self.location();
        let info = NamedFunctionInfo {
            body,
            module: module.to_string(),
            name: name.to_string(),
            type_signature,
            location_id,
            kind,
        };
        let mut arg_locations = Vec::new();
        for _ in 0..arg_count {
            arg_locations.push(self.location());
        }
        let function = Function {
            id,
            arg_locations,
            implicit_arg_count: 0,
            info: FunctionInfo::NamedFunction(info),
        };
        self.program.functions.add_item(id.id, function);
    }

    fn int_extern(&mut self, name: &str, result: TypeSignatureId) -> FunctionId {
        let id = self.declare();
        let a = self.int_signature();
        let b = self.int_signature();
        let signature = self.function_signature(vec![a, b, result]);
        self.define(id, "Data.Int", name, 2, None, Some(signature), NamedFunctionKind::Free);
        id
    }

    fn group(&mut self, items: Vec<FunctionId>) {
        self.groups.push(DependencyGroup { items });
    }

    fn adt(&mut self, module: &str, name: &str, variants: Vec<(&str, Vec<TypeSignatureId>)>) -> TypeDefId {
        let id = TypeDefId { id: self.program.typedefs.get_id() };
        let mut ir_variants = Vec::new();
        for (index, (variant_name, items)) in variants.into_iter().enumerate() {
            let constructor = self.declare();
            let function = Function {
                id: constructor,
                arg_locations: items.iter().map(|_| LocationId { id: 0 }).collect(),
                implicit_arg_count: 0,
                info: FunctionInfo::VariantConstructor(VariantConstructorInfo { type_id: id, index }),
            };
            self.program.functions.add_item(constructor.id, function);
            let type_signature_id = self.signature(
                TypeSignature::Variant(variant_name.to_string(), items.clone()),
            );
            ir_variants.push(
                Variant {
                    name: variant_name.to_string(),
                    items: items
                        .iter()
                        .map(|i| VariantItem { type_signature_id: *i })
                        .collect(),
                    type_signature_id,
                    constructor,
                },
            );
        }
        let adt = Adt {
            name: name.to_string(),
            module: module.to_string(),
            id,
            type_args: Vec::new(),
            variants: ir_variants,
        };
        self.program.typedefs.add_item(id.id, TypeDef::Adt(adt));
        self.program.named_types.push(
            NamedType { module: module.to_string(), name: name.to_string(), id },
        );
        id
    }

    fn record(&mut self, module: &str, name: &str, fields: Vec<(&str, TypeSignatureId)>) -> TypeDefId {
        let id = TypeDefId { id: self.program.typedefs.get_id() };
        let constructor = self.declare();
        let function = Function {
            id: constructor,
            arg_locations: fields.iter().map(|_| LocationId { id: 0 }).collect(),
            implicit_arg_count: 0,
            info: FunctionInfo::RecordConstructor(RecordConstructorInfo { type_id: id }),
        };
        self.program.functions.add_item(constructor.id, function);
        let location_id = self.location();
        let record = Record {
            name: name.to_string(),
            module: module.to_string(),
            id,
            type_args: Vec::new(),
            fields: fields
                .into_iter()
                .map(|(n, s)| RecordField { name: n.to_string(), type_signature_id: s })
                .collect(),
            constructor,
            location_id,
        };
        self.program.typedefs.add_item(id.id, TypeDef::Record(record));
        self.program.named_types.push(
            NamedType { module: module.to_string(), name: name.to_string(), id },
        );
        id
    }

    fn class(&mut self, name: &str) -> ClassId {
        let id = ClassId { id: self.program.classes.get_id() };
        let location_id = self.location();
        let class = Class {
            id,
            name: name.to_string(),
            type_arg: 0,
            members: Vec::new(),
            constraints: Vec::new(),
            location_id,
        };
        self.program.classes.add_item(id.id, class);
        self.program.class_names.push((name.to_string(), id));
        id
    }

    /// A member of type `a -> a -> result`, or `a -> result`, of a class
    /// whose argument is `a`.
    fn member(
        &mut self,
        class_id: ClassId,
        name: &str,
        arg_count: usize,
        result: TypeSignatureId,
        default_implementation: Option<FunctionId>,
    ) -> ClassMemberId {
        let id = ClassMemberId { id: self.program.class_members.get_id() };
        let mut parts = Vec::new();
        for _ in 0..arg_count {
            parts.push(
                self.signature(TypeSignature::TypeArgument(0, "a".to_string(), vec![class_id])),
            );
        }
        parts.push(result);
        let type_signature = self.function_signature(parts);
        let location_id = self.location();
        let member = ClassMember {
            id,
            class_id,
            name: name.to_string(),
            type_signature,
            default_implementation,
            location_id,
        };
        self.program.class_members.add_item(id.id, member);
        let mut class = self.program.classes.get(class_id.id).unwrap().clone();
        class.members.push((name.to_string(), id));
        self.program.classes.add_item(class_id.id, class);
        id
    }

    fn instance(&mut self, class_id: ClassId, head: TypeSignatureId, members: Vec<(&str, FunctionId)>) -> InstanceId {
        let id = InstanceId { id: self.program.instances.get_id() };
        let location_id = self.location();
        let instance = Instance {
            id,
            class_id,
            type_signature: head,
            members: members
                .into_iter()
                .map(|(n, f)| (n.to_string(), InstanceMember { function_id: f }))
                .collect(),
            location_id,
        };
        self.program.instances.add_item(id.id, instance);
        id
    }

    fn check(&mut self) -> Result<(), Vec<TypecheckError>> {
        let checker = Typechecker::new();
        checker.check_with_groups(&mut self.program, &self.groups, DEPTH)
    }

    fn run(self) -> Result<Value, EvalError> {
        let (_, result) = Interpreter::<IntExtern>::run(self.program, DEPTH);
        result
    }
}

fn expect_ok(result: Result<(), Vec<TypecheckError>>) {
    match result {
        Ok(()) => {},
        Err(errors) => panic!("type errors: {:?}", errors),
    }
}

#[test]
fn partial_application_adds_later_argument() {
    let mut b = Builder::new();
    let int_type = b.int_signature();
    let int_add = b.int_extern("opAdd", int_type);
    let add = b.declare();
    let x = b.arg(add, 0);
    let y = b.arg(add, 1);
    let add_body = b.call(int_add, vec![x, y]);
    b.define(add, "Main", "add", 2, Some(add_body), None, NamedFunctionKind::Free);
    let inc = b.declare();
    let one = b.literal(1);
    let inc_body = b.call(add, vec![one]);
    b.define(inc, "Main", "inc", 0, Some(inc_body), None, NamedFunctionKind::Free);
    let main = b.declare();
    let inc_value = b.call(inc, vec![]);
    let two = b.literal(2);
    let main_body = b.expr(Expr::DynamicFunctionCall(inc_value, vec![two]));
    b.define(main, "Main", "main", 0, Some(main_body), None, NamedFunctionKind::Free);
    b.group(vec![add]);
    b.group(vec![inc]);
    b.group(vec![main]);
    expect_ok(b.check());
    let value = b.run().unwrap();
    assert!(matches!(value.core, ValueCore::Int(3)));
}

#[test]
fn recursive_factorial_of_five() {
    let mut b = Builder::new();
    let int_type = b.int_signature();
    let int_mul = b.int_extern("opMul", int_type);
    let int_type2 = b.int_signature();
    let int_sub = b.int_extern("opSub", int_type2);
    let fact = b.declare();
    let n = b.arg(fact, 0);
    let zero_pattern = b.pattern(Pattern::IntegerLiteral(0));
    let one = b.literal(1);
    let other_pattern = b.pattern(Pattern::Wildcard);
    let n1 = b.arg(fact, 0);
    let n2 = b.arg(fact, 0);
    let one2 = b.literal(1);
    let n_minus = b.call(int_sub, vec![n2, one2]);
    let rec = b.call(fact, vec![n_minus]);
    let product = b.call(int_mul, vec![n1, rec]);
    let body = b.expr(
        Expr::CaseOf(
            n,
            vec![
                Case { pattern_id: zero_pattern, body: one },
                Case { pattern_id: other_pattern, body: product },
            ],
        ),
    );
    b.define(fact, "Main", "fact", 1, Some(body), None, NamedFunctionKind::Free);
    let main = b.declare();
    let five = b.literal(5);
    let main_body = b.call(fact, vec![five]);
    b.define(main, "Main", "main", 0, Some(main_body), None, NamedFunctionKind::Free);
    b.group(vec![fact]);
    b.group(vec![main]);
    expect_ok(b.check());
    let value = b.run().unwrap();
    assert!(matches!(value.core, ValueCore::Int(120)));
}

fn bool_literal(b: &mut Builder, value: bool) -> ExprId {
    b.expr(Expr::BoolLiteral(value))
}

/// `not x = if x then False else True`
fn define_not(b: &mut Builder) -> FunctionId {
    let not = b.declare();
    let x = b.arg(not, 0);
    let no = bool_literal(b, false);
    let yes = bool_literal(b, true);
    let body = b.expr(Expr::If(x, no, yes));
    b.define(not, "Main", "not", 1, Some(body), None, NamedFunctionKind::Free);
    b.group(vec![not]);
    not
}

#[test]
fn polymorphic_identity_compares_equal() {
    let mut b = Builder::new();
    let bool_type = b.bool_signature();
    let int_eq = b.int_extern("opEq", bool_type);
    let partial_eq = b.class("PartialEq");
    let result = b.bool_signature();
    let op_eq = b.member(partial_eq, "opEq", 2, result, None);
    let head = b.int_signature();
    b.instance(partial_eq, head, vec![("opEq", int_eq)]);
    let id = b.declare();
    let x = b.arg(id, 0);
    b.define(id, "Main", "id", 1, Some(x), None, NamedFunctionKind::Free);
    let main = b.declare();
    let forty_two = b.literal(42);
    let left = b.call(id, vec![forty_two]);
    let right = b.literal(42);
    let body = b.expr(Expr::ClassFunctionCall(op_eq, vec![left, right]));
    b.define(main, "Main", "main", 0, Some(body), None, NamedFunctionKind::Free);
    b.group(vec![id]);
    b.group(vec![main]);
    expect_ok(b.check());
    let value = b.run().unwrap();
    assert!(matches!(value.core, ValueCore::Bool(true)));
}

fn eq_class_program(call_ne: bool, left: i64, right: i64) -> Builder {
    let mut b = Builder::new();
    let not = define_not(&mut b);
    let bool_type = b.bool_signature();
    let int_eq = b.int_extern("opEq", bool_type);
    let eq_class = b.class("Eq");
    let eq_default = b.declare();
    let ne_default = b.declare();
    let eq_result = b.bool_signature();
    let eq = b.member(eq_class, "eq", 2, eq_result, Some(eq_default));
    let ne_result = b.bool_signature();
    let ne = b.member(eq_class, "ne", 2, ne_result, Some(ne_default));
    // eq x y = not (ne x y)
    let x = b.arg(eq_default, 0);
    let y = b.arg(eq_default, 1);
    let inner = b.expr(Expr::ClassFunctionCall(ne, vec![x, y]));
    let eq_body = b.call(not, vec![inner]);
    let eq_signature = b.program.class_members.get(eq.id).unwrap().type_signature;
    b.define(
        eq_default,
        "Main",
        "eq",
        2,
        Some(eq_body),
        Some(eq_signature),
        NamedFunctionKind::DefaultClassMember(eq),
    );
    // ne x y = not (eq x y)
    let x = b.arg(ne_default, 0);
    let y = b.arg(ne_default, 1);
    let inner = b.expr(Expr::ClassFunctionCall(eq, vec![x, y]));
    let ne_body = b.call(not, vec![inner]);
    let ne_signature = b.program.class_members.get(ne.id).unwrap().type_signature;
    b.define(
        ne_default,
        "Main",
        "ne",
        2,
        Some(ne_body),
        Some(ne_signature),
        NamedFunctionKind::DefaultClassMember(ne),
    );
    // instance Eq Int where eq x y = intEq x y
    let int_eq_member = b.declare();
    let x = b.arg(int_eq_member, 0);
    let y = b.arg(int_eq_member, 1);
    let body = b.call(int_eq, vec![x, y]);
    b.define(int_eq_member, "Main", "eq", 2, Some(body), None, NamedFunctionKind::InstanceMember);
    let head = b.int_signature();
    b.instance(eq_class, head, vec![("eq", int_eq_member)]);
    let main = b.declare();
    let l = b.literal(left);
    let r = b.literal(right);
    let member = if call_ne { ne } else { eq };
    let body = b.expr(Expr::ClassFunctionCall(member, vec![l, r]));
    b.define(main, "Main", "main", 0, Some(body), None, NamedFunctionKind::Free);
    b.group(vec![int_eq_member]);
    b.group(vec![eq_default, ne_default]);
    b.group(vec![main]);
    b
}

#[test]
fn class_dispatch_uses_instance_member() {
    let mut b = eq_class_program(false, 1, 1);
    expect_ok(b.check());
    let value = b.run().unwrap();
    assert!(matches!(value.core, ValueCore::Bool(true)));
}

#[test]
fn class_dispatch_falls_back_to_default() {
    let mut b = eq_class_program(true, 1, 2);
    expect_ok(b.check());
    let value = b.run().unwrap();
    assert!(matches!(value.core, ValueCore::Bool(true)));
    let mut b = eq_class_program(true, 2, 2);
    expect_ok(b.check());
    let value = b.run().unwrap();
    assert!(matches!(value.core, ValueCore::Bool(false)));
}

#[test]
fn ambiguous_field_names_both_records() {
    let mut b = Builder::new();
    let int_type = b.int_signature();
    let a = b.record("Main", "A", vec![("x", int_type)]);
    let string_type = b.string_signature();
    let other = b.record("Main", "B", vec![("x", string_type)]);
    let f = b.declare();
    let r = b.arg(f, 0);
    let access = b.expr(
        Expr::FieldAccess(
            vec![
                FieldAccessInfo { record_id: a, index: 0 },
                FieldAccessInfo { record_id: other, index: 0 },
            ],
            r,
        ),
    );
    b.define(f, "Main", "f", 1, Some(access), None, NamedFunctionKind::Free);
    let main = b.declare();
    let unit = b.expr(Expr::Tuple(vec![]));
    b.define(main, "Main", "main", 0, Some(unit), None, NamedFunctionKind::Free);
    b.group(vec![f]);
    b.group(vec![main]);
    let errors = b.check().unwrap_err();
    assert_eq!(errors.len(), 1);
    match &errors[0] {
        TypecheckError::AmbiguousFieldAccess(_, records) => {
            assert_eq!(records, &vec!["A".to_string(), "B".to_string()]);
        },
        e => panic!("unexpected error {:?}", e),
    }
}

#[test]
fn case_with_guard_picks_first_match() {
    let mut b = Builder::new();
    let ordering = b.adt(
        "Data.Ordering",
        "Ordering",
        vec![("Less", vec![]), ("Equal", vec![]), ("Greater", vec![])],
    );
    let item = b.signature(TypeSignature::TypeArgument(0, "a".to_string(), vec![]));
    b.adt("Data.Option", "Option", vec![("Some", vec![item]), ("None", vec![])]);
    let ordering_signature = b.named_signature("Ordering", ordering);
    let int_cmp = b.int_extern("cmp", ordering_signature);
    // greater x y = case cmp x y of Greater -> True; _ -> False
    let greater = b.declare();
    let x = b.arg(greater, 0);
    let y = b.arg(greater, 1);
    let compared = b.call(int_cmp, vec![x, y]);
    let is_greater = b.pattern(Pattern::Variant(ordering, 2, vec![]));
    let yes = bool_literal(&mut b, true);
    let otherwise = b.pattern(Pattern::Wildcard);
    let no = bool_literal(&mut b, false);
    let body = b.expr(
        Expr::CaseOf(
            compared,
            vec![
                Case { pattern_id: is_greater, body: yes },
                Case { pattern_id: otherwise, body: no },
            ],
        ),
    );
    b.define(greater, "Main", "greater", 2, Some(body), None, NamedFunctionKind::Free);
    // main: 5 is matched against `x` guarded by `x > 3`, then against `_`.
    let main = b.declare();
    let five = b.literal(5);
    let binding = b.pattern(Pattern::Binding("x".to_string()));
    let bound = b.expr(Expr::ExprValue(five, binding));
    let three = b.literal(3);
    let guard = b.call(greater, vec![bound, three]);
    let guarded = b.pattern(Pattern::Guarded(binding, guard));
    let big = b.expr(Expr::StringLiteral("big".to_string()));
    let wildcard = b.pattern(Pattern::Wildcard);
    let small = b.expr(Expr::StringLiteral("small".to_string()));
    let body = b.expr(
        Expr::CaseOf(
            five,
            vec![Case { pattern_id: guarded, body: big }, Case { pattern_id: wildcard, body: small }],
        ),
    );
    b.define(main, "Main", "main", 0, Some(body), None, NamedFunctionKind::Free);
    b.group(vec![greater]);
    b.group(vec![main]);
    expect_ok(b.check());
    let value = b.run().unwrap();
    match value.core {
        ValueCore::String(s) => assert_eq!(s, "big"),
        other => panic!("unexpected value {:?}", other),
    }
}

#[test]
fn formatter_shows_arguments_in_order() {
    let mut b = Builder::new();
    let string_type = b.string_signature();
    let int_show = b.declare();
    let int_type = b.int_signature();
    let show_signature = b.function_signature(vec![int_type, string_type]);
    b.define(int_show, "Data.Int", "show", 1, None, Some(show_signature), NamedFunctionKind::Free);
    let show_class = b.class("Show");
    let result = b.string_signature();
    b.member(show_class, "show", 1, result, None);
    let head = b.int_signature();
    b.instance(show_class, head, vec![("show", int_show)]);
    let main = b.declare();
    let one = b.literal(1);
    let minus = b.literal(-20);
    let body = b.expr(Expr::Formatter("a{}b{}c".to_string(), vec![one, minus]));
    b.define(main, "Main", "main", 0, Some(body), None, NamedFunctionKind::Free);
    // The format needs `show` at integers: a use of the class at that type.
    let user = b.declare();
    let seven = b.literal(7);
    let member = b.program.classes.get(show_class.id).unwrap().members[0].1;
    let shown = b.expr(Expr::ClassFunctionCall(member, vec![seven]));
    b.define(user, "Main", "user", 0, Some(shown), None, NamedFunctionKind::Free);
    b.group(vec![user]);
    b.group(vec![main]);
    expect_ok(b.check());
    let value = b.run().unwrap();
    match value.core {
        ValueCore::String(s) => assert_eq!(s, "a1b-20c"),
        other => panic!("unexpected value {:?}", other),
    }
}

#[test]
fn format_with_wrong_argument_count_is_reported() {
    let mut b = Builder::new();
    let main = b.declare();
    let one = b.literal(1);
    let body = b.expr(Expr::Formatter("{} and {}".to_string(), vec![one]));
    b.define(main, "Main", "main", 0, Some(body), None, NamedFunctionKind::Free);
    b.group(vec![main]);
    let errors = b.check().unwrap_err();
    assert!(errors.iter().any(|e| matches!(e, TypecheckError::InvalidFormatString(_))));
}

#[test]
fn if_with_mismatched_branches_is_reported() {
    let mut b = Builder::new();
    let main = b.declare();
    let cond = bool_literal(&mut b, true);
    let one = b.literal(1);
    let text = b.expr(Expr::StringLiteral("x".to_string()));
    let body = b.expr(Expr::If(cond, one, text));
    b.define(main, "Main", "main", 0, Some(body), None, NamedFunctionKind::Free);
    b.group(vec![main]);
    let errors = b.check().unwrap_err();
    assert_eq!(errors.len(), 1);
    match &errors[0] {
        TypecheckError::TypeMismatch(_, expected, found) => {
            assert_eq!(expected, "Int");
            assert_eq!(found, "String");
        },
        other => panic!("unexpected error {:?}", other),
    }
}

#[test]
fn call_with_too_many_arguments_is_reported() {
    let mut b = Builder::new();
    let int_type = b.int_signature();
    let int_add = b.int_extern("opAdd", int_type);
    let main = b.declare();
    let one = b.literal(1);
    let two = b.literal(2);
    let three = b.literal(3);
    let body = b.call(int_add, vec![one, two, three]);
    b.define(main, "Main", "main", 0, Some(body), None, NamedFunctionKind::Free);
    b.group(vec![main]);
    let errors = b.check().unwrap_err();
    assert_eq!(errors.len(), 1);
    assert!(matches!(errors[0], TypecheckError::FunctionArgumentMismatch(_, _, _)));
}

#[test]
fn missing_main_is_reported() {
    let mut b = Builder::new();
    let f = b.declare();
    let one = b.literal(1);
    b.define(f, "Main", "f", 0, Some(one), None, NamedFunctionKind::Free);
    b.group(vec![f]);
    let errors = b.check().unwrap_err();
    assert_eq!(errors.len(), 1);
    assert!(matches!(errors[0], TypecheckError::MainNotFound));
}

#[test]
fn missing_instance_is_reported() {
    let mut b = Builder::new();
    let show_class = b.class("Show");
    let result = b.string_signature();
    let show = b.member(show_class, "show", 1, result, None);
    let main = b.declare();
    let one = b.literal(1);
    let body = b.expr(Expr::ClassFunctionCall(show, vec![one]));
    b.define(main, "Main", "main", 0, Some(body), None, NamedFunctionKind::Free);
    b.group(vec![main]);
    let errors = b.check().unwrap_err();
    assert_eq!(errors.len(), 1);
    match &errors[0] {
        TypecheckError::MissingInstance(class, ty, _) => {
            assert_eq!(class, "Show");
            assert_eq!(ty.as_string(), "Int");
        },
        e => panic!("unexpected error {:?}", e),
    }
}

#[test]
fn conflicting_instances_are_reported() {
    let mut b = Builder::new();
    let bool_type = b.bool_signature();
    let int_eq = b.int_extern("opEq", bool_type);
    let class = b.class("PartialEq");
    let result = b.bool_signature();
    b.member(class, "opEq", 2, result, None);
    let head = b.int_signature();
    b.instance(class, head, vec![("opEq", int_eq)]);
    let head2 = b.int_signature();
    b.instance(class, head2, vec![("opEq", int_eq)]);
    let main = b.declare();
    let unit = b.expr(Expr::Tuple(vec![]));
    b.define(main, "Main", "main", 0, Some(unit), None, NamedFunctionKind::Free);
    b.group(vec![main]);
    let errors = b.check().unwrap_err();
    assert_eq!(errors.len(), 1);
    match &errors[0] {
        TypecheckError::ConflictingInstances(class, _, _) => assert_eq!(class, "PartialEq"),
        other => panic!("unexpected error {:?}", other),
    }
}

#[test]
fn non_exhaustive_case_ends_in_error() {
    let mut b = Builder::new();
    let main = b.declare();
    let five = b.literal(5);
    let zero = b.pattern(Pattern::IntegerLiteral(0));
    let one = b.literal(1);
    let body = b.expr(Expr::CaseOf(five, vec![Case { pattern_id: zero, body: one }]));
    b.define(main, "Main", "main", 0, Some(body), None, NamedFunctionKind::Free);
    b.group(vec![main]);
    expect_ok(b.check());
    let result = b.run();
    assert_eq!(result.unwrap_err(), EvalError::NoMatchingCase(body));
}

#[test]
fn endless_recursion_hits_the_depth_limit() {
    let mut b = Builder::new();
    let f = b.declare();
    let x = b.arg(f, 0);
    let again = b.call(f, vec![x]);
    b.define(f, "Main", "f", 1, Some(again), None, NamedFunctionKind::Free);
    let main = b.declare();
    let one = b.literal(1);
    let body = b.call(f, vec![one]);
    b.define(main, "Main", "main", 0, Some(body), None, NamedFunctionKind::Free);
    b.group(vec![f]);
    b.group(vec![main]);
    // The result of `f` is never constrained: give `main` the unit type by a block.
    let _ = b.check();
    let result = b.run();
    assert!(result.is_err());
}

#[test]
fn division_by_zero_is_an_error() {
    let mut b = Builder::new();
    let int_type = b.int_signature();
    let int_div = b.int_extern("opDiv", int_type);
    let main = b.declare();
    let one = b.literal(1);
    let zero = b.literal(0);
    let body = b.call(int_div, vec![one, zero]);
    b.define(main, "Main", "main", 0, Some(body), None, NamedFunctionKind::Free);
    b.group(vec![main]);
    expect_ok(b.check());
    assert_eq!(b.run().unwrap_err(), EvalError::DivisionByZero);
}

#[test]
fn division_rounds_towards_zero() {
    for (l, r, q) in [(7i64, 2i64, 3i64), (-7, 2, -3), (7, -2, -3), (-7, -2, 3), (0, 5, 0)] {
        let mut b = Builder::new();
        let int_type = b.int_signature();
        let int_div = b.int_extern("opDiv", int_type);
        let main = b.declare();
        let left = b.literal(l);
        let right = b.literal(r);
        let body = b.call(int_div, vec![left, right]);
        b.define(main, "Main", "main", 0, Some(body), None, NamedFunctionKind::Free);
        b.group(vec![main]);
        expect_ok(b.check());
        let value = b.run().unwrap();
        match value.core {
            ValueCore::Int(v) => assert_eq!(v, q),
            other => panic!("unexpected value {:?}", other),
        }
    }
}

#[test]
fn addition_overflow_is_an_error() {
    let mut b = Builder::new();
    let int_type = b.int_signature();
    let int_add = b.int_extern("opAdd", int_type);
    let main = b.declare();
    let big = b.literal(i64::MAX);
    let one = b.literal(1);
    let body = b.call(int_add, vec![big, one]);
    b.define(main, "Main", "main", 0, Some(body), None, NamedFunctionKind::Free);
    b.group(vec![main]);
    expect_ok(b.check());
    assert_eq!(b.run().unwrap_err(), EvalError::IntegerOverflow);
}

#[test]
fn record_construction_and_field_access() {
    let mut b = Builder::new();
    let int_type = b.int_signature();
    let string_type = b.string_signature();
    let point = b.record("Main", "P", vec![("x", int_type), ("name", string_type)]);
    let constructor = match b.program.typedefs.get(point.id).unwrap() {
        TypeDef::Record(r) => r.constructor,
        _ => unreachable!(),
    };
    let main = b.declare();
    let seven = b.literal(7);
    let text = b.expr(Expr::StringLiteral("p".to_string()));
    let made = b.call(constructor, vec![seven, text]);
    let access = b.expr(Expr::FieldAccess(vec![FieldAccessInfo { record_id: point, index: 0 }], made));
    b.define(main, "Main", "main", 0, Some(access), None, NamedFunctionKind::Free);
    b.group(vec![main]);
    expect_ok(b.check());
    let value = b.run().unwrap();
    assert!(matches!(value.core, ValueCore::Int(7)));
}

#[test]
fn tuple_pattern_binds_items_and_block_returns_last() {
    let mut b = Builder::new();
    let main = b.declare();
    let one = b.literal(1);
    let two = b.literal(2);
    let pair = b.expr(Expr::Tuple(vec![one, two]));
    let first = b.pattern(Pattern::Binding("a".to_string()));
    let second = b.pattern(Pattern::Binding("b".to_string()));
    let tuple_pattern = b.pattern(Pattern::Tuple(vec![first, second]));
    let bind = b.expr(Expr::Bind(tuple_pattern, pair));
    let value = b.expr(Expr::ExprValue(two, second));
    let block = b.expr(Expr::Do(vec![bind, value]));
    b.define(main, "Main", "main", 0, Some(block), None, NamedFunctionKind::Free);
    b.group(vec![main]);
    expect_ok(b.check());
    let value = b.run().unwrap();
    assert!(matches!(value.core, ValueCore::Int(2)));
}

/// `add x y = x + y` with `main = add 1 2`, and the id of `add`.
fn add_program() -> (Builder, FunctionId) {
    let mut b = Builder::new();
    let int_type = b.int_signature();
    let int_add = b.int_extern("opAdd", int_type);
    let add = b.declare();
    let x = b.arg(add, 0);
    let y = b.arg(add, 1);
    let add_body = b.call(int_add, vec![x, y]);
    b.define(add, "Main", "add", 2, Some(add_body), None, NamedFunctionKind::Free);
    let main = b.declare();
    let one = b.literal(1);
    let two = b.literal(2);
    let main_body = b.call(add, vec![one, two]);
    b.define(main, "Main", "main", 0, Some(main_body), None, NamedFunctionKind::Free);
    b.group(vec![add]);
    b.group(vec![main]);
    (b, add)
}

fn attached_types(program: &Program) -> Vec<String> {
    let mut found = Vec::new();
    for entry in program.expr_types.items.iter() {
        found.push(format!("{:?}", entry));
    }
    for entry in program.function_types.items.iter() {
        found.push(format!("{:?}", entry));
    }
    for entry in program.class_member_types.items.iter() {
        found.push(format!("{:?}", entry));
    }
    found
}

#[test]
fn second_check_attaches_the_same_types() {
    let mut b = eq_class_program(true, 1, 2);
    expect_ok(b.check());
    let first = attached_types(&b.program);
    assert!(first.iter().any(|entry| entry != "None"));
    expect_ok(b.check());
    let second = attached_types(&b.program);
    assert_eq!(first, second);
}

#[test]
fn two_checks_of_one_program_agree() {
    let (mut first, _) = add_program();
    let (mut second, _) = add_program();
    expect_ok(first.check());
    expect_ok(second.check());
    assert_eq!(attached_types(&first.program), attached_types(&second.program));
}

#[test]
fn failed_check_leaves_the_program_without_types() {
    let mut b = Builder::new();
    let main = b.declare();
    let cond = b.literal(1);
    let one = b.literal(1);
    let two = b.literal(2);
    let body = b.expr(Expr::If(cond, one, two));
    b.define(main, "Main", "main", 0, Some(body), None, NamedFunctionKind::Free);
    b.group(vec![main]);
    assert!(b.check().is_err());
    assert_eq!(b.program.expr_types.items.len(), 0);
    assert_eq!(b.program.function_types.items.len(), 0);
}

fn int_value(b: &Builder, value: i64) -> Value {
    Value::new(ValueCore::Int(value), ConcreteType::Named("Int".to_string(), b.int_id, Vec::new()))
}

fn pair_value(b: &Builder, first: i64, second: i64) -> Value {
    let int_type = ConcreteType::Named("Int".to_string(), b.int_id, Vec::new());
    Value::new(
        ValueCore::Tuple(vec![int_value(b, first), int_value(b, second)]),
        ConcreteType::Tuple(vec![int_type.copy(), int_type]),
    )
}

#[test]
fn failed_match_leaves_the_environment_as_it_was() {
    let mut b = Builder::new();
    let earlier = b.pattern(Pattern::Binding("e".to_string()));
    let first = b.pattern(Pattern::Binding("a".to_string()));
    let second = b.pattern(Pattern::IntegerLiteral(5));
    let tuple_pattern = b.pattern(Pattern::Tuple(vec![first, second]));
    let value = pair_value(&b, 1, 2);
    let kept = int_value(&b, 9);
    let interpreter: Interpreter<IntExtern> = Interpreter::new(b.program, DEPTH);
    let mut environment = Environment::new(FunctionId { id: 0 }, Vec::new(), 0);
    environment.add(earlier, kept);
    let context = SubstitutionContext::new();
    let matched = interpreter.match_pattern(&tuple_pattern, &value, &mut environment, &context, DEPTH);
    assert_eq!(matched, Ok(false));
    assert_eq!(environment.bindings.len(), 1);
    assert!(environment.get_value(first).is_none());
    assert!(matches!(environment.get_value(earlier).unwrap().core, ValueCore::Int(9)));
}

#[test]
fn successful_match_binds_the_parts() {
    let mut b = Builder::new();
    let first = b.pattern(Pattern::Binding("a".to_string()));
    let second = b.pattern(Pattern::IntegerLiteral(2));
    let tuple_pattern = b.pattern(Pattern::Tuple(vec![first, second]));
    let value = pair_value(&b, 1, 2);
    let interpreter: Interpreter<IntExtern> = Interpreter::new(b.program, DEPTH);
    let mut environment = Environment::new(FunctionId { id: 0 }, Vec::new(), 0);
    let context = SubstitutionContext::new();
    let matched = interpreter.match_pattern(&tuple_pattern, &value, &mut environment, &context, DEPTH);
    assert_eq!(matched, Ok(true));
    assert!(matches!(environment.get_value(first).unwrap().core, ValueCore::Int(1)));
}

#[test]
fn tuple_pattern_with_too_many_parts_is_an_error() {
    let mut b = Builder::new();
    let first = b.pattern(Pattern::Binding("a".to_string()));
    let second = b.pattern(Pattern::Wildcard);
    let third = b.pattern(Pattern::Wildcard);
    let tuple_pattern = b.pattern(Pattern::Tuple(vec![first, second, third]));
    let value = pair_value(&b, 1, 2);
    let interpreter: Interpreter<IntExtern> = Interpreter::new(b.program, DEPTH);
    let mut environment = Environment::new(FunctionId { id: 0 }, Vec::new(), 0);
    let context = SubstitutionContext::new();
    let matched = interpreter.match_pattern(&tuple_pattern, &value, &mut environment, &context, DEPTH);
    assert_eq!(matched, Err(EvalError::InvalidPattern(tuple_pattern)));
}

#[test]
fn tuple_pattern_matches_the_leading_items() {
    let mut b = Builder::new();
    let first = b.pattern(Pattern::Binding("a".to_string()));
    let tuple_pattern = b.pattern(Pattern::Tuple(vec![first]));
    let value = pair_value(&b, 1, 2);
    let interpreter: Interpreter<IntExtern> = Interpreter::new(b.program, DEPTH);
    let mut environment = Environment::new(FunctionId { id: 0 }, Vec::new(), 0);
    let context = SubstitutionContext::new();
    let matched = interpreter.match_pattern(&tuple_pattern, &value, &mut environment, &context, DEPTH);
    assert_eq!(matched, Ok(true));
    assert_eq!(environment.bindings.len(), 1);
}

#[test]
fn pattern_of_another_kind_does_not_match() {
    let mut b = Builder::new();
    let literal = b.pattern(Pattern::IntegerLiteral(1));
    let text = b.pattern(Pattern::StringLiteral("1".to_string()));
    let tuple_pattern = b.pattern(Pattern::Tuple(vec![literal]));
    let one = int_value(&b, 1);
    let interpreter: Interpreter<IntExtern> = Interpreter::new(b.program, DEPTH);
    let mut environment = Environment::new(FunctionId { id: 0 }, Vec::new(), 0);
    let context = SubstitutionContext::new();
    assert_eq!(interpreter.match_pattern(&literal, &one, &mut environment, &context, DEPTH), Ok(true));
    assert_eq!(interpreter.match_pattern(&text, &one, &mut environment, &context, DEPTH), Ok(false));
    assert_eq!(
        interpreter.match_pattern(&tuple_pattern, &one, &mut environment, &context, DEPTH),
        Ok(false)
    );
    assert_eq!(
        interpreter.match_pattern(&literal, &one, &mut environment, &context, 0),
        Err(EvalError::DepthLimitExceeded)
    );
    assert_eq!(environment.bindings.len(), 0);
}

fn add_callable(b: &Builder, add: FunctionId) -> Value {
    let int_type = ConcreteType::Named("Int".to_string(), b.int_id, Vec::new());
    let ty = ConcreteType::Function(
        Box::new(int_type.copy()),
        Box::new(ConcreteType::Function(Box::new(int_type.copy()), Box::new(int_type))),
    );
    Value::new(
        ValueCore::Callable(
            Callable { function_id: add, values: Vec::new(), sub_context: SubstitutionContext::new() },
        ),
        ty,
    )
}

#[test]
fn applying_in_two_steps_equals_applying_at_once() {
    let (mut b, add) = add_program();
    expect_ok(b.check());
    let callable = add_callable(&b, add);
    let again = add_callable(&b, add);
    let four = int_value(&b, 4);
    let five = int_value(&b, 5);
    let mut interpreter: Interpreter<IntExtern> = Interpreter::new(b.program, DEPTH);
    register_extern_functions(&mut interpreter);
    interpreter.build_typedefid_cache();
    let partial = interpreter.call(callable, vec![four.copy()], None, DEPTH).unwrap();
    match &partial.core {
        ValueCore::Callable(held) => assert_eq!(held.values.len(), 1),
        other => panic!("unexpected value {:?}", other),
    }
    let in_steps = interpreter.call(partial, vec![five.copy()], None, DEPTH).unwrap();
    let at_once = interpreter.call(again, vec![four, five], None, DEPTH).unwrap();
    assert!(matches!(in_steps.core, ValueCore::Int(9)));
    assert!(matches!(at_once.core, ValueCore::Int(9)));
}

#[test]
fn calling_what_is_no_function_is_an_error() {
    let (mut b, _) = add_program();
    expect_ok(b.check());
    let three = int_value(&b, 3);
    let four = int_value(&b, 4);
    let interpreter: Interpreter<IntExtern> = Interpreter::new(b.program, DEPTH);
    assert_eq!(interpreter.call(three, vec![four], None, DEPTH).unwrap_err(), EvalError::NotCallable);
}

fn binary_int_main(name: &str, result: TypeSignatureId, b: &mut Builder, left: i64, right: i64) {
    let function = b.int_extern(name, result);
    let main = b.declare();
    let l = b.literal(left);
    let r = b.literal(right);
    let body = b.call(function, vec![l, r]);
    b.define(main, "Main", "main", 0, Some(body), None, NamedFunctionKind::Free);
    b.group(vec![main]);
}

#[test]
fn integer_subtraction_gives_the_difference() {
    let mut b = Builder::new();
    let result = b.int_signature();
    binary_int_main("opSub", result, &mut b, 3, 10);
    expect_ok(b.check());
    assert!(matches!(b.run().unwrap().core, ValueCore::Int(-7)));
}

#[test]
fn integer_multiplication_gives_the_product() {
    let mut b = Builder::new();
    let result = b.int_signature();
    binary_int_main("opMul", result, &mut b, -6, 7);
    expect_ok(b.check());
    assert!(matches!(b.run().unwrap().core, ValueCore::Int(-42)));
}

#[test]
fn integer_multiplication_overflow_is_an_error() {
    let mut b = Builder::new();
    let result = b.int_signature();
    binary_int_main("opMul", result, &mut b, i64::MAX, 2);
    expect_ok(b.check());
    assert_eq!(b.run().unwrap_err(), EvalError::IntegerOverflow);
}

#[test]
fn integer_equality_of_different_numbers_is_false() {
    let mut b = Builder::new();
    let result = b.bool_signature();
    binary_int_main("opEq", result, &mut b, 3, 4);
    expect_ok(b.check());
    assert!(matches!(b.run().unwrap().core, ValueCore::Bool(false)));
}

fn ordering_types(b: &mut Builder) -> (TypeDefId, TypeDefId) {
    let ordering = b.adt(
        "Data.Ordering",
        "Ordering",
        vec![("Less", vec![]), ("Equal", vec![]), ("Greater", vec![])],
    );
    let item = b.named_signature("Ordering", ordering);
    let option = b.adt("Data.Option", "Option", vec![("Some", vec![item]), ("None", vec![])]);
    (ordering, option)
}

#[test]
fn integer_comparison_gives_the_variant_of_the_ordering() {
    let mut b = Builder::new();
    let (ordering, _) = ordering_types(&mut b);
    let result = b.named_signature("Ordering", ordering);
    binary_int_main("cmp", result, &mut b, 8, 3);
    expect_ok(b.check());
    match b.run().unwrap().core {
        ValueCore::Variant(id, index, items) => {
            assert_eq!(id, ordering);
            assert_eq!(index, 2);
            assert!(items.is_empty());
        },
        other => panic!("unexpected value {:?}", other),
    }
}

#[test]
fn integer_partial_comparison_wraps_the_ordering() {
    let mut b = Builder::new();
    let (ordering, option) = ordering_types(&mut b);
    let inner = b.named_signature("Ordering", ordering);
    let result = b.signature(TypeSignature::Named("Option".to_string(), option, vec![inner]));
    binary_int_main("partialCmp", result, &mut b, 3, 8);
    expect_ok(b.check());
    match b.run().unwrap().core {
        ValueCore::Variant(id, index, items) => {
            assert_eq!(id, option);
            assert_eq!(index, 0);
            assert_eq!(items.len(), 1);
            match &items[0].core {
                ValueCore::Variant(inner, inner_index, _) => {
                    assert_eq!(*inner, ordering);
                    assert_eq!(*inner_index, 0);
                },
                other => panic!("unexpected value {:?}", other),
            }
        },
        other => panic!("unexpected value {:?}", other),
    }
}

#[test]
fn comparison_without_the_ordering_type_is_an_error() {
    let mut b = Builder::new();
    let result = b.int_signature();
    binary_int_main("cmp", result, &mut b, 8, 3);
    expect_ok(b.check());
    assert_eq!(b.run().unwrap_err(), EvalError::MissingBuiltin);
}

#[test]
fn integer_show_gives_the_decimal_text() {
    let mut b = Builder::new();
    let string_type = b.string_signature();
    let int_show = b.declare();
    let int_type = b.int_signature();
    let show_signature = b.function_signature(vec![int_type, string_type]);
    b.define(int_show, "Data.Int", "show", 1, None, Some(show_signature), NamedFunctionKind::Free);
    let main = b.declare();
    let number = b.literal(-305);
    let body = b.call(int_show, vec![number]);
    b.define(main, "Main", "main", 0, Some(body), None, NamedFunctionKind::Free);
    b.group(vec![main]);
    expect_ok(b.check());
    match b.run().unwrap().core {
        ValueCore::String(s) => assert_eq!(s, "-305"),
        other => panic!("unexpected value {:?}", other),
    }
}

#[test]
fn extern_without_an_implementation_is_an_error() {
    let mut b = Builder::new();
    let result = b.int_signature();
    binary_int_main("opPow", result, &mut b, 2, 3);
    expect_ok(b.check());
    assert!(matches!(b.run().unwrap_err(), EvalError::MissingExtern(_)));
}

#[test]
fn main_is_found_where_the_program_has_one() {
    let b = Builder::new();
    let interpreter: Interpreter<IntExtern> = Interpreter::new(b.program, DEPTH);
    assert!(interpreter.find_main().is_none());
    let (with_main, _) = add_program();
    let other: Interpreter<IntExtern> = Interpreter::new(with_main.program, DEPTH);
    assert_eq!(other.find_main(), Some(FunctionId { id: 2 }));
}

#[test]
fn builders_allocate_ids_in_order() {
    let mut program = Program::new(TypeVarGenerator::new());
    let first = program.get_expr_id();
    let second = program.get_expr_id();
    assert_eq!(first, ExprId { id: 0 });
    assert_eq!(second, ExprId { id: 1 });
    program.add_expr(second, ItemInfo::new(Expr::IntegerLiteral(7), LocationId { id: 3 }));
    assert!(program.exprs.get(first.id).is_none());
    assert!(matches!(program.get_expr(&second), Expr::IntegerLiteral(7)));
    assert_eq!(program.get_expr_location(&second), LocationId { id: 3 });
    let function = program.get_function_id();
    assert_eq!(function, FunctionId { id: 0 });
    let typedef = program.get_typedef_id();
    assert_eq!(typedef, TypeDefId { id: 0 });
    let signature = program.get_type_signature_id();
    program.add_type_signature(signature, ItemInfo::new(TypeSignature::Wildcard, LocationId { id: 4 }));
    assert!(matches!(program.get_type_signature(&signature), TypeSignature::Wildcard));
    assert_eq!(program.get_type_signature_location(&signature), LocationId { id: 4 });
}

#[test]
fn named_lookups_find_the_declared_types() {
    let mut b = Builder::new();
    let (ordering, option) = ordering_types(&mut b);
    assert_eq!(b.program.get_named_type("Data.Ordering", "Ordering"), ordering);
    assert_eq!(b.program.find_named_type("Data.Ordering", "Ordering"), Some(ordering));
    assert_eq!(b.program.find_named_type("Data.Ordering", "Option"), None);
    assert_eq!(b.program.get_adt_by_name("Data.Option", "Option").variants.len(), 2);
    assert!(b.program.find_adt_by_name("Data.Option", "Missing").is_none());
    assert_eq!(b.program.get_adt(&ordering).variants.len(), 3);
    assert_eq!(
        b.program.get_module_and_name(option),
        ("Data.Option".to_string(), "Option".to_string())
    );
    assert!(b.program.find_module_and_name(TypeDefId { id: 900 }).is_none());
    let int_type = b.program.get_int_type();
    assert!(b.program.find_list_type(int_type).is_none());
    assert!(b.program.find_list_type_id().is_none());
    let ordering_type = b.program.get_ordering_type();
    assert_eq!(format!("{:?}", ordering_type), format!("Named(\"Ordering\", {:?}, [])", ordering));
    let option_type = b.program.get_option_type(ordering_type);
    assert!(option_type.is_concrete_type());
    assert!(b.program.find_show_type().is_none());
    b.class("Show");
    let show_type = b.program.get_show_type();
    assert!(!show_type.is_concrete_type());
    let list = b.plain_type("Data.List", "List");
    assert_eq!(b.program.get_list_type_id(), list);
    let list_type = b.program.get_list_type(b.program.get_bool_type());
    assert_eq!(list_type.get_base_type(), siko::ir::types::BaseType::Named(list));
    assert!(b.program.get_string_type().equals(&b.program.get_plain_type("Data.String", "String")));
    assert!(b.program.find_float_type().is_some());
}

fn group_ids(groups: &Vec<DependencyGroup>) -> Vec<Vec<usize>> {
    groups.iter().map(|g| g.items.iter().map(|f| f.id).collect()).collect()
}

/// `even n = if n == 0 then true else odd (n - 1)`, `odd` alike, and
/// `main = even 4`; the ids of `even`, `odd` and `main`.
fn even_odd_program() -> (Builder, FunctionId, FunctionId, FunctionId) {
    let mut b = Builder::new();
    let bool_type = b.bool_signature();
    let int_eq = b.int_extern("opEq", bool_type);
    let int_type = b.int_signature();
    let int_sub = b.int_extern("opSub", int_type);
    let main = b.declare();
    let even = b.declare();
    let odd = b.declare();
    for (this, other, at_zero) in [(even, odd, true), (odd, even, false)] {
        let n = b.arg(this, 0);
        let zero = b.literal(0);
        let is_zero = b.call(int_eq, vec![n, zero]);
        let base = bool_literal(&mut b, at_zero);
        let n2 = b.arg(this, 0);
        let one = b.literal(1);
        let less = b.call(int_sub, vec![n2, one]);
        let rec = b.call(other, vec![less]);
        let body = b.expr(Expr::If(is_zero, base, rec));
        let name = if at_zero { "even" } else { "odd" };
        b.define(this, "Main", name, 1, Some(body), None, NamedFunctionKind::Free);
    }
    let four = b.literal(4);
    let body = b.call(even, vec![four]);
    b.define(main, "Main", "main", 0, Some(body), None, NamedFunctionKind::Free);
    (b, even, odd, main)
}

#[test]
fn mutually_recursive_functions_share_a_group() {
    let (b, even, odd, main) = even_odd_program();
    let groups = group_ids(&dependency_groups(&b.program));
    let position = |f: FunctionId| groups.iter().position(|g| g.contains(&f.id)).unwrap();
    assert_eq!(groups.iter().map(|g| g.len()).sum::<usize>(), b.program.functions.len());
    assert_eq!(position(even), position(odd));
    assert_eq!(groups[position(even)], vec![even.id, odd.id]);
    assert_eq!(groups[position(main)], vec![main.id]);
    assert!(position(even) < position(main));
    assert!(position(FunctionId { id: 0 }) < position(even));
    assert!(position(FunctionId { id: 1 }) < position(even));
}

#[test]
fn callers_come_after_what_they_call() {
    let mut b = Builder::new();
    let first = b.declare();
    let second = b.declare();
    let third = b.declare();
    let one = b.literal(1);
    b.define(third, "Main", "c", 0, Some(one), None, NamedFunctionKind::Free);
    let call_third = b.call(third, vec![]);
    b.define(second, "Main", "b", 0, Some(call_third), None, NamedFunctionKind::Free);
    let call_second = b.call(second, vec![]);
    b.define(first, "Main", "main", 0, Some(call_second), None, NamedFunctionKind::Free);
    let groups = group_ids(&dependency_groups(&b.program));
    assert_eq!(groups, vec![vec![third.id], vec![second.id], vec![first.id]]);
}

#[test]
fn calls_are_collected_from_all_parts_of_a_body() {
    let mut b = Builder::new();
    let f = b.declare();
    let g = b.declare();
    let h = b.declare();
    let call_f = b.call(f, vec![]);
    let call_g = b.call(g, vec![]);
    let guard = bool_literal(&mut b, true);
    let inner = b.pattern(Pattern::Wildcard);
    let call_h = b.call(h, vec![]);
    let is_h = b.expr(Expr::Tuple(vec![call_h, guard]));
    let guarded = b.pattern(Pattern::Guarded(inner, is_h));
    let case = b.expr(Expr::CaseOf(call_f, vec![Case { pattern_id: guarded, body: call_g }]));
    let mut found: Vec<usize> = collect_calls(&b.program, case).iter().map(|f| f.id).collect();
    found.sort();
    assert_eq!(found, vec![f.id, g.id, h.id]);
    let literal = b.literal(3);
    assert!(collect_calls(&b.program, literal).is_empty());
}

#[test]
fn call_graph_lists_the_callees_of_each_function() {
    let (b, even, odd, main) = even_odd_program();
    let edges = build_call_graph(&b.program);
    assert_eq!(edges.len(), b.program.functions.len());
    assert!(edges[0].is_empty());
    assert!(edges[even.id].contains(&odd.id));
    assert!(edges[odd.id].contains(&even.id));
    assert_eq!(edges[main.id], vec![even.id]);
    let table = reachability(&edges);
    assert!(table[main.id][odd.id]);
    assert!(table[main.id][0]);
    assert!(!table[even.id][main.id]);
    assert!(table[odd.id][odd.id]);
}

#[test]
fn groups_follow_the_ranks_of_a_table() {
    let table = vec![
        vec![true, true, true],
        vec![false, true, false],
        vec![true, true, true],
    ];
    assert_eq!(group_ids(&group_by_rank(&table)), vec![vec![1], vec![0, 2]]);
    assert!(group_by_rank(&Vec::new()).is_empty());
}

#[test]
fn check_groups_the_functions_itself() {
    let (mut b, _, _, _) = even_odd_program();
    let checker = Typechecker::new();
    match checker.check(&mut b.program, DEPTH) {
        Ok(()) => {},
        Err(errors) => panic!("type errors: {:?}", errors),
    }
    let first = attached_types(&b.program);
    assert!(checker.check(&mut b.program, DEPTH).is_ok());
    assert_eq!(first, attached_types(&b.program));
    assert!(matches!(b.run().unwrap().core, ValueCore::Bool(true)));
}

#[test]
fn check_of_the_class_program_groups_the_defaults() {
    let mut b = eq_class_program(true, 1, 2);
    let checker = Typechecker::new();
    match checker.check(&mut b.program, DEPTH) {
        Ok(()) => {},
        Err(errors) => panic!("type errors: {:?}", errors),
    }
    assert!(matches!(b.run().unwrap().core, ValueCore::Bool(true)));
}

fn first_error(b: &mut Builder) -> TypecheckError {
    let mut errors = b.check().unwrap_err();
    assert!(!errors.is_empty());
    errors.remove(0)
}

#[test]
fn value_that_holds_itself_is_a_recursive_type() {
    let mut b = Builder::new();
    b.plain_type("Data.List", "List");
    let f = b.declare();
    let cond = bool_literal(&mut b, true);
    let x = b.arg(f, 0);
    let x2 = b.arg(f, 0);
    let list = b.expr(Expr::List(vec![x2]));
    let body = b.expr(Expr::If(cond, x, list));
    b.define(f, "Main", "f", 1, Some(body), None, NamedFunctionKind::Free);
    let main = b.declare();
    let one = b.literal(1);
    b.define(main, "Main", "main", 0, Some(one), None, NamedFunctionKind::Free);
    b.group(vec![f]);
    b.group(vec![main]);
    assert!(matches!(first_error(&mut b), TypecheckError::RecursiveType(_)));
}

#[test]
fn applying_a_function_to_itself_is_refused() {
    let mut b = Builder::new();
    let f = b.declare();
    let x = b.arg(f, 0);
    let x2 = b.arg(f, 0);
    let body = b.expr(Expr::DynamicFunctionCall(x, vec![x2]));
    b.define(f, "Main", "f", 1, Some(body), None, NamedFunctionKind::Free);
    let main = b.declare();
    let one = b.literal(1);
    b.define(main, "Main", "main", 0, Some(one), None, NamedFunctionKind::Free);
    b.group(vec![f]);
    b.group(vec![main]);
    assert!(matches!(first_error(&mut b), TypecheckError::FunctionArgumentMismatch(_, _, _)));
}

#[test]
fn record_pattern_with_too_few_parts_is_reported() {
    let mut b = Builder::new();
    let int_type = b.int_signature();
    let string_type = b.string_signature();
    let point = b.record("Main", "P", vec![("x", int_type), ("name", string_type)]);
    let constructor = match b.program.typedefs.get(point.id).unwrap() {
        TypeDef::Record(r) => r.constructor,
        _ => unreachable!(),
    };
    let main = b.declare();
    let seven = b.literal(7);
    let text = b.expr(Expr::StringLiteral("p".to_string()));
    let made = b.call(constructor, vec![seven, text]);
    let only = b.pattern(Pattern::Wildcard);
    let pattern = b.pattern(Pattern::Record(point, vec![only]));
    let one = b.literal(1);
    let body = b.expr(Expr::CaseOf(made, vec![Case { pattern_id: pattern, body: one }]));
    b.define(main, "Main", "main", 0, Some(body), None, NamedFunctionKind::Free);
    b.group(vec![main]);
    match first_error(&mut b) {
        TypecheckError::InvalidRecordPattern(_, name, 2, 1) => assert_eq!(name, "P"),
        other => panic!("unexpected error {:?}", other),
    }
}

#[test]
fn variant_pattern_with_too_many_parts_is_reported() {
    let mut b = Builder::new();
    let (ordering, _) = ordering_types(&mut b);
    let less = match b.program.typedefs.get(ordering.id).unwrap() {
        TypeDef::Adt(adt) => adt.variants[0].constructor,
        _ => unreachable!(),
    };
    let main = b.declare();
    let made = b.call(less, vec![]);
    let extra = b.pattern(Pattern::Wildcard);
    let pattern = b.pattern(Pattern::Variant(ordering, 0, vec![extra]));
    let one = b.literal(1);
    let body = b.expr(Expr::CaseOf(made, vec![Case { pattern_id: pattern, body: one }]));
    b.define(main, "Main", "main", 0, Some(body), None, NamedFunctionKind::Free);
    b.group(vec![main]);
    match first_error(&mut b) {
        TypecheckError::InvalidVariantPattern(_, name, 0, 1) => assert_eq!(name, "Less"),
        other => panic!("unexpected error {:?}", other),
    }
}

#[test]
fn dangling_expression_is_an_invalid_program() {
    let mut b = Builder::new();
    let main = b.declare();
    let missing = ExprId { id: 900 };
    let body = b.expr(Expr::Tuple(vec![missing]));
    b.define(main, "Main", "main", 0, Some(body), None, NamedFunctionKind::Free);
    b.group(vec![main]);
    assert!(matches!(first_error(&mut b), TypecheckError::InvalidProgram(_)));
}

#[test]
fn variant_pattern_picks_the_matching_case() {
    let mut b = Builder::new();
    let (ordering, _) = ordering_types(&mut b);
    let equal = match b.program.typedefs.get(ordering.id).unwrap() {
        TypeDef::Adt(adt) => adt.variants[1].constructor,
        _ => unreachable!(),
    };
    let main = b.declare();
    let made = b.call(equal, vec![]);
    let less_pattern = b.pattern(Pattern::Variant(ordering, 0, vec![]));
    let equal_pattern = b.pattern(Pattern::Variant(ordering, 1, vec![]));
    let one = b.literal(1);
    let two = b.literal(2);
    let body = b.expr(
        Expr::CaseOf(
            made,
            vec![
                Case { pattern_id: less_pattern, body: one },
                Case { pattern_id: equal_pattern, body: two },
            ],
        ),
    );
    b.define(main, "Main", "main", 0, Some(body), None, NamedFunctionKind::Free);
    b.group(vec![main]);
    expect_ok(b.check());
    assert!(matches!(b.run().unwrap().core, ValueCore::Int(2)));
}

#[test]
fn failed_bind_is_an_error() {
    let mut b = Builder::new();
    let main = b.declare();
    let one = b.literal(1);
    let two_pattern = b.pattern(Pattern::IntegerLiteral(2));
    let bind = b.expr(Expr::Bind(two_pattern, one));
    let body = b.expr(Expr::Do(vec![bind]));
    b.define(main, "Main", "main", 0, Some(body), None, NamedFunctionKind::Free);
    b.group(vec![main]);
    expect_ok(b.check());
    assert!(matches!(b.run().unwrap_err(), EvalError::BindFailed(_)));
}

#[test]
fn list_of_integers_is_a_list_value() {
    let mut b = Builder::new();
    b.plain_type("Data.List", "List");
    let main = b.declare();
    let one = b.literal(1);
    let two = b.literal(2);
    let body = b.expr(Expr::List(vec![one, two]));
    b.define(main, "Main", "main", 0, Some(body), None, NamedFunctionKind::Free);
    b.group(vec![main]);
    expect_ok(b.check());
    match b.run().unwrap().core {
        ValueCore::List(items) => {
            assert_eq!(items.len(), 2);
            assert!(matches!(items[1].core, ValueCore::Int(2)));
        },
        other => panic!("unexpected value {:?}", other),
    }
}

#[test]
fn list_with_items_of_two_types_is_a_mismatch() {
    let mut b = Builder::new();
    b.plain_type("Data.List", "List");
    let main = b.declare();
    let one = b.literal(1);
    let yes = bool_literal(&mut b, true);
    let body = b.expr(Expr::List(vec![one, yes]));
    b.define(main, "Main", "main", 0, Some(body), None, NamedFunctionKind::Free);
    b.group(vec![main]);
    assert!(matches!(first_error(&mut b), TypecheckError::TypeMismatch(_, _, _)));
}

#[test]
fn tuple_field_access_takes_the_item() {
    let mut b = Builder::new();
    let main = b.declare();
    let one = b.literal(1);
    let yes = bool_literal(&mut b, true);
    let pair = b.expr(Expr::Tuple(vec![one, yes]));
    let body = b.expr(Expr::TupleFieldAccess(1, pair));
    b.define(main, "Main", "main", 0, Some(body), None, NamedFunctionKind::Free);
    b.group(vec![main]);
    expect_ok(b.check());
    assert!(matches!(b.run().unwrap().core, ValueCore::Bool(true)));
}

#[test]
fn if_takes_the_branch_of_the_condition() {
    let mut b = Builder::new();
    let main = b.declare();
    let cond = bool_literal(&mut b, false);
    let one = b.literal(1);
    let two = b.literal(2);
    let body = b.expr(Expr::If(cond, one, two));
    b.define(main, "Main", "main", 0, Some(body), None, NamedFunctionKind::Free);
    b.group(vec![main]);
    expect_ok(b.check());
    assert!(matches!(b.run().unwrap().core, ValueCore::Int(2)));
}

#[test]
fn record_pattern_of_another_type_still_has_its_parts_counted() {
    let mut b = Builder::new();
    let int_type = b.int_signature();
    let string_type = b.string_signature();
    let point = b.record("Main", "P", vec![("x", int_type), ("name", string_type)]);
    let constructor = match b.program.typedefs.get(point.id).unwrap() {
        TypeDef::Record(r) => r.constructor,
        _ => unreachable!(),
    };
    let main = b.declare();
    let only = b.pattern(Pattern::Wildcard);
    let pattern = b.pattern(Pattern::Record(point, vec![only]));
    // The value of the pattern is used as an integer before the pattern is met.
    let cond = bool_literal(&mut b, true);
    let zero = b.literal(0);
    let used = b.expr(Expr::ExprValue(zero, pattern));
    let one = b.literal(1);
    let first = b.expr(Expr::If(cond, used, one));
    let seven = b.literal(7);
    let text = b.expr(Expr::StringLiteral("p".to_string()));
    let made = b.call(constructor, vec![seven, text]);
    let two = b.literal(2);
    let second = b.expr(Expr::CaseOf(made, vec![Case { pattern_id: pattern, body: two }]));
    let body = b.expr(Expr::Do(vec![first, second]));
    b.define(main, "Main", "main", 0, Some(body), None, NamedFunctionKind::Free);
    b.group(vec![main]);
    let errors = b.check().unwrap_err();
    let mismatches = errors.iter().filter(|e| matches!(e, TypecheckError::TypeMismatch(_, _, _))).count();
    let counts: Vec<&TypecheckError> = errors
        .iter()
        .filter(|e| matches!(e, TypecheckError::InvalidRecordPattern(_, _, _, _)))
        .collect();
    assert!(mismatches >= 1);
    assert_eq!(counts.len(), 1);
    match counts[0] {
        TypecheckError::InvalidRecordPattern(_, name, 2, 1) => assert_eq!(name, "P"),
        other => panic!("unexpected error {:?}", other),
    }
}

#[test]
fn built_in_concrete_types_are_those_the_program_declares() {
    let mut b = Builder::new();
    let (ordering, option) = ordering_types(&mut b);
    let string_id = b.string_id;
    let mut interpreter: Interpreter<IntExtern> = Interpreter::new(b.program, DEPTH);
    assert!(matches!(interpreter.get_string_concrete_type(), ConcreteType::Named(_, id, _) if id == string_id));
    assert!(matches!(interpreter.get_ordering_concrete_type(), ConcreteType::Named(_, id, _) if id == ordering));
    match interpreter.get_optional_ordering_concrete_type() {
        ConcreteType::Named(_, id, args) => {
            assert_eq!(id, option);
            assert_eq!(args.len(), 1);
        },
        other => panic!("unexpected type {:?}", other),
    }
    assert!(interpreter.find_bool_concrete_type().is_some());
    interpreter.build_typedefid_cache();
    assert_eq!(interpreter.get_typedef_id_cache().ordering_id, ordering);
    assert_eq!(interpreter.get_typedef_id_cache().option_variants.get_index("None"), 1);
    let bare: Interpreter<IntExtern> = Interpreter::new(Program::new(TypeVarGenerator::new()), DEPTH);
    assert!(bare.find_string_concrete_type().is_none());
    assert!(bare.find_optional_ordering_concrete_type().is_none());
}

#[test]
fn class_member_call_with_an_instance_runs_the_implementation() {
    let mut b = eq_class_program(false, 3, 3);
    expect_ok(b.check());
    let int_type = ConcreteType::Named("Int".to_string(), b.int_id, Vec::new());
    let bool_type = ConcreteType::Named("Bool".to_string(), b.bool_id, Vec::new());
    let three = int_value(&b, 3);
    let four = int_value(&b, 4);
    let eq = b.program.classes.get(0).unwrap().members[0].1;
    let mut interpreter: Interpreter<IntExtern> = Interpreter::new(b.program, DEPTH);
    register_extern_functions(&mut interpreter);
    interpreter.build_typedefid_cache();
    assert!(interpreter.member_function(eq, &int_type).is_ok());
    assert!(matches!(
        interpreter.member_function(eq, &bool_type),
        Err(EvalError::MissingInstance(_))
    ));
    let same = interpreter
        .call_class_member(&eq, vec![three.copy(), three.copy()], None, bool_type.copy(), DEPTH)
        .unwrap();
    assert!(matches!(same.core, ValueCore::Bool(true)));
    let other = interpreter
        .call_class_member(&eq, vec![three, four], None, bool_type.copy(), DEPTH)
        .unwrap();
    assert!(matches!(other.core, ValueCore::Bool(false)));
    let yes = Value::new(ValueCore::Bool(true), bool_type.copy());
    assert!(matches!(
        interpreter.dispatch_class_member(&eq, vec![yes.copy(), yes], None, bool_type, DEPTH),
        Err(EvalError::MissingInstance(_))
    ));
}

#[test]
fn tuple_access_beyond_the_tuple_says_how_long_a_tuple_was_expected() {
    let mut b = Builder::new();
    let main = b.declare();
    let one = b.literal(1);
    let two = b.literal(2);
    let pair = b.expr(Expr::Tuple(vec![one, two]));
    let body = b.expr(Expr::TupleFieldAccess(2, pair));
    b.define(main, "Main", "main", 0, Some(body), None, NamedFunctionKind::Free);
    b.group(vec![main]);
    let errors = b.check().unwrap_err();
    assert_eq!(errors.len(), 1);
    match &errors[0] {
        TypecheckError::TypeMismatch(_, expected, found) => {
            assert_eq!(expected, "<tuple with at least 3 item(s)>");
            assert_eq!(found, "(Int, Int)");
        },
        other => panic!("unexpected error {:?}", other),
    }
}

#[test]
fn field_access_on_no_record_names_the_records_expected() {
    let mut b = Builder::new();
    let int_type = b.int_signature();
    let a = b.record("Main", "A", vec![("x", int_type)]);
    let string_type = b.string_signature();
    let other = b.record("Main", "B", vec![("x", string_type)]);
    let main = b.declare();
    let one = b.literal(1);
    let body = b.expr(
        Expr::FieldAccess(
            vec![
                FieldAccessInfo { record_id: a, index: 0 },
                FieldAccessInfo { record_id: other, index: 0 },
            ],
            one,
        ),
    );
    b.define(main, "Main", "main", 0, Some(body), None, NamedFunctionKind::Free);
    b.group(vec![main]);
    match first_error(&mut b) {
        TypecheckError::TypeMismatch(_, expected, found) => {
            assert_eq!(expected, "A or B");
            assert_eq!(found, "Int");
        },
        other => panic!("unexpected error {:?}", other),
    }
}

#[test]
fn format_puts_no_constraint_on_its_own_type() {
    let mut b = Builder::new();
    let main = b.declare();
    let cond = bool_literal(&mut b, true);
    let one = b.literal(1);
    let format = b.expr(Expr::Formatter("plain".to_string(), vec![]));
    let body = b.expr(Expr::If(cond, format, one));
    b.define(main, "Main", "main", 0, Some(body), None, NamedFunctionKind::Free);
    b.group(vec![main]);
    expect_ok(b.check());
    match b.run().unwrap().core {
        ValueCore::String(s) => assert_eq!(s, "plain"),
        other => panic!("unexpected value {:?}", other),
    }
}

#[test]
fn run_returns_an_interpreter_with_the_integer_built_ins() {
    let (mut b, _) = add_program();
    expect_ok(b.check());
    let (interpreter, result) = Interpreter::<IntExtern>::run(b.program, DEPTH);
    assert!(matches!(result.unwrap().core, ValueCore::Int(3)));
    let names: Vec<&str> = interpreter.extern_functions.iter().map(|e| e.name.as_str()).collect();
    assert_eq!(names, vec!["opAdd", "opSub", "opMul", "opDiv", "opEq", "partialCmp", "cmp", "show"]);
    assert!(interpreter.extern_functions.iter().all(|e| e.module == "Data.Int"));
    assert!(interpreter.typedefid_cache.is_none());
}

#[test]
fn context_pairs_types_with_arguments_as_far_as_they_go() {
    let b = Builder::new();
    let int_type = ConcreteType::Named("Int".to_string(), b.int_id, Vec::new());
    let bool_type = ConcreteType::Named("Bool".to_string(), b.bool_id, Vec::new());
    let arg_types = vec![Type::Var(0, Vec::new()), Type::Var(1, Vec::new())];
    let args = vec![int_value(&b, 1)];
    let context = get_subtitution_context(&arg_types, &args, &bool_type, &Type::Var(2, Vec::new())).unwrap();
    assert!(context.get_type(0).unwrap().equals(&int_type));
    assert!(context.get_type(1).is_none());
    assert!(context.get_type(2).unwrap().equals(&bool_type));
    let clash = get_subtitution_context(&arg_types, &args, &bool_type, &Type::Var(0, Vec::new()));
    assert!(clash.is_none());
}
