use siko::interpreter::extern_function::VariantCache;
use siko::interpreter::value::float_equal;
use siko::ir::class::ClassId;
use siko::ir::class::InstanceId;
use siko::ir::concrete::ConcreteType;
use siko::ir::concrete::SubstitutionContext;
use siko::ir::concrete::TypeInstanceResolver;
use siko::ir::data::Adt;
use siko::ir::data::TypeDefId;
use siko::ir::data::Variant;
use siko::ir::function::FunctionId;
use siko::ir::type_signature::TypeSignatureId;
use siko::ir::type_var_generator::TypeVarGenerator;
use siko::ir::types::Type;
use siko::ir::function::FunctionId as Id;
use siko::typechecker::common::FunctionTypeInfo;
use siko::typechecker::common::FunctionTypeInfoStore;
use siko::typechecker::function_type::FunctionType;
use siko::typechecker::type_store::TypeIndex;
use siko::util::Counter;
use siko::util::ItemContainer;

fn int_type() -> Type {
    Type::Named("Int".to_string(), TypeDefId { id: 0 }, Vec::new())
}

fn concrete_int() -> ConcreteType {
    ConcreteType::Named("Int".to_string(), TypeDefId { id: 0 }, Vec::new())
}

fn concrete_bool() -> ConcreteType {
    ConcreteType::Named("Bool".to_string(), TypeDefId { id: 1 }, Vec::new())
}

fn var(index: usize) -> Type {
    Type::Var(index, Vec::new())
}

fn function(from: Type, to: Type) -> Type {
    Type::Function(Box::new(from), Box::new(to))
}

fn concrete_function(from: ConcreteType, to: ConcreteType) -> ConcreteType {
    ConcreteType::Function(Box::new(from), Box::new(to))
}

#[test]
fn counter_hands_out_consecutive_numbers() {
    let mut counter = Counter::new();
    assert_eq!(counter.peek(), 0);
    assert_eq!(counter.next(), Some(0));
    assert_eq!(counter.next(), Some(1));
    assert_eq!(counter.peek(), 2);
    let mut copy = counter.copy();
    assert_eq!(copy.next(), Some(2));
    assert_eq!(counter.next(), Some(2));
}

#[test]
fn generator_hands_out_fresh_indices() {
    let mut generator = TypeVarGenerator::new();
    assert_eq!(generator.get_new_index(), Some(0));
    assert_eq!(generator.get_new_index(), Some(1));
    assert_eq!(generator.peek(), 2);
    assert_eq!(generator.copy().peek(), 2);
}

#[test]
fn container_keeps_items_under_their_ids() {
    let mut container: ItemContainer<i64> = ItemContainer::new();
    let first = container.get_id();
    let second = container.get_id();
    assert_eq!((first, second), (0, 1));
    assert_eq!(container.len(), 2);
    assert!(container.get(first).is_none());
    container.add_item(second, 20);
    assert_eq!(container.get(second), Some(&20));
    container.insert(4, 40);
    assert_eq!(container.len(), 5);
    assert_eq!(container.get(4), Some(&40));
    assert!(container.get(3).is_none());
    assert!(container.get(9).is_none());
    container.insert(0, 5);
    assert_eq!(container.get(0), Some(&5));
    assert_eq!(container.len(), 5);
}

#[test]
fn schematic_type_becomes_concrete_under_a_context() {
    let mut context = SubstitutionContext::new();
    context.add_generic(0, concrete_int());
    context.add_generic(1, concrete_bool());
    let ty = function(var(0), Type::Tuple(vec![var(1), int_type()]));
    let concrete = ty.to_concrete_type(&context).unwrap();
    let expected = concrete_function(
        concrete_int(),
        ConcreteType::Tuple(vec![concrete_bool(), concrete_int()]),
    );
    assert!(concrete.equals(&expected));
    assert!(var(2).to_concrete_type(&context).is_none());
    assert!(context.get_type(1).unwrap().equals(&concrete_bool()));
    assert!(context.get_type(2).is_none());
}

#[test]
fn matching_finds_the_context_that_makes_the_type_concrete() {
    let ty = function(var(0), function(var(1), var(0)));
    let concrete = concrete_function(
        concrete_int(),
        concrete_function(concrete_bool(), concrete_int()),
    );
    let mut context = SubstitutionContext::new();
    assert!(ty.match_generic_types(&concrete, &mut context));
    assert!(context.get_type(0).unwrap().equals(&concrete_int()));
    assert!(context.get_type(1).unwrap().equals(&concrete_bool()));
    assert!(ty.to_concrete_type(&context).unwrap().equals(&concrete));
}

#[test]
fn matching_refuses_two_types_for_one_variable() {
    let ty = function(var(0), var(0));
    let concrete = concrete_function(concrete_int(), concrete_bool());
    let mut context = SubstitutionContext::new();
    assert!(!ty.match_generic_types(&concrete, &mut context));
}

#[test]
fn matching_refuses_another_shape() {
    let mut context = SubstitutionContext::new();
    assert!(!int_type().match_generic_types(&concrete_bool(), &mut context));
    assert!(!function(var(0), var(1)).match_generic_types(&concrete_int(), &mut context));
    assert!(!Type::Tuple(vec![var(0)]).match_generic_types(
        &ConcreteType::Tuple(vec![concrete_int(), concrete_int()]),
        &mut context,
    ));
}

#[test]
fn function_type_behind_some_arguments() {
    let ty = concrete_function(
        concrete_int(),
        concrete_function(concrete_bool(), concrete_int()),
    );
    assert!(ty.get_func_type(0).equals(&ty));
    assert!(ty.get_func_type(1).equals(&concrete_function(concrete_bool(), concrete_int())));
    assert!(ty.get_func_type(2).equals(&concrete_int()));
}

#[test]
fn runtime_instances_are_found_by_class_and_type() {
    let mut resolver = TypeInstanceResolver::new();
    resolver.add(ClassId { id: 1 }, concrete_int(), InstanceId { id: 10 });
    resolver.add(ClassId { id: 1 }, concrete_bool(), InstanceId { id: 11 });
    resolver.add(ClassId { id: 2 }, concrete_int(), InstanceId { id: 12 });
    assert_eq!(resolver.get(ClassId { id: 1 }, &concrete_bool()), Some(InstanceId { id: 11 }));
    assert_eq!(resolver.get(ClassId { id: 2 }, &concrete_int()), Some(InstanceId { id: 12 }));
    assert_eq!(resolver.get(ClassId { id: 2 }, &concrete_bool()), None);
    assert_eq!(resolver.get(ClassId { id: 1 }, &concrete_int()), Some(InstanceId { id: 10 }));
    assert_eq!(resolver.get(ClassId { id: 1 }, &concrete_int()), Some(InstanceId { id: 10 }));
}

fn variant(name: &str) -> Variant {
    Variant {
        name: name.to_string(),
        items: Vec::new(),
        type_signature_id: TypeSignatureId { id: 0 },
        constructor: FunctionId { id: 0 },
    }
}

#[test]
fn variant_cache_knows_the_position_of_each_variant() {
    let adt = Adt {
        name: "Ordering".to_string(),
        module: "Data.Ordering".to_string(),
        id: TypeDefId { id: 3 },
        type_args: Vec::new(),
        variants: vec![variant("Less"), variant("Equal"), variant("Greater")],
    };
    let cache = VariantCache::new(&adt);
    assert_eq!(cache.get_index("Less"), 0);
    assert_eq!(cache.get_index("Greater"), 2);
    assert_eq!(cache.find_index("Equal"), Some(1));
    assert_eq!(cache.find_index("Other"), None);
}

#[test]
fn floats_are_equal_as_numbers() {
    let one = 1.0f64.to_bits();
    let zero = 0.0f64.to_bits();
    let minus_zero = (-0.0f64).to_bits();
    let nan = f64::NAN.to_bits();
    assert!(float_equal(one, one));
    assert!(float_equal(zero, minus_zero));
    assert!(!float_equal(one, zero));
    assert!(!float_equal(nan, nan));
}

#[test]
fn function_type_is_taken_apart() {
    let f = FunctionType::new(int_type(), function(var(0), function(var(1), var(2))));
    assert!(f.get_return_type(1).equals(&function(var(0), function(var(1), var(2)))));
    assert!(f.get_return_type(2).equals(&function(var(1), var(2))));
    assert!(f.get_return_type(3).equals(&var(2)));
    assert!(f.get_return_type(7).equals(&var(2)));
    let mut args = vec![var(9)];
    f.get_arg_types(&mut args);
    assert_eq!(args.len(), 4);
    assert!(args[0].equals(&var(9)));
    assert!(args[1].equals(&int_type()));
    assert!(args[2].equals(&var(0)));
    assert!(args[3].equals(&var(1)));
}

fn info(name: &str, result: Type) -> FunctionTypeInfo {
    FunctionTypeInfo {
        displayed_name: name.to_string(),
        args: Vec::new(),
        typed: false,
        result: result.copy(),
        function_type: result,
        body: None,
        location_id: siko::location_info::LocationId { id: 0 },
    }
}

#[test]
fn store_gives_the_information_added_last() {
    let mut store = FunctionTypeInfoStore::new();
    store.add(Id { id: 2 }, info("f", int_type()));
    store.add(Id { id: 2 }, info("g", var(1)));
    assert_eq!(store.get(&Id { id: 2 }).displayed_name, "g");
    assert!(store.get(&Id { id: 2 }).result.equals(&var(1)));
    assert!(store.find(&Id { id: 2 }).is_some());
    assert!(store.find(&Id { id: 1 }).is_none());
    assert!(store.find(&Id { id: 9 }).is_none());
    assert!(store.replace(&Id { id: 2 }, info("h", int_type())));
    assert!(!store.replace(&Id { id: 1 }, info("h", int_type())));
    assert_eq!(store.get(&Id { id: 2 }).displayed_name, "h");
    store.get_mut(&Id { id: 2 }).typed = true;
    store.get_mut(&Id { id: 2 }).result = var(4);
    assert!(store.get(&Id { id: 2 }).typed);
    assert!(store.get(&Id { id: 2 }).result.equals(&var(4)));
    assert_eq!(store.get(&Id { id: 2 }).displayed_name, "h");
}

#[test]
fn type_index_holds_its_number() {
    assert_eq!(TypeIndex::new(7), TypeIndex { id: 7 });
    assert!(TypeIndex::new(1) < TypeIndex::new(2));
}

#[test]
fn type_definition_is_changed_in_place() {
    let mut definition = siko::ir::data::TypeDef::Adt(Adt {
        name: "Ordering".to_string(),
        module: "Data.Ordering".to_string(),
        id: TypeDefId { id: 3 },
        type_args: Vec::new(),
        variants: vec![variant("Less")],
    });
    definition.get_mut_adt().variants.push(variant("Equal"));
    assert_eq!(definition.get_adt().variants.len(), 2);
    assert_eq!(definition.get_adt().variants[1].name, "Equal");
}

#[test]
fn types_are_shown_as_text() {
    let list = Type::Named("List".to_string(), TypeDefId { id: 2 }, vec![var(0)]);
    let fixed = Type::FixedVar(1, "a".to_string(), Vec::new());
    assert_eq!(int_type().as_string(), "Int");
    assert_eq!(var(12).as_string(), "t12");
    assert_eq!(fixed.as_string(), "a");
    assert_eq!(Type::Tuple(Vec::new()).as_string(), "()");
    assert_eq!(Type::Tuple(vec![int_type(), list.copy(), var(3)]).as_string(), "(Int, List t0, t3)");
    assert_eq!(function(int_type(), function(var(0), fixed.copy())).as_string(), "Int -> t0 -> a");
    assert_eq!(function(function(int_type(), var(0)), list.copy()).as_string(), "(Int -> t0) -> List t0");
    let nested = Type::Named(
        "Map".to_string(),
        TypeDefId { id: 3 },
        vec![int_type(), list.copy(), function(var(0), var(1))],
    );
    assert_eq!(nested.as_string(), "Map Int (List t0) (t0 -> t1)");
    let f = FunctionType::new(function(var(0), var(1)), list);
    assert_eq!(f.as_string(), "(t0 -> t1) -> List t0");
}
